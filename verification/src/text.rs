//! Text: decimal numbers, joining, substring search, and line breaks.

use vstd::prelude::*;

verus! {

/// The character that stands for the decimal digit `d`.
pub open spec fn digit_char(d: nat) -> char
    recommends
        d < 10,
{
    (48 + d) as char
}

/// `n` written in decimal, without leading zeros.
pub open spec fn decimal(n: nat) -> Seq<char>
    decreases n,
{
    if n < 10 {
        seq![digit_char(n)]
    } else {
        decimal(n / 10).push(digit_char(n % 10))
    }
}

/// Whether `c` is one of the ten decimal digits.
pub open spec fn is_digit(c: char) -> bool {
    '0' <= c <= '9'
}

/// A decimal number is never empty and holds nothing but digits.
pub proof fn decimal_is_digits(n: nat)
    ensures
        decimal(n).len() > 0,
        forall|i: int| 0 <= i < decimal(n).len() ==> is_digit(#[trigger] decimal(n)[i]),
    decreases n,
{
    if n >= 10 {
        decimal_is_digits(n / 10);
    }
}

/// Different numbers are written differently.
pub proof fn decimal_injective(a: nat, b: nat)
    requires
        decimal(a) == decimal(b),
    ensures
        a == b,
    decreases a,
{
    let x = decimal(a);
    let y = decimal(b);
    if a >= 10 {
        decimal_is_digits(a / 10);
    }
    if b >= 10 {
        decimal_is_digits(b / 10);
    }
    if a >= 10 && b >= 10 {
        assert(decimal(a / 10) =~= x.drop_last());
        assert(decimal(b / 10) =~= y.drop_last());
        decimal_injective(a / 10, b / 10);
        assert(x.last() == digit_char(a % 10));
        assert(y.last() == digit_char(b % 10));
    } else if a < 10 && b < 10 {
        assert(x[0] == digit_char(a));
        assert(y[0] == digit_char(b));
    } else {
        assert(x.len() != y.len());
    }
}

/// The parts one after the other, with `sep` between neighbours.
pub open spec fn joined(parts: Seq<Seq<char>>, sep: Seq<char>) -> Seq<char>
    decreases parts.len(),
{
    if parts.len() == 0 {
        Seq::empty()
    } else if parts.len() == 1 {
        parts[0]
    } else {
        joined(parts.drop_last(), sep) + sep + parts.last()
    }
}

/// The parts one after the other.
pub open spec fn concatenated(parts: Seq<Seq<char>>) -> Seq<char>
    decreases parts.len(),
{
    if parts.len() == 0 {
        Seq::empty()
    } else {
        concatenated(parts.drop_last()) + parts.last()
    }
}

/// The number that the decimal digits of `text` stand for, the last digit being
/// the ones.
pub open spec fn number_of(text: Seq<char>) -> nat
    decreases text.len(),
{
    if text.len() == 0 {
        0
    } else {
        10 * number_of(text.drop_last()) + (text.last() as nat - '0' as nat) as nat
    }
}

/// A decimal number reads as the number that it was written for, and begins
/// with a zero only if it is zero.
pub proof fn decimal_reads_back(n: nat)
    ensures
        number_of(decimal(n)) == n,
        n < 10 ==> decimal(n).len() == 1,
        n > 0 ==> decimal(n)[0] != '0',
    decreases n,
{
    if n < 10 {
        let text = decimal(n);
        assert(text.drop_last() =~= Seq::<char>::empty());
        assert(number_of(text.drop_last()) == 0);
        assert(text.last() as nat == 48 + n);
    } else {
        decimal_reads_back(n / 10);
        decimal_is_digits(n / 10);
        let text = decimal(n);
        assert(text.drop_last() =~= decimal(n / 10));
        assert(text.last() as nat == 48 + n % 10);
    }
}

/// Joining nothing gives nothing, one part stands alone, and each further part
/// follows behind a separator.
pub proof fn joined_grows(parts: Seq<Seq<char>>, sep: Seq<char>, part: Seq<char>)
    ensures
        joined(Seq::empty(), sep) == Seq::<char>::empty(),
        joined(seq![part], sep) == part,
        parts.len() > 0 ==> joined(parts.push(part), sep) == joined(parts, sep) + sep + part,
{
    assert(seq![part][0] == part);
    assert(parts.push(part).drop_last() =~= parts);
}

/// Putting nothing together gives nothing, and each further part stands at the
/// end.
pub proof fn concatenated_grows(parts: Seq<Seq<char>>, part: Seq<char>)
    ensures
        concatenated(Seq::empty()) == Seq::<char>::empty(),
        concatenated(parts.push(part)) == concatenated(parts) + part,
{
    assert(parts.push(part).drop_last() =~= parts);
}

/// Whether `needle` stands in `hay` from position `at` on.
pub open spec fn occurs_at(hay: Seq<char>, needle: Seq<char>, at: int) -> bool {
    &&& 0 <= at
    &&& at + needle.len() <= hay.len()
    &&& hay.subrange(at, at + needle.len()) == needle
}

/// Whether `needle` stands anywhere in `hay`.
pub open spec fn occurs_in(hay: Seq<char>, needle: Seq<char>) -> bool {
    exists|at: int| occurs_at(hay, needle, at)
}

/// How many line breaks `text` holds.
pub open spec fn line_breaks(text: Seq<char>) -> nat
    decreases text.len(),
{
    if text.len() == 0 {
        0
    } else if text.last() == '\n' {
        line_breaks(text.drop_last()) + 1
    } else {
        line_breaks(text.drop_last())
    }
}

/// The line breaks of two texts add up.
pub proof fn line_breaks_add(a: Seq<char>, b: Seq<char>)
    ensures
        line_breaks(a + b) == line_breaks(a) + line_breaks(b),
    decreases b.len(),
{
    if b.len() == 0 {
        assert(a + b =~= a);
    } else {
        line_breaks_add(a, b.drop_last());
        assert((a + b).drop_last() =~= a + b.drop_last());
    }
}

/// A text holds no line break if and only if it counts none.
pub proof fn line_breaks_none(text: Seq<char>)
    ensures
        line_breaks(text) == 0 <==> !text.contains('\n'),
    decreases text.len(),
{
    if text.len() > 0 {
        let shorter = text.drop_last();
        line_breaks_none(shorter);
        if text.last() == '\n' {
            assert(text[text.len() - 1] == '\n');
        } else if text.contains('\n') {
            let i = choose|i: int| 0 <= i < text.len() && text[i] == '\n';
            assert(shorter[i] == '\n');
        } else if shorter.contains('\n') {
            let i = choose|i: int| 0 <= i < shorter.len() && shorter[i] == '\n';
            assert(text[i] == '\n');
        }
    }
}

/// One text stands in another if and only if the other is that text with
/// something before it and something behind it.
pub proof fn occurs_in_parts(hay: Seq<char>, needle: Seq<char>)
    ensures
        occurs_in(hay, needle) <==> exists|before: Seq<char>, after: Seq<char>|
            hay == #[trigger] (before + needle + after),
{
    if occurs_in(hay, needle) {
        let at = choose|at: int| occurs_at(hay, needle, at);
        let before = hay.take(at);
        let after = hay.skip(at + needle.len());
        assert(hay =~= before + needle + after);
    }
    if exists|before: Seq<char>, after: Seq<char>| hay == #[trigger] (before + needle + after) {
        let (before, after) = choose|before: Seq<char>, after: Seq<char>|
            hay == #[trigger] (before + needle + after);
        let at = before.len() as int;
        assert(hay.subrange(at, at + needle.len()) =~= needle);
        assert(occurs_at(hay, needle, at));
    }
}

/// The views of a list of strings are those of its strings, one by one.
pub proof fn views_are_the_texts(list: Seq<String>)
    ensures
        views(list).len() == list.len(),
        forall|i: int| 0 <= i < list.len() ==> #[trigger] views(list)[i] == list[i]@,
{
}

/// A text of one character counts one line break if it is one, and else none.
pub proof fn line_breaks_of_one(c: char)
    ensures
        line_breaks(seq![c]) == if c == '\n' {
            1nat
        } else {
            0nat
        },
        line_breaks(Seq::empty()) == 0,
{
    assert(seq![c].drop_last() =~= Seq::<char>::empty());
    assert(line_breaks(Seq::<char>::empty()) == 0);
}

/// The views of a list of strings.
pub open spec fn views(list: Seq<String>) -> Seq<Seq<char>> {
    list.map_values(|s: String| s@)
}

fn digit_text(d: u8) -> (res: &'static str)
    requires
        d < 10,
    ensures
        res@ == seq![digit_char(d as nat)],
{
    proof {
        reveal_strlit("0");
        reveal_strlit("1");
        reveal_strlit("2");
        reveal_strlit("3");
        reveal_strlit("4");
        reveal_strlit("5");
        reveal_strlit("6");
        reveal_strlit("7");
        reveal_strlit("8");
        reveal_strlit("9");
    }
    match d {
        0 => "0",
        1 => "1",
        2 => "2",
        3 => "3",
        4 => "4",
        5 => "5",
        6 => "6",
        7 => "7",
        8 => "8",
        _ => "9",
    }
}

/// Writes `n` in decimal.
pub fn decimal_text(n: u128) -> (res: String)
    ensures
        res@ == decimal(n as nat),
        number_of(res@) == n,
        forall|i: int| 0 <= i < res@.len() ==> '0' <= #[trigger] res@[i] <= '9',
        n > 0 ==> res@[0] != '0',
        n == 0 ==> res@ == seq!['0'],
    decreases n,
{
    proof {
        decimal_reads_back(n as nat);
        decimal_is_digits(n as nat);
    }
    let last = digit_text((n % 10) as u8);
    if n < 10 {
        last.to_owned()
    } else {
        let mut text = decimal_text(n / 10);
        text.append(last);
        text
    }
}

/// The characters of `s`.
pub(crate) fn chars_of(s: &str) -> (res: Vec<char>)
    ensures
        res@ == s@,
{
    let mut res: Vec<char> = Vec::new();
    for c in it: s.chars()
        invariant
            res@ == it.seq().take(it.index()),
    {
        res.push(c);
    }
    res
}

fn matches_at(hay: &Vec<char>, needle: &Vec<char>, at: usize) -> (res: bool)
    requires
        at + needle.len() <= hay.len(),
    ensures
        res == occurs_at(hay@, needle@, at as int),
{
    let mut i: usize = 0;
    while i < needle.len()
        invariant
            i <= needle.len(),
            at + needle.len() <= hay.len(),
            forall|j: int| 0 <= j < i ==> hay@[at + j] == needle@[j],
        decreases needle.len() - i,
    {
        if hay[at + i] != needle[i] {
            proof {
                assert(hay@.subrange(at as int, at + needle.len())[i as int] == hay@[at + i]);
            }
            return false;
        }
        i = i + 1;
    }
    assert(hay@.subrange(at as int, at + needle.len()) =~= needle@);
    true
}

/// Whether `needle` stands anywhere in `hay`.
pub fn contains_text(hay: &str, needle: &str) -> (res: bool)
    ensures
        res == occurs_in(hay@, needle@),
        res <==> exists|before: Seq<char>, after: Seq<char>|
            hay@ == #[trigger] (before + needle@ + after),
{
    proof {
        occurs_in_parts(hay@, needle@);
    }
    let hay_chars = chars_of(hay);
    let needle_chars = chars_of(needle);
    if needle_chars.len() > hay_chars.len() {
        return false;
    }
    let last = hay_chars.len() - needle_chars.len();
    let mut at: usize = 0;
    while at <= last
        invariant
            at <= last + 1,
            last + needle_chars.len() == hay_chars.len(),
            hay_chars@ == hay@,
            needle_chars@ == needle@,
            forall|k: int| 0 <= k < at ==> !occurs_at(hay@, needle@, k),
            occurs_in(hay@, needle@) <==> exists|before: Seq<char>, after: Seq<char>|
                hay@ == #[trigger] (before + needle@ + after),
        decreases last + 1 - at,
    {
        if matches_at(&hay_chars, &needle_chars, at) {
            return true;
        }
        if at == last {
            return false;
        }
        at = at + 1;
    }
    false
}

/// Whether two texts are the same.
pub(crate) fn same_text(a: &str, b: &str) -> (res: bool)
    ensures
        res == (a@ == b@),
{
    a.to_owned() == b.to_owned()
}

/// What is said where an action failed, with an error that reads like `debug` in
/// debugging output, and nothing can go on without it.
pub open spec fn unwrap_message(debug: Seq<char>) -> Seq<char> {
    "called `Result::unwrap()` on an `Err` value: "@ + debug
}

/// Says that an action failed with the error `debug`.
pub(crate) fn unwrap_failed(debug: &str) -> (res: String)
    ensures
        res@ == unwrap_message(debug@),
        res@ == "called `Result::unwrap()` on an `Err` value: "@ + debug@,
{
    let mut res = "called `Result::unwrap()` on an `Err` value: ".to_owned();
    res.append(debug);
    res
}

/// What stands in a text also stands in any text that extends it.
pub proof fn occurs_in_extended(hay: Seq<char>, before: Seq<char>, after: Seq<char>, needle: Seq<char>)
    requires
        occurs_in(hay, needle),
    ensures
        occurs_in(before + hay + after, needle),
{
    let at = choose|at: int| occurs_at(hay, needle, at);
    let longer = before + hay + after;
    let moved = before.len() + at;
    assert(longer.subrange(moved, moved + needle.len()) =~= hay.subrange(at, at + needle.len()));
    assert(occurs_at(longer, needle, moved));
}

} // verus!
