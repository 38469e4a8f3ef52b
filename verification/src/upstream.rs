//! Everything that is taken on trust from jj-lib, itertools, rand and std.

use itertools::Itertools;
use jj_lib::backend;
use jj_lib::config::ConfigGetError;
use jj_lib::config::ConfigLayer;
use jj_lib::config::ConfigLoadError;
use jj_lib::config::ConfigSource;
use jj_lib::config::StackedConfig;
use jj_lib::merge::Merge;
use jj_lib::object_id::ObjectId as _;
use jj_lib::repo_path::RepoPathBuf;
use jj_lib::settings::UserSettings;
use jj_lib::signing::SignInitError;
use jj_lib::signing::Signer;
use jj_lib::store::Store;
use jj_lib::tree_builder::TreeBuilder;
use std::sync::Arc;
use vstd::prelude::*;

use crate::config::insert_point;
use crate::config::LayerSource;
use crate::config::DEFAULT_CONFIG;
use crate::ids::hex;
use crate::ids::id_views;
use crate::ids::is_hex;
use crate::ids::unhex;
use crate::ids::TreeId;
use crate::repo_path::fs_path;
use crate::repo_path::has_dots;
use crate::repo_path::is_repo_path;
use crate::text::joined;
use crate::text::views;
use crate::tree::no_overrides;
use crate::tree::MergedTreeId;
use crate::tree::TreeValue;
use crate::tree::TreeValueView;

verus! {

/// Calls `jj_lib::object_id::ObjectId::hex` on a `jj_lib::backend::CommitId`
/// with these bytes. Every identifier type of jj-lib gets this method from one
/// macro, which hands the bytes to `hex::encode`; `Display` of the commit,
/// tree, file and symlink identifiers prints the same text.
///
/// Claimed: the result is two lower-case digits for each byte.
#[verifier::external_body]
pub(crate) fn encode_hex(bytes: &[u8]) -> (res: String)
    ensures
        res@ == hex(bytes@),
{
    jj_lib::backend::CommitId::from_bytes(bytes).hex()
}

/// Calls `jj_lib::backend::ChangeId::from_hex`, which panics unless the text is
/// made of whole bytes in hexadecimal of either case.
///
/// Claimed: the result holds the bytes that the text stands for.
#[verifier::external_body]
pub(crate) fn decode_hex(text: &'static str) -> (res: Vec<u8>)
    requires
        is_hex(text@),
    ensures
        res@ == unhex(text@),
{
    jj_lib::backend::ChangeId::from_hex(text).to_bytes()
}

/// Calls `itertools::Itertools::join`.
///
/// Claimed: the result is the parts in order, with `sep` between neighbours.
#[verifier::external_body]
pub(crate) fn join_texts(parts: &Vec<String>, sep: &str) -> (res: String)
    ensures
        res@ == joined(views(parts@), sep@),
{
    parts.iter().join(sep)
}

/// What `Debug` of `str` prints: the text in double quotes, with what does not
/// print plainly escaped.
pub uninterp spec fn debug_text(text: Seq<char>) -> Seq<char>;

/// Formats the text with `Debug` of `str`.
///
/// Claimed: the result is a function of the text, and is named `debug_text`;
/// a line break is among what is escaped, so the result holds none.
#[verifier::external_body]
pub(crate) fn debug_str(text: &str) -> (res: String)
    ensures
        res@ == debug_text(text@),
        !res@.contains('\n'),
{
    format!("{text:?}")
}

/// Formats the path with `Debug` of `jj_lib::repo_path::RepoPath`, which prints
/// the text of the path with `Debug` of `str`. Making the path from text that
/// holds an empty component would panic.
///
/// Claimed: the result is what `Debug` of `str` prints of the text, and so holds
/// no line break.
#[verifier::external_body]
pub(crate) fn debug_repo_path(path: &str) -> (res: String)
    requires
        is_repo_path(path@),
    ensures
        res@ == debug_text(path@),
        !res@.contains('\n'),
{
    format!("{:?}", jj_lib::repo_path::RepoPath::from_internal_string(path))
}

/// An error of `jj_lib::repo_path::RepoPath::to_fs_path`.
#[verifier::external_type_specification]
#[verifier::external_body]
pub struct ExInvalidRepoPathError(jj_lib::repo_path::InvalidRepoPathError);

/// Calls `jj_lib::repo_path::RepoPath::to_fs_path`, on a system where the slash
/// is the one path separator. Making the path from text that holds an empty
/// component would panic.
///
/// Claimed: the call fails if and only if a component is `.` or `..`; else the
/// result is the path taken from `base`, and a lone dot where both are empty.
#[verifier::external_body]
pub(crate) fn repo_path_to_fs(path: &str, base: &str) -> (res: Result<
    String,
    jj_lib::repo_path::InvalidRepoPathError,
>)
    requires
        is_repo_path(path@),
    ensures
        res is Err <==> has_dots(path@),
        res matches Ok(place) ==> place@ == fs_path(base@, path@),
{
    let repo_path = jj_lib::repo_path::RepoPath::from_internal_string(path);
    let place = repo_path.to_fs_path(std::path::Path::new(base))?;
    Ok(place.into_os_string().into_string().unwrap())
}

/// Draws a number with `rand::random`. Nothing is claimed of it.
#[verifier::external_body]
pub(crate) fn random_number() -> u32 {
    rand::random::<u32>()
}

/// Calls `jj_lib::backend::MergedTreeId::to_merge` and walks the terms with
/// `jj_lib::merge::Merge::iter`. A merge of an even number of terms cannot be
/// made.
///
/// Claimed: the result holds the one tree, or the terms of the merge in order.
#[verifier::external_body]
pub(crate) fn merge_terms(tree: &MergedTreeId) -> (res: Vec<TreeId>)
    requires
        tree.wf(),
    ensures
        id_views(res@) == tree@,
{
    let given = match tree {
        MergedTreeId::Legacy(id) => backend::MergedTreeId::Legacy(
            backend::TreeId::from_bytes(id.as_bytes()),
        ),
        MergedTreeId::Merge(ids) => backend::MergedTreeId::Merge(
            Merge::from_vec(
                ids.iter().map(|id| backend::TreeId::from_bytes(id.as_bytes())).collect_vec(),
            ),
        ),
    };
    given.to_merge().iter().map(|id| TreeId::new(id.to_bytes())).collect_vec()
}

/// The store of a repository.
#[verifier::external_type_specification]
#[verifier::external_body]
pub struct ExStore(Store);

/// A tree in the making: the tree that it starts from, and the entries that it
/// overrides.
#[verifier::external_type_specification]
#[verifier::external_body]
pub struct ExTreeBuilder(TreeBuilder);

/// What a tree builder puts at each path that it overrides; `None` where it
/// removes what is there.
pub uninterp spec fn overrides(builder: TreeBuilder) -> Map<Seq<char>, Option<TreeValueView>>;

/// The tree that a tree builder starts from.
pub uninterp spec fn base_tree(builder: TreeBuilder) -> Seq<u8>;

/// Calls `jj_lib::store::Store::tree_builder`.
///
/// Claimed: the builder starts from the given tree and overrides nothing.
#[verifier::external_body]
pub(crate) fn new_tree_builder(store: &Arc<Store>, base: &[u8]) -> (res: TreeBuilder)
    ensures
        base_tree(res) == base@,
        overrides(res) == no_overrides(),
{
    store.tree_builder(backend::TreeId::from_bytes(base))
}

/// Calls `jj_lib::tree_builder::TreeBuilder::set`, which panics on the root.
/// Making the path from text that holds an empty component would panic too.
///
/// Claimed: the builder puts `value` at `path`, and overrides the same as
/// before at every other path; the tree that it starts from stays the same.
#[verifier::external_body]
pub(crate) fn set_entry(builder: &mut TreeBuilder, path: &str, value: TreeValue)
    requires
        is_repo_path(path@),
        path@.len() > 0,
    ensures
        overrides(*final(builder)) == overrides(*old(builder)).insert(path@, Some(value@)),
        base_tree(*final(builder)) == base_tree(*old(builder)),
{
    let value = match value {
        TreeValue::File { id, executable } => backend::TreeValue::File {
            id: backend::FileId::from_bytes(id.as_bytes()),
            executable,
        },
        TreeValue::Symlink(id) => backend::TreeValue::Symlink(backend::SymlinkId::from_bytes(id.as_bytes())),
        TreeValue::Tree(id) => backend::TreeValue::Tree(backend::TreeId::from_bytes(id.as_bytes())),
        TreeValue::GitSubmodule(id) => backend::TreeValue::GitSubmodule(
            backend::CommitId::from_bytes(id.as_bytes()),
        ),
        TreeValue::Conflict(id) => backend::TreeValue::Conflict(backend::ConflictId::from_bytes(id.as_bytes())),
    };
    builder.set(RepoPathBuf::from_internal_string(path), value);
}

/// Calls `jj_lib::merge::Merge::into_resolved`. A merge of an even number of
/// terms cannot be made.
///
/// Claimed: one term is handed back by itself, and more terms are handed back
/// as they are.
#[verifier::external_body]
pub(crate) fn into_resolved(terms: Vec<Option<TreeValue>>) -> (res: Result<
    Option<TreeValue>,
    Vec<Option<TreeValue>>,
>)
    requires
        terms@.len() % 2 == 1,
    ensures
        match res {
            Ok(value) => terms@.len() == 1 && value == terms@[0],
            Err(rest) => terms@.len() > 1 && rest@ == terms@,
        },
{
    Merge::from_vec(terms).into_resolved().map_err(|merge| merge.into_iter().collect_vec())
}

/// What `String::from_utf8_lossy` makes of the bytes.
pub uninterp spec fn lossy_text(bytes: Seq<u8>) -> Seq<char>;

/// Calls `String::from_utf8_lossy`.
///
/// Claimed: the result is a function of the bytes, and is named `lossy_text`;
/// where the bytes are valid UTF-8, it is the text that they encode.
#[verifier::external_body]
pub(crate) fn lossy_utf8(bytes: &[u8]) -> (res: String)
    ensures
        res@ == lossy_text(bytes@),
        vstd::utf8::valid_utf8(bytes@) ==> res@ == vstd::utf8::decode_utf8(bytes@),
{
    String::from_utf8_lossy(bytes).into_owned()
}

/// A set of configuration values and where they come from.
#[verifier::external_type_specification]
#[verifier::external_body]
pub struct ExConfigLayer(ConfigLayer);

/// Layers of configuration values.
#[verifier::external_type_specification]
#[verifier::external_body]
pub struct ExStackedConfig(StackedConfig);

/// An error of `jj_lib::config::ConfigLayer::parse`.
#[verifier::external_type_specification]
#[verifier::external_body]
pub struct ExConfigLoadError(ConfigLoadError);

/// An error of `jj_lib::settings::UserSettings::from_config`.
#[verifier::external_type_specification]
#[verifier::external_body]
pub struct ExConfigGetError(ConfigGetError);

/// Settings that hold layers of configuration values.
#[verifier::external_type_specification]
#[verifier::external_body]
pub struct ExUserSettings(UserSettings);

/// The values of a layer: for each dotted name the value as it is written in
/// TOML, so that a text has its quotes. An empty table counts as a value.
pub uninterp spec fn layer_values(layer: ConfigLayer) -> Map<Seq<char>, Seq<char>>;

/// Where a layer comes from.
pub uninterp spec fn layer_source(layer: ConfigLayer) -> LayerSource;

/// The layers of a configuration, in order.
pub uninterp spec fn config_layers(config: StackedConfig) -> Seq<
    (LayerSource, Map<Seq<char>, Seq<char>>),
>;

/// The layers of the configuration that settings hold, in order.
pub uninterp spec fn settings_layers(settings: UserSettings) -> Seq<
    (LayerSource, Map<Seq<char>, Seq<char>>),
>;

/// What `jj_lib::config::ConfigLayer::parse` reads from a text: its values, or
/// nothing if the text is not TOML.
pub uninterp spec fn toml_values(text: Seq<char>) -> Option<Map<Seq<char>, Seq<char>>>;

/// Calls `jj_lib::config::ConfigLayer::parse`.
///
/// Claimed: whether the text can be read, and which values it holds, is a
/// function of the text, named `toml_values`; the layer comes from `source`.
#[verifier::external_body]
pub(crate) fn parse_config_layer(source: LayerSource, text: &str) -> (res: Result<
    ConfigLayer,
    ConfigLoadError,
>)
    ensures
        res is Ok <==> toml_values(text@) is Some,
        res matches Ok(layer) ==> layer_source(layer) == source && Some(layer_values(layer))
            == toml_values(text@),
{
    let source = match source {
        LayerSource::Default => ConfigSource::Default,
        LayerSource::EnvBase => ConfigSource::EnvBase,
        LayerSource::User => ConfigSource::User,
        LayerSource::Repo => ConfigSource::Repo,
        LayerSource::EnvOverrides => ConfigSource::EnvOverrides,
        LayerSource::CommandArg => ConfigSource::CommandArg,
    };
    ConfigLayer::parse(source, text)
}

/// Calls `jj_lib::config::StackedConfig::with_defaults`.
///
/// Claimed: the result has one layer, of defaults, with the values of the text
/// that jj-lib holds for it, which is `DEFAULT_CONFIG`.
#[verifier::external_body]
pub(crate) fn default_config() -> (res: StackedConfig)
    ensures
        config_layers(res).len() == 1,
        config_layers(res)[0].0 == LayerSource::Default,
        toml_values(DEFAULT_CONFIG@) == Some(config_layers(res)[0].1),
{
    StackedConfig::with_defaults()
}

/// Calls `jj_lib::config::StackedConfig::add_layer`.
///
/// Claimed: the layer goes in at `insert_point`, and the others stay in order.
#[verifier::external_body]
pub(crate) fn add_config_layer(config: &mut StackedConfig, layer: ConfigLayer)
    ensures
        config_layers(*final(config)) == config_layers(*old(config)).insert(
            insert_point(config_layers(*old(config)), layer_source(layer)),
            (layer_source(layer), layer_values(layer)),
        ),
{
    config.add_layer(layer);
}

/// Whether `jj_lib::settings::UserSettings::from_config` finds every value that
/// it needs in the layers, with the right type.
pub uninterp spec fn settings_load(layers: Seq<(LayerSource, Map<Seq<char>, Seq<char>>)>) -> bool;

/// Calls `jj_lib::settings::UserSettings::from_config`.
///
/// Claimed: whether the call succeeds is a function of the layers, named
/// `settings_load`; the settings hold the layers of the configuration.
#[verifier::external_body]
pub(crate) fn load_settings(config: StackedConfig) -> (res: Result<UserSettings, ConfigGetError>)
    ensures
        res is Ok <==> settings_load(config_layers(config)),
        res matches Ok(settings) ==> settings_layers(settings) == config_layers(config),
{
    UserSettings::from_config(config)
}

/// What `jj_lib::config::StackedConfig::get` finds in the layers as the text
/// for a dotted name.
pub uninterp spec fn configured_text(
    layers: Seq<(LayerSource, Map<Seq<char>, Seq<char>>)>,
    name: Seq<char>,
) -> Option<Seq<char>>;

/// Calls `jj_lib::settings::UserSettings::user_name`.
///
/// Claimed: the result is the text that the layers configure for `user.name`.
#[verifier::external_body]
pub(crate) fn settings_user_name(settings: &UserSettings) -> (res: &str)
    ensures
        configured_text(settings_layers(*settings), "user.name"@) == Some(res@),
{
    settings.user_name()
}

/// Calls `jj_lib::settings::UserSettings::user_email`.
///
/// Claimed: the result is the text that the layers configure for `user.email`.
#[verifier::external_body]
pub(crate) fn settings_user_email(settings: &UserSettings) -> (res: &str)
    ensures
        configured_text(settings_layers(*settings), "user.email"@) == Some(res@),
{
    settings.user_email()
}

/// What signs commits and checks signatures.
#[verifier::external_type_specification]
#[verifier::external_body]
pub struct ExSigner(Signer);

/// An error of `jj_lib::signing::Signer::from_settings`.
#[verifier::external_type_specification]
#[verifier::external_body]
pub struct ExSignInitError(SignInitError);

/// The layers of the settings that a signer was made from.
pub uninterp spec fn signer_layers(signer: Signer) -> Seq<
    (LayerSource, Map<Seq<char>, Seq<char>>),
>;

/// Whether `jj_lib::signing::Signer::from_settings` finds a known way to sign,
/// or none at all, and what the ways to sign need in the layers.
pub uninterp spec fn signer_loads(layers: Seq<(LayerSource, Map<Seq<char>, Seq<char>>)>) -> bool;

/// Calls `jj_lib::signing::Signer::from_settings`.
///
/// Claimed: whether the call succeeds is a function of the layers of the
/// settings, named `signer_loads`; the signer is made from these layers.
#[verifier::external_body]
pub(crate) fn load_signer(settings: &UserSettings) -> (res: Result<Signer, SignInitError>)
    ensures
        res is Ok <==> signer_loads(settings_layers(*settings)),
        res matches Ok(signer) ==> signer_layers(signer) == settings_layers(*settings),
{
    Signer::from_settings(settings)
}

} // verus!
