//! Setting up a repository or a workspace in the environment of a test.
//!
//! The caller makes the directory and opens the repository; what comes next
//! after each of these, and what is reported, is decided here.

use jj_lib::settings::UserSettings;
use jj_lib::signing::SignInitError;
use jj_lib::signing::Signer;
use vstd::prelude::*;

use crate::config::is_base_settings;
use crate::config::user_settings;
use crate::config::ConfigError;
use crate::environment::join_path;
use crate::environment::join_paths;
use crate::environment::TestEnvironment;
use crate::environment::TestRepoBackend;
use crate::text::unwrap_failed;
use crate::text::unwrap_message;
use crate::text::views;
use crate::upstream::load_signer;
use crate::upstream::settings_layers;
use crate::upstream::signer_layers;
use crate::upstream::signer_loads;

verus! {

/// How an action of the caller ended.
#[derive(Debug, PartialEq, Eq)]
pub enum Outcome {
    /// The action was done.
    Success,
    /// The action failed, with an error that reads like this.
    Failure {
        /// The error as shown to a user.
        display: String,
        /// The error as shown in debugging output.
        debug: String,
    },
}

/// Why a setup ended without a repository.
#[derive(Debug)]
pub enum SetupFailure {
    /// The settings do not say how to sign, for this reason.
    Signer(SignInitError),
    /// An action of the caller failed, and this is what to say.
    Action(String),
}

/// What a repository or a workspace is set up from.
#[derive(Debug)]
pub struct SetupPlan {
    /// The environment that it lies in.
    pub env: TestEnvironment,
    /// The settings that it is made with.
    pub settings: UserSettings,
    /// Where it keeps its objects.
    pub backend: TestRepoBackend,
    /// The directory to make.
    pub dir: String,
}

impl SetupPlan {
    /// Whether the plan is for the directory `repo` of the environment.
    pub open spec fn in_repo_dir(self) -> bool {
        self.dir@ == join_path(self.env@, "repo"@)
    }

    fn new(env: TestEnvironment, settings: UserSettings, backend: TestRepoBackend) -> (res: Self)
        ensures
            res.env == env,
            res.settings == settings,
            res.backend == backend,
            res.in_repo_dir(),
    {
        let dir = join_paths(env.root(), "repo");
        SetupPlan { env, settings, backend, dir }
    }
}

/// A repository in the environment of a test.
#[derive(Debug)]
pub struct TestRepo {
    /// The environment that the repository lies in.
    pub env: TestEnvironment,
    /// The directory of the repository.
    pub repo_path: String,
}

/// How far the setup of a repository is.
#[derive(Debug)]
pub enum RepoSetup {
    /// The directory is to be made.
    CreateDir(SetupPlan),
    /// The repository is to be made in the directory, with the signer, which
    /// the caller takes.
    OpenRepo(SetupPlan, Option<Signer>),
    /// The repository is there.
    Ready(TestRepo),
    /// There will be no repository.
    Failed(SetupFailure),
}

/// Whether `setup` is the start of setting up a repository in `env`.
pub open spec fn repo_setup_starts(
    setup: RepoSetup,
    env: TestEnvironment,
    settings: UserSettings,
    backend: TestRepoBackend,
) -> bool {
    &&& setup matches RepoSetup::CreateDir(plan)
    &&& plan.env == env
    &&& plan.settings == settings
    &&& plan.backend == backend
    &&& plan.in_repo_dir()
}

/// Whether `res` is the start of setting up a repository in `env` with the
/// settings of the made-up user, or the error that making them gave.
pub open spec fn repo_setup_for_base_user(
    res: Result<RepoSetup, ConfigError>,
    env: TestEnvironment,
    backend: TestRepoBackend,
) -> bool {
    match res {
        Ok(setup) => {
            &&& setup matches RepoSetup::CreateDir(plan)
            &&& is_base_settings(Ok(plan.settings))
            &&& repo_setup_starts(setup, env, plan.settings, backend)
        },
        Err(err) => is_base_settings(Err(err)),
    }
}

impl TestRepo {
    /// Starts the setup of a repository with the test backend, for a made-up
    /// user.
    pub fn init(env: TestEnvironment) -> (res: Result<RepoSetup, ConfigError>)
        ensures
            repo_setup_for_base_user(res, env, TestRepoBackend::Test),
            res matches Ok(setup) ==> setup matches RepoSetup::CreateDir(plan) && plan.env == env
                && plan.backend == TestRepoBackend::Test && plan.dir@ == join_path(env@, "repo"@)
                && is_base_settings(Ok(plan.settings)),
            res matches Err(err) ==> is_base_settings(Err(err)),
    {
        Self::init_with_backend(env, TestRepoBackend::Test)
    }

    /// Starts the setup of a repository with the given backend, for a made-up
    /// user.
    pub fn init_with_backend(env: TestEnvironment, backend: TestRepoBackend) -> (res: Result<
        RepoSetup,
        ConfigError,
    >)
        ensures
            repo_setup_for_base_user(res, env, backend),
            res matches Ok(setup) ==> setup matches RepoSetup::CreateDir(plan) && plan.env == env
                && plan.backend == backend && plan.dir@ == join_path(env@, "repo"@)
                && is_base_settings(Ok(plan.settings)),
            res matches Err(err) ==> is_base_settings(Err(err)),
    {
        match user_settings() {
            Ok(settings) => Ok(Self::init_with_backend_and_settings(env, backend, settings)),
            Err(err) => Err(err),
        }
    }

    /// Starts the setup of a repository with the test backend.
    pub fn init_with_settings(env: TestEnvironment, settings: UserSettings) -> (res: RepoSetup)
        ensures
            repo_setup_starts(res, env, settings, TestRepoBackend::Test),
            res matches RepoSetup::CreateDir(plan) && plan.env == env && plan.settings == settings
                && plan.backend == TestRepoBackend::Test && plan.dir@ == join_path(env@, "repo"@),
    {
        Self::init_with_backend_and_settings(env, TestRepoBackend::Test, settings)
    }

    /// Starts the setup of a repository in the directory `repo` of the
    /// environment.
    pub fn init_with_backend_and_settings(
        env: TestEnvironment,
        backend: TestRepoBackend,
        settings: UserSettings,
    ) -> (res: RepoSetup)
        ensures
            repo_setup_starts(res, env, settings, backend),
            res matches RepoSetup::CreateDir(plan) && plan.env == env && plan.settings == settings
                && plan.backend == backend && plan.dir@ == join_path(env@, "repo"@),
    {
        RepoSetup::CreateDir(SetupPlan::new(env, settings, backend))
    }
}

/// What follows when the action that `before` asks for ends in `outcome`: the
/// next state, and the lines that are reported.
///
/// That the directory could not be made is reported and nothing more.
pub open spec fn repo_step(
    before: RepoSetup,
    outcome: Outcome,
    after: RepoSetup,
    lines: Seq<Seq<char>>,
) -> bool {
    match before {
        RepoSetup::CreateDir(plan) => {
            &&& lines == seq![
                match outcome {
                    Outcome::Success => "Successfully created directory"@,
                    Outcome::Failure { display, .. } => "Error creating directory: "@ + display@,
                },
            ]
            &&& if signer_loads(settings_layers(plan.settings)) {
                &&& after matches RepoSetup::OpenRepo(next, Some(signer))
                &&& next == plan
                &&& signer_layers(signer) == settings_layers(plan.settings)
            } else {
                after matches RepoSetup::Failed(SetupFailure::Signer(_))
            }
        },
        RepoSetup::OpenRepo(plan, _) => match outcome {
            Outcome::Success => {
                &&& lines == Seq::<Seq<char>>::empty()
                &&& after == RepoSetup::Ready(TestRepo { env: plan.env, repo_path: plan.dir })
            },
            Outcome::Failure { debug, .. } => {
                &&& lines == seq!["Error initializing ReadonlyRepo: "@ + debug@]
                &&& after matches RepoSetup::Failed(SetupFailure::Action(message))
                &&& message@ == "Failed to initialize repo: "@ + debug@
            },
        },
        _ => after == before && lines == Seq::<Seq<char>>::empty(),
    }
}

fn no_lines() -> (res: Vec<String>)
    ensures
        views(res@) == Seq::<Seq<char>>::empty(),
{
    let res: Vec<String> = Vec::new();
    assert(views(res@) =~= Seq::<Seq<char>>::empty());
    res
}

fn one_line(head: &str, tail: &str) -> (res: Vec<String>)
    ensures
        views(res@) == seq![head@ + tail@],
{
    let mut line = head.to_owned();
    line.append(tail);
    let mut res: Vec<String> = Vec::new();
    res.push(line);
    assert(views(res@) =~= seq![head@ + tail@]);
    res
}

impl RepoSetup {
    /// Takes the signer to make the repository with, where it is to be made now
    /// and the signer was not taken before.
    pub fn take_signer(&mut self) -> (res: Option<Signer>)
        ensures
            match *old(self) {
                RepoSetup::OpenRepo(plan, signer) => {
                    &&& res == signer
                    &&& *final(self) == RepoSetup::OpenRepo(plan, None)
                },
                _ => res is None && *final(self) == *old(self),
            },
    {
        match self {
            RepoSetup::OpenRepo(_, signer) => signer.take(),
            _ => None,
        }
    }

    /// Goes on after the action that this state asks for has ended. Also
    /// returns the lines to report.
    pub fn step(self, outcome: Outcome) -> (res: (RepoSetup, Vec<String>))
        ensures
            repo_step(self, outcome, res.0, views(res.1@)),
    {
        match self {
            RepoSetup::CreateDir(plan) => {
                let lines = match outcome {
                    Outcome::Success => {
                        proof {
                            reveal_strlit("");
                            assert("Successfully created directory"@ + ""@
                                =~= "Successfully created directory"@);
                        }
                        one_line("Successfully created directory", "")
                    },
                    Outcome::Failure { display, .. } => one_line(
                        "Error creating directory: ",
                        display.as_str(),
                    ),
                };
                match load_signer(&plan.settings) {
                    Ok(signer) => (RepoSetup::OpenRepo(plan, Some(signer)), lines),
                    Err(err) => (RepoSetup::Failed(SetupFailure::Signer(err)), lines),
                }
            },
            RepoSetup::OpenRepo(plan, _) => match outcome {
                Outcome::Success => (
                    RepoSetup::Ready(TestRepo { env: plan.env, repo_path: plan.dir }),
                    no_lines(),
                ),
                Outcome::Failure { debug, .. } => {
                    let lines = one_line("Error initializing ReadonlyRepo: ", debug.as_str());
                    let mut message = "Failed to initialize repo: ".to_owned();
                    message.append(debug.as_str());
                    (RepoSetup::Failed(SetupFailure::Action(message)), lines)
                },
            },
            RepoSetup::Ready(repo) => (RepoSetup::Ready(repo), no_lines()),
            RepoSetup::Failed(failure) => (RepoSetup::Failed(failure), no_lines()),
        }
    }
}

/// A repository is there after two actions, wherever the settings say how to
/// sign and the second action is done. It lies in the directory `repo` of its
/// environment, whether or not that directory could be made.
pub proof fn repo_setup_needs_only_the_repository(
    start: RepoSetup,
    env: TestEnvironment,
    settings: UserSettings,
    backend: TestRepoBackend,
    made: Outcome,
    middle: RepoSetup,
    first_lines: Seq<Seq<char>>,
    opened: Outcome,
    end: RepoSetup,
    second_lines: Seq<Seq<char>>,
)
    requires
        repo_setup_starts(start, env, settings, backend),
        repo_step(start, made, middle, first_lines),
        repo_step(middle, opened, end, second_lines),
    ensures
        end is Ready <==> signer_loads(settings_layers(settings)) && opened is Success,
        end is Ready || end is Failed,
        end matches RepoSetup::Ready(repo) ==> repo.env == env && repo.repo_path@ == join_path(
            env@,
            "repo"@,
        ),
{
}

/// Whether the directory of a repository could be made changes what is
/// reported, and nothing else of the next step.
pub proof fn repo_setup_tolerates_directory(
    plan: SetupPlan,
    first: Outcome,
    second: Outcome,
    after_first: RepoSetup,
    after_second: RepoSetup,
    first_lines: Seq<Seq<char>>,
    second_lines: Seq<Seq<char>>,
)
    requires
        repo_step(RepoSetup::CreateDir(plan), first, after_first, first_lines),
        repo_step(RepoSetup::CreateDir(plan), second, after_second, second_lines),
    ensures
        after_first is OpenRepo <==> after_second is OpenRepo,
        after_first is OpenRepo ==> after_first->OpenRepo_0 == after_second->OpenRepo_0,
        first_lines.len() == 1,
        second_lines.len() == 1,
{
}

/// A repository is opened in the environment, with the settings and on the
/// backend that were asked for, in the directory `repo`, and with a signer that
/// comes of these settings.
pub proof fn repo_is_opened_as_asked(
    start: RepoSetup,
    env: TestEnvironment,
    settings: UserSettings,
    backend: TestRepoBackend,
    made: Outcome,
    middle: RepoSetup,
    lines: Seq<Seq<char>>,
)
    requires
        repo_setup_starts(start, env, settings, backend),
        repo_step(start, made, middle, lines),
    ensures
        start matches RepoSetup::CreateDir(plan) && plan.env == env && plan.settings == settings
            && plan.backend == backend && plan.dir@ == join_path(env@, "repo"@),
        middle is OpenRepo || middle is Failed,
        middle is OpenRepo <==> signer_loads(settings_layers(settings)),
        middle matches RepoSetup::OpenRepo(plan, signer) ==> {
            &&& plan.env == env
            &&& plan.settings == settings
            &&& plan.backend == backend
            &&& plan.dir@ == join_path(env@, "repo"@)
            &&& signer is Some
            &&& signer_layers(signer->0) == settings_layers(settings)
        },
{
}

/// The same holds of a repository for the made-up user, whose settings are those
/// of the base text over the defaults.
pub proof fn base_repo_is_set_up_as_asked(
    res: Result<RepoSetup, ConfigError>,
    env: TestEnvironment,
    backend: TestRepoBackend,
)
    requires
        repo_setup_for_base_user(res, env, backend),
    ensures
        res matches Ok(setup) ==> setup matches RepoSetup::CreateDir(plan) && plan.env == env
            && plan.backend == backend && plan.dir@ == join_path(env@, "repo"@)
            && is_base_settings(Ok(plan.settings)),
        res matches Err(err) ==> is_base_settings(Err(err)),
{
}

/// Each step goes on with what was planned, and opens only with a signer. What is
/// reported: one line on the directory, which carries the error as shown
/// to a user; one on a repository that could not be opened, which carries the
/// error in debugging output, as does what is then said; and nothing else.
pub proof fn repo_setup_reports(
    before: RepoSetup,
    outcome: Outcome,
    after: RepoSetup,
    lines: Seq<Seq<char>>,
)
    requires
        repo_step(before, outcome, after, lines),
    ensures
        before is CreateDir && outcome is Success ==> lines.len() == 1 && lines[0]
            == "Successfully created directory"@,
        before is CreateDir && outcome is Failure ==> lines.len() == 1 && lines[0]
            == "Error creating directory: "@ + outcome->display@,
        before is OpenRepo && outcome is Success ==> lines.len() == 0 && after is Ready,
        before is OpenRepo && outcome is Failure ==> {
            &&& lines.len() == 1
            &&& lines[0] == "Error initializing ReadonlyRepo: "@ + outcome->debug@
            &&& after matches RepoSetup::Failed(SetupFailure::Action(message))
            &&& message@ == "Failed to initialize repo: "@ + outcome->debug@
        },
        before matches RepoSetup::CreateDir(plan) ==> {
            &&& after is OpenRepo <==> signer_loads(settings_layers(plan.settings))
            &&& !(after is OpenRepo) ==> (after matches RepoSetup::Failed(SetupFailure::Signer(_)))
            &&& (after matches RepoSetup::OpenRepo(next, signer) ==> next == plan && signer is Some
                && signer_layers(signer->0) == settings_layers(plan.settings))
        },
        before matches RepoSetup::OpenRepo(plan, _) ==> (outcome is Success ==> after
            == RepoSetup::Ready(TestRepo { env: plan.env, repo_path: plan.dir })),
        before is Ready || before is Failed ==> lines.len() == 0 && after == before,
{
}

/// A setup that has ended stays as it is, and reports nothing.
pub proof fn repo_setup_end_is_final(
    before: RepoSetup,
    outcome: Outcome,
    after: RepoSetup,
    lines: Seq<Seq<char>>,
)
    requires
        before is Ready || before is Failed,
        repo_step(before, outcome, after, lines),
    ensures
        after == before,
        lines.len() == 0,
{
}

/// A workspace in the environment of a test.
#[derive(Debug)]
pub struct TestWorkspace {
    /// The environment that the workspace lies in.
    pub env: TestEnvironment,
}

/// How far the setup of a workspace is.
#[derive(Debug)]
pub enum WorkspaceSetup {
    /// The directory is to be made.
    CreateDir(SetupPlan, Signer),
    /// The workspace is to be made in the directory, with the signer, which the
    /// caller takes.
    OpenWorkspace(SetupPlan, Option<Signer>),
    /// The workspace is there.
    Ready(TestWorkspace),
    /// There will be no workspace.
    Failed(SetupFailure),
}

/// Whether `setup` is the start of setting up a workspace in `env`.
pub open spec fn workspace_setup_starts(
    setup: WorkspaceSetup,
    env: TestEnvironment,
    settings: UserSettings,
    backend: TestRepoBackend,
    signer: Signer,
) -> bool {
    &&& setup matches WorkspaceSetup::CreateDir(plan, given)
    &&& plan.env == env
    &&& plan.settings == settings
    &&& plan.backend == backend
    &&& plan.in_repo_dir()
    &&& given == signer
}

/// Whether `setup` is the start of setting up a workspace in `env` with a
/// signer that the settings give, or the end if they give none.
pub open spec fn workspace_setup_follows(
    setup: WorkspaceSetup,
    env: TestEnvironment,
    settings: UserSettings,
    backend: TestRepoBackend,
) -> bool {
    if signer_loads(settings_layers(settings)) {
        &&& setup matches WorkspaceSetup::CreateDir(_, signer)
        &&& workspace_setup_starts(setup, env, settings, backend, signer)
        &&& signer_layers(signer) == settings_layers(settings)
    } else {
        setup matches WorkspaceSetup::Failed(SetupFailure::Signer(_))
    }
}

impl TestWorkspace {
    /// Starts the setup of a workspace with the test backend.
    pub fn init(env: TestEnvironment, settings: UserSettings) -> (res: WorkspaceSetup)
        ensures
            workspace_setup_follows(res, env, settings, TestRepoBackend::Test),
            if signer_loads(settings_layers(settings)) {
                res matches WorkspaceSetup::CreateDir(plan, signer) && plan.env == env
                    && plan.settings == settings && plan.backend == TestRepoBackend::Test
                    && plan.dir@ == join_path(env@, "repo"@) && signer_layers(signer)
                    == settings_layers(settings)
            } else {
                res matches WorkspaceSetup::Failed(SetupFailure::Signer(_))
            },
    {
        Self::init_with_backend(env, settings, TestRepoBackend::Test)
    }

    /// Starts the setup of a workspace with the given backend.
    pub fn init_with_backend(
        env: TestEnvironment,
        settings: UserSettings,
        backend: TestRepoBackend,
    ) -> (res: WorkspaceSetup)
        ensures
            workspace_setup_follows(res, env, settings, backend),
            if signer_loads(settings_layers(settings)) {
                res matches WorkspaceSetup::CreateDir(plan, signer) && plan.env == env
                    && plan.settings == settings && plan.backend == backend && plan.dir@
                    == join_path(env@, "repo"@) && signer_layers(signer) == settings_layers(
                    settings,
                )
            } else {
                res matches WorkspaceSetup::Failed(SetupFailure::Signer(_))
            },
    {
        match load_signer(&settings) {
            Ok(signer) => Self::init_with_backend_and_signer(env, settings, backend, signer),
            Err(err) => WorkspaceSetup::Failed(SetupFailure::Signer(err)),
        }
    }

    /// Starts the setup of a workspace in the directory `repo` of the
    /// environment.
    pub fn init_with_backend_and_signer(
        env: TestEnvironment,
        settings: UserSettings,
        backend: TestRepoBackend,
        signer: Signer,
    ) -> (res: WorkspaceSetup)
        ensures
            workspace_setup_starts(res, env, settings, backend, signer),
            res matches WorkspaceSetup::CreateDir(plan, given) && plan.env == env && plan.settings
                == settings && plan.backend == backend && plan.dir@ == join_path(env@, "repo"@)
                && given == signer,
    {
        WorkspaceSetup::CreateDir(SetupPlan::new(env, settings, backend), signer)
    }

    /// The directory that the workspace lies in, named by way of the workspace.
    pub fn root_dir(&self) -> (res: String)
        ensures
            res@ == join_path(join_path(self.env@, "repo"@), ".."@),
    {
        join_paths(join_paths(self.env.root(), "repo").as_str(), "..")
    }
}

/// What follows when the action that `before` asks for ends in `outcome`.
///
/// A workspace whose directory could not be made is not opened.
pub open spec fn workspace_step(
    before: WorkspaceSetup,
    outcome: Outcome,
    after: WorkspaceSetup,
) -> bool {
    match (before, outcome) {
        (WorkspaceSetup::CreateDir(plan, signer), Outcome::Success) => {
            after == WorkspaceSetup::OpenWorkspace(plan, Some(signer))
        },
        (WorkspaceSetup::OpenWorkspace(plan, _), Outcome::Success) => {
            after == WorkspaceSetup::Ready(TestWorkspace { env: plan.env })
        },
        (
            WorkspaceSetup::CreateDir(_, _) | WorkspaceSetup::OpenWorkspace(_, _),
            Outcome::Failure { debug, .. },
        ) => {
            &&& after matches WorkspaceSetup::Failed(SetupFailure::Action(message))
            &&& message@ == unwrap_message(debug@)
        },
        _ => after == before,
    }
}

impl WorkspaceSetup {
    /// Takes the signer to make the workspace with, where it is to be made now
    /// and the signer was not taken before.
    pub fn take_signer(&mut self) -> (res: Option<Signer>)
        ensures
            match *old(self) {
                WorkspaceSetup::OpenWorkspace(plan, signer) => {
                    &&& res == signer
                    &&& *final(self) == WorkspaceSetup::OpenWorkspace(plan, None)
                },
                _ => res is None && *final(self) == *old(self),
            },
    {
        match self {
            WorkspaceSetup::OpenWorkspace(_, signer) => signer.take(),
            _ => None,
        }
    }

    /// Goes on after the action that this state asks for has ended.
    pub fn step(self, outcome: Outcome) -> (res: WorkspaceSetup)
        ensures
            workspace_step(self, outcome, res),
    {
        match self {
            WorkspaceSetup::CreateDir(plan, signer) => match outcome {
                Outcome::Success => WorkspaceSetup::OpenWorkspace(plan, Some(signer)),
                Outcome::Failure { debug, .. } => WorkspaceSetup::Failed(
                    SetupFailure::Action(unwrap_failed(debug.as_str())),
                ),
            },
            WorkspaceSetup::OpenWorkspace(plan, _) => match outcome {
                Outcome::Success => WorkspaceSetup::Ready(TestWorkspace { env: plan.env }),
                Outcome::Failure { debug, .. } => WorkspaceSetup::Failed(
                    SetupFailure::Action(unwrap_failed(debug.as_str())),
                ),
            },
            WorkspaceSetup::Ready(workspace) => WorkspaceSetup::Ready(workspace),
            WorkspaceSetup::Failed(failure) => WorkspaceSetup::Failed(failure),
        }
    }
}

/// A workspace is opened in the environment, with the settings and the signer and
/// on the backend that were asked for, in the directory `repo`, once that
/// directory is made; and it is not opened otherwise.
pub proof fn workspace_is_opened_as_asked(
    start: WorkspaceSetup,
    env: TestEnvironment,
    settings: UserSettings,
    backend: TestRepoBackend,
    signer: Signer,
    made: Outcome,
    middle: WorkspaceSetup,
)
    requires
        workspace_setup_starts(start, env, settings, backend, signer),
        workspace_step(start, made, middle),
    ensures
        start matches WorkspaceSetup::CreateDir(plan, given) && plan.env == env && plan.settings
            == settings && plan.backend == backend && plan.dir@ == join_path(env@, "repo"@)
            && given == signer,
        middle is OpenWorkspace <==> made is Success,
        middle matches WorkspaceSetup::OpenWorkspace(plan, given) ==> {
            &&& plan.env == env
            &&& plan.settings == settings
            &&& plan.backend == backend
            &&& plan.dir@ == join_path(env@, "repo"@)
            &&& given == Some(signer)
        },
{
}

/// A workspace that takes its signer from the settings is set up as asked if they
/// give one, and else not at all.
pub proof fn workspace_signer_comes_of_settings(
    setup: WorkspaceSetup,
    env: TestEnvironment,
    settings: UserSettings,
    backend: TestRepoBackend,
)
    requires
        workspace_setup_follows(setup, env, settings, backend),
    ensures
        setup is CreateDir <==> signer_loads(settings_layers(settings)),
        setup matches WorkspaceSetup::CreateDir(plan, signer) ==> {
            &&& plan.env == env
            &&& plan.settings == settings
            &&& plan.backend == backend
            &&& plan.dir@ == join_path(env@, "repo"@)
            &&& signer_layers(signer) == settings_layers(settings)
        },
        setup is CreateDir || setup matches WorkspaceSetup::Failed(SetupFailure::Signer(_)),
{
}

/// Each action that is done leads on with what was planned. Whichever action
/// fails, its error in debugging output is what is said; a setup that has ended
/// stays as it is.
pub proof fn workspace_setup_says_why(before: WorkspaceSetup, outcome: Outcome, after: WorkspaceSetup)
    requires
        workspace_step(before, outcome, after),
    ensures
        (before is CreateDir || before is OpenWorkspace) && outcome is Failure ==> {
            &&& after matches WorkspaceSetup::Failed(SetupFailure::Action(message))
            &&& message@ == "called `Result::unwrap()` on an `Err` value: "@ + outcome->debug@
        },
        before matches WorkspaceSetup::CreateDir(plan, signer) ==> (outcome is Success ==> after
            == WorkspaceSetup::OpenWorkspace(plan, Some(signer))),
        before matches WorkspaceSetup::OpenWorkspace(plan, _) ==> (outcome is Success
            ==> after == WorkspaceSetup::Ready(TestWorkspace { env: plan.env })),
        before is Ready || before is Failed ==> after == before,
{
}

/// A workspace is there if and only if both actions are done; it then lies in
/// the environment that the setup began with.
pub proof fn workspace_setup_needs_both(
    start: WorkspaceSetup,
    env: TestEnvironment,
    settings: UserSettings,
    backend: TestRepoBackend,
    signer: Signer,
    made: Outcome,
    middle: WorkspaceSetup,
    opened: Outcome,
    end: WorkspaceSetup,
)
    requires
        workspace_setup_starts(start, env, settings, backend, signer),
        workspace_step(start, made, middle),
        workspace_step(middle, opened, end),
    ensures
        end is Ready <==> made is Success && opened is Success,
        end is Ready || end is Failed,
        end matches WorkspaceSetup::Ready(workspace) ==> workspace.env == env,
{
}

} // verus!
