use jj_lib::config::ConfigLayer;
use jj_lib::config::ConfigSource;
use jj_lib::config::StackedConfig;
use jj_lib::settings::UserSettings;
use jj_lib::signing::SignInitError;
use jj_lib::signing::Signer;
use jj_testkit::checks::assert_no_forgotten_test_files;
use jj_testkit::checks::check_initial_commit;
use jj_testkit::checks::test_init;
use jj_testkit::checks::InitMismatch;
use jj_testkit::commits::commit_with_tree;
use jj_testkit::commits::CommitData;
use jj_testkit::config::base_user_config;
use jj_testkit::config::settings_from;
use jj_testkit::config::user_settings;
use jj_testkit::config::with_layer;
use jj_testkit::config::ConfigError;
use jj_testkit::config::DEFAULT_CONFIG;
use jj_testkit::environment::TestEnvironment;
use jj_testkit::environment::TestRepoBackend;
use jj_testkit::ids::ObjectId;
use jj_testkit::setup::Outcome;
use jj_testkit::setup::RepoSetup;
use jj_testkit::setup::SetupFailure;
use jj_testkit::setup::TestRepo;
use jj_testkit::setup::TestWorkspace;
use jj_testkit::setup::WorkspaceSetup;
use jj_testkit::snapshot::SnapshotEvent;
use jj_testkit::snapshot::SnapshotState;
use jj_testkit::tree::MergedTreeId;

fn id<K>(byte: u8) -> ObjectId<K> {
    ObjectId::new(vec![byte])
}

fn failure() -> Outcome {
    Outcome::Failure { display: "shown".to_string(), debug: "Debugged".to_string() }
}

fn settings_without_signer() -> UserSettings {
    let mut config = base_user_config().unwrap();
    let text = "signing.backend = \"no-such-backend\"";
    config.add_layer(ConfigLayer::parse(ConfigSource::Repo, text).unwrap());
    settings_from(config).unwrap()
}

#[test]
fn base_config_is_the_user_over_the_defaults() {
    let config = base_user_config().unwrap();
    let sources: Vec<ConfigSource> = config.layers().iter().map(|layer| layer.source).collect();
    assert_eq!(sources, vec![ConfigSource::Default, ConfigSource::User]);
    assert_eq!(config.get::<String>("user.name").unwrap(), "Test User");
    assert_eq!(config.get::<String>("user.email").unwrap(), "test.user@example.com");
    assert_eq!(config.get::<String>("operation.username").unwrap(), "test-username");
    assert_eq!(config.get::<String>("operation.hostname").unwrap(), "host.example.com");
    assert_eq!(config.get::<u64>("debug.randomness-seed").unwrap(), 42);
}

#[test]
fn the_defaults_are_those_of_the_text() {
    let config = base_user_config().unwrap();
    let defaults = ConfigLayer::parse(ConfigSource::Default, DEFAULT_CONFIG).unwrap();
    assert_eq!(config.layers()[0].data.to_string(), defaults.data.to_string());
    assert_eq!(config.get::<String>("signing.backend").unwrap(), "none");
    assert_eq!(config.get::<String>("core.fsmonitor").unwrap(), "none");
    assert!(!config.get::<bool>("git.auto-local-bookmark").unwrap());
}

#[test]
fn a_layer_goes_over_the_defaults() {
    let layer = ConfigLayer::parse(ConfigSource::Default, "user.name = \"Layered\"").unwrap();
    let config = with_layer(layer);
    assert_eq!(config.layers().len(), 2);
    assert_eq!(config.get::<String>("user.name").unwrap(), "Layered");
}

#[test]
fn settings_are_of_the_base_user() {
    let settings = user_settings().unwrap();
    assert_eq!(settings.user_name(), "Test User");
    assert_eq!(settings.user_email(), "test.user@example.com");
    assert_eq!(settings.operation_username(), "test-username");
    assert_eq!(settings.operation_hostname(), "host.example.com");
}

#[test]
fn settings_need_their_values() {
    assert!(matches!(settings_from(StackedConfig::empty()), Err(ConfigError::Settings(_))));
    let layer = ConfigLayer::parse(ConfigSource::User, "user.name = 3").unwrap();
    assert!(matches!(settings_from(with_layer(layer)), Err(ConfigError::Settings(_))));
}

#[test]
fn repo_setup_goes_through() {
    let setup = TestRepo::init(TestEnvironment::init(5)).unwrap();
    let RepoSetup::CreateDir(plan) = &setup else { panic!("{setup:?}") };
    assert_eq!(plan.dir, "/tmp/jj-test-5/repo");
    assert_eq!(plan.backend, TestRepoBackend::Test);
    assert_eq!(plan.settings.user_name(), "Test User");
    let (setup, lines) = setup.step(Outcome::Success);
    assert_eq!(lines, vec!["Successfully created directory"]);
    assert!(matches!(setup, RepoSetup::OpenRepo(_, _)));
    let (setup, lines) = setup.step(Outcome::Success);
    assert_eq!(lines, Vec::<String>::new());
    let RepoSetup::Ready(repo) = &setup else { panic!("{setup:?}") };
    assert_eq!(repo.repo_path, "/tmp/jj-test-5/repo");
    assert_eq!(repo.env.root(), "/tmp/jj-test-5");
    let (setup, lines) = setup.step(failure());
    assert!(matches!(setup, RepoSetup::Ready(_)));
    assert_eq!(lines, Vec::<String>::new());
}

#[test]
fn repo_setup_goes_on_without_making_the_directory() {
    let env = TestEnvironment::init(5);
    let setup = TestRepo::init_with_backend(env, TestRepoBackend::Local).unwrap();
    let (setup, lines) = setup.step(failure());
    assert_eq!(lines, vec!["Error creating directory: shown"]);
    let RepoSetup::OpenRepo(plan, _) = &setup else { panic!("{setup:?}") };
    assert_eq!(plan.backend, TestRepoBackend::Local);
    let (setup, lines) = setup.step(failure());
    assert_eq!(lines, vec!["Error initializing ReadonlyRepo: Debugged"]);
    let RepoSetup::Failed(SetupFailure::Action(message)) = setup else { panic!("{setup:?}") };
    assert_eq!(message, "Failed to initialize repo: Debugged");
}

#[test]
fn repo_setup_needs_a_signer() {
    let setup = TestRepo::init_with_settings(TestEnvironment::init(5), settings_without_signer());
    let (setup, _) = setup.step(Outcome::Success);
    let RepoSetup::Failed(SetupFailure::Signer(err)) = setup else { panic!("{setup:?}") };
    assert!(matches!(err, SignInitError::UnknownBackend(_)));
}

#[test]
fn workspace_setup_goes_through() {
    let setup = TestWorkspace::init(TestEnvironment::init(6), user_settings().unwrap());
    let WorkspaceSetup::CreateDir(plan, _) = &setup else { panic!("{setup:?}") };
    assert_eq!(plan.dir, "/tmp/jj-test-6/repo");
    assert_eq!(plan.backend, TestRepoBackend::Test);
    let setup = setup.step(Outcome::Success);
    assert!(matches!(setup, WorkspaceSetup::OpenWorkspace(_, _)));
    let setup = setup.step(Outcome::Success);
    let WorkspaceSetup::Ready(workspace) = setup else { panic!("{setup:?}") };
    assert_eq!(workspace.root_dir(), "/tmp/jj-test-6/repo/..");
}

#[test]
fn signers_are_taken_once() {
    let mut setup = TestRepo::init(TestEnvironment::init(8)).unwrap();
    assert!(setup.take_signer().is_none());
    let (mut setup, _) = setup.step(Outcome::Success);
    assert!(setup.take_signer().is_some());
    assert!(setup.take_signer().is_none());
    let (mut setup, _) = setup.step(Outcome::Success);
    assert!(matches!(setup, RepoSetup::Ready(_)));
    assert!(setup.take_signer().is_none());

    let mut setup = TestWorkspace::init(TestEnvironment::init(8), user_settings().unwrap());
    assert!(setup.take_signer().is_none());
    let mut setup = setup.step(Outcome::Success);
    assert!(setup.take_signer().is_some());
    assert!(setup.take_signer().is_none());
    assert!(matches!(setup.step(Outcome::Success), WorkspaceSetup::Ready(_)));
}

#[test]
fn workspace_setup_stops_at_a_failure() {
    let message = "called `Result::unwrap()` on an `Err` value: Debugged";
    let start = || {
        let signer = Signer::new(None, vec![]);
        TestWorkspace::init_with_backend_and_signer(
            TestEnvironment::init(6),
            user_settings().unwrap(),
            TestRepoBackend::Local,
            signer,
        )
    };
    let ended = start().step(failure());
    let WorkspaceSetup::Failed(SetupFailure::Action(said)) = ended else { panic!("{ended:?}") };
    assert_eq!(said, message);
    let ended = start().step(Outcome::Success).step(failure());
    let WorkspaceSetup::Failed(SetupFailure::Action(said)) = ended else { panic!("{ended:?}") };
    assert_eq!(said, message);
}

#[test]
fn workspace_setup_needs_a_signer() {
    let setup = TestWorkspace::init(TestEnvironment::init(6), settings_without_signer());
    let WorkspaceSetup::Failed(SetupFailure::Signer(err)) = setup else { panic!("{setup:?}") };
    assert!(matches!(err, SignInitError::UnknownBackend(_)));
}

#[test]
fn snapshot_runs_to_its_tree() {
    let tree = || MergedTreeId::Merge(vec![id(1)]);
    let setup = TestWorkspace::init(TestEnvironment::init(7), user_settings().unwrap());
    let setup = setup.step(Outcome::Success).step(Outcome::Success);
    let WorkspaceSetup::Ready(workspace) = setup else { panic!("{setup:?}") };
    let state = workspace.snapshot_with_options(id(0x0f));
    assert_eq!(state, SnapshotState::Lock { op_id: id(0x0f) });
    let state = state.step(SnapshotEvent::Done);
    assert_eq!(state, SnapshotState::Snapshot { op_id: id(0x0f) });
    let state = state.step(SnapshotEvent::Snapshotted(tree()));
    assert_eq!(state, SnapshotState::Finish { tree: tree(), op_id: id(0x0f) });
    let state = state.step(SnapshotEvent::Done);
    assert_eq!(state, SnapshotState::ReadTree(tree()));
    assert_eq!(state.step(SnapshotEvent::Done), SnapshotState::Done(tree()));
}

#[test]
fn snapshot_that_fails() {
    let failed = || SnapshotEvent::Failure("E".to_string());
    let message = "called `Result::unwrap()` on an `Err` value: E".to_string();
    let tree = || MergedTreeId::Legacy(id(1));
    let lock = SnapshotState::Lock { op_id: id(2) };
    assert_eq!(lock.step(failed()), SnapshotState::Failed(message.clone()));
    let taking = || SnapshotState::Snapshot { op_id: id(2) };
    assert_eq!(taking().step(failed()), SnapshotState::Refused);
    assert_eq!(taking().step(SnapshotEvent::Done), taking());
    let finish = SnapshotState::Finish { tree: tree(), op_id: id(2) };
    assert_eq!(finish.step(failed()), SnapshotState::Failed(message.clone()));
    assert_eq!(SnapshotState::ReadTree(tree()).step(failed()), SnapshotState::Failed(message));
    assert_eq!(SnapshotState::Refused.step(SnapshotEvent::Done), SnapshotState::Refused);
}

fn names(list: &[&str]) -> Vec<String> {
    list.iter().map(|name| name.to_string()).collect()
}

#[test]
fn declared_test_files_pass() {
    let runner = "mod test_a;\nmod test_b;\n";
    let files = names(&["runner.rs", "test_a.rs", "test_b.rs", "notes.md", "Makefile", ".rs", "rs"]);
    assert_eq!(assert_no_forgotten_test_files(runner, "tests/runner.rs", &files), Ok(()));
    assert_eq!(assert_no_forgotten_test_files("", "tests/runner.rs", &names(&[])), Ok(()));
}

#[test]
fn the_first_forgotten_test_file_is_named() {
    let runner = "mod test_a;\n";
    let files = names(&["test_a.rs", "x.txt", "test_c.rs", "test_b.rs"]);
    assert_eq!(
        assert_no_forgotten_test_files(runner, "tests/runner.rs", &files),
        Err("missing `mod test_c;` declaration in tests/runner.rs".to_string())
    );
}

#[test]
fn module_names_are_what_stands_before_the_last_extension() {
    assert_eq!(
        assert_no_forgotten_test_files("mod a;", "r", &names(&["a.b.rs"])),
        Err("missing `mod a.b;` declaration in r".to_string())
    );
    assert_eq!(
        assert_no_forgotten_test_files("mod a", "r", &names(&["a.rs"])),
        Err("missing `mod a;` declaration in r".to_string())
    );
    assert_eq!(assert_no_forgotten_test_files("pub mod a;", "r", &names(&["a.rs"])), Ok(()));
    assert_eq!(assert_no_forgotten_test_files("", "r", &names(&["a.RS", "rs", "..rs.x"])), Ok(()));
}

fn initial() -> CommitData {
    let mut data = commit_with_tree(&id(0), MergedTreeId::Legacy(id(9)));
    data.description = String::new();
    data.author.name = "Test User".to_string();
    data.author.email = "test.user@example.com".to_string();
    data.committer.name = "Test User".to_string();
    data.committer.email = "test.user@example.com".to_string();
    data
}

fn check(data: &CommitData) -> Result<(), InitMismatch> {
    let empty = MergedTreeId::Merge(vec![id(9)]);
    test_init(data, &empty, &id(0), &user_settings().unwrap())
}

#[test]
fn initial_commit_passes() {
    assert_eq!(check(&initial()), Ok(()));
}

#[test]
fn initial_commit_mismatches() {
    let mut data = initial();
    data.committer.email = "x".to_string();
    assert_eq!(check(&data), Err(InitMismatch::CommitterEmail));
    data.committer.name = "x".to_string();
    assert_eq!(check(&data), Err(InitMismatch::CommitterName));
    data.author.email = "x".to_string();
    assert_eq!(check(&data), Err(InitMismatch::AuthorEmail));
    data.author.name = "x".to_string();
    assert_eq!(check(&data), Err(InitMismatch::AuthorName));
    data.description = "x".to_string();
    assert_eq!(check(&data), Err(InitMismatch::Description));
    data.predecessors = vec![id(1)];
    assert_eq!(check(&data), Err(InitMismatch::Predecessors));
    data.parents = vec![id(0), id(0)];
    assert_eq!(check(&data), Err(InitMismatch::Parents));
    data.parents = vec![id(1)];
    assert_eq!(check(&data), Err(InitMismatch::Parents));
    data.root_tree = MergedTreeId::Legacy(id(8));
    assert_eq!(check(&data), Err(InitMismatch::Tree));
}

#[test]
fn initial_commit_of_a_named_user() {
    let empty = MergedTreeId::Legacy(id(9));
    let data = initial();
    assert_eq!(
        check_initial_commit(&data, &empty, &id(0), "Test User", "test.user@example.com"),
        Ok(())
    );
    assert_eq!(
        check_initial_commit(&data, &empty, &id(0), "Other", "test.user@example.com"),
        Err(InitMismatch::AuthorName)
    );
}
