//! The configuration that tests run under.

use jj_lib::config::ConfigGetError;
use jj_lib::config::ConfigLayer;
use jj_lib::config::ConfigLoadError;
use jj_lib::config::StackedConfig;
use jj_lib::settings::UserSettings;
use vstd::prelude::*;

use crate::upstream::add_config_layer;
use crate::upstream::config_layers;
use crate::upstream::default_config;
use crate::upstream::layer_source;
use crate::upstream::layer_values;
use crate::upstream::load_settings;
use crate::upstream::parse_config_layer;
use crate::upstream::settings_layers;
use crate::upstream::settings_load;
use crate::upstream::toml_values;

verus! {

/// Where a layer of the configuration comes from, in order of precedence.
#[derive(Debug, PartialEq, Eq, Clone, Copy, Structural)]
pub enum LayerSource {
    /// Default values.
    Default,
    /// Base environment variables.
    EnvBase,
    /// The files of the user.
    User,
    /// The files of the repository.
    Repo,
    /// Environment variables that override.
    EnvOverrides,
    /// The command line.
    CommandArg,
}

impl LayerSource {
    /// The place in the order of precedence: a later layer goes over an earlier
    /// one.
    pub open spec fn rank(self) -> int {
        match self {
            LayerSource::Default => 0,
            LayerSource::EnvBase => 1,
            LayerSource::User => 2,
            LayerSource::Repo => 3,
            LayerSource::EnvOverrides => 4,
            LayerSource::CommandArg => 5,
        }
    }
}

/// Where a new layer from `source` goes: behind the last layer that it does not
/// have to stand before.
pub open spec fn insert_point(
    layers: Seq<(LayerSource, Map<Seq<char>, Seq<char>>)>,
    source: LayerSource,
) -> int
    decreases layers.len(),
{
    if layers.len() > 0 && layers.last().0.rank() > source.rank() {
        insert_point(layers.drop_last(), source)
    } else {
        layers.len() as int
    }
}

/// The default values of jj-lib 0.26.
pub const DEFAULT_CONFIG: &'static str = r#"[core]
fsmonitor = "none"

[core.watchman]
register_snapshot_trigger = false

[debug]
# commit-timestamp = <now>
# operation-timestamp = <now>
# randomness-seed = <random>

[git]
abandon-unreachable-commits = true
auto-local-bookmark = false
subprocess = false
executable-path = "git"

[operation]
hostname = ""
username = ""

[signing]
backend = "none"

[signing.backends.gpg]
allow-expired-keys = false
program = "gpg"

[signing.backends.ssh]
# allowed-signers = <unknown>
program = "ssh-keygen"

[user]
email = ""
name = ""
"#;

/// The layer of default values.
pub open spec fn default_layer() -> (LayerSource, Map<Seq<char>, Seq<char>>) {
    (LayerSource::Default, toml_values(DEFAULT_CONFIG@)->0)
}

/// The defaults with one layer of the user over them, which holds `values`.
pub open spec fn user_layers(values: Map<Seq<char>, Seq<char>>) -> Seq<
    (LayerSource, Map<Seq<char>, Seq<char>>),
> {
    seq![default_layer(), (LayerSource::User, values)]
}

/// The values of a made-up user, which suffice to run basic operations.
pub const BASE_CONFIG: &'static str = r#"
        user.name = "Test User"
        user.email = "test.user@example.com"
        operation.username = "test-username"
        operation.hostname = "host.example.com"
        debug.randomness-seed = 42
    "#;

/// The made-up user has a name, an address, and what operations are noted under,
/// and nothing else.
pub proof fn base_config_text()
    ensures
        BASE_CONFIG@ == r#"
        user.name = "Test User"
        user.email = "test.user@example.com"
        operation.username = "test-username"
        operation.hostname = "host.example.com"
        debug.randomness-seed = 42
    "#@,
{
}

/// The defaults come first and the user over them, with exactly the given
/// values, and there is no other layer.
pub proof fn user_layers_are_two(values: Map<Seq<char>, Seq<char>>)
    ensures
        user_layers(values).len() == 2,
        user_layers(values)[0].0 == LayerSource::Default,
        user_layers(values)[0].1 == toml_values(DEFAULT_CONFIG@)->0,
        user_layers(values)[1].0 == LayerSource::User,
        user_layers(values)[1].1 == values,
{
}

/// Settings of the made-up user hold the defaults and, over them, what the base
/// text says. They are refused only if that text cannot be read, or if these very
/// layers do not load.
pub proof fn base_settings_exactly(res: Result<UserSettings, ConfigError>)
    requires
        is_base_settings(res),
    ensures
        res matches Ok(settings) ==> {
            &&& settings_layers(settings).len() == 2
            &&& settings_layers(settings)[0] == (
                LayerSource::Default,
                toml_values(DEFAULT_CONFIG@)->0,
            )
            &&& settings_layers(settings)[1].0 == LayerSource::User
            &&& toml_values(BASE_CONFIG@) == Some(settings_layers(settings)[1].1)
            &&& settings_load(settings_layers(settings))
        },
        res matches Err(ConfigError::Parse(_)) ==> toml_values(BASE_CONFIG@) is None,
        res matches Err(ConfigError::Settings(_)) ==> toml_values(BASE_CONFIG@) is Some
            && !settings_load(
            seq![
                (LayerSource::Default, toml_values(DEFAULT_CONFIG@)->0),
                (LayerSource::User, toml_values(BASE_CONFIG@)->0),
            ],
        ),
{
}

/// The configuration could not be used, for this reason.
#[derive(Debug)]
pub enum ConfigError {
    /// The text is not TOML.
    Parse(ConfigLoadError),
    /// A value is missing or has the wrong type.
    Settings(ConfigGetError),
}

/// The defaults with `layer` over them.
pub fn with_layer(layer: ConfigLayer) -> (res: StackedConfig)
    ensures
        toml_values(DEFAULT_CONFIG@) is Some,
        config_layers(res) == seq![default_layer(), (layer_source(layer), layer_values(layer))],
        config_layers(res).len() == 2,
        config_layers(res)[0].0 == LayerSource::Default,
        toml_values(DEFAULT_CONFIG@) == Some(config_layers(res)[0].1),
        config_layers(res)[1].0 == layer_source(layer),
        config_layers(res)[1].1 == layer_values(layer),
{
    let mut config = default_config();
    let ghost defaults = config_layers(config);
    add_config_layer(&mut config, layer);
    assert(defaults.drop_last().len() == 0);
    assert(config_layers(config) =~= seq![
        default_layer(),
        (layer_source(layer), layer_values(layer)),
    ]);
    config
}

/// The defaults with the values of a made-up user over them.
pub fn base_user_config() -> (res: Result<StackedConfig, ConfigError>)
    ensures
        match toml_values(BASE_CONFIG@) {
            Some(values) => {
                &&& res is Ok
                &&& config_layers(res->Ok_0) == user_layers(values)
                &&& toml_values(DEFAULT_CONFIG@) is Some
            },
            None => res matches Err(ConfigError::Parse(_)),
        },
        res matches Ok(config) ==> {
            &&& config_layers(config).len() == 2
            &&& config_layers(config)[0].0 == LayerSource::Default
            &&& toml_values(DEFAULT_CONFIG@) == Some(config_layers(config)[0].1)
            &&& config_layers(config)[1].0 == LayerSource::User
            &&& toml_values(BASE_CONFIG@) == Some(config_layers(config)[1].1)
        },
{
    match parse_config_layer(LayerSource::User, BASE_CONFIG) {
        Ok(layer) => Ok(with_layer(layer)),
        Err(err) => Err(ConfigError::Parse(err)),
    }
}

/// Settings from `config`.
pub fn settings_from(config: StackedConfig) -> (res: Result<UserSettings, ConfigError>)
    ensures
        match res {
            Ok(settings) => settings_load(config_layers(config)) && settings_layers(settings)
                == config_layers(config),
            Err(err) => !settings_load(config_layers(config)) && err is Settings,
        },
{
    match load_settings(config) {
        Ok(settings) => Ok(settings),
        Err(err) => Err(ConfigError::Settings(err)),
    }
}

/// Whether `res` is what comes of making settings from the values of the made-up
/// user over the defaults.
pub open spec fn is_base_settings(res: Result<UserSettings, ConfigError>) -> bool {
    match toml_values(BASE_CONFIG@) {
        Some(values) => if settings_load(user_layers(values)) {
            res is Ok && settings_layers(res->Ok_0) == user_layers(values)
        } else {
            res matches Err(ConfigError::Settings(_))
        },
        None => res matches Err(ConfigError::Parse(_)),
    }
}

/// Settings of a made-up user, which suffice to run basic operations.
pub fn user_settings() -> (res: Result<UserSettings, ConfigError>)
    ensures
        is_base_settings(res),
        res is Ok ==> toml_values(DEFAULT_CONFIG@) is Some,
        res matches Ok(settings) ==> {
            &&& settings_layers(settings).len() == 2
            &&& settings_layers(settings)[0].0 == LayerSource::Default
            &&& toml_values(DEFAULT_CONFIG@) == Some(settings_layers(settings)[0].1)
            &&& settings_layers(settings)[1].0 == LayerSource::User
            &&& toml_values(BASE_CONFIG@) == Some(settings_layers(settings)[1].1)
        },
{
    match base_user_config() {
        Ok(config) => settings_from(config),
        Err(err) => Err(err),
    }
}

/// A layer goes behind all layers of its own source and of lower precedence,
/// where the layers are in order.
pub proof fn insert_point_keeps_order(
    layers: Seq<(LayerSource, Map<Seq<char>, Seq<char>>)>,
    source: LayerSource,
)
    requires
        forall|i: int, j: int|
            0 <= i <= j < layers.len() ==> (#[trigger] layers[i]).0.rank() <= (
            #[trigger] layers[j]).0.rank(),
    ensures
        0 <= insert_point(layers, source) <= layers.len(),
        forall|i: int|
            0 <= i < insert_point(layers, source) ==> (#[trigger] layers[i]).0.rank()
                <= source.rank(),
        forall|i: int|
            insert_point(layers, source) <= i < layers.len() ==> (
            #[trigger] layers[i]).0.rank() > source.rank(),
    decreases layers.len(),
{
    if layers.len() > 0 && layers.last().0.rank() > source.rank() {
        let lower = layers.drop_last();
        insert_point_keeps_order(lower, source);
        assert forall|i: int| 0 <= i < insert_point(layers, source) implies (
        #[trigger] layers[i]).0.rank() <= source.rank() by {
            assert(lower[i] == layers[i]);
        }
        assert forall|i: int| insert_point(layers, source) <= i < layers.len() implies (
        #[trigger] layers[i]).0.rank() > source.rank() by {
            if i < lower.len() {
                assert(lower[i] == layers[i]);
            }
        }
    } else if layers.len() > 0 {
        assert forall|i: int| 0 <= i < layers.len() implies (#[trigger] layers[i]).0.rank()
            <= source.rank() by {
            assert(layers[i].0.rank() <= layers[layers.len() - 1].0.rank());
        }
    }
}

} // verus!
