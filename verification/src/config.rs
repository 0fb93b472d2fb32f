//! Configuration of the container runtime.
//!
//! The configuration is read from `/etc/crate/config.toml` or
//! `~/.crate/config.toml`, with sensible defaults for all values.

use vstd::prelude::*;
use vstd::string::*;
use vstd::utf8::encode_utf8;

use crate::dialogue::{answered, answered_at, heard, Next, Turn};
use crate::error::labelled;
use crate::host::{chars_in, text_of};
use crate::os_path::{
    entry_bytes, entry_stands_for_its_path, is_path, path_bytes, path_text, path_text_of,
};
use crate::path::{join, joined_path};
use crate::text::views;

verus! {

/// Top-level runtime configuration.
#[derive(Debug)]
pub struct RuntimeConfig {
    /// Root directory for runtime state.
    pub root: String,
    /// Directory for image storage.
    pub image_root: String,
    /// Logging configuration.
    pub log: LogConfig,
    /// Default cgroup resource limits.
    pub cgroup: CgroupDefaults,
    /// Default security settings.
    pub security: SecurityDefaults,
    /// Default network settings.
    pub network: NetworkDefaults,
}

/// Logging configuration.
#[derive(Debug)]
pub struct LogConfig {
    /// Log level filter (e.g. `info`, `debug`, `crate_runtime=debug`).
    pub level: String,
}

/// Default cgroup resource limits.
#[derive(Debug, Clone, Copy)]
pub struct CgroupDefaults {
    /// Memory limit in bytes (0 = unlimited).
    pub memory_limit: u64,
    /// Memory high watermark in bytes (0 = unlimited).
    pub memory_high: u64,
    /// CPU quota in microseconds per period (0 = unlimited).
    pub cpu_quota: u64,
    /// CPU period in microseconds.
    pub cpu_period: u64,
    /// Process limit (0 = unlimited).
    pub pids_max: u64,
}

/// Default security settings.
#[derive(Debug, Clone, Copy)]
pub struct SecurityDefaults {
    /// Whether to drop capabilities.
    pub drop_capabilities: bool,
    /// Whether to apply seccomp filters.
    pub enable_seccomp: bool,
    /// Whether to use a read-only root filesystem.
    pub read_only_rootfs: bool,
}

/// Default network settings.
#[derive(Debug)]
pub struct NetworkDefaults {
    /// Bridge interface name.
    pub bridge_name: String,
    /// Subnet for container networking (CIDR notation).
    pub subnet: String,
    /// Gateway address.
    pub gateway: String,
    /// Whether to enable networking.
    pub enabled: bool,
}

/// What a [`RuntimeConfig`] says, with texts as characters.
pub struct Settings {
    pub root: Seq<char>,
    pub image_root: Seq<char>,
    pub log_level: Seq<char>,
    pub cgroup: CgroupDefaults,
    pub security: SecurityDefaults,
    pub network: NetworkSettings,
}

/// What a [`NetworkDefaults`] says, with texts as characters.
pub struct NetworkSettings {
    pub bridge_name: Seq<char>,
    pub subnet: Seq<char>,
    pub gateway: Seq<char>,
    pub enabled: bool,
}

impl View for NetworkDefaults {
    type V = NetworkSettings;

    open spec fn view(&self) -> NetworkSettings {
        NetworkSettings {
            bridge_name: self.bridge_name@,
            subnet: self.subnet@,
            gateway: self.gateway@,
            enabled: self.enabled,
        }
    }
}

impl View for RuntimeConfig {
    type V = Settings;

    open spec fn view(&self) -> Settings {
        Settings {
            root: self.root@,
            image_root: self.image_root@,
            log_level: self.log.level@,
            cgroup: self.cgroup,
            security: self.security,
            network: self.network@,
        }
    }
}

impl Clone for LogConfig {
    fn clone(&self) -> (r: LogConfig)
        ensures
            r == *self,
    {
        LogConfig { level: self.level.clone() }
    }
}

impl Clone for NetworkDefaults {
    fn clone(&self) -> (r: NetworkDefaults)
        ensures
            r == *self,
    {
        NetworkDefaults {
            bridge_name: self.bridge_name.clone(),
            subnet: self.subnet.clone(),
            gateway: self.gateway.clone(),
            enabled: self.enabled,
        }
    }
}

impl Clone for RuntimeConfig {
    fn clone(&self) -> (r: RuntimeConfig)
        ensures
            r == *self,
    {
        RuntimeConfig {
            root: self.root.clone(),
            image_root: self.image_root.clone(),
            log: self.log.clone(),
            cgroup: self.cgroup,
            security: self.security,
            network: self.network.clone(),
        }
    }
}

impl Default for LogConfig {
    fn default() -> (r: LogConfig)
        ensures
            r.level@ == "crate_runtime=info"@,
    {
        LogConfig { level: "crate_runtime=info".to_owned() }
    }
}

/// The cgroup resource limits by default: none.
pub open spec fn default_limits() -> CgroupDefaults {
    CgroupDefaults {
        memory_limit: 0,
        memory_high: 0,
        cpu_quota: 0,
        cpu_period: 100_000,
        pids_max: 0,
    }
}

impl Default for CgroupDefaults {
    fn default() -> (r: CgroupDefaults)
        ensures
            r == default_limits(),
    {
        CgroupDefaults {
            memory_limit: 0,
            memory_high: 0,
            cpu_quota: 0,
            cpu_period: 100_000,
            pids_max: 0,
        }
    }
}

/// The security settings by default.
pub open spec fn default_security() -> SecurityDefaults {
    SecurityDefaults { drop_capabilities: true, enable_seccomp: true, read_only_rootfs: false }
}

impl Default for SecurityDefaults {
    fn default() -> (r: SecurityDefaults)
        ensures
            r == default_security(),
    {
        SecurityDefaults { drop_capabilities: true, enable_seccomp: true, read_only_rootfs: false }
    }
}

/// The network settings by default.
pub open spec fn default_network() -> NetworkSettings {
    NetworkSettings {
        bridge_name: "crate0"@,
        subnet: "172.28.0.0/16"@,
        gateway: "172.28.0.1"@,
        enabled: true,
    }
}

impl Default for NetworkDefaults {
    fn default() -> (r: NetworkDefaults)
        ensures
            r@ == default_network(),
    {
        NetworkDefaults {
            bridge_name: "crate0".to_owned(),
            subnet: "172.28.0.0/16".to_owned(),
            gateway: "172.28.0.1".to_owned(),
            enabled: true,
        }
    }
}

/// Calls `dirs::home_dir`: the bytes of the path of the home directory of the user, if
/// there is one. The environment decides, so nothing is claimed of them.
#[verifier::external_body]
fn home_dir() -> (home: Option<Vec<u8>>) {
    dirs::home_dir().map(|path| path.into_os_string().into_encoded_bytes())
}

/// The text of the path of a home directory, if there is one.
pub open spec fn home_text(home: Option<Seq<u8>>) -> Option<Seq<char>> {
    match home {
        Some(dir) => Some(path_text(dir)),
        None => None,
    }
}

/// The text of the path of the home directory of the user, if there is one.
pub(crate) fn home_path() -> (r: Option<String>)
    ensures
        exists|home: Option<Seq<u8>>| text_of(r) == #[trigger] home_text(home),
{
    match home_dir() {
        Some(dir) => {
            let r = Some(path_text_of(&dir));
            assert(text_of(r) == home_text(Some(dir@)));
            r
        },
        None => {
            let r: Option<String> = None;
            assert(text_of(r) == home_text(None));
            r
        },
    }
}

/// The directory that stands for the home directory: `/root` when there is none.
pub open spec fn home_or_root(home: Option<Seq<char>>) -> Seq<char> {
    match home {
        Some(dir) => dir,
        None => "/root"@,
    }
}

/// The configuration by default of a user with this home directory.
pub open spec fn default_settings(home: Option<Seq<char>>) -> Settings {
    Settings {
        root: "/run/crate"@,
        image_root: joined_path(home_or_root(home), ".crate/images"@),
        log_level: "crate_runtime=info"@,
        cgroup: default_limits(),
        security: default_security(),
        network: default_network(),
    }
}

/// The standard configuration files of a user with this home directory.
pub open spec fn standard_files(home: Option<Seq<char>>) -> Seq<Seq<char>> {
    match home {
        Some(dir) => seq!["/etc/crate/config.toml"@, joined_path(dir, ".crate/config.toml"@)],
        None => seq!["/etc/crate/config.toml"@],
    }
}

/// What came of reading and parsing a configuration file.
#[derive(Debug)]
pub enum ConfigOutcome {
    /// The configuration in the file.
    Parsed(RuntimeConfig),
    /// The file could not be read; this is the text of the error.
    Unreadable(String),
    /// The file could not be parsed; this is the text of the error.
    Malformed(String),
}

/// A question to the host about configuration files.
#[derive(Debug)]
pub enum ConfigCall {
    /// Does this file exist?
    Exists(String),
    /// Read and parse this file.
    Read(String),
}

/// What a [`ConfigCall`] asks, with texts as characters.
pub enum ConfigAsk {
    Exists(Seq<char>),
    Read(Seq<char>),
}

impl View for ConfigCall {
    type V = ConfigAsk;

    open spec fn view(&self) -> ConfigAsk {
        match *self {
            ConfigCall::Exists(path) => ConfigAsk::Exists(path@),
            ConfigCall::Read(path) => ConfigAsk::Read(path@),
        }
    }
}

/// The host's answer to a [`ConfigCall`].
#[derive(Debug)]
pub enum ConfigReply {
    /// Whether the file exists.
    Exists(bool),
    /// What came of reading and parsing the file.
    Outcome(ConfigOutcome),
}

/// What a [`ConfigReply`] says.
pub enum ConfigAnswer {
    Exists(bool),
    Parsed(Settings),
    Unusable,
}

impl View for ConfigReply {
    type V = ConfigAnswer;

    open spec fn view(&self) -> ConfigAnswer {
        match *self {
            ConfigReply::Exists(exists) => ConfigAnswer::Exists(exists),
            ConfigReply::Outcome(ConfigOutcome::Parsed(config)) => ConfigAnswer::Parsed(config@),
            ConfigReply::Outcome(_) => ConfigAnswer::Unusable,
        }
    }
}

/// The turn of the search for a configuration in `files` after the answers so far:
/// the first file that exists and can be used, and the default when there is none.
pub open spec fn search_turn(
    files: Seq<Seq<char>>,
    default: Settings,
    answers: Seq<ConfigAnswer>,
) -> Turn<ConfigAsk, Settings>
    decreases files.len(),
{
    if files.len() == 0 {
        Turn::Done(default)
    } else if answers.len() == 0 {
        Turn::Ask(ConfigAsk::Exists(files[0]))
    } else {
        match answers[0] {
            ConfigAnswer::Exists(false) => search_turn(files.skip(1), default, answers.skip(1)),
            ConfigAnswer::Exists(true) => if answers.len() == 1 {
                Turn::Ask(ConfigAsk::Read(files[0]))
            } else {
                match answers[1] {
                    ConfigAnswer::Parsed(settings) => Turn::Done(settings),
                    ConfigAnswer::Unusable => search_turn(
                        files.skip(1),
                        default,
                        answers.skip(2),
                    ),
                    _ => Turn::Stray,
                }
            },
            _ => Turn::Stray,
        }
    }
}

/// The turn of the loading of a configuration after the answers so far.
pub open spec fn load_turn(home: Option<Seq<char>>, answers: Seq<ConfigAnswer>) -> Turn<
    ConfigAsk,
    Settings,
> {
    search_turn(standard_files(home), default_settings(home), answers)
}

impl RuntimeConfig {
    /// The default configuration of a user with this home directory.
    pub fn default_for(home: Option<&str>) -> (r: RuntimeConfig)
        ensures
            r@ == default_settings(chars_in(home)),
    {
        let dir = match home {
            Some(dir) => dir,
            None => "/root",
        };
        RuntimeConfig {
            root: "/run/crate".to_owned(),
            image_root: join(dir, ".crate/images"),
            log: LogConfig::default(),
            cgroup: CgroupDefaults::default(),
            security: SecurityDefaults::default(),
            network: NetworkDefaults::default(),
        }
    }

    /// The standard configuration files of a user with this home directory.
    fn config_paths(home: Option<&str>) -> (r: Vec<String>)
        ensures
            views(r@) == standard_files(chars_in(home)),
    {
        let mut paths = vec!["/etc/crate/config.toml".to_owned()];
        if let Some(dir) = home {
            paths.push(join(dir, ".crate/config.toml"));
        }
        assert(views(paths@) =~= standard_files(chars_in(home)));
        paths
    }

    /// The configuration that came of reading a file, or the text that says why there
    /// is none.
    pub fn load_from(outcome: ConfigOutcome) -> (r: Result<RuntimeConfig, String>)
        ensures
            match outcome {
                ConfigOutcome::Parsed(config) => r == Ok::<RuntimeConfig, String>(config),
                ConfigOutcome::Unreadable(error) => r is Err && r->Err_0@
                    == "Failed to read config: "@ + error@,
                ConfigOutcome::Malformed(error) => r is Err && r->Err_0@
                    == "Failed to parse config: "@ + error@,
            },
    {
        match outcome {
            ConfigOutcome::Parsed(config) => Ok(config),
            ConfigOutcome::Unreadable(error) => Err(
                labelled("Failed to read config: ", error.as_str()),
            ),
            ConfigOutcome::Malformed(error) => Err(
                labelled("Failed to parse config: ", error.as_str()),
            ),
        }
    }

    /// The dialogue that loads the configuration of a user with this home directory.
    /// `replies` holds the answers so far.
    pub fn load_for(home: Option<&str>, replies: &Vec<ConfigReply>) -> (r: Next<
        ConfigCall,
        RuntimeConfig,
    >)
        ensures
            r@ == load_turn(chars_in(home), heard(replies@)),
    {
        let paths = RuntimeConfig::config_paths(home);
        let ghost files = standard_files(chars_in(home));
        let ghost default = default_settings(chars_in(home));
        let len = replies.len();
        let mut i: usize = 0;
        let mut at: usize = 0;
        assert(files.skip(0) =~= files);
        assert(heard(replies@).skip(0) =~= heard(replies@));
        while i < paths.len()
            invariant
                i <= paths@.len(),
                len == replies@.len(),
                at <= len,
                views(paths@) == files,
                load_turn(chars_in(home), heard(replies@)) == search_turn(
                    files.skip(i as int),
                    default,
                    heard(replies@).skip(at as int),
                ),
            decreases paths@.len() - i,
        {
            let ghost answers = heard(replies@).skip(at as int);
            assert(files.skip(i as int)[0] == paths@[i as int]@);
            assert(files.skip(i as int).skip(1) =~= files.skip(i + 1));
            if at == len {
                return Next::Ask(ConfigCall::Exists(paths[i].clone()));
            }
            assert(answers[0] == replies@[at as int]@);
            match &replies[at] {
                ConfigReply::Exists(false) => {
                    assert(answers.skip(1) =~= heard(replies@).skip(at + 1));
                    at = at + 1;
                },
                ConfigReply::Exists(true) => {
                    if at + 1 == len {
                        return Next::Ask(ConfigCall::Read(paths[i].clone()));
                    }
                    assert(answers[1] == replies@[at + 1]@);
                    match &replies[at + 1] {
                        ConfigReply::Outcome(ConfigOutcome::Parsed(config)) => {
                            return Next::Done(config.clone());
                        },
                        ConfigReply::Outcome(_) => {
                            assert(answers.skip(2) =~= heard(replies@).skip(at + 2));
                            at = at + 2;
                        },
                        _ => return Next::Stray,
                    }
                },
                _ => return Next::Stray,
            }
            i = i + 1;
        }
        assert(files.skip(i as int).len() == 0);
        Next::Done(RuntimeConfig::default_for(home))
    }

    /// The dialogue that loads the configuration of the current user from the standard
    /// files: `/etc/crate/config.toml`, then `~/.crate/config.toml`. A file that does
    /// not exist or cannot be used is passed over; without one the defaults are
    /// taken. `replies` holds the answers so far.
    pub fn load(replies: &Vec<ConfigReply>) -> (r: Next<ConfigCall, RuntimeConfig>)
        ensures
            exists|home: Option<Seq<u8>>|
                r@ == load_turn(#[trigger] home_text(home), heard(replies@)),
    {
        match home_path() {
            Some(home) => RuntimeConfig::load_for(Some(home.as_str()), replies),
            None => RuntimeConfig::load_for(None, replies),
        }
    }
}

impl Default for RuntimeConfig {
    fn default() -> (r: RuntimeConfig)
        ensures
            exists|home: Option<Seq<u8>>| r@ == default_settings(#[trigger] home_text(home)),
    {
        match home_path() {
            Some(home) => RuntimeConfig::default_for(Some(home.as_str())),
            None => RuntimeConfig::default_for(None),
        }
    }
}

/// The images are by default in `.crate/images` below the home directory, and the
/// configuration file of a user is `.crate/config.toml` there, whether or not the path of
/// the home directory is Unicode.
pub proof fn home_paths_are_below_the_home(home: Seq<u8>)
    requires
        is_path(home),
    ensures
        path_bytes(default_settings(home_text(Some(home))).image_root) == entry_bytes(
            home,
            encode_utf8(".crate/images"@),
        ),
        path_bytes(standard_files(home_text(Some(home)))[1]) == entry_bytes(
            home,
            encode_utf8(".crate/config.toml"@),
        ),
{
    reveal_strlit(".crate/images");
    reveal_strlit(".crate/config.toml");
    entry_stands_for_its_path(home, ".crate/images"@);
    entry_stands_for_its_path(home, ".crate/config.toml"@);
}

/// When no standard file exists, the configuration is the default one.
pub proof fn configuration_defaults_without_files(
    home: Option<Seq<char>>,
    answers: Seq<ConfigAnswer>,
)
    requires
        answers.len() >= standard_files(home).len(),
        forall|i: int|
            0 <= i < standard_files(home).len() ==> #[trigger] answers[i] == ConfigAnswer::Exists(
                false,
            ),
    ensures
        load_turn(home, answers) == Turn::<ConfigAsk, Settings>::Done(default_settings(home)),
{
    let files = standard_files(home);
    reveal_with_fuel(search_turn, 4);
    assert(answers[0] == ConfigAnswer::Exists(false));
    if files.len() == 2 {
        assert(answers.skip(1)[0] == answers[1]);
        assert(files.skip(1)[0] == files[1]);
        assert(files.skip(1).skip(1).len() == 0);
    }
}

/// The turns of the search for the configuration.
pub open spec fn load_turns(home: Option<Seq<char>>) -> spec_fn(Seq<ConfigAnswer>) -> Turn<
    ConfigAsk,
    Settings,
> {
    |said: Seq<ConfigAnswer>| load_turn(home, said)
}

/// Whether a file was of no use: it does not exist, or it could not be read or understood.
pub open spec fn was_of_no_use(
    home: Option<Seq<char>>,
    said: Seq<ConfigAnswer>,
    file: Seq<char>,
) -> bool {
    ||| answered(load_turns(home), said, ConfigAsk::Exists(file), ConfigAnswer::Exists(false))
    ||| answered(load_turns(home), said, ConfigAsk::Read(file), ConfigAnswer::Unusable)
}

/// Whether the configuration was read from a file.
pub open spec fn was_read_from(
    home: Option<Seq<char>>,
    said: Seq<ConfigAnswer>,
    file: Seq<char>,
    settings: Settings,
) -> bool {
    answered(load_turns(home), said, ConfigAsk::Read(file), ConfigAnswer::Parsed(settings))
}

/// The configuration is that of the file of the system; where that is of no use, that of
/// the file of the user, if they have a home directory; and where that is of no use either,
/// the default.
#[verifier::rlimit(40)]
pub proof fn configuration_comes_from_the_first_usable_file(
    home: Option<Seq<char>>,
    said: Seq<ConfigAnswer>,
    settings: Settings,
)
    requires
        load_turn(home, said) == Turn::<ConfigAsk, Settings>::Done(settings),
    ensures
        ({
            let system = "/etc/crate/config.toml"@;
            ||| was_read_from(home, said, system, settings)
            ||| was_of_no_use(home, said, system) && match home {
                Some(dir) => {
                    let own = joined_path(dir, ".crate/config.toml"@);
                    ||| was_read_from(home, said, own, settings)
                    ||| was_of_no_use(home, said, own) && settings == default_settings(home)
                },
                None => settings == default_settings(home),
            }
        }),
{
    let turns = load_turns(home);
    let files = standard_files(home);
    let default = default_settings(home);
    let system = "/etc/crate/config.toml"@;
    reveal_with_fuel(search_turn, 4);
    assert(files[0] == system);
    assert(said.take(0).len() == 0);
    assert(answered_at(turns, said, 0, ConfigAsk::Exists(system), said[0]));
    let k: int = if said[0] == ConfigAnswer::Exists(true) {
        assert(said.take(1)[0] == said[0]);
        assert(answered_at(turns, said, 1, ConfigAsk::Read(system), said[1]));
        2
    } else {
        1
    };
    if home is Some && !(said[0] == ConfigAnswer::Exists(true) && said[1] is Parsed) {
        let own = joined_path(home->Some_0, ".crate/config.toml"@);
        let rest = said.skip(k);
        assert(files.skip(1)[0] == own);
        assert(files.skip(1).skip(1).len() == 0);
        assert forall|i: int| k <= i <= said.len() implies turns(#[trigger] said.take(i))
            == search_turn(files.skip(1), default, said.take(i).skip(k)) by {
            assert(said.take(i)[0] == said[0]);
            if k == 2 {
                assert(said.take(i)[1] == said[1]);
            }
        }
        assert(rest[0] == said[k]);
        assert(said.take(k).skip(k).len() == 0);
        assert(answered_at(turns, said, k, ConfigAsk::Exists(own), said[k]));
        if said[k] == ConfigAnswer::Exists(true) {
            assert(rest[1] == said[k + 1]);
            assert(said.take(k + 1).skip(k)[0] == said[k]);
            assert(answered_at(turns, said, k + 1, ConfigAsk::Read(own), said[k + 1]));
        }
    } else if home is None {
        assert(files.skip(1).len() == 0);
    }
}

/// Without a configuration nothing is limited, containers are restricted as far as
/// possible without making their root filesystem read-only, and the network is that of the
/// bridge `crate0`.
pub proof fn defaults_restrict_containers(home: Option<Seq<char>>)
    ensures
        ({
            let settings = default_settings(home);
            &&& settings.root == "/run/crate"@
            &&& settings.image_root == joined_path(
                match home {
                    Some(dir) => dir,
                    None => "/root"@,
                },
                ".crate/images"@,
            )
            &&& settings.log_level == "crate_runtime=info"@
            &&& settings.cgroup.memory_limit == 0 && settings.cgroup.memory_high == 0
            &&& settings.cgroup.cpu_quota == 0 && settings.cgroup.cpu_period == 100_000
            &&& settings.cgroup.pids_max == 0
            &&& settings.security.drop_capabilities && settings.security.enable_seccomp
            &&& !settings.security.read_only_rootfs
            &&& settings.network.bridge_name == "crate0"@ && settings.network.enabled
            &&& settings.network.subnet == "172.28.0.0/16"@
            &&& settings.network.gateway == "172.28.0.1"@
        }),
{
}

} // verus!
