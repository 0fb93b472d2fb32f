//! Container configuration and the builder that validates it.

use vstd::prelude::*;
use vstd::string::*;

use crate::container::process::{rootfs_of, Container};
use crate::error::{fails_with, ContainerError, Failure};
use crate::host::text_of;
use crate::namespace::uts::{
    accepted_hostnames, exceeds_hostname_limit, has_hostname_chars, hostname_chars, hostname_fault,
    hostname_too_long, hostnames_are_plain, MAX_HOSTNAME,
};
use crate::path::{absolute, climbs, is_absolute, path_without_two_dots_does_not_climb};
use crate::text::{contains_text, copy_list, copy_pairs, has_text, occurs_at, pair_views, views};
use crate::util::{random_uuid, uuid_form};

verus! {

/// Configuration for a container.
#[derive(Debug)]
pub struct ContainerConfig {
    pub id: String,
    pub hostname: String,
    pub command: Vec<String>,
    pub rootfs: Option<String>,
    pub env: Vec<(String, String)>,
}

/// What a [`ContainerConfig`] says, with texts as characters.
pub struct Config {
    pub id: Seq<char>,
    pub hostname: Seq<char>,
    pub command: Seq<Seq<char>>,
    pub rootfs: Option<Seq<char>>,
    pub env: Seq<(Seq<char>, Seq<char>)>,
}

impl View for ContainerConfig {
    type V = Config;

    open spec fn view(&self) -> Config {
        Config {
            id: self.id@,
            hostname: self.hostname@,
            command: views(self.command@),
            rootfs: text_of(self.rootfs),
            env: pair_views(self.env@),
        }
    }
}

impl Clone for ContainerConfig {
    fn clone(&self) -> (r: ContainerConfig)
        ensures
            r@ == self@,
    {
        ContainerConfig {
            id: self.id.clone(),
            hostname: self.hostname.clone(),
            command: copy_list(&self.command),
            rootfs: match &self.rootfs {
                Some(path) => Some(path.clone()),
                None => None,
            },
            env: copy_pairs(&self.env),
        }
    }
}

/// The environment of a container by default.
pub open spec fn default_env() -> Seq<(Seq<char>, Seq<char>)> {
    seq![
        ("PATH"@, "/usr/local/sbin:/usr/local/bin:/usr/sbin:/usr/bin:/sbin:/bin"@),
        ("TERM"@, "xterm"@),
    ]
}

/// The configuration of a container with a given id by default.
pub open spec fn default_config(id: Seq<char>) -> Config {
    Config {
        id,
        hostname: "container"@,
        command: seq!["/bin/sh"@],
        rootfs: None,
        env: default_env(),
    }
}

impl ContainerConfig {
    /// The default configuration of a container with a given id.
    pub fn with_id(id: String) -> (r: ContainerConfig)
        ensures
            r@ == default_config(id@),
    {
        let r = ContainerConfig {
            id,
            hostname: "container".to_owned(),
            command: vec!["/bin/sh".to_owned()],
            rootfs: None,
            env: vec![
                (
                    "PATH".to_owned(),
                    "/usr/local/sbin:/usr/local/bin:/usr/sbin:/usr/bin:/sbin:/bin".to_owned(),
                ),
                ("TERM".to_owned(), "xterm".to_owned()),
            ],
        };
        assert(r@.command =~= seq!["/bin/sh"@]);
        assert(r@.env =~= default_env());
        r
    }
}

impl Default for ContainerConfig {
    /// The default configuration, with the first twelve characters of a random
    /// UUID as its id.
    fn default() -> (r: ContainerConfig)
        ensures
            exists|uuid: Seq<char>|
                uuid_form(uuid) && r@ == default_config(#[trigger] uuid.take(12)),
    {
        let uuid = random_uuid();
        let id = uuid.as_str().substring_char(0, 12).to_owned();
        assert(id@ =~= uuid@.take(12));
        ContainerConfig::with_id(id)
    }
}

/// Builder pattern for creating containers.
#[derive(Debug)]
pub struct ContainerBuilder {
    config: ContainerConfig,
}

impl View for ContainerBuilder {
    type V = Config;

    closed spec fn view(&self) -> Config {
        self.config@
    }
}

/// What is wrong with a configuration, if anything.
pub open spec fn config_fault(config: Config) -> Option<Seq<char>> {
    if config.command.len() == 0 {
        Some("Command cannot be empty"@)
    } else if forall|i: int|
        0 <= i < config.command.len() ==> (#[trigger] config.command[i]).len() == 0 {
        Some("Command must contain at least one non-empty argument"@)
    } else if config.hostname.len() == 0 {
        Some("Hostname cannot be empty"@)
    } else if hostname_too_long(config.hostname) {
        Some("Hostname exceeds maximum length of 255 characters"@)
    } else if !hostname_chars(config.hostname) {
        Some(
            "Hostname contains invalid characters (only alphanumeric, hyphens, and dots allowed)"@,
        )
    } else {
        match config.rootfs {
            Some(path) => if path.len() == 0 {
                Some("Root filesystem path cannot be empty"@)
            } else if !absolute(path) {
                Some("Root filesystem path must be absolute"@)
            } else if has_text(path, ".."@) {
                Some("Root filesystem path must not contain '..' components"@)
            } else {
                None
            },
            None => None,
        }
    }
}

/// Whether a container can be built with a configuration: its command has an argument
/// that is not empty, its hostname has from 1 to 255 characters that may occur in a
/// hostname, and the path of its root filesystem, if there is one, is absolute and
/// free of `..`.
pub open spec fn valid_config(config: Config) -> bool {
    &&& exists|i: int| 0 <= i < config.command.len() && (#[trigger] config.command[i]).len() > 0
    &&& 0 < config.hostname.len() <= MAX_HOSTNAME && hostname_chars(config.hostname)
    &&& config.rootfs matches Some(path) ==> absolute(path) && !has_text(path, ".."@)
}

proof fn valid_configs_have_no_fault(config: Config)
    ensures
        config_fault(config) is None <==> valid_config(config),
{
    accepted_hostnames(config.hostname);
}

fn all_empty(list: &Vec<String>) -> (r: bool)
    ensures
        r == forall|i: int|
            0 <= i < views(list@).len() ==> (#[trigger] views(list@)[i]).len() == 0,
{
    let mut i: usize = 0;
    while i < list.len()
        invariant
            i <= list@.len(),
            forall|j: int| 0 <= j < i ==> (#[trigger] views(list@)[j]).len() == 0,
        decreases list@.len() - i,
    {
        if !list[i].as_str().is_empty() {
            assert(views(list@)[i as int].len() != 0);
            return false;
        }
        i = i + 1;
    }
    true
}

fn invalid(text: &str) -> (r: Result<Container, ContainerError>)
    ensures
        r is Err,
        r->Err_0@ == Failure::InvalidConfig(text@),
{
    Err(ContainerError::InvalidConfig(text.to_owned()))
}

impl ContainerBuilder {
    /// Create a new container builder with the default configuration.
    pub fn new() -> (r: ContainerBuilder)
        ensures
            exists|uuid: Seq<char>|
                uuid_form(uuid) && r@ == default_config(#[trigger] uuid.take(12)),
    {
        ContainerBuilder { config: ContainerConfig::default() }
    }

    /// A container builder that starts from a given configuration.
    pub fn from_config(config: ContainerConfig) -> (r: ContainerBuilder)
        ensures
            r@ == config@,
    {
        ContainerBuilder { config }
    }

    /// Set the command to run inside the container. An empty list leaves the
    /// command as it is.
    pub fn command(self, command: Vec<String>) -> (r: ContainerBuilder)
        ensures
            r@ == (if command@.len() > 0 {
                Config { command: views(command@), ..self@ }
            } else {
                self@
            }),
    {
        if command.len() == 0 {
            return self;
        }
        ContainerBuilder { config: ContainerConfig { command, ..self.config } }
    }

    /// Set the hostname of the container. An empty one leaves the hostname as it
    /// is.
    pub fn hostname(self, hostname: String) -> (r: ContainerBuilder)
        ensures
            r@ == (if hostname@.len() > 0 {
                Config { hostname: hostname@, ..self@ }
            } else {
                self@
            }),
    {
        if hostname.as_str().is_empty() {
            return self;
        }
        ContainerBuilder { config: ContainerConfig { hostname, ..self.config } }
    }

    /// Set the path of the root filesystem. An empty one leaves the path as it is.
    pub fn rootfs(self, rootfs: String) -> (r: ContainerBuilder)
        ensures
            r@ == (if rootfs@.len() > 0 {
                Config { rootfs: Some(rootfs@), ..self@ }
            } else {
                self@
            }),
    {
        if rootfs.as_str().is_empty() {
            return self;
        }
        ContainerBuilder { config: ContainerConfig { rootfs: Some(rootfs), ..self.config } }
    }

    /// Add an environment variable.
    pub fn env(self, key: String, value: String) -> (r: ContainerBuilder)
        ensures
            r@ == (Config { env: self@.env.push((key@, value@)), ..self@ }),
    {
        let mut config = self.config;
        let ghost before = pair_views(config.env@);
        config.env.push((key, value));
        assert(pair_views(config.env@) =~= before.push((key@, value@)));
        ContainerBuilder { config }
    }

    /// Set the container id.
    pub fn id(self, id: String) -> (r: ContainerBuilder)
        ensures
            r@ == (Config { id: id@, ..self@ }),
    {
        ContainerBuilder { config: ContainerConfig { id, ..self.config } }
    }

    /// Validate the configuration and build the container.
    pub fn build(self) -> (r: Result<Container, ContainerError>)
        ensures
            fails_with(
                r,
                match config_fault(self@) {
                    Some(text) => Some(Failure::InvalidConfig(text)),
                    None => None,
                },
            ),
            r is Ok <==> valid_config(self@),
            r is Ok ==> {
                &&& r->Ok_0.config@ == self@
                &&& r->Ok_0.owns_rootfs == (self@.rootfs is None)
                &&& r->Ok_0.rootfs_path@ == rootfs_of(self@.id, self@.rootfs)
            },
    {
        proof {
            valid_configs_have_no_fault(self@);
        }
        if self.config.command.len() == 0 {
            return invalid("Command cannot be empty");
        }
        if all_empty(&self.config.command) {
            return invalid("Command must contain at least one non-empty argument");
        }
        let hostname = self.config.hostname.as_str();
        if hostname.is_empty() {
            return invalid("Hostname cannot be empty");
        }
        if exceeds_hostname_limit(hostname) {
            return invalid("Hostname exceeds maximum length of 255 characters");
        }
        if !has_hostname_chars(hostname) {
            return invalid(
                "Hostname contains invalid characters (only alphanumeric, hyphens, and dots allowed)",
            );
        }
        if let Some(path) = &self.config.rootfs {
            if path.as_str().is_empty() {
                return invalid("Root filesystem path cannot be empty");
            }
            if !is_absolute(path.as_str()) {
                return invalid("Root filesystem path must be absolute");
            }
            if contains_text(path.as_str(), "..") {
                return invalid("Root filesystem path must not contain '..' components");
            }
        }
        Ok(Container::new(self.config))
    }
}

impl Default for ContainerBuilder {
    fn default() -> (r: ContainerBuilder)
        ensures
            exists|uuid: Seq<char>|
                uuid_form(uuid) && r@ == default_config(#[trigger] uuid.take(12)),
    {
        ContainerBuilder::new()
    }
}

/// A container that is built has a command to execute, a hostname that
/// `validate_hostname` accepts, and a root filesystem, if it has one of its own, at an
/// absolute path without `..` components.
pub proof fn built_container_is_sound(config: Config)
    requires
        config_fault(config) is None,
    ensures
        config.command.len() > 0,
        exists|i: int| 0 <= i < config.command.len() && (#[trigger] config.command[i]).len() > 0,
        hostname_fault(config.hostname) is None,
        config.rootfs matches Some(path) ==> absolute(path) && !climbs(path),
{
    if let Some(path) = config.rootfs {
        reveal_strlit("..");
        assert(".."@ =~= seq!['.', '.']);
        path_without_two_dots_does_not_climb(path);
    }
}

/// A container can be built exactly when its command is not blank, its hostname has from 1
/// to 255 letters, digits, hyphens and dots, and its root filesystem, if it has one of its
/// own, is at an absolute path without two dots in a row.
pub proof fn sound_containers_can_be_built(config: Config)
    ensures
        (config_fault(config) is None) == {
            &&& exists|i: int|
                0 <= i < config.command.len() && (#[trigger] config.command[i]).len() > 0
            &&& 1 <= config.hostname.len() <= 255
            &&& forall|i: int|
                0 <= i < config.hostname.len() ==> {
                    let c = #[trigger] config.hostname[i];
                    ||| 'a' <= c <= 'z'
                    ||| 'A' <= c <= 'Z'
                    ||| '0' <= c <= '9'
                    ||| c == '-'
                    ||| c == '.'
                }
            &&& config.rootfs matches Some(path) ==> {
                &&& path.len() > 0 && path[0] == '/'
                &&& forall|i: int|
                    0 < i < path.len() ==> !(#[trigger] path[i] == '.' && path[i - 1] == '.')
            }
        },
{
    valid_configs_have_no_fault(config);
    accepted_hostnames(config.hostname);
    hostnames_are_plain(config.hostname);
    if let Some(path) = config.rootfs {
        reveal_strlit("..");
        let dots = ".."@;
        if has_text(path, dots) {
            let at = choose|at: int| occurs_at(path, dots, at);
            assert(path.subrange(at, at + 2)[0] == path[at]);
            assert(path.subrange(at, at + 2)[1] == path[at + 1]);
            assert(path[at + 1] == '.' && path[at + 1 - 1] == '.');
        } else {
            assert forall|i: int| 0 < i < path.len() implies !(#[trigger] path[i] == '.' && path[i
                - 1] == '.') by {
                if path[i] == '.' && path[i - 1] == '.' {
                    assert(path.subrange(i - 1, i + 1) =~= dots);
                    assert(occurs_at(path, dots, i - 1));
                }
            }
        }
    }
}

} // verus!
