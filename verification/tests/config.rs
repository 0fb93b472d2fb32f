use crate_runtime::config::{ConfigCall, ConfigOutcome, ConfigReply, RuntimeConfig};
use crate_runtime::dialogue::Next;
use crate_runtime::os_path::{path_bytes_of, path_text_of};

#[test]
fn test_default_config() {
    let config = RuntimeConfig::default();
    assert_eq!(config.root, "/run/crate");
    assert_eq!(config.log.level, "crate_runtime=info");
    assert_eq!(config.cgroup.cpu_period, 100_000);
    assert!(config.security.drop_capabilities);
    assert!(config.security.enable_seccomp);
    assert_eq!(config.network.bridge_name, "crate0");
    assert_eq!(config.network.subnet, "172.28.0.0/16");
}

#[test]
fn test_config_defaults_are_sensible() {
    let config = RuntimeConfig::default();
    assert!(!config.log.level.is_empty());
    assert_eq!(config.cgroup.cpu_period, 100_000);
    assert!(config.security.drop_capabilities);
    assert!(config.security.enable_seccomp);
    assert_eq!(config.network.bridge_name, "crate0");
}

#[test]
fn image_root_is_under_the_home_directory() {
    assert_eq!(RuntimeConfig::default_for(Some("/home/a")).image_root, "/home/a/.crate/images");
    assert_eq!(RuntimeConfig::default_for(None).image_root, "/root/.crate/images");
    assert!(RuntimeConfig::default().image_root.ends_with("/.crate/images"));
}

fn asked(next: Next<ConfigCall, RuntimeConfig>) -> String {
    match next {
        Next::Ask(ConfigCall::Exists(path)) => format!("exists {path}"),
        Next::Ask(ConfigCall::Read(path)) => format!("read {path}"),
        other => format!("{other:?}"),
    }
}

fn custom() -> RuntimeConfig {
    let mut config = RuntimeConfig::default_for(None);
    config.root = "/custom".to_string();
    config
}

#[test]
fn load_takes_the_first_usable_file() {
    let home = Some("/home/a");
    let mut replies = Vec::new();
    assert_eq!(asked(RuntimeConfig::load_for(home, &replies)), "exists /etc/crate/config.toml");
    replies.push(ConfigReply::Exists(true));
    assert_eq!(asked(RuntimeConfig::load_for(home, &replies)), "read /etc/crate/config.toml");
    replies.push(ConfigReply::Outcome(ConfigOutcome::Malformed("bad".to_string())));
    assert_eq!(
        asked(RuntimeConfig::load_for(home, &replies)),
        "exists /home/a/.crate/config.toml"
    );
    replies.push(ConfigReply::Exists(true));
    assert_eq!(asked(RuntimeConfig::load_for(home, &replies)), "read /home/a/.crate/config.toml");
    replies.push(ConfigReply::Outcome(ConfigOutcome::Parsed(custom())));
    match RuntimeConfig::load_for(home, &replies) {
        Next::Done(config) => assert_eq!(config.root, "/custom"),
        other => panic!("expected a configuration: {other:?}"),
    }
}

#[test]
fn load_falls_back_to_the_defaults() {
    let replies = vec![ConfigReply::Exists(false), ConfigReply::Exists(false)];
    match RuntimeConfig::load_for(Some("/home/a"), &replies) {
        Next::Done(config) => {
            assert_eq!(config.root, "/run/crate");
            assert_eq!(config.image_root, "/home/a/.crate/images");
        }
        other => panic!("expected a configuration: {other:?}"),
    }
    let one = vec![ConfigReply::Exists(false)];
    assert!(matches!(RuntimeConfig::load_for(None, &one), Next::Done(_)));
}

#[test]
fn load_of_the_current_user_starts_with_the_system_file() {
    assert_eq!(asked(RuntimeConfig::load(&Vec::new())), "exists /etc/crate/config.toml");
}

#[test]
fn load_notices_stray_answers() {
    let replies = vec![ConfigReply::Outcome(ConfigOutcome::Parsed(custom()))];
    assert!(matches!(RuntimeConfig::load_for(None, &replies), Next::Stray));
}

#[test]
fn load_from_reports_errors() {
    assert_eq!(RuntimeConfig::load_from(ConfigOutcome::Parsed(custom())).unwrap().root, "/custom");
    assert_eq!(
        RuntimeConfig::load_from(ConfigOutcome::Unreadable("gone".to_string())).unwrap_err(),
        "Failed to read config: gone"
    );
    assert_eq!(
        RuntimeConfig::load_from(ConfigOutcome::Malformed("odd".to_string())).unwrap_err(),
        "Failed to parse config: odd"
    );
}

#[test]
fn home_directory_need_not_be_unicode() {
    let home = path_text_of(&b"/home/\xff/".to_vec());
    let config = RuntimeConfig::default_for(Some(&home));
    assert_eq!(path_bytes_of(&config.image_root), b"/home/\xff/.crate/images");
    match RuntimeConfig::load_for(Some(&home), &vec![ConfigReply::Exists(false)]) {
        Next::Ask(ConfigCall::Exists(path)) => {
            assert_eq!(path_bytes_of(&path), b"/home/\xff/.crate/config.toml");
        }
        other => panic!("unexpected turn: {other:?}"),
    }
    let home = dirs::home_dir().map(|dir| path_text_of(&dir.into_os_string().into_encoded_bytes()));
    assert_eq!(
        RuntimeConfig::default().image_root,
        RuntimeConfig::default_for(home.as_deref()).image_root
    );
}
