use crate_runtime::error::ContainerError;

#[test]
fn test_error_display() {
    let err = ContainerError::Namespace("test error".into());
    assert_eq!(err.to_string(), "Namespace error: test error");
}

#[test]
fn test_error_display_variants() {
    assert!(ContainerError::Mount("m".into()).to_string().contains("Mount"));
    assert!(ContainerError::Filesystem("f".into()).to_string().contains("Filesystem"));
    assert!(ContainerError::Process("p".into()).to_string().contains("Process"));
    assert!(ContainerError::NotFound("n".into()).to_string().contains("not found"));
    assert!(ContainerError::InvalidConfig("c".into()).to_string().contains("Invalid"));
    assert!(ContainerError::Cgroup("cg".into()).to_string().contains("Cgroup"));
    assert!(ContainerError::Network("net".into()).to_string().contains("Network"));
    assert!(ContainerError::Security("sec".into()).to_string().contains("Security"));
    assert!(ContainerError::Image("img".into()).to_string().contains("Image"));
    assert!(ContainerError::Runtime("rt".into()).to_string().contains("Runtime"));
    assert!(ContainerError::Http("h".into()).to_string().contains("HTTP"));
}

#[test]
fn test_invalid_state_transition_display() {
    let err = ContainerError::InvalidStateTransition {
        from: "Created".into(),
        to: "Stopped".into(),
    };
    assert!(err.to_string().contains("Created"));
    assert!(err.to_string().contains("Stopped"));
}

#[test]
fn test_io_error_conversion() {
    let io_err = std::io::Error::new(std::io::ErrorKind::NotFound, "missing");
    let err: ContainerError = io_err.into();
    assert!(matches!(err, ContainerError::Io(_)));
}

#[test]
fn test_nix_error_conversion() {
    let nix_err = nix::Error::ENOENT;
    let err: ContainerError = nix_err.into();
    assert!(matches!(err, ContainerError::Nix(_)));
}

#[test]
fn test_serde_error_conversion() {
    let serde_err = serde_json::from_str::<serde_json::Value>("invalid").unwrap_err();
    let err: ContainerError = serde_err.into();
    assert!(matches!(err, ContainerError::Serialization(_)));
}

#[test]
fn wrapped_errors_show_their_own_text() {
    let io: ContainerError = std::io::Error::new(std::io::ErrorKind::Other, "disk full").into();
    assert_eq!(io.to_string(), "IO error: disk full");
    let nix: ContainerError = nix::Error::ENOENT.into();
    assert_eq!(nix.to_string(), "Nix error: ENOENT: No such file or directory");
    let parse = serde_json::from_str::<serde_json::Value>("invalid").unwrap_err();
    let expected = format!("Serialization error: {parse}");
    let json: ContainerError = parse.into();
    assert_eq!(json.to_string(), expected);
}

#[test]
fn every_error_has_its_label() {
    let text = || "x".to_string();
    assert_eq!(ContainerError::Mount(text()).to_string(), "Mount error: x");
    assert_eq!(ContainerError::Filesystem(text()).to_string(), "Filesystem error: x");
    assert_eq!(ContainerError::Process(text()).to_string(), "Process error: x");
    assert_eq!(ContainerError::NotFound(text()).to_string(), "Container not found: x");
    assert_eq!(ContainerError::InvalidConfig(text()).to_string(), "Invalid configuration: x");
    assert_eq!(ContainerError::Cgroup(text()).to_string(), "Cgroup error: x");
    assert_eq!(ContainerError::Network(text()).to_string(), "Network error: x");
    assert_eq!(ContainerError::Security(text()).to_string(), "Security error: x");
    assert_eq!(ContainerError::Image(text()).to_string(), "Image error: x");
    assert_eq!(ContainerError::Runtime(text()).to_string(), "Runtime error: x");
    assert_eq!(ContainerError::Http(text()).to_string(), "HTTP error: x");
    assert_eq!(
        ContainerError::InvalidStateTransition { from: "a".into(), to: "b".into() }.to_string(),
        "Invalid state transition: a -> b"
    );
}

#[test]
fn error_numbers_are_shown_with_their_descriptions() {
    let err = ContainerError::from(nix::errno::Errno::EPERM);
    assert_eq!(err.to_string(), "Nix error: EPERM: Operation not permitted");
    let err = ContainerError::from(nix::errno::Errno::ENOENT);
    assert_eq!(err.to_string(), "Nix error: ENOENT: No such file or directory");
}
