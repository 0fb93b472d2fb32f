use crate_runtime::filesystem::{prepare_overlay_dirs, OverlayMount};
use crate_runtime::host::{HostOp, MountFlag};

#[test]
fn mount_options_read_write() {
    let overlay = OverlayMount::builder()
        .lower_dir("/layers/base")
        .lower_dir("/layers/app")
        .upper_dir("/containers/abc/upper")
        .work_dir("/containers/abc/work")
        .mount_point("/containers/abc/merged")
        .build()
        .unwrap();

    let opts = overlay.mount_options();
    assert_eq!(
        opts,
        "lowerdir=/layers/base:/layers/app,upperdir=/containers/abc/upper,workdir=/containers/abc/work"
    );
}

#[test]
fn mount_options_read_only() {
    let overlay = OverlayMount::builder()
        .lower_dir("/layers/base")
        .lower_dir("/layers/app")
        .mount_point("/containers/abc/merged")
        .read_only(true)
        .build()
        .unwrap();

    let opts = overlay.mount_options();
    assert_eq!(opts, "lowerdir=/layers/base:/layers/app");
}

#[test]
fn mount_options_single_lower() {
    let overlay = OverlayMount::builder()
        .lower_dir("/layers/only")
        .mount_point("/mnt")
        .read_only(true)
        .build()
        .unwrap();

    assert_eq!(overlay.mount_options(), "lowerdir=/layers/only");
}

#[test]
fn builder_missing_mountpoint() {
    let result = OverlayMount::builder()
        .lower_dir("/layers/base")
        .upper_dir("/upper")
        .work_dir("/work")
        .build();

    assert!(result.is_err());
    let err = result.unwrap_err().to_string();
    assert!(err.contains("mountpoint"), "expected mountpoint error: {err}");
}

#[test]
fn builder_empty_layers() {
    let result = OverlayMount::builder()
        .mount_point("/mnt")
        .upper_dir("/upper")
        .work_dir("/work")
        .build();

    assert!(result.is_err());
    let err = result.unwrap_err().to_string();
    assert!(err.contains("lower directory"), "expected lower dir error: {err}");
}

#[test]
fn builder_rw_missing_upper() {
    let result = OverlayMount::builder()
        .lower_dir("/layers/base")
        .work_dir("/work")
        .mount_point("/mnt")
        .build();

    assert!(result.is_err());
    let err = result.unwrap_err().to_string();
    assert!(err.contains("upper directory"), "expected upper dir error: {err}");
}

#[test]
fn builder_rw_missing_workdir() {
    let result = OverlayMount::builder()
        .lower_dir("/layers/base")
        .upper_dir("/upper")
        .mount_point("/mnt")
        .build();

    assert!(result.is_err());
    let err = result.unwrap_err().to_string();
    assert!(err.contains("work directory"), "expected work dir error: {err}");
}

#[test]
fn builder_read_only_no_upper_ok() {
    let result = OverlayMount::builder()
        .lower_dir("/layers/base")
        .mount_point("/mnt")
        .read_only(true)
        .build();

    assert!(result.is_ok());
}

#[test]
fn overlay_dirs_stay_below_the_base() {
    let (dirs, _) = prepare_overlay_dirs("/etc", "/base");
    assert_eq!(dirs.upper, "/base//etc/upper");
    assert_eq!(dirs.work, "/base//etc/work");
    assert_eq!(dirs.merged, "/base//etc/merged");
}

#[test]
fn prepare_overlay_dirs_creates_paths() {
    let tmp = tempfile::tempdir().unwrap();
    let base = tmp.path().to_str().unwrap();
    let (dirs, plan) = prepare_overlay_dirs("test-container-123", base);

    assert_eq!(dirs.upper, tmp.path().join("test-container-123").join("upper").to_str().unwrap());
    assert_eq!(dirs.work, tmp.path().join("test-container-123").join("work").to_str().unwrap());
    assert_eq!(
        dirs.merged,
        tmp.path().join("test-container-123").join("merged").to_str().unwrap()
    );

    let created: Vec<&String> = plan
        .steps
        .iter()
        .map(|step| match &step.op {
            HostOp::CreateDirAll(path) => path,
            other => panic!("unexpected operation: {other:?}"),
        })
        .collect();
    assert_eq!(created, vec![&dirs.upper, &dirs.work, &dirs.merged]);
}

#[test]
fn prepare_overlay_dirs_idempotent() {
    let tmp = tempfile::tempdir().unwrap();
    let base = tmp.path().to_str().unwrap();
    let (dirs1, _) = prepare_overlay_dirs("ctr", base);
    let (dirs2, _) = prepare_overlay_dirs("ctr", base);

    assert_eq!(dirs1.upper, dirs2.upper);
    assert_eq!(dirs1.work, dirs2.work);
    assert_eq!(dirs1.merged, dirs2.merged);
}

#[test]
fn mount_creates_the_mountpoint_first() {
    let overlay = OverlayMount::builder()
        .lower_dir("/l")
        .mount_point("/mnt")
        .read_only(true)
        .build()
        .unwrap();
    let plan = overlay.mount("linux").unwrap();
    assert!(matches!(&plan.steps[0].op, HostOp::CreateDirAll(path) if path == "/mnt"));
    match &plan.steps[1].op {
        HostOp::Mount { source, target, fstype, flags, data } => {
            assert_eq!(source.as_deref(), Some("overlay"));
            assert_eq!(target, "/mnt");
            assert_eq!(fstype.as_deref(), Some("overlay"));
            assert_eq!(flags, &vec![MountFlag::ReadOnly]);
            assert_eq!(data.as_deref(), Some("lowerdir=/l"));
        }
        other => panic!("unexpected operation: {other:?}"),
    }
    let plan = overlay.clone().unmount("linux").unwrap();
    assert!(matches!(&plan.steps[0].op, HostOp::Unmount(path) if path == "/mnt"));
}

#[test]
fn overlays_need_linux() {
    let overlay = OverlayMount::builder()
        .lower_dir("/l")
        .mount_point("/mnt")
        .read_only(true)
        .build()
        .unwrap();
    let error = overlay.mount("macos").unwrap_err().to_string();
    assert_eq!(error, "Mount error: overlayfs is only supported on Linux");
    let error = overlay.unmount("macos").unwrap_err().to_string();
    assert_eq!(error, "Mount error: overlayfs is only supported on Linux");
}
