//! The mount namespace isolates the set of mount points: each container has its
//! own view of the filesystem.

use vstd::prelude::*;
use vstd::string::*;

use crate::error::labelled;
use crate::host::{
    ignoring, mount_op, reporting, rethrowing, Category, HostCall, HostOp, MountFlag, Move, Plan,
    Rule,
};
use crate::path::{join, joined_path, parent, parent_of};
use crate::text::{path_quoted, quoted_path};

verus! {

/// The moves that mount the proc filesystem.
pub open spec fn proc_moves() -> Seq<Move> {
    seq![
        ignoring(HostCall::CreateDirAll("/proc"@)),
        reporting(
            HostCall::Mount {
                source: Some("proc"@),
                target: "/proc"@,
                fstype: Some("proc"@),
                flags: seq![MountFlag::NoSuid, MountFlag::NoExec, MountFlag::NoDev],
                data: None,
            },
            Category::Mount,
            "Failed to mount /proc: "@,
        ),
    ]
}

/// The moves that mount sysfs, read-only.
pub open spec fn sysfs_moves() -> Seq<Move> {
    seq![
        ignoring(HostCall::CreateDirAll("/sys"@)),
        reporting(
            HostCall::Mount {
                source: Some("sysfs"@),
                target: "/sys"@,
                fstype: Some("sysfs"@),
                flags: seq![
                    MountFlag::NoSuid,
                    MountFlag::NoExec,
                    MountFlag::NoDev,
                    MountFlag::ReadOnly,
                ],
                data: None,
            },
            Category::Mount,
            "Failed to mount /sys: "@,
        ),
    ]
}

/// The permissions of the device nodes: everyone may read and write.
pub const DEVICE_MODE: u32 = 0o666;

/// The moves that put a device node in place of whatever is there.
pub open spec fn device_moves(path: Seq<char>, major: u64, minor: u64) -> Seq<Move> {
    seq![
        ignoring(HostCall::RemoveFile(path)),
        reporting(
            HostCall::MakeCharDevice { path, mode: DEVICE_MODE, major, minor },
            Category::Filesystem,
            "Failed to create device node "@ + path + ": "@,
        ),
    ]
}

/// The moves that create the device nodes and symbolic links of `/dev`.
pub open spec fn dev_node_moves() -> Seq<Move> {
    device_moves("/dev/null"@, 1, 3) + device_moves("/dev/zero"@, 1, 5) + device_moves(
        "/dev/full"@,
        1,
        7,
    ) + device_moves("/dev/random"@, 1, 8) + device_moves("/dev/urandom"@, 1, 9) + device_moves(
        "/dev/tty"@,
        5,
        0,
    ) + seq![
        ignoring(HostCall::Symlink { target: "/proc/self/fd"@, link: "/dev/fd"@ }),
        ignoring(HostCall::Symlink { target: "/proc/self/fd/0"@, link: "/dev/stdin"@ }),
        ignoring(HostCall::Symlink { target: "/proc/self/fd/1"@, link: "/dev/stdout"@ }),
        ignoring(HostCall::Symlink { target: "/proc/self/fd/2"@, link: "/dev/stderr"@ }),
        ignoring(HostCall::RemoveFile("/dev/console"@)),
        ignoring(
            HostCall::MakeCharDevice {
                path: "/dev/console"@,
                mode: DEVICE_MODE,
                major: 5,
                minor: 1,
            },
        ),
    ]
}

/// The moves that set up `/dev`.
pub open spec fn dev_moves() -> Seq<Move> {
    seq![
        ignoring(HostCall::CreateDirAll("/dev"@)),
        reporting(
            HostCall::Mount {
                source: Some("tmpfs"@),
                target: "/dev"@,
                fstype: Some("tmpfs"@),
                flags: seq![MountFlag::NoSuid, MountFlag::StrictAtime],
                data: Some("mode=755,size=65536k"@),
            },
            Category::Mount,
            "Failed to mount tmpfs on /dev: "@,
        ),
    ] + dev_node_moves() + seq![
        ignoring(HostCall::CreateDirAll("/dev/pts"@)),
        ignoring(
            HostCall::Mount {
                source: Some("devpts"@),
                target: "/dev/pts"@,
                fstype: Some("devpts"@),
                flags: seq![MountFlag::NoSuid, MountFlag::NoExec],
                data: Some("newinstance,ptmxmode=0666,mode=0620"@),
            },
        ),
        ignoring(HostCall::CreateDirAll("/dev/shm"@)),
        ignoring(
            HostCall::Mount {
                source: Some("tmpfs"@),
                target: "/dev/shm"@,
                fstype: Some("tmpfs"@),
                flags: seq![MountFlag::NoSuid, MountFlag::NoExec, MountFlag::NoDev],
                data: Some("mode=1777,size=65536k"@),
            },
        ),
    ]
}

/// The moves that make `new_root` the root of the mount namespace.
pub open spec fn pivot_moves(new_root: Seq<char>) -> Seq<Move> {
    let put_old = joined_path(new_root, ".pivot_root"@);
    seq![
        reporting(
            HostCall::Mount {
                source: None,
                target: "/"@,
                fstype: None,
                flags: seq![MountFlag::Private, MountFlag::Recursive],
                data: None,
            },
            Category::Mount,
            "Failed to make root private: "@,
        ),
        reporting(
            HostCall::Mount {
                source: Some(new_root),
                target: new_root,
                fstype: None,
                flags: seq![MountFlag::Bind, MountFlag::Recursive],
                data: None,
            },
            Category::Mount,
            "Failed to bind mount new root: "@,
        ),
        reporting(
            HostCall::CreateDirAll(put_old),
            Category::Filesystem,
            "Failed to create pivot_root dir: "@,
        ),
        reporting(
            HostCall::PivotRoot { new_root, put_old },
            Category::Mount,
            "Failed to pivot_root: "@,
        ),
        reporting(
            HostCall::ChangeDir("/"@),
            Category::Filesystem,
            "Failed to chdir to /: "@,
        ),
    ]
}

/// The moves that set up the mount namespace of a container.
pub open spec fn mount_namespace_moves(new_root: Seq<char>) -> Seq<Move> {
    pivot_moves(new_root) + proc_moves() + sysfs_moves() + dev_moves() + seq![
        reporting(
            HostCall::DetachMount("/.pivot_root"@),
            Category::Mount,
            "Failed to unmount old root: "@,
        ),
        ignoring(HostCall::RemoveDir("/.pivot_root"@)),
    ]
}

/// The plan that sets up the mount namespace for a container:
/// 1. makes all mounts private to prevent propagation
/// 2. bind mounts the new root onto itself
/// 3. makes it the root filesystem
/// 4. sets up the essential filesystems (`/proc`, `/sys`, `/dev`)
/// 5. unmounts the old root
pub fn setup_mount_namespace(new_root: &str) -> (r: Plan)
    ensures
        r@ == mount_namespace_moves(new_root@),
{
    let mut plan = pivot_plan(new_root);
    plan.extend(mount_proc());
    plan.extend(mount_sysfs());
    plan.extend(setup_dev());
    let mut last = Plan::new();
    last.report(
        HostOp::DetachMount("/.pivot_root".to_owned()),
        Category::Mount,
        "Failed to unmount old root: ",
    );
    last.ignore(HostOp::RemoveDir("/.pivot_root".to_owned()));
    plan.extend(last);
    plan
}

/// Two mount flags.
fn two(a: MountFlag, b: MountFlag) -> (r: Vec<MountFlag>)
    ensures
        r@ == seq![a, b],
{
    let r = vec![a, b];
    assert(r@ =~= seq![a, b]);
    r
}

/// Three mount flags.
fn three(a: MountFlag, b: MountFlag, c: MountFlag) -> (r: Vec<MountFlag>)
    ensures
        r@ == seq![a, b, c],
{
    let r = vec![a, b, c];
    assert(r@ =~= seq![a, b, c]);
    r
}

fn pivot_plan(new_root: &str) -> (r: Plan)
    ensures
        r@ == pivot_moves(new_root@),
{
    let put_old = join(new_root, ".pivot_root");
    let mut plan = Plan::new();
    plan.report(
        mount_op(None, "/", None, two(MountFlag::Private, MountFlag::Recursive), None),
        Category::Mount,
        "Failed to make root private: ",
    );
    plan.report(
        mount_op(
            Some(new_root),
            new_root,
            None,
            two(MountFlag::Bind, MountFlag::Recursive),
            None,
        ),
        Category::Mount,
        "Failed to bind mount new root: ",
    );
    plan.report(
        HostOp::CreateDirAll(put_old.clone()),
        Category::Filesystem,
        "Failed to create pivot_root dir: ",
    );
    plan.report(
        HostOp::PivotRoot { new_root: new_root.to_owned(), put_old },
        Category::Mount,
        "Failed to pivot_root: ",
    );
    plan.report(
        HostOp::ChangeDir("/".to_owned()),
        Category::Filesystem,
        "Failed to chdir to /: ",
    );
    plan
}

/// The plan that mounts the proc filesystem.
fn mount_proc() -> (r: Plan)
    ensures
        r@ == proc_moves(),
{
    let mut plan = Plan::new();
    plan.ignore(HostOp::CreateDirAll("/proc".to_owned()));
    plan.report(
        mount_op(
            Some("proc"),
            "/proc",
            Some("proc"),
            three(MountFlag::NoSuid, MountFlag::NoExec, MountFlag::NoDev),
            None,
        ),
        Category::Mount,
        "Failed to mount /proc: ",
    );
    plan
}

/// The plan that mounts sysfs, read-only.
fn mount_sysfs() -> (r: Plan)
    ensures
        r@ == sysfs_moves(),
{
    let mut plan = Plan::new();
    plan.ignore(HostOp::CreateDirAll("/sys".to_owned()));
    let mut flags = three(MountFlag::NoSuid, MountFlag::NoExec, MountFlag::NoDev);
    flags.push(MountFlag::ReadOnly);
    assert(flags@ =~= seq![
        MountFlag::NoSuid,
        MountFlag::NoExec,
        MountFlag::NoDev,
        MountFlag::ReadOnly,
    ]);
    plan.report(
        mount_op(Some("sysfs"), "/sys", Some("sysfs"), flags, None),
        Category::Mount,
        "Failed to mount /sys: ",
    );
    plan
}

/// The plan that sets up `/dev` with its device nodes.
fn setup_dev() -> (r: Plan)
    ensures
        r@ == dev_moves(),
{
    let mut plan = Plan::new();
    plan.ignore(HostOp::CreateDirAll("/dev".to_owned()));
    plan.report(
        mount_op(
            Some("tmpfs"),
            "/dev",
            Some("tmpfs"),
            two(MountFlag::NoSuid, MountFlag::StrictAtime),
            Some("mode=755,size=65536k"),
        ),
        Category::Mount,
        "Failed to mount tmpfs on /dev: ",
    );
    plan.extend(create_dev_nodes());
    let mut rest = Plan::new();
    rest.ignore(HostOp::CreateDirAll("/dev/pts".to_owned()));
    rest.ignore(
        mount_op(
            Some("devpts"),
            "/dev/pts",
            Some("devpts"),
            two(MountFlag::NoSuid, MountFlag::NoExec),
            Some("newinstance,ptmxmode=0666,mode=0620"),
        ),
    );
    rest.ignore(HostOp::CreateDirAll("/dev/shm".to_owned()));
    rest.ignore(
        mount_op(
            Some("tmpfs"),
            "/dev/shm",
            Some("tmpfs"),
            three(MountFlag::NoSuid, MountFlag::NoExec, MountFlag::NoDev),
            Some("mode=1777,size=65536k"),
        ),
    );
    plan.extend(rest);
    plan
}

/// The plan that puts a device node in place of whatever is there.
fn device_plan(path: &str, major: u64, minor: u64) -> (r: Plan)
    ensures
        r@ == device_moves(path@, major, minor),
{
    let mut plan = Plan::new();
    plan.ignore(HostOp::RemoveFile(path.to_owned()));
    let mut text = labelled("Failed to create device node ", path);
    text.append(": ");
    plan.report(
        HostOp::MakeCharDevice { path: path.to_owned(), mode: DEVICE_MODE, major, minor },
        Category::Filesystem,
        text.as_str(),
    );
    plan
}

fn symlink(target: &str, link: &str) -> (r: HostOp)
    ensures
        r@ == (HostCall::Symlink { target: target@, link: link@ }),
{
    HostOp::Symlink { target: target.to_owned(), link: link.to_owned() }
}

/// The plan that creates the essential device nodes in `/dev`.
fn create_dev_nodes() -> (r: Plan)
    ensures
        r@ == dev_node_moves(),
{
    let mut plan = device_plan("/dev/null", 1, 3);
    plan.extend(device_plan("/dev/zero", 1, 5));
    plan.extend(device_plan("/dev/full", 1, 7));
    plan.extend(device_plan("/dev/random", 1, 8));
    plan.extend(device_plan("/dev/urandom", 1, 9));
    plan.extend(device_plan("/dev/tty", 5, 0));
    let mut rest = Plan::new();
    rest.ignore(symlink("/proc/self/fd", "/dev/fd"));
    rest.ignore(symlink("/proc/self/fd/0", "/dev/stdin"));
    rest.ignore(symlink("/proc/self/fd/1", "/dev/stdout"));
    rest.ignore(symlink("/proc/self/fd/2", "/dev/stderr"));
    rest.ignore(HostOp::RemoveFile("/dev/console".to_owned()));
    rest.ignore(
        HostOp::MakeCharDevice {
            path: "/dev/console".to_owned(),
            mode: DEVICE_MODE,
            major: 5,
            minor: 1,
        },
    );
    plan.extend(rest);
    plan
}

/// The moves that bind mount `source` at `target`.
pub open spec fn bind_moves(
    source: Seq<char>,
    target: Seq<char>,
    readonly: bool,
    source_is_dir: bool,
) -> Seq<Move> {
    let place = if source_is_dir {
        seq![rethrowing(HostCall::CreateDirAll(target))]
    } else {
        (match parent(target) {
            Some(dir) => seq![rethrowing(HostCall::CreateDirAll(dir))],
            None => seq![],
        }).push(rethrowing(HostCall::WriteFile { path: target, contents: ""@ }))
    };
    let mounted = place.push(
        reporting(
            HostCall::Mount {
                source: Some(source),
                target,
                fstype: None,
                flags: if readonly {
                    seq![MountFlag::Bind, MountFlag::ReadOnly]
                } else {
                    seq![MountFlag::Bind]
                },
                data: None,
            },
            Category::Mount,
            "Failed to bind mount "@ + quoted_path(source) + ": "@,
        ),
    );
    if readonly {
        mounted.push(
            reporting(
                HostCall::Mount {
                    source: None,
                    target,
                    fstype: None,
                    flags: seq![MountFlag::Bind, MountFlag::ReadOnly, MountFlag::Remount],
                    data: None,
                },
                Category::Mount,
                "Failed to remount "@ + quoted_path(target) + " readonly: "@,
            ),
        )
    } else {
        mounted
    }
}

/// The plan that bind mounts a path into the container. The target is created
/// first: a directory when the source is one, an empty file otherwise. A bind
/// mount ignores the read-only flag at first, so a second mount applies it.
pub fn bind_mount(source: &str, target: &str, readonly: bool, source_is_dir: bool) -> (r: Plan)
    ensures
        r@ == bind_moves(source@, target@, readonly, source_is_dir),
{
    let mut plan = Plan::new();
    if source_is_dir {
        plan.rethrow(HostOp::CreateDirAll(target.to_owned()));
    } else {
        if let Some(dir) = parent_of(target) {
            plan.rethrow(HostOp::CreateDirAll(dir));
        }
        plan.rethrow(HostOp::WriteFile { path: target.to_owned(), contents: "".to_owned() });
    }
    let mut text = labelled("Failed to bind mount ", path_quoted(source).as_str());
    text.append(": ");
    let mut flags: Vec<MountFlag> = Vec::new();
    flags.push(MountFlag::Bind);
    if readonly {
        flags.push(MountFlag::ReadOnly);
        assert(flags@ =~= seq![MountFlag::Bind, MountFlag::ReadOnly]);
    } else {
        assert(flags@ =~= seq![MountFlag::Bind]);
    }
    plan.report(
        mount_op(Some(source), target, None, flags, None),
        Category::Mount,
        text.as_str(),
    );
    if readonly {
        let mut text = labelled("Failed to remount ", path_quoted(target).as_str());
        text.append(" readonly: ");
        plan.report(
            mount_op(
                None,
                target,
                None,
                three(MountFlag::Bind, MountFlag::ReadOnly, MountFlag::Remount),
                None,
            ),
            Category::Mount,
            text.as_str(),
        );
    }
    plan
}

/// Whether a move creates the character device at a path with these numbers, which
/// everyone may read and write.
pub open spec fn makes_device(step: Move, path: Seq<char>, major: u64, minor: u64) -> bool {
    step.call == (HostCall::MakeCharDevice { path, mode: 0o666, major, minor })
}

/// Whether some move creates the character device at a path with these numbers.
pub open spec fn has_device(moves: Seq<Move>, path: Seq<char>, major: u64, minor: u64) -> bool {
    exists|i: int| 0 <= i < moves.len() && makes_device(#[trigger] moves[i], path, major, minor)
}

/// Whether some move does something.
pub open spec fn performs(moves: Seq<Move>, call: HostCall) -> bool {
    exists|i: int| 0 <= i < moves.len() && (#[trigger] moves[i]).call == call
}

proof fn mount_namespace_in_detail(new_root: Seq<char>)
    ensures
        ({
            let m = mount_namespace_moves(new_root);
            let nodes = dev_node_moves();
            &&& m.len() == 35
            &&& m.subrange(0, 5) == pivot_moves(new_root)
            &&& m.subrange(5, 7) == proc_moves()
            &&& m.subrange(7, 9) == sysfs_moves()
            &&& m.subrange(9, 33) == dev_moves()
            &&& m.subrange(11, 29) == nodes
            &&& nodes.len() == 18
        }),
{
    let m = mount_namespace_moves(new_root);
    assert(dev_node_moves().len() == 18);
    assert(dev_moves().len() == 24);
    assert(m.len() == 35);
    assert(m.subrange(0, 5) =~= pivot_moves(new_root));
    assert(m.subrange(5, 7) =~= proc_moves());
    assert(m.subrange(7, 9) =~= sysfs_moves());
    assert(m.subrange(9, 33) =~= dev_moves());
    assert(m.subrange(11, 29) =~= dev_node_moves());
}

proof fn device_nodes_in_detail()
    ensures
        dev_node_moves().len() == 18,
        makes_device(dev_node_moves()[1], "/dev/null"@, 1, 3),
        makes_device(dev_node_moves()[3], "/dev/zero"@, 1, 5),
        makes_device(dev_node_moves()[5], "/dev/full"@, 1, 7),
        makes_device(dev_node_moves()[7], "/dev/random"@, 1, 8),
        makes_device(dev_node_moves()[9], "/dev/urandom"@, 1, 9),
        makes_device(dev_node_moves()[11], "/dev/tty"@, 5, 0),
        makes_device(dev_node_moves()[17], "/dev/console"@, 5, 1),
        forall|i: int|
            0 <= i < 18 && (#[trigger] dev_node_moves()[i]).call is MakeCharDevice ==> i == 1 || i
                == 3 || i == 5 || i == 7 || i == 9 || i == 11 || i == 17,
{
    let nodes = dev_node_moves();
    assert(nodes[0].call is RemoveFile && nodes[2].call is RemoveFile && nodes[4].call is RemoveFile
        && nodes[6].call is RemoveFile && nodes[8].call is RemoveFile
        && nodes[10].call is RemoveFile);
    assert(nodes[12].call is Symlink && nodes[13].call is Symlink && nodes[14].call is Symlink
        && nodes[15].call is Symlink && nodes[16].call is RemoveFile);
}

proof fn device_names_differ()
    ensures
        "/dev/null"@ != "/dev/zero"@,
        "/dev/null"@ != "/dev/full"@,
        "/dev/null"@ != "/dev/random"@,
        "/dev/null"@ != "/dev/urandom"@,
        "/dev/null"@ != "/dev/tty"@,
        "/dev/null"@ != "/dev/console"@,
        "/dev/zero"@ != "/dev/full"@,
        "/dev/zero"@ != "/dev/random"@,
        "/dev/zero"@ != "/dev/urandom"@,
        "/dev/zero"@ != "/dev/tty"@,
        "/dev/zero"@ != "/dev/console"@,
        "/dev/full"@ != "/dev/random"@,
        "/dev/full"@ != "/dev/urandom"@,
        "/dev/full"@ != "/dev/tty"@,
        "/dev/full"@ != "/dev/console"@,
        "/dev/random"@ != "/dev/urandom"@,
        "/dev/random"@ != "/dev/tty"@,
        "/dev/random"@ != "/dev/console"@,
        "/dev/urandom"@ != "/dev/tty"@,
        "/dev/urandom"@ != "/dev/console"@,
        "/dev/tty"@ != "/dev/console"@,
{
    reveal_strlit("/dev/null");
    reveal_strlit("/dev/zero");
    reveal_strlit("/dev/full");
    reveal_strlit("/dev/random");
    reveal_strlit("/dev/urandom");
    reveal_strlit("/dev/tty");
    reveal_strlit("/dev/console");
    assert("/dev/null"@[5] == 'n');
    assert("/dev/zero"@[5] == 'z');
    assert("/dev/full"@[5] == 'f');
    assert("/dev/random"@[5] == 'r');
    assert("/dev/urandom"@[5] == 'u');
    assert("/dev/tty"@[5] == 't');
    assert("/dev/console"@[5] == 'c');
}

/// The devices of a container are those of the kernel's table, each under its name and
/// with its numbers, each created once, and no others.
pub proof fn container_has_the_standard_devices(new_root: Seq<char>)
    ensures
        ({
            let moves = mount_namespace_moves(new_root);
            &&& has_device(moves, "/dev/null"@, 1, 3)
            &&& has_device(moves, "/dev/zero"@, 1, 5)
            &&& has_device(moves, "/dev/full"@, 1, 7)
            &&& has_device(moves, "/dev/random"@, 1, 8)
            &&& has_device(moves, "/dev/urandom"@, 1, 9)
            &&& has_device(moves, "/dev/tty"@, 5, 0)
            &&& has_device(moves, "/dev/console"@, 5, 1)
            &&& forall|i: int|
                0 <= i < moves.len() && (#[trigger] moves[i]).call is MakeCharDevice ==> {
                    ||| makes_device(moves[i], "/dev/null"@, 1, 3)
                    ||| makes_device(moves[i], "/dev/zero"@, 1, 5)
                    ||| makes_device(moves[i], "/dev/full"@, 1, 7)
                    ||| makes_device(moves[i], "/dev/random"@, 1, 8)
                    ||| makes_device(moves[i], "/dev/urandom"@, 1, 9)
                    ||| makes_device(moves[i], "/dev/tty"@, 5, 0)
                    ||| makes_device(moves[i], "/dev/console"@, 5, 1)
                }
            &&& forall|i: int, j: int|
                0 <= i < j < moves.len() && (#[trigger] moves[i]).call is MakeCharDevice && (
                #[trigger] moves[j]).call is MakeCharDevice ==> moves[i].call->MakeCharDevice_path
                    != moves[j].call->MakeCharDevice_path
        }),
{
    let moves = mount_namespace_moves(new_root);
    let nodes = dev_node_moves();
    mount_namespace_in_detail(new_root);
    device_nodes_in_detail();
    device_names_differ();
    assert forall|i: int| 0 <= i < 18 implies #[trigger] nodes[i] == moves[i + 11] by {
        assert(moves.subrange(11, 29)[i] == moves[i + 11]);
    }
    assert(nodes[1] == moves[12] && nodes[3] == moves[14] && nodes[5] == moves[16] && nodes[7]
        == moves[18] && nodes[9] == moves[20] && nodes[11] == moves[22] && nodes[17] == moves[28]);
    assert forall|i: int|
        0 <= i < moves.len() && (#[trigger] moves[i]).call is MakeCharDevice implies i == 12 || i
        == 14 || i == 16 || i == 18 || i == 20 || i == 22 || i == 28 by {
        if i < 5 {
            assert(moves.subrange(0, 5)[i] == moves[i]);
        } else if i < 7 {
            assert(moves.subrange(5, 7)[i - 5] == moves[i]);
        } else if i < 9 {
            assert(moves.subrange(7, 9)[i - 7] == moves[i]);
        } else if i < 11 || 29 <= i < 33 {
            assert(moves.subrange(9, 33)[i - 9] == moves[i]);
        } else if i < 29 {
            assert(nodes[i - 11] == moves[i]);
        }
    }
}

/// Whether the move at `i` mounts a filesystem of a type at a place, with these flags.
pub open spec fn mounts_at(
    moves: Seq<Move>,
    i: int,
    fstype: Seq<char>,
    target: Seq<char>,
    flags: Set<MountFlag>,
) -> bool {
    &&& 0 <= i < moves.len()
    &&& moves[i].call is Mount
    &&& moves[i].call->Mount_fstype == Some(fstype)
    &&& moves[i].call->Mount_target == target
    &&& moves[i].call->Mount_flags.to_set() == flags
}

/// The root of a container becomes its own: mounts are made private first, then the root
/// filesystem of the container is bound to itself, becomes the root, and the working
/// directory is there. The old root is put into a directory of the new one, and is
/// unmounted from there after everything else was mounted. None of these may fail.
pub proof fn container_gets_its_own_root(new_root: Seq<char>)
    ensures
        ({
            let moves = mount_namespace_moves(new_root);
            let last = moves.len() - 2;
            &&& moves.len() > 6
            &&& forall|i: int| 0 <= i < 5 ==> (#[trigger] moves[i]).rule is Report
            &&& moves[0].call is Mount
            &&& moves[0].call->Mount_target == "/"@
            &&& moves[0].call->Mount_source is None
            &&& moves[0].call->Mount_flags.to_set() == set![
                MountFlag::Private,
                MountFlag::Recursive,
            ]
            &&& moves[1].call is Mount
            &&& moves[1].call->Mount_source == Some(new_root)
            &&& moves[1].call->Mount_target == new_root
            &&& moves[1].call->Mount_flags.to_set() == set![MountFlag::Bind, MountFlag::Recursive]
            &&& moves[3].call is PivotRoot
            &&& moves[3].call->PivotRoot_new_root == new_root
            &&& moves[2].call == HostCall::CreateDirAll(moves[3].call->PivotRoot_put_old)
            &&& moves[3].call->PivotRoot_put_old == joined_path(new_root, ".pivot_root"@)
            &&& moves[4].call == HostCall::ChangeDir("/"@)
            &&& moves[last].call == HostCall::DetachMount("/.pivot_root"@)
            &&& moves[last].rule is Report
            &&& moves[last + 1].call == HostCall::RemoveDir("/.pivot_root"@)
            &&& forall|i: int|
                4 < i < last ==> !((#[trigger] moves[i]).call is PivotRoot) && !(
                moves[i].call is DetachMount) && !(moves[i].call is Unmount)
        }),
{
    let moves = mount_namespace_moves(new_root);
    mount_namespace_in_detail(new_root);
    let pivot = pivot_moves(new_root);
    assert forall|i: int| 0 <= i < 5 implies #[trigger] pivot[i] == moves[i] by {
        assert(moves.subrange(0, 5)[i] == moves[i]);
    }
    assert(pivot[0] == moves[0] && pivot[1] == moves[1] && pivot[2] == moves[2] && pivot[3]
        == moves[3] && pivot[4] == moves[4]);
    two_flags_as_a_set(MountFlag::Private, MountFlag::Recursive);
    two_flags_as_a_set(MountFlag::Bind, MountFlag::Recursive);
    assert forall|i: int| 4 < i < 33 implies !((#[trigger] moves[i]).call is PivotRoot) && !(
    moves[i].call is DetachMount) && !(moves[i].call is Unmount) by {
        if i < 7 {
            assert(moves.subrange(5, 7)[i - 5] == moves[i]);
        } else if i < 9 {
            assert(moves.subrange(7, 9)[i - 7] == moves[i]);
        } else if i < 11 || 29 <= i {
            assert(moves.subrange(9, 33)[i - 9] == moves[i]);
        } else {
            assert(moves.subrange(11, 29)[i - 11] == moves[i]);
            no_roots_among_the_nodes(i - 11);
        }
    }
}

proof fn no_roots_among_the_nodes(i: int)
    requires
        0 <= i < 18,
    ensures
        ({
            let call = dev_node_moves()[i].call;
            call is RemoveFile || call is MakeCharDevice || call is Symlink
        }),
{
    let nodes = dev_node_moves();
    assert(nodes[0].call is RemoveFile && nodes[2].call is RemoveFile && nodes[4].call is RemoveFile
        && nodes[6].call is RemoveFile && nodes[8].call is RemoveFile
        && nodes[10].call is RemoveFile);
    assert(nodes[1].call is MakeCharDevice && nodes[3].call is MakeCharDevice
        && nodes[5].call is MakeCharDevice && nodes[7].call is MakeCharDevice
        && nodes[9].call is MakeCharDevice && nodes[11].call is MakeCharDevice);
    assert(nodes[12].call is Symlink && nodes[13].call is Symlink && nodes[14].call is Symlink
        && nodes[15].call is Symlink && nodes[16].call is RemoveFile
        && nodes[17].call is MakeCharDevice);
}

proof fn two_flags_as_a_set(a: MountFlag, b: MountFlag)
    ensures
        seq![a, b].to_set() == set![a, b],
{
    let list = seq![a, b];
    assert(list[0] == a && list[1] == b);
    assert(list.to_set() =~= set![a, b]);
}

proof fn three_flags_as_a_set(a: MountFlag, b: MountFlag, c: MountFlag)
    ensures
        seq![a, b, c].to_set() == set![a, b, c],
{
    let list = seq![a, b, c];
    assert(list[0] == a && list[1] == b && list[2] == c);
    assert(list.to_set() =~= set![a, b, c]);
}

/// A container has the essential filesystems, mounted where they belong after its root has
/// become its own: the process filesystem, a system filesystem that cannot be written to,
/// and filesystems for devices, terminals and shared memory. No others are mounted, and
/// none of them honours set-user-id bits. The standard streams are links to the
/// descriptors of a process.
pub proof fn container_has_the_essential_filesystems(new_root: Seq<char>)
    ensures
        ({
            let moves = mount_namespace_moves(new_root);
            let safe = set![MountFlag::NoSuid, MountFlag::NoExec, MountFlag::NoDev];
            &&& mounts_at(moves, 6, "proc"@, "/proc"@, safe)
            &&& moves[6].rule is Report
            &&& mounts_at(moves, 8, "sysfs"@, "/sys"@, safe.insert(MountFlag::ReadOnly))
            &&& moves[8].rule is Report
            &&& mounts_at(
                moves,
                10,
                "tmpfs"@,
                "/dev"@,
                set![MountFlag::NoSuid, MountFlag::StrictAtime],
            )
            &&& moves[10].rule is Report
            &&& mounts_at(
                moves,
                30,
                "devpts"@,
                "/dev/pts"@,
                set![MountFlag::NoSuid, MountFlag::NoExec],
            )
            &&& mounts_at(moves, 32, "tmpfs"@, "/dev/shm"@, safe)
            &&& forall|i: int|
                4 < i < moves.len() && (#[trigger] moves[i]).call is Mount ==> i == 6 || i == 8
                    || i == 10 || i == 30 || i == 32
            &&& moves[30].call->Mount_data == Some("newinstance,ptmxmode=0666,mode=0620"@)
            &&& moves[32].call->Mount_data == Some("mode=1777,size=65536k"@)
            &&& moves[10].call->Mount_data == Some("mode=755,size=65536k"@)
            &&& performs(
                moves,
                HostCall::Symlink { target: "/proc/self/fd"@, link: "/dev/fd"@ },
            )
            &&& performs(
                moves,
                HostCall::Symlink { target: "/proc/self/fd/0"@, link: "/dev/stdin"@ },
            )
            &&& performs(
                moves,
                HostCall::Symlink { target: "/proc/self/fd/1"@, link: "/dev/stdout"@ },
            )
            &&& performs(
                moves,
                HostCall::Symlink { target: "/proc/self/fd/2"@, link: "/dev/stderr"@ },
            )
        }),
{
    let moves = mount_namespace_moves(new_root);
    mount_namespace_in_detail(new_root);
    three_flags_as_a_set(MountFlag::NoSuid, MountFlag::NoExec, MountFlag::NoDev);
    two_flags_as_a_set(MountFlag::NoSuid, MountFlag::StrictAtime);
    two_flags_as_a_set(MountFlag::NoSuid, MountFlag::NoExec);
    let safe = set![MountFlag::NoSuid, MountFlag::NoExec, MountFlag::NoDev];
    let four = seq![
        MountFlag::NoSuid,
        MountFlag::NoExec,
        MountFlag::NoDev,
        MountFlag::ReadOnly,
    ];
    assert(four[0] == MountFlag::NoSuid && four[1] == MountFlag::NoExec && four[2]
        == MountFlag::NoDev && four[3] == MountFlag::ReadOnly);
    assert(four.to_set() =~= safe.insert(MountFlag::ReadOnly));
    assert(moves.subrange(5, 7)[1] == moves[6]);
    assert(moves.subrange(7, 9)[1] == moves[8]);
    assert(moves.subrange(9, 33)[1] == moves[10]);
    assert(dev_moves()[21] == moves.subrange(9, 33)[21] && moves.subrange(9, 33)[21] == moves[30]);
    assert(dev_moves()[23] == moves.subrange(9, 33)[23] && moves.subrange(9, 33)[23] == moves[32]);
    let nodes = dev_node_moves();
    assert(nodes[12] == moves.subrange(11, 29)[12] && moves.subrange(11, 29)[12] == moves[23]);
    assert(nodes[13] == moves.subrange(11, 29)[13] && moves.subrange(11, 29)[13] == moves[24]);
    assert(nodes[14] == moves.subrange(11, 29)[14] && moves.subrange(11, 29)[14] == moves[25]);
    assert(nodes[15] == moves.subrange(11, 29)[15] && moves.subrange(11, 29)[15] == moves[26]);
    assert forall|i: int| 4 < i < moves.len() && (#[trigger] moves[i]).call is Mount implies i == 6
        || i == 8 || i == 10 || i == 30 || i == 32 by {
        if i < 7 {
            assert(moves.subrange(5, 7)[i - 5] == moves[i]);
        } else if i < 9 {
            assert(moves.subrange(7, 9)[i - 7] == moves[i]);
        } else if i < 11 || 29 <= i < 33 {
            assert(moves.subrange(9, 33)[i - 9] == moves[i]);
        } else if i < 29 {
            assert(moves.subrange(11, 29)[i - 11] == moves[i]);
            no_roots_among_the_nodes(i - 11);
        }
    }
}

/// A bind mount makes the source visible at the target, which it creates first: as a
/// directory when the source is one, as an empty file otherwise. The mount is read-only in
/// the end exactly when that was asked for: then, and only then, the target is mounted
/// again with the read-only flag.
pub proof fn bind_mount_shows_the_source_at_the_target(
    source: Seq<char>,
    target: Seq<char>,
    readonly: bool,
    source_is_dir: bool,
)
    ensures
        ({
            let moves = bind_moves(source, target, readonly, source_is_dir);
            let last = moves.len() - 1;
            let bind = if readonly {
                last - 1
            } else {
                last
            };
            &&& bind >= 1
            &&& moves[bind].call is Mount
            &&& moves[bind].rule is Report
            &&& moves[bind].call->Mount_source == Some(source)
            &&& moves[bind].call->Mount_target == target
            &&& moves[bind].call->Mount_flags.contains(MountFlag::Bind)
            &&& !moves[bind].call->Mount_flags.contains(MountFlag::Remount)
            &&& moves[bind - 1].call == if source_is_dir {
                HostCall::CreateDirAll(target)
            } else {
                HostCall::WriteFile { path: target, contents: ""@ }
            }
            &&& forall|i: int| 0 <= i < bind ==> !((#[trigger] moves[i]).call is Mount)
            &&& readonly ==> {
                &&& moves[last].call is Mount
                &&& moves[last].rule is Report
                &&& moves[last].call->Mount_target == target
                &&& moves[last].call->Mount_flags.to_set() == set![
                    MountFlag::Bind,
                    MountFlag::ReadOnly,
                    MountFlag::Remount,
                ]
            }
            &&& !readonly ==> moves[bind].call->Mount_flags == seq![MountFlag::Bind]
        }),
{
    let moves = bind_moves(source, target, readonly, source_is_dir);
    three_flags_as_a_set(MountFlag::Bind, MountFlag::ReadOnly, MountFlag::Remount);
    let one = seq![MountFlag::Bind];
    let two = seq![MountFlag::Bind, MountFlag::ReadOnly];
    assert(one[0] == MountFlag::Bind && two[0] == MountFlag::Bind);
    assert(!one.contains(MountFlag::Remount) && !two.contains(MountFlag::Remount));
}

/// Whether a failure of a move is reported, if it is, in the category that the move belongs
/// to: mounts are one, files and directories another.
pub open spec fn is_categorised(step: Move) -> bool {
    step.rule matches Rule::Report(category, _) ==> category == match step.call {
        HostCall::Mount { .. } => Category::Mount,
        HostCall::PivotRoot { .. } => Category::Mount,
        HostCall::DetachMount(_) => Category::Mount,
        HostCall::Unmount(_) => Category::Mount,
        _ => Category::Filesystem,
    }
}

/// What fails in the setup of the mount namespace is reported as a failure of a mount or of
/// the filesystem, according to what it is.
pub proof fn mount_failures_are_categorised(new_root: Seq<char>)
    ensures
        forall|i: int|
            0 <= i < mount_namespace_moves(new_root).len() ==> is_categorised(
                #[trigger] mount_namespace_moves(new_root)[i],
            ),
{
    let moves = mount_namespace_moves(new_root);
    mount_namespace_in_detail(new_root);
    let nodes = dev_node_moves();
    assert(is_categorised(nodes[0]) && is_categorised(nodes[1]) && is_categorised(nodes[2])
        && is_categorised(nodes[3]) && is_categorised(nodes[4]) && is_categorised(nodes[5]));
    assert(is_categorised(nodes[6]) && is_categorised(nodes[7]) && is_categorised(nodes[8])
        && is_categorised(nodes[9]) && is_categorised(nodes[10]) && is_categorised(nodes[11]));
    assert(is_categorised(nodes[12]) && is_categorised(nodes[13]) && is_categorised(nodes[14])
        && is_categorised(nodes[15]) && is_categorised(nodes[16]) && is_categorised(nodes[17]));
    assert forall|i: int| 0 <= i < moves.len() implies is_categorised(#[trigger] moves[i]) by {
        if i < 5 {
            assert(moves.subrange(0, 5)[i] == moves[i]);
        } else if i < 7 {
            assert(moves.subrange(5, 7)[i - 5] == moves[i]);
        } else if i < 9 {
            assert(moves.subrange(7, 9)[i - 7] == moves[i]);
        } else if 11 <= i < 29 {
            assert(moves.subrange(11, 29)[i - 11] == moves[i]);
        } else if i < 33 {
            assert(moves.subrange(9, 33)[i - 9] == moves[i]);
        }
    }
}

/// The target of a bind mount is created before: a directory for a directory, and for a
/// file an empty file in a directory that is created too. A failure of that is the host's
/// own error.
pub proof fn bind_target_is_created(
    source: Seq<char>,
    target: Seq<char>,
    readonly: bool,
    source_is_dir: bool,
)
    ensures
        ({
            let moves = bind_moves(source, target, readonly, source_is_dir);
            &&& source_is_dir ==> moves[0].call == HostCall::CreateDirAll(target)
            &&& !source_is_dir && parent(target) is Some ==> moves[0].call
                == HostCall::CreateDirAll(parent(target)->Some_0) && moves[1].call
                == (HostCall::WriteFile { path: target, contents: ""@ })
            &&& !source_is_dir && parent(target) is None ==> moves[0].call == (
            HostCall::WriteFile { path: target, contents: ""@ })
            &&& forall|i: int|
                0 <= i < moves.len() ==> if (#[trigger] moves[i]).call is Mount {
                    moves[i].rule is Report && is_categorised(moves[i])
                } else {
                    moves[i].rule is Rethrow
                }
        }),
{
}

} // verus!
