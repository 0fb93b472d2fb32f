//! Filesystem management for container root filesystems.
//!
//! OverlayFS mounts combine read-only image layers with a writable upper layer, or
//! stack the layers read-only.

use vstd::prelude::*;
use vstd::string::*;

use crate::error::{fails_with, labelled, ContainerError, Failure};
use crate::host::{
    mount_op, reporting, text_of, Category, HostCall, HostOp, MountFlag, Move, Plan, Rule,
};
use crate::path::{enter, entry_path};
use crate::text::{
    copy_list, has_text, join, joined, joined_texts_split_again, occurs_at, pieces, views,
};
use crate::util::is_linux;

verus! {

/// The directories of a container's overlay filesystem.
#[derive(Debug, Clone)]
pub struct OverlayDirs {
    /// Writable upper layer.
    pub upper: String,
    /// Work directory, used by the kernel.
    pub work: String,
    /// Mountpoint where the final filesystem is visible.
    pub merged: String,
}

/// An OverlayFS mount: read-only lower layers, an optional writable upper layer,
/// and the mountpoint. [`OverlayMount::builder`] constructs instances.
#[derive(Debug)]
pub struct OverlayMount {
    mountpoint: String,
    lower_dirs: Vec<String>,
    upper_dir: Option<String>,
    work_dir: Option<String>,
    read_only: bool,
}

/// What an [`OverlayMount`] holds, with texts as characters.
pub struct Overlay {
    pub mountpoint: Seq<char>,
    pub lower: Seq<Seq<char>>,
    pub upper: Option<Seq<char>>,
    pub work: Option<Seq<char>>,
    pub read_only: bool,
}

impl View for OverlayMount {
    type V = Overlay;

    closed spec fn view(&self) -> Overlay {
        Overlay {
            mountpoint: self.mountpoint@,
            lower: views(self.lower_dirs@),
            upper: text_of(self.upper_dir),
            work: text_of(self.work_dir),
            read_only: self.read_only,
        }
    }
}

fn copy_option(text: &Option<String>) -> (r: Option<String>)
    ensures
        text_of(r) == text_of(*text),
        r is Some == text is Some,
{
    match text {
        Some(s) => Some(s.clone()),
        None => None,
    }
}

impl Clone for OverlayMount {
    fn clone(&self) -> (r: OverlayMount)
        ensures
            r@ == self@,
    {
        proof {
            use_type_invariant(self);
        }
        OverlayMount {
            mountpoint: self.mountpoint.clone(),
            lower_dirs: copy_list(&self.lower_dirs),
            upper_dir: copy_option(&self.upper_dir),
            work_dir: copy_option(&self.work_dir),
            read_only: self.read_only,
        }
    }
}

/// The options of an overlay mount.
pub open spec fn overlay_options(overlay: Overlay) -> Seq<char> {
    let lower = "lowerdir="@ + joined(overlay.lower, ":"@);
    if overlay.read_only {
        lower
    } else {
        lower + ",upperdir="@ + overlay.upper->Some_0 + ",workdir="@ + overlay.work->Some_0
    }
}

/// The moves that mount an overlay.
pub open spec fn overlay_moves(overlay: Overlay) -> Seq<Move> {
    seq![
        reporting(
            HostCall::CreateDirAll(overlay.mountpoint),
            Category::Filesystem,
            "failed to create mountpoint "@ + overlay.mountpoint + ": "@,
        ),
        reporting(
            HostCall::Mount {
                source: Some("overlay"@),
                target: overlay.mountpoint,
                fstype: Some("overlay"@),
                flags: if overlay.read_only {
                    seq![MountFlag::ReadOnly]
                } else {
                    seq![]
                },
                data: Some(overlay_options(overlay)),
            },
            Category::Mount,
            "failed to mount overlay at "@ + overlay.mountpoint + ": "@,
        ),
    ]
}

impl OverlayMount {
    /// A read-write mount has an upper and a work directory, and every mount has
    /// a layer.
    #[verifier::type_invariant]
    spec fn complete(&self) -> bool {
        &&& self.lower_dirs@.len() > 0
        &&& !self.read_only ==> self.upper_dir is Some && self.work_dir is Some
    }

    /// A new builder without layers and directories, read-write.
    pub fn builder() -> (r: OverlayMountBuilder)
        ensures
            r@ == empty_draft(),
    {
        OverlayMountBuilder::default()
    }

    /// The options for the overlay mount.
    ///
    /// For read-write mounts: `lowerdir=l1:l2,upperdir=...,workdir=...`
    /// For read-only mounts: `lowerdir=l1:l2`
    pub fn mount_options(&self) -> (r: String)
        ensures
            r@ == overlay_options(self@),
            self@.lower.len() > 0,
            !self@.read_only ==> self@.upper is Some && self@.work is Some,
    {
        proof {
            use_type_invariant(self);
        }
        let mut r = "lowerdir=".to_owned();
        r.append(join(&self.lower_dirs, ":").as_str());
        if !self.read_only {
            if let (Some(upper), Some(work)) = (&self.upper_dir, &self.work_dir) {
                r.append(",upperdir=");
                r.append(upper.as_str());
                r.append(",workdir=");
                r.append(work.as_str());
            }
        }
        r
    }

    /// The plan that performs the overlay mount: it creates the mountpoint and
    /// mounts the layers there. `os` names the target operating system; overlays
    /// are available on Linux only.
    pub fn mount(&self, os: &str) -> (r: Result<Plan, ContainerError>)
        ensures
            fails_with(
                r,
                if os@ == "linux"@ {
                    None
                } else {
                    Some(Failure::Mount("overlayfs is only supported on Linux"@))
                },
            ),
            r is Ok ==> r->Ok_0@ == overlay_moves(self@),
    {
        if !is_linux(os) {
            return Err(ContainerError::Mount("overlayfs is only supported on Linux".to_owned()));
        }
        let target = self.mountpoint.as_str();
        let options = self.mount_options();
        let mut plan = Plan::new();
        let mut text = labelled("failed to create mountpoint ", target);
        text.append(": ");
        plan.report(HostOp::CreateDirAll(target.to_owned()), Category::Filesystem, text.as_str());
        let mut flags: Vec<MountFlag> = Vec::new();
        if self.read_only {
            flags.push(MountFlag::ReadOnly);
            assert(flags@ =~= seq![MountFlag::ReadOnly]);
        }
        let mut text = labelled("failed to mount overlay at ", target);
        text.append(": ");
        plan.report(
            mount_op(Some("overlay"), target, Some("overlay"), flags, Some(options.as_str())),
            Category::Mount,
            text.as_str(),
        );
        Ok(plan)
    }

    /// The plan that unmounts the overlay filesystem.
    pub fn unmount(&self, os: &str) -> (r: Result<Plan, ContainerError>)
        ensures
            fails_with(
                r,
                if os@ == "linux"@ {
                    None
                } else {
                    Some(Failure::Mount("overlayfs is only supported on Linux"@))
                },
            ),
            r is Ok ==> r->Ok_0@ == seq![
                reporting(
                    HostCall::Unmount(self@.mountpoint),
                    Category::Mount,
                    "failed to unmount overlay at "@ + self@.mountpoint + ": "@,
                ),
            ],
    {
        if !is_linux(os) {
            return Err(ContainerError::Mount("overlayfs is only supported on Linux".to_owned()));
        }
        let mut text = labelled("failed to unmount overlay at ", self.mountpoint.as_str());
        text.append(": ");
        let mut plan = Plan::new();
        plan.report(HostOp::Unmount(self.mountpoint.clone()), Category::Mount, text.as_str());
        Ok(plan)
    }
}

/// Builder for [`OverlayMount`].
#[derive(Debug)]
pub struct OverlayMountBuilder {
    mountpoint: Option<String>,
    lower_dirs: Vec<String>,
    upper_dir: Option<String>,
    work_dir: Option<String>,
    read_only: bool,
}

/// What an [`OverlayMountBuilder`] has gathered, with texts as characters.
pub struct Draft {
    pub mountpoint: Option<Seq<char>>,
    pub lower: Seq<Seq<char>>,
    pub upper: Option<Seq<char>>,
    pub work: Option<Seq<char>>,
    pub read_only: bool,
}

/// What a new builder has gathered.
pub open spec fn empty_draft() -> Draft {
    Draft { mountpoint: None, lower: seq![], upper: None, work: None, read_only: false }
}

impl View for OverlayMountBuilder {
    type V = Draft;

    closed spec fn view(&self) -> Draft {
        Draft {
            mountpoint: text_of(self.mountpoint),
            lower: views(self.lower_dirs@),
            upper: text_of(self.upper_dir),
            work: text_of(self.work_dir),
            read_only: self.read_only,
        }
    }
}

impl Default for OverlayMountBuilder {
    fn default() -> (r: OverlayMountBuilder)
        ensures
            r@ == empty_draft(),
    {
        let r = OverlayMountBuilder {
            mountpoint: None,
            lower_dirs: Vec::new(),
            upper_dir: None,
            work_dir: None,
            read_only: false,
        };
        assert(r@.lower =~= seq![]);
        r
    }
}

/// What a draft of an overlay lacks, if anything.
pub open spec fn draft_fault(draft: Draft) -> Option<Seq<char>> {
    if draft.mountpoint is None {
        Some("overlay mount requires a mountpoint"@)
    } else if draft.lower.len() == 0 {
        Some("overlay mount requires at least one lower directory"@)
    } else if !draft.read_only && draft.upper is None {
        Some("read-write overlay mount requires an upper directory"@)
    } else if !draft.read_only && draft.work is None {
        Some("read-write overlay mount requires a work directory"@)
    } else {
        None
    }
}

impl OverlayMountBuilder {
    /// Add a lower (read-only) layer directory.
    ///
    /// Layers are stacked in the order in which they are added.
    pub fn lower_dir(self, path: &str) -> (r: OverlayMountBuilder)
        ensures
            r@ == (Draft { lower: self@.lower.push(path@), ..self@ }),
    {
        let mut lower_dirs = self.lower_dirs;
        let ghost before = views(lower_dirs@);
        lower_dirs.push(path.to_owned());
        assert(views(lower_dirs@) =~= before.push(path@));
        OverlayMountBuilder {
            mountpoint: self.mountpoint,
            lower_dirs,
            upper_dir: self.upper_dir,
            work_dir: self.work_dir,
            read_only: self.read_only,
        }
    }

    /// Set the writable upper directory.
    pub fn upper_dir(self, path: &str) -> (r: OverlayMountBuilder)
        ensures
            r@ == (Draft { upper: Some(path@), ..self@ }),
    {
        OverlayMountBuilder { upper_dir: Some(path.to_owned()), ..self }
    }

    /// Set the overlay work directory.
    pub fn work_dir(self, path: &str) -> (r: OverlayMountBuilder)
        ensures
            r@ == (Draft { work: Some(path@), ..self@ }),
    {
        OverlayMountBuilder { work_dir: Some(path.to_owned()), ..self }
    }

    /// Set the mountpoint.
    pub fn mount_point(self, path: &str) -> (r: OverlayMountBuilder)
        ensures
            r@ == (Draft { mountpoint: Some(path@), ..self@ }),
    {
        OverlayMountBuilder { mountpoint: Some(path.to_owned()), ..self }
    }

    /// Set whether the overlay is mounted read-only. A read-only overlay needs no
    /// upper and no work directory.
    pub fn read_only(self, read_only: bool) -> (r: OverlayMountBuilder)
        ensures
            r@ == (Draft { read_only, ..self@ }),
    {
        OverlayMountBuilder { read_only, ..self }
    }

    /// Validate what was gathered and build the [`OverlayMount`].
    pub fn build(self) -> (r: Result<OverlayMount, ContainerError>)
        ensures
            fails_with(
                r,
                match draft_fault(self@) {
                    Some(text) => Some(Failure::InvalidConfig(text)),
                    None => None,
                },
            ),
            r is Ok ==> r->Ok_0@ == (Overlay {
                mountpoint: self@.mountpoint->Some_0,
                lower: self@.lower,
                upper: self@.upper,
                work: self@.work,
                read_only: self@.read_only,
            }),
    {
        let mountpoint = match self.mountpoint {
            None => {
                return Err(
                    ContainerError::InvalidConfig("overlay mount requires a mountpoint".to_owned()),
                );
            },
            Some(mountpoint) => mountpoint,
        };
        assert(views(self.lower_dirs@).len() == self.lower_dirs@.len());
        if self.lower_dirs.len() == 0 {
            return Err(
                ContainerError::InvalidConfig(
                    "overlay mount requires at least one lower directory".to_owned(),
                ),
            );
        }
        if !self.read_only {
            if self.upper_dir.is_none() {
                return Err(
                    ContainerError::InvalidConfig(
                        "read-write overlay mount requires an upper directory".to_owned(),
                    ),
                );
            }
            if self.work_dir.is_none() {
                return Err(
                    ContainerError::InvalidConfig(
                        "read-write overlay mount requires a work directory".to_owned(),
                    ),
                );
            }
        }
        Ok(
            OverlayMount {
                mountpoint,
                lower_dirs: self.lower_dirs,
                upper_dir: self.upper_dir,
                work_dir: self.work_dir,
                read_only: self.read_only,
            },
        )
    }
}

/// The move that creates a directory of an overlay.
pub open spec fn overlay_dir_move(dir: Seq<char>) -> Move {
    reporting(
        HostCall::CreateDirAll(dir),
        Category::Filesystem,
        "failed to create overlay directory "@ + dir + ": "@,
    )
}

fn create_overlay_dir(plan: &mut Plan, dir: &str)
    ensures
        final(plan)@ == old(plan)@.push(overlay_dir_move(dir@)),
{
    let mut text = labelled("failed to create overlay directory ", dir);
    text.append(": ");
    plan.report(HostOp::CreateDirAll(dir.to_owned()), Category::Filesystem, text.as_str());
}

/// The directories of a container's overlay, which are
/// `base_dir/<container_id>/{upper,work,merged}`, and the plan that creates them.
pub fn prepare_overlay_dirs(container_id: &str, base_dir: &str) -> (r: (OverlayDirs, Plan))
    ensures
        r.0.upper@ == entry_path(entry_path(base_dir@, container_id@), "upper"@),
        r.0.work@ == entry_path(entry_path(base_dir@, container_id@), "work"@),
        r.0.merged@ == entry_path(entry_path(base_dir@, container_id@), "merged"@),
        r.1@ == seq![
            overlay_dir_move(r.0.upper@),
            overlay_dir_move(r.0.work@),
            overlay_dir_move(r.0.merged@),
        ],
{
    let container_dir = enter(base_dir, container_id);
    let dirs = OverlayDirs {
        upper: enter(container_dir.as_str(), "upper"),
        work: enter(container_dir.as_str(), "work"),
        merged: enter(container_dir.as_str(), "merged"),
    };
    let mut plan = Plan::new();
    create_overlay_dir(&mut plan, dirs.upper.as_str());
    create_overlay_dir(&mut plan, dirs.work.as_str());
    create_overlay_dir(&mut plan, dirs.merged.as_str());
    (dirs, plan)
}

/// The overlay is mounted once, at its mountpoint, which is created before. The mount is
/// read-only exactly when the overlay is, and has no other flags.
pub proof fn overlay_is_mounted_at_its_mountpoint(overlay: Overlay)
    ensures
        ({
            let moves = overlay_moves(overlay);
            &&& moves.len() == 2
            &&& forall|i: int| 0 <= i < moves.len() ==> (#[trigger] moves[i]).rule is Report
            &&& moves[0].call == HostCall::CreateDirAll(overlay.mountpoint)
            &&& moves[1].call is Mount
            &&& moves[1].call->Mount_target == overlay.mountpoint
            &&& moves[1].call->Mount_fstype == Some("overlay"@)
            &&& moves[1].call->Mount_flags.contains(MountFlag::ReadOnly) == overlay.read_only
            &&& forall|flag: MountFlag| #[trigger]
                moves[1].call->Mount_flags.contains(flag) ==> flag == MountFlag::ReadOnly
        }),
{
    let one = seq![MountFlag::ReadOnly];
    assert(one[0] == MountFlag::ReadOnly);
}

/// The options of an overlay name its layers, in their order, and the directories that can
/// be written to exactly when it is not read-only: what follows `lowerdir=`, split at the
/// colons, are the layers. Layers with a colon in their names
/// cannot be told apart, and are left out.
pub proof fn options_name_the_directories_of_the_overlay(overlay: Overlay)
    requires
        overlay.lower.len() > 0,
        forall|i: int| 0 <= i < overlay.lower.len() ==> !(#[trigger] overlay.lower[i]).contains(':'),
    ensures
        overlay_moves(overlay)[1].call->Mount_data is Some,
        exists|layers: Seq<char>|
            {
                &&& #[trigger] pieces(layers, ':') == overlay.lower
                &&& overlay_moves(overlay)[1].call->Mount_data->Some_0 == if overlay.read_only {
                    "lowerdir="@ + layers
                } else {
                    "lowerdir="@ + layers + ",upperdir="@ + overlay.upper->Some_0 + ",workdir="@
                        + overlay.work->Some_0
                }
            },
{
    reveal_strlit(":");
    assert(":"@ =~= seq![':']);
    let layers = joined(overlay.lower, ":"@);
    joined_texts_split_again(overlay.lower, ':');
    assert(pieces(layers, ':') == overlay.lower);
}

/// A draft without a mountpoint, without a layer, or, where it is read-write, without an
/// upper or a work directory, is refused, and no other.
pub proof fn complete_drafts_are_accepted(draft: Draft)
    ensures
        (draft_fault(draft) is None) == (draft.mountpoint is Some && draft.lower.len() > 0 && (
        draft.read_only || (draft.upper is Some && draft.work is Some))),
{
}

/// The preparation of an overlay creates its directories, and a failure is reported.
pub proof fn overlay_directories_are_created(dir: Seq<char>)
    ensures
        overlay_dir_move(dir).call == HostCall::CreateDirAll(dir),
        overlay_dir_move(dir).rule is Report,
{
}

/// What fails when an overlay is mounted is reported as a failure of the filesystem or of a
/// mount, and the report names the mountpoint.
pub proof fn overlay_failures_name_the_mountpoint(overlay: Overlay)
    ensures
        ({
            let moves = overlay_moves(overlay);
            &&& moves[0].rule matches Rule::Report(category, text) && category
                == Category::Filesystem && has_text(text, overlay.mountpoint)
            &&& moves[1].rule matches Rule::Report(category, text) && category == Category::Mount
                && has_text(text, overlay.mountpoint)
        }),
{
    let a = "failed to create mountpoint "@;
    let b = "failed to mount overlay at "@;
    let point = overlay.mountpoint;
    let n = point.len() as int;
    let first = a + point + ": "@;
    let second = b + point + ": "@;
    assert(first.subrange(a.len() as int, a.len() + n) =~= point);
    assert(occurs_at(first, point, a.len() as int));
    assert(second.subrange(b.len() as int, b.len() + n) =~= point);
    assert(occurs_at(second, point, b.len() as int));
}

} // verus!
