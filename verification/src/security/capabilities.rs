//! Linux capabilities: the default set and the drops that leave it.

use vstd::prelude::*;
use vstd::string::*;

use crate::error::{fails_with, ContainerError, Failure};
use crate::host::{reporting, Category, HostCall, HostOp, Move, Plan};
use crate::util::is_linux;

verus! {

/// A set of capabilities of a process.
#[derive(Debug, Clone, Copy, PartialEq, Eq, Hash, Structural)]
pub enum CapSet {
    Effective,
    Permitted,
    Inheritable,
}

/// A Linux capability, in the order of the kernel's numbering.
#[allow(non_camel_case_types)]
#[derive(Debug, Clone, Copy, PartialEq, Eq, Hash, Structural)]
pub enum Capability {
    CAP_CHOWN,
    CAP_DAC_OVERRIDE,
    CAP_DAC_READ_SEARCH,
    CAP_FOWNER,
    CAP_FSETID,
    CAP_KILL,
    CAP_SETGID,
    CAP_SETUID,
    CAP_SETPCAP,
    CAP_LINUX_IMMUTABLE,
    CAP_NET_BIND_SERVICE,
    CAP_NET_BROADCAST,
    CAP_NET_ADMIN,
    CAP_NET_RAW,
    CAP_IPC_LOCK,
    CAP_IPC_OWNER,
    CAP_SYS_MODULE,
    CAP_SYS_RAWIO,
    CAP_SYS_CHROOT,
    CAP_SYS_PTRACE,
    CAP_SYS_PACCT,
    CAP_SYS_ADMIN,
    CAP_SYS_BOOT,
    CAP_SYS_NICE,
    CAP_SYS_RESOURCE,
    CAP_SYS_TIME,
    CAP_SYS_TTY_CONFIG,
    CAP_MKNOD,
    CAP_LEASE,
    CAP_AUDIT_WRITE,
    CAP_AUDIT_CONTROL,
    CAP_SETFCAP,
    CAP_MAC_OVERRIDE,
    CAP_MAC_ADMIN,
    CAP_SYSLOG,
    CAP_WAKE_ALARM,
    CAP_BLOCK_SUSPEND,
    CAP_AUDIT_READ,
    CAP_PERFMON,
    CAP_BPF,
    CAP_CHECKPOINT_RESTORE,
}

/// The capabilities that a container keeps by default: a minimal set that serves
/// most workloads.
pub const DEFAULT_CAPABILITIES: [Capability; 14] = [
    Capability::CAP_CHOWN,
    Capability::CAP_DAC_OVERRIDE,
    Capability::CAP_FSETID,
    Capability::CAP_FOWNER,
    Capability::CAP_MKNOD,
    Capability::CAP_NET_RAW,
    Capability::CAP_SETGID,
    Capability::CAP_SETUID,
    Capability::CAP_SETFCAP,
    Capability::CAP_SETPCAP,
    Capability::CAP_NET_BIND_SERVICE,
    Capability::CAP_SYS_CHROOT,
    Capability::CAP_KILL,
    Capability::CAP_AUDIT_WRITE,
];

/// Every capability, in the order of the kernel's numbering.
pub open spec fn kernel_order() -> Seq<Capability> {
    seq![
        Capability::CAP_CHOWN,
        Capability::CAP_DAC_OVERRIDE,
        Capability::CAP_DAC_READ_SEARCH,
        Capability::CAP_FOWNER,
        Capability::CAP_FSETID,
        Capability::CAP_KILL,
        Capability::CAP_SETGID,
        Capability::CAP_SETUID,
        Capability::CAP_SETPCAP,
        Capability::CAP_LINUX_IMMUTABLE,
        Capability::CAP_NET_BIND_SERVICE,
        Capability::CAP_NET_BROADCAST,
        Capability::CAP_NET_ADMIN,
        Capability::CAP_NET_RAW,
        Capability::CAP_IPC_LOCK,
        Capability::CAP_IPC_OWNER,
        Capability::CAP_SYS_MODULE,
        Capability::CAP_SYS_RAWIO,
        Capability::CAP_SYS_CHROOT,
        Capability::CAP_SYS_PTRACE,
        Capability::CAP_SYS_PACCT,
        Capability::CAP_SYS_ADMIN,
        Capability::CAP_SYS_BOOT,
        Capability::CAP_SYS_NICE,
        Capability::CAP_SYS_RESOURCE,
        Capability::CAP_SYS_TIME,
        Capability::CAP_SYS_TTY_CONFIG,
        Capability::CAP_MKNOD,
        Capability::CAP_LEASE,
        Capability::CAP_AUDIT_WRITE,
        Capability::CAP_AUDIT_CONTROL,
        Capability::CAP_SETFCAP,
        Capability::CAP_MAC_OVERRIDE,
        Capability::CAP_MAC_ADMIN,
        Capability::CAP_SYSLOG,
        Capability::CAP_WAKE_ALARM,
        Capability::CAP_BLOCK_SUSPEND,
        Capability::CAP_AUDIT_READ,
        Capability::CAP_PERFMON,
        Capability::CAP_BPF,
        Capability::CAP_CHECKPOINT_RESTORE,
    ]
}

/// The name of a capability.
pub open spec fn capability_name(capability: Capability) -> Seq<char> {
    match capability {
        Capability::CAP_CHOWN => "CAP_CHOWN"@,
        Capability::CAP_DAC_OVERRIDE => "CAP_DAC_OVERRIDE"@,
        Capability::CAP_DAC_READ_SEARCH => "CAP_DAC_READ_SEARCH"@,
        Capability::CAP_FOWNER => "CAP_FOWNER"@,
        Capability::CAP_FSETID => "CAP_FSETID"@,
        Capability::CAP_KILL => "CAP_KILL"@,
        Capability::CAP_SETGID => "CAP_SETGID"@,
        Capability::CAP_SETUID => "CAP_SETUID"@,
        Capability::CAP_SETPCAP => "CAP_SETPCAP"@,
        Capability::CAP_LINUX_IMMUTABLE => "CAP_LINUX_IMMUTABLE"@,
        Capability::CAP_NET_BIND_SERVICE => "CAP_NET_BIND_SERVICE"@,
        Capability::CAP_NET_BROADCAST => "CAP_NET_BROADCAST"@,
        Capability::CAP_NET_ADMIN => "CAP_NET_ADMIN"@,
        Capability::CAP_NET_RAW => "CAP_NET_RAW"@,
        Capability::CAP_IPC_LOCK => "CAP_IPC_LOCK"@,
        Capability::CAP_IPC_OWNER => "CAP_IPC_OWNER"@,
        Capability::CAP_SYS_MODULE => "CAP_SYS_MODULE"@,
        Capability::CAP_SYS_RAWIO => "CAP_SYS_RAWIO"@,
        Capability::CAP_SYS_CHROOT => "CAP_SYS_CHROOT"@,
        Capability::CAP_SYS_PTRACE => "CAP_SYS_PTRACE"@,
        Capability::CAP_SYS_PACCT => "CAP_SYS_PACCT"@,
        Capability::CAP_SYS_ADMIN => "CAP_SYS_ADMIN"@,
        Capability::CAP_SYS_BOOT => "CAP_SYS_BOOT"@,
        Capability::CAP_SYS_NICE => "CAP_SYS_NICE"@,
        Capability::CAP_SYS_RESOURCE => "CAP_SYS_RESOURCE"@,
        Capability::CAP_SYS_TIME => "CAP_SYS_TIME"@,
        Capability::CAP_SYS_TTY_CONFIG => "CAP_SYS_TTY_CONFIG"@,
        Capability::CAP_MKNOD => "CAP_MKNOD"@,
        Capability::CAP_LEASE => "CAP_LEASE"@,
        Capability::CAP_AUDIT_WRITE => "CAP_AUDIT_WRITE"@,
        Capability::CAP_AUDIT_CONTROL => "CAP_AUDIT_CONTROL"@,
        Capability::CAP_SETFCAP => "CAP_SETFCAP"@,
        Capability::CAP_MAC_OVERRIDE => "CAP_MAC_OVERRIDE"@,
        Capability::CAP_MAC_ADMIN => "CAP_MAC_ADMIN"@,
        Capability::CAP_SYSLOG => "CAP_SYSLOG"@,
        Capability::CAP_WAKE_ALARM => "CAP_WAKE_ALARM"@,
        Capability::CAP_BLOCK_SUSPEND => "CAP_BLOCK_SUSPEND"@,
        Capability::CAP_AUDIT_READ => "CAP_AUDIT_READ"@,
        Capability::CAP_PERFMON => "CAP_PERFMON"@,
        Capability::CAP_BPF => "CAP_BPF"@,
        Capability::CAP_CHECKPOINT_RESTORE => "CAP_CHECKPOINT_RESTORE"@,
    }
}

/// The name of a capability set.
pub open spec fn set_name(set: CapSet) -> Seq<char> {
    match set {
        CapSet::Effective => "Effective"@,
        CapSet::Permitted => "Permitted"@,
        CapSet::Inheritable => "Inheritable"@,
    }
}

impl Capability {
    /// The name of this capability.
    pub fn name(&self) -> (r: &'static str)
        ensures
            r@ == capability_name(*self),
    {
        match self {
            Capability::CAP_CHOWN => "CAP_CHOWN",
            Capability::CAP_DAC_OVERRIDE => "CAP_DAC_OVERRIDE",
            Capability::CAP_DAC_READ_SEARCH => "CAP_DAC_READ_SEARCH",
            Capability::CAP_FOWNER => "CAP_FOWNER",
            Capability::CAP_FSETID => "CAP_FSETID",
            Capability::CAP_KILL => "CAP_KILL",
            Capability::CAP_SETGID => "CAP_SETGID",
            Capability::CAP_SETUID => "CAP_SETUID",
            Capability::CAP_SETPCAP => "CAP_SETPCAP",
            Capability::CAP_LINUX_IMMUTABLE => "CAP_LINUX_IMMUTABLE",
            Capability::CAP_NET_BIND_SERVICE => "CAP_NET_BIND_SERVICE",
            Capability::CAP_NET_BROADCAST => "CAP_NET_BROADCAST",
            Capability::CAP_NET_ADMIN => "CAP_NET_ADMIN",
            Capability::CAP_NET_RAW => "CAP_NET_RAW",
            Capability::CAP_IPC_LOCK => "CAP_IPC_LOCK",
            Capability::CAP_IPC_OWNER => "CAP_IPC_OWNER",
            Capability::CAP_SYS_MODULE => "CAP_SYS_MODULE",
            Capability::CAP_SYS_RAWIO => "CAP_SYS_RAWIO",
            Capability::CAP_SYS_CHROOT => "CAP_SYS_CHROOT",
            Capability::CAP_SYS_PTRACE => "CAP_SYS_PTRACE",
            Capability::CAP_SYS_PACCT => "CAP_SYS_PACCT",
            Capability::CAP_SYS_ADMIN => "CAP_SYS_ADMIN",
            Capability::CAP_SYS_BOOT => "CAP_SYS_BOOT",
            Capability::CAP_SYS_NICE => "CAP_SYS_NICE",
            Capability::CAP_SYS_RESOURCE => "CAP_SYS_RESOURCE",
            Capability::CAP_SYS_TIME => "CAP_SYS_TIME",
            Capability::CAP_SYS_TTY_CONFIG => "CAP_SYS_TTY_CONFIG",
            Capability::CAP_MKNOD => "CAP_MKNOD",
            Capability::CAP_LEASE => "CAP_LEASE",
            Capability::CAP_AUDIT_WRITE => "CAP_AUDIT_WRITE",
            Capability::CAP_AUDIT_CONTROL => "CAP_AUDIT_CONTROL",
            Capability::CAP_SETFCAP => "CAP_SETFCAP",
            Capability::CAP_MAC_OVERRIDE => "CAP_MAC_OVERRIDE",
            Capability::CAP_MAC_ADMIN => "CAP_MAC_ADMIN",
            Capability::CAP_SYSLOG => "CAP_SYSLOG",
            Capability::CAP_WAKE_ALARM => "CAP_WAKE_ALARM",
            Capability::CAP_BLOCK_SUSPEND => "CAP_BLOCK_SUSPEND",
            Capability::CAP_AUDIT_READ => "CAP_AUDIT_READ",
            Capability::CAP_PERFMON => "CAP_PERFMON",
            Capability::CAP_BPF => "CAP_BPF",
            Capability::CAP_CHECKPOINT_RESTORE => "CAP_CHECKPOINT_RESTORE",
        }
    }

    /// Every capability, in the order of the kernel's numbering.
    pub fn all() -> (r: Vec<Capability>)
        ensures
            r@ == kernel_order(),
    {
        let r = vec![
            Capability::CAP_CHOWN,
            Capability::CAP_DAC_OVERRIDE,
            Capability::CAP_DAC_READ_SEARCH,
            Capability::CAP_FOWNER,
            Capability::CAP_FSETID,
            Capability::CAP_KILL,
            Capability::CAP_SETGID,
            Capability::CAP_SETUID,
            Capability::CAP_SETPCAP,
            Capability::CAP_LINUX_IMMUTABLE,
            Capability::CAP_NET_BIND_SERVICE,
            Capability::CAP_NET_BROADCAST,
            Capability::CAP_NET_ADMIN,
            Capability::CAP_NET_RAW,
            Capability::CAP_IPC_LOCK,
            Capability::CAP_IPC_OWNER,
            Capability::CAP_SYS_MODULE,
            Capability::CAP_SYS_RAWIO,
            Capability::CAP_SYS_CHROOT,
            Capability::CAP_SYS_PTRACE,
            Capability::CAP_SYS_PACCT,
            Capability::CAP_SYS_ADMIN,
            Capability::CAP_SYS_BOOT,
            Capability::CAP_SYS_NICE,
            Capability::CAP_SYS_RESOURCE,
            Capability::CAP_SYS_TIME,
            Capability::CAP_SYS_TTY_CONFIG,
            Capability::CAP_MKNOD,
            Capability::CAP_LEASE,
            Capability::CAP_AUDIT_WRITE,
            Capability::CAP_AUDIT_CONTROL,
            Capability::CAP_SETFCAP,
            Capability::CAP_MAC_OVERRIDE,
            Capability::CAP_MAC_ADMIN,
            Capability::CAP_SYSLOG,
            Capability::CAP_WAKE_ALARM,
            Capability::CAP_BLOCK_SUSPEND,
            Capability::CAP_AUDIT_READ,
            Capability::CAP_PERFMON,
            Capability::CAP_BPF,
            Capability::CAP_CHECKPOINT_RESTORE,
        ];
        assert(r@ =~= kernel_order());
        r
    }
}

impl CapSet {
    /// The name of this set.
    pub fn name(&self) -> (r: &'static str)
        ensures
            r@ == set_name(*self),
    {
        match self {
            CapSet::Effective => "Effective",
            CapSet::Permitted => "Permitted",
            CapSet::Inheritable => "Inheritable",
        }
    }
}

/// Whether a container that is granted `additional` keeps a capability.
pub open spec fn keeps(additional: Seq<Capability>, capability: Capability) -> bool {
    DEFAULT_CAPABILITIES@.contains(capability) || additional.contains(capability)
}

/// The move that drops a capability from one set.
pub open spec fn drop_move(set: CapSet, capability: Capability) -> Move {
    reporting(
        HostCall::DropCapability { set, capability },
        Category::Security,
        "failed to drop capability "@ + capability_name(capability) + " from "@ + set_name(set)
            + ": "@,
    )
}

/// The moves that drop those of `capabilities` that are not kept, each from the
/// effective, the permitted and the inheritable set.
pub open spec fn drop_moves(
    capabilities: Seq<Capability>,
    additional: Seq<Capability>,
) -> Seq<Move>
    decreases capabilities.len(),
{
    if capabilities.len() == 0 {
        Seq::empty()
    } else {
        let before = drop_moves(capabilities.drop_last(), additional);
        let last = capabilities.last();
        if keeps(additional, last) {
            before
        } else {
            before.push(drop_move(CapSet::Effective, last)).push(
                drop_move(CapSet::Permitted, last),
            ).push(drop_move(CapSet::Inheritable, last))
        }
    }
}

fn contains(list: &[Capability], capability: Capability) -> (r: bool)
    ensures
        r == list@.contains(capability),
{
    let mut i: usize = 0;
    while i < list.len()
        invariant
            i <= list@.len(),
            forall|j: int| 0 <= j < i ==> list@[j] != capability,
        decreases list@.len() - i,
    {
        if list[i] == capability {
            assert(list@[i as int] == capability);
            return true;
        }
        i = i + 1;
    }
    false
}

fn drop_step(plan: &mut Plan, set: CapSet, capability: Capability)
    ensures
        final(plan)@ == old(plan)@.push(drop_move(set, capability)),
{
    let mut text = "failed to drop capability ".to_owned();
    text.append(capability.name());
    text.append(" from ");
    text.append(set.name());
    text.append(": ");
    plan.report(HostOp::DropCapability { set, capability }, Category::Security, text.as_str());
}

/// The plan that restricts the current process to the default capabilities and
/// those in `additional`. All others are dropped from the effective, permitted
/// and inheritable sets.
///
/// It is to be performed after the process has been forked and before the
/// container's command is executed. `os` names the target operating system;
/// capabilities are available on Linux only.
pub fn apply_capabilities(additional: &[Capability], os: &str) -> (r: Result<Plan, ContainerError>)
    ensures
        fails_with(
            r,
            if os@ == "linux"@ {
                None
            } else {
                Some(Failure::Security("capability management is only supported on Linux"@))
            },
        ),
        r is Ok ==> r->Ok_0@ == drop_moves(kernel_order(), additional@),
{
    if !is_linux(os) {
        return Err(
            ContainerError::Security("capability management is only supported on Linux".to_owned()),
        );
    }
    let all = Capability::all();
    let mut plan = Plan::new();
    let mut i: usize = 0;
    assert(all@.take(0) =~= Seq::empty());
    while i < all.len()
        invariant
            i <= all@.len(),
            all@ == kernel_order(),
            plan@ == drop_moves(all@.take(i as int), additional@),
        decreases all@.len() - i,
    {
        let capability = all[i];
        assert(all@.take(i + 1).drop_last() =~= all@.take(i as int));
        if !contains(&DEFAULT_CAPABILITIES, capability) && !contains(additional, capability) {
            drop_step(&mut plan, CapSet::Effective, capability);
            drop_step(&mut plan, CapSet::Permitted, capability);
            drop_step(&mut plan, CapSet::Inheritable, capability);
        }
        i = i + 1;
    }
    assert(all@.take(i as int) =~= all@);
    Ok(plan)
}

/// The plan that drops all capabilities but the default ones.
pub fn drop_capabilities(os: &str) -> (r: Result<Plan, ContainerError>)
    ensures
        fails_with(
            r,
            if os@ == "linux"@ {
                None
            } else {
                Some(Failure::Security("capability management is only supported on Linux"@))
            },
        ),
        r is Ok ==> r->Ok_0@ == drop_moves(kernel_order(), Seq::empty()),
{
    let none: [Capability; 0] = [];
    assert(none@ =~= Seq::empty());
    apply_capabilities(&none, os)
}

proof fn drop_moves_hold_the_rest(
    capabilities: Seq<Capability>,
    additional: Seq<Capability>,
    set: CapSet,
    capability: Capability,
)
    ensures
        drop_moves(capabilities, additional).contains(drop_move(set, capability)) <==> (
        capabilities.contains(capability) && !keeps(additional, capability)),
        forall|i: int|
            0 <= i < drop_moves(capabilities, additional).len() ==> (#[trigger] drop_moves(
                capabilities,
                additional,
            )[i]).call is DropCapability,
    decreases capabilities.len(),
{
    if capabilities.len() > 0 {
        let front = capabilities.drop_last();
        let last = capabilities.last();
        drop_moves_hold_the_rest(front, additional, set, capability);
        let before = drop_moves(front, additional);
        let after = drop_moves(capabilities, additional);
        let wanted = drop_move(set, capability);
        assert(capabilities =~= front.push(last));
        assert(capabilities.contains(capability) <==> front.contains(capability) || last
            == capability) by {
            if front.contains(capability) {
                let i = choose|i: int| 0 <= i < front.len() && front[i] == capability;
                assert(capabilities[i] == capability);
            }
            if last == capability {
                assert(capabilities[capabilities.len() - 1] == capability);
            }
        }
        if !keeps(additional, last) {
            let n = before.len() as int;
            assert(after[n] == drop_move(CapSet::Effective, last));
            assert(after[n + 1] == drop_move(CapSet::Permitted, last));
            assert(after[n + 2] == drop_move(CapSet::Inheritable, last));
            if before.contains(wanted) {
                let i = choose|i: int| 0 <= i < before.len() && before[i] == wanted;
                assert(after[i] == wanted);
            }
            if after.contains(wanted) {
                let i = choose|i: int| 0 <= i < after.len() && after[i] == wanted;
                if i < n {
                    assert(before[i] == wanted);
                } else {
                    assert(after[i].call == wanted.call);
                }
            }
        }
    }
}

/// Restricting the capabilities drops a capability from a set exactly when it is
/// neither a default one nor an additional one, and does nothing else.
pub proof fn drops_exactly_what_is_not_kept(
    additional: Seq<Capability>,
    set: CapSet,
    capability: Capability,
)
    ensures
        drop_moves(kernel_order(), additional).contains(drop_move(set, capability)) <==> !keeps(
            additional,
            capability,
        ),
        forall|i: int|
            0 <= i < drop_moves(kernel_order(), additional).len() ==> (#[trigger] drop_moves(
                kernel_order(),
                additional,
            )[i]).call is DropCapability,
{
    drop_moves_hold_the_rest(kernel_order(), additional, set, capability);
    every_capability_is_listed(capability);
}

proof fn every_capability_is_listed(capability: Capability)
    ensures
        kernel_order().contains(capability),
{
    let order = kernel_order();
    match capability {
        Capability::CAP_CHOWN => assert(order[0] == capability),
        Capability::CAP_DAC_OVERRIDE => assert(order[1] == capability),
        Capability::CAP_DAC_READ_SEARCH => assert(order[2] == capability),
        Capability::CAP_FOWNER => assert(order[3] == capability),
        Capability::CAP_FSETID => assert(order[4] == capability),
        Capability::CAP_KILL => assert(order[5] == capability),
        Capability::CAP_SETGID => assert(order[6] == capability),
        Capability::CAP_SETUID => assert(order[7] == capability),
        Capability::CAP_SETPCAP => assert(order[8] == capability),
        Capability::CAP_LINUX_IMMUTABLE => assert(order[9] == capability),
        Capability::CAP_NET_BIND_SERVICE => assert(order[10] == capability),
        Capability::CAP_NET_BROADCAST => assert(order[11] == capability),
        Capability::CAP_NET_ADMIN => assert(order[12] == capability),
        Capability::CAP_NET_RAW => assert(order[13] == capability),
        Capability::CAP_IPC_LOCK => assert(order[14] == capability),
        Capability::CAP_IPC_OWNER => assert(order[15] == capability),
        Capability::CAP_SYS_MODULE => assert(order[16] == capability),
        Capability::CAP_SYS_RAWIO => assert(order[17] == capability),
        Capability::CAP_SYS_CHROOT => assert(order[18] == capability),
        Capability::CAP_SYS_PTRACE => assert(order[19] == capability),
        Capability::CAP_SYS_PACCT => assert(order[20] == capability),
        Capability::CAP_SYS_ADMIN => assert(order[21] == capability),
        Capability::CAP_SYS_BOOT => assert(order[22] == capability),
        Capability::CAP_SYS_NICE => assert(order[23] == capability),
        Capability::CAP_SYS_RESOURCE => assert(order[24] == capability),
        Capability::CAP_SYS_TIME => assert(order[25] == capability),
        Capability::CAP_SYS_TTY_CONFIG => assert(order[26] == capability),
        Capability::CAP_MKNOD => assert(order[27] == capability),
        Capability::CAP_LEASE => assert(order[28] == capability),
        Capability::CAP_AUDIT_WRITE => assert(order[29] == capability),
        Capability::CAP_AUDIT_CONTROL => assert(order[30] == capability),
        Capability::CAP_SETFCAP => assert(order[31] == capability),
        Capability::CAP_MAC_OVERRIDE => assert(order[32] == capability),
        Capability::CAP_MAC_ADMIN => assert(order[33] == capability),
        Capability::CAP_SYSLOG => assert(order[34] == capability),
        Capability::CAP_WAKE_ALARM => assert(order[35] == capability),
        Capability::CAP_BLOCK_SUSPEND => assert(order[36] == capability),
        Capability::CAP_AUDIT_READ => assert(order[37] == capability),
        Capability::CAP_PERFMON => assert(order[38] == capability),
        Capability::CAP_BPF => assert(order[39] == capability),
        Capability::CAP_CHECKPOINT_RESTORE => assert(order[40] == capability),
    }
}

/// Whether a capability is one of those that a container has unless it is given more.
pub open spec fn is_usual(capability: Capability) -> bool {
    match capability {
        Capability::CAP_CHOWN => true,
        Capability::CAP_DAC_OVERRIDE => true,
        Capability::CAP_FSETID => true,
        Capability::CAP_FOWNER => true,
        Capability::CAP_MKNOD => true,
        Capability::CAP_NET_RAW => true,
        Capability::CAP_SETGID => true,
        Capability::CAP_SETUID => true,
        Capability::CAP_SETFCAP => true,
        Capability::CAP_SETPCAP => true,
        Capability::CAP_NET_BIND_SERVICE => true,
        Capability::CAP_SYS_CHROOT => true,
        Capability::CAP_KILL => true,
        Capability::CAP_AUDIT_WRITE => true,
        _ => false,
    }
}

/// Whether some move drops a capability from a set.
pub open spec fn drops(moves: Seq<Move>, set: CapSet, capability: Capability) -> bool {
    exists|i: int|
        0 <= i < moves.len() && (#[trigger] moves[i]).call == HostCall::DropCapability {
            set,
            capability,
        }
}

proof fn default_capabilities_are_usual(capability: Capability)
    ensures
        DEFAULT_CAPABILITIES@.contains(capability) == is_usual(capability),
{
    let list = DEFAULT_CAPABILITIES@;
    assert(list[0] == Capability::CAP_CHOWN);
    assert(list[1] == Capability::CAP_DAC_OVERRIDE);
    assert(list[2] == Capability::CAP_FSETID);
    assert(list[3] == Capability::CAP_FOWNER);
    assert(list[4] == Capability::CAP_MKNOD);
    assert(list[5] == Capability::CAP_NET_RAW);
    assert(list[6] == Capability::CAP_SETGID);
    assert(list[7] == Capability::CAP_SETUID);
    assert(list[8] == Capability::CAP_SETFCAP);
    assert(list[9] == Capability::CAP_SETPCAP);
    assert(list[10] == Capability::CAP_NET_BIND_SERVICE);
    assert(list[11] == Capability::CAP_SYS_CHROOT);
    assert(list[12] == Capability::CAP_KILL);
    assert(list[13] == Capability::CAP_AUDIT_WRITE);
    if list.contains(capability) {
        let i = choose|i: int| 0 <= i < list.len() && list[i] == capability;
        assert(0 <= i < 14);
    }
}

/// A container keeps in every set the usual capabilities and those that it is given on top;
/// every other one is dropped from every set.
pub proof fn container_keeps_the_usual_capabilities(
    additional: Seq<Capability>,
    set: CapSet,
    capability: Capability,
)
    ensures
        drops(drop_moves(kernel_order(), additional), set, capability) == !(is_usual(capability)
            || additional.contains(capability)),
{
    let moves = drop_moves(kernel_order(), additional);
    drops_exactly_what_is_not_kept(additional, set, capability);
    default_capabilities_are_usual(capability);
    if !keeps(additional, capability) {
        let i = choose|i: int| 0 <= i < moves.len() && moves[i] == drop_move(set, capability);
        assert(moves[i].call == HostCall::DropCapability { set, capability });
    } else if drops(moves, set, capability) {
        kept_capability_is_not_dropped(kernel_order(), additional, set, capability);
    }
}

proof fn kept_capability_is_not_dropped(
    capabilities: Seq<Capability>,
    additional: Seq<Capability>,
    set: CapSet,
    capability: Capability,
)
    requires
        keeps(additional, capability),
    ensures
        !drops(drop_moves(capabilities, additional), set, capability),
    decreases capabilities.len(),
{
    if capabilities.len() > 0 {
        let before = drop_moves(capabilities.drop_last(), additional);
        let moves = drop_moves(capabilities, additional);
        kept_capability_is_not_dropped(capabilities.drop_last(), additional, set, capability);
        assert forall|i: int| 0 <= i < moves.len() implies (#[trigger] moves[i]).call
            != (HostCall::DropCapability { set, capability }) by {
            if i < before.len() {
                assert(moves[i] == before[i]);
            }
        }
    }
}

/// A failure to drop a capability is reported.
pub proof fn drops_are_reported(capabilities: Seq<Capability>, additional: Seq<Capability>)
    ensures
        forall|i: int|
            0 <= i < drop_moves(capabilities, additional).len() ==> (#[trigger] drop_moves(
                capabilities,
                additional,
            )[i]).rule is Report,
    decreases capabilities.len(),
{
    if capabilities.len() > 0 {
        let before = drop_moves(capabilities.drop_last(), additional);
        let moves = drop_moves(capabilities, additional);
        drops_are_reported(capabilities.drop_last(), additional);
        assert forall|i: int| 0 <= i < moves.len() implies (#[trigger] moves[i]).rule is Report by {
            if i < before.len() {
                assert(moves[i] == before[i]);
            }
        }
    }
}

} // verus!
