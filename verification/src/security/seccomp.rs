//! The seccomp BPF filter that denies dangerous system calls.
//!
//! The filter works as a denylist: every system call is allowed except those on
//! the list, which fail with `EPERM`.

use vstd::prelude::*;
use vstd::string::*;

use crate::error::{fails_with, ContainerError, Failure};
use crate::host::{reporting, Category, HostCall, HostOp, Move, Plan};
use crate::util::is_linux;

verus! {

/// Load a word of the system call's data: `BPF_LD | BPF_W | BPF_ABS`.
pub const LOAD_WORD: u16 = 0x20;

/// Jump on equality with a constant: `BPF_JMP | BPF_JEQ | BPF_K`.
pub const JUMP_IF_EQUAL: u16 = 0x15;

/// Return a constant: `BPF_RET | BPF_K`.
pub const RETURN: u16 = 0x06;

/// The filter's answer that lets a system call through.
pub const RET_ALLOW: u32 = 0x7fff_0000;

/// The filter's answer that fails a system call with the error number in its
/// low half.
pub const RET_ERRNO: u32 = 0x0005_0000;

/// Where the number of the system call stands in the data that a filter sees.
pub const NUMBER_OFFSET: u32 = 0;

/// The error number for an operation that is not permitted.
pub const EPERM: u32 = 1;

/// One BPF instruction, as the kernel's `sock_filter`.
#[derive(Debug, Clone, Copy, PartialEq, Eq, Structural)]
pub struct SockFilter {
    pub code: u16,
    pub jt: u8,
    pub jf: u8,
    pub k: u32,
}

/// The numbers that the host's kernel gives to the system calls to deny.
#[derive(Debug, Clone, Copy, PartialEq, Eq, Structural)]
pub struct SyscallNumbers {
    pub init_module: u32,
    pub finit_module: u32,
    pub delete_module: u32,
    pub reboot: u32,
    pub kexec_load: u32,
    pub kexec_file_load: u32,
    pub ptrace: u32,
    pub add_key: u32,
    pub request_key: u32,
    pub keyctl: u32,
    pub perf_event_open: u32,
    pub bpf: u32,
    pub userfaultfd: u32,
    pub acct: u32,
    pub settimeofday: u32,
    pub clock_settime: u32,
    pub swapon: u32,
    pub swapoff: u32,
    pub mount: u32,
}

/// What running a filter from instruction `pc` answers for a system call, with
/// `loaded` in the accumulator; `None` when the filter runs off its end or uses
/// an instruction that is not modelled here.
pub open spec fn answer_from(filter: Seq<SockFilter>, pc: int, loaded: u32, number: u32) -> Option<
    u32,
>
    decreases filter.len() - pc,
{
    if pc < 0 || pc >= filter.len() {
        None
    } else {
        let insn = filter[pc];
        if insn.code == LOAD_WORD && insn.k == NUMBER_OFFSET {
            answer_from(filter, pc + 1, number, number)
        } else if insn.code == JUMP_IF_EQUAL {
            let target = pc + 1 + if loaded == insn.k {
                insn.jt as int
            } else {
                insn.jf as int
            };
            if target < filter.len() {
                answer_from(filter, target, loaded, number)
            } else {
                None
            }
        } else if insn.code == RETURN {
            Some(insn.k)
        } else {
            None
        }
    }
}

/// What a filter answers for a system call.
pub open spec fn answer(filter: Seq<SockFilter>, number: u32) -> Option<u32> {
    answer_from(filter, 0, 0, number)
}

/// The instruction of the filter at `pc`, for a list of system calls to deny:
/// the load, one jump for each denied call, the answer that allows and the
/// answer that denies.
pub open spec fn instruction(denied: Seq<u32>, pc: int) -> SockFilter {
    if pc == 0 {
        SockFilter { code: LOAD_WORD, jt: 0, jf: 0, k: NUMBER_OFFSET }
    } else if pc <= denied.len() {
        SockFilter {
            code: JUMP_IF_EQUAL,
            jt: (denied.len() - (pc - 1)) as u8,
            jf: 0,
            k: denied[pc - 1],
        }
    } else if pc == denied.len() + 1 {
        SockFilter { code: RETURN, jt: 0, jf: 0, k: RET_ALLOW }
    } else {
        SockFilter { code: RETURN, jt: 0, jf: 0, k: (RET_ERRNO + EPERM) as u32 }
    }
}

/// The filter that denies the listed system calls.
pub open spec fn filter_for(denied: Seq<u32>) -> Seq<SockFilter> {
    Seq::new(denied.len() + 3, |pc: int| instruction(denied, pc))
}

/// The system calls to deny, in the order in which the filter tests for them.
pub open spec fn denied(numbers: SyscallNumbers) -> Seq<u32> {
    seq![
        numbers.reboot,
        numbers.kexec_load,
        numbers.kexec_file_load,
        numbers.mount,
        numbers.ptrace,
        numbers.add_key,
        numbers.request_key,
        numbers.keyctl,
        numbers.perf_event_open,
        numbers.bpf,
        numbers.userfaultfd,
        numbers.init_module,
        numbers.finit_module,
        numbers.delete_module,
        numbers.acct,
        numbers.settimeofday,
        numbers.clock_settime,
        numbers.swapon,
        numbers.swapoff,
    ]
}

proof fn jumps_reach_the_answer(list: Seq<u32>, pc: int, number: u32)
    requires
        list.len() <= 255,
        1 <= pc <= list.len() + 1,
    ensures
        answer_from(filter_for(list), pc, number, number) == Some(
            if exists|i: int| pc - 1 <= i < list.len() && list[i] == number {
                (RET_ERRNO + EPERM) as u32
            } else {
                RET_ALLOW
            },
        ),
    decreases list.len() + 1 - pc,
{
    let filter = filter_for(list);
    if pc <= list.len() {
        jumps_reach_the_answer(list, pc + 1, number);
        assert(filter[pc] == instruction(list, pc));
        if list[pc - 1] == number {
            let end = list.len() + 2;
            assert(filter[end as int] == instruction(list, end as int));
            assert(answer_from(filter, end as int, number, number) == Some(
                (RET_ERRNO + EPERM) as u32,
            ));
        }
    } else {
        assert(filter[pc] == instruction(list, pc));
    }
}

/// The filter answers `EPERM` for exactly the listed system calls and allows
/// every other one.
pub proof fn filter_denies_exactly_the_list(list: Seq<u32>, number: u32)
    requires
        list.len() <= 255,
    ensures
        answer(filter_for(list), number) == Some(
            if list.contains(number) {
                (RET_ERRNO + EPERM) as u32
            } else {
                RET_ALLOW
            },
        ),
{
    let filter = filter_for(list);
    jumps_reach_the_answer(list, 1, number);
    assert(filter[0] == instruction(list, 0));
}

/// The numbers on x86_64.
pub open spec fn x86_64_numbers() -> SyscallNumbers {
    SyscallNumbers {
        init_module: 175,
        finit_module: 313,
        delete_module: 176,
        reboot: 169,
        kexec_load: 246,
        kexec_file_load: 320,
        ptrace: 101,
        add_key: 248,
        request_key: 249,
        keyctl: 250,
        perf_event_open: 298,
        bpf: 321,
        userfaultfd: 323,
        acct: 163,
        settimeofday: 164,
        clock_settime: 227,
        swapon: 167,
        swapoff: 168,
        mount: 165,
    }
}

/// The numbers on aarch64 and loongarch64.
pub open spec fn aarch64_numbers() -> SyscallNumbers {
    SyscallNumbers {
        init_module: 105,
        finit_module: 273,
        delete_module: 106,
        reboot: 142,
        kexec_load: 104,
        kexec_file_load: 294,
        ptrace: 117,
        add_key: 217,
        request_key: 218,
        keyctl: 219,
        perf_event_open: 241,
        bpf: 280,
        userfaultfd: 282,
        acct: 89,
        settimeofday: 170,
        clock_settime: 112,
        swapon: 224,
        swapoff: 225,
        mount: 40,
    }
}

/// The numbers on 32-bit arm.
pub open spec fn arm_numbers() -> SyscallNumbers {
    SyscallNumbers {
        init_module: 128,
        finit_module: 379,
        delete_module: 129,
        reboot: 88,
        kexec_load: 347,
        kexec_file_load: 401,
        ptrace: 26,
        add_key: 309,
        request_key: 310,
        keyctl: 311,
        perf_event_open: 364,
        bpf: 386,
        userfaultfd: 388,
        acct: 51,
        settimeofday: 79,
        clock_settime: 262,
        swapon: 87,
        swapoff: 115,
        mount: 21,
    }
}

/// The numbers on powerpc and powerpc64.
pub open spec fn powerpc_numbers() -> SyscallNumbers {
    SyscallNumbers {
        init_module: 128,
        finit_module: 353,
        delete_module: 129,
        reboot: 88,
        kexec_load: 268,
        kexec_file_load: 382,
        ptrace: 26,
        add_key: 269,
        request_key: 270,
        keyctl: 271,
        perf_event_open: 319,
        bpf: 361,
        userfaultfd: 364,
        acct: 51,
        settimeofday: 79,
        clock_settime: 245,
        swapon: 87,
        swapoff: 115,
        mount: 21,
    }
}

/// The numbers on s390x.
pub open spec fn s390x_numbers() -> SyscallNumbers {
    SyscallNumbers {
        init_module: 128,
        finit_module: 344,
        delete_module: 129,
        reboot: 88,
        kexec_load: 277,
        kexec_file_load: 381,
        ptrace: 26,
        add_key: 278,
        request_key: 279,
        keyctl: 280,
        perf_event_open: 331,
        bpf: 351,
        userfaultfd: 355,
        acct: 51,
        settimeofday: 79,
        clock_settime: 259,
        swapon: 87,
        swapoff: 115,
        mount: 21,
    }
}

/// The numbers on x86_64 with 32-bit pointers.
pub open spec fn x32_numbers() -> SyscallNumbers {
    SyscallNumbers {
        init_module: 0x4000_00af,
        finit_module: 0x4000_0139,
        delete_module: 0x4000_00b0,
        reboot: 0x4000_00a9,
        kexec_load: 0x4000_0210,
        kexec_file_load: 0x4000_0140,
        ptrace: 0x4000_0209,
        add_key: 0x4000_00f8,
        request_key: 0x4000_00f9,
        keyctl: 0x4000_00fa,
        perf_event_open: 0x4000_012a,
        bpf: 0x4000_0141,
        userfaultfd: 0x4000_0143,
        acct: 0x4000_00a3,
        settimeofday: 0x4000_00a4,
        clock_settime: 0x4000_00e3,
        swapon: 0x4000_00a7,
        swapoff: 0x4000_00a8,
        mount: 0x4000_00a5,
    }
}

/// Whether these are the numbers on one of the architectures whose kernels have all of
/// the system calls.
pub open spec fn known_numbers(numbers: SyscallNumbers) -> bool {
    ||| numbers == x86_64_numbers()
    ||| numbers == x32_numbers()
    ||| numbers == aarch64_numbers()
    ||| numbers == arm_numbers()
    ||| numbers == powerpc_numbers()
    ||| numbers == s390x_numbers()
}

/// On every architecture the system calls to deny have different numbers.
pub proof fn denied_numbers_differ(numbers: SyscallNumbers)
    requires
        known_numbers(numbers),
    ensures
        denied(numbers).no_duplicates(),
{
}

/// Reads the system call numbers from the `libc` crate's `SYS_` constants. They
/// differ between architectures: they are those of one of the tables that `libc` has for
/// the architectures on which it names all of these calls. Which one it is depends on the
/// machine, and is not claimed.
#[verifier::external_body]
fn host_syscall_numbers() -> (numbers: SyscallNumbers)
    ensures
        known_numbers(numbers),
{
    SyscallNumbers {
        init_module: libc::SYS_init_module as u32, finit_module: libc::SYS_finit_module as u32,
        delete_module: libc::SYS_delete_module as u32, reboot: libc::SYS_reboot as u32,
        kexec_load: libc::SYS_kexec_load as u32, kexec_file_load: libc::SYS_kexec_file_load as u32,
        ptrace: libc::SYS_ptrace as u32, add_key: libc::SYS_add_key as u32,
        request_key: libc::SYS_request_key as u32, keyctl: libc::SYS_keyctl as u32,
        perf_event_open: libc::SYS_perf_event_open as u32, bpf: libc::SYS_bpf as u32,
        userfaultfd: libc::SYS_userfaultfd as u32, acct: libc::SYS_acct as u32,
        settimeofday: libc::SYS_settimeofday as u32, clock_settime: libc::SYS_clock_settime as u32,
        swapon: libc::SYS_swapon as u32, swapoff: libc::SYS_swapoff as u32,
        mount: libc::SYS_mount as u32,
    }
}

/// The system calls to deny, in the order in which the filter tests for them.
pub fn denied_syscalls(numbers: &SyscallNumbers) -> (r: Vec<u32>)
    ensures
        r@ == denied(*numbers),
{
    let r = vec![
        numbers.reboot,
        numbers.kexec_load,
        numbers.kexec_file_load,
        numbers.mount,
        numbers.ptrace,
        numbers.add_key,
        numbers.request_key,
        numbers.keyctl,
        numbers.perf_event_open,
        numbers.bpf,
        numbers.userfaultfd,
        numbers.init_module,
        numbers.finit_module,
        numbers.delete_module,
        numbers.acct,
        numbers.settimeofday,
        numbers.clock_settime,
        numbers.swapon,
        numbers.swapoff,
    ];
    assert(r@ =~= denied(*numbers));
    r
}

/// Build the filter that denies the listed system calls.
///
/// A jump spans at most 255 instructions, so the list holds no more than that.
pub fn build_filter(list: &Vec<u32>) -> (r: Vec<SockFilter>)
    requires
        list@.len() <= 255,
    ensures
        r@ == filter_for(list@),
{
    let count = list.len();
    let mut r: Vec<SockFilter> = Vec::with_capacity(count + 3);
    r.push(SockFilter { code: LOAD_WORD, jt: 0, jf: 0, k: NUMBER_OFFSET });
    let mut i: usize = 0;
    while i < count
        invariant
            count == list@.len() <= 255,
            i <= count,
            r@.len() == i + 1,
            forall|pc: int| 0 <= pc <= i ==> r@[pc] == instruction(list@, pc),
        decreases count - i,
    {
        r.push(SockFilter { code: JUMP_IF_EQUAL, jt: (count - i) as u8, jf: 0, k: list[i] });
        i = i + 1;
    }
    r.push(SockFilter { code: RETURN, jt: 0, jf: 0, k: RET_ALLOW });
    r.push(SockFilter { code: RETURN, jt: 0, jf: 0, k: RET_ERRNO + EPERM });
    assert(r@ =~= filter_for(list@));
    r
}

/// The moves that install a filter on the current process.
pub open spec fn install_moves(filter: Seq<SockFilter>) -> Seq<Move> {
    seq![
        reporting(
            HostCall::SetNoNewPrivs,
            Category::Security,
            "prctl(PR_SET_NO_NEW_PRIVS) failed: "@,
        ),
        reporting(
            HostCall::InstallSeccomp(filter),
            Category::Security,
            "prctl(PR_SET_SECCOMP) failed: "@,
        ),
    ]
}

/// The plan that installs the filter for the given system call numbers.
pub fn seccomp_plan(numbers: &SyscallNumbers) -> (r: Plan)
    ensures
        r@ == install_moves(filter_for(denied(*numbers))),
{
    let filter = build_filter(&denied_syscalls(numbers));
    let mut plan = Plan::new();
    plan.report(HostOp::SetNoNewPrivs, Category::Security, "prctl(PR_SET_NO_NEW_PRIVS) failed: ");
    plan.report(
        HostOp::InstallSeccomp(filter),
        Category::Security,
        "prctl(PR_SET_SECCOMP) failed: ",
    );
    assert(plan@ =~= install_moves(filter_for(denied(*numbers))));
    plan
}

/// The plan that blocks dangerous system calls in the current process.
///
/// It is to be performed after capabilities have been dropped and before the
/// container's command is executed. `os` names the target operating system;
/// filtering is available on Linux only.
pub fn apply_seccomp_filter(os: &str) -> (r: Result<Plan, ContainerError>)
    ensures
        fails_with(
            r,
            if os@ == "linux"@ {
                None
            } else {
                Some(Failure::Security("seccomp filtering is only supported on Linux"@))
            },
        ),
        r is Ok ==> exists|numbers: SyscallNumbers|
            {
                &&& #[trigger] known_numbers(numbers)
                &&& r->Ok_0@ == install_moves(filter_for(denied(numbers)))
            },
{
    if !is_linux(os) {
        return Err(
            ContainerError::Security("seccomp filtering is only supported on Linux".to_owned()),
        );
    }
    let numbers = host_syscall_numbers();
    Ok(seccomp_plan(&numbers))
}

/// Whether a number is that of a system call that a container may not make.
pub open spec fn is_dangerous(numbers: SyscallNumbers, number: u32) -> bool {
    ||| number == numbers.reboot
    ||| number == numbers.kexec_load
    ||| number == numbers.kexec_file_load
    ||| number == numbers.mount
    ||| number == numbers.ptrace
    ||| number == numbers.add_key
    ||| number == numbers.request_key
    ||| number == numbers.keyctl
    ||| number == numbers.perf_event_open
    ||| number == numbers.bpf
    ||| number == numbers.userfaultfd
    ||| number == numbers.init_module
    ||| number == numbers.finit_module
    ||| number == numbers.delete_module
    ||| number == numbers.acct
    ||| number == numbers.settimeofday
    ||| number == numbers.clock_settime
    ||| number == numbers.swapon
    ||| number == numbers.swapoff
}

/// Whatever the numbers of the system calls are, the filter refuses the dangerous ones with
/// the error number 1, `EPERM`, and lets every other one through.
pub proof fn dangerous_calls_are_refused(numbers: SyscallNumbers, number: u32)
    ensures
        answer(filter_for(denied(numbers)), number) == Some(
            if is_dangerous(numbers, number) {
                0x0005_0001u32
            } else {
                0x7fff_0000u32
            },
        ),
{
    let list = denied(numbers);
    filter_denies_exactly_the_list(list, number);
    assert(list[0] == numbers.reboot);
    assert(list[1] == numbers.kexec_load);
    assert(list[2] == numbers.kexec_file_load);
    assert(list[3] == numbers.mount);
    assert(list[4] == numbers.ptrace);
    assert(list[5] == numbers.add_key);
    assert(list[6] == numbers.request_key);
    assert(list[7] == numbers.keyctl);
    assert(list[8] == numbers.perf_event_open);
    assert(list[9] == numbers.bpf);
    assert(list[10] == numbers.userfaultfd);
    assert(list[11] == numbers.init_module);
    assert(list[12] == numbers.finit_module);
    assert(list[13] == numbers.delete_module);
    assert(list[14] == numbers.acct);
    assert(list[15] == numbers.settimeofday);
    assert(list[16] == numbers.clock_settime);
    assert(list[17] == numbers.swapon);
    assert(list[18] == numbers.swapoff);
    if list.contains(number) {
        let i = choose|i: int| 0 <= i < list.len() && list[i] == number;
        assert(0 <= i < 19);
    }
}

/// A filter is written as the kernel reads it: it loads the number of the system call, has
/// one comparison for each call to deny, and ends with the answer that allows and the one
/// that denies, to which every comparison leads that holds.
pub proof fn filter_is_written_as_the_kernel_reads_it(list: Seq<u32>)
    requires
        list.len() <= 255,
    ensures
        ({
            let filter = filter_for(list);
            let n = list.len() as int;
            &&& filter.len() == n + 3
            &&& filter[0] == SockFilter { code: 0x20, jt: 0, jf: 0, k: 0 }
            &&& forall|i: int|
                0 <= i < n ==> {
                    let jump = #[trigger] filter[i + 1];
                    &&& jump.code == 0x15
                    &&& jump.k == list[i]
                    &&& jump.jf == 0
                    &&& i + 2 + jump.jt == n + 2
                }
            &&& filter[n + 1] == SockFilter { code: 0x06, jt: 0, jf: 0, k: 0x7fff_0000 }
            &&& filter[n + 2] == SockFilter { code: 0x06, jt: 0, jf: 0, k: 0x0005_0001 }
        }),
{
}

/// The kernel takes a filter only from a process that gains no privileges any more, so that
/// is asked for first. A failure of either is reported.
pub proof fn filter_follows_the_waiver_of_privileges(filter: Seq<SockFilter>)
    ensures
        install_moves(filter).len() == 2,
        install_moves(filter)[0].call == HostCall::SetNoNewPrivs,
        install_moves(filter)[1].call == HostCall::InstallSeccomp(filter),
        install_moves(filter)[0].rule is Report && install_moves(filter)[1].rule is Report,
{
}

} // verus!
