//! Cgroups v2 management for container resource limiting.
//!
//! Memory, CPU and process limits are written to the control files of a directory
//! in the unified hierarchy under `/sys/fs/cgroup`.

use vstd::prelude::*;
use vstd::string::*;

use crate::error::{fails_with, labelled, ContainerError, Failure};
use crate::host::{reporting, Category, HostCall, HostOp, Move, Plan, Rule};
use crate::path::{
    components, enter, entry_adds_components, entry_path, parent, parent_drops_last_component,
    parent_of, plain_entry_adds_its_name,
};
use crate::text::{
    all_digits, decimal, decimal_stands_for_the_number, decimal_text, number_of, pieces, same_text,
    split, split_words, views, words,
};

verus! {

/// Base path of the cgroup v2 unified hierarchy.
pub const CGROUP_ROOT: &'static str = "/sys/fs/cgroup";

/// Directory under the base path in which this runtime places its cgroups.
pub const CGROUP_RUNTIME_PREFIX: &'static str = "crate";

/// Memory limits of a cgroup.
#[derive(Debug, Clone, Copy)]
pub struct MemoryLimit {
    /// Hard memory limit in bytes, written to `memory.max`.
    pub max_bytes: Option<u64>,
    /// Threshold in bytes above which the kernel throttles and reclaims, written
    /// to `memory.high`.
    pub high_bytes: Option<u64>,
}

impl Default for MemoryLimit {
    fn default() -> (r: MemoryLimit)
        ensures
            r == (MemoryLimit { max_bytes: None, high_bytes: None }),
    {
        MemoryLimit { max_bytes: None, high_bytes: None }
    }
}

/// CPU limit of a cgroup.
#[derive(Debug, Clone, Copy)]
pub struct CpuLimit {
    /// CPU time in microseconds per period.
    pub quota_us: u64,
    /// The period in microseconds.
    pub period_us: u64,
}

impl Default for CpuLimit {
    fn default() -> (r: CpuLimit)
        ensures
            r == (CpuLimit { quota_us: 100_000, period_us: 100_000 }),
    {
        CpuLimit { quota_us: 100_000, period_us: 100_000 }
    }
}

/// Process limit of a cgroup.
#[derive(Debug, Clone, Copy)]
pub struct PidLimit {
    /// Maximum number of processes, written to `pids.max`.
    pub max: Option<u64>,
}

impl Default for PidLimit {
    fn default() -> (r: PidLimit)
        ensures
            r == (PidLimit { max: None }),
    {
        PidLimit { max: None }
    }
}

/// Manages the cgroup v2 directory of a single container.
///
/// The builder methods configure resource limits. [`CgroupManager::apply`] plans
/// the directory and its control files, [`CgroupManager::add_process`] moves a
/// process into the cgroup, and [`CgroupManager::cleanup`] removes it.
#[derive(Debug, Clone)]
pub struct CgroupManager {
    container_id: String,
    cgroup_path: String,
    memory: MemoryLimit,
    cpu: Option<CpuLimit>,
    pids: PidLimit,
}

/// What a [`CgroupManager`] holds: the container, its directory and its limits.
pub struct Cgroup {
    pub container_id: Seq<char>,
    pub path: Seq<char>,
    pub memory: MemoryLimit,
    pub cpu: Option<CpuLimit>,
    pub pids: PidLimit,
}

impl View for CgroupManager {
    type V = Cgroup;

    closed spec fn view(&self) -> Cgroup {
        Cgroup {
            container_id: self.container_id@,
            path: self.cgroup_path@,
            memory: self.memory,
            cpu: self.cpu,
            pids: self.pids,
        }
    }
}

/// The directory of the cgroup of a container.
pub open spec fn cgroup_dir(container_id: Seq<char>) -> Seq<char> {
    entry_path(entry_path(CGROUP_ROOT@, CGROUP_RUNTIME_PREFIX@), container_id)
}

impl CgroupManager {
    /// Create a new manager for the given container id.
    ///
    /// The cgroup directory is `/sys/fs/cgroup/crate/{container_id}`.
    pub fn new(container_id: &str) -> (r: CgroupManager)
        ensures
            r@ == (Cgroup {
                container_id: container_id@,
                path: cgroup_dir(container_id@),
                memory: MemoryLimit { max_bytes: None, high_bytes: None },
                cpu: None,
                pids: PidLimit { max: None },
            }),
    {
        let prefix = enter(CGROUP_ROOT, CGROUP_RUNTIME_PREFIX);
        CgroupManager {
            container_id: container_id.to_owned(),
            cgroup_path: enter(prefix.as_str(), container_id),
            memory: MemoryLimit::default(),
            cpu: None,
            pids: PidLimit::default(),
        }
    }

    /// Set the hard memory limit (`memory.max`) in bytes.
    pub fn with_memory_max(self, bytes: u64) -> (r: CgroupManager)
        ensures
            r@ == (Cgroup {
                memory: MemoryLimit { max_bytes: Some(bytes), ..self@.memory },
                ..self@
            }),
    {
        CgroupManager {
            memory: MemoryLimit { max_bytes: Some(bytes), ..self.memory },
            ..self
        }
    }

    /// Set the high memory threshold (`memory.high`) in bytes.
    pub fn with_memory_high(self, bytes: u64) -> (r: CgroupManager)
        ensures
            r@ == (Cgroup {
                memory: MemoryLimit { high_bytes: Some(bytes), ..self@.memory },
                ..self@
            }),
    {
        CgroupManager {
            memory: MemoryLimit { high_bytes: Some(bytes), ..self.memory },
            ..self
        }
    }

    /// Set the CPU time per period for `cpu.max`, both in microseconds.
    pub fn with_cpu_quota(self, quota_us: u64, period_us: u64) -> (r: CgroupManager)
        ensures
            r@ == (Cgroup { cpu: Some(CpuLimit { quota_us, period_us }), ..self@ }),
    {
        CgroupManager { cpu: Some(CpuLimit { quota_us, period_us }), ..self }
    }

    /// Set the maximum number of processes (`pids.max`).
    pub fn with_pid_max(self, max: u64) -> (r: CgroupManager)
        ensures
            r@ == (Cgroup { pids: PidLimit { max: Some(max) }, ..self@ }),
    {
        CgroupManager { pids: PidLimit { max: Some(max) }, ..self }
    }

    /// The container id.
    pub fn container_id(&self) -> (r: &str)
        ensures
            r@ == self@.container_id,
    {
        self.container_id.as_str()
    }

    /// The path of the cgroup directory.
    pub fn cgroup_path(&self) -> (r: &str)
        ensures
            r@ == self@.path,
    {
        self.cgroup_path.as_str()
    }

    /// The configured memory limits.
    pub fn memory_limit(&self) -> (r: &MemoryLimit)
        ensures
            *r == self@.memory,
    {
        &self.memory
    }

    /// The configured CPU limit, if any.
    pub fn cpu_limit(&self) -> (r: Option<&CpuLimit>)
        ensures
            match r {
                Some(limit) => self@.cpu == Some(*limit),
                None => self@.cpu is None,
            },
    {
        match &self.cpu {
            Some(limit) => Some(limit),
            None => None,
        }
    }

    /// The configured process limit.
    pub fn pid_limit(&self) -> (r: &PidLimit)
        ensures
            *r == self@.pids,
    {
        &self.pids
    }
}

/// A limit as a control file holds it: in decimal, or `max` for no limit.
pub open spec fn limit_text(limit: Option<u64>) -> Seq<char> {
    match limit {
        Some(n) => decimal(n as nat),
        None => "max"@,
    }
}

/// The value to write to `memory.max` or `memory.high`.
pub fn format_memory_value(bytes: Option<u64>) -> (r: String)
    ensures
        r@ == limit_text(bytes),
{
    match bytes {
        Some(n) => decimal_text(n),
        None => "max".to_owned(),
    }
}

/// A CPU limit as `cpu.max` holds it.
pub open spec fn cpu_text(cpu: CpuLimit) -> Seq<char> {
    decimal(cpu.quota_us as nat) + " "@ + decimal(cpu.period_us as nat)
}

/// The value to write to `cpu.max`, e.g. `50000 100000`.
pub fn format_cpu_max(cpu: &CpuLimit) -> (r: String)
    ensures
        r@ == cpu_text(*cpu),
{
    let mut r = decimal_text(cpu.quota_us);
    r.append(" ");
    r.append(decimal_text(cpu.period_us).as_str());
    r
}

/// The value to write to `pids.max`.
pub fn format_pid_max(limit: Option<u64>) -> (r: String)
    ensures
        r@ == limit_text(limit),
{
    match limit {
        Some(n) => decimal_text(n),
        None => "max".to_owned(),
    }
}

/// Whether a line of the mount table mounts a cgroup2 filesystem at the base path.
pub open spec fn mounts_cgroup2(line: Seq<char>) -> bool {
    let fields = words(line);
    fields.len() >= 3 && fields[1] == CGROUP_ROOT@ && fields[2] == "cgroup2"@
}

/// Whether a mount table mounts a cgroup2 filesystem at the base path.
pub open spec fn has_cgroup2(table: Seq<char>) -> bool {
    exists|i: int|
        0 <= i < pieces(table, '\n').len() && mounts_cgroup2(#[trigger] pieces(table, '\n')[i])
}

/// What is wrong with the mount table, if anything. The table is what the host
/// read, or the text of its error.
pub open spec fn cgroup_fault(mounts: Result<Seq<char>, Seq<char>>) -> Option<Failure> {
    match mounts {
        Err(error) => Some(Failure::Cgroup("failed to read /proc/mounts: "@ + error)),
        Ok(table) => if has_cgroup2(table) {
            None
        } else {
            Some(
                Failure::Cgroup(
                    "cgroups v2 is not mounted at /sys/fs/cgroup; this runtime requires the unified hierarchy"@,
                ),
            )
        },
    }
}

/// The characters of what was read, or of the text of the error.
pub open spec fn read_of(read: Result<String, String>) -> Result<Seq<char>, Seq<char>> {
    match read {
        Ok(text) => Ok(text@),
        Err(text) => Err(text@),
    }
}

fn line_mounts_cgroup2(line: &str) -> (r: bool)
    ensures
        r == mounts_cgroup2(line@),
{
    let fields = split_words(line);
    assert(fields@.len() == words(line@).len());
    if fields.len() < 3 {
        return false;
    }
    assert(words(line@)[1] == fields@[1]@);
    assert(words(line@)[2] == fields@[2]@);
    same_text(fields[1].as_str(), CGROUP_ROOT) && same_text(fields[2].as_str(), "cgroup2")
}

/// Verify that `/sys/fs/cgroup` is mounted as a cgroup2 filesystem, given what
/// reading `/proc/mounts` gave.
pub fn verify_cgroup_v2(mounts: &Result<String, String>) -> (r: Result<(), ContainerError>)
    ensures
        fails_with(r, cgroup_fault(read_of(*mounts))),
{
    let table = match mounts {
        Err(error) => {
            return Err(
                ContainerError::Cgroup(labelled("failed to read /proc/mounts: ", error.as_str())),
            );
        },
        Ok(table) => table,
    };
    let lines = split(table.as_str(), '\n');
    let mut i: usize = 0;
    while i < lines.len()
        invariant
            views(lines@) == pieces(table@, '\n'),
            i <= lines@.len(),
            forall|j: int| 0 <= j < i ==> !mounts_cgroup2(#[trigger] pieces(table@, '\n')[j]),
            read_of(*mounts) == Ok::<Seq<char>, Seq<char>>(table@),
        decreases lines@.len() - i,
    {
        assert(pieces(table@, '\n')[i as int] == lines@[i as int]@);
        if line_mounts_cgroup2(lines[i].as_str()) {
            return Ok(());
        }
        i = i + 1;
    }
    assert(lines@.len() == pieces(table@, '\n').len());
    Err(
        ContainerError::Cgroup(
            "cgroups v2 is not mounted at /sys/fs/cgroup; this runtime requires the unified hierarchy".to_owned(),
        ),
    )
}

/// The move that writes a value to a control file of a cgroup.
pub open spec fn control_move(dir: Seq<char>, file: Seq<char>, value: Seq<char>) -> Move {
    let path = entry_path(dir, file);
    reporting(
        HostCall::WriteFile { path, contents: value },
        Category::Cgroup,
        "failed to write '"@ + value + "' to "@ + path + ": "@,
    )
}

fn write_control_file(plan: &mut Plan, dir: &str, file: &str, value: String)
    ensures
        final(plan)@ == old(plan)@.push(control_move(dir@, file@, value@)),
{
    let path = enter(dir, file);
    let mut text = labelled("failed to write '", value.as_str());
    text.append("' to ");
    text.append(path.as_str());
    text.append(": ");
    plan.report(HostOp::WriteFile { path, contents: value }, Category::Cgroup, text.as_str());
}

/// The moves that write the configured limits of a cgroup.
pub open spec fn limit_moves(cgroup: Cgroup) -> Seq<Move> {
    (match cgroup.memory.max_bytes {
        Some(n) => seq![control_move(cgroup.path, "memory.max"@, decimal(n as nat))],
        None => seq![],
    }) + (match cgroup.memory.high_bytes {
        Some(n) => seq![control_move(cgroup.path, "memory.high"@, decimal(n as nat))],
        None => seq![],
    }) + (match cgroup.cpu {
        Some(cpu) => seq![control_move(cgroup.path, "cpu.max"@, cpu_text(cpu))],
        None => seq![],
    }) + (match cgroup.pids.max {
        Some(n) => seq![control_move(cgroup.path, "pids.max"@, decimal(n as nat))],
        None => seq![],
    })
}

/// The moves that create the directory of a cgroup under `prefix`.
pub open spec fn directory_moves(prefix: Seq<char>, path: Seq<char>) -> Seq<Move> {
    seq![
        reporting(
            HostCall::CreateDirAll(prefix),
            Category::Cgroup,
            "failed to create runtime cgroup prefix "@ + prefix + ": "@,
        ),
        reporting(
            HostCall::CreateDirAll(path),
            Category::Cgroup,
            "failed to create cgroup directory "@ + path + ": "@,
        ),
    ]
}

impl CgroupManager {
    /// The plan that creates the cgroup directory and writes each configured limit
    /// to its control file. `mounts` is what reading `/proc/mounts` gave.
    pub fn apply(&self, mounts: &Result<String, String>) -> (r: Result<Plan, ContainerError>)
        ensures
            fails_with(
                r,
                match cgroup_fault(read_of(*mounts)) {
                    Some(fault) => Some(fault),
                    None => if parent(self@.path) is None {
                        Some(Failure::Cgroup("invalid cgroup path"@))
                    } else {
                        None
                    },
                },
            ),
            r is Ok ==> r->Ok_0@ == directory_moves(parent(self@.path)->Some_0, self@.path)
                + limit_moves(self@),
    {
        match verify_cgroup_v2(mounts) {
            Err(error) => return Err(error),
            Ok(()) => {},
        }
        let dir = self.cgroup_path.as_str();
        let prefix = match parent_of(dir) {
            None => return Err(ContainerError::Cgroup("invalid cgroup path".to_owned())),
            Some(prefix) => prefix,
        };
        let mut plan = Plan::new();
        let mut text = labelled("failed to create runtime cgroup prefix ", prefix.as_str());
        text.append(": ");
        plan.report(HostOp::CreateDirAll(prefix), Category::Cgroup, text.as_str());
        let mut text = labelled("failed to create cgroup directory ", dir);
        text.append(": ");
        plan.report(HostOp::CreateDirAll(dir.to_owned()), Category::Cgroup, text.as_str());
        let mut limits = Plan::new();
        if let Some(n) = self.memory.max_bytes {
            write_control_file(&mut limits, dir, "memory.max", format_memory_value(Some(n)));
        }
        if let Some(n) = self.memory.high_bytes {
            write_control_file(&mut limits, dir, "memory.high", format_memory_value(Some(n)));
        }
        if let Some(cpu) = &self.cpu {
            write_control_file(&mut limits, dir, "cpu.max", format_cpu_max(cpu));
        }
        if let Some(n) = self.pids.max {
            write_control_file(&mut limits, dir, "pids.max", format_pid_max(Some(n)));
        }
        assert(limits@ =~= limit_moves(self@));
        plan.extend(limits);
        Ok(plan)
    }

    /// The plan that adds a process to this cgroup by writing its id to
    /// `cgroup.procs`. The cgroup must exist.
    pub fn add_process(&self, pid: u32) -> (r: Plan)
        ensures
            r@ == seq![control_move(self@.path, "cgroup.procs"@, decimal(pid as nat))],
    {
        let mut plan = Plan::new();
        write_control_file(
            &mut plan,
            self.cgroup_path.as_str(),
            "cgroup.procs",
            decimal_text(pid as u64),
        );
        plan
    }

    /// The plan that removes the cgroup directory, given whether it exists. There
    /// must be no process left in the cgroup. Nothing is done when there is no
    /// directory.
    pub fn cleanup(&self, exists: bool) -> (r: Plan)
        ensures
            r@ == (if exists {
                seq![
                    reporting(
                        HostCall::RemoveDir(self@.path),
                        Category::Cgroup,
                        "failed to remove cgroup directory "@ + self@.path
                            + " (are all processes terminated?): "@,
                    ),
                ]
            } else {
                seq![]
            }),
    {
        let mut plan = Plan::new();
        if exists {
            let mut text = labelled(
                "failed to remove cgroup directory ",
                self.cgroup_path.as_str(),
            );
            text.append(" (are all processes terminated?): ");
            plan.report(
                HostOp::RemoveDir(self.cgroup_path.clone()),
                Category::Cgroup,
                text.as_str(),
            );
        }
        plan
    }
}

/// The cgroup directory of a container is `/sys/fs/cgroup/crate/` followed by its id,
/// whatever the id is, and there is a directory that holds it.
pub proof fn cgroup_dir_holds_the_id(container_id: Seq<char>)
    ensures
        cgroup_dir(container_id) == "/sys/fs/cgroup/crate/"@ + container_id,
        parent(cgroup_dir(container_id)) is Some,
{
    reveal_strlit("/sys/fs/cgroup");
    reveal_strlit("crate");
    reveal_strlit("/");
    reveal_strlit("/sys/fs/cgroup/crate/");
    assert(CGROUP_ROOT@ + "/"@ + CGROUP_RUNTIME_PREFIX@ + "/"@ =~= "/sys/fs/cgroup/crate/"@);
    let prefix = entry_path(CGROUP_ROOT@, CGROUP_RUNTIME_PREFIX@);
    assert(prefix == CGROUP_ROOT@ + "/"@ + CGROUP_RUNTIME_PREFIX@);
    assert(prefix.last() == 'e');
    assert(cgroup_dir(container_id) == prefix + "/"@ + container_id);
    entry_adds_components(prefix, container_id);
    plain_entry_adds_its_name(CGROUP_ROOT@, CGROUP_RUNTIME_PREFIX@);
    parent_drops_last_component(cgroup_dir(container_id));
    assert(components(CGROUP_ROOT@).len() > 0);
}

/// Whether the move at `i` writes a value to a file of a directory, and its failure is
/// reported.
pub open spec fn writes_at(
    moves: Seq<Move>,
    i: int,
    dir: Seq<char>,
    file: Seq<char>,
    value: Seq<char>,
) -> bool {
    &&& 0 <= i < moves.len()
    &&& moves[i].call == HostCall::WriteFile { path: entry_path(dir, file), contents: value }
    &&& moves[i].rule is Report
}

/// Whether some move writes a value to a file of a directory.
pub open spec fn writes(
    moves: Seq<Move>,
    dir: Seq<char>,
    file: Seq<char>,
    value: Seq<char>,
) -> bool {
    exists|i: int| writes_at(moves, i, dir, file, value)
}

spec fn one_if(set: bool) -> nat {
    if set {
        1
    } else {
        0
    }
}

/// Each limit that is configured is written to its control file, in decimal, and nothing
/// else is written.
pub proof fn limits_are_written_to_their_control_files(cgroup: Cgroup)
    ensures
        ({
            let moves = limit_moves(cgroup);
            let dir = cgroup.path;
            &&& cgroup.memory.max_bytes matches Some(n) ==> writes(
                moves,
                dir,
                "memory.max"@,
                decimal(n as nat),
            )
            &&& cgroup.memory.high_bytes matches Some(n) ==> writes(
                moves,
                dir,
                "memory.high"@,
                decimal(n as nat),
            )
            &&& cgroup.cpu matches Some(cpu) ==> writes(
                moves,
                dir,
                "cpu.max"@,
                decimal(cpu.quota_us as nat) + " "@ + decimal(cpu.period_us as nat),
            )
            &&& cgroup.pids.max matches Some(n) ==> writes(
                moves,
                dir,
                "pids.max"@,
                decimal(n as nat),
            )
            &&& moves.len() == (if cgroup.memory.max_bytes is Some {
                1int
            } else {
                0
            }) + (if cgroup.memory.high_bytes is Some {
                1int
            } else {
                0
            }) + (if cgroup.cpu is Some {
                1int
            } else {
                0
            }) + (if cgroup.pids.max is Some {
                1int
            } else {
                0
            })
        }),
{
    let moves = limit_moves(cgroup);
    let dir = cgroup.path;
    let a = one_if(cgroup.memory.max_bytes is Some) as int;
    let b = a + one_if(cgroup.memory.high_bytes is Some);
    let c = b + one_if(cgroup.cpu is Some);
    if let Some(n) = cgroup.memory.max_bytes {
        assert(writes_at(moves, 0, dir, "memory.max"@, decimal(n as nat)));
    }
    if let Some(n) = cgroup.memory.high_bytes {
        assert(writes_at(moves, a, dir, "memory.high"@, decimal(n as nat)));
    }
    if let Some(cpu) = cgroup.cpu {
        let value = decimal(cpu.quota_us as nat) + " "@ + decimal(cpu.period_us as nat);
        assert(writes_at(moves, b, dir, "cpu.max"@, value));
    }
    if let Some(n) = cgroup.pids.max {
        assert(writes_at(moves, c, dir, "pids.max"@, decimal(n as nat)));
    }
}

/// The directory of a cgroup is created after the one that holds it.
pub proof fn cgroup_directories_are_created(prefix: Seq<char>, path: Seq<char>)
    ensures
        ({
            let moves = directory_moves(prefix, path);
            &&& moves.len() == 2
            &&& moves[0].call == HostCall::CreateDirAll(prefix)
            &&& moves[1].call == HostCall::CreateDirAll(path)
            &&& moves[0].rule is Report && moves[1].rule is Report
        }),
{
}

/// Cgroups can be used exactly when the mount table could be read and has a line that
/// mounts a filesystem of the type `cgroup2` at `/sys/fs/cgroup`.
pub proof fn unified_hierarchy_is_required(mounts: Result<Seq<char>, Seq<char>>)
    ensures
        (cgroup_fault(mounts) is None) == (mounts is Ok && exists|i: int|
            {
                let lines = pieces(mounts->Ok_0, '\n');
                &&& 0 <= i < lines.len()
                &&& words(#[trigger] pieces(mounts->Ok_0, '\n')[i]).len() >= 3
                &&& words(lines[i])[1] == "/sys/fs/cgroup"@
                &&& words(lines[i])[2] == "cgroup2"@
            }),
{
    if let Ok(table) = mounts {
        let lines = pieces(table, '\n');
        if has_cgroup2(table) {
            let i = choose|i: int| 0 <= i < lines.len() && mounts_cgroup2(#[trigger] lines[i]);
            assert(words(lines[i]).len() >= 3);
        }
    }
}

/// A limit is written in decimal, and as `max` when there is none, so that it can be told
/// apart from every number.
pub proof fn limits_can_be_read_back(limit: Option<u64>, other: Option<u64>)
    ensures
        limit matches Some(n) ==> all_digits(limit_text(limit)) && number_of(limit_text(limit)) == n,
        limit is None ==> limit_text(limit) == "max"@,
        limit_text(limit) == limit_text(other) ==> limit == other,
{
    reveal_strlit("max");
    if let Some(n) = limit {
        decimal_stands_for_the_number(n as nat);
    }
    if let Some(n) = other {
        decimal_stands_for_the_number(n as nat);
    }
    if limit_text(limit) == limit_text(other) && limit is None != other is None {
        let number = if limit is None {
            limit_text(other)
        } else {
            limit_text(limit)
        };
        assert("max"@[0] == 'm');
        assert('0' <= number[0] <= '9');
    }
}

/// What fails in the setup of a cgroup is reported as a failure of cgroups.
pub proof fn cgroup_failures_are_categorised(cgroup: Cgroup, prefix: Seq<char>)
    ensures
        forall|i: int|
            0 <= i < limit_moves(cgroup).len() ==> ((#[trigger] limit_moves(
                cgroup,
            )[i]).rule matches Rule::Report(category, _) && category == Category::Cgroup),
        forall|i: int|
            0 <= i < 2 ==> ((#[trigger] directory_moves(
                prefix,
                cgroup.path,
            )[i]).rule matches Rule::Report(category, _) && category == Category::Cgroup),
{
}

} // verus!
