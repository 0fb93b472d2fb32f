//! Utility functions: the target platform, privileges and container ids.

use vstd::prelude::*;
use vstd::string::*;

use crate::error::labelled;
use crate::text::{same_text, views};

verus! {

/// Whether `os`, the name of the target operating system, is Linux.
pub fn is_linux(os: &str) -> (r: bool)
    ensures
        r == (os@ == "linux"@),
{
    same_text(os, "linux")
}

/// Calls `nix::unistd::geteuid`: the effective user id of the process. It
/// depends on who runs the process, so nothing is claimed of it.
#[verifier::external_body]
fn effective_uid() -> (uid: u32) {
    nix::unistd::geteuid().as_raw()
}

/// Whether a process with effective user id `uid` is root. Only Linux is asked;
/// elsewhere no process counts as root.
pub fn is_root_uid(os: &str, uid: u32) -> (r: bool)
    ensures
        r == (os@ == "linux"@ && uid == 0),
{
    is_linux(os) && uid == 0
}

/// Whether the current process runs as root.
pub fn is_root(os: &str) -> (r: bool)
    ensures
        os@ != "linux"@ ==> !r,
{
    is_root_uid(os, effective_uid())
}

/// Whether a path is a directory, given whether it exists and whether it leads
/// to a directory.
pub fn is_directory(exists: bool, leads_to_dir: bool) -> (r: bool)
    ensures
        r == (exists && leads_to_dir),
{
    exists && leads_to_dir
}

/// Whether `c` is a digit or a lower case letter from `a` to `f`.
pub open spec fn lower_hex(c: char) -> bool {
    '0' <= c <= '9' || 'a' <= c <= 'f'
}

/// Whether `text` has the form of a random UUID: five groups of 8, 4, 4, 4 and
/// 12 lower case hexadecimal digits with hyphens between them, the third group
/// starting with the version 4 and the fourth with the variant.
pub open spec fn uuid_form(text: Seq<char>) -> bool {
    &&& text.len() == 36
    &&& forall|i: int|
        0 <= i < 36 ==> if i == 8 || i == 13 || i == 18 || i == 23 {
            #[trigger] text[i] == '-'
        } else {
            lower_hex(text[i])
        }
    &&& text[14] == '4'
    &&& (text[19] == '8' || text[19] == '9' || text[19] == 'a' || text[19] == 'b')
}

/// Calls `uuid::Uuid::new_v4` and its `Display`: a random UUID in the hyphenated
/// lower case form. Which one it is, chance decides.
#[verifier::external_body]
pub(crate) fn random_uuid() -> (text: String)
    ensures
        uuid_form(text@),
{
    uuid::Uuid::new_v4().to_string()
}

/// The container id made of a UUID: its first twelve hexadecimal digits.
pub open spec fn id_digits(uuid: Seq<char>) -> Seq<char> {
    uuid.subrange(0, 8) + uuid.subrange(9, 13)
}

/// The container id made of a UUID.
pub fn container_id_of(uuid: &str) -> (r: String)
    requires
        uuid_form(uuid@),
    ensures
        r@ == id_digits(uuid@),
        r@.len() == 12,
        forall|i: int| 0 <= i < 12 ==> lower_hex(#[trigger] r@[i]),
{
    let mut r = uuid.substring_char(0, 8).to_owned();
    r.append(uuid.substring_char(9, 13));
    r
}

/// Generate a random container id (a hexadecimal string of 12 characters).
pub fn generate_container_id() -> (r: String)
    ensures
        r@.len() == 12,
        forall|i: int| 0 <= i < 12 ==> lower_hex(#[trigger] r@[i]),
        exists|uuid: Seq<char>| uuid_form(uuid) && r@ == #[trigger] id_digits(uuid),
{
    let uuid = random_uuid();
    container_id_of(uuid.as_str())
}

/// The library directory of an architecture.
pub open spec fn arch_lib_dir(arch: Seq<char>) -> Seq<char> {
    if arch == "x86_64"@ {
        "x86_64-linux-gnu"@
    } else if arch == "aarch64"@ {
        "aarch64-linux-gnu"@
    } else if arch == "arm"@ {
        "arm-linux-gnueabihf"@
    } else if arch == "riscv64"@ {
        "riscv64-linux-gnu"@
    } else {
        "unknown-linux-gnu"@
    }
}

/// The library directory name that multi-arch Linux distributions use for the
/// architecture `arch` (e.g. `x86_64-linux-gnu`).
pub fn detect_arch_lib_dir(arch: &str) -> (r: &'static str)
    ensures
        r@ == arch_lib_dir(arch@),
{
    if same_text(arch, "x86_64") {
        "x86_64-linux-gnu"
    } else if same_text(arch, "aarch64") {
        "aarch64-linux-gnu"
    } else if same_text(arch, "arm") {
        "arm-linux-gnueabihf"
    } else if same_text(arch, "riscv64") {
        "riscv64-linux-gnu"
    } else {
        "unknown-linux-gnu"
    }
}

/// The path of the dynamic linker of an architecture.
pub open spec fn linker(arch: Seq<char>) -> Seq<char> {
    if arch == "x86_64"@ {
        "/lib64/ld-linux-x86-64.so.2"@
    } else if arch == "aarch64"@ {
        "/lib/ld-linux-aarch64.so.1"@
    } else if arch == "arm"@ {
        "/lib/ld-linux-armhf.so.3"@
    } else {
        "/lib/ld-linux.so.2"@
    }
}

/// The path of the dynamic linker for the architecture `arch`.
pub fn dynamic_linker_path(arch: &str) -> (r: &'static str)
    ensures
        r@ == linker(arch@),
{
    if same_text(arch, "x86_64") {
        "/lib64/ld-linux-x86-64.so.2"
    } else if same_text(arch, "aarch64") {
        "/lib/ld-linux-aarch64.so.1"
    } else if same_text(arch, "arm") {
        "/lib/ld-linux-armhf.so.3"
    } else {
        "/lib/ld-linux.so.2"
    }
}

/// The directories in which an architecture keeps its libraries.
pub open spec fn library_dirs(arch: Seq<char>) -> Seq<Seq<char>> {
    seq!["/lib/"@ + arch_lib_dir(arch), "/lib64"@, "/usr/lib/"@ + arch_lib_dir(arch)]
}

/// The standard library search paths for the architecture `arch`.
pub fn lib_search_paths(arch: &str) -> (r: Vec<String>)
    ensures
        views(r@) == library_dirs(arch@),
{
    let dir = detect_arch_lib_dir(arch);
    let r = vec![labelled("/lib/", dir), "/lib64".to_owned(), labelled("/usr/lib/", dir)];
    assert(views(r@) =~= library_dirs(arch@));
    r
}

/// The id of a container is made of the first twelve hexadecimal digits of a UUID, so that
/// two UUIDs give the same id only when they agree in all of these.
pub proof fn id_is_the_beginning_of_the_uuid(uuid: Seq<char>)
    requires
        uuid_form(uuid),
    ensures
        id_digits(uuid).len() == 12,
        forall|i: int| 0 <= i < 8 ==> #[trigger] id_digits(uuid)[i] == uuid[i],
        forall|i: int| 8 <= i < 12 ==> #[trigger] id_digits(uuid)[i] == uuid[i + 1],
        !id_digits(uuid).contains('-'),
{
    let id = id_digits(uuid);
    assert forall|i: int| 0 <= i < 12 implies id[i] != '-' by {
        assert(lower_hex(uuid[i]) || i == 8);
        assert(lower_hex(uuid[i + 1]) || i == 7 || i == 12);
    }
}

} // verus!
