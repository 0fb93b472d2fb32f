//! What holds of the running of a container as a whole.

use vstd::prelude::*;

use crate::container::builder::Config;
use crate::container::host::{
    CONTAINER_NAMESPACES, ContainerAnswer, ContainerAsk, ContainerProgress, Namespace,
};
use crate::container::process::{cleanup_turn, prepare_progress, rootfs_of, run_turn, wait_turn};
use crate::container::rootfs::{
    act_progress, dependencies_progress, dirs_progress, libraries_progress, library_dir_progress,
    library_dirs_progress, library_progress, linker_progress, minimal_progress, named_progress,
    naming_progress, not_unicode_progress, parent_progress, place_linker_progress, placed,
    program_progress, programs_progress, resolved_progress, root_dirs, root_libraries,
    root_programs, unless_progress,
};
use crate::dialogue::{
    answered, answered_at, carries, follow, given, given_at, given_in_the_first,
    given_in_the_second, part_follows_a_question, part_leaves_the_rest, parts_follow_each_other,
    passes, sequential, Halt, Progress, Turn,
};
use crate::path::{file_name, joined_path, parent};
use crate::text::without_leading;
use crate::util::{arch_lib_dir, library_dirs, linker};

verus! {

/// A part of the preparation of a root filesystem.
pub type RootPart = spec_fn(Seq<ContainerAnswer>) -> ContainerProgress;

/// Whether something is in its place: it was there already, or it was put there.
pub open spec fn in_place(
    part: RootPart,
    said: Seq<ContainerAnswer>,
    place: Seq<char>,
    ask: ContainerAsk,
) -> bool {
    ||| given(part, said, ContainerAsk::Exists(place), ContainerAnswer::Exists(true))
    ||| given(part, said, ContainerAsk::Exists(place), ContainerAnswer::Exists(false)) && given(
        part,
        said,
        ask,
        ContainerAnswer::Done,
    )
}

/// Whether a program was taken over from the host, if the host has it.
#[verifier::opaque]
pub open spec fn program_in_place(
    part: RootPart,
    said: Seq<ContainerAnswer>,
    program: Seq<char>,
    to: Seq<char>,
) -> bool {
    ||| given(part, said, ContainerAsk::Exists(program), ContainerAnswer::Exists(false))
    ||| given(part, said, ContainerAsk::Exists(program), ContainerAnswer::Exists(true))
        && in_place(part, said, to, ContainerAsk::Copy { from: program, to })
}

/// Whether a library has its name in a directory where its file is called `name`.
pub open spec fn is_named(
    part: RootPart,
    said: Seq<ContainerAnswer>,
    name: Seq<char>,
    dir: Seq<char>,
    library: Seq<char>,
) -> bool {
    name == library || in_place(
        part,
        said,
        joined_path(dir, library),
        ContainerAsk::Symlink { target: name, link: joined_path(dir, library) },
    )
}

/// Whether a library was taken over from the file to which its path leads.
pub open spec fn taken_from_file(
    part: RootPart,
    said: Seq<ContainerAnswer>,
    source: Seq<char>,
    file: Seq<char>,
    dir: Seq<char>,
    library: Seq<char>,
) -> bool {
    &&& given(part, said, ContainerAsk::Canonicalize(source), ContainerAnswer::Path(file))
    &&& file_name(file) is Some
    &&& in_place(
        part,
        said,
        joined_path(dir, file_name(file)->Some_0),
        ContainerAsk::Copy { from: file, to: joined_path(dir, file_name(file)->Some_0) },
    )
    &&& is_named(part, said, file_name(file)->Some_0, dir, library)
}

/// Whether a library was taken over from a file whose path is not Unicode.
pub open spec fn taken_by_name(
    part: RootPart,
    said: Seq<ContainerAnswer>,
    source: Seq<char>,
    name: Seq<char>,
    dir: Seq<char>,
    library: Seq<char>,
) -> bool {
    &&& given(part, said, ContainerAsk::Canonicalize(source), ContainerAnswer::Named(name))
    &&& in_place(
        part,
        said,
        joined_path(dir, name),
        ContainerAsk::CopyFound { to: joined_path(dir, name) },
    )
    &&& is_named(part, said, name, dir, library)
}

/// Whether a path leads to no file.
pub open spec fn leads_nowhere(
    part: RootPart,
    said: Seq<ContainerAnswer>,
    source: Seq<char>,
    text: Seq<char>,
) -> bool {
    given(part, said, ContainerAsk::Canonicalize(source), ContainerAnswer::Failed(text))
}

/// Whether a library of the directory `from` was taken over to the directory `dir`, if it
/// is there and leads to a file.
pub open spec fn library_in_place(
    part: RootPart,
    said: Seq<ContainerAnswer>,
    from: Seq<char>,
    dir: Seq<char>,
    library: Seq<char>,
) -> bool {
    let source = joined_path(from, library);
    ||| given(part, said, ContainerAsk::Exists(source), ContainerAnswer::Exists(false))
    ||| given(
        part,
        said,
        ContainerAsk::Exists(joined_path(dir, library)),
        ContainerAnswer::Exists(true),
    )
    ||| exists|text: Seq<char>| leads_nowhere(part, said, source, text)
    ||| exists|file: Seq<char>| taken_from_file(part, said, source, file, dir, library)
    ||| exists|name: Seq<char>| taken_by_name(part, said, source, name, dir, library)
}

/// Whether the libraries of a directory of the host were taken over, if it exists.
#[verifier::opaque]
pub open spec fn libraries_in_place(
    part: RootPart,
    said: Seq<ContainerAnswer>,
    from: Seq<char>,
    dir: Seq<char>,
    libraries: Seq<Seq<char>>,
) -> bool {
    ||| given(part, said, ContainerAsk::Exists(from), ContainerAnswer::Exists(false))
    ||| given(part, said, ContainerAsk::CreateDirAll(dir), ContainerAnswer::Done) && forall|j: int|
        0 <= j < libraries.len() ==> library_in_place(part, said, from, dir, #[trigger] libraries[j])
}

/// Whether the dynamic linker was taken over from the file to which its path leads.
pub open spec fn linker_from_file(
    part: RootPart,
    said: Seq<ContainerAnswer>,
    from: Seq<char>,
    file: Seq<char>,
    to: Seq<char>,
) -> bool {
    &&& given(part, said, ContainerAsk::Canonicalize(from), ContainerAnswer::Path(file))
    &&& given(part, said, ContainerAsk::Copy { from: file, to }, ContainerAnswer::Done)
}

/// Whether the dynamic linker was taken over to `to`, if the host has it and it leads to a
/// file.
#[verifier::opaque]
pub open spec fn linker_in_place(
    part: RootPart,
    said: Seq<ContainerAnswer>,
    from: Seq<char>,
    to: Seq<char>,
) -> bool {
    ||| given(part, said, ContainerAsk::Exists(from), ContainerAnswer::Exists(false))
    ||| given(part, said, ContainerAsk::Exists(to), ContainerAnswer::Exists(true))
    ||| exists|text: Seq<char>| leads_nowhere(part, said, from, text)
    ||| exists|file: Seq<char>| linker_from_file(part, said, from, file, to)
    ||| given(part, said, ContainerAsk::CopyFound { to }, ContainerAnswer::Done)
}

spec fn nothing() -> RootPart {
    |said: Seq<ContainerAnswer>| ContainerProgress::Passed(said)
}

spec fn act(ask: ContainerAsk, report: Option<Seq<char>>) -> RootPart {
    |said: Seq<ContainerAnswer>| act_progress(ask, report, said)
}

spec fn unless(question: ContainerAsk, ask: ContainerAsk, report: Option<Seq<char>>) -> RootPart {
    |said: Seq<ContainerAnswer>| unless_progress(question, ask, report, said)
}

spec fn parent_at(path: Seq<char>) -> RootPart {
    |said: Seq<ContainerAnswer>| parent_progress(path, said)
}

spec fn dirs_at(rootfs: Seq<char>, dirs: Seq<Seq<char>>) -> RootPart {
    |said: Seq<ContainerAnswer>| dirs_progress(rootfs, dirs, said)
}

spec fn program_at(rootfs: Seq<char>, program: Seq<char>) -> RootPart {
    |said: Seq<ContainerAnswer>| program_progress(rootfs, program, said)
}

spec fn programs_at(rootfs: Seq<char>, programs: Seq<Seq<char>>) -> RootPart {
    |said: Seq<ContainerAnswer>| programs_progress(rootfs, programs, said)
}

proof fn nothing_passes(said: Seq<ContainerAnswer>)
    ensures
        passes(nothing(), said, 0),
{
    assert forall|i: int| 0 <= i <= said.len() implies nothing()(#[trigger] said.take(i))
        == ContainerProgress::Passed(said.take(i).skip(0)) by {
        assert(said.take(i).skip(0) =~= said.take(i));
    }
}

proof fn act_passes(ask: ContainerAsk, report: Option<Seq<char>>, said: Seq<ContainerAnswer>)
    requires
        act_progress(ask, report, said) is Passed,
    ensures
        passes(act(ask, report), said, 1),
        given(act(ask, report), said, ask, ContainerAnswer::Done),
{
    assert forall|i: int| 1 <= i <= said.len() implies act(ask, report)(#[trigger] said.take(i))
        == ContainerProgress::Passed(said.take(i).skip(1)) by {
        assert(said.take(i)[0] == said[0]);
    }
    assert(given_at(act(ask, report), said, 0, ask, ContainerAnswer::Done));
}

proof fn unless_passes(
    question: ContainerAsk,
    ask: ContainerAsk,
    report: Option<Seq<char>>,
    said: Seq<ContainerAnswer>,
) -> (k: int)
    requires
        unless_progress(question, ask, report, said) is Passed,
    ensures
        passes(unless(question, ask, report), said, k),
        given(unless(question, ask, report), said, question, ContainerAnswer::Exists(true)) || (
        given(unless(question, ask, report), said, question, ContainerAnswer::Exists(false))
            && given(unless(question, ask, report), said, ask, ContainerAnswer::Done)),
{
    let whole = unless(question, ask, report);
    let rest = said.skip(1);
    if said[0] == ContainerAnswer::Exists(true) {
        nothing_passes(rest);
        assert forall|i: int| 1 <= i <= said.len() implies whole(#[trigger] said.take(i))
            == nothing()(said.take(i).skip(1)) by {
            assert(said.take(i)[0] == said[0]);
        }
        part_follows_a_question(whole, question, nothing(), said, 0);
        1
    } else {
        act_passes(ask, report, rest);
        assert forall|i: int| 1 <= i <= said.len() implies whole(#[trigger] said.take(i)) == act(
            ask,
            report,
        )(said.take(i).skip(1)) by {
            assert(said.take(i)[0] == said[0]);
        }
        part_follows_a_question(whole, question, act(ask, report), said, 1);
        2
    }
}

proof fn parent_passes(path: Seq<char>, said: Seq<ContainerAnswer>) -> (k: int)
    requires
        parent_progress(path, said) is Passed,
    ensures
        passes(parent_at(path), said, k),
{
    match parent(path) {
        Some(dir) => {
            act_passes(ContainerAsk::CreateDirAll(dir), None, said);
            let other = act(ContainerAsk::CreateDirAll(dir), None);
            assert forall|i: int| 1 <= i <= said.len() implies parent_at(path)(
                #[trigger] said.take(i),
            ) == ContainerProgress::Passed(said.take(i).skip(1)) by {
                assert(other(said.take(i)) == ContainerProgress::Passed(said.take(i).skip(1)));
            }
            1
        },
        None => {
            nothing_passes(said);
            assert forall|i: int| 0 <= i <= said.len() implies parent_at(path)(
                #[trigger] said.take(i),
            ) == ContainerProgress::Passed(said.take(i).skip(0)) by {
                assert(nothing()(said.take(i)) == ContainerProgress::Passed(said.take(i).skip(0)));
            }
            0
        },
    }
}

proof fn dirs_pass(rootfs: Seq<char>, dirs: Seq<Seq<char>>, said: Seq<ContainerAnswer>) -> (k: int)
    requires
        dirs_progress(rootfs, dirs, said) is Passed,
    ensures
        passes(dirs_at(rootfs, dirs), said, k),
        forall|j: int|
            0 <= j < dirs.len() ==> given(
                dirs_at(rootfs, dirs),
                said,
                ContainerAsk::CreateDirAll(joined_path(rootfs, #[trigger] dirs[j])),
                ContainerAnswer::Done,
            ),
    decreases dirs.len(),
{
    let whole = dirs_at(rootfs, dirs);
    if dirs.len() == 0 {
        assert forall|i: int| 0 <= i <= said.len() implies whole(#[trigger] said.take(i))
            == ContainerProgress::Passed(said.take(i).skip(0)) by {
            assert(said.take(i).skip(0) =~= said.take(i));
        }
        0
    } else {
        let ask = ContainerAsk::CreateDirAll(joined_path(rootfs, dirs[0]));
        let report = Some("Failed to create "@ + dirs[0] + ": "@);
        let second = dirs_at(rootfs, dirs.skip(1));
        act_passes(ask, report, said);
        let l = dirs_pass(rootfs, dirs.skip(1), said.skip(1));
        assert(sequential(whole, act(ask, report), second, said));
        parts_follow_each_other(whole, act(ask, report), second, said, 1, l);
        assert forall|j: int| 0 <= j < dirs.len() implies given(
            whole,
            said,
            ContainerAsk::CreateDirAll(joined_path(rootfs, #[trigger] dirs[j])),
            ContainerAnswer::Done,
        ) by {
            if j > 0 {
                assert(dirs.skip(1)[j - 1] == dirs[j]);
            }
        }
        1 + l
    }
}

proof fn program_passes(rootfs: Seq<char>, program: Seq<char>, said: Seq<ContainerAnswer>) -> (k:
    int)
    requires
        program_progress(rootfs, program, said) is Passed,
    ensures
        passes(program_at(rootfs, program), said, k),
        program_in_place(program_at(rootfs, program), said, program, placed(rootfs, program)),
{
    reveal(program_in_place);
    let whole = program_at(rootfs, program);
    let to = placed(rootfs, program);
    let question = ContainerAsk::Exists(program);
    let rest = said.skip(1);
    if said[0] == ContainerAnswer::Exists(false) {
        nothing_passes(rest);
        assert forall|i: int| 1 <= i <= said.len() implies whole(#[trigger] said.take(i))
            == nothing()(said.take(i).skip(1)) by {
            assert(said.take(i)[0] == said[0]);
        }
        part_follows_a_question(whole, question, nothing(), said, 0);
        1
    } else {
        let copy = ContainerAsk::Copy { from: program, to };
        let report = Some("Failed to copy "@ + program + ": "@);
        let second = unless(ContainerAsk::Exists(to), copy, report);
        let both = |s: Seq<ContainerAnswer>| follow(parent_at(to)(s), second);
        let k = parent_passes(to, rest);
        part_leaves_the_rest(parent_at(to), rest, k);
        let l = unless_passes(ContainerAsk::Exists(to), copy, report, rest.skip(k));
        assert(sequential(both, parent_at(to), second, rest));
        parts_follow_each_other(both, parent_at(to), second, rest, k, l);
        assert forall|i: int| 1 <= i <= said.len() implies whole(#[trigger] said.take(i)) == both(
            said.take(i).skip(1),
        ) by {
            assert(said.take(i)[0] == said[0]);
        }
        part_follows_a_question(whole, question, both, said, k + l);
        1 + k + l
    }
}

proof fn programs_pass(
    rootfs: Seq<char>,
    programs: Seq<Seq<char>>,
    said: Seq<ContainerAnswer>,
) -> (k: int)
    requires
        programs_progress(rootfs, programs, said) is Passed,
    ensures
        passes(programs_at(rootfs, programs), said, k),
        forall|j: int|
            0 <= j < programs.len() ==> program_in_place(
                programs_at(rootfs, programs),
                said,
                #[trigger] programs[j],
                placed(rootfs, programs[j]),
            ),
    decreases programs.len(),
{
    reveal(program_in_place);
    let whole = programs_at(rootfs, programs);
    if programs.len() == 0 {
        assert forall|i: int| 0 <= i <= said.len() implies whole(#[trigger] said.take(i))
            == ContainerProgress::Passed(said.take(i).skip(0)) by {
            assert(said.take(i).skip(0) =~= said.take(i));
        }
        0
    } else {
        let first = program_at(rootfs, programs[0]);
        let second = programs_at(rootfs, programs.skip(1));
        let k = program_passes(rootfs, programs[0], said);
        part_leaves_the_rest(first, said, k);
        let l = programs_pass(rootfs, programs.skip(1), said.skip(k));
        assert(sequential(whole, first, second, said));
        parts_follow_each_other(whole, first, second, said, k, l);
        assert forall|j: int| 0 <= j < programs.len() implies program_in_place(
            whole,
            said,
            #[trigger] programs[j],
            placed(rootfs, programs[j]),
        ) by {
            if j > 0 {
                assert(programs.skip(1)[j - 1] == programs[j]);
            }
        }
        k + l
    }
}

spec fn naming_at(name: Seq<char>, dir: Seq<char>, library: Seq<char>) -> RootPart {
    |said: Seq<ContainerAnswer>| naming_progress(name, dir, library, said)
}

spec fn resolved_at(file: Seq<char>, dir: Seq<char>, library: Seq<char>) -> RootPart {
    |said: Seq<ContainerAnswer>| resolved_progress(file, dir, library, said)
}

spec fn named_at(name: Seq<char>, dir: Seq<char>, library: Seq<char>) -> RootPart {
    |said: Seq<ContainerAnswer>| named_progress(name, dir, library, said)
}

spec fn library_at(from: Seq<char>, dir: Seq<char>, library: Seq<char>) -> RootPart {
    |said: Seq<ContainerAnswer>| library_progress(from, dir, library, said)
}

spec fn libraries_at(from: Seq<char>, dir: Seq<char>, libraries: Seq<Seq<char>>) -> RootPart {
    |said: Seq<ContainerAnswer>| libraries_progress(from, dir, libraries, said)
}

spec fn library_dir_at(rootfs: Seq<char>, from: Seq<char>) -> RootPart {
    |said: Seq<ContainerAnswer>| library_dir_progress(rootfs, from, said)
}

spec fn library_dirs_at(rootfs: Seq<char>, dirs: Seq<Seq<char>>) -> RootPart {
    |said: Seq<ContainerAnswer>| library_dirs_progress(rootfs, dirs, said)
}

spec fn place_linker_at(from: Seq<char>, to: Seq<char>) -> RootPart {
    |said: Seq<ContainerAnswer>| place_linker_progress(from, to, said)
}

spec fn linker_at(rootfs: Seq<char>, from: Seq<char>) -> RootPart {
    |said: Seq<ContainerAnswer>| linker_progress(rootfs, from, said)
}

spec fn dependencies_at(rootfs: Seq<char>, arch: Seq<char>) -> RootPart {
    |said: Seq<ContainerAnswer>| dependencies_progress(rootfs, arch, said)
}

/// The preparation of a temporary root filesystem.
pub open spec fn preparation(rootfs: Seq<char>, arch: Seq<char>) -> RootPart {
    |said: Seq<ContainerAnswer>| minimal_progress(rootfs, arch, said)
}

proof fn naming_passes(
    name: Seq<char>,
    dir: Seq<char>,
    library: Seq<char>,
    said: Seq<ContainerAnswer>,
) -> (k: int)
    requires
        naming_progress(name, dir, library, said) is Passed,
    ensures
        passes(naming_at(name, dir, library), said, k),
        is_named(naming_at(name, dir, library), said, name, dir, library),
{
    let whole = naming_at(name, dir, library);
    if library == name {
        assert forall|i: int| 0 <= i <= said.len() implies whole(#[trigger] said.take(i))
            == ContainerProgress::Passed(said.take(i).skip(0)) by {
            assert(said.take(i).skip(0) =~= said.take(i));
        }
        0
    } else {
        let link = joined_path(dir, library);
        let question = ContainerAsk::Exists(link);
        let ask = ContainerAsk::Symlink { target: name, link };
        let k = unless_passes(question, ask, None, said);
        assert(whole =~= unless(question, ask, None));
        k
    }
}

proof fn resolved_passes(
    file: Seq<char>,
    dir: Seq<char>,
    library: Seq<char>,
    said: Seq<ContainerAnswer>,
) -> (k: int)
    requires
        resolved_progress(file, dir, library, said) is Passed,
    ensures
        passes(resolved_at(file, dir, library), said, k),
        file_name(file) is Some,
        in_place(
            resolved_at(file, dir, library),
            said,
            joined_path(dir, file_name(file)->Some_0),
            ContainerAsk::Copy { from: file, to: joined_path(dir, file_name(file)->Some_0) },
        ),
        is_named(
            resolved_at(file, dir, library),
            said,
            file_name(file)->Some_0,
            dir,
            library,
        ),
{
    let whole = resolved_at(file, dir, library);
    let name = file_name(file)->Some_0;
    let to = joined_path(dir, name);
    let question = ContainerAsk::Exists(to);
    let ask = ContainerAsk::Copy { from: file, to };
    let first = unless(question, ask, None);
    let second = naming_at(name, dir, library);
    let k = unless_passes(question, ask, None, said);
    part_leaves_the_rest(first, said, k);
    let l = naming_passes(name, dir, library, said.skip(k));
    assert(sequential(whole, first, second, said));
    parts_follow_each_other(whole, first, second, said, k, l);
    k + l
}

proof fn named_passes(
    name: Seq<char>,
    dir: Seq<char>,
    library: Seq<char>,
    said: Seq<ContainerAnswer>,
) -> (k: int)
    requires
        named_progress(name, dir, library, said) is Passed,
    ensures
        passes(named_at(name, dir, library), said, k),
        in_place(
            named_at(name, dir, library),
            said,
            joined_path(dir, name),
            ContainerAsk::CopyFound { to: joined_path(dir, name) },
        ),
        is_named(named_at(name, dir, library), said, name, dir, library),
{
    let whole = named_at(name, dir, library);
    let to = joined_path(dir, name);
    let question = ContainerAsk::Exists(to);
    let ask = ContainerAsk::CopyFound { to };
    let first = unless(question, ask, None);
    let second = naming_at(name, dir, library);
    let k = unless_passes(question, ask, None, said);
    part_leaves_the_rest(first, said, k);
    let l = naming_passes(name, dir, library, said.skip(k));
    assert(sequential(whole, first, second, said));
    parts_follow_each_other(whole, first, second, said, k, l);
    k + l
}

/// The part of the copying of a library after it is known that the library is there and
/// has nothing in its place.
spec fn found_at(from: Seq<char>, dir: Seq<char>, library: Seq<char>) -> RootPart {
    |said: Seq<ContainerAnswer>|
        if said.len() == 0 {
            ContainerProgress::Ask(ContainerAsk::Canonicalize(joined_path(from, library)))
        } else {
            match said[0] {
                ContainerAnswer::Path(file) => resolved_progress(file, dir, library, said.skip(1)),
                ContainerAnswer::Failed(_) => ContainerProgress::Passed(said.skip(1)),
                ContainerAnswer::Named(name) => named_progress(name, dir, library, said.skip(1)),
                _ => not_unicode_progress(said[0]->NotUnicode_0, dir, said.skip(1)),
            }
        }
}

proof fn found_passes(
    from: Seq<char>,
    dir: Seq<char>,
    library: Seq<char>,
    said: Seq<ContainerAnswer>,
) -> (k: int)
    requires
        found_at(from, dir, library)(said) is Passed,
    ensures
        passes(found_at(from, dir, library), said, k),
        library_in_place(found_at(from, dir, library), said, from, dir, library),
{
    let whole = found_at(from, dir, library);
    let source = joined_path(from, library);
    let question = ContainerAsk::Canonicalize(source);
    let rest = said.skip(1);
    match said[0] {
        ContainerAnswer::Path(file) => {
            let second = resolved_at(file, dir, library);
            let l = resolved_passes(file, dir, library, rest);
            assert forall|i: int| 1 <= i <= said.len() implies whole(#[trigger] said.take(i))
                == second(said.take(i).skip(1)) by {
                assert(said.take(i)[0] == said[0]);
            }
            part_follows_a_question(whole, question, second, said, l);
            assert(taken_from_file(whole, said, source, file, dir, library));
            1 + l
        },
        ContainerAnswer::Named(name) => {
            let second = named_at(name, dir, library);
            let l = named_passes(name, dir, library, rest);
            assert forall|i: int| 1 <= i <= said.len() implies whole(#[trigger] said.take(i))
                == second(said.take(i).skip(1)) by {
                assert(said.take(i)[0] == said[0]);
            }
            part_follows_a_question(whole, question, second, said, l);
            assert(taken_by_name(whole, said, source, name, dir, library));
            1 + l
        },
        ContainerAnswer::Failed(text) => {
            let second = nothing();
            nothing_passes(rest);
            assert forall|i: int| 1 <= i <= said.len() implies whole(#[trigger] said.take(i))
                == second(said.take(i).skip(1)) by {
                assert(said.take(i)[0] == said[0]);
            }
            part_follows_a_question(whole, question, second, said, 0);
            assert(leads_nowhere(whole, said, source, text));
            1
        },
        _ => {
            assert(false);
            0
        },
    }
}

/// What one part says of a library, a part that asks the same says too.
proof fn library_stays_in_place(
    inner: RootPart,
    inner_said: Seq<ContainerAnswer>,
    outer: RootPart,
    outer_said: Seq<ContainerAnswer>,
    from: Seq<char>,
    dir: Seq<char>,
    library: Seq<char>,
)
    requires
        carries(inner, inner_said, outer, outer_said),
        library_in_place(inner, inner_said, from, dir, library),
    ensures
        library_in_place(outer, outer_said, from, dir, library),
{
    let source = joined_path(from, library);
    if exists|text: Seq<char>| leads_nowhere(inner, inner_said, source, text) {
        let text = choose|text: Seq<char>| leads_nowhere(inner, inner_said, source, text);
        assert(leads_nowhere(outer, outer_said, source, text));
    } else if exists|file: Seq<char>|
        taken_from_file(inner, inner_said, source, file, dir, library) {
        let file = choose|file: Seq<char>|
            taken_from_file(inner, inner_said, source, file, dir, library);
        assert(taken_from_file(outer, outer_said, source, file, dir, library));
    } else if exists|name: Seq<char>| taken_by_name(inner, inner_said, source, name, dir, library) {
        let name = choose|name: Seq<char>|
            taken_by_name(inner, inner_said, source, name, dir, library);
        assert(taken_by_name(outer, outer_said, source, name, dir, library));
    }
}

/// The part of the copying of a library after it is known that the library is there.
spec fn absent_at(from: Seq<char>, dir: Seq<char>, library: Seq<char>) -> RootPart {
    |said: Seq<ContainerAnswer>|
        if said.len() == 0 {
            ContainerProgress::Ask(ContainerAsk::Exists(joined_path(dir, library)))
        } else if said[0] == ContainerAnswer::Exists(true) {
            ContainerProgress::Passed(said.skip(1))
        } else {
            found_at(from, dir, library)(said.skip(1))
        }
}

proof fn absent_passes(
    from: Seq<char>,
    dir: Seq<char>,
    library: Seq<char>,
    said: Seq<ContainerAnswer>,
) -> (k: int)
    requires
        absent_at(from, dir, library)(said) is Passed,
    ensures
        passes(absent_at(from, dir, library), said, k),
        library_in_place(absent_at(from, dir, library), said, from, dir, library),
{
    let whole = absent_at(from, dir, library);
    let question = ContainerAsk::Exists(joined_path(dir, library));
    let rest = said.skip(1);
    if said[0] == ContainerAnswer::Exists(true) {
        let second = nothing();
        nothing_passes(rest);
        assert forall|i: int| 1 <= i <= said.len() implies whole(#[trigger] said.take(i)) == second(
            said.take(i).skip(1),
        ) by {
            assert(said.take(i)[0] == said[0]);
        }
        part_follows_a_question(whole, question, second, said, 0);
        1
    } else {
        let second = found_at(from, dir, library);
        let l = found_passes(from, dir, library, rest);
        assert forall|i: int| 1 <= i <= said.len() implies whole(#[trigger] said.take(i)) == second(
            said.take(i).skip(1),
        ) by {
            assert(said.take(i)[0] == said[0]);
        }
        part_follows_a_question(whole, question, second, said, l);
        library_stays_in_place(second, rest, whole, said, from, dir, library);
        1 + l
    }
}

proof fn library_passes(
    from: Seq<char>,
    dir: Seq<char>,
    library: Seq<char>,
    said: Seq<ContainerAnswer>,
) -> (k: int)
    requires
        library_progress(from, dir, library, said) is Passed,
    ensures
        passes(library_at(from, dir, library), said, k),
        library_in_place(library_at(from, dir, library), said, from, dir, library),
{
    let whole = library_at(from, dir, library);
    let question = ContainerAsk::Exists(joined_path(from, library));
    let rest = said.skip(1);
    if said[0] == ContainerAnswer::Exists(false) {
        let second = nothing();
        nothing_passes(rest);
        assert forall|i: int| 1 <= i <= said.len() implies whole(#[trigger] said.take(i)) == second(
            said.take(i).skip(1),
        ) by {
            assert(said.take(i)[0] == said[0]);
        }
        part_follows_a_question(whole, question, second, said, 0);
        1
    } else {
        let second = absent_at(from, dir, library);
        assert(rest.len() > 0);
        assert(rest[0] == said[1]);
        if rest[0] != ContainerAnswer::Exists(true) {
            assert(rest.len() > 1);
            assert(rest.skip(1)[0] == said[2]);
            assert(rest.skip(1).skip(1) =~= said.skip(3));
        } else {
            assert(rest.skip(1) =~= said.skip(2));
        }
        let l = absent_passes(from, dir, library, rest);
        assert forall|i: int| 1 <= i <= said.len() implies whole(#[trigger] said.take(i))
            == second(said.take(i).skip(1)) by {
            let s = said.take(i);
            let t = s.skip(1);
            assert(s[0] == said[0]);
            if i > 1 {
                assert(t[0] == said[1]);
                assert(t.skip(1) =~= s.skip(2));
                if i > 2 {
                    assert(t.skip(1)[0] == said[2]);
                    assert(t.skip(1).skip(1) =~= s.skip(3));
                }
            }
        }
        part_follows_a_question(whole, question, second, said, l);
        library_stays_in_place(second, rest, whole, said, from, dir, library);
        1 + l
    }
}

proof fn libraries_pass(
    from: Seq<char>,
    dir: Seq<char>,
    libraries: Seq<Seq<char>>,
    said: Seq<ContainerAnswer>,
) -> (k: int)
    requires
        libraries_progress(from, dir, libraries, said) is Passed,
    ensures
        passes(libraries_at(from, dir, libraries), said, k),
        forall|j: int|
            0 <= j < libraries.len() ==> library_in_place(
                libraries_at(from, dir, libraries),
                said,
                from,
                dir,
                #[trigger] libraries[j],
            ),
    decreases libraries.len(),
{
    let whole = libraries_at(from, dir, libraries);
    if libraries.len() == 0 {
        assert forall|i: int| 0 <= i <= said.len() implies whole(#[trigger] said.take(i))
            == ContainerProgress::Passed(said.take(i).skip(0)) by {
            assert(said.take(i).skip(0) =~= said.take(i));
        }
        0
    } else {
        let first = library_at(from, dir, libraries[0]);
        let second = libraries_at(from, dir, libraries.skip(1));
        let k = library_passes(from, dir, libraries[0], said);
        part_leaves_the_rest(first, said, k);
        let l = libraries_pass(from, dir, libraries.skip(1), said.skip(k));
        assert(sequential(whole, first, second, said));
        parts_follow_each_other(whole, first, second, said, k, l);
        library_stays_in_place(first, said, whole, said, from, dir, libraries[0]);
        assert forall|j: int| 0 <= j < libraries.len() implies library_in_place(
            whole,
            said,
            from,
            dir,
            #[trigger] libraries[j],
        ) by {
            if j > 0 {
                assert(libraries.skip(1)[j - 1] == libraries[j]);
                library_stays_in_place(second, said.skip(k), whole, said, from, dir, libraries[j]);
            }
        }
        k + l
    }
}

/// What one part says of libraries, a part that asks the same says too.
proof fn libraries_stay_in_place(
    inner: RootPart,
    inner_said: Seq<ContainerAnswer>,
    outer: RootPart,
    outer_said: Seq<ContainerAnswer>,
    from: Seq<char>,
    dir: Seq<char>,
    libraries: Seq<Seq<char>>,
)
    requires
        carries(inner, inner_said, outer, outer_said),
        libraries_in_place(inner, inner_said, from, dir, libraries),
    ensures
        libraries_in_place(outer, outer_said, from, dir, libraries),
{
    reveal(libraries_in_place);
    if !given(inner, inner_said, ContainerAsk::Exists(from), ContainerAnswer::Exists(false)) {
        assert forall|j: int| 0 <= j < libraries.len() implies library_in_place(
            outer,
            outer_said,
            from,
            dir,
            #[trigger] libraries[j],
        ) by {
            library_stays_in_place(
                inner,
                inner_said,
                outer,
                outer_said,
                from,
                dir,
                libraries[j],
            );
        }
    }
}

proof fn library_dir_passes(rootfs: Seq<char>, from: Seq<char>, said: Seq<ContainerAnswer>) -> (k:
    int)
    requires
        library_dir_progress(rootfs, from, said) is Passed,
    ensures
        passes(library_dir_at(rootfs, from), said, k),
        libraries_in_place(
            library_dir_at(rootfs, from),
            said,
            from,
            placed(rootfs, from),
            root_libraries(),
        ),
{
    reveal(libraries_in_place);
    let whole = library_dir_at(rootfs, from);
    let question = ContainerAsk::Exists(from);
    let dir = placed(rootfs, from);
    let rest = said.skip(1);
    if said[0] == ContainerAnswer::Exists(false) {
        let second = nothing();
        nothing_passes(rest);
        assert forall|i: int| 1 <= i <= said.len() implies whole(#[trigger] said.take(i)) == second(
            said.take(i).skip(1),
        ) by {
            assert(said.take(i)[0] == said[0]);
        }
        part_follows_a_question(whole, question, second, said, 0);
        1
    } else {
        let first = act(ContainerAsk::CreateDirAll(dir), None);
        let then = libraries_at(from, dir, root_libraries());
        let second = |s: Seq<ContainerAnswer>| follow(first(s), then);
        act_passes(ContainerAsk::CreateDirAll(dir), None, rest);
        part_leaves_the_rest(first, rest, 1);
        let l = libraries_pass(from, dir, root_libraries(), rest.skip(1));
        assert(sequential(second, first, then, rest));
        parts_follow_each_other(second, first, then, rest, 1, l);
        assert forall|i: int| 1 <= i <= said.len() implies whole(#[trigger] said.take(i)) == second(
            said.take(i).skip(1),
        ) by {
            assert(said.take(i)[0] == said[0]);
        }
        part_follows_a_question(whole, question, second, said, 1 + l);
        assert(carries(then, rest.skip(1), whole, said));
        assert forall|j: int| 0 <= j < root_libraries().len() implies library_in_place(
            whole,
            said,
            from,
            dir,
            #[trigger] root_libraries()[j],
        ) by {
            library_stays_in_place(
                then,
                rest.skip(1),
                whole,
                said,
                from,
                dir,
                root_libraries()[j],
            );
        }
        2 + l
    }
}

proof fn library_dirs_pass(
    rootfs: Seq<char>,
    dirs: Seq<Seq<char>>,
    said: Seq<ContainerAnswer>,
) -> (k: int)
    requires
        library_dirs_progress(rootfs, dirs, said) is Passed,
    ensures
        passes(library_dirs_at(rootfs, dirs), said, k),
        forall|j: int|
            0 <= j < dirs.len() ==> libraries_in_place(
                library_dirs_at(rootfs, dirs),
                said,
                #[trigger] dirs[j],
                placed(rootfs, dirs[j]),
                root_libraries(),
            ),
    decreases dirs.len(),
{
    let whole = library_dirs_at(rootfs, dirs);
    if dirs.len() == 0 {
        assert forall|i: int| 0 <= i <= said.len() implies whole(#[trigger] said.take(i))
            == ContainerProgress::Passed(said.take(i).skip(0)) by {
            assert(said.take(i).skip(0) =~= said.take(i));
        }
        0
    } else {
        let first = library_dir_at(rootfs, dirs[0]);
        let second = library_dirs_at(rootfs, dirs.skip(1));
        let k = library_dir_passes(rootfs, dirs[0], said);
        part_leaves_the_rest(first, said, k);
        let l = library_dirs_pass(rootfs, dirs.skip(1), said.skip(k));
        assert(sequential(whole, first, second, said));
        parts_follow_each_other(whole, first, second, said, k, l);
        assert forall|j: int| 0 <= j < dirs.len() implies libraries_in_place(
            whole,
            said,
            #[trigger] dirs[j],
            placed(rootfs, dirs[j]),
            root_libraries(),
        ) by {
            let to = placed(rootfs, dirs[j]);
            if j > 0 {
                assert(dirs.skip(1)[j - 1] == dirs[j]);
                libraries_stay_in_place(
                    second,
                    said.skip(k),
                    whole,
                    said,
                    dirs[j],
                    to,
                    root_libraries(),
                );
            } else {
                libraries_stay_in_place(first, said, whole, said, dirs[j], to, root_libraries());
            }
        }
        k + l
    }
}

proof fn place_linker_passes(from: Seq<char>, to: Seq<char>, said: Seq<ContainerAnswer>) -> (k: int)
    requires
        place_linker_progress(from, to, said) is Passed,
    ensures
        passes(place_linker_at(from, to), said, k),
        linker_in_place(place_linker_at(from, to), said, from, to),
{
    reveal(linker_in_place);
    let whole = place_linker_at(from, to);
    let question = ContainerAsk::Exists(to);
    let rest = said.skip(1);
    if said[0] == ContainerAnswer::Exists(true) {
        let second = nothing();
        nothing_passes(rest);
        assert forall|i: int| 1 <= i <= said.len() implies whole(#[trigger] said.take(i)) == second(
            said.take(i).skip(1),
        ) by {
            assert(said.take(i)[0] == said[0]);
        }
        part_follows_a_question(whole, question, second, said, 0);
        1
    } else {
        let ask = ContainerAsk::Canonicalize(from);
        let last = rest.skip(1);
        assert(rest[0] == said[1]);
        assert(last =~= said.skip(2));
        assert(said.take(0) =~= Seq::empty());
        assert(given_at(whole, said, 0, question, said[0]));
        assert(said.take(1)[0] == said[0]);
        assert(given_at(whole, said, 1, ask, said[1]));
        assert(given(whole, said, ask, said[1]));
        if let ContainerAnswer::Failed(text) = said[1] {
            assert forall|i: int| 2 <= i <= said.len() implies whole(#[trigger] said.take(i))
                == ContainerProgress::Passed(said.take(i).skip(2)) by {
                assert(said.take(i)[0] == said[0]);
                assert(said.take(i)[1] == said[1]);
            }
            assert(leads_nowhere(whole, said, from, text));
            2
        } else {
            let copy = if let ContainerAnswer::Path(file) = said[1] {
                ContainerAsk::Copy { from: file, to }
            } else {
                ContainerAsk::CopyFound { to }
            };
            act_passes(copy, None, last);
            assert(said[2] == last[0]);
            assert forall|i: int| 3 <= i <= said.len() implies whole(#[trigger] said.take(i))
                == ContainerProgress::Passed(said.take(i).skip(3)) by {
                let s = said.take(i);
                assert(s[0] == said[0]);
                assert(s[1] == said[1]);
                assert(s.skip(2)[0] == said[2]);
                assert(s.skip(2).skip(1) =~= s.skip(3));
            }
            assert(said.take(2)[0] == said[0]);
            assert(said.take(2)[1] == said[1]);
            assert(said.take(2).skip(2).len() == 0);
            assert(given_at(whole, said, 2, copy, ContainerAnswer::Done));
            assert(given(whole, said, copy, ContainerAnswer::Done));
            if let ContainerAnswer::Path(file) = said[1] {
                assert(linker_from_file(whole, said, from, file, to));
            }
            3
        }
    }
}

/// What one part says of the dynamic linker, a part that asks the same says too.
proof fn linker_stays_in_place(
    inner: RootPart,
    inner_said: Seq<ContainerAnswer>,
    outer: RootPart,
    outer_said: Seq<ContainerAnswer>,
    from: Seq<char>,
    to: Seq<char>,
)
    requires
        carries(inner, inner_said, outer, outer_said),
        linker_in_place(inner, inner_said, from, to),
    ensures
        linker_in_place(outer, outer_said, from, to),
{
    reveal(linker_in_place);
    if exists|text: Seq<char>| leads_nowhere(inner, inner_said, from, text) {
        let text = choose|text: Seq<char>| leads_nowhere(inner, inner_said, from, text);
        assert(leads_nowhere(outer, outer_said, from, text));
    } else if exists|file: Seq<char>| linker_from_file(inner, inner_said, from, file, to) {
        let file = choose|file: Seq<char>| linker_from_file(inner, inner_said, from, file, to);
        assert(linker_from_file(outer, outer_said, from, file, to));
    }
}

proof fn linker_passes(rootfs: Seq<char>, from: Seq<char>, said: Seq<ContainerAnswer>) -> (k: int)
    requires
        linker_progress(rootfs, from, said) is Passed,
    ensures
        passes(linker_at(rootfs, from), said, k),
        linker_in_place(linker_at(rootfs, from), said, from, placed(rootfs, from)),
{
    reveal(linker_in_place);
    let whole = linker_at(rootfs, from);
    let question = ContainerAsk::Exists(from);
    let to = placed(rootfs, from);
    let rest = said.skip(1);
    if said[0] == ContainerAnswer::Exists(false) {
        let second = nothing();
        nothing_passes(rest);
        assert forall|i: int| 1 <= i <= said.len() implies whole(#[trigger] said.take(i)) == second(
            said.take(i).skip(1),
        ) by {
            assert(said.take(i)[0] == said[0]);
        }
        part_follows_a_question(whole, question, second, said, 0);
        1
    } else {
        let first = parent_at(to);
        let then = place_linker_at(from, to);
        let second = |s: Seq<ContainerAnswer>| follow(first(s), then);
        let k = parent_passes(to, rest);
        part_leaves_the_rest(first, rest, k);
        let l = place_linker_passes(from, to, rest.skip(k));
        assert(sequential(second, first, then, rest));
        parts_follow_each_other(second, first, then, rest, k, l);
        assert forall|i: int| 1 <= i <= said.len() implies whole(#[trigger] said.take(i)) == second(
            said.take(i).skip(1),
        ) by {
            assert(said.take(i)[0] == said[0]);
        }
        part_follows_a_question(whole, question, second, said, k + l);
        assert(carries(then, rest.skip(k), whole, said));
        linker_stays_in_place(then, rest.skip(k), whole, said, from, to);
        1 + k + l
    }
}

proof fn dependencies_pass(rootfs: Seq<char>, arch: Seq<char>, said: Seq<ContainerAnswer>) -> (k:
    int)
    requires
        dependencies_progress(rootfs, arch, said) is Passed,
    ensures
        passes(dependencies_at(rootfs, arch), said, k),
        forall|j: int|
            0 <= j < library_dirs(arch).len() ==> libraries_in_place(
                dependencies_at(rootfs, arch),
                said,
                #[trigger] library_dirs(arch)[j],
                placed(rootfs, library_dirs(arch)[j]),
                root_libraries(),
            ),
        linker_in_place(
            dependencies_at(rootfs, arch),
            said,
            linker(arch),
            placed(rootfs, linker(arch)),
        ),
{
    let whole = dependencies_at(rootfs, arch);
    let dirs = library_dirs(arch);
    let first = library_dirs_at(rootfs, dirs);
    let second = linker_at(rootfs, linker(arch));
    let k = library_dirs_pass(rootfs, dirs, said);
    part_leaves_the_rest(first, said, k);
    let l = linker_passes(rootfs, linker(arch), said.skip(k));
    assert(sequential(whole, first, second, said));
    parts_follow_each_other(whole, first, second, said, k, l);
    linker_stays_in_place(
        second,
        said.skip(k),
        whole,
        said,
        linker(arch),
        placed(rootfs, linker(arch)),
    );
    assert forall|j: int| 0 <= j < dirs.len() implies libraries_in_place(
        whole,
        said,
        #[trigger] dirs[j],
        placed(rootfs, dirs[j]),
        root_libraries(),
    ) by {
        let to = placed(rootfs, dirs[j]);
        libraries_stay_in_place(first, said, whole, said, dirs[j], to, root_libraries());
    }
    k + l
}

/// The place of an absolute path of the host in a root filesystem.
proof fn place_is_below_the_root(rootfs: Seq<char>, path: Seq<char>, text: Seq<char>)
    requires
        path == "/"@ + text,
        text.len() > 0,
        text[0] != '/',
    ensures
        placed(rootfs, path) == joined_path(rootfs, text),
{
    reveal_strlit("/");
    reveal_with_fuel(without_leading, 2);
    assert(path[0] == '/');
    assert(path.drop_first() =~= text);
}

proof fn preparation_passes(rootfs: Seq<char>, arch: Seq<char>, said: Seq<ContainerAnswer>) -> (k:
    int)
    requires
        minimal_progress(rootfs, arch, said) is Passed,
    ensures
        passes(preparation(rootfs, arch), said, k),
        forall|j: int|
            0 <= j < root_dirs().len() ==> given(
                preparation(rootfs, arch),
                said,
                ContainerAsk::CreateDirAll(joined_path(rootfs, #[trigger] root_dirs()[j])),
                ContainerAnswer::Done,
            ),
        forall|j: int|
            0 <= j < root_programs().len() ==> program_in_place(
                preparation(rootfs, arch),
                said,
                #[trigger] root_programs()[j],
                placed(rootfs, root_programs()[j]),
            ),
        forall|j: int|
            0 <= j < library_dirs(arch).len() ==> libraries_in_place(
                preparation(rootfs, arch),
                said,
                #[trigger] library_dirs(arch)[j],
                placed(rootfs, library_dirs(arch)[j]),
                root_libraries(),
            ),
        linker_in_place(
            preparation(rootfs, arch),
            said,
            linker(arch),
            placed(rootfs, linker(arch)),
        ),
{
    reveal(program_in_place);
    let whole = preparation(rootfs, arch);
    let first = dirs_at(rootfs, root_dirs());
    let programs = programs_at(rootfs, root_programs());
    let then = dependencies_at(rootfs, arch);
    let second = |s: Seq<ContainerAnswer>| follow(programs(s), then);
    let a = dirs_pass(rootfs, root_dirs(), said);
    part_leaves_the_rest(first, said, a);
    let rest = said.skip(a);
    let b = programs_pass(rootfs, root_programs(), rest);
    part_leaves_the_rest(programs, rest, b);
    let left = rest.skip(b);
    let c = dependencies_pass(rootfs, arch, left);
    assert(sequential(second, programs, then, rest));
    parts_follow_each_other(second, programs, then, rest, b, c);
    assert(sequential(whole, first, second, said));
    parts_follow_each_other(whole, first, second, said, a, b + c);
    assert(carries(programs, rest, whole, said));
    assert(carries(then, left, whole, said));
    linker_stays_in_place(then, left, whole, said, linker(arch), placed(rootfs, linker(arch)));
    assert forall|j: int| 0 <= j < library_dirs(arch).len() implies libraries_in_place(
        whole,
        said,
        #[trigger] library_dirs(arch)[j],
        placed(rootfs, library_dirs(arch)[j]),
        root_libraries(),
    ) by {
        let dir = library_dirs(arch)[j];
        let to = placed(rootfs, dir);
        libraries_stay_in_place(then, left, whole, said, dir, to, root_libraries());
    }
    a + b + c
}

/// Whether a directory was created in a root filesystem.
pub open spec fn has_directory(
    part: RootPart,
    said: Seq<ContainerAnswer>,
    rootfs: Seq<char>,
    dir: Seq<char>,
) -> bool {
    given(
        part,
        said,
        ContainerAsk::CreateDirAll(joined_path(rootfs, dir)),
        ContainerAnswer::Done,
    )
}

/// Whether a program of the host, whose path is `/` and `program`, has its place under the
/// same path in a root filesystem, if the host has it.
pub open spec fn has_program(
    part: RootPart,
    said: Seq<ContainerAnswer>,
    rootfs: Seq<char>,
    program: Seq<char>,
) -> bool {
    program_in_place(part, said, "/"@ + program, joined_path(rootfs, program))
}

/// Whether the C library and its companions in a directory of the host, whose path is `/`
/// and `dir`, have their places under the same path in a root filesystem.
pub open spec fn has_libraries(
    part: RootPart,
    said: Seq<ContainerAnswer>,
    rootfs: Seq<char>,
    dir: Seq<char>,
) -> bool {
    libraries_in_place(
        part,
        said,
        "/"@ + dir,
        joined_path(rootfs, dir),
        seq!["libc.so.6"@, "libdl.so.2"@, "libpthread.so.0"@, "libm.so.6"@],
    )
}

/// Whether the dynamic linker of the host, whose path is `/` and `path`, has its place under
/// the same path in a root filesystem.
pub open spec fn has_linker(
    part: RootPart,
    said: Seq<ContainerAnswer>,
    rootfs: Seq<char>,
    path: Seq<char>,
) -> bool {
    linker_in_place(part, said, "/"@ + path, joined_path(rootfs, path))
}

/// Whether a root filesystem for an architecture has the usual directories, the shell and a
/// few other programs of the host under their own paths, the libraries that they need, and
/// the dynamic linker of the architecture.
#[verifier::opaque]
pub open spec fn has_what_programs_need(
    part: RootPart,
    said: Seq<ContainerAnswer>,
    rootfs: Seq<char>,
    arch: Seq<char>,
) -> bool {
    &&& has_directory(part, said, rootfs, "bin"@)
    &&& has_directory(part, said, rootfs, "dev"@)
    &&& has_directory(part, said, rootfs, "etc"@)
    &&& has_directory(part, said, rootfs, "lib"@)
    &&& has_directory(part, said, rootfs, "lib64"@)
    &&& has_directory(part, said, rootfs, "proc"@)
    &&& has_directory(part, said, rootfs, "sys"@)
    &&& has_directory(part, said, rootfs, "tmp"@)
    &&& has_directory(part, said, rootfs, "usr/bin"@)
    &&& has_directory(part, said, rootfs, "usr/lib"@)
    &&& has_program(part, said, rootfs, "bin/sh"@)
    &&& has_program(part, said, rootfs, "bin/ls"@)
    &&& has_program(part, said, rootfs, "bin/cat"@)
    &&& has_program(part, said, rootfs, "bin/ps"@)
    &&& has_program(part, said, rootfs, "usr/bin/env"@)
    &&& has_libraries(part, said, rootfs, "lib64"@)
    &&& has_libraries(part, said, rootfs, "lib/"@ + arch_lib_dir(arch))
    &&& has_libraries(part, said, rootfs, "usr/lib/"@ + arch_lib_dir(arch))
    &&& arch == "x86_64"@ ==> has_linker(part, said, rootfs, "lib64/ld-linux-x86-64.so.2"@)
    &&& arch == "aarch64"@ ==> has_linker(part, said, rootfs, "lib/ld-linux-aarch64.so.1"@)
    &&& arch == "arm"@ ==> has_linker(part, said, rootfs, "lib/ld-linux-armhf.so.3"@)
}

/// A prepared root filesystem has what the programs in it need.
pub proof fn prepared_root_has_what_programs_need(
    rootfs: Seq<char>,
    arch: Seq<char>,
    said: Seq<ContainerAnswer>,
)
    requires
        minimal_progress(rootfs, arch, said) is Passed,
    ensures
        has_what_programs_need(preparation(rootfs, arch), said, rootfs, arch),
{
    let part = preparation(rootfs, arch);
    let k = preparation_passes(rootfs, arch, said);
    directories_are_there(part, said, rootfs);
    programs_have_their_places(part, said, rootfs);
    libraries_have_their_places(part, said, rootfs, arch);
    linker_has_its_place(part, said, rootfs, arch);
    assert(has_what_programs_need(part, said, rootfs, arch)) by {
        reveal(has_what_programs_need);
    }
}

proof fn directories_are_there(part: RootPart, said: Seq<ContainerAnswer>, rootfs: Seq<char>)
    requires
        forall|j: int|
            0 <= j < root_dirs().len() ==> given(
                part,
                said,
                ContainerAsk::CreateDirAll(joined_path(rootfs, #[trigger] root_dirs()[j])),
                ContainerAnswer::Done,
            ),
    ensures
        has_directory(part, said, rootfs, "bin"@),
        has_directory(part, said, rootfs, "dev"@),
        has_directory(part, said, rootfs, "etc"@),
        has_directory(part, said, rootfs, "lib"@),
        has_directory(part, said, rootfs, "lib64"@),
        has_directory(part, said, rootfs, "proc"@),
        has_directory(part, said, rootfs, "sys"@),
        has_directory(part, said, rootfs, "tmp"@),
        has_directory(part, said, rootfs, "usr/bin"@),
        has_directory(part, said, rootfs, "usr/lib"@),
{
    assert(root_dirs()[0] == "bin"@);
    assert(root_dirs()[1] == "dev"@);
    assert(root_dirs()[2] == "etc"@);
    assert(root_dirs()[3] == "lib"@);
    assert(root_dirs()[4] == "lib64"@);
    assert(root_dirs()[5] == "proc"@);
    assert(root_dirs()[6] == "sys"@);
    assert(root_dirs()[7] == "tmp"@);
    assert(root_dirs()[8] == "usr/bin"@);
    assert(root_dirs()[9] == "usr/lib"@);
}

proof fn program_has_its_place(
    part: RootPart,
    said: Seq<ContainerAnswer>,
    rootfs: Seq<char>,
    program: Seq<char>,
    j: int,
)
    requires
        program_in_place(part, said, root_programs()[j], placed(rootfs, root_programs()[j])),
        root_programs()[j] == "/"@ + program,
        program.len() > 0,
        program[0] != '/',
    ensures
        has_program(part, said, rootfs, program),
{
    place_is_below_the_root(rootfs, root_programs()[j], program);
}

proof fn programs_have_their_places(part: RootPart, said: Seq<ContainerAnswer>, rootfs: Seq<char>)
    requires
        forall|j: int|
            0 <= j < root_programs().len() ==> program_in_place(
                part,
                said,
                #[trigger] root_programs()[j],
                placed(rootfs, root_programs()[j]),
            ),
    ensures
        has_program(part, said, rootfs, "bin/sh"@),
        has_program(part, said, rootfs, "bin/ls"@),
        has_program(part, said, rootfs, "bin/cat"@),
        has_program(part, said, rootfs, "bin/ps"@),
        has_program(part, said, rootfs, "usr/bin/env"@),
{
    assert(root_programs()[0] == "/"@ + "bin/sh"@ && "bin/sh"@.len() > 0 && "bin/sh"@[0] != '/') by {
        reveal_strlit("/");
        reveal_strlit("/bin/sh");
        reveal_strlit("bin/sh");
        assert("/bin/sh"@ =~= "/"@ + "bin/sh"@);
    }
    program_has_its_place(part, said, rootfs, "bin/sh"@, 0);
    assert(root_programs()[1] == "/"@ + "bin/ls"@ && "bin/ls"@.len() > 0 && "bin/ls"@[0] != '/') by {
        reveal_strlit("/");
        reveal_strlit("/bin/ls");
        reveal_strlit("bin/ls");
        assert("/bin/ls"@ =~= "/"@ + "bin/ls"@);
    }
    program_has_its_place(part, said, rootfs, "bin/ls"@, 1);
    assert(root_programs()[2] == "/"@ + "bin/cat"@ && "bin/cat"@.len() > 0 && "bin/cat"@[0] != '/') by {
        reveal_strlit("/");
        reveal_strlit("/bin/cat");
        reveal_strlit("bin/cat");
        assert("/bin/cat"@ =~= "/"@ + "bin/cat"@);
    }
    program_has_its_place(part, said, rootfs, "bin/cat"@, 2);
    assert(root_programs()[3] == "/"@ + "bin/ps"@ && "bin/ps"@.len() > 0 && "bin/ps"@[0] != '/') by {
        reveal_strlit("/");
        reveal_strlit("/bin/ps");
        reveal_strlit("bin/ps");
        assert("/bin/ps"@ =~= "/"@ + "bin/ps"@);
    }
    program_has_its_place(part, said, rootfs, "bin/ps"@, 3);
    assert(root_programs()[4] == "/"@ + "usr/bin/env"@ && "usr/bin/env"@.len() > 0 && "usr/bin/env"@[0] != '/') by {
        reveal_strlit("/");
        reveal_strlit("/usr/bin/env");
        reveal_strlit("usr/bin/env");
        assert("/usr/bin/env"@ =~= "/"@ + "usr/bin/env"@);
    }
    program_has_its_place(part, said, rootfs, "usr/bin/env"@, 4);
}

proof fn libraries_have_their_places(
    part: RootPart,
    said: Seq<ContainerAnswer>,
    rootfs: Seq<char>,
    arch: Seq<char>,
)
    requires
        forall|j: int|
            0 <= j < library_dirs(arch).len() ==> libraries_in_place(
                part,
                said,
                #[trigger] library_dirs(arch)[j],
                placed(rootfs, library_dirs(arch)[j]),
                root_libraries(),
            ),
    ensures
        has_libraries(part, said, rootfs, "lib64"@),
        has_libraries(part, said, rootfs, "lib/"@ + arch_lib_dir(arch)),
        has_libraries(part, said, rootfs, "usr/lib/"@ + arch_lib_dir(arch)),
{
    let own = arch_lib_dir(arch);
    let dirs = library_dirs(arch);
    assert(dirs[0] == "/"@ + ("lib/"@ + own) && ("lib/"@ + own).len() > 0 && ("lib/"@ + own)[0]
        != '/') by {
        reveal_strlit("/");
        reveal_strlit("lib/");
        reveal_strlit("/lib/");
        assert("/lib/"@ + own =~= "/"@ + ("lib/"@ + own));
    }
    assert(dirs[1] == "/"@ + "lib64"@ && "lib64"@.len() > 0 && "lib64"@[0] != '/') by {
        reveal_strlit("/");
        reveal_strlit("lib64");
        reveal_strlit("/lib64");
        assert("/lib64"@ =~= "/"@ + "lib64"@);
    }
    assert(dirs[2] == "/"@ + ("usr/lib/"@ + own) && ("usr/lib/"@ + own).len() > 0 && ("usr/lib/"@
        + own)[0] != '/') by {
        reveal_strlit("/");
        reveal_strlit("usr/lib/");
        reveal_strlit("/usr/lib/");
        assert("/usr/lib/"@ + own =~= "/"@ + ("usr/lib/"@ + own));
    }
    place_is_below_the_root(rootfs, dirs[0], "lib/"@ + own);
    place_is_below_the_root(rootfs, dirs[1], "lib64"@);
    place_is_below_the_root(rootfs, dirs[2], "usr/lib/"@ + own);
}

proof fn linker_has_its_place(
    part: RootPart,
    said: Seq<ContainerAnswer>,
    rootfs: Seq<char>,
    arch: Seq<char>,
)
    requires
        linker_in_place(part, said, linker(arch), placed(rootfs, linker(arch))),
    ensures
        arch == "x86_64"@ ==> has_linker(part, said, rootfs, "lib64/ld-linux-x86-64.so.2"@),
        arch == "aarch64"@ ==> has_linker(part, said, rootfs, "lib/ld-linux-aarch64.so.1"@),
        arch == "arm"@ ==> has_linker(part, said, rootfs, "lib/ld-linux-armhf.so.3"@),
{
    if arch == "x86_64"@ {
        let path = "lib64/ld-linux-x86-64.so.2"@;
        assert(linker(arch) == "/"@ + path && path.len() > 0 && path[0] != '/') by {
            reveal_strlit("/");
            reveal_strlit("lib64/ld-linux-x86-64.so.2");
            reveal_strlit("/lib64/ld-linux-x86-64.so.2");
            assert("/lib64/ld-linux-x86-64.so.2"@ =~= "/"@ + path);
        }
        place_is_below_the_root(rootfs, linker(arch), path);
    } else if arch == "aarch64"@ {
        let path = "lib/ld-linux-aarch64.so.1"@;
        assert(linker(arch) == "/"@ + path && path.len() > 0 && path[0] != '/') by {
            reveal_strlit("/");
            reveal_strlit("lib/ld-linux-aarch64.so.1");
            reveal_strlit("/lib/ld-linux-aarch64.so.1");
            assert("/lib/ld-linux-aarch64.so.1"@ =~= "/"@ + path);
        }
        place_is_below_the_root(rootfs, linker(arch), path);
    } else if arch == "arm"@ {
        let path = "lib/ld-linux-armhf.so.3"@;
        assert(linker(arch) == "/"@ + path && path.len() > 0 && path[0] != '/') by {
            reveal_strlit("/");
            reveal_strlit("lib/ld-linux-armhf.so.3");
            reveal_strlit("/lib/ld-linux-armhf.so.3");
            assert("/lib/ld-linux-armhf.so.3"@ =~= "/"@ + path);
        }
        place_is_below_the_root(rootfs, linker(arch), path);
    }
    assert("x86_64"@ != "aarch64"@ && "x86_64"@ != "arm"@ && "aarch64"@ != "arm"@) by {
        reveal_strlit("x86_64");
        reveal_strlit("aarch64");
        reveal_strlit("arm");
        assert("x86_64"@.len() == 6);
        assert("aarch64"@.len() == 7);
        assert("arm"@.len() == 3);
    }
}

/// Whether a question belongs to the preparation of a root filesystem.
pub open spec fn is_preparing(ask: ContainerAsk) -> bool {
    match ask {
        ContainerAsk::Clone { .. } => false,
        ContainerAsk::WaitChild(_) => false,
        ContainerAsk::DetachMount(_) => false,
        ContainerAsk::RemoveDirAll(_) => false,
        _ => true,
    }
}

proof fn dirs_only_prepare(rootfs: Seq<char>, dirs: Seq<Seq<char>>, said: Seq<ContainerAnswer>)
    ensures
        dirs_progress(rootfs, dirs, said) matches Progress::Ask(ask) ==> is_preparing(ask),
    decreases dirs.len(),
{
    if dirs.len() > 0 && said.len() > 0 {
        dirs_only_prepare(rootfs, dirs.skip(1), said.skip(1));
    }
}

proof fn programs_only_prepare(
    rootfs: Seq<char>,
    programs: Seq<Seq<char>>,
    said: Seq<ContainerAnswer>,
)
    ensures
        programs_progress(rootfs, programs, said) matches Progress::Ask(ask) ==> is_preparing(ask),
    decreases programs.len(),
{
    if programs.len() > 0 {
        if let Progress::Passed(rest) = program_progress(rootfs, programs[0], said) {
            programs_only_prepare(rootfs, programs.skip(1), rest);
        }
    }
}

proof fn libraries_only_prepare(
    from: Seq<char>,
    dir: Seq<char>,
    libraries: Seq<Seq<char>>,
    said: Seq<ContainerAnswer>,
)
    ensures
        libraries_progress(from, dir, libraries, said) matches Progress::Ask(ask) ==> is_preparing(
            ask,
        ),
    decreases libraries.len(),
{
    if libraries.len() > 0 {
        if let Progress::Passed(rest) = library_progress(from, dir, libraries[0], said) {
            libraries_only_prepare(from, dir, libraries.skip(1), rest);
        }
    }
}

proof fn library_dirs_only_prepare(
    rootfs: Seq<char>,
    dirs: Seq<Seq<char>>,
    said: Seq<ContainerAnswer>,
)
    ensures
        library_dirs_progress(rootfs, dirs, said) matches Progress::Ask(ask) ==> is_preparing(ask),
    decreases dirs.len(),
{
    if dirs.len() > 0 {
        let dir = placed(rootfs, dirs[0]);
        if said.len() > 1 {
            libraries_only_prepare(dirs[0], dir, root_libraries(), said.skip(1).skip(1));
        }
        if let Progress::Passed(rest) = library_dir_progress(rootfs, dirs[0], said) {
            library_dirs_only_prepare(rootfs, dirs.skip(1), rest);
        }
    }
}

proof fn preparation_only_prepares(
    rootfs: Seq<char>,
    arch: Seq<char>,
    said: Seq<ContainerAnswer>,
)
    ensures
        minimal_progress(rootfs, arch, said) matches Progress::Ask(ask) ==> is_preparing(ask),
{
    dirs_only_prepare(rootfs, root_dirs(), said);
    if let Progress::Passed(rest) = dirs_progress(rootfs, root_dirs(), said) {
        programs_only_prepare(rootfs, root_programs(), rest);
        if let Progress::Passed(left) = programs_progress(rootfs, root_programs(), rest) {
            library_dirs_only_prepare(rootfs, library_dirs(arch), left);
        }
    }
}

/// The turns of the running of a container on Linux.
pub open spec fn run_turns(
    config: Config,
    rootfs: Seq<char>,
    owned: bool,
    arch: Seq<char>,
) -> spec_fn(Seq<ContainerAnswer>) -> Turn<ContainerAsk, int> {
    |said: Seq<ContainerAnswer>| run_turn(config, rootfs, owned, "linux"@, arch, said)
}

proof fn wait_does_not_clone(
    rootfs: Seq<char>,
    owned: bool,
    pid: i32,
    said: Seq<ContainerAnswer>,
)
    ensures
        wait_turn(rootfs, owned, pid, said) matches Turn::Ask(ask) ==> match ask {
            ContainerAsk::WaitChild(child) => child == pid,
            ContainerAsk::Exists(path) => owned && path == rootfs,
            ContainerAsk::DetachMount(path) => owned && path == rootfs,
            ContainerAsk::RemoveDirAll(path) => owned && path == rootfs,
            _ => false,
        },
    decreases said.len(),
{
    if said.len() > 0 {
        wait_does_not_clone(rootfs, owned, pid, said.skip(1));
    }
}

/// The process of a container is started in new namespaces of every kind, with the
/// configuration and the root filesystem of the container. A container without a root
/// filesystem of its own is started only when a temporary one has been prepared.
pub proof fn process_is_started_isolated(
    config: Config,
    rootfs: Seq<char>,
    owned: bool,
    arch: Seq<char>,
    said: Seq<ContainerAnswer>,
    ask: ContainerAsk,
)
    requires
        run_turn(config, rootfs, owned, "linux"@, arch, said) == Turn::<ContainerAsk, int>::Ask(
            ask,
        ),
        ask is Clone,
    ensures
        ask->Clone_config == config,
        ask->Clone_rootfs == rootfs,
        ask->namespaces.len() == 5,
        ask->namespaces.contains(Namespace::Pid),
        ask->namespaces.contains(Namespace::Mount),
        ask->namespaces.contains(Namespace::Uts),
        ask->namespaces.contains(Namespace::Ipc),
        ask->namespaces.contains(Namespace::Network),
        owned ==> has_what_programs_need(preparation(rootfs, arch), said, rootfs, arch),
{
    if owned {
        preparation_only_prepares(rootfs, arch, said);
        prepared_root_has_what_programs_need(rootfs, arch, said);
    }
    let rest = if owned {
        minimal_progress(rootfs, arch, said)->Passed_0
    } else {
        said
    };
    if rest.len() > 0 {
        if let ContainerAnswer::Pid(pid) = rest[0] {
            wait_does_not_clone(rootfs, owned, pid, rest.skip(1));
        }
    }
    let kinds = ask->namespaces;
    assert(kinds[0] == Namespace::Pid);
    assert(kinds[1] == Namespace::Mount);
    assert(kinds[2] == Namespace::Uts);
    assert(kinds[3] == Namespace::Ipc);
    assert(kinds[4] == Namespace::Network);
}

/// A container removes nothing but its own temporary root filesystem, and one with a
/// configured root filesystem does nothing but start its process and wait for it.
pub proof fn only_the_own_root_is_removed(
    config: Config,
    rootfs: Seq<char>,
    owned: bool,
    arch: Seq<char>,
    said: Seq<ContainerAnswer>,
)
    ensures
        run_turn(config, rootfs, owned, "linux"@, arch, said) matches Turn::Ask(ask) ==> {
            &&& ask matches ContainerAsk::RemoveDirAll(path) ==> owned && path == rootfs
            &&& ask matches ContainerAsk::DetachMount(path) ==> owned && path == rootfs
            &&& !owned ==> ask is Clone || ask is WaitChild
        },
{
    preparation_only_prepares(rootfs, arch, said);
    let rest = if owned {
        minimal_progress(rootfs, arch, said)->Passed_0
    } else {
        said
    };
    if rest.len() > 0 {
        if let ContainerAnswer::Pid(pid) = rest[0] {
            wait_does_not_clone(rootfs, owned, pid, rest.skip(1));
        }
    }
}

/// Whether the process with an id was awaited and ended with an exit code, or by a signal
/// that stands for it.
pub open spec fn ended_with(
    turns: spec_fn(Seq<ContainerAnswer>) -> Turn<ContainerAsk, int>,
    said: Seq<ContainerAnswer>,
    pid: i32,
    end: ContainerAnswer,
    code: int,
) -> bool {
    &&& answered(turns, said, ContainerAsk::WaitChild(pid), end)
    &&& match end {
        ContainerAnswer::Exited(status) => code == status,
        ContainerAnswer::Signaled(signal) => code == 128 + signal,
        _ => false,
    }
}

/// Whether the process of a container was started with an id.
pub open spec fn started_as(
    turns: spec_fn(Seq<ContainerAnswer>) -> Turn<ContainerAsk, int>,
    said: Seq<ContainerAnswer>,
    config: Config,
    rootfs: Seq<char>,
    namespaces: Seq<Namespace>,
    pid: i32,
) -> bool {
    answered(
        turns,
        said,
        ContainerAsk::Clone { config, rootfs, namespaces },
        ContainerAnswer::Pid(pid),
    )
}

spec fn waiting(rootfs: Seq<char>, owned: bool, pid: i32) -> spec_fn(Seq<ContainerAnswer>) -> Turn<
    ContainerAsk,
    int,
> {
    |said: Seq<ContainerAnswer>| wait_turn(rootfs, owned, pid, said)
}

/// Whether a temporary root filesystem is gone.
pub open spec fn root_is_gone(
    turns: spec_fn(Seq<ContainerAnswer>) -> Turn<ContainerAsk, int>,
    said: Seq<ContainerAnswer>,
    rootfs: Seq<char>,
) -> bool {
    ||| answered(turns, said, ContainerAsk::Exists(rootfs), ContainerAnswer::Exists(false))
    ||| answered(turns, said, ContainerAsk::RemoveDirAll(rootfs), ContainerAnswer::Done)
}

/// What was asked in the wait for a process was asked in the longer wait that began
/// earlier.
proof fn later_turns_are_turns<T>(
    outer: spec_fn(Seq<ContainerAnswer>) -> Turn<ContainerAsk, T>,
    inner: spec_fn(Seq<ContainerAnswer>) -> Turn<ContainerAsk, T>,
    said: Seq<ContainerAnswer>,
    k: int,
    ask: ContainerAsk,
    answer: ContainerAnswer,
)
    requires
        0 <= k <= said.len(),
        forall|i: int|
            k <= i <= said.len() ==> outer(#[trigger] said.take(i)) == inner(
                said.take(i).skip(k),
            ),
        answered(inner, said.skip(k), ask, answer),
    ensures
        answered(outer, said, ask, answer),
{
    let rest = said.skip(k);
    let j = choose|j: int| answered_at(inner, rest, j, ask, answer);
    assert(said.take(k + j).skip(k) =~= rest.take(j));
    assert(answered_at(outer, said, k + j, ask, answer));
}

proof fn awaited_process_ended(
    rootfs: Seq<char>,
    owned: bool,
    pid: i32,
    said: Seq<ContainerAnswer>,
    code: int,
) -> (end: ContainerAnswer)
    requires
        wait_turn(rootfs, owned, pid, said) == Turn::<ContainerAsk, int>::Done(code),
    ensures
        ended_with(waiting(rootfs, owned, pid), said, pid, end, code),
        owned ==> root_is_gone(waiting(rootfs, owned, pid), said, rootfs),
    decreases said.len(),
{
    let turns = waiting(rootfs, owned, pid);
    let rest = said.skip(1);
    let first = said[0];
    let wait = ContainerAsk::WaitChild(pid);
    assert(said.take(0).len() == 0);
    assert(answered_at(turns, said, 0, wait, first));
    if first is Changed || first is Interrupted {
        let end = awaited_process_ended(rootfs, owned, pid, rest, code);
        assert forall|i: int| 1 <= i <= said.len() implies turns(#[trigger] said.take(i)) == turns(
            said.take(i).skip(1),
        ) by {
            assert(said.take(i)[0] == first);
        }
        wait_is_part_of_the_run(turns, turns, said, 1, rootfs, owned, pid, end, code);
        end
    } else {
        if owned {
            let remove = ContainerAsk::RemoveDirAll(rootfs);
            assert(rest[0] == said[1]);
            assert(said.take(1)[0] == first);
            assert(said.take(1).skip(1).len() == 0);
            if said[1] == ContainerAnswer::Exists(false) {
                assert(answered_at(
                    turns,
                    said,
                    1,
                    ContainerAsk::Exists(rootfs),
                    ContainerAnswer::Exists(false),
                ));
            } else {
                assert(rest[1] == said[2]);
                assert(rest[2] == said[3]);
                let s = said.take(3);
                assert(s[0] == first);
                assert(s.skip(1)[0] == said[1]);
                assert(s.skip(1)[1] == said[2]);
                assert(answered_at(turns, said, 3, remove, ContainerAnswer::Done));
            }
        }
        first
    }
}

spec fn preparing(rootfs: Seq<char>, owned: bool, arch: Seq<char>) -> RootPart {
    |said: Seq<ContainerAnswer>| prepare_progress(rootfs, owned, arch, said)
}

proof fn preparing_passes(
    rootfs: Seq<char>,
    owned: bool,
    arch: Seq<char>,
    said: Seq<ContainerAnswer>,
) -> (k: int)
    requires
        prepare_progress(rootfs, owned, arch, said) is Passed,
    ensures
        passes(preparing(rootfs, owned, arch), said, k),
{
    let whole = preparing(rootfs, owned, arch);
    if owned {
        assert(whole =~= preparation(rootfs, arch));
        preparation_passes(rootfs, arch, said)
    } else {
        assert(whole =~= nothing());
        nothing_passes(said);
        0
    }
}

/// The turns of the running of a container are those of the preparation, the start and
/// the wait.
proof fn run_goes_on(
    config: Config,
    rootfs: Seq<char>,
    owned: bool,
    arch: Seq<char>,
    said: Seq<ContainerAnswer>,
    k: int,
    i: int,
)
    requires
        passes(preparing(rootfs, owned, arch), said, k),
        k <= i <= said.len(),
    ensures
        i == k ==> run_turns(config, rootfs, owned, arch)(said.take(i)) == Turn::<
            ContainerAsk,
            int,
        >::Ask(ContainerAsk::Clone { config, rootfs, namespaces: CONTAINER_NAMESPACES@ }),
        i > k && said[k] is Pid ==> run_turns(config, rootfs, owned, arch)(said.take(i))
            == wait_turn(rootfs, owned, said[k]->Pid_0, said.take(i).skip(k + 1)),
{
    let s = said.take(i);
    assert(preparing(rootfs, owned, arch)(s) == ContainerProgress::Passed(s.skip(k)));
    assert(prepare_progress(rootfs, owned, arch, s) == ContainerProgress::Passed(s.skip(k)));
    if i > k {
        assert(s.skip(k)[0] == said[k]);
        assert(s.skip(k).skip(1) =~= s.skip(k + 1));
    }
}

/// The exit code of a container is that of the process that was started for it, or 128
/// more than the number of the signal that ended the process. A temporary root filesystem
/// is gone then.
pub proof fn exit_code_is_that_of_the_started_process(
    config: Config,
    rootfs: Seq<char>,
    owned: bool,
    arch: Seq<char>,
    said: Seq<ContainerAnswer>,
    code: int,
)
    requires
        run_turn(config, rootfs, owned, "linux"@, arch, said) == Turn::<ContainerAsk, int>::Done(
            code,
        ),
    ensures
        exists|namespaces: Seq<Namespace>, pid: i32, end: ContainerAnswer|
            #![trigger started_as(
                run_turns(config, rootfs, owned, arch),
                said,
                config,
                rootfs,
                namespaces,
                pid,
            ), ended_with(
                run_turns(config, rootfs, owned, arch),
                said,
                pid,
                end,
                code,
            )]
            started_as(
                run_turns(config, rootfs, owned, arch),
                said,
                config,
                rootfs,
                namespaces,
                pid,
            ) && ended_with(run_turns(config, rootfs, owned, arch), said, pid, end, code),
        owned ==> root_is_gone(run_turns(config, rootfs, owned, arch), said, rootfs),
{
    let turns = run_turns(config, rootfs, owned, arch);
    let k = preparing_passes(rootfs, owned, arch, said);
    part_leaves_the_rest(preparing(rootfs, owned, arch), said, k);
    assert(said.skip(k)[0] == said[k]);
    let pid = said[k]->Pid_0;
    run_goes_on(config, rootfs, owned, arch, said, k, k);
    run_goes_on(config, rootfs, owned, arch, said, k, said.len() as int);
    assert(said.take(said.len() as int) =~= said);
    let later = said.skip(k + 1);
    let end = awaited_process_ended(rootfs, owned, pid, later, code);
    let inner = waiting(rootfs, owned, pid);
    assert forall|i: int| k + 1 <= i <= said.len() implies turns(#[trigger] said.take(i)) == inner(
        said.take(i).skip(k + 1),
    ) by {
        run_goes_on(config, rootfs, owned, arch, said, k, i);
    }
    wait_is_part_of_the_run(turns, inner, said, k + 1, rootfs, owned, pid, end, code);
    let kinds = CONTAINER_NAMESPACES@;
    let clone = ContainerAsk::Clone { config, rootfs, namespaces: kinds };
    assert(answered_at(turns, said, k, clone, ContainerAnswer::Pid(pid)));
    assert(started_as(turns, said, config, rootfs, kinds, pid));
}

proof fn wait_is_part_of_the_run(
    turns: spec_fn(Seq<ContainerAnswer>) -> Turn<ContainerAsk, int>,
    inner: spec_fn(Seq<ContainerAnswer>) -> Turn<ContainerAsk, int>,
    said: Seq<ContainerAnswer>,
    k: int,
    rootfs: Seq<char>,
    owned: bool,
    pid: i32,
    end: ContainerAnswer,
    code: int,
)
    requires
        0 <= k <= said.len(),
        forall|i: int|
            k <= i <= said.len() ==> turns(#[trigger] said.take(i)) == inner(
                said.take(i).skip(k),
            ),
        ended_with(inner, said.skip(k), pid, end, code),
        owned ==> root_is_gone(inner, said.skip(k), rootfs),
    ensures
        ended_with(turns, said, pid, end, code),
        owned ==> root_is_gone(turns, said, rootfs),
{
    let later = said.skip(k);
    let absent = ContainerAnswer::Exists(false);
    let done = ContainerAnswer::Done;
    let question = ContainerAsk::Exists(rootfs);
    let remove = ContainerAsk::RemoveDirAll(rootfs);
    later_turns_are_turns(turns, inner, said, k, ContainerAsk::WaitChild(pid), end);
    if answered(inner, later, question, absent) {
        later_turns_are_turns(turns, inner, said, k, question, absent);
    } else if answered(inner, later, remove, done) {
        later_turns_are_turns(turns, inner, said, k, remove, done);
    }
}

/// A configured root filesystem is used as it is; a temporary one has the id of the
/// container in its path, so that no two containers share one.
pub proof fn temporary_roots_are_not_shared(a: Seq<char>, b: Seq<char>, path: Seq<char>)
    ensures
        rootfs_of(a, Some(path)) == path,
        rootfs_of(a, None) == "/tmp/crate-"@ + a,
        a != b ==> rootfs_of(a, None) != rootfs_of(b, None),
{
    let prefix = "/tmp/crate-"@;
    if prefix + a == prefix + b {
        assert((prefix + a).skip(prefix.len() as int) =~= a);
        assert((prefix + b).skip(prefix.len() as int) =~= b);
    }
}

/// Whether an answer is a reason for a container not to run: what the host was asked to do
/// failed, or a library has a name that cannot be used. A library that leads to no file is
/// passed over, and so is an unmount that fails.
pub open spec fn is_cause(ask: ContainerAsk, answer: ContainerAnswer) -> bool {
    match ask {
        ContainerAsk::Canonicalize(_) => match answer {
            ContainerAnswer::Path(file) => file_name(file) is None,
            ContainerAnswer::NotUnicode(_) => true,
            _ => false,
        },
        ContainerAsk::DetachMount(_) => false,
        _ => answer is Failed,
    }
}

/// Whether a part of the preparation met a reason not to go on.
pub open spec fn has_cause(part: RootPart, said: Seq<ContainerAnswer>) -> bool {
    exists|ask: ContainerAsk, answer: ContainerAnswer| #[trigger]
        given(part, said, ask, answer) && is_cause(ask, answer)
}

spec fn halts(progress: ContainerProgress) -> bool {
    progress is Halt && progress->Halt_0 != Halt::Stray
}

proof fn cause_in_the_first(
    whole: RootPart,
    first: RootPart,
    second: RootPart,
    said: Seq<ContainerAnswer>,
)
    requires
        sequential(whole, first, second, said),
        has_cause(first, said),
    ensures
        has_cause(whole, said),
{
    let (ask, answer) = choose|ask: ContainerAsk, answer: ContainerAnswer| #[trigger]
        given(first, said, ask, answer) && is_cause(ask, answer);
    given_in_the_first(whole, first, second, said, ask, answer);
}

proof fn cause_in_the_second(
    whole: RootPart,
    first: RootPart,
    second: RootPart,
    said: Seq<ContainerAnswer>,
    k: int,
)
    requires
        sequential(whole, first, second, said),
        passes(first, said, k),
        has_cause(second, said.skip(k)),
    ensures
        has_cause(whole, said),
{
    let (ask, answer) = choose|ask: ContainerAsk, answer: ContainerAnswer| #[trigger]
        given(second, said.skip(k), ask, answer) && is_cause(ask, answer);
    given_in_the_second(whole, first, second, said, k, ask, answer);
}

proof fn cause_after_a_question(whole: RootPart, second: RootPart, said: Seq<ContainerAnswer>)
    requires
        said.len() > 0,
        forall|i: int|
            1 <= i <= said.len() ==> whole(#[trigger] said.take(i)) == second(
                said.take(i).skip(1),
            ),
        has_cause(second, said.skip(1)),
    ensures
        has_cause(whole, said),
{
    let rest = said.skip(1);
    let (ask, answer) = choose|ask: ContainerAsk, answer: ContainerAnswer| #[trigger]
        given(second, rest, ask, answer) && is_cause(ask, answer);
    let j = choose|j: int| given_at(second, rest, j, ask, answer);
    assert(said.take(j + 1).skip(1) =~= rest.take(j));
    assert(given_at(whole, said, j + 1, ask, answer));
    assert(given(whole, said, ask, answer));
}

proof fn act_halts_for_cause(
    ask: ContainerAsk,
    report: Option<Seq<char>>,
    said: Seq<ContainerAnswer>,
)
    requires
        halts(act_progress(ask, report, said)),
        !(ask is Canonicalize),
        !(ask is DetachMount),
    ensures
        has_cause(act(ask, report), said),
{
    assert(said.take(0).len() == 0);
    assert(given_at(act(ask, report), said, 0, ask, said[0]));
    assert(given(act(ask, report), said, ask, said[0]));
}

proof fn unless_halts_for_cause(
    question: ContainerAsk,
    ask: ContainerAsk,
    report: Option<Seq<char>>,
    said: Seq<ContainerAnswer>,
)
    requires
        halts(unless_progress(question, ask, report, said)),
        !(ask is Canonicalize),
        !(ask is DetachMount),
    ensures
        has_cause(unless(question, ask, report), said),
{
    let whole = unless(question, ask, report);
    let second = act(ask, report);
    act_halts_for_cause(ask, report, said.skip(1));
    assert forall|i: int| 1 <= i <= said.len() implies whole(#[trigger] said.take(i)) == second(
        said.take(i).skip(1),
    ) by {
        assert(said.take(i)[0] == said[0]);
    }
    cause_after_a_question(whole, second, said);
}

proof fn parent_halts_for_cause(path: Seq<char>, said: Seq<ContainerAnswer>)
    requires
        halts(parent_progress(path, said)),
    ensures
        has_cause(parent_at(path), said),
{
    let ask = ContainerAsk::CreateDirAll(parent(path)->Some_0);
    act_halts_for_cause(ask, None, said);
    assert(parent_at(path) =~= act(ask, None));
}

proof fn dirs_halt_for_cause(rootfs: Seq<char>, dirs: Seq<Seq<char>>, said: Seq<ContainerAnswer>)
    requires
        halts(dirs_progress(rootfs, dirs, said)),
    ensures
        has_cause(dirs_at(rootfs, dirs), said),
    decreases dirs.len(),
{
    let whole = dirs_at(rootfs, dirs);
    let ask = ContainerAsk::CreateDirAll(joined_path(rootfs, dirs[0]));
    let report = Some("Failed to create "@ + dirs[0] + ": "@);
    let first = act(ask, report);
    let second = dirs_at(rootfs, dirs.skip(1));
    assert(sequential(whole, first, second, said));
    if halts(first(said)) {
        act_halts_for_cause(ask, report, said);
        cause_in_the_first(whole, first, second, said);
    } else {
        act_passes(ask, report, said);
        let k = 1int;
        part_leaves_the_rest(first, said, k);
        dirs_halt_for_cause(rootfs, dirs.skip(1), said.skip(k));
        cause_in_the_second(whole, first, second, said, k);
    }
}

proof fn program_halts_for_cause(rootfs: Seq<char>, program: Seq<char>, said: Seq<ContainerAnswer>)
    requires
        halts(program_progress(rootfs, program, said)),
    ensures
        has_cause(program_at(rootfs, program), said),
{
    let whole = program_at(rootfs, program);
    let to = placed(rootfs, program);
    let rest = said.skip(1);
    let copy = ContainerAsk::Copy { from: program, to };
    let report = Some("Failed to copy "@ + program + ": "@);
    let first = parent_at(to);
    let then = unless(ContainerAsk::Exists(to), copy, report);
    let second = |s: Seq<ContainerAnswer>| follow(first(s), then);
    assert(sequential(second, first, then, rest));
    if halts(first(rest)) {
        parent_halts_for_cause(to, rest);
        cause_in_the_first(second, first, then, rest);
    } else {
        let k = parent_passes(to, rest);
        part_leaves_the_rest(first, rest, k);
        unless_halts_for_cause(ContainerAsk::Exists(to), copy, report, rest.skip(k));
        cause_in_the_second(second, first, then, rest, k);
    }
    assert forall|i: int| 1 <= i <= said.len() implies whole(#[trigger] said.take(i)) == second(
        said.take(i).skip(1),
    ) by {
        assert(said.take(i)[0] == said[0]);
    }
    cause_after_a_question(whole, second, said);
}

proof fn programs_halt_for_cause(
    rootfs: Seq<char>,
    programs: Seq<Seq<char>>,
    said: Seq<ContainerAnswer>,
)
    requires
        halts(programs_progress(rootfs, programs, said)),
    ensures
        has_cause(programs_at(rootfs, programs), said),
    decreases programs.len(),
{
    let whole = programs_at(rootfs, programs);
    let first = program_at(rootfs, programs[0]);
    let second = programs_at(rootfs, programs.skip(1));
    assert(sequential(whole, first, second, said));
    if halts(first(said)) {
        program_halts_for_cause(rootfs, programs[0], said);
        cause_in_the_first(whole, first, second, said);
    } else {
        let k = program_passes(rootfs, programs[0], said);
        part_leaves_the_rest(first, said, k);
        programs_halt_for_cause(rootfs, programs.skip(1), said.skip(k));
        cause_in_the_second(whole, first, second, said, k);
    }
}

proof fn naming_halts_for_cause(
    name: Seq<char>,
    dir: Seq<char>,
    library: Seq<char>,
    said: Seq<ContainerAnswer>,
)
    requires
        halts(naming_progress(name, dir, library, said)),
    ensures
        has_cause(naming_at(name, dir, library), said),
{
    let link = joined_path(dir, library);
    let question = ContainerAsk::Exists(link);
    let ask = ContainerAsk::Symlink { target: name, link };
    unless_halts_for_cause(question, ask, None, said);
    assert(naming_at(name, dir, library) =~= unless(question, ask, None));
}

/// The copying of a library under a name halts for cause.
proof fn placing_halts_for_cause(
    whole: RootPart,
    ask: ContainerAsk,
    name: Seq<char>,
    dir: Seq<char>,
    library: Seq<char>,
    said: Seq<ContainerAnswer>,
)
    requires
        ask is Copy || ask is CopyFound,
        halts(whole(said)),
        sequential(
            whole,
            unless(ContainerAsk::Exists(joined_path(dir, name)), ask, None),
            naming_at(name, dir, library),
            said,
        ),
    ensures
        has_cause(whole, said),
{
    let question = ContainerAsk::Exists(joined_path(dir, name));
    let first = unless(question, ask, None);
    let second = naming_at(name, dir, library);
    assert(said.take(said.len() as int) =~= said);
    if halts(first(said)) {
        unless_halts_for_cause(question, ask, None, said);
        cause_in_the_first(whole, first, second, said);
    } else {
        let k = unless_passes(question, ask, None, said);
        part_leaves_the_rest(first, said, k);
        naming_halts_for_cause(name, dir, library, said.skip(k));
        cause_in_the_second(whole, first, second, said, k);
    }
}

proof fn found_halts_for_cause(
    from: Seq<char>,
    dir: Seq<char>,
    library: Seq<char>,
    said: Seq<ContainerAnswer>,
)
    requires
        said.len() > 0,
        said[0] is Path || said[0] is Named || said[0] is NotUnicode || said[0] is Failed,
        halts(found_at(from, dir, library)(said)),
    ensures
        has_cause(found_at(from, dir, library), said),
{
    let whole = found_at(from, dir, library);
    let question = ContainerAsk::Canonicalize(joined_path(from, library));
    let rest = said.skip(1);
    assert(said.take(0).len() == 0);
    assert(given_at(whole, said, 0, question, said[0]));
    assert(given(whole, said, question, said[0]));
    if let ContainerAnswer::Path(file) = said[0] {
        if file_name(file) is Some {
            let name = file_name(file)->Some_0;
            let to = joined_path(dir, name);
            let second = resolved_at(file, dir, library);
            let ask = ContainerAsk::Copy { from: file, to };
            assert(sequential(
                second,
                unless(ContainerAsk::Exists(to), ask, None),
                naming_at(name, dir, library),
                rest,
            ));
            placing_halts_for_cause(second, ask, name, dir, library, rest);
            assert forall|i: int| 1 <= i <= said.len() implies whole(#[trigger] said.take(i))
                == second(said.take(i).skip(1)) by {
                assert(said.take(i)[0] == said[0]);
            }
            cause_after_a_question(whole, second, said);
        }
    } else if let ContainerAnswer::Named(name) = said[0] {
        let to = joined_path(dir, name);
        let second = named_at(name, dir, library);
        let ask = ContainerAsk::CopyFound { to };
        assert(sequential(
            second,
            unless(ContainerAsk::Exists(to), ask, None),
            naming_at(name, dir, library),
            rest,
        ));
        placing_halts_for_cause(second, ask, name, dir, library, rest);
        assert forall|i: int| 1 <= i <= said.len() implies whole(#[trigger] said.take(i)) == second(
            said.take(i).skip(1),
        ) by {
            assert(said.take(i)[0] == said[0]);
        }
        cause_after_a_question(whole, second, said);
    }
}

proof fn library_halts_for_cause(
    from: Seq<char>,
    dir: Seq<char>,
    library: Seq<char>,
    said: Seq<ContainerAnswer>,
)
    requires
        halts(library_progress(from, dir, library, said)),
    ensures
        has_cause(library_at(from, dir, library), said),
{
    let outer = library_at(from, dir, library);
    let inner = found_at(from, dir, library);
    let rest = said.skip(2);
    assert(said.len() > 2);
    assert(rest[0] == said[2]);
    assert(rest.skip(1) =~= said.skip(3));
    found_halts_for_cause(from, dir, library, rest);
    let (ask, answer) = choose|ask: ContainerAsk, answer: ContainerAnswer| #[trigger]
        given(inner, rest, ask, answer) && is_cause(ask, answer);
    let j = choose|j: int| given_at(inner, rest, j, ask, answer);
    let s = said.take(j + 2);
    assert(s.skip(2) =~= rest.take(j));
    assert(s[0] == said[0]);
    assert(s[1] == said[1]);
    if j > 0 {
        assert(s[2] == said[2]);
        assert(rest.take(j)[0] == said[2]);
        assert(rest.take(j).skip(1) =~= s.skip(3));
    }
    assert(given_at(outer, said, j + 2, ask, answer));
    assert(given(outer, said, ask, answer));
}

proof fn libraries_halt_for_cause(
    from: Seq<char>,
    dir: Seq<char>,
    libraries: Seq<Seq<char>>,
    said: Seq<ContainerAnswer>,
)
    requires
        halts(libraries_progress(from, dir, libraries, said)),
    ensures
        has_cause(libraries_at(from, dir, libraries), said),
    decreases libraries.len(),
{
    let whole = libraries_at(from, dir, libraries);
    let first = library_at(from, dir, libraries[0]);
    let second = libraries_at(from, dir, libraries.skip(1));
    assert(sequential(whole, first, second, said));
    if halts(first(said)) {
        library_halts_for_cause(from, dir, libraries[0], said);
        cause_in_the_first(whole, first, second, said);
    } else {
        let k = library_passes(from, dir, libraries[0], said);
        part_leaves_the_rest(first, said, k);
        libraries_halt_for_cause(from, dir, libraries.skip(1), said.skip(k));
        cause_in_the_second(whole, first, second, said, k);
    }
}

proof fn library_dir_halts_for_cause(rootfs: Seq<char>, from: Seq<char>, said: Seq<ContainerAnswer>)
    requires
        halts(library_dir_progress(rootfs, from, said)),
    ensures
        has_cause(library_dir_at(rootfs, from), said),
{
    let whole = library_dir_at(rootfs, from);
    let dir = placed(rootfs, from);
    let rest = said.skip(1);
    let ask = ContainerAsk::CreateDirAll(dir);
    let first = act(ask, None);
    let then = libraries_at(from, dir, root_libraries());
    let second = |s: Seq<ContainerAnswer>| follow(first(s), then);
    assert(sequential(second, first, then, rest));
    if halts(first(rest)) {
        act_halts_for_cause(ask, None, rest);
        cause_in_the_first(second, first, then, rest);
    } else {
        act_passes(ask, None, rest);
        part_leaves_the_rest(first, rest, 1);
        libraries_halt_for_cause(from, dir, root_libraries(), rest.skip(1));
        cause_in_the_second(second, first, then, rest, 1);
    }
    assert forall|i: int| 1 <= i <= said.len() implies whole(#[trigger] said.take(i)) == second(
        said.take(i).skip(1),
    ) by {
        assert(said.take(i)[0] == said[0]);
    }
    cause_after_a_question(whole, second, said);
}

proof fn library_dirs_halt_for_cause(
    rootfs: Seq<char>,
    dirs: Seq<Seq<char>>,
    said: Seq<ContainerAnswer>,
)
    requires
        halts(library_dirs_progress(rootfs, dirs, said)),
    ensures
        has_cause(library_dirs_at(rootfs, dirs), said),
    decreases dirs.len(),
{
    let whole = library_dirs_at(rootfs, dirs);
    let first = library_dir_at(rootfs, dirs[0]);
    let second = library_dirs_at(rootfs, dirs.skip(1));
    assert(sequential(whole, first, second, said));
    if halts(first(said)) {
        library_dir_halts_for_cause(rootfs, dirs[0], said);
        cause_in_the_first(whole, first, second, said);
    } else {
        let k = library_dir_passes(rootfs, dirs[0], said);
        part_leaves_the_rest(first, said, k);
        library_dirs_halt_for_cause(rootfs, dirs.skip(1), said.skip(k));
        cause_in_the_second(whole, first, second, said, k);
    }
}

proof fn place_linker_halts_for_cause(from: Seq<char>, to: Seq<char>, said: Seq<ContainerAnswer>)
    requires
        halts(place_linker_progress(from, to, said)),
    ensures
        has_cause(place_linker_at(from, to), said),
{
    let whole = place_linker_at(from, to);
    let copy = if let ContainerAnswer::Path(file) = said[1] {
        ContainerAsk::Copy { from: file, to }
    } else {
        ContainerAsk::CopyFound { to }
    };
    assert(said.len() > 2);
    assert(said.skip(2)[0] == said[2]);
    let s = said.take(2);
    assert(s[0] == said[0]);
    assert(s[1] == said[1]);
    assert(s.skip(2).len() == 0);
    assert(given_at(whole, said, 2, copy, said[2]));
    assert(given(whole, said, copy, said[2]));
}

proof fn linker_halts_for_cause(rootfs: Seq<char>, from: Seq<char>, said: Seq<ContainerAnswer>)
    requires
        halts(linker_progress(rootfs, from, said)),
    ensures
        has_cause(linker_at(rootfs, from), said),
{
    let whole = linker_at(rootfs, from);
    let to = placed(rootfs, from);
    let rest = said.skip(1);
    let first = parent_at(to);
    let then = place_linker_at(from, to);
    let second = |s: Seq<ContainerAnswer>| follow(first(s), then);
    assert(sequential(second, first, then, rest));
    if halts(first(rest)) {
        parent_halts_for_cause(to, rest);
        cause_in_the_first(second, first, then, rest);
    } else {
        let k = parent_passes(to, rest);
        part_leaves_the_rest(first, rest, k);
        place_linker_halts_for_cause(from, to, rest.skip(k));
        cause_in_the_second(second, first, then, rest, k);
    }
    assert forall|i: int| 1 <= i <= said.len() implies whole(#[trigger] said.take(i)) == second(
        said.take(i).skip(1),
    ) by {
        assert(said.take(i)[0] == said[0]);
    }
    cause_after_a_question(whole, second, said);
}

proof fn dependencies_halt_for_cause(rootfs: Seq<char>, arch: Seq<char>, said: Seq<ContainerAnswer>)
    requires
        halts(dependencies_progress(rootfs, arch, said)),
    ensures
        has_cause(dependencies_at(rootfs, arch), said),
{
    let whole = dependencies_at(rootfs, arch);
    let dirs = library_dirs(arch);
    let first = library_dirs_at(rootfs, dirs);
    let second = linker_at(rootfs, linker(arch));
    assert(sequential(whole, first, second, said));
    if halts(first(said)) {
        library_dirs_halt_for_cause(rootfs, dirs, said);
        cause_in_the_first(whole, first, second, said);
    } else {
        let k = library_dirs_pass(rootfs, dirs, said);
        part_leaves_the_rest(first, said, k);
        linker_halts_for_cause(rootfs, linker(arch), said.skip(k));
        cause_in_the_second(whole, first, second, said, k);
    }
}

/// The preparation of a root filesystem fails only for cause: something that the host was
/// asked to do failed, or a library has a name that cannot be used.
pub proof fn preparation_fails_only_for_cause(
    rootfs: Seq<char>,
    arch: Seq<char>,
    said: Seq<ContainerAnswer>,
)
    requires
        minimal_progress(rootfs, arch, said) is Halt,
        minimal_progress(rootfs, arch, said)->Halt_0 != Halt::Stray,
    ensures
        has_cause(preparation(rootfs, arch), said),
{
    let whole = preparation(rootfs, arch);
    let first = dirs_at(rootfs, root_dirs());
    let programs = programs_at(rootfs, root_programs());
    let then = dependencies_at(rootfs, arch);
    let second = |s: Seq<ContainerAnswer>| follow(programs(s), then);
    assert(sequential(whole, first, second, said));
    if halts(first(said)) {
        dirs_halt_for_cause(rootfs, root_dirs(), said);
        cause_in_the_first(whole, first, second, said);
    } else {
        let a = dirs_pass(rootfs, root_dirs(), said);
        part_leaves_the_rest(first, said, a);
        let rest = said.skip(a);
        assert(sequential(second, programs, then, rest));
        if halts(programs(rest)) {
            programs_halt_for_cause(rootfs, root_programs(), rest);
            cause_in_the_first(second, programs, then, rest);
        } else {
            let b = programs_pass(rootfs, root_programs(), rest);
            part_leaves_the_rest(programs, rest, b);
            dependencies_halt_for_cause(rootfs, arch, rest.skip(b));
            cause_in_the_second(second, programs, then, rest, b);
        }
        cause_in_the_second(whole, first, second, said, a);
    }
}

/// Whether the running of a container met a reason not to go on.
pub open spec fn run_has_cause(
    turns: spec_fn(Seq<ContainerAnswer>) -> Turn<ContainerAsk, int>,
    said: Seq<ContainerAnswer>,
) -> bool {
    exists|ask: ContainerAsk, answer: ContainerAnswer| #[trigger]
        answered(turns, said, ask, answer) && is_cause(ask, answer)
}

proof fn wait_fails_only_for_cause(
    rootfs: Seq<char>,
    owned: bool,
    pid: i32,
    said: Seq<ContainerAnswer>,
)
    requires
        wait_turn(rootfs, owned, pid, said) is Fail || wait_turn(rootfs, owned, pid, said) is Rethrow,
    ensures
        run_has_cause(waiting(rootfs, owned, pid), said),
    decreases said.len(),
{
    let turns = waiting(rootfs, owned, pid);
    let rest = said.skip(1);
    let first = said[0];
    let wait = ContainerAsk::WaitChild(pid);
    assert(said.take(0).len() == 0);
    assert(answered_at(turns, said, 0, wait, first));
    assert(answered(turns, said, wait, first));
    if first is Changed || first is Interrupted {
        wait_fails_only_for_cause(rootfs, owned, pid, rest);
        let (ask, answer) = choose|ask: ContainerAsk, answer: ContainerAnswer| #[trigger]
            answered(turns, rest, ask, answer) && is_cause(ask, answer);
        assert forall|i: int| 1 <= i <= said.len() implies turns(#[trigger] said.take(i)) == turns(
            said.take(i).skip(1),
        ) by {
            assert(said.take(i)[0] == first);
        }
        later_turns_are_turns(turns, turns, said, 1, ask, answer);
    } else if !(first is Failed) {
        let remove = ContainerAsk::RemoveDirAll(rootfs);
        assert(rest[0] == said[1] && rest[1] == said[2] && rest[2] == said[3]);
        let s = said.take(3);
        assert(s[0] == first);
        assert(s.skip(1)[0] == said[1]);
        assert(s.skip(1)[1] == said[2]);
        assert(answered_at(turns, said, 3, remove, said[3]));
        assert(answered(turns, said, remove, said[3]));
    }
}

/// A container fails to run only for cause: something that the host was asked to do for
/// it failed, or a library that is copied for it has a name that cannot be used.
pub proof fn run_fails_only_for_cause(
    config: Config,
    rootfs: Seq<char>,
    owned: bool,
    arch: Seq<char>,
    said: Seq<ContainerAnswer>,
)
    requires
        run_turn(config, rootfs, owned, "linux"@, arch, said) is Fail || run_turn(
            config,
            rootfs,
            owned,
            "linux"@,
            arch,
            said,
        ) is Rethrow,
    ensures
        run_has_cause(run_turns(config, rootfs, owned, arch), said),
{
    let turns = run_turns(config, rootfs, owned, arch);
    let part = preparing(rootfs, owned, arch);
    if part(said) is Halt {
        assert(part =~= preparation(rootfs, arch));
        preparation_fails_only_for_cause(rootfs, arch, said);
        let (ask, answer) = choose|ask: ContainerAsk, answer: ContainerAnswer| #[trigger]
            given(part, said, ask, answer) && is_cause(ask, answer);
        let i = choose|i: int| given_at(part, said, i, ask, answer);
        assert(turns(said.take(i)) == Turn::<ContainerAsk, int>::Ask(ask)) by {
            assert(prepare_progress(rootfs, owned, arch, said.take(i)) == ContainerProgress::Ask(
                ask,
            ));
        }
        assert(answered_at(turns, said, i, ask, answer));
        assert(answered(turns, said, ask, answer));
    } else {
        let k = preparing_passes(rootfs, owned, arch, said);
        part_leaves_the_rest(part, said, k);
        run_goes_on(config, rootfs, owned, arch, said, k, k);
        run_goes_on(config, rootfs, owned, arch, said, k, said.len() as int);
        assert(said.take(said.len() as int) =~= said);
        assert(said.skip(k)[0] == said[k]);
        let clone = ContainerAsk::Clone { config, rootfs, namespaces: CONTAINER_NAMESPACES@ };
        assert(answered_at(turns, said, k, clone, said[k]));
        assert(answered(turns, said, clone, said[k]));
        if let ContainerAnswer::Pid(pid) = said[k] {
            let later = said.skip(k + 1);
            let inner = waiting(rootfs, owned, pid);
            wait_fails_only_for_cause(rootfs, owned, pid, later);
            let (ask, answer) = choose|ask: ContainerAsk, answer: ContainerAnswer| #[trigger]
                answered(inner, later, ask, answer) && is_cause(ask, answer);
            assert forall|i: int| k + 1 <= i <= said.len() implies turns(#[trigger] said.take(i))
                == inner(said.take(i).skip(k + 1)) by {
                run_goes_on(config, rootfs, owned, arch, said, k, i);
            }
            later_turns_are_turns(turns, inner, said, k + 1, ask, answer);
        }
    }
}

/// The wait for the process of a container goes on until the process has ended.
pub proof fn wait_goes_on_until_the_end(
    rootfs: Seq<char>,
    owned: bool,
    pid: i32,
    said: Seq<ContainerAnswer>,
    status: i32,
    signal: u8,
)
    requires
        wait_turn(rootfs, owned, pid, said) == Turn::<ContainerAsk, int>::Ask(
            ContainerAsk::WaitChild(pid),
        ),
    ensures
        wait_turn(rootfs, owned, pid, said.push(ContainerAnswer::Interrupted)) == Turn::<
            ContainerAsk,
            int,
        >::Ask(ContainerAsk::WaitChild(pid)),
        wait_turn(rootfs, owned, pid, said.push(ContainerAnswer::Changed)) == Turn::<
            ContainerAsk,
            int,
        >::Ask(ContainerAsk::WaitChild(pid)),
        wait_turn(rootfs, owned, pid, said.push(ContainerAnswer::Exited(status))) == if owned {
            Turn::<ContainerAsk, int>::Ask(ContainerAsk::Exists(rootfs))
        } else {
            Turn::<ContainerAsk, int>::Done(status as int)
        },
        wait_turn(rootfs, owned, pid, said.push(ContainerAnswer::Signaled(signal))) == if owned {
            Turn::<ContainerAsk, int>::Ask(ContainerAsk::Exists(rootfs))
        } else {
            Turn::<ContainerAsk, int>::Done(128 + signal)
        },
    decreases said.len(),
{
    let a = said.push(ContainerAnswer::Interrupted);
    let b = said.push(ContainerAnswer::Changed);
    let c = said.push(ContainerAnswer::Exited(status));
    let d = said.push(ContainerAnswer::Signaled(signal));
    reveal_with_fuel(wait_turn, 2);
    if said.len() == 0 {
        assert(a.skip(1).len() == 0 && b.skip(1).len() == 0);
        assert(c.skip(1).len() == 0 && d.skip(1).len() == 0);
    } else {
        let rest = said.skip(1);
        assert(a[0] == said[0] && b[0] == said[0] && c[0] == said[0] && d[0] == said[0]);
        wait_goes_on_until_the_end(rootfs, owned, pid, rest, status, signal);
        assert(a.skip(1) =~= rest.push(ContainerAnswer::Interrupted));
        assert(b.skip(1) =~= rest.push(ContainerAnswer::Changed));
        assert(c.skip(1) =~= rest.push(ContainerAnswer::Exited(status)));
        assert(d.skip(1) =~= rest.push(ContainerAnswer::Signaled(signal)));
    }
}

/// A temporary root filesystem is unmounted and removed when the process has ended, and it
/// is removed although it could not be unmounted. Then the container is done, with the exit
/// code of its process.
pub proof fn temporary_root_is_removed(
    rootfs: Seq<char>,
    code: int,
    unmounted: ContainerAnswer,
)
    requires
        unmounted is Done || unmounted is Failed,
    ensures
        cleanup_turn(rootfs, code, seq![ContainerAnswer::Exists(false)]) == Turn::<
            ContainerAsk,
            int,
        >::Done(code),
        cleanup_turn(rootfs, code, seq![ContainerAnswer::Exists(true)]) == Turn::<
            ContainerAsk,
            int,
        >::Ask(ContainerAsk::DetachMount(rootfs)),
        cleanup_turn(rootfs, code, seq![ContainerAnswer::Exists(true), unmounted]) == Turn::<
            ContainerAsk,
            int,
        >::Ask(ContainerAsk::RemoveDirAll(rootfs)),
        cleanup_turn(
            rootfs,
            code,
            seq![ContainerAnswer::Exists(true), unmounted, ContainerAnswer::Done],
        ) == Turn::<ContainerAsk, int>::Done(code),
{
}

} // verus!
