//! The temporary root filesystem of a container that has none of its own: a few
//! directories, and the shell and other basic programs of the host with the
//! libraries that they need.

use vstd::prelude::*;
use vstd::string::*;

use crate::dialogue::{heard, progress_of, Halt, Part, Stop};
use crate::container::host::{
    ContainerAnswer, ContainerAsk, ContainerCall, ContainerProgress, ContainerReply,
};
use crate::error::{labelled, ContainerError, Failure};
use crate::host::chars_in;
use crate::path::{file_name, file_name_of, join, joined_path, parent, parent_of};
use crate::text::{path_quoted, quoted_path, same_text, trim_leading, views, without_leading};
use crate::util::{dynamic_linker_path, lib_search_paths, library_dirs, linker};

verus! {

/// How far a step has come whose failure ends the dialogue: with the host's own
/// error, or with a report that starts with a text.
pub open spec fn act_progress(
    ask: ContainerAsk,
    report: Option<Seq<char>>,
    answers: Seq<ContainerAnswer>,
) -> ContainerProgress {
    if answers.len() == 0 {
        ContainerProgress::Ask(ask)
    } else {
        match answers[0] {
            ContainerAnswer::Done => ContainerProgress::Passed(answers.skip(1)),
            ContainerAnswer::Failed(error) => ContainerProgress::Halt(
                match report {
                    Some(text) => Halt::Fail(Failure::Filesystem(text + error)),
                    None => Halt::Rethrow,
                },
            ),
            _ => ContainerProgress::Halt(Halt::Stray),
        }
    }
}

/// How far the creation of the directory has come that is to hold `path`.
pub open spec fn parent_progress(path: Seq<char>, answers: Seq<ContainerAnswer>) -> ContainerProgress {
    match parent(path) {
        Some(dir) => act_progress(ContainerAsk::CreateDirAll(dir), None, answers),
        None => ContainerProgress::Passed(answers),
    }
}

/// How far a step has come that is taken only when a question after something in its
/// place is answered with no.
pub open spec fn unless_progress(
    question: ContainerAsk,
    ask: ContainerAsk,
    report: Option<Seq<char>>,
    answers: Seq<ContainerAnswer>,
) -> ContainerProgress {
    if answers.len() == 0 {
        ContainerProgress::Ask(question)
    } else {
        match answers[0] {
            ContainerAnswer::Exists(true) => ContainerProgress::Passed(answers.skip(1)),
            ContainerAnswer::Exists(false) => act_progress(ask, report, answers.skip(1)),
            _ => ContainerProgress::Halt(Halt::Stray),
        }
    }
}

/// How far a copy has come that is made only when there is nothing at its target.
pub open spec fn copy_progress(
    from: Seq<char>,
    to: Seq<char>,
    report: Option<Seq<char>>,
    answers: Seq<ContainerAnswer>,
) -> ContainerProgress {
    unless_progress(ContainerAsk::Exists(to), ContainerAsk::Copy { from, to }, report, answers)
}

/// The directories of a temporary root filesystem.
pub open spec fn root_dirs() -> Seq<Seq<char>> {
    seq![
        "bin"@,
        "dev"@,
        "etc"@,
        "lib"@,
        "lib64"@,
        "proc"@,
        "sys"@,
        "tmp"@,
        "usr/bin"@,
        "usr/lib"@,
    ]
}

/// The programs that are copied from the host.
pub open spec fn root_programs() -> Seq<Seq<char>> {
    seq!["/bin/sh"@, "/bin/ls"@, "/bin/cat"@, "/bin/ps"@, "/usr/bin/env"@]
}

/// The libraries that are copied from the host.
pub open spec fn root_libraries() -> Seq<Seq<char>> {
    seq!["libc.so.6"@, "libdl.so.2"@, "libpthread.so.0"@, "libm.so.6"@]
}

/// The place of a host path in a root filesystem.
pub open spec fn placed(rootfs: Seq<char>, path: Seq<char>) -> Seq<char> {
    joined_path(rootfs, without_leading(path, '/'))
}

/// How far the creation of directories has come.
pub open spec fn dirs_progress(
    rootfs: Seq<char>,
    dirs: Seq<Seq<char>>,
    answers: Seq<ContainerAnswer>,
) -> ContainerProgress
    decreases dirs.len(),
{
    if dirs.len() == 0 {
        ContainerProgress::Passed(answers)
    } else {
        match act_progress(
            ContainerAsk::CreateDirAll(joined_path(rootfs, dirs[0])),
            Some("Failed to create "@ + dirs[0] + ": "@),
            answers,
        ) {
            ContainerProgress::Passed(rest) => dirs_progress(rootfs, dirs.skip(1), rest),
            other => other,
        }
    }
}

/// How far the copying of a program has come.
pub open spec fn program_progress(
    rootfs: Seq<char>,
    program: Seq<char>,
    answers: Seq<ContainerAnswer>,
) -> ContainerProgress {
    let to = placed(rootfs, program);
    if answers.len() == 0 {
        ContainerProgress::Ask(ContainerAsk::Exists(program))
    } else {
        match answers[0] {
            ContainerAnswer::Exists(false) => ContainerProgress::Passed(answers.skip(1)),
            ContainerAnswer::Exists(true) => match parent_progress(to, answers.skip(1)) {
                ContainerProgress::Passed(rest) => copy_progress(
                    program,
                    to,
                    Some("Failed to copy "@ + program + ": "@),
                    rest,
                ),
                other => other,
            },
            _ => ContainerProgress::Halt(Halt::Stray),
        }
    }
}

/// How far the copying of programs has come.
pub open spec fn programs_progress(
    rootfs: Seq<char>,
    programs: Seq<Seq<char>>,
    answers: Seq<ContainerAnswer>,
) -> ContainerProgress
    decreases programs.len(),
{
    if programs.len() == 0 {
        ContainerProgress::Passed(answers)
    } else {
        match program_progress(rootfs, programs[0], answers) {
            ContainerProgress::Passed(rest) => programs_progress(rootfs, programs.skip(1), rest),
            other => other,
        }
    }
}

/// How far the linking of a library has come whose file is in place under another
/// name: the link is made only when there is nothing in its place.
pub open spec fn link_progress(
    name: Seq<char>,
    link: Seq<char>,
    answers: Seq<ContainerAnswer>,
) -> ContainerProgress {
    unless_progress(
        ContainerAsk::Exists(link),
        ContainerAsk::Symlink { target: name, link },
        None,
        answers,
    )
}

/// How far the naming of a library has come whose file is in place: it is linked under
/// the library's name when its own name differs.
pub open spec fn naming_progress(
    name: Seq<char>,
    dir: Seq<char>,
    library: Seq<char>,
    answers: Seq<ContainerAnswer>,
) -> ContainerProgress {
    if library == name {
        ContainerProgress::Passed(answers)
    } else {
        link_progress(name, joined_path(dir, library), answers)
    }
}

/// How far the copying of a library has come whose file the host found: the file is
/// copied under its own name, and linked under the library's name when the two
/// differ.
pub open spec fn resolved_progress(
    file: Seq<char>,
    dir: Seq<char>,
    library: Seq<char>,
    answers: Seq<ContainerAnswer>,
) -> ContainerProgress {
    match file_name(file) {
        None => ContainerProgress::Halt(
            Halt::Fail(
                Failure::Filesystem(
                    "Canonicalized path "@ + quoted_path(file) + " has no filename"@,
                ),
            ),
        ),
        Some(name) => match copy_progress(file, joined_path(dir, name), None, answers) {
            ContainerProgress::Passed(rest) => naming_progress(name, dir, library, rest),
            other => other,
        },
    }
}

/// How far the copying of a library has come whose file the host found at a path that
/// is not Unicode, under a name that is.
pub open spec fn named_progress(
    name: Seq<char>,
    dir: Seq<char>,
    library: Seq<char>,
    answers: Seq<ContainerAnswer>,
) -> ContainerProgress {
    let to = joined_path(dir, name);
    match unless_progress(ContainerAsk::Exists(to), ContainerAsk::CopyFound { to }, None, answers) {
        ContainerProgress::Passed(rest) => naming_progress(name, dir, library, rest),
        other => other,
    }
}

/// How far the copying of a library has come whose file has a name that is not
/// Unicode: the file is copied, and the name is then refused.
pub open spec fn not_unicode_progress(
    shown: Seq<char>,
    dir: Seq<char>,
    answers: Seq<ContainerAnswer>,
) -> ContainerProgress {
    match unless_progress(
        ContainerAsk::FoundNameIn(dir),
        ContainerAsk::CopyFoundInto(dir),
        None,
        answers,
    ) {
        ContainerProgress::Passed(_) => ContainerProgress::Halt(
            Halt::Fail(Failure::Filesystem("Non-UTF8 filename: "@ + shown)),
        ),
        other => other,
    }
}

/// How far the copying of a library from `from` to `dir` has come.
pub open spec fn library_progress(
    from: Seq<char>,
    dir: Seq<char>,
    library: Seq<char>,
    answers: Seq<ContainerAnswer>,
) -> ContainerProgress {
    let source = joined_path(from, library);
    if answers.len() == 0 {
        ContainerProgress::Ask(ContainerAsk::Exists(source))
    } else if answers[0] == ContainerAnswer::Exists(false) {
        ContainerProgress::Passed(answers.skip(1))
    } else if answers[0] != ContainerAnswer::Exists(true) {
        ContainerProgress::Halt(Halt::Stray)
    } else if answers.len() == 1 {
        ContainerProgress::Ask(ContainerAsk::Exists(joined_path(dir, library)))
    } else if answers[1] == ContainerAnswer::Exists(true) {
        ContainerProgress::Passed(answers.skip(2))
    } else if answers[1] != ContainerAnswer::Exists(false) {
        ContainerProgress::Halt(Halt::Stray)
    } else if answers.len() == 2 {
        ContainerProgress::Ask(ContainerAsk::Canonicalize(source))
    } else {
        match answers[2] {
            ContainerAnswer::Path(file) => resolved_progress(file, dir, library, answers.skip(3)),
            ContainerAnswer::Failed(_) => ContainerProgress::Passed(answers.skip(3)),
            ContainerAnswer::Named(name) => named_progress(name, dir, library, answers.skip(3)),
            ContainerAnswer::NotUnicode(shown) => not_unicode_progress(
                shown,
                dir,
                answers.skip(3),
            ),
            _ => ContainerProgress::Halt(Halt::Stray),
        }
    }
}

/// How far the copying of libraries from `from` to `dir` has come.
pub open spec fn libraries_progress(
    from: Seq<char>,
    dir: Seq<char>,
    libraries: Seq<Seq<char>>,
    answers: Seq<ContainerAnswer>,
) -> ContainerProgress
    decreases libraries.len(),
{
    if libraries.len() == 0 {
        ContainerProgress::Passed(answers)
    } else {
        match library_progress(from, dir, libraries[0], answers) {
            ContainerProgress::Passed(rest) => libraries_progress(from, dir, libraries.skip(1), rest),
            other => other,
        }
    }
}

/// How far the copying from one library directory of the host has come. A directory
/// that does not exist is passed over.
pub open spec fn library_dir_progress(
    rootfs: Seq<char>,
    from: Seq<char>,
    answers: Seq<ContainerAnswer>,
) -> ContainerProgress {
    let dir = placed(rootfs, from);
    if answers.len() == 0 {
        ContainerProgress::Ask(ContainerAsk::Exists(from))
    } else {
        match answers[0] {
            ContainerAnswer::Exists(false) => ContainerProgress::Passed(answers.skip(1)),
            ContainerAnswer::Exists(true) => match act_progress(
                ContainerAsk::CreateDirAll(dir),
                None,
                answers.skip(1),
            ) {
                ContainerProgress::Passed(rest) => libraries_progress(
                    from,
                    dir,
                    root_libraries(),
                    rest,
                ),
                other => other,
            },
            _ => ContainerProgress::Halt(Halt::Stray),
        }
    }
}

/// How far the copying from the library directories of the host has come.
pub open spec fn library_dirs_progress(
    rootfs: Seq<char>,
    dirs: Seq<Seq<char>>,
    answers: Seq<ContainerAnswer>,
) -> ContainerProgress
    decreases dirs.len(),
{
    if dirs.len() == 0 {
        ContainerProgress::Passed(answers)
    } else {
        match library_dir_progress(rootfs, dirs[0], answers) {
            ContainerProgress::Passed(rest) => library_dirs_progress(rootfs, dirs.skip(1), rest),
            other => other,
        }
    }
}

/// How far the copying of the dynamic linker has come once its directory is there.
pub open spec fn place_linker_progress(
    from: Seq<char>,
    to: Seq<char>,
    answers: Seq<ContainerAnswer>,
) -> ContainerProgress {
    if answers.len() == 0 {
        ContainerProgress::Ask(ContainerAsk::Exists(to))
    } else if answers[0] == ContainerAnswer::Exists(true) {
        ContainerProgress::Passed(answers.skip(1))
    } else if answers[0] != ContainerAnswer::Exists(false) {
        ContainerProgress::Halt(Halt::Stray)
    } else if answers.len() == 1 {
        ContainerProgress::Ask(ContainerAsk::Canonicalize(from))
    } else {
        match answers[1] {
            ContainerAnswer::Path(file) => act_progress(
                ContainerAsk::Copy { from: file, to },
                None,
                answers.skip(2),
            ),
            ContainerAnswer::Named(_) | ContainerAnswer::NotUnicode(_) => act_progress(
                ContainerAsk::CopyFound { to },
                None,
                answers.skip(2),
            ),
            ContainerAnswer::Failed(_) => ContainerProgress::Passed(answers.skip(2)),
            _ => ContainerProgress::Halt(Halt::Stray),
        }
    }
}

/// How far the copying of the dynamic linker has come.
pub open spec fn linker_progress(
    rootfs: Seq<char>,
    from: Seq<char>,
    answers: Seq<ContainerAnswer>,
) -> ContainerProgress {
    let to = placed(rootfs, from);
    if answers.len() == 0 {
        ContainerProgress::Ask(ContainerAsk::Exists(from))
    } else {
        match answers[0] {
            ContainerAnswer::Exists(false) => ContainerProgress::Passed(answers.skip(1)),
            ContainerAnswer::Exists(true) => match parent_progress(to, answers.skip(1)) {
                ContainerProgress::Passed(rest) => place_linker_progress(from, to, rest),
                other => other,
            },
            _ => ContainerProgress::Halt(Halt::Stray),
        }
    }
}

/// How far the copying of the libraries and the dynamic linker of an architecture
/// has come.
pub open spec fn dependencies_progress(
    rootfs: Seq<char>,
    arch: Seq<char>,
    answers: Seq<ContainerAnswer>,
) -> ContainerProgress {
    match library_dirs_progress(rootfs, library_dirs(arch), answers) {
        ContainerProgress::Passed(rest) => linker_progress(rootfs, linker(arch), rest),
        other => other,
    }
}

/// How far the setup of a temporary root filesystem has come.
pub open spec fn minimal_progress(
    rootfs: Seq<char>,
    arch: Seq<char>,
    answers: Seq<ContainerAnswer>,
) -> ContainerProgress {
    match dirs_progress(rootfs, root_dirs(), answers) {
        ContainerProgress::Passed(rest) => match programs_progress(rootfs, root_programs(), rest) {
            ContainerProgress::Passed(left) => dependencies_progress(rootfs, arch, left),
            other => other,
        },
        other => other,
    }
}

fn act_part(call: ContainerCall, report: Option<&str>, replies: &Vec<ContainerReply>, at: usize) -> (r: Part<
    ContainerCall,
>)
    requires
        at <= replies@.len(),
    ensures
        progress_of(r, replies@) == act_progress(
            call@,
            chars_in(report),
            heard(replies@).skip(at as int),
        ),
        r is Passed ==> r->Passed_0 <= replies@.len(),
{
    let ghost answers = heard(replies@).skip(at as int);
    if at == replies.len() {
        return Part::Ask(call);
    }
    assert(answers[0] == replies@[at as int]@);
    assert(answers.skip(1) =~= heard(replies@).skip(at + 1));
    match &replies[at] {
        ContainerReply::Done => Part::Passed(at + 1),
        ContainerReply::Failed(error) => match report {
            Some(text) => Part::Stop(
                Stop::Fail(ContainerError::Filesystem(labelled(text, error.as_str()))),
            ),
            None => Part::Stop(Stop::Rethrow),
        },
        _ => Part::Stop(Stop::Stray),
    }
}

fn parent_part(path: &str, replies: &Vec<ContainerReply>, at: usize) -> (r: Part<ContainerCall>)
    requires
        at <= replies@.len(),
    ensures
        progress_of(r, replies@) == parent_progress(path@, heard(replies@).skip(at as int)),
        r is Passed ==> r->Passed_0 <= replies@.len(),
{
    match parent_of(path) {
        Some(dir) => act_part(ContainerCall::CreateDirAll(dir), None, replies, at),
        None => Part::Passed(at),
    }
}

fn unless_part(
    question: ContainerCall,
    call: ContainerCall,
    report: Option<&str>,
    replies: &Vec<ContainerReply>,
    at: usize,
) -> (r: Part<ContainerCall>)
    requires
        at <= replies@.len(),
    ensures
        progress_of(r, replies@) == unless_progress(
            question@,
            call@,
            chars_in(report),
            heard(replies@).skip(at as int),
        ),
        r is Passed ==> r->Passed_0 <= replies@.len(),
{
    let ghost answers = heard(replies@).skip(at as int);
    if at == replies.len() {
        return Part::Ask(question);
    }
    assert(answers[0] == replies@[at as int]@);
    assert(answers.skip(1) =~= heard(replies@).skip(at + 1));
    match &replies[at] {
        ContainerReply::Exists(true) => Part::Passed(at + 1),
        ContainerReply::Exists(false) => act_part(call, report, replies, at + 1),
        _ => Part::Stop(Stop::Stray),
    }
}

fn copy_part(
    from: &str,
    to: &str,
    report: Option<&str>,
    replies: &Vec<ContainerReply>,
    at: usize,
) -> (r: Part<ContainerCall>)
    requires
        at <= replies@.len(),
    ensures
        progress_of(r, replies@) == copy_progress(
            from@,
            to@,
            chars_in(report),
            heard(replies@).skip(at as int),
        ),
        r is Passed ==> r->Passed_0 <= replies@.len(),
{
    unless_part(
        ContainerCall::Exists(to.to_owned()),
        ContainerCall::Copy { from: from.to_owned(), to: to.to_owned() },
        report,
        replies,
        at,
    )
}

fn place(rootfs: &str, path: &str) -> (r: String)
    ensures
        r@ == placed(rootfs@, path@),
{
    join(rootfs, trim_leading(path, '/'))
}

fn dirs_part(rootfs: &str, dirs: &Vec<String>, replies: &Vec<ContainerReply>, from: usize) -> (r: Part<
    ContainerCall,
>)
    requires
        from <= replies@.len(),
    ensures
        progress_of(r, replies@) == dirs_progress(
            rootfs@,
            views(dirs@),
            heard(replies@).skip(from as int),
        ),
        r is Passed ==> r->Passed_0 <= replies@.len(),
{
    let ghost list = views(dirs@);
    let mut at: usize = from;
    let mut i: usize = 0;
    assert(list.skip(0) =~= list);
    while i < dirs.len()
        invariant
            i <= dirs@.len(),
            at <= replies@.len(),
            list == views(dirs@),
            dirs_progress(rootfs@, list, heard(replies@).skip(from as int)) == dirs_progress(
                rootfs@,
                list.skip(i as int),
                heard(replies@).skip(at as int),
            ),
        decreases dirs@.len() - i,
    {
        assert(list.skip(i as int)[0] == dirs@[i as int]@);
        assert(list.skip(i as int).skip(1) =~= list.skip(i + 1));
        let dir = dirs[i].as_str();
        let mut text = labelled("Failed to create ", dir);
        text.append(": ");
        match act_part(
            ContainerCall::CreateDirAll(join(rootfs, dir)),
            Some(text.as_str()),
            replies,
            at,
        ) {
            Part::Passed(next) => {
                at = next;
            },
            other => {
                return other;
            },
        }
        i = i + 1;
    }
    assert(list.skip(i as int).len() == 0);
    Part::Passed(at)
}

fn program_part(rootfs: &str, program: &str, replies: &Vec<ContainerReply>, at: usize) -> (r: Part<
    ContainerCall,
>)
    requires
        at <= replies@.len(),
    ensures
        progress_of(r, replies@) == program_progress(
            rootfs@,
            program@,
            heard(replies@).skip(at as int),
        ),
        r is Passed ==> r->Passed_0 <= replies@.len(),
{
    let ghost answers = heard(replies@).skip(at as int);
    let to = place(rootfs, program);
    if at == replies.len() {
        return Part::Ask(ContainerCall::Exists(program.to_owned()));
    }
    assert(answers[0] == replies@[at as int]@);
    assert(answers.skip(1) =~= heard(replies@).skip(at + 1));
    match &replies[at] {
        ContainerReply::Exists(false) => Part::Passed(at + 1),
        ContainerReply::Exists(true) => match parent_part(to.as_str(), replies, at + 1) {
            Part::Passed(next) => {
                let mut text = labelled("Failed to copy ", program);
                text.append(": ");
                copy_part(program, to.as_str(), Some(text.as_str()), replies, next)
            },
            other => other,
        },
        _ => Part::Stop(Stop::Stray),
    }
}

fn programs_part(
    rootfs: &str,
    programs: &Vec<String>,
    replies: &Vec<ContainerReply>,
    from: usize,
) -> (r: Part<ContainerCall>)
    requires
        from <= replies@.len(),
    ensures
        progress_of(r, replies@) == programs_progress(
            rootfs@,
            views(programs@),
            heard(replies@).skip(from as int),
        ),
        r is Passed ==> r->Passed_0 <= replies@.len(),
{
    let ghost list = views(programs@);
    let mut at: usize = from;
    let mut i: usize = 0;
    assert(list.skip(0) =~= list);
    while i < programs.len()
        invariant
            i <= programs@.len(),
            at <= replies@.len(),
            list == views(programs@),
            programs_progress(rootfs@, list, heard(replies@).skip(from as int))
                == programs_progress(
                rootfs@,
                list.skip(i as int),
                heard(replies@).skip(at as int),
            ),
        decreases programs@.len() - i,
    {
        assert(list.skip(i as int)[0] == programs@[i as int]@);
        assert(list.skip(i as int).skip(1) =~= list.skip(i + 1));
        match program_part(rootfs, programs[i].as_str(), replies, at) {
            Part::Passed(next) => {
                at = next;
            },
            other => {
                return other;
            },
        }
        i = i + 1;
    }
    assert(list.skip(i as int).len() == 0);
    Part::Passed(at)
}

fn link_part(name: &str, link: &str, replies: &Vec<ContainerReply>, at: usize) -> (r: Part<ContainerCall>)
    requires
        at <= replies@.len(),
    ensures
        progress_of(r, replies@) == link_progress(name@, link@, heard(replies@).skip(at as int)),
        r is Passed ==> r->Passed_0 <= replies@.len(),
{
    unless_part(
        ContainerCall::Exists(link.to_owned()),
        ContainerCall::Symlink { target: name.to_owned(), link: link.to_owned() },
        None,
        replies,
        at,
    )
}

fn naming_part(
    name: &str,
    dir: &str,
    library: &str,
    replies: &Vec<ContainerReply>,
    at: usize,
) -> (r: Part<ContainerCall>)
    requires
        at <= replies@.len(),
    ensures
        progress_of(r, replies@) == naming_progress(
            name@,
            dir@,
            library@,
            heard(replies@).skip(at as int),
        ),
        r is Passed ==> r->Passed_0 <= replies@.len(),
{
    if same_text(library, name) {
        Part::Passed(at)
    } else {
        link_part(name, join(dir, library).as_str(), replies, at)
    }
}

fn resolved_part(
    file: &str,
    dir: &str,
    library: &str,
    replies: &Vec<ContainerReply>,
    at: usize,
) -> (r: Part<ContainerCall>)
    requires
        at <= replies@.len(),
    ensures
        progress_of(r, replies@) == resolved_progress(
            file@,
            dir@,
            library@,
            heard(replies@).skip(at as int),
        ),
        r is Passed ==> r->Passed_0 <= replies@.len(),
{
    match file_name_of(file) {
        None => {
            let mut text = labelled("Canonicalized path ", path_quoted(file).as_str());
            text.append(" has no filename");
            Part::Stop(Stop::Fail(ContainerError::Filesystem(text)))
        },
        Some(name) => match copy_part(
            file,
            join(dir, name.as_str()).as_str(),
            None,
            replies,
            at,
        ) {
            Part::Passed(next) => naming_part(name.as_str(), dir, library, replies, next),
            other => other,
        },
    }
}

fn named_part(
    name: &str,
    dir: &str,
    library: &str,
    replies: &Vec<ContainerReply>,
    at: usize,
) -> (r: Part<ContainerCall>)
    requires
        at <= replies@.len(),
    ensures
        progress_of(r, replies@) == named_progress(
            name@,
            dir@,
            library@,
            heard(replies@).skip(at as int),
        ),
        r is Passed ==> r->Passed_0 <= replies@.len(),
{
    let to = join(dir, name);
    match unless_part(
        ContainerCall::Exists(to.clone()),
        ContainerCall::CopyFound { to },
        None,
        replies,
        at,
    ) {
        Part::Passed(next) => naming_part(name, dir, library, replies, next),
        other => other,
    }
}

fn not_unicode_part(shown: &str, dir: &str, replies: &Vec<ContainerReply>, at: usize) -> (r: Part<
    ContainerCall,
>)
    requires
        at <= replies@.len(),
    ensures
        progress_of(r, replies@) == not_unicode_progress(
            shown@,
            dir@,
            heard(replies@).skip(at as int),
        ),
        r is Passed ==> r->Passed_0 <= replies@.len(),
{
    match unless_part(
        ContainerCall::FoundNameIn(dir.to_owned()),
        ContainerCall::CopyFoundInto(dir.to_owned()),
        None,
        replies,
        at,
    ) {
        Part::Passed(_) => Part::Stop(
            Stop::Fail(ContainerError::Filesystem(labelled("Non-UTF8 filename: ", shown))),
        ),
        other => other,
    }
}

fn library_part(
    from: &str,
    dir: &str,
    library: &str,
    replies: &Vec<ContainerReply>,
    at: usize,
) -> (r: Part<ContainerCall>)
    requires
        at <= replies@.len(),
    ensures
        progress_of(r, replies@) == library_progress(
            from@,
            dir@,
            library@,
            heard(replies@).skip(at as int),
        ),
        r is Passed ==> r->Passed_0 <= replies@.len(),
{
    let ghost answers = heard(replies@).skip(at as int);
    let len = replies.len();
    let source = join(from, library);
    if at == len {
        return Part::Ask(ContainerCall::Exists(source));
    }
    assert(answers[0] == replies@[at as int]@);
    assert(answers.skip(1) =~= heard(replies@).skip(at + 1));
    match &replies[at] {
        ContainerReply::Exists(true) => {},
        ContainerReply::Exists(false) => return Part::Passed(at + 1),
        _ => return Part::Stop(Stop::Stray),
    }
    if at + 1 == len {
        return Part::Ask(ContainerCall::Exists(join(dir, library)));
    }
    assert(answers[1] == replies@[at + 1]@);
    assert(answers.skip(2) =~= heard(replies@).skip(at + 2));
    match &replies[at + 1] {
        ContainerReply::Exists(false) => {},
        ContainerReply::Exists(true) => return Part::Passed(at + 2),
        _ => return Part::Stop(Stop::Stray),
    }
    if at + 2 == len {
        return Part::Ask(ContainerCall::Canonicalize(source));
    }
    assert(answers[2] == replies@[at + 2]@);
    assert(answers.skip(3) =~= heard(replies@).skip(at + 3));
    match &replies[at + 2] {
        ContainerReply::Path(file) => resolved_part(file.as_str(), dir, library, replies, at + 3),
        ContainerReply::Failed(_) => Part::Passed(at + 3),
        ContainerReply::Named(name) => named_part(name.as_str(), dir, library, replies, at + 3),
        ContainerReply::NotUnicode(shown) => not_unicode_part(shown.as_str(), dir, replies, at + 3),
        _ => Part::Stop(Stop::Stray),
    }
}

fn essential_libraries() -> (r: Vec<String>)
    ensures
        views(r@) == root_libraries(),
{
    let r = vec![
        "libc.so.6".to_owned(),
        "libdl.so.2".to_owned(),
        "libpthread.so.0".to_owned(),
        "libm.so.6".to_owned(),
    ];
    assert(views(r@) =~= root_libraries());
    r
}

fn libraries_part(source: &str, dir: &str, replies: &Vec<ContainerReply>, from: usize) -> (r: Part<
    ContainerCall,
>)
    requires
        from <= replies@.len(),
    ensures
        progress_of(r, replies@) == libraries_progress(
            source@,
            dir@,
            root_libraries(),
            heard(replies@).skip(from as int),
        ),
        r is Passed ==> r->Passed_0 <= replies@.len(),
{
    let libraries = essential_libraries();
    let ghost list = root_libraries();
    let mut at: usize = from;
    let mut i: usize = 0;
    assert(list.skip(0) =~= list);
    while i < libraries.len()
        invariant
            i <= libraries@.len(),
            at <= replies@.len(),
            list == views(libraries@),
            list == root_libraries(),
            libraries_progress(source@, dir@, list, heard(replies@).skip(from as int))
                == libraries_progress(
                source@,
                dir@,
                list.skip(i as int),
                heard(replies@).skip(at as int),
            ),
        decreases libraries@.len() - i,
    {
        assert(list.skip(i as int)[0] == libraries@[i as int]@);
        assert(list.skip(i as int).skip(1) =~= list.skip(i + 1));
        match library_part(source, dir, libraries[i].as_str(), replies, at) {
            Part::Passed(next) => {
                at = next;
            },
            other => {
                return other;
            },
        }
        i = i + 1;
    }
    assert(list.skip(i as int).len() == 0);
    Part::Passed(at)
}

fn library_dir_part(rootfs: &str, from: &str, replies: &Vec<ContainerReply>, at: usize) -> (r: Part<
    ContainerCall,
>)
    requires
        at <= replies@.len(),
    ensures
        progress_of(r, replies@) == library_dir_progress(
            rootfs@,
            from@,
            heard(replies@).skip(at as int),
        ),
        r is Passed ==> r->Passed_0 <= replies@.len(),
{
    let ghost answers = heard(replies@).skip(at as int);
    let dir = place(rootfs, from);
    if at == replies.len() {
        return Part::Ask(ContainerCall::Exists(from.to_owned()));
    }
    assert(answers[0] == replies@[at as int]@);
    assert(answers.skip(1) =~= heard(replies@).skip(at + 1));
    match &replies[at] {
        ContainerReply::Exists(false) => Part::Passed(at + 1),
        ContainerReply::Exists(true) => match act_part(
            ContainerCall::CreateDirAll(dir.clone()),
            None,
            replies,
            at + 1,
        ) {
            Part::Passed(next) => libraries_part(from, dir.as_str(), replies, next),
            other => other,
        },
        _ => Part::Stop(Stop::Stray),
    }
}

fn library_dirs_part(rootfs: &str, dirs: &Vec<String>, replies: &Vec<ContainerReply>, from: usize) -> (r:
    Part<ContainerCall>)
    requires
        from <= replies@.len(),
    ensures
        progress_of(r, replies@) == library_dirs_progress(
            rootfs@,
            views(dirs@),
            heard(replies@).skip(from as int),
        ),
        r is Passed ==> r->Passed_0 <= replies@.len(),
{
    let ghost list = views(dirs@);
    let mut at: usize = from;
    let mut i: usize = 0;
    assert(list.skip(0) =~= list);
    while i < dirs.len()
        invariant
            i <= dirs@.len(),
            at <= replies@.len(),
            list == views(dirs@),
            library_dirs_progress(rootfs@, list, heard(replies@).skip(from as int))
                == library_dirs_progress(
                rootfs@,
                list.skip(i as int),
                heard(replies@).skip(at as int),
            ),
        decreases dirs@.len() - i,
    {
        assert(list.skip(i as int)[0] == dirs@[i as int]@);
        assert(list.skip(i as int).skip(1) =~= list.skip(i + 1));
        match library_dir_part(rootfs, dirs[i].as_str(), replies, at) {
            Part::Passed(next) => {
                at = next;
            },
            other => {
                return other;
            },
        }
        i = i + 1;
    }
    assert(list.skip(i as int).len() == 0);
    Part::Passed(at)
}

fn place_linker_part(from: &str, to: &str, replies: &Vec<ContainerReply>, at: usize) -> (r: Part<
    ContainerCall,
>)
    requires
        at <= replies@.len(),
    ensures
        progress_of(r, replies@) == place_linker_progress(
            from@,
            to@,
            heard(replies@).skip(at as int),
        ),
        r is Passed ==> r->Passed_0 <= replies@.len(),
{
    let ghost answers = heard(replies@).skip(at as int);
    let len = replies.len();
    if at == len {
        return Part::Ask(ContainerCall::Exists(to.to_owned()));
    }
    assert(answers[0] == replies@[at as int]@);
    assert(answers.skip(1) =~= heard(replies@).skip(at + 1));
    match &replies[at] {
        ContainerReply::Exists(false) => {},
        ContainerReply::Exists(true) => return Part::Passed(at + 1),
        _ => return Part::Stop(Stop::Stray),
    }
    if at + 1 == len {
        return Part::Ask(ContainerCall::Canonicalize(from.to_owned()));
    }
    assert(answers[1] == replies@[at + 1]@);
    assert(answers.skip(2) =~= heard(replies@).skip(at + 2));
    match &replies[at + 1] {
        ContainerReply::Path(file) => act_part(
            ContainerCall::Copy { from: file.clone(), to: to.to_owned() },
            None,
            replies,
            at + 2,
        ),
        ContainerReply::Named(_) | ContainerReply::NotUnicode(_) => act_part(
            ContainerCall::CopyFound { to: to.to_owned() },
            None,
            replies,
            at + 2,
        ),
        ContainerReply::Failed(_) => Part::Passed(at + 2),
        _ => Part::Stop(Stop::Stray),
    }
}

fn linker_part(rootfs: &str, from: &str, replies: &Vec<ContainerReply>, at: usize) -> (r: Part<ContainerCall>)
    requires
        at <= replies@.len(),
    ensures
        progress_of(r, replies@) == linker_progress(
            rootfs@,
            from@,
            heard(replies@).skip(at as int),
        ),
        r is Passed ==> r->Passed_0 <= replies@.len(),
{
    let ghost answers = heard(replies@).skip(at as int);
    let to = place(rootfs, from);
    if at == replies.len() {
        return Part::Ask(ContainerCall::Exists(from.to_owned()));
    }
    assert(answers[0] == replies@[at as int]@);
    assert(answers.skip(1) =~= heard(replies@).skip(at + 1));
    match &replies[at] {
        ContainerReply::Exists(false) => Part::Passed(at + 1),
        ContainerReply::Exists(true) => match parent_part(to.as_str(), replies, at + 1) {
            Part::Passed(next) => place_linker_part(from, to.as_str(), replies, next),
            other => other,
        },
        _ => Part::Stop(Stop::Stray),
    }
}

/// How far the copying of the libraries and the dynamic linker of the architecture
/// `arch` has come, with its answers starting at `at`.
fn copy_library_dependencies(rootfs: &str, arch: &str, replies: &Vec<ContainerReply>, at: usize) -> (r:
    Part<ContainerCall>)
    requires
        at <= replies@.len(),
    ensures
        progress_of(r, replies@) == dependencies_progress(
            rootfs@,
            arch@,
            heard(replies@).skip(at as int),
        ),
        r is Passed ==> r->Passed_0 <= replies@.len(),
{
    match library_dirs_part(rootfs, &lib_search_paths(arch), replies, at) {
        Part::Passed(next) => linker_part(rootfs, dynamic_linker_path(arch), replies, next),
        other => other,
    }
}

fn essential_dirs() -> (r: Vec<String>)
    ensures
        views(r@) == root_dirs(),
{
    let r = vec![
        "bin".to_owned(),
        "dev".to_owned(),
        "etc".to_owned(),
        "lib".to_owned(),
        "lib64".to_owned(),
        "proc".to_owned(),
        "sys".to_owned(),
        "tmp".to_owned(),
        "usr/bin".to_owned(),
        "usr/lib".to_owned(),
    ];
    assert(views(r@) =~= root_dirs());
    r
}

fn essential_programs() -> (r: Vec<String>)
    ensures
        views(r@) == root_programs(),
{
    let r = vec![
        "/bin/sh".to_owned(),
        "/bin/ls".to_owned(),
        "/bin/cat".to_owned(),
        "/bin/ps".to_owned(),
        "/usr/bin/env".to_owned(),
    ];
    assert(views(r@) =~= root_programs());
    r
}

/// How far the setup of a temporary root filesystem has come, with its answers
/// starting at `at`. It gets the programs and libraries of a host of the
/// architecture `arch`.
pub fn create_minimal_rootfs(
    rootfs: &str,
    arch: &str,
    replies: &Vec<ContainerReply>,
    at: usize,
) -> (r: Part<ContainerCall>)
    requires
        at <= replies@.len(),
    ensures
        progress_of(r, replies@) == minimal_progress(
            rootfs@,
            arch@,
            heard(replies@).skip(at as int),
        ),
        r is Passed ==> r->Passed_0 <= replies@.len(),
{
    match dirs_part(rootfs, &essential_dirs(), replies, at) {
        Part::Passed(next) => match programs_part(rootfs, &essential_programs(), replies, next) {
            Part::Passed(left) => copy_library_dependencies(rootfs, arch, replies, left),
            other => other,
        },
        other => other,
    }
}

} // verus!
