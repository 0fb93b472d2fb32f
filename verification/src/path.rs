//! Unix paths as text.
//!
//! A path is a sequence of segments between `/` separators. Empty segments and
//! `.` segments name nothing, except for a leading `.` in a relative path.

use vstd::prelude::*;
use vstd::string::*;

use crate::text::{chars_of, has_text, occurs_at, same_text, split};

verus! {

/// Whether a path starts at the root directory.
pub open spec fn absolute(path: Seq<char>) -> bool {
    path.len() > 0 && path[0] == '/'
}

/// Whether a path starts with a `.` segment.
pub open spec fn dotted(path: Seq<char>) -> bool {
    path.len() > 0 && path[0] == '.' && (path.len() == 1 || path[1] == '/')
}

/// Whether a segment names a file, a directory or the parent directory.
pub open spec fn names_entry(segment: Seq<char>) -> bool {
    segment.len() > 0 && segment != seq!['.']
}

/// The segments among `segments` that name something.
pub open spec fn naming(segments: Seq<Seq<char>>) -> Seq<Seq<char>> {
    segments.filter(|segment: Seq<char>| names_entry(segment))
}

/// The number of characters of a path that precede its segments: the root
/// separator or the leading dot.
pub open spec fn lead(path: Seq<char>) -> int {
    if absolute(path) || dotted(path) {
        1
    } else {
        0
    }
}

/// The components of a path: `/` for the root, `.` for a leading dot, and the
/// name of every segment that names something.
pub open spec fn components(path: Seq<char>) -> Seq<Seq<char>> {
    (if lead(path) == 1 {
        seq![path.take(1)]
    } else {
        Seq::empty()
    }) + naming(crate::text::pieces(path.skip(lead(path)), '/'))
}

/// What `name` names in the directory `dir`: the two with a separator between them,
/// whatever `name` is. An empty `dir` is the working directory.
pub open spec fn entry_path(dir: Seq<char>, name: Seq<char>) -> Seq<char> {
    if dir.len() == 0 || dir.last() == '/' {
        dir + name
    } else {
        dir + "/"@ + name
    }
}

/// Whether `name` is the name of an entry of a directory.
pub open spec fn plain_name(name: Seq<char>) -> bool {
    names_entry(name) && name != seq!['.', '.'] && !name.contains('/')
}

/// `base` extended by `path`: an absolute `path` replaces `base`.
pub open spec fn joined_path(base: Seq<char>, path: Seq<char>) -> Seq<char> {
    if absolute(path) {
        path
    } else {
        entry_path(base, path)
    }
}

/// The last segment of a body of segments.
pub open spec fn last_segment(body: Seq<char>) -> Seq<char> {
    crate::text::pieces(body, '/').last()
}

/// A body without its last segment and the separator before that segment.
pub open spec fn drop_segment(body: Seq<char>) -> Seq<char> {
    if last_segment(body).len() >= body.len() {
        Seq::empty()
    } else {
        body.take(body.len() - last_segment(body).len() - 1)
    }
}

/// A body without the trailing segments that name nothing.
pub open spec fn tidy(body: Seq<char>) -> Seq<char>
    decreases body.len(),
{
    if body.len() > 0 && !names_entry(last_segment(body)) {
        if drop_segment(body).len() < body.len() {
            tidy(drop_segment(body))
        } else {
            body
        }
    } else {
        body
    }
}

/// The path of the directory that holds `path`.
pub open spec fn parent(path: Seq<char>) -> Option<Seq<char>> {
    let body = tidy(path.skip(lead(path)));
    if body.len() > 0 {
        Some(path.take(lead(path)) + tidy(drop_segment(body)))
    } else if dotted(path) {
        Some(Seq::empty())
    } else {
        None
    }
}

/// The name of the entry that `path` leads to; a path that ends in the root, in
/// a dot or in `..` has none.
pub open spec fn file_name(path: Seq<char>) -> Option<Seq<char>> {
    let body = tidy(path.skip(lead(path)));
    if body.len() > 0 && last_segment(body) != seq!['.', '.'] {
        Some(last_segment(body))
    } else {
        None
    }
}

/// A file name without its extension: what precedes the last dot, unless that
/// is nothing.
pub open spec fn stem(name: Seq<char>) -> Seq<char> {
    let before = name.len() - crate::text::pieces(name, '.').last().len() - 1;
    if before > 0 {
        name.take(before)
    } else {
        name
    }
}

/// The entry `name` of the directory `dir` with its extension replaced; `last` says
/// whether the path ends with that name.
pub open spec fn renamed(
    dir: Seq<char>,
    name: Seq<char>,
    last: bool,
    extension: Seq<char>,
) -> Seq<char> {
    if stem(name) == seq!['.'] && last {
        dir + seq!['.', '.']
    } else {
        dir + stem(name) + "."@ + extension
    }
}

/// `path` with the extension of its file name replaced by `extension`.
///
/// As with `std::path::Path::with_extension`, a path that ends in a name such as
/// `..a` only loses the extension, since the `..` that is left names no file.
pub open spec fn with_extension(path: Seq<char>, extension: Seq<char>) -> Seq<char> {
    match file_name(path) {
        Some(name) => {
            let body = tidy(path.skip(lead(path)));
            let dir = path.take(lead(path)) + body.take(body.len() - name.len());
            renamed(dir, name, dir + name == path, extension)
        },
        None => path,
    }
}

/// Whether the components of `path` begin with those of `base`.
pub open spec fn within(path: Seq<char>, base: Seq<char>) -> bool {
    components(base).is_prefix_of(components(path))
}

/// Whether a `..` component occurs in `path`.
pub open spec fn climbs(path: Seq<char>) -> bool {
    components(path).contains(seq!['.', '.'])
}

/// Where the last piece of `s` starts.
spec fn last_start(s: Seq<char>, sep: char) -> int
    decreases s.len(),
{
    if s.len() == 0 {
        0
    } else if s.last() == sep {
        s.len() as int
    } else {
        last_start(s.drop_last(), sep)
    }
}

/// The last piece starts right after the last separator, and the pieces before
/// it are those of the text before that separator.
proof fn last_piece(s: Seq<char>, sep: char)
    ensures
        0 <= last_start(s, sep) <= s.len(),
        last_start(s, sep) == 0 || s[last_start(s, sep) - 1] == sep,
        forall|j: int| last_start(s, sep) <= j < s.len() ==> s[j] != sep,
        crate::text::pieces(s, sep).len() > 0,
        crate::text::pieces(s, sep).last() == s.skip(last_start(s, sep)),
        last_start(s, sep) == 0 ==> crate::text::pieces(s, sep) == seq![s],
        last_start(s, sep) > 0 ==> crate::text::pieces(s, sep).drop_last() == crate::text::pieces(
            s.take(last_start(s, sep) - 1),
            sep,
        ),
    decreases s.len(),
{
    let k = last_start(s, sep);
    if s.len() == 0 {
        assert(s.skip(k) =~= Seq::empty());
        assert(s =~= Seq::empty());
    } else {
        let front = s.drop_last();
        last_piece(front, sep);
        let pieces = crate::text::pieces(front, sep);
        if s.last() == sep {
            assert(s.skip(k) =~= Seq::empty());
            assert(s.take(k - 1) =~= front);
            assert(pieces.push(Seq::empty()).drop_last() =~= pieces);
        } else {
            assert(s.skip(k) =~= front.skip(k).push(s.last()));
            let last = pieces.last().push(s.last());
            assert(pieces.drop_last().push(last).drop_last() =~= pieces.drop_last());
            assert forall|j: int| k <= j < s.len() implies s[j] != sep by {
                if j < front.len() {
                    assert(front[j] != sep);
                }
            }
            if k == 0 {
                assert(front.push(s.last()) =~= s);
                assert(pieces.drop_last() =~= Seq::empty());
                assert(crate::text::pieces(s, sep) =~= seq![s]);
            } else {
                assert(s.take(k - 1) =~= front.take(k - 1));
            }
        }
    }
}

/// The last piece starts at `k` when a separator precedes `k` and none follows.
proof fn last_piece_starts(s: Seq<char>, sep: char, k: int)
    requires
        0 <= k <= s.len(),
        k == 0 || s[k - 1] == sep,
        forall|j: int| k <= j < s.len() ==> s[j] != sep,
    ensures
        crate::text::pieces(s, sep).last() == s.skip(k),
{
    last_piece(s, sep);
    let start = last_start(s, sep);
    if k < start {
        assert(s[start - 1] == sep);
    } else if start < k {
        assert(s[k - 1] == sep);
    }
}

proof fn naming_push(segments: Seq<Seq<char>>, segment: Seq<char>)
    ensures
        naming(segments.push(segment)) == if names_entry(segment) {
            naming(segments).push(segment)
        } else {
            naming(segments)
        },
{
    reveal(Seq::filter);
    assert(segments.push(segment).drop_last() =~= segments);
}

/// Dropping the last segment of a body drops its last name, if it names
/// something, and no other.
proof fn names_without_last(body: Seq<char>)
    ensures
        naming(crate::text::pieces(body, '/')) == naming(
            crate::text::pieces(drop_segment(body), '/'),
        ) + (if names_entry(last_segment(body)) {
            seq![last_segment(body)]
        } else {
            Seq::empty()
        }),
        body.len() > 0 ==> drop_segment(body).len() < body.len(),
        drop_segment(body) == body.take(drop_segment(body).len() as int),
        drop_segment(body).len() < body.len(
        ) ==> drop_segment(body).len() == 0 || body[drop_segment(body).len() as int] == '/',
{
    last_piece(body, '/');
    let k = last_start(body, '/');
    let pieces = crate::text::pieces(body, '/');
    let shorter = drop_segment(body);
    assert(pieces.drop_last().push(pieces.last()) =~= pieces);
    naming_push(pieces.drop_last(), pieces.last());
    if k == 0 {
        assert(shorter =~= Seq::empty());
        let none: Seq<Seq<char>> = Seq::empty();
        assert(pieces.drop_last() =~= none);
        naming_push(none, shorter);
        assert(crate::text::pieces(shorter, '/') =~= none.push(shorter));
    } else {
        assert(shorter =~= body.take(k - 1));
    }
    assert(body.take(shorter.len() as int) =~= shorter);
    let rest = naming(crate::text::pieces(shorter, '/'));
    assert(rest + Seq::<Seq<char>>::empty() =~= rest);
    assert(rest.push(last_segment(body)) =~= rest + seq![last_segment(body)]);
}

/// Trailing segments that name nothing contribute no component.
proof fn names_after_tidy(body: Seq<char>)
    ensures
        naming(crate::text::pieces(tidy(body), '/')) == naming(crate::text::pieces(body, '/')),
        tidy(body).len() <= body.len(),
        tidy(body) == body.take(tidy(body).len() as int),
        tidy(body).len() > 0 ==> names_entry(last_segment(tidy(body))),
        0 < tidy(body).len() < body.len() ==> body[tidy(body).len() as int] == '/',
    decreases body.len(),
{
    names_without_last(body);
    assert(body.take(body.len() as int) =~= body);
    if body.len() > 0 && !names_entry(last_segment(body)) {
        let shorter = drop_segment(body);
        names_after_tidy(shorter);
        let rest = naming(crate::text::pieces(shorter, '/'));
        assert(rest + Seq::<Seq<char>>::empty() =~= rest);
        assert(body.take(tidy(body).len() as int) =~= shorter.take(tidy(body).len() as int));
    }
}

/// Every piece of a text occurs in it.
proof fn pieces_occur(s: Seq<char>, sep: char, i: int)
    requires
        0 <= i < crate::text::pieces(s, sep).len(),
    ensures
        has_text(s, crate::text::pieces(s, sep)[i]),
    decreases s.len(),
{
    last_piece(s, sep);
    let start = last_start(s, sep);
    let pieces = crate::text::pieces(s, sep);
    if i == pieces.len() - 1 {
        assert(s.subrange(start, s.len() as int) =~= s.skip(start));
        assert(occurs_at(s, pieces[i], start));
    } else {
        let front = s.take(start - 1);
        assert(pieces.drop_last()[i] == pieces[i]);
        pieces_occur(front, sep, i);
        let at = choose|at: int| occurs_at(front, pieces[i], at);
        assert(s.subrange(at, at + pieces[i].len()) =~= front.subrange(at, at + pieces[i].len()));
        assert(occurs_at(s, pieces[i], at));
    }
}

/// The segments that name something are among the segments.
proof fn naming_selects(segments: Seq<Seq<char>>, segment: Seq<char>)
    requires
        naming(segments).contains(segment),
    ensures
        segments.contains(segment),
    decreases segments.len(),
{
    if segments.len() == 0 {
        reveal(Seq::filter);
    } else {
        let front = segments.drop_last();
        assert(front.push(segments.last()) =~= segments);
        naming_push(front, segments.last());
        if segments.last() == segment {
            assert(segments[segments.len() - 1] == segment);
        } else {
            let at = choose|at: int|
                0 <= at < naming(segments).len() && naming(segments)[at] == segment;
            assert(naming(front)[at] == segment);
            naming_selects(front, segment);
            let i = choose|i: int| 0 <= i < front.len() && front[i] == segment;
            assert(segments[i] == segment);
        }
    }
}

/// A path in which `..` does not occur has no `..` component.
pub proof fn path_without_two_dots_does_not_climb(path: Seq<char>)
    ensures
        climbs(path) ==> has_text(path, seq!['.', '.']),
{
    if climbs(path) {
        let body = path.skip(lead(path));
        let pieces = crate::text::pieces(body, '/');
        let names = naming(pieces);
        let dots = seq!['.', '.'];
        let at = choose|at: int| 0 <= at < components(path).len() && components(path)[at] == dots;
        assert(lead(path) == 1 ==> path.take(1).len() == 1);
        assert(names.contains(dots)) by {
            assert(names[at - lead(path)] == dots);
        }
        naming_selects(pieces, dots);
        let i = choose|i: int| 0 <= i < pieces.len() && pieces[i] == dots;
        pieces_occur(body, '/', i);
        let at = choose|at: int| occurs_at(body, dots, at);
        assert(path.subrange(at + lead(path), at + lead(path) + 2) =~= body.subrange(at, at + 2));
        assert(occurs_at(path, dots, at + lead(path)));
    }
}

/// The pieces on both sides of a separator are those of the two sides.
pub proof fn pieces_join(a: Seq<char>, b: Seq<char>, sep: char)
    ensures
        crate::text::pieces(a.push(sep) + b, sep) == crate::text::pieces(a, sep)
            + crate::text::pieces(b, sep),
    decreases b.len(),
{
    let whole = a.push(sep) + b;
    let left = crate::text::pieces(a, sep);
    last_piece(a, sep);
    if b.len() == 0 {
        assert(whole =~= a.push(sep));
        assert(whole.drop_last() =~= a);
        assert(left.push(Seq::empty()) =~= left + crate::text::pieces(b, sep));
    } else {
        let front = b.drop_last();
        let right = crate::text::pieces(front, sep);
        pieces_join(a, front, sep);
        last_piece(front, sep);
        assert(whole.drop_last() =~= a.push(sep) + front);
        assert((left + right).drop_last() =~= left + right.drop_last());
        assert((left + right).last() == right.last());
        assert(crate::text::pieces(whole, sep) =~= left + crate::text::pieces(b, sep));
    }
}

proof fn naming_concat(a: Seq<Seq<char>>, b: Seq<Seq<char>>)
    ensures
        naming(a + b) == naming(a) + naming(b),
    decreases b.len(),
{
    if b.len() == 0 {
        reveal(Seq::filter);
        assert(a + b =~= a);
        assert(naming(a) + naming(b) =~= naming(a));
    } else {
        let front = b.drop_last();
        naming_concat(a, front);
        naming_push(a + front, b.last());
        naming_push(front, b.last());
        assert((a + front).push(b.last()) =~= a + b);
        assert(front.push(b.last()) =~= b);
        assert(naming(a + b) =~= naming(a) + naming(b));
    }
}

/// Entering a directory adds the components of what is entered to those of the
/// directory, and takes none away.
pub proof fn entry_adds_components(dir: Seq<char>, name: Seq<char>)
    requires
        dir.len() > 0,
    ensures
        components(entry_path(dir, name)) == components(dir) + naming(
            crate::text::pieces(name, '/'),
        ),
{
    reveal_strlit("/");
    let path = entry_path(dir, name);
    let k = lead(dir);
    let body = dir.skip(k);
    let none: Seq<Seq<char>> = Seq::empty();
    let head = if k == 1 {
        seq![dir.take(1)]
    } else {
        none
    };
    let names = naming(crate::text::pieces(name, '/'));
    assert(path[0] == dir[0]);
    assert(dir.len() > 1 ==> path[1] == dir[1]);
    assert(lead(path) == k);
    assert(k == 1 ==> path.take(1) =~= dir.take(1));
    if dir.last() == '/' {
        if body.len() == 0 {
            assert(path.skip(k) =~= name);
            naming_push(none, body);
            assert(body =~= Seq::empty());
            assert(crate::text::pieces(body, '/') =~= none.push(body));
            assert(naming(none) =~= none) by {
                reveal(Seq::filter);
            }
            assert(head + none + names =~= head + names);
        } else {
            let inner = body.drop_last();
            assert(body =~= inner.push('/'));
            assert(path.skip(k) =~= inner.push('/') + name);
            pieces_join(inner, name, '/');
            naming_concat(crate::text::pieces(inner, '/'), crate::text::pieces(name, '/'));
            naming_push(crate::text::pieces(inner, '/'), Seq::empty());
        }
    } else {
        assert(path.skip(k) =~= body.push('/') + name);
        pieces_join(body, name, '/');
        naming_concat(crate::text::pieces(body, '/'), crate::text::pieces(name, '/'));
    }
    assert(components(path) =~= components(dir) + names);
}

/// The name of an entry is the one component that it adds to its directory.
pub proof fn plain_entry_adds_its_name(dir: Seq<char>, name: Seq<char>)
    requires
        plain_name(name),
    ensures
        components(entry_path(dir, name)) == components(dir).push(name),
{
    let none: Seq<Seq<char>> = Seq::empty();
    assert(!name.contains('/') ==> forall|j: int| 0 <= j < name.len() ==> name[j] != '/');
    last_piece(name, '/');
    assert(last_start(name, '/') == 0);
    naming_push(none, name);
    assert(naming(none) =~= none) by {
        reveal(Seq::filter);
    }
    assert(none.push(name) =~= seq![name]);
    if dir.len() > 0 {
        entry_adds_components(dir, name);
        assert(components(dir) + seq![name] =~= components(dir).push(name));
    } else {
        assert(entry_path(dir, name) =~= name);
        assert(!dotted(name)) by {
            if dotted(name) {
                assert(name.len() > 1 ==> name[1] != '/');
                assert(name =~= seq!['.']);
            }
        }
        assert(name.skip(0) =~= name);
        assert(dir.skip(0) =~= dir);
        assert(dir =~= Seq::empty());
        naming_push(none, dir);
        assert(crate::text::pieces(dir, '/') =~= none.push(dir));
        assert(components(dir) =~= none);
        assert(components(name) =~= none.push(name));
    }
}

/// The components of the parent of a path are those of the path without the
/// last one; only the empty path and the root have no parent.
pub proof fn parent_drops_last_component(path: Seq<char>)
    ensures
        match parent(path) {
            Some(dir) => components(path).len() > 0 && components(dir) == components(
                path,
            ).drop_last(),
            None => components(path) == (if absolute(path) {
                seq![path.take(1)]
            } else {
                Seq::empty()
            }),
        },
{
    let k = lead(path);
    let body = path.skip(k);
    let kept = tidy(body);
    names_after_tidy(body);
    let head = if k == 1 {
        seq![path.take(1)]
    } else {
        Seq::empty()
    };
    assert(components(path) == head + naming(crate::text::pieces(kept, '/')));
    if kept.len() > 0 {
        names_without_last(kept);
        let shorter = drop_segment(kept);
        names_after_tidy(shorter);
        let rest = tidy(shorter);
        let dir = path.take(k) + rest;
        let names = naming(crate::text::pieces(rest, '/'));
        assert((head + (names + seq![last_segment(kept)])).drop_last() =~= head + names);
        assert(rest =~= path.subrange(k, k + rest.len()));
        if rest.len() > 0 && rest.len() < body.len() {
            assert(path[k + rest.len()] == '/') by {
                if rest.len() < shorter.len() {
                    assert(shorter[rest.len() as int] == '/');
                    assert(kept[rest.len() as int] == '/');
                } else {
                    assert(kept[shorter.len() as int] == '/');
                }
            }
        }
        assert(lead(dir) == k) by {
            if k == 0 && rest.len() == 1 && rest[0] == '.' {
                assert(rest =~= seq!['.']);
                last_piece(rest, '/');
                assert(last_segment(rest) == rest);
            }
        }
        assert(dir.skip(k) =~= rest);
        if k == 1 {
            assert(dir.take(1) =~= path.take(1));
        }
        assert(components(dir) == head + names);
    } else {
        let none: Seq<Seq<char>> = Seq::empty();
        naming_push(none, kept);
        assert(kept =~= Seq::empty());
        assert(crate::text::pieces(kept, '/') =~= none.push(kept));
        assert(naming(none) =~= none) by {
            reveal(Seq::filter);
        }
        assert(components(path) =~= head);
        if dotted(path) {
            let dir: Seq<char> = Seq::empty();
            assert(dir.skip(0) =~= dir);
            assert(crate::text::pieces(dir, '/') =~= none.push(dir));
            assert(components(dir) =~= none);
            assert(head.drop_last() =~= none);
        }
    }
}

/// Whether `path` starts at the root directory.
pub fn is_absolute(path: &str) -> (r: bool)
    ensures
        r == absolute(path@),
{
    !path.is_empty() && path.get_char(0) == '/'
}

/// The number of leading characters of `path` that belong to no segment.
fn lead_len(path: &str) -> (r: usize)
    ensures
        r == lead(path@),
        r <= path@.len(),
{
    let len = path.unicode_len();
    if len == 0 {
        0
    } else if path.get_char(0) == '/' {
        1
    } else if path.get_char(0) == '.' && (len == 1 || path.get_char(1) == '/') {
        1
    } else {
        0
    }
}

/// `base` extended by `path`.
pub fn join(base: &str, path: &str) -> (r: String)
    ensures
        r@ == joined_path(base@, path@),
{
    if is_absolute(path) {
        return path.to_owned();
    }
    enter(base, path)
}

/// What `name` names in the directory `dir`.
pub fn enter(dir: &str, name: &str) -> (r: String)
    ensures
        r@ == entry_path(dir@, name@),
{
    let len = dir.unicode_len();
    let mut r = dir.to_owned();
    if len > 0 && dir.get_char(len - 1) != '/' {
        r.append("/");
    }
    r.append(name);
    r
}

/// The components of `path`.
pub fn components_of(path: &str) -> (r: Vec<String>)
    ensures
        crate::text::views(r@) == components(path@),
{
    let from = lead_len(path);
    let to = path.unicode_len();
    let mut r: Vec<String> = Vec::new();
    if from == 1 {
        r.push(path.substring_char(0, 1).to_owned());
        assert(path@.subrange(0, 1) =~= path@.take(1));
    }
    let ghost head = crate::text::views(r@);
    assert(head =~= if lead(path@) == 1 {
        seq![path@.take(1)]
    } else {
        Seq::empty()
    });
    let body = path.substring_char(from, to);
    assert(body@ =~= path@.skip(lead(path@)));
    let segments = split(body, '/');
    let ghost all = crate::text::views(segments@);
    let ghost keep = |segment: Seq<char>| names_entry(segment);
    let mut i: usize = 0;
    proof {
        reveal(Seq::filter);
        assert(all.take(0).filter(keep) =~= Seq::empty());
        assert(head + all.take(0).filter(keep) =~= head);
        reveal_strlit(".");
    }
    while i < segments.len()
        invariant
            i <= segments@.len(),
            all == crate::text::views(segments@),
            keep == (|segment: Seq<char>| names_entry(segment)),
            crate::text::views(r@) == head + all.take(i as int).filter(keep),
            "."@ =~= seq!['.'],
        decreases segments@.len() - i,
    {
        let segment = segments[i].as_str();
        let ghost so_far = crate::text::views(r@);
        assert(all[i as int] == segment@);
        proof {
            reveal(Seq::filter);
            assert(all.take(i + 1).drop_last() =~= all.take(i as int));
        }
        if !segment.is_empty() && !same_text(segment, ".") {
            r.push(segment.to_owned());
            assert(crate::text::views(r@) =~= so_far.push(segment@));
            assert(so_far.push(segment@) =~= head + all.take(i as int).filter(keep).push(
                segment@,
            ));
        }
        i = i + 1;
    }
    assert(all.take(i as int) =~= all);
    r
}

/// Whether a `..` component occurs in `path`.
pub fn has_parent_component(path: &str) -> (r: bool)
    ensures
        r == climbs(path@),
{
    let parts = components_of(path);
    let mut i: usize = 0;
    proof {
        reveal_strlit("..");
        assert(".."@ =~= seq!['.', '.']);
    }
    while i < parts.len()
        invariant
            i <= parts@.len(),
            crate::text::views(parts@) == components(path@),
            forall|j: int| 0 <= j < i ==> components(path@)[j] != seq!['.', '.'],
            ".."@ == seq!['.', '.'],
        decreases parts@.len() - i,
    {
        assert(components(path@)[i as int] == parts@[i as int]@);
        if same_text(parts[i].as_str(), "..") {
            return true;
        }
        i = i + 1;
    }
    false
}

/// Whether the components of `path` begin with those of `base`.
pub fn is_within(path: &str, base: &str) -> (r: bool)
    ensures
        r == within(path@, base@),
{
    let inner = components_of(path);
    let outer = components_of(base);
    if outer.len() > inner.len() {
        return false;
    }
    let mut i: usize = 0;
    while i < outer.len()
        invariant
            i <= outer@.len() <= inner@.len(),
            crate::text::views(inner@) == components(path@),
            crate::text::views(outer@) == components(base@),
            forall|j: int| 0 <= j < i ==> components(path@)[j] == components(base@)[j],
        decreases outer@.len() - i,
    {
        assert(components(path@)[i as int] == inner@[i as int]@);
        assert(components(base@)[i as int] == outer@[i as int]@);
        if !same_text(inner[i].as_str(), outer[i].as_str()) {
            assert(components(path@).subrange(0, components(base@).len() as int)[i as int]
                != components(base@)[i as int]);
            return false;
        }
        i = i + 1;
    }
    assert(components(base@) =~= components(path@).subrange(0, components(base@).len() as int));
    true
}

/// Where the last segment of `chars[from..to]` starts.
fn segment_start(chars: &Vec<char>, from: usize, to: usize, sep: char) -> (r: usize)
    requires
        from <= to <= chars@.len(),
    ensures
        from <= r <= to,
        r == from || chars@[r - 1] == sep,
        crate::text::pieces(chars@.subrange(from as int, to as int), sep).last()
            == chars@.subrange(r as int, to as int),
{
    let mut r: usize = to;
    while r > from && chars[r - 1] != sep
        invariant
            from <= r <= to <= chars@.len(),
            forall|j: int| r <= j < to ==> chars@[j] != sep,
        decreases r,
    {
        r = r - 1;
    }
    proof {
        let body = chars@.subrange(from as int, to as int);
        last_piece_starts(body, sep, r - from);
        assert(body.skip(r - from) =~= chars@.subrange(r as int, to as int));
    }
    r
}

/// Where `chars[from..to]` ends once the trailing segments that name nothing are
/// gone.
fn tidy_end(chars: &Vec<char>, from: usize, to: usize) -> (r: usize)
    requires
        from <= to <= chars@.len(),
    ensures
        from <= r <= to,
        tidy(chars@.subrange(from as int, to as int)) == chars@.subrange(from as int, r as int),
        r > from ==> names_entry(last_segment(chars@.subrange(from as int, r as int))),
{
    let mut end: usize = to;
    while end > from
        invariant
            from <= end <= to <= chars@.len(),
            tidy(chars@.subrange(from as int, to as int)) == tidy(
                chars@.subrange(from as int, end as int),
            ),
        decreases end,
    {
        let start = segment_start(chars, from, end, '/');
        let ghost body = chars@.subrange(from as int, end as int);
        let ghost segment = chars@.subrange(start as int, end as int);
        assert(last_segment(body) == segment);
        if start < end && end - start == 1 && chars[start] == '.' {
            assert(segment =~= seq!['.']);
        } else if start < end {
            assert(segment != seq!['.']) by {
                if segment == seq!['.'] {
                    assert(segment.len() == 1);
                    assert(segment[0] == chars@[start as int]);
                }
            }
            return end;
        }
        let next: usize = if start == from {
            from
        } else {
            start - 1
        };
        assert(drop_segment(body) =~= chars@.subrange(from as int, next as int));
        end = next;
    }
    end
}

/// The path of the directory that holds `path`.
pub fn parent_of(path: &str) -> (r: Option<String>)
    ensures
        match r {
            Some(dir) => parent(path@) == Some(dir@),
            None => parent(path@) is None,
        },
{
    let chars = chars_of(path);
    let from = lead_len(path);
    let end = tidy_end(&chars, from, chars.len());
    let ghost body = path@.subrange(from as int, end as int);
    assert(chars@.subrange(from as int, chars@.len() as int) =~= path@.skip(lead(path@)));
    if end > from {
        let start = segment_start(&chars, from, end, '/');
        let cut: usize = if start == from {
            from
        } else {
            start - 1
        };
        assert(drop_segment(body) =~= path@.subrange(from as int, cut as int));
        let last = tidy_end(&chars, from, cut);
        let dir = path.substring_char(0, last);
        assert(dir@ =~= path@.take(lead(path@)) + path@.subrange(from as int, last as int));
        Some(dir.to_owned())
    } else if from == 1 && path.get_char(0) == '.' {
        Some(String::new())
    } else {
        None
    }
}

/// The name of the entry that `path` leads to.
pub fn file_name_of(path: &str) -> (r: Option<String>)
    ensures
        match r {
            Some(name) => file_name(path@) == Some(name@),
            None => file_name(path@) is None,
        },
{
    let chars = chars_of(path);
    let from = lead_len(path);
    let end = tidy_end(&chars, from, chars.len());
    let ghost body = path@.subrange(from as int, end as int);
    assert(chars@.subrange(from as int, chars@.len() as int) =~= path@.skip(lead(path@)));
    proof {
        reveal_strlit("..");
        assert(".."@ =~= seq!['.', '.']);
    }
    if end > from {
        let start = segment_start(&chars, from, end, '/');
        let name = path.substring_char(start, end);
        assert(name@ == last_segment(body));
        if same_text(name, "..") {
            None
        } else {
            Some(name.to_owned())
        }
    } else {
        None
    }
}

/// Where the name `chars[start..end]` ends once its extension is gone.
fn stem_end(chars: &Vec<char>, start: usize, end: usize) -> (r: usize)
    requires
        start < end <= chars@.len(),
    ensures
        start < r <= end,
        r < end ==> chars@[r as int] == '.',
        stem(chars@.subrange(start as int, end as int)) == chars@.subrange(start as int, r as int),
{
    let dot = segment_start(chars, start, end, '.');
    let r: usize = if dot > start + 1 {
        dot - 1
    } else {
        end
    };
    assert(stem(chars@.subrange(start as int, end as int)) =~= chars@.subrange(
        start as int,
        r as int,
    ));
    r
}

/// `path` up to `end`, where its last name starts at `start`, with the extension of
/// that name replaced.
fn rename(path: &str, start: usize, end: usize, extension: &str) -> (r: String)
    requires
        start < end <= path@.len(),
        path@.subrange(start as int, end as int) != seq!['.', '.'],
        names_entry(path@.subrange(start as int, end as int)),
    ensures
        r@ == renamed(
            path@.take(start as int),
            path@.subrange(start as int, end as int),
            end == path@.len(),
            extension@,
        ),
{
    let chars = chars_of(path);
    let cut = stem_end(&chars, start, end);
    let ghost dir = path@.take(start as int);
    let ghost name = path@.subrange(start as int, end as int);
    if cut == start + 1 && chars[start] == '.' && end == chars.len() {
        assert(stem(name) =~= seq!['.']);
        if cut == end {
            assert(name =~= seq!['.']);
        }
        let kept = path.substring_char(0, cut + 1);
        assert(kept@ =~= dir + seq!['.', '.']);
        return kept.to_owned();
    }
    assert(stem(name) == seq!['.'] ==> stem(name).len() == 1 && stem(name)[0] == '.');
    let kept = path.substring_char(0, cut);
    assert(kept@ =~= dir + stem(name));
    let mut r = kept.to_owned();
    r.append(".");
    r.append(extension);
    r
}

/// `path` with the extension of its file name replaced by `extension`.
pub fn replace_extension(path: &str, extension: &str) -> (r: String)
    ensures
        r@ == with_extension(path@, extension@),
{
    let chars = chars_of(path);
    let from = lead_len(path);
    let end = tidy_end(&chars, from, chars.len());
    let ghost body = path@.subrange(from as int, end as int);
    assert(chars@.subrange(from as int, chars@.len() as int) =~= path@.skip(lead(path@)));
    match file_name_of(path) {
        None => path.to_owned(),
        Some(name) => {
            let start = segment_start(&chars, from, end, '/');
            let ghost whole = path@.subrange(start as int, end as int);
            assert(name@ == whole);
            let ghost dir = path@.take(lead(path@)) + body.take(body.len() - whole.len());
            assert(dir =~= path@.take(start as int));
            assert(dir + whole =~= path@.take(end as int));
            assert(path@.take(path@.len() as int) =~= path@);
            assert(dir + whole == path@ <==> end == path@.len());
            rename(path, start, end, extension)
        },
    }
}

/// What is entered from a directory is within it, whatever it is called.
pub proof fn entries_are_within_their_directory(dir: Seq<char>, name: Seq<char>)
    requires
        dir.len() > 0,
    ensures
        within(entry_path(dir, name), dir),
{
    entry_adds_components(dir, name);
}

/// Only what has its whole name is within a directory: an entry is within another one of
/// the same directory only when the two have the same name.
pub proof fn siblings_are_not_within_each_other(dir: Seq<char>, a: Seq<char>, b: Seq<char>)
    requires
        plain_name(a),
        plain_name(b),
        a != b,
    ensures
        !within(entry_path(dir, a), entry_path(dir, b)),
{
    plain_entry_adds_its_name(dir, a);
    plain_entry_adds_its_name(dir, b);
    let n = components(dir).len() as int;
    assert(components(entry_path(dir, a))[n] == a);
    assert(components(entry_path(dir, b))[n] == b);
}

/// A path climbs that goes through the parent of some directory, whatever comes before and
/// after.
pub proof fn paths_through_a_parent_climb(before: Seq<char>, after: Seq<char>)
    requires
        before.len() > 0,
    ensures
        climbs(entry_path(before, ".."@)),
        climbs(entry_path(entry_path(before, ".."@), after)),
{
    reveal_strlit("..");
    let dots = seq!['.', '.'];
    assert(".."@ =~= dots);
    let none: Seq<Seq<char>> = Seq::empty();
    last_piece(dots, '/');
    assert(last_start(dots, '/') == 0);
    naming_push(none, dots);
    assert(naming(none) =~= none) by {
        reveal(Seq::filter);
    }
    assert(none.push(dots) =~= seq![dots]);
    entry_adds_components(before, dots);
    let path = entry_path(before, dots);
    let n = components(before).len() as int;
    assert(components(path)[n] == dots);
    entry_adds_components(path, after);
    assert(components(entry_path(path, after))[n] == dots);
}

} // verus!
