//! Text primitives: searching, splitting, trimming and decimal rendering.
//!
//! Text is modelled as the sequence of its characters.

use vstd::prelude::*;
use vstd::string::*;

verus! {

/// `needle` occurs in `s` starting at character `at`.
pub open spec fn occurs_at(s: Seq<char>, needle: Seq<char>, at: int) -> bool {
    0 <= at && at + needle.len() <= s.len() && s.subrange(at, at + needle.len()) == needle
}

/// `needle` occurs somewhere in `s`.
pub open spec fn has_text(s: Seq<char>, needle: Seq<char>) -> bool {
    exists|at: int| occurs_at(s, needle, at)
}

/// `s` begins with `prefix`.
pub open spec fn begins_with(s: Seq<char>, prefix: Seq<char>) -> bool {
    occurs_at(s, prefix, 0)
}

/// The characters with the Unicode `White_Space` property.
pub open spec fn white_space(c: char) -> bool {
    ||| '\u{9}' <= c <= '\u{d}'
    ||| c == '\u{20}'
    ||| c == '\u{85}'
    ||| c == '\u{a0}'
    ||| c == '\u{1680}'
    ||| '\u{2000}' <= c <= '\u{200a}'
    ||| c == '\u{2028}'
    ||| c == '\u{2029}'
    ||| c == '\u{202f}'
    ||| c == '\u{205f}'
    ||| c == '\u{3000}'
}

/// `s` without its leading white space.
pub open spec fn trimmed_start(s: Seq<char>) -> Seq<char>
    decreases s.len(),
{
    if s.len() > 0 && white_space(s[0]) {
        trimmed_start(s.drop_first())
    } else {
        s
    }
}

/// `s` without its trailing white space.
pub open spec fn trimmed_end(s: Seq<char>) -> Seq<char>
    decreases s.len(),
{
    if s.len() > 0 && white_space(s.last()) {
        trimmed_end(s.drop_last())
    } else {
        s
    }
}

/// `s` without leading and trailing white space.
pub open spec fn trimmed(s: Seq<char>) -> Seq<char> {
    trimmed_end(trimmed_start(s))
}

/// `s` without its leading occurrences of `c`.
pub open spec fn without_leading(s: Seq<char>, c: char) -> Seq<char>
    decreases s.len(),
{
    if s.len() > 0 && s[0] == c {
        without_leading(s.drop_first(), c)
    } else {
        s
    }
}

/// The pieces of `s` between occurrences of `sep`; always at least one piece.
pub open spec fn pieces(s: Seq<char>, sep: char) -> Seq<Seq<char>>
    decreases s.len(),
{
    if s.len() == 0 {
        seq![Seq::empty()]
    } else {
        let front = pieces(s.drop_last(), sep);
        if s.last() == sep {
            front.push(Seq::empty())
        } else {
            front.drop_last().push(front.last().push(s.last()))
        }
    }
}

/// The first `sep` in `s` is at `at`.
pub open spec fn first_at(s: Seq<char>, sep: char, at: int) -> bool {
    0 <= at < s.len() && s[at] == sep && forall|j: int| 0 <= j < at ==> s[j] != sep
}

/// What precedes and what follows the first `sep` in `s`, when there is one.
pub open spec fn halves(s: Seq<char>, sep: char) -> Option<(Seq<char>, Seq<char>)> {
    if s.contains(sep) {
        let at = choose|at: int| first_at(s, sep, at);
        Some((s.take(at), s.skip(at + 1)))
    } else {
        None
    }
}

/// The last `sep` in `s` is at `at`.
pub open spec fn last_at(s: Seq<char>, sep: char, at: int) -> bool {
    0 <= at < s.len() && s[at] == sep && forall|j: int| at < j < s.len() ==> s[j] != sep
}

/// What precedes and what follows the last `sep` in `s`, when there is one.
pub open spec fn last_halves(s: Seq<char>, sep: char) -> Option<(Seq<char>, Seq<char>)> {
    if s.contains(sep) {
        let at = choose|at: int| last_at(s, sep, at);
        Some((s.take(at), s.skip(at + 1)))
    } else {
        None
    }
}

/// The maximal runs of characters of `s` that are not white space.
pub open spec fn words(s: Seq<char>) -> Seq<Seq<char>>
    decreases s.len(),
{
    if s.len() == 0 {
        Seq::empty()
    } else if white_space(s.last()) {
        words(s.drop_last())
    } else {
        let front = words(s.drop_last());
        if s.len() > 1 && !white_space(s[s.len() - 2]) {
            front.drop_last().push(front.last().push(s.last()))
        } else {
            front.push(seq![s.last()])
        }
    }
}

/// The items of `list` with `sep` between neighbours.
pub open spec fn joined(list: Seq<Seq<char>>, sep: Seq<char>) -> Seq<char>
    decreases list.len(),
{
    if list.len() == 0 {
        Seq::empty()
    } else if list.len() == 1 {
        list[0]
    } else {
        joined(list.drop_last(), sep) + sep + list.last()
    }
}

/// The characters of each text of a list.
pub open spec fn views(list: Seq<String>) -> Seq<Seq<char>> {
    list.map_values(|s: String| s@)
}

/// The characters of each pair of texts of a list.
pub open spec fn pair_views(list: Seq<(String, String)>) -> Seq<(Seq<char>, Seq<char>)> {
    list.map_values(|pair: (String, String)| (pair.0@, pair.1@))
}

/// The character for a decimal digit.
pub open spec fn digit_char(d: int) -> char {
    seq!['0', '1', '2', '3', '4', '5', '6', '7', '8', '9'][d]
}

/// `n` in decimal, without leading zeros.
pub open spec fn decimal(n: nat) -> Seq<char>
    decreases n,
{
    if n < 10 {
        seq![digit_char(n as int)]
    } else {
        decimal(n / 10).push(digit_char((n % 10) as int))
    }
}

/// `n` in decimal, with a leading minus sign when it is negative.
pub open spec fn signed_decimal(n: int) -> Seq<char> {
    if n < 0 {
        "-"@ + decimal((-n) as nat)
    } else {
        decimal(n as nat)
    }
}

/// `n` in decimal, filled with leading zeros up to `width` characters.
pub open spec fn zero_padded(n: nat, width: nat) -> Seq<char> {
    let digits = decimal(n);
    if digits.len() >= width {
        digits
    } else {
        Seq::new((width - digits.len()) as nat, |i: int| '0') + digits
    }
}

/// A path as `std::path::Path`'s `Debug` shows it: in quotes, with escapes.
pub uninterp spec fn quoted_path(path: Seq<char>) -> Seq<char>;

/// Calls `std::path::Path`'s `Debug`. Its escapes fill pages, so the result has a
/// name: it depends on the path alone.
#[verifier::external_body]
pub(crate) fn path_quoted(path: &str) -> (r: String)
    ensures
        r@ == quoted_path(path@),
{
    format!("{:?}", std::path::Path::new(path))
}

/// A text as `str`'s `Debug` shows it: in quotes, with escapes.
pub uninterp spec fn quoted_text(text: Seq<char>) -> Seq<char>;

/// Calls `str`'s `Debug`. Its escapes fill pages, so the result has a name: it
/// depends on the text alone.
#[verifier::external_body]
pub(crate) fn text_quoted(text: &str) -> (r: String)
    ensures
        r@ == quoted_text(text@),
{
    format!("{:?}", text)
}

/// A list of texts as a slice's `Debug` shows it: each in quotes, with commas
/// between them, in brackets.
pub open spec fn quoted_list(list: Seq<Seq<char>>) -> Seq<char> {
    "["@ + joined(list.map_values(|text: Seq<char>| quoted_text(text)), ", "@) + "]"@
}

/// A list of texts, each in quotes, with commas between them, in brackets.
pub fn list_quoted(list: &Vec<String>) -> (r: String)
    ensures
        r@ == quoted_list(views(list@)),
{
    let ghost wanted = views(list@).map_values(|text: Seq<char>| quoted_text(text));
    let mut items: Vec<String> = Vec::new();
    let mut i: usize = 0;
    while i < list.len()
        invariant
            i <= list@.len(),
            wanted == views(list@).map_values(|text: Seq<char>| quoted_text(text)),
            views(items@) == wanted.take(i as int),
        decreases list@.len() - i,
    {
        let ghost before = views(items@);
        items.push(text_quoted(list[i].as_str()));
        assert(views(items@) =~= before.push(wanted[i as int]));
        assert(wanted.take(i + 1) =~= wanted.take(i as int).push(wanted[i as int]));
        i = i + 1;
    }
    assert(wanted.take(i as int) =~= wanted);
    let mut r = "[".to_owned();
    r.append(join(&items, ", ").as_str());
    r.append("]");
    r
}

/// Whether two texts hold the same characters.
pub fn same_text(a: &str, b: &str) -> (r: bool)
    ensures
        r == (a@ == b@),
{
    a.to_owned() == b.to_owned()
}

/// The characters of `s`, in order.
pub fn chars_of(s: &str) -> (r: Vec<char>)
    ensures
        r@ == s@,
{
    let mut r: Vec<char> = Vec::new();
    for c in it: s.chars()
        invariant
            it.seq() == s@,
            r@ == s@.take(it.index() as int),
    {
        r.push(c);
    }
    r
}

/// The index of the first `c` in `s`, counted in characters.
pub fn find_char(s: &str, c: char) -> (r: Option<usize>)
    ensures
        match r {
            Some(i) => i < s@.len() && s@[i as int] == c && forall|j: int|
                0 <= j < i ==> s@[j] != c,
            None => forall|j: int| 0 <= j < s@.len() ==> s@[j] != c,
        },
        (r is Some) == s@.contains(c),
{
    let chars = chars_of(s);
    let mut i: usize = 0;
    while i < chars.len()
        invariant
            chars@ == s@,
            i <= chars@.len(),
            forall|j: int| 0 <= j < i ==> s@[j] != c,
        decreases chars@.len() - i,
    {
        if chars[i] == c {
            assert(s@[i as int] == c);
            return Some(i);
        }
        i = i + 1;
    }
    None
}

/// The index of the last `c` in `s`, counted in characters.
pub fn rfind_char(s: &str, c: char) -> (r: Option<usize>)
    ensures
        match r {
            Some(i) => i < s@.len() && s@[i as int] == c && forall|j: int|
                i < j < s@.len() ==> s@[j] != c,
            None => forall|j: int| 0 <= j < s@.len() ==> s@[j] != c,
        },
        (r is Some) == s@.contains(c),
{
    let chars = chars_of(s);
    let mut i: usize = chars.len();
    while i > 0
        invariant
            chars@ == s@,
            i <= chars@.len(),
            forall|j: int| i <= j < s@.len() ==> s@[j] != c,
        decreases i,
    {
        i = i - 1;
        if chars[i] == c {
            assert(s@[i as int] == c);
            return Some(i);
        }
    }
    None
}

/// Whether `c` occurs in `s`.
pub fn has_char(s: &str, c: char) -> (r: bool)
    ensures
        r == s@.contains(c),
{
    find_char(s, c).is_some()
}

fn matches_at(hay: &Vec<char>, needle: &Vec<char>, at: usize) -> (r: bool)
    requires
        at + needle@.len() <= hay@.len(),
    ensures
        r == occurs_at(hay@, needle@, at as int),
{
    let end: usize = hay.len();
    let mut i: usize = 0;
    while i < needle.len()
        invariant
            end == hay@.len(),
            at + needle@.len() <= end,
            i <= needle@.len(),
            forall|j: int| 0 <= j < i ==> hay@[at + j] == needle@[j],
        decreases needle@.len() - i,
    {
        if hay[at + i] != needle[i] {
            assert(hay@.subrange(at as int, at + needle@.len())[i as int] != needle@[i as int]);
            return false;
        }
        i = i + 1;
    }
    assert(hay@.subrange(at as int, at + needle@.len()) =~= needle@);
    true
}

/// Whether `needle` occurs in `s`.
pub fn contains_text(s: &str, needle: &str) -> (r: bool)
    ensures
        r == has_text(s@, needle@),
{
    let hay = chars_of(s);
    let wanted = chars_of(needle);
    if wanted.len() > hay.len() {
        return false;
    }
    let last: usize = hay.len() - wanted.len();
    let mut at: usize = 0;
    while at <= last
        invariant
            hay@ == s@,
            wanted@ == needle@,
            last + wanted@.len() == hay@.len(),
            at <= last + 1,
            forall|j: int| 0 <= j < at ==> !occurs_at(s@, needle@, j),
        decreases last + 1 - at,
    {
        if matches_at(&hay, &wanted, at) {
            return true;
        }
        if at == last {
            assert forall|j: int| !occurs_at(s@, needle@, j) by {}
            return false;
        }
        at = at + 1;
    }
    false
}

/// Whether `s` begins with `prefix`.
pub fn has_prefix(s: &str, prefix: &str) -> (r: bool)
    ensures
        r == begins_with(s@, prefix@),
{
    let hay = chars_of(s);
    let wanted = chars_of(prefix);
    wanted.len() <= hay.len() && matches_at(&hay, &wanted, 0)
}

/// What follows `prefix` in `s`, when `s` begins with it.
pub fn strip_text<'a>(s: &'a str, prefix: &str) -> (r: Option<&'a str>)
    ensures
        match r {
            Some(rest) => begins_with(s@, prefix@) && rest@ == s@.skip(prefix@.len() as int),
            None => !begins_with(s@, prefix@),
        },
{
    if has_prefix(s, prefix) {
        let from = prefix.unicode_len();
        let to = s.unicode_len();
        let rest = s.substring_char(from, to);
        assert(rest@ =~= s@.skip(prefix@.len() as int));
        Some(rest)
    } else {
        None
    }
}

/// What precedes and what follows the first `sep` in `s`, when there is one.
pub fn split_once<'a>(s: &'a str, sep: char) -> (r: Option<(&'a str, &'a str)>)
    ensures
        match r {
            Some((before, after)) => halves(s@, sep) == Some((before@, after@)),
            None => halves(s@, sep) is None,
        },
{
    match find_char(s, sep) {
        None => None,
        Some(at) => {
            let len = s.unicode_len();
            let before = s.substring_char(0, at);
            let after = s.substring_char(at + 1, len);
            proof {
                assert(first_at(s@, sep, at as int));
                let chosen = choose|i: int| first_at(s@, sep, i);
                assert(first_at(s@, sep, chosen));
                assert(chosen == at);
                assert(before@ =~= s@.take(at as int));
                assert(after@ =~= s@.skip(at + 1));
            }
            Some((before, after))
        },
    }
}

/// What precedes and what follows the last `sep` in `s`, when there is one.
pub fn rsplit_once<'a>(s: &'a str, sep: char) -> (r: Option<(&'a str, &'a str)>)
    ensures
        match r {
            Some((before, after)) => last_halves(s@, sep) == Some((before@, after@)),
            None => last_halves(s@, sep) is None,
        },
{
    match rfind_char(s, sep) {
        None => None,
        Some(at) => {
            let len = s.unicode_len();
            let before = s.substring_char(0, at);
            let after = s.substring_char(at + 1, len);
            proof {
                assert(last_at(s@, sep, at as int));
                let chosen = choose|i: int| last_at(s@, sep, i);
                assert(last_at(s@, sep, chosen));
                assert(chosen == at);
                assert(before@ =~= s@.take(at as int));
                assert(after@ =~= s@.skip(at + 1));
            }
            Some((before, after))
        },
    }
}

/// Whether `c` has the Unicode `White_Space` property.
pub fn is_white_space(c: char) -> (r: bool)
    ensures
        r == white_space(c),
{
    ('\u{9}' <= c && c <= '\u{d}') || c == '\u{20}' || c == '\u{85}' || c == '\u{a0}' || c
        == '\u{1680}' || ('\u{2000}' <= c && c <= '\u{200a}') || c == '\u{2028}' || c == '\u{2029}'
        || c == '\u{202f}' || c == '\u{205f}' || c == '\u{3000}'
}

/// `s` without leading and trailing white space.
pub fn trim(s: &str) -> (r: &str)
    ensures
        r@ == trimmed(s@),
{
    let chars = chars_of(s);
    let mut from: usize = 0;
    assert(s@.skip(0) =~= s@);
    while from < chars.len() && is_white_space(chars[from])
        invariant
            chars@ == s@,
            from <= chars@.len(),
            trimmed_start(s@) == trimmed_start(s@.skip(from as int)),
        decreases chars@.len() - from,
    {
        assert(s@.skip(from as int).drop_first() =~= s@.skip(from + 1));
        from = from + 1;
    }
    let ghost kept = trimmed_start(s@);
    assert(kept == s@.skip(from as int));
    let mut to: usize = chars.len();
    assert(kept.take(to - from) =~= kept);
    while to > from && is_white_space(chars[to - 1])
        invariant
            chars@ == s@,
            from <= to <= chars@.len(),
            kept == s@.skip(from as int),
            trimmed_end(kept) == trimmed_end(kept.take(to - from)),
        decreases to,
    {
        assert(kept.take(to - from).drop_last() =~= kept.take(to - 1 - from));
        to = to - 1;
    }
    let r = s.substring_char(from, to);
    assert(r@ =~= kept.take(to - from));
    r
}

/// `s` without its leading occurrences of `c`.
pub fn trim_leading(s: &str, c: char) -> (r: &str)
    ensures
        r@ == without_leading(s@, c),
{
    let chars = chars_of(s);
    let mut from: usize = 0;
    assert(s@.skip(0) =~= s@);
    while from < chars.len() && chars[from] == c
        invariant
            chars@ == s@,
            from <= chars@.len(),
            without_leading(s@, c) == without_leading(s@.skip(from as int), c),
        decreases chars@.len() - from,
    {
        assert(s@.skip(from as int).drop_first() =~= s@.skip(from + 1));
        from = from + 1;
    }
    let r = s.substring_char(from, chars.len());
    assert(r@ =~= s@.skip(from as int));
    r
}

/// The pieces of `s` between occurrences of `sep`.
pub fn split(s: &str, sep: char) -> (r: Vec<String>)
    ensures
        views(r@) == pieces(s@, sep),
{
    let chars = chars_of(s);
    let mut r: Vec<String> = Vec::new();
    let mut from: usize = 0;
    let mut i: usize = 0;
    assert(s@.take(0) =~= Seq::empty());
    while i < chars.len()
        invariant
            chars@ == s@,
            from <= i <= chars@.len(),
            views(r@).push(s@.subrange(from as int, i as int)) == pieces(s@.take(i as int), sep),
        decreases chars@.len() - i,
    {
        let ghost done = views(r@);
        let ghost open = s@.subrange(from as int, i as int);
        assert(s@.take(i + 1).drop_last() =~= s@.take(i as int));
        if chars[i] == sep {
            let piece = s.substring_char(from, i).to_owned();
            r.push(piece);
            assert(views(r@) =~= done.push(open));
            from = i + 1;
            assert(s@.subrange(from as int, i + 1) =~= Seq::<char>::empty());
        } else {
            assert(done.push(open).drop_last() =~= done);
            assert(s@.subrange(from as int, i + 1) =~= open.push(s@[i as int]));
        }
        i = i + 1;
    }
    let ghost done = views(r@);
    r.push(s.substring_char(from, i).to_owned());
    assert(views(r@) =~= done.push(s@.subrange(from as int, i as int)));
    assert(s@.take(i as int) =~= s@);
    r
}

/// The maximal runs of characters of `s` that are not white space.
pub fn split_words(s: &str) -> (r: Vec<String>)
    ensures
        views(r@) == words(s@),
{
    let chars = chars_of(s);
    let mut r: Vec<String> = Vec::new();
    let mut from: usize = 0;
    let mut i: usize = 0;
    assert(s@.take(0) =~= Seq::empty());
    assert(views(r@) =~= Seq::empty());
    while i < chars.len()
        invariant
            chars@ == s@,
            from <= i <= chars@.len(),
            from == i ==> (i == 0 || white_space(s@[i - 1])) && views(r@) == words(
                s@.take(i as int),
            ),
            from < i ==> !white_space(s@[i - 1]) && views(r@).push(
                s@.subrange(from as int, i as int),
            ) == words(s@.take(i as int)),
        decreases chars@.len() - i,
    {
        let ghost done = views(r@);
        let ghost open = s@.subrange(from as int, i as int);
        let ghost next = s@.take(i + 1);
        assert(next.drop_last() =~= s@.take(i as int));
        if is_white_space(chars[i]) {
            if from < i {
                r.push(s.substring_char(from, i).to_owned());
                assert(views(r@) =~= done.push(open));
            }
            from = i + 1;
        } else {
            if from < i {
                assert(next[next.len() - 2] == s@[i - 1]);
                assert(done.push(open).drop_last() =~= done);
            } else {
                assert(i > 0 ==> next[next.len() - 2] == s@[i - 1]);
            }
            assert(s@.subrange(from as int, i + 1) =~= open.push(s@[i as int]));
            assert(from == i ==> open.push(s@[i as int]) =~= seq![s@[i as int]]);
        }
        i = i + 1;
    }
    assert(s@.take(i as int) =~= s@);
    if from < i {
        let ghost done = views(r@);
        r.push(s.substring_char(from, i).to_owned());
        assert(views(r@) =~= done.push(s@.subrange(from as int, i as int)));
    }
    r
}

/// The items of `list` with `sep` between neighbours.
pub fn join(list: &Vec<String>, sep: &str) -> (r: String)
    ensures
        r@ == joined(views(list@), sep@),
{
    let mut r = String::new();
    let mut i: usize = 0;
    assert(views(list@).take(0) =~= Seq::empty());
    while i < list.len()
        invariant
            i <= list@.len(),
            r@ == joined(views(list@).take(i as int), sep@),
        decreases list@.len() - i,
    {
        let ghost front = views(list@).take(i as int);
        let ghost next = views(list@).take(i + 1);
        assert(next.drop_last() =~= front);
        assert(next.last() == list@[i as int]@);
        if i > 0 {
            r.append(sep);
        } else {
            assert(r@ =~= Seq::empty());
            assert(r@ + list@[0]@ =~= list@[0]@);
        }
        r.append(list[i].as_str());
        i = i + 1;
    }
    assert(views(list@).take(i as int) =~= views(list@));
    r
}

/// A copy of a list of texts.
pub fn copy_list(list: &Vec<String>) -> (r: Vec<String>)
    ensures
        views(r@) == views(list@),
        r@.len() == list@.len(),
{
    let mut r: Vec<String> = Vec::new();
    let mut i: usize = 0;
    while i < list.len()
        invariant
            i <= list@.len(),
            r@.len() == i,
            views(r@) == views(list@).take(i as int),
        decreases list@.len() - i,
    {
        let ghost before = views(r@);
        r.push(list[i].clone());
        assert(views(r@) =~= before.push(list@[i as int]@));
        assert(views(list@).take(i + 1) =~= views(list@).take(i as int).push(list@[i as int]@));
        i = i + 1;
    }
    assert(views(list@).take(i as int) =~= views(list@));
    r
}

/// A copy of a list of pairs of texts.
pub fn copy_pairs(list: &Vec<(String, String)>) -> (r: Vec<(String, String)>)
    ensures
        pair_views(r@) == pair_views(list@),
{
    let mut r: Vec<(String, String)> = Vec::new();
    let mut i: usize = 0;
    while i < list.len()
        invariant
            i <= list@.len(),
            pair_views(r@) == pair_views(list@).take(i as int),
        decreases list@.len() - i,
    {
        let ghost before = pair_views(r@);
        let ghost item = (list@[i as int].0@, list@[i as int].1@);
        r.push((list[i].0.clone(), list[i].1.clone()));
        assert(pair_views(r@) =~= before.push(item));
        assert(pair_views(list@).take(i + 1) =~= pair_views(list@).take(i as int).push(item));
        i = i + 1;
    }
    assert(pair_views(list@).take(i as int) =~= pair_views(list@));
    r
}

fn digit_text(d: u64) -> (r: &'static str)
    requires
        d < 10,
    ensures
        r@ == seq![digit_char(d as int)],
{
    proof {
        reveal_strlit("0");
        reveal_strlit("1");
        reveal_strlit("2");
        reveal_strlit("3");
        reveal_strlit("4");
        reveal_strlit("5");
        reveal_strlit("6");
        reveal_strlit("7");
        reveal_strlit("8");
        reveal_strlit("9");
    }
    if d == 0 {
        "0"
    } else if d == 1 {
        "1"
    } else if d == 2 {
        "2"
    } else if d == 3 {
        "3"
    } else if d == 4 {
        "4"
    } else if d == 5 {
        "5"
    } else if d == 6 {
        "6"
    } else if d == 7 {
        "7"
    } else if d == 8 {
        "8"
    } else {
        "9"
    }
}

/// `n` in decimal.
pub fn decimal_text(n: u64) -> (r: String)
    ensures
        r@ == decimal(n as nat),
    decreases n,
{
    if n < 10 {
        digit_text(n).to_owned()
    } else {
        let mut r = decimal_text(n / 10);
        r.append(digit_text(n % 10));
        assert(r@ =~= decimal(n as nat));
        r
    }
}

/// `n` in decimal, with a sign when it is negative.
pub fn signed_decimal_text(n: i32) -> (r: String)
    ensures
        r@ == signed_decimal(n as int),
{
    if n < 0 {
        let magnitude: i64 = -(n as i64);
        let mut r = "-".to_owned();
        r.append(decimal_text(magnitude as u64).as_str());
        r
    } else {
        decimal_text(n as u64)
    }
}

/// `n` in decimal, filled with leading zeros up to `width` characters.
pub fn zero_padded_text(n: u64, width: usize) -> (r: String)
    ensures
        r@ == zero_padded(n as nat, width as nat),
{
    let digits = decimal_text(n);
    let len = digits.as_str().unicode_len();
    let mut r = String::new();
    let mut filled: usize = len;
    proof {
        reveal_strlit("0");
    }
    while filled < width
        invariant
            len == decimal(n as nat).len(),
            len <= filled,
            filled <= width || filled == len,
            r@ == Seq::new((filled - len) as nat, |i: int| '0'),
            "0"@ == seq!['0'],
        decreases width - filled,
    {
        r.append("0");
        filled = filled + 1;
        assert(r@ =~= Seq::new((filled - len) as nat, |i: int| '0'));
    }
    r.append(digits.as_str());
    assert(r@ =~= zero_padded(n as nat, width as nat));
    r
}

/// The number that a text of digits stands for.
pub open spec fn number_of(text: Seq<char>) -> nat
    decreases text.len(),
{
    if text.len() == 0 {
        0
    } else {
        (number_of(text.drop_last()) * 10 + (text.last() as nat - '0' as nat)) as nat
    }
}

/// Whether a text consists of digits.
pub open spec fn all_digits(text: Seq<char>) -> bool {
    forall|i: int| 0 <= i < text.len() ==> '0' <= #[trigger] text[i] <= '9'
}

/// A number in decimal notation consists of digits, stands for the number, and has no
/// leading zero but for the number zero itself.
pub proof fn decimal_stands_for_the_number(n: nat)
    ensures
        decimal(n).len() > 0,
        all_digits(decimal(n)),
        number_of(decimal(n)) == n,
        n > 0 ==> decimal(n)[0] != '0',
    decreases n,
{
    let text = decimal(n);
    if n < 10 {
        reveal_with_fuel(number_of, 2);
        assert(text.drop_last().len() == 0);
    } else {
        decimal_stands_for_the_number(n / 10);
        assert(text.drop_last() =~= decimal(n / 10));
        assert(text.last() == digit_char((n % 10) as int));
        assert forall|i: int| 0 <= i < text.len() implies '0' <= #[trigger] text[i] <= '9' by {
            if i < text.len() - 1 {
                assert(text.drop_last()[i] == text[i]);
            }
        }
        assert(text.drop_last()[0] == text[0]);
    }
}

proof fn zeros_stand_for_nothing(k: nat, text: Seq<char>)
    ensures
        number_of(Seq::new(k, |i: int| '0') + text) == number_of(text),
    decreases k + text.len(),
{
    let zeros = Seq::new(k, |i: int| '0');
    let whole = zeros + text;
    if text.len() > 0 {
        zeros_stand_for_nothing(k, text.drop_last());
        assert(whole.drop_last() =~= zeros + text.drop_last());
    } else if k > 0 {
        zeros_stand_for_nothing((k - 1) as nat, text);
        assert(whole.drop_last() =~= Seq::new((k - 1) as nat, |i: int| '0') + text);
    } else {
        assert(whole =~= text);
    }
}

/// A number that is filled up with zeros stands for the same number, and has at least the
/// width, with no more zeros than that takes.
pub proof fn padding_keeps_the_number(n: nat, width: nat)
    ensures
        number_of(zero_padded(n, width)) == n,
        zero_padded(n, width).len() == if decimal(n).len() < width {
            width
        } else {
            decimal(n).len()
        },
{
    decimal_stands_for_the_number(n);
    if decimal(n).len() < width {
        zeros_stand_for_nothing((width - decimal(n).len()) as nat, decimal(n));
    }
}

/// The two halves of a text give the text again with the separator between them, and the
/// separator is not in the first one.
pub proof fn halves_give_the_text(s: Seq<char>, sep: char)
    ensures
        halves(s, sep) is Some == s.contains(sep),
        halves(s, sep) matches Some((before, after)) ==> s == before.push(sep) + after
            && !before.contains(sep),
        last_halves(s, sep) is Some == s.contains(sep),
        last_halves(s, sep) matches Some((before, after)) ==> s == before.push(sep) + after
            && !after.contains(sep),
{
    if s.contains(sep) {
        first_exists(s, sep);
        last_exists(s, sep);
        let at = choose|at: int| first_at(s, sep, at);
        assert(first_at(s, sep, at));
        assert(s =~= s.take(at).push(sep) + s.skip(at + 1));
        let end = choose|end: int| last_at(s, sep, end);
        assert(last_at(s, sep, end));
        assert(s =~= s.take(end).push(sep) + s.skip(end + 1));
    }
}

proof fn first_exists(s: Seq<char>, sep: char)
    requires
        s.contains(sep),
    ensures
        exists|at: int| first_at(s, sep, at),
    decreases s.len(),
{
    let front = s.drop_last();
    if front.contains(sep) {
        first_exists(front, sep);
        let at = choose|at: int| first_at(front, sep, at);
        assert(first_at(s, sep, at)) by {
            assert(s[at] == front[at]);
            assert forall|j: int| 0 <= j < at implies s[j] != sep by {
                assert(s[j] == front[j]);
            }
        }
    } else {
        let last = s.len() - 1;
        let i = choose|i: int| 0 <= i < s.len() && s[i] == sep;
        assert forall|j: int| 0 <= j < last implies s[j] != sep by {
            assert(front[j] == s[j]);
            assert(front.contains(front[j]));
        }
        assert(i == last);
        assert(first_at(s, sep, last));
    }
}

proof fn last_exists(s: Seq<char>, sep: char)
    requires
        s.contains(sep),
    ensures
        exists|at: int| last_at(s, sep, at),
    decreases s.len(),
{
    if s.last() == sep {
        assert(last_at(s, sep, s.len() - 1));
    } else {
        let front = s.drop_last();
        let i = choose|i: int| 0 <= i < s.len() && s[i] == sep;
        assert(front[i] == sep);
        last_exists(front, sep);
        let at = choose|at: int| last_at(front, sep, at);
        assert(last_at(s, sep, at)) by {
            assert(s[at] == front[at]);
            assert forall|j: int| at < j < s.len() implies s[j] != sep by {
                if j < s.len() - 1 {
                    assert(s[j] == front[j]);
                }
            }
        }
    }
}

proof fn text_without_separator_is_one_piece(s: Seq<char>, sep: char)
    requires
        !s.contains(sep),
    ensures
        pieces(s, sep) == seq![s],
    decreases s.len(),
{
    if s.len() > 0 {
        let front = s.drop_last();
        assert(s[s.len() - 1] == s.last());
        assert forall|i: int| 0 <= i < front.len() implies front[i] != sep by {
            assert(s[i] == front[i]);
        }
        text_without_separator_is_one_piece(front, sep);
        assert(front.push(s.last()) =~= s);
        assert(pieces(s, sep) =~= seq![s]);
    } else {
        assert(s =~= Seq::empty());
    }
}

/// The pieces of texts that were joined are these texts again, when none of them holds the
/// separator.
pub proof fn joined_texts_split_again(list: Seq<Seq<char>>, sep: char)
    requires
        list.len() > 0,
        forall|i: int| 0 <= i < list.len() ==> !(#[trigger] list[i]).contains(sep),
    ensures
        pieces(joined(list, seq![sep]), sep) == list,
    decreases list.len(),
{
    if list.len() == 1 {
        text_without_separator_is_one_piece(list[0], sep);
        assert(list =~= seq![list[0]]);
    } else {
        let front = list.drop_last();
        assert forall|i: int| 0 <= i < front.len() implies !(#[trigger] front[i]).contains(sep) by {
            assert(front[i] == list[i]);
        }
        joined_texts_split_again(front, sep);
        let a = joined(front, seq![sep]);
        assert(a + seq![sep] + list.last() =~= a.push(sep) + list.last());
        crate::path::pieces_join(a, list.last(), sep);
        assert(list[list.len() - 1] == list.last());
        text_without_separator_is_one_piece(list.last(), sep);
        assert(front + seq![list.last()] =~= list);
    }
}

/// The pieces of a text, joined again, are the text.
pub proof fn pieces_join_again(s: Seq<char>, sep: char)
    ensures
        pieces(s, sep).len() > 0,
        joined(pieces(s, sep), seq![sep]) == s,
    decreases s.len(),
{
    let all = pieces(s, sep);
    if s.len() == 0 {
        assert(joined(all, seq![sep]) =~= s);
    } else {
        let front = pieces(s.drop_last(), sep);
        pieces_join_again(s.drop_last(), sep);
        if s.last() == sep {
            assert(all.drop_last() =~= front);
            assert(joined(all, seq![sep]) =~= s);
        } else {
            assert(all.drop_last() =~= front.drop_last());
            assert(all.last() =~= front.last().push(s.last()));
            if front.len() == 1 {
                assert(joined(all, seq![sep]) =~= s);
            } else {
                assert(joined(all, seq![sep]) =~= joined(front, seq![sep]).push(s.last()));
                assert(joined(all, seq![sep]) =~= s);
            }
        }
    }
}

/// What is left of a text without the white space around it starts and ends with something
/// else, and only white space was taken away.
pub proof fn trimming_takes_only_white_space(s: Seq<char>) -> (r: (Seq<char>, Seq<char>))
    ensures
        s == r.0 + trimmed(s) + r.1,
        forall|i: int| 0 <= i < r.0.len() ==> white_space(#[trigger] r.0[i]),
        forall|i: int| 0 <= i < r.1.len() ==> white_space(#[trigger] r.1[i]),
        trimmed(s).len() > 0 ==> !white_space(trimmed(s)[0]) && !white_space(trimmed(s).last()),
{
    let a = leading_white_space(s);
    let t = trimmed_start(s);
    let b = trailing_white_space(t);
    assert(s =~= a + trimmed(s) + b);
    if trimmed(s).len() > 0 {
        assert(t[0] == trimmed(s)[0]);
    }
    (a, b)
}

proof fn leading_white_space(s: Seq<char>) -> (a: Seq<char>)
    ensures
        s == a + trimmed_start(s),
        forall|i: int| 0 <= i < a.len() ==> white_space(#[trigger] a[i]),
        trimmed_start(s).len() > 0 ==> !white_space(trimmed_start(s)[0]),
    decreases s.len(),
{
    if s.len() > 0 && white_space(s[0]) {
        let rest = s.drop_first();
        let a = leading_white_space(rest);
        let r = seq![s[0]] + a;
        assert(s =~= seq![s[0]] + rest);
        assert(r + trimmed_start(s) =~= seq![s[0]] + (a + trimmed_start(rest)));
        assert(s =~= r + trimmed_start(s));
        r
    } else {
        assert(s =~= Seq::<char>::empty() + trimmed_start(s));
        Seq::empty()
    }
}

proof fn trailing_white_space(s: Seq<char>) -> (b: Seq<char>)
    ensures
        s == trimmed_end(s) + b,
        forall|i: int| 0 <= i < b.len() ==> white_space(#[trigger] b[i]),
        trimmed_end(s).len() > 0 ==> !white_space(trimmed_end(s).last()),
    decreases s.len(),
{
    if s.len() > 0 && white_space(s.last()) {
        let front = s.drop_last();
        let b = trailing_white_space(front);
        let r = b.push(s.last());
        assert(s =~= front.push(s.last()));
        assert(trimmed_end(s) + r =~= (trimmed_end(front) + b).push(s.last()));
        assert(s =~= trimmed_end(s) + r);
        r
    } else {
        assert(s =~= trimmed_end(s) + Seq::<char>::empty());
        Seq::empty()
    }
}

} // verus!
