//! Image references such as `alpine:latest` or `ghcr.io/owner/repo@sha256:abc...`.

use vstd::prelude::*;
use vstd::string::*;

use crate::error::{labelled, ContainerError, Failure};
use crate::text::{
    begins_with, first_at, halves, has_char, has_prefix, last_at, last_halves, rsplit_once,
    same_text, split_once, trim, trimmed, trimmed_end, trimmed_start, white_space,
};

verus! {

/// The registry of images that name none.
pub const DEFAULT_REGISTRY: &'static str = "registry-1.docker.io";

/// The tag of images that name none.
pub const DEFAULT_TAG: &'static str = "latest";

/// A parsed OCI image reference.
#[derive(Debug)]
pub struct ImageReference {
    /// Registry hostname (e.g. `registry-1.docker.io`).
    pub registry: String,
    /// Repository path (e.g. `library/alpine`).
    pub repository: String,
    /// Tag or digest. A digest starts with `sha256:`.
    pub reference: String,
}

/// What an [`ImageReference`] says, with texts as characters.
pub struct Reference {
    pub registry: Seq<char>,
    pub repository: Seq<char>,
    pub reference: Seq<char>,
}

impl View for ImageReference {
    type V = Reference;

    open spec fn view(&self) -> Reference {
        Reference {
            registry: self.registry@,
            repository: self.repository@,
            reference: self.reference@,
        }
    }
}

impl Clone for ImageReference {
    fn clone(&self) -> (r: ImageReference)
        ensures
            r == *self,
    {
        ImageReference {
            registry: self.registry.clone(),
            repository: self.repository.clone(),
            reference: self.reference.clone(),
        }
    }
}

/// Whether the first part of a name stands for a registry: it has a dot or a colon,
/// or is `localhost`.
pub open spec fn names_registry(first: Seq<char>) -> bool {
    first.contains('.') || first.contains(':') || first == "localhost"@
}

/// The name and the tag of an image without a digest. What follows the last colon is
/// the tag, unless it holds a slash: then the colon belongs to a port.
pub open spec fn name_and_tag(text: Seq<char>) -> (Seq<char>, Seq<char>) {
    match last_halves(text, ':') {
        Some((before, after)) => if after.contains('/') {
            (text, DEFAULT_TAG@)
        } else {
            (before, after)
        },
        None => (text, DEFAULT_TAG@),
    }
}

/// The registry and the repository that a name stands for.
pub open spec fn located(name: Seq<char>) -> (Seq<char>, Seq<char>) {
    match halves(name, '/') {
        Some((first, rest)) => if names_registry(first) {
            (first, rest)
        } else {
            (DEFAULT_REGISTRY@, name)
        },
        None => (DEFAULT_REGISTRY@, "library/"@ + name),
    }
}

/// What a reference says, given its text, its name and its tag or digest. There must
/// be a repository.
pub open spec fn assembled(
    text: Seq<char>,
    name: Seq<char>,
    reference: Seq<char>,
) -> Result<Reference, Seq<char>> {
    let (registry, repository) = located(name);
    if repository.len() == 0 {
        Err("empty repository in '"@ + text + "'"@)
    } else {
        Ok(Reference { registry, repository, reference })
    }
}

/// What the text of a reference says, or what is wrong with it. White space around
/// it does not count.
pub open spec fn parsed(input: Seq<char>) -> Result<Reference, Seq<char>> {
    let text = trimmed(input);
    if text.len() == 0 {
        Err("empty image reference"@)
    } else {
        match halves(text, '@') {
            Some((name, digest)) => if begins_with(digest, "sha256:"@) {
                assembled(text, name, digest)
            } else {
                Err("unsupported digest algorithm in '"@ + text + "'"@)
            },
            None => assembled(text, name_and_tag(text).0, name_and_tag(text).1),
        }
    }
}

/// A reference as it is shown. The default registry is left out.
pub open spec fn shown(image: Reference) -> Seq<char> {
    if image.registry == DEFAULT_REGISTRY@ {
        image.repository + ":"@ + image.reference
    } else {
        image.registry + "/"@ + image.repository + ":"@ + image.reference
    }
}

impl ImageReference {
    fn located(name: &str) -> (r: (String, String))
        ensures
            (r.0@, r.1@) == located(name@),
    {
        match split_once(name, '/') {
            Some((first, rest)) => {
                if has_char(first, '.') || has_char(first, ':') || same_text(first, "localhost") {
                    (first.to_owned(), rest.to_owned())
                } else {
                    (DEFAULT_REGISTRY.to_owned(), name.to_owned())
                }
            },
            None => (DEFAULT_REGISTRY.to_owned(), labelled("library/", name)),
        }
    }

    fn assemble(text: &str, name: &str, reference: &str) -> (r: Result<
        ImageReference,
        ContainerError,
    >)
        ensures
            match assembled(text@, name@, reference@) {
                Ok(image) => r is Ok && r->Ok_0@ == image,
                Err(message) => r is Err && r->Err_0@ == Failure::Image(message),
            },
    {
        let (registry, repository) = ImageReference::located(name);
        if repository.as_str().is_empty() {
            let mut message = labelled("empty repository in '", text);
            message.append("'");
            return Err(ContainerError::Image(message));
        }
        Ok(ImageReference { registry, repository, reference: reference.to_owned() })
    }

    /// Parse an image reference.
    ///
    /// Accepted forms:
    /// - `alpine` -> `registry-1.docker.io/library/alpine:latest`
    /// - `alpine:3.19` -> `registry-1.docker.io/library/alpine:3.19`
    /// - `library/alpine:latest`
    /// - `ghcr.io/owner/repo:tag`
    /// - `repo@sha256:abcd...`
    pub fn parse(input: &str) -> (r: Result<ImageReference, ContainerError>)
        ensures
            match parsed(input@) {
                Ok(image) => r is Ok && r->Ok_0@ == image,
                Err(message) => r is Err && r->Err_0@ == Failure::Image(message),
            },
    {
        let text = trim(input);
        if text.is_empty() {
            return Err(ContainerError::Image("empty image reference".to_owned()));
        }
        if let Some((name, digest)) = split_once(text, '@') {
            if !has_prefix(digest, "sha256:") {
                let mut message = labelled("unsupported digest algorithm in '", text);
                message.append("'");
                return Err(ContainerError::Image(message));
            }
            return ImageReference::assemble(text, name, digest);
        }
        match rsplit_once(text, ':') {
            Some((before, after)) => {
                if has_char(after, '/') {
                    ImageReference::assemble(text, text, DEFAULT_TAG)
                } else {
                    ImageReference::assemble(text, before, after)
                }
            },
            None => ImageReference::assemble(text, text, DEFAULT_TAG),
        }
    }

    /// Whether the reference is a digest rather than a tag.
    pub fn is_digest(&self) -> (r: bool)
        ensures
            r == begins_with(self@.reference, "sha256:"@),
    {
        has_prefix(self.reference.as_str(), "sha256:")
    }

    /// The reference as it is shown.
    pub fn to_string(&self) -> (r: String)
        ensures
            r@ == shown(self@),
    {
        let mut r = if same_text(self.registry.as_str(), DEFAULT_REGISTRY) {
            self.repository.clone()
        } else {
            let mut r = labelled(self.registry.as_str(), "/");
            r.append(self.repository.as_str());
            r
        };
        r.append(":");
        r.append(self.reference.as_str());
        r
    }
}

proof fn trimmed_start_is_clean(s: Seq<char>)
    ensures
        trimmed_start(s).len() > 0 ==> !white_space(trimmed_start(s)[0]),
        trimmed_start(s).len() > 0 ==> trimmed_start(s).last() == s.last(),
    decreases s.len(),
{
    if s.len() > 0 && white_space(s[0]) {
        trimmed_start_is_clean(s.drop_first());
    }
}

proof fn trimmed_end_is_clean(s: Seq<char>)
    ensures
        trimmed_end(s).len() > 0 ==> !white_space(trimmed_end(s).last()),
        trimmed_end(s).len() > 0 ==> trimmed_end(s)[0] == s[0],
    decreases s.len(),
{
    if s.len() > 0 && white_space(s.last()) {
        trimmed_end_is_clean(s.drop_last());
    }
}

/// A text that starts and ends with something else than white space is left as it
/// is.
proof fn clean_text_stays(s: Seq<char>)
    requires
        s.len() > 0,
        !white_space(s[0]),
        !white_space(s.last()),
    ensures
        trimmed(s) == s,
{
}

proof fn halves_at(s: Seq<char>, sep: char, at: int)
    requires
        first_at(s, sep, at),
    ensures
        halves(s, sep) == Some((s.take(at), s.skip(at + 1))),
{
    assert(s[at] == sep);
    assert(s.contains(sep));
    let chosen = choose|i: int| first_at(s, sep, i);
    assert(first_at(s, sep, chosen));
    assert(chosen == at);
}

proof fn last_halves_at(s: Seq<char>, sep: char, at: int)
    requires
        last_at(s, sep, at),
    ensures
        last_halves(s, sep) == Some((s.take(at), s.skip(at + 1))),
{
    assert(s[at] == sep);
    assert(s.contains(sep));
    let chosen = choose|i: int| last_at(s, sep, i);
    assert(last_at(s, sep, chosen));
    assert(chosen == at);
}

/// Whether a repository of the default registry is read as such when the registry is
/// left out: its first part does not look like a registry, and it does not start
/// with white space.
pub open spec fn plain_repository(repository: Seq<char>) -> bool {
    &&& repository.len() > 0 && !white_space(repository[0])
    &&& halves(repository, '/') is Some
    &&& !names_registry(halves(repository, '/')->Some_0.0)
}

/// The tag of a text holds none of the separators, and ends with something else than
/// white space when the text does.
proof fn tag_is_plain(text: Seq<char>)
    requires
        text.len() > 0,
        !text.contains('@'),
        !white_space(text.last()),
    ensures
        ({
            let tag = name_and_tag(text).1;
            &&& !tag.contains(':')
            &&& !tag.contains('/')
            &&& !tag.contains('@')
            &&& tag.len() > 0 ==> !white_space(tag.last())
        }),
{
    reveal_strlit("latest");
    let tag = name_and_tag(text).1;
    if last_halves(text, ':') is Some && !(last_halves(text, ':')->Some_0.1).contains('/') {
        let at = choose|at: int| last_at(text, ':', at);
        let i = last_colon(text);
        assert(last_at(text, ':', i));
        assert(last_at(text, ':', at));
        assert forall|j: int| 0 <= j < tag.len() implies tag[j] != ':' && tag[j] != '@' by {
            assert(tag[j] == text[at + 1 + j]);
        }
    }
}

/// Where the last colon of a text is.
proof fn last_colon(text: Seq<char>) -> (at: int)
    requires
        text.contains(':'),
    ensures
        last_at(text, ':', at),
    decreases text.len(),
{
    if text.last() == ':' {
        text.len() - 1
    } else {
        let front = text.drop_last();
        let i = choose|i: int| 0 <= i < text.len() && text[i] == ':';
        assert(front[i] == ':');
        let at = last_colon(front);
        assert(front[at] == text[at]);
        assert forall|j: int| at < j < text.len() implies text[j] != ':' by {
            if j < front.len() {
                assert(front[j] == text[j]);
            }
        }
        at
    }
}

/// Where the first slash of a text is.
proof fn first_slash(text: Seq<char>) -> (at: int)
    requires
        text.contains('/'),
    ensures
        first_at(text, '/', at),
    decreases text.len(),
{
    if text[0] == '/' {
        0
    } else {
        let rest = text.drop_first();
        let i = choose|i: int| 0 <= i < text.len() && text[i] == '/';
        assert(rest[i - 1] == '/');
        let at = first_slash(rest);
        assert(text[at + 1] == rest[at]);
        assert forall|j: int| 0 <= j < at + 1 implies text[j] != '/' by {
            if j > 0 {
                assert(rest[j - 1] == text[j]);
            }
        }
        at + 1
    }
}

/// The name of a text is the text or what precedes its last colon.
proof fn name_is_a_prefix(text: Seq<char>)
    ensures
        ({
            let name = name_and_tag(text).0;
            &&& name.len() <= text.len()
            &&& name == text.take(name.len() as int)
        }),
{
    assert(text.take(text.len() as int) =~= text);
    if text.contains(':') {
        let at = last_colon(text);
        last_halves_at(text, ':', at);
    }
}

/// A base and a tag with a colon between them are told apart again.
proof fn name_and_tag_come_apart(base: Seq<char>, tag: Seq<char>)
    requires
        !tag.contains(':'),
        !tag.contains('/'),
    ensures
        name_and_tag(base + ":"@ + tag) == (base, tag),
{
    reveal_strlit(":");
    let text = base + ":"@ + tag;
    let at = base.len() as int;
    assert forall|j: int| at < j < text.len() implies text[j] != ':' by {
        assert(text[j] == tag[j - at - 1]);
    }
    assert(last_at(text, ':', at));
    last_halves_at(text, ':', at);
    assert(text.take(at) =~= base);
    assert(text.skip(at + 1) =~= tag);
}

/// An image reference with a tag that was parsed and is shown parses to the same
/// reference again. When the registry is the default one, which is not shown, its
/// repository must be one that is read as such without it.
pub proof fn shown_reference_parses_to_itself(input: Seq<char>)
    requires
        parsed(input) is Ok,
        !begins_with((parsed(input)->Ok_0).reference, "sha256:"@),
        (parsed(input)->Ok_0).registry == DEFAULT_REGISTRY@ ==> plain_repository(
            (parsed(input)->Ok_0).repository,
        ),
    ensures
        parsed(shown(parsed(input)->Ok_0)) == parsed(input),
{
    reveal_strlit(":");
    reveal_strlit("/");
    reveal_strlit("library/");
    let image = parsed(input)->Ok_0;
    let text = trimmed(input);
    trimmed_start_is_clean(input);
    trimmed_end_is_clean(trimmed_start(input));
    assert(halves(text, '@') is None);
    assert(!text.contains('@'));
    tag_is_plain(text);
    name_is_a_prefix(text);
    let name = name_and_tag(text).0;
    let tag = name_and_tag(text).1;
    assert forall|j: int| 0 <= j < name.len() implies name[j] != '@' by {
        assert(name[j] == text[j]);
        assert(text.contains(text[j]));
    }
    let hub = image.registry == DEFAULT_REGISTRY@;
    let base = if hub {
        image.repository
    } else {
        image.registry + "/"@ + image.repository
    };
    let out = base + ":"@ + tag;
    assert(shown(image) == out);
    if name.contains('/') {
        let i = first_slash(name);
        halves_at(name, '/', i);
        assert(name.take(i) + "/"@ + name.skip(i + 1) =~= name);
    }
    assert(!hub ==> base == name);
    assert(hub ==> base == image.repository);
    assert forall|j: int| 0 <= j < base.len() implies base[j] != '@' by {
        if hub {
            repository_has_no_at(name, j);
        }
    }
    assert forall|j: int| 0 <= j < out.len() implies out[j] != '@' by {
        if j > base.len() {
            assert(out[j] == tag[j - base.len() - 1]);
            assert(tag.contains(tag[j - base.len() - 1]));
        }
    }
    assert(out.len() > 0 && out[0] == base[0]);
    assert(tag.len() > 0 ==> out.last() == tag.last());
    assert(tag.len() == 0 ==> out.last() == ':');
    clean_text_stays(out);
    name_and_tag_come_apart(base, tag);
    assert(located(base) == (image.registry, image.repository));
}

/// No part of the repository of a name without `@` is one.
proof fn repository_has_no_at(name: Seq<char>, j: int)
    requires
        forall|i: int| 0 <= i < name.len() ==> name[i] != '@',
        0 <= j < located(name).1.len(),
    ensures
        located(name).1[j] != '@',
{
    reveal_strlit("library/");
    if name.contains('/') {
        let i = first_slash(name);
        halves_at(name, '/', i);
        if names_registry(name.take(i)) {
            assert(located(name).1[j] == name[i + 1 + j]);
        }
    } else if j >= 8 {
        assert(located(name).1[j] == name[j - 8]);
    }
}

/// Whether a text can stand in a reference: it has no `@` and no white space at its ends.
pub open spec fn is_clean(text: Seq<char>) -> bool {
    &&& text.len() > 0
    &&& !white_space(text[0])
    &&& !white_space(text.last())
    &&& !text.contains('@')
}

/// Whether a text is that of a tag.
pub open spec fn is_tag(tag: Seq<char>) -> bool {
    is_clean(tag) && !tag.contains(':') && !tag.contains('/')
}

proof fn tagged_name_is_parsed(name: Seq<char>, tag: Seq<char>)
    requires
        is_clean(name),
        is_tag(tag),
    ensures
        parsed(name + ":"@ + tag) == assembled(name + ":"@ + tag, name, tag),
{
    reveal_strlit(":");
    let text = name + ":"@ + tag;
    assert(text[0] == name[0]);
    assert(text.last() == tag.last());
    clean_text_stays(text);
    assert forall|j: int| 0 <= j < text.len() implies text[j] != '@' by {
        if j < name.len() {
            assert(name.contains(name[j]));
            assert(text[j] == name[j]);
        } else if j > name.len() {
            assert(tag.contains(tag[j - name.len() - 1]));
            assert(text[j] == tag[j - name.len() - 1]);
        }
    }
    name_and_tag_come_apart(name, tag);
}

/// A reference that begins with the name of a host, which has a dot or a port or is
/// `localhost`, stands for an image of that registry, under the repository and the tag that
/// follow.
pub proof fn named_registry_is_used(host: Seq<char>, repository: Seq<char>, tag: Seq<char>)
    requires
        is_clean(host),
        !host.contains('/'),
        host.contains('.') || host.contains(':') || host == "localhost"@,
        is_clean(repository),
        is_tag(tag),
    ensures
        parsed(host + "/"@ + repository + ":"@ + tag) == Ok::<Reference, Seq<char>>(
            Reference { registry: host, repository, reference: tag },
        ),
{
    reveal_strlit("/");
    let name = host + "/"@ + repository;
    let at = host.len() as int;
    assert(name[0] == host[0]);
    assert(name.last() == repository.last());
    assert forall|j: int| 0 <= j < name.len() implies name[j] != '@' by {
        if j < at {
            assert(host.contains(host[j]));
            assert(name[j] == host[j]);
        } else if j > at {
            assert(repository.contains(repository[j - at - 1]));
            assert(name[j] == repository[j - at - 1]);
        }
    }
    assert forall|j: int| 0 <= j < at implies name[j] != '/' by {
        assert(host.contains(host[j]));
        assert(name[j] == host[j]);
    }
    assert(first_at(name, '/', at));
    halves_at(name, '/', at);
    assert(name.take(at) =~= host);
    assert(name.skip(at + 1) =~= repository);
    tagged_name_is_parsed(name, tag);
}

/// A reference that names no registry stands for an image of Docker Hub, and one without an
/// owner for an official image, whose owner is `library`.
pub proof fn docker_hub_is_the_default_registry(owner: Seq<char>, image: Seq<char>, tag: Seq<char>)
    requires
        is_clean(image),
        !image.contains('/'),
        is_tag(tag),
        is_clean(owner),
        !owner.contains('/'),
        !owner.contains('.'),
        !owner.contains(':'),
        owner != "localhost"@,
    ensures
        parsed(image + ":"@ + tag) == Ok::<Reference, Seq<char>>(
            Reference {
                registry: "registry-1.docker.io"@,
                repository: "library/"@ + image,
                reference: tag,
            },
        ),
        parsed(owner + "/"@ + image + ":"@ + tag) == Ok::<Reference, Seq<char>>(
            Reference {
                registry: "registry-1.docker.io"@,
                repository: owner + "/"@ + image,
                reference: tag,
            },
        ),
{
    reveal_strlit("/");
    reveal_strlit("library/");
    tagged_name_is_parsed(image, tag);
    let name = owner + "/"@ + image;
    let at = owner.len() as int;
    assert(name[0] == owner[0]);
    assert(name.last() == image.last());
    assert forall|j: int| 0 <= j < name.len() implies name[j] != '@' by {
        if j < at {
            assert(owner.contains(owner[j]));
            assert(name[j] == owner[j]);
        } else if j > at {
            assert(image.contains(image[j - at - 1]));
            assert(name[j] == image[j - at - 1]);
        }
    }
    assert forall|j: int| 0 <= j < at implies name[j] != '/' by {
        assert(owner.contains(owner[j]));
        assert(name[j] == owner[j]);
    }
    assert(first_at(name, '/', at));
    halves_at(name, '/', at);
    assert(name.take(at) =~= owner);
    tagged_name_is_parsed(name, tag);
}

/// A reference without a tag stands for the same image as the one with the tag `latest`.
pub proof fn latest_is_the_default_tag(name: Seq<char>)
    requires
        is_clean(name),
        !name.contains(':'),
    ensures
        (parsed(name) is Ok) == (parsed(name + ":latest"@) is Ok),
        parsed(name) matches Ok(image) ==> parsed(name + ":latest"@) == Ok::<
            Reference,
            Seq<char>,
        >(image) && image.reference == "latest"@,
{
    reveal_strlit("latest");
    reveal_strlit(":latest");
    reveal_strlit(":");
    reveal_strlit("library/");
    clean_text_stays(name);
    assert(":"@ + "latest"@ =~= ":latest"@);
    assert(name + ":"@ + "latest"@ =~= name + ":latest"@);
    let tag = "latest"@;
    assert(forall|j: int| 0 <= j < tag.len() ==> tag[j] != '@' && tag[j] != ':' && tag[j] != '/');
    tagged_name_is_parsed(name, tag);
    if name.contains('/') {
        let i = first_slash(name);
        halves_at(name, '/', i);
    }
}

/// A reference with a digest stands for the image with that digest, whatever its name has
/// for a tag; only SHA-256 digests are accepted.
pub proof fn digest_takes_the_place_of_the_tag(name: Seq<char>, digest: Seq<char>)
    requires
        is_clean(name),
        digest.len() > 0,
        !white_space(digest.last()),
    ensures
        parsed(name + "@"@ + digest) is Ok ==> begins_with(digest, "sha256:"@) && (parsed(
            name + "@"@ + digest,
        )->Ok_0).reference == digest,
        begins_with(digest, "sha256:"@) && parsed(name + ":x"@) is Ok && !name.contains(':')
            ==> parsed(name + "@"@ + digest) is Ok && (parsed(name + "@"@ + digest)->Ok_0).repository
            == (parsed(name + ":x"@)->Ok_0).repository && (parsed(
            name + "@"@ + digest,
        )->Ok_0).registry == (parsed(name + ":x"@)->Ok_0).registry,
{
    reveal_strlit("@");
    reveal_strlit(":");
    reveal_strlit("x");
    reveal_strlit(":x");
    let text = name + "@"@ + digest;
    let at = name.len() as int;
    assert(text[0] == name[0]);
    assert(text.last() == digest.last());
    clean_text_stays(text);
    assert forall|j: int| 0 <= j < at implies text[j] != '@' by {
        assert(name.contains(name[j]));
        assert(text[j] == name[j]);
    }
    assert(first_at(text, '@', at));
    halves_at(text, '@', at);
    assert(text.take(at) =~= name);
    assert(text.skip(at + 1) =~= digest);
    assert(":"@ + "x"@ =~= ":x"@);
    assert(name + ":"@ + "x"@ =~= name + ":x"@);
    let tag = "x"@;
    assert(tag[0] == 'x');
    assert(is_tag(tag));
    tagged_name_is_parsed(name, tag);
}

} // verus!
