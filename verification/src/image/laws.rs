//! What a pull is for: the blobs that the manifest of an image names come from the
//! registry of the image into the store, verified, and the manifest is kept.

use vstd::prelude::*;
use vstd::string::*;

use crate::dialogue::{
    answered, answered_at, both_parts_pass, follow, given, given_at, given_in_the_first,
    given_in_the_second, part_leaves_the_rest, passes, sequential, walk, walk_from, Halt, Progress,
    Turn,
};
use crate::error::Failure;
use crate::image::digest::{data_digest, hex_text, only_matching_data_is_accepted, sha256};
use crate::image::reference::Reference;
use crate::image::registry::{
    bearer_of, blob_url, download_progress, manifest_progress, step_progress, store_progress,
    token_of, token_progress, transfer_progress, write_progress, Blob, ImageAnswer, ImageAsk,
    ImageProgress, Manifest,
};
use crate::image::store::{
    blob_path, blob_progress, contents_progress, extract_stages, layers_progress, layers_turn,
    manifest_file, present_progress, pull_turn, read_result, save_progress, verify_progress,
    write_manifest_progress,
};
use crate::path::{entry_path, parent, with_extension};
use crate::text::begins_with;

verus! {

/// A part of an image operation.
pub type ImagePart = spec_fn(Seq<ImageAnswer>) -> ImageProgress;

spec fn step_of(ask: ImageAsk, text: Seq<char>) -> ImagePart {
    |s: Seq<ImageAnswer>| step_progress(ask, text, s)
}

proof fn step_passed(ask: ImageAsk, text: Seq<char>, said: Seq<ImageAnswer>)
    requires
        step_progress(ask, text, said) is Passed,
    ensures
        passes(step_of(ask, text), said, 1),
        given(step_of(ask, text), said, ask, ImageAnswer::Done),
        step_progress(ask, text, said) == ImageProgress::Passed(said.skip(1)),
{
    let part = step_of(ask, text);
    assert forall|i: int| 1 <= i <= said.len() implies part(#[trigger] said.take(i))
        == ImageProgress::Passed(said.take(i).skip(1)) by {
        assert(said.take(i)[0] == said[0]);
    }
    assert(said.take(0).len() == 0);
    assert(given_at(part, said, 0, ask, ImageAnswer::Done));
}

spec fn transfer_of() -> ImagePart {
    |s: Seq<ImageAnswer>| transfer_progress(s)
}

proof fn transfer_passed(said: Seq<ImageAnswer>) -> (k: int)
    requires
        transfer_progress(said) is Passed,
    ensures
        passes(transfer_of(), said, k),
        transfer_progress(said) == ImageProgress::Passed(said.skip(k)),
    decreases said.len(),
{
    let part = transfer_of();
    if said[0] == ImageAnswer::End {
        assert forall|i: int| 1 <= i <= said.len() implies part(#[trigger] said.take(i))
            == ImageProgress::Passed(said.take(i).skip(1)) by {
            assert(said.take(i)[0] == said[0]);
        }
        1
    } else {
        let rest = said.skip(2);
        let k = transfer_passed(rest);
        assert forall|i: int| k + 2 <= i <= said.len() implies part(#[trigger] said.take(i))
            == ImageProgress::Passed(said.take(i).skip(k + 2)) by {
            assert(said.take(i)[0] == said[0] && said.take(i)[1] == said[1]);
            assert(said.take(i).skip(2) =~= rest.take(i - 2));
            assert(rest.take(i - 2).skip(k) =~= said.take(i).skip(k + 2));
        }
        assert(rest.skip(k) =~= said.skip(k + 2));
        k + 2
    }
}

spec fn finish_of(partial: Seq<char>, dest: Seq<char>) -> ImagePart {
    |s: Seq<ImageAnswer>|
        follow(
            step_progress(ImageAsk::Flush, "flush error: "@, s),
            step_of(ImageAsk::Rename { from: partial, to: dest }, "rename failed: "@),
        )
}

spec fn fill_of(partial: Seq<char>, dest: Seq<char>) -> ImagePart {
    |s: Seq<ImageAnswer>| follow(transfer_progress(s), finish_of(partial, dest))
}

spec fn write_of(dest: Seq<char>) -> ImagePart {
    |s: Seq<ImageAnswer>| write_progress(dest, s)
}

/// Whether a file was written under another name first and got its own when it was
/// complete.
spec fn written(part: ImagePart, said: Seq<ImageAnswer>, partial: Seq<char>, dest: Seq<char>) -> bool {
    &&& given(part, said, ImageAsk::CreateFile(partial), ImageAnswer::Done)
    &&& given(part, said, ImageAsk::Flush, ImageAnswer::Done)
    &&& given(part, said, ImageAsk::Rename { from: partial, to: dest }, ImageAnswer::Done)
}

proof fn written_later(
    whole: ImagePart,
    first: ImagePart,
    second: ImagePart,
    said: Seq<ImageAnswer>,
    k: int,
    partial: Seq<char>,
    dest: Seq<char>,
)
    requires
        sequential(whole, first, second, said),
        passes(first, said, k),
        written(second, said.skip(k), partial, dest),
    ensures
        written(whole, said, partial, dest),
{
    let done = ImageAnswer::Done;
    given_in_the_second(whole, first, second, said, k, ImageAsk::CreateFile(partial), done);
    given_in_the_second(whole, first, second, said, k, ImageAsk::Flush, done);
    let rename = ImageAsk::Rename { from: partial, to: dest };
    given_in_the_second(whole, first, second, said, k, rename, done);
}

proof fn write_passed(dest: Seq<char>, said: Seq<ImageAnswer>) -> (k: int)
    requires
        write_progress(dest, said) is Passed,
    ensures
        passes(write_of(dest), said, k),
        written(write_of(dest), said, with_extension(dest, "part"@), dest),
        write_progress(dest, said) == ImageProgress::Passed(said.skip(k)),
{
    let done = ImageAnswer::Done;
    let partial = with_extension(dest, "part"@);
    let create = step_of(ImageAsk::CreateFile(partial), "create tmp file: "@);
    let flush = step_of(ImageAsk::Flush, "flush error: "@);
    let rename_ask = ImageAsk::Rename { from: partial, to: dest };
    let rename = step_of(rename_ask, "rename failed: "@);
    let fill = fill_of(partial, dest);
    let finish = finish_of(partial, dest);
    let whole = write_of(dest);
    step_passed(ImageAsk::CreateFile(partial), "create tmp file: "@, said);
    let a = said.skip(1);
    let t = transfer_passed(a);
    let b = a.skip(t);
    step_passed(ImageAsk::Flush, "flush error: "@, b);
    let c = b.skip(1);
    step_passed(rename_ask, "rename failed: "@, c);
    assert(sequential(finish, flush, rename, b));
    both_parts_pass(finish, flush, rename, b, 1, 1);
    given_in_the_first(finish, flush, rename, b, ImageAsk::Flush, done);
    given_in_the_second(finish, flush, rename, b, 1, rename_ask, done);
    assert(sequential(fill, transfer_of(), finish, a));
    both_parts_pass(fill, transfer_of(), finish, a, t, 2);
    given_in_the_second(fill, transfer_of(), finish, a, t, ImageAsk::Flush, done);
    given_in_the_second(fill, transfer_of(), finish, a, t, rename_ask, done);
    assert(sequential(whole, create, fill, said));
    both_parts_pass(whole, create, fill, said, 1, t + 2);
    given_in_the_first(whole, create, fill, said, ImageAsk::CreateFile(partial), done);
    given_in_the_second(whole, create, fill, said, 1, ImageAsk::Flush, done);
    given_in_the_second(whole, create, fill, said, 1, rename_ask, done);
    assert(said.take(said.len() as int) =~= said);
    t + 3
}

spec fn store_of(dest: Seq<char>) -> ImagePart {
    |s: Seq<ImageAnswer>| store_progress(dest, s)
}

proof fn store_passed(dest: Seq<char>, said: Seq<ImageAnswer>) -> (k: int)
    requires
        store_progress(dest, said) is Passed,
    ensures
        passes(store_of(dest), said, k),
        written(store_of(dest), said, with_extension(dest, "part"@), dest),
        parent(dest) matches Some(dir) ==> given(
            store_of(dest),
            said,
            ImageAsk::CreateDirAll(dir),
            ImageAnswer::Done,
        ),
        store_progress(dest, said) == ImageProgress::Passed(said.skip(k)),
{
    let whole = store_of(dest);
    let partial = with_extension(dest, "part"@);
    match parent(dest) {
        None => {
            let k = write_passed(dest, said);
            assert(whole =~= write_of(dest));
            k
        },
        Some(dir) => {
            let ask = ImageAsk::CreateDirAll(dir);
            let mkdir = step_of(ask, "mkdir failed: "@);
            step_passed(ask, "mkdir failed: "@, said);
            let rest = said.skip(1);
            let k = write_passed(dest, rest);
            assert(sequential(whole, mkdir, write_of(dest), said));
            both_parts_pass(whole, mkdir, write_of(dest), said, 1, k);
            written_later(whole, mkdir, write_of(dest), said, 1, partial, dest);
            given_in_the_first(whole, mkdir, write_of(dest), said, ask, ImageAnswer::Done);
            assert(rest.skip(k) =~= said.skip(k + 1));
            k + 1
        },
    }
}

spec fn get_of(image: Reference, digest: Seq<char>, token: Seq<char>) -> ImagePart {
    |s: Seq<ImageAnswer>|
        if s.len() == 0 {
            ImageProgress::Ask(
                ImageAsk::Get {
                    url: blob_url(image, digest),
                    accept: None,
                    bearer: bearer_of(token),
                },
            )
        } else {
            match s[0] {
                ImageAnswer::Failed(error) => ImageProgress::Halt(
                    Halt::Fail(Failure::Http("blob download failed: "@ + error)),
                ),
                ImageAnswer::Response { success, status } => if success {
                    ImageProgress::Passed(s.skip(1))
                } else {
                    ImageProgress::Halt(
                        Halt::Fail(
                            Failure::Image("registry returned "@ + status + " for blob "@ + digest),
                        ),
                    )
                },
                _ => ImageProgress::Halt(Halt::Stray),
            }
        }
}

spec fn download_of(
    image: Reference,
    digest: Seq<char>,
    token: Seq<char>,
    dest: Seq<char>,
) -> ImagePart {
    |s: Seq<ImageAnswer>| download_progress(image, digest, token, dest, s)
}

/// The request for a blob of an image.
pub open spec fn blob_request(
    image: Reference,
    digest: Seq<char>,
    bearer: Option<Seq<char>>,
) -> ImageAsk {
    ImageAsk::Get {
        url: "https://"@ + image.registry + "/v2/"@ + image.repository + "/blobs/"@ + digest,
        accept: None,
        bearer,
    }
}

proof fn download_passed(
    image: Reference,
    digest: Seq<char>,
    token: Seq<char>,
    dest: Seq<char>,
    said: Seq<ImageAnswer>,
) -> (k: int)
    requires
        download_progress(image, digest, token, dest, said) is Passed,
    ensures
        passes(download_of(image, digest, token, dest), said, k),
        said[0] is Response && said[0]->success,
        given(
            download_of(image, digest, token, dest),
            said,
            blob_request(image, digest, bearer_of(token)),
            said[0],
        ),
        written(
            download_of(image, digest, token, dest),
            said,
            with_extension(dest, "part"@),
            dest,
        ),
        download_progress(image, digest, token, dest, said) == ImageProgress::Passed(said.skip(k)),
{
    let whole = download_of(image, digest, token, dest);
    let get = get_of(image, digest, token);
    let store = store_of(dest);
    let rest = said.skip(1);
    let k = store_passed(dest, rest);
    assert forall|i: int| 1 <= i <= said.len() implies get(#[trigger] said.take(i))
        == ImageProgress::Passed(said.take(i).skip(1)) by {
        assert(said.take(i)[0] == said[0]);
    }
    assert(said.take(0).len() == 0);
    assert(given_at(get, said, 0, blob_request(image, digest, bearer_of(token)), said[0]));
    assert(sequential(whole, get, store, said));
    both_parts_pass(whole, get, store, said, 1, k);
    let ask = blob_request(image, digest, bearer_of(token));
    given_in_the_first(whole, get, store, said, ask, said[0]);
    written_later(whole, get, store, said, 1, with_extension(dest, "part"@), dest);
    assert(rest.skip(k) =~= said.skip(k + 1));
    k + 1
}

spec fn verify_of(path: Seq<char>, digest: Seq<char>) -> ImagePart {
    |s: Seq<ImageAnswer>| verify_progress(path, digest, s)
}

spec fn exists_of(path: Seq<char>) -> ImagePart {
    |s: Seq<ImageAnswer>|
        if s.len() == 0 {
            ImageProgress::Ask(ImageAsk::Exists(path))
        } else {
            ImageProgress::Passed(s.skip(1))
        }
}

spec fn fetch_of(
    image: Reference,
    digest: Seq<char>,
    token: Seq<char>,
    path: Seq<char>,
) -> ImagePart {
    |s: Seq<ImageAnswer>|
        follow(download_progress(image, digest, token, path, s), verify_of(path, digest))
}

spec fn blob_of(
    root: Seq<char>,
    image: Reference,
    token: Seq<char>,
    digest: Seq<char>,
) -> ImagePart {
    |s: Seq<ImageAnswer>| blob_progress(root, image, token, digest, s)
}

/// Whether a blob was requested from the registry of its image, was written, was read
/// back from its file and has its digest.
spec fn fetched(
    part: ImagePart,
    said: Seq<ImageAnswer>,
    image: Reference,
    token: Seq<char>,
    digest: Seq<char>,
    path: Seq<char>,
    response: ImageAnswer,
    data: Seq<u8>,
) -> bool {
    &&& given(part, said, ImageAsk::Exists(path), ImageAnswer::Exists(false))
    &&& given(part, said, blob_request(image, digest, bearer_of(token)), response)
    &&& response is Response && response->success
    &&& written(part, said, with_extension(path, "part"@), path)
    &&& given(part, said, ImageAsk::ReadFile(path), ImageAnswer::Bytes(data))
    &&& digest == "sha256:"@ + data_digest(data)
}

/// Whether a blob was in its file, or was fetched into it.
#[verifier::opaque]
spec fn in_store(
    part: ImagePart,
    said: Seq<ImageAnswer>,
    image: Reference,
    token: Seq<char>,
    digest: Seq<char>,
    path: Seq<char>,
) -> bool {
    ||| given(part, said, ImageAsk::Exists(path), ImageAnswer::Exists(true))
    ||| exists|response: ImageAnswer, data: Seq<u8>|
        fetched(part, said, image, token, digest, path, response, data)
}

proof fn blob_passed(
    root: Seq<char>,
    image: Reference,
    token: Seq<char>,
    digest: Seq<char>,
    said: Seq<ImageAnswer>,
) -> (k: int)
    requires
        blob_progress(root, image, token, digest, said) is Passed,
    ensures
        passes(blob_of(root, image, token, digest), said, k),
        in_store(
            blob_of(root, image, token, digest),
            said,
            image,
            token,
            digest,
            blob_path(root, digest),
        ),
        blob_progress(root, image, token, digest, said) == ImageProgress::Passed(said.skip(k)),
{
    reveal(in_store);
    let whole = blob_of(root, image, token, digest);
    let path = blob_path(root, digest);
    assert(said.take(0).len() == 0);
    if said[0] == ImageAnswer::Exists(true) {
        assert forall|i: int| 1 <= i <= said.len() implies whole(#[trigger] said.take(i))
            == ImageProgress::Passed(said.take(i).skip(1)) by {
            assert(said.take(i)[0] == said[0]);
        }
        assert(given_at(whole, said, 0, ImageAsk::Exists(path), ImageAnswer::Exists(true)));
        1
    } else {
        let first = exists_of(path);
        let fetch = fetch_of(image, digest, token, path);
        let download = download_of(image, digest, token, path);
        let verify = verify_of(path, digest);
        let rest = said.skip(1);
        let k = download_passed(image, digest, token, path, rest);
        let left = rest.skip(k);
        let read = read_result(left[0])->Some_0;
        only_matching_data_is_accepted(path, digest, read);
        let data = read->Ok_0;
        assert forall|i: int| 1 <= i <= left.len() implies verify(#[trigger] left.take(i))
            == ImageProgress::Passed(left.take(i).skip(1)) by {
            assert(left.take(i)[0] == left[0]);
        }
        assert(left.take(0).len() == 0);
        assert(given_at(verify, left, 0, ImageAsk::ReadFile(path), ImageAnswer::Bytes(data)));
        assert(sequential(fetch, download, verify, rest));
        both_parts_pass(fetch, download, verify, rest, k, 1);
        let request = blob_request(image, digest, bearer_of(token));
        given_in_the_first(fetch, download, verify, rest, request, rest[0]);
        let partial = with_extension(path, "part"@);
        given_in_the_first(
            fetch,
            download,
            verify,
            rest,
            ImageAsk::CreateFile(partial),
            ImageAnswer::Done,
        );
        given_in_the_first(fetch, download, verify, rest, ImageAsk::Flush, ImageAnswer::Done);
        given_in_the_first(
            fetch,
            download,
            verify,
            rest,
            ImageAsk::Rename { from: partial, to: path },
            ImageAnswer::Done,
        );
        given_in_the_second(
            fetch,
            download,
            verify,
            rest,
            k,
            ImageAsk::ReadFile(path),
            ImageAnswer::Bytes(data),
        );
        assert forall|i: int| 0 <= i <= said.len() implies whole(#[trigger] said.take(i))
            == follow(first(said.take(i)), fetch) by {
            if i > 0 {
                assert(said.take(i)[0] == said[0]);
            }
        }
        assert(given_at(first, said, 0, ImageAsk::Exists(path), ImageAnswer::Exists(false)));
        assert(passes(first, said, 1));
        both_parts_pass(whole, first, fetch, said, 1, k + 1);
        given_in_the_first(
            whole,
            first,
            fetch,
            said,
            ImageAsk::Exists(path),
            ImageAnswer::Exists(false),
        );
        given_in_the_second(whole, first, fetch, said, 1, request, rest[0]);
        written_later(whole, first, fetch, said, 1, partial, path);
        given_in_the_second(
            whole,
            first,
            fetch,
            said,
            1,
            ImageAsk::ReadFile(path),
            ImageAnswer::Bytes(data),
        );
        assert(fetched(whole, said, image, token, digest, path, rest[0], data));
        assert(left.skip(1) =~= said.skip(k + 2));
        k + 2
    }
}

proof fn in_store_first(
    whole: ImagePart,
    first: ImagePart,
    second: ImagePart,
    said: Seq<ImageAnswer>,
    image: Reference,
    token: Seq<char>,
    digest: Seq<char>,
    path: Seq<char>,
)
    requires
        sequential(whole, first, second, said),
        in_store(first, said, image, token, digest, path),
    ensures
        in_store(whole, said, image, token, digest, path),
{
    reveal(in_store);
    let done = ImageAnswer::Done;
    let there = ImageAsk::Exists(path);
    if given(first, said, there, ImageAnswer::Exists(true)) {
        given_in_the_first(whole, first, second, said, there, ImageAnswer::Exists(true));
    } else {
        let (response, data) = choose|response: ImageAnswer, data: Seq<u8>|
            fetched(first, said, image, token, digest, path, response, data);
        let request = blob_request(image, digest, bearer_of(token));
        let partial = with_extension(path, "part"@);
        let rename = ImageAsk::Rename { from: partial, to: path };
        let read = ImageAnswer::Bytes(data);
        given_in_the_first(whole, first, second, said, there, ImageAnswer::Exists(false));
        given_in_the_first(whole, first, second, said, request, response);
        given_in_the_first(whole, first, second, said, ImageAsk::CreateFile(partial), done);
        given_in_the_first(whole, first, second, said, ImageAsk::Flush, done);
        given_in_the_first(whole, first, second, said, rename, done);
        given_in_the_first(whole, first, second, said, ImageAsk::ReadFile(path), read);
        assert(fetched(whole, said, image, token, digest, path, response, data));
    }
}

proof fn in_store_later(
    whole: ImagePart,
    first: ImagePart,
    second: ImagePart,
    said: Seq<ImageAnswer>,
    k: int,
    image: Reference,
    token: Seq<char>,
    digest: Seq<char>,
    path: Seq<char>,
)
    requires
        sequential(whole, first, second, said),
        passes(first, said, k),
        in_store(second, said.skip(k), image, token, digest, path),
    ensures
        in_store(whole, said, image, token, digest, path),
{
    reveal(in_store);
    let rest = said.skip(k);
    let there = ImageAsk::Exists(path);
    if given(second, rest, there, ImageAnswer::Exists(true)) {
        given_in_the_second(whole, first, second, said, k, there, ImageAnswer::Exists(true));
    } else {
        let (response, data) = choose|response: ImageAnswer, data: Seq<u8>|
            fetched(second, rest, image, token, digest, path, response, data);
        let request = blob_request(image, digest, bearer_of(token));
        let read = ImageAnswer::Bytes(data);
        given_in_the_second(whole, first, second, said, k, there, ImageAnswer::Exists(false));
        given_in_the_second(whole, first, second, said, k, request, response);
        written_later(whole, first, second, said, k, with_extension(path, "part"@), path);
        given_in_the_second(whole, first, second, said, k, ImageAsk::ReadFile(path), read);
        assert(fetched(whole, said, image, token, digest, path, response, data));
    }
}

spec fn layers_of(
    root: Seq<char>,
    image: Reference,
    token: Seq<char>,
    layers: Seq<Blob>,
) -> ImagePart {
    |s: Seq<ImageAnswer>| layers_progress(root, image, token, layers, s)
}

proof fn layers_passed(
    root: Seq<char>,
    image: Reference,
    token: Seq<char>,
    layers: Seq<Blob>,
    said: Seq<ImageAnswer>,
) -> (k: int)
    requires
        layers_progress(root, image, token, layers, said) is Passed,
    ensures
        passes(layers_of(root, image, token, layers), said, k),
        layers_progress(root, image, token, layers, said) == ImageProgress::Passed(said.skip(k)),
        forall|j: int|
            0 <= j < layers.len() ==> in_store(
                layers_of(root, image, token, layers),
                said,
                image,
                token,
                (#[trigger] layers[j]).digest,
                blob_path(root, layers[j].digest),
            ),
    decreases layers.len(),
{
    let whole = layers_of(root, image, token, layers);
    if layers.len() == 0 {
        assert(said.skip(0) =~= said);
        assert forall|i: int| 0 <= i <= said.len() implies whole(#[trigger] said.take(i))
            == ImageProgress::Passed(said.take(i).skip(0)) by {
            assert(said.take(i).skip(0) =~= said.take(i));
        }
        0
    } else {
        let digest = layers[0].digest;
        let first = blob_of(root, image, token, digest);
        let second = layers_of(root, image, token, layers.skip(1));
        let k = blob_passed(root, image, token, digest, said);
        let rest = said.skip(k);
        let l = layers_passed(root, image, token, layers.skip(1), rest);
        assert(sequential(whole, first, second, said));
        both_parts_pass(whole, first, second, said, k, l);
        in_store_first(
            whole,
            first,
            second,
            said,
            image,
            token,
            digest,
            blob_path(root, digest),
        );
        assert forall|j: int| 0 <= j < layers.len() implies in_store(
            whole,
            said,
            image,
            token,
            (#[trigger] layers[j]).digest,
            blob_path(root, layers[j].digest),
        ) by {
            if j > 0 {
                let d = layers.skip(1)[j - 1].digest;
                assert(layers.skip(1)[j - 1] == layers[j]);
                in_store_later(whole, first, second, said, k, image, token, d, blob_path(root, d));
            }
        }
        assert(rest.skip(l) =~= said.skip(k + l));
        k + l
    }
}

spec fn encode_of(manifest: Manifest) -> ImagePart {
    |s: Seq<ImageAnswer>|
        if s.len() == 0 {
            ImageProgress::Ask(ImageAsk::EncodeManifest(manifest))
        } else {
            match s[0] {
                ImageAnswer::Text(_) => ImageProgress::Passed(s.skip(1)),
                ImageAnswer::Failed(error) => ImageProgress::Halt(
                    Halt::Fail(Failure::Image("serialize manifest: "@ + error)),
                ),
                _ => ImageProgress::Halt(Halt::Stray),
            }
        }
}

spec fn write_manifest_of(path: Seq<char>, manifest: Manifest) -> ImagePart {
    |s: Seq<ImageAnswer>| write_manifest_progress(path, manifest, s)
}

spec fn save_of(root: Seq<char>, image: Reference, manifest: Manifest) -> ImagePart {
    |s: Seq<ImageAnswer>| save_progress(root, image, manifest, s)
}

/// Whether a manifest was encoded and written to a file.
spec fn saved(
    part: ImagePart,
    said: Seq<ImageAnswer>,
    path: Seq<char>,
    manifest: Manifest,
    contents: Seq<char>,
) -> bool {
    &&& given(part, said, ImageAsk::EncodeManifest(manifest), ImageAnswer::Text(contents))
    &&& given(part, said, ImageAsk::WriteFile { path, contents }, ImageAnswer::Done)
}

proof fn saved_later(
    whole: ImagePart,
    first: ImagePart,
    second: ImagePart,
    said: Seq<ImageAnswer>,
    k: int,
    path: Seq<char>,
    manifest: Manifest,
    contents: Seq<char>,
)
    requires
        sequential(whole, first, second, said),
        passes(first, said, k),
        saved(second, said.skip(k), path, manifest, contents),
    ensures
        saved(whole, said, path, manifest, contents),
{
    let encode = ImageAsk::EncodeManifest(manifest);
    let write = ImageAsk::WriteFile { path, contents };
    given_in_the_second(whole, first, second, said, k, encode, ImageAnswer::Text(contents));
    given_in_the_second(whole, first, second, said, k, write, ImageAnswer::Done);
}

proof fn manifest_written(path: Seq<char>, manifest: Manifest, said: Seq<ImageAnswer>) -> (contents:
    Seq<char>)
    requires
        write_manifest_progress(path, manifest, said) is Passed,
    ensures
        saved(write_manifest_of(path, manifest), said, path, manifest, contents),
{
    let whole = write_manifest_of(path, manifest);
    let contents = said[0]->Text_0;
    let encode = encode_of(manifest);
    let ask = ImageAsk::WriteFile { path, contents };
    let write = step_of(ask, "write manifest: "@);
    let rest = said.skip(1);
    step_passed(ask, "write manifest: "@, rest);
    assert(said.take(0).len() == 0);
    assert(said[0] == ImageAnswer::Text(contents));
    assert forall|i: int| 0 <= i <= said.len() implies whole(#[trigger] said.take(i)) == follow(
        encode(said.take(i)),
        write,
    ) by {
        if i > 0 {
            assert(said.take(i)[0] == said[0]);
        }
    }
    assert forall|i: int| 1 <= i <= said.len() implies encode(#[trigger] said.take(i))
        == ImageProgress::Passed(said.take(i).skip(1)) by {
        assert(said.take(i)[0] == said[0]);
    }
    let question = ImageAsk::EncodeManifest(manifest);
    assert(given_at(encode, said, 0, question, said[0]));
    given_in_the_first(whole, encode, write, said, question, said[0]);
    given_in_the_second(whole, encode, write, said, 1, ask, ImageAnswer::Done);
    contents
}

proof fn save_passed(
    root: Seq<char>,
    image: Reference,
    manifest: Manifest,
    said: Seq<ImageAnswer>,
) -> (contents: Seq<char>)
    requires
        save_progress(root, image, manifest, said) is Passed,
    ensures
        saved(
            save_of(root, image, manifest),
            said,
            manifest_file(root, image),
            manifest,
            contents,
        ),
{
    let whole = save_of(root, image, manifest);
    let path = manifest_file(root, image);
    let write = write_manifest_of(path, manifest);
    match parent(path) {
        None => {
            assert(whole =~= write);
            manifest_written(path, manifest, said)
        },
        Some(dir) => {
            let ask = ImageAsk::CreateDirAll(dir);
            let mkdir = step_of(ask, "mkdir: "@);
            step_passed(ask, "mkdir: "@, said);
            let contents = manifest_written(path, manifest, said.skip(1));
            assert(sequential(whole, mkdir, write, said));
            saved_later(whole, mkdir, write, said, 1, path, manifest, contents);
            contents
        },
    }
}

spec fn contents_of(
    root: Seq<char>,
    image: Reference,
    token: Seq<char>,
    manifest: Manifest,
) -> ImagePart {
    |s: Seq<ImageAnswer>| contents_progress(root, image, token, manifest, s)
}

spec fn rest_of(
    root: Seq<char>,
    image: Reference,
    token: Seq<char>,
    manifest: Manifest,
) -> ImagePart {
    |s: Seq<ImageAnswer>|
        follow(
            layers_progress(root, image, token, manifest.layers, s),
            save_of(root, image, manifest),
        )
}

proof fn contents_passed(
    root: Seq<char>,
    image: Reference,
    token: Seq<char>,
    manifest: Manifest,
    said: Seq<ImageAnswer>,
) -> (contents: Seq<char>)
    requires
        contents_progress(root, image, token, manifest, said) is Passed,
    ensures
        ({
            let part = contents_of(root, image, token, manifest);
            let config = manifest.config.digest;
            &&& in_store(part, said, image, token, config, blob_path(root, config))
            &&& forall|j: int|
                0 <= j < manifest.layers.len() ==> in_store(
                    part,
                    said,
                    image,
                    token,
                    (#[trigger] manifest.layers[j]).digest,
                    blob_path(root, manifest.layers[j].digest),
                )
            &&& saved(part, said, manifest_file(root, image), manifest, contents)
        }),
{
    let whole = contents_of(root, image, token, manifest);
    let config = manifest.config.digest;
    let blob = blob_of(root, image, token, config);
    let tail = rest_of(root, image, token, manifest);
    let layers = layers_of(root, image, token, manifest.layers);
    let save = save_of(root, image, manifest);
    let k = blob_passed(root, image, token, config, said);
    let rest = said.skip(k);
    let l = layers_passed(root, image, token, manifest.layers, rest);
    let left = rest.skip(l);
    let contents = save_passed(root, image, manifest, left);
    let path = manifest_file(root, image);
    assert(sequential(whole, blob, tail, said));
    assert(sequential(tail, layers, save, rest));
    in_store_first(whole, blob, tail, said, image, token, config, blob_path(root, config));
    assert forall|j: int| 0 <= j < manifest.layers.len() implies in_store(
        whole,
        said,
        image,
        token,
        (#[trigger] manifest.layers[j]).digest,
        blob_path(root, manifest.layers[j].digest),
    ) by {
        let d = manifest.layers[j].digest;
        in_store_first(tail, layers, save, rest, image, token, d, blob_path(root, d));
        in_store_later(whole, blob, tail, said, k, image, token, d, blob_path(root, d));
    }
    saved_later(tail, layers, save, rest, l, path, manifest, contents);
    saved_later(whole, blob, tail, said, k, path, manifest, contents);
    contents
}

/// The turns of a pull.
pub open spec fn pull_turns(root: Seq<char>, image: Reference) -> spec_fn(
    Seq<ImageAnswer>,
) -> Turn<ImageAsk, Manifest> {
    |said: Seq<ImageAnswer>| pull_turn(root, image, said)
}

/// Whether a registry is Docker Hub, which gives tokens.
pub open spec fn is_docker_hub(registry: Seq<char>) -> bool {
    registry == "registry-1.docker.io"@ || registry == "docker.io"@
}

/// Whether a request has the credentials that it should have: the token that Docker Hub
/// gave when asked, and none for other registries.
pub open spec fn has_credentials(
    root: Seq<char>,
    image: Reference,
    said: Seq<ImageAnswer>,
    bearer: Option<Seq<char>>,
) -> bool {
    if is_docker_hub(image.registry) {
        exists|token: Seq<char>|
            {
                &&& #[trigger] answered(
                    pull_turns(root, image),
                    said,
                    ImageAsk::ReadToken,
                    ImageAnswer::Text(token),
                )
                &&& bearer == if token.len() == 0 {
                    None
                } else {
                    Some(token)
                }
            }
    } else {
        bearer is None
    }
}

/// Whether a manifest names a blob: as the configuration or as a layer.
pub open spec fn names_blob(manifest: Manifest, digest: Seq<char>) -> bool {
    ||| manifest.config.digest == digest
    ||| exists|j: int|
        0 <= j < manifest.layers.len() && (#[trigger] manifest.layers[j]).digest == digest
}

proof fn transfer_asks_for_chunks(said: Seq<ImageAnswer>)
    ensures
        transfer_progress(said) matches ImageProgress::Ask(ask) ==> ask is ReadChunk
            || ask is WriteChunk,
    decreases said.len(),
{
    if said.len() > 1 {
        transfer_asks_for_chunks(said.skip(2));
    }
}

proof fn blob_requests(
    root: Seq<char>,
    image: Reference,
    token: Seq<char>,
    digest: Seq<char>,
    said: Seq<ImageAnswer>,
)
    ensures
        blob_progress(root, image, token, digest, said) matches ImageProgress::Ask(ask) ==> (
        ask is Get ==> ask == blob_request(image, digest, bearer_of(token))),
{
    let path = blob_path(root, digest);
    if said.len() > 1 {
        let inner = said.skip(1).skip(1);
        let create = ImageAsk::CreateFile(with_extension(path, "part"@));
        let ready = match parent(path) {
            Some(dir) => match step_progress(
                ImageAsk::CreateDirAll(dir),
                "mkdir failed: "@,
                inner,
            ) {
                ImageProgress::Passed(rest) => rest,
                _ => inner,
            },
            None => inner,
        };
        if let ImageProgress::Passed(rest) = step_progress(create, "create tmp file: "@, ready) {
            transfer_asks_for_chunks(rest);
        }
    }
}

proof fn layer_requests(
    root: Seq<char>,
    image: Reference,
    token: Seq<char>,
    layers: Seq<Blob>,
    said: Seq<ImageAnswer>,
)
    ensures
        layers_progress(root, image, token, layers, said) matches ImageProgress::Ask(ask) ==> (
        ask is Get ==> exists|j: int|
            0 <= j < layers.len() && ask == blob_request(
                image,
                (#[trigger] layers[j]).digest,
                bearer_of(token),
            )),
    decreases layers.len(),
{
    if layers.len() > 0 {
        let digest = layers[0].digest;
        blob_requests(root, image, token, digest, said);
        if let ImageProgress::Passed(rest) = blob_progress(root, image, token, digest, said) {
            layer_requests(root, image, token, layers.skip(1), rest);
            assert forall|j: int| 0 <= j < layers.len() - 1 implies #[trigger] layers.skip(1)[j]
                == layers[j + 1] by {}
        }
    }
}

proof fn contents_requests(
    root: Seq<char>,
    image: Reference,
    token: Seq<char>,
    manifest: Manifest,
    said: Seq<ImageAnswer>,
)
    ensures
        contents_progress(root, image, token, manifest, said) matches ImageProgress::Ask(ask) ==> (
        ask is Get ==> exists|digest: Seq<char>| #[trigger]
            names_blob(manifest, digest) && ask == blob_request(image, digest, bearer_of(token))),
{
    let config = manifest.config.digest;
    blob_requests(root, image, token, config, said);
    assert(names_blob(manifest, config));
    if let ImageProgress::Passed(rest) = blob_progress(root, image, token, config, said) {
        let progress = layers_progress(root, image, token, manifest.layers, rest);
        layer_requests(root, image, token, manifest.layers, rest);
        if let ImageProgress::Ask(ask) = progress {
            if ask is Get {
                let j = choose|j: int|
                    0 <= j < manifest.layers.len() && ask == blob_request(
                        image,
                        (#[trigger] manifest.layers[j]).digest,
                        bearer_of(token),
                    );
                assert(names_blob(manifest, manifest.layers[j].digest));
            }
        }
    }
}

/// How many answers come before the manifest is known.
spec fn head_len(image: Reference) -> int {
    if is_docker_hub(image.registry) {
        4
    } else {
        2
    }
}

/// Whether a pull knows the manifest.
spec fn knows_manifest(root: Seq<char>, image: Reference, said: Seq<ImageAnswer>) -> bool {
    match token_progress(image.registry, image.repository, said) {
        ImageProgress::Passed(rest) => manifest_progress(
            image,
            token_of(image.registry, said),
            rest,
        ) is Passed,
        _ => false,
    }
}

spec fn turn_of(progress: ImageProgress, manifest: Manifest) -> Turn<ImageAsk, Manifest> {
    match progress {
        Progress::Ask(ask) => Turn::Ask(ask),
        Progress::Halt(halt) => crate::dialogue::halted(halt),
        Progress::Passed(_) => Turn::Done(manifest),
    }
}

proof fn pull_head(root: Seq<char>, image: Reference, said: Seq<ImageAnswer>)
    requires
        knows_manifest(root, image, said),
    ensures
        ({
            let n = head_len(image);
            let turns = pull_turns(root, image);
            &&& said.len() >= n
            &&& said[n - 1] is Manifest
            &&& answered_at(turns, said, n - 1, ImageAsk::ReadManifest, said[n - 1])
            &&& is_docker_hub(image.registry) ==> said[1] == ImageAnswer::Text(
                token_of(image.registry, said),
            ) && answered_at(turns, said, 1, ImageAsk::ReadToken, said[1])
            &&& forall|i: int|
                n <= i <= said.len() ==> pull_turn(root, image, #[trigger] said.take(i)) == turn_of(
                    contents_progress(
                        root,
                        image,
                        token_of(image.registry, said),
                        said[n - 1]->Manifest_0,
                        said.skip(n).take(i - n),
                    ),
                    said[n - 1]->Manifest_0,
                )
        }),
{
    let n = head_len(image);
    let token = token_of(image.registry, said);
    if is_docker_hub(image.registry) {
        let rest = said.skip(2);
        assert(rest[0] == said[2] && rest[1] == said[3]);
        let three = said.take(3);
        assert(three[0] == said[0] && three[1] == said[1] && three[2] == said[2]);
        assert(three.skip(2)[0] == said[2]);
        assert(said.take(1)[0] == said[0]);
    } else {
        assert(said.take(1)[0] == said[0]);
    }
    assert forall|i: int| n <= i <= said.len() implies pull_turn(root, image, #[trigger] said.take(i))
        == turn_of(
        contents_progress(
            root,
            image,
            token,
            said[n - 1]->Manifest_0,
            said.skip(n).take(i - n),
        ),
        said[n - 1]->Manifest_0,
    ) by {
        let s = said.take(i);
        assert(s[0] == said[0] && s[1] == said[1]);
        assert(s.skip(n) =~= said.skip(n).take(i - n));
        if is_docker_hub(image.registry) {
            assert(s[2] == said[2] && s[3] == said[3]);
            assert(s.skip(2)[0] == said[2] && s.skip(2)[1] == said[3]);
            assert(s.skip(2).skip(2) =~= s.skip(4));
        }
    }
}

proof fn credentials_are_those_given(root: Seq<char>, image: Reference, said: Seq<ImageAnswer>)
    requires
        knows_manifest(root, image, said),
    ensures
        has_credentials(root, image, said, bearer_of(token_of(image.registry, said))),
{
    pull_head(root, image, said);
    let token = token_of(image.registry, said);
    reveal_strlit("");
    if is_docker_hub(image.registry) {
        assert(answered(
            pull_turns(root, image),
            said,
            ImageAsk::ReadToken,
            ImageAnswer::Text(token),
        ));
    }
}

/// Everything that a pull requests comes from the registry of the image, but for the
/// token: it requests the manifest under the name of the image, and then only blobs that
/// the manifest names, from the same repository of the same registry, by their digests.
/// The requests carry the token when the registry gave one.
pub proof fn pull_requests_come_from_the_registry_of_the_image(
    root: Seq<char>,
    image: Reference,
    said: Seq<ImageAnswer>,
    url: Seq<char>,
    accept: Option<Seq<char>>,
    bearer: Option<Seq<char>>,
)
    requires
        pull_turn(root, image, said) == Turn::<ImageAsk, Manifest>::Ask(
            ImageAsk::Get { url, accept, bearer },
        ),
    ensures
        ({
            let base = "https://"@ + image.registry + "/v2/"@ + image.repository;
            ||| said.len() == 0 && is_docker_hub(image.registry) && bearer is None && accept is None
                && url == "https://auth.docker.io/token"@
                + "?service=registry.docker.io&scope=repository:"@ + image.repository + ":pull"@
            ||| url == base + "/manifests/"@ + image.reference && has_credentials(
                root,
                image,
                said,
                bearer,
            ) && accept == Some(
                "application/vnd.oci.image.manifest.v1+json, application/vnd.docker.distribution.manifest.v2+json, application/vnd.docker.distribution.manifest.list.v2+json"@,
            )
            ||| has_credentials(root, image, said, bearer) && exists|manifest: Manifest, digest: Seq<
                char,
            >|
                {
                    &&& #[trigger] names_blob(manifest, digest)
                    &&& answered(
                        pull_turns(root, image),
                        said,
                        ImageAsk::ReadManifest,
                        ImageAnswer::Manifest(manifest),
                    )
                    &&& url == base + "/blobs/"@ + digest && accept is None
                }
        }),
{
    reveal_strlit("");
    let turns = pull_turns(root, image);
    if knows_manifest(root, image, said) {
        pull_head(root, image, said);
        let n = head_len(image);
        let left = said.skip(n);
        let token = token_of(image.registry, said);
        let manifest = said[n - 1]->Manifest_0;
        assert(said.take(said.len() as int) =~= said);
        assert(left.take(left.len() as int) =~= left);
        contents_requests(root, image, token, manifest, left);
        let ask = ImageAsk::Get { url, accept, bearer };
        assert(contents_progress(root, image, token, manifest, left) == ImageProgress::Ask(ask));
        let digest = choose|digest: Seq<char>| #[trigger]
            names_blob(manifest, digest) && ask == blob_request(image, digest, bearer_of(token));
        assert(said[n - 1] == ImageAnswer::Manifest(manifest));
        assert(answered(
            turns,
            said,
            ImageAsk::ReadManifest,
            ImageAnswer::Manifest(manifest),
        ));
        credentials_are_those_given(root, image, said);
    } else if said.len() > 0 {
        if is_docker_hub(image.registry) {
            let token = token_of(image.registry, said);
            assert(said.take(1)[0] == said[0]);
            assert(answered_at(turns, said, 1, ImageAsk::ReadToken, said[1]));
            assert(answered(turns, said, ImageAsk::ReadToken, ImageAnswer::Text(token)));
        }
    }
}

/// Whether a file is that of a blob in the store with this root.
pub open spec fn is_blob_file(root: Seq<char>, digest: Seq<char>, path: Seq<char>) -> bool {
    forall|hex: Seq<char>|
        digest == #[trigger] ("sha256:"@ + hex) ==> path == entry_path(
            entry_path(entry_path(root, "blobs"@), "sha256"@),
            hex,
        )
}

/// Whether a pull brought a blob into its file: it was requested from the registry of
/// the image, was written under another name, got its own, and what was then read back
/// from its file has its digest.
pub open spec fn brought(
    root: Seq<char>,
    image: Reference,
    said: Seq<ImageAnswer>,
    digest: Seq<char>,
    path: Seq<char>,
    bearer: Option<Seq<char>>,
    response: ImageAnswer,
    partial: Seq<char>,
    data: Seq<u8>,
) -> bool {
    let turns = pull_turns(root, image);
    &&& answered(turns, said, ImageAsk::Exists(path), ImageAnswer::Exists(false))
    &&& answered(turns, said, blob_request(image, digest, bearer), response)
    &&& has_credentials(root, image, said, bearer)
    &&& response is Response && response->success
    &&& answered(turns, said, ImageAsk::CreateFile(partial), ImageAnswer::Done)
    &&& answered(turns, said, ImageAsk::Rename { from: partial, to: path }, ImageAnswer::Done)
    &&& answered(turns, said, ImageAsk::ReadFile(path), ImageAnswer::Bytes(data))
    &&& digest == "sha256:"@ + data_digest(data)
}

/// Whether a blob is in the store after a pull: it was there, or the pull brought it.
pub open spec fn is_kept(
    root: Seq<char>,
    image: Reference,
    said: Seq<ImageAnswer>,
    digest: Seq<char>,
) -> bool {
    exists|path: Seq<char>|
        {
            &&& #[trigger] is_blob_file(root, digest, path)
            &&& {
                ||| answered(
                    pull_turns(root, image),
                    said,
                    ImageAsk::Exists(path),
                    ImageAnswer::Exists(true),
                )
                ||| exists|
                    bearer: Option<Seq<char>>,
                    response: ImageAnswer,
                    partial: Seq<char>,
                    data: Seq<u8>,
                |
                    brought(root, image, said, digest, path, bearer, response, partial, data)
            }
        }
}

proof fn answered_in_the_contents(
    root: Seq<char>,
    image: Reference,
    said: Seq<ImageAnswer>,
    ask: ImageAsk,
    answer: ImageAnswer,
)
    requires
        knows_manifest(root, image, said),
        given(
            contents_of(
                root,
                image,
                token_of(image.registry, said),
                said[head_len(image) - 1]->Manifest_0,
            ),
            said.skip(head_len(image)),
            ask,
            answer,
        ),
    ensures
        answered(pull_turns(root, image), said, ask, answer),
{
    pull_head(root, image, said);
    let n = head_len(image);
    let left = said.skip(n);
    let part = contents_of(
        root,
        image,
        token_of(image.registry, said),
        said[n - 1]->Manifest_0,
    );
    let i = choose|i: int| given_at(part, left, i, ask, answer);
    assert(pull_turn(root, image, said.take(n + i)) == turn_of(
        contents_progress(
            root,
            image,
            token_of(image.registry, said),
            said[n - 1]->Manifest_0,
            said.skip(n).take(n + i - n),
        ),
        said[n - 1]->Manifest_0,
    ));
    assert(answered_at(pull_turns(root, image), said, n + i, ask, answer));
}

proof fn blob_path_is_the_blob_file(root: Seq<char>, digest: Seq<char>)
    ensures
        is_blob_file(root, digest, blob_path(root, digest)),
{
    let path = blob_path(root, digest);
    assert forall|hex: Seq<char>| digest == #[trigger] ("sha256:"@ + hex) implies path
        == entry_path(entry_path(entry_path(root, "blobs"@), "sha256"@), hex) by {
        let prefix = "sha256:"@;
        assert(digest.subrange(0, prefix.len() as int) =~= prefix);
        assert(digest.skip(prefix.len() as int) =~= hex);
    }
}

proof fn blob_is_kept(root: Seq<char>, image: Reference, said: Seq<ImageAnswer>, digest: Seq<char>)
    requires
        knows_manifest(root, image, said),
        in_store(
            contents_of(
                root,
                image,
                token_of(image.registry, said),
                said[head_len(image) - 1]->Manifest_0,
            ),
            said.skip(head_len(image)),
            image,
            token_of(image.registry, said),
            digest,
            blob_path(root, digest),
        ),
    ensures
        is_kept(root, image, said, digest),
{
    reveal(in_store);
    pull_head(root, image, said);
    let n = head_len(image);
    let left = said.skip(n);
    let token = token_of(image.registry, said);
    let part = contents_of(root, image, token, said[n - 1]->Manifest_0);
    let path = blob_path(root, digest);
    let there = ImageAsk::Exists(path);
    blob_path_is_the_blob_file(root, digest);
    if given(part, left, there, ImageAnswer::Exists(true)) {
        answered_in_the_contents(root, image, said, there, ImageAnswer::Exists(true));
    } else {
        let (response, data) = choose|response: ImageAnswer, data: Seq<u8>|
            fetched(part, left, image, token, digest, path, response, data);
        let bearer = bearer_of(token);
        let partial = with_extension(path, "part"@);
        let rename = ImageAsk::Rename { from: partial, to: path };
        answered_in_the_contents(root, image, said, there, ImageAnswer::Exists(false));
        answered_in_the_contents(root, image, said, blob_request(image, digest, bearer), response);
        answered_in_the_contents(
            root,
            image,
            said,
            ImageAsk::CreateFile(partial),
            ImageAnswer::Done,
        );
        answered_in_the_contents(root, image, said, rename, ImageAnswer::Done);
        answered_in_the_contents(
            root,
            image,
            said,
            ImageAsk::ReadFile(path),
            ImageAnswer::Bytes(data),
        );
        credentials_are_those_given(root, image, said);
        assert(brought(root, image, said, digest, path, bearer, response, partial, data));
    }
}

/// When a pull is done, the manifest that it gives is the one that the registry sent,
/// every blob that the manifest names is in the store, in the file that its digest names,
/// and the manifest is in the file that the name of the image names.
pub proof fn pulled_image_is_in_the_store(
    root: Seq<char>,
    image: Reference,
    said: Seq<ImageAnswer>,
    manifest: Manifest,
)
    requires
        pull_turn(root, image, said) == Turn::<ImageAsk, Manifest>::Done(manifest),
    ensures
        answered(
            pull_turns(root, image),
            said,
            ImageAsk::ReadManifest,
            ImageAnswer::Manifest(manifest),
        ),
        forall|digest: Seq<char>| #[trigger]
            names_blob(manifest, digest) ==> is_kept(root, image, said, digest),
        exists|contents: Seq<char>|
            {
                &&& #[trigger] answered(
                    pull_turns(root, image),
                    said,
                    ImageAsk::EncodeManifest(manifest),
                    ImageAnswer::Text(contents),
                )
                &&& answered(
                    pull_turns(root, image),
                    said,
                    ImageAsk::WriteFile {
                        path: entry_path(
                            entry_path(entry_path(root, "manifests"@), image.repository),
                            image.reference,
                        ),
                        contents,
                    },
                    ImageAnswer::Done,
                )
            },
{
    pull_head(root, image, said);
    let n = head_len(image);
    let left = said.skip(n);
    let token = token_of(image.registry, said);
    assert(said.take(said.len() as int) =~= said);
    assert(left.take(left.len() as int) =~= left);
    assert(manifest == said[n - 1]->Manifest_0);
    let contents = contents_passed(root, image, token, manifest, left);
    assert forall|digest: Seq<char>| #[trigger] names_blob(manifest, digest) implies is_kept(
        root,
        image,
        said,
        digest,
    ) by {
        blob_is_kept(root, image, said, digest);
    }
    answered_in_the_contents(
        root,
        image,
        said,
        ImageAsk::EncodeManifest(manifest),
        ImageAnswer::Text(contents),
    );
    answered_in_the_contents(
        root,
        image,
        said,
        ImageAsk::WriteFile { path: manifest_file(root, image), contents },
        ImageAnswer::Done,
    );
}

proof fn present_files_were_asked_for(paths: Seq<Seq<char>>, said: Seq<ImageAnswer>)
    requires
        present_progress(paths, said) is Passed,
    ensures
        said.len() >= paths.len(),
        forall|j: int|
            0 <= j < paths.len() ==> present_progress(paths, said.take(j)) == ImageProgress::Ask(
                ImageAsk::Exists(#[trigger] paths[j]),
            ) && said[j] == ImageAnswer::Exists(true),
    decreases paths.len(),
{
    if paths.len() > 0 {
        let rest = said.skip(1);
        present_files_were_asked_for(paths.skip(1), rest);
        assert forall|j: int| 0 <= j < paths.len() implies present_progress(paths, said.take(j))
            == ImageProgress::Ask(ImageAsk::Exists(#[trigger] paths[j])) && said[j]
            == ImageAnswer::Exists(true) by {
            if j > 0 {
                assert(paths.skip(1)[j - 1] == paths[j]);
                assert(rest[j - 1] == said[j]);
                assert(said.take(j)[0] == said[0]);
                assert(said.take(j).skip(1) =~= rest.take(j - 1));
            }
        }
    }
}

/// The turns of the search for the layers of an image.
pub open spec fn layers_turns(root: Seq<char>, image: Reference) -> spec_fn(
    Seq<ImageAnswer>,
) -> Turn<ImageAsk, Seq<Seq<char>>> {
    |said: Seq<ImageAnswer>| layers_turn(root, image, said)
}

/// The layers of an image that are found are those of the manifest in the file that the
/// name of the image names, in its order: each is the file that the digest of the layer
/// names, and the host said that it exists.
pub proof fn found_layers_are_those_of_the_manifest(
    root: Seq<char>,
    image: Reference,
    said: Seq<ImageAnswer>,
    paths: Seq<Seq<char>>,
)
    requires
        layers_turn(root, image, said) == Turn::<ImageAsk, Seq<Seq<char>>>::Done(paths),
    ensures
        exists|contents: Seq<char>, manifest: Manifest|
            {
                &&& answered(
                    layers_turns(root, image),
                    said,
                    ImageAsk::ReadText(
                        entry_path(
                            entry_path(entry_path(root, "manifests"@), image.repository),
                            image.reference,
                        ),
                    ),
                    ImageAnswer::Text(contents),
                )
                &&& #[trigger] answered(
                    layers_turns(root, image),
                    said,
                    ImageAsk::DecodeManifest(contents),
                    ImageAnswer::Manifest(manifest),
                )
                &&& paths.len() == manifest.layers.len()
                &&& forall|j: int|
                    0 <= j < paths.len() ==> is_blob_file(
                        root,
                        manifest.layers[j].digest,
                        #[trigger] paths[j],
                    )
            },
        forall|j: int|
            0 <= j < paths.len() ==> answered(
                layers_turns(root, image),
                said,
                ImageAsk::Exists(#[trigger] paths[j]),
                ImageAnswer::Exists(true),
            ),
{
    let turns = layers_turns(root, image);
    let rest = said.skip(2);
    let contents = said[0]->Text_0;
    let manifest = said[1]->Manifest_0;
    assert(said.take(1)[0] == said[0]);
    assert(answered_at(
        turns,
        said,
        0,
        ImageAsk::ReadText(manifest_file(root, image)),
        ImageAnswer::Text(contents),
    ));
    assert(answered_at(
        turns,
        said,
        1,
        ImageAsk::DecodeManifest(contents),
        ImageAnswer::Manifest(manifest),
    ));
    assert(answered(
        turns,
        said,
        ImageAsk::ReadText(manifest_file(root, image)),
        ImageAnswer::Text(contents),
    ));
    assert(answered(
        turns,
        said,
        ImageAsk::DecodeManifest(contents),
        ImageAnswer::Manifest(manifest),
    ));
    present_files_were_asked_for(paths, rest);
    assert forall|j: int| 0 <= j < paths.len() implies answered(
        turns,
        said,
        ImageAsk::Exists(#[trigger] paths[j]),
        ImageAnswer::Exists(true),
    ) by {
        let s = said.take(j + 2);
        assert(s[0] == said[0] && s[1] == said[1]);
        assert(s.skip(2) =~= rest.take(j));
        assert(rest[j] == said[j + 2]);
        assert(answered_at(
            turns,
            said,
            j + 2,
            ImageAsk::Exists(paths[j]),
            ImageAnswer::Exists(true),
        ));
    }
    assert forall|j: int| 0 <= j < paths.len() implies is_blob_file(
        root,
        manifest.layers[j].digest,
        #[trigger] paths[j],
    ) by {
        blob_path_is_the_blob_file(root, manifest.layers[j].digest);
    }
}

/// The turn of the extraction of a layer after the answers so far.
pub open spec fn extract_turn(
    layer: Seq<char>,
    dest: Seq<char>,
    said: Seq<ImageAnswer>,
) -> Turn<ImageAsk, ()> {
    walk(extract_stages(layer, dest, said), said.len(), ())
}

/// The turns of the extraction of a layer.
pub open spec fn extract_turns(layer: Seq<char>, dest: Seq<char>) -> spec_fn(
    Seq<ImageAnswer>,
) -> Turn<ImageAsk, ()> {
    |said: Seq<ImageAnswer>| extract_turn(layer, dest, said)
}

/// When the extraction of a layer is done, the host has opened the file of the layer, has
/// created the directory, and has unpacked the layer there.
pub proof fn extracted_layer_was_unpacked(
    layer: Seq<char>,
    dest: Seq<char>,
    said: Seq<ImageAnswer>,
)
    requires
        extract_turn(layer, dest, said) is Done,
    ensures
        answered(
            extract_turns(layer, dest),
            said,
            ImageAsk::OpenLayer(layer),
            ImageAnswer::Done,
        ),
        answered(
            extract_turns(layer, dest),
            said,
            ImageAsk::CreateDirAll(dest),
            ImageAnswer::Done,
        ),
        answered(extract_turns(layer, dest), said, ImageAsk::Unpack(dest), ImageAnswer::Done),
{
    reveal_with_fuel(walk_from, 4);
    let turns = extract_turns(layer, dest);
    let done = ImageAnswer::Done;
    assert(said.take(1)[0] == said[0]);
    assert(said.take(2)[0] == said[0] && said.take(2)[1] == said[1]);
    assert(answered_at(turns, said, 0, ImageAsk::OpenLayer(layer), done));
    assert(answered_at(turns, said, 1, ImageAsk::CreateDirAll(dest), done));
    assert(answered_at(turns, said, 2, ImageAsk::Unpack(dest), done));
}

/// Whether an answer is a setback: something failed, or a registry refused a request.
pub open spec fn is_setback(answer: ImageAnswer) -> bool {
    match answer {
        ImageAnswer::Failed(_) => true,
        ImageAnswer::Response { success, .. } => !success,
        _ => false,
    }
}

/// Whether one of the answers is a setback.
pub open spec fn has_setback(said: Seq<ImageAnswer>) -> bool {
    exists|i: int| 0 <= i < said.len() && is_setback(#[trigger] said[i])
}

/// Whether a digest cannot be verified: it is not a SHA-256 digest, or some data that was
/// read has another one.
pub open spec fn is_unverified(said: Seq<ImageAnswer>, digest: Seq<char>) -> bool {
    ||| !begins_with(digest, "sha256:"@)
    ||| exists|i: int|
        0 <= i < said.len() && (#[trigger] said[i]) is Bytes && digest != "sha256:"@ + hex_text(
            sha256(said[i]->Bytes_0),
        )
}

spec fn halts(progress: ImageProgress) -> bool {
    progress is Halt && progress->Halt_0 != Halt::Stray
}

proof fn later_causes_are_causes(said: Seq<ImageAnswer>, k: int)
    requires
        0 <= k <= said.len(),
    ensures
        has_setback(said.skip(k)) ==> has_setback(said),
        forall|digest: Seq<char>| #[trigger]
            is_unverified(said.skip(k), digest) ==> is_unverified(said, digest),
{
    let rest = said.skip(k);
    if has_setback(rest) {
        let i = choose|i: int| 0 <= i < rest.len() && is_setback(#[trigger] rest[i]);
        assert(is_setback(said[i + k]));
    }
    assert forall|digest: Seq<char>| #[trigger] is_unverified(rest, digest) implies is_unverified(
        said,
        digest,
    ) by {
        if begins_with(digest, "sha256:"@) {
            let i = choose|i: int|
                0 <= i < rest.len() && (#[trigger] rest[i]) is Bytes && digest != "sha256:"@
                    + hex_text(sha256(rest[i]->Bytes_0));
            assert(said[i + k] == rest[i]);
        }
    }
}

proof fn transfer_halts_for_cause(said: Seq<ImageAnswer>)
    requires
        halts(transfer_progress(said)),
    ensures
        has_setback(said),
    decreases said.len(),
{
    if said[0] is Chunk {
        if said[1] is Done {
            transfer_halts_for_cause(said.skip(2));
            later_causes_are_causes(said, 2);
        } else {
            assert(is_setback(said[1]));
        }
    } else {
        assert(is_setback(said[0]));
    }
}

proof fn step_halts_for_cause(ask: ImageAsk, text: Seq<char>, said: Seq<ImageAnswer>)
    requires
        halts(step_progress(ask, text, said)),
    ensures
        has_setback(said),
{
    assert(is_setback(said[0]));
}

proof fn write_halts_for_cause(dest: Seq<char>, said: Seq<ImageAnswer>)
    requires
        halts(write_progress(dest, said)),
    ensures
        has_setback(said),
{
    let partial = with_extension(dest, "part"@);
    let create = ImageAsk::CreateFile(partial);
    if halts(step_progress(create, "create tmp file: "@, said)) {
        step_halts_for_cause(create, "create tmp file: "@, said);
    } else {
        let rest = said.skip(1);
        if halts(transfer_progress(rest)) {
            transfer_halts_for_cause(rest);
        } else {
            let k = transfer_passed(rest);
            let left = rest.skip(k);
            if halts(step_progress(ImageAsk::Flush, "flush error: "@, left)) {
                step_halts_for_cause(ImageAsk::Flush, "flush error: "@, left);
            } else {
                let rename = ImageAsk::Rename { from: partial, to: dest };
                step_halts_for_cause(rename, "rename failed: "@, left.skip(1));
                later_causes_are_causes(left, 1);
            }
            later_causes_are_causes(rest, k);
        }
        later_causes_are_causes(said, 1);
    }
}

proof fn download_halts_for_cause(
    image: Reference,
    digest: Seq<char>,
    token: Seq<char>,
    dest: Seq<char>,
    said: Seq<ImageAnswer>,
)
    requires
        halts(download_progress(image, digest, token, dest, said)),
    ensures
        has_setback(said),
{
    if is_setback(said[0]) {
    } else {
        let rest = said.skip(1);
        match parent(dest) {
            None => {
                write_halts_for_cause(dest, rest);
            },
            Some(dir) => {
                let make = ImageAsk::CreateDirAll(dir);
                if halts(step_progress(make, "mkdir failed: "@, rest)) {
                    step_halts_for_cause(make, "mkdir failed: "@, rest);
                } else {
                    write_halts_for_cause(dest, rest.skip(1));
                    later_causes_are_causes(rest, 1);
                }
            },
        }
        later_causes_are_causes(said, 1);
    }
}

proof fn blob_halts_for_cause(
    root: Seq<char>,
    image: Reference,
    token: Seq<char>,
    digest: Seq<char>,
    said: Seq<ImageAnswer>,
)
    requires
        halts(blob_progress(root, image, token, digest, said)),
    ensures
        has_setback(said) || is_unverified(said, digest),
{
    let path = blob_path(root, digest);
    let rest = said.skip(1);
    if halts(download_progress(image, digest, token, path, rest)) {
        download_halts_for_cause(image, digest, token, path, rest);
    } else {
        let k = download_passed(image, digest, token, path, rest);
        part_leaves_the_rest(download_of(image, digest, token, path), rest, k);
        let left = rest.skip(k);
        if begins_with(digest, "sha256:"@) {
            if let ImageAnswer::Bytes(data) = left[0] {
                only_matching_data_is_accepted(path, digest, Ok(data));
                assert(is_unverified(left, digest));
            } else {
                assert(is_setback(left[0]));
            }
            later_causes_are_causes(rest, k);
        }
    }
    later_causes_are_causes(said, 1);
}

proof fn layers_halt_for_cause(
    root: Seq<char>,
    image: Reference,
    token: Seq<char>,
    layers: Seq<Blob>,
    said: Seq<ImageAnswer>,
) -> (j: int)
    requires
        halts(layers_progress(root, image, token, layers, said)),
    ensures
        0 <= j < layers.len(),
        has_setback(said) || is_unverified(said, layers[j].digest),
    decreases layers.len(),
{
    let digest = layers[0].digest;
    if halts(blob_progress(root, image, token, digest, said)) {
        blob_halts_for_cause(root, image, token, digest, said);
        0
    } else {
        let k = blob_passed(root, image, token, digest, said);
        let j = layers_halt_for_cause(root, image, token, layers.skip(1), said.skip(k));
        assert(layers.skip(1)[j] == layers[j + 1]);
        later_causes_are_causes(said, k);
        j + 1
    }
}

proof fn save_halts_for_cause(
    root: Seq<char>,
    image: Reference,
    manifest: Manifest,
    said: Seq<ImageAnswer>,
)
    requires
        halts(save_progress(root, image, manifest, said)),
    ensures
        has_setback(said),
{
    let path = manifest_file(root, image);
    let k: int = match parent(path) {
        None => 0,
        Some(dir) => if halts(step_progress(ImageAsk::CreateDirAll(dir), "mkdir: "@, said)) {
            0
        } else {
            1
        },
    };
    let rest = said.skip(k);
    assert(said.skip(0) =~= said);
    if is_setback(rest[0]) {
        assert(is_setback(said[k]));
    } else {
        assert(is_setback(rest.skip(1)[0]));
        assert(is_setback(said[k + 1]));
    }
}

/// A pull fails only for cause: something that the host was asked for failed, the registry
/// refused a request, or a blob that the manifest names cannot be verified.
pub proof fn pull_fails_only_for_cause(
    root: Seq<char>,
    image: Reference,
    said: Seq<ImageAnswer>,
)
    requires
        pull_turn(root, image, said) is Fail || pull_turn(root, image, said) is Rethrow,
    ensures
        has_setback(said) || exists|manifest: Manifest, digest: Seq<char>|
            {
                &&& #[trigger] names_blob(manifest, digest)
                &&& answered(
                    pull_turns(root, image),
                    said,
                    ImageAsk::ReadManifest,
                    ImageAnswer::Manifest(manifest),
                )
                &&& is_unverified(said, digest)
            },
{
    if knows_manifest(root, image, said) {
        pull_head(root, image, said);
        let n = head_len(image);
        let left = said.skip(n);
        let token = token_of(image.registry, said);
        let manifest = said[n - 1]->Manifest_0;
        assert(said.take(said.len() as int) =~= said);
        assert(left.take(left.len() as int) =~= left);
        let config = manifest.config.digest;
        later_causes_are_causes(said, n);
        assert(halts(contents_progress(root, image, token, manifest, left)));
        if halts(blob_progress(root, image, token, config, left)) {
            blob_halts_for_cause(root, image, token, config, left);
            assert(names_blob(manifest, config));
        } else {
            let a = blob_passed(root, image, token, config, left);
            let rest = left.skip(a);
            later_causes_are_causes(left, a);
            if halts(layers_progress(root, image, token, manifest.layers, rest)) {
                let j = layers_halt_for_cause(root, image, token, manifest.layers, rest);
                assert(names_blob(manifest, manifest.layers[j].digest));
            } else {
                let b = layers_passed(root, image, token, manifest.layers, rest);
                save_halts_for_cause(root, image, manifest, rest.skip(b));
                later_causes_are_causes(rest, b);
            }
        }
    } else {
        let k: int = if is_docker_hub(image.registry) {
            2
        } else {
            0
        };
        if said.len() > 0 && !is_setback(said[0]) && said.len() > 1 && !is_setback(said[1]) {
            assert(said.skip(k)[0] == said[k]);
            if said.len() > k + 1 {
                assert(said.skip(k)[1] == said[k + 1]);
            }
            assert(is_setback(said[k]) || is_setback(said[k + 1]));
        }
    }
}

} // verus!
