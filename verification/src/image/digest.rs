//! Content digests in the form `sha256:<hex>`.

use vstd::prelude::*;
use vstd::string::*;

use crate::error::{fails_with, labelled, ContainerError, Failure};
use crate::os_path::{path_shown, shown_path};
use crate::text::{begins_with, same_text, strip_text};

verus! {

/// The SHA-256 digest of some data.
pub uninterp spec fn sha256(data: Seq<u8>) -> Seq<u8>;

/// Calls `sha2::Sha256` through `sha2::Digest::digest`. The digest depends on the
/// data alone and has 32 bytes; the algorithm fills pages, so the digest has a name.
#[verifier::external_body]
fn sha256_digest(data: &Vec<u8>) -> (digest: Vec<u8>)
    ensures
        digest@ == sha256(data@),
        digest@.len() == 32,
{
    <sha2::Sha256 as sha2::Digest>::digest(data).to_vec()
}

/// The character for a hexadecimal digit, in lower case.
pub open spec fn hex_digit(d: int) -> char {
    seq![
        '0',
        '1',
        '2',
        '3',
        '4',
        '5',
        '6',
        '7',
        '8',
        '9',
        'a',
        'b',
        'c',
        'd',
        'e',
        'f',
    ][d]
}

/// Bytes in hexadecimal: two digits for each, the higher one first.
pub open spec fn hex_text(bytes: Seq<u8>) -> Seq<char> {
    Seq::new(
        2 * bytes.len(),
        |i: int|
            if i % 2 == 0 {
                hex_digit(bytes[i / 2] as int / 16)
            } else {
                hex_digit(bytes[i / 2] as int % 16)
            },
    )
}

/// Calls `hex::encode`: the bytes in lower case hexadecimal, two digits for each.
#[verifier::external_body]
fn hex_encode(bytes: &Vec<u8>) -> (text: String)
    ensures
        text@ == hex_text(bytes@),
{
    hex::encode(bytes)
}

/// The digest of some data in hexadecimal.
pub open spec fn data_digest(data: Seq<u8>) -> Seq<char> {
    hex_text(sha256(data))
}

/// What follows the name of the algorithm in a digest.
pub open spec fn digest_hex(digest: Seq<char>) -> Seq<char> {
    digest.skip("sha256:"@.len() as int)
}

/// What is wrong when the data in the file `path` has the digest `actual`, in
/// hexadecimal, and should have the digest `expected`, if anything.
pub open spec fn digest_fault(
    path: Seq<char>,
    expected: Seq<char>,
    actual: Seq<char>,
) -> Option<Failure> {
    if !begins_with(expected, "sha256:"@) {
        Some(Failure::Image("unsupported digest format: "@ + expected))
    } else if digest_hex(expected) != actual {
        Some(
            Failure::Image(
                "digest mismatch for "@ + shown_path(path) + ": expected "@ + digest_hex(expected)
                    + " but got "@ + actual,
            ),
        )
    } else {
        None
    }
}

/// Compare the digest that the data in the file `path` should have with the one that
/// it has, in hexadecimal.
pub fn compare_digest(path: &str, expected: &str, actual: &str) -> (r: Result<(), ContainerError>)
    ensures
        fails_with(r, digest_fault(path@, expected@, actual@)),
{
    match strip_text(expected, "sha256:") {
        None => Err(
            ContainerError::Image(labelled("unsupported digest format: ", expected)),
        ),
        Some(wanted) => {
            if same_text(wanted, actual) {
                return Ok(());
            }
            let mut text = labelled("digest mismatch for ", path_shown(path).as_str());
            text.append(": expected ");
            text.append(wanted);
            text.append(" but got ");
            text.append(actual);
            Err(ContainerError::Image(text))
        },
    }
}

/// The bytes that were read, or the characters of the text of the error.
pub open spec fn data_of(read: Result<Vec<u8>, String>) -> Result<Seq<u8>, Seq<char>> {
    match read {
        Ok(data) => Ok(data@),
        Err(text) => Err(text@),
    }
}

/// What is wrong with the file `path` that should have the digest `expected`, if
/// anything, given what reading it gave.
pub open spec fn file_fault(
    path: Seq<char>,
    expected: Seq<char>,
    read: Result<Seq<u8>, Seq<char>>,
) -> Option<Failure> {
    if !begins_with(expected, "sha256:"@) {
        Some(Failure::Image("unsupported digest format: "@ + expected))
    } else {
        match read {
            Err(error) => Some(Failure::Image("read "@ + shown_path(path) + ": "@ + error)),
            Ok(data) => digest_fault(path, expected, data_digest(data)),
        }
    }
}

/// Verify that the file `path` has the digest `expected`, in the form
/// `sha256:<hex>`, given what reading it gave.
pub fn verify_digest(path: &str, expected: &str, read: &Result<Vec<u8>, String>) -> (r: Result<
    (),
    ContainerError,
>)
    ensures
        fails_with(r, file_fault(path@, expected@, data_of(*read))),
{
    if strip_text(expected, "sha256:").is_none() {
        return Err(ContainerError::Image(labelled("unsupported digest format: ", expected)));
    }
    match read {
        Err(error) => {
            let mut text = labelled("read ", path_shown(path).as_str());
            text.append(": ");
            text.append(error.as_str());
            Err(ContainerError::Image(text))
        },
        Ok(data) => {
            let digest = sha256_digest(data);
            compare_digest(path, expected, hex_encode(&digest).as_str())
        },
    }
}

/// A file is accepted exactly when it was read, and its expected digest is
/// `sha256:` followed by the SHA-256 digest of its data in hexadecimal.
pub proof fn only_matching_data_is_accepted(
    path: Seq<char>,
    expected: Seq<char>,
    read: Result<Seq<u8>, Seq<char>>,
)
    ensures
        (file_fault(path, expected, read) is None) == (read is Ok && expected == "sha256:"@
            + data_digest(read->Ok_0)),
{
    let prefix = "sha256:"@;
    if begins_with(expected, prefix) {
        assert(expected =~= prefix + digest_hex(expected));
    }
    if read is Ok && expected == prefix + data_digest(read->Ok_0) {
        assert(expected.subrange(0, prefix.len() as int) =~= prefix);
        assert(digest_hex(expected) =~= data_digest(read->Ok_0));
    }
}

/// A file that is accepted has the data whose SHA-256 digest the expected text names in
/// hexadecimal, and no other data with another digest would be accepted in its place.
pub proof fn digest_names_the_data(path: Seq<char>, expected: Seq<char>, data: Seq<u8>)
    ensures
        (file_fault(path, expected, Ok(data)) is None) == (expected == "sha256:"@ + hex_text(
            sha256(data),
        )),
        forall|other: Seq<u8>|
            file_fault(path, expected, Ok(data)) is None && #[trigger] file_fault(
                path,
                expected,
                Ok(other),
            ) is None ==> hex_text(sha256(other)) == hex_text(sha256(data)),
        forall|error: Seq<char>| (#[trigger] file_fault(path, expected, Err(error))) is Some,
{
    let prefix = "sha256:"@;
    only_matching_data_is_accepted(path, expected, Ok(data));
    assert forall|other: Seq<u8>|
        file_fault(path, expected, Ok(data)) is None && #[trigger] file_fault(
            path,
            expected,
            Ok(other),
        ) is None implies hex_text(sha256(other)) == hex_text(sha256(data)) by {
        only_matching_data_is_accepted(path, expected, Ok(other));
        let n = prefix.len() as int;
        assert((prefix + hex_text(sha256(other))).skip(n) =~= hex_text(sha256(other)));
        assert((prefix + hex_text(sha256(data))).skip(n) =~= hex_text(sha256(data)));
    }
}

} // verus!
