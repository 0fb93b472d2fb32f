//! The UTS namespace isolates the hostname: each container can have its own.

use vstd::prelude::*;
use vstd::string::*;
use vstd::utf8::*;

use crate::error::{fails_with, labelled, ContainerError, Failure};
use crate::host::{reporting, Category, HostCall, HostOp, Plan};
use crate::text::chars_of;

verus! {

/// The most bytes that a hostname may have.
pub const MAX_HOSTNAME: usize = 255;

/// Whether `c` may occur in a hostname: an ASCII letter or digit, a hyphen or a
/// dot.
pub open spec fn hostname_char(c: char) -> bool {
    'a' <= c <= 'z' || 'A' <= c <= 'Z' || '0' <= c <= '9' || c == '-' || c == '.'
}

/// Whether every character of `name` may occur in a hostname.
pub open spec fn hostname_chars(name: Seq<char>) -> bool {
    forall|i: int| 0 <= i < name.len() ==> hostname_char(#[trigger] name[i])
}

/// Whether `name` takes more bytes than a hostname may have.
pub open spec fn hostname_too_long(name: Seq<char>) -> bool {
    encode_utf8(name).len() > MAX_HOSTNAME
}

/// Whether every character of `name` may occur in a hostname.
pub fn has_hostname_chars(name: &str) -> (r: bool)
    ensures
        r == hostname_chars(name@),
{
    let chars = chars_of(name);
    let mut i: usize = 0;
    while i < chars.len()
        invariant
            chars@ == name@,
            i <= chars@.len(),
            forall|j: int| 0 <= j < i ==> hostname_char(#[trigger] name@[j]),
        decreases chars@.len() - i,
    {
        let c = chars[i];
        if !(('a' <= c && c <= 'z') || ('A' <= c && c <= 'Z') || ('0' <= c && c <= '9') || c == '-'
            || c == '.') {
            assert(!hostname_char(name@[i as int]));
            return false;
        }
        i = i + 1;
    }
    true
}

/// Whether `name` takes more bytes than a hostname may have.
pub fn exceeds_hostname_limit(name: &str) -> (r: bool)
    ensures
        r == hostname_too_long(name@),
{
    name.as_bytes().len() > MAX_HOSTNAME
}

/// What is wrong with a hostname, if anything.
pub open spec fn hostname_fault(name: Seq<char>) -> Option<Failure> {
    if name.len() == 0 {
        Some(Failure::Namespace("Hostname cannot be empty"@))
    } else if hostname_too_long(name) {
        Some(Failure::Namespace("Hostname too long"@))
    } else if !hostname_chars(name) {
        Some(Failure::Namespace("Hostname contains invalid characters"@))
    } else {
        None
    }
}

/// A hostname is accepted exactly when it has from 1 to 255 characters, all of which
/// may occur in a hostname.
pub proof fn accepted_hostnames(name: Seq<char>)
    ensures
        hostname_fault(name) is None <==> 0 < name.len() <= MAX_HOSTNAME && hostname_chars(name),
{
    if hostname_chars(name) {
        assert forall|i: int| 0 <= i < name.len() implies '\0' <= #[trigger] name[i] <= '\u{7f}' by {
            assert(hostname_char(name[i]));
        }
        is_ascii_chars_encode_utf8(name);
    }
}

/// Validate a hostname: at most 255 characters, each an ASCII letter or digit, a
/// hyphen or a dot, and at least one of them.
pub fn validate_hostname(hostname: &str) -> (r: Result<(), ContainerError>)
    ensures
        fails_with(r, hostname_fault(hostname@)),
        r is Ok <==> 0 < hostname@.len() <= MAX_HOSTNAME && hostname_chars(hostname@),
{
    proof {
        accepted_hostnames(hostname@);
    }
    if hostname.is_empty() {
        return Err(ContainerError::Namespace("Hostname cannot be empty".to_owned()));
    }
    if exceeds_hostname_limit(hostname) {
        return Err(ContainerError::Namespace("Hostname too long".to_owned()));
    }
    if !has_hostname_chars(hostname) {
        return Err(ContainerError::Namespace("Hostname contains invalid characters".to_owned()));
    }
    Ok(())
}

/// The plan that sets the hostname of the current UTS namespace.
pub fn set_hostname(hostname: &str) -> (r: Plan)
    ensures
        r@ == seq![
            reporting(
                HostCall::SetHostname(hostname@),
                Category::Namespace,
                "Failed to set hostname: "@,
            ),
        ],
{
    let mut plan = Plan::new();
    plan.report(
        HostOp::SetHostname(hostname.to_owned()),
        Category::Namespace,
        "Failed to set hostname: ",
    );
    plan
}

/// What the host answers when asked for its hostname.
#[derive(Debug)]
pub enum HostnameAnswer {
    /// The hostname.
    Name(String),
    /// The hostname is not Unicode; this is its escaped form.
    NotUnicode(String),
    /// The host failed with this text.
    Failed(String),
}

/// The current hostname, given the host's answer.
pub fn get_hostname(answer: HostnameAnswer) -> (r: Result<String, ContainerError>)
    ensures
        fails_with(
            r,
            match answer {
                HostnameAnswer::Name(_) => None,
                HostnameAnswer::NotUnicode(text) => Some(
                    Failure::Namespace("Invalid hostname encoding: "@ + text@),
                ),
                HostnameAnswer::Failed(text) => Some(
                    Failure::Namespace("Failed to get hostname: "@ + text@),
                ),
            },
        ),
        r is Ok ==> answer == HostnameAnswer::Name(r->Ok_0),
{
    match answer {
        HostnameAnswer::Name(name) => Ok(name),
        HostnameAnswer::NotUnicode(text) => Err(
            ContainerError::Namespace(labelled("Invalid hostname encoding: ", text.as_str())),
        ),
        HostnameAnswer::Failed(text) => Err(
            ContainerError::Namespace(labelled("Failed to get hostname: ", text.as_str())),
        ),
    }
}

/// Any name of letters, digits, hyphens and dots can be a hostname as long as it has at most
/// 255 characters, and nothing else can.
pub proof fn hostnames_are_plain(name: Seq<char>)
    ensures
        (hostname_fault(name) is None) == (1 <= name.len() <= 255 && forall|i: int|
            0 <= i < name.len() ==> {
                let c = #[trigger] name[i];
                ||| 'a' <= c <= 'z'
                ||| 'A' <= c <= 'Z'
                ||| '0' <= c <= '9'
                ||| c == '-'
                ||| c == '.'
            }),
{
    accepted_hostnames(name);
    if hostname_chars(name) {
        assert forall|i: int| 0 <= i < name.len() implies {
            let c = #[trigger] name[i];
            ||| 'a' <= c <= 'z'
            ||| 'A' <= c <= 'Z'
            ||| '0' <= c <= '9'
            ||| c == '-'
            ||| c == '.'
        } by {
            assert(hostname_char(name[i]));
        }
    }
}

} // verus!
