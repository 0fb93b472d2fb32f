//! The client side of the registry protocol.
//!
//! Each operation is a part of a dialogue. The host sends the requests and keeps the
//! response at hand from which the next questions read.

use vstd::prelude::*;
use vstd::string::*;

use crate::dialogue::{heard, progress_of, Halt, Part, Progress, Stop};
use crate::error::{fails_with, labelled, ContainerError, Failure};
use crate::host::{chars_in, owned, text_of};
use crate::image::reference::{shown, DEFAULT_REGISTRY, ImageReference, Reference};
use crate::path::{parent, parent_of, replace_extension, with_extension};
use crate::text::same_text;

verus! {

/// The address that gives tokens for the default registry.
pub const AUTH_URL: &'static str = "https://auth.docker.io/token";

/// The name under which the client introduces itself.
pub const USER_AGENT: &'static str = "crate-runtime/0.1";

/// The media types of manifests that the client accepts.
pub const MANIFEST_ACCEPT: &'static str =
    "application/vnd.oci.image.manifest.v1+json, application/vnd.docker.distribution.manifest.v2+json, application/vnd.docker.distribution.manifest.list.v2+json";

/// A layer (or config) descriptor inside a manifest.
#[derive(Debug)]
pub struct Descriptor {
    /// Media type of the referenced content.
    pub media_type: String,
    /// Content digest, e.g. `sha256:abcdef...`.
    pub digest: String,
    /// Size in bytes.
    pub size: u64,
}

/// What a [`Descriptor`] says, with texts as characters.
pub struct Blob {
    pub media_type: Seq<char>,
    pub digest: Seq<char>,
    pub size: u64,
}

impl View for Descriptor {
    type V = Blob;

    open spec fn view(&self) -> Blob {
        Blob { media_type: self.media_type@, digest: self.digest@, size: self.size }
    }
}

impl Clone for Descriptor {
    fn clone(&self) -> (r: Descriptor)
        ensures
            r == *self,
    {
        Descriptor {
            media_type: self.media_type.clone(),
            digest: self.digest.clone(),
            size: self.size,
        }
    }
}

/// An image manifest.
#[derive(Debug)]
pub struct ImageManifest {
    /// Schema version (always 2 for current manifests).
    pub schema_version: u32,
    /// Media type of the manifest itself.
    pub media_type: Option<String>,
    /// Config descriptor.
    pub config: Descriptor,
    /// Layer descriptors, the bottom layer first.
    pub layers: Vec<Descriptor>,
}

/// What an [`ImageManifest`] says, with texts as characters.
pub struct Manifest {
    pub schema_version: u32,
    pub media_type: Option<Seq<char>>,
    pub config: Blob,
    pub layers: Seq<Blob>,
}

/// What a list of descriptors says.
pub open spec fn blobs(list: Seq<Descriptor>) -> Seq<Blob> {
    list.map_values(|descriptor: Descriptor| descriptor@)
}

impl View for ImageManifest {
    type V = Manifest;

    open spec fn view(&self) -> Manifest {
        Manifest {
            schema_version: self.schema_version,
            media_type: text_of(self.media_type),
            config: self.config@,
            layers: blobs(self.layers@),
        }
    }
}

impl Clone for ImageManifest {
    fn clone(&self) -> (r: ImageManifest)
        ensures
            r@ == self@,
    {
        let ghost wanted = blobs(self.layers@);
        let mut layers: Vec<Descriptor> = Vec::new();
        let mut i: usize = 0;
        while i < self.layers.len()
            invariant
                i <= self.layers@.len(),
                wanted == blobs(self.layers@),
                blobs(layers@) == wanted.take(i as int),
            decreases self.layers@.len() - i,
        {
            let ghost before = blobs(layers@);
            layers.push(self.layers[i].clone());
            assert(blobs(layers@) =~= before.push(wanted[i as int]));
            assert(wanted.take(i + 1) =~= wanted.take(i as int).push(wanted[i as int]));
            i = i + 1;
        }
        assert(wanted.take(i as int) =~= wanted);
        ImageManifest {
            schema_version: self.schema_version,
            media_type: match &self.media_type {
                Some(text) => Some(text.clone()),
                None => None,
            },
            config: self.config.clone(),
            layers,
        }
    }
}

/// A question of an image operation to the host.
#[derive(Debug)]
pub enum ImageCall {
    /// Send a GET request, with this `Accept` header and this bearer token.
    Get { url: String, accept: Option<String>, bearer: Option<String> },
    /// Read the token out of the response.
    ReadToken,
    /// Read the manifest out of the response.
    ReadManifest,
    /// Read the next chunk of the response.
    ReadChunk,
    /// Create a file to write to.
    CreateFile(String),
    /// Write the chunk that was read last to the file.
    WriteChunk,
    /// Complete the file.
    Flush,
    /// Rename a file.
    Rename { from: String, to: String },
    /// Create a directory with its missing parents.
    CreateDirAll(String),
    /// Does this path exist?
    Exists(String),
    /// Read a whole file.
    ReadFile(String),
    /// Read a whole file as a text.
    ReadText(String),
    /// The manifest that a text holds.
    DecodeManifest(String),
    /// The manifest as a text.
    EncodeManifest(ImageManifest),
    /// Write a whole file.
    WriteFile { path: String, contents: String },
    /// Open a layer.
    OpenLayer(String),
    /// Unpack the layer that was opened.
    Unpack(String),
}

/// What an [`ImageCall`] asks, with texts as characters.
pub enum ImageAsk {
    Get { url: Seq<char>, accept: Option<Seq<char>>, bearer: Option<Seq<char>> },
    ReadToken,
    ReadManifest,
    ReadChunk,
    CreateFile(Seq<char>),
    WriteChunk,
    Flush,
    Rename { from: Seq<char>, to: Seq<char> },
    CreateDirAll(Seq<char>),
    Exists(Seq<char>),
    ReadFile(Seq<char>),
    ReadText(Seq<char>),
    DecodeManifest(Seq<char>),
    EncodeManifest(Manifest),
    WriteFile { path: Seq<char>, contents: Seq<char> },
    OpenLayer(Seq<char>),
    Unpack(Seq<char>),
}

impl View for ImageCall {
    type V = ImageAsk;

    open spec fn view(&self) -> ImageAsk {
        match *self {
            ImageCall::Get { url, accept, bearer } => ImageAsk::Get {
                url: url@,
                accept: text_of(accept),
                bearer: text_of(bearer),
            },
            ImageCall::ReadToken => ImageAsk::ReadToken,
            ImageCall::ReadManifest => ImageAsk::ReadManifest,
            ImageCall::ReadChunk => ImageAsk::ReadChunk,
            ImageCall::CreateFile(path) => ImageAsk::CreateFile(path@),
            ImageCall::WriteChunk => ImageAsk::WriteChunk,
            ImageCall::Flush => ImageAsk::Flush,
            ImageCall::Rename { from, to } => ImageAsk::Rename { from: from@, to: to@ },
            ImageCall::CreateDirAll(path) => ImageAsk::CreateDirAll(path@),
            ImageCall::Exists(path) => ImageAsk::Exists(path@),
            ImageCall::ReadFile(path) => ImageAsk::ReadFile(path@),
            ImageCall::ReadText(path) => ImageAsk::ReadText(path@),
            ImageCall::DecodeManifest(text) => ImageAsk::DecodeManifest(text@),
            ImageCall::EncodeManifest(manifest) => ImageAsk::EncodeManifest(manifest@),
            ImageCall::WriteFile { path, contents } => ImageAsk::WriteFile {
                path: path@,
                contents: contents@,
            },
            ImageCall::OpenLayer(path) => ImageAsk::OpenLayer(path@),
            ImageCall::Unpack(path) => ImageAsk::Unpack(path@),
        }
    }
}

/// The host's answer to an [`ImageCall`].
#[derive(Debug)]
pub enum ImageReply {
    /// It is done.
    Done,
    /// It failed with this text.
    Failed(String),
    /// The response has this status.
    Response { success: bool, status: String },
    /// The text that was asked for.
    Text(String),
    /// The manifest that was asked for.
    Manifest(ImageManifest),
    /// A chunk was read.
    Chunk,
    /// There is no chunk left.
    End,
    /// Whether the path exists.
    Exists(bool),
    /// The data that was asked for.
    Bytes(Vec<u8>),
}

/// What an [`ImageReply`] says, with texts as characters.
pub enum ImageAnswer {
    Done,
    Failed(Seq<char>),
    Response { success: bool, status: Seq<char> },
    Text(Seq<char>),
    Manifest(Manifest),
    Chunk,
    End,
    Exists(bool),
    Bytes(Seq<u8>),
}

impl View for ImageReply {
    type V = ImageAnswer;

    open spec fn view(&self) -> ImageAnswer {
        match *self {
            ImageReply::Done => ImageAnswer::Done,
            ImageReply::Failed(text) => ImageAnswer::Failed(text@),
            ImageReply::Response { success, status } => ImageAnswer::Response {
                success,
                status: status@,
            },
            ImageReply::Text(text) => ImageAnswer::Text(text@),
            ImageReply::Manifest(manifest) => ImageAnswer::Manifest(manifest@),
            ImageReply::Chunk => ImageAnswer::Chunk,
            ImageReply::End => ImageAnswer::End,
            ImageReply::Exists(exists) => ImageAnswer::Exists(exists),
            ImageReply::Bytes(data) => ImageAnswer::Bytes(data@),
        }
    }
}

/// How far a part of an image operation has come.
pub type ImageProgress = Progress<ImageAsk, ImageAnswer>;

/// How far a step has come whose failure is reported with a text in front.
pub open spec fn step_progress(
    ask: ImageAsk,
    text: Seq<char>,
    answers: Seq<ImageAnswer>,
) -> ImageProgress {
    if answers.len() == 0 {
        ImageProgress::Ask(ask)
    } else {
        match answers[0] {
            ImageAnswer::Done => ImageProgress::Passed(answers.skip(1)),
            ImageAnswer::Failed(error) => ImageProgress::Halt(
                Halt::Fail(Failure::Image(text + error)),
            ),
            _ => ImageProgress::Halt(Halt::Stray),
        }
    }
}

/// How far a step has come whose failure is reported with a text in front, with its
/// answer at `at`.
pub fn step_part(call: ImageCall, text: &str, replies: &Vec<ImageReply>, at: usize) -> (r: Part<
    ImageCall,
>)
    requires
        at <= replies@.len(),
    ensures
        progress_of(r, replies@) == step_progress(
            call@,
            text@,
            heard(replies@).skip(at as int),
        ),
        r is Passed ==> r->Passed_0 <= replies@.len(),
{
    let ghost answers = heard(replies@).skip(at as int);
    if at == replies.len() {
        return Part::Ask(call);
    }
    assert(answers[0] == replies@[at as int]@);
    assert(answers.skip(1) =~= heard(replies@).skip(at + 1));
    match &replies[at] {
        ImageReply::Done => Part::Passed(at + 1),
        ImageReply::Failed(error) => Part::Stop(
            Stop::Fail(ContainerError::Image(labelled(text, error.as_str()))),
        ),
        _ => Part::Stop(Stop::Stray),
    }
}

/// Whether a registry gives tokens: Docker Hub does.
pub open spec fn gives_tokens(registry: Seq<char>) -> bool {
    registry == DEFAULT_REGISTRY@ || registry == "docker.io"@
}

/// The address that gives the token for a repository.
pub open spec fn token_url(repository: Seq<char>) -> Seq<char> {
    AUTH_URL@ + "?service=registry.docker.io&scope=repository:"@ + repository + ":pull"@
}

/// How far the authentication has come. When the registry gives tokens, the answer to
/// the second question is the token; otherwise it is empty.
pub open spec fn token_progress(
    registry: Seq<char>,
    repository: Seq<char>,
    answers: Seq<ImageAnswer>,
) -> ImageProgress {
    if !gives_tokens(registry) {
        ImageProgress::Passed(answers)
    } else if answers.len() == 0 {
        ImageProgress::Ask(
            ImageAsk::Get { url: token_url(repository), accept: None, bearer: None },
        )
    } else {
        match answers[0] {
            ImageAnswer::Failed(error) => ImageProgress::Halt(
                Halt::Fail(Failure::Http("token request failed: "@ + error)),
            ),
            ImageAnswer::Response { success, status } => if !success {
                ImageProgress::Halt(
                    Halt::Fail(Failure::Http("auth endpoint returned "@ + status)),
                )
            } else if answers.len() == 1 {
                ImageProgress::Ask(ImageAsk::ReadToken)
            } else {
                match answers[1] {
                    ImageAnswer::Text(_) => ImageProgress::Passed(answers.skip(2)),
                    ImageAnswer::Failed(error) => ImageProgress::Halt(
                        Halt::Fail(Failure::Http("failed to parse token response: "@ + error)),
                    ),
                    _ => ImageProgress::Halt(Halt::Stray),
                }
            },
            _ => ImageProgress::Halt(Halt::Stray),
        }
    }
}

/// The token that the authentication gave.
pub open spec fn token_of(registry: Seq<char>, answers: Seq<ImageAnswer>) -> Seq<char> {
    if gives_tokens(registry) {
        answers[1]->Text_0
    } else {
        ""@
    }
}

/// The bearer token of a request: none when the token is empty.
pub open spec fn bearer_of(token: Seq<char>) -> Option<Seq<char>> {
    if token.len() == 0 {
        None
    } else {
        Some(token)
    }
}

/// The address of a manifest.
pub open spec fn manifest_url(image: Reference) -> Seq<char> {
    "https://"@ + image.registry + "/v2/"@ + image.repository + "/manifests/"@ + image.reference
}

/// The address of a blob.
pub open spec fn blob_url(image: Reference, digest: Seq<char>) -> Seq<char> {
    "https://"@ + image.registry + "/v2/"@ + image.repository + "/blobs/"@ + digest
}

/// How far the fetching of a manifest has come. The answer to the second question is
/// the manifest.
pub open spec fn manifest_progress(
    image: Reference,
    token: Seq<char>,
    answers: Seq<ImageAnswer>,
) -> ImageProgress {
    if answers.len() == 0 {
        ImageProgress::Ask(
            ImageAsk::Get {
                url: manifest_url(image),
                accept: Some(MANIFEST_ACCEPT@),
                bearer: bearer_of(token),
            },
        )
    } else {
        match answers[0] {
            ImageAnswer::Failed(error) => ImageProgress::Halt(
                Halt::Fail(Failure::Http("manifest request failed: "@ + error)),
            ),
            ImageAnswer::Response { success, status } => if !success {
                ImageProgress::Halt(
                    Halt::Fail(
                        Failure::Image(
                            "registry returned "@ + status + " for manifest of "@ + shown(image),
                        ),
                    ),
                )
            } else if answers.len() == 1 {
                ImageProgress::Ask(ImageAsk::ReadManifest)
            } else {
                match answers[1] {
                    ImageAnswer::Manifest(_) => ImageProgress::Passed(answers.skip(2)),
                    ImageAnswer::Failed(error) => ImageProgress::Halt(
                        Halt::Fail(Failure::Image("failed to parse manifest: "@ + error)),
                    ),
                    _ => ImageProgress::Halt(Halt::Stray),
                }
            },
            _ => ImageProgress::Halt(Halt::Stray),
        }
    }
}

/// How far the transfer of a blob into the file that was created has come: chunk by
/// chunk, until none is left.
pub open spec fn transfer_progress(answers: Seq<ImageAnswer>) -> ImageProgress
    decreases answers.len(),
{
    if answers.len() == 0 {
        ImageProgress::Ask(ImageAsk::ReadChunk)
    } else {
        match answers[0] {
            ImageAnswer::End => ImageProgress::Passed(answers.skip(1)),
            ImageAnswer::Failed(error) => ImageProgress::Halt(
                Halt::Fail(Failure::Http("stream read error: "@ + error)),
            ),
            ImageAnswer::Chunk => if answers.len() == 1 {
                ImageProgress::Ask(ImageAsk::WriteChunk)
            } else {
                match answers[1] {
                    ImageAnswer::Done => transfer_progress(answers.skip(2)),
                    ImageAnswer::Failed(error) => ImageProgress::Halt(
                        Halt::Fail(Failure::Image("write error: "@ + error)),
                    ),
                    _ => ImageProgress::Halt(Halt::Stray),
                }
            },
            _ => ImageProgress::Halt(Halt::Stray),
        }
    }
}

/// How far the writing of a blob has come: it is written to a temporary file, which is
/// renamed when it is complete.
pub open spec fn write_progress(dest: Seq<char>, answers: Seq<ImageAnswer>) -> ImageProgress {
    let partial = with_extension(dest, "part"@);
    match step_progress(ImageAsk::CreateFile(partial), "create tmp file: "@, answers) {
        ImageProgress::Passed(rest) => match transfer_progress(rest) {
            ImageProgress::Passed(left) => match step_progress(
                ImageAsk::Flush,
                "flush error: "@,
                left,
            ) {
                ImageProgress::Passed(last) => step_progress(
                    ImageAsk::Rename { from: partial, to: dest },
                    "rename failed: "@,
                    last,
                ),
                other => other,
            },
            other => other,
        },
        other => other,
    }
}

/// How far the storing of a blob whose response is there has come: the directory is
/// created, then the blob is written.
pub open spec fn store_progress(dest: Seq<char>, answers: Seq<ImageAnswer>) -> ImageProgress {
    match parent(dest) {
        None => write_progress(dest, answers),
        Some(dir) => match step_progress(
            ImageAsk::CreateDirAll(dir),
            "mkdir failed: "@,
            answers,
        ) {
            ImageProgress::Passed(rest) => write_progress(dest, rest),
            other => other,
        },
    }
}

/// How far the download of a blob to the file `dest` has come.
pub open spec fn download_progress(
    image: Reference,
    digest: Seq<char>,
    token: Seq<char>,
    dest: Seq<char>,
    answers: Seq<ImageAnswer>,
) -> ImageProgress {
    if answers.len() == 0 {
        ImageProgress::Ask(
            ImageAsk::Get {
                url: blob_url(image, digest),
                accept: None,
                bearer: bearer_of(token),
            },
        )
    } else {
        match answers[0] {
            ImageAnswer::Failed(error) => ImageProgress::Halt(
                Halt::Fail(Failure::Http("blob download failed: "@ + error)),
            ),
            ImageAnswer::Response { success, status } => if success {
                store_progress(dest, answers.skip(1))
            } else {
                ImageProgress::Halt(
                    Halt::Fail(
                        Failure::Image("registry returned "@ + status + " for blob "@ + digest),
                    ),
                )
            },
            _ => ImageProgress::Halt(Halt::Stray),
        }
    }
}

/// A client of registries.
#[derive(Debug, Clone, Copy)]
pub struct RegistryClient {
    /// The user agent that its requests name.
    pub user_agent: &'static str,
}

fn http(text: &str, error: &str) -> (r: Part<ImageCall>)
    ensures
        r is Stop,
        r->Stop_0@ == Halt::Fail(Failure::Http(text@ + error@)),
{
    Part::Stop(Stop::Fail(ContainerError::Http(labelled(text, error))))
}

fn image_error(text: String) -> (r: Part<ImageCall>)
    ensures
        r is Stop,
        r->Stop_0@ == Halt::Fail(Failure::Image(text@)),
{
    Part::Stop(Stop::Fail(ContainerError::Image(text)))
}

fn get_call(url: String, accept: Option<&str>, token: &str) -> (r: ImageCall)
    ensures
        r@ == (ImageAsk::Get {
            url: url@,
            accept: chars_in(accept),
            bearer: bearer_of(token@),
        }),
{
    let bearer = if token.is_empty() {
        None
    } else {
        Some(token.to_owned())
    };
    ImageCall::Get { url, accept: owned(accept), bearer }
}

fn url_of(image: &ImageReference, kind: &str, name: &str) -> (r: String)
    ensures
        r@ == "https://"@ + image@.registry + "/v2/"@ + image@.repository + kind@ + name@,
{
    let mut url = labelled("https://", image.registry.as_str());
    url.append("/v2/");
    url.append(image.repository.as_str());
    url.append(kind);
    url.append(name);
    url
}

impl RegistryClient {
    /// A new registry client. `built` says whether the host could set up an HTTP client
    /// whose requests name [`USER_AGENT`], or the text of the error that kept it from it.
    pub fn new(built: Result<(), String>) -> (r: Result<RegistryClient, ContainerError>)
        ensures
            fails_with(
                r,
                match built {
                    Ok(_) => None,
                    Err(error) => Some(Failure::Http(error@)),
                },
            ),
            r is Ok ==> r->Ok_0.user_agent@ == USER_AGENT@,
    {
        match built {
            Ok(_) => Ok(RegistryClient::ready()),
            Err(error) => Err(ContainerError::Http(error)),
        }
    }

    /// The client of a host whose HTTP client is set up.
    pub(crate) fn ready() -> (r: RegistryClient)
        ensures
            r.user_agent@ == USER_AGENT@,
    {
        RegistryClient { user_agent: USER_AGENT }
    }

    /// How far the authentication for pulling from a repository has come, with its
    /// answers starting at `at`. The answer to its second question is the token.
    ///
    /// Docker Hub gives tokens; other registries are asked without one.
    pub fn authenticate(
        &self,
        registry: &str,
        repository: &str,
        replies: &Vec<ImageReply>,
        at: usize,
    ) -> (r: Part<ImageCall>)
        requires
            at <= replies@.len(),
        ensures
            progress_of(r, replies@) == token_progress(
                registry@,
                repository@,
                heard(replies@).skip(at as int),
            ),
            r is Passed ==> r->Passed_0 <= replies@.len(),
            r is Passed && gives_tokens(registry@) ==> r->Passed_0 == at + 2 && replies@[at
                + 1] is Text,
            r is Passed && !gives_tokens(registry@) ==> r->Passed_0 == at,
    {
        let ghost answers = heard(replies@).skip(at as int);
        if !same_text(registry, DEFAULT_REGISTRY) && !same_text(registry, "docker.io") {
            return Part::Passed(at);
        }
        let left: usize = replies.len() - at;
        if left == 0 {
            proof {
                reveal_strlit("");
            }
            let mut url = labelled(
                AUTH_URL,
                "?service=registry.docker.io&scope=repository:",
            );
            url.append(repository);
            url.append(":pull");
            return Part::Ask(get_call(url, None, ""));
        }
        assert(answers[0] == replies@[at as int]@);
        match &replies[at] {
            ImageReply::Failed(error) => return http("token request failed: ", error.as_str()),
            ImageReply::Response { success, status } => {
                if !*success {
                    return http("auth endpoint returned ", status.as_str());
                }
            },
            _ => return Part::Stop(Stop::Stray),
        }
        if left == 1 {
            return Part::Ask(ImageCall::ReadToken);
        }
        assert(answers[1] == replies@[at + 1]@);
        assert(answers.skip(2) =~= heard(replies@).skip(at + 2));
        match &replies[at + 1] {
            ImageReply::Text(_) => Part::Passed(at + 2),
            ImageReply::Failed(error) => http(
                "failed to parse token response: ",
                error.as_str(),
            ),
            _ => Part::Stop(Stop::Stray),
        }
    }

    /// How far the fetching of a manifest has come, with its answers starting at `at`.
    /// The answer to its second question is the manifest.
    pub fn fetch_manifest(
        &self,
        image: &ImageReference,
        token: &str,
        replies: &Vec<ImageReply>,
        at: usize,
    ) -> (r: Part<ImageCall>)
        requires
            at <= replies@.len(),
        ensures
            progress_of(r, replies@) == manifest_progress(
                image@,
                token@,
                heard(replies@).skip(at as int),
            ),
            r is Passed ==> {
                &&& r->Passed_0 == at + 2
                &&& at + 2 <= replies@.len()
                &&& replies@[at + 1] is Manifest
            },
    {
        let ghost answers = heard(replies@).skip(at as int);
        let left: usize = replies.len() - at;
        if left == 0 {
            let url = url_of(image, "/manifests/", image.reference.as_str());
            return Part::Ask(get_call(url, Some(MANIFEST_ACCEPT), token));
        }
        assert(answers[0] == replies@[at as int]@);
        match &replies[at] {
            ImageReply::Failed(error) => {
                return http("manifest request failed: ", error.as_str());
            },
            ImageReply::Response { success, status } => {
                if !*success {
                    let mut text = labelled("registry returned ", status.as_str());
                    text.append(" for manifest of ");
                    text.append(image.to_string().as_str());
                    return image_error(text);
                }
            },
            _ => return Part::Stop(Stop::Stray),
        }
        if left == 1 {
            return Part::Ask(ImageCall::ReadManifest);
        }
        assert(answers[1] == replies@[at + 1]@);
        assert(answers.skip(2) =~= heard(replies@).skip(at + 2));
        match &replies[at + 1] {
            ImageReply::Manifest(_) => Part::Passed(at + 2),
            ImageReply::Failed(error) => image_error(
                labelled("failed to parse manifest: ", error.as_str()),
            ),
            _ => Part::Stop(Stop::Stray),
        }
    }

    fn transfer(replies: &Vec<ImageReply>, from: usize) -> (r: Part<ImageCall>)
        requires
            from <= replies@.len(),
        ensures
            progress_of(r, replies@) == transfer_progress(heard(replies@).skip(from as int)),
            r is Passed ==> r->Passed_0 <= replies@.len(),
    {
        let len = replies.len();
        let mut at: usize = from;
        while at < len
            invariant
                len == replies@.len(),
                at <= len,
                transfer_progress(heard(replies@).skip(from as int)) == transfer_progress(
                    heard(replies@).skip(at as int),
                ),
            decreases len - at,
        {
            let ghost answers = heard(replies@).skip(at as int);
            assert(answers[0] == replies@[at as int]@);
            assert(answers.skip(1) =~= heard(replies@).skip(at + 1));
            match &replies[at] {
                ImageReply::End => return Part::Passed(at + 1),
                ImageReply::Failed(error) => {
                    return http("stream read error: ", error.as_str());
                },
                ImageReply::Chunk => {},
                _ => return Part::Stop(Stop::Stray),
            }
            if at + 1 == len {
                return Part::Ask(ImageCall::WriteChunk);
            }
            assert(answers[1] == replies@[at + 1]@);
            assert(answers.skip(2) =~= heard(replies@).skip(at + 2));
            match &replies[at + 1] {
                ImageReply::Done => {},
                ImageReply::Failed(error) => {
                    return image_error(labelled("write error: ", error.as_str()));
                },
                _ => return Part::Stop(Stop::Stray),
            }
            at = at + 2;
        }
        assert(heard(replies@).skip(at as int).len() == 0);
        Part::Ask(ImageCall::ReadChunk)
    }

    fn write(dest: &str, replies: &Vec<ImageReply>, at: usize) -> (r: Part<ImageCall>)
        requires
            at <= replies@.len(),
        ensures
            progress_of(r, replies@) == write_progress(dest@, heard(replies@).skip(at as int)),
            r is Passed ==> r->Passed_0 <= replies@.len(),
    {
        let partial = replace_extension(dest, "part");
        let next: usize = match step_part(
            ImageCall::CreateFile(partial.clone()),
            "create tmp file: ",
            replies,
            at,
        ) {
            Part::Passed(next) => next,
            other => return other,
        };
        let next: usize = match RegistryClient::transfer(replies, next) {
            Part::Passed(next) => next,
            other => return other,
        };
        let next: usize = match step_part(ImageCall::Flush, "flush error: ", replies, next) {
            Part::Passed(next) => next,
            other => return other,
        };
        step_part(
            ImageCall::Rename { from: partial, to: dest.to_owned() },
            "rename failed: ",
            replies,
            next,
        )
    }

    /// How far the download of a blob (layer or config) to the file `dest` has come,
    /// with its answers starting at `at`.
    ///
    /// The blob is written to a temporary file first, which is renamed when the download
    /// is complete, so that partial downloads are never visible to readers.
    pub fn download_layer(
        &self,
        image: &ImageReference,
        digest: &str,
        token: &str,
        dest: &str,
        replies: &Vec<ImageReply>,
        at: usize,
    ) -> (r: Part<ImageCall>)
        requires
            at <= replies@.len(),
        ensures
            progress_of(r, replies@) == download_progress(
                image@,
                digest@,
                token@,
                dest@,
                heard(replies@).skip(at as int),
            ),
            r is Passed ==> r->Passed_0 <= replies@.len(),
    {
        let ghost answers = heard(replies@).skip(at as int);
        if at == replies.len() {
            return Part::Ask(get_call(url_of(image, "/blobs/", digest), None, token));
        }
        assert(answers[0] == replies@[at as int]@);
        assert(answers.skip(1) =~= heard(replies@).skip(at + 1));
        match &replies[at] {
            ImageReply::Failed(error) => return http("blob download failed: ", error.as_str()),
            ImageReply::Response { success, status } => {
                if !*success {
                    let mut text = labelled("registry returned ", status.as_str());
                    text.append(" for blob ");
                    text.append(digest);
                    return image_error(text);
                }
            },
            _ => return Part::Stop(Stop::Stray),
        }
        match parent_of(dest) {
            None => RegistryClient::write(dest, replies, at + 1),
            Some(dir) => match step_part(
                ImageCall::CreateDirAll(dir),
                "mkdir failed: ",
                replies,
                at + 1,
            ) {
                Part::Passed(next) => RegistryClient::write(dest, replies, next),
                other => other,
            },
        }
    }
}

/// A blob gets its name only when it is complete: the file is renamed only after the
/// last chunk was read and the file was completed, and no other file than the
/// temporary one is created or written.
pub proof fn partial_downloads_are_never_visible(dest: Seq<char>, answers: Seq<ImageAnswer>)
    ensures
        write_progress(dest, answers) matches ImageProgress::Ask(ask) ==> match ask {
            ImageAsk::Rename { from, to } => {
                &&& from == with_extension(dest, "part"@)
                &&& to == dest
                &&& answers.len() >= 3
                &&& answers[answers.len() - 2] == ImageAnswer::End
                &&& answers.last() == ImageAnswer::Done
            },
            ImageAsk::CreateFile(path) => path == with_extension(dest, "part"@),
            ImageAsk::WriteFile { .. } => false,
            _ => true,
        },
{
    if answers.len() > 0 && answers[0] == ImageAnswer::Done {
        let rest = answers.skip(1);
        transfer_ends_with_the_last_chunk(rest);
        if let ImageProgress::Passed(left) = transfer_progress(rest) {
            if left.len() == 1 {
                assert(left.skip(1).len() == 0);
                assert(rest[rest.len() - 2] == answers[answers.len() - 2]);
            }
        }
    }
}

proof fn transfer_ends_with_the_last_chunk(answers: Seq<ImageAnswer>)
    ensures
        match transfer_progress(answers) {
            ImageProgress::Ask(ask) => ask is ReadChunk || ask is WriteChunk,
            ImageProgress::Halt(_) => true,
            ImageProgress::Passed(left) => {
                &&& left.len() < answers.len()
                &&& answers[answers.len() - left.len() - 1] == ImageAnswer::End
                &&& left.len() > 0 ==> left.last() == answers.last()
            },
        },
    decreases answers.len(),
{
    if answers.len() > 1 {
        transfer_ends_with_the_last_chunk(answers.skip(2));
    }
}

} // verus!
