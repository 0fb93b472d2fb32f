//! The local content-addressable store for image blobs.

use vstd::prelude::*;
use vstd::string::*;
use vstd::utf8::encode_utf8;

use crate::config::{home_path, home_text};
use crate::dialogue::{
    end_with, halted, heard, progress_of, walk, walk_from, Halt, Next, Part, Stage, Stop, Turn,
};
use crate::error::{labelled, ContainerError, Failure};
use crate::host::chars_in;
use crate::image::digest::{data_digest, file_fault, verify_digest};
use crate::image::reference::{shown, ImageReference, Reference};
use crate::image::registry::{
    blobs, download_progress, manifest_progress, step_part, step_progress, token_of, token_progress,
    transfer_progress, write_progress, Blob, Descriptor, ImageAnswer, ImageAsk, ImageCall,
    ImageManifest, ImageProgress, ImageReply, Manifest, RegistryClient,
};
use crate::os_path::{
    entry_bytes, entry_stands_for_its_path, is_path, path_bytes, path_shown, shown_path,
};
use crate::path::{enter, entry_path, join, joined_path, parent, parent_of, with_extension};
use crate::text::{begins_with, has_prefix, strip_text, views};

verus! {

/// Local content-addressable store for OCI image blobs.
///
/// Layout under the root directory:
/// ```text
/// <root>/
///   blobs/sha256/<hex digest>    -- blobs (layers, configs)
///   manifests/<repo>/<reference> -- manifests as JSON
/// ```
#[derive(Debug)]
pub struct ImageStore {
    pub root: String,
}

/// The default root directory of the store for a user with this home directory.
pub open spec fn default_store(home: Option<Seq<char>>) -> Seq<char> {
    let dir = match home {
        Some(dir) => dir,
        None => "/tmp"@,
    };
    joined_path(joined_path(dir, ".crate"@), "images"@)
}

/// The default root directory of the store is `.crate/images` below the home directory,
/// whether or not the path of the home directory is Unicode.
pub proof fn default_store_is_below_the_home(home: Seq<u8>)
    requires
        is_path(home),
    ensures
        path_bytes(default_store(home_text(Some(home)))) == entry_bytes(
            home,
            encode_utf8(".crate/images"@),
        ),
{
    reveal_strlit(".crate");
    reveal_strlit("images");
    reveal_strlit("/");
    reveal_strlit(".crate/images");
    let dir = home_text(Some(home))->Some_0;
    assert(".crate/images"@ =~= ".crate"@ + "/"@ + "images"@);
    assert(default_store(Some(dir)) =~= entry_path(dir, ".crate/images"@));
    entry_stands_for_its_path(home, ".crate/images"@);
}

/// The part of a digest that names its blob: what follows `sha256:`, or all of it.
pub open spec fn blob_name(digest: Seq<char>) -> Seq<char> {
    if begins_with(digest, "sha256:"@) {
        digest.skip("sha256:"@.len() as int)
    } else {
        digest
    }
}

/// The file of a blob.
pub open spec fn blob_path(root: Seq<char>, digest: Seq<char>) -> Seq<char> {
    entry_path(entry_path(entry_path(root, "blobs"@), "sha256"@), blob_name(digest))
}

/// The file of a manifest.
pub open spec fn manifest_file(root: Seq<char>, image: Reference) -> Seq<char> {
    entry_path(
        entry_path(entry_path(root, "manifests"@), image.repository),
        image.reference,
    )
}

/// What a file that was read says, as data or as an error.
pub open spec fn read_result(answer: ImageAnswer) -> Option<Result<Seq<u8>, Seq<char>>> {
    match answer {
        ImageAnswer::Bytes(data) => Some(Ok(data)),
        ImageAnswer::Failed(error) => Some(Err(error)),
        _ => None,
    }
}

/// How far the verification of a blob that was downloaded has come. A digest of
/// another form is refused before the file is read.
pub open spec fn verify_progress(
    path: Seq<char>,
    digest: Seq<char>,
    answers: Seq<ImageAnswer>,
) -> ImageProgress {
    if !begins_with(digest, "sha256:"@) {
        ImageProgress::Halt(Halt::Fail(Failure::Image("unsupported digest format: "@ + digest)))
    } else if answers.len() == 0 {
        ImageProgress::Ask(ImageAsk::ReadFile(path))
    } else {
        match read_result(answers[0]) {
            Some(read) => match file_fault(path, digest, read) {
                Some(failure) => ImageProgress::Halt(Halt::Fail(failure)),
                None => ImageProgress::Passed(answers.skip(1)),
            },
            None => ImageProgress::Halt(Halt::Stray),
        }
    }
}

/// How far the fetching of a blob has come: it is downloaded and verified, unless it
/// is in the store already.
pub open spec fn blob_progress(
    root: Seq<char>,
    image: Reference,
    token: Seq<char>,
    digest: Seq<char>,
    answers: Seq<ImageAnswer>,
) -> ImageProgress {
    let path = blob_path(root, digest);
    if answers.len() == 0 {
        ImageProgress::Ask(ImageAsk::Exists(path))
    } else {
        match answers[0] {
            ImageAnswer::Exists(true) => ImageProgress::Passed(answers.skip(1)),
            ImageAnswer::Exists(false) => match download_progress(
                image,
                digest,
                token,
                path,
                answers.skip(1),
            ) {
                ImageProgress::Passed(rest) => verify_progress(path, digest, rest),
                other => other,
            },
            _ => ImageProgress::Halt(Halt::Stray),
        }
    }
}

/// How far the fetching of layers has come.
pub open spec fn layers_progress(
    root: Seq<char>,
    image: Reference,
    token: Seq<char>,
    layers: Seq<Blob>,
    answers: Seq<ImageAnswer>,
) -> ImageProgress
    decreases layers.len(),
{
    if layers.len() == 0 {
        ImageProgress::Passed(answers)
    } else {
        match blob_progress(root, image, token, layers[0].digest, answers) {
            ImageProgress::Passed(rest) => layers_progress(
                root,
                image,
                token,
                layers.skip(1),
                rest,
            ),
            other => other,
        }
    }
}

/// How far the writing of a manifest has come once its directory is there.
pub open spec fn write_manifest_progress(
    path: Seq<char>,
    manifest: Manifest,
    answers: Seq<ImageAnswer>,
) -> ImageProgress {
    if answers.len() == 0 {
        ImageProgress::Ask(ImageAsk::EncodeManifest(manifest))
    } else {
        match answers[0] {
            ImageAnswer::Text(contents) => step_progress(
                ImageAsk::WriteFile { path, contents },
                "write manifest: "@,
                answers.skip(1),
            ),
            ImageAnswer::Failed(error) => ImageProgress::Halt(
                Halt::Fail(Failure::Image("serialize manifest: "@ + error)),
            ),
            _ => ImageProgress::Halt(Halt::Stray),
        }
    }
}

/// How far the saving of a manifest has come.
pub open spec fn save_progress(
    root: Seq<char>,
    image: Reference,
    manifest: Manifest,
    answers: Seq<ImageAnswer>,
) -> ImageProgress {
    let path = manifest_file(root, image);
    match parent(path) {
        None => write_manifest_progress(path, manifest, answers),
        Some(dir) => match step_progress(ImageAsk::CreateDirAll(dir), "mkdir: "@, answers) {
            ImageProgress::Passed(rest) => write_manifest_progress(path, manifest, rest),
            other => other,
        },
    }
}

/// How far a pull has come once the manifest is known: the config blob, the layers,
/// and the manifest itself.
pub open spec fn contents_progress(
    root: Seq<char>,
    image: Reference,
    token: Seq<char>,
    manifest: Manifest,
    answers: Seq<ImageAnswer>,
) -> ImageProgress {
    match blob_progress(root, image, token, manifest.config.digest, answers) {
        ImageProgress::Passed(rest) => match layers_progress(
            root,
            image,
            token,
            manifest.layers,
            rest,
        ) {
            ImageProgress::Passed(left) => save_progress(root, image, manifest, left),
            other => other,
        },
        other => other,
    }
}

/// The turn of a pull after the answers so far.
pub open spec fn pull_turn(
    root: Seq<char>,
    image: Reference,
    answers: Seq<ImageAnswer>,
) -> Turn<ImageAsk, Manifest> {
    match token_progress(image.registry, image.repository, answers) {
        ImageProgress::Ask(ask) => Turn::Ask(ask),
        ImageProgress::Halt(halt) => halted(halt),
        ImageProgress::Passed(rest) => {
            let token = token_of(image.registry, answers);
            match manifest_progress(image, token, rest) {
                ImageProgress::Ask(ask) => Turn::Ask(ask),
                ImageProgress::Halt(halt) => halted(halt),
                ImageProgress::Passed(left) => {
                    let manifest = rest[1]->Manifest_0;
                    match contents_progress(root, image, token, manifest, left) {
                        ImageProgress::Ask(ask) => Turn::Ask(ask),
                        ImageProgress::Halt(halt) => halted(halt),
                        ImageProgress::Passed(_) => Turn::Done(manifest),
                    }
                },
            }
        },
    }
}

/// How far the loading of a manifest has come. The answer to the second question is
/// the manifest.
pub open spec fn load_progress(
    root: Seq<char>,
    image: Reference,
    answers: Seq<ImageAnswer>,
) -> ImageProgress {
    let path = manifest_file(root, image);
    if answers.len() == 0 {
        ImageProgress::Ask(ImageAsk::ReadText(path))
    } else {
        match answers[0] {
            ImageAnswer::Failed(error) => ImageProgress::Halt(
                Halt::Fail(
                    Failure::Image(
                        "manifest not found for "@ + shown(image) + " ("@ + shown_path(path)
                            + "): "@ + error,
                    ),
                ),
            ),
            ImageAnswer::Text(text) => if answers.len() == 1 {
                ImageProgress::Ask(ImageAsk::DecodeManifest(text))
            } else {
                match answers[1] {
                    ImageAnswer::Manifest(_) => ImageProgress::Passed(answers.skip(2)),
                    ImageAnswer::Failed(error) => ImageProgress::Halt(
                        Halt::Fail(Failure::Image("parse manifest: "@ + error)),
                    ),
                    _ => ImageProgress::Halt(Halt::Stray),
                }
            },
            _ => ImageProgress::Halt(Halt::Stray),
        }
    }
}

/// The files of layers.
pub open spec fn layer_paths(root: Seq<char>, layers: Seq<Blob>) -> Seq<Seq<char>> {
    layers.map_values(|layer: Blob| blob_path(root, layer.digest))
}

/// How far the search for files has come, all of which must exist.
pub open spec fn present_progress(
    paths: Seq<Seq<char>>,
    answers: Seq<ImageAnswer>,
) -> ImageProgress
    decreases paths.len(),
{
    if paths.len() == 0 {
        ImageProgress::Passed(answers)
    } else if answers.len() == 0 {
        ImageProgress::Ask(ImageAsk::Exists(paths[0]))
    } else {
        match answers[0] {
            ImageAnswer::Exists(true) => present_progress(paths.skip(1), answers.skip(1)),
            ImageAnswer::Exists(false) => ImageProgress::Halt(
                Halt::Fail(Failure::Image("missing layer blob: "@ + shown_path(paths[0]))),
            ),
            _ => ImageProgress::Halt(Halt::Stray),
        }
    }
}

/// The turn of the search for the layers of an image after the answers so far.
pub open spec fn layers_turn(
    root: Seq<char>,
    image: Reference,
    answers: Seq<ImageAnswer>,
) -> Turn<ImageAsk, Seq<Seq<char>>> {
    match load_progress(root, image, answers) {
        ImageProgress::Ask(ask) => Turn::Ask(ask),
        ImageProgress::Halt(halt) => halted(halt),
        ImageProgress::Passed(rest) => {
            let paths = layer_paths(root, (answers[1]->Manifest_0).layers);
            match present_progress(paths, rest) {
                ImageProgress::Ask(ask) => Turn::Ask(ask),
                ImageProgress::Halt(halt) => halted(halt),
                ImageProgress::Passed(_) => Turn::Done(paths),
            }
        },
    }
}

/// A list of paths.
#[derive(Debug)]
pub struct PathList {
    pub list: Vec<String>,
}

impl View for PathList {
    type V = Seq<Seq<char>>;

    open spec fn view(&self) -> Seq<Seq<char>> {
        views(self.list@)
    }
}

impl ImageStore {
    /// A store with this root directory.
    pub fn new(root: String) -> (r: ImageStore)
        ensures
            r.root == root,
    {
        ImageStore { root }
    }

    /// The default root directory of the store for a user with this home directory.
    pub fn default_root_for(home: Option<&str>) -> (r: String)
        ensures
            r@ == default_store(chars_in(home)),
    {
        let dir = match home {
            Some(dir) => dir,
            None => "/tmp",
        };
        join(join(dir, ".crate").as_str(), "images")
    }

    /// The default root directory of the store: `~/.crate/images`.
    pub fn default_root() -> (r: String)
        ensures
            exists|home: Option<Seq<u8>>| r@ == default_store(#[trigger] home_text(home)),
    {
        match home_path() {
            Some(home) => ImageStore::default_root_for(Some(home.as_str())),
            None => ImageStore::default_root_for(None),
        }
    }

    /// The file of the blob with this digest (e.g. `sha256:abcdef...`).
    pub fn get_layer_path(&self, digest: &str) -> (r: String)
        ensures
            r@ == blob_path(self.root@, digest@),
    {
        let name = match strip_text(digest, "sha256:") {
            Some(name) => name,
            None => digest,
        };
        enter(enter(enter(self.root.as_str(), "blobs").as_str(), "sha256").as_str(), name)
    }

    /// The question whether the blob with this digest is in the store.
    pub fn layer_exists(&self, digest: &str) -> (r: ImageCall)
        ensures
            r@ == ImageAsk::Exists(blob_path(self.root@, digest@)),
    {
        ImageCall::Exists(self.get_layer_path(digest))
    }

    /// The file of the manifest of an image.
    pub fn manifest_path(&self, image: &ImageReference) -> (r: String)
        ensures
            r@ == manifest_file(self.root@, image@),
    {
        let dir = enter(self.root.as_str(), "manifests");
        enter(enter(dir.as_str(), image.repository.as_str()).as_str(), image.reference.as_str())
    }

    fn verify(path: &str, digest: &str, replies: &Vec<ImageReply>, at: usize) -> (r: Part<
        ImageCall,
    >)
        requires
            at <= replies@.len(),
        ensures
            progress_of(r, replies@) == verify_progress(
                path@,
                digest@,
                heard(replies@).skip(at as int),
            ),
            r is Passed ==> r->Passed_0 <= replies@.len(),
    {
        let ghost answers = heard(replies@).skip(at as int);
        if !has_prefix(digest, "sha256:") {
            return Part::Stop(
                Stop::Fail(
                    ContainerError::Image(labelled("unsupported digest format: ", digest)),
                ),
            );
        }
        if at == replies.len() {
            return Part::Ask(ImageCall::ReadFile(path.to_owned()));
        }
        assert(answers[0] == replies@[at as int]@);
        assert(answers.skip(1) =~= heard(replies@).skip(at + 1));
        let read: Result<Vec<u8>, String> = match &replies[at] {
            ImageReply::Bytes(data) => Ok(copy_bytes(data)),
            ImageReply::Failed(error) => Err(error.clone()),
            _ => return Part::Stop(Stop::Stray),
        };
        match verify_digest(path, digest, &read) {
            Ok(()) => Part::Passed(at + 1),
            Err(error) => Part::Stop(Stop::Fail(error)),
        }
    }

    fn fetch_blob(
        &self,
        image: &ImageReference,
        token: &str,
        digest: &str,
        replies: &Vec<ImageReply>,
        at: usize,
    ) -> (r: Part<ImageCall>)
        requires
            at <= replies@.len(),
        ensures
            progress_of(r, replies@) == blob_progress(
                self.root@,
                image@,
                token@,
                digest@,
                heard(replies@).skip(at as int),
            ),
            r is Passed ==> r->Passed_0 <= replies@.len(),
    {
        let ghost answers = heard(replies@).skip(at as int);
        let path = self.get_layer_path(digest);
        if at == replies.len() {
            return Part::Ask(self.layer_exists(digest));
        }
        assert(answers[0] == replies@[at as int]@);
        assert(answers.skip(1) =~= heard(replies@).skip(at + 1));
        match &replies[at] {
            ImageReply::Exists(true) => return Part::Passed(at + 1),
            ImageReply::Exists(false) => {},
            _ => return Part::Stop(Stop::Stray),
        }
        let client = RegistryClient::ready();
        match client.download_layer(image, digest, token, path.as_str(), replies, at + 1) {
            Part::Passed(next) => ImageStore::verify(path.as_str(), digest, replies, next),
            other => other,
        }
    }

    fn fetch_layers(
        &self,
        image: &ImageReference,
        token: &str,
        layers: &Vec<Descriptor>,
        replies: &Vec<ImageReply>,
        from: usize,
    ) -> (r: Part<ImageCall>)
        requires
            from <= replies@.len(),
        ensures
            progress_of(r, replies@) == layers_progress(
                self.root@,
                image@,
                token@,
                blobs(layers@),
                heard(replies@).skip(from as int),
            ),
            r is Passed ==> r->Passed_0 <= replies@.len(),
    {
        let ghost list = blobs(layers@);
        let mut at: usize = from;
        let mut i: usize = 0;
        assert(list.skip(0) =~= list);
        while i < layers.len()
            invariant
                i <= layers@.len(),
                at <= replies@.len(),
                list == blobs(layers@),
                layers_progress(
                    self.root@,
                    image@,
                    token@,
                    list,
                    heard(replies@).skip(from as int),
                ) == layers_progress(
                    self.root@,
                    image@,
                    token@,
                    list.skip(i as int),
                    heard(replies@).skip(at as int),
                ),
            decreases layers@.len() - i,
        {
            assert(list.skip(i as int)[0] == layers@[i as int]@);
            assert(list.skip(i as int).skip(1) =~= list.skip(i + 1));
            match self.fetch_blob(image, token, layers[i].digest.as_str(), replies, at) {
                Part::Passed(next) => {
                    at = next;
                },
                other => {
                    return other;
                },
            }
            i = i + 1;
        }
        assert(list.skip(i as int).len() == 0);
        Part::Passed(at)
    }

    fn write_manifest(
        path: &str,
        manifest: &ImageManifest,
        replies: &Vec<ImageReply>,
        at: usize,
    ) -> (r: Part<ImageCall>)
        requires
            at <= replies@.len(),
        ensures
            progress_of(r, replies@) == write_manifest_progress(
                path@,
                manifest@,
                heard(replies@).skip(at as int),
            ),
            r is Passed ==> r->Passed_0 <= replies@.len(),
    {
        let ghost answers = heard(replies@).skip(at as int);
        if at == replies.len() {
            return Part::Ask(ImageCall::EncodeManifest(manifest.clone()));
        }
        assert(answers[0] == replies@[at as int]@);
        assert(answers.skip(1) =~= heard(replies@).skip(at + 1));
        match &replies[at] {
            ImageReply::Text(contents) => step_part(
                ImageCall::WriteFile { path: path.to_owned(), contents: contents.clone() },
                "write manifest: ",
                replies,
                at + 1,
            ),
            ImageReply::Failed(error) => Part::Stop(
                Stop::Fail(
                    ContainerError::Image(labelled("serialize manifest: ", error.as_str())),
                ),
            ),
            _ => Part::Stop(Stop::Stray),
        }
    }

    /// How far the saving of a manifest has come, with its answers starting at `at`.
    pub fn save_manifest(
        &self,
        image: &ImageReference,
        manifest: &ImageManifest,
        replies: &Vec<ImageReply>,
        at: usize,
    ) -> (r: Part<ImageCall>)
        requires
            at <= replies@.len(),
        ensures
            progress_of(r, replies@) == save_progress(
                self.root@,
                image@,
                manifest@,
                heard(replies@).skip(at as int),
            ),
            r is Passed ==> r->Passed_0 <= replies@.len(),
    {
        let path = self.manifest_path(image);
        match parent_of(path.as_str()) {
            None => ImageStore::write_manifest(path.as_str(), manifest, replies, at),
            Some(dir) => match step_part(ImageCall::CreateDirAll(dir), "mkdir: ", replies, at) {
                Part::Passed(next) => ImageStore::write_manifest(
                    path.as_str(),
                    manifest,
                    replies,
                    next,
                ),
                other => other,
            },
        }
    }

    fn fetch_contents(
        &self,
        image: &ImageReference,
        token: &str,
        manifest: &ImageManifest,
        replies: &Vec<ImageReply>,
        at: usize,
    ) -> (r: Part<ImageCall>)
        requires
            at <= replies@.len(),
        ensures
            progress_of(r, replies@) == contents_progress(
                self.root@,
                image@,
                token@,
                manifest@,
                heard(replies@).skip(at as int),
            ),
            r is Passed ==> r->Passed_0 <= replies@.len(),
    {
        let config = manifest.config.digest.as_str();
        let next: usize = match self.fetch_blob(image, token, config, replies, at) {
            Part::Passed(next) => next,
            other => return other,
        };
        let next: usize = match self.fetch_layers(image, token, &manifest.layers, replies, next) {
            Part::Passed(next) => next,
            other => return other,
        };
        self.save_manifest(image, manifest, replies, next)
    }

    /// The dialogue that pulls an image from its registry into the store and gives its
    /// manifest. `replies` holds the answers so far.
    ///
    /// 1. authenticate
    /// 2. fetch the manifest
    /// 3. download and verify the config blob and each layer, unless it is there
    /// 4. save the manifest
    pub fn pull_image(&self, image: &ImageReference, replies: &Vec<ImageReply>) -> (r: Next<
        ImageCall,
        ImageManifest,
    >)
        ensures
            r@ == pull_turn(self.root@, image@, heard(replies@)),
    {
        let ghost answers = heard(replies@);
        assert(answers.skip(0) =~= answers);
        let client = RegistryClient::ready();
        let registry = image.registry.as_str();
        let at: usize = match client.authenticate(
            registry,
            image.repository.as_str(),
            replies,
            0,
        ) {
            Part::Ask(call) => return Next::Ask(call),
            Part::Stop(stop) => return end_with(stop),
            Part::Passed(at) => at,
        };
        let ghost rest = answers.skip(at as int);
        let token = if at == 0 {
            ""
        } else {
            assert(answers[1] == replies@[1]@);
            match &replies[1] {
                ImageReply::Text(token) => token.as_str(),
                _ => return Next::Stray,
            }
        };
        assert(token@ == token_of(image@.registry, answers));
        let next: usize = match client.fetch_manifest(image, token, replies, at) {
            Part::Ask(call) => return Next::Ask(call),
            Part::Stop(stop) => return end_with(stop),
            Part::Passed(next) => next,
        };
        assert(rest[1] == replies@[at + 1]@);
        let manifest = match &replies[at + 1] {
            ImageReply::Manifest(manifest) => manifest,
            _ => return Next::Stray,
        };
        match self.fetch_contents(image, token, manifest, replies, next) {
            Part::Ask(call) => Next::Ask(call),
            Part::Stop(stop) => end_with(stop),
            Part::Passed(_) => Next::Done(manifest.clone()),
        }
    }

    /// How far the loading of a manifest has come. The answer to its second question is
    /// the manifest.
    pub fn load_manifest(&self, image: &ImageReference, replies: &Vec<ImageReply>) -> (r: Part<
        ImageCall,
    >)
        ensures
            progress_of(r, replies@) == load_progress(self.root@, image@, heard(replies@)),
            r is Passed ==> {
                &&& r->Passed_0 == 2
                &&& replies@.len() >= 2
                &&& replies@[1] is Manifest
            },
    {
        let ghost answers = heard(replies@);
        let path = self.manifest_path(image);
        let len = replies.len();
        if len == 0 {
            return Part::Ask(ImageCall::ReadText(path));
        }
        assert(answers[0] == replies@[0]@);
        let text = match &replies[0] {
            ImageReply::Failed(error) => {
                let mut message = labelled("manifest not found for ", image.to_string().as_str());
                message.append(" (");
                message.append(path_shown(path.as_str()).as_str());
                message.append("): ");
                message.append(error.as_str());
                return Part::Stop(Stop::Fail(ContainerError::Image(message)));
            },
            ImageReply::Text(text) => text,
            _ => return Part::Stop(Stop::Stray),
        };
        if len == 1 {
            return Part::Ask(ImageCall::DecodeManifest(text.clone()));
        }
        assert(answers[1] == replies@[1]@);
        match &replies[1] {
            ImageReply::Manifest(_) => Part::Passed(2),
            ImageReply::Failed(error) => Part::Stop(
                Stop::Fail(ContainerError::Image(labelled("parse manifest: ", error.as_str()))),
            ),
            _ => Part::Stop(Stop::Stray),
        }
    }

    /// The dialogue that gives the files of all layers of an image that was pulled, the
    /// bottom layer first. `replies` holds the answers so far.
    pub fn get_image_layers(&self, image: &ImageReference, replies: &Vec<ImageReply>) -> (r: Next<
        ImageCall,
        PathList,
    >)
        ensures
            r@ == layers_turn(self.root@, image@, heard(replies@)),
    {
        let ghost answers = heard(replies@);
        match self.load_manifest(image, replies) {
            Part::Ask(call) => return Next::Ask(call),
            Part::Stop(stop) => return end_with(stop),
            Part::Passed(_) => {},
        }
        let manifest = match &replies[1] {
            ImageReply::Manifest(manifest) => manifest,
            _ => return Next::Stray,
        };
        let paths = self.paths_of(&manifest.layers);
        match present(&paths, replies, 2) {
            Part::Ask(call) => Next::Ask(call),
            Part::Stop(stop) => end_with(stop),
            Part::Passed(_) => Next::Done(PathList { list: paths }),
        }
    }

    fn paths_of(&self, layers: &Vec<Descriptor>) -> (r: Vec<String>)
        ensures
            views(r@) == layer_paths(self.root@, blobs(layers@)),
    {
        let ghost wanted = layer_paths(self.root@, blobs(layers@));
        let mut r: Vec<String> = Vec::new();
        let mut i: usize = 0;
        while i < layers.len()
            invariant
                i <= layers@.len(),
                wanted == layer_paths(self.root@, blobs(layers@)),
                views(r@) == wanted.take(i as int),
            decreases layers@.len() - i,
        {
            let ghost before = views(r@);
            r.push(self.get_layer_path(layers[i].digest.as_str()));
            assert(views(r@) =~= before.push(wanted[i as int]));
            assert(wanted.take(i + 1) =~= wanted.take(i as int).push(wanted[i as int]));
            i = i + 1;
        }
        assert(wanted.take(i as int) =~= wanted);
        r
    }
}

fn present(paths: &Vec<String>, replies: &Vec<ImageReply>, from: usize) -> (r: Part<ImageCall>)
    requires
        from <= replies@.len(),
    ensures
        progress_of(r, replies@) == present_progress(
            views(paths@),
            heard(replies@).skip(from as int),
        ),
        r is Passed ==> r->Passed_0 <= replies@.len(),
{
    let ghost list = views(paths@);
    let len = replies.len();
    let mut at: usize = from;
    let mut i: usize = 0;
    assert(list.skip(0) =~= list);
    while i < paths.len()
        invariant
            i <= paths@.len(),
            len == replies@.len(),
            at <= len,
            list == views(paths@),
            present_progress(list, heard(replies@).skip(from as int)) == present_progress(
                list.skip(i as int),
                heard(replies@).skip(at as int),
            ),
        decreases paths@.len() - i,
    {
        let ghost answers = heard(replies@).skip(at as int);
        assert(list.skip(i as int)[0] == paths@[i as int]@);
        assert(list.skip(i as int).skip(1) =~= list.skip(i + 1));
        if at == len {
            return Part::Ask(ImageCall::Exists(paths[i].clone()));
        }
        assert(answers[0] == replies@[at as int]@);
        assert(answers.skip(1) =~= heard(replies@).skip(at + 1));
        match &replies[at] {
            ImageReply::Exists(true) => {
                at = at + 1;
            },
            ImageReply::Exists(false) => {
                return Part::Stop(
                    Stop::Fail(
                        ContainerError::Image(
                            labelled("missing layer blob: ", path_shown(paths[i].as_str()).as_str()),
                        ),
                    ),
                );
            },
            _ => return Part::Stop(Stop::Stray),
        }
        i = i + 1;
    }
    assert(list.skip(i as int).len() == 0);
    Part::Passed(at)
}

fn copy_bytes(data: &Vec<u8>) -> (r: Vec<u8>)
    ensures
        r@ == data@,
{
    let mut r: Vec<u8> = Vec::new();
    let mut i: usize = 0;
    while i < data.len()
        invariant
            i <= data@.len(),
            r@ == data@.take(i as int),
        decreases data@.len() - i,
    {
        r.push(data[i]);
        i = i + 1;
        assert(data@.take(i as int) =~= data@.take(i - 1).push(data@[i - 1]));
    }
    assert(data@.take(i as int) =~= data@);
    r
}

/// Whether an answer to a question without a result ends the dialogue, with a report
/// that starts with a text.
pub open spec fn must_work(answer: ImageAnswer, text: Seq<char>) -> Option<Halt> {
    match answer {
        ImageAnswer::Done => None,
        ImageAnswer::Failed(error) => Some(Halt::Fail(Failure::Image(text + error))),
        _ => Some(Halt::Stray),
    }
}

/// The stages of the extraction of a layer, given the answers so far.
pub open spec fn extract_stages(
    layer: Seq<char>,
    dest: Seq<char>,
    answers: Seq<ImageAnswer>,
) -> Seq<Stage<ImageAsk>> {
    seq![
        Stage { ask: ImageAsk::OpenLayer(layer), halt: must_work(answers[0], "open layer: "@) },
        Stage { ask: ImageAsk::CreateDirAll(dest), halt: must_work(answers[1], "mkdir: "@) },
        Stage { ask: ImageAsk::Unpack(dest), halt: must_work(answers[2], "unpack layer: "@) },
    ]
}

fn check(reply: &ImageReply, text: &str) -> (r: Option<Stop>)
    ensures
        crate::dialogue::halt_of(r) == must_work(reply@, text@),
{
    match reply {
        ImageReply::Done => None,
        ImageReply::Failed(error) => Some(
            Stop::Fail(ContainerError::Image(labelled(text, error.as_str()))),
        ),
        _ => Some(Stop::Stray),
    }
}

/// The dialogue that extracts a layer, which is a gzipped tar archive, into the
/// directory `dest`. `replies` holds the answers so far.
pub fn extract_layer(layer: &str, dest: &str, replies: &Vec<ImageReply>) -> (r: Next<
    ImageCall,
    (),
>)
    ensures
        r@ == walk(
            extract_stages(layer@, dest@, heard(replies@)),
            heard(replies@).len(),
            (),
        ),
{
    let ghost stages = extract_stages(layer@, dest@, heard(replies@));
    proof {
        reveal_with_fuel(walk_from, 4);
    }
    let len = replies.len();
    if len == 0 {
        return Next::Ask(ImageCall::OpenLayer(layer.to_owned()));
    }
    if let Some(stop) = check(&replies[0], "open layer: ") {
        return end_with(stop);
    }
    if len == 1 {
        return Next::Ask(ImageCall::CreateDirAll(dest.to_owned()));
    }
    if let Some(stop) = check(&replies[1], "mkdir: ") {
        return end_with(stop);
    }
    if len == 2 {
        return Next::Ask(ImageCall::Unpack(dest.to_owned()));
    }
    if let Some(stop) = check(&replies[2], "unpack layer: ") {
        return end_with(stop);
    }
    Next::Done(())
}

/// Whether a blob was there, or was read back from its file and had its digest.
pub open spec fn sound_blob(digest: Seq<char>, answers: Seq<ImageAnswer>) -> bool {
    ||| answers[0] == ImageAnswer::Exists(true)
    ||| exists|data: Seq<u8>|
        answers.contains(ImageAnswer::Bytes(data)) && digest == "sha256:"@ + #[trigger] data_digest(
            data,
        )
}

/// Whether `rest` is what is left of the answers.
spec fn is_rest(rest: Seq<ImageAnswer>, answers: Seq<ImageAnswer>) -> bool {
    rest.len() <= answers.len() && rest == answers.skip(answers.len() - rest.len())
}

proof fn rest_of_a_rest(a: Seq<ImageAnswer>, b: Seq<ImageAnswer>, c: Seq<ImageAnswer>)
    requires
        is_rest(b, a),
        is_rest(c, b),
    ensures
        is_rest(c, a),
{
    assert(c =~= a.skip(a.len() - c.len()));
}

proof fn transfer_leaves_a_rest(answers: Seq<ImageAnswer>)
    ensures
        transfer_progress(answers) matches ImageProgress::Passed(rest) ==> is_rest(rest, answers),
    decreases answers.len(),
{
    if answers.len() > 0 {
        assert(is_rest(answers.skip(1), answers));
    }
    if answers.len() > 1 {
        transfer_leaves_a_rest(answers.skip(2));
        assert(is_rest(answers.skip(2), answers));
        if let ImageProgress::Passed(rest) = transfer_progress(answers.skip(2)) {
            rest_of_a_rest(answers, answers.skip(2), rest);
        }
    }
}

proof fn step_leaves_a_rest(ask: ImageAsk, text: Seq<char>, answers: Seq<ImageAnswer>)
    ensures
        step_progress(ask, text, answers) matches ImageProgress::Passed(rest) ==> is_rest(
            rest,
            answers,
        ),
{
    if answers.len() > 0 {
        assert(answers.skip(1) =~= answers.skip(answers.len() - answers.skip(1).len()));
    }
}

proof fn write_leaves_a_rest(dest: Seq<char>, answers: Seq<ImageAnswer>)
    ensures
        write_progress(dest, answers) matches ImageProgress::Passed(rest) ==> is_rest(
            rest,
            answers,
        ),
{
    let partial = with_extension(dest, "part"@);
    let create = ImageAsk::CreateFile(partial);
    step_leaves_a_rest(create, "create tmp file: "@, answers);
    if let ImageProgress::Passed(a) = step_progress(create, "create tmp file: "@, answers) {
        transfer_leaves_a_rest(a);
        if let ImageProgress::Passed(b) = transfer_progress(a) {
            rest_of_a_rest(answers, a, b);
            step_leaves_a_rest(ImageAsk::Flush, "flush error: "@, b);
            if let ImageProgress::Passed(c) = step_progress(
                ImageAsk::Flush,
                "flush error: "@,
                b,
            ) {
                rest_of_a_rest(answers, b, c);
                let rename = ImageAsk::Rename { from: partial, to: dest };
                step_leaves_a_rest(rename, "rename failed: "@, c);
                if let ImageProgress::Passed(d) = step_progress(rename, "rename failed: "@, c) {
                    rest_of_a_rest(answers, c, d);
                }
            }
        }
    }
}

proof fn download_leaves_a_rest(
    image: Reference,
    digest: Seq<char>,
    token: Seq<char>,
    dest: Seq<char>,
    answers: Seq<ImageAnswer>,
)
    ensures
        download_progress(image, digest, token, dest, answers) matches ImageProgress::Passed(rest)
            ==> is_rest(rest, answers),
{
    if answers.len() > 0 {
        let inner = answers.skip(1);
        assert(is_rest(inner, answers));
        write_leaves_a_rest(dest, inner);
        if let ImageProgress::Passed(rest) = write_progress(dest, inner) {
            rest_of_a_rest(answers, inner, rest);
        }
        if let Some(dir) = parent(dest) {
            let create = ImageAsk::CreateDirAll(dir);
            step_leaves_a_rest(create, "mkdir failed: "@, inner);
            if let ImageProgress::Passed(a) = step_progress(create, "mkdir failed: "@, inner) {
                rest_of_a_rest(answers, inner, a);
                write_leaves_a_rest(dest, a);
                if let ImageProgress::Passed(b) = write_progress(dest, a) {
                    rest_of_a_rest(answers, a, b);
                }
            }
        }
    }
}

/// A blob that is fetched is there already, or its data was read back after the
/// download and has its digest.
pub proof fn fetched_blob_is_sound(
    root: Seq<char>,
    image: Reference,
    token: Seq<char>,
    digest: Seq<char>,
    answers: Seq<ImageAnswer>,
)
    requires
        blob_progress(root, image, token, digest, answers) is Passed,
    ensures
        sound_blob(digest, answers),
{
    let path = blob_path(root, digest);
    if answers[0] == ImageAnswer::Exists(false) {
        let inner = answers.skip(1);
        download_leaves_a_rest(image, digest, token, path, inner);
        let rest = download_progress(image, digest, token, path, inner)->Passed_0;
        assert(is_rest(inner, answers));
        rest_of_a_rest(answers, inner, rest);
        let read = read_result(rest[0])->Some_0;
        crate::image::digest::only_matching_data_is_accepted(path, digest, read);
        let data = read->Ok_0;
        assert(rest[0] == ImageAnswer::Bytes(data));
        assert(answers[answers.len() - rest.len()] == rest[0]);
        assert(answers.contains(ImageAnswer::Bytes(data)));
    }
}

/// Whether every layer was there, or was read back from its file and had its digest.
pub open spec fn sound_layers(
    root: Seq<char>,
    image: Reference,
    token: Seq<char>,
    layers: Seq<Blob>,
    answers: Seq<ImageAnswer>,
) -> bool
    decreases layers.len(),
{
    layers.len() == 0 || {
        &&& sound_blob(layers[0].digest, answers)
        &&& blob_progress(root, image, token, layers[0].digest, answers) is Passed
        &&& sound_layers(
            root,
            image,
            token,
            layers.skip(1),
            blob_progress(root, image, token, layers[0].digest, answers)->Passed_0,
        )
    }
}

proof fn fetched_layers_are_sound(
    root: Seq<char>,
    image: Reference,
    token: Seq<char>,
    layers: Seq<Blob>,
    answers: Seq<ImageAnswer>,
)
    requires
        layers_progress(root, image, token, layers, answers) is Passed,
    ensures
        sound_layers(root, image, token, layers, answers),
    decreases layers.len(),
{
    if layers.len() > 0 {
        let digest = layers[0].digest;
        fetched_blob_is_sound(root, image, token, digest, answers);
        let rest = blob_progress(root, image, token, digest, answers)->Passed_0;
        fetched_layers_are_sound(root, image, token, layers.skip(1), rest);
    }
}

proof fn fetching_writes_no_manifest(
    root: Seq<char>,
    image: Reference,
    token: Seq<char>,
    layers: Seq<Blob>,
    answers: Seq<ImageAnswer>,
)
    ensures
        layers_progress(root, image, token, layers, answers) matches ImageProgress::Ask(ask) ==> !(
        ask is EncodeManifest) && !(ask is WriteFile),
    decreases layers.len(),
{
    if layers.len() > 0 {
        let digest = layers[0].digest;
        blob_writes_no_manifest(root, image, token, digest, answers);
        if let ImageProgress::Passed(rest) = blob_progress(root, image, token, digest, answers) {
            fetching_writes_no_manifest(root, image, token, layers.skip(1), rest);
        }
    }
}

proof fn transfer_writes_no_manifest(answers: Seq<ImageAnswer>)
    ensures
        transfer_progress(answers) matches ImageProgress::Ask(ask) ==> ask is ReadChunk
            || ask is WriteChunk,
    decreases answers.len(),
{
    if answers.len() > 1 {
        transfer_writes_no_manifest(answers.skip(2));
    }
}

proof fn blob_writes_no_manifest(
    root: Seq<char>,
    image: Reference,
    token: Seq<char>,
    digest: Seq<char>,
    answers: Seq<ImageAnswer>,
)
    ensures
        blob_progress(root, image, token, digest, answers) matches ImageProgress::Ask(ask) ==> !(
        ask is EncodeManifest) && !(ask is WriteFile),
{
    let path = blob_path(root, digest);
    if answers.len() > 1 {
        let inner = answers.skip(1).skip(1);
        let create = ImageAsk::CreateFile(with_extension(path, "part"@));
        let ready = match parent(path) {
            Some(dir) => match step_progress(
                ImageAsk::CreateDirAll(dir),
                "mkdir failed: "@,
                inner,
            ) {
                ImageProgress::Passed(rest) => rest,
                _ => inner,
            },
            None => inner,
        };
        if let ImageProgress::Passed(rest) = step_progress(create, "create tmp file: "@, ready) {
            transfer_writes_no_manifest(rest);
        }
    }
}

/// A pull asks to write the manifest, or is complete, only when every blob of the
/// image is sound: it was in the store already, or its data was read back after the
/// download and has its digest.
pub proof fn manifest_is_saved_only_for_sound_blobs(
    root: Seq<char>,
    image: Reference,
    token: Seq<char>,
    manifest: Manifest,
    answers: Seq<ImageAnswer>,
)
    requires
        match contents_progress(root, image, token, manifest, answers) {
            ImageProgress::Ask(ask) => ask is EncodeManifest || ask is WriteFile,
            ImageProgress::Halt(_) => false,
            ImageProgress::Passed(_) => true,
        },
    ensures
        sound_blob(manifest.config.digest, answers),
        blob_progress(root, image, token, manifest.config.digest, answers) is Passed,
        sound_layers(
            root,
            image,
            token,
            manifest.layers,
            blob_progress(root, image, token, manifest.config.digest, answers)->Passed_0,
        ),
{
    let config = manifest.config.digest;
    blob_writes_no_manifest(root, image, token, config, answers);
    fetched_blob_is_sound(root, image, token, config, answers);
    let rest = blob_progress(root, image, token, config, answers)->Passed_0;
    fetching_writes_no_manifest(root, image, token, manifest.layers, rest);
    fetched_layers_are_sound(root, image, token, manifest.layers, rest);
}

/// A manifest is loaded from the file that it was saved to.
pub proof fn manifest_is_loaded_from_where_it_was_saved(
    root: Seq<char>,
    image: Reference,
    manifest: Manifest,
    answers: Seq<ImageAnswer>,
    path: Seq<char>,
    contents: Seq<char>,
)
    requires
        save_progress(root, image, manifest, answers) == ImageProgress::Ask(
            ImageAsk::WriteFile { path, contents },
        ),
    ensures
        load_progress(root, image, Seq::empty()) == ImageProgress::Ask(ImageAsk::ReadText(path)),
        answers.last() == ImageAnswer::Text(contents),
{
}

} // verus!
