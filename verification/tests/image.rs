use crate_runtime::dialogue::{Next, Part, Stop};
use crate_runtime::image::digest::{compare_digest, verify_digest};
use crate_runtime::image::registry::{Descriptor, ImageCall, ImageManifest, ImageReply};
use crate_runtime::image::store::{extract_layer, ImageStore};
use crate_runtime::image::{ImageReference, RegistryClient};
use crate_runtime::os_path::{path_bytes_of, path_text_of};
use std::collections::BTreeMap;
use std::io::Read;
use std::path::Path;

#[test]
fn parse_bare_name() {
    let r = ImageReference::parse("alpine").unwrap();
    assert_eq!(r.registry, "registry-1.docker.io");
    assert_eq!(r.repository, "library/alpine");
    assert_eq!(r.reference, "latest");
}

#[test]
fn parse_name_with_tag() {
    let r = ImageReference::parse("ubuntu:22.04").unwrap();
    assert_eq!(r.registry, "registry-1.docker.io");
    assert_eq!(r.repository, "library/ubuntu");
    assert_eq!(r.reference, "22.04");
}

#[test]
fn parse_namespaced_docker_hub() {
    let r = ImageReference::parse("library/alpine:latest").unwrap();
    assert_eq!(r.registry, "registry-1.docker.io");
    assert_eq!(r.repository, "library/alpine");
    assert_eq!(r.reference, "latest");
}

#[test]
fn parse_custom_registry() {
    let r = ImageReference::parse("ghcr.io/owner/repo:v1.0").unwrap();
    assert_eq!(r.registry, "ghcr.io");
    assert_eq!(r.repository, "owner/repo");
    assert_eq!(r.reference, "v1.0");
}

#[test]
fn parse_registry_with_port() {
    let r = ImageReference::parse("localhost:5000/myimage:dev").unwrap();
    assert_eq!(r.registry, "localhost:5000");
    assert_eq!(r.repository, "myimage");
    assert_eq!(r.reference, "dev");
}

#[test]
fn parse_digest_reference() {
    let digest = "sha256:abcdef1234567890abcdef1234567890abcdef1234567890abcdef1234567890";
    let input = format!("alpine@{}", digest);
    let r = ImageReference::parse(&input).unwrap();
    assert_eq!(r.registry, "registry-1.docker.io");
    assert_eq!(r.repository, "library/alpine");
    assert_eq!(r.reference, digest);
    assert!(r.is_digest());
}

#[test]
fn parse_empty_errors() {
    assert!(ImageReference::parse("").is_err());
    assert!(ImageReference::parse("   ").is_err());
}

#[test]
fn display_docker_hub() {
    let r = ImageReference::parse("alpine:3.19").unwrap();
    assert_eq!(r.to_string(), "library/alpine:3.19");
}

#[test]
fn display_custom_registry() {
    let r = ImageReference::parse("ghcr.io/owner/repo:v1").unwrap();
    assert_eq!(r.to_string(), "ghcr.io/owner/repo:v1");
}

#[test]
fn shown_references_parse_to_themselves() {
    for input in ["alpine", "a/b:1", "ghcr.io/owner/repo:v1", "localhost:5000/myimage:dev"] {
        let r = ImageReference::parse(input).unwrap();
        let again = ImageReference::parse(&r.to_string()).unwrap();
        assert_eq!(again.registry, r.registry);
        assert_eq!(again.repository, r.repository);
        assert_eq!(again.reference, r.reference);
    }
}

#[test]
fn empty_reference_is_named_in_the_error() {
    let error = ImageReference::parse(" ").unwrap_err().to_string();
    assert_eq!(error, "Image error: empty image reference");
}

const HELLO: &str = "sha256:b94d27b9934d3e08a52e52d7da7dabfac484efe37a5380ee9088f7ace2efcde9";

#[test]
fn verify_digest_valid() {
    let read = Ok(b"hello world".to_vec());
    // sha256("hello world")
    verify_digest("/store/blob", HELLO, &read).unwrap();
}

#[test]
fn verify_digest_mismatch() {
    let read = Ok(b"hello world".to_vec());
    let bad = "sha256:0000000000000000000000000000000000000000000000000000000000000000";
    assert!(verify_digest("/store/blob", bad, &read).is_err());
}

#[test]
fn verify_digest_bad_prefix() {
    let read = Ok(b"data".to_vec());
    assert!(verify_digest("/store/blob", "md5:abc", &read).is_err());
}

#[test]
fn digest_errors_name_both_digests() {
    let message = |expected: &str, read: Result<Vec<u8>, String>| {
        verify_digest("/b", expected, &read).unwrap_err().to_string()
    };
    assert_eq!(
        message("md5:abc", Ok(Vec::new())),
        "Image error: unsupported digest format: md5:abc"
    );
    assert_eq!(
        message("sha256:00", Err("gone".to_string())),
        "Image error: read /b: gone"
    );
    let expected = format!(
        "Image error: digest mismatch for /b: expected 00 but got {}",
        &HELLO["sha256:".len()..]
    );
    assert_eq!(message("sha256:00", Ok(b"hello world".to_vec())), expected);
    assert!(compare_digest("/b", "sha256:ab", "ab").is_ok());
    assert!(compare_digest("/b", "sha256:ab", "cd").is_err());
}

#[test]
fn store_layer_path() {
    let store = ImageStore::new("/tmp/test-store".to_string());
    let p = store.get_layer_path("sha256:aabbcc");
    assert_eq!(p, "/tmp/test-store/blobs/sha256/aabbcc");
}

#[test]
fn store_need_not_be_at_a_unicode_path() {
    let store = ImageStore::new(ImageStore::default_root_for(Some(&path_text_of(&b"/\xff".to_vec()))));
    let path = store.get_layer_path("sha256:ab");
    assert_eq!(path_bytes_of(&path), b"/\xff/.crate/images/blobs/sha256/ab");
    let error = verify_digest(&path, "sha256:ab", &Err("gone".to_string())).unwrap_err();
    assert_eq!(
        error.to_string(),
        "Image error: read /\u{fffd}/.crate/images/blobs/sha256/ab: gone"
    );
}

#[test]
fn stored_files_stay_below_the_root() {
    let store = ImageStore::new("/store".to_string());
    assert_eq!(store.get_layer_path("sha256:/etc/passwd"), "/store/blobs/sha256//etc/passwd");
    let image = ImageReference {
        registry: "r".to_string(),
        repository: "/a".to_string(),
        reference: "/b".to_string(),
    };
    assert_eq!(store.manifest_path(&image), "/store/manifests//a//b");
}

fn on_disk(call: ImageCall) -> bool {
    match call {
        ImageCall::Exists(path) => Path::new(&path).exists(),
        other => panic!("unexpected call: {other:?}"),
    }
}

#[test]
fn store_layer_exists_false() {
    let store = ImageStore::new("/tmp/nonexistent-store-xyz".to_string());
    assert!(!on_disk(store.layer_exists("sha256:no_such_digest")));
}

#[test]
fn store_layer_exists_true() {
    let dir = tempfile::tempdir().unwrap();
    let store = ImageStore::new(dir.path().to_str().unwrap().to_string());
    let digest = "sha256:abc123";
    let named = |name| tempfile::Builder::new().prefix(name).rand_bytes(0).tempdir_in(dir.path());
    let blobs = named("blobs").unwrap();
    let algorithm =
        tempfile::Builder::new().prefix("sha256").rand_bytes(0).tempdir_in(blobs.path()).unwrap();
    let blob =
        tempfile::Builder::new().prefix("abc123").rand_bytes(0).tempfile_in(algorithm.path()).unwrap();
    assert_eq!(store.get_layer_path(digest), blob.path().to_str().unwrap());
    assert!(on_disk(store.layer_exists(digest)));
}

#[test]
fn default_store_is_under_the_home_directory() {
    assert_eq!(ImageStore::default_root_for(Some("/home/a")), "/home/a/.crate/images");
    assert_eq!(ImageStore::default_root_for(None), "/tmp/.crate/images");
    let home = dirs::home_dir().map(|dir| dir.to_str().unwrap().to_string());
    assert_eq!(ImageStore::default_root(), ImageStore::default_root_for(home.as_deref()));
}

fn descriptor(media_type: &str, digest: &str, size: u64) -> Descriptor {
    Descriptor { media_type: media_type.to_string(), digest: digest.to_string(), size }
}

/// A manifest as JSON, for the parts that the tests look at.
fn encode(manifest: &ImageManifest) -> String {
    let digests: Vec<&str> = manifest.layers.iter().map(|layer| layer.digest.as_str()).collect();
    serde_json::to_string(&(&manifest.config.digest, digests)).unwrap()
}

fn decode(text: &str) -> Result<ImageManifest, String> {
    let parsed: Result<(String, Vec<String>), serde_json::Error> = serde_json::from_str(text);
    let (config, layers) = parsed.map_err(|error| error.to_string())?;
    Ok(ImageManifest {
        schema_version: 2,
        media_type: None,
        config: descriptor("config", &config, 0),
        layers: layers.iter().map(|digest| descriptor("layer", digest, 0)).collect(),
    })
}

/// A disk and a registry in memory.
struct World {
    files: BTreeMap<String, Vec<u8>>,
    manifest: String,
    blobs: BTreeMap<String, Vec<u8>>,
    requests: Vec<String>,
    body: Vec<Vec<u8>>,
    chunk: Vec<u8>,
    open: String,
}

impl World {
    fn new() -> World {
        World {
            files: BTreeMap::new(),
            manifest: String::new(),
            blobs: BTreeMap::new(),
            requests: Vec::new(),
            body: Vec::new(),
            chunk: Vec::new(),
            open: String::new(),
        }
    }

    fn get(&mut self, url: &str, bearer: Option<String>) -> ImageReply {
        let token = bearer.unwrap_or_else(|| "-".to_string());
        self.requests.push(format!("{token} {url}"));
        if let Some((_, digest)) = url.split_once("/blobs/") {
            match self.blobs.get(digest) {
                Some(data) => self.body = data.chunks(4).map(|chunk| chunk.to_vec()).collect(),
                None => {
                    let status = "404 Not Found".to_string();
                    return ImageReply::Response { success: false, status };
                }
            }
        }
        ImageReply::Response { success: true, status: "200 OK".to_string() }
    }

    fn perform(&mut self, call: ImageCall) -> ImageReply {
        match call {
            ImageCall::Get { url, bearer, .. } => return self.get(&url, bearer),
            ImageCall::ReadToken => return ImageReply::Text("secret".to_string()),
            ImageCall::ReadManifest => return ImageReply::Manifest(decode(&self.manifest).unwrap()),
            ImageCall::ReadChunk => {
                if self.body.is_empty() {
                    return ImageReply::End;
                }
                self.chunk = self.body.remove(0);
                return ImageReply::Chunk;
            }
            ImageCall::CreateFile(path) => {
                self.files.insert(path.clone(), Vec::new());
                self.open = path;
            }
            ImageCall::WriteChunk => {
                self.files.get_mut(&self.open).unwrap().extend(self.chunk.clone());
            }
            ImageCall::Flush | ImageCall::CreateDirAll(_) => {}
            ImageCall::Rename { from, to } => {
                let data = self.files.remove(&from).unwrap();
                self.files.insert(to, data);
            }
            ImageCall::Exists(path) => return ImageReply::Exists(self.files.contains_key(&path)),
            ImageCall::ReadFile(path) => return ImageReply::Bytes(self.files[&path].clone()),
            ImageCall::ReadText(path) => {
                return match self.files.get(&path) {
                    Some(data) => ImageReply::Text(String::from_utf8(data.clone()).unwrap()),
                    None => ImageReply::Failed("No such file".to_string()),
                };
            }
            ImageCall::DecodeManifest(text) => {
                return match decode(&text) {
                    Ok(manifest) => ImageReply::Manifest(manifest),
                    Err(error) => ImageReply::Failed(error),
                };
            }
            ImageCall::EncodeManifest(manifest) => return ImageReply::Text(encode(&manifest)),
            ImageCall::WriteFile { path, contents } => {
                self.files.insert(path, contents.into_bytes());
            }
            ImageCall::OpenLayer(path) => {
                if !self.files.contains_key(&path) {
                    return ImageReply::Failed("No such file".to_string());
                }
                self.open = path;
            }
            ImageCall::Unpack(dest) => {
                let data = self.files[&self.open].clone();
                let mut archive = tar::Archive::new(flate2::read::GzDecoder::new(&data[..]));
                for entry in archive.entries().unwrap() {
                    let mut entry = entry.unwrap();
                    let path = format!("{dest}/{}", entry.path().unwrap().display());
                    let mut contents = Vec::new();
                    entry.read_to_end(&mut contents).unwrap();
                    self.files.insert(path, contents);
                }
            }
        }
        ImageReply::Done
    }

    fn part(&mut self, ask: &dyn Fn(&Vec<ImageReply>) -> Part<ImageCall>) -> (Vec<ImageReply>, Option<Stop>) {
        let mut replies = Vec::new();
        loop {
            match ask(&replies) {
                Part::Ask(call) => replies.push(self.perform(call)),
                Part::Passed(_) => return (replies, None),
                Part::Stop(stop) => return (replies, Some(stop)),
            }
        }
    }

    fn pull(&mut self, store: &ImageStore, image: &ImageReference) -> Result<ImageManifest, String> {
        let mut replies = Vec::new();
        loop {
            match store.pull_image(image, &replies) {
                Next::Ask(call) => replies.push(self.perform(call)),
                Next::Done(manifest) => return Ok(manifest),
                Next::Fail(error) => return Err(error.to_string()),
                other => panic!("unexpected turn: {other:?}"),
            }
        }
    }
}

#[test]
fn manifest_save_load_round_trip() {
    let dir = tempfile::tempdir().unwrap();
    let store = ImageStore::new(dir.path().to_str().unwrap().to_string());
    let reference = ImageReference::parse("alpine:3.19").unwrap();

    let manifest = ImageManifest {
        schema_version: 2,
        media_type: Some("application/vnd.docker.distribution.manifest.v2+json".into()),
        config: descriptor("application/vnd.docker.container.image.v1+json", "sha256:cfg", 100),
        layers: vec![descriptor(
            "application/vnd.docker.image.rootfs.diff.tar.gzip",
            "sha256:layer1",
            999,
        )],
    };

    let mut world = World::new();
    let (_, stop) = world.part(&|replies| store.save_manifest(&reference, &manifest, replies, 0));
    assert!(stop.is_none());
    assert!(world.files.contains_key(&store.manifest_path(&reference)));
    let (replies, stop) = world.part(&|replies| store.load_manifest(&reference, replies));
    assert!(stop.is_none());
    match &replies[1] {
        ImageReply::Manifest(loaded) => {
            assert_eq!(loaded.config.digest, "sha256:cfg");
            assert_eq!(loaded.layers.len(), 1);
        }
        other => panic!("unexpected answer: {other:?}"),
    }
}

#[test]
fn missing_manifest_is_reported() {
    let store = ImageStore::new("/s".to_string());
    let reference = ImageReference::parse("alpine:3.19").unwrap();
    let (_, stop) = World::new().part(&|replies| store.load_manifest(&reference, replies));
    match stop {
        Some(Stop::Fail(error)) => assert_eq!(
            error.to_string(),
            "Image error: manifest not found for library/alpine:3.19 (/s/manifests/library/alpine/3.19): No such file"
        ),
        other => panic!("expected a failure: {other:?}"),
    }
}

#[test]
fn extract_layer_round_trip() {
    // Build a small tar.gz with one file.
    let gz = flate2::write::GzEncoder::new(Vec::new(), flate2::Compression::fast());
    let mut builder = tar::Builder::new(gz);
    let content = b"hello from layer";
    let mut header = tar::Header::new_gnu();
    header.set_size(content.len() as u64);
    header.set_mode(0o644);
    header.set_cksum();
    builder.append_data(&mut header, "greeting.txt", &content[..]).unwrap();
    let layer = builder.into_inner().unwrap().finish().unwrap();

    let mut world = World::new();
    world.files.insert("/tmp/layer.tar.gz".to_string(), layer);
    let mut replies = Vec::new();
    while let Next::Ask(call) = extract_layer("/tmp/layer.tar.gz", "/tmp/rootfs", &replies) {
        replies.push(world.perform(call));
    }
    assert!(matches!(
        extract_layer("/tmp/layer.tar.gz", "/tmp/rootfs", &replies),
        Next::Done(())
    ));
    assert_eq!(world.files["/tmp/rootfs/greeting.txt"], b"hello from layer");
}

#[test]
fn extraction_errors_name_the_step() {
    let failed = || ImageReply::Failed("boom".to_string());
    let message = |replies: Vec<ImageReply>| match extract_layer("/l", "/d", &replies) {
        Next::Fail(error) => error.to_string(),
        other => panic!("expected a failure: {other:?}"),
    };
    assert_eq!(message(vec![failed()]), "Image error: open layer: boom");
    assert_eq!(message(vec![ImageReply::Done, failed()]), "Image error: mkdir: boom");
    assert_eq!(
        message(vec![ImageReply::Done, ImageReply::Done, failed()]),
        "Image error: unpack layer: boom"
    );
}

/// A registry with an image of one layer, both of whose blobs are `hello world`.
fn registry() -> World {
    let mut world = World::new();
    world.manifest = serde_json::to_string(&(HELLO, vec![HELLO])).unwrap();
    world.blobs.insert(HELLO.to_string(), b"hello world".to_vec());
    world
}

#[test]
fn pulled_image_has_its_layers_in_the_store() {
    let mut world = registry();
    let store = ImageStore::new("/s".to_string());
    let image = ImageReference::parse("alpine").unwrap();
    let manifest = world.pull(&store, &image).unwrap();
    assert_eq!(manifest.config.digest, HELLO);
    assert_eq!(
        world.requests,
        vec![
            "- https://auth.docker.io/token?service=registry.docker.io&scope=repository:library/alpine:pull".to_string(),
            "secret https://registry-1.docker.io/v2/library/alpine/manifests/latest".to_string(),
            format!("secret https://registry-1.docker.io/v2/library/alpine/blobs/{HELLO}"),
        ]
    );
    let path = store.get_layer_path(HELLO);
    assert_eq!(world.files[&path], b"hello world");
    assert!(!world.files.keys().any(|file| file.ends_with(".part")));

    let mut replies = Vec::new();
    let layers = loop {
        match store.get_image_layers(&image, &replies) {
            Next::Ask(call) => replies.push(world.perform(call)),
            Next::Done(layers) => break layers,
            other => panic!("unexpected turn: {other:?}"),
        }
    };
    assert_eq!(layers.list, vec![path]);
}

#[test]
fn other_registries_are_asked_without_a_token() {
    let mut world = registry();
    let store = ImageStore::new("/s".to_string());
    let image = ImageReference::parse("ghcr.io/owner/repo:v1").unwrap();
    world.pull(&store, &image).unwrap();
    assert_eq!(world.requests[0], "- https://ghcr.io/v2/owner/repo/manifests/v1");
}

#[test]
fn corrupt_blobs_end_a_pull() {
    let mut world = registry();
    world.blobs.insert(HELLO.to_string(), b"hello there".to_vec());
    let store = ImageStore::new("/s".to_string());
    let image = ImageReference::parse("alpine").unwrap();
    let error = world.pull(&store, &image).unwrap_err();
    assert!(error.contains("digest mismatch"), "{error}");
    assert!(!world.files.contains_key(&store.manifest_path(&image)));
}

#[test]
fn missing_blobs_end_a_pull() {
    let mut world = registry();
    world.blobs.clear();
    let store = ImageStore::new("/s".to_string());
    let image = ImageReference::parse("alpine").unwrap();
    let error = world.pull(&store, &image).unwrap_err();
    assert_eq!(error, format!("Image error: registry returned 404 Not Found for blob {HELLO}"));
}

#[test]
fn missing_layers_are_reported() {
    let mut world = registry();
    let store = ImageStore::new("/s".to_string());
    let image = ImageReference::parse("alpine").unwrap();
    world.pull(&store, &image).unwrap();
    world.files.remove(&store.get_layer_path(HELLO));
    let mut replies = Vec::new();
    let error = loop {
        match store.get_image_layers(&image, &replies) {
            Next::Ask(call) => replies.push(world.perform(call)),
            Next::Fail(error) => break error.to_string(),
            other => panic!("unexpected turn: {other:?}"),
        }
    };
    assert_eq!(
        error,
        format!("Image error: missing layer blob: /s/blobs/sha256/{}", &HELLO["sha256:".len()..])
    );
}

#[test]
fn requests_that_fail_are_reported() {
    let store = ImageStore::new("/s".to_string());
    let image = ImageReference::parse("alpine").unwrap();
    let failed = || ImageReply::Failed("boom".to_string());
    let ok = || ImageReply::Response { success: true, status: "200 OK".to_string() };
    let denied = || ImageReply::Response { success: false, status: "401 Unauthorized".to_string() };
    let message = |replies: Vec<ImageReply>| match store.pull_image(&image, &replies) {
        Next::Fail(error) => error.to_string(),
        other => panic!("expected a failure: {other:?}"),
    };
    let token = || ImageReply::Text("t".to_string());
    assert_eq!(message(vec![failed()]), "HTTP error: token request failed: boom");
    assert_eq!(message(vec![denied()]), "HTTP error: auth endpoint returned 401 Unauthorized");
    assert_eq!(message(vec![ok(), failed()]), "HTTP error: failed to parse token response: boom");
    assert_eq!(
        message(vec![ok(), token(), failed()]),
        "HTTP error: manifest request failed: boom"
    );
    assert_eq!(
        message(vec![ok(), token(), denied()]),
        "Image error: registry returned 401 Unauthorized for manifest of library/alpine:latest"
    );
    assert_eq!(
        message(vec![ok(), token(), ok(), failed()]),
        "Image error: failed to parse manifest: boom"
    );
    assert!(matches!(store.pull_image(&image, &vec![ImageReply::End]), Next::Stray));
}

#[test]
fn client_needs_an_http_client() {
    assert_eq!(RegistryClient::new(Ok(())).unwrap().user_agent, "crate-runtime/0.1");
    let error = RegistryClient::new(Err("no TLS".to_string())).unwrap_err();
    assert_eq!(error.to_string(), "HTTP error: no TLS");
}
