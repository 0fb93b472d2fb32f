use crate_runtime::os_path::{path_bytes_of, path_shown, path_text_of};
use crate_runtime::path::{
    components_of, enter, file_name_of, has_parent_component, is_absolute, is_within, join,
    parent_of, replace_extension,
};
use crate_runtime::text::{
    decimal_text, is_white_space, list_quoted, rsplit_once, signed_decimal_text, split, split_once,
    split_words, trim, zero_padded_text,
};
use crate_runtime::util::{
    container_id_of, detect_arch_lib_dir, dynamic_linker_path, generate_container_id, is_directory,
    is_linux, is_root, is_root_uid, lib_search_paths,
};
use std::path::{Component, Path};

#[test]
fn test_generate_container_id_length() {
    let id = generate_container_id();
    assert_eq!(id.len(), 12);
}

#[test]
fn test_generate_container_id_uniqueness() {
    let id1 = generate_container_id();
    let id2 = generate_container_id();
    assert_ne!(id1, id2);
}

#[test]
fn container_ids_are_hexadecimal() {
    for _ in 0..100 {
        let id = generate_container_id();
        assert!(id.chars().all(|c| c.is_ascii_digit() || ('a'..='f').contains(&c)), "{id}");
    }
    assert_eq!(container_id_of("01234567-89ab-4def-8123-456789abcdef"), "0123456789ab");
}

#[test]
fn test_is_linux() {
    assert!(is_linux("linux"));
    assert!(!is_linux("macos"));
}

#[test]
fn test_is_directory() {
    let ask = |path: &Path| is_directory(path.exists(), path.is_dir());
    assert!(ask(Path::new("/")));
    assert!(!ask(Path::new("/nonexistent_path_for_test")));
    assert!(!is_directory(true, false));
}

#[test]
fn test_detect_arch_lib_dir() {
    for arch in ["x86_64", "aarch64", "arm", "riscv64", "s390x"] {
        let dir = detect_arch_lib_dir(arch);
        assert!(!dir.is_empty());
        assert!(dir.contains("linux"));
    }
}

#[test]
fn test_lib_search_paths_nonempty() {
    let paths = lib_search_paths("x86_64");
    assert!(!paths.is_empty());
}

#[test]
fn platform_paths() {
    assert_eq!(detect_arch_lib_dir("x86_64"), "x86_64-linux-gnu");
    assert_eq!(detect_arch_lib_dir("aarch64"), "aarch64-linux-gnu");
    assert_eq!(detect_arch_lib_dir("arm"), "arm-linux-gnueabihf");
    assert_eq!(detect_arch_lib_dir("riscv64"), "riscv64-linux-gnu");
    assert_eq!(detect_arch_lib_dir("mips"), "unknown-linux-gnu");
    assert_eq!(dynamic_linker_path("x86_64"), "/lib64/ld-linux-x86-64.so.2");
    assert_eq!(dynamic_linker_path("aarch64"), "/lib/ld-linux-aarch64.so.1");
    assert_eq!(dynamic_linker_path("arm"), "/lib/ld-linux-armhf.so.3");
    assert_eq!(dynamic_linker_path("riscv64"), "/lib/ld-linux.so.2");
    assert_eq!(
        lib_search_paths("arm"),
        vec!["/lib/arm-linux-gnueabihf", "/lib64", "/usr/lib/arm-linux-gnueabihf"]
    );
}

#[test]
fn root_is_user_zero_on_linux() {
    assert!(is_root_uid("linux", 0));
    assert!(!is_root_uid("linux", 1));
    assert!(!is_root_uid("macos", 0));
    assert_eq!(is_root("linux"), nix::unistd::geteuid().is_root());
    assert!(!is_root("macos"));
}

/// All texts of up to `len` characters of an alphabet.
fn texts(alphabet: &[char], len: usize) -> Vec<String> {
    let mut all = vec![String::new()];
    let mut last = all.clone();
    for _ in 0..len {
        let mut longer = Vec::new();
        for text in &last {
            for c in alphabet {
                longer.push(format!("{text}{c}"));
            }
        }
        all.extend(longer.iter().cloned());
        last = longer;
    }
    all
}

fn text(path: Option<&Path>) -> Option<String> {
    path.map(|path| path.to_str().unwrap().to_string())
}

#[test]
fn paths_are_read_as_the_standard_library_reads_them() {
    for path in texts(&['/', '.', 'a'], 6) {
        let std_path = Path::new(&path);
        assert_eq!(is_absolute(&path), std_path.is_absolute(), "{path}");
        let components: Vec<String> = std_path
            .components()
            .map(|component| component.as_os_str().to_str().unwrap().to_string())
            .collect();
        assert_eq!(components_of(&path), components, "{path}");
        let climbs = std_path.components().any(|component| component == Component::ParentDir);
        assert_eq!(has_parent_component(&path), climbs, "{path}");
        assert_eq!(parent_of(&path), text(std_path.parent()), "{path}");
        let name = std_path.file_name().map(|name| name.to_str().unwrap().to_string());
        assert_eq!(file_name_of(&path), name, "{path}");
        let replaced = std_path.with_extension("part");
        assert_eq!(replace_extension(&path, "part"), replaced.to_str().unwrap(), "{path}");
    }
}

#[test]
fn entries_are_named_below_their_directory() {
    assert_eq!(enter("/base", "c"), "/base/c");
    assert_eq!(enter("/base/", "c"), "/base/c");
    assert_eq!(enter("", "c"), "c");
    assert_eq!(enter("/base", "/c"), "/base//c");
    let all = texts(&['/', '.', 'a'], 4);
    for dir in &all {
        for name in all.iter().filter(|name| !name.starts_with('/')) {
            assert_eq!(enter(dir, name), join(dir, name));
        }
    }
}

#[test]
fn paths_are_joined_as_the_standard_library_joins_them() {
    let all = texts(&['/', '.', 'a'], 4);
    for base in &all {
        for path in &all {
            let joined = Path::new(base).join(path);
            assert_eq!(join(base, path), joined.to_str().unwrap(), "{base} {path}");
            let inside = Path::new(path).starts_with(base);
            assert_eq!(is_within(path, base), inside, "{path} {base}");
        }
    }
}

#[test]
fn white_space_is_that_of_unicode() {
    for c in '\0'..=char::MAX {
        assert_eq!(is_white_space(c), c.is_whitespace(), "{c:?}");
    }
}

#[test]
fn texts_are_split_and_trimmed() {
    for text in texts(&[' ', 'a', ':'], 6) {
        assert_eq!(trim(&text), text.trim());
        assert_eq!(split_once(&text, ':'), text.split_once(':'));
        assert_eq!(rsplit_once(&text, ':'), text.rsplit_once(':'));
        assert_eq!(split(&text, ':'), text.split(':').collect::<Vec<_>>());
        assert_eq!(split_words(&text), text.split_whitespace().collect::<Vec<_>>());
    }
}

#[test]
fn numbers_are_shown_in_decimal() {
    for n in [0, 1, 9, 10, 99, 100, 12345, u64::MAX] {
        assert_eq!(decimal_text(n), n.to_string());
        assert_eq!(zero_padded_text(n, 4), format!("{n:04}"));
    }
    for n in [0, -1, 7, i32::MIN, i32::MAX] {
        assert_eq!(signed_decimal_text(n), n.to_string());
    }
}

#[test]
fn lists_are_quoted() {
    let list = vec!["a".to_string(), "b\n\"".to_string()];
    assert_eq!(list_quoted(&list), format!("{list:?}"));
    assert_eq!(list_quoted(&Vec::new()), "[]");
}

#[test]
fn texts_stand_for_paths_of_the_host() {
    for text in ["", "/home/a", "relative/é", "a\0b"] {
        assert_eq!(path_text_of(&text.as_bytes().to_vec()), text);
        assert_eq!(path_bytes_of(text), text.as_bytes());
        assert_eq!(path_shown(text), text);
    }
    assert_eq!(path_text_of(&b"/h/\xc3\x28/x".to_vec()), "\0/h/\u{c3}\0(/x");
    for bytes in [&b"/h/\xff"[..], b"\xff", b"/\xe9/\xe9/abc/", b"\x80\x81", b"\0", b"\0a\0b"] {
        let text = path_text_of(&bytes.to_vec());
        assert_eq!(path_bytes_of(&text), bytes);
        let entry = enter(&text, "x");
        let slash: &[u8] = if bytes.ends_with(b"/") { b"" } else { b"/" };
        assert_eq!(path_bytes_of(&entry), [bytes, slash, b"x"].concat());
        assert_eq!(path_shown(&text), String::from_utf8_lossy(bytes));
    }
}
