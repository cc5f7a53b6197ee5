//! Paths.

use ember::path::{expand_tilde, parent, with_extension, with_file_name};
use std::path::Path;

const PATHS: [&str; 24] = [
    "", "/", "//", ".", "..", "./", "/.", "/..", "a", "/a", "a/", "a/b", "a//b", "a/./b", "a/b/.",
    "./a", "/w/rootfs.ext4", "/w/.hidden", "/w/a.b.c", "a.b/c", "a/..", "x.", "/w/rootfs.ext4/", "a/b//",
];

#[test]
fn extensions_are_replaced() {
    assert_eq!(with_extension("/w/rootfs.ext4", "mnt"), "/w/rootfs.mnt");
    assert_eq!(with_extension("/s/vms/web/firecracker.sock", "log"), "/s/vms/web/firecracker.log");
    assert_eq!(with_extension("/w/image", "mnt"), "/w/image.mnt");
    for p in PATHS {
        for ext in ["mnt", ""] {
            let expected = Path::new(p).with_extension(ext);
            assert_eq!(Path::new(&with_extension(p, ext)), expected, "{p}");
        }
    }
}

#[test]
fn paths_lie_below_others() {
    assert_eq!(parent("/w/rootfs"), Some("/w".to_string()));
    for p in PATHS {
        let expected = Path::new(p).parent().map(|d| d.display().to_string());
        assert_eq!(parent(p), expected, "{p}");
    }
}

#[test]
fn names_are_replaced() {
    assert_eq!(with_file_name("/s/vms/web/firecracker.log", "console.log"), "/s/vms/web/console.log");
    for p in PATHS {
        let expected = Path::new(p).with_file_name("n").display().to_string();
        assert_eq!(with_file_name(p, "n"), expected, "{p}");
    }
}

#[test]
fn a_tilde_stands_for_home() {
    assert_eq!(expand_tilde("~/.ssh/id", Some("/home/me")), "/home/me/.ssh/id");
    assert_eq!(expand_tilde("~", Some("/home/me")), "/home/me");
    assert_eq!(expand_tilde("~you/x", Some("/home/me")), "~you/x");
    assert_eq!(expand_tilde("/k", Some("/home/me")), "/k");
    assert_eq!(expand_tilde("~/k", None), "~/k");
}
