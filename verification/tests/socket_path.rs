use std::path::{Path, PathBuf};
use wayland_proxy::socket_path::{extract_prefix, resolve_socket_path, resolve_upstream_socket};

#[test]
fn bare_names_are_in_the_runtime_dir() {
    assert_eq!(resolve_socket_path("my-socket", "/run/user/1000"), "/run/user/1000/my-socket");
    assert_eq!(resolve_socket_path("my-socket", "/run/user/1000/"), "/run/user/1000/my-socket");
    assert_eq!(resolve_socket_path("a/b", "/run"), "/run/a/b");
    assert_eq!(resolve_socket_path(".hidden", "/run"), "/run/.hidden");
    assert_eq!(resolve_socket_path("..", "/run"), "/run/..");
    assert_eq!(resolve_socket_path("", "/run"), "/run/");
    assert_eq!(resolve_socket_path("x", ""), "x");
}

#[test]
fn explicit_paths_are_kept() {
    for arg in ["/tmp/my-wayland-socket", "/", "./x", "../x", "./", "../"] {
        assert_eq!(resolve_socket_path(arg, "/run"), arg);
    }
}

#[test]
fn joining_agrees_with_std() {
    for dir in ["", "/", "/run", "/run/", "run", "/run//", "./run", "\u{e4}"] {
        for name in ["", "a", "a/b", ".", "..", "a/", ".a", "\u{20ac}"] {
            let expected = PathBuf::from(dir).join(name);
            assert_eq!(resolve_socket_path(name, dir), expected.to_str().unwrap());
            assert_eq!(
                resolve_upstream_socket(Some(name), Some(dir)),
                expected.to_str().unwrap()
            );
        }
    }
}

#[test]
fn upstream_socket() {
    assert_eq!(resolve_upstream_socket(None, Some("/run/user/1")), "/run/user/1/wayland-0");
    assert_eq!(
        resolve_upstream_socket(Some("wayland-1"), Some("/run/user/1")),
        "/run/user/1/wayland-1"
    );
    assert_eq!(resolve_upstream_socket(Some("/tmp/w"), None), "/tmp/w");
    assert_eq!(resolve_upstream_socket(Some("/tmp/w"), Some("/run")), "/tmp/w");
    assert_eq!(resolve_upstream_socket(Some("./w"), Some("/run")), "/run/./w");
}

#[test]
fn prefix_is_the_file_name() {
    assert_eq!(extract_prefix("/run/user/1000/my-socket"), "my-socket");
    assert_eq!(extract_prefix("/tmp/wayland-proxy.sock"), "wayland-proxy.sock");
    assert_eq!(extract_prefix("socket1"), "socket1");
    assert_eq!(extract_prefix("/tmp/\u{e4}\u{20ac}"), "\u{e4}\u{20ac}");
    assert_eq!(extract_prefix("/"), "unknown");
    assert_eq!(extract_prefix(""), "unknown");
    assert_eq!(extract_prefix("/tmp/.."), "unknown");
}

#[test]
fn prefix_agrees_with_std() {
    let segments = ["", ".", "..", "a", "...", ".b"];
    for first in segments {
        for second in segments {
            for third in segments {
                for path in [
                    format!("{}/{}/{}", first, second, third),
                    format!("{}/{}", first, second),
                    format!("/{}/{}", second, third),
                    format!("{}/{}//", first, third),
                    first.to_string(),
                ] {
                    let expected = Path::new(&path)
                        .file_name()
                        .and_then(|n| n.to_str())
                        .unwrap_or("unknown");
                    assert_eq!(extract_prefix(&path), expected, "{}", path);
                }
            }
        }
    }
}

#[test]
fn bare_name_is_its_own_prefix() {
    for name in ["my-socket", "...", "a b", "w.sock"] {
        for dir in ["/run/user/1000", "", "/"] {
            assert_eq!(extract_prefix(&resolve_socket_path(name, dir)), name);
        }
    }
    assert_eq!(extract_prefix(&resolve_socket_path(".", "/run/user")), "user");
    assert_eq!(extract_prefix(&resolve_socket_path("..", "/run/user")), "unknown");
}

#[test]
fn trailing_slash_has_no_effect() {
    for path in ["/tmp/a", "", "a/..", "a/."] {
        assert_eq!(extract_prefix(&format!("{}/", path)), extract_prefix(path));
    }
}
