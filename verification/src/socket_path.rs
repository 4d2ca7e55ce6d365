//! Where the sockets are: paths from the command line and the environment.

use crate::text::chars_of;
use vstd::prelude::*;

verus! {

/// Whether `path` begins with a slash.
pub open spec fn is_absolute(path: Seq<char>) -> bool {
    seq!['/'].is_prefix_of(path)
}

/// Whether `path` begins with `./` or `../`.
pub open spec fn is_explicit_relative(path: Seq<char>) -> bool {
    seq!['.', '/'].is_prefix_of(path) || seq!['.', '.', '/'].is_prefix_of(path)
}

/// The path of `name`, which does not begin with a slash, in the directory `dir`. A slash
/// goes between them unless `dir` ends with one or is empty.
pub open spec fn joined(dir: Seq<char>, name: Seq<char>) -> Seq<char> {
    if dir.len() == 0 || dir.last() == '/' {
        dir + name
    } else {
        dir + seq!['/'] + name
    }
}

/// The path that the socket argument `arg` stands for.
pub open spec fn socket_path(arg: Seq<char>, runtime_dir: Seq<char>) -> Seq<char> {
    if is_absolute(arg) || is_explicit_relative(arg) {
        arg
    } else {
        joined(runtime_dir, arg)
    }
}

/// The compositor's display, if the environment does not name one.
pub open spec fn default_display() -> Seq<char> {
    "wayland-0"@
}

/// The value of `WAYLAND_DISPLAY`, or the default where it has none.
pub open spec fn display_name(display: Option<&str>) -> Seq<char> {
    match display {
        Some(name) => name@,
        None => default_display(),
    }
}

/// The index of the last slash of `path`, or -1.
pub open spec fn last_slash(path: Seq<char>) -> int
    decreases path.len(),
{
    if path.len() == 0 {
        -1
    } else if path.last() == '/' {
        path.len() - 1
    } else {
        last_slash(path.drop_last())
    }
}

/// What stands behind the last slash of `path`.
pub open spec fn last_segment(path: Seq<char>) -> Seq<char> {
    path.skip(last_slash(path) + 1)
}

/// Whether a segment of a path says nothing: it is empty, or a dot.
pub open spec fn says_nothing(segment: Seq<char>) -> bool {
    segment == Seq::<char>::empty() || segment == seq!['.']
}

/// The last segment of `path` that says something; empty if there is none.
pub open spec fn final_segment(path: Seq<char>) -> Seq<char>
    decreases path.len(),
{
    proof {
        lemma_last_slash(path);
    }
    if !says_nothing(last_segment(path)) {
        last_segment(path)
    } else if last_slash(path) < 0 {
        Seq::empty()
    } else {
        final_segment(path.take(last_slash(path)))
    }
}

/// The name of the file that `path` leads to. There is none if `path` has no segment that
/// says something, or if the last such segment is `..`.
pub open spec fn file_name(path: Seq<char>) -> Option<Seq<char>> {
    let segment = final_segment(path);
    if segment == Seq::<char>::empty() || segment == seq!['.', '.'] {
        None
    } else {
        Some(segment)
    }
}

/// The prefix of the connections of the socket at `path`.
pub open spec fn socket_prefix(path: Seq<char>) -> Seq<char> {
    match file_name(path) {
        Some(name) => name,
        None => "unknown"@,
    }
}

/// The last slash is a slash, and none follows it.
pub proof fn lemma_last_slash(path: Seq<char>)
    ensures
        -1 <= last_slash(path) < path.len(),
        last_slash(path) >= 0 ==> path[last_slash(path)] == '/',
        forall|i: int| last_slash(path) < i < path.len() ==> path[i] != '/',
    decreases path.len(),
{
    if path.len() > 0 && path.last() != '/' {
        let shorter = path.drop_last();
        lemma_last_slash(shorter);
        assert forall|i: int| last_slash(path) < i < path.len() implies path[i] != '/' by {
            if i < shorter.len() {
                assert(shorter[i] == path[i]);
            }
        }
    }
}

/// There is only one index like that.
pub proof fn lemma_last_slash_unique(path: Seq<char>, at: int)
    requires
        -1 <= at < path.len(),
        at >= 0 ==> path[at] == '/',
        forall|i: int| at < i < path.len() ==> path[i] != '/',
    ensures
        last_slash(path) == at,
{
    lemma_last_slash(path);
}

/// Whether `path` begins with a slash.
fn begins_with_slash(path: &str) -> (begins: bool)
    ensures
        begins == is_absolute(path@),
{
    if path.unicode_len() >= 1 && path.get_char(0) == '/' {
        assert(seq!['/'] =~= path@.subrange(0, 1));
        true
    } else {
        proof {
            if is_absolute(path@) {
                assert(path@.subrange(0, 1)[0] == '/');
            }
        }
        false
    }
}

/// Whether `path` begins with `./` or `../`.
fn begins_with_dots(path: &str) -> (begins: bool)
    ensures
        begins == is_explicit_relative(path@),
{
    let len: usize = path.unicode_len();
    let one_dot: bool = len >= 2 && path.get_char(0) == '.' && path.get_char(1) == '/';
    let two_dots: bool = len >= 3 && path.get_char(0) == '.' && path.get_char(1) == '.'
        && path.get_char(2) == '/';
    proof {
        if one_dot {
            assert(seq!['.', '/'] =~= path@.subrange(0, 2));
        }
        if two_dots {
            assert(seq!['.', '.', '/'] =~= path@.subrange(0, 3));
        }
        if seq!['.', '/'].is_prefix_of(path@) {
            assert(path@.subrange(0, 2)[0] == path@[0]);
            assert(path@.subrange(0, 2)[1] == path@[1]);
        }
        if seq!['.', '.', '/'].is_prefix_of(path@) {
            assert(path@.subrange(0, 3)[0] == path@[0]);
            assert(path@.subrange(0, 3)[1] == path@[1]);
            assert(path@.subrange(0, 3)[2] == path@[2]);
        }
    }
    one_dot || two_dots
}

/// The path of `name` in the directory `dir`.
fn join(dir: &str, name: &str) -> (path: String)
    ensures
        path@ == joined(dir@, name@),
{
    let len: usize = dir.unicode_len();
    let mut path: String = dir.to_owned();
    if len > 0 && dir.get_char(len - 1) != '/' {
        proof {
            reveal_strlit("/");
            assert("/"@ =~= seq!['/']);
        }
        path.append("/");
    }
    path.append(name);
    path
}

/// Resolves the path of the compositor's socket. `display` is the value of
/// `WAYLAND_DISPLAY`, and `runtime_dir` that of `XDG_RUNTIME_DIR`, which is needed unless
/// the display is an absolute path.
pub fn resolve_upstream_socket(display: Option<&str>, runtime_dir: Option<&str>) -> (path: String)
    requires
        is_absolute(display_name(display)) || runtime_dir is Some,
    ensures
        path@ == if is_absolute(display_name(display)) {
            display_name(display)
        } else {
            joined(runtime_dir->0@, display_name(display))
        },
{
    let name: &str = match display {
        Some(name) => name,
        None => "wayland-0",
    };
    if begins_with_slash(name) {
        return name.to_owned();
    }
    join(runtime_dir.unwrap(), name)
}

/// Resolves a socket argument.
///
/// - Absolute paths (`/...`) and relative paths (`./...`, `../...`) are used as they are.
/// - Bare names are taken to be in `xdg_runtime_dir`.
pub fn resolve_socket_path(arg: &str, xdg_runtime_dir: &str) -> (path: String)
    ensures
        path@ == socket_path(arg@, xdg_runtime_dir@),
{
    if begins_with_slash(arg) || begins_with_dots(arg) {
        arg.to_owned()
    } else {
        join(xdg_runtime_dir, arg)
    }
}

/// The prefix of the connections of the socket at `path`: the name of its file.
pub fn extract_prefix(path: &str) -> (prefix: String)
    ensures
        prefix@ == socket_prefix(path@),
{
    let chars: Vec<char> = chars_of(path);
    let mut end: usize = chars.len();
    assert(path@.take(end as int) =~= path@);
    loop
        invariant
            chars@ == path@,
            end <= chars@.len(),
            final_segment(path@) == final_segment(path@.take(end as int)),
        decreases end,
    {
        let ghost head = path@.take(end as int);
        let mut start: usize = end;
        while start > 0 && chars[start - 1] != '/'
            invariant
                chars@ == path@,
                start <= end <= chars@.len(),
                forall|i: int| start <= i < end ==> path@[i] != '/',
            decreases start,
        {
            start = start - 1;
        }
        proof {
            lemma_last_slash_unique(head, start - 1);
            assert(last_segment(head) =~= path@.subrange(start as int, end as int));
        }
        let len: usize = end - start;
        let nothing: bool = len == 0 || len == 1 && chars[start] == '.';
        proof {
            let segment = last_segment(head);
            if segment == seq!['.'] {
                assert(segment[0] == path@[start as int]);
            }
            if len == 1 && path@[start as int] == '.' {
                assert(segment =~= seq!['.']);
            }
            if len == 0 {
                assert(segment =~= Seq::<char>::empty());
            }
            assert(nothing == says_nothing(segment));
        }
        if !nothing {
            let parent: bool = len == 2 && chars[start] == '.' && chars[start + 1] == '.';
            proof {
                let segment = last_segment(head);
                if segment == seq!['.', '.'] {
                    assert(segment[0] == path@[start as int]);
                    assert(segment[1] == path@[start + 1]);
                }
                if parent {
                    assert(segment =~= seq!['.', '.']);
                }
            }
            if parent {
                return "unknown".to_owned();
            }
            return path.substring_char(start, end).to_owned();
        }
        if start == 0 {
            return "unknown".to_owned();
        }
        assert(head.take(start - 1) =~= path@.take(start - 1));
        end = start - 1;
    }
}

} // verus!
