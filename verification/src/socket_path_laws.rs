//! What holds of socket paths and prefixes.

use crate::socket_path;
use vstd::prelude::*;

verus! {

/// The socket of a bare name has that name for its prefix, whatever the directory. The names
/// `.` and `..` are no names of a file.
pub proof fn law_bare_name_is_prefix(name: Seq<char>, runtime_dir: Seq<char>)
    requires
        name.len() > 0,
        !name.contains('/'),
        name != seq!['.'],
        name != seq!['.', '.'],
    ensures
        socket_path::socket_prefix(socket_path::socket_path(name, runtime_dir)) == name,
{
    let path = socket_path::socket_path(name, runtime_dir);
    assert forall|i: int| 0 <= i < name.len() implies name[i] != '/' by {
        assert(name.contains(name[i]));
    }
    if socket_path::is_absolute(name) {
        assert(name.subrange(0, 1)[0] == '/');
    }
    if seq!['.', '/'].is_prefix_of(name) {
        assert(name.subrange(0, 2)[1] == '/');
    }
    if seq!['.', '.', '/'].is_prefix_of(name) {
        assert(name.subrange(0, 3)[2] == '/');
    }
    assert(path == socket_path::joined(runtime_dir, name));
    let start = path.len() - name.len();
    assert forall|i: int| start <= i < path.len() implies path[i] != '/' by {
        assert(path[i] == name[i - start]);
    }
    socket_path::lemma_last_slash_unique(path, start - 1);
    assert(socket_path::last_segment(path) =~= name);
    assert(name != Seq::<char>::empty());
}

/// The prefix of a socket is one segment of a path: it has no slash in it and is not empty.
pub proof fn law_prefix_is_one_segment(path: Seq<char>)
    ensures
        !socket_path::socket_prefix(path).contains('/'),
        socket_path::socket_prefix(path).len() > 0,
{
    lemma_final_segment(path);
    reveal_strlit("unknown");
    let prefix = socket_path::socket_prefix(path);
    if prefix.len() == 0 {
        assert(prefix =~= Seq::<char>::empty());
    }
}

proof fn lemma_final_segment(path: Seq<char>)
    ensures
        !socket_path::final_segment(path).contains('/'),
    decreases path.len(),
{
    socket_path::lemma_last_slash(path);
    let slash = socket_path::last_slash(path);
    let segment = socket_path::last_segment(path);
    assert forall|i: int| 0 <= i < segment.len() implies segment[i] != '/' by {
        assert(segment[i] == path[slash + 1 + i]);
    }
    if socket_path::says_nothing(segment) && slash >= 0 {
        lemma_final_segment(path.take(slash));
    }
}

/// A slash at the end of a path does not change the prefix.
pub proof fn law_trailing_slash_ignored(path: Seq<char>)
    ensures
        socket_path::socket_prefix(path.push('/')) == socket_path::socket_prefix(path),
{
    let longer = path.push('/');
    socket_path::lemma_last_slash_unique(longer, path.len() as int);
    assert(socket_path::last_segment(longer) =~= Seq::<char>::empty());
    assert(longer.take(path.len() as int) =~= path);
}

/// A path that begins with a slash, `./` or `../` is used as it is, whatever the directory.
pub proof fn law_explicit_paths_kept(tail: Seq<char>, runtime_dir: Seq<char>)
    ensures
        socket_path::socket_path(seq!['/'] + tail, runtime_dir) == seq!['/'] + tail,
        socket_path::socket_path(seq!['.', '/'] + tail, runtime_dir) == seq!['.', '/'] + tail,
        socket_path::socket_path(seq!['.', '.', '/'] + tail, runtime_dir) == seq!['.', '.', '/']
            + tail,
{
    assert((seq!['/'] + tail).subrange(0, 1) =~= seq!['/']);
    assert((seq!['.', '/'] + tail).subrange(0, 2) =~= seq!['.', '/']);
    assert((seq!['.', '.', '/'] + tail).subrange(0, 3) =~= seq!['.', '.', '/']);
}

/// Any other name is one in the directory: the directory, a slash unless it ends with one or
/// is empty, and the whole name.
pub proof fn law_other_names_in_directory(name: Seq<char>, runtime_dir: Seq<char>)
    requires
        !(name.len() >= 1 && name[0] == '/'),
        !(name.len() >= 2 && name[0] == '.' && name[1] == '/'),
        !(name.len() >= 3 && name[0] == '.' && name[1] == '.' && name[2] == '/'),
    ensures
        runtime_dir.len() > 0 && runtime_dir.last() != '/' ==> socket_path::socket_path(
            name,
            runtime_dir,
        ) == runtime_dir + seq!['/'] + name,
        runtime_dir.len() == 0 || runtime_dir.last() == '/' ==> socket_path::socket_path(
            name,
            runtime_dir,
        ) == runtime_dir + name,
{
    if seq!['/'].is_prefix_of(name) {
        assert(name.subrange(0, 1)[0] == name[0]);
    }
    if seq!['.', '/'].is_prefix_of(name) {
        assert(name.subrange(0, 2)[0] == name[0]);
        assert(name.subrange(0, 2)[1] == name[1]);
    }
    if seq!['.', '.', '/'].is_prefix_of(name) {
        assert(name.subrange(0, 3)[0] == name[0]);
        assert(name.subrange(0, 3)[1] == name[1]);
        assert(name.subrange(0, 3)[2] == name[2]);
    }
}

/// The display is the one that the environment names, else `wayland-0`. A path is absolute
/// exactly if it begins with a slash, and any other is joined to its directory by one slash.
pub proof fn law_display(display: &str, path: Seq<char>, dir: Seq<char>)
    ensures
        socket_path::display_name(Some(display)) == display@,
        socket_path::display_name(None) == "wayland-0"@,
        socket_path::is_absolute(path) <==> path.len() >= 1 && path[0] == '/',
        dir.len() > 0 && dir.last() != '/' ==> socket_path::joined(dir, path) == dir + seq!['/']
            + path,
        dir.len() == 0 || dir.last() == '/' ==> socket_path::joined(dir, path) == dir + path,
{
    if path.len() >= 1 {
        assert(path.subrange(0, 1)[0] == path[0]);
        if path[0] == '/' {
            assert(path.subrange(0, 1) =~= seq!['/']);
        }
    }
}

/// What stands behind the last slash, if no slash is in it.
proof fn lemma_segment_behind(dir: Seq<char>, name: Seq<char>)
    requires
        !name.contains('/'),
    ensures
        socket_path::last_slash(dir.push('/') + name) == dir.len(),
        socket_path::last_segment(dir.push('/') + name) == name,
        (dir.push('/') + name).take(dir.len() as int) == dir,
        socket_path::last_slash(name) == -1,
        socket_path::last_segment(name) == name,
{
    let path = dir.push('/') + name;
    assert forall|i: int| 0 <= i < name.len() implies name[i] != '/' by {
        assert(name.contains(name[i]));
    }
    assert forall|i: int| dir.len() < i < path.len() implies path[i] != '/' by {
        assert(path[i] == name[i - dir.len() - 1]);
    }
    socket_path::lemma_last_slash_unique(path, dir.len() as int);
    socket_path::lemma_last_slash_unique(name, -1);
    assert(socket_path::last_segment(path) =~= name);
    assert(socket_path::last_segment(name) =~= name);
    assert(path.take(dir.len() as int) =~= dir);
}

/// The prefix is the whole name of the file, with whatever directory in front, or with none.
pub proof fn law_file_name_is_prefix(dir: Seq<char>, name: Seq<char>)
    requires
        name.len() > 0,
        !name.contains('/'),
        name != seq!['.'],
        name != seq!['.', '.'],
    ensures
        socket_path::socket_prefix(dir.push('/') + name) == name,
        socket_path::socket_prefix(name) == name,
{
    lemma_segment_behind(dir, name);
    assert(name != Seq::<char>::empty());
}

/// A dot at the end of a path does not change the prefix.
pub proof fn law_trailing_dot_ignored(path: Seq<char>)
    ensures
        socket_path::socket_prefix(path + seq!['/', '.']) == socket_path::socket_prefix(path),
{
    assert(!seq!['.'].contains('/'));
    lemma_segment_behind(path, seq!['.']);
    assert(path + seq!['/', '.'] =~= path.push('/') + seq!['.']);
}

/// A path that ends in `..`, with whatever directory in front, and a path of nothing but a
/// dot or nothing at all have no name of a file, and the prefix is `unknown`.
pub proof fn law_no_file_name(dir: Seq<char>)
    ensures
        socket_path::socket_prefix(dir + seq!['/', '.', '.']) == "unknown"@,
        socket_path::socket_prefix(seq!['.', '.']) == "unknown"@,
        socket_path::socket_prefix(seq!['.']) == "unknown"@,
        socket_path::socket_prefix(Seq::empty()) == "unknown"@,
{
    let parent = seq!['.', '.'];
    let here = seq!['.'];
    let nothing = Seq::<char>::empty();
    assert(!parent.contains('/'));
    assert(!here.contains('/'));
    assert(!nothing.contains('/'));
    lemma_segment_behind(dir, parent);
    lemma_segment_behind(dir, here);
    lemma_segment_behind(dir, nothing);
    assert(dir + seq!['/', '.', '.'] =~= dir.push('/') + parent);
    assert(parent.len() == 2);
}

} // verus!
