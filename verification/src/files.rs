//! The names under which uploads are kept.
//!
//! Paths are read and joined as on Unix: `/` alone separates their segments.
//! A `\` or a drive letter is part of a name like any other character.

use vstd::prelude::*;

use crate::text::{chars_of, starts_with};

verus! {

/// Where the last segment of `path` begins: behind its last `/`.
pub open spec fn segment_start(path: Seq<char>) -> nat
    decreases path.len(),
{
    if path.len() == 0 || path.last() == '/' {
        path.len()
    } else {
        segment_start(path.drop_last())
    }
}

/// The file that `path`, read as on Unix, ends in. Trailing slashes and `.` segments count for
/// nothing, and a path that ends in `..` names no file.
pub open spec fn file_name_of(path: Seq<char>) -> Option<Seq<char>>
    decreases path.len(),
{
    let start = segment_start(path) as int;
    if path.len() == 0 {
        None
    } else if path.last() == '/' {
        file_name_of(path.drop_last())
    } else if path.skip(start) == seq!['.'] {
        file_name_of(path.take(path.len() - 1))
    } else if path.skip(start) == seq!['.', '.'] {
        None
    } else {
        Some(path.skip(start))
    }
}

/// The position of the last dot in `name`, or -1.
pub open spec fn last_dot(name: Seq<char>) -> int
    decreases name.len(),
{
    if name.len() == 0 {
        -1
    } else if name.last() == '.' {
        name.len() - 1
    } else {
        last_dot(name.drop_last())
    }
}

/// What follows the last dot of the file that `path`, read as on Unix, ends in,
/// unless that dot begins the file's name.
pub open spec fn extension_of(path: Seq<char>) -> Option<Seq<char>> {
    match file_name_of(path) {
        Some(name) => if last_dot(name) > 0 {
            Some(name.skip(last_dot(name) + 1))
        } else {
            None
        },
        None => None,
    }
}

/// The name under which an upload is kept, given the name it came with.
pub open spec fn audio_file_name_of(filename: Seq<char>) -> Seq<char> {
    "audio."@ + match extension_of(filename) {
        Some(extension) => extension,
        None => "bin"@,
    }
}

/// The path of `name` in the directory `dir`. A `name` that begins with `/`
/// stands for itself.
pub open spec fn joined(dir: Seq<char>, name: Seq<char>) -> Seq<char> {
    if name.len() > 0 && name[0] == '/' {
        name
    } else if dir.len() == 0 || dir.last() == '/' {
        dir + name
    } else {
        dir + "/"@ + name
    }
}

/// Where the files of all tracks are kept under `root`.
pub open spec fn tracks_dir_of(root: Seq<char>) -> Seq<char> {
    joined(root, "tracks"@)
}

/// Where the files of the track `track_id` are kept under `root`.
pub open spec fn track_dir_of(root: Seq<char>, track_id: Seq<char>) -> Seq<char> {
    joined(tracks_dir_of(root), track_id)
}

/// Where an upload goes until it is accepted.
pub open spec fn temp_name_of(id: Seq<char>) -> Seq<char> {
    "tmp-upload-"@ + id + ".bin"@
}

/// A file with this name is a track's accepted audio.
pub open spec fn names_audio(name: Seq<char>) -> bool {
    "audio."@.is_prefix_of(name)
}

/// The last segment of a path holds no `/`.
proof fn lemma_segment(path: Seq<char>)
    ensures
        segment_start(path) <= path.len(),
        forall|i: int| segment_start(path) <= i < path.len() ==> #[trigger] path[i] != '/',
    decreases path.len(),
{
    if path.len() > 0 && path.last() != '/' {
        lemma_segment(path.drop_last());
        assert forall|i: int| segment_start(path) <= i < path.len() implies #[trigger] path[i] != '/' by {
            if i < path.len() - 1 {
                assert(path.drop_last()[i] == path[i]);
            }
        }
    }
}

/// The name of a file holds no `/`.
proof fn lemma_file_name(path: Seq<char>)
    ensures
        file_name_of(path) matches Some(name) ==> forall|i: int|
            0 <= i < name.len() ==> #[trigger] name[i] != '/',
    decreases path.len(),
{
    if path.len() > 0 {
        lemma_file_name(path.drop_last());
        assert(path.take(path.len() - 1) =~= path.drop_last());
        lemma_segment(path);
    }
}

proof fn lemma_last_dot(name: Seq<char>)
    ensures
        -1 <= last_dot(name) < name.len(),
    decreases name.len(),
{
    if name.len() > 0 {
        lemma_last_dot(name.drop_last());
    }
}

/// Whatever name an upload came with, the name under which it is kept holds no
/// `/`, so that the file lies in the directory itself.
pub(crate) proof fn lemma_audio_file_name(filename: Seq<char>, dir: Seq<char>)
    ensures
        forall|i: int|
            0 <= i < audio_file_name_of(filename).len() ==> #[trigger] audio_file_name_of(filename)[i]
                != '/',
        joined(dir, audio_file_name_of(filename)) == joined(dir, ""@) + audio_file_name_of(filename),
{
    reveal_strlit("audio.");
    reveal_strlit("bin");
    reveal_strlit("");
    lemma_file_name(filename);
    if let Some(name) = file_name_of(filename) {
        lemma_last_dot(name);
    }
    let name = audio_file_name_of(filename);
    assert(name[0] == 'a');
    assert(joined(dir, name) =~= joined(dir, ""@) + name);
}

/// The first and the past-the-end position of the file that `v` ends in.
fn file_name_range(v: &Vec<char>) -> (r: Option<(usize, usize)>)
    ensures
        match file_name_of(v@) {
            Some(name) => {
                &&& r matches Some((start, end))
                &&& start <= end <= v@.len()
                &&& name == v@.subrange(start as int, end as int)
            },
            None => r is None,
        },
{
    let mut end: usize = v.len();
    assert(v@.take(end as int) =~= v@);
    while end > 0
        invariant
            end <= v@.len(),
            file_name_of(v@) == file_name_of(v@.take(end as int)),
        decreases end,
    {
        let ghost path = v@.take(end as int);
        assert(path.drop_last() =~= v@.take(end - 1));
        if v[end - 1] == '/' {
            end -= 1;
        } else {
            let mut start: usize = end;
            while start > 0 && v[start - 1] != '/'
                invariant
                    start <= end <= v@.len(),
                    path == v@.take(end as int),
                    segment_start(path) == segment_start(v@.take(start as int)),
                decreases start,
            {
                assert(v@.take(start as int).drop_last() =~= v@.take(start - 1));
                start -= 1;
            }
            assert(segment_start(path) == start);
            let ghost segment = path.skip(start as int);
            assert(segment =~= v@.subrange(start as int, end as int));
            if end - start == 1 && v[start] == '.' {
                assert(segment =~= seq!['.']);
                end -= 1;
            } else if end - start == 2 && v[start] == '.' && v[start + 1] == '.' {
                assert(segment =~= seq!['.', '.']);
                return None;
            } else {
                assert(segment != seq!['.']) by {
                    if segment == seq!['.'] {
                        assert(segment.len() == 1 && segment[0] == '.');
                    }
                }
                assert(segment != seq!['.', '.']) by {
                    if segment == seq!['.', '.'] {
                        assert(segment.len() == 2 && segment[0] == '.' && segment[1] == '.');
                    }
                }
                return Some((start, end));
            }
        }
    }
    None
}

/// The extension of the file that `path`, read as on Unix, ends in.
pub fn file_extension(path: &str) -> (r: Option<String>)
    ensures
        match extension_of(path@) {
            Some(extension) => r matches Some(s) && s@ == extension,
            None => r is None,
        },
{
    let v = chars_of(path);
    match file_name_range(&v) {
        None => None,
        Some((start, end)) => {
            let ghost name = v@.subrange(start as int, end as int);
            let mut dot: usize = end;
            assert(name.take(end - start) =~= name);
            while dot > start && v[dot - 1] != '.'
                invariant
                    start <= dot <= end <= v@.len(),
                    name == v@.subrange(start as int, end as int),
                    last_dot(name) == last_dot(name.take(dot - start)),
                decreases dot,
            {
                assert(name.take(dot - start).drop_last() =~= name.take(dot - start - 1));
                dot -= 1;
            }
            if dot - start <= 1 {
                None
            } else {
                let extension = path.substring_char(dot, end);
                assert(extension@ =~= name.skip(last_dot(name) + 1));
                Some(extension.to_string())
            }
        },
    }
}

/// The name under which an upload is kept, given the name it came with.
pub fn audio_file_name(filename: &str) -> (s: String)
    ensures
        s@ == audio_file_name_of(filename@),
{
    let mut s = "audio.".to_string();
    match file_extension(filename) {
        Some(extension) => s.append(extension.as_str()),
        None => s.append("bin"),
    }
    s
}

/// The path of `name` in the directory `dir`.
pub fn join(dir: &str, name: &str) -> (path: String)
    ensures
        path@ == joined(dir@, name@),
{
    let d = chars_of(dir);
    let n = chars_of(name);
    if n.len() > 0 && n[0] == '/' {
        return name.to_string();
    }
    let mut path = dir.to_string();
    if d.len() > 0 && d[d.len() - 1] != '/' {
        path.append("/");
    }
    path.append(name);
    path
}

/// Where the files of all tracks are kept under `root`.
pub fn tracks_dir(root: &str) -> (path: String)
    ensures
        path@ == tracks_dir_of(root@),
{
    join(root, "tracks")
}

/// Where the files of the track `track_id` are kept under `root`.
pub fn track_dir(root: &str, track_id: &str) -> (path: String)
    ensures
        path@ == track_dir_of(root@, track_id@),
{
    let tracks = tracks_dir(root);
    join(tracks.as_str(), track_id)
}

/// Where the upload `id` goes until it is accepted.
pub fn temp_name(id: &str) -> (s: String)
    ensures
        s@ == temp_name_of(id@),
{
    let mut s = "tmp-upload-".to_string();
    s.append(id);
    s.append(".bin");
    s
}

/// Whether a file with this name is a track's accepted audio.
pub fn is_audio_name(name: &str) -> (b: bool)
    ensures
        b == names_audio(name@),
{
    starts_with(name, "audio.")
}

} // verus!
