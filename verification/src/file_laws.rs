//! Where uploads are kept, said of the names and paths themselves.

use vstd::prelude::*;

use crate::files::{
    audio_file_name_of, extension_of, file_name_of, joined, last_dot, names_audio, segment_start,
    temp_name_of, track_dir_of, tracks_dir_of,
};
use crate::ident::{lower_hex, uuid_v4_text};

verus! {

/// `s` holds no `/`.
pub open spec fn slashless(s: Seq<char>) -> bool {
    forall|i: int| 0 <= i < s.len() ==> #[trigger] s[i] != '/'
}

/// `dir` is empty or ends in a `/`, so that what follows it begins a name.
pub open spec fn opens_a_name(dir: Seq<char>) -> bool {
    dir.len() == 0 || dir.last() == '/'
}

proof fn lemma_segment_start(dir: Seq<char>, name: Seq<char>)
    requires
        opens_a_name(dir),
        slashless(name),
    ensures
        segment_start(dir + name) == dir.len(),
    decreases name.len(),
{
    if name.len() == 0 {
        assert(dir + name =~= dir);
    } else {
        let path = dir + name;
        assert(path.last() == name[name.len() - 1]);
        assert(path.drop_last() =~= dir + name.drop_last());
        lemma_segment_start(dir, name.drop_last());
    }
}

/// A path ends in the name behind its last `/`.
pub proof fn law_file_name(dir: Seq<char>, name: Seq<char>)
    requires
        opens_a_name(dir),
        slashless(name),
        name.len() > 0,
        name != seq!['.'],
        name != seq!['.', '.'],
    ensures
        file_name_of(dir + name) == Some(name),
{
    let path = dir + name;
    lemma_segment_start(dir, name);
    assert(path.last() == name[name.len() - 1]);
    assert(path.skip(dir.len() as int) =~= name);
}

proof fn lemma_last_dot(stem: Seq<char>, ext: Seq<char>)
    requires
        forall|i: int| 0 <= i < ext.len() ==> #[trigger] ext[i] != '.',
    ensures
        last_dot(stem + seq!['.'] + ext) == stem.len(),
    decreases ext.len(),
{
    let name = stem + seq!['.'] + ext;
    if ext.len() == 0 {
        assert(name.last() == '.');
    } else {
        assert(name.last() == ext[ext.len() - 1]);
        assert(name.drop_last() =~= stem + seq!['.'] + ext.drop_last());
        lemma_last_dot(stem, ext.drop_last());
    }
}

proof fn lemma_no_dot(name: Seq<char>)
    requires
        forall|i: int| 0 < i < name.len() ==> #[trigger] name[i] != '.',
    ensures
        last_dot(name) <= 0,
    decreases name.len(),
{
    if name.len() > 0 {
        assert(name.last() == name[name.len() - 1]);
        lemma_no_dot(name.drop_last());
    }
}

/// What follows the last dot of a name is its extension, however long it is
/// and whatever stands before the dot.
pub proof fn law_extension(dir: Seq<char>, stem: Seq<char>, ext: Seq<char>)
    requires
        opens_a_name(dir),
        slashless(stem),
        slashless(ext),
        forall|i: int| 0 <= i < ext.len() ==> #[trigger] ext[i] != '.',
        stem.len() > 0,
        !(stem == seq!['.'] && ext.len() == 0),
    ensures
        extension_of(dir + stem + seq!['.'] + ext) == Some(ext),
{
    let name = stem + seq!['.'] + ext;
    assert(dir + stem + seq!['.'] + ext =~= dir + name);
    assert(name[stem.len() as int] == '.');
    assert(name != seq!['.']) by {
        assert(name.len() >= 2 && seq!['.'].len() == 1);
    }
    assert(name != seq!['.', '.']) by {
        if name == seq!['.', '.'] {
            assert(name.len() == 2);
            assert(stem =~= seq!['.']) by {
                assert(stem[0] == name[0]);
            }
        }
    }
    assert forall|i: int| 0 <= i < name.len() implies #[trigger] name[i] != '/' by {
        if i < stem.len() {
            assert(name[i] == stem[i]);
        } else if i > stem.len() {
            assert(name[i] == ext[i - stem.len() - 1]);
        }
    }
    law_file_name(dir, name);
    lemma_last_dot(stem, ext);
    assert(name.skip(stem.len() as int + 1) =~= ext);
}

/// A name without a dot, or with one at its beginning only, has no extension.
pub proof fn law_no_extension(dir: Seq<char>, name: Seq<char>)
    requires
        opens_a_name(dir),
        slashless(name),
        name.len() > 0,
        name != seq!['.'],
        forall|i: int| 0 < i < name.len() ==> #[trigger] name[i] != '.',
    ensures
        extension_of(dir + name) is None,
{
    assert(name != seq!['.', '.']) by {
        if name == seq!['.', '.'] {
            assert(name[1] == '.');
        }
    }
    law_file_name(dir, name);
    lemma_no_dot(name);
}

/// A `/` or `/.` at the end of a path changes nothing. What ends in `..` names
/// no file, nor does an empty path or `.` alone.
pub proof fn law_paths_without_a_name(path: Seq<char>, dir: Seq<char>)
    requires
        opens_a_name(dir),
    ensures
        extension_of(path + seq!['/']) == extension_of(path),
        extension_of(path + seq!['/', '.']) == extension_of(path),
        extension_of(dir + seq!['.', '.']) is None,
        extension_of(Seq::empty()) is None,
        extension_of(seq!['.']) is None,
{
    let slashed = path + seq!['/'];
    assert(slashed.drop_last() =~= path);
    let dot = seq!['.'];
    lemma_segment_start(slashed, dot);
    let dotted = path + seq!['/', '.'];
    assert(dotted =~= slashed + dot);
    assert(dotted.skip(slashed.len() as int) =~= dot);
    assert(dotted.take(dotted.len() - 1) =~= slashed);
    assert(dotted.last() == '.');
    let up = seq!['.', '.'];
    lemma_segment_start(dir, up);
    assert((dir + up).skip(dir.len() as int) =~= up);
    assert((dir + up).last() == '.');
    assert(up != dot) by {
        assert(up.len() == 2 && dot.len() == 1);
    }
    lemma_segment_start(Seq::empty(), dot);
    assert(Seq::<char>::empty() + dot =~= dot);
    assert(dot.skip(0) =~= dot);
    assert(dot.take(0) =~= Seq::empty());
    assert(file_name_of(dot.take(dot.len() - 1)) is None);
}

/// An upload keeps the extension of the name it came with, behind `audio.`,
/// and gets `bin` where it came with none.
pub proof fn law_audio_keeps_its_extension(dir: Seq<char>, stem: Seq<char>, ext: Seq<char>)
    requires
        opens_a_name(dir),
        slashless(stem),
        stem.len() > 0,
    ensures
        slashless(ext) && (forall|i: int| 0 <= i < ext.len() ==> #[trigger] ext[i] != '.') && !(stem
            == seq!['.'] && ext.len() == 0) ==> audio_file_name_of(dir + stem + seq!['.'] + ext)
            == seq!['a', 'u', 'd', 'i', 'o', '.'] + ext,
        stem != seq!['.'] && (forall|i: int| 0 < i < stem.len() ==> #[trigger] stem[i] != '.')
            ==> audio_file_name_of(dir + stem) == seq![
            'a',
            'u',
            'd',
            'i',
            'o',
            '.',
            'b',
            'i',
            'n',
        ],
{
    reveal_strlit("audio.");
    reveal_strlit("bin");
    if slashless(ext) && (forall|i: int| 0 <= i < ext.len() ==> #[trigger] ext[i] != '.') && !(stem
        == seq!['.'] && ext.len() == 0) {
        law_extension(dir, stem, ext);
        assert("audio."@ + ext =~= seq!['a', 'u', 'd', 'i', 'o', '.'] + ext);
    }
    if stem != seq!['.'] && (forall|i: int| 0 < i < stem.len() ==> #[trigger] stem[i] != '.') {
        law_no_extension(dir, stem);
        assert("audio."@ + "bin"@ =~= seq!['a', 'u', 'd', 'i', 'o', '.', 'b', 'i', 'n']);
    }
}

/// The name under which an upload is kept depends on nothing but the
/// extension.
pub proof fn law_audio_name_of_any_path(filename: Seq<char>)
    ensures
        extension_of(filename) matches Some(ext) ==> audio_file_name_of(filename) == seq![
            'a',
            'u',
            'd',
            'i',
            'o',
            '.',
        ] + ext,
        extension_of(filename) is None ==> audio_file_name_of(filename) == seq![
            'a',
            'u',
            'd',
            'i',
            'o',
            '.',
            'b',
            'i',
            'n',
        ],
{
    reveal_strlit("audio.");
    reveal_strlit("bin");
    assert("audio."@ =~= seq!['a', 'u', 'd', 'i', 'o', '.']);
    assert("audio."@ + "bin"@ =~= seq!['a', 'u', 'd', 'i', 'o', '.', 'b', 'i', 'n']);
}

/// Accepted audio is what has a name that begins with `audio.`, whatever
/// follows.
pub proof fn law_audio_names(rest: Seq<char>, name: Seq<char>)
    ensures
        names_audio(seq!['a', 'u', 'd', 'i', 'o', '.'] + rest),
        names_audio(name) ==> name.len() >= 6 && name.take(6) == seq![
            'a',
            'u',
            'd',
            'i',
            'o',
            '.',
        ],
{
    reveal_strlit("audio.");
    assert("audio."@ =~= seq!['a', 'u', 'd', 'i', 'o', '.']);
    let full = seq!['a', 'u', 'd', 'i', 'o', '.'] + rest;
    assert(full.take(6) =~= "audio."@);
}

/// The name of a temporary file is the id between `tmp-upload-` and `.bin`, so
/// that uploads with different ids have different temporary files.
pub proof fn law_temp_names(a: Seq<char>, b: Seq<char>)
    ensures
        temp_name_of(a).len() == a.len() + 15,
        temp_name_of(a).take(11) == "tmp-upload-"@,
        temp_name_of(a).subrange(11, a.len() as int + 11) == a,
        temp_name_of(a).skip(a.len() as int + 11) == ".bin"@,
        a != b ==> temp_name_of(a) != temp_name_of(b),
        slashless(a) ==> slashless(temp_name_of(a)),
{
    reveal_strlit("tmp-upload-");
    reveal_strlit(".bin");
    assert(temp_name_of(a).take(11) =~= "tmp-upload-"@);
    assert(temp_name_of(a).subrange(11, a.len() as int + 11) =~= a);
    assert(temp_name_of(b).subrange(11, b.len() as int + 11) =~= b);
    assert(temp_name_of(a).skip(a.len() as int + 11) =~= ".bin"@);
    if temp_name_of(a) == temp_name_of(b) {
        assert(a.len() == b.len());
        assert(a =~= b);
    }
    if slashless(a) {
        assert forall|i: int| 0 <= i < temp_name_of(a).len() implies #[trigger] temp_name_of(a)[i]
            != '/' by {
            if 11 <= i < a.len() + 11 {
                assert(temp_name_of(a)[i] == a[i - 11]);
            }
        }
    }
}

/// A name is put behind a directory, with one `/` between them. A name that
/// begins with `/` replaces the directory.
pub proof fn law_joined(dir: Seq<char>, name: Seq<char>)
    ensures
        name.len() > 0 && name[0] == '/' ==> joined(dir, name) == name,
        !(name.len() > 0 && name[0] == '/') ==> {
            &&& joined(Seq::empty(), name) == name
            &&& joined(dir.push('/'), name) == dir + seq!['/'] + name
            &&& dir.len() > 0 && dir.last() != '/' ==> joined(dir, name) == dir + seq!['/'] + name
        },
{
    reveal_strlit("/");
    assert("/"@ =~= seq!['/']);
    assert(Seq::<char>::empty() + name =~= name);
    assert(dir.push('/').last() == '/');
    assert(dir.push('/') + name =~= dir + seq!['/'] + name);
}

/// The directory of all tracks is named `tracks` and lies in the root.
pub proof fn law_tracks_directory(root: Seq<char>)
    ensures
        tracks_dir_of(root) == joined(root, Seq::empty()) + seq!['t', 'r', 'a', 'c', 'k', 's'],
        root.len() > 0 && root.last() != '/' ==> tracks_dir_of(root) == root + seq![
            '/',
            't',
            'r',
            'a',
            'c',
            'k',
            's',
        ],
{
    reveal_strlit("tracks");
    reveal_strlit("/");
    assert("tracks"@ =~= seq!['t', 'r', 'a', 'c', 'k', 's']);
    assert(tracks_dir_of(root) =~= joined(root, Seq::empty()) + "tracks"@);
    if root.len() > 0 && root.last() != '/' {
        assert(tracks_dir_of(root) =~= root + seq!['/', 't', 'r', 'a', 'c', 'k', 's']);
    }
}

/// Each track has a directory of its own: it lies directly in the directory of
/// all tracks, is named by the track's id, and so differs from that of every
/// other track.
pub proof fn law_tracks_have_their_own_directories(root: Seq<char>, a: Seq<char>, b: Seq<char>)
    requires
        slashless(a),
        slashless(b),
    ensures
        track_dir_of(root, a) == tracks_dir_of(root) + seq!['/'] + a,
        a != b ==> track_dir_of(root, a) != track_dir_of(root, b),
        a.len() > 0 && a != seq!['.'] && a != seq!['.', '.'] ==> file_name_of(track_dir_of(root, a))
            == Some(a),
{
    law_tracks_directory(root);
    let all = tracks_dir_of(root);
    assert(all.last() == 's');
    law_joined(all, a);
    law_joined(all, b);
    let dir = all + seq!['/'];
    assert((dir + a).skip(dir.len() as int) =~= a);
    assert((dir + b).skip(dir.len() as int) =~= b);
    if a.len() > 0 && a != seq!['.'] && a != seq!['.', '.'] {
        law_file_name(dir, a);
    }
}

/// No file of a track is a file of another track, whatever the names of the
/// two files: what is uploaded for one track is never found, replaced or
/// served for another.
pub proof fn law_tracks_share_no_file(
    root: Seq<char>,
    a: Seq<char>,
    b: Seq<char>,
    name: Seq<char>,
    other: Seq<char>,
)
    requires
        slashless(a),
        slashless(b),
        a.len() > 0,
        b.len() > 0,
        a != b,
        slashless(name),
        slashless(other),
    ensures
        joined(track_dir_of(root, a), name) != joined(track_dir_of(root, b), other),
{
    law_tracks_have_their_own_directories(root, a, b);
    let x = track_dir_of(root, a);
    let y = track_dir_of(root, b);
    assert(x.last() == a[a.len() - 1]);
    assert(y.last() == b[b.len() - 1]);
    law_joined(x, name);
    law_joined(y, other);
    lemma_segment_start(x + seq!['/'], name);
    lemma_segment_start(y + seq!['/'], other);
    if joined(x, name) == joined(y, other) {
        assert(x.len() == y.len());
        assert((x + seq!['/'] + name).take(x.len() as int) =~= x);
        assert((y + seq!['/'] + other).take(x.len() as int) =~= y);
    }
}

/// A drawn id is 36 characters long, of which four are hyphens and the others
/// hexadecimal digits in lower case. So it holds no `/`, and the laws on
/// tracks' directories hold of every track that the service creates.
pub proof fn law_drawn_ids(id: Seq<char>, i: int)
    requires
        uuid_v4_text(id),
    ensures
        id.len() == 36,
        id[8] == '-' && id[13] == '-' && id[18] == '-' && id[23] == '-',
        id[14] == '4',
        0 <= i < 36 && i != 8 && i != 13 && i != 18 && i != 23 ==> '0' <= id[i] <= '9' || 'a' <= id[i]
            <= 'f',
        slashless(id),
{
    assert forall|j: int| 0 <= j < id.len() implies #[trigger] id[j] != '/' by {
        if !(j == 8 || j == 13 || j == 18 || j == 23) {
            assert(lower_hex(id[j]));
        }
    }
    if 0 <= i < 36 && i != 8 && i != 13 && i != 18 && i != 23 {
        assert(lower_hex(id[i]));
    }
}

} // verus!
