//! File names taken out of paths, and the cleaning of names that a peer sent.
//!
//! Paths are read as on Unix-like systems: `/` separates the components, empty
//! components and `.` say nothing, and `..` names no file. Where a system knows
//! other separators too, whoever runs the library takes the name out of such a
//! path first, by the rules of that system.

use vstd::prelude::*;

use crate::text;

verus! {

/// A piece between two slashes that says nothing: the empty one and `.`.
pub open spec fn says_nothing(piece: Seq<char>) -> bool {
    piece.len() == 0 || piece == seq!['.']
}

/// The components of a path: the pieces between its slashes, without those that
/// say nothing.
pub open spec fn components(path: Seq<char>) -> Seq<Seq<char>>
    decreases path.len(),
{
    let slash = text::last_index_of(path, '/');
    let before = if 0 <= slash < path.len() {
        components(path.take(slash))
    } else {
        Seq::empty()
    };
    let piece = path.skip(slash + 1);
    if says_nothing(piece) {
        before
    } else {
        before.push(piece)
    }
}

/// The file that a path names: its last component. A path without components
/// names none, and neither does one that ends in `..`.
pub open spec fn named_file(path: Seq<char>) -> Option<Seq<char>> {
    let parts = components(path);
    if parts.len() == 0 || parts.last() == seq!['.', '.'] {
        None
    } else {
        Some(parts.last())
    }
}

/// A name that stands for one entry of a directory: not empty, without a slash,
/// and neither `.` nor `..`.
pub open spec fn is_plain(name: Seq<char>) -> bool {
    &&& name.len() > 0
    &&& !name.contains('/')
    &&& name != seq!['.']
    &&& name != seq!['.', '.']
}

/// The name under which a file offered as `name` is saved.
pub open spec fn sanitized(name: Seq<char>) -> Seq<char> {
    match named_file(name) {
        Some(file) => file,
        None => "received.bin"@,
    }
}

/// Every component of a path holds at least one character, holds no slash and is
/// not `.`.
pub proof fn lemma_components(path: Seq<char>)
    ensures
        forall|k: int| 0 <= k < components(path).len() ==> {
            let part = #[trigger] components(path)[k];
            part.len() > 0 && !part.contains('/') && part != seq!['.']
        },
    decreases path.len(),
{
    text::lemma_last_index_of(path, '/');
    let slash = text::last_index_of(path, '/');
    let before = if slash >= 0 {
        components(path.take(slash))
    } else {
        Seq::empty()
    };
    if slash >= 0 {
        lemma_components(path.take(slash));
    }
    let piece = path.skip(slash + 1);
    assert(!piece.contains('/'));
    assert forall|k: int| 0 <= k < components(path).len() implies {
        let part = #[trigger] components(path)[k];
        part.len() > 0 && !part.contains('/') && part != seq!['.']
    } by {
        if k < before.len() {
            assert(components(path)[k] == before[k]);
        } else {
            assert(components(path)[k] == piece);
        }
    }
}

/// Whatever the peer sent, the saved name stands for one entry of the
/// destination directory: no path component survives.
pub proof fn sanitized_is_plain(name: Seq<char>)
    ensures
        is_plain(sanitized(name)),
        sanitized(name).len() > 0,
        forall|k: int| 0 <= k < sanitized(name).len() ==> sanitized(name)[k] != '/',
        sanitized(name) != seq!['.'],
        sanitized(name) != seq!['.', '.'],
{
    lemma_components(name);
    assert forall|k: int| 0 <= k < sanitized(name).len() && is_plain(sanitized(name)) implies
        sanitized(name)[k] != '/' by {
        assert(sanitized(name).contains(sanitized(name)[k]));
    }
    let parts = components(name);
    if named_file(name) is Some {
        assert(parts.last() == parts[parts.len() - 1]);
    } else {
        reveal_strlit("received.bin");
        assert("received.bin"@.len() == 12);
        assert("received.bin"@ =~= seq!['r', 'e', 'c', 'e', 'i', 'v', 'e', 'd', '.', 'b', 'i', 'n']);
    }
}

/// A name that is plain already is kept as it is.
pub proof fn sanitizing_keeps_plain_names(name: Seq<char>)
    requires
        is_plain(name),
    ensures
        sanitized(name) == name,
{
    assert forall|k: int| 0 <= k < name.len() implies name[k] != '/' by {
        assert(name.contains(name[k]));
    }
    text::lemma_last_index_of_unique(name, '/', -1);
    assert(name.skip(0) =~= name);
    assert(components(name) =~= seq![name]);
}

/// Cleaning a name twice does no more than cleaning it once.
pub proof fn sanitizing_is_idempotent(name: Seq<char>)
    ensures
        sanitized(sanitized(name)) == sanitized(name),
{
    sanitized_is_plain(name);
    sanitizing_keeps_plain_names(sanitized(name));
}

/// A path behind a directory has the directory's components, then its own.
pub proof fn components_behind_a_directory(dir: Seq<char>, path: Seq<char>)
    ensures
        components(dir + seq!['/'] + path) == components(dir) + components(path),
    decreases path.len(),
{
    let whole = dir + seq!['/'] + path;
    let front = dir.len() as int + 1;
    text::lemma_last_index_of(path, '/');
    let slash = text::last_index_of(path, '/');
    assert forall|k: int| front + slash < k < whole.len() implies whole[k] != '/' by {
        assert(whole[k] == path[k - front]);
    }
    text::lemma_last_index_of_unique(whole, '/', front + slash);
    assert(whole.skip(front + slash + 1) =~= path.skip(slash + 1));
    if slash >= 0 {
        components_behind_a_directory(dir, path.take(slash));
        assert(whole.take(front + slash) =~= dir + seq!['/'] + path.take(slash));
    } else {
        assert(whole.take(front + slash) =~= dir);
    }
    assert(components(whole) =~= components(dir) + components(path));
}

/// Directories in front of a path that has a component do not matter, whatever
/// they are.
pub proof fn directories_are_stripped(dir: Seq<char>, path: Seq<char>)
    requires
        components(path).len() > 0,
    ensures
        named_file(dir + seq!['/'] + path) == named_file(path),
        sanitized(dir + seq!['/'] + path) == sanitized(path),
{
    components_behind_a_directory(dir, path);
    assert((components(dir) + components(path)).last() == components(path).last());
}

/// A path without a slash names the file of that name. The empty path, `.` and `..`
/// name none, and what is offered under them is saved as `received.bin`.
pub proof fn single_piece_names_itself(piece: Seq<char>)
    requires
        forall|k: int| 0 <= k < piece.len() ==> piece[k] != '/',
    ensures
        if piece.len() == 0 || piece == seq!['.'] || piece == seq!['.', '.'] {
            named_file(piece) is None && sanitized(piece) == "received.bin"@
        } else {
            named_file(piece) == Some(piece) && sanitized(piece) == piece
        },
{
    text::lemma_last_index_of_unique(piece, '/', -1);
    assert(piece.skip(0) =~= piece);
    if piece.len() == 0 || piece == seq!['.'] {
        assert(components(piece) =~= Seq::<Seq<char>>::empty());
    } else {
        assert(components(piece) =~= seq![piece]);
        assert(components(piece).last() == piece);
    }
}

/// Behind a slash, the last piece of a path decides. A trailing slash and a trailing
/// `/.` change nothing, behind `/..` no file is named, and any other piece is the
/// name, whole.
pub proof fn last_piece_decides(dir: Seq<char>, piece: Seq<char>)
    requires
        forall|k: int| 0 <= k < piece.len() ==> piece[k] != '/',
    ensures
        ({
            let path = dir + seq!['/'] + piece;
            if piece.len() == 0 || piece == seq!['.'] {
                named_file(path) == named_file(dir) && sanitized(path) == sanitized(dir)
            } else if piece == seq!['.', '.'] {
                named_file(path) is None && sanitized(path) == "received.bin"@
            } else {
                named_file(path) == Some(piece) && sanitized(path) == piece
            }
        }),
{
    let path = dir + seq!['/'] + piece;
    let front = dir.len() as int;
    assert forall|k: int| front < k < path.len() implies path[k] != '/' by {
        assert(path[k] == piece[k - front - 1]);
    }
    text::lemma_last_index_of_unique(path, '/', front);
    assert(path.skip(front + 1) =~= piece);
    assert(path.take(front) =~= dir);
    if !(piece.len() == 0 || piece == seq!['.']) {
        assert(components(path) =~= components(dir).push(piece));
        assert(components(path).last() == piece);
    }
}

/// The file that `path` names: its last component, if there is one and it is not
/// `..`.
pub fn file_name(path: &str) -> (r: Option<String>)
    ensures
        match r {
            Some(name) => named_file(path@) == Some(name@),
            None => named_file(path@) is None,
        },
{
    let v = text::chars_of(path);
    let mut end: usize = v.len();
    assert(v@.take(end as int) =~= path@);
    loop
        invariant
            v@ == path@,
            end <= v.len(),
            named_file(v@.take(end as int)) == named_file(path@),
        decreases end,
    {
        let mut start: usize = end;
        while start > 0 && v[start - 1] != '/'
            invariant
                start <= end <= v.len(),
                forall|k: int| start <= k < end ==> v@[k] != '/',
            decreases start,
        {
            start = start - 1;
        }
        let ghost seen = v@.take(end as int);
        let ghost piece = v@.subrange(start as int, end as int);
        proof {
            text::lemma_last_index_of_unique(seen, '/', start - 1);
            assert(seen.skip(start as int) =~= piece);
            if start > 0 {
                assert(seen.take(start - 1) =~= v@.take(start - 1));
            }
        }
        if end == start || (end - start == 1 && v[start] == '.') {
            assert(end != start ==> piece =~= seq!['.']);
            if start == 0 {
                assert(components(seen) =~= Seq::<Seq<char>>::empty());
                return None;
            }
            end = start - 1;
        } else {
            assert(end - start == 1 ==> piece[0] != '.');
            assert(components(seen).last() == piece);
            if end - start == 2 && v[start] == '.' && v[start + 1] == '.' {
                assert(piece =~= seq!['.', '.']);
                return None;
            }
            assert(piece.len() == 2 ==> piece[0] != '.' || piece[1] != '.');
            return Some(path.substring_char(start, end).to_owned());
        }
    }
}

/// Strips any path components that the sender may have put into the file name,
/// and falls back to `received.bin` where no name is left.
pub fn sanitize_file_name(name: &str) -> (r: String)
    ensures
        r@ == sanitized(name@),
{
    match file_name(name) {
        Some(file) => file,
        None => "received.bin".to_owned(),
    }
}

} // verus!
