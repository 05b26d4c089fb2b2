//! Paths, and where the notes are. A path is the bytes of its name.
use vstd::prelude::*;
use vstd::utf8::encode_utf8;

verus! {

/// The byte that separates the parts of a path.
pub const SEPARATOR: u8 = 0x2f;

/// Where macOS apps keep per-user data, seen from the home directory.
pub const NOTES_DIR: &'static str = "Library/Application Support/focus";

/// The notes' database, seen from its directory.
pub const NOTES_DB: &'static str = "notes.sqlite";

/// `path`, seen from `base`. An absolute path is the same from everywhere.
pub open spec fn joined(base: Seq<u8>, path: Seq<u8>) -> Seq<u8> {
    if path.len() > 0 && path.first() == SEPARATOR {
        path
    } else if base.len() == 0 || base.last() == SEPARATOR {
        base + path
    } else {
        base.push(SEPARATOR) + path
    }
}

/// `path`, seen from `base`.
pub fn join(base: &Vec<u8>, path: &str) -> (r: Vec<u8>)
    ensures
        r@ == joined(base@, encode_utf8(path@)),
        encode_utf8(path@).len() > 0 && encode_utf8(path@)[0] == 0x2fu8 ==> r@ == encode_utf8(
            path@,
        ),
        !(encode_utf8(path@).len() > 0 && encode_utf8(path@)[0] == 0x2fu8) ==> r@ == base@ + (
        if base@.len() == 0 || base@.last() == 0x2fu8 {
            Seq::empty()
        } else {
            seq![0x2fu8]
        }) + encode_utf8(path@),
{
    let path = path.as_bytes();
    let mut r: Vec<u8> = Vec::new();
    if path.len() == 0 || path[0] != SEPARATOR {
        r.extend_from_slice(base.as_slice());
        assert(r@ =~= base@);
        if base.len() > 0 && base[base.len() - 1] != SEPARATOR {
            r.push(SEPARATOR);
        }
    }
    let ghost head = r@;
    r.extend_from_slice(path);
    assert(r@ =~= head + path@);
    assert(head.len() == 0 || path@.len() == 0 || path@[0] != SEPARATOR);
    r
}

/// The directory of the notes.
pub fn notes_dir(home: &Vec<u8>) -> (r: Vec<u8>)
    ensures
        r@ == joined(home@, encode_utf8(NOTES_DIR@)),
{
    join(home, NOTES_DIR)
}

/// The database of the notes, in their directory.
pub fn notes_db(dir: &Vec<u8>) -> (r: Vec<u8>)
    ensures
        r@ == joined(dir@, encode_utf8(NOTES_DB@)),
{
    join(dir, NOTES_DB)
}

/// A path seen from a directory is that path in it: the directory's name comes first, then a
/// separator if it does not end in one, then the path as it is. An absolute path stays as it is.
pub proof fn a_path_is_seen_in_its_base(base: Seq<u8>, path: Seq<u8>)
    ensures
        ({
            let whole = joined(base, path);
            let absolute = path.len() > 0 && path[0] == 0x2fu8;
            let gap: int = if base.len() == 0 || base.last() == 0x2fu8 {
                0
            } else {
                1
            };
            &&& absolute ==> whole == path
            &&& !absolute ==> whole.len() == base.len() + gap + path.len()
            &&& !absolute ==> whole.take(base.len() as int) == base
            &&& whole.skip(whole.len() - path.len()) == path
            &&& !absolute && gap == 1 ==> whole[base.len() as int] == 0x2fu8
        }),
{
    let whole = joined(base, path);
    assert(whole.skip(whole.len() - path.len()) =~= path);
    if !(path.len() > 0 && path[0] == SEPARATOR) {
        assert(whole.take(base.len() as int) =~= base);
    }
}

} // verus!
