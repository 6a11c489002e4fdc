//! Turning an unresolved conflict into the content of an ordinary file.

use vstd::prelude::*;
use crate::objects::{Conflict, ConflictModel, FileId};
use crate::store::Store;

verus! {

pub const MARKER_START: u8 = 60;

pub const MARKER_REMOVED: u8 = 45;

pub const MARKER_ADDED: u8 = 43;

pub const MARKER_END: u8 = 62;

pub const NEWLINE: u8 = 10;

/// A marker line: seven times the byte, then a newline.
pub open spec fn marker(b: u8) -> Seq<u8> {
    seq![b, b, b, b, b, b, b, NEWLINE]
}

/// The content of one side; a file that the store lacks counts as empty.
pub open spec fn side_content(files: Seq<Seq<u8>>, id: FileId) -> Seq<u8> {
    if (id as int) < files.len() {
        files[id as int]
    } else {
        Seq::empty()
    }
}

/// The first `n` sides in order, each after a marker line of its own.
pub open spec fn sides(files: Seq<Seq<u8>>, ids: Seq<FileId>, n: int, b: u8) -> Seq<u8>
    decreases n,
{
    if n <= 0 {
        Seq::empty()
    } else {
        sides(files, ids, n - 1, b) + marker(b) + side_content(files, ids[n - 1])
    }
}

/// The file that stands for a conflict: a start line, every removed side,
/// every added side, an end line.
pub open spec fn materialized(files: Seq<Seq<u8>>, conflict: ConflictModel) -> Seq<u8> {
    marker(MARKER_START) + sides(files, conflict.removes, conflict.removes.len() as int, MARKER_REMOVED)
        + sides(files, conflict.adds, conflict.adds.len() as int, MARKER_ADDED) + marker(MARKER_END)
}

fn push_marker(buf: &mut Vec<u8>, b: u8)
    ensures
        final(buf)@ == old(buf)@ + marker(b),
{
    let mut i: usize = 0;
    while i < 7
        invariant
            i <= 7,
            buf@ == old(buf)@ + Seq::new(i as nat, |j: int| b),
        decreases 7 - i,
    {
        buf.push(b);
        i += 1;
        assert(buf@ =~= old(buf)@ + Seq::new(i as nat, |j: int| b));
    }
    buf.push(NEWLINE);
    assert(buf@ =~= old(buf)@ + marker(b));
}

fn push_bytes(buf: &mut Vec<u8>, bytes: &Vec<u8>)
    ensures
        final(buf)@ == old(buf)@ + bytes@,
{
    let mut i: usize = 0;
    while i < bytes.len()
        invariant
            i <= bytes.len(),
            buf@ == old(buf)@ + bytes@.take(i as int),
        decreases bytes.len() - i,
    {
        buf.push(bytes[i]);
        i += 1;
        assert(buf@ =~= old(buf)@ + bytes@.take(i as int));
    }
    assert(bytes@.take(bytes.len() as int) =~= bytes@);
}

fn push_sides(buf: &mut Vec<u8>, store: &Store, ids: &Vec<FileId>, b: u8)
    ensures
        final(buf)@ == old(buf)@ + sides(store@.files, ids@, ids@.len() as int, b),
{
    let mut i: usize = 0;
    assert(buf@ =~= old(buf)@ + sides(store@.files, ids@, 0, b));
    while i < ids.len()
        invariant
            i <= ids.len(),
            buf@ == old(buf)@ + sides(store@.files, ids@, i as int, b),
        decreases ids.len() - i,
    {
        let ghost before = buf@;
        push_marker(buf, b);
        let ghost mid = buf@;
        if let Some(content) = store.read_file(ids[i]) {
            push_bytes(buf, content);
        }
        proof {
            assert(buf@ =~= mid + side_content(store@.files, ids@[i as int]));
            assert(buf@ =~= old(buf)@ + sides(store@.files, ids@, i + 1, b));
        }
        i += 1;
    }
}

/// Writes out `conflict` as the content of one file.
pub fn materialize_conflict(store: &Store, conflict: &Conflict) -> (content: Vec<u8>)
    ensures
        content@ == materialized(store@.files, conflict@),
{
    let mut buf: Vec<u8> = Vec::new();
    push_marker(&mut buf, MARKER_START);
    push_sides(&mut buf, store, &conflict.removes, MARKER_REMOVED);
    push_sides(&mut buf, store, &conflict.adds, MARKER_ADDED);
    push_marker(&mut buf, MARKER_END);
    assert(buf@ =~= materialized(store@.files, conflict@));
    buf
}

} // verus!
