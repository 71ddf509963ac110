//! Files that are dragged onto a fence: which effect the pointer announces, and
//! what a drop brings.

use crate::dragout::{
    files_in, hdrop_bytes, reader_finds_the_paths, units_in, DROPEFFECT_COPY, DROPEFFECT_MOVE,
    DROPEFFECT_NONE,
};
use crate::text::{texts, utf16, utf16_lossy};
use vstd::prelude::*;

verus! {

/// Takes what is dropped on a window.
#[derive(Clone, Copy, PartialEq, Eq, Structural, Debug)]
pub struct FenceDropTarget {
    pub hwnd: usize,
}

impl FenceDropTarget {
    /// Takes what is dropped on the window `hwnd`.
    pub fn new(hwnd: usize) -> (r: FenceDropTarget)
        ensures
            r.hwnd == hwnd,
    {
        FenceDropTarget { hwnd }
    }

    /// The effect that is announced when something is dragged in.
    pub fn drag_enter(&self, paths: &Vec<String>) -> (r: u32)
        ensures
            r == effect_of(paths@),
    {
        first_effect(paths)
    }

    /// The effect that is announced while something is dragged over.
    pub fn drag_over(&self) -> (r: u32)
        ensures
            r == DROPEFFECT_COPY,
    {
        DROPEFFECT_COPY
    }

    /// What a drop comes to: its effect, and the window that the files go to, if
    /// there are any.
    pub fn drop(&self, paths: &Vec<String>) -> (r: (u32, Option<usize>))
        ensures
            r == if paths@.len() == 0 {
                (DROPEFFECT_NONE, None)
            } else {
                (DROPEFFECT_MOVE, Some(self.hwnd))
            },
    {
        if paths.len() == 0 {
            (DROPEFFECT_NONE, None)
        } else {
            (DROPEFFECT_MOVE, Some(self.hwnd))
        }
    }
}

/// The effect that is announced for files: a copy, and none where there are none.
pub open spec fn effect_of(paths: Seq<String>) -> u32 {
    if paths.len() == 0 {
        DROPEFFECT_NONE
    } else {
        DROPEFFECT_COPY
    }
}

/// The effect that is announced for files.
pub fn first_effect(paths: &Vec<String>) -> (r: u32)
    ensures
        r == effect_of(paths@),
{
    if paths.len() == 0 {
        DROPEFFECT_NONE
    } else {
        DROPEFFECT_COPY
    }
}

/// The texts in buffers, each with as many code units as its length says.
pub open spec fn extracted(buffers: Seq<Seq<u16>>, lengths: Seq<usize>) -> Seq<Seq<char>> {
    Seq::new(buffers.len(), |i: int| utf16_lossy(buffers[i].take(lengths[i] as int)))
}

/// The paths in buffers that the system has filled, each with as many code units
/// as the system said.
pub fn extract_paths(buffers: &Vec<Vec<u16>>, lengths: &Vec<usize>) -> (r: Vec<String>)
    requires
        lengths@.len() == buffers@.len(),
        forall|i: int| 0 <= i < lengths@.len() ==> #[trigger] lengths@[i] <= buffers@[i]@.len(),
    ensures
        texts(r@) == extracted(buffers@.map_values(|b: Vec<u16>| b@), lengths@),
{
    let mut out: Vec<String> = Vec::new();
    let mut i: usize = 0;
    while i < buffers.len()
        invariant
            i <= buffers@.len(),
            lengths@.len() == buffers@.len(),
            forall|k: int|
                0 <= k < lengths@.len() ==> #[trigger] lengths@[k] <= buffers@[k]@.len(),
            out@.len() == i,
            forall|k: int|
                0 <= k < i ==> (#[trigger] out@[k])@ == utf16_lossy(
                    buffers@[k]@.take(lengths@[k] as int),
                ),
        decreases buffers@.len() - i,
    {
        assert(lengths@[i as int] <= buffers@[i as int]@.len());
        let units: &[u16] = vstd::slice::slice_subrange(buffers[i].as_slice(), 0, lengths[i]);
        assert(units@ == buffers@[i as int]@.take(lengths@[i as int] as int));
        out.push(String::from_utf16_lossy(units));
        i += 1;
    }
    assert(texts(out@) == extracted(buffers@.map_values(|b: Vec<u16>| b@), lengths@));
    out
}

/// The system reports the files in a block of memory: a buffer for each, in
/// their order, that begins with the file's path, and how long that is.
pub open spec fn reported(block: Seq<u8>, buffers: Seq<Seq<u16>>, lengths: Seq<usize>) -> bool {
    &&& buffers.len() == units_in(block).len()
    &&& lengths.len() == buffers.len()
    &&& forall|i: int|
        0 <= i < buffers.len() ==> lengths[i] <= (#[trigger] buffers[i]).len() && buffers[i].take(
            lengths[i] as int,
        ) == units_in(block)[i]
}

/// Files that are dragged out arrive as the same files in the same order where
/// they are dropped, unless a path is empty or holds a zero.
pub proof fn dragged_files_arrive(
    paths: Seq<Seq<char>>,
    buffers: Seq<Seq<u16>>,
    lengths: Seq<usize>,
)
    requires
        forall|i: int| 0 <= i < paths.len() ==> (#[trigger] paths[i]).len() > 0,
        forall|i: int, k: int|
            0 <= i < paths.len() && 0 <= k < paths[i].len() ==> #[trigger] paths[i][k] != '\0',
        reported(hdrop_bytes(paths), buffers, lengths),
    ensures
        extracted(buffers, lengths) == paths,
{
    reader_finds_the_paths(paths);
    let found = files_in(hdrop_bytes(paths));
    assert forall|i: int| 0 <= i < buffers.len() implies #[trigger] extracted(buffers, lengths)[i]
        == found[i] by {
        assert(buffers[i].take(lengths[i] as int) == units_in(hdrop_bytes(paths))[i]);
    }
    assert(extracted(buffers, lengths) == found);
}

/// A copy is announced as soon as there is a file, and nothing without one.
pub proof fn files_announce_a_copy(paths: Seq<String>)
    ensures
        effect_of(paths) == 1 <==> paths.len() > 0,
        effect_of(paths) == 0 <==> paths.len() == 0,
{
}

/// A path is read from its buffer up to its length: where the buffer begins with
/// the units of a text and the length is theirs, that text comes out, whatever
/// stands behind it.
pub proof fn paths_are_read_up_to_their_length(
    buffers: Seq<Seq<u16>>,
    lengths: Seq<usize>,
    i: int,
    path: Seq<char>,
    behind: Seq<u16>,
)
    requires
        0 <= i < buffers.len(),
        buffers[i] == utf16(path) + behind,
        lengths[i] == utf16(path).len(),
    ensures
        extracted(buffers, lengths).len() == buffers.len(),
        extracted(buffers, lengths)[i] == path,
{
    assert(buffers[i].take(lengths[i] as int) == utf16(path));
    crate::text::decoding_undoes_encoding(path);
}

} // verus!
