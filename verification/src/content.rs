//! Reading, overwriting and resizing the content of a file.

use vstd::prelude::*;
use vstd::slice::{slice_subrange, slice_to_vec};

verus! {

/// The `size` bytes of `content` from `offset` on, or as many of them as there are.
pub open spec fn range_of(content: Seq<u8>, offset: int, size: int) -> Seq<u8> {
    if 0 <= offset < content.len() {
        content.subrange(
            offset,
            if offset + size < content.len() {
                offset + size
            } else {
                content.len() as int
            },
        )
    } else {
        Seq::empty()
    }
}

/// `content` cut, or filled up with zeros, to `size` bytes.
pub open spec fn resized(content: Seq<u8>, size: nat) -> Seq<u8> {
    Seq::new(
        size,
        |i: int|
            if i < content.len() {
                content[i]
            } else {
                0u8
            },
    )
}

/// The end of `data` when it is put into a content at `offset`.
pub open spec fn end_of(offset: int, data: Seq<u8>) -> int {
    offset + data.len()
}

/// `content`, with enough zeros after it where needed, and with `data` in place of what was at
/// `offset`.
pub open spec fn overwritten(content: Seq<u8>, offset: int, data: Seq<u8>) -> Seq<u8> {
    let size = if content.len() < end_of(offset, data) {
        end_of(offset, data) as nat
    } else {
        content.len()
    };
    Seq::new(
        size,
        |i: int|
            if offset <= i < end_of(offset, data) {
                data[i - offset]
            } else {
                resized(content, size)[i]
            },
    )
}

/// The `size` bytes of `content` from `offset` on, or as many of them as there are.
pub fn read_content(content: &Vec<u8>, offset: i64, size: u32) -> (data: Vec<u8>)
    ensures
        data@ == range_of(content@, offset as int, size as int),
{
    if offset >= 0 && (offset as u64) < content.len() as u64 {
        let start = offset as usize;
        let end = if (size as u64) < (content.len() - start) as u64 {
            start + size as usize
        } else {
            content.len()
        };
        slice_to_vec(slice_subrange(content.as_slice(), start, end))
    } else {
        Vec::new()
    }
}

/// Cuts `content`, or fills it up with zeros, to `size` bytes.
pub fn resize_content(content: &mut Vec<u8>, size: u64)
    requires
        size <= isize::MAX,
    ensures
        final(content)@ == resized(old(content)@, size as nat),
{
    let ghost before = content@;
    content.resize(size as usize, 0);
    assert(content@ =~= resized(before, size as nat));
}

/// Puts `data` into `content` at `offset`, and tells whether the content has grown by it.
pub fn write_content(content: &mut Vec<u8>, offset: i64, data: &Vec<u8>) -> (grown: bool)
    requires
        0 <= offset,
        end_of(offset as int, data@) <= isize::MAX,
    ensures
        final(content)@ == overwritten(old(content)@, offset as int, data@),
        grown == (old(content)@.len() < end_of(offset as int, data@)),
{
    let ghost before = content@;
    let start = offset as usize;
    let end = start + data.len();
    let grown = content.len() < end;
    if grown {
        content.resize(end, 0);
    }
    let ghost base = content@;
    let mut i: usize = 0;
    while i < data.len()
        invariant
            i <= data@.len(),
            start + data@.len() <= base.len(),
            content@.len() == base.len(),
            base.len() <= usize::MAX,
            forall|j: int|
                0 <= j < base.len() ==> #[trigger] content@[j] == if start <= j < start + i {
                    data@[j - start]
                } else {
                    base[j]
                },
        decreases data@.len() - i,
    {
        content.set(start + i, data[i]);
        i = i + 1;
    }
    assert(content@ =~= overwritten(before, offset as int, data@));
    grown
}

/// What was written to a content is read from it at the same place.
pub proof fn law_read_after_write(content: Seq<u8>, offset: int, data: Seq<u8>)
    requires
        0 <= offset,
    ensures
        range_of(overwritten(content, offset, data), offset, data.len() as int) == data,
{
    let after = overwritten(content, offset, data);
    assert(range_of(after, offset, data.len() as int) =~= data);
}

/// A write changes no byte that was there before outside of the place that it is for, and a gap
/// between the old end and that place reads as zeros.
pub proof fn law_write_leaves_the_rest(content: Seq<u8>, offset: int, data: Seq<u8>, at: int)
    requires
        0 <= offset,
        0 <= at < overwritten(content, offset, data).len(),
        at < offset || end_of(offset, data) <= at,
    ensures
        overwritten(content, offset, data)[at] == (if at < content.len() {
            content[at]
        } else {
            0u8
        }),
        overwritten(content, offset, data).len() >= content.len(),
{
}

/// A read gives at most as many bytes as were asked for, and nothing from the end on.
pub proof fn law_read_is_bounded(content: Seq<u8>, offset: int, size: int)
    requires
        0 <= size,
    ensures
        range_of(content, offset, size).len() <= size,
        offset >= content.len() ==> range_of(content, offset, size).len() == 0,
        0 <= offset && offset + size <= content.len() ==> range_of(content, offset, size).len() == size,
{
}

/// A read of all that is there gives the whole content.
pub proof fn law_whole_content_is_read(content: Seq<u8>, size: int)
    requires
        content.len() <= size,
    ensures
        range_of(content, 0, size) == content,
{
    assert(range_of(content, 0, size) =~= content);
}

/// Resizing keeps what is left of the content, and what is new reads as zeros.
pub proof fn law_resize_keeps_the_start(content: Seq<u8>, size: nat, at: int)
    requires
        0 <= at < size,
    ensures
        resized(content, size).len() == size,
        resized(content, size)[at] == (if at < content.len() {
            content[at]
        } else {
            0u8
        }),
{
}

/// A read gives the bytes that stand at its offset, as many as were asked for or as there are.
pub proof fn law_range_holds_the_bytes(content: Seq<u8>, offset: int, size: int)
    requires
        0 <= size,
    ensures
        range_of(content, offset, size).len() == (if !(0 <= offset < content.len()) {
            0
        } else if size < content.len() - offset {
            size
        } else {
            content.len() - offset
        }),
        forall|i: int|
            0 <= i < range_of(content, offset, size).len() ==> #[trigger] range_of(
                content,
                offset,
                size,
            )[i] == content[offset + i],
{
}

/// A write puts its bytes at its offset, and the content ends where it ended or where the write does,
/// whichever is later.
pub proof fn law_write_puts_its_bytes(content: Seq<u8>, offset: int, data: Seq<u8>)
    requires
        0 <= offset,
    ensures
        overwritten(content, offset, data).len() == (if content.len() < offset + data.len() {
            offset + data.len()
        } else {
            content.len() as int
        }),
        forall|i: int|
            0 <= i < data.len() ==> #[trigger] overwritten(content, offset, data)[offset + i] == data[i],
        end_of(offset, data) == offset + data.len(),
{
}

} // verus!
