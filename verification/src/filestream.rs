use vstd::prelude::*;

verus! {

/// The size of the buffer that a file is read into, in bytes.
pub const BUF_SIZE: usize = 8192;

/// The number of bytes of a buffer of `len` bytes that a read of `size`
/// bytes filled: `size`, and no more than the buffer holds.
pub open spec fn filled(len: nat, size: usize) -> int {
    if size <= len {
        size as int
    } else {
        len as int
    }
}

/// The chunk that a read into `buffer` gave, where the read reported `size`
/// bytes: the bytes that it filled, cut off behind them, and nothing where
/// it reported none, which is the end of the file.
pub fn chunk_of_read(buffer: Vec<u8>, size: usize) -> (r: Option<Vec<u8>>)
    ensures
        size == 0 ==> r is None,
        size > 0 ==> (r matches Some(chunk) && chunk@ == buffer@.take(
            filled(buffer@.len(), size),
        )),
{
    if size != 0 {
        let mut chunk = buffer;
        chunk.truncate(size);
        assert(chunk@ =~= buffer@.take(filled(buffer@.len(), size)));
        Some(chunk)
    } else {
        None
    }
}

} // verus!
