//! Byte ranges: which bytes of a file make up a chunk, and where a chunk
//! goes in the file that is rebuilt from chunks.
//!
//! Chunk `i` of a file cut every `c` bytes starts at byte `i * c` and holds
//! `c` bytes, or what is left of the file where that is less. The
//! destination is brought to its full size before the first chunk is
//! written, so chunks may be written in any order. Two writers must not
//! write the same destination at the same time.

use vstd::prelude::*;
use vstd::slice::{slice_subrange, slice_to_vec};
use crate::error::CdnError;
use crate::types::chunk_count_spec;

verus! {

/// The byte at which chunk `chunk_number` starts.
pub open spec fn chunk_offset(chunk_number: nat, chunk_size: nat) -> nat {
    chunk_number * chunk_size
}

/// Whether chunk `chunk_number` starts inside a file of `file_size` bytes or
/// right at its end.
pub open spec fn chunk_in_range(file_size: nat, chunk_number: nat, chunk_size: nat) -> bool {
    chunk_offset(chunk_number, chunk_size) <= file_size
}

/// The number of bytes of chunk `chunk_number`: a full chunk, or what the
/// file has left after the chunk's first byte.
pub open spec fn chunk_len(file_size: nat, chunk_number: nat, chunk_size: nat) -> nat {
    let left = file_size - chunk_offset(chunk_number, chunk_size);
    if left <= 0 {
        0
    } else if left < chunk_size {
        left as nat
    } else {
        chunk_size
    }
}

/// The bytes of chunk `chunk_number` of `file`.
pub open spec fn chunk_of(file: Seq<u8>, chunk_number: nat, chunk_size: nat) -> Seq<u8> {
    file.subrange(
        chunk_offset(chunk_number, chunk_size) as int,
        (chunk_offset(chunk_number, chunk_size) + chunk_len(file.len(), chunk_number, chunk_size))
            as int,
    )
}

/// Whether `len` bytes of chunk `chunk_num` fit a destination of `dest_len`
/// bytes.
pub open spec fn chunk_fits(dest_len: nat, chunk_num: nat, chunk_size: nat, len: nat) -> bool {
    chunk_offset(chunk_num, chunk_size) + len <= dest_len
}

/// `dest` with `data` written at the place of chunk `chunk_num`; every other
/// byte stays as it was.
pub open spec fn place(dest: Seq<u8>, chunk_num: nat, chunk_size: nat, data: Seq<u8>) -> Seq<u8> {
    let start = chunk_offset(chunk_num, chunk_size) as int;
    dest.take(start) + data + dest.skip(start + data.len())
}

/// `dest` after the first `n` chunks of `file` were written to it, each at
/// its place, in ascending order.
pub open spec fn assemble(dest: Seq<u8>, file: Seq<u8>, chunk_size: nat, n: nat) -> Seq<u8>
    decreases n,
{
    if n == 0 {
        dest
    } else {
        place(
            assemble(dest, file, chunk_size, (n - 1) as nat),
            (n - 1) as nat,
            chunk_size,
            chunk_of(file, (n - 1) as nat, chunk_size),
        )
    }
}

/// The number of bytes that the first `n` chunks of a file of `file_size`
/// bytes cover.
pub open spec fn covered(file_size: nat, chunk_size: nat, n: nat) -> nat {
    if n * chunk_size <= file_size {
        n * chunk_size
    } else {
        file_size
    }
}

/// Every chunk that an upload counts starts inside the file or right at its
/// end, and the chunks together cover the file.
pub proof fn lemma_counted_chunks_in_range(file_size: nat, chunk_size: nat, chunk_number: nat)
    requires
        chunk_size > 0,
        chunk_number < chunk_count_spec(file_size, chunk_size),
    ensures
        chunk_in_range(file_size, chunk_number, chunk_size),
        covered(file_size, chunk_size, chunk_count_spec(file_size, chunk_size)) == file_size,
{
    let full = file_size / chunk_size;
    assert(full * chunk_size <= file_size < (full + 1) * chunk_size) by (nonlinear_arith)
        requires
            chunk_size > 0,
            full == file_size / chunk_size,
    ;
    assert(chunk_number * chunk_size <= full * chunk_size) by (nonlinear_arith)
        requires
            chunk_number <= full,
    ;
}

/// A file whose size is a multiple of the chunk size has one chunk more than
/// it has full chunks, and that last chunk is empty.
pub proof fn lemma_exact_multiple_ends_empty(full: nat, chunk_size: nat)
    requires
        chunk_size > 0,
    ensures
        chunk_count_spec(full * chunk_size, chunk_size) == full + 1,
        chunk_in_range(full * chunk_size, full, chunk_size),
        chunk_len(full * chunk_size, full, chunk_size) == 0,
{
    assert((full * chunk_size) / chunk_size == full) by (nonlinear_arith)
        requires
            chunk_size > 0,
    ;
}

/// Writing the first `n` chunks of a file into a destination of the file's
/// size keeps that size, gives the destination the file's bytes as far as
/// the chunks reach, and leaves the rest as it was.
pub proof fn lemma_assemble_prefix(dest: Seq<u8>, file: Seq<u8>, chunk_size: nat, n: nat)
    requires
        chunk_size > 0,
        dest.len() == file.len(),
        n <= chunk_count_spec(file.len(), chunk_size),
    ensures
        assemble(dest, file, chunk_size, n).len() == file.len(),
        assemble(dest, file, chunk_size, n).take(covered(file.len(), chunk_size, n) as int)
            == file.take(covered(file.len(), chunk_size, n) as int),
        assemble(dest, file, chunk_size, n).skip(covered(file.len(), chunk_size, n) as int)
            == dest.skip(covered(file.len(), chunk_size, n) as int),
    decreases n,
{
    let size = file.len();
    if n == 0 {
        assert(0 * chunk_size == 0) by (nonlinear_arith);
        assert(covered(size, chunk_size, 0) == 0);
        assert(dest.take(0) =~= file.take(0));
    } else {
        let k = (n - 1) as nat;
        lemma_assemble_prefix(dest, file, chunk_size, k);
        lemma_counted_chunks_in_range(size, chunk_size, k);
        let before = assemble(dest, file, chunk_size, k);
        let start = chunk_offset(k, chunk_size);
        let len = chunk_len(size, k, chunk_size);
        let chunk = chunk_of(file, k, chunk_size);
        let after = place(before, k, chunk_size, chunk);
        assert(n * chunk_size == start + chunk_size) by (nonlinear_arith)
            requires
                n == k + 1,
                start == k * chunk_size,
        ;
        assert(covered(size, chunk_size, k) == start);
        assert(covered(size, chunk_size, n) == start + len);
        assert(chunk.len() == len);
        assert(after.len() == size);
        assert(after.take((start + len) as int) =~= file.take((start + len) as int)) by {
            assert forall|i: int| 0 <= i < start + len implies after[i] == file[i] by {
                if i < start {
                    assert(before.take(start as int)[i] == file.take(start as int)[i]);
                }
            }
        }
        assert(after.skip((start + len) as int) =~= dest.skip((start + len) as int)) by {
            assert forall|i: int| start + len <= i < size implies after[i] == dest[i] by {
                assert(before.skip(start as int)[i - start] == dest.skip(start as int)[i - start]);
            }
        }
    }
}

/// A file that is cut into chunks and put together again is the file it
/// was: writing all its chunks, each at its place, into a destination that
/// was brought to the file's size gives the file's bytes and the file's
/// length, whatever the destination held before.
pub proof fn lemma_round_trip(dest: Seq<u8>, file: Seq<u8>, chunk_size: nat)
    requires
        chunk_size > 0,
        dest.len() == file.len(),
    ensures
        assemble(dest, file, chunk_size, chunk_count_spec(file.len(), chunk_size)) == file,
{
    let n = chunk_count_spec(file.len(), chunk_size);
    lemma_assemble_prefix(dest, file, chunk_size, n);
    lemma_counted_chunks_in_range(file.len(), chunk_size, 0);
    let whole = assemble(dest, file, chunk_size, n);
    assert(whole.take(file.len() as int) =~= whole);
    assert(file.take(file.len() as int) =~= file);
}

/// Two chunks of different number can be written in either order: each
/// write touches the bytes of its own chunk only.
pub proof fn lemma_place_commutes(
    dest: Seq<u8>,
    chunk_size: nat,
    i: nat,
    a: Seq<u8>,
    j: nat,
    b: Seq<u8>,
)
    requires
        i != j,
        a.len() <= chunk_size,
        b.len() <= chunk_size,
        chunk_fits(dest.len(), i, chunk_size, a.len()),
        chunk_fits(dest.len(), j, chunk_size, b.len()),
    ensures
        place(place(dest, i, chunk_size, a), j, chunk_size, b) == place(
            place(dest, j, chunk_size, b),
            i,
            chunk_size,
            a,
        ),
{
    let si = chunk_offset(i, chunk_size);
    let sj = chunk_offset(j, chunk_size);
    if i < j {
        assert(si + chunk_size <= sj) by (nonlinear_arith)
            requires
                i < j,
                si == i * chunk_size,
                sj == j * chunk_size,
        ;
    } else {
        assert(sj + chunk_size <= si) by (nonlinear_arith)
            requires
                j < i,
                si == i * chunk_size,
                sj == j * chunk_size,
        ;
    }
    assert(place(place(dest, i, chunk_size, a), j, chunk_size, b) =~= place(
        place(dest, j, chunk_size, b),
        i,
        chunk_size,
        a,
    ));
}

/// The range of chunk `chunk_number` in a file of `file_size` bytes: its
/// first byte and its length. A chunk that would start beyond the end of
/// the file is refused; one that starts right at the end is empty.
pub fn chunk_span(file_size: u64, chunk_number: usize, chunk_size: usize) -> (span: Result<
    (u64, usize),
    CdnError,
>)
    ensures
        chunk_in_range(file_size as nat, chunk_number as nat, chunk_size as nat) ==> span == Ok::<
            (u64, usize),
            CdnError,
        >(
            (
                chunk_offset(chunk_number as nat, chunk_size as nat) as u64,
                chunk_len(file_size as nat, chunk_number as nat, chunk_size as nat) as usize,
            ),
        ),
        !chunk_in_range(file_size as nat, chunk_number as nat, chunk_size as nat) ==> span == Err::<
            (u64, usize),
            CdnError,
        >(CdnError::ChunkOutOfRange),
{
    let offset: u64 = match (chunk_number as u64).checked_mul(chunk_size as u64) {
        Some(offset) => offset,
        None => {
            return Err(CdnError::ChunkOutOfRange);
        },
    };
    if offset > file_size {
        return Err(CdnError::ChunkOutOfRange);
    }
    let left: u64 = file_size - offset;
    let len: usize = if left < chunk_size as u64 {
        left as usize
    } else {
        chunk_size
    };
    Ok((offset, len))
}

/// Reads chunk `chunk_number` out of `file`, the content of the source file.
/// A chunk that would start beyond the end of the file is refused; one that
/// starts right at the end is empty.
pub fn get_bytes_from_file(file: &[u8], chunk_number: usize, chunk_size: usize) -> (chunk: Result<
    Vec<u8>,
    CdnError,
>)
    ensures
        chunk_in_range(file@.len(), chunk_number as nat, chunk_size as nat) ==> chunk is Ok
            && chunk->Ok_0@ == chunk_of(file@, chunk_number as nat, chunk_size as nat),
        !chunk_in_range(file@.len(), chunk_number as nat, chunk_size as nat) ==> chunk == Err::<
            Vec<u8>,
            CdnError,
        >(CdnError::ChunkOutOfRange),
{
    match chunk_span(file.len() as u64, chunk_number, chunk_size) {
        Ok((offset, len)) => {
            let start: usize = offset as usize;
            Ok(slice_to_vec(slice_subrange(file, start, start + len)))
        },
        Err(e) => Err(e),
    }
}

/// Writes `src`, the bytes of chunk `chunk_num`, into `dest` at the chunk's
/// place, and leaves every other byte of `dest` as it was. A chunk that does
/// not fit into `dest` is refused, and `dest` stays as it was.
pub fn write_destination_file(dest: &mut [u8], src: &[u8], chunk_num: usize, chunk_size: usize) -> (done:
    Result<(), CdnError>)
    ensures
        final(dest)@.len() == old(dest)@.len(),
        chunk_fits(old(dest)@.len(), chunk_num as nat, chunk_size as nat, src@.len()) ==> done
            == Ok::<(), CdnError>(()) && final(dest)@ == place(
            old(dest)@,
            chunk_num as nat,
            chunk_size as nat,
            src@,
        ),
        !chunk_fits(old(dest)@.len(), chunk_num as nat, chunk_size as nat, src@.len()) ==> done
            == Err::<(), CdnError>(CdnError::ChunkOutOfRange) && final(dest)@ == old(dest)@,
{
    let size: usize = dest.len();
    let start: usize = match chunk_num.checked_mul(chunk_size) {
        Some(start) => start,
        None => {
            return Err(CdnError::ChunkOutOfRange);
        },
    };
    if start > size || src.len() > size - start {
        return Err(CdnError::ChunkOutOfRange);
    }
    let mut i: usize = 0;
    while i < src.len()
        invariant
            0 <= i <= src.len(),
            start + src.len() <= dest.len(),
            dest@.len() == old(dest)@.len(),
            dest@ == old(dest)@.take(start as int) + src@.take(i as int) + old(dest)@.skip(
                start + i,
            ),
        decreases src.len() - i,
    {
        dest[start + i] = src[i];
        assert(dest@ =~= old(dest)@.take(start as int) + src@.take(i + 1) + old(dest)@.skip(
            start + i + 1,
        ));
        i = i + 1;
    }
    assert(src@.take(i as int) =~= src@);
    Ok(())
}

} // verus!
