//! Why an archive of chunks gives back the input: the decryptor reads the
//! entries in the order in which the encryptor wrote them.

use vstd::prelude::*;
use crate::archive::{
    archive_outcome, archive_plaintext, packed_entries, zip_listing, ArchiveEntryView, EntryFault,
    WrittenEntry,
};
use crate::chunking::{chunk_len, chunk_plaintext, chunks_encrypt, well_chunked, Chunk};
use crate::cipher::{decrypted, lemma_block_round_trip, undoes_encryption};
use crate::keys::PrivateKeyView;
use crate::names::lemma_entry_name_is_a_file;

verus! {

/// The reader reports the entries that were written, in their order, each
/// under its name and with its contents.
pub open spec fn reads_back(entries: Seq<ArchiveEntryView>, written: Seq<WrittenEntry>) -> bool {
    &&& entries.len() == written.len()
    &&& forall|i: int|
        0 <= i < entries.len() ==> {
            &&& (#[trigger] entries[i]).reachable
            &&& entries[i].name == written[i].name
            &&& entries[i].data == Some(written[i].data)
        }
}

/// Bytes of an input of `len` bytes that lie before the chunk at index `n`.
pub open spec fn covered(n: nat, len: nat, chunk_size: nat) -> nat {
    if n * chunk_size > len {
        len
    } else {
        n * chunk_size
    }
}

proof fn lemma_chunk_bounds(n: nat, len: nat, chunk_size: nat)
    requires
        chunk_size > 0,
        n <= len / chunk_size,
    ensures
        n * chunk_size <= len,
        covered(n, len, chunk_size) == n * chunk_size,
        covered(n + 1, len, chunk_size) == n * chunk_size + chunk_len(n, len, chunk_size),
        n == len / chunk_size ==> covered(n + 1, len, chunk_size) == len,
{
    assert(n * chunk_size <= len) by (nonlinear_arith)
        requires
            chunk_size > 0,
            n <= len / chunk_size,
    ;
    assert((n + 1) * chunk_size == n * chunk_size + chunk_size) by (nonlinear_arith);
    if n == len / chunk_size {
        assert((n + 1) * chunk_size > len) by (nonlinear_arith)
            requires
                chunk_size > 0,
                n == len / chunk_size,
        ;
    }
}

proof fn lemma_prefix_reassembles(
    key: PrivateKeyView,
    input: Seq<u8>,
    chunk_size: nat,
    block: nat,
    output: Seq<char>,
    chunks: Seq<Chunk>,
    entries: Seq<ArchiveEntryView>,
    n: nat,
)
    requires
        chunk_size > 0,
        well_chunked(chunks, input.len(), chunk_size, block),
        forall|i: int|
            0 <= i < chunks.len() ==> decrypted(key, (#[trigger] chunks[i]).ciphertext@)
                == Some(chunk_plaintext(input, chunks[i])),
        reads_back(entries, packed_entries(output, chunks)),
        n <= chunks.len(),
    ensures
        archive_plaintext(key, entries.take(n as int + 1)) == Ok::<Seq<u8>, EntryFault>(
            input.subrange(0, covered(n, input.len(), chunk_size) as int),
        ),
    decreases n,
{
    let len = input.len();
    let head = entries.take(n as int + 1);
    if n == 0 {
        assert(0 * chunk_size == 0) by (nonlinear_arith);
        assert(Seq::<u8>::empty() + Seq::<u8>::empty() =~= input.subrange(0, 0));
    } else {
        let k = (n - 1) as nat;
        lemma_prefix_reassembles(key, input, chunk_size, block, output, chunks, entries, k);
        assert(head.drop_last() =~= entries.take(k as int + 1));
        lemma_chunk_bounds(k, len, chunk_size);
        let chunk = chunks[k as int];
        let before = input.subrange(0, covered(k, len, chunk_size) as int);
        assert(archive_plaintext(key, head.drop_last()) == Ok::<Seq<u8>, EntryFault>(before));
        lemma_entry_name_is_a_file(output, chunk.number as nat);
        let part = chunk_plaintext(input, chunk);
        assert(before + part =~= input.subrange(0, covered(n, len, chunk_size) as int));
    }
}

/// A chunked input comes back whole: where `chunks` is the chunking of
/// `input` with each ciphertext an encryption of the bytes that its chunk
/// covers, decryption under `key` undoes encryption, and `bytes` is an
/// archive in which the reader finds the entries that were packed for the
/// chunks, the plaintext of the archive is `input`.
pub proof fn lemma_chunks_reassemble(
    key: PrivateKeyView,
    input: Seq<u8>,
    output: Seq<char>,
    chunks: Seq<Chunk>,
    bytes: Seq<u8>,
)
    requires
        key.public().capacity() > 0,
        well_chunked(chunks, input.len(), key.public().capacity(), key.public().size()),
        chunks_encrypt(chunks, key.public(), input),
        undoes_encryption(key),
        zip_listing(bytes) matches Some(entries) && reads_back(
            entries,
            packed_entries(output, chunks),
        ),
    ensures
        archive_outcome(key, bytes) == Ok::<Seq<u8>, EntryFault>(input),
{
    let entries = zip_listing(bytes)->Some_0;
    let count = chunks.len();
    let chunk_size = key.public().capacity();
    assert forall|i: int| 0 <= i < chunks.len() implies decrypted(
        key,
        (#[trigger] chunks[i]).ciphertext@,
    ) == Some(chunk_plaintext(input, chunks[i])) by {
        lemma_block_round_trip(key, chunk_plaintext(input, chunks[i]), chunks[i].ciphertext@);
    }
    lemma_prefix_reassembles(
        key,
        input,
        chunk_size,
        key.public().size(),
        output,
        chunks,
        entries,
        count,
    );
    lemma_chunk_bounds((count - 1) as nat, input.len(), chunk_size);
    assert(entries.take(count as int + 1) =~= entries);
    assert(input.subrange(0, input.len() as int) =~= input);
}

proof fn lemma_chunk_ends(i: nat, len: nat, chunk_size: nat)
    requires
        chunk_size > 0,
        i <= len / chunk_size,
    ensures
        chunk_len(i, len, chunk_size) <= chunk_size,
        i < len / chunk_size ==> i * chunk_size + chunk_len(i, len, chunk_size) == (i + 1)
            * chunk_size,
        i == len / chunk_size ==> i * chunk_size + chunk_len(i, len, chunk_size) == len,
{
    lemma_chunk_bounds(i, len, chunk_size);
    if i < len / chunk_size {
        lemma_chunk_bounds(i + 1, len, chunk_size);
    }
}

/// The chunks of a chunking cover the input from its first byte to its
/// last, each starting where the one before ended and none longer than the
/// chunk size: their plaintexts, joined in the order of their numbers, are
/// the input.
pub proof fn lemma_chunks_partition(input: Seq<u8>, chunk_size: nat, block: nat, chunks: Seq<Chunk>)
    requires
        chunk_size > 0,
        well_chunked(chunks, input.len(), chunk_size, block),
    ensures
        chunks.len() >= 1,
        chunks[0].offset == 0,
        forall|i: int|
            0 <= i < chunks.len() - 1 ==> (#[trigger] chunks[i]).offset + chunks[i].len == chunks[i
                + 1].offset,
        chunks.last().offset + chunks.last().len == input.len(),
        forall|i: int| 0 <= i < chunks.len() ==> (#[trigger] chunks[i]).len <= chunk_size,
{
    let len = input.len();
    assert(0 * chunk_size == 0) by (nonlinear_arith);
    assert forall|i: int| 0 <= i < chunks.len() - 1 implies (#[trigger] chunks[i]).offset
        + chunks[i].len == chunks[i + 1].offset by {
        lemma_chunk_ends(i as nat, len, chunk_size);
    }
    assert forall|i: int| 0 <= i < chunks.len() implies (#[trigger] chunks[i]).len <= chunk_size by {
        lemma_chunk_ends(i as nat, len, chunk_size);
    }
    lemma_chunk_ends((chunks.len() - 1) as nat, len, chunk_size);
}

} // verus!
