//! Splitting a plaintext that exceeds one block into chunks, each encrypted
//! on its own, with the chunk size halved whenever a chunk is refused as too
//! long.

use vstd::prelude::*;
use crate::cipher::{encrypts, pkcs1v15_encrypt, BlockError};
use crate::error::CryptError;
use crate::keys::{PublicKey, PublicKeyView};

verus! {

/// A chunk size that halving takes below this many bytes is given up.
pub const MIN_CHUNK_SIZE: usize = 10;

/// Where the chunking stands: the next chunk starts at `offset`, takes up to
/// `chunk_size` bytes and will be numbered `chunk_number`.
#[derive(Clone, Copy, Debug, PartialEq, Eq, Structural)]
pub struct ChunkCursor {
    pub offset: usize,
    pub chunk_size: usize,
    pub chunk_number: usize,
}

impl ChunkCursor {
    /// End of the window that the next chunk covers in an input of `len`
    /// bytes: `chunk_size` bytes from `offset`, or the rest where it is
    /// shorter.
    pub open spec fn window_end(self, len: nat) -> nat {
        if self.offset + self.chunk_size > len {
            len
        } else {
            (self.offset + self.chunk_size) as nat
        }
    }

    /// The cursor before the first chunk.
    pub fn start(chunk_size: usize) -> (cursor: ChunkCursor)
        ensures
            cursor == (ChunkCursor { offset: 0, chunk_size, chunk_number: 1 }),
    {
        ChunkCursor { offset: 0, chunk_size, chunk_number: 1 }
    }

    /// End of the next chunk's window in an input of `len` bytes.
    pub fn end(&self, len: usize) -> (end: usize)
        ensures
            end == self.window_end(len as nat),
            self.offset <= len ==> self.offset <= end <= len,
    {
        if self.offset > len || self.chunk_size > len - self.offset {
            len
        } else {
            self.offset + self.chunk_size
        }
    }

    /// The cursor after the chunk was refused as too long: the same chunk
    /// with half the size, or the permanent failure once that is under
    /// [`MIN_CHUNK_SIZE`]. `chunk_len` and `key_size` only describe the
    /// failure.
    pub fn after_too_long(self, chunk_len: usize, key_size: usize) -> (r: Result<
        ChunkCursor,
        CryptError,
    >)
        ensures
            match r {
                Ok(next) => self.chunk_size / 2 >= MIN_CHUNK_SIZE && next == (ChunkCursor {
                    chunk_size: self.chunk_size / 2,
                    ..self
                }),
                Err(e) => self.chunk_size / 2 < MIN_CHUNK_SIZE && e == (
                CryptError::ChunkEncryptionFailure {
                    chunk_number: self.chunk_number,
                    chunk_len,
                    key_size,
                }),
            },
    {
        let halved: usize = self.chunk_size / 2;
        if halved < MIN_CHUNK_SIZE {
            Err(
                CryptError::ChunkEncryptionFailure {
                    chunk_number: self.chunk_number,
                    chunk_len,
                    key_size,
                },
            )
        } else {
            Ok(ChunkCursor { offset: self.offset, chunk_size: halved, chunk_number: self.chunk_number })
        }
    }

    /// The cursor after the chunk was encrypted: `chunk_size` further and
    /// one number up while that does not pass the end of an input of `len`
    /// bytes; `None` once it does, and the chunking is complete.
    pub fn after_success(self, len: usize) -> (next: Option<ChunkCursor>)
        requires
            self.chunk_number < usize::MAX,
        ensures
            match next {
                Some(cursor) => self.offset + self.chunk_size <= len && cursor == (ChunkCursor {
                    offset: (self.offset + self.chunk_size) as usize,
                    chunk_size: self.chunk_size,
                    chunk_number: (self.chunk_number + 1) as usize,
                }),
                None => self.offset + self.chunk_size > len,
            },
    {
        if self.offset > len || self.chunk_size > len - self.offset {
            None
        } else {
            Some(
                ChunkCursor {
                    offset: self.offset + self.chunk_size,
                    chunk_size: self.chunk_size,
                    chunk_number: self.chunk_number + 1,
                },
            )
        }
    }
}

/// One encrypted chunk: `len` plaintext bytes from `offset`, encrypted on
/// their own. Chunks are numbered from 1 in the order of their offsets.
#[derive(Debug)]
pub struct Chunk {
    pub number: usize,
    pub offset: usize,
    pub len: usize,
    pub ciphertext: Vec<u8>,
}

/// Number of chunks that an input of `len` bytes gives at a fixed chunk
/// size: one per full chunk and one for the rest, which is empty where the
/// length is a multiple of the chunk size (an empty input gives one chunk).
pub open spec fn chunk_count(len: nat, chunk_size: nat) -> nat
    recommends
        chunk_size > 0,
{
    len / chunk_size + 1
}

/// Plaintext bytes in the chunk at `index` (from 0).
pub open spec fn chunk_len(index: nat, len: nat, chunk_size: nat) -> nat {
    if index * chunk_size + chunk_size > len {
        (len - index * chunk_size) as nat
    } else {
        chunk_size
    }
}

/// `chunks` is the chunking of an input of `len` bytes at a fixed chunk
/// size, under a key whose ciphertexts are `block` bytes long: numbers run
/// from 1 without a gap, each chunk starts where the one before ended, and
/// the last one ends the input.
pub open spec fn well_chunked(chunks: Seq<Chunk>, len: nat, chunk_size: nat, block: nat) -> bool {
    &&& chunks.len() == chunk_count(len, chunk_size)
    &&& forall|i: int|
        0 <= i < chunks.len() ==> {
            &&& (#[trigger] chunks[i]).number == i + 1
            &&& chunks[i].offset == i * chunk_size
            &&& chunks[i].len == chunk_len(i as nat, len, chunk_size)
            &&& chunks[i].ciphertext@.len() == block
        }
}

/// The bytes of `input` that `chunk` covers.
pub open spec fn chunk_plaintext(input: Seq<u8>, chunk: Chunk) -> Seq<u8> {
    input.subrange(chunk.offset as int, chunk.offset + chunk.len)
}

/// Every ciphertext of `chunks` is an encryption, under `key`, of the bytes
/// of `input` that its chunk covers.
pub open spec fn chunks_encrypt(chunks: Seq<Chunk>, key: PublicKeyView, input: Seq<u8>) -> bool {
    forall|i: int|
        0 <= i < chunks.len() ==> encrypts(
            key,
            chunk_plaintext(input, #[trigger] chunks[i]),
            chunks[i].ciphertext@,
        )
}

/// Encrypts `input` chunk by chunk, starting with chunks as large as the key
/// takes.
///
/// Under a usable key that takes at least one byte the result is the
/// chunking of the input at the key's capacity, each chunk holding an
/// encryption of the bytes that it covers. A key that is not usable
/// fails at the first chunk; a usable key without room for a single byte
/// gives up at the first chunk too.
pub fn encrypt_chunks(key: &PublicKey, input: &[u8]) -> (r: Result<Vec<Chunk>, CryptError>)
    requires
        input@.len() <= isize::MAX,
    ensures
        match r {
            Ok(chunks) => {
                &&& key@.usable()
                &&& key@.capacity() > 0
                &&& well_chunked(chunks@, input@.len(), key@.capacity(), key@.size())
                &&& chunks_encrypt(chunks@, key@, input@)
            },
            Err(CryptError::EncryptionFailure(_)) => !key@.usable(),
            Err(CryptError::ChunkEncryptionFailure { chunk_number, chunk_len, key_size }) => {
                &&& key@.usable()
                &&& key@.capacity() == 0
                &&& chunk_number == 1
                &&& chunk_len == 0
                &&& key_size == key@.size()
            },
            Err(_) => false,
        },
{
    let len: usize = input.len();
    let key_size: usize = key.size();
    let capacity: usize = key.capacity();
    let mut cursor = ChunkCursor::start(capacity);
    let mut chunks: Vec<Chunk> = Vec::new();
    assert(chunks@.len() * capacity == 0) by (nonlinear_arith)
        requires
            chunks@.len() == 0,
    ;
    loop
        invariant
            len == input@.len(),
            len <= isize::MAX,
            key_size == key@.size(),
            capacity == key@.capacity(),
            cursor.offset <= len,
            cursor.chunk_size == capacity,
            cursor.offset == chunks@.len() * capacity,
            cursor.chunk_number == chunks@.len() + 1,
            chunks@.len() <= cursor.offset,
            chunks_encrypt(chunks@, key@, input@),
            forall|i: int|
                0 <= i < chunks@.len() ==> {
                    &&& (#[trigger] chunks@[i]).number == i + 1
                    &&& chunks@[i].offset == i * capacity
                    &&& chunks@[i].len == chunk_len(i as nat, len as nat, capacity as nat)
                    &&& chunks@[i].ciphertext@.len() == key_size
                },
        decreases len - cursor.offset, cursor.chunk_size,
    {
        let end: usize = cursor.end(len);
        let chunk = &input[cursor.offset..end];
        match pkcs1v15_encrypt(key, chunk) {
            Ok(ciphertext) => {
                if cursor.chunk_size == 0 {
                    return Err(
                        CryptError::ChunkEncryptionFailure {
                            chunk_number: cursor.chunk_number,
                            chunk_len: end - cursor.offset,
                            key_size,
                        },
                    );
                }
                let ghost before = chunks@;
                chunks.push(
                    Chunk {
                        number: cursor.chunk_number,
                        offset: cursor.offset,
                        len: end - cursor.offset,
                        ciphertext,
                    },
                );
                proof {
                    let k = before.len() as int;
                    assert((k + 1) * capacity == k * capacity + capacity) by (nonlinear_arith);
                }
                match cursor.after_success(len) {
                    Some(next) => {
                        cursor = next;
                    },
                    None => {
                        proof {
                            let k = before.len() as int;
                            let c = capacity as int;
                            let l = len as int;
                            assert(l / c == k) by (nonlinear_arith)
                                requires
                                    c > 0,
                                    k >= 0,
                                    k * c <= l,
                                    l < k * c + c,
                            ;
                        }
                        return Ok(chunks);
                    },
                }
            },
            Err(BlockError::MessageTooLong) => {
                match cursor.after_too_long(end - cursor.offset, key_size) {
                    Ok(next) => {
                        cursor = next;
                    },
                    Err(failure) => {
                        return Err(failure);
                    },
                }
            },
            Err(BlockError::Other(cause)) => {
                return Err(CryptError::EncryptionFailure(cause));
            },
        }
    }
}

} // verus!
