//! Decoding of the bytes that the audio input delivers.

use vstd::prelude::*;

verus! {

/// Number of bytes that one sample takes.
pub const BYTES_PER_SAMPLE: usize = 4;

/// The signed 32-bit number that four bytes stand for, the least significant
/// byte first.
pub open spec fn sample_of(b0: u8, b1: u8, b2: u8, b3: u8) -> int {
    let unsigned = b0 + 0x100 * b1 + 0x1_0000 * b2 + 0x100_0000 * b3;
    if unsigned >= 0x8000_0000 {
        unsigned - 0x1_0000_0000
    } else {
        unsigned
    }
}

/// Number of whole samples among the first `bytes_read` bytes of a buffer of
/// `len` bytes.
pub open spec fn samples_read(len: int, bytes_read: int) -> int {
    if bytes_read <= len {
        bytes_read / 4
    } else {
        len / 4
    }
}

/// The samples that the first `bytes_read` bytes of a buffer hold.
pub open spec fn decoded(audiobuffer: Seq<u8>, bytes_read: int) -> Seq<i32> {
    Seq::new(
        samples_read(audiobuffer.len() as int, bytes_read) as nat,
        |k: int|
            sample_of(
                audiobuffer[4 * k],
                audiobuffer[4 * k + 1],
                audiobuffer[4 * k + 2],
                audiobuffer[4 * k + 3],
            ) as i32,
    )
}

/// Puts four bytes together to a sample.
pub fn sample_from_le_bytes(b0: u8, b1: u8, b2: u8, b3: u8) -> (sample: i32)
    ensures
        sample == sample_of(b0, b1, b2, b3),
{
    let unsigned: i64 = b0 as i64 + 0x100 * (b1 as i64) + 0x1_0000 * (b2 as i64) + 0x100_0000 * (
    b3 as i64);
    if unsigned >= 0x8000_0000 {
        (unsigned - 0x1_0000_0000) as i32
    } else {
        unsigned as i32
    }
}

/// Decodes the samples that the audio input has written to the front of its
/// buffer. A sample is a signed 32-bit number, the least significant byte first;
/// bytes that do not make up a whole sample are left out.
pub fn read_audio_buffer(audiobuffer: &[u8], bytes_read: usize) -> (samples: Vec<i32>)
    ensures
        samples@ == decoded(audiobuffer@, bytes_read as int),
{
    let available: usize = if bytes_read <= audiobuffer.len() {
        bytes_read
    } else {
        audiobuffer.len()
    };
    let count: usize = available / BYTES_PER_SAMPLE;
    let mut samples: Vec<i32> = Vec::new();
    let mut k: usize = 0;
    while k < count
        invariant
            0 <= k <= count,
            count == samples_read(audiobuffer@.len() as int, bytes_read as int),
            4 * count <= audiobuffer@.len(),
            samples@.len() == k,
            forall|j: int|
                0 <= j < k ==> #[trigger] samples@[j] == decoded(audiobuffer@, bytes_read as int)[j],
        decreases count - k,
    {
        let at: usize = 4 * k;
        samples.push(
            sample_from_le_bytes(
                audiobuffer[at],
                audiobuffer[at + 1],
                audiobuffer[at + 2],
                audiobuffer[at + 3],
            ),
        );
        k += 1;
    }
    assert(samples@ =~= decoded(audiobuffer@, bytes_read as int));
    samples
}

} // verus!
