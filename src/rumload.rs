//! The program format: a byte sequence of whole big-endian 32-bit words.
use vstd::prelude::*;
use crate::state::Fault;

verus! {

/// The word whose bytes, most significant first, are `b0`, `b1`, `b2`, `b3`.
pub open spec fn be_word(b0: u8, b1: u8, b2: u8, b3: u8) -> u32 {
    (b0 * 0x100_0000 + b1 * 0x1_0000 + b2 * 0x100 + b3) as u32
}

/// The words of a program image whose length is a multiple of four.
pub open spec fn program_words(bytes: Seq<u8>) -> Seq<u32> {
    Seq::new(
        bytes.len() / 4,
        |i: int| be_word(bytes[4 * i], bytes[4 * i + 1], bytes[4 * i + 2], bytes[4 * i + 3]),
    )
}

/// The instruction words of a program image; an image whose length is not a
/// multiple of four is malformed.
pub fn words_from_bytes(bytes: &[u8]) -> (r: Result<Vec<u32>, Fault>)
    ensures
        bytes@.len() % 4 == 0 ==> (r matches Ok(words) && words@ == program_words(bytes@)),
        bytes@.len() % 4 != 0 ==> r == Err::<Vec<u32>, Fault>(Fault::MalformedProgram),
{
    if bytes.len() % 4 != 0 {
        return Err(Fault::MalformedProgram);
    }
    let len = bytes.len();
    let n = len / 4;
    let mut words: Vec<u32> = Vec::with_capacity(n);
    let mut i: usize = 0;
    while i < n
        invariant
            len == bytes@.len(),
            n == len / 4,
            bytes@.len() % 4 == 0,
            i <= n,
            words@ == program_words(bytes@).subrange(0, i as int),
        decreases n - i,
    {
        assert(4 * i + 3 < bytes@.len());
        let j = 4 * i;
        let w = (bytes[j] as u32) * 0x100_0000 + (bytes[j + 1] as u32) * 0x1_0000
            + (bytes[j + 2] as u32) * 0x100 + (bytes[j + 3] as u32);
        words.push(w);
        i = i + 1;
        proof {
            assert(words@ =~= program_words(bytes@).subrange(0, i as int));
        }
    }
    proof {
        assert(words@ =~= program_words(bytes@));
    }
    Ok(words)
}

} // verus!
