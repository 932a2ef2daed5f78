//! The binary program image: machine words as big-endian bytes, and the ROM
//! that an image loads into.
use vstd::prelude::*;

verus! {

/// The most bytes an image may hold: 256 words of two bytes.
pub const MAX_IMAGE_BYTES: usize = 512;

/// The bytes of a sequence of words: each word as its high byte, then its
/// low byte, with nothing before, between or after.
pub open spec fn image_of(words: Seq<u16>) -> Seq<u8> {
    Seq::new(
        2 * words.len(),
        |k: int|
            if k % 2 == 0 {
                (words[k / 2] / 256) as u8
            } else {
                (words[k / 2] % 256) as u8
            },
    )
}

/// The ROM that an image loads into: one word for each whole pair of bytes
/// (a last odd byte is ignored), zero in the rest of the 256 words.
pub open spec fn rom_of(bytes: Seq<u8>) -> Seq<u16> {
    Seq::new(
        256,
        |i: int|
            if i < bytes.len() / 2 {
                (bytes[2 * i] as int * 256 + bytes[2 * i + 1] as int) as u16
            } else {
                0u16
            },
    )
}

/// Serialises words into a program image (see `image_of`).
pub fn image_bytes(words: &Vec<u16>) -> (r: Vec<u8>)
    requires
        words.len() <= MAX_IMAGE_BYTES / 2,
    ensures
        r@ == image_of(words@),
{
    let mut out: Vec<u8> = Vec::new();
    let mut i: usize = 0;
    while i < words.len()
        invariant
            i <= words.len() <= MAX_IMAGE_BYTES / 2,
            out@.len() == 2 * i,
            forall|k: int| 0 <= k < 2 * i ==> out@[k] == #[trigger] image_of(words@)[k],
        decreases words.len() - i,
    {
        let w = words[i];
        out.push((w / 256) as u8);
        out.push((w % 256) as u8);
        assert forall|k: int| 0 <= k < 2 * (i + 1) implies out@[k] == #[trigger] image_of(
            words@,
        )[k] by {
            if k >= 2 * i {
                assert(k / 2 == i);
            }
        }
        i += 1;
    }
    assert(out@ == image_of(words@));
    out
}

/// Loads a program image into a ROM (see `rom_of`); `None` when the image
/// holds more than 512 bytes.
pub fn load_rom(bytes: &[u8]) -> (r: Option<[u16; 256]>)
    ensures
        r is None <==> bytes@.len() > MAX_IMAGE_BYTES,
        r matches Some(rom) ==> rom@ == rom_of(bytes@),
{
    if bytes.len() > MAX_IMAGE_BYTES {
        return None;
    }
    let mut rom = [0u16; 256];
    let n = bytes.len() / 2;
    let mut i: usize = 0;
    while i < n
        invariant
            n == bytes@.len() / 2,
            n <= 256,
            i <= n,
            rom@.len() == 256,
            forall|k: int| 0 <= k < i ==> rom@[k] == #[trigger] rom_of(bytes@)[k],
            forall|k: int| i <= k < 256 ==> rom@[k] == 0,
        decreases n - i,
    {
        rom[i] = bytes[2 * i] as u16 * 256 + bytes[2 * i + 1] as u16;
        i += 1;
    }
    assert(rom@ == rom_of(bytes@));
    Some(rom)
}

/// An image of at most 256 words loads back into those words, followed by zeros.
pub proof fn lemma_image_round_trip(words: Seq<u16>)
    requires
        words.len() <= 256,
    ensures
        forall|i: int|
            0 <= i < 256 ==> #[trigger] rom_of(image_of(words))[i] == if i < words.len() {
                words[i]
            } else {
                0u16
            },
{
    assert forall|i: int| 0 <= i < 256 implies #[trigger] rom_of(image_of(words))[i] == if i
        < words.len() {
        words[i]
    } else {
        0u16
    } by {
        if i < words.len() {
            let w = words[i];
            assert((2 * i) / 2 == i && (2 * i + 1) / 2 == i);
            assert((2 * i) % 2 == 0 && (2 * i + 1) % 2 == 1);
            assert(((w / 256) as u8) as int * 256 + ((w % 256) as u8) as int == w);
        }
    }
}

} // verus!
