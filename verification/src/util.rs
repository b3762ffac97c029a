//! Packing of narrow values into 16- and 32-bit words, least significant
//! value first, and the way back.

use crate::error::FramingError;
use vstd::prelude::*;

verus! {

/// The 32-bit word that holds four bytes, `b0` in its lowest eight bits.
pub open spec fn word_of_bytes(b0: u8, b1: u8, b2: u8, b3: u8) -> u32 {
    (b0 + b1 * 0x100 + b2 * 0x1_0000 + b3 * 0x100_0000) as u32
}

/// The 16-bit word that holds two bytes, `b0` in its lowest eight bits.
pub open spec fn halfword_of_bytes(b0: u8, b1: u8) -> u16 {
    (b0 + b1 * 0x100) as u16
}

/// The 32-bit word that holds two 16-bit values, `h0` in its lower half.
pub open spec fn word_of_halfwords(h0: u16, h1: u16) -> u32 {
    (h0 + h1 * 0x1_0000) as u32
}

/// The 32-bit word that holds the low four bits of each of the eight values
/// from `at` on, the first in its lowest four bits.
pub open spec fn word_of_nibbles(input: Seq<u8>, at: int) -> u32 {
    (input[at] % 16 + (input[at + 1] % 16) * 0x10 + (input[at + 2] % 16) * 0x100 + (input[at + 3]
        % 16) * 0x1000 + (input[at + 4] % 16) * 0x1_0000 + (input[at + 5] % 16) * 0x10_0000 + (
    input[at + 6] % 16) * 0x100_0000 + (input[at + 7] % 16) * 0x1000_0000) as u32
}

/// Bytes packed four to a 32-bit word.
pub open spec fn packed_u8_u32(input: Seq<u8>) -> Seq<u32> {
    Seq::new(
        input.len() / 4,
        |j: int| word_of_bytes(input[4 * j], input[4 * j + 1], input[4 * j + 2], input[4 * j + 3]),
    )
}

/// Bytes packed two to a 16-bit word.
pub open spec fn packed_u8_u16(input: Seq<u8>) -> Seq<u16> {
    Seq::new(input.len() / 2, |j: int| halfword_of_bytes(input[2 * j], input[2 * j + 1]))
}

/// 16-bit values packed two to a 32-bit word.
pub open spec fn packed_u16_u32(input: Seq<u16>) -> Seq<u32> {
    Seq::new(input.len() / 2, |j: int| word_of_halfwords(input[2 * j], input[2 * j + 1]))
}

/// 4-bit values, each the low half of a byte, packed eight to a 32-bit word.
pub open spec fn packed_u4_u32(input: Seq<u8>) -> Seq<u32> {
    Seq::new(input.len() / 8, |j: int| word_of_nibbles(input, 8 * j))
}

/// Byte `i` of a 32-bit word, counted from its low end: bits `8 * i` to
/// `8 * i + 7`.
pub open spec fn byte_of_word(word: u32, i: int) -> u8 {
    if i == 0 {
        (word % 0x100) as u8
    } else if i == 1 {
        (word / 0x100 % 0x100) as u8
    } else if i == 2 {
        (word / 0x1_0000 % 0x100) as u8
    } else {
        (word / 0x100_0000) as u8
    }
}

/// Byte `i` of a 16-bit word, counted from its low end.
pub open spec fn byte_of_halfword(word: u16, i: int) -> u8 {
    if i == 0 {
        (word % 0x100) as u8
    } else {
        (word / 0x100) as u8
    }
}

/// Half `i` of a 32-bit word, counted from its low end.
pub open spec fn halfword_of_word(word: u32, i: int) -> u16 {
    if i == 0 {
        (word % 0x1_0000) as u16
    } else {
        (word / 0x1_0000) as u16
    }
}

/// The 4-bit value `i` of a 32-bit word, counted from its low end: bits
/// `4 * i` to `4 * i + 3`.
pub open spec fn nibble_of_word(word: u32, i: int) -> u8 {
    if i == 0 {
        (word % 0x10) as u8
    } else if i == 1 {
        (word / 0x10 % 0x10) as u8
    } else if i == 2 {
        (word / 0x100 % 0x10) as u8
    } else if i == 3 {
        (word / 0x1000 % 0x10) as u8
    } else if i == 4 {
        (word / 0x1_0000 % 0x10) as u8
    } else if i == 5 {
        (word / 0x10_0000 % 0x10) as u8
    } else if i == 6 {
        (word / 0x100_0000 % 0x10) as u8
    } else {
        (word / 0x1000_0000) as u8
    }
}

/// The bytes of a sequence of 32-bit words, four from each.
pub open spec fn unpacked_u32_u8(words: Seq<u32>) -> Seq<u8> {
    Seq::new(words.len() * 4, |i: int| byte_of_word(words[i / 4], i % 4))
}

/// The bytes of a sequence of 16-bit words, two from each.
pub open spec fn unpacked_u16_u8(words: Seq<u16>) -> Seq<u8> {
    Seq::new(words.len() * 2, |i: int| byte_of_halfword(words[i / 2], i % 2))
}

/// The 16-bit values of a sequence of 32-bit words, two from each.
pub open spec fn unpacked_u32_u16(words: Seq<u32>) -> Seq<u16> {
    Seq::new(words.len() * 2, |i: int| halfword_of_word(words[i / 2], i % 2))
}

/// The 4-bit values of a sequence of 32-bit words, eight from each.
pub open spec fn unpacked_u32_u4(words: Seq<u32>) -> Seq<u8> {
    Seq::new(words.len() * 8, |i: int| nibble_of_word(words[i / 8], i % 8))
}

/// Packs bytes four to a 32-bit word, the first byte lowest.
pub fn consolidate_u8_u32(input: Vec<u8>) -> (words: Vec<u32>)
    requires
        input@.len() % 4 == 0,
    ensures
        words@ == packed_u8_u32(input@),
{
    let n: usize = input.len() / 4;
    let mut words: Vec<u32> = Vec::with_capacity(n);
    let mut j: usize = 0;
    while j < n
        invariant
            j <= n,
            n == input@.len() / 4,
            input@.len() <= usize::MAX,
            input@.len() % 4 == 0,
            words@.len() == j,
            forall|k: int| 0 <= k < j ==> words@[k] == packed_u8_u32(input@)[k],
        decreases n - j,
    {
        let b0: u8 = input[4 * j];
        let b1: u8 = input[4 * j + 1];
        let b2: u8 = input[4 * j + 2];
        let b3: u8 = input[4 * j + 3];
        assert((b0 as u32) | (b1 as u32) << 8 | (b2 as u32) << 16 | (b3 as u32) << 24 == (b0 + b1
            * 0x100 + b2 * 0x1_0000 + b3 * 0x100_0000) as u32) by (bit_vector);
        words.push((b0 as u32) | (b1 as u32) << 8 | (b2 as u32) << 16 | (b3 as u32) << 24);
        j += 1;
    }
    words
}

/// Packs bytes two to a 16-bit word, the first byte lowest.
pub fn consolidate_u8_u16(input: Vec<u8>) -> (words: Vec<u16>)
    requires
        input@.len() % 2 == 0,
    ensures
        words@ == packed_u8_u16(input@),
{
    let n: usize = input.len() / 2;
    let mut words: Vec<u16> = Vec::with_capacity(n);
    let mut j: usize = 0;
    while j < n
        invariant
            j <= n,
            n == input@.len() / 2,
            input@.len() <= usize::MAX,
            input@.len() % 2 == 0,
            words@.len() == j,
            forall|k: int| 0 <= k < j ==> words@[k] == packed_u8_u16(input@)[k],
        decreases n - j,
    {
        let b0: u8 = input[2 * j];
        let b1: u8 = input[2 * j + 1];
        assert((b0 as u16) | (b1 as u16) << 8 == (b0 + b1 * 0x100) as u16) by (bit_vector);
        words.push((b0 as u16) | (b1 as u16) << 8);
        j += 1;
    }
    words
}

/// Packs 16-bit values two to a 32-bit word, the first value lowest.
pub fn consolidate_u16_u32(input: Vec<u16>) -> (words: Vec<u32>)
    requires
        input@.len() % 2 == 0,
    ensures
        words@ == packed_u16_u32(input@),
{
    let n: usize = input.len() / 2;
    let mut words: Vec<u32> = Vec::with_capacity(n);
    let mut j: usize = 0;
    while j < n
        invariant
            j <= n,
            n == input@.len() / 2,
            input@.len() <= usize::MAX,
            input@.len() % 2 == 0,
            words@.len() == j,
            forall|k: int| 0 <= k < j ==> words@[k] == packed_u16_u32(input@)[k],
        decreases n - j,
    {
        let h0: u16 = input[2 * j];
        let h1: u16 = input[2 * j + 1];
        assert((h0 as u32) | (h1 as u32) << 16 == (h0 + h1 * 0x1_0000) as u32) by (bit_vector);
        words.push((h0 as u32) | (h1 as u32) << 16);
        j += 1;
    }
    words
}

/// The low four bits of `low` below the low four bits of `high`.
fn join_nibbles(low: u8, high: u8) -> (byte: u8)
    ensures
        byte == low % 16 + (high % 16) * 16,
{
    assert((low & 0x0f) | (high & 0x0f) << 4 == low % 16 + (high % 16) * 16) by (bit_vector);
    (low & 0x0f) | (high & 0x0f) << 4
}

/// Packs 4-bit values eight to a 32-bit word, the first value lowest. Of
/// each input byte only the low four bits are taken.
pub fn consolidate_u4_u32(input: Vec<u8>) -> (words: Vec<u32>)
    requires
        input@.len() % 8 == 0,
    ensures
        words@ == packed_u4_u32(input@),
{
    let n: usize = input.len() / 8;
    let mut words: Vec<u32> = Vec::with_capacity(n);
    let mut j: usize = 0;
    while j < n
        invariant
            j <= n,
            n == input@.len() / 8,
            input@.len() <= usize::MAX,
            input@.len() % 8 == 0,
            words@.len() == j,
            forall|k: int| 0 <= k < j ==> words@[k] == packed_u4_u32(input@)[k],
        decreases n - j,
    {
        let b0: u8 = join_nibbles(input[8 * j], input[8 * j + 1]);
        let b1: u8 = join_nibbles(input[8 * j + 2], input[8 * j + 3]);
        let b2: u8 = join_nibbles(input[8 * j + 4], input[8 * j + 5]);
        let b3: u8 = join_nibbles(input[8 * j + 6], input[8 * j + 7]);
        assert((b0 as u32) | (b1 as u32) << 8 | (b2 as u32) << 16 | (b3 as u32) << 24 == (b0 + b1
            * 0x100 + b2 * 0x1_0000 + b3 * 0x100_0000) as u32) by (bit_vector);
        words.push((b0 as u32) | (b1 as u32) << 8 | (b2 as u32) << 16 | (b3 as u32) << 24);
        j += 1;
    }
    words
}

/// Packs bytes four to a 32-bit word where they fill whole words, and
/// refuses them where they do not.
pub fn pack_u8_u32(input: Vec<u8>) -> (result: Result<Vec<u32>, FramingError>)
    ensures
        match result {
            Ok(words) => input@.len() % 4 == 0 && words@ == packed_u8_u32(input@),
            Err(e) => input@.len() % 4 != 0 && e == (FramingError {
                length: input@.len() as usize,
                factor: 4,
            }),
        },
{
    if input.len() % 4 != 0 {
        return Err(FramingError { length: input.len(), factor: 4 });
    }
    Ok(consolidate_u8_u32(input))
}

/// Packs bytes two to a 16-bit word where they fill whole words, and refuses
/// them where they do not.
pub fn pack_u8_u16(input: Vec<u8>) -> (result: Result<Vec<u16>, FramingError>)
    ensures
        match result {
            Ok(words) => input@.len() % 2 == 0 && words@ == packed_u8_u16(input@),
            Err(e) => input@.len() % 2 != 0 && e == (FramingError {
                length: input@.len() as usize,
                factor: 2,
            }),
        },
{
    if input.len() % 2 != 0 {
        return Err(FramingError { length: input.len(), factor: 2 });
    }
    Ok(consolidate_u8_u16(input))
}

/// Packs 16-bit values two to a 32-bit word where they fill whole words, and
/// refuses them where they do not.
pub fn pack_u16_u32(input: Vec<u16>) -> (result: Result<Vec<u32>, FramingError>)
    ensures
        match result {
            Ok(words) => input@.len() % 2 == 0 && words@ == packed_u16_u32(input@),
            Err(e) => input@.len() % 2 != 0 && e == (FramingError {
                length: input@.len() as usize,
                factor: 2,
            }),
        },
{
    if input.len() % 2 != 0 {
        return Err(FramingError { length: input.len(), factor: 2 });
    }
    Ok(consolidate_u16_u32(input))
}

/// Packs 4-bit values eight to a 32-bit word where they fill whole words,
/// and refuses them where they do not.
pub fn pack_u4_u32(input: Vec<u8>) -> (result: Result<Vec<u32>, FramingError>)
    ensures
        match result {
            Ok(words) => input@.len() % 8 == 0 && words@ == packed_u4_u32(input@),
            Err(e) => input@.len() % 8 != 0 && e == (FramingError {
                length: input@.len() as usize,
                factor: 8,
            }),
        },
{
    if input.len() % 8 != 0 {
        return Err(FramingError { length: input.len(), factor: 8 });
    }
    Ok(consolidate_u4_u32(input))
}

/// Unpacks 32-bit words into bytes, the lowest byte of each word first.
pub fn expand_u32_u8(words: &Vec<u32>) -> (bytes: Vec<u8>)
    requires
        words@.len() * 4 <= usize::MAX,
    ensures
        bytes@ == unpacked_u32_u8(words@),
{
    let mut bytes: Vec<u8> = Vec::with_capacity(words.len() * 4);
    let mut j: usize = 0;
    while j < words.len()
        invariant
            j <= words@.len(),
            bytes@.len() == j * 4,
            forall|k: int| 0 <= k < j * 4 ==> bytes@[k] == unpacked_u32_u8(words@)[k],
        decreases words@.len() - j,
    {
        let w: u32 = words[j];
        assert((w & 0xff) as u8 == (w % 0x100) as u8) by (bit_vector);
        assert(((w >> 8) & 0xff) as u8 == (w / 0x100 % 0x100) as u8) by (bit_vector);
        assert(((w >> 16) & 0xff) as u8 == (w / 0x1_0000 % 0x100) as u8) by (bit_vector);
        assert((w >> 24) as u8 == (w / 0x100_0000) as u8) by (bit_vector);
        assert(w & 0xff < 0x100 && (w >> 8) & 0xff < 0x100 && (w >> 16) & 0xff < 0x100 && w >> 24
            < 0x100) by (bit_vector);
        bytes.push((w & 0xff) as u8);
        bytes.push(((w >> 8) & 0xff) as u8);
        bytes.push(((w >> 16) & 0xff) as u8);
        bytes.push((w >> 24) as u8);
        j += 1;
    }
    assert(bytes@ =~= unpacked_u32_u8(words@));
    bytes
}

/// Unpacks 16-bit words into bytes, the low byte of each word first.
pub fn expand_u16_u8(words: &Vec<u16>) -> (bytes: Vec<u8>)
    requires
        words@.len() * 2 <= usize::MAX,
    ensures
        bytes@ == unpacked_u16_u8(words@),
{
    let mut bytes: Vec<u8> = Vec::with_capacity(words.len() * 2);
    let mut j: usize = 0;
    while j < words.len()
        invariant
            j <= words@.len(),
            bytes@.len() == j * 2,
            forall|k: int| 0 <= k < j * 2 ==> bytes@[k] == unpacked_u16_u8(words@)[k],
        decreases words@.len() - j,
    {
        let w: u16 = words[j];
        assert((w & 0xff) as u8 == (w % 0x100) as u8) by (bit_vector);
        assert((w >> 8) as u8 == (w / 0x100) as u8) by (bit_vector);
        assert(w & 0xff < 0x100 && w >> 8 < 0x100) by (bit_vector);
        bytes.push((w & 0xff) as u8);
        bytes.push((w >> 8) as u8);
        j += 1;
    }
    assert(bytes@ =~= unpacked_u16_u8(words@));
    bytes
}

/// Unpacks 32-bit words into 16-bit values, the lower half of each word
/// first.
pub fn expand_u32_u16(words: &Vec<u32>) -> (halves: Vec<u16>)
    requires
        words@.len() * 2 <= usize::MAX,
    ensures
        halves@ == unpacked_u32_u16(words@),
{
    let mut halves: Vec<u16> = Vec::with_capacity(words.len() * 2);
    let mut j: usize = 0;
    while j < words.len()
        invariant
            j <= words@.len(),
            halves@.len() == j * 2,
            forall|k: int| 0 <= k < j * 2 ==> halves@[k] == unpacked_u32_u16(words@)[k],
        decreases words@.len() - j,
    {
        let w: u32 = words[j];
        assert((w & 0xffff) as u16 == (w % 0x1_0000) as u16) by (bit_vector);
        assert((w >> 16) as u16 == (w / 0x1_0000) as u16) by (bit_vector);
        assert(w & 0xffff < 0x1_0000 && w >> 16 < 0x1_0000) by (bit_vector);
        halves.push((w & 0xffff) as u16);
        halves.push((w >> 16) as u16);
        j += 1;
    }
    halves
}

/// Unpacks 32-bit words into 4-bit values, the lowest four bits of each
/// word first.
pub fn expand_u32_u4(words: &Vec<u32>) -> (nibbles: Vec<u8>)
    requires
        words@.len() * 8 <= usize::MAX,
    ensures
        nibbles@ == unpacked_u32_u4(words@),
{
    let mut nibbles: Vec<u8> = Vec::with_capacity(words.len() * 8);
    let mut j: usize = 0;
    while j < words.len()
        invariant
            j <= words@.len(),
            nibbles@.len() == j * 8,
            forall|k: int| 0 <= k < j * 8 ==> nibbles@[k] == unpacked_u32_u4(words@)[k],
        decreases words@.len() - j,
    {
        let w: u32 = words[j];
        let ghost before = nibbles@;
        assert((w & 0xf) as u8 == (w % 0x10) as u8 && ((w >> 4) & 0xf) as u8 == (w / 0x10 % 0x10) as u8
            && ((w >> 8) & 0xf) as u8 == (w / 0x100 % 0x10) as u8 && ((w >> 12) & 0xf) as u8 == (w
            / 0x1000 % 0x10) as u8 && ((w >> 16) & 0xf) as u8 == (w / 0x1_0000 % 0x10) as u8 && ((w
            >> 20) & 0xf) as u8 == (w / 0x10_0000 % 0x10) as u8 && ((w >> 24) & 0xf) as u8 == (w
            / 0x100_0000 % 0x10) as u8 && (w >> 28) as u8 == (w / 0x1000_0000) as u8)
            by (bit_vector);
        assert(w & 0xf < 0x10 && (w >> 4) & 0xf < 0x10 && (w >> 8) & 0xf < 0x10 && (w >> 12) & 0xf
            < 0x10 && (w >> 16) & 0xf < 0x10 && (w >> 20) & 0xf < 0x10 && (w >> 24) & 0xf < 0x10
            && w >> 28 < 0x10) by (bit_vector);
        nibbles.push((w & 0xf) as u8);
        nibbles.push(((w >> 4) & 0xf) as u8);
        nibbles.push(((w >> 8) & 0xf) as u8);
        nibbles.push(((w >> 12) & 0xf) as u8);
        nibbles.push(((w >> 16) & 0xf) as u8);
        nibbles.push(((w >> 20) & 0xf) as u8);
        nibbles.push(((w >> 24) & 0xf) as u8);
        nibbles.push((w >> 28) as u8);
        proof {
            let base = j as int * 8;
            assert forall|k: int| 0 <= k < base + 8 implies nibbles@[k] == unpacked_u32_u4(
                words@,
            )[k] by {
                if k < base {
                    assert(nibbles@[k] == before[k]);
                } else {
                    assert(k / 8 == j as int && k % 8 == k - base);
                }
            }
        }
        j += 1;
    }
    nibbles
}

/// Each byte of a word made of four bytes is the byte that went in.
proof fn lemma_bytes_of_word(b0: u8, b1: u8, b2: u8, b3: u8)
    by (bit_vector)
    ensures
        ({
            let w = (b0 + b1 * 0x100 + b2 * 0x1_0000 + b3 * 0x100_0000) as u32;
            &&& (w % 0x100) as u8 == b0
            &&& (w / 0x100 % 0x100) as u8 == b1
            &&& (w / 0x1_0000 % 0x100) as u8 == b2
            &&& (w / 0x100_0000) as u8 == b3
        }),
{
}

/// Each byte of a 16-bit word made of two bytes is the byte that went in.
proof fn lemma_bytes_of_halfword(b0: u8, b1: u8)
    by (bit_vector)
    ensures
        ({
            let w = (b0 + b1 * 0x100) as u16;
            &&& (w % 0x100) as u8 == b0
            &&& (w / 0x100) as u8 == b1
        }),
{
}

/// Each half of a word made of two 16-bit values is the value that went in.
proof fn lemma_halfwords_of_word(h0: u16, h1: u16)
    by (bit_vector)
    ensures
        ({
            let w = (h0 + h1 * 0x1_0000) as u32;
            &&& (w % 0x1_0000) as u16 == h0
            &&& (w / 0x1_0000) as u16 == h1
        }),
{
}

/// Each 4-bit value of a word made of eight is the low four bits of the
/// value that went in.
proof fn lemma_nibbles_of_word(n0: u8, n1: u8, n2: u8, n3: u8, n4: u8, n5: u8, n6: u8, n7: u8)
    by (bit_vector)
    ensures
        ({
            let w = (n0 % 16 + (n1 % 16) * 0x10 + (n2 % 16) * 0x100 + (n3 % 16) * 0x1000 + (n4 % 16)
                * 0x1_0000 + (n5 % 16) * 0x10_0000 + (n6 % 16) * 0x100_0000 + (n7 % 16)
                * 0x1000_0000) as u32;
            &&& (w % 0x10) as u8 == n0 % 16
            &&& (w / 0x10 % 0x10) as u8 == n1 % 16
            &&& (w / 0x100 % 0x10) as u8 == n2 % 16
            &&& (w / 0x1000 % 0x10) as u8 == n3 % 16
            &&& (w / 0x1_0000 % 0x10) as u8 == n4 % 16
            &&& (w / 0x10_0000 % 0x10) as u8 == n5 % 16
            &&& (w / 0x100_0000 % 0x10) as u8 == n6 % 16
            &&& (w / 0x1000_0000) as u8 == n7 % 16
        }),
{
}

/// Bytes packed four to a word and unpacked again are the bytes.
pub proof fn lemma_round_trip_u8_u32(input: Seq<u8>)
    requires
        input.len() % 4 == 0,
    ensures
        packed_u8_u32(input).len() * 4 == input.len(),
        unpacked_u32_u8(packed_u8_u32(input)) == input,
{
    let back = unpacked_u32_u8(packed_u8_u32(input));
    assert forall|i: int| 0 <= i < input.len() implies back[i] == input[i] by {
        let j = i / 4;
        lemma_bytes_of_word(input[4 * j], input[4 * j + 1], input[4 * j + 2], input[4 * j + 3]);
    }
}

/// Bytes packed two to a 16-bit word and unpacked again are the bytes.
pub proof fn lemma_round_trip_u8_u16(input: Seq<u8>)
    requires
        input.len() % 2 == 0,
    ensures
        packed_u8_u16(input).len() * 2 == input.len(),
        unpacked_u16_u8(packed_u8_u16(input)) == input,
{
    let back = unpacked_u16_u8(packed_u8_u16(input));
    assert forall|i: int| 0 <= i < input.len() implies back[i] == input[i] by {
        let j = i / 2;
        lemma_bytes_of_halfword(input[2 * j], input[2 * j + 1]);
    }
}

/// 16-bit values packed two to a word and unpacked again are the values.
pub proof fn lemma_round_trip_u16_u32(input: Seq<u16>)
    requires
        input.len() % 2 == 0,
    ensures
        packed_u16_u32(input).len() * 2 == input.len(),
        unpacked_u32_u16(packed_u16_u32(input)) == input,
{
    let back = unpacked_u32_u16(packed_u16_u32(input));
    assert forall|i: int| 0 <= i < input.len() implies back[i] == input[i] by {
        let j = i / 2;
        lemma_halfwords_of_word(input[2 * j], input[2 * j + 1]);
    }
}

/// 4-bit values packed eight to a word and unpacked again are the values,
/// where each value fits in four bits; of a larger value the low four bits
/// come back.
pub proof fn lemma_round_trip_u4_u32(input: Seq<u8>)
    requires
        input.len() % 8 == 0,
    ensures
        packed_u4_u32(input).len() * 8 == input.len(),
        unpacked_u32_u4(packed_u4_u32(input)) == input.map_values(|v: u8| (v % 16) as u8),
        (forall|i: int| 0 <= i < input.len() ==> input[i] < 16) ==> unpacked_u32_u4(
            packed_u4_u32(input),
        ) == input,
{
    let back = unpacked_u32_u4(packed_u4_u32(input));
    assert forall|i: int| 0 <= i < input.len() implies back[i] == (input[i] % 16) as u8 by {
        let at = 8 * (i / 8);
        lemma_nibbles_of_word(
            input[at],
            input[at + 1],
            input[at + 2],
            input[at + 3],
            input[at + 4],
            input[at + 5],
            input[at + 6],
            input[at + 7],
        );
    }
    assert(back =~= input.map_values(|v: u8| (v % 16) as u8));
    if forall|i: int| 0 <= i < input.len() ==> input[i] < 16 {
        assert(input.map_values(|v: u8| (v % 16) as u8) =~= input);
    }
}

/// A vector with the same entries.
pub(crate) fn copy_of(values: &Vec<u16>) -> (copy: Vec<u16>)
    ensures
        copy@ == values@,
{
    let mut copy: Vec<u16> = Vec::with_capacity(values.len());
    let mut i: usize = 0;
    while i < values.len()
        invariant
            i <= values@.len(),
            copy@ == values@.take(i as int),
        decreases values@.len() - i,
    {
        copy.push(values[i]);
        i += 1;
    }
    copy
}

} // verus!
