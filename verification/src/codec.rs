//! Text to packed bytes and back.
//!
//! A text is folded to lower case, each of its characters is given its
//! five-bit code, and the codes are written out as one bit string, cut into
//! bytes. Reading goes the other way: the bytes' bits are cut into groups of
//! five, and each group names a symbol.

use crate::alphabet::{
    all_symbols, code_of, code_symbol, codes_text, lemma_first_symbol, lemma_symbol_code,
    symbol_code, symbol_of, text_codes,
};
use crate::bits::{
    bytes_bits, codes_bits, group_bits, holds_bits, lemma_byte_in_stream, lemma_byte_matches,
    lemma_code_in_stream, lemma_code_matches, lemma_fits_byte, lemma_fits_code, lemma_group_codes,
    lemma_holds_last, lemma_holds_none, lemma_holds_push, lemma_holds_take, lemma_unpack_pack,
    pack_bits, packed_byte, padding, zero_bits,
};
use vstd::prelude::*;

verus! {

/// The lower-case form of a text, as `str::to_lowercase` gives it.
pub uninterp spec fn lowercase(text: Seq<char>) -> Seq<char>;

/// `str::to_lowercase` returns the lower-case form of its argument as a new
/// `String`. The form follows the Unicode tables that the standard library
/// carries, so it is given by name only.
pub assume_specification[ str::to_lowercase ](text: &str) -> (folded: String)
    ensures
        folded@ == lowercase(text@),
;

/// `String::push` appends one character to the end of the string.
pub assume_specification[ String::push ](text: &mut String, c: char)
    ensures
        final(text)@ == old(text)@.push(c),
;

/// The packed form of a text that is already in lower case.
pub open spec fn packed_text(folded: Seq<char>) -> Seq<u8> {
    pack_bits(codes_bits(text_codes(folded)))
}

/// The packed form of a text.
pub open spec fn encode_spec(text: Seq<char>) -> Seq<u8> {
    packed_text(lowercase(text))
}

/// The text that a packed buffer holds.
pub open spec fn decode_spec(bytes: Seq<u8>) -> Seq<char> {
    codes_text(group_bits(bytes_bits(bytes)))
}

/// The number of bytes that `symbols` codes are packed into.
pub open spec fn packed_len(symbols: nat) -> nat {
    ((5 * symbols + 7) / 8) as nat
}

/// Packs a text that is already in lower case.
///
/// Each character gives five bits, most significant first: its code if it is
/// a symbol of the alphabet, the marker's code if not. The bits fill the bytes
/// from their most significant bit down, and the last byte is filled up with
/// unset bits.
pub fn encode_folded(folded: &str) -> (bytes: Vec<u8>)
    ensures
        bytes@ == packed_text(folded@),
        bytes@.len() == packed_len(folded@.len()),
{
    let ghost codes = text_codes(folded@);
    let ghost stream = codes_bits(codes);
    let mut buffer: u16 = 0;
    let mut bit_count: u16 = 0;
    let mut output: Vec<u8> = Vec::new();
    proof {
        lemma_holds_none(stream, 0);
    }
    for c in it: folded.chars()
        invariant
            it.seq() == folded@,
            codes == text_codes(folded@),
            stream == codes_bits(codes),
            bit_count < 8,
            8 * output.len() + bit_count == 5 * it.index(),
            holds_bits(buffer, bit_count as int, stream, 8 * output.len()),
            forall|j: int| 0 <= j < output.len() ==> output[j] == packed_byte(stream, j),
    {
        let ghost i = it.index() as int;
        let ghost start = 8 * output.len() as int;
        let val = code_of(c) as u16;
        proof {
            assert(codes[i] == symbol_code(c));
            lemma_code_in_stream(codes, i);
            lemma_holds_push(buffer, bit_count as int, stream, start, val, 5);
        }
        buffer = (buffer << 5) | val;
        bit_count += 5;
        if bit_count >= 8 {
            proof {
                lemma_holds_take(buffer, bit_count as int, 8, stream, start);
                lemma_fits_byte(buffer >> ((bit_count - 8) as u16));
            }
            let byte = (buffer >> (bit_count - 8)) as u8;
            proof {
                lemma_byte_matches(byte, stream, output.len() as int);
            }
            output.push(byte);
            bit_count -= 8;
            buffer = buffer & ((1u16 << bit_count) - 1);
        }
    }
    if bit_count > 0 {
        proof {
            assert(stream.len() == 8 * output.len() + bit_count);
            lemma_holds_last(buffer, bit_count as int, stream, output.len() as int);
        }
        output.push((buffer << (8 - bit_count)) as u8);
    }
    assert(output@ =~= packed_text(folded@));
    output
}

/// Packs a text: folds it to lower case, then packs the result.
pub fn encode(text: &str) -> (bytes: Vec<u8>)
    ensures
        bytes@ == encode_spec(text@),
        bytes@.len() == packed_len(lowercase(text@).len()),
{
    let folded = text.to_lowercase();
    encode_folded(folded.as_str())
}

/// Reads the text out of a packed buffer.
///
/// The bits of the buffer, each byte from its most significant bit down, are
/// cut into groups of five, and each group gives the symbol with that code.
/// Up to four bits at the end fill no group and are dropped.
pub fn decode(bytes: &[u8]) -> (text: String)
    ensures
        text@ == decode_spec(bytes@),
        text@.len() == 8 * bytes@.len() / 5,
{
    let ghost stream = bytes_bits(bytes@);
    let ghost codes = group_bits(stream);
    let mut buffer: u16 = 0;
    let mut bit_count: u16 = 0;
    let mut output = String::new();
    proof {
        lemma_holds_none(stream, 0);
    }
    let mut i: usize = 0;
    while i < bytes.len()
        invariant
            i <= bytes.len(),
            stream == bytes_bits(bytes@),
            codes == group_bits(stream),
            bit_count < 5,
            5 * output@.len() + bit_count == 8 * i,
            holds_bits(buffer, bit_count as int, stream, 5 * (output@.len() as int)),
            forall|j: int| 0 <= j < output@.len() ==> output@[j] == code_symbol(codes[j]),
        decreases bytes.len() - i,
    {
        let byte = bytes[i] as u16;
        proof {
            lemma_byte_in_stream(bytes@, i as int);
            lemma_holds_push(buffer, bit_count as int, stream, 5 * (output@.len() as int), byte, 8);
        }
        buffer = (buffer << 8) | byte;
        bit_count += 8;
        while bit_count >= 5
            invariant
                i < bytes.len(),
                stream == bytes_bits(bytes@),
                codes == group_bits(stream),
                bit_count < 16,
                5 * output@.len() + bit_count == 8 * (i + 1),
                holds_bits(buffer, bit_count as int, stream, 5 * (output@.len() as int)),
                forall|j: int| 0 <= j < output@.len() ==> output@[j] == code_symbol(codes[j]),
            decreases bit_count,
        {
            proof {
                lemma_holds_take(buffer, bit_count as int, 5, stream, 5 * (output@.len() as int));
                lemma_fits_code(buffer >> ((bit_count - 5) as u16));
            }
            let val = ((buffer >> (bit_count - 5)) & 0x1F) as u8;
            proof {
                lemma_code_matches(val, stream, output@.len() as int);
                assert(val == codes[output@.len() as int]);
            }
            bit_count -= 5;
            buffer = buffer & ((1u16 << bit_count) - 1);
            output.push(symbol_of(val));
        }
        i += 1;
    }
    assert(output@ =~= decode_spec(bytes@));
    output
}

/// What a text in lower case is read back as: each symbol as itself, every
/// other character as the marker `#`.
pub open spec fn read_back(folded: Seq<char>) -> Seq<char> {
    codes_text(text_codes(folded))
}

/// How many symbols reading adds behind a text of `symbols` characters: one
/// where packing filled the last byte up with five bits or more, else none.
pub open spec fn added_symbols(symbols: nat) -> nat {
    padding(5 * symbols) / 5
}

/// A text made of symbols only is read back as itself.
pub proof fn lemma_read_back_symbols(folded: Seq<char>)
    requires
        all_symbols(folded),
    ensures
        read_back(folded) == folded,
{
    assert forall|i: int| 0 <= i < folded.len() implies read_back(folded)[i] == folded[i] by {
        lemma_symbol_code(folded[i]);
    }
    assert(read_back(folded) =~= folded);
}

/// One symbol is added behind texts of two, five or seven characters and
/// behind those longer by a multiple of eight, and none behind any other.
pub proof fn lemma_added_symbols(symbols: nat)
    ensures
        added_symbols(symbols) <= 1,
        added_symbols(symbols) == 1 <==> (symbols % 8 == 2 || symbols % 8 == 5 || symbols % 8
            == 7),
{
    let r = symbols % 8;
    let q = symbols / 8;
    assert(5 * symbols == 8 * (5 * q) + 5 * r);
    assert((5 * symbols) % 8 == (5 * r) % 8);
}

/// Reading what was packed gives the text as [`read_back`] has it, followed
/// by one `a` for each five bits that packing filled the last byte up with.
pub proof fn lemma_decode_packed(folded: Seq<char>)
    ensures
        decode_spec(packed_text(folded)) == read_back(folded) + Seq::new(
            added_symbols(folded.len()),
            |j: int| 'a',
        ),
{
    let codes = text_codes(folded);
    let bits = codes_bits(codes);
    let extra = padding(bits.len());
    let zeros = Seq::new(extra / 5, |j: int| 0u8);
    assert forall|i: int| 0 <= i < codes.len() implies codes[i] < 32 by {
        lemma_symbol_code(folded[i]);
    }
    lemma_unpack_pack(bits);
    lemma_group_codes(codes, extra);
    assert(group_bits(bytes_bits(pack_bits(bits))) == codes + zeros);
    assert(decode_spec(packed_text(folded)) == codes_text(codes + zeros));
    lemma_first_symbol();
    assert(codes_text(codes + zeros) =~= codes_text(codes) + Seq::new(
        added_symbols(folded.len()),
        |j: int| 'a',
    ));
}

/// Packing and then reading gives the lower-case form of the text back, for
/// every text whose lower-case form is made of symbols only and fills its
/// last byte up with fewer than five bits.
pub proof fn lemma_round_trip(text: Seq<char>)
    requires
        all_symbols(lowercase(text)),
        padding(5 * lowercase(text).len()) < 5,
    ensures
        decode_spec(encode_spec(text)) == lowercase(text),
{
    let folded = lowercase(text);
    lemma_decode_packed(folded);
    lemma_read_back_symbols(folded);
    assert(decode_spec(packed_text(folded)) =~= folded);
}

/// Two texts of one length, both made of symbols only, are packed into the
/// same bytes only if they are the same text.
pub proof fn lemma_packed_distinct(first: Seq<char>, second: Seq<char>)
    requires
        first.len() == second.len(),
        all_symbols(first),
        all_symbols(second),
        packed_text(first) == packed_text(second),
    ensures
        first == second,
{
    lemma_decode_packed(first);
    lemma_decode_packed(second);
    lemma_read_back_symbols(first);
    lemma_read_back_symbols(second);
    let tail = Seq::new(added_symbols(first.len()), |j: int| 'a');
    assert forall|i: int| 0 <= i < first.len() implies first[i] == second[i] by {
        assert((first + tail)[i] == (second + tail)[i]);
    }
    assert(first =~= second);
}

} // verus!
