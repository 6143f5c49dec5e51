//! The alphabet: thirty-two symbols, each with a five-bit code equal to its
//! place in [`ALPHABET`].

use vstd::prelude::*;

verus! {

/// The number of symbols in the alphabet, and so the number of five-bit codes.
pub const SYMBOL_COUNT: usize = 32;

/// The code of the marker symbol `#`. Every character outside the alphabet is
/// given this code as well.
pub const UNKNOWN_CODE: u8 = 31;

/// The symbols in code order: the letters, then space, comma, full stop,
/// colon, line feed and the marker `#`.
pub const ALPHABET: [char; 32] = [
    'a', 'b', 'c', 'd', 'e', 'f', 'g', 'h', 'i', 'j', 'k', 'l', 'm', 'n', 'o', 'p', 'q', 'r', 's',
    't', 'u', 'v', 'w', 'x', 'y', 'z', ' ', ',', '.', ':', '\n', '#',
];

/// The alphabet as a sequence: the symbol with code `k` stands at place `k`.
pub open spec fn alphabet() -> Seq<char> {
    ALPHABET@
}

/// Whether `c` is one of the thirty-two symbols.
pub open spec fn is_symbol(c: char) -> bool {
    alphabet().contains(c)
}

/// The code of `c`: its place in the alphabet, or [`UNKNOWN_CODE`] where it
/// has none.
pub open spec fn symbol_code(c: char) -> u8 {
    if is_symbol(c) {
        alphabet().index_of(c) as u8
    } else {
        UNKNOWN_CODE
    }
}

/// The symbol that the code `k` stands for.
pub open spec fn code_symbol(k: u8) -> char
    recommends
        k < 32,
{
    alphabet()[k as int]
}

/// The codes of a text, symbol by symbol.
pub open spec fn text_codes(text: Seq<char>) -> Seq<u8> {
    Seq::new(text.len(), |i: int| symbol_code(text[i]))
}

/// The text that a sequence of codes stands for.
pub open spec fn codes_text(codes: Seq<u8>) -> Seq<char> {
    Seq::new(codes.len(), |i: int| code_symbol(codes[i]))
}

/// Whether every character of `text` is a symbol of the alphabet.
pub open spec fn all_symbols(text: Seq<char>) -> bool {
    forall|i: int| 0 <= i < text.len() ==> is_symbol(#[trigger] text[i])
}

/// The alphabet has thirty-two places and no symbol stands at two of them.
pub proof fn lemma_alphabet_distinct()
    ensures
        alphabet().len() == 32,
        alphabet().no_duplicates(),
{
    let a = alphabet();
    assert forall|i: int, j: int| 0 <= i < a.len() && 0 <= j < a.len() && i != j implies a[i]
        != a[j] by {
        lemma_alphabet_values();
    }
}

/// Each place of the alphabet, written out.
proof fn lemma_alphabet_values()
    ensures
        alphabet().len() == 32,
        forall|k: int| 0 <= k < 26 ==> #[trigger] alphabet()[k] as int == 'a' as int + k,
        alphabet()[26] == ' ',
        alphabet()[27] == ',',
        alphabet()[28] == '.',
        alphabet()[29] == ':',
        alphabet()[30] == '\n',
        alphabet()[31] == '#',
{
    let a = alphabet();
    assert(a[0] == 'a' && a[1] == 'b' && a[2] == 'c' && a[3] == 'd' && a[4] == 'e' && a[5] == 'f'
        && a[6] == 'g' && a[7] == 'h' && a[8] == 'i' && a[9] == 'j' && a[10] == 'k' && a[11]
        == 'l' && a[12] == 'm');
    assert(a[13] == 'n' && a[14] == 'o' && a[15] == 'p' && a[16] == 'q' && a[17] == 'r' && a[18]
        == 's' && a[19] == 't' && a[20] == 'u' && a[21] == 'v' && a[22] == 'w' && a[23] == 'x'
        && a[24] == 'y' && a[25] == 'z');
}

/// A symbol's code is below thirty-two and leads back to the symbol; the code
/// of any other character is that of the marker.
pub proof fn lemma_symbol_code(c: char)
    ensures
        symbol_code(c) < 32,
        is_symbol(c) ==> code_symbol(symbol_code(c)) == c,
        !is_symbol(c) ==> symbol_code(c) == UNKNOWN_CODE && code_symbol(symbol_code(c)) == '#',
{
    lemma_alphabet_values();
    if is_symbol(c) {
        alphabet().index_of_first_ensures(c);
        let k = alphabet().index_of(c);
        assert(0 <= k < 32 && alphabet()[k] == c);
    }
}

/// The code zero stands for `a`.
pub proof fn lemma_first_symbol()
    ensures
        code_symbol(0) == 'a',
{
    lemma_alphabet_values();
}

/// Two characters outside the alphabet have one code, that of the marker, and
/// that code stands for the marker: what is written for such a character is
/// read back as `#`.
pub proof fn lemma_unknown_characters(c: char, d: char)
    requires
        !is_symbol(c),
        !is_symbol(d),
    ensures
        symbol_code(c) == symbol_code(d),
        symbol_code(c) == UNKNOWN_CODE,
        code_symbol(UNKNOWN_CODE) == '#',
{
    lemma_symbol_code(c);
}

/// Every code below thirty-two stands for a symbol, and that symbol's code is
/// the code itself.
pub proof fn lemma_code_symbol(k: u8)
    requires
        k < 32,
    ensures
        is_symbol(code_symbol(k)),
        symbol_code(code_symbol(k)) == k,
{
    lemma_alphabet_distinct();
    let c = code_symbol(k);
    assert(alphabet()[k as int] == c);
    assert(alphabet().contains(c));
    let j = alphabet().index_of(c);
    assert(0 <= j < 32 && alphabet()[j] == c);
}

/// Looks `c` up in the alphabet.
pub fn code_of(c: char) -> (k: u8)
    ensures
        k == symbol_code(c),
        k < 32,
{
    let mut i: usize = 0;
    while i < 32
        invariant
            i <= 32,
            forall|j: int| 0 <= j < i ==> alphabet()[j] != c,
        decreases 32 - i,
    {
        if ALPHABET[i] == c {
            proof {
                lemma_alphabet_distinct();
                assert(alphabet()[i as int] == c);
                let j = alphabet().index_of(c);
                assert(0 <= j < 32 && alphabet()[j] == c);
            }
            return i as u8;
        }
        i += 1;
    }
    UNKNOWN_CODE
}

/// The symbol with code `k`.
pub fn symbol_of(k: u8) -> (c: char)
    requires
        k < 32,
    ensures
        c == code_symbol(k),
        is_symbol(c),
{
    proof {
        lemma_code_symbol(k);
    }
    ALPHABET[k as usize]
}

} // verus!
