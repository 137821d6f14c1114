//! Base64 in the standard alphabet with padding, and the call into `base64` that writes it.

use vstd::prelude::*;

verus! {

/// The letter of the alphabet that stands for six bits.
pub open spec fn letter(bits: int) -> char {
    if bits < 26 {
        (65 + bits) as char
    } else if bits < 52 {
        (97 + (bits - 26)) as char
    } else if bits < 62 {
        (48 + (bits - 52)) as char
    } else if bits == 62 {
        '+'
    } else {
        '/'
    }
}

/// The six bits that a letter of the alphabet stands for.
pub open spec fn bits_of(c: char) -> int {
    if 'A' <= c <= 'Z' {
        c as int - 65
    } else if 'a' <= c <= 'z' {
        c as int - 97 + 26
    } else if '0' <= c <= '9' {
        c as int - 48 + 52
    } else if c == '+' {
        62
    } else {
        63
    }
}

/// The text of some bytes: four letters for every three bytes, the last group padded with `=`.
pub open spec fn base64_text(bytes: Seq<u8>) -> Seq<char>
    decreases bytes.len(),
{
    if bytes.len() == 0 {
        Seq::empty()
    } else if bytes.len() == 1 {
        seq![letter((bytes[0] / 4) as int), letter(bytes[0] % 4 * 16), '=', '=']
    } else if bytes.len() == 2 {
        seq![
            letter((bytes[0] / 4) as int),
            letter(bytes[0] % 4 * 16 + bytes[1] / 16),
            letter(bytes[1] % 16 * 4),
            '=',
        ]
    } else {
        seq![
            letter((bytes[0] / 4) as int),
            letter(bytes[0] % 4 * 16 + bytes[1] / 16),
            letter(bytes[1] % 16 * 4 + bytes[2] / 64),
            letter((bytes[2] % 64) as int),
        ] + base64_text(bytes.skip(3))
    }
}

/// The bytes that a text stands for, group by group.
pub open spec fn base64_bytes(text: Seq<char>) -> Seq<u8>
    decreases text.len(),
{
    if text.len() < 4 {
        Seq::empty()
    } else {
        let a = bits_of(text[0]);
        let b = bits_of(text[1]);
        let c = bits_of(text[2]);
        let d = bits_of(text[3]);
        let first = (a * 4 + b / 16) as u8;
        let second = (b % 16 * 16 + c / 4) as u8;
        let third = (c % 4 * 64 + d) as u8;
        if text[2] == '=' {
            seq![first]
        } else if text[3] == '=' {
            seq![first, second]
        } else {
            seq![first, second, third] + base64_bytes(text.skip(4))
        }
    }
}

/// The length of the text of `n` bytes.
pub open spec fn base64_len(n: nat) -> nat {
    4 * ((n + 2) / 3)
}

/// `base64::engine::general_purpose::STANDARD.encode`: the text of some bytes, in the standard
/// alphabet with padding. It gives up only where that text would not fit in memory.
#[verifier::external_body]
pub(crate) fn base64_encode(bytes: &Vec<u8>) -> (r: String)
    requires
        base64_len(bytes@.len()) <= isize::MAX,
    ensures
        r@ == base64_text(bytes@),
{
    base64::Engine::encode(&base64::engine::general_purpose::STANDARD, bytes)
}

/// A letter stands for the bits that it was chosen by, and is no padding.
proof fn lemma_letter(bits: int)
    requires
        0 <= bits < 64,
    ensures
        bits_of(letter(bits)) == bits,
        letter(bits) != '=',
{
}

/// The text of some bytes stands for those bytes, and is as long as it is said to be.
pub proof fn law_base64_reads_back(bytes: Seq<u8>)
    ensures
        base64_bytes(base64_text(bytes)) == bytes,
        base64_text(bytes).len() == base64_len(bytes.len()),
    decreases bytes.len(),
{
    let text = base64_text(bytes);
    if bytes.len() == 1 {
        lemma_letter((bytes[0] / 4) as int);
        lemma_letter(bytes[0] % 4 * 16);
        assert(base64_bytes(text) =~= bytes);
    } else if bytes.len() == 2 {
        lemma_letter((bytes[0] / 4) as int);
        lemma_letter(bytes[0] % 4 * 16 + bytes[1] / 16);
        lemma_letter(bytes[1] % 16 * 4);
        assert(base64_bytes(text) =~= bytes);
    } else if bytes.len() > 2 {
        lemma_letter((bytes[0] / 4) as int);
        lemma_letter(bytes[0] % 4 * 16 + bytes[1] / 16);
        lemma_letter(bytes[1] % 16 * 4 + bytes[2] / 64);
        lemma_letter((bytes[2] % 64) as int);
        law_base64_reads_back(bytes.skip(3));
        assert(text.skip(4) =~= base64_text(bytes.skip(3)));
        assert(base64_bytes(text) =~= bytes);
    }
}

/// The letters of the alphabet in the order of the bits that they stand for.
pub proof fn law_the_alphabet_is_the_standard_one(bits: int)
    requires
        0 <= bits < 64,
    ensures
        letter(bits) == "ABCDEFGHIJKLMNOPQRSTUVWXYZabcdefghijklmnopqrstuvwxyz0123456789+/"@[bits],
{
    reveal_strlit("ABCDEFGHIJKLMNOPQRSTUVWXYZabcdefghijklmnopqrstuvwxyz0123456789+/");
}

/// A text is written group by group: three bytes and what follows are the text of the three bytes
/// and that of what follows, and a group that is not full is filled with padding.
pub proof fn law_bytes_are_written_in_groups_of_three(a: u8, b: u8, c: u8, rest: Seq<u8>)
    ensures
        base64_text(seq![a, b, c] + rest) == base64_text(seq![a, b, c]) + base64_text(rest),
        base64_text(seq![a, b, c]).len() == 4,
        base64_text(seq![a]).len() == 4,
        base64_text(seq![a]).skip(2) == seq!['=', '='],
        base64_text(seq![a, b]).len() == 4,
        base64_text(seq![a, b]).skip(3) == seq!['='],
        base64_text(Seq::empty()).len() == 0,
{
    reveal_with_fuel(base64_text, 2);
    let three = seq![a, b, c];
    assert((three + rest).skip(3) =~= rest);
    assert(three.skip(3) =~= Seq::empty());
    assert(base64_text(three + rest) =~= base64_text(three) + base64_text(rest));
    assert(base64_text(seq![a]).skip(2) =~= seq!['=', '=']);
    assert(base64_text(seq![a, b]).skip(3) =~= seq!['=']);
}

} // verus!
