//! A remote key service, as far as this library goes.
//!
//! The service itself is reached over the network, outside this library. Here
//! is what is kept of it: the data keys that it handed out or unwrapped, by
//! their wrapped form; and base64, in which its protocol carries keys.

use vstd::prelude::*;

use crate::crypto::aead::KEY_LEN;
use crate::crypto::keys::KekId;
use crate::error::KmsError;
use crate::kms::KmsProvider;
use crate::table::StrTable;

verus! {

/// The alphabet, in the order of the values that its symbols stand for.
pub open spec fn alphabet() -> Seq<char> {
    "ABCDEFGHIJKLMNOPQRSTUVWXYZabcdefghijklmnopqrstuvwxyz0123456789+/"@
}

/// The four symbols of three bytes.
pub open spec fn encoded_triple(b0: u8, b1: u8, b2: u8) -> Seq<char> {
    seq![
        alphabet()[b0 as int / 4],
        alphabet()[(b0 as int % 4) * 16 + b1 as int / 16],
        alphabet()[(b1 as int % 16) * 4 + b2 as int / 64],
        alphabet()[b2 as int % 64],
    ]
}

/// The encoding of a byte string: four symbols for every three bytes, the
/// last group padded with `=` where the bytes run out.
pub open spec fn encoded(input: Seq<u8>) -> Seq<char>
    decreases input.len(),
{
    if input.len() == 0 {
        Seq::empty()
    } else if input.len() == 1 {
        seq![alphabet()[input[0] as int / 4], alphabet()[(input[0] as int % 4) * 16], '=', '=']
    } else if input.len() == 2 {
        seq![
            alphabet()[input[0] as int / 4],
            alphabet()[(input[0] as int % 4) * 16 + input[1] as int / 16],
            alphabet()[(input[1] as int % 16) * 4],
            '=',
        ]
    } else {
        encoded_triple(input[0], input[1], input[2]) + encoded(input.skip(3))
    }
}

fn symbol(v: usize) -> (r: &'static str)
    requires
        v < 64,
    ensures
        r@ == seq![alphabet()[v as int]],
{
    let table = "ABCDEFGHIJKLMNOPQRSTUVWXYZabcdefghijklmnopqrstuvwxyz0123456789+/";
    proof {
        reveal_strlit("ABCDEFGHIJKLMNOPQRSTUVWXYZabcdefghijklmnopqrstuvwxyz0123456789+/");
        assert(vstd::utf8::is_ascii_chars(table@));
    }
    let r = table.substring_ascii(v, v + 1);
    assert(r@ =~= seq![alphabet()[v as int]]);
    r
}

/// Encodes a byte string.
pub fn encode(input: &[u8]) -> (r: String)
    ensures
        r@ == encoded(input@),
{
    let n = input.len();
    let mut out = String::new();
    let mut i: usize = 0;
    assert(input@.skip(0) =~= input@);
    while n - i >= 3
        invariant
            i <= n,
            n == input@.len(),
            out@ + encoded(input@.skip(i as int)) == encoded(input@),
        decreases n - i,
    {
        let b0 = input[i] as usize;
        let b1 = input[i + 1] as usize;
        let b2 = input[i + 2] as usize;
        let ghost before = out@;
        let ghost rest = input@.skip(i as int);
        out.append(symbol(b0 / 4));
        out.append(symbol((b0 % 4) * 16 + b1 / 16));
        out.append(symbol((b1 % 16) * 4 + b2 / 64));
        out.append(symbol(b2 % 64));
        proof {
            assert(rest[0] == input@[i as int]);
            assert(rest[1] == input@[i + 1]);
            assert(rest[2] == input@[i + 2]);
            assert(rest.skip(3) =~= input@.skip(i + 3));
            assert(out@ =~= before + encoded_triple(rest[0], rest[1], rest[2]));
            assert(out@ + encoded(input@.skip(i + 3)) =~= before + encoded(rest));
        }
        i += 3;
    }
    let ghost before = out@;
    let ghost rest = input@.skip(i as int);
    if n - i == 1 {
        let b0 = input[i] as usize;
        out.append(symbol(b0 / 4));
        out.append(symbol((b0 % 4) * 16));
        out.append("==");
        proof {
            reveal_strlit("==");
            assert(rest[0] == input@[i as int]);
            assert(out@ =~= before + encoded(rest));
        }
    } else if n - i == 2 {
        let b0 = input[i] as usize;
        let b1 = input[i + 1] as usize;
        out.append(symbol(b0 / 4));
        out.append(symbol((b0 % 4) * 16 + b1 / 16));
        out.append(symbol((b1 % 16) * 4));
        out.append("=");
        proof {
            reveal_strlit("=");
            assert(rest[0] == input@[i as int]);
            assert(rest[1] == input@[i + 1]);
            assert(out@ =~= before + encoded(rest));
        }
    } else {
        assert(out@ =~= before + encoded(rest));
    }
    out
}

/// Encodes a byte string.
pub fn base64_encode(input: &[u8]) -> (r: String)
    ensures
        r@ == encoded(input@),
{
    encode(input)
}

/// The value that a byte stands for as a symbol of the alphabet; nothing for
/// a byte that is no symbol.
pub open spec fn value_of(b: u8) -> Option<u8> {
    if 'A' as u8 <= b <= 'Z' as u8 {
        Some((b - 'A' as u8) as u8)
    } else if 'a' as u8 <= b <= 'z' as u8 {
        Some((b - 'a' as u8 + 26) as u8)
    } else if '0' as u8 <= b <= '9' as u8 {
        Some((b - '0' as u8 + 52) as u8)
    } else if b == '+' as u8 {
        Some(62)
    } else if b == '/' as u8 {
        Some(63)
    } else {
        None
    }
}

/// The value of a symbol.
pub fn decode_byte(b: u8) -> (r: Option<u8>)
    ensures
        r == value_of(b),
        r is Some ==> r->0 < 64,
{
    if 65 <= b && b <= 90 {
        Some(b - 65)
    } else if 97 <= b && b <= 122 {
        Some(b - 97 + 26)
    } else if 48 <= b && b <= 57 {
        Some(b - 48 + 52)
    } else if b == 43 {
        Some(62)
    } else if b == 47 {
        Some(63)
    } else {
        None
    }
}

/// The values of the symbols among the bytes, in order. Padding, white space
/// and every other byte that is no symbol are passed over.
pub open spec fn values_of(input: Seq<u8>) -> Seq<u8>
    decreases input.len(),
{
    if input.len() == 0 {
        Seq::empty()
    } else if value_of(input.last()) is Some {
        values_of(input.drop_last()).push(value_of(input.last())->0)
    } else {
        values_of(input.drop_last())
    }
}

/// The bytes that a run of values stands for: three bytes for every four
/// values; of a last group of three values two bytes, of two one, of one
/// none.
pub open spec fn decoded(values: Seq<u8>) -> Seq<u8>
    decreases values.len(),
{
    if values.len() < 2 {
        Seq::empty()
    } else if values.len() == 2 {
        seq![((values[0] as int * 4 + values[1] as int / 16) % 256) as u8]
    } else if values.len() == 3 {
        seq![
            ((values[0] as int * 4 + values[1] as int / 16) % 256) as u8,
            (((values[1] as int % 16) * 16 + values[2] as int / 4) % 256) as u8,
        ]
    } else {
        seq![
            ((values[0] as int * 4 + values[1] as int / 16) % 256) as u8,
            (((values[1] as int % 16) * 16 + values[2] as int / 4) % 256) as u8,
            (((values[2] as int % 4) * 64 + values[3] as int) % 256) as u8,
        ] + decoded(values.skip(4))
    }
}

/// A reader that decodes as it goes.
pub struct DecoderReader<'a> {
    input: &'a [u8],
    pos: usize,
}

impl<'a> DecoderReader<'a> {
    /// What is left to read: the input from the reader's position on.
    pub closed spec fn remaining(&self) -> Seq<u8> {
        if self.pos <= self.input@.len() {
            self.input@.skip(self.pos as int)
        } else {
            Seq::empty()
        }
    }

    /// A reader at the start of `input`.
    pub fn new(input: &'a [u8]) -> (r: Self)
        ensures
            r.remaining() == input@,
    {
        let r = DecoderReader { input, pos: 0 };
        assert(input@.skip(0) =~= input@);
        r
    }

    /// Reads to the end: the bytes that the symbols left in the input stand
    /// for.
    pub fn read_to_end(&mut self) -> (r: Vec<u8>)
        ensures
            r@ == decoded(values_of(old(self).remaining())),
            final(self).remaining() == Seq::<u8>::empty(),
    {
        let n = self.input.len();
        let mut vals: Vec<u8> = Vec::new();
        let ghost all = self.remaining();
        if self.pos > n {
            self.pos = n;
        }
        let mut i: usize = self.pos;
        let ghost first = i;
        assert(all =~= self.input@.subrange(first as int, n as int));
        assert(self.input@.subrange(first as int, first as int) =~= Seq::<u8>::empty());
        while i < n
            invariant
                first <= i <= n,
                n == self.input@.len(),
                vals@ == values_of(self.input@.subrange(first as int, i as int)),
                forall|j: int| 0 <= j < vals@.len() ==> vals@[j] < 64,
            decreases n - i,
        {
            proof {
                let next = self.input@.subrange(first as int, i + 1);
                assert(next.drop_last() =~= self.input@.subrange(first as int, i as int));
                assert(next.last() == self.input@[i as int]);
            }
            match decode_byte(self.input[i]) {
                Some(v) => {
                    vals.push(v);
                },
                None => {},
            }
            i += 1;
        }
        self.pos = n;
        assert(self.input@.skip(n as int) =~= Seq::<u8>::empty());
        let mut out: Vec<u8> = Vec::new();
        let m = vals.len();
        let mut k: usize = 0;
        assert(vals@.skip(0) =~= vals@);
        while m - k >= 4
            invariant
                k <= m,
                m == vals@.len(),
                forall|j: int| 0 <= j < vals@.len() ==> vals@[j] < 64,
                out@ + decoded(vals@.skip(k as int)) == decoded(vals@),
            decreases m - k,
        {
            let v0 = vals[k] as usize;
            let v1 = vals[k + 1] as usize;
            let v2 = vals[k + 2] as usize;
            let v3 = vals[k + 3] as usize;
            let ghost before = out@;
            let ghost rest = vals@.skip(k as int);
            out.push(((v0 * 4 + v1 / 16) % 256) as u8);
            out.push((((v1 % 16) * 16 + v2 / 4) % 256) as u8);
            out.push((((v2 % 4) * 64 + v3) % 256) as u8);
            proof {
                assert(rest[0] == vals@[k as int]);
                assert(rest[1] == vals@[k + 1]);
                assert(rest[2] == vals@[k + 2]);
                assert(rest[3] == vals@[k + 3]);
                assert(rest.skip(4) =~= vals@.skip(k + 4));
                assert(out@ + decoded(vals@.skip(k + 4)) =~= before + decoded(rest));
            }
            k += 4;
        }
        let ghost before = out@;
        let ghost rest = vals@.skip(k as int);
        if m - k >= 2 {
            let v0 = vals[k] as usize;
            let v1 = vals[k + 1] as usize;
            out.push(((v0 * 4 + v1 / 16) % 256) as u8);
            proof {
                assert(rest[0] == vals@[k as int]);
                assert(rest[1] == vals@[k + 1]);
            }
            if m - k == 3 {
                let v2 = vals[k + 2] as usize;
                out.push((((v1 % 16) * 16 + v2 / 4) % 256) as u8);
                proof {
                    assert(rest[2] == vals@[k + 2]);
                }
            }
        }
        assert(out@ =~= before + decoded(rest));
        out
    }
}

/// Decodes a text: symbols that are not of the alphabet are passed over.
pub fn base64_decode(input: &str) -> (r: Vec<u8>)
    ensures
        r@ == decoded(values_of(vstd::utf8::encode_utf8(input@))),
{
    let mut reader = DecoderReader::new(input.as_bytes());
    reader.read_to_end()
}

/// Each symbol of the alphabet is a one-byte character and stands for its
/// place in the alphabet.
proof fn lemma_symbol_value(v: int)
    requires
        0 <= v < 64,
    ensures
        '\0' <= alphabet()[v] <= '\u{7f}',
        value_of(alphabet()[v] as u8) == Some(v as u8),
{
    reveal_strlit("ABCDEFGHIJKLMNOPQRSTUVWXYZabcdefghijklmnopqrstuvwxyz0123456789+/");
    if v == 0 {
        assert(alphabet()[0] == 'A');
    } else if v == 1 {
        assert(alphabet()[1] == 'B');
    } else if v == 2 {
        assert(alphabet()[2] == 'C');
    } else if v == 3 {
        assert(alphabet()[3] == 'D');
    } else if v == 4 {
        assert(alphabet()[4] == 'E');
    } else if v == 5 {
        assert(alphabet()[5] == 'F');
    } else if v == 6 {
        assert(alphabet()[6] == 'G');
    } else if v == 7 {
        assert(alphabet()[7] == 'H');
    } else if v == 8 {
        assert(alphabet()[8] == 'I');
    } else if v == 9 {
        assert(alphabet()[9] == 'J');
    } else if v == 10 {
        assert(alphabet()[10] == 'K');
    } else if v == 11 {
        assert(alphabet()[11] == 'L');
    } else if v == 12 {
        assert(alphabet()[12] == 'M');
    } else if v == 13 {
        assert(alphabet()[13] == 'N');
    } else if v == 14 {
        assert(alphabet()[14] == 'O');
    } else if v == 15 {
        assert(alphabet()[15] == 'P');
    } else if v == 16 {
        assert(alphabet()[16] == 'Q');
    } else if v == 17 {
        assert(alphabet()[17] == 'R');
    } else if v == 18 {
        assert(alphabet()[18] == 'S');
    } else if v == 19 {
        assert(alphabet()[19] == 'T');
    } else if v == 20 {
        assert(alphabet()[20] == 'U');
    } else if v == 21 {
        assert(alphabet()[21] == 'V');
    } else if v == 22 {
        assert(alphabet()[22] == 'W');
    } else if v == 23 {
        assert(alphabet()[23] == 'X');
    } else if v == 24 {
        assert(alphabet()[24] == 'Y');
    } else if v == 25 {
        assert(alphabet()[25] == 'Z');
    } else if v == 26 {
        assert(alphabet()[26] == 'a');
    } else if v == 27 {
        assert(alphabet()[27] == 'b');
    } else if v == 28 {
        assert(alphabet()[28] == 'c');
    } else if v == 29 {
        assert(alphabet()[29] == 'd');
    } else if v == 30 {
        assert(alphabet()[30] == 'e');
    } else if v == 31 {
        assert(alphabet()[31] == 'f');
    } else if v == 32 {
        assert(alphabet()[32] == 'g');
    } else if v == 33 {
        assert(alphabet()[33] == 'h');
    } else if v == 34 {
        assert(alphabet()[34] == 'i');
    } else if v == 35 {
        assert(alphabet()[35] == 'j');
    } else if v == 36 {
        assert(alphabet()[36] == 'k');
    } else if v == 37 {
        assert(alphabet()[37] == 'l');
    } else if v == 38 {
        assert(alphabet()[38] == 'm');
    } else if v == 39 {
        assert(alphabet()[39] == 'n');
    } else if v == 40 {
        assert(alphabet()[40] == 'o');
    } else if v == 41 {
        assert(alphabet()[41] == 'p');
    } else if v == 42 {
        assert(alphabet()[42] == 'q');
    } else if v == 43 {
        assert(alphabet()[43] == 'r');
    } else if v == 44 {
        assert(alphabet()[44] == 's');
    } else if v == 45 {
        assert(alphabet()[45] == 't');
    } else if v == 46 {
        assert(alphabet()[46] == 'u');
    } else if v == 47 {
        assert(alphabet()[47] == 'v');
    } else if v == 48 {
        assert(alphabet()[48] == 'w');
    } else if v == 49 {
        assert(alphabet()[49] == 'x');
    } else if v == 50 {
        assert(alphabet()[50] == 'y');
    } else if v == 51 {
        assert(alphabet()[51] == 'z');
    } else if v == 52 {
        assert(alphabet()[52] == '0');
    } else if v == 53 {
        assert(alphabet()[53] == '1');
    } else if v == 54 {
        assert(alphabet()[54] == '2');
    } else if v == 55 {
        assert(alphabet()[55] == '3');
    } else if v == 56 {
        assert(alphabet()[56] == '4');
    } else if v == 57 {
        assert(alphabet()[57] == '5');
    } else if v == 58 {
        assert(alphabet()[58] == '6');
    } else if v == 59 {
        assert(alphabet()[59] == '7');
    } else if v == 60 {
        assert(alphabet()[60] == '8');
    } else if v == 61 {
        assert(alphabet()[61] == '9');
    } else if v == 62 {
        assert(alphabet()[62] == '+');
    } else if v == 63 {
        assert(alphabet()[63] == '/');
    }
}

/// The values of a run of bytes followed by another are the values of the
/// one followed by the values of the other.
proof fn lemma_values_of_concat(a: Seq<u8>, b: Seq<u8>)
    ensures
        values_of(a + b) == values_of(a) + values_of(b),
    decreases b.len(),
{
    if b.len() == 0 {
        assert(a + b =~= a);
        assert(values_of(a) + values_of(b) =~= values_of(a));
    } else {
        lemma_values_of_concat(a, b.drop_last());
        assert((a + b).drop_last() =~= a + b.drop_last());
        assert((a + b).last() == b.last());
        if value_of(b.last()) is Some {
            assert(values_of(a + b) =~= values_of(a) + values_of(b));
        }
    }
}

/// The values of a run of bytes each of which is a symbol are the values of
/// the symbols, one for one.
proof fn lemma_values_of_symbols(bytes: Seq<u8>, values: Seq<u8>)
    requires
        bytes.len() == values.len(),
        forall|i: int| 0 <= i < bytes.len() ==> value_of(#[trigger] bytes[i]) == Some(values[i]),
    ensures
        values_of(bytes) == values,
    decreases bytes.len(),
{
    if bytes.len() == 0 {
        assert(values =~= Seq::<u8>::empty());
    } else {
        lemma_values_of_symbols(bytes.drop_last(), values.drop_last());
        assert(values =~= values.drop_last().push(values.last()));
    }
}

/// A run of bytes none of which is a symbol has no values.
proof fn lemma_values_of_padding(bytes: Seq<u8>)
    requires
        forall|i: int| 0 <= i < bytes.len() ==> value_of(#[trigger] bytes[i]) is None,
    ensures
        values_of(bytes) == Seq::<u8>::empty(),
    decreases bytes.len(),
{
    if bytes.len() > 0 {
        lemma_values_of_padding(bytes.drop_last());
    }
}

/// The bytes that carry a text of one-byte characters: each character's
/// number.
spec fn ascii_bytes(chars: Seq<char>) -> Seq<u8> {
    Seq::new(chars.len(), |i: int| chars[i] as u8)
}

/// What one byte is encoded as is decoded as that byte.
proof fn lemma_last_one(b0: u8)
    ensures
        vstd::utf8::is_ascii_chars(encoded(seq![b0])),
        decoded(values_of(ascii_bytes(encoded(seq![b0])))) == seq![b0],
{
    let v0 = b0 as int / 4;
    let v1 = (b0 as int % 4) * 16;
    lemma_symbol_value(v0);
    lemma_symbol_value(v1);
    let chars = encoded(seq![b0]);
    assert(chars == seq![alphabet()[v0], alphabet()[v1], '=', '=']);
    let bytes = ascii_bytes(chars);
    let syms = bytes.subrange(0, 2);
    let pads = bytes.subrange(2, 4);
    assert(bytes =~= syms + pads);
    lemma_values_of_concat(syms, pads);
    lemma_values_of_symbols(syms, seq![v0 as u8, v1 as u8]);
    lemma_values_of_padding(pads);
    let values = values_of(bytes);
    assert(values =~= seq![v0 as u8, v1 as u8]);
    assert(decoded(values) =~= seq![b0]);
}

/// What two bytes are encoded as is decoded as those bytes.
proof fn lemma_last_two(b0: u8, b1: u8)
    ensures
        vstd::utf8::is_ascii_chars(encoded(seq![b0, b1])),
        decoded(values_of(ascii_bytes(encoded(seq![b0, b1])))) == seq![b0, b1],
{
    let v0 = b0 as int / 4;
    let v1 = (b0 as int % 4) * 16 + b1 as int / 16;
    let v2 = (b1 as int % 16) * 4;
    lemma_symbol_value(v0);
    lemma_symbol_value(v1);
    lemma_symbol_value(v2);
    let chars = encoded(seq![b0, b1]);
    assert(chars == seq![alphabet()[v0], alphabet()[v1], alphabet()[v2], '=']);
    let bytes = ascii_bytes(chars);
    let syms = bytes.subrange(0, 3);
    let pads = bytes.subrange(3, 4);
    assert(bytes =~= syms + pads);
    lemma_values_of_concat(syms, pads);
    lemma_values_of_symbols(syms, seq![v0 as u8, v1 as u8, v2 as u8]);
    lemma_values_of_padding(pads);
    let values = values_of(bytes);
    assert(values =~= seq![v0 as u8, v1 as u8, v2 as u8]);
    assert(decoded(values) =~= seq![b0, b1]);
}

/// The four symbols of three bytes stand for values that decode as those
/// bytes.
proof fn lemma_values_of_triple(b0: u8, b1: u8, b2: u8)
    ensures
        vstd::utf8::is_ascii_chars(encoded_triple(b0, b1, b2)),
        values_of(ascii_bytes(encoded_triple(b0, b1, b2))).len() == 4,
        decoded(values_of(ascii_bytes(encoded_triple(b0, b1, b2)))) == seq![b0, b1, b2],
        forall|rest: Seq<u8>|
            #[trigger] decoded(values_of(ascii_bytes(encoded_triple(b0, b1, b2))) + rest) == seq![
                b0,
                b1,
                b2,
            ] + decoded(rest),
{
    let v0 = b0 as int / 4;
    let v1 = (b0 as int % 4) * 16 + b1 as int / 16;
    let v2 = (b1 as int % 16) * 4 + b2 as int / 64;
    let v3 = b2 as int % 64;
    lemma_symbol_value(v0);
    lemma_symbol_value(v1);
    lemma_symbol_value(v2);
    lemma_symbol_value(v3);
    let bytes = ascii_bytes(encoded_triple(b0, b1, b2));
    let four = seq![v0 as u8, v1 as u8, v2 as u8, v3 as u8];
    lemma_values_of_symbols(bytes, four);
    assert(four.skip(4) =~= Seq::<u8>::empty());
    assert(decoded(four.skip(4)) =~= Seq::<u8>::empty());
    assert(v1 / 16 == b0 as int % 4 && v1 % 16 == b1 as int / 16);
    assert(v2 / 4 == b1 as int % 16 && v2 % 4 == b2 as int / 64);
    assert(decoded(four) =~= seq![b0, b1, b2]);
    assert forall|rest: Seq<u8>| #[trigger] decoded(four + rest) == seq![b0, b1, b2] + decoded(
        rest,
    ) by {
        let all = four + rest;
        assert(all.skip(4) =~= rest);
        assert(all[0] == four[0] && all[1] == four[1] && all[2] == four[2] && all[3] == four[3]);
        if rest.len() == 0 {
            assert(all =~= four);
        }
    }
}

/// What is encoded is a text of one-byte characters, and the values of its
/// symbols decode as what was encoded.
proof fn lemma_decode_by_groups(input: Seq<u8>)
    ensures
        vstd::utf8::is_ascii_chars(encoded(input)),
        decoded(values_of(ascii_bytes(encoded(input)))) == input,
    decreases input.len(),
{
    if input.len() == 0 {
        assert(ascii_bytes(encoded(input)) =~= Seq::<u8>::empty());
        assert(decoded(values_of(ascii_bytes(encoded(input)))) =~= input);
    } else if input.len() == 1 {
        assert(input =~= seq![input[0]]);
        lemma_last_one(input[0]);
    } else if input.len() == 2 {
        assert(input =~= seq![input[0], input[1]]);
        lemma_last_two(input[0], input[1]);
    } else {
        let rest = input.skip(3);
        lemma_decode_by_groups(rest);
        lemma_values_of_triple(input[0], input[1], input[2]);
        let head = encoded_triple(input[0], input[1], input[2]);
        let tail = encoded(rest);
        assert(encoded(input) == head + tail);
        assert(ascii_bytes(head + tail) =~= ascii_bytes(head) + ascii_bytes(tail));
        lemma_values_of_concat(ascii_bytes(head), ascii_bytes(tail));
        assert(seq![input[0], input[1], input[2]] + rest =~= input);
    }
}

/// Decoding inverts encoding: the text that a byte string is encoded as is
/// decoded as that byte string.
pub proof fn lemma_decode_inverts_encode(input: Seq<u8>)
    ensures
        decoded(values_of(vstd::utf8::encode_utf8(encoded(input)))) == input,
{
    lemma_decode_by_groups(input);
    vstd::utf8::is_ascii_chars_encode_utf8(encoded(input));
    assert(vstd::utf8::encode_utf8(encoded(input)) =~= ascii_bytes(encoded(input)));
}

/// The address of the key service where none is configured.
pub open spec fn default_endpoint() -> Seq<char> {
    "https://kms.us-east-1.amazonaws.com"@
}

/// What this library keeps of a remote key service: the key's identifier
/// with the service, the service's address, the data keys that the service
/// handed out or unwrapped so far, and which of them is in use. The service
/// wraps each data key itself; the wrapped form serves as the key's id.
///
/// The provider never waits for the network: a key that it has not been given
/// is reported as missing, for the caller to fetch and hand in.
pub struct CloudKmsProvider {
    key_id: String,
    endpoint: Option<String>,
    current: Option<String>,
    known: StrTable<Vec<u8>>,
}

/// What a reply of the service amounts to: the key that its base64 text
/// stands for, if that key is 32 bytes long; `KeyFormat` otherwise.
pub open spec fn key_of_reply(plaintext: Seq<char>) -> Result<Seq<u8>, KmsError> {
    let key = decoded(values_of(vstd::utf8::encode_utf8(plaintext)));
    if key.len() == KEY_LEN {
        Ok(key)
    } else {
        Err(KmsError::KeyFormat)
    }
}

impl CloudKmsProvider {
    #[verifier::type_invariant]
    spec fn inv(&self) -> bool {
        self.current is Some ==> self.known.contains(self.current->0@)
    }

    /// The key's identifier with the service.
    pub closed spec fn key(&self) -> Seq<char> {
        self.key_id@
    }

    /// The service's address.
    pub closed spec fn address(&self) -> Seq<char> {
        match self.endpoint {
            Some(e) => e@,
            None => default_endpoint(),
        }
    }

    /// The id of the data key in use, if one was fetched.
    pub closed spec fn current_id(&self) -> Option<Seq<char>> {
        match self.current {
            Some(id) => Some(id@),
            None => None,
        }
    }

    /// The data keys at hand, by id.
    pub closed spec fn keys(&self) -> Map<Seq<char>, Seq<u8>> {
        Map::new(|id: Seq<char>| self.known.contains(id), |id: Seq<char>| self.known.value(id)@)
    }

    /// A provider for the service's key `key_id`, with no data key yet.
    pub fn new(key_id: String, endpoint: Option<String>) -> (r: Self)
        ensures
            r.key() == key_id@,
            r.address() == (match endpoint {
                Some(e) => e@,
                None => default_endpoint(),
            }),
            r.current_id() is None,
            r.keys() == Map::<Seq<char>, Seq<u8>>::empty(),
    {
        let r = CloudKmsProvider { key_id, endpoint, current: None, known: StrTable::new() };
        assert(r.keys() =~= Map::<Seq<char>, Seq<u8>>::empty());
        r
    }

    /// The key's identifier with the service.
    pub fn key_id(&self) -> (r: &str)
        ensures
            r@ == self.key(),
    {
        self.key_id.as_str()
    }

    /// The address to send requests to.
    pub fn base_url(&self) -> (r: &str)
        ensures
            r@ == self.address(),
    {
        match &self.endpoint {
            Some(e) => e.as_str(),
            None => "https://kms.us-east-1.amazonaws.com",
        }
    }

    /// Whether the key with this id is at hand.
    pub fn knows(&self, id: &str) -> (r: bool)
        ensures
            r == self.keys().contains_key(id@),
    {
        self.known.find(id).is_some()
    }

    /// Whether a data key is in use.
    pub fn has_current(&self) -> (r: bool)
        ensures
            r == self.current_id() is Some,
    {
        self.current.is_some()
    }

    fn keep(&mut self, id: &str, key: Vec<u8>, make_current: bool)
        ensures
            final(self).key() == old(self).key(),
            final(self).address() == old(self).address(),
            final(self).keys() == old(self).keys().insert(id@, key@),
            final(self).current_id() == if make_current {
                Some(id@)
            } else {
                old(self).current_id()
            },
    {
        proof {
            use_type_invariant(&*self);
        }
        let ghost before = *self;
        let was_current = match &self.current {
            Some(c) => Some(c.clone()),
            None => None,
        };
        self.current = None;
        let mut known: StrTable<Vec<u8>> = StrTable::new();
        std::mem::swap(&mut self.known, &mut known);
        let ghost had = known;
        known.insert(id, key);
        let current = if make_current {
            Some(id.to_owned())
        } else {
            was_current
        };
        proof {
            assert(known.map() == had.map().insert(id@, key));
            assert forall|k: Seq<char>| known.contains(k) == (k == id@ || had.contains(k)) by {
                assert(known.map().dom().contains(k) == known.contains(k));
                assert(had.map().dom().contains(k) == had.contains(k));
            }
            assert forall|k: Seq<char>| known.contains(k) implies known.value(k) == (if k == id@ {
                key
            } else {
                had.value(k)
            }) by {
                assert(known.map()[k] == known.value(k));
                if k != id@ {
                    assert(had.map()[k] == had.value(k));
                }
            }
        }
        *self = CloudKmsProvider {
            key_id: self.key_id.clone(),
            endpoint: match &self.endpoint {
                Some(e) => Some(e.clone()),
                None => None,
            },
            current,
            known,
        };
        assert(self.keys() =~= before.keys().insert(id@, key@));
    }

    /// Takes the service's reply to "generate a data key": the key, in
    /// base64, and its wrapped form. A key of 32 bytes is kept under its
    /// wrapped form and becomes the data key in use; any other is refused with
    /// `KeyFormat` and nothing changes.
    pub fn accept_data_key(&mut self, plaintext: &str, ciphertext_blob: &str) -> (r: Result<
        (),
        KmsError,
    >)
        ensures
            final(self).key() == old(self).key(),
            final(self).address() == old(self).address(),
            match key_of_reply(plaintext@) {
                Ok(key) => r is Ok && final(self).keys() == old(self).keys().insert(
                    ciphertext_blob@,
                    key,
                ) && final(self).current_id() == Some(ciphertext_blob@),
                Err(e) => r == Err::<(), KmsError>(e) && final(self).keys() == old(self).keys()
                    && final(self).current_id() == old(self).current_id(),
            },
    {
        let key = base64_decode(plaintext);
        if key.len() != KEY_LEN {
            return Err(KmsError::KeyFormat);
        }
        self.keep(ciphertext_blob, key, true);
        Ok(())
    }

    /// Takes the service's reply to "decrypt" for the wrapped form `id`: the
    /// key, in base64. A key of 32 bytes is kept under `id`; any other is
    /// refused with `KeyFormat` and nothing changes.
    pub fn accept_unwrapped(&mut self, id: &str, plaintext: &str) -> (r: Result<(), KmsError>)
        ensures
            final(self).key() == old(self).key(),
            final(self).address() == old(self).address(),
            final(self).current_id() == old(self).current_id(),
            match key_of_reply(plaintext@) {
                Ok(key) => r is Ok && final(self).keys() == old(self).keys().insert(id@, key),
                Err(e) => r == Err::<(), KmsError>(e) && final(self).keys() == old(self).keys(),
            },
    {
        let key = base64_decode(plaintext);
        if key.len() != KEY_LEN {
            return Err(KmsError::KeyFormat);
        }
        self.keep(id, key, false);
        Ok(())
    }
}

impl KmsProvider for CloudKmsProvider {
    open spec fn kek(&self, id: Seq<char>) -> Option<Seq<u8>> {
        if self.keys().contains_key(id) {
            Some(self.keys()[id])
        } else {
            None
        }
    }

    open spec fn current(&self) -> Option<Seq<char>> {
        self.current_id()
    }

    /// The data key in use; `ProviderIO` while none was fetched.
    fn get_kek(&self) -> (r: Result<(KekId, Vec<u8>), KmsError>)
        ensures
            match self.current_id() {
                Some(id) => r is Ok && r->Ok_0.0@ == id && self.kek(id) == Some(r->Ok_0.1@),
                None => r == Err::<(KekId, Vec<u8>), KmsError>(KmsError::ProviderIO),
            },
    {
        proof {
            use_type_invariant(self);
        }
        match &self.current {
            None => Err(KmsError::ProviderIO),
            Some(id) => match self.known.get(id.as_str()) {
                Some(key) => Ok((KekId(id.clone()), key.clone())),
                None => Err(KmsError::ProviderIO),
            },
        }
    }

    /// The key with this id, if it is at hand; `UnknownKekId` if it has yet to
    /// be fetched.
    fn get_kek_by_id(&self, id: &KekId) -> (r: Result<Vec<u8>, KmsError>)
        ensures
            match self.kek(id@) {
                Some(key) => r is Ok && r->Ok_0@ == key,
                None => r == Err::<Vec<u8>, KmsError>(KmsError::UnknownKekId),
            },
    {
        match self.known.get(id.0.as_str()) {
            Some(key) => Ok(key.clone()),
            None => Err(KmsError::UnknownKekId),
        }
    }

    /// The service wraps blobs over the network, not here.
    fn wrap_blob(&self, plaintext: &[u8]) -> (r: Result<Vec<u8>, KmsError>)
        ensures
            r == Err::<Vec<u8>, KmsError>(KmsError::Unsupported),
    {
        Err(KmsError::Unsupported)
    }

    /// The service unwraps blobs over the network, not here.
    fn unwrap_blob(&self, ciphertext: &[u8]) -> (r: Result<Vec<u8>, KmsError>)
        ensures
            r == Err::<Vec<u8>, KmsError>(KmsError::Unsupported),
    {
        Err(KmsError::Unsupported)
    }
}

} // verus!
