//! Lower-case, `0x`-prefixed hexadecimal text in two width policies.
//!
//! Integers wider than a machine word are given as big-endian bytes; their
//! numeric value is `be_value`.

use vstd::prelude::*;

verus! {

/// The lower-case digit for a value below sixteen.
pub open spec fn hex_digit(d: nat) -> char {
    if d == 0 {
        '0'
    } else if d == 1 {
        '1'
    } else if d == 2 {
        '2'
    } else if d == 3 {
        '3'
    } else if d == 4 {
        '4'
    } else if d == 5 {
        '5'
    } else if d == 6 {
        '6'
    } else if d == 7 {
        '7'
    } else if d == 8 {
        '8'
    } else if d == 9 {
        '9'
    } else if d == 10 {
        'a'
    } else if d == 11 {
        'b'
    } else if d == 12 {
        'c'
    } else if d == 13 {
        'd'
    } else if d == 14 {
        'e'
    } else {
        'f'
    }
}

/// Whether a character is one of the sixteen lower-case hex digits.
pub open spec fn is_hex_digit(c: char) -> bool {
    exists|d: nat| d < 16 && c == #[trigger] hex_digit(d)
}

/// The digits of `n` in base sixteen, most significant first, without
/// leading zeros; zero is the single digit `0`.
pub open spec fn hex_digits(n: nat) -> Seq<char>
    decreases n,
{
    if n < 16 {
        seq![hex_digit(n)]
    } else {
        hex_digits(n / 16).push(hex_digit(n % 16))
    }
}

/// The number that a big-endian byte string stands for.
pub open spec fn be_value(bytes: Seq<u8>) -> nat
    decreases bytes.len(),
{
    if bytes.len() == 0 {
        0
    } else {
        be_value(bytes.drop_last()) * 256 + bytes.last() as nat
    }
}

/// Two digits for every byte, in order.
pub open spec fn byte_pairs(bytes: Seq<u8>) -> Seq<char>
    decreases bytes.len(),
{
    if bytes.len() == 0 {
        Seq::empty()
    } else {
        byte_pairs(bytes.drop_last()).push(hex_digit(bytes.last() as nat / 16)).push(
            hex_digit(bytes.last() as nat % 16),
        )
    }
}

/// The prefix `0x`.
pub open spec fn prefix() -> Seq<char> {
    seq!['0', 'x']
}

/// `n` zero digits.
pub open spec fn zeros(n: nat) -> Seq<char> {
    Seq::new(n, |i: int| '0')
}

/// Minimal-width encoding: the prefix and the digits of `n`, never padded.
pub open spec fn minimal_hex(n: nat) -> Seq<char> {
    prefix() + hex_digits(n)
}

/// Fixed-width encoding: the digits of `n` padded on the left to 64 digits;
/// a number with 64 digits or more keeps all of them.
pub open spec fn padded_hex(n: nat) -> Seq<char> {
    let digits = hex_digits(n);
    if digits.len() >= 64 {
        prefix() + digits
    } else {
        prefix() + zeros((64 - digits.len()) as nat) + digits
    }
}

/// Encoding of a byte string: the prefix and two digits per byte.
pub open spec fn bytes_hex(bytes: Seq<u8>) -> Seq<char> {
    prefix() + byte_pairs(bytes)
}

/// A text made of the prefix and of hex digits, and of nothing else.
pub open spec fn is_hex_text(text: Seq<char>) -> bool {
    &&& text.len() >= 2
    &&& text[0] == '0'
    &&& text[1] == 'x'
    &&& forall|i: int| 2 <= i < text.len() ==> is_hex_digit(#[trigger] text[i])
}

/// `String::push` of the standard library appends one character.
pub assume_specification[ String::push ](s: &mut String, c: char)
    ensures
        final(s)@ == old(s)@.push(c),
;

/// `hex::encode` writes each byte as two lower-case digits, the high half
/// first, and nothing else.
#[verifier::external_body]
fn encode_lower(bytes: &[u8]) -> (text: String)
    ensures
        text@ == byte_pairs(bytes@),
{
    hex::encode(bytes)
}

/// Appending a digit to a positive number's digits multiplies it by sixteen.
pub proof fn lemma_digits_shift(v: nat, d: nat)
    requires
        v > 0,
        d < 16,
    ensures
        hex_digits(v * 16 + d) == hex_digits(v).push(hex_digit(d)),
{
    let n = v * 16 + d;
    assert(n >= 16);
    assert(n / 16 == v && n % 16 == d) by (nonlinear_arith)
        requires
            n == v * 16 + d,
            d < 16,
    ;
}

/// Appending a byte to a positive big-endian number appends its two digits.
pub proof fn lemma_digits_byte(v: nat, b: nat)
    requires
        v > 0,
        b < 256,
    ensures
        hex_digits(v * 256 + b) == hex_digits(v).push(hex_digit(b / 16)).push(hex_digit(b % 16)),
{
    let hi = b / 16;
    let lo = b % 16;
    let w = v * 16 + hi;
    assert(v * 256 + b == w * 16 + lo) by (nonlinear_arith)
        requires
            w == v * 16 + hi,
            hi == b / 16,
            lo == b % 16,
    ;
    assert(hi < 16 && lo < 16);
    lemma_digits_shift(v, hi);
    assert(w > 0);
    lemma_digits_shift(w, lo);
}

/// Every number has at least one digit, and every digit is a hex digit.
pub proof fn lemma_digits_are_hex(n: nat)
    ensures
        hex_digits(n).len() >= 1,
        forall|i: int| 0 <= i < hex_digits(n).len() ==> is_hex_digit(#[trigger] hex_digits(n)[i]),
    decreases n,
{
    if n < 16 {
        assert(is_hex_digit(hex_digit(n)));
    } else {
        lemma_digits_are_hex(n / 16);
        assert(n % 16 < 16);
        assert(is_hex_digit(hex_digit(n % 16)));
    }
}

/// Minimal width: the digits of a positive number do not begin with `0`,
/// and zero is written as the one digit `0`.
pub proof fn lemma_digits_minimal(n: nat)
    ensures
        n == 0 ==> hex_digits(n) == seq!['0'],
        n > 0 ==> hex_digits(n)[0] != '0',
        hex_digits(n).len() >= 1,
    decreases n,
{
    if n >= 16 {
        lemma_digits_minimal(n / 16);
    }
}

/// Balance and nonce are never padded: zero encodes as `0x0`, and no other
/// number has a `0` directly after the prefix.
pub proof fn lemma_minimal_hex_unpadded(n: nat)
    ensures
        minimal_hex(n).len() >= 3,
        minimal_hex(n)[0] == '0',
        minimal_hex(n)[1] == 'x',
        n == 0 ==> minimal_hex(n) == seq!['0', 'x', '0'],
        n > 0 ==> minimal_hex(n)[2] != '0',
        (minimal_hex(n) == seq!['0', 'x', '0']) <==> n == 0,
{
    lemma_digits_minimal(n);
    if n == 0 {
        assert(minimal_hex(n) =~= seq!['0', 'x', '0']);
    } else {
        assert(minimal_hex(n)[2] == hex_digits(n)[0]);
        assert(seq!['0', 'x', '0'][2] == '0');
    }
}

/// A number of `k` bytes has at most `2 * k` digits (one digit where `k` is
/// zero).
pub proof fn lemma_digits_len(bytes: Seq<u8>)
    ensures
        hex_digits(be_value(bytes)).len() <= 2 * bytes.len() || hex_digits(be_value(bytes)).len()
            == 1,
    decreases bytes.len(),
{
    if bytes.len() > 0 {
        let v = be_value(bytes.drop_last());
        let b = bytes.last() as nat;
        lemma_digits_len(bytes.drop_last());
        if v > 0 {
            lemma_digits_byte(v, b);
        } else {
            assert(v * 256 + b == b);
            if b >= 16 {
                assert(hex_digits(b / 16).len() == 1);
            }
        }
    }
}

/// Storage slots and values: a word of at most 32 bytes is written as the
/// prefix and exactly 64 hex digits, the number's own digits last.
pub proof fn lemma_word_is_64_digits(bytes: Seq<u8>)
    requires
        bytes.len() <= 32,
    ensures
        padded_hex(be_value(bytes)).len() == 66,
        padded_hex(be_value(bytes))[0] == '0',
        padded_hex(be_value(bytes))[1] == 'x',
        forall|i: int|
            2 <= i < 66 ==> is_hex_digit(#[trigger] padded_hex(be_value(bytes))[i]),
{
    let n = be_value(bytes);
    let digits = hex_digits(n);
    lemma_digits_len(bytes);
    lemma_digits_are_hex(n);
    assert(digits.len() <= 64);
    let text = padded_hex(n);
    let pad = (64 - digits.len()) as nat;
    assert forall|i: int| 2 <= i < 66 implies is_hex_digit(#[trigger] text[i]) by {
        if digits.len() >= 64 {
            assert(text[i] == digits[i - 2]);
        } else if i < 2 + pad {
            assert(text[i] == '0');
            assert(is_hex_digit(hex_digit(0)));
        } else {
            assert(text[i] == digits[i - 2 - pad]);
        }
    }
}

/// A byte string is written with two hex digits for every byte.
pub proof fn lemma_bytes_hex_len(bytes: Seq<u8>)
    ensures
        byte_pairs(bytes).len() == 2 * bytes.len(),
        bytes_hex(bytes).len() == 2 + 2 * bytes.len(),
        forall|i: int|
            0 <= i < byte_pairs(bytes).len() ==> is_hex_digit(#[trigger] byte_pairs(bytes)[i]),
    decreases bytes.len(),
{
    if bytes.len() > 0 {
        lemma_bytes_hex_len(bytes.drop_last());
        let b = bytes.last() as nat;
        assert(b / 16 < 16 && b % 16 < 16);
        assert(is_hex_digit(hex_digit(b / 16)));
        assert(is_hex_digit(hex_digit(b % 16)));
    }
}

/// Each of the three encodings gives the prefix and hex digits only, so
/// that such a text stands between quotes in a JSON document as it is.
pub proof fn lemma_encodings_are_hex_text(n: nat, bytes: Seq<u8>)
    ensures
        is_hex_text(minimal_hex(n)),
        is_hex_text(padded_hex(n)),
        is_hex_text(bytes_hex(bytes)),
{
    lemma_digits_are_hex(n);
    lemma_bytes_hex_len(bytes);
    let digits = hex_digits(n);
    let minimal = minimal_hex(n);
    assert forall|i: int| 2 <= i < minimal.len() implies is_hex_digit(#[trigger] minimal[i]) by {
        assert(minimal[i] == digits[i - 2]);
    }
    let padded = padded_hex(n);
    let pad = if digits.len() >= 64 {
        0
    } else {
        64 - digits.len()
    };
    assert forall|i: int| 2 <= i < padded.len() implies is_hex_digit(#[trigger] padded[i]) by {
        if i < 2 + pad {
            assert(padded[i] == '0');
            assert(is_hex_digit(hex_digit(0)));
        } else {
            assert(padded[i] == digits[i - 2 - pad]);
        }
    }
    let pairs = byte_pairs(bytes);
    let text = bytes_hex(bytes);
    assert forall|i: int| 2 <= i < text.len() implies is_hex_digit(#[trigger] text[i]) by {
        assert(text[i] == pairs[i - 2]);
    }
}

/// Whether a text holds no quote, no backslash and no control character:
/// nothing that a JSON string would have to escape.
pub open spec fn needs_no_escape(text: Seq<char>) -> bool {
    forall|i: int|
        0 <= i < text.len() ==> {
            let c = #[trigger] text[i];
            c != '"' && c != '\\' && c >= ' '
        }
}

/// A text of the prefix and hex digits needs no escaping.
pub proof fn lemma_hex_text_needs_no_escape(text: Seq<char>)
    requires
        is_hex_text(text),
    ensures
        needs_no_escape(text),
{
    assert forall|i: int| 0 <= i < text.len() implies {
        let c = #[trigger] text[i];
        c != '"' && c != '\\' && c >= ' '
    } by {
        if i >= 2 {
            assert(is_hex_digit(text[i]));
            let d = choose|d: nat| d < 16 && text[i] == #[trigger] hex_digit(d);
            assert(text[i] == hex_digit(d));
        }
    }
}

/// The digit character for a value below sixteen.
fn digit_char(d: u8) -> (c: char)
    requires
        d < 16,
    ensures
        c == hex_digit(d as nat),
{
    if d == 0 {
        '0'
    } else if d == 1 {
        '1'
    } else if d == 2 {
        '2'
    } else if d == 3 {
        '3'
    } else if d == 4 {
        '4'
    } else if d == 5 {
        '5'
    } else if d == 6 {
        '6'
    } else if d == 7 {
        '7'
    } else if d == 8 {
        '8'
    } else if d == 9 {
        '9'
    } else if d == 10 {
        'a'
    } else if d == 11 {
        'b'
    } else if d == 12 {
        'c'
    } else if d == 13 {
        'd'
    } else if d == 14 {
        'e'
    } else {
        'f'
    }
}

/// Appends the digits of `n` to `out`.
fn push_digits_u64(out: &mut String, n: u64)
    ensures
        final(out)@ == old(out)@ + hex_digits(n as nat),
    decreases n,
{
    if n >= 16 {
        push_digits_u64(out, n / 16);
    }
    out.push(digit_char((n % 16) as u8));
    assert(final(out)@ =~= old(out)@ + hex_digits(n as nat));
}

/// A string that holds the prefix `0x`.
fn new_prefixed() -> (out: String)
    ensures
        out@ == prefix(),
{
    let mut out = String::new();
    out.push('0');
    out.push('x');
    assert(out@ =~= prefix());
    out
}

/// The minimal-width encoding of a 64-bit number: `0` gives `0x0`.
pub fn hex_u64(n: u64) -> (text: String)
    ensures
        text@ == minimal_hex(n as nat),
{
    let mut out = new_prefixed();
    push_digits_u64(&mut out, n);
    out
}

/// The digits of a big-endian number of any width, without prefix and
/// without leading zeros.
fn digits_of(bytes: &[u8]) -> (out: String)
    ensures
        out@ == hex_digits(be_value(bytes@)),
{
    let mut out = String::new();
    let mut started = false;
    let mut i: usize = 0;
    while i < bytes.len()
        invariant
            i <= bytes.len(),
            started <==> be_value(bytes@.take(i as int)) > 0,
            started ==> out@ == hex_digits(be_value(bytes@.take(i as int))),
            !started ==> out@ == Seq::<char>::empty(),
        decreases bytes.len() - i,
    {
        let b: u8 = bytes[i];
        proof {
            assert(bytes@.take(i + 1).drop_last() =~= bytes@.take(i as int));
            assert(bytes@.take(i + 1).last() == b);
            let v = be_value(bytes@.take(i as int));
            assert(be_value(bytes@.take(i + 1)) == v * 256 + b as nat);
            if started {
                lemma_digits_byte(v, b as nat);
                assert(v * 256 + b as nat > 0) by (nonlinear_arith)
                    requires
                        v > 0,
                ;
            } else {
                assert(v * 256 + b as nat == b as nat);
            }
        }
        if started || b >= 16 {
            out.push(digit_char(b / 16));
            out.push(digit_char(b % 16));
            proof {
                if !started {
                    assert(out@ =~= hex_digits(b as nat)) by {
                        assert(hex_digits(b as nat / 16) =~= seq![hex_digit(b as nat / 16)]);
                    }
                }
            }
            started = true;
        } else if b > 0 {
            out.push(digit_char(b));
            assert(out@ =~= hex_digits(b as nat));
            started = true;
        }
        i += 1;
    }
    assert(bytes@.take(i as int) =~= bytes@);
    if !started {
        out.push('0');
        assert(out@ =~= hex_digits(0));
    }
    out
}

/// The minimal-width encoding of a number given as big-endian bytes of any
/// width: no padding, and zero (the empty byte string too) gives `0x0`.
pub fn hex_lower(bytes: &[u8]) -> (text: String)
    ensures
        text@ == minimal_hex(be_value(bytes@)),
{
    let digits = digits_of(bytes);
    let mut out = new_prefixed();
    out.append(digits.as_str());
    out
}

/// The fixed-width encoding of a number given as big-endian bytes: the
/// digits are padded on the left with zeros to 64; a number that has 64
/// digits or more is written in full, never cut.
pub fn hex_pad_64_lower(bytes: &[u8]) -> (text: String)
    ensures
        text@ == padded_hex(be_value(bytes@)),
{
    let digits = digits_of(bytes);
    let len = digits.as_str().unicode_len();
    let mut out = new_prefixed();
    if len >= 64 {
        out.append(digits.as_str());
        return out;
    }
    let mut k: usize = 0;
    while k < 64 - len
        invariant
            len < 64,
            k <= 64 - len,
            out@ == prefix() + zeros(k as nat),
        decreases 64 - len - k,
    {
        out.push('0');
        k += 1;
        assert(out@ =~= prefix() + zeros(k as nat));
    }
    out.append(digits.as_str());
    out
}

/// The encoding of a byte string (bytecode, an address): the prefix and two
/// digits for every byte, so the empty string gives `0x`.
pub fn hex_bytes(bytes: &[u8]) -> (text: String)
    ensures
        text@ == bytes_hex(bytes@),
{
    let digits = encode_lower(bytes);
    let mut out = new_prefixed();
    out.append(digits.as_str());
    out
}

} // verus!
