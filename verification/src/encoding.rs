//! A base64 decoder for data-URL payloads: standard alphabet, tolerant of
//! line breaks and spaces, stopping at the first padding character.

use vstd::prelude::*;
use vstd::string::StringSliceAdditionalSpecFns;

verus! {

/// Two to the power `b`.
pub open spec fn two_to(b: nat) -> nat
    decreases b,
{
    if b == 0 {
        1
    } else {
        2 * two_to((b - 1) as nat)
    }
}

/// The small powers of two the decoder's accumulator can reach.
proof fn lemma_two_to_small()
    ensures
        two_to(0) == 1,
        two_to(2) == 4,
        two_to(4) == 16,
        two_to(6) == 64,
        two_to(8) == 256,
        two_to(10) == 1024,
        two_to(12) == 4096,
{
    reveal_with_fuel(two_to, 14);
}

/// The value of a standard-alphabet base64 digit, or nothing.
pub open spec fn b64_char_val(b: u8) -> Option<u8> {
    if 65 <= b <= 90 {  // 'A'..'Z'
        Some((b - 65) as u8)
    } else if 97 <= b <= 122 {  // 'a'..'z'
        Some((b - 71) as u8)
    } else if 48 <= b <= 57 {  // '0'..'9'
        Some((b + 4) as u8)
    } else if b == 43 {  // '+'
        Some(62u8)
    } else if b == 47 {  // '/'
        Some(63u8)
    } else {
        None
    }
}

/// A byte the decoder skips: line feed, carriage return, space.
pub open spec fn b64_skip_byte(b: u8) -> bool {
    b == 10 || b == 13 || b == 32
}

/// What decoding yields from index `i` on, with `bits` bits of value `acc`
/// pending: the decoded bytes, or nothing on a byte outside the alphabet.
/// Decoding stops at the first `=`.
pub open spec fn b64_decode_rec(s: Seq<u8>, i: int, acc: nat, bits: nat) -> Option<Seq<u8>>
    decreases s.len() - i,
    when 0 <= i
{
    if i >= s.len() {
        Some(Seq::empty())
    } else if b64_skip_byte(s[i]) {
        b64_decode_rec(s, i + 1, acc, bits)
    } else if s[i] == 61 {  // '='
        Some(Seq::empty())
    } else {
        match b64_char_val(s[i]) {
            None => None,
            Some(v) => {
                let acc2 = acc * 64 + v as nat;
                if bits + 6 >= 8 {
                    let rem = (bits + 6 - 8) as nat;
                    let byte = acc2 / two_to(rem);
                    match b64_decode_rec(s, i + 1, acc2 % two_to(rem), rem) {
                        None => None,
                        Some(rest) => Some(seq![byte as u8] + rest),
                    }
                } else {
                    b64_decode_rec(s, i + 1, acc2, (bits + 6) as nat)
                }
            },
        }
    }
}

/// What `base64_decode` returns on the bytes of its input.
pub open spec fn b64_decoded(s: Seq<u8>) -> Option<Seq<u8>> {
    b64_decode_rec(s, 0, 0, 0)
}

/// Prepend already-decoded bytes to a partial decoding result.
pub open spec fn with_prefix(prefix: Seq<u8>, r: Option<Seq<u8>>) -> Option<Seq<u8>> {
    match r {
        None => None,
        Some(t) => Some(prefix + t),
    }
}

/// The value of a base64 digit byte, decided.
fn b64_val(b: u8) -> (r: Option<u8>)
    ensures
        r == b64_char_val(b),
{
    if 65 <= b && b <= 90 {
        Some(b - 65)
    } else if 97 <= b && b <= 122 {
        Some(b - 71)
    } else if 48 <= b && b <= 57 {
        Some(b + 4)
    } else if b == 43 {
        Some(62)
    } else if b == 47 {
        Some(63)
    } else {
        None
    }
}

/// Decode standard base64, skipping line breaks and spaces and stopping at
/// the first padding character; any other byte outside the alphabet
/// rejects the input.
pub fn base64_decode(input: &str) -> (r: Result<Vec<u8>, String>)
    ensures
        match r {
            Ok(v) => b64_decoded(vstd::utf8::encode_utf8(input@)) == Some(v@),
            Err(e) => b64_decoded(vstd::utf8::encode_utf8(input@)) is None && e@
                == "Invalid data"@,
        },
{
    let bytes = input.as_bytes_vec();
    let ghost bs = bytes@;
    proof {
        assert(bs == vstd::utf8::encode_utf8(input@));
    }
    let n = bytes.len();
    let mut out: Vec<u8> = Vec::new();
    let mut acc: u32 = 0;
    let mut bits: u8 = 0;
    let mut i: usize = 0;
    proof {
        lemma_two_to_small();
        assert(with_prefix(out@, b64_decode_rec(bs, 0, 0, 0)) == b64_decoded(bs)) by {
            match b64_decode_rec(bs, 0, 0, 0) {
                Some(t) => {
                    assert(out@ + t =~= t);
                },
                None => {},
            }
        }
    }
    while i < n
        invariant
            i <= n,
            n == bs.len(),
            bs == bytes@,
            bs == vstd::utf8::encode_utf8(input@),
            bits == 0 || bits == 2 || bits == 4 || bits == 6,
            acc < two_to(bits as nat),
            two_to(bits as nat) <= 64,
            b64_decoded(bs) == with_prefix(
                out@,
                b64_decode_rec(bs, i as int, acc as nat, bits as nat),
            ),
        decreases n - i,
    {
        proof {
            lemma_two_to_small();
        }
        let b = bytes[i];
        if b == 10 || b == 13 || b == 32 {
            i = i + 1;
            continue ;
        }
        if b == 61 {
            proof {
                assert(b64_decode_rec(bs, i as int, acc as nat, bits as nat) == Some(
                    Seq::<u8>::empty(),
                ));
                assert(out@ + Seq::<u8>::empty() =~= out@);
            }
            return Ok(out);
        }
        let v = match b64_val(b) {
            Some(v) => v,
            None => {
                proof {
                    assert(b64_decode_rec(bs, i as int, acc as nat, bits as nat) is None);
                }
                return Err("Invalid data".to_owned());
            },
        };
        let acc2: u32 = acc * 64 + (v as u32);
        proof {
            assert(v < 64);
            assert(acc2 < 4096);
            assert(acc2 as nat == (acc as nat) * 64 + v as nat);
        }
        if bits >= 2 {
            let rem: u8 = bits - 2;
            let div: u32 = if rem == 0 {
                1
            } else if rem == 2 {
                4
            } else {
                16
            };
            proof {
                assert(div == two_to(rem as nat));
                assert(acc2 < 256 * div);
            }
            let byte: u32 = acc2 / div;
            assert(byte < 256);
            let ghost prev = out@;
            out.push(byte as u8);
            let ghost rec_next = b64_decode_rec(bs, i + 1, (acc2 % div) as nat, rem as nat);
            proof {
                assert(b64_decode_rec(bs, i as int, acc as nat, bits as nat) == (match rec_next {
                    None => None::<Seq<u8>>,
                    Some(rest) => Some(seq![byte as u8] + rest),
                }));
                match rec_next {
                    Some(rest) => {
                        assert(out@ + rest =~= prev + (seq![byte as u8] + rest));
                    },
                    None => {},
                }
            }
            acc = acc2 % div;
            bits = rem;
        } else {
            proof {
                assert(b64_decode_rec(bs, i as int, acc as nat, bits as nat) == b64_decode_rec(
                    bs,
                    i + 1,
                    acc2 as nat,
                    (bits + 6) as nat,
                ));
            }
            acc = acc2;
            bits = bits + 6;
        }
        i = i + 1;
    }
    proof {
        assert(b64_decode_rec(bs, n as int, acc as nat, bits as nat) == Some(Seq::<u8>::empty()));
        assert(out@ + Seq::<u8>::empty() =~= out@);
    }
    Ok(out)
}

/// The digit character of a value below ten.
pub open spec fn dec_digit(d: nat) -> char {
    if d == 0 {
        '0'
    } else if d == 1 {
        '1'
    } else if d == 2 {
        '2'
    } else if d == 3 {
        '3'
    } else if d == 4 {
        '4'
    } else if d == 5 {
        '5'
    } else if d == 6 {
        '6'
    } else if d == 7 {
        '7'
    } else if d == 8 {
        '8'
    } else {
        '9'
    }
}

/// The decimal rendering of a number, most significant digit first.
pub open spec fn dec_str(n: nat) -> Seq<char>
    decreases n,
{
    if n < 10 {
        seq![dec_digit(n)]
    } else {
        dec_str(n / 10) + seq![dec_digit(n % 10)]
    }
}

/// The digit character of a concrete value below ten.
fn dec_digit_char(d: u64) -> (c: char)
    requires
        d < 10,
    ensures
        c == dec_digit(d as nat),
{
    if d == 0 {
        '0'
    } else if d == 1 {
        '1'
    } else if d == 2 {
        '2'
    } else if d == 3 {
        '3'
    } else if d == 4 {
        '4'
    } else if d == 5 {
        '5'
    } else if d == 6 {
        '6'
    } else if d == 7 {
        '7'
    } else if d == 8 {
        '8'
    } else {
        '9'
    }
}

/// Append the decimal rendering of `n`.
fn push_dec(s: &mut String, n: u64)
    ensures
        final(s)@ == old(s)@ + dec_str(n as nat),
    decreases n,
{
    if n >= 10 {
        push_dec(s, n / 10);
    }
    let ghost mid = s@;
    s.push(dec_digit_char(n % 10));
    proof {
        if n < 10 {
            assert(old(s)@ + dec_str(n as nat) =~= s@);
        } else {
            assert(dec_str(n as nat) == dec_str(n as nat / 10) + seq![dec_digit(n as nat % 10)]);
            assert(old(s)@ + dec_str(n as nat) =~= s@);
        }
    }
}

/// Render a number in decimal.
pub fn u64_to_dec(n: u64) -> (r: String)
    ensures
        r@ == dec_str(n as nat),
{
    let mut s = String::new();
    push_dec(&mut s, n);
    proof {
        assert(Seq::<char>::empty() + dec_str(n as nat) =~= dec_str(n as nat));
    }
    s
}

/// The identifier of a speech-transcription session, made from the session
/// counter and the time it started at, in milliseconds since the epoch.
pub fn new_session_id(epoch_ms: u64, count: u64) -> (r: String)
    ensures
        r@ == "speech-"@ + dec_str(epoch_ms as nat) + seq!['-'] + dec_str(count as nat),
{
    let mut s = "speech-".to_owned();
    push_dec(&mut s, epoch_ms);
    s.push('-');
    push_dec(&mut s, count);
    proof {
        assert(s@ =~= "speech-"@ + dec_str(epoch_ms as nat) + seq!['-'] + dec_str(count as nat));
    }
    s
}

} // verus!
