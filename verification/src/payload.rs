//! The JSON claims payload of an access token: serialization of
//! `{"sub": ..., "exp": ...}` with the escaping JSON requires, and the
//! strict parser that inverts it.

use vstd::prelude::*;
use crate::digits::{spec_digits, spec_parse_u64, push_decimal, parse_u64};
use vstd::string::StringSliceAdditionalSpecFns;

verus! {

/// Lowercase hex digit byte for a value below sixteen.
pub open spec fn hex_digit(v: u8) -> u8
    recommends
        v < 16,
{
    if v < 10 {
        (48 + v) as u8
    } else {
        (87 + v) as u8
    }
}

/// True of a byte this module accepts as a hex digit.
pub open spec fn is_hex_byte(c: u8) -> bool {
    (48 <= c && c <= 57) || (97 <= c && c <= 102)
}

/// Value of a hex digit byte.
pub open spec fn hex_val(c: u8) -> u8
    recommends
        is_hex_byte(c),
{
    if 48 <= c && c <= 57 {
        (c - 48) as u8
    } else if 97 <= c && c <= 102 {
        (c - 87) as u8
    } else {
        16
    }
}

/// A hex digit maps back to the value it was made from.
pub proof fn lemma_hex_digit(v: u8)
    requires
        v < 16,
    ensures
        is_hex_byte(hex_digit(v)),
        hex_val(hex_digit(v)) == v,
{
}

/// True of the bytes that JSON requires to be escaped inside a string:
/// the quote, the backslash and the control range.
pub open spec fn needs_escape(b: u8) -> bool {
    b == 34 || b == 92 || b < 32
}

/// The JSON rendering of one byte of a string value: itself, or a
/// six-byte `\u00XX` escape.
pub open spec fn esc_byte(b: u8) -> Seq<u8> {
    if needs_escape(b) {
        seq![92u8, 117u8, 48u8, 48u8, hex_digit(b >> 4), hex_digit(b & 15)]
    } else {
        seq![b]
    }
}

/// The JSON rendering of a string value's bytes.
pub open spec fn spec_escape(s: Seq<u8>) -> Seq<u8>
    decreases s.len(),
{
    if s.len() == 0 {
        Seq::empty()
    } else {
        esc_byte(s[0]) + spec_escape(s.drop_first())
    }
}

/// What reading an escaped string up to its closing quote yields: the
/// unescaped bytes and how many input bytes were consumed, quote included.
pub open spec fn spec_unescape(b: Seq<u8>) -> Option<(Seq<u8>, int)>
    decreases b.len(),
{
    if b.len() == 0 {
        None
    } else if b[0] == 34 {
        Some((Seq::empty(), 1))
    } else if b[0] == 92 {
        if b.len() >= 6 && b[1] == 117 && b[2] == 48 && b[3] == 48 && is_hex_byte(b[4])
            && is_hex_byte(b[5]) {
            match spec_unescape(b.skip(6)) {
                Some(p) => Some(
                    (seq![((hex_val(b[4]) << 4) | hex_val(b[5])) as u8] + p.0, 6 + p.1),
                ),
                None => None,
            }
        } else {
            None
        }
    } else if b[0] < 32 {
        None
    } else {
        match spec_unescape(b.skip(1)) {
            Some(p) => Some((seq![b[0]] + p.0, 1 + p.1)),
            None => None,
        }
    }
}

/// A successful read consumes between one byte and the whole input.
pub proof fn lemma_unescape_bounds(b: Seq<u8>)
    ensures
        spec_unescape(b) matches Some(p) ==> 1 <= p.1 <= b.len(),
    decreases b.len(),
{
    if b.len() == 0 {
    } else if b[0] == 34 {
    } else if b[0] == 92 {
        if b.len() >= 6 && b[1] == 117 && b[2] == 48 && b[3] == 48 && is_hex_byte(b[4])
            && is_hex_byte(b[5]) {
            lemma_unescape_bounds(b.skip(6));
        }
    } else if b[0] < 32 {
    } else {
        lemma_unescape_bounds(b.skip(1));
    }
}

/// Reading an escaped string inverts escaping, whatever follows the
/// closing quote.
pub proof fn lemma_unescape_of_escape(s: Seq<u8>, tail: Seq<u8>)
    ensures
        spec_unescape(spec_escape(s) + seq![34u8] + tail) == Some(
            (s, spec_escape(s).len() + 1 as int),
        ),
    decreases s.len(),
{
    let input = spec_escape(s) + seq![34u8] + tail;
    if s.len() == 0 {
        assert(spec_escape(s) =~= Seq::<u8>::empty());
        assert(input[0] == 34);
        assert(s =~= Seq::<u8>::empty());
    } else {
        let c = s[0];
        let rest = s.drop_first();
        lemma_unescape_of_escape(rest, tail);
        let e = esc_byte(c);
        let inner = spec_escape(rest) + seq![34u8] + tail;
        assert(spec_escape(s) == e + spec_escape(rest));
        assert(input =~= e + inner);
        if needs_escape(c) {
            assert(c >> 4 < 16 && c & 15 < 16) by (bit_vector);
            lemma_hex_digit(c >> 4);
            lemma_hex_digit(c & 15);
            assert(input[0] == 92 && input[1] == 117 && input[2] == 48 && input[3] == 48);
            assert(input[4] == hex_digit(c >> 4) && input[5] == hex_digit(c & 15));
            assert(input.skip(6) =~= inner);
            let hv = hex_val(input[4]);
            let lv = hex_val(input[5]);
            assert(hv == c >> 4 && lv == c & 15);
            assert(((c >> 4) << 4) | (c & 15) == c) by (bit_vector);
            assert(spec_unescape(input) == Some((seq![c] + rest, 6 + spec_escape(rest).len() + 1 as int)));
            assert(seq![c] + rest =~= s);
        } else {
            assert(input[0] == c);
            assert(!(c == 34) && !(c == 92) && c >= 32);
            assert(input.skip(1) =~= inner);
            assert(spec_unescape(input) == Some((seq![c] + rest, 1 + spec_escape(rest).len() + 1 as int)));
            assert(seq![c] + rest =~= s);
        }
    }
}

/// Appends the JSON rendering of `src` to `out`.
pub fn escape_into(src: &[u8], out: &mut Vec<u8>)
    ensures
        final(out)@ == old(out)@ + spec_escape(src@),
{
    let n = src.len();
    let mut i: usize = 0;
    proof {
        assert(src@.skip(0) =~= src@);
        assert(old(out)@ + Seq::<u8>::empty() =~= old(out)@);
    }
    while i < n
        invariant
            i <= n,
            n == src@.len(),
            old(out)@ + spec_escape(src@) == out@ + spec_escape(src@.skip(i as int)),
        decreases n - i,
    {
        let b = src[i];
        proof {
            let t = src@.skip(i as int);
            assert(t[0] == b);
            assert(t.drop_first() =~= src@.skip(i + 1));
            assert(spec_escape(t) == esc_byte(b) + spec_escape(src@.skip(i + 1)));
        }
        if b == 34 || b == 92 || b < 32 {
            proof {
                assert(b >> 4 < 16 && b & 15 < 16) by (bit_vector);
            }
            out.push(92);
            out.push(117);
            out.push(48);
            out.push(48);
            let hi = b >> 4;
            let lo = b & 15;
            out.push(if hi < 10 { 48 + hi } else { 87 + hi });
            out.push(if lo < 10 { 48 + lo } else { 87 + lo });
            proof {
                assert(old(out)@ + spec_escape(src@) =~= out@ + spec_escape(src@.skip(i + 1)));
            }
        } else {
            out.push(b);
            proof {
                assert(old(out)@ + spec_escape(src@) =~= out@ + spec_escape(src@.skip(i + 1)));
            }
        }
        i = i + 1;
    }
    proof {
        assert(spec_escape(src@.skip(n as int)) =~= Seq::<u8>::empty());
        assert(out@ =~= old(out)@ + spec_escape(src@));
    }
}

/// Reads an escaped string from `b` starting at `start`; on success
/// returns the unescaped bytes and the index just past the closing quote.
pub fn unescape_from(b: &[u8], start: usize) -> (r: Option<(Vec<u8>, usize)>)
    requires
        start <= b@.len(),
    ensures
        match spec_unescape(b@.skip(start as int)) {
            Some(p) => r matches Some(q) && q.0@ == p.0 && q.1 == start + p.1,
            None => r is None,
        },
{
    let n = b.len();
    let mut out: Vec<u8> = Vec::new();
    let mut i: usize = start;
    proof {
        let whole = spec_unescape(b@.skip(start as int));
        if whole is Some {
            assert(out@ + whole.unwrap().0 =~= whole.unwrap().0);
        }
    }
    while i < n
        invariant
            start <= i <= n,
            n == b@.len(),
            spec_unescape(b@.skip(start as int)) == match spec_unescape(b@.skip(i as int)) {
                Some(p) => Some((out@ + p.0, (i - start) + p.1)),
                None => None::<(Seq<u8>, int)>,
            },
        decreases n - i,
    {
        let c = b[i];
        proof {
            let t = b@.skip(i as int);
            assert(t[0] == c);
        }
        if c == 34 {
            return Some((out, i + 1));
        } else if c == 92 {
            if n - i < 6 {
                return None;
            }
            let u = b[i + 1];
            let z1 = b[i + 2];
            let z2 = b[i + 3];
            let h = b[i + 4];
            let l = b[i + 5];
            proof {
                let t = b@.skip(i as int);
                assert(t.len() >= 6);
                assert(t[1] == u && t[2] == z1 && t[3] == z2 && t[4] == h && t[5] == l);
                assert(t.skip(6) =~= b@.skip(i + 6));
            }
            if u != 117 || z1 != 48 || z2 != 48 {
                return None;
            }
            let hv = if 48 <= h && h <= 57 {
                h - 48
            } else if 97 <= h && h <= 102 {
                h - 87
            } else {
                return None;
            };
            let lv = if 48 <= l && l <= 57 {
                l - 48
            } else if 97 <= l && l <= 102 {
                l - 87
            } else {
                return None;
            };
            proof {
                assert(hv == hex_val(h) && lv == hex_val(l));
                assert(is_hex_byte(h) && is_hex_byte(l));
                assert(hv < 16 && lv < 16);
                assert(forall|x: u8, y: u8| #![auto] x < 16 && y < 16 ==> ((x << 4) | y) < 256)
                    by (bit_vector);
            }
            out.push((hv << 4) | lv);
            proof {
                let t = b@.skip(i as int);
                let dec = spec_unescape(b@.skip(i + 6));
                if dec is Some {
                    let whole = spec_unescape(b@.skip(start as int));
                    assert(spec_unescape(t) == Some(
                        (seq![((hex_val(t[4]) << 4) | hex_val(t[5])) as u8] + dec.unwrap().0,
                        6 + dec.unwrap().1),
                    ));
                    assert(whole is Some);
                    assert(whole.unwrap().0 =~= out@ + dec.unwrap().0);
                }
            }
            i = i + 6;
        } else if c < 32 {
            return None;
        } else {
            out.push(c);
            proof {
                let t = b@.skip(i as int);
                assert(t.drop_first() =~= b@.skip(i + 1));
                let dec = spec_unescape(b@.skip(i + 1));
                if dec is Some {
                    let whole = spec_unescape(b@.skip(start as int));
                    assert(spec_unescape(t) == Some((seq![c] + dec.unwrap().0, 1 + dec.unwrap().1)));
                    assert(whole is Some);
                    assert(whole.unwrap().0 =~= out@ + dec.unwrap().0);
                }
            }
            i = i + 1;
        }
    }
    proof {
        assert(b@.skip(n as int).len() == 0);
    }
    None
}

/// The opening bytes of a claims payload: `{"sub":"`.
pub open spec fn json_pre() -> Seq<u8> {
    seq![123u8, 34u8, 115u8, 117u8, 98u8, 34u8, 58u8, 34u8]
}

/// The bytes between the subject and the expiry: `,"exp":` (the closing
/// quote of the subject is consumed by the string reader).
pub open spec fn json_mid() -> Seq<u8> {
    seq![44u8, 34u8, 101u8, 120u8, 112u8, 34u8, 58u8]
}

/// The opening bytes of a payload that carries only an expiry: `{"exp":`.
pub open spec fn json_epre() -> Seq<u8> {
    seq![123u8, 34u8, 101u8, 120u8, 112u8, 34u8, 58u8]
}

/// The claims payload for a subject (as its UTF-8 bytes) and an expiry.
pub open spec fn spec_payload(sub: Seq<u8>, exp: u64) -> Seq<u8> {
    json_pre() + spec_escape(sub) + seq![34u8] + json_mid() + spec_digits(exp as nat)
        + seq![125u8]
}

/// The shapes a claims payload can take: both claims present, a
/// well-formed object with a claim missing, or anything else.
pub enum PayloadShape {
    Full { sub: Seq<u8>, exp: u64 },
    MissingClaim,
    Bad,
}

/// What parsing a claims payload yields. Only the canonical renderings of
/// the claims object and of its claim-missing variants are accepted; a
/// missing required claim is told apart from a malformed payload.
pub open spec fn spec_parse_payload(b: Seq<u8>) -> PayloadShape {
    if b.len() >= 8 && b.subrange(0, 8) == json_pre() {
        match spec_unescape(b.skip(8)) {
            Some(p) => {
                let rest = b.skip(8 + p.1);
                if rest =~= seq![125u8] {
                    PayloadShape::MissingClaim
                } else if rest.len() >= 9 && rest.subrange(0, 7) == json_mid()
                    && rest.last() == 125 {
                    match spec_parse_u64(rest.subrange(7, rest.len() - 1)) {
                        Some(exp) => PayloadShape::Full { sub: p.0, exp },
                        None => PayloadShape::Bad,
                    }
                } else {
                    PayloadShape::Bad
                }
            },
            None => PayloadShape::Bad,
        }
    } else if b.len() >= 9 && b.subrange(0, 7) == json_epre() && b.last() == 125
        && spec_parse_u64(b.subrange(7, b.len() - 1)) is Some {
        PayloadShape::MissingClaim
    } else if b =~= seq![123u8, 125u8] {
        PayloadShape::MissingClaim
    } else {
        PayloadShape::Bad
    }
}

/// Parsing a payload inverts building it: the rendered claims come back.
pub proof fn lemma_parse_of_payload(sub: Seq<u8>, exp: u64)
    ensures
        spec_parse_payload(spec_payload(sub, exp)) == (PayloadShape::Full {
            sub,
            exp,
        }),
{
    let b = spec_payload(sub, exp);
    let esc = spec_escape(sub);
    let tail = json_mid() + spec_digits(exp as nat) + seq![125u8];
    crate::digits::lemma_digits_val_of_spec_digits(exp as nat);
    assert(b.len() >= 8 + esc.len() + 1 + 7 + 1 + 1);
    assert(b.subrange(0, 8) =~= json_pre());
    assert(b.skip(8) =~= esc + seq![34u8] + tail);
    lemma_unescape_of_escape(sub, tail);
    assert(spec_unescape(b.skip(8)) == Some((sub, esc.len() + 1 as int)));
    let rest = b.skip(8 + esc.len() as int + 1);
    assert(rest =~= tail);
    assert(rest.len() == 7 + spec_digits(exp as nat).len() + 1);
    assert(rest.len() >= 9);
    assert(rest.subrange(0, 7) =~= json_mid());
    assert(rest.last() == 125);
    assert(rest.subrange(7, rest.len() - 1) =~= spec_digits(exp as nat));
    crate::digits::lemma_parse_of_spec_digits(exp);
    assert(spec_parse_u64(rest.subrange(7, rest.len() - 1)) == Some(exp));
}

/// Build the claims payload bytes for a subject and an expiry timestamp.
pub fn payload_bytes(sub: &str, exp: u64) -> (r: Vec<u8>)
    ensures
        r@ == spec_payload(sub.spec_bytes(), exp),
{
    let mut out: Vec<u8> = Vec::new();
    out.push(123);
    out.push(34);
    out.push(115);
    out.push(117);
    out.push(98);
    out.push(34);
    out.push(58);
    out.push(34);
    proof {
        assert(out@ =~= json_pre());
    }
    escape_into(sub.as_bytes(), &mut out);
    out.push(34);
    out.push(44);
    out.push(34);
    out.push(101);
    out.push(120);
    out.push(112);
    out.push(34);
    out.push(58);
    push_decimal(exp, &mut out);
    out.push(125);
    proof {
        assert(out@ =~= spec_payload(sub.spec_bytes(), exp));
    }
    out
}

/// The result of parsing a claims payload: the subject's raw bytes and
/// the expiry, or the reason nothing came out.
pub enum ParsedPayload {
    Full { sub: Vec<u8>, exp: u64 },
    MissingClaim,
    Bad,
}

/// Parse a claims payload strictly: exactly the canonical rendering of
/// the claims object, or of an object with a required claim missing, is
/// recognized.
pub fn parse_payload(b: &[u8]) -> (r: ParsedPayload)
    ensures
        match spec_parse_payload(b@) {
            PayloadShape::Full { sub, exp } => r matches ParsedPayload::Full {
                sub: s,
                exp: e,
            } && s@ == sub && e == exp,
            PayloadShape::MissingClaim => r is MissingClaim,
            PayloadShape::Bad => r is Bad,
        },
{
    let n = b.len();
    if n >= 8 && b[0] == 123 && b[1] == 34 && b[2] == 115 && b[3] == 117 && b[4] == 98
        && b[5] == 34 && b[6] == 58 && b[7] == 34 {
        proof {
            assert(b@.subrange(0, 8) =~= json_pre());
        }
        match unescape_from(b, 8) {
            Some((sub, pos)) => {
                proof {
                    lemma_unescape_bounds(b@.skip(8));
                    assert(b@.skip(8 + (pos - 8)) =~= b@.skip(pos as int));
                }
                let ghost rest = b@.skip(pos as int);
                if n - pos == 1 && b[pos] == 125 {
                    proof {
                        assert(rest =~= seq![125u8]);
                    }
                    ParsedPayload::MissingClaim
                } else if n - pos >= 9 && b[pos] == 44 && b[pos + 1] == 34 && b[pos + 2] == 101
                    && b[pos + 3] == 120 && b[pos + 4] == 112 && b[pos + 5] == 34
                    && b[pos + 6] == 58 && b[n - 1] == 125 {
                    proof {
                        assert(!(rest =~= seq![125u8]));
                        assert(rest.subrange(0, 7) =~= json_mid());
                        assert(rest.last() == 125);
                        assert(rest.subrange(7, rest.len() - 1) =~= b@.subrange(
                            pos + 7,
                            n - 1,
                        ));
                    }
                    match parse_u64(b, pos + 7, n - 1) {
                        Some(exp) => ParsedPayload::Full { sub, exp },
                        None => ParsedPayload::Bad,
                    }
                } else {
                    proof {
                        assert(pos <= n);
                        assert(rest.len() == n - pos);
                        if rest =~= seq![125u8] {
                            assert(n - pos == 1);
                            assert(rest[0] == b@[pos as int]);
                            assert(b@[pos as int] == 125);
                            assert(false);
                        }
                        if rest.len() >= 9 && rest.subrange(0, 7) == json_mid()
                            && rest.last() == 125 {
                            assert(rest[0] == b@[pos as int]);
                            assert(rest[1] == b@[pos + 1]);
                            assert(rest[2] == b@[pos + 2]);
                            assert(rest[3] == b@[pos + 3]);
                            assert(rest[4] == b@[pos + 4]);
                            assert(rest[5] == b@[pos + 5]);
                            assert(rest[6] == b@[pos + 6]);
                            assert(rest.last() == b@[n - 1]);
                            assert(false);
                        }
                    }
                    ParsedPayload::Bad
                }
            },
            None => ParsedPayload::Bad,
        }
    } else if n >= 9 && b[0] == 123 && b[1] == 34 && b[2] == 101 && b[3] == 120 && b[4] == 112
        && b[5] == 34 && b[6] == 58 && b[n - 1] == 125 {
        proof {
            assert(b@.subrange(0, 7) =~= json_epre());
            assert(b@.last() == 125);
            assert(b@.subrange(7, n - 1) =~= b@.subrange(7, b@.len() - 1));
            if b@.len() >= 8 && b@.subrange(0, 8) == json_pre() {
                assert(b@.subrange(0, 8)[2] == 115);
                assert(false);
            }
        }
        match parse_u64(b, 7, n - 1) {
            Some(_) => ParsedPayload::MissingClaim,
            None => ParsedPayload::Bad,
        }
    } else if n == 2 && b[0] == 123 && b[1] == 125 {
        proof {
            assert(b@ =~= seq![123u8, 125u8]);
        }
        ParsedPayload::MissingClaim
    } else {
        proof {
            if b@.len() >= 8 && b@.subrange(0, 8) == json_pre() {
                assert(b@[0] == 123 && b@[1] == 34 && b@[2] == 115 && b@[3] == 117
                    && b@[4] == 98 && b@[5] == 34 && b@[6] == 58 && b@[7] == 34);
                assert(false);
            }
            if b@.len() >= 9 && b@.subrange(0, 7) == json_epre() && b@.last() == 125
                && spec_parse_u64(b@.subrange(7, b@.len() - 1)) is Some {
                assert(b@[0] == 123 && b@[1] == 34 && b@[2] == 101 && b@[3] == 120
                    && b@[4] == 112 && b@[5] == 34 && b@[6] == 58);
                assert(b@[b@.len() - 1] == 125);
                assert(false);
            }
            if b@ =~= seq![123u8, 125u8] {
                assert(false);
            }
        }
        ParsedPayload::Bad
    }
}

} // verus!
