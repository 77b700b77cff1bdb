//! Base64url (no padding) encoding and decoding of byte sequences, the
//! textual wrapping of the segments of an access token.

use vstd::prelude::*;

verus! {

/// The base64url alphabet value of byte `c`, or 64 when `c` is not in the
/// alphabet.
pub open spec fn b64_val(c: u8) -> u8 {
    if 65 <= c && c <= 90 {
        (c - 65) as u8
    } else if 97 <= c && c <= 122 {
        (c - 71) as u8
    } else if 48 <= c && c <= 57 {
        (c + 4) as u8
    } else if c == 45 {
        62
    } else if c == 95 {
        63
    } else {
        64
    }
}

/// True of the bytes of the base64url alphabet.
pub open spec fn is_b64_byte(c: u8) -> bool {
    b64_val(c) < 64
}

/// The base64url alphabet byte for a 6-bit value.
pub open spec fn b64_char(v: u8) -> u8
    recommends
        v < 64,
{
    if v < 26 {
        (65 + v) as u8
    } else if v < 52 {
        (71 + v) as u8
    } else if v < 62 {
        (v - 4) as u8
    } else if v == 62 {
        45
    } else {
        95
    }
}

/// The alphabet byte of a 6-bit value is in the alphabet and maps back to
/// that value.
pub proof fn lemma_b64_char_val(v: u8)
    requires
        v < 64,
    ensures
        is_b64_byte(b64_char(v)),
        b64_val(b64_char(v)) == v,
{
}

/// The base64url rendering of a byte sequence, without padding.
pub open spec fn spec_b64(b: Seq<u8>) -> Seq<u8>
    decreases b.len(),
{
    if b.len() == 0 {
        Seq::empty()
    } else if b.len() == 1 {
        seq![b64_char(b[0] >> 2), b64_char(((b[0] & 3) << 4) as u8)]
    } else if b.len() == 2 {
        seq![
            b64_char(b[0] >> 2),
            b64_char((((b[0] & 3) << 4) | (b[1] >> 4)) as u8),
            b64_char(((b[1] & 15) << 2) as u8),
        ]
    } else {
        seq![
            b64_char(b[0] >> 2),
            b64_char((((b[0] & 3) << 4) | (b[1] >> 4)) as u8),
            b64_char((((b[1] & 15) << 2) | (b[2] >> 6)) as u8),
            b64_char((b[2] & 63) as u8),
        ] + spec_b64(b.skip(3))
    }
}

/// What decoding a base64url text yields: the original bytes for any
/// text the encoder can produce; texts of a workable length whose bytes
/// are all in the alphabet also decode, even when their unused trailing
/// bits are not zero, so some texts outside the encoder's image are
/// accepted leniently.
pub open spec fn spec_b64_decode(s: Seq<u8>) -> Option<Seq<u8>>
    decreases s.len(),
{
    if s.len() == 0 {
        Some(Seq::empty())
    } else if s.len() == 1 {
        None
    } else if s.len() == 2 {
        if is_b64_byte(s[0]) && is_b64_byte(s[1]) {
            Some(seq![((b64_val(s[0]) << 2) | (b64_val(s[1]) >> 4)) as u8])
        } else {
            None
        }
    } else if s.len() == 3 {
        if is_b64_byte(s[0]) && is_b64_byte(s[1]) && is_b64_byte(s[2]) {
            Some(
                seq![
                    ((b64_val(s[0]) << 2) | (b64_val(s[1]) >> 4)) as u8,
                    (((b64_val(s[1]) & 15) << 4) | (b64_val(s[2]) >> 2)) as u8,
                ],
            )
        } else {
            None
        }
    } else {
        if is_b64_byte(s[0]) && is_b64_byte(s[1]) && is_b64_byte(s[2]) && is_b64_byte(s[3]) {
            match spec_b64_decode(s.skip(4)) {
                Some(rest) => Some(
                    seq![
                        ((b64_val(s[0]) << 2) | (b64_val(s[1]) >> 4)) as u8,
                        (((b64_val(s[1]) & 15) << 4) | (b64_val(s[2]) >> 2)) as u8,
                        (((b64_val(s[2]) & 3) << 6) | b64_val(s[3])) as u8,
                    ] + rest,
                ),
                None => None,
            }
        } else {
            None
        }
    }
}

/// Every byte of a base64url rendering is in the alphabet.
pub proof fn lemma_b64_alphabet(b: Seq<u8>)
    ensures
        forall|i: int| 0 <= i < spec_b64(b).len() ==> #[trigger] is_b64_byte(spec_b64(b)[i]),
    decreases b.len(),
{
    if b.len() == 0 {
    } else if b.len() == 1 {
        let b0 = b[0];
        assert(b0 >> 2 < 64 && (b0 & 3) << 4 < 64) by (bit_vector);
        lemma_b64_char_val(b0 >> 2);
        lemma_b64_char_val(((b0 & 3) << 4) as u8);
        assert(forall|i: int| 0 <= i < spec_b64(b).len()
            ==> #[trigger] is_b64_byte(spec_b64(b)[i]));
    } else if b.len() == 2 {
        let b0 = b[0];
        let b1 = b[1];
        assert(b0 >> 2 < 64 && ((b0 & 3) << 4) | (b1 >> 4) < 64 && (b1 & 15) << 2 < 64)
            by (bit_vector);
        lemma_b64_char_val(b0 >> 2);
        lemma_b64_char_val((((b0 & 3) << 4) | (b1 >> 4)) as u8);
        lemma_b64_char_val(((b1 & 15) << 2) as u8);
        assert(forall|i: int| 0 <= i < spec_b64(b).len()
            ==> #[trigger] is_b64_byte(spec_b64(b)[i]));
    } else {
        let b0 = b[0];
        let b1 = b[1];
        let b2 = b[2];
        assert(b0 >> 2 < 64 && ((b0 & 3) << 4) | (b1 >> 4) < 64
            && ((b1 & 15) << 2) | (b2 >> 6) < 64 && b2 & 63 < 64) by (bit_vector);
        lemma_b64_char_val(b0 >> 2);
        lemma_b64_char_val((((b0 & 3) << 4) | (b1 >> 4)) as u8);
        lemma_b64_char_val((((b1 & 15) << 2) | (b2 >> 6)) as u8);
        lemma_b64_char_val((b2 & 63) as u8);
        lemma_b64_alphabet(b.skip(3));
        let s = spec_b64(b);
        let tail = spec_b64(b.skip(3));
        assert(forall|i: int| 0 <= i < s.len() ==> #[trigger] is_b64_byte(s[i])) by {
            assert(forall|i: int| 4 <= i < s.len() ==> s[i] == #[trigger] tail[i - 4]);
        }
    }
}

/// Decoding inverts encoding: the rendering of any byte sequence decodes
/// back to exactly that sequence.
pub proof fn lemma_b64_roundtrip(b: Seq<u8>)
    ensures
        spec_b64_decode(spec_b64(b)) == Some(b),
    decreases b.len(),
{
    if b.len() == 0 {
        assert(spec_b64_decode(spec_b64(b)) == Some(Seq::<u8>::empty()));
        assert(b =~= Seq::<u8>::empty());
    } else if b.len() == 1 {
        let b0 = b[0];
        let c0 = b64_char(b0 >> 2);
        let c1 = b64_char(((b0 & 3) << 4) as u8);
        assert(b0 >> 2 < 64 && (b0 & 3) << 4 < 64) by (bit_vector);
        lemma_b64_char_val(b0 >> 2);
        lemma_b64_char_val(((b0 & 3) << 4) as u8);
        assert(((b0 >> 2) << 2) | (((b0 & 3) << 4) >> 4) == b0) by (bit_vector);
        let s = spec_b64(b);
        assert(s =~= seq![c0, c1]);
        assert(spec_b64_decode(s) == Some(seq![b0]));
        assert(seq![b0] =~= b);
    } else if b.len() == 2 {
        let b0 = b[0];
        let b1 = b[1];
        assert(b0 >> 2 < 64 && ((b0 & 3) << 4) | (b1 >> 4) < 64 && (b1 & 15) << 2 < 64)
            by (bit_vector);
        lemma_b64_char_val(b0 >> 2);
        lemma_b64_char_val((((b0 & 3) << 4) | (b1 >> 4)) as u8);
        lemma_b64_char_val(((b1 & 15) << 2) as u8);
        assert(((b0 >> 2) << 2) | ((((b0 & 3) << 4) | (b1 >> 4)) >> 4) == b0) by (bit_vector);
        assert((((((b0 & 3) << 4) | (b1 >> 4)) & 15) << 4) | (((b1 & 15) << 2) >> 2) == b1)
            by (bit_vector);
        let s = spec_b64(b);
        assert(s.len() == 3);
        assert(spec_b64_decode(s) == Some(seq![b0, b1]));
        assert(seq![b0, b1] =~= b);
    } else {
        let b0 = b[0];
        let b1 = b[1];
        let b2 = b[2];
        assert(b0 >> 2 < 64 && ((b0 & 3) << 4) | (b1 >> 4) < 64
            && ((b1 & 15) << 2) | (b2 >> 6) < 64 && b2 & 63 < 64) by (bit_vector);
        lemma_b64_char_val(b0 >> 2);
        lemma_b64_char_val((((b0 & 3) << 4) | (b1 >> 4)) as u8);
        lemma_b64_char_val((((b1 & 15) << 2) | (b2 >> 6)) as u8);
        lemma_b64_char_val((b2 & 63) as u8);
        assert(((b0 >> 2) << 2) | ((((b0 & 3) << 4) | (b1 >> 4)) >> 4) == b0) by (bit_vector);
        assert((((((b0 & 3) << 4) | (b1 >> 4)) & 15) << 4)
            | (((((b1 & 15) << 2) | (b2 >> 6))) >> 2) == b1) by (bit_vector);
        assert((((((b1 & 15) << 2) | (b2 >> 6)) & 3) << 6) | (b2 & 63) == b2) by (bit_vector);
        lemma_b64_roundtrip(b.skip(3));
        lemma_b64_alphabet(b.skip(3));
        let s = spec_b64(b);
        let tail = spec_b64(b.skip(3));
        assert(s == seq![s[0], s[1], s[2], s[3]] + tail);
        assert(s.skip(4) =~= tail);
        if tail.len() == 0 {
            assert(s.len() == 4);
        }
        assert(spec_b64_decode(s) == Some(seq![b0, b1, b2] + b.skip(3)));
        assert(seq![b0, b1, b2] + b.skip(3) =~= b);
    }
}

/// The alphabet byte for a 6-bit value.
fn b64_char_at(v: u8) -> (r: u8)
    requires
        v < 64,
    ensures
        r == b64_char(v),
{
    if v < 26 {
        65 + v
    } else if v < 52 {
        71 + v
    } else if v < 62 {
        v - 4
    } else if v == 62 {
        45
    } else {
        95
    }
}

/// The 6-bit value of an alphabet byte, or 64 for a byte outside it.
fn b64_val_at(c: u8) -> (r: u8)
    ensures
        r == b64_val(c),
{
    if 65 <= c && c <= 90 {
        c - 65
    } else if 97 <= c && c <= 122 {
        c - 71
    } else if 48 <= c && c <= 57 {
        c + 4
    } else if c == 45 {
        62
    } else if c == 95 {
        63
    } else {
        64
    }
}

/// Encode a byte slice as base64url text without padding.
pub fn b64_encode(b: &[u8]) -> (r: Vec<u8>)
    ensures
        r@ == spec_b64(b@),
{
    let n = b.len();
    let mut out: Vec<u8> = Vec::new();
    let mut i: usize = 0;
    proof {
        assert(b@.skip(0) =~= b@);
        assert(out@ + spec_b64(b@) =~= spec_b64(b@));
    }
    while n - i >= 3
        invariant
            i <= n,
            n == b@.len(),
            spec_b64(b@) == out@ + spec_b64(b@.skip(i as int)),
        decreases n - i,
    {
        let b0 = b[i];
        let b1 = b[i + 1];
        let b2 = b[i + 2];
        proof {
            assert(b0 >> 2 < 64 && ((b0 & 3) << 4) | (b1 >> 4) < 64
                && ((b1 & 15) << 2) | (b2 >> 6) < 64 && b2 & 63 < 64) by (bit_vector);
        }
        out.push(b64_char_at(b0 >> 2));
        out.push(b64_char_at(((b0 & 3) << 4) | (b1 >> 4)));
        out.push(b64_char_at(((b1 & 15) << 2) | (b2 >> 6)));
        out.push(b64_char_at(b2 & 63));
        proof {
            let s = b@.skip(i as int);
            assert(s.len() >= 3);
            assert(s[0] == b0 && s[1] == b1 && s[2] == b2);
            assert(s.skip(3) =~= b@.skip(i + 3));
            assert(spec_b64(b@) =~= out@ + spec_b64(b@.skip(i + 3)));
        }
        i = i + 3;
    }
    if n - i == 1 {
        let b0 = b[i];
        proof {
            assert(b0 >> 2 < 64 && (b0 & 3) << 4 < 64) by (bit_vector);
            let s = b@.skip(i as int);
            assert(s.len() == 1);
            assert(s[0] == b0);
        }
        out.push(b64_char_at(b0 >> 2));
        out.push(b64_char_at((b0 & 3) << 4));
        proof {
            assert(out@ =~= spec_b64(b@));
        }
    } else if n - i == 2 {
        let b0 = b[i];
        let b1 = b[i + 1];
        proof {
            assert(b0 >> 2 < 64 && ((b0 & 3) << 4) | (b1 >> 4) < 64 && (b1 & 15) << 2 < 64)
                by (bit_vector);
            let s = b@.skip(i as int);
            assert(s.len() == 2);
            assert(s[0] == b0 && s[1] == b1);
        }
        out.push(b64_char_at(b0 >> 2));
        out.push(b64_char_at(((b0 & 3) << 4) | (b1 >> 4)));
        out.push(b64_char_at((b1 & 15) << 2));
        proof {
            assert(out@ =~= spec_b64(b@));
        }
    } else {
        proof {
            assert(b@.skip(i as int) =~= Seq::<u8>::empty());
            assert(out@ =~= spec_b64(b@));
        }
    }
    out
}

/// Decode base64url text back into bytes; any text that no byte sequence
/// encodes to is rejected.
pub fn b64_decode(s: &[u8]) -> (r: Option<Vec<u8>>)
    ensures
        match spec_b64_decode(s@) {
            Some(d) => r matches Some(v) && v@ == d,
            None => r is None,
        },
{
    let n = s.len();
    let mut out: Vec<u8> = Vec::new();
    let mut i: usize = 0;
    proof {
        assert(s@.skip(0) =~= s@);
        let dec = spec_b64_decode(s@);
        if dec is Some {
            assert(out@ + dec.unwrap() =~= dec.unwrap());
        }
    }
    while n - i >= 4
        invariant
            i <= n,
            n == s@.len(),
            spec_b64_decode(s@) == match spec_b64_decode(s@.skip(i as int)) {
                Some(rest) => Some(out@ + rest),
                None => None::<Seq<u8>>,
            },
        decreases n - i,
    {
        let v0 = b64_val_at(s[i]);
        let v1 = b64_val_at(s[i + 1]);
        let v2 = b64_val_at(s[i + 2]);
        let v3 = b64_val_at(s[i + 3]);
        proof {
            let t = s@.skip(i as int);
            assert(t.len() >= 4);
            assert(t[0] == s@[i as int] && t[1] == s@[i + 1] && t[2] == s@[i + 2]
                && t[3] == s@[i + 3]);
            assert(t.skip(4) =~= s@.skip(i + 4));
        }
        if v0 > 63 || v1 > 63 || v2 > 63 || v3 > 63 {
            return None;
        }
        proof {
            assert(forall|x: u8, y: u8| #![auto] x < 64 && y < 64 ==>
                ((x << 2) | (y >> 4)) < 256 && (((x & 15) << 4) | (y >> 2)) < 256
                    && (((x & 3) << 6) | y) < 256) by (bit_vector);
        }
        out.push((v0 << 2) | (v1 >> 4));
        out.push(((v1 & 15) << 4) | (v2 >> 2));
        out.push(((v2 & 3) << 6) | v3);
        proof {
            let t = s@.skip(i as int);
            let tdec = spec_b64_decode(t.skip(4));
            if tdec is Some {
                let rest = tdec.unwrap();
                assert(spec_b64_decode(t) == Some(
                    seq![
                        ((b64_val(t[0]) << 2) | (b64_val(t[1]) >> 4)) as u8,
                        (((b64_val(t[1]) & 15) << 4) | (b64_val(t[2]) >> 2)) as u8,
                        (((b64_val(t[2]) & 3) << 6) | b64_val(t[3])) as u8,
                    ] + rest,
                ));
                let whole = spec_b64_decode(s@);
                if whole is Some {
                    assert(whole.unwrap() =~= out@ + rest);
                }
            }
        }
        i = i + 4;
    }
    if i == n {
        proof {
            assert(s@.skip(i as int) =~= Seq::<u8>::empty());
        }
        Some(out)
    } else if n - i == 2 {
        let v0 = b64_val_at(s[i]);
        let v1 = b64_val_at(s[i + 1]);
        proof {
            let t = s@.skip(i as int);
            assert(t.len() == 2);
            assert(t[0] == s@[i as int] && t[1] == s@[i + 1]);
        }
        if v0 > 63 || v1 > 63 {
            return None;
        }
        out.push((v0 << 2) | (v1 >> 4));
        proof {
            let whole = spec_b64_decode(s@);
            if whole is Some {
                assert(whole.unwrap() =~= out@);
            }
        }
        Some(out)
    } else if n - i == 3 {
        let v0 = b64_val_at(s[i]);
        let v1 = b64_val_at(s[i + 1]);
        let v2 = b64_val_at(s[i + 2]);
        proof {
            let t = s@.skip(i as int);
            assert(t.len() == 3);
            assert(t[0] == s@[i as int] && t[1] == s@[i + 1] && t[2] == s@[i + 2]);
        }
        if v0 > 63 || v1 > 63 || v2 > 63 {
            return None;
        }
        out.push((v0 << 2) | (v1 >> 4));
        out.push(((v1 & 15) << 4) | (v2 >> 2));
        proof {
            let whole = spec_b64_decode(s@);
            if whole is Some {
                assert(whole.unwrap() =~= out@);
            }
        }
        Some(out)
    } else {
        None
    }
}

} // verus!
