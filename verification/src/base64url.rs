//! Base64url (RFC 4648 section 5, no padding) over byte sequences, as used by
//! the compact JWS serialization. Encoding and decoding are verified against
//! the recursive specifications below; decoding inverts encoding.

use vstd::prelude::*;

verus! {

/// Code of the base64url alphabet character for a 6-bit value.
pub open spec fn b64_char_of(v: int) -> u8
    recommends
        0 <= v < 64,
{
    if v < 26 {
        (65 + v) as u8  // 'A'..='Z'
    } else if v < 52 {
        (97 + (v - 26)) as u8  // 'a'..='z'
    } else if v < 62 {
        (48 + (v - 52)) as u8  // '0'..='9'
    } else if v == 62 {
        45u8  // '-'
    } else {
        95u8  // '_'
    }
}

/// 6-bit value of an alphabet character's code, or -1 if the byte is not in
/// the base64url alphabet.
pub open spec fn b64_val_of(c: u8) -> int {
    if 65 <= c && c <= 90 {
        c - 65
    } else if 97 <= c && c <= 122 {
        (c - 97) + 26
    } else if 48 <= c && c <= 57 {
        (c - 48) + 52
    } else if c == 45 {
        62
    } else if c == 95 {
        63
    } else {
        -1
    }
}

/// Base64url encoding of a byte sequence, without padding.
pub open spec fn b64_encode(s: Seq<u8>) -> Seq<u8>
    decreases s.len(),
{
    if s.len() >= 3 {
        let b0 = s[0] as int;
        let b1 = s[1] as int;
        let b2 = s[2] as int;
        seq![
            b64_char_of(b0 / 4),
            b64_char_of((b0 % 4) * 16 + b1 / 16),
            b64_char_of((b1 % 16) * 4 + b2 / 64),
            b64_char_of(b2 % 64),
        ] + b64_encode(s.skip(3))
    } else if s.len() == 2 {
        let b0 = s[0] as int;
        let b1 = s[1] as int;
        seq![
            b64_char_of(b0 / 4),
            b64_char_of((b0 % 4) * 16 + b1 / 16),
            b64_char_of((b1 % 16) * 4),
        ]
    } else if s.len() == 1 {
        let b0 = s[0] as int;
        seq![b64_char_of(b0 / 4), b64_char_of((b0 % 4) * 16)]
    } else {
        Seq::<u8>::empty()
    }
}

/// Base64url decoding of a byte sequence without padding; `None` when the
/// input is not a well-formed encoding (a byte outside the alphabet, or a
/// length of 1 modulo 4). Trailing bits of a final partial group are ignored.
pub open spec fn b64_decode(s: Seq<u8>) -> Option<Seq<u8>>
    decreases s.len(),
{
    if s.len() == 0 {
        Some(Seq::<u8>::empty())
    } else if s.len() == 1 {
        None
    } else if s.len() == 2 {
        let v0 = b64_val_of(s[0]);
        let v1 = b64_val_of(s[1]);
        if v0 >= 0 && v1 >= 0 {
            Some(seq![(v0 * 4 + v1 / 16) as u8])
        } else {
            None
        }
    } else if s.len() == 3 {
        let v0 = b64_val_of(s[0]);
        let v1 = b64_val_of(s[1]);
        let v2 = b64_val_of(s[2]);
        if v0 >= 0 && v1 >= 0 && v2 >= 0 {
            Some(seq![(v0 * 4 + v1 / 16) as u8, ((v1 % 16) * 16 + v2 / 4) as u8])
        } else {
            None
        }
    } else {
        let v0 = b64_val_of(s[0]);
        let v1 = b64_val_of(s[1]);
        let v2 = b64_val_of(s[2]);
        let v3 = b64_val_of(s[3]);
        if v0 >= 0 && v1 >= 0 && v2 >= 0 && v3 >= 0 {
            match b64_decode(s.skip(4)) {
                Some(rest) => Some(
                    seq![
                        (v0 * 4 + v1 / 16) as u8,
                        ((v1 % 16) * 16 + v2 / 4) as u8,
                        ((v2 % 4) * 64 + v3) as u8,
                    ] + rest,
                ),
                None => None,
            }
        } else {
            None
        }
    }
}

/// Every byte of an encoding is in the base64url alphabet; in particular it
/// is never an ASCII dot, so encodings can be delimited by dots.
pub proof fn lemma_encode_alphabet(s: Seq<u8>)
    ensures
        forall|i: int|
            0 <= i < b64_encode(s).len() ==> b64_val_of(#[trigger] b64_encode(s)[i]) >= 0
                && b64_encode(s)[i] != 46u8,
    decreases s.len(),
{
    if s.len() >= 3 {
        lemma_group_arith(s[0] as int, s[1] as int, s[2] as int);
        lemma_encode_alphabet(s.skip(3));
        assert forall|i: int| 0 <= i < b64_encode(s).len() implies b64_val_of(
            #[trigger] b64_encode(s)[i],
        ) >= 0 && b64_encode(s)[i] != 46u8 by {
            if i >= 4 {
                assert(b64_encode(s)[i] == b64_encode(s.skip(3))[i - 4]);
            } else {
                lemma_char_in_alphabet(b64_char_code_at(s, i));
            }
        }
    } else if s.len() == 2 {
        lemma_group_arith(s[0] as int, s[1] as int, 0);
        assert forall|i: int| 0 <= i < b64_encode(s).len() implies b64_val_of(
            #[trigger] b64_encode(s)[i],
        ) >= 0 && b64_encode(s)[i] != 46u8 by {
            lemma_char_in_alphabet(b64_char_code_at(s, i));
        }
    } else if s.len() == 1 {
        lemma_group_arith(s[0] as int, 0, 0);
        assert forall|i: int| 0 <= i < b64_encode(s).len() implies b64_val_of(
            #[trigger] b64_encode(s)[i],
        ) >= 0 && b64_encode(s)[i] != 46u8 by {
            lemma_char_in_alphabet(b64_char_code_at(s, i));
        }
    }
}

/// The 6-bit value encoded at position `i` of `b64_encode(s)`, for the
/// leading group; helper for `lemma_encode_alphabet`.
spec fn b64_char_code_at(s: Seq<u8>, i: int) -> int {
    if s.len() >= 3 {
        let b0 = s[0] as int;
        let b1 = s[1] as int;
        let b2 = s[2] as int;
        if i == 0 {
            b0 / 4
        } else if i == 1 {
            (b0 % 4) * 16 + b1 / 16
        } else if i == 2 {
            (b1 % 16) * 4 + b2 / 64
        } else {
            b2 % 64
        }
    } else if s.len() == 2 {
        let b0 = s[0] as int;
        let b1 = s[1] as int;
        if i == 0 {
            b0 / 4
        } else if i == 1 {
            (b0 % 4) * 16 + b1 / 16
        } else {
            (b1 % 16) * 4
        }
    } else if s.len() == 1 {
        let b0 = s[0] as int;
        if i == 0 {
            b0 / 4
        } else {
            (b0 % 4) * 16
        }
    } else {
        0
    }
}

proof fn lemma_char_in_alphabet(v: int)
    requires
        0 <= v < 64,
    ensures
        b64_val_of(b64_char_of(v)) == v,
        b64_char_of(v) != 46u8,
{
}

/// Encoding distributes over concatenation at group boundaries.
pub proof fn lemma_encode_append(a: Seq<u8>, b: Seq<u8>)
    requires
        a.len() % 3 == 0,
    ensures
        b64_encode(a + b) == b64_encode(a) + b64_encode(b),
    decreases a.len(),
{
    if a.len() == 0 {
        assert(a + b =~= b);
        assert(b64_encode(a) + b64_encode(b) =~= b64_encode(b));
    } else {
        let ab = a + b;
        assert(ab.len() >= 3);
        assert(ab[0] == a[0] && ab[1] == a[1] && ab[2] == a[2]);
        assert(ab.skip(3) =~= a.skip(3) + b);
        lemma_encode_append(a.skip(3), b);
        assert(b64_encode(a + b) =~= b64_encode(a) + b64_encode(b));
    }
}

proof fn lemma_char_val_inverse(v: int)
    requires
        0 <= v < 64,
    ensures
        b64_val_of(b64_char_of(v)) == v,
{
}

proof fn lemma_group_arith(b0: int, b1: int, b2: int)
    requires
        0 <= b0 < 256,
        0 <= b1 < 256,
        0 <= b2 < 256,
    ensures
        0 <= b0 / 4 < 64,
        0 <= (b0 % 4) * 16 + b1 / 16 < 64,
        0 <= (b1 % 16) * 4 + b2 / 64 < 64,
        0 <= b2 % 64 < 64,
        (b0 / 4) * 4 + ((b0 % 4) * 16 + b1 / 16) / 16 == b0,
        (((b0 % 4) * 16 + b1 / 16) % 16) * 16 + ((b1 % 16) * 4 + b2 / 64) / 4 == b1,
        (((b1 % 16) * 4 + b2 / 64) % 4) * 64 + b2 % 64 == b2,
{
    assert(0 <= b0 / 4 < 64 && 0 <= b1 / 16 < 16 && 0 <= b2 / 64 < 4) by (nonlinear_arith)
        requires
            0 <= b0 < 256 && 0 <= b1 < 256 && 0 <= b2 < 256,
    ;
    assert(((b0 % 4) * 16 + b1 / 16) / 16 == b0 % 4 && ((b0 % 4) * 16 + b1 / 16) % 16 == b1 / 16)
        by (nonlinear_arith)
        requires
            0 <= b0 && 0 <= b1 / 16 < 16,
    ;
    assert(((b1 % 16) * 4 + b2 / 64) / 4 == b1 % 16 && ((b1 % 16) * 4 + b2 / 64) % 4 == b2 / 64)
        by (nonlinear_arith)
        requires
            0 <= b1 && 0 <= b2 / 64 < 4,
    ;
    assert((b0 / 4) * 4 + b0 % 4 == b0) by (nonlinear_arith)
        requires
            0 <= b0,
    ;
    assert((b1 / 16) * 16 + b1 % 16 == b1) by (nonlinear_arith)
        requires
            0 <= b1,
    ;
    assert((b2 / 64) * 64 + b2 % 64 == b2) by (nonlinear_arith)
        requires
            0 <= b2,
    ;
}

/// Decoding inverts encoding.
pub proof fn lemma_b64_round_trip(s: Seq<u8>)
    ensures
        b64_decode(b64_encode(s)) == Some(s),
    decreases s.len(),
{
    let e = b64_encode(s);
    if s.len() == 0 {
        assert(e.len() == 0);
        assert(b64_decode(e) == Some(s)) by {
            assert(s =~= Seq::<u8>::empty());
        }
    } else if s.len() == 1 {
        let b0 = s[0] as int;
        lemma_group_arith(b0, 0, 0);
        lemma_char_val_inverse(b0 / 4);
        lemma_char_val_inverse((b0 % 4) * 16);
        assert(((b0 % 4) * 16) / 16 == b0 % 4) by (nonlinear_arith)
            requires
                0 <= b0,
        ;
        assert((b0 / 4) * 4 + b0 % 4 == b0) by (nonlinear_arith)
            requires
                0 <= b0,
        ;
        assert(b64_decode(e)->Some_0 =~= s);
    } else if s.len() == 2 {
        let b0 = s[0] as int;
        let b1 = s[1] as int;
        lemma_group_arith(b0, b1, 0);
        lemma_char_val_inverse(b0 / 4);
        lemma_char_val_inverse((b0 % 4) * 16 + b1 / 16);
        lemma_char_val_inverse((b1 % 16) * 4);
        assert(b64_decode(e)->Some_0 =~= s);
    } else {
        let b0 = s[0] as int;
        let b1 = s[1] as int;
        let b2 = s[2] as int;
        lemma_group_arith(b0, b1, b2);
        lemma_char_val_inverse(b0 / 4);
        lemma_char_val_inverse((b0 % 4) * 16 + b1 / 16);
        lemma_char_val_inverse((b1 % 16) * 4 + b2 / 64);
        lemma_char_val_inverse(b2 % 64);
        lemma_b64_round_trip(s.skip(3));
        let rest = b64_encode(s.skip(3));
        assert(e.len() >= 4);
        assert(e.skip(4) =~= rest);
        if rest.len() == 0 {
            assert(s.skip(3) =~= Seq::<u8>::empty());
            assert(b64_decode(e)->Some_0 =~= s);
        } else {
            assert(b64_decode(e)->Some_0 =~= seq![s[0], s[1], s[2]] + s.skip(3));
            assert(seq![s[0], s[1], s[2]] + s.skip(3) =~= s);
        }
    }
}

/// Alphabet character for a 6-bit value.
fn b64_char(v: u8) -> (r: u8)
    requires
        v < 64,
    ensures
        r == b64_char_of(v as int),
{
    if v < 26 {
        65 + v
    } else if v < 52 {
        97 + (v - 26)
    } else if v < 62 {
        48 + (v - 52)
    } else if v == 62 {
        45
    } else {
        95
    }
}

/// 6-bit value of an alphabet character, or `None` outside the alphabet.
fn b64_val(c: u8) -> (r: Option<u8>)
    ensures
        match r {
            Some(v) => v < 64 && b64_val_of(c) == v as int,
            None => b64_val_of(c) == -1,
        },
{
    if 65 <= c && c <= 90 {
        Some(c - 65)
    } else if 97 <= c && c <= 122 {
        Some((c - 97) + 26)
    } else if 48 <= c && c <= 57 {
        Some((c - 48) + 52)
    } else if c == 45 {
        Some(62)
    } else if c == 95 {
        Some(63)
    } else {
        None
    }
}

/// Base64url-encode a byte slice, without padding.
pub fn b64url_encode(input: &[u8]) -> (r: Vec<u8>)
    ensures
        r@ == b64_encode(input@),
{
    let len = input.len();
    let mut out: Vec<u8> = Vec::new();
    let mut i: usize = 0;
    while len - i >= 3
        invariant
            len == input@.len(),
            i <= len,
            i % 3 == 0,
            out@ == b64_encode(input@.take(i as int)),
        decreases len - i,
    {
        let b0 = input[i];
        let b1 = input[i + 1];
        let b2 = input[i + 2];
        out.push(b64_char(b0 / 4));
        out.push(b64_char((b0 % 4) * 16 + b1 / 16));
        out.push(b64_char((b1 % 16) * 4 + b2 / 64));
        out.push(b64_char(b2 % 64));
        proof {
            let pre = input@.take(i as int);
            let grp = input@.subrange(i as int, i + 3);
            lemma_encode_append(pre, grp);
            assert(pre + grp =~= input@.take(i + 3));
            assert(grp.len() == 3);
            assert(grp[0] == b0 && grp[1] == b1 && grp[2] == b2);
            assert(grp.skip(3) =~= Seq::<u8>::empty());
            assert(b64_encode(grp.skip(3)) == Seq::<u8>::empty());
            assert(b64_encode(grp) =~= seq![
                b64_char_of(b0 as int / 4),
                b64_char_of((b0 as int % 4) * 16 + b1 as int / 16),
                b64_char_of((b1 as int % 16) * 4 + b2 as int / 64),
                b64_char_of(b2 as int % 64),
            ]);
            assert(out@ =~= b64_encode(input@.take(i + 3)));
        }
        i = i + 3;
    }
    if len - i == 1 {
        let b0 = input[i];
        out.push(b64_char(b0 / 4));
        out.push(b64_char((b0 % 4) * 16));
        proof {
            let pre = input@.take(i as int);
            let grp = input@.subrange(i as int, len as int);
            lemma_encode_append(pre, grp);
            assert(pre + grp =~= input@);
            assert(grp.len() == 1 && grp[0] == b0);
            assert(out@ =~= b64_encode(input@));
        }
    } else if len - i == 2 {
        let b0 = input[i];
        let b1 = input[i + 1];
        out.push(b64_char(b0 / 4));
        out.push(b64_char((b0 % 4) * 16 + b1 / 16));
        out.push(b64_char((b1 % 16) * 4));
        proof {
            let pre = input@.take(i as int);
            let grp = input@.subrange(i as int, len as int);
            lemma_encode_append(pre, grp);
            assert(pre + grp =~= input@);
            assert(grp.len() == 2 && grp[0] == b0 && grp[1] == b1);
            assert(out@ =~= b64_encode(input@));
        }
    } else {
        proof {
            assert(input@.take(i as int) =~= input@);
        }
    }
    out
}

/// `Some(pre + t)` when `rest` is `Some(t)`; helper for relating a partial
/// decode to the decode of the whole input.
spec fn decode_join(pre: Seq<u8>, rest: Option<Seq<u8>>) -> Option<Seq<u8>> {
    match rest {
        Some(t) => Some(pre + t),
        None => None,
    }
}

/// Base64url-decode a byte slice; `None` when the input is not a well-formed
/// unpadded encoding.
pub fn b64url_decode(input: &[u8]) -> (r: Option<Vec<u8>>)
    ensures
        match r {
            Some(v) => b64_decode(input@) == Some(v@),
            None => b64_decode(input@) is None,
        },
{
    let len = input.len();
    let mut out: Vec<u8> = Vec::new();
    let mut i: usize = 0;
    proof {
        assert(input@.skip(0) =~= input@);
        match b64_decode(input@) {
            Some(t) => {
                assert(Seq::<u8>::empty() + t =~= t);
            },
            None => {},
        }
    }
    while len - i >= 4
        invariant
            len == input@.len(),
            i <= len,
            b64_decode(input@) == decode_join(out@, b64_decode(input@.skip(i as int))),
        decreases len - i,
    {
        let ghost pre = out@;
        let ghost tail = input@.skip(i as int);
        let v0 = match b64_val(input[i]) {
            Some(v) => v,
            None => {
                return None;
            },
        };
        let v1 = match b64_val(input[i + 1]) {
            Some(v) => v,
            None => {
                return None;
            },
        };
        let v2 = match b64_val(input[i + 2]) {
            Some(v) => v,
            None => {
                return None;
            },
        };
        let v3 = match b64_val(input[i + 3]) {
            Some(v) => v,
            None => {
                return None;
            },
        };
        out.push(v0 * 4 + v1 / 16);
        out.push((v1 % 16) * 16 + v2 / 4);
        out.push((v2 % 4) * 64 + v3);
        proof {
            let grp = seq![
                (v0 as int * 4 + v1 as int / 16) as u8,
                ((v1 as int % 16) * 16 + v2 as int / 4) as u8,
                ((v2 as int % 4) * 64 + v3 as int) as u8,
            ];
            assert(tail.len() >= 4);
            assert(tail[0] == input@[i as int] && tail[1] == input@[i + 1] && tail[2] == input@[i
                + 2] && tail[3] == input@[i + 3]);
            assert(tail.skip(4) =~= input@.skip(i + 4));
            match b64_decode(input@.skip(i + 4)) {
                Some(t) => {
                    assert(b64_decode(tail) == Some(grp + t));
                    assert(out@ + t =~= pre + (grp + t));
                    assert(decode_join(pre, b64_decode(tail)) == decode_join(
                        out@,
                        b64_decode(input@.skip(i + 4)),
                    ));
                },
                None => {
                    assert(b64_decode(tail) is None);
                },
            }
        }
        i = i + 4;
    }
    let rem = len - i;
    if rem == 0 {
        proof {
            assert(input@.skip(i as int) =~= Seq::<u8>::empty());
            assert(out@ + Seq::<u8>::empty() =~= out@);
        }
        Some(out)
    } else if rem == 1 {
        None
    } else if rem == 2 {
        let ghost pre = out@;
        let ghost tail = input@.skip(i as int);
        let v0 = match b64_val(input[i]) {
            Some(v) => v,
            None => {
                return None;
            },
        };
        let v1 = match b64_val(input[i + 1]) {
            Some(v) => v,
            None => {
                return None;
            },
        };
        out.push(v0 * 4 + v1 / 16);
        proof {
            assert(tail.len() == 2);
            assert(tail[0] == input@[i as int] && tail[1] == input@[i + 1]);
            assert(b64_decode(tail) == Some(seq![(v0 as int * 4 + v1 as int / 16) as u8]));
            assert(out@ =~= pre + b64_decode(tail)->Some_0);
        }
        Some(out)
    } else {
        let ghost pre = out@;
        let ghost tail = input@.skip(i as int);
        let v0 = match b64_val(input[i]) {
            Some(v) => v,
            None => {
                return None;
            },
        };
        let v1 = match b64_val(input[i + 1]) {
            Some(v) => v,
            None => {
                return None;
            },
        };
        let v2 = match b64_val(input[i + 2]) {
            Some(v) => v,
            None => {
                return None;
            },
        };
        out.push(v0 * 4 + v1 / 16);
        out.push((v1 % 16) * 16 + v2 / 4);
        proof {
            assert(tail.len() == 3);
            assert(tail[0] == input@[i as int] && tail[1] == input@[i + 1] && tail[2] == input@[i
                + 2]);
            assert(b64_decode(tail) == Some(
                seq![
                    (v0 as int * 4 + v1 as int / 16) as u8,
                    ((v1 as int % 16) * 16 + v2 as int / 4) as u8,
                ],
            ));
            assert(out@ =~= pre + b64_decode(tail)->Some_0);
        }
        Some(out)
    }
}

} // verus!
