//! The compact detached-JWS token: `base64url(protected header JSON)`, a
//! dot, an empty payload segment, a dot, and `base64url(signature)`. Building
//! and parsing are verified; a parsed token round-trips a built one. Reading
//! the `alg` field out of a foreign header JSON is delegated to `serde_json`
//! behind one trusted function.

use vstd::prelude::*;

use crate::base64url::{
    b64_decode, b64_encode, b64url_decode, b64url_encode, lemma_b64_round_trip,
    lemma_encode_alphabet,
};
use crate::headers::bytes_eq;

verus! {

/// A supported signature algorithm identifier.
#[derive(Clone, Copy, PartialEq, Eq, Structural, Debug)]
pub enum Algorithm {
    /// RSASSA-PSS with SHA-256.
    Ps256,
    /// RSASSA-PKCS1-v1_5 with SHA-256.
    Rs256,
}

/// The bytes of the algorithm's identifier, as it appears in the protected
/// header.
pub open spec fn spec_alg_name(alg: Algorithm) -> Seq<u8> {
    match alg {
        Algorithm::Ps256 => seq![80u8, 83u8, 50u8, 53u8, 54u8],  // "PS256"
        Algorithm::Rs256 => seq![82u8, 83u8, 50u8, 53u8, 54u8],  // "RS256"
    }
}

/// The minimal protected header JSON this library emits for an algorithm:
/// an object with the single field `alg`.
pub open spec fn spec_header_bytes(alg: Algorithm) -> Seq<u8> {
    seq![123u8, 34u8, 97u8, 108u8, 103u8, 34u8, 58u8, 34u8]  // `{"alg":"`
        + spec_alg_name(alg) + seq![34u8, 125u8]  // `"}`
}

/// The algorithm identifier bytes.
pub fn alg_name(alg: &Algorithm) -> (r: Vec<u8>)
    ensures
        r@ == spec_alg_name(*alg),
{
    let mut r: Vec<u8> = Vec::new();
    match alg {
        Algorithm::Ps256 => r.push(80),
        Algorithm::Rs256 => r.push(82),
    }
    r.push(83);
    r.push(50);
    r.push(53);
    r.push(54);
    proof {
        assert(r@ =~= spec_alg_name(*alg));
    }
    r
}

/// The minimal protected header JSON for an algorithm.
pub fn header_bytes(alg: &Algorithm) -> (r: Vec<u8>)
    ensures
        r@ == spec_header_bytes(*alg),
{
    let mut r: Vec<u8> = Vec::new();
    r.push(123);
    r.push(34);
    r.push(97);
    r.push(108);
    r.push(103);
    r.push(34);
    r.push(58);
    r.push(34);
    let mut name = alg_name(alg);
    r.append(&mut name);
    r.push(34);
    r.push(125);
    proof {
        assert(r@ =~= spec_header_bytes(*alg));
    }
    r
}

/// The string value of the `alg` field of a JSON object given by the bytes,
/// or `None` when the bytes are not a JSON object with a string `alg` field.
/// The result is a function of the bytes alone.
pub uninterp spec fn alg_field_of(header_json: Seq<u8>) -> Option<Seq<u8>>;

/// Relies on `serde_json::from_slice`, `serde_json::Value::get` and
/// `serde_json::Value::as_str`: parses the protected header as JSON and
/// reads the string value of its `alg` field, a deterministic function of
/// the input bytes named `alg_field_of`.
#[verifier::external_body]
fn parse_header_alg(bytes: &[u8]) -> (r: Option<Vec<u8>>)
    ensures
        match r {
            Some(v) => alg_field_of(bytes@) == Some(v@),
            None => alg_field_of(bytes@) is None,
        },
{
    let value: serde_json::Value = match serde_json::from_slice(bytes) {
        Ok(v) => v,
        Err(_) => return None,
    };
    let alg = value.get("alg")?.as_str()?;
    Some(alg.as_bytes().to_vec())
}

/// How the protected header bytes resolve to an algorithm: the two header
/// forms this library emits resolve directly; anything else goes by the
/// `alg` field of the JSON.
pub enum HeaderAlg {
    Known(Algorithm),
    Unknown,
    Missing,
}

/// Resolution of protected header bytes to a supported algorithm.
pub open spec fn spec_header_alg(h: Seq<u8>) -> HeaderAlg {
    if h == spec_header_bytes(Algorithm::Ps256) {
        HeaderAlg::Known(Algorithm::Ps256)
    } else if h == spec_header_bytes(Algorithm::Rs256) {
        HeaderAlg::Known(Algorithm::Rs256)
    } else {
        match alg_field_of(h) {
            Some(name) => {
                if name == spec_alg_name(Algorithm::Ps256) {
                    HeaderAlg::Known(Algorithm::Ps256)
                } else if name == spec_alg_name(Algorithm::Rs256) {
                    HeaderAlg::Known(Algorithm::Rs256)
                } else {
                    HeaderAlg::Unknown
                }
            },
            None => HeaderAlg::Missing,
        }
    }
}

/// Why a token was rejected.
#[derive(Clone, Copy, PartialEq, Eq, Structural, Debug)]
pub enum TokenError {
    /// Not two adjacent dots, a bad base64url part, or no readable `alg`
    /// field.
    Malformed,
    /// A well-formed token advertising an algorithm this library does not
    /// support.
    UnknownAlgorithm,
}

/// Index of the first ASCII dot in `t`, or -1 if there is none.
pub open spec fn first_dot(t: Seq<u8>) -> int
    decreases t.len(),
{
    if t.len() == 0 {
        -1
    } else if t[0] == 46u8 {
        0
    } else {
        let r = first_dot(t.drop_first());
        if r == -1 {
            -1
        } else {
            r + 1
        }
    }
}

/// What `first_dot` returns: the first dot's index, or -1 when there is no
/// dot.
proof fn lemma_first_dot(t: Seq<u8>)
    ensures
        first_dot(t) >= -1,
        first_dot(t) == -1 ==> forall|j: int| 0 <= j < t.len() ==> t[j] != 46u8,
        first_dot(t) >= 0 ==> first_dot(t) < t.len() && t[first_dot(t)] == 46u8 && forall|j: int|
            0 <= j < first_dot(t) ==> t[j] != 46u8,
    decreases t.len(),
{
    if t.len() == 0 {
    } else if t[0] == 46u8 {
    } else {
        lemma_first_dot(t.drop_first());
        let r = first_dot(t.drop_first());
        if r == -1 {
            assert forall|j: int| 0 <= j < t.len() implies #[trigger] t[j] != 46u8 by {
                if j >= 1 {
                    assert(t[j] == t.drop_first()[j - 1]);
                }
            }
        } else {
            assert(t[first_dot(t)] == t.drop_first()[r]);
            assert forall|j: int| 0 <= j < first_dot(t) implies #[trigger] t[j] != 46u8 by {
                if j >= 1 {
                    assert(t[j] == t.drop_first()[j - 1]);
                }
            }
        }
    }
}

/// Conversely, an index that is a dot with no dot before it is what
/// `first_dot` returns.
proof fn lemma_first_dot_is(t: Seq<u8>, i: int)
    requires
        0 <= i < t.len(),
        t[i] == 46u8,
        forall|j: int| 0 <= j < i ==> t[j] != 46u8,
    ensures
        first_dot(t) == i,
    decreases t.len(),
{
    if i == 0 {
    } else {
        assert(forall|j: int| 0 <= j < t.drop_first().len() ==> t.drop_first()[j] == t[j + 1]);
        lemma_first_dot_is(t.drop_first(), i - 1);
    }
}

/// Split a token into its header part and its signature part: the bytes
/// before the first dot and the bytes after the two adjacent dots, provided
/// the token has exactly that shape with an empty payload segment.
pub open spec fn spec_split_token(t: Seq<u8>) -> Option<(Seq<u8>, Seq<u8>)> {
    let i = first_dot(t);
    if i >= 0 && i + 1 < t.len() && t[i + 1] == 46u8 && first_dot(t.skip(i + 2)) == -1 {
        Some((t.take(i), t.skip(i + 2)))
    } else {
        None
    }
}

/// Parse of a detached token: the resolved algorithm, the base64url-encoded
/// protected header as it stood in the token, and the decoded signature
/// bytes.
pub open spec fn spec_parse_token(t: Seq<u8>) -> Result<(Algorithm, Seq<u8>, Seq<u8>), TokenError> {
    match spec_split_token(t) {
        None => Err(TokenError::Malformed),
        Some((a, c)) => match b64_decode(a) {
            None => Err(TokenError::Malformed),
            Some(h) => match spec_header_alg(h) {
                HeaderAlg::Missing => Err(TokenError::Malformed),
                HeaderAlg::Unknown => Err(TokenError::UnknownAlgorithm),
                HeaderAlg::Known(alg) => match b64_decode(c) {
                    None => Err(TokenError::Malformed),
                    Some(sig) => Ok((alg, a, sig)),
                },
            },
        },
    }
}

/// The detached token for an algorithm and a signature, with the minimal
/// protected header this library emits.
pub open spec fn spec_token(alg: Algorithm, sig: Seq<u8>) -> Seq<u8> {
    b64_encode(spec_header_bytes(alg)) + seq![46u8, 46u8] + b64_encode(sig)
}

/// A parsed detached token.
#[derive(Debug)]
pub struct ParsedToken {
    /// The advertised, supported algorithm.
    pub alg: Algorithm,
    /// The base64url-encoded protected header, exactly as it stood in the
    /// token; it is part of the signing input.
    pub header_b64: Vec<u8>,
    /// The decoded signature bytes.
    pub signature: Vec<u8>,
}

/// Build the detached token carrying `signature` under the minimal header
/// for `alg`.
pub fn build_detached_token(alg: &Algorithm, signature: &[u8]) -> (r: Vec<u8>)
    ensures
        r@ == spec_token(*alg, signature@),
{
    let hb = header_bytes(alg);
    let mut t = b64url_encode(hb.as_slice());
    t.push(46);
    t.push(46);
    let mut sb = b64url_encode(signature);
    t.append(&mut sb);
    proof {
        assert(t@ =~= spec_token(*alg, signature@));
    }
    t
}

/// Parse a detached token; exactly the tokens whose shape, header and
/// signature encoding are well formed and whose algorithm is supported are
/// accepted, as `spec_parse_token` states.
pub fn parse_detached_token(t: &[u8]) -> (r: Result<ParsedToken, TokenError>)
    ensures
        match r {
            Ok(p) => spec_parse_token(t@) == Ok::<_, TokenError>(
                (p.alg, p.header_b64@, p.signature@),
            ),
            Err(e) => spec_parse_token(t@) == Err::<(Algorithm, Seq<u8>, Seq<u8>), _>(e),
        },
{
    let len = t.len();
    // Find the first dot.
    let mut i: usize = 0;
    loop
        invariant_except_break
            len == t@.len(),
            i <= len,
            forall|j: int| 0 <= j < i ==> t@[j] != 46u8,
        ensures
            i < len && t@[i as int] == 46u8 && first_dot(t@) == i as int || i == len && first_dot(
                t@,
            ) == -1,
        decreases len - i,
    {
        if i == len {
            proof {
                lemma_first_dot(t@);
                if first_dot(t@) >= 0 {
                    assert(t@[first_dot(t@)] == 46u8);
                    assert(false);
                }
            }
            break ;
        }
        if t[i] == 46 {
            proof {
                lemma_first_dot_is(t@, i as int);
            }
            break ;
        }
        i = i + 1;
    }
    if i == len || i + 1 >= len || t[i + 1] != 46 {
        proof {
            if i == len {
                assert(spec_split_token(t@) is None);
            } else {
                assert(first_dot(t@) == i as int);
                assert(spec_split_token(t@) is None);
            }
        }
        return Err(TokenError::Malformed);
    }
    // The rest, after the two dots, must hold no further dot.
    let mut j: usize = i + 2;
    while j < len
        invariant
            len == t@.len(),
            i + 2 <= j <= len,
            i + 1 < len,
            t@[i as int] == 46u8,
            t@[i + 1] == 46u8,
            first_dot(t@) == i as int,
            forall|k: int| i + 2 <= k < j ==> t@[k] != 46u8,
        decreases len - j,
    {
        if t[j] == 46 {
            proof {
                let rest = t@.skip(i + 2);
                lemma_first_dot(rest);
                if first_dot(rest) == -1 {
                    assert(rest[j - (i + 2)] == 46u8);
                    assert(false);
                }
                assert(spec_split_token(t@) is None);
            }
            return Err(TokenError::Malformed);
        }
        j = j + 1;
    }
    proof {
        let rest = t@.skip(i + 2);
        lemma_first_dot(rest);
        if first_dot(rest) >= 0 {
            assert(rest[first_dot(rest)] == 46u8);
            assert(t@[first_dot(rest) + i + 2] == 46u8);
            assert(false);
        }
        assert(spec_split_token(t@) == Some((t@.take(i as int), t@.skip(i + 2))));
    }
    let header_part = vstd::slice::slice_subrange(t, 0, i);
    let sig_part = vstd::slice::slice_subrange(t, i + 2, len);
    proof {
        assert(header_part@ =~= t@.take(i as int));
        assert(sig_part@ =~= t@.skip(i + 2));
    }
    let header = match b64url_decode(header_part) {
        Some(h) => h,
        None => {
            return Err(TokenError::Malformed);
        },
    };
    let alg = match resolve_header_alg(header.as_slice()) {
        Ok(alg) => alg,
        Err(e) => {
            return Err(e);
        },
    };
    let signature = match b64url_decode(sig_part) {
        Some(s) => s,
        None => {
            return Err(TokenError::Malformed);
        },
    };
    Ok(ParsedToken { alg, header_b64: vstd::slice::slice_to_vec(header_part), signature })
}

/// Resolve decoded protected header bytes to a supported algorithm, as
/// `spec_header_alg` states: the two minimal headers this library emits are
/// recognized directly, anything else by its JSON `alg` field.
pub fn resolve_header_alg(h: &[u8]) -> (r: Result<Algorithm, TokenError>)
    ensures
        match r {
            Ok(alg) => spec_header_alg(h@) == HeaderAlg::Known(alg),
            Err(TokenError::UnknownAlgorithm) => spec_header_alg(h@) is Unknown,
            Err(TokenError::Malformed) => spec_header_alg(h@) is Missing,
        },
{
    let ps = header_bytes(&Algorithm::Ps256);
    let rs = header_bytes(&Algorithm::Rs256);
    if bytes_eq(h, ps.as_slice()) {
        return Ok(Algorithm::Ps256);
    }
    if bytes_eq(h, rs.as_slice()) {
        return Ok(Algorithm::Rs256);
    }
    match parse_header_alg(h) {
        Some(name) => {
            let ps_name = alg_name(&Algorithm::Ps256);
            let rs_name = alg_name(&Algorithm::Rs256);
            if bytes_eq(name.as_slice(), ps_name.as_slice()) {
                Ok(Algorithm::Ps256)
            } else if bytes_eq(name.as_slice(), rs_name.as_slice()) {
                Ok(Algorithm::Rs256)
            } else {
                Err(TokenError::UnknownAlgorithm)
            }
        },
        None => Err(TokenError::Malformed),
    }
}

/// A token built for an algorithm and a signature parses back to exactly
/// that algorithm and signature, with the emitted header part in between:
/// parsing inverts building.
pub proof fn lemma_token_round_trip(alg: Algorithm, sig: Seq<u8>)
    ensures
        spec_parse_token(spec_token(alg, sig)) == Ok::<_, TokenError>(
            (alg, b64_encode(spec_header_bytes(alg)), sig),
        ),
{
    let a = b64_encode(spec_header_bytes(alg));
    let c = b64_encode(sig);
    let t = spec_token(alg, sig);
    lemma_encode_alphabet(spec_header_bytes(alg));
    lemma_encode_alphabet(sig);
    assert(t.len() == a.len() + 2 + c.len());
    assert(forall|j: int| 0 <= j < a.len() ==> t[j] == a[j]);
    assert(t[a.len() as int] == 46u8);
    assert(t[a.len() as int + 1] == 46u8);
    assert(forall|j: int| 0 <= j < c.len() ==> t[a.len() as int + 2 + j] == c[j]);
    assert forall|j: int| 0 <= j < a.len() implies #[trigger] t[j] != 46u8 by {
        assert(t[j] == a[j]);
        assert(a[j] != 46u8);
    }
    lemma_first_dot_is(t, a.len() as int);
    let rest = t.skip(a.len() as int + 2);
    assert(rest =~= c);
    lemma_first_dot(c);
    if first_dot(c) >= 0 {
        assert(c[first_dot(c)] == 46u8);
        assert(false);
    }
    assert(t.take(a.len() as int) =~= a);
    assert(spec_split_token(t) == Some((a, c)));
    lemma_b64_round_trip(spec_header_bytes(alg));
    lemma_b64_round_trip(sig);
    assert(spec_header_alg(spec_header_bytes(alg)) == HeaderAlg::Known(alg)) by {
        assert(spec_header_bytes(Algorithm::Ps256)[8] == 80u8);
        assert(spec_header_bytes(Algorithm::Rs256)[8] == 82u8);
    }
}

} // verus!
