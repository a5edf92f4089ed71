//! The verify stage's decisions: whether to verify, header extraction,
//! token parsing, verifier selection, and the streaming of the buffered
//! body into the verifying primitive. The host shell buffers the inbound
//! body into a `FileBufferingStream`, calls `verify_buffered`, and forwards
//! the replayable body only on `Skipped` or `Verified`.

use vstd::prelude::*;

use crate::buffering::FileBufferingStream;
use crate::digest::{DigestSink, JwsDigestWriter, VerifierPrimitive};
use crate::headers::{spec_lookup, Headers};
use crate::base64url::b64_encode;
use crate::token::{
    lemma_token_round_trip, parse_detached_token, spec_header_bytes, spec_parse_token, spec_token,
    Algorithm, TokenError,
};

verus! {

/// Why a request was rejected.
pub enum VerifyErrorType {
    /// The signature header is absent though verification was required.
    HeaderNotFound,
    /// The signature does not match the body.
    IncorrectSignature,
    /// The signature header cannot be used: malformed token or unsupported
    /// algorithm.
    Other(String),
}

/// A rejection response produced by the configuration's error handler.
pub struct ErrorResponse {
    pub status: u16,
    pub message: String,
}

/// The name of the signature header, matched case-insensitively.
pub open spec fn spec_jws_header_name() -> Seq<u8> {
    seq![
        120u8, 45u8, 106u8, 119u8, 115u8, 45u8, 115u8, 105u8, 103u8, 110u8, 97u8, 116u8, 117u8,
        114u8, 101u8,
    ]  // "x-jws-signature"
}

/// The name of the signature header.
pub fn jws_header_name() -> (r: Vec<u8>)
    ensures
        r@ == spec_jws_header_name(),
{
    let mut r: Vec<u8> = Vec::new();
    r.push(120);
    r.push(45);
    r.push(106);
    r.push(119);
    r.push(115);
    r.push(45);
    r.push(115);
    r.push(105);
    r.push(103);
    r.push(110);
    r.push(97);
    r.push(116);
    r.push(117);
    r.push(114);
    r.push(101);
    proof {
        assert(r@ =~= spec_jws_header_name());
    }
    r
}

/// The verify stage's pluggable policy: whether a message must be verified,
/// which verifying primitive serves a supported algorithm, and how each
/// rejection is reported. Implementations are supplied by the caller.
pub trait DetachedJwsVerifyConfig: Sized {
    /// The verifying primitive this configuration supplies.
    type Verifier: VerifierPrimitive;

    /// Whether the message, by its headers, must be verified.
    spec fn spec_should_verify(&self, headers: Seq<(Seq<u8>, Seq<u8>)>) -> bool;

    /// Which algorithms this configuration can verify.
    spec fn spec_supports(&self, alg: Algorithm) -> bool;

    /// Decide whether to verify this message.
    fn should_verify(&self, headers: &Headers) -> (b: bool)
        ensures
            b == self.spec_should_verify(headers@),
    ;

    /// A fresh verifier for a supported algorithm, `None` for an algorithm
    /// this configuration cannot verify.
    fn get_verifier(&self, alg: &Algorithm) -> (r: Option<Self::Verifier>)
        ensures
            r is Some <==> self.spec_supports(*alg),
            r matches Some(v) ==> v.transcript() == Seq::<u8>::empty(),
    ;

    /// Map a rejection to the response the caller wants to send.
    fn error_handler(&self, error: &VerifyErrorType) -> ErrorResponse;
}

/// The verify middleware's configuration: the pluggable policy and the
/// buffer settings used to wrap each inbound body. The host shell builds a
/// buffer per message from `buffering`, fills it with the body, and hands
/// both to `verify_buffered` with `config`.
pub struct DetachedJwsVerify<T> {
    pub config: T,
    pub buffering: crate::buffering::FileBufferingStreamBuilder,
}

impl<T> DetachedJwsVerify<T> {
    /// Wrap a verification policy with default buffering.
    pub fn new(config: T) -> (r: Self)
        ensures
            r.config == config,
            r.buffering.tmp_dir is None,
            r.buffering.threshold == 30720usize,
            r.buffering.produce_block_size == 30720usize,
            r.buffering.buffer_limit is None,
    {
        Self { config, buffering: crate::buffering::FileBufferingStreamBuilder::new() }
    }

    /// Replace the buffer settings.
    pub fn override_buffering(
        self,
        v: crate::buffering::FileBufferingStreamBuilder,
    ) -> (r: Self)
        ensures
            r.config == self.config,
            r.buffering == v,
    {
        Self { config: self.config, buffering: v }
    }
}

/// Outcome of the verify stage for one message.
pub enum VerifyOutcome {
    /// The decision policy did not require verification; the body was not
    /// read.
    Skipped,
    /// The signature matches the body.
    Verified,
    /// The message is rejected; it must not reach the downstream handler.
    Rejected(VerifyErrorType),
}

/// What the verify stage must do with a message, as decided by the policy,
/// the headers and the token alone — everything up to running the
/// cryptographic primitive.
pub enum VerifyDisposition {
    /// Verification not required.
    Skip,
    /// Required, but the signature header is absent.
    MissingHeader,
    /// The header's token is malformed or names an algorithm this library
    /// does not know.
    BadToken,
    /// A well-formed token whose algorithm the configuration cannot verify.
    Unsupported,
    /// Stream the body into a verifier for this algorithm, with this
    /// encoded header part and this signature.
    RunVerifier(Algorithm, Seq<u8>, Seq<u8>),
}

/// The decision for a message: skip, reject for a classified reason, or run
/// the verifier.
pub open spec fn spec_disposition<C: DetachedJwsVerifyConfig>(
    config: &C,
    headers: Seq<(Seq<u8>, Seq<u8>)>,
) -> VerifyDisposition {
    if !config.spec_should_verify(headers) {
        VerifyDisposition::Skip
    } else {
        match spec_lookup(headers, spec_jws_header_name()) {
            None => VerifyDisposition::MissingHeader,
            Some(hv) => match spec_parse_token(hv) {
                Err(_) => VerifyDisposition::BadToken,
                Ok((alg, hb, sig)) => {
                    if config.spec_supports(alg) {
                        VerifyDisposition::RunVerifier(alg, hb, sig)
                    } else {
                        VerifyDisposition::Unsupported
                    }
                },
            },
        }
    }
}

/// Sign-then-verify agreement: when the signature header carries exactly
/// the token the sign stage builds for an algorithm and a signature, the
/// policy requires verification and the configuration supports the
/// algorithm, the verify stage reaches the verifier with that same
/// algorithm, the same encoded header part, and the same signature bytes.
/// Together with the digest writer's contract, the verifying primitive is
/// then fed the byte-identical signing input the signing primitive signed
/// for the same body, so a round trip succeeds whenever the two primitives
/// carry matching key material.
pub proof fn lemma_sign_then_verify_reaches_verifier<C: DetachedJwsVerifyConfig>(
    config: &C,
    headers: Seq<(Seq<u8>, Seq<u8>)>,
    alg: Algorithm,
    sig: Seq<u8>,
)
    requires
        config.spec_should_verify(headers),
        spec_lookup(headers, spec_jws_header_name()) == Some(spec_token(alg, sig)),
        config.spec_supports(alg),
    ensures
        spec_disposition(config, headers) == VerifyDisposition::RunVerifier(
            alg,
            b64_encode(spec_header_bytes(alg)),
            sig,
        ),
{
    lemma_token_round_trip(alg, sig);
}

/// Verify one buffered message: decide by the policy, extract and parse the
/// signature header, select a verifier, stream the body into it, and
/// classify the result. The body's content is never changed, and on every
/// non-fatal outcome the buffer is left at cursor zero, ready to be
/// replayed downstream. A rejected message must not be forwarded; `Err`
/// is a fatal buffer or primitive failure that aborts the stage.
pub fn verify_buffered<C: DetachedJwsVerifyConfig>(
    config: &C,
    headers: &Headers,
    body: &mut FileBufferingStream,
) -> (r: Result<VerifyOutcome, String>)
    requires
        old(body).wf(),
        !old(body).poisoned(),
        old(body).cursor() == 0,
    ensures
        final(body).wf(),
        final(body)@ == old(body)@,
        final(body).spill_threshold() == old(body).spill_threshold(),
        final(body).block_size() == old(body).block_size(),
        final(body).limit() == old(body).limit(),
        r is Ok ==> !final(body).poisoned() && final(body).cursor() == 0,
        match spec_disposition(config, headers@) {
            VerifyDisposition::Skip => r == Ok::<_, String>(VerifyOutcome::Skipped) && *final(body)
                == *old(body),
            VerifyDisposition::MissingHeader => r == Ok::<_, String>(
                VerifyOutcome::Rejected(VerifyErrorType::HeaderNotFound),
            ) && *final(body) == *old(body),
            VerifyDisposition::BadToken => (r matches Ok(
                VerifyOutcome::Rejected(VerifyErrorType::Other(_)),
            )) && *final(body) == *old(body),
            VerifyDisposition::Unsupported => (r matches Ok(
                VerifyOutcome::Rejected(VerifyErrorType::Other(_)),
            )) && *final(body) == *old(body),
            VerifyDisposition::RunVerifier(_, _, _) => (r matches Ok(VerifyOutcome::Verified)) || (
            r matches Ok(VerifyOutcome::Rejected(VerifyErrorType::IncorrectSignature))) || r is Err,
        },
{
    if !config.should_verify(headers) {
        return Ok(VerifyOutcome::Skipped);
    }
    let name = jws_header_name();
    let hv = match headers.get(name.as_slice()) {
        Some(v) => v,
        None => {
            return Ok(VerifyOutcome::Rejected(VerifyErrorType::HeaderNotFound));
        },
    };
    let parsed = match parse_detached_token(hv.as_slice()) {
        Ok(p) => p,
        Err(TokenError::Malformed) => {
            return Ok(
                VerifyOutcome::Rejected(VerifyErrorType::Other("malformed jws token".to_owned())),
            );
        },
        Err(TokenError::UnknownAlgorithm) => {
            return Ok(
                VerifyOutcome::Rejected(
                    VerifyErrorType::Other("unrecognized jws algorithm".to_owned()),
                ),
            );
        },
    };
    let verifier = match config.get_verifier(&parsed.alg) {
        Some(v) => v,
        None => {
            return Ok(
                VerifyOutcome::Rejected(VerifyErrorType::Other("unsupported algorithm".to_owned())),
            );
        },
    };
    let mut w = match JwsDigestWriter::new(verifier, parsed.header_b64.as_slice()) {
        Ok(w) => w,
        Err(()) => {
            return Err("verifier failed".to_owned());
        },
    };
    let ghost content0 = body@;
    loop
        invariant_except_break
            body.wf(),
            !body.poisoned(),
            content0 == old(body)@,
            spec_disposition(config, headers@) is RunVerifier,
            body@ == content0,
            0 <= body.cursor() <= content0.len(),
            body.spill_threshold() == old(body).spill_threshold(),
            body.block_size() == old(body).block_size(),
            body.limit() == old(body).limit(),
            w.wf(),
            !w.is_failed(),
            w.body() == content0.take(body.cursor()),
        ensures
            body.wf(),
            !body.poisoned(),
            body@ == content0,
            body.cursor() == 0,
            body.spill_threshold() == old(body).spill_threshold(),
            body.block_size() == old(body).block_size(),
            body.limit() == old(body).limit(),
            w.wf(),
            !w.is_failed(),
            w.body() == content0,
        decreases content0.len() - body.cursor(),
    {
        let ghost cur0 = body.cursor();
        let chunk = match body.read_from_buffer() {
            Ok(c) => c,
            Err(_) => {
                return Err("buffer read failed".to_owned());
            },
        };
        if chunk.len() == 0 {
            proof {
                assert(content0.take(content0.len() as int) =~= content0);
            }
            break ;
        }
        if !w.write(chunk.as_slice()) {
            return Err("verifier failed".to_owned());
        }
        proof {
            assert(content0.take(cur0) + content0.subrange(cur0, body.cursor()) =~= content0.take(
                body.cursor(),
            ));
        }
    }
    let mut verifier = match w.finish() {
        Ok(p) => p,
        Err(()) => {
            return Err("verifier failed".to_owned());
        },
    };
    match verifier.finish_verify(parsed.signature.as_slice()) {
        Some(true) => Ok(VerifyOutcome::Verified),
        Some(false) => Ok(VerifyOutcome::Rejected(VerifyErrorType::IncorrectSignature)),
        None => Err("verifier failed".to_owned()),
    }
}

} // verus!
