//! The sign stage's work: stream the buffered response body into a signing
//! primitive over the JWS signing input, build the detached token from the
//! produced signature, and attach it under the signature header. The host
//! shell buffers the downstream response body, calls `sign_buffered`, and
//! replays the body to the client.

use vstd::prelude::*;

use crate::buffering::FileBufferingStream;
use crate::digest::{DigestSink, JwsDigestWriter, SignerPrimitive};
use crate::headers::{spec_lookup, Headers};
use crate::token::{
    build_detached_token, header_bytes, lemma_token_round_trip, spec_parse_token, spec_token,
    Algorithm,
};
use crate::base64url::b64url_encode;
use crate::verify::{jws_header_name, spec_jws_header_name};

verus! {

/// The sign stage's pluggable configuration: the signing primitive and the
/// algorithm it implements. Implementations are supplied by the caller.
pub trait DetachedJwsSignConfig: Sized {
    /// The signing primitive this configuration supplies.
    type Signer: SignerPrimitive;

    /// The algorithm the supplied signer implements.
    spec fn spec_algorithm(&self) -> Algorithm;

    /// A fresh signer and its algorithm identifier.
    fn get_signer(&self) -> (r: (Self::Signer, Algorithm))
        ensures
            r.1 == self.spec_algorithm(),
            r.0.transcript() == Seq::<u8>::empty(),
    ;
}

/// The sign middleware's configuration: the pluggable signer supply and
/// the buffer settings used to wrap each outbound body. The host shell
/// buffers the downstream response body with `buffering`, hands it to
/// `sign_buffered` with `config`, attaches the token, and replays the body.
pub struct DetachedJwsSign<T> {
    pub config: T,
    pub buffering: crate::buffering::FileBufferingStreamBuilder,
}

impl<T> DetachedJwsSign<T> {
    /// Wrap a signer configuration with default buffering.
    pub fn new(config: T) -> (r: Self)
        ensures
            r.config == config,
            r.buffering.tmp_dir is None,
            r.buffering.threshold == 30720usize,
            r.buffering.produce_block_size == 30720usize,
            r.buffering.buffer_limit is None,
    {
        Self { config, buffering: crate::buffering::FileBufferingStreamBuilder::new() }
    }

    /// Replace the buffer settings.
    pub fn override_buffering(
        self,
        v: crate::buffering::FileBufferingStreamBuilder,
    ) -> (r: Self)
        ensures
            r.config == self.config,
            r.buffering == v,
    {
        Self { config: self.config, buffering: v }
    }
}

/// Sign one buffered response body: stream it into the configuration's
/// signer over the JWS signing input and return the detached token for the
/// produced signature. The body's content is never changed, and on success
/// the buffer is left at cursor zero, ready to be replayed to the caller.
/// `Err` is fatal for the response: a buffer or signing failure.
pub fn sign_buffered<C: DetachedJwsSignConfig>(
    config: &C,
    body: &mut FileBufferingStream,
) -> (r: Result<Vec<u8>, String>)
    requires
        old(body).wf(),
        !old(body).poisoned(),
        old(body).cursor() == 0,
    ensures
        final(body).wf(),
        final(body)@ == old(body)@,
        final(body).spill_threshold() == old(body).spill_threshold(),
        final(body).block_size() == old(body).block_size(),
        final(body).limit() == old(body).limit(),
        r matches Ok(t) ==> !final(body).poisoned() && final(body).cursor() == 0 && exists|
            sig: Seq<u8>,
        |
            t@ == spec_token(config.spec_algorithm(), sig) && spec_parse_token(t@) == Ok::<
                _,
                crate::token::TokenError,
            >((config.spec_algorithm(), crate::base64url::b64_encode(
                crate::token::spec_header_bytes(config.spec_algorithm()),
            ), sig)),
{
    let (signer, alg) = config.get_signer();
    let hb = header_bytes(&alg);
    let hb64 = b64url_encode(hb.as_slice());
    let mut w = match JwsDigestWriter::new(signer, hb64.as_slice()) {
        Ok(w) => w,
        Err(()) => {
            return Err("signer failed".to_owned());
        },
    };
    let ghost content0 = body@;
    loop
        invariant_except_break
            body.wf(),
            !body.poisoned(),
            content0 == old(body)@,
            body@ == content0,
            0 <= body.cursor() <= content0.len(),
            body.spill_threshold() == old(body).spill_threshold(),
            body.block_size() == old(body).block_size(),
            body.limit() == old(body).limit(),
            w.wf(),
            !w.is_failed(),
            w.body() == content0.take(body.cursor()),
        ensures
            body.wf(),
            !body.poisoned(),
            body@ == content0,
            body.cursor() == 0,
            body.spill_threshold() == old(body).spill_threshold(),
            body.block_size() == old(body).block_size(),
            body.limit() == old(body).limit(),
            w.wf(),
            !w.is_failed(),
            w.body() == content0,
        decreases content0.len() - body.cursor(),
    {
        let ghost cur0 = body.cursor();
        let chunk = match body.read_from_buffer() {
            Ok(c) => c,
            Err(_) => {
                return Err("buffer read failed".to_owned());
            },
        };
        if chunk.len() == 0 {
            proof {
                assert(content0.take(content0.len() as int) =~= content0);
            }
            break ;
        }
        if !w.write(chunk.as_slice()) {
            return Err("signer failed".to_owned());
        }
        proof {
            assert(content0.take(cur0) + content0.subrange(cur0, body.cursor()) =~= content0.take(
                body.cursor(),
            ));
        }
    }
    let mut signer = match w.finish() {
        Ok(p) => p,
        Err(()) => {
            return Err("signer failed".to_owned());
        },
    };
    let signature = match signer.finish_sign() {
        Some(s) => s,
        None => {
            return Err("signer failed".to_owned());
        },
    };
    let token = build_detached_token(&alg, signature.as_slice());
    proof {
        lemma_token_round_trip(alg, signature@);
        assert(token@ == spec_token(config.spec_algorithm(), signature@));
    }
    Ok(token)
}

/// Attach a signature token under the signature header, shadowing any
/// earlier value.
pub fn attach_signature(headers: &mut Headers, token: Vec<u8>)
    ensures
        final(headers)@ == seq![(spec_jws_header_name(), token@)] + old(headers)@,
        spec_lookup(final(headers)@, spec_jws_header_name()) == Some(token@),
{
    let ghost t = token@;
    let name = jws_header_name();
    headers.insert(name, token);
    proof {
        assert(token_lookup_succeeds(old(headers)@, t));
    }
}

/// Helper fact for `attach_signature`: looking the signature header up in
/// the extended mapping finds the fresh token.
spec fn token_lookup_succeeds(rest: Seq<(Seq<u8>, Seq<u8>)>, token: Seq<u8>) -> bool {
    spec_lookup(seq![(spec_jws_header_name(), token)] + rest, spec_jws_header_name()) == Some(token)
}

} // verus!
