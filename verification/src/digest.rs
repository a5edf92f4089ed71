//! The streaming digest writer: it feeds a signing or verifying primitive
//! with the JWS signing input — the base64url-encoded protected header, a
//! dot, and the base64url encoding of the body, produced incrementally as
//! body chunks arrive, so the body never has to be in memory at once.

use vstd::prelude::*;

use crate::base64url::{b64_encode, b64url_encode, lemma_encode_append};

verus! {

/// An incremental byte sink over a cryptographic primitive. `transcript` is
/// the sequence of bytes accepted so far; a successful `update` appends to
/// it. Implementations are supplied by the caller (a signer or verifier
/// bound to key material); nothing else is assumed of them.
pub trait DigestSink: Sized {
    /// The bytes fed to the primitive so far.
    spec fn transcript(&self) -> Seq<u8>;

    /// Feed `data`; `false` means the primitive failed, which aborts the
    /// pipeline stage.
    fn update(&mut self, data: &[u8]) -> (ok: bool)
        ensures
            ok ==> final(self).transcript() == old(self).transcript() + data@,
    ;
}

/// A signing primitive: after all bytes are fed, it produces the signature
/// over its transcript, or fails.
pub trait SignerPrimitive: DigestSink {
    /// The signature over the transcript, or `None` on failure of the
    /// underlying primitive.
    fn finish_sign(&mut self) -> (r: Option<Vec<u8>>);
}

/// A verifying primitive: after all bytes are fed, it checks a signature
/// against its transcript. `Some(true)` means the signature matches,
/// `Some(false)` that it does not, `None` that the primitive itself failed.
pub trait VerifierPrimitive: DigestSink {
    /// Whether `signature` signs the transcript, or `None` on failure of
    /// the underlying primitive.
    fn finish_verify(&mut self, signature: &[u8]) -> (r: Option<bool>);
}

/// The JWS signing input for an encoded protected header and a body: the
/// header part, a dot, and the base64url encoding of the body.
pub open spec fn spec_signing_input(header_b64: Seq<u8>, body: Seq<u8>) -> Seq<u8> {
    header_b64 + seq![46u8] + b64_encode(body)
}

/// Streams the JWS signing input into a primitive: the encoded header and
/// the dot at construction, then the base64url encoding of the body as its
/// chunks arrive, holding back at most two bytes until a 3-byte encoding
/// group is complete. After a primitive failure the writer is dead and
/// `finish` fails.
pub struct JwsDigestWriter<P> {
    sink: P,
    pending: Vec<u8>,
    failed: bool,
    header: Ghost<Seq<u8>>,
    body: Ghost<Seq<u8>>,
}

impl<P: DigestSink> JwsDigestWriter<P> {
    /// The encoded protected header this writer was started with.
    pub closed spec fn header(&self) -> Seq<u8> {
        self.header@
    }

    /// Bytes fed before the body encoding: the encoded header and the dot.
    pub open spec fn prefix(&self) -> Seq<u8> {
        self.header() + seq![46u8]
    }

    /// Body bytes accepted so far.
    pub closed spec fn body(&self) -> Seq<u8> {
        self.body@
    }

    /// The primitive failed earlier.
    pub closed spec fn is_failed(&self) -> bool {
        self.failed
    }

    /// While not failed, the primitive's transcript is the prefix plus the
    /// encoding of the complete groups of the body; the incomplete group is
    /// pending.
    pub closed spec fn wf(&self) -> bool {
        !self.failed ==> {
            &&& self.pending@ == self.body@.skip(3 * (self.body@.len() as int / 3))
            &&& self.sink.transcript() == self.prefix() + b64_encode(
                self.body@.take(3 * (self.body@.len() as int / 3)),
            )
        }
    }

    /// Start the signing input: feed the encoded protected header and the
    /// separating dot to a fresh primitive. `Err` means the primitive
    /// failed.
    pub fn new(sink: P, header_b64: &[u8]) -> (r: Result<JwsDigestWriter<P>, ()>)
        requires
            sink.transcript() == Seq::<u8>::empty(),
        ensures
            r matches Ok(w) ==> w.wf() && !w.is_failed() && w.header() == header_b64@ && w.body()
                == Seq::<u8>::empty(),
    {
        let mut sink = sink;
        if !sink.update(header_b64) {
            return Err(());
        }
        let mut dot: Vec<u8> = Vec::new();
        dot.push(46);
        if !sink.update(dot.as_slice()) {
            return Err(());
        }
        let w = JwsDigestWriter {
            sink,
            pending: Vec::new(),
            failed: false,
            header: Ghost(header_b64@),
            body: Ghost(Seq::<u8>::empty()),
        };
        proof {
            assert(dot@ =~= seq![46u8]);
            assert(Seq::<u8>::empty() + header_b64@ =~= header_b64@);
            assert(w.body@.take(0) =~= Seq::<u8>::empty());
            assert(w.body@.skip(0) =~= Seq::<u8>::empty());
            assert(b64_encode(Seq::<u8>::empty()) == Seq::<u8>::empty());
            assert(w.pending@ =~= w.body@.skip(0));
            assert(w.sink.transcript() =~= w.prefix() + b64_encode(w.body@.take(0)));
        }
        Ok(w)
    }

    /// Accept the next body chunk, feeding the encoding of every completed
    /// 3-byte group to the primitive. `false` means the primitive failed,
    /// now or earlier.
    pub fn write(&mut self, chunk: &[u8]) -> (ok: bool)
        requires
            old(self).wf(),
        ensures
            final(self).wf(),
            final(self).prefix() == old(self).prefix(),
            ok ==> !old(self).is_failed() && !final(self).is_failed() && final(self).body() == old(
                self,
            ).body() + chunk@,
            !ok ==> final(self).is_failed(),
    {
        if self.failed {
            return false;
        }
        let ghost body0 = self.body@;
        let ghost full0 = 3 * (body0.len() as int / 3);
        let mut work: Vec<u8> = Vec::new();
        core::mem::swap(&mut work, &mut self.pending);
        let mut tail = vstd::slice::slice_to_vec(chunk);
        work.append(&mut tail);
        let rem = work.len() % 3;
        let full = work.len() - rem;
        let group_slice = vstd::slice::slice_subrange(work.as_slice(), 0, full);
        let encoded = b64url_encode(group_slice);
        proof {
            assert(group_slice@ =~= work@.take(full as int));
        }
        if !self.sink.update(encoded.as_slice()) {
            self.failed = true;
            return false;
        }
        let pending_slice = vstd::slice::slice_subrange(work.as_slice(), full, work.len());
        self.pending = vstd::slice::slice_to_vec(pending_slice);
        proof {
            let body1 = body0 + chunk@;
            self.body@ = body1;
            let full1 = 3 * (body1.len() as int / 3);
            assert(full0 % 3 == 0 && 0 <= full0 <= body0.len()) by (nonlinear_arith)
                requires
                    full0 == 3 * (body0.len() as int / 3),
                    body0.len() >= 0,
            ;
            assert(work@ =~= body0.skip(full0) + chunk@);
            assert(body1.skip(full0) =~= work@);
            assert(body1.len() == full0 + work@.len());
            assert(body1.len() as int % 3 == work@.len() as int % 3) by (nonlinear_arith)
                requires
                    body1.len() as int == full0 + work@.len() as int,
                    full0 % 3 == 0,
                    full0 >= 0,
            ;
            assert(full1 == full0 + full as int);
            assert(body1.skip(full1) =~= work@.skip(full as int));
            assert(self.pending@ =~= work@.skip(full as int));
            let a = body0.take(full0);
            let b = work@.take(full as int);
            lemma_encode_append(a, b);
            assert(a + b =~= body1.take(full1));
            assert(self.sink.transcript() == self.prefix() + b64_encode(a) + b64_encode(b));
            assert(self.prefix() + b64_encode(a) + b64_encode(b) =~= self.prefix() + b64_encode(
                body1.take(full1),
            ));
        }
        true
    }

    /// Feed the encoding of the incomplete final group, if any, and hand
    /// the primitive back; its transcript is then exactly the signing input
    /// for the header and the accepted body. `Err` means the primitive
    /// failed, now or earlier.
    pub fn finish(self) -> (r: Result<P, ()>)
        requires
            self.wf(),
        ensures
            r matches Ok(p) ==> !self.is_failed() && p.transcript() == spec_signing_input(
                self.header(),
                self.body(),
            ),
    {
        let ghost prefix = self.prefix();
        let JwsDigestWriter { mut sink, pending, failed, header: Ghost(header), body: Ghost(body) } =
            self;
        if failed {
            return Err(());
        }
        let ghost full = 3 * (body.len() as int / 3);
        let encoded = b64url_encode(pending.as_slice());
        if !sink.update(encoded.as_slice()) {
            return Err(());
        }
        proof {
            assert(full % 3 == 0 && 0 <= full <= body.len()) by (nonlinear_arith)
                requires
                    full == 3 * (body.len() as int / 3),
                    body.len() >= 0,
            ;
            let a = body.take(full);
            let b = body.skip(full);
            lemma_encode_append(a, b);
            assert(a + b =~= body);
            assert(sink.transcript() == prefix + b64_encode(a) + b64_encode(b));
            assert(prefix + b64_encode(a) + b64_encode(b) =~= spec_signing_input(header, body));
        }
        Ok(sink)
    }
}

} // verus!
