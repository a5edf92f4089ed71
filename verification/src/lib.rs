//! Middleware-style building blocks for detached JSON Web Signatures over
//! streamed HTTP bodies: a memory-then-file spill buffer that makes a body
//! replayable, a streaming digest writer that feeds a signing or verifying
//! primitive with the JWS signing input, and the decision logic for the
//! verify and sign pipeline stages.

pub mod base64url;
pub mod buffering;
pub mod digest;
pub mod headers;
pub mod sign;
pub mod token;
pub mod verify;

pub use crate::base64url::{b64url_decode, b64url_encode};
pub use crate::buffering::{BufferError, FileBufferingStream, FileBufferingStreamBuilder};
pub use crate::digest::{DigestSink, JwsDigestWriter, SignerPrimitive, VerifierPrimitive};
pub use crate::headers::Headers;
pub use crate::sign::{DetachedJwsSign, DetachedJwsSignConfig, attach_signature, sign_buffered};
pub use crate::token::{Algorithm, ParsedToken, TokenError, build_detached_token, parse_detached_token};
pub use crate::verify::{DetachedJwsVerify, DetachedJwsVerifyConfig, ErrorResponse, VerifyErrorType, VerifyOutcome, verify_buffered};
