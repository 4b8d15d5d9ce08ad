//! Incremental digest states: MD5, SHA-1, SHA-256 and SHA-512.
//!
//! The digests themselves are not defined here. Each is a named function of
//! the bytes taken in; the states below are held to those names.

use sha1::digest::FixedOutput;
use sha1::digest::Update;
use sha1::Digest;
use vstd::prelude::*;

verus! {

/// `md5::Context`, a running MD5 state.
#[verifier::external_type_specification]
#[verifier::external_body]
pub struct ExMd5Context(md5::Context);

/// The bytes that an MD5 state has taken in so far, in order.
pub uninterp spec fn md5_absorbed(ctx: md5::Context) -> Seq<u8>;

/// The MD5 digest of a byte string.
pub uninterp spec fn md5_digest(data: Seq<u8>) -> Seq<u8>;

/// The bytes that a SHA-1 state has taken in so far, in order.
pub uninterp spec fn sha1_absorbed(state: Sha1State) -> Seq<u8>;

/// The SHA-1 digest of a byte string.
pub uninterp spec fn sha1_digest(data: Seq<u8>) -> Seq<u8>;

/// The bytes that a SHA-256 state has taken in so far, in order.
pub uninterp spec fn sha256_absorbed(state: Sha256State) -> Seq<u8>;

/// The SHA-256 digest of a byte string.
pub uninterp spec fn sha256_digest(data: Seq<u8>) -> Seq<u8>;

/// The bytes that a SHA-512 state has taken in so far, in order.
pub uninterp spec fn sha512_absorbed(state: Sha512State) -> Seq<u8>;

/// The SHA-512 digest of a byte string.
pub uninterp spec fn sha512_digest(data: Seq<u8>) -> Seq<u8>;

/// A running `sha1::Sha1`. The state is held whole: its type is bound by
/// traits of the crates beneath it, which stand outside what is verified.
#[verifier::external_body]
pub struct Sha1State {
    inner: sha1::Sha1,
}

/// A running `sha2::Sha256`, held whole as the SHA-1 state is.
#[verifier::external_body]
pub struct Sha256State {
    inner: sha2::Sha256,
}

/// A running `sha2::Sha512`, held whole as the SHA-1 state is.
#[verifier::external_body]
pub struct Sha512State {
    inner: sha2::Sha512,
}

/// `md5::Context::new`: a state that has taken in nothing.
#[verifier::external_body]
pub(crate) fn md5_new() -> (ctx: md5::Context)
    ensures
        md5_absorbed(ctx) == Seq::<u8>::empty(),
{
    md5::Context::new()
}

/// `md5::Context::consume`: the state takes in `data` after what it holds.
#[verifier::external_body]
pub(crate) fn md5_consume(ctx: &mut md5::Context, data: &[u8])
    ensures
        md5_absorbed(*final(ctx)) == md5_absorbed(*old(ctx)) + data@,
{
    ctx.consume(data)
}

/// `md5::Context::compute`: the MD5 digest of all that the state took in.
#[verifier::external_body]
pub(crate) fn md5_compute(ctx: md5::Context) -> (d: [u8; 16])
    ensures
        d@ == md5_digest(md5_absorbed(ctx)),
{
    ctx.compute().0
}

/// `Digest::new` of `sha1::Sha1`: a state that has taken in nothing.
#[verifier::external_body]
pub(crate) fn sha1_new() -> (state: Sha1State)
    ensures
        sha1_absorbed(state) == Seq::<u8>::empty(),
{
    Sha1State { inner: sha1::Sha1::new() }
}

/// `Update::update` of `sha1::Sha1`: the state takes in `data` after what it
/// holds.
#[verifier::external_body]
pub(crate) fn sha1_update(state: &mut Sha1State, data: &[u8])
    ensures
        sha1_absorbed(*final(state)) == sha1_absorbed(*old(state)) + data@,
{
    Update::update(&mut state.inner, data)
}

/// `FixedOutput::finalize_fixed` of `sha1::Sha1`: the SHA-1 digest of all that
/// the state took in.
#[verifier::external_body]
pub(crate) fn sha1_finish(state: Sha1State) -> (d: [u8; 20])
    ensures
        d@ == sha1_digest(sha1_absorbed(state)),
{
    state.inner.finalize_fixed().into()
}

/// `Digest::new` of `sha2::Sha256`: a state that has taken in nothing.
#[verifier::external_body]
pub(crate) fn sha256_new() -> (state: Sha256State)
    ensures
        sha256_absorbed(state) == Seq::<u8>::empty(),
{
    Sha256State { inner: sha2::Sha256::new() }
}

/// `Update::update` of `sha2::Sha256`: the state takes in `data` after what
/// it holds.
#[verifier::external_body]
pub(crate) fn sha256_update(state: &mut Sha256State, data: &[u8])
    ensures
        sha256_absorbed(*final(state)) == sha256_absorbed(*old(state)) + data@,
{
    Update::update(&mut state.inner, data)
}

/// `FixedOutput::finalize_fixed` of `sha2::Sha256`: the SHA-256 digest of all
/// that the state took in.
#[verifier::external_body]
pub(crate) fn sha256_finish(state: Sha256State) -> (d: [u8; 32])
    ensures
        d@ == sha256_digest(sha256_absorbed(state)),
{
    state.inner.finalize_fixed().into()
}

/// `Digest::new` of `sha2::Sha512`: a state that has taken in nothing.
#[verifier::external_body]
pub(crate) fn sha512_new() -> (state: Sha512State)
    ensures
        sha512_absorbed(state) == Seq::<u8>::empty(),
{
    Sha512State { inner: sha2::Sha512::new() }
}

/// `Update::update` of `sha2::Sha512`: the state takes in `data` after what
/// it holds.
#[verifier::external_body]
pub(crate) fn sha512_update(state: &mut Sha512State, data: &[u8])
    ensures
        sha512_absorbed(*final(state)) == sha512_absorbed(*old(state)) + data@,
{
    Update::update(&mut state.inner, data)
}

/// `FixedOutput::finalize_fixed` of `sha2::Sha512`: the SHA-512 digest of all
/// that the state took in.
#[verifier::external_body]
pub(crate) fn sha512_finish(state: Sha512State) -> (d: [u8; 64])
    ensures
        d@ == sha512_digest(sha512_absorbed(state)),
{
    state.inner.finalize_fixed().into()
}

} // verus!
