//! The per-request pipeline: fingerprinting, the cache fast path, building a
//! response on a miss, and the classification of every failure.

use vstd::prelude::*;
use crate::cache::{admitted, lemma_insert_then_get, lookup, RequestCache};
use vstd::utf8::encode_utf8;
use crate::create_qrcode::{new, render_outcome, RenderError};
use crate::img::{compose, compose_outcome, reader_image, webp_encoding, ComposeError, LogoSpec};

verus! {

/// A validated request: the text to encode, the image width, and the logo.
pub struct RenderRequest {
    pub text: String,
    pub width: u32,
    pub logo: Option<LogoSpec>,
}

/// Why a logo could not be fetched.
#[derive(Debug, Clone, Copy, PartialEq, Eq, Structural)]
pub enum FetchError {
    /// No connection, or no answer before the timeout.
    Unreachable,
    /// The remote answered with a non-success status.
    NotFound,
    /// The remote's bytes are not an image.
    DecodeFailure,
}

/// How a request failed.
#[derive(Debug, Clone, Copy, PartialEq, Eq, Structural)]
pub enum ErrorKind {
    /// A zero width, a width whose raster cannot be held, or a logo size that cannot be.
    InvalidInput,
    /// The text does not fit in a symbol.
    PayloadTooLarge,
    /// The logo host is unreachable or answered with a non-success status.
    RemoteUnavailable,
    /// The logo bytes are not an image.
    DecodeFailure,
    /// The finished raster could not be encoded.
    InternalFailure,
}

/// The HTTP status that a failure is reported with.
pub open spec fn status_of(kind: ErrorKind) -> u16 {
    match kind {
        ErrorKind::InvalidInput => 400,
        ErrorKind::PayloadTooLarge => 413,
        ErrorKind::RemoteUnavailable => 404,
        ErrorKind::DecodeFailure => 422,
        ErrorKind::InternalFailure => 500,
    }
}

/// The HTTP status that a failure is reported with: a client error for all
/// but `InternalFailure`, which is a server error.
pub fn status_code(kind: ErrorKind) -> (r: u16)
    ensures
        r == status_of(kind),
        400 <= r < 500 <==> kind != ErrorKind::InternalFailure,
{
    match kind {
        ErrorKind::InvalidInput => 400,
        ErrorKind::PayloadTooLarge => 413,
        ErrorKind::RemoteUnavailable => 404,
        ErrorKind::DecodeFailure => 422,
        ErrorKind::InternalFailure => 500,
    }
}

/// The failure kind of a rendering error.
pub open spec fn render_kind(e: RenderError) -> ErrorKind {
    match e {
        RenderError::InvalidDimension => ErrorKind::InvalidInput,
        RenderError::PayloadTooLarge => ErrorKind::PayloadTooLarge,
    }
}

/// The failure kind of a compositing error.
pub open spec fn compose_kind(e: ComposeError) -> ErrorKind {
    match e {
        ComposeError::DecodeFailure => ErrorKind::DecodeFailure,
        ComposeError::TooLarge => ErrorKind::InvalidInput,
    }
}

/// The failure kind of a fetch error.
pub open spec fn fetch_kind(e: FetchError) -> ErrorKind {
    match e {
        FetchError::Unreachable => ErrorKind::RemoteUnavailable,
        FetchError::NotFound => ErrorKind::RemoteUnavailable,
        FetchError::DecodeFailure => ErrorKind::DecodeFailure,
    }
}

/// Classifies a rendering failure.
pub fn render_error_kind(e: RenderError) -> (r: ErrorKind)
    ensures
        r == render_kind(e),
{
    match e {
        RenderError::InvalidDimension => ErrorKind::InvalidInput,
        RenderError::PayloadTooLarge => ErrorKind::PayloadTooLarge,
    }
}

/// Classifies a compositing failure.
pub fn compose_error_kind(e: ComposeError) -> (r: ErrorKind)
    ensures
        r == compose_kind(e),
{
    match e {
        ComposeError::DecodeFailure => ErrorKind::DecodeFailure,
        ComposeError::TooLarge => ErrorKind::InvalidInput,
    }
}

/// Classifies a fetch failure.
pub fn fetch_error_kind(e: FetchError) -> (r: ErrorKind)
    ensures
        r == fetch_kind(e),
{
    match e {
        FetchError::Unreachable => ErrorKind::RemoteUnavailable,
        FetchError::NotFound => ErrorKind::RemoteUnavailable,
        FetchError::DecodeFailure => ErrorKind::DecodeFailure,
    }
}

/// What a logo fetch that got an answer gave: the body on a success status
/// (2xx), `NotFound` on any other status, `Unreachable` when the body could
/// not be read.
pub fn logo_response(status: u16, body: Option<Vec<u8>>) -> (r: Result<Vec<u8>, FetchError>)
    ensures
        !(200 <= status < 300) ==> r == Err::<Vec<u8>, FetchError>(FetchError::NotFound),
        200 <= status < 300 && body is None ==> r == Err::<Vec<u8>, FetchError>(FetchError::Unreachable),
        200 <= status < 300 && body is Some ==> r == Ok::<Vec<u8>, FetchError>(body->Some_0),
{
    if status < 200 || status >= 300 {
        return Err(FetchError::NotFound);
    }
    match body {
        Some(b) => Ok(b),
        None => Err(FetchError::Unreachable),
    }
}

/// Whether a `width × width` raster can be held in memory.
pub open spec fn width_fits(width: nat) -> bool {
    3 * width * width <= usize::MAX
}

/// The rendered base raster for `text` at `width`, after validation.
pub open spec fn base_outcome(text: Seq<char>, width: nat) -> Result<Seq<u8>, ErrorKind> {
    if width == 0 || !width_fits(width) {
        Err(ErrorKind::InvalidInput)
    } else {
        match render_outcome(text, width) {
            Ok(d) => Ok(d),
            Err(e) => Err(render_kind(e)),
        }
    }
}

/// The encoded response for a `width × width` raster with samples `d`.
pub open spec fn encoded_outcome(width: nat, d: Seq<u8>) -> Result<Seq<u8>, ErrorKind> {
    match webp_encoding(width, width, d) {
        Some(b) => Ok(b),
        None => Err(ErrorKind::InternalFailure),
    }
}

/// The response bytes for a request without a logo.
pub open spec fn plain_outcome(text: Seq<char>, width: nat) -> Result<Seq<u8>, ErrorKind> {
    match base_outcome(text, width) {
        Err(k) => Err(k),
        Ok(d) => encoded_outcome(width, d),
    }
}

/// The response bytes for a request with a logo, given what the fetch gave.
pub open spec fn logo_outcome(
    text: Seq<char>,
    width: nat,
    target_width: nat,
    target_height: Option<u32>,
    fetched: Result<Seq<u8>, FetchError>,
) -> Result<Seq<u8>, ErrorKind> {
    match base_outcome(text, width) {
        Err(k) => Err(k),
        Ok(d) => match fetched {
            Err(e) => Err(fetch_kind(e)),
            Ok(bytes) => match compose_outcome(d, width, width, bytes, target_width, target_height) {
                Err(e) => Err(compose_kind(e)),
                Ok(c) => encoded_outcome(width, c),
            },
        },
    }
}

/// Validates the width and renders the base raster.
fn render_base(text: String, width: u32) -> (r: Result<crate::raster::Raster, ErrorKind>)
    ensures
        match r {
            Ok(img) => img.wf() && img.width == width && img.height == width
                && base_outcome(text@, width as nat) == Ok::<Seq<u8>, ErrorKind>(img.data@),
            Err(k) => base_outcome(text@, width as nat) == Err::<Seq<u8>, ErrorKind>(k),
        },
{
    if width == 0 {
        return Err(ErrorKind::InvalidInput);
    }
    let w = width as u128;
    proof {
        assert(3 * w * w <= 3 * 0xffff_ffff * 0xffff_ffff) by (nonlinear_arith)
            requires
                w <= 0xffff_ffff,
        ;
    }
    if 3 * w * w > usize::MAX as u128 {
        return Err(ErrorKind::InvalidInput);
    }
    match new(text, width) {
        Ok(img) => Ok(img),
        Err(e) => Err(render_error_kind(e)),
    }
}

/// Encodes a finished raster as the response body.
fn encode_response(img: crate::raster::Raster) -> (r: Result<Vec<u8>, ErrorKind>)
    requires
        img.wf(),
        img.width == img.height,
    ensures
        match r {
            Ok(b) => encoded_outcome(img.width as nat, img.data@) == Ok::<Seq<u8>, ErrorKind>(b@),
            Err(k) => encoded_outcome(img.width as nat, img.data@) == Err::<Seq<u8>, ErrorKind>(k),
        },
{
    match reader_image(img) {
        Ok((bytes, _mime)) => Ok(bytes),
        Err(_) => Err(ErrorKind::InternalFailure),
    }
}

/// Builds the response for a request without a logo: validate, render, encode.
pub fn produce_plain(text: String, width: u32) -> (r: Result<Vec<u8>, ErrorKind>)
    ensures
        match r {
            Ok(b) => plain_outcome(text@, width as nat) == Ok::<Seq<u8>, ErrorKind>(b@),
            Err(k) => plain_outcome(text@, width as nat) == Err::<Seq<u8>, ErrorKind>(k),
        },
{
    match render_base(text, width) {
        Err(k) => Err(k),
        Ok(img) => encode_response(img),
    }
}

/// Builds the response for a request with a logo, from what fetching the
/// logo gave: validate, render, composite the logo, encode.
pub fn produce_with_logo(
    text: String,
    width: u32,
    logo: &LogoSpec,
    fetched: Result<Vec<u8>, FetchError>,
) -> (r: Result<Vec<u8>, ErrorKind>)
    ensures
        ({
            let f = match fetched {
                Ok(b) => Ok::<Seq<u8>, FetchError>(b@),
                Err(e) => Err::<Seq<u8>, FetchError>(e),
            };
            let expected = logo_outcome(text@, width as nat, logo.target_width as nat, logo.target_height, f);
            match r {
                Ok(b) => expected == Ok::<Seq<u8>, ErrorKind>(b@),
                Err(k) => expected == Err::<Seq<u8>, ErrorKind>(k),
            }
        }),
{
    let base = match render_base(text, width) {
        Err(k) => return Err(k),
        Ok(img) => img,
    };
    let bytes = match fetched {
        Err(e) => return Err(fetch_error_kind(e)),
        Ok(b) => b,
    };
    match compose(base, bytes.as_slice(), logo) {
        Err(e) => Err(compose_error_kind(e)),
        Ok(img) => encode_response(img),
    }
}

/// The FNV-1a 64-bit offset basis.
pub const FNV_OFFSET: u64 = 0xcbf2_9ce4_8422_2325;

/// The FNV-1a 64-bit prime.
pub const FNV_PRIME: u64 = 0x0000_0100_0000_01b3;

/// The low `count` bytes of `n`, least significant first.
pub open spec fn le_bytes(n: u64, count: nat) -> Seq<u8> {
    Seq::new(count, |i: int| ((n >> (8 * i) as u64) & 0xff) as u8)
}

/// A variable-length field: its length as eight bytes, then its bytes.
pub open spec fn field(b: Seq<u8>) -> Seq<u8> {
    le_bytes(b.len() as u64, 8) + b
}

/// The bytes that identify a request: every field, with the presence or
/// absence of each optional part marked by a tag byte.
pub open spec fn request_key(req: RenderRequest) -> Seq<u8> {
    field(encode_utf8(req.text@)) + le_bytes(req.width as u64, 4) + match req.logo {
        None => seq![0u8],
        Some(l) => seq![1u8] + field(encode_utf8(l.source_url@)) + le_bytes(l.target_width as u64, 4)
            + match l.target_height {
            None => seq![0u8],
            Some(h) => seq![1u8] + le_bytes(h as u64, 4),
        },
    }
}

/// The 64-bit FNV-1a hash of `bytes`.
pub open spec fn fnv1a(bytes: Seq<u8>) -> u64
    decreases bytes.len(),
{
    if bytes.len() == 0 {
        FNV_OFFSET
    } else {
        (fnv1a(bytes.drop_last()) ^ (bytes.last() as u64)).wrapping_mul(FNV_PRIME)
    }
}

/// The cache key of a request.
pub open spec fn fingerprint_of(req: RenderRequest) -> u64 {
    fnv1a(request_key(req))
}

/// Appends the low `count` bytes of `n`, least significant first.
fn push_le(out: &mut Vec<u8>, n: u64, count: usize)
    requires
        count <= 8,
    ensures
        final(out)@ == old(out)@ + le_bytes(n, count as nat),
{
    let ghost start = out@;
    let mut i: usize = 0;
    while i < count
        invariant
            i <= count <= 8,
            out@ == start + le_bytes(n, i as nat),
        decreases count - i,
    {
        out.push(((n >> (8 * i as u64)) & 0xff) as u8);
        i = i + 1;
        assert(out@ =~= start + le_bytes(n, i as nat));
    }
}

/// Appends `b` as a length-prefixed field.
fn push_field(out: &mut Vec<u8>, b: &[u8])
    ensures
        final(out)@ == old(out)@ + field(b@),
{
    let ghost start = out@;
    push_le(out, b.len() as u64, 8);
    let ghost mid = out@;
    let mut i: usize = 0;
    while i < b.len()
        invariant
            i <= b@.len(),
            out@ == mid + b@.subrange(0, i as int),
        decreases b@.len() - i,
    {
        out.push(b[i]);
        i = i + 1;
        assert(out@ =~= mid + b@.subrange(0, i as int));
    }
    assert(b@.subrange(0, b@.len() as int) =~= b@);
    assert(out@ =~= start + field(b@));
}

/// The bytes that identify `req`.
pub fn request_key_bytes(req: &RenderRequest) -> (r: Vec<u8>)
    ensures
        r@ == request_key(*req),
{
    let mut out: Vec<u8> = Vec::new();
    push_field(&mut out, req.text.as_str().as_bytes());
    push_le(&mut out, req.width as u64, 4);
    match &req.logo {
        None => {
            out.push(0u8);
        },
        Some(l) => {
            out.push(1u8);
            push_field(&mut out, l.source_url.as_str().as_bytes());
            push_le(&mut out, l.target_width as u64, 4);
            match l.target_height {
                None => {
                    out.push(0u8);
                },
                Some(h) => {
                    out.push(1u8);
                    push_le(&mut out, h as u64, 4);
                },
            }
        },
    }
    assert(out@ =~= request_key(*req));
    out
}

/// The 64-bit FNV-1a hash of `bytes`.
pub fn fnv1a_hash(bytes: &[u8]) -> (r: u64)
    ensures
        r == fnv1a(bytes@),
{
    let mut h: u64 = FNV_OFFSET;
    let mut i: usize = 0;
    while i < bytes.len()
        invariant
            i <= bytes@.len(),
            h == fnv1a(bytes@.subrange(0, i as int)),
        decreases bytes@.len() - i,
    {
        assert(bytes@.subrange(0, i + 1).drop_last() =~= bytes@.subrange(0, i as int));
        h = (h ^ (bytes[i] as u64)).wrapping_mul(FNV_PRIME);
        i = i + 1;
    }
    assert(bytes@.subrange(0, bytes@.len() as int) =~= bytes@);
    h
}

/// The cache key of `req`: the FNV-1a hash of its identifying bytes, so
/// that requests differing in any field get different keys except by a
/// hash collision.
pub fn fingerprint(req: &RenderRequest) -> (r: u64)
    ensures
        r == fingerprint_of(*req),
{
    let key = request_key_bytes(req);
    fnv1a_hash(key.as_slice())
}

/// What a request needs next.
pub enum Next {
    /// A fresh cached response exists: serve these bytes.
    Serve(Vec<u8>),
    /// Nothing cached; fetch the logo at this URL, then build.
    Fetch(String),
    /// Nothing cached and no logo; build.
    Build,
}

/// The first decision for a request: serve from the cache when a fresh
/// entry exists, else fetch the logo if one is asked for, else build.
pub fn begin(cache: &RequestCache, req: &RenderRequest, now: u64) -> (r: Next)
    requires
        cache.wf(),
    ensures
        match lookup(cache.entries(), fingerprint_of(*req), now, cache.ttl()) {
            Some(b) => r matches Next::Serve(x) && x@ == b,
            None => match req.logo {
                Some(l) => r matches Next::Fetch(u) && u@ == l.source_url@,
                None => r is Build,
            },
        },
{
    let fp = fingerprint(req);
    match cache.get(fp, now) {
        Some(b) => Next::Serve(b),
        None => match &req.logo {
            Some(l) => Next::Fetch(l.source_url.clone()),
            None => Next::Build,
        },
    }
}

/// The last step for a request: a built response is stored under `fp` at
/// `now` and served; a failure is reported and nothing is stored.
pub fn finish(cache: &mut RequestCache, fp: u64, built: Result<Vec<u8>, ErrorKind>, now: u64) -> (r: Result<
    Vec<u8>,
    ErrorKind,
>)
    requires
        old(cache).wf(),
    ensures
        final(cache).wf(),
        final(cache).capacity() == old(cache).capacity(),
        final(cache).ttl() == old(cache).ttl(),
        match built {
            Ok(b) => (r matches Ok(x) && x@ == b@) && (exists|stored: Vec<u8>|
                stored@ == b@ && final(cache).entries() == admitted(
                    old(cache).entries(),
                    old(cache).capacity(),
                    fp,
                    stored,
                    now,
                )) && (old(cache).capacity() > 0 && old(cache).ttl() > 0 ==> lookup(
                final(cache).entries(),
                fp,
                now,
                old(cache).ttl(),
            ) == Some(b@)),
            Err(k) => r == Err::<Vec<u8>, ErrorKind>(k) && final(cache).entries() == old(cache).entries(),
        },
{
    match built {
        Ok(b) => {
            let stored = b.clone();
            proof {
                assert(stored@ =~= b@);
                if cache.capacity() > 0 && cache.ttl() > 0 {
                    lemma_insert_then_get(cache.entries(), cache.capacity(), cache.ttl(), fp, stored, now);
                }
            }
            cache.insert(fp, stored, now);
            Ok(b)
        },
        Err(k) => Err(k),
    }
}

} // verus!
