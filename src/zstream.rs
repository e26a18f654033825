//! Persistent zlib streams. RFB decoders keep one inflate context per
//! encoding for the whole connection, so each stream is created on first use
//! and then fed every later rectangle of its encoding; every call ends with a
//! sync flush so that the peer can decode all input given so far.

use vstd::prelude::*;
use std::io::Write;
use flate2::write::ZlibEncoder;

verus! {

/// A `flate2` zlib encoder writing into a vector. Verus does not take the
/// encoder's declaration (its type parameter is bound by `io::Write`), so it
/// is held here, out of Verus's sight, and described by `zlib_fed`.
#[verifier::external_body]
pub struct ZlibWriter {
    inner: ZlibEncoder<Vec<u8>>,
}

/// The inputs a writer has consumed so far, one entry per sync flush.
pub uninterp spec fn zlib_fed(e: ZlibWriter) -> Seq<Seq<u8>>;

/// The bytes a level-5 zlib stream emits for the last of `chunks`, given that
/// it was fed `chunks` in order with a sync flush after each.
pub uninterp spec fn zlib_sync_output(chunks: Seq<Seq<u8>>) -> Seq<u8>;

/// Relies on `flate2::write::ZlibEncoder::new`: a new zlib stream (window
/// bits 15, level 5) writing into an empty vector; it has consumed nothing.
#[verifier::external_body]
fn new_encoder() -> (r: ZlibWriter)
    ensures
        zlib_fed(r) == Seq::<Seq<u8>>::empty(),
{
    ZlibWriter { inner: ZlibEncoder::new(Vec::new(), flate2::Compression::new(5)) }
}

/// Relies on `ZlibEncoder`'s `Write::write_all` and `Write::flush`: the input
/// is consumed, the flush emits a sync-flush point, and all compressed output
/// then sits in the inner vector (`get_mut`), which is taken out. Writing into
/// a vector cannot fail, and the compressor reports no error on a stream it
/// set up itself, so the result is always `Some`.
#[verifier::external_body]
fn write_and_sync(e: &mut ZlibWriter, input: &[u8]) -> (r: Option<Vec<u8>>)
    ensures
        r is Some,
        r matches Some(out) ==> zlib_fed(*final(e)) == zlib_fed(*old(e)).push(input@) && out@
            == zlib_sync_output(zlib_fed(*final(e))),
{
    match e.inner.write_all(input).and_then(|_| e.inner.flush()) {
        Ok(()) => Some(std::mem::take(e.inner.get_mut())),
        Err(_) => None,
    }
}

/// Why a rectangle could not be sent compressed: the output does not fit
/// the rectangle's 32-bit length. The stream has consumed the input all the
/// same, so the peer's inflater can no longer follow and the session must
/// end.
#[derive(Clone, Copy, Debug, PartialEq, Eq)]
pub enum DeflateError {
    TooLarge,
}

/// One persistent deflate context, created on first use.
pub struct ZStream {
    encoder: Option<ZlibWriter>,
}

impl ZStream {
    /// The chunks this stream has compressed, in order.
    pub closed spec fn history(self) -> Seq<Seq<u8>> {
        match self.encoder {
            Some(e) => zlib_fed(e),
            None => Seq::empty(),
        }
    }

    pub closed spec fn initialized(self) -> bool {
        self.encoder is Some
    }

    /// A stream that has not been initialised yet.
    pub fn new() -> (r: ZStream)
        ensures
            r.history() == Seq::<Seq<u8>>::empty(),
            !r.initialized(),
    {
        ZStream { encoder: None }
    }

    /// Compresses `input` as the next chunk of this stream, initialising it on
    /// first use.
    pub fn deflate(&mut self, input: &Vec<u8>) -> (r: Vec<u8>)
        ensures
            final(self).initialized(),
            final(self).history() == old(self).history().push(input@),
            r@ == zlib_sync_output(final(self).history()),
    {
        let mut encoder = match self.encoder.take() {
            Some(e) => e,
            None => new_encoder(),
        };
        let written = write_and_sync(&mut encoder, input.as_slice());
        self.encoder = Some(encoder);
        match written {
            Some(out) => out,
            // Not reached: `write_and_sync` always returns `Some`.
            None => Vec::new(),
        }
    }

    /// Releases the context; the stream starts over on its next use.
    pub fn flush(&mut self)
        ensures
            !final(self).initialized(),
            final(self).history() == Seq::<Seq<u8>>::empty(),
    {
        self.encoder = None;
    }
}

/// The zlib streams of one viewer session, one per zlib-based encoding.
pub struct SpifySession {
    pub zlib_stream: ZStream,
    pub zrle_stream: ZStream,
}

impl SpifySession {
    pub fn new() -> (r: SpifySession)
        ensures
            r.zlib_stream.history() == Seq::<Seq<u8>>::empty(),
            r.zrle_stream.history() == Seq::<Seq<u8>>::empty(),
    {
        SpifySession { zlib_stream: ZStream::new(), zrle_stream: ZStream::new() }
    }

    /// Drops both streams, as when the viewer disconnects.
    pub fn destroy(&mut self)
        ensures
            !final(self).zlib_stream.initialized(),
            !final(self).zrle_stream.initialized(),
    {
        self.zlib_stream.flush();
        self.zrle_stream.flush();
    }
}

/// Nothing handed to a stream is lost, repeated or reordered: if `states`
/// are a stream's states from `ZStream::new` on, each reached from the one
/// before by `deflate` of `chunks[i]`, the last state's history
/// is exactly `chunks`, so what the peer inflates is their concatenation.
pub proof fn lemma_stream_keeps_every_chunk(states: Seq<ZStream>, chunks: Seq<Seq<u8>>)
    requires
        states.len() == chunks.len() + 1,
        states[0].history() == Seq::<Seq<u8>>::empty(),
        forall|i: int| 0 <= i < chunks.len() ==> #[trigger] states[i + 1].history() == states[i].history().push(chunks[i]),
    ensures
        states[chunks.len() as int].history() == chunks,
        states[chunks.len() as int].history().flatten() == chunks.flatten(),
    decreases chunks.len(),
{
    if chunks.len() > 0 {
        let n = chunks.len() - 1;
        let prefix = states.subrange(0, n + 1);
        assert forall|i: int| 0 <= i < n implies #[trigger] prefix[i + 1].history() == prefix[i].history().push(
            chunks.subrange(0, n)[i],
        ) by {
            assert(states[i + 1].history() == states[i].history().push(chunks[i]));
        }
        lemma_stream_keeps_every_chunk(prefix, chunks.subrange(0, n));
        assert(prefix[n] == states[n]);
        assert(chunks.subrange(0, n).push(chunks[n]) =~= chunks);
        assert(states[n + 1].history() == states[n].history().push(chunks[n]));
    } else {
        assert(chunks =~= Seq::<Seq<u8>>::empty());
    }
}

} // verus!
