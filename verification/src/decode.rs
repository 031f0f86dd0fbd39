//! The incremental deserializer: turns a push-based supply of byte chunks
//! into a pull-based sequence of decoded batches, with explicit "need more
//! input" and "input exhausted" signalling.
//!
//! The deserializer owns a chunk decoder and a byte buffer. `digest` appends
//! bytes; `next` feeds buffered bytes to the decoder and flushes batches;
//! `finish` marks the end of input. The model tracks every byte ever
//! digested, and the well-formedness invariant pins the decoder's consumed
//! stream to a prefix of it: once the stream reports exhaustion the decoder
//! has consumed exactly the concatenation of all digested chunks, however
//! they were split.

use vstd::prelude::*;
use vstd::slice::slice_subrange;
use crate::errors::FormatError;

verus! {

/// A byte-oriented record decoder. `decode` consumes a prefix of the bytes it
/// is handed — fewer than all of them only when it cannot accept more before
/// a flush — and `flush` drains complete buffered records into a batch.
pub trait ChunkDecoder: Sized {
    /// The batches this decoder produces.
    type Batch;

    /// All bytes this decoder has consumed so far, oldest first.
    spec fn consumed(&self) -> Seq<u8>;

    /// Whether this decoder's configuration accepts a byte stream, read from
    /// a clean start: complete records, none left unfinished at the end,
    /// every value fitting the decoder's schema. Decoding and flushing an
    /// accepted stream never fails.
    spec fn accepts(&self, s: Seq<u8>) -> bool;

    /// Whether `records_in` describes this decoder's row accounting. A
    /// decoder configured to split single input values into several rows
    /// counts otherwise.
    spec fn conserves_records(&self) -> bool;

    /// How many complete records a byte stream holds, read from a clean
    /// start, in this decoder's format.
    spec fn records_in(s: Seq<u8>) -> nat;

    /// How many complete records the decoder holds, parsed but not yet
    /// flushed.
    spec fn pending_rows(&self) -> nat;

    /// The rows a batch of this decoder carries.
    spec fn batch_rows(b: &Self::Batch) -> nat;

    /// How many records the decoder buffers before it refuses further bytes.
    spec fn batch_capacity(&self) -> nat;

    /// Whether `flush` may yield a batch speculatively, before end of input
    /// and before the decoder has refused bytes.
    spec fn flushes_early(&self) -> bool;

    /// The decoder's early-flush capability.
    fn can_flush_early(&self) -> (r: bool)
        ensures
            r == self.flushes_early(),
    ;

    /// Consumes a prefix of `buf`, returning how many bytes were taken:
    /// fewer than all of them only once a full batch of records is pending,
    /// at a record boundary. Every record completed by the consumed bytes is
    /// added to the pending records, none lost, and decoding within an
    /// accepted stream never fails.
    fn decode(&mut self, buf: &[u8]) -> (r: Result<usize, FormatError>)
        ensures
            r matches Ok(n) ==> n <= buf@.len() && final(self).consumed() == old(self).consumed()
                + buf@.take(n as int),
            r matches Ok(n) ==> final(self).pending_rows() >= old(self).pending_rows(),
            r matches Ok(n) && old(self).conserves_records() ==> Self::records_in(
                final(self).consumed(),
            ) + old(self).pending_rows() == Self::records_in(old(self).consumed()) + final(self).pending_rows(),
            r matches Ok(n) && n < buf@.len() ==> final(self).pending_rows() >= old(self).batch_capacity(),
            old(self).accepts(old(self).consumed() + buf@) ==> r is Ok,
            r matches Ok(n) && n < buf@.len() && old(self).conserves_records() && old(self).accepts(
                old(self).consumed() + buf@,
            ) ==> final(self).accepts(final(self).consumed()),
            r is Ok ==> forall|s: Seq<u8>| final(self).accepts(s) == old(self).accepts(s),
            r is Ok ==> final(self).batch_capacity() == old(self).batch_capacity(),
            r is Ok ==> final(self).conserves_records() == old(self).conserves_records(),
    ;

    /// Drains the pending complete records into a batch: `None` exactly when
    /// none are pending (not an error), a batch carrying all of them — and
    /// leaving none behind — otherwise. Never touches the consumed byte
    /// stream, and never fails when what was consumed is an accepted stream.
    fn flush(&mut self) -> (r: Result<Option<Self::Batch>, FormatError>)
        ensures
            r is Ok ==> final(self).consumed() == old(self).consumed(),
            r matches Ok(o) ==> (o is None <==> old(self).pending_rows() == 0),
            r matches Ok(o) && o is None ==> final(self).pending_rows() == old(self).pending_rows(),
            r matches Ok(Some(b)) ==> Self::batch_rows(&b) == old(self).pending_rows()
                && final(self).pending_rows() == 0,
            old(self).accepts(old(self).consumed()) ==> r is Ok,
            r is Ok ==> forall|s: Seq<u8>| final(self).accepts(s) == old(self).accepts(s),
            r is Ok ==> final(self).batch_capacity() == old(self).batch_capacity(),
            r is Ok ==> final(self).conserves_records() == old(self).conserves_records(),
    ;
}

/// One step of the pull protocol.
#[derive(Debug, PartialEq)]
pub enum DeserializerOutput<B> {
    /// A decoded batch.
    RecordBatch(B),
    /// No batch is available and the input so far is not enough: the caller
    /// must `digest` more bytes (or `finish`) before pulling again. Not an
    /// error.
    RequiresMoreData,
    /// All digested bytes are consumed and `finish` was called; every later
    /// pull reports the same.
    InputExhausted,
}

/// The incremental deserializer over a chunk decoder.
pub struct DecoderDeserializer<D: ChunkDecoder> {
    decoder: D,
    buffer: Vec<u8>,
    offset: usize,
    finished: bool,
    exhausted: bool,
    failed: Option<FormatError>,
    base: Ghost<Seq<u8>>,
    emitted: Ghost<int>,
    base_rows: Ghost<int>,
}

impl<D: ChunkDecoder> DecoderDeserializer<D> {
    /// The concatenation of every byte ever digested, in digest order.
    pub closed spec fn digested(&self) -> Seq<u8> {
        self.buffer@
    }

    /// How many digested bytes the decoder has consumed so far.
    pub closed spec fn bytes_decoded(&self) -> int {
        self.offset as int
    }

    /// Whether `finish` has been called.
    pub closed spec fn is_finished(&self) -> bool {
        self.finished
    }

    /// Whether `next` has reported `InputExhausted`: the terminal success
    /// state.
    pub closed spec fn is_exhausted(&self) -> bool {
        self.exhausted
    }

    /// The sticky decode failure, if any: the terminal error state.
    pub closed spec fn error(&self) -> Option<FormatError> {
        self.failed
    }

    /// What the decoder had already consumed when this deserializer took it
    /// over.
    pub closed spec fn start_consumed(&self) -> Seq<u8> {
        self.base@
    }

    /// The decoder's consumed byte stream.
    pub closed spec fn decoder_consumed(&self) -> Seq<u8> {
        self.decoder.consumed()
    }

    /// How many records the stream has emitted so far, summed over the rows
    /// of every batch `next` has returned.
    pub closed spec fn rows_emitted(&self) -> int {
        self.emitted@
    }

    /// The records already accounted to the decoder when this deserializer
    /// took it over: the complete records of its starting stream, less what
    /// it still held pending. Zero for a fresh decoder.
    pub closed spec fn start_rows(&self) -> int {
        self.base_rows@
    }

    /// Whether the decoder's configuration accepts everything digested so
    /// far, read as one stream from the decoder's starting point: decoding
    /// such input never fails.
    pub closed spec fn accepts_input(&self) -> bool {
        self.decoder.accepts(self.base@ + self.buffer@)
    }

    /// The decoder's batch capacity: how many records it buffers before it
    /// refuses further bytes.
    pub closed spec fn capacity(&self) -> nat {
        self.decoder.batch_capacity()
    }

    /// Whether the decoder's row accounting is the one `records_in`
    /// describes.
    pub closed spec fn conserves(&self) -> bool {
        self.decoder.conserves_records()
    }

    /// Well-formed: while no decode error has struck, the decoder has
    /// consumed exactly the first `bytes_decoded()` digested bytes, and — for
    /// a decoder whose row accounting `records_in` describes — no record is
    /// dropped or duplicated: the rows emitted plus the rows still pending in
    /// the decoder account for every complete record of the consumed stream.
    /// The exhausted state is only reached after `finish`, with every
    /// digested byte consumed and no record left pending.
    pub closed spec fn wf(&self) -> bool {
        &&& self.offset as int <= self.buffer@.len()
        &&& (self.failed is None ==> self.decoder.consumed() == self.base@ + self.buffer@.take(
            self.offset as int,
        ))
        &&& (self.failed is None && self.decoder.conserves_records() ==> self.emitted@
            + self.decoder.pending_rows() + self.base_rows@ == D::records_in(
            self.decoder.consumed(),
        ))
        &&& (self.exhausted ==> self.finished && self.offset as int == self.buffer@.len()
            && self.failed is None && self.decoder.pending_rows() == 0)
    }

    /// Takes ownership of a chunk decoder and starts an empty stream.
    pub fn new(decoder: D) -> (r: Self)
        ensures
            r.wf(),
            r.digested() == Seq::<u8>::empty(),
            !r.is_finished(),
            !r.is_exhausted(),
            r.error() is None,
            r.start_consumed() == decoder.consumed(),
            r.decoder_consumed() == decoder.consumed(),
            r.rows_emitted() == 0,
            r.start_rows() == D::records_in(decoder.consumed()) - decoder.pending_rows(),
    {
        let ghost base = decoder.consumed();
        let ghost base_rows = D::records_in(decoder.consumed()) - decoder.pending_rows() as int;
        let r = DecoderDeserializer {
            decoder,
            buffer: Vec::new(),
            offset: 0,
            finished: false,
            exhausted: false,
            failed: None,
            base: Ghost(base),
            emitted: Ghost(0),
            base_rows: Ghost(base_rows),
        };
        proof {
            assert(r.buffer@.take(0) =~= Seq::<u8>::empty());
            assert(base + Seq::<u8>::empty() =~= base);
        }
        r
    }

    /// Appends one chunk to the internal buffer; nothing is decoded until
    /// `next` pulls. Returns how many bytes were accepted: always all.
    pub fn digest(&mut self, bytes: &[u8]) -> (r: usize)
        requires
            old(self).wf(),
            !old(self).is_finished(),
        ensures
            final(self).wf(),
            r == bytes@.len(),
            final(self).digested() == old(self).digested() + bytes@,
            final(self).bytes_decoded() == old(self).bytes_decoded(),
            final(self).is_finished() == old(self).is_finished(),
            final(self).is_exhausted() == old(self).is_exhausted(),
            final(self).error() == old(self).error(),
            final(self).start_consumed() == old(self).start_consumed(),
            final(self).decoder_consumed() == old(self).decoder_consumed(),
            final(self).rows_emitted() == old(self).rows_emitted(),
            final(self).start_rows() == old(self).start_rows(),
    {
        self.buffer.extend_from_slice(bytes);
        proof {
            assert(self.buffer@.take(self.offset as int) =~= old(self).buffer@.take(
                self.offset as int,
            ));
        }
        bytes.len()
    }

    /// Marks that no further bytes will be supplied: `next` will drain what
    /// is buffered and then report exhaustion.
    pub fn finish(&mut self)
        requires
            old(self).wf(),
        ensures
            final(self).wf(),
            final(self).is_finished(),
            final(self).digested() == old(self).digested(),
            final(self).bytes_decoded() == old(self).bytes_decoded(),
            final(self).is_exhausted() == old(self).is_exhausted(),
            final(self).error() == old(self).error(),
            final(self).start_consumed() == old(self).start_consumed(),
            final(self).decoder_consumed() == old(self).decoder_consumed(),
            final(self).rows_emitted() == old(self).rows_emitted(),
            final(self).start_rows() == old(self).start_rows(),
    {
        self.finished = true;
    }

    /// Pulls once: feeds the decoder as many buffered bytes as it will take,
    /// then flushes — a batch if one is complete; otherwise a request for
    /// more input while `finish` has not been called, and exhaustion once it
    /// has and everything digested was consumed.
    ///
    /// Exhaustion is reported only after `finish`, is sticky, and certifies
    /// that the decoder consumed exactly the concatenation of all digested
    /// chunks. A decode failure is likewise sticky: every later pull
    /// re-raises the same error.
    #[verifier::loop_isolation(false)]
    pub fn next(&mut self) -> (r: Result<DeserializerOutput<D::Batch>, FormatError>)
        requires
            old(self).wf(),
        ensures
            final(self).wf(),
            final(self).digested() == old(self).digested(),
            final(self).is_finished() == old(self).is_finished(),
            final(self).start_consumed() == old(self).start_consumed(),
            final(self).bytes_decoded() >= old(self).bytes_decoded(),
            old(self).error() matches Some(e) ==> r == Err::<DeserializerOutput<D::Batch>,
                FormatError,
            >(e) && *final(self) == *old(self),
            r matches Err(e) ==> final(self).error() == Some(e),
            r is Ok ==> final(self).error() is None && old(self).error() is None,
            old(self).is_exhausted() ==> *final(self) == *old(self),
            final(self).is_exhausted() <==> r == Ok::<DeserializerOutput<D::Batch>, FormatError>(
                DeserializerOutput::InputExhausted,
            ),
            r == Ok::<DeserializerOutput<D::Batch>, FormatError>(
                DeserializerOutput::InputExhausted,
            ) ==> old(self).is_finished() && final(self).decoder_consumed()
                == final(self).start_consumed() + final(self).digested(),
            old(self).error() is None && !old(self).is_finished() && old(self).digested().len()
                == 0 ==> r == Ok::<DeserializerOutput<D::Batch>, FormatError>(
                DeserializerOutput::RequiresMoreData,
            ),
            old(self).error() is None && old(self).is_finished() && old(self).bytes_decoded()
                == old(self).digested().len() ==> !(r matches Ok(o) && o is RequiresMoreData),
            final(self).start_rows() == old(self).start_rows(),
            r matches Ok(DeserializerOutput::RecordBatch(b)) ==> D::batch_rows(&b) > 0
                && final(self).rows_emitted() == old(self).rows_emitted() + D::batch_rows(&b),
            r matches Ok(o) && !(o is RecordBatch) ==> final(self).rows_emitted() == old(self).rows_emitted(),
            r is Err ==> final(self).rows_emitted() == old(self).rows_emitted(),
            r == Ok::<DeserializerOutput<D::Batch>, FormatError>(
                DeserializerOutput::InputExhausted,
            ) && final(self).conserves() ==> final(self).rows_emitted() + final(self).start_rows()
                == D::records_in(final(self).start_consumed() + final(self).digested()),
            r is Ok ==> final(self).capacity() == old(self).capacity() && final(self).conserves()
                == old(self).conserves() && final(self).accepts_input() == old(self).accepts_input(),
            old(self).error() is None && old(self).is_finished() && old(self).conserves() && old(self).capacity() > 0 && old(self).accepts_input() ==> r is Ok && !(r->Ok_0
                is RequiresMoreData),
    {
        if let Some(e) = self.failed {
            return Err(e);
        }
        if self.exhausted {
            proof {
                assert(self.buffer@.take(self.buffer@.len() as int) =~= self.buffer@);
            }
            return Ok(DeserializerOutput::InputExhausted);
        }
        if !self.finished && self.buffer.len() == 0 {
            return Ok(DeserializerOutput::RequiresMoreData);
        }
        let mut full = false;
        while self.offset < self.buffer.len() && !full
            invariant
                self.wf(),
                self.failed is None,
                !self.exhausted,
                self.buffer@ == old(self).buffer@,
                self.finished == old(self).finished,
                self.base@ == old(self).base@,
                self.emitted == old(self).emitted,
                self.base_rows == old(self).base_rows,
                self.offset >= old(self).offset,
                forall|s: Seq<u8>| self.decoder.accepts(s) == old(self).decoder.accepts(s),
                self.decoder.batch_capacity() == old(self).decoder.batch_capacity(),
                self.decoder.conserves_records() == old(self).decoder.conserves_records(),
                full ==> self.decoder.pending_rows() >= self.decoder.batch_capacity(),
                full && self.decoder.accepts(self.base@ + self.buffer@)
                    && self.decoder.conserves_records() ==> self.decoder.accepts(
                    self.decoder.consumed(),
                ),
            decreases self.buffer@.len() - self.offset, (if full {
                0int
            } else {
                1int
            }),
        {
            let chunk = slice_subrange(self.buffer.as_slice(), self.offset, self.buffer.len());
            let ghost pre = self.decoder.consumed();
            let ghost pre_offset = self.offset as int;
            proof {
                assert(pre + chunk@ =~= self.base@ + self.buffer@);
            }
            match self.decoder.decode(chunk) {
                Ok(n) => {
                    proof {
                        assert(pre + chunk@.take(n as int) =~= self.base@ + self.buffer@.take(
                            pre_offset + n as int,
                        ));
                    }
                    self.offset = self.offset + n;
                    if n == 0 {
                        full = true;
                    }
                },
                Err(e) => {
                    proof {
                        assert(!old(self).accepts_input());
                    }
                    self.failed = Some(e);
                    return Err(e);
                },
            }
        }
        proof {
            if !full {
                assert(self.base@ + self.buffer@.take(self.offset as int) =~= self.base@
                    + self.buffer@);
            }
        }
        let do_flush = self.finished || full || self.decoder.can_flush_early();
        if !do_flush {
            return Ok(DeserializerOutput::RequiresMoreData);
        }
        match self.decoder.flush() {
            Err(e) => {
                proof {
                    assert(!(old(self).accepts_input() && old(self).conserves()));
                }
                self.failed = Some(e);
                Err(e)
            },
            Ok(Some(batch)) => {
                self.emitted = Ghost(self.emitted@ + D::batch_rows(&batch));
                Ok(DeserializerOutput::RecordBatch(batch))
            },
            Ok(None) => {
                if self.finished && self.offset == self.buffer.len() {
                    self.exhausted = true;
                    proof {
                        assert(self.buffer@.take(self.buffer@.len() as int) =~= self.buffer@);
                    }
                    Ok(DeserializerOutput::InputExhausted)
                } else {
                    proof {
                        assert(!(old(self).is_finished() && old(self).accepts_input() && old(self).conserves() && old(self).capacity() > 0));
                    }
                    Ok(DeserializerOutput::RequiresMoreData)
                }
            },
        }
    }
}

/// Chunk-boundary invariance of the consumed stream: two exhausted streams
/// that digested the same byte sequence — under any two chunkings — drove
/// their decoders over exactly the same bytes, so a decoder whose output is a
/// function of its consumed stream yields the same rows for both.
pub proof fn lemma_chunk_boundary_invariance<D1: ChunkDecoder, D2: ChunkDecoder>(
    a: &DecoderDeserializer<D1>,
    b: &DecoderDeserializer<D2>,
)
    requires
        a.wf(),
        b.wf(),
        a.is_exhausted(),
        b.is_exhausted(),
        a.digested() == b.digested(),
        a.start_consumed() == b.start_consumed(),
    ensures
        a.decoder_consumed() == b.decoder_consumed(),
{
    assert(a.digested().take(a.digested().len() as int) =~= a.digested());
    assert(b.digested().take(b.digested().len() as int) =~= b.digested());
}

/// Record conservation under re-chunking: two exhausted streams over the same
/// kind of decoder that digested the same byte sequence — under any two
/// chunkings — and started from the same decoder state emitted exactly the
/// records of that sequence: the same count, with none dropped or duplicated
/// by either chunking.
pub proof fn lemma_chunk_boundary_record_conservation<D: ChunkDecoder>(
    a: &DecoderDeserializer<D>,
    b: &DecoderDeserializer<D>,
)
    requires
        a.wf(),
        b.wf(),
        a.is_exhausted(),
        b.is_exhausted(),
        a.digested() == b.digested(),
        a.start_consumed() == b.start_consumed(),
        a.start_rows() == b.start_rows(),
        a.conserves(),
        b.conserves(),
    ensures
        a.rows_emitted() == b.rows_emitted(),
        a.rows_emitted() + a.start_rows() == D::records_in(a.start_consumed() + a.digested()),
{
    assert(a.digested().take(a.digested().len() as int) =~= a.digested());
    assert(b.digested().take(b.digested().len() as int) =~= b.digested());
}

} // verus!
