//! The streaming decoder: one sample at a time, with fixed-size buffers and no allocation.
use vstd::prelude::*;
use crate::lms::{Lms, lms_at};
use crate::qoa::{
    QoaError,
    be_u24,
    be_u32,
    slice_word,
    has_magic,
    total_samples,
    first_rate,
    scale_of,
    decode_prefix,
    decode_slice,
    frames_from,
    frame_tail,
    header_ok,
    first_frame_error,
    stream,
    samples,
    stream_error,
    dequantize,
    lemma_decode_prefix_len,
};

verus! {

/// Reads the big-endian unsigned 32-bit integer at `d[i]`.
fn read_u32_be(d: &[u8], i: usize) -> (r: u32)
    requires
        i + 4 <= d@.len(),
    ensures
        r as int == be_u32(d@, i as int),
{
    (d[i] as u32) * 16777216 + (d[i + 1] as u32) * 65536 + (d[i + 2] as u32) * 256 + d[i
        + 3] as u32
}

/// Reads the 64-bit slice word stored big-endian at `d[i]`.
fn read_u64_be(d: &[u8], i: usize) -> (r: u64)
    requires
        i + 8 <= d@.len(),
    ensures
        r as int == slice_word(d@, i as int),
{
    let len = d.len();
    let hi = read_u32_be(d, i);
    let lo = read_u32_be(d, i + 4);
    (hi as u64) * 4294967296 + lo as u64
}

proof fn lemma_slice_fields(w: u64, shift: u64)
    by (bit_vector)
    ensures
        w >> 60u64 <= 15u64,
        (w >> shift) & 7u64 <= 7u64,
{
}

/// Decodes the 20 samples of the slice word `w`, advancing the predictor through them.
fn decode_slice_samples(lms: &mut Lms, w: u64) -> (r: [i16; 20])
    ensures
        r@ == decode_slice(old(lms)@, w).0,
        final(lms)@ == decode_slice(old(lms)@, w).1,
{
    let ghost l0 = lms@;
    proof {
        lemma_slice_fields(w, 0);
    }
    let sf: u8 = (w >> 60) as u8;
    let mut decoded: [i16; 20] = [0; 20];
    let mut i: usize = 0;
    while i < 20
        invariant
            0 <= i <= 20,
            sf as int == scale_of(w),
            decoded@.take(i as int) == decode_prefix(l0, w, i as nat).0,
            lms@ == decode_prefix(l0, w, i as nat).1,
        decreases 20 - i,
    {
        let shift: u64 = 57 - 3 * (i as u64);
        proof {
            lemma_slice_fields(w, shift);
            lemma_decode_prefix_len(l0, w, i as nat);
        }
        let q: u8 = ((w >> shift) & 7) as u8;
        let r = dequantize(sf, q);
        let p = lms.predict();
        let t: i32 = p + r;
        let s: i16 = if t < -32768 {
            -32768
        } else if t > 32767 {
            32767
        } else {
            t as i16
        };
        let ghost before = decoded@;
        decoded[i] = s;
        lms.update(s, r);
        proof {
            assert(decoded@.take(i as int) =~= before.take(i as int));
            assert(decoded@.take(i + 1) =~= decoded@.take(i as int).push(s));
        }
        i = i + 1;
    }
    assert(decoded@ =~= decoded@.take(20));
    decoded
}

/// A decoder for a mono QOA file held in memory. It reads the file header, then frame headers,
/// and decodes one slice of 20 samples at a time.
pub struct QoaDecoder<'a> {
    data: &'a [u8],
    /// Offset of the next unread byte.
    pos: usize,
    /// Samples per channel declared by the file header.
    total_samples: u32,
    /// Samples returned so far.
    samples_read: u32,
    /// Sample rate of the first frame.
    sample_rate: u32,
    /// Samples of the current frame not yet decoded into the slice buffer.
    frame_samples_remaining: u32,
    slices_in_frame: u32,
    current_slice_index: u32,
    slice_buffer: [i16; 20],
    /// Next sample to return from the slice buffer.
    slice_buffer_index: usize,
    /// Number of valid samples in the slice buffer.
    slice_buffer_len: usize,
    lms: Lms,
}

impl<'a> QoaDecoder<'a> {
    /// The bytes being decoded.
    pub closed spec fn bytes(&self) -> Seq<u8> {
        self.data@
    }

    /// How many samples have been returned.
    pub closed spec fn produced(&self) -> nat {
        self.samples_read as nat
    }

    /// The samples that repeated calls of `next_sample` return from now on.
    pub open spec fn upcoming(&self) -> Seq<i16> {
        samples(self.bytes()).skip(self.produced() as int)
    }

    /// The counters agree with each other and with the buffer.
    spec fn cursor_ok(&self) -> bool {
        &&& self.pos <= self.data@.len()
        &&& self.slice_buffer_index <= self.slice_buffer_len <= 20
        &&& self.current_slice_index <= self.slices_in_frame
        &&& (self.slices_in_frame - self.current_slice_index) * 20 >= self.frame_samples_remaining
        &&& self.frame_samples_remaining + 20 > (self.slices_in_frame - self.current_slice_index)
            * 20
    }

    /// What is still to come from the cursor: the rest of the slice buffer, then the rest of
    /// the file.
    spec fn pending(&self) -> (Seq<i16>, QoaError) {
        let t = frame_tail(
            self.data@,
            self.pos as int,
            self.lms@,
            self.frame_samples_remaining as int,
            self.sample_rate as int,
        );
        (
            self.slice_buffer@.subrange(
                self.slice_buffer_index as int,
                self.slice_buffer_len as int,
            ) + t.0,
            t.1,
        )
    }

    /// The decoder is at the place in its file that its count of returned samples says.
    pub closed spec fn wf(&self) -> bool {
        let d = self.data@;
        &&& header_ok(d)
        &&& first_frame_error(d) is None
        &&& self.total_samples == total_samples(d)
        &&& self.sample_rate == first_rate(d)
        &&& self.cursor_ok()
        &&& self.samples_read <= self.total_samples
        &&& self.samples_read <= stream(d).0.len()
        &&& self.pending().0 == stream(d).0.skip(self.samples_read as int)
        &&& self.pending().1 == stream(d).1
    }

    /// Opens a file: checks the file header and loads the first frame.
    pub fn new(data: &'a [u8]) -> (r: Result<QoaDecoder<'a>, QoaError>)
        ensures
            data@.len() < 8 ==> r matches Err(QoaError::UnexpectedEof),
            data@.len() >= 8 && !has_magic(data@) ==> r matches Err(QoaError::InvalidFormat(_)),
            header_ok(data@) ==> match first_frame_error(data@) {
                Some(e) => r == Err::<QoaDecoder<'a>, QoaError>(e),
                None => r is Ok && r->Ok_0.wf() && r->Ok_0.bytes() == data@ && r->Ok_0.produced()
                    == 0,
            },
    {
        if data.len() < 8 {
            return Err(QoaError::UnexpectedEof);
        }
        if !(data[0] == 0x71 && data[1] == 0x6f && data[2] == 0x61 && data[3] == 0x66) {
            return Err(QoaError::InvalidFormat("Invalid magic header"));
        }
        let total_samples = read_u32_be(data, 4);
        let sample_rate: u32 = if data.len() >= 12 {
            (data[9] as u32) * 65536 + (data[10] as u32) * 256 + data[11] as u32
        } else {
            0
        };
        let mut decoder = QoaDecoder {
            data,
            pos: 8,
            total_samples,
            samples_read: 0,
            sample_rate,
            frame_samples_remaining: 0,
            slices_in_frame: 0,
            current_slice_index: 0,
            slice_buffer: [0; 20],
            slice_buffer_index: 0,
            slice_buffer_len: 0,
            lms: Lms::new(),
        };
        let ghost d = data@;
        proof {
            assert(decoder.pending().0 =~= frames_from(d, 8, sample_rate as int).0);
        }
        match decoder.load_next_frame() {
            Ok(()) => {
                proof {
                    assert(stream(d).0.skip(0) =~= stream(d).0);
                }
                Ok(decoder)
            },
            Err(e) => Err(e),
        }
    }

    /// The sample rate of the file, from its first frame.
    pub fn sample_rate(&self) -> (r: u32)
        requires
            self.wf(),
        ensures
            r as int == first_rate(self.bytes()),
    {
        self.sample_rate
    }

    /// Loads the frame that starts at the cursor: its header and its predictor state.
    fn load_next_frame(&mut self) -> (r: Result<(), QoaError>)
        requires
            old(self).cursor_ok(),
            old(self).slice_buffer_index == old(self).slice_buffer_len,
            old(self).frame_samples_remaining == 0,
        ensures
            r is Ok <==> {
                let d = old(self).data@;
                let p = old(self).pos as int;
                &&& p + 24 <= d.len()
                &&& d[p] == 1
                &&& be_u24(d, p + 1) == old(self).sample_rate
            },
            r is Ok ==> {
                &&& final(self).cursor_ok()
                &&& final(self).pending() == old(self).pending()
                &&& final(self).pos == old(self).pos + 24
                &&& final(self).data == old(self).data
                &&& final(self).sample_rate == old(self).sample_rate
                &&& final(self).total_samples == old(self).total_samples
                &&& final(self).samples_read == old(self).samples_read
            },
            r matches Err(e) ==> *final(self) == *old(self) && old(self).pending() == (
                Seq::<i16>::empty(),
                e,
            ),
    {
        let ghost d = self.data@;
        let ghost old_pending = self.pending();
        proof {
            assert(old_pending.0 =~= frames_from(d, self.pos as int, self.sample_rate as int).0);
        }
        if self.data.len() - self.pos < 8 {
            return Err(QoaError::UnexpectedEof);
        }
        let p = self.pos;
        if self.data[p] != 1 {
            return Err(QoaError::UnsupportedFormat);
        }
        let rate: u32 = (self.data[p + 1] as u32) * 65536 + (self.data[p + 2] as u32) * 256
            + self.data[p + 3] as u32;
        if rate != self.sample_rate {
            return Err(QoaError::UnsupportedFormat);
        }
        if self.data.len() - p < 24 {
            return Err(QoaError::UnexpectedEof);
        }
        let fsamples: u32 = (self.data[p + 4] as u32) * 256 + self.data[p + 5] as u32;
        self.lms = Lms::from_bytes(&self.data[p + 8..p + 24]);
        self.pos = p + 24;
        self.slices_in_frame = (fsamples + 19) / 20;
        self.current_slice_index = 0;
        self.slice_buffer_index = 0;
        self.slice_buffer_len = 0;
        self.frame_samples_remaining = fsamples;
        proof {
            assert(self.lms@ == lms_at(d, p + 8)) by {
                assert(self.lms@.history =~= lms_at(d, p + 8).history);
                assert(self.lms@.weights =~= lms_at(d, p + 8).weights);
            }
            assert(self.pending().0 =~= old_pending.0);
        }
        Ok(())
    }

    /// Decodes the next slice of the current frame into the slice buffer.
    fn decode_next_slice(&mut self)
        requires
            old(self).cursor_ok(),
            old(self).slice_buffer_index == old(self).slice_buffer_len,
            old(self).frame_samples_remaining > 0,
            old(self).pos + 8 <= old(self).data@.len(),
        ensures
            final(self).cursor_ok(),
            final(self).pending() == old(self).pending(),
            final(self).pos == old(self).pos + 8,
            final(self).slice_buffer_index < final(self).slice_buffer_len,
            final(self).data == old(self).data,
            final(self).sample_rate == old(self).sample_rate,
            final(self).total_samples == old(self).total_samples,
            final(self).samples_read == old(self).samples_read,
    {
        let ghost old_pending = self.pending();
        let ghost l0 = self.lms@;
        let len = self.data.len();
        let w = read_u64_be(self.data, self.pos);
        let decoded = decode_slice_samples(&mut self.lms, w);
        let k: u32 = if self.frame_samples_remaining < 20 {
            self.frame_samples_remaining
        } else {
            20
        };
        self.slice_buffer = decoded;
        self.slice_buffer_index = 0;
        self.slice_buffer_len = k as usize;
        self.frame_samples_remaining = self.frame_samples_remaining - k;
        self.pos = self.pos + 8;
        self.current_slice_index = self.current_slice_index + 1;
        proof {
            lemma_decode_prefix_len(l0, w, 20);
            assert(self.pending().0 =~= old_pending.0);
        }
    }

    /// Returns the next sample, `Ok(None)` once the declared number of samples has been
    /// returned, or the fault that keeps the next sample from being decoded.
    pub fn try_next_sample(&mut self) -> (r: Result<Option<i16>, QoaError>)
        requires
            old(self).wf(),
        ensures
            final(self).wf(),
            final(self).bytes() == old(self).bytes(),
            ({
                let d = old(self).bytes();
                let n = old(self).produced();
                if n < samples(d).len() {
                    &&& r == Ok::<Option<i16>, QoaError>(Some(samples(d)[n as int]))
                    &&& final(self).produced() == n + 1
                } else {
                    &&& final(self).produced() == n
                    &&& r == match stream_error(d) {
                        None => Ok::<Option<i16>, QoaError>(None),
                        Some(e) => Err(e),
                    }
                }
            }),
    {
        let ghost d = self.data@;
        let ghost n = self.samples_read as int;
        if self.samples_read >= self.total_samples {
            return Ok(None);
        }
        loop
            invariant
                self.wf(),
                self.data@ == d,
                self.samples_read == n,
                d == old(self).data@,
                n == old(self).samples_read,
                n < total_samples(d),
            ensures
                self.wf(),
                self.data@ == d,
                self.samples_read == n,
                self.slice_buffer_index < self.slice_buffer_len,
            decreases self.data@.len() - self.pos,
        {
            if self.slice_buffer_index < self.slice_buffer_len {
                break;
            }
            if self.current_slice_index < self.slices_in_frame {
                if self.data.len() - self.pos < 8 {
                    return Err(QoaError::UnexpectedEof);
                }
                self.decode_next_slice();
            } else {
                match self.load_next_frame() {
                    Ok(()) => {},
                    Err(e) => {
                        return Err(e);
                    },
                }
            }
        }
        let s = self.slice_buffer[self.slice_buffer_index];
        let ghost before = self.pending().0;
        self.slice_buffer_index = self.slice_buffer_index + 1;
        self.samples_read = self.samples_read + 1;
        proof {
            assert(before[0] == s);
            assert(self.pending().0 =~= before.skip(1));
            assert(stream(d).0.skip(n + 1) =~= stream(d).0.skip(n).skip(1));
        }
        Ok(Some(s))
    }

    /// Returns the next sample, or `None` once the file yields no more; a fault in the middle
    /// of the file ends it like its end does.
    pub fn next_sample(&mut self) -> (r: Option<i16>)
        requires
            old(self).wf(),
        ensures
            final(self).wf(),
            final(self).bytes() == old(self).bytes(),
            ({
                let d = old(self).bytes();
                let n = old(self).produced();
                if n < samples(d).len() {
                    &&& r == Some(samples(d)[n as int])
                    &&& final(self).produced() == n + 1
                } else {
                    &&& r is None
                    &&& final(self).produced() == n
                }
            }),
    {
        match self.try_next_sample() {
            Ok(s) => s,
            Err(_) => None,
        }
    }

    /// Starts over from the first sample of the same bytes.
    pub fn reset(&mut self)
        requires
            old(self).wf(),
        ensures
            final(self).wf(),
            final(self).bytes() == old(self).bytes(),
            final(self).produced() == 0,
    {
        match QoaDecoder::new(self.data) {
            Ok(fresh) => {
                *self = fresh;
            },
            Err(_) => {},
        }
    }
}

/// A decoder never returns more samples than its file header declares.
pub proof fn lemma_produced_within_total(d: &QoaDecoder)
    requires
        d.wf(),
    ensures
        d.produced() <= total_samples(d.bytes()),
        d.produced() <= samples(d.bytes()).len(),
{
}

/// Decoding depends on the bytes alone: two decoders opened on the same bytes return the same
/// samples in the same order, namely all samples of the file, and stop at the same point.
pub proof fn lemma_same_bytes_same_samples(a: &QoaDecoder, b: &QoaDecoder)
    requires
        a.wf(),
        b.wf(),
        a.bytes() == b.bytes(),
        a.produced() == 0,
        b.produced() == 0,
    ensures
        a.upcoming() == samples(a.bytes()),
        b.upcoming() == a.upcoming(),
{
    assert(samples(a.bytes()).skip(0) =~= samples(a.bytes()));
}

/// A decoder that was reset after returning some samples returns the whole file again from
/// its first sample; what it still had to return before the reset is the tail of that.
pub proof fn lemma_reset_restarts(before: &QoaDecoder, after: &QoaDecoder)
    requires
        before.wf(),
        after.wf(),
        after.bytes() == before.bytes(),
        after.produced() == 0,
    ensures
        after.upcoming() == samples(before.bytes()),
        before.upcoming() == after.upcoming().skip(before.produced() as int),
{
    assert(samples(before.bytes()).skip(0) =~= samples(before.bytes()));
}

} // verus!
