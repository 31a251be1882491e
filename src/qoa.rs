//! The QOA container as a mathematical object: how bytes become a sequence of samples.
//!
//! A file is an 8-byte header (`qoaf`, then the big-endian sample count), followed by frames.
//! A frame is an 8-byte header (channel count, 24-bit sample rate, 16-bit sample count,
//! 16-bit byte size), a 16-byte predictor state and 8-byte slices of 20 samples each.
use vstd::prelude::*;
use crate::lms::{LmsView, predict_spec, update_spec, lms_at};

verus! {

/// Why bytes cannot be decoded.
#[derive(Debug, Clone, Copy)]
pub enum QoaError {
    /// The file does not start with the `qoaf` tag.
    InvalidFormat(&'static str),
    /// The bytes end in the middle of a header, a predictor state or a slice, or before the
    /// declared number of samples.
    UnexpectedEof,
    /// A frame declares more than one channel, or a sample rate other than the first frame's.
    UnsupportedFormat,
}

/// The big-endian unsigned 16-bit integer at `d[i]`.
pub open spec fn be_u16(d: Seq<u8>, i: int) -> int {
    d[i] * 256 + d[i + 1]
}

/// The big-endian unsigned 24-bit integer at `d[i]`.
pub open spec fn be_u24(d: Seq<u8>, i: int) -> int {
    d[i] * 65536 + d[i + 1] * 256 + d[i + 2]
}

/// The big-endian unsigned 32-bit integer at `d[i]`.
pub open spec fn be_u32(d: Seq<u8>, i: int) -> int {
    d[i] * 16777216 + d[i + 1] * 65536 + d[i + 2] * 256 + d[i + 3]
}

/// The 64-bit slice word stored big-endian at `d[i]`.
pub open spec fn slice_word(d: Seq<u8>, i: int) -> int {
    be_u32(d, i) * 4294967296 + be_u32(d, i + 4)
}

/// Whether the file starts with the tag `qoaf`.
pub open spec fn has_magic(d: Seq<u8>) -> bool {
    d[0] == 0x71 && d[1] == 0x6f && d[2] == 0x61 && d[3] == 0x66
}

/// The number of samples that the file header declares.
pub open spec fn total_samples(d: Seq<u8>) -> int {
    be_u32(d, 4)
}

/// The sample rate of the first frame, which holds for the whole file.
pub open spec fn first_rate(d: Seq<u8>) -> int {
    be_u24(d, 9)
}

/// The scale factor of a slice: its top four bits.
pub open spec fn scale_of(w: u64) -> int {
    (w >> 60u64) as int
}

/// The 3-bit quantized residual number `k` of a slice, packed downward after the scale
/// factor.
pub open spec fn code_at(w: u64, k: int) -> int {
    ((w >> ((57 - 3 * k) as u64)) & 7u64) as int
}

/// The magnitudes of the dequantized residuals for scale factor `sf`; code `2k` gives the
/// `k`-th magnitude and code `2k + 1` its negation.
pub open spec fn dequant_row(sf: int) -> (int, int, int, int) {
    if sf == 0 {
        (1, 3, 5, 7)
    } else if sf == 1 {
        (5, 18, 32, 49)
    } else if sf == 2 {
        (16, 53, 95, 147)
    } else if sf == 3 {
        (34, 113, 203, 315)
    } else if sf == 4 {
        (63, 210, 378, 588)
    } else if sf == 5 {
        (104, 345, 621, 966)
    } else if sf == 6 {
        (158, 528, 950, 1477)
    } else if sf == 7 {
        (228, 760, 1368, 2128)
    } else if sf == 8 {
        (316, 1053, 1895, 2947)
    } else if sf == 9 {
        (422, 1405, 2529, 3934)
    } else if sf == 10 {
        (548, 1828, 3290, 5117)
    } else if sf == 11 {
        (696, 2320, 4176, 6496)
    } else if sf == 12 {
        (868, 2893, 5207, 8099)
    } else if sf == 13 {
        (1064, 3548, 6386, 9933)
    } else if sf == 14 {
        (1286, 4288, 7718, 12005)
    } else {
        (1536, 5120, 9216, 14336)
    }
}

/// The residual that code `q` stands for under scale factor `sf`.
pub open spec fn dequant(sf: int, q: int) -> int {
    let row = dequant_row(sf);
    let m = if q / 2 == 0 {
        row.0
    } else if q / 2 == 1 {
        row.1
    } else if q / 2 == 2 {
        row.2
    } else {
        row.3
    };
    if q % 2 == 0 {
        m
    } else {
        -m
    }
}

/// `x` limited to the signed 16-bit range.
pub open spec fn clamp_i16(x: int) -> int {
    if x < -32768 {
        -32768
    } else if x > 32767 {
        32767
    } else {
        x
    }
}

/// The first `k` samples of a slice and the predictor after them: each sample is the
/// prediction plus the residual, clamped, and then feeds the predictor.
pub open spec fn decode_prefix(l: LmsView, w: u64, k: nat) -> (Seq<i16>, LmsView)
    decreases k,
{
    if k == 0 {
        (seq![], l)
    } else {
        let prev = decode_prefix(l, w, (k - 1) as nat);
        let r = dequant(scale_of(w), code_at(w, k - 1));
        let s = clamp_i16(predict_spec(prev.1) + r) as i16;
        (prev.0.push(s), update_spec(prev.1, s, r))
    }
}

/// The 20 samples of a slice and the predictor after them.
pub open spec fn decode_slice(l: LmsView, w: u64) -> (Seq<i16>, LmsView) {
    decode_prefix(l, w, 20)
}

/// The samples from the frame that starts at `pos` to the end of the file, and why they
/// stop. Every frame must declare one channel and the sample rate `rate`.
pub open spec fn frames_from(d: Seq<u8>, pos: int, rate: int) -> (Seq<i16>, QoaError)
    decreases d.len() - pos, 0int,
{
    if pos + 8 > d.len() {
        (seq![], QoaError::UnexpectedEof)
    } else if d[pos] != 1 || be_u24(d, pos + 1) != rate {
        (seq![], QoaError::UnsupportedFormat)
    } else if pos + 24 > d.len() {
        (seq![], QoaError::UnexpectedEof)
    } else {
        frame_tail(d, pos + 24, lms_at(d, pos + 8), be_u16(d, pos + 4), rate)
    }
}

/// The samples from inside a frame to the end of the file: `remaining` samples of this frame
/// are still to come from the slices at `pos`, decoded with predictor `l`.
pub open spec fn frame_tail(d: Seq<u8>, pos: int, l: LmsView, remaining: int, rate: int) -> (
    Seq<i16>,
    QoaError,
)
    decreases d.len() - pos, 1int,
{
    if remaining <= 0 {
        frames_from(d, pos, rate)
    } else if pos + 8 > d.len() {
        (seq![], QoaError::UnexpectedEof)
    } else {
        let sl = decode_slice(l, slice_word(d, pos) as u64);
        let k = if remaining < 20 {
            remaining
        } else {
            20
        };
        let rest = frame_tail(d, pos + 8, sl.1, remaining - k, rate);
        (sl.0.take(k) + rest.0, rest.1)
    }
}

/// Whether the file header is complete and tagged.
pub open spec fn header_ok(d: Seq<u8>) -> bool {
    d.len() >= 8 && has_magic(d)
}

/// Why the first frame cannot be loaded, if it cannot.
pub open spec fn first_frame_error(d: Seq<u8>) -> Option<QoaError> {
    if d.len() < 16 {
        Some(QoaError::UnexpectedEof)
    } else if d[8] != 1 {
        Some(QoaError::UnsupportedFormat)
    } else if d.len() < 32 {
        Some(QoaError::UnexpectedEof)
    } else {
        None
    }
}

/// Every sample that the frames hold, up to the first fault, and that fault.
pub open spec fn stream(d: Seq<u8>) -> (Seq<i16>, QoaError) {
    frames_from(d, 8, first_rate(d))
}

/// The samples of a file: those of its frames, up to the number its header declares.
pub open spec fn samples(d: Seq<u8>) -> Seq<i16> {
    let s = stream(d).0;
    if s.len() >= total_samples(d) {
        s.take(total_samples(d))
    } else {
        s
    }
}

/// The fault that stops decoding before the declared number of samples, if any.
pub open spec fn stream_error(d: Seq<u8>) -> Option<QoaError> {
    if stream(d).0.len() >= total_samples(d) {
        None
    } else {
        Some(stream(d).1)
    }
}

pub(crate) proof fn lemma_decode_prefix_len(l: LmsView, w: u64, k: nat)
    ensures
        decode_prefix(l, w, k).0.len() == k,
    decreases k,
{
    if k > 0 {
        lemma_decode_prefix_len(l, w, (k - 1) as nat);
    }
}

/// The offset just past the frame at `pos`: its header, its state and the slices that its
/// sample count needs.
pub open spec fn frame_end(d: Seq<u8>, pos: int) -> int {
    pos + 24 + 8 * ((be_u16(d, pos + 4) + 19) / 20)
}

/// Whether the bytes from `pos` to the end are whole mono frames at sample rate `rate`.
pub open spec fn whole_frames(d: Seq<u8>, pos: int, rate: int) -> bool
    decreases d.len() - pos,
{
    if pos >= d.len() {
        pos == d.len()
    } else {
        &&& pos + 24 <= d.len()
        &&& d[pos] == 1
        &&& be_u24(d, pos + 1) == rate
        &&& frame_end(d, pos) <= d.len()
        &&& whole_frames(d, frame_end(d, pos), rate)
    }
}

/// The number of samples that the whole frames from `pos` on declare.
pub open spec fn declared_samples(d: Seq<u8>, pos: int) -> int
    decreases d.len() - pos,
{
    if pos + 24 > d.len() || frame_end(d, pos) > d.len() {
        0
    } else {
        be_u16(d, pos + 4) + declared_samples(d, frame_end(d, pos))
    }
}

/// Whether `d` is a whole file: a tagged header, then one or more whole mono frames at the
/// first frame's rate, whose sample counts add up to the header's total.
pub open spec fn complete_file(d: Seq<u8>) -> bool {
    &&& header_ok(d)
    &&& d.len() > 8
    &&& whole_frames(d, 8, first_rate(d))
    &&& declared_samples(d, 8) == total_samples(d)
}

proof fn lemma_frames_len(d: Seq<u8>, pos: int, rate: int)
    requires
        whole_frames(d, pos, rate),
    ensures
        frames_from(d, pos, rate).0.len() == declared_samples(d, pos),
    decreases d.len() - pos, 0int,
{
    if pos < d.len() {
        let n = be_u16(d, pos + 4);
        lemma_tail_len(d, pos + 24, lms_at(d, pos + 8), n, rate);
    }
}

proof fn lemma_tail_len(d: Seq<u8>, p: int, l: LmsView, rem: int, rate: int)
    requires
        rem >= 0,
        p + 8 * ((rem + 19) / 20) <= d.len(),
        whole_frames(d, p + 8 * ((rem + 19) / 20), rate),
    ensures
        frame_tail(d, p, l, rem, rate).0.len() == rem + declared_samples(
            d,
            p + 8 * ((rem + 19) / 20),
        ),
    decreases d.len() - p, 1int,
{
    if rem == 0 {
        lemma_frames_len(d, p, rate);
    } else {
        let sl = decode_slice(l, slice_word(d, p) as u64);
        let k = if rem < 20 {
            rem
        } else {
            20
        };
        lemma_decode_prefix_len(l, slice_word(d, p) as u64, 20);
        assert((rem - k + 19) / 20 == (rem + 19) / 20 - 1);
        lemma_tail_len(d, p + 8, sl.1, rem - k, rate);
    }
}

/// A whole file yields exactly the number of samples that its header declares, with no fault,
/// and its first frame loads.
pub proof fn lemma_sample_count(d: Seq<u8>)
    requires
        complete_file(d),
    ensures
        samples(d).len() == total_samples(d),
        stream_error(d) is None,
        first_frame_error(d) is None,
{
    lemma_frames_len(d, 8, first_rate(d));
}

/// The residual that code `q` stands for under scale factor `sf`.
pub fn dequantize(sf: u8, q: u8) -> (r: i32)
    requires
        sf < 16,
        q < 8,
    ensures
        r as int == dequant(sf as int, q as int),
{
    let row: (i32, i32, i32, i32) = match sf {
        0 => (1, 3, 5, 7),
        1 => (5, 18, 32, 49),
        2 => (16, 53, 95, 147),
        3 => (34, 113, 203, 315),
        4 => (63, 210, 378, 588),
        5 => (104, 345, 621, 966),
        6 => (158, 528, 950, 1477),
        7 => (228, 760, 1368, 2128),
        8 => (316, 1053, 1895, 2947),
        9 => (422, 1405, 2529, 3934),
        10 => (548, 1828, 3290, 5117),
        11 => (696, 2320, 4176, 6496),
        12 => (868, 2893, 5207, 8099),
        13 => (1064, 3548, 6386, 9933),
        14 => (1286, 4288, 7718, 12005),
        _ => (1536, 5120, 9216, 14336),
    };
    let m: i32 = if q / 2 == 0 {
        row.0
    } else if q / 2 == 1 {
        row.1
    } else if q / 2 == 2 {
        row.2
    } else {
        row.3
    };
    if q % 2 == 0 {
        m
    } else {
        -m
    }
}

} // verus!
