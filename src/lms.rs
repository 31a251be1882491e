//! The four-tap least-mean-squares predictor that reconstructs samples.
use vstd::prelude::*;

verus! {

/// Reduces an integer to the signed 16-bit range, as two's-complement wrapping does.
pub open spec fn wrap_i16(x: int) -> int {
    (x + 32768) % 65536 - 32768
}

/// The big-endian signed 16-bit integer stored at `b[i]`, `b[i + 1]`.
pub open spec fn be_i16(b: Seq<u8>, i: int) -> int {
    let v = b[i] * 256 + b[i + 1];
    if v >= 32768 {
        v - 65536
    } else {
        v
    }
}

/// The mathematical state of a predictor: four history samples, oldest first, and four
/// weights.
pub struct LmsView {
    pub history: Seq<i16>,
    pub weights: Seq<i16>,
}

/// The prediction of a state: the weighted sum of the history, shifted right by 13 bits,
/// which rounds toward negative infinity.
pub open spec fn predict_spec(v: LmsView) -> int {
    (v.history[0] * v.weights[0] + v.history[1] * v.weights[1] + v.history[2] * v.weights[2]
        + v.history[3] * v.weights[3]) / 8192
}

/// The step by which every weight moves after a residual `r`: `r` shifted right by 4 bits.
pub open spec fn weight_step(r: int) -> int {
    r / 16
}

/// A weight after one update: it moves by the step toward the sign of its history sample,
/// wrapping in 16 bits.
pub open spec fn next_weight(w: i16, h: i16, r: int) -> int {
    if h < 0 {
        wrap_i16(w - weight_step(r))
    } else {
        wrap_i16(w + weight_step(r))
    }
}

/// The state after incorporating sample `s` reconstructed with residual `r`.
pub open spec fn update_spec(v: LmsView, s: i16, r: int) -> LmsView {
    LmsView {
        history: seq![v.history[1], v.history[2], v.history[3], s],
        weights: Seq::new(4, |i: int| next_weight(v.weights[i], v.history[i], r) as i16),
    }
}

/// The state read from a 16-byte big-endian block at `b[i]`.
pub open spec fn lms_at(b: Seq<u8>, i: int) -> LmsView {
    LmsView {
        history: Seq::new(4, |k: int| be_i16(b, i + 2 * k) as i16),
        weights: Seq::new(4, |k: int| be_i16(b, i + 8 + 2 * k) as i16),
    }
}

/// History and weights of the predictor for one channel.
pub struct Lms {
    pub history: [i16; 4],
    pub weights: [i16; 4],
}

proof fn lemma_wrap_add(w: i16, d: i32)
    by (bit_vector)
    ensures
        vstd::wrapping::i16_specs::wrapping_add(w, d as i16) as int == wrap_i16(w + d),
{
}

proof fn lemma_shift_is_floor_div(p: i64, k: i64)
    by (bit_vector)
    requires
        k == 8192,
    ensures
        p >> 13 == p / k,
{
}

proof fn lemma_shift4_is_floor_div(r: i32, k: i32)
    by (bit_vector)
    requires
        k == 16,
    ensures
        r >> 4 == r / k,
{
}

/// Reads the big-endian signed 16-bit integer at `b[i]`.
fn read_i16_be(b: &[u8], i: usize) -> (r: i16)
    requires
        i + 2 <= b@.len(),
    ensures
        r as int == be_i16(b@, i as int),
{
    let v: u16 = (b[i] as u16) * 256 + b[i + 1] as u16;
    if v >= 32768 {
        (v as i32 - 65536) as i16
    } else {
        v as i16
    }
}

impl View for Lms {
    type V = LmsView;

    open spec fn view(&self) -> LmsView {
        LmsView { history: self.history@, weights: self.weights@ }
    }
}

impl Lms {
    /// A predictor whose history and weights are all zero.
    pub fn new() -> (r: Lms)
        ensures
            r@.history == seq![0i16, 0, 0, 0],
            r@.weights == seq![0i16, 0, 0, 0],
    {
        Lms { history: [0; 4], weights: [0; 4] }
    }

    /// Reads a predictor from a 16-byte big-endian block: four history values, then four
    /// weights.
    pub fn from_bytes(bytes: &[u8]) -> (r: Lms)
        requires
            bytes@.len() >= 16,
        ensures
            r@ == lms_at(bytes@, 0),
    {
        let history = [
            read_i16_be(bytes, 0),
            read_i16_be(bytes, 2),
            read_i16_be(bytes, 4),
            read_i16_be(bytes, 6),
        ];
        let weights = [
            read_i16_be(bytes, 8),
            read_i16_be(bytes, 10),
            read_i16_be(bytes, 12),
            read_i16_be(bytes, 14),
        ];
        let r = Lms { history, weights };
        assert(r@.history =~= lms_at(bytes@, 0).history);
        assert(r@.weights =~= lms_at(bytes@, 0).weights);
        r
    }

    /// The prediction for the next sample.
    pub fn predict(&self) -> (r: i32)
        ensures
            r as int == predict_spec(self@),
            -524288 <= r <= 524288,
    {
        let h = &self.history;
        let w = &self.weights;
        proof {
            assert forall|i: int| 0 <= i < 4 implies -1073709056 <= #[trigger] (h[i] * w[i])
                <= 1073741824 by {
                let a = h[i];
                let b = w[i];
                assert(-32768 <= a <= 32767 && -32768 <= b <= 32767);
                assert(-1073709056 <= a * b <= 1073741824) by (nonlinear_arith)
                    requires
                        -32768 <= a <= 32767,
                        -32768 <= b <= 32767,
                ;
            }
            assert(-1073709056 <= h[0] * w[0] <= 1073741824);
            assert(-1073709056 <= h[1] * w[1] <= 1073741824);
            assert(-1073709056 <= h[2] * w[2] <= 1073741824);
            assert(-1073709056 <= h[3] * w[3] <= 1073741824);
        }
        let p: i64 = (h[0] as i64) * (w[0] as i64) + (h[1] as i64) * (w[1] as i64) + (h[2] as i64)
            * (w[2] as i64) + (h[3] as i64) * (w[3] as i64);
        proof {
            lemma_shift_is_floor_div(p, 8192);
        }
        let q: i64 = p >> 13;
        q as i32
    }

    /// Moves each weight by the scaled residual toward the sign of its history sample, then
    /// shifts `s` into the history as the newest sample.
    pub fn update(&mut self, s: i16, r: i32)
        ensures
            final(self)@ == update_spec(old(self)@, s, r as int),
    {
        proof {
            lemma_shift4_is_floor_div(r, 16);
        }
        let delta: i32 = r >> 4;
        let up: i16 = delta as i16;
        let neg: i32 = -delta;
        let down: i16 = neg as i16;
        proof {
            lemma_wrap_add(self.weights[0], delta);
            lemma_wrap_add(self.weights[1], delta);
            lemma_wrap_add(self.weights[2], delta);
            lemma_wrap_add(self.weights[3], delta);
            lemma_wrap_add(self.weights[0], neg);
            lemma_wrap_add(self.weights[1], neg);
            lemma_wrap_add(self.weights[2], neg);
            lemma_wrap_add(self.weights[3], neg);
        }
        let ghost old_w = self.weights;
        let ghost old_h = self.history;
        let mut i: usize = 0;
        while i < 4
            invariant
                0 <= i <= 4,
                self.history == old_h,
                delta as int == weight_step(r as int),
                up == delta as i16,
                neg == -delta,
                down == neg as i16,
                forall|j: int|
                    i <= j < 4 ==> #[trigger] self.weights[j] == old_w[j],
                forall|j: int|
                    0 <= j < i ==> #[trigger] self.weights[j] as int == next_weight(
                        old_w[j],
                        old_h[j],
                        r as int,
                    ),
                forall|j: int|
                    0 <= j < 4 ==> vstd::wrapping::i16_specs::wrapping_add(
                        #[trigger] old_w[j],
                        delta as i16,
                    ) as int == wrap_i16(old_w[j] + delta),
                forall|j: int|
                    0 <= j < 4 ==> vstd::wrapping::i16_specs::wrapping_add(
                        #[trigger] old_w[j],
                        neg as i16,
                    ) as int == wrap_i16(old_w[j] + neg),
            decreases 4 - i,
        {
            let step = if self.history[i] < 0 {
                down
            } else {
                up
            };
            self.weights[i] = self.weights[i].wrapping_add(step);
            i = i + 1;
        }
        self.history = [self.history[1], self.history[2], self.history[3], s];
        proof {
            assert forall|j: int| 0 <= j < 4 implies next_weight(old_w[j], old_h[j], r as int)
                == #[trigger] self.weights[j] as int by {
                assert(self.weights[j] as int == next_weight(old_w[j], old_h[j], r as int));
            }
            assert(self@.weights =~= update_spec(old(self)@, s, r as int).weights);
            assert(self@.history =~= update_spec(old(self)@, s, r as int).history);
        }
    }
}

} // verus!
