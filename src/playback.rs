//! The decisions of the audio task: which sound plays, what duty cycle each sample becomes,
//! and how long to wait before the next one. The task itself (reading the request slot,
//! writing the PWM duty, waiting) runs outside and reports back what it saw.
use vstd::prelude::*;
use crate::decoder::QoaDecoder;
use crate::qoa::{header_ok, first_frame_error, first_rate, samples};

verus! {

/// A sound that the front end can ask for.
#[derive(Clone, Copy, PartialEq, Eq, Structural, Debug)]
pub enum AudioID {
    Stop,
    BootUp,
    Ping,
    Pong,
    Nom,
    GameOver,
    MusicDepp,
    MusicTetris,
    MusicPPAP,
    MusicPen,
    MusicNyan,
}

/// The number that stands for each sound in a one-byte request slot; 0 means no request.
pub open spec fn audio_code(id: AudioID) -> u8 {
    match id {
        AudioID::Stop => 1,
        AudioID::BootUp => 2,
        AudioID::Ping => 3,
        AudioID::Pong => 4,
        AudioID::Nom => 5,
        AudioID::GameOver => 6,
        AudioID::MusicDepp => 7,
        AudioID::MusicTetris => 8,
        AudioID::MusicPPAP => 9,
        AudioID::MusicPen => 10,
        AudioID::MusicNyan => 11,
    }
}

impl AudioID {
    /// The slot code of this sound; never 0.
    pub fn code(self) -> (r: u8)
        ensures
            r == audio_code(self),
            1 <= r <= 11,
    {
        match self {
            AudioID::Stop => 1,
            AudioID::BootUp => 2,
            AudioID::Ping => 3,
            AudioID::Pong => 4,
            AudioID::Nom => 5,
            AudioID::GameOver => 6,
            AudioID::MusicDepp => 7,
            AudioID::MusicTetris => 8,
            AudioID::MusicPPAP => 9,
            AudioID::MusicPen => 10,
            AudioID::MusicNyan => 11,
        }
    }

    /// The sound that a slot code stands for, or `None` for 0 and unknown codes.
    pub fn from_code(c: u8) -> (r: Option<AudioID>)
        ensures
            r matches Some(id) ==> audio_code(id) == c,
            r is None <==> (c == 0 || c > 11),
    {
        match c {
            1 => Some(AudioID::Stop),
            2 => Some(AudioID::BootUp),
            3 => Some(AudioID::Ping),
            4 => Some(AudioID::Pong),
            5 => Some(AudioID::Nom),
            6 => Some(AudioID::GameOver),
            7 => Some(AudioID::MusicDepp),
            8 => Some(AudioID::MusicTetris),
            9 => Some(AudioID::MusicPPAP),
            10 => Some(AudioID::MusicPen),
            11 => Some(AudioID::MusicNyan),
            _ => None,
        }
    }
}

/// No two sounds share a slot code, so reading a code back gives the sound that was stored.
pub proof fn lemma_audio_code_injective(a: AudioID, b: AudioID)
    requires
        audio_code(a) == audio_code(b),
    ensures
        a == b,
{
}

/// The duty cycle for a sample: the affine map of `-32768..=32767` onto `0..=max_duty`,
/// rounded down.
pub open spec fn duty_of(sample: int, max_duty: int) -> int {
    (sample + 32768) * max_duty / 65535
}

/// The length of one sample period in microseconds, rounded down.
pub open spec fn period_of(rate: int) -> int {
    1000000int / rate
}

/// How long to wait after a sample: the rest of the period, or nothing when the time since
/// the previous sample already exceeds the period.
pub open spec fn pacing_delay(period: int, elapsed: int) -> int {
    if elapsed > period {
        0
    } else {
        period - elapsed
    }
}

/// Converts a signed 16-bit sample into a PWM duty cycle between 0 and `max_duty`.
pub fn sample_to_duty(sample: i16, max_duty: u16) -> (r: u16)
    ensures
        r as int == duty_of(sample as int, max_duty as int),
        r <= max_duty,
        sample == -32768 ==> r == 0,
        sample == 32767 ==> r == max_duty,
{
    let offset: u32 = (sample as i32 + 32768) as u32;
    proof {
        assert(offset * max_duty <= 65535 * max_duty) by (nonlinear_arith)
            requires
                offset <= 65535,
        ;
        assert(65535 * max_duty <= 65535 * 65535) by (nonlinear_arith)
            requires
                max_duty <= 65535,
        ;
    }
    let product: u32 = offset * (max_duty as u32);
    proof {
        assert(product / 65535 <= max_duty) by (nonlinear_arith)
            requires
                product <= 65535 * max_duty,
        ;
        if sample == -32768 {
            assert(product == 0) by (nonlinear_arith)
                requires
                    offset == 0,
                    product == offset * max_duty,
            ;
        }
    }
    (product / 65535) as u16
}

/// The sample period in microseconds for a sample rate.
pub fn sample_period_us(rate: u32) -> (r: u32)
    requires
        rate > 0,
    ensures
        r as int == period_of(rate as int),
{
    1_000_000u32 / rate
}

/// How many microseconds to wait after a sample, given the period and the time since the
/// previous sample. It is never negative: when the budget is already spent, the answer is 0.
pub fn pacing_delay_us(period_us: u32, elapsed_us: u64) -> (r: u32)
    ensures
        r as int == pacing_delay(period_us as int, elapsed_us as int),
        elapsed_us > period_us ==> r == 0,
        r <= period_us,
{
    if elapsed_us > period_us as u64 {
        0
    } else {
        period_us - elapsed_us as u32
    }
}

/// Whether bytes can be played: the file and its first frame open, at a nonzero rate.
pub open spec fn playable(d: Seq<u8>) -> bool {
    header_ok(d) && first_frame_error(d) is None && first_rate(d) > 0
}

/// What happens when a sound reaches its end.
#[derive(Clone, Copy, PartialEq, Eq, Structural, Debug)]
pub enum AtEnd {
    /// Stop and wait for the next request.
    Stop,
    /// Start the same sound again from its first sample.
    Loop,
}

/// What the audio task is to do after one tick.
#[derive(Clone, Copy, PartialEq, Eq, Structural, Debug)]
pub enum Step {
    /// Nothing plays: wait briefly and tick again.
    Idle,
    /// Write `duty` to the output, then wait `delay_us` microseconds.
    Play { duty: u16, delay_us: u32 },
    /// The sound reached its end.
    Ended,
}

/// The sound that is playing, with its decoder.
struct Track<'a> {
    id: AudioID,
    decoder: QoaDecoder<'a>,
    sample_period_us: u32,
}

/// What the player is doing: the sound, its bytes and how many samples have been played.
pub struct TrackView {
    pub id: AudioID,
    pub bytes: Seq<u8>,
    pub played: nat,
}

/// The audio task's state: idle, or playing one sound.
pub struct Player<'a> {
    track: Option<Track<'a>>,
    /// Time of the previous sample, in microseconds.
    last_sample_us: u64,
    at_end: AtEnd,
}

impl<'a> Player<'a> {
    /// The sound that plays, if any.
    pub closed spec fn playing(&self) -> Option<TrackView> {
        match self.track {
            Some(t) => Some(
                TrackView { id: t.id, bytes: t.decoder.bytes(), played: t.decoder.produced() },
            ),
            None => None,
        }
    }

    /// Whether sound `id` is playing.
    pub open spec fn plays(&self, id: AudioID) -> bool {
        self.playing() matches Some(t) && t.id == id
    }

    /// The time of the previous sample.
    pub closed spec fn last_sample_us(&self) -> u64 {
        self.last_sample_us
    }

    /// What the player does at the end of a sound.
    pub closed spec fn at_end(&self) -> AtEnd {
        self.at_end
    }

    /// The playing decoder is valid, on playable bytes, and paced by their sample rate.
    pub closed spec fn wf(&self) -> bool {
        match self.track {
            Some(t) => {
                &&& t.decoder.wf()
                &&& playable(t.decoder.bytes())
                &&& t.sample_period_us == period_of(first_rate(t.decoder.bytes()))
            },
            None => true,
        }
    }

    /// An idle player.
    pub fn new(at_end: AtEnd) -> (r: Player<'a>)
        ensures
            r.wf(),
            r.playing() is None,
            r.at_end() == at_end,
            r.last_sample_us() == 0,
    {
        Player { track: None, last_sample_us: 0, at_end }
    }

    /// Handles a request for sound `id`, taken from the request slot, whose bytes are `asset`
    /// (`None` for silence). A request while sound is off is dropped, and one for the sound
    /// that already plays changes nothing; otherwise the player starts the new sound from its
    /// start, or goes idle when there is nothing it can play.
    pub fn request(&mut self, id: AudioID, asset: Option<&'a [u8]>, enabled: bool)
        requires
            old(self).wf(),
        ensures
            final(self).wf(),
            final(self).at_end() == old(self).at_end(),
            final(self).last_sample_us() == old(self).last_sample_us(),
            !enabled || old(self).plays(id) ==> final(self).playing() == old(self).playing(),
            enabled && !old(self).plays(id) ==> match asset {
                Some(b) if playable(b@) => final(self).playing() == Some(
                    TrackView { id, bytes: b@, played: 0 },
                ),
                _ => final(self).playing() is None,
            },
    {
        if !enabled {
            return ;
        }
        let same = match &self.track {
            Some(t) => t.id == id,
            None => false,
        };
        if same {
            return ;
        }
        self.track = None;
        if let Some(bytes) = asset {
            if let Ok(decoder) = QoaDecoder::new(bytes) {
                let rate = decoder.sample_rate();
                if rate > 0 {
                    let sample_period_us = sample_period_us(rate);
                    self.track = Some(Track { id, decoder, sample_period_us });
                }
            }
        }
    }

    /// One tick of the audio task at time `now_us`, with the output's largest duty
    /// `max_duty`. Turning sound off stops it. Otherwise the next sample becomes a duty
    /// cycle, paced by the time since the previous sample; at the end of a sound the player
    /// stops or starts it again, as it was made to.
    pub fn tick(&mut self, now_us: u64, max_duty: u16, enabled: bool) -> (r: Step)
        requires
            old(self).wf(),
        ensures
            final(self).wf(),
            final(self).at_end() == old(self).at_end(),
            !enabled ==> r == Step::Idle && final(self).playing() is None,
            enabled && old(self).playing() is None ==> r == Step::Idle && final(self).playing()
                is None,
            enabled && old(self).playing() is Some ==> ({
                let t = old(self).playing()->Some_0;
                let s = samples(t.bytes);
                if t.played < s.len() {
                    let elapsed = if now_us >= old(self).last_sample_us() {
                        now_us - old(self).last_sample_us()
                    } else {
                        0
                    };
                    &&& r == (Step::Play {
                        duty: duty_of(s[t.played as int] as int, max_duty as int) as u16,
                        delay_us: pacing_delay(period_of(first_rate(t.bytes)), elapsed) as u32,
                    })
                    &&& final(self).playing() == Some(TrackView { played: t.played + 1, ..t })
                    &&& final(self).last_sample_us() == now_us
                } else {
                    &&& r == Step::Ended
                    &&& final(self).last_sample_us() == old(self).last_sample_us()
                    &&& old(self).at_end() == AtEnd::Stop ==> final(self).playing() is None
                    &&& old(self).at_end() == AtEnd::Loop ==> final(self).playing() == Some(
                        TrackView { played: 0, ..t },
                    )
                }
            }),
    {
        if !enabled {
            self.track = None;
            return Step::Idle;
        }
        let at_end = self.at_end;
        match &mut self.track {
            None => Step::Idle,
            Some(t) => {
                match t.decoder.next_sample() {
                    Some(sample) => {
                        let duty = sample_to_duty(sample, max_duty);
                        let elapsed: u64 = if now_us >= self.last_sample_us {
                            now_us - self.last_sample_us
                        } else {
                            0
                        };
                        let delay_us = pacing_delay_us(t.sample_period_us, elapsed);
                        self.last_sample_us = now_us;
                        Step::Play { duty, delay_us }
                    },
                    None => {
                        match at_end {
                            AtEnd::Stop => {
                                self.track = None;
                            },
                            AtEnd::Loop => {
                                t.decoder.reset();
                            },
                        }
                        Step::Ended
                    },
                }
            },
        }
    }
}

} // verus!
