//! The amplitude-hysteresis state machine that decides when an acoustic
//! event begins and ends.
//!
//! The detector consumes one chunk of samples at a time, together with the
//! monotonic instant at which the chunk arrived.  A chunk whose peak
//! absolute amplitude exceeds the threshold while the detector is idle
//! starts an event; while an event is active every chunk belongs to it, and
//! the event ends only once the time since the last loud chunk exceeds the
//! silence timeout.  A quiet gap shorter than the timeout therefore never
//! splits one intermittently loud sequence into two events.  The state is
//! one phase, one start instant and one last-loud instant, regardless of
//! how long the stream runs.

use vstd::prelude::*;

verus! {

/// Amplitude of a sample, as the absolute value of the stored 16-bit
/// signed sample, clamped to full scale: 32767 is 1.0, and the most
/// negative sample also reads as full scale, so amplitudes stay within
/// the normalized range.
pub open spec fn abs_amplitude(s: i16) -> u16 {
    if s >= 0 {
        s as u16
    } else if s == i16::MIN {
        32767
    } else {
        (-(s as int)) as u16
    }
}

/// The peak absolute amplitude of a chunk (0 for an empty chunk).
pub open spec fn peak_spec(s: Seq<i16>) -> u16
    decreases s.len(),
{
    if s.len() == 0 {
        0
    } else if abs_amplitude(s.last()) >= peak_spec(s.drop_last()) {
        abs_amplitude(s.last())
    } else {
        peak_spec(s.drop_last())
    }
}

/// The thresholds the detector runs with.
#[derive(Clone, Copy, Debug, PartialEq, Eq, Structural)]
pub struct DetectorConfig {
    /// A chunk is loud when its peak absolute amplitude exceeds this,
    /// on the scale where 32767 is full scale 1.0.
    pub threshold: u16,
    /// An active event ends once this many milliseconds pass without a
    /// loud chunk.
    pub silence_timeout_ms: u64,
}

/// The amplitude threshold the design defaults to: 0.05 of full scale.
pub const DEFAULT_THRESHOLD: u16 = 1638;

/// The silence timeout the design defaults to: five seconds.
pub const DEFAULT_SILENCE_TIMEOUT_MS: u64 = 5000;

impl Default for DetectorConfig {
    /// The documented defaults: threshold 0.05 of full scale, five
    /// seconds of silence.
    fn default() -> (r: Self)
        ensures
            r.threshold == DEFAULT_THRESHOLD,
            r.silence_timeout_ms == DEFAULT_SILENCE_TIMEOUT_MS,
    {
        DetectorConfig { threshold: DEFAULT_THRESHOLD, silence_timeout_ms: DEFAULT_SILENCE_TIMEOUT_MS }
    }
}

#[derive(Clone, Copy, Debug, PartialEq, Eq, Structural)]
pub enum DetectorPhase {
    Idle,
    Active,
}

/// What the caller must do with the chunk just processed.
#[derive(Clone, Copy, Debug, PartialEq, Eq, Structural)]
pub enum ChunkDecision {
    /// Idle and quiet: the chunk belongs to no event.
    Ignore,
    /// An event begins with this chunk: open a sink, then append the chunk.
    StartEvent,
    /// The active event continues: append the chunk.
    ContinueEvent,
    /// The active event ends: append the chunk, then close the sink.
    FinishEvent,
}

/// The amplitude-hysteresis detector.
pub struct AmplitudeEventDetector {
    pub config: DetectorConfig,
    pub phase: DetectorPhase,
    /// The instant the active event started; meaningful only while active.
    pub event_start_ms: u64,
    /// The instant of the last loud chunk; meaningful only while active.
    pub last_loud_ms: u64,
}

impl AmplitudeEventDetector {
    pub open spec fn wf(self) -> bool {
        self.phase is Active ==> self.event_start_ms <= self.last_loud_ms
    }

    pub fn new(config: DetectorConfig) -> (r: Self)
        ensures
            r.config == config,
            r.phase is Idle,
            r.wf(),
    {
        AmplitudeEventDetector {
            config,
            phase: DetectorPhase::Idle,
            event_start_ms: 0,
            last_loud_ms: 0,
        }
    }

    /// Forces the detector back to idle, abandoning any active event.
    /// After a failed append the caller drops the event and resumes
    /// capture from here.
    pub fn reset(&mut self)
        ensures
            final(self).phase is Idle,
            final(self).config == old(self).config,
            final(self).wf(),
    {
        self.phase = DetectorPhase::Idle;
    }

    /// Feeds one chunk, given only its peak absolute amplitude, and takes
    /// the detector through exactly one transition step.
    ///
    /// Idle, loud chunk: an event starts at `now_ms`.  Active, loud chunk:
    /// the last-loud instant moves to `now_ms`.  Active, quiet chunk: the
    /// event continues, and ends only when more than the silence timeout
    /// has passed since the last loud chunk.
    pub fn step(&mut self, peak: u16, now_ms: u64) -> (r: ChunkDecision)
        requires
            old(self).wf(),
            old(self).phase is Active ==> now_ms >= old(self).last_loud_ms,
        ensures
            final(self).wf(),
            final(self).config == old(self).config,
            old(self).phase is Idle && peak > old(self).config.threshold ==> {
                &&& r == ChunkDecision::StartEvent
                &&& final(self).phase is Active
                &&& final(self).event_start_ms == now_ms
                &&& final(self).last_loud_ms == now_ms
            },
            old(self).phase is Idle && peak <= old(self).config.threshold ==> {
                &&& r == ChunkDecision::Ignore
                &&& *final(self) == *old(self)
            },
            old(self).phase is Active && peak > old(self).config.threshold ==> {
                &&& r == ChunkDecision::ContinueEvent
                &&& final(self).phase is Active
                &&& final(self).event_start_ms == old(self).event_start_ms
                &&& final(self).last_loud_ms == now_ms
            },
            old(self).phase is Active && peak <= old(self).config.threshold ==> {
                &&& final(self).event_start_ms == old(self).event_start_ms
                &&& final(self).last_loud_ms == old(self).last_loud_ms
                &&& if now_ms - old(self).last_loud_ms > old(self).config.silence_timeout_ms {
                    r == ChunkDecision::FinishEvent && final(self).phase is Idle
                } else {
                    r == ChunkDecision::ContinueEvent && final(self).phase is Active
                }
            },
    {
        match self.phase {
            DetectorPhase::Idle => {
                if peak > self.config.threshold {
                    self.phase = DetectorPhase::Active;
                    self.event_start_ms = now_ms;
                    self.last_loud_ms = now_ms;
                    ChunkDecision::StartEvent
                } else {
                    ChunkDecision::Ignore
                }
            },
            DetectorPhase::Active => {
                if peak > self.config.threshold {
                    self.last_loud_ms = now_ms;
                    ChunkDecision::ContinueEvent
                } else if now_ms - self.last_loud_ms > self.config.silence_timeout_ms {
                    self.phase = DetectorPhase::Idle;
                    ChunkDecision::FinishEvent
                } else {
                    ChunkDecision::ContinueEvent
                }
            },
        }
    }

    /// Feeds one chunk of samples: computes its peak and steps once.
    pub fn process_chunk(&mut self, chunk: &Vec<i16>, now_ms: u64) -> (r: ChunkDecision)
        requires
            old(self).wf(),
            old(self).phase is Active ==> now_ms >= old(self).last_loud_ms,
        ensures
            final(self).wf(),
            final(self).config == old(self).config,
            ({
                let peak = peak_spec(chunk@);
                &&& (old(self).phase is Idle && peak > old(self).config.threshold ==> {
                    &&& r == ChunkDecision::StartEvent
                    &&& final(self).phase is Active
                    &&& final(self).event_start_ms == now_ms
                    &&& final(self).last_loud_ms == now_ms
                })
                &&& (old(self).phase is Idle && peak <= old(self).config.threshold ==> {
                    &&& r == ChunkDecision::Ignore
                    &&& *final(self) == *old(self)
                })
                &&& (old(self).phase is Active && peak > old(self).config.threshold ==> {
                    &&& r == ChunkDecision::ContinueEvent
                    &&& final(self).phase is Active
                    &&& final(self).event_start_ms == old(self).event_start_ms
                    &&& final(self).last_loud_ms == now_ms
                })
                &&& (old(self).phase is Active && peak <= old(self).config.threshold ==> {
                    &&& final(self).event_start_ms == old(self).event_start_ms
                    &&& final(self).last_loud_ms == old(self).last_loud_ms
                    &&& if now_ms - old(self).last_loud_ms > old(self).config.silence_timeout_ms {
                        r == ChunkDecision::FinishEvent && final(self).phase is Idle
                    } else {
                        r == ChunkDecision::ContinueEvent && final(self).phase is Active
                    }
                })
            }),
    {
        let peak = peak_amplitude(chunk);
        self.step(peak, now_ms)
    }
}

/// The peak absolute amplitude over a chunk of samples.
pub fn peak_amplitude(chunk: &Vec<i16>) -> (r: u16)
    ensures
        r == peak_spec(chunk@),
{
    let mut r: u16 = 0;
    let mut i: usize = 0;
    while i < chunk.len()
        invariant
            i <= chunk@.len(),
            r == peak_spec(chunk@.take(i as int)),
        decreases chunk@.len() - i,
    {
        let s = chunk[i];
        let a: u16 = if s >= 0 {
            s as u16
        } else if s == i16::MIN {
            32767
        } else {
            (-s) as u16
        };
        assert(a == abs_amplitude(chunk@[i as int]));
        if a > r {
            r = a;
        }
        assert(chunk@.take(i + 1).drop_last() =~= chunk@.take(i as int));
        i = i + 1;
    }
    assert(chunk@.take(chunk@.len() as int) =~= chunk@);
    r
}

} // verus!
