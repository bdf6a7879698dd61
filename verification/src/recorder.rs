//! Turning detector transitions into file actions.
//!
//! The recorder follows the detector: when an event starts it asks for a
//! new sink named by the codec after the event's wall-clock timestamp,
//! while the event lasts every chunk is appended, and when the event
//! ends the sink is closed.  The recorder itself touches no file; it
//! tells its caller what to do, and the caller reports a failed append
//! by resetting recorder and detector, which drops that one event and
//! keeps the capture stream alive.

use vstd::prelude::*;
use crate::codec::{encode, encode_spec, Timestamp};
use crate::detector::ChunkDecision;

verus! {

/// What the caller must do with the chunk just decided on.
#[derive(Clone, Debug, PartialEq, Eq)]
pub enum RecorderAction {
    /// Open a new sink under this file name, then append the chunk.
    /// Failure to create the sink is fatal for the recorder's purpose.
    OpenAndAppend { filename: Vec<u8> },
    /// Append the chunk to the open sink.
    Append,
    /// Append the chunk, then close the sink, completing the event.
    AppendAndClose,
    /// The chunk belongs to no event.
    Nothing,
}

/// The in-flight state of the recorder: whether a sink is open.
pub struct EventRecorder {
    pub recording: bool,
}

impl EventRecorder {
    pub fn new() -> (r: Self)
        ensures
            !r.recording,
    {
        EventRecorder { recording: false }
    }

    /// Abandons the current event, if one is open.  After a transient
    /// append failure the caller drops the event with this (and resets
    /// the detector), so that capture continues.
    pub fn reset(&mut self)
        ensures
            !final(self).recording,
    {
        self.recording = false;
    }

    /// Follows one detector decision, `now` being the wall-clock
    /// timestamp read at the chunk: a starting event opens a sink named
    /// after `now`, a continuing event appends, a finishing event
    /// appends and closes.
    pub fn on_decision(&mut self, decision: ChunkDecision, now: &Timestamp) -> (r: RecorderAction)
        requires
            now.valid(),
        ensures
            decision is StartEvent && !old(self).recording ==> {
                &&& (r matches RecorderAction::OpenAndAppend { filename } && filename@
                    == encode_spec(*now))
                &&& final(self).recording
            },
            decision is StartEvent && old(self).recording ==> r == RecorderAction::Append
                && final(self).recording,
            decision is ContinueEvent ==> {
                &&& r == if old(self).recording {
                    RecorderAction::Append
                } else {
                    RecorderAction::Nothing
                }
                &&& final(self).recording == old(self).recording
            },
            decision is FinishEvent ==> {
                &&& r == if old(self).recording {
                    RecorderAction::AppendAndClose
                } else {
                    RecorderAction::Nothing
                }
                &&& !final(self).recording
            },
            decision is Ignore ==> r == RecorderAction::Nothing && final(self).recording == old(
                self,
            ).recording,
    {
        match decision {
            ChunkDecision::StartEvent => {
                if self.recording {
                    RecorderAction::Append
                } else {
                    self.recording = true;
                    RecorderAction::OpenAndAppend { filename: encode(now) }
                }
            },
            ChunkDecision::ContinueEvent => {
                if self.recording {
                    RecorderAction::Append
                } else {
                    RecorderAction::Nothing
                }
            },
            ChunkDecision::FinishEvent => {
                let was = self.recording;
                self.recording = false;
                if was {
                    RecorderAction::AppendAndClose
                } else {
                    RecorderAction::Nothing
                }
            },
            ChunkDecision::Ignore => RecorderAction::Nothing,
        }
    }
}

} // verus!
