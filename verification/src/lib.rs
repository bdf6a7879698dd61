//! An event-triggered audio recorder and timeline viewer for acoustic
//! ("bark") events.
//!
//! The crate has two cooperating halves.  The recorder half listens to a
//! stream of sample chunks, decides with an amplitude-hysteresis state
//! machine when an event begins and ends ([`detector`]), and names the file
//! that stores each event after its wall-clock timestamp ([`codec`],
//! [`recorder`]).  The viewer half rebuilds the event history purely from
//! those files ([`catalog`], [`wav`]), summarises each event's loudness as a
//! five-number envelope ([`stats`]), and maps the events onto an
//! interactively pannable and zoomable time axis ([`timeline`]).
//!
//! Amplitudes are carried as the stored 16-bit signed samples; an absolute
//! amplitude of 32767 corresponds to full scale 1.0.  Points in time are
//! either calendar fields ([`codec::Timestamp`]) or seconds since the Unix
//! epoch in local interpretation; [`clock`] holds the bridge to the system
//! clock and time zone.

pub mod catalog;
pub mod clock;
pub mod codec;
pub mod detector;
pub mod recorder;
pub mod stats;
pub mod timeline;
pub mod wav;
