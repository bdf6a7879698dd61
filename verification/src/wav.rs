//! Reading the stored audio payloads, through the `hound` crate.
//!
//! A stored event is an uncompressed pulse-code file with 16-bit signed
//! samples.  The catalog hands the raw bytes of such a file to `hound`
//! here and gets back plain values: the sample rate, the channel count
//! and the interleaved samples.

use vstd::prelude::*;

verus! {

/// What `hound` decodes from the bytes of one stored payload: nothing
/// when the bytes are not a readable pulse-code audio file, otherwise the
/// sample rate, the channel count and the interleaved samples that decode
/// as 16-bit integers.  The result is a function of the bytes alone.
pub uninterp spec fn wav_parse(bytes: Seq<u8>) -> Option<(u32, u16, Seq<i16>)>;

/// Relies on `hound::WavReader`: `new` reads the header of the byte
/// stream and fails on a malformed one, `spec` reports the sample rate
/// and channel count the header declares, and the sample iterator yields
/// each sample that decodes as a 16-bit integer.  The whole outcome is a
/// function of the bytes alone.
#[verifier::external_body]
pub fn parse_wav_bytes(bytes: &Vec<u8>) -> (r: Option<(u32, u16, Vec<i16>)>)
    ensures
        (r is None) == (wav_parse(bytes@) is None),
        r matches Some(t) ==> wav_parse(bytes@) == Some((t.0, t.1, t.2@)),
{
    match hound::WavReader::new(std::io::Cursor::new(bytes)) {
        Ok(reader) => {
            let spec = reader.spec();
            let rate = spec.sample_rate;
            let channels = spec.channels;
            let samples: Vec<i16> = reader.into_samples().filter_map(|s| s.ok()).collect();
            Some((rate, channels, samples))
        },
        Err(_) => None,
    }
}

} // verus!
