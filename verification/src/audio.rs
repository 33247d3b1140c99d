//! Voice capture, as the daemon drives it.
use vstd::prelude::*;

verus! {

/// Records audio between `start` and `stop`; `stop` hands back a WAV file,
/// or an error that says why there is nothing to send.
pub trait AudioCapture {
    fn start(&mut self) -> Result<(), String>;

    fn stop(&mut self) -> Result<Vec<u8>, String>;

    fn is_recording(&self) -> bool;
}

} // verus!

verus! {

/// `x` as two bytes, least significant first.
pub open spec fn le16(x: nat) -> Seq<u8> {
    seq![(x % 256) as u8, ((x / 256) % 256) as u8]
}

/// `x` as four bytes, least significant first.
pub open spec fn le32(x: nat) -> Seq<u8> {
    le16(x % 65536) + le16((x / 65536) % 65536)
}

/// A sample as two bytes of two's complement, least significant first.
pub open spec fn sample_bytes(s: i16) -> Seq<u8> {
    le16(if s < 0 { (s + 65536) as nat } else { s as nat })
}

/// The samples one after another.
pub open spec fn pcm_bytes(samples: Seq<i16>) -> Seq<u8>
    decreases samples.len(),
{
    if samples.len() == 0 {
        seq![]
    } else {
        pcm_bytes(samples.drop_last()) + sample_bytes(samples.last())
    }
}

/// A WAV file of 16-bit integer PCM: the `RIFF`/`WAVE` header with a
/// 16-byte `fmt ` chunk (format 1, the channel count, the sample rate, the
/// byte rate, the block size, 16 bits), then the `data` chunk.
pub open spec fn pcm_wav(samples: Seq<i16>, channels: nat, sample_rate: nat) -> Seq<u8> {
    let data = pcm_bytes(samples);
    seq![82u8, 73, 70, 70] + le32(36 + data.len()) + seq![87u8, 65, 86, 69] + seq![
        102u8,
        109,
        116,
        32,
    ] + le32(16) + le16(1) + le16(channels) + le32(sample_rate) + le32(sample_rate * 2 * channels)
        + le16(2 * channels) + le16(16) + seq![100u8, 97, 116, 97] + le32(data.len()) + data
}

/// Writes 16-bit integer `samples` with `hound::WavWriter::new`,
/// `write_sample` and `finalize` into memory. Trusted: with one or two
/// channels hound writes the short PCM header that [`pcm_wav`] describes,
/// then each sample in little-endian order; writing into memory does not
/// fail, and `finalize` fails only where the last frame is incomplete. The
/// `requires` keeps the byte rate and the data size within the header's
/// 32-bit fields, and the sample rate non-zero, as hound divides by it.
#[verifier::external_body]
fn write_pcm_wav(samples: &Vec<i16>, channels: u16, sample_rate: u32) -> (r: Result<Vec<u8>, String>)
    requires
        1 <= channels <= 2,
        0 < sample_rate <= 0x1fff_ffff,
        samples@.len() <= 0x7fff_0000,
    ensures
        match r {
            Ok(bytes) => samples@.len() % (channels as nat) == 0 && bytes@ == pcm_wav(
                samples@,
                channels as nat,
                sample_rate as nat,
            ),
            Err(e) => samples@.len() % (channels as nat) != 0 && e@ == "Failed to finalize WAV"@,
        },
{
    let spec = hound::WavSpec { channels, sample_rate, bits_per_sample: 16, sample_format: hound::SampleFormat::Int };
    let mut buffer = std::io::Cursor::new(Vec::new());
    {
        let mut writer = hound::WavWriter::new(&mut buffer, spec).map_err(|_| "Failed to create WAV writer".to_string())?;
        for &sample in samples {
            writer.write_sample(sample).map_err(|_| "Failed to write WAV sample".to_string())?;
        }
        writer.finalize().map_err(|_| "Failed to finalize WAV".to_string())?;
    }
    Ok(buffer.into_inner())
}

/// The recording as a WAV file: one channel of 16-bit integer samples at
/// the device's sample rate.
pub fn encode_wav(samples: &Vec<i16>, sample_rate: u32) -> (r: Result<Vec<u8>, String>)
    requires
        samples@.len() <= 0x7fff_0000,
        0 < sample_rate <= 0x1fff_ffff,
    ensures
        r matches Ok(bytes) && bytes@ == pcm_wav(samples@, 1, sample_rate as nat),
{
    assert(samples@.len() % 1 == 0);
    write_pcm_wav(samples, 1, sample_rate)
}

} // verus!
