use vstd::prelude::*;

verus! {

/// Errors surfaced by the paging pipeline.
#[derive(Debug, Clone, Copy, PartialEq, Eq, Structural)]
pub enum PagingError {
    /// The codec selector names no supported codec.
    UnsupportedCodec,
    /// The audio source failed while frames were being read.
    SourceReadError,
    /// The transport could not deliver a datagram.
    TransportSendError,
}

/// The two codecs that paging receivers accept.
#[derive(Debug, Clone, Copy, PartialEq, Eq, Structural)]
pub enum CodecFlag {
    /// G.711 mu-law.
    G711u,
    /// G.722.
    G722,
}

/// Frame geometry of one codec.
#[derive(Debug, Clone, Copy, PartialEq, Eq, Structural)]
pub struct CodecProfile {
    /// Timestamp clock rate of the transport header, in Hz.
    pub sample_clock_hz: u32,
    /// Audio payload bytes carried by one packet.
    pub bytes_per_frame: usize,
    /// Wall-clock duration of one frame, in milliseconds.
    pub frame_duration_ms: u64,
    /// Payload type carried in the transport header.
    pub payload_type_id: u8,
}

/// Payload type of G.711 mu-law.
pub const PT_G711U: u8 = 0;
/// Payload type of G.722.
pub const PT_G722: u8 = 9;

/// The profile table.
pub open spec fn spec_profile(c: CodecFlag) -> CodecProfile {
    match c {
        CodecFlag::G711u => CodecProfile {
            sample_clock_hz: 8000,
            bytes_per_frame: 160,
            frame_duration_ms: 20,
            payload_type_id: PT_G711U,
        },
        // G.722 samples at 16 kHz but its transport clock is fixed at 8 kHz.
        CodecFlag::G722 => CodecProfile {
            sample_clock_hz: 8000,
            bytes_per_frame: 160,
            frame_duration_ms: 20,
            payload_type_id: PT_G722,
        },
    }
}

/// The bitrate each codec is defined with, in bytes per second (64 kbit/s).
pub open spec fn codec_bitrate_bytes_per_sec(c: CodecFlag) -> nat {
    match c {
        CodecFlag::G711u => 8000,
        CodecFlag::G722 => 8000,
    }
}

/// Which codec a selector (its payload type number) names, if any.
pub open spec fn spec_codec_of(selector: u8) -> Option<CodecFlag> {
    if selector == PT_G711U {
        Some(CodecFlag::G711u)
    } else if selector == PT_G722 {
        Some(CodecFlag::G722)
    } else {
        None
    }
}

/// Timestamp ticks that one frame advances.
pub open spec fn samples_per_frame(p: CodecProfile) -> nat {
    (p.sample_clock_hz as nat * p.frame_duration_ms as nat / 1000) as nat
}

/// A profile is one of the table's entries.
pub open spec fn is_supported_profile(p: CodecProfile) -> bool {
    p == spec_profile(CodecFlag::G711u) || p == spec_profile(CodecFlag::G722)
}

impl CodecFlag {
    /// The frame geometry of this codec.
    pub fn profile(&self) -> (r: CodecProfile)
        ensures
            r == spec_profile(*self),
            is_supported_profile(r),
            samples_per_frame(r) == 160,
    {
        proof {
            lemma_frame_geometry_matches_bitrate(*self);
        }
        match self {
            CodecFlag::G711u => CodecProfile {
                sample_clock_hz: 8000,
                bytes_per_frame: 160,
                frame_duration_ms: 20,
                payload_type_id: PT_G711U,
            },
            CodecFlag::G722 => CodecProfile {
                sample_clock_hz: 8000,
                bytes_per_frame: 160,
                frame_duration_ms: 20,
                payload_type_id: PT_G722,
            },
        }
    }

    /// The payload type number of this codec.
    pub fn payload_type(&self) -> (r: u8)
        ensures
            r == spec_profile(*self).payload_type_id,
            spec_codec_of(r) == Some(*self),
    {
        match self {
            CodecFlag::G711u => PT_G711U,
            CodecFlag::G722 => PT_G722,
        }
    }
}

/// Looks up the profile of the codec that `selector` (a payload type number)
/// names; any other selector is refused.
pub fn profile_for(selector: u8) -> (r: Result<CodecProfile, PagingError>)
    ensures
        match spec_codec_of(selector) {
            Some(c) => r == Ok::<CodecProfile, PagingError>(spec_profile(c)),
            None => r == Err::<CodecProfile, PagingError>(PagingError::UnsupportedCodec),
        },
        r matches Ok(p) ==> is_supported_profile(p) && samples_per_frame(p) == 160,
{
    if selector == PT_G711U {
        Ok(CodecFlag::G711u.profile())
    } else if selector == PT_G722 {
        Ok(CodecFlag::G722.profile())
    } else {
        Err(PagingError::UnsupportedCodec)
    }
}

/// Timestamp ticks per frame of a supported profile, as a machine integer.
pub fn timestamp_step(p: &CodecProfile) -> (r: u32)
    requires
        is_supported_profile(*p),
    ensures
        r as nat == samples_per_frame(*p),
        r == 160,
{
    proof {
        assert(8000nat * 20nat / 1000 == 160);
    }
    ((p.sample_clock_hz as u64) * p.frame_duration_ms / 1000) as u32
}

/// For every supported codec, the bytes of one frame times the number of
/// frames per second equal the codec's defined bitrate.
pub proof fn lemma_frame_geometry_matches_bitrate(c: CodecFlag)
    ensures
        spec_profile(c).bytes_per_frame as nat * (1000nat / spec_profile(c).frame_duration_ms as nat)
            == codec_bitrate_bytes_per_sec(c),
        samples_per_frame(spec_profile(c)) == 160,
{
    assert(1000nat / 20nat == 50);
    assert(8000nat * 20nat / 1000 == 160);
}

} // verus!
