//! The built-in table of RTP capabilities the forwarding unit can
//! mediate: every supported codec with its stock RTCP feedback, and the
//! global header-extension list. The capability finalizer treats this
//! table as ground truth.

use crate::rtp_parameters::{
    MediaKind, MimeType, MimeTypeAudio, MimeTypeVideo, ParamPair, ParamPairV, ParamValueV,
    RtcpFeedback, RtpCapabilities, RtpCapabilitiesV, RtpCodecCapability, RtpCodecCapabilityV,
    RtpCodecParametersParameters, RtpCodecParametersParametersValue, RtpHeaderExtension,
    RtpHeaderExtensionDirection, RtpHeaderExtensionUri,
};
use vstd::prelude::*;

verus! {

/// Parameters shared by the H.264 and H.265 table entries.
pub open spec fn spec_h26x_parameters(packetization_mode: u32) -> Seq<ParamPairV> {
    seq![
        ParamPairV { key: "packetization-mode"@, value: ParamValueV::Number(packetization_mode) },
        ParamPairV { key: "level-asymmetry-allowed"@, value: ParamValueV::Number(1) },
    ]
}

/// Stock feedback of every supported audio media codec.
pub open spec fn spec_audio_feedback() -> Seq<RtcpFeedback> {
    seq![RtcpFeedback::TransportCC]
}

/// Stock feedback of every supported video media codec.
pub open spec fn spec_video_feedback() -> Seq<RtcpFeedback> {
    seq![
        RtcpFeedback::Nack,
        RtcpFeedback::NackPli,
        RtcpFeedback::CcmFir,
        RtcpFeedback::GoogRemb,
        RtcpFeedback::TransportCC,
    ]
}

/// One supported audio entry without parameters.
pub open spec fn spec_audio_entry(
    mime_type: MimeTypeAudio,
    preferred_payload_type: Option<u8>,
    clock_rate: u32,
    channels: u8,
    rtcp_feedback: Seq<RtcpFeedback>,
) -> RtpCodecCapabilityV {
    RtpCodecCapabilityV {
        mime_type: MimeType::Audio(mime_type),
        preferred_payload_type,
        clock_rate,
        channels: Some(channels),
        parameters: Seq::empty(),
        rtcp_feedback,
    }
}

/// One supported video entry.
pub open spec fn spec_video_entry(
    mime_type: MimeTypeVideo,
    clock_rate: u32,
    parameters: Seq<ParamPairV>,
) -> RtpCodecCapabilityV {
    RtpCodecCapabilityV {
        mime_type: MimeType::Video(mime_type),
        preferred_payload_type: None,
        clock_rate,
        channels: None,
        parameters,
        rtcp_feedback: spec_video_feedback(),
    }
}

/// The codecs of the supported table, in table order.
pub open spec fn spec_supported_codecs() -> Seq<RtpCodecCapabilityV> {
    seq![
        spec_audio_entry(MimeTypeAudio::Opus, None, 48000, 2, spec_audio_feedback()),
        spec_audio_entry(MimeTypeAudio::Pcmu, Some(0), 8000, 1, spec_audio_feedback()),
        spec_audio_entry(MimeTypeAudio::Pcma, Some(8), 8000, 1, spec_audio_feedback()),
        spec_audio_entry(MimeTypeAudio::Isac, None, 32000, 1, spec_audio_feedback()),
        spec_audio_entry(MimeTypeAudio::Isac, None, 16000, 1, spec_audio_feedback()),
        spec_audio_entry(MimeTypeAudio::G722, Some(9), 8000, 1, spec_audio_feedback()),
        spec_audio_entry(MimeTypeAudio::Ilbc, None, 8000, 1, spec_audio_feedback()),
        spec_audio_entry(MimeTypeAudio::Cn, Some(13), 32000, 1, Seq::empty()),
        spec_audio_entry(MimeTypeAudio::Cn, Some(13), 16000, 1, Seq::empty()),
        spec_audio_entry(MimeTypeAudio::Cn, Some(13), 8000, 1, Seq::empty()),
        spec_audio_entry(MimeTypeAudio::TelephoneEvent, None, 48000, 1, Seq::empty()),
        spec_audio_entry(MimeTypeAudio::TelephoneEvent, None, 32000, 1, Seq::empty()),
        spec_audio_entry(MimeTypeAudio::TelephoneEvent, None, 16000, 1, Seq::empty()),
        spec_audio_entry(MimeTypeAudio::TelephoneEvent, None, 8000, 1, Seq::empty()),
        spec_video_entry(MimeTypeVideo::Vp8, 90000, Seq::empty()),
        spec_video_entry(MimeTypeVideo::Vp9, 90000, Seq::empty()),
        spec_video_entry(MimeTypeVideo::H264, 90000, spec_h26x_parameters(1)),
        spec_video_entry(MimeTypeVideo::H264, 90000, spec_h26x_parameters(0)),
        spec_video_entry(MimeTypeVideo::H265, 90000, spec_h26x_parameters(1)),
        spec_video_entry(MimeTypeVideo::H265, 90000, spec_h26x_parameters(0)),
    ]
}

/// The header extensions of the supported table, in table order.
pub open spec fn spec_supported_header_extensions() -> Seq<RtpHeaderExtension> {
    seq![
        RtpHeaderExtension {
            kind: Some(MediaKind::Audio),
            uri: RtpHeaderExtensionUri::MID,
            preferred_id: 1,
            preferred_encrypt: false,
            direction: RtpHeaderExtensionDirection::SendRecv,
        },
        RtpHeaderExtension {
            kind: Some(MediaKind::Video),
            uri: RtpHeaderExtensionUri::MID,
            preferred_id: 1,
            preferred_encrypt: false,
            direction: RtpHeaderExtensionDirection::SendRecv,
        },
        RtpHeaderExtension {
            kind: Some(MediaKind::Video),
            uri: RtpHeaderExtensionUri::RtpStreamId,
            preferred_id: 2,
            preferred_encrypt: false,
            direction: RtpHeaderExtensionDirection::RecvOnly,
        },
        RtpHeaderExtension {
            kind: Some(MediaKind::Video),
            uri: RtpHeaderExtensionUri::RepairedRtpStreamId,
            preferred_id: 3,
            preferred_encrypt: false,
            direction: RtpHeaderExtensionDirection::RecvOnly,
        },
        RtpHeaderExtension {
            kind: Some(MediaKind::Audio),
            uri: RtpHeaderExtensionUri::AbsSendTime,
            preferred_id: 4,
            preferred_encrypt: false,
            direction: RtpHeaderExtensionDirection::SendRecv,
        },
        RtpHeaderExtension {
            kind: Some(MediaKind::Video),
            uri: RtpHeaderExtensionUri::AbsSendTime,
            preferred_id: 4,
            preferred_encrypt: false,
            direction: RtpHeaderExtensionDirection::SendRecv,
        },
        RtpHeaderExtension {
            kind: Some(MediaKind::Audio),
            uri: RtpHeaderExtensionUri::TransportWideCCDraft01,
            preferred_id: 5,
            preferred_encrypt: false,
            direction: RtpHeaderExtensionDirection::RecvOnly,
        },
        RtpHeaderExtension {
            kind: Some(MediaKind::Video),
            uri: RtpHeaderExtensionUri::TransportWideCCDraft01,
            preferred_id: 5,
            preferred_encrypt: false,
            direction: RtpHeaderExtensionDirection::SendRecv,
        },
        RtpHeaderExtension {
            kind: Some(MediaKind::Video),
            uri: RtpHeaderExtensionUri::FrameMarkingDraft07,
            preferred_id: 6,
            preferred_encrypt: false,
            direction: RtpHeaderExtensionDirection::SendRecv,
        },
        RtpHeaderExtension {
            kind: Some(MediaKind::Video),
            uri: RtpHeaderExtensionUri::FrameMarking,
            preferred_id: 7,
            preferred_encrypt: false,
            direction: RtpHeaderExtensionDirection::SendRecv,
        },
        RtpHeaderExtension {
            kind: Some(MediaKind::Audio),
            uri: RtpHeaderExtensionUri::AudioLevel,
            preferred_id: 10,
            preferred_encrypt: false,
            direction: RtpHeaderExtensionDirection::SendRecv,
        },
        RtpHeaderExtension {
            kind: Some(MediaKind::Video),
            uri: RtpHeaderExtensionUri::VideoOrientation,
            preferred_id: 11,
            preferred_encrypt: false,
            direction: RtpHeaderExtensionDirection::SendRecv,
        },
        RtpHeaderExtension {
            kind: Some(MediaKind::Video),
            uri: RtpHeaderExtensionUri::TimeOffset,
            preferred_id: 12,
            preferred_encrypt: false,
            direction: RtpHeaderExtensionDirection::SendRecv,
        },
    ]
}

/// The whole supported table.
pub open spec fn spec_supported_rtp_capabilities() -> RtpCapabilitiesV {
    RtpCapabilitiesV {
        codecs: spec_supported_codecs(),
        header_extensions: spec_supported_header_extensions(),
        fec_mechanisms: Seq::empty(),
    }
}

/// Empty parameter collection.
fn no_parameters() -> (r: RtpCodecParametersParameters)
    ensures
        r@ =~= Seq::<ParamPairV>::empty(),
{
    RtpCodecParametersParameters::new()
}

/// The two parameters carried by the H.264 and H.265 table entries.
fn h26x_parameters(packetization_mode: u32) -> (r: RtpCodecParametersParameters)
    ensures
        r@ =~= spec_h26x_parameters(packetization_mode),
{
    let mut pairs: Vec<ParamPair> = Vec::new();
    pairs.push(
        ParamPair {
            key: "packetization-mode".to_owned(),
            value: RtpCodecParametersParametersValue::Number(packetization_mode),
        },
    );
    pairs.push(
        ParamPair {
            key: "level-asymmetry-allowed".to_owned(),
            value: RtpCodecParametersParametersValue::Number(1),
        },
    );
    RtpCodecParametersParameters { pairs }
}

/// Stock feedback of a supported audio media codec.
fn audio_feedback() -> (r: Vec<RtcpFeedback>)
    ensures
        r@ =~= spec_audio_feedback(),
{
    let mut fb: Vec<RtcpFeedback> = Vec::new();
    fb.push(RtcpFeedback::TransportCC);
    fb
}

/// Stock feedback of a supported video media codec.
fn video_feedback() -> (r: Vec<RtcpFeedback>)
    ensures
        r@ =~= spec_video_feedback(),
{
    let mut fb: Vec<RtcpFeedback> = Vec::new();
    fb.push(RtcpFeedback::Nack);
    fb.push(RtcpFeedback::NackPli);
    fb.push(RtcpFeedback::CcmFir);
    fb.push(RtcpFeedback::GoogRemb);
    fb.push(RtcpFeedback::TransportCC);
    fb
}

/// One supported audio entry without parameters.
fn audio_entry(
    mime_type: MimeTypeAudio,
    preferred_payload_type: Option<u8>,
    clock_rate: u32,
    channels: u8,
    with_feedback: bool,
) -> (r: RtpCodecCapability)
    ensures
        r@ =~= spec_audio_entry(
            mime_type,
            preferred_payload_type,
            clock_rate,
            channels,
            if with_feedback {
                spec_audio_feedback()
            } else {
                Seq::empty()
            },
        ),
{
    let rtcp_feedback = if with_feedback {
        audio_feedback()
    } else {
        Vec::new()
    };
    RtpCodecCapability::Audio {
        mime_type,
        preferred_payload_type,
        clock_rate,
        channels,
        parameters: no_parameters(),
        rtcp_feedback,
    }
}

/// One supported video entry.
fn video_entry(mime_type: MimeTypeVideo, clock_rate: u32, parameters: RtpCodecParametersParameters) -> (r:
    RtpCodecCapability)
    ensures
        r@ =~= spec_video_entry(mime_type, clock_rate, parameters@),
{
    RtpCodecCapability::Video {
        mime_type,
        preferred_payload_type: None,
        clock_rate,
        parameters,
        rtcp_feedback: video_feedback(),
    }
}

/// One entry of the global header-extension list.
fn header_extension(
    kind: MediaKind,
    uri: RtpHeaderExtensionUri,
    preferred_id: u16,
    direction: RtpHeaderExtensionDirection,
) -> (r: RtpHeaderExtension)
    ensures
        r == (RtpHeaderExtension {
            kind: Some(kind),
            uri,
            preferred_id,
            preferred_encrypt: false,
            direction,
        }),
{
    RtpHeaderExtension { kind: Some(kind), uri, preferred_id, preferred_encrypt: false, direction }
}

/// The RTP capabilities the forwarding unit supports.
pub fn get_supported_rtp_capabilities() -> (r: RtpCapabilities)
    ensures
        r@ =~= spec_supported_rtp_capabilities(),
{
    let mut codecs: Vec<RtpCodecCapability> = Vec::new();
    codecs.push(audio_entry(MimeTypeAudio::Opus, None, 48000, 2, true));
    codecs.push(audio_entry(MimeTypeAudio::Pcmu, Some(0), 8000, 1, true));
    codecs.push(audio_entry(MimeTypeAudio::Pcma, Some(8), 8000, 1, true));
    codecs.push(audio_entry(MimeTypeAudio::Isac, None, 32000, 1, true));
    codecs.push(audio_entry(MimeTypeAudio::Isac, None, 16000, 1, true));
    codecs.push(audio_entry(MimeTypeAudio::G722, Some(9), 8000, 1, true));
    codecs.push(audio_entry(MimeTypeAudio::Ilbc, None, 8000, 1, true));
    codecs.push(audio_entry(MimeTypeAudio::Cn, Some(13), 32000, 1, false));
    codecs.push(audio_entry(MimeTypeAudio::Cn, Some(13), 16000, 1, false));
    codecs.push(audio_entry(MimeTypeAudio::Cn, Some(13), 8000, 1, false));
    codecs.push(audio_entry(MimeTypeAudio::TelephoneEvent, None, 48000, 1, false));
    codecs.push(audio_entry(MimeTypeAudio::TelephoneEvent, None, 32000, 1, false));
    codecs.push(audio_entry(MimeTypeAudio::TelephoneEvent, None, 16000, 1, false));
    codecs.push(audio_entry(MimeTypeAudio::TelephoneEvent, None, 8000, 1, false));
    codecs.push(video_entry(MimeTypeVideo::Vp8, 90000, no_parameters()));
    codecs.push(video_entry(MimeTypeVideo::Vp9, 90000, no_parameters()));
    codecs.push(video_entry(MimeTypeVideo::H264, 90000, h26x_parameters(1)));
    codecs.push(video_entry(MimeTypeVideo::H264, 90000, h26x_parameters(0)));
    codecs.push(video_entry(MimeTypeVideo::H265, 90000, h26x_parameters(1)));
    codecs.push(video_entry(MimeTypeVideo::H265, 90000, h26x_parameters(0)));

    let mut header_extensions: Vec<RtpHeaderExtension> = Vec::new();
    header_extensions.push(
        header_extension(
            MediaKind::Audio,
            RtpHeaderExtensionUri::MID,
            1,
            RtpHeaderExtensionDirection::SendRecv,
        ),
    );
    header_extensions.push(
        header_extension(
            MediaKind::Video,
            RtpHeaderExtensionUri::MID,
            1,
            RtpHeaderExtensionDirection::SendRecv,
        ),
    );
    header_extensions.push(
        header_extension(
            MediaKind::Video,
            RtpHeaderExtensionUri::RtpStreamId,
            2,
            RtpHeaderExtensionDirection::RecvOnly,
        ),
    );
    header_extensions.push(
        header_extension(
            MediaKind::Video,
            RtpHeaderExtensionUri::RepairedRtpStreamId,
            3,
            RtpHeaderExtensionDirection::RecvOnly,
        ),
    );
    header_extensions.push(
        header_extension(
            MediaKind::Audio,
            RtpHeaderExtensionUri::AbsSendTime,
            4,
            RtpHeaderExtensionDirection::SendRecv,
        ),
    );
    header_extensions.push(
        header_extension(
            MediaKind::Video,
            RtpHeaderExtensionUri::AbsSendTime,
            4,
            RtpHeaderExtensionDirection::SendRecv,
        ),
    );
    header_extensions.push(
        header_extension(
            MediaKind::Audio,
            RtpHeaderExtensionUri::TransportWideCCDraft01,
            5,
            RtpHeaderExtensionDirection::RecvOnly,
        ),
    );
    header_extensions.push(
        header_extension(
            MediaKind::Video,
            RtpHeaderExtensionUri::TransportWideCCDraft01,
            5,
            RtpHeaderExtensionDirection::SendRecv,
        ),
    );
    header_extensions.push(
        header_extension(
            MediaKind::Video,
            RtpHeaderExtensionUri::FrameMarkingDraft07,
            6,
            RtpHeaderExtensionDirection::SendRecv,
        ),
    );
    header_extensions.push(
        header_extension(
            MediaKind::Video,
            RtpHeaderExtensionUri::FrameMarking,
            7,
            RtpHeaderExtensionDirection::SendRecv,
        ),
    );
    header_extensions.push(
        header_extension(
            MediaKind::Audio,
            RtpHeaderExtensionUri::AudioLevel,
            10,
            RtpHeaderExtensionDirection::SendRecv,
        ),
    );
    header_extensions.push(
        header_extension(
            MediaKind::Video,
            RtpHeaderExtensionUri::VideoOrientation,
            11,
            RtpHeaderExtensionDirection::SendRecv,
        ),
    );
    header_extensions.push(
        header_extension(
            MediaKind::Video,
            RtpHeaderExtensionUri::TimeOffset,
            12,
            RtpHeaderExtensionDirection::SendRecv,
        ),
    );

    let r = RtpCapabilities { codecs, header_extensions, fec_mechanisms: Vec::new() };
    proof {
        assert(r@.codecs =~= spec_supported_codecs());
        assert(r@.header_extensions =~= spec_supported_header_extensions());
        assert(r@.fec_mechanisms =~= Seq::<Seq<char>>::empty());
    }
    r
}

} // verus!
