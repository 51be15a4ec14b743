//! Further tests: validators, error variants, scalability-mode
//! parsing, SSRC ranges, `can_consume`, and pipe consumers with RTX
//! enabled.

use ortc::ortc::{
    can_consume, generate_router_rtp_capabilities, get_consumable_rtp_parameters,
    get_consumer_rtp_parameters, get_pipe_consumer_rtp_parameters,
    get_producer_rtp_parameters_mapping, validate_rtp_codec_parameters, validate_rtp_parameters,
    RtpCapabilitiesError, RtpParametersError, RtpParametersMappingError,
};
use ortc::rtp_parameters::{
    MediaKind, MimeTypeAudio, MimeTypeVideo, RtcpFeedback, RtcpParameters, RtpCapabilities,
    RtpCodecCapability, RtpCodecParameters, RtpCodecParametersParameters,
    RtpCodecParametersParametersValue, RtpEncodingParameters, RtpEncodingParametersRtx,
    RtpParameters,
};
use ortc::data_structures::{DtlsRole, NumSctpStreams};
use ortc::scalability_mode::{simulcast_scalability_mode, temporal_layers_of};

fn num(v: u32) -> RtpCodecParametersParametersValue {
    RtpCodecParametersParametersValue::Number(v)
}

fn st(v: &str) -> RtpCodecParametersParametersValue {
    RtpCodecParametersParametersValue::Str(v.to_string())
}

fn params(pairs: Vec<(&str, RtpCodecParametersParametersValue)>) -> RtpCodecParametersParameters {
    let mut p = RtpCodecParametersParameters::new();
    for (k, v) in pairs {
        p.insert(k, v);
    }
    p
}

fn opus_capability() -> RtpCodecCapability {
    RtpCodecCapability::Audio {
        mime_type: MimeTypeAudio::Opus,
        preferred_payload_type: None,
        clock_rate: 48000,
        channels: 2,
        parameters: RtpCodecParametersParameters::new(),
        rtcp_feedback: vec![],
    }
}

fn vp8_capability() -> RtpCodecCapability {
    RtpCodecCapability::Video {
        mime_type: MimeTypeVideo::Vp8,
        preferred_payload_type: None,
        clock_rate: 90000,
        parameters: RtpCodecParametersParameters::new(),
        rtcp_feedback: vec![],
    }
}

#[test]
fn validate_rejects_string_apt() {
    let codec = RtpCodecParameters::Video {
        mime_type: MimeTypeVideo::Rtx,
        payload_type: 97,
        clock_rate: 90000,
        parameters: params(vec![("apt", st("96"))]),
        rtcp_feedback: vec![],
    };
    assert_eq!(
        validate_rtp_codec_parameters(&codec),
        Err(RtpParametersError::InvalidAptParameter("96".to_string()))
    );

    let rtp_parameters = RtpParameters {
        mid: None,
        codecs: vec![codec],
        header_extensions: vec![],
        encodings: vec![],
        rtcp: RtcpParameters::default(),
    };
    assert_eq!(
        validate_rtp_parameters(&rtp_parameters),
        Err(RtpParametersError::InvalidAptParameter("96".to_string()))
    );
}

#[test]
fn validate_accepts_numeric_apt() {
    let codec = RtpCodecParameters::Video {
        mime_type: MimeTypeVideo::Rtx,
        payload_type: 97,
        clock_rate: 90000,
        parameters: params(vec![("apt", num(96))]),
        rtcp_feedback: vec![],
    };
    assert_eq!(validate_rtp_codec_parameters(&codec), Ok(()));
}

#[test]
fn finalizer_rejects_string_apt() {
    assert!(matches!(
        generate_router_rtp_capabilities(vec![RtpCodecCapability::Video {
            mime_type: MimeTypeVideo::Vp8,
            preferred_payload_type: None,
            clock_rate: 90000,
            parameters: params(vec![("apt", st("bad"))]),
            rtcp_feedback: vec![],
        }]),
        Err(RtpCapabilitiesError::InvalidAptParameter(_))
    ));
}

#[test]
fn finalizer_rejects_duplicated_preferred_payload_type() {
    assert!(matches!(
        generate_router_rtp_capabilities(vec![
            RtpCodecCapability::Audio {
                mime_type: MimeTypeAudio::Opus,
                preferred_payload_type: Some(111),
                clock_rate: 48000,
                channels: 2,
                parameters: RtpCodecParametersParameters::new(),
                rtcp_feedback: vec![],
            },
            RtpCodecCapability::Video {
                mime_type: MimeTypeVideo::Vp8,
                preferred_payload_type: Some(111),
                clock_rate: 90000,
                parameters: RtpCodecParametersParameters::new(),
                rtcp_feedback: vec![],
            },
        ]),
        Err(RtpCapabilitiesError::DuplicatedPreferredPayloadType(111))
    ));
}

#[test]
fn finalizer_exhausts_pool_on_video() {
    // Each video codec takes two dynamic payload types (media + RTX),
    // so seventeen VP8 codecs overrun the pool of 32.
    let mut media_codecs = Vec::new();
    for _ in 0..17 {
        media_codecs.push(vp8_capability());
    }
    assert!(matches!(
        generate_router_rtp_capabilities(media_codecs),
        Err(RtpCapabilitiesError::CannotAllocate)
    ));
}

#[test]
fn mapping_reports_missing_media_codec_for_rtx() {
    let caps = generate_router_rtp_capabilities(vec![vp8_capability()])
        .expect("Failed to generate router RTP capabilities");

    let rtp_parameters = RtpParameters {
        mid: None,
        codecs: vec![
            RtpCodecParameters::Video {
                mime_type: MimeTypeVideo::Vp8,
                payload_type: 96,
                clock_rate: 90000,
                parameters: RtpCodecParametersParameters::new(),
                rtcp_feedback: vec![],
            },
            RtpCodecParameters::Video {
                mime_type: MimeTypeVideo::Rtx,
                payload_type: 97,
                // The apt points at a payload type no media codec has.
                parameters: params(vec![("apt", num(55))]),
                clock_rate: 90000,
                rtcp_feedback: vec![],
            },
        ],
        header_extensions: vec![],
        encodings: vec![],
        rtcp: RtcpParameters::default(),
    };
    assert_eq!(
        get_producer_rtp_parameters_mapping(&rtp_parameters, &caps),
        Err(RtpParametersMappingError::MissingMediaCodecForRTX { payload_type: 97 })
    );
}

#[test]
fn mapping_reports_unsupported_rtx_codec() {
    // Audio codecs get no RTX companion, so an RTX stream paired with
    // the audio codec cannot be mapped.
    let caps = generate_router_rtp_capabilities(vec![opus_capability()])
        .expect("Failed to generate router RTP capabilities");

    let rtp_parameters = RtpParameters {
        mid: None,
        codecs: vec![
            RtpCodecParameters::Audio {
                mime_type: MimeTypeAudio::Opus,
                payload_type: 96,
                clock_rate: 48000,
                channels: 2,
                parameters: RtpCodecParametersParameters::new(),
                rtcp_feedback: vec![],
            },
            RtpCodecParameters::Video {
                mime_type: MimeTypeVideo::Rtx,
                payload_type: 97,
                parameters: params(vec![("apt", num(96))]),
                clock_rate: 90000,
                rtcp_feedback: vec![],
            },
        ],
        header_extensions: vec![],
        encodings: vec![],
        rtcp: RtcpParameters::default(),
    };
    assert_eq!(
        get_producer_rtp_parameters_mapping(&rtp_parameters, &caps),
        Err(RtpParametersMappingError::UnsupportedRTXCodec {
            preferred_payload_type: 100
        })
    );
}

#[test]
fn mapping_allocates_consecutive_ssrcs_in_range() {
    let caps = generate_router_rtp_capabilities(vec![opus_capability()])
        .expect("Failed to generate router RTP capabilities");

    let rtp_parameters = RtpParameters {
        mid: None,
        codecs: vec![RtpCodecParameters::Audio {
            mime_type: MimeTypeAudio::Opus,
            payload_type: 96,
            clock_rate: 48000,
            channels: 2,
            parameters: RtpCodecParametersParameters::new(),
            rtcp_feedback: vec![],
        }],
        header_extensions: vec![],
        encodings: vec![
            RtpEncodingParameters {
                ssrc: Some(1000),
                ..RtpEncodingParameters::default()
            },
            RtpEncodingParameters {
                ssrc: Some(1001),
                ..RtpEncodingParameters::default()
            },
            RtpEncodingParameters {
                rid: Some("mid".to_string()),
                ..RtpEncodingParameters::default()
            },
        ],
        rtcp: RtcpParameters::default(),
    };
    let mapping = get_producer_rtp_parameters_mapping(&rtp_parameters, &caps)
        .expect("Failed to get producer RTP parameters mapping");

    assert_eq!(mapping.encodings.len(), 3);
    let base = mapping.encodings[0].mapped_ssrc;
    assert!((100_000_000..999_999_999).contains(&base));
    assert_eq!(mapping.encodings[1].mapped_ssrc, base + 1);
    assert_eq!(mapping.encodings[2].mapped_ssrc, base + 2);
}

#[test]
fn can_consume_accepts_and_rejects() {
    let caps = generate_router_rtp_capabilities(vec![opus_capability(), vp8_capability()])
        .expect("Failed to generate router RTP capabilities");

    let producer_params = RtpParameters {
        mid: None,
        codecs: vec![RtpCodecParameters::Video {
            mime_type: MimeTypeVideo::Vp8,
            payload_type: 120,
            clock_rate: 90000,
            parameters: RtpCodecParametersParameters::new(),
            rtcp_feedback: vec![],
        }],
        header_extensions: vec![],
        encodings: vec![RtpEncodingParameters {
            ssrc: Some(1000),
            ..RtpEncodingParameters::default()
        }],
        rtcp: RtcpParameters::default(),
    };
    let mapping = get_producer_rtp_parameters_mapping(&producer_params, &caps)
        .expect("Failed to get producer RTP parameters mapping");
    let consumable =
        get_consumable_rtp_parameters(MediaKind::Video, &producer_params, &caps, &mapping);

    let vp8_peer = RtpCapabilities {
        codecs: vec![vp8_capability()],
        header_extensions: vec![],
        fec_mechanisms: vec![],
    };
    assert_eq!(can_consume(&consumable, &vp8_peer), Ok(true));

    let audio_only_peer = RtpCapabilities {
        codecs: vec![opus_capability()],
        header_extensions: vec![],
        fec_mechanisms: vec![],
    };
    assert_eq!(can_consume(&consumable, &audio_only_peer), Ok(false));

    let bad_peer = RtpCapabilities {
        codecs: vec![RtpCodecCapability::Video {
            mime_type: MimeTypeVideo::Rtx,
            preferred_payload_type: None,
            clock_rate: 90000,
            parameters: params(vec![("apt", st("oops"))]),
            rtcp_feedback: vec![],
        }],
        header_extensions: vec![],
        fec_mechanisms: vec![],
    };
    assert_eq!(
        can_consume(&consumable, &bad_peer),
        Err(RtpCapabilitiesError::InvalidAptParameter("oops".to_string()))
    );
}

#[test]
fn consumer_rejects_incompatible_peer() {
    let caps = generate_router_rtp_capabilities(vec![vp8_capability()])
        .expect("Failed to generate router RTP capabilities");

    let producer_params = RtpParameters {
        mid: None,
        codecs: vec![RtpCodecParameters::Video {
            mime_type: MimeTypeVideo::Vp8,
            payload_type: 120,
            clock_rate: 90000,
            parameters: RtpCodecParametersParameters::new(),
            rtcp_feedback: vec![],
        }],
        header_extensions: vec![],
        encodings: vec![RtpEncodingParameters {
            ssrc: Some(1000),
            ..RtpEncodingParameters::default()
        }],
        rtcp: RtcpParameters::default(),
    };
    let mapping = get_producer_rtp_parameters_mapping(&producer_params, &caps)
        .expect("Failed to get producer RTP parameters mapping");
    let consumable =
        get_consumable_rtp_parameters(MediaKind::Video, &producer_params, &caps, &mapping);

    let audio_only_peer = RtpCapabilities {
        codecs: vec![opus_capability()],
        header_extensions: vec![],
        fec_mechanisms: vec![],
    };
    assert!(matches!(
        get_consumer_rtp_parameters(&consumable, audio_only_peer),
        Err(ortc::ortc::ConsumerRtpParametersError::NoCompatibleMediaCodecs)
    ));
}

#[test]
fn consumer_collapses_unparseable_scalability_mode_to_t0() {
    // Two simulcast encodings whose scalability mode cannot be parsed
    // collapse into S2T0.
    let consumable = RtpParameters {
        mid: None,
        codecs: vec![RtpCodecParameters::Video {
            mime_type: MimeTypeVideo::Vp8,
            payload_type: 101,
            clock_rate: 90000,
            parameters: RtpCodecParametersParameters::new(),
            rtcp_feedback: vec![],
        }],
        header_extensions: vec![],
        encodings: vec![
            RtpEncodingParameters {
                ssrc: Some(200_000_001),
                scalability_mode: Some("bogus".to_string()),
                ..RtpEncodingParameters::default()
            },
            RtpEncodingParameters {
                ssrc: Some(200_000_002),
                ..RtpEncodingParameters::default()
            },
        ],
        rtcp: RtcpParameters {
            cname: Some("pipe".to_string()),
            reduced_size: true,
            mux: Some(true),
        },
    };
    let peer = RtpCapabilities {
        codecs: vec![vp8_capability()],
        header_extensions: vec![],
        fec_mechanisms: vec![],
    };
    let consumer = get_consumer_rtp_parameters(&consumable, peer)
        .expect("Failed to get consumer RTP parameters");
    assert_eq!(
        consumer.encodings[0].scalability_mode,
        Some("S2T0".to_string())
    );
    assert_eq!(consumer.encodings[0].max_bitrate, None);
    let ssrc = consumer.encodings[0].ssrc.unwrap();
    assert!((100_000_000..999_999_999).contains(&ssrc));
    // No RTX codec in the consumable parameters, so none for the consumer.
    assert!(consumer.encodings[0].rtx.is_none());
}

#[test]
fn pipe_consumer_keeps_rtx_when_enabled() {
    let media_codecs = vec![RtpCodecCapability::Video {
        mime_type: MimeTypeVideo::Vp8,
        preferred_payload_type: None,
        clock_rate: 90000,
        parameters: RtpCodecParametersParameters::new(),
        rtcp_feedback: vec![],
    }];
    let caps = generate_router_rtp_capabilities(media_codecs)
        .expect("Failed to generate router RTP capabilities");

    let producer_params = RtpParameters {
        mid: None,
        codecs: vec![
            RtpCodecParameters::Video {
                mime_type: MimeTypeVideo::Vp8,
                payload_type: 120,
                clock_rate: 90000,
                parameters: RtpCodecParametersParameters::new(),
                rtcp_feedback: vec![
                    RtcpFeedback::Nack,
                    RtcpFeedback::NackPli,
                    RtcpFeedback::GoogRemb,
                ],
            },
            RtpCodecParameters::Video {
                mime_type: MimeTypeVideo::Rtx,
                payload_type: 121,
                clock_rate: 90000,
                parameters: params(vec![("apt", num(120))]),
                rtcp_feedback: vec![],
            },
        ],
        header_extensions: vec![],
        encodings: vec![RtpEncodingParameters {
            ssrc: Some(3000),
            rtx: Some(RtpEncodingParametersRtx { ssrc: 3001 }),
            ..RtpEncodingParameters::default()
        }],
        rtcp: RtcpParameters::default(),
    };
    let mapping = get_producer_rtp_parameters_mapping(&producer_params, &caps)
        .expect("Failed to get producer RTP parameters mapping");
    let consumable =
        get_consumable_rtp_parameters(MediaKind::Video, &producer_params, &caps, &mapping);

    let pipe = get_pipe_consumer_rtp_parameters(&consumable, true);
    assert_eq!(pipe.codecs.len(), 2);
    assert_eq!(
        pipe.codecs[0].rtcp_feedback(),
        &vec![RtcpFeedback::Nack, RtcpFeedback::NackPli, RtcpFeedback::CcmFir]
    );
    assert!(pipe.codecs[1].is_rtx());
    assert_eq!(pipe.encodings.len(), 1);
    assert!(pipe.encodings[0].rtx.is_some());
    let rtx_ssrc = pipe.encodings[0].rtx.as_ref().unwrap().ssrc;
    assert!((100_000_000..999_999_999).contains(&rtx_ssrc));
}

#[test]
fn temporal_layers_parsing() {
    assert_eq!(temporal_layers_of("L1T3"), 3);
    assert_eq!(temporal_layers_of("S3T3"), 3);
    assert_eq!(temporal_layers_of("L10T12_KEY"), 12);
    assert_eq!(temporal_layers_of("L1T"), 0);
    assert_eq!(temporal_layers_of(""), 0);
    assert_eq!(temporal_layers_of("bogus"), 0);
    assert_eq!(temporal_layers_of("T3"), 0);
    assert_eq!(temporal_layers_of("L0T3"), 0);
}

#[test]
fn simulcast_scalability_mode_formatting() {
    assert_eq!(simulcast_scalability_mode(3, 3), "S3T3".to_string());
    assert_eq!(simulcast_scalability_mode(12, 0), "S12T0".to_string());
    assert_eq!(simulcast_scalability_mode(2, 10), "S2T10".to_string());
}

#[test]
fn defaults_hold_documented_values() {
    assert!(matches!(DtlsRole::default(), DtlsRole::Auto));
    let streams = NumSctpStreams::default();
    assert_eq!(streams.os, 1024);
    assert_eq!(streams.mis, 1024);
    let rtcp = RtcpParameters::default();
    assert_eq!(rtcp.cname, None);
    assert!(rtcp.reduced_size);
    assert_eq!(rtcp.mux, None);
}

#[test]
fn h264_profile_mismatch_is_not_mapped() {
    // Router capabilities carry High-profile H.264; a producer with a
    // Constrained-Baseline profile-level-id must not match strictly.
    let media_codecs = vec![RtpCodecCapability::Video {
        mime_type: MimeTypeVideo::H264,
        preferred_payload_type: None,
        clock_rate: 90000,
        parameters: params(vec![
            ("packetization-mode", num(1)),
            ("profile-level-id", st("640032")),
        ]),
        rtcp_feedback: vec![],
    }];
    let caps = generate_router_rtp_capabilities(media_codecs)
        .expect("Failed to generate router RTP capabilities");

    let rtp_parameters = RtpParameters {
        mid: None,
        codecs: vec![RtpCodecParameters::Video {
            mime_type: MimeTypeVideo::H264,
            payload_type: 111,
            clock_rate: 90000,
            parameters: params(vec![
                ("packetization-mode", num(1)),
                ("profile-level-id", st("42e01f")),
            ]),
            rtcp_feedback: vec![],
        }],
        header_extensions: vec![],
        encodings: vec![],
        rtcp: RtcpParameters::default(),
    };
    assert_eq!(
        get_producer_rtp_parameters_mapping(&rtp_parameters, &caps),
        Err(RtpParametersMappingError::UnsupportedCodec {
            mime_type: ortc::rtp_parameters::MimeType::Video(MimeTypeVideo::H264),
            payload_type: 111,
        })
    );
}
