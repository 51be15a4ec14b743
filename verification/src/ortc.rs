//! The RTP negotiation core: capability finalizer, producer mapping
//! builder, consumable builder, consumer projector and pipe projector,
//! together with the codec matcher and the parameter validators.

use crate::h264::{h264_answer_profile, h264_profile_for_answer};
use crate::rtp_parameters::{
    key_is, spec_param_get, spec_param_or_zero, value_eq, CodecToMatch,
    CodecToMatchV, MediaKind, MimeType, MimeTypeVideo, ParamPairV, ParamValueV, RtcpFeedback,
    RtpCapabilities, RtpCapabilitiesFinalized, RtpCodecCapability, RtpCodecCapabilityFinalized,
    RtpCodecParameters, RtpCodecParametersParameters, RtpCodecParametersParametersValue,
    RtpEncodingParameters, RtpHeaderExtension, RtpHeaderExtensionParameters, RtpParameters,
};
use vstd::prelude::*;

verus! {

/// Error caused by invalid RTP parameters.
#[derive(Debug, PartialEq, Eq)]
pub enum RtpParametersError {
    /// The `apt` parameter of a codec is string-valued.
    InvalidAptParameter(String),
}

/// Mathematical view of `RtpParametersError`.
pub enum RtpParametersErrorV {
    InvalidAptParameter(Seq<char>),
}

impl View for RtpParametersError {
    type V = RtpParametersErrorV;

    open spec fn view(&self) -> RtpParametersErrorV {
        match self {
            RtpParametersError::InvalidAptParameter(s) => RtpParametersErrorV::InvalidAptParameter(
                s@,
            ),
        }
    }
}

/// Error caused by invalid or unsupported RTP capabilities.
#[derive(Debug, PartialEq, Eq)]
pub enum RtpCapabilitiesError {
    /// The codec matches no entry of the supported table.
    UnsupportedCodec { mime_type: MimeType },
    /// The pool of dynamic payload types is exhausted.
    CannotAllocate,
    /// The `apt` parameter of a codec is string-valued.
    InvalidAptParameter(String),
    /// Two codecs settled on the same preferred payload type.
    DuplicatedPreferredPayloadType(u8),
}

/// Mathematical view of `RtpCapabilitiesError`.
pub enum RtpCapabilitiesErrorV {
    UnsupportedCodec { mime_type: MimeType },
    CannotAllocate,
    InvalidAptParameter(Seq<char>),
    DuplicatedPreferredPayloadType(u8),
}

impl View for RtpCapabilitiesError {
    type V = RtpCapabilitiesErrorV;

    open spec fn view(&self) -> RtpCapabilitiesErrorV {
        match self {
            RtpCapabilitiesError::UnsupportedCodec { mime_type } => {
                RtpCapabilitiesErrorV::UnsupportedCodec { mime_type: *mime_type }
            },
            RtpCapabilitiesError::CannotAllocate => RtpCapabilitiesErrorV::CannotAllocate,
            RtpCapabilitiesError::InvalidAptParameter(s) => {
                RtpCapabilitiesErrorV::InvalidAptParameter(s@)
            },
            RtpCapabilitiesError::DuplicatedPreferredPayloadType(pt) => {
                RtpCapabilitiesErrorV::DuplicatedPreferredPayloadType(*pt)
            },
        }
    }
}

/// Error caused by RTP parameters that cannot be mapped onto finalized
/// capabilities.
#[derive(Debug, Clone, Copy, PartialEq, Eq, Structural)]
pub enum RtpParametersMappingError {
    /// The codec matches no finalized capability.
    UnsupportedCodec { mime_type: MimeType, payload_type: u8 },
    /// The finalized capabilities hold no RTX entry for the matched
    /// media codec.
    UnsupportedRTXCodec { preferred_payload_type: u8 },
    /// No media codec carries the payload type named by an RTX codec's
    /// `apt` parameter.
    MissingMediaCodecForRTX { payload_type: u8 },
}

/// Error caused by bad consumer RTP capabilities.
#[derive(Debug, PartialEq, Eq)]
pub enum ConsumerRtpParametersError {
    /// The peer capabilities fail validation.
    InvalidCapabilities(RtpCapabilitiesError),
    /// No media codec of the consumable parameters is supported by the
    /// peer.
    NoCompatibleMediaCodecs,
}

/// Mathematical view of `ConsumerRtpParametersError`.
pub enum ConsumerRtpParametersErrorV {
    InvalidCapabilities(RtpCapabilitiesErrorV),
    NoCompatibleMediaCodecs,
}

impl View for ConsumerRtpParametersError {
    type V = ConsumerRtpParametersErrorV;

    open spec fn view(&self) -> ConsumerRtpParametersErrorV {
        match self {
            ConsumerRtpParametersError::InvalidCapabilities(e) => {
                ConsumerRtpParametersErrorV::InvalidCapabilities(e@)
            },
            ConsumerRtpParametersError::NoCompatibleMediaCodecs => {
                ConsumerRtpParametersErrorV::NoCompatibleMediaCodecs
            },
        }
    }
}

/// One entry of the codec payload-type mapping.
#[derive(Debug, Default, Clone, Copy, PartialEq, Eq, Structural)]
pub struct RtpMappingCodec {
    pub payload_type: u8,
    pub mapped_payload_type: u8,
}

/// One entry of the encoding SSRC mapping.
#[derive(Debug, PartialEq, Eq)]
pub struct RtpMappingEncoding {
    pub ssrc: Option<u32>,
    pub rid: Option<String>,
    pub scalability_mode: Option<String>,
    pub mapped_ssrc: u32,
}

/// Mathematical view of one encoding mapping entry.
#[verifier::ext_equal]
pub struct RtpMappingEncodingV {
    pub ssrc: Option<u32>,
    pub rid: Option<Seq<char>>,
    pub scalability_mode: Option<Seq<char>>,
    pub mapped_ssrc: u32,
}

impl View for RtpMappingEncoding {
    type V = RtpMappingEncodingV;

    open spec fn view(&self) -> RtpMappingEncodingV {
        RtpMappingEncodingV {
            ssrc: self.ssrc,
            rid: self.rid.deep_view(),
            scalability_mode: self.scalability_mode.deep_view(),
            mapped_ssrc: self.mapped_ssrc,
        }
    }
}

impl DeepView for RtpMappingEncoding {
    type V = RtpMappingEncodingV;

    open spec fn deep_view(&self) -> RtpMappingEncodingV {
        self.view()
    }
}

/// Mapping of a producer's payload types and SSRCs onto router values.
#[derive(Debug, PartialEq, Eq)]
pub struct RtpMapping {
    pub codecs: Vec<RtpMappingCodec>,
    pub encodings: Vec<RtpMappingEncoding>,
}

/// Mathematical view of a producer mapping.
#[verifier::ext_equal]
pub struct RtpMappingV {
    pub codecs: Seq<RtpMappingCodec>,
    pub encodings: Seq<RtpMappingEncodingV>,
}

impl View for RtpMapping {
    type V = RtpMappingV;

    open spec fn view(&self) -> RtpMappingV {
        RtpMappingV { codecs: self.codecs@, encodings: self.encodings.deep_view() }
    }
}

impl DeepView for RtpMapping {
    type V = RtpMappingV;

    open spec fn deep_view(&self) -> RtpMappingV {
        self.view()
    }
}

impl Default for RtpMapping {
    fn default() -> (r: Self)
        ensures
            r@.codecs =~= Seq::<RtpMappingCodec>::empty(),
            r@.encodings =~= Seq::<RtpMappingEncodingV>::empty(),
    {
        RtpMapping { codecs: Vec::new(), encodings: Vec::new() }
    }
}

/// The string value of the first string-valued `apt` parameter, if any;
/// a valid parameter list has none.
pub open spec fn spec_apt_error(ps: Seq<ParamPairV>) -> Option<Seq<char>>
    decreases ps.len(),
{
    if ps.len() == 0 {
        None
    } else if ps[0].key == "apt"@ && ps[0].value is Str {
        Some(ps[0].value->Str_0)
    } else {
        spec_apt_error(ps.drop_first())
    }
}

/// The first `apt` validation error over a list of producer codecs.
pub open spec fn spec_codecs_apt_error(codecs: Seq<crate::rtp_parameters::RtpCodecParametersV>) -> Option<
    Seq<char>,
>
    decreases codecs.len(),
{
    if codecs.len() == 0 {
        None
    } else {
        match spec_apt_error(codecs[0].parameters) {
            Some(s) => Some(s),
            None => spec_codecs_apt_error(codecs.drop_first()),
        }
    }
}

/// The first `apt` validation error over a list of capability codecs.
pub open spec fn spec_caps_apt_error(codecs: Seq<crate::rtp_parameters::RtpCodecCapabilityV>) -> Option<
    Seq<char>,
>
    decreases codecs.len(),
{
    if codecs.len() == 0 {
        None
    } else {
        match spec_apt_error(codecs[0].parameters) {
            Some(s) => Some(s),
            None => spec_caps_apt_error(codecs.drop_first()),
        }
    }
}

/// Walks a parameter list for a string-valued `apt` entry.
fn find_apt_error(ps: &RtpCodecParametersParameters) -> (r: Option<String>)
    ensures
        r.deep_view() == spec_apt_error(ps@),
{
    let n = ps.len();
    for i in 0..n
        invariant
            n == ps@.len(),
            forall|j: int|
                0 <= j < i ==> !(ps@[j].key == "apt"@ && ps@[j].value is Str),
    {
        let pair = ps.pair_at(i);
        if key_is(&pair.key, "apt") {
            match &pair.value {
                RtpCodecParametersParametersValue::Number(_) => {},
                RtpCodecParametersParametersValue::Str(s) => {
                    proof {
                        lemma_apt_error_at(ps@, i as int);
                    }
                    return Some(s.clone());
                },
            }
        }
    }
    proof {
        lemma_apt_error_none(ps@);
    }
    None
}

proof fn lemma_apt_error_at(ps: Seq<ParamPairV>, i: int)
    requires
        0 <= i < ps.len(),
        ps[i].key == "apt"@ && ps[i].value is Str,
        forall|j: int| 0 <= j < i ==> !(ps[j].key == "apt"@ && ps[j].value is Str),
    ensures
        spec_apt_error(ps) == Some(ps[i].value->Str_0),
    decreases ps.len(),
{
    if i > 0 {
        lemma_apt_error_at(ps.drop_first(), i - 1);
    }
}

proof fn lemma_apt_error_none(ps: Seq<ParamPairV>)
    requires
        forall|j: int| 0 <= j < ps.len() ==> !(ps[j].key == "apt"@ && ps[j].value is Str),
    ensures
        spec_apt_error(ps) is None,
    decreases ps.len(),
{
    if ps.len() > 0 {
        lemma_apt_error_none(ps.drop_first());
    }
}

/// Validates one codec of a producer's RTP parameters: an `apt`
/// parameter must be integer-valued.
pub fn validate_rtp_codec_parameters(codec: &RtpCodecParameters) -> (r: Result<
    (),
    RtpParametersError,
>)
    ensures
        match r {
            Ok(_) => spec_apt_error(codec@.parameters) is None,
            Err(e) => {
                &&& spec_apt_error(codec@.parameters) is Some
                &&& e@ == RtpParametersErrorV::InvalidAptParameter(
                    spec_apt_error(codec@.parameters)->Some_0,
                )
            },
        },
{
    match find_apt_error(codec.parameters()) {
        Some(s) => Err(RtpParametersError::InvalidAptParameter(s)),
        None => Ok(()),
    }
}

/// Validates a producer's RTP parameters.
pub fn validate_rtp_parameters(rtp_parameters: &RtpParameters) -> (r: Result<
    (),
    RtpParametersError,
>)
    ensures
        match r {
            Ok(_) => spec_codecs_apt_error(rtp_parameters@.codecs) is None,
            Err(e) => {
                &&& spec_codecs_apt_error(rtp_parameters@.codecs) is Some
                &&& e@ == RtpParametersErrorV::InvalidAptParameter(
                    spec_codecs_apt_error(rtp_parameters@.codecs)->Some_0,
                )
            },
        },
{
    let n = rtp_parameters.codecs.len();
    for i in 0..n
        invariant
            n == rtp_parameters@.codecs.len(),
            forall|j: int|
                0 <= j < i ==> spec_apt_error(rtp_parameters@.codecs[j].parameters) is None,
    {
        match validate_rtp_codec_parameters(&rtp_parameters.codecs[i]) {
            Ok(_) => {},
            Err(e) => {
                proof {
                    lemma_codecs_apt_error_at(rtp_parameters@.codecs, i as int);
                }
                return Err(e);
            },
        }
    }
    proof {
        lemma_codecs_apt_error_none(rtp_parameters@.codecs);
    }
    Ok(())
}

proof fn lemma_codecs_apt_error_at(codecs: Seq<crate::rtp_parameters::RtpCodecParametersV>, i: int)
    requires
        0 <= i < codecs.len(),
        spec_apt_error(codecs[i].parameters) is Some,
        forall|j: int| 0 <= j < i ==> spec_apt_error(#[trigger] codecs[j].parameters) is None,
    ensures
        spec_codecs_apt_error(codecs) == spec_apt_error(codecs[i].parameters),
    decreases codecs.len(),
{
    if i > 0 {
        lemma_codecs_apt_error_at(codecs.drop_first(), i - 1);
    }
}

proof fn lemma_codecs_apt_error_none(codecs: Seq<crate::rtp_parameters::RtpCodecParametersV>)
    requires
        forall|j: int|
            0 <= j < codecs.len() ==> spec_apt_error(#[trigger] codecs[j].parameters) is None,
    ensures
        spec_codecs_apt_error(codecs) is None,
    decreases codecs.len(),
{
    if codecs.len() > 0 {
        lemma_codecs_apt_error_none(codecs.drop_first());
    }
}

/// Validates one codec capability: an `apt` parameter must be
/// integer-valued.
pub fn validate_rtp_codec_capability(codec: &RtpCodecCapability) -> (r: Result<
    (),
    RtpCapabilitiesError,
>)
    ensures
        match r {
            Ok(_) => spec_apt_error(codec@.parameters) is None,
            Err(e) => {
                &&& spec_apt_error(codec@.parameters) is Some
                &&& e@ == RtpCapabilitiesErrorV::InvalidAptParameter(
                    spec_apt_error(codec@.parameters)->Some_0,
                )
            },
        },
{
    match find_apt_error(codec.parameters()) {
        Some(s) => Err(RtpCapabilitiesError::InvalidAptParameter(s)),
        None => Ok(()),
    }
}

/// Validates a set of RTP capabilities.
pub fn validate_rtp_capabilities(caps: &RtpCapabilities) -> (r: Result<(), RtpCapabilitiesError>)
    ensures
        match r {
            Ok(_) => spec_caps_apt_error(caps@.codecs) is None,
            Err(e) => {
                &&& spec_caps_apt_error(caps@.codecs) is Some
                &&& e@ == RtpCapabilitiesErrorV::InvalidAptParameter(
                    spec_caps_apt_error(caps@.codecs)->Some_0,
                )
            },
        },
{
    let n = caps.codecs.len();
    for i in 0..n
        invariant
            n == caps@.codecs.len(),
            forall|j: int| 0 <= j < i ==> spec_apt_error(caps@.codecs[j].parameters) is None,
    {
        match validate_rtp_codec_capability(&caps.codecs[i]) {
            Ok(_) => {},
            Err(e) => {
                proof {
                    lemma_caps_apt_error_at(caps@.codecs, i as int);
                }
                return Err(e);
            },
        }
    }
    proof {
        lemma_caps_apt_error_none(caps@.codecs);
    }
    Ok(())
}

proof fn lemma_caps_apt_error_at(codecs: Seq<crate::rtp_parameters::RtpCodecCapabilityV>, i: int)
    requires
        0 <= i < codecs.len(),
        spec_apt_error(codecs[i].parameters) is Some,
        forall|j: int| 0 <= j < i ==> spec_apt_error(#[trigger] codecs[j].parameters) is None,
    ensures
        spec_caps_apt_error(codecs) == spec_apt_error(codecs[i].parameters),
    decreases codecs.len(),
{
    if i > 0 {
        lemma_caps_apt_error_at(codecs.drop_first(), i - 1);
    }
}

proof fn lemma_caps_apt_error_none(codecs: Seq<crate::rtp_parameters::RtpCodecCapabilityV>)
    requires
        forall|j: int|
            0 <= j < codecs.len() ==> spec_apt_error(#[trigger] codecs[j].parameters) is None,
    ensures
        spec_caps_apt_error(codecs) is None,
    decreases codecs.len(),
{
    if codecs.len() > 0 {
        lemma_caps_apt_error_none(codecs.drop_first());
    }
}

/// The H.264 `profile-level-id` string of a parameter list, when it is
/// present and string-valued.
pub open spec fn spec_plid(ps: Seq<ParamPairV>) -> Option<Seq<char>> {
    match spec_param_get(ps, "profile-level-id"@) {
        Some(ParamValueV::Str(s)) => Some(s),
        _ => None,
    }
}

/// Whether a parameter list allows level asymmetry.
pub open spec fn spec_asym(ps: Seq<ParamPairV>) -> bool {
    spec_param_get(ps, "level-asymmetry-allowed"@) == Some(ParamValueV::Number(1))
}

/// Outcome of matching codec `a` against codec `b`: `Err` on mismatch;
/// `Ok(None)` on a match without augmentation; `Ok(Some(id))` on a
/// strict H.264 match, where `id` is the profile-level-id selected for
/// `a`'s side.
pub open spec fn spec_match_codecs(a: CodecToMatchV, b: CodecToMatchV, strict: bool) -> Result<
    Option<Seq<char>>,
    (),
> {
    if a.mime_type != b.mime_type {
        Err(())
    } else if a.channels != b.channels {
        Err(())
    } else if a.clock_rate != b.clock_rate {
        Err(())
    } else {
        match a.mime_type {
            MimeType::Video(MimeTypeVideo::H264) => {
                if spec_param_or_zero(a.parameters, "packetization-mode"@) != spec_param_or_zero(
                    b.parameters,
                    "packetization-mode"@,
                ) {
                    Err(())
                } else if strict {
                    match h264_answer_profile(
                        spec_plid(a.parameters),
                        spec_asym(a.parameters),
                        spec_plid(b.parameters),
                        spec_asym(b.parameters),
                    ) {
                        Some(id) => Ok(Some(id)),
                        None => Err(()),
                    }
                } else {
                    Ok(None)
                }
            },
            MimeType::Video(MimeTypeVideo::Vp9) => {
                if strict && spec_param_or_zero(a.parameters, "profile-id"@) != spec_param_or_zero(
                    b.parameters,
                    "profile-id"@,
                ) {
                    Err(())
                } else {
                    Ok(None)
                }
            },
            _ => Ok(None),
        }
    }
}

/// Whether `a` and `b` match (the verdict without the augmentation).
pub open spec fn spec_codecs_do_match(a: CodecToMatchV, b: CodecToMatchV, strict: bool) -> bool {
    spec_match_codecs(a, b, strict) is Ok
}

/// The H.264 `profile-level-id` string as a borrowed value.
fn plid_of(ps: &RtpCodecParametersParameters) -> (r: Option<&String>)
    ensures
        match r {
            Some(s) => spec_plid(ps@) == Some(s@),
            None => spec_plid(ps@) is None,
        },
{
    match ps.get("profile-level-id") {
        Some(RtpCodecParametersParametersValue::Str(s)) => Some(s),
        _ => None,
    }
}

/// Whether the parameter list allows level asymmetry.
fn asym_of(ps: &RtpCodecParametersParameters) -> (r: bool)
    ensures
        r == spec_asym(ps@),
{
    match ps.get("level-asymmetry-allowed") {
        Some(v) => value_eq(v, &RtpCodecParametersParametersValue::Number(1)),
        None => false,
    }
}

/// Decides whether two codec descriptions refer to the same codec.
///
/// Generic rules: mime type, channels and clock rate must agree. H.264
/// adds equality of `packetization-mode` (default 0) and, under strict
/// matching, RFC 6184 profile comparison, returning the selected answer
/// profile-level-id. VP9 adds, under strict matching, equality of
/// `profile-id` (default 0).
pub fn match_codecs(codec_a: CodecToMatch<'_>, codec_b: CodecToMatch<'_>, strict: bool) -> (r:
    Result<Option<String>, ()>)
    ensures
        match r {
            Ok(id) => spec_match_codecs(codec_a@, codec_b@, strict) == Ok::<
                Option<Seq<char>>,
                (),
            >(id.deep_view()),
            Err(_) => spec_match_codecs(codec_a@, codec_b@, strict) is Err,
        },
{
    if codec_a.mime_type != codec_b.mime_type {
        return Err(());
    }
    let channels_equal = match (codec_a.channels, codec_b.channels) {
        (Some(x), Some(y)) => x == y,
        (None, None) => true,
        _ => false,
    };
    if !channels_equal {
        return Err(());
    }
    if codec_a.clock_rate != codec_b.clock_rate {
        return Err(());
    }
    match codec_a.mime_type {
        MimeType::Video(MimeTypeVideo::H264) => {
            let pm_a = codec_a.parameters.get_or_zero("packetization-mode");
            let pm_b = codec_b.parameters.get_or_zero("packetization-mode");
            if !value_eq(&pm_a, &pm_b) {
                return Err(());
            }
            if strict {
                let plid_a = plid_of(codec_a.parameters);
                let plid_b = plid_of(codec_b.parameters);
                let asym_a = asym_of(codec_a.parameters);
                let asym_b = asym_of(codec_b.parameters);
                let plid_a_str = match plid_a {
                    Some(s) => Some(s.as_str()),
                    None => None,
                };
                let plid_b_str = match plid_b {
                    Some(s) => Some(s.as_str()),
                    None => None,
                };
                proof {
                    assert(plid_a_str.deep_view() == spec_plid(codec_a@.parameters));
                    assert(plid_b_str.deep_view() == spec_plid(codec_b@.parameters));
                }
                match h264_profile_for_answer(plid_a_str, asym_a, plid_b_str, asym_b) {
                    Some(id) => Ok(Some(id)),
                    None => Err(()),
                }
            } else {
                Ok(None)
            }
        },
        MimeType::Video(MimeTypeVideo::Vp9) => {
            if strict {
                let pid_a = codec_a.parameters.get_or_zero("profile-id");
                let pid_b = codec_b.parameters.get_or_zero("profile-id");
                if !value_eq(&pid_a, &pid_b) {
                    return Err(());
                }
            }
            Ok(None)
        },
        _ => Ok(None),
    }
}


/// The pool of dynamic payload types, in allocation order: 100 to 127,
/// then 96 to 99.
pub open spec fn spec_dynamic_payload_types() -> Seq<u8> {
    Seq::new(32, |i: int| if i < 28 { (100 + i) as u8 } else { (68 + i) as u8 })
}

/// `pool` with every occurrence of `pt` removed, order kept.
pub open spec fn spec_pool_remove(pool: Seq<u8>, pt: u8) -> Seq<u8>
    decreases pool.len(),
{
    if pool.len() == 0 {
        Seq::empty()
    } else if pool[0] == pt {
        spec_pool_remove(pool.drop_first(), pt)
    } else {
        seq![pool[0]] + spec_pool_remove(pool.drop_first(), pt)
    }
}

/// The first supported-table entry the codec matches, if any.
pub open spec fn spec_find_supported(
    sup: Seq<crate::rtp_parameters::RtpCodecCapabilityV>,
    c: CodecToMatchV,
) -> Option<crate::rtp_parameters::RtpCodecCapabilityV>
    decreases sup.len(),
{
    if sup.len() == 0 {
        None
    } else if spec_codecs_do_match(c, sup[0].to_match(), false) {
        Some(sup[0])
    } else {
        spec_find_supported(sup.drop_first(), c)
    }
}

/// The parameters of a synthesized RTX companion: a single `apt` entry
/// pointing at the media codec's payload type.
pub open spec fn spec_rtx_parameters(pt: u8) -> Seq<ParamPairV> {
    seq![ParamPairV { key: "apt"@, value: ParamValueV::Number(pt as u32) }]
}

/// The finalized form of one media codec: identity and feedback from
/// the matched supported entry `m`, parameters from `m` extended by the
/// input codec's, and the settled payload type.
pub open spec fn spec_finalized_codec(
    m: crate::rtp_parameters::RtpCodecCapabilityV,
    c: crate::rtp_parameters::RtpCodecCapabilityV,
    pt: u8,
) -> crate::rtp_parameters::RtpCodecCapabilityFinalizedV {
    crate::rtp_parameters::RtpCodecCapabilityFinalizedV {
        mime_type: m.mime_type,
        preferred_payload_type: pt,
        clock_rate: m.clock_rate,
        channels: m.channels,
        parameters: crate::rtp_parameters::spec_param_extend(m.parameters, c.parameters),
        rtcp_feedback: m.rtcp_feedback,
    }
}

/// The RTX companion synthesized after a finalized video codec.
pub open spec fn spec_rtx_codec(clock_rate: u32, pt: u8, rtx_pt: u8) -> crate::rtp_parameters::RtpCodecCapabilityFinalizedV {
    crate::rtp_parameters::RtpCodecCapabilityFinalizedV {
        mime_type: MimeType::Video(MimeTypeVideo::Rtx),
        preferred_payload_type: rtx_pt,
        clock_rate,
        channels: None,
        parameters: spec_rtx_parameters(pt),
        rtcp_feedback: Seq::empty(),
    }
}

/// One step of the finalizer: handles a single input codec, yielding
/// the grown codec list and the remaining dynamic pool, or the error
/// that aborts finalization.
pub open spec fn spec_finalize_step(
    sup: Seq<crate::rtp_parameters::RtpCodecCapabilityV>,
    c: crate::rtp_parameters::RtpCodecCapabilityV,
    pool: Seq<u8>,
    acc: Seq<crate::rtp_parameters::RtpCodecCapabilityFinalizedV>,
) -> Result<(Seq<crate::rtp_parameters::RtpCodecCapabilityFinalizedV>, Seq<u8>), RtpCapabilitiesErrorV> {
    match spec_apt_error(c.parameters) {
        Some(s) => Err(RtpCapabilitiesErrorV::InvalidAptParameter(s)),
        None => match spec_find_supported(sup, c.to_match()) {
            None => Err(RtpCapabilitiesErrorV::UnsupportedCodec { mime_type: c.mime_type }),
            Some(m) => {
                let pt_choice: Result<(u8, Seq<u8>), RtpCapabilitiesErrorV> = match c.preferred_payload_type {
                    Some(pt) => Ok((pt, spec_pool_remove(pool, pt))),
                    None => match m.preferred_payload_type {
                        Some(pt) => Ok((pt, pool)),
                        None => if pool.len() == 0 {
                            Err(RtpCapabilitiesErrorV::CannotAllocate)
                        } else {
                            Ok((pool[0], pool.drop_first()))
                        },
                    },
                };
                match pt_choice {
                    Err(e) => Err(e),
                    Ok((pt, pool1)) => {
                        if exists|j: int|
                            0 <= j < acc.len() && #[trigger] acc[j].preferred_payload_type == pt {
                            Err(RtpCapabilitiesErrorV::DuplicatedPreferredPayloadType(pt))
                        } else {
                            let fin = spec_finalized_codec(m, c, pt);
                            if m.mime_type is Video {
                                if pool1.len() == 0 {
                                    Err(RtpCapabilitiesErrorV::CannotAllocate)
                                } else {
                                    Ok(
                                        (
                                            acc.push(fin).push(
                                                spec_rtx_codec(m.clock_rate, pt, pool1[0]),
                                            ),
                                            pool1.drop_first(),
                                        ),
                                    )
                                }
                            } else {
                                Ok((acc.push(fin), pool1))
                            }
                        }
                    },
                }
            },
        },
    }
}

/// The finalizer's fold over the input codecs.
pub open spec fn spec_finalize_codecs(
    sup: Seq<crate::rtp_parameters::RtpCodecCapabilityV>,
    codecs: Seq<crate::rtp_parameters::RtpCodecCapabilityV>,
    pool: Seq<u8>,
    acc: Seq<crate::rtp_parameters::RtpCodecCapabilityFinalizedV>,
) -> Result<Seq<crate::rtp_parameters::RtpCodecCapabilityFinalizedV>, RtpCapabilitiesErrorV>
    decreases codecs.len(),
{
    if codecs.len() == 0 {
        Ok(acc)
    } else {
        match spec_finalize_step(sup, codecs[0], pool, acc) {
            Err(e) => Err(e),
            Ok((acc2, pool2)) => spec_finalize_codecs(sup, codecs.drop_first(), pool2, acc2),
        }
    }
}

/// The finalized capabilities produced from `media_codecs`, as the
/// whole result.
pub open spec fn spec_generate_router_rtp_capabilities(
    media_codecs: Seq<crate::rtp_parameters::RtpCodecCapabilityV>,
) -> Result<Seq<crate::rtp_parameters::RtpCodecCapabilityFinalizedV>, RtpCapabilitiesErrorV> {
    spec_finalize_codecs(
        crate::supported_rtp_capabilities::spec_supported_codecs(),
        media_codecs,
        spec_dynamic_payload_types(),
        Seq::empty(),
    )
}

/// `pool` with every occurrence of `pt` removed.
fn pool_remove(pool: Vec<u8>, pt: u8) -> (r: Vec<u8>)
    ensures
        r@ =~= spec_pool_remove(pool@, pt),
{
    let n = pool.len();
    let mut out: Vec<u8> = Vec::new();
    proof {
        assert(pool@.skip(0) =~= pool@);
    }
    for i in 0..n
        invariant
            n == pool@.len(),
            out@ + spec_pool_remove(pool@.skip(i as int), pt) =~= spec_pool_remove(pool@, pt),
    {
        proof {
            assert(pool@.skip(i as int).drop_first() =~= pool@.skip(i + 1));
            assert(pool@.skip(i as int)[0] == pool@[i as int]);
        }
        if pool[i] != pt {
            out.push(pool[i]);
        }
    }
    proof {
        assert(pool@.skip(n as int) =~= Seq::<u8>::empty());
        assert(out@ + Seq::<u8>::empty() =~= out@);
    }
    out
}

proof fn lemma_find_supported_at(
    sup: Seq<crate::rtp_parameters::RtpCodecCapabilityV>,
    c: CodecToMatchV,
    i: int,
)
    requires
        0 <= i < sup.len(),
        spec_codecs_do_match(c, sup[i].to_match(), false),
        forall|j: int| 0 <= j < i ==> !spec_codecs_do_match(c, #[trigger] sup[j].to_match(), false),
    ensures
        spec_find_supported(sup, c) == Some(sup[i]),
    decreases sup.len(),
{
    if i > 0 {
        lemma_find_supported_at(sup.drop_first(), c, i - 1);
    }
}

proof fn lemma_find_supported_none(
    sup: Seq<crate::rtp_parameters::RtpCodecCapabilityV>,
    c: CodecToMatchV,
)
    requires
        forall|j: int|
            0 <= j < sup.len() ==> !spec_codecs_do_match(c, #[trigger] sup[j].to_match(), false),
    ensures
        spec_find_supported(sup, c) is None,
    decreases sup.len(),
{
    if sup.len() > 0 {
        lemma_find_supported_none(sup.drop_first(), c);
    }
}

/// The first entry of `codecs` the codec matches non-strictly, if any.
fn find_supported_codec<'a>(codecs: &'a Vec<RtpCodecCapability>, c: CodecToMatch<'_>) -> (r:
    Option<&'a RtpCodecCapability>)
    ensures
        match r {
            Some(m) => spec_find_supported(codecs.deep_view(), c@) == Some(m@),
            None => spec_find_supported(codecs.deep_view(), c@) is None,
        },
{
    let n = codecs.len();
    for i in 0..n
        invariant
            n == codecs@.len(),
            forall|j: int|
                0 <= j < i ==> !spec_codecs_do_match(
                    c@,
                    #[trigger] codecs.deep_view()[j].to_match(),
                    false,
                ),
    {
        let m = &codecs[i];
        if match_codecs(c, m.to_match(), false).is_ok() {
            proof {
                lemma_find_supported_at(codecs.deep_view(), c@, i as int);
            }
            return Some(m);
        }
    }
    proof {
        lemma_find_supported_none(codecs.deep_view(), c@);
    }
    None
}

/// Generates the router's finalized RTP capabilities from the given
/// media codecs: each codec is matched against the supported table,
/// given a settled payload type (input preference first, then the
/// table's, then the head of the dynamic pool), its parameters merged
/// over the table entry's, and every video codec is followed by a
/// synthesized RTX companion.
#[verifier::loop_isolation(false)]
pub fn generate_router_rtp_capabilities(media_codecs: Vec<RtpCodecCapability>) -> (r: Result<
    RtpCapabilitiesFinalized,
    RtpCapabilitiesError,
>)
    ensures
        match r {
            Ok(caps) => {
                &&& spec_generate_router_rtp_capabilities(media_codecs.deep_view()) == Ok::<
                    _,
                    RtpCapabilitiesErrorV,
                >(caps@.codecs)
                &&& caps@.header_extensions
                    == crate::supported_rtp_capabilities::spec_supported_header_extensions()
                &&& caps@.fec_mechanisms == Seq::<Seq<char>>::empty()
            },
            Err(e) => spec_generate_router_rtp_capabilities(media_codecs.deep_view()) == Err::<
                Seq<crate::rtp_parameters::RtpCodecCapabilityFinalizedV>,
                _,
            >(e@),
        },
{
    let supported = crate::supported_rtp_capabilities::get_supported_rtp_capabilities();
    let ghost sup = crate::supported_rtp_capabilities::spec_supported_codecs();
    let ghost mc = media_codecs.deep_view();
    let ghost total = spec_generate_router_rtp_capabilities(mc);

    let mut pool: Vec<u8> = Vec::new();
    for v in 100u8..128u8
        invariant
            pool@.len() == v - 100,
            forall|k: int| 0 <= k < pool@.len() ==> pool@[k] == 100 + k,
    {
        pool.push(v);
    }
    for v in 96u8..100u8
        invariant
            pool@.len() == 28 + v - 96,
            forall|k: int| 0 <= k < 28 ==> pool@[k] == 100 + k,
            forall|k: int| 28 <= k < pool@.len() ==> pool@[k] == 68 + k,
    {
        pool.push(v);
    }
    proof {
        assert(pool@ =~= spec_dynamic_payload_types());
    }

    let mut fin_codecs: Vec<RtpCodecCapabilityFinalized> = Vec::new();
    proof {
        assert(mc.skip(0) =~= mc);
        assert(fin_codecs.deep_view() =~= Seq::<
            crate::rtp_parameters::RtpCodecCapabilityFinalizedV,
        >::empty());
    }

    let n = media_codecs.len();
    for i in 0..n
        invariant
            n == media_codecs@.len(),
            mc == media_codecs.deep_view(),
            sup == crate::supported_rtp_capabilities::spec_supported_codecs(),
            total == spec_generate_router_rtp_capabilities(mc),
            supported@.codecs == sup,
            supported@.header_extensions
                == crate::supported_rtp_capabilities::spec_supported_header_extensions(),
            supported@.fec_mechanisms == Seq::<Seq<char>>::empty(),
            spec_finalize_codecs(sup, mc.skip(i as int), pool@, fin_codecs.deep_view()) == total,
    {
        let ghost pool_in = pool@;
        let ghost acc_in = fin_codecs.deep_view();
        proof {
            assert(mc.skip(i as int).drop_first() =~= mc.skip(i + 1));
            assert(mc.skip(i as int)[0] == mc[i as int]);
            assert(media_codecs.deep_view()[i as int] == media_codecs[i as int].deep_view());
        }
        let media_codec = &media_codecs[i];

        if let Err(e) = validate_rtp_codec_capability(media_codec) {
            return Err(e);
        }

        let matched = find_supported_codec(&supported.codecs, media_codec.to_match());
        let codec = match matched {
            Some(codec) => codec,
            None => {
                return Err(
                    RtpCapabilitiesError::UnsupportedCodec { mime_type: media_codec.mime_type() },
                );
            },
        };
        let ghost m = codec@;

        let preferred_payload_type: u8 = match media_codec.preferred_payload_type() {
            Some(pt) => {
                pool = pool_remove(pool, pt);
                pt
            },
            None => {
                match codec.preferred_payload_type() {
                    Some(pt) => pt,
                    None => {
                        if pool.len() == 0 {
                            return Err(RtpCapabilitiesError::CannotAllocate);
                        }
                        pool.remove(0)
                    },
                }
            },
        };
        let ghost pool_sel = pool@;
        proof {
            if media_codec@.preferred_payload_type is None && m.preferred_payload_type is None {
                assert(preferred_payload_type == pool_in[0]);
                assert(pool_sel =~= pool_in.drop_first());
            }
        }

        let dup_count = fin_codecs.len();
        for k in 0..dup_count
            invariant
                dup_count == fin_codecs@.len(),
                acc_in == fin_codecs.deep_view(),
                forall|j: int|
                    0 <= j < k ==> #[trigger] fin_codecs.deep_view()[j].preferred_payload_type
                        != preferred_payload_type,
        {
            proof {
                assert(fin_codecs.deep_view()[k as int] == fin_codecs[k as int].deep_view());
            }
            if fin_codecs[k].preferred_payload_type() == preferred_payload_type {
                proof {
                    assert(exists|j: int|
                        0 <= j < acc_in.len() && #[trigger] acc_in[j].preferred_payload_type
                            == preferred_payload_type) by {
                        assert(acc_in[k as int].preferred_payload_type == preferred_payload_type);
                    }
                }
                return Err(
                    RtpCapabilitiesError::DuplicatedPreferredPayloadType(preferred_payload_type),
                );
            }
        }

        let mut merged = codec.parameters().clone();
        merged.extend_from(media_codec.parameters());

        let codec_finalized = match codec {
            RtpCodecCapability::Audio { mime_type, clock_rate, channels, rtcp_feedback, .. } => {
                RtpCodecCapabilityFinalized::Audio {
                    mime_type: *mime_type,
                    preferred_payload_type,
                    clock_rate: *clock_rate,
                    channels: *channels,
                    parameters: merged,
                    rtcp_feedback: crate::rtp_parameters::clone_feedback(rtcp_feedback),
                }
            },
            RtpCodecCapability::Video { mime_type, clock_rate, rtcp_feedback, .. } => {
                RtpCodecCapabilityFinalized::Video {
                    mime_type: *mime_type,
                    preferred_payload_type,
                    clock_rate: *clock_rate,
                    parameters: merged,
                    rtcp_feedback: crate::rtp_parameters::clone_feedback(rtcp_feedback),
                }
            },
        };
        proof {
            assert(codec_finalized@ =~= spec_finalized_codec(
                m,
                media_codec@,
                preferred_payload_type,
            ));
        }

        let is_video = matches!(codec_finalized, RtpCodecCapabilityFinalized::Video { .. });
        proof {
            assert(is_video == (m.mime_type is Video));
        }
        if is_video {
            if pool.len() == 0 {
                return Err(RtpCapabilitiesError::CannotAllocate);
            }
            let rtx_payload_type = pool.remove(0);
            proof {
                assert(rtx_payload_type == pool_sel[0]);
                assert(pool@ =~= pool_sel.drop_first());
            }
            let clock_rate = codec_finalized.clock_rate();
            let mut rtx_parameters = RtpCodecParametersParameters::new();
            rtx_parameters.insert(
                "apt",
                RtpCodecParametersParametersValue::Number(preferred_payload_type as u32),
            );
            let rtx_codec = RtpCodecCapabilityFinalized::Video {
                mime_type: MimeTypeVideo::Rtx,
                preferred_payload_type: rtx_payload_type,
                clock_rate,
                parameters: rtx_parameters,
                rtcp_feedback: Vec::new(),
            };
            proof {
                assert(rtx_codec@.parameters =~= spec_rtx_parameters(preferred_payload_type));
                assert(rtx_codec@ =~= spec_rtx_codec(
                    m.clock_rate,
                    preferred_payload_type,
                    pool_sel[0],
                ));
            }
            fin_codecs.push(codec_finalized);
            fin_codecs.push(rtx_codec);
        } else {
            fin_codecs.push(codec_finalized);
        }

        proof {
            let fin_v = spec_finalized_codec(m, mc[i as int], preferred_payload_type);
            if is_video {
                assert(fin_codecs.deep_view() =~= acc_in.push(fin_v).push(
                    spec_rtx_codec(m.clock_rate, preferred_payload_type, pool_sel[0]),
                ));
            } else {
                assert(fin_codecs.deep_view() =~= acc_in.push(fin_v));
            }
            assert(spec_finalize_step(sup, mc[i as int], pool_in, acc_in) == Ok::<
                (Seq<crate::rtp_parameters::RtpCodecCapabilityFinalizedV>, Seq<u8>),
                RtpCapabilitiesErrorV,
            >((fin_codecs.deep_view(), pool@)));
        }
    }
    proof {
        assert(mc.skip(n as int) =~= Seq::<crate::rtp_parameters::RtpCodecCapabilityV>::empty());
    }

    let caps = RtpCapabilitiesFinalized {
        codecs: fin_codecs,
        header_extensions: supported.header_extensions,
        fec_mechanisms: Vec::new(),
    };
    proof {
        assert(caps@.fec_mechanisms =~= Seq::<Seq<char>>::empty());
    }
    Ok(caps)
}



/// The `apt` parameter as a number, when present and integer-valued.
pub open spec fn spec_apt_number(ps: Seq<ParamPairV>) -> Option<u32> {
    match spec_param_get(ps, "apt"@) {
        Some(ParamValueV::Number(n)) => Some(n),
        _ => None,
    }
}

/// Reads the `apt` parameter as a number.
fn apt_number_of(ps: &RtpCodecParametersParameters) -> (r: Option<u32>)
    ensures
        r == spec_apt_number(ps@),
{
    match ps.get("apt") {
        Some(RtpCodecParametersParametersValue::Number(n)) => Some(*n),
        _ => None,
    }
}

/// The first finalized capability the codec matches strictly, if any.
pub open spec fn spec_find_cap(
    caps: Seq<crate::rtp_parameters::RtpCodecCapabilityFinalizedV>,
    c: CodecToMatchV,
) -> Option<crate::rtp_parameters::RtpCodecCapabilityFinalizedV>
    decreases caps.len(),
{
    if caps.len() == 0 {
        None
    } else if spec_codecs_do_match(c, caps[0].to_match(), true) {
        Some(caps[0])
    } else {
        spec_find_cap(caps.drop_first(), c)
    }
}

proof fn lemma_find_cap_at(
    caps: Seq<crate::rtp_parameters::RtpCodecCapabilityFinalizedV>,
    c: CodecToMatchV,
    i: int,
)
    requires
        0 <= i < caps.len(),
        spec_codecs_do_match(c, caps[i].to_match(), true),
        forall|j: int| 0 <= j < i ==> !spec_codecs_do_match(c, #[trigger] caps[j].to_match(), true),
    ensures
        spec_find_cap(caps, c) == Some(caps[i]),
    decreases caps.len(),
{
    if i > 0 {
        lemma_find_cap_at(caps.drop_first(), c, i - 1);
    }
}

proof fn lemma_find_cap_none(
    caps: Seq<crate::rtp_parameters::RtpCodecCapabilityFinalizedV>,
    c: CodecToMatchV,
)
    requires
        forall|j: int|
            0 <= j < caps.len() ==> !spec_codecs_do_match(c, #[trigger] caps[j].to_match(), true),
    ensures
        spec_find_cap(caps, c) is None,
    decreases caps.len(),
{
    if caps.len() > 0 {
        lemma_find_cap_none(caps.drop_first(), c);
    }
}

/// The first finalized capability matching the codec strictly.
fn find_cap_strict<'a>(
    caps: &'a Vec<RtpCodecCapabilityFinalized>,
    c: CodecToMatch<'_>,
) -> (r: Option<&'a RtpCodecCapabilityFinalized>)
    ensures
        match r {
            Some(m) => spec_find_cap(caps.deep_view(), c@) == Some(m@),
            None => spec_find_cap(caps.deep_view(), c@) is None,
        },
{
    let n = caps.len();
    for i in 0..n
        invariant
            n == caps@.len(),
            forall|j: int|
                0 <= j < i ==> !spec_codecs_do_match(
                    c@,
                    #[trigger] caps.deep_view()[j].to_match(),
                    true,
                ),
    {
        let m = &caps[i];
        proof {
            assert(caps.deep_view()[i as int] == caps[i as int].deep_view());
        }
        if match_codecs(c, m.to_match(), true).is_ok() {
            proof {
                lemma_find_cap_at(caps.deep_view(), c@, i as int);
            }
            return Some(m);
        }
    }
    proof {
        lemma_find_cap_none(caps.deep_view(), c@);
    }
    None
}

/// The first media mapping entry whose payload type equals `apt`, when
/// `apt` is present.
pub open spec fn spec_find_media_entry(media: Seq<RtpMappingCodec>, apt: Option<u32>) -> Option<
    RtpMappingCodec,
>
    decreases media.len(),
{
    if apt is None {
        None
    } else if media.len() == 0 {
        None
    } else if media[0].payload_type as u32 == apt->Some_0 {
        Some(media[0])
    } else {
        spec_find_media_entry(media.drop_first(), apt)
    }
}

proof fn lemma_find_media_entry_at(media: Seq<RtpMappingCodec>, apt: Option<u32>, i: int)
    requires
        apt is Some,
        0 <= i < media.len(),
        media[i].payload_type as u32 == apt->Some_0,
        forall|j: int| 0 <= j < i ==> #[trigger] media[j].payload_type as u32 != apt->Some_0,
    ensures
        spec_find_media_entry(media, apt) == Some(media[i]),
    decreases media.len(),
{
    if i > 0 {
        lemma_find_media_entry_at(media.drop_first(), apt, i - 1);
    }
}

proof fn lemma_find_media_entry_none(media: Seq<RtpMappingCodec>, apt: Option<u32>)
    requires
        apt is Some ==> forall|j: int|
            0 <= j < media.len() ==> #[trigger] media[j].payload_type as u32 != apt->Some_0,
    ensures
        spec_find_media_entry(media, apt) is None,
    decreases media.len(),
{
    if apt is Some && media.len() > 0 {
        lemma_find_media_entry_none(media.drop_first(), apt);
    }
}

/// The first media mapping entry whose payload type equals `apt`.
fn find_media_entry(media: &Vec<RtpMappingCodec>, apt: Option<u32>) -> (r: Option<RtpMappingCodec>)
    ensures
        r == spec_find_media_entry(media@, apt),
{
    let target = match apt {
        Some(t) => t,
        None => {
            proof {
                assert(spec_find_media_entry(media@, apt) is None);
            }
            return None;
        },
    };
    let n = media.len();
    for i in 0..n
        invariant
            n == media@.len(),
            apt == Some(target),
            forall|j: int| 0 <= j < i ==> #[trigger] media@[j].payload_type as u32 != target,
    {
        if media[i].payload_type as u32 == target {
            proof {
                lemma_find_media_entry_at(media@, apt, i as int);
            }
            return Some(media[i]);
        }
    }
    proof {
        lemma_find_media_entry_none(media@, apt);
    }
    None
}

/// The first RTX entry of the finalized capabilities whose `apt` points
/// at payload type `target`, if any.
pub open spec fn spec_find_cap_rtx(
    caps: Seq<crate::rtp_parameters::RtpCodecCapabilityFinalizedV>,
    target: u8,
) -> Option<crate::rtp_parameters::RtpCodecCapabilityFinalizedV>
    decreases caps.len(),
{
    if caps.len() == 0 {
        None
    } else if caps[0].mime_type.spec_is_rtx() && spec_apt_number(caps[0].parameters) == Some(
        target as u32,
    ) {
        Some(caps[0])
    } else {
        spec_find_cap_rtx(caps.drop_first(), target)
    }
}

proof fn lemma_find_cap_rtx_at(
    caps: Seq<crate::rtp_parameters::RtpCodecCapabilityFinalizedV>,
    target: u8,
    i: int,
)
    requires
        0 <= i < caps.len(),
        caps[i].mime_type.spec_is_rtx() && spec_apt_number(caps[i].parameters) == Some(
            target as u32,
        ),
        forall|j: int|
            0 <= j < i ==> !(#[trigger] caps[j].mime_type.spec_is_rtx() && spec_apt_number(
                caps[j].parameters,
            ) == Some(target as u32)),
    ensures
        spec_find_cap_rtx(caps, target) == Some(caps[i]),
    decreases caps.len(),
{
    if i > 0 {
        lemma_find_cap_rtx_at(caps.drop_first(), target, i - 1);
    }
}

proof fn lemma_find_cap_rtx_none(
    caps: Seq<crate::rtp_parameters::RtpCodecCapabilityFinalizedV>,
    target: u8,
)
    requires
        forall|j: int|
            0 <= j < caps.len() ==> !(#[trigger] caps[j].mime_type.spec_is_rtx() && spec_apt_number(
                caps[j].parameters,
            ) == Some(target as u32)),
    ensures
        spec_find_cap_rtx(caps, target) is None,
    decreases caps.len(),
{
    if caps.len() > 0 {
        lemma_find_cap_rtx_none(caps.drop_first(), target);
    }
}

/// The first RTX entry of the finalized capabilities whose `apt` points
/// at payload type `target`.
fn find_cap_rtx<'a>(caps: &'a Vec<RtpCodecCapabilityFinalized>, target: u8) -> (r: Option<
    &'a RtpCodecCapabilityFinalized,
>)
    ensures
        match r {
            Some(m) => spec_find_cap_rtx(caps.deep_view(), target) == Some(m@),
            None => spec_find_cap_rtx(caps.deep_view(), target) is None,
        },
{
    let n = caps.len();
    for i in 0..n
        invariant
            n == caps@.len(),
            forall|j: int|
                0 <= j < i ==> !(#[trigger] caps.deep_view()[j].mime_type.spec_is_rtx()
                    && spec_apt_number(caps.deep_view()[j].parameters) == Some(target as u32)),
    {
        let m = &caps[i];
        proof {
            assert(caps.deep_view()[i as int] == caps[i as int].deep_view());
        }
        if m.is_rtx() {
            match apt_number_of(m.parameters()) {
                Some(apt) => {
                    if apt == target as u32 {
                        proof {
                            lemma_find_cap_rtx_at(caps.deep_view(), target, i as int);
                        }
                        return Some(m);
                    }
                },
                None => {},
            }
        }
    }
    proof {
        lemma_find_cap_rtx_none(caps.deep_view(), target);
    }
    None
}

/// Mapping entries for the non-RTX codecs, in codec order: each maps
/// the producer's payload type to the matched capability's preferred
/// payload type; the first codec without a strict match aborts.
pub open spec fn spec_map_media_codecs(
    codecs: Seq<crate::rtp_parameters::RtpCodecParametersV>,
    caps: Seq<crate::rtp_parameters::RtpCodecCapabilityFinalizedV>,
) -> Result<Seq<RtpMappingCodec>, RtpParametersMappingError>
    decreases codecs.len(),
{
    if codecs.len() == 0 {
        Ok(Seq::empty())
    } else if codecs[0].mime_type.spec_is_rtx() {
        spec_map_media_codecs(codecs.drop_first(), caps)
    } else {
        match spec_find_cap(caps, codecs[0].to_match()) {
            None => Err(
                RtpParametersMappingError::UnsupportedCodec {
                    mime_type: codecs[0].mime_type,
                    payload_type: codecs[0].payload_type,
                },
            ),
            Some(cap) => match spec_map_media_codecs(codecs.drop_first(), caps) {
                Err(e) => Err(e),
                Ok(rest) => Ok(
                    seq![
                        RtpMappingCodec {
                            payload_type: codecs[0].payload_type,
                            mapped_payload_type: cap.preferred_payload_type,
                        },
                    ] + rest,
                ),
            },
        }
    }
}

/// Mapping entries for the RTX codecs, in codec order: each RTX codec
/// is paired through its `apt` with a media mapping entry, and mapped
/// to the capability RTX entry that points at the paired mapped
/// payload type.
pub open spec fn spec_map_rtx_codecs(
    codecs: Seq<crate::rtp_parameters::RtpCodecParametersV>,
    caps: Seq<crate::rtp_parameters::RtpCodecCapabilityFinalizedV>,
    media: Seq<RtpMappingCodec>,
) -> Result<Seq<RtpMappingCodec>, RtpParametersMappingError>
    decreases codecs.len(),
{
    if codecs.len() == 0 {
        Ok(Seq::empty())
    } else if !codecs[0].mime_type.spec_is_rtx() {
        spec_map_rtx_codecs(codecs.drop_first(), caps, media)
    } else {
        match spec_find_media_entry(media, spec_apt_number(codecs[0].parameters)) {
            None => Err(
                RtpParametersMappingError::MissingMediaCodecForRTX {
                    payload_type: codecs[0].payload_type,
                },
            ),
            Some(entry) => match spec_find_cap_rtx(caps, entry.mapped_payload_type) {
                None => Err(
                    RtpParametersMappingError::UnsupportedRTXCodec {
                        preferred_payload_type: entry.mapped_payload_type,
                    },
                ),
                Some(cap) => match spec_map_rtx_codecs(codecs.drop_first(), caps, media) {
                    Err(e) => Err(e),
                    Ok(rest) => Ok(
                        seq![
                            RtpMappingCodec {
                                payload_type: codecs[0].payload_type,
                                mapped_payload_type: cap.preferred_payload_type,
                            },
                        ] + rest,
                    ),
                },
            },
        }
    }
}

/// The codec part of a producer mapping: media entries first, then RTX
/// entries, each list in codec order.
pub open spec fn spec_producer_mapping_codecs(
    codecs: Seq<crate::rtp_parameters::RtpCodecParametersV>,
    caps: Seq<crate::rtp_parameters::RtpCodecCapabilityFinalizedV>,
) -> Result<Seq<RtpMappingCodec>, RtpParametersMappingError> {
    match spec_map_media_codecs(codecs, caps) {
        Err(e) => Err(e),
        Ok(media) => match spec_map_rtx_codecs(codecs, caps, media) {
            Err(e) => Err(e),
            Ok(rtx) => Ok(media + rtx),
        },
    }
}

/// Builds the mapping of a producer's payload types and SSRCs onto the
/// values the router uses internally. Every non-RTX codec is matched
/// strictly against the finalized capabilities; every RTX codec is
/// paired through its `apt` back-reference. Encodings are mapped onto a
/// fresh block of consecutive SSRCs starting at a random base.
#[verifier::loop_isolation(false)]
pub fn get_producer_rtp_parameters_mapping(
    rtp_parameters: &RtpParameters,
    rtp_capabilities: &RtpCapabilitiesFinalized,
) -> (r: Result<RtpMapping, RtpParametersMappingError>)
    requires
        rtp_parameters@.encodings.len() <= u32::MAX - crate::ssrc::SSRC_MAX,
    ensures
        match r {
            Ok(m) => {
                &&& spec_producer_mapping_codecs(rtp_parameters@.codecs, rtp_capabilities@.codecs)
                    == Ok::<_, RtpParametersMappingError>(m@.codecs)
                &&& m@.encodings.len() == rtp_parameters@.encodings.len()
                &&& forall|i: int|
                    0 <= i < m@.encodings.len() ==> #[trigger] m@.encodings[i] == (
                    RtpMappingEncodingV {
                        ssrc: rtp_parameters@.encodings[i].ssrc,
                        rid: rtp_parameters@.encodings[i].rid,
                        scalability_mode: rtp_parameters@.encodings[i].scalability_mode,
                        mapped_ssrc: (m@.encodings[0].mapped_ssrc + i) as u32,
                    })
                &&& (m@.encodings.len() > 0 ==> crate::ssrc::SSRC_MIN <= m@.encodings[0].mapped_ssrc
                    < crate::ssrc::SSRC_MAX)
            },
            Err(e) => spec_producer_mapping_codecs(rtp_parameters@.codecs, rtp_capabilities@.codecs)
                == Err::<Seq<RtpMappingCodec>, _>(e),
        },
{
    let ghost pcodecs = rtp_parameters@.codecs;
    let ghost fcaps = rtp_capabilities@.codecs;

    // Match non-RTX codecs to capability codecs.
    let mut media_entries: Vec<RtpMappingCodec> = Vec::new();
    let n = rtp_parameters.codecs.len();
    proof {
        assert(pcodecs.skip(0) =~= pcodecs);
    }
    for i in 0..n
        invariant
            spec_map_media_codecs(pcodecs, fcaps) == (match spec_map_media_codecs(
                pcodecs.skip(i as int),
                fcaps,
            ) {
                Ok(rest) => Ok::<_, RtpParametersMappingError>(media_entries@ + rest),
                Err(e) => Err(e),
            }),
    {
        proof {
            assert(pcodecs.skip(i as int).drop_first() =~= pcodecs.skip(i + 1));
            assert(pcodecs.skip(i as int)[0] == pcodecs[i as int]);
            assert(rtp_parameters.codecs.deep_view()[i as int] == rtp_parameters.codecs[
                i as int
            ].deep_view());
        }
        let codec = &rtp_parameters.codecs[i];
        if !codec.is_rtx() {
            match find_cap_strict(&rtp_capabilities.codecs, codec.to_match()) {
                Some(cap) => {
                    let entry = RtpMappingCodec {
                        payload_type: codec.payload_type(),
                        mapped_payload_type: cap.preferred_payload_type(),
                    };
                    let ghost old_media = media_entries@;
                    media_entries.push(entry);
                    proof {
                        assert forall|rest: Seq<RtpMappingCodec>|
                            old_media + (seq![entry] + rest) =~= media_entries@ + rest by {}
                    }
                },
                None => {
                    return Err(
                        RtpParametersMappingError::UnsupportedCodec {
                            mime_type: codec.mime_type(),
                            payload_type: codec.payload_type(),
                        },
                    );
                },
            }
        }
    }
    proof {
        assert(pcodecs.skip(n as int) =~= Seq::<crate::rtp_parameters::RtpCodecParametersV>::empty());
        assert(media_entries@ + Seq::<RtpMappingCodec>::empty() =~= media_entries@);
        assert(spec_map_media_codecs(pcodecs, fcaps) == Ok::<_, RtpParametersMappingError>(
            media_entries@,
        ));
    }

    // Match RTX codecs to capability RTX codecs.
    let mut rtx_entries: Vec<RtpMappingCodec> = Vec::new();
    for i in 0..n
        invariant
            spec_map_rtx_codecs(pcodecs, fcaps, media_entries@) == (match spec_map_rtx_codecs(
                pcodecs.skip(i as int),
                fcaps,
                media_entries@,
            ) {
                Ok(rest) => Ok::<_, RtpParametersMappingError>(rtx_entries@ + rest),
                Err(e) => Err(e),
            }),
    {
        proof {
            assert(pcodecs.skip(i as int).drop_first() =~= pcodecs.skip(i + 1));
            assert(pcodecs.skip(i as int)[0] == pcodecs[i as int]);
            assert(rtp_parameters.codecs.deep_view()[i as int] == rtp_parameters.codecs[
                i as int
            ].deep_view());
        }
        let codec = &rtp_parameters.codecs[i];
        if codec.is_rtx() {
            let apt = apt_number_of(codec.parameters());
            match find_media_entry(&media_entries, apt) {
                Some(media_entry) => {
                    match find_cap_rtx(&rtp_capabilities.codecs, media_entry.mapped_payload_type) {
                        Some(cap) => {
                            let entry = RtpMappingCodec {
                                payload_type: codec.payload_type(),
                                mapped_payload_type: cap.preferred_payload_type(),
                            };
                            let ghost old_rtx = rtx_entries@;
                            rtx_entries.push(entry);
                            proof {
                                assert forall|rest: Seq<RtpMappingCodec>|
                                    old_rtx + (seq![entry] + rest) =~= rtx_entries@ + rest by {}
                            }
                        },
                        None => {
                            return Err(
                                RtpParametersMappingError::UnsupportedRTXCodec {
                                    preferred_payload_type: media_entry.mapped_payload_type,
                                },
                            );
                        },
                    }
                },
                None => {
                    return Err(
                        RtpParametersMappingError::MissingMediaCodecForRTX {
                            payload_type: codec.payload_type(),
                        },
                    );
                },
            }
        }
    }
    proof {
        assert(spec_map_rtx_codecs(pcodecs, fcaps, media_entries@) == Ok::<
            _,
            RtpParametersMappingError,
        >(rtx_entries@));
    }

    let ghost rtx_part = rtx_entries@;
    let mut mapping_codecs = media_entries;
    let ghost media_part = mapping_codecs@;
    mapping_codecs.append(&mut rtx_entries);
    proof {
        assert(mapping_codecs@ == media_part + rtx_part);
    }

    // Map encodings onto a fresh block of consecutive SSRCs.
    let base: u32 = crate::ssrc::generate_ssrc();
    let mut mapping_encodings: Vec<RtpMappingEncoding> = Vec::new();
    let ne = rtp_parameters.encodings.len();
    for i in 0..ne
        invariant
            mapping_encodings@.len() == i,
            forall|k: int|
                0 <= k < i ==> #[trigger] mapping_encodings.deep_view()[k] == (
                RtpMappingEncodingV {
                    ssrc: rtp_parameters@.encodings[k].ssrc,
                    rid: rtp_parameters@.encodings[k].rid,
                    scalability_mode: rtp_parameters@.encodings[k].scalability_mode,
                    mapped_ssrc: (base + k) as u32,
                }),
    {
        proof {
            assert(rtp_parameters.encodings.deep_view()[i as int] == rtp_parameters.encodings[
                i as int
            ].deep_view());
        }
        let encoding = &rtp_parameters.encodings[i];
        let mapped_ssrc = base + (i as u32);
        let ghost prev_vec = mapping_encodings@;
        let ghost prev_dv = mapping_encodings.deep_view();
        mapping_encodings.push(
            RtpMappingEncoding {
                ssrc: encoding.ssrc,
                rid: crate::rtp_parameters::clone_opt_string(&encoding.rid),
                scalability_mode: crate::rtp_parameters::clone_opt_string(
                    &encoding.scalability_mode,
                ),
                mapped_ssrc,
            },
        );
        proof {
            let dv = mapping_encodings.deep_view();
            assert forall|k: int| 0 <= k < i implies #[trigger] dv[k] == prev_dv[k] by {
                assert(dv[k] == mapping_encodings@[k].deep_view());
                assert(mapping_encodings@[k] == prev_vec[k]);
                assert(prev_dv[k] == prev_vec[k].deep_view());
            }
            assert(dv[i as int] == mapping_encodings@[i as int].deep_view());
            assert(dv[i as int] =~= (RtpMappingEncodingV {
                ssrc: rtp_parameters@.encodings[i as int].ssrc,
                rid: rtp_parameters@.encodings[i as int].rid,
                scalability_mode: rtp_parameters@.encodings[i as int].scalability_mode,
                mapped_ssrc: (base + i) as u32,
            }));
        }
    }

    let mapping = RtpMapping { codecs: mapping_codecs, encodings: mapping_encodings };
    proof {
        if mapping@.encodings.len() > 0 {
            assert(mapping@.encodings[0].mapped_ssrc == base);
        }
    }
    Ok(mapping)
}



/// The mapped payload type recorded for producer payload type `pt`.
pub open spec fn spec_find_map_pt(map_codecs: Seq<RtpMappingCodec>, pt: u8) -> Option<u8>
    decreases map_codecs.len(),
{
    if map_codecs.len() == 0 {
        None
    } else if map_codecs[0].payload_type == pt {
        Some(map_codecs[0].mapped_payload_type)
    } else {
        spec_find_map_pt(map_codecs.drop_first(), pt)
    }
}

proof fn lemma_find_map_pt_at(map_codecs: Seq<RtpMappingCodec>, pt: u8, i: int)
    requires
        0 <= i < map_codecs.len(),
        map_codecs[i].payload_type == pt,
        forall|j: int| 0 <= j < i ==> #[trigger] map_codecs[j].payload_type != pt,
    ensures
        spec_find_map_pt(map_codecs, pt) == Some(map_codecs[i].mapped_payload_type),
    decreases map_codecs.len(),
{
    if i > 0 {
        lemma_find_map_pt_at(map_codecs.drop_first(), pt, i - 1);
    }
}

proof fn lemma_find_map_pt_none(map_codecs: Seq<RtpMappingCodec>, pt: u8)
    requires
        forall|j: int| 0 <= j < map_codecs.len() ==> #[trigger] map_codecs[j].payload_type != pt,
    ensures
        spec_find_map_pt(map_codecs, pt) is None,
    decreases map_codecs.len(),
{
    if map_codecs.len() > 0 {
        lemma_find_map_pt_none(map_codecs.drop_first(), pt);
    }
}

/// The mapped payload type recorded for producer payload type `pt`.
fn find_map_pt(map_codecs: &Vec<RtpMappingCodec>, pt: u8) -> (r: Option<u8>)
    ensures
        r == spec_find_map_pt(map_codecs@, pt),
{
    let n = map_codecs.len();
    for i in 0..n
        invariant
            n == map_codecs@.len(),
            forall|j: int| 0 <= j < i ==> #[trigger] map_codecs@[j].payload_type != pt,
    {
        if map_codecs[i].payload_type == pt {
            proof {
                lemma_find_map_pt_at(map_codecs@, pt, i as int);
            }
            return Some(map_codecs[i].mapped_payload_type);
        }
    }
    proof {
        lemma_find_map_pt_none(map_codecs@, pt);
    }
    None
}

/// The first finalized capability with preferred payload type `pt`.
pub open spec fn spec_find_cap_by_pt(
    caps: Seq<crate::rtp_parameters::RtpCodecCapabilityFinalizedV>,
    pt: u8,
) -> Option<crate::rtp_parameters::RtpCodecCapabilityFinalizedV>
    decreases caps.len(),
{
    if caps.len() == 0 {
        None
    } else if caps[0].preferred_payload_type == pt {
        Some(caps[0])
    } else {
        spec_find_cap_by_pt(caps.drop_first(), pt)
    }
}

proof fn lemma_find_cap_by_pt_at(
    caps: Seq<crate::rtp_parameters::RtpCodecCapabilityFinalizedV>,
    pt: u8,
    i: int,
)
    requires
        0 <= i < caps.len(),
        caps[i].preferred_payload_type == pt,
        forall|j: int| 0 <= j < i ==> #[trigger] caps[j].preferred_payload_type != pt,
    ensures
        spec_find_cap_by_pt(caps, pt) == Some(caps[i]),
    decreases caps.len(),
{
    if i > 0 {
        lemma_find_cap_by_pt_at(caps.drop_first(), pt, i - 1);
    }
}

proof fn lemma_find_cap_by_pt_none(
    caps: Seq<crate::rtp_parameters::RtpCodecCapabilityFinalizedV>,
    pt: u8,
)
    requires
        forall|j: int| 0 <= j < caps.len() ==> #[trigger] caps[j].preferred_payload_type != pt,
    ensures
        spec_find_cap_by_pt(caps, pt) is None,
    decreases caps.len(),
{
    if caps.len() > 0 {
        lemma_find_cap_by_pt_none(caps.drop_first(), pt);
    }
}

/// The first finalized capability with preferred payload type `pt`.
fn find_cap_by_pt<'a>(caps: &'a Vec<RtpCodecCapabilityFinalized>, pt: u8) -> (r: Option<
    &'a RtpCodecCapabilityFinalized,
>)
    ensures
        match r {
            Some(m) => spec_find_cap_by_pt(caps.deep_view(), pt) == Some(m@),
            None => spec_find_cap_by_pt(caps.deep_view(), pt) is None,
        },
{
    let n = caps.len();
    for i in 0..n
        invariant
            n == caps@.len(),
            forall|j: int|
                0 <= j < i ==> #[trigger] caps.deep_view()[j].preferred_payload_type != pt,
    {
        proof {
            assert(caps.deep_view()[i as int] == caps[i as int].deep_view());
        }
        if caps[i].preferred_payload_type() == pt {
            proof {
                lemma_find_cap_by_pt_at(caps.deep_view(), pt, i as int);
            }
            return Some(&caps[i]);
        }
    }
    proof {
        lemma_find_cap_by_pt_none(caps.deep_view(), pt);
    }
    None
}

/// Concrete codec parameters carrying a finalized capability's
/// identity and feedback, with the given parameter list.
pub open spec fn spec_codec_from_cap(
    cap: crate::rtp_parameters::RtpCodecCapabilityFinalizedV,
    parameters: Seq<ParamPairV>,
) -> crate::rtp_parameters::RtpCodecParametersV {
    crate::rtp_parameters::RtpCodecParametersV {
        mime_type: cap.mime_type,
        payload_type: cap.preferred_payload_type,
        clock_rate: cap.clock_rate,
        channels: cap.channels,
        parameters,
        rtcp_feedback: cap.rtcp_feedback,
    }
}

/// The consumable codec list: for each non-RTX producer codec, the
/// mapped capability's identity with the producer's parameters kept
/// verbatim, followed by the capability RTX entry that points at it,
/// when there is one.
pub open spec fn spec_consumable_codecs(
    codecs: Seq<crate::rtp_parameters::RtpCodecParametersV>,
    caps: Seq<crate::rtp_parameters::RtpCodecCapabilityFinalizedV>,
    map_codecs: Seq<RtpMappingCodec>,
) -> Seq<crate::rtp_parameters::RtpCodecParametersV>
    decreases codecs.len(),
{
    if codecs.len() == 0 {
        Seq::empty()
    } else if codecs[0].mime_type.spec_is_rtx() {
        spec_consumable_codecs(codecs.drop_first(), caps, map_codecs)
    } else {
        let pt = spec_find_map_pt(map_codecs, codecs[0].payload_type)->Some_0;
        let cap = spec_find_cap_by_pt(caps, pt)->Some_0;
        let consumable = spec_codec_from_cap(cap, codecs[0].parameters);
        let rest = spec_consumable_codecs(codecs.drop_first(), caps, map_codecs);
        match spec_find_cap_rtx(caps, consumable.payload_type) {
            Some(rtx_cap) => seq![consumable, spec_codec_from_cap(rtx_cap, rtx_cap.parameters)]
                + rest,
            None => seq![consumable] + rest,
        }
    }
}

/// The consumable header extensions: every capability extension of the
/// stream's kind usable for sending, reduced to `(uri, id, encrypt)`.
pub open spec fn spec_consumable_header_extensions(
    exts: Seq<RtpHeaderExtension>,
    kind: MediaKind,
) -> Seq<RtpHeaderExtensionParameters>
    decreases exts.len(),
{
    if exts.len() == 0 {
        Seq::empty()
    } else {
        let rest = spec_consumable_header_extensions(exts.drop_first(), kind);
        if exts[0].kind == Some(kind) && (exts[0].direction
            == crate::rtp_parameters::RtpHeaderExtensionDirection::SendRecv || exts[0].direction
            == crate::rtp_parameters::RtpHeaderExtensionDirection::SendOnly) {
            seq![
                RtpHeaderExtensionParameters {
                    uri: exts[0].uri,
                    id: exts[0].preferred_id,
                    encrypt: exts[0].preferred_encrypt,
                },
            ] + rest
        } else {
            rest
        }
    }
}

/// One consumable encoding: the producer encoding with `rid`, `rtx`
/// and `codec_payload_type` cleared and the mapped SSRC set.
pub open spec fn spec_consumable_encoding(
    e: crate::rtp_parameters::RtpEncodingParametersV,
    mapped_ssrc: u32,
) -> crate::rtp_parameters::RtpEncodingParametersV {
    crate::rtp_parameters::RtpEncodingParametersV {
        ssrc: Some(mapped_ssrc),
        rid: None,
        codec_payload_type: None,
        rtx: None,
        dtx: e.dtx,
        scalability_mode: e.scalability_mode,
        max_bitrate: e.max_bitrate,
    }
}

/// Builds the router-internal ("consumable") RTP parameters of a
/// producer: codecs remapped onto the finalized capabilities, header
/// extensions reduced to the sendable ones of the stream's kind,
/// encodings remapped onto the mapped SSRCs, and RTCP set to
/// reduced-size muxed form.
///
/// The mapping and capabilities must cover every non-RTX producer
/// codec, as the mapping builder guarantees for its own output.
#[verifier::loop_isolation(false)]
pub fn get_consumable_rtp_parameters(
    kind: MediaKind,
    params: &RtpParameters,
    caps: &RtpCapabilitiesFinalized,
    rtp_mapping: &RtpMapping,
) -> (r: RtpParameters)
    requires
        forall|i: int|
            0 <= i < params@.codecs.len() && !(#[trigger] params@.codecs[i].mime_type.spec_is_rtx())
                ==> {
                &&& spec_find_map_pt(rtp_mapping@.codecs, params@.codecs[i].payload_type) is Some
                &&& spec_find_cap_by_pt(
                    caps@.codecs,
                    spec_find_map_pt(rtp_mapping@.codecs, params@.codecs[i].payload_type)->Some_0,
                ) is Some
            },
    ensures
        r@.mid is None,
        r@.codecs == spec_consumable_codecs(params@.codecs, caps@.codecs, rtp_mapping@.codecs),
        r@.header_extensions == spec_consumable_header_extensions(caps@.header_extensions, kind),
        r@.encodings.len() == vstd::math::min(
            params@.encodings.len() as int,
            rtp_mapping@.encodings.len() as int,
        ),
        rtp_mapping@.encodings.len() == params@.encodings.len() ==> r@.encodings.len()
            == params@.encodings.len(),
        forall|i: int|
            0 <= i < r@.encodings.len() ==> #[trigger] r@.encodings[i] == spec_consumable_encoding(
                params@.encodings[i],
                rtp_mapping@.encodings[i].mapped_ssrc,
            ),
        r@.rtcp == (crate::rtp_parameters::RtcpParametersV {
            cname: params@.rtcp.cname,
            reduced_size: true,
            mux: Some(true),
        }),
{
    let ghost pcodecs = params@.codecs;
    let ghost fcaps = caps@.codecs;
    let ghost mcodecs = rtp_mapping@.codecs;

    let mut consumable_codecs: Vec<RtpCodecParameters> = Vec::new();
    let n = params.codecs.len();
    proof {
        assert(pcodecs.skip(0) =~= pcodecs);
    }
    for i in 0..n
        invariant
            consumable_codecs.deep_view() + spec_consumable_codecs(
                pcodecs.skip(i as int),
                fcaps,
                mcodecs,
            ) =~= spec_consumable_codecs(pcodecs, fcaps, mcodecs),
    {
        proof {
            assert(pcodecs.skip(i as int).drop_first() =~= pcodecs.skip(i + 1));
            assert(pcodecs.skip(i as int)[0] == pcodecs[i as int]);
            assert(params.codecs.deep_view()[i as int] == params.codecs[i as int].deep_view());
        }
        let codec = &params.codecs[i];
        if !codec.is_rtx() {
            let mapped_pt = match find_map_pt(&rtp_mapping.codecs, codec.payload_type()) {
                Some(pt) => pt,
                None => {
                    proof {
                        assert(false);
                    }
                    vstd::pervasive::unreached()
                },
            };
            let cap = match find_cap_by_pt(&caps.codecs, mapped_pt) {
                Some(cap) => cap,
                None => {
                    proof {
                        assert(false);
                    }
                    vstd::pervasive::unreached()
                },
            };
            let consumable_codec = match cap {
                RtpCodecCapabilityFinalized::Audio {
                    mime_type,
                    preferred_payload_type,
                    clock_rate,
                    channels,
                    rtcp_feedback,
                    ..
                } => RtpCodecParameters::Audio {
                    mime_type: *mime_type,
                    payload_type: *preferred_payload_type,
                    clock_rate: *clock_rate,
                    channels: *channels,
                    parameters: codec.parameters().clone(),
                    rtcp_feedback: crate::rtp_parameters::clone_feedback(rtcp_feedback),
                },
                RtpCodecCapabilityFinalized::Video {
                    mime_type,
                    preferred_payload_type,
                    clock_rate,
                    rtcp_feedback,
                    ..
                } => RtpCodecParameters::Video {
                    mime_type: *mime_type,
                    payload_type: *preferred_payload_type,
                    clock_rate: *clock_rate,
                    parameters: codec.parameters().clone(),
                    rtcp_feedback: crate::rtp_parameters::clone_feedback(rtcp_feedback),
                },
            };
            proof {
                assert(consumable_codec@ =~= spec_codec_from_cap(cap@, pcodecs[i as int].parameters));
            }
            let ghost old_dv = consumable_codecs.deep_view();
            match find_cap_rtx(&caps.codecs, consumable_codec.payload_type()) {
                Some(rtx_cap) => {
                    let consumable_rtx_codec = match rtx_cap {
                        RtpCodecCapabilityFinalized::Audio {
                            mime_type,
                            preferred_payload_type,
                            clock_rate,
                            channels,
                            parameters,
                            rtcp_feedback,
                        } => RtpCodecParameters::Audio {
                            mime_type: *mime_type,
                            payload_type: *preferred_payload_type,
                            clock_rate: *clock_rate,
                            channels: *channels,
                            parameters: parameters.clone(),
                            rtcp_feedback: crate::rtp_parameters::clone_feedback(rtcp_feedback),
                        },
                        RtpCodecCapabilityFinalized::Video {
                            mime_type,
                            preferred_payload_type,
                            clock_rate,
                            parameters,
                            rtcp_feedback,
                        } => RtpCodecParameters::Video {
                            mime_type: *mime_type,
                            payload_type: *preferred_payload_type,
                            clock_rate: *clock_rate,
                            parameters: parameters.clone(),
                            rtcp_feedback: crate::rtp_parameters::clone_feedback(rtcp_feedback),
                        },
                    };
                    proof {
                        assert(consumable_rtx_codec@ =~= spec_codec_from_cap(
                            rtx_cap@,
                            rtx_cap@.parameters,
                        ));
                    }
                    consumable_codecs.push(consumable_codec);
                    consumable_codecs.push(consumable_rtx_codec);
                    proof {
                        assert(consumable_codecs.deep_view() =~= old_dv.push(
                            spec_codec_from_cap(cap@, pcodecs[i as int].parameters),
                        ).push(spec_codec_from_cap(rtx_cap@, rtx_cap@.parameters)));
                    }
                },
                None => {
                    consumable_codecs.push(consumable_codec);
                    proof {
                        assert(consumable_codecs.deep_view() =~= old_dv.push(
                            spec_codec_from_cap(cap@, pcodecs[i as int].parameters),
                        ));
                    }
                },
            }
            proof {
                assert(consumable_codecs.deep_view() + spec_consumable_codecs(
                    pcodecs.skip(i + 1),
                    fcaps,
                    mcodecs,
                ) =~= spec_consumable_codecs(pcodecs, fcaps, mcodecs));
            }
        }
    }
    proof {
        assert(pcodecs.skip(n as int) =~= Seq::<crate::rtp_parameters::RtpCodecParametersV>::empty());
        assert(consumable_codecs.deep_view() =~= spec_consumable_codecs(pcodecs, fcaps, mcodecs));
    }

    let mut consumable_exts: Vec<RtpHeaderExtensionParameters> = Vec::new();
    let ghost cexts = caps@.header_extensions;
    let ne = caps.header_extensions.len();
    proof {
        assert(cexts.skip(0) =~= cexts);
    }
    for i in 0..ne
        invariant
            consumable_exts@ + spec_consumable_header_extensions(cexts.skip(i as int), kind)
                =~= spec_consumable_header_extensions(cexts, kind),
    {
        proof {
            assert(cexts.skip(i as int).drop_first() =~= cexts.skip(i + 1));
            assert(cexts.skip(i as int)[0] == cexts[i as int]);
        }
        let cap_ext = &caps.header_extensions[i];
        let kind_matches = match cap_ext.kind {
            Some(k) => k == kind,
            None => false,
        };
        let direction_ok = matches!(
            cap_ext.direction,
            crate::rtp_parameters::RtpHeaderExtensionDirection::SendRecv
                | crate::rtp_parameters::RtpHeaderExtensionDirection::SendOnly
        );
        if kind_matches && direction_ok {
            consumable_exts.push(
                RtpHeaderExtensionParameters {
                    uri: cap_ext.uri,
                    id: cap_ext.preferred_id,
                    encrypt: cap_ext.preferred_encrypt,
                },
            );
        }
    }
    proof {
        assert(cexts.skip(ne as int) =~= Seq::<RtpHeaderExtension>::empty());
        assert(consumable_exts@ =~= spec_consumable_header_extensions(cexts, kind));
    }

    let mut consumable_encodings: Vec<RtpEncodingParameters> = Vec::new();
    let count = if params.encodings.len() < rtp_mapping.encodings.len() {
        params.encodings.len()
    } else {
        rtp_mapping.encodings.len()
    };
    for i in 0..count
        invariant
            consumable_encodings@.len() == i,
            forall|k: int|
                0 <= k < i ==> #[trigger] consumable_encodings.deep_view()[k]
                    == spec_consumable_encoding(
                    params@.encodings[k],
                    rtp_mapping@.encodings[k].mapped_ssrc,
                ),
    {
        proof {
            assert(params.encodings.deep_view()[i as int] == params.encodings[
                i as int
            ].deep_view());
            assert(rtp_mapping.encodings.deep_view()[i as int] == rtp_mapping.encodings[
                i as int
            ].deep_view());
        }
        let encoding = &params.encodings[i];
        let mapped_ssrc = rtp_mapping.encodings[i].mapped_ssrc;
        let ghost prev_vec = consumable_encodings@;
        let ghost prev_dv = consumable_encodings.deep_view();
        consumable_encodings.push(
            RtpEncodingParameters {
                ssrc: Some(mapped_ssrc),
                rid: None,
                codec_payload_type: None,
                rtx: None,
                dtx: encoding.dtx,
                scalability_mode: crate::rtp_parameters::clone_opt_string(
                    &encoding.scalability_mode,
                ),
                max_bitrate: encoding.max_bitrate,
            },
        );
        proof {
            let dv = consumable_encodings.deep_view();
            assert forall|k: int| 0 <= k < i implies #[trigger] dv[k] == prev_dv[k] by {
                assert(dv[k] == consumable_encodings@[k].deep_view());
                assert(consumable_encodings@[k] == prev_vec[k]);
                assert(prev_dv[k] == prev_vec[k].deep_view());
            }
            assert(dv[i as int] == consumable_encodings@[i as int].deep_view());
            assert(dv[i as int] =~= spec_consumable_encoding(
                params@.encodings[i as int],
                rtp_mapping@.encodings[i as int].mapped_ssrc,
            ));
        }
    }

    let consumable_params = RtpParameters {
        mid: None,
        codecs: consumable_codecs,
        header_extensions: consumable_exts,
        encodings: consumable_encodings,
        rtcp: crate::rtp_parameters::RtcpParameters {
            cname: crate::rtp_parameters::clone_opt_string(&params.rtcp.cname),
            reduced_size: true,
            mux: Some(true),
        },
    };
    consumable_params
}



/// Whether some peer capability matches the codec strictly.
pub open spec fn spec_some_cap_matches(
    caps: Seq<crate::rtp_parameters::RtpCodecCapabilityV>,
    codec: crate::rtp_parameters::RtpCodecParametersV,
) -> bool {
    exists|j: int|
        0 <= j < caps.len() && spec_codecs_do_match(
            #[trigger] caps[j].to_match(),
            codec.to_match(),
            true,
        )
}

/// The first consumable codec some peer capability matches strictly.
pub open spec fn spec_first_matching_codec(
    codecs: Seq<crate::rtp_parameters::RtpCodecParametersV>,
    caps: Seq<crate::rtp_parameters::RtpCodecCapabilityV>,
) -> Option<crate::rtp_parameters::RtpCodecParametersV>
    decreases codecs.len(),
{
    if codecs.len() == 0 {
        None
    } else if spec_some_cap_matches(caps, codecs[0]) {
        Some(codecs[0])
    } else {
        spec_first_matching_codec(codecs.drop_first(), caps)
    }
}

/// Whether the peer can consume the consumable parameters: some codec
/// matches, and the first matching codec is a media codec.
pub open spec fn spec_can_consume(
    codecs: Seq<crate::rtp_parameters::RtpCodecParametersV>,
    caps: Seq<crate::rtp_parameters::RtpCodecCapabilityV>,
) -> bool {
    match spec_first_matching_codec(codecs, caps) {
        Some(c) => !c.mime_type.spec_is_rtx(),
        None => false,
    }
}

proof fn lemma_first_matching_codec_at(
    codecs: Seq<crate::rtp_parameters::RtpCodecParametersV>,
    caps: Seq<crate::rtp_parameters::RtpCodecCapabilityV>,
    i: int,
)
    requires
        0 <= i < codecs.len(),
        spec_some_cap_matches(caps, codecs[i]),
        forall|j: int| 0 <= j < i ==> !spec_some_cap_matches(caps, #[trigger] codecs[j]),
    ensures
        spec_first_matching_codec(codecs, caps) == Some(codecs[i]),
    decreases codecs.len(),
{
    if i > 0 {
        lemma_first_matching_codec_at(codecs.drop_first(), caps, i - 1);
    }
}

proof fn lemma_first_matching_codec_none(
    codecs: Seq<crate::rtp_parameters::RtpCodecParametersV>,
    caps: Seq<crate::rtp_parameters::RtpCodecCapabilityV>,
)
    requires
        forall|j: int| 0 <= j < codecs.len() ==> !spec_some_cap_matches(caps, #[trigger] codecs[j]),
    ensures
        spec_first_matching_codec(codecs, caps) is None,
    decreases codecs.len(),
{
    if codecs.len() > 0 {
        lemma_first_matching_codec_none(codecs.drop_first(), caps);
    }
}

/// Whether some capability of `caps` matches `codec` strictly.
#[verifier::loop_isolation(false)]
fn some_cap_matches(caps: &Vec<RtpCodecCapability>, codec: &RtpCodecParameters) -> (r: bool)
    ensures
        r == spec_some_cap_matches(caps.deep_view(), codec@),
{
    let n = caps.len();
    for j in 0..n
        invariant
            forall|k: int|
                0 <= k < j ==> !spec_codecs_do_match(
                    #[trigger] caps.deep_view()[k].to_match(),
                    codec@.to_match(),
                    true,
                ),
    {
        proof {
            assert(caps.deep_view()[j as int] == caps[j as int].deep_view());
        }
        if match_codecs(caps[j].to_match(), codec.to_match(), true).is_ok() {
            return true;
        }
    }
    false
}

/// Decides whether a peer with the given RTP capabilities can consume
/// a producer whose consumable parameters are given: the capabilities
/// must validate, and the first consumable codec the peer supports
/// must be a media codec.
#[verifier::loop_isolation(false)]
pub fn can_consume(consumable_params: &RtpParameters, caps: &RtpCapabilities) -> (r: Result<
    bool,
    RtpCapabilitiesError,
>)
    ensures
        match r {
            Ok(b) => {
                &&& spec_caps_apt_error(caps@.codecs) is None
                &&& b == spec_can_consume(consumable_params@.codecs, caps@.codecs)
            },
            Err(e) => {
                &&& spec_caps_apt_error(caps@.codecs) is Some
                &&& e@ == RtpCapabilitiesErrorV::InvalidAptParameter(
                    spec_caps_apt_error(caps@.codecs)->Some_0,
                )
            },
        },
{
    if let Err(e) = validate_rtp_capabilities(caps) {
        return Err(e);
    }

    let n = consumable_params.codecs.len();
    for i in 0..n
        invariant
            forall|j: int|
                0 <= j < i ==> !spec_some_cap_matches(
                    caps@.codecs,
                    #[trigger] consumable_params@.codecs[j],
                ),
    {
        proof {
            assert(consumable_params.codecs.deep_view()[i as int] == consumable_params.codecs[
                i as int
            ].deep_view());
        }
        let codec = &consumable_params.codecs[i];
        if some_cap_matches(&caps.codecs, codec) {
            proof {
                lemma_first_matching_codec_at(
                    consumable_params@.codecs,
                    caps@.codecs,
                    i as int,
                );
            }
            return Ok(!codec.is_rtx());
        }
    }
    proof {
        lemma_first_matching_codec_none(consumable_params@.codecs, caps@.codecs);
    }
    Ok(false)
}

/// The feedback a pipe consumer codec keeps: `nack-pli` and `ccm-fir`
/// always, `nack` only when RTX is enabled.
pub open spec fn spec_pipe_feedback(fb: Seq<RtcpFeedback>, enable_rtx: bool) -> Seq<RtcpFeedback>
    decreases fb.len(),
{
    if fb.len() == 0 {
        Seq::empty()
    } else {
        let rest = spec_pipe_feedback(fb.drop_first(), enable_rtx);
        if fb[0] == RtcpFeedback::NackPli || fb[0] == RtcpFeedback::CcmFir || (enable_rtx && fb[0]
            == RtcpFeedback::Nack) {
            seq![fb[0]] + rest
        } else {
            rest
        }
    }
}

/// The codecs of a pipe consumer: RTX codecs dropped unless RTX is
/// enabled, and every feedback list reduced to the pipe set.
pub open spec fn spec_pipe_codecs(
    codecs: Seq<crate::rtp_parameters::RtpCodecParametersV>,
    enable_rtx: bool,
) -> Seq<crate::rtp_parameters::RtpCodecParametersV>
    decreases codecs.len(),
{
    if codecs.len() == 0 {
        Seq::empty()
    } else {
        let rest = spec_pipe_codecs(codecs.drop_first(), enable_rtx);
        if !enable_rtx && codecs[0].mime_type.spec_is_rtx() {
            rest
        } else {
            seq![
                crate::rtp_parameters::RtpCodecParametersV {
                    rtcp_feedback: spec_pipe_feedback(codecs[0].rtcp_feedback, enable_rtx),
                    ..codecs[0]
                },
            ] + rest
        }
    }
}

/// The header extensions a pipe consumer keeps: everything but MID and
/// the bandwidth-estimation extensions.
pub open spec fn spec_pipe_header_extensions(exts: Seq<RtpHeaderExtensionParameters>) -> Seq<
    RtpHeaderExtensionParameters,
>
    decreases exts.len(),
{
    if exts.len() == 0 {
        Seq::empty()
    } else {
        let rest = spec_pipe_header_extensions(exts.drop_first());
        if exts[0].uri == crate::rtp_parameters::RtpHeaderExtensionUri::MID || exts[0].uri
            == crate::rtp_parameters::RtpHeaderExtensionUri::AbsSendTime || exts[0].uri
            == crate::rtp_parameters::RtpHeaderExtensionUri::TransportWideCCDraft01 {
            rest
        } else {
            seq![exts[0]] + rest
        }
    }
}

/// Keeps only the pipe feedback set of one feedback list.
#[verifier::loop_isolation(false)]
fn pipe_feedback(fb: &Vec<RtcpFeedback>, enable_rtx: bool) -> (r: Vec<RtcpFeedback>)
    ensures
        r@ =~= spec_pipe_feedback(fb@, enable_rtx),
{
    let mut out: Vec<RtcpFeedback> = Vec::new();
    let n = fb.len();
    proof {
        assert(fb@.skip(0) =~= fb@);
    }
    for i in 0..n
        invariant
            out@ + spec_pipe_feedback(fb@.skip(i as int), enable_rtx) =~= spec_pipe_feedback(
                fb@,
                enable_rtx,
            ),
    {
        proof {
            assert(fb@.skip(i as int).drop_first() =~= fb@.skip(i + 1));
            assert(fb@.skip(i as int)[0] == fb@[i as int]);
        }
        let f = fb[i];
        if matches!(f, RtcpFeedback::NackPli | RtcpFeedback::CcmFir) || (enable_rtx && matches!(
            f,
            RtcpFeedback::Nack,
        )) {
            out.push(f);
        }
    }
    proof {
        assert(fb@.skip(n as int) =~= Seq::<RtcpFeedback>::empty());
        assert(out@ + Seq::<RtcpFeedback>::empty() =~= out@);
    }
    out
}

/// Projects consumable parameters onto a pipe consumer, used to
/// forward a producer to another router: the simulcast structure is
/// kept, bandwidth-estimation signaling is removed, and RTX support
/// follows `enable_rtx`.
#[verifier::loop_isolation(false)]
pub fn get_pipe_consumer_rtp_parameters(consumable_params: &RtpParameters, enable_rtx: bool) -> (r:
    RtpParameters)
    requires
        consumable_params@.encodings.len() <= u32::MAX - crate::ssrc::SSRC_MAX,
    ensures
        r@.mid is None,
        r@.codecs == spec_pipe_codecs(consumable_params@.codecs, enable_rtx),
        r@.header_extensions == spec_pipe_header_extensions(consumable_params@.header_extensions),
        r@.encodings.len() == consumable_params@.encodings.len(),
        forall|i: int|
            0 <= i < r@.encodings.len() ==> #[trigger] r@.encodings[i] == (
            crate::rtp_parameters::RtpEncodingParametersV {
                ssrc: Some((r@.encodings[0].ssrc->Some_0 + i) as u32),
                rtx: if enable_rtx {
                    Some(
                        crate::rtp_parameters::RtpEncodingParametersRtx {
                            ssrc: (r@.encodings[0].rtx->Some_0.ssrc + i) as u32,
                        },
                    )
                } else {
                    None
                },
                ..consumable_params@.encodings[i]
            }),
        r@.encodings.len() > 0 ==> {
            &&& crate::ssrc::SSRC_MIN <= r@.encodings[0].ssrc->Some_0 < crate::ssrc::SSRC_MAX
            &&& (enable_rtx ==> crate::ssrc::SSRC_MIN <= r@.encodings[0].rtx->Some_0.ssrc
                < crate::ssrc::SSRC_MAX)
        },
        r@.rtcp == consumable_params@.rtcp,
{
    let ghost ccodecs = consumable_params@.codecs;

    let mut codecs: Vec<RtpCodecParameters> = Vec::new();
    let n = consumable_params.codecs.len();
    proof {
        assert(ccodecs.skip(0) =~= ccodecs);
    }
    for i in 0..n
        invariant
            codecs.deep_view() + spec_pipe_codecs(ccodecs.skip(i as int), enable_rtx)
                =~= spec_pipe_codecs(ccodecs, enable_rtx),
    {
        proof {
            assert(ccodecs.skip(i as int).drop_first() =~= ccodecs.skip(i + 1));
            assert(ccodecs.skip(i as int)[0] == ccodecs[i as int]);
            assert(consumable_params.codecs.deep_view()[i as int] == consumable_params.codecs[
                i as int
            ].deep_view());
        }
        let codec = &consumable_params.codecs[i];
        if enable_rtx || !codec.is_rtx() {
            let mut new_codec = codec.clone();
            new_codec.set_rtcp_feedback(pipe_feedback(codec.rtcp_feedback(), enable_rtx));
            let ghost old_dv = codecs.deep_view();
            codecs.push(new_codec);
            proof {
                assert(codecs.deep_view() =~= old_dv.push(
                    crate::rtp_parameters::RtpCodecParametersV {
                        rtcp_feedback: spec_pipe_feedback(
                            ccodecs[i as int].rtcp_feedback,
                            enable_rtx,
                        ),
                        ..ccodecs[i as int]
                    },
                ));
            }
        }
    }
    proof {
        assert(ccodecs.skip(n as int) =~= Seq::<crate::rtp_parameters::RtpCodecParametersV>::empty());
        assert(codecs.deep_view() =~= spec_pipe_codecs(ccodecs, enable_rtx));
    }

    let mut header_extensions: Vec<RtpHeaderExtensionParameters> = Vec::new();
    let ghost cexts = consumable_params@.header_extensions;
    let ne = consumable_params.header_extensions.len();
    proof {
        assert(cexts.skip(0) =~= cexts);
    }
    for i in 0..ne
        invariant
            header_extensions@ + spec_pipe_header_extensions(cexts.skip(i as int))
                =~= spec_pipe_header_extensions(cexts),
    {
        proof {
            assert(cexts.skip(i as int).drop_first() =~= cexts.skip(i + 1));
            assert(cexts.skip(i as int)[0] == cexts[i as int]);
        }
        let ext = &consumable_params.header_extensions[i];
        if !matches!(
            ext.uri,
            crate::rtp_parameters::RtpHeaderExtensionUri::MID
                | crate::rtp_parameters::RtpHeaderExtensionUri::AbsSendTime
                | crate::rtp_parameters::RtpHeaderExtensionUri::TransportWideCCDraft01
        ) {
            header_extensions.push(*ext);
        }
    }
    proof {
        assert(cexts.skip(ne as int) =~= Seq::<RtpHeaderExtensionParameters>::empty());
        assert(header_extensions@ =~= spec_pipe_header_extensions(cexts));
    }

    let base_ssrc: u32 = crate::ssrc::generate_ssrc();
    let base_rtx_ssrc: u32 = crate::ssrc::generate_ssrc();
    let mut encodings: Vec<RtpEncodingParameters> = Vec::new();
    let nenc = consumable_params.encodings.len();
    for i in 0..nenc
        invariant
            encodings@.len() == i,
            forall|k: int|
                0 <= k < i ==> #[trigger] encodings.deep_view()[k] == (
                crate::rtp_parameters::RtpEncodingParametersV {
                    ssrc: Some((base_ssrc + k) as u32),
                    rtx: if enable_rtx {
                        Some(
                            crate::rtp_parameters::RtpEncodingParametersRtx {
                                ssrc: (base_rtx_ssrc + k) as u32,
                            },
                        )
                    } else {
                        None
                    },
                    ..consumable_params@.encodings[k]
                }),
    {
        proof {
            assert(consumable_params.encodings.deep_view()[i as int] == consumable_params.encodings[
                i as int
            ].deep_view());
        }
        let encoding = &consumable_params.encodings[i];
        let ssrc = base_ssrc + (i as u32);
        let rtx = if enable_rtx {
            Some(
                crate::rtp_parameters::RtpEncodingParametersRtx {
                    ssrc: base_rtx_ssrc + (i as u32),
                },
            )
        } else {
            None
        };
        let ghost prev_vec = encodings@;
        let ghost prev_dv = encodings.deep_view();
        encodings.push(
            RtpEncodingParameters {
                ssrc: Some(ssrc),
                rid: crate::rtp_parameters::clone_opt_string(&encoding.rid),
                codec_payload_type: encoding.codec_payload_type,
                rtx,
                dtx: encoding.dtx,
                scalability_mode: crate::rtp_parameters::clone_opt_string(
                    &encoding.scalability_mode,
                ),
                max_bitrate: encoding.max_bitrate,
            },
        );
        proof {
            let dv = encodings.deep_view();
            assert forall|k: int| 0 <= k < i implies #[trigger] dv[k] == prev_dv[k] by {
                assert(dv[k] == encodings@[k].deep_view());
                assert(encodings@[k] == prev_vec[k]);
                assert(prev_dv[k] == prev_vec[k].deep_view());
            }
            assert(dv[i as int] == encodings@[i as int].deep_view());
            assert(dv[i as int] =~= (crate::rtp_parameters::RtpEncodingParametersV {
                ssrc: Some((base_ssrc + i) as u32),
                rtx: if enable_rtx {
                    Some(
                        crate::rtp_parameters::RtpEncodingParametersRtx {
                            ssrc: (base_rtx_ssrc + i) as u32,
                        },
                    )
                } else {
                    None
                },
                ..consumable_params@.encodings[i as int]
            }));
        }
    }

    let r = RtpParameters {
        mid: None,
        codecs,
        header_extensions,
        encodings,
        rtcp: consumable_params.rtcp.clone(),
    };
    proof {
        if r@.encodings.len() > 0 {
            assert(r@.encodings[0].ssrc->Some_0 == base_ssrc);
            if enable_rtx {
                assert(r@.encodings[0].rtx->Some_0.ssrc == base_rtx_ssrc);
            }
        }
    }
    r
}



/// The first peer capability matching `codec` strictly, if any.
pub open spec fn spec_find_matching_cap(
    caps: Seq<crate::rtp_parameters::RtpCodecCapabilityV>,
    codec: crate::rtp_parameters::RtpCodecParametersV,
) -> Option<crate::rtp_parameters::RtpCodecCapabilityV>
    decreases caps.len(),
{
    if caps.len() == 0 {
        None
    } else if spec_codecs_do_match(caps[0].to_match(), codec.to_match(), true) {
        Some(caps[0])
    } else {
        spec_find_matching_cap(caps.drop_first(), codec)
    }
}

proof fn lemma_find_matching_cap_at(
    caps: Seq<crate::rtp_parameters::RtpCodecCapabilityV>,
    codec: crate::rtp_parameters::RtpCodecParametersV,
    i: int,
)
    requires
        0 <= i < caps.len(),
        spec_codecs_do_match(caps[i].to_match(), codec.to_match(), true),
        forall|j: int|
            0 <= j < i ==> !spec_codecs_do_match(#[trigger] caps[j].to_match(), codec.to_match(), true),
    ensures
        spec_find_matching_cap(caps, codec) == Some(caps[i]),
    decreases caps.len(),
{
    if i > 0 {
        lemma_find_matching_cap_at(caps.drop_first(), codec, i - 1);
    }
}

proof fn lemma_find_matching_cap_none(
    caps: Seq<crate::rtp_parameters::RtpCodecCapabilityV>,
    codec: crate::rtp_parameters::RtpCodecParametersV,
)
    requires
        forall|j: int|
            0 <= j < caps.len() ==> !spec_codecs_do_match(
                #[trigger] caps[j].to_match(),
                codec.to_match(),
                true,
            ),
    ensures
        spec_find_matching_cap(caps, codec) is None,
    decreases caps.len(),
{
    if caps.len() > 0 {
        lemma_find_matching_cap_none(caps.drop_first(), codec);
    }
}

/// The first peer capability matching the codec strictly.
#[verifier::loop_isolation(false)]
fn find_matching_cap<'a>(caps: &'a Vec<RtpCodecCapability>, codec: &RtpCodecParameters) -> (r:
    Option<&'a RtpCodecCapability>)
    ensures
        match r {
            Some(m) => spec_find_matching_cap(caps.deep_view(), codec@) == Some(m@),
            None => spec_find_matching_cap(caps.deep_view(), codec@) is None,
        },
{
    let n = caps.len();
    for i in 0..n
        invariant
            forall|j: int|
                0 <= j < i ==> !spec_codecs_do_match(
                    #[trigger] caps.deep_view()[j].to_match(),
                    codec@.to_match(),
                    true,
                ),
    {
        proof {
            assert(caps.deep_view()[i as int] == caps[i as int].deep_view());
        }
        if match_codecs(caps[i].to_match(), codec.to_match(), true).is_ok() {
            proof {
                lemma_find_matching_cap_at(caps.deep_view(), codec@, i as int);
            }
            return Some(&caps[i]);
        }
    }
    proof {
        lemma_find_matching_cap_none(caps.deep_view(), codec@);
    }
    None
}

/// The codecs a consumer starts from: every consumable codec the peer
/// matched strictly, with its feedback replaced by the peer's.
pub open spec fn spec_consumer_matched_codecs(
    codecs: Seq<crate::rtp_parameters::RtpCodecParametersV>,
    caps: Seq<crate::rtp_parameters::RtpCodecCapabilityV>,
) -> Seq<crate::rtp_parameters::RtpCodecParametersV>
    decreases codecs.len(),
{
    if codecs.len() == 0 {
        Seq::empty()
    } else {
        let rest = spec_consumer_matched_codecs(codecs.drop_first(), caps);
        match spec_find_matching_cap(caps, codecs[0]) {
            Some(cap) => seq![
                crate::rtp_parameters::RtpCodecParametersV {
                    rtcp_feedback: cap.rtcp_feedback,
                    ..codecs[0]
                },
            ] + rest,
            None => rest,
        }
    }
}

/// Whether the RTX entry at position `i` keeps a partner: some other
/// entry's payload type equals its `apt`.
pub open spec fn spec_rtx_survives(
    all: Seq<crate::rtp_parameters::RtpCodecParametersV>,
    i: int,
) -> bool {
    exists|j: int|
        0 <= j < all.len() && j != i && spec_apt_number(all[i].parameters) == Some(
            (#[trigger] all[j]).payload_type as u32,
        )
}

/// The codec list with every orphaned RTX entry removed, walking from
/// position `i`.
pub open spec fn spec_sanitize_from(
    all: Seq<crate::rtp_parameters::RtpCodecParametersV>,
    i: int,
) -> Seq<crate::rtp_parameters::RtpCodecParametersV>
    decreases all.len() - i,
{
    if i < 0 || i >= all.len() {
        Seq::empty()
    } else {
        let rest = spec_sanitize_from(all, i + 1);
        if all[i].mime_type.spec_is_rtx() && !spec_rtx_survives(all, i) {
            rest
        } else {
            seq![all[i]] + rest
        }
    }
}

/// The codec list with every orphaned RTX entry removed.
pub open spec fn spec_sanitized(all: Seq<crate::rtp_parameters::RtpCodecParametersV>) -> Seq<
    crate::rtp_parameters::RtpCodecParametersV,
> {
    spec_sanitize_from(all, 0)
}

/// Whether some RTX entry survives sanitizing.
pub open spec fn spec_rtx_supported(all: Seq<crate::rtp_parameters::RtpCodecParametersV>) -> bool {
    exists|i: int|
        0 <= i < all.len() && (#[trigger] all[i]).mime_type.spec_is_rtx() && spec_rtx_survives(
            all,
            i,
        )
}

/// Whether the peer lists the `(uri, id)` pair of this extension.
pub open spec fn spec_ext_in_caps(
    cap_exts: Seq<RtpHeaderExtension>,
    ext: RtpHeaderExtensionParameters,
) -> bool {
    exists|j: int|
        0 <= j < cap_exts.len() && (#[trigger] cap_exts[j]).preferred_id == ext.id
            && cap_exts[j].uri == ext.uri
}

/// The consumable extensions whose `(uri, id)` the peer also lists.
pub open spec fn spec_consumer_header_extensions(
    exts: Seq<RtpHeaderExtensionParameters>,
    cap_exts: Seq<RtpHeaderExtension>,
) -> Seq<RtpHeaderExtensionParameters>
    decreases exts.len(),
{
    if exts.len() == 0 {
        Seq::empty()
    } else {
        let rest = spec_consumer_header_extensions(exts.drop_first(), cap_exts);
        if spec_ext_in_caps(cap_exts, exts[0]) {
            seq![exts[0]] + rest
        } else {
            rest
        }
    }
}

/// Whether one of the extensions carries the given URI.
pub open spec fn spec_exts_have_uri(
    exts: Seq<RtpHeaderExtensionParameters>,
    uri: crate::rtp_parameters::RtpHeaderExtensionUri,
) -> bool {
    exists|j: int| 0 <= j < exts.len() && (#[trigger] exts[j]).uri == uri
}

/// Which feedbacks the retained extensions strip: `goog-remb` when
/// transport-wide congestion control is available, otherwise
/// `transport-cc` when abs-send-time is available, otherwise both.
pub open spec fn spec_feedback_removal(exts: Seq<RtpHeaderExtensionParameters>) -> (bool, bool) {
    if spec_exts_have_uri(exts, crate::rtp_parameters::RtpHeaderExtensionUri::TransportWideCCDraft01) {
        (true, false)
    } else if spec_exts_have_uri(exts, crate::rtp_parameters::RtpHeaderExtensionUri::AbsSendTime) {
        (false, true)
    } else {
        (true, true)
    }
}

/// The feedback list with the flagged entries removed.
pub open spec fn spec_filter_feedback(
    fb: Seq<RtcpFeedback>,
    remove_remb: bool,
    remove_tcc: bool,
) -> Seq<RtcpFeedback>
    decreases fb.len(),
{
    if fb.len() == 0 {
        Seq::empty()
    } else {
        let rest = spec_filter_feedback(fb.drop_first(), remove_remb, remove_tcc);
        if (remove_remb && fb[0] == RtcpFeedback::GoogRemb) || (remove_tcc && fb[0]
            == RtcpFeedback::TransportCC) {
            rest
        } else {
            seq![fb[0]] + rest
        }
    }
}

/// The consumer's final codec list: the sanitized codecs with the
/// feedback-reduction policy applied.
pub open spec fn spec_consumer_codecs(
    sane: Seq<crate::rtp_parameters::RtpCodecParametersV>,
    exts: Seq<RtpHeaderExtensionParameters>,
) -> Seq<crate::rtp_parameters::RtpCodecParametersV>
    decreases sane.len(),
{
    if sane.len() == 0 {
        Seq::empty()
    } else {
        let flags = spec_feedback_removal(exts);
        seq![
            crate::rtp_parameters::RtpCodecParametersV {
                rtcp_feedback: spec_filter_feedback(sane[0].rtcp_feedback, flags.0, flags.1),
                ..sane[0]
            },
        ] + spec_consumer_codecs(sane.drop_first(), exts)
    }
}

/// The scalability mode of the first encoding that has one.
pub open spec fn spec_first_scalability_mode(
    encs: Seq<crate::rtp_parameters::RtpEncodingParametersV>,
) -> Option<Seq<char>>
    decreases encs.len(),
{
    if encs.len() == 0 {
        None
    } else {
        match encs[0].scalability_mode {
            Some(s) => Some(s),
            None => spec_first_scalability_mode(encs.drop_first()),
        }
    }
}

/// The scalability mode of the single consumer encoding: borrowed from
/// the consumable encodings, with the spatial count replaced by the
/// number of simulcast layers when there are several.
pub open spec fn spec_consumer_scalability_mode(
    encs: Seq<crate::rtp_parameters::RtpEncodingParametersV>,
) -> Option<Seq<char>> {
    let first = spec_first_scalability_mode(encs);
    if encs.len() > 1 {
        let t = match first {
            Some(sm) => crate::scalability_mode::spec_temporal_layers(sm),
            None => 0u32,
        };
        Some(crate::scalability_mode::spec_simulcast_scalability_mode(encs.len(), t as nat))
    } else {
        first
    }
}

/// The larger of two optional bitrates.
pub open spec fn spec_max_combine(a: Option<u32>, b: Option<u32>) -> Option<u32> {
    match (a, b) {
        (Option::None, other) => other,
        (Option::Some(x), Option::None) => Some(x),
        (Option::Some(x), Option::Some(y)) => Some(
            if x >= y {
                x
            } else {
                y
            },
        ),
    }
}

/// The largest `max_bitrate` across the encodings, if any has one.
pub open spec fn spec_max_bitrate(encs: Seq<crate::rtp_parameters::RtpEncodingParametersV>) -> Option<
    u32,
>
    decreases encs.len(),
{
    if encs.len() == 0 {
        None
    } else {
        spec_max_combine(encs[0].max_bitrate, spec_max_bitrate(encs.drop_first()))
    }
}

/// Whether the RTX codec at position `i` has a partner elsewhere in
/// the list.
#[verifier::loop_isolation(false)]
fn rtx_survives(all: &Vec<RtpCodecParameters>, i: usize) -> (r: bool)
    requires
        i < all@.len(),
    ensures
        r == spec_rtx_survives(all.deep_view(), i as int),
{
    proof {
        assert(all.deep_view()[i as int] == all[i as int].deep_view());
    }
    let target = match apt_number_of(all[i].parameters()) {
        Some(t) => t,
        None => {
            return false;
        },
    };
    let n = all.len();
    for j in 0..n
        invariant
            forall|k: int|
                0 <= k < j && k != i ==> (#[trigger] all.deep_view()[k]).payload_type as u32
                    != target,
    {
        proof {
            assert(all.deep_view()[j as int] == all[j as int].deep_view());
        }
        if j != i && all[j].payload_type() as u32 == target {
            return true;
        }
    }
    false
}

/// Whether one of the extensions carries the given URI.
#[verifier::loop_isolation(false)]
fn exts_have_uri(
    exts: &Vec<RtpHeaderExtensionParameters>,
    uri: crate::rtp_parameters::RtpHeaderExtensionUri,
) -> (r: bool)
    ensures
        r == spec_exts_have_uri(exts@, uri),
{
    let n = exts.len();
    for j in 0..n
        invariant
            forall|k: int| 0 <= k < j ==> (#[trigger] exts@[k]).uri != uri,
    {
        if exts[j].uri == uri {
            return true;
        }
    }
    false
}

/// The feedback list with the flagged entries removed.
#[verifier::loop_isolation(false)]
fn filter_feedback(fb: &Vec<RtcpFeedback>, remove_remb: bool, remove_tcc: bool) -> (r: Vec<
    RtcpFeedback,
>)
    ensures
        r@ =~= spec_filter_feedback(fb@, remove_remb, remove_tcc),
{
    let mut out: Vec<RtcpFeedback> = Vec::new();
    let n = fb.len();
    proof {
        assert(fb@.skip(0) =~= fb@);
    }
    for i in 0..n
        invariant
            out@ + spec_filter_feedback(fb@.skip(i as int), remove_remb, remove_tcc)
                =~= spec_filter_feedback(fb@, remove_remb, remove_tcc),
    {
        proof {
            assert(fb@.skip(i as int).drop_first() =~= fb@.skip(i + 1));
            assert(fb@.skip(i as int)[0] == fb@[i as int]);
        }
        let f = fb[i];
        let drop = (remove_remb && matches!(f, RtcpFeedback::GoogRemb)) || (remove_tcc && matches!(
            f,
            RtcpFeedback::TransportCC,
        ));
        if !drop {
            out.push(f);
        }
    }
    proof {
        assert(fb@.skip(n as int) =~= Seq::<RtcpFeedback>::empty());
        assert(out@ + Seq::<RtcpFeedback>::empty() =~= out@);
    }
    out
}

/// The reduced form of the sanitized codecs, with flagged feedback
/// entries removed from each.
pub open spec fn spec_reduce_codecs(
    sane: Seq<crate::rtp_parameters::RtpCodecParametersV>,
    remove_remb: bool,
    remove_tcc: bool,
) -> Seq<crate::rtp_parameters::RtpCodecParametersV>
    decreases sane.len(),
{
    if sane.len() == 0 {
        Seq::empty()
    } else {
        seq![
            crate::rtp_parameters::RtpCodecParametersV {
                rtcp_feedback: spec_filter_feedback(sane[0].rtcp_feedback, remove_remb, remove_tcc),
                ..sane[0]
            },
        ] + spec_reduce_codecs(sane.drop_first(), remove_remb, remove_tcc)
    }
}

proof fn lemma_consumer_codecs_is_reduce(
    sane: Seq<crate::rtp_parameters::RtpCodecParametersV>,
    exts: Seq<RtpHeaderExtensionParameters>,
)
    ensures
        spec_consumer_codecs(sane, exts) == spec_reduce_codecs(
            sane,
            spec_feedback_removal(exts).0,
            spec_feedback_removal(exts).1,
        ),
    decreases sane.len(),
{
    if sane.len() > 0 {
        lemma_consumer_codecs_is_reduce(sane.drop_first(), exts);
    }
}

/// The consumable codecs the peer matches, with the peer's feedback.
#[verifier::loop_isolation(false)]
fn consumer_matched_codecs(
    consumable_codecs: &Vec<RtpCodecParameters>,
    caps_codecs: &Vec<RtpCodecCapability>,
) -> (r: Vec<RtpCodecParameters>)
    ensures
        r.deep_view() == spec_consumer_matched_codecs(
            consumable_codecs.deep_view(),
            caps_codecs.deep_view(),
        ),
{
    let ghost ccodecs = consumable_codecs.deep_view();
    let ghost pcaps = caps_codecs.deep_view();
    let mut matched: Vec<RtpCodecParameters> = Vec::new();
    let n = consumable_codecs.len();
    proof {
        assert(ccodecs.skip(0) =~= ccodecs);
    }
    for i in 0..n
        invariant
            matched.deep_view() + spec_consumer_matched_codecs(ccodecs.skip(i as int), pcaps)
                =~= spec_consumer_matched_codecs(ccodecs, pcaps),
    {
        proof {
            assert(ccodecs.skip(i as int).drop_first() =~= ccodecs.skip(i + 1));
            assert(ccodecs.skip(i as int)[0] == ccodecs[i as int]);
            assert(consumable_codecs.deep_view()[i as int] == consumable_codecs[
                i as int
            ].deep_view());
        }
        let codec = &consumable_codecs[i];
        if let Some(cap) = find_matching_cap(caps_codecs, codec) {
            let mut new_codec = codec.clone();
            new_codec.set_rtcp_feedback(crate::rtp_parameters::clone_feedback(cap.rtcp_feedback()));
            let ghost old_dv = matched.deep_view();
            matched.push(new_codec);
            proof {
                assert(matched.deep_view() =~= old_dv.push(
                    crate::rtp_parameters::RtpCodecParametersV {
                        rtcp_feedback: cap@.rtcp_feedback,
                        ..ccodecs[i as int]
                    },
                ));
            }
        }
    }
    proof {
        assert(ccodecs.skip(n as int) =~= Seq::<crate::rtp_parameters::RtpCodecParametersV>::empty());
        assert(matched.deep_view() =~= spec_consumer_matched_codecs(ccodecs, pcaps));
    }
    matched
}

/// Drops orphaned RTX entries; also reports whether any RTX survived.
#[verifier::loop_isolation(false)]
fn sanitize_consumer_codecs(matched: &Vec<RtpCodecParameters>) -> (r: (
    Vec<RtpCodecParameters>,
    bool,
))
    ensures
        r.0.deep_view() == spec_sanitized(matched.deep_view()),
        r.1 == spec_rtx_supported(matched.deep_view()),
{
    let ghost matched_v = matched.deep_view();
    let mut sane: Vec<RtpCodecParameters> = Vec::new();
    let mut rtx_supported = false;
    let m = matched.len();
    for i in 0..m
        invariant
            m == matched@.len(),
            sane.deep_view() + spec_sanitize_from(matched_v, i as int) =~= spec_sanitized(
                matched_v,
            ),
            rtx_supported == exists|i2: int|
                0 <= i2 < i && (#[trigger] matched_v[i2]).mime_type.spec_is_rtx()
                    && spec_rtx_survives(matched_v, i2),
    {
        proof {
            assert(matched.deep_view()[i as int] == matched[i as int].deep_view());
        }
        let codec = &matched[i];
        if codec.is_rtx() {
            let survives = rtx_survives(matched, i);
            if survives {
                proof {
                    assert(exists|i2: int|
                        0 <= i2 < i + 1 && (#[trigger] matched_v[i2]).mime_type.spec_is_rtx()
                            && spec_rtx_survives(matched_v, i2)) by {
                        assert(matched_v[i as int].mime_type.spec_is_rtx() && spec_rtx_survives(
                            matched_v,
                            i as int,
                        ));
                    }
                }
                rtx_supported = true;
                let ghost old_dv = sane.deep_view();
                sane.push(codec.clone());
                proof {
                    assert(sane.deep_view() =~= old_dv.push(matched_v[i as int]));
                }
            }
        } else {
            let ghost old_dv = sane.deep_view();
            sane.push(codec.clone());
            proof {
                assert(sane.deep_view() =~= old_dv.push(matched_v[i as int]));
            }
        }
    }
    proof {
        assert(sane.deep_view() =~= spec_sanitized(matched_v));
    }
    (sane, rtx_supported)
}

/// The consumable extensions the peer also lists.
#[verifier::loop_isolation(false)]
fn consumer_header_extensions(
    consumable_exts: &Vec<RtpHeaderExtensionParameters>,
    cap_exts: &Vec<RtpHeaderExtension>,
) -> (r: Vec<RtpHeaderExtensionParameters>)
    ensures
        r@ == spec_consumer_header_extensions(consumable_exts@, cap_exts@),
{
    let ghost cexts = consumable_exts@;
    let ghost pexts = cap_exts@;
    let mut header_extensions: Vec<RtpHeaderExtensionParameters> = Vec::new();
    let ne = consumable_exts.len();
    proof {
        assert(cexts.skip(0) =~= cexts);
    }
    for i in 0..ne
        invariant
            header_extensions@ + spec_consumer_header_extensions(cexts.skip(i as int), pexts)
                =~= spec_consumer_header_extensions(cexts, pexts),
    {
        proof {
            assert(cexts.skip(i as int).drop_first() =~= cexts.skip(i + 1));
            assert(cexts.skip(i as int)[0] == cexts[i as int]);
        }
        let ext = &consumable_exts[i];
        let mut listed = false;
        let np = cap_exts.len();
        for j in 0..np
            invariant
                listed == exists|k: int|
                    0 <= k < j && (#[trigger] pexts[k]).preferred_id == ext.id && pexts[k].uri
                        == ext.uri,
        {
            if cap_exts[j].preferred_id == ext.id && cap_exts[j].uri == ext.uri {
                listed = true;
            }
        }
        proof {
            assert(listed == spec_ext_in_caps(pexts, cexts[i as int]));
        }
        if listed {
            header_extensions.push(*ext);
        }
    }
    proof {
        assert(cexts.skip(ne as int) =~= Seq::<RtpHeaderExtensionParameters>::empty());
        assert(header_extensions@ =~= spec_consumer_header_extensions(cexts, pexts));
    }
    header_extensions
}

/// Applies the feedback-reduction flags to every codec.
#[verifier::loop_isolation(false)]
fn reduce_consumer_codecs(
    sane: Vec<RtpCodecParameters>,
    remove_remb: bool,
    remove_tcc: bool,
) -> (r: Vec<RtpCodecParameters>)
    ensures
        r.deep_view() == spec_reduce_codecs(sane.deep_view(), remove_remb, remove_tcc),
{
    let ghost sane_v = sane.deep_view();
    let mut codecs: Vec<RtpCodecParameters> = Vec::new();
    let ns = sane.len();
    proof {
        assert(sane_v.skip(0) =~= sane_v);
    }
    for i in 0..ns
        invariant
            ns == sane@.len(),
            codecs.deep_view() + spec_reduce_codecs(sane_v.skip(i as int), remove_remb, remove_tcc)
                =~= spec_reduce_codecs(sane_v, remove_remb, remove_tcc),
    {
        proof {
            assert(sane_v.skip(i as int).drop_first() =~= sane_v.skip(i + 1));
            assert(sane_v.skip(i as int)[0] == sane_v[i as int]);
            assert(sane.deep_view()[i as int] == sane[i as int].deep_view());
        }
        let codec = &sane[i];
        let mut new_codec = codec.clone();
        new_codec.set_rtcp_feedback(
            filter_feedback(codec.rtcp_feedback(), remove_remb, remove_tcc),
        );
        let ghost old_dv = codecs.deep_view();
        codecs.push(new_codec);
        proof {
            assert(codecs.deep_view() =~= old_dv.push(
                crate::rtp_parameters::RtpCodecParametersV {
                    rtcp_feedback: spec_filter_feedback(
                        sane_v[i as int].rtcp_feedback,
                        remove_remb,
                        remove_tcc,
                    ),
                    ..sane_v[i as int]
                },
            ));
        }
    }
    proof {
        assert(sane_v.skip(ns as int) =~= Seq::<crate::rtp_parameters::RtpCodecParametersV>::empty());
        assert(codecs.deep_view() =~= spec_reduce_codecs(sane_v, remove_remb, remove_tcc));
    }
    codecs
}

/// The scalability mode of the first encoding that has one.
#[verifier::loop_isolation(false)]
fn first_scalability_mode(encodings: &Vec<RtpEncodingParameters>) -> (r: Option<String>)
    ensures
        r.deep_view() == spec_first_scalability_mode(encodings.deep_view()),
{
    let ghost cencs = encodings.deep_view();
    let mut first_sm: Option<String> = None;
    let nenc = encodings.len();
    let mut found_at = nenc;
    for i in 0..nenc
        invariant
            found_at <= nenc,
            found_at == nenc ==> {
                &&& first_sm is None
                &&& forall|k: int| 0 <= k < i ==> (#[trigger] cencs[k]).scalability_mode is None
            },
            found_at < nenc ==> {
                &&& found_at < i
                &&& first_sm.deep_view() == cencs[found_at as int].scalability_mode
                &&& first_sm is Some
                &&& forall|k: int|
                    0 <= k < found_at ==> (#[trigger] cencs[k]).scalability_mode is None
            },
    {
        proof {
            assert(encodings.deep_view()[i as int] == encodings[i as int].deep_view());
        }
        if found_at == nenc {
            match &encodings[i].scalability_mode {
                Some(sm) => {
                    first_sm = Some(sm.clone());
                    found_at = i;
                },
                None => {},
            }
        }
    }
    proof {
        lemma_first_scalability_mode(cencs, found_at as int, first_sm.deep_view(), nenc as int);
    }
    first_sm
}

/// The largest `max_bitrate` across the encodings.
#[verifier::loop_isolation(false)]
fn max_bitrate_of(encodings: &Vec<RtpEncodingParameters>) -> (r: Option<u32>)
    ensures
        r == spec_max_bitrate(encodings.deep_view()),
{
    let ghost cencs = encodings.deep_view();
    let mut max_bitrate: Option<u32> = None;
    let nenc = encodings.len();
    proof {
        assert(cencs.skip(0) =~= cencs);
    }
    for i in 0..nenc
        invariant
            spec_max_combine(max_bitrate, spec_max_bitrate(cencs.skip(i as int)))
                == spec_max_bitrate(cencs),
    {
        proof {
            assert(cencs.skip(i as int).drop_first() =~= cencs.skip(i + 1));
            assert(cencs.skip(i as int)[0] == cencs[i as int]);
            assert(encodings.deep_view()[i as int] == encodings[i as int].deep_view());
        }
        let ghost before = max_bitrate;
        match encodings[i].max_bitrate {
            Some(b) => {
                match max_bitrate {
                    Some(cur) => {
                        if b > cur {
                            max_bitrate = Some(b);
                        }
                    },
                    None => {
                        max_bitrate = Some(b);
                    },
                }
            },
            None => {},
        }
        proof {
            assert(max_bitrate == spec_max_combine(before, cencs[i as int].max_bitrate));
            assert(spec_max_combine(
                spec_max_combine(before, cencs[i as int].max_bitrate),
                spec_max_bitrate(cencs.skip(i + 1)),
            ) == spec_max_combine(before, spec_max_bitrate(cencs.skip(i as int))));
        }
    }
    proof {
        assert(cencs.skip(nenc as int) =~= Seq::<
            crate::rtp_parameters::RtpEncodingParametersV,
        >::empty());
    }
    max_bitrate
}

/// Projects consumable parameters onto one consumer, given the
/// consuming peer's RTP capabilities: codecs the peer cannot receive
/// are dropped (orphaned RTX entries with them), the peer's feedback
/// lists take over and are reduced by the bandwidth-estimation policy,
/// header extensions are intersected with the peer's, and the
/// simulcast encodings collapse into a single encoding.
#[verifier::loop_isolation(false)]
pub fn get_consumer_rtp_parameters(consumable_params: &RtpParameters, caps: RtpCapabilities) -> (r:
    Result<RtpParameters, ConsumerRtpParametersError>)
    ensures
        match r {
            Ok(k) => {
                &&& spec_caps_apt_error(caps@.codecs) is None
                &&& {
                    let matched = spec_consumer_matched_codecs(
                        consumable_params@.codecs,
                        caps@.codecs,
                    );
                    let sane = spec_sanitized(matched);
                    &&& sane.len() > 0
                    &&& !sane[0].mime_type.spec_is_rtx()
                    &&& k@.header_extensions == spec_consumer_header_extensions(
                        consumable_params@.header_extensions,
                        caps@.header_extensions,
                    )
                    &&& k@.codecs == spec_consumer_codecs(sane, k@.header_extensions)
                    &&& k@.encodings.len() == 1
                    &&& k@.encodings[0].ssrc is Some
                    &&& crate::ssrc::SSRC_MIN <= k@.encodings[0].ssrc->Some_0
                        < crate::ssrc::SSRC_MAX
                    &&& (k@.encodings[0].rtx is Some <==> spec_rtx_supported(matched))
                    &&& (k@.encodings[0].rtx is Some ==> crate::ssrc::SSRC_MIN
                        <= k@.encodings[0].rtx->Some_0.ssrc < crate::ssrc::SSRC_MAX)
                    &&& k@.encodings[0].rid is None
                    &&& k@.encodings[0].codec_payload_type is None
                    &&& k@.encodings[0].dtx is None
                    &&& k@.encodings[0].scalability_mode == spec_consumer_scalability_mode(
                        consumable_params@.encodings,
                    )
                    &&& k@.encodings[0].max_bitrate == spec_max_bitrate(
                        consumable_params@.encodings,
                    )
                    &&& k@.rtcp == consumable_params@.rtcp
                    &&& k@.mid is None
                }
            },
            Err(e) => match e@ {
                ConsumerRtpParametersErrorV::InvalidCapabilities(ce) => {
                    &&& spec_caps_apt_error(caps@.codecs) is Some
                    &&& ce == RtpCapabilitiesErrorV::InvalidAptParameter(
                        spec_caps_apt_error(caps@.codecs)->Some_0,
                    )
                },
                ConsumerRtpParametersErrorV::NoCompatibleMediaCodecs => {
                    &&& spec_caps_apt_error(caps@.codecs) is None
                    &&& {
                        let sane = spec_sanitized(
                            spec_consumer_matched_codecs(consumable_params@.codecs, caps@.codecs),
                        );
                        sane.len() == 0 || sane[0].mime_type.spec_is_rtx()
                    }
                },
            },
        },
{
    if let Err(e) = validate_rtp_capabilities(&caps) {
        return Err(ConsumerRtpParametersError::InvalidCapabilities(e));
    }

    let matched = consumer_matched_codecs(&consumable_params.codecs, &caps.codecs);
    let ghost matched_v = matched.deep_view();
    let (sane, rtx_supported) = sanitize_consumer_codecs(&matched);

    // There must be a media codec to consume.
    if sane.len() == 0 {
        return Err(ConsumerRtpParametersError::NoCompatibleMediaCodecs);
    }
    proof {
        assert(sane.deep_view()[0] == sane[0].deep_view());
    }
    if sane[0].is_rtx() {
        return Err(ConsumerRtpParametersError::NoCompatibleMediaCodecs);
    }

    let header_extensions = consumer_header_extensions(
        &consumable_params.header_extensions,
        &caps.header_extensions,
    );
    let ghost kept_exts = header_extensions@;

    // Reduce codec feedback: prefer transport-wide congestion control,
    // then abs-send-time, else strip both mechanisms.
    let has_twcc = exts_have_uri(
        &header_extensions,
        crate::rtp_parameters::RtpHeaderExtensionUri::TransportWideCCDraft01,
    );
    let has_ast = exts_have_uri(
        &header_extensions,
        crate::rtp_parameters::RtpHeaderExtensionUri::AbsSendTime,
    );
    let remove_remb = has_twcc || !has_ast;
    let remove_tcc = !has_twcc;
    proof {
        assert((remove_remb, remove_tcc) == spec_feedback_removal(kept_exts));
    }

    let ghost sane_v = sane.deep_view();
    let codecs = reduce_consumer_codecs(sane, remove_remb, remove_tcc);
    proof {
        lemma_consumer_codecs_is_reduce(sane_v, kept_exts);
    }

    // Single consumer encoding.
    let ssrc = crate::ssrc::generate_ssrc();
    let rtx = if rtx_supported {
        Some(crate::rtp_parameters::RtpEncodingParametersRtx { ssrc: crate::ssrc::generate_ssrc() })
    } else {
        None
    };

    let first_sm = first_scalability_mode(&consumable_params.encodings);
    let nenc = consumable_params.encodings.len();
    let scalability_mode: Option<String> = if nenc > 1 {
        let t: u32 = match &first_sm {
            Some(sm) => crate::scalability_mode::temporal_layers_of(sm.as_str()),
            None => 0,
        };
        Some(crate::scalability_mode::simulcast_scalability_mode(nenc, t))
    } else {
        first_sm
    };
    proof {
        assert(scalability_mode.deep_view() == spec_consumer_scalability_mode(
            consumable_params@.encodings,
        ));
    }

    let max_bitrate = max_bitrate_of(&consumable_params.encodings);

    let consumer_encoding = RtpEncodingParameters {
        ssrc: Some(ssrc),
        rid: None,
        codec_payload_type: None,
        rtx,
        dtx: None,
        scalability_mode,
        max_bitrate,
    };
    let mut encodings: Vec<RtpEncodingParameters> = Vec::new();
    encodings.push(consumer_encoding);

    let consumer_params = RtpParameters {
        mid: None,
        codecs,
        header_extensions,
        encodings,
        rtcp: consumable_params.rtcp.clone(),
    };
    proof {
        assert(consumer_params@.encodings[0] == consumer_params.encodings[0].deep_view());
    }
    Ok(consumer_params)
}

proof fn lemma_first_scalability_mode(
    encs: Seq<crate::rtp_parameters::RtpEncodingParametersV>,
    found_at: int,
    first: Option<Seq<char>>,
    n: int,
)
    requires
        n == encs.len(),
        0 <= found_at <= n,
        found_at == n ==> first is None,
        found_at == n ==> forall|k: int|
            0 <= k < n ==> (#[trigger] encs[k]).scalability_mode is None,
        found_at < n ==> first == encs[found_at].scalability_mode && first is Some,
        found_at < n ==> forall|k: int|
            0 <= k < found_at ==> (#[trigger] encs[k]).scalability_mode is None,
    ensures
        spec_first_scalability_mode(encs) == first,
    decreases encs.len(),
{
    if encs.len() > 0 {
        if encs[0].scalability_mode is Some {
        } else {
            lemma_first_scalability_mode(encs.drop_first(), found_at - 1, first, n - 1);
        }
    }
}



proof fn lemma_filter_feedback_removes(fb: Seq<RtcpFeedback>, remove_remb: bool, remove_tcc: bool)
    ensures
        remove_remb ==> forall|k: int|
            0 <= k < spec_filter_feedback(fb, remove_remb, remove_tcc).len()
                ==> #[trigger] spec_filter_feedback(fb, remove_remb, remove_tcc)[k]
                != RtcpFeedback::GoogRemb,
        remove_tcc ==> forall|k: int|
            0 <= k < spec_filter_feedback(fb, remove_remb, remove_tcc).len()
                ==> #[trigger] spec_filter_feedback(fb, remove_remb, remove_tcc)[k]
                != RtcpFeedback::TransportCC,
    decreases fb.len(),
{
    if fb.len() > 0 {
        lemma_filter_feedback_removes(fb.drop_first(), remove_remb, remove_tcc);
    }
}

/// Law: projecting consumable codecs onto a consumer keeps the number
/// of codecs and every field of each codec except its feedback list,
/// which becomes the filtered one. In particular, when the sanitized
/// list starts with a media codec, so does the consumer's codec list.
pub proof fn lemma_consumer_codecs_identity(
    sane: Seq<crate::rtp_parameters::RtpCodecParametersV>,
    exts: Seq<RtpHeaderExtensionParameters>,
)
    ensures
        spec_consumer_codecs(sane, exts).len() == sane.len(),
        forall|i: int|
            0 <= i < sane.len() ==> #[trigger] spec_consumer_codecs(sane, exts)[i] == (
            crate::rtp_parameters::RtpCodecParametersV {
                rtcp_feedback: spec_filter_feedback(
                    sane[i].rtcp_feedback,
                    spec_feedback_removal(exts).0,
                    spec_feedback_removal(exts).1,
                ),
                ..sane[i]
            }),
    decreases sane.len(),
{
    if sane.len() > 0 {
        lemma_consumer_codecs_identity(sane.drop_first(), exts);
    }
}

/// Law: every header extension a consumer keeps carries a `(uri, id)`
/// pair that the consuming peer lists among its own extensions.
pub proof fn lemma_consumer_extensions_subset(
    exts: Seq<RtpHeaderExtensionParameters>,
    cap_exts: Seq<RtpHeaderExtension>,
)
    ensures
        forall|k: int|
            0 <= k < spec_consumer_header_extensions(exts, cap_exts).len() ==> spec_ext_in_caps(
                cap_exts,
                #[trigger] spec_consumer_header_extensions(exts, cap_exts)[k],
            ),
    decreases exts.len(),
{
    if exts.len() > 0 {
        lemma_consumer_extensions_subset(exts.drop_first(), cap_exts);
        let rest = spec_consumer_header_extensions(exts.drop_first(), cap_exts);
        let out = spec_consumer_header_extensions(exts, cap_exts);
        if spec_ext_in_caps(cap_exts, exts[0]) {
            assert(out == seq![exts[0]] + rest);
            assert forall|k: int| 0 <= k < out.len() implies spec_ext_in_caps(
                cap_exts,
                #[trigger] out[k],
            ) by {
                if k > 0 {
                    assert(out[k] == rest[k - 1]);
                }
            }
        }
    }
}

/// Law: after the feedback-reduction policy, no consumer codec keeps
/// both `transport-cc` and `goog-remb`: whichever branch of the policy
/// applies, at least one of the two is stripped from every codec.
pub proof fn lemma_consumer_feedback_policy(
    sane: Seq<crate::rtp_parameters::RtpCodecParametersV>,
    exts: Seq<RtpHeaderExtensionParameters>,
)
    ensures
        forall|i: int|
            0 <= i < spec_consumer_codecs(sane, exts).len() ==> {
                let fb = (#[trigger] spec_consumer_codecs(sane, exts)[i]).rtcp_feedback;
                (forall|k: int| 0 <= k < fb.len() ==> #[trigger] fb[k] != RtcpFeedback::GoogRemb)
                    || (forall|k: int|
                    0 <= k < fb.len() ==> #[trigger] fb[k] != RtcpFeedback::TransportCC)
            },
{
    lemma_consumer_codecs_identity(sane, exts);
    let flags = spec_feedback_removal(exts);
    assert(flags.0 || flags.1);
    assert forall|i: int| 0 <= i < spec_consumer_codecs(sane, exts).len() implies {
        let fb = (#[trigger] spec_consumer_codecs(sane, exts)[i]).rtcp_feedback;
        (forall|k: int| 0 <= k < fb.len() ==> #[trigger] fb[k] != RtcpFeedback::GoogRemb) || (
        forall|k: int| 0 <= k < fb.len() ==> #[trigger] fb[k] != RtcpFeedback::TransportCC)
    } by {
        lemma_filter_feedback_removes(sane[i].rtcp_feedback, flags.0, flags.1);
    }
}

/// Law: a pipe consumer carries none of the MID, abs-send-time or
/// transport-wide congestion-control extensions.
pub proof fn lemma_pipe_no_bwe_extensions(exts: Seq<RtpHeaderExtensionParameters>)
    ensures
        forall|k: int|
            0 <= k < spec_pipe_header_extensions(exts).len() ==> {
                let uri = (#[trigger] spec_pipe_header_extensions(exts)[k]).uri;
                &&& uri != crate::rtp_parameters::RtpHeaderExtensionUri::MID
                &&& uri != crate::rtp_parameters::RtpHeaderExtensionUri::AbsSendTime
                &&& uri != crate::rtp_parameters::RtpHeaderExtensionUri::TransportWideCCDraft01
            },
    decreases exts.len(),
{
    if exts.len() > 0 {
        lemma_pipe_no_bwe_extensions(exts.drop_first());
    }
}

/// Law: a pipe consumer carries RTX codecs exactly when RTX is
/// enabled, provided the consumable parameters carry one at all: with
/// RTX disabled no RTX codec survives, and with RTX enabled every
/// consumable codec survives with its kind unchanged.
pub proof fn lemma_pipe_rtx_iff(
    codecs: Seq<crate::rtp_parameters::RtpCodecParametersV>,
    enable_rtx: bool,
)
    ensures
        !enable_rtx ==> forall|k: int|
            0 <= k < spec_pipe_codecs(codecs, enable_rtx).len() ==> !(#[trigger] spec_pipe_codecs(
                codecs,
                enable_rtx,
            )[k]).mime_type.spec_is_rtx(),
        enable_rtx ==> {
            &&& spec_pipe_codecs(codecs, enable_rtx).len() == codecs.len()
            &&& forall|k: int|
                0 <= k < codecs.len() ==> (#[trigger] spec_pipe_codecs(codecs, enable_rtx)[k]).mime_type
                    == codecs[k].mime_type
        },
    decreases codecs.len(),
{
    if codecs.len() > 0 {
        lemma_pipe_rtx_iff(codecs.drop_first(), enable_rtx);
    }
}



proof fn lemma_find_map_pt_found(map_codecs: Seq<RtpMappingCodec>, pt: u8)
    requires
        spec_find_map_pt(map_codecs, pt) is Some,
    ensures
        exists|k: int|
            0 <= k < map_codecs.len() && (#[trigger] map_codecs[k]).mapped_payload_type
                == spec_find_map_pt(map_codecs, pt)->Some_0,
    decreases map_codecs.len(),
{
    if map_codecs.len() > 0 {
        if map_codecs[0].payload_type == pt {
            assert(map_codecs[0].mapped_payload_type == spec_find_map_pt(map_codecs, pt)->Some_0);
        } else {
            lemma_find_map_pt_found(map_codecs.drop_first(), pt);
            let k0 = choose|k: int|
                0 <= k < map_codecs.drop_first().len() && (#[trigger] map_codecs.drop_first()[
                    k
                ]).mapped_payload_type == spec_find_map_pt(map_codecs.drop_first(), pt)->Some_0;
            assert(map_codecs[k0 + 1].mapped_payload_type == spec_find_map_pt(
                map_codecs,
                pt,
            )->Some_0);
        }
    }
}

proof fn lemma_find_cap_by_pt_found(
    caps: Seq<crate::rtp_parameters::RtpCodecCapabilityFinalizedV>,
    pt: u8,
)
    requires
        spec_find_cap_by_pt(caps, pt) is Some,
    ensures
        spec_find_cap_by_pt(caps, pt)->Some_0.preferred_payload_type == pt,
    decreases caps.len(),
{
    if caps.len() > 0 && caps[0].preferred_payload_type != pt {
        lemma_find_cap_by_pt_found(caps.drop_first(), pt);
    }
}

proof fn lemma_find_cap_rtx_found(
    caps: Seq<crate::rtp_parameters::RtpCodecCapabilityFinalizedV>,
    target: u8,
)
    requires
        spec_find_cap_rtx(caps, target) is Some,
    ensures
        spec_find_cap_rtx(caps, target)->Some_0.mime_type.spec_is_rtx(),
        spec_apt_number(spec_find_cap_rtx(caps, target)->Some_0.parameters) == Some(target as u32),
    decreases caps.len(),
{
    if caps.len() > 0 && !(caps[0].mime_type.spec_is_rtx() && spec_apt_number(caps[0].parameters)
        == Some(target as u32)) {
        lemma_find_cap_rtx_found(caps.drop_first(), target);
    }
}

/// Law: in consumable parameters, every non-RTX codec carries a mapped
/// payload type recorded in the mapping, and every RTX codec directly
/// follows its media codec, its `apt` naming that codec's payload
/// type. The mapping and capabilities must cover every non-RTX
/// producer codec, with each mapped payload type naming a non-RTX
/// capability, as the earlier stages guarantee.
#[verifier::rlimit(100)]
pub proof fn lemma_consumable_codecs_invariants(
    codecs: Seq<crate::rtp_parameters::RtpCodecParametersV>,
    caps: Seq<crate::rtp_parameters::RtpCodecCapabilityFinalizedV>,
    map_codecs: Seq<RtpMappingCodec>,
)
    requires
        forall|i: int|
            0 <= i < codecs.len() && !(#[trigger] codecs[i].mime_type.spec_is_rtx()) ==> {
                &&& spec_find_map_pt(map_codecs, codecs[i].payload_type) is Some
                &&& spec_find_cap_by_pt(
                    caps,
                    spec_find_map_pt(map_codecs, codecs[i].payload_type)->Some_0,
                ) is Some
                &&& !spec_find_cap_by_pt(
                    caps,
                    spec_find_map_pt(map_codecs, codecs[i].payload_type)->Some_0,
                )->Some_0.mime_type.spec_is_rtx()
            },
    ensures
        forall|j: int|
            0 <= j < spec_consumable_codecs(codecs, caps, map_codecs).len() && !(
            #[trigger] spec_consumable_codecs(codecs, caps, map_codecs)[j]).mime_type.spec_is_rtx()
                ==> exists|k: int|
                0 <= k < map_codecs.len() && (#[trigger] map_codecs[k]).mapped_payload_type
                    == spec_consumable_codecs(codecs, caps, map_codecs)[j].payload_type,
        forall|j: int|
            0 <= j < spec_consumable_codecs(codecs, caps, map_codecs).len() && (
            #[trigger] spec_consumable_codecs(codecs, caps, map_codecs)[j]).mime_type.spec_is_rtx()
                ==> {
                &&& j > 0
                &&& !spec_consumable_codecs(codecs, caps, map_codecs)[j - 1].mime_type.spec_is_rtx()
                &&& spec_apt_number(spec_consumable_codecs(codecs, caps, map_codecs)[j].parameters)
                    == Some(
                    spec_consumable_codecs(codecs, caps, map_codecs)[j - 1].payload_type as u32,
                )
            },
    decreases codecs.len(),
{
    let out = spec_consumable_codecs(codecs, caps, map_codecs);
    if codecs.len() > 0 {
        assert forall|i: int|
            0 <= i < codecs.drop_first().len() && !(#[trigger] codecs.drop_first()[
                i
            ].mime_type.spec_is_rtx()) implies {
            &&& spec_find_map_pt(map_codecs, codecs.drop_first()[i].payload_type) is Some
            &&& spec_find_cap_by_pt(
                caps,
                spec_find_map_pt(map_codecs, codecs.drop_first()[i].payload_type)->Some_0,
            ) is Some
            &&& !spec_find_cap_by_pt(
                caps,
                spec_find_map_pt(map_codecs, codecs.drop_first()[i].payload_type)->Some_0,
            )->Some_0.mime_type.spec_is_rtx()
        } by {
            assert(codecs.drop_first()[i] == codecs[i + 1]);
        }
        lemma_consumable_codecs_invariants(codecs.drop_first(), caps, map_codecs);
        let rest = spec_consumable_codecs(codecs.drop_first(), caps, map_codecs);
        if codecs[0].mime_type.spec_is_rtx() {
            assert(out == rest);
        } else {
            let pt = spec_find_map_pt(map_codecs, codecs[0].payload_type)->Some_0;
            lemma_find_map_pt_found(map_codecs, codecs[0].payload_type);
            lemma_find_cap_by_pt_found(caps, pt);
            let cap = spec_find_cap_by_pt(caps, pt)->Some_0;
            let consumable = spec_codec_from_cap(cap, codecs[0].parameters);
            assert(!consumable.mime_type.spec_is_rtx());
            assert(exists|k: int|
                0 <= k < map_codecs.len() && (#[trigger] map_codecs[k]).mapped_payload_type
                    == consumable.payload_type);
            match spec_find_cap_rtx(caps, consumable.payload_type) {
                Some(rtx_cap) => {
                    lemma_find_cap_rtx_found(caps, consumable.payload_type);
                    let rtx_codec = spec_codec_from_cap(rtx_cap, rtx_cap.parameters);
                    assert(out == seq![consumable, rtx_codec] + rest);
                    assert forall|j: int|
                        0 <= j < out.len() && !(#[trigger] out[j]).mime_type.spec_is_rtx() implies
                        exists|k: int|
                            0 <= k < map_codecs.len() && (#[trigger] map_codecs[
                                k
                            ]).mapped_payload_type == out[j].payload_type by {
                        if j >= 2 {
                            assert(out[j] == rest[j - 2]);
                        }
                    }
                    assert forall|j: int|
                        0 <= j < out.len() && (#[trigger] out[j]).mime_type.spec_is_rtx() implies {
                        &&& j > 0
                        &&& !out[j - 1].mime_type.spec_is_rtx()
                        &&& spec_apt_number(out[j].parameters) == Some(
                            out[j - 1].payload_type as u32,
                        )
                    } by {
                        if j >= 2 {
                            assert(out[j] == rest[j - 2]);
                            assert(out[j - 1] == rest[j - 3]);
                        } else {
                            assert(j == 1);
                            assert(out[0] == consumable);
                            assert(out[1] == rtx_codec);
                        }
                    }
                },
                None => {
                    assert(out == seq![consumable] + rest);
                    assert forall|j: int|
                        0 <= j < out.len() && !(#[trigger] out[j]).mime_type.spec_is_rtx() implies
                        exists|k: int|
                            0 <= k < map_codecs.len() && (#[trigger] map_codecs[
                                k
                            ]).mapped_payload_type == out[j].payload_type by {
                        if j >= 1 {
                            assert(out[j] == rest[j - 1]);
                        }
                    }
                    assert forall|j: int|
                        0 <= j < out.len() && (#[trigger] out[j]).mime_type.spec_is_rtx() implies {
                        &&& j > 0
                        &&& !out[j - 1].mime_type.spec_is_rtx()
                        &&& spec_apt_number(out[j].parameters) == Some(
                            out[j - 1].payload_type as u32,
                        )
                    } by {
                        assert(j >= 1);
                        assert(out[j] == rest[j - 1]);
                        if j >= 2 {
                            assert(out[j - 1] == rest[j - 2]);
                        }
                    }
                },
            }
        }
    }
}

/// The payload types of the codecs of one kind (RTX or media), in
/// codec order.
pub open spec fn spec_pts_of(
    codecs: Seq<crate::rtp_parameters::RtpCodecParametersV>,
    want_rtx: bool,
) -> Seq<u8>
    decreases codecs.len(),
{
    if codecs.len() == 0 {
        Seq::empty()
    } else {
        let rest = spec_pts_of(codecs.drop_first(), want_rtx);
        if codecs[0].mime_type.spec_is_rtx() == want_rtx {
            seq![codecs[0].payload_type] + rest
        } else {
            rest
        }
    }
}

proof fn lemma_pts_count(codecs: Seq<crate::rtp_parameters::RtpCodecParametersV>)
    ensures
        spec_pts_of(codecs, false).len() + spec_pts_of(codecs, true).len() == codecs.len(),
    decreases codecs.len(),
{
    if codecs.len() > 0 {
        lemma_pts_count(codecs.drop_first());
    }
}

proof fn lemma_map_media_pts(
    codecs: Seq<crate::rtp_parameters::RtpCodecParametersV>,
    caps: Seq<crate::rtp_parameters::RtpCodecCapabilityFinalizedV>,
    media: Seq<RtpMappingCodec>,
)
    requires
        spec_map_media_codecs(codecs, caps) == Ok::<_, RtpParametersMappingError>(media),
    ensures
        media.len() == spec_pts_of(codecs, false).len(),
        forall|k: int|
            0 <= k < media.len() ==> (#[trigger] media[k]).payload_type == spec_pts_of(
                codecs,
                false,
            )[k],
    decreases codecs.len(),
{
    if codecs.len() > 0 {
        if codecs[0].mime_type.spec_is_rtx() {
            lemma_map_media_pts(codecs.drop_first(), caps, media);
        } else {
            let rest = spec_map_media_codecs(codecs.drop_first(), caps)->Ok_0;
            lemma_map_media_pts(codecs.drop_first(), caps, rest);
            assert forall|k: int|
                0 <= k < media.len() implies (#[trigger] media[k]).payload_type == spec_pts_of(
                codecs,
                false,
            )[k] by {
                if k > 0 {
                    assert(media[k] == rest[k - 1]);
                    assert(spec_pts_of(codecs, false)[k] == spec_pts_of(
                        codecs.drop_first(),
                        false,
                    )[k - 1]);
                }
            }
        }
    }
}

proof fn lemma_map_rtx_pts(
    codecs: Seq<crate::rtp_parameters::RtpCodecParametersV>,
    caps: Seq<crate::rtp_parameters::RtpCodecCapabilityFinalizedV>,
    media: Seq<RtpMappingCodec>,
    rtx: Seq<RtpMappingCodec>,
)
    requires
        spec_map_rtx_codecs(codecs, caps, media) == Ok::<_, RtpParametersMappingError>(rtx),
    ensures
        rtx.len() == spec_pts_of(codecs, true).len(),
        forall|k: int|
            0 <= k < rtx.len() ==> (#[trigger] rtx[k]).payload_type == spec_pts_of(codecs, true)[k],
    decreases codecs.len(),
{
    if codecs.len() > 0 {
        if !codecs[0].mime_type.spec_is_rtx() {
            lemma_map_rtx_pts(codecs.drop_first(), caps, media, rtx);
        } else {
            let rest = spec_map_rtx_codecs(codecs.drop_first(), caps, media)->Ok_0;
            lemma_map_rtx_pts(codecs.drop_first(), caps, media, rest);
            assert forall|k: int|
                0 <= k < rtx.len() implies (#[trigger] rtx[k]).payload_type == spec_pts_of(
                codecs,
                true,
            )[k] by {
                if k > 0 {
                    assert(rtx[k] == rest[k - 1]);
                    assert(spec_pts_of(codecs, true)[k] == spec_pts_of(
                        codecs.drop_first(),
                        true,
                    )[k - 1]);
                }
            }
        }
    }
}

/// Law: a producer mapping carries one entry per producer codec: first
/// the non-RTX codecs' payload types in codec order, then the RTX
/// codecs' payload types in codec order, so every codec appears
/// exactly once and the order follows the iteration over the
/// producer's codecs.
pub proof fn lemma_producer_mapping_complete(
    codecs: Seq<crate::rtp_parameters::RtpCodecParametersV>,
    caps: Seq<crate::rtp_parameters::RtpCodecCapabilityFinalizedV>,
    entries: Seq<RtpMappingCodec>,
)
    requires
        spec_producer_mapping_codecs(codecs, caps) == Ok::<_, RtpParametersMappingError>(entries),
    ensures
        entries.len() == codecs.len(),
        forall|k: int|
            0 <= k < spec_pts_of(codecs, false).len() ==> (#[trigger] entries[k]).payload_type
                == spec_pts_of(codecs, false)[k],
        forall|k: int|
            spec_pts_of(codecs, false).len() <= k < entries.len()
                ==> (#[trigger] entries[k]).payload_type == spec_pts_of(codecs, true)[k - spec_pts_of(
                codecs,
                false,
            ).len()],
{
    let media = spec_map_media_codecs(codecs, caps)->Ok_0;
    let rtx = spec_map_rtx_codecs(codecs, caps, media)->Ok_0;
    lemma_map_media_pts(codecs, caps, media);
    lemma_map_rtx_pts(codecs, caps, media, rtx);
    lemma_pts_count(codecs);
    assert(entries == media + rtx);
}



proof fn lemma_pool_remove_props(pool: Seq<u8>, pt: u8)
    requires
        forall|i: int, j: int| 0 <= i < j < pool.len() ==> pool[i] != pool[j],
    ensures
        forall|i: int|
            0 <= i < spec_pool_remove(pool, pt).len() ==> #[trigger] spec_pool_remove(pool, pt)[i]
                != pt,
        forall|i: int|
            0 <= i < spec_pool_remove(pool, pt).len() ==> exists|j: int|
                0 <= j < pool.len() && pool[j] == #[trigger] spec_pool_remove(pool, pt)[i],
        forall|i: int, j: int|
            0 <= i < j < spec_pool_remove(pool, pt).len() ==> spec_pool_remove(pool, pt)[i]
                != spec_pool_remove(pool, pt)[j],
    decreases pool.len(),
{
    if pool.len() > 0 {
        lemma_pool_remove_props(pool.drop_first(), pt);
        let rest = spec_pool_remove(pool.drop_first(), pt);
        let out = spec_pool_remove(pool, pt);
        if pool[0] == pt {
            assert forall|i: int| 0 <= i < out.len() implies exists|j: int|
                0 <= j < pool.len() && pool[j] == #[trigger] out[i] by {
                let j0 = choose|j: int|
                    0 <= j < pool.drop_first().len() && pool.drop_first()[j] == out[i];
                assert(pool[j0 + 1] == out[i]);
            }
        } else {
            assert(out == seq![pool[0]] + rest);
            assert forall|i: int| 0 <= i < out.len() implies exists|j: int|
                0 <= j < pool.len() && pool[j] == #[trigger] out[i] by {
                if i == 0 {
                    assert(pool[0] == out[0]);
                } else {
                    assert(out[i] == rest[i - 1]);
                    let j0 = choose|j: int|
                        0 <= j < pool.drop_first().len() && pool.drop_first()[j] == rest[i - 1];
                    assert(pool[j0 + 1] == out[i]);
                }
            }
            assert forall|i: int, j: int| 0 <= i < j < out.len() implies out[i] != out[j] by {
                if i == 0 {
                    // pool[0] does not recur in the rest of a duplicate-free pool
                    assert(out[j] == rest[j - 1]);
                    let j0 = choose|k: int|
                        0 <= k < pool.drop_first().len() && pool.drop_first()[k] == rest[j - 1];
                    assert(pool[j0 + 1] == out[j]);
                } else {
                    assert(out[i] == rest[i - 1]);
                    assert(out[j] == rest[j - 1]);
                }
            }
        }
    }
}

proof fn lemma_find_supported_found(
    sup: Seq<crate::rtp_parameters::RtpCodecCapabilityV>,
    c: CodecToMatchV,
)
    requires
        spec_find_supported(sup, c) is Some,
    ensures
        exists|k: int|
            0 <= k < sup.len() && #[trigger] sup[k] == spec_find_supported(sup, c)->Some_0,
        spec_codecs_do_match(c, spec_find_supported(sup, c)->Some_0.to_match(), false),
        c.mime_type == spec_find_supported(sup, c)->Some_0.mime_type,
    decreases sup.len(),
{
    if sup.len() > 0 {
        if spec_codecs_do_match(c, sup[0].to_match(), false) {
            assert(sup[0] == spec_find_supported(sup, c)->Some_0);
        } else {
            lemma_find_supported_found(sup.drop_first(), c);
            let k0 = choose|k: int|
                0 <= k < sup.drop_first().len() && #[trigger] sup.drop_first()[k]
                    == spec_find_supported(sup.drop_first(), c)->Some_0;
            assert(sup[k0 + 1] == spec_find_supported(sup, c)->Some_0);
        }
    }
}

proof fn lemma_supported_table_entry_props()
    ensures
        forall|k: int|
            0 <= k < crate::supported_rtp_capabilities::spec_supported_codecs().len() ==> {
                let entry = #[trigger] crate::supported_rtp_capabilities::spec_supported_codecs()[
                    k
                ];
                &&& (entry.preferred_payload_type is Some ==> entry.preferred_payload_type->Some_0
                    < 96)
                &&& !entry.mime_type.spec_is_rtx()
            },
{
    assert forall|k: int|
        0 <= k < crate::supported_rtp_capabilities::spec_supported_codecs().len() implies {
        let entry = #[trigger] crate::supported_rtp_capabilities::spec_supported_codecs()[k];
        &&& (entry.preferred_payload_type is Some ==> entry.preferred_payload_type->Some_0 < 96)
        &&& !entry.mime_type.spec_is_rtx()
    } by {
        let table = crate::supported_rtp_capabilities::spec_supported_codecs();
        assert(table.len() == 20);
        if k == 1 {
            assert(table[1].preferred_payload_type == Some(0u8));
        } else if k == 2 {
            assert(table[2].preferred_payload_type == Some(8u8));
        } else if k == 5 {
            assert(table[5].preferred_payload_type == Some(9u8));
        } else if k == 7 || k == 8 || k == 9 {
            assert(table[k].preferred_payload_type == Some(13u8));
        } else {
            assert(table[k].preferred_payload_type is None);
        }
    }
}

/// Whether the finalized codec at position `i` is a video media codec.
pub open spec fn spec_is_video_media(
    fins: Seq<crate::rtp_parameters::RtpCodecCapabilityFinalizedV>,
    i: int,
) -> bool {
    &&& fins[i].mime_type is Video
    &&& !fins[i].mime_type.spec_is_rtx()
}

/// The finalized-capability invariants: unique payload types in 0-127,
/// every video media codec immediately followed by its RTX companion,
/// and every codec's feedback drawn from the supported table (empty
/// for RTX companions).
pub open spec fn spec_finalized_invariants(
    fins: Seq<crate::rtp_parameters::RtpCodecCapabilityFinalizedV>,
) -> bool {
    &&& forall|i: int, j: int|
        0 <= i < j < fins.len() ==> (#[trigger] fins[i]).preferred_payload_type != (
        #[trigger] fins[j]).preferred_payload_type
    &&& forall|i: int| 0 <= i < fins.len() ==> (#[trigger] fins[i]).preferred_payload_type <= 127
    &&& forall|i: int|
        #![trigger spec_is_video_media(fins, i)]
        0 <= i < fins.len() && spec_is_video_media(fins, i) ==> {
            &&& i + 1 < fins.len()
            &&& fins[i + 1].mime_type == MimeType::Video(MimeTypeVideo::Rtx)
            &&& spec_apt_number(fins[i + 1].parameters) == Some(
                fins[i].preferred_payload_type as u32,
            )
        }
    &&& forall|i: int|
        0 <= i < fins.len() && !(#[trigger] fins[i]).mime_type.spec_is_rtx() ==> exists|k: int|
            {
                let entry = #[trigger] crate::supported_rtp_capabilities::spec_supported_codecs()[
                    k
                ];
                &&& 0 <= k < crate::supported_rtp_capabilities::spec_supported_codecs().len()
                &&& entry.mime_type == fins[i].mime_type
                &&& entry.rtcp_feedback == fins[i].rtcp_feedback
            }
    &&& forall|i: int|
        0 <= i < fins.len() && (#[trigger] fins[i]).mime_type.spec_is_rtx() ==> fins[
            i
        ].rtcp_feedback == Seq::<RtcpFeedback>::empty()
}

#[verifier::rlimit(100)]
proof fn lemma_finalize_codecs_props(
    codecs: Seq<crate::rtp_parameters::RtpCodecCapabilityV>,
    pool: Seq<u8>,
    acc: Seq<crate::rtp_parameters::RtpCodecCapabilityFinalizedV>,
    fins: Seq<crate::rtp_parameters::RtpCodecCapabilityFinalizedV>,
)
    requires
        spec_finalize_codecs(
            crate::supported_rtp_capabilities::spec_supported_codecs(),
            codecs,
            pool,
            acc,
        ) == Ok::<_, RtpCapabilitiesErrorV>(fins),
        forall|i: int|
            0 <= i < codecs.len() && (#[trigger] codecs[i]).preferred_payload_type is Some
                ==> codecs[i].preferred_payload_type->Some_0 <= 127,
        forall|i: int| 0 <= i < pool.len() ==> 96 <= #[trigger] pool[i] <= 127,
        forall|i: int, j: int| 0 <= i < j < pool.len() ==> pool[i] != pool[j],
        forall|i: int, j: int|
            0 <= i < acc.len() && 0 <= j < pool.len() ==> (#[trigger] acc[i]).preferred_payload_type
                != #[trigger] pool[j],
        spec_finalized_invariants(acc),
    ensures
        spec_finalized_invariants(fins),
    decreases codecs.len(),
{
    let sup = crate::supported_rtp_capabilities::spec_supported_codecs();
    if codecs.len() == 0 {
        assert(fins == acc);
    } else {
        let c = codecs[0];
        let step = spec_finalize_step(sup, c, pool, acc);
        let m = spec_find_supported(sup, c.to_match())->Some_0;
        lemma_find_supported_found(sup, c.to_match());
        lemma_supported_table_entry_props();
        let k0 = choose|k: int| 0 <= k < sup.len() && #[trigger] sup[k] == m;
        assert(!m.mime_type.spec_is_rtx());
        assert(m.preferred_payload_type is Some ==> m.preferred_payload_type->Some_0 < 96);

        // The payload type settled on and the pool that remains.
        let pt_choice: Result<(u8, Seq<u8>), RtpCapabilitiesErrorV> = match c.preferred_payload_type {
            Some(pt) => Ok((pt, spec_pool_remove(pool, pt))),
            None => match m.preferred_payload_type {
                Some(pt) => Ok((pt, pool)),
                None => if pool.len() == 0 {
                    Err(RtpCapabilitiesErrorV::CannotAllocate)
                } else {
                    Ok((pool[0], pool.drop_first()))
                },
            },
        };
        let (pt, pool1) = pt_choice->Ok_0;
        if c.preferred_payload_type is Some {
            lemma_pool_remove_props(pool, pt);
            assert forall|i: int| 0 <= i < pool1.len() implies 96 <= #[trigger] pool1[i] <= 127 by {
                let j0 = choose|j: int| 0 <= j < pool.len() && pool[j] == pool1[i];
            }
            assert forall|i: int, j: int|
                0 <= i < acc.len() && 0 <= j < pool1.len() implies (
            #[trigger] acc[i]).preferred_payload_type != #[trigger] pool1[j] by {
                let j0 = choose|jj: int| 0 <= jj < pool.len() && pool[jj] == pool1[j];
            }
        }
        assert(pt <= 127);
        assert(forall|j: int| 0 <= j < pool1.len() ==> #[trigger] pool1[j] != pt);
        assert(forall|i: int| 0 <= i < pool1.len() ==> 96 <= #[trigger] pool1[i] <= 127);
        assert(forall|i: int, j: int| 0 <= i < j < pool1.len() ==> pool1[i] != pool1[j]);
        assert(forall|i: int, j: int|
            0 <= i < acc.len() && 0 <= j < pool1.len() ==> (#[trigger] acc[i]).preferred_payload_type
                != #[trigger] pool1[j]);

        let fin = spec_finalized_codec(m, c, pt);
        assert(fin.mime_type == m.mime_type);
        assert(!(exists|j: int|
            0 <= j < acc.len() && #[trigger] acc[j].preferred_payload_type == pt));
        assert(forall|j: int| 0 <= j < acc.len() ==> #[trigger] acc[j].preferred_payload_type != pt);

        if m.mime_type is Video {
            let rtx_pt = pool1[0];
            let rtx = spec_rtx_codec(m.clock_rate, pt, rtx_pt);
            let acc2 = acc.push(fin).push(rtx);
            let pool2 = pool1.drop_first();
            assert(spec_apt_number(spec_rtx_parameters(pt)) == Some(pt as u32));
            assert(spec_finalized_invariants(acc2)) by {
                assert(forall|i: int|
                    0 <= i < acc.len() ==> #[trigger] acc2[i] == acc[i]);
                assert(acc2[acc.len() as int] == fin);
                assert(acc2[acc.len() as int + 1] == rtx);
                assert(rtx.preferred_payload_type == rtx_pt);
                assert(rtx_pt != pt);
                assert(forall|j: int|
                    0 <= j < acc.len() ==> #[trigger] acc[j].preferred_payload_type != rtx_pt);
                assert(spec_is_video_media(acc2, acc.len() as int));
                assert(!spec_is_video_media(acc2, acc.len() as int + 1));
                assert forall|i: int|
                    0 <= i < acc2.len() && spec_is_video_media(acc2, i) implies {
                    &&& i + 1 < acc2.len()
                    &&& (#[trigger] acc2[i + 1]).mime_type == MimeType::Video(MimeTypeVideo::Rtx)
                    &&& spec_apt_number(acc2[i + 1].parameters) == Some(
                        acc2[i].preferred_payload_type as u32,
                    )
                } by {
                    if i < acc.len() {
                        assert(spec_is_video_media(acc, i));
                        assert(i + 1 < acc.len());
                        assert(acc2[i + 1] == acc[i + 1]);
                    }
                }
                assert forall|i: int|
                    0 <= i < acc2.len() && !(#[trigger] acc2[i]).mime_type.spec_is_rtx() implies
                    exists|k: int|
                        {
                            let entry = #[trigger] crate::supported_rtp_capabilities::spec_supported_codecs()[
                                k
                            ];
                            &&& 0 <= k
                                < crate::supported_rtp_capabilities::spec_supported_codecs().len()
                            &&& entry.mime_type == acc2[i].mime_type
                            &&& entry.rtcp_feedback == acc2[i].rtcp_feedback
                        } by {
                    if i < acc.len() {
                        assert(acc2[i] == acc[i]);
                    } else {
                        assert(i == acc.len());
                        assert(sup[k0].mime_type == fin.mime_type && sup[k0].rtcp_feedback
                            == fin.rtcp_feedback);
                    }
                }
            }
            assert forall|i: int, j: int|
                0 <= i < acc2.len() && 0 <= j < pool2.len() implies (
            #[trigger] acc2[i]).preferred_payload_type != #[trigger] pool2[j] by {
                assert(pool2[j] == pool1[j + 1]);
                if i < acc.len() {
                    assert(acc2[i] == acc[i]);
                }
            }
            assert forall|i: int| 0 <= i < pool2.len() implies 96 <= #[trigger] pool2[i]
                <= 127 by {
                assert(pool2[i] == pool1[i + 1]);
            }
            assert forall|i: int, j: int| 0 <= i < j < pool2.len() implies pool2[i] != pool2[j] by {
                assert(pool2[i] == pool1[i + 1]);
                assert(pool2[j] == pool1[j + 1]);
            }
            assert forall|i: int|
                0 <= i < codecs.drop_first().len() && (#[trigger] codecs.drop_first()[
                    i
                ]).preferred_payload_type is Some implies codecs.drop_first()[
                i
            ].preferred_payload_type->Some_0 <= 127 by {
                assert(codecs.drop_first()[i] == codecs[i + 1]);
            }
            lemma_finalize_codecs_props(codecs.drop_first(), pool2, acc2, fins);
        } else {
            let acc2 = acc.push(fin);
            assert(spec_finalized_invariants(acc2)) by {
                assert(forall|i: int| 0 <= i < acc.len() ==> #[trigger] acc2[i] == acc[i]);
                assert(acc2[acc.len() as int] == fin);
                assert(!fin.mime_type.spec_is_rtx());
                assert(fin.mime_type is Audio);
                assert(!spec_is_video_media(acc2, acc.len() as int));
                assert forall|i: int|
                    0 <= i < acc2.len() && spec_is_video_media(acc2, i) implies {
                    &&& i + 1 < acc2.len()
                    &&& (#[trigger] acc2[i + 1]).mime_type == MimeType::Video(MimeTypeVideo::Rtx)
                    &&& spec_apt_number(acc2[i + 1].parameters) == Some(
                        acc2[i].preferred_payload_type as u32,
                    )
                } by {
                    if i < acc.len() {
                        assert(spec_is_video_media(acc, i));
                        assert(i + 1 < acc.len());
                        assert(acc2[i + 1] == acc[i + 1]);
                    }
                }
                assert forall|i: int|
                    0 <= i < acc2.len() && !(#[trigger] acc2[i]).mime_type.spec_is_rtx() implies
                    exists|k: int|
                        {
                            let entry = #[trigger] crate::supported_rtp_capabilities::spec_supported_codecs()[
                                k
                            ];
                            &&& 0 <= k
                                < crate::supported_rtp_capabilities::spec_supported_codecs().len()
                            &&& entry.mime_type == acc2[i].mime_type
                            &&& entry.rtcp_feedback == acc2[i].rtcp_feedback
                        } by {
                    if i < acc.len() {
                        assert(acc2[i] == acc[i]);
                    } else {
                        assert(sup[k0].mime_type == fin.mime_type && sup[k0].rtcp_feedback
                            == fin.rtcp_feedback);
                    }
                }
            }
            assert forall|i: int, j: int|
                0 <= i < acc2.len() && 0 <= j < pool1.len() implies (
            #[trigger] acc2[i]).preferred_payload_type != #[trigger] pool1[j] by {
                if i < acc.len() {
                    assert(acc2[i] == acc[i]);
                }
            }
            assert forall|i: int|
                0 <= i < codecs.drop_first().len() && (#[trigger] codecs.drop_first()[
                    i
                ]).preferred_payload_type is Some implies codecs.drop_first()[
                i
            ].preferred_payload_type->Some_0 <= 127 by {
                assert(codecs.drop_first()[i] == codecs[i + 1]);
            }
            lemma_finalize_codecs_props(codecs.drop_first(), pool1, acc2, fins);
        }
    }
}

/// Law: the finalized capabilities produced from valid input satisfy
/// the capability invariants: every preferred payload type is unique
/// and lies in 0-127, every video media codec is immediately followed
/// by an RTX companion whose `apt` names its payload type, every media
/// codec's feedback equals a supported-table entry's for the same mime
/// type, and every RTX companion's feedback is empty. Valid input
/// means every input preference lies in 0-127.
pub proof fn lemma_router_capabilities_invariants(
    media_codecs: Seq<crate::rtp_parameters::RtpCodecCapabilityV>,
    fins: Seq<crate::rtp_parameters::RtpCodecCapabilityFinalizedV>,
)
    requires
        spec_generate_router_rtp_capabilities(media_codecs) == Ok::<_, RtpCapabilitiesErrorV>(fins),
        forall|i: int|
            0 <= i < media_codecs.len() && (#[trigger] media_codecs[i]).preferred_payload_type is Some
                ==> media_codecs[i].preferred_payload_type->Some_0 <= 127,
    ensures
        spec_finalized_invariants(fins),
{
    let pool = spec_dynamic_payload_types();
    assert(forall|i: int| 0 <= i < pool.len() ==> 96 <= #[trigger] pool[i] <= 127);
    assert(forall|i: int, j: int| 0 <= i < j < pool.len() ==> pool[i] != pool[j]);
    lemma_finalize_codecs_props(
        media_codecs,
        pool,
        Seq::empty(),
        fins,
    );
}



proof fn lemma_find_cap_member(
    caps: Seq<crate::rtp_parameters::RtpCodecCapabilityFinalizedV>,
    c: CodecToMatchV,
)
    requires
        spec_find_cap(caps, c) is Some,
    ensures
        exists|k: int| 0 <= k < caps.len() && #[trigger] caps[k] == spec_find_cap(caps, c)->Some_0,
        spec_codecs_do_match(c, spec_find_cap(caps, c)->Some_0.to_match(), true),
        c.mime_type == spec_find_cap(caps, c)->Some_0.mime_type,
    decreases caps.len(),
{
    if caps.len() > 0 {
        if spec_codecs_do_match(c, caps[0].to_match(), true) {
            assert(caps[0] == spec_find_cap(caps, c)->Some_0);
        } else {
            lemma_find_cap_member(caps.drop_first(), c);
            let k0 = choose|k: int|
                0 <= k < caps.drop_first().len() && #[trigger] caps.drop_first()[k]
                    == spec_find_cap(caps.drop_first(), c)->Some_0;
            assert(caps[k0 + 1] == spec_find_cap(caps, c)->Some_0);
        }
    }
}

proof fn lemma_map_media_entries_caps(
    codecs: Seq<crate::rtp_parameters::RtpCodecParametersV>,
    caps: Seq<crate::rtp_parameters::RtpCodecCapabilityFinalizedV>,
    media: Seq<RtpMappingCodec>,
)
    requires
        spec_map_media_codecs(codecs, caps) == Ok::<_, RtpParametersMappingError>(media),
    ensures
        forall|k: int|
            0 <= k < media.len() ==> exists|j: int|
                0 <= j < caps.len() && (#[trigger] caps[j]).preferred_payload_type == (
                #[trigger] media[k]).mapped_payload_type && !caps[j].mime_type.spec_is_rtx(),
    decreases codecs.len(),
{
    if codecs.len() > 0 {
        if codecs[0].mime_type.spec_is_rtx() {
            lemma_map_media_entries_caps(codecs.drop_first(), caps, media);
        } else {
            let rest = spec_map_media_codecs(codecs.drop_first(), caps)->Ok_0;
            lemma_map_media_entries_caps(codecs.drop_first(), caps, rest);
            let cap = spec_find_cap(caps, codecs[0].to_match())->Some_0;
            lemma_find_cap_member(caps, codecs[0].to_match());
            assert forall|k: int| 0 <= k < media.len() implies exists|j: int|
                0 <= j < caps.len() && (#[trigger] caps[j]).preferred_payload_type == (
                #[trigger] media[k]).mapped_payload_type && !caps[j].mime_type.spec_is_rtx() by {
                if k == 0 {
                    let j0 = choose|j: int| 0 <= j < caps.len() && #[trigger] caps[j] == cap;
                    assert(caps[j0].preferred_payload_type == media[0].mapped_payload_type
                        && !caps[j0].mime_type.spec_is_rtx());
                } else {
                    assert(media[k] == rest[k - 1]);
                }
            }
        }
    }
}

proof fn lemma_find_map_pt_exists(map_codecs: Seq<RtpMappingCodec>, pt: u8)
    ensures
        spec_find_map_pt(map_codecs, pt) is Some <==> exists|k: int|
            0 <= k < map_codecs.len() && (#[trigger] map_codecs[k]).payload_type == pt,
    decreases map_codecs.len(),
{
    if map_codecs.len() > 0 {
        lemma_find_map_pt_exists(map_codecs.drop_first(), pt);
        if map_codecs[0].payload_type == pt {
        } else if spec_find_map_pt(map_codecs.drop_first(), pt) is Some {
            let k0 = choose|k: int|
                0 <= k < map_codecs.drop_first().len() && (#[trigger] map_codecs.drop_first()[
                    k
                ]).payload_type == pt;
            assert(map_codecs[k0 + 1].payload_type == pt);
        } else {
            if exists|k: int|
                0 <= k < map_codecs.len() && (#[trigger] map_codecs[k]).payload_type == pt {
                let k0 = choose|k: int|
                    0 <= k < map_codecs.len() && (#[trigger] map_codecs[k]).payload_type == pt;
                assert(map_codecs.drop_first()[k0 - 1].payload_type == pt);
            }
        }
    }
}

proof fn lemma_find_map_pt_concat(a: Seq<RtpMappingCodec>, b: Seq<RtpMappingCodec>, pt: u8)
    ensures
        spec_find_map_pt(a + b, pt) == (if spec_find_map_pt(a, pt) is Some {
            spec_find_map_pt(a, pt)
        } else {
            spec_find_map_pt(b, pt)
        }),
    decreases a.len(),
{
    if a.len() == 0 {
        assert(a + b =~= b);
    } else {
        lemma_find_map_pt_concat(a.drop_first(), b, pt);
        assert((a + b).drop_first() =~= a.drop_first() + b);
        assert((a + b)[0] == a[0]);
    }
}

proof fn lemma_find_cap_by_pt_exists(
    caps: Seq<crate::rtp_parameters::RtpCodecCapabilityFinalizedV>,
    pt: u8,
)
    ensures
        spec_find_cap_by_pt(caps, pt) is Some <==> exists|j: int|
            0 <= j < caps.len() && (#[trigger] caps[j]).preferred_payload_type == pt,
    decreases caps.len(),
{
    if caps.len() > 0 {
        lemma_find_cap_by_pt_exists(caps.drop_first(), pt);
        if caps[0].preferred_payload_type == pt {
        } else if spec_find_cap_by_pt(caps.drop_first(), pt) is Some {
            let k0 = choose|j: int|
                0 <= j < caps.drop_first().len() && (#[trigger] caps.drop_first()[
                    j
                ]).preferred_payload_type == pt;
            assert(caps[k0 + 1].preferred_payload_type == pt);
        } else {
            if exists|j: int|
                0 <= j < caps.len() && (#[trigger] caps[j]).preferred_payload_type == pt {
                let k0 = choose|j: int|
                    0 <= j < caps.len() && (#[trigger] caps[j]).preferred_payload_type == pt;
                assert(caps.drop_first()[k0 - 1].preferred_payload_type == pt);
            }
        }
    }
}

proof fn lemma_find_cap_by_pt_first(
    caps: Seq<crate::rtp_parameters::RtpCodecCapabilityFinalizedV>,
    pt: u8,
    j: int,
)
    requires
        0 <= j < caps.len(),
        caps[j].preferred_payload_type == pt,
        forall|i: int, i2: int|
            0 <= i < i2 < caps.len() ==> (#[trigger] caps[i]).preferred_payload_type != (
            #[trigger] caps[i2]).preferred_payload_type,
    ensures
        spec_find_cap_by_pt(caps, pt) == Some(caps[j]),
{
    assert forall|i: int| 0 <= i < j implies #[trigger] caps[i].preferred_payload_type != pt by {}
    lemma_find_cap_by_pt_at(caps, pt, j);
}

/// Law: a successful producer mapping covers its producer: for every
/// non-RTX producer codec the mapping records a mapped payload type,
/// that payload type names a capability codec, and (with the unique
/// payload types a finalized capability set has) that capability is a
/// media codec. This is exactly what the consumable builder requires
/// of its inputs.
pub proof fn lemma_mapping_covers_producer(
    codecs: Seq<crate::rtp_parameters::RtpCodecParametersV>,
    caps: Seq<crate::rtp_parameters::RtpCodecCapabilityFinalizedV>,
    entries: Seq<RtpMappingCodec>,
)
    requires
        spec_producer_mapping_codecs(codecs, caps) == Ok::<_, RtpParametersMappingError>(entries),
        forall|i: int, j: int|
            0 <= i < j < caps.len() ==> (#[trigger] caps[i]).preferred_payload_type != (
            #[trigger] caps[j]).preferred_payload_type,
    ensures
        forall|i: int|
            0 <= i < codecs.len() && !(#[trigger] codecs[i].mime_type.spec_is_rtx()) ==> {
                &&& spec_find_map_pt(entries, codecs[i].payload_type) is Some
                &&& spec_find_cap_by_pt(
                    caps,
                    spec_find_map_pt(entries, codecs[i].payload_type)->Some_0,
                ) is Some
                &&& !spec_find_cap_by_pt(
                    caps,
                    spec_find_map_pt(entries, codecs[i].payload_type)->Some_0,
                )->Some_0.mime_type.spec_is_rtx()
            },
{
    let media = spec_map_media_codecs(codecs, caps)->Ok_0;
    let rtx = spec_map_rtx_codecs(codecs, caps, media)->Ok_0;
    assert(entries == media + rtx);
    lemma_map_media_pts(codecs, caps, media);
    lemma_map_media_entries_caps(codecs, caps, media);
    assert forall|i: int|
        0 <= i < codecs.len() && !(#[trigger] codecs[i].mime_type.spec_is_rtx()) implies {
        &&& spec_find_map_pt(entries, codecs[i].payload_type) is Some
        &&& spec_find_cap_by_pt(
            caps,
            spec_find_map_pt(entries, codecs[i].payload_type)->Some_0,
        ) is Some
        &&& !spec_find_cap_by_pt(
            caps,
            spec_find_map_pt(entries, codecs[i].payload_type)->Some_0,
        )->Some_0.mime_type.spec_is_rtx()
    } by {
        let pt = codecs[i].payload_type;
        lemma_media_pt_present(codecs, i);
        let k0 = choose|k: int|
            0 <= k < spec_pts_of(codecs, false).len() && spec_pts_of(codecs, false)[k] == pt;
        assert(media[k0].payload_type == pt);
        lemma_find_map_pt_exists(media, pt);
        lemma_find_map_pt_concat(media, rtx, pt);
        lemma_find_map_pt_member(media, pt);
        let kf = choose|k: int|
            0 <= k < media.len() && #[trigger] media[k] == (RtpMappingCodec {
                payload_type: pt,
                mapped_payload_type: spec_find_map_pt(media, pt)->Some_0,
            });
        let j0 = choose|j: int|
            0 <= j < caps.len() && (#[trigger] caps[j]).preferred_payload_type == media[
                kf
            ].mapped_payload_type && !caps[j].mime_type.spec_is_rtx();
        lemma_find_cap_by_pt_first(caps, media[kf].mapped_payload_type, j0);
    }
}

proof fn lemma_find_map_pt_member(map_codecs: Seq<RtpMappingCodec>, pt: u8)
    requires
        spec_find_map_pt(map_codecs, pt) is Some,
    ensures
        exists|k: int|
            0 <= k < map_codecs.len() && #[trigger] map_codecs[k] == (RtpMappingCodec {
                payload_type: pt,
                mapped_payload_type: spec_find_map_pt(map_codecs, pt)->Some_0,
            }),
    decreases map_codecs.len(),
{
    if map_codecs.len() > 0 {
        if map_codecs[0].payload_type == pt {
            assert(map_codecs[0] == (RtpMappingCodec {
                payload_type: pt,
                mapped_payload_type: spec_find_map_pt(map_codecs, pt)->Some_0,
            }));
        } else {
            lemma_find_map_pt_member(map_codecs.drop_first(), pt);
            let k0 = choose|k: int|
                0 <= k < map_codecs.drop_first().len() && #[trigger] map_codecs.drop_first()[k]
                    == (RtpMappingCodec {
                    payload_type: pt,
                    mapped_payload_type: spec_find_map_pt(map_codecs.drop_first(), pt)->Some_0,
                });
            assert(map_codecs[k0 + 1] == (RtpMappingCodec {
                payload_type: pt,
                mapped_payload_type: spec_find_map_pt(map_codecs, pt)->Some_0,
            }));
        }
    }
}

proof fn lemma_media_pt_present(codecs: Seq<crate::rtp_parameters::RtpCodecParametersV>, i: int)
    requires
        0 <= i < codecs.len(),
        !codecs[i].mime_type.spec_is_rtx(),
    ensures
        exists|k: int|
            0 <= k < spec_pts_of(codecs, false).len() && #[trigger] spec_pts_of(codecs, false)[k]
                == codecs[i].payload_type,
    decreases codecs.len(),
{
    if i == 0 {
        assert(spec_pts_of(codecs, false)[0] == codecs[0].payload_type);
    } else {
        lemma_media_pt_present(codecs.drop_first(), i - 1);
        let rest = spec_pts_of(codecs.drop_first(), false);
        let k0 = choose|k: int|
            0 <= k < rest.len() && #[trigger] rest[k] == codecs.drop_first()[i - 1].payload_type;
        if codecs[0].mime_type.spec_is_rtx() {
            assert(spec_pts_of(codecs, false)[k0] == codecs[i].payload_type);
        } else {
            assert(spec_pts_of(codecs, false)[k0 + 1] == codecs[i].payload_type);
        }
    }
}


} // verus!
