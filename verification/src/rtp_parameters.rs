//! Value types for RTP parameters and capabilities.
//!
//! Every type that carries a string or a list has a mathematical view
//! (a mirror struct over `Seq`) that the contracts of the negotiation
//! functions are stated over.

use vstd::prelude::*;

verus! {

/// Media kind of a codec, stream or header extension.
#[derive(Debug, Clone, Copy, PartialEq, Eq, Hash, Structural)]
pub enum MediaKind {
    Audio,
    Video,
}

/// Known audio mime types.
#[derive(Debug, Clone, Copy, PartialEq, Eq, Hash, Structural)]
pub enum MimeTypeAudio {
    Opus,
    MultiChannelOpus,
    Pcmu,
    Pcma,
    Isac,
    G722,
    Ilbc,
    Silk,
    Cn,
    TelephoneEvent,
}

/// Known video mime types. `Rtx` marks a retransmission stream and is
/// always paired with a media codec through the `apt` parameter.
#[derive(Debug, Clone, Copy, PartialEq, Eq, Hash, Structural)]
pub enum MimeTypeVideo {
    Vp8,
    Vp9,
    H264,
    H265,
    Rtx,
}

/// Mime type of a codec, tagged by media kind.
#[derive(Debug, Clone, Copy, PartialEq, Eq, Hash, Structural)]
pub enum MimeType {
    Audio(MimeTypeAudio),
    Video(MimeTypeVideo),
}

impl MimeType {
    /// Whether this is the video retransmission mime type.
    pub open spec fn spec_is_rtx(&self) -> bool {
        *self == MimeType::Video(MimeTypeVideo::Rtx)
    }

    /// Media kind carried by the mime type.
    pub open spec fn spec_kind(&self) -> MediaKind {
        match *self {
            MimeType::Audio(_) => MediaKind::Audio,
            MimeType::Video(_) => MediaKind::Video,
        }
    }

    #[verifier::when_used_as_spec(spec_is_rtx)]
    pub fn is_rtx(&self) -> (r: bool)
        ensures
            r == self.spec_is_rtx(),
    {
        matches!(*self, MimeType::Video(MimeTypeVideo::Rtx))
    }

    #[verifier::when_used_as_spec(spec_kind)]
    pub fn kind(&self) -> (r: MediaKind)
        ensures
            r == self.spec_kind(),
    {
        match *self {
            MimeType::Audio(_) => MediaKind::Audio,
            MimeType::Video(_) => MediaKind::Video,
        }
    }
}

/// RTCP feedback message attached to a codec.
#[derive(Debug, Clone, Copy, PartialEq, Eq, Hash, Structural)]
pub enum RtcpFeedback {
    Nack,
    NackPli,
    CcmFir,
    GoogRemb,
    TransportCC,
    Unsupported,
}

/// Value of one codec parameter: a non-negative integer or a string.
#[derive(Debug, PartialEq, Eq)]
pub enum RtpCodecParametersParametersValue {
    Number(u32),
    Str(String),
}

/// Mathematical view of a codec parameter value.
pub enum ParamValueV {
    Number(u32),
    Str(Seq<char>),
}

impl Clone for RtpCodecParametersParametersValue {
    fn clone(&self) -> (r: Self)
        ensures
            r@ == self@,
    {
        match self {
            RtpCodecParametersParametersValue::Number(n) => {
                RtpCodecParametersParametersValue::Number(*n)
            },
            RtpCodecParametersParametersValue::Str(s) => {
                RtpCodecParametersParametersValue::Str(s.clone())
            },
        }
    }
}

impl View for RtpCodecParametersParametersValue {
    type V = ParamValueV;

    open spec fn view(&self) -> ParamValueV {
        match self {
            RtpCodecParametersParametersValue::Number(n) => ParamValueV::Number(*n),
            RtpCodecParametersParametersValue::Str(s) => ParamValueV::Str(s@),
        }
    }
}

impl DeepView for RtpCodecParametersParametersValue {
    type V = ParamValueV;

    open spec fn deep_view(&self) -> ParamValueV {
        self.view()
    }
}

/// One named codec parameter.
#[derive(Debug, PartialEq, Eq)]
pub struct ParamPair {
    pub key: String,
    pub value: RtpCodecParametersParametersValue,
}

/// Mathematical view of one named codec parameter.
#[verifier::ext_equal]
pub struct ParamPairV {
    pub key: Seq<char>,
    pub value: ParamValueV,
}

impl Clone for ParamPair {
    fn clone(&self) -> (r: Self)
        ensures
            r@ == self@,
    {
        ParamPair { key: self.key.clone(), value: self.value.clone() }
    }
}

impl View for ParamPair {
    type V = ParamPairV;

    open spec fn view(&self) -> ParamPairV {
        ParamPairV { key: self.key@, value: self.value@ }
    }
}

impl DeepView for ParamPair {
    type V = ParamPairV;

    open spec fn deep_view(&self) -> ParamPairV {
        self.view()
    }
}

/// First value bound to `key`, if any.
pub open spec fn spec_param_get(ps: Seq<ParamPairV>, key: Seq<char>) -> Option<ParamValueV>
    decreases ps.len(),
{
    if ps.len() == 0 {
        None
    } else if ps[0].key == key {
        Some(ps[0].value)
    } else {
        spec_param_get(ps.drop_first(), key)
    }
}

/// `ps` with `key` bound to `value`: the first pair with that key is
/// replaced in place, or the pair is appended when the key is new.
pub open spec fn spec_param_insert(
    ps: Seq<ParamPairV>,
    key: Seq<char>,
    value: ParamValueV,
) -> Seq<ParamPairV>
    decreases ps.len(),
{
    if ps.len() == 0 {
        seq![ParamPairV { key, value }]
    } else if ps[0].key == key {
        seq![ParamPairV { key, value }] + ps.drop_first()
    } else {
        seq![ps[0]] + spec_param_insert(ps.drop_first(), key, value)
    }
}

/// `a` extended by every pair of `b` in order, later keys overriding.
pub open spec fn spec_param_extend(a: Seq<ParamPairV>, b: Seq<ParamPairV>) -> Seq<ParamPairV>
    decreases b.len(),
{
    if b.len() == 0 {
        a
    } else {
        spec_param_extend(spec_param_insert(a, b[0].key, b[0].value), b.drop_first())
    }
}

proof fn lemma_param_get_at(ps: Seq<ParamPairV>, key: Seq<char>, i: int)
    requires
        0 <= i < ps.len(),
        ps[i].key == key,
        forall|j: int| 0 <= j < i ==> ps[j].key != key,
    ensures
        spec_param_get(ps, key) == Some(ps[i].value),
    decreases ps.len(),
{
    if i == 0 {
    } else {
        lemma_param_get_at(ps.drop_first(), key, i - 1);
    }
}

proof fn lemma_param_get_none(ps: Seq<ParamPairV>, key: Seq<char>)
    requires
        forall|j: int| 0 <= j < ps.len() ==> ps[j].key != key,
    ensures
        spec_param_get(ps, key) is None,
    decreases ps.len(),
{
    if ps.len() > 0 {
        lemma_param_get_none(ps.drop_first(), key);
    }
}

proof fn lemma_param_insert_at(ps: Seq<ParamPairV>, key: Seq<char>, value: ParamValueV, i: int)
    requires
        0 <= i < ps.len(),
        ps[i].key == key,
        forall|j: int| 0 <= j < i ==> ps[j].key != key,
    ensures
        spec_param_insert(ps, key, value) =~= ps.update(i, ParamPairV { key, value }),
    decreases ps.len(),
{
    if i == 0 {
    } else {
        lemma_param_insert_at(ps.drop_first(), key, value, i - 1);
        assert(spec_param_insert(ps, key, value) =~= seq![ps[0]] + spec_param_insert(
            ps.drop_first(),
            key,
            value,
        ));
    }
}

proof fn lemma_param_insert_new(ps: Seq<ParamPairV>, key: Seq<char>, value: ParamValueV)
    requires
        forall|j: int| 0 <= j < ps.len() ==> ps[j].key != key,
    ensures
        spec_param_insert(ps, key, value) =~= ps.push(ParamPairV { key, value }),
    decreases ps.len(),
{
    if ps.len() > 0 {
        lemma_param_insert_new(ps.drop_first(), key, value);
    }
}

/// Ordered collection of codec parameters; insertion keeps the position
/// of an existing key and appends a new one.
#[derive(Debug, PartialEq, Eq)]
pub struct RtpCodecParametersParameters {
    pub pairs: Vec<ParamPair>,
}

impl Clone for RtpCodecParametersParameters {
    fn clone(&self) -> (r: Self)
        ensures
            r@ =~= self@,
    {
        let n = self.pairs.len();
        let mut pairs: Vec<ParamPair> = Vec::new();
        for i in 0..n
            invariant
                n == self.pairs.len(),
                pairs@.len() == i,
                forall|j: int| 0 <= j < i ==> pairs@[j]@ == self@[j],
        {
            pairs.push(self.pairs[i].clone());
        }
        RtpCodecParametersParameters { pairs }
    }
}

impl View for RtpCodecParametersParameters {
    type V = Seq<ParamPairV>;

    open spec fn view(&self) -> Seq<ParamPairV> {
        self.pairs.deep_view()
    }
}

impl DeepView for RtpCodecParametersParameters {
    type V = Seq<ParamPairV>;

    open spec fn deep_view(&self) -> Seq<ParamPairV> {
        self.view()
    }
}

impl RtpCodecParametersParameters {
    /// Empty parameter collection.
    pub fn new() -> (r: Self)
        ensures
            r@ =~= Seq::<ParamPairV>::empty(),
    {
        RtpCodecParametersParameters { pairs: Vec::new() }
    }

    /// First value bound to `key`, if any.
    pub fn get(&self, key: &str) -> (r: Option<&RtpCodecParametersParametersValue>)
        ensures
            match r {
                Some(v) => spec_param_get(self@, key@) == Some(v@),
                None => spec_param_get(self@, key@) is None,
            },
    {
        let k: String = key.to_owned();
        let n = self.pairs.len();
        for i in 0..n
            invariant
                n == self.pairs.len(),
                k@ == key@,
                forall|j: int| 0 <= j < i ==> self@[j].key != key@,
        {
            if self.pairs[i].key == k {
                proof {
                    lemma_param_get_at(self@, key@, i as int);
                }
                return Some(&self.pairs[i].value);
            }
        }
        proof {
            lemma_param_get_none(self@, key@);
        }
        None
    }

    /// Bind `key` to `value`, replacing in place or appending.
    pub fn insert(&mut self, key: &str, value: RtpCodecParametersParametersValue)
        ensures
            final(self)@ =~= spec_param_insert(old(self)@, key@, value@),
    {
        let k: String = key.to_owned();
        let n = self.pairs.len();
        for i in 0..n
            invariant
                n == self.pairs.len(),
                self@ == old(self)@,
                k@ == key@,
                forall|j: int| 0 <= j < i ==> self@[j].key != key@,
        {
            if self.pairs[i].key == k {
                proof {
                    lemma_param_insert_at(old(self)@, key@, value@, i as int);
                }
                self.pairs[i] = ParamPair { key: k, value };
                return ;
            }
        }
        proof {
            lemma_param_insert_new(old(self)@, key@, value@);
        }
        self.pairs.push(ParamPair { key: k, value });
    }

    /// Extend by every pair of `other` in order, `other` overriding on a
    /// shared key.
    pub fn extend_from(&mut self, other: &RtpCodecParametersParameters)
        ensures
            final(self)@ =~= spec_param_extend(old(self)@, other@),
    {
        let n = other.pairs.len();
        proof {
            assert(other@.skip(0) =~= other@);
        }
        for i in 0..n
            invariant
                n == other.pairs.len(),
                spec_param_extend(self@, other@.skip(i as int)) == spec_param_extend(
                    old(self)@,
                    other@,
                ),
        {
            proof {
                assert(other@.skip(i as int).drop_first() =~= other@.skip(i + 1));
                assert(other@.skip(i as int)[0] == other@[i as int]);
            }
            let pair = &other.pairs[i];
            self.insert(pair.key.as_str(), pair.value.clone());
        }
        proof {
            assert(other@.skip(n as int) =~= Seq::<ParamPairV>::empty());
        }
    }

    /// Number of stored pairs.
    pub fn len(&self) -> (r: usize)
        ensures
            r == self@.len(),
    {
        self.pairs.len()
    }

    /// Pair at position `i`.
    pub fn pair_at(&self, i: usize) -> (r: &ParamPair)
        requires
            i < self@.len(),
        ensures
            r@ == self@[i as int],
    {
        &self.pairs[i]
    }
}

impl Default for RtpCodecParametersParameters {
    fn default() -> (r: Self)
        ensures
            r@ =~= Seq::<ParamPairV>::empty(),
    {
        RtpCodecParametersParameters::new()
    }
}


/// Flat form of a codec used by the matcher: the fields that decide
/// whether two codec descriptions refer to the same codec.
#[derive(Clone, Copy)]
pub struct CodecToMatch<'a> {
    pub channels: Option<u8>,
    pub clock_rate: u32,
    pub mime_type: MimeType,
    pub parameters: &'a RtpCodecParametersParameters,
}

/// Mathematical view of the flat codec form.
#[verifier::ext_equal]
pub struct CodecToMatchV {
    pub channels: Option<u8>,
    pub clock_rate: u32,
    pub mime_type: MimeType,
    pub parameters: Seq<ParamPairV>,
}

impl<'a> View for CodecToMatch<'a> {
    type V = CodecToMatchV;

    open spec fn view(&self) -> CodecToMatchV {
        CodecToMatchV {
            channels: self.channels,
            clock_rate: self.clock_rate,
            mime_type: self.mime_type,
            parameters: self.parameters@,
        }
    }
}

/// Codec capability offered to the capability finalizer: audio carries a
/// channel count, video does not.
#[derive(Debug, PartialEq, Eq)]
pub enum RtpCodecCapability {
    Audio {
        mime_type: MimeTypeAudio,
        preferred_payload_type: Option<u8>,
        clock_rate: u32,
        channels: u8,
        parameters: RtpCodecParametersParameters,
        rtcp_feedback: Vec<RtcpFeedback>,
    },
    Video {
        mime_type: MimeTypeVideo,
        preferred_payload_type: Option<u8>,
        clock_rate: u32,
        parameters: RtpCodecParametersParameters,
        rtcp_feedback: Vec<RtcpFeedback>,
    },
}

/// Mathematical view of a codec capability; `channels` is present
/// exactly for audio.
#[verifier::ext_equal]
pub struct RtpCodecCapabilityV {
    pub mime_type: MimeType,
    pub preferred_payload_type: Option<u8>,
    pub clock_rate: u32,
    pub channels: Option<u8>,
    pub parameters: Seq<ParamPairV>,
    pub rtcp_feedback: Seq<RtcpFeedback>,
}

impl RtpCodecCapabilityV {
    /// The fields the matcher looks at.
    pub open spec fn to_match(self) -> CodecToMatchV {
        CodecToMatchV {
            channels: self.channels,
            clock_rate: self.clock_rate,
            mime_type: self.mime_type,
            parameters: self.parameters,
        }
    }
}

impl View for RtpCodecCapability {
    type V = RtpCodecCapabilityV;

    open spec fn view(&self) -> RtpCodecCapabilityV {
        match self {
            RtpCodecCapability::Audio {
                mime_type,
                preferred_payload_type,
                clock_rate,
                channels,
                parameters,
                rtcp_feedback,
            } => RtpCodecCapabilityV {
                mime_type: MimeType::Audio(*mime_type),
                preferred_payload_type: *preferred_payload_type,
                clock_rate: *clock_rate,
                channels: Some(*channels),
                parameters: parameters@,
                rtcp_feedback: rtcp_feedback@,
            },
            RtpCodecCapability::Video {
                mime_type,
                preferred_payload_type,
                clock_rate,
                parameters,
                rtcp_feedback,
            } => RtpCodecCapabilityV {
                mime_type: MimeType::Video(*mime_type),
                preferred_payload_type: *preferred_payload_type,
                clock_rate: *clock_rate,
                channels: None,
                parameters: parameters@,
                rtcp_feedback: rtcp_feedback@,
            },
        }
    }
}

impl DeepView for RtpCodecCapability {
    type V = RtpCodecCapabilityV;

    open spec fn deep_view(&self) -> RtpCodecCapabilityV {
        self.view()
    }
}

impl RtpCodecCapability {
    /// Mime type, tagged by media kind.
    pub fn mime_type(&self) -> (r: MimeType)
        ensures
            r == self@.mime_type,
    {
        match self {
            RtpCodecCapability::Audio { mime_type, .. } => MimeType::Audio(*mime_type),
            RtpCodecCapability::Video { mime_type, .. } => MimeType::Video(*mime_type),
        }
    }

    /// Preferred payload type carried by the capability, if any.
    pub fn preferred_payload_type(&self) -> (r: Option<u8>)
        ensures
            r == self@.preferred_payload_type,
    {
        match self {
            RtpCodecCapability::Audio { preferred_payload_type, .. } => *preferred_payload_type,
            RtpCodecCapability::Video { preferred_payload_type, .. } => *preferred_payload_type,
        }
    }

    /// Clock rate of the codec.
    pub fn clock_rate(&self) -> (r: u32)
        ensures
            r == self@.clock_rate,
    {
        match self {
            RtpCodecCapability::Audio { clock_rate, .. } => *clock_rate,
            RtpCodecCapability::Video { clock_rate, .. } => *clock_rate,
        }
    }

    /// Codec parameters.
    pub fn parameters(&self) -> (r: &RtpCodecParametersParameters)
        ensures
            r@ == self@.parameters,
    {
        match self {
            RtpCodecCapability::Audio { parameters, .. } => parameters,
            RtpCodecCapability::Video { parameters, .. } => parameters,
        }
    }

    /// RTCP feedback list.
    pub fn rtcp_feedback(&self) -> (r: &Vec<RtcpFeedback>)
        ensures
            r@ == self@.rtcp_feedback,
    {
        match self {
            RtpCodecCapability::Audio { rtcp_feedback, .. } => rtcp_feedback,
            RtpCodecCapability::Video { rtcp_feedback, .. } => rtcp_feedback,
        }
    }

    /// Flat form used by the matcher.
    pub fn to_match(&self) -> (r: CodecToMatch<'_>)
        ensures
            r@ == self@.to_match(),
    {
        match self {
            RtpCodecCapability::Audio { mime_type, clock_rate, channels, parameters, .. } => {
                CodecToMatch {
                    channels: Some(*channels),
                    clock_rate: *clock_rate,
                    mime_type: MimeType::Audio(*mime_type),
                    parameters,
                }
            },
            RtpCodecCapability::Video { mime_type, clock_rate, parameters, .. } => {
                CodecToMatch {
                    channels: None,
                    clock_rate: *clock_rate,
                    mime_type: MimeType::Video(*mime_type),
                    parameters,
                }
            },
        }
    }
}

/// Codec capability after finalization: the preferred payload type is
/// settled.
#[derive(Debug, PartialEq, Eq)]
pub enum RtpCodecCapabilityFinalized {
    Audio {
        mime_type: MimeTypeAudio,
        preferred_payload_type: u8,
        clock_rate: u32,
        channels: u8,
        parameters: RtpCodecParametersParameters,
        rtcp_feedback: Vec<RtcpFeedback>,
    },
    Video {
        mime_type: MimeTypeVideo,
        preferred_payload_type: u8,
        clock_rate: u32,
        parameters: RtpCodecParametersParameters,
        rtcp_feedback: Vec<RtcpFeedback>,
    },
}

/// Mathematical view of a finalized codec capability.
#[verifier::ext_equal]
pub struct RtpCodecCapabilityFinalizedV {
    pub mime_type: MimeType,
    pub preferred_payload_type: u8,
    pub clock_rate: u32,
    pub channels: Option<u8>,
    pub parameters: Seq<ParamPairV>,
    pub rtcp_feedback: Seq<RtcpFeedback>,
}

impl RtpCodecCapabilityFinalizedV {
    /// The fields the matcher looks at.
    pub open spec fn to_match(self) -> CodecToMatchV {
        CodecToMatchV {
            channels: self.channels,
            clock_rate: self.clock_rate,
            mime_type: self.mime_type,
            parameters: self.parameters,
        }
    }
}

impl View for RtpCodecCapabilityFinalized {
    type V = RtpCodecCapabilityFinalizedV;

    open spec fn view(&self) -> RtpCodecCapabilityFinalizedV {
        match self {
            RtpCodecCapabilityFinalized::Audio {
                mime_type,
                preferred_payload_type,
                clock_rate,
                channels,
                parameters,
                rtcp_feedback,
            } => RtpCodecCapabilityFinalizedV {
                mime_type: MimeType::Audio(*mime_type),
                preferred_payload_type: *preferred_payload_type,
                clock_rate: *clock_rate,
                channels: Some(*channels),
                parameters: parameters@,
                rtcp_feedback: rtcp_feedback@,
            },
            RtpCodecCapabilityFinalized::Video {
                mime_type,
                preferred_payload_type,
                clock_rate,
                parameters,
                rtcp_feedback,
            } => RtpCodecCapabilityFinalizedV {
                mime_type: MimeType::Video(*mime_type),
                preferred_payload_type: *preferred_payload_type,
                clock_rate: *clock_rate,
                channels: None,
                parameters: parameters@,
                rtcp_feedback: rtcp_feedback@,
            },
        }
    }
}

impl DeepView for RtpCodecCapabilityFinalized {
    type V = RtpCodecCapabilityFinalizedV;

    open spec fn deep_view(&self) -> RtpCodecCapabilityFinalizedV {
        self.view()
    }
}

impl RtpCodecCapabilityFinalized {
    /// Mime type, tagged by media kind.
    pub fn mime_type(&self) -> (r: MimeType)
        ensures
            r == self@.mime_type,
    {
        match self {
            RtpCodecCapabilityFinalized::Audio { mime_type, .. } => MimeType::Audio(*mime_type),
            RtpCodecCapabilityFinalized::Video { mime_type, .. } => MimeType::Video(*mime_type),
        }
    }

    /// Settled preferred payload type.
    pub fn preferred_payload_type(&self) -> (r: u8)
        ensures
            r == self@.preferred_payload_type,
    {
        match self {
            RtpCodecCapabilityFinalized::Audio { preferred_payload_type, .. } => {
                *preferred_payload_type
            },
            RtpCodecCapabilityFinalized::Video { preferred_payload_type, .. } => {
                *preferred_payload_type
            },
        }
    }

    /// Clock rate of the codec.
    pub fn clock_rate(&self) -> (r: u32)
        ensures
            r == self@.clock_rate,
    {
        match self {
            RtpCodecCapabilityFinalized::Audio { clock_rate, .. } => *clock_rate,
            RtpCodecCapabilityFinalized::Video { clock_rate, .. } => *clock_rate,
        }
    }

    /// Codec parameters.
    pub fn parameters(&self) -> (r: &RtpCodecParametersParameters)
        ensures
            r@ == self@.parameters,
    {
        match self {
            RtpCodecCapabilityFinalized::Audio { parameters, .. } => parameters,
            RtpCodecCapabilityFinalized::Video { parameters, .. } => parameters,
        }
    }

    /// RTCP feedback list.
    pub fn rtcp_feedback(&self) -> (r: &Vec<RtcpFeedback>)
        ensures
            r@ == self@.rtcp_feedback,
    {
        match self {
            RtpCodecCapabilityFinalized::Audio { rtcp_feedback, .. } => rtcp_feedback,
            RtpCodecCapabilityFinalized::Video { rtcp_feedback, .. } => rtcp_feedback,
        }
    }

    /// Whether this is a retransmission codec.
    pub fn is_rtx(&self) -> (r: bool)
        ensures
            r == self@.mime_type.spec_is_rtx(),
    {
        self.mime_type().is_rtx()
    }

    /// Flat form used by the matcher.
    pub fn to_match(&self) -> (r: CodecToMatch<'_>)
        ensures
            r@ == self@.to_match(),
    {
        match self {
            RtpCodecCapabilityFinalized::Audio {
                mime_type,
                clock_rate,
                channels,
                parameters,
                ..
            } => CodecToMatch {
                channels: Some(*channels),
                clock_rate: *clock_rate,
                mime_type: MimeType::Audio(*mime_type),
                parameters,
            },
            RtpCodecCapabilityFinalized::Video { mime_type, clock_rate, parameters, .. } => {
                CodecToMatch {
                    channels: None,
                    clock_rate: *clock_rate,
                    mime_type: MimeType::Video(*mime_type),
                    parameters,
                }
            },
        }
    }
}

/// Concrete codec parameters carried on the wire for a producer or
/// consumer stream.
#[derive(Debug, PartialEq, Eq)]
pub enum RtpCodecParameters {
    Audio {
        mime_type: MimeTypeAudio,
        payload_type: u8,
        clock_rate: u32,
        channels: u8,
        parameters: RtpCodecParametersParameters,
        rtcp_feedback: Vec<RtcpFeedback>,
    },
    Video {
        mime_type: MimeTypeVideo,
        payload_type: u8,
        clock_rate: u32,
        parameters: RtpCodecParametersParameters,
        rtcp_feedback: Vec<RtcpFeedback>,
    },
}

/// Mathematical view of concrete codec parameters.
#[verifier::ext_equal]
pub struct RtpCodecParametersV {
    pub mime_type: MimeType,
    pub payload_type: u8,
    pub clock_rate: u32,
    pub channels: Option<u8>,
    pub parameters: Seq<ParamPairV>,
    pub rtcp_feedback: Seq<RtcpFeedback>,
}

impl RtpCodecParametersV {
    /// The fields the matcher looks at.
    pub open spec fn to_match(self) -> CodecToMatchV {
        CodecToMatchV {
            channels: self.channels,
            clock_rate: self.clock_rate,
            mime_type: self.mime_type,
            parameters: self.parameters,
        }
    }
}

impl View for RtpCodecParameters {
    type V = RtpCodecParametersV;

    open spec fn view(&self) -> RtpCodecParametersV {
        match self {
            RtpCodecParameters::Audio {
                mime_type,
                payload_type,
                clock_rate,
                channels,
                parameters,
                rtcp_feedback,
            } => RtpCodecParametersV {
                mime_type: MimeType::Audio(*mime_type),
                payload_type: *payload_type,
                clock_rate: *clock_rate,
                channels: Some(*channels),
                parameters: parameters@,
                rtcp_feedback: rtcp_feedback@,
            },
            RtpCodecParameters::Video {
                mime_type,
                payload_type,
                clock_rate,
                parameters,
                rtcp_feedback,
            } => RtpCodecParametersV {
                mime_type: MimeType::Video(*mime_type),
                payload_type: *payload_type,
                clock_rate: *clock_rate,
                channels: None,
                parameters: parameters@,
                rtcp_feedback: rtcp_feedback@,
            },
        }
    }
}

impl DeepView for RtpCodecParameters {
    type V = RtpCodecParametersV;

    open spec fn deep_view(&self) -> RtpCodecParametersV {
        self.view()
    }
}

impl Clone for RtpCodecParameters {
    fn clone(&self) -> (r: Self)
        ensures
            r@ == self@,
    {
        match self {
            RtpCodecParameters::Audio {
                mime_type,
                payload_type,
                clock_rate,
                channels,
                parameters,
                rtcp_feedback,
            } => {
                let r = RtpCodecParameters::Audio {
                    mime_type: *mime_type,
                    payload_type: *payload_type,
                    clock_rate: *clock_rate,
                    channels: *channels,
                    parameters: parameters.clone(),
                    rtcp_feedback: clone_feedback(rtcp_feedback),
                };
                proof {
                    assert(r@.parameters =~= self@.parameters);
                    assert(r@ =~= self@);
                }
                r
            },
            RtpCodecParameters::Video {
                mime_type,
                payload_type,
                clock_rate,
                parameters,
                rtcp_feedback,
            } => {
                let r = RtpCodecParameters::Video {
                    mime_type: *mime_type,
                    payload_type: *payload_type,
                    clock_rate: *clock_rate,
                    parameters: parameters.clone(),
                    rtcp_feedback: clone_feedback(rtcp_feedback),
                };
                proof {
                    assert(r@.parameters =~= self@.parameters);
                    assert(r@ =~= self@);
                }
                r
            },
        }
    }
}

/// Copy of an RTCP feedback list.
pub fn clone_feedback(fb: &Vec<RtcpFeedback>) -> (r: Vec<RtcpFeedback>)
    ensures
        r@ == fb@,
{
    let r = fb.clone();
    proof {
        assert(r@ =~= fb@);
    }
    r
}

impl RtpCodecParameters {
    /// Mime type, tagged by media kind.
    pub fn mime_type(&self) -> (r: MimeType)
        ensures
            r == self@.mime_type,
    {
        match self {
            RtpCodecParameters::Audio { mime_type, .. } => MimeType::Audio(*mime_type),
            RtpCodecParameters::Video { mime_type, .. } => MimeType::Video(*mime_type),
        }
    }

    /// Concrete payload type of the stream.
    pub fn payload_type(&self) -> (r: u8)
        ensures
            r == self@.payload_type,
    {
        match self {
            RtpCodecParameters::Audio { payload_type, .. } => *payload_type,
            RtpCodecParameters::Video { payload_type, .. } => *payload_type,
        }
    }

    /// Codec parameters.
    pub fn parameters(&self) -> (r: &RtpCodecParametersParameters)
        ensures
            r@ == self@.parameters,
    {
        match self {
            RtpCodecParameters::Audio { parameters, .. } => parameters,
            RtpCodecParameters::Video { parameters, .. } => parameters,
        }
    }

    /// RTCP feedback list.
    pub fn rtcp_feedback(&self) -> (r: &Vec<RtcpFeedback>)
        ensures
            r@ == self@.rtcp_feedback,
    {
        match self {
            RtpCodecParameters::Audio { rtcp_feedback, .. } => rtcp_feedback,
            RtpCodecParameters::Video { rtcp_feedback, .. } => rtcp_feedback,
        }
    }

    /// Replace the RTCP feedback list.
    pub fn set_rtcp_feedback(&mut self, fb: Vec<RtcpFeedback>)
        ensures
            final(self)@ == (RtpCodecParametersV { rtcp_feedback: fb@, ..old(self)@ }),
    {
        match self {
            RtpCodecParameters::Audio { rtcp_feedback, .. } => {
                *rtcp_feedback = fb;
            },
            RtpCodecParameters::Video { rtcp_feedback, .. } => {
                *rtcp_feedback = fb;
            },
        }
        proof {
            assert(final(self)@ =~= RtpCodecParametersV { rtcp_feedback: fb@, ..old(self)@ });
        }
    }

    /// Whether this is a retransmission codec.
    pub fn is_rtx(&self) -> (r: bool)
        ensures
            r == self@.mime_type.spec_is_rtx(),
    {
        self.mime_type().is_rtx()
    }

    /// Flat form used by the matcher.
    pub fn to_match(&self) -> (r: CodecToMatch<'_>)
        ensures
            r@ == self@.to_match(),
    {
        match self {
            RtpCodecParameters::Audio { mime_type, clock_rate, channels, parameters, .. } => {
                CodecToMatch {
                    channels: Some(*channels),
                    clock_rate: *clock_rate,
                    mime_type: MimeType::Audio(*mime_type),
                    parameters,
                }
            },
            RtpCodecParameters::Video { mime_type, clock_rate, parameters, .. } => {
                CodecToMatch {
                    channels: None,
                    clock_rate: *clock_rate,
                    mime_type: MimeType::Video(*mime_type),
                    parameters,
                }
            },
        }
    }
}



/// URI of an RTP header extension, reduced to the extensions the
/// negotiation rules care about.
#[derive(Debug, Clone, Copy, PartialEq, Eq, Hash, Structural)]
pub enum RtpHeaderExtensionUri {
    MID,
    RtpStreamId,
    RepairedRtpStreamId,
    AbsSendTime,
    TransportWideCCDraft01,
    FrameMarkingDraft07,
    FrameMarking,
    AudioLevel,
    VideoOrientation,
    TimeOffset,
    Unsupported,
}

/// Direction in which a header extension may be used.
#[derive(Debug, Clone, Copy, PartialEq, Eq, Hash, Structural)]
pub enum RtpHeaderExtensionDirection {
    SendRecv,
    SendOnly,
    RecvOnly,
    Inactive,
}

impl Default for RtpHeaderExtensionDirection {
    fn default() -> (r: Self)
        ensures
            r == RtpHeaderExtensionDirection::SendRecv,
    {
        RtpHeaderExtensionDirection::SendRecv
    }
}

/// Header extension as advertised in capabilities.
#[derive(Debug, Clone, Copy, PartialEq, Eq)]
pub struct RtpHeaderExtension {
    pub kind: Option<MediaKind>,
    pub uri: RtpHeaderExtensionUri,
    pub preferred_id: u16,
    pub preferred_encrypt: bool,
    pub direction: RtpHeaderExtensionDirection,
}

/// Header extension as negotiated into concrete RTP parameters.
#[derive(Debug, Clone, Copy, PartialEq, Eq)]
pub struct RtpHeaderExtensionParameters {
    pub uri: RtpHeaderExtensionUri,
    pub id: u16,
    pub encrypt: bool,
}

/// Retransmission stream of one encoding.
#[derive(Debug, Clone, Copy, PartialEq, Eq, Structural)]
pub struct RtpEncodingParametersRtx {
    pub ssrc: u32,
}

/// One encoding (stream layer) of a producer or consumer.
#[derive(Debug, PartialEq, Eq)]
pub struct RtpEncodingParameters {
    pub ssrc: Option<u32>,
    pub rid: Option<String>,
    pub codec_payload_type: Option<u8>,
    pub rtx: Option<RtpEncodingParametersRtx>,
    pub dtx: Option<bool>,
    pub scalability_mode: Option<String>,
    pub max_bitrate: Option<u32>,
}

/// Mathematical view of one encoding.
#[verifier::ext_equal]
pub struct RtpEncodingParametersV {
    pub ssrc: Option<u32>,
    pub rid: Option<Seq<char>>,
    pub codec_payload_type: Option<u8>,
    pub rtx: Option<RtpEncodingParametersRtx>,
    pub dtx: Option<bool>,
    pub scalability_mode: Option<Seq<char>>,
    pub max_bitrate: Option<u32>,
}

impl View for RtpEncodingParameters {
    type V = RtpEncodingParametersV;

    open spec fn view(&self) -> RtpEncodingParametersV {
        RtpEncodingParametersV {
            ssrc: self.ssrc,
            rid: self.rid.deep_view(),
            codec_payload_type: self.codec_payload_type,
            rtx: self.rtx,
            dtx: self.dtx,
            scalability_mode: self.scalability_mode.deep_view(),
            max_bitrate: self.max_bitrate,
        }
    }
}

impl DeepView for RtpEncodingParameters {
    type V = RtpEncodingParametersV;

    open spec fn deep_view(&self) -> RtpEncodingParametersV {
        self.view()
    }
}

/// Copy of an optional string.
pub fn clone_opt_string(s: &Option<String>) -> (r: Option<String>)
    ensures
        r.deep_view() == s.deep_view(),
{
    match s {
        Some(inner) => Some(inner.clone()),
        None => None,
    }
}

impl Clone for RtpEncodingParameters {
    fn clone(&self) -> (r: Self)
        ensures
            r@ == self@,
    {
        let r = RtpEncodingParameters {
            ssrc: self.ssrc,
            rid: clone_opt_string(&self.rid),
            codec_payload_type: self.codec_payload_type,
            rtx: self.rtx,
            dtx: self.dtx,
            scalability_mode: clone_opt_string(&self.scalability_mode),
            max_bitrate: self.max_bitrate,
        };
        proof {
            assert(r@ =~= self@);
        }
        r
    }
}

impl Default for RtpEncodingParameters {
    fn default() -> (r: Self)
        ensures
            r@ == (RtpEncodingParametersV {
                ssrc: None,
                rid: None,
                codec_payload_type: None,
                rtx: None,
                dtx: None,
                scalability_mode: None,
                max_bitrate: None,
            }),
    {
        RtpEncodingParameters {
            ssrc: None,
            rid: None,
            codec_payload_type: None,
            rtx: None,
            dtx: None,
            scalability_mode: None,
            max_bitrate: None,
        }
    }
}

/// RTCP settings of a parameter set.
#[derive(Debug, PartialEq, Eq)]
pub struct RtcpParameters {
    pub cname: Option<String>,
    pub reduced_size: bool,
    pub mux: Option<bool>,
}

/// Mathematical view of RTCP settings.
#[verifier::ext_equal]
pub struct RtcpParametersV {
    pub cname: Option<Seq<char>>,
    pub reduced_size: bool,
    pub mux: Option<bool>,
}

impl View for RtcpParameters {
    type V = RtcpParametersV;

    open spec fn view(&self) -> RtcpParametersV {
        RtcpParametersV {
            cname: self.cname.deep_view(),
            reduced_size: self.reduced_size,
            mux: self.mux,
        }
    }
}

impl DeepView for RtcpParameters {
    type V = RtcpParametersV;

    open spec fn deep_view(&self) -> RtcpParametersV {
        self.view()
    }
}

impl Clone for RtcpParameters {
    fn clone(&self) -> (r: Self)
        ensures
            r@ == self@,
    {
        let r = RtcpParameters {
            cname: clone_opt_string(&self.cname),
            reduced_size: self.reduced_size,
            mux: self.mux,
        };
        proof {
            assert(r@ =~= self@);
        }
        r
    }
}

impl Default for RtcpParameters {
    fn default() -> (r: Self)
        ensures
            r@ == (RtcpParametersV { cname: None, reduced_size: true, mux: None }),
    {
        RtcpParameters { cname: None, reduced_size: true, mux: None }
    }
}

/// Complete RTP parameters of a producer or consumer.
#[derive(Debug, PartialEq, Eq)]
pub struct RtpParameters {
    pub mid: Option<String>,
    pub codecs: Vec<RtpCodecParameters>,
    pub header_extensions: Vec<RtpHeaderExtensionParameters>,
    pub encodings: Vec<RtpEncodingParameters>,
    pub rtcp: RtcpParameters,
}

/// Mathematical view of complete RTP parameters.
#[verifier::ext_equal]
pub struct RtpParametersV {
    pub mid: Option<Seq<char>>,
    pub codecs: Seq<RtpCodecParametersV>,
    pub header_extensions: Seq<RtpHeaderExtensionParameters>,
    pub encodings: Seq<RtpEncodingParametersV>,
    pub rtcp: RtcpParametersV,
}

impl View for RtpParameters {
    type V = RtpParametersV;

    open spec fn view(&self) -> RtpParametersV {
        RtpParametersV {
            mid: self.mid.deep_view(),
            codecs: self.codecs.deep_view(),
            header_extensions: self.header_extensions@,
            encodings: self.encodings.deep_view(),
            rtcp: self.rtcp@,
        }
    }
}

impl DeepView for RtpParameters {
    type V = RtpParametersV;

    open spec fn deep_view(&self) -> RtpParametersV {
        self.view()
    }
}

impl Default for RtpParameters {
    fn default() -> (r: Self)
        ensures
            r@ == (RtpParametersV {
                mid: None,
                codecs: Seq::empty(),
                header_extensions: Seq::empty(),
                encodings: Seq::empty(),
                rtcp: RtcpParametersV { cname: None, reduced_size: true, mux: None },
            }),
    {
        let r = RtpParameters {
            mid: None,
            codecs: Vec::new(),
            header_extensions: Vec::new(),
            encodings: Vec::new(),
            rtcp: RtcpParameters::default(),
        };
        proof {
            assert(r@ =~= (RtpParametersV {
                mid: None,
                codecs: Seq::empty(),
                header_extensions: Seq::empty(),
                encodings: Seq::empty(),
                rtcp: RtcpParametersV { cname: None, reduced_size: true, mux: None },
            }));
        }
        r
    }
}

/// Capabilities offered by a peer or by the supported table.
#[derive(Debug, PartialEq, Eq)]
pub struct RtpCapabilities {
    pub codecs: Vec<RtpCodecCapability>,
    pub header_extensions: Vec<RtpHeaderExtension>,
    pub fec_mechanisms: Vec<String>,
}

/// Mathematical view of peer capabilities.
#[verifier::ext_equal]
pub struct RtpCapabilitiesV {
    pub codecs: Seq<RtpCodecCapabilityV>,
    pub header_extensions: Seq<RtpHeaderExtension>,
    pub fec_mechanisms: Seq<Seq<char>>,
}

impl View for RtpCapabilities {
    type V = RtpCapabilitiesV;

    open spec fn view(&self) -> RtpCapabilitiesV {
        RtpCapabilitiesV {
            codecs: self.codecs.deep_view(),
            header_extensions: self.header_extensions@,
            fec_mechanisms: self.fec_mechanisms.deep_view(),
        }
    }
}

impl DeepView for RtpCapabilities {
    type V = RtpCapabilitiesV;

    open spec fn deep_view(&self) -> RtpCapabilitiesV {
        self.view()
    }
}

/// Finalized capabilities of a router.
#[derive(Debug, PartialEq, Eq)]
pub struct RtpCapabilitiesFinalized {
    pub codecs: Vec<RtpCodecCapabilityFinalized>,
    pub header_extensions: Vec<RtpHeaderExtension>,
    pub fec_mechanisms: Vec<String>,
}

/// Mathematical view of finalized capabilities.
#[verifier::ext_equal]
pub struct RtpCapabilitiesFinalizedV {
    pub codecs: Seq<RtpCodecCapabilityFinalizedV>,
    pub header_extensions: Seq<RtpHeaderExtension>,
    pub fec_mechanisms: Seq<Seq<char>>,
}

impl View for RtpCapabilitiesFinalized {
    type V = RtpCapabilitiesFinalizedV;

    open spec fn view(&self) -> RtpCapabilitiesFinalizedV {
        RtpCapabilitiesFinalizedV {
            codecs: self.codecs.deep_view(),
            header_extensions: self.header_extensions@,
            fec_mechanisms: self.fec_mechanisms.deep_view(),
        }
    }
}

impl DeepView for RtpCapabilitiesFinalized {
    type V = RtpCapabilitiesFinalizedV;

    open spec fn deep_view(&self) -> RtpCapabilitiesFinalizedV {
        self.view()
    }
}


/// Value bound to `key`, taking a missing entry as the number 0.
pub open spec fn spec_param_or_zero(ps: Seq<ParamPairV>, key: Seq<char>) -> ParamValueV {
    match spec_param_get(ps, key) {
        Some(v) => v,
        None => ParamValueV::Number(0),
    }
}

/// Whether two parameter values are equal.
pub fn value_eq(a: &RtpCodecParametersParametersValue, b: &RtpCodecParametersParametersValue) -> (r:
    bool)
    ensures
        r == (a@ == b@),
{
    match (a, b) {
        (
            RtpCodecParametersParametersValue::Number(x),
            RtpCodecParametersParametersValue::Number(y),
        ) => {
            let r = *x == *y;
            proof {
                assert(r == (a@ == b@));
            }
            r
        },
        (RtpCodecParametersParametersValue::Str(x), RtpCodecParametersParametersValue::Str(y)) => {
            let r = *x == *y;
            proof {
                assert(r == (a@ == b@));
            }
            r
        },
        (RtpCodecParametersParametersValue::Number(_), RtpCodecParametersParametersValue::Str(_)) => {
            proof {
                assert(a@ != b@);
            }
            false
        },
        (RtpCodecParametersParametersValue::Str(_), RtpCodecParametersParametersValue::Number(_)) => {
            proof {
                assert(a@ != b@);
            }
            false
        },
    }
}

/// Whether `key` names `lit`.
pub fn key_is(key: &String, lit: &str) -> (r: bool)
    ensures
        r == (key@ == lit@),
{
    *key == lit.to_owned()
}

impl RtpCodecParametersParameters {
    /// Value bound to `key`, taking a missing entry as the number 0.
    pub fn get_or_zero(&self, key: &str) -> (r: RtpCodecParametersParametersValue)
        ensures
            r@ == spec_param_or_zero(self@, key@),
    {
        match self.get(key) {
            Some(v) => v.clone(),
            None => RtpCodecParametersParametersValue::Number(0),
        }
    }
}

} // verus!
