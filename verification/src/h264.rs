//! H.264 profile-level-id negotiation, delegated to the
//! `h264_profile_level_id` crate.

use vstd::prelude::*;

verus! {

/// The profile-level-id selected for an answer when the two sides'
/// `profile-level-id` strings (`None` meaning the RFC 6184 default)
/// describe the same H.264 profile, or `None` when they do not. The
/// outcome is a function of the two strings and the two
/// `level-asymmetry-allowed` flags alone.
pub uninterp spec fn h264_answer_profile(
    a: Option<Seq<char>>,
    a_asym: bool,
    b: Option<Seq<char>>,
    b_asym: bool,
) -> Option<Seq<char>>;

/// Relies on h264_profile_level_id::is_same_profile (parses the two
/// strings and compares profiles, ignoring levels) and on
/// h264_profile_level_id::generate_profile_level_id_for_answer (selects
/// the answer level from the two levels and asymmetry flags). Both are
/// deterministic in their arguments, so the combined outcome is named
/// by `h264_answer_profile`.
#[verifier::external_body]
pub(crate) fn h264_profile_for_answer(
    a: Option<&str>,
    a_asym: bool,
    b: Option<&str>,
    b_asym: bool,
) -> (r: Option<String>)
    ensures
        r.deep_view() == h264_answer_profile(a.deep_view(), a_asym, b.deep_view(), b_asym),
{
    match h264_profile_level_id::is_same_profile(a, b) {
        Some((profile_a, profile_b)) => h264_profile_level_id::generate_profile_level_id_for_answer(
            Some(profile_a),
            a_asym,
            Some(profile_b),
            b_asym,
        )
            .ok()
            .map(|id| id.to_string()),
        None => None,
    }
}

} // verus!
