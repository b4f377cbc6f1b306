//! Feature negotiation of the native adapter entry points: a request is refused when
//! it asks for a feature the adapter does not have, or one the host did not grant.
use vstd::prelude::*;

verus! {

#[derive(Clone, Copy, Debug, PartialEq, Eq, Structural)]
pub enum NegotiationStatus {
    Accepted,
    UnsupportedFeature,
    UnauthorizedFeature,
}

#[derive(Clone, Copy, Debug, PartialEq, Eq, Structural)]
pub struct Negotiation {
    pub status: NegotiationStatus,
    pub active_feature_bits: u64,
}

/// The answer to a request for the features `requested`, from an adapter that supports
/// `supported`, by a host that granted `granted`.
pub open spec fn negotiation(supported: u64, requested: u64, granted: u64) -> Negotiation {
    if requested & !supported != 0 {
        Negotiation { status: NegotiationStatus::UnsupportedFeature, active_feature_bits: 0 }
    } else if requested & !granted != 0 {
        Negotiation { status: NegotiationStatus::UnauthorizedFeature, active_feature_bits: 0 }
    } else {
        Negotiation { status: NegotiationStatus::Accepted, active_feature_bits: requested }
    }
}

pub fn negotiate_features(supported: u64, requested: u64, granted: u64) -> (r: Negotiation)
    ensures
        r == negotiation(supported, requested, granted),
{
    if requested & !supported != 0 {
        Negotiation { status: NegotiationStatus::UnsupportedFeature, active_feature_bits: 0 }
    } else if requested & !granted != 0 {
        Negotiation { status: NegotiationStatus::UnauthorizedFeature, active_feature_bits: 0 }
    } else {
        Negotiation { status: NegotiationStatus::Accepted, active_feature_bits: requested }
    }
}

/// Whatever is asked, the active features are ones the adapter supports and the host
/// granted; and a request within both is granted in full.
pub proof fn law_active_features_are_supported_and_granted(supported: u64, requested: u64, granted: u64)
    ensures
        negotiation(supported, requested, granted).active_feature_bits & !supported == 0,
        negotiation(supported, requested, granted).active_feature_bits & !granted == 0,
        (requested & !supported == 0 && requested & !granted == 0) ==> negotiation(supported, requested, granted)
            == (Negotiation { status: NegotiationStatus::Accepted, active_feature_bits: requested }),
{
    assert(0u64 & !supported == 0) by (bit_vector);
    assert(0u64 & !granted == 0) by (bit_vector);
}

} // verus!
