//! The parts of the host's render decision that the adapters read, and the
//! adapter features a host can grant.
use vstd::prelude::*;

verus! {

/// Adapter capabilities that activation can grant.
#[derive(Clone, Copy, Debug, PartialEq, Eq, Structural)]
pub enum Feature {
    TextObserve,
    TextReplace,
}

/// What to do with the text of one draw or retained object.
#[derive(Clone, Debug, PartialEq, Eq)]
pub enum TextDecision {
    Keep,
    Replace(String),
}

/// The host's decision for one text event.
#[derive(Clone, Debug, PartialEq, Eq)]
pub struct RenderDecision {
    pub text: TextDecision,
    pub generation: u64,
}

/// The replacement text a decision carries, if it replaces.
pub open spec fn decided_replacement(d: Option<RenderDecision>) -> Option<Seq<char>> {
    match d {
        Some(RenderDecision { text: TextDecision::Replace(t), .. }) => Some(t@),
        _ => None,
    }
}

pub fn replacement_of(d: &Option<RenderDecision>) -> (r: Option<&String>)
    ensures
        match r {
            Some(t) => decided_replacement(*d) == Some(t@),
            None => decided_replacement(*d) is None,
        },
{
    match d {
        Some(RenderDecision { text: TextDecision::Replace(t), .. }) => Some(t),
        _ => None,
    }
}

/// True when `features` holds `f`.
pub fn has_feature(features: &[Feature], f: Feature) -> (r: bool)
    ensures
        r == features@.contains(f),
{
    let mut i: usize = 0;
    while i < features.len()
        invariant
            i <= features.len(),
            forall|k: int| 0 <= k < i ==> features@[k] != f,
        decreases features.len() - i,
    {
        if features[i] == f {
            assert(features@[i as int] == f);
            return true;
        }
        i += 1;
    }
    false
}

} // verus!
