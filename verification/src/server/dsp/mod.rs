//! DSPs that an ad request is passed to, chosen by provider name.
use vstd::prelude::*;

pub mod idea;
pub mod slot;
pub mod medsp;
pub mod wanhui;

verus! {

broadcast use vstd::string::group_string_axioms;

/// A DSP that answers with no ads of its own.
pub struct A {}

/// Which DSP serves a provider.
#[derive(Debug)]
pub enum DspKind {
    /// The DSP `A`.
    A,
    /// The WanHui DSP.
    WanHui,
    /// The own DSP, serving under the provider's name.
    Me(String),
}

/// The DSP for a provider: `A`, `WanHui`, or else the own DSP under that name.
pub fn dsp_kind(provider: &str) -> (k: DspKind)
    ensures
        provider@ == "A"@ ==> k == DspKind::A,
        provider@ == "WanHui"@ ==> k == DspKind::WanHui,
        provider@ != "A"@ && provider@ != "WanHui"@ ==> (k matches DspKind::Me(name) && name@ == provider@),
{
    let p = provider.to_string();
    let a = "A".to_string();
    let w = "WanHui".to_string();
    proof {
        reveal_strlit("A");
        reveal_strlit("WanHui");
        assert("A"@.len() != "WanHui"@.len());
    }
    if p == a {
        DspKind::A
    } else if p == w {
        DspKind::WanHui
    } else {
        DspKind::Me(p)
    }
}

} // verus!
