//! How the delay based detector sees the link.
use vstd::prelude::*;

verus! {

/// How the use of the link compares with what it can carry.
#[derive(Debug, Clone, Copy, PartialEq, Eq, Structural)]
pub enum BandwidthUsage {
    Overuse,
    Normal,
    Underuse,
}

impl BandwidthUsage {
    /// The name of the state, as logs show it.
    pub fn name(&self) -> (name: &'static str)
        ensures
            name@ == match *self {
                BandwidthUsage::Overuse => "overuse"@,
                BandwidthUsage::Normal => "normal"@,
                BandwidthUsage::Underuse => "underuse"@,
            },
    {
        match self {
            BandwidthUsage::Overuse => "overuse",
            BandwidthUsage::Normal => "normal",
            BandwidthUsage::Underuse => "underuse",
        }
    }
}

} // verus!
