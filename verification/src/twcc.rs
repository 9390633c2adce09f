//! What the sender knows of its packets: transport wide congestion control (TWCC) records.
use crate::units::{Bitrate, Instant};
use vstd::prelude::*;

verus! {

/// The sequence number that TWCC gives a packet.
#[derive(Debug, Clone, Copy, PartialEq, Eq, Structural, PartialOrd, Hash)]
pub struct TwccSeq(pub u64);

/// The identity of a probe cluster, a burst of packets sent to measure the link.
#[derive(Debug, Clone, Copy, PartialEq, Eq, Structural, PartialOrd, Hash)]
pub struct TwccClusterId(pub u64);

/// One sent packet, with what the remote has reported of it.
#[derive(Debug, Clone, Copy, PartialEq, Eq, Structural)]
pub struct TwccSendRecord {
    /// The TWCC sequence number.
    pub seq: TwccSeq,
    /// The probe cluster that the packet was sent in.
    pub cluster: Option<TwccClusterId>,
    /// The size of the packet in bytes.
    pub size: u16,
    /// When the packet was sent.
    pub local_send_time: Instant,
    /// When the report on the packet came in, if one has.
    pub local_recv_time: Option<Instant>,
    /// When the remote received the packet, if it did. The origin of this time is the remote's
    /// own: it compares only with other receive times of the same session.
    pub remote_recv_time: Option<Instant>,
}

/// What a probe cluster is to do.
#[derive(Debug, Clone, Copy, PartialEq, Eq, Structural)]
pub struct ProbeClusterConfig {
    /// The cluster's identity.
    pub cluster: TwccClusterId,
    /// The rate to send at.
    pub target_bitrate: Bitrate,
    /// Whether the cluster was started because the application limits its own rate.
    pub alr_probe: bool,
}

impl ProbeClusterConfig {
    /// Whether the cluster was started because the application limits its own rate.
    pub fn is_alr_probe(&self) -> (alr: bool)
        ensures
            alr == self.alr_probe,
    {
        self.alr_probe
    }
}

} // verus!
