//! Send side bandwidth estimation and pacing control for real time media.
//!
//! The estimator takes in transport wide congestion control (TWCC) reports, sent packets and
//! timeouts. It combines a delay based and a loss based estimate of the bandwidth into one, and
//! decides who gets to know of it. The pacer control turns the estimate into the rates to pace and
//! to pad with.
pub mod double;
pub mod units;
pub mod twcc;
pub mod packet;
pub mod receive_order;
pub mod rules;
pub mod timeout;
pub mod usage;
pub mod pacer;
pub mod parts;
pub mod estimator;
pub mod handle;
pub mod laws;
pub mod behaviour;
pub mod alr;
pub mod capacity;
pub mod replay;
