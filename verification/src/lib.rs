//! The BBRv3 congestion controller.

pub mod aggregation;
pub mod bbr3;
pub mod checks;
pub mod config;
pub mod control;
pub mod cycle;
pub mod double;
pub mod estimates;
pub mod flow;
pub mod laws;
pub mod max_filter;
pub mod model;
pub mod packet;
pub mod params;
pub mod phases;
pub mod pipe;
pub mod probe_rng;
pub mod rounding;
pub mod rtt;
pub mod samples;
mod scaled;
pub mod signals;
pub mod time;

pub use bbr3::Bbr3;
pub use config::Bbr3Config;
