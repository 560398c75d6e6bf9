//! What holds of the controller as a whole.

pub mod acks;
pub mod answers;
pub mod beginning;
pub mod doubles;
pub mod estimates;
pub mod evolution;
pub mod exchanges;
pub mod filters;
pub mod frames;
pub mod log;
pub mod loss_point;
pub mod moves;
pub mod outcomes;
pub mod probing;
pub mod startup;
pub mod timing;
pub mod wholes;
pub mod window;
