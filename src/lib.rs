pub mod body;
pub mod delivery;
pub mod model;
pub mod order;
pub mod query;
pub mod synth;
