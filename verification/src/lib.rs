//! Request logic of a small seasonal web service: a cookie-batch calculator
//! fed by an encoded header payload, and a handful of independent reducers.

pub mod baking;
pub mod greeting;
pub mod numbers;
pub mod pantry;
pub mod payload;
pub mod reindeer;
pub mod shelves;
pub mod status;
pub mod text;
