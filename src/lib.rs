//! A streaming byte-pipe monitor: the decisions of its three stages
//! (source, meter, sink), the verdict over a run, the text of its status
//! line, and a few classic data structures.

pub mod text;
pub mod units;
pub mod meter;
pub mod source;
pub mod sink;
pub mod pipeline;
pub mod order;
pub mod linkedlists;
pub mod binarytree;
pub mod balancedtree;
pub mod rand_gen;
