//! Verified data-structure drills: an undirected weighted graph, a bubble
//! sort, a binary search tree and a stack built from two queues.

pub mod graph;
pub mod graph_laws;
pub mod sorting;
pub mod bst;
pub mod queue_stack;
