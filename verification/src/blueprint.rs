//! Node-graph data that the front end stores and round-trips through the
//! service unchanged; the service attaches no behaviour to it.

use vstd::prelude::*;

verus! {

/// A kind of node the front end's graph editor can place: its display data
/// and the names of its input and output ports.
#[derive(Debug, Clone)]
pub struct NodeType {
    pub kind_name: String,
    pub title: String,
    pub color: String,
    pub inputs: Vec<String>,
    pub outputs: Vec<String>,
}

/// An edge of the front end's node graph, from one node's output port to
/// another node's input port.
#[derive(Debug, Clone)]
pub struct Connection {
    pub id: String,
    pub source_id: String,
    pub source_port: String,
    pub target_id: String,
    pub target_port: String,
}

} // verus!
