use vstd::prelude::*;
use crate::m2::m2_vertex::M2Vertex;

verus! {

/// The parts of an M2 model that are rendered.
pub struct M2Model {
    pub vertices: Vec<M2Vertex>,
    pub texture_paths: Vec<String>,
    pub texture_lookup: Vec<u16>,
}

} // verus!
