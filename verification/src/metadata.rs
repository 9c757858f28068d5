use vstd::prelude::*;

verus! {

/// How the edges between consecutive coordinates are interpreted.
#[derive(Debug, Clone, Copy, PartialEq, Eq, Structural)]
pub enum Edges {
    /// Edges follow great circles on a sphere.
    Spherical,
}

/// Metadata carried along with a geometry array.
#[derive(Debug, Clone)]
pub struct ArrayMetadata {
    /// The coordinate reference system, as written (for example PROJJSON).
    pub crs: Option<String>,
    /// How edges are interpreted; planar when absent.
    pub edges: Option<Edges>,
}

impl Default for ArrayMetadata {
    fn default() -> (r: Self)
        ensures
            r.crs is None,
            r.edges is None,
    {
        ArrayMetadata { crs: None, edges: None }
    }
}

} // verus!
