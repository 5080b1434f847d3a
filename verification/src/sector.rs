//! What a client knows of a sector before joining it.

use std::sync::Arc;
use vstd::prelude::*;

verus! {

/// The name and display name of a sector.
pub struct SectorMeta {
    pub name: Box<str>,
    pub display_name: Box<str>,
}

impl SectorMeta {
    /// Shared sector information with the given names.
    pub fn new(name: Box<str>, display_name: Box<str>) -> (meta: Arc<SectorMeta>)
        ensures
            meta.name == name,
            meta.display_name == display_name,
    {
        Arc::new(SectorMeta { name, display_name })
    }
}

} // verus!
