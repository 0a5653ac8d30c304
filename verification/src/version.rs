use vstd::prelude::*;

verus! {

/// A version of the game whose data files are read.
#[derive(Debug, Clone, Copy, PartialEq, Eq, Structural)]
pub enum WoWVersion {
    WotLK,
}

/// How a version stores its data files.
#[derive(Debug, Clone, Copy, PartialEq, Eq, Structural)]
pub enum StorageType {
    Mpq,
}

impl WoWVersion {
    /// The storage that this version's data files are in: MPQ archives for WotLK.
    pub fn storage_type(&self) -> (t: StorageType)
        ensures
            t == StorageType::Mpq,
    {
        match self {
            WoWVersion::WotLK => StorageType::Mpq,
        }
    }
}

} // verus!
