use vstd::prelude::*;

verus! {

/// A named identity: the profile's name and the absolute directory where its
/// key pair and encrypted files are stored. Created once; read-only
/// afterwards.
#[derive(Debug)]
pub struct Profile {
    pub name: String,
    pub storage: String,
}

} // verus!
