//! SQL type metadata and the opaque handle by which host types are known.

use vstd::prelude::*;

verus! {

/// Coarse SQL storage category, independent of the exact column type.
#[derive(Clone, Copy, Debug, PartialEq, Eq, Structural)]
pub enum TypeAffinity {
    Integer,
    Text,
    Blob,
    Real,
    Numeric,
}

/// Semantic SQL type of a host type: its affinity and whether it admits NULL.
#[derive(Clone, Copy, Debug, PartialEq, Eq, Structural)]
pub struct SqlType {
    pub affinity: TypeAffinity,
    pub nullable: bool,
}

/// Opaque, identity-stable handle to a runtime type of the host object system.
///
/// Two descriptors denote the same host type exactly when their identities are
/// equal; the library never looks behind the identity.
#[derive(Clone, Copy, Debug, PartialEq, Eq, Structural)]
pub struct TypeDescriptor {
    pub id: usize,
}

impl SqlType {
    /// A type of the given affinity that does not admit NULL.
    pub fn required(affinity: TypeAffinity) -> (t: SqlType)
        ensures
            t == (SqlType { affinity, nullable: false }),
    {
        SqlType { affinity, nullable: false }
    }

    /// The same affinity, admitting NULL.
    pub fn as_nullable(self) -> (t: SqlType)
        ensures
            t == (SqlType { affinity: self.affinity, nullable: true }),
    {
        SqlType { affinity: self.affinity, nullable: true }
    }
}

} // verus!
