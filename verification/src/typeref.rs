//! The host's interned constants, looked up once per process.

use vstd::prelude::*;

verus! {

/// Handles of the host objects that the library hands out again and again.
/// A handle is the stable identity of a host object, never looked into here.
#[derive(Clone, Copy, Debug, PartialEq, Eq, Structural)]
pub struct TypeRefs {
    /// The host's "none" singleton.
    pub none: usize,
    /// The host's "true" singleton.
    pub truth: usize,
    /// The host's "false" singleton.
    pub falsity: usize,
    /// The shared empty string.
    pub empty_unicode: usize,
}

/// The place where the handles are kept: empty until the first
/// initialization, and never reassigned afterwards.
pub struct TypeRefTable {
    refs: Option<TypeRefs>,
}

impl View for TypeRefTable {
    type V = Option<TypeRefs>;

    closed spec fn view(&self) -> Option<TypeRefs> {
        self.refs
    }
}

impl TypeRefTable {
    /// A table that has not been initialized.
    pub fn new() -> (table: Self)
        ensures
            table@ is None,
    {
        TypeRefTable { refs: None }
    }

    /// The handles, once the table has been initialized.
    pub fn get(&self) -> (refs: Option<TypeRefs>)
        ensures
            refs == self@,
    {
        self.refs
    }
}

/// Initializes the table on the first call and leaves it alone on every
/// later one. `lookup` asks the host for the handles; it is called only when
/// the table is empty. Returns whether this call did the initialization.
pub fn init_typerefs<F: FnOnce() -> TypeRefs>(table: &mut TypeRefTable, lookup: F) -> (first: bool)
    requires
        old(table)@ is None ==> call_requires(lookup, ()),
    ensures
        first == (old(table)@ is None),
        old(table)@ is Some ==> final(table)@ == old(table)@,
        old(table)@ is None ==> final(table)@ is Some && call_ensures(
            lookup,
            (),
            final(table)@->Some_0,
        ),
{
    if table.refs.is_some() {
        return false;
    }
    let refs = lookup();
    table.refs = Some(refs);
    true
}

} // verus!
