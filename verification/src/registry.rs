//! The type-affinity registry: which SQL type each host type maps to.
//!
//! Exact lookups go through a concurrent hash map; the order in which
//! descriptors were first entered is kept beside it, so that the scan for a
//! registered supertype of an unknown descriptor always runs in that order.

use crate::sqltype::{SqlType, TypeAffinity, TypeDescriptor};
use dashmap::DashMap;
use vstd::prelude::*;

verus! {

/// `dashmap::DashMap`, carried as an opaque value.
#[verifier::external_type_specification]
#[verifier::external_body]
#[verifier::reject_recursive_types(K)]
#[verifier::reject_recursive_types(V)]
#[verifier::reject_recursive_types(S)]
pub struct ExDashMap<K, V, S>(DashMap<K, V, S>);

/// The key-value pairs that a lookup table holds.
pub uninterp spec fn lut_entries(lut: DashMap<usize, SqlType>) -> Map<usize, SqlType>;

/// Makes an empty table with `DashMap::new`.
///
/// Trusted: the new table holds no pair.
#[verifier::external_body]
fn lut_new() -> (lut: DashMap<usize, SqlType>)
    ensures
        forall|key: usize| !lut_entries(lut).contains_key(key),
{
    DashMap::new()
}

/// Stores a pair with `DashMap::insert`.
///
/// Trusted: afterwards the table maps `key` to `value` and every other key as
/// before.
#[verifier::external_body]
fn lut_insert(lut: &mut DashMap<usize, SqlType>, key: usize, value: SqlType)
    ensures
        lut_entries(*final(lut)) == lut_entries(*old(lut)).insert(key, value),
{
    lut.insert(key, value);
}

/// Reads the value stored under a key with `DashMap::get`.
///
/// Trusted: the result is the value that the table maps `key` to, and `None`
/// exactly when it holds no pair with that key.
#[verifier::external_body]
fn lut_get(lut: &DashMap<usize, SqlType>, key: usize) -> (found: Option<SqlType>)
    ensures
        found == if lut_entries(*lut).contains_key(key) {
            Some(lut_entries(*lut)[key])
        } else {
            None
        },
{
    lut.get(&key).map(|entry| *entry.value())
}


/// What a registry holds: the descriptors in the order in which they were
/// first entered, and the SQL type of each.
pub struct RegistryView {
    pub order: Seq<TypeDescriptor>,
    pub types: Map<TypeDescriptor, SqlType>,
}

impl RegistryView {
    /// No descriptor is listed twice, and the listed descriptors are exactly
    /// those that have a type.
    pub open spec fn wf(self) -> bool {
        &&& forall|i: int, j: int|
            0 <= i < j < self.order.len() ==> self.order[i] != self.order[j]
        &&& forall|d: TypeDescriptor|
            self.types.contains_key(d) <==> self.order.contains(d)
    }

    /// The registry with nothing entered.
    pub open spec fn empty() -> RegistryView {
        RegistryView { order: Seq::empty(), types: Map::empty() }
    }

    /// The type entered for `d`, if any.
    pub open spec fn type_of(self, d: TypeDescriptor) -> Option<SqlType> {
        if self.types.contains_key(d) {
            Some(self.types[d])
        } else {
            None
        }
    }

    /// The registry after `d` is entered with type `t`: a known descriptor
    /// keeps its place in the order and takes the new type, an unknown one
    /// goes to the end.
    pub open spec fn registered(self, d: TypeDescriptor, t: SqlType) -> RegistryView {
        RegistryView {
            order: if self.types.contains_key(d) {
                self.order
            } else {
                self.order.push(d)
            },
            types: self.types.insert(d, t),
        }
    }
}

/// The scan for `d` can stop at position `i` with a match: the oracle may
/// have answered no for every earlier descriptor and yes for the one at `i`.
pub open spec fn first_match_at<F: Fn(TypeDescriptor, TypeDescriptor) -> bool>(
    order: Seq<TypeDescriptor>,
    d: TypeDescriptor,
    is_subtype: F,
    i: int,
) -> bool {
    &&& 0 <= i < order.len()
    &&& call_ensures(is_subtype, (d, order[i]), true)
    &&& forall|j: int| 0 <= j < i ==> call_ensures(is_subtype, (d, #[trigger] order[j]), false)
}

/// The scan for `d` can end without a match: the oracle may have answered no
/// for every listed descriptor.
pub open spec fn no_match<F: Fn(TypeDescriptor, TypeDescriptor) -> bool>(
    order: Seq<TypeDescriptor>,
    d: TypeDescriptor,
    is_subtype: F,
) -> bool {
    forall|j: int|
        0 <= j < order.len() ==> call_ensures(is_subtype, (d, #[trigger] order[j]), false)
}

/// A descriptor that has no entry and is a subtype of no entered descriptor.
#[derive(Clone, Copy, Debug, PartialEq, Eq, Structural)]
pub struct NotClassifiable {
    pub descriptor: TypeDescriptor,
}

/// How a classification of `d` may end, given the registry `before` it and
/// the oracle that was consulted.
///
/// A descriptor with an entry yields that entry's type and leaves the registry
/// as it was, whatever the oracle is. One without an entry yields the type of
/// the first listed descriptor that the oracle accepts as a supertype, and is
/// then entered with that type at the end of the order; if the oracle accepts
/// none, the classification fails and the registry is as it was.
pub open spec fn classify_ensures<F: Fn(TypeDescriptor, TypeDescriptor) -> bool>(
    before: RegistryView,
    d: TypeDescriptor,
    is_subtype: F,
    outcome: Result<SqlType, NotClassifiable>,
    after: RegistryView,
) -> bool {
    match before.type_of(d) {
        Some(t) => outcome == Ok::<SqlType, NotClassifiable>(t) && after == before,
        None => match outcome {
            Ok(t) => {
                &&& exists|i: int|
                    #![trigger before.order[i]]
                    first_match_at(before.order, d, is_subtype, i) && t == before.types[before.order[i]]
                &&& after == before.registered(d, t)
            },
            Err(e) => {
                &&& no_match(before.order, d, is_subtype)
                &&& e.descriptor == d
                &&& after == before
            },
        },
    }
}

/// Process-wide cache from host type descriptor to SQL type.
pub struct TypeAffinityRegistry {
    lut: DashMap<usize, SqlType>,
    order: Vec<TypeDescriptor>,
}

/// Enters `d` with type `t` in both halves of a registry.
fn enter(
    lut: &mut DashMap<usize, SqlType>,
    order: &mut Vec<TypeDescriptor>,
    d: TypeDescriptor,
    t: SqlType,
)
    requires
        view_of(*old(lut), old(order)@).wf(),
    ensures
        view_of(*final(lut), final(order)@) == view_of(*old(lut), old(order)@).registered(d, t),
        view_of(*final(lut), final(order)@).wf(),
{
    let ghost before = view_of(*lut, order@);
    let known = lut_get(lut, d.id);
    lut_insert(lut, d.id, t);
    if known.is_none() {
        order.push(d);
    }
    proof {
        let after = view_of(*lut, order@);
        let want = before.registered(d, t);
        assert(after.types =~= want.types);
        assert(after.order =~= want.order);
        assert forall|e: TypeDescriptor| after.types.contains_key(e) <==> after.order.contains(
            e,
        ) by {
            if before.order.contains(e) {
                let i = choose|i: int| 0 <= i < before.order.len() && before.order[i] == e;
                assert(after.order[i] == e);
            }
            if !before.types.contains_key(d) {
                assert(after.order[before.order.len() as int] == d);
            }
        }
        assert forall|i: int, j: int| 0 <= i < j < after.order.len() implies after.order[i]
            != after.order[j] by {
            if j == before.order.len() {
                assert(before.order[i] == after.order[i]);
                assert(before.order.contains(before.order[i]));
            }
        }
    }
}

/// The view of a registry made of the given halves.
pub closed spec fn view_of(lut: DashMap<usize, SqlType>, order: Seq<TypeDescriptor>) -> RegistryView {
    RegistryView {
        order,
        types: Map::new(
            |d: TypeDescriptor| lut_entries(lut).contains_key(d.id),
            |d: TypeDescriptor| lut_entries(lut)[d.id],
        ),
    }
}

impl View for TypeAffinityRegistry {
    type V = RegistryView;

    closed spec fn view(&self) -> RegistryView {
        view_of(self.lut, self.order@)
    }
}

impl TypeAffinityRegistry {
    /// The registry's two halves agree: see [`RegistryView::wf`].
    pub open spec fn wf(&self) -> bool {
        self@.wf()
    }

    /// A registry with nothing entered.
    pub fn new() -> (r: Self)
        ensures
            r@ == RegistryView::empty(),
            r.wf(),
    {
        let lut = lut_new();
        let order: Vec<TypeDescriptor> = Vec::new();
        proof {
            let v = view_of(lut, order@);
            assert(v.types =~= RegistryView::empty().types);
            assert(v.order =~= RegistryView::empty().order);
        }
        TypeAffinityRegistry { lut, order }
    }

    /// Enters `descriptor` with `sql_type`, replacing the type of an earlier
    /// entry for the same descriptor.
    pub fn register(&mut self, descriptor: TypeDescriptor, sql_type: SqlType)
        requires
            old(self).wf(),
        ensures
            final(self)@ == old(self)@.registered(descriptor, sql_type),
            final(self).wf(),
    {
        enter(&mut self.lut, &mut self.order, descriptor, sql_type);
    }

    /// The type entered for `descriptor`, without any scan.
    pub fn lookup(&self, descriptor: TypeDescriptor) -> (found: Option<SqlType>)
        ensures
            found == self@.type_of(descriptor),
    {
        lut_get(&self.lut, descriptor.id)
    }

    /// A registry seeded with the built-in bindings: the host's integer type
    /// as a required integer, its dictionary and byte-string types as
    /// required blobs.
    pub fn with_builtins(
        int_type: TypeDescriptor,
        dict_type: TypeDescriptor,
        bytes_type: TypeDescriptor,
    ) -> (r: Self)
        ensures
            r@ == builtins(int_type, dict_type, bytes_type),
            r.wf(),
    {
        let mut r = TypeAffinityRegistry::new();
        r.register(int_type, SqlType::required(TypeAffinity::Integer));
        r.register(dict_type, SqlType::required(TypeAffinity::Blob));
        r.register(bytes_type, SqlType::required(TypeAffinity::Blob));
        r
    }

    /// The SQL type of `descriptor`.
    ///
    /// An entered descriptor is answered from its entry, and `is_subtype` is
    /// then never called. Otherwise the entered descriptors are scanned in
    /// order, `is_subtype(descriptor, entered)` is asked of each, and the
    /// first that is accepted gives its type, under which `descriptor` is then
    /// entered itself. See [`classify_ensures`].
    pub fn classify<F: Fn(TypeDescriptor, TypeDescriptor) -> bool>(
        &mut self,
        descriptor: TypeDescriptor,
        is_subtype: &F,
    ) -> (outcome: Result<SqlType, NotClassifiable>)
        requires
            old(self).wf(),
            old(self)@.type_of(descriptor) is None ==> forall|i: int|
                0 <= i < old(self)@.order.len() ==> call_requires(
                    *is_subtype,
                    (descriptor, #[trigger] old(self)@.order[i]),
                ),
        ensures
            final(self).wf(),
            classify_ensures(old(self)@, descriptor, *is_subtype, outcome, final(self)@),
    {
        if let Some(t) = lut_get(&self.lut, descriptor.id) {
            return Ok(t);
        }
        let n = self.order.len();
        let mut i: usize = 0;
        while i < n
            invariant
                i <= n,
                n == self.order@.len(),
                self.wf(),
                self@ == old(self)@,
                self@.type_of(descriptor) is None,
                forall|k: int|
                    0 <= k < self@.order.len() ==> call_requires(
                        *is_subtype,
                        (descriptor, #[trigger] self@.order[k]),
                    ),
                forall|j: int|
                    0 <= j < i ==> call_ensures(
                        *is_subtype,
                        (descriptor, #[trigger] self@.order[j]),
                        false,
                    ),
            decreases n - i,
        {
            let root = self.order[i];
            assert(root == self@.order[i as int]);
            if is_subtype(descriptor, root) {
                assert(self@.order.contains(root));
                let t = lut_get(&self.lut, root.id).unwrap();
                assert(first_match_at(self@.order, descriptor, *is_subtype, i as int));
                enter(&mut self.lut, &mut self.order, descriptor, t);
                return Ok(t);
            }
            i += 1;
        }
        Err(NotClassifiable { descriptor })
    }
}

/// The registry that holds the built-in bindings and nothing else.
pub open spec fn builtins(
    int_type: TypeDescriptor,
    dict_type: TypeDescriptor,
    bytes_type: TypeDescriptor,
) -> RegistryView {
    RegistryView::empty().registered(
        int_type,
        SqlType { affinity: TypeAffinity::Integer, nullable: false },
    ).registered(dict_type, SqlType { affinity: TypeAffinity::Blob, nullable: false }).registered(
        bytes_type,
        SqlType { affinity: TypeAffinity::Blob, nullable: false },
    )
}


/// Every answer that the oracle can give is the value of `relation`.
pub open spec fn answers_by<F: Fn(TypeDescriptor, TypeDescriptor) -> bool>(
    is_subtype: F,
    relation: spec_fn(TypeDescriptor, TypeDescriptor) -> bool,
) -> bool {
    forall|a: TypeDescriptor, b: TypeDescriptor, r: bool|
        #[trigger] call_ensures(is_subtype, (a, b), r) ==> r == relation(a, b)
}

/// A descriptor that was entered is found with the type it was entered with,
/// every other descriptor keeps what it had, and the registry stays
/// well-formed. In particular, entering a root again with another type does
/// not touch the descriptors that were resolved through it earlier.
pub proof fn lemma_registered(v: RegistryView, d: TypeDescriptor, t: SqlType, other: TypeDescriptor)
    requires
        v.wf(),
    ensures
        v.registered(d, t).wf(),
        v.registered(d, t).type_of(d) == Some(t),
        other != d ==> v.registered(d, t).type_of(other) == v.type_of(other),
        v.type_of(d) is Some ==> v.registered(d, t).order == v.order,
{
    let w = v.registered(d, t);
    assert forall|e: TypeDescriptor| w.types.contains_key(e) <==> w.order.contains(e) by {
        if v.order.contains(e) {
            let i = choose|i: int| 0 <= i < v.order.len() && v.order[i] == e;
            assert(w.order[i] == e);
        }
        if !v.types.contains_key(d) {
            assert(w.order[v.order.len() as int] == d);
        }
    }
    assert forall|i: int, j: int| 0 <= i < j < w.order.len() implies w.order[i] != w.order[j] by {
        if j == v.order.len() {
            assert(v.order[i] == w.order[i]);
            assert(v.order.contains(v.order[i]));
        }
    }
}

/// A descriptor that was entered explicitly is classified as the type it was
/// entered with, whatever the oracle is and whatever was entered before, and
/// the classification changes nothing.
pub proof fn lemma_registered_is_classified<F: Fn(TypeDescriptor, TypeDescriptor) -> bool>(
    v: RegistryView,
    d: TypeDescriptor,
    t: SqlType,
    f: F,
    outcome: Result<SqlType, NotClassifiable>,
    after: RegistryView,
)
    requires
        classify_ensures(v.registered(d, t), d, f, outcome, after),
    ensures
        outcome == Ok::<SqlType, NotClassifiable>(t),
        after == v.registered(d, t),
{
}

/// The classification of an entered descriptor does not depend on the
/// oracle: whatever two oracles would answer, both classifications give the
/// entered type and leave the registry as it was.
pub proof fn lemma_entered_needs_no_oracle<
    F: Fn(TypeDescriptor, TypeDescriptor) -> bool,
    G: Fn(TypeDescriptor, TypeDescriptor) -> bool,
>(
    before: RegistryView,
    d: TypeDescriptor,
    f: F,
    first: Result<SqlType, NotClassifiable>,
    after_first: RegistryView,
    g: G,
    second: Result<SqlType, NotClassifiable>,
    after_second: RegistryView,
)
    requires
        before.type_of(d) is Some,
        classify_ensures(before, d, f, first, after_first),
        classify_ensures(before, d, g, second, after_second),
    ensures
        first == Ok::<SqlType, NotClassifiable>(before.types[d]),
        second == first,
        after_first == before,
        after_second == before,
{
}

/// A successful classification is remembered: classifying the same
/// descriptor again gives the same type without a change to the registry,
/// whatever the oracle would answer by then.
pub proof fn lemma_classification_is_memoized<
    F: Fn(TypeDescriptor, TypeDescriptor) -> bool,
    G: Fn(TypeDescriptor, TypeDescriptor) -> bool,
>(
    before: RegistryView,
    d: TypeDescriptor,
    f: F,
    first: Result<SqlType, NotClassifiable>,
    between: RegistryView,
    g: G,
    second: Result<SqlType, NotClassifiable>,
    after: RegistryView,
)
    requires
        first is Ok,
        classify_ensures(before, d, f, first, between),
        classify_ensures(between, d, g, second, after),
    ensures
        second == first,
        after == between,
        between.type_of(d) is Some,
{
}

/// Where the oracle answers by a relation, a descriptor without an entry
/// takes the type of the first entered descriptor, in order of entry, that
/// the relation gives as its supertype, and is entered with that type.
pub proof fn lemma_first_entered_supertype_wins<F: Fn(TypeDescriptor, TypeDescriptor) -> bool>(
    before: RegistryView,
    d: TypeDescriptor,
    f: F,
    relation: spec_fn(TypeDescriptor, TypeDescriptor) -> bool,
    i: int,
    outcome: Result<SqlType, NotClassifiable>,
    after: RegistryView,
)
    requires
        answers_by(f, relation),
        before.type_of(d) is None,
        0 <= i < before.order.len(),
        relation(d, before.order[i]),
        forall|j: int| 0 <= j < i ==> !relation(d, #[trigger] before.order[j]),
        classify_ensures(before, d, f, outcome, after),
    ensures
        outcome == Ok::<SqlType, NotClassifiable>(before.types[before.order[i]]),
        after == before.registered(d, before.types[before.order[i]]),
{
    match outcome {
        Ok(t) => {
            let k = choose|k: int|
                #![trigger before.order[k]]
                first_match_at(before.order, d, f, k) && t == before.types[before.order[k]];
            if k < i {
                assert(!relation(d, before.order[k]));
            }
            if i < k {
                assert(call_ensures(f, (d, before.order[i]), false));
            }
        },
        Err(_) => {
            assert(call_ensures(f, (d, before.order[i]), false));
        },
    }
}

/// Where exactly two entered descriptors are supertypes of a descriptor
/// without an entry, it takes the type of the one that was entered first.
pub proof fn lemma_earlier_of_two_supertypes_wins<F: Fn(TypeDescriptor, TypeDescriptor) -> bool>(
    before: RegistryView,
    d: TypeDescriptor,
    f: F,
    relation: spec_fn(TypeDescriptor, TypeDescriptor) -> bool,
    earlier: int,
    later: int,
    outcome: Result<SqlType, NotClassifiable>,
    after: RegistryView,
)
    requires
        answers_by(f, relation),
        before.type_of(d) is None,
        0 <= earlier < later < before.order.len(),
        forall|j: int|
            0 <= j < before.order.len() ==> (relation(d, #[trigger] before.order[j]) <==> j == earlier
                || j == later),
        classify_ensures(before, d, f, outcome, after),
    ensures
        outcome == Ok::<SqlType, NotClassifiable>(before.types[before.order[earlier]]),
{
    lemma_first_entered_supertype_wins(before, d, f, relation, earlier, outcome, after);
}

/// Where the oracle answers by a relation that gives no entered descriptor
/// as a supertype of a descriptor without an entry, the classification fails
/// and names that descriptor, and the registry is as it was.
pub proof fn lemma_no_supertype_fails<F: Fn(TypeDescriptor, TypeDescriptor) -> bool>(
    before: RegistryView,
    d: TypeDescriptor,
    f: F,
    relation: spec_fn(TypeDescriptor, TypeDescriptor) -> bool,
    outcome: Result<SqlType, NotClassifiable>,
    after: RegistryView,
)
    requires
        answers_by(f, relation),
        before.type_of(d) is None,
        forall|j: int| 0 <= j < before.order.len() ==> !relation(d, #[trigger] before.order[j]),
        classify_ensures(before, d, f, outcome, after),
    ensures
        outcome == Err::<SqlType, NotClassifiable>(NotClassifiable { descriptor: d }),
        after == before,
{
    if let Ok(t) = outcome {
        let k = choose|k: int|
            #![trigger before.order[k]]
            first_match_at(before.order, d, f, k) && t == before.types[before.order[k]];
        assert(!relation(d, before.order[k]));
    }
}

/// Where two oracles answer by the same relation, classifications from the
/// same registry end alike: the outcome is fixed by the order of entry.
pub proof fn lemma_classification_is_determined<
    F: Fn(TypeDescriptor, TypeDescriptor) -> bool,
    G: Fn(TypeDescriptor, TypeDescriptor) -> bool,
>(
    before: RegistryView,
    d: TypeDescriptor,
    relation: spec_fn(TypeDescriptor, TypeDescriptor) -> bool,
    f: F,
    first: Result<SqlType, NotClassifiable>,
    after_first: RegistryView,
    g: G,
    second: Result<SqlType, NotClassifiable>,
    after_second: RegistryView,
)
    requires
        answers_by(f, relation),
        answers_by(g, relation),
        classify_ensures(before, d, f, first, after_first),
        classify_ensures(before, d, g, second, after_second),
    ensures
        first == second,
        after_first == after_second,
{
    if before.type_of(d) is None {
        if exists|i: int| 0 <= i < before.order.len() && relation(d, #[trigger] before.order[i]) {
            let i = choose_first(before.order, d, relation);
            lemma_first_entered_supertype_wins(before, d, f, relation, i, first, after_first);
            lemma_first_entered_supertype_wins(before, d, g, relation, i, second, after_second);
        } else {
            lemma_no_supertype_fails(before, d, f, relation, first, after_first);
            lemma_no_supertype_fails(before, d, g, relation, second, after_second);
        }
    }
}

/// The least position at which `relation` gives a supertype of `d`.
proof fn choose_first(
    order: Seq<TypeDescriptor>,
    d: TypeDescriptor,
    relation: spec_fn(TypeDescriptor, TypeDescriptor) -> bool,
) -> (i: int)
    requires
        exists|i: int| 0 <= i < order.len() && relation(d, #[trigger] order[i]),
    ensures
        0 <= i < order.len(),
        relation(d, order[i]),
        forall|j: int| 0 <= j < i ==> !relation(d, #[trigger] order[j]),
    decreases order.len(),
{
    let w = choose|i: int| 0 <= i < order.len() && relation(d, #[trigger] order[i]);
    let head = order.drop_last();
    if exists|i: int| 0 <= i < head.len() && relation(d, #[trigger] head[i]) {
        let i = choose_first(head, d, relation);
        assert(head[i] == order[i]);
        assert forall|j: int| 0 <= j < i implies !relation(d, #[trigger] order[j]) by {
            assert(head[j] == order[j]);
        }
        i
    } else {
        assert forall|j: int| 0 <= j < order.len() - 1 implies !relation(d, #[trigger] order[j]) by {
            assert(head[j] == order[j]);
        }
        order.len() - 1
    }
}

} // verus!
