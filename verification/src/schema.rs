//! Schema reflection: from the annotations of a model's fields to SQL types.

use crate::registry::{classify_ensures, NotClassifiable, RegistryView, TypeAffinityRegistry};
use crate::sqltype::{SqlType, TypeDescriptor};
use hashbrown::HashMap;
use vstd::prelude::*;

verus! {

/// One member of a union annotation.
#[derive(Clone, Copy, Debug, PartialEq, Eq, Structural)]
pub enum UnionMember {
    /// The host's "absent" type.
    Absent,
    /// A plain host type.
    Type(TypeDescriptor),
    /// Anything else: a parametrized type, a nested union.
    Other,
}

/// The shapes of field annotation that are told apart.
#[derive(Clone, Debug, PartialEq, Eq)]
pub enum Annotation {
    /// A plain host type.
    Type(TypeDescriptor),
    /// A union of the listed members.
    Union(Vec<UnionMember>),
    /// A generic wrapper or container around further annotations, known by
    /// the type it is built from.
    Generic(TypeDescriptor),
}

/// What an [`Annotation`] holds.
pub enum AnnotationView {
    Type(TypeDescriptor),
    Union(Seq<UnionMember>),
    Generic(TypeDescriptor),
}

impl View for Annotation {
    type V = AnnotationView;

    open spec fn view(&self) -> AnnotationView {
        match self {
            Annotation::Type(d) => AnnotationView::Type(*d),
            Annotation::Union(members) => AnnotationView::Union(members@),
            Annotation::Generic(d) => AnnotationView::Generic(*d),
        }
    }
}

/// Why an annotation has no SQL type.
#[derive(Clone, Copy, Debug, PartialEq, Eq, Structural)]
pub enum AnnotationError {
    /// The annotated type has no entry and no entered supertype.
    NotClassifiable(TypeDescriptor),
    /// The shape of the annotation is not one that can be resolved.
    UnsupportedAnnotation,
}

/// The host type that decides the SQL type of an annotation, and whether the
/// annotation declares the field nullable: a plain type stands for itself,
/// and a union of exactly one plain type with "absent", in either order,
/// stands for that type as nullable. No other shape is resolved.
pub open spec fn primitive_of(annotation: AnnotationView) -> Option<(TypeDescriptor, bool)> {
    match annotation {
        AnnotationView::Type(d) => Some((d, false)),
        AnnotationView::Union(members) => if members.len() == 2 {
            match (members[0], members[1]) {
                (UnionMember::Absent, UnionMember::Type(d)) => Some((d, true)),
                (UnionMember::Type(d), UnionMember::Absent) => Some((d, true)),
                _ => None,
            }
        } else {
            None
        },
        AnnotationView::Generic(_) => None,
    }
}

/// The SQL type of a field whose deciding type classifies as `t`.
pub open spec fn declared(t: SqlType, nullable: bool) -> SqlType {
    if nullable {
        SqlType { affinity: t.affinity, nullable: true }
    } else {
        t
    }
}

/// How the resolution of an annotation may end, given the registry `before`
/// it and the oracle that was consulted.
///
/// An annotation of no resolvable shape is unsupported, and the registry is
/// untouched. Otherwise the deciding type is classified: its type, made
/// nullable where the annotation says so, is the result, and a failure to
/// classify it is reported with that type.
pub open spec fn resolve_ensures<F: Fn(TypeDescriptor, TypeDescriptor) -> bool>(
    before: RegistryView,
    annotation: AnnotationView,
    is_subtype: F,
    outcome: Result<SqlType, AnnotationError>,
    after: RegistryView,
) -> bool {
    match primitive_of(annotation) {
        None => {
            &&& outcome == Err::<SqlType, AnnotationError>(AnnotationError::UnsupportedAnnotation)
            &&& after == before
        },
        Some((d, nullable)) => match outcome {
            Ok(t) => exists|c: SqlType|
                {
                    &&& #[trigger] classify_ensures(
                        before,
                        d,
                        is_subtype,
                        Ok::<SqlType, NotClassifiable>(c),
                        after,
                    )
                    &&& t == declared(c, nullable)
                },
            Err(e) => {
                &&& e == AnnotationError::NotClassifiable(d)
                &&& classify_ensures(
                    before,
                    d,
                    is_subtype,
                    Err::<SqlType, NotClassifiable>(NotClassifiable { descriptor: d }),
                    after,
                )
            },
        },
    }
}

/// The oracle may be asked about `d` against every entered descriptor, in
/// case `d` has no entry.
pub open spec fn may_scan<F: Fn(TypeDescriptor, TypeDescriptor) -> bool>(
    registry: RegistryView,
    d: TypeDescriptor,
    is_subtype: F,
) -> bool {
    registry.type_of(d) is None ==> forall|i: int|
        0 <= i < registry.order.len() ==> call_requires(
            is_subtype,
            (d, #[trigger] registry.order[i]),
        )
}

fn deciding_type(annotation: &Annotation) -> (decided: Option<(TypeDescriptor, bool)>)
    ensures
        decided == primitive_of(annotation@),
{
    match annotation {
        Annotation::Type(d) => Some((*d, false)),
        Annotation::Union(members) => {
            if members.len() != 2 {
                return None;
            }
            match (members[0], members[1]) {
                (UnionMember::Absent, UnionMember::Type(d)) => Some((d, true)),
                (UnionMember::Type(d), UnionMember::Absent) => Some((d, true)),
                _ => None,
            }
        },
        Annotation::Generic(_) => None,
    }
}

/// Resolves a field annotation to its SQL type, classifying the deciding
/// type in `registry`. See [`resolve_ensures`].
pub fn try_get_root_sql_type<F: Fn(TypeDescriptor, TypeDescriptor) -> bool>(
    registry: &mut TypeAffinityRegistry,
    annotation: &Annotation,
    is_subtype: &F,
) -> (outcome: Result<SqlType, AnnotationError>)
    requires
        old(registry).wf(),
        primitive_of(annotation@) matches Some((d, _)) ==> may_scan(
            old(registry)@,
            d,
            *is_subtype,
        ),
    ensures
        final(registry).wf(),
        resolve_ensures(old(registry)@, annotation@, *is_subtype, outcome, final(registry)@),
{
    match deciding_type(annotation) {
        None => Err(AnnotationError::UnsupportedAnnotation),
        Some((d, nullable)) => match registry.classify(d, is_subtype) {
            Ok(t) => {
                if nullable {
                    Ok(t.as_nullable())
                } else {
                    Ok(t)
                }
            },
            Err(_) => Err(AnnotationError::NotClassifiable(d)),
        },
    }
}


/// What is known of one field of a model.
#[derive(Clone, Copy, Debug, PartialEq, Eq, Structural)]
pub struct TypeDef {
    pub sql_type: SqlType,
}

/// The schema of a model: the definition of each field, by field name, kept
/// in a `hashbrown::HashMap`.
#[verifier::external_body]
pub struct Schema {
    fields: HashMap<String, TypeDef>,
}

/// The definitions that a schema holds, by field name.
pub uninterp spec fn schema_fields(schema: Schema) -> Map<Seq<char>, TypeDef>;

/// Makes an empty schema with `HashMap::new`.
///
/// Trusted: the new schema holds no field.
#[verifier::external_body]
fn schema_new() -> (schema: Schema)
    ensures
        forall|name: Seq<char>| !schema_fields(schema).contains_key(name),
{
    Schema { fields: HashMap::new() }
}

/// Stores a definition with `HashMap::insert`.
///
/// Trusted: afterwards the schema maps the text of `name` to `def` and every
/// other name as before.
#[verifier::external_body]
fn schema_insert(schema: &mut Schema, name: String, def: TypeDef)
    ensures
        schema_fields(*final(schema)) == schema_fields(*old(schema)).insert(name@, def),
{
    schema.fields.insert(name, def);
}

/// Reads a definition with `HashMap::get`.
///
/// Trusted: the result is the definition that the schema maps the text of
/// `name` to, and `None` exactly when it holds no field of that name.
#[verifier::external_body]
fn schema_get(schema: &Schema, name: &str) -> (found: Option<TypeDef>)
    ensures
        found == if schema_fields(*schema).contains_key(name@) {
            Some(schema_fields(*schema)[name@])
        } else {
            None
        },
{
    schema.fields.get(name).copied()
}

impl View for Schema {
    type V = Map<Seq<char>, TypeDef>;

    open spec fn view(&self) -> Map<Seq<char>, TypeDef> {
        schema_fields(*self)
    }
}

impl Schema {
    /// The definition of the field `name`, if the schema has such a field.
    pub fn get(&self, name: &str) -> (found: Option<TypeDef>)
        ensures
            found == if self@.contains_key(name@) {
                Some(self@[name@])
            } else {
                None
            },
    {
        schema_get(self, name)
    }
}

/// A field of a model as the host declares it.
#[derive(Clone, Debug, PartialEq, Eq)]
pub struct FieldAnnotation {
    pub name: String,
    pub annotation: Annotation,
}

/// A field that could not be given a SQL type, and why. The cause names the
/// type that was observed where there is one.
#[derive(Clone, Debug, PartialEq, Eq)]
pub struct FieldError {
    pub field: String,
    pub cause: AnnotationError,
}

/// What a [`FieldError`] holds.
pub struct FieldErrorView {
    pub field: Seq<char>,
    pub cause: AnnotationError,
}

impl View for FieldError {
    type V = FieldErrorView;

    open spec fn view(&self) -> FieldErrorView {
        FieldErrorView { field: self.field@, cause: self.cause }
    }
}

/// The outcome of a reflection as plain values: the schema's fields, or the
/// failed field and the cause.
pub open spec fn reflected(outcome: Result<Schema, FieldError>) -> Result<
    Map<Seq<char>, TypeDef>,
    FieldErrorView,
> {
    match outcome {
        Ok(schema) => Ok(schema@),
        Err(e) => Err(e@),
    }
}

/// The oracle may be asked about any descriptor against any other.
pub open spec fn total<F: Fn(TypeDescriptor, TypeDescriptor) -> bool>(is_subtype: F) -> bool {
    forall|a: TypeDescriptor, b: TypeDescriptor| #[trigger] call_requires(is_subtype, (a, b))
}

/// The fields up to `upto` were resolved one after the other: `states[i]` is
/// the registry before field `i`, `states[i + 1]` the registry after it, and
/// `types[i]` the type it resolved to.
pub open spec fn resolved_in_turn<F: Fn(TypeDescriptor, TypeDescriptor) -> bool>(
    fields: Seq<FieldAnnotation>,
    is_subtype: F,
    states: Seq<RegistryView>,
    types: Seq<SqlType>,
    upto: int,
) -> bool {
    &&& 0 <= upto <= fields.len()
    &&& states.len() == upto + 1
    &&& types.len() == upto
    &&& forall|i: int|
        0 <= i < upto ==> #[trigger] resolve_ensures(
            states[i],
            fields[i].annotation@,
            is_subtype,
            Ok::<SqlType, AnnotationError>(types[i]),
            states[i + 1],
        )
}

/// The schema made of the first `upto` fields with the given types; of two
/// fields with one name the later counts.
pub open spec fn schema_of(fields: Seq<FieldAnnotation>, types: Seq<SqlType>, upto: int) -> Map<
    Seq<char>,
    TypeDef,
>
    decreases upto,
{
    if upto <= 0 {
        Map::empty()
    } else {
        schema_of(fields, types, upto - 1).insert(
            fields[upto - 1].name@,
            TypeDef { sql_type: types[upto - 1] },
        )
    }
}

/// How the reflection of a model's fields may end, given the registry
/// `before` it and the oracle that was consulted.
///
/// The fields are resolved in their order, each against the registry that the
/// one before it left. If all resolve, the schema holds each field's type. At
/// the first that does not, the reflection fails with that field's name and
/// cause; what the fields before it entered in the registry stays.
pub open spec fn reflect_ensures<F: Fn(TypeDescriptor, TypeDescriptor) -> bool>(
    before: RegistryView,
    fields: Seq<FieldAnnotation>,
    is_subtype: F,
    outcome: Result<Map<Seq<char>, TypeDef>, FieldErrorView>,
    after: RegistryView,
) -> bool {
    exists|states: Seq<RegistryView>, types: Seq<SqlType>|
        #![trigger resolved_in_turn(fields, is_subtype, states, types, types.len() as int)]
        {
            &&& resolved_in_turn(fields, is_subtype, states, types, types.len() as int)
            &&& states[0] == before
            &&& match outcome {
                Ok(schema) => {
                    &&& types.len() == fields.len()
                    &&& states.last() == after
                    &&& schema == schema_of(fields, types, fields.len() as int)
                },
                Err(e) => {
                    &&& types.len() < fields.len()
                    &&& e.field == fields[types.len() as int].name@
                    &&& resolve_ensures(
                        states.last(),
                        fields[types.len() as int].annotation@,
                        is_subtype,
                        Err::<SqlType, AnnotationError>(e.cause),
                        after,
                    )
                },
            }
        }
}

/// Reflects the fields of a model into a schema, resolving each annotation
/// in `registry`. See [`reflect_ensures`].
pub fn reflect_schema<F: Fn(TypeDescriptor, TypeDescriptor) -> bool>(
    registry: &mut TypeAffinityRegistry,
    fields: &Vec<FieldAnnotation>,
    is_subtype: &F,
) -> (outcome: Result<Schema, FieldError>)
    requires
        old(registry).wf(),
        total(*is_subtype),
    ensures
        final(registry).wf(),
        reflect_ensures(
            old(registry)@,
            fields@,
            *is_subtype,
            reflected(outcome),
            final(registry)@,
        ),
{
    let mut schema = schema_new();
    let ghost mut states: Seq<RegistryView> = seq![registry@];
    let ghost mut types: Seq<SqlType> = Seq::empty();
    assert(schema@ =~= schema_of(fields@, types, 0));
    let mut i: usize = 0;
    while i < fields.len()
        invariant
            i <= fields@.len(),
            registry.wf(),
            total(*is_subtype),
            types.len() == i,
            resolved_in_turn(fields@, *is_subtype, states, types, i as int),
            states[0] == old(registry)@,
            states.last() == registry@,
            schema@ == schema_of(fields@, types, i as int),
        decreases fields@.len() - i,
    {
        let field = &fields[i];
        let ghost here = registry@;
        match try_get_root_sql_type(registry, &field.annotation, is_subtype) {
            Ok(t) => {
                schema_insert(&mut schema, field.name.clone(), TypeDef { sql_type: t });
                proof {
                    let grown = states.push(registry@);
                    let typed = types.push(t);
                    assert forall|k: int| 0 <= k < i + 1 implies #[trigger] resolve_ensures(
                        grown[k],
                        fields@[k].annotation@,
                        *is_subtype,
                        Ok::<SqlType, AnnotationError>(typed[k]),
                        grown[k + 1],
                    ) by {
                        if k < i {
                            assert(grown[k] == states[k]);
                            assert(grown[k + 1] == states[k + 1]);
                            assert(typed[k] == types[k]);
                        }
                    }
                    lemma_schema_of_prefix(fields@, types, typed, i as int);
                    states = grown;
                    types = typed;
                }
            },
            Err(cause) => {
                let error = FieldError { field: field.name.clone(), cause };
                assert(resolved_in_turn(fields@, *is_subtype, states, types, types.len() as int));
                return Err(error);
            },
        }
        i += 1;
    }
    assert(resolved_in_turn(fields@, *is_subtype, states, types, types.len() as int));
    Ok(schema)
}

/// The schema of a prefix depends only on the types of that prefix.
proof fn lemma_schema_of_prefix(
    fields: Seq<FieldAnnotation>,
    types: Seq<SqlType>,
    longer: Seq<SqlType>,
    upto: int,
)
    requires
        0 <= upto <= types.len() <= longer.len(),
        forall|k: int| 0 <= k < types.len() ==> types[k] == longer[k],
    ensures
        schema_of(fields, types, upto) == schema_of(fields, longer, upto),
    decreases upto,
{
    if upto > 0 {
        lemma_schema_of_prefix(fields, types, longer, upto - 1);
    }
}

} // verus!
