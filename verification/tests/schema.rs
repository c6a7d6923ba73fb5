use pysqlx::registry::TypeAffinityRegistry;
use pysqlx::schema::{
    reflect_schema, try_get_root_sql_type, Annotation, AnnotationError, FieldAnnotation,
    FieldError, TypeDef, UnionMember,
};
use pysqlx::sqltype::{SqlType, TypeAffinity, TypeDescriptor};

const INT: TypeDescriptor = TypeDescriptor { id: 1 };
const STR: TypeDescriptor = TypeDescriptor { id: 2 };
const BYTES: TypeDescriptor = TypeDescriptor { id: 3 };
const LIST: TypeDescriptor = TypeDescriptor { id: 4 };
const MY_INT: TypeDescriptor = TypeDescriptor { id: 11 };
const UNKNOWN: TypeDescriptor = TypeDescriptor { id: 99 };

fn ty(affinity: TypeAffinity, nullable: bool) -> SqlType {
    SqlType { affinity, nullable }
}

fn registry() -> TypeAffinityRegistry {
    let mut registry = TypeAffinityRegistry::new();
    registry.register(INT, ty(TypeAffinity::Integer, false));
    registry.register(STR, ty(TypeAffinity::Text, false));
    registry.register(BYTES, ty(TypeAffinity::Blob, false));
    registry
}

fn is_subtype(sub: TypeDescriptor, sup: TypeDescriptor) -> bool {
    sub == MY_INT && sup == INT
}

fn field(name: &str, annotation: Annotation) -> FieldAnnotation {
    FieldAnnotation { name: name.to_string(), annotation }
}

#[test]
fn plain_type_takes_its_registered_type() {
    let mut registry = registry();
    assert_eq!(
        try_get_root_sql_type(&mut registry, &Annotation::Type(INT), &is_subtype),
        Ok(ty(TypeAffinity::Integer, false))
    );
    assert_eq!(
        try_get_root_sql_type(&mut registry, &Annotation::Type(STR), &is_subtype),
        Ok(ty(TypeAffinity::Text, false))
    );
}

#[test]
fn plain_subtype_is_classified_through_its_root() {
    let mut registry = registry();
    assert_eq!(
        try_get_root_sql_type(&mut registry, &Annotation::Type(MY_INT), &is_subtype),
        Ok(ty(TypeAffinity::Integer, false))
    );
    assert_eq!(registry.lookup(MY_INT), Some(ty(TypeAffinity::Integer, false)));
}

#[test]
fn union_with_absent_is_nullable_in_either_order() {
    let mut registry = registry();
    let first = Annotation::Union(vec![UnionMember::Type(INT), UnionMember::Absent]);
    let second = Annotation::Union(vec![UnionMember::Absent, UnionMember::Type(STR)]);
    assert_eq!(
        try_get_root_sql_type(&mut registry, &first, &is_subtype),
        Ok(ty(TypeAffinity::Integer, true))
    );
    assert_eq!(
        try_get_root_sql_type(&mut registry, &second, &is_subtype),
        Ok(ty(TypeAffinity::Text, true))
    );
    assert_eq!(registry.lookup(INT), Some(ty(TypeAffinity::Integer, false)));
}

#[test]
fn unsupported_shapes() {
    let mut registry = registry();
    let shapes = vec![
        Annotation::Union(vec![UnionMember::Type(INT), UnionMember::Type(STR)]),
        Annotation::Union(vec![
            UnionMember::Type(INT),
            UnionMember::Type(STR),
            UnionMember::Absent,
        ]),
        Annotation::Union(vec![UnionMember::Absent, UnionMember::Absent]),
        Annotation::Union(vec![UnionMember::Type(INT)]),
        Annotation::Union(vec![UnionMember::Absent]),
        Annotation::Union(vec![]),
        Annotation::Union(vec![UnionMember::Other, UnionMember::Absent]),
        Annotation::Union(vec![UnionMember::Absent, UnionMember::Other]),
        Annotation::Generic(LIST),
        Annotation::Generic(INT),
    ];
    for shape in shapes {
        assert_eq!(
            try_get_root_sql_type(&mut registry, &shape, &is_subtype),
            Err(AnnotationError::UnsupportedAnnotation),
            "{:?}",
            shape
        );
    }
}

#[test]
fn unknown_type_is_not_classifiable() {
    let mut registry = registry();
    assert_eq!(
        try_get_root_sql_type(&mut registry, &Annotation::Type(UNKNOWN), &is_subtype),
        Err(AnnotationError::NotClassifiable(UNKNOWN))
    );
    let union = Annotation::Union(vec![UnionMember::Absent, UnionMember::Type(UNKNOWN)]);
    assert_eq!(
        try_get_root_sql_type(&mut registry, &union, &is_subtype),
        Err(AnnotationError::NotClassifiable(UNKNOWN))
    );
}

#[test]
fn schema_holds_each_field() {
    let mut registry = registry();
    let fields = vec![
        field("id", Annotation::Type(INT)),
        field("name", Annotation::Union(vec![UnionMember::Type(STR), UnionMember::Absent])),
        field("payload", Annotation::Type(BYTES)),
        field("rank", Annotation::Type(MY_INT)),
    ];
    let schema = match reflect_schema(&mut registry, &fields, &is_subtype) {
        Ok(schema) => schema,
        Err(e) => panic!("unexpected {:?}", e),
    };
    assert_eq!(schema.get("id"), Some(TypeDef { sql_type: ty(TypeAffinity::Integer, false) }));
    assert_eq!(schema.get("name"), Some(TypeDef { sql_type: ty(TypeAffinity::Text, true) }));
    assert_eq!(schema.get("payload"), Some(TypeDef { sql_type: ty(TypeAffinity::Blob, false) }));
    assert_eq!(schema.get("rank"), Some(TypeDef { sql_type: ty(TypeAffinity::Integer, false) }));
    assert_eq!(schema.get("missing"), None);
    assert_eq!(schema.get(""), None);
}

#[test]
fn schema_of_no_fields_is_empty() {
    let mut registry = registry();
    match reflect_schema(&mut registry, &vec![], &is_subtype) {
        Ok(schema) => assert_eq!(schema.get("id"), None),
        Err(e) => panic!("unexpected {:?}", e),
    }
}

#[test]
fn later_field_of_the_same_name_counts() {
    let mut registry = registry();
    let fields = vec![field("x", Annotation::Type(INT)), field("x", Annotation::Type(STR))];
    match reflect_schema(&mut registry, &fields, &is_subtype) {
        Ok(schema) => {
            assert_eq!(schema.get("x"), Some(TypeDef { sql_type: ty(TypeAffinity::Text, false) }))
        }
        Err(e) => panic!("unexpected {:?}", e),
    }
}

#[test]
fn first_failing_field_is_named() {
    let mut registry = registry();
    let fields = vec![
        field("rank", Annotation::Type(MY_INT)),
        field("tags", Annotation::Generic(LIST)),
        field("other", Annotation::Type(UNKNOWN)),
    ];
    match reflect_schema(&mut registry, &fields, &is_subtype) {
        Ok(_) => panic!("should fail"),
        Err(e) => assert_eq!(
            e,
            FieldError { field: "tags".to_string(), cause: AnnotationError::UnsupportedAnnotation }
        ),
    }
    assert_eq!(registry.lookup(MY_INT), Some(ty(TypeAffinity::Integer, false)));
    let fields = vec![field("id", Annotation::Type(INT)), field("other", Annotation::Type(UNKNOWN))];
    match reflect_schema(&mut registry, &fields, &is_subtype) {
        Ok(_) => panic!("should fail"),
        Err(e) => assert_eq!(
            e,
            FieldError {
                field: "other".to_string(),
                cause: AnnotationError::NotClassifiable(UNKNOWN)
            }
        ),
    }
}
