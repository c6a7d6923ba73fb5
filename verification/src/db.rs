//! The database facade: a connection pool handle and the table of reflected
//! model schemas.

use crate::cursor::{CursorState, StreamingQueryCursor};
use crate::registry::{RegistryView, TypeAffinityRegistry};
use crate::schema::{
    reflect_ensures, reflect_schema, total, FieldAnnotation, FieldError, FieldErrorView, Schema,
    TypeDef,
};
use crate::sqltype::TypeDescriptor;
use hashbrown::HashMap;
use sqlx::any::AnyConnectOptions;
use std::str::FromStr;
use vstd::prelude::*;

verus! {

/// A model as the host describes it.
#[derive(Clone, Debug, PartialEq, Eq)]
pub struct ModelDescriptor {
    pub name: String,
    pub primary_key: String,
    pub fields: Vec<FieldAnnotation>,
}

/// A model whose schema has been reflected.
pub struct RegisteredModel {
    pub primary_key: String,
    pub schema: Schema,
}

/// What a [`RegisteredModel`] holds.
pub struct RegisteredModelView {
    pub primary_key: Seq<char>,
    pub schema: Map<Seq<char>, TypeDef>,
}

impl View for RegisteredModel {
    type V = RegisteredModelView;

    open spec fn view(&self) -> RegisteredModelView {
        RegisteredModelView { primary_key: self.primary_key@, schema: self.schema@ }
    }
}

/// The registered models by name, kept in a `hashbrown::HashMap`.
#[verifier::external_body]
pub struct ModelTable {
    models: HashMap<String, RegisteredModel>,
}

/// The models that a table holds, by name.
pub uninterp spec fn model_table_entries(table: ModelTable) -> Map<Seq<char>, RegisteredModel>;

/// Makes an empty table with `HashMap::new`.
///
/// Trusted: the new table holds no model.
#[verifier::external_body]
fn model_table_new() -> (table: ModelTable)
    ensures
        forall|name: Seq<char>| !model_table_entries(table).contains_key(name),
{
    ModelTable { models: HashMap::new() }
}

/// Stores a model with `HashMap::insert`.
///
/// Trusted: afterwards the table maps the text of `name` to `model` and every
/// other name as before.
#[verifier::external_body]
fn model_table_insert(table: &mut ModelTable, name: String, model: RegisteredModel)
    ensures
        model_table_entries(*final(table)) == model_table_entries(*old(table)).insert(
            name@,
            model,
        ),
{
    table.models.insert(name, model);
}

/// Reads a model with `HashMap::get`.
///
/// Trusted: the result is the model that the table maps the text of `name`
/// to, and `None` exactly when it holds no model of that name.
#[verifier::external_body]
fn model_table_get<'a>(table: &'a ModelTable, name: &str) -> (found: Option<&'a RegisteredModel>)
    ensures
        found == if model_table_entries(*table).contains_key(name@) {
            Some(&model_table_entries(*table)[name@])
        } else {
            None
        },
{
    table.models.get(name)
}

impl View for ModelTable {
    type V = Map<Seq<char>, RegisteredModelView>;

    open spec fn view(&self) -> Map<Seq<char>, RegisteredModelView> {
        model_table_entries(*self).map_values(|model: RegisteredModel| model@)
    }
}


/// `sqlx::any::AnyConnectOptions`, carried as an opaque value.
#[verifier::external_type_specification]
#[verifier::external_body]
pub struct ExAnyConnectOptions(AnyConnectOptions);

/// `sqlx::Error`, carried as an opaque value.
#[verifier::external_type_specification]
#[verifier::external_body]
pub struct ExSqlxError(sqlx::Error);

/// Whether the driver library accepts a text as a connection string.
pub uninterp spec fn is_connection_string(text: Seq<char>) -> bool;

/// Parses a connection string with `AnyConnectOptions::from_str`.
///
/// Trusted: whether the parse succeeds depends on the text alone.
#[verifier::external_body]
fn parse_connect_options(connection_str: &str) -> (parsed: Result<AnyConnectOptions, sqlx::Error>)
    ensures
        parsed is Ok <==> is_connection_string(connection_str@),
{
    AnyConnectOptions::from_str(connection_str)
}

/// Renders a driver error as text with its `Display` impl.
#[verifier::external_body]
fn error_text(error: &sqlx::Error) -> String {
    format!("{}", error)
}

/// A connection string that the driver library does not accept.
#[derive(Clone, Debug, PartialEq, Eq)]
pub struct ConnectionConfigError {
    /// The driver's account of what is wrong.
    pub reason: String,
}

/// The facade: a pool handle of the caller's choosing and the models
/// registered so far.
pub struct Database<P> {
    conn: P,
    registered_models: ModelTable,
}

/// How the registration of a model may end, given the models and the
/// registry `before` it and the oracle that was consulted.
///
/// A name that is taken is not registered again: nothing changes and the
/// answer is `false`. Otherwise the fields are reflected; if that succeeds the
/// model is stored under its name with its primary key and schema and the
/// answer is `true`, and if it fails the models are as before and the failure
/// is handed on.
pub open spec fn register_model_ensures<F: Fn(TypeDescriptor, TypeDescriptor) -> bool>(
    models_before: Map<Seq<char>, RegisteredModelView>,
    registry_before: RegistryView,
    model: ModelDescriptor,
    is_subtype: F,
    outcome: Result<bool, FieldErrorView>,
    models_after: Map<Seq<char>, RegisteredModelView>,
    registry_after: RegistryView,
) -> bool {
    if models_before.contains_key(model.name@) {
        &&& outcome == Ok::<bool, FieldErrorView>(false)
        &&& models_after == models_before
        &&& registry_after == registry_before
    } else {
        match outcome {
            Ok(stored) => {
                &&& stored
                &&& models_after.contains_key(model.name@)
                &&& models_after == models_before.insert(model.name@, models_after[model.name@])
                &&& models_after[model.name@].primary_key == model.primary_key@
                &&& reflect_ensures(
                    registry_before,
                    model.fields@,
                    is_subtype,
                    Ok::<Map<Seq<char>, TypeDef>, FieldErrorView>(
                        models_after[model.name@].schema,
                    ),
                    registry_after,
                )
            },
            Err(e) => {
                &&& models_after == models_before
                &&& reflect_ensures(
                    registry_before,
                    model.fields@,
                    is_subtype,
                    Err::<Map<Seq<char>, TypeDef>, FieldErrorView>(e),
                    registry_after,
                )
            },
        }
    }
}

/// The outcome of a registration as plain values.
pub open spec fn registered(outcome: Result<bool, FieldError>) -> Result<bool, FieldErrorView> {
    match outcome {
        Ok(stored) => Ok(stored),
        Err(e) => Err(e@),
    }
}

impl<P> Database<P> {
    /// The pool handle.
    pub closed spec fn pool(&self) -> P {
        self.conn
    }

    /// The registered models by name.
    pub closed spec fn models(&self) -> Map<Seq<char>, RegisteredModelView> {
        self.registered_models@
    }

    /// A facade around `conn` with no model registered.
    pub fn new(conn: P) -> (db: Self)
        ensures
            db.pool() == conn,
            db.models() == Map::<Seq<char>, RegisteredModelView>::empty(),
    {
        let registered_models = model_table_new();
        assert(registered_models@ =~= Map::<Seq<char>, RegisteredModelView>::empty());
        Database { conn, registered_models }
    }

    /// A facade for what the parse of a connection string gave: the pool that
    /// `connect` makes of the options, or the configuration error.
    pub fn from_parsed<F: FnOnce(AnyConnectOptions) -> P>(
        parsed: Result<AnyConnectOptions, sqlx::Error>,
        connect: F,
    ) -> (opened: Result<Self, ConnectionConfigError>)
        requires
            forall|options: AnyConnectOptions| call_requires(connect, (options,)),
        ensures
            opened is Ok <==> parsed is Ok,
            opened matches Ok(db) ==> {
                &&& call_ensures(connect, (parsed->Ok_0,), db.pool())
                &&& db.models() == Map::<Seq<char>, RegisteredModelView>::empty()
            },
    {
        match parsed {
            Ok(options) => Ok(Database::new(connect(options))),
            Err(error) => Err(ConnectionConfigError { reason: error_text(&error) }),
        }
    }

    /// A facade for the database that `connection_str` names. The string is
    /// parsed by the driver library; `connect` makes the pool from the parsed
    /// options and is called only if the parse succeeds.
    pub fn open<F: FnOnce(AnyConnectOptions) -> P>(
        connection_str: &str,
        connect: F,
    ) -> (opened: Result<Self, ConnectionConfigError>)
        requires
            forall|options: AnyConnectOptions| call_requires(connect, (options,)),
        ensures
            opened is Ok <==> is_connection_string(connection_str@),
            opened matches Ok(db) ==> {
                &&& exists|options: AnyConnectOptions|
                    call_ensures(connect, (options,), #[trigger] db.pool())
                &&& db.models() == Map::<Seq<char>, RegisteredModelView>::empty()
            },
    {
        Database::from_parsed(parse_connect_options(connection_str), connect)
    }

    /// The pool handle.
    pub fn conn(&self) -> (conn: &P)
        ensures
            *conn == self.pool(),
    {
        &self.conn
    }

    /// The model registered under `name`, if there is one.
    pub fn model(&self, name: &str) -> (found: Option<&RegisteredModel>)
        ensures
            found is Some <==> self.models().contains_key(name@),
            found matches Some(model) ==> model@ == self.models()[name@],
    {
        model_table_get(&self.registered_models, name)
    }

    /// A cursor for `query`, its stream marked as opened. The text is not
    /// looked at: what is wrong with it shows at the first fetch.
    pub fn start_query(&self, query: &str) -> (cursor: StreamingQueryCursor)
        ensures
            cursor.query_text() == query@,
            cursor.spec_state() == CursorState::Open,
    {
        StreamingQueryCursor::start(query)
    }

    /// Reflects `model` and stores it under its name. See
    /// [`register_model_ensures`].
    pub fn register_model<F: Fn(TypeDescriptor, TypeDescriptor) -> bool>(
        &mut self,
        registry: &mut TypeAffinityRegistry,
        model: &ModelDescriptor,
        is_subtype: &F,
    ) -> (outcome: Result<bool, FieldError>)
        requires
            old(registry).wf(),
            total(*is_subtype),
        ensures
            final(registry).wf(),
            final(self).pool() == old(self).pool(),
            register_model_ensures(
                old(self).models(),
                old(registry)@,
                *model,
                *is_subtype,
                registered(outcome),
                final(self).models(),
                final(registry)@,
            ),
    {
        if model_table_get(&self.registered_models, model.name.as_str()).is_some() {
            return Ok(false);
        }
        match reflect_schema(registry, &model.fields, is_subtype) {
            Ok(schema) => {
                let stored = RegisteredModel { primary_key: model.primary_key.clone(), schema };
                let ghost before = self.registered_models@;
                model_table_insert(&mut self.registered_models, model.name.clone(), stored);
                assert(self.registered_models@ =~= before.insert(model.name@, stored@));
                Ok(true)
            },
            Err(e) => Err(e),
        }
    }
}

} // verus!
