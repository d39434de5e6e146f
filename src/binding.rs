//! Binding each field of a schema to what the environment supplied, and
//! aggregating every outcome before deciding success or failure.
use vstd::prelude::*;
use crate::naming::{NamingConvention, derive_name, derived_name};
use crate::parse::{TypeTag, Value, ValueModel, parsed, parse_value};

verus! {

/// One declared field: its identifier, target type, optionality and description.
#[derive(Debug, Clone, PartialEq, Eq)]
pub struct FieldSchema {
    pub identifier: String,
    pub type_tag: TypeTag,
    pub optional: bool,
    pub description: String,
}

impl FieldSchema {
    pub fn new(identifier: &str, type_tag: TypeTag, optional: bool, description: &str) -> (r:
        FieldSchema)
        ensures
            r.identifier@ == identifier@,
            r.type_tag == type_tag,
            r.optional == optional,
            r.description@ == description@,
    {
        FieldSchema {
            identifier: String::from_str(identifier),
            type_tag,
            optional,
            description: String::from_str(description),
        }
    }
}

/// Why a field could not be bound.
#[derive(Clone, Copy, Debug, PartialEq, Eq, Structural)]
pub enum FailureKind {
    /// A required field's variable is absent.
    VariableNotFound,
    /// The variable is present but its value does not parse as the field's type.
    ParseFailure,
}

/// A captured binding failure, with what rendering it needs.
#[derive(Debug, Clone, PartialEq, Eq)]
pub struct Diagnostic {
    pub kind: FailureKind,
    /// The derived environment-variable name.
    pub env_name: String,
    /// The offending value; empty when the variable was absent.
    pub raw: String,
    /// The name of the field's type.
    pub target: String,
}

pub struct DiagnosticModel {
    pub kind: FailureKind,
    pub env_name: Seq<char>,
    pub raw: Seq<char>,
    pub target: Seq<char>,
}

impl View for Diagnostic {
    type V = DiagnosticModel;

    open spec fn view(&self) -> DiagnosticModel {
        DiagnosticModel {
            kind: self.kind,
            env_name: self.env_name@,
            raw: self.raw@,
            target: self.target@,
        }
    }
}

/// What the environment supplied for one field.
#[derive(Debug, Clone, PartialEq, Eq)]
pub struct Reading {
    /// The variable's value, if it is set.
    pub raw: Option<String>,
    /// For a field of external type: whether that type's parser accepted `raw`.
    /// Ignored for the other types.
    pub accepted: bool,
}

impl Reading {
    pub fn absent() -> (r: Reading)
        ensures
            r.raw is None,
            !r.accepted,
    {
        Reading { raw: None, accepted: false }
    }

    pub fn present(raw: &str, accepted: bool) -> (r: Reading)
        ensures
            r.raw is Some,
            r.raw->0@ == raw@,
            r.accepted == accepted,
    {
        Reading { raw: Some(String::from_str(raw)), accepted }
    }
}

/// The outcome of binding one field.
#[derive(Debug, Clone, PartialEq, Eq)]
pub enum Outcome {
    Bound(Value),
    /// An optional field whose variable is absent.
    Missing,
    Failed(Diagnostic),
}

pub enum OutcomeModel {
    Bound(ValueModel),
    Missing,
    Failed(DiagnosticModel),
}

impl View for Outcome {
    type V = OutcomeModel;

    open spec fn view(&self) -> OutcomeModel {
        match self {
            Outcome::Bound(v) => OutcomeModel::Bound(v@),
            Outcome::Missing => OutcomeModel::Missing,
            Outcome::Failed(d) => OutcomeModel::Failed(d@),
        }
    }
}

/// What binding `field`, whose variable is `env_name`, to `reading` yields.
pub open spec fn bind_model(field: FieldSchema, env_name: Seq<char>, reading: Reading) -> OutcomeModel {
    match reading.raw {
        None => if field.optional {
            OutcomeModel::Missing
        } else {
            OutcomeModel::Failed(
                DiagnosticModel {
                    kind: FailureKind::VariableNotFound,
                    env_name,
                    raw: Seq::empty(),
                    target: field.type_tag.name_view(),
                },
            )
        },
        Some(s) => match parsed(field.type_tag, s@, reading.accepted) {
            Some(v) => OutcomeModel::Bound(v),
            None => OutcomeModel::Failed(
                DiagnosticModel {
                    kind: FailureKind::ParseFailure,
                    env_name,
                    raw: s@,
                    target: field.type_tag.name_view(),
                },
            ),
        },
    }
}

/// Binds one field, whose variable is `env_name`, to what the environment supplied.
pub fn bind(field: &FieldSchema, env_name: &str, reading: &Reading) -> (r: Outcome)
    ensures
        r@ == bind_model(*field, env_name@, *reading),
{
    match &reading.raw {
        None => if field.optional {
            Outcome::Missing
        } else {
            Outcome::Failed(
                Diagnostic {
                    kind: FailureKind::VariableNotFound,
                    env_name: String::from_str(env_name),
                    raw: String::new(),
                    target: field.type_tag.display_name(),
                },
            )
        },
        Some(s) => match parse_value(&field.type_tag, s.as_str(), reading.accepted) {
            Some(v) => Outcome::Bound(v),
            None => Outcome::Failed(
                Diagnostic {
                    kind: FailureKind::ParseFailure,
                    env_name: String::from_str(env_name),
                    raw: s.clone(),
                    target: field.type_tag.display_name(),
                },
            ),
        },
    }
}

/// A failed field: its position in the schema and its diagnostic.
#[derive(Debug, Clone, PartialEq, Eq)]
pub struct Failure {
    pub index: usize,
    pub diagnostic: Diagnostic,
}

impl View for Failure {
    type V = (int, DiagnosticModel);

    open spec fn view(&self) -> (int, DiagnosticModel) {
        (self.index as int, self.diagnostic@)
    }
}

/// The result of a load: one value per field, or every failure in field order.
#[derive(Debug, Clone, PartialEq, Eq)]
pub enum LoadResult {
    /// For each field, its bound value; `None` for an optional field left unset.
    Loaded(Vec<Option<Value>>),
    Rejected(Vec<Failure>),
}

pub enum LoadModel {
    Loaded(Seq<Option<ValueModel>>),
    Rejected(Seq<(int, DiagnosticModel)>),
}

pub open spec fn value_option_view(o: Option<Value>) -> Option<ValueModel> {
    match o {
        Some(v) => Some(v@),
        None => None,
    }
}

impl View for LoadResult {
    type V = LoadModel;

    open spec fn view(&self) -> LoadModel {
        match self {
            LoadResult::Loaded(vs) => LoadModel::Loaded(
                vs@.map_values(|o: Option<Value>| value_option_view(o)),
            ),
            LoadResult::Rejected(fs) => LoadModel::Rejected(fs@.map_values(|f: Failure| f@)),
        }
    }
}

/// The outcome of every field, in schema order.
pub open spec fn outcomes(schema: Seq<FieldSchema>, names: Seq<Seq<char>>, readings: Seq<Reading>) -> Seq<
    OutcomeModel,
> {
    Seq::new(schema.len(), |i: int| bind_model(schema[i], names[i], readings[i]))
}

/// The failed outcomes, each with its position, in order.
pub open spec fn failures_of(outs: Seq<OutcomeModel>) -> Seq<(int, DiagnosticModel)>
    decreases outs.len(),
{
    if outs.len() == 0 {
        Seq::empty()
    } else {
        let earlier = failures_of(outs.drop_last());
        match outs.last() {
            OutcomeModel::Failed(d) => earlier.push(((outs.len() - 1) as int, d)),
            _ => earlier,
        }
    }
}

/// The value that an outcome contributes to a successful load.
pub open spec fn bound_of(o: OutcomeModel) -> Option<ValueModel> {
    match o {
        OutcomeModel::Bound(v) => Some(v),
        _ => None,
    }
}

/// Success when no outcome failed, else the failures.
pub open spec fn load_model(outs: Seq<OutcomeModel>) -> LoadModel {
    if failures_of(outs).len() == 0 {
        LoadModel::Loaded(outs.map_values(|o: OutcomeModel| bound_of(o)))
    } else {
        LoadModel::Rejected(failures_of(outs))
    }
}

pub open spec fn names_view(names: Seq<String>) -> Seq<Seq<char>> {
    names.map_values(|n: String| n@)
}

/// The derived variable name of every field, in schema order.
pub open spec fn schema_names(schema: Seq<FieldSchema>, convention: NamingConvention) -> Seq<
    Seq<char>,
> {
    schema.map_values(
        |f: FieldSchema| derived_name(f.identifier@, convention.prefix@, convention.suffix@),
    )
}

/// Derives the variable name of every field.
pub fn env_names(schema: &Vec<FieldSchema>, convention: &NamingConvention) -> (r: Vec<String>)
    ensures
        r.len() == schema.len(),
        names_view(r@) == schema_names(schema@, *convention),
{
    let mut names: Vec<String> = Vec::new();
    let mut i: usize = 0;
    while i < schema.len()
        invariant
            i <= schema.len(),
            names.len() == i,
            names_view(names@) == schema_names(schema@.take(i as int), *convention),
        decreases schema.len() - i,
    {
        let name = derive_name(schema[i].identifier.as_str(), convention);
        let ghost before = names@;
        names.push(name);
        i = i + 1;
        assert forall|j: int| 0 <= j < i implies names_view(names@)[j] == schema_names(
            schema@.take(i as int),
            *convention,
        )[j] by {
            if j < i - 1 {
                assert(names@[j] == before[j]);
                assert(names_view(before)[j] == schema_names(schema@.take(i - 1), *convention)[j]);
            }
        }
        assert(names_view(names@) =~= schema_names(schema@.take(i as int), *convention));
    }
    assert(schema@.take(i as int) =~= schema@);
    names
}

/// Binds every field, never stopping at a failure, and decides only then.
pub fn aggregate(schema: &Vec<FieldSchema>, names: &Vec<String>, readings: &Vec<Reading>) -> (r:
    LoadResult)
    requires
        names.len() == schema.len(),
        readings.len() == schema.len(),
    ensures
        r@ == load_model(outcomes(schema@, names_view(names@), readings@)),
{
    let ghost outs = outcomes(schema@, names_view(names@), readings@);
    let mut values: Vec<Option<Value>> = Vec::new();
    let mut failures: Vec<Failure> = Vec::new();
    let mut i: usize = 0;
    while i < schema.len()
        invariant
            i <= schema.len(),
            names.len() == schema.len(),
            readings.len() == schema.len(),
            values.len() == i,
            outs == outcomes(schema@, names_view(names@), readings@),
            values@.map_values(|o: Option<Value>| value_option_view(o)) == outs.take(
                i as int,
            ).map_values(|o: OutcomeModel| bound_of(o)),
            failures@.map_values(|f: Failure| f@) == failures_of(outs.take(i as int)),
        decreases schema.len() - i,
    {
        let outcome = bind(&schema[i], names[i].as_str(), &readings[i]);
        assert(outs.take(i + 1).drop_last() =~= outs.take(i as int));
        assert(outs[i as int] == outcome@);
        let ghost before = values@;
        let ghost prior = outs.take(i as int).map_values(|o: OutcomeModel| bound_of(o));
        match outcome {
            Outcome::Bound(v) => {
                values.push(Some(v));
            },
            Outcome::Missing => {
                values.push(None);
            },
            Outcome::Failed(d) => {
                values.push(None);
                failures.push(Failure { index: i, diagnostic: d });
            },
        }
        assert(values@.len() == i + 1);
        assert(value_option_view(values@[i as int]) == bound_of(outs[i as int]));
        i = i + 1;
        assert forall|j: int| 0 <= j < i - 1 implies value_option_view(values@[j]) == bound_of(
            outs[j],
        ) by {
            assert(values@[j] == before[j]);
            assert(value_option_view(before[j]) == prior[j]);
        }
        assert(values@.map_values(|o: Option<Value>| value_option_view(o)) =~= outs.take(
            i as int,
        ).map_values(|o: OutcomeModel| bound_of(o)));
        assert(failures@.map_values(|f: Failure| f@) =~= failures_of(outs.take(i as int)));
    }
    assert(outs.take(i as int) =~= outs);
    if failures.len() == 0 {
        LoadResult::Loaded(values)
    } else {
        LoadResult::Rejected(failures)
    }
}

/// Derives every field's variable name and binds the schema to `readings`,
/// which hold what the environment supplied for each field in order.
pub fn load(schema: &Vec<FieldSchema>, convention: &NamingConvention, readings: &Vec<Reading>) -> (r:
    LoadResult)
    requires
        readings.len() == schema.len(),
    ensures
        r@ == load_model(outcomes(schema@, schema_names(schema@, *convention), readings@)),
{
    let names = env_names(schema, convention);
    aggregate(schema, &names, readings)
}

/// The sole item of `items`, when it holds exactly one.
pub fn only_one<T>(items: &[T]) -> (r: Option<&T>)
    ensures
        r is Some <==> items@.len() == 1,
        r is Some ==> *r->0 == items@[0],
{
    if items.len() == 1 {
        Some(&items[0])
    } else {
        None
    }
}

/// The first pair of fields whose derived names coincide, if any: such a
/// schema is a configuration error.
pub fn find_name_collision(names: &Vec<String>) -> (r: Option<(usize, usize)>)
    ensures
        r is None <==> forall|i: int, j: int|
            0 <= i < j < names.len() ==> names@[i]@ != names@[j]@,
        r matches Some((i, j)) ==> i < j < names.len() && names@[i as int]@ == names@[j as int]@,
{
    let mut j: usize = 0;
    while j < names.len()
        invariant
            j <= names.len(),
            forall|a: int, b: int| 0 <= a < b < j ==> names@[a]@ != names@[b]@,
        decreases names.len() - j,
    {
        let mut i: usize = 0;
        while i < j
            invariant
                i <= j < names.len(),
                forall|a: int, b: int| 0 <= a < b < j ==> names@[a]@ != names@[b]@,
                forall|a: int| 0 <= a < i ==> names@[a]@ != names@[j as int]@,
            decreases j - i,
        {
            if names[i] == names[j] {
                return Some((i, j));
            }
            i = i + 1;
        }
        j = j + 1;
    }
    None
}

} // verus!
