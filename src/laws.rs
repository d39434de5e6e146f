//! Properties of loading and rendering, proved over the models that the
//! executable functions' contracts use.
use vstd::prelude::*;
use crate::binding::{
    DiagnosticModel, FailureKind, FieldSchema, LoadModel, OutcomeModel, Reading, bind_model,
    failures_of, load_model, outcomes, schema_names,
};
use crate::naming::NamingConvention;
use crate::parse::parsed;
use crate::usage::{cell, column_width, padded, spaces};

verus! {

/// How many outcomes failed.
pub open spec fn count_failed(outs: Seq<OutcomeModel>) -> nat
    decreases outs.len(),
{
    if outs.len() == 0 {
        0
    } else {
        count_failed(outs.drop_last()) + if outs.last() is Failed {
            1nat
        } else {
            0nat
        }
    }
}

/// The failure list names each failed outcome once, in increasing position,
/// with that outcome's own diagnostic, and names nothing else.
pub proof fn lemma_failures_exact(outs: Seq<OutcomeModel>)
    ensures
        ({
            let f = failures_of(outs);
            &&& f.len() == count_failed(outs)
            &&& forall|j: int|
                0 <= j < f.len() ==> 0 <= #[trigger] f[j].0 < outs.len() && outs[f[j].0]
                    == OutcomeModel::Failed(f[j].1)
            &&& forall|j: int, k: int| 0 <= j < k < f.len() ==> #[trigger] f[j].0 < #[trigger] f[k].0
            &&& forall|i: int|
                0 <= i < outs.len() && #[trigger] outs[i] is Failed ==> exists|j: int|
                    0 <= j < f.len() && #[trigger] f[j].0 == i
        }),
    decreases outs.len(),
{
    if outs.len() > 0 {
        let pre = outs.drop_last();
        lemma_failures_exact(pre);
        let fp = failures_of(pre);
        let f = failures_of(outs);
        assert forall|i: int| 0 <= i < outs.len() && #[trigger] outs[i] is Failed implies exists|j: int|
            0 <= j < f.len() && #[trigger] f[j].0 == i by {
            if i < outs.len() - 1 {
                assert(pre[i] is Failed);
                let j = choose|j: int| 0 <= j < fp.len() && #[trigger] fp[j].0 == i;
                assert(f[j].0 == i);
            } else {
                assert(f[f.len() - 1].0 == i);
            }
        }
    }
}

/// Loading a schema without fields always succeeds, with no values.
pub proof fn lemma_empty_schema_loads(
    schema: Seq<FieldSchema>,
    convention: NamingConvention,
    readings: Seq<Reading>,
)
    requires
        schema.len() == 0,
    ensures
        load_model(outcomes(schema, schema_names(schema, convention), readings))
            == LoadModel::Loaded(Seq::empty()),
{
    let outs = outcomes(schema, schema_names(schema, convention), readings);
    assert(outs.map_values(|o: OutcomeModel| crate::binding::bound_of(o)) =~= Seq::empty());
}

/// A load succeeds exactly when no field fails; when it fails, the failure
/// list holds exactly as many entries as there are failed fields, one for each,
/// in field order, never stopping at the first.
pub proof fn lemma_aggregation_exhaustive(
    schema: Seq<FieldSchema>,
    convention: NamingConvention,
    readings: Seq<Reading>,
)
    requires
        readings.len() == schema.len(),
    ensures
        ({
            let outs = outcomes(schema, schema_names(schema, convention), readings);
            &&& (load_model(outs) is Loaded <==> forall|i: int|
                0 <= i < outs.len() ==> !(#[trigger] outs[i] is Failed))
            &&& load_model(outs) is Rejected ==> {
                let f = load_model(outs)->Rejected_0;
                &&& f.len() == count_failed(outs)
                &&& forall|j: int, k: int|
                    0 <= j < k < f.len() ==> #[trigger] f[j].0 < #[trigger] f[k].0
                &&& forall|i: int|
                    0 <= i < outs.len() ==> (#[trigger] outs[i] is Failed <==> exists|j: int|
                        0 <= j < f.len() && #[trigger] f[j].0 == i)
            }
        }),
{
    let outs = outcomes(schema, schema_names(schema, convention), readings);
    lemma_failures_exact(outs);
    let f = failures_of(outs);
    if f.len() > 0 {
        assert(outs[f[0].0] is Failed);
    }
    if exists|i: int| 0 <= i < outs.len() && #[trigger] outs[i] is Failed {
        let i = choose|i: int| 0 <= i < outs.len() && #[trigger] outs[i] is Failed;
        let j = choose|j: int| 0 <= j < f.len() && #[trigger] f[j].0 == i;
        assert(f.len() > 0);
    }
}

/// A required field whose variable is absent is reported as not found; when
/// every other field binds, it is the only failure.
pub proof fn lemma_required_absent_fails(
    schema: Seq<FieldSchema>,
    convention: NamingConvention,
    readings: Seq<Reading>,
    i: int,
)
    requires
        readings.len() == schema.len(),
        0 <= i < schema.len(),
        !schema[i].optional,
        readings[i].raw is None,
    ensures
        ({
            let names = schema_names(schema, convention);
            let outs = outcomes(schema, names, readings);
            let d = DiagnosticModel {
                kind: FailureKind::VariableNotFound,
                env_name: names[i],
                raw: Seq::empty(),
                target: schema[i].type_tag.name_view(),
            };
            &&& load_model(outs) is Rejected
            &&& exists|j: int|
                0 <= j < load_model(outs)->Rejected_0.len() && #[trigger] load_model(
                    outs,
                )->Rejected_0[j] == (i, d)
            &&& (forall|k: int| 0 <= k < schema.len() && k != i ==> !(#[trigger] outs[k] is Failed))
                ==> load_model(outs)->Rejected_0 == seq![(i, d)]
        }),
{
    let names = schema_names(schema, convention);
    let outs = outcomes(schema, names, readings);
    lemma_failures_exact(outs);
    let f = failures_of(outs);
    let d = DiagnosticModel {
        kind: FailureKind::VariableNotFound,
        env_name: names[i],
        raw: Seq::empty(),
        target: schema[i].type_tag.name_view(),
    };
    assert(outs[i] == bind_model(schema[i], names[i], readings[i]));
    assert(outs[i] == OutcomeModel::Failed(d));
    let j = choose|j: int| 0 <= j < f.len() && #[trigger] f[j].0 == i;
    assert(outs[f[j].0] == OutcomeModel::Failed(f[j].1));
    assert(f[j] == (i, d));
    assert(f.len() > 0);
    assert(load_model(outs)->Rejected_0 == f);
    if forall|k: int| 0 <= k < schema.len() && k != i ==> !(#[trigger] outs[k] is Failed) {
        assert forall|m: int| 0 <= m < f.len() implies #[trigger] f[m].0 == i by {
            assert(outs[f[m].0] is Failed);
        }
        if f.len() > 1 {
            assert(f[0].0 < f[1].0);
        }
        assert(f =~= seq![(i, d)]);
    }
}

/// An optional field whose variable is absent never appears among the failures.
pub proof fn lemma_optional_absent_never_fails(
    schema: Seq<FieldSchema>,
    convention: NamingConvention,
    readings: Seq<Reading>,
    i: int,
)
    requires
        readings.len() == schema.len(),
        0 <= i < schema.len(),
        schema[i].optional,
        readings[i].raw is None,
    ensures
        ({
            let outs = outcomes(schema, schema_names(schema, convention), readings);
            load_model(outs) is Rejected ==> forall|j: int|
                0 <= j < load_model(outs)->Rejected_0.len() ==> #[trigger] load_model(
                    outs,
                )->Rejected_0[j].0 != i
        }),
{
    let outs = outcomes(schema, schema_names(schema, convention), readings);
    lemma_failures_exact(outs);
    assert(outs[i] is Missing);
}

/// A field whose variable holds a value that does not parse as its type, required
/// or optional, is reported as a parse failure carrying that value.
pub proof fn lemma_unparsable_value_fails(
    schema: Seq<FieldSchema>,
    convention: NamingConvention,
    readings: Seq<Reading>,
    i: int,
)
    requires
        readings.len() == schema.len(),
        0 <= i < schema.len(),
        readings[i].raw is Some,
        parsed(schema[i].type_tag, readings[i].raw->0@, readings[i].accepted) is None,
    ensures
        ({
            let outs = outcomes(schema, schema_names(schema, convention), readings);
            &&& load_model(outs) is Rejected
            &&& exists|j: int|
                0 <= j < load_model(outs)->Rejected_0.len() && #[trigger] load_model(
                    outs,
                )->Rejected_0[j].0 == i && load_model(outs)->Rejected_0[j].1.kind
                    == FailureKind::ParseFailure && load_model(outs)->Rejected_0[j].1.raw
                    == readings[i].raw->0@
        }),
{
    let outs = outcomes(schema, schema_names(schema, convention), readings);
    lemma_failures_exact(outs);
    let f = failures_of(outs);
    assert(outs[i] == bind_model(schema[i], schema_names(schema, convention)[i], readings[i]));
    assert(outs[i] is Failed);
    let j = choose|j: int| 0 <= j < f.len() && #[trigger] f[j].0 == i;
    assert(outs[f[j].0] == OutcomeModel::Failed(f[j].1));
    assert(f[j].1.kind == FailureKind::ParseFailure && f[j].1.raw == readings[i].raw->0@);
    assert(load_model(outs)->Rejected_0 == f);
}

/// Every column is as wide as its widest cell: no cell is wider, some cell is
/// exactly that wide, and every padded cell is exactly that wide.
pub proof fn lemma_column_width_is_max(
    schema: Seq<FieldSchema>,
    names: Seq<Seq<char>>,
    col: int,
    n: int,
)
    requires
        0 <= n <= schema.len(),
        0 <= col < 3,
    ensures
        forall|i: int|
            0 <= i < n ==> (#[trigger] cell(schema, names, i, col)).len() <= column_width(
                schema,
                names,
                col,
                n,
            ),
        forall|i: int|
            0 <= i < n ==> padded(#[trigger] cell(schema, names, i, col), column_width(schema, names, col, n)).len()
                == column_width(schema, names, col, n),
        n > 0 ==> exists|i: int|
            0 <= i < n && (#[trigger] cell(schema, names, i, col)).len() == column_width(
                schema,
                names,
                col,
                n,
            ),
    decreases n,
{
    if n > 0 {
        lemma_column_width_is_max(schema, names, col, n - 1);
        let w = column_width(schema, names, col, n);
        assert forall|i: int| 0 <= i < n implies padded(#[trigger] cell(schema, names, i, col), w).len()
            == w by {
            let c = cell(schema, names, i, col);
            if c.len() < w {
                assert(spaces((w - c.len()) as nat).len() == w - c.len());
            }
        }
        if cell(schema, names, n - 1, col).len() < w {
            let i = choose|i: int|
                0 <= i < n - 1 && (#[trigger] cell(schema, names, i, col)).len() == column_width(
                    schema,
                    names,
                    col,
                    n - 1,
                );
        }
    }
}

} // verus!
