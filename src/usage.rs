//! The usage text shown when a load fails: an aligned table of every field,
//! then one line per failed field.
use vstd::prelude::*;
use crate::binding::{
    Diagnostic, DiagnosticModel, Failure, FailureKind, FieldSchema, env_names, names_view,
    schema_names,
};
use crate::naming::NamingConvention;

verus! {

pub open spec fn spaces(n: nat) -> Seq<char> {
    Seq::new(n, |i: int| ' ')
}

/// `s` followed by enough spaces to reach `width` characters.
pub open spec fn padded(s: Seq<char>, width: nat) -> Seq<char> {
    if s.len() < width {
        s + spaces((width - s.len()) as nat)
    } else {
        s
    }
}

/// What the third column shows for a field.
pub open spec fn marker(optional: bool) -> Seq<char> {
    if optional {
        "[optional]"@
    } else {
        Seq::empty()
    }
}

/// The cell of row `i` in column `col`: the variable name, the description,
/// or the optionality marker.
pub open spec fn cell(schema: Seq<FieldSchema>, names: Seq<Seq<char>>, i: int, col: int) -> Seq<
    char,
> {
    if col == 0 {
        names[i]
    } else if col == 1 {
        schema[i].description@
    } else {
        marker(schema[i].optional)
    }
}

/// The widest cell of column `col` among the first `n` rows.
pub open spec fn column_width(schema: Seq<FieldSchema>, names: Seq<Seq<char>>, col: int, n: int) -> nat
    decreases n,
{
    if n <= 0 {
        0
    } else {
        let earlier = column_width(schema, names, col, n - 1);
        let here = cell(schema, names, n - 1, col).len();
        if here > earlier {
            here
        } else {
            earlier
        }
    }
}

pub open spec fn gap() -> Seq<char> {
    "    "@
}

/// One table line: an indent, then each cell padded to its column's width and
/// followed by a gap.
pub open spec fn row_line(schema: Seq<FieldSchema>, names: Seq<Seq<char>>, i: int) -> Seq<char> {
    let n = schema.len() as int;
    gap() + padded(cell(schema, names, i, 0), column_width(schema, names, 0, n)) + gap() + padded(
        cell(schema, names, i, 1),
        column_width(schema, names, 1, n),
    ) + gap() + padded(cell(schema, names, i, 2), column_width(schema, names, 2, n)) + gap()
        + "\n"@
}

/// The lines of the first `k` rows.
pub open spec fn table(schema: Seq<FieldSchema>, names: Seq<Seq<char>>, k: int) -> Seq<char>
    decreases k,
{
    if k <= 0 {
        Seq::empty()
    } else {
        table(schema, names, k - 1) + row_line(schema, names, k - 1)
    }
}

/// The line that reports one failure.
pub open spec fn diagnostic_line(d: DiagnosticModel) -> Seq<char> {
    if d.kind == FailureKind::VariableNotFound {
        "I couldn't find the environment variable "@ + d.env_name + ".\n"@
    } else {
        "I couldn't parse the value '"@ + d.raw + "' provided by the environment variable "@
            + d.env_name + ".\n"@
    }
}

/// The lines of the first `k` failures.
pub open spec fn error_lines(failures: Seq<(int, DiagnosticModel)>, k: int) -> Seq<char>
    decreases k,
{
    if k <= 0 {
        Seq::empty()
    } else {
        error_lines(failures, k - 1) + diagnostic_line(failures[k - 1].1)
    }
}

/// The whole usage text of `program` for `schema`, reporting `failures`.
pub open spec fn usage_text(
    program: Seq<char>,
    schema: Seq<FieldSchema>,
    names: Seq<Seq<char>>,
    failures: Seq<(int, DiagnosticModel)>,
) -> Seq<char> {
    "I, "@ + program + ", expect the following environment variables.\n\n"@ + table(
        schema,
        names,
        schema.len() as int,
    ) + "\n"@ + "I faced an error parsing the following environment variables.\n\n"@
        + error_lines(failures, failures.len() as int)
}

/// Appends `s` padded with spaces to `width` characters.
fn push_padded(out: &mut String, s: &str, width: usize)
    ensures
        final(out)@ == old(out)@ + padded(s@, width as nat),
{
    let len = s.unicode_len();
    let ghost base = out@;
    out.append(s);
    let mut k: usize = len;
    proof {
        reveal_strlit(" ");
    }
    assert(out@ =~= base + s@ + spaces((k - len) as nat));
    while k < width
        invariant
            len == s@.len(),
            len <= k,
            k <= width || len == k,
            out@ == base + s@ + spaces((k - len) as nat),
        decreases width - k,
    {
        let ghost prior = out@;
        out.append(" ");
        proof {
            reveal_strlit(" ");
        }
        assert(out@ == prior + seq![' ']);
        k = k + 1;
        assert(out@ =~= base + s@ + spaces((k - len) as nat));
    }
    if len >= width {
        assert(out@ =~= base + s@);
    }
}

/// The width of cell `col` of row `i`.
fn cell_len(schema: &Vec<FieldSchema>, names: &Vec<String>, i: usize, col: usize) -> (r: usize)
    requires
        i < schema.len(),
        names.len() == schema.len(),
        col < 3,
    ensures
        r == cell(schema@, names_view(names@), i as int, col as int).len(),
{
    if col == 0 {
        names[i].as_str().unicode_len()
    } else if col == 1 {
        schema[i].description.as_str().unicode_len()
    } else if schema[i].optional {
        proof {
            reveal_strlit("[optional]");
        }
        10
    } else {
        0
    }
}

/// The widest cell of column `col`.
fn widest(schema: &Vec<FieldSchema>, names: &Vec<String>, col: usize) -> (r: usize)
    requires
        names.len() == schema.len(),
        col < 3,
    ensures
        r == column_width(schema@, names_view(names@), col as int, schema.len() as int),
{
    let mut w: usize = 0;
    let mut i: usize = 0;
    while i < schema.len()
        invariant
            i <= schema.len(),
            names.len() == schema.len(),
            col < 3,
            w == column_width(schema@, names_view(names@), col as int, i as int),
        decreases schema.len() - i,
    {
        let here = cell_len(schema, names, i, col);
        if here > w {
            w = here;
        }
        i = i + 1;
    }
    w
}

fn push_diagnostic(out: &mut String, d: &Diagnostic)
    ensures
        final(out)@ == old(out)@ + diagnostic_line(d@),
{
    let ghost base = out@;
    if d.kind == FailureKind::VariableNotFound {
        out.append("I couldn't find the environment variable ");
        out.append(d.env_name.as_str());
        out.append(".\n");
    } else {
        out.append("I couldn't parse the value '");
        out.append(d.raw.as_str());
        out.append("' provided by the environment variable ");
        out.append(d.env_name.as_str());
        out.append(".\n");
    }
    assert(out@ =~= base + diagnostic_line(d@));
}

/// Renders the usage text of `program`: every field of `schema` in an aligned
/// table, then the diagnostic of each entry of `failures`, in order.
pub fn render_usage(
    program: &str,
    schema: &Vec<FieldSchema>,
    convention: &NamingConvention,
    failures: &Vec<Failure>,
) -> (r: String)
    ensures
        r@ == usage_text(
            program@,
            schema@,
            schema_names(schema@, *convention),
            failures@.map_values(|f: Failure| f@),
        ),
{
    let names = env_names(schema, convention);
    let ghost nv = names_view(names@);
    let n = schema.len();
    let w0 = widest(schema, &names, 0);
    let w1 = widest(schema, &names, 1);
    let w2 = widest(schema, &names, 2);
    let mut out = String::from_str("I, ");
    out.append(program);
    out.append(", expect the following environment variables.\n\n");
    let ghost head = out@;
    let mut i: usize = 0;
    while i < n
        invariant
            i <= n,
            n == schema.len(),
            names.len() == n,
            nv == names_view(names@),
            w0 == column_width(schema@, nv, 0, n as int),
            w1 == column_width(schema@, nv, 1, n as int),
            w2 == column_width(schema@, nv, 2, n as int),
            out@ == head + table(schema@, nv, i as int),
        decreases n - i,
    {
        let ghost before = out@;
        out.append("    ");
        push_padded(&mut out, names[i].as_str(), w0);
        out.append("    ");
        push_padded(&mut out, schema[i].description.as_str(), w1);
        out.append("    ");
        if schema[i].optional {
            push_padded(&mut out, "[optional]", w2);
        } else {
            push_padded(&mut out, "", w2);
        }
        out.append("    ");
        out.append("\n");
        proof {
            reveal_strlit("");
        }
        assert(out@ =~= before + row_line(schema@, nv, i as int));
        i = i + 1;
    }
    out.append("\n");
    out.append("I faced an error parsing the following environment variables.\n\n");
    let ghost middle = out@;
    let ghost fv = failures@.map_values(|f: Failure| f@);
    let mut k: usize = 0;
    while k < failures.len()
        invariant
            k <= failures.len(),
            fv == failures@.map_values(|f: Failure| f@),
            out@ == middle + error_lines(fv, k as int),
        decreases failures.len() - k,
    {
        let ghost before = out@;
        push_diagnostic(&mut out, &failures[k].diagnostic);
        assert(fv[k as int].1 == failures@[k as int].diagnostic@);
        k = k + 1;
        assert(out@ =~= middle + error_lines(fv, k as int));
    }
    assert(nv == schema_names(schema@, *convention));
    assert(out@ =~= usage_text(program@, schema@, nv, fv));
    out
}

} // verus!
