//! CSV files of trajectories: a header of `time` and the names of the variables,
//! then one record per time with the literals of the values. The records are
//! written here, and read back with the values of the variables.
use vstd::prelude::*;

use crate::model_description::fmi3::{ModelDescription, ModelVariable, VariableType};
use crate::sim::fmi2::float_error;
use crate::sim::fmi3::{
    holds_values, lemma_literal_reads_back, parse_variable_value, value_error, value_of,
    VariableValue,
};
use crate::text::{
    chars_of, decimal, is_float_literal_chars, join_words, owned, push_str, u128_to_decimal,
};

verus! {

/// The header of a CSV file of trajectories: `time`, then the names of the
/// variables.
pub fn csv_header(variables: &Vec<&ModelVariable>) -> (res: Vec<String>)
    ensures
        res@.map_values(|s: String| s@) == seq!["time"@] + variables@.map_values(
            |v: &ModelVariable| v.name@,
        ),
{
    let mut header: Vec<String> = Vec::new();
    header.push(owned("time"));
    let mut i: usize = 0;
    while i < variables.len()
        invariant
            i <= variables@.len(),
            header@.map_values(|s: String| s@) == seq!["time"@] + variables@.take(
                i as int,
            ).map_values(|v: &ModelVariable| v.name@),
        decreases variables.len() - i,
    {
        let ghost before = header@;
        header.push(owned(variables[i].name.as_str()));
        proof {
            assert(header@.map_values(|s: String| s@) =~= before.map_values(|s: String| s@).push(
                variables@[i as int].name@,
            ));
            assert(variables@.take(i + 1).map_values(|v: &ModelVariable| v.name@) =~= variables@.take(
                i as int,
            ).map_values(|v: &ModelVariable| v.name@).push(variables@[i as int].name@));
            assert(header@.map_values(|s: String| s@) =~= seq!["time"@] + variables@.take(
                i + 1,
            ).map_values(|v: &ModelVariable| v.name@));
        }
        i = i + 1;
    }
    proof {
        assert(variables@.take(variables@.len() as int) =~= variables@);
    }
    header
}

/// The record of one time: the time as written, then the literal of each value.
pub fn csv_record(time: &str, row: &Vec<VariableValue>) -> (res: Vec<String>)
    ensures
        res@.map_values(|s: String| s@) == seq![time@] + row@.map_values(
            |v: VariableValue| join_words(v.value_words()),
        ),
{
    let mut record: Vec<String> = Vec::new();
    record.push(owned(time));
    let mut i: usize = 0;
    while i < row.len()
        invariant
            i <= row@.len(),
            record@.map_values(|s: String| s@) == seq![time@] + row@.take(i as int).map_values(
                |v: VariableValue| join_words(v.value_words()),
            ),
        decreases row.len() - i,
    {
        let ghost before = record@;
        record.push(row[i].to_literal());
        proof {
            assert(record@.map_values(|s: String| s@) =~= before.map_values(|s: String| s@).push(
                join_words(row@[i as int].value_words()),
            ));
            assert(row@.take(i + 1).map_values(|v: VariableValue| join_words(v.value_words()))
                =~= row@.take(i as int).map_values(|v: VariableValue| join_words(v.value_words())).push(
                join_words(row@[i as int].value_words()),
            ));
            assert(record@.map_values(|s: String| s@) =~= seq![time@] + row@.take(i + 1).map_values(
                |v: VariableValue| join_words(v.value_words()),
            ));
        }
        i = i + 1;
    }
    proof {
        assert(row@.take(row@.len() as int) =~= row@);
    }
    record
}

// ---------------------------------------------------------------------------
// Reading
// ---------------------------------------------------------------------------
/// The view of a record, or of the error of reading it.
pub open spec fn record_view(r: Result<Vec<String>, String>) -> Result<Seq<Seq<char>>, Seq<char>> {
    match r {
        Ok(fields) => Ok(fields@.map_values(|f: String| f@)),
        Err(e) => Err(e@),
    }
}

/// What `csv::Reader` (with its default options) reads from `bytes`: the header,
/// or the error of reading it, then every record in order, or the error of reading
/// it.
pub uninterp spec fn csv_table(bytes: Seq<u8>) -> (
    Result<Seq<Seq<char>>, Seq<char>>,
    Seq<Result<Seq<Seq<char>>, Seq<char>>>,
);

/// Reads `bytes` with `csv::Reader::from_reader`: `headers()`, then `records()`,
/// each converted to its fields, and each error to its text. The contract claims
/// that the result is a function of the bytes alone, named `csv_table`, and, as
/// the reader is not flexible, that every record read without error has as many
/// fields as the header.
#[verifier::external_body]
fn parse_csv(bytes: &[u8]) -> (res: (Result<Vec<String>, String>, Vec<Result<Vec<String>, String>>))
    ensures
        record_view(res.0) == csv_table(bytes@).0,
        res.1@.map_values(|r: Result<Vec<String>, String>| record_view(r)) == csv_table(bytes@).1,
        res.0 matches Ok(h) ==> forall|k: int|
            0 <= k < res.1@.len() ==> (#[trigger] res.1@[k] matches Ok(r) ==> r@.len() == h@.len()),
{
    let mut reader = csv::Reader::from_reader(bytes);
    let header = reader.headers().map(|h| h.iter().map(|f| f.to_string()).collect()).map_err(|e| e.to_string());
    let records = reader.records().map(|r| r.map(|rec| rec.iter().map(|f| f.to_string()).collect()).map_err(|e| e.to_string())).collect();
    (header, records)
}

/// What `format!("{:?}", s)` writes for a string: `s` in double quotes, with the
/// characters that need it escaped.
pub uninterp spec fn debug_text(s: Seq<char>) -> Seq<char>;

/// `format!("{:?}", s)`. The contract claims that the result is a function of
/// `s` alone, named `debug_text`.
#[verifier::external_body]
fn debug_quoted(s: &str) -> (res: String)
    ensures
        res@ == debug_text(s@),
{
    format!("{:?}", s)
}

/// The last variable of `vs` named `name`.
pub open spec fn last_named(vs: Seq<ModelVariable>, name: Seq<char>) -> Option<ModelVariable>
    decreases vs.len(),
{
    if vs.len() == 0 {
        None
    } else if vs.last().name@ == name {
        Some(vs.last())
    } else {
        last_named(vs.drop_last(), name)
    }
}

/// The message for a column whose header names no variable.
pub open spec fn unknown_variable_message(name: Seq<char>) -> Seq<char> {
    "Variable "@ + debug_text(name) + " does not exist in the FMU."@
}

/// The first of the columns `h[1..n]` whose header names no variable of `vs`.
pub open spec fn header_error(h: Seq<Seq<char>>, vs: Seq<ModelVariable>, n: nat) -> Option<Seq<char>>
    decreases n,
{
    if n <= 1 {
        None
    } else {
        match header_error(h, vs, (n - 1) as nat) {
            Some(e) => Some(e),
            None => if last_named(vs, h[n - 1]) is None {
                Some(unknown_variable_message(h[n - 1]))
            } else {
                None
            },
        }
    }
}

/// The number of a row, `i + 2` for the record `i`: the header is row 1.
pub open spec fn row_number(i: int) -> Seq<char> {
    decimal((i + 2) as nat)
}

/// The first error in the values `r[1..n + 1]` of record `i`, read with the
/// types `ts`.
pub open spec fn value_errors(r: Seq<Seq<char>>, ts: Seq<VariableType>, i: int, n: nat) -> Option<Seq<char>>
    decreases n,
{
    if n == 0 {
        None
    } else {
        match value_errors(r, ts, i, (n - 1) as nat) {
            Some(e) => Some(e),
            None => match value_error(ts[n - 1], r[n as int]) {
                Some(e) => Some(
                    "Failed to parse "@ + debug_text(r[n as int]) + " (row "@ + row_number(i)
                        + ", column "@ + decimal(n + 1) + "). "@ + e,
                ),
                None => None,
            },
        }
    }
}

/// The first error in record `i`: a missing time, a time that is no number, or a
/// value that its variable cannot hold.
pub open spec fn record_error(r: Seq<Seq<char>>, ts: Seq<VariableType>, i: int) -> Option<Seq<char>> {
    if r.len() == 0 {
        Some("Missing time value in row "@ + row_number(i) + "."@)
    } else {
        match float_error(r[0]) {
            Some(fe) => Some(
                "Failed to parse time value '"@ + r[0] + "' in row "@ + row_number(i) + ": "@ + fe,
            ),
            None => value_errors(r, ts, i, (r.len() - 1) as nat),
        }
    }
}

/// The first error in the records `rs[..n]`.
pub open spec fn records_error(rs: Seq<Result<Seq<Seq<char>>, Seq<char>>>, ts: Seq<VariableType>, n: nat) -> Option<Seq<char>>
    decreases n,
{
    if n == 0 {
        None
    } else {
        match records_error(rs, ts, (n - 1) as nat) {
            Some(e) => Some(e),
            None => match rs[n - 1] {
                Err(e) => Some(e),
                Ok(r) => record_error(r, ts, n - 1),
            },
        }
    }
}

/// The types of the variables `vs`.
pub open spec fn types_of(vs: Seq<&ModelVariable>) -> Seq<VariableType> {
    vs.map_values(|v: &ModelVariable| v.variableType)
}

/// `vars`, `times` and `rows` are what the header `h` and the records `rs` give
/// with the variables `mvs`: the variable of each column after the first, the time
/// literal of each record, and its values.
pub open spec fn trajectories_of(
    h: Seq<Seq<char>>,
    rs: Seq<Result<Seq<Seq<char>>, Seq<char>>>,
    mvs: Seq<ModelVariable>,
    vars: Seq<&ModelVariable>,
    times: Seq<String>,
    rows: Seq<Vec<VariableValue>>,
) -> bool {
    &&& vars.len() == if h.len() == 0 { 0 } else { h.len() - 1 }
    &&& forall|j: int| 0 <= j < vars.len() ==> last_named(mvs, h[j + 1]) == Some(*#[trigger] vars[j])
    &&& times.len() == rs.len()
    &&& rows.len() == rs.len()
    &&& forall|i: int|
        0 <= i < rs.len() ==> (#[trigger] rs[i] matches Ok(r) && r.len() > 0 && times[i]@ == r[0]
            && rows[i]@.len() == r.len() - 1 && forall|j: int|
            0 <= j < rows[i]@.len() ==> value_of(vars[j].variableType, r[j + 1], #[trigger] rows[i]@[j]))
}

/// The last variable of `vs` named `name`.
fn find_last_named<'a>(vs: &'a Vec<ModelVariable>, name: &String) -> (res: Option<&'a ModelVariable>)
    ensures
        match res {
            Some(v) => last_named(vs@, name@) == Some(*v),
            None => last_named(vs@, name@) is None,
        },
{
    let mut k: usize = vs.len();
    assert(vs@.take(k as int) =~= vs@);
    while k > 0
        invariant
            k <= vs@.len(),
            last_named(vs@, name@) == last_named(vs@.take(k as int), name@),
        decreases k,
    {
        proof {
            assert(vs@.take(k as int).drop_last() =~= vs@.take(k - 1));
        }
        if vs[k - 1].name == *name {
            return Some(&vs[k - 1]);
        }
        k = k - 1;
    }
    None
}

/// The variables of the columns after the first of `header`: for each, the last
/// of the model's variables with its name; or the message for the first column
/// that names none.
fn header_variables<'a>(header: &Vec<String>, md: &'a ModelDescription) -> (res: Result<Vec<&'a ModelVariable>, String>)
    ensures
        ({
            let h = header@.map_values(|f: String| f@);
            match res {
                Ok(vars) => header_error(h, md.modelVariables@, h.len()) is None
                    && vars@.len() == (if h.len() == 0 { 0 } else { h.len() - 1 })
                    && forall|q: int| 0 <= q < vars@.len() ==> last_named(md.modelVariables@, h[q + 1]) == Some(*#[trigger] vars@[q]),
                Err(m) => header_error(h, md.modelVariables@, h.len()) == Some(m@),
            }
        }),
{
    let ghost h = header@.map_values(|f: String| f@);
    let ghost mvs = md.modelVariables@;
    let mut vars: Vec<&'a ModelVariable> = Vec::new();
    if header.len() == 0 {
        return Ok(vars);
    }
    let mut j: usize = 1;
    while j < header.len()
        invariant
            1 <= j <= header@.len(),
            h == header@.map_values(|f: String| f@),
            mvs == md.modelVariables@,
            header_error(h, mvs, j as nat) is None,
            vars@.len() == j - 1,
            forall|q: int| 0 <= q < vars@.len() ==> last_named(mvs, h[q + 1]) == Some(*#[trigger] vars@[q]),
        decreases header.len() - j,
    {
        assert(h[j as int] == header@[j as int]@);
        match find_last_named(&md.modelVariables, &header[j]) {
            Some(v) => {
                vars.push(v);
            },
            None => {
                let mut m = owned("Variable ");
                let q = debug_quoted(header[j].as_str());
                push_str(&mut m, q.as_str());
                push_str(&mut m, " does not exist in the FMU.");
                proof {
                    lemma_header_error_stays(h, mvs, (j + 1) as nat, h.len());
                }
                return Err(m);
            },
        }
        j = j + 1;
    }
    Ok(vars)
}

/// The values of the fields `r[1..]` of record `i`, read with the types of
/// `vars`; or the message for the first that its variable cannot hold.
fn read_row(r: &Vec<String>, vars: &Vec<&ModelVariable>, i: usize) -> (res: Result<Vec<VariableValue>, String>)
    requires
        r@.len() >= 1,
        vars@.len() == r@.len() - 1,
    ensures
        ({
            let rv = r@.map_values(|f: String| f@);
            let ts = types_of(vars@);
            match res {
                Ok(row) => value_errors(rv, ts, i as int, (rv.len() - 1) as nat) is None && row@.len() == rv.len() - 1
                    && forall|p: int| 0 <= p < row@.len() ==> value_of(vars@[p].variableType, rv[p + 1], #[trigger] row@[p]),
                Err(m) => value_errors(rv, ts, i as int, (rv.len() - 1) as nat) == Some(m@),
            }
        }),
{
    let ghost rv = r@.map_values(|f: String| f@);
    let ghost ts = types_of(vars@);
    let mut row: Vec<VariableValue> = Vec::new();
    let mut q: usize = 1;
    while q < r.len()
        invariant
            1 <= q <= r@.len(),
            vars@.len() == r@.len() - 1,
            rv == r@.map_values(|f: String| f@),
            ts == types_of(vars@),
            value_errors(rv, ts, i as int, (q - 1) as nat) is None,
            row@.len() == q - 1,
            forall|p: int| 0 <= p < row@.len() ==> value_of(vars@[p].variableType, rv[p + 1], #[trigger] row@[p]),
        decreases r.len() - q,
    {
        assert(rv[q as int] == r@[q as int]@);
        assert(ts[q - 1] == vars@[q - 1].variableType);
        match parse_variable_value(&vars[q - 1].variableType, r[q].as_str()) {
            Ok(v) => {
                row.push(v);
            },
            Err(e) => {
                let mut m = owned("Failed to parse ");
                let lit = debug_quoted(r[q].as_str());
                push_str(&mut m, lit.as_str());
                push_str(&mut m, " (row ");
                let n = u128_to_decimal((i as u128) + 2);
                push_str(&mut m, n.as_str());
                push_str(&mut m, ", column ");
                let c = u128_to_decimal((q as u128) + 1);
                push_str(&mut m, c.as_str());
                push_str(&mut m, "). ");
                push_str(&mut m, e.as_str());
                proof {
                    lemma_value_errors_stay(rv, ts, i as int, q as nat, (rv.len() - 1) as nat);
                }
                return Err(m);
            },
        }
        q = q + 1;
    }
    Ok(row)
}

/// Reads trajectories from the header and the records of a CSV file: the
/// variable of each column after the first (the last of the model's variables
/// with its name), then, for each record, its time literal and the values of its
/// other fields. The first error ends the reading: a column that names no
/// variable, then, record by record, a record that could not be read, a missing
/// time, a time that is no number, or a value that its variable cannot hold.
pub fn read_trajectories<'a>(
    header: &Vec<String>,
    records: &Vec<Result<Vec<String>, String>>,
    md: &'a ModelDescription,
) -> (res: Result<(Vec<&'a ModelVariable>, Vec<String>, Vec<Vec<VariableValue>>), String>)
    requires
        forall|k: int|
            0 <= k < records@.len() ==> (#[trigger] records@[k] matches Ok(r) ==> r@.len()
                == header@.len()),
    ensures
        reading_gives(
            header@.map_values(|f: String| f@),
            records@.map_values(|r: Result<Vec<String>, String>| record_view(r)),
            md.modelVariables@,
            res,
        ),
{
    let ghost h = header@.map_values(|f: String| f@);
    let ghost rs = records@.map_values(|r: Result<Vec<String>, String>| record_view(r));
    let ghost mvs = md.modelVariables@;
    let vars = header_variables(header, md)?;
    let ghost ts = types_of(vars@);
    let mut times: Vec<String> = Vec::new();
    let mut rows: Vec<Vec<VariableValue>> = Vec::new();
    let mut i: usize = 0;
    while i < records.len()
        invariant
            i <= records@.len(),
            h == header@.map_values(|f: String| f@),
            rs == records@.map_values(|r: Result<Vec<String>, String>| record_view(r)),
            mvs == md.modelVariables@,
            ts == types_of(vars@),
            header_error(h, mvs, h.len()) is None,
            vars@.len() == (if h.len() == 0 { 0 } else { h.len() - 1 }),
            forall|q: int| 0 <= q < vars@.len() ==> last_named(mvs, h[q + 1]) == Some(*#[trigger] vars@[q]),
            forall|k: int|
                0 <= k < records@.len() ==> (#[trigger] records@[k] matches Ok(r) ==> r@.len()
                    == header@.len()),
            records_error(rs, ts, i as nat) is None,
            times@.len() == i,
            rows@.len() == i,
            forall|k: int|
                0 <= k < i ==> (#[trigger] rs[k] matches Ok(r) && r.len() > 0 && times@[k]@ == r[0]
                    && rows@[k]@.len() == r.len() - 1 && forall|q: int|
                    0 <= q < rows@[k]@.len() ==> value_of(vars@[q].variableType, r[q + 1], #[trigger] rows@[k]@[q])),
        decreases records.len() - i,
    {
        assert(record_view(records@[i as int]) == rs[i as int]);
        match &records[i] {
            Err(e) => {
                proof {
                    lemma_records_error_stays(rs, ts, (i + 1) as nat, rs.len());
                }
                return Err(owned(e.as_str()));
            },
            Ok(r) => {
                let ghost rv = r@.map_values(|f: String| f@);
                assert(rs[i as int] == Ok::<Seq<Seq<char>>, Seq<char>>(rv));
                if r.len() == 0 {
                    let mut m = owned("Missing time value in row ");
                    let n = u128_to_decimal((i as u128) + 2);
                    push_str(&mut m, n.as_str());
                    push_str(&mut m, ".");
                    proof {
                        lemma_records_error_stays(rs, ts, (i + 1) as nat, rs.len());
                    }
                    return Err(m);
                }
                assert(rv[0] == r@[0]@);
                let cs = chars_of(r[0].as_str());
                if cs.len() == 0 || !is_float_literal_chars(cs.as_slice()) {
                    let mut m = owned("Failed to parse time value '");
                    push_str(&mut m, r[0].as_str());
                    push_str(&mut m, "' in row ");
                    let n = u128_to_decimal((i as u128) + 2);
                    push_str(&mut m, n.as_str());
                    push_str(&mut m, ": ");
                    if cs.len() == 0 {
                        push_str(&mut m, "cannot parse float from empty string");
                    } else {
                        push_str(&mut m, "invalid float literal");
                    }
                    proof {
                        lemma_records_error_stays(rs, ts, (i + 1) as nat, rs.len());
                    }
                    return Err(m);
                }
                match read_row(r, &vars, i) {
                    Ok(row) => {
                        times.push(owned(r[0].as_str()));
                        rows.push(row);
                    },
                    Err(m) => {
                        proof {
                            lemma_records_error_stays(rs, ts, (i + 1) as nat, rs.len());
                        }
                        return Err(m);
                    },
                }
            },
        }
        i = i + 1;
    }
    Ok((vars, times, rows))
}

/// `res` is what reading the header `h` and the records `rs` with the variables
/// `mvs` gives: the trajectories where nothing fails, else the message for the
/// first error.
pub open spec fn reading_gives(
    h: Seq<Seq<char>>,
    rs: Seq<Result<Seq<Seq<char>>, Seq<char>>>,
    mvs: Seq<ModelVariable>,
    res: Result<(Vec<&ModelVariable>, Vec<String>, Vec<Vec<VariableValue>>), String>,
) -> bool {
    match res {
        Ok((vars, times, rows)) => header_error(h, mvs, h.len()) is None && records_error(
            rs,
            types_of(vars@),
            rs.len(),
        ) is None && trajectories_of(h, rs, mvs, vars@, times@, rows@),
        Err(m) => match header_error(h, mvs, h.len()) {
            Some(e) => m@ == e,
            None => exists|vars: Seq<&ModelVariable>|
                vars.len() == (if h.len() == 0 { 0 } else { h.len() - 1 }) && (forall|j: int|
                    0 <= j < vars.len() ==> last_named(mvs, h[j + 1]) == Some(*#[trigger] vars[j]))
                    && records_error(rs, types_of(vars), rs.len()) == Some(m@),
        },
    }
}

/// Reads trajectories from the bytes of a CSV file (see `read_trajectories`); a
/// header that cannot be read gives `Failed to read headers. ` and the reader's
/// message.
pub fn read_csv<'a>(bytes: &[u8], md: &'a ModelDescription) -> (res: Result<
    (Vec<&'a ModelVariable>, Vec<String>, Vec<Vec<VariableValue>>),
    String,
>)
    ensures
        match csv_table(bytes@).0 {
            Err(e) => res matches Err(m) && m@ == "Failed to read headers. "@ + e,
            Ok(h) => reading_gives(h, csv_table(bytes@).1, md.modelVariables@, res),
        },
{
    let (header, records) = parse_csv(bytes);
    match header {
        Err(e) => {
            let mut m = owned("Failed to read headers. ");
            push_str(&mut m, e.as_str());
            Err(m)
        },
        Ok(h) => read_trajectories(&h, &records, md),
    }
}

proof fn lemma_header_error_stays(h: Seq<Seq<char>>, vs: Seq<ModelVariable>, n: nat, m: nat)
    requires
        n <= m,
        header_error(h, vs, n) is Some,
    ensures
        header_error(h, vs, m) == header_error(h, vs, n),
    decreases m - n,
{
    if n < m {
        lemma_header_error_stays(h, vs, n, (m - 1) as nat);
    }
}

proof fn lemma_value_errors_stay(r: Seq<Seq<char>>, ts: Seq<VariableType>, i: int, n: nat, m: nat)
    requires
        n <= m,
        value_errors(r, ts, i, n) is Some,
    ensures
        value_errors(r, ts, i, m) == value_errors(r, ts, i, n),
    decreases m - n,
{
    if n < m {
        lemma_value_errors_stay(r, ts, i, n, (m - 1) as nat);
    }
}

proof fn lemma_records_error_stays(
    rs: Seq<Result<Seq<Seq<char>>, Seq<char>>>,
    ts: Seq<VariableType>,
    n: nat,
    m: nat,
)
    requires
        n <= m,
        records_error(rs, ts, n) is Some,
    ensures
        records_error(rs, ts, m) == records_error(rs, ts, n),
    decreases m - n,
{
    if n < m {
        lemma_records_error_stays(rs, ts, n, (m - 1) as nat);
    }
}

// ---------------------------------------------------------------------------
// Written records read back
// ---------------------------------------------------------------------------
/// The fields that `csv_header` writes for the variables `vars`.
pub open spec fn written_header(vars: Seq<&ModelVariable>) -> Seq<Seq<char>> {
    seq!["time"@] + vars.map_values(|v: &ModelVariable| v.name@)
}

/// The fields that `csv_record` writes for the time `time` and the values `row`.
pub open spec fn written_record(time: Seq<char>, row: Seq<VariableValue>) -> Seq<Seq<char>> {
    seq![time] + row.map_values(|v: VariableValue| join_words(v.value_words()))
}

/// The records written for the times `times` and the rows `rows`, each read
/// without error.
pub open spec fn written_records(times: Seq<Seq<char>>, rows: Seq<Seq<VariableValue>>) -> Seq<
    Result<Seq<Seq<char>>, Seq<char>>,
> {
    Seq::new(times.len(), |i: int| Ok(written_record(times[i], rows[i])))
}

proof fn lemma_written_header(mvs: Seq<ModelVariable>, vars: Seq<&ModelVariable>, n: nat)
    requires
        1 <= n <= vars.len() + 1,
        forall|j: int| 0 <= j < vars.len() ==> last_named(mvs, (#[trigger] vars[j]).name@) == Some(*vars[j]),
    ensures
        header_error(written_header(vars), mvs, n) is None,
    decreases n,
{
    if n > 1 {
        lemma_written_header(mvs, vars, (n - 1) as nat);
        assert(written_header(vars)[n - 1] == vars[n - 2].name@);
    }
}

proof fn lemma_written_values(r: Seq<Seq<char>>, row: Seq<VariableValue>, vars: Seq<&ModelVariable>, i: int, n: nat)
    requires
        n <= row.len(),
        row.len() == vars.len(),
        r.len() == row.len() + 1,
        forall|j: int| 0 <= j < row.len() ==> r[j + 1] == join_words((#[trigger] row[j]).value_words()),
        forall|j: int| 0 <= j < row.len() ==> holds_values(vars[j].variableType, #[trigger] row[j]),
    ensures
        value_errors(r, types_of(vars), i, n) is None,
    decreases n,
{
    if n > 0 {
        lemma_written_values(r, row, vars, i, (n - 1) as nat);
        assert(holds_values(vars[n - 1].variableType, row[n - 1]));
        lemma_literal_reads_back(vars[n - 1].variableType, row[n - 1]);
    }
}

proof fn lemma_written_records(
    times: Seq<Seq<char>>,
    rows: Seq<Seq<VariableValue>>,
    vars: Seq<&ModelVariable>,
    n: nat,
)
    requires
        n <= times.len(),
        rows.len() == times.len(),
        forall|i: int| 0 <= i < times.len() ==> float_error(#[trigger] times[i]) is None,
        forall|i: int| 0 <= i < rows.len() ==> (#[trigger] rows[i]).len() == vars.len(),
        forall|i: int, j: int|
            0 <= i < rows.len() && 0 <= j < vars.len() ==> holds_values(
                vars[j].variableType,
                #[trigger] rows[i][j],
            ),
    ensures
        records_error(written_records(times, rows), types_of(vars), n) is None,
    decreases n,
{
    if n > 0 {
        lemma_written_records(times, rows, vars, (n - 1) as nat);
        let k = n - 1;
        let r = written_record(times[k], rows[k]);
        assert(written_records(times, rows)[k] == Ok::<Seq<Seq<char>>, Seq<char>>(r));
        assert(float_error(times[k]) is None);
        assert forall|j: int| 0 <= j < rows[k].len() implies holds_values(
            vars[j].variableType,
            #[trigger] rows[k][j],
        ) by {
            assert(holds_values(vars[j].variableType, rows[k][j]));
        }
        lemma_written_values(r, rows[k], vars, k, rows[k].len());
    }
}

/// What `csv_header` and `csv_record` write reads back with `read_trajectories`:
/// where each variable is the last of the model's variables with its name, each
/// time a floating-point literal and each value one that its variable holds
/// (`holds_values`), reading finds no error and gives the same variables, times
/// and values.
pub proof fn lemma_written_records_read_back(
    mvs: Seq<ModelVariable>,
    vars: Seq<&ModelVariable>,
    times: Seq<Seq<char>>,
    rows: Seq<Seq<VariableValue>>,
)
    requires
        forall|j: int| 0 <= j < vars.len() ==> last_named(mvs, (#[trigger] vars[j]).name@) == Some(*vars[j]),
        rows.len() == times.len(),
        forall|i: int| 0 <= i < times.len() ==> float_error(#[trigger] times[i]) is None,
        forall|i: int| 0 <= i < rows.len() ==> (#[trigger] rows[i]).len() == vars.len(),
        forall|i: int, j: int|
            0 <= i < rows.len() && 0 <= j < vars.len() ==> holds_values(
                vars[j].variableType,
                #[trigger] rows[i][j],
            ),
    ensures
        header_error(written_header(vars), mvs, written_header(vars).len()) is None,
        records_error(written_records(times, rows), types_of(vars), times.len()) is None,
        forall|j: int|
            0 <= j < vars.len() ==> last_named(mvs, written_header(vars)[j + 1]) == Some(
                *#[trigger] vars[j],
            ),
        forall|i: int, j: int|
            0 <= i < rows.len() && 0 <= j < vars.len() ==> value_of(
                vars[j].variableType,
                written_record(times[i], rows[i])[j + 1],
                #[trigger] rows[i][j],
            ),
{
    lemma_written_header(mvs, vars, (vars.len() + 1) as nat);
    lemma_written_records(times, rows, vars, times.len());
    assert forall|j: int| 0 <= j < vars.len() implies last_named(mvs, written_header(vars)[j + 1])
        == Some(*#[trigger] vars[j]) by {
        assert(written_header(vars)[j + 1] == vars[j].name@);
    }
    assert forall|i: int, j: int| 0 <= i < rows.len() && 0 <= j < vars.len() implies value_of(
        vars[j].variableType,
        written_record(times[i], rows[i])[j + 1],
        #[trigger] rows[i][j],
    ) by {
        lemma_literal_reads_back(vars[j].variableType, rows[i][j]);
        assert(written_record(times[i], rows[i])[j + 1] == join_words(rows[i][j].value_words()));
    }
}

} // verus!
