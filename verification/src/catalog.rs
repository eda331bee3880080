//! Predicates and the schema manager: predicate names, the per-predicate
//! insert template, the physical-relation DDL and the meta-relation rows
//! that persist a predicate.
use vstd::prelude::*;

use crate::text::{dec_rep, join_strs, join_v, u64_dec};
use crate::values::{ColType, TypeDescV, TypeDescriptor};

verus! {

/// A named, typed relation schema.
pub struct Predicate {
    pub name: String,
    pub types: Vec<TypeDescriptor>,
}

/// Mathematical model of a predicate.
#[verifier::ext_equal]
pub struct PredicateV {
    pub name: Seq<char>,
    pub types: Seq<TypeDescV>,
}

impl View for Predicate {
    type V = PredicateV;

    open spec fn view(&self) -> PredicateV {
        PredicateV { name: self.name@, types: self.types@.map_values(|t: TypeDescriptor| t@) }
    }
}

impl Predicate {
    /// Copy a predicate, preserving its model.
    pub fn dup(&self) -> (r: Predicate)
        ensures
            r@ == self@,
    {
        let mut types: Vec<TypeDescriptor> = Vec::new();
        let mut i: usize = 0;
        while i < self.types.len()
            invariant
                i <= self.types.len(),
                types@.len() == i,
                forall|j: int| 0 <= j < i ==> (#[trigger] types@[j])@ == self.types@[j]@,
            decreases self.types.len() - i,
        {
            types.push(self.types[i].dup());
            i = i + 1;
        }
        let r = Predicate { name: self.name.clone(), types };
        proof {
            assert(r@.types =~= self@.types);
            assert(r@ =~= self@);
        }
        r
    }
}

/// A character legal in a predicate name: lower-case ASCII or underscore.
pub open spec fn is_name_char(c: char) -> bool {
    ('a' <= c && c <= 'z') || c == '_'
}

/// Every character of the string is legal in a predicate name.
pub open spec fn name_chars_ok(s: Seq<char>) -> bool {
    forall|i: int| 0 <= i < s.len() ==> is_name_char(#[trigger] s[i])
}

/// A legal predicate name: non-empty, lower-case ASCII and underscores only.
pub open spec fn name_ok(s: Seq<char>) -> bool {
    s.len() > 0 && name_chars_ok(s)
}

/// Whether every character of the name is lower-case ASCII or underscore.
pub fn valid_name(name: &String) -> (r: bool)
    ensures
        r == name_chars_ok(name@),
{
    let s = name.as_str();
    let n = s.unicode_len();
    let mut i: usize = 0;
    while i < n
        invariant
            i <= n,
            n == s@.len(),
            s@ == name@,
            forall|j: int| 0 <= j < i ==> is_name_char(#[trigger] s@[j]),
        decreases n - i,
    {
        let c = s.get_char(i);
        if !(('a' <= c && c <= 'z') || c == '_') {
            proof {
                assert(!is_name_char(name@[i as int]));
            }
            return false;
        }
        i = i + 1;
    }
    true
}

/// The positional placeholders `$1, …, $n` of an insert template.
pub open spec fn placeholders(n: int) -> Seq<Seq<char>> {
    Seq::new(n as nat, |k: int| "$"@ + dec_rep((k + 1) as nat))
}

/// The insert template for a predicate: one positional parameter per
/// physical column of each argument type, in argument order — matching both
/// the relation's columns and the parameters that encoding a fact yields.
/// A row equal to an existing one is silently dropped, so the backend
/// reports zero rows written for a duplicate fact.
pub open spec fn insert_sql_v(p: PredicateV) -> Seq<char> {
    "insert into facts."@ + p.name + " values ("@ + join_v(
        placeholders(flat_cols(p.types, p.types.len() as int).len() as int),
        ", "@,
    ) + ") on conflict do nothing"@
}

/// Build the insert template for a predicate.
pub fn gen_insert_stmt(pred: &Predicate) -> (r: String)
    ensures
        r@ == insert_sql_v(pred@),
{
    let ghost typesv = pred@.types;
    let mut args: Vec<String> = Vec::new();
    let mut i: usize = 0;
    while i < pred.types.len()
        invariant
            i <= pred.types.len(),
            typesv == pred@.types,
            typesv.len() == pred.types@.len(),
            args@.len() == flat_cols(typesv, i as int).len(),
            forall|j: int|
                0 <= j < args@.len() ==> (#[trigger] args@[j])@ == "$"@ + dec_rep((j + 1) as nat),
        decreases pred.types.len() - i,
    {
        let ncols = pred.types[i].cols.len();
        let mut k: usize = 0;
        while k < ncols
            invariant
                k <= ncols,
                0 <= i < typesv.len(),
                typesv == pred@.types,
                ncols == typesv[i as int].cols.len(),
                args@.len() == flat_cols(typesv, i as int).len() + k,
                forall|j: int|
                    0 <= j < args@.len() ==> (#[trigger] args@[j])@ == "$"@ + dec_rep(
                        (j + 1) as nat,
                    ),
            decreases ncols - k,
        {
            // take the slot first, so that the one-based position is a
            // vector length and cannot overflow
            args.push(String::new());
            let n = args.len();
            let mut ph = String::from_str("$");
            ph.append(u64_dec(n as u64).as_str());
            let _ = args.pop();
            args.push(ph);
            k = k + 1;
        }
        i = i + 1;
        proof {
            assert(flat_cols(typesv, i as int) =~= flat_cols(typesv, i - 1 as int) + typesv[i
                - 1].cols);
        }
    }
    let mut r = String::from_str("insert into facts.");
    r.append(pred.name.as_str());
    r.append(" values (");
    r.append(join_strs(&args, ", ").as_str());
    r.append(") on conflict do nothing");
    proof {
        assert(args@.map_values(|s: String| s@) =~= placeholders(
            flat_cols(typesv, typesv.len() as int).len() as int,
        ));
        assert(r@ =~= insert_sql_v(pred@));
    }
    r
}

/// The backend column type storing one physical column.
pub open spec fn col_sql(c: ColType) -> Seq<char> {
    match c {
        ColType::BigInt => "int8"@,
        ColType::Bytea => "bytea"@,
        ColType::Varchar => "varchar"@,
    }
}

/// The backend column type, as text.
pub fn col_sql_str(c: ColType) -> (r: &'static str)
    ensures
        r@ == col_sql(c),
{
    match c {
        ColType::BigInt => "int8",
        ColType::Bytea => "bytea",
        ColType::Varchar => "varchar",
    }
}

/// The concatenation of the physical columns of the first `k` types.
pub open spec fn flat_cols(types: Seq<TypeDescV>, k: int) -> Seq<ColType>
    decreases k,
{
    if k <= 0 {
        Seq::empty()
    } else {
        flat_cols(types, k - 1) + types[k - 1].cols
    }
}

/// The column definitions `arg0 t0, arg1 t1, …` over a flat column list.
pub open spec fn col_defs(cols: Seq<ColType>) -> Seq<Seq<char>> {
    Seq::new(cols.len(), |k: int| "arg"@ + dec_rep(k as nat) + " "@ + col_sql(cols[k]))
}

/// The column names `arg0, arg1, …` over a flat column list.
pub open spec fn col_names(cols: Seq<ColType>) -> Seq<Seq<char>> {
    Seq::new(cols.len(), |k: int| "arg"@ + dec_rep(k as nat))
}

/// The DDL creating a predicate's physical relation: one column per physical
/// column of each argument type, in argument order, with the full tuple
/// declared unique so that duplicate facts are absorbed.
pub open spec fn create_table_sql_v(p: PredicateV) -> Seq<char> {
    "create table facts."@ + p.name + " ("@ + join_v(
        col_defs(flat_cols(p.types, p.types.len() as int)),
        ", "@,
    ) + ", unique ("@ + join_v(col_names(flat_cols(p.types, p.types.len() as int)), ", "@)
        + "))"@
}

/// Build the DDL creating a predicate's physical relation.
pub fn create_table_stmt(pred: &Predicate) -> (r: String)
    ensures
        r@ == create_table_sql_v(pred@),
{
    let ghost typesv = pred@.types;
    let mut defs: Vec<String> = Vec::new();
    let mut i: usize = 0;
    while i < pred.types.len()
        invariant
            i <= pred.types.len(),
            typesv == pred@.types,
            typesv.len() == pred.types@.len(),
            defs@.len() == flat_cols(typesv, i as int).len(),
            forall|j: int| 0 <= j < defs@.len() ==> (#[trigger] defs@[j])@ == col_defs(
                flat_cols(typesv, i as int),
            )[j],
        decreases pred.types.len() - i,
    {
        let cols = &pred.types[i].cols;
        let ghost colsv = cols@;
        let mut k: usize = 0;
        while k < cols.len()
            invariant
                k <= cols.len(),
                colsv == cols@,
                typesv[i as int].cols == colsv,
                0 <= i < typesv.len(),
                defs@.len() == flat_cols(typesv, i as int).len() + k,
                forall|j: int| 0 <= j < defs@.len() ==> (#[trigger] defs@[j])@ == col_defs(
                    flat_cols(typesv, i as int) + colsv.subrange(0, k as int),
                )[j],
            decreases cols.len() - k,
        {
            let ord = defs.len();
            let mut d = String::from_str("arg");
            d.append(u64_dec(ord as u64).as_str());
            d.append(" ");
            d.append(col_sql_str(cols[k]));
            defs.push(d);
            k = k + 1;
            proof {
                let cur = flat_cols(typesv, i as int) + colsv.subrange(0, k as int);
                assert(cur[cur.len() - 1] == colsv[k - 1]);
                assert(forall|j: int|
                    0 <= j < cur.len() - 1 ==> #[trigger] cur[j] == (flat_cols(typesv, i as int)
                        + colsv.subrange(0, k - 1 as int))[j]);
            }
        }
        i = i + 1;
        proof {
            assert(flat_cols(typesv, i as int) =~= flat_cols(typesv, i - 1 as int)
                + colsv.subrange(0, colsv.len() as int));
        }
    }
    let mut names: Vec<String> = Vec::new();
    let ghost fcols = flat_cols(typesv, typesv.len() as int);
    let mut j: usize = 0;
    let ncols = defs.len();
    while j < ncols
        invariant
            j <= ncols,
            ncols == fcols.len(),
            names@.len() == j,
            forall|m: int| 0 <= m < j ==> (#[trigger] names@[m])@ == col_names(fcols)[m],
        decreases ncols - j,
    {
        let mut nm = String::from_str("arg");
        nm.append(u64_dec(j as u64).as_str());
        names.push(nm);
        j = j + 1;
    }
    let mut r = String::from_str("create table facts.");
    r.append(pred.name.as_str());
    r.append(" (");
    r.append(join_strs(&defs, ", ").as_str());
    r.append(", unique (");
    r.append(join_strs(&names, ", ").as_str());
    r.append("))");
    proof {
        assert(defs@.map_values(|s: String| s@) =~= col_defs(fcols));
        assert(names@.map_values(|s: String| s@) =~= col_names(fcols));
        assert(r@ =~= create_table_sql_v(pred@));
    }
    r
}

} // verus!
