//! The answer decoder: materialize each backend row into one value per
//! query variable, then deduplicate, keeping first occurrences in order.
use vstd::prelude::*;

use crate::Error;
use crate::values::{
    Prim, PrimV, TypeDescV, TypeDescriptor, Value, ValueV, decode, decode_ok, decoded,
};

verus! {

/// The deep model of one backend row.
pub open spec fn row_v(r: Seq<Prim>) -> Seq<PrimV> {
    r.map_values(|p: Prim| p@)
}

/// The deep model of one answer.
pub open spec fn answer_v(a: Seq<Value>) -> Seq<ValueV> {
    a.map_values(|v: Value| v@)
}

/// The deep model of an answer list.
pub open spec fn answers_v(a: Seq<Vec<Value>>) -> Seq<Seq<ValueV>> {
    a.map_values(|r: Vec<Value>| answer_v(r@))
}

/// The models of the row types.
pub open spec fn types_v(ts: Seq<TypeDescriptor>) -> Seq<TypeDescV> {
    ts.map_values(|t: TypeDescriptor| t@)
}

/// The cell position where the value of the variable at position `k`
/// starts: the physical columns of the earlier variables, summed.
pub open spec fn cols_before(types: Seq<TypeDescV>, k: int) -> int
    decreases k,
{
    if k <= 0 {
        0
    } else {
        cols_before(types, k - 1) + types[k - 1].cols.len()
    }
}

/// Whether a row holds one well-kinded value per type, in order; trailing
/// cells beyond the last type are ignored.
pub open spec fn row_ok(types: Seq<TypeDescV>, cells: Seq<PrimV>) -> bool {
    forall|k: int| 0 <= k < types.len() ==> decode_ok(types[k], cells, cols_before(types, k))
}

/// The answer a row decodes to: one value per type.
pub open spec fn row_decoded(types: Seq<TypeDescV>, cells: Seq<PrimV>) -> Seq<ValueV> {
    Seq::new(types.len(), |k: int| decoded(types[k], cells, cols_before(types, k)))
}

/// Decode one backend row into one value per type. A row too short or with
/// a cell of the wrong kind fails.
pub fn decode_row(types: &Vec<TypeDescriptor>, cells: &Vec<Prim>) -> (r: Result<
    Vec<Value>,
    Error,
>)
    ensures
        row_ok(types_v(types@), row_v(cells@)) ==> (r matches Ok(a) && answer_v(a@)
            == row_decoded(types_v(types@), row_v(cells@)) && a@.len() == types@.len()),
        !row_ok(types_v(types@), row_v(cells@)) ==> r matches Err(Error::DecodeError),
{
    let ghost tv = types_v(types@);
    let ghost cv = row_v(cells@);
    let mut out: Vec<Value> = Vec::new();
    let mut pos: usize = 0;
    let mut k: usize = 0;
    while k < types.len()
        invariant
            k <= types@.len(),
            tv == types_v(types@),
            cv == row_v(cells@),
            pos == cols_before(tv, k as int),
            out@.len() == k,
            forall|j: int| 0 <= j < k ==> decode_ok(tv[j], cv, cols_before(tv, j)),
            forall|j: int| 0 <= j < k ==> (#[trigger] out@[j])@ == decoded(
                tv[j],
                cv,
                cols_before(tv, j),
            ),
        decreases types@.len() - k,
    {
        match decode(&types[k], cells, pos) {
            Err(_) => {
                proof {
                    assert(!decode_ok(tv[k as int], cv, cols_before(tv, k as int)));
                }
                return Err(Error::DecodeError);
            },
            Ok((v, newpos)) => {
                out.push(v);
                pos = newpos;
                k = k + 1;
            },
        }
    }
    proof {
        assert(answer_v(out@) =~= row_decoded(tv, cv));
    }
    Ok(out)
}

/// Whether every row decodes under these types.
pub open spec fn rows_ok(types: Seq<TypeDescV>, rows: Seq<Seq<PrimV>>) -> bool {
    forall|i: int| 0 <= i < rows.len() ==> row_ok(types, #[trigger] rows[i])
}

/// The deep model of the backend rows.
pub open spec fn rows_v(rows: Seq<Vec<Prim>>) -> Seq<Seq<PrimV>> {
    rows.map_values(|r: Vec<Prim>| row_v(r@))
}

/// The answers the rows decode to, one per row, in row order.
pub open spec fn rows_decoded(types: Seq<TypeDescV>, rows: Seq<Seq<PrimV>>) -> Seq<Seq<ValueV>> {
    Seq::new(rows.len(), |i: int| row_decoded(types, rows[i]))
}

/// Copy an answer, preserving its model.
fn dup_answer(a: &Vec<Value>) -> (r: Vec<Value>)
    ensures
        answer_v(r@) == answer_v(a@),
{
    let mut out: Vec<Value> = Vec::new();
    let mut i: usize = 0;
    while i < a.len()
        invariant
            i <= a.len(),
            out@.len() == i,
            forall|j: int| 0 <= j < i ==> (#[trigger] out@[j])@ == a@[j]@,
        decreases a.len() - i,
    {
        out.push(a[i].dup());
        i = i + 1;
    }
    proof {
        assert(answer_v(out@) =~= answer_v(a@));
    }
    out
}

/// Answer equality: element-wise equality on the encoded form.
pub fn answer_eq(a: &Vec<Value>, b: &Vec<Value>) -> (r: bool)
    ensures
        r == (answer_v(a@) == answer_v(b@)),
{
    if a.len() != b.len() {
        proof {
            assert(answer_v(a@) != answer_v(b@)) by {
                assert(answer_v(a@).len() != answer_v(b@).len());
            }
        }
        return false;
    }
    let mut i: usize = 0;
    while i < a.len()
        invariant
            i <= a.len(),
            a@.len() == b@.len(),
            forall|j: int| 0 <= j < i ==> a@[j]@ == b@[j]@,
        decreases a.len() - i,
    {
        if !a[i].value_eq(&b[i]) {
            proof {
                assert(answer_v(a@) != answer_v(b@)) by {
                    assert(answer_v(a@)[i as int] != answer_v(b@)[i as int]);
                }
            }
            return false;
        }
        i = i + 1;
    }
    proof {
        assert(answer_v(a@) =~= answer_v(b@));
    }
    true
}

/// Whether the list holds an answer equal to the given one.
fn answers_contain(v: &Vec<Vec<Value>>, a: &Vec<Value>) -> (r: bool)
    ensures
        r == answers_v(v@).contains(answer_v(a@)),
{
    let mut i: usize = 0;
    while i < v.len()
        invariant
            i <= v.len(),
            forall|j: int| 0 <= j < i ==> answer_v((#[trigger] v@[j])@) != answer_v(a@),
        decreases v.len() - i,
    {
        if answer_eq(&v[i], a) {
            proof {
                assert(answers_v(v@)[i as int] == answer_v(a@));
            }
            return true;
        }
        i = i + 1;
    }
    proof {
        if answers_v(v@).contains(answer_v(a@)) {
            let w = choose|j: int|
                0 <= j < answers_v(v@).len() && answers_v(v@)[j] == answer_v(a@);
            assert(answer_v(v@[w]@) == answer_v(a@));
        }
    }
    false
}

/// The input folded left to right, keeping each answer's first occurrence.
pub open spec fn dedup_acc(s: Seq<Seq<ValueV>>, i: int, acc: Seq<Seq<ValueV>>) -> Seq<
    Seq<ValueV>,
>
    decreases s.len() - i,
{
    if i < 0 || i >= s.len() {
        acc
    } else if acc.contains(s[i]) {
        dedup_acc(s, i + 1, acc)
    } else {
        dedup_acc(s, i + 1, acc.push(s[i]))
    }
}

/// The answers with duplicates collapsed to their first occurrence.
pub open spec fn dedup_v(s: Seq<Seq<ValueV>>) -> Seq<Seq<ValueV>> {
    dedup_acc(s, 0, Seq::empty())
}

/// Drop every answer equal to an earlier one, keeping first-seen order.
pub fn dedup_answers(rows: &Vec<Vec<Value>>) -> (r: Vec<Vec<Value>>)
    ensures
        answers_v(r@) == dedup_v(answers_v(rows@)),
{
    let ghost sv = answers_v(rows@);
    let mut out: Vec<Vec<Value>> = Vec::new();
    let mut i: usize = 0;
    proof {
        assert(answers_v(out@) =~= Seq::<Seq<ValueV>>::empty());
    }
    while i < rows.len()
        invariant
            i <= rows.len(),
            sv == answers_v(rows@),
            sv.len() == rows@.len(),
            dedup_v(sv) == dedup_acc(sv, i as int, answers_v(out@)),
        decreases rows.len() - i,
    {
        let ghost acc0 = answers_v(out@);
        proof {
            assert(sv[i as int] == answer_v(rows@[i as int]@));
        }
        if !answers_contain(&out, &rows[i]) {
            out.push(dup_answer(&rows[i]));
            proof {
                assert(answers_v(out@) =~= acc0.push(sv[i as int]));
            }
        }
        i = i + 1;
    }
    out
}

/// Deduplication leaves no two equal answers.
pub proof fn lemma_dedup_acc_distinct(s: Seq<Seq<ValueV>>, i: int, acc: Seq<Seq<ValueV>>)
    requires
        forall|a: int, b: int| 0 <= a < b < acc.len() ==> acc[a] != acc[b],
    ensures
        forall|a: int, b: int|
            0 <= a < b < dedup_acc(s, i, acc).len() ==> dedup_acc(s, i, acc)[a] != dedup_acc(
                s,
                i,
                acc,
            )[b],
    decreases s.len() - i,
{
    if i < 0 || i >= s.len() {
    } else if acc.contains(s[i]) {
        lemma_dedup_acc_distinct(s, i + 1, acc);
        assert(dedup_acc(s, i, acc) == dedup_acc(s, i + 1, acc));
    } else {
        let acc2 = acc.push(s[i]);
        assert forall|a: int, b: int| 0 <= a < b < acc2.len() implies acc2[a] != acc2[b] by {
            if b == acc2.len() - 1 {
                assert(!acc.contains(s[i]));
                assert(acc2[a] == acc[a]);
                if acc[a] == s[i] {
                    assert(acc.contains(s[i]));
                }
            }
        }
        lemma_dedup_acc_distinct(s, i + 1, acc2);
        assert(dedup_acc(s, i, acc) == dedup_acc(s, i + 1, acc2));
    }
}

/// Every deduplicated answer comes from the input, and every input answer
/// is represented in the deduplicated list.
pub proof fn lemma_dedup_acc_elements(s: Seq<Seq<ValueV>>, i: int, acc: Seq<Seq<ValueV>>)
    requires
        0 <= i,
    ensures
        forall|a: int|
            0 <= a < dedup_acc(s, i, acc).len() ==> acc.contains(#[trigger] dedup_acc(s, i, acc)[a])
                || s.contains(dedup_acc(s, i, acc)[a]),
        forall|j: int|
            i <= j < s.len() ==> dedup_acc(s, i, acc).contains(#[trigger] s[j]) || acc.contains(
                s[j],
            ),
        forall|a: int| 0 <= a < acc.len() ==> dedup_acc(s, i, acc).contains(#[trigger] acc[a]),
    decreases s.len() - i,
{
    if i < 0 || i >= s.len() {
    } else {
        if acc.contains(s[i]) {
            lemma_dedup_acc_elements(s, i + 1, acc);
            assert(dedup_acc(s, i, acc) == dedup_acc(s, i + 1, acc));
            assert forall|j: int|
                i <= j < s.len() implies dedup_acc(s, i, acc).contains(#[trigger] s[j])
                || acc.contains(s[j]) by {
                if j > i {
                    assert(dedup_acc(s, i + 1, acc).contains(s[j]) || acc.contains(s[j]));
                }
            }
        } else {
            let acc2 = acc.push(s[i]);
            lemma_dedup_acc_elements(s, i + 1, acc2);
            let d = dedup_acc(s, i, acc);
            assert(d == dedup_acc(s, i + 1, acc2));
            assert forall|a: int| 0 <= a < acc.len() implies d.contains(#[trigger] acc[a]) by {
                assert(acc2[a] == acc[a]);
                assert(dedup_acc(s, i + 1, acc2).contains(acc2[a]));
            }
            assert forall|j: int| i <= j < s.len() implies d.contains(#[trigger] s[j])
                || acc.contains(s[j]) by {
                if j == i {
                    assert(acc2[acc2.len() - 1] == s[i]);
                    assert(dedup_acc(s, i + 1, acc2).contains(acc2[acc2.len() - 1]));
                } else if !d.contains(s[j]) {
                    assert(acc2.contains(s[j]));
                    let w = choose|w: int| 0 <= w < acc2.len() && acc2[w] == s[j];
                    if w < acc.len() {
                        assert(acc[w] == s[j]);
                        assert(acc.contains(s[j]));
                    } else {
                        assert(acc2[acc2.len() - 1] == s[i]);
                        assert(dedup_acc(s, i + 1, acc2).contains(acc2[acc2.len() - 1]));
                    }
                }
            }
            assert forall|a: int| 0 <= a < d.len() implies acc.contains(#[trigger] d[a])
                || s.contains(d[a]) by {
                let x = dedup_acc(s, i + 1, acc2)[a];
                assert(acc2.contains(x) || s.contains(x));
                if acc2.contains(x) && !acc.contains(x) {
                    let w = choose|w: int| 0 <= w < acc2.len() && acc2[w] == x;
                    if w < acc.len() {
                        assert(acc[w] == x);
                        assert(acc.contains(x));
                    } else {
                        assert(x == s[i]);
                        assert(s.contains(s[i]));
                    }
                }
            }
        }
    }
}

/// Decode and deduplicate the backend rows of one query: the answers, one
/// value per variable type, duplicates collapsed, first-seen order kept.
/// Every returned answer has exactly one value per variable.
pub fn answers_from_rows(types: &Vec<TypeDescriptor>, rows: &Vec<Vec<Prim>>) -> (r: Result<
    Vec<Vec<Value>>,
    Error,
>)
    ensures
        rows_ok(types_v(types@), rows_v(rows@)) ==> (r matches Ok(a) && answers_v(a@) == dedup_v(
            rows_decoded(types_v(types@), rows_v(rows@)),
        ) && (forall|i: int|
            0 <= i < answers_v(a@).len() ==> (#[trigger] answers_v(a@)[i]).len()
                == types@.len())),
        !rows_ok(types_v(types@), rows_v(rows@)) ==> r matches Err(Error::DecodeError),
{
    let ghost tv = types_v(types@);
    let ghost rv = rows_v(rows@);
    let mut decoded_rows: Vec<Vec<Value>> = Vec::new();
    let mut i: usize = 0;
    while i < rows.len()
        invariant
            i <= rows.len(),
            tv == types_v(types@),
            rv == rows_v(rows@),
            rv.len() == rows@.len(),
            decoded_rows@.len() == i,
            forall|j: int| 0 <= j < i ==> row_ok(tv, #[trigger] rv[j]),
            forall|j: int| 0 <= j < i ==> answer_v((#[trigger] decoded_rows@[j])@) == row_decoded(
                tv,
                rv[j],
            ),
        decreases rows.len() - i,
    {
        proof {
            assert(rv[i as int] == row_v(rows@[i as int]@));
        }
        match decode_row(types, &rows[i]) {
            Err(_) => {
                proof {
                    assert(!row_ok(tv, rv[i as int]));
                }
                return Err(Error::DecodeError);
            },
            Ok(a) => {
                decoded_rows.push(a);
                i = i + 1;
            },
        }
    }
    proof {
        assert(answers_v(decoded_rows@) =~= rows_decoded(tv, rv));
    }
    let r = dedup_answers(&decoded_rows);
    proof {
        lemma_dedup_acc_elements(rows_decoded(tv, rv), 0, Seq::empty());
        assert forall|k: int| 0 <= k < answers_v(r@).len() implies (#[trigger] answers_v(r@)[
        k]).len() == types@.len() by {
            let x = answers_v(r@)[k];
            assert(rows_decoded(tv, rv).contains(x));
            let w = choose|j: int|
                0 <= j < rows_decoded(tv, rv).len() && rows_decoded(tv, rv)[j] == x;
            assert(rows_decoded(tv, rv)[w].len() == tv.len());
        }
    }
    Ok(r)
}

/// No two returned answers are element-wise equal.
pub proof fn lemma_answers_distinct(s: Seq<Seq<ValueV>>)
    ensures
        forall|a: int, b: int|
            0 <= a < b < dedup_v(s).len() ==> dedup_v(s)[a] != dedup_v(s)[b],
{
    lemma_dedup_acc_distinct(s, 0, Seq::empty());
}

} // verus!
