//! The query compiler: validates a clause list — variable numbering must be
//! dense and first-seen, variable types consistent, every predicate known —
//! and translates it into a relational plan: a select statement over aliased
//! tables with join predicates, constant restrictions and positional
//! parameters.
use vstd::prelude::*;

use crate::Error;
use crate::catalog::{Predicate, PredicateV};
use crate::db::{DbCore, pred_has, pred_named};
use crate::text::{dec_rep, join_strs, join_v, u64_dec};
use crate::values::{Prim, PrimV, TypeDescV, TypeDescriptor, Value, ValueV};

verus! {

/// One slot of a clause: anonymous, a numbered variable, or a constant.
pub enum MatchSlot {
    /// Matches anything and binds nothing.
    Wildcard,
    /// A variable, numbered densely in first-seen order.
    Var(usize),
    /// A constant the matched column must equal.
    Const(Value),
}

/// Mathematical model of a slot.
pub enum SlotV {
    Wildcard,
    Var(usize),
    Const(ValueV),
}

impl View for MatchSlot {
    type V = SlotV;

    open spec fn view(&self) -> SlotV {
        match self {
            MatchSlot::Wildcard => SlotV::Wildcard,
            MatchSlot::Var(v) => SlotV::Var(*v),
            MatchSlot::Const(val) => SlotV::Const(val@),
        }
    }
}

/// A predicate reference with one slot per argument.
pub struct Clause {
    pub pred_name: String,
    pub slots: Vec<MatchSlot>,
}

/// Mathematical model of a clause.
#[verifier::ext_equal]
pub struct ClauseV {
    pub pred_name: Seq<char>,
    pub slots: Seq<SlotV>,
}

impl View for Clause {
    type V = ClauseV;

    open spec fn view(&self) -> ClauseV {
        ClauseV { pred_name: self.pred_name@, slots: self.slots@.map_values(|s: MatchSlot| s@) }
    }
}

/// The models of a clause list.
pub open spec fn clauses_v(q: Seq<Clause>) -> Seq<ClauseV> {
    q.map_values(|c: Clause| c@)
}

/// The alias of the clause at a position: `t0`, `t1`, ….
pub open spec fn alias_v(i: int) -> Seq<char> {
    "t"@ + dec_rep(i as nat)
}

/// The column reference for slot `idx` of the clause at position `i`.
pub open spec fn col_expr_v(i: int, idx: int) -> Seq<char> {
    alias_v(i) + ".arg"@ + dec_rep(idx as nat)
}

/// The aliased table entry for a clause.
pub open spec fn table_entry_v(name: Seq<char>, i: int) -> Seq<char> {
    "facts."@ + name + " as "@ + alias_v(i)
}

/// The slot-fold state: canonical expression and type per variable in
/// first-seen order, constant restrictions, and the positional parameters.
#[verifier::ext_equal]
pub struct SlotState {
    pub var_names: Seq<Seq<char>>,
    pub var_types: Seq<TypeDescV>,
    pub wheres: Seq<Seq<char>>,
    pub params: Seq<PrimV>,
}

/// Fold the slots of one clause from position `idx` on. `cur` collects the
/// clause's join predicates. A variable numbered past the next free number
/// is a hole; one numbered below must sit on a column of its first-seen
/// type; one numbered exactly at it is new and becomes canonical here.
/// A constant extends the parameters and restricts its column to the last
/// parameter written.
pub open spec fn comp_slots(
    st: SlotState,
    cur: Seq<Seq<char>>,
    ptypes: Seq<TypeDescV>,
    slots: Seq<SlotV>,
    ci: int,
    idx: int,
) -> Result<(SlotState, Seq<Seq<char>>), Error>
    decreases slots.len() - idx,
{
    if idx < 0 || idx >= slots.len() {
        Ok((st, cur))
    } else {
        match slots[idx] {
            SlotV::Wildcard => comp_slots(st, cur, ptypes, slots, ci, idx + 1),
            SlotV::Var(v) => {
                if v > st.var_types.len() {
                    Err(Error::NumberingHole)
                } else if v == st.var_types.len() {
                    let st2 = SlotState {
                        var_names: st.var_names.push(col_expr_v(ci, idx)),
                        var_types: st.var_types.push(ptypes[idx]),
                        wheres: st.wheres,
                        params: st.params,
                    };
                    comp_slots(st2, cur, ptypes, slots, ci, idx + 1)
                } else if st.var_types[v as int] != ptypes[idx] {
                    Err(Error::TypeMismatch)
                } else {
                    comp_slots(
                        st,
                        cur.push(col_expr_v(ci, idx) + " = "@ + st.var_names[v as int]),
                        ptypes,
                        slots,
                        ci,
                        idx + 1,
                    )
                }
            },
            SlotV::Const(val) => {
                let st2 = SlotState {
                    var_names: st.var_names,
                    var_types: st.var_types,
                    wheres: st.wheres.push(
                        col_expr_v(ci, idx) + " = $"@ + dec_rep(
                            (st.params.len() + val.prims.len()) as nat,
                        ),
                    ),
                    params: st.params + val.prims,
                };
                comp_slots(st2, cur, ptypes, slots, ci, idx + 1)
            },
        }
    }
}

/// The whole compile state: the slot-fold state plus the aliased tables and
/// the per-clause join predicates.
#[verifier::ext_equal]
pub struct CompState {
    pub vars: SlotState,
    pub tables: Seq<Seq<char>>,
    pub joins: Seq<Seq<Seq<char>>>,
}

/// Fold the clauses from position `i` on: a clause over an uncataloged
/// predicate fails; otherwise its slots are folded, its aliased table listed
/// and its join predicates recorded.
pub open spec fn comp_clauses(
    cat: Seq<PredicateV>,
    cs: Seq<ClauseV>,
    i: int,
    st: CompState,
) -> Result<CompState, Error>
    decreases cs.len() - i,
{
    if i < 0 || i >= cs.len() {
        Ok(st)
    } else if !pred_has(cat, cs[i].pred_name) {
        Err(Error::UnknownPredicate)
    } else {
        match comp_slots(
            st.vars,
            Seq::empty(),
            pred_named(cat, cs[i].pred_name).types,
            cs[i].slots,
            i,
            0,
        ) {
            Err(e) => Err(e),
            Ok(p) => comp_clauses(
                cat,
                cs,
                i + 1,
                CompState {
                    vars: p.0,
                    tables: st.tables.push(table_entry_v(cs[i].pred_name, i)),
                    joins: st.joins.push(p.1),
                },
            ),
        }
    }
}

/// The empty compile state.
pub open spec fn init_state() -> CompState {
    CompState {
        vars: SlotState {
            var_names: Seq::empty(),
            var_types: Seq::empty(),
            wheres: Seq::empty(),
            params: Seq::empty(),
        },
        tables: Seq::empty(),
        joins: Seq::empty(),
    }
}

/// Compile a query against a catalog: an empty query fails, otherwise the
/// clauses are folded left to right.
pub open spec fn compile_query(cat: Seq<PredicateV>, cs: Seq<ClauseV>) -> Result<
    CompState,
    Error,
> {
    if cs.len() == 0 {
        Err(Error::EmptyQuery)
    } else {
        comp_clauses(cat, cs, 0, init_state())
    }
}

/// The join entry for one clause's aliased table: unconditional when the
/// clause contributed no join predicate.
pub open spec fn join_clause_v(table: Seq<char>, join: Seq<Seq<char>>) -> Seq<char> {
    if join.len() == 0 {
        "JOIN "@ + table + " "@
    } else {
        "JOIN "@ + table + " ON "@ + join_v(join, " AND "@)
    }
}

/// The join entries of every clause but the first, last clause first.
pub open spec fn join_parts_v(tables: Seq<Seq<char>>, joins: Seq<Seq<Seq<char>>>) -> Seq<
    Seq<char>,
> {
    Seq::new(
        (tables.len() - 1) as nat,
        |m: int| join_clause_v(tables[tables.len() - 1 - m], joins[tables.len() - 1 - m]),
    )
}

/// The whole select statement of a compiled query: the canonical variable
/// expressions plus a sentinel constant column, the first clause's table,
/// the join entries, and the constant restrictions followed by the first
/// clause's own equalities.
pub open spec fn select_sql_v(st: CompState) -> Seq<char> {
    "SELECT "@ + join_v(st.vars.var_names.push("0"@), ", "@) + " FROM "@ + st.tables[0] + " "@
        + join_v(join_parts_v(st.tables, st.joins), " "@) + " "@ + where_str_v(
        st.vars.wheres + st.joins[0],
    )
}

/// The where clause: empty when nothing restricts the rows.
pub open spec fn where_str_v(wheres: Seq<Seq<char>>) -> Seq<char> {
    if wheres.len() == 0 {
        Seq::empty()
    } else {
        "WHERE "@ + join_v(wheres, " AND "@)
    }
}

/// The slot-fold state carried by the executable compiler.
pub open spec fn slot_state_of(
    vn: Seq<String>,
    vt: Seq<TypeDescriptor>,
    wh: Seq<String>,
    pr: Seq<Prim>,
) -> SlotState {
    SlotState {
        var_names: vn.map_values(|s: String| s@),
        var_types: vt.map_values(|t: TypeDescriptor| t@),
        wheres: wh.map_values(|s: String| s@),
        params: pr.map_values(|p: Prim| p@),
    }
}

/// The compile state carried by the executable compiler.
pub open spec fn comp_state_of(
    vn: Seq<String>,
    vt: Seq<TypeDescriptor>,
    wh: Seq<String>,
    pr: Seq<Prim>,
    tb: Seq<String>,
    jn: Seq<Vec<String>>,
) -> CompState {
    CompState {
        vars: slot_state_of(vn, vt, wh, pr),
        tables: tb.map_values(|s: String| s@),
        joins: jn.map_values(|v: Vec<String>| v@.map_values(|s: String| s@)),
    }
}

/// Build the column reference for slot `idx` of clause `ci`.
fn col_expr_str(ci: usize, idx: usize) -> (r: String)
    ensures
        r@ == col_expr_v(ci as int, idx as int),
{
    let mut e = String::from_str("t");
    e.append(u64_dec(ci as u64).as_str());
    e.append(".arg");
    e.append(u64_dec(idx as u64).as_str());
    proof {
        assert(e@ =~= col_expr_v(ci as int, idx as int));
    }
    e
}

/// Fold the slots of clause `ci` into the compiler's state, returning the
/// clause's join predicates.
fn comp_clause_slots(
    var_names: &mut Vec<String>,
    var_types: &mut Vec<TypeDescriptor>,
    wheres: &mut Vec<String>,
    params: &mut Vec<Prim>,
    pred: &Predicate,
    clause: &Clause,
    ci: usize,
) -> (r: Result<Vec<String>, Error>)
    requires
        clause@.slots.len() == pred@.types.len(),
        old(var_names)@.len() == old(var_types)@.len(),
    ensures
        ({
            let st0 = slot_state_of(
                old(var_names)@,
                old(var_types)@,
                old(wheres)@,
                old(params)@,
            );
            let stf = slot_state_of(
                final(var_names)@,
                final(var_types)@,
                final(wheres)@,
                final(params)@,
            );
            match r {
                Ok(cur) => comp_slots(st0, Seq::empty(), pred@.types, clause@.slots, ci as int, 0)
                    == Ok::<(SlotState, Seq<Seq<char>>), Error>(
                    (stf, cur@.map_values(|s: String| s@)),
                ) && final(var_names)@.len() == final(var_types)@.len(),
                Err(e) => comp_slots(st0, Seq::empty(), pred@.types, clause@.slots, ci as int, 0)
                    == Err::<(SlotState, Seq<Seq<char>>), Error>(e),
            }
        }),
{
    let ghost st0 = slot_state_of(var_names@, var_types@, wheres@, params@);
    let ghost slotsv = clause@.slots;
    let ghost ptypes = pred@.types;
    let mut cur: Vec<String> = Vec::new();
    let mut idx: usize = 0;
    proof {
        assert(cur@.map_values(|s: String| s@) =~= Seq::<Seq<char>>::empty());
        assert(slot_state_of(var_names@, var_types@, wheres@, params@) == st0);
    }
    while idx < clause.slots.len()
        invariant
            idx <= clause.slots@.len(),
            var_names@.len() == var_types@.len(),
            st0 == slot_state_of(old(var_names)@, old(var_types)@, old(wheres)@, old(params)@),
            slotsv == clause@.slots,
            ptypes == pred@.types,
            slotsv.len() == ptypes.len(),
            slotsv.len() == clause.slots@.len(),
            comp_slots(st0, Seq::empty(), ptypes, slotsv, ci as int, 0) == comp_slots(
                slot_state_of(var_names@, var_types@, wheres@, params@),
                cur@.map_values(|s: String| s@),
                ptypes,
                slotsv,
                ci as int,
                idx as int,
            ),
        decreases clause.slots@.len() - idx,
    {
        let ghost st_here = slot_state_of(var_names@, var_types@, wheres@, params@);
        let ghost cur_here = cur@.map_values(|s: String| s@);
        proof {
            assert(slotsv[idx as int] == clause.slots@[idx as int]@);
        }
        match &clause.slots[idx] {
            MatchSlot::Wildcard => {},
            MatchSlot::Var(vr) => {
                let v = *vr;
                if v > var_types.len() {
                    proof {
                        assert(slotsv[idx as int] == SlotV::Var(v));
                        assert(comp_slots(st_here, cur_here, ptypes, slotsv, ci as int, idx as int)
                            == Err::<(SlotState, Seq<Seq<char>>), Error>(Error::NumberingHole));
                    }
                    return Err(Error::NumberingHole);
                } else if v == var_types.len() {
                    var_names.push(col_expr_str(ci, idx));
                    var_types.push(pred.types[idx].dup());
                    proof {
                        let stn = slot_state_of(var_names@, var_types@, wheres@, params@);
                        assert(stn.var_names =~= st_here.var_names.push(
                            col_expr_v(ci as int, idx as int),
                        ));
                        assert(stn.var_types =~= st_here.var_types.push(ptypes[idx as int]));
                        assert(stn =~= (SlotState {
                            var_names: st_here.var_names.push(col_expr_v(ci as int, idx as int)),
                            var_types: st_here.var_types.push(ptypes[idx as int]),
                            wheres: st_here.wheres,
                            params: st_here.params,
                        }));
                    }
                } else {
                    if !var_types[v].td_eq(&pred.types[idx]) {
                        proof {
                            assert(slotsv[idx as int] == SlotV::Var(v));
                            assert(st_here.var_types[v as int] != ptypes[idx as int]);
                            assert(comp_slots(st_here, cur_here, ptypes, slotsv, ci as int, idx as int)
                                == Err::<(SlotState, Seq<Seq<char>>), Error>(Error::TypeMismatch));
                        }
                        return Err(Error::TypeMismatch);
                    }
                    let mut piece = col_expr_str(ci, idx);
                    piece.append(" = ");
                    piece.append(var_names[v].as_str());
                    cur.push(piece);
                    proof {
                        assert(st_here.var_types[v as int] == ptypes[idx as int]);
                        assert(cur@.map_values(|s: String| s@) =~= cur_here.push(
                            col_expr_v(ci as int, idx as int) + " = "@ + st_here.var_names[
                            v as int],
                        ));
                    }
                }
            },
            MatchSlot::Const(val) => {
                let mut e = val.encode();
                let piece_idx = col_expr_str(ci, idx);
                params.append(&mut e);
                let n = params.len();
                let mut piece = piece_idx;
                piece.append(" = $");
                piece.append(u64_dec(n as u64).as_str());
                wheres.push(piece);
                proof {
                    let stn = slot_state_of(var_names@, var_types@, wheres@, params@);
                    assert(stn.params =~= st_here.params + val@.prims);
                    assert(piece@ =~= col_expr_v(ci as int, idx as int) + " = $"@ + dec_rep(
                        (st_here.params.len() + val@.prims.len()) as nat,
                    ));
                    assert(stn.wheres =~= st_here.wheres.push(
                        col_expr_v(ci as int, idx as int) + " = $"@ + dec_rep(
                            (st_here.params.len() + val@.prims.len()) as nat,
                        ),
                    ));
                    assert(stn =~= (SlotState {
                        var_names: st_here.var_names,
                        var_types: st_here.var_types,
                        wheres: st_here.wheres.push(
                            col_expr_v(ci as int, idx as int) + " = $"@ + dec_rep(
                                (st_here.params.len() + val@.prims.len()) as nat,
                            ),
                        ),
                        params: st_here.params + val@.prims,
                    }));
                }
            },
        }
        idx = idx + 1;
    }
    Ok(cur)
}

/// Some slot at position `lo` or later is the variable numbered `v`.
pub open spec fn var_occurs(slots: Seq<SlotV>, lo: int, v: int) -> bool {
    exists|j: int| lo <= j < slots.len() && slots[j] == SlotV::Var(v as usize)
}

/// Some slot of some clause at position `lo` or later is the variable
/// numbered `v`.
pub open spec fn var_occurs_in(cs: Seq<ClauseV>, lo: int, v: int) -> bool {
    exists|ii: int, j: int|
        lo <= ii < cs.len() && 0 <= j < cs[ii].slots.len() && cs[ii].slots[j] == SlotV::Var(
            v as usize,
        )
}

/// A variable occurring at position `lo + 1` or later also occurs at `lo` or
/// later.
proof fn lemma_var_occurs_mono(slots: Seq<SlotV>, lo: int, v: int)
    requires
        var_occurs(slots, lo + 1, v),
    ensures
        var_occurs(slots, lo, v),
{
    let j = choose|j: int| lo + 1 <= j < slots.len() && slots[j] == SlotV::Var(v as usize);
    assert(lo <= j < slots.len() && slots[j] == SlotV::Var(v as usize));
}

/// Slot-fold facts: the variable table only grows, earlier entries are kept,
/// every variable occurring from `idx` on is in the final table with its
/// column's type recorded, and every entry added was introduced by some slot.
proof fn lemma_comp_slots_vars(
    st: SlotState,
    cur: Seq<Seq<char>>,
    ptypes: Seq<TypeDescV>,
    slots: Seq<SlotV>,
    ci: int,
    idx: int,
    st2: SlotState,
    cur2: Seq<Seq<char>>,
)
    requires
        0 <= idx,
        comp_slots(st, cur, ptypes, slots, ci, idx) == Ok::<(SlotState, Seq<Seq<char>>), Error>(
            (st2, cur2),
        ),
    ensures
        st.var_types.len() <= st2.var_types.len(),
        st2.var_types.take(st.var_types.len() as int) == st.var_types,
        forall|j: int|
            idx <= j < slots.len() ==> ((#[trigger] slots[j]) matches SlotV::Var(v) ==> v
                < st2.var_types.len() && st2.var_types[v as int] == ptypes[j]),
        forall|v: int|
            st.var_types.len() <= v < st2.var_types.len() ==> #[trigger] var_occurs(
                slots,
                idx,
                v,
            ),
    decreases slots.len() - idx,
{
    if idx >= slots.len() {
        assert(st2.var_types.take(st.var_types.len() as int) =~= st.var_types);
    } else {
        match slots[idx] {
            SlotV::Wildcard => {
                lemma_comp_slots_vars(st, cur, ptypes, slots, ci, idx + 1, st2, cur2);
                assert forall|w: int|
                    st.var_types.len() <= w < st2.var_types.len() implies #[trigger] var_occurs(
                    slots,
                    idx,
                    w,
                ) by {
                    lemma_var_occurs_mono(slots, idx, w);
                }
            },
            SlotV::Var(v) => {
                if v == st.var_types.len() {
                    let stm = SlotState {
                        var_names: st.var_names.push(col_expr_v(ci, idx)),
                        var_types: st.var_types.push(ptypes[idx]),
                        wheres: st.wheres,
                        params: st.params,
                    };
                    lemma_comp_slots_vars(stm, cur, ptypes, slots, ci, idx + 1, st2, cur2);
                    assert(st2.var_types.take(st.var_types.len() as int) =~= st.var_types) by {
                        assert(st2.var_types.take(stm.var_types.len() as int)
                            == stm.var_types);
                        assert forall|m: int| 0 <= m < st.var_types.len() implies st2.var_types[m]
                            == st.var_types[m] by {
                            assert(st2.var_types.take(stm.var_types.len() as int)[m]
                                == stm.var_types[m]);
                        }
                    }
                    assert(st2.var_types[v as int] == ptypes[idx]) by {
                        assert(st2.var_types.take(stm.var_types.len() as int)[v as int]
                            == stm.var_types[v as int]);
                    }
                    assert forall|w: int|
                        st.var_types.len() <= w < st2.var_types.len() implies #[trigger] var_occurs(
                        slots,
                        idx,
                        w,
                    ) by {
                        if w == st.var_types.len() {
                            assert(slots[idx] == SlotV::Var(w as usize));
                        } else {
                            assert(var_occurs(slots, idx + 1, w));
                            let j = choose|j: int|
                                idx + 1 <= j < slots.len() && slots[j] == SlotV::Var(w as usize);
                            assert(slots[j] == SlotV::Var(w as usize));
                        }
                    }
                } else {
                    lemma_comp_slots_vars(
                        st,
                        cur.push(col_expr_v(ci, idx) + " = "@ + st.var_names[v as int]),
                        ptypes,
                        slots,
                        ci,
                        idx + 1,
                        st2,
                        cur2,
                    );
                    assert(st2.var_types[v as int] == ptypes[idx]) by {
                        assert(st2.var_types.take(st.var_types.len() as int)[v as int]
                            == st.var_types[v as int]);
                    }
                    assert forall|w: int|
                        st.var_types.len() <= w < st2.var_types.len() implies #[trigger] var_occurs(
                        slots,
                        idx,
                        w,
                    ) by {
                        lemma_var_occurs_mono(slots, idx, w);
                    }
                }
            },
            SlotV::Const(val) => {
                let stm = SlotState {
                    var_names: st.var_names,
                    var_types: st.var_types,
                    wheres: st.wheres.push(
                        col_expr_v(ci, idx) + " = $"@ + dec_rep(
                            (st.params.len() + val.prims.len()) as nat,
                        ),
                    ),
                    params: st.params + val.prims,
                };
                lemma_comp_slots_vars(stm, cur, ptypes, slots, ci, idx + 1, st2, cur2);
                assert forall|w: int|
                    st.var_types.len() <= w < st2.var_types.len() implies #[trigger] var_occurs(
                    slots,
                    idx,
                    w,
                ) by {
                    lemma_var_occurs_mono(slots, idx, w);
                }
            },
        }
    }
}

/// Clause-fold facts, composing the slot-fold facts over every clause.
proof fn lemma_comp_clauses_vars(
    cat: Seq<PredicateV>,
    cs: Seq<ClauseV>,
    i: int,
    st: CompState,
    st2: CompState,
)
    requires
        0 <= i,
        comp_clauses(cat, cs, i, st) == Ok::<CompState, Error>(st2),
    ensures
        st.vars.var_types.len() <= st2.vars.var_types.len(),
        st2.vars.var_types.take(st.vars.var_types.len() as int) == st.vars.var_types,
        forall|ii: int, j: int|
            i <= ii < cs.len() && 0 <= j < cs[ii].slots.len() ==> ((#[trigger] cs[ii].slots[j])
                matches SlotV::Var(v) ==> v < st2.vars.var_types.len()
                && st2.vars.var_types[v as int] == pred_named(cat, cs[ii].pred_name).types[j]),
        forall|v: int|
            st.vars.var_types.len() <= v < st2.vars.var_types.len() ==> #[trigger] var_occurs_in(
                cs,
                i,
                v,
            ),
    decreases cs.len() - i,
{
    if i >= cs.len() {
        assert(st2.vars.var_types.take(st.vars.var_types.len() as int) =~= st.vars.var_types);
    } else {
        let ptypes = pred_named(cat, cs[i].pred_name).types;
        let sres = comp_slots(st.vars, Seq::empty(), ptypes, cs[i].slots, i, 0);
        let (sv, cur) = sres->Ok_0;
        let stm = CompState {
            vars: sv,
            tables: st.tables.push(table_entry_v(cs[i].pred_name, i)),
            joins: st.joins.push(cur),
        };
        lemma_comp_slots_vars(st.vars, Seq::empty(), ptypes, cs[i].slots, i, 0, sv, cur);
        lemma_comp_clauses_vars(cat, cs, i + 1, stm, st2);
        assert(st2.vars.var_types.take(st.vars.var_types.len() as int) =~= st.vars.var_types) by {
            assert forall|m: int| 0 <= m < st.vars.var_types.len() implies st2.vars.var_types[m]
                == st.vars.var_types[m] by {
                assert(st2.vars.var_types.take(sv.var_types.len() as int)[m]
                    == sv.var_types[m]);
                assert(sv.var_types.take(st.vars.var_types.len() as int)[m]
                    == st.vars.var_types[m]);
            }
        }
        assert forall|ii: int, j: int|
            i <= ii < cs.len() && 0 <= j < cs[ii].slots.len() implies ((#[trigger] cs[ii].slots[j])
            matches SlotV::Var(v) ==> v < st2.vars.var_types.len() && st2.vars.var_types[v as int]
            == pred_named(cat, cs[ii].pred_name).types[j]) by {
            if ii == i && cs[i].slots[j] is Var {
                let v = cs[i].slots[j]->Var_0;
                assert(v < sv.var_types.len() && sv.var_types[v as int] == ptypes[j]);
                assert(st2.vars.var_types.take(sv.var_types.len() as int)[v as int]
                    == sv.var_types[v as int]);
            }
        }
        assert forall|v: int|
            st.vars.var_types.len() <= v < st2.vars.var_types.len() implies #[trigger] var_occurs_in(
            cs,
            i,
            v,
        ) by {
            if v < sv.var_types.len() {
                assert(var_occurs(cs[i].slots, 0, v));
                let j = choose|j: int|
                    0 <= j < cs[i].slots.len() && cs[i].slots[j] == SlotV::Var(v as usize);
                assert(cs[i].slots[j] == SlotV::Var(v as usize));
            } else {
                assert(var_occurs_in(cs, i + 1, v));
                let (ii, j) = choose|ii: int, j: int|
                    i + 1 <= ii < cs.len() && 0 <= j < cs[ii].slots.len() && cs[ii].slots[j]
                        == SlotV::Var(v as usize);
                assert(cs[ii].slots[j] == SlotV::Var(v as usize));
            }
        }
    }
}

/// Variable discipline. In an accepted query the variables are numbered
/// densely: with `k` variables recorded, every occurring variable number is
/// below `k`, every number below `k` occurs in some slot, and every
/// occurrence of a variable sits on a column whose type is the one recorded
/// at the variable's first occurrence — so all its occurrences agree.
pub proof fn lemma_variable_discipline(cat: Seq<PredicateV>, cs: Seq<ClauseV>, st: CompState)
    requires
        compile_query(cat, cs) == Ok::<CompState, Error>(st),
    ensures
        forall|ii: int, j: int|
            0 <= ii < cs.len() && 0 <= j < cs[ii].slots.len() ==> ((#[trigger] cs[ii].slots[j])
                matches SlotV::Var(v) ==> v < st.vars.var_types.len()
                && st.vars.var_types[v as int] == pred_named(cat, cs[ii].pred_name).types[j]),
        forall|v: int| 0 <= v < st.vars.var_types.len() ==> #[trigger] var_occurs_in(cs, 0, v),
{
    lemma_comp_clauses_vars(cat, cs, 0, init_state(), st);
}

/// A compiled query, ready for the driver: the select statement, its
/// positional parameters, and the types decoding one answer row.
pub struct QueryPlan {
    pub sql: String,
    pub params: Vec<Prim>,
    pub var_types: Vec<TypeDescriptor>,
}

/// Every clause over a cataloged predicate has one slot per argument.
pub open spec fn arities_ok(cat: Seq<PredicateV>, cs: Seq<ClauseV>) -> bool {
    forall|i: int|
        0 <= i < cs.len() ==> (pred_has(cat, (#[trigger] cs[i]).pred_name) ==> cs[i].slots.len()
            == pred_named(cat, cs[i].pred_name).types.len())
}

impl DbCore {
    /// Compile a conjunctive query into a relational plan: exactly the
    /// select statement, parameters and row types that `compile_query`
    /// assigns to it, or its first error — empty query, unknown predicate,
    /// numbering hole, or variable type mismatch.
    pub fn search_facts(&self, query: &Vec<Clause>) -> (r: Result<QueryPlan, Error>)
        requires
            self.wf(),
            arities_ok(self.preds_v(), clauses_v(query@)),
        ensures
            match compile_query(self.preds_v(), clauses_v(query@)) {
                Err(e) => r matches Err(e2) && e2 == e,
                Ok(st) => r matches Ok(plan) && plan.sql@ == select_sql_v(st) && plan.params@
                    .map_values(|p: Prim| p@) == st.vars.params && plan.var_types@.map_values(
                    |t: TypeDescriptor| t@,
                ) == st.vars.var_types,
            },
    {
        let ghost cat = self.preds_v();
        let ghost cs = clauses_v(query@);
        if query.len() == 0 {
            return Err(Error::EmptyQuery);
        }
        let mut var_names: Vec<String> = Vec::new();
        let mut var_types: Vec<TypeDescriptor> = Vec::new();
        let mut wheres: Vec<String> = Vec::new();
        let mut params: Vec<Prim> = Vec::new();
        let mut tables: Vec<String> = Vec::new();
        let mut joins: Vec<Vec<String>> = Vec::new();
        let mut i: usize = 0;
        proof {
            assert(comp_state_of(var_names@, var_types@, wheres@, params@, tables@, joins@)
                =~~= init_state());
        }
        while i < query.len()
            invariant
                i <= query@.len(),
                query@.len() >= 1,
                self.wf(),
                cat == self.preds_v(),
                cs == clauses_v(query@),
                arities_ok(cat, cs),
                cs.len() == query@.len(),
                var_names@.len() == var_types@.len(),
                tables@.len() == i,
                joins@.len() == i,
                comp_clauses(cat, cs, 0, init_state()) == comp_clauses(
                    cat,
                    cs,
                    i as int,
                    comp_state_of(var_names@, var_types@, wheres@, params@, tables@, joins@),
                ),
            decreases query@.len() - i,
        {
            let ghost st_here = comp_state_of(
                var_names@,
                var_types@,
                wheres@,
                params@,
                tables@,
                joins@,
            );
            let clause = &query[i];
            proof {
                assert(cs[i as int] == clause@);
            }
            match self.get_predicate(clause.pred_name.as_str()) {
                None => {
                    return Err(Error::UnknownPredicate);
                },
                Some(pred) => {
                    proof {
                        assert(pred@ == pred_named(cat, cs[i as int].pred_name));
                        assert(clause@.slots.len() == pred@.types.len());
                    }
                    match comp_clause_slots(
                        &mut var_names,
                        &mut var_types,
                        &mut wheres,
                        &mut params,
                        pred,
                        clause,
                        i,
                    ) {
                        Err(e) => {
                            proof {
                                assert(comp_clauses(cat, cs, i as int, st_here) == Err::<
                                    CompState,
                                    Error,
                                >(e));
                            }
                            return Err(e);
                        },
                        Ok(cur) => {
                            let mut tbl = String::from_str("facts.");
                            tbl.append(clause.pred_name.as_str());
                            tbl.append(" as ");
                            tbl.append("t");
                            tbl.append(u64_dec(i as u64).as_str());
                            proof {
                                assert(tbl@ =~= table_entry_v(cs[i as int].pred_name, i as int));
                            }
                            tables.push(tbl);
                            joins.push(cur);
                            i = i + 1;
                            proof {
                                let stn = comp_state_of(
                                    var_names@,
                                    var_types@,
                                    wheres@,
                                    params@,
                                    tables@,
                                    joins@,
                                );
                                assert(stn.tables =~= st_here.tables.push(
                                    table_entry_v(cs[i - 1].pred_name, i - 1),
                                ));
                                assert(stn.joins =~= st_here.joins.push(
                                    joins@[joins@.len() - 1]@.map_values(|s: String| s@),
                                ));
                            }
                        },
                    }
                },
            }
        }
        let ghost stf = comp_state_of(var_names@, var_types@, wheres@, params@, tables@, joins@);
        proof {
            assert(comp_clauses(cat, cs, 0, init_state()) == Ok::<CompState, Error>(stf));
        }
        let ghost tbv = stf.tables;
        let ghost jnv = stf.joins;
        var_names.push(String::from_str("0"));
        let vars = join_strs(&var_names, ", ");
        proof {
            assert(var_names@.map_values(|s: String| s@) =~= stf.vars.var_names.push("0"@));
        }
        let n = tables.len();
        let mut parts: Vec<String> = Vec::new();
        let mut m: usize = 0;
        while m < n - 1
            invariant
                n == tables@.len(),
                n >= 1,
                m <= n - 1,
                joins@.len() == n,
                tbv == tables@.map_values(|s: String| s@),
                jnv == joins@.map_values(|v: Vec<String>| v@.map_values(|s: String| s@)),
                parts@.len() == m,
                forall|q: int|
                    0 <= q < m ==> (#[trigger] parts@[q])@ == join_parts_v(tbv, jnv)[q],
            decreases n - 1 - m,
        {
            let idx = n - 1 - m;
            let mut s = String::from_str("JOIN ");
            s.append(tables[idx].as_str());
            if joins[idx].len() == 0 {
                s.append(" ");
                proof {
                    assert(jnv[idx as int].len() == 0);
                    assert(s@ == join_clause_v(tbv[idx as int], jnv[idx as int]));
                }
            } else {
                s.append(" ON ");
                s.append(join_strs(&joins[idx], " AND ").as_str());
                proof {
                    assert(jnv[idx as int].len() != 0);
                    assert(s@ == join_clause_v(tbv[idx as int], jnv[idx as int]));
                }
            }
            parts.push(s);
            m = m + 1;
        }
        let joinq = join_strs(&parts, " ");
        proof {
            assert(parts@.map_values(|s: String| s@) =~= join_parts_v(tbv, jnv));
        }
        let mut j0 = joins.remove(0);
        wheres.append(&mut j0);
        proof {
            assert(wheres@.map_values(|s: String| s@) =~= stf.vars.wheres + jnv[0]);
        }
        let where_str = if wheres.len() == 0 {
            String::new()
        } else {
            let mut w = String::from_str("WHERE ");
            w.append(join_strs(&wheres, " AND ").as_str());
            w
        };
        proof {
            assert(where_str@ == where_str_v(stf.vars.wheres + jnv[0]));
        }
        let mut sql = String::from_str("SELECT ");
        sql.append(vars.as_str());
        sql.append(" FROM ");
        sql.append(tables[0].as_str());
        sql.append(" ");
        sql.append(joinq.as_str());
        sql.append(" ");
        sql.append(where_str.as_str());
        proof {
            assert(sql@ =~= select_sql_v(stf));
        }
        Ok(QueryPlan { sql, params, var_types })
    }
}

} // verus!
