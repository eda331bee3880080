//! The database core: the value-type registry, the in-memory catalog with
//! its cached insert templates, predicate creation and fact encoding.
//!
//! Every operation that must touch the backing store returns its backend
//! work as a plan — SQL text plus plain parameters — for a thin driver to
//! execute; everything decided here is verified.
use vstd::prelude::*;

use crate::Error;
use crate::catalog::{
    Predicate, PredicateV, create_table_sql_v, create_table_stmt, gen_insert_stmt, insert_sql_v,
    name_ok, valid_name,
};
use crate::text::str_eq;
use crate::values::{ColType, Prim, PrimV, TypeDescV, TypeDescriptor, Value, ValueV, td_wf};

verus! {

/// Whether a registry holds a type of the given name.
pub open spec fn td_has(ts: Seq<TypeDescV>, name: Seq<char>) -> bool {
    exists|i: int| 0 <= i < ts.len() && (#[trigger] ts[i]).name == name
}

/// The index of the type of the given name.
pub open spec fn td_idx(ts: Seq<TypeDescV>, name: Seq<char>) -> int {
    choose|i: int| 0 <= i < ts.len() && (#[trigger] ts[i]).name == name
}

/// The type of the given name.
pub open spec fn td_named(ts: Seq<TypeDescV>, name: Seq<char>) -> TypeDescV {
    ts[td_idx(ts, name)]
}

/// No two types share a name.
pub open spec fn td_unique(ts: Seq<TypeDescV>) -> bool {
    forall|i: int, j: int|
        0 <= i < j < ts.len() ==> (#[trigger] ts[i]).name != (#[trigger] ts[j]).name
}

/// In a registry without name clashes, a position holding the name is the
/// position the name resolves to.
pub proof fn lemma_td_idx(ts: Seq<TypeDescV>, name: Seq<char>, i: int)
    requires
        td_unique(ts),
        0 <= i < ts.len(),
        ts[i].name == name,
    ensures
        td_has(ts, name),
        td_idx(ts, name) == i,
        td_named(ts, name) == ts[i],
{
    assert(td_has(ts, name));
    let j = td_idx(ts, name);
    if j != i {
        assert(ts[i].name != ts[j].name);
    }
}

/// Whether a catalog holds a predicate of the given name.
pub open spec fn pred_has(ps: Seq<PredicateV>, name: Seq<char>) -> bool {
    exists|i: int| 0 <= i < ps.len() && (#[trigger] ps[i]).name == name
}

/// The index of the predicate of the given name.
pub open spec fn pred_idx(ps: Seq<PredicateV>, name: Seq<char>) -> int {
    choose|i: int| 0 <= i < ps.len() && (#[trigger] ps[i]).name == name
}

/// The predicate of the given name.
pub open spec fn pred_named(ps: Seq<PredicateV>, name: Seq<char>) -> PredicateV {
    ps[pred_idx(ps, name)]
}

/// No two predicates share a name.
pub open spec fn pred_unique(ps: Seq<PredicateV>) -> bool {
    forall|i: int, j: int|
        0 <= i < j < ps.len() ==> (#[trigger] ps[i]).name != (#[trigger] ps[j]).name
}

/// In a catalog without name clashes, a position holding the name is the
/// position the name resolves to.
pub proof fn lemma_pred_idx(ps: Seq<PredicateV>, name: Seq<char>, i: int)
    requires
        pred_unique(ps),
        0 <= i < ps.len(),
        ps[i].name == name,
    ensures
        pred_has(ps, name),
        pred_idx(ps, name) == i,
        pred_named(ps, name) == ps[i],
{
    assert(pred_has(ps, name));
    let j = pred_idx(ps, name);
    if j != i {
        assert(ps[i].name != ps[j].name);
    }
}

/// The built-in value types: an unsigned 64-bit integer, a variable-length
/// text string and a variable-length byte string.
pub open spec fn builtin_types_v() -> Seq<TypeDescV> {
    seq![
        TypeDescV { name: "uint64"@, cols: seq![ColType::BigInt] },
        TypeDescV { name: "string"@, cols: seq![ColType::Varchar] },
        TypeDescV { name: "blob"@, cols: seq![ColType::Bytea] },
    ]
}

/// Build a single-column type descriptor.
fn mk_td(name: &str, c: ColType) -> (r: TypeDescriptor)
    ensures
        r@ == (TypeDescV { name: name@, cols: seq![c] }),
{
    let mut cols: Vec<ColType> = Vec::new();
    cols.push(c);
    let r = TypeDescriptor { name: String::from_str(name), cols };
    proof {
        assert(r@.cols =~= seq![c]);
        assert(r@ =~= (TypeDescV { name: name@, cols: seq![c] }));
    }
    r
}

/// Type-list equality, descriptor by descriptor.
pub fn types_eq(a: &Vec<TypeDescriptor>, b: &Vec<TypeDescriptor>) -> (r: bool)
    ensures
        r == (a@.map_values(|t: TypeDescriptor| t@) == b@.map_values(|t: TypeDescriptor| t@)),
{
    let ghost av = a@.map_values(|t: TypeDescriptor| t@);
    let ghost bv = b@.map_values(|t: TypeDescriptor| t@);
    if a.len() != b.len() {
        proof {
            assert(av != bv) by {
                assert(av.len() != bv.len());
            }
        }
        return false;
    }
    let mut i: usize = 0;
    while i < a.len()
        invariant
            i <= a.len(),
            a@.len() == b@.len(),
            av == a@.map_values(|t: TypeDescriptor| t@),
            bv == b@.map_values(|t: TypeDescriptor| t@),
            forall|j: int| 0 <= j < i ==> av[j] == bv[j],
        decreases a.len() - i,
    {
        if !a[i].td_eq(&b[i]) {
            proof {
                assert(av != bv) by {
                    assert(av[i as int] != bv[i as int]);
                }
            }
            return false;
        }
        i = i + 1;
    }
    proof {
        assert(av =~= bv);
    }
    true
}

/// One persisted row of the meta-relation: predicate name, argument type
/// name, argument position.
pub struct MetaRow {
    pub pred_name: String,
    pub ty_name: String,
    pub ordinal: u64,
}

/// Mathematical model of a meta-relation row.
#[verifier::ext_equal]
pub struct MetaRowV {
    pub pred_name: Seq<char>,
    pub ty_name: Seq<char>,
    pub ordinal: u64,
}

impl View for MetaRow {
    type V = MetaRowV;

    open spec fn view(&self) -> MetaRowV {
        MetaRowV { pred_name: self.pred_name@, ty_name: self.ty_name@, ordinal: self.ordinal }
    }
}

/// The meta-relation rows persisting a predicate: one per argument, in
/// argument order.
pub open spec fn meta_rows_v(p: PredicateV) -> Seq<MetaRowV> {
    Seq::new(
        p.types.len(),
        |k: int|
            MetaRowV { pred_name: p.name, ty_name: p.types[k].name, ordinal: k as u64 },
    )
}

/// The parameterized statement writing one meta-relation row; its parameters
/// are a meta-relation row's fields, in the order of `MetaRow`.
pub fn meta_insert_sql() -> (r: &'static str)
    ensures
        r@ == "insert into predicates (pred_name, type_name, ordinal) values ($1, $2, $3)"@,
{
    "insert into predicates (pred_name, type_name, ordinal) values ($1, $2, $3)"
}

/// The backend work of registering one new predicate: the meta-relation rows
/// to write and the DDL creating the physical relation.
pub fn insert_predicate(pred: &Predicate) -> (r: (Vec<MetaRow>, String))
    ensures
        r.0@.map_values(|m: MetaRow| m@) == meta_rows_v(pred@),
        r.1@ == create_table_sql_v(pred@),
{
    let mut rows: Vec<MetaRow> = Vec::new();
    let mut i: usize = 0;
    while i < pred.types.len()
        invariant
            i <= pred.types.len(),
            i <= u64::MAX,
            rows@.len() == i,
            forall|j: int| 0 <= j < i ==> (#[trigger] rows@[j])@ == meta_rows_v(pred@)[j],
        decreases pred.types.len() - i,
    {
        rows.push(
            MetaRow {
                pred_name: pred.name.clone(),
                ty_name: pred.types[i].name.clone(),
                ordinal: i as u64,
            },
        );
        i = i + 1;
    }
    let ddl = create_table_stmt(pred);
    proof {
        assert(rows@.map_values(|m: MetaRow| m@) =~= meta_rows_v(pred@));
    }
    (rows, ddl)
}

/// What registering a predicate asks of the backend.
pub enum CreateAction {
    /// The identical predicate was already cataloged: nothing to do.
    Existing,
    /// A new predicate: write these meta-relation rows and run this DDL.
    Created { meta_rows: Vec<MetaRow>, table_ddl: String },
}

/// The database core: the value-type registry and the catalog of predicates
/// with their cached insert templates.
pub struct DbCore {
    pub types: Vec<TypeDescriptor>,
    pub preds: Vec<Predicate>,
    pub inserts: Vec<String>,
}

impl DbCore {
    /// The registered types, as models.
    pub open spec fn types_v(self) -> Seq<TypeDescV> {
        self.types@.map_values(|t: TypeDescriptor| t@)
    }

    /// The cataloged predicates, as models.
    pub open spec fn preds_v(self) -> Seq<PredicateV> {
        self.preds@.map_values(|p: Predicate| p@)
    }

    /// The cached insert templates, as models, one per cataloged predicate.
    pub open spec fn inserts_v(self) -> Seq<Seq<char>> {
        self.inserts@.map_values(|s: String| s@)
    }

    /// Well-formedness: type and predicate names are unique and non-empty,
    /// every predicate has at least one argument, and every cataloged
    /// predicate has its exact insert template cached.
    pub open spec fn wf(self) -> bool {
        &&& td_unique(self.types_v())
        &&& forall|i: int| 0 <= i < self.types_v().len() ==> td_wf(#[trigger] self.types_v()[i])
        &&& pred_unique(self.preds_v())
        &&& forall|i: int|
            0 <= i < self.preds_v().len() ==> (#[trigger] self.preds_v()[i]).types.len() >= 1
        &&& self.inserts_v().len() == self.preds_v().len()
        &&& forall|i: int|
            0 <= i < self.preds_v().len() ==> self.inserts_v()[i] == insert_sql_v(
                #[trigger] self.preds_v()[i],
            )
    }

    /// Whether a type of this name is registered.
    pub open spec fn has_type(self, name: Seq<char>) -> bool {
        td_has(self.types_v(), name)
    }

    /// The registered type of this name.
    pub open spec fn type_named(self, name: Seq<char>) -> TypeDescV {
        td_named(self.types_v(), name)
    }

    /// Whether a predicate of this name is cataloged.
    pub open spec fn has_pred(self, name: Seq<char>) -> bool {
        pred_has(self.preds_v(), name)
    }

    /// The cataloged predicate of this name.
    pub open spec fn pred_named(self, name: Seq<char>) -> PredicateV {
        pred_named(self.preds_v(), name)
    }

    /// The registry and catalog are unchanged.
    pub open spec fn unchanged(self, other: DbCore) -> bool {
        &&& self.types_v() == other.types_v()
        &&& self.preds_v() == other.preds_v()
        &&& self.inserts_v() == other.inserts_v()
    }

    /// A fresh core: the built-in types, no predicates.
    pub fn new() -> (r: DbCore)
        ensures
            r.wf(),
            r.types_v() == builtin_types_v(),
            r.preds_v() == Seq::<PredicateV>::empty(),
    {
        let mut types: Vec<TypeDescriptor> = Vec::new();
        types.push(mk_td("uint64", ColType::BigInt));
        types.push(mk_td("string", ColType::Varchar));
        types.push(mk_td("blob", ColType::Bytea));
        let r = DbCore { types, preds: Vec::new(), inserts: Vec::new() };
        proof {
            reveal_strlit("uint64");
            reveal_strlit("string");
            reveal_strlit("blob");
            assert(r.types_v() =~= builtin_types_v());
            assert(r.preds_v() =~= Seq::<PredicateV>::empty());
            assert(r.inserts_v() =~= Seq::<Seq<char>>::empty());
            assert("uint64"@ != "string"@) by {
                assert("uint64"@[0] != "string"@[0]);
            }
            assert("uint64"@ != "blob"@) by {
                assert("uint64"@.len() != "blob"@.len());
            }
            assert("string"@ != "blob"@) by {
                assert("string"@.len() != "blob"@.len());
            }
        }
        r
    }

    /// The position of the type of this name, if one is registered.
    fn find_type(&self, name: &str) -> (r: Option<usize>)
        ensures
            match r {
                Some(i) => i < self.types@.len() && self.types_v()[i as int].name == name@,
                None => !self.has_type(name@),
            },
    {
        let mut i: usize = 0;
        while i < self.types.len()
            invariant
                i <= self.types.len(),
                forall|j: int| 0 <= j < i ==> (#[trigger] self.types_v()[j]).name != name@,
            decreases self.types.len() - i,
        {
            if str_eq(self.types[i].name.as_str(), name) {
                return Some(i);
            }
            i = i + 1;
        }
        None
    }

    /// The position of the predicate of this name, if one is cataloged.
    fn find_pred(&self, name: &str) -> (r: Option<usize>)
        ensures
            match r {
                Some(i) => i < self.preds@.len() && self.preds_v()[i as int].name == name@,
                None => !self.has_pred(name@),
            },
    {
        let mut i: usize = 0;
        while i < self.preds.len()
            invariant
                i <= self.preds.len(),
                forall|j: int| 0 <= j < i ==> (#[trigger] self.preds_v()[j]).name != name@,
            decreases self.preds.len() - i,
        {
            if str_eq(self.preds[i].name.as_str(), name) {
                return Some(i);
            }
            i = i + 1;
        }
        None
    }

    /// Register a value type under its name; refuses to overwrite.
    pub fn add_type(&mut self, ty: TypeDescriptor) -> (r: Result<(), Error>)
        requires
            old(self).wf(),
            td_wf(ty@),
        ensures
            final(self).wf(),
            final(self).preds_v() == old(self).preds_v(),
            final(self).inserts_v() == old(self).inserts_v(),
            old(self).has_type(ty@.name) ==> r == Err::<(), Error>(Error::AlreadyRegistered)
                && final(self).types_v() == old(self).types_v(),
            !old(self).has_type(ty@.name) ==> r == Ok::<(), Error>(()) && final(self).types_v()
                == old(self).types_v().push(ty@),
    {
        match self.find_type(ty.name.as_str()) {
            Some(_) => Err(Error::AlreadyRegistered),
            None => {
                let ghost oldv = self.types_v();
                self.types.push(ty);
                proof {
                    assert(self.types_v() =~= oldv.push(ty@));
                }
                Ok(())
            },
        }
    }

    /// Look up a value type by name; absent is a legal result.
    pub fn get_type(&self, name: &str) -> (r: Option<TypeDescriptor>)
        requires
            self.wf(),
        ensures
            match r {
                Some(td) => self.has_type(name@) && td@ == self.type_named(name@),
                None => !self.has_type(name@),
            },
    {
        match self.find_type(name) {
            Some(i) => {
                proof {
                    lemma_td_idx(self.types_v(), name@, i as int);
                }
                Some(self.types[i].dup())
            },
            None => None,
        }
    }

    /// Fetch a cataloged predicate by name; absent is a legal result.
    pub fn get_predicate(&self, name: &str) -> (r: Option<&Predicate>)
        requires
            self.wf(),
        ensures
            match r {
                Some(p) => self.has_pred(name@) && p@ == self.pred_named(name@),
                None => !self.has_pred(name@),
            },
    {
        match self.find_pred(name) {
            Some(i) => {
                proof {
                    lemma_pred_idx(self.preds_v(), name@, i as int);
                }
                Some(&self.preds[i])
            },
            None => None,
        }
    }

    /// The cataloged predicates, in registration order.
    pub fn iter_predicates(&self) -> (r: &Vec<Predicate>)
        ensures
            r@.map_values(|p: Predicate| p@) == self.preds_v(),
    {
        &self.preds
    }

    /// Catalog a predicate. An illegal name fails `InvalidName`; re-declaring
    /// an identical predicate succeeds with nothing to do; re-declaring with
    /// different types fails `TypeMismatch`. Otherwise the predicate is
    /// cataloged, its insert template cached, and the returned action carries
    /// the meta-relation rows and the DDL the driver must run.
    pub fn new_predicate(&mut self, pred: &Predicate) -> (r: Result<CreateAction, Error>)
        requires
            old(self).wf(),
            pred@.types.len() >= 1,
        ensures
            final(self).wf(),
            final(self).types_v() == old(self).types_v(),
            !name_ok(pred@.name) ==> r == Err::<CreateAction, Error>(Error::InvalidName)
                && old(self).unchanged(*final(self)),
            name_ok(pred@.name) && old(self).has_pred(pred@.name) && old(self).pred_named(
                pred@.name,
            ).types == pred@.types ==> r == Ok::<CreateAction, Error>(CreateAction::Existing)
                && old(self).unchanged(*final(self)),
            name_ok(pred@.name) && old(self).has_pred(pred@.name) && old(self).pred_named(
                pred@.name,
            ).types != pred@.types ==> r == Err::<CreateAction, Error>(Error::TypeMismatch)
                && old(self).unchanged(*final(self)),
            name_ok(pred@.name) && !old(self).has_pred(pred@.name) ==> {
                &&& final(self).preds_v() == old(self).preds_v().push(pred@)
                &&& r matches Ok(CreateAction::Created { meta_rows, table_ddl })
                    && meta_rows@.map_values(|m: MetaRow| m@) == meta_rows_v(pred@)
                    && table_ddl@ == create_table_sql_v(pred@)
            },
    {
        if pred.name.as_str().unicode_len() == 0 || !valid_name(&pred.name) {
            return Err(Error::InvalidName);
        }
        match self.find_pred(pred.name.as_str()) {
            Some(i) => {
                proof {
                    lemma_pred_idx(self.preds_v(), pred@.name, i as int);
                }
                if types_eq(&self.preds[i].types, &pred.types) {
                    Ok(CreateAction::Existing)
                } else {
                    Err(Error::TypeMismatch)
                }
            },
            None => {
                let (meta_rows, table_ddl) = insert_predicate(pred);
                let stmt = gen_insert_stmt(pred);
                let ghost oldp = self.preds_v();
                let ghost oldi = self.inserts_v();
                self.preds.push(pred.dup());
                self.inserts.push(stmt);
                proof {
                    assert(self.preds_v() =~= oldp.push(pred@));
                    assert(self.inserts_v() =~= oldi.push(insert_sql_v(pred@)));
                    assert(self.types_v() =~= old(self).types_v());
                    assert forall|a: int, b: int|
                        0 <= a < b < self.preds_v().len() implies (#[trigger] self.preds_v()[
                        a]).name != (#[trigger] self.preds_v()[b]).name by {
                        if b == self.preds_v().len() - 1 {
                            assert(!pred_has(oldp, pred@.name));
                            assert(oldp[a].name != pred@.name);
                        }
                    }
                }
                Ok(CreateAction::Created { meta_rows, table_ddl })
            },
        }
    }
}

/// A ground tuple asserted for a predicate.
pub struct Fact {
    pub pred_name: String,
    pub args: Vec<Value>,
}

/// Mathematical model of a fact.
#[verifier::ext_equal]
pub struct FactV {
    pub pred_name: Seq<char>,
    pub args: Seq<ValueV>,
}

impl View for Fact {
    type V = FactV;

    open spec fn view(&self) -> FactV {
        FactV { pred_name: self.pred_name@, args: self.args@.map_values(|v: Value| v@) }
    }
}

/// The positional parameters of the first `k` arguments: each argument's
/// cells, concatenated in argument order.
pub open spec fn encode_args(args: Seq<ValueV>, k: int) -> Seq<PrimV>
    decreases k,
{
    if k <= 0 {
        Seq::empty()
    } else {
        encode_args(args, k - 1) + args[k - 1].prims
    }
}

/// Encode every argument into one flat parameter list.
fn encode_all(args: &Vec<Value>) -> (r: Vec<Prim>)
    ensures
        r@.map_values(|q: Prim| q@) == encode_args(
            args@.map_values(|v: Value| v@),
            args@.len() as int,
        ),
{
    let ghost av = args@.map_values(|v: Value| v@);
    let mut out: Vec<Prim> = Vec::new();
    let mut i: usize = 0;
    while i < args.len()
        invariant
            i <= args.len(),
            av == args@.map_values(|v: Value| v@),
            out@.map_values(|q: Prim| q@) == encode_args(av, i as int),
        decreases args.len() - i,
    {
        let mut e = args[i].encode();
        out.append(&mut e);
        i = i + 1;
        proof {
            assert(out@.map_values(|q: Prim| q@) =~= encode_args(av, i as int));
        }
    }
    out
}

impl DbCore {
    /// The backend work of appending one fact: the predicate's insert
    /// template and the fact's arguments encoded as positional parameters.
    /// The driver reports the fact as newly inserted exactly when the
    /// backend writes one row; a duplicate writes none.
    pub fn insert_fact(&self, fact: &Fact) -> (r: Result<(String, Vec<Prim>), Error>)
        requires
            self.wf(),
        ensures
            !self.has_pred(fact@.pred_name) ==> r == Err::<(String, Vec<Prim>), Error>(
                Error::PredicateUnregistered,
            ),
            self.has_pred(fact@.pred_name) ==> (r matches Ok(p) && p.0@ == insert_sql_v(
                self.pred_named(fact@.pred_name),
            ) && p.1@.map_values(|q: Prim| q@) == encode_args(
                fact@.args,
                fact@.args.len() as int,
            )),
    {
        match self.find_pred(fact.pred_name.as_str()) {
            None => Err(Error::PredicateUnregistered),
            Some(i) => {
                proof {
                    lemma_pred_idx(self.preds_v(), fact@.pred_name, i as int);
                }
                let stmt = self.inserts[i].clone();
                let params = encode_all(&fact.args);
                Ok((stmt, params))
            },
        }
    }
}

/// One row of the meta-relation as read back at startup, ordered by
/// predicate name and ordinal: the predicate name and the type name.
pub type CatalogRow = (String, String);

/// The models of the rows read back at startup.
pub open spec fn catalog_rows_v(rows: Seq<CatalogRow>) -> Seq<(Seq<char>, Seq<char>)> {
    rows.map_values(|t: CatalogRow| (t.0@, t.1@))
}

/// Fold one meta-relation row into the predicates being rebuilt: a new name
/// starts a predicate of one argument; a known name gains one more argument.
pub open spec fn load_step(preds: Seq<PredicateV>, name: Seq<char>, ty: TypeDescV) -> Seq<
    PredicateV,
> {
    if pred_has(preds, name) {
        preds.update(
            pred_idx(preds, name),
            PredicateV { name: name, types: preds[pred_idx(preds, name)].types.push(ty) },
        )
    } else {
        preds.push(PredicateV { name: name, types: seq![ty] })
    }
}

/// Rebuild predicates from the meta-relation rows at position `i` on, each
/// type name resolved against the registry; an unknown name fails.
pub open spec fn load_rows(
    reg: Seq<TypeDescV>,
    preds: Seq<PredicateV>,
    rows: Seq<(Seq<char>, Seq<char>)>,
    i: int,
) -> Result<Seq<PredicateV>, Error>
    decreases rows.len() - i,
{
    if i < 0 || i >= rows.len() {
        Ok(preds)
    } else if !td_has(reg, rows[i].1) {
        Err(Error::UnknownType)
    } else {
        load_rows(reg, load_step(preds, rows[i].0, td_named(reg, rows[i].1)), rows, i + 1)
    }
}

/// The position of the predicate of this name in a plain list, if present.
fn find_pred_in(v: &Vec<Predicate>, name: &str) -> (r: Option<usize>)
    ensures
        match r {
            Some(i) => i < v@.len() && v@.map_values(|p: Predicate| p@)[i as int].name == name@,
            None => !pred_has(v@.map_values(|p: Predicate| p@), name@),
        },
{
    let mut i: usize = 0;
    while i < v.len()
        invariant
            i <= v.len(),
            forall|j: int| 0 <= j < i ==> (#[trigger] v@[j])@.name != name@,
        decreases v.len() - i,
    {
        if str_eq(v[i].name.as_str(), name) {
            return Some(i);
        }
        i = i + 1;
    }
    proof {
        let mv = v@.map_values(|p: Predicate| p@);
        if pred_has(mv, name@) {
            let w = choose|j: int| 0 <= j < mv.len() && (#[trigger] mv[j]).name == name@;
            assert(mv[w] == v@[w]@);
        }
    }
    None
}

impl DbCore {
    /// Rebuild the catalog from the meta-relation rows, ordered by predicate
    /// name and ordinal, and cache an insert template per predicate. A type
    /// name missing from the registry fails `UnknownType` and leaves the
    /// core unchanged.
    pub fn load_catalog(&mut self, rows: &Vec<CatalogRow>) -> (r: Result<(), Error>)
        requires
            old(self).wf(),
        ensures
            final(self).wf(),
            final(self).types_v() == old(self).types_v(),
            match load_rows(
                old(self).types_v(),
                old(self).preds_v(),
                catalog_rows_v(rows@),
                0,
            ) {
                Ok(ps) => r == Ok::<(), Error>(()) && final(self).preds_v() == ps,
                Err(e) => r == Err::<(), Error>(e) && old(self).unchanged(*final(self)),
            },
    {
        let ghost regv = self.types_v();
        let ghost rowsv = catalog_rows_v(rows@);
        let ghost preds0 = self.preds_v();
        let mut newpreds: Vec<Predicate> = Vec::new();
        let mut i: usize = 0;
        while i < self.preds.len()
            invariant
                *self == *old(self),
                i <= self.preds@.len(),
                newpreds@.len() == i,
                forall|j: int| 0 <= j < i ==> (#[trigger] newpreds@[j])@ == self.preds_v()[j],
            decreases self.preds@.len() - i,
        {
            newpreds.push(self.preds[i].dup());
            i = i + 1;
        }
        proof {
            assert(newpreds@.map_values(|p: Predicate| p@) =~= preds0);
        }
        let mut k: usize = 0;
        while k < rows.len()
            invariant
                *self == *old(self),
                k <= rows@.len(),
                regv == self.types_v(),
                rowsv == catalog_rows_v(rows@),
                preds0 == self.preds_v(),
                self.wf(),
                pred_unique(newpreds@.map_values(|p: Predicate| p@)),
                forall|j: int| 0 <= j < newpreds@.len() ==> (#[trigger] newpreds@[j])@.types.len()
                    >= 1,
                load_rows(regv, preds0, rowsv, 0) == load_rows(
                    regv,
                    newpreds@.map_values(|p: Predicate| p@),
                    rowsv,
                    k as int,
                ),
            decreases rows@.len() - k,
        {
            let ghost npv = newpreds@.map_values(|p: Predicate| p@);
            proof {
                assert(rowsv[k as int] == (rows@[k as int].0@, rows@[k as int].1@));
            }
            match self.get_type(rows[k].1.as_str()) {
                None => {
                    proof {
                        assert(load_rows(regv, npv, rowsv, k as int) == Err::<
                            Seq<PredicateV>,
                            Error,
                        >(Error::UnknownType));
                    }
                    return Err(Error::UnknownType);
                },
                Some(ty) => {
                    proof {
                        assert(ty@ == td_named(regv, rowsv[k as int].1));
                    }
                    match find_pred_in(&newpreds, rows[k].0.as_str()) {
                        Some(j) => {
                            proof {
                                lemma_pred_idx(npv, rowsv[k as int].0, j as int);
                            }
                            let ghost before = newpreds@;
                            let mut p = newpreds.remove(j);
                            p.types.push(ty);
                            newpreds.insert(j, p);
                            proof {
                                assert(p@.types =~= npv[j as int].types.push(ty@));
                                assert(p@ =~= (PredicateV {
                                    name: rowsv[k as int].0,
                                    types: npv[j as int].types.push(ty@),
                                }));
                                assert(newpreds@ =~= before.update(j as int, p));
                                assert(newpreds@.map_values(|p: Predicate| p@) =~= load_step(
                                    npv,
                                    rowsv[k as int].0,
                                    td_named(regv, rowsv[k as int].1),
                                ));
                            }
                        },
                        None => {
                            let mut ts: Vec<TypeDescriptor> = Vec::new();
                            ts.push(ty);
                            newpreds.push(Predicate { name: rows[k].0.clone(), types: ts });
                            proof {
                                let np = newpreds@.map_values(|p: Predicate| p@);
                                assert(np[np.len() - 1].types =~= seq![
                                    td_named(regv, rowsv[k as int].1),
                                ]);
                                assert(np =~= load_step(
                                    npv,
                                    rowsv[k as int].0,
                                    td_named(regv, rowsv[k as int].1),
                                ));
                                assert forall|a: int, b: int| 0 <= a < b < np.len() implies (
                                #[trigger] np[a]).name != (#[trigger] np[b]).name by {
                                    if b == np.len() - 1 {
                                        assert(!pred_has(npv, rowsv[k as int].0));
                                        assert(npv[a].name != rowsv[k as int].0);
                                    }
                                }
                            }
                        },
                    }
                    k = k + 1;
                },
            }
        }
        self.preds = newpreds;
        let ghost finalp = self.preds_v();
        let mut ins: Vec<String> = Vec::new();
        let mut m: usize = 0;
        while m < self.preds.len()
            invariant
                m <= self.preds@.len(),
                regv == self.types_v(),
                finalp == self.preds_v(),
                ins@.len() == m,
                forall|j: int|
                    0 <= j < m ==> (#[trigger] ins@[j])@ == insert_sql_v(self.preds_v()[j]),
            decreases self.preds@.len() - m,
        {
            ins.push(gen_insert_stmt(&self.preds[m]));
            m = m + 1;
        }
        self.inserts = ins;
        Ok(())
    }
}

/// The DDL ensuring the schema holding the physical relations exists.
pub fn create_schema_sql() -> (r: &'static str)
    ensures
        r@ == "create schema if not exists facts"@,
{
    "create schema if not exists facts"
}

/// The DDL ensuring the meta-relation exists; duplicate positions are ruled
/// out so the catalog rebuilt at startup is well formed.
pub fn create_meta_table_sql() -> (r: &'static str)
    ensures
        r@
            == "create table if not exists predicates (pred_name varchar not null, ordinal int4 not null, type_name varchar not null, unique (pred_name, ordinal))"@,
{
    "create table if not exists predicates (pred_name varchar not null, ordinal int4 not null, type_name varchar not null, unique (pred_name, ordinal))"
}

/// The DDL ensuring the reserved rule store exists; the core does not
/// interpret it.
pub fn create_rules_table_sql() -> (r: &'static str)
    ensures
        r@ == "create table if not exists rules (id serial, rule varchar not null)"@,
{
    "create table if not exists rules (id serial, rule varchar not null)"
}

/// The query reading the meta-relation back, ordered by predicate name and
/// ordinal.
pub fn catalog_select_sql() -> (r: &'static str)
    ensures
        r@ == "select pred_name, type_name from predicates ORDER BY pred_name, ordinal"@,
{
    "select pred_name, type_name from predicates ORDER BY pred_name, ordinal"
}

/// The meta-relation rows of one predicate, as read back at startup:
/// the pairs of predicate name and type name, in ordinal order.
pub open spec fn meta_pairs_v(p: PredicateV) -> Seq<(Seq<char>, Seq<char>)> {
    Seq::new(p.types.len(), |k: int| (p.name, p.types[k].name))
}

/// What is read back of a written meta-relation row is its name pair:
/// reading the rows of one predicate in ordinal order yields its pairs.
pub proof fn lemma_meta_rows_pairs(p: PredicateV, k: int)
    requires
        0 <= k < p.types.len(),
    ensures
        meta_pairs_v(p)[k] == (meta_rows_v(p)[k].pred_name, meta_rows_v(p)[k].ty_name),
        meta_rows_v(p)[k].ordinal == k as u64,
{
}

/// The predicate cut down to its first `k` argument types.
pub open spec fn pred_prefix(p: PredicateV, k: int) -> PredicateV {
    PredicateV { name: p.name, types: p.types.take(k) }
}

proof fn lemma_load_rows_of_pred(reg: Seq<TypeDescV>, p: PredicateV, k: int)
    requires
        td_unique(reg),
        1 <= k <= p.types.len(),
        forall|m: int|
            0 <= m < p.types.len() ==> td_has(reg, (#[trigger] p.types[m]).name) && td_named(
                reg,
                p.types[m].name,
            ) == p.types[m],
    ensures
        load_rows(reg, seq![pred_prefix(p, k)], meta_pairs_v(p), k) == Ok::<
            Seq<PredicateV>,
            Error,
        >(seq![p]),
    decreases p.types.len() - k,
{
    if k == p.types.len() {
        assert(pred_prefix(p, k).types =~= p.types);
        assert(pred_prefix(p, k) =~= p);
        assert(seq![pred_prefix(p, k)] =~= seq![p]);
    } else {
        let cur = seq![pred_prefix(p, k)];
        assert(meta_pairs_v(p)[k] == (p.name, p.types[k].name));
        assert(td_has(reg, p.types[k].name));
        assert(pred_has(cur, p.name)) by {
            assert(cur[0].name == p.name);
        }
        let j = pred_idx(cur, p.name);
        assert(j == 0);
        let stepped = load_step(cur, p.name, td_named(reg, p.types[k].name));
        assert(stepped[0].types =~= p.types.take(k + 1)) by {
            assert(pred_prefix(p, k).types.push(p.types[k]) =~= p.types.take(k + 1));
        }
        assert(stepped =~= seq![pred_prefix(p, k + 1)]);
        lemma_load_rows_of_pred(reg, p, k + 1);
    }
}

/// Persistence. Re-loading the meta-relation rows written when a predicate
/// was created — against a registry that resolves each of its type names to
/// the same descriptor — rebuilds exactly that predicate, with its arity and
/// types intact.
pub proof fn lemma_persistence(reg: Seq<TypeDescV>, p: PredicateV)
    requires
        td_unique(reg),
        p.types.len() >= 1,
        forall|m: int|
            0 <= m < p.types.len() ==> td_has(reg, (#[trigger] p.types[m]).name) && td_named(
                reg,
                p.types[m].name,
            ) == p.types[m],
    ensures
        load_rows(reg, Seq::empty(), meta_pairs_v(p), 0) == Ok::<Seq<PredicateV>, Error>(
            seq![p],
        ),
{
    let rows = meta_pairs_v(p);
    assert(rows[0] == (p.name, p.types[0].name));
    assert(!pred_has(Seq::<PredicateV>::empty(), p.name));
    let stepped = load_step(Seq::empty(), p.name, td_named(reg, p.types[0].name));
    assert(stepped[0].types =~= p.types.take(1)) by {
        assert(seq![p.types[0]] =~= p.types.take(1));
    }
    assert(stepped =~= seq![pred_prefix(p, 1)]);
    lemma_load_rows_of_pred(reg, p, 1);
}

/// Catalog completeness: every cataloged predicate has its insert template
/// cached, and that template is exactly the parameterized insert into the
/// predicate's physical relation.
pub proof fn lemma_catalog_completeness(c: DbCore, name: Seq<char>)
    requires
        c.wf(),
        c.has_pred(name),
    ensures
        0 <= pred_idx(c.preds_v(), name) < c.inserts_v().len(),
        c.inserts_v()[pred_idx(c.preds_v(), name)] == insert_sql_v(c.pred_named(name)),
{
    let i = pred_idx(c.preds_v(), name);
    assert(0 <= i < c.preds_v().len());
}

} // verus!
