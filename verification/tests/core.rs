//! End-to-end tests of the core logic: the registry, the catalog, predicate
//! creation, fact encoding, query compilation and answer decoding.
use fact_db::Error;
use fact_db::answers::{answers_from_rows, dedup_answers};
use fact_db::catalog::{Predicate, gen_insert_stmt, valid_name};
use fact_db::db::{CreateAction, DbCore};
use fact_db::query::{Clause, MatchSlot};
use fact_db::text::{join_strs, str_eq, u64_dec};
use fact_db::values::{ColType, Prim, TypeDescriptor, Value, decode};
use fact_db::{fact_inserted, fact_response, pred_response, search_response};
use fact_db::{FactResponse, PredResponse, SearchResponse};

fn ty(db: &DbCore, name: &str) -> TypeDescriptor {
    match db.get_type(name) {
        Some(t) => t,
        None => panic!("builtin type missing"),
    }
}

fn test_pred(db: &DbCore) -> Predicate {
    Predicate {
        name: "test_pred".to_string(),
        types: vec![ty(db, "string"), ty(db, "blob"), ty(db, "uint64")],
    }
}

fn text_val(s: &str) -> Value {
    Value { ty_name: "string".to_string(), prims: vec![Prim::Text(s.to_string())] }
}

fn blob_val(b: Vec<u8>) -> Value {
    Value { ty_name: "blob".to_string(), prims: vec![Prim::Bytes(b)] }
}

fn uint_val(n: u64) -> Value {
    Value { ty_name: "uint64".to_string(), prims: vec![Prim::U64(n)] }
}

#[test]
fn builtins_present() {
    let db = DbCore::new();
    assert!(db.get_type("uint64").is_some());
    assert!(db.get_type("string").is_some());
    assert!(db.get_type("blob").is_some());
    assert!(db.get_type("timestamp").is_none());
}

#[test]
fn add_type_refuses_duplicate() {
    let mut db = DbCore::new();
    let again = ty(&db, "uint64");
    assert!(matches!(db.add_type(again), Err(Error::AlreadyRegistered)));
    let fresh = TypeDescriptor { name: "pair".to_string(), cols: ty(&db, "uint64").cols };
    assert!(db.add_type(fresh).is_ok());
    assert!(db.get_type("pair").is_some());
}

#[test]
fn create_predicate_basics() {
    let mut db = DbCore::new();
    let p = test_pred(&db);
    let first = db.new_predicate(&p);
    match &first {
        Ok(CreateAction::Created { meta_rows, table_ddl }) => {
            assert_eq!(meta_rows.len(), 3);
            assert_eq!(meta_rows[0].pred_name, "test_pred");
            assert_eq!(meta_rows[0].ty_name, "string");
            assert_eq!(meta_rows[0].ordinal, 0);
            assert_eq!(meta_rows[2].ty_name, "uint64");
            assert_eq!(meta_rows[2].ordinal, 2);
            assert_eq!(
                table_ddl,
                "create table facts.test_pred (arg0 varchar, arg1 bytea, arg2 int8, \
                 unique (arg0, arg1, arg2))"
            );
        },
        _ => panic!("first registration must create the predicate"),
    }
    assert!(matches!(pred_response(&first), PredResponse::PredicateCreated));

    // registering the identical declaration again succeeds silently
    let second = db.new_predicate(&test_pred(&db));
    assert!(matches!(second, Ok(CreateAction::Existing)));
    assert!(matches!(pred_response(&second), PredResponse::PredicateExists));

    // registering with different types fails
    let clash = Predicate {
        name: "test_pred".to_string(),
        types: vec![ty(&db, "string"), ty(&db, "string"), ty(&db, "string")],
    };
    let third = db.new_predicate(&clash);
    assert!(matches!(third, Err(Error::TypeMismatch)));
    assert!(matches!(pred_response(&third), PredResponse::PredicateTypeMismatch));
}

#[test]
fn invalid_name_rejected() {
    let mut db = DbCore::new();
    let p = Predicate { name: "Test_Pred".to_string(), types: vec![ty(&db, "string")] };
    let r = db.new_predicate(&p);
    assert!(matches!(r, Err(Error::InvalidName)));
    assert!(matches!(pred_response(&r), PredResponse::PredicateInvalid(_)));
    let empty = Predicate { name: String::new(), types: vec![ty(&db, "string")] };
    assert!(matches!(db.new_predicate(&empty), Err(Error::InvalidName)));
}

#[test]
fn valid_name_checks_characters() {
    assert!(valid_name(&"foo_bar".to_string()));
    assert!(!valid_name(&"Foo".to_string()));
    assert!(!valid_name(&"foo1".to_string()));
    assert!(!valid_name(&"foo-bar".to_string()));
}

#[test]
fn insert_template_cached() {
    let mut db = DbCore::new();
    let p = test_pred(&db);
    assert!(db.new_predicate(&p).is_ok());
    assert_eq!(
        gen_insert_stmt(&p),
        "insert into facts.test_pred values ($1, $2, $3) on conflict do nothing"
    );
    let fact = fact_db::db::Fact {
        pred_name: "test_pred".to_string(),
        args: vec![text_val("foo"), blob_val(vec![0x00]), uint_val(16)],
    };
    match db.insert_fact(&fact) {
        Ok((sql, params)) => {
            assert_eq!(sql, "insert into facts.test_pred values ($1, $2, $3) on conflict do nothing");
            assert_eq!(params.len(), 3);
            assert!(matches!(&params[0], Prim::Text(t) if t == "foo"));
            assert!(matches!(&params[1], Prim::Bytes(b) if b == &vec![0x00u8]));
            assert!(matches!(&params[2], Prim::U64(16)));
        },
        Err(_) => panic!("insert against a cataloged predicate must produce a plan"),
    }
}

#[test]
fn insert_fact_unregistered() {
    let db = DbCore::new();
    let fact = fact_db::db::Fact { pred_name: "nope".to_string(), args: vec![uint_val(1)] };
    let r = db.insert_fact(&fact);
    assert!(matches!(r, Err(Error::PredicateUnregistered)));
    let rr: Result<bool, Error> = Err(Error::PredicateUnregistered);
    assert!(matches!(fact_response(&rr), FactResponse::FactPredUnreg(_)));
}

#[test]
fn fact_inserted_from_row_count() {
    assert!(fact_inserted(1));
    assert!(!fact_inserted(0));
    assert!(matches!(fact_response(&Ok(true)), FactResponse::FactCreated));
    assert!(matches!(fact_response(&Ok(false)), FactResponse::FactExists));
}

#[test]
fn pred_persist() {
    // create the predicate on one handle, replay its meta rows on a fresh one
    let mut db = DbCore::new();
    let rows = match db.new_predicate(&test_pred(&db)) {
        Ok(CreateAction::Created { meta_rows, .. }) => meta_rows,
        _ => panic!("first registration must create the predicate"),
    };
    let replay: Vec<(String, String)> =
        rows.into_iter().map(|m| (m.pred_name, m.ty_name)).collect();

    let mut db2 = DbCore::new();
    assert!(db2.load_catalog(&replay).is_ok());
    let loaded = db2.get_predicate("test_pred").expect("predicate must survive a reopen");
    assert_eq!(loaded.types.len(), 3);
    assert_eq!(loaded.types[0].name, "string");
    assert_eq!(loaded.types[1].name, "blob");
    assert_eq!(loaded.types[2].name, "uint64");

    // the incompatible re-declaration still fails after the reopen
    let clash = Predicate {
        name: "test_pred".to_string(),
        types: vec![ty(&db2, "string"), ty(&db2, "string"), ty(&db2, "string")],
    };
    assert!(matches!(db2.new_predicate(&clash), Err(Error::TypeMismatch)));
    // and the identical one is still a silent success
    assert!(matches!(db2.new_predicate(&test_pred(&db2)), Ok(CreateAction::Existing)));
}

#[test]
fn load_catalog_unknown_type() {
    let mut db = DbCore::new();
    let rows = vec![("p".to_string(), "string".to_string()), ("p".to_string(), "mystery".to_string())];
    assert!(matches!(db.load_catalog(&rows), Err(Error::UnknownType)));
    assert!(db.get_predicate("p").is_none());
}

#[test]
fn empty_query_fails() {
    let db = DbCore::new();
    let r = db.search_facts(&vec![]);
    assert!(matches!(r, Err(Error::EmptyQuery)));
    let resp = search_response(r.map(|_| vec![]));
    assert!(matches!(resp, SearchResponse::SearchInvalid));
}

#[test]
fn unknown_predicate_fails() {
    let db = DbCore::new();
    let q = vec![Clause { pred_name: "nope".to_string(), slots: vec![MatchSlot::Wildcard] }];
    assert!(matches!(db.search_facts(&q), Err(Error::UnknownPredicate)));
}

#[test]
fn numbering_hole_fails() {
    let mut db = DbCore::new();
    assert!(db.new_predicate(&test_pred(&db)).is_ok());
    // no variable 0 has been seen when 1 appears
    let q = vec![Clause {
        pred_name: "test_pred".to_string(),
        slots: vec![MatchSlot::Wildcard, MatchSlot::Wildcard, MatchSlot::Var(1)],
    }];
    assert!(matches!(db.search_facts(&q), Err(Error::NumberingHole)));
}

#[test]
fn unify_incompatible_types_fails() {
    let mut db = DbCore::new();
    assert!(db.new_predicate(&test_pred(&db)).is_ok());
    // variable 0 is first seen on a string column, then reused on a uint64 one
    let q = vec![Clause {
        pred_name: "test_pred".to_string(),
        slots: vec![MatchSlot::Var(0), MatchSlot::Wildcard, MatchSlot::Var(0)],
    }];
    assert!(matches!(db.search_facts(&q), Err(Error::TypeMismatch)));
}

#[test]
fn where_const() {
    // one clause: a constant, a wildcard, one variable
    let mut db = DbCore::new();
    assert!(db.new_predicate(&test_pred(&db)).is_ok());
    let q = vec![Clause {
        pred_name: "test_pred".to_string(),
        slots: vec![
            MatchSlot::Const(text_val("foo")),
            MatchSlot::Wildcard,
            MatchSlot::Var(0),
        ],
    }];
    let plan = match db.search_facts(&q) {
        Ok(p) => p,
        Err(_) => panic!("the query is well formed"),
    };
    assert_eq!(plan.sql, "SELECT t0.arg2, 0 FROM facts.test_pred as t0  WHERE t0.arg0 = $1");
    assert_eq!(plan.params.len(), 1);
    assert!(matches!(&plan.params[0], Prim::Text(t) if t == "foo"));
    assert_eq!(plan.var_types.len(), 1);
    assert_eq!(plan.var_types[0].name, "uint64");

    // the backend returns one row holding 16; the one answer is [16]
    let rows = vec![vec![Prim::U64(16)]];
    let answers = match answers_from_rows(&plan.var_types, &rows) {
        Ok(a) => a,
        Err(_) => panic!("the row decodes"),
    };
    assert_eq!(answers.len(), 1);
    assert_eq!(answers[0].len(), 1);
    assert!(answers[0][0].value_eq(&uint_val(16)));
}

#[test]
fn join_with_shared_variable() {
    let mut db = DbCore::new();
    assert!(db.new_predicate(&test_pred(&db)).is_ok());
    let q = vec![
        Clause {
            pred_name: "test_pred".to_string(),
            slots: vec![
                MatchSlot::Const(text_val("bar")),
                MatchSlot::Var(0),
                MatchSlot::Var(1),
            ],
        },
        Clause {
            pred_name: "test_pred".to_string(),
            slots: vec![
                MatchSlot::Const(text_val("foo")),
                MatchSlot::Wildcard,
                MatchSlot::Var(1),
            ],
        },
    ];
    let plan = match db.search_facts(&q) {
        Ok(p) => p,
        Err(_) => panic!("the query is well formed"),
    };
    assert_eq!(
        plan.sql,
        "SELECT t0.arg1, t0.arg2, 0 FROM facts.test_pred as t0 \
         JOIN facts.test_pred as t1 ON t1.arg2 = t0.arg2 \
         WHERE t0.arg0 = $1 AND t1.arg0 = $2"
    );
    assert_eq!(plan.params.len(), 2);
    assert!(matches!(&plan.params[0], Prim::Text(t) if t == "bar"));
    assert!(matches!(&plan.params[1], Prim::Text(t) if t == "foo"));
    assert_eq!(plan.var_types.len(), 2);
    assert_eq!(plan.var_types[0].name, "blob");
    assert_eq!(plan.var_types[1].name, "uint64");

    // the expected single answer: [[0x02, 0x02], 42]
    let rows = vec![vec![Prim::Bytes(vec![0x02, 0x02]), Prim::U64(42)]];
    let answers = match answers_from_rows(&plan.var_types, &rows) {
        Ok(a) => a,
        Err(_) => panic!("the row decodes"),
    };
    assert_eq!(answers.len(), 1);
    assert_eq!(answers[0].len(), 2);
    assert!(answers[0][0].value_eq(&blob_val(vec![0x02, 0x02])));
    assert!(answers[0][1].value_eq(&uint_val(42)));
}

#[test]
fn cartesian_join_without_shared_variable() {
    let mut db = DbCore::new();
    assert!(db.new_predicate(&test_pred(&db)).is_ok());
    let q = vec![
        Clause {
            pred_name: "test_pred".to_string(),
            slots: vec![MatchSlot::Var(0), MatchSlot::Wildcard, MatchSlot::Wildcard],
        },
        Clause {
            pred_name: "test_pred".to_string(),
            slots: vec![MatchSlot::Wildcard, MatchSlot::Var(1), MatchSlot::Wildcard],
        },
    ];
    let plan = db.search_facts(&q).expect("the query is well formed");
    assert_eq!(
        plan.sql,
        "SELECT t0.arg0, t1.arg1, 0 FROM facts.test_pred as t0 JOIN facts.test_pred as t1  "
    );
}

#[test]
fn answers_deduplicated() {
    let a = || vec![uint_val(42)];
    let b = || vec![uint_val(7)];
    let rows = vec![a(), a(), b(), a(), b()];
    let out = dedup_answers(&rows);
    assert_eq!(out.len(), 2);
    assert!(out[0][0].value_eq(&uint_val(42)));
    assert!(out[1][0].value_eq(&uint_val(7)));

    // through the row decoder as well: equal rows collapse to one answer
    let db = DbCore::new();
    let types = vec![ty(&db, "uint64")];
    let raw = vec![vec![Prim::U64(42)], vec![Prim::U64(42)]];
    let answers = answers_from_rows(&types, &raw).expect("rows decode");
    assert_eq!(answers.len(), 1);
}

#[test]
fn decode_error_on_bad_row() {
    let db = DbCore::new();
    let types = vec![ty(&db, "uint64")];
    // wrong kind
    let r = answers_from_rows(&types, &vec![vec![Prim::Text("x".to_string())]]);
    assert!(matches!(r, Err(Error::DecodeError)));
    // too short
    let r2 = answers_from_rows(&types, &vec![vec![]]);
    assert!(matches!(r2, Err(Error::DecodeError)));
    // trailing cells beyond the variable types are ignored (the sentinel column)
    let r3 = answers_from_rows(&types, &vec![vec![Prim::U64(3), Prim::U64(0)]]);
    assert!(r3.is_ok());
}

#[test]
fn round_trip_encoding() {
    let db = DbCore::new();
    for (name, v) in [
        ("string", text_val("foo")),
        ("blob", blob_val(vec![1, 2, 3])),
        ("uint64", uint_val(123456789)),
    ] {
        let td = ty(&db, name);
        let cells = v.encode();
        let (back, used) = decode(&td, &cells, 0).expect("the encoding decodes");
        assert_eq!(used, td.cols.len());
        assert!(back.value_eq(&v));
    }
}

#[test]
fn search_response_shapes() {
    assert!(matches!(search_response(Ok(vec![])), SearchResponse::SearchNone));
    let one = vec![vec![uint_val(1)]];
    assert!(matches!(search_response(Ok(one)), SearchResponse::SearchAns(a) if a.len() == 1));
    assert!(matches!(
        search_response(Err(Error::BackendError("down".to_string()))),
        SearchResponse::SearchFail(s) if s == "down"
    ));
}

#[test]
fn load_catalog_groups_by_name() {
    let mut db = DbCore::new();
    let rows = vec![
        ("parent".to_string(), "uint64".to_string()),
        ("parent".to_string(), "string".to_string()),
        ("tag".to_string(), "blob".to_string()),
    ];
    assert!(db.load_catalog(&rows).is_ok());
    let parent = db.get_predicate("parent").expect("loaded");
    assert_eq!(parent.types.len(), 2);
    assert_eq!(parent.types[0].name, "uint64");
    assert_eq!(parent.types[1].name, "string");
    let tag = db.get_predicate("tag").expect("loaded");
    assert_eq!(tag.types.len(), 1);
    assert_eq!(tag.types[0].name, "blob");
}

#[test]
fn multi_column_type_round_trip() {
    let td = TypeDescriptor {
        name: "pair".to_string(),
        cols: vec![ColType::BigInt, ColType::Varchar],
    };
    let v = Value {
        ty_name: "pair".to_string(),
        prims: vec![Prim::U64(7), Prim::Text("seven".to_string())],
    };
    let cells = v.encode();
    assert_eq!(cells.len(), 2);
    let (back, used) = decode(&td, &cells, 0).expect("the encoding decodes");
    assert_eq!(used, 2);
    assert!(back.value_eq(&v));
    // a cursor not at the start reads the same value after a leading cell
    let mut shifted = vec![Prim::Bytes(vec![9])];
    shifted.extend(v.encode());
    let (back2, used2) = decode(&td, &shifted, 1).expect("offset decode works");
    assert_eq!(used2, 3);
    assert!(back2.value_eq(&v));
}

#[test]
fn decimal_rendering() {
    assert_eq!(u64_dec(0), "0");
    assert_eq!(u64_dec(10), "10");
    assert_eq!(u64_dec(4097), "4097");
    assert_eq!(u64_dec(u64::MAX), "18446744073709551615");
    assert!(str_eq("abc", "abc"));
    assert!(!str_eq("abc", "abd"));
    assert!(!str_eq("abc", "ab"));
    let parts = vec!["a".to_string(), "b".to_string(), "c".to_string()];
    assert_eq!(join_strs(&parts, ", "), "a, b, c");
    assert_eq!(join_strs(&vec![], ", "), "");
}

#[test]
fn predicate_equality_checks_columns() {
    // two types under different names but the same columns are distinct
    let mut db = DbCore::new();
    let mut named = ty(&db, "string");
    named.name = "word".to_string();
    assert!(db.add_type(named).is_ok());
    let p = Predicate { name: "labels".to_string(), types: vec![ty(&db, "string")] };
    assert!(matches!(db.new_predicate(&p), Ok(CreateAction::Created { .. })));
    let q = Predicate { name: "labels".to_string(), types: vec![ty(&db, "word")] };
    assert!(matches!(db.new_predicate(&q), Err(Error::TypeMismatch)));
}

#[test]
fn iter_predicates_in_order() {
    let mut db = DbCore::new();
    assert!(db.new_predicate(&test_pred(&db)).is_ok());
    let another = Predicate { name: "tag".to_string(), types: vec![ty(&db, "blob")] };
    assert!(db.new_predicate(&another).is_ok());
    let all = db.iter_predicates();
    assert_eq!(all.len(), 2);
    assert_eq!(all[0].name, "test_pred");
    assert_eq!(all[1].name, "tag");
}

#[test]
fn multi_column_type_insert_template() {
    // a type stored over two physical columns: the template, the relation
    // and the encoded parameters all count physical columns, not arguments
    let mut db = DbCore::new();
    let pair = TypeDescriptor {
        name: "pair".to_string(),
        cols: vec![ColType::BigInt, ColType::Varchar],
    };
    assert!(db.add_type(pair).is_ok());
    let p = Predicate {
        name: "scored".to_string(),
        types: vec![ty(&db, "pair"), ty(&db, "uint64")],
    };
    let created = db.new_predicate(&p);
    match &created {
        Ok(CreateAction::Created { table_ddl, .. }) => {
            assert_eq!(
                table_ddl,
                "create table facts.scored (arg0 int8, arg1 varchar, arg2 int8, \
                 unique (arg0, arg1, arg2))"
            );
        },
        _ => panic!("first registration must create the predicate"),
    }
    assert_eq!(
        gen_insert_stmt(&p),
        "insert into facts.scored values ($1, $2, $3) on conflict do nothing"
    );
    let fact = fact_db::db::Fact {
        pred_name: "scored".to_string(),
        args: vec![
            Value {
                ty_name: "pair".to_string(),
                prims: vec![Prim::U64(9), Prim::Text("nine".to_string())],
            },
            uint_val(3),
        ],
    };
    let (sql, params) = db.insert_fact(&fact).expect("the plan is produced");
    assert_eq!(sql, "insert into facts.scored values ($1, $2, $3) on conflict do nothing");
    assert_eq!(params.len(), 3);
}
