//! Core of a persistent, typed fact database with a Datalog-style query
//! language. Facts are tuples of typed values attached to a named predicate;
//! queries are conjunctions of clauses whose slots are wildcards, variables
//! or constants. This crate holds the verified logic: the value-type
//! registry, the catalog, the query compiler and the answer decoder. All
//! interaction with the backing relational store is expressed as plans
//! (SQL text plus positional parameters) that a thin driver executes.
use vstd::prelude::*;

pub mod answers;
pub mod catalog;
pub mod db;
pub mod query;
pub mod text;
pub mod values;

verus! {

/// Every failure the core can report, distinguishable by the caller.
#[derive(Debug)]
pub enum Error {
    /// A query with zero clauses.
    EmptyQuery,
    /// A predicate name not matching `[a-z_]+`.
    InvalidName,
    /// A variable introduced with a number above the next free one.
    NumberingHole,
    /// A clause names a predicate missing from the catalog.
    UnknownPredicate,
    /// A predicate re-declared with different types, or a variable unified
    /// against two different column types.
    TypeMismatch,
    /// A fact names a predicate with no cached insert template.
    PredicateUnregistered,
    /// A persisted predicate references a type name missing from the registry.
    UnknownType,
    /// A type registered under a name already taken.
    AlreadyRegistered,
    /// A transport- or SQL-level failure, reported by the driver.
    BackendError(String),
    /// A row inconsistent with the expected column types.
    DecodeError,
    /// A broken internal invariant; unreachable from verified code.
    Internal(String),
}

/// The outcome of registering a predicate, as reported to collaborators.
pub enum PredResponse {
    PredicateCreated,
    PredicateExists,
    PredicateTypeMismatch,
    PredicateInvalid(String),
    PredFail(String),
}

/// The outcome of asserting a fact, as reported to collaborators.
pub enum FactResponse {
    FactCreated,
    FactExists,
    FactTypeMismatch,
    FactPredUnreg(String),
    FactFail(String),
}

/// The outcome of a search, as reported to collaborators.
pub enum SearchResponse {
    SearchNone,
    SearchAns(Vec<Vec<values::Value>>),
    SearchInvalid,
    SearchFail(String),
}

/// Whether the backend's row count reports a newly inserted fact: exactly
/// when at least one row was written; a duplicate writes none.
pub fn fact_inserted(rows_affected: u64) -> (r: bool)
    ensures
        r == (rows_affected > 0),
{
    rows_affected > 0
}

/// The response for a predicate registration outcome.
pub fn pred_response(r: &Result<db::CreateAction, Error>) -> (out: PredResponse)
    ensures
        (r matches Ok(db::CreateAction::Created { .. })) == (out is PredicateCreated),
        (r matches Ok(db::CreateAction::Existing)) == (out is PredicateExists),
        (r matches Err(Error::TypeMismatch)) == (out is PredicateTypeMismatch),
        (r matches Err(Error::InvalidName)) == (out is PredicateInvalid),
{
    match r {
        Ok(db::CreateAction::Created { .. }) => PredResponse::PredicateCreated,
        Ok(db::CreateAction::Existing) => PredResponse::PredicateExists,
        Err(Error::TypeMismatch) => PredResponse::PredicateTypeMismatch,
        Err(Error::InvalidName) => PredResponse::PredicateInvalid(
            String::from_str("invalid name: use lowercase and underscores only"),
        ),
        Err(Error::BackendError(s)) => PredResponse::PredFail(s.clone()),
        Err(_) => PredResponse::PredFail(String::new()),
    }
}

/// The response for a fact insertion outcome.
pub fn fact_response(r: &Result<bool, Error>) -> (out: FactResponse)
    ensures
        (r matches Ok(true)) == (out is FactCreated),
        (r matches Ok(false)) == (out is FactExists),
        (r matches Err(Error::PredicateUnregistered)) == (out is FactPredUnreg),
        (r matches Err(Error::TypeMismatch)) == (out is FactTypeMismatch),
{
    match r {
        Ok(true) => FactResponse::FactCreated,
        Ok(false) => FactResponse::FactExists,
        Err(Error::PredicateUnregistered) => FactResponse::FactPredUnreg(
            String::from_str("predicate not registered"),
        ),
        Err(Error::TypeMismatch) => FactResponse::FactTypeMismatch,
        Err(Error::BackendError(s)) => FactResponse::FactFail(s.clone()),
        Err(_) => FactResponse::FactFail(String::new()),
    }
}

/// The response for a search outcome: no answers, the answers, an invalid
/// query, or a backend failure.
pub fn search_response(r: Result<Vec<Vec<values::Value>>, Error>) -> (out: SearchResponse)
    ensures
        (r matches Ok(a) && a@.len() == 0) == (out is SearchNone),
        r matches Ok(a) ==> (a@.len() > 0 ==> (out matches SearchResponse::SearchAns(b) && b == a)),
        (r matches Err(e) && (e is EmptyQuery || e is NumberingHole || e is UnknownPredicate
            || e is TypeMismatch)) == (out is SearchInvalid),
        (r matches Err(e) && !(e is EmptyQuery || e is NumberingHole || e is UnknownPredicate
            || e is TypeMismatch)) == (out is SearchFail),
{
    match r {
        Ok(a) => {
            if a.len() == 0 {
                SearchResponse::SearchNone
            } else {
                SearchResponse::SearchAns(a)
            }
        },
        Err(Error::EmptyQuery) => SearchResponse::SearchInvalid,
        Err(Error::NumberingHole) => SearchResponse::SearchInvalid,
        Err(Error::UnknownPredicate) => SearchResponse::SearchInvalid,
        Err(Error::TypeMismatch) => SearchResponse::SearchInvalid,
        Err(Error::BackendError(s)) => SearchResponse::SearchFail(s),
        Err(_) => SearchResponse::SearchFail(String::new()),
    }
}

} // verus!
