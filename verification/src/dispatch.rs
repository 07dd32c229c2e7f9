//! The demo dispatcher: a fixed, name-keyed registry of demo routines.
//!
//! Resolution is pure and fully specified here: [`plan`] turns the
//! command-line tokens into the exact list of actions to take, in order,
//! one step per token. Running the chosen routines (console output) is the
//! caller's business.

use vstd::prelude::*;
use crate::text::str_eq;

verus! {

/// One registered demo routine. The set is fixed at build time; the token
/// for each is its name in lower case, as typed on the command line.
#[derive(Clone, Copy, PartialEq, Eq, Structural, Debug)]
pub enum DemoId {
    Variables,
    DataTypes,
    Array,
    Tuples,
    Strings,
    ControlFlow,
    Errors,
    Options,
    CompoundTypes,
    Own,
    Vector,
    Hashmap,
    Btreemap,
    Hashset,
    Generics,
    Traits,
    Lifetimes,
    IterClosure,
    Concurrency,
}

/// What the registry resolves a token to, by exact string equality.
pub open spec fn lookup_spec(t: Seq<char>) -> Option<DemoId> {
    if t == "variables"@ {
        Some(DemoId::Variables)
    } else if t == "data_types"@ {
        Some(DemoId::DataTypes)
    } else if t == "array"@ {
        Some(DemoId::Array)
    } else if t == "tuples"@ {
        Some(DemoId::Tuples)
    } else if t == "strings"@ {
        Some(DemoId::Strings)
    } else if t == "control_flow"@ {
        Some(DemoId::ControlFlow)
    } else if t == "errors"@ {
        Some(DemoId::Errors)
    } else if t == "option"@ {
        Some(DemoId::Options)
    } else if t == "compound_types"@ {
        Some(DemoId::CompoundTypes)
    } else if t == "own"@ {
        Some(DemoId::Own)
    } else if t == "vector"@ {
        Some(DemoId::Vector)
    } else if t == "hashmap"@ {
        Some(DemoId::Hashmap)
    } else if t == "btreemap"@ {
        Some(DemoId::Btreemap)
    } else if t == "hashset"@ {
        Some(DemoId::Hashset)
    } else if t == "generics"@ {
        Some(DemoId::Generics)
    } else if t == "traits"@ {
        Some(DemoId::Traits)
    } else if t == "lifetimes"@ {
        Some(DemoId::Lifetimes)
    } else if t == "iter_closure"@ {
        Some(DemoId::IterClosure)
    } else if t == "concurrency"@ {
        Some(DemoId::Concurrency)
    } else {
        None
    }
}

/// Resolves one token against the registry.
pub fn lookup(token: &str) -> (r: Option<DemoId>)
    ensures
        r == lookup_spec(token@),
{
    if str_eq(token, "variables") {
        Some(DemoId::Variables)
    } else if str_eq(token, "data_types") {
        Some(DemoId::DataTypes)
    } else if str_eq(token, "array") {
        Some(DemoId::Array)
    } else if str_eq(token, "tuples") {
        Some(DemoId::Tuples)
    } else if str_eq(token, "strings") {
        Some(DemoId::Strings)
    } else if str_eq(token, "control_flow") {
        Some(DemoId::ControlFlow)
    } else if str_eq(token, "errors") {
        Some(DemoId::Errors)
    } else if str_eq(token, "option") {
        Some(DemoId::Options)
    } else if str_eq(token, "compound_types") {
        Some(DemoId::CompoundTypes)
    } else if str_eq(token, "own") {
        Some(DemoId::Own)
    } else if str_eq(token, "vector") {
        Some(DemoId::Vector)
    } else if str_eq(token, "hashmap") {
        Some(DemoId::Hashmap)
    } else if str_eq(token, "btreemap") {
        Some(DemoId::Btreemap)
    } else if str_eq(token, "hashset") {
        Some(DemoId::Hashset)
    } else if str_eq(token, "generics") {
        Some(DemoId::Generics)
    } else if str_eq(token, "traits") {
        Some(DemoId::Traits)
    } else if str_eq(token, "lifetimes") {
        Some(DemoId::Lifetimes)
    } else if str_eq(token, "iter_closure") {
        Some(DemoId::IterClosure)
    } else if str_eq(token, "concurrency") {
        Some(DemoId::Concurrency)
    } else {
        None
    }
}

/// One step of a dispatch: run a registered routine, or report an unknown
/// token. An unknown token never aborts the remaining batch.
pub enum DispatchStep {
    Run(DemoId),
    Unknown(String),
}

/// The step owed for one token.
pub open spec fn step_matches(s: DispatchStep, t: Seq<char>) -> bool {
    match lookup_spec(t) {
        Some(d) => s == DispatchStep::Run(d),
        None => s matches DispatchStep::Unknown(u) && u@ == t,
    }
}

/// Resolves every token, in the order given, one step per occurrence.
pub fn plan(tokens: &Vec<String>) -> (r: Vec<DispatchStep>)
    ensures
        r@.len() == tokens@.len(),
        forall|i: int| 0 <= i < tokens@.len() ==> step_matches(#[trigger] r@[i], tokens@[i]@),
{
    let mut out: Vec<DispatchStep> = Vec::new();
    let mut i: usize = 0;
    while i < tokens.len()
        invariant
            0 <= i <= tokens@.len(),
            out@.len() == i,
            forall|k: int| 0 <= k < i ==> step_matches(#[trigger] out@[k], tokens@[k]@),
        decreases tokens@.len() - i,
    {
        let tok = &tokens[i];
        match lookup(tok.as_str()) {
            Option::Some(d) => out.push(DispatchStep::Run(d)),
            Option::None => out.push(DispatchStep::Unknown(tok.clone())),
        }
        i += 1;
    }
    out
}

/// The two usage lines shown when no token is supplied.
pub fn usage_lines() -> (r: Vec<&'static str>)
    ensures
        r@.len() == 2,
        r@[0]@ == "Usage: cargo run -- <demo_name> [<demo_name> ...]"@,
        r@[1]@ == "Example: cargo run -- variables data_types vector"@,
{
    let mut v: Vec<&'static str> = Vec::new();
    v.push("Usage: cargo run -- <demo_name> [<demo_name> ...]");
    v.push("Example: cargo run -- variables data_types vector");
    v
}

} // verus!
