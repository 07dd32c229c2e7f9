use rusty_dusty::dispatch::{lookup, plan, usage_lines, DemoId, DispatchStep};

#[test]
fn known_tokens_resolve() {
    let cases = [
        ("variables", DemoId::Variables),
        ("data_types", DemoId::DataTypes),
        ("array", DemoId::Array),
        ("tuples", DemoId::Tuples),
        ("strings", DemoId::Strings),
        ("control_flow", DemoId::ControlFlow),
        ("errors", DemoId::Errors),
        ("option", DemoId::Options),
        ("compound_types", DemoId::CompoundTypes),
        ("own", DemoId::Own),
        ("vector", DemoId::Vector),
        ("hashmap", DemoId::Hashmap),
        ("btreemap", DemoId::Btreemap),
        ("hashset", DemoId::Hashset),
        ("generics", DemoId::Generics),
        ("traits", DemoId::Traits),
        ("lifetimes", DemoId::Lifetimes),
        ("iter_closure", DemoId::IterClosure),
        ("concurrency", DemoId::Concurrency),
    ];
    for (token, id) in cases {
        assert_eq!(lookup(token), Some(id), "token {:?}", token);
    }
}

#[test]
fn unknown_tokens_do_not_resolve() {
    for token in ["bogus", "", "Variables", "variables ", "hash_map"] {
        assert_eq!(lookup(token), None, "token {:?}", token);
    }
}

#[test]
fn batch_with_unknown_token_runs_the_rest_in_order() {
    let tokens = vec![
        "variables".to_string(),
        "bogus".to_string(),
        "array".to_string(),
    ];
    let steps = plan(&tokens);
    assert_eq!(steps.len(), 3);
    assert!(matches!(steps[0], DispatchStep::Run(DemoId::Variables)));
    match &steps[1] {
        DispatchStep::Unknown(token) => assert_eq!(token, "bogus"),
        _ => panic!("expected the second step to be unknown"),
    }
    assert!(matches!(steps[2], DispatchStep::Run(DemoId::Array)));
}

#[test]
fn empty_batch_plans_nothing_and_usage_has_two_lines() {
    let steps = plan(&Vec::new());
    assert_eq!(steps.len(), 0);
    let usage = usage_lines();
    assert_eq!(usage.len(), 2);
    assert_eq!(usage[0], "Usage: cargo run -- <demo_name> [<demo_name> ...]");
    assert_eq!(usage[1], "Example: cargo run -- variables data_types vector");
}

#[test]
fn duplicate_tokens_run_once_per_occurrence() {
    let tokens = vec![
        "own".to_string(),
        "own".to_string(),
        "traits".to_string(),
    ];
    let steps = plan(&tokens);
    assert_eq!(steps.len(), 3);
    assert!(matches!(steps[0], DispatchStep::Run(DemoId::Own)));
    assert!(matches!(steps[1], DispatchStep::Run(DemoId::Own)));
    assert!(matches!(steps[2], DispatchStep::Run(DemoId::Traits)));
}
