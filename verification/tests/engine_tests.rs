use workflows::catalog::StepKind;
use workflows::dict::Dict;
use workflows::echo::Echo;
use workflows::engine::{Config, Context, Runner, WorkflowConfig, WorkflowError};

fn dict_of(pairs: &[(&str, &str)]) -> Dict {
    let mut d = Dict::new();
    for (k, v) in pairs {
        d.insert(k.to_string(), v.to_string());
    }
    d
}

fn step(kind: &str, params: &[(&str, &str)]) -> WorkflowConfig {
    WorkflowConfig::new(kind.to_string(), dict_of(params))
}

#[test]
fn context_next_pops_in_configured_order() {
    let config = Config {
        workflows: vec![step("echo", &[("text", "a")]), step("http", &[])],
    };
    let mut ctx = Context::new(config, Dict::new());
    let first = ctx.next().unwrap();
    assert_eq!(first.workflow_type, "echo");
    let second = ctx.next().unwrap();
    assert_eq!(second.workflow_type, "http");
    assert!(ctx.next().is_none());
}

#[test]
fn echo_end_to_end_resolves_against_environment() {
    // config: one echo step whose text references the environment
    let config = Config {
        workflows: vec![step("echo", &[("text", "hello {env.NAME}")])],
    };
    let env = dict_of(&[("NAME", "world")]);
    let mut runner = Runner::new(Context::new(config, env)).unwrap();
    let inv = runner.advance().unwrap().expect("one step to run");
    assert_eq!(inv.kind, StepKind::Echo);
    let line = Echo {}.render(&inv.parameters);
    assert_eq!(line, "hello world");
    // a non-fan-out step keeps the chain alive with one empty output map
    runner.complete(vec![Dict::new()]);
    assert!(runner.advance().unwrap().is_none());
}

#[test]
fn unknown_kind_fails_before_any_step_executes() {
    let config = Config {
        workflows: vec![
            step("echo", &[("text", "never runs")]),
            step("ftp", &[("url", "ftp://example.com")]),
        ],
    };
    match Runner::new(Context::new(config, Dict::new())) {
        Err(WorkflowError::NotFound(k)) => {
            assert_eq!(k, "ftp");
            assert_eq!(
                WorkflowError::NotFound(k).message(),
                "Workflow ftp is not found."
            );
        }
        Ok(_) => panic!("a config with an unknown kind must be refused"),
        Err(_) => panic!("the failure must name the unknown kind"),
    }
}

#[test]
fn fan_out_branches_each_run_the_whole_tail() {
    // remainder after the fan-out step: two echo steps A and B
    let config = Config {
        workflows: vec![
            step("atom", &[("text", "feed goes here")]),
            step("echo", &[("text", "A:{input.title}")]),
            step("echo", &[("text", "B")]),
        ],
    };
    let env = Dict::new();
    let mut runner = Runner::new(Context::new(config, env)).unwrap();

    let inv = runner.advance().unwrap().expect("the feed step");
    assert_eq!(inv.kind, StepKind::Atom);
    // the step fans out into two branches with different outputs
    runner.complete(vec![
        dict_of(&[("title", "first"), ("link", "l1")]),
        dict_of(&[("title", "second"), ("link", "l2")]),
    ]);

    // both branches must execute both A and B: four downstream invocations,
    // depth first, in output order
    let mut seen = Vec::new();
    loop {
        match runner.advance().unwrap() {
            None => break,
            Some(inv) => {
                assert_eq!(inv.kind, StepKind::Echo);
                seen.push(Echo {}.render(&inv.parameters));
                runner.complete(vec![Dict::new()]);
            }
        }
    }
    assert_eq!(seen, vec!["A:first", "B", "A:second", "B"]);
}

#[test]
fn resolution_failure_aborts_the_run() {
    let config = Config {
        workflows: vec![step("echo", &[("text", "{env.MISSING}")])],
    };
    let mut runner = Runner::new(Context::new(config, Dict::new())).unwrap();
    match runner.advance() {
        Err(WorkflowError::Resolve(e)) => {
            assert_eq!(e.message(), "Missing MISSING.");
        }
        _ => panic!("a missing key must abort the run"),
    }
}

#[test]
fn malformed_template_aborts_the_run() {
    let config = Config {
        workflows: vec![step("echo", &[("text", "{env.x")])],
    };
    let mut runner = Runner::new(Context::new(config, Dict::new())).unwrap();
    match runner.advance() {
        Err(WorkflowError::Resolve(e)) => {
            assert_eq!(e.message(), "Unable to parse expression {env.x.");
        }
        _ => panic!("a malformed template must abort the run"),
    }
}

#[test]
fn branch_contexts_are_independent_copies() {
    let config = Config {
        workflows: vec![step("echo", &[("text", "t")])],
    };
    let env = dict_of(&[("K", "v")]);
    let ctx = Context::new(config, env);
    let mut copy = ctx.duplicate();
    // consuming the copy leaves the source untouched
    assert!(copy.next().is_some());
    assert!(copy.next().is_none());
    let mut original_ctx = ctx;
    assert!(original_ctx.next().is_some());
}

#[test]
fn unconfigured_declared_parameters_are_skipped() {
    // http declares url and method; only url is configured
    let config = Config {
        workflows: vec![step("http", &[("url", "http://e")])],
    };
    let mut runner = Runner::new(Context::new(config, Dict::new())).unwrap();
    let inv = runner.advance().unwrap().unwrap();
    assert_eq!(inv.kind, StepKind::Http);
    assert_eq!(inv.parameters.parameter("url"), "http://e");
    assert!(inv.parameters.get("method").is_none());
    // the step sees the empty string as the default
    assert_eq!(inv.parameters.parameter("method"), "");
}

#[test]
fn undeclared_configured_parameters_are_ignored() {
    let config = Config {
        workflows: vec![step("echo", &[("text", "x"), ("unrelated", "{env.NOPE}")])],
    };
    let mut runner = Runner::new(Context::new(config, Dict::new())).unwrap();
    let inv = runner.advance().unwrap().unwrap();
    assert!(inv.parameters.get("unrelated").is_none());
    assert_eq!(inv.parameters.parameter("text"), "x");
}
