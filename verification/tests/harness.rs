use msim::harness::attribute::{
    build_test_config, parse_main, parse_test, Lit, MacroArg, MacroError, Question, Said, TestAttr,
};
use msim::harness::plan::{PlanError, Run, TestPlan};

fn text(s: &str) -> Lit {
    Lit::Str(s.to_string())
}

fn set(name: &str, lit: Lit) -> MacroArg {
    MacroArg::NameValue(Some(name.to_string()), lit)
}

fn flag(name: &str) -> MacroArg {
    MacroArg::Path(Some(name.to_string()))
}

fn said(args: Vec<MacroArg>) -> String {
    parse_test(true, &args).unwrap_err().message()
}

#[test]
fn plain_test() {
    let test = parse_test(true, &vec![]).unwrap();
    assert_eq!(test.crate_name, "msim");
    assert_eq!(test.config_expr, "msim::SimConfig::default()");
    assert!(test.run_in_client_node);
    assert!(!test.check_determinism);
}

#[test]
fn arguments_are_read() {
    let test = parse_test(
        true,
        &vec![
            set("CRATE", text("my_sim")),
            set("config", text("configs(3)")),
            set("no_client_node", Lit::Other),
            set("flavor", text("multi_thread")),
            set("worker_threads", Lit::Other),
            set("Start_Paused", Lit::Other),
            flag("Check_Determinism"),
        ],
    )
    .unwrap();
    assert_eq!(test.crate_name, "my_sim");
    assert_eq!(test.config_expr, "configs(3)");
    assert!(!test.run_in_client_node);
    assert!(test.check_determinism);
    let test = parse_test(true, &vec![set("crate", text("my_sim"))]).unwrap();
    assert_eq!(test.config_expr, "my_sim::SimConfig::default()");
}

#[test]
fn settings_without_effect_are_named() {
    assert_eq!(set("Flavor", text("x")).ignored(), Some("flavor".to_string()));
    assert_eq!(set("worker_threads", Lit::Other).ignored(), Some("worker_threads".to_string()));
    assert_eq!(set("START_PAUSED", Lit::Other).ignored(), Some("start_paused".to_string()));
    assert_eq!(set("crate", text("x")).ignored(), None);
    assert_eq!(flag("flavor").ignored(), None);
    assert_eq!(MacroArg::NameValue(None, Lit::Other).ignored(), None);
    assert_eq!(MacroArg::Other.ignored(), None);
}

#[test]
fn what_the_user_is_told() {
    let names = "`flavor`, `worker_threads`, `start_paused`, `crate`";
    let missing = "the `async` keyword is missing from the function declaration";
    assert_eq!(parse_test(false, &vec![]).unwrap_err().message(), missing);
    assert_eq!(parse_main(false).unwrap_err().message(), missing);
    assert!(parse_main(true).is_ok());
    assert_eq!(said(vec![MacroArg::NameValue(None, Lit::Other)]), "Must have specified ident");
    assert_eq!(said(vec![MacroArg::Path(None)]), "Must have specified ident");
    assert_eq!(said(vec![MacroArg::Other]), "Unknown attribute inside the macro");
    assert_eq!(
        said(vec![set("Foo", Lit::Other)]),
        format!("Unknown attribute foo is specified; expected one of: {}", names)
    );
    assert_eq!(
        said(vec![flag("Foo")]),
        format!(
            "Unknown attribute foo is specified; expected one of: {}, `check_determinism`",
            names
        )
    );
    assert_eq!(said(vec![set("config", Lit::Other)]), "expected string literal");
    assert_eq!(said(vec![set("crate", Lit::Other)]), "Failed to parse value of `crate` as ident.");
    assert_eq!(
        said(vec![set("crate", text("a::b"))]),
        "Failed to parse value of `crate` as ident: \"a::b\""
    );
    assert_eq!(
        said(vec![set("crate", text("a")), set("crate", text("b"))]),
        "`crate` set multiple times."
    );
    for name in ["threaded_scheduler", "multi_thread"] {
        assert_eq!(
            said(vec![flag(name)]),
            "Set the runtime flavor with #[test(flavor = \"multi_thread\")]."
        );
    }
    for name in ["basic_scheduler", "current_thread", "single_threaded"] {
        assert_eq!(
            said(vec![flag(name)]),
            "Set the runtime flavor with #[test(flavor = \"current_thread\")]."
        );
    }
    for name in ["flavor", "worker_threads", "start_paused"] {
        assert_eq!(
            said(vec![flag(name)]),
            format!("The `{}` attribute requires an argument.", name)
        );
    }
}

#[test]
fn unusual_literals_are_read() {
    let attr = build_test_config(&vec![set("config", text("c\"a\""))]).unwrap();
    assert_eq!(attr.network_config_expr.unwrap(), "c\"a\"");
    assert_eq!(
        said(vec![set("crate", text("A<c\"a\">"))]),
        "Failed to parse value of `crate` as ident: \"A<c\"a\">\""
    );
    assert!(build_test_config(&vec![set("config", text("1e"))]).is_ok());
}

#[test]
fn what_a_parser_says_is_taken_over() {
    let said = |expr_error: Option<&str>, ident: Option<&str>| Said {
        expr_error: expr_error.map(str::to_string),
        ident: ident.map(str::to_string),
    };
    let arg = set("config", text("x"));
    let err = TestAttr::new().set_arg(&arg, said(Some("no"), None)).unwrap_err();
    assert_eq!(err.message(), "no");
    let attr = TestAttr::new().set_arg(&arg, said(None, None)).unwrap();
    assert_eq!(attr.network_config_expr.as_deref(), Some("x"));
    let attr = attr.set_arg(&set("Crate", text("y")), said(None, Some("z"))).unwrap();
    let test = attr.into_test();
    assert_eq!((test.crate_name.as_str(), test.config_expr.as_str()), ("z", "x"));
    let err = TestAttr::new().set_arg(&set("crate", text("y")), said(None, None)).unwrap_err();
    assert_eq!(err.message(), "Failed to parse value of `crate` as ident: \"y\"");
    // nothing else depends on it
    let attr = TestAttr::new().set_arg(&flag("check_determinism"), said(Some("no"), None)).unwrap();
    assert!(attr.check_determinism);
}

#[test]
fn parser_is_asked_of_configs_and_crates() {
    let question = set("CONFIG", text("f(1)")).question();
    assert!(matches!(question, Question::Expr(asked) if asked == "f(1)"));
    let question = set("crate", text("a")).question();
    assert!(matches!(question, Question::Ident(asked) if asked == "a"));
    for arg in [set("flavor", text("a")), set("crate", Lit::Other), flag("config"), MacroArg::Other] {
        assert!(matches!(arg.question(), Question::Nothing));
    }
}

#[test]
fn config_must_be_an_expression() {
    let err = build_test_config(&vec![set("config", text("1 +"))]).unwrap_err();
    assert!(matches!(&err, MacroError::InvalidExpr(_)));
    assert_eq!(err.message(), "unexpected end of input, expected an expression");
    let attr = build_test_config(&vec![set("config", text("1 + 1"))]).unwrap();
    assert_eq!(attr.network_config_expr, Some("1 + 1".to_string()));
}

#[test]
fn the_first_error_counts() {
    assert_eq!(
        said(vec![flag("multi_thread"), MacroArg::Other]),
        "Set the runtime flavor with #[test(flavor = \"multi_thread\")]."
    );
}

#[test]
fn attribute_takes_what_it_is_told_of_a_value() {
    let attr = TestAttr::new()
        .set_name_value("crate".to_string(), &text("x"), None, Some("y".to_string()))
        .unwrap();
    assert_eq!(attr.crate_name, Some("y".to_string()));
    let err = attr
        .set_name_value("config".to_string(), &text("x"), Some("no".to_string()), None)
        .unwrap_err();
    assert_eq!(err.message(), "no");
    let attr = TestAttr::new().set_path("check_determinism".to_string()).unwrap();
    assert!(attr.check_determinism);
}

#[test]
fn rounds_of_a_plan() {
    let plan = TestPlan::new(10, 3, false);
    assert_eq!(plan.rounds, 3);
    let (runs, error) = plan.plan_round(&vec![2, 1]);
    assert_eq!(error, None);
    assert_eq!(
        runs,
        vec![
            Run { seed: 10, config: 0 },
            Run { seed: 11, config: 0 },
            Run { seed: 12, config: 1 },
        ]
    );
    let (runs, error) = plan.plan_round(&vec![1, 0, 1]);
    assert_eq!(error, Some(PlanError::ZeroRepeats));
    assert_eq!(runs, vec![Run { seed: 10, config: 0 }]);
    let mut plan = plan;
    let (runs, _) = plan.plan_round(&vec![2, 1]);
    plan.next_round(&runs);
    assert_eq!((plan.seed, plan.rounds), (13, 2));
    let (runs, _) = plan.plan_round(&vec![1]);
    assert_eq!(runs, vec![Run { seed: 13, config: 0 }]);
    plan.next_round(&runs);
    assert_eq!((plan.seed, plan.rounds), (14, 1));
}

#[test]
fn determinism_takes_two_rounds() {
    let mut plan = TestPlan::new(10, 1, true);
    assert_eq!(plan.rounds, 2);
    assert_eq!(plan.plan_round(&vec![1]), (vec![Run { seed: 10, config: 0 }], None));
    assert_eq!(plan.plan_round(&vec![1, 1]), (vec![], Some(PlanError::Repeated)));
    assert_eq!(plan.plan_round(&vec![2]), (vec![], Some(PlanError::Repeated)));
    assert_eq!(plan.plan_round(&vec![0]), (vec![], Some(PlanError::ZeroRepeats)));
    plan.next_round(&vec![Run { seed: 10, config: 0 }]);
    assert_eq!((plan.seed, plan.rounds), (10, 1));
    assert_eq!(TestPlan::new(10, 5, true).rounds, 5);
}
