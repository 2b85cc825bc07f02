use subgraph_check::check::{
    complete, dispatch, AsyncCheckResponse, Check, CheckConfig, CheckOutcome, CheckRequest,
    CheckResponse, GitContext, RemoteCheck, RemoteReply,
};
use subgraph_check::error::{CheckError, InputError, ValidationError};
use subgraph_check::graph_ref::{validate_subgraph, GraphRef};
use subgraph_check::schema::{parse_file_descriptor, resolve_schema_text, SchemaSource};

fn no_git() -> GitContext {
    GitContext { branch: None, author: None, commit: None, remote_url: None }
}

fn sample_request() -> CheckRequest {
    CheckRequest {
        graph_ref: GraphRef::parse("g@v").unwrap(),
        subgraph: "s".to_string(),
        proposed_schema: "type Q { a: Int }".to_string(),
        git_context: no_git(),
        config: CheckConfig {
            query_count_threshold: None,
            query_percentage_threshold: None,
            validation_period: None,
        },
    }
}

fn sync_reply() -> RemoteReply {
    RemoteReply::Sync(CheckResponse {
        passed: true,
        operation_check_count: 3,
        failure_count: 0,
        target_url: None,
    })
}

fn async_reply() -> RemoteReply {
    RemoteReply::Async(AsyncCheckResponse {
        workflow_id: "wf-1".to_string(),
        target_url: None,
    })
}

#[test]
fn graph_ref_with_and_without_variant() {
    let g = GraphRef::parse("my-graph@prod").unwrap();
    assert_eq!(g.name().as_str(), "my-graph");
    assert_eq!(g.variant().as_str(), "prod");
    assert_eq!(g.to_text(), "my-graph@prod");
    let g = GraphRef::parse("my-graph").unwrap();
    assert_eq!(g.variant().as_str(), "current");
    assert_eq!(g.to_text(), "my-graph@current");
    let g = GraphRef::parse("a@b@c").unwrap();
    assert_eq!(g.name().as_str(), "a");
    assert_eq!(g.variant().as_str(), "b@c");
}

#[test]
fn graph_ref_refuses_missing_parts() {
    for text in ["", "@prod", "graph@"] {
        assert_eq!(GraphRef::parse(text).err(), Some(ValidationError::InvalidGraphRef), "{}", text);
    }
}

#[test]
fn subgraph_name_must_not_be_empty() {
    assert_eq!(validate_subgraph("accounts"), Ok("accounts".to_string()));
    assert_eq!(validate_subgraph(""), Err(ValidationError::EmptySubgraph));
}

#[test]
fn schema_source_dash_means_stdin() {
    assert!(matches!(parse_file_descriptor("-"), SchemaSource::Stdin));
    match parse_file_descriptor("schema.graphql") {
        SchemaSource::File(p) => assert_eq!(p, "schema.graphql"),
        SchemaSource::Stdin => panic!("expected a file"),
    }
    assert!(matches!(parse_file_descriptor("--"), SchemaSource::File(_)));
}

#[test]
fn schema_text_is_kept_exactly() {
    let text = "type Query { hello: String }".to_string();
    assert_eq!(resolve_schema_text(Ok(text.clone())), Ok(text));
    assert_eq!(resolve_schema_text(Ok(String::new())), Err(InputError::Empty));
    assert_eq!(resolve_schema_text(Err(InputError::NotFound)), Err(InputError::NotFound));
    assert_eq!(
        resolve_schema_text(Err(InputError::PermissionDenied)),
        Err(InputError::PermissionDenied)
    );
    assert_eq!(resolve_schema_text(Err(InputError::ReadFailed)), Err(InputError::ReadFailed));
}

#[test]
fn stdin_schema_reaches_the_request_unchanged() {
    let check = Check::new("g", "s", "default", "-", None, None, None, false).unwrap();
    assert!(matches!(check.schema, SchemaSource::Stdin));
    let call = check.run(Ok("type Query { hello: String }".to_string()), no_git()).unwrap();
    assert_eq!(call.request().proposed_schema, "type Query { hello: String }");
}

#[test]
fn missing_schema_file_sends_nothing() {
    let check = Check::new("g@v", "s", "default", "nope.graphql", None, None, None, true).unwrap();
    assert_eq!(
        check.run(Err(InputError::NotFound), no_git()).err(),
        Some(CheckError::Input(InputError::NotFound))
    );
    assert_eq!(
        check.run(Ok(String::new()), no_git()).err(),
        Some(CheckError::Input(InputError::Empty))
    );
}

#[test]
fn end_to_end_synchronous_check() {
    let check = Check::new(
        "my-graph@prod",
        "accounts",
        "default",
        "accounts.graphql",
        Some("100"),
        None,
        None,
        false,
    )
    .unwrap();
    assert_eq!(check.profile_name, "default");
    let git = GitContext {
        branch: Some("main".to_string()),
        author: None,
        commit: Some("abc123".to_string()),
        remote_url: None,
    };
    let call = check.run(Ok("type Account { id: ID! }".to_string()), git).unwrap();
    assert!(!call.is_async());
    assert!(matches!(call, RemoteCheck::Sync(_)));
    let q = call.request();
    assert_eq!(q.graph_ref.name().as_str(), "my-graph");
    assert_eq!(q.graph_ref.variant().as_str(), "prod");
    assert_eq!(q.subgraph, "accounts");
    assert_eq!(q.proposed_schema, "type Account { id: ID! }");
    assert_eq!(q.config.query_count_threshold, Some(100));
    assert!(q.config.query_percentage_threshold.is_none());
    assert!(q.config.validation_period.is_none());
    assert_eq!(q.git_context.branch.as_deref(), Some("main"));
    assert_eq!(q.git_context.commit.as_deref(), Some("abc123"));
    match complete(&call, Ok(sync_reply())).unwrap() {
        CheckOutcome::CheckResponse(r) => {
            assert!(r.passed);
            assert_eq!(r.operation_check_count, 3);
        }
        CheckOutcome::AsyncCheckResponse(_) => panic!("expected a synchronous outcome"),
    }
}

#[test]
fn asynchronous_mode_gives_asynchronous_outcome() {
    let call = dispatch(sample_request(), true);
    assert!(call.is_async());
    match complete(&call, Ok(async_reply())).unwrap() {
        CheckOutcome::AsyncCheckResponse(r) => assert_eq!(r.workflow_id, "wf-1"),
        CheckOutcome::CheckResponse(_) => panic!("expected an asynchronous outcome"),
    }
    assert!(matches!(
        complete(&call, Ok(sync_reply())),
        Err(CheckError::Transport(_))
    ));
    let call = dispatch(sample_request(), false);
    assert!(!call.is_async());
    assert!(matches!(
        complete(&call, Ok(async_reply())),
        Err(CheckError::Transport(_))
    ));
}

#[test]
fn transport_failure_is_passed_on() {
    let call = dispatch(sample_request(), false);
    assert_eq!(
        complete(&call, Err("timed out".to_string())).err(),
        Some(CheckError::Transport("timed out".to_string()))
    );
}

#[test]
fn check_new_reports_the_first_error() {
    assert_eq!(
        Check::new("@x", "", "default", "-", Some("-1"), None, None, false).err(),
        Some(ValidationError::InvalidGraphRef)
    );
    assert_eq!(
        Check::new("g", "", "default", "-", Some("-1"), None, None, false).err(),
        Some(ValidationError::EmptySubgraph)
    );
    assert_eq!(
        Check::new("g", "s", "default", "-", Some("-1"), None, None, false).err(),
        Some(ValidationError::NegativeCount)
    );
    assert_eq!(
        Check::new("g", "s", "default", "-", None, Some("150"), None, false).err(),
        Some(ValidationError::PercentageOutOfRange)
    );
    assert_eq!(
        Check::new("g", "s", "default", "-", None, None, Some("1y"), false).err(),
        Some(ValidationError::MalformedPeriod)
    );
}

#[test]
fn progress_line_names_subgraph_and_graph() {
    let check = Check::new("my-graph", "accounts", "default", "-", None, None, None, true).unwrap();
    assert_eq!(
        check.progress_line(),
        "Checking the proposed schema for subgraph accounts against my-graph@current"
    );
}

#[test]
fn negative_count_in_a_built_check_is_refused_before_dispatch() {
    let mut check = Check::new("g@v", "s", "default", "-", None, None, None, false).unwrap();
    check.config.query_count_threshold = Some(-1);
    assert_eq!(
        check.run(Ok("type Q { a: Int }".to_string()), no_git()).err(),
        Some(CheckError::Validation(ValidationError::NegativeCount))
    );
    assert_eq!(
        check.run(Err(InputError::NotFound), no_git()).err(),
        Some(CheckError::Input(InputError::NotFound))
    );
    check.config.query_count_threshold = Some(0);
    let call = check.run(Ok("type Q { a: Int }".to_string()), no_git()).unwrap();
    assert_eq!(call.request().config.query_count_threshold, Some(0));
}

#[test]
fn empty_subgraph_in_a_built_check_is_refused_before_dispatch() {
    let mut check = Check::new("g@v", "s", "default", "-", Some("5"), None, None, true).unwrap();
    assert_eq!(check.refusal(), None);
    check.subgraph = String::new();
    assert_eq!(check.refusal(), Some(ValidationError::EmptySubgraph));
    assert_eq!(
        check.run(Ok("type Q { a: Int }".to_string()), no_git()).err(),
        Some(CheckError::Validation(ValidationError::EmptySubgraph))
    );
}

#[test]
fn valid_check_sends_its_thresholds_unchanged() {
    for asynchronous in [false, true] {
        let check = Check::new(
            "g@v",
            "s",
            "default",
            "-",
            Some("0"),
            Some("99.5"),
            Some("2d"),
            asynchronous,
        )
        .unwrap();
        assert!(GraphRef::parse("g@v").unwrap().is_valid());
        let call = check.run(Ok("type Q { a: Int }".to_string()), no_git()).unwrap();
        assert_eq!(call.is_async(), asynchronous);
        let q = call.request();
        assert_eq!(q.config.query_count_threshold, Some(0));
        let p = q.config.query_percentage_threshold.as_ref().unwrap();
        assert!(p.in_range());
        assert_eq!(p.whole(), 99);
        assert_eq!(p.fraction().as_str(), "5");
        assert_eq!(q.config.validation_period.unwrap().hours(), 48);
    }
}
