use koto_learning::harness::{run_suite, ExampleTestSuite, HarnessError, TestStatus};
use koto_learning::host::{ExtensionLoadOutcome, HostError, Runtime};

#[test]
fn runtime_executes_and_captures_output() {
    let mut runtime = Runtime::new().expect("runtime");
    let output = runtime
        .execute_script("print(\"testing\")\n1 + 2")
        .expect("script execution");
    assert_eq!(output.return_value.as_deref(), Some("3"));
    assert!(output.stdout.contains("testing"));
    assert!(output.stderr.is_empty());
}

#[test]
fn runtime_reports_script_errors() {
    let mut runtime = Runtime::new().expect("runtime");
    let error = runtime.execute_script("unknown_function() ").unwrap_err();
    assert!(error.message().contains("unknown_function"));
}

#[test]
fn runtime_supports_host_functions() {
    let mut runtime = Runtime::new().expect("runtime");
    runtime.register_host_function("greet", |ctx| match ctx.args() {
        [koto::runtime::KValue::Str(name), ..] => {
            Ok(format!("Hello {}!", name.as_str()).into())
        }
        _ => Err(koto::runtime::Error::from("expected name".to_string())),
    });

    let output = runtime
        .execute_script("greet(\"Runtime\")")
        .expect("script execution");
    assert_eq!(output.return_value.as_deref(), Some("Hello Runtime!"));
}

#[test]
fn runtime_provides_serialization_helpers() {
    let mut runtime = Runtime::new().expect("runtime");
    let output = runtime
        .execute_script("serde.to_json({ greeting: \"hi\" })")
        .expect("serialization helpers");
    let value = output.return_value.expect("json string");
    assert!(value.contains("greeting"));
}

#[test]
fn runtime_provides_yaml_helpers() {
    let mut runtime = Runtime::new().expect("runtime");
    let output = runtime
        .execute_script("serde.to_yaml({ greeting: \"hi\" })")
        .expect("serialization helpers");
    let value = output.return_value.expect("yaml string");
    assert!(value.contains("greeting"));
}

#[test]
fn runtime_honors_execution_timeout_updates() {
    let mut runtime = Runtime::new().expect("runtime");
    runtime.set_execution_timeout(Some(50));
    runtime.execute_script("1").expect("script");
}

#[test]
fn runtime_keeps_bindings_across_limit_changes() {
    let mut runtime = Runtime::new().expect("runtime");
    runtime.register_host_function("greet", |ctx| match ctx.args() {
        [koto::runtime::KValue::Str(name), ..] => {
            Ok(format!("Hello {}!", name.as_str()).into())
        }
        _ => Err(koto::runtime::Error::from("expected name".to_string())),
    });
    runtime.set_execution_timeout(Some(50));
    let output = runtime
        .execute_script("greet(\"Runtime\")")
        .expect("script execution");
    assert_eq!(output.return_value.as_deref(), Some("Hello Runtime!"));
}

#[test]
fn runtime_reports_failed_extension_loads_without_state_change() {
    let mut runtime = Runtime::new().expect("runtime");
    let result = runtime.apply_extension_load(
        "nonexistent_library.so",
        ExtensionLoadOutcome::OpenFailed {
            message: "no such file".to_string(),
        },
    );
    let error = result.unwrap_err();
    assert!(matches!(error, HostError::ExtensionLoad { .. }));
    assert!(error.message().contains("nonexistent_library.so"));
    let output = runtime.execute_script("1 + 1").expect("script execution");
    assert_eq!(output.return_value.as_deref(), Some("2"));
}

#[test]
fn runtime_exposes_host_namespace() {
    let mut runtime = Runtime::new().expect("runtime");
    let echoed = runtime.execute_script("host.echo(41)").expect("echo");
    assert_eq!(echoed.return_value.as_deref(), Some("41"));
    let fib = runtime
        .execute_script("host.performance.fast_fib(10)")
        .expect("fib");
    assert_eq!(fib.return_value.as_deref(), Some("55"));
}

#[test]
fn test_suite_runner_reports_results() {
    let script = r#"
# Title: Sample suite
# Description: Exercises pass/fail status and captured output.

print('setup output')

export tests =
  @pre_test: || print('pre hook ran')
  @post_test: || print('post hook ran')
  @test passes: || 1
  @test fails: || throw 'boom'
"#;

    let suite = ExampleTestSuite {
        id: "sample".to_string(),
        name: "Sample suite".to_string(),
        description: Some("Exercises pass/fail status and captured output.".to_string()),
        path: "sample.koto".to_string(),
        script: script.to_string(),
    };

    let result = run_suite(&suite).expect("suite run");
    assert_eq!(result.suite_id, "sample");
    assert_eq!(result.cases.len(), 2);
    assert!(result.setup_stdout.contains("setup output"));
    assert!(result.setup_stderr.is_empty());

    let pass_case = &result.cases[0];
    assert_eq!(pass_case.name, "passes");
    assert_eq!(pass_case.status, TestStatus::Passed);
    assert!(pass_case.error.is_none());

    let fail_case = &result.cases[1];
    assert_eq!(fail_case.name, "fails");
    assert_eq!(fail_case.status, TestStatus::Failed);
    assert!(fail_case
        .error
        .as_ref()
        .map(|error| error.contains("boom"))
        .unwrap_or(false));
}

#[test]
fn failing_pre_test_hook_skips_body_and_post_hook() {
    let script = r#"
export tests =
  @pre_test: || throw 'pre boom'
  @post_test: || print('post hook ran')
  @test alpha: || print('body ran')
"#;

    let suite = ExampleTestSuite {
        id: "hooks".to_string(),
        name: "hooks".to_string(),
        description: None,
        path: "hooks.koto".to_string(),
        script: script.to_string(),
    };

    let result = run_suite(&suite).expect("suite run");
    assert_eq!(result.cases.len(), 1);
    let case = &result.cases[0];
    assert_eq!(case.status, TestStatus::Failed);
    let message = case.error.as_ref().expect("failure message");
    assert!(message.starts_with("pre-test failed: "));
    assert!(message.contains("pre boom"));
    assert!(!case.stdout.contains("body ran"));
    assert!(!case.stdout.contains("post hook ran"));
    assert!(!result.passed);
}

#[test]
fn suite_without_test_exports_is_an_error() {
    let suite = ExampleTestSuite {
        id: "empty".to_string(),
        name: "empty".to_string(),
        description: None,
        path: "empty.koto".to_string(),
        script: "export answer = 42".to_string(),
    };
    let error = run_suite(&suite).unwrap_err();
    assert!(matches!(error, HarnessError::NoTestsDeclared { .. }));
    assert!(error.message().contains("no test declarations"));
}

#[test]
fn extension_symbol_and_registration_failures_are_typed() {
    let mut runtime = Runtime::new().expect("runtime");
    let missing = runtime
        .apply_extension_load("ext.so", ExtensionLoadOutcome::MissingSymbol)
        .unwrap_err();
    assert!(matches!(missing, HostError::ExtensionMissingSymbol { .. }));
    assert!(missing.message().contains("koto_register"));
    let refused = runtime
        .apply_extension_load("ext.so", ExtensionLoadOutcome::RegistrationFailed)
        .unwrap_err();
    assert!(matches!(refused, HostError::ExtensionRegistration { .. }));
}

#[test]
fn failing_suite_setup_is_a_suite_evaluation_error() {
    let suite = ExampleTestSuite {
        id: "broken".to_string(),
        name: "broken".to_string(),
        description: None,
        path: "broken.koto".to_string(),
        script: "unknown_function()".to_string(),
    };
    let error = run_suite(&suite).unwrap_err();
    assert!(matches!(error, HarnessError::SuiteEvaluation { .. }));
    assert!(error.message().contains("unknown_function"));
}

#[test]
fn host_uuid_values_are_hyphenated_identifiers() {
    let mut runtime = Runtime::new().expect("runtime");
    let output = runtime
        .execute_script("size(host.uuid_v4())")
        .expect("uuid length");
    assert_eq!(output.return_value.as_deref(), Some("36"));
}
