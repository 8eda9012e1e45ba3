use erosion::languages::gleam::adapter;
use erosion::languages::LanguageAdapter;
use erosion::metrics::{FileAnalysis, TestRegion};

const TEST_PATHS: &[&str] = &["**/test/**", "**/tests/**", "**/*_test.gleam"];
const TEST_SYNTAX: &[&str] = &[
    "Public zero-argument *_test functions follow gleeunit/EUnit discovery; public zero-argument *_test_ generators follow Erlang EUnit, independent of imports or file name.",
    "Literal gleeunit.main() calls require an unshadowed import, including module and selective-import aliases; a named zero-argument function whose only expression is that call is a test runner unless it has an external override.",
    "Other functions retain their production body around a recognized runner call; piped/use calls with implicit arguments are not zero-argument runners.",
    "Private functions/constants and known-API gleeunit or gleeunit/should imports are excluded only with at least one test reference and no references outside test regions or their own declaration; shared, exported, unused and mutually recursive helpers remain.",
    "Declaration regions include attached attributes and documentation. Assertions, should calls and helper/fixture names alone never establish a test.",
    "gleeunit exposes no callback-registration or fixture DSL. Custom frameworks, dynamic/local runner aliases, cross-file wrappers and ambiguous bindings remain included; target-specific duplicate bindings are not guessed.",
];

fn contains(region: &TestRegion, byte: usize) -> bool {
    region.start_byte <= byte && byte < region.end_byte
}

fn parse(source: &str) -> FileAnalysis {
    let result = adapter(true).unwrap().analyze(source.as_bytes()).unwrap();
    assert!(result.parsed(), "{:?}", result.diagnostics);
    let raw = adapter(false).unwrap().analyze(source.as_bytes()).unwrap();
    let mut unfiltered = result.clone();
    unfiltered.without_tests = None;
    assert_eq!(unfiltered, raw, "test detection changed raw analysis");
    result
}

fn remaining(file: &FileAnalysis) -> Vec<&str> {
    file.without_tests
        .as_ref()
        .expect("syntax test regions")
        .functions
        .iter()
        .map(|function| function.name.as_str())
        .collect()
}

#[test]
fn language_owned_path_policy_is_component_bounded_and_case_sensitive() {
    let adapter = adapter(true).unwrap();
    let policy = adapter.test_policy().unwrap();
    assert_eq!(policy.version, "gleam-tests-v1");
    assert_eq!(policy.path_patterns, TEST_PATHS);
    assert_eq!(policy.syntax_rules, TEST_SYNTAX);
    for path in [
        "test/helpers.gleam",
        "tests/fixtures/data.gleam",
        "packages/app/test/support/helper.gleam",
        "packages/app/tests/helper.gleam",
        "unit_test.gleam",
        "src/unusual_test.gleam",
    ] {
        assert!(adapter.is_test_file(path), "{path}");
    }
    for path in [
        "src/test.gleam",
        "src/tests.gleam",
        "contest/helper.gleam",
        "src/test_helpers.gleam",
        "src/unit_test.gleam.bak",
        "src/unit_Test.gleam",
        "src/unit_test.GLEAM",
        "Test/helper.gleam",
        "TESTS/helper.gleam",
    ] {
        assert!(!adapter.is_test_file(path), "{path}");
    }
}

#[test]
fn runner_import_aliases_and_selective_imports() {
    for source in [
        "import gleeunit\npub fn main() { gleeunit.main() }",
        "import gleeunit as unit\npub fn main() { unit.main() }",
        "import gleeunit.{main as run}\npub fn main() { run() }",
        "import gleeunit.{main as run} as _\npub fn main() { run() }",
        "import gleeunit.{main}\npub fn execute() { main() }",
        "import gleeunit.{main as run} as unit\npub fn execute() { unit.main() }",
        "import gleeunit\nfn execute() { gleeunit.main(// no arguments\n) }",
    ] {
        let file = parse(source);
        assert!(remaining(&file).is_empty(), "{source}");
        assert_eq!(file.without_tests.unwrap().source_lines, 0, "{source}");
    }
}

#[test]
fn runner_resolution_respects_lexical_shadowing() {
    for source in [
        "import gleeunit\npub fn main(gleeunit) { gleeunit.main() }",
        "import gleeunit\npub fn main() { let gleeunit = production()\ngleeunit.main() }",
        "import gleeunit.{main as run}\npub fn main(run) { run() }",
        "import gleeunit.{main as run}\npub fn main() { let run = fn() { 1 }\nrun() }",
        "import gleeunit.{main as run}\npub fn main() { fn(run) { run() } }",
        "import gleeunit.{main as run}\npub fn main(value) { case value { Ok(run) -> run()\n_ -> Nil } }",
        "import gleeunit.{main as run}\npub fn main(value) { let assert Ok(run) = value\nrun() }",
        "import gleeunit.{main as run}\npub fn main(value) { let #(run, _) = value\nrun() }",
        "import gleeunit.{main as run}\npub fn main(value) { let value as run = value\nrun() }",
        "import gleeunit.{main as run}\npub fn main(value) { let Holder(run:) = value\nrun() }",
        "import gleeunit.{main as run}\npub fn main() { use run <- acquire()\nrun() }",
        "import gleeunit.{main as run}\nfn run() { 1 }\npub fn main() { run() }",
        "import gleeunit.{main as run}\nimport other.{run}\npub fn main() { run() }",
        "import gleeunit as unit\nimport other as unit\npub fn main() { unit.main() }",
    ] {
        assert!(parse(source).without_tests.is_none(), "{source}");
    }
}

#[test]
fn target_dependent_runner_bindings_are_not_guessed() {
    for source in [
        "@target(erlang)\nimport gleeunit as runner\n@target(javascript)\nimport production as runner\npub fn main() { runner.main() }",
        "if erlang { import gleeunit as runner }\nif javascript { import production as runner }\npub fn main() { runner.main() }",
    ] {
        assert!(parse(source).without_tests.is_none(), "{source}");
    }
}

#[test]
fn unknown_selective_exports_do_not_erase_imports() {
    for unknown in ["type FutureType", "future_api"] {
        let source =
            format!("import gleeunit.{{main as run, {unknown}}}\npub fn main() {{ run() }}");
        let file = parse(&source);
        assert!(remaining(&file).is_empty());
        assert_eq!(file.without_tests.unwrap().source_lines, 1);
    }
}

#[test]
fn local_shadowing_does_not_leak_and_begins_after_the_initializer() {
    let source = r#"import gleeunit.{main as run}
pub fn application(value) {
  { let run = fn() { 1 }
    run() }
  case value {
    Ok(run) -> run()
    _ -> Nil
  }
  let run = run()
  run()
}
"#;
    let file = parse(source);
    assert_eq!(remaining(&file), ["application", "<anonymous>"]);
    let filtered = file.without_tests.as_ref().unwrap();
    let calls = filtered
        .regions
        .iter()
        .filter(|region| region.reason == "Gleam gleeunit main call")
        .collect::<Vec<_>>();
    assert_eq!(calls.len(), 1);
    assert_eq!(calls[0].start_byte, source.find("= run()").unwrap() + 2);
    // Masking an initializer does not erase the rest of its production line.
    assert_eq!(filtered.functions[0], file.functions[0]);
}

#[test]
fn shared_exported_unused_dynamic_and_cyclic_helpers_are_retained() {
    let source = r#"import gleeunit/should as check
const fixture_value = 1
pub const exported_value = 2
pub fn sample_test() {
  fixture() |> check.equal(fixture_value)
  shared()
  exported()
  cycle_a()
  recursive(2)
  dynamic()
}
fn fixture() { fixture_value }
fn shared() { 1 }
pub fn exported() { exported_value }
fn unused() { 0 }
fn cycle_a() { cycle_b() }
fn cycle_b() { cycle_a() }
fn recursive(n) {
  case n {
    0 -> 0
    _ -> recursive(n - 1)
  }
}
fn dynamic() { 0 }
pub fn production() {
  let callback = dynamic
  check.equal(shared(), exported_value)
  callback()
}
"#;
    let file = parse(source);
    assert_eq!(
        remaining(&file),
        [
            "shared",
            "exported",
            "unused",
            "cycle_a",
            "cycle_b",
            "dynamic",
            "production",
        ]
    );
    let filtered = file.without_tests.unwrap();
    for retained in ["import gleeunit/should", "pub const exported_value"] {
        assert!(
            !filtered
                .regions
                .iter()
                .any(|region| contains(region, source.find(retained).unwrap()))
        );
    }
    assert!(
        filtered
            .regions
            .iter()
            .any(|region| { contains(region, source.find("const fixture_value").unwrap()) })
    );
}

#[test]
fn external_runner_overrides_keep_the_function_and_attributes() {
    let file = parse(
        "import gleeunit\n@external(javascript, \"./ffi.mjs\", \"production\")\npub fn main() { gleeunit.main() }\n",
    );
    assert_eq!(remaining(&file), ["main"]);
    let filtered = file.without_tests.unwrap();
    assert_eq!(filtered.functions[0].source_lines, 1);
    assert_eq!(filtered.source_lines, 2);
}

#[test]
fn malformed_tests_still_fail_without_a_filtered_success() {
    for source in [
        b"pub fn invalid_test() { case }".as_slice(),
        b"import gleeunit\npub fn main() { gleeunit.main( }",
        b"pub fn invalid_test() { assert \xff }",
    ] {
        let file = adapter(true).unwrap().analyze(source).unwrap();
        assert!(!file.parsed());
        assert!(!file.diagnostics.is_empty());
        assert!(file.functions.is_empty());
        assert!(file.without_tests.is_none());
    }
}

#[test]
fn raw_mode_keeps_test_code_and_has_no_policy() {
    let source = "\u{feff}import gleeunit\r\npub fn production() { 1 }\r\npub fn example_test() { 2 }\r\npub fn main() { gleeunit.main() }\r\n";
    let raw_adapter = adapter(false).unwrap();
    assert!(raw_adapter.test_policy().is_none());
    assert!(!raw_adapter.is_test_file("tests/example_test.gleam"));
    let raw = raw_adapter.analyze(source.as_bytes()).unwrap();
    assert!(raw.parsed(), "{:?}", raw.diagnostics);
    assert!(raw.without_tests.is_none());
    let mut filtered = parse(source);
    let without_tests = filtered.without_tests.take().expect("recognized tests");
    assert!(without_tests.functions.len() < raw.functions.len());
    assert!(without_tests.source_lines < raw.source_lines);
    assert_eq!(raw, filtered);
}

#[test]
fn tests_take_their_helpers_and_imports_along() {
    let source = "import gleeunit as unit\nimport gleeunit/should.{equal as equals}\n\npub fn production(value) {\n  let assert Ok(value) = value\n  value\n}\n\npub fn production_test() {\n  let fixture = setup()\n  let check = fn() { fixture |> equals(3) }\n  check()\n}\n\nfn setup() {\n  case seed() {\n    0 -> 3\n    value -> value\n  }\n}\nfn seed() { 0 }\nfn unused() { Nil }\n\npub fn main() {\n  unit.main()\n}\n";
    let file = parse(source);
    assert_eq!(remaining(&file), ["production", "unused"]);
    let filtered = file.without_tests.as_ref().unwrap();
    assert_eq!(filtered.functions[0], file.functions[0]);
    assert_eq!(filtered.functions[0].complexity, 2);
    assert_eq!(filtered.source_lines, 4);
    for fragment in [
        "import gleeunit as unit",
        "import gleeunit/should",
        "pub fn production_test",
        "fn setup",
        "fn seed",
        "pub fn main",
    ] {
        let start = source.find(fragment).unwrap();
        assert!(filtered
            .regions
            .iter()
            .any(|region| contains(region, start)));
    }
}

#[test]
fn runner_calls_leave_the_rest_of_a_function() {
    let source = "import gleeunit\npub fn application(flag) {\n  case flag {\n    True -> {\n      gleeunit.main()\n      1\n    }\n    False -> 0\n  }\n}\n";
    let file = parse(source);
    assert_eq!(remaining(&file), ["application"]);
    let filtered = file.without_tests.as_ref().unwrap();
    assert_eq!(
        filtered.functions[0].complexity,
        file.functions[0].complexity
    );
    assert_eq!(
        filtered.functions[0].source_lines,
        file.functions[0].source_lines - 1
    );
    assert!(filtered.regions.iter().any(|region| {
        &source[region.start_byte..region.end_byte] == "gleeunit.main()"
            && region.reason == "Gleam gleeunit main call"
    }));
}

#[test]
fn cases_booleans_and_anonymous_functions_are_decisions() {
    let file = parse(
        "pub fn choose(value) {\n  let mapper = fn(x) { x && value || False }\n  case value {\n    True if value == True -> mapper(True)\n    False -> False\n    other -> other\n  }\n}\n",
    );
    assert_eq!(file.functions.len(), 2);
    assert_eq!(file.functions[0].name, "choose");
    assert_eq!(file.functions[0].complexity, 5);
    assert_eq!(file.functions[1].name, "<anonymous>");
    assert_eq!(file.functions[1].complexity, 3);
    let bad = adapter(false).unwrap().analyze(b"fn broken( {").unwrap();
    assert!(!bad.parsed());
    assert!(bad.functions.is_empty());
}

#[test]
fn tests_are_public_and_take_no_arguments() {
    let file = parse(
        r#"pub fn no_assertions_test(// still zero arguments
) -> Int { 42 }
pub fn generator_test_() { [fn() { check(True) }] }
fn private_test() { check(True) }
pub fn argument_test(value) { check(value) }
pub fn labelled_test(value value: Bool) { check(value) }
pub fn discarded_test(_: Bool) { check(True) }
pub fn almost_tests() { check(True) }
pub fn test_prefix() { check(True) }
"#,
    );
    assert_eq!(
        remaining(&file),
        [
            "private_test",
            "argument_test",
            "labelled_test",
            "discarded_test",
            "almost_tests",
            "test_prefix",
        ]
    );
}

#[test]
fn external_tests_and_target_groups_follow_names() {
    let file = parse(
        r#"@external(erlang, "foreign", "run")
pub fn foreign_test() -> Nil
if erlang {
  pub fn erlang_test_() { [fn() { check(True) }] }
  pub fn production() { 1 }
}
if javascript {
  pub fn javascript_test() { check(True) }
}
"#,
    );
    assert_eq!(remaining(&file), ["production"]);
    let filtered = file.without_tests.unwrap();
    assert!(
        filtered
            .regions
            .iter()
            .any(|region| region.start_byte == 0 && region.end_line == 2)
    );
}

#[test]
fn calls_comments_strings_and_unknown_frameworks_are_not_tests() {
    for source in [
        "pub fn validate(x) { check(x) }\n",
        "pub fn validate(x) { let assert Ok(value) = x\nvalue }\n",
        "import gleeunit/should\npub fn validate(x) { should.equal(x, 1) }\n",
        "import gleeunit/should.{equal as same}\npub fn validate(x) { same(x, 1) }\n",
        "import gleam/should\npub fn validate(x) { should.be_true(x) }\n",
        "import business/gleeunit\npub fn main() { gleeunit.main() }\n",
        "import business as gleeunit\npub fn main() { gleeunit.main() }\n",
        "pub fn main() { gleeunit.main() }\n",
        "import gleeunit\npub fn main() { gleeunit.test(fn() { check(True) }) }\n",
        "import gleeunit\npub fn main() { gleeunit.main(1) }\n",
        "import gleeunit\npub fn main() { Nil |> gleeunit.main() }\n",
        "import gleeunit\npub fn main() { use <- gleeunit.main()\nNil }\n",
        "import gleeunit\npub fn main() { let run = gleeunit.main\nrun() }\n",
        "import gleeunit\npub fn main() { custom_runner(gleeunit.main) }\n",
        "//// import gleeunit\n/// pub fn example_test() {}\n// gleeunit.main()\npub fn value() { \"pub fn x_test() { gleeunit.main() }\" }\n",
        "import gleeunit/should\nfn setup() { should.equal(1, 1) }\nfn teardown() { check(True) }\n",
    ] {
        assert!(parse(source).without_tests.is_none(), "{source}");
    }
}

#[test]
fn functions_around_a_runner_call_keep_their_complexity() {
    for source in [
        "import gleeunit\npub fn execute(value) { gleeunit.main() }",
        "import gleeunit\npub fn main() { check(True)\ngleeunit.main()\n42 }",
    ] {
        let file = parse(source);
        let filtered = file.without_tests.as_ref().unwrap();
        assert_eq!(filtered.functions.len(), 1);
        assert_eq!(
            filtered.functions[0].complexity,
            file.functions[0].complexity
        );
        assert!(
            filtered
                .regions
                .iter()
                .any(|region| region.reason == "Gleam gleeunit main call")
        );
        assert!(
            !filtered
                .regions
                .iter()
                .any(|region| region.reason == "Gleam gleeunit main runner")
        );
    }
}

#[test]
fn label_shorthand_and_pattern_sizes_refer_to_helpers() {
    for production in [
        "pub fn production() { consume(helper:) }",
        "pub fn production(record) { Holder(..record, helper:) }",
        "pub fn production(value) { let <<part:bytes-size(helper)>> = value\npart }",
        "pub fn production(value) { case value { <<part:bytes-size(helper)>> -> part } }",
    ] {
        let source = format!(
            "const helper = 1\npub fn value_test() {{ check(helper == 1) }}\n{production}"
        );
        let file = parse(&source);
        assert!(
            !file
                .without_tests
                .unwrap()
                .regions
                .iter()
                .any(|region| contains(region, 0)),
            "{source}"
        );
    }
}

#[test]
fn attached_documentation_belongs_to_a_test() {
    let source = "\u{feff}//// Module docs\r\n/// Test docs\r\n@target(erlang)\r\npub fn example_test() {\r\n  // test comment\r\n  check(True)\r\n}\r\n/// Production docs\r\npub fn value() { 1 }\r\n";
    let file = parse(source);
    assert_eq!(remaining(&file), ["value"]);
    let filtered = file.without_tests.unwrap();
    assert_eq!(filtered.source_lines, 1);
    assert_eq!(filtered.regions.len(), 1);
    let region = &filtered.regions[0];
    assert_eq!(region.start_byte, source.find("/// Test docs").unwrap());
    assert_eq!(region.end_byte, source.find("\r\n/// Production").unwrap());
    assert_eq!((region.start_line, region.end_line), (2, 7));
    assert_eq!(filtered.functions[0], file.functions[1]);
}
