//! What is written down of configurations, policies, grammars and diagnostics.

use vstd::prelude::*;

use crate::config::{config_json, ConfigModel};
use crate::format::joined;
use crate::json::{json_list, json_string};
use crate::languages::adapters::{
    gleam_fields, gleam_kinds, gleam_test_fields, gleam_test_kinds, javascript_fields,
    javascript_kinds, python_fields, python_kinds, rust_fields, rust_kinds,
};
use crate::languages::policy::{
    exclusion_policy_json, policy_fingerprint, policy_json, policy_members, policy_of,
    ExclusionPolicyModel, PolicyModel,
};
use crate::languages::syntax::Syntax;
use crate::languages::tree::{diagnostics_at, utf8_diagnostic, SyntaxRules};
use crate::languages::Language;
use crate::text::utf8_complaint;

verus! {

/// A configuration is written as what it takes in and what it leaves out.
pub proof fn configurations_are_written(config: ConfigModel)
    ensures
        config_json(config) == "{\"include\":"@ + json_list(config.includes) + ",\"exclude\":"@
            + json_list(config.exclude) + "}"@,
{
}

/// A policy is written as its version, its paths and its rules, and is known by the
/// digest of that text.
pub proof fn policies_are_written(policy: PolicyModel, all: ExclusionPolicyModel, k: int)
    ensures
        policy_json(policy) == "{\"version\":"@ + json_string(policy.version)
            + ",\"path_patterns\":"@ + json_list(policy.path_patterns) + ",\"syntax_rules\":"@
            + json_list(policy.syntax_rules) + "}"@,
        policy_fingerprint(policy) == crate::digest::text_fingerprint(policy_json(policy)),
        exclusion_policy_json(all) == "{\"version\":"@ + json_string(all.version)
            + ",\"languages\":{"@ + joined(policy_members(all.languages), ","@) + "}}"@,
        policy_members(all.languages).len() == all.languages.len(),
        0 <= k < all.languages.len() ==> policy_members(all.languages)[k] == json_string(
            all.languages[k].0,
        ) + ":"@ + policy_json(all.languages[k].1),
{
}

/// A node that is missing or an error is reported at its place, counted from one, and so
/// is what the language forbids.
pub proof fn diagnostics_are_described<R: SyntaxRules>(t: Syntax, i: int, source: Seq<u8>)
    ensures
        ({
            let found = diagnostics_at::<R>(t, i);
            let node = t.nodes[i];
            let forbidden = R::validation_error_spec(t, i);
            &&& node.missing ==> found[0].message == "Missing "@ + node.kind@ && found.len() >= 1
            &&& !node.missing && node.error ==> found[0].message == "Unrecognized syntax"@
                && found.len() >= 1
            &&& !node.missing && !node.error && forbidden is None ==> found.len() == 0
            &&& forbidden is Some ==> found.len() >= 1 && found.last().message == forbidden->0
            &&& forall|k: int|
                0 <= k < found.len() ==> (#[trigger] found[k]).line == (node.start_row + 1) as usize
                    && found[k].column == (node.start_column + 1) as usize
        }),
        utf8_diagnostic(source).message == "Invalid UTF-8: "@ + utf8_complaint(source),
{
}

/// The kinds of nodes that a JavaScript grammar must have.
pub proof fn required_javascript_kinds()
    ensures
        javascript_kinds().contains("function_declaration"@),
        javascript_kinds().contains("function_expression"@),
        javascript_kinds().contains("generator_function_declaration"@),
        javascript_kinds().contains("generator_function"@),
        javascript_kinds().contains("arrow_function"@),
        javascript_kinds().contains("method_definition"@),
        javascript_kinds().contains("catch_clause"@),
        javascript_kinds().contains("if_statement"@),
        javascript_kinds().contains("switch_statement"@),
        javascript_kinds().contains("ternary_expression"@),
        javascript_kinds().contains("do_statement"@),
        javascript_kinds().contains("for_in_statement"@),
        javascript_kinds().contains("for_statement"@),
        javascript_kinds().contains("while_statement"@),
        javascript_kinds().contains("binary_expression"@),
        javascript_kinds().contains("comment"@),
{
    assert(javascript_kinds()[0] == "function_declaration"@);
    assert(javascript_kinds()[1] == "function_expression"@);
    assert(javascript_kinds()[2] == "generator_function_declaration"@);
    assert(javascript_kinds()[3] == "generator_function"@);
    assert(javascript_kinds()[4] == "arrow_function"@);
    assert(javascript_kinds()[5] == "method_definition"@);
    assert(javascript_kinds()[6] == "catch_clause"@);
    assert(javascript_kinds()[7] == "if_statement"@);
    assert(javascript_kinds()[8] == "switch_statement"@);
    assert(javascript_kinds()[9] == "ternary_expression"@);
    assert(javascript_kinds()[10] == "do_statement"@);
    assert(javascript_kinds()[11] == "for_in_statement"@);
    assert(javascript_kinds()[12] == "for_statement"@);
    assert(javascript_kinds()[13] == "while_statement"@);
    assert(javascript_kinds()[14] == "binary_expression"@);
    assert(javascript_kinds()[15] == "comment"@);
}

/// The fields that a JavaScript grammar must have.
pub proof fn required_javascript_fields()
    ensures
        javascript_fields().contains("body"@),
        javascript_fields().contains("operator"@),
{
    assert(javascript_fields()[0] == "body"@);
    assert(javascript_fields()[1] == "operator"@);
}

/// The kinds of nodes that the Python grammar must have.
pub proof fn required_python_kinds()
    ensures
        python_kinds().contains("if_statement"@),
        python_kinds().contains("elif_clause"@),
        python_kinds().contains("for_statement"@),
        python_kinds().contains("while_statement"@),
        python_kinds().contains("except_clause"@),
        python_kinds().contains("conditional_expression"@),
        python_kinds().contains("assert_statement"@),
        python_kinds().contains("for_in_clause"@),
        python_kinds().contains("if_clause"@),
        python_kinds().contains("boolean_operator"@),
        python_kinds().contains("function_definition"@),
        python_kinds().contains("lambda"@),
        python_kinds().contains("case_clause"@),
        python_kinds().contains("else_clause"@),
        python_kinds().contains("block"@),
        python_kinds().contains("expression_statement"@),
        python_kinds().contains("string"@),
        python_kinds().contains("string_start"@),
        python_kinds().contains("comment"@),
{
    assert(python_kinds()[0] == "if_statement"@);
    assert(python_kinds()[1] == "elif_clause"@);
    assert(python_kinds()[2] == "for_statement"@);
    assert(python_kinds()[3] == "while_statement"@);
    assert(python_kinds()[4] == "except_clause"@);
    assert(python_kinds()[5] == "conditional_expression"@);
    assert(python_kinds()[6] == "assert_statement"@);
    assert(python_kinds()[7] == "for_in_clause"@);
    assert(python_kinds()[8] == "if_clause"@);
    assert(python_kinds()[9] == "boolean_operator"@);
    assert(python_kinds()[10] == "function_definition"@);
    assert(python_kinds()[11] == "lambda"@);
    assert(python_kinds()[12] == "case_clause"@);
    assert(python_kinds()[13] == "else_clause"@);
    assert(python_kinds()[14] == "block"@);
    assert(python_kinds()[15] == "expression_statement"@);
    assert(python_kinds()[16] == "string"@);
    assert(python_kinds()[17] == "string_start"@);
    assert(python_kinds()[18] == "comment"@);
}

/// The fields that the Python grammar must have.
pub proof fn required_python_fields()
    ensures
        python_fields().contains("body"@),
{
    assert(python_fields()[0] == "body"@);
}

/// The kinds of nodes that the Rust grammar must have.
pub proof fn required_rust_kinds()
    ensures
        rust_kinds().contains("if_expression"@),
        rust_kinds().contains("for_expression"@),
        rust_kinds().contains("while_expression"@),
        rust_kinds().contains("loop_expression"@),
        rust_kinds().contains("function_item"@),
        rust_kinds().contains("closure_expression"@),
        rust_kinds().contains("match_arm"@),
        rust_kinds().contains("let_declaration"@),
        rust_kinds().contains("binary_expression"@),
        rust_kinds().contains("line_comment"@),
        rust_kinds().contains("block_comment"@),
        rust_kinds().contains("attribute_item"@),
        rust_kinds().contains("inner_attribute_item"@),
        rust_kinds().contains("attribute"@),
        rust_kinds().contains("token_tree"@),
        rust_kinds().contains("use_declaration"@),
        rust_kinds().contains("use_as_clause"@),
        rust_kinds().contains("scoped_use_list"@),
        rust_kinds().contains("use_list"@),
        rust_kinds().contains("use_wildcard"@),
        rust_kinds().contains("extern_crate_declaration"@),
{
    assert(rust_kinds()[0] == "if_expression"@);
    assert(rust_kinds()[1] == "for_expression"@);
    assert(rust_kinds()[2] == "while_expression"@);
    assert(rust_kinds()[3] == "loop_expression"@);
    assert(rust_kinds()[4] == "function_item"@);
    assert(rust_kinds()[5] == "closure_expression"@);
    assert(rust_kinds()[6] == "match_arm"@);
    assert(rust_kinds()[7] == "let_declaration"@);
    assert(rust_kinds()[8] == "binary_expression"@);
    assert(rust_kinds()[9] == "line_comment"@);
    assert(rust_kinds()[10] == "block_comment"@);
    assert(rust_kinds()[11] == "attribute_item"@);
    assert(rust_kinds()[12] == "inner_attribute_item"@);
    assert(rust_kinds()[13] == "attribute"@);
    assert(rust_kinds()[14] == "token_tree"@);
    assert(rust_kinds()[15] == "use_declaration"@);
    assert(rust_kinds()[16] == "use_as_clause"@);
    assert(rust_kinds()[17] == "scoped_use_list"@);
    assert(rust_kinds()[18] == "use_list"@);
    assert(rust_kinds()[19] == "use_wildcard"@);
    assert(rust_kinds()[20] == "extern_crate_declaration"@);
}

/// The fields that the Rust grammar must have.
pub proof fn required_rust_fields()
    ensures
        rust_fields().contains("body"@),
        rust_fields().contains("name"@),
        rust_fields().contains("operator"@),
        rust_fields().contains("pattern"@),
        rust_fields().contains("alternative"@),
{
    assert(rust_fields()[0] == "body"@);
    assert(rust_fields()[1] == "name"@);
    assert(rust_fields()[2] == "operator"@);
    assert(rust_fields()[3] == "pattern"@);
    assert(rust_fields()[4] == "alternative"@);
}

/// The kinds of nodes that the Gleam grammar must have.
pub proof fn required_gleam_kinds()
    ensures
        gleam_kinds().contains("function"@),
        gleam_kinds().contains("anonymous_function"@),
        gleam_kinds().contains("case_clause"@),
        gleam_kinds().contains("case_clause_patterns"@),
        gleam_kinds().contains("case_clause_pattern"@),
        gleam_kinds().contains("binary_expression"@),
        gleam_kinds().contains("assert"@),
        gleam_kinds().contains("let_assert"@),
        gleam_kinds().contains("module_comment"@),
        gleam_kinds().contains("statement_comment"@),
        gleam_kinds().contains("comment"@),
{
    assert(gleam_kinds()[0] == "function"@);
    assert(gleam_kinds()[1] == "anonymous_function"@);
    assert(gleam_kinds()[2] == "case_clause"@);
    assert(gleam_kinds()[3] == "case_clause_patterns"@);
    assert(gleam_kinds()[4] == "case_clause_pattern"@);
    assert(gleam_kinds()[5] == "binary_expression"@);
    assert(gleam_kinds()[6] == "assert"@);
    assert(gleam_kinds()[7] == "let_assert"@);
    assert(gleam_kinds()[8] == "module_comment"@);
    assert(gleam_kinds()[9] == "statement_comment"@);
    assert(gleam_kinds()[10] == "comment"@);
}

/// The fields that the Gleam grammar must have.
pub proof fn required_gleam_fields()
    ensures
        gleam_fields().contains("body"@),
        gleam_fields().contains("name"@),
        gleam_fields().contains("operator"@),
        gleam_fields().contains("patterns"@),
        gleam_fields().contains("guard"@),
{
    assert(gleam_fields()[0] == "body"@);
    assert(gleam_fields()[1] == "name"@);
    assert(gleam_fields()[2] == "operator"@);
    assert(gleam_fields()[3] == "patterns"@);
    assert(gleam_fields()[4] == "guard"@);
}

/// The kinds of nodes that the Gleam grammar must have for tests to be found.
pub proof fn required_gleam_test_kinds()
    ensures
        gleam_test_kinds().contains("import"@),
        gleam_test_kinds().contains("unqualified_import"@),
        gleam_test_kinds().contains("function_call"@),
        gleam_test_kinds().contains("function_parameter"@),
        gleam_test_kinds().contains("argument"@),
        gleam_test_kinds().contains("visibility_modifier"@),
        gleam_test_kinds().contains("field_access"@),
        gleam_test_kinds().contains("constant"@),
        gleam_test_kinds().contains("attribute"@),
{
    assert(gleam_test_kinds()[0] == "import"@);
    assert(gleam_test_kinds()[1] == "unqualified_import"@);
    assert(gleam_test_kinds()[2] == "function_call"@);
    assert(gleam_test_kinds()[3] == "function_parameter"@);
    assert(gleam_test_kinds()[4] == "argument"@);
    assert(gleam_test_kinds()[5] == "visibility_modifier"@);
    assert(gleam_test_kinds()[6] == "field_access"@);
    assert(gleam_test_kinds()[7] == "constant"@);
    assert(gleam_test_kinds()[8] == "attribute"@);
}

/// The fields that the Gleam grammar must have for tests to be found.
pub proof fn required_gleam_test_fields()
    ensures
        gleam_test_fields().contains("module"@),
        gleam_test_fields().contains("imports"@),
        gleam_test_fields().contains("alias"@),
        gleam_test_fields().contains("parameters"@),
        gleam_test_fields().contains("arguments"@),
        gleam_test_fields().contains("function"@),
        gleam_test_fields().contains("record"@),
        gleam_test_fields().contains("field"@),
        gleam_test_fields().contains("pattern"@),
        gleam_test_fields().contains("value"@),
        gleam_test_fields().contains("assignments"@),
        gleam_test_fields().contains("right"@),
{
    assert(gleam_test_fields()[0] == "module"@);
    assert(gleam_test_fields()[1] == "imports"@);
    assert(gleam_test_fields()[2] == "alias"@);
    assert(gleam_test_fields()[3] == "parameters"@);
    assert(gleam_test_fields()[4] == "arguments"@);
    assert(gleam_test_fields()[5] == "function"@);
    assert(gleam_test_fields()[6] == "record"@);
    assert(gleam_test_fields()[7] == "field"@);
    assert(gleam_test_fields()[8] == "pattern"@);
    assert(gleam_test_fields()[9] == "value"@);
    assert(gleam_test_fields()[10] == "assignments"@);
    assert(gleam_test_fields()[11] == "right"@);
}

/// What the policy for JavaScript says of the code that it leaves out.
pub proof fn rules_for_javascript()
    ensures
        policy_of(Language::JavaScript).syntax_rules.len() == 6,
        policy_of(Language::JavaScript).syntax_rules[0]
            == "Node test, Jest globals, Vitest, Mocha, AVA, Tape, Playwright and uvu literal imports/requires"@,
        policy_of(Language::JavaScript).syntax_rules[1]
            == "lexically resolved aliases, namespaces, destructuring, modifiers and parameterized tests"@,
        policy_of(Language::JavaScript).syntax_rules[2]
            == "unshadowed ambient suite/test callbacks with framework imports or a same-scope suite containing tests"@,
        policy_of(Language::JavaScript).syntax_rules[3]
            == "test hooks, registrations, and non-exported local callbacks/helpers used exclusively by test regions"@,
        policy_of(Language::JavaScript).syntax_rules[4]
            == "reassigned/mutated bindings, dynamic imports, eval/with and uncertain callback ownership are retained"@,
        policy_of(Language::JavaScript).syntax_rules[5]
            == "assertions and arbitrary objects named test are not test regions; benchmarks are not inferred"@,
{
}

/// What the policy for Python says of the code that it leaves out.
pub proof fn rules_for_python()
    ensures
        policy_of(Language::Python).syntax_rules.len() == 6,
        policy_of(Language::Python).syntax_rules[0]
            == "Whole classes inheriting from statically bound unittest.TestCase or IsolatedAsyncioTestCase, including import aliases and earlier undecorated, unmodified local subclass chains."@,
        policy_of(Language::Python).syntax_rules[1]
            == "Functions (including async functions) decorated with statically bound pytest.fixture or yield_fixture, bare or called, including import aliases."@,
        policy_of(Language::Python).syntax_rules[2]
            == "Functions named test_* and classes named Test* decorated with statically bound pytest.mark.<marker>, bare or called; whole decorated definitions, including class helpers, are excluded. Explicit __test__ overrides or class constructors retain marked definitions; marked methods require a discoverable Test* container."@,
        policy_of(Language::Python).syntax_rules[3]
            == "Standalone calls to statically bound unittest.main, including import aliases; a __name__ == '__main__' guard is excluded only when its entire body is such calls and it has no alternate branch."@,
        policy_of(Language::Python).syntax_rules[4]
            == "Bindings must be unique and precede use. Parameters, assignments, imports, definitions, deletion, captures, global/nonlocal declarations and wildcard imports shadow evidence; framework attribute writes invalidate that framework."@,
        policy_of(Language::Python).syntax_rules[5]
            == "Conservative static subset: assertions, test names or framework imports alone are not tests. Assignment aliases, wildcard-import evidence, custom decorators, pytestmark variables, generic annotation scopes, dynamic bases/metaclasses and decorated or mutated inheritance chains are not resolved. Conditional imports/definitions and multiply bound names remain uncertain."@,
{
}

/// What the policy for Rust says of the code that it leaves out.
pub proof fn rules_for_rust()
    ensures
        policy_of(Language::Rust).syntax_rules.len() == 7,
        policy_of(Language::Rust).syntax_rules[0]
            == "Unshadowed built-in #[test] functions; tokio::test, async_std::test, rstest::rstest and test_case::test_case functions, including explicit use/grouped-use and extern-crate aliases."@,
        policy_of(Language::Rust).syntax_rules[1]
            == "Outer cfg/cfg_attr gates on syntax and inner gates on crates, modules, impls and function/block bodies are excluded only when definitely absent outside test mode and potentially present in test mode; all, any and not use conservative three-valued evaluation."@,
        policy_of(Language::Rust).syntax_rules[2]
            == "Attached outer attributes and intervening comments belong to the excluded item; nested test regions are measured on the original AST."@,
        policy_of(Language::Rust).syntax_rules[3]
            == "tests directories and dedicated tests.rs files only; no generic test/spec suffixes or benchmark exclusion."@,
        policy_of(Language::Rust).syntax_rules[4]
            == "No macro expansion, Cargo/environment evaluation or cross-file resolution. Bare framework macro names need explicit imports; custom attributes, attributed imports, wildcard-import ambiguity, conflicting bindings and unresolved crate/self/super reexports are retained."@,
        policy_of(Language::Rust).syntax_rules[5]
            == "Inline modules do not inherit ordinary parent imports; block scopes do. Local module/type names and macro/import bindings conservatively shadow qualified attributes. Absolute known crate paths bypass local imports but respect explicit extern-crate renames."@,
        policy_of(Language::Rust).syntax_rules[6]
            == "Unknown cfg predicates are independent unknowns, not a SAT solver; unsupported meta subexpressions and alias/cfg recursion beyond 64 levels are treated as unknown."@,
{
}

/// What the policy for Gleam says of the code that it leaves out.
pub proof fn rules_for_gleam()
    ensures
        policy_of(Language::Gleam).syntax_rules.len() == 6,
        policy_of(Language::Gleam).syntax_rules[0]
            == "Public zero-argument *_test functions follow gleeunit/EUnit discovery; public zero-argument *_test_ generators follow Erlang EUnit, independent of imports or file name."@,
        policy_of(Language::Gleam).syntax_rules[1]
            == "Literal gleeunit.main() calls require an unshadowed import, including module and selective-import aliases; a named zero-argument function whose only expression is that call is a test runner unless it has an external override."@,
        policy_of(Language::Gleam).syntax_rules[2]
            == "Other functions retain their production body around a recognized runner call; piped/use calls with implicit arguments are not zero-argument runners."@,
        policy_of(Language::Gleam).syntax_rules[3]
            == "Private functions/constants and known-API gleeunit or gleeunit/should imports are excluded only with at least one test reference and no references outside test regions or their own declaration; shared, exported, unused and mutually recursive helpers remain."@,
        policy_of(Language::Gleam).syntax_rules[4]
            == "Declaration regions include attached attributes and documentation. Assertions, should calls and helper/fixture names alone never establish a test."@,
        policy_of(Language::Gleam).syntax_rules[5]
            == "gleeunit exposes no callback-registration or fixture DSL. Custom frameworks, dynamic/local runner aliases, cross-file wrappers and ambiguous bindings remain included; target-specific duplicate bindings are not guessed."@,
{
}

} // verus!
