//! What each language takes for test code, as reports record it.

use vstd::prelude::*;
use vstd::string::*;

use super::Language;
use crate::digest::{is_fingerprint, text_fingerprint, text_fingerprint_of};
use crate::format::{join, joined, texts};
use crate::json::{json_list, json_list_text, json_string, json_string_text};
use crate::ordered::{put, OrderedMap};

verus! {

/// The test paths and test syntax of a language, under a version.
#[derive(Debug)]
pub struct LanguageTestPolicy {
    pub version: &'static str,
    pub path_patterns: Vec<String>,
    pub syntax_rules: Vec<String>,
}

#[verifier::ext_equal]
pub struct PolicyModel {
    pub version: Seq<char>,
    pub path_patterns: Seq<Seq<char>>,
    pub syntax_rules: Seq<Seq<char>>,
}

impl View for LanguageTestPolicy {
    type V = PolicyModel;

    open spec fn view(&self) -> PolicyModel {
        PolicyModel {
            version: self.version@,
            path_patterns: texts(self.path_patterns@),
            syntax_rules: texts(self.syntax_rules@),
        }
    }
}

/// A policy as a JSON object.
pub open spec fn policy_json(policy: PolicyModel) -> Seq<char> {
    "{\"version\":"@ + json_string(policy.version) + ",\"path_patterns\":"@ + json_list(
        policy.path_patterns,
    ) + ",\"syntax_rules\":"@ + json_list(policy.syntax_rules) + "}"@
}

/// What tells one policy from another.
pub open spec fn policy_fingerprint(policy: PolicyModel) -> Seq<char> {
    text_fingerprint(policy_json(policy))
}

impl LanguageTestPolicy {
    /// The policy as a JSON object.
    pub fn json(&self) -> (json: String)
        ensures
            json@ == policy_json(self@),
    {
        let mut json = "{\"version\":".to_owned();
        let version = json_string_text(self.version);
        json.append(version.as_str());
        json.append(",\"path_patterns\":");
        let patterns = json_list_text(&self.path_patterns);
        json.append(patterns.as_str());
        json.append(",\"syntax_rules\":");
        let rules = json_list_text(&self.syntax_rules);
        json.append(rules.as_str());
        json.append("}");
        json
    }

    /// What tells the policy from another one.
    pub fn fingerprint(&self) -> (text: String)
        ensures
            text@ == policy_fingerprint(self@),
            is_fingerprint(text@),
    {
        let json = self.json();
        text_fingerprint_of(json.as_str())
    }
}

/// What a language takes for test code.
pub open spec fn policy_of(language: Language) -> PolicyModel {
    match language {
        Language::Python => python_tests(),
        Language::Rust => rust_tests(),
        Language::Gleam => gleam_tests(),
        _ => javascript_tests(),
    }
}

/// What a language takes for test code.
pub fn language_policy(language: Language) -> (policy: LanguageTestPolicy)
    ensures
        policy@ == policy_of(language),
{
    match language {
        Language::Python => python_policy(),
        Language::Rust => rust_policy(),
        Language::Gleam => gleam_policy(),
        _ => javascript_policy(),
    }
}

/// What JavaScript, TypeScript and TSX take for test code.
pub open spec fn javascript_tests() -> PolicyModel {
    PolicyModel {
        version: "javascript-tests-v1"@,
        path_patterns: seq![
            "**/test/**"@,
            "**/tests/**"@,
            "**/__tests__/**"@,
            "**/__mocks__/**"@,
            "**/*.test.*"@,
            "**/*.tests.*"@,
            "**/*.spec.*"@,
            "**/*.cy.*"@,
        ],
        syntax_rules: seq![
            "Node test, Jest globals, Vitest, Mocha, AVA, Tape, Playwright and uvu literal imports/requires"@,
            "lexically resolved aliases, namespaces, destructuring, modifiers and parameterized tests"@,
            "unshadowed ambient suite/test callbacks with framework imports or a same-scope suite containing tests"@,
            "test hooks, registrations, and non-exported local callbacks/helpers used exclusively by test regions"@,
            "reassigned/mutated bindings, dynamic imports, eval/with and uncertain callback ownership are retained"@,
            "assertions and arbitrary objects named test are not test regions; benchmarks are not inferred"@,
        ],
    }
}

fn javascript_policy() -> (policy: LanguageTestPolicy)
    ensures
        policy@ == javascript_tests(),
{
    let mut path_patterns: Vec<String> = Vec::new();
    path_patterns.push("**/test/**".to_owned());
    path_patterns.push("**/tests/**".to_owned());
    path_patterns.push("**/__tests__/**".to_owned());
    path_patterns.push("**/__mocks__/**".to_owned());
    path_patterns.push("**/*.test.*".to_owned());
    path_patterns.push("**/*.tests.*".to_owned());
    path_patterns.push("**/*.spec.*".to_owned());
    path_patterns.push("**/*.cy.*".to_owned());
    let mut syntax_rules: Vec<String> = Vec::new();
    syntax_rules.push(
        "Node test, Jest globals, Vitest, Mocha, AVA, Tape, Playwright and uvu literal imports/requires".to_owned(),
    );
    syntax_rules.push(
        "lexically resolved aliases, namespaces, destructuring, modifiers and parameterized tests".to_owned(),
    );
    syntax_rules.push(
        "unshadowed ambient suite/test callbacks with framework imports or a same-scope suite containing tests".to_owned(),
    );
    syntax_rules.push(
        "test hooks, registrations, and non-exported local callbacks/helpers used exclusively by test regions".to_owned(),
    );
    syntax_rules.push(
        "reassigned/mutated bindings, dynamic imports, eval/with and uncertain callback ownership are retained".to_owned(),
    );
    syntax_rules.push(
        "assertions and arbitrary objects named test are not test regions; benchmarks are not inferred".to_owned(),
    );
    let policy = LanguageTestPolicy { version: "javascript-tests-v1", path_patterns, syntax_rules };
    assert(policy@.path_patterns =~= javascript_tests().path_patterns);
    assert(policy@.syntax_rules =~= javascript_tests().syntax_rules);
    policy
}

/// What Python takes for test code.
pub open spec fn python_tests() -> PolicyModel {
    PolicyModel {
        version: "python-tests-v1"@,
        path_patterns: seq![
            "**/test/**"@,
            "**/tests/**"@,
            "**/__tests__/**"@,
            "**/test_*.{py,pyw,pyi}"@,
            "**/*_test.{py,pyw,pyi}"@,
            "**/conftest.{py,pyw,pyi}"@,
        ],
        syntax_rules: seq![
            "Whole classes inheriting from statically bound unittest.TestCase or IsolatedAsyncioTestCase, including import aliases and earlier undecorated, unmodified local subclass chains."@,
            "Functions (including async functions) decorated with statically bound pytest.fixture or yield_fixture, bare or called, including import aliases."@,
            "Functions named test_* and classes named Test* decorated with statically bound pytest.mark.<marker>, bare or called; whole decorated definitions, including class helpers, are excluded. Explicit __test__ overrides or class constructors retain marked definitions; marked methods require a discoverable Test* container."@,
            "Standalone calls to statically bound unittest.main, including import aliases; a __name__ == '__main__' guard is excluded only when its entire body is such calls and it has no alternate branch."@,
            "Bindings must be unique and precede use. Parameters, assignments, imports, definitions, deletion, captures, global/nonlocal declarations and wildcard imports shadow evidence; framework attribute writes invalidate that framework."@,
            "Conservative static subset: assertions, test names or framework imports alone are not tests. Assignment aliases, wildcard-import evidence, custom decorators, pytestmark variables, generic annotation scopes, dynamic bases/metaclasses and decorated or mutated inheritance chains are not resolved. Conditional imports/definitions and multiply bound names remain uncertain."@,
        ],
    }
}

fn python_policy() -> (policy: LanguageTestPolicy)
    ensures
        policy@ == python_tests(),
{
    let mut path_patterns: Vec<String> = Vec::new();
    path_patterns.push("**/test/**".to_owned());
    path_patterns.push("**/tests/**".to_owned());
    path_patterns.push("**/__tests__/**".to_owned());
    path_patterns.push("**/test_*.{py,pyw,pyi}".to_owned());
    path_patterns.push("**/*_test.{py,pyw,pyi}".to_owned());
    path_patterns.push("**/conftest.{py,pyw,pyi}".to_owned());
    let mut syntax_rules: Vec<String> = Vec::new();
    syntax_rules.push(
        "Whole classes inheriting from statically bound unittest.TestCase or IsolatedAsyncioTestCase, including import aliases and earlier undecorated, unmodified local subclass chains.".to_owned(),
    );
    syntax_rules.push(
        "Functions (including async functions) decorated with statically bound pytest.fixture or yield_fixture, bare or called, including import aliases.".to_owned(),
    );
    syntax_rules.push(
        "Functions named test_* and classes named Test* decorated with statically bound pytest.mark.<marker>, bare or called; whole decorated definitions, including class helpers, are excluded. Explicit __test__ overrides or class constructors retain marked definitions; marked methods require a discoverable Test* container.".to_owned(),
    );
    syntax_rules.push(
        "Standalone calls to statically bound unittest.main, including import aliases; a __name__ == '__main__' guard is excluded only when its entire body is such calls and it has no alternate branch.".to_owned(),
    );
    syntax_rules.push(
        "Bindings must be unique and precede use. Parameters, assignments, imports, definitions, deletion, captures, global/nonlocal declarations and wildcard imports shadow evidence; framework attribute writes invalidate that framework.".to_owned(),
    );
    syntax_rules.push(
        "Conservative static subset: assertions, test names or framework imports alone are not tests. Assignment aliases, wildcard-import evidence, custom decorators, pytestmark variables, generic annotation scopes, dynamic bases/metaclasses and decorated or mutated inheritance chains are not resolved. Conditional imports/definitions and multiply bound names remain uncertain.".to_owned(),
    );
    let policy = LanguageTestPolicy { version: "python-tests-v1", path_patterns, syntax_rules };
    assert(policy@.path_patterns =~= python_tests().path_patterns);
    assert(policy@.syntax_rules =~= python_tests().syntax_rules);
    policy
}

/// What Rust takes for test code.
pub open spec fn rust_tests() -> PolicyModel {
    PolicyModel {
        version: "rust-tests-v1"@,
        path_patterns: seq![
            "**/tests/**"@,
            "**/tests.rs"@,
        ],
        syntax_rules: seq![
            "Unshadowed built-in #[test] functions; tokio::test, async_std::test, rstest::rstest and test_case::test_case functions, including explicit use/grouped-use and extern-crate aliases."@,
            "Outer cfg/cfg_attr gates on syntax and inner gates on crates, modules, impls and function/block bodies are excluded only when definitely absent outside test mode and potentially present in test mode; all, any and not use conservative three-valued evaluation."@,
            "Attached outer attributes and intervening comments belong to the excluded item; nested test regions are measured on the original AST."@,
            "tests directories and dedicated tests.rs files only; no generic test/spec suffixes or benchmark exclusion."@,
            "No macro expansion, Cargo/environment evaluation or cross-file resolution. Bare framework macro names need explicit imports; custom attributes, attributed imports, wildcard-import ambiguity, conflicting bindings and unresolved crate/self/super reexports are retained."@,
            "Inline modules do not inherit ordinary parent imports; block scopes do. Local module/type names and macro/import bindings conservatively shadow qualified attributes. Absolute known crate paths bypass local imports but respect explicit extern-crate renames."@,
            "Unknown cfg predicates are independent unknowns, not a SAT solver; unsupported meta subexpressions and alias/cfg recursion beyond 64 levels are treated as unknown."@,
        ],
    }
}

fn rust_policy() -> (policy: LanguageTestPolicy)
    ensures
        policy@ == rust_tests(),
{
    let mut path_patterns: Vec<String> = Vec::new();
    path_patterns.push("**/tests/**".to_owned());
    path_patterns.push("**/tests.rs".to_owned());
    let mut syntax_rules: Vec<String> = Vec::new();
    syntax_rules.push(
        "Unshadowed built-in #[test] functions; tokio::test, async_std::test, rstest::rstest and test_case::test_case functions, including explicit use/grouped-use and extern-crate aliases.".to_owned(),
    );
    syntax_rules.push(
        "Outer cfg/cfg_attr gates on syntax and inner gates on crates, modules, impls and function/block bodies are excluded only when definitely absent outside test mode and potentially present in test mode; all, any and not use conservative three-valued evaluation.".to_owned(),
    );
    syntax_rules.push(
        "Attached outer attributes and intervening comments belong to the excluded item; nested test regions are measured on the original AST.".to_owned(),
    );
    syntax_rules.push(
        "tests directories and dedicated tests.rs files only; no generic test/spec suffixes or benchmark exclusion.".to_owned(),
    );
    syntax_rules.push(
        "No macro expansion, Cargo/environment evaluation or cross-file resolution. Bare framework macro names need explicit imports; custom attributes, attributed imports, wildcard-import ambiguity, conflicting bindings and unresolved crate/self/super reexports are retained.".to_owned(),
    );
    syntax_rules.push(
        "Inline modules do not inherit ordinary parent imports; block scopes do. Local module/type names and macro/import bindings conservatively shadow qualified attributes. Absolute known crate paths bypass local imports but respect explicit extern-crate renames.".to_owned(),
    );
    syntax_rules.push(
        "Unknown cfg predicates are independent unknowns, not a SAT solver; unsupported meta subexpressions and alias/cfg recursion beyond 64 levels are treated as unknown.".to_owned(),
    );
    let policy = LanguageTestPolicy { version: "rust-tests-v1", path_patterns, syntax_rules };
    assert(policy@.path_patterns =~= rust_tests().path_patterns);
    assert(policy@.syntax_rules =~= rust_tests().syntax_rules);
    policy
}

/// What Gleam takes for test code.
pub open spec fn gleam_tests() -> PolicyModel {
    PolicyModel {
        version: "gleam-tests-v1"@,
        path_patterns: seq![
            "**/test/**"@,
            "**/tests/**"@,
            "**/*_test.gleam"@,
        ],
        syntax_rules: seq![
            "Public zero-argument *_test functions follow gleeunit/EUnit discovery; public zero-argument *_test_ generators follow Erlang EUnit, independent of imports or file name."@,
            "Literal gleeunit.main() calls require an unshadowed import, including module and selective-import aliases; a named zero-argument function whose only expression is that call is a test runner unless it has an external override."@,
            "Other functions retain their production body around a recognized runner call; piped/use calls with implicit arguments are not zero-argument runners."@,
            "Private functions/constants and known-API gleeunit or gleeunit/should imports are excluded only with at least one test reference and no references outside test regions or their own declaration; shared, exported, unused and mutually recursive helpers remain."@,
            "Declaration regions include attached attributes and documentation. Assertions, should calls and helper/fixture names alone never establish a test."@,
            "gleeunit exposes no callback-registration or fixture DSL. Custom frameworks, dynamic/local runner aliases, cross-file wrappers and ambiguous bindings remain included; target-specific duplicate bindings are not guessed."@,
        ],
    }
}

fn gleam_policy() -> (policy: LanguageTestPolicy)
    ensures
        policy@ == gleam_tests(),
{
    let mut path_patterns: Vec<String> = Vec::new();
    path_patterns.push("**/test/**".to_owned());
    path_patterns.push("**/tests/**".to_owned());
    path_patterns.push("**/*_test.gleam".to_owned());
    let mut syntax_rules: Vec<String> = Vec::new();
    syntax_rules.push(
        "Public zero-argument *_test functions follow gleeunit/EUnit discovery; public zero-argument *_test_ generators follow Erlang EUnit, independent of imports or file name.".to_owned(),
    );
    syntax_rules.push(
        "Literal gleeunit.main() calls require an unshadowed import, including module and selective-import aliases; a named zero-argument function whose only expression is that call is a test runner unless it has an external override.".to_owned(),
    );
    syntax_rules.push(
        "Other functions retain their production body around a recognized runner call; piped/use calls with implicit arguments are not zero-argument runners.".to_owned(),
    );
    syntax_rules.push(
        "Private functions/constants and known-API gleeunit or gleeunit/should imports are excluded only with at least one test reference and no references outside test regions or their own declaration; shared, exported, unused and mutually recursive helpers remain.".to_owned(),
    );
    syntax_rules.push(
        "Declaration regions include attached attributes and documentation. Assertions, should calls and helper/fixture names alone never establish a test.".to_owned(),
    );
    syntax_rules.push(
        "gleeunit exposes no callback-registration or fixture DSL. Custom frameworks, dynamic/local runner aliases, cross-file wrappers and ambiguous bindings remain included; target-specific duplicate bindings are not guessed.".to_owned(),
    );
    let policy = LanguageTestPolicy { version: "gleam-tests-v1", path_patterns, syntax_rules };
    assert(policy@.path_patterns =~= gleam_tests().path_patterns);
    assert(policy@.syntax_rules =~= gleam_tests().syntax_rules);
    policy
}

/// The version of the policy over all languages.
pub const TEST_POLICY_VERSION: &'static str = "language-tests-v1";

/// What all languages take for test code, by the names of the languages.
pub struct TestExclusionPolicy {
    pub version: &'static str,
    pub languages: OrderedMap<LanguageTestPolicy>,
}

#[verifier::ext_equal]
pub struct ExclusionPolicyModel {
    pub version: Seq<char>,
    pub languages: Seq<(Seq<char>, PolicyModel)>,
}

/// Policies by what they say.
pub open spec fn policy_models(policies: Seq<(Seq<char>, LanguageTestPolicy)>) -> Seq<
    (Seq<char>, PolicyModel),
> {
    policies.map_values(|p: (Seq<char>, LanguageTestPolicy)| (p.0, p.1@))
}

impl View for TestExclusionPolicy {
    type V = ExclusionPolicyModel;

    open spec fn view(&self) -> ExclusionPolicyModel {
        ExclusionPolicyModel {
            version: self.version@,
            languages: policy_models(self.languages@),
        }
    }
}

/// The languages in the order in which they are set up.
pub open spec fn language_at(k: int) -> Language {
    if k == 0 {
        Language::JavaScript
    } else if k == 1 {
        Language::TypeScript
    } else if k == 2 {
        Language::Tsx
    } else if k == 3 {
        Language::Python
    } else if k == 4 {
        Language::Rust
    } else {
        Language::Gleam
    }
}

/// The language at a place in the order of setting up.
pub(crate) fn nth_language(k: usize) -> (language: Language)
    ensures
        language == language_at(k as int),
{
    if k == 0 {
        Language::JavaScript
    } else if k == 1 {
        Language::TypeScript
    } else if k == 2 {
        Language::Tsx
    } else if k == 3 {
        Language::Python
    } else if k == 4 {
        Language::Rust
    } else {
        Language::Gleam
    }
}

/// The policies of the first `n` languages, by their names.
pub open spec fn first_policies(n: int) -> Seq<(Seq<char>, PolicyModel)>
    decreases n,
{
    if n <= 0 {
        Seq::empty()
    } else {
        let language = language_at(n - 1);
        put(first_policies(n - 1), language.name(), policy_of(language))
    }
}

/// What all languages take for test code.
pub open spec fn exclusion_policy() -> ExclusionPolicyModel {
    ExclusionPolicyModel { version: TEST_POLICY_VERSION@, languages: first_policies(6) }
}

proof fn lemma_put_models(
    policies: Seq<(Seq<char>, LanguageTestPolicy)>,
    key: Seq<char>,
    policy: LanguageTestPolicy,
)
    ensures
        policy_models(put(policies, key, policy)) == put(policy_models(policies), key, policy@),
    decreases policies.len(),
{
    let models = policy_models(policies);
    if policies.len() > 0 {
        let rest = policies.drop_last();
        assert(policy_models(rest) =~= models.drop_last());
        lemma_put_models(rest, key, policy);
    }
    assert(policy_models(put(policies, key, policy)) =~= put(models, key, policy@));
}

/// The members of a JSON object, one for each policy.
pub open spec fn policy_members(languages: Seq<(Seq<char>, PolicyModel)>) -> Seq<Seq<char>> {
    languages.map_values(
        |p: (Seq<char>, PolicyModel)| json_string(p.0) + ":"@ + policy_json(p.1),
    )
}

/// The policy over all languages as a JSON object.
pub open spec fn exclusion_policy_json(policy: ExclusionPolicyModel) -> Seq<char> {
    "{\"version\":"@ + json_string(policy.version) + ",\"languages\":{"@ + joined(
        policy_members(policy.languages),
        ","@,
    ) + "}}"@
}

impl TestExclusionPolicy {
    /// What all languages take for test code.
    pub fn current() -> (policy: Self)
        ensures
            policy@ == exclusion_policy(),
    {
        let mut languages: OrderedMap<LanguageTestPolicy> = OrderedMap::new();
        assert(policy_models(languages@) =~= first_policies(0));
        let mut k: usize = 0;
        while k < 6
            invariant
                k <= 6,
                policy_models(languages@) == first_policies(k as int),
            decreases 6 - k,
        {
            let language = nth_language(k);
            let policy = language_policy(language);
            proof {
                lemma_put_models(languages@, language.name(), policy);
            }
            languages.set(language.id(), policy);
            k = k + 1;
        }
        TestExclusionPolicy { version: TEST_POLICY_VERSION, languages }
    }

    /// The policy as a JSON object.
    pub fn json(&self) -> (json: String)
        ensures
            json@ == exclusion_policy_json(self@),
    {
        let ghost members = policy_members(self@.languages);
        let mut parts: Vec<String> = Vec::new();
        let n: usize = self.languages.len();
        let mut k: usize = 0;
        while k < n
            invariant
                n == self.languages@.len(),
                members == policy_members(self@.languages),
                k <= n,
                parts@.len() == k,
                forall|i: int| 0 <= i < k ==> (#[trigger] parts@[i])@ == members[i],
            decreases n - k,
        {
            let mut part = json_string_text(self.languages.key(k));
            part.append(":");
            let policy = self.languages.value(k).json();
            part.append(policy.as_str());
            assert(members[k as int] == part@);
            parts.push(part);
            k = k + 1;
        }
        assert(texts(parts@) =~= members);
        let mut json = "{\"version\":".to_owned();
        let version = json_string_text(self.version);
        json.append(version.as_str());
        json.append(",\"languages\":{");
        let list = join(&parts, ",");
        json.append(list.as_str());
        json.append("}}");
        json
    }
}

} // verus!
