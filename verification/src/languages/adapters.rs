//! Grammars and rules put together: one adapter for each language.

use tree_sitter::Language as Grammar;
use vstd::prelude::*;
use vstd::string::*;

use super::gleam::GleamRules;
use super::javascript::JavaScriptRules;
use super::paths::TestPaths;
use super::policy::{language_policy, policy_of, LanguageTestPolicy};
use super::python::PythonRules;
use super::rust::RustRules;
use super::syntax::{
    field_id, field_id_of, gleam_grammar, grammar_label, javascript_grammar, kind_id, node_kind_id,
    python_grammar, rust_grammar, tsx_grammar, typescript_grammar,
};
use super::tree::{analysis, analyze, matches_model, AnalysisError};
use super::Language;
use crate::format::literals;
use crate::globs::{compiled, matches_any, GlobError, GlobFailure};
use crate::metrics::{AnalysisModel, FileAnalysis};

verus! {

/// The analysis of a source in a language, with or without a look for test code.
pub open spec fn language_analysis(
    language: Language,
    source: Seq<u8>,
    exclude_tests: bool,
) -> Result<AnalysisModel, AnalysisError> {
    match language {
        Language::Python => analysis::<PythonRules>(language.name(), source, exclude_tests),
        Language::Rust => analysis::<RustRules>(language.name(), source, exclude_tests),
        Language::Gleam => analysis::<GleamRules>(language.name(), source, exclude_tests),
        _ => analysis::<JavaScriptRules>(language.name(), source, exclude_tests),
    }
}

/// The path is that of a test in a language.
pub open spec fn is_test_path(language: Language, path: Seq<char>) -> bool {
    matches_any(policy_of(language).path_patterns, true, path)
}

/// What measures the files of one language. One that excludes tests knows test
/// paths and test code; any other measures all code.
pub trait LanguageAdapter {
    spec fn source_language(&self) -> Language;

    spec fn excludes_tests(&self) -> bool;

    /// What the adapter takes for test code.
    fn test_policy(&self) -> (policy: Option<LanguageTestPolicy>)
        ensures
            policy is Some <==> self.excludes_tests(),
            policy matches Some(policy) ==> policy@ == policy_of(self.source_language()),
    ;

    /// The path is that of a test.
    fn is_test_file(&self, path: &str) -> (r: bool)
        ensures
            r == (self.excludes_tests() && is_test_path(self.source_language(), path@)),
    ;

    /// Measures a source.
    fn analyze(&self, source: &[u8]) -> (result: Result<FileAnalysis, AnalysisError>)
        ensures
            matches_model(
                result,
                language_analysis(self.source_language(), source@, self.excludes_tests()),
            ),
    ;
}

/// Why there is no adapter.
#[derive(Debug)]
pub enum AdapterError {
    /// The JavaScript adapter does not know the language.
    Unsupported { language: Language },
    /// The grammar lacks a kind of node.
    MissingKind { language: Language, kind: &'static str },
    /// The grammar lacks a field.
    MissingField { language: Language, field: &'static str },
    /// The test paths of the language make up no set.
    TestPaths { error: GlobError },
}

/// Why there is no adapter, as specifications speak of it.
pub enum AdapterFailure {
    Unsupported { language: Language },
    MissingKind { language: Language, kind: Seq<char> },
    MissingField { language: Language, field: Seq<char> },
    TestPaths { failure: GlobFailure },
}

impl View for AdapterError {
    type V = AdapterFailure;

    open spec fn view(&self) -> AdapterFailure {
        match self {
            AdapterError::Unsupported { language } => AdapterFailure::Unsupported {
                language: *language,
            },
            AdapterError::MissingKind { language, kind } => AdapterFailure::MissingKind {
                language: *language,
                kind: kind@,
            },
            AdapterError::MissingField { language, field } => AdapterFailure::MissingField {
                language: *language,
                field: field@,
            },
            AdapterError::TestPaths { error } => AdapterFailure::TestPaths { failure: error@ },
        }
    }
}

/// How messages call a language.
pub open spec fn family(language: Language) -> Seq<char> {
    match language {
        Language::Python => "Python "@,
        Language::Rust => "Rust "@,
        _ => "Gleam "@,
    }
}

pub open spec fn is_javascript(language: Language) -> bool {
    language == Language::JavaScript || language == Language::TypeScript || language
        == Language::Tsx
}

/// What to tell the user where there is no adapter.
pub open spec fn adapter_message(failure: AdapterFailure) -> Seq<char> {
    match failure {
        AdapterFailure::Unsupported { language } => "JavaScript adapter does not support "@
            + language.name(),
        AdapterFailure::MissingKind { language, kind } => if is_javascript(language) {
            "Grammar contract changed: "@ + language.name() + " has no "@ + kind
        } else {
            family(language) + "grammar missing "@ + kind
        },
        AdapterFailure::MissingField { language, field } => if is_javascript(language) {
            "Grammar missing "@ + field + " field"@
        } else if language == Language::Python {
            "Python grammar missing callable body"@
        } else {
            family(language) + "grammar missing "@ + field + " field"@
        },
        AdapterFailure::TestPaths { failure } => crate::globs::glob_message(
            failure,
            "Invalid language test path pattern "@,
            "Compiling language test paths"@,
        ),
    }
}

fn javascript_family(language: Language) -> (r: bool)
    ensures
        r == is_javascript(language),
{
    match language {
        Language::JavaScript => true,
        Language::TypeScript => true,
        Language::Tsx => true,
        _ => false,
    }
}

fn family_name(language: Language) -> (name: &'static str)
    ensures
        name@ == family(language),
{
    match language {
        Language::Python => "Python ",
        Language::Rust => "Rust ",
        _ => "Gleam ",
    }
}

impl AdapterError {
    /// What to tell the user.
    pub fn message(&self) -> (message: String)
        ensures
            message@ == adapter_message(self@),
    {
        match self {
            AdapterError::Unsupported { language } => {
                let mut message = "JavaScript adapter does not support ".to_owned();
                message.append(language.id());
                message
            },
            AdapterError::MissingKind { language, kind } => {
                if javascript_family(*language) {
                    let mut message = "Grammar contract changed: ".to_owned();
                    message.append(language.id());
                    message.append(" has no ");
                    message.append(*kind);
                    message
                } else {
                    let mut message = family_name(*language).to_owned();
                    message.append("grammar missing ");
                    message.append(*kind);
                    message
                }
            },
            AdapterError::MissingField { language, field } => {
                if javascript_family(*language) {
                    let mut message = "Grammar missing ".to_owned();
                    message.append(*field);
                    message.append(" field");
                    message
                } else if *language == Language::Python {
                    "Python grammar missing callable body".to_owned()
                } else {
                    let mut message = family_name(*language).to_owned();
                    message.append("grammar missing ");
                    message.append(*field);
                    message.append(" field");
                    message
                }
            },
            AdapterError::TestPaths { error } => error.message(
                "Invalid language test path pattern ",
                "Compiling language test paths",
            ),
        }
    }
}

/// The first of the node kinds from the `k`-th one on that a grammar lacks.
pub open spec fn missing_kind(label: Seq<char>, kinds: Seq<Seq<char>>, k: int) -> Option<Seq<char>>
    decreases kinds.len() - k,
{
    if k >= kinds.len() {
        None
    } else if node_kind_id(label, kinds[k], true) == 0 {
        Some(kinds[k])
    } else {
        missing_kind(label, kinds, k + 1)
    }
}

/// The first of the fields from the `k`-th one on that a grammar lacks.
pub open spec fn missing_field(label: Seq<char>, fields: Seq<Seq<char>>, k: int) -> Option<Seq<char>>
    decreases fields.len() - k,
{
    if k >= fields.len() {
        None
    } else if field_id(label, fields[k]) is None {
        Some(fields[k])
    } else {
        missing_field(label, fields, k + 1)
    }
}

/// What is wrong with the grammar of a language that should have the given node
/// kinds and fields.
pub open spec fn grammar_failure(
    language: Language,
    kinds: Seq<Seq<char>>,
    fields: Seq<Seq<char>>,
) -> Option<AdapterFailure> {
    match missing_kind(language.name(), kinds, 0) {
        Some(kind) => Some(AdapterFailure::MissingKind { language, kind }),
        None => match missing_field(language.name(), fields, 0) {
            Some(field) => Some(AdapterFailure::MissingField { language, field }),
            None => None,
        },
    }
}

fn check_grammar(
    grammar: &Grammar,
    language: Language,
    kinds: Vec<&'static str>,
    fields: Vec<&'static str>,
) -> (result: Result<(), AdapterError>)
    requires
        grammar_label(*grammar) == language.name(),
    ensures
        result is Ok <==> grammar_failure(language, literals(kinds@), literals(fields@)) is None,
        result matches Err(error) ==> grammar_failure(
            language,
            literals(kinds@),
            literals(fields@),
        ) == Some(error@),
{
    let ghost all = literals(kinds@);
    let ghost label = language.name();
    let mut k: usize = 0;
    while k < kinds.len()
        invariant
            grammar_label(*grammar) == label,
            all == literals(kinds@),
            k <= kinds@.len(),
            missing_kind(label, all, k as int) == missing_kind(label, all, 0),
            label == language.name(),
        decreases kinds@.len() - k,
    {
        assert(all[k as int] == kinds@[k as int]@);
        if kind_id(grammar, kinds[k], true) == 0 {
            return Err(AdapterError::MissingKind { language, kind: kinds[k] });
        }
        k = k + 1;
    }
    let ghost names = literals(fields@);
    let mut n: usize = 0;
    while n < fields.len()
        invariant
            grammar_label(*grammar) == label,
            names == literals(fields@),
            n <= fields@.len(),
            missing_field(label, names, n as int) == missing_field(label, names, 0),
            label == language.name(),
            missing_kind(label, literals(kinds@), 0) is None,
        decreases fields@.len() - n,
    {
        assert(names[n as int] == fields@[n as int]@);
        if field_id_of(grammar, fields[n]).is_none() {
            return Err(AdapterError::MissingField { language, field: fields[n] });
        }
        n = n + 1;
    }
    Ok(())
}

/// The node kinds that the rules of JavaScript, TypeScript and TSX read.
pub open spec fn javascript_kinds() -> Seq<Seq<char>> {
    seq![
        "function_declaration"@,
        "function_expression"@,
        "generator_function_declaration"@,
        "generator_function"@,
        "arrow_function"@,
        "method_definition"@,
        "catch_clause"@,
        "if_statement"@,
        "switch_statement"@,
        "ternary_expression"@,
        "do_statement"@,
        "for_in_statement"@,
        "for_statement"@,
        "while_statement"@,
        "binary_expression"@,
        "comment"@,
    ]
}

fn list_javascript_kinds() -> (list: Vec<&'static str>)
    ensures
        literals(list@) == javascript_kinds(),
{
    let mut list: Vec<&'static str> = Vec::new();
    list.push("function_declaration");
    list.push("function_expression");
    list.push("generator_function_declaration");
    list.push("generator_function");
    list.push("arrow_function");
    list.push("method_definition");
    list.push("catch_clause");
    list.push("if_statement");
    list.push("switch_statement");
    list.push("ternary_expression");
    list.push("do_statement");
    list.push("for_in_statement");
    list.push("for_statement");
    list.push("while_statement");
    list.push("binary_expression");
    list.push("comment");
    assert(literals(list@) =~= javascript_kinds());
    list
}

/// The fields that the rules of JavaScript, TypeScript and TSX read.
pub open spec fn javascript_fields() -> Seq<Seq<char>> {
    seq![
        "body"@,
        "operator"@,
    ]
}

fn list_javascript_fields() -> (list: Vec<&'static str>)
    ensures
        literals(list@) == javascript_fields(),
{
    let mut list: Vec<&'static str> = Vec::new();
    list.push("body");
    list.push("operator");
    assert(literals(list@) =~= javascript_fields());
    list
}

/// The node kinds that the rules of Python read.
pub open spec fn python_kinds() -> Seq<Seq<char>> {
    seq![
        "if_statement"@,
        "elif_clause"@,
        "for_statement"@,
        "while_statement"@,
        "except_clause"@,
        "conditional_expression"@,
        "assert_statement"@,
        "for_in_clause"@,
        "if_clause"@,
        "boolean_operator"@,
        "function_definition"@,
        "lambda"@,
        "case_clause"@,
        "else_clause"@,
        "block"@,
        "expression_statement"@,
        "string"@,
        "string_start"@,
        "comment"@,
    ]
}

fn list_python_kinds() -> (list: Vec<&'static str>)
    ensures
        literals(list@) == python_kinds(),
{
    let mut list: Vec<&'static str> = Vec::new();
    list.push("if_statement");
    list.push("elif_clause");
    list.push("for_statement");
    list.push("while_statement");
    list.push("except_clause");
    list.push("conditional_expression");
    list.push("assert_statement");
    list.push("for_in_clause");
    list.push("if_clause");
    list.push("boolean_operator");
    list.push("function_definition");
    list.push("lambda");
    list.push("case_clause");
    list.push("else_clause");
    list.push("block");
    list.push("expression_statement");
    list.push("string");
    list.push("string_start");
    list.push("comment");
    assert(literals(list@) =~= python_kinds());
    list
}

/// The fields that the rules of Python read.
pub open spec fn python_fields() -> Seq<Seq<char>> {
    seq![
        "body"@,
    ]
}

fn list_python_fields() -> (list: Vec<&'static str>)
    ensures
        literals(list@) == python_fields(),
{
    let mut list: Vec<&'static str> = Vec::new();
    list.push("body");
    assert(literals(list@) =~= python_fields());
    list
}

/// The node kinds that the rules of Rust read.
pub open spec fn rust_kinds() -> Seq<Seq<char>> {
    seq![
        "if_expression"@,
        "for_expression"@,
        "while_expression"@,
        "loop_expression"@,
        "function_item"@,
        "closure_expression"@,
        "match_arm"@,
        "let_declaration"@,
        "binary_expression"@,
        "line_comment"@,
        "block_comment"@,
        "attribute_item"@,
        "inner_attribute_item"@,
        "attribute"@,
        "token_tree"@,
        "use_declaration"@,
        "use_as_clause"@,
        "scoped_use_list"@,
        "use_list"@,
        "use_wildcard"@,
        "extern_crate_declaration"@,
    ]
}

fn list_rust_kinds() -> (list: Vec<&'static str>)
    ensures
        literals(list@) == rust_kinds(),
{
    let mut list: Vec<&'static str> = Vec::new();
    list.push("if_expression");
    list.push("for_expression");
    list.push("while_expression");
    list.push("loop_expression");
    list.push("function_item");
    list.push("closure_expression");
    list.push("match_arm");
    list.push("let_declaration");
    list.push("binary_expression");
    list.push("line_comment");
    list.push("block_comment");
    list.push("attribute_item");
    list.push("inner_attribute_item");
    list.push("attribute");
    list.push("token_tree");
    list.push("use_declaration");
    list.push("use_as_clause");
    list.push("scoped_use_list");
    list.push("use_list");
    list.push("use_wildcard");
    list.push("extern_crate_declaration");
    assert(literals(list@) =~= rust_kinds());
    list
}

/// The fields that the rules of Rust read.
pub open spec fn rust_fields() -> Seq<Seq<char>> {
    seq![
        "body"@,
        "name"@,
        "operator"@,
        "pattern"@,
        "alternative"@,
    ]
}

fn list_rust_fields() -> (list: Vec<&'static str>)
    ensures
        literals(list@) == rust_fields(),
{
    let mut list: Vec<&'static str> = Vec::new();
    list.push("body");
    list.push("name");
    list.push("operator");
    list.push("pattern");
    list.push("alternative");
    assert(literals(list@) =~= rust_fields());
    list
}

/// The node kinds that the rules of Gleam read.
pub open spec fn gleam_kinds() -> Seq<Seq<char>> {
    seq![
        "function"@,
        "anonymous_function"@,
        "case_clause"@,
        "case_clause_patterns"@,
        "case_clause_pattern"@,
        "binary_expression"@,
        "assert"@,
        "let_assert"@,
        "module_comment"@,
        "statement_comment"@,
        "comment"@,
    ]
}

fn list_gleam_kinds() -> (list: Vec<&'static str>)
    ensures
        literals(list@) == gleam_kinds(),
{
    let mut list: Vec<&'static str> = Vec::new();
    list.push("function");
    list.push("anonymous_function");
    list.push("case_clause");
    list.push("case_clause_patterns");
    list.push("case_clause_pattern");
    list.push("binary_expression");
    list.push("assert");
    list.push("let_assert");
    list.push("module_comment");
    list.push("statement_comment");
    list.push("comment");
    assert(literals(list@) =~= gleam_kinds());
    list
}

/// The fields that the rules of Gleam read.
pub open spec fn gleam_fields() -> Seq<Seq<char>> {
    seq![
        "body"@,
        "name"@,
        "operator"@,
        "patterns"@,
        "guard"@,
    ]
}

fn list_gleam_fields() -> (list: Vec<&'static str>)
    ensures
        literals(list@) == gleam_fields(),
{
    let mut list: Vec<&'static str> = Vec::new();
    list.push("body");
    list.push("name");
    list.push("operator");
    list.push("patterns");
    list.push("guard");
    assert(literals(list@) =~= gleam_fields());
    list
}

/// The node kinds that the rules of the test code of Gleam read.
pub open spec fn gleam_test_kinds() -> Seq<Seq<char>> {
    seq![
        "import"@,
        "unqualified_import"@,
        "function_call"@,
        "function_parameter"@,
        "argument"@,
        "visibility_modifier"@,
        "field_access"@,
        "constant"@,
        "attribute"@,
    ]
}

fn list_gleam_test_kinds() -> (list: Vec<&'static str>)
    ensures
        literals(list@) == gleam_test_kinds(),
{
    let mut list: Vec<&'static str> = Vec::new();
    list.push("import");
    list.push("unqualified_import");
    list.push("function_call");
    list.push("function_parameter");
    list.push("argument");
    list.push("visibility_modifier");
    list.push("field_access");
    list.push("constant");
    list.push("attribute");
    assert(literals(list@) =~= gleam_test_kinds());
    list
}

/// The fields that the rules of the test code of Gleam read.
pub open spec fn gleam_test_fields() -> Seq<Seq<char>> {
    seq![
        "module"@,
        "imports"@,
        "alias"@,
        "parameters"@,
        "arguments"@,
        "function"@,
        "record"@,
        "field"@,
        "pattern"@,
        "value"@,
        "assignments"@,
        "right"@,
    ]
}

fn list_gleam_test_fields() -> (list: Vec<&'static str>)
    ensures
        literals(list@) == gleam_test_fields(),
{
    let mut list: Vec<&'static str> = Vec::new();
    list.push("module");
    list.push("imports");
    list.push("alias");
    list.push("parameters");
    list.push("arguments");
    list.push("function");
    list.push("record");
    list.push("field");
    list.push("pattern");
    list.push("value");
    list.push("assignments");
    list.push("right");
    assert(literals(list@) =~= gleam_test_fields());
    list
}

/// What stands in the way of an adapter for a language.
pub open spec fn adapter_failure(language: Language, exclude_tests: bool) -> Option<AdapterFailure> {
    let grammar = match language {
        Language::Python => grammar_failure(language, python_kinds(), python_fields()),
        Language::Rust => grammar_failure(language, rust_kinds(), rust_fields()),
        Language::Gleam => match grammar_failure(language, gleam_kinds(), gleam_fields()) {
            Some(failure) => Some(failure),
            None => if exclude_tests {
                grammar_failure(language, gleam_test_kinds(), gleam_test_fields())
            } else {
                None
            },
        },
        _ => grammar_failure(language, javascript_kinds(), javascript_fields()),
    };
    match grammar {
        Some(failure) => Some(failure),
        None => match compiled(policy_of(language).path_patterns, true) {
            Err(failure) => if exclude_tests {
                Some(AdapterFailure::TestPaths { failure })
            } else {
                None
            },
            Ok(_) => None,
        },
    }
}

/// A checked grammar with the test paths of its language, where tests are
/// excluded.
struct Core {
    language: Language,
    grammar: Grammar,
    tests: Option<TestPaths>,
}

impl Core {
    #[verifier::type_invariant]
    spec fn fits(self) -> bool {
        &&& grammar_label(self.grammar) == self.language.name()
        &&& self.tests matches Some(tests) ==> tests.patterns() == policy_of(
            self.language,
        ).path_patterns
    }

    fn new(language: Language, exclude_tests: bool) -> (core: Result<Self, AdapterError>)
        ensures
            core is Ok <==> adapter_failure(language, exclude_tests) is None,
            core matches Ok(core) ==> core.language == language && core.tests is Some
                == exclude_tests,
            core matches Err(error) ==> adapter_failure(language, exclude_tests) == Some(error@),
    {
        let grammar: Grammar = match language {
            Language::JavaScript => javascript_grammar(),
            Language::TypeScript => typescript_grammar(),
            Language::Tsx => tsx_grammar(),
            Language::Python => python_grammar(),
            Language::Rust => rust_grammar(),
            Language::Gleam => gleam_grammar(),
        };
        let (kinds, fields) = match language {
            Language::Python => (list_python_kinds(), list_python_fields()),
            Language::Rust => (list_rust_kinds(), list_rust_fields()),
            Language::Gleam => (list_gleam_kinds(), list_gleam_fields()),
            _ => (list_javascript_kinds(), list_javascript_fields()),
        };
        match check_grammar(&grammar, language, kinds, fields) {
            Ok(()) => {},
            Err(error) => {
                return Err(error);
            },
        }
        if !exclude_tests {
            return Ok(Core { language, grammar, tests: None });
        }
        if language == Language::Gleam {
            match check_grammar(
                &grammar,
                language,
                list_gleam_test_kinds(),
                list_gleam_test_fields(),
            ) {
                Ok(()) => {},
                Err(error) => {
                    return Err(error);
                },
            }
        }
        let policy = language_policy(language);
        match TestPaths::new(&policy.path_patterns) {
            Ok(tests) => Ok(Core { language, grammar, tests: Some(tests) }),
            Err(error) => Err(AdapterError::TestPaths { error }),
        }
    }

    fn policy(&self) -> (policy: Option<LanguageTestPolicy>)
        ensures
            policy is Some <==> self.tests is Some,
            policy matches Some(policy) ==> policy@ == policy_of(self.language),
    {
        if self.tests.is_some() {
            Some(language_policy(self.language))
        } else {
            None
        }
    }

    fn matches(&self, path: &str) -> (r: bool)
        ensures
            r == (self.tests is Some && is_test_path(self.language, path@)),
    {
        proof {
            use_type_invariant(self);
        }
        match &self.tests {
            Some(tests) => tests.matches(path),
            None => false,
        }
    }
}

/// The adapter for JavaScript, TypeScript or TSX.
pub struct JavaScriptAdapter {
    core: Core,
}

impl JavaScriptAdapter {
    #[verifier::type_invariant]
    spec fn fits(self) -> bool {
        is_javascript(self.core.language)
    }

    /// An adapter for one of the languages of the family that excludes tests.
    pub fn new(language: Language) -> (adapter: Result<Self, AdapterError>)
        ensures
            adapter is Ok <==> is_javascript(language) && adapter_failure(language, true) is None,
            adapter matches Ok(adapter) ==> adapter.source_language() == language
                && adapter.excludes_tests(),
            adapter matches Err(error) ==> error@ == (if is_javascript(language) {
                adapter_failure(language, true)->0
            } else {
                AdapterFailure::Unsupported { language }
            }),
    {
        Self::with(language, true)
    }

    fn with(language: Language, exclude_tests: bool) -> (adapter: Result<Self, AdapterError>)
        ensures
            adapter is Ok <==> is_javascript(language) && adapter_failure(
                language,
                exclude_tests,
            ) is None,
            adapter matches Ok(adapter) ==> adapter.source_language() == language
                && adapter.excludes_tests() == exclude_tests,
            adapter matches Err(error) ==> error@ == (if is_javascript(language) {
                adapter_failure(language, exclude_tests)->0
            } else {
                AdapterFailure::Unsupported { language }
            }),
    {
        if !javascript_family(language) {
            return Err(AdapterError::Unsupported { language });
        }
        match Core::new(language, exclude_tests) {
            Ok(core) => Ok(JavaScriptAdapter { core }),
            Err(error) => Err(error),
        }
    }
}

impl LanguageAdapter for JavaScriptAdapter {
    closed spec fn source_language(&self) -> Language {
        self.core.language
    }

    closed spec fn excludes_tests(&self) -> bool {
        self.core.tests is Some
    }

    fn test_policy(&self) -> (policy: Option<LanguageTestPolicy>) {
        self.core.policy()
    }

    fn is_test_file(&self, path: &str) -> (r: bool) {
        self.core.matches(path)
    }

    fn analyze(&self, source: &[u8]) -> (result: Result<FileAnalysis, AnalysisError>) {
        proof {
            use_type_invariant(self);
            use_type_invariant(&self.core);
        }
        analyze::<JavaScriptRules>(&self.core.grammar, source, self.core.tests.is_some())
    }
}

/// The adapter for Python.
pub struct PythonAdapter {
    core: Core,
}

impl PythonAdapter {
    #[verifier::type_invariant]
    spec fn fits(self) -> bool {
        self.core.language == Language::Python
    }

    /// An adapter that excludes tests.
    pub fn new() -> (adapter: Result<Self, AdapterError>)
        ensures
            adapter is Ok <==> adapter_failure(Language::Python, true) is None,
            adapter matches Ok(adapter) ==> adapter.source_language() == Language::Python
                && adapter.excludes_tests(),
            adapter matches Err(error) ==> adapter_failure(Language::Python, true) == Some(error@),
    {
        Self::with(true)
    }

    fn with(exclude_tests: bool) -> (adapter: Result<Self, AdapterError>)
        ensures
            adapter is Ok <==> adapter_failure(Language::Python, exclude_tests) is None,
            adapter matches Ok(adapter) ==> adapter.source_language() == Language::Python
                && adapter.excludes_tests() == exclude_tests,
            adapter matches Err(error) ==> adapter_failure(Language::Python, exclude_tests) == Some(
                error@,
            ),
    {
        match Core::new(Language::Python, exclude_tests) {
            Ok(core) => Ok(PythonAdapter { core }),
            Err(error) => Err(error),
        }
    }
}

impl LanguageAdapter for PythonAdapter {
    closed spec fn source_language(&self) -> Language {
        self.core.language
    }

    closed spec fn excludes_tests(&self) -> bool {
        self.core.tests is Some
    }

    fn test_policy(&self) -> (policy: Option<LanguageTestPolicy>) {
        self.core.policy()
    }

    fn is_test_file(&self, path: &str) -> (r: bool) {
        self.core.matches(path)
    }

    fn analyze(&self, source: &[u8]) -> (result: Result<FileAnalysis, AnalysisError>) {
        proof {
            use_type_invariant(self);
            use_type_invariant(&self.core);
        }
        analyze::<PythonRules>(&self.core.grammar, source, self.core.tests.is_some())
    }
}

/// The adapter for Rust.
pub struct RustAdapter {
    core: Core,
}

impl RustAdapter {
    #[verifier::type_invariant]
    spec fn fits(self) -> bool {
        self.core.language == Language::Rust
    }

    /// An adapter that excludes tests.
    pub fn new() -> (adapter: Result<Self, AdapterError>)
        ensures
            adapter is Ok <==> adapter_failure(Language::Rust, true) is None,
            adapter matches Ok(adapter) ==> adapter.source_language() == Language::Rust
                && adapter.excludes_tests(),
            adapter matches Err(error) ==> adapter_failure(Language::Rust, true) == Some(error@),
    {
        Self::with(true)
    }

    fn with(exclude_tests: bool) -> (adapter: Result<Self, AdapterError>)
        ensures
            adapter is Ok <==> adapter_failure(Language::Rust, exclude_tests) is None,
            adapter matches Ok(adapter) ==> adapter.source_language() == Language::Rust
                && adapter.excludes_tests() == exclude_tests,
            adapter matches Err(error) ==> adapter_failure(Language::Rust, exclude_tests) == Some(
                error@,
            ),
    {
        match Core::new(Language::Rust, exclude_tests) {
            Ok(core) => Ok(RustAdapter { core }),
            Err(error) => Err(error),
        }
    }
}

impl LanguageAdapter for RustAdapter {
    closed spec fn source_language(&self) -> Language {
        self.core.language
    }

    closed spec fn excludes_tests(&self) -> bool {
        self.core.tests is Some
    }

    fn test_policy(&self) -> (policy: Option<LanguageTestPolicy>) {
        self.core.policy()
    }

    fn is_test_file(&self, path: &str) -> (r: bool) {
        self.core.matches(path)
    }

    fn analyze(&self, source: &[u8]) -> (result: Result<FileAnalysis, AnalysisError>) {
        proof {
            use_type_invariant(self);
            use_type_invariant(&self.core);
        }
        analyze::<RustRules>(&self.core.grammar, source, self.core.tests.is_some())
    }
}

/// The adapter for Gleam.
pub struct GleamAdapter {
    core: Core,
}

impl GleamAdapter {
    #[verifier::type_invariant]
    spec fn fits(self) -> bool {
        self.core.language == Language::Gleam
    }

    /// An adapter that excludes tests.
    pub fn new() -> (adapter: Result<Self, AdapterError>)
        ensures
            adapter is Ok <==> adapter_failure(Language::Gleam, true) is None,
            adapter matches Ok(adapter) ==> adapter.source_language() == Language::Gleam
                && adapter.excludes_tests(),
            adapter matches Err(error) ==> adapter_failure(Language::Gleam, true) == Some(error@),
    {
        Self::with(true)
    }

    pub(crate) fn with(exclude_tests: bool) -> (adapter: Result<Self, AdapterError>)
        ensures
            adapter is Ok <==> adapter_failure(Language::Gleam, exclude_tests) is None,
            adapter matches Ok(adapter) ==> adapter.source_language() == Language::Gleam
                && adapter.excludes_tests() == exclude_tests,
            adapter matches Err(error) ==> adapter_failure(Language::Gleam, exclude_tests) == Some(
                error@,
            ),
    {
        match Core::new(Language::Gleam, exclude_tests) {
            Ok(core) => Ok(GleamAdapter { core }),
            Err(error) => Err(error),
        }
    }
}

impl LanguageAdapter for GleamAdapter {
    closed spec fn source_language(&self) -> Language {
        self.core.language
    }

    closed spec fn excludes_tests(&self) -> bool {
        self.core.tests is Some
    }

    fn test_policy(&self) -> (policy: Option<LanguageTestPolicy>) {
        self.core.policy()
    }

    fn is_test_file(&self, path: &str) -> (r: bool) {
        self.core.matches(path)
    }

    fn analyze(&self, source: &[u8]) -> (result: Result<FileAnalysis, AnalysisError>) {
        proof {
            use_type_invariant(self);
            use_type_invariant(&self.core);
        }
        analyze::<GleamRules>(&self.core.grammar, source, self.core.tests.is_some())
    }
}

/// The adapter for any language.
pub enum Adapter {
    JavaScript(JavaScriptAdapter),
    Python(PythonAdapter),
    Rust(RustAdapter),
    Gleam(GleamAdapter),
}

impl LanguageAdapter for Adapter {
    open spec fn source_language(&self) -> Language {
        match self {
            Adapter::JavaScript(adapter) => adapter.source_language(),
            Adapter::Python(adapter) => adapter.source_language(),
            Adapter::Rust(adapter) => adapter.source_language(),
            Adapter::Gleam(adapter) => adapter.source_language(),
        }
    }

    open spec fn excludes_tests(&self) -> bool {
        match self {
            Adapter::JavaScript(adapter) => adapter.excludes_tests(),
            Adapter::Python(adapter) => adapter.excludes_tests(),
            Adapter::Rust(adapter) => adapter.excludes_tests(),
            Adapter::Gleam(adapter) => adapter.excludes_tests(),
        }
    }

    fn test_policy(&self) -> (policy: Option<LanguageTestPolicy>) {
        match self {
            Adapter::JavaScript(adapter) => adapter.test_policy(),
            Adapter::Python(adapter) => adapter.test_policy(),
            Adapter::Rust(adapter) => adapter.test_policy(),
            Adapter::Gleam(adapter) => adapter.test_policy(),
        }
    }

    fn is_test_file(&self, path: &str) -> (r: bool) {
        match self {
            Adapter::JavaScript(adapter) => adapter.is_test_file(path),
            Adapter::Python(adapter) => adapter.is_test_file(path),
            Adapter::Rust(adapter) => adapter.is_test_file(path),
            Adapter::Gleam(adapter) => adapter.is_test_file(path),
        }
    }

    fn analyze(&self, source: &[u8]) -> (result: Result<FileAnalysis, AnalysisError>) {
        match self {
            Adapter::JavaScript(adapter) => adapter.analyze(source),
            Adapter::Python(adapter) => adapter.analyze(source),
            Adapter::Rust(adapter) => adapter.analyze(source),
            Adapter::Gleam(adapter) => adapter.analyze(source),
        }
    }
}

/// The adapter for a language, with or without an eye for tests.
pub fn adapter_for(language: Language, exclude_tests: bool) -> (adapter: Result<
    Adapter,
    AdapterError,
>)
    ensures
        adapter is Ok <==> adapter_failure(language, exclude_tests) is None,
        adapter matches Ok(adapter) ==> adapter.source_language() == language
            && adapter.excludes_tests() == exclude_tests,
        adapter matches Err(error) ==> adapter_failure(language, exclude_tests) == Some(error@),
{
    match language {
        Language::Python => match PythonAdapter::with(exclude_tests) {
            Ok(adapter) => Ok(Adapter::Python(adapter)),
            Err(error) => Err(error),
        },
        Language::Rust => match RustAdapter::with(exclude_tests) {
            Ok(adapter) => Ok(Adapter::Rust(adapter)),
            Err(error) => Err(error),
        },
        Language::Gleam => match GleamAdapter::with(exclude_tests) {
            Ok(adapter) => Ok(Adapter::Gleam(adapter)),
            Err(error) => Err(error),
        },
        _ => match JavaScriptAdapter::with(language, exclude_tests) {
            Ok(adapter) => Ok(Adapter::JavaScript(adapter)),
            Err(error) => Err(error),
        },
    }
}

/// The adapter for a language that excludes tests.
pub fn adapter(language: Language) -> (adapter: Result<Adapter, AdapterError>)
    ensures
        adapter is Ok <==> adapter_failure(language, true) is None,
        adapter matches Ok(adapter) ==> adapter.source_language() == language
            && adapter.excludes_tests(),
        adapter matches Err(error) ==> adapter_failure(language, true) == Some(error@),
{
    adapter_for(language, true)
}

} // verus!
