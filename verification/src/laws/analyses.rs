//! How a source of a language is analyzed, whole and without its tests.

use vstd::prelude::*;
use vstd::utf8::valid_utf8;

use crate::globs::compiled;
use crate::languages::adapters::{
    adapter_failure, gleam_fields, gleam_kinds, gleam_test_fields, gleam_test_kinds,
    grammar_failure, is_javascript, javascript_fields, javascript_kinds, language_analysis,
    missing_field, missing_kind, python_fields, python_kinds, rust_fields, rust_kinds,
    AdapterFailure,
};
use crate::languages::gleam::GleamRules;
use crate::languages::javascript::JavaScriptRules;
use crate::languages::lines::lines;
use crate::languages::policy::{
    exclusion_policy, first_policies, language_at, policy_of, TEST_POLICY_VERSION,
};
use crate::languages::python::PythonRules;
use crate::languages::regions::{normalized, regions_fit};
use crate::languages::rust::RustRules;
use crate::languages::syntax::{
    field_id, linked, node_kind_id, tree_of, Syntax, TreeError,
};
use crate::languages::tree::{
    analysis, breaks, has_mark, last_break, mark_length, measured, shifted, tree_analysis,
    unmarked, utf8_diagnostic, utf8_end, with_regions_left_out, AnalysisError, SyntaxRules,
};
use crate::languages::Language;
use crate::metrics::{AnalysisModel, FilteredModel, RegionModel};

verus! {

/// Each language is parsed by its own grammar and measured by its own rules; the kinds
/// of JavaScript share theirs.
pub proof fn languages_have_rules(source: Seq<u8>, excludes: bool)
    ensures
        language_analysis(Language::Rust, source, excludes) == analysis::<RustRules>(
            "rust"@,
            source,
            excludes,
        ),
        language_analysis(Language::Python, source, excludes) == analysis::<PythonRules>(
            "python"@,
            source,
            excludes,
        ),
        language_analysis(Language::Gleam, source, excludes) == analysis::<GleamRules>(
            "gleam"@,
            source,
            excludes,
        ),
        language_analysis(Language::JavaScript, source, excludes) == analysis::<JavaScriptRules>(
            "javascript"@,
            source,
            excludes,
        ),
        language_analysis(Language::TypeScript, source, excludes) == analysis::<JavaScriptRules>(
            "typescript"@,
            source,
            excludes,
        ),
        language_analysis(Language::Tsx, source, excludes) == analysis::<JavaScriptRules>(
            "tsx"@,
            source,
            excludes,
        ),
{
}

/// A byte order mark is three bytes, and is not part of the text.
pub proof fn byte_order_marks(source: Seq<u8>, text: Seq<u8>)
    ensures
        has_mark(source) <==> source.len() >= 3 && source.subrange(0, 3) == seq![
            0xefu8,
            0xbbu8,
            0xbfu8,
        ],
        unmarked(seq![0xefu8, 0xbbu8, 0xbfu8] + text) == text,
        !has_mark(source) ==> unmarked(source) == source,
        mark_length(source) == if has_mark(source) {
            3int
        } else {
            0
        },
{
    let marked = seq![0xefu8, 0xbbu8, 0xbfu8] + text;
    assert(marked.subrange(3, marked.len() as int) =~= text);
    assert(source.subrange(0, source.len() as int) =~= source);
    if source.len() >= 3 {
        let head = source.subrange(0, 3);
        if has_mark(source) {
            assert(head =~= seq![0xefu8, 0xbbu8, 0xbfu8]);
        }
        if head == seq![0xefu8, 0xbbu8, 0xbfu8] {
            assert(head[0] == source[0] && head[1] == source[1] && head[2] == source[2]);
        }
    }
}

/// A source that is no text fails, at the place where it stops being text. One that the
/// parser cannot read cannot be analyzed. Any other is measured by its tree.
pub proof fn sources_are_parsed<R: SyntaxRules>(label: Seq<char>, source: Seq<u8>, excludes: bool)
    ensures
        ({
            let text = unmarked(source);
            let found = analysis::<R>(label, source, excludes);
            let tree = tree_of(label, text);
            &&& !valid_utf8(text) ==> found is Ok && found->Ok_0.diagnostics == seq![
                utf8_diagnostic(text),
            ] && found->Ok_0.functions.len() == 0 && found->Ok_0.source_lines == 0
                && found->Ok_0.physical_lines == lines(text).len() as usize
                && found->Ok_0.without_tests is None
            &&& valid_utf8(text) && tree == Err::<
                Seq<crate::languages::syntax::SyntaxNode>,
                _,
            >(TreeError::Cancelled) ==> found == Err::<AnalysisModel, _>(AnalysisError::Cancelled)
            &&& valid_utf8(text) && tree == Err::<
                Seq<crate::languages::syntax::SyntaxNode>,
                _,
            >(TreeError::Malformed) ==> found == Err::<AnalysisModel, _>(AnalysisError::Malformed)
            &&& valid_utf8(text) && tree is Ok ==> found == tree_analysis::<R>(
                linked(tree->Ok_0, text),
                mark_length(source),
                excludes,
            )
        }),
{
}

/// The place of a byte is the number of line feeds before it and its distance from the
/// last of them, both counted from one.
pub proof fn places_in_a_source(source: Seq<u8>, n: int)
    requires
        0 <= n < source.len(),
    ensures
        breaks(source, 0) == 0,
        last_break(source, 0) == -1,
        breaks(source, n + 1) == breaks(source, n) + if source[n] == '\n' as u8 {
            1int
        } else {
            0
        },
        source[n] == '\n' as u8 ==> last_break(source, n + 1) == n,
        source[n] != '\n' as u8 ==> last_break(source, n + 1) == last_break(source, n),
        utf8_diagnostic(source).line == (breaks(source, utf8_end(source)) + 1) as usize,
        utf8_diagnostic(source).column == (utf8_end(source) - last_break(
            source,
            utf8_end(source),
        )) as usize,
{
    assert('\n' as u8 == 10u8);
}

/// Tests are left out only of a valid source, and only where that was asked for.
pub proof fn tests_are_left_out_of_valid_sources<R: SyntaxRules>(
    t: Syntax,
    mark: int,
    excludes: bool,
)
    ensures
        ({
            let raw = measured::<R>(t, Seq::empty());
            let found = tree_analysis::<R>(t, mark, excludes);
            &&& raw is Err ==> found == raw
            &&& raw is Ok && (raw->Ok_0.diagnostics.len() > 0 || !excludes) ==> found == raw
            &&& raw is Ok && raw->Ok_0.diagnostics.len() == 0 && excludes ==> found
                == with_regions_left_out::<R>(t, raw->Ok_0, R::test_regions_spec(t), mark)
        }),
{
}

/// Without the regions of its tests a source is measured again. That must leave it valid
/// and must not add to it; without regions there is nothing to leave out.
pub proof fn filtered_sources_are_measured_again<R: SyntaxRules>(
    t: Syntax,
    raw: AnalysisModel,
    found: Seq<RegionModel>,
    mark: int,
)
    ensures
        ({
            let regions = normalized(found);
            let rest = measured::<R>(t, regions);
            let result = with_regions_left_out::<R>(t, raw, found, mark);
            let fit = regions_fit(found, t.source.len() as int);
            let some = fit && regions.len() > 0;
            let more = rest->Ok_0.source_lines > raw.source_lines || rest->Ok_0.functions.len()
                > raw.functions.len();
            &&& !fit ==> result == Err::<AnalysisModel, _>(AnalysisError::InvalidRegion)
            &&& fit && regions.len() == 0 ==> result == Ok::<_, AnalysisError>(raw)
            &&& some && rest is Err ==> result == rest
            &&& some && rest is Ok && rest->Ok_0.diagnostics.len() > 0 ==> result == Err::<
                AnalysisModel,
                _,
            >(AnalysisError::ChangedValidation)
            &&& some && rest is Ok && rest->Ok_0.diagnostics.len() == 0 && more ==> result == Err::<
                AnalysisModel,
                _,
            >(AnalysisError::Increased)
            &&& some && rest is Ok && rest->Ok_0.diagnostics.len() == 0 && !more ==> result == Ok::<
                _,
                AnalysisError,
            >(
                AnalysisModel {
                    without_tests: Some(
                        FilteredModel {
                            source_lines: rest->Ok_0.source_lines,
                            functions: rest->Ok_0.functions,
                            regions: shifted(regions, mark),
                        },
                    ),
                    ..raw
                },
            )
        }),
{
}

/// Regions move by the bytes of the mark and keep their lines and reasons.
pub proof fn regions_move_by_the_mark(regions: Seq<RegionModel>, by: int, k: int)
    requires
        0 <= k < regions.len(),
    ensures
        shifted(regions, by).len() == regions.len(),
        shifted(regions, by)[k].start_byte == (regions[k].start_byte + by) as usize,
        shifted(regions, by)[k].end_byte == (regions[k].end_byte + by) as usize,
        shifted(regions, by)[k].start_line == regions[k].start_line,
        shifted(regions, by)[k].end_line == regions[k].end_line,
        shifted(regions, by)[k].reason == regions[k].reason,
{
}

/// The first kind or field that a grammar lacks is reported, kinds before fields.
pub proof fn grammars_must_be_complete(
    language: Language,
    kinds: Seq<Seq<char>>,
    fields: Seq<Seq<char>>,
    label: Seq<char>,
    k: int,
)
    requires
        0 <= k,
    ensures
        k >= kinds.len() ==> missing_kind(label, kinds, k) is None,
        k < kinds.len() && node_kind_id(label, kinds[k], true) == 0 ==> missing_kind(
            label,
            kinds,
            k,
        ) == Some(kinds[k]),
        k < kinds.len() && node_kind_id(label, kinds[k], true) != 0 ==> missing_kind(
            label,
            kinds,
            k,
        ) == missing_kind(label, kinds, k + 1),
        k >= fields.len() ==> missing_field(label, fields, k) is None,
        k < fields.len() && field_id(label, fields[k]) is None ==> missing_field(label, fields, k)
            == Some(fields[k]),
        k < fields.len() && field_id(label, fields[k]) is Some ==> missing_field(label, fields, k)
            == missing_field(label, fields, k + 1),
        ({
            let kind = missing_kind(language.name(), kinds, 0);
            let field = missing_field(language.name(), fields, 0);
            &&& kind is Some ==> grammar_failure(language, kinds, fields) == Some(
                AdapterFailure::MissingKind { language, kind: kind->0 },
            )
            &&& kind is None && field is Some ==> grammar_failure(language, kinds, fields) == Some(
                AdapterFailure::MissingField { language, field: field->0 },
            )
            &&& kind is None && field is None ==> grammar_failure(language, kinds, fields) is None
        }),
{
}

/// A language can be measured where its grammar has what its rules read, and, where
/// tests are left out, what finds tests; the patterns of its test paths must be valid
/// only then.
pub proof fn languages_that_can_be_measured(language: Language)
    ensures
        ({
            let core = match language {
                Language::Python => grammar_failure(language, python_kinds(), python_fields()),
                Language::Rust => grammar_failure(language, rust_kinds(), rust_fields()),
                Language::Gleam => grammar_failure(language, gleam_kinds(), gleam_fields()),
                _ => grammar_failure(language, javascript_kinds(), javascript_fields()),
            };
            let paths = compiled(policy_of(language).path_patterns, true);
            let tests = grammar_failure(language, gleam_test_kinds(), gleam_test_fields());
            &&& adapter_failure(language, false) == core
            &&& core is Some ==> adapter_failure(language, true) == core
            &&& core is None && language == Language::Gleam && tests is Some ==> adapter_failure(
                language,
                true,
            ) == tests
            &&& core is None && (language != Language::Gleam || tests is None) && paths is Err
                ==> adapter_failure(language, true) == Some(
                AdapterFailure::TestPaths { failure: paths->Err_0 },
            )
            &&& core is None && (language != Language::Gleam || tests is None) && paths is Ok
                ==> adapter_failure(language, true) is None
        }),
        is_javascript(language) <==> language == Language::JavaScript || language
            == Language::TypeScript || language == Language::Tsx,
{
}

/// What decides or is callable in Rust is a kind of node that the grammar must have.
pub proof fn rust_grammar_has_what_is_read(t: Syntax, i: int)
    ensures
        RustRules::decisions_spec(t, i) > 0 ==> rust_kinds().contains(t.kind(i)),
        RustRules::callable_spec(t, i) ==> rust_kinds().contains(t.kind(i)),
        RustRules::ignored_spec(t, i) ==> rust_kinds().contains(t.kind(i)),
{
    let all = rust_kinds();
    assert(all[0] == "if_expression"@ && all[1] == "for_expression"@ && all[2]
        == "while_expression"@ && all[3] == "loop_expression"@ && all[4] == "function_item"@
        && all[5] == "closure_expression"@ && all[6] == "match_arm"@ && all[7]
        == "let_declaration"@ && all[8] == "binary_expression"@ && all[9] == "line_comment"@
        && all[10] == "block_comment"@);
}

/// The same in JavaScript.
pub proof fn javascript_grammar_has_what_is_read(t: Syntax, i: int)
    ensures
        JavaScriptRules::decisions_spec(t, i) > 0 ==> javascript_kinds().contains(t.kind(i)),
        JavaScriptRules::callable_spec(t, i) ==> javascript_kinds().contains(t.kind(i)),
        JavaScriptRules::ignored_spec(t, i) ==> javascript_kinds().contains(t.kind(i)),
{
    let all = javascript_kinds();
    assert(all[0] == "function_declaration"@ && all[1] == "function_expression"@ && all[2]
        == "generator_function_declaration"@ && all[3] == "generator_function"@ && all[4]
        == "arrow_function"@ && all[5] == "method_definition"@ && all[6] == "catch_clause"@
        && all[7] == "if_statement"@ && all[8] == "switch_statement"@ && all[9]
        == "ternary_expression"@ && all[10] == "do_statement"@ && all[11] == "for_in_statement"@
        && all[12] == "for_statement"@ && all[13] == "while_statement"@ && all[14]
        == "binary_expression"@ && all[15] == "comment"@);
}

/// The policies on tests are kept by language, each under its name and its version.
pub proof fn policies_on_tests(k: int)
    requires
        0 <= k < 6,
    ensures
        TEST_POLICY_VERSION@ == "language-tests-v1"@,
        exclusion_policy().version == "language-tests-v1"@,
        exclusion_policy().languages == first_policies(6),
        first_policies(k + 1) == crate::ordered::put(
            first_policies(k),
            language_at(k).name(),
            policy_of(language_at(k)),
        ),
        policy_of(Language::JavaScript).version == "javascript-tests-v1"@,
        policy_of(Language::TypeScript) == policy_of(Language::JavaScript),
        policy_of(Language::Tsx) == policy_of(Language::JavaScript),
        policy_of(Language::Python).version == "python-tests-v1"@,
        policy_of(Language::Rust).version == "rust-tests-v1"@,
        policy_of(Language::Gleam).version == "gleam-tests-v1"@,
        language_at(k) == seq![
            Language::JavaScript,
            Language::TypeScript,
            Language::Tsx,
            Language::Python,
            Language::Rust,
            Language::Gleam,
        ][k],
{
}

} // verus!
