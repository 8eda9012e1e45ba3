//! What the analyzer measures: callables, their complexity and their source
//! lines, with the regions that hold test code.

use vstd::prelude::*;
use vstd::string::*;

use crate::text::same;

verus! {

/// The version of the metric's definition.
pub const METRIC_VERSION: &'static str = "erosion-v3";

/// A callable is complex above this cyclomatic complexity.
pub const COMPLEXITY_THRESHOLD: u64 = 10;

/// One measured callable.
#[derive(Debug, PartialEq)]
pub struct FunctionMetrics {
    pub name: String,
    pub start_line: usize,
    pub end_line: usize,
    pub complexity: u64,
    pub source_lines: usize,
}

pub struct FunctionModel {
    pub name: Seq<char>,
    pub start_line: usize,
    pub end_line: usize,
    pub complexity: u64,
    pub source_lines: usize,
}

impl View for FunctionMetrics {
    type V = FunctionModel;

    open spec fn view(&self) -> FunctionModel {
        FunctionModel {
            name: self.name@,
            start_line: self.start_line,
            end_line: self.end_line,
            complexity: self.complexity,
            source_lines: self.source_lines,
        }
    }
}

impl Clone for FunctionMetrics {
    fn clone(&self) -> (copy: Self)
        ensures
            copy == *self,
    {
        FunctionMetrics {
            name: self.name.clone(),
            start_line: self.start_line,
            end_line: self.end_line,
            complexity: self.complexity,
            source_lines: self.source_lines,
        }
    }
}

/// A place where a source is not valid in its language. Lines and columns
/// count from one.
#[derive(Debug, PartialEq)]
pub struct ParseDiagnostic {
    pub line: usize,
    pub column: usize,
    pub message: String,
}

pub struct DiagnosticModel {
    pub line: usize,
    pub column: usize,
    pub message: Seq<char>,
}

impl View for ParseDiagnostic {
    type V = DiagnosticModel;

    open spec fn view(&self) -> DiagnosticModel {
        DiagnosticModel { line: self.line, column: self.column, message: self.message@ }
    }
}

impl Clone for ParseDiagnostic {
    fn clone(&self) -> (copy: Self)
        ensures
            copy == *self,
    {
        ParseDiagnostic {
            line: self.line,
            column: self.column,
            message: self.message.clone(),
        }
    }
}

/// A byte range that holds test code, and why.
#[derive(Debug, PartialEq)]
pub struct TestRegion {
    pub start_byte: usize,
    pub end_byte: usize,
    pub start_line: usize,
    pub end_line: usize,
    pub reason: String,
}

pub struct RegionModel {
    pub start_byte: usize,
    pub end_byte: usize,
    pub start_line: usize,
    pub end_line: usize,
    pub reason: Seq<char>,
}

impl View for TestRegion {
    type V = RegionModel;

    open spec fn view(&self) -> RegionModel {
        RegionModel {
            start_byte: self.start_byte,
            end_byte: self.end_byte,
            start_line: self.start_line,
            end_line: self.end_line,
            reason: self.reason@,
        }
    }
}

impl Clone for TestRegion {
    fn clone(&self) -> (copy: Self)
        ensures
            copy == *self,
    {
        TestRegion {
            start_byte: self.start_byte,
            end_byte: self.end_byte,
            start_line: self.start_line,
            end_line: self.end_line,
            reason: self.reason.clone(),
        }
    }
}

/// The measurements of a file without its test regions.
#[derive(Debug, PartialEq)]
pub struct TestFilteredAnalysis {
    pub source_lines: usize,
    pub functions: Vec<FunctionMetrics>,
    pub regions: Vec<TestRegion>,
}

#[verifier::ext_equal]
pub struct FilteredModel {
    pub source_lines: usize,
    pub functions: Seq<FunctionModel>,
    pub regions: Seq<RegionModel>,
}

/// Callables by what they measure.
pub open spec fn function_models(functions: Seq<FunctionMetrics>) -> Seq<FunctionModel> {
    functions.map_values(|f: FunctionMetrics| f@)
}

/// Regions by where they lie.
pub open spec fn region_models(regions: Seq<TestRegion>) -> Seq<RegionModel> {
    regions.map_values(|r: TestRegion| r@)
}

/// Diagnostics by what they say.
pub open spec fn diagnostic_models(diagnostics: Seq<ParseDiagnostic>) -> Seq<DiagnosticModel> {
    diagnostics.map_values(|d: ParseDiagnostic| d@)
}

impl View for TestFilteredAnalysis {
    type V = FilteredModel;

    open spec fn view(&self) -> FilteredModel {
        FilteredModel {
            source_lines: self.source_lines,
            functions: function_models(self.functions@),
            regions: region_models(self.regions@),
        }
    }
}

impl Clone for TestFilteredAnalysis {
    fn clone(&self) -> (copy: Self)
        ensures
            copy@ == self@,
    {
        let copy = TestFilteredAnalysis {
            source_lines: self.source_lines,
            functions: self.functions.clone(),
            regions: self.regions.clone(),
        };
        assert(function_models(copy.functions@) =~= function_models(self.functions@));
        assert(region_models(copy.regions@) =~= region_models(self.regions@));
        copy
    }
}

/// The measurements of one file.
#[derive(Debug, PartialEq)]
pub struct FileAnalysis {
    pub physical_lines: usize,
    pub source_lines: usize,
    pub functions: Vec<FunctionMetrics>,
    pub diagnostics: Vec<ParseDiagnostic>,
    pub without_tests: Option<TestFilteredAnalysis>,
}

#[verifier::ext_equal]
pub struct AnalysisModel {
    pub physical_lines: usize,
    pub source_lines: usize,
    pub functions: Seq<FunctionModel>,
    pub diagnostics: Seq<DiagnosticModel>,
    pub without_tests: Option<FilteredModel>,
}

impl View for FileAnalysis {
    type V = AnalysisModel;

    open spec fn view(&self) -> AnalysisModel {
        AnalysisModel {
            physical_lines: self.physical_lines,
            source_lines: self.source_lines,
            functions: function_models(self.functions@),
            diagnostics: diagnostic_models(self.diagnostics@),
            without_tests: match self.without_tests {
                Some(filtered) => Some(filtered@),
                None => None,
            },
        }
    }
}

impl Clone for FileAnalysis {
    fn clone(&self) -> (copy: Self)
        ensures
            copy@ == self@,
    {
        let copy = FileAnalysis {
            physical_lines: self.physical_lines,
            source_lines: self.source_lines,
            functions: self.functions.clone(),
            diagnostics: self.diagnostics.clone(),
            without_tests: match &self.without_tests {
                Some(filtered) => Some(filtered.clone()),
                None => None,
            },
        };
        assert(function_models(copy.functions@) =~= function_models(self.functions@));
        assert(diagnostic_models(copy.diagnostics@) =~= diagnostic_models(self.diagnostics@));
        copy
    }
}

impl FileAnalysis {
    /// The file is valid in its language.
    pub fn parsed(&self) -> (r: bool)
        ensures
            r == (self@.diagnostics.len() == 0),
    {
        self.diagnostics.len() == 0
    }
}

/// What leaving out test code came to: nothing where there is no test code.
#[derive(Debug, PartialEq)]
pub struct TestExclusionAnalysis {
    pub without_tests: Option<TestFilteredAnalysis>,
}

#[verifier::ext_equal]
pub struct ExclusionModel {
    pub without_tests: Option<FilteredModel>,
}

impl View for TestExclusionAnalysis {
    type V = ExclusionModel;

    open spec fn view(&self) -> ExclusionModel {
        ExclusionModel {
            without_tests: match self.without_tests {
                Some(filtered) => Some(filtered@),
                None => None,
            },
        }
    }
}

impl Clone for TestExclusionAnalysis {
    fn clone(&self) -> (copy: Self)
        ensures
            copy@ == self@,
    {
        TestExclusionAnalysis {
            without_tests: match &self.without_tests {
                Some(filtered) => Some(filtered.clone()),
                None => None,
            },
        }
    }
}

fn same_function(a: &FunctionMetrics, b: &FunctionMetrics) -> (r: bool)
    ensures
        r == (a@ == b@),
{
    same(a.name.as_str(), b.name.as_str()) && a.start_line == b.start_line && a.end_line
        == b.end_line && a.complexity == b.complexity && a.source_lines == b.source_lines
}

fn same_functions(a: &Vec<FunctionMetrics>, b: &Vec<FunctionMetrics>) -> (r: bool)
    ensures
        r == (function_models(a@) == function_models(b@)),
{
    let ghost (x, y) = (function_models(a@), function_models(b@));
    assert(x.len() == a@.len() && y.len() == b@.len());
    if a.len() != b.len() {
        return false;
    }
    let mut k: usize = 0;
    while k < a.len()
        invariant
            x == function_models(a@),
            y == function_models(b@),
            a@.len() == b@.len(),
            k <= a@.len(),
            forall|n: int| 0 <= n < k ==> #[trigger] x[n] == y[n],
        decreases a@.len() - k,
    {
        assert(x[k as int] == a@[k as int]@ && y[k as int] == b@[k as int]@);
        if !same_function(&a[k], &b[k]) {
            return false;
        }
        k = k + 1;
    }
    assert(x =~= y);
    true
}

fn same_diagnostics(a: &Vec<ParseDiagnostic>, b: &Vec<ParseDiagnostic>) -> (r: bool)
    ensures
        r == (diagnostic_models(a@) == diagnostic_models(b@)),
{
    let ghost (x, y) = (diagnostic_models(a@), diagnostic_models(b@));
    assert(x.len() == a@.len() && y.len() == b@.len());
    if a.len() != b.len() {
        return false;
    }
    let mut k: usize = 0;
    while k < a.len()
        invariant
            x == diagnostic_models(a@),
            y == diagnostic_models(b@),
            a@.len() == b@.len(),
            k <= a@.len(),
            forall|n: int| 0 <= n < k ==> #[trigger] x[n] == y[n],
        decreases a@.len() - k,
    {
        assert(x[k as int] == a@[k as int]@ && y[k as int] == b@[k as int]@);
        if a[k].line != b[k].line || a[k].column != b[k].column || !same(
            a[k].message.as_str(),
            b[k].message.as_str(),
        ) {
            return false;
        }
        k = k + 1;
    }
    assert(x =~= y);
    true
}

fn same_regions(a: &Vec<TestRegion>, b: &Vec<TestRegion>) -> (r: bool)
    ensures
        r == (region_models(a@) == region_models(b@)),
{
    let ghost (x, y) = (region_models(a@), region_models(b@));
    assert(x.len() == a@.len() && y.len() == b@.len());
    if a.len() != b.len() {
        return false;
    }
    let mut k: usize = 0;
    while k < a.len()
        invariant
            x == region_models(a@),
            y == region_models(b@),
            a@.len() == b@.len(),
            k <= a@.len(),
            forall|n: int| 0 <= n < k ==> #[trigger] x[n] == y[n],
        decreases a@.len() - k,
    {
        assert(x[k as int] == a@[k as int]@ && y[k as int] == b@[k as int]@);
        if a[k].start_byte != b[k].start_byte || a[k].end_byte != b[k].end_byte || a[k].start_line
            != b[k].start_line || a[k].end_line != b[k].end_line || !same(
            a[k].reason.as_str(),
            b[k].reason.as_str(),
        ) {
            return false;
        }
        k = k + 1;
    }
    assert(x =~= y);
    true
}

fn same_filtered(a: &Option<TestFilteredAnalysis>, b: &Option<TestFilteredAnalysis>) -> (r: bool)
    ensures
        r == (filtered_model(*a) == filtered_model(*b)),
{
    match (a, b) {
        (Some(a), Some(b)) => {
            let r: bool = a.source_lines == b.source_lines && same_functions(
                &a.functions,
                &b.functions,
            ) && same_regions(&a.regions, &b.regions);
            r
        },
        (None, None) => true,
        _ => false,
    }
}

/// The measurements without test regions, where there are any.
pub open spec fn filtered_model(filtered: Option<TestFilteredAnalysis>) -> Option<FilteredModel> {
    match filtered {
        Some(filtered) => Some(filtered@),
        None => None,
    }
}

/// Two files have the same measurements.
pub fn same_analysis(a: &FileAnalysis, b: &FileAnalysis) -> (r: bool)
    ensures
        r == (a@ == b@),
{
    a.physical_lines == b.physical_lines && a.source_lines == b.source_lines && same_functions(
        &a.functions,
        &b.functions,
    ) && same_diagnostics(&a.diagnostics, &b.diagnostics) && same_filtered(
        &a.without_tests,
        &b.without_tests,
    )
}

/// Leaving out test code came to the same.
pub fn same_exclusion(a: &TestExclusionAnalysis, b: &TestExclusionAnalysis) -> (r: bool)
    ensures
        r == (a@ == b@),
{
    same_filtered(&a.without_tests, &b.without_tests)
}

} // verus!
