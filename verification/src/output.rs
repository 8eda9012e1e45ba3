//! Reports as tables of text.
//!
//! Scores, changes and masses come in as texts, next to the snapshots that they
//! belong to.

use vstd::prelude::*;
use vstd::string::*;

use crate::calendar::{date_text, shown_date};
use crate::format::{count_text, debug_text, decimal, decimal_text, join, joined, quoted, texts};
use crate::modules::{series_models, ModuleReport, ModuleSeries, SeriesModel};
use crate::report::Report;
use crate::snapshot::{
    snapshot_models, top_models, CoverageModel, LanguageCoverage, Snapshot, SnapshotModel, Status,
    TopFunction, TopModel,
};
use crate::text::same;

verus! {

/// How a report is written.
#[derive(Clone, Copy, Debug, PartialEq, Eq, Structural)]
pub enum Format {
    Table,
    Json,
    Csv,
}

/// A text with what cannot be printed escaped.
pub uninterp spec fn escaped(text: Seq<char>) -> Seq<char>;

/// Calls `str::escape_debug` of the standard library. What it escapes is fixed
/// by the text.
#[verifier::external_body]
fn escape(text: &str) -> (result: String)
    ensures
        result@ == escaped(text@),
{
    text.escape_debug().to_string()
}

/// Digits in groups of three.
pub open spec fn grouped(digits: Seq<char>) -> Seq<char>
    decreases digits.len(),
{
    if digits.len() <= 3 {
        digits
    } else {
        let head = digits.subrange(0, digits.len() - 3);
        grouped(head) + ","@ + digits.subrange(digits.len() - 3, digits.len() as int)
    }
}

fn group(digits: &str) -> (text: String)
    ensures
        text@ == grouped(digits@),
    decreases digits@.len(),
{
    let length: usize = digits.unicode_len();
    if length <= 3 {
        return digits.to_owned();
    }
    let mut text = group(digits.substring_char(0, length - 3));
    text.append(",");
    text.append(digits.substring_char(length - 3, length));
    text
}

/// A number as people read it, with its digits in groups of three.
pub open spec fn readable(value: usize) -> Seq<char> {
    grouped(decimal(value as nat))
}

/// A number as people read it, with its digits in groups of three.
pub fn number(value: usize) -> (text: String)
    ensures
        text@ == readable(value),
{
    let digits = count_text(value);
    group(digits.as_str())
}

/// Blanks.
pub open spec fn blanks(n: int) -> Seq<char>
    decreases n,
{
    if n <= 0 {
        Seq::empty()
    } else {
        blanks(n - 1) + " "@
    }
}

/// The text with blanks behind it up to a width.
pub open spec fn left_aligned(text: Seq<char>, width: nat) -> Seq<char> {
    text + blanks(width - text.len())
}

/// The text with blanks before it up to a width.
pub open spec fn right_aligned(text: Seq<char>, width: nat) -> Seq<char> {
    blanks(width - text.len()) + text
}

fn blank_text(n: usize) -> (text: String)
    ensures
        text@ == blanks(n as int),
{
    let mut text = String::new();
    assert(text@ =~= blanks(0));
    let mut k: usize = 0;
    while k < n
        invariant
            k <= n,
            text@ == blanks(k as int),
        decreases n - k,
    {
        text.append(" ");
        k = k + 1;
    }
    text
}

fn align_left(text: &str, width: usize) -> (result: String)
    ensures
        result@ == left_aligned(text@, width as nat),
{
    let length: usize = text.unicode_len();
    let mut result = text.to_owned();
    if length < width {
        let rest = blank_text(width - length);
        result.append(rest.as_str());
    } else {
        assert(text@ + blanks(width - length) =~= text@);
    }
    result
}

fn align_right(text: &str, width: usize) -> (result: String)
    ensures
        result@ == right_aligned(text@, width as nat),
{
    let length: usize = text.unicode_len();
    if length < width {
        let mut result = blank_text(width - length);
        result.append(text);
        result
    } else {
        assert(blanks(width - length) + text@ =~= text@);
        text.to_owned()
    }
}

/// The measures of a snapshot in words: the score and the change with two
/// digits behind the point and in full, the masses, and the masses of the
/// complex callables. The texts of what a snapshot does not have are not used.
pub struct Figures {
    pub erosion: String,
    pub change: String,
    pub total_mass: String,
    pub complex_mass: String,
    pub erosion_pct: String,
    pub change_pp: String,
    pub masses: Vec<String>,
}

#[verifier::ext_equal]
pub struct FiguresModel {
    pub erosion: Seq<char>,
    pub change: Seq<char>,
    pub total_mass: Seq<char>,
    pub complex_mass: Seq<char>,
    pub erosion_pct: Seq<char>,
    pub change_pp: Seq<char>,
    pub masses: Seq<Seq<char>>,
}

impl View for Figures {
    type V = FiguresModel;

    open spec fn view(&self) -> FiguresModel {
        FiguresModel {
            erosion: self.erosion@,
            change: self.change@,
            total_mass: self.total_mass@,
            complex_mass: self.complex_mass@,
            erosion_pct: self.erosion_pct@,
            change_pp: self.change_pp@,
            masses: texts(self.masses@),
        }
    }
}

pub open spec fn figures_models(figures: Seq<Figures>) -> Seq<FiguresModel> {
    figures.map_values(|f: Figures| f@)
}

/// A snapshot can be shown: its commit has a full id, and its counts add up.
pub open spec fn presentable(s: SnapshotModel) -> bool {
    &&& s.commit is Some ==> s.commit->0.sha.len() >= 10
    &&& s.coverage.unsupported_files + s.coverage.excluded_entries
        + s.coverage.non_regular_entries <= usize::MAX
}

/// A snapshot can be shown.
pub fn is_presentable(snapshot: &Snapshot) -> (r: bool)
    ensures
        r == presentable(snapshot@),
{
    let coverage = &snapshot.coverage;
    let known: bool = match &snapshot.commit {
        Some(commit) => commit.sha.as_str().unicode_len() >= 10,
        None => true,
    };
    known && coverage.unsupported_files <= usize::MAX - coverage.excluded_entries
        && coverage.unsupported_files + coverage.excluded_entries <= usize::MAX
        - coverage.non_regular_entries
}

/// The entries of a snapshot that were not measured.
pub open spec fn skipped(c: CoverageModel) -> usize {
    (c.unsupported_files + c.excluded_entries + c.non_regular_entries) as usize
}

/// How a commit is shown.
pub open spec fn short_commit(s: SnapshotModel) -> Seq<char> {
    match s.commit {
        Some(commit) => commit.sha.subrange(0, 10),
        None => "--"@,
    }
}

/// How a score is shown in a row.
pub open spec fn row_score(s: SnapshotModel, f: FiguresModel) -> Seq<char> {
    if s.measurable {
        f.erosion + "%"@
    } else {
        "--"@
    }
}

/// How a change is shown in a row.
pub open spec fn row_change(s: SnapshotModel, f: FiguresModel) -> Seq<char> {
    if s.comparable {
        f.change + "pp"@
    } else {
        "--"@
    }
}

/// How a status is shown in a row.
pub open spec fn row_status(status: Status) -> Seq<char> {
    match status {
        Status::Complete => "complete"@,
        Status::Partial => "partial"@,
        Status::NotMeasurable => "not measurable"@,
        Status::NoCommit => "no commit"@,
        Status::NoFiles => "no files"@,
    }
}

/// The head of a table.
pub open spec fn header_line(label: Seq<char>) -> Seq<char> {
    left_aligned(label, 10) + "  "@ + left_aligned("Commit"@, 10) + " "@ + right_aligned(
        "Erosion"@,
        8,
    ) + " "@ + right_aligned("Change"@, 9) + " "@ + right_aligned("Files"@, 6) + " "@
        + right_aligned("Functions"@, 9) + " "@ + right_aligned("Failed"@, 6) + " "@
        + right_aligned("Skipped"@, 7) + " Status\n"@
}

/// The row of a snapshot in a table.
pub open spec fn row_line(label: Seq<char>, s: SnapshotModel, f: FiguresModel) -> Seq<char> {
    left_aligned(label, 10) + "  "@ + left_aligned(short_commit(s), 10) + " "@ + right_aligned(
        row_score(s, f),
        8,
    ) + " "@ + right_aligned(row_change(s, f), 9) + " "@ + right_aligned(
        readable(s.coverage.parsed_files),
        6,
    ) + " "@ + right_aligned(readable(s.functions), 9) + " "@ + right_aligned(
        readable(s.coverage.failed_files),
        6,
    ) + " "@ + right_aligned(readable(skipped(s.coverage)), 7) + " "@ + row_status(s.status)
        + "\n"@
}

fn add_left(text: &mut String, column: &str, width: usize)
    ensures
        final(text)@ == old(text)@ + left_aligned(column@, width as nat),
{
    let column = align_left(column, width);
    text.append(column.as_str());
}

fn add_right(text: &mut String, column: &str, width: usize)
    ensures
        final(text)@ == old(text)@ + right_aligned(column@, width as nat),
{
    let column = align_right(column, width);
    text.append(column.as_str());
}

/// The head of a table.
pub fn header(label: &str) -> (line: String)
    ensures
        line@ == header_line(label@),
{
    let mut line = align_left(label, 10);
    line.append("  ");
    add_left(&mut line, "Commit", 10);
    line.append(" ");
    add_right(&mut line, "Erosion", 8);
    line.append(" ");
    add_right(&mut line, "Change", 9);
    line.append(" ");
    add_right(&mut line, "Files", 6);
    line.append(" ");
    add_right(&mut line, "Functions", 9);
    line.append(" ");
    add_right(&mut line, "Failed", 6);
    line.append(" ");
    add_right(&mut line, "Skipped", 7);
    line.append(" Status\n");
    line
}

fn commit_text(snapshot: &Snapshot) -> (text: String)
    requires
        presentable(snapshot@),
    ensures
        text@ == short_commit(snapshot@),
{
    match &snapshot.commit {
        Some(commit) => commit.sha.as_str().substring_char(0, 10).to_owned(),
        None => "--".to_owned(),
    }
}

fn score_text(snapshot: &Snapshot, figures: &Figures) -> (text: String)
    ensures
        text@ == row_score(snapshot@, figures@),
{
    if snapshot.measurable {
        let mut text = figures.erosion.clone();
        text.append("%");
        text
    } else {
        "--".to_owned()
    }
}

fn change_text(snapshot: &Snapshot, figures: &Figures) -> (text: String)
    ensures
        text@ == row_change(snapshot@, figures@),
{
    if snapshot.comparable {
        let mut text = figures.change.clone();
        text.append("pp");
        text
    } else {
        "--".to_owned()
    }
}

fn status_text(status: Status) -> (text: &'static str)
    ensures
        text@ == row_status(status),
{
    match status {
        Status::Complete => "complete",
        Status::Partial => "partial",
        Status::NotMeasurable => "not measurable",
        Status::NoCommit => "no commit",
        Status::NoFiles => "no files",
    }
}

/// The row of a snapshot in a table.
pub fn row(label: &str, snapshot: &Snapshot, figures: &Figures) -> (line: String)
    requires
        presentable(snapshot@),
    ensures
        line@ == row_line(label@, snapshot@, figures@),
{
    let coverage = &snapshot.coverage;
    let mut line = align_left(label, 10);
    line.append("  ");
    let commit = commit_text(snapshot);
    add_left(&mut line, commit.as_str(), 10);
    line.append(" ");
    let score = score_text(snapshot, figures);
    add_right(&mut line, score.as_str(), 8);
    line.append(" ");
    let change = change_text(snapshot, figures);
    add_right(&mut line, change.as_str(), 9);
    line.append(" ");
    let files = number(coverage.parsed_files);
    add_right(&mut line, files.as_str(), 6);
    line.append(" ");
    let functions = number(snapshot.functions);
    add_right(&mut line, functions.as_str(), 9);
    line.append(" ");
    let failed = number(coverage.failed_files);
    add_right(&mut line, failed.as_str(), 6);
    line.append(" ");
    let left_out = number(
        coverage.unsupported_files + coverage.excluded_entries + coverage.non_regular_entries,
    );
    add_right(&mut line, left_out.as_str(), 7);
    line.append(" ");
    line.append(status_text(snapshot.status));
    line.append("\n");
    line
}

/// What the first line says where test code is left out.
pub open spec fn exclusion_note(excludes: bool) -> Seq<char> {
    if excludes {
        " (tests excluded)"@
    } else {
        ""@
    }
}

fn exclusion_text(excludes: bool) -> (text: &'static str)
    ensures
        text@ == exclusion_note(excludes),
{
    if excludes {
        " (tests excluded)"
    } else {
        ""
    }
}

/// Languages with their measured files.
pub open spec fn language_parts(languages: Seq<(Seq<char>, LanguageCoverage)>) -> Seq<Seq<char>> {
    languages.map_values(
        |l: (Seq<char>, LanguageCoverage)| l.0 + " "@ + readable(l.1.parsed_files),
    )
}

/// A count in words, where there is anything to count.
pub open spec fn count_part(count: usize, label: Seq<char>) -> Seq<Seq<char>> {
    if count > 0 {
        seq![readable(count) + " "@ + label]
    } else {
        Seq::empty()
    }
}

/// The entries that were not measured, in words.
pub open spec fn skipped_parts(c: CoverageModel) -> Seq<Seq<char>> {
    count_part(c.unsupported_files, "unsupported"@) + count_part(c.excluded_entries, "excluded"@)
        + count_part(c.non_regular_entries, "links/submodules"@)
}

/// A line with a list, where the list is not empty.
pub open spec fn list_line(label: Seq<char>, parts: Seq<Seq<char>>) -> Seq<char> {
    if parts.len() > 0 {
        label + joined(parts, ", "@) + "\n"@
    } else {
        ""@
    }
}

/// A complex callable in the summary of a measurement.
pub open spec fn top_lines(f: TopModel, place: int, mass: Seq<char>) -> Seq<char> {
    "  "@ + decimal(place as nat) + ". "@ + escaped(f.function.name) + " (CC "@ + decimal(
        f.function.complexity as nat,
    ) + ", SLOC "@ + readable(f.function.source_lines) + ", mass "@ + mass + ")\n     "@ + escaped(
        f.path,
    ) + ":"@ + decimal(f.function.start_line as nat) + "-"@ + decimal(f.function.end_line as nat)
        + "\n"@
}

/// The first `n` complex callables in the summary of a measurement.
pub open spec fn top_block(functions: Seq<TopModel>, masses: Seq<Seq<char>>, n: int) -> Seq<char>
    decreases n,
{
    if n <= 0 {
        "\nTop complex functions (CC > 10, ranked by mass):\n"@
    } else {
        top_block(functions, masses, n - 1) + top_lines(functions[n - 1], n, masses[n - 1])
    }
}

/// The score in the first line of a summary.
pub open spec fn summary_score(s: SnapshotModel, f: FiguresModel) -> Seq<char> {
    if s.measurable {
        f.erosion + "%"@
    } else {
        "not measurable"@
    }
}

/// The summary of one measurement.
pub open spec fn summary(s: SnapshotModel, f: FiguresModel, excludes: bool) -> Seq<char> {
    "Erosion: "@ + summary_score(s, f) + (if s.status is Partial {
        " (partial)"@
    } else {
        ""@
    }) + exclusion_note(excludes) + "\nCommit:  "@ + short_commit(s) + " ("@ + shown_date(
        s.commit->0.committed_at,
    ) + ")\n\nFiles: "@ + readable(s.coverage.parsed_files) + "    Functions: "@ + readable(
        s.functions,
    ) + "\n"@ + list_line("Languages: "@, language_parts(s.coverage.languages)) + list_line(
        "Skipped: "@,
        skipped_parts(s.coverage),
    ) + "Parse failures: "@ + readable(s.coverage.failed_files) + "\n"@ + (if s.top_functions.len()
        > 0 {
        top_block(s.top_functions, f.masses, s.top_functions.len() as int)
    } else {
        ""@
    })
}

fn list_text(label: &str, parts: &Vec<String>) -> (line: String)
    ensures
        line@ == list_line(label@, texts(parts@)),
{
    if parts.len() > 0 {
        let mut line = label.to_owned();
        let list = join(parts, ", ");
        line.append(list.as_str());
        line.append("\n");
        line
    } else {
        "".to_owned()
    }
}

fn languages_text(snapshot: &Snapshot) -> (line: String)
    ensures
        line@ == list_line("Languages: "@, language_parts(snapshot@.coverage.languages)),
{
    let languages = &snapshot.coverage.languages;
    let ghost expected = language_parts(languages@);
    let n: usize = languages.len();
    let mut parts: Vec<String> = Vec::new();
    let mut k: usize = 0;
    while k < n
        invariant
            n == languages@.len(),
            expected == language_parts(languages@),
            k <= n,
            parts@.len() == k,
            forall|i: int| 0 <= i < k ==> (#[trigger] parts@[i])@ == expected[i],
        decreases n - k,
    {
        let mut part = languages.key(k).to_owned();
        part.append(" ");
        let files = number(languages.value(k).parsed_files);
        part.append(files.as_str());
        assert(expected[k as int] == part@);
        parts.push(part);
        k = k + 1;
    }
    assert(texts(parts@) =~= expected);
    list_text("Languages: ", &parts)
}

fn add_count(parts: &mut Vec<String>, count: usize, label: &str)
    ensures
        texts(final(parts)@) == texts(old(parts)@) + count_part(count, label@),
{
    let ghost before = texts(parts@);
    if count > 0 {
        let mut part = number(count);
        part.append(" ");
        part.append(label);
        let ghost added = part@;
        parts.push(part);
        assert(texts(parts@) =~= before + seq![added]);
    } else {
        assert(texts(parts@) =~= before + count_part(count, label@));
    }
}

fn skipped_text(snapshot: &Snapshot) -> (line: String)
    ensures
        line@ == list_line("Skipped: "@, skipped_parts(snapshot@.coverage)),
{
    let coverage = &snapshot.coverage;
    let mut parts: Vec<String> = Vec::new();
    let ghost none = texts(parts@);
    add_count(&mut parts, coverage.unsupported_files, "unsupported");
    assert(none + count_part(coverage.unsupported_files, "unsupported"@) =~= count_part(
        coverage.unsupported_files,
        "unsupported"@,
    ));
    add_count(&mut parts, coverage.excluded_entries, "excluded");
    add_count(&mut parts, coverage.non_regular_entries, "links/submodules");
    list_text("Skipped: ", &parts)
}

fn top_text(function: &TopFunction, place: usize, mass: &str) -> (lines: String)
    ensures
        lines@ == top_lines(function@, place as int, mass@),
{
    let mut lines = "  ".to_owned();
    let rank = count_text(place);
    lines.append(rank.as_str());
    lines.append(". ");
    let name = escape(function.function.name.as_str());
    lines.append(name.as_str());
    lines.append(" (CC ");
    let complexity = decimal_text(function.function.complexity);
    lines.append(complexity.as_str());
    lines.append(", SLOC ");
    let source_lines = number(function.function.source_lines);
    lines.append(source_lines.as_str());
    lines.append(", mass ");
    lines.append(mass);
    lines.append(")\n     ");
    let path = escape(function.path.as_str());
    lines.append(path.as_str());
    lines.append(":");
    let start = count_text(function.function.start_line);
    lines.append(start.as_str());
    lines.append("-");
    let end = count_text(function.function.end_line);
    lines.append(end.as_str());
    lines.append("\n");
    lines
}

fn top_functions_text(snapshot: &Snapshot, figures: &Figures) -> (text: String)
    requires
        figures.masses@.len() == snapshot.top_functions@.len(),
    ensures
        text@ == top_block(
            snapshot@.top_functions,
            figures@.masses,
            snapshot@.top_functions.len() as int,
        ),
{
    let ghost models = snapshot@.top_functions;
    let ghost masses = figures@.masses;
    let functions = &snapshot.top_functions;
    let mut text = "\nTop complex functions (CC > 10, ranked by mass):\n".to_owned();
    let mut k: usize = 0;
    while k < functions.len()
        invariant
            models == top_models(functions@),
            masses == texts(figures.masses@),
            figures.masses@.len() == functions@.len(),
            k <= functions@.len(),
            text@ == top_block(models, masses, k as int),
        decreases functions@.len() - k,
    {
        assert(models[k as int] == functions@[k as int]@);
        assert(masses[k as int] == figures.masses@[k as int]@);
        let lines = top_text(&functions[k], k + 1, figures.masses[k].as_str());
        text.append(lines.as_str());
        k = k + 1;
    }
    text
}

/// The summary of one measurement.
fn measure(snapshot: &Snapshot, figures: &Figures, excludes: bool) -> (text: String)
    requires
        presentable(snapshot@),
        snapshot.commit is Some,
        figures.masses@.len() == snapshot.top_functions@.len(),
    ensures
        text@ == summary(snapshot@, figures@, excludes),
{
    let coverage = &snapshot.coverage;
    let mut text = "Erosion: ".to_owned();
    if snapshot.measurable {
        let score = score_text(snapshot, figures);
        text.append(score.as_str());
    } else {
        text.append("not measurable");
    }
    let mark: &str = if snapshot.status == Status::Partial {
        " (partial)"
    } else {
        ""
    };
    text.append(mark);
    text.append(exclusion_text(excludes));
    text.append("\nCommit:  ");
    let commit = commit_text(snapshot);
    text.append(commit.as_str());
    text.append(" (");
    let date = match &snapshot.commit {
        Some(commit) => date_text(commit.committed_at),
        None => String::new(),
    };
    text.append(date.as_str());
    text.append(")\n\nFiles: ");
    let files = number(coverage.parsed_files);
    text.append(files.as_str());
    text.append("    Functions: ");
    let functions = number(snapshot.functions);
    text.append(functions.as_str());
    text.append("\n");
    let languages = languages_text(snapshot);
    text.append(languages.as_str());
    let left_out = skipped_text(snapshot);
    text.append(left_out.as_str());
    text.append("Parse failures: ");
    let failed = number(coverage.failed_files);
    text.append(failed.as_str());
    text.append("\n");
    let top = if snapshot.top_functions.len() > 0 {
        top_functions_text(snapshot, figures)
    } else {
        "".to_owned()
    };
    assert(snapshot@.top_functions.len() == snapshot.top_functions@.len());
    text.append(top.as_str());
    text
}

/// Why a report has no table.
#[derive(Debug)]
pub enum TableError {
    /// A measurement is one snapshot.
    MeasureCount,
    /// A comparison is two snapshots.
    DeltaCount,
    /// The snapshot of a measurement has no commit.
    MeasureCommit,
    /// The older snapshot of a comparison has no commit.
    FromCommit,
    /// The newer snapshot of a comparison has no commit.
    ToCommit,
    /// There is no such mode.
    UnknownMode { mode: String },
}

/// Why a report has no table, as specifications speak of it.
pub enum TableFailure {
    MeasureCount,
    DeltaCount,
    MeasureCommit,
    FromCommit,
    ToCommit,
    UnknownMode { mode: Seq<char> },
}

impl View for TableError {
    type V = TableFailure;

    open spec fn view(&self) -> TableFailure {
        match self {
            TableError::MeasureCount => TableFailure::MeasureCount,
            TableError::DeltaCount => TableFailure::DeltaCount,
            TableError::MeasureCommit => TableFailure::MeasureCommit,
            TableError::FromCommit => TableFailure::FromCommit,
            TableError::ToCommit => TableFailure::ToCommit,
            TableError::UnknownMode { mode } => TableFailure::UnknownMode { mode: mode@ },
        }
    }
}

/// What to tell the user of a report without a table.
pub open spec fn table_message(failure: TableFailure) -> Seq<char> {
    match failure {
        TableFailure::MeasureCount => "Measure output requires exactly one snapshot"@,
        TableFailure::DeltaCount => "Delta output requires exactly two snapshots"@,
        TableFailure::MeasureCommit => "Measure commit is missing"@,
        TableFailure::FromCommit => "Delta FROM commit is missing"@,
        TableFailure::ToCommit => "Delta TO commit is missing"@,
        TableFailure::UnknownMode { mode } => "Unknown report mode "@ + debug_text(mode),
    }
}

impl TableError {
    /// What to tell the user.
    pub fn message(&self) -> (message: String)
        ensures
            message@ == table_message(self@),
    {
        match self {
            TableError::MeasureCount => "Measure output requires exactly one snapshot".to_owned(),
            TableError::DeltaCount => "Delta output requires exactly two snapshots".to_owned(),
            TableError::MeasureCommit => "Measure commit is missing".to_owned(),
            TableError::FromCommit => "Delta FROM commit is missing".to_owned(),
            TableError::ToCommit => "Delta TO commit is missing".to_owned(),
            TableError::UnknownMode { mode } => {
                let mut message = "Unknown report mode ".to_owned();
                let name = quoted(mode.as_str());
                message.append(name.as_str());
                message
            },
        }
    }
}

/// The rows of the first `n` snapshots, by the dates of their cutoffs.
pub open spec fn date_rows(
    snapshots: Seq<SnapshotModel>,
    figures: Seq<FiguresModel>,
    n: int,
) -> Seq<char>
    decreases n,
{
    if n <= 0 {
        ""@
    } else {
        date_rows(snapshots, figures, n - 1) + row_line(
            shown_date(snapshots[n - 1].cutoff_utc),
            snapshots[n - 1],
            figures[n - 1],
        )
    }
}

/// How a step between two commits is called: the first and the last one have
/// names.
pub open spec fn step_label(k: int, length: int) -> Seq<char> {
    if k == 0 {
        "FROM"@
    } else if k == length - 1 {
        "TO"@
    } else {
        ""@
    }
}

/// The rows of the first `n` steps between two commits.
pub open spec fn step_rows(
    snapshots: Seq<SnapshotModel>,
    figures: Seq<FiguresModel>,
    n: int,
) -> Seq<char>
    decreases n,
{
    if n <= 0 {
        ""@
    } else {
        step_rows(snapshots, figures, n - 1) + row_line(
            step_label(n - 1, snapshots.len() as int),
            snapshots[n - 1],
            figures[n - 1],
        )
    }
}

/// The comparison of two snapshots.
pub open spec fn delta_text(
    snapshots: Seq<SnapshotModel>,
    figures: Seq<FiguresModel>,
    excludes: bool,
) -> Seq<char> {
    "Erosion delta (TO - FROM): "@ + (if snapshots[1].comparable {
        figures[1].change + " percentage points"@
    } else {
        "not measurable (one or both scores unavailable)"@
    }) + exclusion_note(excludes) + "\n\n"@ + header_line("Snapshot"@) + row_line(
        "FROM"@,
        snapshots[0],
        figures[0],
    ) + row_line("TO"@, snapshots[1], figures[1])
}

/// The comparison of every commit with the one before it.
pub open spec fn steps_text(
    snapshots: Seq<SnapshotModel>,
    figures: Seq<FiguresModel>,
    excludes: bool,
) -> Seq<char> {
    "Erosion delta per commit"@ + exclusion_note(excludes) + "\n\n"@ + header_line("Snapshot"@)
        + step_rows(snapshots, figures, snapshots.len() as int)
}

/// Both ends of a series have scores, so that there is a change over all of it.
pub open spec fn spans_scores(snapshots: Seq<SnapshotModel>) -> bool {
    snapshots.len() > 1 && snapshots[0].measurable && snapshots.last().measurable
}

/// A series of snapshots.
pub open spec fn history_text(
    snapshots: Seq<SnapshotModel>,
    figures: Seq<FiguresModel>,
    overall: Seq<char>,
    excludes: bool,
) -> Seq<char> {
    "Erosion history"@ + exclusion_note(excludes) + "\n\n"@ + header_line("Checkpoint"@)
        + date_rows(snapshots, figures, snapshots.len() as int) + (if spans_scores(snapshots) {
        "\nOverall change: "@ + overall + " percentage points\n"@
    } else {
        ""@
    })
}

/// Some snapshot has a status.
pub open spec fn any_status(snapshots: Seq<SnapshotModel>, status: Status) -> bool {
    exists|k: int| 0 <= k < snapshots.len() && (#[trigger] snapshots[k]).status == status
}

/// Some commit was measured without a score.
pub open spec fn any_unmeasurable(snapshots: Seq<SnapshotModel>) -> bool {
    exists|k: int|
        0 <= k < snapshots.len() && (#[trigger] snapshots[k]).commit is Some
            && !snapshots[k].measurable
}

/// A line that is there on a condition.
pub open spec fn line_if(condition: bool, line: Seq<char>) -> Seq<char> {
    if condition {
        line
    } else {
        ""@
    }
}

/// What is said below every table.
pub open spec fn footer(mode: Seq<char>, snapshots: Seq<SnapshotModel>) -> Seq<char> {
    line_if(
        mode != "measure"@,
        "\nFiles = parsed; skipped = unsupported, excluded, or links/submodules.\n"@,
    ) + line_if(
        any_status(snapshots, Status::Partial),
        (if mode == "delta"@ {
            "Partial comparison: failed files are excluded. Scores cover parsed source only.\n"@
        } else {
            "Partial results: failed files are excluded. Scores cover parsed source only.\n"@
        }),
    ) + line_if(
        any_unmeasurable(snapshots),
        "Not measurable: no function mass in the parsed source.\n"@,
    ) + line_if(
        any_status(snapshots, Status::NoCommit),
        "No commit: no ancestor at or before the checkpoint.\n"@,
    ) + "\nCommitted source only; uncommitted changes ignored.\n"@
}

/// What stands above the footer of a table, or why there is no table.
pub open spec fn table_body(
    mode: Seq<char>,
    snapshots: Seq<SnapshotModel>,
    figures: Seq<FiguresModel>,
    overall: Seq<char>,
    steps: bool,
    excludes: bool,
) -> Result<Seq<char>, TableFailure> {
    if mode == "measure"@ {
        if snapshots.len() != 1 {
            Err(TableFailure::MeasureCount)
        } else if snapshots[0].commit is None {
            Err(TableFailure::MeasureCommit)
        } else {
            Ok(summary(snapshots[0], figures[0], excludes))
        }
    } else if mode == "delta"@ {
        if steps {
            Ok(steps_text(snapshots, figures, excludes))
        } else if snapshots.len() != 2 {
            Err(TableFailure::DeltaCount)
        } else if snapshots[0].commit is None {
            Err(TableFailure::FromCommit)
        } else if snapshots[1].commit is None {
            Err(TableFailure::ToCommit)
        } else {
            Ok(delta_text(snapshots, figures, excludes))
        }
    } else if mode == "history"@ {
        Ok(history_text(snapshots, figures, overall, excludes))
    } else {
        Err(TableFailure::UnknownMode { mode })
    }
}

/// The texts that come with snapshots fit them, and the snapshots can be shown.
pub open spec fn showable(snapshots: Seq<Snapshot>, figures: Seq<Figures>) -> bool {
    &&& figures.len() == snapshots.len()
    &&& forall|k: int|
        0 <= k < snapshots.len() ==> presentable((#[trigger] snapshots[k])@)
            && figures[k].masses@.len() == snapshots[k].top_functions@.len()
}

/// The texts that come with snapshots fit them, and the snapshots can be shown.
pub fn are_showable(snapshots: &Vec<Snapshot>, figures: &Vec<Figures>) -> (r: bool)
    ensures
        r == showable(snapshots@, figures@),
{
    if figures.len() != snapshots.len() {
        return false;
    }
    let mut k: usize = 0;
    while k < snapshots.len()
        invariant
            figures@.len() == snapshots@.len(),
            k <= snapshots@.len(),
            forall|i: int|
                0 <= i < k ==> presentable((#[trigger] snapshots@[i])@) && figures@[i].masses@.len()
                    == snapshots@[i].top_functions@.len(),
        decreases snapshots@.len() - k,
    {
        if !is_presentable(&snapshots[k]) || figures[k].masses.len()
            != snapshots[k].top_functions.len() {
            return false;
        }
        k = k + 1;
    }
    true
}

fn date_rows_text(snapshots: &Vec<Snapshot>, figures: &Vec<Figures>) -> (text: String)
    requires
        showable(snapshots@, figures@),
    ensures
        text@ == date_rows(
            snapshot_models(snapshots@),
            figures_models(figures@),
            snapshots@.len() as int,
        ),
{
    let ghost models = snapshot_models(snapshots@);
    let ghost shown = figures_models(figures@);
    let mut text = "".to_owned();
    let mut k: usize = 0;
    while k < snapshots.len()
        invariant
            showable(snapshots@, figures@),
            models == snapshot_models(snapshots@),
            shown == figures_models(figures@),
            k <= snapshots@.len(),
            text@ == date_rows(models, shown, k as int),
        decreases snapshots@.len() - k,
    {
        assert(models[k as int] == snapshots@[k as int]@);
        assert(shown[k as int] == figures@[k as int]@);
        let label = date_text(snapshots[k].cutoff_utc);
        let line = row(label.as_str(), &snapshots[k], &figures[k]);
        text.append(line.as_str());
        k = k + 1;
    }
    text
}

fn step_rows_text(snapshots: &Vec<Snapshot>, figures: &Vec<Figures>) -> (text: String)
    requires
        showable(snapshots@, figures@),
    ensures
        text@ == step_rows(
            snapshot_models(snapshots@),
            figures_models(figures@),
            snapshots@.len() as int,
        ),
{
    let ghost models = snapshot_models(snapshots@);
    let ghost shown = figures_models(figures@);
    let mut text = "".to_owned();
    let mut k: usize = 0;
    while k < snapshots.len()
        invariant
            showable(snapshots@, figures@),
            models == snapshot_models(snapshots@),
            models.len() == snapshots@.len(),
            shown == figures_models(figures@),
            k <= snapshots@.len(),
            text@ == step_rows(models, shown, k as int),
        decreases snapshots@.len() - k,
    {
        assert(models[k as int] == snapshots@[k as int]@);
        assert(shown[k as int] == figures@[k as int]@);
        let label: &str = if k == 0 {
            "FROM"
        } else if k == snapshots.len() - 1 {
            "TO"
        } else {
            ""
        };
        let line = row(label, &snapshots[k], &figures[k]);
        text.append(line.as_str());
        k = k + 1;
    }
    text
}

fn has_status(snapshots: &Vec<Snapshot>, status: Status) -> (r: bool)
    ensures
        r == any_status(snapshot_models(snapshots@), status),
{
    let ghost models = snapshot_models(snapshots@);
    let mut k: usize = 0;
    while k < snapshots.len()
        invariant
            models == snapshot_models(snapshots@),
            k <= snapshots@.len(),
            forall|i: int| 0 <= i < k ==> (#[trigger] models[i]).status != status,
        decreases snapshots@.len() - k,
    {
        assert(models[k as int] == snapshots@[k as int]@);
        if snapshots[k].status == status {
            assert(models[k as int].status == status);
            return true;
        }
        k = k + 1;
    }
    false
}

fn has_unmeasurable(snapshots: &Vec<Snapshot>) -> (r: bool)
    ensures
        r == any_unmeasurable(snapshot_models(snapshots@)),
{
    let ghost models = snapshot_models(snapshots@);
    let mut k: usize = 0;
    while k < snapshots.len()
        invariant
            models == snapshot_models(snapshots@),
            k <= snapshots@.len(),
            forall|i: int|
                0 <= i < k ==> (#[trigger] models[i]).commit is None || models[i].measurable,
        decreases snapshots@.len() - k,
    {
        assert(models[k as int] == snapshots@[k as int]@);
        if snapshots[k].commit.is_some() && !snapshots[k].measurable {
            assert(models[k as int].commit is Some);
            return true;
        }
        k = k + 1;
    }
    false
}

fn text_if(condition: bool, line: &'static str) -> (text: &'static str)
    ensures
        text@ == line_if(condition, line@),
{
    if condition {
        line
    } else {
        ""
    }
}

fn footer_text(mode: &str, snapshots: &Vec<Snapshot>) -> (text: String)
    ensures
        text@ == footer(mode@, snapshot_models(snapshots@)),
{
    let mut text = text_if(
        !same(mode, "measure"),
        "\nFiles = parsed; skipped = unsupported, excluded, or links/submodules.\n",
    ).to_owned();
    let partial: &'static str = if same(mode, "delta") {
        "Partial comparison: failed files are excluded. Scores cover parsed source only.\n"
    } else {
        "Partial results: failed files are excluded. Scores cover parsed source only.\n"
    };
    text.append(text_if(has_status(snapshots, Status::Partial), partial));
    text.append(
        text_if(
            has_unmeasurable(snapshots),
            "Not measurable: no function mass in the parsed source.\n",
        ),
    );
    text.append(
        text_if(
            has_status(snapshots, Status::NoCommit),
            "No commit: no ancestor at or before the checkpoint.\n",
        ),
    );
    text.append("\nCommitted source only; uncommitted changes ignored.\n");
    text
}

fn delta(snapshots: &Vec<Snapshot>, figures: &Vec<Figures>, excludes: bool) -> (text: String)
    requires
        showable(snapshots@, figures@),
        snapshots@.len() == 2,
    ensures
        text@ == delta_text(snapshot_models(snapshots@), figures_models(figures@), excludes),
{
    let ghost models = snapshot_models(snapshots@);
    let ghost shown = figures_models(figures@);
    assert(models[0] == snapshots@[0]@ && models[1] == snapshots@[1]@);
    assert(shown[0] == figures@[0]@ && shown[1] == figures@[1]@);
    let change = if snapshots[1].comparable {
        let mut change = figures[1].change.clone();
        change.append(" percentage points");
        change
    } else {
        "not measurable (one or both scores unavailable)".to_owned()
    };
    let mut text = "Erosion delta (TO - FROM): ".to_owned();
    text.append(change.as_str());
    text.append(exclusion_text(excludes));
    text.append("\n\n");
    let head = header("Snapshot");
    text.append(head.as_str());
    let from = row("FROM", &snapshots[0], &figures[0]);
    text.append(from.as_str());
    let to = row("TO", &snapshots[1], &figures[1]);
    text.append(to.as_str());
    text
}

fn steps(snapshots: &Vec<Snapshot>, figures: &Vec<Figures>, excludes: bool) -> (text: String)
    requires
        showable(snapshots@, figures@),
    ensures
        text@ == steps_text(snapshot_models(snapshots@), figures_models(figures@), excludes),
{
    let mut text = "Erosion delta per commit".to_owned();
    text.append(exclusion_text(excludes));
    text.append("\n\n");
    let head = header("Snapshot");
    text.append(head.as_str());
    let rows = step_rows_text(snapshots, figures);
    text.append(rows.as_str());
    text
}

fn history(
    snapshots: &Vec<Snapshot>,
    figures: &Vec<Figures>,
    overall: &str,
    excludes: bool,
) -> (text: String)
    requires
        showable(snapshots@, figures@),
    ensures
        text@ == history_text(
            snapshot_models(snapshots@),
            figures_models(figures@),
            overall@,
            excludes,
        ),
{
    let ghost models = snapshot_models(snapshots@);
    let mut text = "Erosion history".to_owned();
    text.append(exclusion_text(excludes));
    text.append("\n\n");
    let head = header("Checkpoint");
    text.append(head.as_str());
    let rows = date_rows_text(snapshots, figures);
    text.append(rows.as_str());
    let n: usize = snapshots.len();
    let mut change = "".to_owned();
    if n > 1 {
        assert(models[0] == snapshots@[0]@ && models[n - 1] == snapshots@[n - 1]@);
        if snapshots[0].measurable && snapshots[n - 1].measurable {
            change = "\nOverall change: ".to_owned();
            change.append(overall);
            change.append(" percentage points\n");
        }
    }
    text.append(change.as_str());
    text
}

/// A report as a table. The change over a whole series is used where both of its
/// ends have scores. A comparison is of two snapshots, or of every commit with
/// the one before it.
pub fn table(
    report: &Report,
    figures: &Vec<Figures>,
    overall: &str,
    every_commit: bool,
) -> (result: Result<String, TableError>)
    requires
        showable(report.snapshots@, figures@),
    ensures
        ({
            let snapshots = snapshot_models(report.snapshots@);
            let body = table_body(
                report.mode@,
                snapshots,
                figures_models(figures@),
                overall@,
                every_commit,
                report.test_exclusion is Some,
            );
            match result {
                Ok(text) => body is Ok && text@ == body->Ok_0 + footer(report.mode@, snapshots),
                Err(error) => body == Err::<Seq<char>, TableFailure>(error@),
            }
        }),
{
    let snapshots = &report.snapshots;
    let ghost models = snapshot_models(snapshots@);
    let ghost shown = figures_models(figures@);
    let excludes: bool = report.test_exclusion.is_some();
    let mut text = if same(report.mode, "measure") {
        if snapshots.len() != 1 {
            return Err(TableError::MeasureCount);
        }
        assert(models[0] == snapshots@[0]@ && shown[0] == figures@[0]@);
        if snapshots[0].commit.is_none() {
            return Err(TableError::MeasureCommit);
        }
        measure(&snapshots[0], &figures[0], excludes)
    } else if same(report.mode, "delta") {
        if every_commit {
            steps(snapshots, figures, excludes)
        } else {
            if snapshots.len() != 2 {
                return Err(TableError::DeltaCount);
            }
            assert(models[0] == snapshots@[0]@ && models[1] == snapshots@[1]@);
            if snapshots[0].commit.is_none() {
                return Err(TableError::FromCommit);
            }
            if snapshots[1].commit.is_none() {
                return Err(TableError::ToCommit);
            }
            delta(snapshots, figures, excludes)
        }
    } else if same(report.mode, "history") {
        history(snapshots, figures, overall, excludes)
    } else {
        return Err(TableError::UnknownMode { mode: report.mode.to_owned() });
    };
    let end = footer_text(report.mode, snapshots);
    text.append(end.as_str());
    Ok(text)
}

/// The tables of the first `n` modules.
pub open spec fn module_blocks(
    series: Seq<SeriesModel>,
    figures: Seq<Seq<FiguresModel>>,
    n: int,
) -> Seq<char>
    decreases n,
{
    if n <= 0 {
        ""@
    } else {
        let one = series[n - 1];
        module_blocks(series, figures, n - 1) + "Module: "@ + escaped(one.path) + "\n"@
            + header_line("Checkpoint"@) + date_rows(
            one.snapshots,
            figures[n - 1],
            one.snapshots.len() as int,
        ) + "\n"@
    }
}

pub open spec fn all_figures_models(figures: Seq<Vec<Figures>>) -> Seq<Seq<FiguresModel>> {
    figures.map_values(|f: Vec<Figures>| figures_models(f@))
}

/// The texts that come with modules fit them, and the modules can be shown.
pub open spec fn modules_showable(modules: Seq<ModuleSeries>, figures: Seq<Vec<Figures>>) -> bool {
    &&& figures.len() == modules.len()
    &&& forall|k: int|
        0 <= k < modules.len() ==> showable((#[trigger] modules[k]).snapshots@, figures[k]@)
}

/// The texts that come with modules fit them, and the modules can be shown.
pub fn modules_are_showable(modules: &Vec<ModuleSeries>, figures: &Vec<Vec<Figures>>) -> (r: bool)
    ensures
        r == modules_showable(modules@, figures@),
{
    if figures.len() != modules.len() {
        return false;
    }
    let mut k: usize = 0;
    while k < modules.len()
        invariant
            figures@.len() == modules@.len(),
            k <= modules@.len(),
            forall|i: int|
                0 <= i < k ==> showable((#[trigger] modules@[i]).snapshots@, figures@[i]@),
        decreases modules@.len() - k,
    {
        if !are_showable(&modules[k].snapshots, &figures[k]) {
            return false;
        }
        k = k + 1;
    }
    true
}

/// A report on modules as tables, one for each module.
pub fn modules_table(report: &ModuleReport, figures: &Vec<Vec<Figures>>) -> (text: String)
    requires
        modules_showable(report.modules@, figures@),
    ensures
        text@ == "Erosion whole-module history"@ + exclusion_note(report.test_exclusion is Some)
            + "\n\n"@ + module_blocks(
            series_models(report.modules@),
            all_figures_models(figures@),
            report.modules@.len() as int,
        ),
{
    let ghost models = series_models(report.modules@);
    let ghost shown = all_figures_models(figures@);
    let mut blocks = "".to_owned();
    let mut k: usize = 0;
    while k < report.modules.len()
        invariant
            modules_showable(report.modules@, figures@),
            models == series_models(report.modules@),
            shown == all_figures_models(figures@),
            k <= report.modules@.len(),
            blocks@ == module_blocks(models, shown, k as int),
        decreases report.modules@.len() - k,
    {
        let one: &ModuleSeries = &report.modules[k];
        assert(models[k as int] == one@);
        assert(shown[k as int] == figures_models(figures@[k as int]@));
        assert(one@.snapshots.len() == one.snapshots@.len());
        assert(showable(report.modules@[k as int].snapshots@, figures@[k as int]@));
        blocks.append("Module: ");
        let path = escape(one.path.as_str());
        blocks.append(path.as_str());
        blocks.append("\n");
        let head = header("Checkpoint");
        blocks.append(head.as_str());
        let rows = date_rows_text(&one.snapshots, &figures[k]);
        blocks.append(rows.as_str());
        blocks.append("\n");
        k = k + 1;
    }
    let mut text = "Erosion whole-module history".to_owned();
    text.append(exclusion_text(report.test_exclusion.is_some()));
    text.append("\n\n");
    text.append(blocks.as_str());
    text
}

} // verus!
