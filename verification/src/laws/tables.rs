//! What stands where in a table, a summary and the lines below them.

use vstd::prelude::*;

use crate::calendar::shown_date;
use crate::format::decimal;
use crate::laws::numbers::columns_are_filled;
use crate::output::{
    any_status, any_unmeasurable, count_part, date_rows, delta_text, escaped, footer, header_line,
    history_text, language_parts, left_aligned, list_line, module_blocks, readable, right_aligned,
    row_line, row_status, skipped, skipped_parts, spans_scores, step_label, step_rows, steps_text,
    summary, table_body, top_block, top_lines, FiguresModel, TableFailure,
};
use crate::modules::SeriesModel;
use crate::snapshot::{CoverageModel, LanguageCoverage, SnapshotModel, Status, TopModel};

verus! {

proof fn lemma_tail_2(x: Seq<char>, a1: Seq<char>, a2: Seq<char>)
    ensures
        x + a1 + a2 == x + (a1 + a2),
{
    assert(x + a1 + a2 =~= x + (a1 + a2));
}

proof fn lemma_tail_3(x: Seq<char>, a1: Seq<char>, a2: Seq<char>, a3: Seq<char>)
    ensures
        x + a1 + a2 + a3 == x + (a1 + a2 + a3),
{
    assert(x + a1 + a2 + a3 =~= x + (a1 + a2 + a3));
}

proof fn lemma_tail_5(x: Seq<char>, a1: Seq<char>, a2: Seq<char>, a3: Seq<char>, a4: Seq<char>, a5: Seq<char>)
    ensures
        x + a1 + a2 + a3 + a4 + a5 == x + (a1 + a2 + a3 + a4 + a5),
{
    assert(x + a1 + a2 + a3 + a4 + a5 =~= x + (a1 + a2 + a3 + a4 + a5));
}

proof fn lemma_tail_6(x: Seq<char>, a1: Seq<char>, a2: Seq<char>, a3: Seq<char>, a4: Seq<char>, a5: Seq<char>, a6: Seq<char>)
    ensures
        x + a1 + a2 + a3 + a4 + a5 + a6 == x + (a1 + a2 + a3 + a4 + a5 + a6),
{
    assert(x + a1 + a2 + a3 + a4 + a5 + a6 =~= x + (a1 + a2 + a3 + a4 + a5 + a6));
}

proof fn lemma_empty(x: Seq<char>)
    ensures
        x + Seq::<char>::empty() == x,
        x + ""@ == x,
{
    reveal_strlit("");
    assert(x + Seq::<char>::empty() =~= x);
    assert(x + ""@ =~= x);
}

proof fn lemma_middle(
    x: Seq<char>,
    a: Seq<char>,
    b: Seq<char>,
    c: Seq<char>,
    d: Seq<char>,
    e: Seq<char>,
)
    ensures
        x + a + b + c + d + e == x + (a + b + c) + (d + e),
{
    assert(x + a + b + c + d + e =~= x + (a + b + c) + (d + e));
}

/// The columns of a table from left to right, and how wide each is at least.
pub open spec fn column_width(k: int) -> nat {
    if k == 0 || k == 1 {
        10
    } else if k == 2 {
        8
    } else if k == 3 || k == 5 {
        9
    } else if k == 4 || k == 6 {
        6
    } else {
        7
    }
}

/// How wide a column is on a line: as wide as its text where that does not fit.
pub open spec fn cell_width(cells: Seq<Seq<char>>, k: int) -> int {
    if cells[k].len() > column_width(k) {
        cells[k].len() as int
    } else {
        column_width(k) as int
    }
}

/// Where a column starts on a line: behind the columns before it. Two blanks follow the
/// first column, one blank follows any other.
pub open spec fn column_start(cells: Seq<Seq<char>>, k: int) -> int
    decreases k,
{
    if k <= 0 {
        0
    } else {
        column_start(cells, k - 1) + cell_width(cells, k - 1) + if k == 1 {
            2int
        } else {
            1
        }
    }
}

/// What stands in a column of a line.
pub open spec fn cell(line: Seq<char>, cells: Seq<Seq<char>>, k: int) -> Seq<char> {
    line.subrange(column_start(cells, k), column_start(cells, k) + cell_width(cells, k))
}

/// The headings of a table, from left to right.
pub open spec fn headings(label: Seq<char>) -> Seq<Seq<char>> {
    seq![
        label,
        "Commit"@,
        "Erosion"@,
        "Change"@,
        "Files"@,
        "Functions"@,
        "Failed"@,
        "Skipped"@,
    ]
}

/// What a snapshot shows under each heading: the first characters of the commit, the
/// score, its change, the parsed files, all callables, the failed files and the files
/// that were skipped.
pub open spec fn shown(label: Seq<char>, s: SnapshotModel, f: FiguresModel) -> Seq<Seq<char>> {
    seq![
        label,
        if s.commit is Some {
            s.commit->0.sha.subrange(0, 10)
        } else {
            "--"@
        },
        if s.measurable {
            f.erosion + "%"@
        } else {
            "--"@
        },
        if s.comparable {
            f.change + "pp"@
        } else {
            "--"@
        },
        readable(s.coverage.parsed_files),
        readable(s.functions),
        readable(s.coverage.failed_files),
        readable(
            (s.coverage.unsupported_files + s.coverage.excluded_entries
                + s.coverage.non_regular_entries) as usize,
        ),
    ]
}

proof fn lemma_line(cells: Seq<Seq<char>>, rest: Seq<char>) -> (line: Seq<char>)
    requires
        cells.len() == 8,
    ensures
        line == left_aligned(cells[0], 10) + "  "@ + left_aligned(cells[1], 10) + " "@
            + right_aligned(cells[2], 8) + " "@ + right_aligned(cells[3], 9) + " "@
            + right_aligned(cells[4], 6) + " "@ + right_aligned(cells[5], 9) + " "@
            + right_aligned(cells[6], 6) + " "@ + right_aligned(cells[7], 7) + rest,
        cell(line, cells, 0) == left_aligned(cells[0], 10),
        cell(line, cells, 1) == left_aligned(cells[1], 10),
        forall|k: int|
            2 <= k < 8 ==> #[trigger] cell(line, cells, k) == right_aligned(
                cells[k],
                column_width(k),
            ),
        line.subrange(column_start(cells, 7) + cell_width(cells, 7), line.len() as int) == rest,
{
    reveal_strlit("  ");
    reveal_strlit(" ");
    reveal_with_fuel(column_start, 9);
    columns_are_filled(cells[0], 10);
    columns_are_filled(cells[1], 10);
    columns_are_filled(cells[2], 8);
    columns_are_filled(cells[3], 9);
    columns_are_filled(cells[4], 6);
    columns_are_filled(cells[5], 9);
    columns_are_filled(cells[6], 6);
    columns_are_filled(cells[7], 7);
    let p0 = left_aligned(cells[0], 10);
    let p1 = p0 + "  "@ + left_aligned(cells[1], 10);
    let p2 = p1 + " "@ + right_aligned(cells[2], 8);
    let p3 = p2 + " "@ + right_aligned(cells[3], 9);
    let p4 = p3 + " "@ + right_aligned(cells[4], 6);
    let p5 = p4 + " "@ + right_aligned(cells[5], 9);
    let p6 = p5 + " "@ + right_aligned(cells[6], 6);
    let p7 = p6 + " "@ + right_aligned(cells[7], 7);
    let line = p7 + rest;
    assert(p0.len() == cell_width(cells, 0));
    assert(p1.len() == column_start(cells, 1) + cell_width(cells, 1));
    assert(p2.len() == column_start(cells, 2) + cell_width(cells, 2));
    assert(p3.len() == column_start(cells, 3) + cell_width(cells, 3));
    assert(p4.len() == column_start(cells, 4) + cell_width(cells, 4));
    assert(p5.len() == column_start(cells, 5) + cell_width(cells, 5));
    assert(p6.len() == column_start(cells, 6) + cell_width(cells, 6));
    assert(p7.len() == column_start(cells, 7) + cell_width(cells, 7));
    assert(cell(line, cells, 0) =~= p0);
    assert(cell(p1, cells, 1) =~= left_aligned(cells[1], 10));
    assert(cell(p2, cells, 2) =~= right_aligned(cells[2], 8));
    assert(cell(p3, cells, 3) =~= right_aligned(cells[3], 9));
    assert(cell(p4, cells, 4) =~= right_aligned(cells[4], 6));
    assert(cell(p5, cells, 5) =~= right_aligned(cells[5], 9));
    assert(cell(p6, cells, 6) =~= right_aligned(cells[6], 6));
    assert(cell(p7, cells, 7) =~= right_aligned(cells[7], 7));
    assert(cell(line, cells, 1) =~= cell(p1, cells, 1));
    assert(cell(line, cells, 2) =~= cell(p2, cells, 2));
    assert(cell(line, cells, 3) =~= cell(p3, cells, 3));
    assert(cell(line, cells, 4) =~= cell(p4, cells, 4));
    assert(cell(line, cells, 5) =~= cell(p5, cells, 5));
    assert(cell(line, cells, 6) =~= cell(p6, cells, 6));
    assert(cell(line, cells, 7) =~= cell(p7, cells, 7));
    assert forall|k: int| 2 <= k < 8 implies #[trigger] cell(line, cells, k) == right_aligned(
        cells[k],
        column_width(k),
    ) by {
        assert(k == 2 || k == 3 || k == 4 || k == 5 || k == 6 || k == 7);
    }
    assert(line.subrange(p7.len() as int, line.len() as int) =~= rest);
    line
}

/// Each heading stands in its column, names and commits on the left, figures on the
/// right.
pub proof fn headings_stand_in_columns(label: Seq<char>, k: int)
    requires
        0 <= k < 8,
    ensures
        cell(header_line(label), headings(label), k) == if k < 2 {
            left_aligned(headings(label)[k], column_width(k))
        } else {
            right_aligned(headings(label)[k], column_width(k))
        },
        header_line(label).subrange(
            column_start(headings(label), 7) + cell_width(headings(label), 7),
            header_line(label).len() as int,
        ) == " Status\n"@,
{
    let line = lemma_line(headings(label), " Status\n"@);
    assert(line == header_line(label));
}

/// Each figure of a snapshot stands in the column of its heading, whatever the snapshot
/// holds besides; the status ends the line.
pub proof fn rows_stand_in_columns(label: Seq<char>, s: SnapshotModel, f: FiguresModel, k: int)
    requires
        0 <= k < 8,
    ensures
        cell(row_line(label, s, f), shown(label, s, f), k) == if k < 2 {
            left_aligned(shown(label, s, f)[k], column_width(k))
        } else {
            right_aligned(shown(label, s, f)[k], column_width(k))
        },
        row_line(label, s, f).subrange(
            column_start(shown(label, s, f), 7) + cell_width(shown(label, s, f), 7),
            row_line(label, s, f).len() as int,
        ) == " "@ + row_status(s.status) + "\n"@,
{
    let rest = " "@ + row_status(s.status) + "\n"@;
    let cells = shown(label, s, f);
    let line = lemma_line(cells, rest);
    let before = left_aligned(cells[0], 10) + "  "@ + left_aligned(cells[1], 10) + " "@
        + right_aligned(cells[2], 8) + " "@ + right_aligned(cells[3], 9) + " "@ + right_aligned(
        cells[4],
        6,
    ) + " "@ + right_aligned(cells[5], 9) + " "@ + right_aligned(cells[6], 6) + " "@
        + right_aligned(cells[7], 7);
    lemma_tail_3(before, " "@, row_status(s.status), "\n"@);
    assert(row_line(label, s, f) == before + " "@ + row_status(s.status) + "\n"@);
}

/// Where every text fits its column, a row has its columns at the places where the
/// heading has them.
pub proof fn rows_stand_below_headings(label: Seq<char>, cells: Seq<Seq<char>>, k: int)
    requires
        0 <= k < 8,
        label.len() <= 10,
        cells.len() == 8,
        forall|j: int| 0 <= j < 8 ==> (#[trigger] cells[j]).len() <= column_width(j),
    ensures
        column_start(cells, k) == column_start(headings(label), k),
        cell_width(cells, k) == cell_width(headings(label), k),
        column_start(headings(label), k) == seq![0int, 12, 23, 32, 42, 49, 59, 66][k],
{
    reveal_strlit("Commit");
    reveal_strlit("Erosion");
    reveal_strlit("Change");
    reveal_strlit("Files");
    reveal_strlit("Functions");
    reveal_strlit("Failed");
    reveal_strlit("Skipped");
    assert("Commit"@.len() == 6 && "Commit"@[1] == 'o');
    assert("Change"@.len() == 6 && "Change"@[1] == 'h');
    assert("Failed"@.len() == 6 && "Failed"@[1] == 'a');
    assert("Erosion"@.len() == 7 && "Erosion"@[0] == 'E');
    assert("Skipped"@.len() == 7 && "Skipped"@[0] == 'S');
    assert("Files"@.len() == 5);
    assert("Functions"@.len() == 9);
    reveal_with_fuel(column_start, 9);
    assert(cells[0].len() <= column_width(0));
    assert(cells[1].len() <= column_width(1));
    assert(cells[2].len() <= column_width(2));
    assert(cells[3].len() <= column_width(3));
    assert(cells[4].len() <= column_width(4));
    assert(cells[5].len() <= column_width(5));
    assert(cells[6].len() <= column_width(6));
    assert(cells[7].len() <= column_width(7));
    assert(k == 0 || k == 1 || k == 2 || k == 3 || k == 4 || k == 5 || k == 6 || k == 7);
}

/// The column headed "Functions" shows the number of all callables: under a label that
/// fits, with figures that fit, it is the nine characters below the heading.
pub proof fn functions_stand_below_their_heading(
    label: Seq<char>,
    s: SnapshotModel,
    f: FiguresModel,
)
    requires
        forall|j: int|
            0 <= j < 8 ==> (#[trigger] shown(label, s, f)[j]).len() <= column_width(j),
    ensures
        header_line(label).subrange(49, 58) == "Functions"@,
        row_line(label, s, f).subrange(49, 58) == right_aligned(readable(s.functions), 9),
{
    reveal_strlit("Commit");
    reveal_strlit("Erosion");
    reveal_strlit("Change");
    reveal_strlit("Files");
    reveal_strlit("Functions");
    reveal_strlit("Failed");
    reveal_strlit("Skipped");
    assert("Commit"@.len() == 6 && "Commit"@[1] == 'o');
    assert("Change"@.len() == 6 && "Change"@[1] == 'h');
    assert("Failed"@.len() == 6 && "Failed"@[1] == 'a');
    assert("Erosion"@.len() == 7 && "Erosion"@[0] == 'E');
    assert("Skipped"@.len() == 7 && "Skipped"@[0] == 'S');
    assert("Files"@.len() == 5);
    assert("Functions"@.len() == 9);
    assert(shown(label, s, f)[0] == label);
    rows_stand_below_headings(label, shown(label, s, f), 5);
    rows_stand_below_headings(label, headings(label), 5);
    headings_stand_in_columns(label, 5);
    rows_stand_in_columns(label, s, f, 5);
    columns_are_filled("Functions"@, 9);
}

/// A row says nothing of a snapshot but what stands below the headings and its status:
/// two snapshots that agree in these have the same row, whatever their complex
/// callables, lines, failures or languages are.
pub proof fn rows_show_only_their_columns(
    label: Seq<char>,
    s: SnapshotModel,
    t: SnapshotModel,
    f: FiguresModel,
)
    requires
        s.commit == t.commit,
        s.status == t.status,
        s.measurable == t.measurable,
        s.comparable == t.comparable,
        s.functions == t.functions,
        s.coverage.parsed_files == t.coverage.parsed_files,
        s.coverage.failed_files == t.coverage.failed_files,
        s.coverage.unsupported_files + s.coverage.excluded_entries + s.coverage.non_regular_entries
            == t.coverage.unsupported_files + t.coverage.excluded_entries
            + t.coverage.non_regular_entries,
    ensures
        row_line(label, s, f) == row_line(label, t, f),
{
}

/// The words for the status of a snapshot.
pub proof fn status_words(status: Status)
    ensures
        row_status(status) == "complete"@ <==> status == Status::Complete,
        row_status(status) == "partial"@ <==> status == Status::Partial,
        row_status(status) == "not measurable"@ <==> status == Status::NotMeasurable,
        row_status(status) == "no commit"@ <==> status == Status::NoCommit,
        row_status(status) == "no files"@ <==> status == Status::NoFiles,
        status.name() == "complete"@ <==> status == Status::Complete,
        status.name() == "partial"@ <==> status == Status::Partial,
        status.name() == "not_measurable"@ <==> status == Status::NotMeasurable,
        status.name() == "no_commit"@ <==> status == Status::NoCommit,
        status.name() == "no_files"@ <==> status == Status::NoFiles,
{
    reveal_strlit("complete");
    reveal_strlit("partial");
    reveal_strlit("not measurable");
    reveal_strlit("no commit");
    reveal_strlit("no files");
    reveal_strlit("not_measurable");
    reveal_strlit("no_commit");
    reveal_strlit("no_files");
    assert("complete"@.len() == 8 && "complete"@[2] == 'm');
    assert("no files"@.len() == 8 && "no files"@[2] == ' ');
    assert("no_files"@.len() == 8 && "no_files"@[2] == '_');
    assert("partial"@.len() == 7);
    assert("not measurable"@.len() == 14 && "not measurable"@[3] == ' ');
    assert("not_measurable"@.len() == 14 && "not_measurable"@[3] == '_');
    assert("no commit"@.len() == 9 && "no commit"@[2] == ' ');
    assert("no_commit"@.len() == 9 && "no_commit"@[2] == '_');
}

/// A text stands somewhere in another.
pub open spec fn shows(text: Seq<char>, part: Seq<char>) -> bool {
    exists|a: Seq<char>, b: Seq<char>| text == #[trigger] (a + part + b)
}

/// A text begins with another.
pub open spec fn begins(text: Seq<char>, part: Seq<char>) -> bool {
    exists|b: Seq<char>| text == #[trigger] (part + b)
}

/// A complex callable is listed with its place, name, complexity, source lines and mass,
/// and below that with its file and its lines.
pub proof fn top_callables_show(f: TopModel, place: int, mass: Seq<char>)
    requires
        0 <= place,
    ensures
        begins(
            top_lines(f, place, mass),
            "  "@ + decimal(place as nat) + ". "@ + escaped(f.function.name) + " ("@,
        ),
        shows(
            top_lines(f, place, mass),
            " (CC "@ + decimal(f.function.complexity as nat) + ", "@,
        ),
        shows(
            top_lines(f, place, mass),
            ", SLOC "@ + readable(f.function.source_lines) + ", "@,
        ),
        shows(top_lines(f, place, mass), ", mass "@ + mass + ")\n"@),
        shows(
            top_lines(f, place, mass),
            escaped(f.path) + ":"@ + decimal(f.function.start_line as nat) + "-"@ + decimal(
                f.function.end_line as nat,
            ) + "\n"@,
        ),
{
    reveal_strlit(" (");
    reveal_strlit(" (CC ");
    reveal_strlit(", ");
    reveal_strlit(", SLOC ");
    reveal_strlit(", mass ");
    reveal_strlit(")\n");
    reveal_strlit(")\n     ");
    reveal_strlit("CC ");
    assert(" ("@.len() == 2 && " ("@[0] == ' ');
    assert(", "@.len() == 2 && ", "@[0] == ',');
    assert(")\n"@.len() == 2 && ")\n"@[0] == ')');
    assert(" (CC "@.len() == 5);
    assert(", SLOC "@.len() == 7 && ", SLOC "@[2] == 'S');
    assert(", mass "@.len() == 7 && ", mass "@[2] == 'm');
    assert(")\n     "@.len() == 7 && ")\n     "@[2] == ' ');
    assert("CC "@.len() == 3);
    let line = top_lines(f, place, mass);
    let head = "  "@ + decimal(place as nat) + ". "@ + escaped(f.function.name);
    let cc = decimal(f.function.complexity as nat);
    let sloc = readable(f.function.source_lines);
    let at = escaped(f.path) + ":"@ + decimal(f.function.start_line as nat) + "-"@ + decimal(
        f.function.end_line as nat,
    ) + "\n"@;
    assert(" (CC "@ =~= " ("@ + "CC "@);
    let tail = "CC "@ + cc + ", SLOC "@ + sloc + ", mass "@ + mass + ")\n     "@ + at;
    assert(line =~= head + " ("@ + tail);
    let rest1 = ", SLOC "@.subrange(2, 7) + sloc + ", mass "@ + mass + ")\n     "@ + at;
    assert(", SLOC "@ =~= ", "@ + ", SLOC "@.subrange(2, 7));
    assert(line =~= head + (" (CC "@ + cc + ", "@) + rest1);
    let rest2 = ", mass "@.subrange(2, 7) + mass + ")\n     "@ + at;
    assert(", mass "@ =~= ", "@ + ", mass "@.subrange(2, 7));
    assert(line =~= (head + " (CC "@ + cc) + (", SLOC "@ + sloc + ", "@) + rest2);
    let rest3 = ")\n     "@.subrange(2, 7) + at;
    assert(")\n     "@ =~= ")\n"@ + ")\n     "@.subrange(2, 7));
    assert(line =~= (head + " (CC "@ + cc + ", SLOC "@ + sloc) + (", mass "@ + mass + ")\n"@)
        + rest3);
    assert(line =~= (head + " (CC "@ + cc + ", SLOC "@ + sloc + ", mass "@ + mass + ")\n     "@)
        + at + Seq::<char>::empty());
}

/// The list of complex callables says what it holds, and numbers them from one in the
/// order of the list.
pub proof fn top_callables_are_numbered(functions: Seq<TopModel>, masses: Seq<Seq<char>>, n: int)
    requires
        0 <= n < functions.len(),
        masses.len() == functions.len(),
    ensures
        top_block(functions, masses, 0)
            == "\nTop complex functions (CC > 10, ranked by mass):\n"@,
        top_block(functions, masses, n + 1) == top_block(functions, masses, n) + top_lines(
            functions[n],
            n + 1,
            masses[n],
        ),
{
}

/// The parts of a line that counts something: those that are not zero, each with its
/// word, in order.
pub proof fn skipped_files_are_told_apart(c: CoverageModel, count: usize, word: Seq<char>)
    ensures
        count == 0 ==> count_part(count, word).len() == 0,
        count > 0 ==> count_part(count, word) == seq![readable(count) + " "@ + word],
        skipped_parts(c) == count_part(c.unsupported_files, "unsupported"@) + count_part(
            c.excluded_entries,
            "excluded"@,
        ) + count_part(c.non_regular_entries, "links/submodules"@),
        c.unsupported_files + c.excluded_entries + c.non_regular_entries <= usize::MAX
            ==> skipped(c) == c.unsupported_files + c.excluded_entries + c.non_regular_entries,
{
}

/// Each language is listed with its parsed files, in the order of the coverage.
pub proof fn languages_show_parsed_files(
    languages: Seq<(Seq<char>, LanguageCoverage)>,
    k: int,
)
    requires
        0 <= k < languages.len(),
    ensures
        language_parts(languages).len() == languages.len(),
        language_parts(languages)[k] == languages[k].0 + " "@ + readable(
            languages[k].1.parsed_files,
        ),
{
}

/// A list with no parts has no line.
pub proof fn empty_lists_are_left_out(label: Seq<char>, parts: Seq<Seq<char>>)
    ensures
        parts.len() == 0 ==> list_line(label, parts).len() == 0,
        parts.len() == 1 ==> list_line(label, parts) == label + parts[0] + "\n"@,
{
    reveal_strlit("");
}

spec fn summary_lists(s: SnapshotModel) -> (Seq<char>, Seq<char>) {
    (
        list_line("Languages: "@, language_parts(s.coverage.languages)),
        list_line("Skipped: "@, skipped_parts(s.coverage)),
    )
}

spec fn summary_tail(s: SnapshotModel, f: FiguresModel) -> Seq<char> {
    if s.top_functions.len() > 0 {
        top_block(s.top_functions, f.masses, s.top_functions.len() as int)
    } else {
        ""@
    }
}

/// The texts of a summary around its first line.
#[verifier::rlimit(40)]
proof fn lemma_summary(
    head: Seq<char>,
    commit: Seq<char>,
    date: Seq<char>,
    files: Seq<char>,
    functions: Seq<char>,
    languages: Seq<char>,
    others: Seq<char>,
    failures: Seq<char>,
    tail: Seq<char>,
)
    ensures
        ({
            let text = head + "\nCommit:  "@ + commit + " ("@ + date + ")\n\nFiles: "@ + files
                + "    Functions: "@ + functions + "\n"@ + languages + others
                + "Parse failures: "@ + failures + "\n"@ + tail;
            let first = "Commit:  "@ + commit + " ("@ + date + ")"@;
            let second = "Files: "@ + files + "    Functions: "@ + functions + "\n"@ + languages
                + others + "Parse failures: "@ + failures + "\n"@;
            &&& begins(text, head + "\nCommit:  "@)
            &&& shows(text, first)
            &&& shows(text, second)
        }),
{
    reveal_strlit("\nCommit:  ");
    reveal_strlit("Commit:  ");
    reveal_strlit(")");
    reveal_strlit(")\n\nFiles: ");
    reveal_strlit("Files: ");
    reveal_strlit("\n");
    reveal_strlit("\n\n");
    assert("\nCommit:  "@.len() == 10 && "\nCommit:  "@[0] == '\n');
    assert(")\n\nFiles: "@.len() == 10 && ")\n\nFiles: "@[0] == ')');
    assert("Commit:  "@.len() == 9);
    assert(")"@.len() == 1 && ")"@[0] == ')');
    assert("\n"@.len() == 1 && "\n"@[0] == '\n');
    assert("Files: "@.len() == 7);
    assert("\n\n"@.len() == 2);
    assert("\nCommit:  "@ =~= "\n"@ + "Commit:  "@);
    assert(")\n\nFiles: "@ =~= ")"@ + "\n\n"@ + "Files: "@);
    lemma_summary_parts(
        head,
        "\n"@,
        "Commit:  "@,
        commit,
        " ("@,
        date,
        ")"@,
        "\n\n"@,
        "Files: "@,
        files,
        "    Functions: "@,
        functions,
        "\n"@,
        languages,
        others,
        "Parse failures: "@,
        failures,
        "\n"@,
        tail,
    );
}

proof fn lemma_summary_parts(
    head: Seq<char>,
    a: Seq<char>,
    b: Seq<char>,
    c: Seq<char>,
    d: Seq<char>,
    e: Seq<char>,
    f: Seq<char>,
    g: Seq<char>,
    h: Seq<char>,
    i: Seq<char>,
    j: Seq<char>,
    k: Seq<char>,
    l: Seq<char>,
    m: Seq<char>,
    n: Seq<char>,
    o: Seq<char>,
    p: Seq<char>,
    q: Seq<char>,
    tail: Seq<char>,
)
    ensures
        ({
            let text = head + (a + b) + c + d + e + (f + g + h) + i + j + k + l + m + n + o + p + q
                + tail;
            let first = b + c + d + e + f;
            let second = h + i + j + k + l + m + n + o + p + q;
            &&& begins(text, head + (a + b))
            &&& shows(text, first)
            &&& shows(text, second)
        }),
{
    let text = head + (a + b) + c + d + e + (f + g + h) + i + j + k + l + m + n + o + p + q + tail;
    let x = head + (a + b) + c + d + e + (f + g + h);
    let rest = i + j + k + l + m + n + o + p + q + tail;
    let first = b + c + d + e + f;
    let second = h + i + j + k + l + m + n + o + p + q;
    assert(text =~= x + rest);
    assert(x + rest =~= (head + (a + b)) + (c + d + e + (f + g + h) + rest));
    assert(x =~= (head + a) + first + (g + h));
    assert(x + rest =~= (head + a) + first + (g + h + rest));
    assert(h + rest =~= second + tail);
    assert(x =~= (head + (a + b) + c + d + e + f + g) + h);
    assert(x + rest =~= (head + (a + b) + c + d + e + f + g) + (h + rest));
    assert((head + (a + b) + c + d + e + f + g) + (second + tail) =~= (head + (a + b) + c + d + e
        + f + g) + second + tail);
}

spec fn summary_head(s: SnapshotModel, f: FiguresModel, excludes: bool) -> Seq<char> {
    "Erosion: "@ + (if s.measurable {
        f.erosion + "%"@
    } else {
        "not measurable"@
    }) + (if s.status == Status::Partial {
        " (partial)"@
    } else {
        ""@
    }) + (if excludes {
        " (tests excluded)"@
    } else {
        ""@
    })
}

/// A summary gives the score, or says that there is none, marks a partial one, and says
/// whether tests were left out. It shows the commit and its date, the parsed files, all
/// callables, the languages, what was skipped and the files that failed.
pub proof fn summaries_show(s: SnapshotModel, f: FiguresModel, excludes: bool)
    requires
        s.commit is Some,
    ensures
        ({
            let text = summary(s, f, excludes);
            let score = if s.measurable {
                f.erosion + "%"@
            } else {
                "not measurable"@
            };
            let partial = s.status == Status::Partial;
            let lists = list_line("Languages: "@, language_parts(s.coverage.languages));
            let others = list_line("Skipped: "@, skipped_parts(s.coverage));
            &&& !partial && !excludes ==> begins(text, "Erosion: "@ + score + "\nCommit:  "@)
            &&& partial && !excludes ==> begins(
                text,
                "Erosion: "@ + score + " (partial)"@ + "\nCommit:  "@,
            )
            &&& !partial && excludes ==> begins(
                text,
                "Erosion: "@ + score + " (tests excluded)"@ + "\nCommit:  "@,
            )
            &&& partial && excludes ==> begins(
                text,
                "Erosion: "@ + score + " (partial)"@ + " (tests excluded)"@ + "\nCommit:  "@,
            )
            &&& shows(
                text,
                "Commit:  "@ + s.commit->0.sha.subrange(0, 10) + " ("@ + shown_date(
                    s.commit->0.committed_at,
                ) + ")"@,
            )
            &&& shows(
                text,
                "Files: "@ + readable(s.coverage.parsed_files) + "    Functions: "@ + readable(
                    s.functions,
                ) + "\n"@ + lists + others + "Parse failures: "@ + readable(
                    s.coverage.failed_files,
                ) + "\n"@,
            )
        }),
{
    let head = summary_head(s, f, excludes);
    let lists = summary_lists(s);
    lemma_summary(
        head,
        s.commit->0.sha.subrange(0, 10),
        shown_date(s.commit->0.committed_at),
        readable(s.coverage.parsed_files),
        readable(s.functions),
        lists.0,
        lists.1,
        readable(s.coverage.failed_files),
        summary_tail(s, f),
    );
    let score = if s.measurable {
        f.erosion + "%"@
    } else {
        "not measurable"@
    };
    lemma_empty("Erosion: "@ + score);
    lemma_empty("Erosion: "@ + score + " (partial)"@);
}

/// The first snapshot of a list of steps is the start, the last is the end, and those
/// between them have no name.
pub proof fn steps_have_two_ends(k: int, length: int)
    requires
        0 <= k < length,
    ensures
        step_label(k, length) == "FROM"@ <==> k == 0,
        step_label(k, length) == "TO"@ <==> 0 < k == length - 1,
        step_label(k, length).len() == 0 <==> 0 < k < length - 1,
{
    reveal_strlit("FROM");
    reveal_strlit("TO");
    reveal_strlit("");
    assert("FROM"@.len() == 4);
    assert("TO"@.len() == 2);
    assert(""@.len() == 0);
}

/// Rows stand in the order of the snapshots: under the date of the checkpoint in a
/// history, under the name of the end in a list of steps.
pub proof fn rows_are_in_order(snapshots: Seq<SnapshotModel>, figures: Seq<FiguresModel>, n: int)
    requires
        0 <= n < snapshots.len(),
    ensures
        date_rows(snapshots, figures, 0).len() == 0,
        step_rows(snapshots, figures, 0).len() == 0,
        date_rows(snapshots, figures, n + 1) == date_rows(snapshots, figures, n) + row_line(
            shown_date(snapshots[n].cutoff_utc),
            snapshots[n],
            figures[n],
        ),
        step_rows(snapshots, figures, n + 1) == step_rows(snapshots, figures, n) + row_line(
            step_label(n, snapshots.len() as int),
            snapshots[n],
            figures[n],
        ),
{
    reveal_strlit("");
}

/// A comparison gives the change at its end, or says that there is none, and shows the
/// start above the end.
pub proof fn comparisons_show(
    snapshots: Seq<SnapshotModel>,
    figures: Seq<FiguresModel>,
    excludes: bool,
)
    requires
        snapshots.len() == 2,
        figures.len() == 2,
    ensures
        ({
            let text = delta_text(snapshots, figures, excludes);
            &&& snapshots[1].comparable ==> begins(
                text,
                "Erosion delta (TO - FROM): "@ + figures[1].change + " percentage points"@,
            )
            &&& !snapshots[1].comparable ==> begins(
                text,
                "Erosion delta (TO - FROM): "@
                    + "not measurable (one or both scores unavailable)"@,
            )
            &&& shows(
                text,
                header_line("Snapshot"@) + row_line("FROM"@, snapshots[0], figures[0]) + row_line(
                    "TO"@,
                    snapshots[1],
                    figures[1],
                ),
            )
            &&& excludes ==> shows(text, " (tests excluded)\n\n"@ + header_line("Snapshot"@))
        }),
{
    let change = if snapshots[1].comparable {
        figures[1].change + " percentage points"@
    } else {
        "not measurable (one or both scores unavailable)"@
    };
    let note = crate::output::exclusion_note(excludes);
    let first = row_line("FROM"@, snapshots[0], figures[0]);
    let second = row_line("TO"@, snapshots[1], figures[1]);
    let head = "Erosion delta (TO - FROM): "@ + change;
    let title = header_line("Snapshot"@);
    lemma_titles();
    lemma_tail_5(head, note, "\n\n"@, title, first, second);
    lemma_tail_2("Erosion delta (TO - FROM): "@, figures[1].change, " percentage points"@);
    lemma_tail_3(head + note + "\n\n"@, title, first, second);
    lemma_empty((head + note + "\n\n"@) + (title + first + second));
    lemma_middle(head, note, "\n\n"@, title, first, second);
}

proof fn lemma_titles()
    ensures
        " (tests excluded)\n\n"@ == " (tests excluded)"@ + "\n\n"@,
        "Erosion history (tests excluded)\n\n"@ == "Erosion history"@ + " (tests excluded)"@
            + "\n\n"@,
        "Erosion history\n\n"@ == "Erosion history"@ + ""@ + "\n\n"@,
        "Erosion delta per commit (tests excluded)\n\n"@ == "Erosion delta per commit"@
            + " (tests excluded)"@ + "\n\n"@,
        "Erosion delta per commit\n\n"@ == "Erosion delta per commit"@ + ""@ + "\n\n"@,
        ""@ == Seq::<char>::empty(),
{
    reveal_strlit(" (tests excluded)\n\n");
    reveal_strlit(" (tests excluded)");
    reveal_strlit("\n\n");
    reveal_strlit("");
    reveal_strlit("Erosion history");
    reveal_strlit("Erosion history\n\n");
    reveal_strlit("Erosion history (tests excluded)\n\n");
    reveal_strlit("Erosion delta per commit");
    reveal_strlit("Erosion delta per commit\n\n");
    reveal_strlit("Erosion delta per commit (tests excluded)\n\n");
    assert(" (tests excluded)\n\n"@ =~= " (tests excluded)"@ + "\n\n"@);
    assert("Erosion history (tests excluded)\n\n"@ =~= "Erosion history"@ + " (tests excluded)"@
        + "\n\n"@);
    assert("Erosion history\n\n"@ =~= "Erosion history"@ + ""@ + "\n\n"@);
    assert("Erosion delta per commit (tests excluded)\n\n"@ =~= "Erosion delta per commit"@
        + " (tests excluded)"@ + "\n\n"@);
    assert("Erosion delta per commit\n\n"@ =~= "Erosion delta per commit"@ + ""@ + "\n\n"@);
    assert(""@ =~= Seq::<char>::empty());
}

/// A history gives the change from its first to its last snapshot exactly where both
/// have a score.
pub proof fn histories_show_the_overall_change(
    snapshots: Seq<SnapshotModel>,
    figures: Seq<FiguresModel>,
    overall: Seq<char>,
    excludes: bool,
)
    ensures
        spans_scores(snapshots) <==> snapshots.len() >= 2 && snapshots[0].measurable
            && snapshots[snapshots.len() - 1].measurable,
        ({
            let text = history_text(snapshots, figures, overall, excludes);
            let rows = header_line("Checkpoint"@) + date_rows(
                snapshots,
                figures,
                snapshots.len() as int,
            );
            let head = if excludes {
                "Erosion history (tests excluded)\n\n"@
            } else {
                "Erosion history\n\n"@
            };
            text == head + rows + if snapshots.len() >= 2 && snapshots[0].measurable && snapshots[
            snapshots.len() - 1].measurable {
                "\nOverall change: "@ + overall + " percentage points\n"@
            } else {
                Seq::empty()
            }
        }),
{
    lemma_titles();
    let title = header_line("Checkpoint"@);
    let rows = date_rows(snapshots, figures, snapshots.len() as int);
    lemma_tail_2("Erosion history (tests excluded)\n\n"@, title, rows);
    lemma_tail_2("Erosion history\n\n"@, title, rows);
}

/// A list of steps names itself, says whether tests were left out, and has a row for
/// each snapshot.
pub proof fn steps_show(
    snapshots: Seq<SnapshotModel>,
    figures: Seq<FiguresModel>,
    excludes: bool,
)
    ensures
        ({
            let text = steps_text(snapshots, figures, excludes);
            let rows = header_line("Snapshot"@) + step_rows(
                snapshots,
                figures,
                snapshots.len() as int,
            );
            &&& excludes ==> text == "Erosion delta per commit (tests excluded)\n\n"@ + rows
            &&& !excludes ==> text == "Erosion delta per commit\n\n"@ + rows
        }),
{
    lemma_titles();
    let title = header_line("Snapshot"@);
    let rows = step_rows(snapshots, figures, snapshots.len() as int);
    lemma_tail_2("Erosion delta per commit (tests excluded)\n\n"@, title, rows);
    lemma_tail_2("Erosion delta per commit\n\n"@, title, rows);
}

/// Some snapshot has a status.
pub open spec fn some_have(snapshots: Seq<SnapshotModel>, status: Status) -> bool {
    exists|k: int| 0 <= k < snapshots.len() && (#[trigger] snapshots[k]).status == status
}

/// Some snapshot has a commit and no score.
pub open spec fn some_lack_a_score(snapshots: Seq<SnapshotModel>) -> bool {
    exists|k: int|
        0 <= k < snapshots.len() && (#[trigger] snapshots[k]).commit is Some
            && !snapshots[k].measurable
}

/// Below a table stands what its figures mean: what the columns count, unless it is a
/// summary; that failed files are missing, where a snapshot is partial; that there is
/// nothing to measure, where a commit has no score; that there is no commit, where a
/// checkpoint has none; and always that only committed source counts.
pub proof fn footers_explain(mode: Seq<char>, snapshots: Seq<SnapshotModel>)
    ensures
        footer(mode, snapshots) == (if mode != "measure"@ {
            "\nFiles = parsed; skipped = unsupported, excluded, or links/submodules.\n"@
        } else {
            Seq::empty()
        }) + (if !some_have(snapshots, Status::Partial) {
            Seq::empty()
        } else if mode == "delta"@ {
            "Partial comparison: failed files are excluded. Scores cover parsed source only.\n"@
        } else {
            "Partial results: failed files are excluded. Scores cover parsed source only.\n"@
        }) + (if some_lack_a_score(snapshots) {
            "Not measurable: no function mass in the parsed source.\n"@
        } else {
            Seq::empty()
        }) + (if some_have(snapshots, Status::NoCommit) {
            "No commit: no ancestor at or before the checkpoint.\n"@
        } else {
            Seq::empty()
        }) + "\nCommitted source only; uncommitted changes ignored.\n"@,
        any_status(snapshots, Status::Partial) == some_have(snapshots, Status::Partial),
        any_unmeasurable(snapshots) == some_lack_a_score(snapshots),
{
    reveal_strlit("");
    assert(""@ =~= Seq::<char>::empty());
}

/// A table needs a known mode; a summary needs one snapshot with a commit, and a
/// comparison two of them. A list of steps and a history take any.
pub proof fn tables_that_are_refused(
    mode: Seq<char>,
    snapshots: Seq<SnapshotModel>,
    figures: Seq<FiguresModel>,
    overall: Seq<char>,
    steps: bool,
    excludes: bool,
)
    ensures
        ({
            let text = table_body(mode, snapshots, figures, overall, steps, excludes);
            let one = mode == "measure"@;
            let two = mode == "delta"@ && !steps;
            &&& text == Err::<Seq<char>, _>(TableFailure::MeasureCount) <==> one && snapshots.len()
                != 1
            &&& text == Err::<Seq<char>, _>(TableFailure::MeasureCommit) <==> one
                && snapshots.len() == 1 && snapshots[0].commit is None
            &&& text == Err::<Seq<char>, _>(TableFailure::DeltaCount) <==> two && snapshots.len()
                != 2
            &&& text == Err::<Seq<char>, _>(TableFailure::FromCommit) <==> two && snapshots.len()
                == 2 && snapshots[0].commit is None
            &&& text == Err::<Seq<char>, _>(TableFailure::ToCommit) <==> two && snapshots.len()
                == 2 && snapshots[0].commit is Some && snapshots[1].commit is None
            &&& text == Err::<Seq<char>, _>(TableFailure::UnknownMode { mode }) <==> mode
                != "measure"@ && mode != "delta"@ && mode != "history"@
            &&& text is Ok && one ==> text->Ok_0 == summary(snapshots[0], figures[0], excludes)
            &&& text is Ok && two ==> text->Ok_0 == delta_text(snapshots, figures, excludes)
            &&& mode == "delta"@ && steps ==> text == Ok::<_, TableFailure>(
                steps_text(snapshots, figures, excludes),
            )
            &&& mode == "history"@ ==> text == Ok::<_, TableFailure>(
                history_text(snapshots, figures, overall, excludes),
            )
        }),
{
    reveal_strlit("measure");
    reveal_strlit("delta");
    reveal_strlit("history");
    assert("measure"@.len() == 7 && "measure"@[0] == 'm');
    assert("history"@.len() == 7 && "history"@[0] == 'h');
    assert("delta"@.len() == 5);
}

/// Each module has a table of its own below its name, in the order of the modules.
pub proof fn modules_have_tables(
    series: Seq<SeriesModel>,
    figures: Seq<Seq<FiguresModel>>,
    n: int,
)
    requires
        0 <= n < series.len(),
    ensures
        module_blocks(series, figures, 0).len() == 0,
        module_blocks(series, figures, n + 1) == module_blocks(series, figures, n) + (
        "Module: "@ + escaped(series[n].path) + "\n"@ + header_line("Checkpoint"@) + date_rows(
            series[n].snapshots,
            figures[n],
            series[n].snapshots.len() as int,
        ) + "\n"@),
{
    reveal_strlit("");
    lemma_tail_6(
        module_blocks(series, figures, n),
        "Module: "@,
        escaped(series[n].path),
        "\n"@,
        header_line("Checkpoint"@),
        date_rows(series[n].snapshots, figures[n], series[n].snapshots.len() as int),
        "\n"@,
    );
}

} // verus!
