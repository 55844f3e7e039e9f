//! The report of a conformance run.

use crate::text::{decimal, same_text};
use vstd::prelude::*;

verus! {

#[derive(Debug, PartialEq, Eq)]
pub struct ConformanceResult {
    pub name: String,
    pub status: String,
    pub detail: Option<String>,
}

#[verifier::ext_equal]
pub ghost struct ResultView {
    pub name: Seq<char>,
    pub status: Seq<char>,
    pub detail: Option<Seq<char>>,
}

impl View for ConformanceResult {
    type V = ResultView;

    open spec fn view(&self) -> ResultView {
        ResultView {
            name: self.name@,
            status: self.status@,
            detail: self.detail.deep_view(),
        }
    }
}

impl DeepView for ConformanceResult {
    type V = ResultView;

    open spec fn deep_view(&self) -> ResultView {
        self@
    }
}

/// The exit code when no report arrives in time.
pub const EXIT_NO_REPORT: i32 = 2;

/// How long the harness has to report.
pub const REPORT_WITHIN_S: u64 = 60;

/// How a test went. What is neither passed nor failed was skipped.
#[derive(Debug, Clone, Copy, PartialEq, Eq, Structural)]
pub enum Status {
    Passed,
    Failed,
    Skipped,
}

impl ResultView {
    pub open spec fn outcome(self) -> Status {
        if self.status == "passed"@ {
            Status::Passed
        } else if self.status == "failed"@ {
            Status::Failed
        } else {
            Status::Skipped
        }
    }

    /// The lines of one test: a detail is shown of those that did not pass.
    pub open spec fn lines(self) -> Seq<Seq<char>> {
        let tag = match self.outcome() {
            Status::Passed => "PASS"@,
            Status::Failed => "FAIL"@,
            Status::Skipped => "SKIP"@,
        };
        let first = seq!["  "@ + tag + "  "@ + self.name];
        match self.detail {
            Some(detail) => if self.outcome() != Status::Passed {
                first.push("        "@ + detail)
            } else {
                first
            },
            None => first,
        }
    }
}

/// How many tests went that way.
pub open spec fn count(results: Seq<ResultView>, status: Status) -> nat
    decreases results.len(),
{
    if results.len() == 0 {
        0
    } else {
        count(results.drop_last(), status) + (if results.last().outcome() == status {
            1nat
        } else {
            0
        })
    }
}

pub open spec fn test_lines(results: Seq<ResultView>) -> Seq<Seq<char>>
    decreases results.len(),
{
    if results.len() == 0 {
        Seq::empty()
    } else {
        test_lines(results.drop_last()) + results.last().lines()
    }
}

/// A run passes when every test did. Skips count as failures.
pub open spec fn gate_passes(results: Seq<ResultView>) -> bool {
    count(results, Status::Failed) == 0 && count(results, Status::Skipped) == 0
}

pub open spec fn totals_line(passed: nat, failed: nat, skipped: nat) -> Seq<char> {
    "  "@ + crate::text::decimal_of(passed) + " passed, "@ + crate::text::decimal_of(failed)
        + " failed, "@ + crate::text::decimal_of(skipped) + " skipped"@
}

pub open spec fn gate_line(results: Seq<ResultView>) -> Seq<char> {
    if count(results, Status::Skipped) > 0 {
        "  GATE: FAIL (skips count as failures here — wire both triggers)"@
    } else if count(results, Status::Failed) > 0 {
        "  GATE: FAIL"@
    } else {
        "  GATE: PASS"@
    }
}

/// The whole report.
pub open spec fn report_lines(results: Seq<ResultView>) -> Seq<Seq<char>> {
    seq!["\nstation-shell conformance — real webview, real backend"@] + test_lines(results)
        + seq![
        totals_line(
            count(results, Status::Passed),
            count(results, Status::Failed),
            count(results, Status::Skipped),
        ),
        gate_line(results),
    ]
}

#[derive(Debug)]
pub struct Report {
    pub lines: Vec<String>,
    pub passed: u64,
    pub failed: u64,
    pub skipped: u64,
    pub gate_pass: bool,
    pub exit_code: i32,
}

fn outcome_of(result: &ConformanceResult) -> (status: Status)
    ensures
        status == result@.outcome(),
{
    if same_text(result.status.as_str(), "passed") {
        Status::Passed
    } else if same_text(result.status.as_str(), "failed") {
        Status::Failed
    } else {
        Status::Skipped
    }
}

fn add_line(lines: &mut Vec<String>, line: String)
    ensures
        final(lines).deep_view() == old(lines).deep_view().push(line@),
{
    lines.push(line);
    assert(lines.deep_view() =~= old(lines).deep_view().push(line@));
}

fn add_test(lines: &mut Vec<String>, result: &ConformanceResult)
    ensures
        final(lines).deep_view() == old(lines).deep_view() + result@.lines(),
{
    let status = outcome_of(result);
    let tag = match status {
        Status::Passed => "PASS",
        Status::Failed => "FAIL",
        Status::Skipped => "SKIP",
    };
    add_line(lines, "  ".to_owned().concat(tag).concat("  ").concat(result.name.as_str()));
    if let Some(detail) = &result.detail {
        if status != Status::Passed {
            add_line(lines, "        ".to_owned().concat(detail.as_str()));
        }
    }
    assert(lines.deep_view() =~= old(lines).deep_view() + result@.lines());
}

proof fn lemma_count_bound(results: Seq<ResultView>, status: Status)
    ensures
        count(results, status) <= results.len(),
    decreases results.len(),
{
    if results.len() > 0 {
        lemma_count_bound(results.drop_last(), status);
    }
}

/// Draws up the report of a harness run, and with it the exit code.
pub fn conformance_report(results: &Vec<ConformanceResult>) -> (report: Report)
    ensures
        report.lines.deep_view() == report_lines(results.deep_view()),
        report.passed == count(results.deep_view(), Status::Passed),
        report.failed == count(results.deep_view(), Status::Failed),
        report.skipped == count(results.deep_view(), Status::Skipped),
        report.gate_pass == gate_passes(results.deep_view()),
        report.exit_code == (if gate_passes(results.deep_view()) {
            0i32
        } else {
            1
        }),
{
    let ghost all = results.deep_view();
    let ghost head = "\nstation-shell conformance — real webview, real backend"@;
    let mut lines: Vec<String> = Vec::new();
    let mut passed: u64 = 0;
    let mut failed: u64 = 0;
    let mut skipped: u64 = 0;
    add_line(
        &mut lines,
        "\nstation-shell conformance — real webview, real backend".to_owned(),
    );
    let mut i: usize = 0;
    assert(lines.deep_view() =~= seq![head] + test_lines(all.take(0)));
    while i < results.len()
        invariant
            i <= results.len(),
            all == results.deep_view(),
            lines.deep_view() == seq![head] + test_lines(all.take(i as int)),
            passed == count(all.take(i as int), Status::Passed),
            failed == count(all.take(i as int), Status::Failed),
            skipped == count(all.take(i as int), Status::Skipped),
        decreases results.len() - i,
    {
        let ghost before = lines.deep_view();
        assert(all.take(i + 1).drop_last() =~= all.take(i as int));
        assert(all[i as int] == results[i as int]@);
        proof {
            lemma_count_bound(all.take(i as int), Status::Passed);
            lemma_count_bound(all.take(i as int), Status::Failed);
            lemma_count_bound(all.take(i as int), Status::Skipped);
        }
        match outcome_of(&results[i]) {
            Status::Passed => {
                passed = passed + 1;
            },
            Status::Failed => {
                failed = failed + 1;
            },
            Status::Skipped => {
                skipped = skipped + 1;
            },
        }
        add_test(&mut lines, &results[i]);
        assert(lines.deep_view() =~= seq![head] + test_lines(all.take(i + 1)));
        i = i + 1;
    }
    assert(all.take(i as int) =~= all);
    let gate_pass = failed == 0 && skipped == 0;
    let totals = "  ".to_owned().concat(decimal(passed).as_str()).concat(" passed, ").concat(
        decimal(failed).as_str(),
    ).concat(" failed, ").concat(decimal(skipped).as_str()).concat(" skipped");
    add_line(&mut lines, totals);
    let gate = if skipped > 0 {
        "  GATE: FAIL (skips count as failures here — wire both triggers)"
    } else if failed > 0 {
        "  GATE: FAIL"
    } else {
        "  GATE: PASS"
    };
    add_line(&mut lines, gate.to_owned());
    assert(lines.deep_view() =~= report_lines(all));
    let exit_code = if gate_pass {
        0i32
    } else {
        1i32
    };
    Report { lines, passed, failed, skipped, gate_pass, exit_code }
}

/// Every test is counted once, and a run passes exactly when all of them did.
pub proof fn law_the_gate_passes_only_whole(results: Seq<ResultView>)
    ensures
        count(results, Status::Passed) + count(results, Status::Failed) + count(
            results,
            Status::Skipped,
        ) == results.len(),
        gate_passes(results) <==> count(results, Status::Passed) == results.len(),
        gate_passes(results) <==> forall|i: int|
            0 <= i < results.len() ==> (#[trigger] results[i]).outcome() == Status::Passed,
    decreases results.len(),
{
    if results.len() > 0 {
        let rest = results.drop_last();
        law_the_gate_passes_only_whole(rest);
        if gate_passes(results) {
            assert forall|i: int| 0 <= i < results.len() implies (
            #[trigger] results[i]).outcome() == Status::Passed by {
                if i < rest.len() {
                    assert(rest[i] == results[i]);
                }
            }
        }
        if forall|i: int|
            0 <= i < results.len() ==> (#[trigger] results[i]).outcome() == Status::Passed {
            assert forall|i: int| 0 <= i < rest.len() implies (
            #[trigger] rest[i]).outcome() == Status::Passed by {
                assert(rest[i] == results[i]);
            }
            assert(results[results.len() - 1].outcome() == Status::Passed);
        }
    }
}

/// Only the word `passed` is a pass and only the word `failed` is a failure;
/// whatever else a harness says of a test, an empty text included, is a skip.
pub proof fn law_a_status_is_taken_at_its_word(result: ResultView)
    ensures
        result.outcome() == Status::Passed <==> result.status == "passed"@,
        result.outcome() == Status::Failed <==> result.status == "failed"@,
        result.outcome() == Status::Skipped <==> result.status != "passed"@ && result.status
            != "failed"@,
{
    reveal_strlit("passed");
    reveal_strlit("failed");
    assert("passed"@[0] != "failed"@[0]);
}

/// A run passes exactly when every single test says `passed`, and the last
/// line of its report says so; a run of no tests passes.
pub proof fn law_a_run_passes_on_the_word_passed_alone(results: Seq<ResultView>)
    ensures
        gate_passes(results) <==> forall|i: int|
            0 <= i < results.len() ==> (#[trigger] results[i]).status == "passed"@,
        gate_line(results) == "  GATE: PASS"@ <==> forall|i: int|
            0 <= i < results.len() ==> (#[trigger] results[i]).status == "passed"@,
{
    law_the_gate_passes_only_whole(results);
    assert forall|i: int| 0 <= i < results.len() implies ((#[trigger] results[i]).outcome()
        == Status::Passed <==> results[i].status == "passed"@) by {
        law_a_status_is_taken_at_its_word(results[i]);
    }
    if forall|i: int| 0 <= i < results.len() ==> (#[trigger] results[i]).status == "passed"@ {
        assert forall|i: int| 0 <= i < results.len() implies (#[trigger] results[i]).outcome()
            == Status::Passed by {
            assert(results[i].status == "passed"@);
        }
    }
    if gate_passes(results) {
        assert forall|i: int| 0 <= i < results.len() implies (#[trigger] results[i]).status
            == "passed"@ by {
            assert(results[i].outcome() == Status::Passed);
        }
    }
    reveal_strlit("  GATE: PASS");
    reveal_strlit("  GATE: FAIL");
    assert("  GATE: PASS"@[8] != "  GATE: FAIL"@[8]);
    reveal_strlit("  GATE: FAIL (skips count as failures here — wire both triggers)");
    assert("  GATE: FAIL (skips count as failures here — wire both triggers)"@.len()
        != "  GATE: PASS"@.len());
}

/// The totals are the numbers of tests that say each word, and of those that
/// say neither.
pub proof fn law_the_totals_count_the_words(results: Seq<ResultView>)
    ensures
        count(results, Status::Passed) == results.filter(
            |r: ResultView| r.status == "passed"@,
        ).len(),
        count(results, Status::Failed) == results.filter(
            |r: ResultView| r.status == "failed"@,
        ).len(),
        count(results, Status::Skipped) == results.filter(
            |r: ResultView| r.status != "passed"@ && r.status != "failed"@,
        ).len(),
    decreases results.len(),
{
    reveal(Seq::filter);
    if results.len() > 0 {
        law_the_totals_count_the_words(results.drop_last());
        law_a_status_is_taken_at_its_word(results.last());
    }
}

/// Each test has a line with its name and how it went, in the order in which
/// the tests were reported; a detail stands below it, unless the test passed.
pub proof fn law_each_test_has_its_lines(before: Seq<ResultView>, result: ResultView)
    ensures
        test_lines(before.push(result)) == test_lines(before) + result.lines(),
        result.status == "passed"@ ==> result.lines() == seq!["  PASS  "@ + result.name],
        result.status == "failed"@ ==> result.lines()[0] == "  FAIL  "@ + result.name,
        result.status != "passed"@ && result.status != "failed"@ ==> result.lines()[0]
            == "  SKIP  "@ + result.name,
        result.status != "passed"@ ==> match result.detail {
            Some(detail) => result.lines().len() == 2 && result.lines()[1] == "        "@ + detail,
            None => result.lines().len() == 1,
        },
{
    assert(before.push(result).drop_last() =~= before);
    law_a_status_is_taken_at_its_word(result);
    reveal_strlit("  ");
    reveal_strlit("PASS");
    reveal_strlit("FAIL");
    reveal_strlit("SKIP");
    reveal_strlit("  PASS  ");
    reveal_strlit("  FAIL  ");
    reveal_strlit("  SKIP  ");
    assert("  "@ + "PASS"@ + "  "@ + result.name =~= "  PASS  "@ + result.name);
    assert("  "@ + "FAIL"@ + "  "@ + result.name =~= "  FAIL  "@ + result.name);
    assert("  "@ + "SKIP"@ + "  "@ + result.name =~= "  SKIP  "@ + result.name);
    assert(result.status == "passed"@ ==> result.lines() =~= seq!["  PASS  "@ + result.name]);
}

/// The report of a run exits with 0 exactly when every test says `passed`, and
/// with 1 otherwise; it opens with its heading and closes with totals and
/// ruling, with the lines of the tests in between.
pub proof fn law_the_report_is_the_ruling(results: Vec<ConformanceResult>, report: Report)
    requires
        call_ensures(conformance_report, (&results,), report),
    ensures
        report.exit_code == 0 <==> forall|i: int|
            0 <= i < results.len() ==> (#[trigger] results[i]).status@ == "passed"@,
        report.exit_code == 0 || report.exit_code == 1,
        report.gate_pass <==> report.exit_code == 0,
        report.passed + report.failed + report.skipped == results.len(),
        report.lines.len() == test_lines(results.deep_view()).len() + 3,
        report.lines[0]@ == "\nstation-shell conformance — real webview, real backend"@,
        forall|i: int|
            0 <= i < report.lines.len() - 3 ==> (#[trigger] report.lines[i + 1])@ == test_lines(
                results.deep_view(),
            )[i],
        report.lines[report.lines.len() - 2]@ == "  "@ + crate::text::decimal_of(
            report.passed as nat,
        ) + " passed, "@ + crate::text::decimal_of(report.failed as nat) + " failed, "@
            + crate::text::decimal_of(report.skipped as nat) + " skipped"@,
        EXIT_NO_REPORT == 2 && REPORT_WITHIN_S == 60,
        report.lines[report.lines.len() - 1]@ == "  GATE: PASS"@ <==> report.exit_code == 0,
{
    let all = results.deep_view();
    law_a_run_passes_on_the_word_passed_alone(all);
    law_the_gate_passes_only_whole(all);
    assert forall|i: int| 0 <= i < results.len() implies (#[trigger] results[i]).status@
        == all[i].status by {}
    if gate_passes(all) {
        assert forall|i: int| 0 <= i < results.len() implies (#[trigger] results[i]).status@
            == "passed"@ by {
            assert(all[i].status == "passed"@);
        }
    }
    if forall|i: int| 0 <= i < results.len() ==> (#[trigger] results[i]).status@ == "passed"@ {
        assert forall|i: int| 0 <= i < all.len() implies (#[trigger] all[i]).status
            == "passed"@ by {
            assert(results[i].status@ == "passed"@);
        }
    }
    assert(report.lines.deep_view().len() == report.lines.len());
    assert(report.lines.deep_view()[report.lines.len() - 1] == report.lines[report.lines.len()
        - 1]@);
    assert(report.lines.deep_view()[report.lines.len() - 2] == report.lines[report.lines.len()
        - 2]@);
    assert(report.lines.deep_view()[0] == report.lines[0]@);
    assert forall|i: int| 0 <= i < report.lines.len() - 3 implies (
    #[trigger] report.lines[i + 1])@ == test_lines(all)[i] by {
        assert(report.lines.deep_view()[i + 1] == report.lines[i + 1]@);
    }
}

/// The view of a result shows every field as it is.
pub proof fn law_a_result_is_shown_as_it_is(result: ConformanceResult)
    ensures
        result@.name == result.name@ && result@.status == result.status@,
        result@.detail is Some <==> result.detail is Some,
        result.detail matches Some(detail) ==> result@.detail == Some(detail@),
{
}

}
