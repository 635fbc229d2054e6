//! Rendering of a drift report, and the exit code it calls for.
use vstd::prelude::*;
use crate::text::{str_eq, string_of};
use crate::types::{DriftFinding, DriftFindingView, DriftReport, DriftReportView, Severity};

verus! {

/// Whether some finding has the given severity.
pub open spec fn has_severity(fs: Seq<DriftFindingView>, sev: Severity) -> bool {
    exists|i: int| 0 <= i < fs.len() && fs[i].severity == sev
}

impl DriftReport {
    /// The report on two versions, given their paths and findings; it has
    /// breaking changes exactly when some finding is breaking.
    pub fn new(old_path: String, new_path: String, findings: Vec<DriftFinding>) -> (r: DriftReport)
        ensures
            r@.old_path == old_path@,
            r@.new_path == new_path@,
            r@.findings == findings.deep_view(),
            r@.has_breaking_changes == has_severity(findings.deep_view(), Severity::Breaking),
    {
        let ghost fv = findings.deep_view();
        let mut breaking = false;
        let mut i: usize = 0;
        while i < findings.len()
            invariant
                fv == findings.deep_view(),
                i <= findings.len(),
                breaking == exists|j: int| 0 <= j < i && fv[j].severity == Severity::Breaking,
            decreases findings.len() - i,
        {
            if findings[i].severity == Severity::Breaking {
                assert(fv[i as int].severity == Severity::Breaking);
                breaking = true;
            }
            i = i + 1;
        }
        DriftReport { old_path, new_path, findings, has_breaking_changes: breaking }
    }
}

/// The Markdown lines of one finding.
pub open spec fn finding_markdown(f: DriftFindingView) -> Seq<char> {
    "- **"@ + f.category + "**\n"@ + "  - "@ + f.message + "\n"@ + match f.old_value {
        Some(v) => "  - Old: `"@ + v + "`\n"@,
        None => Seq::empty(),
    } + match f.new_value {
        Some(v) => "  - New: `"@ + v + "`\n"@,
        None => Seq::empty(),
    } + "\n"@
}

/// The findings of the given severity, in order, as Markdown.
pub open spec fn findings_markdown(fs: Seq<DriftFindingView>, sev: Severity) -> Seq<char>
    decreases fs.len(),
{
    if fs.len() == 0 {
        Seq::empty()
    } else {
        findings_markdown(fs.drop_last(), sev) + if fs.last().severity == sev {
            finding_markdown(fs.last())
        } else {
            Seq::empty()
        }
    }
}

/// A section with its heading, or nothing when no finding has its severity.
pub open spec fn section_markdown(fs: Seq<DriftFindingView>, sev: Severity, heading: Seq<char>) -> Seq<
    char,
> {
    if has_severity(fs, sev) {
        heading + "\n"@ + "\n"@ + findings_markdown(fs, sev)
    } else {
        Seq::empty()
    }
}

/// The title and summary lines of a report.
pub open spec fn header_markdown(r: DriftReportView) -> Seq<char> {
    "# Soroban Drift Report\n"@ + "\n"@ + "- **Old version**: `"@ + r.old_path + "`\n"@
        + "- **New version**: `"@ + r.new_path + "`\n"@ + "- **Status**: "@ + (if r.has_breaking_changes {
        "BREAKING CHANGES DETECTED"@
    } else {
        "No breaking changes"@
    }) + "\n"@ + "\n"@
}

/// The whole report as Markdown: the header, then breaking changes, then
/// warnings, then information, each finding in the order of the report.
pub open spec fn report_markdown(r: DriftReportView) -> Seq<char> {
    header_markdown(r) + if r.findings.len() == 0 {
        "No drift findings.\n"@
    } else {
        section_markdown(r.findings, Severity::Breaking, "## Breaking Changes"@) + section_markdown(
            r.findings,
            Severity::Warning,
            "## Warnings"@,
        ) + section_markdown(r.findings, Severity::Info, "## Info"@)
    }
}

/// Appends the Markdown of one finding.
pub fn write_finding(writer: &mut String, f: &DriftFinding)
    ensures
        final(writer)@ == old(writer)@ + finding_markdown(f@),
{
    writer.append("- **");
    writer.append(f.category.as_str());
    writer.append("**\n");
    writer.append("  - ");
    writer.append(f.message.as_str());
    writer.append("\n");
    match &f.old_value {
        Some(v) => {
            writer.append("  - Old: `");
            writer.append(v.as_str());
            writer.append("`\n");
        },
        None => {},
    }
    match &f.new_value {
        Some(v) => {
            writer.append("  - New: `");
            writer.append(v.as_str());
            writer.append("`\n");
        },
        None => {},
    }
    writer.append("\n");
    assert(writer@ =~= old(writer)@ + finding_markdown(f@));
}

fn write_section(writer: &mut String, findings: &Vec<DriftFinding>, sev: Severity, heading: &str)
    ensures
        final(writer)@ == old(writer)@ + section_markdown(findings.deep_view(), sev, heading@),
{
    let ghost fv = findings.deep_view();
    let mut any = false;
    let mut i: usize = 0;
    while i < findings.len()
        invariant
            fv == findings.deep_view(),
            i <= findings.len(),
            any == exists|j: int| 0 <= j < i && fv[j].severity == sev,
        decreases findings.len() - i,
    {
        if findings[i].severity == sev {
            assert(fv[i as int].severity == sev);
            any = true;
        }
        i = i + 1;
    }
    if !any {
        return;
    }
    writer.append(heading);
    writer.append("\n");
    writer.append("\n");
    let ghost start = writer@;
    let mut i: usize = 0;
    assert(fv.take(0) =~= Seq::<DriftFindingView>::empty());
    while i < findings.len()
        invariant
            fv == findings.deep_view(),
            i <= findings.len(),
            writer@ == start + findings_markdown(fv.take(i as int), sev),
        decreases findings.len() - i,
    {
        assert(fv.take(i + 1).drop_last() =~= fv.take(i as int));
        assert(fv.take(i + 1).last() == findings[i as int]@);
        if findings[i].severity == sev {
            write_finding(writer, &findings[i]);
        }
        assert(writer@ =~= start + findings_markdown(fv.take(i + 1), sev));
        i = i + 1;
    }
    assert(fv.take(findings.len() as int) =~= fv);
    assert(writer@ =~= old(writer)@ + section_markdown(fv, sev, heading@));
}

/// Appends the report, rendered as Markdown, to `writer`.
pub fn write_markdown(report: &DriftReport, writer: &mut String)
    ensures
        final(writer)@ == old(writer)@ + report_markdown(report@),
{
    writer.append("# Soroban Drift Report\n");
    writer.append("\n");
    writer.append("- **Old version**: `");
    writer.append(report.old_path.as_str());
    writer.append("`\n");
    writer.append("- **New version**: `");
    writer.append(report.new_path.as_str());
    writer.append("`\n");
    writer.append("- **Status**: ");
    if report.has_breaking_changes {
        writer.append("BREAKING CHANGES DETECTED");
    } else {
        writer.append("No breaking changes");
    }
    writer.append("\n");
    writer.append("\n");
    let ghost after_header = writer@;
    assert(after_header =~= old(writer)@ + header_markdown(report@));
    if report.findings.len() == 0 {
        writer.append("No drift findings.\n");
        assert(writer@ =~= old(writer)@ + report_markdown(report@));
        return;
    }
    write_section(writer, &report.findings, Severity::Breaking, "## Breaking Changes");
    write_section(writer, &report.findings, Severity::Warning, "## Warnings");
    write_section(writer, &report.findings, Severity::Info, "## Info");
    assert(writer@ =~= old(writer)@ + report_markdown(report@));
}

/// The exit code that `fail_on` asks for: with "breaking", 1 when the report
/// has breaking changes; with "warning", 1 when it has breaking changes or a
/// warning; 0 otherwise, whatever else `fail_on` says.
pub open spec fn report_exit_code(r: DriftReportView, fail_on: Seq<char>) -> i32 {
    if fail_on == "breaking"@ {
        if r.has_breaking_changes {
            1
        } else {
            0
        }
    } else if fail_on == "warning"@ && (r.has_breaking_changes || has_severity(
        r.findings,
        Severity::Warning,
    )) {
        1
    } else {
        0
    }
}

/// Determines the exit code of a run from the report and the fail-on level.
pub fn exit_code(report: &DriftReport, fail_on: &str) -> (code: i32)
    ensures
        code == report_exit_code(report@, fail_on@),
{
    if str_eq(fail_on, "breaking") {
        if report.has_breaking_changes {
            1
        } else {
            0
        }
    } else if str_eq(fail_on, "warning") {
        if report.has_breaking_changes {
            return 1;
        }
        let ghost fv = report.findings.deep_view();
        let mut i: usize = 0;
        while i < report.findings.len()
            invariant
                fv == report.findings.deep_view(),
                i <= report.findings.len(),
                fail_on@ == "warning"@,
                fail_on@ != "breaking"@,
                !report.has_breaking_changes,
                forall|j: int| 0 <= j < i ==> fv[j].severity != Severity::Warning,
            decreases report.findings.len() - i,
        {
            if report.findings[i].severity == Severity::Warning {
                assert(fv[i as int].severity == Severity::Warning);
                assert(has_severity(fv, Severity::Warning));
                return 1;
            }
            i = i + 1;
        }
        0
    } else {
        0
    }
}

/// Asking to fail on warnings fails at least whenever asking to fail on
/// breaking changes does, and asking for neither never fails.
pub proof fn lemma_exit_code_levels(r: DriftReportView)
    ensures
        report_exit_code(r, "breaking"@) <= report_exit_code(r, "warning"@),
        report_exit_code(r, "none"@) == 0,
{
    reveal_strlit("breaking");
    reveal_strlit("warning");
    reveal_strlit("none");
    assert("warning"@.len() == 7 && "breaking"@.len() == 8 && "none"@.len() == 4);
}

/// The exit-code policy. With "breaking", the run fails exactly when the
/// report has breaking changes; with "warning", exactly when it has
/// breaking changes or some finding is a warning; with anything else it
/// never fails. So a report with no breaking changes whose findings are
/// all for information never fails, whatever is asked; and the code is
/// always 0 or 1.
pub proof fn lemma_exit_code_policy(r: DriftReportView, fail_on: Seq<char>)
    ensures
        report_exit_code(r, fail_on) == 0 || report_exit_code(r, fail_on) == 1,
        fail_on == "breaking"@ ==> (report_exit_code(r, fail_on) == 1 <==> r.has_breaking_changes),
        fail_on == "warning"@ ==> (report_exit_code(r, fail_on) == 1 <==> (r.has_breaking_changes
            || exists|i: int| 0 <= i < r.findings.len() && (#[trigger] r.findings[i]).severity
            == Severity::Warning)),
        fail_on != "breaking"@ && fail_on != "warning"@ ==> report_exit_code(r, fail_on) == 0,
        !r.has_breaking_changes && (forall|i: int|
            0 <= i < r.findings.len() ==> (#[trigger] r.findings[i]).severity == Severity::Info)
            ==> report_exit_code(r, fail_on) == 0,
{
    reveal_strlit("breaking");
    reveal_strlit("warning");
    assert("warning"@.len() == 7 && "breaking"@.len() == 8);
    if !r.has_breaking_changes && (forall|i: int|
        0 <= i < r.findings.len() ==> (#[trigger] r.findings[i]).severity == Severity::Info) {
        assert(!has_severity(r.findings, Severity::Warning));
    }
}

/// A report has breaking changes exactly when one of its findings, at any
/// position, is breaking; the same test picks the sections of a report.
pub proof fn lemma_has_severity_anywhere(fs: Seq<DriftFindingView>, sev: Severity)
    ensures
        has_severity(fs, sev) <==> exists|i: int| 0 <= i < fs.len() && (#[trigger] fs[i]).severity == sev,
{
}

/// The Markdown of the findings of one severity is that of a first part of
/// them followed by that of the rest; one finding is listed exactly when it
/// has that severity.
pub proof fn lemma_findings_markdown_split(a: Seq<DriftFindingView>, b: Seq<DriftFindingView>, sev: Severity)
    ensures
        findings_markdown(a + b, sev) == findings_markdown(a, sev) + findings_markdown(b, sev),
        a.len() == 1 ==> findings_markdown(a, sev) == if a[0].severity == sev {
            finding_markdown(a[0])
        } else {
            Seq::<char>::empty()
        },
    decreases b.len(),
{
    if a.len() == 1 {
        assert(a.drop_last() =~= Seq::<DriftFindingView>::empty());
        assert(findings_markdown(a.drop_last(), sev) == Seq::<char>::empty());
        assert(a.last() == a[0]);
        let t = if a[0].severity == sev {
            finding_markdown(a[0])
        } else {
            Seq::<char>::empty()
        };
        assert(Seq::<char>::empty() + t =~= t);
    }
    if b.len() == 0 {
        assert(a + b =~= a);
        assert(findings_markdown(a, sev) + findings_markdown(b, sev) =~= findings_markdown(a, sev));
    } else {
        lemma_findings_markdown_split(a, b.drop_last(), sev);
        assert((a + b).drop_last() =~= a + b.drop_last());
        assert((a + b).last() == b.last());
        assert(findings_markdown(a, sev) + findings_markdown(b, sev) =~= findings_markdown(a, sev)
            + findings_markdown(b.drop_last(), sev) + (if b.last().severity == sev {
            finding_markdown(b.last())
        } else {
            Seq::<char>::empty()
        }));
    }
}

/// The layout of a report: after the header, a report without findings
/// says so; otherwise it has a section for breaking changes, then one for
/// warnings, then one for information, each present exactly when some
/// finding has its severity, under its heading and a blank line.
pub proof fn lemma_report_layout(r: DriftReportView)
    ensures
        r.findings.len() == 0 ==> report_markdown(r) == header_markdown(r) + "No drift findings.\n"@,
        r.findings.len() > 0 ==> report_markdown(r) == header_markdown(r) + (if exists|i: int|
            0 <= i < r.findings.len() && (#[trigger] r.findings[i]).severity == Severity::Breaking {
            "## Breaking Changes\n\n"@ + findings_markdown(r.findings, Severity::Breaking)
        } else {
            Seq::<char>::empty()
        }) + (if exists|i: int|
            0 <= i < r.findings.len() && (#[trigger] r.findings[i]).severity == Severity::Warning {
            "## Warnings\n\n"@ + findings_markdown(r.findings, Severity::Warning)
        } else {
            Seq::<char>::empty()
        }) + (if exists|i: int|
            0 <= i < r.findings.len() && (#[trigger] r.findings[i]).severity == Severity::Info {
            "## Info\n\n"@ + findings_markdown(r.findings, Severity::Info)
        } else {
            Seq::<char>::empty()
        }),
{
    reveal_strlit("## Breaking Changes");
    reveal_strlit("## Warnings");
    reveal_strlit("## Info");
    reveal_strlit("## Breaking Changes\n\n");
    reveal_strlit("## Warnings\n\n");
    reveal_strlit("## Info\n\n");
    reveal_strlit("\n");
    assert("## Breaking Changes"@ + "\n"@ + "\n"@ =~= "## Breaking Changes\n\n"@);
    assert("## Warnings"@ + "\n"@ + "\n"@ =~= "## Warnings\n\n"@);
    assert("## Info"@ + "\n"@ + "\n"@ =~= "## Info\n\n"@);
}

} // verus!
