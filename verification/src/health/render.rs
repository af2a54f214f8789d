//! What is reported of each point, and the exit code of the whole run.
use crate::agent_client::SignProbe;
use crate::health::{
    any_fail, checks_view, diags_view, exit_code, CheckResult, CheckView, Format, Status,
    StatusView,
};
use crate::text::{cat5, dec, dec_u64, dec_usize};
use vstd::prelude::*;

verus! {

/// One call on the report writer.
pub enum Report {
    /// Announce this many points.
    PlanAhead(usize),
    Pass(String),
    PassDiag(String, Vec<(String, String)>),
    FailDiag(String, Vec<(String, String)>),
    Skip(String, String),
    /// Close the report.
    Finish,
}

/// [`Report`] over plain text.
pub enum ReportView {
    PlanAhead(nat),
    Pass(Seq<char>),
    PassDiag(Seq<char>, Seq<(Seq<char>, Seq<char>)>),
    FailDiag(Seq<char>, Seq<(Seq<char>, Seq<char>)>),
    Skip(Seq<char>, Seq<char>),
    Finish,
}

impl View for Report {
    type V = ReportView;

    open spec fn view(&self) -> ReportView {
        match self {
            Report::PlanAhead(n) => ReportView::PlanAhead(*n as nat),
            Report::Pass(name) => ReportView::Pass(name@),
            Report::PassDiag(name, d) => ReportView::PassDiag(name@, diags_view(d@)),
            Report::FailDiag(name, d) => ReportView::FailDiag(name@, diags_view(d@)),
            Report::Skip(name, why) => ReportView::Skip(name@, why@),
            Report::Finish => ReportView::Finish,
        }
    }
}

/// A row of calls over plain text.
pub open spec fn reports_view(r: Seq<Report>) -> Seq<ReportView> {
    r.map_values(|c: Report| c@)
}

/// How one point is reported: a failure with its diagnostics, a pass with
/// them only on request and where there are any, a skip with its reason.
pub open spec fn report_of(c: CheckView, verbose: bool) -> ReportView {
    match c.status {
        StatusView::Pass => if verbose && c.diags.len() > 0 {
            ReportView::PassDiag(c.name, c.diags)
        } else {
            ReportView::Pass(c.name)
        },
        StatusView::Fail => ReportView::FailDiag(c.name, c.diags),
        StatusView::Skip(why) => ReportView::Skip(c.name, why),
    }
}

/// The whole report: the announcement, each point in order, the end.
pub open spec fn report_calls(c: Seq<CheckView>, verbose: bool) -> Seq<ReportView> {
    seq![ReportView::PlanAhead(c.len())] + c.map_values(|p: CheckView| report_of(p, verbose)) + seq![
        ReportView::Finish,
    ]
}

fn copy_diags(d: &Vec<(String, String)>) -> (r: Vec<(String, String)>)
    ensures
        diags_view(r@) == diags_view(d@),
{
    let mut out: Vec<(String, String)> = Vec::new();
    for i in 0..d.len()
        invariant
            diags_view(out@) == diags_view(d@).take(i as int),
    {
        let ghost before = diags_view(out@);
        out.push((d[i].0.clone(), d[i].1.clone()));
        assert(diags_view(out@) =~= before.push(diags_view(d@)[i as int]));
        assert(diags_view(out@) =~= diags_view(d@).take(i + 1));
    }
    assert(diags_view(d@).take(d@.len() as int) =~= diags_view(d@));
    out
}

/// Decides the calls that report `results`.
pub fn render_into(results: &Vec<CheckResult>, verbose: bool) -> (r: Vec<Report>)
    ensures
        reports_view(r@) == report_calls(checks_view(results@), verbose),
{
    let mut out: Vec<Report> = Vec::new();
    out.push(Report::PlanAhead(results.len()));
    let ghost points = checks_view(results@).map_values(|p: CheckView| report_of(p, verbose));
    let ghost start = seq![ReportView::PlanAhead(results@.len())];
    assert(reports_view(out@) =~= start + points.take(0));
    for i in 0..results.len()
        invariant
            points == checks_view(results@).map_values(|p: CheckView| report_of(p, verbose)),
            reports_view(out@) == start + points.take(i as int),
    {
        let ghost before = reports_view(out@);
        let c: &CheckResult = &results[i];
        let call: Report = match &c.status {
            Status::Pass => {
                if verbose && c.diags.len() > 0 {
                    Report::PassDiag(c.name.clone(), copy_diags(&c.diags))
                } else {
                    Report::Pass(c.name.clone())
                }
            },
            Status::Fail => Report::FailDiag(c.name.clone(), copy_diags(&c.diags)),
            Status::Skip(why) => Report::Skip(c.name.clone(), why.clone()),
        };
        assert(call@ == report_of(results@[i as int]@, verbose));
        out.push(call);
        assert(reports_view(out@) =~= before.push(points[i as int]));
        assert(points.take(i + 1) =~= points.take(i as int).push(points[i as int]));
        assert(reports_view(out@) =~= start + points.take(i + 1));
    }
    out.push(Report::Finish);
    assert(points.take(results@.len() as int) =~= points);
    assert(reports_view(out@) =~= start + points + seq![ReportView::Finish]);
    out
}

/// A destination for the report.
pub trait HealthSink {
    /// Whether passing points show their diagnostics.
    spec fn shows_passes(&self) -> bool;

    /// Decides the calls that report `results` here.
    fn render(&self, results: &Vec<CheckResult>) -> (r: Vec<Report>)
        ensures
            reports_view(r@) == report_calls(checks_view(results@), self.shows_passes()),
    ;
}

/// TAP text. The plain style is the same everywhere; the automatic style
/// takes colour and locale from the environment and is meant for a
/// terminal.
pub struct TapSink<W> {
    pub w: W,
    pub verbose: bool,
    pub auto_style: bool,
}

impl<W> TapSink<W> {
    /// A sink in the plain style.
    pub fn new(w: W, verbose: bool) -> (r: Self)
        ensures
            r.w == w,
            r.verbose == verbose,
            !r.auto_style,
    {
        TapSink { w, verbose, auto_style: false }
    }

    /// A sink in the automatic style.
    pub fn auto(w: W, verbose: bool) -> (r: Self)
        ensures
            r.w == w,
            r.verbose == verbose,
            r.auto_style,
    {
        TapSink { w, verbose, auto_style: true }
    }
}

impl<W> HealthSink for TapSink<W> {
    open spec fn shows_passes(&self) -> bool {
        self.verbose
    }

    fn render(&self, results: &Vec<CheckResult>) -> (r: Vec<Report>) {
        render_into(results, self.verbose)
    }
}

/// One JSON record per line.
pub struct NdjsonSink<W> {
    pub w: W,
    pub verbose: bool,
}

impl<W> NdjsonSink<W> {
    /// A sink of JSON records.
    pub fn new(w: W, verbose: bool) -> (r: Self)
        ensures
            r.w == w,
            r.verbose == verbose,
    {
        NdjsonSink { w, verbose }
    }
}

impl<W> HealthSink for NdjsonSink<W> {
    open spec fn shows_passes(&self) -> bool {
        self.verbose
    }

    fn render(&self, results: &Vec<CheckResult>) -> (r: Vec<Report>) {
        render_into(results, self.verbose)
    }
}

/// The sink that a run uses.
#[derive(Clone, Copy, Debug, PartialEq, Eq, Structural)]
pub enum SinkKind {
    Tap,
    TapAuto,
    Ndjson,
}

/// The sink for a format.
pub open spec fn sink_of(format: Format, terminal: bool) -> SinkKind {
    match format {
        Format::Tap => SinkKind::Tap,
        Format::Ndjson => SinkKind::Ndjson,
        Format::Auto => if terminal {
            SinkKind::TapAuto
        } else {
            SinkKind::Ndjson
        },
    }
}

/// Chooses the sink: the automatic format is TAP for a terminal and JSON
/// records for a pipe.
pub fn select_sink(format: Format, terminal: bool) -> (r: SinkKind)
    ensures
        r == sink_of(format, terminal),
        r == match format {
            Format::Tap => SinkKind::Tap,
            Format::Ndjson => SinkKind::Ndjson,
            Format::Auto => if terminal {
                SinkKind::TapAuto
            } else {
                SinkKind::Ndjson
            },
        },
{
    match format {
        Format::Tap => SinkKind::Tap,
        Format::Ndjson => SinkKind::Ndjson,
        Format::Auto => {
            if terminal {
                SinkKind::TapAuto
            } else {
                SinkKind::Ndjson
            }
        },
    }
}

// ------------------------------------------------------------ the sign test

/// One identity's line in the sign test.
pub open spec fn sign_line(p: SignProbe) -> Seq<char> {
    match p.outcome {
        Ok((algorithm, len, millis)) => "  PASS  "@ + p.comment@ + "  "@ + p.fingerprint@ + "  "@
            + algorithm@ + "  "@ + dec(len as nat) + " bytes  "@ + dec(millis as nat) + "ms\n"@,
        Err(e) => "  FAIL  "@ + p.comment@ + "  "@ + p.fingerprint@ + "  "@ + e@ + "\n"@,
    }
}

/// The lines of the first identities on.
pub open spec fn sign_lines(p: Seq<SignProbe>) -> Seq<char>
    decreases p.len(),
{
    if p.len() == 0 {
        seq![]
    } else {
        sign_lines(p.drop_last()) + sign_line(p.last())
    }
}

/// The block that the sign test prints.
pub open spec fn sign_block(p: Seq<SignProbe>) -> Seq<char> {
    if p.len() == 0 {
        "  (agent serves no identities)\n"@
    } else {
        sign_lines(p)
    }
}

fn sign_line_text(p: &SignProbe) -> (r: String)
    ensures
        r@ == sign_line(*p),
{
    match &p.outcome {
        Ok((algorithm, len, millis)) => {
            let mut s: String = cat5(
                "  PASS  ",
                p.comment.as_str(),
                "  ",
                p.fingerprint.as_str(),
                "  ",
            );
            s.append(algorithm.as_str());
            s.append("  ");
            s.append(dec_usize(*len).as_str());
            s.append(" bytes  ");
            s.append(dec_u64(*millis).as_str());
            s.append("ms\n");
            s
        },
        Err(e) => {
            let mut s: String = cat5(
                "  FAIL  ",
                p.comment.as_str(),
                "  ",
                p.fingerprint.as_str(),
                "  ",
            );
            s.append(e.as_str());
            s.append("\n");
            s
        },
    }
}

/// Formats the outcome of the sign test, one line per identity.
pub fn format_sign_probes(probes: &[SignProbe]) -> (r: String)
    ensures
        r@ == sign_block(probes@),
{
    if probes.len() == 0 {
        return "  (agent serves no identities)\n".to_owned();
    }
    let mut out: String = String::new();
    for i in 0..probes.len()
        invariant
            out@ == sign_lines(probes@.take(i as int)),
    {
        out.append(sign_line_text(&probes[i]).as_str());
        assert(probes@.take(i + 1).drop_last() =~= probes@.take(i as int));
    }
    assert(probes@.take(probes@.len() as int) =~= probes@);
    out
}

/// Whether some identity could not sign.
pub open spec fn any_refused(p: Seq<SignProbe>) -> bool {
    exists|i: int| 0 <= i < p.len() && (#[trigger] p[i]).outcome is Err
}

/// What the sign test adds to the exit code: one where the agent could not
/// be reached or some identity could not sign.
pub open spec fn sign_code(outcome: Result<Seq<SignProbe>, ()>) -> int {
    match outcome {
        Ok(p) => if any_refused(p) {
            1
        } else {
            0
        },
        Err(_) => 1,
    }
}

/// The exit code of a sign test that reached the agent.
pub fn sign_test_code(probes: &[SignProbe]) -> (r: i32)
    ensures
        r == sign_code(Ok(probes@)),
{
    for i in 0..probes.len()
        invariant
            forall|j: int| 0 <= j < i ==> (#[trigger] probes@[j]).outcome is Ok,
    {
        if probes[i].outcome.is_err() {
            return 1;
        }
    }
    0
}

/// The exit code of a run.
pub open spec fn code_of_run(
    rendered: bool,
    results: Seq<CheckResult>,
    sign_test: Option<i32>,
) -> int {
    if !rendered {
        2
    } else if any_fail(results) || sign_test == Some(1i32) {
        1
    } else {
        0
    }
}

/// The exit code of a run: two where the report could not be written, else
/// one where a point failed or the sign test did, else zero.
pub fn run_code(rendered: bool, results: &[CheckResult], sign_test: Option<i32>) -> (r: i32)
    requires
        sign_test is Some ==> sign_test->0 == 0 || sign_test->0 == 1,
    ensures
        r == code_of_run(rendered, results@, sign_test),
        r == if !rendered {
            2i32
        } else if any_fail(results@) || sign_test == Some(1i32) {
            1
        } else {
            0
        },
{
    if !rendered {
        return 2;
    }
    let base: i32 = exit_code(results);
    match sign_test {
        Some(code) => {
            if code > base {
                code
            } else {
                base
            }
        },
        None => base,
    }
}

// --------------------------------------------------------------------- laws

/// A run ends well exactly where the report was written, no point failed and
/// every identity that was tried could sign; a report that could not be
/// written counts most.
pub proof fn law_any_failure_fails_the_run(
    rendered: bool,
    results: Seq<CheckResult>,
    probes: Seq<SignProbe>,
    sign_test: Option<i32>,
)
    requires
        sign_test is Some ==> sign_test->0 == sign_code(Ok(probes)),
    ensures
        code_of_run(rendered, results, sign_test) == 0 <==> rendered && (forall|i: int|
            0 <= i < results.len() ==> !((#[trigger] results[i]).status is Fail)) && (sign_test
            is Some ==> forall|i: int|
            0 <= i < probes.len() ==> (#[trigger] probes[i]).outcome is Ok),
        code_of_run(rendered, results, sign_test) == 2 <==> !rendered,
        sign_code(Err(())) == 1,
{
}

/// An identity that could sign is shown as such, and no other is.
pub proof fn law_line_shows_whether_it_signed(p: SignProbe)
    ensures
        p.outcome is Ok <==> sign_line(p).len() > 6 && sign_line(p).subrange(2, 6) == seq![
            'P',
            'A',
            'S',
            'S',
        ],
        p.outcome is Err <==> sign_line(p).len() > 6 && sign_line(p).subrange(2, 6) == seq![
            'F',
            'A',
            'I',
            'L',
        ],
{
    reveal_strlit("  PASS  ");
    reveal_strlit("  FAIL  ");
    let line = sign_line(p);
    let mark = line.subrange(2, 6);
    match p.outcome {
        Ok(_) => {
            assert(mark =~= seq!['P', 'A', 'S', 'S']);
            assert(mark[0] == 'P');
        },
        Err(_) => {
            assert(mark =~= seq!['F', 'A', 'I', 'L']);
            assert(mark[0] == 'F');
        },
    }
}

/// A format that was asked for is used, wherever the output goes; without
/// one, people get lines and programs get records.
pub proof fn law_terminal_decides_only_without_a_format(terminal: bool)
    ensures
        sink_of(Format::Tap, terminal) == SinkKind::Tap,
        sink_of(Format::Ndjson, terminal) == SinkKind::Ndjson,
        sink_of(Format::Auto, true) == SinkKind::TapAuto,
        sink_of(Format::Auto, false) == SinkKind::Ndjson,
{
}

} // verus!
