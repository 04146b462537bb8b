use vstd::prelude::*;
use crate::config::InputSource;
use crate::probe::{line_target, probe_target};
use crate::report::report_text;

verus! {

/// What came of one attempt to read an input line.
#[derive(Debug, PartialEq, Eq)]
pub enum ReadEvent {
    /// A line, with or without its line ending.
    Line(String),
    /// The input is exhausted.
    End,
    /// The read failed.
    Failed,
}

/// What to do after a read.
#[derive(Debug, PartialEq, Eq)]
pub enum Step {
    /// Request this URL; print the report line if a response comes.
    Probe(String),
    /// Nothing to probe on this line; go on with the next.
    Skip,
    /// Report the read error on standard error and go on.
    ReportError,
    /// Stop the program: an input file could not be read.
    Abort,
    /// The input is done.
    Finish,
}

/// The decision taken on each read. A failed read is reported and passed
/// over on standard input, and is fatal on a file.
pub fn next_step(source: &InputSource, event: ReadEvent) -> (r: Step)
    ensures
        event is End ==> r is Finish,
        event is Failed && source is Stdin ==> r is ReportError,
        event is Failed && source is File ==> r is Abort,
        event matches ReadEvent::Line(l) ==> match line_target(l@) {
            Some(u) => (r matches Step::Probe(v) && v@ == u),
            None => r is Skip,
        },
{
    match event {
        ReadEvent::End => Step::Finish,
        ReadEvent::Failed => match source {
            InputSource::Stdin => Step::ReportError,
            InputSource::File(_) => Step::Abort,
        },
        ReadEvent::Line(l) => match probe_target(l.as_str()) {
            Some(u) => Step::Probe(u),
            None => Step::Skip,
        },
    }
}

/// What a probe gave: the effective URL and the status code of the
/// response, or nothing where no response came.
pub type Outcome = Option<(Seq<char>, u16)>;

/// What is printed for one input line, given what its probe gave.
pub open spec fn line_output(raw: Seq<char>, outcome: Outcome) -> Option<Seq<char>> {
    match (line_target(raw), outcome) {
        (Some(_), Some((url, status))) => Some(report_text(url, status)),
        _ => None,
    }
}

/// What a run prints, given its input lines and, for each, what its probe
/// gave (ignored where the line is not probed).
pub open spec fn run_output(lines: Seq<Seq<char>>, outcomes: Seq<Outcome>) -> Seq<Seq<char>>
    decreases lines.len(),
{
    if lines.len() == 0 || outcomes.len() == 0 {
        seq![]
    } else {
        let earlier = run_output(lines.drop_last(), outcomes.drop_last());
        match line_output(lines.last(), outcomes.last()) {
            Some(o) => earlier.push(o),
            None => earlier,
        }
    }
}

/// The number of input lines that name a URL that answered.
pub open spec fn answered_count(lines: Seq<Seq<char>>, outcomes: Seq<Outcome>) -> nat
    decreases lines.len(),
{
    if lines.len() == 0 || outcomes.len() == 0 {
        0
    } else {
        answered_count(lines.drop_last(), outcomes.drop_last()) + if line_output(
            lines.last(),
            outcomes.last(),
        ) is Some {
            1nat
        } else {
            0nat
        }
    }
}

/// The output of a run is the output of its first lines followed by the
/// output of the rest: each line's report keeps its input position.
pub proof fn lemma_run_output_split(
    a: Seq<Seq<char>>,
    oa: Seq<Outcome>,
    b: Seq<Seq<char>>,
    ob: Seq<Outcome>,
)
    requires
        a.len() == oa.len(),
        b.len() == ob.len(),
    ensures
        run_output(a + b, oa + ob) == run_output(a, oa) + run_output(b, ob),
    decreases b.len(),
{
    if b.len() == 0 {
        assert(a + b =~= a);
        assert(oa + ob =~= oa);
        assert(run_output(a, oa) + run_output(b, ob) =~= run_output(a, oa));
    } else {
        assert((a + b).drop_last() =~= a + b.drop_last());
        assert((oa + ob).drop_last() =~= oa + ob.drop_last());
        lemma_run_output_split(a, oa, b.drop_last(), ob.drop_last());
        let rest = run_output(b.drop_last(), ob.drop_last());
        match line_output(b.last(), ob.last()) {
            Some(o) => {
                assert(run_output(a, oa) + rest.push(o) =~= (run_output(a, oa) + rest).push(o));
            },
            None => {},
        }
    }
}

/// A run prints exactly one line for each input line that names a URL that
/// answered, and none for the others.
pub proof fn lemma_run_output_len(lines: Seq<Seq<char>>, outcomes: Seq<Outcome>)
    requires
        lines.len() == outcomes.len(),
    ensures
        run_output(lines, outcomes).len() == answered_count(lines, outcomes),
    decreases lines.len(),
{
    if lines.len() > 0 {
        lemma_run_output_len(lines.drop_last(), outcomes.drop_last());
    }
}

/// When every line names a URL and every URL answers, a run prints one line
/// per input line, `<effective_url> <status>`, in input order.
pub proof fn lemma_all_answered(lines: Seq<Seq<char>>, outcomes: Seq<Outcome>)
    requires
        lines.len() == outcomes.len(),
        forall|i: int| 0 <= i < lines.len() ==> (#[trigger] line_target(lines[i])) is Some,
        forall|i: int| 0 <= i < outcomes.len() ==> (#[trigger] outcomes[i]) is Some,
    ensures
        run_output(lines, outcomes).len() == lines.len(),
        forall|i: int|
            0 <= i < lines.len() ==> (outcomes[i] matches Some((url, status)) && (#[trigger] run_output(
                lines,
                outcomes,
            )[i]) == report_text(url, status)),
    decreases lines.len(),
{
    if lines.len() > 0 {
        let n = lines.len() - 1;
        assert(line_target(lines[n]) is Some);
        assert(outcomes[n] is Some);
        lemma_all_answered(lines.drop_last(), outcomes.drop_last());
        assert forall|i: int| 0 <= i < lines.drop_last().len() implies (#[trigger] line_target(
            lines.drop_last()[i],
        )) is Some by {
            assert(lines.drop_last()[i] == lines[i]);
        }
    }
}

/// A line that names no URL prints nothing, and the lines after it are
/// handled as if it were not there.
pub proof fn lemma_malformed_line_silent(
    before: Seq<Seq<char>>,
    ob: Seq<Outcome>,
    line: Seq<char>,
    outcome: Outcome,
    after: Seq<Seq<char>>,
    oa: Seq<Outcome>,
)
    requires
        before.len() == ob.len(),
        after.len() == oa.len(),
        line_target(line) is None,
    ensures
        run_output(before.push(line) + after, ob.push(outcome) + oa) == run_output(before, ob)
            + run_output(after, oa),
{
    lemma_run_output_split(before.push(line), ob.push(outcome), after, oa);
    assert(before.push(line).drop_last() =~= before);
    assert(ob.push(outcome).drop_last() =~= ob);
}

/// A line whose URL gives no response (the host is unreachable, or the
/// timeout passes) prints nothing, and the lines after it are handled as if
/// it were not there.
pub proof fn lemma_failed_probe_silent(
    before: Seq<Seq<char>>,
    ob: Seq<Outcome>,
    line: Seq<char>,
    after: Seq<Seq<char>>,
    oa: Seq<Outcome>,
)
    requires
        before.len() == ob.len(),
        after.len() == oa.len(),
    ensures
        run_output(before.push(line) + after, ob.push(None) + oa) == run_output(before, ob)
            + run_output(after, oa),
{
    lemma_run_output_split(before.push(line), ob.push(None), after, oa);
    assert(before.push(line).drop_last() =~= before);
    assert(ob.push(None).drop_last() =~= ob);
}

} // verus!
