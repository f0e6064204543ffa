//! Whole scripts: the state a sequence of directives leads to, the
//! renderings it asks for, and what holds of every script.

use vstd::prelude::*;
use crate::directive::{parse_spec, DirectiveView};
use crate::interpreter::{Action, ActionView, Interpreter, InterpreterView};
use crate::substitute::{pairs_view, substitute, substitute_spec, Pairs};
use crate::text::lines_view;

verus! {

/// One rendering: the template to read, the file to write, and the pairs
/// to apply in between.
#[derive(Clone, Debug, PartialEq, Eq)]
pub struct Job {
    /// The template to read.
    pub input: String,
    /// The file to write.
    pub output: String,
    /// The pairs to apply, in order.
    pub pairs: Vec<(String, String)>,
}

/// A rendering over character sequences.
pub struct JobView {
    pub input: Seq<char>,
    pub output: Seq<char>,
    pub pairs: Pairs,
}

impl View for Job {
    type V = JobView;

    open spec fn view(&self) -> JobView {
        JobView { input: self.input@, output: self.output@, pairs: pairs_view(self.pairs@) }
    }
}

impl Job {
    /// The text to write for this job, given what the template holds.
    pub fn render(&self, template: &str) -> (text: String)
        ensures
            text@ == substitute_spec(template@, self@.pairs),
    {
        substitute(template, &self.pairs)
    }
}

/// What the caller of a run has to do or report at one point.
#[derive(Clone, Debug, PartialEq, Eq)]
pub enum Step {
    /// Read the job's template, render it and write the result.
    Render(Job),
    /// An execution was asked for with something missing.
    MissingPrerequisites,
    /// A line that is no known directive.
    ReportUnknown(String),
}

/// What a run has to do or report at one point, over character sequences.
pub enum StepView {
    Render(JobView),
    MissingPrerequisites,
    ReportUnknown(Seq<char>),
}

impl View for Step {
    type V = StepView;

    open spec fn view(&self) -> StepView {
        match self {
            Step::Render(job) => StepView::Render(job@),
            Step::MissingPrerequisites => StepView::MissingPrerequisites,
            Step::ReportUnknown(raw) => StepView::ReportUnknown(raw@),
        }
    }
}

/// The views of a list of steps.
pub open spec fn steps_view(steps: Seq<Step>) -> Seq<StepView> {
    Seq::new(steps.len(), |i: int| steps[i]@)
}

/// The state that `directives`, dealt with in order from `state`, lead to.
pub open spec fn run_from(state: InterpreterView, directives: Seq<DirectiveView>) -> InterpreterView
    decreases directives.len(),
{
    if directives.len() == 0 {
        state
    } else {
        run_from(state.step(directives[0]), directives.drop_first())
    }
}

/// The step, if any, that `directive` leads to in `state`.
pub open spec fn step_at(state: InterpreterView, directive: DirectiveView) -> Seq<StepView> {
    match state.action(directive) {
        ActionView::Proceed => Seq::empty(),
        ActionView::Render { input, output } => seq![
            StepView::Render(JobView { input, output, pairs: state.pairs }),
        ],
        ActionView::MissingPrerequisites => seq![StepView::MissingPrerequisites],
        ActionView::ReportUnknown(raw) => seq![StepView::ReportUnknown(raw)],
    }
}

/// Everything that `directives`, dealt with in order from `state`, ask
/// for: the renderings and the reports, in script order.
pub open spec fn steps_from(state: InterpreterView, directives: Seq<DirectiveView>) -> Seq<StepView>
    decreases directives.len(),
{
    if directives.len() == 0 {
        Seq::empty()
    } else {
        step_at(state, directives[0]) + steps_from(
            state.step(directives[0]),
            directives.drop_first(),
        )
    }
}

/// The renderings among `steps`, in order.
pub open spec fn jobs_in(steps: Seq<StepView>) -> Seq<JobView>
    decreases steps.len(),
{
    if steps.len() == 0 {
        Seq::empty()
    } else {
        match steps.last() {
            StepView::Render(job) => jobs_in(steps.drop_last()).push(job),
            _ => jobs_in(steps.drop_last()),
        }
    }
}

/// The renderings that `directives`, dealt with in order from `state`, ask
/// for: one output file is written for each.
pub open spec fn jobs_from(state: InterpreterView, directives: Seq<DirectiveView>) -> Seq<JobView> {
    jobs_in(steps_from(state, directives))
}

/// The directives that the lines of a script hold, in order; lines that
/// hold none are left out.
pub open spec fn directives_of(lines: Seq<Seq<char>>) -> Seq<DirectiveView>
    decreases lines.len(),
{
    if lines.len() == 0 {
        Seq::empty()
    } else {
        let later = directives_of(lines.drop_first());
        match parse_spec(lines[0]) {
            Some(directive) => seq![directive] + later,
            None => later,
        }
    }
}

/// How many of `directives` are an `Execute` that finds a template, an
/// output file and at least one pair in place when its turn comes.
pub open spec fn satisfied_executes(state: InterpreterView, directives: Seq<DirectiveView>) -> nat
    decreases directives.len(),
{
    if directives.len() == 0 {
        0
    } else {
        let earlier = directives.drop_last();
        satisfied_executes(state, earlier) + if directives.last() is Execute && run_from(
            state,
            earlier,
        ).ready() {
            1nat
        } else {
            0nat
        }
    }
}

/// The renderings of two runs of steps, one after the other.
pub proof fn lemma_jobs_in_parts(first: Seq<StepView>, second: Seq<StepView>)
    ensures
        jobs_in(first + second) == jobs_in(first) + jobs_in(second),
    decreases second.len(),
{
    if second.len() == 0 {
        assert(first + second =~= first);
        assert(jobs_in(first) + jobs_in(second) =~= jobs_in(first));
    } else {
        let whole = first + second;
        assert(whole.drop_last() =~= first + second.drop_last());
        lemma_jobs_in_parts(first, second.drop_last());
        match second.last() {
            StepView::Render(job) => {
                assert(jobs_in(first) + jobs_in(second.drop_last()).push(job) =~= (jobs_in(first)
                    + jobs_in(second.drop_last())).push(job));
            },
            _ => {},
        }
    }
}

/// Running a script in two parts is running the second part from where
/// the first one ended: the state carries everything over.
pub proof fn lemma_run_in_parts(
    state: InterpreterView,
    first: Seq<DirectiveView>,
    second: Seq<DirectiveView>,
)
    ensures
        run_from(state, first + second) == run_from(run_from(state, first), second),
        steps_from(state, first + second) == steps_from(state, first) + steps_from(
            run_from(state, first),
            second,
        ),
        jobs_from(state, first + second) == jobs_from(state, first) + jobs_from(
            run_from(state, first),
            second,
        ),
    decreases first.len(),
{
    if first.len() == 0 {
        assert(first + second =~= second);
        assert(steps_from(state, first) + steps_from(state, second) =~= steps_from(state, second));
    } else {
        let whole = first + second;
        assert(whole[0] == first[0]);
        assert(whole.drop_first() =~= first.drop_first() + second);
        lemma_run_in_parts(state.step(first[0]), first.drop_first(), second);
        let head = step_at(state, first[0]);
        let tail = steps_from(state.step(first[0]), first.drop_first());
        let rest = steps_from(run_from(state, first), second);
        assert(head + (tail + rest) =~= (head + tail) + rest);
    }
    lemma_jobs_in_parts(steps_from(state, first), steps_from(run_from(state, first), second));
}

/// What a single directive asks for.
proof fn lemma_single(state: InterpreterView, directive: DirectiveView)
    ensures
        steps_from(state, seq![directive]) == step_at(state, directive),
        run_from(state, seq![directive]) == state.step(directive),
        jobs_from(state, seq![directive]).len() == if state.action(directive) is Render {
            1nat
        } else {
            0nat
        },
{
    let only = seq![directive];
    assert(only.drop_first().len() == 0);
    let steps = step_at(state, directive);
    assert(steps + steps_from(state.step(directive), only.drop_first()) =~= steps);
    assert(run_from(state.step(only[0]), only.drop_first()) == state.step(directive));
    if steps.len() > 0 {
        assert(steps.drop_last().len() == 0);
        assert(jobs_in(steps.drop_last()).len() == 0);
    }
}

/// One output file is written for each `Execute` whose prerequisites were in
/// place when it ran, and for nothing else.
pub proof fn lemma_one_job_per_satisfied_execute(
    state: InterpreterView,
    directives: Seq<DirectiveView>,
)
    ensures
        jobs_from(state, directives).len() == satisfied_executes(state, directives),
    decreases directives.len(),
{
    if directives.len() > 0 {
        let earlier = directives.drop_last();
        let last = seq![directives.last()];
        assert(directives =~= earlier + last);
        lemma_one_job_per_satisfied_execute(state, earlier);
        lemma_run_in_parts(state, earlier, last);
        lemma_single(run_from(state, earlier), directives.last());
    }
}

/// After a completed execution the pair list is empty and both paths are
/// what they were; the next `r` starts a list of its own.
pub proof fn lemma_execute_resets_pairs_only(
    state: InterpreterView,
    pattern: Seq<char>,
    replacement: Seq<char>,
)
    requires
        state.ready(),
    ensures
        state.step(DirectiveView::Execute).pairs == Seq::<(Seq<char>, Seq<char>)>::empty(),
        state.step(DirectiveView::Execute).input_path == state.input_path,
        state.step(DirectiveView::Execute).output_path == state.output_path,
        state.step(DirectiveView::Execute).step(
            DirectiveView::AddReplacement(pattern, replacement),
        ).pairs == seq![(pattern, replacement)],
{
    let after = state.step(DirectiveView::Execute);
    assert(after.step(DirectiveView::AddReplacement(pattern, replacement)).pairs =~= seq![
        (pattern, replacement),
    ]);
}

/// A path, once named, stays named to the end of the script: no directive
/// takes a template or an output file away.
pub proof fn lemma_paths_stay_set(state: InterpreterView, directives: Seq<DirectiveView>)
    ensures
        state.input_set() ==> run_from(state, directives).input_set(),
        state.output_set() ==> run_from(state, directives).output_set(),
    decreases directives.len(),
{
    if directives.len() > 0 {
        lemma_paths_stay_set(state.step(directives[0]), directives.drop_first());
    }
}

/// An `Execute` that finds no pair gathered since the last completed one is
/// refused, whatever paths are set: it asks for no rendering and leaves the
/// state alone.
pub proof fn lemma_execute_without_pairs_is_skipped(state: InterpreterView)
    requires
        state.pairs.len() == 0,
    ensures
        state.action(DirectiveView::Execute) == ActionView::MissingPrerequisites,
        state.step(DirectiveView::Execute) == state,
        jobs_from(state, seq![DirectiveView::Execute]).len() == 0,
{
    lemma_single(state, DirectiveView::Execute);
}

/// Right after a completed execution a second `Execute` is refused.
pub proof fn lemma_execute_twice_runs_once(state: InterpreterView)
    requires
        state.ready(),
    ensures
        state.step(DirectiveView::Execute).action(DirectiveView::Execute)
            == ActionView::MissingPrerequisites,
{
}

/// An unknown line anywhere in a script changes neither the state that the
/// script leads to nor the renderings it asks for.
pub proof fn lemma_unknown_changes_nothing(
    state: InterpreterView,
    before: Seq<DirectiveView>,
    raw: Seq<char>,
    after: Seq<DirectiveView>,
)
    ensures
        run_from(state, before + seq![DirectiveView::Unknown(raw)] + after) == run_from(
            state,
            before + after,
        ),
        jobs_from(state, before + seq![DirectiveView::Unknown(raw)] + after) == jobs_from(
            state,
            before + after,
        ),
{
    let unknown = seq![DirectiveView::Unknown(raw)];
    let middle = run_from(state, before);
    lemma_run_in_parts(state, before, unknown);
    lemma_run_in_parts(state, before + unknown, after);
    lemma_run_in_parts(state, before, after);
    lemma_single(middle, DirectiveView::Unknown(raw));
    assert(jobs_from(state, before) + jobs_from(middle, unknown) =~= jobs_from(state, before));
}

/// Interprets a whole script from a fresh state and lists, in script order,
/// what is to be done: a rendering for each `do` that finds a template, an
/// output file and at least one pair in place, a report for each `do` that
/// does not and for each unknown line. Each rendering is taken as carried
/// out before the next line is read, so its pairs are not seen again.
pub fn plan(lines: &Vec<String>) -> (steps: Vec<Step>)
    ensures
        steps_view(steps@) == steps_from(
            InterpreterView::initial(),
            directives_of(lines_view(lines@)),
        ),
        jobs_in(steps_view(steps@)).len() == satisfied_executes(
            InterpreterView::initial(),
            directives_of(lines_view(lines@)),
        ),
{
    let mut interpreter = Interpreter::new();
    let mut steps: Vec<Step> = Vec::new();
    let mut i: usize = 0;
    let ghost all = lines_view(lines@);
    let ghost total = steps_from(InterpreterView::initial(), directives_of(all));
    assert(all.skip(0) =~= all);
    assert(steps_view(steps@) + total =~= total);
    while i < lines.len()
        invariant
            i <= lines.len(),
            all == lines_view(lines@),
            steps_view(steps@) + steps_from(interpreter@, directives_of(all.skip(i as int)))
                == total,
        decreases lines.len() - i,
    {
        let ghost rest = all.skip(i as int);
        let ghost later = directives_of(rest.drop_first());
        let ghost before = interpreter@;
        let ghost done = steps_view(steps@);
        proof {
            assert(rest[0] == lines@[i as int]@);
            assert(rest.drop_first() =~= all.skip(i + 1));
            match parse_spec(rest[0]) {
                Some(directive) => {
                    let here = seq![directive] + later;
                    assert(here[0] == directive);
                    assert(here.drop_first() =~= later);
                },
                None => {},
            }
        }
        match interpreter.feed(lines[i].as_str()) {
            Action::Proceed => {
                assert(done + steps_from(interpreter@, later) =~= total);
            },
            Action::Render { input, output } => {
                let pairs = interpreter.complete();
                steps.push(Step::Render(Job { input, output, pairs }));
                let ghost step = StepView::Render(
                    JobView { input: input@, output: output@, pairs: before.pairs },
                );
                assert(steps_view(steps@) =~= done.push(step));
                assert(done.push(step) + steps_from(interpreter@, later) =~= done + (seq![step]
                    + steps_from(interpreter@, later)));
            },
            Action::MissingPrerequisites => {
                steps.push(Step::MissingPrerequisites);
                let ghost step = StepView::MissingPrerequisites;
                assert(steps_view(steps@) =~= done.push(step));
                assert(done.push(step) + steps_from(interpreter@, later) =~= done + (seq![step]
                    + steps_from(interpreter@, later)));
            },
            Action::ReportUnknown(raw) => {
                steps.push(Step::ReportUnknown(raw));
                let ghost step = StepView::ReportUnknown(raw@);
                assert(steps_view(steps@) =~= done.push(step));
                assert(done.push(step) + steps_from(interpreter@, later) =~= done + (seq![step]
                    + steps_from(interpreter@, later)));
            },
        }
        i += 1;
    }
    assert(all.skip(i as int).len() == 0);
    assert(steps_view(steps@) + Seq::<StepView>::empty() =~= steps_view(steps@));
    proof {
        lemma_one_job_per_satisfied_execute(InterpreterView::initial(), directives_of(all));
    }
    steps
}

} // verus!
