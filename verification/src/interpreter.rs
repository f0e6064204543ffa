//! The work-order interpreter: state accumulated over the directives of a
//! script, and the decision taken at each one.
//!
//! The interpreter performs no I/O. At an `Execute` with everything in place
//! it hands out a [`Action::Render`]; the caller reads the template, asks
//! [`Interpreter::render`] for the output text, writes it, and reports the
//! success with [`Interpreter::complete`].

use vstd::prelude::*;
use crate::directive::{parse, parse_spec, Directive, DirectiveView};
use crate::substitute::{pairs_view, substitute, substitute_spec, Pairs};

verus! {

/// What has been gathered so far.
#[derive(Clone, Debug, PartialEq, Eq)]
pub struct Interpreter {
    /// The template named by the latest `if`.
    pub input_path: Option<String>,
    /// The output file named by the latest `of`.
    pub output_path: Option<String>,
    /// The pairs gathered since the last completed execution, in order of arrival.
    pub pairs: Vec<(String, String)>,
}

/// What the caller has to do after a directive.
#[derive(Clone, Debug, PartialEq, Eq)]
pub enum Action {
    /// Nothing: go on with the next line.
    Proceed,
    /// Read `input`, render it, write the result to `output`, then complete.
    Render { input: String, output: String },
    /// An execution was asked for before a template, an output file and at
    /// least one pair were given: report it and go on.
    MissingPrerequisites,
    /// The line is no known directive: report it and go on.
    ReportUnknown(String),
}

/// The interpreter's state over character sequences.
pub struct InterpreterView {
    pub input_path: Option<Seq<char>>,
    pub output_path: Option<Seq<char>>,
    pub pairs: Pairs,
}

/// An action over character sequences.
pub enum ActionView {
    Proceed,
    Render { input: Seq<char>, output: Seq<char> },
    MissingPrerequisites,
    ReportUnknown(Seq<char>),
}

/// The view of an optional path.
pub open spec fn path_view(path: Option<String>) -> Option<Seq<char>> {
    match path {
        Some(p) => Some(p@),
        None => None,
    }
}

impl View for Interpreter {
    type V = InterpreterView;

    open spec fn view(&self) -> InterpreterView {
        InterpreterView {
            input_path: path_view(self.input_path),
            output_path: path_view(self.output_path),
            pairs: pairs_view(self.pairs@),
        }
    }
}

impl View for Action {
    type V = ActionView;

    open spec fn view(&self) -> ActionView {
        match self {
            Action::Proceed => ActionView::Proceed,
            Action::Render { input, output } => ActionView::Render { input: input@, output: output@ },
            Action::MissingPrerequisites => ActionView::MissingPrerequisites,
            Action::ReportUnknown(raw) => ActionView::ReportUnknown(raw@),
        }
    }
}

impl InterpreterView {
    /// The state before the first line.
    pub open spec fn initial() -> InterpreterView {
        InterpreterView { input_path: None, output_path: None, pairs: Seq::empty() }
    }

    /// A template has been named.
    pub open spec fn input_set(self) -> bool {
        self.input_path.is_some()
    }

    /// An output file has been named.
    pub open spec fn output_set(self) -> bool {
        self.output_path.is_some()
    }

    /// At least one pair has arrived since the last completed execution.
    pub open spec fn pairs_set(self) -> bool {
        self.pairs.len() > 0
    }

    /// An execution can go ahead.
    pub open spec fn ready(self) -> bool {
        self.input_set() && self.output_set() && self.pairs_set()
    }

    /// The state after a completed execution: the pairs are gone, the paths stay.
    pub open spec fn completed(self) -> InterpreterView {
        InterpreterView { pairs: Seq::empty(), ..self }
    }

    /// The state once `directive` has been taken in, before any execution
    /// it asks for has been carried out.
    pub open spec fn accept(self, directive: DirectiveView) -> InterpreterView {
        match directive {
            DirectiveView::SetInput(path) => InterpreterView { input_path: Some(path), ..self },
            DirectiveView::SetOutput(path) => InterpreterView { output_path: Some(path), ..self },
            DirectiveView::AddReplacement(pattern, replacement) => InterpreterView {
                pairs: self.pairs.push((pattern, replacement)),
                ..self
            },
            DirectiveView::Execute => self,
            DirectiveView::Unknown(_) => self,
        }
    }

    /// What the caller is asked to do at `directive`.
    pub open spec fn action(self, directive: DirectiveView) -> ActionView {
        match directive {
            DirectiveView::Execute => if self.ready() {
                ActionView::Render {
                    input: self.input_path.unwrap(),
                    output: self.output_path.unwrap(),
                }
            } else {
                ActionView::MissingPrerequisites
            },
            DirectiveView::Unknown(raw) => ActionView::ReportUnknown(raw),
            _ => ActionView::Proceed,
        }
    }

    /// The state once `directive` has been dealt with in full: taken in,
    /// and, where it asked for a rendering, that rendering completed.
    pub open spec fn step(self, directive: DirectiveView) -> InterpreterView {
        if self.action(directive) is Render {
            self.accept(directive).completed()
        } else {
            self.accept(directive)
        }
    }

    /// The text that a rendering of `template` writes.
    pub open spec fn rendered(self, template: Seq<char>) -> Seq<char> {
        substitute_spec(template, self.pairs)
    }
}

impl Interpreter {
    /// An interpreter that has seen nothing yet.
    pub fn new() -> (fresh: Interpreter)
        ensures
            fresh@ == InterpreterView::initial(),
    {
        let fresh = Interpreter { input_path: None, output_path: None, pairs: Vec::new() };
        assert(fresh@.pairs =~= Seq::empty());
        fresh
    }

    /// Whether a template has been named.
    pub fn input_set(&self) -> (set: bool)
        ensures
            set == self@.input_set(),
    {
        self.input_path.is_some()
    }

    /// Whether an output file has been named.
    pub fn output_set(&self) -> (set: bool)
        ensures
            set == self@.output_set(),
    {
        self.output_path.is_some()
    }

    /// Whether a pair has arrived since the last completed execution.
    pub fn pairs_set(&self) -> (set: bool)
        ensures
            set == self@.pairs_set(),
    {
        self.pairs.len() > 0
    }

    /// Whether an execution can go ahead.
    pub fn is_ready(&self) -> (ready: bool)
        ensures
            ready == self@.ready(),
    {
        self.input_set() && self.output_set() && self.pairs_set()
    }

    /// Takes in one directive and says what the caller has to do.
    ///
    /// `if` and `of` replace the path held, `r` appends its pair. `do` changes
    /// nothing here: it asks for a rendering when a template, an output file
    /// and at least one pair are held, and is refused otherwise.
    pub fn apply(&mut self, directive: Directive) -> (action: Action)
        ensures
            action@ == old(self)@.action(directive@),
            final(self)@ == old(self)@.accept(directive@),
    {
        match directive {
            Directive::SetInput(path) => {
                self.input_path = Some(path);
                Action::Proceed
            },
            Directive::SetOutput(path) => {
                self.output_path = Some(path);
                Action::Proceed
            },
            Directive::AddReplacement(pattern, replacement) => {
                self.pairs.push((pattern, replacement));
                assert(self@.pairs =~= old(self)@.pairs.push((pattern@, replacement@)));
                Action::Proceed
            },
            Directive::Execute => {
                if self.pairs.len() == 0 {
                    return Action::MissingPrerequisites;
                }
                match (&self.input_path, &self.output_path) {
                    (Some(input), Some(output)) => Action::Render {
                        input: input.clone(),
                        output: output.clone(),
                    },
                    _ => Action::MissingPrerequisites,
                }
            },
            Directive::Unknown(raw) => Action::ReportUnknown(raw),
        }
    }

    /// Reads one line of the script and takes in what it says. A line that
    /// holds no directive changes nothing.
    pub fn feed(&mut self, line: &str) -> (action: Action)
        ensures
            match parse_spec(line@) {
                Some(directive) => {
                    &&& action@ == old(self)@.action(directive)
                    &&& final(self)@ == old(self)@.accept(directive)
                },
                None => action@ == ActionView::Proceed && final(self)@ == old(self)@,
            },
    {
        match parse(line) {
            Some(directive) => self.apply(directive),
            None => Action::Proceed,
        }
    }

    /// The output text for `template`: the pairs held, applied in order.
    pub fn render(&self, template: &str) -> (text: String)
        ensures
            text@ == self@.rendered(template@),
    {
        substitute(template, &self.pairs)
    }

    /// Records that a rendering was written: the pairs are dropped, so that
    /// the next `r` starts a new list, and handed back to the caller. The
    /// paths stay as they are.
    pub fn complete(&mut self) -> (applied: Vec<(String, String)>)
        ensures
            final(self)@ == old(self)@.completed(),
            final(self).input_path == old(self).input_path,
            final(self).output_path == old(self).output_path,
            final(self).pairs@.len() == 0,
            applied@ == old(self).pairs@,
    {
        let mut applied: Vec<(String, String)> = Vec::new();
        core::mem::swap(&mut self.pairs, &mut applied);
        assert(self@.pairs =~= Seq::empty());
        applied
    }
}

} // verus!
