//! The work-order language: one directive per line, fields separated by `;`.

use vstd::prelude::*;
use crate::split::{pieces_view, split_chars, split_on};
use crate::text::{to_chars, to_string};

verus! {

/// One instruction of a work order.
#[derive(Clone, Debug, PartialEq, Eq)]
pub enum Directive {
    /// `if;<path>`: the template to read.
    SetInput(String),
    /// `of;<path>`: the file to write.
    SetOutput(String),
    /// `r;<match>;<replacement>`: one more substitution pair.
    AddReplacement(String, String),
    /// `do`: substitute and write.
    Execute,
    /// Any other line with a separator, kept as written.
    Unknown(String),
}

/// A directive with its texts as character sequences.
pub enum DirectiveView {
    SetInput(Seq<char>),
    SetOutput(Seq<char>),
    AddReplacement(Seq<char>, Seq<char>),
    Execute,
    Unknown(Seq<char>),
}

impl View for Directive {
    type V = DirectiveView;

    open spec fn view(&self) -> DirectiveView {
        match self {
            Directive::SetInput(path) => DirectiveView::SetInput(path@),
            Directive::SetOutput(path) => DirectiveView::SetOutput(path@),
            Directive::AddReplacement(pattern, replacement) => DirectiveView::AddReplacement(
                pattern@,
                replacement@,
            ),
            Directive::Execute => DirectiveView::Execute,
            Directive::Unknown(raw) => DirectiveView::Unknown(raw@),
        }
    }
}

/// The field separator.
pub open spec fn separator() -> char {
    ';'
}

/// The keyword that names the template.
pub open spec fn input_keyword() -> Seq<char> {
    seq!['i', 'f']
}

/// The keyword that names the output file.
pub open spec fn output_keyword() -> Seq<char> {
    seq!['o', 'f']
}

/// The keyword that adds a substitution pair.
pub open spec fn replacement_keyword() -> Seq<char> {
    seq!['r']
}

/// The keyword that triggers the substitution.
pub open spec fn execute_keyword() -> Seq<char> {
    seq!['d', 'o']
}

/// Whether a line carries no directive at all: it is empty, a comment, or
/// has no separator.
pub open spec fn is_ignored(line: Seq<char>) -> bool {
    line.len() == 0 || line[0] == '#' || !line.contains(separator())
}

/// The directive that a line of fields stands for. `fields` are the
/// separated fields of `line`, at least two of them.
pub open spec fn directive_of(line: Seq<char>, fields: Seq<Seq<char>>) -> DirectiveView {
    if fields[0] == input_keyword() {
        DirectiveView::SetInput(fields[1])
    } else if fields[0] == output_keyword() {
        DirectiveView::SetOutput(fields[1])
    } else if fields[0] == replacement_keyword() && fields.len() == 3 {
        DirectiveView::AddReplacement(fields[1], fields[2])
    } else if fields[0] == execute_keyword() {
        DirectiveView::Execute
    } else {
        DirectiveView::Unknown(line)
    }
}

/// What a line means: nothing for an ignored line, else the directive
/// selected by its first field.
pub open spec fn parse_spec(line: Seq<char>) -> Option<DirectiveView> {
    if is_ignored(line) {
        None
    } else {
        Some(directive_of(line, split_on(line, separator())))
    }
}

/// A text without the separator is a single field, and one with it has at
/// least two.
pub proof fn lemma_fields_count(line: Seq<char>, sep: char)
    ensures
        line.contains(sep) <==> split_on(line, sep).len() >= 2,
        split_on(line, sep).len() >= 1,
    decreases line.len(),
{
    if line.len() > 0 {
        let head = line.drop_last();
        lemma_fields_count(head, sep);
        if line.last() == sep {
            assert(line[line.len() - 1] == sep);
        } else if head.contains(sep) {
            let j = choose|j: int| 0 <= j < head.len() && head[j] == sep;
            assert(line[j] == sep);
        } else if line.contains(sep) {
            let j = choose|j: int| 0 <= j < line.len() && line[j] == sep;
            assert(head[j] == sep);
        }
    }
}

fn same_chars(a: &Vec<char>, b: &Vec<char>) -> (same: bool)
    ensures
        same == (a@ == b@),
{
    if a.len() != b.len() {
        return false;
    }
    let mut k: usize = 0;
    while k < a.len()
        invariant
            k <= a.len(),
            a.len() == b.len(),
            forall|j: int| 0 <= j < k ==> a@[j] == b@[j],
        decreases a.len() - k,
    {
        if a[k] != b[k] {
            return false;
        }
        k += 1;
    }
    assert(a@ =~= b@);
    true
}

fn whole(chars: &Vec<char>) -> (s: String)
    ensures
        s@ == chars@,
{
    assert(chars@.subrange(0, chars.len() as int) =~= chars@);
    to_string(chars, 0, chars.len())
}

/// Reads one line of a work order.
///
/// Empty lines, lines that start with `#` and lines without a `;` give
/// `None`. Otherwise the first field selects the directive: `if` and `of`
/// take the second field as their path, `r` takes the second and third
/// field and must have exactly three, `do` ignores the rest of the line.
/// Every other line is handed back whole as `Unknown`.
pub fn parse(line: &str) -> (parsed: Option<Directive>)
    ensures
        match parsed {
            Some(directive) => parse_spec(line@) == Some(directive@),
            None => parse_spec(line@).is_none(),
        },
{
    let chars = to_chars(line);
    if chars.len() == 0 || chars[0] == '#' {
        return None;
    }
    let fields = split_chars(&chars, ';');
    proof {
        lemma_fields_count(chars@, separator());
    }
    if fields.len() < 2 {
        return None;
    }
    let ghost views = pieces_view(fields@);
    assert(views[0] == fields@[0]@ && views[1] == fields@[1]@);
    let keyword = &fields[0];
    let word_input = vec!['i', 'f'];
    let word_output = vec!['o', 'f'];
    let word_replacement = vec!['r'];
    let word_execute = vec!['d', 'o'];
    proof {
        assert(word_input@ =~= input_keyword());
        assert(word_output@ =~= output_keyword());
        assert(word_replacement@ =~= replacement_keyword());
        assert(word_execute@ =~= execute_keyword());
    }
    let directive = if same_chars(keyword, &word_input) {
        Directive::SetInput(whole(&fields[1]))
    } else if same_chars(keyword, &word_output) {
        Directive::SetOutput(whole(&fields[1]))
    } else if same_chars(keyword, &word_replacement) && fields.len() == 3 {
        assert(views[2] == fields@[2]@);
        Directive::AddReplacement(whole(&fields[1]), whole(&fields[2]))
    } else if same_chars(keyword, &word_execute) {
        Directive::Execute
    } else {
        Directive::Unknown(whole(&chars))
    };
    Some(directive)
}

} // verus!
