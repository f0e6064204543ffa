use std::collections::HashMap;
use template_tool::directive::Directive;
use template_tool::interpreter::{Action, Interpreter};
use template_tool::script::{plan, Job, Step};
use template_tool::split::split_lines;

/// Carries out the steps of a script against files held in memory and
/// returns how many files were written and how many reports were made.
fn run(script: &str, files: &mut HashMap<String, String>) -> (usize, usize) {
    let mut written = 0;
    let mut reports = 0;
    for step in plan(&split_lines(script)) {
        match step {
            Step::Render(job) => {
                let template = files.get(&job.input).expect("template").clone();
                let text = job.render(&template);
                files.insert(job.output.clone(), text);
                written += 1;
            }
            Step::MissingPrerequisites | Step::ReportUnknown(_) => reports += 1,
        }
    }
    (written, reports)
}

fn with_template(name: &str, content: &str) -> HashMap<String, String> {
    let mut files = HashMap::new();
    files.insert(name.to_string(), content.to_string());
    files
}

fn pair(a: &str, b: &str) -> (String, String) {
    (a.to_string(), b.to_string())
}

#[test]
fn greeting_script_writes_output() {
    let mut files = with_template("t.tmpl", "GREETING, NAME!");
    let script = "if;t.tmpl\nof;out.txt\nr;NAME;Alice\nr;GREETING;Hello\ndo;\n";
    assert_eq!(run(script, &mut files), (1, 0));
    assert_eq!(files.get("out.txt").map(String::as_str), Some("Hello, Alice!"));
}

#[test]
fn execute_line_without_separator_is_ignored() {
    let mut files = with_template("t.tmpl", "GREETING, NAME!");
    let script = "if;t.tmpl\nof;out.txt\nr;NAME;Alice\nr;GREETING;Hello\ndo\n";
    assert_eq!(run(script, &mut files), (0, 0));
    assert!(!files.contains_key("out.txt"));
}

#[test]
fn execute_before_any_replacement_is_reported() {
    let mut files = with_template("t.tmpl", "GREETING, NAME!");
    let script = "if;t.tmpl\nof;out.txt\ndo;\n";
    assert_eq!(run(script, &mut files), (0, 1));
    assert!(!files.contains_key("out.txt"));
    let lines = vec!["if;t.tmpl".to_string(), "of;out.txt".to_string(), "do;".to_string()];
    assert_eq!(plan(&lines), vec![Step::MissingPrerequisites]);
}

#[test]
fn execute_needs_input_and_output() {
    assert_eq!(
        plan(&split_lines("of;out.txt\nr;a;b\ndo;\n")),
        vec![Step::MissingPrerequisites]
    );
    assert_eq!(
        plan(&split_lines("if;t.tmpl\nr;a;b\ndo;\n")),
        vec![Step::MissingPrerequisites]
    );
    assert_eq!(plan(&split_lines("do;\n")), vec![Step::MissingPrerequisites]);
}

#[test]
fn unknown_line_does_not_interrupt_accumulation() {
    let mut files = with_template("t.tmpl", "GREETING, NAME!");
    let script = "if;t.tmpl\nxyz;1;2\nof;out.txt\nr;NAME;Alice\nxyz;1;2\nr;GREETING;Hello\ndo;\n";
    assert_eq!(run(script, &mut files), (1, 2));
    assert_eq!(files.get("out.txt").map(String::as_str), Some("Hello, Alice!"));

    let steps = plan(&split_lines(script));
    assert_eq!(
        steps,
        vec![
            Step::ReportUnknown("xyz;1;2".to_string()),
            Step::ReportUnknown("xyz;1;2".to_string()),
            Step::Render(Job {
                input: "t.tmpl".to_string(),
                output: "out.txt".to_string(),
                pairs: vec![pair("NAME", "Alice"), pair("GREETING", "Hello")],
            }),
        ]
    );
}

#[test]
fn malformed_replacement_is_reported_and_skipped() {
    let steps = plan(&split_lines("if;a\nof;b\nr;only\nr;x;y\ndo;\n"));
    assert_eq!(
        steps,
        vec![
            Step::ReportUnknown("r;only".to_string()),
            Step::Render(Job {
                input: "a".to_string(),
                output: "b".to_string(),
                pairs: vec![pair("x", "y")],
            }),
        ]
    );
}

#[test]
fn pairs_reset_after_execute_but_paths_persist() {
    let mut files = with_template("t.tmpl", "A and B");
    let script = "if;t.tmpl\nof;one.txt\nr;A;1\ndo;\nof;two.txt\nr;B;2\ndo;\n";
    assert_eq!(run(script, &mut files), (2, 0));
    assert_eq!(files.get("one.txt").map(String::as_str), Some("1 and B"));
    assert_eq!(files.get("two.txt").map(String::as_str), Some("A and 2"));
}

#[test]
fn second_execute_without_new_replacement_is_skipped() {
    let mut files = with_template("t.tmpl", "A and B");
    let script = "if;t.tmpl\nof;one.txt\nr;A;1\ndo;\ndo;\nr;B;2\ndo;\n";
    assert_eq!(run(script, &mut files), (2, 1));
    assert_eq!(files.get("one.txt").map(String::as_str), Some("A and 2"));
}

#[test]
fn one_file_per_satisfied_execute() {
    let script = "do;\nif;a\ndo;\nof;b\ndo;\nr;x;y\ndo;\ndo;\nr;x;z\nr;z;w\ndo;\nbogus;1\ndo;\n";
    let steps = plan(&split_lines(script));
    let renders = steps.iter().filter(|s| matches!(s, Step::Render(_))).count();
    let refused = steps.iter().filter(|s| matches!(s, Step::MissingPrerequisites)).count();
    assert_eq!(renders, 2);
    assert_eq!(refused, 5);
    assert_eq!(steps.len(), 8);
}

#[test]
fn output_can_feed_a_later_template() {
    let mut files = with_template("a", "x");
    let script = "if;a\nof;b\nr;x;yy\ndo;\nif;b\nof;c\nr;y;z\ndo;\n";
    assert_eq!(run(script, &mut files), (2, 0));
    assert_eq!(files.get("b").map(String::as_str), Some("yy"));
    assert_eq!(files.get("c").map(String::as_str), Some("zz"));
}

#[test]
fn comments_and_blank_lines_are_silent() {
    let steps = plan(&split_lines("# header\n\nplain words\nif;a\n# more\nof;b\nr;x;y\n\ndo;\n"));
    assert_eq!(steps.len(), 1);
    assert!(matches!(steps[0], Step::Render(_)));
}

#[test]
fn empty_script_plans_nothing() {
    assert_eq!(plan(&Vec::new()), Vec::new());
    assert_eq!(plan(&split_lines("")), Vec::new());
}

#[test]
fn interpreter_starts_empty() {
    let state = Interpreter::new();
    assert_eq!(state.input_path, None);
    assert_eq!(state.output_path, None);
    assert!(state.pairs.is_empty());
    assert!(!state.input_set());
    assert!(!state.output_set());
    assert!(!state.pairs_set());
    assert!(!state.is_ready());
}

#[test]
fn interpreter_accumulates_directives() {
    let mut state = Interpreter::new();
    assert_eq!(state.apply(Directive::SetInput("a".to_string())), Action::Proceed);
    assert!(state.input_set() && !state.is_ready());
    assert_eq!(state.apply(Directive::SetOutput("b".to_string())), Action::Proceed);
    assert!(state.output_set() && !state.is_ready());
    assert_eq!(state.apply(Directive::AddReplacement("x".to_string(), "y".to_string())), Action::Proceed);
    assert_eq!(state.apply(Directive::AddReplacement("y".to_string(), "z".to_string())), Action::Proceed);
    assert!(state.pairs_set() && state.is_ready());
    assert_eq!(state.pairs, vec![pair("x", "y"), pair("y", "z")]);
    assert_eq!(state.apply(Directive::SetInput("c".to_string())), Action::Proceed);
    assert_eq!(state.input_path, Some("c".to_string()));
    assert_eq!(state.output_path, Some("b".to_string()));
}

#[test]
fn interpreter_execute_cycle() {
    let mut state = Interpreter::new();
    assert_eq!(state.feed("if;a"), Action::Proceed);
    assert_eq!(state.feed("of;b"), Action::Proceed);
    assert_eq!(state.feed("do;"), Action::MissingPrerequisites);
    assert_eq!(state.feed("r;x;y"), Action::Proceed);
    assert_eq!(
        state.feed("do;"),
        Action::Render { input: "a".to_string(), output: "b".to_string() }
    );
    assert_eq!(state.pairs.len(), 1);
    assert_eq!(state.render("x-x"), "y-y");
    assert_eq!(state.complete(), vec![pair("x", "y")]);
    assert!(state.pairs.is_empty());
    assert!(!state.pairs_set());
    assert_eq!(state.input_path, Some("a".to_string()));
    assert_eq!(state.output_path, Some("b".to_string()));
    assert_eq!(state.feed("do;"), Action::MissingPrerequisites);
    assert_eq!(state.feed("r;p;q"), Action::Proceed);
    assert_eq!(state.pairs, vec![pair("p", "q")]);
    assert_eq!(
        state.feed("do;"),
        Action::Render { input: "a".to_string(), output: "b".to_string() }
    );
}

#[test]
fn interpreter_reports_unknown_and_ignores_noise() {
    let mut state = Interpreter::new();
    assert_eq!(state.feed("xyz;1;2"), Action::ReportUnknown("xyz;1;2".to_string()));
    assert_eq!(state.feed(""), Action::Proceed);
    assert_eq!(state.feed("# r;a;b"), Action::Proceed);
    assert_eq!(state.feed("do"), Action::Proceed);
    assert_eq!(state, Interpreter::new());
}
