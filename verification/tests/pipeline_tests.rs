use std::cell::Cell;
use std::rc::Rc;

use plumbum::CannedStage;
use plumbum::ExecError;
use plumbum::Executable;
use plumbum::Output;
use plumbum::plan_stdin;
use plumbum::run_pipeline;
use plumbum::run_standalone;

/// A stage driven purely by test data: it produces fixed text, filters the
/// lines of its input, or raises a flag when it runs.
enum TestStage {
    Produce(String, String),
    FilterLines(String),
    Flag(Rc<Cell<bool>>, String),
}

impl Executable for TestStage {
    // The trait's ghost members are compiled to inert stubs that nothing
    // ever calls; an implementation outside the library fills them in with
    // placeholders.
    fn exec_spec(&self, _input: Option<Output>) -> Result<Output, ExecError> {
        Err(ExecError::StreamIo { detail: String::new() })
    }

    fn exec_spec_short_circuits(&self, _input: Option<Output>) {
    }

    fn exec(&mut self, input: Option<Output>) -> Result<Output, ExecError> {
        if let Some(prev) = &input {
            if !prev.stderr.is_empty() {
                return Err(ExecError::Upstream { text: prev.stderr.clone() });
            }
        }
        match self {
            TestStage::Produce(out, err) => Ok(Output::from_process_output(out, err)),
            TestStage::FilterLines(needle) => {
                let text = input.map(|o| o.stdout).unwrap_or_default();
                let mut kept = String::new();
                for line in text.lines() {
                    if line.contains(needle.as_str()) {
                        kept.push_str(line);
                        kept.push('\n');
                    }
                }
                Ok(Output::from_process_output(&kept, ""))
            },
            TestStage::Flag(flag, out) => {
                flag.set(true);
                Ok(Output::from_process_output(out, ""))
            },
        }
    }
}

#[test]
fn plan_stdin_without_input() {
    assert!(matches!(plan_stdin(None), Ok(None)));
}

#[test]
fn plan_stdin_hands_over_clean_output() {
    let prev = Output::from_process_output("foo\nbar\n", "");
    match plan_stdin(Some(prev)) {
        Ok(Some(text)) => assert_eq!(text, "foo\nbar\n"),
        _ => panic!("expected the prior output text"),
    }
}

#[test]
fn plan_stdin_rejects_poisoned_upstream() {
    let prev = Output::from_process_output("data", "went wrong\n");
    match plan_stdin(Some(prev)) {
        Err(ExecError::Upstream { text }) => assert_eq!(text, "went wrong\n"),
        _ => panic!("expected the upstream error text"),
    }
}

#[test]
fn single_stage_pipeline_matches_standalone() {
    let mut alone = CannedStage::new("hello\n", "");
    let standalone = run_standalone(&mut alone).unwrap();
    let piped = run_pipeline(vec![CannedStage::new("hello\n", "")]).unwrap();
    assert_eq!(piped.stdout, standalone.stdout);
    assert_eq!(piped.stderr, standalone.stderr);
}

#[test]
fn pipeline_filters_lines() {
    let stages = vec![
        TestStage::Produce("foo\nbar\n".to_string(), String::new()),
        TestStage::FilterLines("foo".to_string()),
    ];
    let out = run_pipeline(stages).unwrap();
    assert_eq!(out.stdout, "foo\n");
    assert_eq!(out.stderr, "");
}

#[test]
fn upstream_error_halts_before_next_stage() {
    let ran = Rc::new(Cell::new(false));
    let stages = vec![
        TestStage::Produce(String::new(), "stage a failed\n".to_string()),
        TestStage::Flag(ran.clone(), "never".to_string()),
    ];
    match run_pipeline(stages) {
        Err(failure) => {
            assert_eq!(failure.stage, 0);
            match failure.error {
                ExecError::Upstream { text } => assert_eq!(text, "stage a failed\n"),
                _ => panic!("expected the upstream error"),
            }
        },
        Ok(_) => panic!("expected the pipeline to halt"),
    }
    assert!(!ran.get());
}

#[test]
fn failing_stage_is_identified_by_index() {
    let stages = vec![
        CannedStage::new("fine\n", ""),
        CannedStage::new("fine too\n", ""),
        CannedStage::new("", "third blew up\n"),
        CannedStage::new("unreached\n", ""),
    ];
    match run_pipeline(stages) {
        Err(failure) => {
            assert_eq!(failure.stage, 2);
            match failure.error {
                ExecError::Upstream { text } => assert_eq!(text, "third blew up\n"),
                _ => panic!("expected the upstream error"),
            }
        },
        Ok(_) => panic!("expected the pipeline to halt"),
    }
}

#[test]
fn last_stage_error_text_is_returned_not_raised() {
    let stages = vec![CannedStage::new("fine\n", ""), CannedStage::new("done\n", "warning\n")];
    let out = run_pipeline(stages).unwrap();
    assert_eq!(out.stdout, "done\n");
    assert_eq!(out.stderr, "warning\n");
}

#[test]
fn chained_stage_short_circuits_directly() {
    let mut stage = CannedStage::new("unused\n", "");
    let poisoned = Output::from_process_output("data\n", "bad upstream\n");
    match stage.exec(Some(poisoned)) {
        Err(ExecError::Upstream { text }) => assert_eq!(text, "bad upstream\n"),
        _ => panic!("expected the upstream error"),
    }
}

/// A stage that always fails with the error it was built around.
struct FailingStage(ExecError);

impl Executable for FailingStage {
    fn exec_spec(&self, _input: Option<Output>) -> Result<Output, ExecError> {
        Err(ExecError::StreamIo { detail: String::new() })
    }

    fn exec_spec_short_circuits(&self, _input: Option<Output>) {
    }

    fn exec(&mut self, _input: Option<Output>) -> Result<Output, ExecError> {
        match &self.0 {
            ExecError::Spawn { detail } => Err(ExecError::Spawn { detail: detail.clone() }),
            _ => Err(ExecError::StreamIo { detail: "stream fault".to_string() }),
        }
    }
}

#[test]
fn stage_errors_propagate_with_index() {
    match run_pipeline(vec![FailingStage(ExecError::Spawn { detail: "no such file".to_string() })]) {
        Err(failure) => {
            assert_eq!(failure.stage, 0);
            assert!(matches!(failure.error, ExecError::Spawn { .. }));
        },
        Ok(_) => panic!("expected the spawn failure"),
    }
    match run_pipeline(vec![FailingStage(ExecError::StreamIo { detail: String::new() })]) {
        Err(failure) => {
            assert_eq!(failure.stage, 0);
            assert!(matches!(failure.error, ExecError::StreamIo { .. }));
        },
        Ok(_) => panic!("expected the stream failure"),
    }
}
