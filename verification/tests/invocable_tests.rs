use plumbum::Bin;
use plumbum::Output;

#[test]
fn new_invocable_has_no_arguments() {
    let bin = Bin::new("ls", "/bin/ls");
    assert_eq!(bin.name(), "ls");
    assert_eq!(bin.location(), "/bin/ls");
    assert!(bin.arg_list().is_empty());
}

#[test]
fn arguments_accumulate_in_order() {
    let mut bin = Bin::new("grep", "/usr/bin/grep");
    bin.arg("-n");
    bin.args(&vec!["needle".to_string(), "haystack.txt".to_string()]);
    bin.arg("-v");
    assert_eq!(bin.arg_list(), &vec![
        "-n".to_string(),
        "needle".to_string(),
        "haystack.txt".to_string(),
        "-v".to_string(),
    ]);
}

#[test]
fn appending_zero_arguments_changes_nothing() {
    let mut bin = Bin::new("cat", "/bin/cat");
    bin.arg("Cargo.toml");
    bin.args(&Vec::new());
    assert_eq!(bin.name(), "cat");
    assert_eq!(bin.location(), "/bin/cat");
    assert_eq!(bin.arg_list(), &vec!["Cargo.toml".to_string()]);
}

#[test]
fn captured_output_keeps_both_streams() {
    let out = Output::from_process_output("all good\n", "minor warning\n");
    assert_eq!(out.stdout, "all good\n");
    assert_eq!(out.stderr, "minor warning\n");
}

#[test]
fn captured_output_clones_exactly() {
    let out = Output::from_process_output("text", "err");
    let copy = out.clone();
    assert_eq!(copy.stdout, out.stdout);
    assert_eq!(copy.stderr, out.stderr);
}
