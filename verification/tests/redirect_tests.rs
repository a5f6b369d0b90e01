use rush::redirect::{extract_redirect, select_output};

fn s(x: &str) -> String {
    x.to_string()
}

#[test]
fn redirect_after_command() {
    let (argv, target) = extract_redirect(vec![s("echo"), s("hi"), s(">"), s("/tmp/out.txt")]);
    assert_eq!(argv, vec![s("echo"), s("hi")]);
    assert_eq!(target, Some(s("/tmp/out.txt")));
}

#[test]
fn redirect_path_concatenated() {
    let (argv, target) = extract_redirect(vec![s("wc"), s(">"), s("/tmp/"), s("out.txt")]);
    assert_eq!(argv, vec![s("wc")]);
    assert_eq!(target, Some(s("/tmp/out.txt")));
}

#[test]
fn redirect_bare_operator_token() {
    let (argv, target) = extract_redirect(vec![s(">"), s("/tmp/out.txt")]);
    assert_eq!(argv, Vec::<String>::new());
    assert_eq!(target, Some(s("/tmp/out.txt")));
}

#[test]
fn redirect_operator_inside_token() {
    let (argv, target) = extract_redirect(vec![s("echo"), s("x>y")]);
    assert_eq!(argv, vec![s("echo")]);
    assert_eq!(target, Some(s("")));
}

#[test]
fn no_redirect_leaves_command_alone() {
    let (argv, target) = extract_redirect(vec![s("echo"), s("hi")]);
    assert_eq!(argv, vec![s("echo"), s("hi")]);
    assert_eq!(target, None);
}

#[test]
fn select_prefers_nonempty_stdout() {
    let out = select_output(vec![104, 105, 10], vec![101, 114, 114]);
    assert_eq!(out, vec![104, 105, 10]);
}

#[test]
fn select_captured_stdout_bytes_exactly() {
    let out = select_output(vec![104, 105, 10], vec![]);
    assert_eq!(out, b"hi\n".to_vec());
}

#[test]
fn select_falls_back_to_stderr() {
    let out = select_output(vec![], vec![101, 114, 114]);
    assert_eq!(out, vec![101, 114, 114]);
}

#[test]
fn select_both_empty() {
    let out = select_output(vec![], vec![]);
    assert_eq!(out, Vec::<u8>::new());
}

#[test]
fn select_same_inputs_same_bytes_twice() {
    let a = select_output(vec![104, 105, 10], vec![]);
    let b = select_output(vec![104, 105, 10], vec![]);
    assert_eq!(a, b);
}
