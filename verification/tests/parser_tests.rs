use rush::parser::split_pipes;

fn s(x: &str) -> String {
    x.to_string()
}

#[test]
fn no_pipe_single_stage() {
    let out = split_pipes(vec![s("printf"), s("a"), s("b c")]);
    assert_eq!(out, vec![vec![s("printf"), s("a"), s("b c")]]);
}

#[test]
fn no_pipe_empty_line() {
    let out = split_pipes(vec![]);
    assert_eq!(out, vec![Vec::<String>::new()]);
}

#[test]
fn pipe_inside_token() {
    let out = split_pipes(vec![s("ls|wc")]);
    assert_eq!(out, vec![vec![s("ls")], vec![s("wc")]]);
}

#[test]
fn pipe_at_token_end() {
    let out = split_pipes(vec![s("a|"), s("b")]);
    assert_eq!(out, vec![vec![s("a")], vec![s("b")]]);
    for stage in &out {
        for arg in stage {
            assert!(!arg.is_empty());
        }
    }
}

#[test]
fn pipe_at_token_start() {
    let out = split_pipes(vec![s("|b")]);
    assert_eq!(out, vec![Vec::<String>::new(), vec![s("b")]]);
}

#[test]
fn pipe_between_args() {
    let out = split_pipes(vec![s("ls"), s("-l"), s("|"), s("wc"), s("-c")]);
    assert_eq!(out, vec![vec![s("ls"), s("-l")], vec![s("wc"), s("-c")]]);
}

#[test]
fn two_pipes_in_one_token() {
    let out = split_pipes(vec![s("a|b|c")]);
    assert_eq!(out, vec![vec![s("a")], vec![s("b")], vec![s("c")]]);
}

#[test]
fn adjacent_pipes_make_empty_stage() {
    let out = split_pipes(vec![s("a||b")]);
    assert_eq!(out, vec![vec![s("a")], Vec::<String>::new(), vec![s("b")]]);
}

#[test]
fn pipes_across_tokens_and_inside_one() {
    let out = split_pipes(vec![s("cat"), s("x|sort|uniq"), s("|"), s("wc")]);
    assert_eq!(
        out,
        vec![vec![s("cat"), s("x")], vec![s("sort")], vec![s("uniq")], vec![s("wc")]]
    );
}

#[test]
fn three_stages() {
    let out = split_pipes(vec![s("cat"), s("x|sort"), s("|"), s("uniq")]);
    assert_eq!(
        out,
        vec![vec![s("cat"), s("x")], vec![s("sort")], vec![s("uniq")]]
    );
}
