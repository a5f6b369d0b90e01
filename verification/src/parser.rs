//! Splitting one tokenized command line into the ordered stages of a
//! pipeline: every pipe character, wherever it sits inside a token, is a
//! stage boundary.

use vstd::prelude::*;

use crate::scan::{find_char_from, has_char, lemma_find_char_from, find_char};

verus! {

/// A pipe-holding token folded into the parse, from character position `i`
/// (the start of a fragment): each fragment up to the next pipe joins the
/// current command if nonempty, and each pipe closes the command collected
/// so far; the fragment after the last pipe starts the next command.
pub open spec fn token_fold(
    stages: Seq<Seq<Seq<char>>>,
    cur: Seq<Seq<char>>,
    t: Seq<char>,
    i: int,
) -> (Seq<Seq<Seq<char>>>, Seq<Seq<char>>)
    decreases t.len() - i,
        when 0 <= i <= t.len()
        via token_fold_decreases
{
    let p = find_char_from(t, '|', i);
    let frag = t.subrange(i, p);
    let cur1 = if frag.len() == 0 { cur } else { cur.push(frag) };
    if p >= t.len() {
        (stages, cur1)
    } else {
        token_fold(stages.push(cur1), Seq::empty(), t, p + 1)
    }
}

#[via_fn]
proof fn token_fold_decreases(
    stages: Seq<Seq<Seq<char>>>,
    cur: Seq<Seq<char>>,
    t: Seq<char>,
    i: int,
) {
    lemma_find_char_from(t, '|', i);
}

/// One token folded into the parse: a token with a pipe character is split
/// at every pipe, each pipe closing a command and empty fragments joining
/// none; a plain token extends the current command unchanged.
pub open spec fn step_token(
    stages: Seq<Seq<Seq<char>>>,
    cur: Seq<Seq<char>>,
    t: Seq<char>,
) -> (Seq<Seq<Seq<char>>>, Seq<Seq<char>>) {
    if has_char(t, '|') {
        token_fold(stages, cur, t, 0)
    } else {
        (stages, cur.push(t))
    }
}

/// The parse state after folding every token: the commands already closed by
/// a pipe, and the command still being collected.
pub open spec fn parse_fold(tokens: Seq<Seq<char>>) -> (Seq<Seq<Seq<char>>>, Seq<Seq<char>>)
    decreases tokens.len(),
{
    if tokens.len() == 0 {
        (Seq::empty(), Seq::empty())
    } else {
        let prev = parse_fold(tokens.drop_last());
        step_token(prev.0, prev.1, tokens.last())
    }
}

/// The stages a token sequence parses to: every command closed by a pipe,
/// then the command still open when the tokens ran out.
pub open spec fn split_pipes_spec(tokens: Seq<Seq<char>>) -> Seq<Seq<Seq<char>>> {
    parse_fold(tokens).0.push(parse_fold(tokens).1)
}

/// Split Pipes
/// Given a command with pipes in it, it will split them into separate
/// commands to be executed.
pub fn split_pipes(input: Vec<String>) -> (r: Vec<Vec<String>>)
    ensures
        r.deep_view() == split_pipes_spec(input.deep_view()),
        r@.len() >= 1,
{
    let ghost all: Seq<Seq<char>> = input.deep_view();
    let mut stages: Vec<Vec<String>> = Vec::new();
    let mut cur: Vec<String> = Vec::new();
    let n = input.len();
    let mut idx: usize = 0;
    while idx < n
        invariant
            idx <= n,
            n == input@.len(),
            all == input.deep_view(),
            (stages.deep_view(), cur.deep_view()) == parse_fold(all.take(idx as int)),
        decreases n - idx,
    {
        proof {
            assert(all.take(idx + 1).drop_last() =~= all.take(idx as int));
            assert(all.take(idx + 1).last() == input[idx as int]@);
        }
        let tok: &String = &input[idx];
        let tok_len = tok.as_str().unicode_len();
        if find_char(tok.as_str(), '|', 0) < tok_len {
            let ghost s0 = stages.deep_view();
            let ghost c0 = cur.deep_view();
            let mut pos: usize = 0;
            let mut done = false;
            while !done
                invariant
                    pos <= tok_len,
                    tok_len == tok@.len(),
                    token_fold(s0, c0, tok@, 0) == (if done {
                        (stages.deep_view(), cur.deep_view())
                    } else {
                        token_fold(stages.deep_view(), cur.deep_view(), tok@, pos as int)
                    }),
                decreases tok_len - pos, (if done { 0int } else { 1int }),
            {
                let ghost pre_stages = stages.deep_view();
                let ghost pre_cur = cur.deep_view();
                let p = find_char(tok.as_str(), '|', pos);
                proof {
                    lemma_find_char_from(tok@, '|', pos as int);
                }
                let frag = tok.as_str().substring_char(pos, p);
                if frag.unicode_len() > 0 {
                    cur.push(String::from_str(frag));
                    proof {
                        assert(cur.deep_view() =~= pre_cur.push(
                            tok@.subrange(pos as int, p as int),
                        ));
                    }
                }
                if p < tok_len {
                    stages.push(cur);
                    cur = Vec::new();
                    proof {
                        let frag_view = tok@.subrange(pos as int, p as int);
                        let cur1 = if frag_view.len() == 0 { pre_cur } else {
                            pre_cur.push(frag_view)
                        };
                        assert(stages.deep_view() =~= pre_stages.push(cur1));
                        assert(cur.deep_view() =~= Seq::<Seq<char>>::empty());
                    }
                    pos = p + 1;
                } else {
                    done = true;
                }
            }
        } else {
            let ghost pre_cur = cur.deep_view();
            cur.push(tok.clone());
            proof {
                assert(cur.deep_view() =~= pre_cur.push(tok@));
            }
        }
        idx = idx + 1;
    }
    proof {
        assert(all.take(n as int) =~= all);
    }
    stages.push(cur);
    proof {
        assert(stages.deep_view() =~= parse_fold(all).0.push(parse_fold(all).1));
    }
    stages
}

/// A token sequence with no pipe character anywhere parses to a single stage
/// that is the token sequence itself, unchanged.
pub proof fn lemma_no_pipe_single_stage(tokens: Seq<Seq<char>>)
    requires
        forall|i: int| 0 <= i < tokens.len() ==> !has_char(#[trigger] tokens[i], '|'),
    ensures
        split_pipes_spec(tokens) =~= seq![tokens],
    decreases tokens.len(),
{
    if tokens.len() == 0 {
        assert(parse_fold(tokens).1 =~= tokens);
        assert(split_pipes_spec(tokens) =~= seq![tokens]);
    } else {
        let prior = tokens.drop_last();
        assert forall|i: int| 0 <= i < prior.len() implies !has_char(#[trigger] prior[i], '|') by {
            assert(prior[i] == tokens[i]);
        }
        lemma_no_pipe_single_stage(prior);
        assert(parse_fold(prior).0.len() == 0);
        assert(parse_fold(prior).1 == split_pipes_spec(prior)[0]);
        assert(parse_fold(prior).1 =~= prior);
        assert(!has_char(tokens.last(), '|'));
        assert(parse_fold(tokens).1 =~= tokens);
    }
}

/// Every argument of a command `cmd` is a nonempty fragment or a whole
/// token of `toks`.
spec fn args_ok(cmd: Seq<Seq<char>>, toks: Seq<Seq<char>>) -> bool {
    forall|j: int| 0 <= j < cmd.len() ==> #[trigger] cmd[j].len() > 0 || toks.contains(cmd[j])
}

/// Every argument of every command of `stages` is a nonempty fragment or a
/// whole token of `toks`.
spec fn stages_ok(stages: Seq<Seq<Seq<char>>>, toks: Seq<Seq<char>>) -> bool {
    forall|i: int| 0 <= i < stages.len() ==> args_ok(#[trigger] stages[i], toks)
}

/// Every argument of every parsed stage is either a whole input token or a
/// nonempty fragment of one: a split next to a pipe never introduces an
/// empty argument.
pub proof fn lemma_no_empty_fragment(tokens: Seq<Seq<char>>)
    ensures
        forall|i: int, j: int|
            0 <= i < split_pipes_spec(tokens).len() && 0 <= j < split_pipes_spec(
                tokens,
            )[i].len() ==> #[trigger] split_pipes_spec(tokens)[i][j].len() > 0
                || tokens.contains(split_pipes_spec(tokens)[i][j]),
{
    lemma_fold_no_empty_fragment(tokens);
    let st = parse_fold(tokens).0;
    let cur = parse_fold(tokens).1;
    assert forall|i: int, j: int|
        0 <= i < split_pipes_spec(tokens).len() && 0 <= j < split_pipes_spec(
            tokens,
        )[i].len() implies #[trigger] split_pipes_spec(tokens)[i][j].len() > 0
        || tokens.contains(split_pipes_spec(tokens)[i][j]) by {
        if i < st.len() {
            assert(split_pipes_spec(tokens)[i] == st[i]);
            assert(args_ok(st[i], tokens));
        } else {
            assert(split_pipes_spec(tokens)[i] == cur);
        }
    }
}

/// Fragments pushed by `token_fold` are nonempty, so it keeps every command
/// well-formed in the `args_ok` sense.
proof fn lemma_token_fold_keeps_ok(
    stages: Seq<Seq<Seq<char>>>,
    cur: Seq<Seq<char>>,
    t: Seq<char>,
    i: int,
    toks: Seq<Seq<char>>,
)
    requires
        0 <= i <= t.len(),
        stages_ok(stages, toks),
        args_ok(cur, toks),
    ensures
        stages_ok(token_fold(stages, cur, t, i).0, toks),
        args_ok(token_fold(stages, cur, t, i).1, toks),
    decreases t.len() - i,
{
    lemma_find_char_from(t, '|', i);
    let p = find_char_from(t, '|', i);
    let frag = t.subrange(i, p);
    let cur1 = if frag.len() == 0 { cur } else { cur.push(frag) };
    assert(args_ok(cur1, toks));
    if p < t.len() {
        assert forall|k: int| 0 <= k < stages.push(cur1).len() implies args_ok(
            #[trigger] stages.push(cur1)[k],
            toks,
        ) by {
            if k < stages.len() {
                assert(stages.push(cur1)[k] == stages[k]);
            } else {
                assert(stages.push(cur1)[k] == cur1);
            }
        }
        lemma_token_fold_keeps_ok(stages.push(cur1), Seq::empty(), t, p + 1, toks);
    }
}

/// The fold-state form of `lemma_no_empty_fragment`, proved by induction
/// over the tokens.
proof fn lemma_fold_no_empty_fragment(tokens: Seq<Seq<char>>)
    ensures
        stages_ok(parse_fold(tokens).0, tokens),
        args_ok(parse_fold(tokens).1, tokens),
    decreases tokens.len(),
{
    if tokens.len() > 0 {
        let prior = tokens.drop_last();
        let t = tokens.last();
        lemma_fold_no_empty_fragment(prior);
        assert forall|s: Seq<char>| prior.contains(s) implies tokens.contains(s) by {
            let k = choose|k: int| 0 <= k < prior.len() && prior[k] == s;
            assert(tokens[k] == s);
        }
        assert(tokens[tokens.len() - 1] == t);
        assert(tokens.contains(t));
        let st = parse_fold(prior).0;
        let cur = parse_fold(prior).1;
        assert(stages_ok(st, tokens));
        assert(args_ok(cur, tokens));
        if has_char(t, '|') {
            lemma_token_fold_keeps_ok(st, cur, t, 0, tokens);
        } else {
            assert(args_ok(cur.push(t), tokens));
        }
    }
}

} // verus!
