//! Extracting a trailing output-redirection target from a final command and
//! choosing which captured stream is persisted to it.

use vstd::prelude::*;

use crate::scan::{has_char, find_char};

verus! {

/// Index of the first argument that holds a redirection operator character,
/// or `args.len()` when none does.
pub open spec fn redirect_index(args: Seq<Seq<char>>) -> int {
    first_with_gt(args, 0)
}

/// Index of the first argument at or after `i` holding a `>` character, or
/// `args.len()` when none does.
pub open spec fn first_with_gt(args: Seq<Seq<char>>, i: int) -> int
    recommends
        0 <= i <= args.len(),
    decreases args.len() - i when 0 <= i <= args.len()
{
    if i >= args.len() {
        args.len() as int
    } else if has_char(args[i], '>') {
        i
    } else {
        first_with_gt(args, i + 1)
    }
}

/// What `redirect_index` points at: the first operator-holding argument,
/// with none before it — so a target is extracted exactly when some
/// argument holds the operator.
pub proof fn lemma_redirect_index(args: Seq<Seq<char>>)
    ensures
        0 <= redirect_index(args) <= args.len(),
        forall|j: int| 0 <= j < redirect_index(args) ==> !has_char(#[trigger] args[j], '>'),
        redirect_index(args) < args.len() ==> has_char(args[redirect_index(args)], '>'),
        redirect_target(args) is Some <==> exists|j: int|
            0 <= j < args.len() && has_char(#[trigger] args[j], '>'),
{
    lemma_first_with_gt(args, 0);
    if redirect_index(args) < args.len() {
        assert(has_char(args[redirect_index(args)], '>'));
    }
    if exists|j: int| 0 <= j < args.len() && has_char(#[trigger] args[j], '>') {
        let j = choose|j: int| 0 <= j < args.len() && has_char(#[trigger] args[j], '>');
        assert(!(redirect_index(args) <= j) ==> !has_char(args[j], '>'));
        assert(redirect_index(args) < args.len());
    }
}

/// The first-hit shape of `first_with_gt`.
proof fn lemma_first_with_gt(args: Seq<Seq<char>>, i: int)
    requires
        0 <= i <= args.len(),
    ensures
        i <= first_with_gt(args, i) <= args.len(),
        forall|j: int| i <= j < first_with_gt(args, i) ==> !has_char(#[trigger] args[j], '>'),
        first_with_gt(args, i) < args.len() ==> has_char(args[first_with_gt(args, i)], '>'),
    decreases args.len() - i,
{
    if i < args.len() && !has_char(args[i], '>') {
        lemma_first_with_gt(args, i + 1);
    }
}

/// The characters of every part, concatenated in order with nothing between.
pub open spec fn concat_all(parts: Seq<Seq<char>>) -> Seq<char>
    decreases parts.len(),
{
    if parts.len() == 0 {
        Seq::empty()
    } else {
        concat_all(parts.drop_last()) + parts.last()
    }
}

/// The redirection target of a final command: the arguments after the first
/// operator-holding one, concatenated into one path. `None` when no argument
/// holds the operator.
pub open spec fn redirect_target(args: Seq<Seq<char>>) -> Option<Seq<char>> {
    let k = redirect_index(args);
    if k < args.len() {
        Some(concat_all(args.skip(k + 1)))
    } else {
        None
    }
}

/// The command's own arguments once a redirection has been extracted:
/// everything before the first operator-holding argument, or the whole
/// command when there is none.
pub open spec fn redirect_argv(args: Seq<Seq<char>>) -> Seq<Seq<char>> {
    let k = redirect_index(args);
    args.take(k)
}

/// Scans a final command for a redirection operator. Returns the command
/// truncated to exclude the operator and everything after it, and the
/// destination path formed by the arguments after the operator, when one is
/// found.
pub fn extract_redirect(args: Vec<String>) -> (r: (Vec<String>, Option<String>))
    ensures
        r.0.deep_view() == redirect_argv(args.deep_view()),
        r.1 is Some <==> redirect_target(args.deep_view()) is Some,
        r.1 is Some ==> r.1.unwrap()@ == redirect_target(args.deep_view()).unwrap(),
{
    let ghost all: Seq<Seq<char>> = args.deep_view();
    let n = args.len();
    let mut k: usize = 0;
    let mut found = false;
    while k < n && !found
        invariant
            k <= n,
            n == args@.len(),
            all == args.deep_view(),
            found ==> k < n && first_with_gt(all, 0) == k as int,
            !found ==> first_with_gt(all, 0) == first_with_gt(all, k as int),
        decreases n - k, (if found { 0int } else { 1int }),
    {
        let a: &String = &args[k];
        let alen = a.as_str().unicode_len();
        if find_char(a.as_str(), '>', 0) < alen {
            found = true;
        } else {
            k = k + 1;
        }
    }
    if !found {
        proof {
            assert(redirect_argv(all) =~= all);
        }
        return (args, None);
    }
    let mut path = String::new();
    let mut j: usize = k + 1;
    while j < n
        invariant
            k + 1 <= j <= n,
            n == args@.len(),
            all == args.deep_view(),
            path@ == concat_all(all.subrange(k + 1, j as int)),
        decreases n - j,
    {
        proof {
            assert(all.subrange(k + 1, j + 1).drop_last() =~= all.subrange(k + 1, j as int));
            assert(all.subrange(k + 1, j + 1).last() == args[j as int]@);
        }
        path.append(args[j].as_str());
        j = j + 1;
    }
    let mut argv = args;
    argv.truncate(k);
    proof {
        assert(all.subrange(k + 1, n as int) =~= all.skip(k + 1));
        assert(argv.deep_view() =~= all.take(k as int));
    }
    (argv, Some(path))
}

/// Selection policy for a redirected final stage: prefer the captured
/// standard-output bytes when any were produced, otherwise fall back to the
/// captured standard-error bytes.
pub fn select_output(out: Vec<u8>, err: Vec<u8>) -> (r: Vec<u8>)
    ensures
        r@ == if out@.len() > 0 {
            out@
        } else {
            err@
        },
{
    if out.len() > 0 {
        out
    } else {
        err
    }
}

} // verus!
