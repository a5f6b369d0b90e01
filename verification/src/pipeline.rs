//! Building a pipeline run from one tokenized command line: stages split at
//! pipe characters, and, when asked for, a redirection target taken off the
//! final stage.

use vstd::prelude::*;

use crate::executor::PipelineRun;
use crate::parser::{split_pipes, split_pipes_spec};
use crate::redirect::{extract_redirect, redirect_argv, redirect_target};

verus! {

/// A run fresh from the planner: nothing spawned, nothing waited on.
pub open spec fn unstarted(m: PipelineRun) -> bool {
    &&& m.wf()
    &&& m.phase is Spawning
    &&& m.spawned == 0
    &&& m.waited == 0
}

/// Plan a piped line: the tokens split into stages at pipe characters, the
/// final stage's output inherited from the shell's own streams.
pub fn plan_piped(tokens: Vec<String>) -> (m: PipelineRun)
    ensures
        unstarted(m),
        !m.capture_final,
        m.stages.deep_view() == split_pipes_spec(tokens.deep_view()),
{
    let stages = split_pipes(tokens);
    PipelineRun::new(stages, false)
}

/// Plan a piped line whose final output is redirected: the tokens split
/// into stages, the final stage truncated at its redirection operator, its
/// output captured for the returned target path.
pub fn plan_piped_redirect(tokens: Vec<String>) -> (r: (PipelineRun, Option<String>))
    ensures
        unstarted(r.0),
        r.0.capture_final,
        ({
            let stages = split_pipes_spec(tokens.deep_view());
            let last = stages.last();
            &&& r.0.stages.deep_view() == stages.update(
                stages.len() - 1,
                redirect_argv(last),
            )
            &&& (r.1 is Some <==> redirect_target(last) is Some)
            &&& (r.1 is Some ==> r.1.unwrap()@ == redirect_target(last).unwrap())
        }),
{
    let ghost spec_stages = split_pipes_spec(tokens.deep_view());
    let mut stages = split_pipes(tokens);
    let last = stages.pop().unwrap();
    proof {
        assert(last.deep_view() == spec_stages.last());
        assert(stages.deep_view() =~= spec_stages.drop_last());
    }
    let (argv, target) = extract_redirect(last);
    stages.push(argv);
    proof {
        assert(stages.deep_view() =~= spec_stages.update(
            spec_stages.len() - 1,
            redirect_argv(spec_stages.last()),
        ));
    }
    (PipelineRun::new(stages, true), target)
}

} // verus!
