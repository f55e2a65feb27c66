//! The command half of an instruction: a raw pipeline text and its
//! decomposition into pipe-connected stages.

use vstd::prelude::*;
use vstd::string::StrSliceExecFns;

use crate::text::{
    lemma_split_pipes_no_pipe, lemma_split_pipes_nonempty, lemma_tokens_trim, lemma_trim_no_pipe,
    split_pipes, split_pipes_str, split_tokens, split_whitespace_str, trim_spaces, trim_str,
    views_of,
};

verus! {

/// The spec-level image of a [`PipelineStage`].
pub struct StageModel {
    pub program: Seq<char>,
    pub args: Seq<Seq<char>>,
}

/// One process of a pipeline: a program name and its arguments.
pub struct PipelineStage {
    pub program: String,
    pub args: Vec<String>,
}

impl View for PipelineStage {
    type V = StageModel;

    open spec fn view(&self) -> StageModel {
        StageModel { program: self.program@, args: views_of(self.args@) }
    }
}

/// The stage a token list describes: the first token is the program, the
/// rest are its arguments; no tokens give the empty program.
pub open spec fn stage_of_tokens(ts: Seq<Seq<char>>) -> StageModel {
    if ts.len() == 0 {
        StageModel { program: Seq::empty(), args: Seq::empty() }
    } else {
        StageModel { program: ts[0], args: ts.drop_first() }
    }
}

/// The stage one pipe segment describes.
pub open spec fn stage_of(seg: Seq<char>) -> StageModel {
    stage_of_tokens(split_tokens(seg))
}

/// Of the pipe segments after the first, those up to the first empty one:
/// an empty segment ends the pipeline.
pub open spec fn tail_segments(segs: Seq<Seq<char>>, i: int) -> Seq<Seq<char>>
    decreases segs.len() - i,
{
    if i < 1 || i >= segs.len() {
        Seq::empty()
    } else if segs[i].len() == 0 {
        Seq::empty()
    } else {
        seq![segs[i]] + tail_segments(segs, i + 1)
    }
}

/// The pipe segments of the trimmed command text that become stages: the
/// first always, then the following ones up to the first empty segment.
pub open spec fn pipeline_segments(s: Seq<char>) -> Seq<Seq<char>> {
    let segs = split_pipes(trim_spaces(s));
    seq![segs[0]] + tail_segments(segs, 1)
}

/// The stages a raw command text describes, in order; never empty.
pub open spec fn pipeline_of(s: Seq<char>) -> Seq<StageModel> {
    pipeline_segments(s).map_values(|seg: Seq<char>| stage_of(seg))
}

/// The spec-level images of a stage list.
pub open spec fn stage_models_of(q: Seq<PipelineStage>) -> Seq<StageModel> {
    Seq::new(q.len(), |i: int| q[i]@)
}

proof fn lemma_tail_segments_range(segs: Seq<Seq<char>>, i: int, k: int)
    requires
        1 <= i <= k <= segs.len(),
        forall|t: int| i <= t < k ==> segs[t].len() > 0,
        k == segs.len() || segs[k].len() == 0,
    ensures
        tail_segments(segs, i) == segs.subrange(i, k),
    decreases k - i,
{
    if i == k {
        if i >= segs.len() || segs[i].len() == 0 {
            assert(segs.subrange(i, i) =~= Seq::<Seq<char>>::empty());
        }
    } else {
        lemma_tail_segments_range(segs, i + 1, k);
        assert(seq![segs[i]] + segs.subrange(i + 1, k) =~= segs.subrange(i, k));
    }
}

/// Every command text, the empty one included, describes at least one
/// stage: execution is always attempted and an error surfaces as response
/// text, never as a refusal to respond.
pub proof fn lemma_pipeline_never_empty(s: Seq<char>)
    ensures
        pipeline_of(s).len() >= 1,
{
    lemma_split_pipes_nonempty(trim_spaces(s));
}

/// A command text without a pipe character describes exactly one stage,
/// whose program and arguments are its whitespace-split tokens.
pub proof fn lemma_single_stage_without_pipe(s: Seq<char>)
    requires
        forall|k: int| 0 <= k < s.len() ==> s[k] != '|',
    ensures
        pipeline_of(s).len() == 1,
        pipeline_of(s)[0] == stage_of_tokens(split_tokens(s)),
{
    let t = trim_spaces(s);
    lemma_trim_no_pipe(s);
    lemma_split_pipes_no_pipe(t);
    assert(tail_segments(seq![t], 1) == Seq::<Seq<char>>::empty());
    assert(pipeline_segments(s) =~= seq![t]);
    lemma_tokens_trim(s);
    assert(pipeline_of(s)[0] == stage_of(t));
}

/// A raw command pipeline text, as received from the remote side.
pub struct ReceivedCommand {
    command: String,
}

impl View for ReceivedCommand {
    type V = Seq<char>;

    closed spec fn view(&self) -> Seq<char> {
        self.command@
    }
}

impl ReceivedCommand {
    pub fn from_string(command: String) -> (r: Self)
        ensures
            r@ == command@,
    {
        ReceivedCommand { command }
    }

    /// Splits one pipe segment on whitespace into a program and arguments.
    pub fn parse_command_section(command: String) -> (r: PipelineStage)
        ensures
            r@ == stage_of(command@),
    {
        let mut tokens = split_whitespace_str(command.as_str());
        if tokens.len() == 0 {
            let r = PipelineStage { program: String::new(), args: Vec::new() };
            proof {
                assert(r@.args =~= stage_of(command@).args);
            }
            return r;
        }
        let mut rest = tokens.split_off(1);
        let program = match tokens.pop() {
            Some(p) => p,
            None => String::new(),
        };
        let r = PipelineStage { program, args: rest };
        proof {
            let ts = split_tokens(command@);
            assert(views_of(r.args@) =~= ts.drop_first());
        }
        r
    }

    /// Decomposes the command text into its pipeline stages: segments split
    /// on `|`, the whole first trimmed, stopping at an empty segment after
    /// the first; there is always at least one stage.
    pub fn parse(&self) -> (r: Vec<PipelineStage>)
        ensures
            stage_models_of(r@) == pipeline_of(self@),
            r@.len() >= 1,
    {
        let trimmed: String = trim_str(self.command.as_str());
        let segs: Vec<String> = split_pipes_str(trimmed.as_str());
        let ghost segsv = views_of(segs@);
        let mut stages: Vec<PipelineStage> = Vec::new();
        let first: String = segs[0].clone();
        stages.push(Self::parse_command_section(first));
        let mut k: usize = 1;
        while k < segs.len()
            invariant_except_break
                1 <= k <= segs@.len(),
                segsv == views_of(segs@),
                forall|t: int| 1 <= t < k ==> segsv[t].len() > 0,
                stages@.len() == k,
                forall|t: int| 0 <= t < k ==> stages@[t]@ == stage_of(segsv[t]),
            ensures
                1 <= k <= segs@.len(),
                forall|t: int| 1 <= t < k ==> segsv[t].len() > 0,
                stages@.len() == k,
                forall|t: int| 0 <= t < k ==> stages@[t]@ == stage_of(segsv[t]),
                k == segs@.len() || segsv[k as int].len() == 0,
            decreases segs@.len() - k,
        {
            if segs[k].as_str().is_empty() {
                break ;
            }
            let sk = segs[k].clone();
            stages.push(Self::parse_command_section(sk));
            k = k + 1;
        }
        proof {
            lemma_tail_segments_range(segsv, 1, k as int);
            assert(seq![segsv[0]] + segsv.subrange(1, k as int) =~= segsv.subrange(0, k as int));
            assert(pipeline_segments(self@) == segsv.subrange(0, k as int));
            assert forall|t: int| 0 <= t < k implies stage_models_of(stages@)[t] == pipeline_of(
                self@,
            )[t] by {
                assert(pipeline_segments(self@)[t] == segsv[t]);
            }
            assert(stage_models_of(stages@) =~= pipeline_of(self@));
        }
        stages
    }
}

} // verus!
