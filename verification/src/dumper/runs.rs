//! Whole runs of a dump: what holds of every sequence of replies that a
//! driver can give, whatever fails on the way.

use super::sodumper::{DumpStage, SoDumperView};
use super::target::{lemma_plausible_size_bounded, plausible_size};
use crate::protocol::{lemma_counts_push, pauses, resumes, ReplyView, RequestView};
use vstd::prelude::*;

verus! {

/// The process is stopped while a dump is at this stage.
pub open spec fn is_stopped(stage: DumpStage) -> bool {
    match stage {
        DumpStage::Mapping { .. } => true,
        DumpStage::ReadingHead { .. } => true,
        DumpStage::Walking { .. } => true,
        DumpStage::Searching { .. } => true,
        DumpStage::ReadingImage { .. } => true,
        DumpStage::Writing { .. } => true,
        DumpStage::Repairing => true,
        _ => false,
    }
}

/// The process was stopped and has been asked to run again.
pub open spec fn is_released(stage: DumpStage) -> bool {
    match stage {
        DumpStage::Resuming { .. } => true,
        DumpStage::Finished { resumed, .. } => resumed is Some,
        _ => false,
    }
}

/// The process has not been asked to stop yet, and may still be.
pub open spec fn is_early(stage: DumpStage) -> bool {
    stage is Idle || stage is Installing || stage is LoadingLinker
}

/// The stage that a dump has come to after the replies, beginning at
/// `stage`, and the requests that it has handed out, one for each reply.
pub open spec fn run(cfg: SoDumperView, stage: DumpStage, replies: Seq<ReplyView>) -> (
    DumpStage,
    Seq<RequestView>,
)
    decreases replies.len(),
{
    if replies.len() == 0 {
        (stage, Seq::empty())
    } else {
        let (next, request) = cfg.advanced(stage, replies[0]);
        let (end, rest) = run(cfg, next, replies.drop_first());
        (end, seq![request] + rest)
    }
}

/// The number of steps that a dump at this stage can take at most.
pub open spec fn steps_left(cfg: SoDumperView, stage: DumpStage) -> nat {
    match stage {
        DumpStage::Finished { .. } => 0,
        DumpStage::Resuming { .. } => 1,
        DumpStage::Repairing => 2,
        DumpStage::Writing { .. } => 3,
        DumpStage::ReadingImage { .. } => 4,
        DumpStage::Searching { .. } => 5,
        DumpStage::Walking { walk, .. } => if walk.steps < walk.cap {
            (6 + walk.cap - walk.steps) as nat
        } else {
            6
        },
        DumpStage::ReadingHead { .. } => (7 + cfg.max_iterations) as nat,
        DumpStage::Mapping { .. } => (8 + cfg.max_iterations) as nat,
        DumpStage::Pausing { .. } => (9 + cfg.max_iterations) as nat,
        DumpStage::LoadingLinker => (10 + cfg.max_iterations) as nat,
        DumpStage::Installing => (11 + cfg.max_iterations) as nat,
        DumpStage::Idle => (12 + cfg.max_iterations) as nat,
    }
}

/// One step of a dump with respect to the stopped process: the process is
/// asked to stop only by the step out of the loading of the loader, and to
/// run again by exactly the steps that lead out of a stage in which it is
/// stopped; no step leads from such a stage to the end, and none leads
/// back.
pub proof fn lemma_step_discipline(cfg: SoDumperView, stage: DumpStage, reply: ReplyView)
    ensures
        ({
            let (next, request) = cfg.advanced(stage, reply);
            &&& request is Resume <==> is_stopped(stage) && next is Resuming
            &&& request is Pause <==> stage is LoadingLinker && next is Pausing
            &&& is_early(next) ==> is_early(stage)
            &&& is_stopped(stage) ==> is_stopped(next) || next is Resuming
            &&& is_stopped(next) ==> is_stopped(stage) || stage is Pausing
            &&& is_released(stage) ==> is_released(next)
            &&& is_released(next) ==> is_released(stage) || is_stopped(stage)
            &&& !(stage is Finished) ==> steps_left(cfg, next) < steps_left(cfg, stage)
            &&& stage is Finished ==> next == stage
        }),
{
}

/// A run as a whole with respect to the stopped process, from any stage.
pub proof fn lemma_run_discipline(cfg: SoDumperView, stage: DumpStage, replies: Seq<ReplyView>)
    ensures
        ({
            let (end, requests) = run(cfg, stage, replies);
            &&& requests.len() == replies.len()
            &&& resumes(requests) == if !is_released(stage) && is_released(end) {
                1nat
            } else {
                0nat
            }
            &&& is_released(stage) ==> is_released(end)
            &&& is_stopped(stage) ==> is_stopped(end) || is_released(end)
            &&& pauses(requests) <= if is_early(stage) {
                1nat
            } else {
                0nat
            }
            &&& is_early(stage) && !is_early(end) && !(end is Finished) ==> pauses(requests) == 1
            &&& is_early(stage) && is_released(end) ==> pauses(requests) == 1
            &&& end is Finished || steps_left(cfg, end) + replies.len() <= steps_left(cfg, stage)
        }),
    decreases replies.len(),
{
    if replies.len() > 0 {
        let (next, request) = cfg.advanced(stage, replies[0]);
        let (end, rest) = run(cfg, next, replies.drop_first());
        lemma_step_discipline(cfg, stage, replies[0]);
        lemma_run_discipline(cfg, next, replies.drop_first());
        lemma_counts_push(rest, request);
        if next is Finished {
            lemma_finished_stays(cfg, next, replies.drop_first());
        }
    }
}

proof fn lemma_finished_stays(cfg: SoDumperView, stage: DumpStage, replies: Seq<ReplyView>)
    requires
        stage is Finished,
    ensures
        run(cfg, stage, replies).0 == stage,
    decreases replies.len(),
{
    if replies.len() > 0 {
        lemma_step_discipline(cfg, stage, replies[0]);
        lemma_finished_stays(cfg, stage, replies.drop_first());
    }
}

/// A run in two parts: the stage after the first `k` replies is where the
/// rest of the run begins.
pub proof fn lemma_run_split(cfg: SoDumperView, stage: DumpStage, replies: Seq<ReplyView>, k: int)
    requires
        0 <= k <= replies.len(),
    ensures
        run(cfg, stage, replies).0 == run(
            cfg,
            run(cfg, stage, replies.take(k)).0,
            replies.skip(k),
        ).0,
    decreases k,
{
    if k == 0 {
        assert(replies.skip(0) =~= replies);
        assert(replies.take(0) =~= Seq::<ReplyView>::empty());
    } else {
        let (next, request) = cfg.advanced(stage, replies[0]);
        let rest = replies.drop_first();
        lemma_run_split(cfg, next, rest, k - 1);
        assert(replies.take(k).drop_first() =~= rest.take(k - 1));
        assert(replies.take(k)[0] == replies[0]);
        assert(rest.skip(k - 1) =~= replies.skip(k));
    }
}

/// Whatever a driver replies, a dump asks at most once to let the process
/// run again, and never without having asked to stop it. If the process
/// was stopped at any point of a run that has come to its end, the dump
/// has asked exactly once, however the steps in between went; the end of
/// the run says so.
pub proof fn lemma_stop_is_followed_by_one_resume(cfg: SoDumperView, replies: Seq<ReplyView>)
    ensures
        ({
            let (end, requests) = run(cfg, DumpStage::Idle, replies);
            &&& resumes(requests) <= 1
            &&& pauses(requests) <= 1
            &&& resumes(requests) == 1 ==> pauses(requests) == 1
            &&& end matches DumpStage::Finished { resumed, .. } ==> (resumed is Some <==> resumes(
                requests,
            ) == 1)
            &&& forall|k: int|
                0 <= k <= replies.len() && is_stopped(
                    #[trigger] run(cfg, DumpStage::Idle, replies.take(k)).0,
                ) && end is Finished ==> resumes(requests) == 1
        }),
{
    let (end, requests) = run(cfg, DumpStage::Idle, replies);
    lemma_run_discipline(cfg, DumpStage::Idle, replies);
    assert forall|k: int|
        0 <= k <= replies.len() && is_stopped(
            #[trigger] run(cfg, DumpStage::Idle, replies.take(k)).0,
        ) && end is Finished implies resumes(requests) == 1 by {
        let middle = run(cfg, DumpStage::Idle, replies.take(k)).0;
        lemma_run_split(cfg, DumpStage::Idle, replies, k);
        lemma_run_discipline(cfg, middle, replies.skip(k));
    }
}

/// No run goes on for ever: after as many replies as the cap of the walk
/// plus a dozen, a dump has come to its end, whatever the replies were.
pub proof fn lemma_every_run_ends(cfg: SoDumperView, replies: Seq<ReplyView>)
    requires
        replies.len() >= 12 + cfg.max_iterations,
    ensures
        run(cfg, DumpStage::Idle, replies).0 is Finished,
{
    lemma_run_discipline(cfg, DumpStage::Idle, replies);
}

/// The size with which the target is read never exceeds the size of its
/// mapped span times the factor, whichever way the size was found and
/// whatever the target's memory held.
pub proof fn lemma_image_size_bounded(cfg: SoDumperView, stage: DumpStage, reply: ReplyView)
    requires
        cfg.size_factor >= 1,
        stage is Walking || stage is Searching,
    ensures
        cfg.advanced(stage, reply).0 matches DumpStage::ReadingImage { size, .. } ==> {
            let raw_size = match stage {
                DumpStage::Walking { raw_size, .. } => raw_size,
                DumpStage::Searching { raw_size, .. } => raw_size,
                _ => 0,
            };
            size <= raw_size * cfg.size_factor
        },
{
    let raw_size = match stage {
        DumpStage::Walking { raw_size, .. } => raw_size,
        DumpStage::Searching { raw_size, .. } => raw_size,
        _ => 0,
    };
    assert forall|found: u64| true implies #[trigger] plausible_size(
        found,
        raw_size,
        cfg.size_factor,
    ) <= raw_size * cfg.size_factor by {
        lemma_plausible_size_bounded(found, raw_size, cfg.size_factor);
    }
    lemma_plausible_size_bounded(0, raw_size, cfg.size_factor);
    assert(raw_size <= raw_size * cfg.size_factor) by (nonlinear_arith)
        requires
            cfg.size_factor >= 1,
            raw_size >= 0,
    ;
}

/// The number of nodes of the loader's list that a run asks for: the
/// steps that leave the dump waiting for a node.
pub open spec fn nodes_read(cfg: SoDumperView, stage: DumpStage, replies: Seq<ReplyView>) -> nat
    decreases replies.len(),
{
    if replies.len() == 0 {
        0
    } else {
        let next = cfg.advanced(stage, replies[0]).0;
        nodes_read(cfg, next, replies.drop_first()) + if next is Walking {
            1nat
        } else {
            0nat
        }
    }
}

/// The number of nodes that a dump at this stage may still ask for.
pub open spec fn nodes_left(cfg: SoDumperView, stage: DumpStage) -> nat {
    match stage {
        DumpStage::Idle => cfg.max_iterations as nat,
        DumpStage::Installing => cfg.max_iterations as nat,
        DumpStage::LoadingLinker => cfg.max_iterations as nat,
        DumpStage::Pausing { .. } => cfg.max_iterations as nat,
        DumpStage::Mapping { .. } => cfg.max_iterations as nat,
        DumpStage::ReadingHead { .. } => cfg.max_iterations as nat,
        DumpStage::Walking { walk, .. } => if walk.steps < walk.cap {
            (walk.cap - walk.steps - 1) as nat
        } else {
            0
        },
        _ => 0,
    }
}

/// From any stage on, a run asks for no more nodes than the stage leaves.
pub proof fn lemma_nodes_read_bounded(cfg: SoDumperView, stage: DumpStage, replies: Seq<ReplyView>)
    ensures
        nodes_read(cfg, stage, replies) <= nodes_left(cfg, stage),
    decreases replies.len(),
{
    if replies.len() > 0 {
        let next = cfg.advanced(stage, replies[0]).0;
        lemma_nodes_read_bounded(cfg, next, replies.drop_first());
    }
}

/// However the memory of the target answers, a dump asks for no more
/// nodes of the loader's list than its cap allows.
pub proof fn lemma_walk_never_exceeds_cap(cfg: SoDumperView, replies: Seq<ReplyView>)
    ensures
        nodes_read(cfg, DumpStage::Idle, replies) <= cfg.max_iterations,
{
    lemma_nodes_read_bounded(cfg, DumpStage::Idle, replies);
}

/// A dump that has stopped the process lets it run again exactly once,
/// whatever fails in between: in every run from the start that is as long
/// as the bound on its steps, and in which the process was stopped at
/// some point, exactly one request asks to let it run again.
pub proof fn lemma_stopped_process_is_resumed(cfg: SoDumperView, replies: Seq<ReplyView>, k: int)
    requires
        replies.len() >= 12 + cfg.max_iterations,
        0 <= k <= replies.len(),
        is_stopped(run(cfg, DumpStage::Idle, replies.take(k)).0),
    ensures
        resumes(run(cfg, DumpStage::Idle, replies).1) == 1,
        pauses(run(cfg, DumpStage::Idle, replies).1) == 1,
{
    lemma_every_run_ends(cfg, replies);
    lemma_stop_is_followed_by_one_resume(cfg, replies);
}

} // verus!
