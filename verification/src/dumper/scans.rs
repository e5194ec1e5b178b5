//! Whole runs of a scan: what holds of every sequence of replies that a
//! driver can give, whatever fails on the way.

use super::dexdumper::{
    in_region, lemma_next_candidate, lemma_scan_goes_on, realizable, DexDumperView, ScanStage,
};
use super::dexregions::{dex_offsets, lacks_header};
use super::dexsize::SizeProbe;
use crate::protocol::{lemma_counts_push, pauses, resumes, ReplyView, RequestView};
use vstd::prelude::*;

verus! {

/// The process is stopped while a scan is at this stage.
pub open spec fn is_stopped(stage: ScanStage) -> bool {
    stage is Listing || in_region(stage)
}

/// The process was stopped and has been asked to run again.
pub open spec fn is_released(stage: ScanStage) -> bool {
    match stage {
        ScanStage::Releasing { .. } => true,
        ScanStage::Finished { resumed, .. } => resumed is Some,
        _ => false,
    }
}

/// The state that a scan has come to after the replies, and the requests
/// that it has handed out, one for each reply.
pub open spec fn run(v: DexDumperView, replies: Seq<ReplyView>) -> (
    DexDumperView,
    Seq<RequestView>,
)
    decreases replies.len(),
{
    if replies.len() == 0 {
        (v, Seq::empty())
    } else {
        let (next, request) = v.advanced(replies[0]);
        let (end, rest) = run(next, replies.drop_first());
        (end, seq![request] + rest)
    }
}

/// One step of a scan with respect to the stopped process: the process is
/// asked to stop only by the first step, and to run again by exactly the
/// steps that lead out of a stage in which it is stopped; no step leads
/// from such a stage to the end, and none leads back.
pub proof fn lemma_step_discipline(v: DexDumperView, reply: ReplyView)
    requires
        v.wf(),
        realizable(reply),
    ensures
        ({
            let (next, request) = v.advanced(reply);
            &&& next.wf()
            &&& next.pid == v.pid
            &&& request is Resume <==> is_stopped(v.stage) && next.stage is Releasing
            &&& request is Pause <==> v.stage is Idle
            &&& is_stopped(v.stage) ==> is_stopped(next.stage) || next.stage is Releasing
            &&& is_stopped(next.stage) ==> is_stopped(v.stage) || v.stage is Stopping
            &&& is_released(v.stage) ==> is_released(next.stage)
            &&& is_released(next.stage) ==> is_released(v.stage) || is_stopped(v.stage)
            &&& v.stage is Finished ==> next == v
        }),
{
    if in_region(v.stage) {
        lemma_scan_goes_on(v, reply);
    } else if v.stage is Listing {
        match reply {
            ReplyView::Regions(maps) => {
                lemma_next_candidate(maps, 0);
            },
            _ => {},
        }
    }
}

/// A run as a whole with respect to the stopped process, from any state.
pub proof fn lemma_run_discipline(v: DexDumperView, replies: Seq<ReplyView>)
    requires
        v.wf(),
        forall|i: int| 0 <= i < replies.len() ==> realizable(#[trigger] replies[i]),
    ensures
        ({
            let (end, requests) = run(v, replies);
            &&& end.wf()
            &&& requests.len() == replies.len()
            &&& resumes(requests) == if !is_released(v.stage) && is_released(end.stage) {
                1nat
            } else {
                0nat
            }
            &&& pauses(requests) <= if v.stage is Idle {
                1nat
            } else {
                0nat
            }
            &&& is_released(v.stage) ==> is_released(end.stage)
            &&& is_stopped(v.stage) ==> is_stopped(end.stage) || is_released(end.stage)
            &&& v.stage is Idle && is_released(end.stage) ==> pauses(requests) == 1
        }),
    decreases replies.len(),
{
    if replies.len() > 0 {
        let (next, request) = v.advanced(replies[0]);
        let rest_replies = replies.drop_first();
        let (end, rest) = run(next, rest_replies);
        lemma_step_discipline(v, replies[0]);
        assert forall|i: int| 0 <= i < rest_replies.len() implies realizable(
            #[trigger] rest_replies[i],
        ) by {
            assert(rest_replies[i] == replies[i + 1]);
        }
        lemma_run_discipline(next, rest_replies);
        lemma_counts_push(rest, request);
    }
}

/// A run in two parts: the state after the first `k` replies is where the
/// rest of the run begins.
pub proof fn lemma_run_split(v: DexDumperView, replies: Seq<ReplyView>, k: int)
    requires
        0 <= k <= replies.len(),
    ensures
        run(v, replies).0 == run(run(v, replies.take(k)).0, replies.skip(k)).0,
    decreases k,
{
    if k == 0 {
        assert(replies.skip(0) =~= replies);
        assert(replies.take(0) =~= Seq::<ReplyView>::empty());
    } else {
        let (next, request) = v.advanced(replies[0]);
        let rest = replies.drop_first();
        lemma_run_split(next, rest, k - 1);
        assert(replies.take(k).drop_first() =~= rest.take(k - 1));
        assert(replies.take(k)[0] == replies[0]);
        assert(rest.skip(k - 1) =~= replies.skip(k));
    }
}

/// Whatever a driver replies, a scan asks at most once to let the process
/// run again, and never without having asked to stop it. If the process
/// was stopped at any point of a run that has come to its end, the scan
/// has asked exactly once, however the steps in between went; the end of
/// the run says so.
pub proof fn lemma_stop_is_followed_by_one_resume(v: DexDumperView, replies: Seq<ReplyView>)
    requires
        v.wf(),
        v.stage is Idle,
        forall|i: int| 0 <= i < replies.len() ==> realizable(#[trigger] replies[i]),
    ensures
        ({
            let (end, requests) = run(v, replies);
            &&& resumes(requests) <= 1
            &&& pauses(requests) <= 1
            &&& resumes(requests) == 1 ==> pauses(requests) == 1
            &&& end.stage matches ScanStage::Finished { resumed, .. } ==> (resumed is Some
                <==> resumes(requests) == 1)
            &&& forall|k: int|
                0 <= k <= replies.len() && is_stopped(#[trigger] run(v, replies.take(k)).0.stage)
                    && end.stage is Finished ==> resumes(requests) == 1
        }),
{
    let (end, requests) = run(v, replies);
    lemma_run_discipline(v, replies);
    assert forall|k: int|
        0 <= k <= replies.len() && is_stopped(#[trigger] run(v, replies.take(k)).0.stage)
            && end.stage is Finished implies resumes(requests) == 1 by {
        let first = replies.take(k);
        let rest = replies.skip(k);
        let middle = run(v, first).0;
        lemma_run_split(v, replies, k);
        assert forall|i: int| 0 <= i < first.len() implies realizable(#[trigger] first[i]) by {
            assert(first[i] == replies[i]);
        }
        assert forall|i: int| 0 <= i < rest.len() implies realizable(#[trigger] rest[i]) by {
            assert(rest[i] == replies[i + k]);
        }
        lemma_run_discipline(v, first);
        lemma_run_discipline(middle, rest);
    }
}

/// The number of steps that a probe takes at most until the image it
/// belongs to is written or given up.
pub open spec fn probe_steps(probe: SizeProbe) -> nat {
    match probe {
        SizeProbe::FileSize { .. } => 6,
        SizeProbe::StringIds { .. } => 5,
        SizeProbe::MapOffset { .. } => 4,
        _ => 3,
    }
}

/// The number of places of the current region that are still to be tried:
/// the signatures that were not tried yet, and the start of the region if
/// it lacks a header.
pub open spec fn places_left(v: DexDumperView) -> nat {
    (v.matches.len() - v.next_match + if v.headerless {
        1int
    } else {
        0int
    }) as nat
}

/// The number of steps that a scan in this state takes at most, as far as
/// the state tells: six for every place of the current region that is
/// still to be tried, one for every later region, and what is left of the
/// attempt under way and of the way out.
pub open spec fn steps_left(v: DexDumperView) -> nat {
    match v.stage {
        ScanStage::Idle => 4,
        ScanStage::Stopping => 3,
        ScanStage::Listing => 2,
        ScanStage::Releasing { .. } => 1,
        ScanStage::Finished { .. } => 0,
        stage => (v.maps.len() - v.region + 6 * places_left(v) + match stage {
            ScanStage::Probing { probe, .. } => probe_steps(probe),
            ScanStage::Image { .. } => 2,
            _ => 1,
        }) as nat,
    }
}

/// The number of steps that a reply adds to what a scan may take: one for
/// every region that it lists, and six for every signature in the bytes
/// of a region that it hands over and for the start of that region.
pub open spec fn steps_added(v: DexDumperView, reply: ReplyView) -> nat {
    match v.stage {
        ScanStage::Listing => match reply {
            ReplyView::Regions(maps) => maps.len(),
            _ => 0,
        },
        ScanStage::Region => match reply.exact_bytes(v.maps[v.region as int].size()) {
            Some(data) => 6 * (dex_offsets(data).len() + 1),
            None => 0,
        },
        _ => 0,
    }
}

/// The number of steps that the replies of a run add, one after the
/// other.
pub open spec fn allowance(v: DexDumperView, replies: Seq<ReplyView>) -> nat
    decreases replies.len(),
{
    if replies.len() == 0 {
        0
    } else {
        steps_added(v, replies[0]) + allowance(v.advanced(replies[0]).0, replies.drop_first())
    }
}

proof fn lemma_enter_cost(v: DexDumperView, index: int)
    requires
        0 <= index <= v.maps.len() <= usize::MAX,
    ensures
        steps_left(v.enter(index).0) <= v.maps.len() - index + 1,
{
    lemma_next_candidate(v.maps, index);
}

proof fn lemma_proceed_cost(v: DexDumperView, k: int)
    requires
        v.wf(),
        v.region < v.maps.len(),
        0 <= k <= v.matches.len(),
    ensures
        steps_left(v.proceed(k).0) <= v.maps.len() - v.region + 6 * (v.matches.len() - k
            + if v.headerless {
            1int
        } else {
            0int
        }),
    decreases v.matches.len() - k,
{
    lemma_enter_cost(v, v.region + 1);
    if k < v.matches.len() {
        lemma_proceed_cost(v, k + 1);
    }
}

/// One step of a scan that is not over takes one from the steps that are
/// left, except for what the reply adds.
pub proof fn lemma_step_takes_one(v: DexDumperView, reply: ReplyView)
    requires
        v.wf(),
        realizable(reply),
        !(v.stage is Finished),
    ensures
        steps_left(v.advanced(reply).0) + 1 <= steps_left(v) + steps_added(v, reply),
{
    if in_region(v.stage) {
        lemma_enter_cost(v, v.region + 1);
        lemma_proceed_cost(v, v.next_match as int);
        if v.stage is Region {
            match reply.exact_bytes(v.maps[v.region as int].size()) {
                Some(data) => {
                    lemma_proceed_cost(
                        DexDumperView {
                            matches: dex_offsets(data),
                            next_match: 0,
                            headerless: lacks_header(data),
                            ..v
                        },
                        0,
                    );
                },
                None => {},
            }
        }
    } else if v.stage is Listing {
        match reply {
            ReplyView::Regions(maps) => {
                lemma_enter_cost(DexDumperView { maps, ..v }, 0);
            },
            _ => {},
        }
    }
}

/// From any state on, a run that is not over has taken no more steps than
/// the state left it and its replies have added.
pub proof fn lemma_scan_steps_bounded(v: DexDumperView, replies: Seq<ReplyView>)
    requires
        v.wf(),
        forall|i: int| 0 <= i < replies.len() ==> realizable(#[trigger] replies[i]),
    ensures
        run(v, replies).0.stage is Finished || steps_left(run(v, replies).0) + replies.len()
            <= steps_left(v) + allowance(v, replies),
    decreases replies.len(),
{
    if replies.len() > 0 {
        let next = v.advanced(replies[0]).0;
        let rest = replies.drop_first();
        lemma_step_discipline(v, replies[0]);
        assert forall|i: int| 0 <= i < rest.len() implies realizable(#[trigger] rest[i]) by {
            assert(rest[i] == replies[i + 1]);
        }
        lemma_scan_steps_bounded(next, rest);
        if v.stage is Finished {
            lemma_finished_stays(v, rest);
        } else {
            lemma_step_takes_one(v, replies[0]);
        }
    }
}

proof fn lemma_finished_stays(v: DexDumperView, replies: Seq<ReplyView>)
    requires
        v.stage is Finished,
    ensures
        run(v, replies).0 == v,
    decreases replies.len(),
{
    if replies.len() > 0 {
        lemma_finished_stays(v, replies.drop_first());
    }
}

/// No scan goes on for ever: a run that has as many replies as its first
/// state leaves steps and its replies add is over.
pub proof fn lemma_every_scan_ends(v: DexDumperView, replies: Seq<ReplyView>)
    requires
        v.wf(),
        forall|i: int| 0 <= i < replies.len() ==> realizable(#[trigger] replies[i]),
        replies.len() >= steps_left(v) + allowance(v, replies),
    ensures
        run(v, replies).0.stage is Finished,
{
    lemma_scan_steps_bounded(v, replies);
    lemma_run_discipline(v, replies);
}

/// A scan that has stopped the process lets it run again exactly once,
/// whatever fails in between: in every run from the start that is as long
/// as the bound on its steps, and in which the process was stopped at
/// some point, exactly one request asks to let it run again.
pub proof fn lemma_stopped_process_is_resumed(v: DexDumperView, replies: Seq<ReplyView>, k: int)
    requires
        v.wf(),
        v.stage is Idle,
        forall|i: int| 0 <= i < replies.len() ==> realizable(#[trigger] replies[i]),
        replies.len() >= steps_left(v) + allowance(v, replies),
        0 <= k <= replies.len(),
        is_stopped(run(v, replies.take(k)).0.stage),
    ensures
        resumes(run(v, replies).1) == 1,
        pauses(run(v, replies).1) == 1,
{
    lemma_every_scan_ends(v, replies);
    lemma_stop_is_followed_by_one_resume(v, replies);
}

} // verus!
