//! What holds of captures and acquisitions from their start to their end.
use vstd::multiset::Multiset;
use vstd::prelude::*;

use crate::acquire::{
    law_acquisition_references_are_accounted_for, AcquirePhase, Acquisition, Site,
};
use crate::capture::{
    law_capture_references_are_accounted_for, Capture, CaptureError, CapturePhase, Picture,
};
use crate::com::{ComCall, ComReply};
use crate::desktop::{
    is_run, is_step, law_acquisition_comes_to_an_end, law_acquisition_follows_the_desktop,
    law_acquisition_succeeds_where_there_is_a_source, lemma_calls_from, Desktop,
};
use crate::frame::{law_frame_comes_to_an_end, DuplicatedOutput, FrameGrab};
use crate::hresult::E_ACCESSDENIED;
use crate::refs::{lemma_balance, lemma_no_refs, total};
use crate::trace::{is_output_of, law_acquired_output_is_the_source};

verus! {

/// Whether a capture is followed by the next one by a reply.
pub open spec fn is_capture_step(states: Seq<Capture>, replies: Seq<ComReply>, i: int) -> bool {
    &&& states[i].wf()
    &&& states[i].accepts(replies[i])
    &&& states[i].leads_to(replies[i], states[i + 1])
}

/// Whether captures follow each other by replies.
pub open spec fn is_capture_run(states: Seq<Capture>, replies: Seq<ComReply>) -> bool {
    &&& states.len() == replies.len() + 1
    &&& forall|i: int|
        0 <= i < replies.len() ==> #[trigger] is_capture_step(states, replies, i)
}

/// The references that came with the replies of a run.
pub open spec fn gained_in(replies: Seq<ComReply>) -> Multiset<usize> {
    total(Seq::new(replies.len(), |i: int| replies[i].gained()))
}

/// The references that the calls of a capture gave up.
pub open spec fn given_up_in(states: Seq<Capture>, replies: Seq<ComReply>) -> Multiset<usize> {
    total(Seq::new(replies.len(), |i: int| states[i].next_call()->0.given_up()))
}

/// The references that were lost in a capture.
pub open spec fn lost_in(states: Seq<Capture>, replies: Seq<ComReply>) -> Multiset<usize> {
    total(Seq::new(replies.len(), |i: int| states[i].lost(replies[i])))
}

/// The references that the calls of an acquisition gave up.
pub open spec fn acquisition_given_up_in(
    states: Seq<Acquisition>,
    replies: Seq<ComReply>,
) -> Multiset<usize> {
    total(Seq::new(replies.len(), |i: int| states[i].next_call()->0.given_up()))
}

/// The references that were lost in an acquisition.
pub open spec fn acquisition_lost_in(
    states: Seq<Acquisition>,
    replies: Seq<ComReply>,
) -> Multiset<usize> {
    total(Seq::new(replies.len(), |i: int| states[i].lost(replies[i])))
}

/// The references that a duplicated output holds, where there is one.
pub open spec fn output_held(output: Option<DuplicatedOutput>) -> Multiset<usize> {
    match output {
        Some(output) => output.held(),
        None => Multiset::empty(),
    }
}

/// Every reference of a capture is accounted for: those that are held at its end, those that its
/// calls gave up and those that were lost are those that were held at its start and those that came
/// with the replies. Where the work is done, nothing is held but the output that is duplicated.
pub proof fn law_capture_run_is_balanced(states: Seq<Capture>, replies: Seq<ComReply>)
    requires
        is_capture_run(states, replies),
    ensures
        states.last().held().add(given_up_in(states, replies)).add(lost_in(states, replies))
            == states[0].held().add(gained_in(replies)),
        states.last().drops().len() == 0 ==> (states.last().phase() matches CapturePhase::Finished {
            source,
            ..
        } ==> states.last().held() == output_held(source)),
{
    let n = replies.len();
    let held = Seq::new(n + 1, |i: int| states[i].held());
    let given_up = Seq::new(n, |i: int| states[i].next_call()->0.given_up());
    let lost = Seq::new(n, |i: int| states[i].lost(replies[i]));
    let gained = Seq::new(n, |i: int| replies[i].gained());
    assert forall|i: int| 0 <= i < n implies held[i + 1].add(given_up[i]).add(lost[i])
        == held[i].add(#[trigger] gained[i]) by {
        assert(is_capture_step(states, replies, i));
        law_capture_references_are_accounted_for(states[i], replies[i], states[i + 1]);
    }
    lemma_balance(held, given_up, lost, gained);
    lemma_no_refs();
    if states.last().drops().len() == 0 {
        assert(states.last().drops() =~= Seq::<usize>::empty());
        assert(states.last().held() =~= states.last().phase().held());
    }
}

/// Every reference of an acquisition is accounted for, as those of a capture are. Where the work is
/// done, nothing is held but the output that was acquired, and nothing at all where a duplication
/// was denied.
pub proof fn law_acquisition_run_is_balanced(states: Seq<Acquisition>, replies: Seq<ComReply>)
    requires
        is_run(states, replies),
    ensures
        states.last().held().add(acquisition_given_up_in(states, replies)).add(
            acquisition_lost_in(states, replies),
        ) == states[0].held().add(gained_in(replies)),
        states.last().drops().len() == 0 ==> (states.last().phase() matches AcquirePhase::Finished {
            acquired,
        } ==> states.last().held() == output_held(acquired)),
        states.last().drops().len() == 0 && states.last().phase() is Refused ==> states.last().held()
            == Multiset::<usize>::empty(),
{
    let n = replies.len();
    let held = Seq::new(n + 1, |i: int| states[i].held());
    let given_up = Seq::new(n, |i: int| states[i].next_call()->0.given_up());
    let lost = Seq::new(n, |i: int| states[i].lost(replies[i]));
    let gained = Seq::new(n, |i: int| replies[i].gained());
    assert forall|i: int| 0 <= i < n implies held[i + 1].add(given_up[i]).add(lost[i])
        == held[i].add(#[trigger] gained[i]) by {
        assert(is_step(states, replies, i));
        law_acquisition_references_are_accounted_for(states[i], replies[i], states[i + 1]);
    }
    lemma_balance(held, given_up, lost, gained);
    lemma_no_refs();
    if states.last().drops().len() == 0 {
        assert(states.last().drops() =~= Seq::<usize>::empty());
        assert(states.last().held() =~= states.last().phase().held());
    }
}

/// Whether a capture still has the output that it was begun with, unless it had to acquire one
/// anew.
spec fn keeps(capture: Capture, output: DuplicatedOutput) -> bool {
    match capture.phase() {
        CapturePhase::Reacquire { error, .. } => error is AccessLost || error is Fail,
        CapturePhase::Grab { grab } => grab.source() == output,
        CapturePhase::MapSurface { source, .. } => source == output,
        CapturePhase::Describe { source, .. } => source == output,
        CapturePhase::Read { source, .. } => source == output,
        CapturePhase::Unmap { source, .. } => source == output,
        CapturePhase::Finished { source, result } => match result {
            Err(CaptureError::RefreshFailure) => true,
            Err(CaptureError::AccessLost) => true,
            Err(CaptureError::Fail(_)) => true,
            Err(CaptureError::AccessDenied) => source is None || source == Some(output),
            _ => source == Some(output),
        },
    }
}

proof fn lemma_keeps(states: Seq<Capture>, replies: Seq<ComReply>, output: DuplicatedOutput, n: int)
    requires
        is_capture_run(states, replies),
        0 <= n <= replies.len(),
        keeps(states[0], output),
    ensures
        keeps(states[n], output),
    decreases n,
{
    if n > 0 {
        let i = n - 1;
        lemma_keeps(states, replies, output, i);
        assert(is_capture_step(states, replies, i));
    }
}

/// A capture that ends with a picture or with a timeout still has the output that it was begun
/// with. So does one that ends with access denied, unless that came of acquiring an output anew,
/// which leaves none.
pub proof fn law_output_is_kept(states: Seq<Capture>, replies: Seq<ComReply>)
    requires
        is_capture_run(states, replies),
        states[0].phase() is Grab,
    ensures
        match states.last().phase() {
            CapturePhase::Finished { source, result: Ok(_) } => source == Some(
                states[0].phase()->grab.source(),
            ),
            CapturePhase::Finished { source, result: Err(CaptureError::Timeout) } => source == Some(
                states[0].phase()->grab.source(),
            ),
            CapturePhase::Finished { source, result: Err(CaptureError::AccessDenied) } => {
                source is None || source == Some(states[0].phase()->grab.source())
            },
            _ => true,
        },
{
    lemma_keeps(states, replies, states[0].phase()->grab.source(), replies.len() as int);
}

/// A capture without a duplicated output acquires one, and gives no picture: it ends with a failure
/// that says so where one could be acquired, and else with the failure to refresh the outputs, or
/// with access denied.
pub proof fn law_no_picture_without_an_output(states: Seq<Capture>, replies: Seq<ComReply>)
    requires
        is_capture_run(states, replies),
        states[0].reacquires(None, CaptureError::Fail("No valid duplicated output")),
    ensures
        states.last().phase() matches CapturePhase::Finished { source, result } ==> match (source, result) {
            (Some(_), Err(error)) => error == CaptureError::Fail("No valid duplicated output"),
            (None, Err(error)) => error is RefreshFailure || error is AccessDenied,
            (_, Ok(_)) => false,
        },
{
    lemma_only_reacquires(
        states,
        replies,
        CaptureError::Fail("No valid duplicated output"),
        replies.len() as int,
    );
}

/// A capture that acquires the output anew does nothing else.
proof fn lemma_only_reacquires(
    states: Seq<Capture>,
    replies: Seq<ComReply>,
    error: CaptureError,
    n: int,
)
    requires
        is_capture_run(states, replies),
        0 <= n <= replies.len(),
        states[0].phase() is Reacquire,
        states[0].phase()->error == error,
    ensures
        match states[n].phase() {
            CapturePhase::Reacquire { error: e, .. } => e == error,
            CapturePhase::Finished { source: Some(_), result } => result == Err::<
                Picture,
                CaptureError,
            >(error),
            CapturePhase::Finished { source: None, result: Err(e) } => {
                e is RefreshFailure || e is AccessDenied
            },
            _ => false,
        },
    decreases n,
{
    if n > 0 {
        let i = n - 1;
        lemma_only_reacquires(states, replies, error, i);
        assert(is_capture_step(states, replies, i));
    }
}

/// Whether the system denied the duplication of an output at call `d` of a run.
pub open spec fn denied_at(states: Seq<Capture>, replies: Seq<ComReply>, d: int) -> bool {
    &&& states[d].next_call() matches Some(ComCall::DuplicateOutput { .. })
    &&& replies[d] matches ComReply::Object { hr, .. } && hr == E_ACCESSDENIED
}

/// A capture ends with access denied and without an output if and only if the system denied the
/// duplication of an output to it.
pub proof fn law_denied_duplication_is_reported(states: Seq<Capture>, replies: Seq<ComReply>)
    requires
        is_capture_run(states, replies),
        states[0].phase() is Grab || states[0].reacquires(
            None,
            CaptureError::Fail("No valid duplicated output"),
        ),
    ensures
        states.last().phase() matches CapturePhase::Finished { source, result } ==> ((source is None
            && result == Err::<Picture, CaptureError>(CaptureError::AccessDenied)) <==> exists|d: int|
            0 <= d < replies.len() && #[trigger] denied_at(states, replies, d)),
{
    lemma_denied(states, replies, replies.len() as int);
}

/// Whether a capture ends, or is about to end, with access denied and without an output.
spec fn is_denied(capture: Capture) -> bool {
    match capture.phase() {
        CapturePhase::Reacquire { acquisition, .. } => acquisition.phase() is Refused,
        CapturePhase::Finished { source: None, result: Err(CaptureError::AccessDenied) } => true,
        _ => false,
    }
}

proof fn lemma_denied(states: Seq<Capture>, replies: Seq<ComReply>, n: int)
    requires
        is_capture_run(states, replies),
        0 <= n <= replies.len(),
        states[0].phase() is Grab || states[0].phase() is Reacquire
            && states[0].phase()->acquisition.phase() is CreateFactory,
    ensures
        is_denied(states[n]) <==> exists|d: int|
            0 <= d < n && #[trigger] denied_at(states, replies, d),
    decreases n,
{
    if n > 0 {
        let i = n - 1;
        lemma_denied(states, replies, i);
        assert(is_capture_step(states, replies, i));
        assert(is_denied(states[n]) <==> is_denied(states[i]) || denied_at(states, replies, i));
    }
}

impl Desktop {
    /// Whether a reply to the call that is due says what is so on the desktop.
    pub open spec fn backs_capture(self, capture: Capture, reply: ComReply) -> bool {
        capture.phase() matches CapturePhase::Reacquire { acquisition, .. } ==> self.backs(
            acquisition,
            reply,
        )
    }

    /// Whether what a capture has found out is so on the desktop.
    pub open spec fn confirms_capture(self, capture: Capture) -> bool {
        capture.phase() matches CapturePhase::Reacquire { acquisition, .. } ==> self.confirms(
            acquisition,
        )
    }

    /// How many calls are left to a capture at most.
    pub open spec fn capture_calls_left(self, capture: Capture) -> int {
        capture.drops().len() + match capture.phase() {
            CapturePhase::Reacquire { acquisition, .. } => self.calls_left(acquisition),
            CapturePhase::Grab { grab } => self.calls_from(0) + 5 + grab.calls_left(),
            CapturePhase::MapSurface { .. } => 5,
            CapturePhase::Describe { .. } => 4,
            CapturePhase::Read { .. } => 3,
            CapturePhase::Unmap { .. } => 2,
            CapturePhase::Finished { .. } => 0,
        }
    }
}

/// A capture that acquires the output anew takes one step of the acquisition with every call.
proof fn lemma_acquisitions(states: Seq<Capture>, replies: Seq<ComReply>, n: int)
    requires
        is_capture_run(states, replies),
        0 <= n <= replies.len(),
        states[0].phase() is Reacquire,
    ensures
        states[n].phase() is Reacquire || states[n].phase() is Finished && states[n].drops().len() == 0,
        n < replies.len() ==> states[n].phase() is Reacquire,
    decreases n,
{
    if n > 0 {
        lemma_acquisitions(states, replies, n - 1);
        assert(is_capture_step(states, replies, n - 1));
    }
    if n < replies.len() {
        assert(is_capture_step(states, replies, n));
    }
}

/// The output that a capture has acquired anew on a desktop is the capture source of the desktop,
/// and where the outputs could not be refreshed there is no source. The same holds of the rest of
/// any capture from where it begins to acquire the output anew.
pub proof fn law_refreshed_output_is_the_source(
    desktop: Desktop,
    states: Seq<Capture>,
    replies: Seq<ComReply>,
)
    requires
        is_capture_run(states, replies),
        states[0].phase() is Reacquire,
        states[0].phase()->acquisition.phase() is CreateFactory,
        forall|i: int|
            0 <= i < replies.len() ==> desktop.backs_capture(#[trigger] states[i], replies[i]),
    ensures
        states.last().phase() matches CapturePhase::Finished { source: Some(output), .. }
            ==> exists|acquisitions: Seq<Acquisition>, site: Site, k: int|
            #[trigger] is_output_of(acquisitions, replies, output, site, k) && is_run(
                acquisitions,
                replies,
            ) && desktop.is_source(
                states[0].phase()->acquisition.capture_source_index() as nat,
                site.index as int,
                k,
            ),
        states.last().phase() matches CapturePhase::Finished {
            result: Err(CaptureError::RefreshFailure),
            ..
        } ==> !desktop.has_source(states[0].phase()->acquisition.capture_source_index() as nat),
{
    let n = replies.len();
    lemma_acquisitions(states, replies, n as int);
    lemma_only_reacquires(states, replies, states[0].phase()->error, n as int);
    if states.last().phase() is Finished {
        let (last, error) = (states[n - 1].phase()->acquisition, states[n - 1].phase()->error);
        lemma_acquisitions(states, replies, n - 1);
        lemma_only_reacquires(states, replies, states[0].phase()->error, n - 1);
        assert(is_capture_step(states, replies, n - 1));
        let end = choose|a: Acquisition|
            #[trigger] last.leads_to(replies[n - 1], a) && states[n as int].takes_acquisition(a, error);
        let acquisitions = Seq::new(n, |i: int| states[i].phase()->acquisition).push(end);
        assert forall|i: int| 0 <= i < n implies #[trigger] is_step(acquisitions, replies, i) by {
            lemma_acquisitions(states, replies, i);
            assert(is_capture_step(states, replies, i));
            let (acquisition, error) = (states[i].phase()->acquisition, states[i].phase()->error);
            let a = choose|a: Acquisition|
                #[trigger] acquisition.leads_to(replies[i], a) && states[i + 1].takes_acquisition(
                    a,
                    error,
                );
            if i + 1 < n {
                lemma_acquisitions(states, replies, i + 1);
                assert(a == acquisitions[i + 1]);
            }
        }
        assert forall|i: int| 0 <= i < n implies desktop.backs(
            #[trigger] acquisitions[i],
            replies[i],
        ) by {
            lemma_acquisitions(states, replies, i);
            assert(desktop.backs_capture(states[i], replies[i]));
        }
        assert(acquisitions.last() == end);
        law_acquired_output_is_the_source(desktop, acquisitions, replies);
        law_acquisition_succeeds_where_there_is_a_source(desktop, acquisitions, replies);
    }
}

/// A capture comes to an end: with every reply that says what is so on the desktop fewer calls are
/// left, and never fewer than none.
pub proof fn law_capture_comes_to_an_end(
    desktop: Desktop,
    capture: Capture,
    reply: ComReply,
    next: Capture,
)
    requires
        capture.wf(),
        capture.accepts(reply),
        capture.leads_to(reply, next),
        desktop.confirms_capture(capture),
        desktop.backs_capture(capture, reply),
    ensures
        desktop.confirms_capture(next),
        0 <= desktop.capture_calls_left(next) < desktop.capture_calls_left(capture),
{
    lemma_calls_from(desktop, 0);
    if capture.drops().len() == 0 {
        match capture.phase() {
            CapturePhase::Reacquire { acquisition, error } => {
                let a = choose|a: Acquisition|
                    #[trigger] acquisition.leads_to(reply, a) && next.takes_acquisition(a, error);
                law_acquisition_follows_the_desktop(desktop, acquisition, reply, a);
                law_acquisition_comes_to_an_end(desktop, acquisition, reply, a);
            },
            CapturePhase::Grab { grab } => {
                let g = choose|g: FrameGrab|
                    #[trigger] grab.leads_to(reply, g) && next.takes_frame(g);
                law_frame_comes_to_an_end(grab, reply, g);
            },
            _ => {},
        }
    }
}

} // verus!
