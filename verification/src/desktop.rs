//! What an acquisition comes to on a given desktop.
use vstd::prelude::*;

use crate::acquire::{pair_refs, AcquirePhase, Acquisition, OutputPair, Site};
use crate::com::ComReply;
use crate::hresult::DXGI_ERROR_NOT_FOUND;
use crate::source::{
    is_capture_source, is_primary, lacks_capture_source, law_search_may_stop,
};

verus! {

/// An output as the desktop has it.
pub struct OutputFacts {
    /// Whether it is attached to the desktop.
    pub attached: bool,
    /// Whether its monitor is the primary one.
    pub primary: bool,
}

/// The outputs of each adapter, in the order in which they are enumerated.
pub struct Desktop {
    pub adapters: Seq<Seq<OutputFacts>>,
}

/// How many outputs stand before the first one that is not attached.
pub open spec fn attached_count(outputs: Seq<OutputFacts>) -> nat
    decreases outputs.len(),
{
    if outputs.len() > 0 && outputs[0].attached {
        1 + attached_count(outputs.skip(1))
    } else {
        0
    }
}

/// Of each of the outputs before the first one that is not attached, whether it is primary.
pub open spec fn usable(outputs: Seq<OutputFacts>) -> Seq<bool> {
    Seq::new(attached_count(outputs), |i: int| outputs[i].primary)
}

impl Desktop {
    /// Whether the first adapters have no output that is capture source `cs_index`.
    pub open spec fn lacks_source_before(self, cs_index: nat, adapter: int) -> bool {
        forall|a: int|
            0 <= a < adapter ==> lacks_capture_source(usable(#[trigger] self.adapters[a]), cs_index)
    }

    /// Whether an output of an adapter is the one to capture: it is the capture source among the
    /// usable outputs of its adapter, and no adapter before has the capture source.
    pub open spec fn is_source(self, cs_index: nat, adapter: int, output: int) -> bool {
        &&& 0 <= adapter < self.adapters.len()
        &&& is_capture_source(usable(self.adapters[adapter]), cs_index, output)
        &&& self.lacks_source_before(cs_index, adapter)
    }

    /// Whether some adapter has an output that is capture source `cs_index`.
    pub open spec fn has_source(self, cs_index: nat) -> bool {
        exists|adapter: int, output: int| self.is_source(cs_index, adapter, output)
    }

    /// Whether a reply to the call that is due says what is so on the desktop.
    pub open spec fn backs(self, acquisition: Acquisition, reply: ComReply) -> bool {
        acquisition.drops().len() == 0 ==> match (acquisition.phase(), reply) {
            (AcquirePhase::EnumAdapter { index, .. }, ComReply::Object { hr, .. }) => {
                hr == DXGI_ERROR_NOT_FOUND <==> index >= self.adapters.len()
            },
            (AcquirePhase::EnumOutput { site, outputs }, ComReply::Object { hr, .. }) => {
                hr < 0 <==> outputs@.len() >= self.adapters[site.index as int].len()
            },
            (AcquirePhase::CheckOutput { site, outputs, .. }, ComReply::Output(desc)) => {
                desc.attached_to_desktop != 0
                    <==> self.adapters[site.index as int][outputs@.len() as int].attached
            },
            (AcquirePhase::CheckMonitor { bench, primary, .. }, ComReply::Monitor { flags }) => {
                is_primary(flags)
                    <==> self.adapters[bench.site.index as int][primary@.len() as int].primary
            },
            _ => true,
        }
    }

    /// Whether an adapter is one of the desktop, with no capture source before it.
    pub open spec fn reaches(self, cs_index: nat, site: Site) -> bool {
        &&& site.index < self.adapters.len()
        &&& self.lacks_source_before(cs_index, site.index as int)
    }

    /// The usable outputs of an adapter.
    pub open spec fn usable_at(self, site: Site) -> Seq<bool> {
        usable(self.adapters[site.index as int])
    }

    /// Whether what an acquisition has found out is so on the desktop.
    pub open spec fn confirms(self, acquisition: Acquisition) -> bool {
        let cs_index = acquisition.capture_source_index() as nat;
        match acquisition.phase() {
            AcquirePhase::CreateFactory => true,
            AcquirePhase::EnumAdapter { index, .. } => {
                &&& index <= self.adapters.len()
                &&& self.lacks_source_before(cs_index, index as int)
            },
            AcquirePhase::EnumOutput { site, outputs } => {
                &&& self.reaches(cs_index, site)
                &&& outputs@.len() <= self.usable_at(site).len()
            },
            AcquirePhase::CheckOutput { site, outputs, .. } => {
                &&& self.reaches(cs_index, site)
                &&& outputs@.len() <= self.usable_at(site).len()
                &&& outputs@.len() < self.adapters[site.index as int].len()
            },
            AcquirePhase::CreateDevice { site, outputs } => {
                &&& self.reaches(cs_index, site)
                &&& outputs@.len() == self.usable_at(site).len()
            },
            AcquirePhase::QueryOutput { bench, rest, .. } => {
                &&& self.reaches(cs_index, bench.site)
                &&& bench.pairs@.len() + 1 + rest@.len() == self.usable_at(bench.site).len()
            },
            AcquirePhase::QueryDevice { bench, rest, .. } => {
                &&& self.reaches(cs_index, bench.site)
                &&& bench.pairs@.len() + 1 + rest@.len() == self.usable_at(bench.site).len()
            },
            AcquirePhase::Duplicate { bench, rest, .. } => {
                &&& self.reaches(cs_index, bench.site)
                &&& bench.pairs@.len() + 1 + rest@.len() == self.usable_at(bench.site).len()
            },
            AcquirePhase::RestoreDevice { bench, rest, .. } => {
                &&& self.reaches(cs_index, bench.site)
                &&& bench.pairs@.len() + rest@.len() == self.usable_at(bench.site).len()
            },
            AcquirePhase::FindMonitor { bench, primary, .. } => {
                &&& self.reaches(cs_index, bench.site)
                &&& primary@.len() + bench.pairs@.len() == self.usable_at(bench.site).len()
                &&& primary@ == self.usable_at(bench.site).take(primary@.len() as int)
            },
            AcquirePhase::CheckMonitor { bench, primary, .. } => {
                &&& self.reaches(cs_index, bench.site)
                &&& primary@.len() + bench.pairs@.len() == self.usable_at(bench.site).len()
                &&& primary@ == self.usable_at(bench.site).take(primary@.len() as int)
            },
            AcquirePhase::Refused => true,
            AcquirePhase::Finished { acquired } => acquired is Some <==> self.has_source(cs_index),
        }
    }
}

/// The outputs that are counted are there, and attached; the one behind them is not attached.
proof fn lemma_attached_count(outputs: Seq<OutputFacts>)
    ensures
        attached_count(outputs) <= outputs.len(),
        forall|i: int| 0 <= i < attached_count(outputs) ==> (#[trigger] outputs[i]).attached,
        attached_count(outputs) < outputs.len()
            ==> !outputs[attached_count(outputs) as int].attached,
    decreases outputs.len(),
{
    if outputs.len() > 0 && outputs[0].attached {
        let later = outputs.skip(1);
        lemma_attached_count(later);
        assert forall|i: int| 0 <= i < attached_count(outputs) implies (
        #[trigger] outputs[i]).attached by {
            if i > 0 {
                assert(outputs[i] == later[i - 1]);
            }
        }
        if attached_count(outputs) < outputs.len() {
            assert(outputs[attached_count(outputs) as int] == later[attached_count(later) as int]);
        }
    }
}

/// On a desktop there is at most one output to capture for a capture source.
pub proof fn law_desktop_source_is_unique(
    desktop: Desktop,
    cs_index: nat,
    adapter: int,
    output: int,
    adapter2: int,
    output2: int,
)
    requires
        desktop.is_source(cs_index, adapter, output),
        desktop.is_source(cs_index, adapter2, output2),
    ensures
        adapter == adapter2,
        output == output2,
{
    if adapter < adapter2 {
        assert(lacks_capture_source(usable(desktop.adapters[adapter]), cs_index));
    } else if adapter2 < adapter {
        assert(lacks_capture_source(usable(desktop.adapters[adapter2]), cs_index));
    } else {
        crate::source::law_capture_source_is_unique(
            usable(desktop.adapters[adapter]),
            cs_index,
            output,
            output2,
        );
    }
}

/// What an acquisition finds out is so on the desktop, as long as the replies say what is so.
pub proof fn law_acquisition_follows_the_desktop(
    desktop: Desktop,
    acquisition: Acquisition,
    reply: ComReply,
    next: Acquisition,
)
    requires
        acquisition.wf(),
        acquisition.accepts(reply),
        acquisition.leads_to(reply, next),
        desktop.confirms(acquisition),
        desktop.backs(acquisition, reply),
    ensures
        desktop.confirms(next),
{
    let cs_index = acquisition.capture_source_index() as nat;
    if acquisition.drops().len() == 0 {
        match acquisition.phase() {
            AcquirePhase::EnumAdapter { index, .. } => {
                if index >= desktop.adapters.len() {
                    assert forall|a: int, o: int| !desktop.is_source(cs_index, a, o) by {
                        if 0 <= a < desktop.adapters.len() {
                            assert(lacks_capture_source(usable(desktop.adapters[a]), cs_index));
                        }
                    }
                }
            },
            AcquirePhase::EnumOutput { site, outputs } => {
                lemma_attached_count(desktop.adapters[site.index as int]);
                if outputs@.len() == desktop.usable_at(site).len() && outputs@.len() == 0 {
                    assert(lacks_capture_source(desktop.usable_at(site), cs_index));
                }
            },
            AcquirePhase::CheckOutput { site, outputs, .. } => {
                lemma_attached_count(desktop.adapters[site.index as int]);
                if outputs@.len() == desktop.usable_at(site).len() && outputs@.len() == 0 {
                    assert(lacks_capture_source(desktop.usable_at(site), cs_index));
                }
                if next.phase() is EnumOutput {
                    let more = next.phase()->EnumOutput_outputs@;
                    assert(crate::com::addrs(more).len() == outputs@.len() + 1);
                }
            },
            AcquirePhase::RestoreDevice { bench, .. } => {
                if next.phase() is FindMonitor {
                    assert(next.phase()->FindMonitor_primary@ =~= desktop.usable_at(bench.site).take(0));
                }
            },
            AcquirePhase::CheckMonitor { bench, primary, .. } => {
                lemma_judged(desktop, acquisition, reply, next);
            },
            _ => {},
        }
    }
}

/// What becomes known of the outputs of an adapter is so on the desktop.
proof fn lemma_judged(
    desktop: Desktop,
    acquisition: Acquisition,
    reply: ComReply,
    next: Acquisition,
)
    requires
        acquisition.wf(),
        acquisition.accepts(reply),
        acquisition.leads_to(reply, next),
        desktop.confirms(acquisition),
        desktop.backs(acquisition, reply),
        acquisition.drops().len() == 0,
        acquisition.phase() is CheckMonitor,
    ensures
        desktop.confirms(next),
        next.phase() is Finished ==> desktop.is_source(
            acquisition.capture_source_index() as nat,
            acquisition.phase()->CheckMonitor_bench.site.index as int,
            acquisition.phase()->CheckMonitor_primary@.len() as int,
        ),
{
    let cs_index = acquisition.capture_source_index() as nat;
    let bench = acquisition.phase()->CheckMonitor_bench;
    let primary = acquisition.phase()->CheckMonitor_primary@;
    let all = desktop.usable_at(bench.site);
    let known = primary.push(is_primary(reply->Monitor_flags));
    let last = primary.len() as int;
    assert(known =~= all.take(last + 1));
    law_search_may_stop(known, all, cs_index, last);
    assert forall|i: int| 0 <= i < last implies !is_capture_source(all, cs_index, i) by {
        assert(!is_capture_source(primary, cs_index, i));
        law_search_may_stop(primary, all, cs_index, i);
    }
    if is_capture_source(known, cs_index, last) {
        assert(desktop.is_source(cs_index, bench.site.index as int, last));
    } else if bench.pairs@.len() == 1 {
        assert(lacks_capture_source(all, cs_index));
    }
}

/// An acquisition that succeeds has acquired the output to capture: that of the desktop which is
/// the capture source; one that fails does so because there is none.
pub proof fn law_acquisition_finds_the_source(
    desktop: Desktop,
    acquisition: Acquisition,
    reply: ComReply,
    next: Acquisition,
)
    requires
        acquisition.wf(),
        acquisition.accepts(reply),
        acquisition.leads_to(reply, next),
        desktop.confirms(acquisition),
        desktop.backs(acquisition, reply),
        acquisition.phase() !is Finished,
        next.phase() is Finished,
    ensures
        match next.phase()->acquired {
            Some(acquired) => {
                &&& acquisition.phase() matches AcquirePhase::CheckMonitor {
                    bench,
                    device,
                    primary,
                    ..
                }
                &&& desktop.is_source(
                    acquisition.capture_source_index() as nat,
                    bench.site.index as int,
                    primary@.len() as int,
                )
                &&& acquired.output == bench.pairs@[0].output
                &&& acquired.output_duplication == bench.pairs@[0].output_duplication
                &&& acquired.device == device
                &&& acquired.device_context == bench.device_context
            },
            None => !desktop.has_source(acquisition.capture_source_index() as nat),
        },
{
    law_acquisition_follows_the_desktop(desktop, acquisition, reply, next);
    if acquisition.phase() is CheckMonitor {
        lemma_judged(desktop, acquisition, reply, next);
    }
}

/// Whether an acquisition is followed by the next one by a reply.
pub open spec fn is_step(states: Seq<Acquisition>, replies: Seq<ComReply>, i: int) -> bool {
    &&& states[i].wf()
    &&& states[i].accepts(replies[i])
    &&& states[i].leads_to(replies[i], states[i + 1])
}

/// Whether acquisitions follow each other by replies.
pub open spec fn is_run(states: Seq<Acquisition>, replies: Seq<ComReply>) -> bool {
    &&& states.len() == replies.len() + 1
    &&& forall|i: int| 0 <= i < replies.len() ==> #[trigger] is_step(states, replies, i)
}

/// An acquisition on a desktop, from its start to its end, succeeds if and only if some adapter
/// has an output that is the capture source.
pub proof fn law_acquisition_succeeds_where_there_is_a_source(
    desktop: Desktop,
    states: Seq<Acquisition>,
    replies: Seq<ComReply>,
)
    requires
        is_run(states, replies),
        states[0].phase() is CreateFactory,
        forall|i: int| 0 <= i < replies.len() ==> desktop.backs(#[trigger] states[i], replies[i]),
    ensures
        states.last().phase() matches AcquirePhase::Finished { acquired } ==> (acquired is Some
            <==> desktop.has_source(states[0].capture_source_index() as nat)),
{
    lemma_confirmed(desktop, states, replies, replies.len() as int);
}

/// What an acquisition finds out in a run is so on the desktop, and it looks for the same capture
/// source all the time.
pub(crate) proof fn lemma_confirmed(
    desktop: Desktop,
    states: Seq<Acquisition>,
    replies: Seq<ComReply>,
    n: int,
)
    requires
        is_run(states, replies),
        states[0].phase() is CreateFactory,
        forall|i: int| 0 <= i < replies.len() ==> desktop.backs(#[trigger] states[i], replies[i]),
        0 <= n <= replies.len(),
    ensures
        desktop.confirms(states[n]),
        states[n].capture_source_index() == states[0].capture_source_index(),
    decreases n,
{
    if n > 0 {
        lemma_confirmed(desktop, states, replies, n - 1);
        assert(is_step(states, replies, n - 1));
        law_acquisition_follows_the_desktop(desktop, states[n - 1], replies[n - 1], states[n]);
    }
}

impl Desktop {
    /// How many calls are left at most once the adapters from `adapter` on are still to be asked
    /// for.
    pub open spec fn calls_from(self, adapter: int) -> int
        decreases self.adapters.len() - adapter,
    {
        if 0 <= adapter < self.adapters.len() {
            13 * self.adapters[adapter].len() + 6 + self.calls_from(adapter + 1)
        } else {
            2
        }
    }

    /// How many calls are left to an acquisition at most.
    pub open spec fn calls_left(self, acquisition: Acquisition) -> int {
        acquisition.drops().len() + match acquisition.phase() {
            AcquirePhase::CreateFactory => self.calls_from(0) + 1,
            AcquirePhase::EnumAdapter { index, .. } => self.calls_from(index as int),
            AcquirePhase::EnumOutput { site, outputs } => {
                let all = self.adapters[site.index as int].len();
                self.calls_from(site.index + 1) + 11 * all + 2 * (all - outputs@.len()) + 5
            },
            AcquirePhase::CheckOutput { site, outputs, .. } => {
                let all = self.adapters[site.index as int].len();
                self.calls_from(site.index + 1) + 11 * all + 2 * (all - outputs@.len()) + 4
            },
            AcquirePhase::CreateDevice { site, outputs } => {
                self.calls_from(site.index + 1) + 11 * outputs@.len() + 4
            },
            AcquirePhase::QueryOutput { bench, rest, .. } => {
                self.calls_from(bench.site.index + 1) + 4 * self.usable_at(bench.site).len() + 7
                    * rest@.len() + 10
            },
            AcquirePhase::QueryDevice { bench, rest, .. } => {
                self.calls_from(bench.site.index + 1) + 4 * self.usable_at(bench.site).len() + 7
                    * rest@.len() + 8
            },
            AcquirePhase::Duplicate { bench, rest, .. } => {
                self.calls_from(bench.site.index + 1) + 4 * self.usable_at(bench.site).len() + 7
                    * rest@.len() + 6
            },
            AcquirePhase::RestoreDevice { bench, rest, .. } => {
                self.calls_from(bench.site.index + 1) + 4 * self.usable_at(bench.site).len() + 7
                    * rest@.len() + 5
            },
            AcquirePhase::FindMonitor { bench, .. } => {
                self.calls_from(bench.site.index + 1) + 4 * bench.pairs@.len() + 3
            },
            AcquirePhase::CheckMonitor { bench, .. } => {
                self.calls_from(bench.site.index + 1) + 4 * bench.pairs@.len() + 2
            },
            AcquirePhase::Refused => 0,
            AcquirePhase::Finished { .. } => 0,
        }
    }
}

/// A pair has two references.
proof fn lemma_pair_refs_len(pairs: Seq<OutputPair>)
    ensures
        pair_refs(pairs).len() == 2 * pairs.len(),
    decreases pairs.len(),
{
    if pairs.len() > 0 {
        lemma_pair_refs_len(pairs.skip(1));
    }
}

/// There is a call left while adapters are to be asked for.
pub(crate) proof fn lemma_calls_from(desktop: Desktop, adapter: int)
    ensures
        desktop.calls_from(adapter) >= 2,
    decreases desktop.adapters.len() - adapter,
{
    if 0 <= adapter < desktop.adapters.len() {
        lemma_calls_from(desktop, adapter + 1);
    }
}

/// An acquisition comes to an end: with every reply that says what is so on the desktop fewer
/// calls are left, and never fewer than none.
pub proof fn law_acquisition_comes_to_an_end(
    desktop: Desktop,
    acquisition: Acquisition,
    reply: ComReply,
    next: Acquisition,
)
    requires
        acquisition.wf(),
        acquisition.accepts(reply),
        acquisition.leads_to(reply, next),
        desktop.confirms(acquisition),
        desktop.backs(acquisition, reply),
    ensures
        0 <= desktop.calls_left(next) < desktop.calls_left(acquisition),
{
    law_acquisition_follows_the_desktop(desktop, acquisition, reply, next);
    lemma_calls_from(desktop, 0);
    match acquisition.phase() {
        AcquirePhase::EnumAdapter { index, .. } => {
            lemma_calls_from(desktop, index as int);
            lemma_calls_from(desktop, index + 1);
        },
        AcquirePhase::EnumOutput { site, outputs } => {
            lemma_calls_from(desktop, site.index + 1);
            lemma_attached_count(desktop.adapters[site.index as int]);
        },
        AcquirePhase::CheckOutput { site, outputs, .. } => {
            lemma_calls_from(desktop, site.index + 1);
            lemma_attached_count(desktop.adapters[site.index as int]);
            if acquisition.drops().len() == 0 && next.phase() is EnumOutput {
                let more = next.phase()->EnumOutput_outputs@;
                assert(crate::com::addrs(more).len() == outputs@.len() + 1);
            }
        },
        AcquirePhase::CreateDevice { site, .. } => {
            lemma_calls_from(desktop, site.index + 1);
        },
        AcquirePhase::QueryOutput { bench, .. } => {
            lemma_calls_from(desktop, bench.site.index + 1);
        },
        AcquirePhase::QueryDevice { bench, .. } => {
            lemma_calls_from(desktop, bench.site.index + 1);
        },
        AcquirePhase::Duplicate { bench, .. } => {
            lemma_calls_from(desktop, bench.site.index + 1);
            lemma_pair_refs_len(bench.pairs@);
        },
        AcquirePhase::RestoreDevice { bench, .. } => {
            lemma_calls_from(desktop, bench.site.index + 1);
        },
        AcquirePhase::FindMonitor { bench, .. } => {
            lemma_calls_from(desktop, bench.site.index + 1);
        },
        AcquirePhase::CheckMonitor { bench, .. } => {
            lemma_calls_from(desktop, bench.site.index + 1);
            lemma_pair_refs_len(bench.pairs@.skip(1));
        },
        _ => {},
    }
}

} // verus!
