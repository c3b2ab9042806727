//! Where the output that an acquisition ends with comes from.
use vstd::prelude::*;

use crate::acquire::{
    AcquirePhase, Acquisition, Bench, OutputPair, Site, D3D11_SDK_VERSION, D3D_DRIVER_TYPE_UNKNOWN,
};
use crate::com::{addrs, ComCall, ComReply, IDXGIOutput, Interface, UniqueCOMPtr, NULL};
use crate::desktop::{is_run, is_step, law_acquisition_finds_the_source, lemma_confirmed, Desktop};
use crate::frame::DuplicatedOutput;
use crate::source::{
    is_primary, law_capture_source_goes_by_order, law_primary_monitor_has_odd_flags,
};

verus! {

/// Whether call `a` of a run gave an adapter.
pub open spec fn adapter_at(
    states: Seq<Acquisition>,
    replies: Seq<ComReply>,
    a: int,
    site: Site,
) -> bool {
    &&& states[a].next_call() == Some(
        ComCall::EnumAdapters1 { factory: site.factory.addr(), index: site.index },
    )
    &&& replies[a] matches ComReply::Object { hr, object }
    &&& hr >= 0
    &&& object == site.adapter.addr()
}

/// Whether call `e` of a run gave output `k` of an adapter, at address `object`.
pub open spec fn enumerated_at(
    states: Seq<Acquisition>,
    replies: Seq<ComReply>,
    e: int,
    site: Site,
    k: int,
    object: usize,
) -> bool {
    &&& states[e].phase() matches AcquirePhase::EnumOutput { site: s, .. } && s == site
    &&& states[e].next_call() matches Some(ComCall::EnumOutputs { adapter, index })
    &&& adapter == site.adapter.addr()
    &&& index == k
    &&& replies[e] matches ComReply::Object { hr, object: o }
    &&& hr >= 0
    &&& o == object
}

/// Whether call `c` of a run made a device and its context for an adapter.
pub open spec fn created_at(
    states: Seq<Acquisition>,
    replies: Seq<ComReply>,
    c: int,
    site: Site,
    context: usize,
    device: usize,
) -> bool {
    &&& states[c].phase() matches AcquirePhase::CreateDevice { site: s, .. } && s == site
    &&& states[c].next_call() == Some(
        ComCall::CreateDevice {
            adapter: site.adapter.addr(),
            driver_type: D3D_DRIVER_TYPE_UNKNOWN,
            software: NULL,
            flags: 0,
            feature_levels: NULL,
            feature_level_count: 0,
            sdk_version: D3D11_SDK_VERSION,
        },
    )
    &&& replies[c] matches ComReply::Device { hr, device: d, context: x }
    &&& hr >= 0
    &&& d == device
    &&& x == context
}

/// Whether call `q` of a run asked the object at address `from` for an interface, and got it at
/// address `to`.
pub open spec fn queried_at(
    states: Seq<Acquisition>,
    replies: Seq<ComReply>,
    q: int,
    interface: Interface,
    from: usize,
    to: usize,
) -> bool {
    &&& states[q].next_call() == Some(ComCall::QueryInterface { object: from, interface })
    &&& replies[q] matches ComReply::Object { hr, object }
    &&& hr >= 0
    &&& object == to
}

/// Whether call `d` of a run duplicated an output on a device, and got the duplication at address
/// `duplication`.
pub open spec fn duplicated_at(
    states: Seq<Acquisition>,
    replies: Seq<ComReply>,
    d: int,
    device: usize,
    output: usize,
    duplication: usize,
) -> bool {
    &&& states[d].next_call() == Some(ComCall::DuplicateOutput { output, device })
    &&& replies[d] matches ComReply::Object { hr, object }
    &&& hr == 0
    &&& object == duplication
}

/// Whether calls before call `n` of a run gave an adapter.
pub open spec fn is_adapter(
    states: Seq<Acquisition>,
    replies: Seq<ComReply>,
    n: int,
    site: Site,
) -> bool {
    exists|a: int| 0 <= a < n && #[trigger] adapter_at(states, replies, a, site)
}

/// Whether calls before call `n` of a run gave output `k` of an adapter.
pub open spec fn is_enumerated(
    states: Seq<Acquisition>,
    replies: Seq<ComReply>,
    n: int,
    site: Site,
    k: int,
    object: usize,
) -> bool {
    exists|e: int| 0 <= e < n && #[trigger] enumerated_at(states, replies, e, site, k, object)
}

/// Whether calls before call `n` of a run gave output `k` of an adapter as one that can be
/// duplicated.
pub open spec fn is_queried(
    states: Seq<Acquisition>,
    replies: Seq<ComReply>,
    n: int,
    site: Site,
    k: int,
    output: usize,
) -> bool {
    exists|q: int, object: usize|
        0 <= q < n && #[trigger] queried_at(
            states,
            replies,
            q,
            Interface::IDXGIOutput1,
            object,
            output,
        ) && is_enumerated(states, replies, q, site, k, object)
}

/// Whether calls before call `n` of a run gave the device that was made for an adapter together
/// with a context: by making it, or by asking the interface that duplicates outputs for it again.
pub open spec fn is_device(
    states: Seq<Acquisition>,
    replies: Seq<ComReply>,
    n: int,
    site: Site,
    context: usize,
    device: usize,
) -> bool
    decreases n,
{
    ||| exists|c: int|
        0 <= c < n && #[trigger] created_at(states, replies, c, site, context, device)
    ||| exists|q: int, dxgi: usize|
        0 <= q < n && #[trigger] queried_at(
            states,
            replies,
            q,
            Interface::ID3D11Device,
            dxgi,
            device,
        ) && is_dxgi_device(states, replies, q, site, context, dxgi)
}

/// Whether calls before call `n` of a run gave the interface that duplicates outputs of the device
/// that was made for an adapter together with a context.
pub open spec fn is_dxgi_device(
    states: Seq<Acquisition>,
    replies: Seq<ComReply>,
    n: int,
    site: Site,
    context: usize,
    dxgi: usize,
) -> bool
    decreases n,
{
    exists|p: int, device: usize|
        0 <= p < n && #[trigger] queried_at(
            states,
            replies,
            p,
            Interface::IDXGIDevice1,
            device,
            dxgi,
        ) && is_device(states, replies, p, site, context, device)
}

/// Whether calls before call `n` of a run gave output `k` of an adapter and its duplication on the
/// device that was made for the adapter together with a context.
pub open spec fn is_duplicated(
    states: Seq<Acquisition>,
    replies: Seq<ComReply>,
    n: int,
    site: Site,
    context: usize,
    k: int,
    output: usize,
    duplication: usize,
) -> bool {
    exists|d: int, dxgi: usize|
        0 <= d < n && #[trigger] duplicated_at(states, replies, d, dxgi, output, duplication)
            && is_queried(states, replies, d, site, k, output) && is_dxgi_device(
            states,
            replies,
            d,
            site,
            context,
            dxgi,
        )
}

/// Whether outputs are those of an adapter from output `first` on.
spec fn all_enumerated(
    states: Seq<Acquisition>,
    replies: Seq<ComReply>,
    n: int,
    site: Site,
    first: int,
    outputs: Seq<UniqueCOMPtr<IDXGIOutput>>,
) -> bool {
    forall|i: int|
        0 <= i < outputs.len() ==> is_enumerated(
            states,
            replies,
            n,
            site,
            first + i,
            (#[trigger] outputs[i]).addr(),
        )
}

/// Whether pairs are the outputs of an adapter from output `first` on and their duplications.
spec fn all_duplicated(
    states: Seq<Acquisition>,
    replies: Seq<ComReply>,
    n: int,
    site: Site,
    context: usize,
    first: int,
    pairs: Seq<OutputPair>,
) -> bool {
    forall|i: int|
        0 <= i < pairs.len() ==> is_duplicated(
            states,
            replies,
            n,
            site,
            context,
            first + i,
            (#[trigger] pairs[i]).output.addr(),
            pairs[i].output_duplication.addr(),
        )
}

/// Whether a bench has an adapter that is one, and its outputs from output `first` on with their
/// duplications.
spec fn is_bench(
    states: Seq<Acquisition>,
    replies: Seq<ComReply>,
    n: int,
    bench: Bench,
    first: int,
) -> bool {
    &&& is_adapter(states, replies, n, bench.site)
    &&& all_duplicated(
        states,
        replies,
        n,
        bench.site,
        bench.device_context.addr(),
        first,
        bench.pairs@,
    )
}

/// Whether what an acquisition holds comes from calls before call `n` of a run.
spec fn is_traced(states: Seq<Acquisition>, replies: Seq<ComReply>, n: int) -> bool {
    match states[n].phase() {
        AcquirePhase::EnumOutput { site, outputs } => {
            &&& is_adapter(states, replies, n, site)
            &&& all_enumerated(states, replies, n, site, 0, outputs@)
        },
        AcquirePhase::CheckOutput { site, outputs, output } => {
            &&& is_adapter(states, replies, n, site)
            &&& all_enumerated(states, replies, n, site, 0, outputs@)
            &&& is_enumerated(states, replies, n, site, outputs@.len() as int, output)
        },
        AcquirePhase::CreateDevice { site, outputs } => {
            &&& is_adapter(states, replies, n, site)
            &&& all_enumerated(states, replies, n, site, 0, outputs@)
        },
        AcquirePhase::QueryOutput { bench, device, output, rest } => {
            let (site, context) = (bench.site, bench.device_context.addr());
            let m = bench.pairs@.len() as int;
            &&& is_bench(states, replies, n, bench, 0)
            &&& is_device(states, replies, n, site, context, device.addr())
            &&& is_enumerated(states, replies, n, site, m, output.addr())
            &&& all_enumerated(states, replies, n, site, m + 1, rest@)
        },
        AcquirePhase::QueryDevice { bench, device, output, rest } => {
            let (site, context) = (bench.site, bench.device_context.addr());
            let m = bench.pairs@.len() as int;
            &&& is_bench(states, replies, n, bench, 0)
            &&& is_device(states, replies, n, site, context, device.addr())
            &&& is_queried(states, replies, n, site, m, output.addr())
            &&& all_enumerated(states, replies, n, site, m + 1, rest@)
        },
        AcquirePhase::Duplicate { bench, device, output, rest } => {
            let (site, context) = (bench.site, bench.device_context.addr());
            let m = bench.pairs@.len() as int;
            &&& is_bench(states, replies, n, bench, 0)
            &&& is_dxgi_device(states, replies, n, site, context, device.addr())
            &&& is_queried(states, replies, n, site, m, output.addr())
            &&& all_enumerated(states, replies, n, site, m + 1, rest@)
        },
        AcquirePhase::RestoreDevice { bench, device, rest } => {
            let (site, context) = (bench.site, bench.device_context.addr());
            let m = bench.pairs@.len() as int;
            &&& is_bench(states, replies, n, bench, 0)
            &&& is_dxgi_device(states, replies, n, site, context, device.addr())
            &&& all_enumerated(states, replies, n, site, m, rest@)
        },
        AcquirePhase::FindMonitor { bench, device, primary } => {
            let (site, context) = (bench.site, bench.device_context.addr());
            &&& is_bench(states, replies, n, bench, primary@.len() as int)
            &&& is_device(states, replies, n, site, context, device.addr())
        },
        AcquirePhase::CheckMonitor { bench, device, primary, .. } => {
            let (site, context) = (bench.site, bench.device_context.addr());
            &&& is_bench(states, replies, n, bench, primary@.len() as int)
            &&& is_device(states, replies, n, site, context, device.addr())
        },
        _ => true,
    }
}

/// What comes from calls before one call comes from calls before a later one.
proof fn lemma_enumerated_stays(
    states: Seq<Acquisition>,
    replies: Seq<ComReply>,
    n: int,
    site: Site,
    first: int,
    outputs: Seq<UniqueCOMPtr<IDXGIOutput>>,
)
    requires
        all_enumerated(states, replies, n, site, first, outputs),
    ensures
        all_enumerated(states, replies, n + 1, site, first, outputs),
{
    assert forall|i: int| 0 <= i < outputs.len() implies is_enumerated(
        states,
        replies,
        n + 1,
        site,
        first + i,
        (#[trigger] outputs[i]).addr(),
    ) by {
        assert(is_enumerated(states, replies, n, site, first + i, outputs[i].addr()));
    }
}

/// What comes from calls before one call comes from calls before a later one.
proof fn lemma_bench_stays(
    states: Seq<Acquisition>,
    replies: Seq<ComReply>,
    n: int,
    bench: Bench,
    first: int,
)
    requires
        is_bench(states, replies, n, bench, first),
    ensures
        is_bench(states, replies, n + 1, bench, first),
{
    let pairs = bench.pairs@;
    let (site, context) = (bench.site, bench.device_context.addr());
    assert forall|i: int| 0 <= i < pairs.len() implies is_duplicated(
        states,
        replies,
        n + 1,
        site,
        context,
        first + i,
        (#[trigger] pairs[i]).output.addr(),
        pairs[i].output_duplication.addr(),
    ) by {
        assert(is_duplicated(
            states,
            replies,
            n,
            site,
            context,
            first + i,
            pairs[i].output.addr(),
            pairs[i].output_duplication.addr(),
        ));
    }
}

/// What an acquisition holds stays traced over a step of the enumeration.
proof fn lemma_enumeration_is_traced(states: Seq<Acquisition>, replies: Seq<ComReply>, n: int)
    requires
        is_step(states, replies, n),
        0 <= n,
        is_traced(states, replies, n),
        states[n].drops().len() == 0,
        states[n].phase() is EnumAdapter || states[n].phase() is EnumOutput
            || states[n].phase() is CheckOutput,
    ensures
        is_traced(states, replies, n + 1),
{
    match states[n].phase() {
        AcquirePhase::EnumAdapter { .. } => {
            if states[n + 1].phase() is EnumOutput {
                assert(adapter_at(states, replies, n, states[n + 1].phase()->EnumOutput_site));
            }
        },
        AcquirePhase::EnumOutput { site, outputs } => {
            lemma_enumerated_stays(states, replies, n, site, 0, outputs@);
            if replies[n]->Object_hr >= 0 {
                assert(enumerated_at(
                    states,
                    replies,
                    n,
                    site,
                    outputs@.len() as int,
                    replies[n]->Object_object,
                ));
            }
        },
        AcquirePhase::CheckOutput { site, outputs, output } => {
            lemma_enumerated_stays(states, replies, n, site, 0, outputs@);
            assert(is_enumerated(states, replies, n + 1, site, outputs@.len() as int, output));
            if states[n + 1].phase() is EnumOutput {
                let more = states[n + 1].phase()->EnumOutput_outputs@;
                assert(addrs(more).len() == outputs@.len() + 1);
                assert forall|i: int| 0 <= i < more.len() implies is_enumerated(
                    states,
                    replies,
                    n + 1,
                    site,
                    0 + i,
                    (#[trigger] more[i]).addr(),
                ) by {
                    assert(more[i].addr() == addrs(more)[i]);
                    if i < outputs@.len() {
                        assert(more[i].addr() == outputs@[i].addr());
                    }
                }
            }
        },
        _ => {},
    }
}

/// What an acquisition holds stays traced when a device is made.
proof fn lemma_creation_is_traced(states: Seq<Acquisition>, replies: Seq<ComReply>, n: int)
    requires
        is_step(states, replies, n),
        0 <= n,
        is_traced(states, replies, n),
        states[n].drops().len() == 0,
        states[n].phase() is CreateDevice,
    ensures
        is_traced(states, replies, n + 1),
{
    let site = states[n].phase()->CreateDevice_site;
    let outputs = states[n].phase()->CreateDevice_outputs@;
    lemma_enumerated_stays(states, replies, n, site, 0, outputs);
    let rest = outputs.skip(1);
    assert forall|i: int| 0 <= i < rest.len() implies is_enumerated(
        states,
        replies,
        n + 1,
        site,
        0 + 1 + i,
        (#[trigger] rest[i]).addr(),
    ) by {
        assert(rest[i] == outputs[i + 1]);
    }
    assert(is_enumerated(states, replies, n + 1, site, 0, outputs[0].addr()));
    assert(created_at(
        states,
        replies,
        n,
        site,
        replies[n]->context,
        replies[n]->device,
    ));
}

/// What an acquisition holds stays traced over a step that asks for an interface.
proof fn lemma_query_is_traced(states: Seq<Acquisition>, replies: Seq<ComReply>, n: int)
    requires
        is_step(states, replies, n),
        0 <= n,
        is_traced(states, replies, n),
        states[n].drops().len() == 0,
        states[n].phase() is QueryOutput || states[n].phase() is QueryDevice
            || states[n].phase() is RestoreDevice,
    ensures
        is_traced(states, replies, n + 1),
{
    let got = replies[n]->Object_object;
    match states[n].phase() {
        AcquirePhase::QueryOutput { bench, output, rest, .. } => {
            let m = bench.pairs@.len() as int;
            lemma_bench_stays(states, replies, n, bench, 0);
            lemma_enumerated_stays(states, replies, n, bench.site, m + 1, rest@);
            assert(queried_at(states, replies, n, Interface::IDXGIOutput1, output.addr(), got));
        },
        AcquirePhase::QueryDevice { bench, device, output, rest } => {
            let m = bench.pairs@.len() as int;
            lemma_bench_stays(states, replies, n, bench, 0);
            lemma_enumerated_stays(states, replies, n, bench.site, m + 1, rest@);
            assert(is_queried(states, replies, n + 1, bench.site, m, output.addr()));
            assert(queried_at(states, replies, n, Interface::IDXGIDevice1, device.addr(), got));
        },
        AcquirePhase::RestoreDevice { bench, device, rest } => {
            let m = bench.pairs@.len() as int;
            lemma_bench_stays(states, replies, n, bench, 0);
            lemma_enumerated_stays(states, replies, n, bench.site, m, rest@);
            assert(queried_at(states, replies, n, Interface::ID3D11Device, device.addr(), got));
            if rest@.len() > 0 {
                let later = rest@.skip(1);
                assert forall|i: int| 0 <= i < later.len() implies is_enumerated(
                    states,
                    replies,
                    n + 1,
                    bench.site,
                    m + 1 + i,
                    (#[trigger] later[i]).addr(),
                ) by {
                    assert(later[i] == rest@[i + 1]);
                }
                assert(is_enumerated(states, replies, n + 1, bench.site, m, rest@[0].addr()));
            }
        },
        _ => {},
    }
}

/// What an acquisition holds stays traced when an output is duplicated.
proof fn lemma_duplication_is_traced(states: Seq<Acquisition>, replies: Seq<ComReply>, n: int)
    requires
        is_step(states, replies, n),
        0 <= n,
        is_traced(states, replies, n),
        states[n].drops().len() == 0,
        states[n].phase() is Duplicate,
    ensures
        is_traced(states, replies, n + 1),
{
    let bench = states[n].phase()->Duplicate_bench;
    let device = states[n].phase()->Duplicate_device;
    let output = states[n].phase()->Duplicate_output;
    let rest = states[n].phase()->Duplicate_rest@;
    let (site, context) = (bench.site, bench.device_context.addr());
    let m = bench.pairs@.len() as int;
    if states[n + 1].phase() is RestoreDevice {
        lemma_bench_stays(states, replies, n, bench, 0);
        lemma_enumerated_stays(states, replies, n, site, m + 1, rest);
        let pairs = states[n + 1].phase()->RestoreDevice_bench.pairs@;
        assert(duplicated_at(
            states,
            replies,
            n,
            device.addr(),
            output.addr(),
            pairs.last().output_duplication.addr(),
        ));
        assert forall|i: int| 0 <= i < pairs.len() implies is_duplicated(
            states,
            replies,
            n + 1,
            site,
            context,
            0 + i,
            (#[trigger] pairs[i]).output.addr(),
            pairs[i].output_duplication.addr(),
        ) by {
            if i < m {
                assert(pairs[i] == pairs.drop_last()[i]);
                assert(pairs[i] == bench.pairs@[i]);
            }
        }
    }
}

/// What an acquisition holds stays traced while outputs are looked at.
proof fn lemma_judgement_is_traced(states: Seq<Acquisition>, replies: Seq<ComReply>, n: int)
    requires
        is_step(states, replies, n),
        0 <= n,
        is_traced(states, replies, n),
        states[n].drops().len() == 0,
        states[n].phase() is FindMonitor || states[n].phase() is CheckMonitor,
    ensures
        is_traced(states, replies, n + 1),
{
    match states[n].phase() {
        AcquirePhase::FindMonitor { bench, primary, .. } => {
            lemma_bench_stays(states, replies, n, bench, primary@.len() as int);
        },
        AcquirePhase::CheckMonitor { bench, primary, .. } => {
            let k = primary@.len() as int;
            lemma_bench_stays(states, replies, n, bench, k);
            if states[n + 1].phase() is FindMonitor {
                let pairs = bench.pairs@.skip(1);
                assert forall|i: int| 0 <= i < pairs.len() implies is_duplicated(
                    states,
                    replies,
                    n + 1,
                    bench.site,
                    bench.device_context.addr(),
                    k + 1 + i,
                    (#[trigger] pairs[i]).output.addr(),
                    pairs[i].output_duplication.addr(),
                ) by {
                    assert(pairs[i] == bench.pairs@[i + 1]);
                }
            }
        },
        _ => {},
    }
}

/// What an acquisition holds stays traced while references are released.
proof fn lemma_release_is_traced(states: Seq<Acquisition>, replies: Seq<ComReply>, n: int)
    requires
        is_step(states, replies, n),
        0 <= n,
        is_traced(states, replies, n),
        states[n].drops().len() > 0,
    ensures
        is_traced(states, replies, n + 1),
{
    match states[n].phase() {
        AcquirePhase::EnumOutput { site, outputs } => {
            lemma_enumerated_stays(states, replies, n, site, 0, outputs@);
        },
        AcquirePhase::CheckOutput { site, outputs, output } => {
            lemma_enumerated_stays(states, replies, n, site, 0, outputs@);
        },
        AcquirePhase::CreateDevice { site, outputs } => {
            lemma_enumerated_stays(states, replies, n, site, 0, outputs@);
        },
        AcquirePhase::QueryOutput { bench, rest, .. } => {
            let m = bench.pairs@.len() as int;
            lemma_bench_stays(states, replies, n, bench, 0);
            lemma_enumerated_stays(states, replies, n, bench.site, m + 1, rest@);
        },
        AcquirePhase::QueryDevice { bench, rest, .. } => {
            let m = bench.pairs@.len() as int;
            lemma_bench_stays(states, replies, n, bench, 0);
            lemma_enumerated_stays(states, replies, n, bench.site, m + 1, rest@);
        },
        AcquirePhase::Duplicate { bench, rest, .. } => {
            let m = bench.pairs@.len() as int;
            lemma_bench_stays(states, replies, n, bench, 0);
            lemma_enumerated_stays(states, replies, n, bench.site, m + 1, rest@);
        },
        AcquirePhase::RestoreDevice { bench, rest, .. } => {
            let m = bench.pairs@.len() as int;
            lemma_bench_stays(states, replies, n, bench, 0);
            lemma_enumerated_stays(states, replies, n, bench.site, m, rest@);
        },
        AcquirePhase::FindMonitor { bench, primary, .. } => {
            lemma_bench_stays(states, replies, n, bench, primary@.len() as int);
        },
        AcquirePhase::CheckMonitor { bench, primary, .. } => {
            lemma_bench_stays(states, replies, n, bench, primary@.len() as int);
        },
        _ => {},
    }
}

/// What an acquisition holds is traced at every point of a run.
proof fn lemma_run_is_traced(states: Seq<Acquisition>, replies: Seq<ComReply>, n: int)
    requires
        is_run(states, replies),
        states[0].phase() is CreateFactory,
        0 <= n <= replies.len(),
    ensures
        is_traced(states, replies, n),
    decreases n,
{
    if n > 0 {
        let i = n - 1;
        lemma_run_is_traced(states, replies, i);
        assert(is_step(states, replies, i));
        if states[i].drops().len() > 0 {
            lemma_release_is_traced(states, replies, i);
        } else {
            match states[i].phase() {
                AcquirePhase::EnumAdapter { .. } => lemma_enumeration_is_traced(states, replies, i),
                AcquirePhase::EnumOutput { .. } => lemma_enumeration_is_traced(states, replies, i),
                AcquirePhase::CheckOutput { .. } => lemma_enumeration_is_traced(states, replies, i),
                AcquirePhase::CreateDevice { .. } => lemma_creation_is_traced(states, replies, i),
                AcquirePhase::QueryOutput { .. } => lemma_query_is_traced(states, replies, i),
                AcquirePhase::QueryDevice { .. } => lemma_query_is_traced(states, replies, i),
                AcquirePhase::RestoreDevice { .. } => lemma_query_is_traced(states, replies, i),
                AcquirePhase::Duplicate { .. } => lemma_duplication_is_traced(states, replies, i),
                AcquirePhase::FindMonitor { .. } => lemma_judgement_is_traced(states, replies, i),
                AcquirePhase::CheckMonitor { .. } => lemma_judgement_is_traced(states, replies, i),
                _ => {},
            }
        }
    }
}

/// Whether a duplicated output is output `k` of an adapter, by what the calls of a run gave: the
/// adapter is the one of its number, the output was enumerated as that output of that adapter, it
/// is this output that was duplicated, and that on the device that was made for that adapter; the
/// device and its context are those that were made so.
pub open spec fn is_output_of(
    states: Seq<Acquisition>,
    replies: Seq<ComReply>,
    output: DuplicatedOutput,
    site: Site,
    k: int,
) -> bool {
    let n = replies.len() as int;
    let context = output.device_context.addr();
    &&& is_adapter(states, replies, n, site)
    &&& is_device(states, replies, n, site, context, output.device.addr())
    &&& is_duplicated(
        states,
        replies,
        n,
        site,
        context,
        k,
        output.output.addr(),
        output.output_duplication.addr(),
    )
}

/// The output that an acquisition on a desktop ends with is the capture source of the desktop, with
/// the device of the adapter that the source is on.
pub proof fn law_acquired_output_is_the_source(
    desktop: Desktop,
    states: Seq<Acquisition>,
    replies: Seq<ComReply>,
)
    requires
        is_run(states, replies),
        states[0].phase() is CreateFactory,
        forall|i: int| 0 <= i < replies.len() ==> desktop.backs(#[trigger] states[i], replies[i]),
    ensures
        states.last().phase() matches AcquirePhase::Finished { acquired: Some(output) }
            ==> exists|site: Site, k: int|
            #[trigger] is_output_of(states, replies, output, site, k) && desktop.is_source(
                states[0].capture_source_index() as nat,
                site.index as int,
                k,
            ),
{
    if states.last().phase() is Finished && states.last().phase()->acquired is Some {
        lemma_end_is_the_source(desktop, states, replies, replies.len() as int);
    }
}

/// Where an acquisition has ended with an output, it is the capture source of the desktop.
proof fn lemma_end_is_the_source(
    desktop: Desktop,
    states: Seq<Acquisition>,
    replies: Seq<ComReply>,
    n: int,
)
    requires
        is_run(states, replies),
        states[0].phase() is CreateFactory,
        forall|i: int| 0 <= i < replies.len() ==> desktop.backs(#[trigger] states[i], replies[i]),
        0 <= n <= replies.len(),
        states[n].phase() is Finished,
        states[n].phase()->acquired is Some,
    ensures
        exists|site: Site, k: int|
            #[trigger] is_output_of(states, replies, states[n].phase()->acquired->0, site, k)
                && desktop.is_source(
                states[0].capture_source_index() as nat,
                site.index as int,
                k,
            ),
    decreases n,
{
    let i = n - 1;
    assert(is_step(states, replies, i));
    if states[i].phase() is Finished {
        lemma_end_is_the_source(desktop, states, replies, i);
    } else {
        lemma_confirmed(desktop, states, replies, i);
        lemma_run_is_traced(states, replies, i);
        law_acquisition_finds_the_source(desktop, states[i], replies[i], states[n]);
        let bench = states[i].phase()->CheckMonitor_bench;
        let k = states[i].phase()->CheckMonitor_primary@.len() as int;
        assert(is_duplicated(
            states,
            replies,
            i,
            bench.site,
            bench.device_context.addr(),
            k + 0,
            bench.pairs@[0].output.addr(),
            bench.pairs@[0].output_duplication.addr(),
        ));
        assert(is_output_of(states, replies, states[n].phase()->acquired->0, bench.site, k));
    }
}

/// Whether calls `g - 1` and `g` of a run asked whether output `k` of an adapter is primary: the
/// first described this output, and the second asked for the flags of the monitor that it was
/// described to have, which are odd where the monitor is the primary one.
pub open spec fn judged_at(
    states: Seq<Acquisition>,
    replies: Seq<ComReply>,
    g: int,
    site: Site,
    k: int,
    primary: bool,
) -> bool {
    &&& 1 <= g
    &&& states[g - 1].next_call() matches Some(ComCall::GetOutputDesc { output })
    &&& is_queried(states, replies, g - 1, site, k, output)
    &&& replies[g - 1] matches ComReply::Output(desc)
    &&& states[g].next_call() == Some(ComCall::GetMonitorInfo { monitor: desc.monitor, size: 40 })
    &&& replies[g] matches ComReply::Monitor { flags }
    &&& primary == (flags % 2 == 1)
}

/// Whether calls before call `n` of a run told of output `k` of an adapter whether it is primary.
pub open spec fn is_judged(
    states: Seq<Acquisition>,
    replies: Seq<ComReply>,
    n: int,
    site: Site,
    k: int,
    primary: bool,
) -> bool {
    exists|g: int| 0 <= g < n && #[trigger] judged_at(states, replies, g, site, k, primary)
}

/// Whether calls before call `n` of a run told of the first outputs of an adapter whether they are
/// primary.
pub open spec fn all_judged(
    states: Seq<Acquisition>,
    replies: Seq<ComReply>,
    n: int,
    site: Site,
    primary: Seq<bool>,
) -> bool {
    forall|k: int|
        0 <= k < primary.len() ==> is_judged(states, replies, n, site, k, #[trigger] primary[k])
}

/// Whether what an acquisition knows of monitors was told before call `n` of a run.
spec fn is_informed(states: Seq<Acquisition>, replies: Seq<ComReply>, n: int) -> bool {
    match states[n].phase() {
        AcquirePhase::FindMonitor { bench, primary, .. } => {
            all_judged(states, replies, n, bench.site, primary@)
        },
        AcquirePhase::CheckMonitor { bench, primary, monitor, .. } => {
            &&& all_judged(states, replies, n, bench.site, primary@)
            &&& n >= 1
            &&& states[n].drops().len() == 0
            &&& states[n - 1].next_call() == Some(
                ComCall::GetOutputDesc { output: bench.pairs@[0].output.addr() },
            )
            &&& is_queried(
                states,
                replies,
                n - 1,
                bench.site,
                primary@.len() as int,
                bench.pairs@[0].output.addr(),
            )
            &&& replies[n - 1] matches ComReply::Output(desc) && desc.monitor == monitor
        },
        _ => true,
    }
}

proof fn lemma_judged_stays(
    states: Seq<Acquisition>,
    replies: Seq<ComReply>,
    n: int,
    site: Site,
    primary: Seq<bool>,
)
    requires
        all_judged(states, replies, n, site, primary),
    ensures
        all_judged(states, replies, n + 1, site, primary),
{
    assert forall|k: int| 0 <= k < primary.len() implies is_judged(
        states,
        replies,
        n + 1,
        site,
        k,
        #[trigger] primary[k],
    ) by {
        assert(is_judged(states, replies, n, site, k, primary[k]));
    }
}

/// The flags of a monitor tell of the output that was described before.
proof fn lemma_monitor_judges(states: Seq<Acquisition>, replies: Seq<ComReply>, n: int)
    requires
        is_step(states, replies, n),
        0 <= n,
        is_informed(states, replies, n),
        states[n].phase() is CheckMonitor,
    ensures
        replies[n] is Monitor,
        judged_at(
            states,
            replies,
            n,
            states[n].phase()->CheckMonitor_bench.site,
            states[n].phase()->CheckMonitor_primary@.len() as int,
            is_primary(replies[n]->Monitor_flags),
        ),
        all_judged(
            states,
            replies,
            n + 1,
            states[n].phase()->CheckMonitor_bench.site,
            states[n].phase()->CheckMonitor_primary@.push(is_primary(replies[n]->Monitor_flags)),
        ),
{
    let site = states[n].phase()->CheckMonitor_bench.site;
    let primary = states[n].phase()->CheckMonitor_primary@;
    let flag = is_primary(replies[n]->Monitor_flags);
    law_primary_monitor_has_odd_flags(replies[n]->Monitor_flags);
    assert(judged_at(states, replies, n, site, primary.len() as int, flag));
    lemma_judged_stays(states, replies, n, site, primary);
    let more = primary.push(flag);
    assert forall|k: int| 0 <= k < more.len() implies is_judged(
        states,
        replies,
        n + 1,
        site,
        k,
        #[trigger] more[k],
    ) by {
        if k < primary.len() {
            assert(is_judged(states, replies, n + 1, site, k, primary[k]));
        }
    }
}

/// What an acquisition knows of monitors was told before, at every point of a run.
proof fn lemma_run_is_informed(states: Seq<Acquisition>, replies: Seq<ComReply>, n: int)
    requires
        is_run(states, replies),
        states[0].phase() is CreateFactory,
        0 <= n <= replies.len(),
    ensures
        is_informed(states, replies, n),
    decreases n,
{
    if n > 0 {
        let i = n - 1;
        lemma_run_is_informed(states, replies, i);
        lemma_run_is_traced(states, replies, i);
        assert(is_step(states, replies, i));
        match states[i].phase() {
            AcquirePhase::FindMonitor { bench, primary, .. } => {
                lemma_judged_stays(states, replies, i, bench.site, primary@);
                let pair = bench.pairs@[0];
                let k = primary@.len() as int;
                assert(is_duplicated(
                    states,
                    replies,
                    i,
                    bench.site,
                    bench.device_context.addr(),
                    k + 0,
                    pair.output.addr(),
                    pair.output_duplication.addr(),
                ));
                lemma_queried_stays(states, replies, i, bench, k);
            },
            AcquirePhase::CheckMonitor { .. } => {
                lemma_monitor_judges(states, replies, i);
            },
            _ => {
                if let AcquirePhase::FindMonitor { primary, .. } = states[n].phase() {
                    assert(primary@.len() == 0);
                }
            },
        }
    }
}

/// The first output of a bench was asked for as one that can be duplicated.
proof fn lemma_queried_stays(
    states: Seq<Acquisition>,
    replies: Seq<ComReply>,
    n: int,
    bench: Bench,
    k: int,
)
    requires
        is_duplicated(
            states,
            replies,
            n,
            bench.site,
            bench.device_context.addr(),
            k,
            bench.pairs@[0].output.addr(),
            bench.pairs@[0].output_duplication.addr(),
        ),
    ensures
        is_queried(states, replies, n, bench.site, k, bench.pairs@[0].output.addr()),
{
    let output = bench.pairs@[0].output.addr();
    let duplication = bench.pairs@[0].output_duplication.addr();
    let (d, dxgi) = choose|d: int, dxgi: usize|
        0 <= d < n && #[trigger] duplicated_at(states, replies, d, dxgi, output, duplication)
            && is_queried(states, replies, d, bench.site, k, output) && is_dxgi_device(
            states,
            replies,
            d,
            bench.site,
            bench.device_context.addr(),
            dxgi,
        );
    assert(is_queried(states, replies, d, bench.site, k, output));
}

/// Every question about a monitor is about the one that the output was described to have by the
/// call before, and this output is one of those of the adapter.
pub proof fn law_monitor_asked_for_is_that_of_an_output(
    states: Seq<Acquisition>,
    replies: Seq<ComReply>,
    g: int,
)
    requires
        is_run(states, replies),
        states[0].phase() is CreateFactory,
        0 <= g < replies.len(),
        states[g].next_call() is Some,
        states[g].next_call()->0 is GetMonitorInfo,
    ensures
        exists|site: Site, k: int, primary: bool|
            #[trigger] judged_at(states, replies, g, site, k, primary),
{
    lemma_run_is_informed(states, replies, g);
    assert(is_step(states, replies, g));
    lemma_monitor_judges(states, replies, g);
}

/// Whether the last of the first outputs of an adapter is a capture source, by which of them are
/// primary: source 0 is the first that is, and source `n > 0` is not primary and has `n - 1` before
/// it that are not.
pub open spec fn is_chosen(primary: Seq<bool>, cs_index: int) -> bool {
    let before = primary.drop_last();
    &&& primary.len() > 0
    &&& if cs_index == 0 {
        primary.last() && forall|j: int| 0 <= j < before.len() ==> !before[j]
    } else {
        !primary.last() && before.filter(|p: bool| !p).len() == cs_index - 1
    }
}

/// The output that an acquisition ends with is chosen by what was told of the monitors of the
/// outputs of its adapter, from the first one to this one.
pub proof fn law_acquired_output_is_chosen_by_monitors(
    states: Seq<Acquisition>,
    replies: Seq<ComReply>,
)
    requires
        is_run(states, replies),
        states[0].phase() is CreateFactory,
    ensures
        states.last().phase() matches AcquirePhase::Finished { acquired: Some(output) }
            ==> exists|site: Site, primary: Seq<bool>|
            #[trigger] all_judged(states, replies, replies.len() as int, site, primary) && is_output_of(
                states,
                replies,
                output,
                site,
                primary.len() - 1,
            ) && is_chosen(primary, states[0].capture_source_index() as int),
{
    if states.last().phase() is Finished && states.last().phase()->acquired is Some {
        lemma_end_is_chosen(states, replies, replies.len() as int);
    }
}

proof fn lemma_end_is_chosen(states: Seq<Acquisition>, replies: Seq<ComReply>, n: int)
    requires
        is_run(states, replies),
        states[0].phase() is CreateFactory,
        0 <= n <= replies.len(),
        states[n].phase() is Finished,
        states[n].phase()->acquired is Some,
    ensures
        exists|site: Site, primary: Seq<bool>|
            #[trigger] all_judged(states, replies, replies.len() as int, site, primary) && is_output_of(
                states,
                replies,
                states[n].phase()->acquired->0,
                site,
                primary.len() - 1,
            ) && is_chosen(primary, states[0].capture_source_index() as int),
    decreases n,
{
    let i = n - 1;
    assert(is_step(states, replies, i));
    if states[i].phase() is Finished {
        lemma_end_is_chosen(states, replies, i);
    } else {
        lemma_run_is_traced(states, replies, i);
        lemma_run_is_informed(states, replies, i);
        lemma_monitor_judges(states, replies, i);
        lemma_same_capture_source(states, replies, i);
        let bench = states[i].phase()->CheckMonitor_bench;
        let before = states[i].phase()->CheckMonitor_primary@;
        let primary = before.push(is_primary(replies[i]->Monitor_flags));
        let k = before.len() as int;
        assert(is_duplicated(
            states,
            replies,
            i,
            bench.site,
            bench.device_context.addr(),
            k + 0,
            bench.pairs@[0].output.addr(),
            bench.pairs@[0].output_duplication.addr(),
        ));
        assert(is_output_of(states, replies, states[n].phase()->acquired->0, bench.site, k));
        law_capture_source_goes_by_order(primary, states[0].capture_source_index() as nat, k);
        assert(primary.take(k) =~= before);
        assert(primary.drop_last() =~= before);
        lemma_judged_until(states, replies, n, replies.len() as int, bench.site, primary);
    }
}

proof fn lemma_judged_until(
    states: Seq<Acquisition>,
    replies: Seq<ComReply>,
    n: int,
    m: int,
    site: Site,
    primary: Seq<bool>,
)
    requires
        n <= m,
        all_judged(states, replies, n, site, primary),
    ensures
        all_judged(states, replies, m, site, primary),
    decreases m - n,
{
    if n < m {
        lemma_judged_stays(states, replies, n, site, primary);
        lemma_judged_until(states, replies, n + 1, m, site, primary);
    }
}

proof fn lemma_same_capture_source(states: Seq<Acquisition>, replies: Seq<ComReply>, n: int)
    requires
        is_run(states, replies),
        0 <= n <= replies.len(),
    ensures
        states[n].capture_source_index() == states[0].capture_source_index(),
    decreases n,
{
    if n > 0 {
        lemma_same_capture_source(states, replies, n - 1);
        assert(is_step(states, replies, n - 1));
    }
}

/// Whether a call before call `n` of a run duplicated an output, and got the duplication at an
/// address.
pub open spec fn is_duplication_of(
    states: Seq<Acquisition>,
    replies: Seq<ComReply>,
    n: int,
    output: usize,
    duplication: usize,
) -> bool {
    exists|d: int, dxgi: usize|
        0 <= d < n && #[trigger] duplicated_at(states, replies, d, dxgi, output, duplication)
}

/// Where an output that was looked at is not the one that is acquired, its duplication and then the
/// output itself are released before anything else is done.
pub proof fn law_rejected_output_is_released_next(
    states: Seq<Acquisition>,
    replies: Seq<ComReply>,
    g: int,
)
    requires
        is_run(states, replies),
        states[0].phase() is CreateFactory,
        0 <= g < replies.len(),
        states[g].next_call() is Some,
        states[g].next_call()->0 is GetMonitorInfo,
        states[g + 1].phase() !is Finished,
    ensures
        g >= 1,
        states[g - 1].next_call() matches Some(ComCall::GetOutputDesc { output }) && {
            &&& states[g + 1].next_call() matches Some(ComCall::Release { object })
            &&& is_duplication_of(states, replies, g, output, object)
            &&& g + 1 < replies.len() ==> states[g + 2].next_call() == Some(
                ComCall::Release { object: output },
            )
        },
{
    lemma_run_is_informed(states, replies, g);
    lemma_run_is_traced(states, replies, g);
    assert(is_step(states, replies, g));
    let bench = states[g].phase()->CheckMonitor_bench;
    let k = states[g].phase()->CheckMonitor_primary@.len() as int;
    assert(is_duplicated(
        states,
        replies,
        g,
        bench.site,
        bench.device_context.addr(),
        k + 0,
        bench.pairs@[0].output.addr(),
        bench.pairs@[0].output_duplication.addr(),
    ));
    let (output, duplication) = (
        bench.pairs@[0].output.addr(),
        bench.pairs@[0].output_duplication.addr(),
    );
    assert(states[g - 1].next_call() == Some(ComCall::GetOutputDesc { output }));
    assert(states[g + 1].next_call() == Some(ComCall::Release { object: duplication }));
    assert(is_duplication_of(states, replies, g, output, duplication));
    if g + 1 < replies.len() {
        assert(is_step(states, replies, g + 1));
    }
}

/// An acquisition ends with the output that was looked at last if and only if that is chosen by
/// what was told of the monitors of the outputs of its adapter so far, and goes on else.
pub proof fn law_chosen_output_is_acquired_at_once(
    states: Seq<Acquisition>,
    replies: Seq<ComReply>,
    g: int,
)
    requires
        is_run(states, replies),
        states[0].phase() is CreateFactory,
        0 <= g < replies.len(),
        states[g].next_call() is Some,
        states[g].next_call()->0 is GetMonitorInfo,
    ensures
        exists|site: Site, primary: Seq<bool>|
            #[trigger] all_judged(states, replies, g + 1, site, primary) && primary.len() > 0
                && judged_at(states, replies, g, site, primary.len() - 1, primary.last()) && (
            states[g + 1].phase() is Finished <==> is_chosen(
                primary,
                states[0].capture_source_index() as int,
            )),
        states[g + 1].phase() matches AcquirePhase::Finished { acquired } ==> acquired is Some
            && states[g - 1].next_call() == Some(
            ComCall::GetOutputDesc { output: acquired->0.output.addr() },
        ),
{
    lemma_run_is_informed(states, replies, g);
    assert(is_step(states, replies, g));
    lemma_monitor_judges(states, replies, g);
    lemma_same_capture_source(states, replies, g);
    let site = states[g].phase()->CheckMonitor_bench.site;
    let before = states[g].phase()->CheckMonitor_primary@;
    let primary = before.push(is_primary(replies[g]->Monitor_flags));
    let k = before.len() as int;
    law_capture_source_goes_by_order(primary, states[0].capture_source_index() as nat, k);
    assert(primary.take(k) =~= before);
    assert(primary.drop_last() =~= before);
    assert(all_judged(states, replies, g + 1, site, primary));
}

} // verus!
