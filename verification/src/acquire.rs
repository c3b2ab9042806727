//! How the output that is the capture source is found and duplicated.
use vstd::multiset::Multiset;
use vstd::prelude::*;

use crate::com::{
    addrs, ComCall, ComReply, ID3D11Device, ID3D11DeviceContext, IDXGIAdapter1, IDXGIDevice1,
    IDXGIFactory1, IDXGIOutput, IDXGIOutput1, IDXGIOutputDuplication, Interface, UniqueCOMPtr,
    NULL,
};
use crate::frame::{lemma_refs_are_held, DuplicatedOutput};
use crate::hresult::{hr_failed, DXGI_ERROR_NOT_FOUND, E_ACCESSDENIED};
use crate::refs::{lemma_all_refs, lemma_first_ref, lemma_no_refs, lemma_two_refs};
use crate::source::{
    get_capture_source, is_capture_source, is_primary, lacks_capture_source, law_search_may_stop,
    output_is_primary,
};

verus! {

/// The kind of driver of a device that is made for a given adapter.
pub const D3D_DRIVER_TYPE_UNKNOWN: u32 = 0;

/// The version of the interface that a device is asked for.
pub const D3D11_SDK_VERSION: u32 = 7;

/// The bytes of the structure that is filled with what is told of a monitor: its size, two
/// rectangles and the flags.
pub const MONITORINFO_SIZE: u32 = 40;

/// The adapter that is looked at.
pub struct Site {
    pub factory: UniqueCOMPtr<IDXGIFactory1>,
    /// The number of the adapter.
    pub index: u32,
    pub adapter: UniqueCOMPtr<IDXGIAdapter1>,
}

/// An output and its duplication.
pub struct OutputPair {
    pub output_duplication: UniqueCOMPtr<IDXGIOutputDuplication>,
    pub output: UniqueCOMPtr<IDXGIOutput1>,
}

/// An adapter for which there is a device, and those of its outputs that are duplicated and may
/// still be the capture source.
pub struct Bench {
    pub site: Site,
    pub device_context: UniqueCOMPtr<ID3D11DeviceContext>,
    pub pairs: Vec<OutputPair>,
}

/// How far the acquisition has come, named by the call that is due.
#[allow(inconsistent_fields)]
pub enum AcquirePhase {
    CreateFactory,
    EnumAdapter { factory: UniqueCOMPtr<IDXGIFactory1>, index: u32 },
    EnumOutput { site: Site, outputs: Vec<UniqueCOMPtr<IDXGIOutput>> },
    /// The output that was found is not owned before it is known to be attached.
    CheckOutput { site: Site, outputs: Vec<UniqueCOMPtr<IDXGIOutput>>, output: usize },
    CreateDevice { site: Site, outputs: Vec<UniqueCOMPtr<IDXGIOutput>> },
    QueryOutput {
        bench: Bench,
        device: UniqueCOMPtr<ID3D11Device>,
        output: UniqueCOMPtr<IDXGIOutput>,
        rest: Vec<UniqueCOMPtr<IDXGIOutput>>,
    },
    QueryDevice {
        bench: Bench,
        device: UniqueCOMPtr<ID3D11Device>,
        output: UniqueCOMPtr<IDXGIOutput1>,
        rest: Vec<UniqueCOMPtr<IDXGIOutput>>,
    },
    Duplicate {
        bench: Bench,
        device: UniqueCOMPtr<IDXGIDevice1>,
        output: UniqueCOMPtr<IDXGIOutput1>,
        rest: Vec<UniqueCOMPtr<IDXGIOutput>>,
    },
    RestoreDevice {
        bench: Bench,
        device: UniqueCOMPtr<IDXGIDevice1>,
        rest: Vec<UniqueCOMPtr<IDXGIOutput>>,
    },
    /// `primary` tells of the outputs that were looked at; those in `bench` are still to be.
    FindMonitor { bench: Bench, device: UniqueCOMPtr<ID3D11Device>, primary: Vec<bool> },
    CheckMonitor {
        bench: Bench,
        device: UniqueCOMPtr<ID3D11Device>,
        primary: Vec<bool>,
        monitor: usize,
    },
    /// The system has denied the duplication of an output.
    Refused,
    Finished { acquired: Option<DuplicatedOutput> },
}

/// An acquisition of the output that is the capture source.
pub struct Acquisition {
    capture_source_index: usize,
    phase: AcquirePhase,
    /// References to release before anything else is done.
    drops: Vec<usize>,
}

/// The references that pairs hold, in the order in which they are let go of.
pub open spec fn pair_refs(pairs: Seq<OutputPair>) -> Seq<usize>
    decreases pairs.len(),
{
    if pairs.len() == 0 {
        Seq::empty()
    } else {
        seq![pairs[0].output_duplication.addr(), pairs[0].output.addr()] + pair_refs(pairs.skip(1))
    }
}

/// Lets go of pairs.
fn release_pairs(pairs: Vec<OutputPair>, drops: &mut Vec<usize>)
    ensures
        final(drops)@ == old(drops)@ + pair_refs(pairs@),
{
    let ghost before = drops@;
    let ghost all = pairs@;
    let mut pairs = pairs;
    while pairs.len() > 0
        invariant
            drops@ + pair_refs(pairs@) == before + pair_refs(all),
        decreases pairs@.len(),
    {
        let ghost left = pairs@;
        let ghost so_far = drops@;
        let pair = pairs.remove(0);
        assert(pairs@ == left.skip(1));
        pair.output_duplication.release(drops);
        pair.output.release(drops);
        assert(drops@ + pair_refs(pairs@) =~= so_far + pair_refs(left));
    }
    assert(drops@ =~= drops@ + pair_refs(pairs@));
}

/// Lets go of outputs.
fn release_outputs(outputs: Vec<UniqueCOMPtr<IDXGIOutput>>, drops: &mut Vec<usize>)
    ensures
        final(drops)@ == old(drops)@ + addrs(outputs@),
{
    let ghost before = drops@;
    let ghost all = outputs@;
    let mut outputs = outputs;
    while outputs.len() > 0
        invariant
            drops@ + addrs(outputs@) == before + addrs(all),
        decreases outputs@.len(),
    {
        let ghost left = outputs@;
        let ghost so_far = drops@;
        let output = outputs.remove(0);
        output.release(drops);
        assert(addrs(left) =~= seq![left[0].addr()] + addrs(outputs@));
        assert(drops@ + addrs(outputs@) =~= so_far + addrs(left));
    }
    assert(drops@ =~= drops@ + addrs(outputs@));
}

impl Site {
    /// The references that are held.
    pub open spec fn held(&self) -> Multiset<usize> {
        Multiset::singleton(self.factory.addr()).insert(self.adapter.addr())
    }
}

impl Bench {
    /// The references that are held.
    pub open spec fn held(&self) -> Multiset<usize> {
        self.site.held().insert(self.device_context.addr()).add(
            pair_refs(self.pairs@).to_multiset(),
        )
    }
}

impl AcquirePhase {
    /// The references that are held for the work that is still to do.
    pub open spec fn held(&self) -> Multiset<usize> {
        match self {
            AcquirePhase::CreateFactory => Multiset::empty(),
            AcquirePhase::EnumAdapter { factory, .. } => Multiset::singleton(factory.addr()),
            AcquirePhase::EnumOutput { site, outputs } => site.held().add(
                addrs(outputs@).to_multiset(),
            ),
            AcquirePhase::CheckOutput { site, outputs, output } => site.held().add(
                addrs(outputs@).to_multiset(),
            ).insert(*output),
            AcquirePhase::CreateDevice { site, outputs } => site.held().add(
                addrs(outputs@).to_multiset(),
            ),
            AcquirePhase::QueryOutput { bench, device, output, rest } => bench.held().add(
                addrs(rest@).to_multiset(),
            ).insert(device.addr()).insert(output.addr()),
            AcquirePhase::QueryDevice { bench, device, output, rest } => bench.held().add(
                addrs(rest@).to_multiset(),
            ).insert(device.addr()).insert(output.addr()),
            AcquirePhase::Duplicate { bench, device, output, rest } => bench.held().add(
                addrs(rest@).to_multiset(),
            ).insert(device.addr()).insert(output.addr()),
            AcquirePhase::RestoreDevice { bench, device, rest } => bench.held().add(
                addrs(rest@).to_multiset(),
            ).insert(device.addr()),
            AcquirePhase::FindMonitor { bench, device, .. } => bench.held().insert(device.addr()),
            AcquirePhase::CheckMonitor { bench, device, .. } => bench.held().insert(device.addr()),
            AcquirePhase::Refused => Multiset::empty(),
            AcquirePhase::Finished { acquired: Some(output) } => output.held(),
            AcquirePhase::Finished { acquired: None } => Multiset::empty(),
        }
    }
}

impl Acquisition {
    /// The capture source that is looked for.
    pub closed spec fn capture_source_index(&self) -> usize {
        self.capture_source_index
    }

    /// How far it has come.
    pub closed spec fn phase(&self) -> AcquirePhase {
        self.phase
    }

    /// The references that are released before anything else is done.
    pub closed spec fn drops(&self) -> Seq<usize> {
        self.drops@
    }

    /// The references that the acquisition holds.
    pub open spec fn held(&self) -> Multiset<usize> {
        self.phase().held().add(self.drops().to_multiset())
    }

    /// What holds of every acquisition: numbers of adapters and outputs stay within 32 bits, a
    /// device is made only for an adapter that has outputs, and of the outputs that were looked at
    /// none is the capture source.
    pub open spec fn wf(&self) -> bool {
        match self.phase() {
            AcquirePhase::CreateFactory => true,
            AcquirePhase::EnumAdapter { index, .. } => index < u32::MAX,
            AcquirePhase::EnumOutput { site, outputs } => {
                &&& site.index + 1 < u32::MAX
                &&& outputs@.len() < u32::MAX
            },
            AcquirePhase::CheckOutput { site, outputs, .. } => {
                &&& site.index + 1 < u32::MAX
                &&& outputs@.len() + 1 < u32::MAX
            },
            AcquirePhase::CreateDevice { site, outputs } => {
                &&& site.index + 1 < u32::MAX
                &&& outputs@.len() > 0
            },
            AcquirePhase::QueryOutput { bench, .. } => bench.site.index + 1 < u32::MAX,
            AcquirePhase::QueryDevice { bench, .. } => bench.site.index + 1 < u32::MAX,
            AcquirePhase::Duplicate { bench, .. } => bench.site.index + 1 < u32::MAX,
            AcquirePhase::RestoreDevice { bench, .. } => {
                &&& bench.site.index + 1 < u32::MAX
                &&& bench.pairs@.len() > 0
            },
            AcquirePhase::FindMonitor { bench, primary, .. } => {
                &&& bench.site.index + 1 < u32::MAX
                &&& bench.pairs@.len() > 0
                &&& lacks_capture_source(primary@, self.capture_source_index() as nat)
            },
            AcquirePhase::CheckMonitor { bench, primary, .. } => {
                &&& bench.site.index + 1 < u32::MAX
                &&& bench.pairs@.len() > 0
                &&& lacks_capture_source(primary@, self.capture_source_index() as nat)
            },
            AcquirePhase::Refused => true,
            AcquirePhase::Finished { .. } => true,
        }
    }

    /// The call that is due, or `None` when the work is done.
    pub open spec fn next_call(&self) -> Option<ComCall> {
        if self.drops().len() > 0 {
            Some(ComCall::Release { object: self.drops()[0] })
        } else {
            match self.phase() {
                AcquirePhase::CreateFactory => Some(
                    ComCall::CreateFactory1 { interface: Interface::IDXGIFactory1 },
                ),
                AcquirePhase::EnumAdapter { factory, index } => Some(
                    ComCall::EnumAdapters1 { factory: factory.addr(), index },
                ),
                AcquirePhase::EnumOutput { site, outputs } => Some(
                    ComCall::EnumOutputs {
                        adapter: site.adapter.addr(),
                        index: outputs@.len() as u32,
                    },
                ),
                AcquirePhase::CheckOutput { output, .. } => Some(ComCall::GetOutputDesc { output }),
                AcquirePhase::CreateDevice { site, .. } => Some(
                    ComCall::CreateDevice {
                        adapter: site.adapter.addr(),
                        driver_type: D3D_DRIVER_TYPE_UNKNOWN,
                        software: NULL,
                        flags: 0,
                        feature_levels: NULL,
                        feature_level_count: 0,
                        sdk_version: D3D11_SDK_VERSION,
                    },
                ),
                AcquirePhase::QueryOutput { output, .. } => Some(
                    ComCall::QueryInterface {
                        object: output.addr(),
                        interface: Interface::IDXGIOutput1,
                    },
                ),
                AcquirePhase::QueryDevice { device, .. } => Some(
                    ComCall::QueryInterface {
                        object: device.addr(),
                        interface: Interface::IDXGIDevice1,
                    },
                ),
                AcquirePhase::Duplicate { device, output, .. } => Some(
                    ComCall::DuplicateOutput { output: output.addr(), device: device.addr() },
                ),
                AcquirePhase::RestoreDevice { device, .. } => Some(
                    ComCall::QueryInterface {
                        object: device.addr(),
                        interface: Interface::ID3D11Device,
                    },
                ),
                AcquirePhase::FindMonitor { bench, .. } => Some(
                    ComCall::GetOutputDesc { output: bench.pairs@[0].output.addr() },
                ),
                AcquirePhase::CheckMonitor { monitor, .. } => Some(
                    ComCall::GetMonitorInfo { monitor, size: MONITORINFO_SIZE },
                ),
                AcquirePhase::Refused => None,
                AcquirePhase::Finished { .. } => None,
            }
        }
    }

    /// Whether the work can go on with a reply: it is of the kind that the call gives; factory,
    /// devices and interfaces, without which nothing can be captured, are there; an adapter is
    /// there or is told not to exist; a duplication is there or is denied; and adapters and outputs
    /// can be counted in 32 bits.
    pub open spec fn accepts(&self, reply: ComReply) -> bool {
        if self.drops().len() > 0 {
            reply is Done
        } else {
            match (self.phase(), reply) {
                (AcquirePhase::CreateFactory, ComReply::Object { hr, .. }) => hr >= 0,
                (AcquirePhase::EnumAdapter { index, .. }, ComReply::Object { hr, .. }) => {
                    hr == DXGI_ERROR_NOT_FOUND || hr >= 0 && index + 1 < u32::MAX
                },
                (AcquirePhase::EnumOutput { outputs, .. }, ComReply::Object { hr, .. }) => {
                    hr < 0 || outputs@.len() + 1 < u32::MAX
                },
                (AcquirePhase::CheckOutput { .. }, ComReply::Output(_)) => true,
                (AcquirePhase::CreateDevice { .. }, ComReply::Device { hr, .. }) => hr >= 0,
                (AcquirePhase::QueryOutput { .. }, ComReply::Object { hr, .. }) => hr >= 0,
                (AcquirePhase::QueryDevice { .. }, ComReply::Object { hr, .. }) => hr >= 0,
                (AcquirePhase::Duplicate { .. }, ComReply::Object { hr, .. }) => {
                    hr == 0 || hr == E_ACCESSDENIED
                },
                (AcquirePhase::RestoreDevice { .. }, ComReply::Object { hr, .. }) => hr >= 0,
                (AcquirePhase::FindMonitor { .. }, ComReply::Output(_)) => true,
                (AcquirePhase::CheckMonitor { .. }, ComReply::Monitor { .. }) => true,
                _ => false,
            }
        }
    }

    /// Whether the next adapter is asked for, the references on `drops` first being released.
    pub open spec fn moves_on(&self, site: Site, drops: Seq<usize>) -> bool {
        &&& self.phase() == AcquirePhase::EnumAdapter {
            factory: site.factory,
            index: (site.index + 1) as u32,
        }
        &&& self.drops() == drops
    }

    /// Whether it goes on from the outputs that an adapter was found to have: to making a device,
    /// or to the next adapter where there is none.
    pub open spec fn goes_on_with(&self, site: Site, outputs: Vec<UniqueCOMPtr<IDXGIOutput>>) -> bool {
        if outputs@.len() == 0 {
            self.moves_on(site, seq![site.adapter.addr()])
        } else {
            &&& self.phase() == AcquirePhase::CreateDevice { site, outputs }
            &&& self.drops() == Seq::<usize>::empty()
        }
    }

    /// Whether `next` is what comes after a reply to the call that was due.
    pub open spec fn leads_to(&self, reply: ComReply, next: Acquisition) -> bool {
        &&& next.capture_source_index() == self.capture_source_index()
        &&& if self.drops().len() > 0 {
            next.phase() == self.phase() && next.drops() == self.drops().skip(1)
        } else {
            match (self.phase(), reply) {
                (AcquirePhase::CreateFactory, ComReply::Object { object, .. }) => {
                    &&& next.phase() matches AcquirePhase::EnumAdapter { factory, index }
                        && factory.addr() == object && index == 0
                    &&& next.drops() == Seq::<usize>::empty()
                },
                (
                    AcquirePhase::EnumAdapter { factory, index },
                    ComReply::Object { hr, object },
                ) => if hr == DXGI_ERROR_NOT_FOUND {
                    &&& next.phase() == AcquirePhase::Finished { acquired: None }
                    &&& next.drops() == seq![factory.addr()]
                } else {
                    &&& next.phase() matches AcquirePhase::EnumOutput { site, outputs }
                        && site.factory == factory && site.index == index && site.adapter.addr()
                        == object && outputs@.len() == 0
                    &&& next.drops() == Seq::<usize>::empty()
                },
                (
                    AcquirePhase::EnumOutput { site, outputs },
                    ComReply::Object { hr, object },
                ) => if hr < 0 {
                    next.goes_on_with(site, outputs)
                } else {
                    &&& next.phase() == AcquirePhase::CheckOutput { site, outputs, output: object }
                    &&& next.drops() == Seq::<usize>::empty()
                },
                (
                    AcquirePhase::CheckOutput { site, outputs, output },
                    ComReply::Output(desc),
                ) => if desc.attached_to_desktop != 0 {
                    &&& next.phase() matches AcquirePhase::EnumOutput { site: same, outputs: more }
                        && same == site && addrs(more@) == addrs(outputs@).push(output)
                    &&& next.drops() == Seq::<usize>::empty()
                } else {
                    next.goes_on_with(site, outputs)
                },
                (
                    AcquirePhase::CreateDevice { site, outputs },
                    ComReply::Device { device, context, .. },
                ) => {
                    &&& next.phase() matches AcquirePhase::QueryOutput {
                        bench,
                        device: d,
                        output,
                        rest,
                    } && bench.site == site && bench.device_context.addr() == context
                        && bench.pairs@.len() == 0 && d.addr() == device && output == outputs@[0]
                        && rest@ == outputs@.skip(1)
                    &&& next.drops() == Seq::<usize>::empty()
                },
                (
                    AcquirePhase::QueryOutput { bench, device, output, rest },
                    ComReply::Object { object, .. },
                ) => {
                    &&& next.phase() matches AcquirePhase::QueryDevice {
                        bench: b,
                        device: d,
                        output: output1,
                        rest: r,
                    } && b == bench && d == device && output1.addr() == object && r == rest
                    &&& next.drops() == seq![output.addr()]
                },
                (
                    AcquirePhase::QueryDevice { bench, device, output, rest },
                    ComReply::Object { object, .. },
                ) => {
                    &&& next.phase() matches AcquirePhase::Duplicate {
                        bench: b,
                        device: d,
                        output: o,
                        rest: r,
                    } && b == bench && d.addr() == object && o == output && r == rest
                    &&& next.drops() == seq![device.addr()]
                },
                (
                    AcquirePhase::Duplicate { bench, device, output, rest },
                    ComReply::Object { hr, object },
                ) => if hr == E_ACCESSDENIED {
                    &&& next.phase() == AcquirePhase::Refused
                    &&& next.drops() == seq![output.addr(), device.addr()] + addrs(rest@)
                        + pair_refs(bench.pairs@) + seq![
                        bench.device_context.addr(),
                        bench.site.adapter.addr(),
                        bench.site.factory.addr(),
                    ]
                } else {
                    &&& next.phase() matches AcquirePhase::RestoreDevice {
                        bench: b,
                        device: d,
                        rest: r,
                    } && b.site == bench.site && b.device_context == bench.device_context
                        && b.pairs@.len() == bench.pairs@.len() + 1 && b.pairs@.drop_last()
                        == bench.pairs@ && b.pairs@.last().output == output
                        && b.pairs@.last().output_duplication.addr() == object && d == device && r
                        == rest
                    &&& next.drops() == Seq::<usize>::empty()
                },
                (
                    AcquirePhase::RestoreDevice { bench, device, rest },
                    ComReply::Object { object, .. },
                ) => {
                    &&& if rest@.len() == 0 {
                        next.phase() matches AcquirePhase::FindMonitor { bench: b, device: d, primary }
                            && b == bench && d.addr() == object && primary@.len() == 0
                    } else {
                        next.phase() matches AcquirePhase::QueryOutput {
                            bench: b,
                            device: d,
                            output,
                            rest: r,
                        } && b == bench && d.addr() == object && output == rest@[0] && r@
                            == rest@.skip(1)
                    }
                    &&& next.drops() == seq![device.addr()]
                },
                (
                    AcquirePhase::FindMonitor { bench, device, primary },
                    ComReply::Output(desc),
                ) => {
                    &&& next.phase() == AcquirePhase::CheckMonitor {
                        bench,
                        device,
                        primary,
                        monitor: desc.monitor,
                    }
                    &&& next.drops() == Seq::<usize>::empty()
                },
                (
                    AcquirePhase::CheckMonitor { bench, device, primary, .. },
                    ComReply::Monitor { flags },
                ) => next.judges(bench, device, primary@.push(is_primary(flags))),
                _ => false,
            }
        }
    }

    /// Whether it goes on as it has to once it is known of the first outputs of an adapter which
    /// of them are primary, the last of these being the first in `bench`: where that one is the
    /// capture source it is done, and all else is let go of; else that one is let go of, and the
    /// next output is looked at, or the adapter is left where there is none.
    pub open spec fn judges(
        &self,
        bench: Bench,
        device: UniqueCOMPtr<ID3D11Device>,
        primary: Seq<bool>,
    ) -> bool {
        let pair = bench.pairs@[0];
        if is_capture_source(primary, self.capture_source_index() as nat, primary.len() - 1) {
            &&& self.phase() == AcquirePhase::Finished {
                acquired: Some(
                    DuplicatedOutput {
                        device,
                        device_context: bench.device_context,
                        output: pair.output,
                        output_duplication: pair.output_duplication,
                    },
                ),
            }
            &&& self.drops() == pair_refs(bench.pairs@.skip(1)) + seq![
                bench.site.adapter.addr(),
                bench.site.factory.addr(),
            ]
        } else if bench.pairs@.len() > 1 {
            &&& self.phase() matches AcquirePhase::FindMonitor { bench: b, device: d, primary: p }
                && b.site == bench.site && b.device_context == bench.device_context && b.pairs@
                == bench.pairs@.skip(1) && d == device && p@ == primary
            &&& self.drops() == seq![pair.output_duplication.addr(), pair.output.addr()]
        } else {
            self.moves_on(
                bench.site,
                seq![
                    pair.output_duplication.addr(),
                    pair.output.addr(),
                    device.addr(),
                    bench.device_context.addr(),
                    bench.site.adapter.addr(),
                ],
            )
        }
    }

    /// Begins to acquire the output that is capture source `capture_source_index`, letting go of
    /// the one that was acquired before.
    pub fn start(capture_source_index: usize, previous: Option<DuplicatedOutput>) -> (acquisition:
        Acquisition)
        ensures
            acquisition.wf(),
            acquisition.capture_source_index() == capture_source_index,
            acquisition.phase() == AcquirePhase::CreateFactory,
            acquisition.drops() == match previous {
                Some(output) => output.refs(),
                None => Seq::empty(),
            },
    {
        let mut drops: Vec<usize> = Vec::new();
        if let Some(output) = previous {
            output.release(&mut drops);
            assert(drops@ =~= output.refs());
        }
        Acquisition { capture_source_index, phase: AcquirePhase::CreateFactory, drops }
    }

    /// Tells the call that is due, or `None` when the work is done.
    pub fn pending(&self) -> (call: Option<ComCall>)
        requires
            self.wf(),
        ensures
            call == self.next_call(),
    {
        if self.drops.len() > 0 {
            return Some(ComCall::Release { object: self.drops[0] });
        }
        match &self.phase {
            AcquirePhase::CreateFactory => Some(
                ComCall::CreateFactory1 { interface: Interface::IDXGIFactory1 },
            ),
            AcquirePhase::EnumAdapter { factory, index } => Some(
                ComCall::EnumAdapters1 { factory: factory.as_ptr(), index: *index },
            ),
            AcquirePhase::EnumOutput { site, outputs } => Some(
                ComCall::EnumOutputs {
                    adapter: site.adapter.as_ptr(),
                    index: outputs.len() as u32,
                },
            ),
            AcquirePhase::CheckOutput { output, .. } => Some(
                ComCall::GetOutputDesc { output: *output },
            ),
            AcquirePhase::CreateDevice { site, .. } => Some(
                ComCall::CreateDevice {
                    adapter: site.adapter.as_ptr(),
                    driver_type: D3D_DRIVER_TYPE_UNKNOWN,
                    software: NULL,
                    flags: 0,
                    feature_levels: NULL,
                    feature_level_count: 0,
                    sdk_version: D3D11_SDK_VERSION,
                },
            ),
            AcquirePhase::QueryOutput { output, .. } => Some(
                ComCall::QueryInterface {
                    object: output.as_ptr(),
                    interface: Interface::IDXGIOutput1,
                },
            ),
            AcquirePhase::QueryDevice { device, .. } => Some(
                ComCall::QueryInterface {
                    object: device.as_ptr(),
                    interface: Interface::IDXGIDevice1,
                },
            ),
            AcquirePhase::Duplicate { device, output, .. } => Some(
                ComCall::DuplicateOutput { output: output.as_ptr(), device: device.as_ptr() },
            ),
            AcquirePhase::RestoreDevice { device, .. } => Some(
                ComCall::QueryInterface {
                    object: device.as_ptr(),
                    interface: Interface::ID3D11Device,
                },
            ),
            AcquirePhase::FindMonitor { bench, .. } => Some(
                ComCall::GetOutputDesc { output: bench.pairs[0].output.as_ptr() },
            ),
            AcquirePhase::CheckMonitor { monitor, .. } => Some(
                ComCall::GetMonitorInfo { monitor: *monitor, size: MONITORINFO_SIZE },
            ),
            AcquirePhase::Refused => None,
            AcquirePhase::Finished { .. } => None,
        }
    }

    /// Tests whether the work can go on with a reply to the call that is due.
    pub fn can_resume(&self, reply: &ComReply) -> (fits: bool)
        ensures
            fits == self.accepts(*reply),
    {
        if self.drops.len() > 0 {
            return matches!(reply, ComReply::Done { .. });
        }
        match (&self.phase, reply) {
            (AcquirePhase::CreateFactory, ComReply::Object { hr, .. }) => !hr_failed(*hr),
            (AcquirePhase::EnumAdapter { index, .. }, ComReply::Object { hr, .. }) => {
                *hr == DXGI_ERROR_NOT_FOUND || !hr_failed(*hr) && *index < u32::MAX - 1
            },
            (AcquirePhase::EnumOutput { outputs, .. }, ComReply::Object { hr, .. }) => {
                hr_failed(*hr) || outputs.len() < u32::MAX as usize - 1
            },
            (AcquirePhase::CheckOutput { .. }, ComReply::Output(_)) => true,
            (AcquirePhase::CreateDevice { .. }, ComReply::Device { hr, .. }) => !hr_failed(*hr),
            (AcquirePhase::QueryOutput { .. }, ComReply::Object { hr, .. }) => !hr_failed(*hr),
            (AcquirePhase::QueryDevice { .. }, ComReply::Object { hr, .. }) => !hr_failed(*hr),
            (AcquirePhase::Duplicate { .. }, ComReply::Object { hr, .. }) => {
                *hr == 0 || *hr == E_ACCESSDENIED
            },
            (AcquirePhase::RestoreDevice { .. }, ComReply::Object { hr, .. }) => !hr_failed(*hr),
            (AcquirePhase::FindMonitor { .. }, ComReply::Output(_)) => true,
            (AcquirePhase::CheckMonitor { .. }, ComReply::Monitor { .. }) => true,
            _ => false,
        }
    }

    /// Turns to the next adapter.
    fn move_on(capture_source_index: usize, site: Site, drops: Vec<usize>) -> (next: Acquisition)
        requires
            site.index + 1 < u32::MAX,
        ensures
            next.capture_source_index() == capture_source_index,
            next.wf(),
            next.moves_on(site, drops@.push(site.adapter.addr())),
    {
        let mut drops = drops;
        site.adapter.release(&mut drops);
        Acquisition {
            capture_source_index,
            phase: AcquirePhase::EnumAdapter { factory: site.factory, index: site.index + 1 },
            drops,
        }
    }

    /// Goes on from the outputs that an adapter was found to have.
    fn go_on_with(
        capture_source_index: usize,
        site: Site,
        outputs: Vec<UniqueCOMPtr<IDXGIOutput>>,
    ) -> (next: Acquisition)
        requires
            site.index + 1 < u32::MAX,
        ensures
            next.capture_source_index() == capture_source_index,
            next.wf(),
            next.goes_on_with(site, outputs),
    {
        if outputs.len() == 0 {
            let next = Acquisition::move_on(capture_source_index, site, Vec::new());
            assert(next.drops@ =~= seq![site.adapter.addr()]);
            next
        } else {
            Acquisition {
                capture_source_index,
                phase: AcquirePhase::CreateDevice { site, outputs },
                drops: Vec::new(),
            }
        }
    }

    /// Goes on from what is known of the first outputs of an adapter.
    fn judge(
        capture_source_index: usize,
        bench: Bench,
        device: UniqueCOMPtr<ID3D11Device>,
        primary: Vec<bool>,
    ) -> (next: Acquisition)
        requires
            bench.site.index + 1 < u32::MAX,
            primary@.len() > 0,
            bench.pairs@.len() > 0,
            lacks_capture_source(primary@.drop_last(), capture_source_index as nat),
        ensures
            next.capture_source_index() == capture_source_index,
            next.wf(),
            next.judges(bench, device, primary@),
    {
        let ghost cs_index = capture_source_index as nat;
        let ghost last = primary@.len() - 1;
        assert forall|i: int| 0 <= i < last implies !is_capture_source(primary@, cs_index, i) by {
            assert(!is_capture_source(primary@.drop_last(), cs_index, i));
            assert(primary@.drop_last() =~= primary@.take(last));
            law_search_may_stop(primary@.drop_last(), primary@, cs_index, i);
        }
        let Bench { site, device_context, pairs } = bench;
        let mut pairs = pairs;
        let pair = pairs.remove(0);
        assert(pairs@ =~= bench.pairs@.skip(1));
        let mut drops: Vec<usize> = Vec::new();
        match get_capture_source(&primary, capture_source_index) {
            Some(_) => {
                release_pairs(pairs, &mut drops);
                site.adapter.release(&mut drops);
                site.factory.release(&mut drops);
                assert(drops@ =~= pair_refs(pairs@) + seq![
                    site.adapter.addr(),
                    site.factory.addr(),
                ]);
                let acquired = DuplicatedOutput {
                    device,
                    device_context,
                    output: pair.output,
                    output_duplication: pair.output_duplication,
                };
                Acquisition {
                    capture_source_index,
                    phase: AcquirePhase::Finished { acquired: Some(acquired) },
                    drops,
                }
            },
            None => {
                pair.output_duplication.release(&mut drops);
                pair.output.release(&mut drops);
                if pairs.len() > 0 {
                    assert(drops@ =~= seq![pair.output_duplication.addr(), pair.output.addr()]);
                    Acquisition {
                        capture_source_index,
                        phase: AcquirePhase::FindMonitor {
                            bench: Bench { site, device_context, pairs },
                            device,
                            primary,
                        },
                        drops,
                    }
                } else {
                    device.release(&mut drops);
                    device_context.release(&mut drops);
                    let next = Acquisition::move_on(capture_source_index, site, drops);
                    assert(next.drops@ =~= seq![
                        pair.output_duplication.addr(),
                        pair.output.addr(),
                        device.addr(),
                        device_context.addr(),
                        site.adapter.addr(),
                    ]);
                    next
                }
            },
        }
    }

    /// Ends after the system has denied the duplication of an output.
    fn refuse(
        capture_source_index: usize,
        bench: Bench,
        device: UniqueCOMPtr<IDXGIDevice1>,
        output: UniqueCOMPtr<IDXGIOutput1>,
        rest: Vec<UniqueCOMPtr<IDXGIOutput>>,
    ) -> (next: Acquisition)
        ensures
            next.capture_source_index() == capture_source_index,
            next.phase() == AcquirePhase::Refused,
            next.drops() == seq![output.addr(), device.addr()] + addrs(rest@) + pair_refs(
                bench.pairs@,
            ) + seq![
                bench.device_context.addr(),
                bench.site.adapter.addr(),
                bench.site.factory.addr(),
            ],
    {
        let mut drops: Vec<usize> = Vec::new();
        output.release(&mut drops);
        device.release(&mut drops);
        assert(drops@ =~= seq![output.addr(), device.addr()]);
        release_outputs(rest, &mut drops);
        release_pairs(bench.pairs, &mut drops);
        let ghost so_far = drops@;
        bench.device_context.release(&mut drops);
        bench.site.adapter.release(&mut drops);
        bench.site.factory.release(&mut drops);
        assert(drops@ =~= so_far + seq![
            bench.device_context.addr(),
            bench.site.adapter.addr(),
            bench.site.factory.addr(),
        ]);
        Acquisition { capture_source_index, phase: AcquirePhase::Refused, drops }
    }

    /// Goes on with a reply to the call that was due.
    pub fn resume(self, reply: ComReply) -> (next: Acquisition)
        requires
            self.wf(),
            self.accepts(reply),
        ensures
            next.wf(),
            self.leads_to(reply, next),
    {
        let Acquisition { capture_source_index, phase, mut drops } = self;
        if drops.len() > 0 {
            let _ = drops.remove(0);
            assert(drops@ == self.drops@.skip(1));
            return Acquisition { capture_source_index, phase, drops };
        }
        let phase = match (phase, reply) {
            (AcquirePhase::CreateFactory, ComReply::Object { object, .. }) => {
                AcquirePhase::EnumAdapter { factory: UniqueCOMPtr::from_ptr(object), index: 0 }
            },
            (
                AcquirePhase::EnumAdapter { factory, index },
                ComReply::Object { hr, object },
            ) => if hr != DXGI_ERROR_NOT_FOUND {
                let site = Site { factory, index, adapter: UniqueCOMPtr::from_ptr(object) };
                AcquirePhase::EnumOutput { site, outputs: Vec::new() }
            } else {
                factory.release(&mut drops);
                AcquirePhase::Finished { acquired: None }
            },
            (
                AcquirePhase::EnumOutput { site, outputs },
                ComReply::Object { hr, object },
            ) => if hr_failed(hr) {
                return Acquisition::go_on_with(capture_source_index, site, outputs);
            } else {
                AcquirePhase::CheckOutput { site, outputs, output: object }
            },
            (
                AcquirePhase::CheckOutput { site, outputs, output },
                ComReply::Output(desc),
            ) => if desc.attached_to_desktop != 0 {
                let mut more = outputs;
                more.push(UniqueCOMPtr::from_ptr(output));
                assert(addrs(more@) =~= addrs(outputs@).push(output));
                AcquirePhase::EnumOutput { site, outputs: more }
            } else {
                return Acquisition::go_on_with(capture_source_index, site, outputs);
            },
            (
                AcquirePhase::CreateDevice { site, outputs },
                ComReply::Device { device, context, .. },
            ) => {
                let mut rest = outputs;
                let output = rest.remove(0);
                assert(rest@ =~= outputs@.skip(1));
                let bench = Bench {
                    site,
                    device_context: UniqueCOMPtr::from_ptr(context),
                    pairs: Vec::new(),
                };
                AcquirePhase::QueryOutput {
                    bench,
                    device: UniqueCOMPtr::from_ptr(device),
                    output,
                    rest,
                }
            },
            (
                AcquirePhase::QueryOutput { bench, device, output, rest },
                ComReply::Object { hr, object },
            ) => AcquirePhase::QueryDevice {
                bench,
                device,
                output: output.query_interface(hr, object, &mut drops).unwrap(),
                rest,
            },
            (
                AcquirePhase::QueryDevice { bench, device, output, rest },
                ComReply::Object { hr, object },
            ) => AcquirePhase::Duplicate {
                bench,
                device: device.query_interface(hr, object, &mut drops).unwrap(),
                output,
                rest,
            },
            (
                AcquirePhase::Duplicate { bench, device, output, rest },
                ComReply::Object { hr, object },
            ) => {
                if hr == E_ACCESSDENIED {
                    return Acquisition::refuse(capture_source_index, bench, device, output, rest);
                }
                let Bench { site, device_context, mut pairs } = bench;
                pairs.push(
                    OutputPair { output_duplication: UniqueCOMPtr::from_ptr(object), output },
                );
                assert(pairs@.drop_last() =~= bench.pairs@);
                AcquirePhase::RestoreDevice {
                    bench: Bench { site, device_context, pairs },
                    device,
                    rest,
                }
            },
            (
                AcquirePhase::RestoreDevice { bench, device, rest },
                ComReply::Object { hr, object },
            ) => {
                let device = device.query_interface(hr, object, &mut drops).unwrap();
                if rest.len() == 0 {
                    AcquirePhase::FindMonitor { bench, device, primary: Vec::new() }
                } else {
                    let mut later = rest;
                    let output = later.remove(0);
                    assert(later@ =~= rest@.skip(1));
                    AcquirePhase::QueryOutput { bench, device, output, rest: later }
                }
            },
            (
                AcquirePhase::FindMonitor { bench, device, primary },
                ComReply::Output(desc),
            ) => AcquirePhase::CheckMonitor { bench, device, primary, monitor: desc.monitor },
            (
                AcquirePhase::CheckMonitor { bench, device, primary, .. },
                ComReply::Monitor { flags },
            ) => {
                let mut known = primary;
                known.push(output_is_primary(flags));
                assert(known@.drop_last() =~= primary@);
                return Acquisition::judge(capture_source_index, bench, device, known);
            },
            (phase, _) => phase,
        };
        assert(drops@ =~= Seq::<usize>::empty() || drops@ =~= seq![drops@[0]]);
        Acquisition { capture_source_index, phase, drops }
    }

    /// Whether the system has denied the duplication of an output.
    pub fn was_refused(&self) -> (refused: bool)
        ensures
            refused == (self.phase() is Refused),
    {
        matches!(self.phase, AcquirePhase::Refused)
    }

    /// Hands out the output that was acquired, or `None` where no adapter has the capture source.
    pub fn finish(self) -> (acquired: Option<DuplicatedOutput>)
        requires
            self.next_call() is None,
            self.phase() !is Refused,
        ensures
            self.phase() == (AcquirePhase::Finished { acquired }),
    {
        match self.phase {
            AcquirePhase::Finished { acquired } => acquired,
            _ => vstd::pervasive::unreached(),
        }
    }

    /// Gives the acquisition up before it is done: hands out the references to release.
    pub fn abandon(self) -> (refs: Vec<usize>)
        ensures
            refs@.to_multiset() == self.held(),
    {
        broadcast use vstd::seq_lib::to_multiset_build;

        let mut drops = self.drops;
        match self.phase {
            AcquirePhase::CreateFactory => {},
            AcquirePhase::EnumAdapter { factory, .. } => factory.release(&mut drops),
            AcquirePhase::EnumOutput { site, outputs } => {
                abandon_outputs(outputs, &mut drops);
                site.abandon(&mut drops);
            },
            AcquirePhase::CheckOutput { site, outputs, output } => {
                drops.push(output);
                abandon_outputs(outputs, &mut drops);
                site.abandon(&mut drops);
            },
            AcquirePhase::CreateDevice { site, outputs } => {
                abandon_outputs(outputs, &mut drops);
                site.abandon(&mut drops);
            },
            AcquirePhase::QueryOutput { bench, device, output, rest } => {
                output.release(&mut drops);
                device.release(&mut drops);
                abandon_outputs(rest, &mut drops);
                bench.abandon(&mut drops);
            },
            AcquirePhase::QueryDevice { bench, device, output, rest } => {
                output.release(&mut drops);
                device.release(&mut drops);
                abandon_outputs(rest, &mut drops);
                bench.abandon(&mut drops);
            },
            AcquirePhase::Duplicate { bench, device, output, rest } => {
                output.release(&mut drops);
                device.release(&mut drops);
                abandon_outputs(rest, &mut drops);
                bench.abandon(&mut drops);
            },
            AcquirePhase::RestoreDevice { bench, device, rest } => {
                device.release(&mut drops);
                abandon_outputs(rest, &mut drops);
                bench.abandon(&mut drops);
            },
            AcquirePhase::FindMonitor { bench, device, .. } => {
                device.release(&mut drops);
                bench.abandon(&mut drops);
            },
            AcquirePhase::CheckMonitor { bench, device, .. } => {
                device.release(&mut drops);
                bench.abandon(&mut drops);
            },
            AcquirePhase::Refused => {},
            AcquirePhase::Finished { acquired: Some(output) } => {
                proof {
                    lemma_refs_are_held(output);
                    lemma_all_refs(drops@, output.refs());
                }
                output.release(&mut drops);
            },
            AcquirePhase::Finished { acquired: None } => {},
        }
        assert(drops@.to_multiset() =~= self.held());
        drops
    }
}

/// Lets go of outputs of an acquisition that is given up.
fn abandon_outputs(outputs: Vec<UniqueCOMPtr<IDXGIOutput>>, drops: &mut Vec<usize>)
    ensures
        final(drops)@.to_multiset() == old(drops)@.to_multiset().add(addrs(outputs@).to_multiset()),
{
    proof {
        lemma_all_refs(drops@, addrs(outputs@));
    }
    release_outputs(outputs, drops);
}

impl Site {
    /// Lets go of the site of an acquisition that is given up.
    fn abandon(self, drops: &mut Vec<usize>)
        ensures
            final(drops)@.to_multiset() == old(drops)@.to_multiset().add(self.held()),
    {
        broadcast use vstd::seq_lib::to_multiset_build;

        self.adapter.release(drops);
        self.factory.release(drops);
        assert(drops@.to_multiset() =~= old(drops)@.to_multiset().add(self.held()));
    }
}

impl Bench {
    /// Lets go of the bench of an acquisition that is given up.
    fn abandon(self, drops: &mut Vec<usize>)
        ensures
            final(drops)@.to_multiset() == old(drops)@.to_multiset().add(self.held()),
    {
        broadcast use vstd::seq_lib::to_multiset_build;

        proof {
            lemma_all_refs(drops@, pair_refs(self.pairs@));
        }
        release_pairs(self.pairs, drops);
        self.device_context.release(drops);
        self.site.abandon(drops);
        assert(drops@.to_multiset() =~= old(drops)@.to_multiset().add(self.held()));
    }
}

/// The references of pairs are those of the first and of the others.
proof fn lemma_pair_refs_front(pairs: Seq<OutputPair>)
    requires
        pairs.len() > 0,
    ensures
        pair_refs(pairs).to_multiset() == pair_refs(pairs.skip(1)).to_multiset().insert(
            pairs[0].output_duplication.addr(),
        ).insert(pairs[0].output.addr()),
{
    let first = pairs[0];
    let later = pair_refs(pairs.skip(1));
    lemma_all_refs(seq![first.output_duplication.addr(), first.output.addr()], later);
    lemma_two_refs(first.output_duplication.addr(), first.output.addr());
    assert(pair_refs(pairs).to_multiset() =~= later.to_multiset().insert(
        first.output_duplication.addr(),
    ).insert(first.output.addr()));
}

/// The references of pairs are those of any one of them and of the others.
proof fn lemma_pair_refs_remove(pairs: Seq<OutputPair>, k: int)
    requires
        0 <= k < pairs.len(),
    ensures
        pair_refs(pairs).to_multiset() == pair_refs(pairs.remove(k)).to_multiset().insert(
            pairs[k].output_duplication.addr(),
        ).insert(pairs[k].output.addr()),
    decreases k,
{
    lemma_pair_refs_front(pairs);
    if k == 0 {
        assert(pairs.remove(0) =~= pairs.skip(1));
    } else {
        lemma_pair_refs_front(pairs.remove(k));
        lemma_pair_refs_remove(pairs.skip(1), k - 1);
        assert(pairs.remove(k).skip(1) =~= pairs.skip(1).remove(k - 1));
        assert(pair_refs(pairs).to_multiset() =~= pair_refs(pairs.remove(k)).to_multiset().insert(
            pairs[k].output_duplication.addr(),
        ).insert(pairs[k].output.addr()));
    }
}

/// The references of outputs are those of the first and of the others.
proof fn lemma_addrs_front(outputs: Seq<UniqueCOMPtr<IDXGIOutput>>)
    requires
        outputs.len() > 0,
    ensures
        addrs(outputs).to_multiset() == addrs(outputs.skip(1)).to_multiset().insert(
            outputs[0].addr(),
        ),
{
    lemma_first_ref(addrs(outputs));
    assert(addrs(outputs).skip(1) =~= addrs(outputs.skip(1)));
}

impl Acquisition {
    /// The references that are lost with a reply: that of an output which turns out not to be
    /// attached to the desktop.
    pub open spec fn lost(&self, reply: ComReply) -> Multiset<usize> {
        match (self.phase(), reply) {
            (AcquirePhase::CheckOutput { output, .. }, ComReply::Output(desc)) => if self.drops().len()
                == 0 && desc.attached_to_desktop == 0 {
                Multiset::singleton(output)
            } else {
                Multiset::empty()
            },
            _ => Multiset::empty(),
        }
    }

    /// Whether no reference is made up or lost but one that is lost with the reply: what is held
    /// after it, what the call gave up and what is lost are what was held before and what came with
    /// the reply.
    pub open spec fn accounts_for(&self, reply: ComReply, next: Acquisition) -> bool {
        next.held().add(self.next_call()->0.given_up()).add(self.lost(reply)) == self.held().add(
            reply.gained(),
        )
    }
}

/// References are accounted for while adapters and outputs are enumerated.
proof fn lemma_enumeration_is_accounted_for(acquisition: Acquisition, reply: ComReply, next: Acquisition)
    requires
        acquisition.wf(),
        acquisition.accepts(reply),
        acquisition.leads_to(reply, next),
        acquisition.drops().len() == 0,
        acquisition.phase() is CreateFactory || acquisition.phase() is EnumAdapter
            || acquisition.phase() is EnumOutput || acquisition.phase() is CheckOutput,
    ensures
        acquisition.accounts_for(reply, next),
{
    broadcast use vstd::seq_lib::to_multiset_build;

    lemma_no_refs();
    assert(acquisition.drops() =~= Seq::<usize>::empty());
    if next.drops().len() == 1 {
        assert(next.drops() =~= Seq::<usize>::empty().push(next.drops()[0]));
    }
    match acquisition.phase() {
        AcquirePhase::EnumAdapter { .. } => {
            if next.phase() is EnumOutput {
                assert(addrs(next.phase()->EnumOutput_outputs@) =~= Seq::<usize>::empty());
            }
        },
        AcquirePhase::EnumOutput { outputs, .. } => {
            if outputs@.len() == 0 {
                assert(addrs(outputs@) =~= Seq::<usize>::empty());
            }
        },
        AcquirePhase::CheckOutput { outputs, .. } => {
            if outputs@.len() == 0 {
                assert(addrs(outputs@) =~= Seq::<usize>::empty());
            }
        },
        _ => {},
    }
    assert(next.held().add(acquisition.next_call()->0.given_up()).add(acquisition.lost(reply))
        =~= acquisition.held().add(reply.gained()));
}

/// References are accounted for while a device and interfaces are asked for.
proof fn lemma_query_is_accounted_for(acquisition: Acquisition, reply: ComReply, next: Acquisition)
    requires
        acquisition.wf(),
        acquisition.accepts(reply),
        acquisition.leads_to(reply, next),
        acquisition.drops().len() == 0,
        acquisition.phase() is CreateDevice || acquisition.phase() is QueryOutput
            || acquisition.phase() is QueryDevice || acquisition.phase() is RestoreDevice,
    ensures
        acquisition.accounts_for(reply, next),
{
    broadcast use vstd::seq_lib::to_multiset_build;

    lemma_no_refs();
    assert(acquisition.drops() =~= Seq::<usize>::empty());
    if next.drops().len() == 1 {
        assert(next.drops() =~= Seq::<usize>::empty().push(next.drops()[0]));
    }
    match acquisition.phase() {
        AcquirePhase::CreateDevice { outputs, .. } => {
            lemma_addrs_front(outputs@);
            let bench = next.phase()->QueryOutput_bench;
            assert(pair_refs(bench.pairs@) =~= Seq::<usize>::empty());
        },
        AcquirePhase::RestoreDevice { rest, .. } => {
            if rest@.len() > 0 {
                lemma_addrs_front(rest@);
            } else {
                assert(addrs(rest@) =~= Seq::<usize>::empty());
            }
        },
        _ => {},
    }
    assert(next.held().add(acquisition.next_call()->0.given_up()).add(acquisition.lost(reply))
        =~= acquisition.held().add(reply.gained()));
}

/// References are accounted for when an output is duplicated.
proof fn lemma_duplication_is_accounted_for(acquisition: Acquisition, reply: ComReply, next: Acquisition)
    requires
        acquisition.wf(),
        acquisition.accepts(reply),
        acquisition.leads_to(reply, next),
        acquisition.drops().len() == 0,
        acquisition.phase() is Duplicate,
    ensures
        acquisition.accounts_for(reply, next),
{
    broadcast use vstd::seq_lib::to_multiset_build;

    lemma_no_refs();
    assert(acquisition.drops() =~= Seq::<usize>::empty());
    if next.drops().len() == 1 {
        assert(next.drops() =~= Seq::<usize>::empty().push(next.drops()[0]));
    }
    let bench = acquisition.phase()->Duplicate_bench;
    if next.phase() is Refused {
        let device = acquisition.phase()->Duplicate_device.addr();
        let output = acquisition.phase()->Duplicate_output.addr();
        let rest = addrs(acquisition.phase()->Duplicate_rest@);
        let first = seq![output, device];
        let (context, site) = (bench.device_context.addr(), bench.site);
        let last = seq![context, site.adapter.addr(), site.factory.addr()];
        lemma_two_refs(output, device);
        lemma_all_refs(first, rest);
        lemma_all_refs(first + rest, pair_refs(bench.pairs@));
        lemma_all_refs(first + rest + pair_refs(bench.pairs@), last);
        lemma_two_refs(context, site.adapter.addr());
        assert(last =~= seq![context, site.adapter.addr()].push(site.factory.addr()));
    } else {
        let pairs = next.phase()->RestoreDevice_bench.pairs@;
        lemma_pair_refs_remove(pairs, pairs.len() - 1);
        assert(pairs.remove(pairs.len() - 1) =~= bench.pairs@);
    }
    assert(next.held().add(acquisition.next_call()->0.given_up()).add(acquisition.lost(reply))
        =~= acquisition.held().add(reply.gained()));
}

/// References are accounted for while outputs are looked at.
proof fn lemma_judgement_is_accounted_for(acquisition: Acquisition, reply: ComReply, next: Acquisition)
    requires
        acquisition.wf(),
        acquisition.accepts(reply),
        acquisition.leads_to(reply, next),
        acquisition.drops().len() == 0,
        acquisition.phase() is FindMonitor || acquisition.phase() is CheckMonitor,
    ensures
        acquisition.accounts_for(reply, next),
{
    broadcast use vstd::seq_lib::to_multiset_build;

    lemma_no_refs();
    assert(acquisition.drops() =~= Seq::<usize>::empty());
    if next.drops().len() == 1 {
        assert(next.drops() =~= Seq::<usize>::empty().push(next.drops()[0]));
    }
    if let AcquirePhase::CheckMonitor { bench, device, .. } = acquisition.phase() {
        let (pair, later) = (bench.pairs@[0], bench.pairs@.skip(1));
        lemma_pair_refs_front(bench.pairs@);
        let (adapter, factory) = (bench.site.adapter.addr(), bench.site.factory.addr());
        lemma_all_refs(pair_refs(later), seq![adapter, factory]);
        lemma_two_refs(adapter, factory);
        let (duplication, output) = (pair.output_duplication.addr(), pair.output.addr());
        lemma_two_refs(duplication, output);
        let context = bench.device_context.addr();
        assert(seq![duplication, output, device.addr(), context, adapter] =~= seq![
            duplication,
            output,
        ].push(device.addr()).push(context).push(adapter));
        if later.len() == 0 {
            assert(pair_refs(later) =~= Seq::<usize>::empty());
        }
    }
    assert(next.held().add(acquisition.next_call()->0.given_up()).add(acquisition.lost(reply))
        =~= acquisition.held().add(reply.gained()));
}

/// An acquisition makes up no reference, and loses none but that of an output which is not
/// attached to the desktop.
pub proof fn law_acquisition_references_are_accounted_for(
    acquisition: Acquisition,
    reply: ComReply,
    next: Acquisition,
)
    requires
        acquisition.wf(),
        acquisition.accepts(reply),
        acquisition.leads_to(reply, next),
    ensures
        acquisition.accounts_for(reply, next),
{
    if acquisition.drops().len() > 0 {
        lemma_no_refs();
        lemma_first_ref(acquisition.drops());
        assert(next.held().add(acquisition.next_call()->0.given_up()).add(acquisition.lost(reply))
            =~= acquisition.held().add(reply.gained()));
    } else {
        match acquisition.phase() {
            AcquirePhase::CreateFactory => {
                lemma_enumeration_is_accounted_for(acquisition, reply, next);
            },
            AcquirePhase::EnumAdapter { .. } => {
                lemma_enumeration_is_accounted_for(acquisition, reply, next);
            },
            AcquirePhase::EnumOutput { .. } => {
                lemma_enumeration_is_accounted_for(acquisition, reply, next);
            },
            AcquirePhase::CheckOutput { .. } => {
                lemma_enumeration_is_accounted_for(acquisition, reply, next);
            },
            AcquirePhase::CreateDevice { .. } => {
                lemma_query_is_accounted_for(acquisition, reply, next);
            },
            AcquirePhase::QueryOutput { .. } => {
                lemma_query_is_accounted_for(acquisition, reply, next);
            },
            AcquirePhase::QueryDevice { .. } => {
                lemma_query_is_accounted_for(acquisition, reply, next);
            },
            AcquirePhase::RestoreDevice { .. } => {
                lemma_query_is_accounted_for(acquisition, reply, next);
            },
            AcquirePhase::Duplicate { .. } => {
                lemma_duplication_is_accounted_for(acquisition, reply, next);
            },
            _ => {
                lemma_judgement_is_accounted_for(acquisition, reply, next);
            },
        }
    }
}

} // verus!
