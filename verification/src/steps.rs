//! Which replies work can go on with, by the call that is due, and which call follows which.
use vstd::multiset::Multiset;
use vstd::prelude::*;

use crate::acquire::{pair_refs, AcquirePhase, Acquisition, OutputPair};
use crate::calls::{columns, object, rows, stride};
use crate::capture::{Capture, CapturePhase};
use crate::com::{ComCall, ComReply, Interface, OutputDesc, NULL};
use crate::desktop::{is_run, is_step};
use crate::frame::FrameGrab;
use crate::hresult::{DXGI_ERROR_NOT_FOUND, E_ACCESSDENIED};

verus! {

/// Whether a reply is an object that was given.
pub open spec fn gives_object(reply: ComReply) -> bool {
    reply matches ComReply::Object { hr, .. } && hr >= 0
}

/// Whether an acquisition can go on from a call with a reply.
pub open spec fn acquires_on(call: ComCall, reply: ComReply) -> bool {
    match call {
        ComCall::Release { .. } => reply is Done,
        ComCall::CreateFactory1 { .. } => gives_object(reply),
        ComCall::EnumAdapters1 { index, .. } => {
            &&& reply matches ComReply::Object { hr, .. }
            &&& hr == DXGI_ERROR_NOT_FOUND || hr >= 0 && index + 1 < u32::MAX
        },
        ComCall::EnumOutputs { index, .. } => {
            &&& reply matches ComReply::Object { hr, .. }
            &&& hr < 0 || index + 1 < u32::MAX
        },
        ComCall::GetOutputDesc { .. } => reply is Output,
        ComCall::CreateDevice { .. } => reply matches ComReply::Device { hr, .. } && hr >= 0,
        ComCall::QueryInterface { .. } => gives_object(reply),
        ComCall::DuplicateOutput { .. } => {
            &&& reply matches ComReply::Object { hr, .. }
            &&& hr == 0 || hr == E_ACCESSDENIED
        },
        ComCall::GetMonitorInfo { .. } => reply is Monitor,
        _ => false,
    }
}

/// An acquisition can go on with every reply that gives what the call is made for, with the reply
/// that there are no more adapters or outputs, and with that a duplication is denied, and with no
/// other.
pub proof fn law_acquisition_goes_on_with_what_is_given(acquisition: Acquisition, reply: ComReply)
    requires
        acquisition.wf(),
    ensures
        acquisition.accepts(reply) <==> (acquisition.next_call() matches Some(call) && acquires_on(
            call,
            reply,
        )),
{
}

/// Whether the fetching of a frame can go on from a call with a reply.
pub open spec fn fetches_on(call: ComCall, reply: ComReply) -> bool {
    match call {
        ComCall::Release { .. } => reply is Done,
        ComCall::AcquireNextFrame { .. } => reply is Object,
        ComCall::QueryInterface { interface, .. } => {
            gives_object(reply) || interface == Interface::IDXGISurface1 && reply is Object
        },
        ComCall::GetTextureDesc { .. } => reply is Texture,
        ComCall::CreateTexture2D { .. } => reply is Object,
        ComCall::SetEvictionPriority { .. } => reply is Done,
        ComCall::CopyResource { .. } => reply is Done,
        ComCall::ReleaseFrame { .. } => reply is Done,
        _ => false,
    }
}

/// The fetching of a frame can go on with every reply to the calls that may fail, and with those to
/// the other calls that give what they are made for.
pub proof fn law_frame_goes_on_with_what_is_given(grab: FrameGrab, reply: ComReply)
    ensures
        grab.accepts(reply) <==> (grab.next_call() matches Some(call) && fetches_on(call, reply)),
{
}

/// Whether a picture can be taken of an output that was so described, from a surface that was
/// mapped with so many bytes from row to row: its columns and rows can be told in 32 bits, its
/// pixels fit in memory, those of the surface can be counted, and rows do not all begin at one
/// place.
pub open spec fn can_be_taken(desc: OutputDesc, pitch: i32) -> bool {
    let rect = desc.desktop_coordinates;
    let (width, height) = (columns(desc), rows(desc));
    &&& i32::MIN <= rect.right - rect.left <= i32::MAX
    &&& i32::MIN <= rect.bottom - rect.top <= i32::MAX
    &&& width * height * 4 <= isize::MAX
    &&& width * height * stride(pitch) <= usize::MAX
    &&& width == 0 || height == 0 || stride(pitch) > 0
}

/// A capture can go on as the acquisition or the fetching that it is made of can; with every reply
/// to the mapping; with every description of the output of which a picture can be taken; and with
/// as many pixels as were asked for.
pub proof fn law_capture_goes_on_with_what_is_given(capture: Capture, reply: ComReply)
    requires
        capture.wf(),
    ensures
        capture.accepts(reply) <==> (capture.next_call() matches Some(call) && match capture.phase() {
            CapturePhase::Reacquire { .. } => acquires_on(call, reply),
            CapturePhase::Grab { .. } => fetches_on(call, reply),
            CapturePhase::Describe { pitch, .. } => {
                reply matches ComReply::Output(desc) && can_be_taken(desc, pitch)
            },
            _ => match call {
                ComCall::MapSurface { .. } => reply is Mapped,
                ComCall::ReadPixels { len, .. } => {
                    reply matches ComReply::Pixels(pixels) && len <= pixels@.len()
                },
                ComCall::UnmapSurface { .. } => reply is Done,
                ComCall::Release { .. } => reply is Done,
                _ => false,
            },
        }),
{
    match capture.phase() {
        CapturePhase::Reacquire { acquisition, .. } => {
            law_acquisition_goes_on_with_what_is_given(acquisition, reply);
        },
        CapturePhase::Grab { grab } => {
            law_frame_goes_on_with_what_is_given(grab, reply);
        },
        CapturePhase::Read { layout, .. } => {
            crate::pixel::law_extent_is_bounded(layout);
        },
        _ => {},
    }
}

/// An acquisition loses a reference with a reply only where that says of an output, which was found
/// by the call before, that it is not attached to the desktop; and it loses that of this output
/// then.
pub proof fn law_only_detached_outputs_are_lost(acquisition: Acquisition, reply: ComReply)
    ensures
        acquisition.lost(reply) != Multiset::<usize>::empty() ==> {
            &&& acquisition.phase() is CheckOutput
            &&& acquisition.next_call() matches Some(ComCall::GetOutputDesc { output })
            &&& reply matches ComReply::Output(desc) && desc.attached_to_desktop == 0
            &&& acquisition.lost(reply) == Multiset::singleton(output)
        },
{
}

/// The call that follows when the outputs of an adapter are enumerated, `count` in number: the
/// adapter is left where it has none, and a device is made for it else.
pub open spec fn follows_outputs(adapter: usize, count: u32) -> ComCall {
    if count == 0 {
        ComCall::Release { object: adapter }
    } else {
        ComCall::CreateDevice {
            adapter,
            driver_type: 0,
            software: NULL,
            flags: 0,
            feature_levels: NULL,
            feature_level_count: 0,
            sdk_version: 7,
        }
    }
}

/// Whether a call may follow another one of an acquisition, by the reply to that one and by the
/// call before it.
pub open spec fn may_follow(
    before: Option<ComCall>,
    call: ComCall,
    reply: ComReply,
    next: Option<ComCall>,
) -> bool {
    match call {
        ComCall::CreateFactory1 { interface } => {
            &&& interface == Interface::IDXGIFactory1
            &&& next == Some(
                ComCall::EnumAdapters1 { factory: reply->Object_object, index: 0 },
            )
        },
        ComCall::EnumAdapters1 { factory, .. } => if reply->Object_hr == DXGI_ERROR_NOT_FOUND {
            next == Some(ComCall::Release { object: factory })
        } else {
            next == Some(ComCall::EnumOutputs { adapter: reply->Object_object, index: 0 })
        },
        ComCall::EnumOutputs { adapter, index } => if reply->Object_hr < 0 {
            next == Some(follows_outputs(adapter, index))
        } else {
            next == Some(ComCall::GetOutputDesc { output: reply->Object_object })
        },
        ComCall::GetOutputDesc { .. } => match before {
            Some(ComCall::EnumOutputs { adapter, index }) => if reply->Output_0.attached_to_desktop
                == 0 {
                next == Some(follows_outputs(adapter, index))
            } else {
                next matches Some(ComCall::EnumOutputs { adapter: a, index: i }) && a == adapter && i
                    == index + 1
            },
            _ => next == Some(
                ComCall::GetMonitorInfo { monitor: reply->Output_0.monitor, size: 40 },
            ),
        },
        ComCall::CreateDevice { .. } => {
            next matches Some(ComCall::QueryInterface { interface, .. }) && interface
                == Interface::IDXGIOutput1
        },
        ComCall::QueryInterface { object, .. } => next == Some(ComCall::Release { object }),
        ComCall::DuplicateOutput { output, device } => if reply->Object_hr == 0 {
            next == Some(
                ComCall::QueryInterface { object: device, interface: Interface::ID3D11Device },
            )
        } else {
            next == Some(ComCall::Release { object: output })
        },
        ComCall::GetMonitorInfo { .. } => {
            &&& before matches Some(ComCall::GetOutputDesc { .. })
            &&& next matches Some(ComCall::Release { .. })
        },
        ComCall::Release { .. } => true,
        _ => false,
    }
}

/// An acquisition goes from call to call as it has to: the adapters are asked for from number 0 on
/// until there is none, and the outputs of each until there is none or one is not attached; a
/// device is made for an adapter that has outputs; what was asked for another interface is released
/// next; the device is asked for again after each duplication; and of each output that is looked
/// at, the monitor that it is described to have is asked for.
pub proof fn law_acquisition_goes_from_call_to_call(
    states: Seq<Acquisition>,
    replies: Seq<ComReply>,
    i: int,
)
    requires
        is_run(states, replies),
        states[0].phase() is CreateFactory,
        0 <= i < replies.len(),
    ensures
        may_follow(
            if i > 0 {
                states[i - 1].next_call()
            } else {
                None
            },
            states[i].next_call()->0,
            replies[i],
            states[i + 1].next_call(),
        ),
{
    lemma_came_from(states, replies, i);
    assert(is_step(states, replies, i));
    if let AcquirePhase::CheckOutput { outputs, .. } = states[i].phase() {
        if let AcquirePhase::EnumOutput { outputs: more, .. } = states[i + 1].phase() {
            assert(crate::com::addrs(more@).len() == outputs@.len() + 1);
        }
    }
}

/// Which call came before.
proof fn lemma_came_from(states: Seq<Acquisition>, replies: Seq<ComReply>, n: int)
    requires
        is_run(states, replies),
        states[0].phase() is CreateFactory,
        0 <= n <= replies.len(),
    ensures
        match states[n].phase() {
            AcquirePhase::CheckOutput { site, outputs, .. } => {
                &&& n > 0
                &&& states[n].drops().len() == 0
                &&& states[n - 1].next_call() matches Some(ComCall::EnumOutputs { adapter, index })
                &&& adapter == site.adapter.addr()
                &&& index == outputs@.len()
            },
            AcquirePhase::FindMonitor { .. } => states[n].drops().len() == 0 ==> n > 0 && states[n
                - 1].next_call() matches Some(ComCall::Release { .. }),
            AcquirePhase::CheckMonitor { .. } => {
                &&& n > 0
                &&& states[n].drops().len() == 0
                &&& states[n - 1].next_call() matches Some(ComCall::GetOutputDesc { .. })
            },
            _ => true,
        },
    decreases n,
{
    if n > 0 {
        lemma_came_from(states, replies, n - 1);
        assert(is_step(states, replies, n - 1));
    }
}

/// Of pairs, the duplication of each and then its output are let go of, in the order of the pairs.
pub proof fn law_pairs_are_let_go_of_in_order(pairs: Seq<OutputPair>, i: int)
    requires
        0 <= i < pairs.len(),
    ensures
        pair_refs(pairs).len() == 2 * pairs.len(),
        pair_refs(pairs)[2 * i] == pairs[i].output_duplication.addr(),
        pair_refs(pairs)[2 * i + 1] == pairs[i].output.addr(),
    decreases pairs.len(),
{
    let later = pairs.skip(1);
    if later.len() == 0 {
        assert(pair_refs(later).len() == 0);
    } else if i > 0 {
        law_pairs_are_let_go_of_in_order(later, i - 1);
        assert(later[i - 1] == pairs[i]);
    } else {
        law_pairs_are_let_go_of_in_order(later, 0);
    }
}

/// Once the flags of a monitor are known, an acquisition lets go of what it has no use for any
/// more, in a fixed order. Where the output is the one to acquire, that is each of the outputs
/// behind it, the adapter and the factory. Where it is not, that is the output, and where it was
/// the last one also the device, its context and the adapter.
pub proof fn law_looking_at_an_output_lets_go_in_order(
    acquisition: Acquisition,
    reply: ComReply,
    next: Acquisition,
    i: int,
)
    requires
        acquisition.wf(),
        acquisition.accepts(reply),
        acquisition.leads_to(reply, next),
        acquisition.phase() is CheckMonitor,
        acquisition.drops().len() == 0,
    ensures
        acquisition.phase() matches AcquirePhase::CheckMonitor { bench, device, .. } && match next.phase() {
            AcquirePhase::Finished { acquired } => {
                let count = bench.pairs@.len() - 1;
                &&& acquired matches Some(output)
                &&& output.device == device
                &&& output.device_context == bench.device_context
                &&& output.output == bench.pairs@[0].output
                &&& output.output_duplication == bench.pairs@[0].output_duplication
                &&& next.drops().len() == 2 * count + 2
                &&& 0 <= i < count ==> next.drops()[2 * i] == bench.pairs@[i
                    + 1].output_duplication.addr() && next.drops()[2 * i + 1] == bench.pairs@[i
                    + 1].output.addr()
                &&& next.drops()[2 * count] == bench.site.adapter.addr()
                &&& next.drops()[2 * count + 1] == bench.site.factory.addr()
            },
            AcquirePhase::FindMonitor { bench: later, device: same, .. } => {
                &&& later.site == bench.site
                &&& later.device_context == bench.device_context
                &&& same == device
                &&& later.pairs@.len() == bench.pairs@.len() - 1
                &&& 0 <= i < later.pairs@.len() ==> later.pairs@[i] == bench.pairs@[i + 1]
                &&& next.drops().len() == 2
                &&& next.drops()[0] == bench.pairs@[0].output_duplication.addr()
                &&& next.drops()[1] == bench.pairs@[0].output.addr()
            },
            AcquirePhase::EnumAdapter { factory, index } => {
                &&& bench.pairs@.len() == 1
                &&& factory == bench.site.factory
                &&& index == bench.site.index + 1
                &&& next.drops().len() == 5
                &&& next.drops()[0] == bench.pairs@[0].output_duplication.addr()
                &&& next.drops()[1] == bench.pairs@[0].output.addr()
                &&& next.drops()[2] == device.addr()
                &&& next.drops()[3] == bench.device_context.addr()
                &&& next.drops()[4] == bench.site.adapter.addr()
            },
            _ => false,
        },
{
    let bench = acquisition.phase()->CheckMonitor_bench;
    let later = bench.pairs@.skip(1);
    if later.len() == 0 {
        assert(pair_refs(later).len() == 0);
    } else {
        law_pairs_are_let_go_of_in_order(later, 0);
        if 0 <= i < later.len() {
            law_pairs_are_let_go_of_in_order(later, i);
        }
    }
}

/// Each output of an adapter is duplicated by calls that follow each other in a fixed order: the
/// output is asked for the interface that can be duplicated, the device for the one that
/// duplicates, and the one is duplicated on the other; then the device is asked for again, and the
/// next output is turned to, or the outputs are looked at. What was asked is released each time.
pub proof fn law_outputs_are_duplicated_in_turn(
    states: Seq<Acquisition>,
    replies: Seq<ComReply>,
    i: int,
    n: int,
)
    requires
        is_run(states, replies),
        0 <= i,
        i + n <= replies.len(),
        states[i].next_call() matches Some(ComCall::QueryInterface { interface, .. }) && interface
            == Interface::IDXGIOutput1,
    ensures
        n == 1 ==> states[i + 1].next_call() == Some(
            ComCall::Release { object: states[i].next_call()->0->QueryInterface_object },
        ),
        n == 2 ==> (states[i + 2].next_call() matches Some(ComCall::QueryInterface { interface, .. })
            && interface == Interface::IDXGIDevice1),
        n == 3 ==> states[i + 3].next_call() == Some(
            ComCall::Release { object: states[i + 2].next_call()->0->QueryInterface_object },
        ),
        n == 4 ==> states[i + 4].next_call() == Some(
            ComCall::DuplicateOutput {
                output: object(replies, i),
                device: object(replies, i + 2),
            },
        ),
        n == 5 && replies[i + 4]->Object_hr == 0 ==> states[i + 5].next_call() == Some(
            ComCall::QueryInterface {
                object: object(replies, i + 2),
                interface: Interface::ID3D11Device,
            },
        ),
        n == 6 && replies[i + 4]->Object_hr == 0 ==> states[i + 6].next_call() == Some(
            ComCall::Release { object: object(replies, i + 2) },
        ),
        n == 7 && replies[i + 4]->Object_hr == 0 ==> match states[i + 7].next_call() {
            Some(ComCall::QueryInterface { interface, .. }) => interface == Interface::IDXGIOutput1,
            Some(ComCall::GetOutputDesc { .. }) => true,
            _ => false,
        },
{
    if n >= 1 {
        assert(is_step(states, replies, i));
    }
    if n >= 2 {
        assert(is_step(states, replies, i + 1));
    }
    if n >= 3 {
        assert(is_step(states, replies, i + 2));
    }
    if n >= 4 {
        assert(is_step(states, replies, i + 3));
    }
    if n >= 5 {
        assert(is_step(states, replies, i + 4));
    }
    if n >= 6 {
        assert(is_step(states, replies, i + 5));
    }
    if n >= 7 {
        assert(is_step(states, replies, i + 6));
    }
}

} // verus!
