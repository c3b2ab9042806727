//! Where the picture that a capture ends with comes from.
use vstd::prelude::*;

use crate::capture::{spec_layout, Capture, CapturePhase, Picture, DXGI_MAP_READ};
use crate::com::{ComCall, ComReply};
use crate::frame::{
    is_fetched, is_frame_run, is_frame_step, law_surface_holds_the_frame, DuplicatedOutput,
    FrameCalls, FrameGrab, FramePhase,
};
use crate::runs::{is_capture_run, is_capture_step};

verus! {

/// The calls of a run that took a picture, by their numbers.
pub struct PictureCalls {
    /// How the frame was fetched.
    pub frames: Seq<FrameGrab>,
    /// The calls that fetched it.
    pub fetch: FrameCalls,
    /// Mapped the surface.
    pub map: int,
    /// Described the output.
    pub describe: int,
    /// Read the pixels.
    pub read: int,
    /// Unmapped the surface.
    pub unmap: int,
}

/// Whether the calls of a run up to the mapping fetched a frame of an output into a surface.
pub open spec fn is_fetched_from(
    states: Seq<Capture>,
    replies: Seq<ComReply>,
    calls: PictureCalls,
    source: DuplicatedOutput,
    surface: usize,
) -> bool {
    &&& 0 <= calls.map <= replies.len()
    &&& forall|i: int|
        0 <= i < calls.map ==> (#[trigger] states[i]).phase() == (CapturePhase::Grab {
            grab: calls.frames[i],
        })
    &&& is_frame_run(calls.frames, replies.take(calls.map))
    &&& calls.frames[0].source() == source
    &&& is_fetched(calls.frames, replies.take(calls.map), calls.fetch, surface)
}

/// Whether a call of a run mapped a surface to be read, with so many bytes from row to row, to
/// address `bits`.
pub open spec fn is_mapped(
    states: Seq<Capture>,
    replies: Seq<ComReply>,
    calls: PictureCalls,
    surface: usize,
    pitch: i32,
    bits: usize,
) -> bool {
    &&& states[calls.map].next_call() == Some(ComCall::MapSurface { surface, flags: DXGI_MAP_READ })
    &&& replies[calls.map] matches ComReply::Mapped { hr, pitch: p, bits: b }
    &&& hr >= 0
    &&& p == pitch
    &&& b == bits
}

/// Whether the pixels that a call of a run read give a picture, laid out as a later call than the
/// mapping described the output.
pub open spec fn is_read(
    states: Seq<Capture>,
    replies: Seq<ComReply>,
    calls: PictureCalls,
    source: DuplicatedOutput,
    pitch: i32,
    bits: usize,
    picture: Picture,
) -> bool {
    &&& calls.map < calls.describe < calls.read
    &&& states[calls.describe].next_call() == Some(
        ComCall::GetOutputDesc { output: source.output.addr() },
    )
    &&& replies[calls.describe] matches ComReply::Output(desc)
    &&& {
        let layout = spec_layout(desc, pitch);
        &&& states[calls.read].next_call() == Some(
            ComCall::ReadPixels { bits, len: layout.extent() as usize },
        )
        &&& replies[calls.read] matches ComReply::Pixels(pixels)
        &&& layout.extent() <= pixels@.len()
        &&& picture.0@ == layout.picture(pixels@)
        &&& picture.1 == (layout.width, layout.height)
    }
}

/// Whether a picture is what the calls of a run made of a frame of an output: the surface that the
/// frame was fetched into was mapped, the pixels at the address that it was mapped to were read,
/// laid out as the same output was described, and the surface was unmapped.
pub open spec fn is_taken(
    states: Seq<Capture>,
    replies: Seq<ComReply>,
    calls: PictureCalls,
    source: DuplicatedOutput,
    picture: Picture,
) -> bool {
    let surface = replies[calls.fetch.surface]->Object_object;
    let (pitch, bits) = (replies[calls.map]->pitch, replies[calls.map]->bits);
    &&& is_fetched_from(states, replies, calls, source, surface)
    &&& is_mapped(states, replies, calls, surface, pitch, bits)
    &&& is_read(states, replies, calls, source, pitch, bits, picture)
    &&& calls.read < calls.unmap < replies.len()
    &&& states[calls.unmap].next_call() == Some(ComCall::UnmapSurface { surface })
}

/// A picture that a capture ends with is that of a frame of the output that the capture was begun
/// with, and still has: of the pixels of the surface that the frame was copied into, laid out as
/// this output was described.
pub proof fn law_picture_is_that_of_the_output(states: Seq<Capture>, replies: Seq<ComReply>)
    requires
        is_capture_run(states, replies),
        states[0].phase() is Reacquire || states[0].phase() is Grab
            && states[0].phase()->grab.phase() is Acquire,
    ensures
        states.last().phase() matches CapturePhase::Finished { source, result: Ok(picture) } ==> {
            &&& states[0].phase() matches CapturePhase::Grab { grab } && source == Some(grab.source())
            &&& exists|calls: PictureCalls|
                #[trigger] is_taken(states, replies, calls, source->0, picture)
        },
{
    let calls = lemma_founded(states, replies, replies.len() as int);
    if let CapturePhase::Finished { source: Some(source), result: Ok(picture) } =
        states.last().phase() {
        assert(is_taken(states, replies, calls, source, picture));
    }
}

/// Whether what a capture has of the surface comes from earlier calls of a run.
spec fn is_founded(
    states: Seq<Capture>,
    replies: Seq<ComReply>,
    calls: PictureCalls,
    n: int,
) -> bool {
    match states[n].phase() {
        CapturePhase::Reacquire { .. } => true,
        CapturePhase::Grab { .. } => forall|i: int|
            0 <= i <= n ==> (#[trigger] states[i]).phase() is Grab,
        CapturePhase::MapSurface { source, surface } => {
            &&& calls.map == n
            &&& calls.map > 0
            &&& is_fetched_from(states, replies, calls, source, surface.addr())
        },
        CapturePhase::Describe { source, surface, pitch, bits } => {
            &&& 0 < calls.map < n
            &&& is_fetched_from(states, replies, calls, source, surface.addr())
            &&& is_mapped(states, replies, calls, surface.addr(), pitch, bits)
        },
        CapturePhase::Read { source, surface, layout, bits } => {
            let pitch = replies[calls.map]->pitch;
            &&& 0 < calls.map < calls.describe < n
            &&& is_fetched_from(states, replies, calls, source, surface.addr())
            &&& is_mapped(states, replies, calls, surface.addr(), pitch, bits)
            &&& states[calls.describe].next_call() == Some(
                ComCall::GetOutputDesc { output: source.output.addr() },
            )
            &&& replies[calls.describe] matches ComReply::Output(desc)
            &&& layout == spec_layout(desc, pitch)
        },
        CapturePhase::Unmap { source, surface, picture } => {
            let (pitch, bits) = (replies[calls.map]->pitch, replies[calls.map]->bits);
            &&& 0 < calls.map
            &&& calls.read < n
            &&& is_fetched_from(states, replies, calls, source, surface.addr())
            &&& is_mapped(states, replies, calls, surface.addr(), pitch, bits)
            &&& is_read(states, replies, calls, source, pitch, bits, picture)
        },
        CapturePhase::Finished { source, result: Ok(picture) } => {
            &&& 0 < calls.map
            &&& source is Some
            &&& calls.unmap < n
            &&& is_taken(states, replies, calls, source->0, picture)
        },
        CapturePhase::Finished { result: Err(_), .. } => true,
    }
}

/// The calls of a run up to the mapping fetch a frame.
proof fn lemma_frames(
    states: Seq<Capture>,
    replies: Seq<ComReply>,
    calls: PictureCalls,
    n: int,
) -> (founded: PictureCalls)
    requires
        is_capture_run(states, replies),
        0 < n <= replies.len(),
        states[n].phase() is MapSurface,
        forall|i: int| 0 <= i < n ==> (#[trigger] states[i]).phase() is Grab,
        states[0].phase()->grab.phase() is Acquire,
    ensures
        is_founded(states, replies, founded, n),
{
    let source = states[n].phase()->MapSurface_source;
    let surface = states[n].phase()->MapSurface_surface;
    let last = states[n - 1].phase()->grab;
    assert(is_capture_step(states, replies, n - 1));
    let end = choose|g: FrameGrab|
        #[trigger] last.leads_to(replies[n - 1], g) && states[n].takes_frame(g);
    let frames = Seq::new(n as nat, |i: int| states[i].phase()->grab).push(end);
    let first = replies.take(n);
    assert forall|i: int| 0 <= i < first.len() implies #[trigger] is_frame_step(
        frames,
        first,
        i,
    ) by {
        assert(is_capture_step(states, replies, i));
        let grab = states[i].phase()->grab;
        let g = choose|g: FrameGrab|
            #[trigger] grab.leads_to(replies[i], g) && states[i + 1].takes_frame(g);
        if i + 1 < n {
            assert(states[i + 1].phase() is Grab);
            assert(g == frames[i + 1]);
        }
    }
    assert(frames.last() == end);
    lemma_same_source(frames, first, n);
    law_surface_holds_the_frame(frames, first);
    let fetch = choose|fetch: FrameCalls|
        #[trigger] is_fetched(frames, first, fetch, surface.addr());
    PictureCalls { frames, fetch, map: n, ..calls }
}

/// A frame is asked of the same output all the time.
proof fn lemma_same_source(frames: Seq<FrameGrab>, replies: Seq<ComReply>, n: int)
    requires
        is_frame_run(frames, replies),
        0 <= n <= replies.len(),
    ensures
        frames[n].source() == frames[0].source(),
    decreases n,
{
    if n > 0 {
        lemma_same_source(frames, replies, n - 1);
        assert(is_frame_step(frames, replies, n - 1));
    }
}

proof fn lemma_founded(states: Seq<Capture>, replies: Seq<ComReply>, n: int) -> (calls:
    PictureCalls)
    requires
        is_capture_run(states, replies),
        states[0].phase() is Reacquire || states[0].phase() is Grab
            && states[0].phase()->grab.phase() is Acquire,
        0 <= n <= replies.len(),
    ensures
        is_founded(states, replies, calls, n),
    decreases n,
{
    if n > 0 {
        let i = n - 1;
        let calls = lemma_founded(states, replies, i);
        assert(is_capture_step(states, replies, i));
        if states[i].drops().len() > 0 {
            calls
        } else {
            match states[i].phase() {
                CapturePhase::Grab { .. } => {
                    if states[n].phase() is MapSurface {
                        lemma_frames(states, replies, calls, n)
                    } else {
                        calls
                    }
                },
                CapturePhase::Describe { .. } => PictureCalls { describe: i, ..calls },
                CapturePhase::Read { .. } => PictureCalls { read: i, ..calls },
                CapturePhase::Unmap { .. } => PictureCalls { unmap: i, ..calls },
                _ => calls,
            }
        }
    } else {
        PictureCalls {
            frames: Seq::empty(),
            fetch: arbitrary(),
            map: 0,
            describe: 0,
            read: 0,
            unmap: 0,
        }
    }
}

} // verus!
