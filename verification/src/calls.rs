//! Which calls a frame and a picture take, one after the other, and what comes of each.
use vstd::prelude::*;

use crate::capture::{spec_layout, Capture, CaptureError, CapturePhase, Picture};
use crate::com::{ComCall, ComReply, Interface, OutputDesc, TextureDesc, NULL};
use crate::frame::{is_frame_run, is_frame_step, DuplicatedOutput, FrameGrab, FramePhase};
use crate::hresult::{DXGI_ERROR_ACCESS_LOST, DXGI_ERROR_WAIT_TIMEOUT, E_ACCESSDENIED};
use crate::pixel::{
    law_extent_is_bounded, law_index_within_extent, law_picture_is_row_major, Rotation,
};
use crate::runs::{is_capture_run, is_capture_step};

verus! {

/// The object that a reply of a run gave.
pub open spec fn object(replies: Seq<ComReply>, i: int) -> usize {
    replies[i]->Object_object
}

/// Whether a reply of a run told of a failure.
pub open spec fn failed(replies: Seq<ComReply>, i: int) -> bool {
    &&& 0 <= i < replies.len()
    &&& replies[i] matches ComReply::Object { hr, .. } && hr < 0
}

/// Whether a texture has the size and the format of another one, and can be read from memory but
/// used for nothing else.
pub open spec fn is_readable_like(readable: TextureDesc, frame: TextureDesc) -> bool {
    &&& readable.width == frame.width
    &&& readable.height == frame.height
    &&& readable.mip_levels == frame.mip_levels
    &&& readable.array_size == frame.array_size
    &&& readable.format == frame.format
    &&& readable.sample_count == frame.sample_count
    &&& readable.sample_quality == frame.sample_quality
    &&& readable.usage == 3
    &&& readable.bind_flags == 0
    &&& readable.cpu_access_flags == 0x20000
    &&& readable.misc_flags == 0
}

/// Whether a call is the one that has number `i` of those that fetch a frame of an output, where
/// none of the calls before it failed.
pub open spec fn is_frame_call(
    output: DuplicatedOutput,
    timeout_ms: u32,
    replies: Seq<ComReply>,
    i: int,
    call: ComCall,
) -> bool {
    if i == 0 {
        let duplication = output.output_duplication.addr();
        call == (ComCall::AcquireNextFrame { duplication, timeout_ms })
    } else if i == 1 {
        call == (ComCall::QueryInterface {
            object: object(replies, 0),
            interface: Interface::ID3D11Texture2D,
        })
    } else if i == 2 {
        call == (ComCall::Release { object: object(replies, 0) })
    } else if i == 3 {
        call == (ComCall::GetTextureDesc { texture: object(replies, 1) })
    } else if i == 4 {
        &&& call matches ComCall::CreateTexture2D { device, desc, initial_data }
        &&& device == output.device.addr()
        &&& replies[3] matches ComReply::Texture(frame) && is_readable_like(desc, frame)
        &&& initial_data == NULL
    } else if i == 5 {
        call == (ComCall::SetEvictionPriority {
            texture: object(replies, 4),
            priority: 0xC800_0000,
        })
    } else if i == 6 {
        call == (ComCall::QueryInterface {
            object: object(replies, 4),
            interface: Interface::ID3D11Resource,
        })
    } else if i == 7 {
        call == (ComCall::Release { object: object(replies, 4) })
    } else if i == 8 {
        call == (ComCall::QueryInterface {
            object: object(replies, 1),
            interface: Interface::ID3D11Resource,
        })
    } else if i == 9 {
        call == (ComCall::Release { object: object(replies, 1) })
    } else if i == 10 {
        call == (ComCall::CopyResource {
            context: output.device_context.addr(),
            target: object(replies, 6),
            origin: object(replies, 8),
        })
    } else if i == 11 {
        call == (ComCall::Release { object: object(replies, 8) })
    } else if i == 12 {
        call == (ComCall::ReleaseFrame { duplication: output.output_duplication.addr() })
    } else if i == 13 {
        call == (ComCall::QueryInterface {
            object: object(replies, 6),
            interface: Interface::IDXGISurface1,
        })
    } else {
        &&& i == 14
        &&& call == (ComCall::Release { object: object(replies, 6) })
    }
}

/// How many calls a frame takes: all of them, or as many as it takes to end after the failure to
/// acquire the frame or to make the texture.
pub open spec fn frame_calls(replies: Seq<ComReply>) -> int {
    if failed(replies, 0) {
        1
    } else if failed(replies, 4) {
        6
    } else {
        15
    }
}

/// The number of the call that may fail and that decides what comes of a frame.
pub open spec fn deciding_call(replies: Seq<ComReply>) -> int {
    if failed(replies, 0) {
        0
    } else if failed(replies, 4) {
        4
    } else {
        13
    }
}

/// Fetching a frame takes calls that follow each other in a fixed order, each on what the ones
/// before gave: the frame is acquired, a texture of its size and format is made that can be read,
/// the frame is copied into it and given back, and the surface of the texture is what comes of it.
/// Where the frame cannot be acquired, the texture not be made or the surface not be had, the
/// result code of that call is what comes of it, after what is held was released.
pub proof fn law_frame_takes_these_calls(states: Seq<FrameGrab>, replies: Seq<ComReply>, i: int)
    requires
        is_frame_run(states, replies),
        states[0].phase() is Acquire,
        states[0].drops().len() == 0,
        0 <= i <= replies.len(),
    ensures
        i <= frame_calls(replies),
        i == frame_calls(replies) <==> states[i].next_call() is None,
        i < frame_calls(replies) && !(i == 5 && failed(replies, 4)) ==> is_frame_call(
            states[0].source(),
            states[0].timeout_ms(),
            replies,
            i,
            states[i].next_call()->0,
        ),
        i == 5 && failed(replies, 4) ==> states[i].next_call() == Some(
            ComCall::Release { object: object(replies, 1) },
        ),
        i == frame_calls(replies) ==> {
            let reply = replies[deciding_call(replies)];
            &&& reply is Object
            &&& states[i].phase() matches FramePhase::Finished { result }
            &&& match result {
                Ok(surface) => reply->Object_hr >= 0 && surface.addr() == reply->Object_object,
                Err(hr) => hr < 0 && hr == reply->Object_hr,
            }
        },
{
    lemma_frame_at(states, replies, i);
}

/// What a grab holds when so many replies were given.
spec fn is_frame_at(first: FrameGrab, replies: Seq<ComReply>, i: int, grab: FrameGrab) -> bool {
    let none = Seq::<usize>::empty();
    &&& grab.source() == first.source()
    &&& grab.timeout_ms() == first.timeout_ms()
    &&& if i == 0 {
        grab.phase() is Acquire && grab.drops() == none
    } else if failed(replies, 0) {
        &&& i == 1
        &&& grab.phase() == (FramePhase::Finished { result: Err(replies[0]->Object_hr) })
        &&& grab.drops() == none
        &&& replies[0] is Object
    } else if i == 1 {
        &&& grab.phase() matches FramePhase::QueryTexture { frame }
        &&& frame.addr() == object(replies, 0)
        &&& grab.drops() == none
    } else if i == 2 || i == 3 {
        &&& grab.phase() matches FramePhase::Describe { frame }
        &&& frame.addr() == object(replies, 1)
        &&& grab.drops() == if i == 2 {
            seq![object(replies, 0)]
        } else {
            none
        }
    } else if i == 4 {
        &&& grab.phase() matches FramePhase::CreateReadable { frame, desc }
        &&& frame.addr() == object(replies, 1)
        &&& replies[3] matches ComReply::Texture(d) && is_readable_like(desc, d)
        &&& grab.drops() == none
    } else if failed(replies, 4) {
        &&& i == 5 || i == 6
        &&& grab.phase() == (FramePhase::Finished { result: Err(replies[4]->Object_hr) })
        &&& grab.drops() == if i == 5 {
            seq![object(replies, 1)]
        } else {
            none
        }
        &&& replies[4] is Object
    } else if i == 5 {
        &&& grab.phase() matches FramePhase::Prioritize { frame, readable }
        &&& frame.addr() == object(replies, 1)
        &&& readable.addr() == object(replies, 4)
        &&& grab.drops() == none
    } else if i == 6 {
        &&& grab.phase() matches FramePhase::QueryReadable { frame, readable }
        &&& frame.addr() == object(replies, 1)
        &&& readable.addr() == object(replies, 4)
        &&& grab.drops() == none
    } else if i == 7 || i == 8 {
        &&& grab.phase() matches FramePhase::QueryFrame { frame, readable }
        &&& frame.addr() == object(replies, 1)
        &&& readable.addr() == object(replies, 6)
        &&& grab.drops() == if i == 7 {
            seq![object(replies, 4)]
        } else {
            none
        }
    } else if i == 9 || i == 10 {
        &&& grab.phase() matches FramePhase::Copy { frame, readable }
        &&& frame.addr() == object(replies, 8)
        &&& readable.addr() == object(replies, 6)
        &&& grab.drops() == if i == 9 {
            seq![object(replies, 1)]
        } else {
            none
        }
    } else if i == 11 || i == 12 {
        &&& grab.phase() matches FramePhase::ReleaseFrame { readable }
        &&& readable.addr() == object(replies, 6)
        &&& grab.drops() == if i == 11 {
            seq![object(replies, 8)]
        } else {
            none
        }
    } else if i == 13 {
        &&& grab.phase() matches FramePhase::QuerySurface { readable }
        &&& readable.addr() == object(replies, 6)
        &&& grab.drops() == none
    } else {
        &&& i == 14 || i == 15
        &&& grab.phase() matches FramePhase::Finished { result }
        &&& replies[13] is Object
        &&& match result {
            Ok(surface) => replies[13]->Object_hr >= 0 && surface.addr() == object(replies, 13),
            Err(hr) => hr < 0 && hr == replies[13]->Object_hr,
        }
        &&& grab.drops() == if i == 14 {
            seq![object(replies, 6)]
        } else {
            none
        }
    }
}

proof fn lemma_frame_at(states: Seq<FrameGrab>, replies: Seq<ComReply>, i: int)
    requires
        is_frame_run(states, replies),
        states[0].phase() is Acquire,
        states[0].drops().len() == 0,
        0 <= i <= replies.len(),
    ensures
        is_frame_at(states[0], replies, i, states[i]),
    decreases i,
{
    if i == 0 {
        assert(states[0].drops() =~= Seq::<usize>::empty());
    } else {
        lemma_frame_at(states, replies, i - 1);
        assert(is_frame_step(states, replies, i - 1));
        let before = states[i - 1].drops();
        assert(before.len() > 0 ==> before.skip(1) =~= Seq::<usize>::empty());
    }
}

/// Whether a capture is begun with an output: nothing was done yet, and nothing is to be released.
pub open spec fn is_begun(capture: Capture) -> bool {
    &&& capture.drops().len() == 0
    &&& capture.phase() matches CapturePhase::Grab { grab }
    &&& grab.phase() is Acquire
    &&& grab.drops().len() == 0
}

/// The output that a capture is begun with.
pub open spec fn begun_with(capture: Capture) -> DuplicatedOutput {
    capture.phase()->grab.source()
}

/// Where pixel (`row`, `col`) of an output with so many columns and rows is among the mapped pixels
/// of a surface with so many pixels from row to row, by the rotation of the output.
pub open spec fn mapped_index(
    rotation: Rotation,
    width: int,
    height: int,
    stride: int,
    row: int,
    col: int,
) -> int {
    match rotation {
        Rotation::Unspecified => row * stride + col,
        Rotation::Identity => row * stride + col,
        Rotation::Rotate90 => (width - 1 - col) * stride + row,
        Rotation::Rotate180 => (height - 1 - row) * stride + (width - 1 - col),
        Rotation::Rotate270 => col * stride + (height - 1 - row),
    }
}

/// How many pixels are mapped up to the last one of an output.
pub open spec fn mapped_count(rotation: Rotation, width: int, height: int, stride: int) -> int {
    if width == 0 || height == 0 {
        0
    } else if rotation == Rotation::Rotate90 || rotation == Rotation::Rotate270 {
        (width - 1) * stride + height
    } else {
        (height - 1) * stride + width
    }
}

/// The columns of an output, by what is told of it.
pub open spec fn columns(desc: OutputDesc) -> int {
    ((desc.desktop_coordinates.right - desc.desktop_coordinates.left) as usize) as int
}

/// The rows of an output, by what is told of it.
pub open spec fn rows(desc: OutputDesc) -> int {
    ((desc.desktop_coordinates.bottom - desc.desktop_coordinates.top) as usize) as int
}

/// How many pixels of four bytes a row of a mapped surface takes.
pub open spec fn stride(pitch: i32) -> int {
    (pitch as usize) as int / 4
}

/// What a capture that was begun with an output holds when so many replies were given, where the
/// frame could be fetched.
spec fn is_picture_at(first: Capture, replies: Seq<ComReply>, i: int, capture: Capture) -> bool {
    let output = begun_with(first);
    let (pitch, bits) = (replies[15]->pitch, replies[15]->bits);
    let layout = spec_layout(replies[16]->Output_0, pitch);
    if i == 15 {
        &&& capture.phase() matches CapturePhase::MapSurface { source, surface }
        &&& source == output
        &&& surface.addr() == object(replies, 13)
        &&& capture.drops().len() == 0
    } else if replies[15]->Mapped_hr < 0 {
        &&& i == 16 || i == 17
        &&& replies[15] is Mapped
        &&& capture.phase() == (CapturePhase::Finished {
            source: Some(output),
            result: Err(CaptureError::Fail("Failed to map surface")),
        })
        &&& capture.drops().len() == 17 - i
        &&& i == 16 ==> capture.drops()[0] == object(replies, 13)
    } else if i == 16 {
        &&& replies[15] is Mapped
        &&& capture.phase() matches CapturePhase::Describe { source, surface, pitch: p, bits: b }
        &&& source == output
        &&& surface.addr() == object(replies, 13)
        &&& p == pitch
        &&& b == bits
        &&& capture.drops().len() == 0
    } else if i == 17 {
        &&& replies[15] is Mapped
        &&& replies[16] is Output
        &&& capture.phase() matches CapturePhase::Read { source, surface, layout: l, bits: b }
        &&& source == output
        &&& surface.addr() == object(replies, 13)
        &&& l == layout
        &&& l.readable()
        &&& b == bits
        &&& capture.drops().len() == 0
    } else {
        &&& replies[15] is Mapped
        &&& replies[16] is Output
        &&& replies[17] is Pixels
        &&& layout.readable()
        &&& layout.extent() <= replies[17]->Pixels_0@.len()
        &&& if i == 18 {
            &&& capture.phase() matches CapturePhase::Unmap { source, surface, picture }
            &&& source == output
            &&& surface.addr() == object(replies, 13)
            &&& picture.0@ == layout.picture(replies[17]->Pixels_0@)
            &&& picture.1 == (layout.width, layout.height)
            &&& capture.drops().len() == 0
        } else {
            &&& i == 19 || i == 20
            &&& capture.phase() matches CapturePhase::Finished {
                source: Some(source),
                result: Ok(picture),
            }
            &&& source == output
            &&& picture.0@ == layout.picture(replies[17]->Pixels_0@)
            &&& picture.1 == (layout.width, layout.height)
            &&& capture.drops().len() == 20 - i
            &&& i == 19 ==> capture.drops()[0] == object(replies, 13)
        }
    }
}

/// What is reported of an output that was acquired anew after a failure to fetch a frame.
pub open spec fn is_reported_after(code: i32, error: CaptureError) -> bool {
    if code == DXGI_ERROR_ACCESS_LOST {
        error is AccessLost
    } else {
        error == CaptureError::Fail("Failure when acquiring frame")
    }
}

/// What a capture that was begun with an output holds when so many replies were given, where the
/// frame could not be fetched.
spec fn is_failure_at(first: Capture, replies: Seq<ComReply>, i: int, capture: Capture) -> bool {
    let output = begun_with(first);
    let code = replies[deciding_call(replies)]->Object_hr;
    let since = i - frame_calls(replies);
    if code == DXGI_ERROR_WAIT_TIMEOUT {
        &&& since == 0
        &&& capture.phase() == (CapturePhase::Finished {
            source: Some(output),
            result: Err(CaptureError::Timeout),
        })
        &&& capture.drops().len() == 0
    } else if code == E_ACCESSDENIED {
        &&& since == 0
        &&& capture.phase() == (CapturePhase::Finished {
            source: Some(output),
            result: Err(CaptureError::AccessDenied),
        })
        &&& capture.drops().len() == 0
    } else {
        &&& capture.drops().len() == 0
        &&& match capture.phase() {
            CapturePhase::Reacquire { acquisition, error } => {
                &&& is_reported_after(code, error)
                &&& acquisition.capture_source_index() == first.capture_source_index()
                &&& since <= 4 ==> acquisition.phase() is CreateFactory && acquisition.drops()
                    == output.refs().skip(since)
            },
            CapturePhase::Finished { source: Some(_), result: Err(error) } => {
                &&& since > 4
                &&& is_reported_after(code, error)
            },
            CapturePhase::Finished { source: None, result: Err(error) } => {
                &&& since > 4
                &&& error is RefreshFailure || error is AccessDenied
            },
            _ => false,
        }
    }
}

/// What a capture that was begun with an output holds when so many replies were given.
spec fn is_capture_at(first: Capture, replies: Seq<ComReply>, i: int, capture: Capture) -> bool {
    &&& capture.capture_source_index() == first.capture_source_index()
    &&& if i < frame_calls(replies) {
        &&& capture.phase() matches CapturePhase::Grab { grab }
        &&& is_frame_at(first.phase()->grab, replies, i, grab)
        &&& capture.drops().len() == 0
    } else if failed(replies, deciding_call(replies)) {
        is_failure_at(first, replies, i, capture)
    } else {
        is_picture_at(first, replies, i, capture)
    }
}

proof fn lemma_capture_at(states: Seq<Capture>, replies: Seq<ComReply>, i: int)
    requires
        is_capture_run(states, replies),
        is_begun(states[0]),
        0 <= i <= replies.len(),
    ensures
        is_capture_at(states[0], replies, i, states[i]),
    decreases i,
{
    if i == 0 {
        assert(states[0].phase()->grab.drops() =~= Seq::<usize>::empty());
    } else {
        let n = i - 1;
        lemma_capture_at(states, replies, n);
        assert(is_capture_step(states, replies, n));
        if n < frame_calls(replies) {
            lemma_grab_step(states, replies, n);
        } else if failed(replies, deciding_call(replies)) {
            lemma_failure_step(states, replies, n);
        }
    }
}

/// A capture goes on as the fetching of a frame does, up to its end.
proof fn lemma_grab_step(states: Seq<Capture>, replies: Seq<ComReply>, n: int)
    requires
        is_capture_step(states, replies, n),
        0 <= n < replies.len(),
        is_begun(states[0]),
        is_capture_at(states[0], replies, n, states[n]),
        n < frame_calls(replies),
    ensures
        is_capture_at(states[0], replies, n + 1, states[n + 1]),
{
    let grab = states[n].phase()->grab;
    let before = grab.drops();
    assert(before.len() > 0 ==> before.skip(1) =~= Seq::<usize>::empty());
    let g = choose|g: FrameGrab|
        #[trigger] grab.leads_to(replies[n], g) && states[n + 1].takes_frame(g);
    assert(is_frame_at(states[0].phase()->grab, replies, n + 1, g));
    let refs = begun_with(states[0]).refs();
    assert(refs.skip(0) =~= refs);
}

/// A capture acquires the output anew after a failure, or is done.
proof fn lemma_failure_step(states: Seq<Capture>, replies: Seq<ComReply>, n: int)
    requires
        is_capture_step(states, replies, n),
        0 <= n < replies.len(),
        is_begun(states[0]),
        is_capture_at(states[0], replies, n, states[n]),
        n >= frame_calls(replies),
        failed(replies, deciding_call(replies)),
    ensures
        is_capture_at(states[0], replies, n + 1, states[n + 1]),
{
    let since = n - frame_calls(replies);
    let refs = begun_with(states[0]).refs();
    if since < 4 {
        assert(refs.skip(since).skip(1) =~= refs.skip(since + 1));
    }
}

/// Taking a picture of an output takes the calls that fetch a frame, and then calls that follow
/// each other in a fixed order: the surface is mapped to be read, the output is described, the
/// pixels are read from where they were mapped, as many as the picture reaches over, and the
/// surface is unmapped and released. Where it cannot be mapped it is released at once. The output
/// is kept meanwhile.
pub proof fn law_picture_takes_these_calls(states: Seq<Capture>, replies: Seq<ComReply>, i: int)
    requires
        is_capture_run(states, replies),
        is_begun(states[0]),
        0 <= i <= replies.len(),
    ensures
        i < frame_calls(replies) ==> states[i].source() == Some(begun_with(states[0])),
        i < frame_calls(replies) && !(i == 5 && failed(replies, 4)) ==> states[i].next_call() is Some
            && is_frame_call(
            begun_with(states[0]),
            states[0].phase()->grab.timeout_ms(),
            replies,
            i,
            states[i].next_call()->0,
        ),
        i < frame_calls(replies) && i == 5 && failed(replies, 4) ==> states[i].next_call() == Some(
            ComCall::Release { object: object(replies, 1) },
        ),
        i >= frame_calls(replies) && !failed(replies, deciding_call(replies)) ==> {
            let surface = object(replies, 13);
            let desc = replies[16]->Output_0;
            let (pitch, bits) = (replies[15]->pitch, replies[15]->bits);
            &&& states[i].source() == Some(begun_with(states[0]))
            &&& if i == 15 {
                states[i].next_call() == Some(ComCall::MapSurface { surface, flags: 1 })
            } else if replies[15]->Mapped_hr < 0 {
                &&& i == 16 || i == 17
                &&& states[i].next_call() == if i == 16 {
                    Some(ComCall::Release { object: surface })
                } else {
                    None
                }
            } else if i == 16 {
                states[i].next_call() == Some(
                    ComCall::GetOutputDesc { output: begun_with(states[0]).output.addr() },
                )
            } else if i == 17 {
                &&& states[i].next_call() matches Some(ComCall::ReadPixels { bits: b, len })
                &&& b == bits
                &&& len == mapped_count(desc.rotation, columns(desc), rows(desc), stride(pitch))
            } else if i == 18 {
                states[i].next_call() == Some(ComCall::UnmapSurface { surface })
            } else {
                &&& i == 19 || i == 20
                &&& states[i].next_call() == if i == 19 {
                    Some(ComCall::Release { object: surface })
                } else {
                    None
                }
            }
        },
{
    lemma_capture_at(states, replies, i);
    if i == 17 {
        if let CapturePhase::Read { layout, .. } = states[i].phase() {
            law_extent_is_bounded(layout);
        }
    }
}

/// A picture that a capture ends with is the upright one of the output: it has as many columns and
/// rows as the output was described to have, and each of its pixels is the mapped one that the
/// rotation of the output puts there, the rows of the surface being as far apart as it was mapped.
pub proof fn law_picture_is_upright(
    states: Seq<Capture>,
    replies: Seq<ComReply>,
    picture: Picture,
    row: int,
    col: int,
)
    requires
        is_capture_run(states, replies),
        is_begun(states[0]),
        states.last().phase() matches CapturePhase::Finished { result: Ok(p), .. } && p == picture,
    ensures
        replies.len() >= 19,
        replies[15] is Mapped,
        replies[16] is Output,
        replies[17] is Pixels,
        ({
            let desc = replies[16]->Output_0;
            let (width, height) = (columns(desc), rows(desc));
            let from = mapped_index(
                desc.rotation,
                width,
                height,
                stride(replies[15]->pitch),
                row,
                col,
            );
            &&& picture.1.0 == width
            &&& picture.1.1 == height
            &&& picture.0@.len() == width * height
            &&& 0 <= row < height && 0 <= col < width ==> {
                &&& 0 <= row * width + col < picture.0@.len()
                &&& 0 <= from < replies[17]->Pixels_0@.len()
                &&& picture.0@[row * width + col] == replies[17]->Pixels_0@[from]
            }
        }),
{
    lemma_capture_at(states, replies, replies.len() as int);
    let desc = replies[16]->Output_0;
    let layout = spec_layout(desc, replies[15]->pitch);
    let pixels = replies[17]->Pixels_0@;
    assert(picture.0@ == layout.picture(pixels));
    if 0 <= row < layout.height && 0 <= col < layout.width {
        law_picture_is_row_major(layout, pixels, row, col);
        law_index_within_extent(layout, row, col);
    }
}

/// Whether call `i` of a run is one of those that fetch a frame and may fail, and gave a failure
/// code.
pub open spec fn fetch_failed_at(
    states: Seq<Capture>,
    replies: Seq<ComReply>,
    i: int,
    code: i32,
) -> bool {
    &&& 0 <= i < replies.len()
    &&& match states[i].next_call() {
        Some(ComCall::AcquireNextFrame { .. }) => true,
        Some(ComCall::CreateTexture2D { .. }) => true,
        Some(ComCall::QueryInterface { interface, .. }) => interface == Interface::IDXGISurface1,
        _ => false,
    }
    &&& replies[i] matches ComReply::Object { hr, .. } && hr == code
    &&& code < 0
}

/// Whether from call `j` of a run on the output was let go of, and then an output was begun to be
/// acquired, for the capture source that the capture was begun for.
pub open spec fn is_acquired_anew_at(states: Seq<Capture>, j: int) -> bool {
    let output = begun_with(states[0]);
    &&& j + 5 < states.len()
    &&& states[j].next_call() == Some(ComCall::Release { object: output.device.addr() })
    &&& states[j + 1].next_call() == Some(
        ComCall::Release { object: output.device_context.addr() },
    )
    &&& states[j + 2].next_call() == Some(ComCall::Release { object: output.output.addr() })
    &&& states[j + 3].next_call() == Some(
        ComCall::Release { object: output.output_duplication.addr() },
    )
    &&& states[j + 4].next_call() == Some(
        ComCall::CreateFactory1 { interface: Interface::IDXGIFactory1 },
    )
    &&& states[j + 4].phase() matches CapturePhase::Reacquire { acquisition, .. }
    &&& acquisition.phase() is CreateFactory
    &&& acquisition.capture_source_index() == states[0].capture_source_index()
}

/// Only the call that decides what comes of a frame gives a failure code.
proof fn lemma_failure_decides(states: Seq<Capture>, replies: Seq<ComReply>, i: int, code: i32)
    requires
        is_capture_run(states, replies),
        is_begun(states[0]),
        fetch_failed_at(states, replies, i, code),
    ensures
        i == deciding_call(replies),
        failed(replies, i),
        code == replies[i]->Object_hr,
{
    lemma_capture_at(states, replies, i);
    assert(is_capture_step(states, replies, i));
}

/// A capture whose frame cannot be fetched ends by the failure code. After
/// `DXGI_ERROR_WAIT_TIMEOUT` it ends with a timeout and after `E_ACCESSDENIED` with access denied,
/// at once and with the output that it has. After any other code the output is let go of and
/// acquired anew: where there is one then, lost access is reported after `DXGI_ERROR_ACCESS_LOST`
/// and a failure after the others; where there is none, the failure to refresh the outputs, or that
/// access was denied.
pub proof fn law_failure_to_fetch_is_recovered_from(
    states: Seq<Capture>,
    replies: Seq<ComReply>,
    i: int,
    code: i32,
)
    requires
        is_capture_run(states, replies),
        is_begun(states[0]),
        states.last().phase() is Finished,
        fetch_failed_at(states, replies, i, code),
    ensures
        states.last().phase() matches CapturePhase::Finished { source, result: Err(error) } && if code
            == DXGI_ERROR_WAIT_TIMEOUT {
            &&& source == Some(begun_with(states[0]))
            &&& error is Timeout
            &&& states.last().next_call() is None
        } else if code == E_ACCESSDENIED {
            &&& source == Some(begun_with(states[0]))
            &&& error is AccessDenied
            &&& states.last().next_call() is None
        } else {
            &&& exists|j: int| i < j && #[trigger] is_acquired_anew_at(states, j)
            &&& match source {
                Some(_) => if code == DXGI_ERROR_ACCESS_LOST {
                    error is AccessLost
                } else {
                    error == CaptureError::Fail("Failure when acquiring frame")
                },
                None => error is RefreshFailure || error is AccessDenied,
            }
        },
{
    lemma_failure_decides(states, replies, i, code);
    lemma_capture_at(states, replies, replies.len() as int);
    let e = frame_calls(replies);
    if code != DXGI_ERROR_WAIT_TIMEOUT && code != E_ACCESSDENIED {
        assert(replies.len() > e + 4);
        lemma_capture_at(states, replies, e);
        lemma_capture_at(states, replies, e + 1);
        lemma_capture_at(states, replies, e + 2);
        lemma_capture_at(states, replies, e + 3);
        lemma_capture_at(states, replies, e + 4);
        assert(is_acquired_anew_at(states, e));
    }
}

/// A capture whose frame can be fetched ends with a picture, or with the failure to map the surface
/// where that failed, and keeps the output either way.
pub proof fn law_fetched_frame_gives_a_picture(states: Seq<Capture>, replies: Seq<ComReply>)
    requires
        is_capture_run(states, replies),
        is_begun(states[0]),
        states.last().phase() is Finished,
        forall|i: int, code: i32| !#[trigger] fetch_failed_at(states, replies, i, code),
    ensures
        replies.len() > 15,
        states[15].next_call() matches Some(ComCall::MapSurface { .. }),
        replies[15] is Mapped,
        states.last().phase() matches CapturePhase::Finished { source, result } && source == Some(
            begun_with(states[0]),
        ) && if replies[15]->Mapped_hr < 0 {
            result == Err::<Picture, CaptureError>(CaptureError::Fail("Failed to map surface"))
        } else {
            result is Ok
        },
{
    let n = replies.len() as int;
    lemma_capture_at(states, replies, n);
    let d = deciding_call(replies);
    if failed(replies, d) {
        lemma_capture_at(states, replies, d);
        assert(fetch_failed_at(states, replies, d, replies[d]->Object_hr));
    }
    lemma_capture_at(states, replies, 15);
    if n > 15 {
        assert(is_capture_step(states, replies, 15));
    }
}

/// A capture ends with a timeout if and only if a call that fetches the frame gave exactly the code
/// that tells of one.
pub proof fn law_timeout_is_told_by_its_code(states: Seq<Capture>, replies: Seq<ComReply>)
    requires
        is_capture_run(states, replies),
        is_begun(states[0]),
        states.last().phase() is Finished,
    ensures
        states.last().phase()->result == Err::<Picture, CaptureError>(CaptureError::Timeout)
            <==> exists|i: int|
            #[trigger] fetch_failed_at(states, replies, i, DXGI_ERROR_WAIT_TIMEOUT),
{
    if exists|i: int, code: i32| #[trigger] fetch_failed_at(states, replies, i, code) {
        let (i, code) = choose|i: int, code: i32|
            #[trigger] fetch_failed_at(states, replies, i, code);
        law_failure_to_fetch_is_recovered_from(states, replies, i, code);
        assert forall|j: int|
            #[trigger] fetch_failed_at(states, replies, j, DXGI_ERROR_WAIT_TIMEOUT) implies code
            == DXGI_ERROR_WAIT_TIMEOUT by {
            lemma_failure_decides(states, replies, i, code);
            lemma_failure_decides(states, replies, j, DXGI_ERROR_WAIT_TIMEOUT);
        }
    } else {
        law_fetched_frame_gives_a_picture(states, replies);
    }
}

} // verus!
