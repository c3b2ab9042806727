//! How a picture of an output is taken.
use vstd::multiset::Multiset;
use vstd::prelude::*;

use crate::acquire::{
    law_acquisition_references_are_accounted_for, AcquirePhase, Acquisition,
};
use crate::com::{ComCall, ComReply, IDXGISurface1, OutputDesc, UniqueCOMPtr};
use crate::frame::{
    law_frame_references_are_accounted_for, lemma_refs_are_held, DuplicatedOutput, FrameGrab,
    FramePhase,
};
use crate::hresult::{
    hr_failed, DXGI_ERROR_ACCESS_LOST, DXGI_ERROR_WAIT_TIMEOUT, E_ACCESSDENIED, HRESULT,
};
use crate::pixel::{
    is_measurable, measurable, output_size, pitch_pixels, spec_output_size, spec_pitch_pixels,
    Layout, BGRA8,
};
use crate::refs::{lemma_all_refs, lemma_first_ref, lemma_no_refs};

verus! {

/// The mode in which a surface is mapped to be read.
pub const DXGI_MAP_READ: u32 = 1;

/// Possible errors when capturing.
#[derive(Debug)]
pub enum CaptureError {
    /// Could not duplicate output, access denied. Might be in protected fullscreen.
    AccessDenied,
    /// Access to the duplicated output was lost. Likely, the mode was changed, as from window to
    /// fullscreen.
    AccessLost,
    /// Error when trying to refresh outputs after some failure.
    RefreshFailure,
    /// No new frame came within the timeout.
    Timeout,
    /// General or unexpected failure.
    Fail(&'static str),
}

/// A picture, row by row, with its width and height.
pub type Picture = (Vec<BGRA8>, (usize, usize));

/// How far a capture has come, named by the call that is due.
#[allow(inconsistent_fields)]
pub enum CapturePhase {
    /// The output is acquired anew, after which `error` is reported.
    Reacquire { acquisition: Acquisition, error: CaptureError },
    Grab { grab: FrameGrab },
    MapSurface { source: DuplicatedOutput, surface: UniqueCOMPtr<IDXGISurface1> },
    Describe {
        source: DuplicatedOutput,
        surface: UniqueCOMPtr<IDXGISurface1>,
        pitch: i32,
        bits: usize,
    },
    Read {
        source: DuplicatedOutput,
        surface: UniqueCOMPtr<IDXGISurface1>,
        layout: Layout,
        bits: usize,
    },
    Unmap { source: DuplicatedOutput, surface: UniqueCOMPtr<IDXGISurface1>, picture: Picture },
    Finished { source: Option<DuplicatedOutput>, result: Result<Picture, CaptureError> },
}

/// The taking of a picture.
pub struct Capture {
    capture_source_index: usize,
    phase: CapturePhase,
    /// References to release before anything else is done.
    drops: Vec<usize>,
}

/// How a picture lies in a mapped surface, by the rectangle that the output covers, the bytes from
/// row to row of the surface, and the rotation.
pub open spec fn spec_layout(desc: OutputDesc, pitch: i32) -> Layout {
    let size = spec_output_size(desc.desktop_coordinates);
    Layout {
        width: size.0,
        height: size.1,
        pitch: spec_pitch_pixels(pitch) as usize,
        rotation: desc.rotation,
    }
}

/// Whether a capture may end with an output and a result: there is no output where the outputs
/// could not be refreshed, there may be none where access is denied, and there is one else.
pub open spec fn may_end(
    source: Option<DuplicatedOutput>,
    result: Result<Picture, CaptureError>,
) -> bool {
    match result {
        Err(CaptureError::RefreshFailure) => source is None,
        Err(CaptureError::AccessDenied) => true,
        _ => source is Some,
    }
}

impl CapturePhase {
    /// The references that are held for the work that is still to do.
    pub open spec fn held(&self) -> Multiset<usize> {
        match self {
            CapturePhase::Reacquire { acquisition, .. } => acquisition.held(),
            CapturePhase::Grab { grab } => grab.held(),
            CapturePhase::MapSurface { source, surface } => source.held().insert(surface.addr()),
            CapturePhase::Describe { source, surface, .. } => source.held().insert(surface.addr()),
            CapturePhase::Read { source, surface, .. } => source.held().insert(surface.addr()),
            CapturePhase::Unmap { source, surface, .. } => source.held().insert(surface.addr()),
            CapturePhase::Finished { source: Some(source), .. } => source.held(),
            CapturePhase::Finished { source: None, .. } => Multiset::empty(),
        }
    }
}

impl Capture {
    /// The capture source that is looked for where the output has to be acquired anew.
    pub closed spec fn capture_source_index(&self) -> usize {
        self.capture_source_index
    }

    /// How far it has come.
    pub closed spec fn phase(&self) -> CapturePhase {
        self.phase
    }

    /// The references that are released before anything else is done.
    pub closed spec fn drops(&self) -> Seq<usize> {
        self.drops@
    }

    /// The output that is duplicated, unless it is being acquired anew.
    pub open spec fn source(&self) -> Option<DuplicatedOutput> {
        match self.phase() {
            CapturePhase::Reacquire { .. } => None,
            CapturePhase::Grab { grab } => Some(grab.source()),
            CapturePhase::MapSurface { source, .. } => Some(source),
            CapturePhase::Describe { source, .. } => Some(source),
            CapturePhase::Read { source, .. } => Some(source),
            CapturePhase::Unmap { source, .. } => Some(source),
            CapturePhase::Finished { source, .. } => source,
        }
    }

    /// The references that the capture holds.
    pub open spec fn held(&self) -> Multiset<usize> {
        self.phase().held().add(self.drops().to_multiset())
    }

    /// What holds of every capture: work that is begun is not done, a picture has width times
    /// height pixels, and the output is missing at the end only where the error is why.
    pub open spec fn wf(&self) -> bool {
        match self.phase() {
            CapturePhase::Reacquire { acquisition, error } => {
                &&& acquisition.wf()
                &&& acquisition.next_call() is Some
                &&& acquisition.capture_source_index() == self.capture_source_index()
                &&& error is AccessLost || error is Fail
                &&& self.drops().len() == 0
            },
            CapturePhase::Grab { grab } => {
                &&& grab.next_call() is Some
                &&& self.drops().len() == 0
            },
            CapturePhase::MapSurface { .. } => self.drops().len() == 0,
            CapturePhase::Describe { .. } => self.drops().len() == 0,
            CapturePhase::Read { layout, .. } => layout.readable() && self.drops().len() == 0,
            CapturePhase::Unmap { picture, .. } => {
                &&& picture.0@.len() == picture.1.0 * picture.1.1
                &&& self.drops().len() == 0
            },
            CapturePhase::Finished { source, result } => {
                &&& may_end(source, result)
                &&& result matches Ok(picture) ==> picture.0@.len() == picture.1.0 * picture.1.1
            },
        }
    }

    /// The call that is due, or `None` when the work is done.
    pub open spec fn next_call(&self) -> Option<ComCall> {
        if self.drops().len() > 0 {
            Some(ComCall::Release { object: self.drops()[0] })
        } else {
            match self.phase() {
                CapturePhase::Reacquire { acquisition, .. } => acquisition.next_call(),
                CapturePhase::Grab { grab } => grab.next_call(),
                CapturePhase::MapSurface { surface, .. } => Some(
                    ComCall::MapSurface { surface: surface.addr(), flags: DXGI_MAP_READ },
                ),
                CapturePhase::Describe { source, .. } => Some(
                    ComCall::GetOutputDesc { output: source.output.addr() },
                ),
                CapturePhase::Read { layout, bits, .. } => Some(
                    ComCall::ReadPixels { bits, len: layout.extent() as usize },
                ),
                CapturePhase::Unmap { surface, .. } => Some(
                    ComCall::UnmapSurface { surface: surface.addr() },
                ),
                CapturePhase::Finished { .. } => None,
            }
        }
    }

    /// Whether the work can go on with a reply: it is of the kind that the call gives, nothing is
    /// missing without which no capture can be made, and the picture can be taken.
    pub open spec fn accepts(&self, reply: ComReply) -> bool {
        if self.drops().len() > 0 {
            reply is Done
        } else {
            match (self.phase(), reply) {
                (CapturePhase::Reacquire { acquisition, .. }, _) => acquisition.accepts(reply),
                (CapturePhase::Grab { grab }, _) => grab.accepts(reply),
                (CapturePhase::MapSurface { .. }, ComReply::Mapped { .. }) => true,
                (CapturePhase::Describe { pitch, .. }, ComReply::Output(desc)) => {
                    &&& measurable(desc.desktop_coordinates)
                    &&& spec_layout(desc, pitch).readable()
                },
                (CapturePhase::Read { layout, .. }, ComReply::Pixels(pixels)) => {
                    layout.extent() <= pixels@.len()
                },
                (CapturePhase::Unmap { .. }, ComReply::Done { .. }) => true,
                _ => false,
            }
        }
    }

    /// Whether it begins to acquire the output anew, to report `error` afterwards.
    pub open spec fn reacquires(
        &self,
        previous: Option<DuplicatedOutput>,
        error: CaptureError,
    ) -> bool {
        &&& self.phase() matches CapturePhase::Reacquire { acquisition, error: e }
        &&& e == error
        &&& acquisition.capture_source_index() == self.capture_source_index()
        &&& acquisition.phase() == AcquirePhase::CreateFactory
        &&& acquisition.drops() == match previous {
            Some(output) => output.refs(),
            None => Seq::empty(),
        }
        &&& self.drops().len() == 0
    }

    /// Whether it is done with nothing but an error.
    pub open spec fn reports(&self, source: Option<DuplicatedOutput>, error: CaptureError) -> bool {
        &&& self.phase() == CapturePhase::Finished { source, result: Err(error) }
        &&& self.drops().len() == 0
    }

    /// Whether it goes on as it has to from a failure to fetch a frame: where the duplicated output
    /// is of no use any more, it is acquired anew.
    pub open spec fn recovers(&self, source: DuplicatedOutput, hr: HRESULT) -> bool {
        if hr == DXGI_ERROR_ACCESS_LOST {
            self.reacquires(Some(source), CaptureError::AccessLost)
        } else if hr == E_ACCESSDENIED {
            self.reports(Some(source), CaptureError::AccessDenied)
        } else if hr == DXGI_ERROR_WAIT_TIMEOUT {
            self.reports(Some(source), CaptureError::Timeout)
        } else {
            self.reacquires(Some(source), CaptureError::Fail("Failure when acquiring frame"))
        }
    }

    /// Whether it goes on as it has to from where an acquisition has come.
    pub open spec fn takes_acquisition(&self, acquisition: Acquisition, error: CaptureError) -> bool {
        match (acquisition.next_call(), acquisition.phase()) {
            (None, AcquirePhase::Finished { acquired: Some(output) }) => {
                self.reports(Some(output), error)
            },
            (None, AcquirePhase::Finished { acquired: None }) => {
                self.reports(None, CaptureError::RefreshFailure)
            },
            (None, AcquirePhase::Refused) => self.reports(None, CaptureError::AccessDenied),
            _ => {
                &&& self.phase() == CapturePhase::Reacquire { acquisition, error }
                &&& self.drops().len() == 0
            },
        }
    }

    /// Whether it goes on as it has to from where the fetching of a frame has come.
    pub open spec fn takes_frame(&self, grab: FrameGrab) -> bool {
        match (grab.next_call(), grab.phase()) {
            (None, FramePhase::Finished { result: Ok(surface) }) => {
                &&& self.phase() == CapturePhase::MapSurface { source: grab.source(), surface }
                &&& self.drops().len() == 0
            },
            (None, FramePhase::Finished { result: Err(hr) }) => self.recovers(grab.source(), hr),
            _ => {
                &&& self.phase() == CapturePhase::Grab { grab }
                &&& self.drops().len() == 0
            },
        }
    }

    /// Whether `next` is what comes after a reply to the call that was due.
    pub open spec fn leads_to(&self, reply: ComReply, next: Capture) -> bool {
        &&& next.capture_source_index() == self.capture_source_index()
        &&& if self.drops().len() > 0 {
            next.phase() == self.phase() && next.drops() == self.drops().skip(1)
        } else {
            match (self.phase(), reply) {
                (CapturePhase::Reacquire { acquisition, error }, _) => exists|a: Acquisition|
                    #[trigger] acquisition.leads_to(reply, a) && next.takes_acquisition(a, error),
                (CapturePhase::Grab { grab }, _) => exists|g: FrameGrab|
                    #[trigger] grab.leads_to(reply, g) && next.takes_frame(g),
                (
                    CapturePhase::MapSurface { source, surface },
                    ComReply::Mapped { hr, pitch, bits },
                ) => if hr < 0 {
                    &&& next.phase() == CapturePhase::Finished {
                        source: Some(source),
                        result: Err(CaptureError::Fail("Failed to map surface")),
                    }
                    &&& next.drops() == seq![surface.addr()]
                } else {
                    &&& next.phase() == CapturePhase::Describe { source, surface, pitch, bits }
                    &&& next.drops().len() == 0
                },
                (
                    CapturePhase::Describe { source, surface, pitch, bits },
                    ComReply::Output(desc),
                ) => {
                    &&& next.phase() == CapturePhase::Read {
                        source,
                        surface,
                        layout: spec_layout(desc, pitch),
                        bits,
                    }
                    &&& next.drops().len() == 0
                },
                (
                    CapturePhase::Read { source, surface, layout, .. },
                    ComReply::Pixels(pixels),
                ) => {
                    &&& next.phase() matches CapturePhase::Unmap {
                        source: s,
                        surface: f,
                        picture,
                    } && s == source && f == surface && picture.0@ == layout.picture(pixels@)
                        && picture.1 == (layout.width, layout.height)
                    &&& next.drops().len() == 0
                },
                (CapturePhase::Unmap { source, surface, picture }, _) => {
                    &&& next.phase() == CapturePhase::Finished {
                        source: Some(source),
                        result: Ok(picture),
                    }
                    &&& next.drops() == seq![surface.addr()]
                },
                _ => false,
            }
        }
    }

    /// Begins to acquire the output anew, to report `error` afterwards.
    fn reacquire(
        capture_source_index: usize,
        previous: Option<DuplicatedOutput>,
        error: CaptureError,
    ) -> (capture: Capture)
        requires
            error is AccessLost || error is Fail,
        ensures
            capture.wf(),
            capture.capture_source_index() == capture_source_index,
            capture.reacquires(previous, error),
    {
        Capture {
            capture_source_index,
            phase: CapturePhase::Reacquire {
                acquisition: Acquisition::start(capture_source_index, previous),
                error,
            },
            drops: Vec::new(),
        }
    }

    /// Ends with an error.
    fn report(
        capture_source_index: usize,
        source: Option<DuplicatedOutput>,
        error: CaptureError,
    ) -> (capture: Capture)
        requires
            may_end(source, Err(error)),
        ensures
            capture.wf(),
            capture.capture_source_index() == capture_source_index,
            capture.reports(source, error),
    {
        Capture {
            capture_source_index,
            phase: CapturePhase::Finished { source, result: Err(error) },
            drops: Vec::new(),
        }
    }

    /// Begins to take a picture: fetches a frame where there is a duplicated output, and acquires
    /// one where there is none.
    pub fn start(
        capture_source_index: usize,
        timeout_ms: u32,
        source: Option<DuplicatedOutput>,
    ) -> (capture: Capture)
        ensures
            capture.wf(),
            capture.capture_source_index() == capture_source_index,
            match source {
                Some(output) => {
                    &&& capture.phase() matches CapturePhase::Grab { grab }
                    &&& grab.source() == output
                    &&& grab.timeout_ms() == timeout_ms
                    &&& grab.phase() == FramePhase::Acquire
                    &&& grab.drops().len() == 0
                    &&& capture.drops().len() == 0
                },
                None => capture.reacquires(
                    None,
                    CaptureError::Fail("No valid duplicated output"),
                ),
            },
    {
        match source {
            Some(output) => Capture {
                capture_source_index,
                phase: CapturePhase::Grab { grab: output.get_frame(timeout_ms) },
                drops: Vec::new(),
            },
            None => Capture::reacquire(
                capture_source_index,
                None,
                CaptureError::Fail("No valid duplicated output"),
            ),
        }
    }

    /// Tells the call that is due, or `None` when the work is done.
    pub fn pending(&self) -> (call: Option<ComCall>)
        requires
            self.wf(),
        ensures
            call == self.next_call(),
    {
        if self.drops.len() > 0 {
            return Some(ComCall::Release { object: self.drops[0] });
        }
        match &self.phase {
            CapturePhase::Reacquire { acquisition, .. } => acquisition.pending(),
            CapturePhase::Grab { grab } => grab.pending(),
            CapturePhase::MapSurface { surface, .. } => Some(
                ComCall::MapSurface { surface: surface.as_ptr(), flags: DXGI_MAP_READ },
            ),
            CapturePhase::Describe { source, .. } => Some(source.get_desc()),
            CapturePhase::Read { layout, bits, .. } => Some(
                ComCall::ReadPixels { bits: *bits, len: layout.mapped_len() },
            ),
            CapturePhase::Unmap { surface, .. } => Some(
                ComCall::UnmapSurface { surface: surface.as_ptr() },
            ),
            CapturePhase::Finished { .. } => None,
        }
    }

    /// Tests whether the work can go on with a reply to the call that is due.
    pub fn can_resume(&self, reply: &ComReply) -> (fits: bool)
        requires
            self.wf(),
        ensures
            fits == self.accepts(*reply),
    {
        if self.drops.len() > 0 {
            return matches!(reply, ComReply::Done { .. });
        }
        match (&self.phase, reply) {
            (CapturePhase::Reacquire { acquisition, .. }, _) => acquisition.can_resume(reply),
            (CapturePhase::Grab { grab }, _) => grab.can_resume(reply),
            (CapturePhase::MapSurface { .. }, ComReply::Mapped { .. }) => true,
            (CapturePhase::Describe { pitch, .. }, ComReply::Output(desc)) => {
                is_measurable(desc.desktop_coordinates) && layout_of(desc, *pitch).is_readable()
            },
            (CapturePhase::Read { layout, .. }, ComReply::Pixels(pixels)) => {
                layout.mapped_len() <= pixels.len()
            },
            (CapturePhase::Unmap { .. }, ComReply::Done { .. }) => true,
            _ => false,
        }
    }

    /// Goes on from a failure to fetch a frame.
    fn recover(capture_source_index: usize, source: DuplicatedOutput, hr: HRESULT) -> (next: Capture)
        ensures
            next.wf(),
            next.capture_source_index() == capture_source_index,
            next.recovers(source, hr),
    {
        if hr == DXGI_ERROR_ACCESS_LOST {
            Capture::reacquire(capture_source_index, Some(source), CaptureError::AccessLost)
        } else if hr == E_ACCESSDENIED {
            Capture::report(capture_source_index, Some(source), CaptureError::AccessDenied)
        } else if hr == DXGI_ERROR_WAIT_TIMEOUT {
            Capture::report(capture_source_index, Some(source), CaptureError::Timeout)
        } else {
            Capture::reacquire(
                capture_source_index,
                Some(source),
                CaptureError::Fail("Failure when acquiring frame"),
            )
        }
    }

    /// Goes on from where an acquisition has come.
    fn take_acquisition(
        capture_source_index: usize,
        acquisition: Acquisition,
        error: CaptureError,
    ) -> (next: Capture)
        requires
            acquisition.wf(),
            acquisition.capture_source_index() == capture_source_index,
            error is AccessLost || error is Fail,
        ensures
            next.wf(),
            next.capture_source_index() == capture_source_index,
            next.takes_acquisition(acquisition, error),
    {
        if acquisition.pending().is_some() {
            return Capture {
                capture_source_index,
                phase: CapturePhase::Reacquire { acquisition, error },
                drops: Vec::new(),
            };
        }
        if acquisition.was_refused() {
            return Capture::report(capture_source_index, None, CaptureError::AccessDenied);
        }
        match acquisition.finish() {
            Some(output) => Capture::report(capture_source_index, Some(output), error),
            None => Capture::report(capture_source_index, None, CaptureError::RefreshFailure),
        }
    }

    /// Goes on from where the fetching of a frame has come.
    fn take_frame(capture_source_index: usize, grab: FrameGrab) -> (next: Capture)
        ensures
            next.wf(),
            next.capture_source_index() == capture_source_index,
            next.takes_frame(grab),
    {
        if grab.pending().is_some() {
            return Capture {
                capture_source_index,
                phase: CapturePhase::Grab { grab },
                drops: Vec::new(),
            };
        }
        let (source, result) = grab.finish();
        match result {
            Ok(surface) => Capture {
                capture_source_index,
                phase: CapturePhase::MapSurface { source, surface },
                drops: Vec::new(),
            },
            Err(hr) => Capture::recover(capture_source_index, source, hr),
        }
    }

    /// Goes on with a reply to the call that was due.
    pub fn resume(self, reply: ComReply) -> (next: Capture)
        requires
            self.wf(),
            self.accepts(reply),
        ensures
            next.wf(),
            self.leads_to(reply, next),
    {
        let Capture { capture_source_index, phase, mut drops } = self;
        if drops.len() > 0 {
            let _ = drops.remove(0);
            assert(drops@ == self.drops@.skip(1));
            return Capture { capture_source_index, phase, drops };
        }
        let phase = match (phase, reply) {
            (CapturePhase::Reacquire { acquisition, error }, _) => {
                let acquisition = acquisition.resume(reply);
                return Capture::take_acquisition(capture_source_index, acquisition, error);
            },
            (CapturePhase::Grab { grab }, _) => {
                let grab = grab.resume(reply);
                return Capture::take_frame(capture_source_index, grab);
            },
            (
                CapturePhase::MapSurface { source, surface },
                ComReply::Mapped { hr, pitch, bits },
            ) => if hr_failed(hr) {
                surface.release(&mut drops);
                CapturePhase::Finished {
                    source: Some(source),
                    result: Err(CaptureError::Fail("Failed to map surface")),
                }
            } else {
                CapturePhase::Describe { source, surface, pitch, bits }
            },
            (
                CapturePhase::Describe { source, surface, pitch, bits },
                ComReply::Output(desc),
            ) => CapturePhase::Read { source, surface, layout: layout_of(&desc, pitch), bits },
            (CapturePhase::Read { source, surface, layout, .. }, ComReply::Pixels(pixels)) => {
                let picture = (layout.read_picture(pixels), (layout.width, layout.height));
                CapturePhase::Unmap { source, surface, picture }
            },
            (CapturePhase::Unmap { source, surface, picture }, _) => {
                surface.release(&mut drops);
                CapturePhase::Finished { source: Some(source), result: Ok(picture) }
            },
            (phase, _) => phase,
        };
        assert(drops@ =~= Seq::<usize>::empty() || drops@ =~= seq![drops@[0]]);
        Capture { capture_source_index, phase, drops }
    }

    /// Hands out the picture or the error, together with the output that is duplicated now.
    pub fn finish(self) -> (outcome: (Option<DuplicatedOutput>, Result<Picture, CaptureError>))
        requires
            self.wf(),
            self.next_call() is None,
        ensures
            self.phase() == (CapturePhase::Finished { source: outcome.0, result: outcome.1 }),
    {
        match self.phase {
            CapturePhase::Finished { source, result } => (source, result),
            _ => vstd::pervasive::unreached(),
        }
    }

    /// Gives the capture up before it is done: hands out the output that is still duplicated, and
    /// the references to release.
    pub fn abandon(self) -> (rest: (Option<DuplicatedOutput>, Vec<usize>))
        ensures
            rest.0 == self.source(),
            self.held() == rest.1@.to_multiset().add(
                match rest.0 {
                    Some(output) => output.held(),
                    None => Multiset::empty(),
                },
            ),
    {
        broadcast use vstd::seq_lib::to_multiset_build;

        let mut drops = self.drops;
        let ghost before = drops@;
        let source = match self.phase {
            CapturePhase::Reacquire { acquisition, .. } => {
                let mut refs = acquisition.abandon();
                proof {
                    lemma_all_refs(before, refs@);
                }
                drops.append(&mut refs);
                None
            },
            CapturePhase::Grab { grab } => {
                let (source, refs) = grab.abandon();
                let mut refs = refs;
                proof {
                    lemma_all_refs(before, refs@);
                }
                drops.append(&mut refs);
                Some(source)
            },
            CapturePhase::MapSurface { source, surface } => {
                surface.release(&mut drops);
                Some(source)
            },
            CapturePhase::Describe { source, surface, .. } => {
                surface.release(&mut drops);
                Some(source)
            },
            CapturePhase::Read { source, surface, .. } => {
                surface.release(&mut drops);
                Some(source)
            },
            CapturePhase::Unmap { source, surface, .. } => {
                surface.release(&mut drops);
                Some(source)
            },
            CapturePhase::Finished { source, .. } => source,
        };
        assert(self.held() =~= drops@.to_multiset().add(
            match source {
                Some(output) => output.held(),
                None => Multiset::empty(),
            },
        ));
        (source, drops)
    }
}

/// Computes how a picture lies in a mapped surface.
fn layout_of(desc: &OutputDesc, pitch: i32) -> (layout: Layout)
    requires
        measurable(desc.desktop_coordinates),
    ensures
        layout == spec_layout(*desc, pitch),
        layout.width == (desc.desktop_coordinates.right - desc.desktop_coordinates.left) as usize,
        layout.height == (desc.desktop_coordinates.bottom - desc.desktop_coordinates.top) as usize,
        layout.pitch == (pitch as usize) as int / 4,
        layout.rotation == desc.rotation,
{
    let (width, height): (usize, usize) = output_size(desc.desktop_coordinates);
    Layout { width, height, pitch: pitch_pixels(pitch), rotation: desc.rotation }
}

impl Capture {
    /// The references that are lost with a reply: that of an output which turns out not to be
    /// attached to the desktop.
    pub open spec fn lost(&self, reply: ComReply) -> Multiset<usize> {
        match self.phase() {
            CapturePhase::Reacquire { acquisition, .. } => acquisition.lost(reply),
            _ => Multiset::empty(),
        }
    }
}

/// A capture that acquires the output anew holds what the output held.
proof fn lemma_reacquires_holds(
    capture: Capture,
    previous: Option<DuplicatedOutput>,
    error: CaptureError,
)
    requires
        capture.reacquires(previous, error),
    ensures
        capture.held() == match previous {
            Some(output) => output.held(),
            None => Multiset::empty(),
        },
{
    lemma_no_refs();
    assert(capture.drops() =~= Seq::<usize>::empty());
    if let Some(output) = previous {
        lemma_refs_are_held(output);
    }
    assert(capture.held() =~= match previous {
        Some(output) => output.held(),
        None => Multiset::empty(),
    });
}

/// A capture makes up no reference, and loses none but that of an output which is not attached to
/// the desktop: what is held after a reply, what the call gave up and what is lost are what was
/// held before and what came with the reply.
pub proof fn law_capture_references_are_accounted_for(
    capture: Capture,
    reply: ComReply,
    next: Capture,
)
    requires
        capture.wf(),
        capture.accepts(reply),
        capture.leads_to(reply, next),
    ensures
        next.held().add(capture.next_call()->0.given_up()).add(capture.lost(reply))
            == capture.held().add(reply.gained()),
{
    broadcast use vstd::seq_lib::to_multiset_build;

    lemma_no_refs();
    if capture.drops().len() > 0 {
        lemma_first_ref(capture.drops());
    } else {
        assert(capture.drops() =~= Seq::<usize>::empty());
        if next.drops().len() == 1 {
            assert(next.drops() =~= Seq::<usize>::empty().push(next.drops()[0]));
        } else if next.drops().len() == 0 {
            assert(next.drops() =~= Seq::<usize>::empty());
        }
        match capture.phase() {
            CapturePhase::Reacquire { acquisition, error } => {
                let a = choose|a: Acquisition|
                    #[trigger] acquisition.leads_to(reply, a) && next.takes_acquisition(a, error);
                law_acquisition_references_are_accounted_for(acquisition, reply, a);
                if a.drops().len() == 0 {
                    assert(a.drops() =~= Seq::<usize>::empty());
                }
                assert(next.held() =~= a.held());
            },
            CapturePhase::Grab { grab } => {
                let g = choose|g: FrameGrab|
                    #[trigger] grab.leads_to(reply, g) && next.takes_frame(g);
                law_frame_references_are_accounted_for(grab, reply, g);
                if g.drops().len() == 0 {
                    assert(g.drops() =~= Seq::<usize>::empty());
                    if let FramePhase::Finished { result: Err(hr) } = g.phase() {
                        if hr == DXGI_ERROR_ACCESS_LOST {
                            lemma_reacquires_holds(next, Some(g.source()), CaptureError::AccessLost);
                        } else if hr != E_ACCESSDENIED && hr != DXGI_ERROR_WAIT_TIMEOUT {
                            lemma_reacquires_holds(
                                next,
                                Some(g.source()),
                                CaptureError::Fail("Failure when acquiring frame"),
                            );
                        }
                    }
                }
                assert(next.held() =~= g.held());
            },
            _ => {},
        }
    }
    assert(next.held().add(capture.next_call()->0.given_up()).add(capture.lost(reply))
        =~= capture.held().add(reply.gained()));
}

} // verus!
