//! The manager of a capture.
use vstd::multiset::Multiset;
use vstd::prelude::*;

use crate::acquire::{AcquirePhase, Acquisition};
use crate::capture::{may_end, Capture, CaptureError, CapturePhase, Picture};
use crate::frame::{DuplicatedOutput, FramePhase};
use crate::time::{spec_timeout_ms, timeout_ms, Duration};

verus! {

/// What captures an output of the desktop.
///
/// What takes calls into the system is begun by a method that hands out the work to do, and ended
/// by one that is handed the work when it is done.
pub struct DXGIManager {
    duplicated_output: Option<DuplicatedOutput>,
    capture_source_index: usize,
    timeout_ms: u32,
}

/// What a manager is made of.
pub struct ManagerView {
    /// The output that is captured, unless it was lost or is lent to work that is going on.
    pub duplicated_output: Option<DuplicatedOutput>,
    /// Which source is captured.
    pub capture_source_index: usize,
    /// How long a frame is waited for, in milliseconds.
    pub timeout_ms: int,
}

impl View for DXGIManager {
    type V = ManagerView;

    closed spec fn view(&self) -> ManagerView {
        ManagerView {
            duplicated_output: self.duplicated_output,
            capture_source_index: self.capture_source_index,
            timeout_ms: self.timeout_ms as int,
        }
    }
}

impl DXGIManager {
    /// Begins to set up a manager that captures source 0 and waits for a frame no longer than a
    /// timeout. `opened` ends it.
    pub fn new(timeout: Duration) -> (opening: (DXGIManager, Acquisition))
        ensures
            opening.0@ == (ManagerView {
                duplicated_output: None,
                capture_source_index: 0,
                timeout_ms: spec_timeout_ms(timeout),
            }),
            opening.1.wf(),
            opening.1.capture_source_index() == 0,
            opening.1.phase() == AcquirePhase::CreateFactory,
            opening.1.drops().len() == 0,
    {
        let mut manager = DXGIManager {
            duplicated_output: None,
            capture_source_index: 0,
            timeout_ms: timeout_ms(timeout),
        };
        let acquisition = manager.acquire_output_duplication();
        (manager, acquisition)
    }

    /// Ends the setting up of a manager: it fails where nothing was acquired. Whether a duplication
    /// was denied is for the caller to ask of the acquisition before.
    pub fn opened(self, acquisition: Acquisition) -> (manager: Result<DXGIManager, &'static str>)
        requires
            self@.duplicated_output is None,
            acquisition.next_call() is None,
            acquisition.phase() !is Refused,
            acquisition.capture_source_index() == self@.capture_source_index,
        ensures
            match acquisition.phase()->acquired {
                Some(output) => manager is Ok && manager->Ok_0@ == (ManagerView {
                    duplicated_output: Some(output),
                    ..self@
                }),
                None => manager == Err::<DXGIManager, &'static str>("Failed to get outputs"),
            },
    {
        let mut manager = self;
        match manager.acquired(acquisition) {
            Ok(_) => Ok(manager),
            Err(_) => Err("Failed to get outputs"),
        }
    }

    /// Sets which source is captured, and begins to acquire it. `acquired` ends it.
    pub fn set_capture_source_index(&mut self, cs: usize) -> (acquisition: Acquisition)
        ensures
            final(self)@ == (ManagerView {
                duplicated_output: None,
                capture_source_index: cs,
                ..old(self)@
            }),
            acquisition.wf(),
            acquisition.capture_source_index() == cs,
            acquisition.phase() == AcquirePhase::CreateFactory,
            acquisition.drops() == match old(self)@.duplicated_output {
                Some(output) => output.refs(),
                None => Seq::empty(),
            },
    {
        self.capture_source_index = cs;
        self.acquire_output_duplication()
    }

    /// Which source is captured.
    pub fn get_capture_source_index(&self) -> (cs: usize)
        ensures
            cs == self@.capture_source_index,
    {
        self.capture_source_index
    }

    /// Sets how long a frame is waited for.
    pub fn set_timeout(&mut self, t: Duration)
        ensures
            final(self)@ == (ManagerView { timeout_ms: spec_timeout_ms(t), ..old(self)@ }),
    {
        self.timeout_ms = timeout_ms(t)
    }

    /// Lets go of the duplicated output, and begins to acquire the capture source. `acquired` ends
    /// it.
    pub fn acquire_output_duplication(&mut self) -> (acquisition: Acquisition)
        ensures
            final(self)@ == (ManagerView { duplicated_output: None, ..old(self)@ }),
            acquisition.wf(),
            acquisition.capture_source_index() == old(self)@.capture_source_index,
            acquisition.phase() == AcquirePhase::CreateFactory,
            acquisition.drops() == match old(self)@.duplicated_output {
                Some(output) => output.refs(),
                None => Seq::empty(),
            },
    {
        let previous = self.duplicated_output.take();
        Acquisition::start(self.capture_source_index, previous)
    }

    /// Ends an acquisition: takes the output that was acquired, and fails where there is none.
    /// Whether a duplication was denied is for the caller to ask of the acquisition before.
    pub fn acquired(&mut self, acquisition: Acquisition) -> (result: Result<(), ()>)
        requires
            old(self)@.duplicated_output is None,
            acquisition.next_call() is None,
            acquisition.phase() !is Refused,
            acquisition.capture_source_index() == old(self)@.capture_source_index,
        ensures
            acquisition.phase() is Finished,
            final(self)@ == (ManagerView {
                duplicated_output: acquisition.phase()->acquired,
                ..old(self)@
            }),
            result == match acquisition.phase()->acquired {
                Some(_) => Ok::<(), ()>(()),
                None => Err::<(), ()>(()),
            },
    {
        self.duplicated_output = acquisition.finish();
        match self.duplicated_output {
            Some(_) => Ok(()),
            None => Err(()),
        }
    }

    /// Begins to take a picture of the output. `captured` ends it.
    pub fn get_output_data(&mut self) -> (capture: Capture)
        ensures
            final(self)@ == (ManagerView { duplicated_output: None, ..old(self)@ }),
            capture.wf(),
            capture.capture_source_index() == old(self)@.capture_source_index,
            match old(self)@.duplicated_output {
                Some(output) => {
                    &&& capture.phase() matches CapturePhase::Grab { grab }
                    &&& grab.source() == output
                    &&& grab.timeout_ms() == old(self)@.timeout_ms
                    &&& grab.phase() == FramePhase::Acquire
                    &&& grab.drops().len() == 0
                    &&& capture.drops().len() == 0
                },
                None => capture.reacquires(
                    None,
                    CaptureError::Fail("No valid duplicated output"),
                ),
            },
    {
        let source = self.duplicated_output.take();
        Capture::start(self.capture_source_index, self.timeout_ms, source)
    }

    /// Ends the taking of a picture: takes the output that is duplicated now, and hands out the
    /// picture with its width and height, or the error.
    pub fn captured(&mut self, capture: Capture) -> (result: Result<Picture, CaptureError>)
        requires
            old(self)@.duplicated_output is None,
            capture.wf(),
            capture.next_call() is None,
            capture.capture_source_index() == old(self)@.capture_source_index,
        ensures
            capture.phase() == (CapturePhase::Finished {
                source: final(self)@.duplicated_output,
                result,
            }),
            final(self)@ == (ManagerView {
                duplicated_output: final(self)@.duplicated_output,
                ..old(self)@
            }),
            may_end(final(self)@.duplicated_output, result),
            result matches Ok(picture) ==> picture.0@.len() == picture.1.0 * picture.1.1,
    {
        let (source, result) = capture.finish();
        self.duplicated_output = source;
        result
    }

    /// Ends the taking of a picture that cannot be gone on with: takes the output that is still
    /// duplicated, and hands out the references to release.
    pub fn abandoned(&mut self, capture: Capture) -> (refs: Vec<usize>)
        requires
            old(self)@.duplicated_output is None,
            capture.capture_source_index() == old(self)@.capture_source_index,
        ensures
            final(self)@ == (ManagerView { duplicated_output: capture.source(), ..old(self)@ }),
            capture.held() == refs@.to_multiset().add(
                match capture.source() {
                    Some(output) => output.held(),
                    None => Multiset::empty(),
                },
            ),
    {
        let (source, refs) = capture.abandon();
        self.duplicated_output = source;
        refs
    }

    /// Ends the work of the manager: hands out the references to release.
    pub fn close(self) -> (drops: Vec<usize>)
        ensures
            drops@ == match self@.duplicated_output {
                Some(output) => output.refs(),
                None => Seq::empty(),
            },
    {
        let mut drops: Vec<usize> = Vec::new();
        if let Some(output) = self.duplicated_output {
            output.release(&mut drops);
            assert(drops@ =~= output.refs());
        }
        drops
    }
}

} // verus!
