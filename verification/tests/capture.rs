use dxgcap::acquire::Acquisition;
use dxgcap::capture::Capture;
use dxgcap::com::{ComCall, ComReply, Interface, OutputDesc, TextureDesc};
use dxgcap::hresult::{
    DXGI_ERROR_ACCESS_LOST, DXGI_ERROR_NOT_FOUND, DXGI_ERROR_WAIT_TIMEOUT, E_ACCESSDENIED,
};
use dxgcap::pixel::{Rect, Rotation};
use dxgcap::{CaptureError, DXGIManager, Duration, BGRA8};

const E_FAIL: i32 = 0x80004005u32 as i32;

/// What an address stands for.
#[derive(Copy, Clone, Debug, PartialEq)]
enum Object {
    Factory,
    Adapter(usize),
    Output(usize, usize),
    Output1(usize, usize),
    Duplication(usize, usize),
    Device(usize),
    DxgiDevice(usize),
    Context(usize),
    Frame,
    FrameTexture,
    FrameResource,
    ReadableTexture,
    ReadableResource,
    Surface,
}

#[derive(Copy, Clone)]
struct Screen {
    attached: bool,
    primary: bool,
}

/// A system with adapters and outputs, which counts the references to its objects.
struct System {
    adapters: Vec<Vec<Screen>>,
    objects: Vec<Object>,
    references: Vec<i32>,
    calls: Vec<ComCall>,
    acquire_code: i32,
    duplicate_code: i32,
    create_code: i32,
    surface_code: i32,
    map_code: i32,
    frames_out: i32,
    copied: bool,
    rotation: Rotation,
    pitch: i32,
}

const PRIMARY: Screen = Screen { attached: true, primary: true };
const SECONDARY: Screen = Screen { attached: true, primary: false };
const DETACHED: Screen = Screen { attached: false, primary: false };

impl System {
    fn new(adapters: Vec<Vec<Screen>>) -> System {
        System {
            adapters,
            objects: Vec::new(),
            references: Vec::new(),
            calls: Vec::new(),
            acquire_code: 0,
            duplicate_code: 0,
            create_code: 0,
            surface_code: 0,
            map_code: 0,
            frames_out: 0,
            copied: false,
            rotation: Rotation::Identity,
            pitch: 12,
        }
    }

    fn make(&mut self, object: Object) -> ComReply<'static> {
        ComReply::Object { hr: 0, object: self.address(object) }
    }

    fn address(&mut self, object: Object) -> usize {
        self.objects.push(object);
        self.references.push(1);
        self.objects.len()
    }

    fn object(&self, address: usize) -> Object {
        assert!(self.references[address - 1] > 0);
        self.objects[address - 1]
    }

    /// Addresses of the objects to which there are references.
    fn alive(&self) -> Vec<Object> {
        (0..self.objects.len())
            .filter(|i| self.references[*i] > 0)
            .map(|i| self.objects[i])
            .collect()
    }

    fn perform(&mut self, call: ComCall) -> ComReply<'static> {
        self.calls.push(call);
        let failed = |hr: i32| ComReply::Object { hr, object: 0 };
        match call {
            ComCall::CreateFactory1 { interface } => {
                assert_eq!(interface, Interface::IDXGIFactory1);
                self.make(Object::Factory)
            }
            ComCall::EnumAdapters1 { factory, index } => {
                assert_eq!(self.object(factory), Object::Factory);
                if (index as usize) < self.adapters.len() {
                    self.make(Object::Adapter(index as usize))
                } else {
                    failed(DXGI_ERROR_NOT_FOUND)
                }
            }
            ComCall::EnumOutputs { adapter, index } => match self.object(adapter) {
                Object::Adapter(a) if (index as usize) < self.adapters[a].len() => {
                    self.make(Object::Output(a, index as usize))
                }
                Object::Adapter(_) => failed(DXGI_ERROR_NOT_FOUND),
                other => panic!("{:?}", other),
            },
            ComCall::GetOutputDesc { output } => match self.object(output) {
                Object::Output(a, o) | Object::Output1(a, o) => ComReply::Output(OutputDesc {
                    desktop_coordinates: Rect { left: 100, top: 50, right: 102, bottom: 53 },
                    attached_to_desktop: self.adapters[a][o].attached as i32,
                    rotation: self.rotation,
                    monitor: 1000 * a + o,
                }),
                other => panic!("{:?}", other),
            },
            ComCall::CreateDevice {
                adapter,
                driver_type,
                software,
                flags,
                feature_levels,
                feature_level_count,
                sdk_version,
            } => {
                assert_eq!((driver_type, software, flags), (0, 0, 0));
                assert_eq!((feature_levels, feature_level_count, sdk_version), (0, 0, 7));
                match self.object(adapter) {
                    Object::Adapter(a) => ComReply::Device {
                        hr: 0,
                        device: self.address(Object::Device(a)),
                        context: self.address(Object::Context(a)),
                    },
                    other => panic!("{:?}", other),
                }
            }
            ComCall::QueryInterface { object, interface } => {
                match (self.object(object), interface) {
                    (Object::Output(a, o), Interface::IDXGIOutput1) => {
                        self.make(Object::Output1(a, o))
                    }
                    (Object::Device(a), Interface::IDXGIDevice1) => {
                        self.make(Object::DxgiDevice(a))
                    }
                    (Object::DxgiDevice(a), Interface::ID3D11Device) => {
                        self.make(Object::Device(a))
                    }
                    (Object::Frame, Interface::ID3D11Texture2D) => self.make(Object::FrameTexture),
                    (Object::FrameTexture, Interface::ID3D11Resource) => {
                        self.make(Object::FrameResource)
                    }
                    (Object::ReadableTexture, Interface::ID3D11Resource) => {
                        self.make(Object::ReadableResource)
                    }
                    (Object::ReadableResource, Interface::IDXGISurface1) => {
                        if self.surface_code < 0 {
                            failed(self.surface_code)
                        } else {
                            self.make(Object::Surface)
                        }
                    }
                    other => panic!("{:?}", other),
                }
            }
            ComCall::DuplicateOutput { output, device } => {
                match (self.object(output), self.object(device)) {
                    // The first output can be duplicated all the time.
                    (Object::Output1(_, o), _) if o > 0 && self.duplicate_code < 0 => {
                        failed(self.duplicate_code)
                    }
                    (Object::Output1(a, o), Object::DxgiDevice(d)) if a == d => {
                        self.make(Object::Duplication(a, o))
                    }
                    other => panic!("{:?}", other),
                }
            }
            ComCall::GetMonitorInfo { monitor, size } => {
                assert_eq!(size, 40);
                ComReply::Monitor {
                    flags: self.adapters[monitor / 1000][monitor % 1000].primary as u32,
                }
            }
            ComCall::AcquireNextFrame { duplication, .. } => {
                assert!(matches!(self.object(duplication), Object::Duplication(_, _)));
                if self.acquire_code < 0 {
                    failed(self.acquire_code)
                } else {
                    self.frames_out += 1;
                    self.make(Object::Frame)
                }
            }
            ComCall::GetTextureDesc { texture } => {
                assert_eq!(self.object(texture), Object::FrameTexture);
                ComReply::Texture(TextureDesc {
                    width: 2,
                    height: 3,
                    mip_levels: 1,
                    array_size: 1,
                    format: 87,
                    sample_count: 1,
                    sample_quality: 0,
                    usage: 0,
                    bind_flags: 40,
                    cpu_access_flags: 0,
                    misc_flags: 2,
                })
            }
            ComCall::CreateTexture2D { device, desc, initial_data } => {
                assert_eq!(initial_data, 0);
                assert!(matches!(self.object(device), Object::Device(_)));
                assert_eq!((desc.usage, desc.cpu_access_flags), (3, 0x20000));
                if self.create_code < 0 {
                    failed(self.create_code)
                } else {
                    self.make(Object::ReadableTexture)
                }
            }
            ComCall::SetEvictionPriority { texture, priority } => {
                assert_eq!(self.object(texture), Object::ReadableTexture);
                assert_eq!(priority, 0xC8000000);
                ComReply::Done { hr: 0 }
            }
            ComCall::CopyResource { context, target, origin } => {
                assert!(matches!(self.object(context), Object::Context(_)));
                assert_eq!(self.object(target), Object::ReadableResource);
                assert_eq!(self.object(origin), Object::FrameResource);
                assert_eq!(self.frames_out, 1);
                self.copied = true;
                ComReply::Done { hr: 0 }
            }
            ComCall::ReleaseFrame { duplication } => {
                assert!(matches!(self.object(duplication), Object::Duplication(_, _)));
                assert!(self.copied);
                self.frames_out -= 1;
                ComReply::Done { hr: 0 }
            }
            ComCall::MapSurface { surface, flags } => {
                assert_eq!(self.object(surface), Object::Surface);
                assert_eq!(flags, 1);
                ComReply::Mapped { hr: self.map_code, pitch: self.pitch, bits: 4096 }
            }
            ComCall::ReadPixels { bits, len } => {
                assert_eq!(bits, 4096);
                assert_eq!(len, 8);
                ComReply::Pixels(&PIXELS)
            }
            ComCall::UnmapSurface { surface } => {
                assert_eq!(self.object(surface), Object::Surface);
                ComReply::Done { hr: 0 }
            }
            ComCall::Release { object } => {
                self.references[object - 1] -= 1;
                assert!(self.references[object - 1] >= 0);
                ComReply::Done { hr: self.references[object - 1] }
            }
        }
    }

    fn acquire(&mut self, acquisition: Acquisition) -> Acquisition {
        let mut acquisition = acquisition;
        while let Some(call) = acquisition.pending() {
            let reply = self.perform(call);
            assert!(acquisition.can_resume(&reply));
            acquisition = acquisition.resume(reply);
        }
        acquisition
    }

    fn capture(&mut self, capture: Capture) -> Capture {
        let mut capture = capture;
        while let Some(call) = capture.pending() {
            let reply = self.perform(call);
            assert!(capture.can_resume(&reply));
            capture = capture.resume(reply);
        }
        capture
    }

    fn open(&mut self, timeout: Duration) -> Result<DXGIManager, &'static str> {
        let (manager, acquisition) = DXGIManager::new(timeout);
        let acquisition = self.acquire(acquisition);
        manager.opened(acquisition)
    }

    fn select(&mut self, manager: &mut DXGIManager, cs: usize) -> Result<(), ()> {
        let acquisition = manager.set_capture_source_index(cs);
        let acquisition = self.acquire(acquisition);
        manager.acquired(acquisition)
    }

    fn output_data(
        &mut self,
        manager: &mut DXGIManager,
    ) -> Result<(Vec<BGRA8>, (usize, usize)), CaptureError> {
        let capture = manager.get_output_data();
        let capture = self.capture(capture);
        manager.captured(capture)
    }

    /// What the calls from one on were made on, in short.
    fn story(&self, first: usize) -> Vec<String> {
        let name = |address: usize| format!("{:?}", self.objects[address - 1]);
        self.calls[first..]
            .iter()
            .filter_map(|call| match call {
                ComCall::GetOutputDesc { output } => Some(format!("describe {}", name(*output))),
                ComCall::Release { object } => Some(format!("release {}", name(*object))),
                ComCall::DuplicateOutput { output, .. } => {
                    Some(format!("duplicate {}", name(*output)))
                }
                _ => None,
            })
            .collect()
    }

    /// The output that is duplicated, by what is alive when nothing is going on.
    fn duplicated(&self) -> (usize, usize) {
        let alive = self.alive();
        assert_eq!(alive.len(), 4);
        let found: Vec<(usize, usize)> = alive
            .iter()
            .filter_map(|object| match object {
                Object::Duplication(a, o) => Some((*a, *o)),
                _ => None,
            })
            .collect();
        let (a, o) = found[0];
        assert!(alive.contains(&Object::Output1(a, o)));
        assert!(alive.contains(&Object::Device(a)));
        assert!(alive.contains(&Object::Context(a)));
        (a, o)
    }
}

const fn color(n: u8) -> BGRA8 {
    BGRA8 { b: n, g: 2 * n, r: 3 * n, a: 255 }
}

/// Three rows of two pixels, the rows three pixels apart.
const PIXELS: [BGRA8; 8] =
    [color(1), color(2), color(0), color(3), color(4), color(0), color(5), color(6)];

fn blues(pixels: &[BGRA8]) -> Vec<u8> {
    pixels.iter().map(|p| p.b).collect()
}

#[test]
fn test() {
    let mut system = System::new(vec![vec![PRIMARY]]);
    let mut manager = match system.open(Duration::milliseconds(200)) {
        Ok(manager) => manager,
        Err(e) => panic!("{}", e),
    };
    for _ in 0..10 {
        match system.output_data(&mut manager) {
            Ok((pixels, _)) => {
                let len = pixels.len() as u64;
                let (r, g, b) = pixels
                    .into_iter()
                    .fold((0u64, 0u64, 0u64), |(r, g, b), p| {
                        (r + p.r as u64, g + p.g as u64, b + p.b as u64)
                    });
                println!("avg: {} {} {}", r / len, g / len, b / len);
                assert_eq!((r, g, b), (63, 42, 21));
            }
            Err(e) => println!("error: {:?}", e),
        }
    }
    assert!(system.calls.contains(&ComCall::AcquireNextFrame {
        duplication: 1 + system.objects.iter().position(|o| *o == Object::Duplication(0, 0)).unwrap(),
        timeout_ms: 200,
    }));
    assert_eq!(system.duplicated(), (0, 0));
}

#[test]
fn picture_of_the_primary_output() {
    let mut system = System::new(vec![vec![SECONDARY, PRIMARY]]);
    let mut manager = system.open(Duration::milliseconds(200)).ok().unwrap();
    assert_eq!(manager.get_capture_source_index(), 0);
    assert_eq!(system.duplicated(), (0, 1));
    let (pixels, size) = system.output_data(&mut manager).unwrap();
    assert_eq!(size, (2, 3));
    assert_eq!(blues(&pixels), vec![1, 2, 3, 4, 5, 6]);
    system.rotation = Rotation::Rotate180;
    let (pixels, _) = system.output_data(&mut manager).unwrap();
    assert_eq!(blues(&pixels), vec![6, 5, 4, 3, 2, 1]);
}

#[test]
fn releasing_a_closed_manager_leaves_nothing() {
    let mut system = System::new(vec![vec![SECONDARY, PRIMARY]]);
    let mut manager = system.open(Duration::milliseconds(200)).ok().unwrap();
    assert!(system.output_data(&mut manager).is_ok());
    for object in manager.close() {
        system.perform(ComCall::Release { object });
    }
    assert!(system.alive().is_empty());
}

#[test]
fn adapters_are_searched_in_turn() {
    let mut system = System::new(vec![
        vec![],
        vec![SECONDARY],
        vec![SECONDARY, PRIMARY, SECONDARY],
        vec![PRIMARY, SECONDARY, SECONDARY],
    ]);
    let mut manager = system.open(Duration::milliseconds(200)).ok().unwrap();
    assert_eq!(system.duplicated(), (2, 1));
    assert_eq!(system.select(&mut manager, 1), Ok(()));
    assert_eq!(manager.get_capture_source_index(), 1);
    assert_eq!(system.duplicated(), (1, 0));
    assert_eq!(system.select(&mut manager, 2), Ok(()));
    assert_eq!(system.duplicated(), (2, 2));
    assert_eq!(system.select(&mut manager, 3), Err(()));
    assert_eq!(manager.get_capture_source_index(), 3);
    assert!(system.alive().is_empty());
}

#[test]
fn rejected_outputs_are_let_go_of_before_the_next_one_is_looked_at() {
    let mut system = System::new(vec![vec![SECONDARY, SECONDARY, PRIMARY, SECONDARY]]);
    assert!(system.open(Duration::milliseconds(200)).is_ok());
    let story = system.story(0);
    let first = story.iter().position(|line| line == "describe Output1(0, 0)").unwrap();
    assert_eq!(
        story[first..],
        [
            "describe Output1(0, 0)",
            "release Duplication(0, 0)",
            "release Output1(0, 0)",
            "describe Output1(0, 1)",
            "release Duplication(0, 1)",
            "release Output1(0, 1)",
            "describe Output1(0, 2)",
            "release Duplication(0, 3)",
            "release Output1(0, 3)",
            "release Adapter(0)",
            "release Factory",
        ]
    );
}

#[test]
fn the_last_rejected_output_is_let_go_of_before_the_adapter() {
    let mut system = System::new(vec![vec![PRIMARY], vec![SECONDARY]]);
    let mut manager = system.open(Duration::milliseconds(200)).ok().unwrap();
    let calls = system.calls.len();
    assert_eq!(system.select(&mut manager, 1), Ok(()));
    assert_eq!(system.duplicated(), (1, 0));
    let story = system.story(calls);
    assert_eq!(
        story[..4],
        [
            "release Device(0)",
            "release Context(0)",
            "release Output1(0, 0)",
            "release Duplication(0, 0)",
        ]
    );
    let first = story.iter().position(|line| line == "describe Output1(0, 0)").unwrap();
    assert_eq!(
        story[first..first + 6],
        [
            "describe Output1(0, 0)",
            "release Duplication(0, 0)",
            "release Output1(0, 0)",
            "release Device(0)",
            "release Context(0)",
            "release Adapter(0)",
        ]
    );
}

#[test]
fn denied_duplication_is_reported_and_leaves_nothing() {
    let mut system = System::new(vec![vec![SECONDARY, PRIMARY, SECONDARY]]);
    let mut manager = system.open(Duration::milliseconds(200)).ok().unwrap();
    system.acquire_code = DXGI_ERROR_ACCESS_LOST;
    system.duplicate_code = E_ACCESSDENIED;
    assert!(matches!(system.output_data(&mut manager), Err(CaptureError::AccessDenied)));
    assert!(system.alive().is_empty());
    assert!(matches!(system.output_data(&mut manager), Err(CaptureError::AccessDenied)));
    assert!(system.alive().is_empty());
    system.duplicate_code = 0;
    system.acquire_code = 0;
    match system.output_data(&mut manager) {
        Err(CaptureError::Fail(why)) => assert_eq!(why, "No valid duplicated output"),
        other => panic!("{:?}", other),
    }
    assert_eq!(system.duplicated(), (0, 1));
    assert!(system.output_data(&mut manager).is_ok());
}

#[test]
fn denied_duplication_is_told_by_the_acquisition() {
    let mut system = System::new(vec![vec![SECONDARY, PRIMARY]]);
    let (_, acquisition) = DXGIManager::new(Duration::milliseconds(200));
    let acquisition = system.acquire(acquisition);
    assert!(!acquisition.was_refused());
    assert!(acquisition.finish().is_some());
    let mut system = System::new(vec![vec![SECONDARY, PRIMARY]]);
    system.duplicate_code = E_ACCESSDENIED;
    let (_, acquisition) = DXGIManager::new(Duration::milliseconds(200));
    let acquisition = system.acquire(acquisition);
    assert!(acquisition.was_refused());
    assert!(system.alive().is_empty());
}

#[test]
fn other_failures_to_duplicate_cannot_be_gone_on_with() {
    let mut system = System::new(vec![vec![PRIMARY, SECONDARY]]);
    system.duplicate_code = E_FAIL;
    let (_, acquisition) = DXGIManager::new(Duration::milliseconds(200));
    let mut acquisition = acquisition;
    let mut stopped = false;
    while let Some(call) = acquisition.pending() {
        let reply = system.perform(call);
        if !acquisition.can_resume(&reply) {
            assert!(matches!(call, ComCall::DuplicateOutput { .. }));
            stopped = true;
            break;
        }
        acquisition = acquisition.resume(reply);
    }
    assert!(stopped);
    for object in acquisition.abandon() {
        system.perform(ComCall::Release { object });
    }
    assert!(system.alive().is_empty());
}

#[test]
fn acquisitions_can_be_given_up_at_every_call() {
    let mut stop = 0;
    loop {
        let mut system = System::new(vec![vec![SECONDARY, SECONDARY], vec![SECONDARY, PRIMARY]]);
        let (_, acquisition) = DXGIManager::new(Duration::milliseconds(200));
        let mut acquisition = acquisition;
        while system.calls.len() < stop {
            let call = match acquisition.pending() {
                Some(call) => call,
                None => break,
            };
            let reply = system.perform(call);
            acquisition = acquisition.resume(reply);
        }
        let done = acquisition.pending().is_none();
        for object in acquisition.abandon() {
            system.perform(ComCall::Release { object });
        }
        assert!(system.alive().is_empty());
        if done {
            break;
        }
        stop += 1;
    }
    assert!(stop > 40);
}

#[test]
fn captures_can_be_given_up_at_every_call() {
    let mut stop = 0;
    loop {
        let mut system = System::new(vec![vec![PRIMARY]]);
        let mut manager = system.open(Duration::milliseconds(200)).ok().unwrap();
        let first = system.calls.len();
        let mut capture = manager.get_output_data();
        while system.calls.len() < first + stop {
            let call = match capture.pending() {
                Some(call) => call,
                None => break,
            };
            let reply = system.perform(call);
            capture = capture.resume(reply);
        }
        let done = capture.pending().is_none();
        for object in manager.abandoned(capture) {
            system.perform(ComCall::Release { object });
        }
        assert_eq!(system.duplicated(), (0, 0));
        system.frames_out = 0;
        assert!(system.output_data(&mut manager).is_ok());
        if done {
            break;
        }
        stop += 1;
    }
    assert!(stop > 15);
}

#[test]
fn capture_given_up_while_the_output_is_acquired_anew_has_none() {
    let mut system = System::new(vec![vec![PRIMARY]]);
    let mut manager = system.open(Duration::milliseconds(200)).ok().unwrap();
    system.acquire_code = DXGI_ERROR_ACCESS_LOST;
    let mut capture = manager.get_output_data();
    for _ in 0..9 {
        let reply = system.perform(capture.pending().unwrap());
        capture = capture.resume(reply);
    }
    for object in manager.abandoned(capture) {
        system.perform(ComCall::Release { object });
    }
    assert!(system.alive().is_empty());
    assert!(manager.close().is_empty());
}

#[test]
fn adapters_behind_the_source_are_not_touched() {
    let mut system = System::new(vec![vec![PRIMARY], vec![PRIMARY]]);
    assert!(system.open(Duration::milliseconds(200)).is_ok());
    assert!(system
        .calls
        .iter()
        .all(|call| !matches!(call, ComCall::EnumAdapters1 { index: 1, .. })));
}

#[test]
fn no_manager_without_outputs() {
    let mut system = System::new(vec![vec![], vec![]]);
    match system.open(Duration::milliseconds(200)) {
        Err(e) => assert_eq!(e, "Failed to get outputs"),
        Ok(_) => panic!("opened"),
    }
    assert!(system.alive().is_empty());
    let mut system = System::new(vec![]);
    assert!(system.open(Duration::milliseconds(200)).is_err());
    assert!(system.alive().is_empty());
}

#[test]
fn outputs_are_enumerated_up_to_the_first_detached_one() {
    let mut system = System::new(vec![vec![SECONDARY, DETACHED, PRIMARY]]);
    assert!(system.open(Duration::milliseconds(200)).is_err());
    assert_eq!(system.alive(), vec![Object::Output(0, 1)]);
    let mut system = System::new(vec![vec![DETACHED, PRIMARY], vec![PRIMARY]]);
    assert!(system.open(Duration::milliseconds(200)).is_ok());
    assert!(system.alive().contains(&Object::Duplication(1, 0)));
}

#[test]
fn timeout_keeps_the_output() {
    let mut system = System::new(vec![vec![PRIMARY]]);
    let mut manager = system.open(Duration::milliseconds(200)).ok().unwrap();
    let calls = system.calls.len();
    system.acquire_code = DXGI_ERROR_WAIT_TIMEOUT;
    assert!(matches!(system.output_data(&mut manager), Err(CaptureError::Timeout)));
    assert_eq!(system.calls.len(), calls + 1);
    assert_eq!(system.duplicated(), (0, 0));
    system.acquire_code = 0;
    assert!(system.output_data(&mut manager).is_ok());
}

#[test]
fn denied_access_keeps_the_output() {
    let mut system = System::new(vec![vec![PRIMARY]]);
    let mut manager = system.open(Duration::milliseconds(200)).ok().unwrap();
    let calls = system.calls.len();
    system.acquire_code = E_ACCESSDENIED;
    assert!(matches!(system.output_data(&mut manager), Err(CaptureError::AccessDenied)));
    assert_eq!(system.calls.len(), calls + 1);
    assert_eq!(system.duplicated(), (0, 0));
}

#[test]
fn lost_access_acquires_the_output_anew() {
    let mut system = System::new(vec![vec![PRIMARY]]);
    let mut manager = system.open(Duration::milliseconds(200)).ok().unwrap();
    system.acquire_code = DXGI_ERROR_ACCESS_LOST;
    let objects = system.objects.len();
    assert!(matches!(system.output_data(&mut manager), Err(CaptureError::AccessLost)));
    assert!(system.objects.len() > objects);
    assert_eq!(system.duplicated(), (0, 0));
}

#[test]
fn lost_access_without_outputs_fails_to_refresh() {
    let mut system = System::new(vec![vec![PRIMARY]]);
    let mut manager = system.open(Duration::milliseconds(200)).ok().unwrap();
    system.acquire_code = DXGI_ERROR_ACCESS_LOST;
    system.adapters = vec![];
    assert!(matches!(system.output_data(&mut manager), Err(CaptureError::RefreshFailure)));
    assert!(system.alive().is_empty());
    assert!(matches!(system.output_data(&mut manager), Err(CaptureError::RefreshFailure)));
    system.adapters = vec![vec![PRIMARY]];
    system.acquire_code = 0;
    match system.output_data(&mut manager) {
        Err(CaptureError::Fail(why)) => assert_eq!(why, "No valid duplicated output"),
        other => panic!("{:?}", other),
    }
    assert_eq!(system.duplicated(), (0, 0));
    assert!(system.output_data(&mut manager).is_ok());
}

#[test]
fn other_failures_acquire_the_output_anew() {
    let mut system = System::new(vec![vec![PRIMARY]]);
    let mut manager = system.open(Duration::milliseconds(200)).ok().unwrap();
    system.create_code = E_FAIL;
    match system.output_data(&mut manager) {
        Err(CaptureError::Fail(why)) => assert_eq!(why, "Failure when acquiring frame"),
        other => panic!("{:?}", other),
    }
    assert_eq!(system.duplicated(), (0, 0));
    system.create_code = 0;
    system.surface_code = E_FAIL;
    system.frames_out = 0;
    match system.output_data(&mut manager) {
        Err(CaptureError::Fail(why)) => assert_eq!(why, "Failure when acquiring frame"),
        other => panic!("{:?}", other),
    }
    assert_eq!(system.frames_out, 0);
    assert_eq!(system.duplicated(), (0, 0));
}

#[test]
fn surface_that_cannot_be_mapped() {
    let mut system = System::new(vec![vec![PRIMARY]]);
    let mut manager = system.open(Duration::milliseconds(200)).ok().unwrap();
    system.map_code = E_FAIL;
    match system.output_data(&mut manager) {
        Err(CaptureError::Fail(why)) => assert_eq!(why, "Failed to map surface"),
        other => panic!("{:?}", other),
    }
    assert_eq!(system.duplicated(), (0, 0));
}

#[test]
fn acquiring_again_lets_go_of_the_output() {
    let mut system = System::new(vec![vec![PRIMARY]]);
    let mut manager = system.open(Duration::milliseconds(200)).ok().unwrap();
    let acquisition = manager.acquire_output_duplication();
    assert!(matches!(acquisition.pending(), Some(ComCall::Release { .. })));
    let acquisition = system.acquire(acquisition);
    assert_eq!(manager.acquired(acquisition), Ok(()));
    assert_eq!(system.duplicated(), (0, 0));
}

#[test]
fn timeout_is_that_of_the_manager() {
    let mut system = System::new(vec![vec![PRIMARY]]);
    let mut manager = system.open(Duration::milliseconds(-1)).ok().unwrap();
    system.acquire_code = DXGI_ERROR_WAIT_TIMEOUT;
    assert!(system.output_data(&mut manager).is_err());
    assert!(matches!(
        system.calls.last(),
        Some(ComCall::AcquireNextFrame { timeout_ms: 0, .. })
    ));
    manager.set_timeout(Duration::milliseconds(500));
    assert!(system.output_data(&mut manager).is_err());
    assert!(matches!(
        system.calls.last(),
        Some(ComCall::AcquireNextFrame { timeout_ms: 500, .. })
    ));
}

#[test]
fn replies_that_cannot_be_gone_on_with() {
    let (_, acquisition) = DXGIManager::new(Duration::milliseconds(200));
    assert!(!acquisition.can_resume(&ComReply::Object { hr: E_FAIL, object: 0 }));
    assert!(!acquisition.can_resume(&ComReply::Done { hr: 0 }));
    assert!(acquisition.can_resume(&ComReply::Object { hr: 0, object: 8 }));
    let acquisition = acquisition.resume(ComReply::Object { hr: 0, object: 8 });
    assert!(!acquisition.can_resume(&ComReply::Object { hr: E_FAIL, object: 0 }));
    assert!(acquisition.can_resume(&ComReply::Object { hr: DXGI_ERROR_NOT_FOUND, object: 0 }));
}

#[test]
fn surface_without_room_for_a_row_cannot_be_read() {
    let mut system = System::new(vec![vec![PRIMARY]]);
    let mut manager = system.open(Duration::milliseconds(200)).ok().unwrap();
    system.pitch = 3;
    let mut capture = manager.get_output_data();
    let mut refused = false;
    while let Some(call) = capture.pending() {
        let reply = system.perform(call);
        if !capture.can_resume(&reply) {
            assert!(matches!(call, ComCall::GetOutputDesc { .. }));
            refused = true;
            break;
        }
        capture = capture.resume(reply);
    }
    assert!(refused);
}

#[test]
fn work_comes_to_an_end() {
    let mut system = System::new(vec![vec![SECONDARY; 3], vec![SECONDARY, PRIMARY]]);
    let mut manager = system.open(Duration::milliseconds(200)).ok().unwrap();
    assert!(system.calls.len() <= 13 * 5 + 2 * 6 + 3);
    let calls = system.calls.len();
    assert!(system.output_data(&mut manager).is_ok());
    assert!(system.calls.len() - calls <= 16 + 5);
}
