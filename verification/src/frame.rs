//! How a frame of a duplicated output is brought into a surface that can be mapped.
use vstd::multiset::Multiset;
use vstd::prelude::*;

use crate::com::{
    ComCall, ComReply, ID3D11Device, ID3D11DeviceContext, ID3D11Resource, ID3D11Texture2D,
    IDXGIOutput1, IDXGIOutputDuplication, IDXGIResource, IDXGISurface1, Interface, TextureDesc,
    UniqueCOMPtr, NULL,
};
use crate::hresult::{hr_failed, HRESULT};
use crate::refs::{lemma_first_ref, lemma_no_refs};

verus! {

/// The usage of a texture that is copied from the device to memory.
pub const D3D11_USAGE_STAGING: u32 = 3;

/// The right to read a texture from memory.
pub const D3D11_CPU_ACCESS_READ: u32 = 0x20000;

/// The priority of a resource that is to leave the device last.
pub const DXGI_RESOURCE_PRIORITY_MAXIMUM: u32 = 0xC800_0000;

/// The description of a texture that is like another one but can be read from memory.
pub open spec fn spec_readable_desc(desc: TextureDesc) -> TextureDesc {
    TextureDesc {
        usage: D3D11_USAGE_STAGING,
        bind_flags: 0,
        cpu_access_flags: D3D11_CPU_ACCESS_READ,
        misc_flags: 0,
        ..desc
    }
}

/// Configures the description of a texture to make the texture readable.
pub fn readable_desc(desc: TextureDesc) -> (readable: TextureDesc)
    ensures
        readable == spec_readable_desc(desc),
        readable.width == desc.width,
        readable.height == desc.height,
        readable.mip_levels == desc.mip_levels,
        readable.array_size == desc.array_size,
        readable.format == desc.format,
        readable.sample_count == desc.sample_count,
        readable.sample_quality == desc.sample_quality,
        readable.usage == 3,
        readable.bind_flags == 0,
        readable.cpu_access_flags == 0x20000,
        readable.misc_flags == 0,
{
    let mut readable = desc;
    readable.usage = D3D11_USAGE_STAGING;
    readable.bind_flags = 0;
    readable.cpu_access_flags = D3D11_CPU_ACCESS_READ;
    readable.misc_flags = 0;
    readable
}

/// An output that is being duplicated, with the device that its frames come to.
pub struct DuplicatedOutput {
    pub device: UniqueCOMPtr<ID3D11Device>,
    pub device_context: UniqueCOMPtr<ID3D11DeviceContext>,
    pub output: UniqueCOMPtr<IDXGIOutput1>,
    pub output_duplication: UniqueCOMPtr<IDXGIOutputDuplication>,
}

impl DuplicatedOutput {
    /// The references that it holds, in the order in which it lets go of them.
    pub open spec fn refs(&self) -> Seq<usize> {
        seq![
            self.device.addr(),
            self.device_context.addr(),
            self.output.addr(),
            self.output_duplication.addr(),
        ]
    }

    /// The references that it holds.
    pub open spec fn held(&self) -> Multiset<usize> {
        Multiset::singleton(self.device.addr()).insert(self.device_context.addr()).insert(
            self.output.addr(),
        ).insert(self.output_duplication.addr())
    }

    /// Lets go of the output.
    pub fn release(self, drops: &mut Vec<usize>)
        ensures
            final(drops)@ == old(drops)@ + self.refs(),
    {
        self.device.release(drops);
        self.device_context.release(drops);
        self.output.release(drops);
        self.output_duplication.release(drops);
    }

    /// The call that tells of the output.
    pub fn get_desc(&self) -> (call: ComCall)
        ensures
            call == (ComCall::GetOutputDesc { output: self.output.addr() }),
    {
        ComCall::GetOutputDesc { output: self.output.as_ptr() }
    }

    /// The call that gives an acquired frame back. `hr_result` says what comes of it.
    pub fn release_frame(&self) -> (call: ComCall)
        ensures
            call == (ComCall::ReleaseFrame { duplication: self.output_duplication.addr() }),
    {
        ComCall::ReleaseFrame { duplication: self.output_duplication.as_ptr() }
    }

    /// Begins to fetch the next frame, waiting for it no longer than a timeout.
    pub fn get_frame(self, timeout_ms: u32) -> (grab: FrameGrab)
        ensures
            grab.source() == self,
            grab.timeout_ms() == timeout_ms,
            grab.phase() == FramePhase::Acquire,
            grab.drops().len() == 0,
    {
        FrameGrab { source: self, timeout_ms, phase: FramePhase::Acquire, drops: Vec::new() }
    }
}

/// How far the fetching of a frame has come, named by the call that is due.
#[allow(inconsistent_fields)]
pub enum FramePhase {
    Acquire,
    QueryTexture { frame: UniqueCOMPtr<IDXGIResource> },
    Describe { frame: UniqueCOMPtr<ID3D11Texture2D> },
    CreateReadable { frame: UniqueCOMPtr<ID3D11Texture2D>, desc: TextureDesc },
    Prioritize {
        frame: UniqueCOMPtr<ID3D11Texture2D>,
        readable: UniqueCOMPtr<ID3D11Texture2D>,
    },
    QueryReadable {
        frame: UniqueCOMPtr<ID3D11Texture2D>,
        readable: UniqueCOMPtr<ID3D11Texture2D>,
    },
    QueryFrame {
        frame: UniqueCOMPtr<ID3D11Texture2D>,
        readable: UniqueCOMPtr<ID3D11Resource>,
    },
    Copy { frame: UniqueCOMPtr<ID3D11Resource>, readable: UniqueCOMPtr<ID3D11Resource> },
    ReleaseFrame { readable: UniqueCOMPtr<ID3D11Resource> },
    QuerySurface { readable: UniqueCOMPtr<ID3D11Resource> },
    Finished { result: Result<UniqueCOMPtr<IDXGISurface1>, HRESULT> },
}

/// A frame on its way from a duplicated output to a surface that can be mapped.
pub struct FrameGrab {
    source: DuplicatedOutput,
    timeout_ms: u32,
    phase: FramePhase,
    /// References to release before anything else is done.
    drops: Vec<usize>,
}

impl FramePhase {
    /// The references that are held for the work that is still to do.
    pub open spec fn held(&self) -> Multiset<usize> {
        match self {
            FramePhase::Acquire => Multiset::empty(),
            FramePhase::QueryTexture { frame } => Multiset::singleton(frame.addr()),
            FramePhase::Describe { frame } => Multiset::singleton(frame.addr()),
            FramePhase::CreateReadable { frame, .. } => Multiset::singleton(frame.addr()),
            FramePhase::Prioritize { frame, readable } => Multiset::singleton(frame.addr()).insert(
                readable.addr(),
            ),
            FramePhase::QueryReadable { frame, readable } => Multiset::singleton(
                frame.addr(),
            ).insert(readable.addr()),
            FramePhase::QueryFrame { frame, readable } => Multiset::singleton(frame.addr()).insert(
                readable.addr(),
            ),
            FramePhase::Copy { frame, readable } => Multiset::singleton(frame.addr()).insert(
                readable.addr(),
            ),
            FramePhase::ReleaseFrame { readable } => Multiset::singleton(readable.addr()),
            FramePhase::QuerySurface { readable } => Multiset::singleton(readable.addr()),
            FramePhase::Finished { result: Ok(surface) } => Multiset::singleton(surface.addr()),
            FramePhase::Finished { result: Err(_) } => Multiset::empty(),
        }
    }
}

impl FrameGrab {
    /// The output that the frame is asked of.
    pub closed spec fn source(&self) -> DuplicatedOutput {
        self.source
    }

    /// How long the frame is waited for, in milliseconds.
    pub closed spec fn timeout_ms(&self) -> u32 {
        self.timeout_ms
    }

    /// How far it has come.
    pub closed spec fn phase(&self) -> FramePhase {
        self.phase
    }

    /// The references that are released before anything else is done.
    pub closed spec fn drops(&self) -> Seq<usize> {
        self.drops@
    }

    /// The references that the grab holds.
    pub open spec fn held(&self) -> Multiset<usize> {
        self.source().held().add(self.phase().held()).add(self.drops().to_multiset())
    }

    /// The call that is due, or `None` when the work is done.
    pub open spec fn next_call(&self) -> Option<ComCall> {
        if self.drops().len() > 0 {
            Some(ComCall::Release { object: self.drops()[0] })
        } else {
            match self.phase() {
                FramePhase::Acquire => Some(
                    ComCall::AcquireNextFrame {
                        duplication: self.source().output_duplication.addr(),
                        timeout_ms: self.timeout_ms(),
                    },
                ),
                FramePhase::QueryTexture { frame } => Some(
                    ComCall::QueryInterface {
                        object: frame.addr(),
                        interface: Interface::ID3D11Texture2D,
                    },
                ),
                FramePhase::Describe { frame } => Some(
                    ComCall::GetTextureDesc { texture: frame.addr() },
                ),
                FramePhase::CreateReadable { desc, .. } => Some(
                    ComCall::CreateTexture2D {
                        device: self.source().device.addr(),
                        desc,
                        initial_data: NULL,
                    },
                ),
                FramePhase::Prioritize { readable, .. } => Some(
                    ComCall::SetEvictionPriority {
                        texture: readable.addr(),
                        priority: DXGI_RESOURCE_PRIORITY_MAXIMUM,
                    },
                ),
                FramePhase::QueryReadable { readable, .. } => Some(
                    ComCall::QueryInterface {
                        object: readable.addr(),
                        interface: Interface::ID3D11Resource,
                    },
                ),
                FramePhase::QueryFrame { frame, .. } => Some(
                    ComCall::QueryInterface {
                        object: frame.addr(),
                        interface: Interface::ID3D11Resource,
                    },
                ),
                FramePhase::Copy { frame, readable } => Some(
                    ComCall::CopyResource {
                        context: self.source().device_context.addr(),
                        target: readable.addr(),
                        origin: frame.addr(),
                    },
                ),
                FramePhase::ReleaseFrame { .. } => Some(
                    ComCall::ReleaseFrame { duplication: self.source().output_duplication.addr() },
                ),
                FramePhase::QuerySurface { readable } => Some(
                    ComCall::QueryInterface {
                        object: readable.addr(),
                        interface: Interface::IDXGISurface1,
                    },
                ),
                FramePhase::Finished { .. } => None,
            }
        }
    }

    /// Whether the work can go on with a reply: it is of the kind that the call gives, and the
    /// texture and resource interfaces, which every frame has, are there.
    pub open spec fn accepts(&self, reply: ComReply) -> bool {
        if self.drops().len() > 0 {
            reply is Done
        } else {
            match self.phase() {
                FramePhase::Acquire => reply is Object,
                FramePhase::QueryTexture { .. } => reply is Object && reply->Object_hr >= 0,
                FramePhase::Describe { .. } => reply is Texture,
                FramePhase::CreateReadable { .. } => reply is Object,
                FramePhase::Prioritize { .. } => reply is Done,
                FramePhase::QueryReadable { .. } => reply is Object && reply->Object_hr >= 0,
                FramePhase::QueryFrame { .. } => reply is Object && reply->Object_hr >= 0,
                FramePhase::Copy { .. } => reply is Done,
                FramePhase::ReleaseFrame { .. } => reply is Done,
                FramePhase::QuerySurface { .. } => reply is Object,
                FramePhase::Finished { .. } => false,
            }
        }
    }

    /// Whether `next` is what comes after a reply to the call that was due.
    pub open spec fn leads_to(&self, reply: ComReply, next: FrameGrab) -> bool {
        &&& next.source() == self.source()
        &&& next.timeout_ms() == self.timeout_ms()
        &&& if self.drops().len() > 0 {
            next.phase() == self.phase() && next.drops() == self.drops().skip(1)
        } else {
            match (self.phase(), reply) {
                (FramePhase::Acquire, ComReply::Object { hr, object }) => if hr < 0 {
                    &&& next.phase() == FramePhase::Finished { result: Err(hr) }
                    &&& next.drops() == Seq::<usize>::empty()
                } else {
                    &&& next.phase() matches FramePhase::QueryTexture { frame } && frame.addr()
                        == object
                    &&& next.drops() == Seq::<usize>::empty()
                },
                (FramePhase::QueryTexture { frame }, ComReply::Object { object, .. }) => {
                    &&& next.phase() matches FramePhase::Describe { frame: texture }
                        && texture.addr() == object
                    &&& next.drops() == seq![frame.addr()]
                },
                (FramePhase::Describe { frame }, ComReply::Texture(desc)) => {
                    &&& next.phase() == FramePhase::CreateReadable {
                        frame,
                        desc: spec_readable_desc(desc),
                    }
                    &&& next.drops() == Seq::<usize>::empty()
                },
                (
                    FramePhase::CreateReadable { frame, .. },
                    ComReply::Object { hr, object },
                ) => if hr < 0 {
                    &&& next.phase() == FramePhase::Finished { result: Err(hr) }
                    &&& next.drops() == seq![frame.addr()]
                } else {
                    &&& next.phase() matches FramePhase::Prioritize { frame: same, readable } && same
                        == frame && readable.addr() == object
                    &&& next.drops() == Seq::<usize>::empty()
                },
                (FramePhase::Prioritize { frame, readable }, _) => {
                    &&& next.phase() == FramePhase::QueryReadable { frame, readable }
                    &&& next.drops() == Seq::<usize>::empty()
                },
                (
                    FramePhase::QueryReadable { frame, readable },
                    ComReply::Object { object, .. },
                ) => {
                    &&& next.phase() matches FramePhase::QueryFrame { frame: same, readable: resource }
                        && same == frame && resource.addr() == object
                    &&& next.drops() == seq![readable.addr()]
                },
                (
                    FramePhase::QueryFrame { frame, readable },
                    ComReply::Object { object, .. },
                ) => {
                    &&& next.phase() matches FramePhase::Copy { frame: resource, readable: same }
                        && same == readable && resource.addr() == object
                    &&& next.drops() == seq![frame.addr()]
                },
                (FramePhase::Copy { frame, readable }, _) => {
                    &&& next.phase() == FramePhase::ReleaseFrame { readable }
                    &&& next.drops() == seq![frame.addr()]
                },
                (FramePhase::ReleaseFrame { readable }, _) => {
                    &&& next.phase() == FramePhase::QuerySurface { readable }
                    &&& next.drops() == Seq::<usize>::empty()
                },
                (
                    FramePhase::QuerySurface { readable },
                    ComReply::Object { hr, object },
                ) => if hr < 0 {
                    &&& next.phase() == FramePhase::Finished { result: Err(hr) }
                    &&& next.drops() == seq![readable.addr()]
                } else {
                    &&& next.phase() matches FramePhase::Finished { result: Ok(surface) }
                        && surface.addr() == object
                    &&& next.drops() == seq![readable.addr()]
                },
                _ => false,
            }
        }
    }

    /// Tells the call that is due, or `None` when the work is done.
    pub fn pending(&self) -> (call: Option<ComCall>)
        ensures
            call == self.next_call(),
    {
        if self.drops.len() > 0 {
            return Some(ComCall::Release { object: self.drops[0] });
        }
        match &self.phase {
            FramePhase::Acquire => Some(
                ComCall::AcquireNextFrame {
                    duplication: self.source.output_duplication.as_ptr(),
                    timeout_ms: self.timeout_ms,
                },
            ),
            FramePhase::QueryTexture { frame } => Some(
                ComCall::QueryInterface {
                    object: frame.as_ptr(),
                    interface: Interface::ID3D11Texture2D,
                },
            ),
            FramePhase::Describe { frame } => Some(
                ComCall::GetTextureDesc { texture: frame.as_ptr() },
            ),
            FramePhase::CreateReadable { desc, .. } => Some(
                ComCall::CreateTexture2D {
                    device: self.source.device.as_ptr(),
                    desc: *desc,
                    initial_data: NULL,
                },
            ),
            // At a lower priority some systems copy the texture to memory and back needlessly.
            FramePhase::Prioritize { readable, .. } => Some(
                ComCall::SetEvictionPriority {
                    texture: readable.as_ptr(),
                    priority: DXGI_RESOURCE_PRIORITY_MAXIMUM,
                },
            ),
            FramePhase::QueryReadable { readable, .. } => Some(
                ComCall::QueryInterface {
                    object: readable.as_ptr(),
                    interface: Interface::ID3D11Resource,
                },
            ),
            FramePhase::QueryFrame { frame, .. } => Some(
                ComCall::QueryInterface {
                    object: frame.as_ptr(),
                    interface: Interface::ID3D11Resource,
                },
            ),
            FramePhase::Copy { frame, readable } => Some(
                ComCall::CopyResource {
                    context: self.source.device_context.as_ptr(),
                    target: readable.as_ptr(),
                    origin: frame.as_ptr(),
                },
            ),
            FramePhase::ReleaseFrame { .. } => Some(self.source.release_frame()),
            FramePhase::QuerySurface { readable } => Some(
                ComCall::QueryInterface {
                    object: readable.as_ptr(),
                    interface: Interface::IDXGISurface1,
                },
            ),
            FramePhase::Finished { .. } => None,
        }
    }

    /// Tests whether the work can go on with a reply to the call that is due.
    pub fn can_resume(&self, reply: &ComReply) -> (fits: bool)
        ensures
            fits == self.accepts(*reply),
    {
        if self.drops.len() > 0 {
            return matches!(reply, ComReply::Done { .. });
        }
        match (&self.phase, reply) {
            (FramePhase::Acquire, ComReply::Object { .. }) => true,
            (FramePhase::QueryTexture { .. }, ComReply::Object { hr, .. }) => !hr_failed(*hr),
            (FramePhase::Describe { .. }, ComReply::Texture(_)) => true,
            (FramePhase::CreateReadable { .. }, ComReply::Object { .. }) => true,
            (FramePhase::Prioritize { .. }, ComReply::Done { .. }) => true,
            (FramePhase::QueryReadable { .. }, ComReply::Object { hr, .. }) => !hr_failed(*hr),
            (FramePhase::QueryFrame { .. }, ComReply::Object { hr, .. }) => !hr_failed(*hr),
            (FramePhase::Copy { .. }, ComReply::Done { .. }) => true,
            (FramePhase::ReleaseFrame { .. }, ComReply::Done { .. }) => true,
            (FramePhase::QuerySurface { .. }, ComReply::Object { .. }) => true,
            _ => false,
        }
    }

    /// Goes on with a reply to the call that was due.
    pub fn resume(self, reply: ComReply) -> (next: FrameGrab)
        requires
            self.accepts(reply),
        ensures
            self.leads_to(reply, next),
    {
        let FrameGrab { source, timeout_ms, phase, mut drops } = self;
        if drops.len() > 0 {
            let _ = drops.remove(0);
            assert(drops@ == self.drops@.skip(1));
            return FrameGrab { source, timeout_ms, phase, drops };
        }
        let phase = match (phase, reply) {
            (FramePhase::Acquire, ComReply::Object { hr, object }) => if hr_failed(hr) {
                FramePhase::Finished { result: Err(hr) }
            } else {
                FramePhase::QueryTexture { frame: UniqueCOMPtr::from_ptr(object) }
            },
            (FramePhase::QueryTexture { frame }, ComReply::Object { hr, object }) => {
                FramePhase::Describe {
                    frame: frame.query_interface(hr, object, &mut drops).unwrap(),
                }
            },
            (FramePhase::Describe { frame }, ComReply::Texture(desc)) => {
                FramePhase::CreateReadable { frame, desc: readable_desc(desc) }
            },
            (
                FramePhase::CreateReadable { frame, .. },
                ComReply::Object { hr, object },
            ) => if hr_failed(hr) {
                frame.release(&mut drops);
                FramePhase::Finished { result: Err(hr) }
            } else {
                FramePhase::Prioritize { frame, readable: UniqueCOMPtr::from_ptr(object) }
            },
            (FramePhase::Prioritize { frame, readable }, _) => FramePhase::QueryReadable {
                frame,
                readable,
            },
            (FramePhase::QueryReadable { frame, readable }, ComReply::Object { hr, object }) => {
                FramePhase::QueryFrame {
                    frame,
                    readable: readable.query_interface(hr, object, &mut drops).unwrap(),
                }
            },
            (FramePhase::QueryFrame { frame, readable }, ComReply::Object { hr, object }) => {
                FramePhase::Copy {
                    frame: frame.query_interface(hr, object, &mut drops).unwrap(),
                    readable,
                }
            },
            (FramePhase::Copy { frame, readable }, _) => {
                frame.release(&mut drops);
                FramePhase::ReleaseFrame { readable }
            },
            (FramePhase::ReleaseFrame { readable }, _) => FramePhase::QuerySurface { readable },
            (FramePhase::QuerySurface { readable }, ComReply::Object { hr, object }) => {
                FramePhase::Finished { result: readable.query_interface(hr, object, &mut drops) }
            },
            (phase, _) => phase,
        };
        assert(drops@ =~= Seq::<usize>::empty() || drops@ =~= seq![drops@[0]]);
        FrameGrab { source, timeout_ms, phase, drops }
    }

    /// Hands out the surface that holds the frame, or the result code of the call that failed,
    /// together with the output that the frame was asked of.
    pub fn finish(self) -> (outcome: (
        DuplicatedOutput,
        Result<UniqueCOMPtr<IDXGISurface1>, HRESULT>,
    ))
        requires
            self.next_call() is None,
        ensures
            outcome.0 == self.source(),
            self.phase() == (FramePhase::Finished { result: outcome.1 }),
    {
        match self.phase {
            FramePhase::Finished { result } => (self.source, result),
            _ => vstd::pervasive::unreached(),
        }
    }

    /// Gives the frame up before it is fetched: hands out the output, and the references to
    /// release.
    pub fn abandon(self) -> (rest: (DuplicatedOutput, Vec<usize>))
        ensures
            rest.0 == self.source(),
            self.held() == rest.1@.to_multiset().add(self.source().held()),
    {
        broadcast use vstd::seq_lib::to_multiset_build;

        let mut drops = self.drops;
        match self.phase {
            FramePhase::Acquire => {},
            FramePhase::QueryTexture { frame } => frame.release(&mut drops),
            FramePhase::Describe { frame } => frame.release(&mut drops),
            FramePhase::CreateReadable { frame, .. } => frame.release(&mut drops),
            FramePhase::Prioritize { frame, readable } => {
                readable.release(&mut drops);
                frame.release(&mut drops);
            },
            FramePhase::QueryReadable { frame, readable } => {
                readable.release(&mut drops);
                frame.release(&mut drops);
            },
            FramePhase::QueryFrame { frame, readable } => {
                readable.release(&mut drops);
                frame.release(&mut drops);
            },
            FramePhase::Copy { frame, readable } => {
                frame.release(&mut drops);
                readable.release(&mut drops);
            },
            FramePhase::ReleaseFrame { readable } => readable.release(&mut drops),
            FramePhase::QuerySurface { readable } => readable.release(&mut drops),
            FramePhase::Finished { result: Ok(surface) } => surface.release(&mut drops),
            FramePhase::Finished { result: Err(_) } => {},
        }
        assert(self.held() =~= drops@.to_multiset().add(self.source.held()));
        (self.source, drops)
    }

    /// How many calls are left at most.
    pub open spec fn calls_left(&self) -> nat {
        self.drops().len() + match self.phase() {
            FramePhase::Acquire => 16nat,
            FramePhase::QueryTexture { .. } => 15,
            FramePhase::Describe { .. } => 13,
            FramePhase::CreateReadable { .. } => 12,
            FramePhase::Prioritize { .. } => 11,
            FramePhase::QueryReadable { .. } => 10,
            FramePhase::QueryFrame { .. } => 8,
            FramePhase::Copy { .. } => 6,
            FramePhase::ReleaseFrame { .. } => 4,
            FramePhase::QuerySurface { .. } => 3,
            FramePhase::Finished { .. } => 0,
        }
    }
}

/// The references of an output are those that it lets go of.
pub(crate) proof fn lemma_refs_are_held(output: DuplicatedOutput)
    ensures
        output.refs().to_multiset() == output.held(),
{
    broadcast use vstd::seq_lib::to_multiset_build;

    lemma_no_refs();
    let none = Seq::<usize>::empty();
    assert(output.refs() =~= none.push(output.device.addr()).push(
        output.device_context.addr(),
    ).push(output.output.addr()).push(output.output_duplication.addr()));
    assert(output.refs().to_multiset() =~= output.held());
}

/// Fetching a frame neither loses nor makes up a reference: what is held after a reply and what the
/// call gave up are what was held before and what came with the reply.
pub proof fn law_frame_references_are_accounted_for(
    grab: FrameGrab,
    reply: ComReply,
    next: FrameGrab,
)
    requires
        grab.accepts(reply),
        grab.leads_to(reply, next),
    ensures
        next.held().add(grab.next_call()->0.given_up()) == grab.held().add(reply.gained()),
{
    broadcast use vstd::seq_lib::to_multiset_build;

    lemma_no_refs();
    if grab.drops().len() > 0 {
        lemma_first_ref(grab.drops());
    } else {
        assert(grab.drops() == Seq::<usize>::empty());
        if next.drops().len() > 0 {
            assert(next.drops() == Seq::<usize>::empty().push(next.drops()[0]));
        }
    }
    assert(next.held().add(grab.next_call()->0.given_up()) =~= grab.held().add(reply.gained()));
}

/// Fetching a frame comes to an end: with every reply fewer calls are left.
pub proof fn law_frame_comes_to_an_end(grab: FrameGrab, reply: ComReply, next: FrameGrab)
    requires
        grab.accepts(reply),
        grab.leads_to(reply, next),
    ensures
        next.calls_left() < grab.calls_left(),
{
}

/// Whether a grab is followed by the next one by a reply.
pub open spec fn is_frame_step(states: Seq<FrameGrab>, replies: Seq<ComReply>, i: int) -> bool {
    &&& states[i].accepts(replies[i])
    &&& states[i].leads_to(replies[i], states[i + 1])
}

/// Whether grabs follow each other by replies.
pub open spec fn is_frame_run(states: Seq<FrameGrab>, replies: Seq<ComReply>) -> bool {
    &&& states.len() == replies.len() + 1
    &&& forall|i: int| 0 <= i < replies.len() ==> #[trigger] is_frame_step(states, replies, i)
}

/// The calls of a run that fetched a frame, by their numbers.
pub struct FrameCalls {
    /// Acquired the frame.
    pub acquire: int,
    /// Asked the frame for its texture.
    pub texture: int,
    /// Described the texture of the frame.
    pub describe: int,
    /// Made the texture that can be read.
    pub create: int,
    /// Set the priority of that texture.
    pub prioritize: int,
    /// Asked that texture for its resource.
    pub readable: int,
    /// Asked the texture of the frame for its resource.
    pub frame: int,
    /// Copied the one resource into the other.
    pub copy: int,
    /// Gave the frame back.
    pub release: int,
    /// Asked the resource that was copied into for its surface.
    pub surface: int,
}

/// Whether call `i` of a run was `call`, and gave an object.
pub open spec fn gave_object(
    states: Seq<FrameGrab>,
    replies: Seq<ComReply>,
    i: int,
    call: ComCall,
) -> bool {
    &&& states[i].next_call() == Some(call)
    &&& replies[i] is Object
    &&& replies[i]->Object_hr >= 0
}

/// Whether the first `k` of the calls that fetch a frame were made one after the other, each on the
/// objects that the ones before gave.
pub open spec fn is_fetched_up_to(
    states: Seq<FrameGrab>,
    replies: Seq<ComReply>,
    calls: FrameCalls,
    k: int,
) -> bool {
    let source = states[0].source();
    &&& k >= 1 ==> 0 <= calls.acquire && gave_object(
        states,
        replies,
        calls.acquire,
        ComCall::AcquireNextFrame {
            duplication: source.output_duplication.addr(),
            timeout_ms: states[0].timeout_ms(),
        },
    )
    &&& k >= 2 ==> calls.acquire < calls.texture && gave_object(
        states,
        replies,
        calls.texture,
        ComCall::QueryInterface {
            object: replies[calls.acquire]->Object_object,
            interface: Interface::ID3D11Texture2D,
        },
    )
    &&& k >= 3 ==> calls.texture < calls.describe && states[calls.describe].next_call() == Some(
        ComCall::GetTextureDesc { texture: replies[calls.texture]->Object_object },
    ) && replies[calls.describe] is Texture
    &&& k >= 4 ==> calls.describe < calls.create && gave_object(
        states,
        replies,
        calls.create,
        ComCall::CreateTexture2D {
            device: source.device.addr(),
            desc: spec_readable_desc(replies[calls.describe]->Texture_0),
            initial_data: NULL,
        },
    )
    &&& k >= 5 ==> calls.create < calls.prioritize && states[calls.prioritize].next_call() == Some(
        ComCall::SetEvictionPriority {
            texture: replies[calls.create]->Object_object,
            priority: DXGI_RESOURCE_PRIORITY_MAXIMUM,
        },
    )
    &&& k >= 6 ==> calls.prioritize < calls.readable && gave_object(
        states,
        replies,
        calls.readable,
        ComCall::QueryInterface {
            object: replies[calls.create]->Object_object,
            interface: Interface::ID3D11Resource,
        },
    )
    &&& k >= 7 ==> calls.readable < calls.frame && gave_object(
        states,
        replies,
        calls.frame,
        ComCall::QueryInterface {
            object: replies[calls.texture]->Object_object,
            interface: Interface::ID3D11Resource,
        },
    )
    &&& k >= 8 ==> calls.frame < calls.copy && states[calls.copy].next_call() == Some(
        ComCall::CopyResource {
            context: source.device_context.addr(),
            target: replies[calls.readable]->Object_object,
            origin: replies[calls.frame]->Object_object,
        },
    )
    &&& k >= 9 ==> calls.copy < calls.release && states[calls.release].next_call() == Some(
        ComCall::ReleaseFrame { duplication: source.output_duplication.addr() },
    )
    &&& k >= 10 ==> calls.release < calls.surface && gave_object(
        states,
        replies,
        calls.surface,
        ComCall::QueryInterface {
            object: replies[calls.readable]->Object_object,
            interface: Interface::IDXGISurface1,
        },
    )
}

/// Whether a surface is what the calls of a run made of a frame that they acquired: all of them
/// were made as they have to be, and the frame was acquired once, copied once and given back once.
pub open spec fn is_fetched(
    states: Seq<FrameGrab>,
    replies: Seq<ComReply>,
    calls: FrameCalls,
    surface: usize,
) -> bool {
    &&& is_fetched_up_to(states, replies, calls, 10)
    &&& calls.surface < replies.len()
    &&& surface == replies[calls.surface]->Object_object
    &&& forall|i: int|
        0 <= i < states.len() ==> match (#[trigger] states[i]).next_call() {
            Some(ComCall::AcquireNextFrame { .. }) => i == calls.acquire,
            Some(ComCall::CopyResource { .. }) => i == calls.copy,
            Some(ComCall::ReleaseFrame { .. }) => i == calls.release,
            _ => true,
        }
}

/// A surface that is handed out holds the frame that was acquired from the output: it is that of a
/// texture like the frame's, made on the device of the output, into which the frame was copied,
/// once, before it was given back, once.
pub proof fn law_surface_holds_the_frame(states: Seq<FrameGrab>, replies: Seq<ComReply>)
    requires
        is_frame_run(states, replies),
        states[0].phase() is Acquire,
    ensures
        states.last().phase() matches FramePhase::Finished { result: Ok(surface) }
            ==> exists|calls: FrameCalls|
            #[trigger] is_fetched(states, replies, calls, surface.addr()),
{
    let calls = lemma_on_the_way(states, replies, replies.len() as int);
    if let FramePhase::Finished { result: Ok(surface) } = states.last().phase() {
        assert forall|i: int| 0 <= i < states.len() implies match (#[trigger] states[i]).next_call() {
            Some(ComCall::AcquireNextFrame { .. }) => i == calls.acquire,
            Some(ComCall::CopyResource { .. }) => i == calls.copy,
            Some(ComCall::ReleaseFrame { .. }) => i == calls.release,
            _ => true,
        } by {
            match states[i].next_call() {
                Some(ComCall::AcquireNextFrame { .. }) => {
                    lemma_no_call_twice(states, replies, i, calls.acquire);
                },
                Some(ComCall::CopyResource { .. }) => {
                    lemma_no_call_twice(states, replies, i, calls.copy);
                },
                Some(ComCall::ReleaseFrame { .. }) => {
                    lemma_no_call_twice(states, replies, i, calls.release);
                },
                _ => {},
            }
        }
        assert(is_fetched(states, replies, calls, surface.addr()));
    }
}

/// As many calls are left at two points of a run only if they are the same.
proof fn lemma_no_call_twice(states: Seq<FrameGrab>, replies: Seq<ComReply>, i: int, j: int)
    requires
        is_frame_run(states, replies),
        0 <= i < states.len(),
        0 <= j < states.len(),
        states[i].calls_left() == states[j].calls_left(),
    ensures
        i == j,
{
    if i < j {
        lemma_fewer_calls(states, replies, i, j);
    } else if j < i {
        lemma_fewer_calls(states, replies, j, i);
    }
}

/// Fewer calls are left at a later point of a run.
proof fn lemma_fewer_calls(states: Seq<FrameGrab>, replies: Seq<ComReply>, i: int, j: int)
    requires
        is_frame_run(states, replies),
        0 <= i < j < states.len(),
    ensures
        states[j].calls_left() < states[i].calls_left(),
    decreases j - i,
{
    assert(is_frame_step(states, replies, j - 1));
    law_frame_comes_to_an_end(states[j - 1], replies[j - 1], states[j]);
    if i < j - 1 {
        lemma_fewer_calls(states, replies, i, j - 1);
    }
}

/// Whether what a grab holds at call `n` of a run comes from earlier calls.
spec fn is_on_the_way(
    states: Seq<FrameGrab>,
    replies: Seq<ComReply>,
    calls: FrameCalls,
    n: int,
) -> bool {
    match states[n].phase() {
        FramePhase::Acquire => true,
        FramePhase::QueryTexture { frame } => {
            &&& is_fetched_up_to(states, replies, calls, 1)
            &&& calls.acquire < n
            &&& frame.addr() == replies[calls.acquire]->Object_object
        },
        FramePhase::Describe { frame } => {
            &&& is_fetched_up_to(states, replies, calls, 2)
            &&& calls.texture < n
            &&& frame.addr() == replies[calls.texture]->Object_object
        },
        FramePhase::CreateReadable { frame, desc } => {
            &&& is_fetched_up_to(states, replies, calls, 3)
            &&& calls.describe < n
            &&& frame.addr() == replies[calls.texture]->Object_object
            &&& desc == spec_readable_desc(replies[calls.describe]->Texture_0)
        },
        FramePhase::Prioritize { frame, readable } => {
            &&& is_fetched_up_to(states, replies, calls, 4)
            &&& calls.create < n
            &&& frame.addr() == replies[calls.texture]->Object_object
            &&& readable.addr() == replies[calls.create]->Object_object
        },
        FramePhase::QueryReadable { frame, readable } => {
            &&& is_fetched_up_to(states, replies, calls, 5)
            &&& calls.prioritize < n
            &&& frame.addr() == replies[calls.texture]->Object_object
            &&& readable.addr() == replies[calls.create]->Object_object
        },
        FramePhase::QueryFrame { frame, readable } => {
            &&& is_fetched_up_to(states, replies, calls, 6)
            &&& calls.readable < n
            &&& frame.addr() == replies[calls.texture]->Object_object
            &&& readable.addr() == replies[calls.readable]->Object_object
        },
        FramePhase::Copy { frame, readable } => {
            &&& is_fetched_up_to(states, replies, calls, 7)
            &&& calls.frame < n
            &&& frame.addr() == replies[calls.frame]->Object_object
            &&& readable.addr() == replies[calls.readable]->Object_object
        },
        FramePhase::ReleaseFrame { readable } => {
            &&& is_fetched_up_to(states, replies, calls, 8)
            &&& calls.copy < n
            &&& readable.addr() == replies[calls.readable]->Object_object
        },
        FramePhase::QuerySurface { readable } => {
            &&& is_fetched_up_to(states, replies, calls, 9)
            &&& calls.release < n
            &&& readable.addr() == replies[calls.readable]->Object_object
        },
        FramePhase::Finished { result: Ok(surface) } => {
            &&& is_fetched_up_to(states, replies, calls, 10)
            &&& calls.surface < n
            &&& surface.addr() == replies[calls.surface]->Object_object
        },
        FramePhase::Finished { result: Err(_) } => true,
    }
}

/// What a grab holds at every point of a run comes from earlier calls.
proof fn lemma_on_the_way(states: Seq<FrameGrab>, replies: Seq<ComReply>, n: int) -> (calls:
    FrameCalls)
    requires
        is_frame_run(states, replies),
        states[0].phase() is Acquire,
        0 <= n <= replies.len(),
    ensures
        is_on_the_way(states, replies, calls, n),
        states[n].source() == states[0].source(),
        states[n].timeout_ms() == states[0].timeout_ms(),
    decreases n,
{
    if n > 0 {
        let i = n - 1;
        let calls = lemma_on_the_way(states, replies, i);
        assert(is_frame_step(states, replies, i));
        if states[i].drops().len() > 0 {
            calls
        } else {
            match states[i].phase() {
                FramePhase::Acquire => FrameCalls { acquire: i, ..calls },
                FramePhase::QueryTexture { .. } => FrameCalls { texture: i, ..calls },
                FramePhase::Describe { .. } => FrameCalls { describe: i, ..calls },
                FramePhase::CreateReadable { .. } => FrameCalls { create: i, ..calls },
                FramePhase::Prioritize { .. } => FrameCalls { prioritize: i, ..calls },
                FramePhase::QueryReadable { .. } => FrameCalls { readable: i, ..calls },
                FramePhase::QueryFrame { .. } => FrameCalls { frame: i, ..calls },
                FramePhase::Copy { .. } => FrameCalls { copy: i, ..calls },
                FramePhase::ReleaseFrame { .. } => FrameCalls { release: i, ..calls },
                FramePhase::QuerySurface { .. } => FrameCalls { surface: i, ..calls },
                FramePhase::Finished { .. } => calls,
            }
        }
    } else {
        FrameCalls {
            acquire: 0,
            texture: 0,
            describe: 0,
            create: 0,
            prioritize: 0,
            readable: 0,
            frame: 0,
            copy: 0,
            release: 0,
            surface: 0,
        }
    }
}

} // verus!
