//! COM objects, the calls that are made on them, and what the calls give back.
//!
//! The library makes no COM call itself: it says which call is to be made next, and is handed what
//! the call gave back. Objects are told apart by their addresses.
use core::marker::PhantomData;
use vstd::multiset::Multiset;
use vstd::prelude::*;

use crate::hresult::{hr_failed, HRESULT};
use crate::pixel::{Rect, Rotation, BGRA8};

verus! {

/// Makes the adapters known.
pub struct IDXGIFactory1;

/// A display adapter.
pub struct IDXGIAdapter1;

/// An output of an adapter.
pub struct IDXGIOutput;

/// An output that can be duplicated.
pub struct IDXGIOutput1;

/// A duplicated output.
pub struct IDXGIOutputDuplication;

/// What holds an acquired frame.
pub struct IDXGIResource;

/// A device in its role as a DXGI device.
pub struct IDXGIDevice1;

/// A surface that can be mapped into memory.
pub struct IDXGISurface1;

/// A device.
pub struct ID3D11Device;

/// The context through which a device is given commands.
pub struct ID3D11DeviceContext;

/// Anything that a device can copy.
pub struct ID3D11Resource;

/// A texture.
pub struct ID3D11Texture2D;

/// An interface that an object can be asked for.
#[derive(Copy, Clone, Debug, PartialEq, Eq, Structural)]
pub enum Interface {
    IDXGIFactory1,
    IDXGIOutput1,
    IDXGIDevice1,
    IDXGISurface1,
    ID3D11Device,
    ID3D11Resource,
    ID3D11Texture2D,
}

/// A unique pointer to a COM object, which stands for one reference to it.
///
/// What lets go of the pointer puts its address on a list of references to release.
pub struct UniqueCOMPtr<T> {
    ptr: usize,
    interface: PhantomData<T>,
}

impl<T> UniqueCOMPtr<T> {
    /// The address of the object.
    pub closed spec fn addr(&self) -> usize {
        self.ptr
    }

    /// Takes over a reference to a COM object.
    ///
    /// It is for the caller to guarantee that the reference is nobody else's.
    pub fn from_ptr(ptr: usize) -> (object: UniqueCOMPtr<T>)
        ensures
            object.addr() == ptr,
    {
        UniqueCOMPtr { ptr, interface: PhantomData }
    }

    /// The address of the object, for a call on it.
    pub fn as_ptr(&self) -> (ptr: usize)
        ensures
            ptr == self.addr(),
    {
        self.ptr
    }

    /// Lets go of the object.
    pub fn release(self, drops: &mut Vec<usize>)
        ensures
            final(drops)@ == old(drops)@.push(self.addr()),
    {
        drops.push(self.ptr);
    }

    /// Goes over to another interface of the object, as `QueryInterface` gave it: a result code,
    /// and the address where the code tells of success. The pointer that was asked is let go of
    /// either way.
    pub fn query_interface<U>(self, hr: HRESULT, interface: usize, drops: &mut Vec<usize>) -> (result:
        Result<UniqueCOMPtr<U>, HRESULT>)
        ensures
            final(drops)@ == old(drops)@.push(self.addr()),
            hr < 0 ==> result == Err::<UniqueCOMPtr<U>, HRESULT>(hr),
            hr >= 0 ==> result is Ok && result->Ok_0.addr() == interface,
    {
        self.release(drops);
        if hr_failed(hr) {
            Err(hr)
        } else {
            Ok(UniqueCOMPtr::from_ptr(interface))
        }
    }
}

/// The addresses of objects, in their order.
pub open spec fn addrs<T>(objects: Seq<UniqueCOMPtr<T>>) -> Seq<usize> {
    Seq::new(objects.len(), |i: int| objects[i].addr())
}

/// What is told of an output.
#[derive(Copy, Clone, Debug, PartialEq, Eq, Structural)]
pub struct OutputDesc {
    pub desktop_coordinates: Rect,
    /// Not zero where the output is attached to the desktop.
    pub attached_to_desktop: i32,
    pub rotation: Rotation,
    /// Handle of the monitor that shows the output.
    pub monitor: usize,
}

/// What is told of a texture, and asked for when one is made.
#[derive(Copy, Clone, Debug, PartialEq, Eq, Structural)]
pub struct TextureDesc {
    pub width: u32,
    pub height: u32,
    pub mip_levels: u32,
    pub array_size: u32,
    pub format: u32,
    pub sample_count: u32,
    pub sample_quality: u32,
    pub usage: u32,
    pub bind_flags: u32,
    pub cpu_access_flags: u32,
    pub misc_flags: u32,
}

/// The address that stands for nothing.
pub const NULL: usize = 0;

/// A call into the system.
///
/// The value determines the call: the arguments of the function that are not in it are places that
/// the function writes to. Those that the answer is read from are zero before, but for the size
/// that a call has.
#[derive(Copy, Clone, Debug, PartialEq, Eq, Structural)]
pub enum ComCall {
    /// `CreateDXGIFactory1` for an interface of the factory, answered by `Object`.
    CreateFactory1 { interface: Interface },
    /// `IDXGIFactory1::EnumAdapters1`, answered by `Object`.
    EnumAdapters1 { factory: usize, index: u32 },
    /// `IDXGIAdapter1::EnumOutputs`, answered by `Object`.
    EnumOutputs { adapter: usize, index: u32 },
    /// `IDXGIOutput::GetDesc`, answered by `Output`.
    GetOutputDesc { output: usize },
    /// `D3D11CreateDevice` on an adapter, answered by `Device`: with the handle of a module that
    /// rasterizes in software, and with a list of feature levels at an address and its length.
    CreateDevice {
        adapter: usize,
        driver_type: u32,
        software: usize,
        flags: u32,
        feature_levels: usize,
        feature_level_count: u32,
        sdk_version: u32,
    },
    /// `IUnknown::QueryInterface`, answered by `Object`.
    QueryInterface { object: usize, interface: Interface },
    /// `IDXGIOutput1::DuplicateOutput`, answered by `Object`.
    DuplicateOutput { output: usize, device: usize },
    /// `GetMonitorInfoW` into a structure of so many bytes, answered by `Monitor`.
    GetMonitorInfo { monitor: usize, size: u32 },
    /// `IDXGIOutputDuplication::AcquireNextFrame`, answered by `Object`.
    AcquireNextFrame { duplication: usize, timeout_ms: u32 },
    /// `ID3D11Texture2D::GetDesc`, answered by `Texture`.
    GetTextureDesc { texture: usize },
    /// `ID3D11Device::CreateTexture2D` with the address of what the texture holds at first,
    /// answered by `Object`.
    CreateTexture2D { device: usize, desc: TextureDesc, initial_data: usize },
    /// `ID3D11Texture2D::SetEvictionPriority`, answered by `Done`.
    SetEvictionPriority { texture: usize, priority: u32 },
    /// `ID3D11DeviceContext::CopyResource`, answered by `Done`.
    CopyResource { context: usize, target: usize, origin: usize },
    /// `IDXGIOutputDuplication::ReleaseFrame`, answered by `Done`.
    ReleaseFrame { duplication: usize },
    /// `IDXGISurface1::Map`, answered by `Mapped`.
    MapSurface { surface: usize, flags: u32 },
    /// A look at `len` mapped pixels from the address `bits` on, answered by `Pixels`.
    ReadPixels { bits: usize, len: usize },
    /// `IDXGISurface1::Unmap`, answered by `Done`.
    UnmapSurface { surface: usize },
    /// `IUnknown::Release`, answered by `Done`.
    Release { object: usize },
}

/// What a call gave back.
#[derive(Copy, Clone, Debug)]
pub enum ComReply<'a> {
    /// A result code alone; of a call that has none, zero.
    Done { hr: HRESULT },
    /// A result code and, where it tells of success, a reference to an object.
    Object { hr: HRESULT, object: usize },
    /// A result code and, where it tells of success, references to a device and its context.
    Device { hr: HRESULT, device: usize, context: usize },
    Output(OutputDesc),
    /// The flags of a monitor.
    Monitor { flags: u32 },
    Texture(TextureDesc),
    /// A result code and, where it tells of success, the bytes from row to row and the address of
    /// the first pixel.
    Mapped { hr: HRESULT, pitch: i32, bits: usize },
    Pixels(&'a [BGRA8]),
}

impl<'a> ComReply<'a> {
    /// The references that come with the reply.
    pub open spec fn gained(self) -> Multiset<usize> {
        match self {
            ComReply::Object { hr, object } if hr >= 0 => Multiset::singleton(object),
            ComReply::Device { hr, device, context } if hr >= 0 => Multiset::singleton(device).insert(context),
            _ => Multiset::empty(),
        }
    }
}

impl ComCall {
    /// The references that are given up with the call.
    pub open spec fn given_up(self) -> Multiset<usize> {
        match self {
            ComCall::Release { object } => Multiset::singleton(object),
            _ => Multiset::empty(),
        }
    }
}

} // verus!
