//! Images that EGL makes of DMA-BUFs.
use crate::error::{fails_with, ErrorView, WayshotError};
use crate::region::Size;
use crate::wire::{modifier_high, modifier_low};
use vstd::prelude::*;

verus! {

/// The target of images that are made of DMA-BUFs.
pub const LINUX_DMA_BUF_EXT: u32 = 0x3270;

const HEIGHT: usize = 0x3056;

const WIDTH: usize = 0x3057;

const LINUX_DRM_FOURCC_EXT: usize = 0x3271;

const DMA_BUF_PLANE0_FD_EXT: usize = 0x3272;

const DMA_BUF_PLANE0_OFFSET_EXT: usize = 0x3273;

const DMA_BUF_PLANE0_PITCH_EXT: usize = 0x3274;

const DMA_BUF_PLANE0_MODIFIER_LO_EXT: usize = 0x3443;

const DMA_BUF_PLANE0_MODIFIER_HI_EXT: usize = 0x3444;

const ATTRIB_NONE: usize = 0x3038;

/// A DMA-BUF with one plane.
#[derive(Debug, Clone, Copy, PartialEq, Eq, Structural)]
pub struct DmabufPlane {
    /// The code of the pixel format.
    pub format: u32,
    /// The descriptor of the plane.
    pub fd: i32,
    pub offset: u32,
    pub stride: u32,
    pub modifier: u64,
}

/// The attributes of an image of the given size in `plane`: names, each followed by
/// its value, and an end mark.
pub fn image_attribs(size: Size, plane: &DmabufPlane) -> (res: Vec<usize>)
    requires
        plane.fd >= 0,
    ensures
        res@ == seq![
            0x3057usize,
            size.width as usize,
            0x3056,
            size.height as usize,
            0x3271,
            plane.format as usize,
            0x3272,
            plane.fd as usize,
            0x3273,
            plane.offset as usize,
            0x3274,
            plane.stride as usize,
            0x3443,
            (plane.modifier % 0x1_0000_0000) as usize,
            0x3444,
            (plane.modifier / 0x1_0000_0000) as usize,
            0x3038,
        ],
{
    let attribs: Vec<usize> = vec![
        WIDTH,
        size.width as usize,
        HEIGHT,
        size.height as usize,
        LINUX_DRM_FOURCC_EXT,
        plane.format as usize,
        DMA_BUF_PLANE0_FD_EXT,
        plane.fd as usize,
        DMA_BUF_PLANE0_OFFSET_EXT,
        plane.offset as usize,
        DMA_BUF_PLANE0_PITCH_EXT,
        plane.stride as usize,
        DMA_BUF_PLANE0_MODIFIER_LO_EXT,
        modifier_low(plane.modifier) as usize,
        DMA_BUF_PLANE0_MODIFIER_HI_EXT,
        modifier_high(plane.modifier) as usize,
        ATTRIB_NONE,
    ];
    attribs
}

/// An image is bound to a texture by an entry point that the driver may lack.
pub fn require_texture_binding(found: bool) -> (res: Result<(), WayshotError>)
    ensures
        found ==> res is Ok,
        !found ==> fails_with(res, ErrorView::EGLImageToTexProcNotFoundError),
{
    if found {
        Ok(())
    } else {
        Err(WayshotError::EGLImageToTexProcNotFoundError)
    }
}

} // verus!
