//! Numbers fixed by the kernel interface of the display controller.

use vstd::prelude::*;

verus! {

/// Request number: read the variable screen info.
pub const FBIOGET_VSCREENINFO: libc::c_ulong = 0x4600;

/// Request number: write the variable screen info.
pub const FBIOPUT_VSCREENINFO: libc::c_ulong = 0x4601;

/// Request number: read the fixed screen info.
pub const FBIOGET_FSCREENINFO: libc::c_ulong = 0x4602;

/// Group letter of the controller's own requests (`'F'`).
pub const MXCFB_IOC_GROUP: u8 = 0x46;

/// Number, within the group, of the request that submits an update.
pub const MXCFB_SEND_UPDATE_NR: u8 = 0x2E;

/// Number, within the group, of the request that waits for an update.
pub const MXCFB_WAIT_FOR_UPDATE_NR: u8 = 0x2F;

/// Waveform code: let the controller choose.
pub const WAVEFORM_MODE_AUTO: u32 = 0x101;

pub const NTX_WFM_MODE_INIT: u32 = 0;

pub const NTX_WFM_MODE_DU: u32 = 1;

pub const NTX_WFM_MODE_GC16: u32 = 2;

pub const NTX_WFM_MODE_GC4: u32 = 3;

pub const NTX_WFM_MODE_A2: u32 = 4;

pub const NTX_WFM_MODE_GL16: u32 = 5;

pub const NTX_WFM_MODE_GLR16: u32 = 6;

pub const NTX_WFM_MODE_GLD16: u32 = 7;

pub const UPDATE_MODE_PARTIAL: u32 = 0x0;

pub const UPDATE_MODE_FULL: u32 = 0x1;

/// Temperature value that stands for "use the ambient temperature".
pub const TEMP_USE_AMBIENT: libc::c_int = 0x1000;

pub const EPDC_FLAG_ENABLE_INVERSION: libc::c_uint = 0x01;

pub const EPDC_FLAG_FORCE_MONOCHROME: libc::c_uint = 0x02;

pub const EPDC_FLAG_TEST_COLLISION: libc::c_uint = 0x200;

pub const EPDC_FLAG_GROUP_UPDATE: libc::c_uint = 0x400;

pub const EPDC_FLAG_USE_AAD: libc::c_uint = 0x1000;

pub const EPDC_FLAG_USE_REGAL: libc::c_uint = 0x8000;

pub const EPDC_FLAG_USE_DITHERING_Y1: libc::c_uint = 0x2000;

pub const EPDC_FLAG_USE_DITHERING_Y4: libc::c_uint = 0x4000;

pub const EPDC_FLAG_USE_DITHERING_NTX_D8: libc::c_uint = 0x100000;

pub const EPDC_FLAG_USE_DITHERING_PASSTHROUGH: libc::c_int = 0;

pub const EPDC_FLAG_USE_DITHERING_ORDERED: libc::c_int = 3;

} // verus!
