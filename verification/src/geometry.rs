//! The geometry of the panel, as read once from the two screen-info
//! structures and kept as a snapshot.

use vstd::prelude::*;
use crate::error::Error;
use crate::screen_info::{
    decode_fixed, decode_variable, fix_screen_info_len, Bitfield, FixScreenInfo, VarScreenInfo,
    VAR_SCREEN_INFO_LEN,
};
use crate::update::MxcfbRect;
use crate::wire::ByteOrder;

verus! {

/// Resolution, pixel format and strides of the panel.
#[derive(Clone, Copy, Debug)]
pub struct ScreenGeometry {
    /// Visible width, in pixels.
    pub xres: u32,
    /// Visible height, in pixels.
    pub yres: u32,
    /// Virtual width, in pixels.
    pub xres_virtual: u32,
    /// Virtual height, in pixels.
    pub yres_virtual: u32,
    /// Bits of one pixel.
    pub bits_per_pixel: u32,
    pub red: Bitfield,
    pub green: Bitfield,
    pub blue: Bitfield,
    pub transp: Bitfield,
    /// Bytes of one line of pixels.
    pub line_length: u32,
    pub xpanstep: u16,
    pub ypanstep: u16,
    pub ywrapstep: u16,
    pub rotate: u32,
}

impl ScreenGeometry {
    /// The geometry that the two structures describe.
    pub open spec fn assemble(fix: FixScreenInfo, var: VarScreenInfo) -> ScreenGeometry {
        ScreenGeometry {
            xres: var.xres,
            yres: var.yres,
            xres_virtual: var.xres_virtual,
            yres_virtual: var.yres_virtual,
            bits_per_pixel: var.bits_per_pixel,
            red: var.red,
            green: var.green,
            blue: var.blue,
            transp: var.transp,
            line_length: fix.line_length,
            xpanstep: fix.xpanstep,
            ypanstep: fix.ypanstep,
            ywrapstep: fix.ywrapstep,
            rotate: var.rotate,
        }
    }

    /// Whether the four channels lie inside a pixel and no two of them
    /// share a bit.
    pub open spec fn channels_valid(self) -> bool {
        &&& self.red.fits(self.bits_per_pixel)
        &&& self.green.fits(self.bits_per_pixel)
        &&& self.blue.fits(self.bits_per_pixel)
        &&& self.transp.fits(self.bits_per_pixel)
        &&& self.red.apart_from(self.green)
        &&& self.red.apart_from(self.blue)
        &&& self.red.apart_from(self.transp)
        &&& self.green.apart_from(self.blue)
        &&& self.green.apart_from(self.transp)
        &&& self.blue.apart_from(self.transp)
    }

    /// Whether the region lies inside the virtual resolution.
    pub open spec fn contains(self, region: MxcfbRect) -> bool {
        &&& region.left + region.width <= self.xres_virtual
        &&& region.top + region.height <= self.yres_virtual
    }

    /// The geometry that the two buffers describe, where they have the
    /// sizes of the two structures and the channels can coexist.
    pub open spec fn decoded(order: ByteOrder, fixed: Seq<u8>, variable: Seq<u8>) -> Result<
        ScreenGeometry,
        Error,
    > {
        let g = Self::assemble(
            FixScreenInfo::read(order, fixed),
            VarScreenInfo::read(order, variable),
        );
        if fixed.len() == fix_screen_info_len() && variable.len() == VAR_SCREEN_INFO_LEN
            && g.channels_valid() {
            Ok(g)
        } else {
            Err(Error::MalformedGeometry)
        }
    }

    /// Tells whether the four channels lie inside a pixel and no two of
    /// them share a bit.
    pub fn has_valid_channels(&self) -> (b: bool)
        ensures
            b == self.channels_valid(),
    {
        self.red.lies_within(self.bits_per_pixel) && self.green.lies_within(self.bits_per_pixel)
            && self.blue.lies_within(self.bits_per_pixel) && self.transp.lies_within(
            self.bits_per_pixel,
        ) && self.red.is_apart_from(&self.green) && self.red.is_apart_from(&self.blue)
            && self.red.is_apart_from(&self.transp) && self.green.is_apart_from(&self.blue)
            && self.green.is_apart_from(&self.transp) && self.blue.is_apart_from(&self.transp)
    }

    /// Takes the geometry from the two structures. Fails with
    /// `MalformedGeometry` where a channel does not lie inside a pixel or
    /// two channels share a bit.
    pub fn from_info(fix: &FixScreenInfo, var: &VarScreenInfo) -> (r: Result<
        ScreenGeometry,
        Error,
    >)
        ensures
            Self::assemble(*fix, *var).channels_valid() ==> r == Ok::<ScreenGeometry, Error>(
                Self::assemble(*fix, *var),
            ),
            !Self::assemble(*fix, *var).channels_valid() ==> r == Err::<ScreenGeometry, Error>(
                Error::MalformedGeometry,
            ),
    {
        let g = ScreenGeometry {
            xres: var.xres,
            yres: var.yres,
            xres_virtual: var.xres_virtual,
            yres_virtual: var.yres_virtual,
            bits_per_pixel: var.bits_per_pixel,
            red: var.red,
            green: var.green,
            blue: var.blue,
            transp: var.transp,
            line_length: fix.line_length,
            xpanstep: fix.xpanstep,
            ypanstep: fix.ypanstep,
            ywrapstep: fix.ywrapstep,
            rotate: var.rotate,
        };
        if g.has_valid_channels() {
            Ok(g)
        } else {
            Err(Error::MalformedGeometry)
        }
    }

    /// Reads the geometry from the two buffers that the driver filled.
    /// Fails with `MalformedGeometry` where a buffer does not have the size
    /// of its structure, or the channels cannot coexist.
    pub fn decode(order: ByteOrder, fixed: &[u8], variable: &[u8]) -> (r: Result<
        ScreenGeometry,
        Error,
    >)
        ensures
            r == Self::decoded(order, fixed@, variable@),
    {
        match decode_fixed(order, fixed) {
            Err(e) => Err(e),
            Ok(fix) => match decode_variable(order, variable) {
                Err(e) => Err(e),
                Ok(var) => Self::from_info(&fix, &var),
            },
        }
    }

    /// Tells whether the region lies inside the virtual resolution.
    pub fn holds(&self, region: &MxcfbRect) -> (b: bool)
        ensures
            b == self.contains(*region),
    {
        region.width <= self.xres_virtual && region.left <= self.xres_virtual - region.width
            && region.height <= self.yres_virtual && region.top <= self.yres_virtual
            - region.height
    }
}

} // verus!
