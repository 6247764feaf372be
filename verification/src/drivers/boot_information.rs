//! What the boot loader tells the kernel about memory, graphics and fonts.
use vstd::prelude::*;

verus! {

/// A memory map that did not fit the fixed table: where it lies, the size
/// allocated for it and the size it takes.
#[derive(Debug, Clone, Copy, PartialEq, Eq, Structural)]
pub struct AdditonalMemoryMap {
    pub address: usize,
    pub allocated_size: usize,
    pub actual_size: usize,
}

/// The frame buffer: its physical address and its size.
#[derive(Debug, Clone, Copy, PartialEq, Eq, Structural)]
pub struct GraphicInfo {
    pub frame_buffer_address: usize,
    pub frame_buffer_size: usize,
}

/// The loaded font: where it lies and its size.
#[derive(Debug, Clone, Copy, PartialEq, Eq, Structural)]
pub struct FontInfo {
    pub font_address: usize,
    pub font_size: usize,
}

impl AdditonalMemoryMap {
    /// The sizes are those of a map that holds something and fits its
    /// allocation.
    pub open spec fn wf(&self) -> bool {
        0 < self.actual_size <= self.allocated_size
    }

    /// A map, where `actual_size` is not 0.
    pub fn new(address: usize, allocated_size: usize, actual_size: usize) -> (r: Option<Self>)
        ensures
            r is Some <==> actual_size != 0,
            r matches Some(m) ==> m == (AdditonalMemoryMap { address, allocated_size, actual_size }),
    {
        if actual_size == 0 {
            None
        } else {
            Some(AdditonalMemoryMap { address, allocated_size, actual_size })
        }
    }
}

impl GraphicInfo {
    /// A frame buffer, where `frame_buffer_size` is not 0.
    pub fn new(frame_buffer_address: usize, frame_buffer_size: usize) -> (r: Option<Self>)
        ensures
            r is Some <==> frame_buffer_size != 0,
            r matches Some(g) ==> g == (GraphicInfo { frame_buffer_address, frame_buffer_size }),
    {
        if frame_buffer_size == 0 {
            None
        } else {
            Some(GraphicInfo { frame_buffer_address, frame_buffer_size })
        }
    }
}

impl FontInfo {
    /// A font, where `font_size` is not 0.
    pub fn new(font_address: usize, font_size: usize) -> (r: Option<Self>)
        ensures
            r is Some <==> font_size != 0,
            r matches Some(f) ==> f == (FontInfo { font_address, font_size }),
    {
        if font_size == 0 {
            None
        } else {
            Some(FontInfo { font_address, font_size })
        }
    }
}

} // verus!
