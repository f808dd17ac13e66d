//! The uniform output schema: models made of frames and animations,
//! collected into one atlas.
use vstd::prelude::*;

verus! {

/// An integer point, used for anchor offsets.
#[derive(Debug)]
pub struct WLPoint {
    pub x: i32,
    pub y: i32,
}

/// A rectangle in pixel coordinates.
#[derive(Debug)]
pub struct WLRect {
    pub x: i32,
    pub y: i32,
    pub w: i32,
    pub h: i32,
}

/// One frame of a model: a source rectangle and a display duration
/// in milliseconds.
#[derive(Debug)]
pub struct WLFrame {
    pub rect: WLRect,
    pub duration: u32,
}

/// A named animation: an identifier and an ordered list of frame
/// indices into the owning model's frame list.
#[derive(Debug)]
pub struct WLAnimation {
    pub animation_id: String,
    pub frames: Vec<u32>,
}

/// One packaged model: its frames, its animations, its identifier and
/// its anchor point.
#[derive(Debug)]
pub struct WLModel {
    pub frames: Vec<WLFrame>,
    pub animations: Vec<WLAnimation>,
    pub model_id: String,
    pub anchor_point: WLPoint,
}

/// The whole output manifest: every model, in manifest order.
#[derive(Debug)]
pub struct WLAtlas {
    pub models: Vec<WLModel>,
}

impl WLModel {
    /// A model is packable when it is not ambiguous: a model without
    /// animations may hold at most one frame (that frame then serves as
    /// an implicit idle pose).
    pub open spec fn packable(self) -> bool {
        self.animations@.len() == 0 ==> self.frames@.len() <= 1
    }
}

} // verus!
