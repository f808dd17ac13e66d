//! The sprite-sheet source schema: frame rectangles with durations,
//! named tag ranges, and the companion image reference.
use vstd::prelude::*;

verus! {

/// A source rectangle in sprite-sheet pixel coordinates.
#[derive(Debug)]
pub struct AsepriteRect {
    pub x: i32,
    pub y: i32,
    pub w: i32,
    pub h: i32,
}

/// One physical frame of the sprite sheet: its rectangle and its
/// display duration in milliseconds. Position in the frame list is
/// significant and becomes the frame index.
#[derive(Debug)]
pub struct AsepriteDataFrame {
    pub rect: AsepriteRect,
    pub duration: u32,
}

/// A named inclusive range over source frames. Only tags whose name
/// carries the animation marker prefix denote animations.
#[derive(Debug)]
pub struct AsepriteFrameTag {
    pub name: String,
    pub from: u32,
    pub to: u32,
}

/// The metadata block: the companion image path and the tag list.
#[derive(Debug)]
pub struct AsepriteDataMeta {
    pub image_path: String,
    pub tags: Vec<AsepriteFrameTag>,
}

/// A whole sprite-sheet metadata document.
#[derive(Debug)]
pub struct AsepriteDataFile {
    pub frames: Vec<AsepriteDataFrame>,
    pub meta: AsepriteDataMeta,
}

} // verus!
