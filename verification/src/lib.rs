//! Packages sprite-sheet metadata and static images into one uniform
//! atlas archive: frames, animations and anchor points are normalized
//! into a single schema, validated, and written out entry by entry.

pub mod archive;
pub mod aseprite;
pub mod packer;
pub mod wl_atlas;

pub use archive::{fill_archive, write_zip, ZipBuilder};
pub use aseprite::{
    AsepriteDataFile, AsepriteDataFrame, AsepriteDataMeta, AsepriteFrameTag, AsepriteRect,
};
pub use packer::{
    gen_wl_model_from_ase_data, gen_wl_model_from_dims, gen_wl_model_from_png, PackError, Point,
};
pub use wl_atlas::{WLAnimation, WLAtlas, WLFrame, WLModel, WLPoint, WLRect};
