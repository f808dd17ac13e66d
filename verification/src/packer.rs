//! The model normalizer: turns sprite-sheet metadata or a static
//! image's dimensions into one uniform model record.
use vstd::prelude::*;
use vstd::string::StringExecFns;

use crate::aseprite::{AsepriteDataFile, AsepriteDataFrame, AsepriteFrameTag};
use crate::wl_atlas::{WLAnimation, WLFrame, WLModel, WLPoint, WLRect};

verus! {

/// An anchor offset supplied by a manifest entry.
#[derive(Debug)]
pub struct Point {
    pub x: i32,
    pub y: i32,
}

#[verifier::external_type_specification]
#[verifier::external_body]
pub struct ExDecodingError(png::DecodingError);

#[verifier::external_type_specification]
#[verifier::external_body]
pub struct ExZipError(zip::result::ZipError);

/// Why a packing run was aborted.
#[derive(Debug)]
pub enum PackError {
    /// A model's animation coverage contradicts its frame count.
    Validation { model_id: String, frame_count: usize, animation_count: usize },
    /// An image's header could not be decoded.
    ImageDecode(png::DecodingError),
    /// The output archive could not be written.
    Archive(zip::result::ZipError),
}

/// The marker that distinguishes animation tags from incidental tags.
pub open spec fn anim_prefix() -> Seq<char> {
    "a_"@
}

/// Whether a tag's name carries the animation marker prefix.
pub open spec fn is_anim_tag(t: AsepriteFrameTag) -> bool {
    t.name@.len() >= anim_prefix().len() && t.name@.take(anim_prefix().len() as int) == anim_prefix()
}

/// The animation identifier a qualifying tag declares: its name with
/// the marker prefix stripped.
pub open spec fn anim_id_of(t: AsepriteFrameTag) -> Seq<char> {
    t.name@.skip(anim_prefix().len() as int)
}

/// The tags that declare animations, in source order.
pub open spec fn qualifying_tags(tags: Seq<AsepriteFrameTag>) -> Seq<AsepriteFrameTag>
    decreases tags.len(),
{
    if tags.len() == 0 {
        Seq::empty()
    } else {
        let pre = qualifying_tags(tags.drop_last());
        if is_anim_tag(tags.last()) {
            pre.push(tags.last())
        } else {
            pre
        }
    }
}

/// The ascending inclusive run of frame indices a tag declares; empty
/// when the range is reversed.
pub open spec fn range_seq(from: u32, to: u32) -> Seq<u32> {
    if from <= to {
        Seq::new((to - from + 1) as nat, |i: int| (from + i) as u32)
    } else {
        Seq::empty()
    }
}

/// A normalized frame copies a source frame's geometry and duration.
pub open spec fn frame_matches(uf: WLFrame, sf: AsepriteDataFrame) -> bool {
    &&& uf.duration == sf.duration
    &&& uf.rect.x == sf.rect.x
    &&& uf.rect.y == sf.rect.y
    &&& uf.rect.w == sf.rect.w
    &&& uf.rect.h == sf.rect.h
}

/// The synthesized single-frame fallback animation.
pub open spec fn is_idle_fallback(a: WLAnimation) -> bool {
    a.animation_id@ == "idle"@ && a.frames@ == seq![0u32]
}

/// A normalized animation realizes a qualifying tag: its identifier is
/// the tag's name without the marker, its frames are the tag's range.
pub open spec fn anim_matches_tag(a: WLAnimation, t: AsepriteFrameTag) -> bool {
    a.animation_id@ == anim_id_of(t) && a.frames@ == range_seq(t.from, t.to)
}

/// Every tag the filter keeps carries the animation marker prefix:
/// non-qualifying tags never reach the output.
pub proof fn lemma_qualifying_tags_only(tags: Seq<AsepriteFrameTag>)
    ensures
        forall|i: int| 0 <= i < qualifying_tags(tags).len() ==> is_anim_tag(
            #[trigger] qualifying_tags(tags)[i],
        ),
    decreases tags.len(),
{
    if tags.len() > 0 {
        lemma_qualifying_tags_only(tags.drop_last());
        let pre = qualifying_tags(tags.drop_last());
        if is_anim_tag(tags.last()) {
            assert(qualifying_tags(tags) == pre.push(tags.last()));
            assert forall|i: int| 0 <= i < qualifying_tags(tags).len() implies is_anim_tag(
                qualifying_tags(tags)[i],
            ) by {
                if i < pre.len() {
                    assert(qualifying_tags(tags)[i] == pre[i]);
                } else {
                    assert(qualifying_tags(tags)[i] == tags.last());
                }
            }
        } else {
            assert(qualifying_tags(tags) == pre);
        }
    }
}

/// A declared range's sequence is ascending from `from` to `to`, one
/// step at a time; its length and endpoints recover the declaration.
pub proof fn lemma_range_seq_round_trip(from: u32, to: u32)
    requires
        from <= to,
    ensures
        range_seq(from, to).len() == to - from + 1,
        range_seq(from, to).first() == from,
        range_seq(from, to).last() == to,
        forall|i: int| 0 <= i < range_seq(from, to).len() ==> #[trigger] range_seq(from, to)[i]
            == from + i,
{
}

/// Relies on str::strip_prefix: the result is the rest of `s` after
/// `p` when `s` starts with `p`, and None otherwise.
#[verifier::external_body]
fn strip_prefix_of(s: &str, p: &str) -> (r: Option<String>)
    ensures
        r is Some <==> (s@.len() >= p@.len() && s@.take(p@.len() as int) == p@),
        r matches Some(t) ==> t@ == s@.skip(p@.len() as int),
{
    s.strip_prefix(p).map(|t| t.to_string())
}

/// The pixel dimensions (width, height) recorded in a PNG document's
/// header, or None when the document cannot be decoded; a function of
/// the bytes alone.
pub uninterp spec fn png_dims_of(bytes: Seq<u8>) -> Option<(u32, u32)>;

/// Relies on png::Decoder::read_info: it decodes deterministically
/// from the bytes alone, succeeds exactly when they parse as a PNG,
/// and then hands back the width and height read from the header.
#[verifier::external_body]
fn decode_png_dims(bytes: &Vec<u8>) -> (r: Result<(u32, u32), png::DecodingError>)
    ensures
        r is Ok <==> png_dims_of(bytes@) is Some,
        r matches Ok(d) ==> Some(d) == png_dims_of(bytes@),
{
    let decoder = png::Decoder::new(std::io::Cursor::new(bytes.as_slice()));
    match decoder.read_info() {
        Ok(reader) => Ok((reader.info().width, reader.info().height)),
        Err(e) => Err(e),
    }
}

/// The inclusive range of frame indices `[from, to]` as a vector,
/// empty when `from > to`.
fn collect_range(from: u32, to: u32) -> (r: Vec<u32>)
    ensures
        r@ == range_seq(from, to),
{
    let mut v: Vec<u32> = Vec::new();
    if from > to {
        proof {
            assert(v@ =~= range_seq(from, to));
        }
        return v;
    }
    let mut i: u32 = from;
    loop
        invariant_except_break
            v@.len() == i - from,
        invariant
            from <= i <= to,
            forall|k: int| 0 <= k < v@.len() ==> v@[k] == from + k,
        ensures
            v@.len() == to - from + 1,
            forall|k: int| 0 <= k < v@.len() ==> v@[k] == from + k,
        decreases to - i,
    {
        v.push(i);
        if i == to {
            break;
        }
        i = i + 1;
    }
    proof {
        assert(v@ =~= range_seq(from, to));
    }
    v
}

/// A uniform model for a static image of the given pixel dimensions:
/// one full-image frame shown for one second, an implicit `idle`
/// animation over that frame, and the anchor fixed at the origin.
pub fn gen_wl_model_from_dims(model_id: String, width: u32, height: u32) -> (m: WLModel)
    ensures
        m.model_id@ == model_id@,
        m.anchor_point.x == 0 && m.anchor_point.y == 0,
        m.frames@.len() == 1,
        m.frames@[0].rect.x == 0 && m.frames@[0].rect.y == 0,
        m.frames@[0].rect.w == width as i32,
        m.frames@[0].rect.h == height as i32,
        m.frames@[0].duration == 1000,
        m.animations@.len() == 1,
        is_idle_fallback(m.animations@[0]),
        m.packable(),
{
    let mut idle_frames: Vec<u32> = Vec::new();
    idle_frames.push(0);
    proof {
        assert(idle_frames@ =~= seq![0u32]);
    }
    let mut animations: Vec<WLAnimation> = Vec::new();
    animations.push(WLAnimation { animation_id: String::from_str("idle"), frames: idle_frames });
    let mut frames: Vec<WLFrame> = Vec::new();
    frames.push(
        WLFrame {
            duration: 1000,
            rect: WLRect { x: 0, y: 0, w: width as i32, h: height as i32 },
        },
    );
    WLModel { anchor_point: WLPoint { x: 0, y: 0 }, model_id, frames, animations }
}

/// A uniform model for a static image given as raw PNG bytes: the
/// frame rectangle spans the decoded pixel dimensions; exactly the
/// documents whose header cannot be decoded abort with an
/// ImageDecode error.
pub fn gen_wl_model_from_png(model_id: String, png_bytes: &Vec<u8>) -> (r: Result<
    WLModel,
    PackError,
>)
    ensures
        r is Ok <==> png_dims_of(png_bytes@) is Some,
        r matches Ok(m) ==> (png_dims_of(png_bytes@) matches Some(dims) && {
            &&& m.model_id@ == model_id@
            &&& m.anchor_point.x == 0 && m.anchor_point.y == 0
            &&& m.frames@.len() == 1
            &&& m.frames@[0].rect.x == 0 && m.frames@[0].rect.y == 0
            &&& m.frames@[0].rect.w == dims.0 as i32
            &&& m.frames@[0].rect.h == dims.1 as i32
            &&& m.frames@[0].duration == 1000
            &&& m.animations@.len() == 1
            &&& is_idle_fallback(m.animations@[0])
            &&& m.packable()
        }),
        r matches Err(e) ==> e is ImageDecode,
{
    match decode_png_dims(png_bytes) {
        Ok(dims) => Ok(gen_wl_model_from_dims(model_id, dims.0, dims.1)),
        Err(e) => Err(PackError::ImageDecode(e)),
    }
}

/// A uniform model from sprite-sheet metadata: frames are copied in
/// source order; animations come from the qualifying tags, or from the
/// single-frame `idle` fallback; a multi-frame sheet without
/// qualifying tags aborts with a Validation error.
pub fn gen_wl_model_from_ase_data(
    ase_data: AsepriteDataFile,
    model_id: String,
    anchor_point: Point,
) -> (r: Result<WLModel, PackError>)
    ensures
        r is Ok <==> !(qualifying_tags(ase_data.meta.tags@).len() == 0 && ase_data.frames@.len()
            > 1),
        r matches Ok(m) ==> {
            &&& m.model_id@ == model_id@
            &&& m.anchor_point.x == anchor_point.x
            &&& m.anchor_point.y == anchor_point.y
            &&& m.frames@.len() == ase_data.frames@.len()
            &&& forall|i: int| 0 <= i < m.frames@.len() ==> frame_matches(
                #[trigger] m.frames@[i],
                ase_data.frames@[i],
            )
            &&& qualifying_tags(ase_data.meta.tags@).len() == 0 ==> (m.animations@.len() == 1
                && is_idle_fallback(m.animations@[0]))
            &&& qualifying_tags(ase_data.meta.tags@).len() > 0 ==> (m.animations@.len()
                == qualifying_tags(ase_data.meta.tags@).len() && forall|k: int|
                0 <= k < m.animations@.len() ==> anim_matches_tag(
                    #[trigger] m.animations@[k],
                    qualifying_tags(ase_data.meta.tags@)[k],
                ))
            &&& m.packable()
        },
        r matches Err(e) ==> (e matches PackError::Validation {
            model_id: mid,
            frame_count: fc,
            animation_count: ac,
        } && mid@ == model_id@ && fc == ase_data.frames@.len() && ac == 0),
{
    let tags_len = ase_data.meta.tags.len();
    let mut animations: Vec<WLAnimation> = Vec::new();
    let mut idx: usize = 0;
    while idx < tags_len
        invariant
            tags_len == ase_data.meta.tags@.len(),
            idx <= tags_len,
            animations@.len() == qualifying_tags(ase_data.meta.tags@.take(idx as int)).len(),
            forall|k: int| 0 <= k < animations@.len() ==> anim_matches_tag(
                #[trigger] animations@[k],
                qualifying_tags(ase_data.meta.tags@.take(idx as int))[k],
            ),
        decreases tags_len - idx,
    {
        let tag = &ase_data.meta.tags[idx];
        proof {
            assert(ase_data.meta.tags@.take(idx + 1).drop_last() =~= ase_data.meta.tags@.take(
                idx as int,
            ));
            assert(ase_data.meta.tags@.take(idx + 1).last() == ase_data.meta.tags@[idx as int]);
        }
        match strip_prefix_of(tag.name.as_str(), "a_") {
            Some(anim_id) => {
                let anim_frames = collect_range(tag.from, tag.to);
                animations.push(WLAnimation { animation_id: anim_id, frames: anim_frames });
            },
            None => {
            },
        }
        idx = idx + 1;
    }
    proof {
        assert(ase_data.meta.tags@.take(tags_len as int) =~= ase_data.meta.tags@);
    }
    if animations.len() == 0 {
        if ase_data.frames.len() > 1 {
            return Err(
                PackError::Validation {
                    model_id,
                    frame_count: ase_data.frames.len(),
                    animation_count: 0,
                },
            );
        }
        let mut idle_frames: Vec<u32> = Vec::new();
        idle_frames.push(0);
        proof {
            assert(idle_frames@ =~= seq![0u32]);
        }
        animations.push(
            WLAnimation { animation_id: String::from_str("idle"), frames: idle_frames },
        );
    }
    let frames_len = ase_data.frames.len();
    let mut frames: Vec<WLFrame> = Vec::new();
    let mut i: usize = 0;
    while i < frames_len
        invariant
            frames_len == ase_data.frames@.len(),
            i <= frames_len,
            frames@.len() == i,
            forall|k: int| 0 <= k < frames@.len() ==> frame_matches(
                #[trigger] frames@[k],
                ase_data.frames@[k],
            ),
        decreases frames_len - i,
    {
        let sf = &ase_data.frames[i];
        frames.push(
            WLFrame {
                duration: sf.duration,
                rect: WLRect { x: sf.rect.x, y: sf.rect.y, w: sf.rect.w, h: sf.rect.h },
            },
        );
        i = i + 1;
    }
    Ok(
        WLModel {
            anchor_point: WLPoint { x: anchor_point.x, y: anchor_point.y },
            model_id,
            frames,
            animations,
        },
    )
}

} // verus!
