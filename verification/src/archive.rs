//! The archive emitter: streams the manifest document and every
//! model's image bytes into one zip container, in manifest order.
use vstd::prelude::*;
use vstd::string::StringExecFns;

use crate::packer::PackError;
use crate::wl_atlas::{WLAtlas, WLModel};

verus! {

/// An in-memory zip archive under construction.
#[verifier::external_body]
pub struct ZipBuilder {
    writer: zip::ZipWriter<std::io::Cursor<Vec<u8>>>,
}

/// The entries written into the archive so far: for each, its name
/// and its bytes, in the order the entries were started.
pub uninterp spec fn archive_entries(z: ZipBuilder) -> Seq<(Seq<char>, Seq<u8>)>;

/// The archive name of a model's image entry.
pub open spec fn entry_name_of(model_id: Seq<char>) -> Seq<char> {
    model_id + ".png"@
}

/// The image entries owed to the given models: the Nth entry carries
/// the Nth model's identifier and the Nth image's bytes.
pub open spec fn image_entries(models: Seq<WLModel>, images: Seq<Seq<u8>>) -> Seq<
    (Seq<char>, Seq<u8>),
> {
    Seq::new(models.len(), |i: int| (entry_name_of(models[i].model_id@), images[i]))
}

impl ZipBuilder {
    /// Relies on zip::ZipWriter::new: a fresh writer holds no entries.
    #[verifier::external_body]
    pub fn new() -> (z: ZipBuilder)
        ensures
            archive_entries(z) == Seq::<(Seq<char>, Seq<u8>)>::empty(),
    {
        ZipBuilder { writer: zip::ZipWriter::new(std::io::Cursor::new(Vec::new())) }
    }

    /// Relies on zip::ZipWriter::start_file: on success it begins a
    /// new, empty entry under the given name, after all earlier ones.
    #[verifier::external_body]
    fn start_entry(&mut self, name: &str) -> (r: Result<(), zip::result::ZipError>)
        ensures
            r is Ok ==> archive_entries(*final(self)) == archive_entries(*old(self)).push(
                (name@, Seq::<u8>::empty()),
            ),
    {
        self.writer.start_file(name, zip::write::SimpleFileOptions::default())
    }

    /// Relies on the std::io::Write impl of zip::ZipWriter
    /// (write_all): on success the bytes are appended to the entry
    /// most recently started.
    #[verifier::external_body]
    fn append_bytes(&mut self, bytes: &[u8]) -> (r: Result<(), zip::result::ZipError>)
        requires
            archive_entries(*old(self)).len() > 0,
        ensures
            r is Ok ==> archive_entries(*final(self)) == archive_entries(*old(self)).update(
                archive_entries(*old(self)).len() - 1,
                (
                    archive_entries(*old(self)).last().0,
                    archive_entries(*old(self)).last().1 + bytes@,
                ),
            ),
    {
        match std::io::Write::write_all(&mut self.writer, bytes) {
            Ok(()) => Ok(()),
            Err(e) => Err(zip::result::ZipError::from(e)),
        }
    }

    /// Relies on zip::ZipWriter::finish: closes the archive and hands
    /// back the bytes of the whole container.
    #[verifier::external_body]
    fn into_bytes(self) -> (r: Result<Vec<u8>, zip::result::ZipError>)
    {
        match self.writer.finish() {
            Ok(cursor) => Ok(cursor.into_inner()),
            Err(e) => Err(e),
        }
    }
}

/// Streams the manifest document and then every model's image into
/// the builder: first an `index.json` entry holding the given
/// document bytes, then one image entry per model, in model order. A
/// model without animations but with more than one frame aborts with
/// a Validation error before its entry is started.
pub fn fill_archive(
    z: ZipBuilder,
    index_json: &Vec<u8>,
    atlas: &WLAtlas,
    images: &Vec<Vec<u8>>,
) -> (r: Result<ZipBuilder, PackError>)
    requires
        images@.len() == atlas.models@.len(),
    ensures
        r matches Ok(zb) ==> archive_entries(zb) == archive_entries(z).push(
            ("index.json"@, index_json@),
        ) + image_entries(atlas.models@, images.deep_view()),
        r is Ok ==> forall|j: int|
            0 <= j < atlas.models@.len() ==> (#[trigger] atlas.models@[j]).packable(),
        (exists|j: int| 0 <= j < atlas.models@.len() && !(#[trigger] atlas.models@[j]).packable())
            ==> r is Err,
        r matches Err(e) ==> (e is Validation || e is Archive),
        r matches Err(e) ==> (e matches PackError::Validation {
            model_id: mid,
            frame_count: fc,
            animation_count: ac,
        } ==> exists|j: int|
            {
                &&& 0 <= j < atlas.models@.len()
                &&& !(#[trigger] atlas.models@[j]).packable()
                &&& mid@ == atlas.models@[j].model_id@
                &&& fc == atlas.models@[j].frames@.len()
                &&& ac == 0
                &&& forall|k: int| 0 <= k < j ==> atlas.models@[k].packable()
            }),
{
    let ghost e0 = archive_entries(z);
    let mut b = z;
    match b.start_entry("index.json") {
        Ok(_) => {
        },
        Err(e) => {
            return Err(PackError::Archive(e));
        },
    }
    match b.append_bytes(index_json.as_slice()) {
        Ok(_) => {
        },
        Err(e) => {
            return Err(PackError::Archive(e));
        },
    }
    proof {
        assert(Seq::<u8>::empty() + index_json@ =~= index_json@);
        assert(archive_entries(b) =~= e0.push(("index.json"@, index_json@)));
    }
    let ghost base = e0.push(("index.json"@, index_json@));
    let n = atlas.models.len();
    let mut i: usize = 0;
    while i < n
        invariant
            n == atlas.models@.len(),
            images@.len() == n,
            i <= n,
            archive_entries(b) == base + image_entries(
                atlas.models@.take(i as int),
                images.deep_view().take(i as int),
            ),
            forall|k: int| 0 <= k < i ==> (#[trigger] atlas.models@[k]).packable(),
        decreases n - i,
    {
        let model = &atlas.models[i];
        if model.animations.len() == 0 && model.frames.len() > 1 {
            return Err(
                PackError::Validation {
                    model_id: model.model_id.clone(),
                    frame_count: model.frames.len(),
                    animation_count: 0,
                },
            );
        }
        let name = model.model_id.clone().concat(".png");
        let ghost e_before = archive_entries(b);
        match b.start_entry(name.as_str()) {
            Ok(_) => {
            },
            Err(e) => {
                return Err(PackError::Archive(e));
            },
        }
        match b.append_bytes(images[i].as_slice()) {
            Ok(_) => {
            },
            Err(e) => {
                return Err(PackError::Archive(e));
            },
        }
        proof {
            assert(Seq::<u8>::empty() + images@[i as int]@ =~= images@[i as int]@);
            assert(archive_entries(b) =~= e_before.push((name@, images@[i as int]@)));
            assert(images.deep_view()[i as int] =~= images@[i as int]@);
            assert(archive_entries(b) =~= base + image_entries(
                atlas.models@.take(i + 1),
                images.deep_view().take(i + 1),
            ));
        }
        i = i + 1;
    }
    proof {
        assert(atlas.models@.take(n as int) =~= atlas.models@);
        assert(images.deep_view().take(n as int) =~= images.deep_view());
    }
    Ok(b)
}

/// Packages a whole run's output: the manifest document bytes plus
/// one image per model, positionally matched, as the bytes of one
/// zip archive. An archive is only produced when every model's
/// animation coverage is consistent with its frame count.
pub fn write_zip(index_json: &Vec<u8>, atlas: &WLAtlas, images: &Vec<Vec<u8>>) -> (r: Result<
    Vec<u8>,
    PackError,
>)
    requires
        images@.len() == atlas.models@.len(),
    ensures
        r is Ok ==> forall|j: int|
            0 <= j < atlas.models@.len() ==> (#[trigger] atlas.models@[j]).packable(),
        (exists|j: int| 0 <= j < atlas.models@.len() && !(#[trigger] atlas.models@[j]).packable())
            ==> r is Err,
        r matches Err(e) ==> (e is Validation || e is Archive),
        r matches Err(e) ==> (e matches PackError::Validation {
            model_id: mid,
            frame_count: fc,
            animation_count: ac,
        } ==> exists|j: int|
            {
                &&& 0 <= j < atlas.models@.len()
                &&& !(#[trigger] atlas.models@[j]).packable()
                &&& mid@ == atlas.models@[j].model_id@
                &&& fc == atlas.models@[j].frames@.len()
                &&& ac == 0
                &&& forall|k: int| 0 <= k < j ==> atlas.models@[k].packable()
            }),
{
    let builder = ZipBuilder::new();
    let filled = match fill_archive(builder, index_json, atlas, images) {
        Ok(zb) => zb,
        Err(e) => {
            return Err(e);
        },
    };
    match filled.into_bytes() {
        Ok(bytes) => Ok(bytes),
        Err(e) => Err(PackError::Archive(e)),
    }
}

} // verus!
