//! The computing half of image loading: deciding which files count as
//! supported images, stepping through the image list, encoding an image for
//! the presentation layer, and reading the year a photo was taken from its
//! metadata.
//!
//! All file-system and dialog work stays outside this library; these
//! functions take the plain values that work produced (existence flags,
//! path strings, file bytes) and make the decisions.

use vstd::prelude::*;

use crate::common::{ImageWithMeta, RevealState};

verus! {

/// A folder probe usable as an image source: it exists, is a directory, and
/// listing it found a first entry (`first_entry_found` is `None` when the
/// listing itself failed).
pub fn exists_is_dir_and_non_empty(
    exists: bool,
    is_dir: bool,
    first_entry_found: Option<bool>,
) -> (r: bool)
    ensures
        r == (exists && is_dir && first_entry_found == Some(true)),
{
    exists && is_dir && match first_entry_found {
        Some(found) => found,
        None => false,
    }
}

/// Steps the current image index by `update` (which may be negative),
/// wrapping around the image list of length `len` in both directions.
pub fn next_image_index(current: usize, update: isize, len: usize) -> (r: usize)
    requires
        1 <= len <= isize::MAX,
        current < len,
        current + update <= isize::MAX,
        isize::MIN < update,
    ensures
        r < len,
        r == (current + update) % (len as int),
{
    if update >= 0 {
        (current + update as usize) % len
    } else {
        let d = (-update) as usize;
        let dm = d % len;
        let r = (current + len - dm) % len;
        proof {
            let l = len as int;
            let s = current + update;
            vstd::arithmetic::div_mod::lemma_fundamental_div_mod(d as int, l);
            vstd::arithmetic::div_mod::lemma_mod_bound(d as int, l);
            assert(current + len - dm == l * (d as int / l + 1) + s) by (nonlinear_arith)
                requires
                    d == l * (d as int / l) + dm,
                    s == current - d,
                    l == len;
            vstd::arithmetic::div_mod::lemma_mod_multiples_vanish(d as int / l + 1, s, l);
        }
        r
    }
}

/// Steps the application state to another image: moves the current index
/// by `update`, wrapping around the list, and hands back the path now on
/// display.  An empty image list stays untouched and yields nothing; the
/// caller then falls back to its bundled example images.
pub fn advance_image(state: &mut RevealState, update: isize) -> (r: Option<String>)
    requires
        old(state).wf(),
        isize::MIN < update,
        old(state).image_index + update <= isize::MAX,
    ensures
        final(state).wf(),
        final(state).images@ == old(state).images@,
        final(state).settings == old(state).settings,
        old(state).images@.len() == 0 ==> r is None && final(state).image_index == old(
            state,
        ).image_index,
        old(state).images@.len() > 0 ==> {
            &&& final(state).image_index == (old(state).image_index + update) % (old(
                state,
            ).images@.len() as int)
            &&& r == Some(old(state).images@[final(state).image_index as int])
        },
{
    if state.images.len() == 0 {
        return None;
    }
    let new_index = next_image_index(state.image_index, update, state.images.len());
    state.image_index = new_index;
    Some(state.images[new_index].clone())
}

/// The lowercase form of `s`, as `str::to_lowercase` computes it.
pub uninterp spec fn lower_of(s: Seq<char>) -> Seq<char>;

/// Relies on `str::to_lowercase`: the result depends on the characters
/// alone.
#[verifier::external_body]
fn lowercase(s: &String) -> (r: String)
    ensures
        r@ == lower_of(s@),
{
    s.to_lowercase()
}

/// The file extensions accepted as images.
pub open spec fn is_supported_extension(s: Seq<char>) -> bool {
    ||| s == "jpg"@
    ||| s == "jpeg"@
    ||| s == "png"@
    ||| s == "webp"@
    ||| s == "gif"@
    ||| s == "svg"@
}

/// Whether `s` is one of the supported image extensions, compared exactly.
pub fn extension_in_list(s: &String) -> (r: bool)
    ensures
        r == is_supported_extension(s@),
{
    s.eq(&"jpg".to_owned()) || s.eq(&"jpeg".to_owned()) || s.eq(&"png".to_owned()) || s.eq(
        &"webp".to_owned(),
    ) || s.eq(&"gif".to_owned()) || s.eq(&"svg".to_owned())
}

/// Whether `ext` names a supported image type, ignoring case.
pub fn supported_image_extension(ext: &String) -> (r: bool)
    ensures
        r == is_supported_extension(lower_of(ext@)),
{
    let lower = lowercase(ext);
    extension_in_list(&lower)
}

/// One file found while scanning for images: its path, whether it is a
/// regular file, and its extension if it has one.
#[derive(Debug, Clone)]
pub struct ImageCandidate {
    pub path: String,
    pub is_file: bool,
    pub extension: Option<String>,
}

impl ImageCandidate {
    /// The candidate passes the image filter: a regular file whose
    /// extension, lowercased, is a supported image extension.
    pub open spec fn supported(self) -> bool {
        &&& self.is_file
        &&& self.extension is Some
        &&& is_supported_extension(lower_of(self.extension->0@))
    }
}

/// The paths of the candidates that pass the image filter, in order.
pub open spec fn supported_paths(s: Seq<ImageCandidate>) -> Seq<String>
    decreases s.len(),
{
    if s.len() == 0 {
        Seq::empty()
    } else {
        let pre = supported_paths(s.drop_last());
        if s.last().supported() {
            pre.push(s.last().path)
        } else {
            pre
        }
    }
}

/// Keeps the paths of those candidates that are supported images: regular
/// files with a supported extension, compared case-insensitively.
pub fn filter_to_supported_images(items: &Vec<ImageCandidate>) -> (r: Vec<String>)
    ensures
        r@ == supported_paths(items@),
{
    let mut r: Vec<String> = Vec::new();
    let mut i: usize = 0;
    while i < items.len()
        invariant
            i <= items@.len(),
            r@ == supported_paths(items@.take(i as int)),
        decreases items@.len() - i,
    {
        let c = &items[i];
        let keep = c.is_file && match &c.extension {
            Some(e) => supported_image_extension(e),
            None => false,
        };
        if keep {
            r.push(c.path.clone());
        }
        proof {
            assert(items@.take(i + 1).drop_last() =~= items@.take(i as int));
            assert(items@.take(i + 1).last() == items@[i as int]);
        }
        i = i + 1;
    }
    proof {
        assert(items@.take(items@.len() as int) =~= items@);
    }
    r
}

/// Where the next image scan should load from, in falling priority.
#[derive(Debug, Clone, Copy, PartialEq, Eq, Structural)]
pub enum ImageSourceChoice {
    /// The folder remembered from the last run.
    StoredFolder,
    /// The `reveal` folder inside the user's pictures.
    PicturesReveal,
    /// The platform-specific fallback folder.
    PlatformFolder,
    /// No folder is usable: ask the user to pick one.
    AskUser,
}

/// Picks the image source: the remembered folder when it is still usable,
/// then the `reveal` folder in the user's pictures, then the
/// platform-specific folder, and as a last resort a user dialog.
pub fn choose_image_source(stored_ok: bool, pictures_ok: bool, platform_ok: bool) -> (r:
    ImageSourceChoice)
    ensures
        r == (if stored_ok {
            ImageSourceChoice::StoredFolder
        } else if pictures_ok {
            ImageSourceChoice::PicturesReveal
        } else if platform_ok {
            ImageSourceChoice::PlatformFolder
        } else {
            ImageSourceChoice::AskUser
        }),
{
    if stored_ok {
        ImageSourceChoice::StoredFolder
    } else if pictures_ok {
        ImageSourceChoice::PicturesReveal
    } else if platform_ok {
        ImageSourceChoice::PlatformFolder
    } else {
        ImageSourceChoice::AskUser
    }
}

/// The standard base64 encoding of `bytes`, with padding.
pub uninterp spec fn b64_of(bytes: Seq<u8>) -> Seq<char>;

/// Relies on base64's `Engine::encode` with the `STANDARD` engine: the
/// padded encoding is a pure function of the bytes, four output characters
/// for every started group of three input bytes.
#[verifier::external_body]
fn base64_encode(bytes: &Vec<u8>) -> (r: String)
    ensures
        r@ == b64_of(bytes@),
        r@.len() == 4 * ((bytes@.len() + 2) / 3),
{
    base64::engine::Engine::encode(&base64::engine::general_purpose::STANDARD, bytes.as_slice())
}

/// The `DateTimeOriginal` field of the image's metadata, as its display
/// string, if the bytes carry one.
pub uninterp spec fn exif_datetime_str(bytes: Seq<u8>) -> Option<Seq<char>>;

/// Relies on the exif reader (`Reader::read_from_container`, `get_field`
/// with the primary `DateTimeOriginal` tag, and the field's display form):
/// parsing in-memory bytes, a pure function of the bytes.
#[verifier::external_body]
fn exif_datetime_string(bytes: &Vec<u8>) -> (r: Option<String>)
    ensures
        r is Some <==> exif_datetime_str(bytes@) is Some,
        r matches Some(s) ==> exif_datetime_str(bytes@) == Some(s@),
{
    let mut cursor = std::io::Cursor::new(bytes.as_slice());
    exif::Reader::new().read_from_container(&mut cursor).ok().and_then(
        |data| data.get_field(exif::Tag::DateTimeOriginal, exif::In::PRIMARY).map(
            |field| field.display_value().to_string(),
        ),
    )
}

/// The year of a metadata timestamp in the display format
/// `YYYY-MM-DD hh:mm:ss`, or `None` where the string does not parse.
pub uninterp spec fn parsed_year(s: Seq<char>) -> Option<i64>;

/// Relies on chrono's `NaiveDateTime::parse_from_str` with the fixed format
/// `%Y-%m-%d %H:%M:%S` and on `Datelike::year`: both depend on the string
/// alone.
#[verifier::external_body]
fn datetime_parse_year(s: &String) -> (r: Option<i64>)
    ensures
        r == parsed_year(s@),
{
    chrono::NaiveDateTime::parse_from_str(s.as_str(), "%Y-%m-%d %H:%M:%S").ok().map(
        |dt| chrono::Datelike::year(&dt) as i64,
    )
}

/// The year the image with these bytes was taken, according to its
/// metadata: the parsed year of its `DateTimeOriginal` display string.
pub open spec fn exif_year_of(bytes: Seq<u8>) -> Option<i64> {
    match exif_datetime_str(bytes) {
        Some(s) => parsed_year(s),
        None => None,
    }
}

/// Reads the year an image was taken from its metadata, if it is there and
/// parses.
pub fn read_exif(bytes: &Vec<u8>) -> (r: Option<i64>)
    ensures
        r == exif_year_of(bytes@),
{
    match exif_datetime_string(bytes) {
        Some(s) => datetime_parse_year(&s),
        None => None,
    }
}

/// The MIME subtype for a file extension: IANA knows `jpeg` rather than
/// `jpg`, `svg` needs the `+xml` suffix, any other extension is used as it
/// is, and a missing one falls back to `png`, which browsers forgive.
pub open spec fn image_type_spec(extension: &Option<String>) -> Seq<char> {
    match extension {
        None => "png"@,
        Some(e) => if e@ == "jpg"@ {
            "jpeg"@
        } else if e@ == "svg"@ {
            "svg+xml"@
        } else {
            e@
        },
    }
}

/// The MIME subtype for a file extension, as `image_type_spec` gives it.
pub fn image_type_for_extension(extension: &Option<String>) -> (r: String)
    ensures
        r@ == image_type_spec(extension),
{
    match extension {
        None => "png".to_owned(),
        Some(e) => {
            if e.eq(&"jpg".to_owned()) {
                "jpeg".to_owned()
            } else if e.eq(&"svg".to_owned()) {
                "svg+xml".to_owned()
            } else {
                e.clone()
            }
        },
    }
}

/// Packs raw image bytes for the presentation layer: base64-encodes them,
/// derives the MIME subtype from the file extension, and attaches the year
/// the image was taken, read from the metadata in the bytes.
pub fn build_image_with_meta(bytes: &Vec<u8>, extension: &Option<String>) -> (r: ImageWithMeta)
    ensures
        r.base64@ == b64_of(bytes@),
        r.date_taken == exif_year_of(bytes@),
        r.image_type@ == image_type_spec(extension),
{
    ImageWithMeta {
        base64: base64_encode(bytes),
        image_type: image_type_for_extension(extension),
        date_taken: read_exif(bytes),
    }
}

} // verus!
