//! Classification of filesystem entries by extension, and the
//! source-group key derived from a file name's stem.

use vstd::prelude::*;
use crate::strutil::{
    spec_lower, spec_file_name, spec_extension, spec_stem, str_to_chars, lower_chars,
    find_last_char, chars_subrange, chars_to_string,
};

verus! {

/// A scanned file, split by whether its extension belongs to the fixed
/// recognized set of media and sidecar formats.
pub enum MediaFile {
    Recognized { path: String, extension: String },
    Unrecognized { path: String, extension: String },
}

/// The fixed, case-insensitive allow-list of media and sidecar
/// extensions: common image formats, camera raw formats, video
/// containers, and the photo-edit sidecar format.
pub open spec fn is_recognized_ext(e: Seq<char>) -> bool {
    ||| e == "heic"@
    ||| e == "heif"@
    ||| e == "jpeg"@
    ||| e == "jpg"@
    ||| e == "png"@
    ||| e == "tiff"@
    ||| e == "tif"@
    ||| e == "webp"@
    ||| e == "bmp"@
    ||| e == "gif"@
    ||| e == "avif"@
    ||| e == "cr2"@
    ||| e == "cr3"@
    ||| e == "nef"@
    ||| e == "arw"@
    ||| e == "raf"@
    ||| e == "rw2"@
    ||| e == "dng"@
    ||| e == "orf"@
    ||| e == "pef"@
    ||| e == "srw"@
    ||| e == "3fr"@
    ||| e == "mov"@
    ||| e == "mp4"@
    ||| e == "m4v"@
    ||| e == "avi"@
    ||| e == "mkv"@
    ||| e == "3gp"@
    ||| e == "aae"@
}

fn is_recognized(e: &str) -> (r: bool)
    ensures
        r == is_recognized_ext(e@),
{
    crate::strutil::str_eq(e, "heic") || crate::strutil::str_eq(e, "heif")
        || crate::strutil::str_eq(e, "jpeg") || crate::strutil::str_eq(e, "jpg")
        || crate::strutil::str_eq(e, "png") || crate::strutil::str_eq(e, "tiff")
        || crate::strutil::str_eq(e, "tif") || crate::strutil::str_eq(e, "webp")
        || crate::strutil::str_eq(e, "bmp") || crate::strutil::str_eq(e, "gif")
        || crate::strutil::str_eq(e, "avif") || crate::strutil::str_eq(e, "cr2")
        || crate::strutil::str_eq(e, "cr3") || crate::strutil::str_eq(e, "nef")
        || crate::strutil::str_eq(e, "arw") || crate::strutil::str_eq(e, "raf")
        || crate::strutil::str_eq(e, "rw2") || crate::strutil::str_eq(e, "dng")
        || crate::strutil::str_eq(e, "orf") || crate::strutil::str_eq(e, "pef")
        || crate::strutil::str_eq(e, "srw") || crate::strutil::str_eq(e, "3fr")
        || crate::strutil::str_eq(e, "mov") || crate::strutil::str_eq(e, "mp4")
        || crate::strutil::str_eq(e, "m4v") || crate::strutil::str_eq(e, "avi")
        || crate::strutil::str_eq(e, "mkv") || crate::strutil::str_eq(e, "3gp")
        || crate::strutil::str_eq(e, "aae")
}

/// The lowercased extension a path classifies by.
pub open spec fn spec_class_ext(path: Seq<char>) -> Seq<char> {
    spec_lower(spec_extension(spec_file_name(path)))
}

/// Extracts the final path component's extension, lowercased.
pub fn path_extension_lower(path: &str) -> (r: String)
    ensures
        r@ == spec_class_ext(path@),
{
    let chars = str_to_chars(path);
    let n = chars.len();
    let name_start: usize = match find_last_char(&chars, '/') {
        Some(i) => i + 1,
        None => 0,
    };
    let name = chars_subrange(&chars, name_start, n);
    proof {
        match chars@.index_of_last('/') {
            Some(i) => {
                assert(name@ == spec_file_name(path@));
            },
            None => {
                assert(chars@.subrange(0, chars@.len() as int) =~= chars@);
                assert(name@ == spec_file_name(path@));
            },
        }
    }
    let ext = match find_last_char(&name, '.') {
        Some(i) => {
            if i > 0 {
                chars_subrange(&name, i + 1, name.len())
            } else {
                Vec::new()
            }
        },
        None => Vec::new(),
    };
    proof {
        assert(ext@ == spec_extension(name@));
    }
    let lowered = lower_chars(&ext);
    chars_to_string(&lowered)
}

/// Classifies a path: `Recognized` exactly when the lowercased
/// extension of its final component is in the fixed allow-list.
pub fn classify_file(path: &str) -> (r: MediaFile)
    ensures
        match r {
            MediaFile::Recognized { path: p, extension: e } => {
                &&& p@ == path@
                &&& e@ == spec_class_ext(path@)
                &&& is_recognized_ext(e@)
            },
            MediaFile::Unrecognized { path: p, extension: e } => {
                &&& p@ == path@
                &&& e@ == spec_class_ext(path@)
                &&& !is_recognized_ext(e@)
            },
        },
        r is Recognized <==> is_recognized_ext(spec_class_ext(path@)),
{
    let extension = path_extension_lower(path);
    let p = crate::strutil::str_to_chars(path);
    let path_copy = crate::strutil::chars_to_string(&p);
    if is_recognized(extension.as_str()) {
        MediaFile::Recognized { path: path_copy, extension }
    } else {
        MediaFile::Unrecognized { path: path_copy, extension }
    }
}

/// The source-group key of a file name: its non-empty stem, used to
/// cluster files captured together (for example a photo and its paired
/// video).
pub fn extract_source_group(filename: &str) -> (r: Option<String>)
    ensures
        match r {
            Some(g) => {
                &&& g@ == spec_stem(spec_file_name(filename@))
                &&& g@.len() > 0
            },
            None => spec_stem(spec_file_name(filename@)).len() == 0,
        },
{
    let chars = str_to_chars(filename);
    let n = chars.len();
    let name_start: usize = match find_last_char(&chars, '/') {
        Some(i) => i + 1,
        None => 0,
    };
    let name = chars_subrange(&chars, name_start, n);
    proof {
        match chars@.index_of_last('/') {
            Some(i) => {
                assert(name@ == spec_file_name(filename@));
            },
            None => {
                assert(chars@.subrange(0, chars@.len() as int) =~= chars@);
                assert(name@ == spec_file_name(filename@));
            },
        }
    }
    let stem = match find_last_char(&name, '.') {
        Some(i) => {
            if i > 0 {
                chars_subrange(&name, 0, i)
            } else {
                chars_subrange(&name, 0, name.len())
            }
        },
        None => chars_subrange(&name, 0, name.len()),
    };
    proof {
        assert(name@.subrange(0, name@.len() as int) =~= name@);
        assert(stem@ == spec_stem(name@));
    }
    if stem.len() == 0 {
        None
    } else {
        Some(chars_to_string(&stem))
    }
}

} // verus!
