//! Finding the Huff files to compile.

use vstd::prelude::*;

use crate::text::{chars_eq, chars_of, string_of};

verus! {

/// The extension that `Path::extension` (std) gives for a path, as text; `None` for a path
/// without one.
pub uninterp spec fn path_extension(p: Seq<char>) -> Option<Seq<char>>;

/// `Path::new(filename).extension()` (std), as text.
///
/// Claims only that the result is the named extension of the path; the extension of a path
/// made from text is itself text, so the conversion back to text does not fail.
#[verifier::external_body]
fn extension_of(filename: &str) -> (r: Option<&str>)
    ensures
        r matches Some(e) ==> path_extension(filename@) == Some(e@),
        r is None ==> path_extension(filename@) is None,
{
    std::path::Path::new(filename).extension().and_then(|e| e.to_str())
}

/// Returns a file extension from a path as a string.
pub fn parse_extension(filename: &str) -> (r: Option<&str>)
    ensures
        r matches Some(e) ==> path_extension(filename@) == Some(e@),
        r is None ==> path_extension(filename@) is None,
{
    extension_of(filename)
}

/// Unpacking errors
#[derive(Debug, PartialEq, Eq, PartialOrd, Ord, Clone)]
pub enum UnpackError {
    /// The file extension is not supported.
    UnsupportedExtension(String),
    /// Failed to read directory
    InvalidDirectory(String),
    /// Missing File
    MissingFile(String),
}

/// `huff`
pub open spec fn huff_extension() -> Seq<char> {
    seq!['h', 'u', 'f', 'f']
}

/// The listed paths whose extension is `huff`, in order.
pub open spec fn huff_files(paths: Seq<String>) -> Seq<Seq<char>>
    decreases paths.len(),
{
    if paths.len() == 0 {
        Seq::empty()
    } else {
        huff_files(paths.drop_last()) + if path_extension(paths.last()@) == Some(huff_extension()) {
            seq![paths.last()@]
        } else {
            Seq::empty()
        }
    }
}

/// What unpacking a path gives: a path with the `huff` extension is the one file; a path
/// with another extension is refused; a path without one is a directory, whose listed
/// `huff` files are the files (`listing` is the directory's paths as read, `None` where it
/// could not be read).
pub open spec fn unpacked(path: Seq<char>, listing: Option<Seq<String>>) -> Result<Seq<Seq<char>>, UnpackError> {
    match path_extension(path) {
        Some(e) => if e == huff_extension() {
            Ok(seq![path])
        } else {
            Err(UnpackError::UnsupportedExtension(arbitrary()))
        },
        None => match listing {
            Some(ps) => Ok(huff_files(ps)),
            None => Err(UnpackError::InvalidDirectory(arbitrary())),
        },
    }
}

/// Unpacks huff files into a vec of strings.
///
/// A path without an extension is a directory: `listing` holds the paths read from it, or
/// `None` where it could not be read.
pub fn unpack_files(path: &str, listing: Option<Vec<String>>) -> (r: Result<Vec<String>, UnpackError>)
    ensures
        match r {
            Ok(fs) => unpacked(path@, opt_listing(listing)) == Ok::<Seq<Seq<char>>, UnpackError>(
                fs@.map_values(|s: String| s@),
            ),
            Err(UnpackError::UnsupportedExtension(p)) => p@ == path@ && unpacked(
                path@,
                opt_listing(listing),
            ) matches Err(UnpackError::UnsupportedExtension(_)),
            Err(UnpackError::InvalidDirectory(p)) => p@ == path@ && unpacked(
                path@,
                opt_listing(listing),
            ) matches Err(UnpackError::InvalidDirectory(_)),
            Err(UnpackError::MissingFile(_)) => false,
        },
{
    let huff = ['h', 'u', 'f', 'f'];
    proof {
        assert(huff@ =~= huff_extension());
    }
    match parse_extension(path) {
        Some(extension) => {
            if chars_eq(&chars_of(extension), &huff) {
                let mut v: Vec<String> = Vec::new();
                v.push(string_of(&chars_of(path)));
                assert(v@.map_values(|s: String| s@) =~= seq![path@]);
                return Ok(v);
            }
            Err(UnpackError::UnsupportedExtension(string_of(&chars_of(path))))
        },
        None => match listing {
            Some(files) => {
                let mut filtered: Vec<String> = Vec::new();
                let mut i: usize = 0;
                assert(files@.take(0) =~= Seq::<String>::empty());
                assert(filtered@.map_values(|s: String| s@) =~= huff_files(files@.take(0)));
                while i < files.len()
                    invariant
                        i <= files@.len(),
                        huff@ == huff_extension(),
                        filtered@.map_values(|s: String| s@) == huff_files(files@.take(i as int)),
                    decreases files.len() - i,
                {
                    proof {
                        let t = files@.take(i + 1);
                        assert(t.drop_last() =~= files@.take(i as int));
                        assert(t.last() == files@[i as int]);
                    }
                    let ghost before = filtered@.map_values(|s: String| s@);
                    let keep = match parse_extension(files[i].as_str()) {
                        Some(e) => chars_eq(&chars_of(e), &huff),
                        None => false,
                    };
                    if keep {
                        filtered.push(files[i].clone());
                        assert(filtered@.map_values(|s: String| s@) =~= before.push(files@[i as int]@));
                    } else {
                        assert(huff_files(files@.take(i + 1)) =~= huff_files(files@.take(i as int)));
                    }
                    i = i + 1;
                }
                assert(files@.take(files@.len() as int) =~= files@);
                Ok(filtered)
            },
            None => Err(UnpackError::InvalidDirectory(string_of(&chars_of(path)))),
        },
    }
}

/// A directory listing taken as a sequence.
pub open spec fn opt_listing(l: Option<Vec<String>>) -> Option<Seq<String>> {
    match l {
        Some(v) => Some(v@),
        None => None,
    }
}

} // verus!
