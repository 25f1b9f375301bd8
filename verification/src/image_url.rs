//! Where the bytes of an image come from: what a reference to an image is
//! taken for, and by which way its bytes are fetched.

use vstd::prelude::*;
use vstd::string::StringExecFns;

verus! {

/// What a reference to an image is taken for.
#[derive(Clone, Copy, PartialEq, Eq, Structural, Debug)]
pub enum UrlReading {
    /// The reference is a URL as it stands.
    AsUrl,
    /// The reference is the path of a file.
    AsFilePath,
    /// The reference is the image itself, in base 64.
    AsBase64,
}

/// The way by which the bytes of an image are fetched.
#[derive(Clone, Copy, PartialEq, Eq, Structural, Debug)]
pub enum ImageSource {
    /// Over HTTP, with or without TLS.
    Remote,
    /// From a file.
    LocalFile,
    /// Out of the URL itself, a data URL.
    Inline,
    /// By no way: the scheme is not served.
    Unsupported,
}

/// What a reference is taken for: a URL if it parses as one, else the path
/// of a file if there is such a file, else an image in base 64.
pub open spec fn reading_of(parses_as_url: bool, is_file: bool) -> UrlReading {
    if parses_as_url {
        UrlReading::AsUrl
    } else if is_file {
        UrlReading::AsFilePath
    } else {
        UrlReading::AsBase64
    }
}

/// The way that serves a scheme.
pub open spec fn source_of_scheme(scheme: Seq<char>) -> ImageSource {
    if scheme == "http"@ || scheme == "https"@ {
        ImageSource::Remote
    } else if scheme == "file"@ {
        ImageSource::LocalFile
    } else if scheme == "data"@ {
        ImageSource::Inline
    } else {
        ImageSource::Unsupported
    }
}

/// What a reference is taken for.
pub fn url_reading(parses_as_url: bool, is_file: bool) -> (reading: UrlReading)
    ensures
        reading == reading_of(parses_as_url, is_file),
{
    if parses_as_url {
        UrlReading::AsUrl
    } else if is_file {
        UrlReading::AsFilePath
    } else {
        UrlReading::AsBase64
    }
}

/// Whether two texts are the same.
fn same_text(a: &str, b: &str) -> (same: bool)
    ensures
        same == (a@ == b@),
{
    String::from_str(a) == String::from_str(b)
}

/// The way that serves the scheme of a URL.
pub fn image_source(scheme: &str) -> (source: ImageSource)
    ensures
        source == source_of_scheme(scheme@),
{
    if same_text(scheme, "http") || same_text(scheme, "https") {
        ImageSource::Remote
    } else if same_text(scheme, "file") {
        ImageSource::LocalFile
    } else if same_text(scheme, "data") {
        ImageSource::Inline
    } else {
        ImageSource::Unsupported
    }
}

/// The data URL of a PNG image given in base 64.
pub fn base64_png_url(encoded: &str) -> (url: String)
    ensures
        url@ == "data:image/png;base64,"@ + encoded@,
{
    String::from_str("data:image/png;base64,").concat(encoded)
}

} // verus!
