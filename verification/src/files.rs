//! The data model of the file upload pipeline: image transformations,
//! output formats, upload descriptors, and the pure decisions (media type
//! detection) that the surrounding I/O shell relies on.

use vstd::prelude::*;

use crate::text::str_eq;
use crate::text::str_starts_with;

verus! {

/// A clockwise rotation applied to an image.
#[derive(Clone, Copy, Debug, PartialEq, Eq)]
pub enum ImageRotation {
    Degree90,
    Degree180,
    Degree270,
}

/// A mirror flip applied to an image.
#[derive(Clone, Copy, Debug, PartialEq, Eq)]
pub enum ImageFlip {
    Horizontal,
    Vertical,
}

/// One transformation step of an image pipeline.
#[derive(Clone, Copy, Debug, PartialEq, Eq)]
pub enum ImageTransformation {
    RotateClockwise(ImageRotation),
    Flip(ImageFlip),
}

/// The encoding an image is written back in.
#[derive(Clone, Copy, Debug, PartialEq, Eq)]
pub enum ImageOutputFormat {
    Jpeg,
    Png,
}

impl ImageOutputFormat {
    /// The media type this format is named by.
    pub fn as_mime(self) -> (r: &'static str)
        ensures
            r@ == spec_mime_name(self),
    {
        match self {
            ImageOutputFormat::Jpeg => "image/jpeg",
            ImageOutputFormat::Png => "image/png",
        }
    }

    /// The output format a media type names, if any.
    pub fn from_mime(mime: &str) -> (r: Option<Self>)
        ensures
            r == spec_format_of_mime(mime@),
    {
        if str_eq(mime, "image/jpeg") {
            Some(ImageOutputFormat::Jpeg)
        } else if str_eq(mime, "image/png") {
            Some(ImageOutputFormat::Png)
        } else {
            None
        }
    }
}

/// The media type of an output format.
pub open spec fn spec_mime_name(f: ImageOutputFormat) -> Seq<char> {
    match f {
        ImageOutputFormat::Jpeg => "image/jpeg"@,
        ImageOutputFormat::Png => "image/png"@,
    }
}

/// The output format a media type names.
pub open spec fn spec_format_of_mime(mime: Seq<char>) -> Option<ImageOutputFormat> {
    if mime == "image/jpeg"@ {
        Some(ImageOutputFormat::Jpeg)
    } else if mime == "image/png"@ {
        Some(ImageOutputFormat::Png)
    } else {
        None
    }
}

/// Naming a format and parsing the name returns the format (round trip).
pub proof fn lemma_mime_round_trip(f: ImageOutputFormat)
    ensures
        spec_format_of_mime(spec_mime_name(f)) == Some(f),
{
    reveal_strlit("image/jpeg");
    reveal_strlit("image/png");
    assert("image/jpeg"@.len() != "image/png"@.len());
}

/// The declared shape of one image pipeline: an optional output format,
/// optional output dimensions and an ordered list of transformations.
#[derive(Debug, PartialEq, Eq)]
pub struct ImagePipeline {
    pub output_format: Option<ImageOutputFormat>,
    pub dimensions: Option<Vec<(u32, u32)>>,
    pub transformations: Option<Vec<ImageTransformation>>,
}

/// The pipeline applied to one uploaded file, by media kind.
#[derive(Debug, PartialEq, Eq)]
pub enum FileTransformPipeline {
    Image(ImagePipeline),
}

/// One stored file with the artifacts derived from it.
#[derive(Debug, PartialEq, Eq)]
pub struct FileUpload {
    pub key: String,
    pub url: String,
    pub artifacts: Option<Vec<FileUpload>>,
}

/// The response of a file upload request.
#[derive(Debug, PartialEq, Eq)]
pub struct FilesUploadResponse {
    pub message: String,
    pub files: Vec<FileUpload>,
}

/// A file received into local scratch space, before it is stored.
#[derive(Debug, PartialEq, Eq)]
pub struct LocalFile {
    pub key: String,
    pub path: String,
    pub content_type: Option<String>,
}

impl LocalFile {
    /// Describes a received file.
    pub fn new(key: String, path: String, content_type: Option<String>) -> (r: Self)
        ensures
            r.key == key,
            r.path == path,
            r.content_type == content_type,
    {
        LocalFile { key, path, content_type }
    }

    /// Whether the declared content type names an image.
    pub fn is_image(&self) -> (r: bool)
        ensures
            r == match self.content_type {
                Some(ct) => ct@.len() >= "image/"@.len() && ct@.subrange(0, "image/"@.len() as int)
                    == "image/"@,
                None => false,
            },
    {
        match &self.content_type {
            Some(ct) => str_starts_with(ct.as_str(), "image/"),
            None => false,
        }
    }
}

/// Adapts a byte reader into a chunked byte stream; the surrounding I/O
/// shell drives it.
#[derive(Debug, PartialEq, Eq)]
pub struct BufferedBytesStream<R>(pub R);

impl<R> BufferedBytesStream<R> {
    /// Wraps a reader.
    pub fn new(reader: R) -> (r: Self)
        ensures
            r.0 == reader,
    {
        BufferedBytesStream(reader)
    }
}

} // verus!
