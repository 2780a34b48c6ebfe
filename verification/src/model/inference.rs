//! Images for vision models, and the types of an inference exchange: handles of
//! loaded models, their configuration, and the output of a request.
use vstd::prelude::*;
use vstd::utf8::encode_utf8;
use crate::encoding::{self, base64_standard_decode, base64_text};
use crate::error::FuseError;
use crate::text::{self, lowercase};

verus! {

/// Supported image formats.
#[derive(Debug, Clone, Copy, PartialEq, Eq, Structural)]
pub enum ImageFormat {
    Png,
    Jpg,
    Gif,
    WebP,
}

/// The format a (lowercase) file extension names.
pub open spec fn format_of_extension(e: Seq<char>) -> Option<ImageFormat> {
    if e == "png"@ {
        Some(ImageFormat::Png)
    } else if e == "jpg"@ || e == "jpeg"@ {
        Some(ImageFormat::Jpg)
    } else if e == "gif"@ {
        Some(ImageFormat::Gif)
    } else if e == "webp"@ {
        Some(ImageFormat::WebP)
    } else {
        None
    }
}

/// The format a (lowercase) MIME type names.
pub open spec fn format_of_mime(m: Seq<char>) -> Option<ImageFormat> {
    if m == "image/png"@ {
        Some(ImageFormat::Png)
    } else if m == "image/jpeg"@ || m == "image/jpg"@ {
        Some(ImageFormat::Jpg)
    } else if m == "image/gif"@ {
        Some(ImageFormat::Gif)
    } else if m == "image/webp"@ {
        Some(ImageFormat::WebP)
    } else {
        None
    }
}

pub open spec fn mime_of(f: ImageFormat) -> Seq<char> {
    match f {
        ImageFormat::Png => "image/png"@,
        ImageFormat::Jpg => "image/jpeg"@,
        ImageFormat::Gif => "image/gif"@,
        ImageFormat::WebP => "image/webp"@,
    }
}

/// Reading back the MIME type of a format, in any case, gives the format.
pub proof fn lemma_mime_round_trip(f: ImageFormat)
    ensures
        text::ascii_only(mime_of(f)),
        format_of_mime(text::ascii_lower(mime_of(f))) == Some(f),
{
    reveal_strlit("image/png");
    reveal_strlit("image/jpeg");
    reveal_strlit("image/jpg");
    reveal_strlit("image/gif");
    reveal_strlit("image/webp");
    let m = mime_of(f);
    text::lemma_ascii_lower_keeps(m);
    assert(text::ascii_lower(m) == m);
    assert("image/gif"@[6] != "image/png"@[6]);
    assert("image/gif"@[6] != "image/jpg"@[6]);
    assert("image/png"@[6] != "image/jpg"@[6]);
    assert("image/jpeg"@[6] != "image/webp"@[6]);
}

impl ImageFormat {
    /// The MIME type of this format.
    pub fn mime_type(&self) -> (r: &'static str)
        ensures
            r@ == mime_of(*self),
    {
        match self {
            ImageFormat::Png => "image/png",
            ImageFormat::Jpg => "image/jpeg",
            ImageFormat::Gif => "image/gif",
            ImageFormat::WebP => "image/webp",
        }
    }

    /// The format of a file extension, in any case.
    pub fn from_extension(ext: &str) -> (r: Option<ImageFormat>)
        ensures
            r == format_of_extension(lowercase(ext@)),
            text::ascii_only(ext@) ==> r == format_of_extension(text::ascii_lower(ext@)),
    {
        let e = text::to_lowercase(ext);
        let e = e.as_str();
        if text::str_eq(e, "png") {
            Some(ImageFormat::Png)
        } else if text::str_eq(e, "jpg") || text::str_eq(e, "jpeg") {
            Some(ImageFormat::Jpg)
        } else if text::str_eq(e, "gif") {
            Some(ImageFormat::Gif)
        } else if text::str_eq(e, "webp") {
            Some(ImageFormat::WebP)
        } else {
            None
        }
    }

    /// The format of a MIME type, in any case.
    pub fn from_mime_type(mime: &str) -> (r: Option<ImageFormat>)
        ensures
            r == format_of_mime(lowercase(mime@)),
            text::ascii_only(mime@) ==> r == format_of_mime(text::ascii_lower(mime@)),
    {
        let m = text::to_lowercase(mime);
        let m = m.as_str();
        if text::str_eq(m, "image/png") {
            Some(ImageFormat::Png)
        } else if text::str_eq(m, "image/jpeg") || text::str_eq(m, "image/jpg") {
            Some(ImageFormat::Jpg)
        } else if text::str_eq(m, "image/gif") {
            Some(ImageFormat::Gif)
        } else if text::str_eq(m, "image/webp") {
            Some(ImageFormat::WebP)
        } else {
            None
        }
    }
}

/// Image metadata.
#[derive(Debug, Clone)]
pub struct ImageMetadata {
    /// Width in pixels.
    pub width: Option<u32>,
    /// Height in pixels.
    pub height: Option<u32>,
    /// File size in bytes.
    pub size_bytes: Option<u64>,
}

/// Image input for vision models: base64-encoded data in a format.
#[derive(Debug, Clone)]
pub struct Image {
    pub data: String,
    pub format: ImageFormat,
    pub metadata: Option<ImageMetadata>,
}

/// The largest encoded image accepted, in bytes (10 MiB).
pub const MAX_IMAGE_DATA_BYTES: usize = 10485760;

impl Image {
    /// An image from base64-encoded data, without metadata.
    pub fn new(data: String, format: ImageFormat) -> (r: Image)
        ensures
            r.data == data,
            r.format == format,
            r.metadata is None,
    {
        Image { data, format, metadata: None }
    }

    /// The image with the given metadata.
    pub fn with_metadata(self, metadata: ImageMetadata) -> (r: Image)
        ensures
            r.data == self.data,
            r.format == self.format,
            r.metadata == Some(metadata),
    {
        Image { data: self.data, format: self.format, metadata: Some(metadata) }
    }

    /// Validates the image: the data must be base64 and at most 10 MiB encoded.
    pub fn validate(&self) -> (r: Result<(), FuseError>)
        ensures
            base64_standard_decode(self.data@) is Err ==> (r matches Err(
                FuseError::ValidationError(m),
            ) && m@ == "Image data is not valid base64"@),
            base64_standard_decode(self.data@) is Ok && encode_utf8(self.data@).len()
                > MAX_IMAGE_DATA_BYTES ==> (r matches Err(FuseError::ValidationError(m)) && m@
                == "Image data exceeds maximum size of 10MB"@),
            base64_standard_decode(self.data@) is Ok && encode_utf8(self.data@).len()
                <= MAX_IMAGE_DATA_BYTES ==> r is Ok,
    {
        if encoding::base64_decode(self.data.as_str()).is_err() {
            return Err(FuseError::ValidationError(text::owned("Image data is not valid base64")));
        }
        let bytes = self.data.as_str().as_bytes();
        if bytes.len() > MAX_IMAGE_DATA_BYTES {
            return Err(
                FuseError::ValidationError(text::owned("Image data exceeds maximum size of 10MB")),
            );
        }
        Ok(())
    }

    /// The decoded image bytes; data that is not base64 is a validation error carrying
    /// the decoder's message. Data encoded from some bytes decodes to those bytes.
    pub fn decode(&self) -> (r: Result<Vec<u8>, FuseError>)
        ensures
            forall|b: Seq<u8>| self.data@ == base64_text(b) ==> (r matches Ok(v) && v@ == b),
            match base64_standard_decode(self.data@) {
                Ok(b) => r matches Ok(v) && v@ == b,
                Err(e) => r matches Err(FuseError::ValidationError(m)) && m@
                    == "Failed to decode image data: "@ + e,
            },
    {
        match encoding::base64_decode(self.data.as_str()) {
            Ok(v) => Ok(v),
            Err(e) => Err(
                FuseError::ValidationError(
                    text::concat2("Failed to decode image data: ", e.as_str()),
                ),
            ),
        }
    }

    /// The size of the decoded image in bytes.
    pub fn size_bytes(&self) -> (r: Result<usize, FuseError>)
        ensures
            match base64_standard_decode(self.data@) {
                Ok(b) => r == Ok::<usize, FuseError>(b.len() as usize),
                Err(e) => r matches Err(FuseError::ValidationError(m)) && m@
                    == "Failed to decode image data: "@ + e,
            },
    {
        let v = self.decode()?;
        Ok(v.len())
    }

    /// The image prepared for a vision model: its decoded bytes.
    pub fn preprocess(&self) -> (r: Result<Vec<u8>, FuseError>)
        ensures
            match base64_standard_decode(self.data@) {
                Ok(b) => r matches Ok(v) && v@ == b,
                Err(e) => r matches Err(FuseError::ValidationError(m)) && m@
                    == "Failed to decode image data: "@ + e,
            },
    {
        self.decode()
    }

    /// An image from a file's contents and extension: the format comes from the
    /// extension, the data is the contents in base64, and the metadata records the
    /// file size. An extension that names no format is a validation error naming the
    /// file.
    pub fn from_file_contents(contents: &[u8], extension: Option<&str>, path_text: &str) -> (r:
        Result<Image, FuseError>)
        ensures
            match extension {
                Some(e) if format_of_extension(lowercase(e@)) is Some => r matches Ok(img)
                    && img.format == format_of_extension(lowercase(e@))->0 && img.data@
                    == base64_text(contents@) && img.metadata == Some(
                    ImageMetadata {
                        width: None,
                        height: None,
                        size_bytes: Some(contents@.len() as u64),
                    },
                ),
                _ => r matches Err(FuseError::ValidationError(m)) && m@
                    == "Unsupported image format for file: "@ + path_text@,
            },
    {
        let format = match extension {
            Some(e) => ImageFormat::from_extension(e),
            None => None,
        };
        match format {
            Some(f) => {
                let data = encoding::base64_encode(contents);
                let n = contents.len() as u64;
                Ok(
                    Image {
                        data,
                        format: f,
                        metadata: Some(ImageMetadata { width: None, height: None, size_bytes: Some(n) }),
                    },
                )
            },
            None => Err(
                FuseError::ValidationError(
                    text::concat2("Unsupported image format for file: ", path_text),
                ),
            ),
        }
    }
}

/// Role of a message's sender.
#[derive(Debug, Clone, Copy, PartialEq, Eq, Structural)]
pub enum Role {
    User,
    Assistant,
    System,
}

/// Why inference finished.
#[derive(Debug, Clone, Copy, PartialEq, Eq, Structural)]
pub enum FinishReason {
    /// A natural stopping point.
    Stop,
    /// The token limit.
    Length,
    /// A stop sequence.
    StopSequence,
    /// The request was cancelled.
    Cancelled,
    /// An error.
    Error,
}

/// The token limit of a request that names none.
pub fn default_max_tokens() -> (r: usize)
    ensures
        r == 2048,
{
    2048
}

/// Configuration of a model.
#[derive(Debug, Clone)]
pub struct ModelConfig {
    /// Maximum context window size.
    pub max_context_length: usize,
    /// Model architecture type.
    pub architecture: String,
    /// Further model-specific parameters, as JSON.
    pub extra: serde_json::Value,
}

/// serde_json's empty JSON object (`{}`).
#[verifier::external_body]
pub(crate) fn empty_json_object() -> (r: serde_json::Value) {
    serde_json::Value::Object(serde_json::Map::new())
}

impl ModelConfig {
    /// The configuration of a model that has no configuration file: a 4096-token
    /// context, architecture `unknown`, no further parameters.
    pub fn fallback() -> (r: ModelConfig)
        ensures
            r.max_context_length == 4096,
            r.architecture@ == "unknown"@,
    {
        ModelConfig { max_context_length: 4096, architecture: text::owned("unknown"), extra: empty_json_object() }
    }
}

/// Handle to a loaded model.
#[derive(Debug, Clone)]
pub struct ModelHandle {
    /// Unique identifier of this model instance.
    pub id: String,
    /// Name of the model.
    pub model_name: String,
    /// When the model was loaded (ms since the epoch).
    pub loaded_at_ms: i64,
}

/// What is known of a loaded model.
#[derive(Debug, Clone)]
pub struct ModelInfo {
    pub name: String,
    pub handle_id: String,
    pub loaded_at_ms: i64,
    pub memory_usage_bytes: u64,
    pub config: ModelConfig,
    pub is_busy: bool,
}

/// Metadata of an inference.
#[derive(Debug, Clone)]
pub struct InferenceMetadata {
    /// Time taken, in milliseconds.
    pub inference_time_ms: u64,
    /// Why inference finished.
    pub finish_reason: FinishReason,
    /// Further metadata, as JSON.
    pub extra: serde_json::Value,
}

/// Output of an inference.
#[derive(Debug, Clone)]
pub struct InferenceOutput {
    /// Generated text.
    pub text: String,
    /// The text formatted (as markdown).
    pub formatted_text: String,
    /// Tokens in the prompt.
    pub prompt_tokens: usize,
    /// Tokens generated.
    pub completion_tokens: usize,
    /// Tokens in all.
    pub total_tokens: usize,
    /// The model used.
    pub model: String,
    /// When inference completed (ms since the epoch).
    pub timestamp_ms: i64,
    /// Metadata.
    pub metadata: Option<InferenceMetadata>,
}

} // verus!
