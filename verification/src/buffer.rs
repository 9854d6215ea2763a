//! Resolving the sources of buffers into bytes.
//!
//! A buffer is the binary blob of the document, an inline data URI, or a file beside
//! the document. The first two are resolved here. For the third the caller is told
//! what to read.
use crate::data_uri::{data_uri_bytes, data_uri_parts, DataUri};
use crate::loader::{ErrorKind, GltfError};
use vstd::prelude::*;

verus! {

/// Where the bytes of a buffer come from.
#[derive(Clone, Debug, PartialEq, Eq)]
pub enum BufferSource {
    /// The binary blob of the document.
    Bin,
    /// A URI, percent-encoded as the document has it.
    Uri(String),
}

/// What is to be done for a buffer.
#[derive(Clone, Debug, PartialEq, Eq)]
pub enum BufferStep {
    /// The bytes of the buffer.
    Loaded(Vec<u8>),
    /// The bytes are to be read from this path, taken relative to the directory of
    /// the document.
    Read(String),
}

/// What is to be done for a buffer, as mathematics.
pub enum BufferStepView {
    Loaded(Seq<u8>),
    Read(Seq<char>),
}

impl View for BufferStep {
    type V = BufferStepView;

    open spec fn view(&self) -> BufferStepView {
        match self {
            BufferStep::Loaded(bytes) => BufferStepView::Loaded(bytes@),
            BufferStep::Read(path) => BufferStepView::Read(path@),
        }
    }
}

/// What percent-decoding `uri` and reading the bytes as UTF-8 gives, or nothing where
/// the bytes are no UTF-8.
pub uninterp spec fn percent_decoded(uri: Seq<char>) -> Option<Seq<char>>;

/// Calls `percent_encoding::percent_decode_str` and `decode_utf8` on its result: every
/// `%` with two hexadecimal digits behind it becomes the byte they name, and the
/// bytes are read as UTF-8. The text, or its absence, depends on the URI alone.
#[verifier::external_body]
pub(crate) fn percent_decode(uri: &str) -> (r: Option<String>)
    ensures
        match r {
            Some(text) => percent_decoded(uri@) == Some(text@),
            None => percent_decoded(uri@) is None,
        },
{
    percent_encoding::percent_decode_str(uri).decode_utf8().ok().map(|text| text.into_owned())
}

/// The mime type is one that a buffer may have.
pub open spec fn is_buffer_mime_type(mime_type: Seq<char>) -> bool {
    mime_type == "application/octet-stream"@ || mime_type == "application/gltf-buffer"@
}

/// What is to be done for a buffer whose URI, percent-decoded, is `uri`: a data URI of
/// a buffer mime type gives its bytes, a data URI of another mime type is not
/// supported, and anything else is a path to read.
pub open spec fn uri_step(uri: Seq<char>) -> Result<BufferStepView, ErrorKind> {
    match data_uri_parts(uri) {
        Some(parts) => if is_buffer_mime_type(parts.mime_type) {
            match data_uri_bytes(parts) {
                Some(bytes) => Ok(BufferStepView::Loaded(bytes)),
                None => Err(ErrorKind::Base64Decode),
            }
        } else {
            Err(ErrorKind::BufferFormatUnsupported)
        },
        None => Ok(BufferStepView::Read(uri)),
    }
}

/// What is to be done for a buffer, or nothing where its URI does not decode.
pub open spec fn buffer_step(source: BufferSource, blob: Option<Vec<u8>>) -> Option<
    Result<BufferStepView, ErrorKind>,
> {
    match source {
        BufferSource::Bin => match blob {
            Some(bytes) => Some(Ok(BufferStepView::Loaded(bytes@))),
            None => Some(Err(ErrorKind::MissingBlob)),
        },
        BufferSource::Uri(uri) => match percent_decoded(uri@) {
            Some(decoded) => Some(uri_step(decoded)),
            None => None,
        },
    }
}

/// What a step returned, as mathematics.
pub open spec fn step_of(r: Result<BufferStep, GltfError>) -> Result<BufferStepView, ErrorKind> {
    match r {
        Ok(step) => Ok(step@),
        Err(e) => Err(e.kind()),
    }
}

/// Says what is to be done for a buffer whose URI, percent-decoded, is `uri`.
pub fn load_buffer_uri(uri: &str) -> (r: Result<BufferStep, GltfError>)
    ensures
        step_of(r) == uri_step(uri@),
{
    match DataUri::parse(uri) {
        Ok(data_uri) => {
            if is_valid_mime_type(data_uri.mime_type) {
                match data_uri.decode() {
                    Ok(bytes) => Ok(BufferStep::Loaded(bytes)),
                    Err(e) => Err(GltfError::Base64Decode(e)),
                }
            } else {
                Err(GltfError::BufferFormatUnsupported)
            }
        },
        Err(_) => Ok(BufferStep::Read(str_to_string(uri))),
    }
}

/// Whether the mime type is one that a buffer may have.
fn is_valid_mime_type(mime_type: &str) -> (r: bool)
    ensures
        r == is_buffer_mime_type(mime_type@),
{
    str_eq(mime_type, "application/octet-stream") || str_eq(mime_type, "application/gltf-buffer")
}

/// Whether two texts are the same.
pub(crate) fn str_eq(a: &str, b: &str) -> (r: bool)
    ensures
        r == (a@ == b@),
{
    a.to_owned() == b.to_owned()
}

/// A copy of the text.
pub(crate) fn str_to_string(s: &str) -> (r: String)
    ensures
        r@ == s@,
{
    s.to_owned()
}

/// Says what is to be done for a buffer. Nothing where its URI does not decode.
pub fn load_buffer(source: &BufferSource, blob: &Option<Vec<u8>>) -> (r: Option<
    Result<BufferStep, GltfError>,
>)
    ensures
        match buffer_step(*source, *blob) {
            Some(step) => r matches Some(found) && step_of(found) == step,
            None => r is None,
        },
{
    match source {
        BufferSource::Uri(uri) => match percent_decode(uri.as_str()) {
            Some(decoded) => Some(load_buffer_uri(decoded.as_str())),
            None => None,
        },
        BufferSource::Bin => match blob {
            Some(bytes) => Some(Ok(BufferStep::Loaded(bytes.clone()))),
            None => Some(Err(GltfError::MissingBlob)),
        },
    }
}


/// What the caller is to do next while the buffers of a document are loaded.
#[derive(Debug, PartialEq, Eq)]
pub enum BufferProgress {
    /// Every buffer is loaded.
    Done,
    /// The next buffer is to be read from this path, taken relative to the directory
    /// of the document, and its bytes added to the loaded buffers.
    Read(String),
    /// The next buffer cannot be loaded.
    Failed(GltfError),
    /// The URI of the next buffer does not decode into text.
    UndecodableUri,
}

/// Loads the buffers of a document in the order of their declaration, from the first
/// that is not loaded yet, until all are loaded or one needs the caller.
pub fn load_buffers(
    sources: &Vec<BufferSource>,
    blob: &Option<Vec<u8>>,
    buffer_data: &mut Vec<Vec<u8>>,
) -> (r: BufferProgress)
    ensures
        old(buffer_data)@.len() <= final(buffer_data)@.len(),
        final(buffer_data)@.subrange(0, old(buffer_data)@.len() as int) == old(buffer_data)@,
        final(buffer_data)@.len() <= sources@.len() || final(buffer_data)@.len() == old(
            buffer_data,
        )@.len(),
        forall|j: int|
            old(buffer_data)@.len() <= j < final(buffer_data)@.len() ==> buffer_step(
                sources@[j],
                *blob,
            ) == Some(
                Ok::<BufferStepView, ErrorKind>(
                    BufferStepView::Loaded((#[trigger] final(buffer_data)@[j])@),
                ),
            ),
        match r {
            BufferProgress::Done => final(buffer_data)@.len() >= sources@.len(),
            BufferProgress::Read(path) => {
                &&& final(buffer_data)@.len() < sources@.len()
                &&& buffer_step(sources@[final(buffer_data)@.len() as int], *blob) == Some(
                    Ok::<BufferStepView, ErrorKind>(BufferStepView::Read(path@)),
                )
            },
            BufferProgress::Failed(e) => {
                &&& final(buffer_data)@.len() < sources@.len()
                &&& buffer_step(sources@[final(buffer_data)@.len() as int], *blob) == Some(
                    Err::<BufferStepView, ErrorKind>(e.kind()),
                )
            },
            BufferProgress::UndecodableUri => {
                &&& final(buffer_data)@.len() < sources@.len()
                &&& buffer_step(sources@[final(buffer_data)@.len() as int], *blob) is None
            },
        },
{
    while buffer_data.len() < sources.len()
        invariant
            old(buffer_data)@.len() <= buffer_data@.len(),
            buffer_data@.subrange(0, old(buffer_data)@.len() as int) == old(buffer_data)@,
            buffer_data@.len() <= sources@.len() || buffer_data@.len() == old(buffer_data)@.len(),
            forall|j: int|
                old(buffer_data)@.len() <= j < buffer_data@.len() ==> buffer_step(
                    sources@[j],
                    *blob,
                ) == Some(
                    Ok::<BufferStepView, ErrorKind>(
                        BufferStepView::Loaded((#[trigger] buffer_data@[j])@),
                    ),
                ),
        decreases sources.len() - buffer_data.len(),
    {
        match load_buffer(&sources[buffer_data.len()], blob) {
            Some(Ok(BufferStep::Loaded(bytes))) => {
                buffer_data.push(bytes);
            },
            Some(Ok(BufferStep::Read(path))) => {
                return BufferProgress::Read(path);
            },
            Some(Err(e)) => {
                return BufferProgress::Failed(e);
            },
            None => {
                return BufferProgress::UndecodableUri;
            },
        }
    }
    BufferProgress::Done
}

} // verus!
