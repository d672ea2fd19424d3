//! The codec matrix: which (source MIME, target format) pairs are supported
//! and exactly what bytes each supported conversion yields.  The concrete
//! codecs are placeholders (identity copies, fixed stand-in payloads, and a
//! compression stand-in that keeps content within the ceiling and refuses
//! content above it); the orchestration around them does not depend on
//! which real codecs replace them.

use vstd::prelude::*;
use crate::format::Format;
use crate::render::spec_size_error_message;

verus! {

pub open spec fn is_pdf_mime(m: Seq<char>) -> bool {
    m == "application/pdf"@
}

pub open spec fn is_jpeg_mime(m: Seq<char>) -> bool {
    m == "image/jpeg"@ || m == "image/jpg"@
}

pub open spec fn is_png_mime(m: Seq<char>) -> bool {
    m == "image/png"@
}

pub open spec fn is_docx_mime(m: Seq<char>) -> bool {
    m == "application/vnd.openxmlformats-officedocument.wordprocessingml.document"@
}

/// The supported conversion matrix: whether a codec exists for the given
/// (source MIME, target format) pair.
pub open spec fn pair_supported(mime: Seq<char>, f: Format) -> bool {
    match f {
        Format::Pdf => is_pdf_mime(mime) || is_jpeg_mime(mime) || is_png_mime(mime),
        Format::Jpeg => is_jpeg_mime(mime) || is_png_mime(mime) || is_pdf_mime(mime),
        Format::Png => is_png_mime(mime) || is_jpeg_mime(mime),
        Format::Docx => is_docx_mime(mime),
    }
}

/// The fixed stand-in payload for embedding an image into a PDF.
pub open spec fn spec_mock_pdf() -> Seq<u8> {
    seq![
        77u8, 111, 99, 107, 32, 80, 68, 70, 32, 99, 111, 110, 116, 101, 110, 116, 32, 119, 105,
        116, 104, 32, 101, 109, 98, 101, 100, 100, 101, 100, 32, 105, 109, 97, 103, 101,
    ]
}

/// The fixed stand-in payload for rasterizing the first page of a PDF.
pub open spec fn spec_mock_jpeg() -> Seq<u8> {
    seq![
        77u8, 111, 99, 107, 32, 74, 80, 69, 71, 32, 99, 111, 110, 116, 101, 110, 116, 32, 102,
        114, 111, 109, 32, 80, 68, 70,
    ]
}

/// An abstract conversion failure: its error code and message.
pub ghost struct CodecFailure {
    pub code: Seq<char>,
    pub message: Seq<char>,
}

/// The compression stand-in: content within the ceiling passes through
/// unchanged; a codec that cannot meet the ceiling fails with a size-limit
/// error naming both byte counts, and never truncates.
pub open spec fn spec_compress(content: Seq<u8>, max_size: u64) -> Result<Seq<u8>, CodecFailure> {
    if content.len() <= max_size {
        Ok(content)
    } else {
        Err(
            CodecFailure {
                code: "SIZE_LIMIT_EXCEEDED"@,
                message: spec_size_error_message(content.len(), max_size),
            },
        )
    }
}

/// The display name of a canonical format, as it appears in messages.
pub open spec fn spec_format_name(f: Format) -> Seq<char> {
    match f {
        Format::Pdf => "PDF"@,
        Format::Jpeg => "JPEG"@,
        Format::Png => "PNG"@,
        Format::Docx => "DOCX"@,
    }
}

/// The message of an unsupported-pair failure, naming both the offending
/// MIME type and the requested target.
pub open spec fn spec_unsupported_message(mime: Seq<char>, f: Format) -> Seq<char> {
    "Cannot convert "@ + mime + " to "@ + spec_format_name(f)
}

/// What the codec for `(mime, f)` yields on `content` under the size
/// ceiling `max_size`: the converted bytes, or a typed failure when no
/// codec exists for the pair or the codec itself gives up.
pub open spec fn spec_codec(mime: Seq<char>, f: Format, content: Seq<u8>, max_size: u64) -> Result<
    Seq<u8>,
    CodecFailure,
> {
    match f {
        Format::Pdf => if is_pdf_mime(mime) {
            Ok(content)
        } else if is_jpeg_mime(mime) || is_png_mime(mime) {
            Ok(spec_mock_pdf())
        } else {
            Err(
                CodecFailure {
                    code: "CONVERSION_NOT_SUPPORTED"@,
                    message: spec_unsupported_message(mime, Format::Pdf),
                },
            )
        },
        Format::Jpeg => if is_jpeg_mime(mime) || is_png_mime(mime) {
            spec_compress(content, max_size)
        } else if is_pdf_mime(mime) {
            if spec_mock_jpeg().len() <= max_size {
                Ok(spec_mock_jpeg())
            } else {
                Err(
                    CodecFailure {
                        code: "SIZE_LIMIT_EXCEEDED"@,
                        message: "PDF to JPEG conversion resulted in file too large"@,
                    },
                )
            }
        } else {
            Err(
                CodecFailure {
                    code: "CONVERSION_NOT_SUPPORTED"@,
                    message: spec_unsupported_message(mime, Format::Jpeg),
                },
            )
        },
        Format::Png => if is_png_mime(mime) || is_jpeg_mime(mime) {
            spec_compress(content, max_size)
        } else {
            Err(
                CodecFailure {
                    code: "CONVERSION_NOT_SUPPORTED"@,
                    message: spec_unsupported_message(mime, Format::Png),
                },
            )
        },
        Format::Docx => if is_docx_mime(mime) {
            Ok(content)
        } else {
            Err(
                CodecFailure {
                    code: "CONVERSION_NOT_SUPPORTED"@,
                    message: spec_unsupported_message(mime, Format::Docx),
                },
            )
        },
    }
}

/// Law: a codec never exists outside the supported matrix, and always
/// exists inside it unless it fails for a size reason: `spec_codec` yields
/// a `CONVERSION_NOT_SUPPORTED` failure exactly on the unsupported pairs.
pub proof fn lemma_codec_supported_iff(mime: Seq<char>, f: Format, content: Seq<u8>, max_size: u64)
    ensures
        pair_supported(mime, f) <==> !(spec_codec(mime, f, content, max_size) matches Err(e)
            && e.code == "CONVERSION_NOT_SUPPORTED"@),
{
    assert("CONVERSION_NOT_SUPPORTED"@.len() != "SIZE_LIMIT_EXCEEDED"@.len()) by {
        reveal_strlit("CONVERSION_NOT_SUPPORTED");
        reveal_strlit("SIZE_LIMIT_EXCEEDED");
    }
}

} // verus!
