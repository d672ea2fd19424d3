//! The conversion core: the per-pair orchestrator (resolve the format, run
//! the codec, enforce the size ceiling, derive the filename, store the
//! artifact) and the fail-fast batch coordinator around it.

use vstd::prelude::*;
use vstd::slice::slice_to_vec;
use vstd::string::StringExecFns;
use crate::codec::CodecFailure;
use crate::codec::is_docx_mime;
use crate::codec::is_jpeg_mime;
use crate::codec::is_pdf_mime;
use crate::codec::is_png_mime;
use crate::codec::spec_codec;
use crate::codec::spec_compress;
use crate::codec::spec_mock_jpeg;
use crate::codec::spec_mock_pdf;
use crate::codec::spec_unsupported_message;
use crate::format::Format;
use crate::format::resolve_format;
use crate::format::spec_extension;
use crate::format::spec_resolve;
use crate::name::base_of;
use crate::name::derive_converted_name;
use crate::outside::base64_decode;
use crate::outside::base64_decode_err;
use crate::outside::base64_decoded;
use crate::outside::fresh_token;
use crate::render::size_error;
use crate::render::spec_size_error_message;
use crate::types::ConversionError;
use crate::types::ConvertRequest;
use crate::types::ConvertResponse;
use crate::types::ConvertedFile;
use crate::types::DocumentInfo;
use crate::types::FileData;

verus! {

/// String equality, decided character-wise.
pub fn str_eq(a: &str, b: &str) -> (r: bool)
    ensures
        r == (a@ == b@),
{
    let sa = a.to_owned();
    let sb = b.to_owned();
    sa == sb
}

/// The effective size ceiling for a format: the first entry of the size map
/// whose key is the format string, or no limit at all (`u64::MAX`) when the
/// map has no such key.
pub open spec fn spec_max_for(sizes: Seq<(String, u64)>, fmt: Seq<char>) -> u64
    decreases sizes.len(),
{
    if sizes.len() == 0 {
        u64::MAX
    } else if sizes[0].0@ == fmt {
        sizes[0].1
    } else {
        spec_max_for(sizes.drop_first(), fmt)
    }
}

/// Looks up the effective size ceiling for a format in the request's size
/// map; a format absent from the map is unbounded.
pub fn max_size_for(sizes: &Vec<(String, u64)>, fmt: &str) -> (r: u64)
    ensures
        r == spec_max_for(sizes@, fmt@),
{
    let n = sizes.len();
    let mut i: usize = 0;
    proof {
        assert(sizes@.skip(0) =~= sizes@);
    }
    while i < n
        invariant
            0 <= i <= n,
            n == sizes@.len(),
            spec_max_for(sizes@, fmt@) == spec_max_for(sizes@.skip(i as int), fmt@),
        decreases n - i,
    {
        let p = &sizes[i];
        if str_eq(p.0.as_str(), fmt) {
            assert(sizes@.skip(i as int)[0] == sizes@[i as int]);
            return p.1;
        }
        proof {
            assert(sizes@.skip(i as int).drop_first() =~= sizes@.skip(i as int + 1));
        }
        i = i + 1;
    }
    proof {
        assert(sizes@.skip(n as int) =~= Seq::<(String, u64)>::empty());
    }
    u64::MAX
}

/// Abstract description of one successful conversion: the metadata fields
/// of the result and the converted bytes that were stored.
pub ghost struct ConvertedFields {
    pub original_name: Seq<char>,
    pub converted_name: Seq<char>,
    pub format: Seq<char>,
    pub size: nat,
    pub bytes: Seq<u8>,
}

/// The outcome of converting one document to one requested format under a
/// size ceiling: resolve the format, run the codec for the (MIME, format)
/// pair, then enforce the ceiling on the codec's output.
pub open spec fn spec_pair(
    name: Seq<char>,
    mime: Seq<char>,
    content: Seq<u8>,
    fmt: Seq<char>,
    max_size: u64,
) -> Result<ConvertedFields, CodecFailure> {
    match spec_resolve(fmt) {
        None => Err(
            CodecFailure { code: "UNSUPPORTED_FORMAT"@, message: "Unsupported format: "@ + fmt },
        ),
        Some(f) => match spec_codec(mime, f, content, max_size) {
            Err(e) => Err(e),
            Ok(bytes) => if bytes.len() > max_size {
                Err(
                    CodecFailure {
                        code: "SIZE_LIMIT_EXCEEDED"@,
                        message: spec_size_error_message(bytes.len(), max_size),
                    },
                )
            } else {
                Ok(
                    ConvertedFields {
                        original_name: name,
                        converted_name: base_of(name) + "."@ + spec_extension(f),
                        format: fmt,
                        size: bytes.len(),
                        bytes: bytes,
                    },
                )
            },
        },
    }
}

/// Whether an executable codec result agrees with the abstract codec
/// outcome: same bytes on success, same code and message on failure.
pub open spec fn result_matches_codec(
    r: Result<Vec<u8>, ConversionError>,
    s: Result<Seq<u8>, CodecFailure>,
) -> bool {
    match (r, s) {
        (Ok(v), Ok(bytes)) => v@ == bytes,
        (Err(e), Err(f)) => e.code@ == f.code && e.message@ == f.message,
        _ => false,
    }
}

/// Whether a result's metadata agrees with its abstract description; the
/// artifact locator is a fresh token under a fixed path prefix.
pub open spec fn matches_fields(cf: ConvertedFile, fx: ConvertedFields) -> bool {
    cf.original_name@ == fx.original_name && cf.converted_name@ == fx.converted_name && cf.format@
        == fx.format && cf.size == fx.size && (exists|t: Seq<char>|
        t.len() == 36 && cf.download_url@ == "/api/download/"@ + t)
}

/// Builds a typed error from two fixed strings.
fn mk_error(code: &str, message: &str) -> (r: ConversionError)
    ensures
        r.code@ == code@,
        r.message@ == message@,
{
    ConversionError::new(String::from_str(code), String::from_str(message))
}

/// Builds the unsupported-pair failure, naming both the offending MIME
/// type and the requested target.
fn unsupported_error(mime: &str, f: Format) -> (r: ConversionError)
    ensures
        r.code@ == "CONVERSION_NOT_SUPPORTED"@,
        r.message@ == spec_unsupported_message(mime@, f),
{
    let mut m = String::from_str("Cannot convert ");
    m.append(mime);
    m.append(" to ");
    match f {
        Format::Pdf => m.append("PDF"),
        Format::Jpeg => m.append("JPEG"),
        Format::Png => m.append("PNG"),
        Format::Docx => m.append("DOCX"),
    }
    ConversionError::new(String::from_str("CONVERSION_NOT_SUPPORTED"), m)
}

/// The conversion orchestrator.  It keeps converted artifacts in an
/// in-memory store, a stand-in for the storage collaborator that issues
/// the artifact locators.
pub struct DocumentConverter {
    temp_storage: Vec<(String, Vec<u8>)>,
}

impl DocumentConverter {
    /// The stored artifact payloads, in storage order.
    pub closed spec fn blobs(&self) -> Seq<Seq<u8>> {
        self.temp_storage@.map_values(|p: (String, Vec<u8>)| p.1@)
    }

    /// A converter with an empty artifact store.
    pub fn new() -> (r: DocumentConverter)
        ensures
            r.blobs() == Seq::<Seq<u8>>::empty(),
    {
        let r = DocumentConverter { temp_storage: Vec::new() };
        proof {
            assert(r.blobs() =~= Seq::<Seq<u8>>::empty());
        }
        r
    }

    /// How many artifacts the store holds.
    pub fn stored_count(&self) -> (r: usize)
        ensures
            r == self.blobs().len(),
    {
        self.temp_storage.len()
    }

    /// Converts a document to PDF: a PDF source passes through unchanged, a
    /// JPEG or PNG source is embedded into the stand-in PDF payload, and
    /// any other source MIME type has no codec.  The size ceiling plays no
    /// part for this target, so the codec outcome is stated under an
    /// arbitrary ceiling.
    pub fn convert_to_pdf(&self, document: &DocumentInfo) -> (r: Result<Vec<u8>, ConversionError>)
        ensures
            result_matches_codec(
                r,
                spec_codec(document.mime_type@, Format::Pdf, document.content@, 0),
            ),
    {
        let mime = document.mime_type.as_str();
        if str_eq(mime, "application/pdf") {
            Ok(clone_bytes(&document.content))
        } else if str_eq(mime, "image/jpeg") || str_eq(mime, "image/jpg") || str_eq(
            mime,
            "image/png",
        ) {
            Ok(self.create_pdf_with_image(document.content.as_slice()))
        } else {
            Err(unsupported_error(mime, Format::Pdf))
        }
    }

    /// Converts a document to JPEG: a JPEG or PNG source goes through the
    /// compression stand-in, a PDF source yields the stand-in rasterization
    /// of its first page, and any other source MIME type has no codec.
    pub fn convert_to_jpeg(&self, document: &DocumentInfo, max_size: u64) -> (r: Result<
        Vec<u8>,
        ConversionError,
    >)
        ensures
            result_matches_codec(
                r,
                spec_codec(document.mime_type@, Format::Jpeg, document.content@, max_size),
            ),
    {
        let mime = document.mime_type.as_str();
        if str_eq(mime, "image/jpeg") || str_eq(mime, "image/jpg") {
            self.compress_image(document.content.as_slice(), "jpeg", max_size)
        } else if str_eq(mime, "image/png") {
            self.convert_png_to_jpeg(document.content.as_slice(), max_size)
        } else if str_eq(mime, "application/pdf") {
            self.pdf_to_jpeg(document.content.as_slice(), max_size)
        } else {
            Err(unsupported_error(mime, Format::Jpeg))
        }
    }

    /// Converts a document to PNG: a PNG or JPEG source goes through the
    /// compression stand-in; any other source MIME type has no codec.
    pub fn convert_to_png(&self, document: &DocumentInfo, max_size: u64) -> (r: Result<
        Vec<u8>,
        ConversionError,
    >)
        ensures
            result_matches_codec(
                r,
                spec_codec(document.mime_type@, Format::Png, document.content@, max_size),
            ),
    {
        let mime = document.mime_type.as_str();
        if str_eq(mime, "image/png") {
            self.compress_image(document.content.as_slice(), "png", max_size)
        } else if str_eq(mime, "image/jpeg") || str_eq(mime, "image/jpg") {
            self.convert_jpeg_to_png(document.content.as_slice(), max_size)
        } else {
            Err(unsupported_error(mime, Format::Png))
        }
    }

    /// Converts a document to DOCX: only a DOCX source is supported, and it
    /// passes through unchanged.  The size ceiling plays no part for this
    /// target, so the codec outcome is stated under an arbitrary ceiling.
    pub fn convert_to_docx(&self, document: &DocumentInfo) -> (r: Result<Vec<u8>, ConversionError>)
        ensures
            result_matches_codec(
                r,
                spec_codec(document.mime_type@, Format::Docx, document.content@, 0),
            ),
    {
        let mime = document.mime_type.as_str();
        if str_eq(mime, "application/vnd.openxmlformats-officedocument.wordprocessingml.document") {
            Ok(clone_bytes(&document.content))
        } else {
            Err(unsupported_error(mime, Format::Docx))
        }
    }

    /// Stand-in for embedding an image into a PDF: a fixed payload.
    fn create_pdf_with_image(&self, _image_content: &[u8]) -> (r: Vec<u8>)
        ensures
            r@ == spec_mock_pdf(),
    {
        mock_pdf_content()
    }

    /// Stand-in for image compression: content within the ceiling passes
    /// through unchanged; content above it is refused with a size-limit
    /// failure rather than silently cut down.
    fn compress_image(&self, content: &[u8], _format: &str, max_size: u64) -> (r: Result<
        Vec<u8>,
        ConversionError,
    >)
        ensures
            result_matches_codec(r, spec_compress(content@, max_size)),
    {
        if content.len() as u64 <= max_size {
            Ok(slice_to_vec(content))
        } else {
            Err(size_error(content.len() as u64, max_size))
        }
    }

    /// Stand-in for PNG-to-JPEG transcoding: the compression stand-in.
    fn convert_png_to_jpeg(&self, content: &[u8], max_size: u64) -> (r: Result<
        Vec<u8>,
        ConversionError,
    >)
        ensures
            result_matches_codec(r, spec_compress(content@, max_size)),
    {
        self.compress_image(content, "jpeg", max_size)
    }

    /// Stand-in for JPEG-to-PNG transcoding: the compression stand-in.
    fn convert_jpeg_to_png(&self, content: &[u8], max_size: u64) -> (r: Result<
        Vec<u8>,
        ConversionError,
    >)
        ensures
            result_matches_codec(r, spec_compress(content@, max_size)),
    {
        self.compress_image(content, "png", max_size)
    }

    /// Stand-in for rasterizing the first page of a PDF: a fixed payload,
    /// rejected when it would itself break the ceiling.
    fn pdf_to_jpeg(&self, _content: &[u8], max_size: u64) -> (r: Result<Vec<u8>, ConversionError>)
        ensures
            spec_mock_jpeg().len() <= max_size ==> (r matches Ok(v) && v@ == spec_mock_jpeg()),
            spec_mock_jpeg().len() > max_size ==> (r matches Err(e) && e.code@
                == "SIZE_LIMIT_EXCEEDED"@ && e.message@
                == "PDF to JPEG conversion resulted in file too large"@),
    {
        let mock_jpeg = mock_jpeg_content();
        if mock_jpeg.len() as u64 <= max_size {
            Ok(mock_jpeg)
        } else {
            Err(mk_error("SIZE_LIMIT_EXCEEDED", "PDF to JPEG conversion resulted in file too large"))
        }
    }

    /// The per-pair unit of work: resolves the requested format, runs the
    /// codec for the (source MIME, format) pair, enforces the size ceiling
    /// on the codec's output, stores the converted bytes under a fresh
    /// token, and assembles the result metadata.  On any failure the store
    /// is left unchanged.
    pub fn convert_to_format(
        &mut self,
        document: &DocumentInfo,
        target_format: &str,
        max_size: u64,
    ) -> (r: Result<ConvertedFile, ConversionError>)
        ensures
            (match spec_pair(
                document.name@,
                document.mime_type@,
                document.content@,
                target_format@,
                max_size,
            ) {
                Err(f) => r matches Err(e) && e.code@ == f.code && e.message@ == f.message
                    && final(self).blobs() == old(self).blobs(),
                Ok(fx) => r matches Ok(cf) && matches_fields(cf, fx) && cf.size <= max_size
                    && final(self).blobs() == old(self).blobs().push(fx.bytes),
            }),
    {
        let f = match resolve_format(target_format) {
            Ok(f) => f,
            Err(e) => {
                return Err(e);
            },
        };
        let converted: Vec<u8> = match (match f {
            Format::Pdf => self.convert_to_pdf(document),
            Format::Jpeg => self.convert_to_jpeg(document, max_size),
            Format::Png => self.convert_to_png(document, max_size),
            Format::Docx => self.convert_to_docx(document),
        }) {
            Ok(v) => v,
            Err(e) => {
                return Err(e);
            },
        };
        if converted.len() as u64 > max_size {
            return Err(size_error(converted.len() as u64, max_size));
        }
        let file_id = fresh_token();
        let converted_name = derive_converted_name(document.name.as_str(), f);
        let mut download_url = String::from_str("/api/download/");
        download_url.append(file_id.as_str());
        let size = converted.len() as u64;
        let original_name = document.name.clone();
        let format_field = target_format.to_owned();
        let ghost stored_bytes = converted@;
        let ghost old_storage = self.temp_storage@;
        self.temp_storage.push((file_id, converted));
        proof {
            assert(self.blobs() =~= old_storage.map_values(
                |p: (String, Vec<u8>)| p.1@,
            ).push(stored_bytes));
        }
        Ok(
            ConvertedFile {
                original_name,
                converted_name,
                download_url,
                format: format_field,
                size,
            },
        )
    }
}

/// How a partial run continues a whole one: the whole run's outcome is the
/// work already done followed by whatever the rest yields, and the rest's
/// failure is the whole run's failure.
pub open spec fn run_continues(
    total: Result<Seq<ConvertedFields>, CodecFailure>,
    done: Seq<ConvertedFields>,
    rest: Result<Seq<ConvertedFields>, CodecFailure>,
) -> bool {
    match rest {
        Ok(r) => total == Ok::<Seq<ConvertedFields>, CodecFailure>(done + r),
        Err(e) => total == Err::<Seq<ConvertedFields>, CodecFailure>(e),
    }
}

/// One document against a list of requested formats, in request order and
/// fail-fast: the outcomes of every pair, or the first pair's failure.
pub open spec fn spec_formats_run(
    name: Seq<char>,
    mime: Seq<char>,
    content: Seq<u8>,
    fmts: Seq<Seq<char>>,
    sizes: Seq<(String, u64)>,
) -> Result<Seq<ConvertedFields>, CodecFailure>
    decreases fmts.len(),
{
    if fmts.len() == 0 {
        Ok(Seq::empty())
    } else {
        match spec_pair(name, mime, content, fmts[0], spec_max_for(sizes, fmts[0])) {
            Err(e) => Err(e),
            Ok(fx) => match spec_formats_run(name, mime, content, fmts.drop_first(), sizes) {
                Err(e) => Err(e),
                Ok(rest) => Ok(seq![fx] + rest),
            },
        }
    }
}

/// A whole batch, fail-fast: each file's payload is decoded from base64,
/// then the file is converted to every requested format, documents in
/// request order and formats in request order within each document.  The
/// first failure is the batch's failure.
pub open spec fn spec_files_run(
    files: Seq<FileData>,
    fmts: Seq<Seq<char>>,
    sizes: Seq<(String, u64)>,
) -> Result<Seq<ConvertedFields>, CodecFailure>
    decreases files.len(),
{
    if files.len() == 0 {
        Ok(Seq::empty())
    } else {
        match base64_decoded(files[0].content@) {
            None => Err(
                CodecFailure {
                    code: "DECODE_ERROR"@,
                    message: "Failed to decode file content: "@ + base64_decode_err(
                        files[0].content@,
                    ),
                },
            ),
            Some(content) => match spec_formats_run(
                files[0].name@,
                files[0].mime_type@,
                content,
                fmts,
                sizes,
            ) {
                Err(e) => Err(e),
                Ok(first) => match spec_files_run(files.drop_first(), fmts, sizes) {
                    Err(e) => Err(e),
                    Ok(rest) => Ok(first + rest),
                },
            },
        }
    }
}

proof fn lemma_prefix_push(a: Seq<Seq<u8>>, b: Seq<Seq<u8>>, x: Seq<u8>)
    requires
        a.is_prefix_of(b),
    ensures
        a.is_prefix_of(b.push(x)),
{
    assert(b.push(x).subrange(0, a.len() as int) =~= b.subrange(0, a.len() as int));
}

impl DocumentConverter {
    /// The batch coordinator: converts every document of the request into
    /// every requested target format, in request order, with the effective
    /// size ceiling looked up per format.  Fail-fast: the first per-pair
    /// failure is returned as the batch's sole error and no results are
    /// returned alongside it; on success every pair's result is returned in
    /// (document, then format) order.  Artifacts stored for pairs that
    /// succeeded before a failure remain in the store.
    pub fn convert_documents(&mut self, request: &ConvertRequest) -> (r: Result<
        Vec<ConvertedFile>,
        ConversionError,
    >)
        ensures
            old(self).blobs().is_prefix_of(final(self).blobs()),
            (match spec_files_run(
                request.files@,
                request.target_formats.deep_view(),
                request.max_sizes@,
            ) {
                Err(f) => r matches Err(e) && e.code@ == f.code && e.message@ == f.message,
                Ok(fxs) => r matches Ok(v) && v@.len() == fxs.len() && (forall|k: int|
                    0 <= k < fxs.len() ==> matches_fields(#[trigger] v@[k], fxs[k])),
            }),
    {
        let ghost fmts = request.target_formats.deep_view();
        let ghost sizes = request.max_sizes@;
        let ghost files_total = spec_files_run(request.files@, fmts, sizes);
        let mut converted_files: Vec<ConvertedFile> = Vec::new();
        let ghost mut acc = Seq::<ConvertedFields>::empty();
        let n_files = request.files.len();
        let n_formats = request.target_formats.len();
        let mut di: usize = 0;
        proof {
            assert(request.files@.skip(0) =~= request.files@);
            assert(old(self).blobs().subrange(0, old(self).blobs().len() as int) =~= old(
                self,
            ).blobs());
        }
        while di < n_files
            invariant
                0 <= di <= n_files,
                n_files == request.files@.len(),
                n_formats == request.target_formats@.len(),
                fmts == request.target_formats.deep_view(),
                sizes == request.max_sizes@,
                files_total == spec_files_run(request.files@, fmts, sizes),
                run_continues(files_total, acc, spec_files_run(request.files@.skip(di as int), fmts, sizes)),
                converted_files@.len() == acc.len(),
                forall|k: int| 0 <= k < acc.len() ==> matches_fields(
                    #[trigger] converted_files@[k],
                    acc[k],
                ),
                old(self).blobs().is_prefix_of(self.blobs()),
            decreases n_files - di,
        {
            let file_data = &request.files[di];
            proof {
                assert(request.files@.skip(di as int)[0] == request.files@[di as int]);
            }
            let content = match base64_decode(file_data.content.as_str()) {
                Ok(v) => v,
                Err(t) => {
                    let mut message = String::from_str("Failed to decode file content: ");
                    message.append(t.as_str());
                    return Err(ConversionError::new(String::from_str("DECODE_ERROR"), message));
                },
            };
            let document = DocumentInfo::new(
                file_data.name.clone(),
                content,
                file_data.mime_type.clone(),
            );
            let ghost formats_total = spec_formats_run(
                document.name@,
                document.mime_type@,
                document.content@,
                fmts,
                sizes,
            );
            let ghost acc0 = acc;
            let ghost mut done_doc = Seq::<ConvertedFields>::empty();
            let mut fi: usize = 0;
            proof {
                assert(fmts.skip(0) =~= fmts);
            }
            while fi < n_formats
                invariant
                    0 <= fi <= n_formats,
                    0 <= di < n_files,
                    n_files == request.files@.len(),
                    n_formats == request.target_formats@.len(),
                    fmts == request.target_formats.deep_view(),
                    sizes == request.max_sizes@,
                    files_total == spec_files_run(request.files@, fmts, sizes),
                    base64_decoded(request.files@[di as int].content@) == Some(document.content@),
                    document.name@ == request.files@[di as int].name@,
                    document.mime_type@ == request.files@[di as int].mime_type@,
                    formats_total == spec_formats_run(
                        document.name@,
                        document.mime_type@,
                        document.content@,
                        fmts,
                        sizes,
                    ),
                    run_continues(files_total, acc0, spec_files_run(request.files@.skip(di as int), fmts, sizes)),
                    run_continues(formats_total, done_doc, spec_formats_run(
                        document.name@,
                        document.mime_type@,
                        document.content@,
                        fmts.skip(fi as int),
                        sizes,
                    )),
                    acc == acc0 + done_doc,
                    converted_files@.len() == acc.len(),
                    forall|k: int| 0 <= k < acc.len() ==> matches_fields(
                        #[trigger] converted_files@[k],
                        acc[k],
                    ),
                    old(self).blobs().is_prefix_of(self.blobs()),
                decreases n_formats - fi,
            {
                let format = &request.target_formats[fi];
                proof {
                    assert(fmts[fi as int] == request.target_formats@[fi as int]@);
                    assert(fmts.skip(fi as int)[0] == fmts[fi as int]);
                }
                let max_size = max_size_for(&request.max_sizes, format.as_str());
                let ghost blobs_before = self.blobs();
                match self.convert_to_format(&document, format.as_str(), max_size) {
                    Ok(cf) => {
                        proof {
                            let fx = spec_pair(
                                document.name@,
                                document.mime_type@,
                                document.content@,
                                fmts[fi as int],
                                spec_max_for(sizes, fmts[fi as int]),
                            )->Ok_0;
                            lemma_prefix_push(old(self).blobs(), blobs_before, fx.bytes);
                            assert(fmts.skip(fi as int).drop_first() =~= fmts.skip(fi as int + 1));
                            match spec_formats_run(
                                document.name@,
                                document.mime_type@,
                                document.content@,
                                fmts.skip(fi as int + 1),
                                sizes,
                            ) {
                                Ok(rest) => {
                                    assert(done_doc + (seq![fx] + rest) =~= done_doc.push(fx)
                                        + rest);
                                },
                                Err(_) => {},
                            }
                            assert((acc0 + done_doc).push(fx) =~= acc0 + done_doc.push(fx));
                            done_doc = done_doc.push(fx);
                            acc = acc.push(fx);
                        }
                        converted_files.push(cf);
                    },
                    Err(e) => {
                        proof {
                            assert(spec_formats_run(
                                document.name@,
                                document.mime_type@,
                                document.content@,
                                fmts.skip(fi as int),
                                sizes,
                            ) is Err);
                        }
                        return Err(e);
                    },
                }
                fi = fi + 1;
            }
            proof {
                assert(fmts.skip(n_formats as int) =~= Seq::<Seq<char>>::empty());
                assert(done_doc + Seq::<ConvertedFields>::empty() =~= done_doc);
                assert(formats_total == Ok::<Seq<ConvertedFields>, CodecFailure>(done_doc));
                assert(request.files@.skip(di as int).drop_first() =~= request.files@.skip(
                    di as int + 1,
                ));
                match spec_files_run(request.files@.skip(di as int + 1), fmts, sizes) {
                    Ok(rest) => {
                        assert(acc0 + (done_doc + rest) =~= (acc0 + done_doc) + rest);
                    },
                    Err(_) => {},
                }
            }
            di = di + 1;
        }
        proof {
            assert(request.files@.skip(n_files as int) =~= Seq::<FileData>::empty());
            assert(acc + Seq::<ConvertedFields>::empty() =~= acc);
        }
        Ok(converted_files)
    }
}

/// Wraps a batch outcome as a response: all results on success, no results
/// and the rendered error on failure.
pub fn to_response(r: Result<Vec<ConvertedFile>, ConversionError>) -> (resp: ConvertResponse)
    ensures
        (match r {
            Ok(v) => resp.success && resp.files@ == v@ && resp.error is None,
            Err(e) => !resp.success && resp.files@.len() == 0 && (resp.error matches Some(m) && m@
                == e.code@ + ": "@ + e.message@),
        }),
{
    match r {
        Ok(v) => ConvertResponse { success: true, files: v, error: None },
        Err(e) => ConvertResponse {
            success: false,
            files: Vec::new(),
            error: Some(e.to_display_string()),
        },
    }
}

/// Law: identity pairs pass content through byte-for-byte.  For a format
/// whose source MIME type names the same format (PDF from PDF, DOCX from
/// DOCX, JPEG from JPEG, PNG from PNG), content already within the size
/// ceiling converts to exactly itself, and the recorded size is its length.
pub proof fn lemma_identity_conversion(
    name: Seq<char>,
    mime: Seq<char>,
    content: Seq<u8>,
    fmt: Seq<char>,
    max_size: u64,
)
    requires
        content.len() <= max_size,
        (spec_resolve(fmt) == Some(Format::Pdf) && is_pdf_mime(mime)) || (spec_resolve(fmt)
            == Some(Format::Docx) && is_docx_mime(mime)) || (spec_resolve(fmt) == Some(
            Format::Jpeg,
        ) && is_jpeg_mime(mime)) || (spec_resolve(fmt) == Some(Format::Png) && is_png_mime(mime)),
    ensures
        spec_pair(name, mime, content, fmt, max_size) matches Ok(fx) && fx.bytes == content
            && fx.size == content.len(),
{
}

/// Law: the orchestrator never yields an artifact above the ceiling,
/// whether or not the codec itself enforced it.
pub proof fn lemma_size_ceiling(
    name: Seq<char>,
    mime: Seq<char>,
    content: Seq<u8>,
    fmt: Seq<char>,
    max_size: u64,
)
    ensures
        spec_pair(name, mime, content, fmt, max_size) matches Ok(fx) ==> fx.size <= max_size
            && fx.bytes.len() <= max_size,
{
}

/// Law: a resolvable format whose (source MIME, format) pair is outside
/// the supported matrix always fails with `CONVERSION_NOT_SUPPORTED`.
pub proof fn lemma_unsupported_pair(
    name: Seq<char>,
    mime: Seq<char>,
    content: Seq<u8>,
    fmt: Seq<char>,
    max_size: u64,
)
    requires
        spec_resolve(fmt) is Some,
        !crate::codec::pair_supported(mime, spec_resolve(fmt)->Some_0),
    ensures
        spec_pair(name, mime, content, fmt, max_size) matches Err(e) && e.code
            == "CONVERSION_NOT_SUPPORTED"@,
{
}

/// Law: an unbounded ceiling (a format absent from the size map) never
/// produces a `SIZE_LIMIT_EXCEEDED` failure, whatever the content length.
pub proof fn lemma_unbounded_no_size_error(
    name: Seq<char>,
    mime: Seq<char>,
    content: Seq<u8>,
    fmt: Seq<char>,
)
    requires
        content.len() <= u64::MAX,
    ensures
        !(spec_pair(name, mime, content, fmt, u64::MAX) matches Err(e) && e.code
            == "SIZE_LIMIT_EXCEEDED"@),
{
    assert("UNSUPPORTED_FORMAT"@.len() != "SIZE_LIMIT_EXCEEDED"@.len()) by {
        reveal_strlit("UNSUPPORTED_FORMAT");
        reveal_strlit("SIZE_LIMIT_EXCEEDED");
    }
    assert("CONVERSION_NOT_SUPPORTED"@.len() != "SIZE_LIMIT_EXCEEDED"@.len()) by {
        reveal_strlit("CONVERSION_NOT_SUPPORTED");
        reveal_strlit("SIZE_LIMIT_EXCEEDED");
    }
    assert(spec_mock_jpeg().len() <= u64::MAX);
}

/// Law: a successful run of one document over a format list yields exactly
/// one outcome per requested format, and the outcome at position `j` is the
/// pair outcome for the `j`-th format under its effective ceiling.
pub proof fn lemma_formats_run_at(
    name: Seq<char>,
    mime: Seq<char>,
    content: Seq<u8>,
    fmts: Seq<Seq<char>>,
    sizes: Seq<(String, u64)>,
)
    requires
        spec_formats_run(name, mime, content, fmts, sizes) is Ok,
    ensures
        (spec_formats_run(name, mime, content, fmts, sizes)->Ok_0).len() == fmts.len(),
        forall|j: int|
            0 <= j < fmts.len() ==> spec_pair(
                name,
                mime,
                content,
                fmts[j],
                spec_max_for(sizes, #[trigger] fmts[j]),
            ) == Ok::<ConvertedFields, CodecFailure>(
                (spec_formats_run(name, mime, content, fmts, sizes)->Ok_0)[j],
            ),
    decreases fmts.len(),
{
    if fmts.len() > 0 {
        lemma_formats_run_at(name, mime, content, fmts.drop_first(), sizes);
        assert forall|j: int| 0 <= j < fmts.len() implies spec_pair(
            name,
            mime,
            content,
            fmts[j],
            spec_max_for(sizes, #[trigger] fmts[j]),
        ) == Ok::<ConvertedFields, CodecFailure>(
            (spec_formats_run(name, mime, content, fmts, sizes)->Ok_0)[j],
        ) by {
            if j > 0 {
                assert(fmts.drop_first()[j - 1] == fmts[j]);
            }
        }
    }
}

/// Law: a successful batch yields exactly one result per (document, format)
/// pair, in (document, then format) order: the result at position
/// `i * fmts.len() + j` is the pair outcome of document `i` and format `j`
/// on the document's decoded payload.
pub proof fn lemma_files_run_at(
    files: Seq<FileData>,
    fmts: Seq<Seq<char>>,
    sizes: Seq<(String, u64)>,
)
    requires
        spec_files_run(files, fmts, sizes) is Ok,
    ensures
        (spec_files_run(files, fmts, sizes)->Ok_0).len() == files.len() * fmts.len(),
        forall|i: int|
            0 <= i < files.len() ==> #[trigger] base64_decoded(files[i].content@) is Some,
        forall|i: int, j: int|
            0 <= i < files.len() && 0 <= j < fmts.len() ==> spec_pair(
                files[i].name@,
                files[i].mime_type@,
                base64_decoded(files[i].content@)->Some_0,
                fmts[j],
                spec_max_for(sizes, fmts[j]),
            ) == Ok::<ConvertedFields, CodecFailure>(
                (spec_files_run(files, fmts, sizes)->Ok_0)[#[trigger] (i * fmts.len() + j)],
            ),
    decreases files.len(),
{
    if files.len() > 0 {
        let content = base64_decoded(files[0].content@)->Some_0;
        let first = spec_formats_run(files[0].name@, files[0].mime_type@, content, fmts, sizes)
            ->Ok_0;
        let rest = spec_files_run(files.drop_first(), fmts, sizes)->Ok_0;
        lemma_formats_run_at(files[0].name@, files[0].mime_type@, content, fmts, sizes);
        lemma_files_run_at(files.drop_first(), fmts, sizes);
        assert((files.len() - 1) * fmts.len() + fmts.len() == files.len() * fmts.len())
            by (nonlinear_arith);
        assert forall|i: int|
            0 <= i < files.len() implies #[trigger] base64_decoded(files[i].content@) is Some by {
            if i > 0 {
                assert(files.drop_first()[i - 1] == files[i]);
            }
        }
        assert forall|i: int, j: int|
            0 <= i < files.len() && 0 <= j < fmts.len() implies spec_pair(
            files[i].name@,
            files[i].mime_type@,
            base64_decoded(files[i].content@)->Some_0,
            fmts[j],
            spec_max_for(sizes, fmts[j]),
        ) == Ok::<ConvertedFields, CodecFailure>(
            (spec_files_run(files, fmts, sizes)->Ok_0)[#[trigger] (i * fmts.len() + j)],
        ) by {
            if i == 0 {
                assert(i * fmts.len() == 0) by (nonlinear_arith)
                    requires
                        i == 0,
                ;
                assert((first + rest)[j] == first[j]);
            } else {
                assert(files.drop_first()[i - 1] == files[i]);
                assert(0 <= (i - 1) * fmts.len() + j < rest.len()) by (nonlinear_arith)
                    requires
                        1 <= i < files.len(),
                        0 <= j < fmts.len(),
                        rest.len() == (files.len() - 1) * fmts.len(),
                ;
                assert(i * fmts.len() + j == first.len() + ((i - 1) * fmts.len() + j))
                    by (nonlinear_arith)
                    requires
                        first.len() == fmts.len(),
                ;
                assert(0 <= i * fmts.len() + j < files.len() * fmts.len()) by (nonlinear_arith)
                    requires
                        0 <= i < files.len(),
                        0 <= j < fmts.len(),
                ;
                assert((first + rest)[i * fmts.len() + j] == rest[(i - 1) * fmts.len() + j]);
            }
        }
    }
}

/// A copy of a byte payload.
fn clone_bytes(content: &Vec<u8>) -> (r: Vec<u8>)
    ensures
        r@ == content@,
{
    slice_to_vec(content.as_slice())
}

/// The fixed stand-in payload for embedding an image into a PDF.
fn mock_pdf_content() -> (r: Vec<u8>)
    ensures
        r@ == spec_mock_pdf(),
{
    let v: Vec<u8> = vec![
        77u8, 111, 99, 107, 32, 80, 68, 70, 32, 99, 111, 110, 116, 101, 110, 116, 32, 119, 105,
        116, 104, 32, 101, 109, 98, 101, 100, 100, 101, 100, 32, 105, 109, 97, 103, 101,
    ];
    proof {
        assert(v@ =~= spec_mock_pdf());
    }
    v
}

/// The fixed stand-in payload for rasterizing the first page of a PDF.
fn mock_jpeg_content() -> (r: Vec<u8>)
    ensures
        r@ == spec_mock_jpeg(),
{
    let v: Vec<u8> = vec![
        77u8, 111, 99, 107, 32, 74, 80, 69, 71, 32, 99, 111, 110, 116, 101, 110, 116, 32, 102,
        114, 111, 109, 32, 80, 68, 70,
    ];
    proof {
        assert(v@ =~= spec_mock_jpeg());
    }
    v
}

} // verus!
