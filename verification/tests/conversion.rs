use base64::Engine as _;
use doc_converter::convert::to_response;
use doc_converter::convert::DocumentConverter;
use doc_converter::format::resolve_format;
use doc_converter::format::Format;
use doc_converter::render::u64_to_string;
use doc_converter::types::ConvertRequest;
use doc_converter::types::DocumentInfo;
use doc_converter::types::FileData;

fn doc(name: &str, mime: &str, content: &[u8]) -> DocumentInfo {
    DocumentInfo::new(name.to_string(), content.to_vec(), mime.to_string())
}

fn b64(content: &[u8]) -> String {
    base64::engine::general_purpose::STANDARD.encode(content)
}

fn file(name: &str, mime: &str, content: &[u8]) -> FileData {
    FileData {
        name: name.to_string(),
        content: b64(content),
        mime_type: mime.to_string(),
    }
}

#[test]
fn resolve_format_is_case_insensitive_and_alias_aware() {
    assert_eq!(resolve_format("jpeg").unwrap(), Format::Jpeg);
    assert_eq!(resolve_format("JPEG").unwrap(), Format::Jpeg);
    assert_eq!(resolve_format("jpg").unwrap(), Format::Jpeg);
    assert_eq!(resolve_format("JPG").unwrap(), Format::Jpeg);
    assert_eq!(resolve_format("JpEg").unwrap(), Format::Jpeg);
}

#[test]
fn resolve_format_covers_the_canonical_set() {
    assert_eq!(resolve_format("pdf").unwrap(), Format::Pdf);
    assert_eq!(resolve_format("PDF").unwrap(), Format::Pdf);
    assert_eq!(resolve_format("png").unwrap(), Format::Png);
    assert_eq!(resolve_format("Docx").unwrap(), Format::Docx);
}

#[test]
fn resolve_format_rejects_unknown_strings() {
    let e = resolve_format("gif").unwrap_err();
    assert_eq!(e.code, "UNSUPPORTED_FORMAT");
    assert_eq!(e.message, "Unsupported format: gif");
    assert!(resolve_format("").is_err());
    assert!(resolve_format("pdff").is_err());
    assert!(resolve_format("p df").is_err());
}

#[test]
fn pdf_identity_keeps_size_and_content_length() {
    let mut c = DocumentConverter::new();
    let d = doc("a.pdf", "application/pdf", &[1, 2, 3]);
    let cf = c.convert_to_format(&d, "PDF", 100).unwrap();
    assert_eq!(cf.size, 3);
    assert_eq!(cf.original_name, "a.pdf");
    assert_eq!(cf.converted_name, "a.pdf");
    assert_eq!(cf.format, "PDF");
    assert_eq!(c.stored_count(), 1);
}

#[test]
fn docx_identity_round_trip() {
    let mut c = DocumentConverter::new();
    let mime = "application/vnd.openxmlformats-officedocument.wordprocessingml.document";
    let d = doc("cv.docx", mime, &[9, 9, 9, 9]);
    let cf = c.convert_to_format(&d, "DOCX", u64::MAX).unwrap();
    assert_eq!(cf.size, 4);
    assert_eq!(cf.converted_name, "cv.docx");
}

#[test]
fn unsupported_pair_is_rejected_with_conversion_not_supported() {
    let mut c = DocumentConverter::new();
    let d = doc("notes.txt", "text/plain", b"hello");
    let e = c.convert_to_format(&d, "PDF", 100).unwrap_err();
    assert_eq!(e.code, "CONVERSION_NOT_SUPPORTED");
    assert_eq!(e.message, "Cannot convert text/plain to PDF");
    let e2 = c.convert_to_format(&d, "DOCX", 100).unwrap_err();
    assert_eq!(e2.code, "CONVERSION_NOT_SUPPORTED");
    assert_eq!(e2.message, "Cannot convert text/plain to DOCX");
    let e3 = c.convert_to_format(&d, "PNG", 100).unwrap_err();
    assert_eq!(e3.message, "Cannot convert text/plain to PNG");
    assert_eq!(c.stored_count(), 0);
}

#[test]
fn oversized_identity_output_hits_the_size_ceiling() {
    let mut c = DocumentConverter::new();
    let d = doc("big.pdf", "application/pdf", &[0u8; 10]);
    let e = c.convert_to_format(&d, "PDF", 5).unwrap_err();
    assert_eq!(e.code, "SIZE_LIMIT_EXCEEDED");
    assert_eq!(
        e.message,
        "Converted file size (10 bytes) exceeds maximum allowed size (5 bytes)"
    );
    assert_eq!(c.stored_count(), 0);
}

#[test]
fn compression_stand_in_keeps_content_within_the_ceiling() {
    let mut c = DocumentConverter::new();
    let d = doc("pic.jpg", "image/jpeg", &[7u8; 10]);
    let cf = c.convert_to_format(&d, "JPEG", 100).unwrap();
    assert_eq!(cf.size, 10);
    let d2 = doc("pic2.png", "image/png", &[7u8; 10]);
    let cf2 = c.convert_to_format(&d2, "PNG", 10).unwrap();
    assert_eq!(cf2.size, 10);
}

#[test]
fn compression_stand_in_refuses_over_limit_content() {
    let mut c = DocumentConverter::new();
    let d = doc("pic.jpg", "image/jpeg", &[7u8; 10]);
    let e = c.convert_to_format(&d, "JPEG", 4).unwrap_err();
    assert_eq!(e.code, "SIZE_LIMIT_EXCEEDED");
    assert_eq!(
        e.message,
        "Converted file size (10 bytes) exceeds maximum allowed size (4 bytes)"
    );
    let d2 = doc("pic2.png", "image/png", &[7u8; 10]);
    let e2 = c.convert_to_format(&d2, "PNG", 6).unwrap_err();
    assert_eq!(e2.code, "SIZE_LIMIT_EXCEEDED");
    assert_eq!(
        e2.message,
        "Converted file size (10 bytes) exceeds maximum allowed size (6 bytes)"
    );
    assert_eq!(c.stored_count(), 0);
}

#[test]
fn pdf_rasterization_stand_in_has_fixed_payload() {
    let mut c = DocumentConverter::new();
    let d = doc("doc.pdf", "application/pdf", &[1u8; 50]);
    let cf = c.convert_to_format(&d, "JPEG", 100).unwrap();
    assert_eq!(cf.size, b"Mock JPEG content from PDF".len() as u64);
    let e = c.convert_to_format(&d, "JPEG", 10).unwrap_err();
    assert_eq!(e.code, "SIZE_LIMIT_EXCEEDED");
    assert_eq!(e.message, "PDF to JPEG conversion resulted in file too large");
}

#[test]
fn image_embedding_stand_in_has_fixed_payload() {
    let mut c = DocumentConverter::new();
    let d = doc("pic.jpg", "image/jpeg", &[5u8; 8]);
    let cf = c.convert_to_format(&d, "PDF", 1000).unwrap();
    assert_eq!(cf.size, b"Mock PDF content with embedded image".len() as u64);
    assert_eq!(cf.converted_name, "pic.pdf");
}

#[test]
fn converted_name_replaces_the_last_extension() {
    let mut c = DocumentConverter::new();
    let d = doc("scan.v2.jpg", "image/jpeg", &[1, 2]);
    let cf = c.convert_to_format(&d, "PDF", 1000).unwrap();
    assert_eq!(cf.converted_name, "scan.v2.pdf");
}

#[test]
fn converted_name_keeps_a_dotless_name_whole() {
    let mut c = DocumentConverter::new();
    let d = doc("README", "application/pdf", &[1]);
    let cf = c.convert_to_format(&d, "PDF", 1000).unwrap();
    assert_eq!(cf.converted_name, "README.pdf");
}

#[test]
fn alias_request_gets_the_canonical_extension() {
    let mut c = DocumentConverter::new();
    let d = doc("photo.png", "image/png", &[3, 3]);
    let cf = c.convert_to_format(&d, "jpg", 1000).unwrap();
    assert_eq!(cf.converted_name, "photo.jpeg");
    assert_eq!(cf.format, "jpg");
}

#[test]
fn download_url_carries_a_fresh_token() {
    let mut c = DocumentConverter::new();
    let d = doc("a.pdf", "application/pdf", &[1]);
    let cf1 = c.convert_to_format(&d, "PDF", 100).unwrap();
    let cf2 = c.convert_to_format(&d, "PDF", 100).unwrap();
    assert!(cf1.download_url.starts_with("/api/download/"));
    assert_eq!(cf1.download_url.len(), "/api/download/".len() + 36);
    assert_ne!(cf1.download_url, cf2.download_url);
    assert_eq!(c.stored_count(), 2);
}

#[test]
fn absent_size_map_entry_means_unbounded() {
    let mut c = DocumentConverter::new();
    let request = ConvertRequest {
        files: vec![file("huge.png", "image/png", &[8u8; 100_000])],
        exam_type: "neet".to_string(),
        target_formats: vec!["PNG".to_string()],
        max_sizes: vec![("JPEG".to_string(), 10)],
    };
    let files = c.convert_documents(&request).unwrap();
    assert_eq!(files.len(), 1);
    assert_eq!(files[0].size, 100_000);
}

#[test]
fn batch_converts_documents_then_formats_in_request_order() {
    let mut c = DocumentConverter::new();
    let request = ConvertRequest {
        files: vec![
            file("a.pdf", "application/pdf", &[1, 2, 3]),
            file("b.jpg", "image/jpeg", &[4, 5]),
        ],
        exam_type: "jee".to_string(),
        target_formats: vec!["PDF".to_string(), "JPEG".to_string()],
        max_sizes: vec![],
    };
    let files = c.convert_documents(&request).unwrap();
    assert_eq!(files.len(), 4);
    assert_eq!(files[0].original_name, "a.pdf");
    assert_eq!(files[0].format, "PDF");
    assert_eq!(files[0].size, 3);
    assert_eq!(files[1].original_name, "a.pdf");
    assert_eq!(files[1].format, "JPEG");
    assert_eq!(files[1].size, b"Mock JPEG content from PDF".len() as u64);
    assert_eq!(files[2].original_name, "b.jpg");
    assert_eq!(files[2].format, "PDF");
    assert_eq!(files[2].size, b"Mock PDF content with embedded image".len() as u64);
    assert_eq!(files[3].original_name, "b.jpg");
    assert_eq!(files[3].format, "JPEG");
    assert_eq!(files[3].size, 2);
}

#[test]
fn batch_fails_fast_on_the_first_pair() {
    let mut c = DocumentConverter::new();
    let request = ConvertRequest {
        files: vec![
            file("a.txt", "text/plain", b"hi"),
            file("b.pdf", "application/pdf", &[1]),
        ],
        exam_type: "neet".to_string(),
        target_formats: vec!["PDF".to_string(), "JPEG".to_string()],
        max_sizes: vec![],
    };
    let e = c.convert_documents(&request).unwrap_err();
    assert_eq!(e.code, "CONVERSION_NOT_SUPPORTED");
    let resp = to_response(Err(e));
    assert!(!resp.success);
    assert!(resp.files.is_empty());
    assert!(resp.error.is_some());
    assert_eq!(c.stored_count(), 0);
}

#[test]
fn batch_applies_per_format_ceilings() {
    let mut c = DocumentConverter::new();
    let request = ConvertRequest {
        files: vec![file("a.pdf", "application/pdf", &[1u8; 20])],
        exam_type: "neet".to_string(),
        target_formats: vec!["PDF".to_string()],
        max_sizes: vec![("PDF".to_string(), 10)],
    };
    let e = c.convert_documents(&request).unwrap_err();
    assert_eq!(e.code, "SIZE_LIMIT_EXCEEDED");
    assert_eq!(
        e.message,
        "Converted file size (20 bytes) exceeds maximum allowed size (10 bytes)"
    );
}

#[test]
fn batch_rejects_payloads_that_are_not_base64() {
    let mut c = DocumentConverter::new();
    let request = ConvertRequest {
        files: vec![FileData {
            name: "bad.pdf".to_string(),
            content: "!!!not-base64!!!".to_string(),
            mime_type: "application/pdf".to_string(),
        }],
        exam_type: "neet".to_string(),
        target_formats: vec!["PDF".to_string()],
        max_sizes: vec![],
    };
    let e = c.convert_documents(&request).unwrap_err();
    assert_eq!(e.code, "DECODE_ERROR");
    assert!(e.message.starts_with("Failed to decode file content: "));
}

#[test]
fn batch_decodes_base64_payloads() {
    let mut c = DocumentConverter::new();
    let request = ConvertRequest {
        files: vec![file("h.pdf", "application/pdf", b"hello")],
        exam_type: "neet".to_string(),
        target_formats: vec!["PDF".to_string()],
        max_sizes: vec![],
    };
    let files = c.convert_documents(&request).unwrap();
    assert_eq!(files[0].size, 5);
}

#[test]
fn batch_with_unknown_format_yields_unsupported_format() {
    let mut c = DocumentConverter::new();
    let request = ConvertRequest {
        files: vec![file("a.pdf", "application/pdf", &[1])],
        exam_type: "neet".to_string(),
        target_formats: vec!["TIFF".to_string()],
        max_sizes: vec![],
    };
    let e = c.convert_documents(&request).unwrap_err();
    assert_eq!(e.code, "UNSUPPORTED_FORMAT");
    assert_eq!(e.message, "Unsupported format: TIFF");
}

#[test]
fn response_wraps_success_and_failure() {
    let mut c = DocumentConverter::new();
    let d = doc("a.pdf", "application/pdf", &[1]);
    let cf = c.convert_to_format(&d, "PDF", 100).unwrap();
    let resp = to_response(Ok(vec![cf]));
    assert!(resp.success);
    assert_eq!(resp.files.len(), 1);
    assert!(resp.error.is_none());
    let e = c.convert_to_format(&doc("t.txt", "text/plain", b"x"), "PDF", 100).unwrap_err();
    let resp2 = to_response(Err(e));
    assert!(!resp2.success);
    assert_eq!(
        resp2.error.unwrap(),
        "CONVERSION_NOT_SUPPORTED: Cannot convert text/plain to PDF"
    );
}

#[test]
fn error_rendering_joins_code_and_message() {
    let mut c = DocumentConverter::new();
    let e = c.convert_to_format(&doc("t.txt", "text/plain", b"x"), "PNG", 100).unwrap_err();
    assert_eq!(
        e.to_display_string(),
        "CONVERSION_NOT_SUPPORTED: Cannot convert text/plain to PNG"
    );
}

#[test]
fn sizes_are_rendered_in_decimal() {
    assert_eq!(u64_to_string(0), "0");
    assert_eq!(u64_to_string(7), "7");
    assert_eq!(u64_to_string(10), "10");
    assert_eq!(u64_to_string(512000), "512000");
    assert_eq!(u64_to_string(2097152), "2097152");
    assert_eq!(u64_to_string(u64::MAX), "18446744073709551615");
}
