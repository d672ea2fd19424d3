use doc_converter::config::exam_config_for;
use doc_converter::convert::max_size_for;

#[test]
fn neet_profile_allows_pdf_and_jpeg() {
    let c = exam_config_for("neet").unwrap();
    assert_eq!(c.name, "NEET");
    assert_eq!(c.formats, vec!["PDF".to_string(), "JPEG".to_string()]);
    assert_eq!(
        c.max_sizes,
        vec![("PDF".to_string(), 2 * 1024 * 1024), ("JPEG".to_string(), 500 * 1024)]
    );
}

#[test]
fn jee_profile_allows_three_formats() {
    let c = exam_config_for("jee").unwrap();
    assert_eq!(c.name, "JEE");
    assert_eq!(
        c.formats,
        vec!["PDF".to_string(), "JPEG".to_string(), "PNG".to_string()]
    );
    assert_eq!(
        c.max_sizes,
        vec![
            ("PDF".to_string(), 1024 * 1024),
            ("JPEG".to_string(), 300 * 1024),
            ("PNG".to_string(), 300 * 1024),
        ]
    );
}

#[test]
fn upsc_profile_allows_three_formats() {
    let c = exam_config_for("upsc").unwrap();
    assert_eq!(c.name, "UPSC");
    assert_eq!(
        c.formats,
        vec!["PDF".to_string(), "JPEG".to_string(), "PNG".to_string()]
    );
    assert_eq!(
        c.max_sizes,
        vec![
            ("PDF".to_string(), 3 * 1024 * 1024),
            ("JPEG".to_string(), 1024 * 1024),
            ("PNG".to_string(), 1024 * 1024),
        ]
    );
}

#[test]
fn unknown_profile_has_no_configuration() {
    assert!(exam_config_for("ssc").is_none());
    assert!(exam_config_for("").is_none());
    assert!(exam_config_for("NEET").is_none());
}

#[test]
fn size_lookup_finds_the_format_or_is_unbounded() {
    let sizes = vec![("PDF".to_string(), 100u64), ("JPEG".to_string(), 50u64)];
    assert_eq!(max_size_for(&sizes, "PDF"), 100);
    assert_eq!(max_size_for(&sizes, "JPEG"), 50);
    assert_eq!(max_size_for(&sizes, "PNG"), u64::MAX);
    let empty: Vec<(String, u64)> = vec![];
    assert_eq!(max_size_for(&empty, "PDF"), u64::MAX);
}
