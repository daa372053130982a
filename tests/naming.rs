use gallery_downloader::{normalize_base, page_file_name, parse_base, resource_url, ConfigError, JobError};

#[test]
fn single_digit_index_is_padded_to_three() {
    assert_eq!(page_file_name(7, "jpg"), "007.jpg");
    assert_eq!(page_file_name(1, "webp"), "001.webp");
}

#[test]
fn two_digit_index_gets_one_leading_zero() {
    assert_eq!(page_file_name(42, "webp"), "042.webp");
}

#[test]
fn three_digit_index_is_unpadded() {
    assert_eq!(page_file_name(100, "webp"), "100.webp");
    assert_eq!(page_file_name(999, "jpg"), "999.jpg");
}

#[test]
fn wide_index_is_written_in_full() {
    assert_eq!(page_file_name(1000, "webp"), "1000.webp");
    assert_eq!(page_file_name(4294967295, "jpg"), "4294967295.jpg");
    assert_ne!(page_file_name(1000, "jpg"), page_file_name(100, "jpg"));
}

#[test]
fn index_zero_renders_as_zeros() {
    assert_eq!(page_file_name(0, "png"), "000.png");
}

#[test]
fn normalize_adds_scheme_and_slash() {
    assert_eq!(normalize_base("site.example/gallery"), "https://site.example/gallery/");
}

#[test]
fn normalize_keeps_http_scheme() {
    assert_eq!(normalize_base("http://site.example/g/"), "http://site.example/g/");
}

#[test]
fn normalize_keeps_existing_trailing_slash() {
    assert_eq!(normalize_base("https://site.example/g/"), "https://site.example/g/");
}

#[test]
fn normalize_empty_input() {
    assert_eq!(normalize_base(""), "https://");
}

#[test]
fn parse_base_normalizes_and_serializes() {
    assert_eq!(parse_base("https://Site.Example/a"), Ok("https://site.example/a/".to_string()));
    assert_eq!(parse_base("site.example/gallery"), Ok("https://site.example/gallery/".to_string()));
}

#[test]
fn parse_base_rejects_malformed_authority() {
    assert!(matches!(parse_base("http://[::1"), Err(ConfigError::InvalidUrl(_))));
}

#[test]
fn url_construction_joins_padded_name_below_base() {
    let base = parse_base("https://site.example/gallery").unwrap();
    assert_eq!(
        resource_url(&base, 7, "jpg"),
        Ok("https://site.example/gallery/007.jpg".to_string())
    );
}

#[test]
fn url_construction_keeps_nested_path() {
    let base = parse_base("site.example/a/b").unwrap();
    assert_eq!(resource_url(&base, 12, "webp"), Ok("https://site.example/a/b/012.webp".to_string()));
}

#[test]
fn url_construction_fails_on_unparsable_base() {
    assert!(matches!(resource_url("not a url", 1, "webp"), Err(JobError::InvalidUrl(_))));
}
