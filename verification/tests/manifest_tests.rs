use ingenuity_dl::errors::PipelineError;
use ingenuity_dl::manifest::{extract_urls, parse_response, resolve_sol, SolManifest};

fn manifest(num_images: Option<i64>, latest_sol: Option<i64>, urls: Vec<&str>) -> SolManifest {
    SolManifest {
        num_images,
        latest_sol,
        urls: urls.into_iter().map(String::from).collect(),
    }
}

#[test]
fn resolve_explicit_sol_found() {
    let m = manifest(Some(12), Some(287), vec![]);
    assert_eq!(resolve_sol(Some(42), &m), Ok(42));
}

#[test]
fn resolve_explicit_sol_not_found() {
    let m = manifest(None, None, vec![]);
    assert_eq!(
        resolve_sol(Some(9999), &m),
        Err(PipelineError::SolNotFound { sol: 9999 })
    );
}

#[test]
fn resolve_latest_sol() {
    let m = manifest(Some(1), Some(287), vec![]);
    assert_eq!(resolve_sol(None, &m), Ok(287));
}

#[test]
fn resolve_latest_sol_missing_is_malformed() {
    let m = manifest(Some(1), None, vec![]);
    assert_eq!(resolve_sol(None, &m), Err(PipelineError::MalformedResponse));
}

#[test]
fn resolve_latest_from_mocked_response() {
    let text = r#"{
        "num_images": 1,
        "images": [
            { "sol": 287, "image_files": { "full_res": "https://example.org/a.jpg" } }
        ]
    }"#;
    let m = parse_response(text).unwrap();
    assert_eq!(m.latest_sol, Some(287));
    assert_eq!(resolve_sol(None, &m), Ok(287));
}

#[test]
fn requested_sol_with_null_count_fails_before_any_download() {
    let text = r#"{ "num_images": null, "images": [] }"#;
    let m = parse_response(text).unwrap();
    assert_eq!(m.num_images, None);
    assert_eq!(
        resolve_sol(Some(9999), &m),
        Err(PipelineError::SolNotFound { sol: 9999 })
    );
    // The URL list of such an answer is never handed out either.
    assert_eq!(extract_urls(m), Err(PipelineError::MalformedResponse));
}

#[test]
fn extract_urls_in_manifest_order() {
    let text = r#"{
        "num_images": 3,
        "images": [
            { "sol": 5, "image_files": { "full_res": "a.jpg" } },
            { "sol": 5, "image_files": { "full_res": "b.jpg" } },
            { "sol": 5, "image_files": { "full_res": "c.jpg" } }
        ]
    }"#;
    let m = parse_response(text).unwrap();
    let urls = extract_urls(m).unwrap();
    assert_eq!(urls, vec!["a.jpg".to_string(), "b.jpg".to_string(), "c.jpg".to_string()]);
}

#[test]
fn extract_urls_missing_count_is_malformed() {
    let m = manifest(None, Some(3), vec!["a.jpg"]);
    assert_eq!(extract_urls(m), Err(PipelineError::MalformedResponse));
}

#[test]
fn extract_urls_short_manifest_is_malformed() {
    // The count promises three entries but only two have a URL: all-or-nothing.
    let text = r#"{
        "num_images": 3,
        "images": [
            { "sol": 5, "image_files": { "full_res": "a.jpg" } },
            { "sol": 5, "image_files": { "full_res": "b.jpg" } }
        ]
    }"#;
    let m = parse_response(text).unwrap();
    assert_eq!(extract_urls(m), Err(PipelineError::MalformedResponse));
}

#[test]
fn extract_urls_wrong_typed_url_is_malformed() {
    let text = r#"{
        "num_images": 2,
        "images": [
            { "sol": 5, "image_files": { "full_res": "a.jpg" } },
            { "sol": 5, "image_files": { "full_res": 42 } }
        ]
    }"#;
    let m = parse_response(text).unwrap();
    assert_eq!(extract_urls(m), Err(PipelineError::MalformedResponse));
}

#[test]
fn empty_manifest_yields_zero_urls() {
    let text = r#"{ "num_images": 0, "images": [] }"#;
    let m = parse_response(text).unwrap();
    assert_eq!(extract_urls(m), Ok(Vec::new()));
}

#[test]
fn negative_count_asks_for_no_urls() {
    let m = manifest(Some(-4), None, vec![]);
    assert_eq!(extract_urls(m), Ok(Vec::new()));
}

#[test]
fn non_integer_count_reads_as_absent() {
    let text = r#"{ "num_images": "three", "images": [] }"#;
    let m = parse_response(text).unwrap();
    assert_eq!(m.num_images, None);
}

#[test]
fn missing_images_array_is_malformed() {
    let text = r#"{ "num_images": 2 }"#;
    let m = parse_response(text).unwrap();
    assert_eq!(m.num_images, Some(2));
    assert_eq!(m.urls, Vec::<String>::new());
    assert_eq!(extract_urls(m), Err(PipelineError::MalformedResponse));
}

#[test]
fn unparsable_text_is_malformed() {
    assert_eq!(
        parse_response("this is not json").map(|_| ()),
        Err(PipelineError::MalformedResponse)
    );
}

#[test]
fn extra_urls_beyond_count_are_not_handed_out() {
    let m = manifest(Some(1), None, vec!["a.jpg", "b.jpg"]);
    assert_eq!(extract_urls(m), Ok(vec!["a.jpg".to_string()]));
}
