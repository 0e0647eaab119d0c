use imggen::api::{endpoint, format_http_error, image_extension, ApiErrorResponse, ApiErrorValue};
use imggen::mcp::{select_provider, ImgGenMcp};
use imggen::storage::{Provider, ProviderState};

#[test]
fn appends_generation_path_without_duplicate_slashes() {
    assert_eq!(
        endpoint("https://api.example.com/v1", "images/generations"),
        "https://api.example.com/v1/images/generations"
    );
    assert_eq!(
        endpoint("https://api.example.com/v1/", "/images/generations"),
        "https://api.example.com/v1/images/generations"
    );
    assert_eq!(
        endpoint(
            "https://api.example.com/v1/images/generations",
            "images/generations"
        ),
        "https://api.example.com/v1/images/generations"
    );
}

#[test]
fn formats_structured_http_errors() {
    // `{"error":{"message":"上游服务暂时不可用"}}` read as an error body.
    let parsed = Some(ApiErrorResponse {
        error: Some(ApiErrorValue {
            message: Some("上游服务暂时不可用".to_string()),
            text: None,
        }),
        message: None,
        detail: None,
    });
    let error = format_http_error(
        "图片接口请求",
        "503 Service Unavailable",
        "",
        r#"{"error":{"message":"上游服务暂时不可用"}}"#,
        &parsed,
    );
    assert!(error.contains("HTTP 503 Service Unavailable"));
    assert!(error.contains("上游服务暂时不可用"));
}

#[test]
fn formats_plain_and_empty_http_errors() {
    let plain = format_http_error("图片接口请求", "503", "", "upstream unavailable", &None);
    assert!(plain.contains("upstream unavailable"));

    let empty = format_http_error("图片接口请求", "503", "", " ", &None);
    assert_eq!(empty, "图片接口请求失败：HTTP 503");
}

#[test]
fn detects_image_format_from_content() {
    assert_eq!(image_extension(b"\x89PNG\r\n\x1a\nrest", "JPEG"), "png");
    assert_eq!(image_extension(&[0xff, 0xd8, 0xff, 0x00], "PNG"), "jpg");
    assert_eq!(image_extension(b"RIFFxxxxWEBPrest", "PNG"), "webp");
    assert_eq!(image_extension(b"unknown", "WEBP"), "webp");
}

#[test]
fn selects_current_or_named_provider() {
    let state = ProviderState::default_state();
    assert_eq!(select_provider(&state, None).unwrap().name, "本地演示 API");
    assert!(select_provider(&state, Some("missing")).is_err());
}

#[test]
fn provider_output_does_not_include_api_key() {
    let provider = Provider {
        name: "test".to_string(),
        base_url: "https://example.com".to_string(),
        api_key: "secret".to_string(),
        model: "model".to_string(),
        models: vec!["model".to_string()],
    };
    let shown = ImgGenMcp::provider_output(&provider);
    let mut object = serde_json::Map::new();
    object.insert("name".to_string(), serde_json::Value::String(shown.name));
    object.insert("base_url".to_string(), serde_json::Value::String(shown.base_url));
    object.insert("model".to_string(), serde_json::Value::String(shown.model));
    object.insert(
        "models".to_string(),
        serde_json::Value::Array(shown.models.into_iter().map(serde_json::Value::String).collect()),
    );
    let output = serde_json::to_string(&serde_json::Value::Object(object)).unwrap();
    assert!(!output.contains("secret"));
    assert!(!output.contains("api_key"));
}
