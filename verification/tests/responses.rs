use base64::Engine;
use myaitoimg::json::JsonValue;
use myaitoimg::model::{ProviderConfig, ProviderKind};
use myaitoimg::responses::{
    check_status, compact_error, data_url, describe_error_chain, parse_gemini_images, parse_openai_images,
};

fn s(text: &str) -> String {
    text.to_string()
}

fn string(text: &str) -> JsonValue {
    JsonValue::Str(text.to_string())
}

fn object(entries: Vec<(&str, JsonValue)>) -> JsonValue {
    JsonValue::Object(entries.into_iter().map(|(k, v)| (k.to_string(), v)).collect())
}

fn openai_provider() -> ProviderConfig {
    ProviderConfig {
        name: s("OpenAI"),
        kind: ProviderKind::Openai,
        endpoint: s("https://example.com"),
        edit_endpoint: s("https://example.com/edits"),
        api_key: s("key"),
        model: s("gpt-image-2"),
        auth_header: s("Authorization"),
        auth_prefix: s("Bearer "),
    }
}

fn gemini_provider() -> ProviderConfig {
    ProviderConfig {
        name: s("Google Gemini"),
        kind: ProviderKind::Gemini,
        endpoint: s("https://example.com"),
        edit_endpoint: s("https://example.com"),
        api_key: s("key"),
        model: s("gemini-3-pro-image-preview"),
        auth_header: s("x-goog-api-key"),
        auth_prefix: s(""),
    }
}

#[test]
fn parses_openai_b64_images() {
    let raw = base64::engine::general_purpose::STANDARD.encode("image");
    let value = object(vec![(
        "data",
        JsonValue::Array(vec![object(vec![("b64_json", JsonValue::Str(raw)), ("mime_type", string("image/png"))])]),
    )]);
    let provider = openai_provider();

    let images = parse_openai_images(&value, &provider).unwrap();
    assert_eq!(images.len(), 1);
    assert!(images[0].data_url.starts_with("data:image/png;base64,"));
}

#[test]
fn parses_gemini_inline_data_images() {
    let raw = base64::engine::general_purpose::STANDARD.encode("image");
    let value = object(vec![(
        "candidates",
        JsonValue::Array(vec![object(vec![(
            "content",
            object(vec![(
                "parts",
                JsonValue::Array(vec![object(vec![(
                    "inlineData",
                    object(vec![("mimeType", string("image/png")), ("data", JsonValue::Str(raw))]),
                )])]),
            )]),
        )])]),
    )]);
    let provider = gemini_provider();

    let images = parse_gemini_images(&value, &provider).unwrap();
    assert_eq!(images.len(), 1);
    assert_eq!(images[0].mime_type, "image/png");
}

#[test]
fn openai_images_keep_order_and_fall_back_to_url() {
    let value = object(vec![(
        "data",
        JsonValue::Array(vec![
            object(vec![("b64_json", string("aW1hZ2U="))]),
            object(vec![("revised_prompt", string("nothing here"))]),
            object(vec![("url", string("https://cdn.example.com/a.webp")), ("mime_type", string("image/webp"))]),
            object(vec![("b64_json", string("data:image/jpeg;base64,AAAA")), ("mime_type", string("image/jpeg"))]),
            string("not an object"),
        ]),
    )]);
    let images = parse_openai_images(&value, &openai_provider()).unwrap();
    assert_eq!(images.len(), 3);
    assert_eq!(images[0].data_url, "data:image/png;base64,aW1hZ2U=");
    assert_eq!(images[0].mime_type, "image/png");
    assert_eq!(images[0].model, "gpt-image-2");
    assert_eq!(images[0].provider, "OpenAI");
    assert_eq!(images[1].data_url, "https://cdn.example.com/a.webp");
    assert_eq!(images[1].mime_type, "image/webp");
    assert_eq!(images[2].data_url, "data:image/jpeg;base64,AAAA");
}

#[test]
fn openai_b64_wins_over_url() {
    let value = object(vec![(
        "data",
        JsonValue::Array(vec![object(vec![("url", string("https://x/y.png")), ("b64_json", string("QQ=="))])]),
    )]);
    let images = parse_openai_images(&value, &openai_provider()).unwrap();
    assert_eq!(images[0].data_url, "data:image/png;base64,QQ==");
}

#[test]
fn openai_non_string_mime_type_means_png() {
    let value = object(vec![(
        "data",
        JsonValue::Array(vec![object(vec![("b64_json", string("QQ==")), ("mime_type", JsonValue::Number(s("3")))])]),
    )]);
    let images = parse_openai_images(&value, &openai_provider()).unwrap();
    assert_eq!(images[0].mime_type, "image/png");
}

#[test]
fn openai_reply_without_data_array_is_refused() {
    let no_data = object(vec![("created", JsonValue::Number(s("1")))]);
    assert_eq!(parse_openai_images(&no_data, &openai_provider()), Err(s("响应缺少 data 数组")));
    let data_not_array = object(vec![("data", string("x"))]);
    assert_eq!(parse_openai_images(&data_not_array, &openai_provider()), Err(s("响应缺少 data 数组")));
    assert_eq!(parse_openai_images(&JsonValue::Null, &openai_provider()), Err(s("响应缺少 data 数组")));
}

#[test]
fn openai_reply_without_images_is_refused() {
    let value = object(vec![("data", JsonValue::Array(vec![object(vec![("b64_json", JsonValue::Null)])]))]);
    assert_eq!(parse_openai_images(&value, &openai_provider()), Err(s("响应中没有可显示的图片")));
    let empty = object(vec![("data", JsonValue::Array(vec![]))]);
    assert_eq!(parse_openai_images(&empty, &openai_provider()), Err(s("响应中没有可显示的图片")));
}

#[test]
fn gemini_collects_all_candidates_in_order() {
    let part = |data: &str, key: &str, mime_key: &str, mime: &str| {
        object(vec![(key, object(vec![(mime_key, string(mime)), ("data", string(data))]))])
    };
    let value = object(vec![(
        "candidates",
        JsonValue::Array(vec![
            object(vec![(
                "content",
                object(vec![(
                    "parts",
                    JsonValue::Array(vec![
                        object(vec![("text", string("here you go"))]),
                        part("QQ==", "inlineData", "mimeType", "image/jpeg"),
                        part("Qg==", "inline_data", "mime_type", "image/webp"),
                    ]),
                )]),
            )]),
            object(vec![("finishReason", string("SAFETY"))]),
            object(vec![(
                "content",
                object(vec![("parts", JsonValue::Array(vec![part("Qw==", "inlineData", "other", "x")]))]),
            )]),
        ]),
    )]);
    let images = parse_gemini_images(&value, &gemini_provider()).unwrap();
    assert_eq!(images.len(), 3);
    assert_eq!(images[0].data_url, "data:image/jpeg;base64,QQ==");
    assert_eq!(images[1].data_url, "data:image/webp;base64,Qg==");
    assert_eq!(images[1].mime_type, "image/webp");
    assert_eq!(images[2].mime_type, "image/png");
    assert_eq!(images[2].data_url, "data:image/png;base64,Qw==");
    assert_eq!(images[2].model, "gemini-3-pro-image-preview");
    assert_eq!(images[2].provider, "Google Gemini");
}

#[test]
fn gemini_inline_data_that_is_not_an_object_is_skipped() {
    let value = object(vec![(
        "candidates",
        JsonValue::Array(vec![object(vec![(
            "content",
            object(vec![(
                "parts",
                JsonValue::Array(vec![object(vec![
                    ("inlineData", string("oops")),
                    ("inline_data", object(vec![("data", string("QQ=="))])),
                ])]),
            )]),
        )])]),
    )]);
    assert_eq!(parse_gemini_images(&value, &gemini_provider()), Err(s("响应中没有 Gemini inlineData 图片")));
}

#[test]
fn gemini_reply_without_candidates_is_refused() {
    let value = object(vec![("error", object(vec![("message", string("quota"))]))]);
    assert_eq!(parse_gemini_images(&value, &gemini_provider()), Err(s("响应缺少 candidates 数组")));
    let empty = object(vec![("candidates", JsonValue::Array(vec![]))]);
    assert_eq!(parse_gemini_images(&empty, &gemini_provider()), Err(s("响应中没有 Gemini inlineData 图片")));
}

#[test]
fn data_url_wraps_bare_base64() {
    assert_eq!(data_url("image/png", "aW1hZ2U="), "data:image/png;base64,aW1hZ2U=");
    assert_eq!(data_url("", ""), "data:;base64,");
}

#[test]
fn data_url_passes_data_urls_through() {
    assert_eq!(data_url("image/png", "data:image/webp;base64,AAAA"), "data:image/webp;base64,AAAA");
    let once = data_url("image/jpeg", "QUJD");
    assert_eq!(data_url("image/png", &once), once);
}

#[test]
fn compact_error_prefers_json_message() {
    let text = r#"{"error":{"message":"bad key","type":"auth"}}"#;
    let parsed = object(vec![("error", object(vec![("message", string("bad key")), ("type", string("auth"))]))]);
    assert_eq!(compact_error(text, Some(&parsed)), "bad key");
}

#[test]
fn compact_error_truncates_to_500_characters() {
    let text: String = "错".repeat(600);
    let out = compact_error(&text, None);
    assert_eq!(out.chars().count(), 500);
    assert_eq!(out, "错".repeat(500));
    assert_eq!(compact_error("short", None), "short");
    let not_message = object(vec![("error", object(vec![("message", JsonValue::Number(s("4")))]))]);
    assert_eq!(compact_error("plain", Some(&not_message)), "plain");
}

#[test]
fn check_status_reports_status_and_message() {
    assert_eq!(check_status(true, "200 OK", "whatever", None), Ok(()));
    let parsed = object(vec![("error", object(vec![("message", string("no quota"))]))]);
    assert_eq!(
        check_status(false, "429 Too Many Requests", "{}", Some(&parsed)),
        Err(s("接口返回 429 Too Many Requests：no quota"))
    );
    assert_eq!(check_status(false, "502 Bad Gateway", "oops", None), Err(s("接口返回 502 Bad Gateway：oops")));
}

#[test]
fn error_chain_lists_causes() {
    assert_eq!(describe_error_chain("send failed", &vec![]), "send failed");
    assert_eq!(
        describe_error_chain("send failed", &vec![s("connect"), s("refused")]),
        "send failed；原因：connect；原因：refused"
    );
}
