use myaitoimg::json::JsonValue;
use myaitoimg::model::{GeneratePayload, ProcessMode, ProviderConfig, ProviderKind, ReferenceImage};
use myaitoimg::prompt::build_prompt;
use myaitoimg::requests::{
    auth_header, build_gemini_parts, collect_uploads, gemini_body, gemini_request, gemini_url, image_part,
    multipart_endpoint, normalize_size, openai_compatible_request, openai_form_fields, openai_json_body,
    OpenAiBody,
};
use myaitoimg::validation::{generate_images, validate_payload, Route};

fn s(text: &str) -> String {
    text.to_string()
}

fn string(text: &str) -> JsonValue {
    JsonValue::Str(text.to_string())
}

fn object(entries: Vec<(&str, JsonValue)>) -> JsonValue {
    JsonValue::Object(entries.into_iter().map(|(k, v)| (k.to_string(), v)).collect())
}

fn provider(kind: ProviderKind) -> ProviderConfig {
    ProviderConfig {
        name: s("OpenAI"),
        kind,
        endpoint: s(" https://api.example.com/v1/images/generations "),
        edit_endpoint: s(""),
        api_key: s(" sk-test "),
        model: s("gpt-image-2"),
        auth_header: s("Authorization"),
        auth_prefix: s("Bearer "),
    }
}

fn image(name: &str, mime: &str, data: &str) -> ReferenceImage {
    ReferenceImage { name: s(name), mime_type: s(mime), data: s(data) }
}

fn payload(mode: ProcessMode) -> GeneratePayload {
    GeneratePayload {
        provider: provider(ProviderKind::Openai),
        prompt: s("  a red fox  "),
        mode,
        size: s("1024x1024"),
        aspect_ratio: s("1:1"),
        image_size: s("1K"),
        quality: s("high"),
        format: s("png"),
        background: s("auto"),
        moderation: s("auto"),
        compression: 80,
        count: 1,
        search_grounding: false,
        thinking: false,
        project: s(""),
        tags: s(""),
        reference_images: vec![],
        mask_image: None,
    }
}

#[test]
fn validation_accepts_a_complete_request() {
    assert_eq!(validate_payload(&payload(ProcessMode::Generate)), Ok(()));
}

#[test]
fn validation_reports_the_first_problem() {
    let mut p = payload(ProcessMode::Generate);
    p.prompt = s(" \t\n");
    p.count = 0;
    assert_eq!(validate_payload(&p), Err(s("提示词不能为空")));
    let mut p = payload(ProcessMode::Generate);
    p.provider.endpoint = s("\u{3000}");
    assert_eq!(validate_payload(&p), Err(s("Endpoint 不能为空")));
    let mut p = payload(ProcessMode::Generate);
    p.provider.model = s("");
    assert_eq!(validate_payload(&p), Err(s("模型不能为空")));
    let mut p = payload(ProcessMode::Generate);
    p.provider.api_key = s("   ");
    assert_eq!(validate_payload(&p), Err(s("API Key 不能为空")));
    let mut p = payload(ProcessMode::Generate);
    p.count = 5;
    assert_eq!(validate_payload(&p), Err(s("数量必须在 1 到 4 之间")));
    p.count = 4;
    assert_eq!(validate_payload(&p), Ok(()));
    let p = payload(ProcessMode::Edit);
    assert_eq!(validate_payload(&p), Err(s("图生图、局部、变体模式需要至少一张参考图")));
    let mut p = payload(ProcessMode::Variation);
    p.reference_images.push(image("a.png", "image/png", "QQ=="));
    assert_eq!(validate_payload(&p), Ok(()));
}

#[test]
fn generate_images_routes_by_provider_kind() {
    let mut p = payload(ProcessMode::Generate);
    assert_eq!(generate_images(&p), Ok(Route::OpenAiCompatible));
    p.provider.kind = ProviderKind::Custom;
    assert_eq!(generate_images(&p), Ok(Route::OpenAiCompatible));
    p.provider.kind = ProviderKind::Gemini;
    assert_eq!(generate_images(&p), Ok(Route::Gemini));
    p.count = 9;
    assert_eq!(generate_images(&p), Err(s("数量必须在 1 到 4 之间")));
}

#[test]
fn prompt_lists_mode_prompt_and_extras() {
    let p = payload(ProcessMode::Generate);
    assert_eq!(build_prompt(&p), "模式：文生图\n提示词：a red fox");
    let mut p = payload(ProcessMode::Variation);
    p.project = s(" 海报 ");
    p.tags = s("  ");
    p.reference_images = vec![image("a.png", "image/png", ""), image("b.jpg", "image/jpeg", "")];
    assert_eq!(build_prompt(&p), "模式：变体或局部修改\n提示词：a red fox\n项目：海报\n参考图：a.png, b.jpg");
    let mut p = payload(ProcessMode::Edit);
    p.tags = s("cat,cute");
    assert_eq!(build_prompt(&p), "模式：图生图\n提示词：a red fox\n标签：cat,cute");
}

#[test]
fn normalize_size_keeps_the_size() {
    assert_eq!(normalize_size("1024x1536"), "1024x1536");
    assert_eq!(normalize_size("auto"), "auto");
    assert_eq!(normalize_size("xx"), "xx");
}

#[test]
fn auth_header_joins_prefix_and_key() {
    let h = auth_header(&provider(ProviderKind::Openai)).unwrap();
    assert_eq!(h.name, "Authorization");
    assert_eq!(h.value, "Bearer sk-test");
    let mut p = provider(ProviderKind::Gemini);
    p.auth_header = s(" x-goog-api-key ");
    p.auth_prefix = s("  ");
    let h = auth_header(&p).unwrap();
    assert_eq!(h.name, "x-goog-api-key");
    assert_eq!(h.value, "sk-test");
}

#[test]
fn auth_header_rejects_bad_names_and_values() {
    let mut p = provider(ProviderKind::Openai);
    p.auth_header = s("Bad Header");
    assert_eq!(auth_header(&p), Err(s("鉴权 Header 名称无效")));
    p.auth_header = s("");
    assert_eq!(auth_header(&p), Err(s("鉴权 Header 名称无效")));
    let mut p = provider(ProviderKind::Openai);
    p.api_key = s("sk\u{7f}x");
    assert_eq!(auth_header(&p), Err(s("API Key 格式无效")));
    let mut p = provider(ProviderKind::Openai);
    p.api_key = s("密钥");
    assert_eq!(auth_header(&p).unwrap().value, "Bearer 密钥");
}

#[test]
fn openai_json_body_lists_the_fields() {
    let mut p = payload(ProcessMode::Generate);
    p.count = 3;
    let expected = object(vec![
        ("model", string("gpt-image-2")),
        ("prompt", string("模式：文生图\n提示词：a red fox")),
        ("size", string("1024x1024")),
        ("quality", string("high")),
        ("n", JsonValue::Number(s("3"))),
        ("response_format", string("b64_json")),
        ("output_format", string("png")),
        ("background", string("auto")),
        ("moderation", string("auto")),
    ]);
    assert_eq!(openai_json_body(&p), expected);
}

#[test]
fn openai_json_body_adds_compression_for_jpeg_and_webp() {
    for format in ["jpeg", "webp"] {
        let mut p = payload(ProcessMode::Generate);
        p.format = s(format);
        p.compression = 100;
        match openai_json_body(&p) {
            JsonValue::Object(entries) => {
                assert_eq!(entries.len(), 10);
                assert_eq!(entries[9], (s("output_compression"), JsonValue::Number(s("100"))));
            },
            _ => panic!("not an object"),
        }
    }
    let mut p = payload(ProcessMode::Generate);
    p.format = s("JPEG");
    match openai_json_body(&p) {
        JsonValue::Object(entries) => assert_eq!(entries.len(), 9),
        _ => panic!("not an object"),
    }
}

#[test]
fn openai_form_fields_list_the_fields() {
    let mut p = payload(ProcessMode::Edit);
    p.format = s("webp");
    p.compression = 0;
    p.count = 2;
    let fields = openai_form_fields(&p);
    let names: Vec<&str> = fields.iter().map(|f| f.0.as_str()).collect();
    assert_eq!(
        names,
        vec!["model", "prompt", "size", "quality", "n", "response_format", "output_format", "background", "output_compression"]
    );
    assert_eq!(fields[4].1, "2");
    assert_eq!(fields[8].1, "0");
}

#[test]
fn multipart_endpoint_prefers_the_edit_endpoint() {
    let mut p = provider(ProviderKind::Custom);
    assert_eq!(multipart_endpoint(&p), "https://api.example.com/v1/images/generations");
    p.edit_endpoint = s(" https://api.example.com/v1/images/edits\n");
    assert_eq!(multipart_endpoint(&p), "https://api.example.com/v1/images/edits");
}

#[test]
fn image_part_decodes_and_checks_the_image() {
    let part = image_part(&image("fox.png", "image/png", "aW1hZ2U=")).unwrap();
    assert_eq!(part.bytes, b"image".to_vec());
    assert_eq!(part.file_name, "fox.png");
    assert_eq!(part.mime_type, "image/png");
    assert_eq!(image_part(&image("fox.png", "image/png", "not base64!")), Err(s("参考图 fox.png 不是有效 base64")));
    assert_eq!(image_part(&image("fox.png", "image/png", "aW1hZ2U")), Err(s("参考图 fox.png 不是有效 base64")));
    assert_eq!(image_part(&image("fox.png", "not a mime", "aW1hZ2U=")), Err(s("参考图 fox.png MIME 类型无效")));
}

#[test]
fn uploads_are_references_then_mask_and_stop_at_the_first_error() {
    let mut p = payload(ProcessMode::Edit);
    p.reference_images = vec![image("a.png", "image/png", "QQ=="), image("b.png", "image/png", "Qg==")];
    p.mask_image = Some(image("mask.png", "image/png", "Qw=="));
    let files = collect_uploads(&p).unwrap();
    let fields: Vec<&str> = files.iter().map(|f| f.0.as_str()).collect();
    assert_eq!(fields, vec!["image", "image", "mask"]);
    assert_eq!(files[1].1.bytes, b"B".to_vec());
    assert_eq!(files[2].1.bytes, b"C".to_vec());
    p.reference_images[1].data = s("%%%");
    p.mask_image = Some(image("mask.png", "bad", "Qw=="));
    assert_eq!(collect_uploads(&p), Err(s("参考图 b.png 不是有效 base64")));
    p.reference_images[1].data = s("Qg==");
    assert_eq!(collect_uploads(&p), Err(s("参考图 mask.png MIME 类型无效")));
}

#[test]
fn openai_request_is_json_for_generation() {
    let p = payload(ProcessMode::Generate);
    let req = openai_compatible_request(&p).unwrap();
    assert_eq!(req.endpoint, "https://api.example.com/v1/images/generations");
    assert_eq!(req.auth.value, "Bearer sk-test");
    assert!(matches!(req.body, OpenAiBody::Json(_)));
}

#[test]
fn openai_request_is_multipart_for_editing() {
    let mut p = payload(ProcessMode::Edit);
    p.provider.edit_endpoint = s("https://api.example.com/v1/images/edits");
    p.reference_images = vec![image("a.png", "image/png", "QQ==")];
    let req = openai_compatible_request(&p).unwrap();
    assert_eq!(req.endpoint, "https://api.example.com/v1/images/edits");
    match req.body {
        OpenAiBody::Multipart { fields, files } => {
            assert_eq!(fields.len(), 8);
            assert_eq!(files.len(), 1);
        },
        _ => panic!("expected a multipart body"),
    }
    p.provider.auth_header = s("bad:name");
    p.reference_images = vec![image("a.png", "image/png", "???")];
    assert_eq!(openai_compatible_request(&p).map(|_| ()), Err(s("鉴权 Header 名称无效")));
}

#[test]
fn gemini_url_fills_model_and_key() {
    let mut p = provider(ProviderKind::Gemini);
    p.endpoint = s("https://g.example.com/v1beta/models/{model}:generateContent");
    p.model = s(" gemini-3-pro-image-preview ");
    assert_eq!(
        gemini_url(&p),
        "https://g.example.com/v1beta/models/gemini-3-pro-image-preview:generateContent?key=sk-test"
    );
    p.endpoint = s("https://relay.example.com/{model}/{model}?alt=json");
    p.model = s("m");
    assert_eq!(gemini_url(&p), "https://relay.example.com/m/m?alt=json&key=sk-test");
}

#[test]
fn gemini_parts_carry_prompt_images_and_mask() {
    let mut p = payload(ProcessMode::Edit);
    p.reference_images = vec![image("a.png", "image/png", "QQ==")];
    p.mask_image = Some(image("m.png", "image/png", "TQ=="));
    let parts = build_gemini_parts(&p);
    let inline = |mime: &str, data: &str| {
        object(vec![("inlineData", object(vec![("mimeType", string(mime)), ("data", string(data))]))])
    };
    assert_eq!(
        parts,
        vec![
            object(vec![("text", string("模式：图生图\n提示词：a red fox\n参考图：a.png"))]),
            inline("image/png", "QQ=="),
            inline("image/png", "TQ=="),
            object(vec![("text", string("上一张图片是局部修改蒙版，请只修改蒙版区域。"))]),
        ]
    );
}

#[test]
fn gemini_body_sets_generation_config() {
    let mut p = payload(ProcessMode::Generate);
    p.thinking = true;
    p.search_grounding = true;
    p.aspect_ratio = s("16:9");
    p.image_size = s("2K");
    let body = gemini_body(&p, JsonValue::Number(s("0.7")));
    let expected = object(vec![
        (
            "contents",
            JsonValue::Array(vec![object(vec![
                ("role", string("user")),
                ("parts", JsonValue::Array(vec![object(vec![("text", string("模式：文生图\n提示词：a red fox"))])])),
            ])]),
        ),
        (
            "generationConfig",
            object(vec![
                ("responseModalities", JsonValue::Array(vec![string("TEXT"), string("IMAGE")])),
                ("temperature", JsonValue::Number(s("0.7"))),
                ("imageConfig", object(vec![("aspectRatio", string("16:9")), ("imageSize", string("2K"))])),
                ("thinkingConfig", object(vec![("thinkingBudget", JsonValue::Number(s("-1")))])),
            ]),
        ),
        ("tools", JsonValue::Array(vec![object(vec![("googleSearch", object(vec![]))])])),
    ]);
    assert_eq!(body, expected);
    p.thinking = false;
    p.search_grounding = false;
    let req = gemini_request(&p, JsonValue::Number(s("1")));
    match req.body {
        JsonValue::Object(entries) => {
            assert_eq!(entries[2].1, JsonValue::Array(vec![]));
            match &entries[1].1 {
                JsonValue::Object(config) => {
                    assert_eq!(config[3].1, object(vec![("thinkingBudget", JsonValue::Number(s("0")))]))
                },
                _ => panic!("not an object"),
            }
        },
        _ => panic!("not an object"),
    }
}
