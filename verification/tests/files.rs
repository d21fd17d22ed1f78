use base64::Engine;
use myaitoimg::files::{decode_image_data_url, safe_file_name, safe_file_name_at};
use myaitoimg::responses::data_url;

fn s(text: &str) -> String {
    text.to_string()
}

#[test]
fn decodes_data_urls_and_bare_base64() {
    assert_eq!(decode_image_data_url("data:image/png;base64,aW1hZ2U="), Ok(b"image".to_vec()));
    assert_eq!(decode_image_data_url("aW1hZ2U="), Ok(b"image".to_vec()));
    assert_eq!(decode_image_data_url(""), Ok(vec![]));
    assert_eq!(decode_image_data_url("a,b,aW1hZ2U="), Err(s("图片 data URL 不是有效 base64")));
}

#[test]
fn reports_bad_base64() {
    assert_eq!(decode_image_data_url("data:image/png;base64,@@@"), Err(s("图片 data URL 不是有效 base64")));
    assert_eq!(decode_image_data_url("@@@"), Err(s("图片数据不是有效 base64")));
    assert_eq!(decode_image_data_url("aW1hZ2U"), Err(s("图片数据不是有效 base64")));
}

#[test]
fn saved_bytes_are_the_sent_bytes() {
    let bytes: Vec<u8> = (0u8..=255).collect();
    let b64 = base64::engine::general_purpose::STANDARD.encode(&bytes);
    let url = data_url("image/webp", &b64);
    assert_eq!(decode_image_data_url(&url), Ok(bytes));
}

#[test]
fn file_names_keep_safe_characters_and_add_the_extension() {
    assert_eq!(safe_file_name_at("my fox!", "image/png", 1), "my-fox.png");
    assert_eq!(safe_file_name_at("--a_b-C9--", "image/jpeg", 1), "a_b-C9.jpg");
    assert_eq!(safe_file_name_at("photo", "image/jpg", 1), "photo.jpg");
    assert_eq!(safe_file_name_at("photo", "image/webp", 1), "photo.webp");
    assert_eq!(safe_file_name_at("photo", "application/octet-stream", 1), "photo.png");
    assert_eq!(safe_file_name_at("photo.png", "image/png", 1), "photo-png.png");
    assert_eq!(safe_file_name_at("狐狸fox", "image/png", 1), "fox.png");
}

#[test]
fn file_names_without_safe_characters_use_the_clock() {
    assert_eq!(safe_file_name_at("", "image/png", 1717171717171), "myaitoimg-1717171717171.png");
    assert_eq!(safe_file_name_at("狐狸", "image/webp", 0), "myaitoimg-0.webp");
    assert_eq!(safe_file_name_at("---", "image/jpeg", 42), "myaitoimg-42.jpg");
    let named = safe_file_name("", "image/png");
    assert!(named.starts_with("myaitoimg-"));
    assert!(named.ends_with(".png"));
    assert!(named["myaitoimg-".len()..named.len() - 4].chars().all(|c| c.is_ascii_digit()));
    assert_eq!(safe_file_name("fox", "image/png"), "fox.png");
}
