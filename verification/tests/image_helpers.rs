#[test]
fn test_base64_decode_standard() {
    let decoded =
        glowbot::media::base64_decode("aGVsbG8=").unwrap();
    assert_eq!(decoded, b"hello");
}

#[test]
fn test_base64_decode_with_data_url_prefix() {
    let decoded = glowbot::media::base64_decode(
        "data:image/png;base64,aGVsbG8=",
    )
    .unwrap();
    assert_eq!(decoded, b"hello");
}

#[test]
fn test_base64_decode_invalid() {
    let result = glowbot::media::base64_decode(
        "!!!not-base64!!!",
    );
    assert!(result.is_err());
}

#[test]
fn test_detect_image_format_png() {
    let data = [0x89, 0x50, 0x4E, 0x47, 0x00, 0x00];
    assert_eq!(
        glowbot::media::detect_image_format(&data),
        Some("png")
    );
}

#[test]
fn test_detect_image_format_jpg() {
    let data = [0xFF, 0xD8, 0xFF, 0x00, 0x00];
    assert_eq!(
        glowbot::media::detect_image_format(&data),
        Some("jpg")
    );
}

#[test]
fn test_detect_image_format_webp() {
    let mut data = vec![b'R', b'I', b'F', b'F', 0x00, 0x00, 0x00, 0x00];
    data.extend_from_slice(b"WEBP");
    assert_eq!(
        glowbot::media::detect_image_format(&data),
        Some("webp")
    );
}

#[test]
fn test_detect_image_format_gif() {
    let data = [b'G', b'I', b'F', b'8', b'9', b'a'];
    assert_eq!(
        glowbot::media::detect_image_format(&data),
        Some("gif")
    );
}

#[test]
fn test_detect_image_format_unknown() {
    let data = [0x00, 0x00, 0x00, 0x00];
    assert_eq!(
        glowbot::media::detect_image_format(&data),
        None
    );
}

#[test]
fn test_image_gen_model_id() {
    assert_eq!(
        glowbot::media::image_gen_model_id(
            "provider/model"
        ),
        "model"
    );
    assert_eq!(
        glowbot::media::image_gen_model_id(
            "black-forest-labs/flux-1.1-pro",
        ),
        "flux-1_1-pro"
    );
    assert_eq!(
        glowbot::media::image_gen_model_id("simple"),
        "simple"
    );
    assert_eq!(
        glowbot::media::image_gen_model_id(
            "provider/model:route",
        ),
        "model_route"
    );
}

#[test]
fn test_guess_mime_png() {
    let data = [0x89, 0x50, 0x4E, 0x47];
    assert_eq!(
        glowbot::media::guess_mime(&data),
        "image/png"
    );
}

#[test]
fn test_guess_mime_jpeg() {
    let data = [0xFF, 0xD8, 0xFF];
    assert_eq!(
        glowbot::media::guess_mime(&data),
        "image/jpeg"
    );
}

#[test]
fn test_guess_mime_default() {
    let data = [0x00, 0x00, 0x00];
    assert_eq!(
        glowbot::media::guess_mime(&data),
        "image/png"
    );
}

#[test]
fn image_data_urls_carry_the_mime_type_and_base64() {
    let png = [0x89u8, 0x50, 0x4E, 0x47, 0x0D, 0x0A];
    assert_eq!(
        glowbot::media::image_data_url(&png),
        "data:image/png;base64,iVBORw0K"
    );
    let gif = b"GIF89a";
    assert_eq!(glowbot::media::image_data_url(gif), "data:image/gif;base64,R0lGODlh");
    let unknown = b"hello";
    assert_eq!(glowbot::media::image_data_url(unknown), "data:image/png;base64,aGVsbG8=");
}

#[test]
fn test_dispatch_generate_image_no_model() {
    let r = glowbot::media::image_request("a cat", None, None);
    assert!(r.unwrap_err().contains("image generation model not configured"));
}

#[test]
fn test_dispatch_generate_image_empty_prompt() {
    let r = glowbot::media::image_request("", Some("test/image-model"), None);
    assert!(r.unwrap_err().contains("prompt required"));
}

#[test]
fn image_requests_clamp_the_count() {
    assert_eq!(glowbot::media::image_request("a cat", Some("m"), Some(9)), Ok(4));
    assert_eq!(glowbot::media::image_request("a cat", Some("m"), Some(0)), Ok(1));
    assert_eq!(glowbot::media::image_request("a cat", Some("m"), None), Ok(1));
    assert_eq!(glowbot::media::image_request("", None, None), Err("Error: prompt required".to_string()));
}

#[test]
fn generated_images_are_named_by_format() {
    let png = [0x89u8, 0x50, 0x4E, 0x47, 0, 0];
    let gif = *b"GIF89a";
    assert_eq!(
        glowbot::media::generated_image_name("google/gemini-2.5-flash-image", "20260101T000000", 1, 0, &png),
        "generated/gemini-2_5-flash-image_20260101T000000.png"
    );
    assert_eq!(
        glowbot::media::generated_image_name("a/b:c", "T", 2, 1, &gif),
        "generated/b_c_T_2.gif"
    );
    assert_eq!(glowbot::media::generated_image_name("m", "T", 1, 0, b"xyz"), "generated/m_T.png");
}

#[test]
fn image_tool_answers() {
    assert_eq!(
        glowbot::media::image_result(0, &vec![], "media"),
        "Error: no images returned from generation API"
    );
    assert_eq!(
        glowbot::media::image_result(2, &vec![], "media"),
        "Error: failed to save any generated images"
    );
    let r = glowbot::media::image_result(2, &vec!["generated/a.png".into(), "generated/b \"q\".png".into()], "media");
    assert_eq!(r, "{\"generated_images\":[\"generated/a.png\",\"generated/b \\\"q\\\".png\"],\"media_dir\":\"media\"}");
    let v: serde_json::Value = serde_json::from_str(&r).unwrap();
    assert_eq!(
        v,
        serde_json::from_str::<serde_json::Value>(
            &serde_json::to_string(&serde_json::Value::Object({
                let mut m = serde_json::Map::new();
                m.insert("generated_images".into(), serde_json::Value::Array(vec![
                    serde_json::Value::String("generated/a.png".into()),
                    serde_json::Value::String("generated/b \"q\".png".into()),
                ]));
                m.insert("media_dir".into(), serde_json::Value::String("media".into()));
                m
            })).unwrap()
        ).unwrap()
    );
}
