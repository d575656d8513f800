use image_client::config::{
    check_snapshot_size, default_source, known_image_models, known_llm_models, known_video_models,
    load_from_snapshot, looks_foreign_absolute, models_endpoint, normalize_output_setting,
    read_snapshot_text, resolve_output_path, ConfigState, EnvSettings, OutputLocation, PathFacts,
    PersistAction, PersistEvent, DEFAULT_OUTPUT_DIR,
};
use image_client::gateway::{
    answer_entries, check_limit, decode_image_entry, describe_tile, edits_endpoint, edits_path,
    entries_of_answer, fallback_body, fallback_form, form_fields, get_str, get_u32,
    grok_aspect_ratio, grok_resolution, image_generation_body, image_request, inline_image,
    is_contract_rejection, is_grok_image_model, non_empty, normalize_size, pixel_size,
    prompt_with_reference_roles, reference_limits, references_listed, request_body,
    requested_image_count, response_entries, returned_formats, select_references, size_selection,
    size_str, upload_mime, upstream_error, upstream_text, validate_reference_inputs, validate_reference_path,
    ImageSource, ReferenceFacts, ReferenceInput, ReferenceLimits, ValidatedReference,
    MAX_IMAGE_BATCH,
};
use image_client::image_exchange::{
    begin_exchange, image_step, take_answer, ImageAction, ImageEvent, ImageExchange, PostContent,
};
use image_client::image_files::{
    compress_image_file, compression_level_label, convert_format_label, convert_image_file,
    display_path, encode_compressed, encode_converted, list_image_variants, original_stem,
    variant_file_name, FileEntry,
};
use image_client::json::Json;
use image_client::reference_board::{
    board_layout, compose_board, prepare_reference_upload, tile_position,
};

fn json(text: &str) -> Json {
    Json::from_text(text).unwrap()
}

fn parts(path: &str) -> Vec<String> {
    path.split('/').map(|part| part.to_string()).collect()
}

fn png(width: u32, height: u32, color: [u8; 4]) -> Vec<u8> {
    let image = image::RgbaImage::from_pixel(width, height, image::Rgba(color));
    let mut bytes = std::io::Cursor::new(Vec::new());
    image.write_to(&mut bytes, image::ImageFormat::Png).unwrap();
    bytes.into_inner()
}

fn reference(path: &str, role: &str, weight: Option<&str>, place: Option<i64>) -> ReferenceInput {
    ReferenceInput {
        path: path.into(),
        role: role.into(),
        weight: weight.map(|w| w.to_string()),
        sort_order: place,
    }
}

fn found(path: &str, bytes: u64) -> ReferenceFacts {
    ReferenceFacts {
        canonical: Ok(path.into()),
        metadata: Some((true, bytes)),
        content: Some((bytes, Some("png".into()))),
    }
}

#[test]
fn derives_edits_endpoint_without_replacing_unrelated_text() {
    assert_eq!(
        edits_endpoint("https://example.com/v1/images/generations?tenant=generations").unwrap(),
        "https://example.com/v1/images/edits?tenant=generations"
    );
    assert!(edits_endpoint("https://example.com/v1/images").is_err());
    assert_eq!(
        edits_endpoint("https://example.com/v1/images").unwrap_err(),
        "图生图要求图像 API 地址以 /generations 结尾"
    );
    assert!(edits_endpoint("nowhere").unwrap_err().starts_with("图像 API 地址无效: "));
}

#[test]
fn grok_bodies_use_aspect_ratio_and_resolution_instead_of_size() {
    let body = image_generation_body(
        "grok-imagine-image",
        "a cat",
        "1536x1024",
        "1536x1024 (3:2)",
        "high",
        "transparent",
        4,
    );
    assert_eq!(body.text_at("model"), Some("grok-imagine-image"));
    assert_eq!(body.int_at("n"), Some(4));
    assert_eq!(body.text_at("aspect_ratio"), Some("3:2"));
    assert_eq!(body.text_at("resolution"), Some("1k"));
    assert_eq!(body.text_at("response_format"), Some("b64_json"));
    assert_eq!(body.text_at("quality"), Some("high"));
    assert!(body.get("size").is_none(), "grok rejects the OpenAI size field");
    assert!(body.get("background").is_none(), "grok has no background parameter");

    let body =
        image_generation_body("grok-3-image", "a cat", "1024x1024", "1024x1024 (1:1)", "hd", "", 1);
    assert_eq!(body.text_at("aspect_ratio"), Some("1:1"));
    assert_eq!(body.int_at("n"), Some(1));
    assert!(body.get("quality").is_none());
}

#[test]
fn grok_ratio_comes_from_the_annotation_or_the_pixels() {
    assert_eq!(grok_aspect_ratio("1280x720 (16:9)"), "16:9");
    assert_eq!(grok_aspect_ratio("720x1280 (9:16)"), "9:16");
    assert_eq!(grok_aspect_ratio("1024x1536"), "2:3");
    assert_eq!(grok_aspect_ratio("1024x1024"), "1:1");
    assert_eq!(grok_aspect_ratio("1500x1000"), "3:2");
    assert_eq!(grok_aspect_ratio(""), "1:1");
    assert_eq!(grok_aspect_ratio("not-a-size"), "1:1");
}

#[test]
fn grok_resolution_collapses_oversized_selections_to_the_documented_maximum() {
    assert_eq!(grok_resolution("1024x1024 (1:1)"), "1k");
    assert_eq!(grok_resolution("1280x720 (16:9)"), "1k");
    assert_eq!(grok_resolution("2048x2048 (2K)"), "2k");
    assert_eq!(grok_resolution("4096x4096 (4K)"), "2k");
    assert_eq!(grok_resolution("2000x1000"), "2k");
}

/// The nearest ratio in floating point, the first of two that are equally near.
fn nearest(width: u32, height: u32) -> &'static str {
    let ratios: [(&'static str, f64); 13] = [
        ("1:1", 1.0),
        ("3:4", 3.0 / 4.0),
        ("4:3", 4.0 / 3.0),
        ("9:16", 9.0 / 16.0),
        ("16:9", 16.0 / 9.0),
        ("2:3", 2.0 / 3.0),
        ("3:2", 3.0 / 2.0),
        ("9:19.5", 9.0 / 19.5),
        ("19.5:9", 19.5 / 9.0),
        ("9:20", 9.0 / 20.0),
        ("20:9", 20.0 / 9.0),
        ("1:2", 1.0 / 2.0),
        ("2:1", 2.0),
    ];
    let ratio = width as f64 / height as f64;
    let mut best = ratios[0];
    for candidate in ratios {
        if (candidate.1 - ratio).abs() < (best.1 - ratio).abs() {
            best = candidate;
        }
    }
    best.0
}

#[test]
fn ratios_agree_with_the_nearest_in_floating_point() {
    for width in 1..=120u32 {
        for height in 1..=120u32 {
            assert_eq!(
                grok_aspect_ratio(&format!("{width}x{height}")),
                nearest(width, height),
                "{width}x{height}"
            );
        }
    }
    for (width, height) in [(u32::MAX, 1), (1, u32::MAX), (4_294_967_291, 4_294_967_279)] {
        assert_eq!(grok_aspect_ratio(&format!("{width}x{height}")), nearest(width, height));
    }
}

#[test]
fn openai_compatible_bodies_keep_size_quality_and_background() {
    let body = image_generation_body(
        "gpt-image-2",
        "a cat",
        "1024x1024",
        "1024x1024 (1:1)",
        "high",
        "transparent",
        2,
    );
    assert_eq!(body.text_at("size"), Some("1024x1024"));
    assert_eq!(body.int_at("n"), Some(2));
    assert_eq!(body.text_at("quality"), Some("high"));
    assert_eq!(body.text_at("background"), Some("transparent"));
    assert!(body.get("aspect_ratio").is_none());
    assert!(body.get("resolution").is_none());
    assert!(body.get("response_format").is_none());

    let body = image_generation_body(
        "gemini-3-pro-image",
        "a cat",
        "1024x1024",
        "1024x1024 (1:1)",
        "",
        "auto",
        1,
    );
    assert!(body.get("background").is_none());
    assert!(body.get("quality").is_none());
}

#[test]
fn requested_count_is_clamped_to_the_supported_batch() {
    assert_eq!(requested_image_count(&json("{}")), 1);
    assert_eq!(requested_image_count(&json(r#"{"n":4}"#)), 4);
    assert_eq!(requested_image_count(&json(r#"{"n":0}"#)), 1);
    assert_eq!(requested_image_count(&json(r#"{"n":5}"#)), MAX_IMAGE_BATCH);
    assert_eq!(requested_image_count(&json(r#"{"n":99}"#)), MAX_IMAGE_BATCH);
    assert_eq!(MAX_IMAGE_BATCH, 4);
}

#[test]
fn is_grok_image_model_matches_every_gateway_id_shape() {
    assert!(is_grok_image_model("grok-imagine-image"));
    assert!(is_grok_image_model("grok-imagine-image-2.0"));
    assert!(is_grok_image_model("grok-imagine-image-quality"));
    assert!(is_grok_image_model("  Grok-3-Image "));
    assert!(is_grok_image_model("xai/grok-2-image"));
    assert!(!is_grok_image_model("grokking-image"));
    assert!(!is_grok_image_model("gpt-image-2.5"));
    assert!(!is_grok_image_model("gemini-3-pro-image"));
    assert!(!is_grok_image_model("nana-banana-pro"));
}

#[test]
fn sizes_are_read_from_the_node() {
    assert_eq!(size_str(&json(r#"{"size":"1536x1024 (3:2)"}"#)), "1536x1024");
    assert_eq!(size_str(&json(r#"{"size":"auto","width":640,"height":480}"#)), "640x480");
    assert_eq!(size_str(&json("{}")), "1024x1024");
    assert_eq!(size_selection(&json(r#"{"size":" "}"#)), "1024x1024");
    assert_eq!(size_selection(&json(r#"{"size":"a (b)"}"#)), "a (b)");
    assert_eq!(normalize_size("auto"), "");
    assert_eq!(pixel_size(" 10 × 20 (x)"), Some((10, 20)));
    assert_eq!(pixel_size("10X20"), Some((10, 20)));
    assert_eq!(pixel_size("0x20"), None);
    assert_eq!(pixel_size("4294967296x2"), None);
    assert_eq!(get_u32(&json(r#"{"a":-1,"b":7}"#), "a"), None);
    assert_eq!(get_u32(&json(r#"{"a":-1,"b":7}"#), "b"), Some(7));
    assert_eq!(get_str(&json(r#"{"a":"t"}"#), "a").as_deref(), Some("t"));
    assert_eq!(non_empty("  "), None);
    assert_eq!(non_empty(" a ").as_deref(), Some("a"));
}

#[test]
fn image_requests_are_checked_and_retried_once_with_the_other_contract() {
    let node = json(r#"{"prompt":"a cat","size":"1024x1536","quality":"high","n":2}"#);
    assert_eq!(
        image_request("", "key", "m", &node).unwrap_err(),
        "未配置图像 API（请在设置中填写图像地址与 Key）"
    );
    assert_eq!(image_request("u", "k", "m", &json("{}")).unwrap_err(), "缺少提示词 (prompt)");
    assert_eq!(image_request("u", "k", "m", &json(r#"{"prompt":" "}"#)).unwrap_err(), "提示词为空");
    let request = image_request("u", "k", "grok-3-image", &node).unwrap();
    assert!(request.grok);
    assert_eq!(request.count, 2);
    assert_eq!(request_body(&request).text_at("aspect_ratio"), Some("2:3"));
    let fallback = fallback_body(&request, 422).unwrap();
    assert_eq!(fallback.text_at("size"), Some("1024x1536"));
    assert!(fallback.get("aspect_ratio").is_none());
    assert!(fallback_body(&request, 500).is_none());
    let plain = image_request("u", "k", "gpt-image-2", &node).unwrap();
    assert!(fallback_body(&plain, 400).is_none());
    assert!(is_contract_rejection(400) && is_contract_rejection(422));
    assert!(!is_contract_rejection(401));
    let names = |by_ratio: bool| -> Vec<String> {
        form_fields(&request, "p", by_ratio).into_iter().map(|field| field.0).collect()
    };
    assert_eq!(names(true), vec!["model", "prompt", "n", "aspect_ratio", "resolution", "quality"]);
    assert_eq!(names(false), vec!["model", "prompt", "n", "size", "quality"]);
    let second: Vec<String> = fallback_form(&request, "p", 400)
        .unwrap()
        .into_iter()
        .map(|field| field.0)
        .collect();
    assert_eq!(second, names(false));
    assert!(fallback_form(&request, "p", 500).is_none());
    assert!(fallback_form(&plain, "p", 400).is_none());
    assert_eq!(upload_mime("jpg"), "image/jpeg");
    assert_eq!(upload_mime("webp"), "image/webp");
}

fn exchange(model: &str, references: &Vec<ValidatedReference>) -> ImageExchange {
    let node = json(r#"{"prompt":"a cat","size":"1024x1536"}"#);
    let request = image_request("u", "k", model, &node).unwrap();
    begin_exchange("https://host/v1/images/generations", "secret", request, references).unwrap()
}

fn sent(status: u16) -> ImageEvent {
    ImageEvent::Sent(Ok((status, format!("{status} Status"))))
}

fn posted(action: ImageAction) -> (String, String, PostContent) {
    match action {
        ImageAction::Post { url, key, content } => (url, key, content),
        other => panic!("a request is sent: {other:?}"),
    }
}

fn failed(action: ImageAction) -> String {
    match action {
        ImageAction::Fail(error) => error,
        other => panic!("the exchange fails: {other:?}"),
    }
}

#[test]
fn an_exchange_sends_at_most_two_requests_to_one_address() {
    let mut plain = exchange("gpt-image-2", &Vec::new());
    let (url, key, content) = posted(image_step(&mut plain, ImageEvent::Begin));
    assert_eq!((url.as_str(), key.as_str()), ("https://host/v1/images/generations", "secret"));
    match content {
        PostContent::Body(body) => assert_eq!(body.text_at("size"), Some("1024x1536")),
        PostContent::Form(_) => panic!("nothing is uploaded"),
    }
    assert!(matches!(image_step(&mut plain, sent(400)), ImageAction::ReadFailure));
    assert_eq!(
        failed(image_step(&mut plain, ImageEvent::FailureRead(b"bad size".to_vec()))),
        "图像接口返回 400 Status: bad size"
    );

    let mut grok = exchange("grok-3-image", &Vec::new());
    let first = posted(image_step(&mut grok, ImageEvent::Begin));
    match first.2 {
        PostContent::Body(body) => assert_eq!(body.text_at("aspect_ratio"), Some("2:3")),
        PostContent::Form(_) => panic!("nothing is uploaded"),
    }
    let second = posted(image_step(&mut grok, sent(422)));
    assert_eq!((&first.0, &first.1), (&second.0, &second.1));
    match second.2 {
        PostContent::Body(body) => {
            assert_eq!(body.text_at("size"), Some("1024x1536"));
            assert!(body.get("aspect_ratio").is_none());
        }
        PostContent::Form(_) => panic!("nothing is uploaded"),
    }
    assert!(matches!(image_step(&mut grok, sent(422)), ImageAction::ReadFailure));

    let inputs = vec![reference("/r/first.png", "style", None, None)];
    let facts = vec![found("/r/first.png", 9)];
    let one = validate_reference_inputs(&inputs, &facts, reference_limits()).unwrap();
    let mut edits = exchange("grok-3-image", &one);
    let (url, _, content) = posted(image_step(&mut edits, ImageEvent::Begin));
    assert_eq!(url, "https://host/v1/images/edits");
    match content {
        PostContent::Form(fields) => assert_eq!(fields[3].0, "aspect_ratio"),
        PostContent::Body(_) => panic!("the reference is uploaded"),
    }
    let (url, _, content) = posted(image_step(&mut edits, sent(400)));
    assert_eq!(url, "https://host/v1/images/edits");
    match content {
        PostContent::Form(fields) => assert_eq!(fields[3].0, "size"),
        PostContent::Body(_) => panic!("the reference is uploaded"),
    }
    assert_eq!(
        failed(image_step(&mut edits, ImageEvent::Sent(Err("reset".into())))),
        "请求图像编辑接口失败: reset"
    );
    assert_eq!(
        failed(image_step(&mut edits, ImageEvent::NotBuilt("mime".into()))),
        "构造上传失败: mime"
    );
    assert_eq!(
        failed(image_step(&mut plain, ImageEvent::Sent(Err("reset".into())))),
        "请求图像接口失败: reset"
    );
    assert!(begin_exchange(
        "no address",
        "k",
        image_request("u", "k", "m", &json(r#"{"prompt":"p"}"#)).unwrap(),
        &one
    )
    .is_err());
}

#[test]
fn an_exchange_takes_all_images_before_any_is_saved() {
    let mut plain = exchange("gpt-image-2", &Vec::new());
    posted(image_step(&mut plain, ImageEvent::Begin));
    assert!(matches!(image_step(&mut plain, sent(200)), ImageAction::ReadAnswer));
    let answer = br#"{"data":[{"b64_json":"aGVsbG8="},{"url":"http://host/a.png"}]}"#.to_vec();
    match image_step(&mut plain, ImageEvent::AnswerRead(Ok(answer))) {
        ImageAction::Download(url) => assert_eq!(url, "http://host/a.png"),
        other => panic!("the second image is elsewhere: {other:?}"),
    }
    assert!(matches!(
        image_step(&mut plain, ImageEvent::Downloaded(Ok(b"b".to_vec()))),
        ImageAction::FindFormats
    ));
    assert_eq!(plain.payloads, vec![b"hello".to_vec(), b"b".to_vec()]);
    let formats = vec![Some("png".to_string()), Some("jpg".to_string())];
    match image_step(&mut plain, ImageEvent::FormatsFound(formats)) {
        ImageAction::Save(formats) => assert_eq!(formats, vec!["png", "jpg"]),
        other => panic!("the images are saved: {other:?}"),
    }
    assert_eq!(
        failed(image_step(&mut plain, ImageEvent::FormatsFound(vec![None]))),
        "图像接口返回的内容不是支持的图片格式"
    );
    assert_eq!(
        failed(image_step(&mut plain, ImageEvent::AnswerRead(Err("long".into())))),
        "long"
    );
    assert_eq!(failed(take_answer(&mut plain, Err("t".into()))), "解析图像响应失败: t");
    assert_eq!(
        failed(take_answer(&mut plain, Ok(json(r#"{"data":[{}]}"#)))),
        "图像响应中没有 b64_json 或 url"
    );
    match take_answer(&mut plain, Ok(json(r#"{"data":[{"url":"http://host/b.png"}]}"#))) {
        ImageAction::Download(url) => assert_eq!(url, "http://host/b.png"),
        other => panic!("the image is elsewhere: {other:?}"),
    }
    assert_eq!(
        failed(image_step(&mut plain, ImageEvent::Downloaded(Err("gone".into())))),
        "gone"
    );
}

#[test]
fn answers_of_the_gateway_are_read() {
    let answer = json(r#"{"data":[{"b64_json":"aGVsbG8="},{"url":"http://host/a.png"},{},{},{}]}"#);
    let entries = response_entries(&answer).unwrap();
    assert_eq!(entries.len(), 4);
    match decode_image_entry(&entries[0]).unwrap() {
        ImageSource::Inline(bytes) => assert_eq!(bytes, b"hello".to_vec()),
        ImageSource::Download(_) => panic!("the image is inline"),
    }
    match decode_image_entry(&entries[1]).unwrap() {
        ImageSource::Download(url) => assert_eq!(url, "http://host/a.png"),
        ImageSource::Inline(_) => panic!("the image is elsewhere"),
    }
    assert_eq!(
        decode_image_entry(&entries[2]).unwrap_err(),
        "图像响应中没有 b64_json 或 url"
    );
    assert_eq!(
        decode_image_entry(&json(r#"{"b64_json":""}"#)).unwrap_err(),
        "模型未返回图像数据（可能不支持该参数，如透明背景）"
    );
    assert!(decode_image_entry(&json(r#"{"b64_json":"*"}"#))
        .unwrap_err()
        .starts_with("base64 解码失败: "));
    assert_eq!(response_entries(&json(r#"{"data":[]}"#)).unwrap_err(), "图像响应缺少 data");
    assert_eq!(
        upstream_error("500 Internal Server Error", &"错".repeat(401).into_bytes()),
        format!("图像接口返回 500 Internal Server Error: {}", "错".repeat(400))
    );
    assert_eq!(upstream_text("404", "没有"), "图像接口返回 404: 没有");
    assert_eq!(upstream_error("404", &vec![0xff]), "图像接口返回 404: \u{fffd}");
    let read = answer_entries(&br#"{"data":[{"url":"http://host/a.png"}]}"#.to_vec()).unwrap();
    assert_eq!(read.len(), 1);
    assert_eq!(read[0].text_at("url"), Some("http://host/a.png"));
    assert_eq!(answer_entries(&b"{}".to_vec()).unwrap_err(), "图像响应缺少 data");
    assert_eq!(
        answer_entries(&b"<html>".to_vec()).unwrap_err(),
        "解析图像响应失败: expected value at line 1 column 1"
    );
    assert_eq!(
        entries_of_answer(Err("text".into())).unwrap_err(),
        "解析图像响应失败: text"
    );
    assert_eq!(entries_of_answer(Ok(json(r#"{"data":[1]}"#))).unwrap().len(), 1);
    assert!(check_limit(5, 5, "图片下载").is_ok());
    assert_eq!(
        check_limit(52_428_801, 52_428_800, "图片下载").unwrap_err(),
        "图片下载超过大小限制（50 MiB）"
    );
    assert_eq!(returned_formats(&Vec::new()).unwrap_err(), "模型未返回图像数据");
    assert_eq!(
        returned_formats(&vec![Some("png".into()), None]).unwrap_err(),
        "图像接口返回的内容不是支持的图片格式"
    );
    assert_eq!(returned_formats(&vec![Some("png".into())]).unwrap(), vec!["png"]);
}

#[test]
fn rejects_reference_paths_outside_allowed_roots() {
    let roots = vec![Some(parts("/assets")), Some(parts("/root"))];
    assert!(validate_reference_path(&parts("/root/ref.png"), &roots).is_ok());
    assert_eq!(
        validate_reference_path(&parts("/tmp/ref.png"), &roots).unwrap_err(),
        "参考图必须位于应用资产目录或输出目录"
    );
}

#[test]
fn references_sort_stably_by_sort_order_then_role() {
    let inputs = vec![
        reference("/r/first.png", "style", Some("0.6"), Some(2)),
        reference("/r/second.png", "scene", Some("1.0"), Some(1)),
        reference("/r/third.png", "character_identity", Some("0.8"), Some(2)),
    ];
    let facts = vec![
        found("/r/first.png", 9),
        found("/r/second.png", 9),
        found("/r/third.png", 9),
    ];
    let references = validate_reference_inputs(&inputs, &facts, reference_limits()).unwrap();
    assert_eq!(
        references.iter().map(|reference| reference.role.as_str()).collect::<Vec<_>>(),
        ["scene", "character_identity", "style"]
    );
    assert_eq!(
        references.iter().map(|reference| reference.input_order).collect::<Vec<_>>(),
        [1, 2, 0]
    );
}

#[test]
fn references_reject_invalid_role_duplicate_path_and_limits() {
    let error = |inputs: Vec<ReferenceInput>, facts: Vec<ReferenceFacts>, limits| {
        validate_reference_inputs(&inputs, &facts, limits).unwrap_err()
    };
    let one = || vec![reference("/r/ref.png", "style", None, None)];
    let all = reference_limits;
    assert_eq!(
        error(
            vec![reference("/r/ref.png", "anything", None, None)],
            vec![found("/r/ref.png", 9)],
            all()
        ),
        "参考图 role 无效"
    );
    assert_eq!(
        error(
            vec![
                reference("/r/ref.png", "style", None, None),
                reference("/r/ref.png", "scene", None, None)
            ],
            vec![found("/r/ref.png", 9), found("/r/ref.png", 9)],
            all()
        ),
        "references 不允许重复引用同一文件"
    );
    let two = vec![
        reference("/r/ref.png", "style", None, None),
        reference("/r/other.png", "scene", None, None),
    ];
    let limits = |count, each, total| ReferenceLimits {
        max_count: count,
        max_each_bytes: each,
        max_total_bytes: total,
    };
    assert_eq!(
        error(
            two,
            vec![found("/r/ref.png", 9), found("/r/other.png", 9)],
            limits(1, 1024, 1024)
        ),
        "参考图最多支持 1 张"
    );
    assert_eq!(
        error(one(), vec![found("/r/ref.png", 9)], limits(1, 1024, 1)),
        "参考图总大小不能超过 0 MiB"
    );
    assert_eq!(
        error(one(), vec![found("/r/ref.png", 9)], limits(1, 1, 1024)),
        "单张参考图不能超过 0 MiB"
    );
    for weight in ["0.0", "1.5", "-0.1"] {
        assert_eq!(
            error(
                vec![reference("/r/ref.png", "style", Some(weight), None)],
                vec![found("/r/ref.png", 9)],
                all()
            ),
            "参考图 weight 必须在 0 到 1 之间"
        );
    }
    assert_eq!(
        error(
            vec![reference("/r/ref.png", "style", None, Some(-1))],
            vec![found("/r/ref.png", 9)],
            all()
        ),
        "参考图 sortOrder 必须为非负整数"
    );
    let changed = |change: fn(&mut ReferenceFacts)| {
        let mut facts = found("/r/ref.png", 9);
        change(&mut facts);
        vec![facts]
    };
    assert_eq!(error(one(), changed(|f| f.canonical = Err("gone".into())), all()), "gone");
    assert_eq!(error(one(), changed(|f| f.metadata = None), all()), "参考图文件不可访问");
    assert_eq!(
        error(one(), changed(|f| f.metadata = Some((false, 9))), all()),
        "参考图必须是普通文件"
    );
    assert_eq!(error(one(), changed(|f| f.content = None), all()), "读取参考图失败");
    assert_eq!(
        error(one(), changed(|f| f.content = Some((9, None))), all()),
        "参考图格式不受支持或文件已损坏"
    );
}

#[test]
fn legacy_reference_path_becomes_a_single_base_image_reference() {
    let inputs = select_references(Vec::new(), Some(" /r/legacy.png "));
    assert_eq!(inputs.len(), 1);
    assert_eq!(inputs[0].path, "/r/legacy.png");
    let references =
        validate_reference_inputs(&inputs, &vec![found("/r/legacy.png", 9)], reference_limits())
            .unwrap();
    assert_eq!(references.len(), 1);
    assert_eq!(references[0].role, "base_image");
    assert_eq!(references[0].sort_order, 0);
    let listed = select_references(
        vec![reference("/r/new.png", "style", None, None)],
        Some("/r/legacy.png"),
    );
    assert_eq!(listed.len(), 1);
    assert_eq!(listed[0].path, "/r/new.png");
    assert!(select_references(Vec::new(), Some(" ")).is_empty());
    assert_eq!(references_listed(&json("{}")).unwrap(), false);
    assert_eq!(references_listed(&json(r#"{"references":null}"#)).unwrap(), false);
    assert_eq!(references_listed(&json(r#"{"references":[]}"#)).unwrap(), true);
    assert_eq!(
        references_listed(&json(r#"{"references":1}"#)).unwrap_err(),
        "references 必须是参考图对象数组"
    );
}

#[test]
fn several_references_go_on_one_board_with_a_map_of_their_tiles() {
    let inputs = vec![
        reference("/r/first.png", "style", None, Some(1)),
        reference("/r/second.png", "scene", None, Some(0)),
    ];
    let facts = vec![found("/r/first.png", 9), found("/r/second.png", 9)];
    let references = validate_reference_inputs(&inputs, &facts, reference_limits()).unwrap();
    let sources = vec![png(24, 16, [255, 0, 0, 255]), png(24, 16, [0, 255, 0, 255])];
    let upload = prepare_reference_upload(&sources, "png").unwrap();
    assert_eq!(upload.file_name, "reference-board.png");
    let prompt = prompt_with_reference_roles("draw a scene", &references);
    assert!(prompt.contains("tile 1 = scene"));
    assert!(prompt.contains("tile 2 = style"));
    assert!(!prompt.contains("/r/"));
    assert_eq!(
        prompt,
        "draw a scene\n\nReference board responsibility map: tile 1 = scene (weight 1.000); tile 2 = style (weight 1.000). Use each tile only for its named responsibility; preserve identity and style consistency."
    );
}

#[test]
fn boards_show_every_reference_in_its_tile() {
    let board = board_layout(2);
    assert_eq!((board.columns, board.rows, board.width, board.height), (2, 1, 1048, 528));
    let board = board_layout(5);
    assert_eq!((board.columns, board.rows, board.width, board.height), (3, 2, 1568, 1048));
    assert_eq!(tile_position(4, 3, 512, 256), (528, 656));
    let sources = vec![
        png(512, 512, [255, 0, 0, 255]),
        png(512, 512, [0, 255, 0, 255]),
        png(100, 50, [0, 0, 255, 255]),
    ];
    let bytes = compose_board(&sources).unwrap();
    let picture = image::load_from_memory(&bytes).unwrap().to_rgba8();
    assert_eq!(picture.dimensions(), (1048, 1048));
    assert_eq!(picture.get_pixel(0, 0).0, [242, 242, 242, 255]);
    assert_eq!(picture.get_pixel(8, 8).0, [255, 0, 0, 255]);
    assert_eq!(picture.get_pixel(528, 8).0, [0, 255, 0, 255]);
    assert_eq!(picture.get_pixel(264, 784).0, [0, 0, 255, 255]);
    assert_eq!(picture.get_pixel(9, 529).0, [242, 242, 242, 255]);
    assert_eq!(
        compose_board(&vec![b"x".to_vec(), b"y".to_vec()]).unwrap_err(),
        "参考图格式不受支持或文件已损坏"
    );
    let single = prepare_reference_upload(&vec![vec![1, 2]], "jpg").unwrap();
    assert_eq!(single.file_name, "ref.jpg");
    assert_eq!(single.bytes, vec![1, 2]);
    assert_eq!(prepare_reference_upload(&Vec::new(), "jpg").unwrap_err(), "缺少参考图");
}

// The configuration.

fn stored() -> ConfigState {
    ConfigState {
        image_api_url: "https://example.com/v1/images/generations".into(),
        image_api_key: "image-secret".into(),
        image_model: "image-model".into(),
        video_api_url: "https://example.com/v1/videos".into(),
        video_api_key: "video-secret".into(),
        video_model: "video-model".into(),
        llm_api_url: "https://example.com/v1".into(),
        llm_api_key: "llm-secret".into(),
        llm_model: "llm-model".into(),
        output_dir: "output".into(),
        source: "db".into(),
    }
}

fn environment() -> EnvSettings {
    EnvSettings {
        image_api_url: String::new(),
        image_api_key: String::new(),
        image_model: String::new(),
        video_api_url: String::new(),
        video_api_key: String::new(),
        video_model: String::new(),
        llm_api_url: String::new(),
        llm_api_key: String::new(),
        llm_model: String::new(),
        output_dir: String::new(),
    }
}

#[test]
fn persists_and_loads_backend_configuration_without_source_field() {
    let raw = stored().snapshot_text();
    let loaded = read_snapshot_text(&raw).unwrap();
    assert_eq!(loaded.llm_model, "llm-model");
    assert_eq!(loaded.llm_api_key, "llm-secret");
    assert_eq!(loaded.source, "db");
    assert!(raw.contains("\"source\": \"db\""));
    assert_eq!(loaded.persist_backend().to_text(), stored().persist_backend().to_text());
    assert!(raw.starts_with("{\n  \"image_api_url\": \"https://example.com"));
    assert!(raw.ends_with("\"output_dir\": \"output\",\n  \"source\": \"db\"\n}"));
    assert!(read_snapshot_text("no snapshot").is_none());
    assert!(read_snapshot_text(&raw.replace('\n', " ")).is_none());
    assert!(read_snapshot_text(&raw.replacen('{', "{\"source\": \"db\",", 1)).is_none());
    let without = raw.replace(",\n  \"source\": \"db\"", "");
    assert_ne!(without, raw);
    assert_eq!(load_from_snapshot(&json(&without)).unwrap().source, default_source());
    assert_eq!(default_source(), "none");
    assert!(load_from_snapshot(&json("{}")).is_none());
    assert!(check_snapshot_size(1_048_576).is_ok());
    assert_eq!(
        check_snapshot_size(1_048_577).unwrap_err(),
        "后端配置文件超过 1 MiB 大小限制"
    );
}

/// Stores a configuration in a map of files, with some steps failing. The result is the error.
fn store_in(
    files: &mut std::collections::BTreeMap<String, String>,
    config: &ConfigState,
    failing: &str,
) -> Option<String> {
    let result = |name: &str| if name == failing { Err("io".to_string()) } else { Ok(()) };
    let mut event = PersistEvent::Begin(failing != "parent");
    loop {
        event = match config.persist_step(event) {
            PersistAction::MakeDirectory => PersistEvent::DirectoryMade(result("directory")),
            PersistAction::Write(text) => {
                let half = text.chars().take(text.chars().count() / 2).collect();
                files.insert("temporary".into(), if failing == "write" { half } else { text });
                PersistEvent::Written(result("write"))
            }
            PersistAction::Secure => PersistEvent::Secured(result("secure")),
            PersistAction::Rename => {
                if failing != "rename" {
                    let text = files.remove("temporary").unwrap();
                    files.insert("config".into(), text);
                }
                PersistEvent::Renamed(result("rename"))
            }
            PersistAction::Remove(reason) => {
                files.remove("temporary");
                PersistEvent::Removed(reason)
            }
            PersistAction::SecureStored => PersistEvent::StoredSecured(result("stored")),
            PersistAction::Finish => return None,
            PersistAction::Fail(error) => return Some(error),
        };
    }
}

#[test]
fn a_stored_configuration_is_replaced_whole_or_not_at_all() {
    let new = stored().snapshot_text();
    for before in [None, Some("old")] {
        for (failing, error) in [
            ("", None),
            ("parent", Some("后端配置路径缺少父目录")),
            ("directory", Some("创建配置目录失败: io")),
            ("write", Some("写入临时配置失败: io")),
            ("secure", Some("设置临时配置权限失败: io")),
            ("rename", Some("提交后端配置失败: io")),
            ("stored", Some("设置后端配置权限失败: io")),
        ] {
            let mut files = std::collections::BTreeMap::new();
            if let Some(text) = before {
                files.insert("config".to_string(), text.to_string());
            }
            assert_eq!(store_in(&mut files, &stored(), failing).as_deref(), error);
            let found = files.get("config").map(String::as_str);
            if failing.is_empty() || failing == "stored" {
                assert_eq!(found, Some(new.as_str()));
                assert_eq!(files.len(), 1);
            } else {
                assert_eq!(found, before);
            }
            assert_eq!(files.contains_key("temporary"), failing == "write" || failing == "secure");
        }
    }
}

#[test]
fn resolves_portable_and_foreign_output_paths() {
    let here = PathFacts { is_assets_dir: false, is_absolute: false, windows: false };
    assert_eq!(normalize_output_setting("", false, false), DEFAULT_OUTPUT_DIR);
    assert!(matches!(resolve_output_path(DEFAULT_OUTPUT_DIR, here), OutputLocation::Assets));
    match resolve_output_path("exports", here) {
        OutputLocation::Data(path) => assert_eq!(path, "exports"),
        other => panic!("a relative path lies below the data: {other:?}"),
    }
    assert!(looks_foreign_absolute(r"C:\\Users\\Alice\\output", false));
    assert!(looks_foreign_absolute("/Users/alice/output", true));
}

#[test]
fn output_settings_are_normalized() {
    let absolute = PathFacts { is_assets_dir: false, is_absolute: true, windows: false };
    match resolve_output_path(" /srv/out ", absolute) {
        OutputLocation::Absolute(path) => assert_eq!(path, "/srv/out"),
        other => panic!("an absolute path stays: {other:?}"),
    }
    for home in ["~/pictures", "~\\pictures"] {
        match resolve_output_path(home, absolute) {
            OutputLocation::Home(path) => assert_eq!(path, "pictures"),
            other => panic!("a path below home: {other:?}"),
        }
    }
    assert_eq!(normalize_output_setting("D:/out", false, false), DEFAULT_OUTPUT_DIR);
    assert_eq!(normalize_output_setting("D:/out", false, true), "D:/out");
    assert_eq!(normalize_output_setting("//server/share", false, true), "//server/share");
    assert_eq!(normalize_output_setting("/assets", true, false), DEFAULT_OUTPUT_DIR);
    let once = normalize_output_setting("  exports ", false, false);
    assert_eq!(normalize_output_setting(&once, false, false), once);
}

#[test]
fn configuration_falls_back_to_the_environment() {
    let config = ConfigState::load(None, environment(), false, false);
    assert_eq!(config.source, "none");
    assert_eq!(config.image_model, "gpt-image-2");
    assert_eq!(config.video_model, "kling-video-v3");
    assert_eq!(config.llm_model, "gemini-3.7-flash");
    assert_eq!(config.output_dir, DEFAULT_OUTPUT_DIR);
    let mut env = environment();
    env.video_api_url = "https://v/v1/".into();
    env.video_model = "own".into();
    let config = ConfigState::load(None, env, false, false);
    assert_eq!(config.source, "env");
    assert_eq!(config.video_model, "own");
    let config = ConfigState::load(Some(stored()), environment(), false, false);
    assert_eq!(config.source, "db");
    assert_eq!(config.output_dir, "output");
    let status = config.status("/data/output");
    assert!(status.image_ready && status.video_ready && status.llm_ready);
    assert_eq!(status.output_dir, "/data/output");
    assert_eq!(status.video_api_url.as_deref(), Some("https://example.com/v1/videos"));
    let facts = PathFacts { is_assets_dir: false, is_absolute: false, windows: false };
    assert!(matches!(config.output_path(facts), OutputLocation::Data(_)));
    assert_eq!(
        models_endpoint("https://example.com/v1/images/v1/x").as_deref(),
        Some("https://example.com/v1/models")
    );
    assert_eq!(models_endpoint("https://example.com/v1"), None);
    assert_eq!(known_image_models(&["a", "b"]), vec!["a", "b"]);
    assert_eq!(known_video_models(&["v"]), vec!["v"]);
    assert_eq!(known_llm_models(&[]), Vec::<String>::new());
}

// Variants of image files.

#[test]
fn variants_of_an_image_are_found_by_name() {
    let entry = |stem: &str, modified_at: u64| FileEntry {
        path: format!("/p/{stem}.png"),
        file_name: format!("{stem}.png"),
        file_stem: stem.into(),
        bytes: 1,
        modified_at,
    };
    let variants = list_image_variants(
        &vec![
            entry("hero", 5),
            entry("other", 9),
            entry("hero-q80-20260901010101", 7),
            entry("hero-webp-20260901010102", 5),
        ],
        "hero",
    );
    let levels: Vec<&str> = variants.iter().map(|v| v.level.as_str()).collect();
    assert_eq!(levels, vec!["q80", "original", "webp"]);
    assert_eq!(display_path(&variants, "/own"), "/p/hero-q80-20260901010101.png");
    assert_eq!(display_path(&Vec::new(), "/own"), "/own");
    let name = variant_file_name("hero", "q60", "20260901010101", "jpg");
    assert_eq!(name, "hero-q60-20260901010101.jpg");
    assert_eq!(original_stem("hero-q60-20260901010101"), "hero");
    assert_eq!(original_stem("hero-q70-20260901010101"), "hero-q70-20260901010101");
    assert_eq!(original_stem("hero-q60-2026090101010"), "hero-q60-2026090101010");
    assert_eq!(original_stem("q60-20260901010101"), "q60-20260901010101");
}

#[test]
fn images_are_written_again_in_other_formats() {
    let source = png(3, 2, [10, 20, 30, 255]);
    let copy = compress_image_file(&source, Some("png"), "hero", "q80", "20260901010101").unwrap();
    assert_eq!(copy.file_name, "hero-q80-20260901010101.jpg");
    assert_eq!(copy.extension, "jpg");
    assert_eq!(image::guess_format(&copy.bytes).unwrap(), image::ImageFormat::Jpeg);
    let copy =
        compress_image_file(&source, Some("gif"), "hero-q80-20260901010101", "lossless", "s")
            .unwrap();
    assert_eq!(copy.file_name, "hero-lossless-s.png");
    assert_eq!(image::guess_format(&copy.bytes).unwrap(), image::ImageFormat::Png);
    let copy = convert_image_file(&source, true, "hero", "jpeg", "s").unwrap();
    assert_eq!(copy.file_name, "hero-jpg-s.jpg");
    for (format, kind) in [
        ("png", image::ImageFormat::Png),
        ("webp", image::ImageFormat::WebP),
        ("bmp", image::ImageFormat::Bmp),
        ("gif", image::ImageFormat::Gif),
    ] {
        let bytes = encode_converted(&source, format).unwrap();
        assert_eq!(image::guess_format(&bytes).unwrap(), kind);
        let picture = image::load_from_memory(&bytes).unwrap();
        assert_eq!((picture.width(), picture.height()), (3, 2));
    }
    assert_eq!(compress_image_file(&source, Some("png"), "h", "q70", "s").unwrap_err(), "未知压缩等级");
    assert_eq!(compress_image_file(&source, None, "h", "q80", "s").unwrap_err(), "不支持的图片格式");
    assert_eq!(
        convert_image_file(&source, true, "h", "tiff", "s").unwrap_err(),
        "不支持的目标格式"
    );
    assert_eq!(
        convert_image_file(&source, false, "h", "png", "s").unwrap_err(),
        "不支持的图片格式"
    );
    assert_eq!(
        encode_compressed(&source, "tiff", "q80").unwrap_err(),
        "不支持压缩该格式: tiff"
    );
    assert_eq!(encode_converted(&source, "tiff").unwrap_err(), "不支持的目标格式: tiff");
    assert!(encode_converted(&b"x".to_vec(), "png").is_err());
    assert_eq!(compression_level_label("q60").unwrap(), "q60");
    assert_eq!(convert_format_label("jpeg").unwrap(), "jpg");
}

#[test]
fn long_prompts_are_forwarded_verbatim() {
    let prompt = "很长的提示词 with \"quotes\" ".repeat(2_000);
    for model in ["grok-imagine-image", "gpt-image-2"] {
        let body = image_generation_body(model, &prompt, "1x1", "1x1", "", "", 1);
        assert_eq!(body.text_at("prompt"), Some(prompt.as_str()));
    }
}

#[test]
fn replies_of_outside_calls_are_judged_alone() {
    assert_eq!(edits_path(Ok("/v1/images/generations".into())).unwrap(), "/v1/images/edits");
    assert_eq!(edits_path(Err("bad".into())).unwrap_err(), "图像 API 地址无效: bad");
    assert!(edits_path(Ok("/v1/generations/".into())).is_err());
    assert_eq!(describe_tile("pose", "0.500", 1), "tile 2 = pose (weight 0.500)");
    assert!(matches!(inline_image(Ok(vec![1])).unwrap(), ImageSource::Inline(_)));
    assert_eq!(inline_image(Err("bad".into())).unwrap_err(), "base64 解码失败: bad");
}
