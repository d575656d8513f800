use image_client::agent::{
    agent_step, chat_url, finished_text, first_messages, new_orchestration, next_round, orchestrate,
    plan_calls, strip_thinking, take_results, tool_input, tools_json, validate_agent_request,
    validate_agent_tools, AgentAction, AgentEvent, AgentStep, Completion, ToolCall, ToolDef,
};
use image_client::commands::{
    agent_target, asset_metadata, check_document, check_media_asset, check_node_category, check_promptlib_image,
    check_reference_image, check_scheme, check_text_file, check_text_size, cleanup_result, client_logs,
    decode_media_base64, image_models, kind_folder, list_cached_promptlib_images, llm_chat,
    media_bytes, merge_config, model_ids, next_version, path_in_allowed_roots, production_head,
    promptlib_image_filename, promptlib_image_url, run_name, run_tag, save_config,
    save_document_step, save_document_version,
    segment_is_removable, segment_parent_is_removable, string_array, text_asset,
    validate_save_config, video_catalogue, video_models, video_request, CachedFile, ClientLogEntry,
    DocumentAction, DocumentEvent, DocumentRow, DocumentVersionSaveRequest, SaveConfigRequest, SegmentFacts, SegmentOutcome,
};
use image_client::config::ConfigState;
use image_client::image_files::original_stem;
use image_client::json::Json;

fn json(text: &str) -> Json {
    Json::from_text(text).unwrap()
}

fn parts(path: &str) -> Vec<String> {
    path.split('/').map(|part| part.to_string()).collect()
}

fn tool(name: &str) -> ToolDef {
    ToolDef {
        name: name.into(),
        description: "步骤说明".into(),
        system: "步骤 system".into(),
    }
}

fn test_config() -> ConfigState {
    ConfigState {
        image_api_url: String::new(),
        image_api_key: String::new(),
        image_model: "image".into(),
        video_api_url: String::new(),
        video_api_key: String::new(),
        video_model: "video".into(),
        llm_api_url: String::new(),
        llm_api_key: String::new(),
        llm_model: "llm".into(),
        output_dir: "output".into(),
        source: "test".into(),
    }
}

fn empty_request() -> SaveConfigRequest {
    SaveConfigRequest {
        image_api_url: String::new(),
        image_api_key: String::new(),
        image_api_model: String::new(),
        video_api_url: String::new(),
        video_api_key: String::new(),
        video_api_model: String::new(),
        llm_api_url: String::new(),
        llm_api_key: String::new(),
        llm_api_model: String::new(),
        output_dir: String::new(),
    }
}

fn document_request(
    document_id: &str,
    text: &str,
    expected_head_asset_id: Option<String>,
    allow_branch: bool,
) -> DocumentVersionSaveRequest {
    DocumentVersionSaveRequest {
        label: "视频剧本".into(),
        text: text.into(),
        model: Some("test-llm".into()),
        project_id: Some("project-test".into()),
        document_id: document_id.into(),
        params: json(r#"{"documentType":"video_script","videoBranch":false}"#),
        expected_head_asset_id,
        allow_branch,
    }
}

#[test]
fn validates_agent_request_and_tools() {
    let tools = vec![tool("writer"), tool("storyboard")];
    assert!(validate_agent_request("系统", "输入", None, &tools).is_ok());

    assert!(validate_agent_tools(&[]).is_err());
    let too_many: Vec<ToolDef> = (0..33).map(|index| tool(&format!("t{index}"))).collect();
    assert!(validate_agent_tools(&too_many).is_err());

    assert!(validate_agent_tools(&[tool("  ")]).is_err());
    assert!(validate_agent_tools(&[tool("writer"), tool("writer")]).is_err());
    let long_name = "a".repeat(101);
    assert!(validate_agent_tools(&[tool(&long_name)]).is_err());
    assert!(validate_agent_tools(&[tool(&"a".repeat(100))]).is_ok());

    let bad_description = ToolDef {
        name: "writer".into(),
        description: "   ".into(),
        system: "s".into(),
    };
    assert!(validate_agent_tools(&[bad_description]).is_err());
    let long_description = ToolDef {
        name: "writer".into(),
        description: "d".repeat(2_001),
        system: "s".into(),
    };
    assert!(validate_agent_tools(&[long_description]).is_err());
    let bad_system = ToolDef {
        name: "writer".into(),
        description: "d".into(),
        system: String::new(),
    };
    assert!(validate_agent_tools(&[bad_system]).is_err());

    let long_text = "x".repeat(2_000_001);
    assert!(validate_agent_request(&long_text, "输入", None, &tools).is_err());
    assert!(validate_agent_request("系统", &long_text, None, &tools).is_err());
    let long_model = "m".repeat(201);
    assert!(validate_agent_request("系统", "输入", Some(&long_model), &tools).is_err());
    assert!(
        validate_agent_request("系统", "输入", Some("m".repeat(200).as_str()), &tools).is_ok()
    );
}

#[test]
fn tool_errors_name_what_is_wrong() {
    let error = |tools: &[ToolDef]| validate_agent_tools(tools).unwrap_err();
    assert_eq!(error(&[]), "tools 数量必须在 1 到 32 之间");
    assert_eq!(error(&[tool("  ")]), "tools.name 不能为空");
    assert_eq!(error(&[tool(&"a".repeat(101))]), "tools.name 超过 100 个字符");
    assert_eq!(error(&[tool("writer"), tool(" writer ")]), "tools.name 重复: writer");
    let mut changed = tool("writer");
    changed.description = " ".into();
    assert_eq!(error(&[changed]), "tools.description 不能为空");
    let mut changed = tool("writer");
    changed.description = "d".repeat(2_001);
    assert_eq!(error(&[changed]), "tools.description 超过 2000 个字符");
    let mut changed = tool("writer");
    changed.system = "\n".into();
    assert_eq!(error(&[changed]), "tools.system 不能为空");
    let mut changed = tool("writer");
    changed.system = "s".repeat(2_000_001);
    assert_eq!(error(&[changed]), "tools.system 超过 2000000 个字符");
    let tools = [tool("writer")];
    let long = "x".repeat(2_000_001);
    assert_eq!(
        validate_agent_request(&long, "", None, &tools).unwrap_err(),
        "system 超过 2000000 个字符"
    );
    assert_eq!(
        validate_agent_request("", &long, None, &tools).unwrap_err(),
        "input 超过 2000000 个字符"
    );
    assert_eq!(
        validate_agent_request("", "", Some(&"m".repeat(201)), &tools).unwrap_err(),
        "model 超过 200 个字符"
    );
}

#[test]
fn strips_compression_suffix_from_file_stem() {
    assert_eq!(original_stem("abc"), "abc");
    assert_eq!(original_stem("abc-lossless-20260901010101"), "abc");
    assert_eq!(original_stem("hero-q80-20260901010101"), "hero");
    assert_eq!(original_stem("hero-q60-20260901010101"), "hero");
    assert_eq!(original_stem("hero-png-20260901010101"), "hero");
}

#[test]
fn accepts_plain_case_image_names() {
    assert_eq!(promptlib_image_filename("case1.jpg").unwrap(), "case1.jpg");
    assert_eq!(
        promptlib_image_filename("/images/case334.png").unwrap(),
        "case334.png"
    );
    assert!(promptlib_image_filename("../secret.jpg").is_err());
    assert!(promptlib_image_filename("case1.exe").is_err());
    assert!(promptlib_image_filename("banner.svg").is_err());
}

#[test]
fn case_image_names_lose_directories_and_capitals() {
    assert_eq!(promptlib_image_filename(" a\\b\\CASE7.WebP ").unwrap(), "case7.webp");
    assert_eq!(promptlib_image_filename("case").unwrap_err(), "无效的案例图文件名");
    assert_eq!(promptlib_image_filename("case.jpg").unwrap_err(), "无效的案例图文件名");
    assert_eq!(promptlib_image_filename("case1a.jpg").unwrap_err(), "无效的案例图文件名");
    assert_eq!(promptlib_image_filename("case1.svg").unwrap_err(), "不支持的案例图格式");
    assert_eq!(
        promptlib_image_url("case1.jpg"),
        "https://pub-7ecb2a3a62b94375a9abd336abf0bcc6.r2.dev/img-case-assets/images/case1.jpg"
    );
    let files = vec![
        CachedFile { path: "/c/case1.jpg".into(), name: "case1.jpg".into() },
        CachedFile { path: "/c/note.txt".into(), name: "note.txt".into() },
        CachedFile { path: "/c/case2.gif".into(), name: "case2.gif".into() },
    ];
    assert_eq!(list_cached_promptlib_images(&files), vec!["/c/case1.jpg", "/c/case2.gif"]);
    assert!(check_promptlib_image(8_388_608, true).is_ok());
    assert_eq!(check_promptlib_image(8_388_609, true).unwrap_err(), "案例图超过 8 MiB 大小限制");
    assert_eq!(check_promptlib_image(1, false).unwrap_err(), "案例图内容格式校验失败");
}

#[test]
fn removes_reasoning_blocks_from_model_output() {
    assert_eq!(strip_thinking("<think>hidden</think>结果"), "结果");
    assert_eq!(strip_thinking("前文<think>unfinished"), "前文");
    assert_eq!(strip_thinking("A<THINK>x</THINK>B"), "AB");
}

#[test]
fn answers_that_were_cut_off_are_not_used() {
    assert_eq!(finished_text(true, " <think>a</think>b ").unwrap(), "b");
    assert_eq!(
        finished_text(false, "b").unwrap_err(),
        "文本服务返回不完整结果（可能被截断），未使用该结果；请重试或缩短输入"
    );
    assert_eq!(chat_url("https://host/v1//"), "https://host/v1/chat/completions");
}

fn call(id: &str, name: &str) -> ToolCall {
    ToolCall {
        id: id.into(),
        name: name.into(),
        arguments: r#"{"input":"任务"}"#.into(),
    }
}

#[test]
fn tool_calls_stay_within_their_budget() {
    let tools = vec![tool("writer")];
    let calls: Vec<ToolCall> = (0..10).map(|i| call(&format!("c{i}"), "writer")).collect();
    let planned = plan_calls(&calls, &tools, 0).unwrap();
    assert_eq!(planned.len(), 8);
    assert_eq!(planned[7].index, 7);
    assert_eq!(planned[0].input, "任务");
    assert_eq!(planned[0].system, "步骤 system");
    assert_eq!(plan_calls(&calls, &tools, 22).unwrap().len(), 2);
    assert_eq!(plan_calls(&calls, &tools, 24).unwrap().len(), 0);
    assert_eq!(plan_calls(&vec![call("c", "other")], &tools, 0).unwrap_err(), "未知工具");

    let completion = Completion {
        tool_calls: calls,
        completed: true,
        content: String::new(),
        assistant_message: json(r#"{"role":"assistant"}"#),
    };
    let mut messages = first_messages("系统", "输入");
    assert_eq!(messages.len(), 2);
    assert_eq!(messages[0].text_at("role"), Some("system"));
    assert_eq!(messages[1].text_at("content"), Some("输入"));
    let mut results: Vec<Option<String>> = (0..9).map(|i| Some(format!("r{i}"))).collect();
    results.push(None);
    let mut total: usize = 0;
    let stopped = take_results(&mut messages, &completion, &results, &mut total).unwrap();
    assert_eq!(total, 8);
    assert_eq!(
        stopped,
        "编排已停止：工具调用达到预算上限（每轮最多 8 次、全程最多 24 次），已执行 8 次，另有 2 次调用未执行。"
    );
    assert_eq!(messages.len(), 13);
    assert_eq!(messages[3].text_at("content"), Some("r0"));
    assert_eq!(messages[3].text_at("tool_call_id"), Some("c0"));
    assert_eq!(messages[12].text_at("content"), Some("工具调用预算已用尽，本次调用未执行。"));
    assert!(next_round(5).is_ok());
    assert_eq!(next_round(6).unwrap_err(), "编排超过步数上限");
}

fn asks_for(calls: usize) -> Completion {
    Completion {
        tool_calls: (0..calls).map(|i| call(&format!("c{i}"), "writer")).collect(),
        completed: true,
        content: "完成".into(),
        assistant_message: json(r#"{"role":"assistant"}"#),
    }
}

/// Lets a model ask for so many calls in each round. The result is how it ends, how often the
/// model was asked and how many calls were carried out.
fn course_of(rounds: &[usize]) -> (Result<String, String>, usize, usize) {
    let tools = vec![tool("writer")];
    let mut course = new_orchestration("系统", "输入");
    let mut event = AgentEvent::Begin;
    let (mut asked, mut calls) = (0, 0);
    loop {
        event = match orchestrate(&mut course, event, &tools) {
            AgentAction::Ask => {
                asked += 1;
                AgentEvent::Answered(Ok(asks_for(rounds.get(asked - 1).copied().unwrap_or(0))))
            }
            AgentAction::Call(planned) => {
                calls += planned.len();
                AgentEvent::Called(Ok(planned.iter().map(|_| Some("r".to_string())).collect()))
            }
            AgentAction::Finish(text) => return (Ok(text), asked, calls),
            AgentAction::Fail(error) => return (Err(error), asked, calls),
        };
    }
}

#[test]
fn a_whole_orchestration_stays_within_its_budget() {
    assert_eq!(course_of(&[]), (Ok("完成".into()), 1, 0));
    assert_eq!(course_of(&[2, 3]), (Ok("完成".into()), 3, 5));
    assert_eq!(course_of(&[8, 8, 8]), (Ok("完成".into()), 4, 24));
    let (end, asked, calls) = course_of(&[8, 8, 8, 8]);
    assert!(end.unwrap().contains("已执行 24 次，另有 8 次"));
    assert_eq!((asked, calls), (4, 24));
    assert_eq!(course_of(&[1; 7]), (Err("编排超过步数上限".into()), 6, 6));
    let tools = vec![tool("writer")];
    let mut course = new_orchestration("系统", "输入");
    match orchestrate(&mut course, AgentEvent::Answered(Err("断开".into())), &tools) {
        AgentAction::Fail(error) => assert_eq!(error, "断开"),
        other => panic!("the request failed: {other:?}"),
    }
    let unknown = Completion { tool_calls: vec![call("c", "other")], ..asks_for(0) };
    match orchestrate(&mut course, AgentEvent::Answered(Ok(unknown)), &tools) {
        AgentAction::Fail(error) => assert_eq!(error, "未知工具"),
        other => panic!("the tool is unknown: {other:?}"),
    }
    assert!(matches!(
        orchestrate(&mut course, AgentEvent::Answered(Ok(asks_for(1))), &tools),
        AgentAction::Call(_)
    ));
    match orchestrate(&mut course, AgentEvent::Called(Err("任务".into())), &tools) {
        AgentAction::Fail(error) => assert_eq!(error, "任务"),
        other => panic!("the calls failed: {other:?}"),
    }
}

#[test]
fn an_orchestration_needs_a_text_service() {
    let mut config = test_config();
    config.llm_api_url = "https://host/v1/".into();
    config.llm_api_key = "key".into();
    config.llm_model = "default-model".into();
    let (url, model) = agent_target(&config, None).unwrap();
    assert_eq!(url, "https://host/v1/chat/completions");
    assert_eq!(model, "default-model");
    assert_eq!(agent_target(&config, Some("chosen")).unwrap().1, "chosen");
    config.llm_api_key = String::new();
    assert_eq!(agent_target(&config, None).unwrap_err(), "未配置文本 LLM");
}

#[test]
fn plain_answers_end_the_orchestration() {
    let tools = vec![tool("writer")];
    let answer = |completed: bool| Completion {
        tool_calls: Vec::new(),
        completed,
        content: "<think>x</think> 完成 ".into(),
        assistant_message: Json::Null,
    };
    match agent_step(&answer(true), &tools, 0).unwrap() {
        AgentStep::Finish(text) => assert_eq!(text, "完成"),
        AgentStep::Call(_) => panic!("an answer without calls is final"),
    }
    assert_eq!(
        agent_step(&answer(false), &tools, 0).unwrap_err(),
        "文本服务返回不完整结果（可能被截断），未保存文档；请重试或缩短输入"
    );
    let described = tools_json(&tools);
    assert_eq!(described[0].text_at("type"), Some("function"));
    assert_eq!(described[0].get("function").unwrap().text_at("name"), Some("writer"));
}

#[test]
fn only_removes_generated_video_segments_inside_output_root() {
    let root = Some(parts("/root/视频"));
    let facts = |path: &str| SegmentFacts {
        path: Some(parts(path)),
        root: root.clone(),
        is_file: true,
    };
    assert!(segment_is_removable(&facts("/root/视频/run/seg_00_test.mp4")));
    assert!(!segment_is_removable(&facts("/root/视频/run/keep.mp4")));
    assert!(!segment_is_removable(&facts("/root/seg_outside.mp4")));
    assert!(!segment_is_removable(&SegmentFacts {
        path: None,
        root: root.clone(),
        is_file: false
    }));
    assert!(!segment_is_removable(&SegmentFacts {
        path: Some(parts("/root/视频/seg_dir.mp4")),
        root: root.clone(),
        is_file: false
    }));
    let result = cleanup_result(&vec![
        SegmentOutcome::Removed,
        SegmentOutcome::Skipped,
        SegmentOutcome::Skipped,
    ]);
    assert_eq!(result.removed, 1);
    assert_eq!(result.skipped, 2);
    assert_eq!(result.failed, 0);
    assert!(segment_parent_is_removable(&parts("/root/视频/run"), &parts("/root/视频")));
    assert!(!segment_parent_is_removable(&parts("/root/视频"), &parts("/root/视频")));
    assert!(!segment_parent_is_removable(&parts("/root"), &parts("/root/视频")));
}

#[test]
fn document_version_cas_allows_exactly_one_concurrent_head_and_cleans_loser_file() {
    for order in [["A", "B"], ["B", "A"]] {
        let mut rows: Vec<DocumentRow> = Vec::new();
        let mut files: Vec<String> = order.iter().map(|name| format!("剧本/{name}.md")).collect();
        let mut errors = Vec::new();
        for name in order {
            let request = document_request(
                "video:script:concurrent",
                &format!("并发版本 {name}"),
                None,
                false,
            );
            let path = format!("剧本/{name}.md");
            let mut event = DocumentEvent::Begun(Ok(()));
            let mut decided = None;
            loop {
                event = match save_document_step(event) {
                    DocumentAction::Decide => DocumentEvent::Decided(
                        save_document_version(&request, text_asset(name, &path), &rows)
                            .map(|found| decided = Some(found.0)),
                    ),
                    DocumentAction::Enter => DocumentEvent::Entered(Ok(())),
                    DocumentAction::Commit => DocumentEvent::Committed(Ok(())),
                    DocumentAction::Keep => {
                        let saved = decided.take().unwrap();
                        rows.push(DocumentRow {
                            id: saved.asset.id,
                            version: saved.version,
                            branch: false,
                            created_at: 1,
                        });
                        break;
                    }
                    DocumentAction::Undo(error) | DocumentAction::Remove(error) => {
                        files.retain(|file| *file != path);
                        errors.push(error);
                        break;
                    }
                };
            }
        }
        assert_eq!(errors.len(), 1);
        assert!(errors[0].contains("版本冲突"));
        assert_eq!(rows.len(), 1);
        assert_eq!(rows[0].version, 1);
        assert_eq!(rows[0].id, order[0]);
        assert_eq!(files, vec![format!("剧本/{}.md", order[0])]);
    }
}

#[test]
fn a_document_that_cannot_be_stored_leaves_no_file() {
    let removed = |event: DocumentEvent| match save_document_step(event) {
        DocumentAction::Remove(error) => error,
        other => panic!("the file goes: {other:?}"),
    };
    let undone = |event: DocumentEvent| match save_document_step(event) {
        DocumentAction::Undo(error) => error,
        other => panic!("the transaction is rolled back: {other:?}"),
    };
    let failed = || Err("busy".to_string());
    assert_eq!(removed(DocumentEvent::Begun(failed())), "开始文档版本事务失败: busy");
    assert_eq!(undone(DocumentEvent::Decided(failed())), "busy");
    assert_eq!(undone(DocumentEvent::Entered(failed())), "写入文档版本失败: busy");
    assert_eq!(removed(DocumentEvent::Committed(failed())), "提交文档版本失败: busy");
}

#[test]
fn historical_branch_from_old_parent_does_not_replace_production_head() {
    let mut rows: Vec<DocumentRow> = Vec::new();
    let mut versions = Vec::new();
    for (id, text, expected, branch) in [
        ("first", "生产版一", None, false),
        ("second", "生产版二", Some("first"), false),
        ("branch", "从旧父版本创建的历史分支", Some("first"), true),
    ] {
        let request = document_request(
            "video:script:branch",
            text,
            expected.map(|id| id.to_string()),
            branch,
        );
        let (saved, metadata) =
            save_document_version(&request, text_asset(id, "剧本/a.md"), &rows).unwrap();
        let params = metadata.get("params").unwrap();
        assert_eq!(params.bool_at("videoBranch"), Some(branch));
        assert_eq!(params.text_at("documentType"), Some("video_script"));
        assert_eq!(params.int_at("version"), Some(saved.version));
        assert_eq!(params.text_at("text"), Some(text));
        assert_eq!(metadata.text_at("source"), Some("视频剧本"));
        assert_eq!(saved.asset.kind, "text");
        assert_eq!(saved.asset.format.as_deref(), Some("md"));
        versions.push(saved.version);
        rows.push(DocumentRow {
            id: id.into(),
            version: saved.version,
            branch,
            created_at: 1,
        });
    }
    assert_eq!(versions, vec![1, 2, 3]);
    assert_eq!(production_head(&rows).as_deref(), Some("second"));
}

#[test]
fn document_versions_are_checked_in_turn() {
    let rows = Vec::new();
    let mut request = document_request(" ", "text", None, false);
    assert_eq!(check_document(&request).unwrap_err(), "文档标题、内容和 documentId 不能为空");
    assert!(save_document_version(&request, text_asset("a", "p"), &rows).is_err());
    request.document_id = "doc".into();
    assert_eq!(check_document(&request).unwrap(), ("视频剧本".to_string(), "text".to_string()));
    request.params = json("[]");
    assert_eq!(
        save_document_version(&request, text_asset("a", "p"), &rows).unwrap_err(),
        "文档 params 必须是对象"
    );
    let last = vec![DocumentRow { id: "x".into(), version: i64::MAX, branch: true, created_at: 0 }];
    assert_eq!(next_version(&last), None);
    assert_eq!(
        save_document_version(&request, text_asset("a", "p"), &last).unwrap_err(),
        "分配文档版本失败"
    );
    let tied = vec![
        DocumentRow { id: "b".into(), version: 2, branch: false, created_at: 5 },
        DocumentRow { id: "c".into(), version: 2, branch: false, created_at: 5 },
        DocumentRow { id: "d".into(), version: 2, branch: false, created_at: 4 },
        DocumentRow { id: "e".into(), version: 9, branch: true, created_at: 9 },
    ];
    assert_eq!(production_head(&tied).as_deref(), Some("c"));
    assert_eq!(next_version(&tied), Some(10));
    assert_eq!(next_version(&Vec::new()), Some(1));
    let metadata = asset_metadata("s", &None, &Some("p".into()), json("{}"));
    assert_eq!(metadata.to_text(), r#"{"model":null,"params":{},"projectId":"p","source":"s"}"#);
}

#[test]
fn settings_are_checked_before_they_are_saved() {
    assert!(validate_save_config(&empty_request()).is_ok());
    let mut request = empty_request();
    request.image_api_url = " https://host/v1 ".into();
    assert!(validate_save_config(&request).is_ok());
    request.video_api_url = "ftp://host/v1".into();
    assert_eq!(
        validate_save_config(&request).unwrap_err(),
        "video_api_url 必须是 HTTP(S) 地址"
    );
    request.video_api_url = "not an address".into();
    assert_eq!(
        validate_save_config(&request).unwrap_err(),
        "video_api_url 地址无效: relative URL without a base"
    );
    let mut request = empty_request();
    request.llm_api_model = "m".repeat(201);
    assert_eq!(validate_save_config(&request).unwrap_err(), "llm_api_model 超过 200 个字符");
    let mut request = empty_request();
    request.output_dir = "o".repeat(4_097);
    assert_eq!(validate_save_config(&request).unwrap_err(), "output_dir 超过 4096 个字符");
    let mut request = empty_request();
    request.image_api_key = "钥".repeat(16_384);
    assert!(validate_save_config(&request).is_ok());
    request.image_api_key = "k".repeat(16_385);
    assert_eq!(validate_save_config(&request).unwrap_err(), "image_api_key 超过 16384 个字符");
}

#[test]
fn a_stored_key_never_follows_a_new_address() {
    let mut config = test_config();
    config.image_api_url = "https://old/v1".into();
    config.image_api_key = "stored".into();
    let mut request = empty_request();
    request.image_api_url = "https://new/v1".into();
    assert_eq!(
        merge_config(&mut config, &request).unwrap_err(),
        "image_api_url 已变更：请同时提交该服务的新 Key，不能沿用已保存的旧 Key（避免密钥被发往新地址）"
    );
    assert_eq!(config.image_api_url, "https://old/v1");
    request.image_api_key = " fresh ".into();
    assert!(merge_config(&mut config, &request).is_ok());
    assert_eq!(config.image_api_url, "https://new/v1");
    assert_eq!(config.image_api_key, "fresh");
    assert_eq!(config.image_model, "image");
    request.image_api_key = String::new();
    request.image_api_url = " https://new/v1 ".into();
    assert!(merge_config(&mut config, &request).is_ok());
    assert_eq!(config.image_api_key, "fresh");

    let saved = save_config(&config, &empty_request()).unwrap();
    assert_eq!(saved.image_api_key, "fresh");
    assert_eq!(saved.output_dir, "output");
    assert_eq!(saved.source, "db");
    let mut bad = empty_request();
    bad.llm_api_url = "mailto:x".into();
    assert_eq!(save_config(&config, &bad).unwrap_err(), "llm_api_url 必须是 HTTP(S) 地址");
}

#[test]
fn media_is_decoded_and_checked() {
    assert_eq!(decode_media_base64("aGVsbG8=").unwrap(), b"hello".to_vec());
    assert_eq!(decode_media_base64("***").unwrap_err(), "媒体数据不是有效的 base64");
    assert_eq!(check_media_asset("image", "..PNG", 4, true, false).unwrap(), "png");
    assert_eq!(check_media_asset("video", "mov", 4, false, true).unwrap(), "mov");
    assert_eq!(
        check_media_asset("image", "png", 536_870_913, true, true).unwrap_err(),
        "媒体资产超过 512 MiB 大小限制"
    );
    assert_eq!(check_media_asset("image", "..", 4, true, true).unwrap_err(), "无效的媒体扩展名");
    assert_eq!(check_media_asset("image", "p/g", 4, true, true).unwrap_err(), "无效的媒体扩展名");
    assert_eq!(
        check_media_asset("audio", "mp3", 4, true, true).unwrap_err(),
        "不支持的媒体类型或扩展名: audio.mp3"
    );
    assert_eq!(
        check_media_asset("image", "gif", 4, false, true).unwrap_err(),
        "图片资产内容格式校验失败"
    );
    assert_eq!(
        check_media_asset("video", "webm", 4, true, false).unwrap_err(),
        "视频资产内容格式校验失败: webm"
    );
    assert_eq!(kind_folder("video"), "视频");
    assert_eq!(kind_folder("image"), "图片");
    assert_eq!(check_reference_image(9, Some("png")).unwrap(), "png");
    assert_eq!(
        check_reference_image(52_428_801, Some("png")).unwrap_err(),
        "参考图超过 50 MiB 大小限制"
    );
    assert_eq!(check_reference_image(9, None).unwrap_err(), "参考图格式不受支持或文件已损坏");
}

#[test]
fn texts_are_read_only_inside_the_application() {
    let roots = vec![None, Some(parts("/data"))];
    assert!(check_text_file(&parts("/data/a/b.MD"), &roots, "MD", 20_971_520).is_ok());
    assert_eq!(
        check_text_file(&parts("/data2/b.md"), &roots, "md", 1).unwrap_err(),
        "文档不在应用数据或输出目录中"
    );
    assert_eq!(
        check_text_file(&parts("/data/b"), &roots, "", 1).unwrap_err(),
        "只允许读取 md、txt、json 文档"
    );
    assert_eq!(
        check_text_file(&parts("/data/b.txt"), &roots, "txt", 20_971_521).unwrap_err(),
        "文档超过 20 MiB 大小限制"
    );
    assert!(path_in_allowed_roots(&parts("/data/b.png"), &roots).is_ok());
    assert_eq!(
        path_in_allowed_roots(&parts("/else/b.png"), &roots).unwrap_err(),
        "文件不在应用数据或输出目录中"
    );
    assert!(check_text_size(&"x".repeat(20_971_520)).is_ok());
    assert_eq!(
        check_text_size(&"字".repeat(6_990_507)).unwrap_err(),
        "文本资产超过 20 MiB 大小限制"
    );
}

#[test]
fn model_lists_come_from_the_catalogue() {
    let answer = json(r#"{"data":[{"id":"a"},{"id":3},{},{"id":"b"}]}"#);
    assert_eq!(model_ids(&answer), vec!["a", "b"]);
    let known = || vec!["known".to_string()];
    assert_eq!(image_models(Some(&answer), known()), vec!["a", "b"]);
    assert_eq!(image_models(Some(&json(r#"{"data":[]}"#)), known()), vec!["known"]);
    assert_eq!(image_models(None, known()), vec!["known"]);
    assert_eq!(video_models(&answer).unwrap(), vec!["a", "b"]);
    assert_eq!(
        video_models(&json("{}")).unwrap_err(),
        "视频模型目录为空，请确认使用的是视频 API Key，并检查权限和 Base URL"
    );
    let mut config = test_config();
    config.video_api_url = "https://host/v1/videos".into();
    assert_eq!(video_catalogue(&config), None);
    config.video_api_key = "key".into();
    assert_eq!(video_catalogue(&config).as_deref(), Some("https://host/v1/models"));
    assert_eq!(
        llm_chat(&config, None).unwrap_err(),
        "未配置文本 LLM（请在设置中填写 LLM 地址与 Key）"
    );
    config.llm_api_url = "https://host/v1/".into();
    config.llm_api_key = "key".into();
    let (url, model) = llm_chat(&config, None).unwrap();
    assert_eq!((url.as_str(), model.as_str()), ("https://host/v1/chat/completions", "llm"));
    assert_eq!(llm_chat(&config, Some("other")).unwrap().1, "other");
}

#[test]
fn video_requests_are_read_from_the_node() {
    let config = json(r#"{"prompt":"海","images":[" a ","",3,"b"],"duration_s":8,"mode":"pro"}"#);
    assert_eq!(string_array(&config, "images"), vec!["a", "b"]);
    assert_eq!(string_array(&config, "videos"), Vec::<String>::new());
    let request = video_request(&config, "default-model", &vec!["local".to_string()]).unwrap();
    assert_eq!(request.model, "default-model");
    assert_eq!(request.duration_s, 8);
    assert_eq!(request.images, vec!["a", "b", "local"]);
    assert_eq!(request.mode.as_deref(), Some("pro"));
    assert_eq!(request.resolution, None);
    assert_eq!(
        video_request(&json(r#"{"prompt":" "}"#), "m", &Vec::new()).unwrap_err(),
        "缺少提示词"
    );
    assert_eq!(video_request(&json("{}"), "m", &Vec::new()).unwrap_err(), "缺少提示词");
    assert_eq!(
        video_request(&json(r#"{"prompt":"p"}"#), "m", &Vec::new()).unwrap().duration_s,
        5
    );
    assert!(check_node_category("generate").is_ok());
    assert!(check_node_category("ai_process").is_ok());
    assert_eq!(check_node_category("video").unwrap_err(), "未知节点类别: video");
}

#[test]
fn run_folders_tell_what_was_asked_for() {
    assert_eq!(
        run_tag(&json(r#"{"prompt":"hello"}"#), "20260901-010101"),
        "20260901-010101_hello_5d4140"
    );
    assert_eq!(run_tag(&json("{}"), "t"), "t_gen_d41d8c");
    let tag = run_tag(&json(r#"{"prompt":"  雨夜, a  cat! "}"#), "t");
    assert!(tag.starts_with("t_雨夜-a-cat_"));
    let long = run_tag(&json(r#"{"prompt":"abcdefghijklmnopqrstuvwxyz"}"#), "t");
    assert_eq!(long, "t_abcdefghijklmnopqrstuvwx_c3fcd3");
}

#[test]
fn only_the_first_entries_of_a_batch_are_logged() {
    let entries: Vec<ClientLogEntry> = (0..101)
        .map(|i| ClientLogEntry {
            level: "info".into(),
            event: format!("e{i}"),
            fields: Json::Int(i),
        })
        .collect();
    let logged = client_logs(entries);
    assert_eq!(logged.len(), 100);
    assert_eq!(logged[99].1, "e99");
    assert_eq!(logged[99].2, Json::Int(99));
}

#[test]
fn answers_from_outside_are_judged_alone() {
    assert_eq!(check_scheme("u", Ok("https".into()), true), None);
    assert_eq!(
        check_scheme("u", Ok("https".into()), false).as_deref(),
        Some("u 必须是 HTTP(S) 地址")
    );
    assert_eq!(check_scheme("u", Err("bad".into()), true).as_deref(), Some("u 地址无效: bad"));
    assert_eq!(run_name("t", "", "0123456789"), "t_gen_012345");
    assert_eq!(run_name("t", "a-b", "0"), "t_a-b_0");
    assert_eq!(media_bytes(Ok(vec![7])).unwrap(), vec![7]);
    assert_eq!(media_bytes(Err("bad".into())).unwrap_err(), "媒体数据不是有效的 base64");
    assert_eq!(tool_input(Some(&json(r#"{"input":"i"}"#))), "i");
    assert_eq!(tool_input(Some(&json("[]"))), "");
    assert_eq!(tool_input(None), "");
}
