use imggen::api::{
    image_item_step, ImagesStep, generation_outcome, body_summary, check_image_count, clamp_quantity, collect_models, decode_image,
    downloaded_image, endpoint, error_detail, format_http_error, image_request, image_size,
    image_source, invalid_response_message, models_request, request_error_message,
    retry_after_note, ApiErrorResponse, ApiErrorValue, ImageSource,
};
use imggen::mcp::{GenerateImageRequest, ImgGenMcp, ProviderNameRequest, SaveProviderRequest};
use imggen::storage::{
    delete_step, join_path, store_start, store_step, DeleteAction, DeleteEvent, DeletePhase,
    StoreAction, StoreEvent, StorePhase, delete_failure_message, is_generated_image_name, normalize_extension, prepend_history,
    restore_result, validate_image_file_name, AppPaths, GenerationMetadata, HistoryRecord,
    ImagePayload, Provider, ProviderState, Storage,
};
use imggen::text::decimal_string;
use imggen::workbench::{
    check_model_chosen, check_prompt_written, generation_provider, status_text, StatusEvent,
    add_provider_entry, apply_fetched_models, copy_provider_entry, delete_provider_entry,
    find_history_record, history_item_text, parse_quantity, provider_models,
    save_current_provider,
};

fn sep() -> String {
    std::path::MAIN_SEPARATOR.to_string()
}

fn provider(name: &str) -> Provider {
    Provider {
        name: name.to_string(),
        base_url: "https://api.example.com/v1".to_string(),
        api_key: "key".to_string(),
        model: "model".to_string(),
        models: vec!["model".to_string()],
    }
}

fn named(name: &str) -> ProviderNameRequest {
    ProviderNameRequest { name: name.to_string() }
}

fn state(names: &[&str], current: usize) -> ProviderState {
    ProviderState { current_index: current, providers: names.iter().map(|n| provider(n)).collect() }
}

fn record(id: &str, image_file: &str) -> HistoryRecord {
    HistoryRecord {
        id: id.to_string(),
        created_at: 7,
        prompt: "一只猫".to_string(),
        provider: "p".to_string(),
        model: "m".to_string(),
        resolution: "1024 × 1024".to_string(),
        image_format: "PNG".to_string(),
        quantity: 1,
        image_file: image_file.to_string(),
    }
}

fn metadata() -> GenerationMetadata {
    GenerationMetadata {
        prompt: "测试图片".to_string(),
        provider: "测试 API".to_string(),
        model: "test-model".to_string(),
        resolution: "1024 × 1024".to_string(),
        image_format: "PNG".to_string(),
        quantity: 2,
    }
}

#[test]
fn endpoint_keeps_an_existing_path_and_collapses_slashes() {
    assert_eq!(endpoint("https://x/v1///", "///models"), "https://x/v1/models");
    assert_eq!(endpoint("https://x/v1", ""), "https://x/v1");
    let once = endpoint("https://x/v1", "models");
    assert_eq!(endpoint(&once, "models"), once);
    // a path ending with a slash is appended again
    let slashed = endpoint("https://x", "models/");
    assert_eq!(slashed, "https://x/models/");
    assert_eq!(endpoint(&slashed, "models/"), "https://x/models/models/");
}

#[test]
fn body_summary_trims_and_cuts_at_240_characters() {
    assert_eq!(body_summary("  \u{3000}hello\n"), "hello");
    let long: String = "字".repeat(300);
    assert_eq!(body_summary(&long).chars().count(), 240);
}

#[test]
fn error_detail_prefers_nested_message_and_falls_back_to_summary() {
    let parsed = Some(ApiErrorResponse {
        error: Some(ApiErrorValue { message: None, text: Some("bad key".to_string()) }),
        message: Some("outer".to_string()),
        detail: None,
    });
    assert_eq!(error_detail("{}", &parsed), "bad key");
    let only_detail =
        Some(ApiErrorResponse { error: None, message: None, detail: Some("d".to_string()) });
    assert_eq!(error_detail("{}", &only_detail), "d");
    let blank_message =
        Some(ApiErrorResponse { error: None, message: Some("  ".to_string()), detail: Some("d".to_string()) });
    assert_eq!(error_detail(" raw ", &blank_message), "raw");
}

#[test]
fn http_errors_carry_the_retry_after_note() {
    let note = retry_after_note(Some("30"));
    assert_eq!(note, "，Retry-After: 30");
    assert_eq!(retry_after_note(Some(" ")), "");
    assert_eq!(retry_after_note(None), "");
    let msg = format_http_error("获取模型", "429", &note, "slow down", &None);
    assert_eq!(msg, "获取模型失败：HTTP 429，Retry-After: 30：slow down");
}

#[test]
fn request_errors_name_reason_url_and_cause() {
    let msg = request_error_message("获取模型", true, true, "https://x", "e", Some("c"));
    assert_eq!(msg, "获取模型失败：请求超时（https://x）：e；原因：c");
    let msg = request_error_message("下载图片", false, true, "u", "e", None);
    assert_eq!(msg, "下载图片失败：连接服务器失败（u）：e");
    let msg = request_error_message("生成图片", false, false, "u", "e", None);
    assert_eq!(msg, "生成图片失败：网络请求失败（u）：e");
    assert_eq!(invalid_response_message("模型响应", " <html> "), "模型响应格式无效：<html>");
}

#[test]
fn models_request_needs_a_base_url_and_sends_a_nonblank_key() {
    let mut p = provider("a");
    let q = models_request(&p).unwrap();
    assert_eq!(q.url, "https://api.example.com/v1/models");
    assert_eq!(q.bearer.as_deref(), Some("key"));
    p.api_key = " ".to_string();
    assert!(models_request(&p).unwrap().bearer.is_none());
    p.base_url = "".to_string();
    assert_eq!(models_request(&p).unwrap_err(), "API 提供商未配置 Base URL，无法获取模型");
}

#[test]
fn collect_models_drops_blank_ids() {
    let ms = collect_models(vec!["a".to_string(), " ".to_string(), "b".to_string()]).unwrap();
    assert_eq!(ms, vec!["a".to_string(), "b".to_string()]);
    assert_eq!(collect_models(vec![" ".to_string()]).unwrap_err(), "供应商没有返回可用模型");
}

#[test]
fn image_request_checks_settings_in_order() {
    let mut p = provider("a");
    let q = image_request(&p, "cat", " 1792x1024 ", 40).unwrap();
    assert_eq!(q.url, "https://api.example.com/v1/images/generations");
    assert_eq!(q.n, 10);
    assert_eq!(q.size, "1792x1024");
    p.model = "".to_string();
    assert_eq!(image_request(&p, "cat", "", 1).err().unwrap(), "API 提供商未配置模型");
    p.api_key = "".to_string();
    assert_eq!(image_request(&p, "cat", "", 1).err().unwrap(), "API 提供商未配置 API Key");
    p.base_url = " ".to_string();
    assert_eq!(image_request(&p, "cat", "", 1).err().unwrap(), "API 提供商未配置 Base URL");
}

#[test]
fn image_sizes_and_quantities() {
    assert_eq!(image_size("1024 × 1792"), "1024x1792");
    assert_eq!(image_size("1792 × 1024"), "1792x1024");
    assert_eq!(image_size("512x512"), "1024x1024");
    assert_eq!(clamp_quantity(0), 1);
    assert_eq!(clamp_quantity(4), 4);
    assert_eq!(clamp_quantity(11), 10);
}

#[test]
fn image_sources_and_counts() {
    assert!(matches!(image_source(Some("aGk=".to_string()), Some("u".to_string())), ImageSource::Encoded(_)));
    assert!(matches!(image_source(None, Some("https://x/i.png".to_string())), ImageSource::Download(_)));
    assert!(matches!(image_source(None, Some(" ".to_string())), ImageSource::Missing));
    assert!(matches!(image_source(None, None), ImageSource::Missing));
    assert_eq!(check_image_count(0).unwrap_err(), "图片接口没有返回图片");
    assert!(check_image_count(2).is_ok());
}

#[test]
fn decode_image_decodes_base64() {
    // "iVBORw0KGgo=" is the PNG signature
    let image = decode_image("iVBORw0KGgo=", "JPEG").unwrap();
    assert_eq!(image.bytes, vec![0x89, b'P', b'N', b'G', b'\r', b'\n', 0x1a, b'\n']);
    assert_eq!(image.extension, "png");
    let text = decode_image("aGVsbG8=", "jpeg").unwrap();
    assert_eq!(text.bytes, b"hello".to_vec());
    assert_eq!(text.extension, "jpg");
    assert!(decode_image("not base64!", "png").unwrap_err().starts_with("图片数据解码失败："));
    assert_eq!(decode_image("ab$d", "png").unwrap_err(), "图片数据解码失败：Invalid symbol 36, offset 2.");
    assert_eq!(decode_image("", "png").unwrap_err(), "图片内容为空");
}

#[test]
fn downloads_must_not_be_empty() {
    assert_eq!(downloaded_image(Vec::new(), "png").unwrap_err(), "下载图片失败：响应内容为空");
    assert_eq!(downloaded_image(vec![0xff, 0xd8, 0xff], "png").unwrap().extension, "jpg");
}

#[test]
fn extensions_are_normalized() {
    assert_eq!(normalize_extension(" JPEG "), "jpg");
    assert_eq!(normalize_extension("Jpg"), "jpg");
    assert_eq!(normalize_extension("WebP"), "webp");
    assert_eq!(normalize_extension("gif"), "png");
    assert_eq!(normalize_extension(normalize_extension("jpeg")), "jpg");
}

#[test]
fn only_generated_names_are_image_files() {
    assert!(validate_image_file_name("imggen-1-2-3.png").is_ok());
    assert!(validate_image_file_name("imggen-1.webp").is_ok());
    assert_eq!(validate_image_file_name("../outside.png").unwrap_err(), "历史图片文件名无效");
    assert!(validate_image_file_name("imggen-../../x.png").is_err());
    assert!(validate_image_file_name("imggen-a\\b.png").is_err());
    assert!(validate_image_file_name("imggen-a.gif").is_err());
    assert!(validate_image_file_name("").is_err());
    assert!(!is_generated_image_name("notes.txt"));
}

#[test]
fn paths_lie_under_the_data_directory() {
    let s = sep();
    let paths = AppPaths::from_root("/app".to_string());
    assert_eq!(paths.data, format!("/app{s}data"));
    assert_eq!(paths.history, format!("/app{s}data{s}history.json"));
    assert_eq!(paths.providers, format!("/app{s}data{s}providers.json"));
    assert_eq!(paths.images, format!("/app{s}data{s}images"));
    assert_eq!(paths.lock, format!("/app{s}data{s}.storage.lock"));
    let trailing = AppPaths::from_root("/app/".to_string());
    assert_eq!(trailing.data, "/app/data");
    let storage = Storage::from_root("/app".to_string());
    assert_eq!(
        storage.image_path("imggen-1.png").unwrap(),
        format!("/app{s}data{s}images{s}imggen-1.png")
    );
    assert!(storage.image_path("../outside.png").is_err());
    assert_eq!(
        storage.tombstone_path("imggen-1.png", "9"),
        format!("/app{s}data{s}images{s}.imggen-1.png.deleting-9")
    );
    assert_eq!(
        storage.temporary_image_path("imggen-1.png", "1"),
        format!("/app{s}data{s}images{s}.imggen-1.png.tmp-1")
    );
}

#[test]
fn store_images_names_each_image_and_keeps_its_order() {
    let storage = Storage::from_root("/app".to_string());
    let images = vec![
        ImagePayload { bytes: b"one".to_vec(), extension: "png".to_string() },
        ImagePayload { bytes: b"two".to_vec(), extension: "jpeg".to_string() },
    ];
    let ids = vec!["1-2-3".to_string(), "1-2-4".to_string()];
    let records = storage.store_images(&images, &metadata(), &ids, &[10, 11]).unwrap();
    assert_eq!(records.len(), 2);
    assert_eq!(records[0].image_file, "imggen-1-2-3.png");
    assert_eq!(records[1].image_file, "imggen-1-2-4.jpg");
    assert_eq!(records[1].created_at, 11);
    assert_eq!(records[0].prompt, "测试图片");
    assert_eq!(records[0].quantity, 2);
    let all = prepend_history(&records, vec![record("old", "imggen-old.png")]);
    let ids: Vec<&str> = all.iter().map(|r| r.id.as_str()).collect();
    assert_eq!(ids, vec!["1-2-3", "1-2-4", "old"]);
}

#[test]
fn store_images_refuses_empty_batches_and_checks_each_image_as_it_is_written() {
    let storage = Storage::from_root("/app".to_string());
    assert_eq!(storage.store_images(&[], &metadata(), &[], &[]).unwrap_err(), "没有可保存的图片");
    let images = vec![
        ImagePayload { bytes: b"one".to_vec(), extension: "png".to_string() },
        ImagePayload { bytes: Vec::new(), extension: "png".to_string() },
    ];
    let ids = vec!["a".to_string(), "b".to_string()];
    let records = storage.store_images(&images, &metadata(), &ids, &[1, 2]).unwrap();
    let (phase, action) = store_start(&records, &images);
    assert!(matches!(action, StoreAction::WriteImage(0)));
    let (phase, action) = store_step(&records, &images, phase, StoreEvent::Succeeded);
    assert!(matches!(phase, StorePhase::Finished));
    match action {
        StoreAction::RemoveImages { count, error } => {
            assert_eq!(count, 1);
            assert_eq!(error, "图片内容为空，无法保存");
        }
        other => panic!("unexpected {other:?}"),
    }
    let bad_ids = vec!["../a".to_string(), "b".to_string()];
    let records = storage.store_images(&images, &metadata(), &bad_ids, &[1, 2]).unwrap();
    match store_start(&records, &images).1 {
        StoreAction::Fail(error) => assert_eq!(error, "历史图片文件名无效"),
        other => panic!("unexpected {other:?}"),
    }
}

#[test]
fn delete_history_finds_removes_and_refuses() {
    let storage = Storage::from_root("/app".to_string());
    let records = vec![record("one", "imggen-one.png"), record("two", "imggen-two.png")];
    let deletion = storage.delete_history(Ok(records.clone()), "one").unwrap().unwrap();
    assert_eq!(deletion.index, 0);
    assert_eq!(deletion.record.id, "one");
    assert_eq!(deletion.remaining.len(), 1);
    assert_eq!(deletion.remaining[0].id, "two");
    assert!(deletion.image_path.ends_with("imggen-one.png"));
    assert!(storage.delete_history(Ok(records.clone()), "../../outside").unwrap().is_none());
    assert_eq!(storage.delete_history(Ok(records), " ").unwrap_err(), "历史记录 ID 不能为空");
    assert_eq!(storage.delete_history(Err("read".to_string()), "one").unwrap_err(), "read");
    let malicious = vec![record("malicious", "../outside.png")];
    assert_eq!(storage.delete_history(Ok(malicious), "malicious").unwrap_err(), "历史图片文件名无效");
}

#[test]
fn delete_failures_say_what_was_restored() {
    assert_eq!(restore_result::<String>(&None), "成功");
    assert_eq!(restore_result(&Some(1)), "失败");
    assert_eq!(
        delete_failure_message("busy", &None, &None),
        "删除历史图片失败：busy，已恢复历史记录和图片"
    );
    assert_eq!(
        delete_failure_message("busy", &Some("x".to_string()), &None),
        "删除历史图片失败：busy，恢复结果：历史记录=失败，图片=成功"
    );
}

#[test]
fn reload_drops_missing_images_and_finds_stale_files() {
    let storage = Storage::from_root("/app".to_string());
    let records = vec![
        record("a", "imggen-a.png"),
        record("b", "imggen-b.png"),
        record("c", "../c.png"),
    ];
    let (kept, changed) = storage.reconcile_history(&records, &vec![true, false, true]);
    assert!(changed);
    assert_eq!(kept.len(), 1);
    assert_eq!(kept[0].id, "a");
    let (again, changed_again) = storage.reconcile_history(&kept, &vec![true]);
    assert!(!changed_again);
    assert_eq!(again.len(), 1);
    let entries = vec![
        "imggen-a.png".to_string(),
        "imggen-z.jpg".to_string(),
        "notes.txt".to_string(),
        ".imggen-a.png.tmp-1".to_string(),
    ];
    assert_eq!(storage.stale_image_names(&kept, &entries), vec!["imggen-z.jpg".to_string()]);
}

#[test]
fn provider_settings_load_normalized_and_read_back() {
    let storage = Storage::from_root("/app".to_string());
    let fresh = storage.load_provider_state(None);
    assert_eq!(fresh.current_index, 0);
    assert_eq!(fresh.providers.len(), 1);
    assert_eq!(fresh.providers[0].name, "本地演示 API");
    let clamped = storage.load_provider_state(Some(state(&["a", "b"], 9)));
    assert_eq!(clamped.current_index, 1);
    let emptied = storage.save_provider_state(ProviderState { current_index: 3, providers: Vec::new() });
    assert_eq!(emptied.providers[0].name, "本地演示 API");
    assert_eq!(emptied.current_index, 0);
    let mut saved = storage.save_provider_state(state(&["a"], 0));
    saved.providers[0].api_key = "secret".to_string();
    let read_back = storage.load_provider_state(Some(saved.clone()));
    assert_eq!(read_back.providers[0].api_key, "secret");
}

#[test]
fn update_provider_state_normalizes_or_passes_errors() {
    let storage = Storage::from_root("/app".to_string());
    let (value, s) = storage
        .update_provider_state(Some(state(&["a", "b"], 1)), |mut st: ProviderState| {
            st.providers.clear();
            (st, Ok::<u32, String>(5))
        })
        .unwrap();
    assert_eq!(value, 5);
    assert_eq!(s.providers[0].name, "本地演示 API");
    let err = storage.update_provider_state(None, |st: ProviderState| (st, Err::<(), String>("no".to_string())));
    assert_eq!(err.unwrap_err(), "no");
}

#[test]
fn save_provider_updates_or_appends_and_keeps_an_omitted_key() {
    let mut s = state(&["a", "b"], 1);
    let saved = ImgGenMcp::save_provider(&mut s, &SaveProviderRequest {
        name: "a".to_string(),
        base_url: "https://new".to_string(),
        api_key: None,
        model: Some("m2".to_string()),
        models: None,
    })
    .unwrap();
    assert_eq!(saved.api_key, "key");
    assert_eq!(saved.model, "m2");
    assert_eq!(s.providers[0].base_url, "https://new");
    assert_eq!(s.providers[0].models, vec!["model".to_string()]);
    let created = ImgGenMcp::save_provider(&mut s, &SaveProviderRequest {
        name: "c".to_string(),
        base_url: "https://c".to_string(),
        api_key: None,
        model: None,
        models: None,
    })
    .unwrap();
    assert_eq!(s.providers.len(), 3);
    assert_eq!(created.api_key, "");
    assert_eq!(s.current_index, 1);
    let bad = SaveProviderRequest { name: " ".to_string(), base_url: "".to_string(), api_key: None, model: None, models: None };
    assert_eq!(ImgGenMcp::check_save_provider(&bad).unwrap_err(), "供应商名称不能为空");
    let bad_url = SaveProviderRequest { name: "x".to_string(), ..bad };
    assert_eq!(ImgGenMcp::check_save_provider(&bad_url).unwrap_err(), "Base URL 不能为空");
}

#[test]
fn delete_provider_keeps_one_and_follows_the_current_provider() {
    let mut s = state(&["a", "b", "c"], 2);
    assert_eq!(ImgGenMcp::delete_provider(&mut s, &named("a")).unwrap(), true);
    assert_eq!(s.current_index, 1);
    assert_eq!(s.providers[s.current_index].name, "c");
    assert_eq!(ImgGenMcp::delete_provider(&mut s, &named("missing")).unwrap(), false);
    assert_eq!(ImgGenMcp::delete_provider(&mut s, &named("c")).unwrap(), true);
    assert_eq!(s.current_index, 0);
    assert_eq!(ImgGenMcp::delete_provider(&mut s, &named("b")).unwrap_err(), "至少保留一个 API 提供商");
    assert_eq!(s.providers.len(), 1);
}

#[test]
fn select_and_fetch_by_name() {
    let mut s = state(&["a", "b"], 0);
    assert_eq!(ImgGenMcp::select_provider(&mut s, &named("b")).unwrap(), 1);
    assert_eq!(imggen::mcp::select_provider(&s, None).unwrap().name, "b");
    assert_eq!(ImgGenMcp::select_provider(&mut s, &named("zz")).unwrap_err(), "没有找到指定 API 提供商");
    s.providers[1].model = String::new();
    ImgGenMcp::fetch_provider_models(&mut s, &named("b"), vec!["x".to_string(), "y".to_string()]).unwrap();
    assert_eq!(s.providers[1].model, "x");
    ImgGenMcp::fetch_provider_models(&mut s, &named("b"), vec!["z".to_string()]).unwrap();
    assert_eq!(s.providers[1].model, "x");
    assert_eq!(s.providers[1].models, vec!["z".to_string()]);
    assert!(ImgGenMcp::fetch_provider_models(&mut s, &named("zz"), vec![]).is_err());
}

#[test]
fn generation_plan_defaults_and_checks() {
    let request = GenerateImageRequest {
        prompt: "cat".to_string(),
        resolution: None,
        image_format: None,
        quantity: Some(99),
        provider: None,
    };
    let plan = ImgGenMcp::generation_plan(Ok(state(&["a", "b"], 1)), &request).unwrap();
    assert_eq!(plan.provider.name, "b");
    assert_eq!(plan.resolution, "1024 × 1024");
    assert_eq!(plan.image_format, "PNG");
    assert_eq!(plan.quantity, 10);
    let named = GenerateImageRequest { provider: Some("zz".to_string()), ..request.clone() };
    assert_eq!(ImgGenMcp::generation_plan(Ok(state(&["a"], 0)), &named).unwrap_err(), "没有找到指定 API 提供商");
    let blank = GenerateImageRequest { prompt: "  ".to_string(), ..request.clone() };
    assert_eq!(ImgGenMcp::generation_plan(Err("io".to_string()), &blank).unwrap_err(), "prompt 不能为空");
    assert_eq!(ImgGenMcp::generation_plan(Err("io".to_string()), &request).unwrap_err(), "io");
    let out_of_range = ProviderState { current_index: 5, providers: vec![provider("a")] };
    assert_eq!(ImgGenMcp::generation_plan(Ok(out_of_range), &request).unwrap_err(), "没有可用的 API 提供商");
}

#[test]
fn history_outputs_show_paths_and_refuse_bad_names() {
    let server = ImgGenMcp::new(Storage::from_root("/app".to_string()));
    let s = sep();
    let out = server.history_outputs(vec![record("a", "imggen-a.png")]).unwrap();
    assert_eq!(out[0].image_path, format!("/app{s}data{s}images{s}imggen-a.png"));
    assert_eq!(out[0].prompt, "一只猫");
    assert!(server.history_outputs(vec![record("a", "imggen-a.png"), record("b", "b.png")]).is_err());
    let outputs = ImgGenMcp::provider_outputs(&state(&["a", "b"], 0));
    assert_eq!(outputs.len(), 2);
    assert_eq!(outputs[1].name, "b");
}

#[test]
fn workbench_provider_list_edits() {
    let mut ps = vec![provider("a")];
    assert_eq!(add_provider_entry(&mut ps), 1);
    assert_eq!(ps[1].name, "新 API 提供商 2");
    assert_eq!(copy_provider_entry(&mut ps, 0).unwrap(), 2);
    assert_eq!(ps[2].name, "a 副本");
    assert_eq!(ps[2].api_key, "key");
    assert_eq!(copy_provider_entry(&mut ps, 40).unwrap(), 3);
    assert_eq!(ps[3].name, "a 副本 副本");
    assert_eq!(delete_provider_entry(&mut ps, 99).unwrap(), 2);
    assert_eq!(ps.len(), 3);
    assert_eq!(delete_provider_entry(&mut ps, 0).unwrap(), 0);
    let mut one = vec![provider("x")];
    assert_eq!(delete_provider_entry(&mut one, 0).unwrap_err(), "至少保留一个 API 提供商");
    let mut none: Vec<Provider> = Vec::new();
    assert_eq!(copy_provider_entry(&mut none, 0).unwrap_err(), "没有可复制的 API 提供商");
    save_current_provider(&mut one, 0, "y", "u", "k", "m");
    assert_eq!(one[0].name, "y");
    assert_eq!(one[0].models, vec!["model".to_string()]);
    save_current_provider(&mut one, 5, "z", "u", "k", "m");
    assert_eq!(one[0].name, "y");
}

#[test]
fn workbench_model_fetch_outcomes() {
    let mut ps = vec![provider("a")];
    apply_fetched_models(&mut ps, 0, Ok(vec!["n1".to_string(), "n2".to_string()]));
    assert_eq!(ps[0].model, "n1");
    assert_eq!(provider_models(&ps, 0), vec!["n1".to_string(), "n2".to_string()]);
    apply_fetched_models(&mut ps, 0, Err("down".to_string()));
    assert!(ps[0].models.is_empty());
    assert_eq!(ps[0].model, "n1");
    assert!(provider_models(&ps, 3).is_empty());
}

#[test]
fn workbench_history_and_quantity() {
    let records = vec![record("a", "imggen-a.png")];
    assert_eq!(find_history_record(&records, "a").unwrap().id, "a");
    assert_eq!(find_history_record(&records, "b").unwrap_err(), "没有找到对应的历史记录");
    let (title, subtitle) = history_item_text(&records[0]);
    assert_eq!(title, "一只猫");
    assert_eq!(subtitle, "p/m");
    let mut long = record("l", "imggen-l.png");
    long.prompt = "字".repeat(30);
    assert_eq!(history_item_text(&long).0.chars().count(), 22);
    long.prompt = String::new();
    assert_eq!(history_item_text(&long).0, "未命名图片");
    assert_eq!(parse_quantity("3"), 3);
    assert_eq!(parse_quantity("+4"), 4);
    assert_eq!(parse_quantity("0"), 1);
    assert_eq!(parse_quantity("25"), 10);
    assert_eq!(parse_quantity("abc"), 1);
    assert_eq!(parse_quantity(""), 1);
    assert_eq!(parse_quantity("+"), 1);
    assert_eq!(parse_quantity(" 3"), 1);
    assert_eq!(parse_quantity("99999999999"), 1);
    assert_eq!(parse_quantity("4294967295"), 10);
    assert_eq!(decimal_string(0), "0");
    assert_eq!(decimal_string(1207), "1207");
}

#[test]
fn joins_onto_a_bare_windows_drive_without_a_separator() {
    assert_eq!(join_path("C:", "data", '\\'), "C:data");
    assert_eq!(join_path("C:\\app", "data", '\\'), "C:\\app\\data");
    assert_eq!(join_path("C:\\", "data", '\\'), "C:\\data");
    assert_eq!(join_path("/app", "data", '/'), "/app/data");
    assert_eq!(join_path("/app/", "data", '/'), "/app/data");
}

#[test]
fn store_steps_write_images_then_prepend_history() {
    let records = vec![record("1", "imggen-1.png"), record("2", "imggen-2.png")];
    let images = vec![
        ImagePayload { bytes: vec![1], extension: "png".to_string() },
        ImagePayload { bytes: vec![2], extension: "png".to_string() },
    ];
    let (phase, action) = store_start(&records, &images);
    assert!(matches!(phase, StorePhase::WritingImage(0)));
    assert!(matches!(action, StoreAction::WriteImage(0)));
    let (phase, action) = store_step(&records, &images, phase, StoreEvent::Succeeded);
    assert!(matches!(action, StoreAction::WriteImage(1)));
    let (phase, action) = store_step(&records, &images, phase, StoreEvent::Succeeded);
    assert!(matches!(action, StoreAction::ReadHistory));
    let old = vec![record("0", "imggen-0.png")];
    let (phase, action) = store_step(&records, &images, phase, StoreEvent::HistoryRead(old));
    match action {
        StoreAction::WriteHistory(all) => {
            let ids: Vec<&str> = all.iter().map(|r| r.id.as_str()).collect();
            assert_eq!(ids, vec!["1", "2", "0"]);
        }
        other => panic!("unexpected {other:?}"),
    }
    let (phase, action) = store_step(&records, &images, phase, StoreEvent::Succeeded);
    assert!(matches!(phase, StorePhase::Finished));
    assert!(matches!(action, StoreAction::Finish));
}

#[test]
fn store_steps_remove_written_images_on_failure() {
    let records = vec![record("1", "imggen-1.png"), record("2", "imggen-2.png")];
    let images = vec![
        ImagePayload { bytes: vec![1], extension: "png".to_string() },
        ImagePayload { bytes: vec![2], extension: "png".to_string() },
    ];
    let (phase, _) = store_start(&records, &images);
    let (phase, _) = store_step(&records, &images, phase, StoreEvent::Succeeded);
    let (_, action) = store_step(&records, &images, phase, StoreEvent::Failed("写入图片失败：磁盘满".to_string()));
    match action {
        StoreAction::RemoveImages { count, error } => {
            assert_eq!(count, 1);
            assert_eq!(error, "写入图片失败：磁盘满");
        }
        other => panic!("unexpected {other:?}"),
    }
    let (_, action) = store_step(&records, &images, StorePhase::WritingHistory, StoreEvent::Failed("坏".to_string()));
    assert!(matches!(action, StoreAction::RemoveImages { count: 2, .. }));
}

fn deletion_of(records: &[HistoryRecord], id: &str) -> imggen::storage::HistoryDeletion {
    let storage = Storage::from_root("/app".to_string());
    storage.delete_history(Ok(records.to_vec()), id).unwrap().unwrap()
}

#[test]
fn delete_steps_refuse_a_path_that_is_not_a_file() {
    let records = vec![record("1", "imggen-1.png"), record("2", "imggen-2.png")];
    let d = deletion_of(&records, "2");
    let (phase, action) = delete_step(&d, DeletePhase::Inspecting, DeleteEvent::ImageNotRegular);
    assert!(matches!(phase, DeletePhase::Finished));
    match action {
        DeleteAction::Finish(Err(e)) => assert_eq!(e, "历史图片不是普通文件，拒绝删除"),
        other => panic!("unexpected {other:?}"),
    }
    let (phase, action) = delete_step(&d, DeletePhase::Inspecting, DeleteEvent::ImageRegular);
    assert!(matches!(action, DeleteAction::StashImage));
    let (_, action) = delete_step(&d, phase, DeleteEvent::Failed("拒绝访问".to_string()));
    match action {
        DeleteAction::Finish(Err(e)) => assert_eq!(e, "暂存历史图片失败：拒绝访问"),
        other => panic!("unexpected {other:?}"),
    }
}

#[test]
fn delete_steps_move_the_image_aside_until_the_history_is_written() {
    let records = vec![record("1", "imggen-1.png"), record("2", "imggen-2.png")];
    let d = deletion_of(&records, "1");
    let (phase, _) = delete_step(&d, DeletePhase::Inspecting, DeleteEvent::ImageRegular);
    let (phase, action) = delete_step(&d, phase, DeleteEvent::Succeeded);
    match &action {
        DeleteAction::WriteHistory(v) => assert_eq!(v.len(), 1),
        other => panic!("unexpected {other:?}"),
    }
    let (phase, action) = delete_step(&d, phase, DeleteEvent::Succeeded);
    assert!(matches!(action, DeleteAction::RemoveTombstone));
    let (_, action) = delete_step(&d, phase, DeleteEvent::Succeeded);
    assert!(matches!(action, DeleteAction::Finish(Ok(()))));
    let (phase, _) = delete_step(&d, DeletePhase::WritingHistory { moved: true }, DeleteEvent::Failed("写坏了".to_string()));
    let (_, action) = delete_step(&d, phase, DeleteEvent::Succeeded);
    match action {
        DeleteAction::Finish(Err(e)) => assert_eq!(e, "写坏了"),
        other => panic!("unexpected {other:?}"),
    }
    let (_, action) = delete_step(&d, DeletePhase::Inspecting, DeleteEvent::ImageAbsent);
    assert!(matches!(action, DeleteAction::WriteHistory(_)));
}

#[test]
fn delete_steps_put_history_and_image_back_when_the_tombstone_stays() {
    let records = vec![record("1", "imggen-1.png"), record("2", "imggen-2.png"), record("3", "imggen-3.png")];
    let d = deletion_of(&records, "2");
    let (phase, action) = delete_step(&d, DeletePhase::RemovingTombstone, DeleteEvent::Failed("占用".to_string()));
    match action {
        DeleteAction::RestoreBoth(v) => {
            let ids: Vec<&str> = v.iter().map(|r| r.id.as_str()).collect();
            assert_eq!(ids, vec!["1", "2", "3"]);
        }
        other => panic!("unexpected {other:?}"),
    }
    let (_, action) = delete_step(&d, phase, DeleteEvent::Restored { history_error: None, image_error: None });
    match action {
        DeleteAction::Finish(Err(e)) => assert_eq!(e, "删除历史图片失败：占用，已恢复历史记录和图片"),
        other => panic!("unexpected {other:?}"),
    }
    let (phase, _) = delete_step(&d, DeletePhase::RemovingTombstone, DeleteEvent::Failed("占用".to_string()));
    let (_, action) = delete_step(
        &d,
        phase,
        DeleteEvent::Restored { history_error: Some("h".to_string()), image_error: None },
    );
    match action {
        DeleteAction::Finish(Err(e)) => {
            assert_eq!(e, "删除历史图片失败：占用，恢复结果：历史记录=失败，图片=成功")
        }
        other => panic!("unexpected {other:?}"),
    }
}

#[test]
fn distinct_ids_get_distinct_image_files() {
    let storage = Storage::from_root("/app".to_string());
    let images = vec![
        ImagePayload { bytes: vec![1], extension: "png".to_string() },
        ImagePayload { bytes: vec![2], extension: "jpeg".to_string() },
        ImagePayload { bytes: vec![3], extension: "webp".to_string() },
    ];
    let ids = vec!["a".to_string(), "b".to_string(), "c".to_string()];
    let records = storage.store_images(&images, &metadata(), &ids, &[1, 2, 3]).unwrap();
    let files: Vec<&str> = records.iter().map(|r| r.image_file.as_str()).collect();
    assert_eq!(files, vec!["imggen-a.png", "imggen-b.jpg", "imggen-c.webp"]);
}

#[test]
fn generation_checks_come_before_the_request() {
    assert_eq!(check_model_chosen("  ").unwrap_err(), "没有选择模型，请先在 API 提供商中获取模型");
    assert!(check_model_chosen("gpt-image-1").is_ok());
    assert_eq!(check_prompt_written("\n").unwrap_err(), "先写一句提示词吧");
    assert!(check_prompt_written("一只猫").is_ok());
    let p = generation_provider("p", "https://x", "k", "m");
    assert_eq!(p.name, "p");
    assert_eq!(p.model, "m");
    assert!(p.models.is_empty());
    let blank = GenerateImageRequest {
        prompt: " ".to_string(),
        resolution: None,
        image_format: None,
        quantity: None,
        provider: None,
    };
    assert_eq!(ImgGenMcp::check_prompt(&blank).unwrap_err(), "prompt 不能为空");
    let fine = GenerateImageRequest { prompt: "cat".to_string(), ..blank };
    assert!(ImgGenMcp::check_prompt(&fine).is_ok());
}

#[test]
fn generation_outcome_passes_errors_and_clamps_the_quantity() {
    let p = provider("p");
    let err = generation_outcome(Err("HTTP 500".to_string()), &p, "cat", "1024 × 1024", "PNG", 3);
    assert_eq!(err.unwrap_err(), "HTTP 500");
    let images = vec![ImagePayload { bytes: vec![1], extension: "png".to_string() }];
    let (out, meta) = generation_outcome(Ok(images), &p, "cat", "512 × 512", "JPEG", 20).unwrap();
    assert_eq!(out.len(), 1);
    assert_eq!(meta.provider, "p");
    assert_eq!(meta.model, "model");
    assert_eq!(meta.resolution, "512 × 512");
    assert_eq!(meta.image_format, "JPEG");
    assert_eq!(meta.quantity, 10);
}

#[test]
fn status_texts() {
    assert_eq!(status_text(&StatusEvent::ProviderSwitched("A".to_string())), "切换 API 提供商成功：A");
    assert_eq!(status_text(&StatusEvent::ProviderAdded(2)), "新建 API 提供商成功：新 API 提供商 3");
    assert_eq!(status_text(&StatusEvent::ProviderCopied("A 副本".to_string())), "复制 API 提供商成功：A 副本");
    assert_eq!(status_text(&StatusEvent::ProviderSaved("A".to_string())), "保存 API 提供商成功：A");
    assert_eq!(status_text(&StatusEvent::ModelsFetched(12)), "获取模型成功，共 12 个模型");
    assert_eq!(status_text(&StatusEvent::ModelSelected("m".to_string())), "模型选择成功：m");
    assert_eq!(status_text(&StatusEvent::ImagesSaved(4)), "图片生成完成，已保存 4 张");
}

#[test]
fn image_items_are_taken_in_order_and_the_first_error_stops_them() {
    let sources = vec![
        ImageSource::Encoded("aGVsbG8=".to_string()),
        ImageSource::Download("https://x/1.png".to_string()),
        ImageSource::Missing,
    ];
    let images = match image_item_step(&sources, "PNG", Vec::new(), None) {
        ImagesStep::Next(images) => images,
        other => panic!("unexpected {other:?}"),
    };
    assert_eq!(images[0].bytes, b"hello".to_vec());
    assert_eq!(images[0].extension, "png");
    let images = match image_item_step(&sources, "PNG", images, None) {
        ImagesStep::Fetch { images, url } => {
            assert_eq!(url, "https://x/1.png");
            images
        }
        other => panic!("unexpected {other:?}"),
    };
    match image_item_step(&sources, "PNG", images.clone(), Some(Err("下载图片失败：HTTP 404".to_string()))) {
        ImagesStep::Done(Err(e)) => assert_eq!(e, "下载图片失败：HTTP 404"),
        other => panic!("unexpected {other:?}"),
    }
    match image_item_step(&sources, "PNG", images.clone(), Some(Ok(Vec::new()))) {
        ImagesStep::Done(Err(e)) => assert_eq!(e, "下载图片失败：响应内容为空"),
        other => panic!("unexpected {other:?}"),
    }
    let images = match image_item_step(&sources, "WEBP", images, Some(Ok(vec![0xff, 0xd8, 0xff, 0]))) {
        ImagesStep::Next(images) => images,
        other => panic!("unexpected {other:?}"),
    };
    assert_eq!(images.len(), 2);
    assert_eq!(images[1].extension, "jpg");
    match image_item_step(&sources, "PNG", images.clone(), None) {
        ImagesStep::Done(Err(e)) => assert_eq!(e, "图片响应缺少 b64_json 或 url"),
        other => panic!("unexpected {other:?}"),
    }
    match image_item_step(&sources[..2].to_vec(), "PNG", images, None) {
        ImagesStep::Done(Ok(all)) => assert_eq!(all.len(), 2),
        other => panic!("unexpected {other:?}"),
    }
}
