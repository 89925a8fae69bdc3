use qingjian::backend::{detect, BackendConfig, DetectError, ModelFiles, DEFAULT_THREADS};
use qingjian::server::code::{code_table_paths, find_code_table};
use qingjian::settings::{download_step, installed_text, page_plan, status_text, tier_hint, DownloadStep, PageFooter, VoiceStatus};
use qingjian::fetch::{Asset, FetchEvent, Tier};

#[test]
fn the_user_code_table_wins_over_the_bundled_one() {
    assert_eq!(code_table_paths(Some("/u"), "/b"), ["/u/wubi/wubi86.tsv", "/b/assets/wubi/wubi86.tsv"]);
    assert_eq!(find_code_table(Some("/u"), "/b", &vec![true, true]), Some("/u/wubi/wubi86.tsv".to_owned()));
    assert_eq!(find_code_table(Some("/u"), "/b", &vec![false, true]), Some("/b/assets/wubi/wubi86.tsv".to_owned()));
    assert_eq!(find_code_table(Some("/u"), "/b", &vec![false, false]), None);
    assert_eq!(find_code_table(None, "/b", &vec![true]), Some("/b/assets/wubi/wubi86.tsv".to_owned()));
}

fn names(list: &[&str]) -> Vec<String> {
    list.iter().map(|n| n.to_string()).collect()
}

#[test]
fn backend_defaults() {
    let config = BackendConfig::default();
    assert_eq!(config.threads, DEFAULT_THREADS);
    assert_eq!(config.threads, 4);
    assert!(config.model_dir.is_empty());
}

#[test]
fn a_transducer_has_three_parts() {
    let plan = detect(
        "/models/zipformer",
        "zipformer",
        &names(&["tokens.txt", "encoder-epoch-99-avg-1.onnx", "decoder-epoch-99-avg-1.onnx", "joiner-epoch-99-avg-1.int8.onnx", "joiner-epoch-99-avg-1.onnx"]),
        4,
    )
    .unwrap();
    assert_eq!(plan.tokens, "/models/zipformer/tokens.txt");
    assert_eq!(plan.provider, "cpu");
    assert_eq!(
        plan.files,
        ModelFiles::Transducer {
            encoder: "/models/zipformer/encoder-epoch-99-avg-1.onnx".to_owned(),
            decoder: "/models/zipformer/decoder-epoch-99-avg-1.onnx".to_owned(),
            joiner: "/models/zipformer/joiner-epoch-99-avg-1.int8.onnx".to_owned(),
        }
    );
}

#[test]
fn whisper_prefers_int8_and_finds_prefixed_tokens() {
    let plan = detect(
        "/models/base",
        "base",
        &names(&["base-decoder.onnx", "base-encoder.onnx", "base-tokens.txt", "base-encoder.int8.onnx", "base-decoder.int8.onnx"]),
        2,
    )
    .unwrap();
    assert_eq!(plan.tokens, "/models/base/base-tokens.txt");
    assert_eq!(plan.threads, 2);
    assert_eq!(
        plan.files,
        ModelFiles::Whisper {
            encoder: "/models/base/base-encoder.int8.onnx".to_owned(),
            decoder: "/models/base/base-decoder.int8.onnx".to_owned(),
            language: None,
            task: "transcribe".to_owned(),
        }
    );
}

#[test]
fn single_file_models_are_told_apart_by_directory_name() {
    let files = names(&["model.onnx", "model.int8.onnx"]);
    let paraformer = detect("/m/Paraformer-zh", "Paraformer-zh", &files, 4).unwrap();
    assert_eq!(paraformer.files, ModelFiles::Paraformer { model: "/m/Paraformer-zh/model.int8.onnx".to_owned() });
    assert_eq!(paraformer.tokens, "/m/Paraformer-zh/tokens.txt");
    let sense = detect("/m/sense-voice", "sense-voice", &files, 4).unwrap();
    assert_eq!(
        sense.files,
        ModelFiles::SenseVoice { model: "/m/sense-voice/model.int8.onnx".to_owned(), language: "auto".to_owned(), use_itn: true }
    );
}

#[test]
fn a_directory_without_a_model_is_named_in_the_error() {
    // A directory given with a trailing slash is joined without doubling it.
    let plan = detect("rel/dir/", "dir", &names(&["model.onnx"]), 1).unwrap();
    assert_eq!(plan.tokens, "rel/dir/tokens.txt");
    assert_eq!(
        detect("/m/empty", "empty", &names(&["readme.md", "tokens.txt"]), 4),
        Err(DetectError::LoadModel { path: "/m/empty".to_owned() })
    );
}

fn tier(note: &str, size: u64) -> Tier {
    Tier {
        label: "标准".to_owned(),
        note: note.to_owned(),
        files: vec![Asset { name: "m.onnx".to_owned(), url: String::new(), sha256: String::new(), size }],
    }
}

#[test]
fn the_voice_page_texts() {
    assert_eq!(status_text(&VoiceStatus::Idle), "");
    assert_eq!(status_text(&VoiceStatus::Downloading("base".to_owned())), "正在下载 base…可以关掉这个窗口，但别关机。");
    assert_eq!(status_text(&VoiceStatus::Finished("好了".to_owned())), "好了");
    assert_eq!(status_text(&VoiceStatus::Failed("断网".to_owned())), "失败：断网");
    assert_eq!(tier_hint(&tier("适合大多数人", 210 * 1024 * 1024)), "适合大多数人（约 210 MB）");
    assert_eq!(installed_text(None), "还没有可用的模型");
    assert_eq!(installed_text(Some("/m")), "/m");
}

#[test]
fn a_download_wait_step() {
    assert!(matches!(download_step(true, None, false), DownloadStep::Cancel(m) if m == "已取消"));
    assert!(matches!(
        download_step(false, Some(FetchEvent::Done { dir: "/m".to_owned() }), true),
        DownloadStep::Finish(Ok(m)) if m == "已下好，放在 /m"
    ));
    assert!(matches!(
        download_step(false, Some(FetchEvent::Failed("坏了".to_owned())), false),
        DownloadStep::Finish(Err(m)) if m == "坏了"
    ));
    assert!(matches!(download_step(false, Some(FetchEvent::Progress { done: 1, total: 2 }), false), DownloadStep::Wait));
    assert!(matches!(download_step(false, None, false), DownloadStep::Wait));
    assert!(matches!(download_step(false, None, true), DownloadStep::Finish(Err(m)) if m == "下载线程意外结束了"));
}

#[test]
fn the_voice_page_rows_follow_the_catalog_and_the_download() {
    let none: Vec<(String, Tier)> = Vec::new();
    let plan = page_plan(&none, &VoiceStatus::Idle);
    assert!(plan.empty_note);
    assert!(plan.buttons_enabled);
    assert!(matches!(plan.footer, PageFooter::Nothing));

    let some = vec![("base".to_owned(), tier("快", 10))];
    let plan = page_plan(&some, &VoiceStatus::Downloading("base".to_owned()));
    assert!(!plan.empty_note);
    assert!(!plan.buttons_enabled);
    assert!(matches!(plan.footer, PageFooter::Progress(ref t) if t == "正在下载 base…可以关掉这个窗口，但别关机。"));

    let plan = page_plan(&some, &VoiceStatus::Failed("断网".to_owned()));
    assert!(plan.buttons_enabled);
    assert!(matches!(plan.footer, PageFooter::Note(ref t) if t == "失败：断网"));
    let plan = page_plan(&some, &VoiceStatus::Finished(String::new()));
    assert!(matches!(plan.footer, PageFooter::Nothing));
}
