use audio_ingest::transcription::{
    after_stage, display_file_name, is_supported_extension, is_supported_file_extension,
    FileTranscriptionProgress, FileTranscriptionResult, Stage, Step,
};

#[test]
fn extensions_in_any_case() {
    assert!(is_supported_file_extension("wav"));
    assert!(is_supported_file_extension("WAV"));
    assert!(is_supported_file_extension("Flac"));
    assert!(is_supported_file_extension("oga"));
    assert!(!is_supported_file_extension("txt"));
    assert!(!is_supported_file_extension(""));
    assert!(!is_supported_extension("MP3"));
    assert!(is_supported_extension("mp3"));
    assert!(!is_supported_extension("mp"));
}

#[test]
fn stages_run_in_order() {
    assert_eq!(after_stage(Stage::Decoding, true), Step::Run(Stage::LoadingModel));
    assert_eq!(after_stage(Stage::Decoding, false), Step::Fail);
    assert_eq!(after_stage(Stage::LoadingModel, true), Step::Run(Stage::Transcribing));
    assert_eq!(after_stage(Stage::Transcribing, true), Step::Run(Stage::Saving));
    assert_eq!(after_stage(Stage::Transcribing, false), Step::Fail);
    assert_eq!(after_stage(Stage::Saving, false), Step::Done);
    assert_eq!(after_stage(Stage::Saving, true), Step::Done);
}

#[test]
fn progress_notices() {
    let p = FileTranscriptionProgress::for_stage(Stage::LoadingModel, None);
    assert_eq!(p.stage, "loading_model");
    assert_eq!(p.message, None);
    let p = FileTranscriptionProgress::for_stage(Stage::Saving, Some("almost"));
    assert_eq!(p.stage, "saving");
    assert_eq!(p.message, Some("almost".to_string()));
    assert_eq!(Stage::Decoding.name(), "decoding");
    assert_eq!(Stage::Transcribing.name(), "transcribing");
}

#[test]
fn file_names() {
    assert_eq!(display_file_name(Some("talk.mp3")), "talk.mp3");
    assert_eq!(display_file_name(None), "unknown");
    let r = FileTranscriptionResult::new("hi".to_string(), "a.wav".to_string(), 12);
    assert_eq!(r.text, "hi");
    assert_eq!(r.file_name, "a.wav");
    assert_eq!(r.duration_ms, 12);
}
