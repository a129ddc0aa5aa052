use vstd::prelude::*;

verus! {

/// The outcome of transcribing one audio file.
#[derive(Clone, Debug, PartialEq, Eq)]
pub struct FileTranscriptionResult {
    pub text: String,
    pub file_name: String,
    pub duration_ms: u64,
}

/// A progress notice for the caller: the stage entered, with an optional message.
#[derive(Clone, Debug, PartialEq, Eq)]
pub struct FileTranscriptionProgress {
    pub stage: String,
    pub message: Option<String>,
}

/// The stages of transcribing one file, in the order in which they run.
#[derive(Clone, Copy, Debug, PartialEq, Eq, Structural)]
pub enum Stage {
    Decoding,
    LoadingModel,
    Transcribing,
    Saving,
}

/// What the job does after a stage.
#[derive(Clone, Copy, Debug, PartialEq, Eq, Structural)]
pub enum Step {
    Run(Stage),
    /// The job fails with the stage's error.
    Fail,
    /// The job is complete.
    Done,
}

pub open spec fn stage_name(s: Stage) -> Seq<char> {
    match s {
        Stage::Decoding => "decoding"@,
        Stage::LoadingModel => "loading_model"@,
        Stage::Transcribing => "transcribing"@,
        Stage::Saving => "saving"@,
    }
}

/// The extensions, in lower case, of the audio files that are accepted.
pub open spec fn supported_extensions() -> Seq<Seq<char>> {
    seq!["wav"@, "mp3"@, "flac"@, "m4a"@, "aac"@, "ogg"@, "oga"@]
}

/// What `str::to_lowercase` gives for a string.
pub uninterp spec fn lower_of(s: Seq<char>) -> Seq<char>;

/// Relies on `str::to_lowercase`: a string of the lower-case mapping of each
/// character, a function of the characters alone.
#[verifier::external_body]
fn lowercase(s: &str) -> (r: String)
    ensures
        r@ == lower_of(s@),
{
    s.to_lowercase()
}

impl Stage {
    /// The stage's name as announced in progress notices.
    pub fn name(&self) -> (r: &'static str)
        ensures
            r@ == stage_name(*self),
    {
        match self {
            Stage::Decoding => "decoding",
            Stage::LoadingModel => "loading_model",
            Stage::Transcribing => "transcribing",
            Stage::Saving => "saving",
        }
    }
}

/// What follows a stage that `succeeded` or not. A failure to decode or to
/// transcribe fails the job; a failure to save to history does not.
pub fn after_stage(stage: Stage, succeeded: bool) -> (r: Step)
    ensures
        r == match stage {
            Stage::Decoding => if succeeded {
                Step::Run(Stage::LoadingModel)
            } else {
                Step::Fail
            },
            Stage::LoadingModel => Step::Run(Stage::Transcribing),
            Stage::Transcribing => if succeeded {
                Step::Run(Stage::Saving)
            } else {
                Step::Fail
            },
            Stage::Saving => Step::Done,
        },
{
    match stage {
        Stage::Decoding => if succeeded {
            Step::Run(Stage::LoadingModel)
        } else {
            Step::Fail
        },
        Stage::LoadingModel => Step::Run(Stage::Transcribing),
        Stage::Transcribing => if succeeded {
            Step::Run(Stage::Saving)
        } else {
            Step::Fail
        },
        Stage::Saving => Step::Done,
    }
}

/// Character-wise equality of two strings.
fn str_equal(a: &str, b: &str) -> (r: bool)
    ensures
        r == (a@ == b@),
{
    let n = a.unicode_len();
    if n != b.unicode_len() {
        return false;
    }
    let mut i: usize = 0;
    while i < n
        invariant
            n == a@.len(),
            n == b@.len(),
            i <= n,
            forall|j: int| 0 <= j < i ==> a@[j] == b@[j],
        decreases n - i,
    {
        if a.get_char(i) != b.get_char(i) {
            return false;
        }
        i = i + 1;
    }
    assert(a@ =~= b@);
    true
}

/// Whether `ext`, taken as it is, is one of the supported extensions.
pub fn is_supported_extension(ext: &str) -> (r: bool)
    ensures
        r == supported_extensions().contains(ext@),
{
    let ghost exts = supported_extensions();
    let r = str_equal(ext, "wav") || str_equal(ext, "mp3") || str_equal(ext, "flac")
        || str_equal(ext, "m4a") || str_equal(ext, "aac") || str_equal(ext, "ogg")
        || str_equal(ext, "oga");
    if r {
        assert(exts.contains(ext@)) by {
            if ext@ == exts[0] {
            } else if ext@ == exts[1] {
            } else if ext@ == exts[2] {
            } else if ext@ == exts[3] {
            } else if ext@ == exts[4] {
            } else if ext@ == exts[5] {
            } else {
                assert(ext@ == exts[6]);
            }
        }
    } else {
        assert(!exts.contains(ext@)) by {
            if exts.contains(ext@) {
                let k = choose|k: int| 0 <= k < exts.len() && exts[k] == ext@;
                assert(0 <= k < 7);
            }
        }
    }
    r
}

/// Whether a file with extension `ext` is accepted, in any letter case.
pub fn is_supported_file_extension(ext: &str) -> (r: bool)
    ensures
        r == supported_extensions().contains(lower_of(ext@)),
{
    let lower = lowercase(ext);
    is_supported_extension(lower.as_str())
}

/// The name a file is reported under: its own, or "unknown" where it has none.
pub fn display_file_name(name: Option<&str>) -> (r: String)
    ensures
        r@ == match name {
            Some(n) => n@,
            None => "unknown"@,
        },
{
    match name {
        Some(n) => n.to_owned(),
        None => "unknown".to_owned(),
    }
}

impl FileTranscriptionProgress {
    /// The notice for entering `stage`, with an optional message.
    pub fn for_stage(stage: Stage, message: Option<&str>) -> (r: FileTranscriptionProgress)
        ensures
            r.stage@ == stage_name(stage),
            match message {
                Some(m) => r.message.is_some() && r.message.unwrap()@ == m@,
                None => r.message.is_none(),
            },
    {
        let text = match message {
            Some(m) => Some(m.to_owned()),
            None => None,
        };
        FileTranscriptionProgress { stage: stage.name().to_owned(), message: text }
    }
}

impl FileTranscriptionResult {
    pub fn new(text: String, file_name: String, duration_ms: u64) -> (r: FileTranscriptionResult)
        ensures
            r.text == text,
            r.file_name == file_name,
            r.duration_ms == duration_ms,
    {
        FileTranscriptionResult { text, file_name, duration_ms }
    }
}

} // verus!
