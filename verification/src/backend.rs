//! The recognizer back end's settings: where the model is and how many
//! threads decode with it, and which model family a model directory holds.
use vstd::prelude::*;
use crate::path::{push_path, pushed};
use crate::text::{ascii_lowered, chars_of, string_of, to_ascii_lowercase};

verus! {

/// Decoding threads by default. Measured: the same 6.62 s clip on an
/// eight-core machine with Whisper base ran at RTF 0.347 on 2 threads, 0.247
/// on 4 and fell back to 0.384 on 8 (contention). Decoding only happens after
/// the user lets go and is waiting, so taking a few cores is fine.
pub const DEFAULT_THREADS: i32 = 4;

/// Settings of the speech recognizer back end.
#[derive(Debug, Clone, PartialEq, Eq)]
pub struct BackendConfig {
    /// The model directory as exported for sherpa-onnx (model files plus
    /// `tokens.txt`).
    pub model_dir: String,
    /// Inference threads for ONNX Runtime.
    pub threads: i32,
}

impl Default for BackendConfig {
    /// No model directory, [`DEFAULT_THREADS`] threads.
    fn default() -> (r: Self)
        ensures
            r.model_dir@ == Seq::<char>::empty(),
            r.threads == DEFAULT_THREADS,
    {
        BackendConfig { model_dir: String::new(), threads: DEFAULT_THREADS }
    }
}

/// `needle` occurs in `hay`.
pub open spec fn has_sub(hay: Seq<char>, needle: Seq<char>) -> bool {
    exists|i: int| 0 <= i && i + needle.len() <= hay.len() && #[trigger] hay.subrange(i, i + needle.len()) == needle
}

/// `hay` ends with `tail`.
pub open spec fn ends_with(hay: Seq<char>, tail: Seq<char>) -> bool {
    tail.len() <= hay.len() && hay.subrange(hay.len() - tail.len(), hay.len() as int) == tail
}

/// Whether `needle` occurs in `hay`.
fn contains_text(hay: &Vec<char>, needle: &Vec<char>) -> (r: bool)
    ensures
        r == has_sub(hay@, needle@),
{
    let n = hay.len();
    let m = needle.len();
    if m > n {
        return false;
    }
    let mut i: usize = 0;
    while i <= n - m
        invariant
            n == hay@.len(),
            m == needle@.len(),
            m <= n,
            i <= n - m + 1,
            forall|k: int| 0 <= k < i ==> #[trigger] hay@.subrange(k, k + m) != needle@,
        decreases n - m + 1 - i,
    {
        let mut j: usize = 0;
        while j < m && hay[i + j] == needle[j]
            invariant
                n == hay@.len(),
                m == needle@.len(),
                i + m <= n,
                j <= m,
                forall|t: int| 0 <= t < j ==> hay@[i + t] == needle@[t],
            decreases m - j,
        {
            j = j + 1;
        }
        if j == m {
            proof {
                assert(hay@.subrange(i as int, i + m) =~= needle@);
            }
            return true;
        }
        proof {
            assert(hay@.subrange(i as int, i + m)[j as int] != needle@[j as int]);
        }
        i = i + 1;
    }
    proof {
        assert forall|k: int| 0 <= k && k + m <= n implies #[trigger] hay@.subrange(k, k + m) != needle@ by {
            assert(k < i);
        }
    }
    false
}

/// Whether `hay` ends with `tail`.
fn ends_with_text(hay: &Vec<char>, tail: &Vec<char>) -> (r: bool)
    ensures
        r == ends_with(hay@, tail@),
{
    let n = hay.len();
    let m = tail.len();
    if m > n {
        return false;
    }
    let mut j: usize = 0;
    while j < m
        invariant
            n == hay@.len(),
            m == tail@.len(),
            m <= n,
            j <= m,
            forall|t: int| 0 <= t < j ==> hay@[n - m + t] == tail@[t],
        decreases m - j,
    {
        if hay[n - m + j] != tail[j] {
            proof {
                assert(hay@.subrange(n - m, n as int)[j as int] != tail@[j as int]);
            }
            return false;
        }
        j = j + 1;
    }
    proof {
        assert(hay@.subrange(n - m, n as int) =~= tail@);
    }
    true
}

/// The model files of one family, by path, with the settings the
/// family is loaded with.
#[derive(Debug, Clone, PartialEq, Eq)]
pub enum ModelFiles {
    /// Encoder, decoder and joiner (a transducer).
    Transducer { encoder: String, decoder: String, joiner: String },
    /// Encoder and decoder, no joiner (Whisper). No language is set, so the
    /// model detects it (speech mixes Chinese and English); the task is
    /// `transcribe`.
    Whisper { encoder: String, decoder: String, language: Option<String>, task: String },
    /// One model file in a directory whose name says `paraformer`.
    Paraformer { model: String },
    /// One model file otherwise (SenseVoice): language `auto`, and inverse
    /// text normalization on, since voice text goes straight into the
    /// document with no candidate window to fix it.
    SenseVoice { model: String, language: String, use_itn: bool },
}

/// How to load the model in a directory.
#[derive(Debug, Clone, PartialEq, Eq)]
pub struct ModelPlan {
    /// The token table's path.
    pub tokens: String,
    /// Decoding threads.
    pub threads: i32,
    /// The execution provider (`cpu`).
    pub provider: String,
    /// The family and its files.
    pub files: ModelFiles,
}

/// The model in a directory cannot be loaded.
#[derive(Debug, Clone, PartialEq, Eq)]
pub enum DetectError {
    /// Nothing in the directory at `path` is a model file the loader can use.
    LoadModel { path: String },
}

/// `transcribe`.
pub open spec fn transcribe_task() -> Seq<char> {
    seq!['t', 'r', 'a', 'n', 's', 'c', 'r', 'i', 'b', 'e']
}

/// `auto`.
pub open spec fn auto_language() -> Seq<char> {
    seq!['a', 'u', 't', 'o']
}

/// `cpu`.
pub open spec fn cpu_provider() -> Seq<char> {
    seq!['c', 'p', 'u']
}

/// A model file for a part: its name mentions the part and ends in `.onnx`;
/// when `int8` is asked for, it is also int8-quantized (`.int8.` in the
/// name).
pub open spec fn part_file(name: Seq<char>, part: Seq<char>, int8: bool) -> bool {
    &&& has_sub(name, part)
    &&& ends_with(name, seq!['.', 'o', 'n', 'n', 'x'])
    &&& int8 ==> has_sub(name, seq!['.', 'i', 'n', 't', '8', '.'])
}

/// The index of the first file for a part, from `from` on.
pub open spec fn first_part(names: Seq<String>, from: int, part: Seq<char>, int8: bool) -> Option<int>
    decreases names.len() - from,
{
    if from < 0 || from >= names.len() {
        None
    } else if part_file(names[from]@, part, int8) {
        Some(from)
    } else {
        first_part(names, from + 1, part, int8)
    }
}

/// The file picked for a part: the first int8 file for it when there is one
/// (much faster and smaller, with no accuracy loss that matters here), else
/// the first file for it.
pub open spec fn picked(names: Seq<String>, part: Seq<char>) -> Option<Seq<char>> {
    match first_part(names, 0, part, true) {
        Some(i) => Some(names[i]@),
        None => match first_part(names, 0, part, false) {
            Some(i) => Some(names[i]@),
            None => None,
        },
    }
}

/// `tokens.txt`.
pub open spec fn tokens_txt() -> Seq<char> {
    seq!['t', 'o', 'k', 'e', 'n', 's', '.', 't', 'x', 't']
}

/// The index of the first name ending in `tokens.txt`, from `from` on.
pub open spec fn first_tokens(names: Seq<String>, from: int) -> Option<int>
    decreases names.len() - from,
{
    if from < 0 || from >= names.len() {
        None
    } else if ends_with(names[from]@, tokens_txt()) {
        Some(from)
    } else {
        first_tokens(names, from + 1)
    }
}

/// The token table: the first file whose name ends in `tokens.txt` (Whisper
/// packages prefix it with the model name), else `tokens.txt`.
pub open spec fn tokens_name(names: Seq<String>) -> Seq<char> {
    match first_tokens(names, 0) {
        Some(i) => names[i]@,
        None => tokens_txt(),
    }
}

/// The first file for a part (an int8 one when `int8`), by index.
fn pick_file(names: &Vec<String>, part: &Vec<char>, int8: bool) -> (r: Option<usize>)
    ensures
        match r {
            Some(i) => first_part(names@, 0, part@, int8) == Some(i as int) && i < names@.len(),
            None => first_part(names@, 0, part@, int8) is None,
        },
{
    proof {
        reveal_strlit(".onnx");
        reveal_strlit(".int8.");
    }
    let onnx = chars_of(".onnx");
    let int8_mark = chars_of(".int8.");
    let mut i: usize = 0;
    while i < names.len()
        invariant
            i <= names@.len(),
            onnx@ == seq!['.', 'o', 'n', 'n', 'x'],
            int8_mark@ == seq!['.', 'i', 'n', 't', '8', '.'],
            first_part(names@, 0, part@, int8) == first_part(names@, i as int, part@, int8),
        decreases names@.len() - i,
    {
        let name = chars_of(names[i].as_str());
        let mut ok = contains_text(&name, part) && ends_with_text(&name, &onnx);
        if ok && int8 {
            ok = contains_text(&name, &int8_mark);
        }
        if ok {
            return Some(i);
        }
        i = i + 1;
    }
    None
}

/// The path of the file picked for a part (see [`picked`]), under `dir`.
fn pick(dir: &str, names: &Vec<String>, part: &str) -> (r: Option<String>)
    ensures
        match r {
            Some(f) => picked(names@, part@) matches Some(name) && f@ == pushed(dir@, name),
            None => picked(names@, part@) is None,
        },
{
    let part_chars = chars_of(part);
    let found = match pick_file(names, &part_chars, true) {
        Some(i) => Some(i),
        None => pick_file(names, &part_chars, false),
    };
    match found {
        Some(i) => Some(under_dir(dir, names[i].as_str())),
        None => None,
    }
}

/// `dir` joined with a file name in it (`Path::join`).
fn under_dir(dir: &str, name: &str) -> (r: String)
    ensures
        r@ == pushed(dir@, name@),
{
    string_of(&push_path(dir, &chars_of(name)))
}

/// The family of the model in the directory at `dir`, told by the names of
/// its files (`names`) and of the directory itself (`dir_name`, the last
/// component of `dir`): encoder, decoder and joiner make a transducer;
/// encoder and decoder alone make Whisper; otherwise one `model` file is
/// Paraformer when the directory's name, in lowercase, says `paraformer`, and
/// SenseVoice when it does not. The plan gives every file as its path under
/// `dir`. With no usable file the directory cannot be loaded, and the error
/// names it.
pub fn detect(dir: &str, dir_name: &str, names: &Vec<String>, threads: i32) -> (r: Result<ModelPlan, DetectError>)
    ensures
        r is Ok ==> r->Ok_0.tokens@ == pushed(dir@, tokens_name(names@)) && r->Ok_0.threads == threads
            && r->Ok_0.provider@ == cpu_provider(),
        match (picked(names@, seq!['e', 'n', 'c', 'o', 'd', 'e', 'r']), picked(names@, seq!['d', 'e', 'c', 'o', 'd', 'e', 'r']), picked(names@, seq!['j', 'o', 'i', 'n', 'e', 'r'])) {
            (Some(e), Some(d), Some(j)) => r matches Ok(plan) && plan.files matches ModelFiles::Transducer { encoder, decoder, joiner }
                && encoder@ == pushed(dir@, e) && decoder@ == pushed(dir@, d) && joiner@ == pushed(dir@, j),
            (Some(e), Some(d), None) => r matches Ok(plan) && plan.files matches ModelFiles::Whisper { encoder, decoder, language, task }
                && encoder@ == pushed(dir@, e) && decoder@ == pushed(dir@, d) && language is None
                && task@ == transcribe_task(),
            _ => match picked(names@, seq!['m', 'o', 'd', 'e', 'l']) {
                None => r matches Err(DetectError::LoadModel { path }) && path@ == dir@,
                Some(m) => r matches Ok(plan) && if has_sub(
                    ascii_lowered(dir_name@),
                    seq!['p', 'a', 'r', 'a', 'f', 'o', 'r', 'm', 'e', 'r'],
                ) {
                    plan.files matches ModelFiles::Paraformer { model } && model@ == pushed(dir@, m)
                } else {
                    plan.files matches ModelFiles::SenseVoice { model, language, use_itn } && model@ == pushed(dir@, m)
                        && language@ == auto_language() && use_itn
                },
            },
        },
{
    proof {
        reveal_strlit("tokens.txt");
        reveal_strlit("encoder");
        reveal_strlit("decoder");
        reveal_strlit("joiner");
        reveal_strlit("model");
        reveal_strlit("paraformer");
        reveal_strlit("transcribe");
        reveal_strlit("auto");
        reveal_strlit("cpu");
    }
    let tokens_tail = chars_of("tokens.txt");
    let mut tokens: Option<String> = None;
    let mut i: usize = 0;
    while i < names.len() && tokens.is_none()
        invariant
            i <= names@.len(),
            tokens_tail@ == tokens_txt(),
            match tokens {
                Some(t) => first_tokens(names@, 0) == Some(i - 1) && i >= 1 && t@ == names@[i - 1]@,
                None => first_tokens(names@, 0) == first_tokens(names@, i as int),
            },
        decreases names@.len() - i,
    {
        let name = chars_of(names[i].as_str());
        if ends_with_text(&name, &tokens_tail) {
            tokens = Some(names[i].clone());
        }
        i = i + 1;
    }
    let tokens = match tokens {
        Some(t) => under_dir(dir, t.as_str()),
        None => under_dir(dir, "tokens.txt"),
    };
    let provider = "cpu".to_owned();
    proof {
        // The part names as the contract spells them.
        assert(tokens@ == pushed(dir@, tokens_name(names@)));
        assert("encoder"@ == seq!['e', 'n', 'c', 'o', 'd', 'e', 'r']);
        assert("decoder"@ == seq!['d', 'e', 'c', 'o', 'd', 'e', 'r']);
        assert("joiner"@ == seq!['j', 'o', 'i', 'n', 'e', 'r']);
        assert("model"@ == seq!['m', 'o', 'd', 'e', 'l']);
        assert("paraformer"@ == seq!['p', 'a', 'r', 'a', 'f', 'o', 'r', 'm', 'e', 'r']);
    }
    let encoder = pick(dir, names, "encoder");
    let decoder = pick(dir, names, "decoder");
    let joiner = pick(dir, names, "joiner");
    if encoder.is_some() && decoder.is_some() {
        let encoder = encoder.unwrap();
        let decoder = decoder.unwrap();
        match joiner {
            Some(joiner) => {
                return Ok(ModelPlan { tokens, threads, provider, files: ModelFiles::Transducer { encoder, decoder, joiner } });
            },
            None => {
                let task = "transcribe".to_owned();
                return Ok(
                    ModelPlan { tokens, threads, provider, files: ModelFiles::Whisper { encoder, decoder, language: None, task } },
                );
            },
        }
    }
    match pick(dir, names, "model") {
        None => Err(DetectError::LoadModel { path: dir.to_owned() }),
        Some(model) => {
            let lowered = to_ascii_lowercase(dir_name);
            let needle = chars_of("paraformer");
            if contains_text(&lowered, &needle) {
                Ok(ModelPlan { tokens, threads, provider, files: ModelFiles::Paraformer { model } })
            } else {
                let language = "auto".to_owned();
                Ok(ModelPlan { tokens, threads, provider, files: ModelFiles::SenseVoice { model, language, use_itn: true } })
            }
        },
    }
}

} // verus!
