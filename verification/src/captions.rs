//! Requests to the local speech-recognition helpers: which settings reach a
//! model download or runtime setup, which engine serves them, and which
//! progress events are accepted back.
use vstd::prelude::*;
use crate::model::starts_with_spec;
use crate::text::{
    chars_of, has_control, is_control, owned, same_text, starts_with, string_of, trim_chars, trimmed,
    utf8_len, utf8_longer_than,
};

verus! {

/// Longest model name or folder, in bytes of UTF-8.
pub const MODEL_NAME_LIMIT: usize = 1024;

pub open spec fn is_digit(c: char) -> bool {
    '0' <= c <= '9'
}

/// The first position of `c` in `s` at or after `from`, or -1.
pub open spec fn index_of(s: Seq<char>, c: char, from: int) -> int
    decreases s.len() - from,
{
    if from < 0 || from >= s.len() {
        -1
    } else if s[from] == c {
        from
    } else {
        index_of(s, c, from + 1)
    }
}

proof fn lemma_index_of(s: Seq<char>, c: char, from: int)
    requires
        0 <= from,
    ensures
        index_of(s, c, from) == -1 ==> forall|j: int| from <= j < s.len() ==> s[j] != c,
        index_of(s, c, from) != -1 ==> from <= index_of(s, c, from) < s.len() && s[index_of(
            s,
            c,
            from,
        )] == c && forall|j: int| from <= j < index_of(s, c, from) ==> s[j] != c,
    decreases s.len() - from,
{
    if from < s.len() && s[from] != c {
        lemma_index_of(s, c, from + 1);
    }
}

/// An OpenVINO device: `CPU`, `GPU` or `NPU`, optionally followed by `.` and
/// one to three digits.
pub open spec fn device_ok(d: Seq<char>) -> bool {
    let dot = index_of(d, '.', 0);
    let name = if dot < 0 {
        d
    } else {
        d.take(dot)
    };
    &&& (name == "CPU"@ || name == "GPU"@ || name == "NPU"@)
    &&& dot >= 0 ==> {
        let index = d.skip(dot + 1);
        &&& index.len() > 0
        &&& index.len() <= 3
        &&& forall|i: int| 0 <= i < index.len() ==> is_digit(#[trigger] index[i])
    }
}

/// An accelerator the helpers understand: `auto`, `cpu`, `cuda`, or
/// `openvino:` and a device.
pub open spec fn accelerator_ok(v: Seq<char>) -> bool {
    ||| v == "auto"@
    ||| v == "cpu"@
    ||| v == "cuda"@
    ||| (starts_with_spec(v, "openvino:"@) && device_ok(v.skip("openvino:"@.len() as int)))
}

fn slice_from(cs: &[char], from: usize) -> (r: Vec<char>)
    requires
        from <= cs@.len(),
    ensures
        r@ == cs@.skip(from as int),
{
    let mut r: Vec<char> = Vec::new();
    let mut i = from;
    while i < cs.len()
        invariant
            from <= i <= cs@.len(),
            r@ == cs@.subrange(from as int, i as int),
        decreases cs.len() - i,
    {
        r.push(cs[i]);
        i += 1;
        assert(r@ =~= cs@.subrange(from as int, i as int));
    }
    assert(r@ =~= cs@.skip(from as int));
    r
}

fn slice_to(cs: &[char], to: usize) -> (r: Vec<char>)
    requires
        to <= cs@.len(),
    ensures
        r@ == cs@.take(to as int),
{
    let mut r: Vec<char> = Vec::new();
    let mut i: usize = 0;
    while i < to
        invariant
            i <= to <= cs@.len(),
            r@ == cs@.take(i as int),
        decreases to - i,
    {
        r.push(cs[i]);
        i += 1;
        assert(r@ =~= cs@.take(i as int));
    }
    r
}

fn all_digits(cs: &[char]) -> (r: bool)
    ensures
        r == forall|j: int| 0 <= j < cs@.len() ==> is_digit(#[trigger] cs@[j]),
{
    let mut i: usize = 0;
    while i < cs.len()
        invariant
            i <= cs@.len(),
            forall|j: int| 0 <= j < i ==> is_digit(#[trigger] cs@[j]),
        decreases cs.len() - i,
    {
        if !('0' <= cs[i] && cs[i] <= '9') {
            assert(!is_digit(cs@[i as int]));
            return false;
        }
        i += 1;
    }
    true
}

/// Longest progress event a model helper may write on one line, in bytes.
pub const MAX_MODEL_EVENT: usize = 32768;

/// A line from a model helper, given the bytes that a read of at most
/// `MAX_MODEL_EVENT + 1` bytes up to and including the first newline
/// returned: nothing at the end of the stream, an error for text that is not
/// UTF-8 or for a line longer than the limit, else the line.
pub fn read_bounded_line(read: &[u8]) -> (r: Result<Option<String>, String>)
    ensures
        !vstd::utf8::valid_utf8(read@) ==> r is Err,
        vstd::utf8::valid_utf8(read@) && read@.len() > MAX_MODEL_EVENT ==> (r matches Err(e) && e@
            == "Model event exceeded its limit"@),
        vstd::utf8::valid_utf8(read@) && read@.len() == 0 ==> r matches Ok(None),
        vstd::utf8::valid_utf8(read@) && 0 < read@.len() <= MAX_MODEL_EVENT ==> (r matches Ok(
            Some(line),
        ) && line@ == vstd::utf8::decode_utf8(read@)),
{
    let line = match crate::sharing::utf8_text(read) {
        Some(line) => line,
        None => return Err(owned("stream did not contain valid UTF-8")),
    };
    if read.len() > MAX_MODEL_EVENT {
        return Err(owned("Model event exceeded its limit"));
    }
    if read.len() == 0 {
        Ok(None)
    } else {
        Ok(Some(line))
    }
}

/// Calls `std::sync::Arc::ptr_eq`, which is true when both handles point to
/// the same allocation, and so to the same value.
#[verifier::external_body]
fn same_allocation<T>(a: &std::sync::Arc<T>, b: &std::sync::Arc<T>) -> (r: bool)
    ensures
        r ==> **a == **b,
{
    std::sync::Arc::ptr_eq(a, b)
}

/// Whether `child` is the worker that `slot` holds: false when the slot is
/// empty, else whether both handles share one allocation. Which allocation a
/// handle points to is not a value that Verus sees, so of a full slot only
/// that a true answer means equal workers is stated.
pub fn is_current<T>(slot: &Option<std::sync::Arc<T>>, child: &std::sync::Arc<T>) -> (r: bool)
    ensures
        slot is None ==> !r,
        r ==> (slot matches Some(current) && *current == *child),
{
    match slot {
        Some(current) => same_allocation(current, child),
        None => false,
    }
}

/// Whether the helpers understand accelerator `value`.
pub fn accelerator_valid(value: &str) -> (r: bool)
    ensures
        r == accelerator_ok(value@),
{
    if same_text(value, "auto") || same_text(value, "cpu") || same_text(value, "cuda") {
        return true;
    }
    let cs = chars_of(value);
    let prefix = chars_of("openvino:");
    if !starts_with(&cs, &prefix) {
        return false;
    }
    let d = slice_from(&cs, prefix.len());
    let mut dot: usize = 0;
    while dot < d.len() && d[dot] != '.'
        invariant
            dot <= d@.len(),
            forall|j: int| 0 <= j < dot ==> d@[j] != '.',
        decreases d.len() - dot,
    {
        dot += 1;
    }
    proof {
        lemma_index_of(d@, '.', 0);
        if dot < d@.len() {
            assert(d@[dot as int] == '.');
            assert(index_of(d@, '.', 0) == dot);
        } else {
            assert(index_of(d@, '.', 0) == -1);
        }
    }
    let name = slice_to(&d, dot);
    let ns = string_of(&name);
    let name_ok = same_text(ns.as_str(), "CPU") || same_text(ns.as_str(), "GPU") || same_text(
        ns.as_str(),
        "NPU",
    );
    if dot == d.len() {
        assert(name@ =~= d@);
        return name_ok;
    }
    let index = slice_from(&d, dot + 1);
    if !name_ok || index.len() == 0 || index.len() > 3 {
        return false;
    }
    all_digits(&index)
}

/// The caption settings that a model request reads: each is the string value
/// of the setting, or `None` when it is absent or not a string.
pub struct CaptionConfig {
    pub provider: Option<String>,
    pub model: Option<String>,
    pub accelerator: Option<String>,
    pub resolved_accelerator: Option<String>,
}

/// What is sent to the model helper: no credential and no path from the
/// caption settings other than the model's own name or folder.
pub struct ModelRequest {
    pub provider: String,
    pub model: String,
    pub accelerator: String,
    pub resolved_accelerator: Option<String>,
}

pub open spec fn opt_view(o: Option<String>) -> Option<Seq<char>> {
    match o {
        Some(s) => Some(s@),
        None => None,
    }
}

/// The mathematical value of a `ModelRequest`.
pub struct RequestView {
    pub provider: Seq<char>,
    pub model: Seq<char>,
    pub accelerator: Seq<char>,
    pub resolved_accelerator: Option<Seq<char>>,
}

impl ModelRequest {
    pub open spec fn view(&self) -> RequestView {
        RequestView {
            provider: self.provider@,
            model: self.model@,
            accelerator: self.accelerator@,
            resolved_accelerator: opt_view(self.resolved_accelerator),
        }
    }
}

/// The model asked for, trimmed, or the provider's default model.
pub open spec fn model_choice(provider: Seq<char>, model: Option<Seq<char>>) -> Seq<char> {
    let m = match model {
        Some(m) => trimmed(m),
        None => seq![],
    };
    if m.len() == 0 {
        if provider == "whisper"@ {
            "base"@
        } else {
            "Qwen/Qwen3-ASR-0.6B"@
        }
    } else {
        m
    }
}

/// The request for a model download or status check, or the error message.
pub open spec fn model_request(
    provider: Option<Seq<char>>,
    model: Option<Seq<char>>,
    accelerator: Option<Seq<char>>,
    resolved: Option<Seq<char>>,
) -> Result<RequestView, Seq<char>> {
    match provider {
        None => Err("Choose a local speech recognition provider."@),
        Some(p) => if !(p == "whisper"@ || p == "qwen"@) {
            Err("Model downloads are available for local providers only."@)
        } else {
            let m = model_choice(p, model);
            let a = match accelerator {
                Some(a) => a,
                None => "auto"@,
            };
            if utf8_len(m) > MODEL_NAME_LIMIT || exists|i: int|
                0 <= i < m.len() && is_control(#[trigger] m[i]) {
                Err("The model name or folder is invalid."@)
            } else if !accelerator_ok(a) {
                Err("Choose an available speech recognition accelerator."@)
            } else if a == "auto"@ && resolved is Some {
                let r = resolved->0;
                if r == "auto"@ || !accelerator_ok(r) {
                    Err("The resolved speech recognition accelerator is invalid."@)
                } else {
                    Ok(RequestView { provider: p, model: m, accelerator: a, resolved_accelerator: Some(r) })
                }
            } else {
                Ok(RequestView { provider: p, model: m, accelerator: a, resolved_accelerator: None })
            }
        },
    }
}

/// Builds the model helper's request from the caption settings.
pub fn model_config(config: &CaptionConfig) -> (r: Result<ModelRequest, String>)
    ensures
        match (r, model_request(
            opt_view(config.provider),
            opt_view(config.model),
            opt_view(config.accelerator),
            opt_view(config.resolved_accelerator),
        )) {
            (Ok(req), Ok(v)) => req.view() == v,
            (Err(e), Err(m)) => e@ == m,
            _ => false,
        },
{
    let provider = match &config.provider {
        Some(p) => p,
        None => return Err(owned("Choose a local speech recognition provider.")),
    };
    let p = provider.as_str();
    if !(same_text(p, "whisper") || same_text(p, "qwen")) {
        return Err(owned("Model downloads are available for local providers only."));
    }
    let trimmed_model = match &config.model {
        Some(m) => trim_chars(&chars_of(m.as_str())),
        None => Vec::new(),
    };
    let model = if trimmed_model.len() == 0 {
        if same_text(p, "whisper") {
            owned("base")
        } else {
            owned("Qwen/Qwen3-ASR-0.6B")
        }
    } else {
        string_of(&trimmed_model)
    };
    let ghost mv = model_choice(provider@, opt_view(config.model));
    assert(model@ == mv);
    let model_chars = chars_of(model.as_str());
    if utf8_longer_than(&model_chars, MODEL_NAME_LIMIT) || has_control(&model_chars) {
        return Err(owned("The model name or folder is invalid."));
    }
    let accelerator = match &config.accelerator {
        Some(a) => a.clone(),
        None => owned("auto"),
    };
    if !accelerator_valid(accelerator.as_str()) {
        return Err(owned("Choose an available speech recognition accelerator."));
    }
    let mut resolved_accelerator: Option<String> = None;
    if same_text(accelerator.as_str(), "auto") {
        if let Some(resolved) = &config.resolved_accelerator {
            if same_text(resolved.as_str(), "auto") || !accelerator_valid(resolved.as_str()) {
                return Err(owned("The resolved speech recognition accelerator is invalid."));
            }
            resolved_accelerator = Some(resolved.clone());
        }
    }
    Ok(ModelRequest { provider: provider.clone(), model, accelerator, resolved_accelerator })
}

/// The engine that serves a request: `qwen` for Qwen models, `openvino` when
/// the effective accelerator is an OpenVINO device, else `faster-whisper`.
pub open spec fn engine_of(req: RequestView) -> Seq<char> {
    let effective = if req.accelerator == "auto"@ {
        match req.resolved_accelerator {
            Some(r) => r,
            None => "cpu"@,
        }
    } else {
        req.accelerator
    };
    if req.provider == "qwen"@ {
        "qwen"@
    } else if starts_with_spec(effective, "openvino:"@) {
        "openvino"@
    } else {
        "faster-whisper"@
    }
}

/// The engine that serves `req`.
pub fn model_engine(req: &ModelRequest) -> (r: &'static str)
    ensures
        r@ == engine_of(req.view()),
{
    if same_text(req.provider.as_str(), "qwen") {
        return "qwen";
    }
    let effective: &str = if same_text(req.accelerator.as_str(), "auto") {
        match &req.resolved_accelerator {
            Some(r) => r.as_str(),
            None => "cpu",
        }
    } else {
        req.accelerator.as_str()
    };
    if starts_with(&chars_of(effective), &chars_of("openvino:")) {
        "openvino"
    } else {
        "faster-whisper"
    }
}

/// The progress events that the model helper may send.
pub open spec fn model_event_kind(kind: Seq<char>) -> bool {
    ||| kind == "model_status"@
    ||| kind == "model_progress"@
    ||| kind == "model_ready"@
    ||| kind == "model_error"@
    ||| kind == "runtime_ready"@
}

/// The events after which the helper is done.
pub open spec fn terminal_kind(kind: Seq<char>) -> bool {
    kind == "model_ready"@ || kind == "model_error"@ || kind == "runtime_ready"@
}

/// Whether an event whose `type` is `kind` is accepted from the helper.
pub fn known_model_event(kind: Option<&str>) -> (r: bool)
    ensures
        r == match kind {
            Some(k) => model_event_kind(k@),
            None => false,
        },
{
    match kind {
        Some(k) => same_text(k, "model_status") || same_text(k, "model_progress") || same_text(
            k,
            "model_ready",
        ) || same_text(k, "model_error") || same_text(k, "runtime_ready"),
        None => false,
    }
}

/// Whether an event whose `type` is `kind` ends the helper's work.
pub fn model_terminal(kind: Option<&str>) -> (r: bool)
    ensures
        r == match kind {
            Some(k) => terminal_kind(k@),
            None => false,
        },
{
    match kind {
        Some(k) => same_text(k, "model_ready") || same_text(k, "model_error") || same_text(
            k,
            "runtime_ready",
        ),
        None => false,
    }
}

/// The providers that live captions can use.
pub open spec fn caption_provider_ok(p: Seq<char>) -> bool {
    p == "whisper"@ || p == "qwen"@ || p == "openai"@ || p == "gemini"@ || p == "elevenlabs"@
}

/// The checks before live captions start: a supported provider and an audio
/// source, `microphone` or `system`.
pub fn check_caption_start(provider: Option<&str>, source: Option<&str>) -> (r: Result<(), String>)
    ensures
        match provider {
            None => r matches Err(e) && e@ == "Choose an STT provider."@,
            Some(p) => if !caption_provider_ok(p@) {
                r matches Err(e) && e@ == "Unsupported provider"@
            } else {
                let s = match source {
                    Some(s) => s@,
                    None => ""@,
                };
                if s == "microphone"@ || s == "system"@ {
                    r is Ok
                } else {
                    r matches Err(e) && e@ == "Choose an audio source"@
                }
            },
        },
{
    let p = match provider {
        Some(p) => p,
        None => return Err(owned("Choose an STT provider.")),
    };
    if !(same_text(p, "whisper") || same_text(p, "qwen") || same_text(p, "openai") || same_text(
        p,
        "gemini",
    ) || same_text(p, "elevenlabs")) {
        return Err(owned("Unsupported provider"));
    }
    let s = match source {
        Some(s) => s,
        None => "",
    };
    if !(same_text(s, "microphone") || same_text(s, "system")) {
        return Err(owned("Choose an audio source"));
    }
    Ok(())
}

/// Message shown when the speech runtime cannot be started.
pub open spec fn runtime_missing() -> Seq<char> {
    "The speech recognition runtime is unavailable. Install the optional runtime to prepare local speech recognition."@
}

pub fn runtime_missing_text() -> (r: &'static str)
    ensures
        r@ == runtime_missing(),
{
    "The speech recognition runtime is unavailable. Install the optional runtime to prepare local speech recognition."
}

/// Which helper processes run, and whether the application is closing.
pub struct Workers {
    pub shutting_down: bool,
    pub captions_running: bool,
    pub model_running: bool,
}

/// How a model download or runtime setup begins.
#[derive(Debug, Clone, Copy, PartialEq, Eq)]
pub enum JobStart {
    /// A custom speech runtime is configured, so the setup is declined with
    /// a `runtime_override` error event.
    Overridden,
    /// The helper is started.
    Run,
}

impl Workers {
    /// Nothing runs.
    pub fn new() -> (r: Workers)
        ensures
            !r.shutting_down && !r.captions_running && !r.model_running,
    {
        Workers { shutting_down: false, captions_running: false, model_running: false }
    }

    /// Whether a model download (`setup` false) or runtime setup (`setup`
    /// true) may start: not while closing, while captions run, or while
    /// another job runs. `python_override` is whether a custom speech
    /// runtime is configured.
    pub fn check_model_job(&self, setup: bool, python_override: bool) -> (r: Result<JobStart, String>)
        ensures
            self.shutting_down ==> (r matches Err(e) && e@ == "Pointory is shutting down."@),
            !self.shutting_down && self.captions_running ==> (r matches Err(e) && e@
                == "Stop live captions before preparing a local model."@),
            !self.shutting_down && !self.captions_running && self.model_running ==> (r matches Err(e)
                && e@ == "A model download or runtime setup is already running."@),
            !self.shutting_down && !self.captions_running && !self.model_running ==> r == (if setup
                && python_override {
                Ok::<JobStart, String>(JobStart::Overridden)
            } else {
                Ok::<JobStart, String>(JobStart::Run)
            }),
    {
        if self.shutting_down {
            return Err(owned("Pointory is shutting down."));
        }
        if self.captions_running {
            return Err(owned("Stop live captions before preparing a local model."));
        }
        if self.model_running {
            return Err(owned("A model download or runtime setup is already running."));
        }
        if setup && python_override {
            Ok(JobStart::Overridden)
        } else {
            Ok(JobStart::Run)
        }
    }

    /// Whether live captions may start once their settings passed
    /// `check_caption_start`: not while closing or while a model job runs.
    pub fn check_captions(&self) -> (r: Result<(), String>)
        ensures
            self.shutting_down ==> (r matches Err(e) && e@ == "Pointory is shutting down."@),
            !self.shutting_down && self.model_running ==> (r matches Err(e) && e@
                == "Wait for model preparation to finish or cancel it before starting live captions."@),
            r is Ok <==> (!self.shutting_down && !self.model_running),
    {
        if self.shutting_down {
            return Err(owned("Pointory is shutting down."));
        }
        if self.model_running {
            return Err(owned("Wait for model preparation to finish or cancel it before starting live captions."));
        }
        Ok(())
    }
}

/// The name of the operation a job reports: `runtime` or `download`.
pub fn operation(setup: bool) -> (r: &'static str)
    ensures
        r@ == (if setup { "runtime"@ } else { "download"@ }),
{
    if setup {
        "runtime"
    } else {
        "download"
    }
}

/// The first progress of a job: its phase and text.
pub fn first_progress(setup: bool) -> (r: (&'static str, &'static str))
    ensures
        setup ==> r.0@ == "runtime_setup"@ && r.1@ == "Preparing the speech recognition runtime…"@,
        !setup ==> r.0@ == "starting"@ && r.1@ == "Preparing model download…"@,
{
    if setup {
        ("runtime_setup", "Preparing the speech recognition runtime…")
    } else {
        ("starting", "Preparing model download…")
    }
}

/// The error event a job ends with when the helper sent no final event:
/// invalid progress is a protocol error, anything else a missing runtime.
pub fn job_failure(invalid: bool) -> (r: (&'static str, &'static str))
    ensures
        invalid ==> r.0@ == "worker_protocol"@ && r.1@
            == "The model worker returned invalid progress. Try again or reinstall the speech recognition runtime."@,
        !invalid ==> r.0@ == "runtime_missing"@ && r.1@ == runtime_missing(),
{
    if invalid {
        (
            "worker_protocol",
            "The model worker returned invalid progress. Try again or reinstall the speech recognition runtime.",
        )
    } else {
        ("runtime_missing", runtime_missing_text())
    }
}

/// How a model status check ends.
#[derive(Debug, Clone, Copy, PartialEq, Eq)]
pub enum StatusEnd {
    /// The helper's own event is the answer.
    Reply,
    /// The runtime is missing.
    RuntimeMissing,
    /// The check ran too long; the helper is stopped.
    Timeout,
}

/// The end of a status check: `exited` is whether the helper exited before
/// the deadline and `success` its exit status; `reply` is the type of the
/// event it sent, if it sent a known one. A reply counts after a successful
/// exit, and an error reply after any exit.
pub fn status_end(exited: bool, success: bool, reply: Option<&str>) -> (r: StatusEnd)
    ensures
        !exited ==> r == StatusEnd::Timeout,
        exited && (reply matches Some(k) && (success || k@ == "model_error"@)) ==> r == StatusEnd::Reply,
        exited && !(reply matches Some(k) && (success || k@ == "model_error"@)) ==> r
            == StatusEnd::RuntimeMissing,
{
    if !exited {
        return StatusEnd::Timeout;
    }
    match reply {
        Some(k) => if success || same_text(k, "model_error") {
            StatusEnd::Reply
        } else {
            StatusEnd::RuntimeMissing
        },
        None => StatusEnd::RuntimeMissing,
    }
}

/// Every request that reaches the model helper names a local provider, a
/// bounded model name without control characters and an accelerator the
/// helper understands; a resolved accelerator travels only with `auto` and
/// is itself concrete.
pub proof fn lemma_requests_are_well_formed(
    provider: Option<Seq<char>>,
    model: Option<Seq<char>>,
    accelerator: Option<Seq<char>>,
    resolved: Option<Seq<char>>,
)
    requires
        model_request(provider, model, accelerator, resolved) is Ok,
    ensures
        ({
            let v = model_request(provider, model, accelerator, resolved)->Ok_0;
            &&& v.provider == "whisper"@ || v.provider == "qwen"@
            &&& utf8_len(v.model) <= MODEL_NAME_LIMIT
            &&& forall|i: int| 0 <= i < v.model.len() ==> !is_control(#[trigger] v.model[i])
            &&& accelerator_ok(v.accelerator)
            &&& v.resolved_accelerator matches Some(r) ==> v.accelerator == "auto"@ && r != "auto"@
                && accelerator_ok(r)
        }),
{
}

/// A request without a model, or with a blank one, names the provider's
/// default: `base` for whisper and Qwen3-ASR 0.6B for qwen. A model that is
/// given is sent trimmed. Without an accelerator the request asks for
/// `auto`, and with nothing resolved it always succeeds.
pub proof fn lemma_default_models(
    model: Option<Seq<char>>,
    accelerator: Option<Seq<char>>,
    resolved: Option<Seq<char>>,
)
    ensures
        (model is None || trimmed(model->0).len() == 0) ==> {
            &&& model_request(Some("whisper"@), model, accelerator, resolved) matches Ok(v) ==> v.model
                == "base"@ && v.provider == "whisper"@
            &&& model_request(Some("qwen"@), model, accelerator, resolved) matches Ok(v) ==> v.model
                == "Qwen/Qwen3-ASR-0.6B"@ && v.provider == "qwen"@
            &&& model_request(Some("whisper"@), model, None, None) == Ok::<RequestView, Seq<char>>(
                RequestView {
                    provider: "whisper"@,
                    model: "base"@,
                    accelerator: "auto"@,
                    resolved_accelerator: None,
                },
            )
        },
        model is Some && trimmed(model->0).len() > 0 ==> {
            &&& model_request(Some("whisper"@), model, accelerator, resolved) matches Ok(v) ==> v.model
                == trimmed(model->0)
            &&& model_request(Some("qwen"@), model, accelerator, resolved) matches Ok(v) ==> v.model
                == trimmed(model->0)
        },
{
    reveal_strlit("whisper");
    reveal_strlit("qwen");
    reveal_strlit("base");
    reveal_strlit("auto");
    reveal_strlit("Qwen/Qwen3-ASR-0.6B");
    assert("whisper"@.len() != "qwen"@.len());
    lemma_utf8_len_bound("base"@);
    assert(!exists|i: int| 0 <= i < "base"@.len() && is_control(#[trigger] "base"@[i]));
}

/// A text takes at most four bytes of UTF-8 per character.
proof fn lemma_utf8_len_bound(s: Seq<char>)
    ensures
        utf8_len(s) <= 4 * s.len(),
    decreases s.len(),
{
    if s.len() > 0 {
        lemma_utf8_len_bound(s.drop_last());
    }
}

} // verus!
