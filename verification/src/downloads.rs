//! The downloads of model files: which are needed, which run, and when a failed one is
//! tried again.
//!
//! The caller fetches; times are in milliseconds.

use crate::assoc::{AssocMap, MapKey};
use crate::config::{DiarizerProvider, Provider, SttEngine, TtsEngine, TtsModel, VoiceConfig};
use crate::config_gate::{
    helper_uses_tts, native, native_tts_active, speaks, stt_model_present, stt_uses_onnx_runtime,
    tts_model_present, NativeShims, SttFiles, TtsFiles,
};
use crate::text::{join, join3, str_opt};
use vstd::arithmetic::power2::pow2;
use vstd::prelude::*;

verus! {

// ── Targets ──────────────────────────────────────────────────────────────────

/// What can be downloaded.
#[derive(Debug, Clone, Copy, PartialEq, Eq, Structural)]
pub enum DownloadTarget {
    KokoroModel,
    KokoroFrontend,
    KokoroMlx,
    KokoroFluid,
    ChatterboxModel,
    ChatterboxMlx,
    QwenModel,
    QwenMlx,
    OmniVoiceModel,
    OmniVoiceMlx,
    ParakeetModel,
    ParakeetMlx,
    ParakeetFluid,
    DiarizationMlx,
    DiarizationFluid,
    SepformerModel,
    Cuda,
}

/// A target's name.
pub open spec fn target_name(which: DownloadTarget) -> Seq<char> {
    match which {
        DownloadTarget::KokoroModel => "kokoro_model"@,
        DownloadTarget::KokoroFrontend => "kokoro_frontend"@,
        DownloadTarget::KokoroMlx => "kokoro_mlx"@,
        DownloadTarget::KokoroFluid => "kokoro_fluid"@,
        DownloadTarget::ChatterboxModel => "chatterbox_model"@,
        DownloadTarget::ChatterboxMlx => "chatterbox_mlx"@,
        DownloadTarget::QwenModel => "qwen_model"@,
        DownloadTarget::QwenMlx => "qwen_mlx"@,
        DownloadTarget::OmniVoiceModel => "omnivoice_model"@,
        DownloadTarget::OmniVoiceMlx => "omnivoice_mlx"@,
        DownloadTarget::ParakeetModel => "parakeet_model"@,
        DownloadTarget::ParakeetMlx => "parakeet_mlx"@,
        DownloadTarget::ParakeetFluid => "parakeet_fluid"@,
        DownloadTarget::DiarizationMlx => "diarization_mlx"@,
        DownloadTarget::DiarizationFluid => "diarization_fluid"@,
        DownloadTarget::SepformerModel => "sepformer_model"@,
        DownloadTarget::Cuda => "cuda"@,
    }
}

/// The speaking model that a target belongs to.
pub open spec fn model_of(which: DownloadTarget) -> Option<TtsModel> {
    match which {
        DownloadTarget::KokoroModel | DownloadTarget::KokoroMlx | DownloadTarget::KokoroFluid =>
            Some(TtsModel::Kokoro),
        DownloadTarget::ChatterboxModel | DownloadTarget::ChatterboxMlx =>
            Some(TtsModel::Chatterbox),
        DownloadTarget::QwenModel | DownloadTarget::QwenMlx => Some(TtsModel::Qwen),
        DownloadTarget::OmniVoiceModel | DownloadTarget::OmniVoiceMlx => Some(TtsModel::OmniVoice),
        _ => None,
    }
}

/// A model's target for the ONNX runtime.
pub open spec fn portable_target(model: TtsModel) -> DownloadTarget {
    match model {
        TtsModel::Kokoro => DownloadTarget::KokoroModel,
        TtsModel::Chatterbox => DownloadTarget::ChatterboxModel,
        TtsModel::Qwen => DownloadTarget::QwenModel,
        TtsModel::OmniVoice => DownloadTarget::OmniVoiceModel,
    }
}

/// A model's target for the MLX provider.
pub open spec fn mlx_target(model: TtsModel) -> DownloadTarget {
    match model {
        TtsModel::Kokoro => DownloadTarget::KokoroMlx,
        TtsModel::Chatterbox => DownloadTarget::ChatterboxMlx,
        TtsModel::Qwen => DownloadTarget::QwenMlx,
        TtsModel::OmniVoice => DownloadTarget::OmniVoiceMlx,
    }
}

/// A model's target for the Fluid provider, which speaks with Kokoro alone.
pub open spec fn fluid_target(model: TtsModel) -> Option<DownloadTarget> {
    match model {
        TtsModel::Kokoro => Some(DownloadTarget::KokoroFluid),
        _ => None,
    }
}

/// Whether a target is a speaking model's for the MLX provider.
pub open spec fn is_mlx(which: DownloadTarget) -> bool {
    model_of(which) is Some && which == mlx_target(model_of(which)->0)
}

/// Whether a target is a speaking model's for the Fluid provider.
pub open spec fn is_fluid(which: DownloadTarget) -> bool {
    which == DownloadTarget::KokoroFluid
}

impl DownloadTarget {
    /// The target's name.
    pub fn as_str(&self) -> (r: &'static str)
        ensures
            r@ == target_name(*self),
    {
        match self {
            DownloadTarget::KokoroModel => "kokoro_model",
            DownloadTarget::KokoroFrontend => "kokoro_frontend",
            DownloadTarget::KokoroMlx => "kokoro_mlx",
            DownloadTarget::KokoroFluid => "kokoro_fluid",
            DownloadTarget::ChatterboxModel => "chatterbox_model",
            DownloadTarget::ChatterboxMlx => "chatterbox_mlx",
            DownloadTarget::QwenModel => "qwen_model",
            DownloadTarget::QwenMlx => "qwen_mlx",
            DownloadTarget::OmniVoiceModel => "omnivoice_model",
            DownloadTarget::OmniVoiceMlx => "omnivoice_mlx",
            DownloadTarget::ParakeetModel => "parakeet_model",
            DownloadTarget::ParakeetMlx => "parakeet_mlx",
            DownloadTarget::ParakeetFluid => "parakeet_fluid",
            DownloadTarget::DiarizationMlx => "diarization_mlx",
            DownloadTarget::DiarizationFluid => "diarization_fluid",
            DownloadTarget::SepformerModel => "sepformer_model",
            DownloadTarget::Cuda => "cuda",
        }
    }

    /// The speaking model that the target belongs to.
    pub fn tts_model(&self) -> (r: Option<TtsModel>)
        ensures
            r == model_of(*self),
    {
        match self {
            DownloadTarget::KokoroModel
            | DownloadTarget::KokoroMlx
            | DownloadTarget::KokoroFluid => Some(TtsModel::Kokoro),
            DownloadTarget::ChatterboxModel | DownloadTarget::ChatterboxMlx =>
                Some(TtsModel::Chatterbox),
            DownloadTarget::QwenModel | DownloadTarget::QwenMlx => Some(TtsModel::Qwen),
            DownloadTarget::OmniVoiceModel | DownloadTarget::OmniVoiceMlx =>
                Some(TtsModel::OmniVoice),
            _ => None,
        }
    }

    /// Whether the target is a speaking model's for the MLX provider.
    pub fn is_mlx_tts(&self) -> (r: bool)
        ensures
            r == is_mlx(*self),
    {
        matches!(
            *self,
            DownloadTarget::KokoroMlx | DownloadTarget::ChatterboxMlx | DownloadTarget::QwenMlx
                | DownloadTarget::OmniVoiceMlx
        )
    }

    /// Whether the target is a speaking model's for the Fluid provider.
    pub fn is_fluid_tts(&self) -> (r: bool)
        ensures
            r == is_fluid(*self),
    {
        matches!(*self, DownloadTarget::KokoroFluid)
    }

    /// A model's target for the ONNX runtime.
    pub fn portable_for_tts(model: TtsModel) -> (r: DownloadTarget)
        ensures
            r == portable_target(model),
    {
        match model {
            TtsModel::Kokoro => DownloadTarget::KokoroModel,
            TtsModel::Chatterbox => DownloadTarget::ChatterboxModel,
            TtsModel::Qwen => DownloadTarget::QwenModel,
            TtsModel::OmniVoice => DownloadTarget::OmniVoiceModel,
        }
    }

    /// A model's target for the MLX provider.
    pub fn mlx_for_tts(model: TtsModel) -> (r: DownloadTarget)
        ensures
            r == mlx_target(model),
    {
        match model {
            TtsModel::Kokoro => DownloadTarget::KokoroMlx,
            TtsModel::Chatterbox => DownloadTarget::ChatterboxMlx,
            TtsModel::Qwen => DownloadTarget::QwenMlx,
            TtsModel::OmniVoice => DownloadTarget::OmniVoiceMlx,
        }
    }

    /// A model's target for the Fluid provider, which speaks with Kokoro alone.
    pub fn fluid_for_tts(model: TtsModel) -> (r: Option<DownloadTarget>)
        ensures
            r == fluid_target(model),
    {
        match model {
            TtsModel::Kokoro => Some(DownloadTarget::KokoroFluid),
            _ => None,
        }
    }
}

impl MapKey for DownloadTarget {
    type Key = DownloadTarget;

    open spec fn key(&self) -> DownloadTarget {
        *self
    }

    fn same_key(&self, other: &Self) -> (r: bool) {
        *self == *other
    }

    fn copy_key(&self) -> (r: Self) {
        *self
    }
}

// ── State ────────────────────────────────────────────────────────────────────

/// How far a running download has come, in bytes.
#[derive(Debug, Clone, Copy, PartialEq, Eq, Structural)]
pub struct DownloadProgress {
    pub done: u64,
    /// Zero until it is known.
    pub total: u64,
}

impl Default for DownloadProgress {
    fn default() -> (r: Self)
        ensures
            r == (DownloadProgress { done: 0, total: 0 }),
    {
        DownloadProgress { done: 0, total: 0 }
    }
}

/// What became of a target that was asked for.
#[derive(Debug, PartialEq, Eq)]
pub enum TargetState {
    /// It is being fetched.
    Active(DownloadProgress),
    /// It failed, for this reason.
    Failed(String),
    /// It is there; how far its last fetch had come stays.
    Done(DownloadProgress),
}

/// When a failed target may be tried again.
#[derive(Debug, Clone, Copy, PartialEq, Eq, Structural)]
pub enum RetryGate {
    /// Not again.
    Permanent,
    /// Not before a time, after so many failures in a row.
    Transient { failures: u32, not_before: u64 },
}

/// Why a download failed.
#[derive(Debug, PartialEq, Eq)]
pub struct DownloadError {
    /// The reason.
    pub message: String,
    /// Another try would fail as well.
    pub permanent: bool,
}

/// The wait after the first failure.
pub const AUTO_RETRY_BASE: u64 = 20_000;

/// The longest wait after a failure.
pub const AUTO_RETRY_CAP: u64 = 900_000;

/// What is known of the targets.
pub struct DownloadState {
    targets: AssocMap<DownloadTarget, TargetState>,
    retry_gates: AssocMap<DownloadTarget, RetryGate>,
    transfer_start: AssocMap<DownloadTarget, (u64, u64)>,
}

/// A [`DownloadState`] as mathematical values.
#[verifier::ext_equal]
pub struct DownloadView {
    /// What became of each target that was asked for.
    pub targets: Map<DownloadTarget, TargetState>,
    /// When each failed target may be tried again.
    pub retry_gates: Map<DownloadTarget, RetryGate>,
    /// When the first bytes of each running target came, and how many there were then.
    pub transfer_start: Map<DownloadTarget, (u64, u64)>,
}

impl View for DownloadState {
    type V = DownloadView;

    closed spec fn view(&self) -> DownloadView {
        DownloadView {
            targets: self.targets@,
            retry_gates: self.retry_gates@,
            transfer_start: self.transfer_start@,
        }
    }
}

/// Whether a target is being fetched.
pub open spec fn is_active(v: DownloadView, which: DownloadTarget) -> bool {
    v.targets.contains_key(which) && v.targets[which] is Active
}

/// Whether a target may not be tried at `now`, for its earlier failures.
pub open spec fn held_back(v: DownloadView, which: DownloadTarget, now: u64) -> bool {
    v.retry_gates.contains_key(which) && match v.retry_gates[which] {
        RetryGate::Permanent => true,
        RetryGate::Transient { not_before, .. } => now < not_before,
    }
}

/// Whether a download is to be started.
pub open spec fn begins(v: DownloadView, which: DownloadTarget, now: u64) -> bool {
    !is_active(v, which) && !held_back(v, which, now)
}

/// What is known once a download was asked for.
pub open spec fn begun(v: DownloadView, which: DownloadTarget, now: u64) -> DownloadView {
    if begins(v, which, now) {
        DownloadView {
            targets: v.targets.insert(
                which,
                TargetState::Active(DownloadProgress { done: 0, total: 0 }),
            ),
            transfer_start: v.transfer_start.remove(which),
            ..v
        }
    } else {
        v
    }
}

/// The wait after `failures` failures in a row: it doubles, up to the longest.
pub open spec fn retry_wait(failures: u32) -> int {
    let n = if failures == 0 {
        0nat
    } else {
        (failures - 1) as nat
    };
    if AUTO_RETRY_BASE * pow2(n) < AUTO_RETRY_CAP {
        AUTO_RETRY_BASE * pow2(n)
    } else {
        AUTO_RETRY_CAP as int
    }
}

/// How many failures in a row there have been, with the one that has just come.
pub open spec fn failures_now(v: DownloadView, which: DownloadTarget) -> u32 {
    if v.retry_gates.contains_key(which) {
        match v.retry_gates[which] {
            RetryGate::Transient { failures, .. } => failures.saturating_add(1),
            RetryGate::Permanent => 1,
        }
    } else {
        1
    }
}

/// What is known once a download has failed.
pub open spec fn failed(
    v: DownloadView,
    which: DownloadTarget,
    error: DownloadError,
    now: u64,
) -> DownloadView {
    let failures = failures_now(v, which);
    DownloadView {
        targets: v.targets.insert(which, TargetState::Failed(error.message)),
        retry_gates: v.retry_gates.insert(
            which,
            if error.permanent {
                RetryGate::Permanent
            } else {
                RetryGate::Transient {
                    failures,
                    not_before: if now + retry_wait(failures) <= u64::MAX {
                        (now + retry_wait(failures)) as u64
                    } else {
                        now
                    },
                }
            },
        ),
        transfer_start: v.transfer_start.remove(which),
    }
}

/// What is known once a download has succeeded. One that was not running leaves no trace.
pub open spec fn succeeded(v: DownloadView, which: DownloadTarget) -> DownloadView {
    DownloadView {
        targets: if is_active(v, which) {
            v.targets.insert(which, TargetState::Done(v.targets[which]->Active_0))
        } else {
            v.targets
        },
        retry_gates: v.retry_gates.remove(which),
        transfer_start: v.transfer_start.remove(which),
    }
}

/// What is known once a download has reported its progress. A report that comes after
/// its end is dropped.
pub open spec fn progressed(
    v: DownloadView,
    which: DownloadTarget,
    done: u64,
    total: u64,
    now: u64,
) -> DownloadView {
    if is_active(v, which) {
        DownloadView {
            targets: v.targets.insert(which, TargetState::Active(DownloadProgress { done, total })),
            transfer_start: if v.transfer_start.contains_key(which) {
                v.transfer_start
            } else {
                v.transfer_start.insert(which, (now, done))
            },
            ..v
        }
    } else {
        v
    }
}

/// The wait after `failures` failures in a row.
pub fn retry_delay(failures: u32) -> (r: u64)
    ensures
        r == retry_wait(failures),
{
    let mut wait: u64 = AUTO_RETRY_BASE;
    let mut n: u32 = 1;
    proof {
        vstd::arithmetic::power2::lemma2_to64();
    }
    while n < failures
        invariant
            1 <= n,
            n <= failures || failures == 0,
            failures == 0 ==> n == 1,
            wait == AUTO_RETRY_BASE * pow2((n - 1) as nat),
            wait < AUTO_RETRY_CAP,
        decreases failures - n,
    {
        proof {
            vstd::arithmetic::power2::lemma_pow2_unfold(n as nat);
        }
        wait = wait * 2;
        n += 1;
        if wait >= AUTO_RETRY_CAP {
            proof {
                lemma_wait_grows((n - 1) as nat, (failures - 1) as nat);
            }
            return AUTO_RETRY_CAP;
        }
    }
    wait
}

/// The wait without its bound grows with the failures.
proof fn lemma_wait_grows(a: nat, b: nat)
    requires
        a <= b,
    ensures
        AUTO_RETRY_BASE * pow2(a) <= AUTO_RETRY_BASE * pow2(b),
    decreases b,
{
    if a < b {
        lemma_wait_grows(a, (b - 1) as nat);
        vstd::arithmetic::power2::lemma_pow2_unfold(b);
    }
}

impl DownloadState {
    /// Every target is listed once.
    pub closed spec fn wf(&self) -> bool {
        self.targets.wf() && self.retry_gates.wf() && self.transfer_start.wf()
    }

    /// Nothing has been asked for.
    pub fn new() -> (r: Self)
        ensures
            r.wf(),
            r@ == (DownloadView {
                targets: Map::empty(),
                retry_gates: Map::empty(),
                transfer_start: Map::empty(),
            }),
    {
        DownloadState {
            targets: AssocMap::new(),
            retry_gates: AssocMap::new(),
            transfer_start: AssocMap::new(),
        }
    }

    /// What became of a target.
    pub fn target(&self, which: DownloadTarget) -> (r: Option<&TargetState>)
        requires
            self.wf(),
        ensures
            r is Some <==> self@.targets.contains_key(which),
            r is Some ==> *r->0 == self@.targets[which],
    {
        self.targets.get(&which)
    }

    /// When a failed target may be tried again.
    pub fn retry_gate(&self, which: DownloadTarget) -> (r: Option<RetryGate>)
        requires
            self.wf(),
        ensures
            r == (if self@.retry_gates.contains_key(which) {
                Some(self@.retry_gates[which])
            } else {
                None
            }),
    {
        match self.retry_gates.get(&which) {
            Some(g) => Some(*g),
            None => None,
        }
    }

    /// When the first bytes of a running target came, and how many there were then.
    pub fn transfer_start(&self, which: DownloadTarget) -> (r: Option<(u64, u64)>)
        requires
            self.wf(),
        ensures
            r == (if self@.transfer_start.contains_key(which) {
                Some(self@.transfer_start[which])
            } else {
                None
            }),
    {
        match self.transfer_start.get(&which) {
            Some(t) => Some(*t),
            None => None,
        }
    }

    /// Whether any target is being fetched. Those that have ended stay listed.
    pub fn any_active(&self) -> (r: bool)
        requires
            self.wf(),
        ensures
            r == exists|which: DownloadTarget| #[trigger] is_active(self@, which),
    {
        proof {
            self.targets.lemma_list();
        }
        let mut i: usize = 0;
        while i < self.targets.len()
            invariant
                i <= self.targets.list().len(),
                self.wf(),
                forall|k: int| 0 <= k < i ==> !((#[trigger] self.targets.list()[k]).1 is Active),
            decreases self.targets.list().len() - i,
        {
            let (k, t) = self.targets.entry(i);
            match t {
                TargetState::Active(_) => {
                    proof {
                        self.targets.lemma_list();
                        assert(is_active(self@, self.targets.list()[i as int].0));
                    }
                    return true;
                },
                _ => {},
            }
            i += 1;
        }
        proof {
            self.targets.lemma_list();
            assert forall|which: DownloadTarget| !#[trigger] is_active(self@, which) by {
                if is_active(self@, which) {
                    assert(self.targets@.contains_key(which));
                    let k = choose|k: int|
                        0 <= k < self.targets.list().len() && (
                        #[trigger] self.targets.list()[k]).0.key() == which;
                    assert(self.targets@[self.targets.list()[k].0.key()]
                        == self.targets.list()[k].1);
                }
            }
        }
        false
    }

    /// Whether a target is being fetched.
    fn active(&self, which: DownloadTarget) -> (r: Option<DownloadProgress>)
        requires
            self.wf(),
        ensures
            r is Some <==> is_active(self@, which),
            r is Some ==> self@.targets[which] == TargetState::Active(r->0),
    {
        match self.targets.get(&which) {
            Some(TargetState::Active(p)) => Some(*p),
            _ => None,
        }
    }

    /// A download was asked for; whether it is to be started. One that runs is joined,
    /// and one that has failed waits for its time.
    pub fn begin_download_at(&mut self, which: DownloadTarget, now: u64) -> (r: bool)
        requires
            old(self).wf(),
        ensures
            final(self).wf(),
            r == begins(old(self)@, which, now),
            final(self)@ == begun(old(self)@, which, now),
    {
        if self.active(which).is_some() {
            return false;
        }
        match self.retry_gate(which) {
            Some(RetryGate::Permanent) => {
                return false;
            },
            Some(RetryGate::Transient { not_before, .. }) => {
                if now < not_before {
                    return false;
                }
            },
            None => {},
        }
        self.targets.insert(which, TargetState::Active(DownloadProgress { done: 0, total: 0 }));
        let _ = self.transfer_start.remove(&which);
        true
    }

    /// A download has ended. A failure is kept also of one that was not running.
    pub fn finish_download_at(
        &mut self,
        which: DownloadTarget,
        result: Result<(), DownloadError>,
        now: u64,
    )
        requires
            old(self).wf(),
        ensures
            final(self).wf(),
            final(self)@ == match result {
                Err(e) => failed(old(self)@, which, e, now),
                Ok(_) => succeeded(old(self)@, which),
            },
    {
        let _ = self.transfer_start.remove(&which);
        match result {
            Err(e) => {
                let gate = if e.permanent {
                    RetryGate::Permanent
                } else {
                    let failures: u32 = match self.retry_gate(which) {
                        Some(RetryGate::Transient { failures, .. }) => failures.saturating_add(1),
                        _ => 1,
                    };
                    let not_before: u64 = match now.checked_add(retry_delay(failures)) {
                        Some(t) => t,
                        None => now,
                    };
                    RetryGate::Transient { failures, not_before }
                };
                self.targets.insert(which, TargetState::Failed(e.message));
                self.retry_gates.insert(which, gate);
            },
            Ok(_) => {
                let _ = self.retry_gates.remove(&which);
                match self.active(which) {
                    Some(p) => {
                        self.targets.insert(which, TargetState::Done(p));
                    },
                    None => {},
                }
            },
        }
    }

    /// A download has reported its progress. A report that comes after its end is dropped.
    pub fn record_progress(&mut self, which: DownloadTarget, done: u64, total: u64, now: u64)
        requires
            old(self).wf(),
        ensures
            final(self).wf(),
            final(self)@ == progressed(old(self)@, which, done, total, now),
    {
        if self.active(which).is_some() {
            if !self.transfer_start.contains(&which) {
                self.transfer_start.insert(which, (now, done));
            }
            self.targets.insert(which, TargetState::Active(DownloadProgress { done, total }));
        }
    }
}

/// A line of the log about a download.
pub fn download_event_msg(which: DownloadTarget, phase: &str, detail: Option<&str>) -> (r: String)
    ensures
        r@ == "model download ("@ + target_name(which) + ") "@ + phase@ + (match str_opt(detail) {
            Some(d) => ": "@ + d,
            None => Seq::empty(),
        }),
{
    let head = join3("model download (", which.as_str(), ") ");
    let line = join(head.as_str(), phase);
    match detail {
        Some(d) => {
            let r = join3(line.as_str(), ": ", d);
            assert(r@ =~= "model download ("@ + target_name(which) + ") "@ + phase@ + (": "@ + d@));
            r
        },
        None => {
            assert(line@ =~= "model download ("@ + target_name(which) + ") "@ + phase@
                + Seq::<char>::empty());
            line
        },
    }
}

// ── What is fetched, and what follows ────────────────────────────────────────

/// How a target is fetched.
#[derive(Debug, Clone, Copy, PartialEq, Eq, Structural)]
pub enum FetchRoute {
    /// Kokoro with its pronunciation model and the ONNX runtime.
    Kokoro,
    /// Kokoro's pronunciation model.
    KokoroFrontend,
    /// The transcribing model for the ONNX runtime.
    Parakeet,
    /// A speaking model for the ONNX runtime.
    TtsModel(TtsModel),
    /// A speaking model's set for the MLX provider.
    TtsMlx(TtsModel),
    /// Kokoro's voices and its set for the Fluid provider.
    KokoroFluid,
    /// The transcribing model's set for the MLX provider.
    ParakeetMlx,
    /// The transcribing model's set for the Fluid provider.
    ParakeetFluid,
    /// The set that tells speakers apart, for the MLX provider.
    DiarizationMlx,
    /// The set that tells speakers apart, for the Fluid provider.
    DiarizationFluid,
    /// The model that separates voices.
    Sepformer,
    /// The CUDA runtime.
    Cuda,
}

/// How a target is fetched.
pub open spec fn route_of(which: DownloadTarget) -> FetchRoute {
    match which {
        DownloadTarget::KokoroModel => FetchRoute::Kokoro,
        DownloadTarget::KokoroFrontend => FetchRoute::KokoroFrontend,
        DownloadTarget::KokoroFluid => FetchRoute::KokoroFluid,
        DownloadTarget::ParakeetModel => FetchRoute::Parakeet,
        DownloadTarget::ParakeetMlx => FetchRoute::ParakeetMlx,
        DownloadTarget::ParakeetFluid => FetchRoute::ParakeetFluid,
        DownloadTarget::DiarizationMlx => FetchRoute::DiarizationMlx,
        DownloadTarget::DiarizationFluid => FetchRoute::DiarizationFluid,
        DownloadTarget::SepformerModel => FetchRoute::Sepformer,
        DownloadTarget::Cuda => FetchRoute::Cuda,
        _ => if is_mlx(which) {
            FetchRoute::TtsMlx(model_of(which)->0)
        } else {
            FetchRoute::TtsModel(model_of(which)->0)
        },
    }
}

/// How a target is fetched, where this machine can use it.
pub fn fetch_route(which: DownloadTarget, supported: bool) -> (r: Result<FetchRoute, String>)
    ensures
        supported ==> r == Ok::<FetchRoute, String>(route_of(which)),
        !supported ==> r is Err && r->Err_0@ == "'"@ + target_name(which)
            + "' is not available on this platform"@,
{
    if !supported {
        return Err(join3("'", which.as_str(), "' is not available on this platform"));
    }
    Ok(
        match which {
            DownloadTarget::KokoroModel => FetchRoute::Kokoro,
            DownloadTarget::KokoroFrontend => FetchRoute::KokoroFrontend,
            DownloadTarget::KokoroMlx => FetchRoute::TtsMlx(TtsModel::Kokoro),
            DownloadTarget::KokoroFluid => FetchRoute::KokoroFluid,
            DownloadTarget::ChatterboxModel => FetchRoute::TtsModel(TtsModel::Chatterbox),
            DownloadTarget::ChatterboxMlx => FetchRoute::TtsMlx(TtsModel::Chatterbox),
            DownloadTarget::QwenModel => FetchRoute::TtsModel(TtsModel::Qwen),
            DownloadTarget::QwenMlx => FetchRoute::TtsMlx(TtsModel::Qwen),
            DownloadTarget::OmniVoiceModel => FetchRoute::TtsModel(TtsModel::OmniVoice),
            DownloadTarget::OmniVoiceMlx => FetchRoute::TtsMlx(TtsModel::OmniVoice),
            DownloadTarget::ParakeetModel => FetchRoute::Parakeet,
            DownloadTarget::ParakeetMlx => FetchRoute::ParakeetMlx,
            DownloadTarget::ParakeetFluid => FetchRoute::ParakeetFluid,
            DownloadTarget::DiarizationMlx => FetchRoute::DiarizationMlx,
            DownloadTarget::DiarizationFluid => FetchRoute::DiarizationFluid,
            DownloadTarget::SepformerModel => FetchRoute::Sepformer,
            DownloadTarget::Cuda => FetchRoute::Cuda,
        },
    )
}

/// Whether the helper holds what a target brings: the selected speaking model on the
/// provider that it runs on, Kokoro's pronunciation model, the transcribing model, or a
/// CUDA runtime that is wanted.
pub open spec fn held_by_helper(
    which: DownloadTarget,
    cfg: VoiceConfig,
    shims: NativeShims,
    cuda_wanted: bool,
) -> bool {
    let runs_native = speaks(cfg) && native(cfg.tts_provider, shims);
    ||| speaks(cfg) && model_of(which) == Some(cfg.tts_model) && is_mlx(which) == (runs_native
        && cfg.tts_provider == Provider::Mlx) && is_fluid(which) == (runs_native
        && cfg.tts_provider == Provider::Fluid)
    ||| speaks(cfg) && cfg.tts_model == TtsModel::Kokoro && which == DownloadTarget::KokoroFrontend
    ||| cfg.stt == Some(SttEngine::BuiltIn) && (which == DownloadTarget::ParakeetModel || which
        == DownloadTarget::ParakeetMlx || which == DownloadTarget::ParakeetFluid)
    ||| which == DownloadTarget::Cuda && cuda_wanted
}

/// Whether the helper is to be started anew for what a target brought.
pub fn download_needs_child_reload(
    target: DownloadTarget,
    cfg: &VoiceConfig,
    shims: NativeShims,
    cuda_wanted: bool,
) -> (r: bool)
    ensures
        r == held_by_helper(target, *cfg, shims, cuda_wanted),
{
    let builtin_tts = helper_uses_tts(cfg);
    let runs_native = native_tts_active(cfg, shims);
    let mlx_tts = runs_native && cfg.tts_provider == Provider::Mlx;
    let fluid_tts = runs_native && cfg.tts_provider == Provider::Fluid;
    let same_model = match target.tts_model() {
        Some(m) => m == cfg.tts_model,
        None => false,
    };
    let tts_target_matches = same_model && target.is_mlx_tts() == mlx_tts && target.is_fluid_tts()
        == fluid_tts;
    (builtin_tts && tts_target_matches) || (builtin_tts && cfg.tts_model == TtsModel::Kokoro
        && target == DownloadTarget::KokoroFrontend) || (matches!(
        cfg.stt,
        Some(SttEngine::BuiltIn)
    ) && matches!(
        target,
        DownloadTarget::ParakeetModel | DownloadTarget::ParakeetMlx
            | DownloadTarget::ParakeetFluid
    )) || (target == DownloadTarget::Cuda && cuda_wanted)
}

/// What follows the end of a download.
#[derive(Debug, Clone, Copy, PartialEq, Eq, Structural)]
pub struct Completion {
    /// Whether the helper is to load the speaking model is decided anew, and how.
    pub preload: Option<bool>,
    /// The helper is started anew.
    pub restart_helper: bool,
    /// The settings are read anew, so that the engine takes up the model.
    pub reload: bool,
}

/// What follows the end of a download. Nothing follows a failure, or an engine that has
/// stopped meanwhile; the helper is left alone where there is none.
pub fn completion(
    which: DownloadTarget,
    ok: bool,
    still_running: bool,
    has_helper: bool,
    cfg: &VoiceConfig,
    shims: NativeShims,
    preloads: bool,
    cuda_wanted: bool,
) -> (r: Completion)
    ensures
        r.preload == (if ok && still_running && has_helper {
            Some(preloads)
        } else {
            None
        }),
        r.restart_helper == (ok && still_running && has_helper && held_by_helper(
            which,
            *cfg,
            shims,
            cuda_wanted,
        )),
        r.reload == (ok && still_running),
{
    let live = ok && still_running;
    Completion {
        preload: if live && has_helper {
            Some(preloads)
        } else {
            None
        },
        restart_helper: live && has_helper && download_needs_child_reload(
            which,
            cfg,
            shims,
            cuda_wanted,
        ),
        reload: live,
    }
}

// ── What is needed ───────────────────────────────────────────────────────────

/// Whether the set that tells speakers apart is to be fetched: a machine that cannot use
/// it must not ask for it again and again.
pub fn diarization_needed(host_supported: bool, diarization_on: bool, set_present: bool) -> (r:
    bool)
    ensures
        r == (host_supported && diarization_on && !set_present),
{
    host_supported && diarization_on && !set_present
}

/// Whether Kokoro's pronunciation model is to be fetched on its own: the full download
/// for the ONNX runtime brings it along.
pub fn needs_kokoro_frontend(
    tts_is_kokoro: bool,
    frontend_assets_present: bool,
    downloading_full_kokoro_onnx: bool,
) -> (r: bool)
    ensures
        r == (tts_is_kokoro && !frontend_assets_present && !downloading_full_kokoro_onnx),
{
    tts_is_kokoro && !frontend_assets_present && !downloading_full_kokoro_onnx
}

/// What is selected and missing.
#[derive(Debug, Clone, Copy, PartialEq, Eq, Structural)]
pub struct DownloadNeeds {
    pub tts_model: Option<DownloadTarget>,
    pub kokoro_frontend: bool,
    pub parakeet_model: bool,
    pub parakeet_mlx: bool,
    pub parakeet_fluid: bool,
    pub diarization_mlx: bool,
    pub diarization_fluid: bool,
    pub sepformer_model: bool,
}

impl Default for DownloadNeeds {
    fn default() -> (r: Self)
        ensures
            r == (DownloadNeeds {
                tts_model: None,
                kokoro_frontend: false,
                parakeet_model: false,
                parakeet_mlx: false,
                parakeet_fluid: false,
                diarization_mlx: false,
                diarization_fluid: false,
                sepformer_model: false,
            }),
    {
        DownloadNeeds {
            tts_model: None,
            kokoro_frontend: false,
            parakeet_model: false,
            parakeet_mlx: false,
            parakeet_fluid: false,
            diarization_mlx: false,
            diarization_fluid: false,
            sepformer_model: false,
        }
    }
}

/// One target where it is wanted, else none.
pub open spec fn wanted(yes: bool, which: DownloadTarget) -> Seq<DownloadTarget> {
    if yes {
        seq![which]
    } else {
        Seq::empty()
    }
}

/// The targets of what is needed, in the order in which they are started: what speaks,
/// what transcribes, what tells speakers apart.
pub open spec fn needed(n: DownloadNeeds) -> Seq<DownloadTarget> {
    (match n.tts_model {
        Some(t) => seq![t],
        None => Seq::empty(),
    }) + wanted(n.kokoro_frontend, DownloadTarget::KokoroFrontend) + wanted(
        n.parakeet_model,
        DownloadTarget::ParakeetModel,
    ) + wanted(n.parakeet_mlx, DownloadTarget::ParakeetMlx) + wanted(
        n.parakeet_fluid,
        DownloadTarget::ParakeetFluid,
    ) + wanted(n.diarization_mlx, DownloadTarget::DiarizationMlx) + wanted(
        n.diarization_fluid,
        DownloadTarget::DiarizationFluid,
    ) + wanted(n.sepformer_model, DownloadTarget::SepformerModel)
}

fn push_wanted(v: &mut Vec<DownloadTarget>, yes: bool, which: DownloadTarget)
    ensures
        final(v)@ == old(v)@ + wanted(yes, which),
{
    if yes {
        v.push(which);
    }
}

/// The targets of what is needed; see [`needed`].
pub fn needed_downloads(need: &DownloadNeeds) -> (r: Vec<DownloadTarget>)
    ensures
        r@ == needed(*need),
{
    let mut targets: Vec<DownloadTarget> = Vec::new();
    match need.tts_model {
        Some(target) => {
            targets.push(target);
        },
        None => {},
    }
    push_wanted(&mut targets, need.kokoro_frontend, DownloadTarget::KokoroFrontend);
    push_wanted(&mut targets, need.parakeet_model, DownloadTarget::ParakeetModel);
    push_wanted(&mut targets, need.parakeet_mlx, DownloadTarget::ParakeetMlx);
    push_wanted(&mut targets, need.parakeet_fluid, DownloadTarget::ParakeetFluid);
    push_wanted(&mut targets, need.diarization_mlx, DownloadTarget::DiarizationMlx);
    push_wanted(&mut targets, need.diarization_fluid, DownloadTarget::DiarizationFluid);
    push_wanted(&mut targets, need.sepformer_model, DownloadTarget::SepformerModel);
    targets
}

/// The downloads to start: the CUDA runtime first where it is wanted, then what is
/// needed.
pub fn fetch_plan(prefetch_cuda: bool, need: &DownloadNeeds) -> (r: Vec<DownloadTarget>)
    ensures
        r@ == wanted(prefetch_cuda, DownloadTarget::Cuda) + needed(*need),
{
    let mut plan: Vec<DownloadTarget> = Vec::new();
    push_wanted(&mut plan, prefetch_cuda, DownloadTarget::Cuda);
    let mut rest = needed_downloads(need);
    plan.append(&mut rest);
    plan
}

/// What is on this machine.
#[derive(Debug, Clone, Copy, PartialEq, Eq, Structural)]
pub struct Probe {
    /// Which native libraries are there.
    pub shims: NativeShims,
    /// Kokoro's pronunciation model is there.
    pub kokoro_frontend: bool,
    /// Kokoro's set for the Fluid provider is there.
    pub kokoro_fluid_set: bool,
    /// Kokoro's voices are there.
    pub kokoro_voices: bool,
    /// The selected speaking model's set for the MLX provider is there.
    pub tts_mlx_set: bool,
    /// The selected speaking model's files for the ONNX runtime are there.
    pub tts_portable: bool,
    /// The ONNX runtime is there.
    pub onnx_runtime: bool,
    /// The transcribing model's files for the ONNX runtime are there, and whole.
    pub parakeet_onnx: bool,
    /// The transcribing model's set for the MLX provider is there.
    pub parakeet_mlx_set: bool,
    /// The transcribing model's set for the Fluid provider is there.
    pub parakeet_fluid_set: bool,
    /// The set that tells speakers apart, for the MLX provider, is there.
    pub diarization_mlx_set: bool,
    /// The set that tells speakers apart, for the Fluid provider, is there.
    pub diarization_fluid_set: bool,
    /// The model that separates voices is there.
    pub sepformer: bool,
    /// This machine can tell speakers apart with the MLX provider.
    pub host_diarization_mlx: bool,
    /// This machine can tell speakers apart with the Fluid provider.
    pub host_diarization_fluid: bool,
    /// This machine can separate voices.
    pub host_sepformer: bool,
}

/// The speaking model's target, where it is selected and missing.
pub open spec fn tts_need(cfg: VoiceConfig, p: Probe) -> Option<DownloadTarget> {
    if !speaks(cfg) {
        None
    } else if !native(cfg.tts_provider, p.shims) {
        if p.tts_portable && p.onnx_runtime {
            None
        } else {
            Some(portable_target(cfg.tts_model))
        }
    } else if cfg.tts_provider == Provider::Fluid {
        if p.kokoro_fluid_set && p.kokoro_voices {
            None
        } else {
            fluid_target(cfg.tts_model)
        }
    } else {
        if p.tts_mlx_set {
            None
        } else {
            Some(mlx_target(cfg.tts_model))
        }
    }
}

/// What is selected and missing. At most one runtime's files of the transcribing model
/// are needed, those of the runtime that it would run on.
pub open spec fn needs_of(cfg: VoiceConfig, p: Probe) -> DownloadNeeds {
    let stt = cfg.stt == Some(SttEngine::BuiltIn);
    let stt_native = native(cfg.stt_provider, p.shims);
    let stt_fluid = cfg.stt_provider == Provider::Fluid;
    DownloadNeeds {
        tts_model: tts_need(cfg, p),
        kokoro_frontend: speaks(cfg) && cfg.tts_model == TtsModel::Kokoro && !p.kokoro_frontend
            && tts_need(cfg, p) != Some(DownloadTarget::KokoroModel),
        parakeet_model: stt && !stt_native && !p.parakeet_onnx,
        parakeet_mlx: stt && stt_native && !stt_fluid && !p.parakeet_mlx_set,
        parakeet_fluid: stt && stt_native && stt_fluid && !p.parakeet_fluid_set,
        diarization_mlx: cfg.diarizer == DiarizerProvider::Mlx && p.host_diarization_mlx
            && cfg.diarization && !p.diarization_mlx_set,
        diarization_fluid: cfg.diarizer == DiarizerProvider::Fluid && p.host_diarization_fluid
            && cfg.diarization && !p.diarization_fluid_set,
        sepformer_model: p.host_sepformer && cfg.speaker_lock && cfg.diarization && !p.sepformer,
    }
}

/// What is selected and missing; see [`needs_of`].
pub fn compute_needs(cfg: &VoiceConfig, p: &Probe) -> (r: DownloadNeeds)
    ensures
        r == needs_of(*cfg, *p),
{
    let builtin_tts = helper_uses_tts(cfg);
    let native_active = native_tts_active(cfg, p.shims);
    let fluid_active = native_active && cfg.tts_provider == Provider::Fluid;
    let mlx_active = native_active && !fluid_active;
    let kokoro_selected = builtin_tts && cfg.tts_model == TtsModel::Kokoro;
    let tts_model = if !builtin_tts {
        None
    } else if fluid_active {
        if p.kokoro_fluid_set && p.kokoro_voices {
            None
        } else {
            DownloadTarget::fluid_for_tts(cfg.tts_model)
        }
    } else if mlx_active {
        if p.tts_mlx_set {
            None
        } else {
            Some(DownloadTarget::mlx_for_tts(cfg.tts_model))
        }
    } else if p.tts_portable && p.onnx_runtime {
        None
    } else {
        Some(DownloadTarget::portable_for_tts(cfg.tts_model))
    };
    let full_kokoro = matches!(tts_model, Some(DownloadTarget::KokoroModel));
    let stt_is_builtin = matches!(cfg.stt, Some(SttEngine::BuiltIn));
    let stt_onnx_runtime = stt_uses_onnx_runtime(cfg.stt_provider, p.shims);
    let stt_native = stt_is_builtin && !stt_onnx_runtime;
    let stt_fluid = stt_native && cfg.stt_provider == Provider::Fluid;
    DownloadNeeds {
        tts_model,
        kokoro_frontend: needs_kokoro_frontend(kokoro_selected, p.kokoro_frontend, full_kokoro),
        parakeet_model: stt_is_builtin && stt_onnx_runtime && !p.parakeet_onnx,
        parakeet_mlx: stt_native && !stt_fluid && !p.parakeet_mlx_set,
        parakeet_fluid: stt_fluid && !p.parakeet_fluid_set,
        diarization_mlx: cfg.diarizer == DiarizerProvider::Mlx && diarization_needed(
            p.host_diarization_mlx,
            cfg.diarization,
            p.diarization_mlx_set,
        ),
        diarization_fluid: cfg.diarizer == DiarizerProvider::Fluid && diarization_needed(
            p.host_diarization_fluid,
            cfg.diarization,
            p.diarization_fluid_set,
        ),
        sepformer_model: p.host_sepformer && cfg.speaker_lock && cfg.diarization && !p.sepformer,
    }
}

/// Whether the CUDA runtime is to be fetched: it is wanted, the driver is there, and it
/// is not.
pub fn should_prefetch_cuda(wanted: bool, driver_present: bool, runtime_present: bool) -> (r: bool)
    ensures
        r == (wanted && driver_present && !runtime_present),
{
    wanted && driver_present && !runtime_present
}

/// The downloads that the settings call for, apart from the CUDA runtime.
pub fn auto_download_missing(cfg: &VoiceConfig, p: &Probe) -> (r: Vec<DownloadTarget>)
    ensures
        r@ == needed(needs_of(*cfg, *p)),
{
    let plan = fetch_plan(false, &compute_needs(cfg, p));
    assert(plan@ =~= needed(needs_of(*cfg, *p)));
    plan
}

/// The downloads that the settings call for once the speaking provider was set: the CUDA
/// runtime first, where it is wanted and usable and not there.
pub fn apply_provider_and_autofetch(
    cfg: &VoiceConfig,
    p: &Probe,
    cuda_wanted: bool,
    driver_present: bool,
    runtime_present: bool,
) -> (r: Vec<DownloadTarget>)
    ensures
        r@ == wanted(
            cuda_wanted && driver_present && !runtime_present,
            DownloadTarget::Cuda,
        ) + needed(needs_of(*cfg, *p)),
{
    let prefetch_cuda = should_prefetch_cuda(cuda_wanted, driver_present, runtime_present);
    fetch_plan(prefetch_cuda, &compute_needs(cfg, p))
}

// ── Laws ─────────────────────────────────────────────────────────────────────

/// A target that is being fetched is joined, not fetched twice, and its progress stays.
pub proof fn law_single_flight(v: DownloadView, which: DownloadTarget, now: u64, later: u64)
    ensures
        is_active(v, which) ==> !begins(v, which, now) && begun(v, which, now) == v,
        begins(v, which, now) ==> !begins(begun(v, which, now), which, later),
{
}

/// The targets do not touch each other.
pub proof fn law_targets_are_independent(
    v: DownloadView,
    which: DownloadTarget,
    other: DownloadTarget,
    error: DownloadError,
    done: u64,
    total: u64,
    now: u64,
    later: u64,
)
    requires
        which != other,
    ensures
        begins(begun(v, which, now), other, later) == begins(v, other, later),
        begins(failed(v, which, error, now), other, later) == begins(v, other, later),
        begins(succeeded(v, which), other, later) == begins(v, other, later),
        begins(progressed(v, which, done, total, now), other, later) == begins(v, other, later),
        v.targets.contains_key(other) ==> {
            &&& begun(v, which, now).targets[other] == v.targets[other]
            &&& failed(v, which, error, now).targets[other] == v.targets[other]
            &&& succeeded(v, which).targets[other] == v.targets[other]
            &&& progressed(v, which, done, total, now).targets[other] == v.targets[other]
        },
{
}

/// A permanent failure is not tried again, at any time.
pub proof fn law_permanent_failure_is_final(
    v: DownloadView,
    which: DownloadTarget,
    error: DownloadError,
    now: u64,
    later: u64,
)
    requires
        error.permanent,
    ensures
        !begins(failed(v, which, error, now), which, later),
{
}

/// A passing failure is tried again when its wait is over, and not before: the wait is
/// [`AUTO_RETRY_BASE`] at first and doubles with every failure in a row, up to
/// [`AUTO_RETRY_CAP`]. (A wait that would run past the end of time is none.)
pub proof fn law_passing_failure_waits(
    v: DownloadView,
    which: DownloadTarget,
    error: DownloadError,
    now: u64,
    later: u64,
)
    requires
        !error.permanent,
        now + AUTO_RETRY_CAP <= u64::MAX,
    ensures
        begins(failed(v, which, error, now), which, later) <==> later >= now + retry_wait(
            failures_now(v, which),
        ),
        retry_wait(failures_now(v, which)) <= AUTO_RETRY_CAP,
{
}

/// A success forgets the failures before it: the target may be fetched again at once,
/// and the next failure counts as the first.
pub proof fn law_success_forgets_failures(v: DownloadView, which: DownloadTarget, now: u64)
    ensures
        !held_back(succeeded(v, which), which, now),
        !is_active(succeeded(v, which), which),
        failures_now(succeeded(v, which), which) == 1,
{
}

/// What has ended is no longer being fetched.
pub proof fn law_ended_is_not_active(
    v: DownloadView,
    which: DownloadTarget,
    error: DownloadError,
    now: u64,
)
    ensures
        !is_active(failed(v, which, error, now), which),
        !is_active(succeeded(v, which), which),
{
}

/// Whatever is needed is missing, of a part that is switched on: with everything on the
/// machine nothing is fetched.
pub proof fn law_complete_machine_needs_nothing(cfg: VoiceConfig, p: Probe)
    requires
        p.kokoro_frontend,
        p.kokoro_fluid_set,
        p.kokoro_voices,
        p.tts_mlx_set,
        p.tts_portable,
        p.onnx_runtime,
        p.parakeet_onnx,
        p.parakeet_mlx_set,
        p.parakeet_fluid_set,
        p.diarization_mlx_set,
        p.diarization_fluid_set,
        p.sepformer,
    ensures
        needed(needs_of(cfg, p)) == Seq::<DownloadTarget>::empty(),
{
}

/// Which targets are needed: the speaking model's, and one for each other part that is
/// needed.
proof fn lemma_needed(n: DownloadNeeds, t: DownloadTarget)
    ensures
        needed(n).contains(t) <==> {
            ||| n.tts_model == Some(t)
            ||| n.kokoro_frontend && t == DownloadTarget::KokoroFrontend
            ||| n.parakeet_model && t == DownloadTarget::ParakeetModel
            ||| n.parakeet_mlx && t == DownloadTarget::ParakeetMlx
            ||| n.parakeet_fluid && t == DownloadTarget::ParakeetFluid
            ||| n.diarization_mlx && t == DownloadTarget::DiarizationMlx
            ||| n.diarization_fluid && t == DownloadTarget::DiarizationFluid
            ||| n.sepformer_model && t == DownloadTarget::SepformerModel
        },
{
    broadcast use vstd::seq_lib::group_seq_properties;

    let tts: Seq<DownloadTarget> = match n.tts_model {
        Some(t) => seq![t],
        None => Seq::empty(),
    };
    assert(tts.contains(t) <==> n.tts_model == Some(t)) by {
        if n.tts_model == Some(t) {
            assert(tts[0] == t);
        }
    }
    lemma_wanted(n.kokoro_frontend, DownloadTarget::KokoroFrontend, t);
    lemma_wanted(n.parakeet_model, DownloadTarget::ParakeetModel, t);
    lemma_wanted(n.parakeet_mlx, DownloadTarget::ParakeetMlx, t);
    lemma_wanted(n.parakeet_fluid, DownloadTarget::ParakeetFluid, t);
    lemma_wanted(n.diarization_mlx, DownloadTarget::DiarizationMlx, t);
    lemma_wanted(n.diarization_fluid, DownloadTarget::DiarizationFluid, t);
    lemma_wanted(n.sepformer_model, DownloadTarget::SepformerModel, t);
}

proof fn lemma_wanted(yes: bool, which: DownloadTarget, t: DownloadTarget)
    ensures
        wanted(yes, which).contains(t) <==> yes && t == which,
{
    if yes {
        assert(wanted(yes, which)[0] == which);
    }
}

/// Whether what a target brings is on the machine. The speaking model's own files are
/// those of the selected model.
pub open spec fn on_machine(q: Probe, which: DownloadTarget, selected: TtsModel) -> bool {
    match which {
        DownloadTarget::KokoroModel => q.onnx_runtime && q.kokoro_frontend && (selected
            == TtsModel::Kokoro ==> q.tts_portable),
        DownloadTarget::ChatterboxModel => q.onnx_runtime && (selected == TtsModel::Chatterbox
            ==> q.tts_portable),
        DownloadTarget::QwenModel => q.onnx_runtime && (selected == TtsModel::Qwen
            ==> q.tts_portable),
        DownloadTarget::OmniVoiceModel => q.onnx_runtime && (selected == TtsModel::OmniVoice
            ==> q.tts_portable),
        DownloadTarget::KokoroMlx => selected == TtsModel::Kokoro ==> q.tts_mlx_set,
        DownloadTarget::ChatterboxMlx => selected == TtsModel::Chatterbox ==> q.tts_mlx_set,
        DownloadTarget::QwenMlx => selected == TtsModel::Qwen ==> q.tts_mlx_set,
        DownloadTarget::OmniVoiceMlx => selected == TtsModel::OmniVoice ==> q.tts_mlx_set,
        DownloadTarget::KokoroFluid => q.kokoro_fluid_set && q.kokoro_voices,
        DownloadTarget::KokoroFrontend => q.kokoro_frontend && q.onnx_runtime,
        DownloadTarget::ParakeetModel => q.parakeet_onnx,
        DownloadTarget::ParakeetMlx => q.parakeet_mlx_set,
        DownloadTarget::ParakeetFluid => q.parakeet_fluid_set,
        DownloadTarget::DiarizationMlx => q.diarization_mlx_set,
        DownloadTarget::DiarizationFluid => q.diarization_fluid_set,
        DownloadTarget::SepformerModel => q.sepformer,
        DownloadTarget::Cuda => true,
    }
}

/// Whether a machine holds whatever it held before; it can do what it could.
pub open spec fn kept_all(p: Probe, q: Probe) -> bool {
    &&& q.shims == p.shims
    &&& q.host_diarization_mlx == p.host_diarization_mlx
    &&& q.host_diarization_fluid == p.host_diarization_fluid
    &&& q.host_sepformer == p.host_sepformer
    &&& p.kokoro_frontend ==> q.kokoro_frontend
    &&& p.kokoro_fluid_set ==> q.kokoro_fluid_set
    &&& p.kokoro_voices ==> q.kokoro_voices
    &&& p.tts_mlx_set ==> q.tts_mlx_set
    &&& p.tts_portable ==> q.tts_portable
    &&& p.onnx_runtime ==> q.onnx_runtime
    &&& p.parakeet_onnx ==> q.parakeet_onnx
    &&& p.parakeet_mlx_set ==> q.parakeet_mlx_set
    &&& p.parakeet_fluid_set ==> q.parakeet_fluid_set
    &&& p.diarization_mlx_set ==> q.diarization_mlx_set
    &&& p.diarization_fluid_set ==> q.diarization_fluid_set
    &&& p.sepformer ==> q.sepformer
}

/// What is fetched makes what is selected loadable. Take any machine that holds what it
/// held and what every needed target brings: nothing is needed there any more, the
/// speaking model can be loaded, and so can the transcribing model. (Kokoro's
/// pronunciation model counts as being there only with the runtime that it runs on; the
/// Fluid provider speaks with Kokoro alone.)
pub proof fn law_what_is_fetched_is_enough(cfg: VoiceConfig, p: Probe, q: Probe)
    requires
        kept_all(p, q),
        forall|t: DownloadTarget| #[trigger]
            needed(needs_of(cfg, p)).contains(t) ==> on_machine(q, t, cfg.tts_model),
        q.kokoro_frontend ==> q.onnx_runtime,
    ensures
        needed(needs_of(cfg, q)) == Seq::<DownloadTarget>::empty(),
        cfg.tts == Some(TtsEngine::BuiltIn) && (cfg.tts_provider == Provider::Fluid
            && q.shims.fluid ==> cfg.tts_model == TtsModel::Kokoro) ==> tts_model_present(
            cfg,
            q.shims,
            (TtsFiles {
                g2p_encoder: q.kokoro_frontend,
                g2p_decoder: q.kokoro_frontend,
                fluid_set: q.kokoro_fluid_set,
                voices: q.kokoro_voices,
                mlx_set: q.tts_mlx_set,
                portable: q.tts_portable,
                onnx_runtime: q.onnx_runtime,
            }),
        ),
        cfg.stt == Some(SttEngine::BuiltIn) ==> stt_model_present(
            cfg,
            q.shims,
            (SttFiles {
                onnx: q.parakeet_onnx,
                mlx: q.parakeet_mlx_set,
                fluid: q.parakeet_fluid_set,
            }),
        ),
{
    let n = needs_of(cfg, p);
    if n.tts_model is Some {
        lemma_needed(n, n.tts_model->0);
    }
    lemma_needed(n, DownloadTarget::KokoroFrontend);
    lemma_needed(n, DownloadTarget::ParakeetModel);
    lemma_needed(n, DownloadTarget::ParakeetMlx);
    lemma_needed(n, DownloadTarget::ParakeetFluid);
    lemma_needed(n, DownloadTarget::DiarizationMlx);
    lemma_needed(n, DownloadTarget::DiarizationFluid);
    lemma_needed(n, DownloadTarget::SepformerModel);
    assert(needed(needs_of(cfg, q)) =~= Seq::<DownloadTarget>::empty());
}

/// A speaking model that cannot be loaded is fetched for the runtime that it would run
/// on, and for no other: for the MLX or the Fluid provider where that one is selected
/// and its library is there, for the ONNX runtime otherwise. The helper is started anew
/// for it once it is there.
pub proof fn law_speech_is_fetched_for_its_runtime(cfg: VoiceConfig, p: Probe, cuda_wanted: bool)
    requires
        cfg.tts == Some(TtsEngine::BuiltIn),
    ensures
        ({
            let list = needed(needs_of(cfg, p));
            let mlx = cfg.tts_provider == Provider::Mlx && p.shims.mlx;
            let fluid = cfg.tts_provider == Provider::Fluid && p.shims.fluid;
            let onnx_target = match cfg.tts_model {
                TtsModel::Kokoro => DownloadTarget::KokoroModel,
                TtsModel::Chatterbox => DownloadTarget::ChatterboxModel,
                TtsModel::Qwen => DownloadTarget::QwenModel,
                TtsModel::OmniVoice => DownloadTarget::OmniVoiceModel,
            };
            let mlx_set = match cfg.tts_model {
                TtsModel::Kokoro => DownloadTarget::KokoroMlx,
                TtsModel::Chatterbox => DownloadTarget::ChatterboxMlx,
                TtsModel::Qwen => DownloadTarget::QwenMlx,
                TtsModel::OmniVoice => DownloadTarget::OmniVoiceMlx,
            };
            &&& list.contains(onnx_target) <==> !mlx && !fluid && !(p.tts_portable
                && p.onnx_runtime)
            &&& list.contains(mlx_set) <==> mlx && !p.tts_mlx_set
            &&& list.contains(DownloadTarget::KokoroFluid) <==> fluid && cfg.tts_model
                == TtsModel::Kokoro && !(p.kokoro_fluid_set && p.kokoro_voices)
            &&& list.contains(onnx_target) ==> held_by_helper(
                onnx_target,
                cfg,
                p.shims,
                cuda_wanted,
            )
            &&& list.contains(mlx_set) ==> held_by_helper(mlx_set, cfg, p.shims, cuda_wanted)
            &&& list.contains(DownloadTarget::KokoroFluid) ==> held_by_helper(
                DownloadTarget::KokoroFluid,
                cfg,
                p.shims,
                cuda_wanted,
            )
        }),
{
    let n = needs_of(cfg, p);
    lemma_needed(n, portable_target(cfg.tts_model));
    lemma_needed(n, mlx_target(cfg.tts_model));
    lemma_needed(n, DownloadTarget::KokoroFluid);
}

/// Kokoro's pronunciation model is fetched on its own where Kokoro is to speak without
/// it and is not fetched whole for the ONNX runtime.
pub proof fn law_frontend_is_fetched_once(cfg: VoiceConfig, p: Probe)
    ensures
        ({
            let list = needed(needs_of(cfg, p));
            let kokoro = cfg.tts == Some(TtsEngine::BuiltIn) && cfg.tts_model == TtsModel::Kokoro;
            &&& list.contains(DownloadTarget::KokoroFrontend) ==> kokoro && !p.kokoro_frontend
                && !list.contains(DownloadTarget::KokoroModel)
            &&& kokoro && !p.kokoro_frontend ==> list.contains(DownloadTarget::KokoroFrontend)
                || list.contains(DownloadTarget::KokoroModel)
        }),
{
    lemma_needed(needs_of(cfg, p), DownloadTarget::KokoroFrontend);
    lemma_needed(needs_of(cfg, p), DownloadTarget::KokoroModel);
}

/// Nothing is fetched that is there, or that nothing selected uses: a needed target is
/// missing, and belongs to the selected speaking model, to the transcribing model on its
/// runtime, to the selected way of telling speakers apart, or to the speaker lock.
pub proof fn law_nothing_is_fetched_in_vain(cfg: VoiceConfig, p: Probe, t: DownloadTarget)
    requires
        needed(needs_of(cfg, p)).contains(t),
    ensures
        !on_machine(p, t, cfg.tts_model),
        match t {
            DownloadTarget::ParakeetModel => cfg.stt == Some(SttEngine::BuiltIn) && !(
            cfg.stt_provider == Provider::Mlx && p.shims.mlx) && !(cfg.stt_provider
                == Provider::Fluid && p.shims.fluid),
            DownloadTarget::ParakeetMlx => cfg.stt == Some(SttEngine::BuiltIn)
                && cfg.stt_provider == Provider::Mlx && p.shims.mlx,
            DownloadTarget::ParakeetFluid => cfg.stt == Some(SttEngine::BuiltIn)
                && cfg.stt_provider == Provider::Fluid && p.shims.fluid,
            DownloadTarget::DiarizationMlx => cfg.diarization && cfg.diarizer
                == DiarizerProvider::Mlx && p.host_diarization_mlx,
            DownloadTarget::DiarizationFluid => cfg.diarization && cfg.diarizer
                == DiarizerProvider::Fluid && p.host_diarization_fluid,
            DownloadTarget::SepformerModel => cfg.diarization && cfg.speaker_lock
                && p.host_sepformer,
            DownloadTarget::Cuda => false,
            _ => cfg.tts == Some(TtsEngine::BuiltIn),
        },
{
    lemma_needed(needs_of(cfg, p), t);
}

/// Whatever tells speakers apart or separates voices, is switched on, can run here and is
/// missing, is fetched.
pub proof fn law_what_tells_speakers_apart_is_fetched(cfg: VoiceConfig, p: Probe)
    ensures
        ({
            let list = needed(needs_of(cfg, p));
            &&& cfg.diarization && cfg.diarizer == DiarizerProvider::Mlx && p.host_diarization_mlx
                && !p.diarization_mlx_set ==> list.contains(DownloadTarget::DiarizationMlx)
            &&& cfg.diarization && cfg.diarizer == DiarizerProvider::Fluid
                && p.host_diarization_fluid && !p.diarization_fluid_set ==> list.contains(
                DownloadTarget::DiarizationFluid,
            )
            &&& cfg.diarization && cfg.speaker_lock && p.host_sepformer && !p.sepformer
                ==> list.contains(DownloadTarget::SepformerModel)
        }),
{
    lemma_needed(needs_of(cfg, p), DownloadTarget::DiarizationMlx);
    lemma_needed(needs_of(cfg, p), DownloadTarget::DiarizationFluid);
    lemma_needed(needs_of(cfg, p), DownloadTarget::SepformerModel);
}

/// The place of a target among those that are started together.
pub open spec fn start_rank(t: DownloadTarget) -> int {
    match t {
        DownloadTarget::KokoroFrontend => 1,
        DownloadTarget::ParakeetModel => 2,
        DownloadTarget::ParakeetMlx => 3,
        DownloadTarget::ParakeetFluid => 4,
        DownloadTarget::DiarizationMlx => 5,
        DownloadTarget::DiarizationFluid => 6,
        DownloadTarget::SepformerModel => 7,
        _ => 0,
    }
}

spec fn ranked(s: Seq<DownloadTarget>, below: int) -> bool {
    &&& forall|i: int| 0 <= i < s.len() ==> start_rank(#[trigger] s[i]) < below
    &&& forall|i: int, j: int|
        0 <= i < j < s.len() ==> start_rank(#[trigger] s[i]) < start_rank(#[trigger] s[j])
}

proof fn lemma_ranked(s: Seq<DownloadTarget>, yes: bool, t: DownloadTarget)
    requires
        ranked(s, start_rank(t)),
    ensures
        ranked(s + wanted(yes, t), start_rank(t) + 1),
{
    let r = s + wanted(yes, t);
    assert forall|i: int, j: int| 0 <= i < j < r.len() implies start_rank(#[trigger] r[i])
        < start_rank(#[trigger] r[j]) by {
        assert(r[i] == s[i]);
    }
}

/// What speaks is started before what transcribes, and that before what tells speakers
/// apart; no target is started twice.
pub proof fn law_downloads_start_in_order(cfg: VoiceConfig, p: Probe, i: int, j: int)
    requires
        0 <= i < j < needed(needs_of(cfg, p)).len(),
    ensures
        start_rank(needed(needs_of(cfg, p))[i]) < start_rank(needed(needs_of(cfg, p))[j]),
{
    let n = needs_of(cfg, p);
    let a: Seq<DownloadTarget> = match n.tts_model {
        Some(t) => seq![t],
        None => Seq::empty(),
    };
    assert(ranked(a, 1));
    let b = a + wanted(n.kokoro_frontend, DownloadTarget::KokoroFrontend);
    lemma_ranked(a, n.kokoro_frontend, DownloadTarget::KokoroFrontend);
    let c = b + wanted(n.parakeet_model, DownloadTarget::ParakeetModel);
    lemma_ranked(b, n.parakeet_model, DownloadTarget::ParakeetModel);
    let d = c + wanted(n.parakeet_mlx, DownloadTarget::ParakeetMlx);
    lemma_ranked(c, n.parakeet_mlx, DownloadTarget::ParakeetMlx);
    let e = d + wanted(n.parakeet_fluid, DownloadTarget::ParakeetFluid);
    lemma_ranked(d, n.parakeet_fluid, DownloadTarget::ParakeetFluid);
    let f = e + wanted(n.diarization_mlx, DownloadTarget::DiarizationMlx);
    lemma_ranked(e, n.diarization_mlx, DownloadTarget::DiarizationMlx);
    let g = f + wanted(n.diarization_fluid, DownloadTarget::DiarizationFluid);
    lemma_ranked(f, n.diarization_fluid, DownloadTarget::DiarizationFluid);
    lemma_ranked(g, n.sepformer_model, DownloadTarget::SepformerModel);
}

/// A target that was begun starts from nothing; whatever it reports is what is known of
/// it, from when and where it began to move; and a fetch that succeeds keeps how far it
/// had come.
pub proof fn law_progress_is_what_was_reported(
    v: DownloadView,
    which: DownloadTarget,
    now: u64,
    t1: u64,
    done1: u64,
    total1: u64,
    t2: u64,
    done2: u64,
    total2: u64,
)
    requires
        !(v.targets.contains_key(which) && v.targets[which] is Active),
        !v.retry_gates.contains_key(which),
    ensures
        ({
            let start = begun(v, which, now);
            let once = progressed(start, which, done1, total1, t1);
            let twice = progressed(once, which, done2, total2, t2);
            let ended = succeeded(twice, which);
            &&& start.targets[which] == TargetState::Active(DownloadProgress { done: 0, total: 0 })
            &&& !start.transfer_start.contains_key(which)
            &&& once.targets[which] == TargetState::Active(
                DownloadProgress { done: done1, total: total1 },
            )
            &&& once.transfer_start[which] == (t1, done1)
            &&& twice.targets[which] == TargetState::Active(
                DownloadProgress { done: done2, total: total2 },
            )
            &&& twice.transfer_start[which] == (t1, done1)
            &&& ended.targets[which] == TargetState::Done(
                DownloadProgress { done: done2, total: total2 },
            )
            &&& !ended.transfer_start.contains_key(which)
            &&& progressed(ended, which, done1, total1, t1) == ended
        }),
{
}

/// A failure is told with its reason, ends the transfer, and holds the target back: for
/// good where it is permanent; else 20 seconds after the first, twice as long after each
/// further one in a row, and 15 minutes at most.
pub proof fn law_failures_back_off(
    v: DownloadView,
    which: DownloadTarget,
    error: DownloadError,
    failures: u32,
    not_before: u64,
    now: u64,
)
    requires
        now + 900_000 <= u64::MAX,
        failures < u32::MAX,
    ensures
        ({
            let first = failed(
                DownloadView { retry_gates: v.retry_gates.remove(which), ..v },
                which,
                error,
                now,
            );
            let again = failed(
                DownloadView {
                    retry_gates: v.retry_gates.insert(
                        which,
                        RetryGate::Transient { failures, not_before },
                    ),
                    ..v
                },
                which,
                error,
                now,
            );
            &&& first.targets[which] == TargetState::Failed(error.message)
            &&& !first.transfer_start.contains_key(which)
            &&& error.permanent ==> first.retry_gates[which] == RetryGate::Permanent
                && again.retry_gates[which] == RetryGate::Permanent
            &&& !error.permanent ==> first.retry_gates[which] == (RetryGate::Transient {
                failures: 1,
                not_before: (now + 20_000) as u64,
            })
            &&& !error.permanent ==> again.retry_gates[which] is Transient
                && again.retry_gates[which]->failures == failures + 1
            &&& !error.permanent && failures == 1 ==> again.retry_gates[which]->not_before == now
                + 40_000
            &&& !error.permanent && failures == 5 ==> again.retry_gates[which]->not_before == now
                + 640_000
            &&& !error.permanent && failures >= 6 ==> again.retry_gates[which]->not_before == now
                + 900_000
        }),
{
    vstd::arithmetic::power2::lemma2_to64();
    if failures >= 6 {
        lemma_wait_grows(6, failures as nat);
    }
}

/// Each further failure in a row doubles the wait, until it is the longest.
pub proof fn law_wait_doubles(failures: u32)
    requires
        1 <= failures < u32::MAX,
    ensures
        retry_wait(1) == 20_000,
        retry_wait((failures + 1) as u32) == (if 2 * retry_wait(failures) < 900_000 {
            2 * retry_wait(failures)
        } else {
            900_000
        }),
{
    vstd::arithmetic::power2::lemma2_to64();
    vstd::arithmetic::power2::lemma_pow2_unfold(failures as nat);
}

/// A target may be started if and only if it is not being fetched and no failure holds it
/// back: neither a permanent one nor one whose time has not come.
pub proof fn law_when_a_download_starts(v: DownloadView, which: DownloadTarget, now: u64)
    ensures
        begins(v, which, now) <==> {
            &&& !(v.targets.contains_key(which) && v.targets[which] is Active)
            &&& !(v.retry_gates.contains_key(which) && v.retry_gates[which] == RetryGate::Permanent)
            &&& v.retry_gates.contains_key(which) && v.retry_gates[which] is Transient
                ==> v.retry_gates[which]->not_before <= now
        },
        begins(v, which, now) ==> begun(v, which, now).targets.contains_key(which)
            && begun(v, which, now).targets[which] is Active,
        begun(v, which, now).retry_gates == v.retry_gates,
{
}

/// A fetched target brings what its name says: a speaking model is fetched as that model,
/// for the runtime of the target.
pub proof fn law_target_names_its_model(model: TtsModel)
    ensures
        model_of(portable_target(model)) == Some(model),
        model_of(mlx_target(model)) == Some(model),
        fluid_target(model) is Some <==> model == TtsModel::Kokoro,
        fluid_target(model) matches Some(t) ==> model_of(t) == Some(model) && is_fluid(t)
            && !is_mlx(t),
        !is_mlx(portable_target(model)) && !is_fluid(portable_target(model)),
        is_mlx(mlx_target(model)) && !is_fluid(mlx_target(model)),
        portable_target(model) == DownloadTarget::KokoroModel <==> model == TtsModel::Kokoro,
        route_of(mlx_target(model)) == FetchRoute::TtsMlx(model),
        route_of(portable_target(model)) == (if model == TtsModel::Kokoro {
            FetchRoute::Kokoro
        } else {
            FetchRoute::TtsModel(model)
        }),
        route_of(DownloadTarget::KokoroFluid) == FetchRoute::KokoroFluid,
        route_of(DownloadTarget::KokoroFrontend) == FetchRoute::KokoroFrontend,
        model_of(DownloadTarget::KokoroFrontend) is None,
{
}

/// Every other target has a way of its own to be fetched: no two are fetched alike.
pub proof fn law_targets_are_fetched_apart(a: DownloadTarget, b: DownloadTarget)
    ensures
        route_of(a) == route_of(b) ==> a == b,
        a == DownloadTarget::ParakeetModel ==> route_of(a) == FetchRoute::Parakeet,
        a == DownloadTarget::ParakeetMlx ==> route_of(a) == FetchRoute::ParakeetMlx,
        a == DownloadTarget::ParakeetFluid ==> route_of(a) == FetchRoute::ParakeetFluid,
        a == DownloadTarget::DiarizationMlx ==> route_of(a) == FetchRoute::DiarizationMlx,
        a == DownloadTarget::DiarizationFluid ==> route_of(a) == FetchRoute::DiarizationFluid,
        a == DownloadTarget::SepformerModel ==> route_of(a) == FetchRoute::Sepformer,
        a == DownloadTarget::Cuda ==> route_of(a) == FetchRoute::Cuda,
{
}

/// No two targets have the same name.
pub proof fn law_target_names_differ(a: DownloadTarget, b: DownloadTarget)
    ensures
        target_name(a) == target_name(b) ==> a == b,
{
    reveal_strlit("kokoro_model");
    reveal_strlit("kokoro_frontend");
    reveal_strlit("kokoro_mlx");
    reveal_strlit("kokoro_fluid");
    reveal_strlit("chatterbox_model");
    reveal_strlit("chatterbox_mlx");
    reveal_strlit("qwen_model");
    reveal_strlit("qwen_mlx");
    reveal_strlit("omnivoice_model");
    reveal_strlit("omnivoice_mlx");
    reveal_strlit("parakeet_model");
    reveal_strlit("parakeet_mlx");
    reveal_strlit("parakeet_fluid");
    reveal_strlit("diarization_mlx");
    reveal_strlit("diarization_fluid");
    reveal_strlit("sepformer_model");
    reveal_strlit("cuda");
    let x = target_name(a);
    let y = target_name(b);
    if x == y && a != b {
        assert(x.len() == y.len());
        assert(x[0] == y[0]);
        assert(x.last() == y.last());
        assert(x[3] == y[3]);
    }
}

/// The helper is started anew for the transcribing model where it holds one, for the CUDA
/// runtime where that is wanted, and never for what tells speakers apart or for a model
/// that is not selected.
pub proof fn law_helper_restarts_for_what_it_holds(
    which: DownloadTarget,
    cfg: VoiceConfig,
    shims: NativeShims,
    cuda_wanted: bool,
)
    ensures
        ({
            let held = held_by_helper(which, cfg, shims, cuda_wanted);
            let mlx = cfg.tts_provider == Provider::Mlx && shims.mlx;
            let fluid = cfg.tts_provider == Provider::Fluid && shims.fluid;
            let speaking = cfg.tts == Some(TtsEngine::BuiltIn);
            match which {
                DownloadTarget::ParakeetModel
                | DownloadTarget::ParakeetMlx
                | DownloadTarget::ParakeetFluid => held == (cfg.stt == Some(SttEngine::BuiltIn)),
                DownloadTarget::Cuda => held == cuda_wanted,
                DownloadTarget::DiarizationMlx
                | DownloadTarget::DiarizationFluid
                | DownloadTarget::SepformerModel => !held,
                DownloadTarget::KokoroFrontend => held == (speaking && cfg.tts_model
                    == TtsModel::Kokoro),
                DownloadTarget::KokoroModel => held == (speaking && cfg.tts_model
                    == TtsModel::Kokoro && !mlx && !fluid),
                DownloadTarget::KokoroMlx => held == (speaking && cfg.tts_model
                    == TtsModel::Kokoro && mlx),
                DownloadTarget::KokoroFluid => held == (speaking && cfg.tts_model
                    == TtsModel::Kokoro && fluid),
                DownloadTarget::ChatterboxModel => held == (speaking && cfg.tts_model
                    == TtsModel::Chatterbox && !mlx && !fluid),
                DownloadTarget::ChatterboxMlx => held == (speaking && cfg.tts_model
                    == TtsModel::Chatterbox && mlx),
                DownloadTarget::QwenModel => held == (speaking && cfg.tts_model == TtsModel::Qwen
                    && !mlx && !fluid),
                DownloadTarget::QwenMlx => held == (speaking && cfg.tts_model == TtsModel::Qwen
                    && mlx),
                DownloadTarget::OmniVoiceModel => held == (speaking && cfg.tts_model
                    == TtsModel::OmniVoice && !mlx && !fluid),
                DownloadTarget::OmniVoiceMlx => held == (speaking && cfg.tts_model
                    == TtsModel::OmniVoice && mlx),
            }
        }),
{
}

} // verus!
