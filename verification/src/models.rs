//! Model lifecycle decisions: provisioning plans, completeness checks,
//! complexity floors and ladder selection.
use vstd::prelude::*;
use crate::intent::{IntentCategory, TaskComplexity};
use crate::hardware::ModelLadderStep;
use crate::text::{chars_of, contains_str, equals_str, lower_chars, lowercase, seq_contains, trimmed, starts_with, string_of, push_str, trim, seq_starts_with, seq_ends_with,
    ends_with, contains_any, contains_any_of, views};
use crate::digests::{hex_lower, sha256_digest, sha256, hex_encode};
use vstd::utf8::encode_utf8;

verus! {

/// Verification outcome for one local model file.
#[derive(Debug, Clone)]
pub struct ModelVerificationResult {
    pub model_id: String,
    pub path: String,
    pub file_size_bytes: u64,
    pub file_size_formatted: String,
    pub is_valid_gguf: bool,
    pub magic_header: String,
    pub test_inference_status: String,
    pub latency_ms: u128,
    pub checksum_verified: bool,
}

/// Where a model file came from.
#[derive(Debug, Clone)]
pub struct ModelProvenance {
    pub source_url: String,
    pub timestamp: u64,
    pub original_checksum: Option<String>,
}

/// A download the controller is running, identified by its task id.
#[derive(Debug, Clone)]
pub struct ActiveDownloadTask {
    pub target_url: String,
    pub model_name: String,
    pub task_id: String,
}

/// Number of ladder tiers to prefetch: `limit` clamped to `1..=count`.
pub open spec fn prefetch_tiers(count: nat, limit: nat) -> nat {
    if limit < 1 {
        1
    } else if limit > count {
        count
    } else {
        limit
    }
}

/// The `i`-th ladder index of a prefetch plan over `count` tiers: evenly
/// spread from the smallest tier to the largest.
pub open spec fn prefetch_index(i: nat, count: nat, tiers: nat) -> nat {
    if tiers == 1 {
        0
    } else {
        (i * (count - 1) / (tiers - 1)) as nat
    }
}

/// The prefetch plan over `count` ladder tiers with a `limit`.
pub open spec fn prefetch_plan(count: nat, limit: nat) -> Seq<nat> {
    if count == 0 {
        Seq::empty()
    } else {
        Seq::new(
            prefetch_tiers(count, limit),
            |i: int| prefetch_index(i as nat, count, prefetch_tiers(count, limit)),
        )
    }
}

/// A tensor as a GGUF header describes it: its dimensions, the element
/// count and byte size of one block of its data type, and its offset in
/// the data section.
#[derive(Debug, Clone)]
pub struct TensorExtent {
    pub dims: Vec<usize>,
    pub block_size: usize,
    pub type_size: usize,
    pub offset: u64,
}

/// The product of `dims` from the first on, or `None` when a partial
/// product overflows `usize`.
pub open spec fn checked_product(dims: Seq<usize>) -> Option<nat>
    decreases dims.len(),
{
    if dims.len() == 0 {
        Some(1)
    } else {
        match checked_product(dims.drop_last()) {
            None => None,
            Some(p) => if p * dims.last() > usize::MAX {
                None
            } else {
                Some(p * (dims.last() as nat))
            },
        }
    }
}

/// A tensor's data lies within a file of `file_len` bytes whose data
/// section starts at `data_offset`: it has a non-zero number of elements
/// that is a whole number of blocks, and its bytes end within the file, all
/// without overflow.
pub open spec fn tensor_fits(t: TensorExtent, data_offset: u64, file_len: u64) -> bool {
    match checked_product(t.dims@) {
        None => false,
        Some(elements) => {
            &&& elements != 0
            &&& t.block_size != 0
            &&& elements % (t.block_size as nat) == 0
            &&& (elements / (t.block_size as nat)) * t.type_size <= usize::MAX
            &&& data_offset + t.offset + (elements / (t.block_size as nat)) * t.type_size <= u64::MAX
            &&& data_offset + t.offset + (elements / (t.block_size as nat)) * t.type_size <= file_len
        },
    }
}

/// What an install request leads to.
#[derive(Debug, Clone)]
pub enum InstallStep {
    /// Answer at once with this message.
    Reply(String),
    /// Start downloading this URL.
    StartDownload(String),
}

/// The more demanding of a heuristic level and an optional floor.
pub open spec fn resolved_complexity(heuristic: TaskComplexity, min_complexity: Option<TaskComplexity>) -> TaskComplexity {
    match min_complexity {
        Some(floor) => if floor.rank() > heuristic.rank() { floor } else { heuristic },
        None => heuristic,
    }
}

/// The status a ladder step shows: verified when its file is complete;
/// while downloading, the download's status (queued before it reports
/// one); a failed or stopped download's status; partial when some bytes
/// are on disk; available otherwise.
pub open spec fn ladder_status(complete: bool, downloading: bool, progress_status: Option<Seq<char>>, size: u64) -> Seq<char> {
    if complete {
        "COMPLETED_VERIFIED"@
    } else if downloading {
        match progress_status { Some(st) => st, None => "QUEUED"@ }
    } else if progress_status matches Some(st) && (st == "FAILED"@ || st == "STOPPED"@) {
        progress_status->Some_0
    } else if size > 0 {
        "PARTIAL_DOWNLOAD"@
    } else {
        "AVAILABLE"@
    }
}

/// The highest verified step of the ladder, or zero when none is.
pub open spec fn highest_verified(steps: Seq<(usize, Seq<char>)>) -> nat
    decreases steps.len(),
{
    if steps.len() == 0 {
        0
    } else {
        let prev = highest_verified(steps.drop_last());
        let (step, status) = steps.last();
        if status == "COMPLETED_VERIFIED"@ && step > prev { step as nat } else { prev }
    }
}

fn owned_text(s: &str) -> (r: String)
    ensures
        r@ == s@,
{
    let mut r = String::new();
    push_str(&mut r, s);
    r
}

/// Model management decisions.
pub struct ModelManager;

impl ModelManager {
    /// The status a ladder step shows, given whether its file is complete,
    /// whether it is downloading, its download's last status, and the
    /// bytes on disk.
    pub fn ladder_step_status(complete: bool, downloading: bool, progress_status: Option<String>, size: u64) -> (r: String)
        ensures
            r@ == ladder_status(complete, downloading, match progress_status { Some(st) => Some(st@), None => None }, size),
    {
        if complete {
            return owned_text("COMPLETED_VERIFIED");
        }
        if downloading {
            return match progress_status {
                Some(st) => st,
                None => owned_text("QUEUED"),
            };
        }
        match progress_status {
            Some(st) => {
                let c = chars_of(st.as_str());
                if equals_str(&c, "FAILED") || equals_str(&c, "STOPPED") {
                    return st;
                }
            },
            None => {},
        }
        if size > 0 { owned_text("PARTIAL_DOWNLOAD") } else { owned_text("AVAILABLE") }
    }

    /// The highest step whose status is verified, or zero.
    pub fn active_ladder_step(steps: &Vec<(usize, String)>) -> (r: usize)
        ensures
            r as nat == highest_verified(steps@.map_values(|p: (usize, String)| (p.0, p.1@))),
    {
        let ghost sv = steps@.map_values(|p: (usize, String)| (p.0, p.1@));
        let mut best: usize = 0;
        let mut i: usize = 0;
        proof {
            assert(sv.take(0) =~= Seq::<(usize, Seq<char>)>::empty());
        }
        while i < steps.len()
            invariant
                i <= steps@.len(),
                sv == steps@.map_values(|p: (usize, String)| (p.0, p.1@)),
                best as nat == highest_verified(sv.take(i as int)),
            decreases steps.len() - i,
        {
            proof {
                assert(sv.take(i + 1).drop_last() =~= sv.take(i as int));
                assert(sv.take(i + 1).last() == (steps@[i as int].0, steps@[i as int].1@));
            }
            let verified = equals_str(&chars_of(steps[i].1.as_str()), "COMPLETED_VERIFIED");
            if verified && steps[i].0 > best {
                best = steps[i].0;
            }
            i = i + 1;
        }
        proof {
            assert(sv.take(i as int) =~= sv);
        }
        best
    }

    /// Never resolves below `min_complexity`: the more demanding of the
    /// heuristic level and the floor.
    pub fn resolve_complexity_floor(
        heuristic: TaskComplexity,
        min_complexity: Option<TaskComplexity>,
    ) -> (r: TaskComplexity)
        ensures
            r == resolved_complexity(heuristic, min_complexity),
    {
        match min_complexity {
            Some(floor) => if floor.level() > heuristic.level() {
                floor
            } else {
                heuristic
            },
            None => heuristic,
        }
    }

    /// A GGUF is complete when its header is valid and, where a managed
    /// minimum size is known, the file reaches it.
    pub fn is_complete_gguf(header_is_valid: bool, size_bytes: u64, minimum_bytes: Option<u64>) -> (b: bool)
        ensures
            b == (header_is_valid && match minimum_bytes {
                Some(m) => size_bytes >= m,
                None => true,
            }),
    {
        header_is_valid && match minimum_bytes {
            Some(minimum) => size_bytes >= minimum,
            None => true,
        }
    }

    /// Ladder indices to provision: `limit` (clamped to `1..=count`) tiers
    /// spread evenly from the smallest to the largest.
    pub fn provisioning_indices(count: usize, limit: usize) -> (r: Vec<usize>)
        requires
            count == 0 || (prefetch_tiers(count as nat, limit as nat) - 1) * (count - 1) <= usize::MAX,
        ensures
            r@.map_values(|x: usize| x as nat) == prefetch_plan(count as nat, limit as nat),
    {
        let mut r: Vec<usize> = Vec::new();
        if count == 0 {
            proof {
                assert(r@.map_values(|x: usize| x as nat) =~= prefetch_plan(count as nat, limit as nat));
            }
            return r;
        }
        let tiers = if limit < 1 {
            1
        } else if limit > count {
            count
        } else {
            limit
        };
        let mut i: usize = 0;
        while i < tiers
            invariant
                0 < count,
                tiers == prefetch_tiers(count as nat, limit as nat),
                (tiers - 1) * (count - 1) <= usize::MAX,
                i <= tiers,
                r@.len() == i,
                forall|j: int| 0 <= j < i ==> r@[j] as nat == prefetch_index(j as nat, count as nat, tiers as nat),
            decreases tiers - i,
        {
            let v = if tiers == 1 {
                0
            } else {
                proof {
                    assert(i * (count - 1) <= (tiers - 1) * (count - 1)) by (nonlinear_arith)
                        requires
                            i <= tiers - 1,
                            count >= 1;
                }
                i * (count - 1) / (tiers - 1)
            };
            r.push(v);
            i = i + 1;
        }
        proof {
            assert(r@.map_values(|x: usize| x as nat) =~= prefetch_plan(count as nat, limit as nat));
        }
        r
    }

    /// The first step of installing a model: a query that is not an HTTP(S)
    /// URL is only acknowledged; a URL (trimmed) is handed to the download
    /// controller.
    pub fn install_model(query_or_url: &str) -> (r: InstallStep)
        ensures
            seq_starts_with(trim(query_or_url@), "http"@) ==> (r matches InstallStep::StartDownload(t) && t@ == trim(query_or_url@)),
            !seq_starts_with(trim(query_or_url@), "http"@) ==> (r matches InstallStep::Reply(m)
                && m@ == "Installation enqueued (non-HTTP query)."@),
    {
        let chars = chars_of(query_or_url);
        let target = trimmed(&chars);
        let http = chars_of("http");
        if !starts_with(&target, &http) {
            let mut m = String::new();
            push_str(&mut m, "Installation enqueued (non-HTTP query).");
            return InstallStep::Reply(m);
        }
        InstallStep::StartDownload(string_of(&target))
    }

    /// The reply to an install request once the download controller
    /// answered: its message, or the error behind `ERROR: `.
    pub fn install_reply(outcome: Result<String, String>) -> (r: String)
        ensures
            match outcome {
                Ok(m) => r@ == m@,
                Err(e) => r@ == "ERROR: "@ + e@,
            },
    {
        match outcome {
            Ok(m) => m,
            Err(e) => {
                let mut s = String::new();
                push_str(&mut s, "ERROR: ");
                push_str(&mut s, e.as_str());
                s
            },
        }
    }

    /// The file name under which a download's progress is kept: the
    /// lowercase hexadecimal SHA-256 of its target, with `.json`.
    pub fn progress_file_name(target: &str) -> (r: String)
        ensures
            r@ == hex_lower(sha256_digest(encode_utf8(target@))) + ".json"@,
    {
        let digest = sha256(target.as_bytes());
        let mut name = hex_encode(digest.as_slice());
        push_str(&mut name, ".json");
        name
    }

    /// Whether a GGUF payload is complete: it holds at least one tensor and
    /// every tensor's data lies within the file.
    pub fn gguf_payload_fits(data_offset: u64, tensors: &Vec<TensorExtent>, file_len: u64) -> (b: bool)
        ensures
            b == (tensors@.len() > 0 && forall|i: int| 0 <= i < tensors@.len() ==> tensor_fits(#[trigger] tensors@[i], data_offset, file_len)),
    {
        if tensors.len() == 0 {
            return false;
        }
        let mut i: usize = 0;
        while i < tensors.len()
            invariant
                i <= tensors@.len(),
                forall|j: int| 0 <= j < i ==> tensor_fits(#[trigger] tensors@[j], data_offset, file_len),
            decreases tensors.len() - i,
        {
            if !Self::tensor_fits_file(&tensors[i], data_offset, file_len) {
                return false;
            }
            i = i + 1;
        }
        true
    }

    /// Whether one tensor's data lies within the file.
    fn tensor_fits_file(t: &TensorExtent, data_offset: u64, file_len: u64) -> (b: bool)
        ensures
            b == tensor_fits(*t, data_offset, file_len),
    {
        let mut elements: usize = 1;
        let mut k: usize = 0;
        while k < t.dims.len()
            invariant
                k <= t.dims@.len(),
                checked_product(t.dims@.take(k as int)) == Some(elements as nat),
            decreases t.dims.len() - k,
        {
            proof {
                assert(t.dims@.take(k + 1).drop_last() =~= t.dims@.take(k as int));
                assert(t.dims@.take(k + 1).last() == t.dims@[k as int]);
            }
            match elements.checked_mul(t.dims[k]) {
                Some(p) => elements = p,
                None => {
                    proof {
                        lemma_checked_product_stays_none(t.dims@, k as int + 1);
                    }
                    return false;
                },
            }
            k = k + 1;
        }
        proof {
            assert(t.dims@.take(t.dims@.len() as int) =~= t.dims@);
        }
        if elements == 0 || t.block_size == 0 || elements % t.block_size != 0 {
            return false;
        }
        let blocks = elements / t.block_size;
        let bytes = match blocks.checked_mul(t.type_size) {
            Some(b) => b,
            None => return false,
        };
        let start = match data_offset.checked_add(t.offset) {
            Some(s) => s,
            None => return false,
        };
        let end = match start.checked_add(bytes as u64) {
            Some(e) => e,
            None => return false,
        };
        end <= file_len
    }

    /// The largest ladder tier, or `fallback` when the ladder is empty.
    pub fn identify_best_ladder_step(ladder: &Vec<ModelLadderStep>, fallback: &ModelLadderStep) -> (r: ModelLadderStep)
        ensures
            r == if ladder@.len() > 0 { ladder@.last() } else { *fallback },
    {
        if ladder.len() > 0 {
            ladder[ladder.len() - 1].duplicate()
        } else {
            fallback.duplicate()
        }
    }
}

/// The escalation floor is never undercut: the resolved level is at least
/// the floor and at least the heuristic guess, and is one of the two.
pub proof fn law_floor_never_undercut(heuristic: TaskComplexity, floor: TaskComplexity)
    ensures
        ({
            let r = resolved_complexity(heuristic, Some(floor));
            &&& r.rank() >= floor.rank()
            &&& r.rank() >= heuristic.rank()
            &&& (r == floor || r == heuristic)
        }),
{
}

proof fn lemma_prefetch_index_bounds(i: nat, count: nat, tiers: nat)
    requires
        2 <= tiers <= count,
        i < tiers,
    ensures
        prefetch_index(i, count, tiers) < count,
        i == tiers - 1 ==> prefetch_index(i, count, tiers) == count - 1,
{
    let d = (tiers - 1) as int;
    let c = (count - 1) as int;
    assert(i * c <= d * c) by (nonlinear_arith)
        requires i <= d, c >= 0;
    assert(i * c / d <= c) by (nonlinear_arith)
        requires i * c <= d * c, d > 0, c >= 0;
    if i == tiers - 1 {
        assert(d * c / d == c) by (nonlinear_arith)
            requires d > 0;
    }
}

proof fn lemma_prefetch_index_strictly_increases(i: nat, j: nat, count: nat, tiers: nat)
    requires
        2 <= tiers <= count,
        i < j < tiers,
    ensures
        prefetch_index(i, count, tiers) < prefetch_index(j, count, tiers),
{
    let d = (tiers - 1) as int;
    let c = (count - 1) as int;
    assert(j * c - i * c >= d) by (nonlinear_arith)
        requires j - i >= 1, c >= d, d >= 1;
    assert(i * c / d < j * c / d) by (nonlinear_arith)
        requires j * c - i * c >= d, d >= 1, i * c >= 0;
}

/// A prefetch plan over a non-empty ladder starts at the smallest tier,
/// reaches the largest whenever it holds more than one tier, visits tiers in
/// strictly increasing order, and stays within the ladder; it holds `limit`
/// tiers, clamped to `1..=count`.
pub proof fn law_prefetch_plan_spans_ladder(count: nat, limit: nat)
    requires
        count > 0,
    ensures
        ({
            let plan = prefetch_plan(count, limit);
            &&& plan.len() == prefetch_tiers(count, limit)
            &&& 1 <= plan.len() <= count
            &&& plan[0] == 0
            &&& plan.len() > 1 ==> plan[plan.len() - 1] == count - 1
            &&& forall|i: int| 0 <= i < plan.len() ==> #[trigger] plan[i] < count
            &&& forall|i: int, j: int| 0 <= i < j < plan.len() ==> #[trigger] plan[i] < #[trigger] plan[j]
        }),
{
    let t = prefetch_tiers(count, limit);
    let plan = prefetch_plan(count, limit);
    if t >= 2 {
        assert forall|i: int| 0 <= i < plan.len() implies #[trigger] plan[i] < count by {
            lemma_prefetch_index_bounds(i as nat, count, t);
        }
        lemma_prefetch_index_bounds((t - 1) as nat, count, t);
        assert forall|i: int, j: int| 0 <= i < j < plan.len() implies #[trigger] plan[i] < #[trigger] plan[j] by {
            lemma_prefetch_index_strictly_increases(i as nat, j as nat, count, t);
        }
        assert(prefetch_index(0, count, t) == 0);
    }
}

/// Once a prefix's product overflows, every longer prefix's does too.
proof fn lemma_checked_product_stays_none(dims: Seq<usize>, k: int)
    requires
        0 <= k <= dims.len(),
        checked_product(dims.take(k)) is None,
    ensures
        checked_product(dims) is None,
    decreases dims.len() - k,
{
    if k < dims.len() {
        assert(dims.take(k + 1).drop_last() =~= dims.take(k));
        lemma_checked_product_stays_none(dims, k + 1);
    } else {
        assert(dims.take(k) =~= dims);
    }
}

/// Whether `target` and `base` both parse as URLs with the same origin
/// (scheme, host and port; an opaque origin matches nothing).
pub uninterp spec fn urls_share_origin(target: Seq<char>, base: Seq<char>) -> bool;

/// Parses both strings with `url::Url::parse` and compares their
/// `origin()`s; the answer is only known by the name `urls_share_origin`.
#[verifier::external_body]
fn same_origin(target: &str, base: &str) -> (b: bool)
    ensures
        b == urls_share_origin(target@, base@),
{
    match (url::Url::parse(target), url::Url::parse(base)) {
        (Ok(t), Ok(b)) => t.origin() == b.origin(),
        _ => false,
    }
}

/// Transfer errors that no retry can fix.
pub open spec fn permanent_markers() -> Seq<Seq<char>> {
    seq!["HTTP 400"@, "HTTP 401"@, "HTTP 403"@, "HTTP 404"@, "different source"@, "Insufficient free disk"@]
}

/// How a downloaded artifact is validated.
#[derive(Debug, Clone, Copy, PartialEq, Eq, Structural)]
pub enum ArtifactCheck {
    /// A GGUF whose tensors lie within the file.
    GgufPayload,
    /// A tokenizer file that loads.
    Tokenizer,
    /// Any non-empty file.
    NonEmpty,
}

/// What to do after one transfer attempt.
#[derive(Debug, Clone)]
pub enum DownloadStep {
    /// The artifact is downloaded and valid.
    Complete,
    /// Wait this many 100 ms ticks (stopping early on cancellation), then
    /// try again.
    Retry(u64),
    /// Give up with the last transfer error.
    GiveUp(String),
}

/// The retry state of one download.
#[derive(Debug, Clone)]
pub struct DownloadRetry {
    pub attempt: u32,
    pub attempts: u32,
    pub last_error: String,
}

impl DownloadRetry {
    /// Well-formed: between one and eight attempts, the current one among
    /// them.
    pub open spec fn wf(&self) -> bool {
        1 <= self.attempts <= 8 && self.attempt < self.attempts
    }

    /// A download allowed `configured` attempts, clamped to `1..=8`.
    pub fn new(configured: u32) -> (r: Self)
        ensures
            r.wf(),
            r.attempt == 0,
            r.attempts == if configured < 1 { 1 } else if configured > 8 { 8 } else { configured },
            r.last_error@ == Seq::<char>::empty(),
    {
        let attempts = if configured < 1 { 1 } else if configured > 8 { 8 } else { configured };
        DownloadRetry { attempt: 0, attempts, last_error: String::new() }
    }

    /// Records a transfer's result. Success completes the download. A
    /// failure is kept as the last error; it ends the download when it is
    /// permanent, when the download was cancelled, or after the last
    /// attempt; otherwise the next attempt follows a back-off of
    /// `2^attempt` seconds, in 100 ms ticks.
    pub fn record(&mut self, result: Result<(), String>, cancelled: bool) -> (r: DownloadStep)
        requires
            old(self).wf(),
        ensures
            final(self).attempts == old(self).attempts,
            match result {
                Ok(_) => r is Complete && *final(self) == *old(self),
                Err(e) => {
                    &&& final(self).last_error@ == e@
                    &&& if contains_any_of(e@, permanent_markers()) || cancelled
                        || old(self).attempt + 1 >= old(self).attempts {
                        r matches DownloadStep::GiveUp(m) && m@ == e@ && final(self).attempt == old(self).attempt
                    } else {
                        &&& r matches DownloadStep::Retry(t) && t == pow2(old(self).attempt as nat) * 10
                        &&& final(self).attempt == old(self).attempt + 1
                        &&& final(self).wf()
                    }
                },
            },
    {
        match result {
            Ok(()) => DownloadStep::Complete,
            Err(e) => {
                let ec = chars_of(e.as_str());
                let markers = permanent_marker_list();
                let permanent = contains_any(&ec, &markers);
                let mut kept = String::new();
                push_str(&mut kept, e.as_str());
                self.last_error = kept;
                if permanent || cancelled || self.attempt + 1 >= self.attempts {
                    DownloadStep::GiveUp(e)
                } else {
                    proof {
                        lemma_pow2_small(self.attempt as nat);
                    }
                    let ticks = (1u64 << self.attempt) * 10;
                    self.attempt = self.attempt + 1;
                    DownloadStep::Retry(ticks)
                }
            },
        }
    }
}

fn permanent_marker_list() -> (v: Vec<&'static str>)
    ensures
        views(v@) == permanent_markers(),
{
    let v = vec!["HTTP 400", "HTTP 401", "HTTP 403", "HTTP 404", "different source", "Insufficient free disk"];
    proof {
        assert(views(v@) =~= permanent_markers());
    }
    v
}

/// Two to the power `n`.
pub open spec fn pow2(n: nat) -> nat
    decreases n,
{
    if n == 0 { 1 } else { 2 * pow2((n - 1) as nat) }
}

proof fn lemma_pow2_small(n: nat)
    requires
        n < 8,
    ensures
        pow2(n) <= 128,
        (1u64 << n) == pow2(n),
{
    reveal_with_fuel(pow2, 9);
    assert((1u64 << 0u64) == 1) by (bit_vector);
    assert((1u64 << 1u64) == 2) by (bit_vector);
    assert((1u64 << 2u64) == 4) by (bit_vector);
    assert((1u64 << 3u64) == 8) by (bit_vector);
    assert((1u64 << 4u64) == 16) by (bit_vector);
    assert((1u64 << 5u64) == 32) by (bit_vector);
    assert((1u64 << 6u64) == 64) by (bit_vector);
    assert((1u64 << 7u64) == 128) by (bit_vector);
}

impl ModelManager {
    /// Whether a download target may be sent the hub token: it shares the
    /// configured hub's origin.
    pub fn is_trusted_origin(target: &str, hub_base_url: &str) -> (b: bool)
        ensures
            b == urls_share_origin(target@, hub_base_url@),
    {
        same_origin(target, hub_base_url)
    }

    /// How a downloaded artifact is validated, by its file name: GGUF
    /// payloads, tokenizer JSON, or anything non-empty.
    pub fn artifact_check(file_name: &str) -> (r: ArtifactCheck)
        ensures
            r == if seq_ends_with(file_name@, ".gguf"@) {
                ArtifactCheck::GgufPayload
            } else if seq_ends_with(file_name@, ".json"@) {
                ArtifactCheck::Tokenizer
            } else {
                ArtifactCheck::NonEmpty
            },
    {
        let f = chars_of(file_name);
        let gguf = chars_of(".gguf");
        let json = chars_of(".json");
        if ends_with(&f, &gguf) {
            ArtifactCheck::GgufPayload
        } else if ends_with(&f, &json) {
            ArtifactCheck::Tokenizer
        } else {
            ArtifactCheck::NonEmpty
        }
    }

    /// The progress status a download ends with when it does not complete.
    pub fn final_download_status(cancelled: bool) -> (r: &'static str)
        ensures
            r@ == if cancelled { "STOPPED"@ } else { "FAILED"@ },
    {
        if cancelled { "STOPPED" } else { "FAILED" }
    }
}

/// The extension `std::path::Path::extension` finds in a path's text.
pub uninterp spec fn path_extension(path: Seq<char>) -> Option<Seq<char>>;

/// Calls `std::path::Path::extension` on the text as a path; the result is
/// only known by the name `path_extension`.
#[verifier::external_body]
fn extension_of(path: &str) -> (r: Option<String>)
    ensures
        match path_extension(path@) {
            Some(e) => r matches Some(x) && x@ == e,
            None => r is None,
        },
{
    std::path::Path::new(path).extension().map(|e| e.to_string_lossy().to_string())
}

/// What model selection reads of a listed model: its id (a path for a
/// local file), whether it is local, and what the workspace shows of it:
/// whether it is cooling down after a failure, whether its GGUF payload is
/// valid, and whether its tokenizer is on hand.
#[derive(Debug, Clone)]
pub struct ModelCandidate {
    pub model_id: String,
    pub is_local: bool,
    pub cooling_down: bool,
    pub valid_payload: bool,
    pub has_tokenizer: bool,
}

/// A model selection may pick: a local, non-native GGUF file that is not
/// cooling down, with a valid payload and a tokenizer.
pub open spec fn selectable(m: ModelCandidate) -> bool {
    &&& m.is_local
    &&& !seq_contains(m.model_id@, "native"@)
    &&& path_extension(m.model_id@) == Some("gguf"@)
    &&& !m.cooling_down
    &&& m.valid_payload
    &&& m.has_tokenizer
}

/// The positions, in listing order, of the selectable models.
pub open spec fn selectable_positions(ms: Seq<ModelCandidate>) -> Seq<usize>
    decreases ms.len(),
{
    if ms.len() == 0 {
        Seq::empty()
    } else {
        selectable_positions(ms.drop_last()) + if selectable(ms.last()) {
            seq![(ms.len() - 1) as usize]
        } else {
            Seq::empty()
        }
    }
}

impl ModelManager {
    /// The models that selection may pick, by position in listing order:
    /// local, non-native GGUF files that are not cooling down, whose
    /// payload is valid and whose tokenizer is on hand. None at all means
    /// no model is selected.
    pub fn selectable_models(models: &Vec<ModelCandidate>) -> (r: Vec<usize>)
        ensures
            r@ == selectable_positions(models@),
    {
        let mut out: Vec<usize> = Vec::new();
        let mut i: usize = 0;
        proof {
            assert(models@.take(0) =~= Seq::<ModelCandidate>::empty());
        }
        while i < models.len()
            invariant
                i <= models@.len(),
                out@ == selectable_positions(models@.take(i as int)),
            decreases models.len() - i,
        {
            proof {
                assert(models@.take(i + 1).drop_last() =~= models@.take(i as int));
                assert(models@.take(i + 1).last() == models@[i as int]);
            }
            let m = &models[i];
            let native = crate::text::contains_str(&chars_of(m.model_id.as_str()), "native");
            let gguf = match extension_of(m.model_id.as_str()) {
                Some(e) => equals_str(&chars_of(e.as_str()), "gguf"),
                None => false,
            };
            if m.is_local && !native && gguf && !m.cooling_down && m.valid_payload && m.has_tokenizer {
                out.push(i);
            }
            i = i + 1;
        }
        proof {
            assert(models@.take(i as int) =~= models@);
        }
        out
    }
}

/// When each model last failed, in seconds on a monotonic clock: the
/// latest entry for a model counts.
#[derive(Debug, Clone)]
pub struct ModelFailureLog {
    pub entries: Vec<(String, u64)>,
}

/// When a model last failed, if it has not succeeded since.
pub open spec fn failure_time(es: Seq<(String, u64)>, model: Seq<char>) -> Option<u64>
    decreases es.len(),
{
    if es.len() == 0 {
        None
    } else if es.last().0@ == model {
        Some(es.last().1)
    } else {
        failure_time(es.drop_last(), model)
    }
}

/// A model is cooling down while less than `cooldown_secs` have passed
/// since its last failure.
pub open spec fn cooling(es: Seq<(String, u64)>, model: Seq<char>, now_secs: u64, cooldown_secs: u64) -> bool {
    match failure_time(es, model) {
        Some(t) => (if now_secs >= t { now_secs - t } else { 0 }) < cooldown_secs,
        None => false,
    }
}

impl ModelFailureLog {
    /// A log with no failures.
    pub fn new() -> (r: Self)
        ensures
            r.entries@.len() == 0,
    {
        ModelFailureLog { entries: Vec::new() }
    }
}

impl ModelManager {
    /// Records how an inference on `model` went: a success clears its
    /// failure, a failure records the time; other models keep theirs.
    pub fn record_inference_result(log: &mut ModelFailureLog, model: &str, success: bool, now_secs: u64)
        ensures
            failure_time(final(log).entries@, model@) == (if success { None } else { Some(now_secs) }),
            forall|m: Seq<char>| m != model@ ==> #[trigger] failure_time(final(log).entries@, m)
                == failure_time(old(log).entries@, m),
    {
        let ghost es = log.entries@;
        let mut kept: Vec<(String, u64)> = Vec::new();
        let mut i: usize = 0;
        while i < log.entries.len()
            invariant
                i <= es.len(),
                log.entries@ == es,
                forall|m: Seq<char>| #[trigger] failure_time(kept@, m)
                    == if m == model@ { None } else { failure_time(es.take(i as int), m) },
            decreases es.len() - i,
        {
            proof {
                assert(es.take(i + 1).drop_last() =~= es.take(i as int));
            }
            let same = equals_str(&chars_of(log.entries[i].0.as_str()), model);
            if !same {
                let name = string_of(&chars_of(log.entries[i].0.as_str()));
                let ghost before = kept@;
                kept.push((name, log.entries[i].1));
                proof {
                    assert(kept@.drop_last() =~= before);
                    assert(kept@.last().0@ == es[i as int].0@);
                    assert forall|m: Seq<char>| #[trigger] failure_time(kept@, m)
                        == if m == model@ { None } else { failure_time(es.take(i + 1), m) } by {
                        assert(es.take(i + 1).last() == es[i as int]);
                        assert(es.take(i + 1).drop_last() =~= es.take(i as int));
                        assert(failure_time(before, m) == if m == model@ { None } else { failure_time(es.take(i as int), m) });
                        if kept@.last().0@ == m {
                            assert(failure_time(kept@, m) == Some(kept@.last().1));
                        } else {
                            assert(failure_time(kept@, m) == failure_time(before, m));
                        }
                    }
                }
            } else {
                proof {
                    assert forall|m: Seq<char>| #[trigger] failure_time(kept@, m)
                        == if m == model@ { None } else { failure_time(es.take(i + 1), m) } by {
                        assert(es.take(i + 1).last() == es[i as int]);
                    }
                }
            }
            i = i + 1;
        }
        proof {
            assert(es.take(i as int) =~= es);
        }
        if !success {
            let ghost before = kept@;
            kept.push((string_of(&chars_of(model)), now_secs));
            proof {
                assert(kept@.drop_last() =~= before);
                assert forall|m: Seq<char>| m != model@ implies #[trigger] failure_time(kept@, m)
                    == failure_time(es, m) by {
                    assert(failure_time(before, m) == failure_time(es, m));
                }
            }
        }
        log.entries = kept;
    }

    /// Whether a model is cooling down after a failure.
    pub fn cooling_down(log: &ModelFailureLog, model: &str, now_secs: u64, cooldown_secs: u64) -> (b: bool)
        ensures
            b == cooling(log.entries@, model@, now_secs, cooldown_secs),
    {
        let mut i: usize = log.entries.len();
        proof {
            assert(log.entries@.take(i as int) =~= log.entries@);
        }
        while i > 0
            invariant
                i <= log.entries@.len(),
                failure_time(log.entries@, model@) == failure_time(log.entries@.take(i as int), model@),
            decreases i,
        {
            proof {
                assert(log.entries@.take(i as int).drop_last() =~= log.entries@.take(i - 1));
            }
            if equals_str(&chars_of(log.entries[i - 1].0.as_str()), model) {
                let t = log.entries[i - 1].1;
                let elapsed: u64 = if now_secs >= t { now_secs - t } else { 0 };
                return elapsed < cooldown_secs;
            }
            i = i - 1;
        }
        proof {
            assert(log.entries@.take(0) =~= Seq::<(String, u64)>::empty());
        }
        false
    }
}

/// A failed model cools down until it succeeds: right after a failure it
/// is cooling down (for any positive cooldown), and after a success it is
/// not.
pub proof fn law_failed_model_recovers(before: Seq<(String, u64)>, after_failure: Seq<(String, u64)>,
    after_success: Seq<(String, u64)>, model: Seq<char>, now_secs: u64, cooldown_secs: u64)
    requires
        failure_time(after_failure, model) == Some(now_secs),
        failure_time(after_success, model) == None::<u64>,
    ensures
        cooling(after_failure, model, now_secs, cooldown_secs) == (cooldown_secs > 0),
        !cooling(after_success, model, now_secs, cooldown_secs),
{
}

/// A model as the model list holds it.
#[derive(Debug, Clone)]
pub struct ListedModel {
    pub name: String,
    pub provider: String,
    pub model_id: String,
    pub description: String,
    pub is_local: bool,
}

/// Whether an id is among the first `n` models.
pub open spec fn id_listed(ms: Seq<ListedModel>, id: Seq<char>) -> bool {
    exists|j: int| 0 <= j < ms.len() && (#[trigger] ms[j]).model_id@ == id
}

/// The positions of the models kept when duplicates (by id) are dropped:
/// the first model with each id, in order.
pub open spec fn first_of_each_id(ms: Seq<ListedModel>) -> Seq<usize>
    decreases ms.len(),
{
    if ms.len() == 0 {
        Seq::empty()
    } else {
        first_of_each_id(ms.drop_last()) + if id_listed(ms.drop_last(), ms.last().model_id@) {
            Seq::empty()
        } else {
            seq![(ms.len() - 1) as usize]
        }
    }
}

/// Two listings of the same model: equal field by field.
pub open spec fn same_model(a: ListedModel, b: ListedModel) -> bool {
    &&& a.name@ == b.name@
    &&& a.provider@ == b.provider@
    &&& a.model_id@ == b.model_id@
    &&& a.description@ == b.description@
    &&& a.is_local == b.is_local
}

proof fn lemma_first_of_each_id_nonempty(ms: Seq<ListedModel>)
    requires
        ms.len() > 0,
    ensures
        first_of_each_id(ms).len() >= 1,
    decreases ms.len(),
{
    if ms.len() > 1 {
        lemma_first_of_each_id_nonempty(ms.drop_last());
    } else {
        assert(!id_listed(ms.drop_last(), ms.last().model_id@));
    }
}

/// The built-in native reasoning entry, listed when nothing else is.
pub open spec fn is_native_entry(m: ListedModel) -> bool {
    &&& m.name@ == "Native Rust Logic"@
    &&& m.provider@ == "SUSI Native"@
    &&& m.model_id@ == "susi-native-synthesis"@
    &&& m.description@ == "Deterministic protocol-level reasoning"@
    &&& m.is_local
}

/// The model a selection override names: the file's trimmed text, unless
/// it is empty or `auto`.
pub open spec fn override_name(content: Seq<char>) -> Option<Seq<char>> {
    let t = trim(content);
    if t.len() == 0 || t == "auto"@ { None } else { Some(t) }
}

/// Where a model's tokenizer is taken from.
#[derive(Debug, Clone, Copy, PartialEq, Eq, Structural)]
pub enum TokenizerSource {
    /// The tokenizer file named after the model.
    Dedicated,
    /// The configured tokenizer file beside the model.
    Sibling,
    /// The configured tokenizer file in the models directory.
    Shared,
}

fn text_of(s: &str) -> (r: String)
    ensures
        r@ == s@,
{
    let mut r = String::new();
    push_str(&mut r, s);
    r
}

impl ModelManager {
    /// The model list: the models found on the system with later
    /// duplicates of an id dropped; the built-in native entry when none
    /// was found.
    pub fn list_models(system_models: &Vec<ListedModel>) -> (r: Vec<ListedModel>)
        ensures
            system_models@.len() == 0 ==> r@.len() == 1 && is_native_entry(r@[0]),
            system_models@.len() > 0 ==> {
                let keep = first_of_each_id(system_models@);
                &&& r@.len() == keep.len()
                &&& forall|k: int| 0 <= k < keep.len() ==> same_model(#[trigger] r@[k], system_models@[keep[k] as int])
            },
    {
        let mut out: Vec<ListedModel> = Vec::new();
        let mut i: usize = 0;
        proof {
            assert(system_models@.take(0) =~= Seq::<ListedModel>::empty());
        }
        while i < system_models.len()
            invariant
                i <= system_models@.len(),
                out@.len() == first_of_each_id(system_models@.take(i as int)).len(),
                forall|k: int| 0 <= k < out@.len() ==> same_model(#[trigger] out@[k],
                    system_models@[first_of_each_id(system_models@.take(i as int))[k] as int]),
            decreases system_models.len() - i,
        {
            let ghost pre = system_models@.take(i as int);
            proof {
                assert(system_models@.take(i + 1).drop_last() =~= pre);
                assert(system_models@.take(i + 1).last() == system_models@[i as int]);
            }
            let id = chars_of(system_models[i].model_id.as_str());
            let mut seen = false;
            let mut j: usize = 0;
            while j < i
                invariant
                    j <= i < system_models@.len(),
                    pre == system_models@.take(i as int),
                    id@ == system_models@[i as int].model_id@,
                    seen == exists|q: int| 0 <= q < j && (#[trigger] pre[q]).model_id@ == id@,
                decreases i - j,
            {
                proof {
                    assert(pre[j as int] == system_models@[j as int]);
                }
                if equals_str(&id, system_models[j].model_id.as_str()) {
                    seen = true;
                }
                j = j + 1;
            }
            proof {
                assert(seen == id_listed(pre, system_models@[i as int].model_id@));
            }
            if !seen {
                let m = ListedModel {
                    name: text_of(system_models[i].name.as_str()),
                    provider: text_of(system_models[i].provider.as_str()),
                    model_id: text_of(system_models[i].model_id.as_str()),
                    description: text_of(system_models[i].description.as_str()),
                    is_local: system_models[i].is_local,
                };
                out.push(m);
            }
            i = i + 1;
        }
        proof {
            assert(system_models@.take(i as int) =~= system_models@);
            if system_models@.len() > 0 {
                lemma_first_of_each_id_nonempty(system_models@);
            }
        }
        if out.len() == 0 {
            out.push(ListedModel {
                name: text_of("Native Rust Logic"),
                provider: text_of("SUSI Native"),
                model_id: text_of("susi-native-synthesis"),
                description: text_of("Deterministic protocol-level reasoning"),
                is_local: true,
            });
        }
        out
    }

    /// The model a selection-override file names, if it names one.
    pub fn override_candidate(content: &str) -> (r: Option<String>)
        ensures
            match override_name(content@) {
                Some(n) => r matches Some(x) && x@ == n,
                None => r is None,
            },
    {
        let t = trimmed(&chars_of(content));
        if t.len() == 0 || equals_str(&t, "auto") {
            None
        } else {
            Some(string_of(&t))
        }
    }

    /// Where a model's tokenizer comes from: the file named after the model
    /// when it exists (and only if it is valid), else a valid configured
    /// tokenizer beside the model, else a valid one in the models
    /// directory.
    pub fn tokenizer_source(dedicated_exists: bool, dedicated_valid: bool, sibling_valid: Option<bool>, shared_valid: bool) -> (r: Option<TokenizerSource>)
        ensures
            r == (if dedicated_exists {
                if dedicated_valid { Some(TokenizerSource::Dedicated) } else { None }
            } else if sibling_valid == Some(true) {
                Some(TokenizerSource::Sibling)
            } else if shared_valid {
                Some(TokenizerSource::Shared)
            } else {
                None
            }),
    {
        if dedicated_exists {
            if dedicated_valid { Some(TokenizerSource::Dedicated) } else { None }
        } else if sibling_valid == Some(true) {
            Some(TokenizerSource::Sibling)
        } else if shared_valid {
            Some(TokenizerSource::Shared)
        } else {
            None
        }
    }
}

/// Some tag, lowercased, is exactly `t`.
pub open spec fn tagged(tags: Seq<Seq<char>>, t: Seq<char>) -> bool {
    exists|j: int| 0 <= j < tags.len() && lowercase(#[trigger] tags[j]) == t
}

/// Whether a model suits an intent, by its lowercased id and its tags:
/// coders for coding, math models for mathematics, instruct or reasoning
/// models for reasoning, chat models for creative work; never for general
/// prompts.
pub open spec fn suits_intent(intent: IntentCategory, id: Seq<char>, tags: Seq<Seq<char>>) -> bool {
    let l = lowercase(id);
    match intent {
        IntentCategory::Coding => seq_contains(l, "coder"@) || seq_contains(l, "code"@) || tagged(tags, "coding"@),
        IntentCategory::Mathematics => seq_contains(l, "math"@) || tagged(tags, "mathematics"@),
        IntentCategory::Reasoning => seq_contains(l, "instruct"@) || seq_contains(l, "reason"@) || tagged(tags, "reasoning"@),
        IntentCategory::Creative => seq_contains(l, "chat"@) || tagged(tags, "creative"@),
        IntentCategory::General => false,
    }
}

/// A model suits an intent by what its lowercased id names or what a tag
/// says: an id containing `code` (every coder among them) or a `coding` tag
/// suits coding; `math` or a `mathematics` tag suits mathematics;
/// `instruct`, `reason` or a `reasoning` tag suits reasoning; `chat` or a
/// `creative` tag suits creative work; no model suits a general prompt.
pub proof fn law_model_suits_intent_by_id_or_tag(id: Seq<char>, tags: Seq<Seq<char>>)
    ensures
        suits_intent(IntentCategory::Coding, id, tags)
            <==> (seq_contains(lowercase(id), "code"@) || tagged(tags, "coding"@)),
        suits_intent(IntentCategory::Mathematics, id, tags)
            <==> (seq_contains(lowercase(id), "math"@) || tagged(tags, "mathematics"@)),
        suits_intent(IntentCategory::Reasoning, id, tags)
            <==> (seq_contains(lowercase(id), "instruct"@) || seq_contains(lowercase(id), "reason"@)
                || tagged(tags, "reasoning"@)),
        suits_intent(IntentCategory::Creative, id, tags)
            <==> (seq_contains(lowercase(id), "chat"@) || tagged(tags, "creative"@)),
        !suits_intent(IntentCategory::General, id, tags),
{
    let l = lowercase(id);
    if seq_contains(l, "coder"@) {
        reveal_strlit("coder");
        reveal_strlit("code");
        let i = choose|i: int| crate::text::occurs_at(l, "coder"@, i);
        assert(l.subrange(i, i + 4) =~= l.subrange(i, i + 5).subrange(0, 4));
        assert(l.subrange(i, i + 4) =~= "code"@);
        assert(crate::text::occurs_at(l, "code"@, i));
    }
}

fn has_tag(tags: &Vec<String>, t: &str) -> (b: bool)
    ensures
        b == tagged(tags@.map_values(|x: String| x@), t@),
{
    let ghost tv = tags@.map_values(|x: String| x@);
    let mut i: usize = 0;
    while i < tags.len()
        invariant
            i <= tags@.len(),
            tv == tags@.map_values(|x: String| x@),
            forall|j: int| 0 <= j < i ==> lowercase(#[trigger] tv[j]) != t@,
        decreases tags.len() - i,
    {
        let l = lower_chars(tags[i].as_str());
        proof {
            assert(tv[i as int] == tags@[i as int]@);
        }
        if equals_str(&l, t) {
            return true;
        }
        i = i + 1;
    }
    false
}

impl ModelManager {
    /// Whether a model suits the intent a prompt was classified under, by
    /// its id and tags (each compared in lowercase).
    pub fn suits_intent(intent: IntentCategory, model_id: &str, tags: &Vec<String>) -> (b: bool)
        ensures
            b == suits_intent(intent, model_id@, tags@.map_values(|x: String| x@)),
    {
        let l = lower_chars(model_id);
        match intent {
            IntentCategory::Coding => contains_str(&l, "coder") || contains_str(&l, "code") || has_tag(tags, "coding"),
            IntentCategory::Mathematics => contains_str(&l, "math") || has_tag(tags, "mathematics"),
            IntentCategory::Reasoning => contains_str(&l, "instruct") || contains_str(&l, "reason") || has_tag(tags, "reasoning"),
            IntentCategory::Creative => contains_str(&l, "chat") || has_tag(tags, "creative"),
            IntentCategory::General => false,
        }
    }
}

} // verus!
