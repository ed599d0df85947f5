//! Hardware-aware decisions: memory pressure, capability strings and the
//! progressive model ladder a host can hold.
use vstd::prelude::*;
use crate::text::{decimal, push_decimal, push_str};

verus! {

/// A snapshot of the host's hardware.
#[derive(Debug, Clone)]
pub struct HardwareProfile {
    pub cpus: usize,
    pub cpu_brand: String,
    pub gpu_info: String,
    pub ram_gb: usize,
    pub available_ram_gb: usize,
    pub gpu_vram_gb: usize,
    pub swap_gb: usize,
    pub nvme_active: bool,
    pub acceleration_active: bool,
    pub native_acceleration: String,
    pub os_info: String,
    pub arch: String,
    pub disk_gb: usize,
    pub disk_usage_pct: u8,
    pub load_avg: String,
    pub uptime: String,
    pub hostname: String,
}

/// Result of an operating-system cache audit.
#[derive(Debug, Clone)]
pub struct OsCareReport {
    pub os_name: String,
    pub reclaimable_cache_bytes: u64,
    pub reclaimable_cache_formatted: String,
    pub status: String,
    pub recommendations: Vec<String>,
}

/// One configured tier of the model ladder. The RAM floor is held in
/// thousandths of a gigabyte.
#[derive(Debug, Clone)]
pub struct ModelLadderConfigStep {
    pub step: usize,
    pub label: String,
    pub hf_repo: String,
    pub hf_file: String,
    pub tokenizer_repo: String,
    pub min_ram_milli_gb: u64,
    pub min_bytes: u64,
    pub expected_bytes: u64,
}

impl ModelLadderConfigStep {
    /// A field-for-field copy.
    pub fn duplicate(&self) -> (r: Self)
        ensures
            r == *self,
    {
        ModelLadderConfigStep {
            step: self.step,
            label: self.label.clone(),
            hf_repo: self.hf_repo.clone(),
            hf_file: self.hf_file.clone(),
            tokenizer_repo: self.tokenizer_repo.clone(),
            min_ram_milli_gb: self.min_ram_milli_gb,
            min_bytes: self.min_bytes,
            expected_bytes: self.expected_bytes,
        }
    }
}

/// One tier of the ladder this host qualifies for.
#[derive(Debug, Clone)]
pub struct ModelLadderStep {
    pub step: usize,
    pub label: String,
    pub hf_repo: String,
    pub hf_file: String,
    pub tokenizer_repo: String,
    pub min_bytes: u64,
    pub expected_bytes: u64,
}

impl ModelLadderStep {
    /// A field-for-field copy.
    pub fn duplicate(&self) -> (r: Self)
        ensures
            r == *self,
    {
        ModelLadderStep {
            step: self.step,
            label: self.label.clone(),
            hf_repo: self.hf_repo.clone(),
            hf_file: self.hf_file.clone(),
            tokenizer_repo: self.tokenizer_repo.clone(),
            min_bytes: self.min_bytes,
            expected_bytes: self.expected_bytes,
        }
    }
}

/// Free disk space a download must leave behind.
pub const DISK_SAFETY_MARGIN_BYTES: u64 = 2_000_000_000;

/// A configured tier fits this host: enough RAM, and enough free disk for
/// the expected download plus the safety margin (saturating at `u64::MAX`).
pub open spec fn step_fits(s: ModelLadderConfigStep, ram_gb: nat, free_disk_bytes: nat) -> bool {
    &&& ram_gb * 1000 >= s.min_ram_milli_gb
    &&& free_disk_bytes >= if s.expected_bytes + DISK_SAFETY_MARGIN_BYTES > u64::MAX {
        u64::MAX as int
    } else {
        s.expected_bytes + DISK_SAFETY_MARGIN_BYTES
    }
}

/// The ladder entry made from a configured tier.
pub open spec fn ladder_step_of(s: ModelLadderConfigStep) -> ModelLadderStep {
    ModelLadderStep {
        step: s.step,
        label: s.label,
        hf_repo: s.hf_repo,
        hf_file: s.hf_file,
        tokenizer_repo: s.tokenizer_repo,
        min_bytes: s.min_bytes,
        expected_bytes: s.expected_bytes,
    }
}

/// Memory pressure above 90% of total RAM in use.
pub open spec fn oom_critical(ram_gb: nat, available_ram_gb: nat) -> bool {
    ram_gb != 0 && 10 * (ram_gb - available_ram_gb) > 9 * ram_gb
}

/// Hardware probes and the decisions taken from them.
pub struct HardwareProfiler;

impl HardwareProfiler {
    /// Whether more than 90% of the profile's RAM is in use (never for a
    /// profile that reports no RAM).
    pub fn check_oom_critical(profile: &HardwareProfile) -> (b: bool)
        requires
            profile.available_ram_gb <= profile.ram_gb,
        ensures
            b == oom_critical(profile.ram_gb as nat, profile.available_ram_gb as nat),
    {
        if profile.ram_gb == 0 {
            return false;
        }
        let used = (profile.ram_gb - profile.available_ram_gb) as u128;
        10 * used > 9 * (profile.ram_gb as u128)
    }

    /// Capability summary: `GPU` or `CPU`, the RAM size and the version,
    /// comma-separated, e.g. `GPU,32GB,1.2.0V`.
    pub fn get_caps_string(profile: &HardwareProfile, version: &str) -> (r: String)
        ensures
            r@ == (if profile.acceleration_active { "GPU"@ } else { "CPU"@ }) + ","@
                + decimal(profile.ram_gb as nat) + "GB,"@ + version@ + "V"@,
    {
        let mut caps = String::new();
        if profile.acceleration_active {
            push_str(&mut caps, "GPU");
        } else {
            push_str(&mut caps, "CPU");
        }
        push_str(&mut caps, ",");
        push_decimal(&mut caps, profile.ram_gb as u64);
        push_str(&mut caps, "GB,");
        push_str(&mut caps, version);
        push_str(&mut caps, "V");
        caps
    }

    /// Whether one configured tier fits `ram_gb` of RAM and `free_disk_bytes`.
    pub fn step_fits_hardware(s: &ModelLadderConfigStep, ram_gb: usize, free_disk_bytes: u64) -> (b: bool)
        ensures
            b == step_fits(*s, ram_gb as nat, free_disk_bytes as nat),
    {
        (ram_gb as u128) * 1000 >= s.min_ram_milli_gb as u128
            && free_disk_bytes >= s.expected_bytes.saturating_add(DISK_SAFETY_MARGIN_BYTES)
    }

    /// The configured tiers that fit this host's RAM and free disk, in
    /// configured order.
    pub fn filter_ladder_by_hardware(
        steps: &Vec<ModelLadderConfigStep>,
        ram_gb: usize,
        free_disk_bytes: u64,
    ) -> (r: Vec<ModelLadderConfigStep>)
        ensures
            r@ == steps@.filter(|s: ModelLadderConfigStep| step_fits(s, ram_gb as nat, free_disk_bytes as nat)),
    {
        let ghost pred = |s: ModelLadderConfigStep| step_fits(s, ram_gb as nat, free_disk_bytes as nat);
        let mut r: Vec<ModelLadderConfigStep> = Vec::new();
        let mut i: usize = 0;
        while i < steps.len()
            invariant
                i <= steps@.len(),
                pred == (|s: ModelLadderConfigStep| step_fits(s, ram_gb as nat, free_disk_bytes as nat)),
                r@ == steps@.take(i as int).filter(pred),
            decreases steps.len() - i,
        {
            proof {
                reveal_with_fuel(Seq::<_>::filter, 1);
                assert(steps@.take(i + 1).drop_last() =~= steps@.take(i as int));
            }
            if Self::step_fits_hardware(&steps[i], ram_gb, free_disk_bytes) {
                r.push(steps[i].duplicate());
            }
            i = i + 1;
        }
        proof {
            assert(steps@.take(steps@.len() as int) =~= steps@);
        }
        r
    }

    /// The ladder entry made from a configured tier.
    pub fn to_ladder_step(s: &ModelLadderConfigStep) -> (r: ModelLadderStep)
        ensures
            r == ladder_step_of(*s),
    {
        ModelLadderStep {
            step: s.step,
            label: s.label.clone(),
            hf_repo: s.hf_repo.clone(),
            hf_file: s.hf_file.clone(),
            tokenizer_repo: s.tokenizer_repo.clone(),
            min_bytes: s.min_bytes,
            expected_bytes: s.expected_bytes,
        }
    }

    /// The ladder this host can hold: the configured tiers that fit its RAM
    /// and free disk, in configured order. When none fits, a single step-1
    /// entry for `fallback`'s repository, whose size thresholds come from the
    /// first configured tier (1 GB / 5 GB when none is configured).
    pub fn get_progressive_model_ladder(
        config_steps: &Vec<ModelLadderConfigStep>,
        ram_gb: usize,
        free_disk_bytes: u64,
        fallback: &ModelLadderConfigStep,
    ) -> (r: Vec<ModelLadderStep>)
        ensures
            ({
                let q = config_steps@.filter(
                    |s: ModelLadderConfigStep| step_fits(s, ram_gb as nat, free_disk_bytes as nat),
                );
                &&& q.len() > 0 ==> r@ == q.map_values(|s: ModelLadderConfigStep| ladder_step_of(s))
                &&& q.len() == 0 ==> {
                    &&& r@.len() == 1
                    &&& r@[0].step == 1
                    &&& r@[0].label@ == "Minimum Viable Substrate (Config Fallback)"@
                    &&& r@[0].hf_repo == fallback.hf_repo
                    &&& r@[0].hf_file == fallback.hf_file
                    &&& r@[0].tokenizer_repo == fallback.tokenizer_repo
                    &&& r@[0].min_bytes == if config_steps@.len() > 0 {
                        config_steps@[0].min_bytes
                    } else {
                        1_000_000_000u64
                    }
                    &&& r@[0].expected_bytes == if config_steps@.len() > 0 {
                        config_steps@[0].expected_bytes
                    } else {
                        5_000_000_000u64
                    }
                }
            }),
    {
        let qualifying = Self::filter_ladder_by_hardware(config_steps, ram_gb, free_disk_bytes);
        let mut ladder: Vec<ModelLadderStep> = Vec::new();
        let mut i: usize = 0;
        while i < qualifying.len()
            invariant
                i <= qualifying@.len(),
                ladder@ == qualifying@.take(i as int).map_values(
                    |s: ModelLadderConfigStep| ladder_step_of(s),
                ),
            decreases qualifying.len() - i,
        {
            ladder.push(Self::to_ladder_step(&qualifying[i]));
            proof {
                assert(qualifying@.take(i + 1).map_values(
                    |s: ModelLadderConfigStep| ladder_step_of(s),
                ) =~= qualifying@.take(i as int).map_values(
                    |s: ModelLadderConfigStep| ladder_step_of(s),
                ).push(ladder_step_of(qualifying@[i as int])));
            }
            i = i + 1;
        }
        proof {
            assert(qualifying@.take(qualifying@.len() as int) =~= qualifying@);
        }
        if ladder.len() == 0 {
            let (min_bytes, expected_bytes) = if config_steps.len() > 0 {
                (config_steps[0].min_bytes, config_steps[0].expected_bytes)
            } else {
                (1_000_000_000u64, 5_000_000_000u64)
            };
            let mut label = String::new();
            push_str(&mut label, "Minimum Viable Substrate (Config Fallback)");
            proof {
                assert(label@ =~= "Minimum Viable Substrate (Config Fallback)"@);
            }
            ladder.push(ModelLadderStep {
                step: 1,
                label,
                hf_repo: fallback.hf_repo.clone(),
                hf_file: fallback.hf_file.clone(),
                tokenizer_repo: fallback.tokenizer_repo.clone(),
                min_bytes,
                expected_bytes,
            });
        }
        ladder
    }
}

/// The configured tiers kept for a host are exactly the ones that fit it:
/// each kept tier fits its RAM and free disk, every fitting tier is kept,
/// and nothing is added.
pub proof fn law_kept_tiers_fit_host(config_steps: Seq<ModelLadderConfigStep>, ram_gb: nat, free_disk_bytes: nat)
    ensures
        ({
            let kept = config_steps.filter(|s: ModelLadderConfigStep| step_fits(s, ram_gb, free_disk_bytes));
            &&& forall|i: int| 0 <= i < kept.len() ==> step_fits(#[trigger] kept[i], ram_gb, free_disk_bytes)
            &&& forall|i: int| 0 <= i < config_steps.len() && step_fits(config_steps[i], ram_gb, free_disk_bytes)
                ==> #[trigger] kept.contains(config_steps[i])
            &&& kept.len() <= config_steps.len()
        }),
{
    broadcast use vstd::seq_lib::group_filter_ensures;
    let pred = |s: ModelLadderConfigStep| step_fits(s, ram_gb, free_disk_bytes);
    let kept = config_steps.filter(pred);
    assert forall|i: int| 0 <= i < kept.len() implies step_fits(#[trigger] kept[i], ram_gb, free_disk_bytes) by {
        config_steps.lemma_filter_pred(pred, i);
    }
    assert forall|i: int| 0 <= i < config_steps.len() && step_fits(config_steps[i], ram_gb, free_disk_bytes)
        implies #[trigger] kept.contains(config_steps[i]) by {
        config_steps.lemma_filter_contains(pred, i);
    }
    config_steps.lemma_filter_len(pred);
}

/// A host with at least a tenth of its RAM available is never under
/// critical memory pressure, and one with less than a tenth always is.
pub proof fn law_oom_threshold(ram_gb: nat, available_ram_gb: nat)
    requires
        available_ram_gb <= ram_gb,
    ensures
        10 * available_ram_gb >= ram_gb ==> !oom_critical(ram_gb, available_ram_gb),
        10 * available_ram_gb < ram_gb ==> oom_critical(ram_gb, available_ram_gb),
{
}

/// What an operating-system cache audit found reclaimable: the package
/// cache (in full, past 500 MB), a quarter of the user cache (past 1 GB),
/// their sum, and the status that sum gives.
#[derive(Debug, Clone)]
pub struct OsCareFindings {
    pub pacman_reclaimable: Option<u64>,
    pub user_cache_reclaimable: Option<u64>,
    pub reclaimable_cache_bytes: u64,
    pub status: &'static str,
}

/// The package cache's reclaimable bytes, if it counts.
pub open spec fn pacman_share(bytes: Option<u64>) -> Option<u64> {
    match bytes {
        Some(b) => if b > 500_000_000 { Some(b) } else { None },
        None => None,
    }
}

/// The user cache's reclaimable bytes, if it counts.
pub open spec fn cache_share(bytes: Option<u64>) -> Option<u64> {
    match bytes {
        Some(b) => if b > 1_000_000_000 { Some((b / 4) as u64) } else { None },
        None => None,
    }
}

/// The bytes a share contributes.
pub open spec fn share_bytes(s: Option<u64>) -> nat {
    match s {
        Some(b) => b as nat,
        None => 0,
    }
}

/// A cache entry the clean-up removes: its name mentions `temp` or `tmp`.
pub open spec fn is_scratch_entry(name: Seq<char>) -> bool {
    crate::text::seq_contains(name, "temp"@) || crate::text::seq_contains(name, "tmp"@)
}

impl HardwareProfiler {
    /// Assesses the package cache and user cache sizes (each when the
    /// directory could be read).
    pub fn assess_os_caches(pacman_cache_bytes: Option<u64>, user_cache_bytes: Option<u64>) -> (r: OsCareFindings)
        requires
            share_bytes(pacman_share(pacman_cache_bytes)) + share_bytes(cache_share(user_cache_bytes)) <= u64::MAX,
        ensures
            r.pacman_reclaimable == pacman_share(pacman_cache_bytes),
            r.user_cache_reclaimable == cache_share(user_cache_bytes),
            r.reclaimable_cache_bytes as nat == share_bytes(pacman_share(pacman_cache_bytes)) + share_bytes(cache_share(user_cache_bytes)),
            r.status@ == if r.reclaimable_cache_bytes > 0 { "RECLAIMABLE_SPACE_DETECTED"@ } else { "OPTIMAL"@ },
    {
        let pacman = match pacman_cache_bytes {
            Some(b) => if b > 500_000_000 { Some(b) } else { None },
            None => None,
        };
        let cache = match user_cache_bytes {
            Some(b) => if b > 1_000_000_000 { Some(b / 4) } else { None },
            None => None,
        };
        let mut total: u64 = 0;
        match pacman {
            Some(b) => { total = total + b; },
            None => {},
        }
        match cache {
            Some(b) => { total = total + b; },
            None => {},
        }
        let status = if total > 0 { "RECLAIMABLE_SPACE_DETECTED" } else { "OPTIMAL" };
        OsCareFindings { pacman_reclaimable: pacman, user_cache_reclaimable: cache, reclaimable_cache_bytes: total, status }
    }

    /// The user-cache entries a clean-up removes, by position.
    pub fn scratch_entries(names: &Vec<String>) -> (r: Vec<usize>)
        ensures
            forall|k: int| 0 <= k < r@.len() ==> (r@[k] as int) < names@.len() && is_scratch_entry(names@[r@[k] as int]@),
            forall|i: int| 0 <= i < names@.len() && is_scratch_entry(#[trigger] names@[i]@) ==> r@.contains(i as usize),
            forall|a: int, b: int| 0 <= a < b < r@.len() ==> r@[a] < r@[b],
    {
        let mut out: Vec<usize> = Vec::new();
        let mut i: usize = 0;
        while i < names.len()
            invariant
                i <= names@.len(),
                forall|k: int| 0 <= k < out@.len() ==> (out@[k] as int) < i && is_scratch_entry(names@[out@[k] as int]@),
                forall|j: int| 0 <= j < i && is_scratch_entry(#[trigger] names@[j]@) ==> out@.contains(j as usize),
                forall|a: int, b: int| 0 <= a < b < out@.len() ==> out@[a] < out@[b],
            decreases names.len() - i,
        {
            let n = crate::text::chars_of(names[i].as_str());
            if crate::text::contains_str(&n, "temp") || crate::text::contains_str(&n, "tmp") {
                let ghost before = out@;
                out.push(i);
                proof {
                    assert forall|j: int| 0 <= j < i + 1 && is_scratch_entry(#[trigger] names@[j]@) implies out@.contains(j as usize) by {
                        if j < i {
                            let k = choose|k: int| 0 <= k < before.len() && before[k] == j as usize;
                            assert(out@[k] == j as usize);
                        } else {
                            assert(out@[out@.len() - 1] == i);
                        }
                    }
                }
            }
            i = i + 1;
        }
        out
    }

    /// The outcome of an operating-system clean-up: nothing to do when the
    /// audit found nothing reclaimable.
    pub fn os_clean_outcome(reclaimable_cache_bytes: u64) -> (r: &'static str)
        ensures
            r@ == if reclaimable_cache_bytes == 0 {
                "OS environment is already clean and optimal."@
            } else {
                "SUCCESS: Executed OS environment care. Reclaimed space across OS caches."@
            },
    {
        if reclaimable_cache_bytes == 0 {
            "OS environment is already clean and optimal."
        } else {
            "SUCCESS: Executed OS environment care. Reclaimed space across OS caches."
        }
    }
}

} // verus!
