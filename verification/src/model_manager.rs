//! The model manager: a single slot that holds at most one loaded
//! inference engine at a time, identified by its variant and model path.
//!
//! The heavyweight engine objects, the lock that shares the slot across
//! transcription calls, and the clock live in the driver; this state
//! machine decides when a request can reuse the loaded engine, when the
//! slot must be swapped, and when an idle engine is evicted. A load is a
//! two-step affair: `get_or_load` decides and clears the slot, the driver
//! performs the real load, and `commit_load` records its success — a
//! failed load leaves the slot empty, so the next request retries from a
//! clean state. Lock poisoning from a crashed inference call is modeled
//! as the `recover_from_poison` transition: the corrupted slot is
//! discarded and the manager returns to the unloaded state.

use crate::text::str_eq;
use vstd::prelude::*;

verus! {

/// The closed set of inference-engine implementations.
#[derive(Clone, Copy, Debug, PartialEq, Eq, Structural)]
pub enum EngineVariant {
    Parakeet,
    Whisper,
    Moonshine,
}

/// Moonshine model sizes, read from the model directory name.
#[derive(Clone, Copy, Debug, PartialEq, Eq, Structural)]
pub enum MoonshineVariant {
    Tiny,
    Base,
}

/// What a request must do next.
#[derive(Clone, Copy, Debug, PartialEq, Eq, Structural)]
pub enum AcquireDecision {
    /// The loaded engine already matches: use it, no load.
    UseExisting,
    /// The slot was cleared: perform the load, then commit it.
    MustLoad,
}

/// The engine currently held by the slot.
pub struct LoadedEngine {
    pub variant: EngineVariant,
    pub model_path: String,
}

/// Idle time after which the engine is evicted, in milliseconds.
pub const DEFAULT_IDLE_TIMEOUT_MS: u64 = 300000;

/// The manager's bookkeeping state. `load_count` and `unload_count`
/// record every committed load and every eviction, so contracts and
/// tests can observe that loads are amortized.
pub struct ModelManager {
    pub engine: Option<LoadedEngine>,
    pub last_activity_ms: u64,
    pub idle_timeout_ms: u64,
    pub load_count: u64,
    pub unload_count: u64,
}

/// The manager's state abstracted to its observable content.
pub struct ManagerView {
    pub slot: Option<(EngineVariant, Seq<char>)>,
    pub loads: int,
    pub unloads: int,
    pub last_activity_ms: int,
    pub idle_timeout_ms: int,
}

/// Whether the slot holds exactly the requested engine and model.
pub open spec fn slot_matches(e: Option<LoadedEngine>, variant: EngineVariant, path: Seq<char>) -> bool {
    match e {
        Some(l) => l.variant == variant && l.model_path@ == path,
        None => false,
    }
}

/// The manager seen as its abstract state.
pub open spec fn view_of(m: ModelManager) -> ManagerView {
    ManagerView {
        slot: match m.engine {
            Some(l) => Some((l.variant, l.model_path@)),
            None => None,
        },
        loads: m.load_count as int,
        unloads: m.unload_count as int,
        last_activity_ms: m.last_activity_ms as int,
        idle_timeout_ms: m.idle_timeout_ms as int,
    }
}

/// The acquisition decision: a matching slot is reused (touching the
/// activity clock); anything else unloads whatever is loaded and asks
/// the caller to load.
pub open spec fn spec_acquire(
    v: ManagerView,
    variant: EngineVariant,
    path: Seq<char>,
    now: int,
) -> (ManagerView, AcquireDecision) {
    if v.slot == Some((variant, path)) {
        (
            ManagerView {
                slot: v.slot,
                loads: v.loads,
                unloads: v.unloads,
                last_activity_ms: now,
                idle_timeout_ms: v.idle_timeout_ms,
            },
            AcquireDecision::UseExisting,
        )
    } else {
        (
            ManagerView {
                slot: None,
                loads: v.loads,
                unloads: v.unloads + if v.slot is Some {
                    1int
                } else {
                    0int
                },
                last_activity_ms: v.last_activity_ms,
                idle_timeout_ms: v.idle_timeout_ms,
            },
            AcquireDecision::MustLoad,
        )
    }
}

/// Recording a successful load into an empty slot.
pub open spec fn spec_commit(
    v: ManagerView,
    variant: EngineVariant,
    path: Seq<char>,
    now: int,
) -> ManagerView {
    ManagerView {
        slot: Some((variant, path)),
        loads: v.loads + 1,
        unloads: v.unloads,
        last_activity_ms: now,
        idle_timeout_ms: v.idle_timeout_ms,
    }
}

/// One whole `get_or_load` call: acquire, and if a load is needed, the
/// driver's load either succeeds (and is committed) or fails (and the
/// slot stays empty). The second component tells whether the call ended
/// with a ready engine.
pub open spec fn spec_get_or_load(
    v: ManagerView,
    variant: EngineVariant,
    path: Seq<char>,
    now: int,
    load_succeeds: bool,
) -> (ManagerView, bool) {
    let (v1, d) = spec_acquire(v, variant, path, now);
    if d is UseExisting {
        (v1, true)
    } else if load_succeeds {
        (spec_commit(v1, variant, path, now), true)
    } else {
        (v1, false)
    }
}

impl ModelManager {
    /// A fresh manager: nothing loaded, activity clock at `now_ms`, the
    /// default idle timeout.
    pub fn new(now_ms: u64) -> (m: ModelManager)
        ensures
            m.engine is None,
            m.last_activity_ms == now_ms,
            m.idle_timeout_ms == DEFAULT_IDLE_TIMEOUT_MS,
            m.load_count == 0,
            m.unload_count == 0,
    {
        ModelManager {
            engine: None,
            last_activity_ms: now_ms,
            idle_timeout_ms: DEFAULT_IDLE_TIMEOUT_MS,
            load_count: 0,
            unload_count: 0,
        }
    }

    /// Compares the request to the loaded engine: a match reuses it
    /// without any load; otherwise the current engine (if any) is
    /// unloaded, the slot is cleared, and the caller must load and then
    /// commit. The activity clock is refreshed only on reuse — a fresh
    /// load refreshes it at commit.
    pub fn get_or_load(&mut self, variant: EngineVariant, model_path: &str, now_ms: u64) -> (d:
        AcquireDecision)
        requires
            old(self).unload_count < u64::MAX,
        ensures
            (view_of(*final(self)), d) == spec_acquire(
                view_of(*old(self)),
                variant,
                model_path@,
                now_ms as int,
            ),
            d is UseExisting <==> slot_matches(old(self).engine, variant, model_path@),
    {
        let matches_slot = match &self.engine {
            Some(l) => l.variant == variant && str_eq(l.model_path.as_str(), model_path),
            None => false,
        };
        if matches_slot {
            self.last_activity_ms = now_ms;
            AcquireDecision::UseExisting
        } else {
            if self.engine.is_some() {
                self.unload_count = self.unload_count + 1;
            }
            self.engine = None;
            proof {
                assert(view_of(*self) == spec_acquire(
                    view_of(*old(self)),
                    variant,
                    model_path@,
                    now_ms as int,
                ).0);
            }
            AcquireDecision::MustLoad
        }
    }

    /// Records a successful load into the empty slot and refreshes the
    /// activity clock.
    pub fn commit_load(&mut self, variant: EngineVariant, model_path: String, now_ms: u64)
        requires
            old(self).engine is None,
            old(self).load_count < u64::MAX,
        ensures
            view_of(*final(self)) == spec_commit(
                view_of(*old(self)),
                variant,
                model_path@,
                now_ms as int,
            ),
            slot_matches(final(self).engine, variant, model_path@),
    {
        self.engine = Some(LoadedEngine { variant, model_path });
        self.load_count = self.load_count + 1;
        self.last_activity_ms = now_ms;
    }

    /// Explicit, immediate eviction: unloads the engine if one is
    /// loaded and clears the slot.
    pub fn unload_model(&mut self)
        requires
            old(self).unload_count < u64::MAX,
        ensures
            final(self).engine is None,
            final(self).unload_count == old(self).unload_count + if old(self).engine is Some {
                1int
            } else {
                0int
            },
            final(self).load_count == old(self).load_count,
            final(self).last_activity_ms == old(self).last_activity_ms,
            final(self).idle_timeout_ms == old(self).idle_timeout_ms,
    {
        if self.engine.is_some() {
            self.unload_count = self.unload_count + 1;
        }
        self.engine = None;
    }

    /// Milliseconds elapsed since the last activity, never negative.
    pub open spec fn spec_elapsed(&self, now_ms: int) -> int {
        if now_ms >= self.last_activity_ms {
            now_ms - self.last_activity_ms
        } else {
            0
        }
    }

    /// Evicts the engine when the idle timeout has passed since the last
    /// activity; otherwise changes nothing. Returns whether an engine
    /// was unloaded.
    pub fn unload_if_idle(&mut self, now_ms: u64) -> (unloaded: bool)
        requires
            old(self).unload_count < u64::MAX,
        ensures
            unloaded == (old(self).spec_elapsed(now_ms as int) > old(self).idle_timeout_ms
                && old(self).engine is Some),
            old(self).spec_elapsed(now_ms as int) > old(self).idle_timeout_ms
                ==> final(self).engine is None && final(self).unload_count == old(
                self,
            ).unload_count + if old(self).engine is Some {
                1int
            } else {
                0int
            },
            old(self).spec_elapsed(now_ms as int) <= old(self).idle_timeout_ms ==> *final(self)
                == *old(self),
            final(self).load_count == old(self).load_count,
            final(self).last_activity_ms == old(self).last_activity_ms,
            final(self).idle_timeout_ms == old(self).idle_timeout_ms,
    {
        let elapsed: u64 = if now_ms >= self.last_activity_ms {
            now_ms - self.last_activity_ms
        } else {
            0
        };
        if elapsed > self.idle_timeout_ms {
            let had = self.engine.is_some();
            if had {
                self.unload_count = self.unload_count + 1;
            }
            self.engine = None;
            had
        } else {
            false
        }
    }

    /// Acquisition of the Parakeet engine for a model path; the decision
    /// and bookkeeping of `get_or_load` with the Parakeet variant.
    pub fn get_or_load_parakeet(&mut self, model_path: &str, now_ms: u64) -> (d: AcquireDecision)
        requires
            old(self).unload_count < u64::MAX,
        ensures
            (view_of(*final(self)), d) == spec_acquire(
                view_of(*old(self)),
                EngineVariant::Parakeet,
                model_path@,
                now_ms as int,
            ),
    {
        self.get_or_load(EngineVariant::Parakeet, model_path, now_ms)
    }

    /// Acquisition of the Whisper engine for a model path.
    pub fn get_or_load_whisper(&mut self, model_path: &str, now_ms: u64) -> (d: AcquireDecision)
        requires
            old(self).unload_count < u64::MAX,
        ensures
            (view_of(*final(self)), d) == spec_acquire(
                view_of(*old(self)),
                EngineVariant::Whisper,
                model_path@,
                now_ms as int,
            ),
    {
        self.get_or_load(EngineVariant::Whisper, model_path, now_ms)
    }

    /// Acquisition of the Moonshine engine for a model path.
    pub fn get_or_load_moonshine(&mut self, model_path: &str, now_ms: u64) -> (d: AcquireDecision)
        requires
            old(self).unload_count < u64::MAX,
        ensures
            (view_of(*final(self)), d) == spec_acquire(
                view_of(*old(self)),
                EngineVariant::Moonshine,
                model_path@,
                now_ms as int,
            ),
    {
        self.get_or_load(EngineVariant::Moonshine, model_path, now_ms)
    }

    /// Recovery from a poisoned lock: the possibly corrupted engine is
    /// discarded (not unloaded) and the manager returns to the unloaded
    /// state, so the next request simply reloads.
    pub fn recover_from_poison(&mut self)
        ensures
            final(self).engine is None,
            final(self).load_count == old(self).load_count,
            final(self).unload_count == old(self).unload_count,
            final(self).last_activity_ms == old(self).last_activity_ms,
            final(self).idle_timeout_ms == old(self).idle_timeout_ms,
    {
        self.engine = None;
    }
}

/// Amortized loading: once a `get_or_load` for `(variant, path)` ends
/// with a ready engine, a second call with the identical pair reuses it
/// — it performs no load and no unload, whatever clock values the two
/// calls see.
pub proof fn lemma_get_or_load_amortized(
    v: ManagerView,
    variant: EngineVariant,
    path: Seq<char>,
    t1: int,
    t2: int,
    load_succeeds: bool,
)
    ensures
        ({
            let (v1, ok1) = spec_get_or_load(v, variant, path, t1, load_succeeds);
            ok1 ==> {
                let (v2, ok2) = spec_get_or_load(v1, variant, path, t2, false);
                &&& ok2
                &&& v2.loads == v1.loads
                &&& v2.unloads == v1.unloads
                &&& v2.slot == v1.slot
            }
        }),
{
}

/// Swapping models: when the slot holds a different engine or model, a
/// successful `get_or_load` performs exactly one unload followed by
/// exactly one load, and the slot then holds the new pair.
pub proof fn lemma_get_or_load_swap(
    v: ManagerView,
    variant: EngineVariant,
    path: Seq<char>,
    now: int,
)
    requires
        v.slot is Some,
        v.slot != Some((variant, path)),
    ensures
        ({
            let (v1, ok) = spec_get_or_load(v, variant, path, now, true);
            &&& ok
            &&& v1.unloads == v.unloads + 1
            &&& v1.loads == v.loads + 1
            &&& v1.slot == Some((variant, path))
        }),
{
}

/// A failed load leaves the slot empty rather than wedged: the next
/// request with a loadable model finds a clean state and succeeds.
pub proof fn lemma_failed_load_recovers(
    v: ManagerView,
    variant1: EngineVariant,
    path1: Seq<char>,
    variant2: EngineVariant,
    path2: Seq<char>,
    t1: int,
    t2: int,
)
    requires
        !(v.slot == Some((variant1, path1))),
    ensures
        ({
            let (v1, ok1) = spec_get_or_load(v, variant1, path1, t1, false);
            let (v2, ok2) = spec_get_or_load(v1, variant2, path2, t2, true);
            &&& !ok1
            &&& v1.slot is None
            &&& ok2
            &&& v2.slot == Some((variant2, path2))
        }),
{
}

/// Index of the first '-' at or after `from`, or the length if none.
pub open spec fn first_dash(s: Seq<char>, from: int) -> int
    decreases s.len() - from,
{
    if from < 0 || from >= s.len() {
        s.len() as int
    } else if s[from] == '-' {
        from
    } else {
        first_dash(s, from + 1)
    }
}

/// The text between the first and second '-' of the name (up to the end
/// if there is no second '-'); nothing if the name has no '-' at all.
pub open spec fn second_part(s: Seq<char>) -> Option<Seq<char>> {
    let d1 = first_dash(s, 0);
    if d1 == s.len() {
        None
    } else {
        Some(s.subrange(d1 + 1, first_dash(s, d1 + 1)))
    }
}

/// The Moonshine size named by a model directory like
/// "moonshine-base-en": the second dash-separated part picks the size,
/// and anything unrecognized defaults to the tiny model.
pub open spec fn spec_moonshine_variant(s: Seq<char>) -> MoonshineVariant {
    match second_part(s) {
        Some(p) => if p == "base"@ {
            MoonshineVariant::Base
        } else {
            MoonshineVariant::Tiny
        },
        None => MoonshineVariant::Tiny,
    }
}

/// Bounds of `first_dash`: it stays between `from` and the length, and
/// lands on a '-' when it is not the length.
pub proof fn lemma_first_dash_bounds(s: Seq<char>, from: int)
    requires
        0 <= from <= s.len(),
    ensures
        from <= first_dash(s, from) <= s.len(),
        first_dash(s, from) < s.len() ==> s[first_dash(s, from)] == '-',
    decreases s.len() - from,
{
    if from < s.len() && s[from] != '-' {
        lemma_first_dash_bounds(s, from + 1);
    }
}

/// Finds the first '-' at or after `from`, mirroring `first_dash`.
fn find_dash(s: &str, from: usize) -> (d: usize)
    requires
        from <= s@.len(),
    ensures
        d == first_dash(s@, from as int),
        from <= d <= s@.len(),
    decreases s@.len() - from,
{
    let n = s.unicode_len();
    let mut i = from;
    while i < n
        invariant
            n == s@.len(),
            from <= i <= n,
            first_dash(s@, from as int) == first_dash(s@, i as int),
        decreases n - i,
    {
        if s.get_char(i) == '-' {
            return i;
        }
        i += 1;
    }
    i
}

/// Reads the Moonshine size out of a model directory name, mirroring
/// `spec_moonshine_variant`.
pub fn moonshine_variant_from_dir(dir_name: &str) -> (v: MoonshineVariant)
    ensures
        v == spec_moonshine_variant(dir_name@),
{
    let n = dir_name.unicode_len();
    let d1 = find_dash(dir_name, 0);
    if d1 == n {
        return MoonshineVariant::Tiny;
    }
    proof {
        lemma_first_dash_bounds(dir_name@, 0);
    }
    let d2 = find_dash(dir_name, d1 + 1);
    let ghost part = dir_name@.subrange(d1 as int + 1, d2 as int);
    if d2 - d1 - 1 == 4 {
        let c0 = dir_name.get_char(d1 + 1);
        let c1 = dir_name.get_char(d1 + 2);
        let c2 = dir_name.get_char(d1 + 3);
        let c3 = dir_name.get_char(d1 + 4);
        if c0 == 'b' && c1 == 'a' && c2 == 's' && c3 == 'e' {
            proof {
                reveal_strlit("base");
                assert(part =~= "base"@);
            }
            MoonshineVariant::Base
        } else {
            proof {
                reveal_strlit("base");
                assert(part != "base"@) by {
                    if part == "base"@ {
                        assert(part[0] == 'b' && part[1] == 'a' && part[2] == 's' && part[3]
                            == 'e');
                    }
                }
            }
            MoonshineVariant::Tiny
        }
    } else {
        proof {
            reveal_strlit("base");
            assert(part.len() != 4);
        }
        MoonshineVariant::Tiny
    }
}

} // verus!
