//! Machine-level memory governance and the per-model lifecycle ledger.
//!
//! One [`Lifecycle`] per gateway holds the machine memory budget and a slot
//! per model: the bytes currently charged against the budget (a load-time
//! reservation until the first heartbeat, then the measured footprint), the
//! pool growth that was admitted but not confirmed yet, and the clock that
//! orders models by last use.
//!
//! When a load would exceed the budget, the least recently used model that is
//! loaded, not pinned and not inside its keep-alive lease is evicted first;
//! with no such candidate the load is rejected.

use crate::status::UnloadReason;
use crate::status::WorkerStatus;
use crate::sysmem::SystemMemory;
use crate::text;
use vstd::prelude::*;
use vstd::string::*;

verus! {

/// Orders for a supervision task.
#[derive(Debug, Clone, Copy, PartialEq, Eq, Structural)]
pub enum Command {
    /// (Re)load the model. A no-op while loaded; ignored while failed.
    Load,
    /// Unload the running worker.
    Unload { reason: UnloadReason },
}

/// What the ledger knows about one model.
#[derive(Debug)]
pub struct Slot {
    pub id: String,
    /// The status the supervision task last published.
    pub status: WorkerStatus,
    /// Never evicted while set.
    pub pinned: bool,
    /// Keep-alive lease: within this many seconds of last use the model is
    /// protected from eviction.
    pub ttl_seconds: Option<u64>,
    /// Bytes currently charged against the machine budget; 0 = not loaded.
    pub usage_bytes: u64,
    /// Milliseconds since the gateway's epoch of the last request activity.
    pub last_used_ms: u64,
    /// Full pool cost once materialized; 0 for workers without a pool.
    pub pool_commitment_bytes: u64,
    /// Pool bytes actually materialized so far.
    pub pool_materialized_bytes: u64,
    /// Pool growth admitted but not yet confirmed by a heartbeat.
    pub pool_reserved_bytes: u64,
    /// Pool commitment of the most recent READY, kept across unloads.
    pub known_pool_commitment_bytes: u64,
}

/// The slot of a model of which nothing is charged; a lease of 0 seconds is
/// none.
pub open spec fn is_fresh_slot(
    slot: Slot,
    id: Seq<char>,
    status: WorkerStatus,
    pinned: bool,
    ttl_seconds: u64,
) -> bool {
    &&& slot.id@ == id
    &&& slot == (Slot {
        id: slot.id,
        status,
        pinned,
        ttl_seconds: if ttl_seconds == 0 {
            None
        } else {
            Some(ttl_seconds)
        },
        usage_bytes: 0,
        last_used_ms: 0,
        pool_commitment_bytes: 0,
        pool_materialized_bytes: 0,
        pool_reserved_bytes: 0,
        known_pool_commitment_bytes: 0,
    })
}

/// Which bound an admission decision ran into.
#[derive(Debug, Clone, Copy, PartialEq, Eq, Structural)]
pub enum AdmitConstraint {
    /// The configured machine budget.
    Budget,
    /// Live availability minus the configured floor.
    SystemAvailability,
    /// The kernel reports elevated memory pressure.
    SystemPressure,
}

impl AdmitConstraint {
    pub open spec fn spec_label(self) -> Seq<char> {
        match self {
            AdmitConstraint::Budget => "budget"@,
            AdmitConstraint::SystemAvailability => "system_available"@,
            AdmitConstraint::SystemPressure => "system_pressure"@,
        }
    }

    /// Bounded label for `kiln_load_rejects_total{constraint}` and logs.
    pub fn label(self) -> (r: &'static str)
        ensures
            r@ == self.spec_label(),
    {
        match self {
            AdmitConstraint::Budget => "budget",
            AdmitConstraint::SystemAvailability => "system_available",
            AdmitConstraint::SystemPressure => "system_pressure",
        }
    }
}

/// Why a request was refused: admitting it could grow the worker by
/// `needed_bytes` but only `headroom_bytes` remain under `constraint`.
#[derive(Debug, Clone, Copy, PartialEq, Eq, Structural)]
pub struct MemoryDenial {
    pub needed_bytes: u64,
    pub headroom_bytes: u64,
    pub constraint: AdmitConstraint,
}

/// Why the load-time system gate refused.
#[derive(Debug, Clone, Copy, PartialEq, Eq, Structural)]
pub struct SystemDenial {
    pub needed_bytes: u64,
    pub available_bytes: u64,
    pub min_available_bytes: u64,
    pub swap_used_bytes: u64,
    pub pressure_level: u32,
    /// `SystemAvailability` or `SystemPressure`, never `Budget`.
    pub constraint: AdmitConstraint,
}

/// The budget, the system snapshot and one slot per model.
#[derive(Debug)]
pub struct Lifecycle {
    pub budget_bytes: u64,
    pub total_bytes: Option<u64>,
    /// Real availability that must remain after any admission; 0 disables
    /// the system gate.
    pub min_available_bytes: u64,
    /// Latest probe reading.
    pub system: Option<SystemMemory>,
    /// When it was taken; 0 = never probed.
    pub probed_at_ms: u64,
    /// At most one background probe is in flight.
    pub probe_inflight: bool,
    pub slots: Vec<Slot>,
}

/// The mathematical value of a [`Lifecycle`].
pub struct Ledger {
    pub budget_bytes: u64,
    pub total_bytes: Option<u64>,
    pub min_available_bytes: u64,
    pub system: Option<SystemMemory>,
    pub probed_at_ms: u64,
    pub probe_inflight: bool,
    pub slots: Seq<Slot>,
}

/// The sum of a sequence of numbers.
pub open spec fn total(s: Seq<int>) -> int
    decreases s.len(),
{
    if s.len() == 0 {
        0
    } else {
        total(s.drop_last()) + s.last()
    }
}

/// `a - b`, or 0 where that is negative.
pub open spec fn minus(a: int, b: int) -> int {
    if a <= b {
        0
    } else {
        a - b
    }
}

pub open spec fn usage_of(slots: Seq<Slot>) -> Seq<int> {
    Seq::new(slots.len(), |i: int| slots[i].usage_bytes as int)
}

pub open spec fn reserved_of(slots: Seq<Slot>) -> Seq<int> {
    Seq::new(slots.len(), |i: int| slots[i].pool_reserved_bytes as int)
}

/// Replacing one summand changes the sum by the difference.
pub proof fn lemma_total_update(s: Seq<int>, i: int, x: int)
    requires
        0 <= i < s.len(),
    ensures
        total(s.update(i, x)) == total(s) - s[i] + x,
    decreases s.len(),
{
    let t = s.update(i, x);
    if i == s.len() - 1 {
        assert(t.drop_last() =~= s.drop_last());
    } else {
        lemma_total_update(s.drop_last(), i, x);
        assert(t.drop_last() =~= s.drop_last().update(i, x));
    }
}

/// A sum of non-negative numbers is at least each of its partial sums.
pub proof fn lemma_total_take(s: Seq<int>, n: int)
    requires
        0 <= n <= s.len(),
        forall|i: int| 0 <= i < s.len() ==> s[i] >= 0,
    ensures
        0 <= total(s.take(n)) <= total(s),
    decreases s.len(),
{
    if s.len() == 0 {
        assert(s.take(n) =~= s);
    } else if n == s.len() {
        assert(s.take(n) =~= s);
        lemma_total_take(s.drop_last(), n - 1);
        assert(s.drop_last().take(n - 1) =~= s.drop_last());
    } else {
        lemma_total_take(s.drop_last(), n);
        assert(s.drop_last().take(n) =~= s.take(n));
    }
}

impl Ledger {
    /// No model has two slots.
    pub open spec fn ids_distinct(self) -> bool {
        forall|i: int, j: int|
            0 <= i < j < self.slots.len() ==> (#[trigger] self.slots[i]).id@ != (
            #[trigger] self.slots[j]).id@
    }

    pub open spec fn has(self, id: Seq<char>) -> bool {
        exists|i: int| 0 <= i < self.slots.len() && (#[trigger] self.slots[i]).id@ == id
    }

    /// Where the model's slot stands.
    pub open spec fn at(self, id: Seq<char>) -> int {
        choose|i: int| 0 <= i < self.slots.len() && (#[trigger] self.slots[i]).id@ == id
    }

    pub open spec fn slot(self, id: Seq<char>) -> Slot {
        self.slots[self.at(id)]
    }

    /// The ledger with the model's slot replaced.
    pub open spec fn with_slot(self, id: Seq<char>, slot: Slot) -> Ledger {
        Ledger { slots: self.slots.update(self.at(id), slot), ..self }
    }

    /// Measured footprints and load-time reservations.
    pub open spec fn used(self) -> int {
        total(usage_of(self.slots))
    }

    /// Admission reservations not yet confirmed by heartbeats.
    pub open spec fn reserved(self) -> int {
        total(reserved_of(self.slots))
    }

    /// Everything the budget currently owes.
    pub open spec fn charged(self) -> int {
        self.used() + self.reserved()
    }

    /// The two sums can be held in 64 bits.
    pub open spec fn sums_fit(self) -> bool {
        self.used() <= u64::MAX && self.reserved() <= u64::MAX
    }

    /// Pool growth that serving the model can still trigger and that no
    /// reservation covers.
    pub open spec fn growth(self, id: Seq<char>) -> int {
        let s = self.slot(id);
        minus(
            minus(s.pool_commitment_bytes as int, s.pool_materialized_bytes as int),
            s.pool_reserved_bytes as int,
        )
    }

    /// What the budget can still give out.
    pub open spec fn budget_headroom(self) -> int {
        minus(self.budget_bytes as int, self.charged())
    }

    /// What a machine with this reading can still give out.
    pub open spec fn system_headroom(self, memory: SystemMemory) -> int {
        minus(
            minus(memory.available_bytes as int, self.min_available_bytes as int),
            self.reserved(),
        )
    }

    /// Whether the system gate has a reading to go by.
    pub open spec fn gated(self) -> bool {
        self.min_available_bytes > 0 && self.system is Some
    }

    /// The tighter of the bounds on new growth.
    pub open spec fn headroom(self) -> int {
        if self.gated() && self.system_headroom(self.system->0) < self.budget_headroom() {
            self.system_headroom(self.system->0)
        } else {
            self.budget_headroom()
        }
    }

    pub open spec fn constraint(self) -> AdmitConstraint {
        if self.gated() && self.system_headroom(self.system->0) < self.budget_headroom() {
            AdmitConstraint::SystemAvailability
        } else {
            AdmitConstraint::Budget
        }
    }

    /// The decision on a request for the model.
    pub open spec fn decision(self, id: Seq<char>) -> Result<(), MemoryDenial> {
        if !self.has(id) || self.growth(id) == 0 {
            Ok(())
        } else if self.gated() && self.system->0.spec_pressure_elevated() {
            Err(
                MemoryDenial {
                    needed_bytes: self.growth(id) as u64,
                    headroom_bytes: 0,
                    constraint: AdmitConstraint::SystemPressure,
                },
            )
        } else if self.growth(id) <= self.headroom() {
            Ok(())
        } else {
            Err(
                MemoryDenial {
                    needed_bytes: self.growth(id) as u64,
                    headroom_bytes: self.headroom() as u64,
                    constraint: self.constraint(),
                },
            )
        }
    }

    /// The ledger after that decision: an admitted request reserves its growth.
    pub open spec fn after_admit(self, id: Seq<char>) -> Ledger {
        if self.has(id) && self.decision(id) is Ok {
            let s = self.slot(id);
            self.with_slot(
                id,
                Slot {
                    pool_reserved_bytes: (s.pool_reserved_bytes + self.growth(id)) as u64,
                    ..s
                },
            )
        } else {
            self
        }
    }

    /// The ledger after a heartbeat reported `bytes` of pool.
    pub open spec fn after_materialized(self, id: Seq<char>, bytes: u64) -> Ledger {
        if self.has(id) {
            let s = self.slot(id);
            let outstanding = minus(s.pool_commitment_bytes as int, bytes as int);
            self.with_slot(
                id,
                Slot {
                    pool_materialized_bytes: bytes,
                    pool_reserved_bytes: if s.pool_reserved_bytes <= outstanding {
                        s.pool_reserved_bytes
                    } else {
                        outstanding as u64
                    },
                    ..s
                },
            )
        } else {
            self
        }
    }

    /// The bytes of that heartbeat's growth that no admission had priced.
    pub open spec fn uncovered(self, id: Seq<char>, bytes: u64) -> int {
        if self.has(id) && self.slot(id).pool_commitment_bytes > 0 {
            minus(
                minus(bytes as int, self.slot(id).pool_materialized_bytes as int),
                self.slot(id).pool_reserved_bytes as int,
            )
        } else {
            0
        }
    }

    /// The ledger after the pool share of a load became a reservation.
    pub open spec fn after_reserve_room(self, id: Seq<char>) -> Ledger {
        if self.has(id) {
            let s = self.slot(id);
            let outstanding = minus(
                s.pool_commitment_bytes as int,
                s.pool_materialized_bytes as int,
            );
            self.with_slot(
                id,
                Slot {
                    pool_reserved_bytes: if s.pool_reserved_bytes >= outstanding {
                        s.pool_reserved_bytes
                    } else {
                        outstanding as u64
                    },
                    ..s
                },
            )
        } else {
            self
        }
    }

    /// The ledger with the model's status published.
    pub open spec fn after_status(self, id: Seq<char>, status: WorkerStatus) -> Ledger {
        if self.has(id) {
            self.with_slot(id, Slot { status, ..self.slot(id) })
        } else {
            self
        }
    }

    /// The ledger with the model used at `now_ms`.
    pub open spec fn after_touch(self, id: Seq<char>, now_ms: u64) -> Ledger {
        if self.has(id) {
            self.with_slot(id, Slot { last_used_ms: now_ms, ..self.slot(id) })
        } else {
            self
        }
    }

    /// How long the model has been idle.
    pub open spec fn idle(self, id: Seq<char>, now_ms: u64) -> int {
        if self.has(id) {
            minus(now_ms as int, self.slot(id).last_used_ms as int)
        } else {
            0
        }
    }

    /// The pool commitment remembered for the model.
    pub open spec fn known_commitment(self, id: Seq<char>) -> u64 {
        if self.has(id) {
            self.slot(id).known_pool_commitment_bytes
        } else {
            0
        }
    }

    /// The ledger with `bytes` charged for the model.
    pub open spec fn after_usage(self, id: Seq<char>, bytes: u64) -> Ledger {
        if self.has(id) {
            self.with_slot(id, Slot { usage_bytes: bytes, ..self.slot(id) })
        } else {
            self
        }
    }

    /// The ledger after the model's worker is gone.
    pub open spec fn after_clear(self, id: Seq<char>) -> Ledger {
        if self.has(id) {
            self.with_slot(
                id,
                Slot {
                    usage_bytes: 0,
                    pool_commitment_bytes: 0,
                    pool_materialized_bytes: 0,
                    pool_reserved_bytes: 0,
                    ..self.slot(id)
                },
            )
        } else {
            self
        }
    }

    /// The ledger with the model's pool commitment recorded.
    pub open spec fn after_commitment(self, id: Seq<char>, bytes: u64) -> Ledger {
        if self.has(id) {
            let s = self.slot(id);
            self.with_slot(
                id,
                Slot {
                    pool_commitment_bytes: bytes,
                    known_pool_commitment_bytes: if bytes > 0 {
                        bytes
                    } else {
                        s.known_pool_commitment_bytes
                    },
                    ..s
                },
            )
        } else {
            self
        }
    }

    /// Whether the machine's memory is to be read again.
    pub open spec fn probe_due(self, now_ms: u64, max_age_ms: u64) -> bool {
        &&& self.min_available_bytes > 0
        &&& !self.probe_inflight
        &&& self.probed_at_ms == 0 || minus(now_ms as int, self.probed_at_ms as int) >= max_age_ms
    }

    /// The ledger after a probe came back, with a reading or without.
    pub open spec fn after_probe(self, memory: Option<SystemMemory>, now_ms: u64) -> Ledger {
        match memory {
            Some(m) => Ledger {
                system: Some(m),
                probed_at_ms: now_ms,
                probe_inflight: false,
                ..self
            },
            None => Ledger { probe_inflight: false, ..self },
        }
    }

    /// The ledger with the model pinned, or not.
    pub open spec fn after_pin(self, id: Seq<char>, pinned: bool) -> Ledger {
        if self.has(id) {
            self.with_slot(id, Slot { pinned, ..self.slot(id) })
        } else {
            self
        }
    }

    /// The system gate's decision on `needed` bytes, given a reading.
    pub open spec fn system_denial(self, memory: SystemMemory, needed: u64) -> Option<
        SystemDenial,
    > {
        let denial = SystemDenial {
            needed_bytes: needed,
            available_bytes: memory.available_bytes,
            min_available_bytes: self.min_available_bytes,
            swap_used_bytes: memory.swap_used_bytes,
            pressure_level: memory.pressure_level,
            constraint: AdmitConstraint::SystemPressure,
        };
        if memory.spec_pressure_elevated() {
            Some(denial)
        } else if needed > self.system_headroom(memory) {
            Some(SystemDenial { constraint: AdmitConstraint::SystemAvailability, ..denial })
        } else {
            None
        }
    }
}

/// Whether evicting this slot may make room for `exclude`.
pub open spec fn evictable(s: Slot, exclude: Seq<char>, now_ms: u64) -> bool {
    &&& s.id@ != exclude
    &&& !s.pinned
    &&& s.usage_bytes > 0
    &&& s.status == WorkerStatus::Ready
    &&& match s.ttl_seconds {
        None => true,
        Some(ttl) => minus(now_ms as int, s.last_used_ms as int) >= ttl * 1000,
    }
}

impl View for Lifecycle {
    type V = Ledger;

    open spec fn view(&self) -> Ledger {
        Ledger {
            budget_bytes: self.budget_bytes,
            total_bytes: self.total_bytes,
            min_available_bytes: self.min_available_bytes,
            system: self.system,
            probed_at_ms: self.probed_at_ms,
            probe_inflight: self.probe_inflight,
            slots: self.slots@,
        }
    }
}

impl Lifecycle {
    /// No model has two slots.
    pub open spec fn wf(self) -> bool {
        self@.ids_distinct()
    }

    /// A ledger over the given budget with no model in it.
    pub fn new(budget_bytes: u64, total_bytes: Option<u64>, min_available_bytes: u64) -> (r: Self)
        ensures
            r.wf(),
            r@ == (Ledger {
                budget_bytes,
                total_bytes,
                min_available_bytes,
                system: None,
                probed_at_ms: 0,
                probe_inflight: false,
                slots: Seq::empty(),
            }),
    {
        Lifecycle {
            budget_bytes,
            total_bytes,
            min_available_bytes,
            system: None,
            probed_at_ms: 0,
            probe_inflight: false,
            slots: Vec::new(),
        }
    }

    fn find(&self, id: &str) -> (r: Option<usize>)
        requires
            self.wf(),
        ensures
            match r {
                Some(i) => i < self.slots@.len() && self@.has(id@) && i == self@.at(id@)
                    && self.slots@[i as int].id@ == id@,
                None => !self@.has(id@),
            },
    {
        let mut i: usize = 0;
        while i < self.slots.len()
            invariant
                self.wf(),
                i <= self.slots@.len(),
                forall|j: int| 0 <= j < i ==> (#[trigger] self.slots@[j]).id@ != id@,
            decreases self.slots@.len() - i,
        {
            if text::same(self.slots[i].id.as_str(), id) {
                assert(self@.slots[i as int].id@ == id@);
                assert(self@.has(id@));
                return Some(i);
            }
            i = i + 1;
        }
        None
    }

    pub fn budget_bytes(&self) -> (r: u64)
        ensures
            r == self@.budget_bytes,
    {
        self.budget_bytes
    }

    pub fn total_bytes(&self) -> (r: Option<u64>)
        ensures
            r == self@.total_bytes,
    {
        self.total_bytes
    }

    pub fn min_available_bytes(&self) -> (r: u64)
        ensures
            r == self@.min_available_bytes,
    {
        self.min_available_bytes
    }

    /// The latest reading.
    pub fn system_memory(&self) -> (r: Option<SystemMemory>)
        ensures
            r == self@.system,
    {
        self.system
    }

    /// Adds the slot of a model with nothing charged. `false` when the id
    /// already has one: never an overwrite.
    pub fn add_slot(
        &mut self,
        id: &str,
        status: WorkerStatus,
        pinned: bool,
        ttl_seconds: u64,
    ) -> (added: bool)
        requires
            old(self).wf(),
        ensures
            final(self).wf(),
            added == !old(self)@.has(id@),
            !added ==> final(self)@ == old(self)@,
            added ==> {
                &&& final(self)@.slots.len() == old(self)@.slots.len() + 1
                &&& final(self)@.slots.drop_last() == old(self)@.slots
                &&& final(self)@ == (Ledger { slots: final(self)@.slots, ..old(self)@ })
                &&& is_fresh_slot(
                    final(self)@.slots.last(),
                    id@,
                    status,
                    pinned,
                    ttl_seconds,
                )
            },
    {
        if self.find(id).is_some() {
            return false;
        }
        let ttl: Option<u64> = if ttl_seconds == 0 {
            None
        } else {
            Some(ttl_seconds)
        };
        self.slots.push(
            Slot {
                id: id.to_owned(),
                status,
                pinned,
                ttl_seconds: ttl,
                usage_bytes: 0,
                last_used_ms: 0,
                pool_commitment_bytes: 0,
                pool_materialized_bytes: 0,
                pool_reserved_bytes: 0,
                known_pool_commitment_bytes: 0,
            },
        );
        assert(self@.slots.drop_last() =~= old(self)@.slots);
        assert forall|i: int, j: int| 0 <= i < j < self@.slots.len() implies (
        #[trigger] self@.slots[i]).id@ != (#[trigger] self@.slots[j]).id@ by {
            assert(self@.slots[i] == old(self)@.slots[i]);
            if j < old(self)@.slots.len() {
                assert(self@.slots[j] == old(self)@.slots[j]);
            }
        }
        true
    }

    /// Whether the two sums can be held in 64 bits.
    pub fn sums_fit(&self) -> (r: bool)
        ensures
            r == self@.sums_fit(),
    {
        let mut used: u128 = 0;
        let mut reserved: u128 = 0;
        let mut i: usize = 0;
        let n: usize = self.slots.len();
        while i < n
            invariant
                n == self.slots@.len(),
                i <= n,
                used == total(usage_of(self.slots@).take(i as int)),
                reserved == total(reserved_of(self.slots@).take(i as int)),
                used <= i * u64::MAX,
                reserved <= i * u64::MAX,
            decreases n - i,
        {
            proof {
                let u = usage_of(self.slots@);
                let v = reserved_of(self.slots@);
                assert(u.take(i + 1).drop_last() =~= u.take(i as int));
                assert(v.take(i + 1).drop_last() =~= v.take(i as int));
                assert(i * u64::MAX + u64::MAX <= u128::MAX) by (nonlinear_arith)
                    requires
                        i < u64::MAX,
                ;
                assert((i + 1) * u64::MAX == i * u64::MAX + u64::MAX) by (nonlinear_arith);
            }
            used = used + self.slots[i].usage_bytes as u128;
            reserved = reserved + self.slots[i].pool_reserved_bytes as u128;
            i = i + 1;
        }
        assert(usage_of(self.slots@).take(n as int) =~= usage_of(self.slots@));
        assert(reserved_of(self.slots@).take(n as int) =~= reserved_of(self.slots@));
        used <= u64::MAX as u128 && reserved <= u64::MAX as u128
    }

    /// Sum of bytes charged from measured footprints and load-time
    /// reservations.
    pub fn used_bytes(&self) -> (r: u64)
        requires
            self@.used() <= u64::MAX,
        ensures
            r == self@.used(),
    {
        let mut sum: u64 = 0;
        let mut i: usize = 0;
        while i < self.slots.len()
            invariant
                i <= self.slots@.len(),
                sum == total(usage_of(self.slots@).take(i as int)),
                self@.used() <= u64::MAX,
            decreases self.slots@.len() - i,
        {
            proof {
                let u = usage_of(self.slots@);
                lemma_total_take(u, i + 1);
                assert(u.take(i + 1).drop_last() =~= u.take(i as int));
            }
            sum = sum + self.slots[i].usage_bytes;
            i = i + 1;
        }
        assert(usage_of(self.slots@).take(i as int) =~= usage_of(self.slots@));
        sum
    }

    /// Admission reservations not yet confirmed by heartbeats.
    pub fn reserved_bytes(&self) -> (r: u64)
        requires
            self@.reserved() <= u64::MAX,
        ensures
            r == self@.reserved(),
    {
        let mut sum: u64 = 0;
        let mut i: usize = 0;
        while i < self.slots.len()
            invariant
                i <= self.slots@.len(),
                sum == total(reserved_of(self.slots@).take(i as int)),
                self@.reserved() <= u64::MAX,
            decreases self.slots@.len() - i,
        {
            proof {
                let u = reserved_of(self.slots@);
                lemma_total_take(u, i + 1);
                assert(u.take(i + 1).drop_last() =~= u.take(i as int));
            }
            sum = sum + self.slots[i].pool_reserved_bytes;
            i = i + 1;
        }
        assert(reserved_of(self.slots@).take(i as int) =~= reserved_of(self.slots@));
        sum
    }

    /// Everything the budget currently owes. This is what every admission
    /// decision prices against, so decisions racing on stale footprints
    /// cannot jointly overshoot.
    pub fn charged_bytes(&self) -> (r: u64)
        requires
            self@.sums_fit(),
        ensures
            r == (if self@.charged() <= u64::MAX {
                self@.charged()
            } else {
                u64::MAX as int
            }),
    {
        let used: u64 = self.used_bytes();
        let reserved: u64 = self.reserved_bytes();
        used.saturating_add(reserved)
    }

    /// Stores a probe reading.
    pub fn store_system_memory(&mut self, memory: SystemMemory, now_ms: u64)
        ensures
            final(self)@ == (Ledger {
                system: Some(memory),
                probed_at_ms: now_ms,
                ..old(self)@
            }),
    {
        self.system = Some(memory);
        self.probed_at_ms = now_ms;
    }

    /// Health-poll hook: whether to start a background probe now. True when
    /// the system check is on, the snapshot is missing or at least `max_age_ms` old,
    /// and no other probe is in flight; the probe then counts as in flight.
    pub fn begin_probe(&mut self, now_ms: u64, max_age_ms: u64) -> (r: bool)
        ensures
            r == old(self)@.probe_due(now_ms, max_age_ms),
            final(self)@ == (Ledger {
                probe_inflight: old(self)@.probe_inflight || r,
                ..old(self)@
            }),
    {
        if self.min_available_bytes == 0 {
            return false;
        }
        if self.probed_at_ms > 0 && now_ms.saturating_sub(self.probed_at_ms) < max_age_ms {
            return false;
        }
        if self.probe_inflight {
            return false;
        }
        self.probe_inflight = true;
        true
    }

    /// The background probe came back: its reading, if it made one, replaces
    /// the snapshot; a failed probe leaves the previous one in place.
    pub fn finish_probe(&mut self, memory: Option<SystemMemory>, now_ms: u64)
        ensures
            final(self)@ == old(self)@.after_probe(memory, now_ms),
    {
        if let Some(m) = memory {
            self.store_system_memory(m, now_ms);
        }
        self.probe_inflight = false;
    }

    /// System-gate policy over one probe reading: refuse when the kernel
    /// already reports elevated pressure, or when granting `needed_bytes`
    /// would leave less than the configured floor. Outstanding reservations
    /// are subtracted from availability: admitted growth that has not
    /// materialized is invisible to the system but will claim real bytes.
    pub fn system_denial(&self, memory: SystemMemory, needed_bytes: u64) -> (r: Option<
        SystemDenial,
    >)
        requires
            self@.sums_fit(),
        ensures
            r == self@.system_denial(memory, needed_bytes),
    {
        let denial: SystemDenial = SystemDenial {
            needed_bytes,
            available_bytes: memory.available_bytes,
            min_available_bytes: self.min_available_bytes,
            swap_used_bytes: memory.swap_used_bytes,
            pressure_level: memory.pressure_level,
            constraint: AdmitConstraint::SystemPressure,
        };
        if memory.pressure_elevated() {
            return Some(denial);
        }
        let headroom: u64 = memory.available_bytes.saturating_sub(
            self.min_available_bytes,
        ).saturating_sub(self.reserved_bytes());
        if needed_bytes > headroom {
            Some(SystemDenial { constraint: AdmitConstraint::SystemAvailability, ..denial })
        } else {
            None
        }
    }

    /// Load-time system gate: prices `projected_bytes` against a fresh probe
    /// reading. Fails open when the system check is off or there is no reading.
    pub fn admit_load_system(
        &mut self,
        projected_bytes: u64,
        probe: Option<SystemMemory>,
        now_ms: u64,
    ) -> (r: Result<(), SystemDenial>)
        requires
            old(self)@.sums_fit(),
        ensures
            final(self)@ == (if old(self)@.min_available_bytes > 0 && probe is Some {
                Ledger { system: probe, probed_at_ms: now_ms, ..old(self)@ }
            } else {
                old(self)@
            }),
            match r {
                Ok(()) => old(self)@.min_available_bytes == 0 || probe is None
                    || old(self)@.system_denial(probe->0, projected_bytes) is None,
                Err(denial) => old(self)@.min_available_bytes > 0 && probe is Some
                    && old(self)@.system_denial(probe->0, projected_bytes) == Some(denial),
            },
    {
        if self.min_available_bytes == 0 {
            return Ok(());
        }
        match probe {
            None => Ok(()),
            Some(memory) => {
                self.store_system_memory(memory, now_ms);
                match self.system_denial(memory, projected_bytes) {
                    Some(denial) => Err(denial),
                    None => Ok(()),
                }
            },
        }
    }

    /// The status the model last published; `None` for an unknown model.
    pub fn status(&self, id: &str) -> (r: Option<WorkerStatus>)
        requires
            self.wf(),
        ensures
            r == (if self@.has(id@) {
                Some(self@.slot(id@).status)
            } else {
                None
            }),
    {
        match self.find(id) {
            Some(i) => Some(self.slots[i].status),
            None => None,
        }
    }

    /// Publishes the model's status to the ledger.
    pub fn set_status(&mut self, id: &str, status: WorkerStatus)
        requires
            old(self).wf(),
        ensures
            final(self).wf(),
            final(self)@ == old(self)@.after_status(id@, status),
    {
        if let Some(i) = self.find(id) {
            self.slots[i].status = status;
            assert(self@.slots =~= old(self)@.with_slot(
                id@,
                Slot { status, ..old(self)@.slot(id@) },
            ).slots);
        }
    }

    /// Marks the model as just used: resets both its eviction position and
    /// its idle clock.
    pub fn touch(&mut self, id: &str, now_ms: u64)
        requires
            old(self).wf(),
        ensures
            final(self).wf(),
            final(self)@ == old(self)@.after_touch(id@, now_ms),
            final(self)@.sums_fit() == old(self)@.sums_fit(),
    {
        if let Some(i) = self.find(id) {
            self.slots[i].last_used_ms = now_ms;
            assert(self@.slots =~= old(self)@.with_slot(
                id@,
                Slot { last_used_ms: now_ms, ..old(self)@.slot(id@) },
            ).slots);
            assert(usage_of(self@.slots) =~= usage_of(old(self)@.slots));
            assert(reserved_of(self@.slots) =~= reserved_of(old(self)@.slots));
        }
    }

    /// Milliseconds since last use; 0 for an unknown model.
    pub fn idle(&self, id: &str, now_ms: u64) -> (r: u64)
        requires
            self.wf(),
        ensures
            r == self@.idle(id@, now_ms),
    {
        match self.find(id) {
            Some(i) => now_ms.saturating_sub(self.slots[i].last_used_ms),
            None => 0,
        }
    }

    /// The order that (re)loads an unloaded model; nothing unless the model
    /// is currently unloaded.
    pub fn request_load(&self, id: &str) -> (r: Option<Command>)
        requires
            self.wf(),
        ensures
            r == (if self@.has(id@) && self@.slot(id@).status is Unloaded {
                Some(Command::Load)
            } else {
                None
            }),
    {
        match self.find(id) {
            Some(i) => match self.slots[i].status {
                WorkerStatus::Unloaded { .. } => Some(Command::Load),
                _ => None,
            },
            None => None,
        }
    }

    /// The order that loads a model at startup, whatever its status.
    pub fn boot_load(&self, id: &str) -> (r: Option<Command>)
        requires
            self.wf(),
        ensures
            r == (if self@.has(id@) {
                Some(Command::Load)
            } else {
                None
            }),
    {
        match self.find(id) {
            Some(_) => Some(Command::Load),
            None => None,
        }
    }

    /// The order that unloads a model on operator request; nothing for an
    /// unknown model.
    pub fn request_unload(&self, id: &str) -> (r: Option<Command>)
        requires
            self.wf(),
        ensures
            r == (if self@.has(id@) {
                Some(Command::Unload { reason: UnloadReason::Admin })
            } else {
                None
            }),
    {
        match self.find(id) {
            Some(_) => Some(Command::Unload { reason: UnloadReason::Admin }),
            None => None,
        }
    }

    /// The order that evicts a model; nothing for an unknown model.
    pub fn evict(&self, victim: &str) -> (r: Option<Command>)
        requires
            self.wf(),
        ensures
            r == (if self@.has(victim@) {
                Some(Command::Unload { reason: UnloadReason::Evicted })
            } else {
                None
            }),
    {
        match self.find(victim) {
            Some(_) => Some(Command::Unload { reason: UnloadReason::Evicted }),
            None => None,
        }
    }

    /// Whether the model is pinned; `None` for an unknown model.
    pub fn pinned(&self, id: &str) -> (r: Option<bool>)
        requires
            self.wf(),
        ensures
            r == (if self@.has(id@) {
                Some(self@.slot(id@).pinned)
            } else {
                None
            }),
    {
        match self.find(id) {
            Some(i) => Some(self.slots[i].pinned),
            None => None,
        }
    }

    /// Toggles eviction pinning at runtime; `false` for an unknown model.
    pub fn set_pinned(&mut self, id: &str, pinned: bool) -> (known: bool)
        requires
            old(self).wf(),
        ensures
            final(self).wf(),
            known == old(self)@.has(id@),
            final(self)@ == old(self)@.after_pin(id@, pinned),
    {
        match self.find(id) {
            Some(i) => {
                self.slots[i].pinned = pinned;
                assert(self@.slots =~= old(self)@.with_slot(
                    id@,
                    Slot { pinned, ..old(self)@.slot(id@) },
                ).slots);
                true
            },
            None => false,
        }
    }

    /// Bytes currently charged for one model; 0 when not loaded or unknown.
    pub fn model_usage_bytes(&self, id: &str) -> (r: u64)
        requires
            self.wf(),
        ensures
            r == (if self@.has(id@) {
                self@.slot(id@).usage_bytes
            } else {
                0
            }),
    {
        match self.find(id) {
            Some(i) => self.slots[i].usage_bytes,
            None => 0,
        }
    }

    /// Charges `bytes` for the model.
    pub fn record_usage(&mut self, id: &str, bytes: u64)
        requires
            old(self).wf(),
        ensures
            final(self).wf(),
            final(self)@ == old(self)@.after_usage(id@, bytes),
    {
        if let Some(i) = self.find(id) {
            self.slots[i].usage_bytes = bytes;
            assert(self@.slots =~= old(self)@.after_usage(id@, bytes).slots);
        }
    }

    /// Releases the model's bytes, its pool projection and any pending
    /// reservation. The remembered commitment stays.
    pub fn clear_usage(&mut self, id: &str)
        requires
            old(self).wf(),
        ensures
            final(self).wf(),
            final(self)@ == old(self)@.after_clear(id@),
    {
        if let Some(i) = self.find(id) {
            self.slots[i].usage_bytes = 0;
            self.slots[i].pool_commitment_bytes = 0;
            self.slots[i].pool_materialized_bytes = 0;
            self.slots[i].pool_reserved_bytes = 0;
            assert(self@.slots =~= old(self)@.after_clear(id@).slots);
        }
    }

    /// Records the worker's full pool cost, and remembers it across unloads
    /// for the next load's pricing.
    pub fn set_pool_commitment(&mut self, id: &str, bytes: u64)
        requires
            old(self).wf(),
        ensures
            final(self).wf(),
            final(self)@ == old(self)@.after_commitment(id@, bytes),
    {
        if let Some(i) = self.find(id) {
            self.slots[i].pool_commitment_bytes = bytes;
            if bytes > 0 {
                self.slots[i].known_pool_commitment_bytes = bytes;
            }
            assert(self@.slots =~= old(self)@.after_commitment(id@, bytes).slots);
        }
    }

    /// Pool commitment remembered from the model's most recent READY.
    pub fn known_pool_commitment_bytes(&self, id: &str) -> (r: u64)
        requires
            self.wf(),
        ensures
            r == self@.known_commitment(id@),
    {
        match self.find(id) {
            Some(i) => self.slots[i].known_pool_commitment_bytes,
            None => 0,
        }
    }

    /// Converts the pool share of a load projection into a reservation.
    /// Growth already reserved on the same cold pool is absorbed, never
    /// charged twice.
    pub fn reserve_pool_room(&mut self, id: &str)
        requires
            old(self).wf(),
        ensures
            final(self).wf(),
            final(self)@ == old(self)@.after_reserve_room(id@),
    {
        if let Some(i) = self.find(id) {
            let outstanding: u64 = self.slots[i].pool_commitment_bytes.saturating_sub(
                self.slots[i].pool_materialized_bytes,
            );
            if self.slots[i].pool_reserved_bytes < outstanding {
                self.slots[i].pool_reserved_bytes = outstanding;
            }
            assert(self@.slots =~= old(self)@.after_reserve_room(id@).slots);
        }
    }

    /// Records the pool bytes a heartbeat reports as materialized and
    /// reconciles the reservation: it shrinks to the growth still
    /// outstanding. Returns the bytes of growth that no reservation covered.
    pub fn record_pool_materialized(&mut self, id: &str, bytes: u64) -> (uncovered: u64)
        requires
            old(self).wf(),
        ensures
            final(self).wf(),
            final(self)@ == old(self)@.after_materialized(id@, bytes),
            uncovered == old(self)@.uncovered(id@, bytes),
    {
        match self.find(id) {
            None => 0,
            Some(i) => {
                let commitment: u64 = self.slots[i].pool_commitment_bytes;
                let previous: u64 = self.slots[i].pool_materialized_bytes;
                let reserved: u64 = self.slots[i].pool_reserved_bytes;
                let delta: u64 = bytes.saturating_sub(previous);
                let uncovered: u64 = if delta > reserved && commitment > 0 {
                    delta - reserved
                } else {
                    0
                };
                let outstanding: u64 = commitment.saturating_sub(bytes);
                self.slots[i].pool_materialized_bytes = bytes;
                if reserved > outstanding {
                    self.slots[i].pool_reserved_bytes = outstanding;
                }
                assert(self@.slots =~= old(self)@.after_materialized(id@, bytes).slots);
                uncovered
            },
        }
    }

    /// Per-request admission: serving a request on this worker may
    /// materialize the rest of its pool. The projected growth must fit the
    /// tighter of the budget's headroom and the machine's, and a passing
    /// admission reserves it, so that it is visible to the next decision.
    /// Workers without pool geometry are not gated, and a fully materialized
    /// pool always passes.
    pub fn admit_request(&mut self, id: &str) -> (r: Result<(), MemoryDenial>)
        requires
            old(self).wf(),
            old(self)@.sums_fit(),
        ensures
            final(self).wf(),
            final(self)@.sums_fit(),
            r == old(self)@.decision(id@),
            final(self)@ == old(self)@.after_admit(id@),
    {
        match self.find(id) {
            None => Ok(()),
            Some(i) => {
                let growth: u64 = self.slots[i].pool_commitment_bytes.saturating_sub(
                    self.slots[i].pool_materialized_bytes,
                ).saturating_sub(self.slots[i].pool_reserved_bytes);
                if growth == 0 {
                    assert(self@.slots =~= old(self)@.after_admit(id@).slots);
                    return Ok(());
                }
                let charged: u64 = self.charged_bytes();
                let mut headroom: u64 = self.budget_bytes.saturating_sub(charged);
                let mut constraint: AdmitConstraint = AdmitConstraint::Budget;
                if self.min_available_bytes > 0 {
                    if let Some(memory) = self.system {
                        if memory.pressure_elevated() {
                            return Err(
                                MemoryDenial {
                                    needed_bytes: growth,
                                    headroom_bytes: 0,
                                    constraint: AdmitConstraint::SystemPressure,
                                },
                            );
                        }
                        let system_headroom: u64 = memory.available_bytes.saturating_sub(
                            self.min_available_bytes,
                        ).saturating_sub(self.reserved_bytes());
                        if system_headroom < headroom {
                            headroom = system_headroom;
                            constraint = AdmitConstraint::SystemAvailability;
                        }
                    }
                }
                if growth <= headroom {
                    let reserved: u64 = self.slots[i].pool_reserved_bytes;
                    self.slots[i].pool_reserved_bytes = reserved + growth;
                    proof {
                        lemma_total_update(
                            reserved_of(old(self)@.slots),
                            i as int,
                            reserved + growth,
                        );
                        assert(self@.slots =~= old(self)@.after_admit(id@).slots);
                        assert(usage_of(self@.slots) =~= usage_of(old(self)@.slots));
                        assert(reserved_of(self@.slots) =~= reserved_of(old(self)@.slots).update(
                            i as int,
                            reserved + growth,
                        ));
                        lemma_total_take(usage_of(old(self)@.slots), 0);
                    }
                    return Ok(());
                }
                Err(MemoryDenial { needed_bytes: growth, headroom_bytes: headroom, constraint })
            },
        }
    }

    /// The eviction candidate that was used least recently, excluding the
    /// model asking for room. `None` means that the load must be rejected.
    pub fn pick_victim(&self, exclude: &str, now_ms: u64) -> (r: Option<String>)
        requires
            self.wf(),
        ensures
            match r {
                Some(victim) => {
                    &&& self@.has(victim@)
                    &&& evictable(self@.slot(victim@), exclude@, now_ms)
                    &&& forall|j: int|
                        0 <= j < self@.slots.len() && evictable(
                            #[trigger] self@.slots[j],
                            exclude@,
                            now_ms,
                        ) ==> self@.slot(victim@).last_used_ms <= self@.slots[j].last_used_ms
                    &&& victim@ != exclude@
                    &&& self@.slot(victim@).id@ == victim@
                    &&& self@.slot(victim@).status is Ready
                    &&& !self@.slot(victim@).pinned
                    &&& self@.slot(victim@).usage_bytes > 0
                    &&& match self@.slot(victim@).ttl_seconds {
                        Some(t) => t > 0 ==> self@.slot(victim@).last_used_ms + t * 1_000
                            <= now_ms,
                        None => true,
                    }
                },
                None => forall|j: int|
                    0 <= j < self@.slots.len() ==> !evictable(
                        #[trigger] self@.slots[j],
                        exclude@,
                        now_ms,
                    ),
            },
            forall|j: int|
                0 <= j < self@.slots.len() && (#[trigger] self@.slots[j]).id@ != exclude@
                    && self@.slots[j].status is Ready && !self@.slots[j].pinned
                    && self@.slots[j].usage_bytes > 0 && (match self@.slots[j].ttl_seconds {
                    Some(t) => self@.slots[j].last_used_ms + t * 1_000 <= now_ms,
                    None => true,
                }) ==> r is Some && self@.slot(r->0@).last_used_ms
                    <= self@.slots[j].last_used_ms,
    {
        let mut best: Option<usize> = None;
        let mut i: usize = 0;
        while i < self.slots.len()
            invariant
                i <= self.slots@.len(),
                match best {
                    Some(b) => {
                        &&& b < i
                        &&& evictable(self@.slots[b as int], exclude@, now_ms)
                        &&& forall|j: int|
                            0 <= j < i && evictable(#[trigger] self@.slots[j], exclude@, now_ms)
                                ==> self@.slots[b as int].last_used_ms
                                <= self@.slots[j].last_used_ms
                    },
                    None => forall|j: int|
                        0 <= j < i ==> !evictable(#[trigger] self@.slots[j], exclude@, now_ms),
                },
            decreases self.slots@.len() - i,
        {
            let slot: &Slot = &self.slots[i];
            let idle: u64 = now_ms.saturating_sub(slot.last_used_ms);
            let lease_over: bool = match slot.ttl_seconds {
                None => true,
                Some(ttl) => idle as u128 >= ttl as u128 * 1000,
            };
            if !text::same(slot.id.as_str(), exclude) && !slot.pinned && slot.usage_bytes > 0
                && slot.status == WorkerStatus::Ready && lease_over {
                assert(evictable(self@.slots[i as int], exclude@, now_ms));
                let better: bool = match best {
                    Some(b) => slot.last_used_ms < self.slots[b].last_used_ms,
                    None => true,
                };
                if better {
                    best = Some(i);
                }
            }
            i = i + 1;
        }
        match best {
            Some(b) => {
                assert(self@.slots[b as int].id@ == self.slots[b as int].id@);
                assert(self@.has(self.slots[b as int].id@));
                proof {
                    lemma_at(self@, self.slots[b as int].id@, b as int);
                }
                Some(self.slots[b].id.clone())
            },
            None => None,
        }
    }
}

/// The memory part of a worker's heartbeat.
#[derive(Debug, Clone, Copy, PartialEq, Eq, Structural)]
pub struct MemoryReport {
    pub weights_bytes: u64,
    pub kv_pool_allocated_bytes: u64,
    pub kv_pool_used_bytes: u64,
    pub mlx_active_bytes: u64,
    pub mlx_cache_bytes: u64,
    pub process_rss_bytes: u64,
}

/// Every byte counted once: active memory already contains the weights and
/// the pools, which serve as a floor under it; the buffer cache is on top.
pub open spec fn footprint(report: MemoryReport) -> int {
    let floor = report.weights_bytes + report.kv_pool_allocated_bytes;
    (if report.mlx_active_bytes >= floor {
        report.mlx_active_bytes as int
    } else {
        floor
    }) + report.mlx_cache_bytes
}

/// Machine-memory footprint of one worker from its heartbeat report.
pub fn footprint_bytes(report: &MemoryReport) -> (r: u64)
    requires
        footprint(*report) <= u64::MAX,
    ensures
        r == footprint(*report),
{
    let floor: u64 = report.weights_bytes + report.kv_pool_allocated_bytes;
    let held: u64 = if report.mlx_active_bytes >= floor {
        report.mlx_active_bytes
    } else {
        floor
    };
    held + report.mlx_cache_bytes
}

/// Whether [`footprint_bytes`] can hold this report's footprint.
pub fn footprint_fits(report: &MemoryReport) -> (r: bool)
    ensures
        r == (footprint(*report) <= u64::MAX),
{
    let floor: u128 = report.weights_bytes as u128 + report.kv_pool_allocated_bytes as u128;
    let held: u128 = if report.mlx_active_bytes as u128 >= floor {
        report.mlx_active_bytes as u128
    } else {
        floor
    };
    held + report.mlx_cache_bytes as u128 <= u64::MAX as u128
}

/// One file of a model directory.
#[derive(Debug)]
pub struct ModelFile {
    pub name: String,
    pub len: u64,
}

/// Whether `s` ends with `suffix`.
pub open spec fn ends_with(s: Seq<char>, suffix: Seq<char>) -> bool {
    s.len() >= suffix.len() && s.subrange(s.len() - suffix.len(), s.len() as int) == suffix
}

/// What each file weighs in: its length if it holds weights, else nothing.
pub open spec fn weights_of(files: Seq<ModelFile>) -> Seq<int> {
    Seq::new(
        files.len(),
        |i: int|
            if ends_with(files[i].name@, ".safetensors"@) {
                files[i].len as int
            } else {
                0
            },
    )
}

/// Load-time projection for a model directory: the bytes of its
/// `*.safetensors` files.
pub fn weights_bytes(files: &Vec<ModelFile>) -> (r: u64)
    requires
        total(weights_of(files@)) <= u64::MAX,
    ensures
        r == total(weights_of(files@)),
{
    let mut sum: u64 = 0;
    let mut i: usize = 0;
    while i < files.len()
        invariant
            i <= files@.len(),
            sum == total(weights_of(files@).take(i as int)),
            total(weights_of(files@)) <= u64::MAX,
        decreases files@.len() - i,
    {
        proof {
            let w = weights_of(files@);
            lemma_total_take(w, i + 1);
            assert(w.take(i + 1).drop_last() =~= w.take(i as int));
        }
        if text::has_suffix(files[i].name.as_str(), ".safetensors") {
            sum = sum + files[i].len;
        }
        i = i + 1;
    }
    assert(weights_of(files@).take(i as int) =~= weights_of(files@));
    sum
}

/// Whether [`weights_bytes`] can hold the files' weight.
pub fn weights_fit(files: &Vec<ModelFile>) -> (r: bool)
    ensures
        r == (total(weights_of(files@)) <= u64::MAX),
{
    let mut sum: u64 = 0;
    let mut i: usize = 0;
    while i < files.len()
        invariant
            i <= files@.len(),
            sum == total(weights_of(files@).take(i as int)),
        decreases files@.len() - i,
    {
        proof {
            let w = weights_of(files@);
            lemma_total_take(w, i + 1);
            assert(w.take(i + 1).drop_last() =~= w.take(i as int));
        }
        if text::has_suffix(files[i].name.as_str(), ".safetensors") {
            match sum.checked_add(files[i].len) {
                Some(n) => {
                    sum = n;
                },
                None => return false,
            }
        }
        i = i + 1;
    }
    assert(weights_of(files@).take(i as int) =~= weights_of(files@));
    true
}

/// Resolves the machine budget: the explicit override, else the configured
/// share of the total. `share_bytes` is that share, already computed; it is
/// read only where there is a total and no override. Fails only when no
/// budget can be established.
pub fn machine_budget(
    budget_bytes: Option<u64>,
    total: Option<u64>,
    share_bytes: u64,
) -> (r: Result<(u64, Option<u64>), String>)
    ensures
        match r {
            Ok((budget, t)) => t == total && (match budget_bytes {
                Some(bytes) => budget == bytes,
                None => total is Some && budget == share_bytes,
            }),
            Err(message) => budget_bytes is None && total is None && message@
                == "could not determine total unified memory for the machine budget; set memory.budget_bytes explicitly"@,
        },
{
    if let Some(bytes) = budget_bytes {
        return Ok((bytes, total));
    }
    match total {
        Some(_) => Ok((share_bytes, total)),
        None => Err(
            "could not determine total unified memory for the machine budget; set memory.budget_bytes explicitly".to_owned(),
        ),
    }
}

/// With distinct ids there is one place for an id.
proof fn lemma_at(l: Ledger, id: Seq<char>, i: int)
    requires
        l.ids_distinct(),
        0 <= i < l.slots.len(),
        l.slots[i].id@ == id,
    ensures
        l.has(id),
        l.at(id) == i,
{
    assert(l.slots[i].id@ == id);
    let j = l.at(id);
    assert(0 <= j < l.slots.len() && l.slots[j].id@ == id);
}

/// What replacing a model's slot by another of the same model does.
proof fn lemma_with_slot(l: Ledger, id: Seq<char>, slot: Slot)
    requires
        l.ids_distinct(),
        l.has(id),
        slot.id == l.slot(id).id,
    ensures
        l.with_slot(id, slot).ids_distinct(),
        l.with_slot(id, slot).has(id),
        l.with_slot(id, slot).at(id) == l.at(id),
        l.with_slot(id, slot).slot(id) == slot,
        l.with_slot(id, slot).used() == l.used() - l.slot(id).usage_bytes + slot.usage_bytes,
        l.with_slot(id, slot).reserved() == l.reserved() - l.slot(id).pool_reserved_bytes
            + slot.pool_reserved_bytes,
        forall|other: Seq<char>|
            #![trigger l.with_slot(id, slot).has(other)]
            l.with_slot(id, slot).has(other) == l.has(other),
{
    let i = l.at(id);
    let m = l.with_slot(id, slot);
    assert forall|a: int, b: int| 0 <= a < b < m.slots.len() implies (#[trigger] m.slots[a]).id@
        != (#[trigger] m.slots[b]).id@ by {
        assert(m.slots[a].id@ == l.slots[a].id@);
        assert(m.slots[b].id@ == l.slots[b].id@);
    }
    lemma_at(m, id, i);
    lemma_total_update(usage_of(l.slots), i, slot.usage_bytes as int);
    lemma_total_update(reserved_of(l.slots), i, slot.pool_reserved_bytes as int);
    assert(usage_of(m.slots) =~= usage_of(l.slots).update(i, slot.usage_bytes as int));
    assert(reserved_of(m.slots) =~= reserved_of(l.slots).update(
        i,
        slot.pool_reserved_bytes as int,
    ));
    assert forall|other: Seq<char>| #[trigger] m.has(other) == l.has(other) by {
        if l.has(other) {
            let j = l.at(other);
            assert(m.slots[j].id@ == other);
        }
        if m.has(other) {
            let j = m.at(other);
            assert(l.slots[j].id@ == other);
        }
    }
}

/// Charging a model changes what is charged in all by the difference.
pub proof fn lemma_usage_charge(l: Ledger, id: Seq<char>, bytes: u64)
    requires
        l.ids_distinct(),
        l.has(id),
    ensures
        l.after_usage(id, bytes).charged() == l.charged() - l.slot(id).usage_bytes + bytes,
{
    lemma_with_slot(l, id, Slot { usage_bytes: bytes, ..l.slot(id) });
}

/// The ledger after one admission decision per id, in order.
pub open spec fn after_admissions(l: Ledger, ids: Seq<Seq<char>>) -> Ledger
    decreases ids.len(),
{
    if ids.len() == 0 {
        l
    } else {
        after_admissions(l, ids.drop_last()).after_admit(ids.last())
    }
}

/// A passing admission charges its growth, and what is then charged fits the
/// budget whenever it reserved anything.
pub proof fn law_admission_fits_the_budget(l: Ledger, id: Seq<char>)
    requires
        l.ids_distinct(),
        l.has(id),
    ensures
        l.decision(id) is Ok ==> l.after_admit(id).charged() == l.charged() + l.growth(id),
        l.decision(id) is Ok && l.growth(id) > 0 ==> l.after_admit(id).charged()
            <= l.budget_bytes,
        l.decision(id) is Ok && l.growth(id) > 0 && l.gated() ==> l.growth(id)
            <= l.system_headroom(l.system->0),
        l.after_admit(id).ids_distinct(),
        l.after_admit(id).budget_bytes == l.budget_bytes,
{
    let s = l.slot(id);
    let slot = Slot { pool_reserved_bytes: (s.pool_reserved_bytes + l.growth(id)) as u64, ..s };
    lemma_with_slot(l, id, slot);
}

/// However many admissions race, in whatever order and for whatever models,
/// they never jointly overshoot: what is charged stays within the budget, or
/// within what was charged before if that was already more.
pub proof fn law_admissions_never_jointly_overshoot(l: Ledger, ids: Seq<Seq<char>>)
    requires
        l.ids_distinct(),
    ensures
        after_admissions(l, ids).ids_distinct(),
        after_admissions(l, ids).budget_bytes == l.budget_bytes,
        after_admissions(l, ids).charged() <= l.budget_bytes || after_admissions(l, ids).charged()
            == l.charged(),
    decreases ids.len(),
{
    if ids.len() > 0 {
        law_admissions_never_jointly_overshoot(l, ids.drop_last());
        let m = after_admissions(l, ids.drop_last());
        if m.has(ids.last()) {
            law_admission_fits_the_budget(m, ids.last());
        }
    }
}

/// A refusal reserves nothing.
pub proof fn law_refusal_reserves_nothing(l: Ledger, id: Seq<char>)
    ensures
        l.decision(id) is Err ==> l.after_admit(id) == l,
{
}

/// A second request on the same still-cold pool rides the outstanding
/// reservation: it is admitted and charges nothing more.
pub proof fn law_second_request_rides_the_reservation(l: Ledger, id: Seq<char>)
    requires
        l.ids_distinct(),
        l.decision(id) is Ok,
    ensures
        l.after_admit(id).decision(id) is Ok,
        l.after_admit(id).after_admit(id).charged() == l.after_admit(id).charged(),
{
    if l.has(id) {
        let s = l.slot(id);
        let slot = Slot {
            pool_reserved_bytes: (s.pool_reserved_bytes + l.growth(id)) as u64,
            ..s
        };
        lemma_with_slot(l, id, slot);
        law_admission_fits_the_budget(l.after_admit(id), id);
    }
}

/// A fully materialized pool, or a worker without one, is always admitted:
/// even over budget and under pressure.
pub proof fn law_warm_pool_is_always_admitted(l: Ledger, id: Seq<char>)
    requires
        l.has(id) ==> l.slot(id).pool_commitment_bytes <= l.slot(id).pool_materialized_bytes,
    ensures
        l.decision(id) is Ok,
{
}

/// Under elevated pressure no new growth is admitted.
pub proof fn law_pressure_refuses_new_growth(l: Ledger, id: Seq<char>)
    requires
        l.has(id),
        l.growth(id) > 0,
        l.gated(),
        l.system->0.spec_pressure_elevated(),
    ensures
        l.decision(id) is Err,
        l.decision(id)->Err_0.constraint == AdmitConstraint::SystemPressure,
{
}

/// Without a probe reading the budget alone decides, as it does with the
/// gate off.
pub proof fn law_missing_snapshot_fails_open(l: Ledger, id: Seq<char>)
    requires
        l.system is None,
    ensures
        l.decision(id) == (Ledger { min_available_bytes: 0, ..l }).decision(id),
{
    let m = Ledger { min_available_bytes: 0, ..l };
    assert(m.slots == l.slots);
    assert(m.has(id) == l.has(id));
    assert(m.at(id) == l.at(id));
}

/// Growth that an admission had priced moves from the reservation to the
/// footprint when a heartbeat confirms it: nothing is charged twice, nothing
/// is lost, and nothing is reported as uncovered.
pub proof fn law_heartbeats_move_reserved_bytes_to_the_footprint(
    l: Ledger,
    id: Seq<char>,
    bytes: u64,
    usage: u64,
)
    requires
        l.ids_distinct(),
        l.has(id),
        l.slot(id).pool_materialized_bytes <= bytes <= l.slot(id).pool_commitment_bytes,
        l.slot(id).pool_reserved_bytes == l.slot(id).pool_commitment_bytes - l.slot(
            id,
        ).pool_materialized_bytes,
        usage == l.slot(id).usage_bytes + (bytes - l.slot(id).pool_materialized_bytes),
    ensures
        l.uncovered(id, bytes) == 0,
        l.after_materialized(id, bytes).after_usage(id, usage).charged() == l.charged(),
        l.after_materialized(id, bytes).slot(id).pool_reserved_bytes == l.slot(
            id,
        ).pool_commitment_bytes - bytes,
{
    let s = l.slot(id);
    let slot = Slot {
        pool_materialized_bytes: bytes,
        pool_reserved_bytes: (s.pool_commitment_bytes - bytes) as u64,
        ..s
    };
    lemma_with_slot(l, id, slot);
    let m = l.after_materialized(id, bytes);
    assert(m == l.with_slot(id, slot));
    lemma_with_slot(m, id, Slot { usage_bytes: usage, ..m.slot(id) });
}

/// After a heartbeat the reservation never exceeds the growth that is still
/// outstanding, and it never grew.
pub proof fn law_heartbeat_only_shrinks_the_reservation(l: Ledger, id: Seq<char>, bytes: u64)
    requires
        l.ids_distinct(),
        l.has(id),
    ensures
        l.after_materialized(id, bytes).slot(id).pool_reserved_bytes <= l.slot(
            id,
        ).pool_reserved_bytes,
        l.after_materialized(id, bytes).slot(id).pool_reserved_bytes <= minus(
            l.slot(id).pool_commitment_bytes as int,
            bytes as int,
        ),
        l.after_materialized(id, bytes).charged() <= l.charged(),
{
    let s = l.slot(id);
    let outstanding = minus(s.pool_commitment_bytes as int, bytes as int);
    let slot = Slot {
        pool_materialized_bytes: bytes,
        pool_reserved_bytes: if s.pool_reserved_bytes <= outstanding {
            s.pool_reserved_bytes
        } else {
            outstanding as u64
        },
        ..s
    };
    lemma_with_slot(l, id, slot);
}

/// Growth covered by a reservation is never reported.
pub proof fn law_covered_growth_is_silent(l: Ledger, id: Seq<char>, bytes: u64)
    requires
        l.has(id),
        bytes <= l.slot(id).pool_materialized_bytes + l.slot(id).pool_reserved_bytes,
    ensures
        l.uncovered(id, bytes) == 0,
{
}

/// The room reserved at READY serves the request that triggered the reload:
/// it is admitted whatever the headroom, and reserving again adds nothing.
pub proof fn law_reserved_room_admits_the_reload(l: Ledger, id: Seq<char>)
    requires
        l.ids_distinct(),
        l.has(id),
    ensures
        l.after_reserve_room(id).decision(id) is Ok,
        l.after_reserve_room(id).after_admit(id).charged() == l.after_reserve_room(id).charged(),
        l.after_reserve_room(id).after_reserve_room(id).charged() == l.after_reserve_room(
            id,
        ).charged(),
{
    let s = l.slot(id);
    let outstanding = minus(s.pool_commitment_bytes as int, s.pool_materialized_bytes as int);
    let slot = Slot {
        pool_reserved_bytes: if s.pool_reserved_bytes >= outstanding {
            s.pool_reserved_bytes
        } else {
            outstanding as u64
        },
        ..s
    };
    lemma_with_slot(l, id, slot);
    let m = l.after_reserve_room(id);
    assert(m == l.with_slot(id, slot));
    law_admission_fits_the_budget(m, id);
    lemma_with_slot(m, id, m.slot(id));
}

/// A worker that is gone releases its usage and its reservation, no more and
/// no less, and its commitment is still known to the next load.
pub proof fn law_clearing_releases_every_charge(l: Ledger, id: Seq<char>)
    requires
        l.ids_distinct(),
        l.has(id),
    ensures
        l.after_clear(id).charged() == l.charged() - l.slot(id).usage_bytes - l.slot(
            id,
        ).pool_reserved_bytes,
        l.after_clear(id).slot(id).usage_bytes == 0,
        l.after_clear(id).slot(id).known_pool_commitment_bytes == l.slot(
            id,
        ).known_pool_commitment_bytes,
        l.after_clear(id).decision(id) is Ok,
{
    let slot = Slot {
        usage_bytes: 0,
        pool_commitment_bytes: 0,
        pool_materialized_bytes: 0,
        pool_reserved_bytes: 0,
        ..l.slot(id)
    };
    lemma_with_slot(l, id, slot);
}

/// A commitment once recorded is remembered through an unload.
pub proof fn law_commitment_survives_unload(l: Ledger, id: Seq<char>, bytes: u64)
    requires
        l.ids_distinct(),
        l.has(id),
        bytes > 0,
    ensures
        l.after_commitment(id, bytes).after_clear(id).slot(id).known_pool_commitment_bytes
            == bytes,
{
    let s = l.slot(id);
    lemma_with_slot(
        l,
        id,
        Slot { pool_commitment_bytes: bytes, known_pool_commitment_bytes: bytes, ..s },
    );
    law_clearing_releases_every_charge(l.after_commitment(id, bytes), id);
}

/// A model inside its keep-alive lease, which is counted in seconds from its
/// last use, makes room for nobody.
pub proof fn law_lease_protects(slot: Slot, exclude: Seq<char>, now_ms: u64, seconds: u64)
    requires
        slot.ttl_seconds == Some(seconds),
        seconds > 0,
        now_ms < slot.last_used_ms + seconds * 1_000,
    ensures
        !evictable(slot, exclude, now_ms),
{
}

/// A pinned model, one that is not serving, one that holds nothing and the model
/// that asks for room are never evicted.
pub proof fn law_only_idle_loaded_models_are_evicted(slot: Slot, exclude: Seq<char>, now_ms: u64)
    requires
        slot.pinned || !(slot.status is Ready) || slot.usage_bytes == 0 || slot.id@ == exclude,
    ensures
        !evictable(slot, exclude, now_ms),
{
}

/// A model that serves, is not pinned, holds memory and has no lease or one that
/// is over can make room for any other.
pub proof fn law_a_lease_ends(slot: Slot, exclude: Seq<char>, now_ms: u64)
    requires
        slot.id@ != exclude,
        !slot.pinned,
        slot.status is Ready,
        slot.usage_bytes > 0,
        match slot.ttl_seconds {
            Some(seconds) => slot.last_used_ms + seconds * 1_000 <= now_ms,
            None => true,
        },
    ensures
        evictable(slot, exclude, now_ms),
{
}

/// A use starts the idle clock again, for that model and no other.
pub proof fn law_touch_restarts_the_clock(
    l: Ledger,
    id: Seq<char>,
    other: Seq<char>,
    then_ms: u64,
    now_ms: u64,
)
    requires
        l.ids_distinct(),
        l.has(id),
        then_ms <= now_ms,
        other != id,
    ensures
        l.after_touch(id, then_ms).idle(id, now_ms) == now_ms - then_ms,
        l.after_touch(id, then_ms).idle(other, now_ms) == l.idle(other, now_ms),
        l.slot(id).ttl_seconds is Some && now_ms - then_ms < l.slot(id).ttl_seconds->0 * 1_000
            ==> !evictable(l.after_touch(id, then_ms).slot(id), other, now_ms),
{
    lemma_with_slot(l, id, Slot { last_used_ms: then_ms, ..l.slot(id) });
    lemma_other_slot(l, id, Slot { last_used_ms: then_ms, ..l.slot(id) }, other);
}

/// The slots of other models are not touched by a replacement.
proof fn lemma_other_slot(l: Ledger, id: Seq<char>, slot: Slot, other: Seq<char>)
    requires
        l.ids_distinct(),
        l.has(id),
        slot.id == l.slot(id).id,
        other != id,
    ensures
        l.with_slot(id, slot).has(other) == l.has(other),
        l.has(other) ==> l.with_slot(id, slot).slot(other) == l.slot(other),
{
    let m = l.with_slot(id, slot);
    lemma_with_slot(l, id, slot);
    assert(m.has(other) == l.has(other));
    if l.has(other) {
        let j = l.at(other);
        assert(m.slots[j] == l.slots[j]);
        lemma_at(m, other, j);
    }
}

/// Whatever is recorded of one model leaves every other model as it was.
pub proof fn law_models_do_not_disturb_each_other(
    l: Ledger,
    id: Seq<char>,
    other: Seq<char>,
    bytes: u64,
    status: WorkerStatus,
    pinned: bool,
)
    requires
        l.ids_distinct(),
        l.has(id),
        l.has(other),
        other != id,
    ensures
        l.after_admit(id).slot(other) == l.slot(other),
        l.after_materialized(id, bytes).slot(other) == l.slot(other),
        l.after_reserve_room(id).slot(other) == l.slot(other),
        l.after_status(id, status).slot(other) == l.slot(other),
        l.after_touch(id, bytes).slot(other) == l.slot(other),
        l.after_usage(id, bytes).slot(other) == l.slot(other),
        l.after_clear(id).slot(other) == l.slot(other),
        l.after_commitment(id, bytes).slot(other) == l.slot(other),
        l.after_pin(id, pinned).slot(other) == l.slot(other),
{
    lemma_other_slot(l, id, l.after_admit(id).slots[l.at(id)], other);
    lemma_other_slot(l, id, l.after_materialized(id, bytes).slots[l.at(id)], other);
    lemma_other_slot(l, id, l.after_reserve_room(id).slots[l.at(id)], other);
    lemma_other_slot(l, id, l.after_status(id, status).slots[l.at(id)], other);
    lemma_other_slot(l, id, l.after_touch(id, bytes).slots[l.at(id)], other);
    lemma_other_slot(l, id, l.after_usage(id, bytes).slots[l.at(id)], other);
    lemma_other_slot(l, id, l.after_clear(id).slots[l.at(id)], other);
    lemma_other_slot(l, id, l.after_commitment(id, bytes).slots[l.at(id)], other);
    lemma_other_slot(l, id, l.after_pin(id, pinned).slots[l.at(id)], other);
}

/// Two slots that differ in nothing an eviction goes by but the last use and the
/// memory that is held.
pub open spec fn same_standing(a: Slot, b: Slot) -> bool {
    a.id == b.id && a.status == b.status && a.pinned == b.pinned && a.ttl_seconds == b.ttl_seconds
}

/// Each record changes what it is about and nothing else that decisions go by:
/// memory is recorded without a change of status, pin, lease or last use, a
/// status, a use and a pin without a change of what is charged.
pub proof fn law_records_change_one_thing(
    l: Ledger,
    id: Seq<char>,
    bytes: u64,
    status: WorkerStatus,
    pinned: bool,
)
    requires
        l.ids_distinct(),
        l.has(id),
    ensures
        same_standing(l.after_usage(id, bytes).slot(id), l.slot(id)),
        l.after_usage(id, bytes).slot(id).usage_bytes == bytes,
        l.after_usage(id, bytes).slot(id).last_used_ms == l.slot(id).last_used_ms,
        l.after_usage(id, bytes).reserved() == l.reserved(),
        l.after_usage(id, bytes).growth(id) == l.growth(id),
        same_standing(l.after_clear(id).slot(id), l.slot(id)),
        l.after_clear(id).slot(id).last_used_ms == l.slot(id).last_used_ms,
        same_standing(l.after_commitment(id, bytes).slot(id), l.slot(id)),
        l.after_commitment(id, bytes).slot(id).last_used_ms == l.slot(id).last_used_ms,
        l.after_commitment(id, bytes).charged() == l.charged(),
        same_standing(l.after_materialized(id, bytes).slot(id), l.slot(id)),
        l.after_materialized(id, bytes).slot(id).last_used_ms == l.slot(id).last_used_ms,
        l.after_materialized(id, bytes).used() == l.used(),
        same_standing(l.after_touch(id, bytes).slot(id), l.slot(id)),
        l.after_touch(id, bytes).slot(id).last_used_ms == bytes,
        l.after_touch(id, bytes).charged() == l.charged(),
        l.after_touch(id, bytes).growth(id) == l.growth(id),
        l.after_status(id, status).slot(id).status == status,
        l.after_status(id, status).charged() == l.charged(),
        l.after_status(id, status).slot(id).pinned == l.slot(id).pinned,
        l.after_status(id, status).slot(id).ttl_seconds == l.slot(id).ttl_seconds,
        l.after_status(id, status).slot(id).last_used_ms == l.slot(id).last_used_ms,
        l.after_pin(id, pinned).slot(id).pinned == pinned,
        l.after_pin(id, pinned).slot(id).status == l.slot(id).status,
        l.after_pin(id, pinned).slot(id).last_used_ms == l.slot(id).last_used_ms,
        l.after_pin(id, pinned).slot(id).ttl_seconds == l.slot(id).ttl_seconds,
        l.after_pin(id, pinned).charged() == l.charged(),
{
    let i = l.at(id);
    lemma_with_slot(l, id, l.after_usage(id, bytes).slots[i]);
    lemma_with_slot(l, id, l.after_clear(id).slots[i]);
    lemma_with_slot(l, id, l.after_commitment(id, bytes).slots[i]);
    lemma_with_slot(l, id, l.after_materialized(id, bytes).slots[i]);
    lemma_with_slot(l, id, l.after_touch(id, bytes).slots[i]);
    lemma_with_slot(l, id, l.after_status(id, status).slots[i]);
    lemma_with_slot(l, id, l.after_pin(id, pinned).slots[i]);
}

/// A pin keeps the model, whatever else is recorded; without it, and without a
/// lease, a serving model that holds memory can be evicted.
pub proof fn law_pins_protect(l: Ledger, id: Seq<char>, exclude: Seq<char>, now_ms: u64)
    requires
        l.ids_distinct(),
        l.has(id),
    ensures
        !evictable(l.after_pin(id, true).slot(id), exclude, now_ms),
        id != exclude && l.slot(id).status is Ready && l.slot(id).usage_bytes > 0 && l.slot(
            id,
        ).ttl_seconds is None ==> evictable(
            l.after_pin(id, false).slot(id),
            exclude,
            now_ms,
        ),
{
    lemma_with_slot(l, id, l.after_pin(id, true).slots[l.at(id)]);
    lemma_with_slot(l, id, l.after_pin(id, false).slots[l.at(id)]);
}

/// The growth of a pool is what its full cost exceeds what is materialized and
/// what is reserved, and nothing where it does not.
pub proof fn law_growth_is_the_uncovered_rest(l: Ledger, id: Seq<char>)
    ensures
        l.growth(id) >= 0,
        l.growth(id) > 0 ==> l.slot(id).pool_materialized_bytes + l.slot(id).pool_reserved_bytes
            + l.growth(id) == l.slot(id).pool_commitment_bytes,
        l.growth(id) == 0 <==> l.slot(id).pool_commitment_bytes <= l.slot(
            id,
        ).pool_materialized_bytes + l.slot(id).pool_reserved_bytes,
{
}

/// A request is admitted if, and only if, its model can grow no more, or its
/// growth on top of everything charged stays within the budget and, where the
/// machine's memory is known and watched, the kernel is at ease and the growth on
/// top of everything reserved leaves the floor free.
pub proof fn law_requests_are_admitted_while_there_is_room(l: Ledger, id: Seq<char>)
    requires
        l.has(id),
        l.sums_fit(),
    ensures
        l.decision(id) is Ok <==> l.growth(id) == 0 || (l.growth(id) + l.used() + l.reserved()
            <= l.budget_bytes && (l.min_available_bytes > 0 && l.system is Some ==> {
            &&& l.system->0.pressure_level < 2
            &&& l.growth(id) + l.reserved() + l.min_available_bytes <= l.system->0.available_bytes
        })),
{
    lemma_sums_positive(l);
}

/// A refusal says how much was needed and that less than that was left, and names
/// the bound that is short of it.
pub proof fn law_refusals_name_the_bound(l: Ledger, id: Seq<char>, e: MemoryDenial)
    requires
        l.decision(id) == Err::<(), MemoryDenial>(e),
        l.sums_fit(),
    ensures
        e.needed_bytes == l.growth(id),
        e.headroom_bytes < e.needed_bytes,
        match e.constraint {
            AdmitConstraint::Budget => e.headroom_bytes == 0 && l.used() + l.reserved()
                >= l.budget_bytes || e.headroom_bytes + l.used() + l.reserved()
                == l.budget_bytes,
            AdmitConstraint::SystemAvailability => l.system is Some && (e.headroom_bytes == 0
                && l.min_available_bytes + l.reserved() >= l.system->0.available_bytes
                || e.headroom_bytes + l.min_available_bytes + l.reserved()
                == l.system->0.available_bytes),
            AdmitConstraint::SystemPressure => l.system is Some && l.system->0.pressure_level
                >= 2,
        },
{
    lemma_sums_positive(l);
    assert(l.has(id));
}

proof fn lemma_sums_positive(l: Ledger)
    ensures
        l.used() >= 0,
        l.reserved() >= 0,
{
    lemma_total_take(usage_of(l.slots), 0);
    lemma_total_take(reserved_of(l.slots), 0);
}

/// The machine takes a load if, and only if, the kernel is at ease and the load on
/// top of everything reserved leaves the floor free. A denial repeats the reading
/// it goes by.
pub proof fn law_loads_leave_the_floor_free(l: Ledger, memory: SystemMemory, needed: u64)
    requires
        needed > 0,
    ensures
        l.system_denial(memory, needed) is None <==> memory.pressure_level < 2 && needed
            + l.reserved() + l.min_available_bytes <= memory.available_bytes,
        match l.system_denial(memory, needed) {
            None => true,
            Some(d) => {
                &&& d.needed_bytes == needed
                &&& d.available_bytes == memory.available_bytes
                &&& d.min_available_bytes == l.min_available_bytes
                &&& d.swap_used_bytes == memory.swap_used_bytes
                &&& d.pressure_level == memory.pressure_level
                &&& d.constraint == (if memory.pressure_level >= 2 {
                    AdmitConstraint::SystemPressure
                } else {
                    AdmitConstraint::SystemAvailability
                })
            },
        },
{
    lemma_sums_positive(l);
}

/// The memory in use is the memory of the models: one more slot adds its own.
pub proof fn law_every_slot_is_counted(l: Ledger, slot: Slot)
    ensures
        (Ledger { slots: l.slots.push(slot), ..l }).used() == l.used() + slot.usage_bytes,
        (Ledger { slots: l.slots.push(slot), ..l }).reserved() == l.reserved()
            + slot.pool_reserved_bytes,
        (Ledger { slots: l.slots.push(slot), ..l }).charged() == l.charged() + slot.usage_bytes
            + slot.pool_reserved_bytes,
        (Ledger { slots: Seq::empty(), ..l }).charged() == 0,
{
    let m = l.slots.push(slot);
    assert(usage_of(m).drop_last() =~= usage_of(l.slots));
    assert(reserved_of(m).drop_last() =~= reserved_of(l.slots));
}

/// A model that was just added is not loaded, charges nothing and is admitted; its
/// lease is the one given, and a lease of no seconds is none.
pub proof fn law_new_slots_charge_nothing(
    slot: Slot,
    id: Seq<char>,
    status: WorkerStatus,
    pinned: bool,
    seconds: u64,
    exclude: Seq<char>,
    now_ms: u64,
)
    requires
        is_fresh_slot(slot, id, status, pinned, seconds),
    ensures
        slot.id@ == id,
        slot.status == status,
        slot.pinned == pinned,
        seconds == 0 ==> slot.ttl_seconds is None,
        seconds > 0 ==> slot.ttl_seconds == Some(seconds),
        slot.usage_bytes + slot.pool_reserved_bytes + slot.pool_commitment_bytes == 0,
        !evictable(slot, exclude, now_ms),
{
}

/// At most one probe is under way, none where the machine's memory is not watched,
/// and a reading is not taken again before it is as old as it may get.
pub proof fn law_probes_are_spaced(
    l: Ledger,
    memory: SystemMemory,
    then_ms: u64,
    now_ms: u64,
    max_age_ms: u64,
)
    requires
        0 < then_ms <= now_ms,
    ensures
        l.probe_due(now_ms, max_age_ms) ==> !l.probe_inflight && l.min_available_bytes > 0,
        l.after_probe(Some(memory), then_ms).system == Some(memory),
        l.after_probe(None, then_ms).system == l.system,
        l.min_available_bytes > 0 ==> (l.after_probe(Some(memory), then_ms).probe_due(
            now_ms,
            max_age_ms,
        ) <==> now_ms - then_ms >= max_age_ms),
        l.min_available_bytes > 0 && l.probed_at_ms == 0 ==> l.after_probe(None, then_ms).probe_due(
            now_ms,
            max_age_ms,
        ),
        l.after_probe(Some(memory), then_ms).slots == l.slots,
        l.after_probe(None, then_ms).slots == l.slots,
{
}

/// A worker's footprint holds its buffer cache and whichever is more of what it
/// reports as active and what its weights and pool take: none is counted twice.
pub proof fn law_footprint_counts_bytes_once(report: MemoryReport)
    ensures
        footprint(report) >= report.mlx_active_bytes + report.mlx_cache_bytes,
        footprint(report) >= report.weights_bytes + report.kv_pool_allocated_bytes
            + report.mlx_cache_bytes,
        footprint(report) == report.mlx_active_bytes + report.mlx_cache_bytes || footprint(report)
            == report.weights_bytes + report.kv_pool_allocated_bytes + report.mlx_cache_bytes,
{
}

/// A `.safetensors` file weighs its length, any other file nothing.
pub proof fn law_weights_are_the_safetensors_files(
    files: Seq<ModelFile>,
    file: ModelFile,
    stem: Seq<char>,
)
    ensures
        file.name@ == stem + ".safetensors"@ ==> total(weights_of(files.push(file))) == total(
            weights_of(files),
        ) + file.len,
        (forall|x: Seq<char>| file.name@ != #[trigger] (x + ".safetensors"@)) ==> total(
            weights_of(files.push(file)),
        ) == total(weights_of(files)),
        total(weights_of(Seq::empty())) == 0,
{
    let all = files.push(file);
    let w = ".safetensors"@;
    assert(weights_of(all).drop_last() =~= weights_of(files));
    assert(weights_of(all).last() == (if ends_with(file.name@, w) {
        file.len as int
    } else {
        0
    }));
    if file.name@ == stem + w {
        assert(file.name@.subrange(file.name@.len() - w.len(), file.name@.len() as int) =~= w);
    }
    if ends_with(file.name@, w) {
        let x = file.name@.take(file.name@.len() - w.len());
        assert(file.name@ =~= x + w);
    }
}

/// A heartbeat reports as uncovered exactly the growth beyond what was held and
/// reserved, and only of models that have a pool.
pub proof fn law_uncovered_growth_is_what_exceeds_the_reservation(
    l: Ledger,
    id: Seq<char>,
    bytes: u64,
)
    requires
        l.has(id),
        l.slot(id).pool_commitment_bytes > 0,
        bytes >= l.slot(id).pool_materialized_bytes + l.slot(id).pool_reserved_bytes,
    ensures
        l.uncovered(id, bytes) + l.slot(id).pool_materialized_bytes + l.slot(
            id,
        ).pool_reserved_bytes == bytes,
        (Ledger { slots: Seq::empty(), ..l }).uncovered(id, bytes) == 0,
{
}

/// After a load's room was reserved the pool is covered to its full cost, and a
/// reservation that was larger stays.
pub proof fn law_reserved_room_covers_the_pool(l: Ledger, id: Seq<char>)
    requires
        l.ids_distinct(),
        l.has(id),
    ensures
        l.after_reserve_room(id).growth(id) == 0,
        l.after_reserve_room(id).slot(id).pool_reserved_bytes >= l.slot(id).pool_reserved_bytes,
        l.growth(id) == 0 ==> l.after_reserve_room(id).charged() == l.charged(),
        l.growth(id) > 0 ==> l.after_reserve_room(id).charged() == l.charged() + l.growth(id),
{
    lemma_with_slot(l, id, l.after_reserve_room(id).slots[l.at(id)]);
}

/// What charging a model does to its slot.
pub proof fn lemma_usage(l: Ledger, id: Seq<char>, bytes: u64)
    requires
        l.ids_distinct(),
        l.has(id),
    ensures
        l.after_usage(id, bytes).ids_distinct(),
        l.after_usage(id, bytes).has(id),
        l.after_usage(id, bytes).slot(id) == (Slot { usage_bytes: bytes, ..l.slot(id) }),
{
    lemma_with_slot(l, id, Slot { usage_bytes: bytes, ..l.slot(id) });
}

/// What a heartbeat's pool bytes do to the model's slot.
pub proof fn lemma_materialized(l: Ledger, id: Seq<char>, bytes: u64)
    requires
        l.ids_distinct(),
        l.has(id),
    ensures
        l.after_materialized(id, bytes).ids_distinct(),
        l.after_materialized(id, bytes).has(id),
        l.after_materialized(id, bytes).slot(id) == (Slot {
            pool_materialized_bytes: bytes,
            pool_reserved_bytes: l.after_materialized(id, bytes).slot(id).pool_reserved_bytes,
            ..l.slot(id)
        }),
        l.after_materialized(id, bytes).slot(id).pool_reserved_bytes <= l.slot(
            id,
        ).pool_reserved_bytes,
{
    lemma_with_slot(l, id, l.after_materialized(id, bytes).slots[l.at(id)]);
}

/// What a use does to the model's slot.
pub proof fn lemma_touch(l: Ledger, id: Seq<char>, now_ms: u64)
    requires
        l.ids_distinct(),
        l.has(id),
    ensures
        l.after_touch(id, now_ms).ids_distinct(),
        l.after_touch(id, now_ms).has(id),
        l.after_touch(id, now_ms).slot(id) == (Slot { last_used_ms: now_ms, ..l.slot(id) }),
{
    lemma_with_slot(l, id, Slot { last_used_ms: now_ms, ..l.slot(id) });
}

/// What publishing a status does to the model's slot.
pub proof fn lemma_status(l: Ledger, id: Seq<char>, status: WorkerStatus)
    requires
        l.ids_distinct(),
        l.has(id),
    ensures
        l.after_status(id, status).ids_distinct(),
        l.after_status(id, status).has(id),
        l.after_status(id, status).slot(id) == (Slot { status, ..l.slot(id) }),
        l.after_status(id, status).charged() == l.charged(),
{
    lemma_with_slot(l, id, Slot { status, ..l.slot(id) });
}

/// What recording a commitment does to the model's slot.
pub proof fn lemma_commitment(l: Ledger, id: Seq<char>, bytes: u64)
    requires
        l.ids_distinct(),
        l.has(id),
        bytes > 0,
    ensures
        l.after_commitment(id, bytes).ids_distinct(),
        l.after_commitment(id, bytes).has(id),
        l.after_commitment(id, bytes).slot(id) == (Slot {
            pool_commitment_bytes: bytes,
            known_pool_commitment_bytes: bytes,
            ..l.slot(id)
        }),
        l.after_commitment(id, bytes).charged() == l.charged(),
{
    lemma_with_slot(l, id, l.after_commitment(id, bytes).slots[l.at(id)]);
}

/// What reserving a load's room does to the model's slot.
pub proof fn lemma_reserve_room(l: Ledger, id: Seq<char>)
    requires
        l.ids_distinct(),
        l.has(id),
    ensures
        l.after_reserve_room(id).has(id),
        l.after_reserve_room(id).growth(id) == 0,
        l.after_reserve_room(id).slot(id).known_pool_commitment_bytes == l.slot(
            id,
        ).known_pool_commitment_bytes,
{
    lemma_with_slot(l, id, l.after_reserve_room(id).slots[l.at(id)]);
}

/// What is charged is never negative.
pub proof fn lemma_charges(l: Ledger)
    ensures
        l.used() >= 0,
        l.reserved() >= 0,
{
    lemma_sums_positive(l);
}

/// Slots that hold nothing charge nothing.
pub proof fn lemma_nothing_charged(l: Ledger)
    requires
        forall|i: int|
            0 <= i < l.slots.len() ==> (#[trigger] l.slots[i]).usage_bytes == 0
                && l.slots[i].pool_reserved_bytes == 0,
    ensures
        l.charged() == 0,
{
    lemma_zeros(usage_of(l.slots));
    lemma_zeros(reserved_of(l.slots));
}

proof fn lemma_zeros(s: Seq<int>)
    requires
        forall|i: int| 0 <= i < s.len() ==> s[i] == 0,
    ensures
        total(s) == 0,
    decreases s.len(),
{
    if s.len() > 0 {
        lemma_zeros(s.drop_last());
    }
}

/// Counters read the word for each bound.
pub proof fn law_bounds_have_their_labels()
    ensures
        AdmitConstraint::Budget.spec_label() == "budget"@,
        AdmitConstraint::SystemAvailability.spec_label() == "system_available"@,
        AdmitConstraint::SystemPressure.spec_label() == "system_pressure"@,
{
}

/// What an admission does to the model's slot.
pub proof fn lemma_admit(l: Ledger, id: Seq<char>)
    requires
        l.ids_distinct(),
        l.has(id),
    ensures
        l.after_admit(id).has(id),
        l.after_admit(id).slot(id).last_used_ms == l.slot(id).last_used_ms,
        l.after_admit(id).slot(id).status == l.slot(id).status,
{
    lemma_with_slot(l, id, l.after_admit(id).slots[l.at(id)]);
}

/// A new slot has no use, no pool and no learnt commitment.
pub proof fn law_new_slots_have_no_past(
    slot: Slot,
    id: Seq<char>,
    status: WorkerStatus,
    pinned: bool,
    seconds: u64,
)
    requires
        is_fresh_slot(slot, id, status, pinned, seconds),
    ensures
        slot.usage_bytes == 0,
        slot.last_used_ms == 0,
        slot.pool_commitment_bytes == 0,
        slot.pool_materialized_bytes == 0,
        slot.pool_reserved_bytes == 0,
        slot.known_pool_commitment_bytes == 0,
{
}

/// A model has a slot where one has its id; where ids are distinct, no two slots share one.
pub proof fn law_slots_go_by_their_ids(l: Ledger, id: Seq<char>, i: int, j: int)
    requires
        0 <= i < j < l.slots.len(),
    ensures
        l.slots[i].id@ == id ==> l.has(id),
        l.ids_distinct() ==> l.slots[i].id@ != l.slots[j].id@,
        (forall|k: int| 0 <= k < l.slots.len() ==> (#[trigger] l.slots[k]).id@ != id) ==> !l.has(id),
{
}

} // verus!
