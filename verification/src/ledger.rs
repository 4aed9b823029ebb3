//! The nullifier ledger: a uniqueness-enforcing store mapping each nullifier
//! to its claim record.
//!
//! The ledger is the system's sole mutual-exclusion primitive: `try_reserve`
//! atomically creates a record for a first-seen nullifier and reports
//! `AlreadyExists` without mutation for any later attempt, and
//! `record_broadcast` sets a transaction identifier exactly once. The
//! mathematical model is a map from nullifier to record, and every operation
//! is specified as a pure transition on that map, so the uniqueness and
//! immutability guarantees are stated — and proved — once, at the model
//! level, and carried by the executable store.

use vstd::prelude::*;

verus! {

/// Lifecycle stage of one claim record.
#[derive(Clone, Copy, PartialEq, Eq, Structural, Debug)]
pub enum ClaimStatus {
    /// The nullifier is consumed; no transaction identifier is recorded yet.
    Reserved,
    /// A transfer was broadcast and its identifier is recorded.
    Broadcast,
}

/// Outcome of a reservation attempt.
#[derive(Clone, Copy, PartialEq, Eq, Structural, Debug)]
pub enum ReserveOutcome {
    /// A new record was created; this caller holds the nullifier.
    Created,
    /// A record already existed; nothing was changed.
    AlreadyExists,
}

/// Outcome of recording a broadcast transaction identifier.
#[derive(Clone, Copy, PartialEq, Eq, Structural, Debug)]
pub enum RecordOutcome {
    /// The record moved to `Broadcast` and the identifier was stored.
    Recorded,
    /// No record exists for the nullifier; nothing was changed.
    NotFound,
    /// The record already carries an identifier; nothing was changed.
    Conflict,
}

/// One claim attempt, keyed by its nullifier.
pub struct ClaimRecord {
    /// Caller-supplied single-use token; immutable once created.
    pub nullifier: String,
    /// Destination address, set at reservation time.
    pub wallet_address: String,
    /// Lifecycle stage; see the record invariant.
    pub status: ClaimStatus,
    /// Transaction identifier, absent until a broadcast is recorded and
    /// immutable once set.
    pub tx_id: Option<String>,
    /// Clock reading supplied by the caller at creation.
    pub created_at: u64,
    /// Clock reading supplied when the broadcast was recorded.
    pub claimed_at: Option<u64>,
}

/// Mathematical image of one claim record.
pub struct RecordModel {
    pub wallet_address: Seq<char>,
    pub status: ClaimStatus,
    pub tx_id: Option<Seq<char>>,
    pub created_at: u64,
    pub claimed_at: Option<u64>,
}

impl RecordModel {
    /// Coherence of one record: a transaction identifier and a claim time
    /// are present exactly when the record has reached `Broadcast`.
    pub open spec fn wf(self) -> bool {
        &&& (self.tx_id is Some <==> self.status is Broadcast)
        &&& (self.claimed_at is Some <==> self.status is Broadcast)
    }
}

impl ClaimRecord {
    /// The record's mathematical image.
    pub open spec fn model(self) -> RecordModel {
        RecordModel {
            wallet_address: self.wallet_address@,
            status: self.status,
            tx_id: match self.tx_id {
                Option::Some(t) => Option::Some(t@),
                Option::None => Option::None,
            },
            created_at: self.created_at,
            claimed_at: self.claimed_at,
        }
    }
}

/// Mathematical image of the whole ledger.
pub type LedgerModel = Map<Seq<char>, RecordModel>;

/// Every stored record is coherent.
pub open spec fn model_wf(m: LedgerModel) -> bool {
    forall|n: Seq<char>| #[trigger] m.contains_key(n) ==> m[n].wf()
}

/// What a reservation attempt reports: `Created` exactly when the nullifier
/// is first seen.
pub open spec fn reserve_outcome(m: LedgerModel, n: Seq<char>) -> ReserveOutcome {
    if m.contains_key(n) {
        ReserveOutcome::AlreadyExists
    } else {
        ReserveOutcome::Created
    }
}

/// The record a reservation creates.
pub open spec fn fresh_record(wallet: Seq<char>, now: u64) -> RecordModel {
    RecordModel {
        wallet_address: wallet,
        status: ClaimStatus::Reserved,
        tx_id: Option::None,
        created_at: now,
        claimed_at: Option::None,
    }
}

/// The ledger after a reservation attempt: unchanged when the nullifier is
/// taken, extended by a fresh `Reserved` record otherwise.
pub open spec fn reserve_next(m: LedgerModel, n: Seq<char>, wallet: Seq<char>, now: u64) -> LedgerModel {
    if m.contains_key(n) {
        m
    } else {
        m.insert(n, fresh_record(wallet, now))
    }
}

/// What recording a broadcast reports: `Recorded` exactly when a record
/// exists and carries no transaction identifier yet.
pub open spec fn record_outcome(m: LedgerModel, n: Seq<char>) -> RecordOutcome {
    if !m.contains_key(n) {
        RecordOutcome::NotFound
    } else if m[n].tx_id is Some {
        RecordOutcome::Conflict
    } else {
        RecordOutcome::Recorded
    }
}

/// A record after its broadcast is recorded.
pub open spec fn broadcast_record(r: RecordModel, tx_id: Seq<char>, now: u64) -> RecordModel {
    RecordModel {
        wallet_address: r.wallet_address,
        status: ClaimStatus::Broadcast,
        tx_id: Option::Some(tx_id),
        created_at: r.created_at,
        claimed_at: Option::Some(now),
    }
}

/// The ledger after recording a broadcast: the identifier is stored exactly
/// when the outcome is `Recorded`; otherwise nothing changes.
pub open spec fn record_next(m: LedgerModel, n: Seq<char>, tx_id: Seq<char>, now: u64) -> LedgerModel {
    if record_outcome(m, n) is Recorded {
        m.insert(n, broadcast_record(m[n], tx_id, now))
    } else {
        m
    }
}

/// One ledger operation, for reasoning about arbitrary interleavings of
/// requests.
pub enum LedgerOp {
    Reserve { nullifier: Seq<char>, wallet: Seq<char>, now: u64 },
    RecordBroadcast { nullifier: Seq<char>, tx_id: Seq<char>, now: u64 },
}

/// The ledger after one operation.
pub open spec fn apply_op(m: LedgerModel, op: LedgerOp) -> LedgerModel {
    match op {
        LedgerOp::Reserve { nullifier, wallet, now } => reserve_next(m, nullifier, wallet, now),
        LedgerOp::RecordBroadcast { nullifier, tx_id, now } => record_next(m, nullifier, tx_id, now),
    }
}

/// The ledger after a sequence of operations, applied in order.
pub open spec fn apply_ops(m: LedgerModel, ops: Seq<LedgerOp>) -> LedgerModel
    decreases ops.len(),
{
    if ops.len() == 0 {
        m
    } else {
        apply_ops(apply_op(m, ops[0]), ops.subrange(1, ops.len() as int))
    }
}

/// No operation ever removes a nullifier from the ledger.
pub proof fn lemma_op_preserves_key(m: LedgerModel, op: LedgerOp, n: Seq<char>)
    requires
        m.contains_key(n),
    ensures
        apply_op(m, op).contains_key(n),
{
}

/// No sequence of operations ever removes a nullifier from the ledger.
pub proof fn lemma_ops_preserve_key(m: LedgerModel, ops: Seq<LedgerOp>, n: Seq<char>)
    requires
        m.contains_key(n),
    ensures
        apply_ops(m, ops).contains_key(n),
    decreases ops.len(),
{
    if ops.len() > 0 {
        lemma_op_preserves_key(m, ops[0], n);
        lemma_ops_preserve_key(apply_op(m, ops[0]), ops.subrange(1, ops.len() as int), n);
    }
}

/// Uniqueness: once a nullifier is present in the ledger, a reservation
/// attempt for it observes `AlreadyExists`, whatever operations — for this
/// or any other nullifier — happen in between.
pub proof fn lemma_reserved_nullifier_stays_reserved(m: LedgerModel, ops: Seq<LedgerOp>, n: Seq<char>)
    requires
        m.contains_key(n),
    ensures
        reserve_outcome(apply_ops(m, ops), n) is AlreadyExists,
{
    lemma_ops_preserve_key(m, ops, n);
}

/// Uniqueness under contention: of any number of reservation attempts for
/// the same nullifier, serialized in any order by the store, at most one
/// observes `Created`; every attempt after the first observes
/// `AlreadyExists`.
pub proof fn lemma_at_most_one_created(
    m: LedgerModel,
    n: Seq<char>,
    wallet: Seq<char>,
    now: u64,
    ops: Seq<LedgerOp>,
)
    requires
        reserve_outcome(m, n) is Created,
    ensures
        reserve_outcome(apply_ops(reserve_next(m, n, wallet, now), ops), n) is AlreadyExists,
{
    lemma_reserved_nullifier_stays_reserved(reserve_next(m, n, wallet, now), ops, n);
}

/// One operation never changes a transaction identifier that is already set.
pub proof fn lemma_op_preserves_tx_id(m: LedgerModel, op: LedgerOp, n: Seq<char>, tx: Seq<char>)
    requires
        m.contains_key(n),
        m[n].tx_id == Option::Some(tx),
    ensures
        apply_op(m, op).contains_key(n),
        apply_op(m, op)[n].tx_id == Option::Some(tx),
{
    lemma_op_preserves_key(m, op, n);
}

/// Transaction-identifier immutability: once a record carries an identifier,
/// no sequence of operations can change or remove it.
pub proof fn lemma_tx_id_immutable(m: LedgerModel, ops: Seq<LedgerOp>, n: Seq<char>, tx: Seq<char>)
    requires
        m.contains_key(n),
        m[n].tx_id == Option::Some(tx),
    ensures
        apply_ops(m, ops).contains_key(n),
        apply_ops(m, ops)[n].tx_id == Option::Some(tx),
    decreases ops.len(),
{
    if ops.len() > 0 {
        lemma_op_preserves_tx_id(m, ops[0], n, tx);
        lemma_tx_id_immutable(apply_op(m, ops[0]), ops.subrange(1, ops.len() as int), n, tx);
    }
}

/// A repeated `record_broadcast` for a nullifier whose record already
/// carries an identifier — with any identifier, equal or different —
/// reports `Conflict` and leaves the ledger unchanged.
pub proof fn lemma_repeat_record_conflict(
    m: LedgerModel,
    n: Seq<char>,
    tx: Seq<char>,
    other_tx: Seq<char>,
    now: u64,
)
    requires
        m.contains_key(n),
        m[n].tx_id == Option::Some(tx),
    ensures
        record_outcome(m, n) is Conflict,
        record_next(m, n, other_tx, now) == m,
{
}

/// One operation preserves the record invariant: a transaction identifier
/// and a claim time are stored exactly for `Broadcast` records.
pub proof fn lemma_op_preserves_model_wf(m: LedgerModel, op: LedgerOp)
    requires
        model_wf(m),
    ensures
        model_wf(apply_op(m, op)),
{
    assert forall|n: Seq<char>| #[trigger] apply_op(m, op).contains_key(n) implies apply_op(
        m,
        op,
    )[n].wf() by {
        match op {
            LedgerOp::Reserve { nullifier, wallet, now } => {
                if !m.contains_key(nullifier) && n == nullifier {
                    assert(fresh_record(wallet, now).wf());
                } else {
                    assert(m.contains_key(n));
                }
            },
            LedgerOp::RecordBroadcast { nullifier, tx_id, now } => {
                if record_outcome(m, nullifier) is Recorded && n == nullifier {
                    assert(broadcast_record(m[nullifier], tx_id, now).wf());
                } else {
                    assert(m.contains_key(n));
                }
            },
        }
    }
}

/// In every ledger reachable from a coherent one — the empty ledger
/// included — the record invariant holds.
pub proof fn lemma_ops_preserve_model_wf(m: LedgerModel, ops: Seq<LedgerOp>)
    requires
        model_wf(m),
    ensures
        model_wf(apply_ops(m, ops)),
    decreases ops.len(),
{
    if ops.len() > 0 {
        lemma_op_preserves_model_wf(m, ops[0]);
        lemma_ops_preserve_model_wf(apply_op(m, ops[0]), ops.subrange(1, ops.len() as int));
    }
}

/// The durable store: claim records, at most one per nullifier.
pub struct Ledger {
    records: Vec<ClaimRecord>,
}

impl View for Ledger {
    type V = LedgerModel;

    closed spec fn view(&self) -> LedgerModel {
        Map::new(
            |n: Seq<char>|
                exists|i: int|
                    0 <= i < self.records@.len() && (#[trigger] self.records@[i]).nullifier@ == n,
            |n: Seq<char>|
                {
                    let i = choose|i: int|
                        0 <= i < self.records@.len() && (#[trigger] self.records@[i]).nullifier@
                            == n;
                    self.records@[i].model()
                },
        )
    }
}

impl Ledger {
    /// Internal invariant: nullifiers are unique and every record is
    /// coherent.
    pub closed spec fn wf(self) -> bool {
        &&& (forall|i: int, j: int|
            0 <= i < j < self.records@.len() ==> (#[trigger] self.records@[i]).nullifier@ != (
            #[trigger] self.records@[j]).nullifier@)
        &&& (forall|i: int|
            0 <= i < self.records@.len() ==> (#[trigger] self.records@[i]).model().wf())
    }

    /// An empty ledger.
    pub fn new() -> (l: Ledger)
        ensures
            l.wf(),
            l@ == LedgerModel::empty(),
    {
        let l = Ledger { records: Vec::new() };
        proof {
            assert(l@ =~= LedgerModel::empty());
        }
        l
    }

    /// Atomically reserves a first-seen nullifier with a fresh `Reserved`
    /// record; reports `AlreadyExists` without mutation otherwise.
    pub fn try_reserve(&mut self, nullifier: &String, wallet_address: &String, now: u64) -> (r:
        ReserveOutcome)
        requires
            old(self).wf(),
        ensures
            final(self).wf(),
            r == reserve_outcome(old(self)@, nullifier@),
            final(self)@ == reserve_next(old(self)@, nullifier@, wallet_address@, now),
    {
        let count = self.records.len();
        let mut idx: usize = 0;
        while idx < count
            invariant
                old(self).wf(),
                count == self.records@.len(),
                idx <= count,
                self == old(self),
                forall|j: int| 0 <= j < idx ==> (#[trigger] self.records@[j]).nullifier@ != nullifier@,
            decreases count - idx,
        {
            if self.records[idx].nullifier == *nullifier {
                proof {
                    lemma_view_at(*self, idx as int);
                }
                return ReserveOutcome::AlreadyExists;
            }
            idx += 1;
        }
        proof {
            if self@.contains_key(nullifier@) {
                let i = choose|i: int|
                    0 <= i < self.records@.len() && (#[trigger] self.records@[i]).nullifier@
                        == nullifier@;
                assert(self.records@[i].nullifier@ != nullifier@);
            }
        }
        let rec = ClaimRecord {
            nullifier: nullifier.clone(),
            wallet_address: wallet_address.clone(),
            status: ClaimStatus::Reserved,
            tx_id: Option::None,
            created_at: now,
            claimed_at: Option::None,
        };
        self.records.push(rec);
        proof {
            let r0 = old(self).records@;
            let r1 = self.records@;
            let n = nullifier@;
            assert forall|i: int, j: int| 0 <= i < j < r1.len() implies (#[trigger] r1[i]).nullifier@
                != (#[trigger] r1[j]).nullifier@ by {
                if j == r1.len() - 1 {
                    assert(r1[i] == r0[i]);
                }
            }
            assert forall|i: int| 0 <= i < r1.len() implies (#[trigger] r1[i]).model().wf() by {
                if i < r1.len() - 1 {
                    assert(r1[i] == r0[i]);
                }
            }
            assert(self.wf());
            let v0 = old(self)@;
            let v1 = self@;
            let target = v0.insert(n, fresh_record(wallet_address@, now));
            assert(v1 =~= target) by {
                assert forall|k: Seq<char>| v1.contains_key(k) implies target.contains_key(k)
                    && v1[k] == target[k] by {
                    if k == n {
                        assert(r1[r1.len() - 1].nullifier@ == n);
                        lemma_view_at(*self, r1.len() - 1);
                        assert(r1[r1.len() - 1].model() == fresh_record(wallet_address@, now));
                    } else {
                        let i = choose|i: int|
                            0 <= i < r1.len() && (#[trigger] r1[i]).nullifier@ == k;
                        assert(i < r1.len() - 1);
                        assert(r0[i] == r1[i]);
                        lemma_view_at(*old(self), i);
                        lemma_view_at(*self, i);
                    }
                }
                assert forall|k: Seq<char>| target.contains_key(k) implies v1.contains_key(
                    k,
                ) by {
                    if k == n {
                        assert(r1[r1.len() - 1].nullifier@ == n);
                    } else {
                        let i = choose|i: int|
                            0 <= i < r0.len() && (#[trigger] r0[i]).nullifier@ == k;
                        assert(r1[i] == r0[i]);
                        assert(r1[i].nullifier@ == k);
                    }
                }
            }
        }
        ReserveOutcome::Created
    }

    /// Moves an existing `Reserved` record to `Broadcast` and stores the
    /// transaction identifier, only if none is stored yet; reports
    /// `NotFound` or `Conflict` without mutation otherwise.
    pub fn record_broadcast(&mut self, nullifier: &String, tx_id: &String, now: u64) -> (r:
        RecordOutcome)
        requires
            old(self).wf(),
        ensures
            final(self).wf(),
            r == record_outcome(old(self)@, nullifier@),
            final(self)@ == record_next(old(self)@, nullifier@, tx_id@, now),
    {
        let count = self.records.len();
        let mut idx: usize = 0;
        while idx < count
            invariant
                old(self).wf(),
                count == self.records@.len(),
                idx <= count,
                self == old(self),
                forall|j: int| 0 <= j < idx ==> (#[trigger] self.records@[j]).nullifier@ != nullifier@,
            decreases count - idx,
        {
            if self.records[idx].nullifier == *nullifier {
                proof {
                    lemma_view_at(*self, idx as int);
                }
                if self.records[idx].tx_id.is_some() {
                    return RecordOutcome::Conflict;
                }
                let ghost v0 = self@;
                let ghost r0 = self.records@;
                let ghost n = nullifier@;
                let nf = self.records[idx].nullifier.clone();
                let wa = self.records[idx].wallet_address.clone();
                let ca = self.records[idx].created_at;
                let rec = ClaimRecord {
                    nullifier: nf,
                    wallet_address: wa,
                    status: ClaimStatus::Broadcast,
                    tx_id: Option::Some(tx_id.clone()),
                    created_at: ca,
                    claimed_at: Option::Some(now),
                };
                self.records[idx] = rec;
                proof {
                    let r1 = self.records@;
                    assert(r1 == r0.update(idx as int, rec));
                    assert(rec.nullifier@ == n);
                    assert(rec.model() == broadcast_record(v0[n], tx_id@, now));
                    assert forall|i: int, j: int| 0 <= i < j < r1.len() implies (
                    #[trigger] r1[i]).nullifier@ != (#[trigger] r1[j]).nullifier@ by {
                        assert(r0[i].nullifier@ != r0[j].nullifier@);
                    }
                    assert forall|i: int| 0 <= i < r1.len() implies (
                    #[trigger] r1[i]).model().wf() by {
                        if i != idx {
                            assert(r1[i] == r0[i]);
                        }
                    }
                    assert(self.wf());
                    let v1 = self@;
                    let target = v0.insert(n, broadcast_record(v0[n], tx_id@, now));
                    assert(v1 =~= target) by {
                        assert forall|k: Seq<char>| v1.contains_key(k) implies target.contains_key(
                            k,
                        ) && v1[k] == target[k] by {
                            if k == n {
                                assert(r1[idx as int].nullifier@ == n);
                                lemma_view_at(*self, idx as int);
                            } else {
                                let i = choose|i: int|
                                    0 <= i < r1.len() && (#[trigger] r1[i]).nullifier@ == k;
                                assert(i != idx);
                                assert(r0[i] == r1[i]);
                                lemma_view_at(*old(self), i);
                                lemma_view_at(*self, i);
                            }
                        }
                        assert forall|k: Seq<char>| target.contains_key(k) implies v1.contains_key(
                            k,
                        ) by {
                            if k == n {
                                assert(r1[idx as int].nullifier@ == n);
                            } else {
                                let i = choose|i: int|
                                    0 <= i < r0.len() && (#[trigger] r0[i]).nullifier@ == k;
                                assert(r1[i] == r0[i]);
                                assert(r1[i].nullifier@ == k);
                            }
                        }
                    }
                }
                return RecordOutcome::Recorded;
            }
            idx += 1;
        }
        proof {
            if self@.contains_key(nullifier@) {
                let i = choose|i: int|
                    0 <= i < self.records@.len() && (#[trigger] self.records@[i]).nullifier@
                        == nullifier@;
                assert(self.records@[i].nullifier@ != nullifier@);
            }
        }
        RecordOutcome::NotFound
    }

    /// Reads the record for a nullifier, if any.
    pub fn lookup(&self, nullifier: &String) -> (r: Option<&ClaimRecord>)
        requires
            self.wf(),
        ensures
            match r {
                Option::Some(rec) => self@.contains_key(nullifier@) && rec.model()
                    == self@[nullifier@],
                Option::None => !self@.contains_key(nullifier@),
            },
    {
        let count = self.records.len();
        let mut idx: usize = 0;
        while idx < count
            invariant
                self.wf(),
                count == self.records@.len(),
                idx <= count,
                forall|j: int| 0 <= j < idx ==> (#[trigger] self.records@[j]).nullifier@ != nullifier@,
            decreases count - idx,
        {
            if self.records[idx].nullifier == *nullifier {
                proof {
                    lemma_view_at(*self, idx as int);
                }
                return Option::Some(&self.records[idx]);
            }
            idx += 1;
        }
        proof {
            if self@.contains_key(nullifier@) {
                let i = choose|i: int|
                    0 <= i < self.records@.len() && (#[trigger] self.records@[i]).nullifier@
                        == nullifier@;
                assert(self.records@[i].nullifier@ != nullifier@);
            }
        }
        Option::None
    }
}

/// In a well-formed ledger, the record stored at an index is the one the
/// model maps its nullifier to.
proof fn lemma_view_at(l: Ledger, i: int)
    requires
        l.wf(),
        0 <= i < l.records@.len(),
    ensures
        l@.contains_key(l.records@[i].nullifier@),
        l@[l.records@[i].nullifier@] == l.records@[i].model(),
{
    let n = l.records@[i].nullifier@;
    assert(l@.contains_key(n));
    let j = choose|j: int| 0 <= j < l.records@.len() && (#[trigger] l.records@[j]).nullifier@ == n;
    if i != j {
        assert(l.records@[i].nullifier@ != l.records@[j].nullifier@);
    }
}

/// A well-formed ledger satisfies the model-level record invariant: a
/// transaction identifier is stored exactly for `Broadcast` records.
pub proof fn lemma_ledger_model_wf(l: Ledger)
    requires
        l.wf(),
    ensures
        model_wf(l@),
{
    assert forall|n: Seq<char>| #[trigger] l@.contains_key(n) implies l@[n].wf() by {
        let i = choose|i: int|
            0 <= i < l.records@.len() && (#[trigger] l.records@[i]).nullifier@ == n;
        lemma_view_at(l, i);
    }
}

} // verus!
