//! Reconciliation: the per-item decision at the center of every poll cycle.
//!
//! Each freshly fetched item is reduced to a record of four things: its
//! fingerprint key, its current version signature, whether it would be stale
//! if seen for the first time, and the event to announce it with. Against the
//! store, each record resolves the same way for every source kind:
//!
//! * key absent — the signature is recorded; the event is published unless
//!   the record is stale on first sight (then it is recorded silently, so it
//!   is never announced later either);
//! * key present with the same signature — nothing is written, nothing is
//!   published;
//! * key present with a different signature — the signature is overwritten
//!   and the event is published.

use crate::bus::Bus;
use crate::event::{Event, EventView};
use crate::store::{Store, StoreWrite};
use vstd::prelude::*;

verus! {

/// The abstract content of one reconciliation record.
pub struct RecView {
    /// The item's fingerprint key.
    pub key: Seq<char>,
    /// The item's current version signature.
    pub sig: Seq<u8>,
    /// Whether the item, seen now for the first time, would be too old to
    /// announce.
    pub stale: bool,
    /// The event announcing the item.
    pub ev: EventView,
}

/// No two records share a key (within one cycle).
pub open spec fn distinct_keys(rs: Seq<RecView>) -> bool {
    forall|i: int, j: int| 0 <= i < j < rs.len() ==> rs[i].key != rs[j].key
}

/// Whether reconciling `r` against store state `m` writes the store.
pub open spec fn step_writes(m: Map<Seq<char>, Seq<u8>>, r: RecView) -> bool {
    !(m.contains_key(r.key) && m[r.key] == r.sig)
}

/// Whether reconciling `r` against store state `m` publishes `r.ev`.
pub open spec fn step_emits(m: Map<Seq<char>, Seq<u8>>, r: RecView) -> bool {
    if m.contains_key(r.key) {
        m[r.key] != r.sig
    } else {
        !r.stale
    }
}

/// The store state after reconciling `r` against `m`.
pub open spec fn step_map(m: Map<Seq<char>, Seq<u8>>, r: RecView) -> Map<Seq<char>, Seq<u8>> {
    if step_writes(m, r) {
        m.insert(r.key, r.sig)
    } else {
        m
    }
}

/// The store state after reconciling the records `rs`, in order, against `m`.
pub open spec fn run_map(m: Map<Seq<char>, Seq<u8>>, rs: Seq<RecView>) -> Map<Seq<char>, Seq<u8>>
    decreases rs.len(),
{
    if rs.len() == 0 {
        m
    } else {
        run_map(step_map(m, rs[0]), rs.drop_first())
    }
}

/// The events published while reconciling the records `rs` against `m`.
pub open spec fn run_events(m: Map<Seq<char>, Seq<u8>>, rs: Seq<RecView>) -> Seq<EventView>
    decreases rs.len(),
{
    if rs.len() == 0 {
        Seq::empty()
    } else {
        (if step_emits(m, rs[0]) {
            seq![rs[0].ev]
        } else {
            Seq::empty()
        }) + run_events(step_map(m, rs[0]), rs.drop_first())
    }
}

/// The writes performed while reconciling the records `rs` against `m`.
pub open spec fn run_writes(m: Map<Seq<char>, Seq<u8>>, rs: Seq<RecView>) -> Seq<
    (Seq<char>, Seq<u8>),
>
    decreases rs.len(),
{
    if rs.len() == 0 {
        Seq::empty()
    } else {
        (if step_writes(m, rs[0]) {
            seq![(rs[0].key, rs[0].sig)]
        } else {
            Seq::empty()
        }) + run_writes(step_map(m, rs[0]), rs.drop_first())
    }
}

/// Folding one more record onto the end of a run.
pub proof fn lemma_run_snoc(m: Map<Seq<char>, Seq<u8>>, rs: Seq<RecView>, r: RecView)
    ensures
        run_map(m, rs.push(r)) == step_map(run_map(m, rs), r),
        run_events(m, rs.push(r)) =~= run_events(m, rs) + (if step_emits(run_map(m, rs), r) {
            seq![r.ev]
        } else {
            Seq::<EventView>::empty()
        }),
        run_writes(m, rs.push(r)) =~= run_writes(m, rs) + (if step_writes(run_map(m, rs), r) {
            seq![(r.key, r.sig)]
        } else {
            Seq::<(Seq<char>, Seq<u8>)>::empty()
        }),
    decreases rs.len(),
{
    if rs.len() == 0 {
        reveal_with_fuel(run_map, 2);
        reveal_with_fuel(run_events, 2);
        reveal_with_fuel(run_writes, 2);
        assert(rs.push(r)[0] == r);
        assert(rs.push(r).drop_first() =~= Seq::<RecView>::empty());
        assert(run_map(m, rs) == m);
    } else {
        assert(rs.push(r)[0] == rs[0]);
        assert(rs.push(r).drop_first() =~= rs.drop_first().push(r));
        lemma_run_snoc(step_map(m, rs[0]), rs.drop_first(), r);
    }
}

/// A run leaves keys it never touches exactly as they were.
pub proof fn lemma_run_frame(m: Map<Seq<char>, Seq<u8>>, rs: Seq<RecView>, k: Seq<char>)
    requires
        forall|i: int| 0 <= i < rs.len() ==> rs[i].key != k,
    ensures
        run_map(m, rs).contains_key(k) == m.contains_key(k),
        m.contains_key(k) ==> run_map(m, rs)[k] == m[k],
    decreases rs.len(),
{
    if rs.len() > 0 {
        assert(rs[0].key != k);
        lemma_run_frame(step_map(m, rs[0]), rs.drop_first(), k);
    }
}

/// After a run over records with distinct keys, the store holds each
/// record's signature under its key.
pub proof fn lemma_run_records_stored(m: Map<Seq<char>, Seq<u8>>, rs: Seq<RecView>, i: int)
    requires
        distinct_keys(rs),
        0 <= i < rs.len(),
    ensures
        run_map(m, rs).contains_key(rs[i].key),
        run_map(m, rs)[rs[i].key] == rs[i].sig,
    decreases rs.len(),
{
    let m1 = step_map(m, rs[0]);
    let tail = rs.drop_first();
    if i == 0 {
        assert(m1.contains_key(rs[0].key) && m1[rs[0].key] == rs[0].sig);
        assert(forall|j: int| 0 <= j < tail.len() ==> tail[j] == rs[j + 1]);
        lemma_run_frame(m1, tail, rs[0].key);
    } else {
        assert(tail[i - 1] == rs[i]);
        lemma_run_records_stored(m1, tail, i - 1);
    }
}

/// Law (idempotence): reconciling the same records again, directly after a
/// cycle that reconciled them, publishes nothing — every item is then already
/// known with an unchanged signature, and a stale item recorded silently the
/// first time stays silent. Holds for every source kind; the keys within one
/// cycle are distinct, as key uniqueness is the one demand put on them.
pub proof fn lemma_second_cycle_silent(m: Map<Seq<char>, Seq<u8>>, rs: Seq<RecView>)
    requires
        distinct_keys(rs),
    ensures
        run_events(run_map(m, rs), rs) =~= Seq::<EventView>::empty(),
        run_map(run_map(m, rs), rs) == run_map(m, rs),
    decreases rs.len(),
{
    if rs.len() > 0 {
        let m1 = run_map(m, rs);
        let tail = rs.drop_first();
        lemma_run_records_stored(m, rs, 0);
        assert(!step_emits(m1, rs[0]));
        assert(step_map(m1, rs[0]) == m1);
        lemma_second_cycle_silent(step_map(m, rs[0]), tail);
        assert(run_events(m1, rs) =~= run_events(m1, tail));
    }
}

/// A run publishes at most one event per record.
pub proof fn lemma_run_events_len(m: Map<Seq<char>, Seq<u8>>, rs: Seq<RecView>)
    ensures
        run_events(m, rs).len() <= rs.len(),
    decreases rs.len(),
{
    if rs.len() > 0 {
        lemma_run_events_len(step_map(m, rs[0]), rs.drop_first());
    }
}

/// Law (new items announced): a cycle over records none of which is stored
/// yet and none of which is stale — a batch of fresh items within the
/// horizon — announces every record's event, in order, and stores every
/// signature.
pub proof fn lemma_new_items_announced(m: Map<Seq<char>, Seq<u8>>, rs: Seq<RecView>)
    requires
        distinct_keys(rs),
        forall|i: int| 0 <= i < rs.len() ==> !m.contains_key(#[trigger] rs[i].key),
        forall|i: int| 0 <= i < rs.len() ==> !(#[trigger] rs[i]).stale,
    ensures
        run_events(m, rs) =~= Seq::new(rs.len(), |i: int| rs[i].ev),
        forall|i: int|
            0 <= i < rs.len() ==> run_map(m, rs).contains_key(#[trigger] rs[i].key) && run_map(
                m,
                rs,
            )[rs[i].key] == rs[i].sig,
    decreases rs.len(),
{
    assert forall|i: int| 0 <= i < rs.len() implies run_map(m, rs).contains_key(
        #[trigger] rs[i].key,
    ) && run_map(m, rs)[rs[i].key] == rs[i].sig by {
        lemma_run_records_stored(m, rs, i);
    }
    if rs.len() > 0 {
        let m1 = step_map(m, rs[0]);
        let tail = rs.drop_first();
        assert(step_emits(m, rs[0]));
        assert(forall|i: int| 0 <= i < tail.len() ==> tail[i] == rs[i + 1]);
        assert(forall|i: int| 0 <= i < tail.len() ==> !m1.contains_key(#[trigger] tail[i].key));
        lemma_new_items_announced(m1, tail);
        assert(run_events(m, rs) =~= seq![rs[0].ev] + run_events(m1, tail));
        assert(run_events(m, rs) =~= Seq::new(rs.len(), |i: int| rs[i].ev));
    }
}

/// Law (idempotence, repeated poll): reconciling records with the same keys
/// and signatures as a cycle just reconciled — the same unchanged source
/// polled again, perhaps at a later time, when only the staleness verdicts
/// may have moved — publishes nothing and changes nothing: every item is
/// already known with an unchanged signature, and staleness is consulted
/// only for keys seen for the first time.
pub proof fn lemma_repeat_poll_silent(m: Map<Seq<char>, Seq<u8>>, rs1: Seq<RecView>, rs2: Seq<
    RecView,
>)
    requires
        distinct_keys(rs1),
        rs1.len() == rs2.len(),
        forall|i: int|
            0 <= i < rs1.len() ==> #[trigger] rs2[i].key == rs1[i].key && rs2[i].sig == rs1[i].sig,
    ensures
        run_events(run_map(m, rs1), rs2) =~= Seq::<EventView>::empty(),
        run_map(run_map(m, rs1), rs2) == run_map(m, rs1),
    decreases rs1.len(),
{
    if rs1.len() > 0 {
        let m1 = run_map(m, rs1);
        let t1 = rs1.drop_first();
        let t2 = rs2.drop_first();
        lemma_run_records_stored(m, rs1, 0);
        assert(rs2[0].key == rs1[0].key && rs2[0].sig == rs1[0].sig);
        assert(!step_emits(m1, rs2[0]));
        assert(step_map(m1, rs2[0]) == m1);
        assert(forall|i: int| 0 <= i < t1.len() ==> t1[i] == rs1[i + 1] && t2[i] == rs2[i + 1]);
        lemma_repeat_poll_silent(step_map(m, rs1[0]), t1, t2);
        assert(run_events(m1, rs2) =~= run_events(m1, t2));
    }
}

/// Law (change detection): a record whose key is stored with a different
/// signature publishes exactly its event, and the store holds the new
/// signature afterwards.
pub proof fn lemma_change_detected(m: Map<Seq<char>, Seq<u8>>, r: RecView)
    requires
        m.contains_key(r.key),
        m[r.key] != r.sig,
    ensures
        run_events(m, seq![r]) =~= seq![r.ev],
        run_map(m, seq![r]).contains_key(r.key),
        run_map(m, seq![r])[r.key] == r.sig,
{
    reveal_with_fuel(run_map, 2);
    reveal_with_fuel(run_events, 2);
    assert(seq![r].drop_first() =~= Seq::<RecView>::empty());
    assert(seq![r][0] == r);
    assert(run_events(m, seq![r]) =~= seq![r.ev] + run_events(step_map(m, r), Seq::empty()));
}

/// Law (staleness suppression): a record never seen before that is stale on
/// first sight publishes nothing, yet its key is present in the store
/// afterwards — it is recorded, never announced.
pub proof fn lemma_stale_suppressed(m: Map<Seq<char>, Seq<u8>>, r: RecView)
    requires
        !m.contains_key(r.key),
        r.stale,
    ensures
        run_events(m, seq![r]) =~= Seq::<EventView>::empty(),
        run_map(m, seq![r]).contains_key(r.key),
        run_map(m, seq![r])[r.key] == r.sig,
{
    reveal_with_fuel(run_map, 2);
    reveal_with_fuel(run_events, 2);
    assert(seq![r].drop_first() =~= Seq::<RecView>::empty());
    assert(seq![r][0] == r);
    assert(run_events(m, seq![r]) =~= run_events(step_map(m, r), Seq::empty()));
}

/// The records of a cycle across several fetches, where a failed fetch
/// (`None`) contributes nothing.
pub open spec fn flatten_fetches(os: Seq<Option<Seq<RecView>>>) -> Seq<RecView>
    decreases os.len(),
{
    if os.len() == 0 {
        Seq::empty()
    } else {
        (match os[0] {
            Some(rs) => rs,
            None => Seq::empty(),
        }) + flatten_fetches(os.drop_first())
    }
}

/// Law (partial failure isolation): a failed fetch contributes nothing to a
/// cycle — the records, and with them every store update and every event of
/// the sibling fetches, are exactly those of the cycle without it.
pub proof fn lemma_failed_fetch_isolated(os: Seq<Option<Seq<RecView>>>, i: int)
    requires
        0 <= i < os.len(),
        os[i] is None,
    ensures
        flatten_fetches(os) =~= flatten_fetches(os.remove(i)),
    decreases os.len(),
{
    if i == 0 {
        assert(os.remove(0) =~= os.drop_first());
    } else {
        assert(os.remove(i).drop_first() =~= os.drop_first().remove(i - 1));
        assert(os.remove(i)[0] == os[0]);
        lemma_failed_fetch_isolated(os.drop_first(), i - 1);
    }
}

/// Appending one more fetch outcome to a round.
pub proof fn lemma_flatten_snoc(os: Seq<Option<Seq<RecView>>>, o: Option<Seq<RecView>>)
    ensures
        flatten_fetches(os.push(o)) =~= flatten_fetches(os) + (match o {
            Some(rs) => rs,
            None => Seq::<RecView>::empty(),
        }),
    decreases os.len(),
{
    if os.len() == 0 {
        reveal_with_fuel(flatten_fetches, 2);
        assert(os.push(o)[0] == o);
        assert(os.push(o).drop_first() =~= Seq::<Option<Seq<RecView>>>::empty());
        assert(flatten_fetches(os) =~= Seq::<RecView>::empty());
    } else {
        assert(os.push(o)[0] == os[0]);
        assert(os.push(o).drop_first() =~= os.drop_first().push(o));
        lemma_flatten_snoc(os.drop_first(), o);
    }
}

/// Running records back to back: the second batch starts from the map the
/// first one left.
pub proof fn lemma_run_concat(m: Map<Seq<char>, Seq<u8>>, a: Seq<RecView>, b: Seq<RecView>)
    ensures
        run_map(m, a + b) == run_map(run_map(m, a), b),
        run_events(m, a + b) =~= run_events(m, a) + run_events(run_map(m, a), b),
        run_writes(m, a + b) =~= run_writes(m, a) + run_writes(run_map(m, a), b),
    decreases a.len(),
{
    if a.len() == 0 {
        assert(a + b =~= b);
    } else {
        assert((a + b)[0] == a[0]);
        assert((a + b).drop_first() =~= a.drop_first() + b);
        lemma_run_concat(step_map(m, a[0]), a.drop_first(), b);
    }
}

/// The abstract content of a sequence of performed writes.
pub open spec fn writes_views(ws: Seq<StoreWrite>) -> Seq<(Seq<char>, Seq<u8>)> {
    Seq::new(ws.len(), |i: int| (ws[i].key@, ws[i].value@))
}

pub(crate) fn clone_bytes(v: &Vec<u8>) -> (r: Vec<u8>)
    ensures
        r@ == v@,
{
    let mut r: Vec<u8> = Vec::new();
    let n = v.len();
    let mut i: usize = 0;
    while i < n
        invariant
            n == v@.len(),
            i <= n,
            r@ =~= v@.take(i as int),
        decreases n - i,
    {
        r.push(v[i]);
        i += 1;
    }
    proof {
        assert(v@.take(n as int) =~= v@);
    }
    r
}

/// Reconciles one record against the store: decides from the stored
/// signature whether the item is new, unchanged or updated; writes the new
/// signature where it differs or is missing (appending the write to `writes`
/// so a durable copy can replay it); and publishes the record's event
/// exactly when the reconciliation policy announces the item.
pub fn reconcile_one(
    store: &mut Store,
    bus: &mut Bus,
    writes: &mut Vec<StoreWrite>,
    key: String,
    sig: Vec<u8>,
    stale: bool,
    ev: Event,
) -> (emitted: bool)
    requires
        old(bus).events().len() < usize::MAX,
    ensures
        ({
            let r = RecView { key: key@, sig: sig@, stale, ev: ev@ };
            &&& emitted == step_emits(old(store)@, r)
            &&& final(store)@ == step_map(old(store)@, r)
            &&& final(bus).events() == old(bus).events() + (if step_emits(old(store)@, r) {
                seq![ev@]
            } else {
                Seq::<EventView>::empty()
            })
            &&& final(bus).spec_capacity() == old(bus).spec_capacity()
            &&& writes_views(final(writes)@) =~= writes_views(old(writes)@) + (if step_writes(
                old(store)@,
                r,
            ) {
                seq![(key@, sig@)]
            } else {
                Seq::<(Seq<char>, Seq<u8>)>::empty()
            })
        }),
{
    let ghost r = RecView { key: key@, sig: sig@, stale, ev: ev@ };
    let ghost ws0 = writes@;
    let (write, emit): (bool, bool) = match store.get(&key) {
        Some(stored) => {
            let same = bytes_eq(stored, &sig);
            (!same, !same)
        },
        None => (true, !stale),
    };
    if write {
        let key_copy = key.clone();
        let sig_copy = clone_bytes(&sig);
        store.put(key_copy, sig_copy);
        writes.push(StoreWrite { key, value: sig });
        proof {
            assert(writes_views(writes@) =~= writes_views(ws0) + seq![(r.key, r.sig)]);
        }
    }
    if emit {
        bus.publish(ev);
        proof {
            assert(bus.events() =~= old(bus).events() + seq![ev@]);
        }
    } else {
        proof {
            assert(bus.events() =~= old(bus).events() + Seq::<EventView>::empty());
        }
    }
    emit
}

/// Byte-for-byte equality of two signatures.
fn bytes_eq(a: &Vec<u8>, b: &Vec<u8>) -> (r: bool)
    ensures
        r == (a@ == b@),
{
    let n = a.len();
    if n != b.len() {
        proof {
            assert(a@ != b@);
        }
        return false;
    }
    let mut i: usize = 0;
    while i < n
        invariant
            n == a@.len(),
            n == b@.len(),
            i <= n,
            forall|j: int| 0 <= j < i ==> a@[j] == b@[j],
        decreases n - i,
    {
        if a[i] != b[i] {
            return false;
        }
        i += 1;
    }
    proof {
        assert(a@ =~= b@);
    }
    true
}

} // verus!
