//! The feed poller's reconciliation cycle.
//!
//! One cycle covers one fetch round: for every configured URL the embedding
//! program fetches and parses the body, and each entry of a parsed feed is
//! reduced here to plain values; every entry is then reconciled against the
//! fingerprint store under the key `FEED-<hash(url)>-<hash(entry id)>`,
//! with the big-endian bytes of its timestamp (published, or else updated,
//! or else zero) as its version signature. A URL whose fetch or parse
//! failed is skipped for the cycle and leaves the outcome of its siblings
//! untouched.

use crate::bus::Bus;
use crate::event::{clone_opt_string, Event, EventView};
use crate::recon::{
    flatten_fetches, lemma_failed_fetch_isolated, lemma_flatten_snoc, lemma_run_concat,
    lemma_stale_suppressed, reconcile_one, run_events, run_map, run_writes, writes_views, RecView,
};
use crate::store::{Store, StoreWrite};
use crate::utils::{get_hash, hash_string_of};
use vstd::prelude::*;
use vstd::string::StringExecFns;

verus! {

#[verifier::external_type_specification]
#[verifier::external_body]
pub struct ExFeed(feed_rs::model::Feed);

#[verifier::external_type_specification]
#[verifier::external_body]
pub struct ExEntry(feed_rs::model::Entry);

/// One feed entry reduced to the plain values the reconciliation reads.
pub struct FeedEntryData {
    /// The entry's own identifier, as the feed declared it.
    pub id: String,
    /// Unix timestamp of first publication, when given.
    pub published: Option<i64>,
    /// Unix timestamp of last significant modification, when given.
    pub updated: Option<i64>,
    pub title: Option<String>,
    /// The targets of the entry's links, in feed order.
    pub links: Vec<String>,
    /// The entry's short summary, when given.
    pub summary: Option<String>,
    /// The body of the entry's content block, when given.
    pub content_body: Option<String>,
}

/// The abstract content of a [`FeedEntryData`].
pub struct FeedEntryView {
    pub id: Seq<char>,
    pub published: Option<i64>,
    pub updated: Option<i64>,
    pub title: Option<Seq<char>>,
    pub links: Seq<Seq<char>>,
    pub summary: Option<Seq<char>>,
    pub content_body: Option<Seq<char>>,
}

impl View for FeedEntryData {
    type V = FeedEntryView;

    open spec fn view(&self) -> FeedEntryView {
        FeedEntryView {
            id: self.id@,
            published: self.published,
            updated: self.updated,
            title: self.title.deep_view(),
            links: self.links.deep_view(),
            summary: self.summary.deep_view(),
            content_body: self.content_body.deep_view(),
        }
    }
}

/// Relies on the `entries` field of feed_rs's `Feed`: the feed's entries, in
/// the order the source returned them.
#[verifier::external_body]
pub fn take_entries(feed: feed_rs::model::Feed) -> (r: Vec<feed_rs::model::Entry>) {
    feed.entries
}

/// Relies on the public fields of feed_rs's `Entry` (and on chrono's
/// `DateTime::timestamp` for the two dates): copies each field the
/// reconciliation reads into plain values, one for one.
#[verifier::external_body]
pub fn entry_data(e: &feed_rs::model::Entry) -> (r: FeedEntryData) {
    FeedEntryData {
        id: e.id.clone(),
        published: e.published.map(|t| t.timestamp()),
        updated: e.updated.map(|t| t.timestamp()),
        title: e.title.as_ref().map(|t| t.content.clone()),
        links: e.links.iter().map(|l| l.href.clone()).collect(),
        summary: e.summary.as_ref().map(|t| t.content.clone()),
        content_body: e.content.as_ref().and_then(|c| c.body.clone()),
    }
}

/// Reduces a parsed feed's entries to plain values, in feed order. Parsing
/// the fetched body is the embedding program's concern: the parser can
/// panic on pathological extension values, which no condition on the raw
/// bytes can carve out (entity decoding sits between the bytes and the
/// offending text), so the parse call stands outside the verified core,
/// contained there, and only the parsed feed comes in.
pub fn extract_entries(feed: feed_rs::model::Feed) -> Vec<FeedEntryData> {
    let entries = take_entries(feed);
    let mut out: Vec<FeedEntryData> = Vec::new();
    let n = entries.len();
    let mut i: usize = 0;
    while i < n
        invariant
            n == entries@.len(),
            i <= n,
        decreases n - i,
    {
        out.push(entry_data(&entries[i]));
        i += 1;
    }
    out
}

/// The entry's version signature timestamp: published, or else updated, or
/// else zero.
pub open spec fn sig_ts(e: FeedEntryView) -> i64 {
    match e.published {
        Some(t) => t,
        None => match e.updated {
            Some(t) => t,
            None => 0,
        },
    }
}

/// The timestamp reinterpreted as an unsigned 64-bit value (two's
/// complement).
pub open spec fn u64_of_i64(x: i64) -> u64 {
    if x >= 0 {
        x as u64
    } else {
        (x + 0x10000000000000000) as u64
    }
}

/// The big-endian bytes of a 64-bit value.
pub open spec fn be_bytes64(u: u64) -> Seq<u8> {
    seq![
        ((u >> 56) & 0xff) as u8,
        ((u >> 48) & 0xff) as u8,
        ((u >> 40) & 0xff) as u8,
        ((u >> 32) & 0xff) as u8,
        ((u >> 24) & 0xff) as u8,
        ((u >> 16) & 0xff) as u8,
        ((u >> 8) & 0xff) as u8,
        (u & 0xff) as u8,
    ]
}

/// A feed entry's version signature: the big-endian bytes of its timestamp.
pub open spec fn feed_sig(ts: i64) -> Seq<u8> {
    be_bytes64(u64_of_i64(ts))
}

/// Whether an item first seen at `now` with timestamp `ts` predates the
/// staleness horizon of `ignore_days` days.
pub open spec fn is_stale(ts: i64, now: i64, ignore_days: u64) -> bool {
    (ts as int) < (now as int) - (ignore_days as int) * 86400
}

/// The fingerprint key of one feed entry: the feed's identity (hash of its
/// URL) and the hash of the entry's own identifier, both hashed to bound the
/// key length.
pub open spec fn feed_key(feed_hash: Seq<char>, id: Seq<char>) -> Seq<char> {
    "FEED-"@ + feed_hash + "-"@ + hash_string_of(id)
}

/// The event announcing one feed entry: its key, its timestamp, its summary
/// (or else the body of its content block), its title and its first link.
pub open spec fn feed_event(key: Seq<char>, e: FeedEntryView) -> EventView {
    EventView::Feed {
        entry_id: key,
        time: sig_ts(e),
        content: match e.summary {
            Some(s) => Some(s),
            None => e.content_body,
        },
        title: e.title,
        link: if e.links.len() > 0 {
            Some(e.links[0])
        } else {
            None
        },
    }
}

/// The reconciliation record of one feed entry.
pub open spec fn feed_rec(feed_hash: Seq<char>, e: FeedEntryView, now: i64, ignore_days: u64) -> RecView {
    RecView {
        key: feed_key(feed_hash, e.id),
        sig: feed_sig(sig_ts(e)),
        stale: is_stale(sig_ts(e), now, ignore_days),
        ev: feed_event(feed_key(feed_hash, e.id), e),
    }
}

/// The abstract content of a sequence of extracted entries.
pub open spec fn entries_views(es: Seq<FeedEntryData>) -> Seq<FeedEntryView> {
    Seq::new(es.len(), |i: int| es[i]@)
}

/// The reconciliation records of one parsed feed.
pub open spec fn feed_recs(
    feed_hash: Seq<char>,
    es: Seq<FeedEntryView>,
    now: i64,
    ignore_days: u64,
) -> Seq<RecView> {
    Seq::new(es.len(), |i: int| feed_rec(feed_hash, es[i], now, ignore_days))
}

fn encode_sig_ts(ts: i64) -> (r: Vec<u8>)
    ensures
        r@ == feed_sig(ts),
{
    let u: u64 = if ts >= 0 {
        ts as u64
    } else {
        (((ts + 0x4000000000000000) + 0x4000000000000000) as u64) + 0x8000000000000000
    };
    assert(u == u64_of_i64(ts));
    assert((u >> 56) & 0xff < 256 && (u >> 48) & 0xff < 256 && (u >> 40) & 0xff < 256 && (u >> 32)
        & 0xff < 256 && (u >> 24) & 0xff < 256 && (u >> 16) & 0xff < 256 && (u >> 8) & 0xff < 256
        && u & 0xff < 256) by (bit_vector);
    let mut r: Vec<u8> = Vec::new();
    r.push(((u >> 56) & 0xff) as u8);
    r.push(((u >> 48) & 0xff) as u8);
    r.push(((u >> 40) & 0xff) as u8);
    r.push(((u >> 32) & 0xff) as u8);
    r.push(((u >> 24) & 0xff) as u8);
    r.push(((u >> 16) & 0xff) as u8);
    r.push(((u >> 8) & 0xff) as u8);
    r.push((u & 0xff) as u8);
    proof {
        assert(r@ =~= be_bytes64(u));
    }
    r
}

fn build_feed_key(feed_hash: &String, id: &String) -> (r: String)
    ensures
        r@ == feed_key(feed_hash@, id@),
{
    let mut k = "FEED-".to_owned();
    k.append(feed_hash.as_str());
    k.append("-");
    let h = get_hash(id.as_str());
    k.append(h.as_str());
    k
}

fn signature_timestamp(e: &FeedEntryData) -> (ts: i64)
    ensures
        ts == sig_ts(e@),
{
    match e.published {
        Some(t) => t,
        None => match e.updated {
            Some(t) => t,
            None => 0,
        },
    }
}

fn staleness(ts: i64, now: i64, ignore_days: u64) -> (r: bool)
    ensures
        r == is_stale(ts, now, ignore_days),
{
    (ts as i128) < (now as i128) - (ignore_days as i128) * 86400
}

/// Reconciles the extracted entries of one feed against the store, in feed
/// order: every entry not yet stored is recorded (and announced on the bus
/// unless it is stale on first sight at `now`); every entry stored with a
/// different timestamp is overwritten and announced; unchanged entries do
/// nothing. The writes performed are appended to `writes` for the durable
/// copy.
pub fn feed_cycle(
    store: &mut Store,
    bus: &mut Bus,
    writes: &mut Vec<StoreWrite>,
    url: &String,
    entries: &Vec<FeedEntryData>,
    now: i64,
    ignore_days: u64,
)
    requires
        old(bus).events().len() + entries@.len() <= usize::MAX,
    ensures
        ({
            let recs = feed_recs(hash_string_of(url@), entries_views(entries@), now, ignore_days);
            &&& final(store)@ == run_map(old(store)@, recs)
            &&& final(bus).events() == old(bus).events() + run_events(old(store)@, recs)
            &&& final(bus).spec_capacity() == old(bus).spec_capacity()
            &&& writes_views(final(writes)@) == writes_views(old(writes)@) + run_writes(
                old(store)@,
                recs,
            )
        }),
{
    let ghost m0 = store@;
    let ghost evs0 = bus.events();
    let ghost ws0 = writes_views(writes@);
    let ghost recs = feed_recs(hash_string_of(url@), entries_views(entries@), now, ignore_days);
    let feed_hash = get_hash(url.as_str());
    let n = entries.len();
    let mut i: usize = 0;
    while i < n
        invariant
            n == entries@.len(),
            i <= n,
            feed_hash@ == hash_string_of(url@),
            recs == feed_recs(hash_string_of(url@), entries_views(entries@), now, ignore_days),
            recs.len() == n,
            evs0.len() + n <= usize::MAX,
            store@ == run_map(m0, recs.take(i as int)),
            bus.events() == evs0 + run_events(m0, recs.take(i as int)),
            bus.spec_capacity() == old(bus).spec_capacity(),
            writes_views(writes@) == ws0 + run_writes(m0, recs.take(i as int)),
        decreases n - i,
    {
        let e = &entries[i];
        let ts = signature_timestamp(e);
        let key = build_feed_key(&feed_hash, &e.id);
        let sig = encode_sig_ts(ts);
        let stale = staleness(ts, now, ignore_days);
        let link = if e.links.len() > 0 {
            Some(e.links[0].clone())
        } else {
            None
        };
        let content = match &e.summary {
            Some(s) => Some(s.clone()),
            None => clone_opt_string(&e.content_body),
        };
        let ev = Event::Feed {
            entry_id: key.clone(),
            time: ts,
            content,
            title: clone_opt_string(&e.title),
            link,
        };
        proof {
            assert(recs[i as int] == feed_rec(hash_string_of(url@), entries@[i as int]@, now,
            ignore_days));
            assert(ev@ == recs[i as int].ev);
            assert(key@ == recs[i as int].key);
            assert(sig@ == recs[i as int].sig);
            assert(stale == recs[i as int].stale);
        }
        let ghost m_i = store@;
        proof {
            crate::recon::lemma_run_events_len(m0, recs.take(i as int));
        }
        reconcile_one(store, bus, writes, key, sig, stale, ev);
        proof {
            crate::recon::lemma_run_snoc(m0, recs.take(i as int), recs[i as int]);
            assert(recs.take(i as int).push(recs[i as int]) =~= recs.take(i as int + 1));
            assert(bus.events() =~= evs0 + run_events(m0, recs.take(i as int + 1)));
            assert(writes_views(writes@) =~= ws0 + run_writes(m0, recs.take(i as int + 1)));
        }
        i += 1;
    }
    proof {
        assert(recs.take(n as int) =~= recs);
    }
}

/// One fetch attempt of a feed cycle: the URL, and the extracted entries
/// where the fetch and parse succeeded.
pub struct FeedFetch {
    pub url: String,
    pub result: Option<Vec<FeedEntryData>>,
}

/// The abstract content of one fetch attempt: the records it contributes.
pub open spec fn fetch_outcome(f: FeedFetch, now: i64, ignore_days: u64) -> Option<Seq<RecView>> {
    match f.result {
        Some(es) => Some(feed_recs(hash_string_of(f.url@), entries_views(es@), now, ignore_days)),
        None => None,
    }
}

/// The abstract content of a whole fetch round.
pub open spec fn fetch_outcomes(fs: Seq<FeedFetch>, now: i64, ignore_days: u64) -> Seq<
    Option<Seq<RecView>>,
> {
    Seq::new(fs.len(), |i: int| fetch_outcome(fs[i], now, ignore_days))
}

/// How many entries a fetch round carries over all its successful fetches.
pub open spec fn round_entry_total(fs: Seq<FeedFetch>) -> nat
    decreases fs.len(),
{
    if fs.len() == 0 {
        0
    } else {
        (match fs[0].result {
            Some(es) => es@.len(),
            None => 0,
        }) + round_entry_total(fs.drop_first())
    }
}

/// Reconciles one whole fetch round: the successful fetches are processed
/// in order, each as in [`feed_cycle`]; a failed fetch contributes nothing
/// and does not disturb its siblings.
pub fn feed_cycle_round(
    store: &mut Store,
    bus: &mut Bus,
    writes: &mut Vec<StoreWrite>,
    fetches: &Vec<FeedFetch>,
    now: i64,
    ignore_days: u64,
)
    requires
        old(bus).events().len() + round_entry_total(fetches@) <= usize::MAX,
    ensures
        ({
            let recs = flatten_fetches(fetch_outcomes(fetches@, now, ignore_days));
            &&& final(store)@ == run_map(old(store)@, recs)
            &&& final(bus).events() == old(bus).events() + run_events(old(store)@, recs)
            &&& final(bus).spec_capacity() == old(bus).spec_capacity()
            &&& writes_views(final(writes)@) == writes_views(old(writes)@) + run_writes(
                old(store)@,
                recs,
            )
        }),
{
    let ghost m0 = store@;
    let ghost evs0 = bus.events();
    let ghost ws0 = writes_views(writes@);
    let ghost os = fetch_outcomes(fetches@, now, ignore_days);
    let n = fetches.len();
    let mut i: usize = 0;
    proof {
        assert(fetches@.skip(0) =~= fetches@);
    }
    while i < n
        invariant
            n == fetches@.len(),
            i <= n,
            os == fetch_outcomes(fetches@, now, ignore_days),
            os.len() == n,
            store@ == run_map(m0, flatten_fetches(os.take(i as int))),
            bus.events() == evs0 + run_events(m0, flatten_fetches(os.take(i as int))),
            bus.events().len() + round_entry_total(fetches@.skip(i as int)) <= usize::MAX,
            bus.spec_capacity() == old(bus).spec_capacity(),
            writes_views(writes@) == ws0 + run_writes(m0, flatten_fetches(os.take(i as int))),
        decreases n - i,
    {
        let ghost done = flatten_fetches(os.take(i as int));
        proof {
            assert(fetches@.skip(i as int)[0] == fetches@[i as int]);
            assert(fetches@.skip(i as int).drop_first() =~= fetches@.skip(i as int + 1));
        }
        match &fetches[i].result {
            None => {
                proof {
                    lemma_flatten_snoc(os.take(i as int), os[i as int]);
                    assert(os.take(i as int).push(os[i as int]) =~= os.take(i as int + 1));
                    assert(flatten_fetches(os.take(i as int + 1)) =~= done);
                }
            },
            Some(entries) => {
                let ghost m_i = store@;
                let ghost evs_i = bus.events();
                feed_cycle(store, bus, writes, &fetches[i].url, entries, now, ignore_days);
                proof {
                    let part = feed_recs(hash_string_of(fetches@[i as int].url@), entries_views(
                    entries@), now, ignore_days);
                    crate::recon::lemma_run_events_len(m_i, part);
                    assert(bus.events().len() <= evs_i.len() + entries@.len());
                    lemma_flatten_snoc(os.take(i as int), os[i as int]);
                    assert(os.take(i as int).push(os[i as int]) =~= os.take(i as int + 1));
                    assert(flatten_fetches(os.take(i as int + 1)) =~= done + part);
                    lemma_run_concat(m0, done, part);
                    assert(bus.events() =~= evs0 + run_events(m0, flatten_fetches(os.take(
                    i as int + 1))));
                    assert(writes_views(writes@) =~= ws0 + run_writes(m0, flatten_fetches(os.take(
                    i as int + 1))));
                }
            },
        }
        i += 1;
    }
    proof {
        assert(os.take(n as int) =~= os);
    }
}

/// Law (staleness suppression, feed form): a feed entry never seen before
/// whose signature timestamp predates `now` by more than the horizon is
/// recorded in the store but announced to nobody.
pub proof fn lemma_old_entry_suppressed(
    m: Map<Seq<char>, Seq<u8>>,
    feed_hash: Seq<char>,
    e: FeedEntryView,
    now: i64,
    ignore_days: u64,
)
    requires
        !m.contains_key(feed_key(feed_hash, e.id)),
        (sig_ts(e) as int) < (now as int) - (ignore_days as int) * 86400,
    ensures
        run_events(m, seq![feed_rec(feed_hash, e, now, ignore_days)]) =~= Seq::<EventView>::empty(),
        run_map(m, seq![feed_rec(feed_hash, e, now, ignore_days)]).contains_key(
            feed_key(feed_hash, e.id),
        ),
{
    lemma_stale_suppressed(m, feed_rec(feed_hash, e, now, ignore_days));
}

/// Law (idempotence, feed form): a feed whose entries are unchanged since
/// the cycle that recorded them announces nothing when polled again, at any
/// later time and under any horizon — an entry recorded silently as stale
/// stays silent too, since the horizon is consulted only at first sight.
/// Key uniqueness within the cycle is the one assumption, as it is the one
/// demand the keys must meet.
pub proof fn lemma_feed_repeat_poll_silent(
    m: Map<Seq<char>, Seq<u8>>,
    feed_hash: Seq<char>,
    es: Seq<FeedEntryView>,
    now1: i64,
    days1: u64,
    now2: i64,
    days2: u64,
)
    requires
        crate::recon::distinct_keys(feed_recs(feed_hash, es, now1, days1)),
    ensures
        run_events(
            run_map(m, feed_recs(feed_hash, es, now1, days1)),
            feed_recs(feed_hash, es, now2, days2),
        ) =~= Seq::<EventView>::empty(),
{
    let rs1 = feed_recs(feed_hash, es, now1, days1);
    let rs2 = feed_recs(feed_hash, es, now2, days2);
    assert(forall|i: int|
        0 <= i < rs1.len() ==> #[trigger] rs2[i].key == rs1[i].key && rs2[i].sig == rs1[i].sig);
    crate::recon::lemma_repeat_poll_silent(m, rs1, rs2);
}

/// The signature encoding is injective: different timestamps always give
/// different signature bytes, so a moved timestamp is never mistaken for an
/// unchanged entry.
pub proof fn lemma_feed_sig_injective(ts1: i64, ts2: i64)
    ensures
        feed_sig(ts1) == feed_sig(ts2) ==> ts1 == ts2,
{
    let u1 = u64_of_i64(ts1);
    let u2 = u64_of_i64(ts2);
    if feed_sig(ts1) == feed_sig(ts2) {
        assert((u1 >> 56) & 0xff < 256 && (u1 >> 48) & 0xff < 256 && (u1 >> 40) & 0xff < 256 && (u1
            >> 32) & 0xff < 256 && (u1 >> 24) & 0xff < 256 && (u1 >> 16) & 0xff < 256 && (u1 >> 8)
            & 0xff < 256 && u1 & 0xff < 256) by (bit_vector);
        assert((u2 >> 56) & 0xff < 256 && (u2 >> 48) & 0xff < 256 && (u2 >> 40) & 0xff < 256 && (u2
            >> 32) & 0xff < 256 && (u2 >> 24) & 0xff < 256 && (u2 >> 16) & 0xff < 256 && (u2 >> 8)
            & 0xff < 256 && u2 & 0xff < 256) by (bit_vector);
        assert(be_bytes64(u1)[0] == be_bytes64(u2)[0]);
        assert(be_bytes64(u1)[1] == be_bytes64(u2)[1]);
        assert(be_bytes64(u1)[2] == be_bytes64(u2)[2]);
        assert(be_bytes64(u1)[3] == be_bytes64(u2)[3]);
        assert(be_bytes64(u1)[4] == be_bytes64(u2)[4]);
        assert(be_bytes64(u1)[5] == be_bytes64(u2)[5]);
        assert(be_bytes64(u1)[6] == be_bytes64(u2)[6]);
        assert(be_bytes64(u1)[7] == be_bytes64(u2)[7]);
        assert(u1 == u2) by (bit_vector)
            requires
                (u1 >> 56) & 0xff == (u2 >> 56) & 0xff,
                (u1 >> 48) & 0xff == (u2 >> 48) & 0xff,
                (u1 >> 40) & 0xff == (u2 >> 40) & 0xff,
                (u1 >> 32) & 0xff == (u2 >> 32) & 0xff,
                (u1 >> 24) & 0xff == (u2 >> 24) & 0xff,
                (u1 >> 16) & 0xff == (u2 >> 16) & 0xff,
                (u1 >> 8) & 0xff == (u2 >> 8) & 0xff,
                u1 & 0xff == u2 & 0xff,
        ;
    }
}

/// Law (change detection, feed form): an entry whose stored fingerprint
/// came from a different timestamp is announced exactly once, and the new
/// signature replaces the stored one.
pub proof fn lemma_feed_change_detected(
    m: Map<Seq<char>, Seq<u8>>,
    feed_hash: Seq<char>,
    e: FeedEntryView,
    now: i64,
    ignore_days: u64,
    ts_old: i64,
)
    requires
        m.contains_key(feed_key(feed_hash, e.id)),
        m[feed_key(feed_hash, e.id)] == feed_sig(ts_old),
        ts_old != sig_ts(e),
    ensures
        run_events(m, seq![feed_rec(feed_hash, e, now, ignore_days)]) =~= seq![
            feed_event(feed_key(feed_hash, e.id), e),
        ],
        run_map(m, seq![feed_rec(feed_hash, e, now, ignore_days)])[feed_key(feed_hash, e.id)]
            == feed_sig(sig_ts(e)),
{
    lemma_feed_sig_injective(ts_old, sig_ts(e));
    crate::recon::lemma_change_detected(m, feed_rec(feed_hash, e, now, ignore_days));
}

/// Law (partial failure isolation, feed form): a URL whose fetch failed
/// contributes nothing to the round — from any store state, the final
/// store, the published events and the performed writes are exactly those
/// of the round without it.
pub proof fn lemma_failed_url_isolated(
    m: Map<Seq<char>, Seq<u8>>,
    fs: Seq<FeedFetch>,
    i: int,
    now: i64,
    ignore_days: u64,
)
    requires
        0 <= i < fs.len(),
        fs[i].result is None,
    ensures
        flatten_fetches(fetch_outcomes(fs, now, ignore_days)) =~= flatten_fetches(
            fetch_outcomes(fs.remove(i), now, ignore_days),
        ),
        run_map(m, flatten_fetches(fetch_outcomes(fs, now, ignore_days))) == run_map(
            m,
            flatten_fetches(fetch_outcomes(fs.remove(i), now, ignore_days)),
        ),
        run_events(m, flatten_fetches(fetch_outcomes(fs, now, ignore_days))) == run_events(
            m,
            flatten_fetches(fetch_outcomes(fs.remove(i), now, ignore_days)),
        ),
        run_writes(m, flatten_fetches(fetch_outcomes(fs, now, ignore_days))) == run_writes(
            m,
            flatten_fetches(fetch_outcomes(fs.remove(i), now, ignore_days)),
        ),
{
    lemma_failed_fetch_isolated(fetch_outcomes(fs, now, ignore_days), i);
    assert(fetch_outcomes(fs, now, ignore_days).remove(i) =~= fetch_outcomes(
        fs.remove(i),
        now,
        ignore_days,
    ));
    assert(flatten_fetches(fetch_outcomes(fs, now, ignore_days)) == flatten_fetches(
        fetch_outcomes(fs.remove(i), now, ignore_days),
    ));
}

} // verus!
