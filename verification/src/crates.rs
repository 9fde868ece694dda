//! The registry poller's reconciliation cycle.
//!
//! On each tick the embedding program refreshes its local snapshot of the
//! package-registry index and looks up every tracked name; each release found
//! is handed here as plain values and reconciled against the fingerprint
//! store under the key `CRATE-<name>`, with the release checksum as its
//! version signature. A name the snapshot does not know is skipped for the
//! cycle. Unlike the feed variant there is no staleness suppression: tracking
//! is opt-in per name, so the first sight of a tracked item always emits.

use crate::bus::Bus;
use crate::event::{clone_opt_string, Event, EventView};
use crate::recon::{
    flatten_fetches, lemma_flatten_snoc, lemma_run_snoc, reconcile_one, run_events, run_map,
    run_writes, writes_views, RecView,
};
use crate::store::{Store, StoreWrite};
use vstd::prelude::*;
use vstd::string::StringExecFns;

verus! {

/// The latest known release of a tracked registry item, reduced to the plain
/// values the reconciliation reads.
pub struct CrateRelease {
    /// The version string of the latest release.
    pub vers: String,
    /// The release's content checksum.
    pub cksm: Vec<u8>,
    /// The release's links metadata, when given.
    pub links: Option<String>,
    /// Whether the release was withdrawn.
    pub yanked: bool,
}

/// The abstract content of a [`CrateRelease`].
pub struct CrateReleaseView {
    pub vers: Seq<char>,
    pub cksm: Seq<u8>,
    pub links: Option<Seq<char>>,
    pub yanked: bool,
}

impl View for CrateRelease {
    type V = CrateReleaseView;

    open spec fn view(&self) -> CrateReleaseView {
        CrateReleaseView {
            vers: self.vers@,
            cksm: self.cksm@,
            links: self.links.deep_view(),
            yanked: self.yanked,
        }
    }
}

/// One tracked name and what the registry snapshot knows about it (`None`
/// when the snapshot has no such item).
pub struct CrateLookup {
    pub name: String,
    pub found: Option<CrateRelease>,
}

/// The fingerprint key of a tracked registry item: its canonical name.
pub open spec fn crate_key(name: Seq<char>) -> Seq<char> {
    "CRATE-"@ + name
}

/// The reconciliation record of one tracked item's latest release: never
/// stale, announced with name, version, links and withdrawal flag.
pub open spec fn crate_rec(name: Seq<char>, r: CrateReleaseView) -> RecView {
    RecView {
        key: crate_key(name),
        sig: r.cksm,
        stale: false,
        ev: EventView::CratesIo { name, vers: r.vers, links: r.links, yanked: r.yanked },
    }
}

/// The records one lookup contributes: none when the name is unknown.
pub open spec fn lookup_outcome(l: CrateLookup) -> Option<Seq<RecView>> {
    match l.found {
        Some(r) => Some(seq![crate_rec(l.name@, r@)]),
        None => None,
    }
}

/// The abstract content of a whole registry cycle's lookups.
pub open spec fn lookup_outcomes(ls: Seq<CrateLookup>) -> Seq<Option<Seq<RecView>>> {
    Seq::new(ls.len(), |i: int| lookup_outcome(ls[i]))
}

fn build_crate_key(name: &String) -> (r: String)
    ensures
        r@ == crate_key(name@),
{
    let mut k = "CRATE-".to_owned();
    k.append(name.as_str());
    k
}

/// Reconciles one registry cycle: each tracked name's latest release, where
/// the snapshot knows one, is reconciled in order — recorded and announced
/// when its checksum is absent from the store or differs, untouched
/// otherwise. Names the snapshot does not know are skipped and do not
/// disturb their siblings. The writes performed are appended to `writes`
/// for the durable copy.
pub fn crates_cycle(
    store: &mut Store,
    bus: &mut Bus,
    writes: &mut Vec<StoreWrite>,
    lookups: &Vec<CrateLookup>,
)
    requires
        old(bus).events().len() + lookups@.len() <= usize::MAX,
    ensures
        ({
            let recs = flatten_fetches(lookup_outcomes(lookups@));
            &&& final(store)@ == run_map(old(store)@, recs)
            &&& final(bus).events() == old(bus).events() + run_events(old(store)@, recs)
            &&& final(bus).spec_capacity() == old(bus).spec_capacity()
            &&& writes_views(final(writes)@) == writes_views(old(writes)@) + run_writes(
                old(store)@,
                recs,
            )
        }),
{
    let ghost m0 = store@;
    let ghost evs0 = bus.events();
    let ghost ws0 = writes_views(writes@);
    let ghost os = lookup_outcomes(lookups@);
    let n = lookups.len();
    let mut i: usize = 0;
    proof {
        assert(os.take(0) =~= Seq::<Option<Seq<RecView>>>::empty());
    }
    while i < n
        invariant
            n == lookups@.len(),
            i <= n,
            os == lookup_outcomes(lookups@),
            os.len() == n,
            evs0.len() + n <= usize::MAX,
            flatten_fetches(os.take(i as int)).len() <= i,
            store@ == run_map(m0, flatten_fetches(os.take(i as int))),
            bus.events() == evs0 + run_events(m0, flatten_fetches(os.take(i as int))),
            bus.spec_capacity() == old(bus).spec_capacity(),
            writes_views(writes@) == ws0 + run_writes(m0, flatten_fetches(os.take(i as int))),
        decreases n - i,
    {
        let ghost done = flatten_fetches(os.take(i as int));
        match &lookups[i].found {
            None => {
                proof {
                    lemma_flatten_snoc(os.take(i as int), os[i as int]);
                    assert(os.take(i as int).push(os[i as int]) =~= os.take(i as int + 1));
                    assert(flatten_fetches(os.take(i as int + 1)) =~= done);
                }
            },
            Some(release) => {
                let key = build_crate_key(&lookups[i].name);
                let sig = crate::recon::clone_bytes(&release.cksm);
                let ev = Event::CratesIo {
                    name: lookups[i].name.clone(),
                    vers: release.vers.clone(),
                    links: clone_opt_string(&release.links),
                    yanked: release.yanked,
                };
                let ghost rec = crate_rec(lookups@[i as int].name@, release@);
                proof {
                    assert(key@ == rec.key);
                    assert(ev@ == rec.ev);
                    crate::recon::lemma_run_events_len(m0, done);
                }
                reconcile_one(store, bus, writes, key, sig, false, ev);
                proof {
                    lemma_flatten_snoc(os.take(i as int), os[i as int]);
                    assert(os.take(i as int).push(os[i as int]) =~= os.take(i as int + 1));
                    assert(flatten_fetches(os.take(i as int + 1)) =~= done.push(rec));
                    lemma_run_snoc(m0, done, rec);
                    assert(bus.events() =~= evs0 + run_events(m0, flatten_fetches(os.take(
                    i as int + 1))));
                    assert(writes_views(writes@) =~= ws0 + run_writes(m0, flatten_fetches(os.take(
                    i as int + 1))));
                }
            },
        }
        i += 1;
    }
    proof {
        assert(os.take(n as int) =~= os);
    }
}

/// Law (idempotence, registry form): a registry cycle whose lookups are
/// unchanged since the cycle that recorded them announces nothing and
/// changes nothing when run again. Key uniqueness within the cycle is the
/// one assumption; it holds whenever the tracked names are distinct.
pub proof fn lemma_crates_repeat_poll_silent(m: Map<Seq<char>, Seq<u8>>, ls: Seq<CrateLookup>)
    requires
        crate::recon::distinct_keys(flatten_fetches(lookup_outcomes(ls))),
    ensures
        run_events(
            run_map(m, flatten_fetches(lookup_outcomes(ls))),
            flatten_fetches(lookup_outcomes(ls)),
        ) =~= Seq::<EventView>::empty(),
        run_map(
            run_map(m, flatten_fetches(lookup_outcomes(ls))),
            flatten_fetches(lookup_outcomes(ls)),
        ) == run_map(m, flatten_fetches(lookup_outcomes(ls))),
{
    crate::recon::lemma_second_cycle_silent(m, flatten_fetches(lookup_outcomes(ls)));
}

} // verus!
