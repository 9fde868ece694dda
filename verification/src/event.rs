//! The change events that pollers publish and consumers receive.

use vstd::prelude::*;
use vstd::string::StringExecFns;

verus! {

/// A normalized change event, one per new or updated item. Values are
/// immutable once published; the bus clones them for each subscriber.
#[derive(Clone, Debug, PartialEq, Eq, PartialOrd, Ord)]
pub enum Event {
    /// A feed entry seen for the first time, or seen with a new timestamp.
    Feed {
        /// The entry's fingerprint key (feed identity plus hashed entry id).
        entry_id: String,
        /// Published (or else updated) time as a Unix timestamp, zero when
        /// the feed gave neither.
        time: i64,
        /// The entry's summary, or else the body of its content block.
        content: Option<String>,
        title: Option<String>,
        /// The entry's first link, when it has one.
        link: Option<String>,
    },
    /// A tracked registry item whose latest release checksum changed (or was
    /// seen for the first time).
    CratesIo {
        name: String,
        vers: String,
        links: Option<String>,
        yanked: bool,
    },
}

/// The mathematical shape of an [`Event`]: the same variants over sequences.
pub enum EventView {
    Feed {
        entry_id: Seq<char>,
        time: i64,
        content: Option<Seq<char>>,
        title: Option<Seq<char>>,
        link: Option<Seq<char>>,
    },
    CratesIo { name: Seq<char>, vers: Seq<char>, links: Option<Seq<char>>, yanked: bool },
}

impl View for Event {
    type V = EventView;

    open spec fn view(&self) -> EventView {
        match self {
            Event::Feed { entry_id, time, content, title, link } => EventView::Feed {
                entry_id: entry_id@,
                time: *time,
                content: content.deep_view(),
                title: title.deep_view(),
                link: link.deep_view(),
            },
            Event::CratesIo { name, vers, links, yanked } => EventView::CratesIo {
                name: name@,
                vers: vers@,
                links: links.deep_view(),
                yanked: *yanked,
            },
        }
    }
}

impl Event {
    /// A one-line description of the event, as the logs show it.
    pub fn describe(&self) -> (r: String)
        requires
            match self {
                Event::Feed { time, .. } => 0 <= *time < 253402300800,
                Event::CratesIo { .. } => true,
            },
        ensures
            match self {
                Event::Feed { entry_id, time, .. } => r@ == "Feed event: "@ + entry_id@ + " at "@
                    + crate::utils::rfc3339_of(*time as u64),
                Event::CratesIo { name, .. } => r@ == "Crates.io event: "@ + name@ + " "@,
            },
    {
        match self {
            Event::Feed { entry_id, time, .. } => {
                let mut r = "Feed event: ".to_owned();
                r.append(entry_id.as_str());
                r.append(" at ");
                let t = crate::utils::rfc3339_string(*time as u64);
                r.append(t.as_str());
                r
            },
            Event::CratesIo { name, .. } => {
                let mut r = "Crates.io event: ".to_owned();
                r.append(name.as_str());
                r.append(" ");
                r
            },
        }
    }
}

pub(crate) fn clone_opt_string(s: &Option<String>) -> (r: Option<String>)
    ensures
        r.deep_view() == s.deep_view(),
{
    match s {
        Some(x) => Some(x.clone()),
        None => None,
    }
}

/// An explicit deep copy; the bus hands each subscriber its own copy of a
/// published event.
pub fn clone_event(e: &Event) -> (r: Event)
    ensures
        r@ == e@,
{
    match e {
        Event::Feed { entry_id, time, content, title, link } => Event::Feed {
            entry_id: entry_id.clone(),
            time: *time,
            content: clone_opt_string(content),
            title: clone_opt_string(title),
            link: clone_opt_string(link),
        },
        Event::CratesIo { name, vers, links, yanked } => Event::CratesIo {
            name: name.clone(),
            vers: vers.clone(),
            links: clone_opt_string(links),
            yanked: *yanked,
        },
    }
}

} // verus!
