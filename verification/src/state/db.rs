//! The state index as data: one keyed table per kind of entity, the set
//! of applied events, the pending tabs and the persisted clock.

use vstd::prelude::*;
use crate::events::clock::VectorClock;
use crate::events::types::{ExtensionSource, ExtensionSourceView};
use crate::table::{entries_to_map, has_key, keys_unique, Plain, StringMap};
use crate::text::{same_text, str_eq};

verus! {

/// A tab that another device handed to this one and that waits to be
/// opened.
#[derive(Debug)]
pub struct PendingTab {
    pub id: String,
    pub url: String,
    pub title: Option<String>,
    pub from_device: String,
    /// When the tab arrived, in microseconds since the Unix epoch.
    pub sent_at: i64,
}

/// A pending tab as plain data.
pub struct PendingTabView {
    pub id: Seq<char>,
    pub url: Seq<char>,
    pub title: Option<Seq<char>>,
    pub from_device: Seq<char>,
    pub sent_at: i64,
}

impl View for PendingTab {
    type V = PendingTabView;

    open spec fn view(&self) -> PendingTabView {
        PendingTabView {
            id: self.id@,
            url: self.url@,
            title: self.title.deep_view(),
            from_device: self.from_device@,
            sent_at: self.sent_at,
        }
    }
}

impl DeepView for PendingTab {
    type V = PendingTabView;

    open spec fn deep_view(&self) -> PendingTabView {
        self.view()
    }
}

impl Clone for PendingTab {
    fn clone(&self) -> (r: Self)
        ensures
            r@ == self@,
    {
        PendingTab {
            id: self.id.clone(),
            url: self.url.clone(),
            title: crate::events::types::clone_opt(&self.title),
            from_device: self.from_device.clone(),
            sent_at: self.sent_at,
        }
    }
}

/// The state index as plain data.
pub struct StateView {
    /// Applied events: identifier to origin device and origin timestamp.
    pub applied: Map<u128, (Seq<char>, i64)>,
    /// Extensions: identifier to name and optional source URL.
    pub extensions: Map<Seq<char>, (Seq<char>, Option<Seq<char>>)>,
    /// Extension packages: identifier to version, source and package blob.
    pub packages: Map<Seq<char>, (Seq<char>, ExtensionSourceView, Seq<char>)>,
    /// Containers: identifier to name, colour and icon.
    pub containers: Map<Seq<char>, (Seq<char>, Seq<char>, Seq<char>)>,
    /// Protocol handlers: protocol to handler URL template.
    pub handlers: Map<Seq<char>, Seq<char>>,
    /// Search engines: identifier to name, URL and default flag.
    pub search_engines: Map<Seq<char>, (Seq<char>, Seq<char>, bool)>,
    /// Preferences: key to stored value and value type.
    pub prefs: Map<Seq<char>, (Seq<char>, Seq<char>)>,
    /// Pending tabs, oldest first.
    pub pending_tabs: Seq<PendingTabView>,
    /// The persisted vector clock.
    pub clock: Map<Seq<char>, u64>,
}

/// At most one search engine carries the default flag.
pub open spec fn one_default_at_most(engines: Map<Seq<char>, (Seq<char>, Seq<char>, bool)>) -> bool {
    forall|a: Seq<char>, b: Seq<char>|
        engines.dom().contains(a) && engines.dom().contains(b) && (#[trigger] engines[a]).2 && (
        #[trigger] engines[b]).2 ==> a == b
}

/// The tabs are in ascending order of arrival and no identifier occurs
/// twice.
pub open spec fn tabs_in_order(tabs: Seq<PendingTabView>) -> bool {
    &&& forall|i: int, j: int| 0 <= i < j < tabs.len() ==> tabs[i].sent_at <= tabs[j].sent_at
    &&& forall|i: int, j: int| 0 <= i < j < tabs.len() ==> tabs[i].id != tabs[j].id
}

impl StateView {
    /// The index without any row.
    pub open spec fn empty() -> StateView {
        StateView {
            applied: Map::empty(),
            extensions: Map::empty(),
            packages: Map::empty(),
            containers: Map::empty(),
            handlers: Map::empty(),
            search_engines: Map::empty(),
            prefs: Map::empty(),
            pending_tabs: Seq::empty(),
            clock: Map::empty(),
        }
    }

    /// The invariants of the index.
    pub open spec fn well_formed(self) -> bool {
        &&& one_default_at_most(self.search_engines)
        &&& tabs_in_order(self.pending_tabs)
    }
}

/// The engines after `id` became the default: every flag is cleared, then
/// the flag of `id` is set if that engine exists.
pub open spec fn engines_with_default(
    engines: Map<Seq<char>, (Seq<char>, Seq<char>, bool)>,
    id: Seq<char>,
) -> Map<Seq<char>, (Seq<char>, Seq<char>, bool)> {
    Map::new(
        |k: Seq<char>| engines.dom().contains(k),
        |k: Seq<char>| (engines[k].0, engines[k].1, k == id),
    )
}

/// Some tab is called `id`.
pub open spec fn has_tab(tabs: Seq<PendingTabView>, id: Seq<char>) -> bool {
    exists|i: int| 0 <= i < tabs.len() && #[trigger] tabs[i].id == id
}

/// The tabs without the one called `id`.
pub open spec fn tabs_without(tabs: Seq<PendingTabView>, id: Seq<char>) -> Seq<PendingTabView> {
    if has_tab(tabs, id) {
        tabs.remove(choose|i: int| 0 <= i < tabs.len() && #[trigger] tabs[i].id == id)
    } else {
        tabs
    }
}

/// True when `p` is where a tab that arrived at `sent_at` goes: behind
/// every tab that arrived no later, before the first that arrived later.
pub open spec fn is_tab_position(tabs: Seq<PendingTabView>, sent_at: i64, p: int) -> bool {
    &&& 0 <= p <= tabs.len()
    &&& forall|j: int| 0 <= j < p ==> (#[trigger] tabs[j]).sent_at <= sent_at
    &&& p < tabs.len() ==> tabs[p].sent_at > sent_at
}

/// Where a tab that arrived at `sent_at` goes.
pub open spec fn tab_position(tabs: Seq<PendingTabView>, sent_at: i64) -> int {
    choose|p: int| is_tab_position(tabs, sent_at, p)
}

/// The tabs after `tab` was put in: a tab of the same identifier is
/// replaced, and the new tab stands behind those that arrived no later.
pub open spec fn tabs_with(tabs: Seq<PendingTabView>, tab: PendingTabView) -> Seq<PendingTabView> {
    let rest = tabs_without(tabs, tab.id);
    rest.insert(tab_position(rest, tab.sent_at), tab)
}

/// A position for a tab is unique.
pub proof fn lemma_tab_position_unique(tabs: Seq<PendingTabView>, sent_at: i64, p: int)
    requires
        is_tab_position(tabs, sent_at, p),
    ensures
        tab_position(tabs, sent_at) == p,
{
    let q = tab_position(tabs, sent_at);
    assert(is_tab_position(tabs, sent_at, q));
    if q < p {
        assert(tabs[q].sent_at <= sent_at);
    } else if p < q {
        assert(tabs[p].sent_at <= sent_at);
    }
}

/// Taking a tab out keeps the order.
pub proof fn lemma_tabs_without(tabs: Seq<PendingTabView>, id: Seq<char>)
    requires
        tabs_in_order(tabs),
    ensures
        tabs_in_order(tabs_without(tabs, id)),
        !has_tab(tabs_without(tabs, id), id),
{
    let t = tabs_without(tabs, id);
    if has_tab(tabs, id) {
        let p = choose|i: int| 0 <= i < tabs.len() && #[trigger] tabs[i].id == id;
        assert forall|i: int| 0 <= i < t.len() implies #[trigger] t[i] == tabs[if i < p {
            i
        } else {
            i + 1
        }] by {}
        assert forall|i: int, j: int| 0 <= i < j < t.len() implies t[i].sent_at <= t[j].sent_at
            && t[i].id != t[j].id by {
            let a = if i < p { i } else { i + 1 };
            let b = if j < p { j } else { j + 1 };
            assert(tabs[a].sent_at <= tabs[b].sent_at && tabs[a].id != tabs[b].id);
        }
        if has_tab(t, id) {
            let i = choose|i: int| 0 <= i < t.len() && #[trigger] t[i].id == id;
            let a = if i < p { i } else { i + 1 };
            assert(tabs[a].id == id);
            if a < p {
                assert(tabs[a].id != tabs[p].id);
            } else {
                assert(tabs[p].id != tabs[a].id);
            }
        }
    }
}

/// Putting a tab in at its position keeps the order.
pub proof fn lemma_tab_insert(rest: Seq<PendingTabView>, tab: PendingTabView, p: int)
    requires
        tabs_in_order(rest),
        !has_tab(rest, tab.id),
        is_tab_position(rest, tab.sent_at, p),
    ensures
        tabs_in_order(rest.insert(p, tab)),
        tab_position(rest, tab.sent_at) == p,
{
    lemma_tab_position_unique(rest, tab.sent_at, p);
    let t = rest.insert(p, tab);
    assert forall|i: int, j: int| 0 <= i < j < t.len() implies t[i].sent_at <= t[j].sent_at
        && t[i].id != t[j].id by {
        if i == p {
            assert(t[j] == rest[j - 1]);
            assert(rest[j - 1].id == rest[j - 1].id);
            if j - 1 > p {
                assert(rest[p].sent_at <= rest[j - 1].sent_at);
            }
        } else if j == p {
            assert(t[i] == rest[i]);
            assert(rest[i].id == rest[i].id);
        } else {
            let a = if i < p { i } else { i - 1 };
            let b = if j < p { j } else { j - 1 };
            assert(t[i] == rest[a] && t[j] == rest[b]);
            assert(rest[a].sent_at <= rest[b].sent_at && rest[a].id != rest[b].id);
        }
    }
}

/// Some position is where a tab that arrived at `sent_at` goes.
pub proof fn lemma_tab_position_exists(tabs: Seq<PendingTabView>, sent_at: i64)
    ensures
        is_tab_position(tabs, sent_at, tab_position(tabs, sent_at)),
    decreases tabs.len(),
{
    if tabs.len() == 0 {
        assert(is_tab_position(tabs, sent_at, 0));
    } else if tabs[0].sent_at > sent_at {
        assert(is_tab_position(tabs, sent_at, 0));
    } else {
        let rest = tabs.drop_first();
        lemma_tab_position_exists(rest, sent_at);
        let q = tab_position(rest, sent_at);
        assert forall|j: int| 0 <= j < q + 1 implies (#[trigger] tabs[j]).sent_at <= sent_at by {
            if j > 0 {
                assert(tabs[j] == rest[j - 1]);
            }
        }
        if q + 1 < tabs.len() {
            assert(tabs[q + 1] == rest[q]);
        }
        assert(is_tab_position(tabs, sent_at, q + 1));
    }
}

/// Putting a tab in keeps the order.
pub proof fn lemma_tabs_with(tabs: Seq<PendingTabView>, tab: PendingTabView)
    requires
        tabs_in_order(tabs),
    ensures
        tabs_in_order(tabs_with(tabs, tab)),
{
    lemma_tabs_without(tabs, tab.id);
    let rest = tabs_without(tabs, tab.id);
    lemma_tab_position_exists(rest, tab.sent_at);
    lemma_tab_insert(rest, tab, tab_position(rest, tab.sent_at));
}

/// Takes the tab called `id` out of `tabs`.
fn remove_tab(tabs: &mut Vec<PendingTab>, id: &str)
    requires
        tabs_in_order(old(tabs).deep_view()),
    ensures
        final(tabs).deep_view() == tabs_without(old(tabs).deep_view(), id@),
        tabs_in_order(final(tabs).deep_view()),
        !has_tab(final(tabs).deep_view(), id@),
{
    let ghost before = tabs.deep_view();
    proof {
        lemma_tabs_without(before, id@);
    }
    let mut i: usize = 0;
    while i < tabs.len()
        invariant
            i <= tabs.len(),
            tabs.deep_view() == before,
            before == old(tabs).deep_view(),
            tabs_in_order(before),
            tabs_in_order(tabs_without(before, id@)),
            !has_tab(tabs_without(before, id@), id@),
            forall|j: int| 0 <= j < i ==> (#[trigger] before[j]).id != id@,
        decreases tabs.len() - i,
    {
        if same_text(id, &tabs[i].id) {
            proof {
                assert(before[i as int].id == id@);
                let c = choose|c: int| 0 <= c < before.len() && #[trigger] before[c].id == id@;
                if c < i {
                    assert(before[c].id != before[i as int].id);
                } else if i < c {
                    assert(before[i as int].id != before[c].id);
                }
                assert(c == i);
                assert(tabs_without(before, id@) == before.remove(i as int));
            }
            let _ = tabs.remove(i);
            proof {
                assert(tabs.deep_view() =~= before.remove(i as int));
            }
            return ;
        }
        i += 1;
    }
    proof {
        if has_tab(before, id@) {
            let c = choose|c: int| 0 <= c < before.len() && #[trigger] before[c].id == id@;
            assert(before[c].id != id@);
        }
    }
}

/// Finds where a tab that arrived at `sent_at` goes.
fn find_tab_position(tabs: &Vec<PendingTab>, sent_at: i64) -> (p: usize)
    ensures
        is_tab_position(tabs.deep_view(), sent_at, p as int),
{
    let mut i: usize = 0;
    while i < tabs.len() && tabs[i].sent_at <= sent_at
        invariant
            i <= tabs.len(),
            forall|j: int| 0 <= j < i ==> (#[trigger] tabs.deep_view()[j]).sent_at <= sent_at,
        decreases tabs.len() - i,
    {
        i += 1;
    }
    i
}

/// The state index.
#[derive(Debug)]
pub struct StateDb {
    applied: Vec<(u128, String, i64)>,
    extensions: StringMap<(String, Option<String>)>,
    packages: StringMap<(String, ExtensionSource, String)>,
    containers: StringMap<(String, String, String)>,
    handlers: StringMap<String>,
    search_engines: StringMap<(String, String, bool)>,
    prefs: StringMap<(String, String)>,
    pending_tabs: Vec<PendingTab>,
    clock: VectorClock,
}

/// The map that a list of applied events stands for.
pub open spec fn applied_map(rows: Seq<(u128, Seq<char>, i64)>) -> Map<u128, (Seq<char>, i64)> {
    Map::new(
        |id: u128| exists|i: int| 0 <= i < rows.len() && #[trigger] rows[i].0 == id,
        |id: u128|
            {
                let i = choose|i: int| 0 <= i < rows.len() && #[trigger] rows[i].0 == id;
                (rows[i].1, rows[i].2)
            },
    )
}

impl View for StateDb {
    type V = StateView;

    closed spec fn view(&self) -> StateView {
        StateView {
            applied: applied_map(self.applied.deep_view()),
            extensions: self.extensions@,
            packages: self.packages@,
            containers: self.containers@,
            handlers: self.handlers@,
            search_engines: self.search_engines@,
            prefs: self.prefs@,
            pending_tabs: self.pending_tabs.deep_view(),
            clock: self.clock@,
        }
    }
}

/// Each table of the index is the map of its rows: a key is in the table
/// exactly when a row holds it.
pub proof fn lemma_rows_are_the_tables(db: StateDb)
    ensures
        db@.extensions == entries_to_map(db.extension_rows()),
        db@.packages == entries_to_map(db.package_rows()),
        db@.containers == entries_to_map(db.container_rows()),
        db@.handlers == entries_to_map(db.handler_rows()),
        db@.prefs == entries_to_map(db.pref_rows()),
        forall|id: Seq<char>|
            db@.extensions.dom().contains(id) <==> has_key(db.extension_rows(), id),
        forall|id: Seq<char>| db@.packages.dom().contains(id) <==> has_key(db.package_rows(), id),
        forall|id: Seq<char>|
            db@.containers.dom().contains(id) <==> has_key(db.container_rows(), id),
        forall|protocol: Seq<char>|
            db@.handlers.dom().contains(protocol) <==> has_key(db.handler_rows(), protocol),
        forall|key: Seq<char>| db@.prefs.dom().contains(key) <==> has_key(db.pref_rows(), key),
{
}

/// Copies an optional borrowed text.
pub fn own_opt(s: Option<&str>) -> (r: Option<String>)
    ensures
        r.deep_view() == s.deep_view(),
{
    match s {
        Some(t) => Some(t.to_owned()),
        None => None,
    }
}

impl StateDb {
    #[verifier::type_invariant]
    spec fn inv(self) -> bool {
        &&& one_default_at_most(self.search_engines@)
        &&& tabs_in_order(self.pending_tabs.deep_view())
        &&& forall|i: int, j: int|
            0 <= i < j < self.applied.len() ==> self.applied[i].0 != self.applied[j].0
    }

    /// The rows of the extensions table, in storage order.
    pub closed spec fn extension_rows(&self) -> Seq<(Seq<char>, (Seq<char>, Option<Seq<char>>))> {
        self.extensions.entries()
    }

    /// The rows of the packages table, in storage order.
    pub closed spec fn package_rows(&self) -> Seq<
        (Seq<char>, (Seq<char>, ExtensionSourceView, Seq<char>)),
    > {
        self.packages.entries()
    }

    /// The rows of the containers table, in storage order.
    pub closed spec fn container_rows(&self) -> Seq<(Seq<char>, (Seq<char>, Seq<char>, Seq<char>))> {
        self.containers.entries()
    }

    /// The rows of the handlers table, in storage order.
    pub closed spec fn handler_rows(&self) -> Seq<(Seq<char>, Seq<char>)> {
        self.handlers.entries()
    }

    /// The rows of the preferences table, in storage order.
    pub closed spec fn pref_rows(&self) -> Seq<(Seq<char>, (Seq<char>, Seq<char>))> {
        self.prefs.entries()
    }

    /// An empty index.
    pub fn open_in_memory() -> (db: Self)
        ensures
            db@ == StateView::empty(),
            db@.well_formed(),
    {
        let db = StateDb {
            applied: Vec::new(),
            extensions: StringMap::new(),
            packages: StringMap::new(),
            containers: StringMap::new(),
            handlers: StringMap::new(),
            search_engines: StringMap::new(),
            prefs: StringMap::new(),
            pending_tabs: Vec::new(),
            clock: VectorClock::new(),
        };
        proof {
            assert(db.applied.deep_view() =~= Seq::empty());
            assert(applied_map(db.applied.deep_view()) =~= Map::empty());
            assert(db.pending_tabs.deep_view() =~= Seq::empty());
        }
        db
    }

    /// Position of an applied event.
    fn applied_position(&self, event_id: u128) -> (r: Option<usize>)
        ensures
            match r {
                Some(i) => i < self.applied.len() && self.applied[i as int].0 == event_id
                    && self@.applied.dom().contains(event_id) && self@.applied[event_id] == (
                    self.applied[i as int].1@,
                    self.applied[i as int].2,
                ),
                None => !self@.applied.dom().contains(event_id),
            },
    {
        proof {
            use_type_invariant(self);
        }
        let mut i: usize = 0;
        while i < self.applied.len()
            invariant
                i <= self.applied.len(),
                forall|j: int| 0 <= j < i ==> self.applied[j].0 != event_id,
                forall|a: int, b: int|
                    0 <= a < b < self.applied.len() ==> self.applied[a].0 != self.applied[b].0,
            decreases self.applied.len() - i,
        {
            if self.applied[i].0 == event_id {
                proof {
                    let rows = self.applied.deep_view();
                    assert(rows[i as int].0 == event_id);
                    let c = choose|c: int| 0 <= c < rows.len() && #[trigger] rows[c].0 == event_id;
                    assert(self.applied[c].0 == event_id);
                    if c < i {
                        assert(self.applied[c].0 != self.applied[i as int].0);
                    } else if i < c {
                        assert(self.applied[i as int].0 != self.applied[c].0);
                    }
                }
                return Some(i);
            }
            i += 1;
        }
        proof {
            let rows = self.applied.deep_view();
            if exists|c: int| 0 <= c < rows.len() && #[trigger] rows[c].0 == event_id {
                let c = choose|c: int| 0 <= c < rows.len() && #[trigger] rows[c].0 == event_id;
                assert(self.applied[c].0 == event_id);
            }
        }
        None
    }

    /// States that the invariants of the index hold, and that no table
    /// holds a key twice; changes nothing.
    pub fn check(&self)
        ensures
            self@.well_formed(),
            keys_unique(self.extension_rows()),
            keys_unique(self.package_rows()),
            keys_unique(self.container_rows()),
            keys_unique(self.handler_rows()),
            keys_unique(self.pref_rows()),
    {
        proof {
            use_type_invariant(self);
        }
        let _ = self.extensions.len();
        let _ = self.packages.len();
        let _ = self.containers.len();
        let _ = self.handlers.len();
        let _ = self.prefs.len();
    }

    /// The records of the applied events: identifier, origin device and
    /// origin timestamp of each, every event once.
    pub fn applied_events(&self) -> (r: Vec<(u128, String, i64)>)
        ensures
            forall|i: int|
                0 <= i < r@.len() ==> self@.applied.dom().contains((#[trigger] r[i]).0)
                    && self@.applied[r[i].0] == (r[i].1@, r[i].2),
            forall|i: int, j: int| 0 <= i < j < r@.len() ==> r[i].0 != r[j].0,
            forall|id: u128|
                self@.applied.dom().contains(id) ==> exists|i: int|
                    0 <= i < r@.len() && (#[trigger] r[i]).0 == id,
    {
        proof {
            use_type_invariant(self);
        }
        let mut out: Vec<(u128, String, i64)> = Vec::new();
        let mut i: usize = 0;
        while i < self.applied.len()
            invariant
                i <= self.applied.len(),
                out.len() == i,
                forall|j: int|
                    0 <= j < i ==> (#[trigger] out[j]).0 == self.applied[j].0 && out[j].1@
                        == self.applied[j].1@ && out[j].2 == self.applied[j].2,
            decreases self.applied.len() - i,
        {
            out.push((self.applied[i].0, self.applied[i].1.clone(), self.applied[i].2));
            i += 1;
        }
        proof {
            let rows = self.applied.deep_view();
            assert forall|k: int| 0 <= k < out@.len() implies self@.applied.dom().contains(
                (#[trigger] out[k]).0,
            ) && self@.applied[out[k].0] == (out[k].1@, out[k].2) by {
                assert(rows[k].0 == out[k].0);
                let c = choose|c: int| 0 <= c < rows.len() && #[trigger] rows[c].0 == out[k].0;
                assert(self.applied[c].0 == self.applied[k].0);
                if c < k {
                    assert(self.applied[c].0 != self.applied[k].0);
                } else if k < c {
                    assert(self.applied[k].0 != self.applied[c].0);
                }
            }
            assert forall|id: u128| self@.applied.dom().contains(id) implies exists|k: int|
                0 <= k < out@.len() && (#[trigger] out[k]).0 == id by {
                let c = choose|c: int| 0 <= c < rows.len() && #[trigger] rows[c].0 == id;
                assert(out[c].0 == id);
            }
        }
        out
    }

    /// True when the event was applied before.
    pub fn is_event_applied(&self, event_id: u128) -> (r: bool)
        ensures
            r == self@.applied.dom().contains(event_id),
    {
        self.applied_position(event_id).is_some()
    }

    /// Records the event as applied. An event that is recorded already
    /// keeps its first record.
    pub fn mark_event_applied(&mut self, event_id: u128, device: &str, timestamp: i64)
        ensures
            final(self)@ == (StateView {
                applied: if old(self)@.applied.dom().contains(event_id) {
                    old(self)@.applied
                } else {
                    old(self)@.applied.insert(event_id, (device@, timestamp))
                },
                ..old(self)@
            }),
            final(self)@.well_formed(),
    {
        proof {
            use_type_invariant(&*self);
        }
        if self.applied_position(event_id).is_none() {
            let ghost before = self.applied.deep_view();
            let mut rows = Vec::new();
            std::mem::swap(&mut rows, &mut self.applied);
            rows.push((event_id, device.to_owned(), timestamp));
            proof {
                let after = rows.deep_view();
                assert(after =~= before.push((event_id, device@, timestamp)));
                assert forall|i: int, j: int| 0 <= i < j < rows.len() implies rows[i].0
                    != rows[j].0 by {
                    if j == rows.len() - 1 {
                        assert(before[i].0 == rows[i].0);
                    }
                }
                lemma_applied_push(before, event_id, device@, timestamp);
            }
            self.applied = rows;
        }
    }


    /// Puts an extension in, replacing a row of the same identifier.
    pub fn add_extension(&mut self, id: &str, name: &str, url: Option<&str>)
        ensures
            final(self)@ == (StateView {
                extensions: old(self)@.extensions.insert(id@, (name@, url.deep_view())),
                ..old(self)@
            }),
            final(self)@.well_formed(),
    {
        proof {
            use_type_invariant(&*self);
        }
        let mut table: StringMap<(String, Option<String>)> = StringMap::new();
        std::mem::swap(&mut table, &mut self.extensions);
        table.insert(id.to_owned(), (name.to_owned(), own_opt(url)));
        self.extensions = table;
    }

    /// Takes an extension out.
    pub fn remove_extension(&mut self, id: &str)
        ensures
            final(self)@ == (StateView {
                extensions: old(self)@.extensions.remove(id@),
                ..old(self)@
            }),
            final(self)@.well_formed(),
    {
        proof {
            use_type_invariant(&*self);
        }
        let mut table: StringMap<(String, Option<String>)> = StringMap::new();
        std::mem::swap(&mut table, &mut self.extensions);
        let _ = table.remove(id);
        self.extensions = table;
    }

    /// Puts a container in, replacing a row of the same identifier.
    pub fn add_container(&mut self, id: &str, name: &str, color: &str, icon: &str)
        ensures
            final(self)@ == (StateView {
                containers: old(self)@.containers.insert(id@, (name@, color@, icon@)),
                ..old(self)@
            }),
            final(self)@.well_formed(),
    {
        proof {
            use_type_invariant(&*self);
        }
        let mut table: StringMap<(String, String, String)> = StringMap::new();
        std::mem::swap(&mut table, &mut self.containers);
        table.insert(id.to_owned(), (name.to_owned(), color.to_owned(), icon.to_owned()));
        self.containers = table;
    }

    /// Takes a container out.
    pub fn remove_container(&mut self, id: &str)
        ensures
            final(self)@ == (StateView {
                containers: old(self)@.containers.remove(id@),
                ..old(self)@
            }),
            final(self)@.well_formed(),
    {
        proof {
            use_type_invariant(&*self);
        }
        let mut table: StringMap<(String, String, String)> = StringMap::new();
        std::mem::swap(&mut table, &mut self.containers);
        let _ = table.remove(id);
        self.containers = table;
    }

    /// Binds a protocol to a handler URL template.
    pub fn set_handler(&mut self, protocol: &str, handler: &str)
        ensures
            final(self)@ == (StateView {
                handlers: old(self)@.handlers.insert(protocol@, handler@),
                ..old(self)@
            }),
            final(self)@.well_formed(),
    {
        proof {
            use_type_invariant(&*self);
        }
        let mut table: StringMap<String> = StringMap::new();
        std::mem::swap(&mut table, &mut self.handlers);
        table.insert(protocol.to_owned(), handler.to_owned());
        self.handlers = table;
    }

    /// Unbinds a protocol.
    pub fn remove_handler(&mut self, protocol: &str)
        ensures
            final(self)@ == (StateView {
                handlers: old(self)@.handlers.remove(protocol@),
                ..old(self)@
            }),
            final(self)@.well_formed(),
    {
        proof {
            use_type_invariant(&*self);
        }
        let mut table: StringMap<String> = StringMap::new();
        std::mem::swap(&mut table, &mut self.handlers);
        let _ = table.remove(protocol);
        self.handlers = table;
    }

    /// Stores a preference with the name of its type.
    pub fn set_pref(&mut self, key: &str, value: &str, value_type: &str)
        ensures
            final(self)@ == (StateView {
                prefs: old(self)@.prefs.insert(key@, (value@, value_type@)),
                ..old(self)@
            }),
            final(self)@.well_formed(),
    {
        proof {
            use_type_invariant(&*self);
        }
        let mut table: StringMap<(String, String)> = StringMap::new();
        std::mem::swap(&mut table, &mut self.prefs);
        table.insert(key.to_owned(), (value.to_owned(), value_type.to_owned()));
        self.prefs = table;
    }

    /// Takes a preference out.
    pub fn remove_pref(&mut self, key: &str)
        ensures
            final(self)@ == (StateView {
                prefs: old(self)@.prefs.remove(key@),
                ..old(self)@
            }),
            final(self)@.well_formed(),
    {
        proof {
            use_type_invariant(&*self);
        }
        let mut table: StringMap<(String, String)> = StringMap::new();
        std::mem::swap(&mut table, &mut self.prefs);
        let _ = table.remove(key);
        self.prefs = table;
    }

    /// Stores the package of an extension, replacing an earlier one.
    pub fn store_extension_xpi(&mut self, id: &str, version: &str, source: &ExtensionSource, xpi_data: &str)
        ensures
            final(self)@ == (StateView {
                packages: old(self)@.packages.insert(id@, (version@, source@, xpi_data@)),
                ..old(self)@
            }),
            final(self)@.well_formed(),
    {
        proof {
            use_type_invariant(&*self);
        }
        let mut table: StringMap<(String, ExtensionSource, String)> = StringMap::new();
        std::mem::swap(&mut table, &mut self.packages);
        table.insert(id.to_owned(), (version.to_owned(), source.duplicate(), xpi_data.to_owned()));
        self.packages = table;
    }

    /// Takes the package of an extension out.
    pub fn remove_extension_xpi(&mut self, id: &str)
        ensures
            final(self)@ == (StateView {
                packages: old(self)@.packages.remove(id@),
                ..old(self)@
            }),
            final(self)@.well_formed(),
    {
        proof {
            use_type_invariant(&*self);
        }
        let mut table: StringMap<(String, ExtensionSource, String)> = StringMap::new();
        std::mem::swap(&mut table, &mut self.packages);
        let _ = table.remove(id);
        self.packages = table;
    }

    /// Puts a search engine in, without the default flag, replacing a row
    /// of the same identifier.
    pub fn add_search_engine(&mut self, id: &str, name: &str, url: &str)
        ensures
            final(self)@ == (StateView {
                search_engines: old(self)@.search_engines.insert(id@, (name@, url@, false)),
                ..old(self)@
            }),
            final(self)@.well_formed(),
    {
        proof {
            use_type_invariant(&*self);
        }
        let mut table: StringMap<(String, String, bool)> = StringMap::new();
        std::mem::swap(&mut table, &mut self.search_engines);
        table.insert(id.to_owned(), (name.to_owned(), url.to_owned(), false));
        self.search_engines = table;
    }

    /// Takes a search engine out.
    pub fn remove_search_engine(&mut self, id: &str)
        ensures
            final(self)@ == (StateView {
                search_engines: old(self)@.search_engines.remove(id@),
                ..old(self)@
            }),
            final(self)@.well_formed(),
    {
        proof {
            use_type_invariant(&*self);
        }
        let mut table: StringMap<(String, String, bool)> = StringMap::new();
        std::mem::swap(&mut table, &mut self.search_engines);
        let _ = table.remove(id);
        self.search_engines = table;
    }

    /// Makes `id` the default search engine: clears the flag on every row,
    /// then sets it on the row of `id`, if there is one.
    pub fn set_default_search_engine(&mut self, id: &str)
        ensures
            final(self)@ == (StateView {
                search_engines: engines_with_default(old(self)@.search_engines, id@),
                ..old(self)@
            }),
            final(self)@.well_formed(),
    {
        proof {
            use_type_invariant(&*self);
        }
        let mut table: StringMap<(String, String, bool)> = StringMap::new();
        std::mem::swap(&mut table, &mut self.search_engines);
        let ghost before = table@;
        let n = table.len();
        let mut fresh: StringMap<(String, String, bool)> = StringMap::new();
        let mut i: usize = 0;
        while i < n
            invariant
                i <= n,
                n == table.entries().len(),
                table@ == before,
                crate::table::keys_unique(table.entries()),
                forall|k: Seq<char>|
                    fresh@.dom().contains(k) <==> exists|j: int|
                        0 <= j < i && #[trigger] table.entries()[j].0 == k,
                forall|k: Seq<char>| #[trigger]
                    fresh@.dom().contains(k) ==> fresh@[k] == (before[k].0, before[k].1, k == id@),
            decreases n - i,
        {
            let key = table.key_at(i);
            let row = table.value_at(i);
            let flag = same_text(id, key);
            let ghost prev = fresh@;
            fresh.insert(key.clone(), (row.0.clone(), row.1.clone(), flag));
            proof {
                let es = table.entries();
                crate::table::lemma_unique_index(es, i as int);
                assert forall|k: Seq<char>|
                    fresh@.dom().contains(k) <==> exists|j: int|
                        0 <= j < i + 1 && #[trigger] es[j].0 == k by {
                    if exists|j: int| 0 <= j < i + 1 && #[trigger] es[j].0 == k {
                        let j = choose|j: int| 0 <= j < i + 1 && #[trigger] es[j].0 == k;
                        if j < i {
                            assert(prev.dom().contains(k));
                        }
                    }
                    if prev.dom().contains(k) {
                        let j = choose|j: int| 0 <= j < i && #[trigger] es[j].0 == k;
                        assert(0 <= j < i + 1 && es[j].0 == k);
                    }
                }
            }
            i += 1;
        }
        proof {
            let es = table.entries();
            let target = engines_with_default(before, id@);
            assert forall|k: Seq<char>| fresh@.dom().contains(k) == target.dom().contains(k) by {
                if before.dom().contains(k) {
                    let j = crate::table::index_of_key(es, k);
                    assert(es[j].0 == k);
                }
            }
            assert(fresh@ =~= target);
        }
        self.search_engines = fresh;
    }

    /// The package of an extension: its version and its blob.
    pub fn get_extension_xpi(&self, id: &str) -> (r: Option<(String, String)>)
        ensures
            match r {
                Some(p) => self@.packages.dom().contains(id@) && p.0@ == self@.packages[id@].0
                    && p.1@ == self@.packages[id@].2,
                None => !self@.packages.dom().contains(id@),
            },
    {
        match self.packages.get(id) {
            Some(row) => Some((row.0.clone(), row.2.clone())),
            None => None,
        }
    }

    /// The extensions: identifier, name and optional source URL of each
    /// row, every row once.
    pub fn get_extensions(&self) -> (r: Vec<(String, String, Option<String>)>)
        ensures
            r.len() == self@.extensions.dom().len(),
            forall|i: int|
                0 <= i < r.len() ==> self@.extensions.dom().contains(#[trigger] r[i].0@)
                    && self@.extensions[r[i].0@] == (r[i].1@, r[i].2.deep_view()),
            forall|i: int, j: int| 0 <= i < j < r.len() ==> r[i].0@ != r[j].0@,
    {
        let n = self.extensions.len();
        let mut out: Vec<(String, String, Option<String>)> = Vec::new();
        let mut i: usize = 0;
        while i < n
            invariant
                i <= n,
                n == self.extensions.entries().len(),
                crate::table::keys_unique(self.extensions.entries()),
                out.len() == i,
                forall|j: int| 0 <= j < i ==> (#[trigger] out[j]).0@ == self.extensions.entries()[j].0,
                forall|j: int|
                    0 <= j < i ==> self@.extensions.dom().contains(#[trigger] out[j].0@)
                        && self@.extensions[out[j].0@] == (out[j].1@, out[j].2.deep_view()),
            decreases n - i,
        {
            let key = self.extensions.key_at(i);
            let row = self.extensions.value_at(i);
            out.push((key.clone(), row.0.clone(), crate::events::types::clone_opt(&row.1)));
            i += 1;
        }
        proof {
            assert forall|a: int, b: int| 0 <= a < b < out.len() implies out[a].0@ != out[b].0@ by {
                assert(self.extensions.entries()[a].0 != self.extensions.entries()[b].0);
            }
        }
        out
    }

    /// The extensions table.
    pub fn extensions(&self) -> (t: &StringMap<(String, Option<String>)>)
        ensures
            t@ == self@.extensions,
            t.entries() == self.extension_rows(),
    {
        &self.extensions
    }

    /// The extension packages table.
    pub fn packages(&self) -> (t: &StringMap<(String, ExtensionSource, String)>)
        ensures
            t@ == self@.packages,
            t.entries() == self.package_rows(),
    {
        &self.packages
    }

    /// The containers table.
    pub fn containers(&self) -> (t: &StringMap<(String, String, String)>)
        ensures
            t@ == self@.containers,
            t.entries() == self.container_rows(),
    {
        &self.containers
    }

    /// The protocol handlers table.
    pub fn handlers(&self) -> (t: &StringMap<String>)
        ensures
            t@ == self@.handlers,
            t.entries() == self.handler_rows(),
    {
        &self.handlers
    }

    /// The search engines table.
    pub fn search_engines(&self) -> (t: &StringMap<(String, String, bool)>)
        ensures
            t@ == self@.search_engines,
            one_default_at_most(t@),
    {
        proof {
            use_type_invariant(self);
        }
        &self.search_engines
    }

    /// The preferences table.
    pub fn prefs(&self) -> (t: &StringMap<(String, String)>)
        ensures
            t@ == self@.prefs,
            t.entries() == self.pref_rows(),
    {
        &self.prefs
    }

    /// Replaces the persisted clock as a whole.
    pub fn save_vector_clock(&mut self, clock: &VectorClock)
        ensures
            final(self)@ == (StateView { clock: clock@, ..old(self)@ }),
            final(self)@.well_formed(),
    {
        proof {
            use_type_invariant(&*self);
        }
        self.clock = clock.clone();
    }

    /// The persisted clock.
    pub fn load_vector_clock(&self) -> (clock: VectorClock)
        ensures
            clock@ == self@.clock,
    {
        self.clock.clone()
    }

    /// The pending tabs, oldest first.
    pub fn get_pending_tabs(&self) -> (r: Vec<PendingTab>)
        ensures
            r.deep_view() == self@.pending_tabs,
            tabs_in_order(r.deep_view()),
    {
        proof {
            use_type_invariant(self);
        }
        let mut out: Vec<PendingTab> = Vec::new();
        let mut i: usize = 0;
        while i < self.pending_tabs.len()
            invariant
                i <= self.pending_tabs.len(),
                out.len() == i,
                forall|j: int| 0 <= j < i ==> out[j]@ == self.pending_tabs[j]@,
            decreases self.pending_tabs.len() - i,
        {
            out.push(self.pending_tabs[i].clone());
            i += 1;
        }
        proof {
            assert(out.deep_view() =~= self.pending_tabs.deep_view());
        }
        out
    }

    /// Puts a pending tab in. A tab of the same identifier is replaced;
    /// the new tab stands behind those that arrived no later.
    pub fn add_pending_tab(
        &mut self,
        id: &str,
        url: &str,
        title: Option<&str>,
        sent_by: &str,
        sent_at: i64,
    )
        ensures
            final(self)@ == (StateView {
                pending_tabs: tabs_with(
                    old(self)@.pending_tabs,
                    PendingTabView {
                        id: id@,
                        url: url@,
                        title: title.deep_view(),
                        from_device: sent_by@,
                        sent_at,
                    },
                ),
                ..old(self)@
            }),
            final(self)@.well_formed(),
    {
        proof {
            use_type_invariant(&*self);
        }
        let mut tabs: Vec<PendingTab> = Vec::new();
        std::mem::swap(&mut tabs, &mut self.pending_tabs);
        let ghost before = tabs.deep_view();
        remove_tab(&mut tabs, id);
        let ghost rest = tabs.deep_view();
        let p = find_tab_position(&tabs, sent_at);
        let tab = PendingTab {
            id: id.to_owned(),
            url: url.to_owned(),
            title: own_opt(title),
            from_device: sent_by.to_owned(),
            sent_at,
        };
        let ghost tv = tab@;
        tabs.insert(p, tab);
        proof {
            assert(tabs.deep_view() =~= rest.insert(p as int, tv));
            lemma_tab_insert(rest, tv, p as int);
        }
        self.pending_tabs = tabs;
    }

    /// Takes the pending tab called `id` out.
    pub fn remove_pending_tab(&mut self, id: &str)
        ensures
            final(self)@ == (StateView {
                pending_tabs: tabs_without(old(self)@.pending_tabs, id@),
                ..old(self)@
            }),
            final(self)@.well_formed(),
    {
        proof {
            use_type_invariant(&*self);
        }
        let mut tabs: Vec<PendingTab> = Vec::new();
        std::mem::swap(&mut tabs, &mut self.pending_tabs);
        remove_tab(&mut tabs, id);
        self.pending_tabs = tabs;
    }
}

/// Appending a record of a new event inserts it into the map.
proof fn lemma_applied_push(rows: Seq<(u128, Seq<char>, i64)>, id: u128, device: Seq<char>, t: i64)
    requires
        forall|i: int, j: int| 0 <= i < j < rows.len() ==> rows[i].0 != rows[j].0,
        !applied_map(rows).dom().contains(id),
    ensures
        applied_map(rows.push((id, device, t))) == applied_map(rows).insert(id, (device, t)),
{
    let after = rows.push((id, device, t));
    let n = rows.len() as int;
    assert(after[n].0 == id);
    assert forall|k: u128| applied_map(after).dom().contains(k) == applied_map(rows).insert(
        id,
        (device, t),
    ).dom().contains(k) by {
        if applied_map(rows).dom().contains(k) {
            let i = choose|i: int| 0 <= i < rows.len() && #[trigger] rows[i].0 == k;
            assert(after[i].0 == k);
        }
        if applied_map(after).dom().contains(k) {
            let i = choose|i: int| 0 <= i < after.len() && #[trigger] after[i].0 == k;
            if i < n {
                assert(rows[i].0 == k);
            }
        }
    }
    assert forall|k: u128| applied_map(after).dom().contains(k) implies applied_map(after)[k]
        == applied_map(rows).insert(id, (device, t))[k] by {
        let i = choose|i: int| 0 <= i < after.len() && #[trigger] after[i].0 == k;
        if k == id {
            if i < n {
                assert(rows[i].0 == k);
            }
        } else {
            assert(i < n);
            assert(rows[i].0 == k);
            let j = choose|j: int| 0 <= j < rows.len() && #[trigger] rows[j].0 == k;
            if i < j {
                assert(rows[i].0 != rows[j].0);
            } else if j < i {
                assert(rows[j].0 != rows[i].0);
            }
        }
    }
    assert(applied_map(after) =~= applied_map(rows).insert(id, (device, t)));
}

} // verus!
