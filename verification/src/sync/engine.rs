//! The sync engine of one device: what each phase of a sync cycle decides.
//!
//! The engine holds the event log, the state index and the write queue.
//! Reading and writing files is left to its caller, who hands over what
//! was read and carries out what the engine returns.

use vstd::prelude::*;
use crate::config::Config;
use crate::crypto::keypair::PublicKey;
use crate::events::clock::VectorClock;
use crate::events::log::{EventLog, SealedBatch};
use crate::events::order::{in_order, sort_envelopes};
use crate::events::storage::LogError;
use crate::events::types::{
    current_time_micros, fresh_event_id, uuid_hyphenated, uuid_parse, uuid_parsed, uuid_text,
    EnvelopeView, Event, EventEnvelope, EventView, PrefValue, PrefValueView,
};
use crate::extensions::package::{
    install_to_profile, package_path, unpacked, ExtensionError, PackageFile,
};
use crate::net::protocol::EncryptedEvent;
use crate::profile::entities::{
    contains_text, Container, ContainerView, Extension, Handler, HandlerView,
};
use crate::profile::write_queue::{
    enqueued, kinds_distinct, PendingWrite, PendingWriteView, WriteQueue,
};
use crate::state::db::{PendingTab, PendingTabView, StateDb, StateView, tabs_with, tabs_without};
use crate::state::materialize::{materialize, materialize_events, newly_applied, Stamp};
use crate::sync::diff::{
    container_additions, container_keys, container_removals, diff_containers, diff_extensions,
    diff_handlers, diff_prefs, extension_additions, extension_ids, extension_removals,
    handler_changes, handler_protocols, handler_removals, pref_changes, pref_removals,
};
use crate::sync::merge::{merge_clocks, merged_clock};
use crate::table::{entries_to_map, keys_unique, lemma_unique_index, Plain, StringMap};
use crate::text::{join, parse_i64, parse_u32_text, parsed_i64, parsed_u32, str_eq};

verus! {

/// The keys of a table's rows, in order.
pub open spec fn row_keys<V>(rows: Seq<(Seq<char>, V)>) -> Seq<Seq<char>> {
    Seq::new(rows.len(), |i: int| rows[i].0)
}

/// The preference value that a stored text and type name stand for: a
/// truth value for `bool` (true only for the text `true`), a number for
/// `int` (zero when the text is none), the text itself otherwise.
pub open spec fn stored_pref(value: Seq<char>, value_type: Seq<char>) -> PrefValueView {
    if value_type == "bool"@ {
        PrefValueView::Bool(value == "true"@)
    } else if value_type == "int"@ {
        PrefValueView::Int(
            match parsed_i64(value) {
                Some(i) => i,
                None => 0,
            },
        )
    } else {
        PrefValueView::Text(value)
    }
}

/// The container that a row of the index stands for. Its number is read
/// from the key and is zero when the key is no number.
pub open spec fn container_of_row(row: (Seq<char>, (Seq<char>, Seq<char>, Seq<char>))) -> ContainerView {
    ContainerView {
        user_context_id: match parsed_u32(row.0) {
            Some(n) => n,
            None => 0,
        },
        name: row.1.0,
        color: row.1.1,
        icon: row.1.2,
        is_public: true,
    }
}

/// The containers that the rows of the index stand for.
pub open spec fn container_snapshot(
    rows: Seq<(Seq<char>, (Seq<char>, Seq<char>, Seq<char>))>,
) -> Seq<ContainerView> {
    Seq::new(rows.len(), |i: int| container_of_row(rows[i]))
}

/// The handlers that the rows of the index stand for.
pub open spec fn handler_snapshot(rows: Seq<(Seq<char>, Seq<char>)>) -> Seq<HandlerView> {
    Seq::new(rows.len(), |i: int| HandlerView { protocol: rows[i].0, handler: rows[i].1 })
}

/// The preferences that the rows of the index stand for.
pub open spec fn pref_snapshot(rows: Seq<(Seq<char>, (Seq<char>, Seq<char>))>) -> Seq<
    (Seq<char>, PrefValueView),
> {
    Seq::new(rows.len(), |i: int| (rows[i].0, stored_pref(rows[i].1.0, rows[i].1.1)))
}

/// Reads a stored preference.
pub fn read_stored_pref(value: &str, value_type: &str) -> (r: PrefValue)
    ensures
        r@ == stored_pref(value@, value_type@),
{
    if str_eq(value_type, "bool") {
        PrefValue::Bool(str_eq(value, "true"))
    } else if str_eq(value_type, "int") {
        PrefValue::Int(
            match parse_i64(value) {
                Some(i) => i,
                None => 0,
            },
        )
    } else {
        PrefValue::String(value.to_owned())
    }
}

/// The containers of the index.
pub fn materialized_containers(db: &StateDb) -> (r: Vec<Container>)
    ensures
        r.deep_view() == container_snapshot(db.container_rows()),
{
    let table = db.containers();
    let n = table.len();
    let mut out: Vec<Container> = Vec::new();
    let mut i: usize = 0;
    while i < n
        invariant
            i <= n,
            n == table.entries().len(),
            out.len() == i,
            forall|j: int| 0 <= j < i ==> (#[trigger] out[j])@ == container_of_row(table.entries()[j]),
        decreases n - i,
    {
        let key = table.key_at(i);
        let row = table.value_at(i);
        let number = match parse_u32_text(key.as_str()) {
            Some(v) => v,
            None => 0,
        };
        out.push(
            Container {
                user_context_id: number,
                name: row.0.clone(),
                color: row.1.clone(),
                icon: row.2.clone(),
                is_public: true,
            },
        );
        i += 1;
    }
    proof {
        assert(out.deep_view() =~= container_snapshot(table.entries()));
    }
    out
}

/// The handlers of the index.
pub fn materialized_handlers(db: &StateDb) -> (r: Vec<Handler>)
    ensures
        r.deep_view() == handler_snapshot(db.handler_rows()),
{
    let table = db.handlers();
    let n = table.len();
    let mut out: Vec<Handler> = Vec::new();
    let mut i: usize = 0;
    while i < n
        invariant
            i <= n,
            n == table.entries().len(),
            out.len() == i,
            forall|j: int|
                0 <= j < i ==> (#[trigger] out[j])@ == (HandlerView {
                    protocol: table.entries()[j].0,
                    handler: table.entries()[j].1,
                }),
        decreases n - i,
    {
        out.push(Handler { protocol: table.key_at(i).clone(), handler: table.value_at(i).clone() });
        i += 1;
    }
    proof {
        assert(out.deep_view() =~= handler_snapshot(table.entries()));
    }
    out
}

/// The preferences of the index.
pub fn materialized_prefs(db: &StateDb) -> (r: StringMap<PrefValue>)
    ensures
        r.entries() == pref_snapshot(db.pref_rows()),
{
    let table = db.prefs();
    let n = table.len();
    let mut out: StringMap<PrefValue> = StringMap::new();
    let mut i: usize = 0;
    proof {
        assert(out.entries() =~= pref_snapshot(table.entries()).subrange(0, 0));
    }
    while i < n
        invariant
            i <= n,
            n == table.entries().len(),
            keys_unique(table.entries()),
            out.entries() == pref_snapshot(table.entries()).subrange(0, i as int),
        decreases n - i,
    {
        let key = table.key_at(i);
        let row = table.value_at(i);
        let value = read_stored_pref(row.0.as_str(), row.1.as_str());
        proof {
            let rows = table.entries();
            let built = out.entries();
            if crate::table::has_key(built, key@) {
                let j = crate::table::index_of_key(built, key@);
                assert(built[j].0 == rows[j].0);
                assert(rows[j].0 != rows[i as int].0);
            }
        }
        out.insert(key.clone(), value);
        proof {
            let rows = table.entries();
            assert(out.entries() =~= pref_snapshot(rows).subrange(0, i + 1));
        }
        i += 1;
    }
    proof {
        assert(pref_snapshot(table.entries()).subrange(0, n as int) =~= pref_snapshot(
            table.entries(),
        ));
    }
    out
}

/// The keys of a table, in order.
pub fn table_keys<V: DeepView>(table: &StringMap<V>) -> (r: Vec<String>)
    ensures
        r.deep_view() == row_keys(table.entries()),
{
    let n = table.len();
    let mut out: Vec<String> = Vec::new();
    let mut i: usize = 0;
    while i < n
        invariant
            i <= n,
            n == table.entries().len(),
            out.len() == i,
            forall|j: int| 0 <= j < i ==> out[j]@ == table.entries()[j].0,
        decreases n - i,
    {
        out.push(table.key_at(i).clone());
        i += 1;
    }
    proof {
        assert(out.deep_view() =~= row_keys(table.entries()));
    }
    out
}

/// The events that bring the index up to what was scanned from the
/// profile: extensions, containers, handlers, and preferences when
/// `with_prefs` holds.
pub open spec fn scan_events(
    db: StateDb,
    extensions: Seq<crate::profile::entities::ExtensionView>,
    containers: Seq<ContainerView>,
    handlers: Seq<HandlerView>,
    prefs: Seq<(Seq<char>, PrefValueView)>,
    with_prefs: bool,
) -> Seq<EventView> {
    let known_extensions = row_keys(db.extension_rows());
    let known_containers = row_keys(db.container_rows());
    let known_prefs = pref_snapshot(db.pref_rows());
    let base = extension_additions(extensions, known_extensions) + extension_removals(
        known_extensions,
        extension_ids(extensions),
    ) + (container_additions(containers, known_containers) + container_removals(
        known_containers,
        container_keys(containers),
    )) + (handler_changes(handlers, db@.handlers) + handler_removals(
        db.handler_rows(),
        handler_protocols(handlers),
    ));
    if with_prefs {
        base + (pref_changes(prefs, entries_to_map(known_prefs)) + pref_removals(
            known_prefs,
            entries_to_map(prefs),
        ))
    } else {
        base
    }
}

/// Appends the events of `more` to `events`.
fn extend_events(events: &mut Vec<Event>, more: Vec<Event>)
    ensures
        final(events).deep_view() == old(events).deep_view() + more.deep_view(),
{
    let ghost start = events.deep_view();
    let mut i: usize = 0;
    proof {
        assert(start + more.deep_view().subrange(0, 0) =~= start);
    }
    while i < more.len()
        invariant
            i <= more.len(),
            events.deep_view() == start + more.deep_view().subrange(0, i as int),
        decreases more.len() - i,
    {
        let ghost before = events.deep_view();
        events.push(more[i].clone());
        proof {
            assert(events.deep_view() =~= before.push(more[i as int]@));
            assert(events.deep_view() =~= start + more.deep_view().subrange(0, i + 1));
        }
        i += 1;
    }
    proof {
        assert(more.deep_view().subrange(0, more.len() as int) =~= more.deep_view());
    }
}

/// The name of the package file of an extension.
pub open spec fn package_file_name(id: Seq<char>) -> Seq<char> {
    id + ".xpi"@
}

/// The package files to write for the extensions of the index: one for
/// every extension whose package the index holds and whose file is not
/// among `present`, in the order of the rows. The first package that does
/// not unpack makes the whole plan fail.
pub open spec fn install_plan(
    rows: Seq<(Seq<char>, (Seq<char>, Option<Seq<char>>))>,
    packages: Map<Seq<char>, (Seq<char>, crate::events::types::ExtensionSourceView, Seq<char>)>,
    present: Seq<Seq<char>>,
) -> Result<Seq<crate::extensions::package::PackageFileView>, ExtensionError>
    decreases rows.len(),
{
    if rows.len() == 0 {
        Ok(Seq::empty())
    } else {
        match install_plan(rows.drop_last(), packages, present) {
            Err(e) => Err(e),
            Ok(files) => {
                let id = rows.last().0;
                if present.contains(package_file_name(id)) || !packages.dom().contains(id) {
                    Ok(files)
                } else {
                    match unpacked(packages[id].2) {
                        Ok(bytes) => Ok(
                            files.push(crate::extensions::package::package_file(id, bytes)),
                        ),
                        Err(e) => Err(e),
                    }
                }
            },
        }
    }
}

/// The extensions to remove from the profile: every file stem that has a
/// package in the index but no extension row, each once, in the order of
/// the stems.
pub open spec fn removal_plan(
    stems: Seq<Seq<char>>,
    packages: Set<Seq<char>>,
    extensions: Set<Seq<char>>,
) -> Seq<Seq<char>>
    decreases stems.len(),
{
    if stems.len() == 0 {
        Seq::empty()
    } else {
        let rest = removal_plan(stems.drop_last(), packages, extensions);
        let stem = stems.last();
        if packages.contains(stem) && !extensions.contains(stem) && !rest.contains(stem) {
            rest.push(stem)
        } else {
            rest
        }
    }
}

/// The snapshots of the index that are worth writing: containers,
/// handlers and preferences, each only when it is not empty.
pub open spec fn fresh_writes(db: StateDb) -> Seq<PendingWriteView> {
    let containers = container_snapshot(db.container_rows());
    let handlers = handler_snapshot(db.handler_rows());
    let prefs = pref_snapshot(db.pref_rows());
    let first: Seq<PendingWriteView> = if containers.len() > 0 {
        seq![PendingWriteView::Containers(containers)]
    } else {
        Seq::empty()
    };
    let second = if handlers.len() > 0 {
        first.push(PendingWriteView::Handlers(handlers))
    } else {
        first
    };
    if prefs.len() > 0 {
        second.push(PendingWriteView::Prefs(entries_to_map(prefs)))
    } else {
        second
    }
}

/// The queue after each of the writes was put in, in order.
pub open spec fn enqueued_all(queue: Seq<PendingWriteView>, writes: Seq<PendingWriteView>) -> Seq<
    PendingWriteView,
>
    decreases writes.len(),
{
    if writes.len() == 0 {
        queue
    } else {
        enqueued(enqueued_all(queue, writes.drop_last()), writes.last())
    }
}

/// The files that a sync cycle reports as written: the profile files,
/// then the package file of every installed extension, then that of every
/// removed extension with a note.
pub open spec fn reported_files(
    applied: Seq<Seq<char>>,
    installed: Seq<Seq<char>>,
    removed: Seq<Seq<char>>,
) -> Seq<Seq<char>> {
    applied + Seq::new(installed.len(), |i: int| package_path(installed[i])) + Seq::new(
        removed.len(),
        |i: int| package_path(removed[i]) + " (removed)"@,
    )
}

/// What processing incoming envelopes comes to: `sorted` are the
/// envelopes in order of application and are materialised with `stamps`;
/// `applied` of them took effect. The clock becomes its merge with the
/// clock of every envelope, whether or not the envelope took effect, and
/// is stored in the index.
pub open spec fn incoming_outcome(
    db: StateView,
    clock: Map<Seq<char>, u64>,
    device: Seq<char>,
    envelopes: Seq<EnvelopeView>,
    sorted: Seq<EnvelopeView>,
    stamps: Seq<Stamp>,
    applied: usize,
    final_db: StateView,
    final_clock: Map<Seq<char>, u64>,
) -> bool {
    &&& in_order(sorted)
    &&& sorted.to_multiset() == envelopes.to_multiset()
    &&& stamps.len() == sorted.len()
    &&& applied == newly_applied(db.applied.dom(), sorted)
    &&& final_clock == merged_clock(clock, envelopes)
    &&& final_db == (StateView { clock: final_clock, ..materialize(db, sorted, device, stamps) })
}

impl SyncEngine {
    /// True when `after` is this engine but for its index, log clock and
    /// queue: the same device, profile, paired devices and keys.
    pub open spec fn same_identity(&self, after: &SyncEngine) -> bool {
        &&& after.known() == self.known()
        &&& after.device() == self.device()
        &&& after.device_name() == self.device_name()
        &&& after.scans_prefs() == self.scans_prefs()
        &&& after.profile() == self.profile()
        &&& after.sync_root() == self.sync_root()
        &&& after.queue().profile() == self.queue().profile()
        &&& after.log().base() == self.log().base()
        &&& after.log().device() == self.log().device()
        &&& after.log().secret() == self.log().secret()
        &&& after.log().public() == self.log().public()
    }

    /// What `process_incoming` does: the envelopes are put in order of
    /// application and materialised; `applied` of them take effect. The
    /// clock of the log becomes its merge with the clock of every
    /// envelope and is stored in the index.
    pub open spec fn incoming_processed(
        &self,
        after: &SyncEngine,
        envelopes: Seq<EnvelopeView>,
        applied: usize,
    ) -> bool {
        &&& exists|sorted: Seq<EnvelopeView>, stamps: Seq<Stamp>| #[trigger]
            incoming_outcome(
                self.db()@,
                self.log().clock_view(),
                self.device(),
                envelopes,
                sorted,
                stamps,
                applied,
                after.db()@,
                after.log().clock_view(),
            )
        &&& after.db()@.well_formed()
        &&& after.queue() == self.queue()
        &&& self.same_identity(after)
    }

    /// What `write_events` does: nothing for an empty list; otherwise the
    /// log counts the batch on its clock and stamps one envelope per
    /// event, or fails with `CounterExhausted`, its clock unchanged, when
    /// the counter cannot advance.
    pub open spec fn batch_started(
        &self,
        after: &SyncEngine,
        events: Seq<EventView>,
        r: Result<Option<Vec<EventEnvelope>>, LogError>,
    ) -> bool {
        let counter = crate::events::clock::clock_get(self.log().clock_view(), self.log().device());
        &&& after.db() == self.db()
        &&& after.queue() == self.queue()
        &&& self.same_identity(after)
        &&& if events.len() == 0 {
            r matches Ok(None) && after.log() == self.log()
        } else if counter == u64::MAX {
            r matches Err(e) && e == LogError::CounterExhausted && after.log().clock_view()
                == self.log().clock_view()
        } else {
            &&& r matches Ok(Some(envelopes))
            &&& after.log().clock_view() == self.log().clock_view().insert(
                self.log().device(),
                (counter + 1) as u64,
            )
            &&& envelopes@.len() == events.len()
            &&& forall|i: int|
                0 <= i < envelopes@.len() ==> {
                    &&& (#[trigger] envelopes[i])@.device == self.log().device()
                    &&& envelopes[i]@.clock == after.log().clock_view()
                    &&& envelopes[i]@.event == events[i]
                }
        }
    }

    /// What logging one event does: the log counts the event on its clock
    /// and stamps one envelope for it, which carries the device and the
    /// new clock; or, when the counter cannot advance, no envelope comes
    /// back and the clock stays as it was. The queue, the paired devices
    /// and the keys stay as they were.
    pub open spec fn event_logged(
        &self,
        after: &SyncEngine,
        event: EventView,
        envelopes: Option<Vec<EventEnvelope>>,
    ) -> bool {
        let counter = crate::events::clock::clock_get(self.log().clock_view(), self.log().device());
        &&& after.queue() == self.queue()
        &&& self.same_identity(after)
        &&& if counter == u64::MAX {
            envelopes is None && after.log().clock_view() == self.log().clock_view()
        } else {
            &&& envelopes matches Some(list)
            &&& after.log().clock_view() == self.log().clock_view().insert(
                self.log().device(),
                (counter + 1) as u64,
            )
            &&& list@.len() == 1
            &&& list[0]@.device == self.log().device()
            &&& list[0]@.clock == after.log().clock_view()
            &&& list[0]@.event == event
        }
    }

    /// What `apply_to_profile` does: while the browser holds the profile,
    /// the snapshots of the index are queued and nothing is to be written;
    /// otherwise the queued writes are to be written, followed by the
    /// snapshots, and the queue is left as it is.
    pub open spec fn profile_applied(
        &self,
        after: &SyncEngine,
        browser_live: bool,
        writes: Seq<PendingWriteView>,
    ) -> bool {
        &&& after.db() == self.db()
        &&& after.log() == self.log()
        &&& self.same_identity(after)
        &&& kinds_distinct(after.queue()@)
        &&& if browser_live {
            writes.len() == 0 && after.queue()@ == enqueued_all(
                self.queue()@,
                fresh_writes(self.db()),
            )
        } else {
            after.queue()@ == self.queue()@ && writes == self.queue()@ + fresh_writes(self.db())
        }
    }

    /// The steps of a sync cycle, in order: incoming envelopes are applied,
    /// the profile is scanned, the batch of outgoing events is started,
    /// the profile writes are decided, the installation of packages is
    /// planned, and uninstalled extensions are removed. `e1`, `e2` and
    /// `e3` are the engine after the first, third and fourth step. The
    /// cycle ends early, the steps so far in effect, when the batch cannot
    /// be started or a package does not unpack.
    pub open spec fn cycle_steps(
        &self,
        e1: &SyncEngine,
        e2: &SyncEngine,
        e3: &SyncEngine,
        after: &SyncEngine,
        seen: &ProfileScan,
        applied: usize,
        written: Result<Option<Vec<EventEnvelope>>, LogError>,
        writes: Seq<PendingWriteView>,
        r: Result<SyncPlan, EngineError>,
    ) -> bool {
        let events = scan_events(
            e1.db(),
            seen.extensions.deep_view(),
            seen.containers.deep_view(),
            seen.handlers.deep_view(),
            seen.prefs.entries(),
            e1.scans_prefs(),
        );
        &&& self.incoming_processed(e1, seen.envelopes.deep_view(), applied)
        &&& e1.batch_started(e2, events, written)
        &&& match written {
            Err(e) => r matches Err(x) && x == EngineError::Log(e) && *after == *e2,
            Ok(envelopes) => e2.profile_applied(e3, seen.browser_live, writes) && (match install_plan(
                e3.db().extension_rows(),
                e3.db()@.packages,
                seen.extension_files.deep_view(),
            ) {
                Err(e) => r matches Err(x) && x == EngineError::Extension(e) && *after == *e3,
                Ok(files) => r matches Ok(plan) && e3.extensions_removed(
                    after,
                    seen.xpi_stems.deep_view(),
                    plan.removed.deep_view(),
                ) && plan.incoming_applied == applied && plan.outbound.deep_view() == events
                    && plan.envelopes == envelopes && plan.profile_writes.deep_view() == writes
                    && plan.install.deep_view() == files,
            }),
        }
    }

    /// What `sync` does: the steps of a cycle, with some engine after each.
    pub open spec fn cycle_run(
        &self,
        after: &SyncEngine,
        seen: &ProfileScan,
        r: Result<SyncPlan, EngineError>,
    ) -> bool {
        exists|
            e1: SyncEngine,
            e2: SyncEngine,
            e3: SyncEngine,
            applied: usize,
            written: Result<Option<Vec<EventEnvelope>>, LogError>,
            writes: Seq<PendingWriteView>,
        | #[trigger]
            self.cycle_steps(&e1, &e2, &e3, after, seen, applied, written, writes, r)
    }

    /// What `handle_network_event` does.
    pub open spec fn event_served(
        &self,
        after: &SyncEngine,
        event: crate::net::node::NetworkEventView,
        commands: Seq<crate::net::node::NetworkCommandView>,
    ) -> bool {
        &&& after.log() == self.log()
        &&& after.queue() == self.queue()
        &&& self.same_identity(after)
        &&& match event {
            crate::net::node::NetworkEventView::PeerDiscovered { peer_id, .. } => after.db()
                == self.db() && commands == seq![
                crate::net::node::NetworkCommandView::GetClock { peer_id },
            ],
            crate::net::node::NetworkEventView::PeerDisconnected { .. } => after.db() == self.db()
                && commands.len() == 0,
            crate::net::node::NetworkEventView::ClockRequested { request_id, .. } => after.db()
                == self.db() && commands == seq![
                crate::net::node::NetworkCommandView::RespondClock {
                    request_id,
                    clock: self.log().clock_view(),
                    device_id: self.device(),
                    device_name: self.device_name(),
                },
            ],
            crate::net::node::NetworkEventView::EventsRequested { request_id, .. } => after.db()
                == self.db() && commands == seq![
                crate::net::node::NetworkCommandView::RespondEvents {
                    request_id,
                    events: Seq::empty(),
                },
            ],
            crate::net::node::NetworkEventView::EventsReceived { .. } => after.db() == self.db()
                && commands.len() == 0,
            crate::net::node::NetworkEventView::TabReceived {
                url,
                title,
                from_device,
                ..
            } => commands.len() == 0 && exists|stamp: Stamp|
                after.db()@ == (StateView {
                    pending_tabs: #[trigger] tabs_with(
                        self.db()@.pending_tabs,
                        PendingTabView {
                            id: uuid_hyphenated(stamp.id),
                            url,
                            title,
                            from_device,
                            sent_at: stamp.now,
                        },
                    ),
                    ..self.db()@
                }),
        }
    }

    /// What `remove_uninstalled_extensions` does: the stems of the removal
    /// plan are returned and their package rows leave the index.
    pub open spec fn extensions_removed(
        &self,
        after: &SyncEngine,
        stems: Seq<Seq<char>>,
        removed: Seq<Seq<char>>,
    ) -> bool {
        &&& removed == removal_plan(stems, self.db()@.packages.dom(), self.db()@.extensions.dom())
        &&& after.db()@ == (StateView {
            packages: self.db()@.packages.remove_keys(removed.to_set()),
            ..self.db()@
        })
        &&& after.log() == self.log()
        &&& after.queue() == self.queue()
        &&& self.same_identity(after)
    }
}

/// What a sync cycle did.
#[derive(Debug)]
pub struct SyncResult {
    pub incoming_applied: usize,
    pub outbound_written: usize,
    pub profile_files_written: Vec<String>,
    pub event_file: Option<String>,
}

/// Why the engine declines.
#[derive(Debug, Clone, Copy, PartialEq, Eq, Structural)]
pub enum EngineError {
    /// The tab identifier is no identifier.
    InvalidTabId,
    /// The event log declined.
    Log(LogError),
    /// A package did not unpack.
    Extension(ExtensionError),
}

/// What was read for a sync cycle: the envelopes of the log and the state
/// of the profile.
#[derive(Debug)]
pub struct ProfileScan {
    /// The envelopes of all devices, as read from the log.
    pub envelopes: Vec<EventEnvelope>,
    pub extensions: Vec<Extension>,
    pub containers: Vec<Container>,
    pub handlers: Vec<Handler>,
    /// The whitelisted preferences.
    pub prefs: StringMap<PrefValue>,
    /// True when the browser holds the profile.
    pub browser_live: bool,
    /// The names of the files in the profile's extension directory.
    pub extension_files: Vec<String>,
    /// The stems of the package files among them.
    pub xpi_stems: Vec<String>,
}

/// What a sync cycle decided, for its caller to carry out.
#[derive(Debug)]
pub struct SyncPlan {
    /// How many incoming envelopes took effect.
    pub incoming_applied: usize,
    /// The events that the scan of the profile found.
    pub outbound: Vec<Event>,
    /// Their envelopes, to be serialised, sealed and written; none when
    /// the scan found nothing.
    pub envelopes: Option<Vec<EventEnvelope>>,
    /// The writes to the profile files, in order.
    pub profile_writes: Vec<PendingWrite>,
    /// The package files to write.
    pub install: Vec<PackageFile>,
    /// The extensions whose package files are to be deleted.
    pub removed: Vec<String>,
}

/// Copies a list of events.
pub fn clone_event_list(events: &Vec<Event>) -> (r: Vec<Event>)
    ensures
        r.deep_view() == events.deep_view(),
{
    let mut out: Vec<Event> = Vec::new();
    let mut i: usize = 0;
    while i < events.len()
        invariant
            i <= events.len(),
            out.len() == i,
            forall|j: int| 0 <= j < i ==> out[j]@ == events[j]@,
        decreases events.len() - i,
    {
        out.push(events[i].clone());
        i += 1;
    }
    proof {
        assert(out.deep_view() =~= events.deep_view());
    }
    out
}

/// True when the write queue is due to be flushed: the browser held the
/// profile at the last look and has let go of it.
pub fn flush_due(was_live: bool, is_live: bool) -> (r: bool)
    ensures
        r == (was_live && !is_live),
{
    was_live && !is_live
}

/// The sync engine of one device.
pub struct SyncEngine {
    config: Config,
    profile_path: String,
    event_log: EventLog,
    state_db: StateDb,
    write_queue: WriteQueue,
    known_devices: Vec<(String, PublicKey)>,
}

impl SyncEngine {
    /// The state index.
    pub closed spec fn db(&self) -> StateDb {
        self.state_db
    }

    /// The event log.
    pub closed spec fn log(&self) -> EventLog {
        self.event_log
    }

    /// The write queue.
    pub closed spec fn queue(&self) -> WriteQueue {
        self.write_queue
    }

    /// The paired devices, in the order in which they were added.
    pub closed spec fn known(&self) -> Seq<(String, [u8; 32])> {
        self.known_devices@
    }

    /// The identifier of this device.
    pub closed spec fn device(&self) -> Seq<char> {
        self.config.device.id@
    }

    /// The name of this device.
    pub closed spec fn device_name(&self) -> Seq<char> {
        self.config.device.name@
    }

    /// True when preferences are scanned: the whitelist is not empty.
    pub closed spec fn scans_prefs(&self) -> bool {
        self.config.prefs.whitelist@.len() > 0
    }

    /// The profile directory.
    pub closed spec fn profile(&self) -> Seq<char> {
        self.profile_path@
    }

    /// The sync root.
    pub closed spec fn sync_root(&self) -> Seq<char> {
        self.config.paths.sync_dir@
    }

    /// An engine over the given log and index, for the profile at
    /// `profile_path`, with an empty write queue and no paired device.
    pub fn new(config: Config, event_log: EventLog, state_db: StateDb, profile_path: String) -> (e:
        Self)
        ensures
            e.db() == state_db,
            e.log() == event_log,
            e.queue()@ == Seq::<PendingWriteView>::empty(),
            e.known().len() == 0,
            e.device() == config.device.id@,
            e.device_name() == config.device.name@,
            e.scans_prefs() == (config.prefs.whitelist@.len() > 0),
            e.profile() == profile_path@,
            e.sync_root() == config.paths.sync_dir@,
    {
        let write_queue = WriteQueue::new(profile_path.clone());
        SyncEngine {
            config,
            profile_path,
            event_log,
            state_db,
            write_queue,
            known_devices: Vec::new(),
        }
    }

    /// Adds a paired device.
    pub fn add_known_device(&mut self, device_id: String, public_key: PublicKey)
        ensures
            final(self).known() == old(self).known().push((device_id, public_key)),
            final(self).db() == old(self).db(),
            final(self).log() == old(self).log(),
            final(self).queue() == old(self).queue(),
            final(self).device() == old(self).device(),
            final(self).scans_prefs() == old(self).scans_prefs(),
    {
        self.known_devices.push((device_id, public_key));
    }

    /// The sync root.
    pub fn sync_dir(&self) -> (d: String)
        ensures
            d@ == self.sync_root(),
    {
        self.config.paths.sync_dir.clone()
    }

    /// The profile directory.
    pub fn profile_path(&self) -> (p: &str)
        ensures
            p@ == self.profile(),
    {
        self.profile_path.as_str()
    }

    /// The identifier of this device.
    pub fn device_id(&self) -> (d: &str)
        ensures
            d@ == self.device(),
    {
        self.config.device.id.as_str()
    }

    /// The state index.
    pub fn state(&self) -> (db: &StateDb)
        ensures
            *db == self.db(),
    {
        &self.state_db
    }

    /// The event log.
    pub fn event_log(&self) -> (log: &EventLog)
        ensures
            *log == self.log(),
    {
        &self.event_log
    }

    /// The paired devices.
    pub fn known_devices(&self) -> (k: &Vec<(String, PublicKey)>)
        ensures
            k@ == self.known(),
    {
        &self.known_devices
    }

    /// Scans the profile against the index: the events that bring the
    /// index up to what was read from the profile. Nothing is written.
    /// Preferences are compared only when the whitelist is not empty.
    pub fn scan_profile(
        &self,
        current_extensions: &[Extension],
        current_containers: &[Container],
        current_handlers: &[Handler],
        current_prefs: &StringMap<PrefValue>,
    ) -> (events: Vec<Event>)
        ensures
            events.deep_view() == scan_events(
                self.db(),
                current_extensions.deep_view(),
                current_containers.deep_view(),
                current_handlers.deep_view(),
                current_prefs.entries(),
                self.scans_prefs(),
            ),
    {
        let known_extensions = table_keys(self.state_db.extensions());
        let mut events = diff_extensions(current_extensions, known_extensions.as_slice());
        let known_containers = table_keys(self.state_db.containers());
        extend_events(
            &mut events,
            diff_containers(current_containers, known_containers.as_slice()),
        );
        extend_events(&mut events, diff_handlers(current_handlers, self.state_db.handlers()));
        if self.config.prefs.whitelist.len() > 0 {
            let known_prefs = materialized_prefs(&self.state_db);
            extend_events(&mut events, diff_prefs(current_prefs, &known_prefs));
        }
        events
    }

    /// Applies the envelopes that were read from the log: puts them in
    /// order of application and materialises them. The clock of the log
    /// becomes its merge with the clock of every envelope and is stored in
    /// the index, also where no envelope took effect. Returns how many
    /// took effect.
    pub fn process_incoming(&mut self, envelopes: &[EventEnvelope]) -> (applied: usize)
        ensures
            old(self).incoming_processed(final(self), envelopes.deep_view(), applied),
    {
        let sorted = sort_envelopes(envelopes);
        let sorted_slice = sorted.as_slice();
        proof {
            assert(sorted_slice.deep_view() =~= sorted.deep_view());
        }
        let ghost before = self.state_db@;
        let ghost device = self.config.device.id@;
        let applied = materialize_events(
            &mut self.state_db,
            sorted_slice,
            self.config.device.id.as_str(),
        );
        let ghost stamps = choose|stamps: Seq<Stamp>|
            stamps.len() == sorted@.len() && self.state_db@ == #[trigger] materialize(
                before,
                sorted.deep_view(),
                device,
                stamps,
            );
        let merged = merge_clocks(self.event_log.clock(), envelopes);
        self.state_db.save_vector_clock(&merged);
        self.event_log.set_clock(merged);
        proof {
            assert(incoming_outcome(
                old(self).db()@,
                old(self).log().clock_view(),
                old(self).device(),
                envelopes.deep_view(),
                sorted.deep_view(),
                stamps,
                applied,
                self.db()@,
                self.log().clock_view(),
            ));
        }
        applied
    }

    /// Starts the batch of outgoing events: nothing for an empty list,
    /// otherwise the envelopes that the log stamped.
    pub fn write_events(&mut self, events: Vec<Event>) -> (r: Result<
        Option<Vec<EventEnvelope>>,
        LogError,
    >)
        ensures
            old(self).batch_started(final(self), events.deep_view(), r),
    {
        if events.len() == 0 {
            return Ok(None);
        }
        match self.event_log.write_events(events) {
            Ok(envelopes) => Ok(Some(envelopes)),
            Err(e) => Err(e),
        }
    }

    /// Seals the serialised envelopes of the batch for the paired devices.
    pub fn seal_events(&self, plaintext: &[u8], existing: &[String], aes_accelerated: bool) -> (r:
        Result<SealedBatch, LogError>)
        ensures
            crate::events::log::seal_outcome(
                &self.log(),
                plaintext@,
                self.known(),
                existing.deep_view(),
                aes_accelerated,
                r,
            ),
    {
        self.event_log.seal_events(
            plaintext,
            self.known_devices.as_slice(),
            existing,
            aes_accelerated,
        )
    }

    /// The snapshots of the index that are worth writing.
    fn snapshots(&self) -> (r: Vec<PendingWrite>)
        ensures
            r.deep_view() == fresh_writes(self.db()),
    {
        let mut out: Vec<PendingWrite> = Vec::new();
        let containers = materialized_containers(&self.state_db);
        let ghost c = containers.deep_view();
        if containers.len() > 0 {
            out.push(PendingWrite::Containers(containers));
        }
        let ghost first = out.deep_view();
        proof {
            if c.len() > 0 {
                assert(first =~= seq![PendingWriteView::Containers(c)]);
            } else {
                assert(first =~= Seq::<PendingWriteView>::empty());
            }
        }
        let handlers = materialized_handlers(&self.state_db);
        let ghost h = handlers.deep_view();
        if handlers.len() > 0 {
            out.push(PendingWrite::Handlers(handlers));
        }
        let ghost second = out.deep_view();
        proof {
            if h.len() > 0 {
                assert(second =~= first.push(PendingWriteView::Handlers(h)));
            }
        }
        let prefs = materialized_prefs(&self.state_db);
        let ghost p = prefs@;
        if prefs.len() > 0 {
            out.push(PendingWrite::Prefs(prefs));
            proof {
                assert(out.deep_view() =~= second.push(PendingWriteView::Prefs(p)));
            }
        }
        out
    }

    /// Decides what to write to the profile. While the browser holds the
    /// profile, the snapshots of the index are queued and nothing is to be
    /// written. Otherwise the queued writes are to be written, followed
    /// by the snapshots; the queue keeps its writes until `flush_write_queue`
    /// is told how many of them were written.
    pub fn apply_to_profile(&mut self, browser_live: bool) -> (writes: Vec<PendingWrite>)
        ensures
            old(self).profile_applied(final(self), browser_live, writes.deep_view()),
    {
        let fresh = self.snapshots();
        let ghost fresh_view = fresh.deep_view();
        let ghost queue0 = self.write_queue@;
        let queued = self.write_queue.len();
        if browser_live {
            let mut fresh = fresh;
            let ghost mut done: int = 0;
            proof {
                assert(fresh_view.subrange(0, 0) =~= Seq::<PendingWriteView>::empty());
            }
            while fresh.len() > 0
                invariant
                    0 <= done <= fresh_view.len(),
                    fresh.len() == fresh_view.len() - done,
                    forall|j: int|
                        0 <= j < fresh.len() ==> (#[trigger] fresh[j])@ == fresh_view[done + j],
                    self.write_queue@ == enqueued_all(queue0, fresh_view.subrange(0, done)),
                    kinds_distinct(self.write_queue@),
                    self.state_db == old(self).state_db,
                    self.event_log == old(self).event_log,
                    self.known_devices == old(self).known_devices,
                    self.config == old(self).config,
                    self.profile_path == old(self).profile_path,
                    self.write_queue.profile() == old(self).write_queue.profile(),
                decreases fresh.len(),
            {
                let ghost prior = fresh@;
                let write = fresh.remove(0);
                proof {
                    assert(write == prior[0]);
                    assert forall|j: int| 0 <= j < fresh.len() implies (#[trigger] fresh[j])@
                        == fresh_view[done + 1 + j] by {
                        assert(fresh[j] == prior[j + 1]);
                    }
                    assert(fresh_view.subrange(0, done + 1).drop_last() =~= fresh_view.subrange(
                        0,
                        done,
                    ));
                    assert(fresh_view.subrange(0, done + 1).last() == write@);
                }
                self.write_queue.enqueue(write);
                proof {
                    done = done + 1;
                }
            }
            proof {
                assert(fresh_view.subrange(0, fresh_view.len() as int) =~= fresh_view);
            }
            Vec::new()
        } else {
            let n = self.write_queue.len();
            let mut writes: Vec<PendingWrite> = Vec::new();
            let mut i: usize = 0;
            while i < n
                invariant
                    i <= n,
                    n == self.write_queue@.len(),
                    writes.len() == i,
                    forall|j: int| 0 <= j < i ==> (#[trigger] writes[j])@ == self.write_queue@[j],
                decreases n - i,
            {
                writes.push(self.write_queue.get(i).clone());
                i += 1;
            }
            let mut k: usize = 0;
            while k < fresh.len()
                invariant
                    k <= fresh.len(),
                    n == self.write_queue@.len(),
                    writes.len() == n + k,
                    forall|j: int| 0 <= j < n ==> (#[trigger] writes[j])@ == self.write_queue@[j],
                    forall|j: int| 0 <= j < k ==> (#[trigger] writes[n + j])@ == fresh[j]@,
                decreases fresh.len() - k,
            {
                writes.push(fresh[k].clone());
                k += 1;
            }
            proof {
                assert(writes.deep_view() =~= self.write_queue@ + fresh_view) by {
                    assert forall|j: int| 0 <= j < writes.len() implies writes.deep_view()[j] == (
                    self.write_queue@ + fresh_view)[j] by {
                        if j >= n {
                            assert(writes[n + (j - n)]@ == fresh[j - n]@);
                        }
                    }
                }
            }
            writes
        }
    }

    /// Takes the first `written` writes off the queue, those that were
    /// written to the profile, and returns the names of their files.
    pub fn flush_write_queue(&mut self, written: usize) -> (applied: Vec<String>)
        ensures
            final(self).db() == old(self).db(),
            final(self).log() == old(self).log(),
            final(self).known() == old(self).known(),
            final(self).device() == old(self).device(),
            ({
                let n = if written <= old(self).queue()@.len() {
                    written as int
                } else {
                    old(self).queue()@.len() as int
                };
                &&& applied.deep_view() == crate::profile::write_queue::artifact_names(
                    old(self).queue()@.subrange(0, n),
                )
                &&& final(self).queue()@ == old(self).queue()@.subrange(
                    n,
                    old(self).queue()@.len() as int,
                )
            }),
    {
        self.write_queue.flush(written)
    }

    /// The write queue.
    pub fn write_queue(&self) -> (q: &WriteQueue)
        ensures
            *q == self.queue(),
    {
        &self.write_queue
    }

    /// Number of queued writes.
    pub fn queued_writes(&self) -> (n: usize)
        ensures
            n == self.queue()@.len(),
    {
        self.write_queue.len()
    }

    /// Plans the installation of extensions: the package file of every
    /// extension of the index that has a package and whose file is not
    /// among `present`, the names of the files in the profile's extension
    /// directory. Fails with the error of the first package that does not
    /// unpack.
    pub fn install_pending_extensions(&self, present: &[String]) -> (r: Result<
        Vec<PackageFile>,
        ExtensionError,
    >)
        ensures
            match install_plan(self.db().extension_rows(), self.db()@.packages, present.deep_view()) {
                Ok(files) => r matches Ok(f) && f.deep_view() == files,
                Err(e) => r matches Err(x) && x == e,
            },
    {
        let table = self.state_db.extensions();
        let ghost rows = table.entries();
        let ghost packages = self.state_db@.packages;
        let n = table.len();
        let mut files: Vec<PackageFile> = Vec::new();
        let mut i: usize = 0;
        proof {
            assert(rows.subrange(0, 0) =~= Seq::empty());
            assert(files.deep_view() =~= Seq::empty());
        }
        while i < n
            invariant
                i <= n,
                n == rows.len(),
                rows == table.entries(),
                rows == self.db().extension_rows(),
                packages == self.db()@.packages,
                install_plan(rows.subrange(0, i as int), packages, present.deep_view()) == Ok::<
                    Seq<crate::extensions::package::PackageFileView>,
                    ExtensionError,
                >(files.deep_view()),
            decreases n - i,
        {
            let id = table.key_at(i);
            proof {
                assert(rows.subrange(0, i + 1).drop_last() =~= rows.subrange(0, i as int));
                assert(rows.subrange(0, i + 1).last().0 == id@);
            }
            let name = join(id.as_str(), ".xpi");
            let ghost before = files.deep_view();
            if !contains_text(present, name.as_str()) {
                match self.state_db.get_extension_xpi(id.as_str()) {
                    Some(package) => {
                        match install_to_profile(package.1.as_str(), id.as_str()) {
                            Ok(file) => {
                                files.push(file);
                                proof {
                                    assert(files.deep_view() =~= before.push(
                                        crate::extensions::package::package_file(
                                            id@,
                                            unpacked(packages[id@].2)->Ok_0,
                                        ),
                                    ));
                                }
                            },
                            Err(e) => {
                                proof {
                                    lemma_install_plan_fails(
                                        rows,
                                        packages,
                                        present.deep_view(),
                                        i + 1,
                                    );
                                }
                                return Err(e);
                            },
                        }
                    },
                    None => {},
                }
            }
            i += 1;
        }
        proof {
            assert(rows.subrange(0, n as int) =~= rows);
        }
        Ok(files)
    }

    /// Plans the removal of extensions and forgets their packages: every
    /// stem among `xpi_stems`, the stems of the package files in the
    /// profile's extension directory, that has a package in the index but
    /// no extension row. Their package rows are taken out of the index;
    /// their files are for the caller to delete.
    pub fn remove_uninstalled_extensions(&mut self, xpi_stems: &[String]) -> (removed: Vec<String>)
        ensures
            old(self).extensions_removed(final(self), xpi_stems.deep_view(), removed.deep_view()),
    {
        let ghost stems = xpi_stems.deep_view();
        let ghost start = self.state_db@;
        let mut removed: Vec<String> = Vec::new();
        let mut i: usize = 0;
        proof {
            assert(stems.subrange(0, 0) =~= Seq::<Seq<char>>::empty());
            assert(removed.deep_view() =~= Seq::<Seq<char>>::empty());
            assert(Seq::<Seq<char>>::empty().to_set() =~= Set::<Seq<char>>::empty());
            assert(start.packages.remove_keys(Set::<Seq<char>>::empty()) =~= start.packages);
        }
        while i < xpi_stems.len()
            invariant
                i <= xpi_stems.len(),
                stems == xpi_stems.deep_view(),
                start == old(self).db()@,
                removed.deep_view() == removal_plan(
                    stems.subrange(0, i as int),
                    start.packages.dom(),
                    start.extensions.dom(),
                ),
                self.state_db@ == (StateView {
                    packages: start.packages.remove_keys(removed.deep_view().to_set()),
                    ..start
                }),
                self.event_log == old(self).event_log,
                self.write_queue == old(self).write_queue,
                self.known_devices == old(self).known_devices,
                self.config == old(self).config,
                self.profile_path == old(self).profile_path,
            decreases xpi_stems.len() - i,
        {
            let stem = &xpi_stems[i];
            proof {
                assert(stems.subrange(0, i + 1).drop_last() =~= stems.subrange(0, i as int));
                assert(stems.subrange(0, i + 1).last() == stem@);
            }
            let ghost before = removed.deep_view();
            let has_package = self.state_db.get_extension_xpi(stem.as_str()).is_some();
            let listed = self.state_db.extensions().contains_key(stem.as_str());
            proof {
                // A package that is still in the index was not removed before.
                assert(has_package == (start.packages.dom().contains(stem@) && !before.to_set().contains(
                    stem@,
                )));
                assert(before.to_set().contains(stem@) == before.contains(stem@));
            }
            if has_package && !listed {
                self.state_db.remove_extension_xpi(stem.as_str());
                removed.push(stem.clone());
                proof {
                    let after = removed.deep_view();
                    assert(after =~= before.push(stem@));
                    assert(after.to_set() =~= before.to_set().insert(stem@)) by {
                        assert forall|k: Seq<char>| after.to_set().contains(k)
                            == before.to_set().insert(stem@).contains(k) by {
                            if before.contains(k) {
                                let j = choose|j: int| 0 <= j < before.len() && before[j] == k;
                                assert(after[j] == k);
                            }
                            if k == stem@ {
                                assert(after[before.len() as int] == k);
                            }
                            if after.contains(k) {
                                let j = choose|j: int| 0 <= j < after.len() && after[j] == k;
                                if j < before.len() {
                                    assert(before[j] == k);
                                }
                            }
                        }
                    }
                    assert(start.packages.remove_keys(after.to_set()) =~= start.packages.remove_keys(
                        before.to_set(),
                    ).remove(stem@));
                }
            }
            i += 1;
        }
        proof {
            assert(stems.subrange(0, xpi_stems.len() as int) =~= stems);
        }
        removed
    }

    /// Runs the deciding part of a sync cycle on what was read: applies
    /// the incoming envelopes, scans the profile, starts the batch of
    /// outgoing events, decides the profile writes, plans the
    /// installation of packages and removes uninstalled extensions,
    /// strictly in this order. The plan is for the caller to carry out.
    pub fn sync(&mut self, seen: &ProfileScan) -> (r: Result<SyncPlan, EngineError>)
        ensures
            old(self).cycle_run(final(self), seen, r),
    {
        let ghost e0 = *self;
        let applied = self.process_incoming(seen.envelopes.as_slice());
        let ghost e1 = *self;
        let events = self.scan_profile(
            seen.extensions.as_slice(),
            seen.containers.as_slice(),
            seen.handlers.as_slice(),
            &seen.prefs,
        );
        let outbound = clone_event_list(&events);
        let written = self.write_events(events);
        let ghost e2 = *self;
        let envelopes = match written {
            Ok(envelopes) => envelopes,
            Err(e) => {
                proof {
                    assert(e0.cycle_steps(
                        &e1,
                        &e2,
                        &e2,
                        &*self,
                        seen,
                        applied,
                        written,
                        Seq::empty(),
                        Err(EngineError::Log(e)),
                    ));
                }
                return Err(EngineError::Log(e));
            },
        };
        let profile_writes = self.apply_to_profile(seen.browser_live);
        let ghost e3 = *self;
        let install = match self.install_pending_extensions(seen.extension_files.as_slice()) {
            Ok(files) => files,
            Err(e) => {
                proof {
                    assert(e0.cycle_steps(
                        &e1,
                        &e2,
                        &e3,
                        &*self,
                        seen,
                        applied,
                        written,
                        profile_writes.deep_view(),
                        Err(EngineError::Extension(e)),
                    ));
                }
                return Err(EngineError::Extension(e));
            },
        };
        let removed = self.remove_uninstalled_extensions(seen.xpi_stems.as_slice());
        let plan = SyncPlan {
            incoming_applied: applied,
            outbound,
            envelopes,
            profile_writes,
            install,
            removed,
        };
        proof {
            assert(e0.cycle_steps(
                &e1,
                &e2,
                &e3,
                &*self,
                seen,
                applied,
                written,
                plan.profile_writes.deep_view(),
                Ok(plan),
            ));
        }
        Ok(plan)
    }

    /// Serves an event of the transport. A discovered peer is asked for its
    /// clock; a request for the clock is answered with the clock and the
    /// identity of this device, a request for events with the events that
    /// the peer lacks; pushed events are taken note of and a tab is
    /// recorded.
    pub fn handle_network_event(&mut self, event: crate::net::node::NetworkEvent) -> (commands:
        Vec<crate::net::node::NetworkCommand>)
        ensures
            old(self).event_served(final(self), event@, commands.deep_view()),
    {
        let mut commands: Vec<crate::net::node::NetworkCommand> = Vec::new();
        match event {
            crate::net::node::NetworkEvent::PeerDiscovered { peer_id, device_name } => {
                commands.push(crate::net::node::NetworkCommand::GetClock { peer_id });
                proof {
                    assert(commands.deep_view() =~= seq![
                        crate::net::node::NetworkCommandView::GetClock { peer_id: peer_id@ },
                    ]);
                    assert(old(self).event_served(&*self, event@, commands.deep_view()));
                }
            },
            crate::net::node::NetworkEvent::PeerDisconnected { peer_id } => {
                proof {
                    assert(commands.deep_view().len() == 0);
                    assert(old(self).event_served(&*self, event@, commands.deep_view()));
                }
            },
            crate::net::node::NetworkEvent::ClockRequested { from, request_id } => {
                let clock = self.get_vector_clock();
                let device_id = self.config.device.id.clone();
                let device_name = self.config.device.name.clone();
                commands.push(
                    crate::net::node::NetworkCommand::RespondClock {
                        request_id,
                        clock,
                        device_id,
                        device_name,
                    },
                );
                proof {
                    assert(commands.deep_view() =~= seq![
                        crate::net::node::NetworkCommandView::RespondClock {
                            request_id,
                            clock: old(self).log().clock_view(),
                            device_id: old(self).device(),
                            device_name: old(self).device_name(),
                        },
                    ]);
                    assert(old(self).event_served(&*self, event@, commands.deep_view()));
                }
            },
            crate::net::node::NetworkEvent::EventsRequested { from, request_id, clock } => {
                let events = self.get_events_since(&clock);
                proof {
                    assert(events.deep_view() =~= Seq::empty());
                }
                commands.push(
                    crate::net::node::NetworkCommand::RespondEvents { request_id, events },
                );
                proof {
                    assert(commands.deep_view() =~= seq![
                        crate::net::node::NetworkCommandView::RespondEvents {
                            request_id,
                            events: Seq::empty(),
                        },
                    ]);
                    assert(old(self).event_served(&*self, event@, commands.deep_view()));
                }
            },
            crate::net::node::NetworkEvent::EventsReceived { from, events } => {
                let _ = self.apply_remote_events(events);
                proof {
                    assert(commands.deep_view().len() == 0);
                    assert(old(self).event_served(&*self, event@, commands.deep_view()));
                }
            },
            crate::net::node::NetworkEvent::TabReceived { from, url, title, from_device } => {
                let title_text: Option<&str> = match &title {
                    Some(text) => Some(text.as_str()),
                    None => None,
                };
                proof {
                    assert(title_text.deep_view() == title.deep_view());
                }
                let ghost before = self.db()@.pending_tabs;
                self.receive_tab(url.as_str(), title_text, from_device.as_str());
                proof {
                    let stamp = choose|stamp: Stamp|
                        self.db()@ == (StateView {
                            pending_tabs: #[trigger] tabs_with(
                                before,
                                PendingTabView {
                                    id: uuid_hyphenated(stamp.id),
                                    url: url@,
                                    title: title_text.deep_view(),
                                    from_device: from_device@,
                                    sent_at: stamp.now,
                                },
                            ),
                            ..old(self).db()@
                        });
                    assert(self.db()@ == (StateView {
                        pending_tabs: tabs_with(
                            before,
                            PendingTabView {
                                id: uuid_hyphenated(stamp.id),
                                url: url@,
                                title: title.deep_view(),
                                from_device: from_device@,
                                sent_at: stamp.now,
                            },
                        ),
                        ..old(self).db()@
                    }));
                    assert(commands.deep_view().len() == 0);
                    assert(old(self).event_served(&*self, event@, commands.deep_view()));
                }
            },
        }
        commands
    }

    /// Sends a tab to another device: stamps one `TabSent` event, which
    /// the log counts on its clock. Fails with `CounterExhausted`, the
    /// clock as it was, when the counter of the log cannot advance.
    pub fn send_tab(&mut self, to_device: &str, url: &str, title: Option<&str>) -> (r: Result<
        Vec<EventEnvelope>,
        LogError,
    >)
        ensures
            final(self).db() == old(self).db(),
            old(self).event_logged(
                final(self),
                EventView::TabSent { to_device: to_device@, url: url@, title: title.deep_view() },
                match r {
                    Ok(envelopes) => Some(envelopes),
                    Err(_) => None,
                },
            ),
            r matches Err(e) ==> e == LogError::CounterExhausted,
    {
        let event = Event::TabSent {
            to_device: to_device.to_owned(),
            url: url.to_owned(),
            title: crate::state::db::own_opt(title),
        };
        let mut events: Vec<Event> = Vec::new();
        events.push(event);
        match self.write_events(events) {
            Ok(Some(envelopes)) => Ok(envelopes),
            Ok(None) => Err(LogError::EmptyBatch),
            Err(e) => Err(e),
        }
    }

    /// The tabs that wait to be opened on this device, oldest first.
    pub fn get_pending_tabs(&self) -> (tabs: Vec<PendingTab>)
        ensures
            tabs.deep_view() == self.db()@.pending_tabs,
    {
        self.state_db.get_pending_tabs()
    }

    /// Acknowledges a pending tab: takes it out of the index and stamps a
    /// `TabReceived` event that refers to it, which the log counts on its
    /// clock. Fails with `InvalidTabId`, and changes nothing, when
    /// `tab_id` is no identifier. Fails with `CounterExhausted`, the tab
    /// taken out and the clock as it was, when the counter of the log
    /// cannot advance.
    pub fn acknowledge_tab(&mut self, tab_id: &str) -> (r: Result<Vec<EventEnvelope>, EngineError>)
        ensures
            match uuid_parsed(tab_id@) {
                None => {
                    &&& r matches Err(e) && e == EngineError::InvalidTabId
                    &&& final(self).db() == old(self).db()
                    &&& final(self).log() == old(self).log()
                    &&& final(self).queue() == old(self).queue()
                    &&& old(self).same_identity(final(self))
                },
                Some(event_id) => {
                    &&& final(self).db()@ == (StateView {
                        pending_tabs: tabs_without(old(self).db()@.pending_tabs, tab_id@),
                        ..old(self).db()@
                    })
                    &&& old(self).event_logged(
                        final(self),
                        EventView::TabReceived { event_id },
                        match r {
                            Ok(envelopes) => Some(envelopes),
                            Err(_) => None,
                        },
                    )
                    &&& r matches Err(e) ==> e == EngineError::Log(LogError::CounterExhausted)
                },
            },
    {
        let event_id = match uuid_parse(tab_id) {
            Some(id) => id,
            None => {
                return Err(EngineError::InvalidTabId);
            },
        };
        self.state_db.remove_pending_tab(tab_id);
        let mut events: Vec<Event> = Vec::new();
        events.push(Event::TabReceived { event_id });
        match self.write_events(events) {
            Ok(Some(envelopes)) => Ok(envelopes),
            Ok(None) => Err(EngineError::Log(LogError::EmptyBatch)),
            Err(e) => Err(EngineError::Log(e)),
        }
    }

    /// The clock of the log as a plain map.
    pub fn get_vector_clock(&self) -> (clock: StringMap<u64>)
        ensures
            clock@ == self.log().clock_view(),
    {
        self.event_log.clock().to_hashmap()
    }

    /// The sealed events that a peer with the given clock lacks. This
    /// version serves none: peers read each other's logs.
    pub fn get_events_since(&self, remote_clock: &StringMap<u64>) -> (events: Vec<EncryptedEvent>)
        ensures
            events@.len() == 0,
    {
        Vec::new()
    }

    /// Takes note of sealed events that a peer pushed and returns their
    /// number. This version does not open them.
    pub fn apply_remote_events(&mut self, events: Vec<EncryptedEvent>) -> (count: usize)
        ensures
            count == events@.len(),
            final(self).db() == old(self).db(),
            final(self).log() == old(self).log(),
            final(self).queue() == old(self).queue(),
            old(self).same_identity(final(self)),
    {
        events.len()
    }

    /// Records a tab that a peer handed over directly, under a fresh
    /// identifier and the current time.
    pub fn receive_tab(&mut self, url: &str, title: Option<&str>, from_device: &str)
        ensures
            exists|stamp: Stamp|
                final(self).db()@ == (StateView {
                    pending_tabs: #[trigger] tabs_with(
                        old(self).db()@.pending_tabs,
                        PendingTabView {
                            id: uuid_hyphenated(stamp.id),
                            url: url@,
                            title: title.deep_view(),
                            from_device: from_device@,
                            sent_at: stamp.now,
                        },
                    ),
                    ..old(self).db()@
                }),
            final(self).log() == old(self).log(),
            final(self).queue() == old(self).queue(),
            old(self).same_identity(final(self)),
    {
        let stamp = Stamp { id: fresh_event_id(), now: current_time_micros() };
        let tab_id = uuid_text(stamp.id);
        self.state_db.add_pending_tab(tab_id.as_str(), url, title, from_device, stamp.now);
        proof {
            let tab = PendingTabView {
                id: uuid_hyphenated(stamp.id),
                url: url@,
                title: title.deep_view(),
                from_device: from_device@,
                sent_at: stamp.now,
            };
            assert(tabs_with(old(self).db()@.pending_tabs, tab) == tabs_with(
                old(self).db()@.pending_tabs,
                tab,
            ));
        }
    }
}

/// Once a prefix of the rows fails to unpack, the whole plan fails with
/// the same error.
pub proof fn lemma_install_plan_fails(
    rows: Seq<(Seq<char>, (Seq<char>, Option<Seq<char>>))>,
    packages: Map<Seq<char>, (Seq<char>, crate::events::types::ExtensionSourceView, Seq<char>)>,
    present: Seq<Seq<char>>,
    k: int,
)
    requires
        0 <= k <= rows.len(),
        install_plan(rows.subrange(0, k), packages, present) is Err,
    ensures
        install_plan(rows, packages, present) == install_plan(
            rows.subrange(0, k),
            packages,
            present,
        ),
    decreases rows.len() - k,
{
    if k == rows.len() {
        assert(rows.subrange(0, k) =~= rows);
    } else {
        assert(rows.subrange(0, k + 1).drop_last() =~= rows.subrange(0, k));
        lemma_install_plan_fails(rows, packages, present, k + 1);
    }
}

/// An installed extension gets its package file: when the index holds an
/// extension and its package, and the profile lacks the package file,
/// every plan that succeeds holds that file, with the bytes that the
/// package unpacks to, at `extensions/<id>.xpi`.
pub proof fn law_installed_extension_is_planned(
    rows: Seq<(Seq<char>, (Seq<char>, Option<Seq<char>>))>,
    packages: Map<Seq<char>, (Seq<char>, crate::events::types::ExtensionSourceView, Seq<char>)>,
    present: Seq<Seq<char>>,
    id: Seq<char>,
)
    requires
        crate::table::has_key(rows, id),
        packages.dom().contains(id),
        !present.contains(package_file_name(id)),
        install_plan(rows, packages, present) is Ok,
    ensures
        exists|i: int|
            0 <= i < install_plan(rows, packages, present)->Ok_0.len() && #[trigger] install_plan(
                rows,
                packages,
                present,
            )->Ok_0[i] == crate::extensions::package::package_file(
                id,
                unpacked(packages[id].2)->Ok_0,
            ) && unpacked(packages[id].2) is Ok,
    decreases rows.len(),
{
    let files = install_plan(rows, packages, present)->Ok_0;
    let before = install_plan(rows.drop_last(), packages, present);
    assert(before is Ok);
    if rows.last().0 == id {
        let i = files.len() - 1;
        assert(files[i] == crate::extensions::package::package_file(
            id,
            unpacked(packages[id].2)->Ok_0,
        ));
    } else {
        let k = crate::table::index_of_key(rows, id);
        assert(rows.drop_last()[k].0 == id);
        law_installed_extension_is_planned(rows.drop_last(), packages, present, id);
        let i = choose|i: int|
            0 <= i < before->Ok_0.len() && #[trigger] before->Ok_0[i]
                == crate::extensions::package::package_file(id, unpacked(packages[id].2)->Ok_0);
        assert(files[i] == before->Ok_0[i]);
    }
}

/// An `ExtensionInstalled` event stores the extension and its package
/// together, and an `ExtensionUninstalled` event takes both out.
pub proof fn law_install_and_uninstall_touch_both_tables(
    s: StateView,
    id: Seq<char>,
    name: Seq<char>,
    version: Seq<char>,
    source: crate::events::types::ExtensionSourceView,
    xpi_data: Seq<char>,
    origin: Seq<char>,
    this_device: Seq<char>,
    stamp: Stamp,
)
    ensures
        ({
            let t = crate::state::materialize::apply_effect(
                s,
                EventView::ExtensionInstalled { id, name, version, source, xpi_data },
                origin,
                this_device,
                stamp,
            );
            t.extensions.dom().contains(id) && t.packages.dom().contains(id) && t.packages[id]
                == (version, source, xpi_data)
        }),
        ({
            let t = crate::state::materialize::apply_effect(
                s,
                EventView::ExtensionUninstalled { id },
                origin,
                this_device,
                stamp,
            );
            !t.extensions.dom().contains(id) && !t.packages.dom().contains(id)
        }),
{
}

/// An extension that the index holds with its package once the incoming
/// envelopes of a cycle are applied, and whose package file is not in the
/// profile, has its package file in the plan of a cycle that succeeds:
/// the file `extensions/<id>.xpi` with the bytes that the package
/// unpacks to. `e1`, `e2` and `e3` are the engine after the steps of the
/// cycle.
pub proof fn law_cycle_plans_installed_extension(
    before: SyncEngine,
    e1: SyncEngine,
    e2: SyncEngine,
    e3: SyncEngine,
    after: SyncEngine,
    seen: ProfileScan,
    applied: usize,
    written: Result<Option<Vec<EventEnvelope>>, LogError>,
    writes: Seq<PendingWriteView>,
    r: Result<SyncPlan, EngineError>,
    id: Seq<char>,
)
    requires
        before.cycle_steps(&e1, &e2, &e3, &after, &seen, applied, written, writes, r),
        r is Ok,
        e1.db()@.extensions.dom().contains(id),
        e1.db()@.packages.dom().contains(id),
        !seen.extension_files.deep_view().contains(package_file_name(id)),
    ensures
        unpacked(e1.db()@.packages[id].2) is Ok,
        exists|i: int|
            0 <= i < r->Ok_0.install.len() && (#[trigger] r->Ok_0.install[i])@
                == crate::extensions::package::package_file(
                id,
                unpacked(e1.db()@.packages[id].2)->Ok_0,
            ),
{
    assert(e3.db() == e1.db());
    crate::state::db::lemma_rows_are_the_tables(e3.db());
    let rows = e3.db().extension_rows();
    let packages = e3.db()@.packages;
    let present = seen.extension_files.deep_view();
    assert(install_plan(rows, packages, present) is Ok);
    law_installed_extension_is_planned(rows, packages, present, id);
    let files = install_plan(rows, packages, present)->Ok_0;
    let i = choose|i: int|
        0 <= i < files.len() && #[trigger] files[i] == crate::extensions::package::package_file(
            id,
            unpacked(packages[id].2)->Ok_0,
        );
    let plan = r->Ok_0;
    assert(plan.install.deep_view() == files);
    assert(plan.install.len() == files.len());
    assert(plan.install[i]@ == plan.install.deep_view()[i]);
}

/// An extension that the index holds with its package when a cycle has
/// succeeded, and whose package file was not in the profile, has its
/// package file in the plan of that cycle: the file
/// `extensions/<id>.xpi` with the bytes that the package unpacks to.
pub proof fn law_sync_plans_installed_extension(
    before: SyncEngine,
    after: SyncEngine,
    seen: ProfileScan,
    r: Result<SyncPlan, EngineError>,
    id: Seq<char>,
)
    requires
        before.cycle_run(&after, &seen, r),
        r is Ok,
        after.db()@.extensions.dom().contains(id),
        after.db()@.packages.dom().contains(id),
        !seen.extension_files.deep_view().contains(package_file_name(id)),
    ensures
        unpacked(after.db()@.packages[id].2) is Ok,
        exists|i: int|
            0 <= i < r->Ok_0.install.len() && (#[trigger] r->Ok_0.install[i])@
                == crate::extensions::package::package_file(
                id,
                unpacked(after.db()@.packages[id].2)->Ok_0,
            ),
{
    let (e1, e2, e3, applied, written, writes) = choose|
        e1: SyncEngine,
        e2: SyncEngine,
        e3: SyncEngine,
        applied: usize,
        written: Result<Option<Vec<EventEnvelope>>, LogError>,
        writes: Seq<PendingWriteView>,
    | #[trigger]
        before.cycle_steps(&e1, &e2, &e3, &after, &seen, applied, written, writes, r);
    assert(e3.db() == e1.db());
    assert(e1.db()@.packages.dom().contains(id));
    assert(e1.db()@.packages[id] == after.db()@.packages[id]);
    law_cycle_plans_installed_extension(
        before,
        e1,
        e2,
        e3,
        after,
        seen,
        applied,
        written,
        writes,
        r,
        id,
    );
}

/// Assembles the report of a sync cycle.
pub fn sync_report(
    incoming_applied: usize,
    outbound_written: usize,
    applied: Vec<String>,
    installed: &[String],
    removed: &[String],
    event_file: Option<String>,
) -> (r: SyncResult)
    ensures
        r.incoming_applied == incoming_applied,
        r.outbound_written == outbound_written,
        r.event_file.deep_view() == event_file.deep_view(),
        r.profile_files_written.deep_view() == reported_files(
            applied.deep_view(),
            installed.deep_view(),
            removed.deep_view(),
        ),
{
    let ghost base = applied.deep_view();
    let mut files = applied;
    let mut i: usize = 0;
    while i < installed.len()
        invariant
            i <= installed.len(),
            files.len() == base.len() + i,
            forall|j: int| 0 <= j < base.len() ==> files[j]@ == base[j],
            forall|j: int|
                0 <= j < i ==> (#[trigger] files[base.len() + j])@ == package_path(installed[j]@),
        decreases installed.len() - i,
    {
        let name = join(installed[i].as_str(), ".xpi");
        let path = join("extensions/", name.as_str());
        proof {
            assert(path@ =~= package_path(installed[i as int]@));
        }
        files.push(path);
        i += 1;
    }
    let ghost mid = files.len() as int;
    let mut k: usize = 0;
    while k < removed.len()
        invariant
            k <= removed.len(),
            mid == base.len() + installed.len(),
            files.len() == mid + k,
            forall|j: int| 0 <= j < base.len() ==> files[j]@ == base[j],
            forall|j: int|
                0 <= j < installed.len() ==> (#[trigger] files[base.len() + j])@ == package_path(
                    installed[j]@,
                ),
            forall|j: int|
                0 <= j < k ==> (#[trigger] files[mid + j])@ == package_path(removed[j]@)
                    + " (removed)"@,
        decreases removed.len() - k,
    {
        let name = join(removed[k].as_str(), ".xpi");
        let path = join("extensions/", name.as_str());
        let noted = join(path.as_str(), " (removed)");
        proof {
            assert(path@ =~= package_path(removed[k as int]@));
        }
        files.push(noted);
        k += 1;
    }
    proof {
        let target = reported_files(base, installed.deep_view(), removed.deep_view());
        assert(files.deep_view().len() == target.len());
        assert forall|j: int| 0 <= j < target.len() implies files.deep_view()[j] == target[j] by {
            if j < base.len() {
            } else if j < mid {
                assert(files[base.len() + (j - base.len())]@ == package_path(
                    installed[j - base.len()]@,
                ));
            } else {
                assert(files[mid + (j - mid)]@ == package_path(removed[j - mid]@) + " (removed)"@);
            }
        }
        assert(files.deep_view() =~= target);
    }
    SyncResult { incoming_applied, outbound_written, profile_files_written: files, event_file }
}

} // verus!
