//! The diff engine: the events that bring the state index up to what was
//! scanned from the profile.

use vstd::prelude::*;
use crate::events::types::{Event, EventView, PrefValue, PrefValueView};
use crate::profile::entities::{
    contains_text, Container, ContainerView, Extension, ExtensionView, Handler, HandlerView,
};
use crate::table::{Plain, StringMap};
use crate::text::{decimal_digits, str_eq, u64_to_string};

verus! {

/// The event that adds an extension.
pub open spec fn extension_added(e: ExtensionView) -> EventView {
    EventView::ExtensionAdded { id: e.id, name: e.name, url: e.url }
}

/// One `ExtensionAdded` for every scanned extension that the index does
/// not know, in scan order.
pub open spec fn extension_additions(
    current: Seq<ExtensionView>,
    previous: Seq<Seq<char>>,
) -> Seq<EventView>
    decreases current.len(),
{
    if current.len() == 0 {
        Seq::empty()
    } else {
        let rest = extension_additions(current.drop_last(), previous);
        if previous.contains(current.last().id) {
            rest
        } else {
            rest.push(extension_added(current.last()))
        }
    }
}

/// The identifiers of the scanned extensions.
pub open spec fn extension_ids(current: Seq<ExtensionView>) -> Seq<Seq<char>> {
    Seq::new(current.len(), |i: int| current[i].id)
}

/// One `ExtensionRemoved` for every known identifier that was not
/// scanned, in the order of the known identifiers.
pub open spec fn extension_removals(
    previous: Seq<Seq<char>>,
    current_ids: Seq<Seq<char>>,
) -> Seq<EventView>
    decreases previous.len(),
{
    if previous.len() == 0 {
        Seq::empty()
    } else {
        let rest = extension_removals(previous.drop_last(), current_ids);
        if current_ids.contains(previous.last()) {
            rest
        } else {
            rest.push(EventView::ExtensionRemoved { id: previous.last() })
        }
    }
}

/// The identifier of a container as the index keys it: its number in
/// decimal.
pub open spec fn container_key(c: ContainerView) -> Seq<char> {
    decimal_digits(c.user_context_id as nat)
}

/// The event that adds a container.
pub open spec fn container_added(c: ContainerView) -> EventView {
    EventView::ContainerAdded { id: container_key(c), name: c.name, color: c.color, icon: c.icon }
}

/// One `ContainerAdded` for every scanned container that the index does
/// not know, in scan order.
pub open spec fn container_additions(
    current: Seq<ContainerView>,
    known: Seq<Seq<char>>,
) -> Seq<EventView>
    decreases current.len(),
{
    if current.len() == 0 {
        Seq::empty()
    } else {
        let rest = container_additions(current.drop_last(), known);
        if known.contains(container_key(current.last())) {
            rest
        } else {
            rest.push(container_added(current.last()))
        }
    }
}

/// The keys of the scanned containers.
pub open spec fn container_keys(current: Seq<ContainerView>) -> Seq<Seq<char>> {
    Seq::new(current.len(), |i: int| container_key(current[i]))
}

/// One `ContainerRemoved` for every known identifier that was not
/// scanned, in the order of the known identifiers.
pub open spec fn container_removals(
    known: Seq<Seq<char>>,
    current_keys: Seq<Seq<char>>,
) -> Seq<EventView>
    decreases known.len(),
{
    if known.len() == 0 {
        Seq::empty()
    } else {
        let rest = container_removals(known.drop_last(), current_keys);
        if current_keys.contains(known.last()) {
            rest
        } else {
            rest.push(EventView::ContainerRemoved { id: known.last() })
        }
    }
}

/// One `HandlerSet` for every scanned handler that is new or differs from
/// the known one, in scan order.
pub open spec fn handler_changes(
    current: Seq<HandlerView>,
    known: Map<Seq<char>, Seq<char>>,
) -> Seq<EventView>
    decreases current.len(),
{
    if current.len() == 0 {
        Seq::empty()
    } else {
        let rest = handler_changes(current.drop_last(), known);
        let h = current.last();
        if known.dom().contains(h.protocol) && known[h.protocol] == h.handler {
            rest
        } else {
            rest.push(EventView::HandlerSet { protocol: h.protocol, handler: h.handler })
        }
    }
}

/// The protocols of the scanned handlers.
pub open spec fn handler_protocols(current: Seq<HandlerView>) -> Seq<Seq<char>> {
    Seq::new(current.len(), |i: int| current[i].protocol)
}

/// One `HandlerRemoved` for every known protocol that was not scanned, in
/// the order of the known entries.
pub open spec fn handler_removals(
    known: Seq<(Seq<char>, Seq<char>)>,
    protocols: Seq<Seq<char>>,
) -> Seq<EventView>
    decreases known.len(),
{
    if known.len() == 0 {
        Seq::empty()
    } else {
        let rest = handler_removals(known.drop_last(), protocols);
        if protocols.contains(known.last().0) {
            rest
        } else {
            rest.push(EventView::HandlerRemoved { protocol: known.last().0 })
        }
    }
}

/// One `PrefSet` for every scanned preference that is new or differs from
/// the known one, in the order of the scanned entries.
pub open spec fn pref_changes(
    current: Seq<(Seq<char>, PrefValueView)>,
    known: Map<Seq<char>, PrefValueView>,
) -> Seq<EventView>
    decreases current.len(),
{
    if current.len() == 0 {
        Seq::empty()
    } else {
        let rest = pref_changes(current.drop_last(), known);
        let p = current.last();
        if known.dom().contains(p.0) && known[p.0] == p.1 {
            rest
        } else {
            rest.push(EventView::PrefSet { key: p.0, value: p.1 })
        }
    }
}

/// One `PrefRemoved` for every known preference that was not scanned, in
/// the order of the known entries.
pub open spec fn pref_removals(
    known: Seq<(Seq<char>, PrefValueView)>,
    current: Map<Seq<char>, PrefValueView>,
) -> Seq<EventView>
    decreases known.len(),
{
    if known.len() == 0 {
        Seq::empty()
    } else {
        let rest = pref_removals(known.drop_last(), current);
        if current.dom().contains(known.last().0) {
            rest
        } else {
            rest.push(EventView::PrefRemoved { key: known.last().0 })
        }
    }
}

/// Compares the scanned extensions with the identifiers that the index
/// knows: additions first, then removals.
pub fn diff_extensions(current: &[Extension], previous: &[String]) -> (events: Vec<Event>)
    ensures
        events.deep_view() == extension_additions(current.deep_view(), previous.deep_view())
            + extension_removals(previous.deep_view(), extension_ids(current.deep_view())),
{
    let mut events: Vec<Event> = Vec::new();
    let ghost cur = current.deep_view();
    let ghost prev = previous.deep_view();
    let mut ids: Vec<String> = Vec::new();
    let mut i: usize = 0;
    proof {
        assert(cur.subrange(0, 0) =~= Seq::<ExtensionView>::empty());
        assert(events.deep_view() =~= Seq::<EventView>::empty());
    }
    while i < current.len()
        invariant
            i <= current.len(),
            cur == current.deep_view(),
            prev == previous.deep_view(),
            ids.len() == i,
            forall|j: int| 0 <= j < i ==> ids[j]@ == cur[j].id,
            events.deep_view() == extension_additions(cur.subrange(0, i as int), prev),
        decreases current.len() - i,
    {
        let ext = &current[i];
        proof {
            assert(cur.subrange(0, i + 1).drop_last() =~= cur.subrange(0, i as int));
            assert(cur.subrange(0, i + 1).last() == ext@);
        }
        let ghost before = events.deep_view();
        if !contains_text(previous, ext.id.as_str()) {
            events.push(
                Event::ExtensionAdded {
                    id: ext.id.clone(),
                    name: ext.name.clone(),
                    url: crate::events::types::clone_opt(&ext.url),
                },
            );
            proof {
                assert(events.deep_view() =~= before.push(extension_added(ext@)));
            }
        }
        ids.push(ext.id.clone());
        i += 1;
    }
    let ghost additions = events.deep_view();
    let ghost id_views = extension_ids(cur);
    proof {
        assert(cur.subrange(0, current.len() as int) =~= cur);
        assert(ids.deep_view() =~= id_views);
        assert(prev.subrange(0, 0) =~= Seq::<Seq<char>>::empty());
        assert(additions + Seq::<EventView>::empty() =~= additions);
    }
    let mut k: usize = 0;
    while k < previous.len()
        invariant
            k <= previous.len(),
            prev == previous.deep_view(),
            ids.deep_view() == id_views,
            events.deep_view() == additions + extension_removals(
                prev.subrange(0, k as int),
                id_views,
            ),
        decreases previous.len() - k,
    {
        let id = &previous[k];
        proof {
            assert(prev.subrange(0, k + 1).drop_last() =~= prev.subrange(0, k as int));
            assert(prev.subrange(0, k + 1).last() == id@);
        }
        let ghost before = events.deep_view();
        if !contains_text(ids.as_slice(), id.as_str()) {
            events.push(Event::ExtensionRemoved { id: id.clone() });
            proof {
                assert(events.deep_view() =~= before.push(
                    EventView::ExtensionRemoved { id: id@ },
                ));
                assert(events.deep_view() =~= additions + extension_removals(
                    prev.subrange(0, k + 1),
                    id_views,
                ));
            }
        }
        k += 1;
    }
    proof {
        assert(prev.subrange(0, previous.len() as int) =~= prev);
    }
    events
}

/// Compares the scanned containers with the identifiers that the index
/// knows: additions first, then removals. A container is known by its
/// number in decimal.
pub fn diff_containers(current: &[Container], known_ids: &[String]) -> (events: Vec<Event>)
    ensures
        events.deep_view() == container_additions(current.deep_view(), known_ids.deep_view())
            + container_removals(known_ids.deep_view(), container_keys(current.deep_view())),
{
    let mut events: Vec<Event> = Vec::new();
    let ghost cur = current.deep_view();
    let ghost known = known_ids.deep_view();
    let mut keys: Vec<String> = Vec::new();
    let mut i: usize = 0;
    proof {
        assert(cur.subrange(0, 0) =~= Seq::<ContainerView>::empty());
        assert(events.deep_view() =~= Seq::<EventView>::empty());
    }
    while i < current.len()
        invariant
            i <= current.len(),
            cur == current.deep_view(),
            known == known_ids.deep_view(),
            keys.len() == i,
            forall|j: int| 0 <= j < i ==> keys[j]@ == container_key(cur[j]),
            events.deep_view() == container_additions(cur.subrange(0, i as int), known),
        decreases current.len() - i,
    {
        let container = &current[i];
        proof {
            assert(cur.subrange(0, i + 1).drop_last() =~= cur.subrange(0, i as int));
            assert(cur.subrange(0, i + 1).last() == container@);
        }
        let id = u64_to_string(container.user_context_id as u64);
        let ghost before = events.deep_view();
        if !contains_text(known_ids, id.as_str()) {
            events.push(
                Event::ContainerAdded {
                    id: id.clone(),
                    name: container.name.clone(),
                    color: container.color.clone(),
                    icon: container.icon.clone(),
                },
            );
            proof {
                assert(events.deep_view() =~= before.push(container_added(container@)));
            }
        }
        keys.push(id);
        i += 1;
    }
    let ghost additions = events.deep_view();
    let ghost key_views = container_keys(cur);
    proof {
        assert(cur.subrange(0, current.len() as int) =~= cur);
        assert(keys.deep_view() =~= key_views);
        assert(known.subrange(0, 0) =~= Seq::<Seq<char>>::empty());
        assert(additions + Seq::<EventView>::empty() =~= additions);
    }
    let mut k: usize = 0;
    while k < known_ids.len()
        invariant
            k <= known_ids.len(),
            known == known_ids.deep_view(),
            keys.deep_view() == key_views,
            events.deep_view() == additions + container_removals(
                known.subrange(0, k as int),
                key_views,
            ),
        decreases known_ids.len() - k,
    {
        let id = &known_ids[k];
        proof {
            assert(known.subrange(0, k + 1).drop_last() =~= known.subrange(0, k as int));
            assert(known.subrange(0, k + 1).last() == id@);
        }
        let ghost before = events.deep_view();
        if !contains_text(keys.as_slice(), id.as_str()) {
            events.push(Event::ContainerRemoved { id: id.clone() });
            proof {
                assert(events.deep_view() =~= before.push(
                    EventView::ContainerRemoved { id: id@ },
                ));
                assert(events.deep_view() =~= additions + container_removals(
                    known.subrange(0, k + 1),
                    key_views,
                ));
            }
        }
        k += 1;
    }
    proof {
        assert(known.subrange(0, known_ids.len() as int) =~= known);
    }
    events
}

/// Compares the scanned handlers with the known ones: one `HandlerSet`
/// for each new or changed handler, then one `HandlerRemoved` for each
/// known protocol that was not scanned.
pub fn diff_handlers(current: &[Handler], known: &StringMap<String>) -> (events: Vec<Event>)
    ensures
        events.deep_view() == handler_changes(current.deep_view(), known@) + handler_removals(
            known.entries(),
            handler_protocols(current.deep_view()),
        ),
{
    let mut events: Vec<Event> = Vec::new();
    let ghost cur = current.deep_view();
    let mut protocols: Vec<String> = Vec::new();
    let mut i: usize = 0;
    proof {
        assert(cur.subrange(0, 0) =~= Seq::<HandlerView>::empty());
        assert(events.deep_view() =~= Seq::<EventView>::empty());
    }
    while i < current.len()
        invariant
            i <= current.len(),
            cur == current.deep_view(),
            protocols.len() == i,
            forall|j: int| 0 <= j < i ==> protocols[j]@ == cur[j].protocol,
            events.deep_view() == handler_changes(cur.subrange(0, i as int), known@),
        decreases current.len() - i,
    {
        let handler = &current[i];
        proof {
            assert(cur.subrange(0, i + 1).drop_last() =~= cur.subrange(0, i as int));
            assert(cur.subrange(0, i + 1).last() == handler@);
        }
        let unchanged = match known.get(handler.protocol.as_str()) {
            Some(existing) => *existing == handler.handler,
            None => false,
        };
        let ghost before = events.deep_view();
        if !unchanged {
            events.push(
                Event::HandlerSet {
                    protocol: handler.protocol.clone(),
                    handler: handler.handler.clone(),
                },
            );
            proof {
                assert(events.deep_view() =~= before.push(
                    EventView::HandlerSet { protocol: handler@.protocol, handler: handler@.handler },
                ));
            }
        }
        protocols.push(handler.protocol.clone());
        i += 1;
    }
    let ghost changes = events.deep_view();
    let ghost names = handler_protocols(cur);
    let ghost entries = known.entries();
    let n = known.len();
    proof {
        assert(cur.subrange(0, current.len() as int) =~= cur);
        assert(protocols.deep_view() =~= names);
        assert(entries.subrange(0, 0) =~= Seq::<(Seq<char>, Seq<char>)>::empty());
        assert(changes + Seq::<EventView>::empty() =~= changes);
    }
    let mut k: usize = 0;
    while k < n
        invariant
            k <= n,
            n == entries.len(),
            entries == known.entries(),
            protocols.deep_view() == names,
            events.deep_view() == changes + handler_removals(entries.subrange(0, k as int), names),
        decreases n - k,
    {
        let protocol = known.key_at(k);
        proof {
            assert(entries.subrange(0, k + 1).drop_last() =~= entries.subrange(0, k as int));
            assert(entries.subrange(0, k + 1).last().0 == protocol@);
        }
        let ghost before = events.deep_view();
        if !contains_text(protocols.as_slice(), protocol.as_str()) {
            events.push(Event::HandlerRemoved { protocol: protocol.clone() });
            proof {
                assert(events.deep_view() =~= before.push(
                    EventView::HandlerRemoved { protocol: protocol@ },
                ));
                assert(events.deep_view() =~= changes + handler_removals(
                    entries.subrange(0, k + 1),
                    names,
                ));
            }
        }
        k += 1;
    }
    proof {
        assert(entries.subrange(0, n as int) =~= entries);
    }
    events
}

/// Compares the scanned preferences with the known ones: one `PrefSet`
/// for each new or changed preference, then one `PrefRemoved` for each
/// known preference that was not scanned.
pub fn diff_prefs(current: &StringMap<PrefValue>, known: &StringMap<PrefValue>) -> (events: Vec<
    Event,
>)
    ensures
        events.deep_view() == pref_changes(current.entries(), known@) + pref_removals(
            known.entries(),
            current@,
        ),
{
    let mut events: Vec<Event> = Vec::new();
    let ghost cur = current.entries();
    let n = current.len();
    let mut i: usize = 0;
    proof {
        assert(cur.subrange(0, 0) =~= Seq::<(Seq<char>, PrefValueView)>::empty());
        assert(events.deep_view() =~= Seq::<EventView>::empty());
    }
    while i < n
        invariant
            i <= n,
            n == cur.len(),
            cur == current.entries(),
            events.deep_view() == pref_changes(cur.subrange(0, i as int), known@),
        decreases n - i,
    {
        let key = current.key_at(i);
        let value = current.value_at(i);
        proof {
            assert(cur.subrange(0, i + 1).drop_last() =~= cur.subrange(0, i as int));
            assert(cur.subrange(0, i + 1).last() == (key@, value@));
        }
        let unchanged = match known.get(key.as_str()) {
            Some(existing) => existing.same(value),
            None => false,
        };
        let ghost before = events.deep_view();
        if !unchanged {
            events.push(Event::PrefSet { key: key.clone(), value: value.duplicate() });
            proof {
                assert(events.deep_view() =~= before.push(
                    EventView::PrefSet { key: key@, value: value@ },
                ));
            }
        }
        i += 1;
    }
    let ghost changes = events.deep_view();
    let ghost entries = known.entries();
    let m = known.len();
    proof {
        assert(cur.subrange(0, n as int) =~= cur);
        assert(entries.subrange(0, 0) =~= Seq::<(Seq<char>, PrefValueView)>::empty());
        assert(changes + Seq::<EventView>::empty() =~= changes);
    }
    let mut k: usize = 0;
    while k < m
        invariant
            k <= m,
            m == entries.len(),
            entries == known.entries(),
            events.deep_view() == changes + pref_removals(entries.subrange(0, k as int), current@),
        decreases m - k,
    {
        let key = known.key_at(k);
        proof {
            assert(entries.subrange(0, k + 1).drop_last() =~= entries.subrange(0, k as int));
            assert(entries.subrange(0, k + 1).last().0 == key@);
        }
        let ghost before = events.deep_view();
        if !current.contains_key(key.as_str()) {
            events.push(Event::PrefRemoved { key: key.clone() });
            proof {
                assert(events.deep_view() =~= before.push(EventView::PrefRemoved { key: key@ }));
                assert(events.deep_view() =~= changes + pref_removals(
                    entries.subrange(0, k + 1),
                    current@,
                ));
            }
        }
        k += 1;
    }
    proof {
        assert(entries.subrange(0, m as int) =~= entries);
    }
    events
}

} // verus!
