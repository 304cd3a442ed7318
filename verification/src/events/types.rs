//! Events, the values they carry, and the envelope that records where and
//! when an event was made.

use vstd::prelude::*;
use crate::events::clock::VectorClock;
use crate::table::Plain;
use crate::text::str_eq;

verus! {

/// The value of a preference.
#[derive(Debug, PartialEq)]
pub enum PrefValue {
    Bool(bool),
    Int(i64),
    String(String),
}

/// A preference value as plain data.
pub enum PrefValueView {
    Bool(bool),
    Int(i64),
    Text(Seq<char>),
}

impl View for PrefValue {
    type V = PrefValueView;

    open spec fn view(&self) -> PrefValueView {
        match self {
            PrefValue::Bool(b) => PrefValueView::Bool(*b),
            PrefValue::Int(i) => PrefValueView::Int(*i),
            PrefValue::String(s) => PrefValueView::Text(s@),
        }
    }
}

impl DeepView for PrefValue {
    type V = PrefValueView;

    open spec fn deep_view(&self) -> PrefValueView {
        self.view()
    }
}

impl Plain for PrefValue {
    fn duplicate(&self) -> (r: Self) {
        match self {
            PrefValue::Bool(b) => PrefValue::Bool(*b),
            PrefValue::Int(i) => PrefValue::Int(*i),
            PrefValue::String(s) => PrefValue::String(s.clone()),
        }
    }

    fn same(&self, other: &Self) -> (r: bool) {
        match (self, other) {
            (PrefValue::Bool(a), PrefValue::Bool(b)) => *a == *b,
            (PrefValue::Int(a), PrefValue::Int(b)) => *a == *b,
            (PrefValue::String(a), PrefValue::String(b)) => *a == *b,
            _ => false,
        }
    }
}

impl Clone for PrefValue {
    fn clone(&self) -> (r: Self)
        ensures
            r@ == self@,
    {
        self.duplicate()
    }
}

/// Where an installed extension came from.
#[derive(Debug, PartialEq)]
pub enum ExtensionSource {
    /// Built from a git repository.
    Git { url: String, ref_spec: String, build_cmd: Option<String> },
    /// Downloaded from the add-on site.
    Amo { amo_slug: String },
    /// A local file; the path is only a note.
    Local { original_path: String },
}

/// An extension source as plain data.
pub enum ExtensionSourceView {
    Git { url: Seq<char>, ref_spec: Seq<char>, build_cmd: Option<Seq<char>> },
    Amo { amo_slug: Seq<char> },
    Local { original_path: Seq<char> },
}

impl View for ExtensionSource {
    type V = ExtensionSourceView;

    open spec fn view(&self) -> ExtensionSourceView {
        match self {
            ExtensionSource::Git { url, ref_spec, build_cmd } => ExtensionSourceView::Git {
                url: url@,
                ref_spec: ref_spec@,
                build_cmd: build_cmd.deep_view(),
            },
            ExtensionSource::Amo { amo_slug } => ExtensionSourceView::Amo { amo_slug: amo_slug@ },
            ExtensionSource::Local { original_path } => ExtensionSourceView::Local {
                original_path: original_path@,
            },
        }
    }
}

impl DeepView for ExtensionSource {
    type V = ExtensionSourceView;

    open spec fn deep_view(&self) -> ExtensionSourceView {
        self.view()
    }
}

/// Copies an optional text.
pub fn clone_opt(s: &Option<String>) -> (r: Option<String>)
    ensures
        r.deep_view() == s.deep_view(),
{
    match s {
        Some(t) => Some(t.clone()),
        None => None,
    }
}

impl Plain for ExtensionSource {
    fn duplicate(&self) -> (r: Self) {
        match self {
            ExtensionSource::Git { url, ref_spec, build_cmd } => ExtensionSource::Git {
                url: url.clone(),
                ref_spec: ref_spec.clone(),
                build_cmd: clone_opt(build_cmd),
            },
            ExtensionSource::Amo { amo_slug } => ExtensionSource::Amo {
                amo_slug: amo_slug.clone(),
            },
            ExtensionSource::Local { original_path } => ExtensionSource::Local {
                original_path: original_path.clone(),
            },
        }
    }

    fn same(&self, other: &Self) -> (r: bool) {
        match (self, other) {
            (
                ExtensionSource::Git { url: u1, ref_spec: r1, build_cmd: b1 },
                ExtensionSource::Git { url: u2, ref_spec: r2, build_cmd: b2 },
            ) => {
                let builds = match (b1, b2) {
                    (Some(x), Some(y)) => *x == *y,
                    (None, None) => true,
                    _ => false,
                };
                *u1 == *u2 && *r1 == *r2 && builds
            },
            (ExtensionSource::Amo { amo_slug: a }, ExtensionSource::Amo { amo_slug: b }) => *a
                == *b,
            (
                ExtensionSource::Local { original_path: a },
                ExtensionSource::Local { original_path: b },
            ) => *a == *b,
            _ => false,
        }
    }
}

impl Clone for ExtensionSource {
    fn clone(&self) -> (r: Self)
        ensures
            r@ == self@,
    {
        self.duplicate()
    }
}

/// A change to the synchronised profile state.
#[derive(Debug, PartialEq)]
#[allow(inconsistent_fields)]
pub enum Event {
    ExtensionAdded { id: String, name: String, url: Option<String> },
    ExtensionRemoved { id: String },
    /// An extension with its package: `xpi_data` is the compressed package
    /// in base64.
    ExtensionInstalled {
        id: String,
        name: String,
        version: String,
        source: ExtensionSource,
        xpi_data: String,
    },
    ExtensionUninstalled { id: String },
    ContainerAdded { id: String, name: String, color: String, icon: String },
    ContainerRemoved { id: String },
    ContainerUpdated {
        id: String,
        name: Option<String>,
        color: Option<String>,
        icon: Option<String>,
    },
    HandlerSet { protocol: String, handler: String },
    HandlerRemoved { protocol: String },
    SearchEngineAdded { id: String, name: String, url: String },
    SearchEngineRemoved { id: String },
    SearchEngineDefault { id: String },
    PrefSet { key: String, value: PrefValue },
    PrefRemoved { key: String },
    TabSent { to_device: String, url: String, title: Option<String> },
    /// Acknowledges the pending tab whose identifier is `event_id`.
    TabReceived { event_id: u128 },
}

/// An event as plain data.
#[allow(inconsistent_fields)]
pub enum EventView {
    ExtensionAdded { id: Seq<char>, name: Seq<char>, url: Option<Seq<char>> },
    ExtensionRemoved { id: Seq<char> },
    ExtensionInstalled {
        id: Seq<char>,
        name: Seq<char>,
        version: Seq<char>,
        source: ExtensionSourceView,
        xpi_data: Seq<char>,
    },
    ExtensionUninstalled { id: Seq<char> },
    ContainerAdded { id: Seq<char>, name: Seq<char>, color: Seq<char>, icon: Seq<char> },
    ContainerRemoved { id: Seq<char> },
    ContainerUpdated {
        id: Seq<char>,
        name: Option<Seq<char>>,
        color: Option<Seq<char>>,
        icon: Option<Seq<char>>,
    },
    HandlerSet { protocol: Seq<char>, handler: Seq<char> },
    HandlerRemoved { protocol: Seq<char> },
    SearchEngineAdded { id: Seq<char>, name: Seq<char>, url: Seq<char> },
    SearchEngineRemoved { id: Seq<char> },
    SearchEngineDefault { id: Seq<char> },
    PrefSet { key: Seq<char>, value: PrefValueView },
    PrefRemoved { key: Seq<char> },
    TabSent { to_device: Seq<char>, url: Seq<char>, title: Option<Seq<char>> },
    TabReceived { event_id: u128 },
}

impl View for Event {
    type V = EventView;

    open spec fn view(&self) -> EventView {
        match self {
            Event::ExtensionAdded { id, name, url } => EventView::ExtensionAdded {
                id: id@,
                name: name@,
                url: url.deep_view(),
            },
            Event::ExtensionRemoved { id } => EventView::ExtensionRemoved { id: id@ },
            Event::ExtensionInstalled {
                id,
                name,
                version,
                source,
                xpi_data,
            } => EventView::ExtensionInstalled {
                id: id@,
                name: name@,
                version: version@,
                source: source@,
                xpi_data: xpi_data@,
            },
            Event::ExtensionUninstalled { id } => EventView::ExtensionUninstalled { id: id@ },
            Event::ContainerAdded { id, name, color, icon } => EventView::ContainerAdded {
                id: id@,
                name: name@,
                color: color@,
                icon: icon@,
            },
            Event::ContainerRemoved { id } => EventView::ContainerRemoved { id: id@ },
            Event::ContainerUpdated { id, name, color, icon } => EventView::ContainerUpdated {
                id: id@,
                name: name.deep_view(),
                color: color.deep_view(),
                icon: icon.deep_view(),
            },
            Event::HandlerSet { protocol, handler } => EventView::HandlerSet {
                protocol: protocol@,
                handler: handler@,
            },
            Event::HandlerRemoved { protocol } => EventView::HandlerRemoved {
                protocol: protocol@,
            },
            Event::SearchEngineAdded { id, name, url } => EventView::SearchEngineAdded {
                id: id@,
                name: name@,
                url: url@,
            },
            Event::SearchEngineRemoved { id } => EventView::SearchEngineRemoved { id: id@ },
            Event::SearchEngineDefault { id } => EventView::SearchEngineDefault { id: id@ },
            Event::PrefSet { key, value } => EventView::PrefSet { key: key@, value: value@ },
            Event::PrefRemoved { key } => EventView::PrefRemoved { key: key@ },
            Event::TabSent { to_device, url, title } => EventView::TabSent {
                to_device: to_device@,
                url: url@,
                title: title.deep_view(),
            },
            Event::TabReceived { event_id } => EventView::TabReceived { event_id: *event_id },
        }
    }
}

impl DeepView for Event {
    type V = EventView;

    open spec fn deep_view(&self) -> EventView {
        self.view()
    }
}

/// The entity that an event addresses: its extension, container, search
/// engine, protocol or preference key; none for tab events.
pub open spec fn entity_of(e: EventView) -> Option<Seq<char>> {
    match e {
        EventView::ExtensionAdded { id, .. } => Some(id),
        EventView::ExtensionRemoved { id } => Some(id),
        EventView::ExtensionInstalled { id, .. } => Some(id),
        EventView::ExtensionUninstalled { id } => Some(id),
        EventView::ContainerAdded { id, .. } => Some(id),
        EventView::ContainerRemoved { id } => Some(id),
        EventView::ContainerUpdated { id, .. } => Some(id),
        EventView::HandlerSet { protocol, .. } => Some(protocol),
        EventView::HandlerRemoved { protocol } => Some(protocol),
        EventView::SearchEngineAdded { id, .. } => Some(id),
        EventView::SearchEngineRemoved { id } => Some(id),
        EventView::SearchEngineDefault { id } => Some(id),
        EventView::PrefSet { key, .. } => Some(key),
        EventView::PrefRemoved { key } => Some(key),
        EventView::TabSent { .. } => None,
        EventView::TabReceived { .. } => None,
    }
}

/// True when `e` hands a tab to `device`.
pub open spec fn is_tab_for(e: EventView, device: Seq<char>) -> bool {
    e matches EventView::TabSent { to_device, .. } && to_device == device
}

impl Event {
    /// True when this event hands a tab to `device`.
    pub fn is_tab_for_device(&self, device: &str) -> (r: bool)
        ensures
            r == is_tab_for(self@, device@),
    {
        match self {
            Event::TabSent { to_device, .. } => str_eq(to_device.as_str(), device),
            _ => false,
        }
    }

    /// The identifier of the entity that this event addresses.
    pub fn entity_id(&self) -> (r: Option<&str>)
        ensures
            match r {
                Some(s) => entity_of(self@) == Some(s@),
                None => entity_of(self@) is None,
            },
    {
        match self {
            Event::ExtensionAdded { id, .. } => Some(id.as_str()),
            Event::ExtensionRemoved { id } => Some(id.as_str()),
            Event::ExtensionInstalled { id, .. } => Some(id.as_str()),
            Event::ExtensionUninstalled { id } => Some(id.as_str()),
            Event::ContainerAdded { id, .. } => Some(id.as_str()),
            Event::ContainerRemoved { id } => Some(id.as_str()),
            Event::ContainerUpdated { id, .. } => Some(id.as_str()),
            Event::HandlerSet { protocol, .. } => Some(protocol.as_str()),
            Event::HandlerRemoved { protocol } => Some(protocol.as_str()),
            Event::SearchEngineAdded { id, .. } => Some(id.as_str()),
            Event::SearchEngineRemoved { id } => Some(id.as_str()),
            Event::SearchEngineDefault { id } => Some(id.as_str()),
            Event::PrefSet { key, .. } => Some(key.as_str()),
            Event::PrefRemoved { key } => Some(key.as_str()),
            Event::TabSent { .. } => None,
            Event::TabReceived { .. } => None,
        }
    }
}

impl Clone for Event {
    fn clone(&self) -> (r: Self)
        ensures
            r@ == self@,
    {
        match self {
            Event::ExtensionAdded { id, name, url } => Event::ExtensionAdded {
                id: id.clone(),
                name: name.clone(),
                url: clone_opt(url),
            },
            Event::ExtensionRemoved { id } => Event::ExtensionRemoved { id: id.clone() },
            Event::ExtensionInstalled {
                id,
                name,
                version,
                source,
                xpi_data,
            } => Event::ExtensionInstalled {
                id: id.clone(),
                name: name.clone(),
                version: version.clone(),
                source: source.duplicate(),
                xpi_data: xpi_data.clone(),
            },
            Event::ExtensionUninstalled { id } => Event::ExtensionUninstalled { id: id.clone() },
            Event::ContainerAdded { id, name, color, icon } => Event::ContainerAdded {
                id: id.clone(),
                name: name.clone(),
                color: color.clone(),
                icon: icon.clone(),
            },
            Event::ContainerRemoved { id } => Event::ContainerRemoved { id: id.clone() },
            Event::ContainerUpdated { id, name, color, icon } => Event::ContainerUpdated {
                id: id.clone(),
                name: clone_opt(name),
                color: clone_opt(color),
                icon: clone_opt(icon),
            },
            Event::HandlerSet { protocol, handler } => Event::HandlerSet {
                protocol: protocol.clone(),
                handler: handler.clone(),
            },
            Event::HandlerRemoved { protocol } => Event::HandlerRemoved {
                protocol: protocol.clone(),
            },
            Event::SearchEngineAdded { id, name, url } => Event::SearchEngineAdded {
                id: id.clone(),
                name: name.clone(),
                url: url.clone(),
            },
            Event::SearchEngineRemoved { id } => Event::SearchEngineRemoved { id: id.clone() },
            Event::SearchEngineDefault { id } => Event::SearchEngineDefault { id: id.clone() },
            Event::PrefSet { key, value } => Event::PrefSet {
                key: key.clone(),
                value: value.duplicate(),
            },
            Event::PrefRemoved { key } => Event::PrefRemoved { key: key.clone() },
            Event::TabSent { to_device, url, title } => Event::TabSent {
                to_device: to_device.clone(),
                url: url.clone(),
                title: clone_opt(title),
            },
            Event::TabReceived { event_id } => Event::TabReceived { event_id: *event_id },
        }
    }
}

/// An event with its identifier, the time and device of its making, and
/// the clock of that device after it counted the event.
#[derive(Debug)]
pub struct EventEnvelope {
    /// Time-ordered 128-bit identifier.
    pub id: u128,
    /// Microseconds since the Unix epoch, UTC.
    pub timestamp: i64,
    pub device: String,
    pub clock: VectorClock,
    pub event: Event,
}

/// An envelope as plain data.
pub struct EnvelopeView {
    pub id: u128,
    pub timestamp: i64,
    pub device: Seq<char>,
    pub clock: Map<Seq<char>, u64>,
    pub event: EventView,
}

impl View for EventEnvelope {
    type V = EnvelopeView;

    open spec fn view(&self) -> EnvelopeView {
        EnvelopeView {
            id: self.id,
            timestamp: self.timestamp,
            device: self.device@,
            clock: self.clock@,
            event: self.event@,
        }
    }
}

impl DeepView for EventEnvelope {
    type V = EnvelopeView;

    open spec fn deep_view(&self) -> EnvelopeView {
        self.view()
    }
}

/// The hyphenated lower-case text of a 128-bit identifier.
pub uninterp spec fn uuid_hyphenated(id: u128) -> Seq<char>;

/// The identifier that a text stands for, in any of the accepted forms;
/// none when the text is no identifier.
pub uninterp spec fn uuid_parsed(text: Seq<char>) -> Option<u128>;

/// Writes an identifier in its hyphenated form.
///
/// Trusted: calls `Uuid::from_u128` and the `Display` of `uuid`. The
/// contract names the text, which depends on the identifier alone.
#[verifier::external_body]
pub(crate) fn uuid_text(id: u128) -> (r: String)
    ensures
        r@ == uuid_hyphenated(id),
{
    uuid::Uuid::from_u128(id).to_string()
}

/// Reads an identifier from text.
///
/// Trusted: calls `Uuid::parse_str` of `uuid`. The contract names the
/// outcome, which depends on the text alone.
#[verifier::external_body]
pub(crate) fn uuid_parse(text: &str) -> (r: Option<u128>)
    ensures
        r == uuid_parsed(text@),
{
    uuid::Uuid::parse_str(text).ok().map(|u| u.as_u128())
}

/// Draws a fresh time-ordered identifier.
///
/// Trusted: calls `Uuid::now_v7` of `uuid`. The identifier depends on the
/// clock and on chance, so nothing is promised of it.
#[verifier::external_body]
pub(crate) fn fresh_event_id() -> (id: u128) {
    uuid::Uuid::now_v7().as_u128()
}

/// Reads the wall clock, in microseconds since the Unix epoch.
///
/// Trusted: calls `Utc::now` of `chrono`. Nothing is promised of the time.
#[verifier::external_body]
pub(crate) fn current_time_micros() -> (t: i64) {
    chrono::Utc::now().timestamp_micros()
}

impl EventEnvelope {
    /// Wraps `event` under the given identifier and time.
    pub fn with_stamp(
        id: u128,
        timestamp: i64,
        device: String,
        clock: VectorClock,
        event: Event,
    ) -> (e: Self)
        ensures
            e@ == (EnvelopeView {
                id,
                timestamp,
                device: device@,
                clock: clock@,
                event: event@,
            }),
    {
        EventEnvelope { id, timestamp, device, clock, event }
    }

    /// Wraps `event` under a fresh identifier and the current time.
    pub fn new(device: String, clock: VectorClock, event: Event) -> (e: Self)
        ensures
            e@.device == device@,
            e@.clock == clock@,
            e@.event == event@,
    {
        let id = fresh_event_id();
        let timestamp = current_time_micros();
        EventEnvelope::with_stamp(id, timestamp, device, clock, event)
    }
}

impl Clone for EventEnvelope {
    fn clone(&self) -> (r: Self)
        ensures
            r@ == self@,
    {
        EventEnvelope {
            id: self.id,
            timestamp: self.timestamp,
            device: self.device.clone(),
            clock: self.clock.clone(),
            event: self.event.clone(),
        }
    }
}

} // verus!
