//! Devtools support: a registry of stores and recent events, the
//! conversion of store events into devtools events, and a time-travel
//! debugger over recorded state snapshots.

use vstd::prelude::*;
use vstd::string::StringExecFns;
use vstd::rwlock::{ReadHandle, RwLock, RwLockPredicate};
use std::sync::Arc;
use crate::audit::{keep_newest, push_trimmed};
use crate::clock::current_timestamp_ms;
use crate::keyed_map::KeyedMap;
use crate::middleware::{ErrorSource, EventSubscriber, StoreEvent, share};
use crate::priority::push_item;
use crate::text::{bool_text, decimal, push_bool, push_decimal, same_text};

verus! {

// ============================================================================
// Registry records
// ============================================================================

/// Information about a registered store.
#[derive(Debug)]
pub struct StoreInfo {
    /// Store name.
    pub name: String,
    /// Store key (for lookup).
    pub key: String,
    /// Name of the store's type.
    pub store_type: &'static str,
    /// When registered.
    pub registered_at: u64,
}

impl Clone for StoreInfo {
    fn clone(&self) -> (r: Self)
        ensures
            r == *self,
    {
        StoreInfo {
            name: self.name.clone(),
            key: self.key.clone(),
            store_type: self.store_type,
            registered_at: self.registered_at,
        }
    }
}

/// A devtools event.
#[derive(Debug)]
pub struct DevtoolsEvent {
    /// Event type.
    pub event_type: String,
    /// Store name.
    pub store_name: Option<String>,
    /// Event payload (JSON).
    pub payload: String,
    /// Timestamp.
    pub timestamp: u64,
}

impl Clone for DevtoolsEvent {
    fn clone(&self) -> (r: Self)
        ensures
            r == *self,
    {
        DevtoolsEvent {
            event_type: self.event_type.clone(),
            store_name: match &self.store_name {
                Some(s) => Some(s.clone()),
                None => None,
            },
            payload: self.payload.clone(),
            timestamp: self.timestamp,
        }
    }
}

/// The view of a devtools event: type, store name, payload, timestamp.
pub type DevtoolsEventView = (Seq<char>, Option<Seq<char>>, Seq<char>, u64);

impl View for DevtoolsEvent {
    type V = DevtoolsEventView;

    open spec fn view(&self) -> DevtoolsEventView {
        (
            self.event_type@,
            match self.store_name {
                Some(s) => Some(s@),
                None => None,
            },
            self.payload@,
            self.timestamp,
        )
    }
}

/// Configuration for devtools.
#[derive(Debug, Clone, Copy)]
pub struct DevtoolsConfig {
    /// Whether devtools is enabled.
    pub enabled: bool,
    /// Maximum events to keep in history.
    pub max_events: usize,
    /// Whether to expose the console API.
    pub expose_console_api: bool,
    /// Whether to connect to browser extension.
    pub connect_extension: bool,
}

impl Default for DevtoolsConfig {
    fn default() -> (c: DevtoolsConfig)
        ensures
            c.enabled,
            c.max_events == 1000,
            c.expose_console_api,
            c.connect_extension,
    {
        DevtoolsConfig {
            enabled: true,
            max_events: 1000,
            expose_console_api: true,
            connect_extension: true,
        }
    }
}

// ============================================================================
// Store events as devtools events
// ============================================================================

/// The `Debug` name of an error source.
pub open spec fn source_label(source: ErrorSource) -> Seq<char> {
    match source {
        ErrorSource::Mutation => "Mutation"@,
        ErrorSource::Action => "Action"@,
        ErrorSource::Middleware => "Middleware"@,
        ErrorSource::Persistence => "Persistence"@,
        ErrorSource::Unknown => "Unknown"@,
    }
}

fn source_name(source: ErrorSource) -> (r: &'static str)
    ensures
        r@ == source_label(source),
{
    match source {
        ErrorSource::Mutation => "Mutation",
        ErrorSource::Action => "Action",
        ErrorSource::Middleware => "Middleware",
        ErrorSource::Persistence => "Persistence",
        ErrorSource::Unknown => "Unknown",
    }
}

/// The JSON object with one string field: `{"<field>":"<value>"}`.
pub open spec fn one_field(field: Seq<char>, value: Seq<char>) -> Seq<char> {
    "{\""@ + field + "\":\""@ + value + "\"}"@
}

/// The JSON object reporting a finished operation: its name, duration and
/// outcome.
pub open spec fn finished_payload(field: Seq<char>, name: Seq<char>, duration_ms: u64, success: bool) -> Seq<char> {
    "{\""@ + field + "\":\""@ + name + "\",\"duration_ms\":"@ + decimal(duration_ms as nat)
        + ",\"success\":"@ + bool_text(success) + "}"@
}

/// The devtools event recorded for a store event; `now` is the time used
/// for events that carry none of their own.
pub open spec fn devtools_event_spec(event: StoreEvent, now: u64) -> DevtoolsEventView {
    match event {
        StoreEvent::StateChanged { store_name, timestamp, .. } => (
            "StateChanged"@,
            Some(store_name@),
            "{}"@,
            timestamp,
        ),
        StoreEvent::MutationStarted { name, timestamp, .. } => (
            "MutationStarted"@,
            Some(name@),
            one_field("mutation"@, name@),
            timestamp,
        ),
        StoreEvent::MutationCompleted { name, duration_ms, success, .. } => (
            "MutationCompleted"@,
            Some(name@),
            finished_payload("mutation"@, name@, duration_ms, success),
            now,
        ),
        StoreEvent::ActionDispatched { action_name, timestamp, .. } => (
            "ActionDispatched"@,
            Some(action_name@),
            one_field("action"@, action_name@),
            timestamp,
        ),
        StoreEvent::ActionCompleted { action_name, duration_ms, success, .. } => (
            "ActionCompleted"@,
            Some(action_name@),
            finished_payload("action"@, action_name@, duration_ms, success),
            now,
        ),
        StoreEvent::Error { message, source, .. } => (
            "Error"@,
            None,
            "{\"message\":\""@ + message@ + "\",\"source\":\""@ + source_label(source) + "\"}"@,
            now,
        ),
        StoreEvent::CacheInvalidated { scope, timestamp, .. } => (
            "CacheInvalidated"@,
            match scope {
                Some(s) => Some(s@),
                None => None,
            },
            match scope {
                Some(s) => "{\"scope\":\""@ + s@ + "\"}"@,
                None => "{\"scope\":null}"@,
            },
            timestamp,
        ),
    }
}

/// A character as it stands inside a JSON string: a backslash, a quote and
/// a newline are escaped.
pub open spec fn escaped_char(c: char) -> Seq<char> {
    if c == '\\' {
        seq!['\\', '\\']
    } else if c == '"' {
        seq!['\\', '"']
    } else if c == '\n' {
        seq!['\\', 'n']
    } else {
        seq![c]
    }
}

/// Text as it stands inside a JSON string, each character escaped.
pub open spec fn escaped(s: Seq<char>) -> Seq<char>
    decreases s.len(),
{
    if s.len() == 0 {
        Seq::empty()
    } else {
        escaped(s.drop_last()) + escaped_char(s.last())
    }
}

/// `s` with backslashes, quotes and newlines escaped for a JSON string.
pub fn escape_text(s: &str) -> (r: String)
    ensures
        r@ == escaped(s@),
{
    let n = s.unicode_len();
    let mut r = String::new();
    let mut i: usize = 0;
    while i < n
        invariant
            n == s@.len(),
            i <= n,
            r@ == escaped(s@.take(i as int)),
        decreases n - i,
    {
        let c = s.get_char(i);
        proof {
            reveal_strlit("\\\\");
            reveal_strlit("\\\"");
            reveal_strlit("\\n");
            assert(s@.take(i + 1).drop_last() =~= s@.take(i as int));
            assert(s@.take(i + 1).last() == c);
        }
        if c == '\\' {
            r.append("\\\\");
        } else if c == '"' {
            r.append("\\\"");
        } else if c == '\n' {
            r.append("\\n");
        } else {
            r.append(s.substring_char(i, i + 1));
            proof {
                assert(s@.subrange(i as int, i + 1) =~= seq![c]);
            }
        }
        i = i + 1;
    }
    proof {
        assert(s@.take(n as int) =~= s@);
    }
    r
}

/// The payload of a `StateChanged` event for the store under `key`, with
/// its old and new states as (escaped) text.
pub open spec fn state_change_text(key: Seq<char>, old: Seq<char>, new: Seq<char>) -> Seq<char> {
    "{\"store\":\""@ + key + "\",\"old\":\""@ + escaped(old) + "\",\"new\":\""@ + escaped(new) + "\"}"@
}

/// The payload of a `StateChanged` event for the store under `key`, with
/// its old and new states as JSON.
pub open spec fn state_change_json(key: Seq<char>, old: Seq<char>, new: Seq<char>) -> Seq<char> {
    "{\"store\":\""@ + key + "\",\"old\":"@ + old + ",\"new\":"@ + new + "}"@
}

/// The `StateChanged` event of the store `name` under `key`, whose state
/// text went from `old` to `new`, stamped `now`.
pub fn state_changed_event(name: &str, key: &str, old: &str, new: &str, now: u64) -> (e: DevtoolsEvent)
    ensures
        e@ == ("StateChanged"@, Some(name@), state_change_text(key@, old@, new@), now),
{
    let mut payload = String::from_str("{\"store\":\"");
    payload.append(key);
    payload.append("\",\"old\":\"");
    payload.append(escape_text(old).as_str());
    payload.append("\",\"new\":\"");
    payload.append(escape_text(new).as_str());
    payload.append("\"}");
    DevtoolsEvent {
        event_type: String::from_str("StateChanged"),
        store_name: Some(String::from_str(name)),
        payload,
        timestamp: now,
    }
}

/// The `StateChanged` event of the store `name` under `key`, whose state
/// went from the JSON `old` to the JSON `new`, stamped `now`.
pub fn state_changed_json_event(name: &str, key: &str, old: &str, new: &str, now: u64) -> (e: DevtoolsEvent)
    ensures
        e@ == ("StateChanged"@, Some(name@), state_change_json(key@, old@, new@), now),
{
    let mut payload = String::from_str("{\"store\":\"");
    payload.append(key);
    payload.append("\",\"old\":");
    payload.append(old);
    payload.append(",\"new\":");
    payload.append(new);
    payload.append("}");
    DevtoolsEvent {
        event_type: String::from_str("StateChanged"),
        store_name: Some(String::from_str(name)),
        payload,
        timestamp: now,
    }
}

fn one_field_text(field: &str, value: &str) -> (r: String)
    ensures
        r@ == one_field(field@, value@),
{
    let mut r = String::from_str("{\"");
    r.append(field);
    r.append("\":\"");
    r.append(value);
    r.append("\"}");
    r
}

fn finished_text(field: &str, name: &str, duration_ms: u64, success: bool) -> (r: String)
    ensures
        r@ == finished_payload(field@, name@, duration_ms, success),
{
    let mut r = String::from_str("{\"");
    r.append(field);
    r.append("\":\"");
    r.append(name);
    r.append("\",\"duration_ms\":");
    push_decimal(&mut r, duration_ms);
    r.append(",\"success\":");
    push_bool(&mut r, success);
    r.append("}");
    r
}

/// The devtools event for a store event; `now` stamps the events that
/// carry no time of their own (completions and errors).
pub fn devtools_event_for(event: &StoreEvent, now: u64) -> (r: DevtoolsEvent)
    ensures
        r@ == devtools_event_spec(*event, now),
{
    match event {
        StoreEvent::StateChanged { store_name, timestamp, .. } => DevtoolsEvent {
            event_type: String::from_str("StateChanged"),
            store_name: Some(String::from_str(store_name)),
            payload: String::from_str("{}"),
            timestamp: *timestamp,
        },
        StoreEvent::MutationStarted { name, timestamp, .. } => DevtoolsEvent {
            event_type: String::from_str("MutationStarted"),
            store_name: Some(String::from_str(name)),
            payload: one_field_text("mutation", name),
            timestamp: *timestamp,
        },
        StoreEvent::MutationCompleted { name, duration_ms, success, .. } => DevtoolsEvent {
            event_type: String::from_str("MutationCompleted"),
            store_name: Some(String::from_str(name)),
            payload: finished_text("mutation", name, *duration_ms, *success),
            timestamp: now,
        },
        StoreEvent::ActionDispatched { action_name, timestamp, .. } => DevtoolsEvent {
            event_type: String::from_str("ActionDispatched"),
            store_name: Some(String::from_str(action_name)),
            payload: one_field_text("action", action_name),
            timestamp: *timestamp,
        },
        StoreEvent::ActionCompleted { action_name, duration_ms, success, .. } => DevtoolsEvent {
            event_type: String::from_str("ActionCompleted"),
            store_name: Some(String::from_str(action_name)),
            payload: finished_text("action", action_name, *duration_ms, *success),
            timestamp: now,
        },
        StoreEvent::Error { message, source, .. } => {
            let mut p = String::from_str("{\"message\":\"");
            p.append(message.as_str());
            p.append("\",\"source\":\"");
            p.append(source_name(*source));
            p.append("\"}");
            DevtoolsEvent {
                event_type: String::from_str("Error"),
                store_name: None,
                payload: p,
                timestamp: now,
            }
        },
        StoreEvent::CacheInvalidated { scope, timestamp, .. } => {
            let (store_name, payload) = match scope {
                Some(s) => {
                    let mut p = String::from_str("{\"scope\":\"");
                    p.append(s);
                    p.append("\"}");
                    (Some(String::from_str(s)), p)
                },
                None => (None, String::from_str("{\"scope\":null}")),
            };
            DevtoolsEvent {
                event_type: String::from_str("CacheInvalidated"),
                store_name,
                payload,
                timestamp: *timestamp,
            }
        },
    }
}

/// How long ago `ts` was, seen at `now`: under a second is `just now`,
/// then whole seconds, minutes or hours (`5s ago`, `2m ago`, `1h ago`).
/// A time after `now` counts as no time ago.
pub open spec fn age_text(ts: u64, now: u64) -> Seq<char> {
    let diff: int = if now >= ts { now - ts } else { 0 };
    if diff < 1000 {
        "just now"@
    } else if diff < 60_000 {
        decimal((diff / 1000) as nat) + "s ago"@
    } else if diff < 3_600_000 {
        decimal((diff / 60_000) as nat) + "m ago"@
    } else {
        decimal((diff / 3_600_000) as nat) + "h ago"@
    }
}

/// Format a timestamp as a human-readable age relative to `now`.
pub fn format_age(ts: u64, now: u64) -> (r: String)
    ensures
        r@ == age_text(ts, now),
{
    let diff = now.saturating_sub(ts);
    if diff < 1000 {
        String::from_str("just now")
    } else if diff < 60_000 {
        let mut r = String::new();
        push_decimal(&mut r, diff / 1000);
        r.append("s ago");
        r
    } else if diff < 3_600_000 {
        let mut r = String::new();
        push_decimal(&mut r, diff / 60_000);
        r.append("m ago");
        r
    } else {
        let mut r = String::new();
        push_decimal(&mut r, diff / 3_600_000);
        r.append("h ago");
        r
    }
}

/// Format a timestamp as a human-readable age relative to the current time.
pub fn format_timestamp(ts: u64) -> (r: String)
    ensures
        exists|now: u64| r@ == age_text(ts, now),
{
    format_age(ts, current_timestamp_ms())
}

/// Colour and icon with which the inspector shows an event type.
pub open spec fn event_style_spec(event_type: Seq<char>) -> (Seq<char>, Seq<char>) {
    if event_type == "StateChanged"@ {
        ("#fbbf24"@, "⚡"@)
    } else if event_type == "StoreRegistered"@ {
        ("#34d399"@, "📦"@)
    } else if event_type == "MutationStarted"@ {
        ("#60a5fa"@, "▶"@)
    } else if event_type == "MutationCompleted"@ {
        ("#34d399"@, "✓"@)
    } else if event_type == "ActionDispatched"@ {
        ("#a78bfa"@, "→"@)
    } else if event_type == "ActionCompleted"@ {
        ("#34d399"@, "✓"@)
    } else if event_type == "Error"@ {
        ("#f87171"@, "✕"@)
    } else {
        ("#9ca3af"@, "•"@)
    }
}

/// The colour and icon with which the inspector shows an event type.
pub fn event_style(event_type: &str) -> (r: (&'static str, &'static str))
    ensures
        (r.0@, r.1@) == event_style_spec(event_type@),
{
    if same_text(event_type, "StateChanged") {
        ("#fbbf24", "⚡")
    } else if same_text(event_type, "StoreRegistered") {
        ("#34d399", "📦")
    } else if same_text(event_type, "MutationStarted") {
        ("#60a5fa", "▶")
    } else if same_text(event_type, "MutationCompleted") {
        ("#34d399", "✓")
    } else if same_text(event_type, "ActionDispatched") {
        ("#a78bfa", "→")
    } else if same_text(event_type, "ActionCompleted") {
        ("#34d399", "✓")
    } else if same_text(event_type, "Error") {
        ("#f87171", "✕")
    } else {
        ("#9ca3af", "•")
    }
}

// ============================================================================
// Registry
// ============================================================================

/// Notified of every event the registry records.
pub trait DevtoolsListener: Send + Sync {
    /// Called with each recorded event.
    fn notify(&self, event: &DevtoolsEvent);
}


/// The views of a sequence of events.
pub open spec fn events_view(events: Seq<DevtoolsEvent>) -> Seq<DevtoolsEventView> {
    events.map_values(|e: DevtoolsEvent| e@)
}

/// The devtools state: registered stores and the recent event history.
pub struct DevtoolsRegistry {
    stores: KeyedMap<StoreInfo>,
    events: Vec<DevtoolsEvent>,
    max_events: usize,
    enabled: bool,
    listeners: Vec<Box<dyn DevtoolsListener>>,
}

impl DevtoolsRegistry {
    /// The registered stores by key.
    pub closed spec fn stores_spec(&self) -> Map<Seq<char>, StoreInfo> {
        self.stores@
    }

    /// The event history, oldest first.
    pub closed spec fn events_spec(&self) -> Seq<DevtoolsEvent> {
        self.events@
    }

    /// The history limit.
    pub closed spec fn max_spec(&self) -> nat {
        self.max_events as nat
    }

    /// Whether events are recorded.
    pub closed spec fn enabled_spec(&self) -> bool {
        self.enabled
    }

    /// The number of listeners.
    pub closed spec fn listener_count(&self) -> nat {
        self.listeners@.len()
    }

    /// Internal consistency of the store index.
    pub closed spec fn wf(&self) -> bool {
        self.stores.wf()
    }

    /// An empty registry with the configuration's limit and switch.
    pub fn new(config: DevtoolsConfig) -> (r: DevtoolsRegistry)
        ensures
            r.wf(),
            r.stores_spec() == Map::<Seq<char>, StoreInfo>::empty(),
            r.events_spec().len() == 0,
            r.max_spec() == config.max_events,
            r.enabled_spec() == config.enabled,
            r.listener_count() == 0,
    {
        DevtoolsRegistry {
            stores: KeyedMap::new(),
            events: Vec::new(),
            max_events: config.max_events,
            enabled: config.enabled,
            listeners: Vec::new(),
        }
    }

    /// Register a store under `key` (replacing a store registered under
    /// the same key) and record a `StoreRegistered` event, stamped `now`.
    ///
    /// The registration event is kept whatever the history limit and the
    /// switch.
    pub fn register(&mut self, name: &str, key: &str, store_type: &'static str, now: u64)
        requires
            old(self).wf(),
        ensures
            final(self).wf(),
            final(self).stores_spec().dom() == old(self).stores_spec().dom().insert(key@),
            final(self).stores_spec()[key@].name@ == name@,
            final(self).stores_spec()[key@].key@ == key@,
            final(self).stores_spec()[key@].store_type == store_type,
            final(self).stores_spec()[key@].registered_at == now,
            forall|k: Seq<char>|
                k != key@ && #[trigger] old(self).stores_spec().contains_key(k)
                    ==> final(self).stores_spec()[k] == old(self).stores_spec()[k],
            events_view(final(self).events_spec()) == events_view(old(self).events_spec()).push(
                ("StoreRegistered"@, Some(name@), one_field("key"@, key@), now),
            ),
            final(self).max_spec() == old(self).max_spec(),
            final(self).enabled_spec() == old(self).enabled_spec(),
    {
        let info = StoreInfo {
            name: String::from_str(name),
            key: String::from_str(key),
            store_type,
            registered_at: now,
        };
        self.stores.insert(String::from_str(key), info);
        let event = DevtoolsEvent {
            event_type: String::from_str("StoreRegistered"),
            store_name: Some(String::from_str(name)),
            payload: one_field_text("key", key),
            timestamp: now,
        };
        let ghost before = self.events@;
        self.events.push(event);
        proof {
            assert(events_view(self.events@) =~= events_view(before).push(event@));
        }
    }

    /// Unregister the store under `key`.
    pub fn unregister(&mut self, key: &str)
        requires
            old(self).wf(),
        ensures
            final(self).wf(),
            final(self).stores_spec() == old(self).stores_spec().remove(key@),
            final(self).events_spec() == old(self).events_spec(),
            final(self).max_spec() == old(self).max_spec(),
            final(self).enabled_spec() == old(self).enabled_spec(),
    {
        self.stores.remove(key);
    }

    /// Record an event, unless recording is disabled: it joins the history,
    /// the oldest event is dropped when that exceeds the limit, and every
    /// listener is notified.
    pub fn record(&mut self, event: DevtoolsEvent)
        requires
            old(self).wf(),
        ensures
            final(self).wf(),
            final(self).stores_spec() == old(self).stores_spec(),
            old(self).enabled_spec() ==> final(self).events_spec() == push_trimmed(
                old(self).events_spec(),
                event,
                old(self).max_spec(),
            ),
            !old(self).enabled_spec() ==> final(self).events_spec() == old(self).events_spec(),
            final(self).max_spec() == old(self).max_spec(),
            final(self).enabled_spec() == old(self).enabled_spec(),
    {
        if !self.enabled {
            return;
        }
        let ghost before = self.events@;
        self.events.push(event.clone());
        if self.events.len() > self.max_events {
            self.events.remove(0);
            proof {
                assert(self.events@ =~= before.push(event).drop_first());
            }
        }
        let mut i: usize = 0;
        while i < self.listeners.len()
            decreases self.listeners.len() - i,
        {
            self.listeners[i].notify(&event);
            i = i + 1;
        }
    }

    /// Add a listener notified of every recorded event.
    pub fn subscribe<L: DevtoolsListener + 'static>(&mut self, listener: L)
        ensures
            final(self).stores_spec() == old(self).stores_spec(),
            final(self).events_spec() == old(self).events_spec(),
            final(self).max_spec() == old(self).max_spec(),
            final(self).enabled_spec() == old(self).enabled_spec(),
            final(self).wf() == old(self).wf(),
            final(self).listener_count() == old(self).listener_count() + 1,
    {
        let boxed: Box<dyn DevtoolsListener> = Box::new(listener);
        push_item(&mut self.listeners, boxed);
    }

    /// The store registered under `key`.
    pub fn store(&self, key: &str) -> (r: Option<&StoreInfo>)
        requires
            self.wf(),
        ensures
            match r {
                Some(info) => self.stores_spec().contains_key(key@) && self.stores_spec()[key@]
                    == *info,
                None => !self.stores_spec().contains_key(key@),
            },
    {
        self.stores.get(key)
    }

    /// The keys of the registered stores, in registration order.
    pub fn store_keys(&self) -> (r: Vec<String>)
        requires
            self.wf(),
        ensures
            r@.map_values(|k: String| k@).to_set() == self.stores_spec().dom(),
            r@.map_values(|k: String| k@).no_duplicates(),
    {
        proof {
            self.stores.lemma_key_order();
        }
        self.stores.keys()
    }

    /// The event history, oldest first.
    pub fn events(&self) -> (r: Vec<DevtoolsEvent>)
        ensures
            r@ == self.events_spec(),
    {
        let mut r: Vec<DevtoolsEvent> = Vec::new();
        let mut i: usize = 0;
        while i < self.events.len()
            invariant
                i <= self.events@.len(),
                r@ == self.events@.take(i as int),
            decreases self.events.len() - i,
        {
            r.push(self.events[i].clone());
            i = i + 1;
            proof {
                assert(r@ =~= self.events@.take(i as int));
            }
        }
        proof {
            assert(self.events@.take(self.events@.len() as int) =~= self.events@);
        }
        r
    }

    /// The `count` most recent events, newest first.
    pub fn recent_events(&self, count: usize) -> (r: Vec<DevtoolsEvent>)
        ensures
            r@.len() == if count < self.events_spec().len() { count as nat } else { self.events_spec().len() },
            forall|k: int|
                0 <= k < r@.len() ==> #[trigger] r@[k] == self.events_spec()[self.events_spec().len() - 1 - k],
    {
        let n = self.events.len();
        let mut r: Vec<DevtoolsEvent> = Vec::new();
        let mut k: usize = 0;
        while k < count && k < n
            invariant
                n == self.events@.len(),
                k <= n,
                k <= count,
                r@.len() == k,
                forall|j: int| 0 <= j < k ==> #[trigger] r@[j] == self.events@[n - 1 - j],
            decreases n - k,
        {
            r.push(self.events[n - 1 - k].clone());
            k = k + 1;
        }
        r
    }

    /// Whether events are recorded.
    pub fn is_enabled(&self) -> (r: bool)
        ensures
            r == self.enabled_spec(),
    {
        self.enabled
    }
}

/// Every store is registered under its own key.
pub open spec fn stores_keyed_by_key(stores: Map<Seq<char>, StoreInfo>) -> bool {
    forall|k: Seq<char>| #[trigger] stores.contains_key(k) ==> stores[k].key@ == k
}

/// A well-formed registry, each store under its own key, may be held by
/// the shared recorder.
pub struct WellFormedRegistry;

impl RwLockPredicate<DevtoolsRegistry> for WellFormedRegistry {
    open spec fn inv(self, v: DevtoolsRegistry) -> bool {
        v.wf() && stores_keyed_by_key(v.stores_spec())
    }
}

/// A shared handle on a devtools registry; clones reach the same registry.
pub struct DevtoolsRecorder {
    registry: Arc<RwLock<DevtoolsRegistry, WellFormedRegistry>>,
}

impl Clone for DevtoolsRecorder {
    fn clone(&self) -> (r: Self) {
        DevtoolsRecorder { registry: share(&self.registry) }
    }
}

impl DevtoolsRecorder {
    /// The shared registry.
    pub closed spec fn registry_spec(&self) -> Arc<RwLock<DevtoolsRegistry, WellFormedRegistry>> {
        self.registry
    }

    /// A recorder over an empty registry with `config`.
    pub fn new(config: DevtoolsConfig) -> DevtoolsRecorder {
        DevtoolsRecorder {
            registry: Arc::new(RwLock::new(DevtoolsRegistry::new(config), Ghost(WellFormedRegistry))),
        }
    }

    /// Register a store, stamped with the current time.
    pub fn register(&self, name: &str, key: &str, store_type: &'static str) {
        let now = current_timestamp_ms();
        let (mut reg, handle) = self.registry.acquire_write();
        reg.register(name, key, store_type, now);
        handle.release_write(reg);
    }

    /// Unregister a store.
    pub fn unregister(&self, key: &str) {
        let (mut reg, handle) = self.registry.acquire_write();
        reg.unregister(key);
        handle.release_write(reg);
    }

    /// Record an event.
    pub fn record(&self, event: DevtoolsEvent) {
        let (mut reg, handle) = self.registry.acquire_write();
        reg.record(event);
        handle.release_write(reg);
    }

    /// Add a listener.
    pub fn subscribe<L: DevtoolsListener + 'static>(&self, listener: L) {
        let (mut reg, handle) = self.registry.acquire_write();
        reg.subscribe(listener);
        handle.release_write(reg);
    }

    /// The event history, oldest first.
    pub fn events(&self) -> (r: Vec<DevtoolsEvent>)
        ensures
            exists|h: ReadHandle<DevtoolsRegistry, WellFormedRegistry>|
                #[trigger] call_ensures(RwLock::<DevtoolsRegistry, WellFormedRegistry>::acquire_read, (&*self.registry_spec(),), h) && r@
                    == h.view().events_spec(),
    {
        let handle = self.registry.acquire_read();
        assert(call_ensures(RwLock::<DevtoolsRegistry, WellFormedRegistry>::acquire_read, (&*self.registry_spec(),), handle));
        let r = handle.borrow().events();
        handle.release_read();
        r
    }

    /// The `count` most recent events, newest first.
    pub fn recent_events(&self, count: usize) -> (r: Vec<DevtoolsEvent>)
        ensures
            r@.len() <= count,
            exists|h: ReadHandle<DevtoolsRegistry, WellFormedRegistry>|
                #[trigger] call_ensures(
                    RwLock::<DevtoolsRegistry, WellFormedRegistry>::acquire_read,
                    (&*self.registry_spec(),),
                    h,
                ) && call_ensures(DevtoolsRegistry::recent_events, (&h.view(), count), r),
    {
        let handle = self.registry.acquire_read();
        let reg = handle.borrow();
        let r = reg.recent_events(count);
        assert(call_ensures(DevtoolsRegistry::recent_events, (reg, count), r));
        assert(call_ensures(
            RwLock::<DevtoolsRegistry, WellFormedRegistry>::acquire_read,
            (&*self.registry_spec(),),
            handle,
        ));
        handle.release_read();
        r
    }

    /// The registered stores, in registration order.
    pub fn stores(&self) -> (r: Vec<StoreInfo>)
        ensures
            forall|a: int, b: int| 0 <= a < b < r@.len() ==> #[trigger] r@[a].key@ != #[trigger] r@[b].key@,
    {
        let handle = self.registry.acquire_read();
        let reg = handle.borrow();
        let keys = reg.store_keys();
        let ghost kv = keys@.map_values(|k: String| k@);
        let mut r: Vec<StoreInfo> = Vec::new();
        let ghost mut idx: Seq<int> = Seq::empty();
        let mut i: usize = 0;
        while i < keys.len()
            invariant
                reg.wf(),
                stores_keyed_by_key(reg.stores_spec()),
                kv == keys@.map_values(|k: String| k@),
                kv.no_duplicates(),
                i <= keys@.len(),
                idx.len() == r@.len(),
                forall|a: int| 0 <= a < idx.len() ==> 0 <= #[trigger] idx[a] < i,
                forall|a: int, b: int| 0 <= a < b < idx.len() ==> #[trigger] idx[a] < #[trigger] idx[b],
                forall|a: int| 0 <= a < r@.len() ==> #[trigger] r@[a].key@ == kv[idx[a]],
            decreases keys.len() - i,
        {
            if let Some(info) = reg.store(keys[i].as_str()) {
                let c = info.clone();
                proof {
                    idx = idx.push(i as int);
                    assert(kv[i as int] == keys@[i as int]@);
                }
                r.push(c);
            }
            i = i + 1;
        }
        proof {
            assert forall|a: int, b: int| 0 <= a < b < r@.len() implies #[trigger] r@[a].key@ != #[trigger] r@[b].key@ by {
                assert(idx[a] < idx[b]);
            }
        }
        handle.release_read();
        r
    }

    /// The store registered under `key`.
    pub fn store(&self, key: &str) -> (r: Option<StoreInfo>)
        ensures
            r matches Some(info) ==> info.key@ == key@,
            exists|h: ReadHandle<DevtoolsRegistry, WellFormedRegistry>|
                #[trigger] call_ensures(RwLock::<DevtoolsRegistry, WellFormedRegistry>::acquire_read, (&*self.registry_spec(),), h) && match r {
                    Some(info) => h.view().stores_spec().contains_key(key@) && h.view().stores_spec()[key@]
                        == info,
                    None => !h.view().stores_spec().contains_key(key@),
                },
    {
        let handle = self.registry.acquire_read();
        assert(call_ensures(RwLock::<DevtoolsRegistry, WellFormedRegistry>::acquire_read, (&*self.registry_spec(),), handle));
        let r = match handle.borrow().store(key) {
            Some(info) => Some(info.clone()),
            None => None,
        };
        handle.release_read();
        r
    }
}

/// The recent events a recorder reports are the newest events of the
/// registry it read under its lock, newest first: `count` of them, or all
/// of them when there are fewer.
pub proof fn law_recent_events_newest_first(rec: &DevtoolsRecorder, count: usize, r: Vec<DevtoolsEvent>)
    requires
        call_ensures(DevtoolsRecorder::recent_events, (rec, count), r),
    ensures
        exists|h: ReadHandle<DevtoolsRegistry, WellFormedRegistry>|
            #[trigger] call_ensures(
                RwLock::<DevtoolsRegistry, WellFormedRegistry>::acquire_read,
                (&*rec.registry_spec(),),
                h,
            ) && {
                let events = h.view().events_spec();
                &&& r@.len() == if count < events.len() { count as nat } else { events.len() }
                &&& forall|k: int| 0 <= k < r@.len() ==> #[trigger] r@[k] == events[events.len() - 1 - k]
            },
{
}

/// An event subscriber that records store events in a devtools registry.
pub struct DevtoolsEventSubscriber {
    recorder: DevtoolsRecorder,
}

impl DevtoolsEventSubscriber {
    /// The recorder events go to.
    pub closed spec fn recorder_spec(&self) -> DevtoolsRecorder {
        self.recorder
    }

    /// A subscriber recording into `recorder`.
    pub fn new(recorder: DevtoolsRecorder) -> (s: DevtoolsEventSubscriber)
        ensures
            s.recorder_spec() == recorder,
    {
        DevtoolsEventSubscriber { recorder }
    }
}

impl EventSubscriber for DevtoolsEventSubscriber {
    fn on_event(&self, event: &StoreEvent) {
        self.recorder.record(devtools_event_for(event, current_timestamp_ms()));
    }

    fn name(&self) -> (r: &'static str)
        ensures
            r@ == "DevtoolsEventSubscriber"@,
    {
        "DevtoolsEventSubscriber"
    }
}

// ============================================================================
// Extension protocol
// ============================================================================

/// Messages of the browser extension protocol.
#[derive(Debug, Clone)]
pub enum DevtoolsMessage {
    /// Initialize connection.
    Init {
        /// Instance ID.
        instance_id: String,
        /// Store names.
        stores: Vec<String>,
    },
    /// State update.
    StateUpdate {
        /// Store name.
        store: String,
        /// Action that caused the update.
        action: String,
        /// New state (JSON).
        state: String,
        /// Timestamp.
        timestamp: u64,
    },
    /// Action dispatch.
    Action {
        /// Store name.
        store: String,
        /// Action type.
        action_type: String,
        /// Action payload (JSON).
        payload: String,
    },
    /// Jump to state (time travel).
    JumpToState {
        /// Target state index.
        index: usize,
    },
    /// Import state.
    ImportState {
        /// Serialized state.
        state: String,
    },
    /// Export state.
    ExportState,
}


// ============================================================================
// Time travel
// ============================================================================

/// A recorded state, with its position in the history.
#[derive(Debug)]
pub struct StateSnapshot {
    /// Snapshot index.
    pub index: usize,
    /// Store name.
    pub store: String,
    /// Action that produced this state.
    pub action: String,
    /// Serialized state.
    pub state: String,
    /// Timestamp.
    pub timestamp: u64,
}

impl Clone for StateSnapshot {
    fn clone(&self) -> (r: Self)
        ensures
            r == *self,
    {
        StateSnapshot {
            index: self.index,
            store: self.store.clone(),
            action: self.action.clone(),
            state: self.state.clone(),
            timestamp: self.timestamp,
        }
    }
}

/// A recorded state without its position: store, action, state, time.
pub type SnapshotView = (Seq<char>, Seq<char>, Seq<char>, u64);

struct SnapshotEntry {
    store: String,
    action: String,
    state: String,
    timestamp: u64,
}

impl SnapshotEntry {
    spec fn view(&self) -> SnapshotView {
        (self.store@, self.action@, self.state@, self.timestamp)
    }
}

/// Where `prev` moves the cursor from `cursor`, if anywhere.
pub open spec fn prev_target(cursor: nat) -> Option<nat> {
    if cursor > 0 {
        Some((cursor - 1) as nat)
    } else {
        None
    }
}

/// Where `next` moves the cursor from `cursor` in a history of `len`
/// snapshots, if anywhere.
pub open spec fn next_target(cursor: nat, len: nat) -> Option<nat> {
    if cursor + 1 < len {
        Some(cursor + 1)
    } else {
        None
    }
}

/// Time-travel debugger: a bounded history of state snapshots with a
/// cursor that can move back and forth.
pub struct TimeTravelDebugger {
    snapshots: Vec<SnapshotEntry>,
    current_index: usize,
    max_snapshots: usize,
}

impl TimeTravelDebugger {
    /// The recorded snapshots, oldest first.
    pub closed spec fn history(&self) -> Seq<SnapshotView> {
        self.snapshots@.map_values(|e: SnapshotEntry| e.view())
    }

    /// The cursor position.
    pub closed spec fn cursor(&self) -> nat {
        self.current_index as nat
    }

    /// The history limit.
    pub closed spec fn limit(&self) -> nat {
        self.max_snapshots as nat
    }

    /// The history stays within its limit and the cursor on a snapshot
    /// (or at 0 when there is none).
    pub closed spec fn wf(&self) -> bool {
        &&& self.snapshots@.len() <= self.max_snapshots
        &&& (self.current_index == 0 || self.current_index < self.snapshots@.len())
    }

    /// The snapshot at `index`, as returned to callers.
    pub open spec fn is_snapshot_at(&self, s: StateSnapshot, index: nat) -> bool {
        &&& index < self.history().len()
        &&& s.index == index
        &&& (s.store@, s.action@, s.state@, s.timestamp) == self.history()[index as int]
    }

    /// An empty debugger keeping at most `max_snapshots` snapshots.
    pub fn new(max_snapshots: usize) -> (d: TimeTravelDebugger)
        ensures
            d.wf(),
            d.history().len() == 0,
            d.cursor() == 0,
            d.limit() == max_snapshots,
    {
        let d = TimeTravelDebugger { snapshots: Vec::new(), current_index: 0, max_snapshots };
        proof {
            assert(d.history() =~= Seq::<SnapshotView>::empty());
        }
        d
    }

    fn snapshot_at(&self, index: usize) -> (s: StateSnapshot)
        requires
            index < self.snapshots@.len(),
        ensures
            self.is_snapshot_at(s, index as nat),
    {
        let e = &self.snapshots[index];
        StateSnapshot {
            index,
            store: e.store.clone(),
            action: e.action.clone(),
            state: e.state.clone(),
            timestamp: e.timestamp,
        }
    }

    /// Record a snapshot, stamped with the current time; when the history
    /// is full the oldest snapshot is dropped. The cursor moves to the
    /// newest snapshot.
    pub fn record(&mut self, store: &str, action: &str, state: String)
        requires
            old(self).wf(),
        ensures
            final(self).wf(),
            final(self).limit() == old(self).limit(),
            exists|ts: u64|
                final(self).history() == keep_newest(
                    old(self).history().push((store@, action@, state@, ts)),
                    old(self).limit(),
                ),
            final(self).cursor() == if final(self).history().len() > 0 {
                (final(self).history().len() - 1) as nat
            } else {
                0
            },
    {
        let ts = current_timestamp_ms();
        let entry = SnapshotEntry {
            store: String::from_str(store),
            action: String::from_str(action),
            state,
            timestamp: ts,
        };
        let ghost before = self.history();
        let ghost new_view = entry.view();
        self.snapshots.push(entry);
        proof {
            assert(self.history() =~= before.push(new_view));
        }
        if self.snapshots.len() > self.max_snapshots {
            let ghost pushed = self.history();
            self.snapshots.remove(0);
            proof {
                assert(self.history() =~= pushed.subrange(
                    pushed.len() - self.max_snapshots,
                    pushed.len() as int,
                ));
            }
        }
        self.current_index = if self.snapshots.len() > 0 {
            self.snapshots.len() - 1
        } else {
            0
        };
        proof {
            assert(self.history() == keep_newest(before.push(new_view), old(self).limit()));
        }
    }

    /// Move the cursor to `index` and return that snapshot; out of range,
    /// nothing moves and `None` is returned.
    pub fn jump_to(&mut self, index: usize) -> (r: Option<StateSnapshot>)
        requires
            old(self).wf(),
        ensures
            final(self).wf(),
            final(self).history() == old(self).history(),
            final(self).limit() == old(self).limit(),
            index < old(self).history().len() ==> final(self).cursor() == index && (r matches Some(
                s,
            ) && old(self).is_snapshot_at(s, index as nat)),
            index >= old(self).history().len() ==> final(self).cursor() == old(self).cursor()
                && r is None,
    {
        if index < self.snapshots.len() {
            self.current_index = index;
            Some(self.snapshot_at(index))
        } else {
            None
        }
    }

    /// Move the cursor one snapshot back and return that snapshot.
    pub fn prev(&mut self) -> (r: Option<StateSnapshot>)
        requires
            old(self).wf(),
        ensures
            final(self).wf(),
            final(self).history() == old(self).history(),
            final(self).limit() == old(self).limit(),
            match prev_target(old(self).cursor()) {
                Some(c) => final(self).cursor() == c && (r matches Some(s) && old(
                    self,
                ).is_snapshot_at(s, c)),
                None => final(self).cursor() == old(self).cursor() && r is None,
            },
    {
        if self.current_index > 0 {
            self.jump_to(self.current_index - 1)
        } else {
            None
        }
    }

    /// Move the cursor one snapshot forward and return that snapshot.
    pub fn next(&mut self) -> (r: Option<StateSnapshot>)
        requires
            old(self).wf(),
        ensures
            final(self).wf(),
            final(self).history() == old(self).history(),
            final(self).limit() == old(self).limit(),
            match next_target(old(self).cursor(), old(self).history().len()) {
                Some(c) => final(self).cursor() == c && (r matches Some(s) && old(
                    self,
                ).is_snapshot_at(s, c)),
                None => final(self).cursor() == old(self).cursor() && r is None,
            },
    {
        if self.current_index + 1 < self.snapshots.len() {
            self.jump_to(self.current_index + 1)
        } else {
            None
        }
    }

    /// The snapshot under the cursor.
    pub fn current(&self) -> (r: Option<StateSnapshot>)
        requires
            self.wf(),
        ensures
            self.cursor() < self.history().len() ==> (r matches Some(s) && self.is_snapshot_at(
                s,
                self.cursor(),
            )),
            self.cursor() >= self.history().len() ==> r is None,
    {
        if self.current_index < self.snapshots.len() {
            Some(self.snapshot_at(self.current_index))
        } else {
            None
        }
    }

    /// All snapshots, oldest first, each with its index.
    pub fn snapshots(&self) -> (r: Vec<StateSnapshot>)
        ensures
            r@.len() == self.history().len(),
            forall|k: int| 0 <= k < r@.len() ==> self.is_snapshot_at(#[trigger] r@[k], k as nat),
    {
        let mut r: Vec<StateSnapshot> = Vec::new();
        let mut i: usize = 0;
        while i < self.snapshots.len()
            invariant
                i <= self.snapshots@.len(),
                r@.len() == i,
                forall|k: int| 0 <= k < i ==> self.is_snapshot_at(#[trigger] r@[k], k as nat),
            decreases self.snapshots.len() - i,
        {
            r.push(self.snapshot_at(i));
            i = i + 1;
        }
        r
    }

    /// Remove every snapshot and reset the cursor.
    pub fn clear(&mut self)
        ensures
            final(self).wf(),
            final(self).history().len() == 0,
            final(self).cursor() == 0,
            final(self).limit() == old(self).limit(),
    {
        self.snapshots.clear();
        self.current_index = 0;
        proof {
            assert(self.history() =~= Seq::<SnapshotView>::empty());
        }
    }

    /// The number of snapshots.
    pub fn len(&self) -> (n: usize)
        ensures
            n == self.history().len(),
    {
        self.snapshots.len()
    }

    /// Whether there is no snapshot.
    pub fn is_empty(&self) -> (b: bool)
        ensures
            b == (self.history().len() == 0),
    {
        self.snapshots.len() == 0
    }
}

impl Default for TimeTravelDebugger {
    fn default() -> (d: TimeTravelDebugger)
        ensures
            d.wf(),
            d.history().len() == 0,
            d.cursor() == 0,
            d.limit() == 100,
    {
        TimeTravelDebugger::new(100)
    }
}

/// Stepping back and then forward returns to the same position, and
/// stepping forward and then back does too.
pub proof fn lemma_prev_next_inverse(cursor: nat, len: nat)
    requires
        cursor < len,
    ensures
        prev_target(cursor) matches Some(c) ==> next_target(c, len) == Some(cursor),
        next_target(cursor, len) matches Some(c) ==> prev_target(c) == Some(cursor),
{
}

/// The history never holds more snapshots than its limit.
pub proof fn lemma_snapshots_bounded(d: TimeTravelDebugger)
    requires
        d.wf(),
    ensures
        d.history().len() <= d.limit(),
{
}

} // verus!
