//! Keys on a screen with no dialog open: navigation, the dialogs they open
//! and the work they start.

use vstd::prelude::*;

use crate::acl::{acl_entry_summary, AclEntry};
use crate::app::{cat, cat3, App, Effect, Key};
use crate::dialogs::table_filter;
use crate::modal::{AclFormField, Modal, ModalField};
use crate::messages::{cycled_partition, fresh_messages_view, ConnectorDetailView, MessagesView, SchemaDetailView};
use crate::text::{dec, fmt_usize, starts_with, str_eq};
use crate::table::TableView;
use crate::views::{fresh_group_details, screen_of, GroupDetailsView, Screen, TopicsView, ViewStack};

verus! {

/// The sidebar screen a digit key opens.
pub open spec fn digit_screen(c: char) -> Option<Screen> {
    if c == '1' {
        Some(Screen::Topics)
    } else if c == '2' {
        Some(Screen::Groups)
    } else if c == '3' {
        Some(Screen::Labels)
    } else if c == '4' {
        Some(Screen::Contexts)
    } else if c == '5' {
        Some(Screen::Acls)
    } else if c == '6' {
        Some(Screen::Schemas)
    } else if c == '7' {
        Some(Screen::Connectors)
    } else {
        None
    }
}

/// How many topics a label dialog would change: the marked ones, or the
/// one under the cursor.
pub open spec fn label_targets(v: crate::views::TopicsView) -> nat {
    if v.table.marked@.len() > 0 {
        v.table.marked@.len()
    } else if v.table.current_key() is Some {
        1
    } else {
        0
    }
}

/// The message limit after `+` (`up`) or `-`: 50 more, at most 10000, or
/// 50 fewer, at least 10.
pub open spec fn stepped_limit(limit: usize, up: bool) -> usize {
    if up {
        if limit + 50 <= 10000 { (limit + 50) as usize } else { 10000 }
    } else {
        if limit >= 60 { (limit - 50) as usize } else { 10 }
    }
}

/// `+` and `-` keep a message limit within 10..=10000, and a step up then
/// down comes back to where it was when it fits.
pub proof fn law_limit_steps_stay_in_range(limit: usize, up: bool)
    requires
        10 <= limit <= 10000,
    ensures
        10 <= stepped_limit(limit, up) <= 10000,
        limit <= 9950 ==> stepped_limit(stepped_limit(limit, true), false) == limit,
{
}

/// Only the dialog changed.
pub open spec fn opened(a: App, b: App, m: Modal) -> bool {
    b == (App { modal: Some(m), ..a })
}

/// The ACL form for a new ACL.
pub open spec fn new_acl_form(m: Modal) -> bool {
    m matches Modal::AclForm { edit, replace, resource_type, resource_name, pattern_type, principal, host, operation, permission, field }
        && !edit && replace is None && resource_type@ == "topic"@ && resource_name@.len() == 0
        && pattern_type@ == "literal"@ && principal@ == "User:"@ && host@ == "*"@ && operation@ == "read"@
        && permission@ == "allow"@ && field == AclFormField::ResourceType
}

/// The ACL form editing `e`.
pub open spec fn edit_acl_form(m: Modal, e: AclEntry) -> bool {
    m matches Modal::AclForm { edit, replace, resource_type, resource_name, pattern_type, principal, host, operation, permission, field }
        && edit && (replace matches Some(s) && s.view() == e.view())
        && resource_type == e.resource_type && resource_name == e.resource_name && pattern_type == e.pattern_type
        && principal == e.principal && host == e.host && operation == e.operation && permission == e.permission
        && field == AclFormField::ResourceType
}

/// What Enter does on a screen.
pub open spec fn enter_outcome(a: App, b: App, r: Seq<Effect>) -> bool {
    match a.top() {
        ViewStack::Topics(v) => match v.table.current_key() {
            Some(t) => if a.connected {
                r.len() == 1 && (r[0] matches Effect::OpenMessages { topic } && topic@ == t) && b == a
            } else {
                r.len() == 0 && b.stack@.drop_last() == a.stack@
                    && (b.top() matches ViewStack::Messages(w) && fresh_messages_view(w, t, a.config.defaults.message_limit)
                        && w.partition_ids@.len() == 0)
                    && b == (App { stack: b.stack, ..a })
            },
            None => r.len() == 0 && b == a,
        },
        ViewStack::Groups(v) => match v.table.current_key() {
            Some(g) => {
                &&& b.stack@.drop_last() == a.stack@
                &&& b.top() matches ViewStack::GroupDetails(w) && match crate::views::group_under_cursor(v) {
                    Some(gi) => fresh_group_details(w, g) && w.state == gi.state && w.members == gi.members,
                    None => fresh_group_details(w, g) && w.state@.len() == 0 && w.members == 0,
                }
                &&& b == (App { stack: b.stack, loading: b.loading, status: b.status, ..a })
                &&& a.connected ==> b.loading && b.status@ == "loading offsets for "@ + g + "…"@
                    && r.len() == 1 && (r[0] matches Effect::GroupOffsets { group } && group@ == g)
                &&& !a.connected ==> b.loading == a.loading && b.status@ == "not connected"@ && r.len() == 0
            },
            None => r.len() == 0 && b == a,
        },
        ViewStack::Labels(v) => match v.table.current_key() {
            Some(l) => crate::app::label_shown_outcome(a, b, r, l),
            None => r.len() == 0 && b == a,
        },
        ViewStack::Contexts(v) => match v.table.current_key() {
            Some(n) => if n == a.cluster_name@ {
                b.on_screen(Screen::Topics) && b.stack@.len() == 1 && b.status@ == "context: "@ + n
                    && (a.cached_topics@.len() > 0 ==> r.len() == 0)
                    && (a.cached_topics@.len() == 0 ==> r.len() == 1)
            } else {
                crate::keyed::has_key(crate::config::cluster_entries(a.config.clusters@), n) ==> b.cluster_name@ == n
                    && r == seq![Effect::SaveConfig]
            },
            None => r.len() == 0 && b == a,
        },
        ViewStack::Schemas(v) => match v.table.current_key() {
            Some(s) => (a.has_registry() ==> (b.top() matches ViewStack::SchemaDetail(w) && w.subject@ == s
                && w.versions@.len() == 0)
                && b.stack@.drop_last() == a.stack@ && r.len() == 1 && (r[0] matches Effect::SchemaVersions { subject }
                && subject@ == s) && b.loading && b.status@ == "loading "@ + s + "…"@)
                && (!a.has_registry() ==> r.len() == 0 && b.stack == a.stack && b.loading == a.loading
                    && b.status@ == "schema_registry not configured"@)
                && b == (App { stack: b.stack, loading: b.loading, status: b.status, ..a }),
            None => r.len() == 0 && b == a,
        },
        ViewStack::Connectors(v) => match v.table.current_key() {
            Some(n) => (a.has_connect() ==> (b.top() matches ViewStack::ConnectorDetail(w) && w.name@ == n && w.detail is None)
                && b.stack@.drop_last() == a.stack@ && r.len() == 1 && (r[0] matches Effect::ConnectorDetail { name }
                && name@ == n) && b.loading && b.status@ == "loading connector "@ + n + "…"@)
                && (!a.has_connect() ==> r.len() == 0 && b.stack == a.stack && b.loading == a.loading
                    && b.status@ == "kafka_connect not configured"@)
                && b == (App { stack: b.stack, loading: b.loading, status: b.status, ..a }),
            None => r.len() == 0 && b == a,
        },
        _ => r.len() == 0 && b == a,
    }
}

/// What `d` does: asks before deleting the thing under the cursor, or
/// scrolls a detail screen down.
pub open spec fn delete_outcome(a: App, b: App, r: Seq<Effect>) -> bool {
    &&& r.len() == 0
    &&& match a.top() {
        ViewStack::ConnectorDetail(v) => opened(a, b, Modal::DeleteConnectorConfirm { name: v.name }),
        ViewStack::Acls(v) => match crate::views::acl_under_cursor(v) {
            Some(e) => (b.modal matches Some(Modal::DeleteAclConfirm { spec, summary })
                && spec.view() == e.view() && summary@ == crate::acl::summary_of(e))
                && b == (App { modal: b.modal, ..a }),
            None => b == a,
        },
        ViewStack::Messages(_) => scroll_outcome(a, b, false, 3),
        ViewStack::SchemaDetail(_) => scroll_outcome(a, b, false, 3),
        ViewStack::Labels(v) => match v.table.current_key() {
            Some(l) => b.modal matches Some(Modal::DeleteLabelConfirm { label, topic_count }) && label@ == l
                && topic_count == crate::labels::matching_topics(
                    crate::labels::cluster_topics(a.config.topic_labels@, a.cluster_name@), crate::text::unicode_lower(l)).len(),
            None => b == a,
        },
        ViewStack::Groups(v) => match crate::views::group_under_cursor(v) {
            Some(g) => if g.state@ == "Empty"@ || g.state@ == "Dead"@ {
                b.modal == Some(Modal::DeleteGroupConfirm { group: g.id }) && b == (App { modal: b.modal, ..a })
            } else {
                b.status@ == "cannot delete: group is "@ + g.state@ + " (must be Empty/Dead)"@
                    && b == (App { status: b.status, ..a })
            },
            None => b == a,
        },
        ViewStack::Topics(v) => match v.table.current_key() {
            Some(t) => if crate::events::begins(t, "_"@) {
                b.status@ == "cannot delete internal topics"@ && b == (App { status: b.status, ..a })
            } else {
                b.modal matches Some(Modal::DeleteConfirm { topic }) && topic@ == t && b == (App { modal: b.modal, ..a })
            },
            None => b == a,
        },
        _ => b == a,
    }
}

/// The message screen on top becomes `w` and, when connected, its
/// messages load again; the live poll clock becomes `poll`.
pub open spec fn messages_reloaded(a: App, b: App, r: Seq<Effect>, w: MessagesView, poll: Option<u64>) -> bool {
    &&& b.stack@ == a.stack@.drop_last().push(ViewStack::Messages(w))
    &&& a.connected ==> b.loading
        && b.status@ == "loading messages for "@ + w.topic@ + "…"@
        && r == seq![Effect::FetchMessages {
            topic: w.topic, partition: w.partition, limit: w.message_limit, from_end: w.from_end, sort_by_time: w.sort_by_time,
        }]
        && b == (App { stack: b.stack, loading: true, status: b.status, last_live_poll: poll, ..a })
    &&& !a.connected ==> r.len() == 0 && b == (App { stack: b.stack, last_live_poll: poll, ..a })
}

/// `b` reads from the end, `t` from the beginning (both stop live
/// follow), `s` flips the sort by time; then the messages load again.
pub open spec fn message_setting_outcome(a: App, b: App, r: Seq<Effect>, key: Key) -> bool {
    match a.top() {
        ViewStack::Messages(v) => if key == Key::Char('s') {
            messages_reloaded(a, b, r, MessagesView { sort_by_time: !v.sort_by_time, ..v }, a.last_live_poll)
        } else {
            messages_reloaded(a, b, r, MessagesView { from_end: key == Key::Char('b'), live: false, ..v }, None)
        },
        _ => r.len() == 0 && b == a,
    }
}

/// A Kafka Connect request from the connector screen: asked for when the
/// cluster has Kafka Connect, else refused on the status line.
pub open spec fn connect_request_outcome(a: App, b: App, r: Seq<Effect>, work: Effect, doing: Seq<char>) -> bool {
    &&& b == (App { loading: b.loading, status: b.status, ..a })
    &&& a.has_connect() ==> b.loading && b.status@ == doing && r == seq![work]
    &&& !a.has_connect() ==> b.loading == a.loading && b.status@ == "kafka_connect not configured"@ && r.len() == 0
}

/// `R`: restarts the connector shown, or opens the offset reset dialog for
/// the group shown or under the cursor.
pub open spec fn restart_key_outcome(a: App, b: App, r: Seq<Effect>) -> bool {
    match a.top() {
        ViewStack::ConnectorDetail(v) => connect_request_outcome(a, b, r, Effect::ConnectorRestart { name: v.name },
            "restarting "@ + v.name@ + "…"@),
        ViewStack::GroupDetails(v) => r.len() == 0 && (b.modal matches Some(Modal::ResetOffsets { group, spec })
            && group == v.group && spec@.len() == 0) && b == (App { modal: b.modal, ..a }),
        ViewStack::Groups(v) => r.len() == 0 && match v.table.current_key() {
            Some(g) => (b.modal matches Some(Modal::ResetOffsets { group, spec }) && group@ == g && spec@.len() == 0)
                && b == (App { modal: b.modal, ..a }),
            None => b == a,
        },
        _ => r.len() == 0 && b == a,
    }
}

/// `P`/`O`: pauses or resumes the connector shown.
pub open spec fn pause_resume_outcome(a: App, b: App, r: Seq<Effect>, pause: bool) -> bool {
    match a.top() {
        ViewStack::ConnectorDetail(v) => if pause {
            connect_request_outcome(a, b, r, Effect::ConnectorPause { name: v.name }, "pausing "@ + v.name@ + "…"@)
        } else {
            connect_request_outcome(a, b, r, Effect::ConnectorResume { name: v.name }, "resuming "@ + v.name@ + "…"@)
        },
        _ => r.len() == 0 && b == a,
    }
}


/// What a key does on a screen (no dialog open).
pub open spec fn key_outcome(a: App, b: App, r: Seq<Effect>, key: Key) -> bool {
    if a.show_partitions_popup {
        r.len() == 0 && if key == Key::Esc || key == Key::Char('q') {
            b == (App { show_partitions_popup: false, ..a })
        } else {
            b == a
        }
    } else if key == Key::Char('q') {
        r.len() == 0 && b == (App { should_quit: true, ..a })
    } else if key == Key::Char('?') {
        r.len() == 0 && b.stack@ == a.stack@.drop_last().push(a.top().help_toggled()) && b == (App { stack: b.stack, ..a })
    } else if key == Key::Char('T') {
        &&& r.len() == 0
        &&& b.theme.active == crate::theme::palette_order()[(crate::theme::palette_index(a.theme.active) + 1) % 4]
        &&& b.status@ == "theme: "@ + crate::theme::palette_name(b.theme.active)
        &&& b == (App { theme: b.theme, status: b.status, ..a })
    } else if key == Key::Char('/') {
        r.len() == 0 && match table_filter(a.top()) {
            Some(f) => b.modal == Some(Modal::Filter) && b.filter_buf@ == f
                && b == (App { modal: b.modal, filter_buf: b.filter_buf, ..a }),
            None => b == a,
        }
    } else if key matches Key::Char(c) && digit_screen(c) is Some {
        crate::app::nav_switch_outcome(a, b, r, digit_screen(key->Char_0)->0)
    } else if key == Key::Char(':') {
        r.len() == 0 && b.modal == Some(Modal::Command) && b.command_buf@.len() == 0
            && b == (App { modal: b.modal, command_buf: b.command_buf, ..a })
    } else if key == Key::Char('c') {
        r.len() == 0 && if a.on_screen(Screen::Topics) {
            b.modal matches Some(m) && (m matches Modal::CreateTopic { name, partitions, field } && name@.len() == 0
                && partitions@ == "3"@ && field == ModalField::First) && b == (App { modal: b.modal, ..a })
        } else if a.on_screen(Screen::Acls) {
            b.modal matches Some(m) && new_acl_form(m) && b == (App { modal: b.modal, ..a })
        } else {
            b == a
        }
    } else if key == Key::Char('n') {
        r.len() == 0 && match a.top() {
            ViewStack::Topics(v) => match v.table.current_key() {
                Some(t) => (b.modal matches Some(Modal::Produce { topic, key, payload, field }) && topic@ == t
                    && key@.len() == 0 && payload@.len() == 0 && field == ModalField::First) && b == (App { modal: b.modal, ..a }),
                None => b == a,
            },
            ViewStack::Messages(v) => (b.modal matches Some(Modal::Produce { topic, key, payload, field }) && topic == v.topic
                && key@.len() == 0 && payload@.len() == 0 && field == ModalField::First) && b == (App { modal: b.modal, ..a }),
            _ => b == a,
        }
    } else if key == Key::Enter {
        enter_outcome(a, b, r)
    } else if key == Key::Esc {
        r.len() == 0 && crate::app::pop_outcome(a, b)
    } else if key == Key::Char('j') || key == Key::Down || key == Key::Char('k') || key == Key::Up {
        crate::app::nav_outcome(a, b, r, key == Key::Char('j') || key == Key::Down)
    } else if key == Key::Char('D') {
        r.len() == 0 && marks_cleared_outcome(a, b)
    } else if key == Key::Char('d') {
        delete_outcome(a, b, r)
    } else if key == Key::Char('l') {
        r.len() == 0 && match a.top() {
            ViewStack::Messages(v) => b.modal matches Some(Modal::MessageLimit { value }) && value@ == dec(v.message_limit as nat)
                && b == (App { modal: b.modal, ..a }),
            _ => b == a,
        }
    } else if key == Key::Char('+') || key == Key::Char('=') || key == Key::Char('-') {
        match a.top() {
            ViewStack::Messages(v) => crate::app::limit_set_outcome(a, b, r, stepped_limit(v.message_limit, key != Key::Char('-'))),
            _ => r.len() == 0 && b == a,
        }
    } else if key == Key::Char('o') {
        r.len() == 0 && pretty_toggle_outcome(a, b)
    } else if key == Key::Char('R') {
        restart_key_outcome(a, b, r)
    } else if key == Key::Char('P') || key == Key::Char('O') {
        pause_resume_outcome(a, b, r, key == Key::Char('P'))
    } else if key == Key::Char('y') {
        crate::app::copy_outcome(a, b, r)
    } else if key == Key::Char('g') {
        crate::app::nav_switch_outcome(a, b, r, Screen::Groups)
    } else if key == Key::Char('f') {
        crate::app::live_toggle_outcome(a, b, r)
    } else if key == Key::Char('[') || key == Key::Char(']') {
        crate::app::poll_step_outcome(a, b, r, if key == Key::Char('[') { -1i64 } else { 1i64 })
    } else if key == Key::Char('b') || key == Key::Char('t') || key == Key::Char('s') {
        message_setting_outcome(a, b, r, key)
    } else if key == Key::Char('u') || key == Key::PageUp || key == Key::PageDown {
        r.len() == 0 && scroll_outcome(a, b, key != Key::PageDown, if key == Key::Char('u') { 3u16 } else { 10u16 })
    } else if key == Key::Char(' ') {
        r.len() == 0 && mark_toggle_outcome(a, b)
    } else if key == Key::Char('L') || key == Key::Char('U') {
        r.len() == 0 && match a.top() {
            ViewStack::Topics(v) => if label_targets(v) == 0 {
                b.status@ == "select topic(s) first"@ && b == (App { status: b.status, ..a })
            } else {
                opened(a, b, Modal::TopicLabel { label: b.modal->0->TopicLabel_label, add: key == Key::Char('L'),
                    topic_count: label_targets(v) as usize }) && b.modal->0->TopicLabel_label@.len() == 0
            },
            _ => b == a,
        }
    } else if key == Key::Char('e') {
        r.len() == 0 && edit_acl_outcome(a, b)
    } else if key == Key::Char('i') {
        if a.on_screen(Screen::Messages) {
            crate::app::partitions_request_outcome(a, b, r)
        } else {
            r.len() == 0 && b == a
        }
    } else if key == Key::Char('r') {
        crate::app::refresh_outcome(a, b, r)
    } else if key == Key::Char('p') {
        match a.top() {
            ViewStack::Messages(v) => messages_reloaded(a, b, r,
                MessagesView { partition: cycled_partition(v.partition_ids@, v.partition), ..v }, a.last_live_poll),
            _ => crate::app::partitions_request_outcome(a, b, r),
        }
    } else {
        r.len() == 0 && b == a
    }
}

fn copy_acl_entry(e: &AclEntry) -> (r: AclEntry)
    ensures
        r == *e,
{
    AclEntry {
        resource_type: e.resource_type.clone(),
        resource_name: e.resource_name.clone(),
        pattern_type: e.pattern_type.clone(),
        principal: e.principal.clone(),
        host: e.host.clone(),
        operation: e.operation.clone(),
        permission: e.permission.clone(),
    }
}

/// Scrolling the detail pane of the screen shown by `lines`, up or down.
pub open spec fn scroll_outcome(a: App, b: App, up: bool, lines: u16) -> bool {
    &&& b.stack@.len() == a.stack@.len()
    &&& b.stack@.drop_last() == a.stack@.drop_last()
    &&& screen_of(b.top()) == screen_of(a.top())
    &&& b == (App { stack: b.stack, ..a })
    &&& a.top() matches ViewStack::Messages(v) ==> b.top() == ViewStack::Messages(MessagesView {
            detail_scroll: if up {
                if v.detail_scroll >= lines { (v.detail_scroll - lines) as u16 } else { 0u16 }
            } else {
                if v.detail_scroll + lines <= u16::MAX { (v.detail_scroll + lines) as u16 } else { u16::MAX }
            },
            ..v
        })
    &&& a.top() matches ViewStack::SchemaDetail(v) ==> b.top() == ViewStack::SchemaDetail(SchemaDetailView {
            detail_scroll: if up {
                if v.detail_scroll >= lines { (v.detail_scroll - lines) as usize } else { 0usize }
            } else {
                if v.detail_scroll + lines <= usize::MAX { (v.detail_scroll + lines) as usize } else { usize::MAX }
            },
            ..v
        })
    &&& a.top() matches ViewStack::ConnectorDetail(v) ==> b.top() == ViewStack::ConnectorDetail(ConnectorDetailView {
            detail_scroll: if up {
                if v.detail_scroll >= lines { (v.detail_scroll - lines) as usize } else { 0usize }
            } else {
                if v.detail_scroll + lines <= usize::MAX { (v.detail_scroll + lines) as usize } else { usize::MAX }
            },
            ..v
        })
    &&& !(a.on_screen(Screen::Messages) || a.on_screen(Screen::SchemaDetail)
            || a.on_screen(Screen::ConnectorDetail)) ==> b == a
}

/// `o` on the message screen: pretty-printing of JSON payloads flips.
pub open spec fn pretty_toggle_outcome(a: App, b: App) -> bool {
    match a.top() {
        ViewStack::Messages(v) => {
            &&& b.stack@ == a.stack@.drop_last().push(ViewStack::Messages(MessagesView { pretty_json: !v.pretty_json, ..v }))
            &&& b.status@ == if !v.pretty_json { "JSON pretty-print on (o toggle)"@ } else { "JSON pretty-print off (o toggle)"@ }
            &&& b == (App { stack: b.stack, status: b.status, ..a })
        },
        _ => b == a,
    }
}

/// `e` on the ACL list: the form editing the ACL under the cursor, or a
/// note that there is none.
pub open spec fn edit_acl_outcome(a: App, b: App) -> bool {
    match a.top() {
        ViewStack::Acls(v) => match crate::views::acl_under_cursor(v) {
            Some(e) => (b.modal matches Some(m) && edit_acl_form(m, e)) && b == (App { modal: b.modal, ..a }),
            None => b.status@ == "select an ACL first"@ && b == (App { status: b.status, ..a }),
        },
        _ => b == a,
    }
}

/// Space on the topic list: the topic under the cursor is marked or
/// unmarked, and the status line counts the marks.
pub open spec fn mark_toggle_outcome(a: App, b: App) -> bool {
    match a.top() {
        ViewStack::Topics(v) => {
            &&& b.stack@.len() == a.stack@.len()
            &&& b.stack@.drop_last() == a.stack@.drop_last()
            &&& b.top() matches ViewStack::Topics(w) && w == (TopicsView { table: w.table, ..v })
                && crate::table::mark_flipped(v.table, w.table)
                && b.status@ == if w.table.marked@.len() > 0 {
                    dec(w.table.marked@.len()) + " topic(s) marked (Space toggle, D clear)"@
                } else {
                    "mark cleared"@
                }
            &&& b == (App { stack: b.stack, status: b.status, ..a })
        },
        _ => b == a,
    }
}

/// `D` on the topic list: every mark goes.
pub open spec fn marks_cleared_outcome(a: App, b: App) -> bool {
    match a.top() {
        ViewStack::Topics(v) => {
            &&& b.stack@.len() == a.stack@.len()
            &&& b.stack@.drop_last() == a.stack@.drop_last()
            &&& b.top() matches ViewStack::Topics(w) && w.table.marked@.len() == 0
                && w == (TopicsView { table: TableView { marked: w.table.marked, ..v.table }, ..v })
            &&& b.status@ == "marks cleared"@
            &&& b == (App { stack: b.stack, status: b.status, ..a })
        },
        _ => b == a,
    }
}

impl App {
    /// The ACL form for a new ACL.
    pub fn open_acl_create(&mut self)
        ensures
            final(self).modal matches Some(m) && new_acl_form(m),
            *final(self) == (App { modal: final(self).modal, ..*old(self) }),
    {
        self.modal = Some(Modal::AclForm {
            edit: false,
            replace: None,
            resource_type: String::from_str("topic"),
            resource_name: String::new(),
            pattern_type: String::from_str("literal"),
            principal: String::from_str("User:"),
            host: String::from_str("*"),
            operation: String::from_str("read"),
            permission: String::from_str("allow"),
            field: AclFormField::ResourceType,
        });
    }

    /// The ACL form editing `entry`.
    pub fn open_acl_edit(&mut self, entry: &AclEntry)
        ensures
            final(self).modal matches Some(m) && edit_acl_form(m, *entry),
            *final(self) == (App { modal: final(self).modal, ..*old(self) }),
    {
        self.modal = Some(Modal::AclForm {
            edit: true,
            replace: Some(entry.to_spec()),
            resource_type: entry.resource_type.clone(),
            resource_name: entry.resource_name.clone(),
            pattern_type: entry.pattern_type.clone(),
            principal: entry.principal.clone(),
            host: entry.host.clone(),
            operation: entry.operation.clone(),
            permission: entry.permission.clone(),
            field: AclFormField::ResourceType,
        });
    }

    /// Enter: opens what is under the cursor (see `enter_outcome`).
    pub fn enter(&mut self) -> (r: Vec<Effect>)
        requires
            old(self).wf(),
        ensures
            final(self).wf(),
            enter_outcome(*old(self), *final(self), r@),
    {
        let n = self.stack.len();
        match &self.stack[n - 1] {
            ViewStack::Topics(v) => {
                let topic = match v.selected_topic() {
                    Some(t) => t.clone(),
                    None => {
                        return Vec::new();
                    },
                };
                if self.connected {
                    let mut r: Vec<Effect> = Vec::new();
                    r.push(Effect::OpenMessages { topic });
                    r
                } else {
                    let mv = MessagesView::new(topic, self.config.defaults.message_limit);
                    self.stack.push(ViewStack::Messages(mv));
                    assert(self.stack@.drop_last() =~= old(self).stack@);
                    self.reload_messages()
                }
            },
            ViewStack::Groups(v) => {
                let id = match v.selected_id() {
                    Some(g) => g.clone(),
                    None => {
                        return Vec::new();
                    },
                };
                let mut details = GroupDetailsView::new(id.clone());
                if let Some(g) = v.selected_group() {
                    details.set_meta(g.state.clone(), g.members);
                }
                self.stack.push(ViewStack::GroupDetails(details));
                assert(self.stack@.drop_last() =~= old(self).stack@);
                self.reload_group_offsets(id)
            },
            ViewStack::Labels(v) => {
                let label = match v.selected_label() {
                    Some(l) => l.clone(),
                    None => {
                        return Vec::new();
                    },
                };
                self.show_label(label)
            },
            ViewStack::Contexts(v) => {
                let name = match v.selected_context() {
                    Some(c) => c,
                    None => {
                        return Vec::new();
                    },
                };
                if str_eq(name.as_str(), self.cluster_name.as_str()) {
                    let r = self.switch_nav(Screen::Topics);
                    self.status = cat("context: ", name.as_str());
                    r
                } else {
                    self.switch_cluster(name.as_str())
                }
            },
            ViewStack::Schemas(v) => {
                let subject = match v.selected_subject() {
                    Some(s) => s.clone(),
                    None => {
                        return Vec::new();
                    },
                };
                self.open_schema_detail(subject)
            },
            ViewStack::Connectors(v) => {
                let name = match v.selected_name() {
                    Some(c) => c.clone(),
                    None => {
                        return Vec::new();
                    },
                };
                self.open_connector_detail(name)
            },
            _ => Vec::new(),
        }
    }

    fn open_filter(&mut self)
        requires
            old(self).wf(),
        ensures
            match table_filter(old(self).top()) {
                Some(f) => final(self).modal == Some(Modal::Filter) && final(self).filter_buf@ == f
                    && *final(self) == (App { modal: final(self).modal, filter_buf: final(self).filter_buf, ..*old(self) }),
                None => *final(self) == *old(self),
            },
    {
        let n = self.stack.len();
        let f = match &self.stack[n - 1] {
            ViewStack::Topics(v) => v.table.filter.clone(),
            ViewStack::Groups(v) => v.table.filter.clone(),
            ViewStack::Labels(v) => v.table.filter.clone(),
            ViewStack::Contexts(v) => v.table.filter.clone(),
            ViewStack::Acls(v) => v.table.filter.clone(),
            ViewStack::Schemas(v) => v.table.filter.clone(),
            ViewStack::Connectors(v) => v.table.filter.clone(),
            _ => {
                return;
            },
        };
        self.filter_buf = f;
        self.modal = Some(Modal::Filter);
    }

    /// Space on the topic list: marks or unmarks the topic under the cursor.
    fn toggle_topic_mark(&mut self)
        requires
            old(self).wf(),
        ensures
            final(self).wf(),
            mark_toggle_outcome(*old(self), *final(self)),
    {
        let n = self.stack.len();
        if !matches!(&self.stack[n - 1], ViewStack::Topics(_)) {
            return;
        }
        let mut top = self.stack.pop().unwrap();
        let mut count: usize = 0;
        if let ViewStack::Topics(v) = &mut top {
            v.toggle_mark();
            count = v.table.marked_count();
        }
        self.stack.push(top);
        assert(self.stack@.drop_last() =~= old(self).stack@.drop_last());
        self.status = if count > 0 {
            let c = fmt_usize(count);
            cat(c.as_str(), " topic(s) marked (Space toggle, D clear)")
        } else {
            String::from_str("mark cleared")
        };
    }

    /// `L` / `U` on the topic list: the dialog adding or removing a label on
    /// the marked topics (or the one under the cursor).
    fn open_topic_label(&mut self, add: bool)
        requires
            old(self).wf(),
        ensures
            final(self).wf(),
            match old(self).top() {
                ViewStack::Topics(v) => if label_targets(v) == 0 {
                    final(self).status@ == "select topic(s) first"@ && *final(self) == (App { status: final(self).status, ..*old(self) })
                } else {
                    opened(*old(self), *final(self), Modal::TopicLabel { label: final(self).modal->0->TopicLabel_label, add,
                        topic_count: label_targets(v) as usize }) && final(self).modal->0->TopicLabel_label@.len() == 0
                },
                _ => *final(self) == *old(self),
            },
    {
        let n = self.stack.len();
        let count = match &self.stack[n - 1] {
            ViewStack::Topics(v) => {
                let names = v.target_topic_names();
                assert(crate::text::strs(names@).len() == names@.len());
                assert(crate::text::strs(v.table.marked@).len() == v.table.marked@.len());
                names.len()
            },
            _ => {
                return;
            },
        };
        if count == 0 {
            self.status = String::from_str("select topic(s) first");
        } else {
            self.modal = Some(Modal::TopicLabel { label: String::new(), add, topic_count: count });
        }
    }

    fn clear_topic_marks(&mut self)
        requires
            old(self).wf(),
        ensures
            final(self).wf(),
            marks_cleared_outcome(*old(self), *final(self)),
    {
        let n = self.stack.len();
        if !matches!(&self.stack[n - 1], ViewStack::Topics(_)) {
            return;
        }
        let mut top = self.stack.pop().unwrap();
        if let ViewStack::Topics(v) = &mut top {
            v.clear_marks();
        }
        self.stack.push(top);
        assert(self.stack@.drop_last() =~= old(self).stack@.drop_last());
        self.status = String::from_str("marks cleared");
    }

    fn create_key(&mut self)
        requires
            old(self).wf(),
        ensures
            old(self).on_screen(Screen::Topics) ==> (final(self).modal matches Some(m) && (m matches Modal::CreateTopic {
                name, partitions, field } && name@.len() == 0 && partitions@ == "3"@ && field == ModalField::First))
                && *final(self) == (App { modal: final(self).modal, ..*old(self) }),
            old(self).on_screen(Screen::Acls) ==> (final(self).modal matches Some(m) && new_acl_form(m))
                && *final(self) == (App { modal: final(self).modal, ..*old(self) }),
            !old(self).on_screen(Screen::Topics) && !old(self).on_screen(Screen::Acls) ==> *final(self) == *old(self),
    {
        let n = self.stack.len();
        match &self.stack[n - 1] {
            ViewStack::Topics(_) => {
                self.modal = Some(Modal::CreateTopic {
                    name: String::new(),
                    partitions: String::from_str("3"),
                    field: ModalField::First,
                });
            },
            ViewStack::Acls(_) => self.open_acl_create(),
            _ => {},
        }
    }

    fn edit_acl_key(&mut self)
        requires
            old(self).wf(),
        ensures
            final(self).wf(),
            edit_acl_outcome(*old(self), *final(self)),
    {
        let n = self.stack.len();
        let entry = match &self.stack[n - 1] {
            ViewStack::Acls(v) => match v.selected_acl() {
                Some(a) => Some(copy_acl_entry(a)),
                None => None,
            },
            _ => {
                return;
            },
        };
        match entry {
            Some(e) => self.open_acl_edit(&e),
            None => {
                self.status = String::from_str("select an ACL first");
            },
        }
    }

    fn produce_key(&mut self)
        requires
            old(self).wf(),
        ensures
            match old(self).top() {
                ViewStack::Topics(v) => match v.table.current_key() {
                    Some(t) => final(self).modal matches Some(Modal::Produce { topic, key, payload, field }) && topic@ == t
                        && key@.len() == 0 && payload@.len() == 0 && field == ModalField::First,
                    None => *final(self) == *old(self),
                },
                ViewStack::Messages(v) => final(self).modal matches Some(Modal::Produce { topic, key, payload, field })
                    && topic == v.topic && key@.len() == 0 && payload@.len() == 0 && field == ModalField::First,
                _ => *final(self) == *old(self),
            },
            final(self).wf(),
            *final(self) == (App { modal: final(self).modal, ..*old(self) }),
    {
        if let Some(topic) = self.selected_topic_name() {
            self.modal = Some(Modal::Produce { topic, key: String::new(), payload: String::new(), field: ModalField::First });
        }
    }

    /// Changes the message screen with `f`, then reloads it.
    fn message_setting(&mut self, key: Key) -> (r: Vec<Effect>)
        requires
            old(self).wf(),
            key == Key::Char('b') || key == Key::Char('t') || key == Key::Char('s'),
        ensures
            final(self).wf(),
            message_setting_outcome(*old(self), *final(self), r@, key),
    {
        let n = self.stack.len();
        if !matches!(&self.stack[n - 1], ViewStack::Messages(_)) {
            return Vec::new();
        }
        let mut top = self.stack.pop().unwrap();
        if let ViewStack::Messages(v) = &mut top {
            if key == Key::Char('s') {
                v.sort_by_time = !v.sort_by_time;
            } else {
                v.from_end = key == Key::Char('b');
                v.live = false;
            }
        }
        self.stack.push(top);
        if key != Key::Char('s') {
            self.last_live_poll = None;
        }
        self.reload_messages()
    }

    fn limit_dialog(&mut self)
        requires
            old(self).wf(),
        ensures
            match old(self).top() {
                ViewStack::Messages(v) => (final(self).modal matches Some(Modal::MessageLimit { value })
                    && value@ == dec(v.message_limit as nat)) && *final(self) == (App { modal: final(self).modal, ..*old(self) }),
                _ => *final(self) == *old(self),
            },
    {
        let n = self.stack.len();
        let limit = match &self.stack[n - 1] {
            ViewStack::Messages(v) => v.message_limit,
            _ => {
                return;
            },
        };
        self.modal = Some(Modal::MessageLimit { value: fmt_usize(limit) });
    }

    /// `+`/`=` raise the message limit by 50 (at most 10000), `-` lowers it
    /// by 50 (at least 10).
    fn step_limit(&mut self, up: bool) -> (r: Vec<Effect>)
        requires
            old(self).wf(),
        ensures
            final(self).wf(),
            match old(self).top() {
                ViewStack::Messages(v) => crate::app::limit_set_outcome(*old(self), *final(self), r@,
                    stepped_limit(v.message_limit, up)),
                _ => r@.len() == 0 && *final(self) == *old(self),
            },
    {
        let n = self.stack.len();
        let limit = match &self.stack[n - 1] {
            ViewStack::Messages(v) => v.message_limit,
            _ => {
                return Vec::new();
            },
        };
        let next = if up {
            if limit <= 9950 { limit + 50 } else { 10000 }
        } else {
            if limit >= 60 { limit - 50 } else { 10 }
        };
        self.set_message_limit(next)
    }

    fn toggle_pretty(&mut self)
        requires
            old(self).wf(),
        ensures
            final(self).wf(),
            pretty_toggle_outcome(*old(self), *final(self)),
    {
        let n = self.stack.len();
        if !matches!(&self.stack[n - 1], ViewStack::Messages(_)) {
            return;
        }
        let mut top = self.stack.pop().unwrap();
        let mut on = false;
        if let ViewStack::Messages(v) = &mut top {
            v.pretty_json = !v.pretty_json;
            on = v.pretty_json;
        }
        self.stack.push(top);
        assert(self.stack@.drop_last() =~= old(self).stack@.drop_last());
        self.status = if on {
            String::from_str("JSON pretty-print on (o toggle)")
        } else {
            String::from_str("JSON pretty-print off (o toggle)")
        };
    }

    /// `R`: restarts the connector shown, or asks how to reset the offsets
    /// of the group under the cursor.
    fn restart_key(&mut self) -> (r: Vec<Effect>)
        requires
            old(self).wf(),
        ensures
            final(self).wf(),
            restart_key_outcome(*old(self), *final(self), r@),
    {
        let n = self.stack.len();
        if let ViewStack::ConnectorDetail(v) = &self.stack[n - 1] {
            let name = v.name.clone();
            return self.run_connect_restart(name);
        }
        if let Some(group) = self.selected_group_id() {
            self.modal = Some(Modal::ResetOffsets { group, spec: String::new() });
        }
        Vec::new()
    }

    /// `P` pauses, `O` resumes the connector shown.
    fn pause_resume(&mut self, pause: bool) -> (r: Vec<Effect>)
        requires
            old(self).wf(),
        ensures
            final(self).wf(),
            pause_resume_outcome(*old(self), *final(self), r@, pause),
    {
        let n = self.stack.len();
        if let ViewStack::ConnectorDetail(v) = &self.stack[n - 1] {
            let name = v.name.clone();
            if pause {
                return self.run_connect_pause(name);
            } else {
                return self.run_connect_resume(name);
            }
        }
        Vec::new()
    }

    /// Scrolls the detail pane of the screen shown by `lines`.
    fn scroll(&mut self, up: bool, lines: u16)
        requires
            old(self).wf(),
        ensures
            final(self).wf(),
            scroll_outcome(*old(self), *final(self), up, lines),
    {
        let n = self.stack.len();
        match &self.stack[n - 1] {
            ViewStack::Messages(_) | ViewStack::SchemaDetail(_) | ViewStack::ConnectorDetail(_) => {},
            _ => {
                return;
            },
        }
        let ghost before = self.stack@;
        let mut top = self.stack.pop().unwrap();
        match &mut top {
            ViewStack::Messages(v) => {
                if up {
                    v.scroll_detail_up(lines);
                } else {
                    v.scroll_detail_down(lines);
                }
            },
            ViewStack::SchemaDetail(v) => {
                if up {
                    v.scroll_detail_up(lines as usize);
                } else {
                    v.scroll_detail_down(lines as usize);
                }
            },
            ViewStack::ConnectorDetail(v) => {
                if up {
                    v.scroll_detail_up(lines as usize);
                } else {
                    v.scroll_detail_down(lines as usize);
                }
            },
            _ => {},
        }
        self.stack.push(top);
        assert(self.stack@.drop_last() =~= before.drop_last());
    }

    /// `d` (see `delete_outcome`).
    fn delete_key(&mut self) -> (r: Vec<Effect>)
        requires
            old(self).wf(),
        ensures
            final(self).wf(),
            delete_outcome(*old(self), *final(self), r@),
    {
        let n = self.stack.len();
        match &self.stack[n - 1] {
            ViewStack::ConnectorDetail(v) => {
                self.modal = Some(Modal::DeleteConnectorConfirm { name: v.name.clone() });
            },
            ViewStack::Acls(v) => {
                if let Some(acl) = v.selected_acl() {
                    let spec = acl.to_spec();
                    let summary = acl_entry_summary(acl);
                    self.modal = Some(Modal::DeleteAclConfirm { spec, summary });
                }
            },
            ViewStack::Messages(_) | ViewStack::SchemaDetail(_) => {
                self.scroll(false, 3);
            },
            ViewStack::Labels(v) => {
                if let Some(label) = v.selected_label() {
                    let label = label.clone();
                    let count = self.config.topic_labels.label_topic_count(self.cluster_name.as_str(), label.as_str());
                    self.modal = Some(Modal::DeleteLabelConfirm { label, topic_count: count });
                }
            },
            ViewStack::Groups(v) => {
                if let Some(g) = v.selected_group() {
                    if !g.is_empty_or_dead() {
                        self.status = cat3("cannot delete: group is ", g.state.as_str(), " (must be Empty/Dead)");
                    } else {
                        self.modal = Some(Modal::DeleteGroupConfirm { group: g.id.clone() });
                    }
                }
            },
            ViewStack::Topics(v) => {
                if let Some(t) = v.selected_topic() {
                    if starts_with(t.as_str(), "_") {
                        self.status = String::from_str("cannot delete internal topics");
                    } else {
                        self.modal = Some(Modal::DeleteConfirm { topic: t.clone() });
                    }
                }
            },
            _ => {},
        }
        Vec::new()
    }

    /// A key on a screen with no dialog open (see `key_outcome`).
    pub fn handle_key(&mut self, key: Key) -> (r: Vec<Effect>)
        requires
            old(self).wf(),
        ensures
            final(self).wf(),
            key_outcome(*old(self), *final(self), r@, key),
    {
        if self.show_partitions_popup {
            if key == Key::Esc || key == Key::Char('q') {
                self.show_partitions_popup = false;
            }
            return Vec::new();
        }
        match key {
            Key::Char(c) => self.char_key(c),
            Key::Enter => self.enter(),
            Key::Esc => {
                self.pop();
                Vec::new()
            },
            Key::Down => self.nav_down(),
            Key::Up => self.nav_up(),
            Key::PageUp => {
                self.scroll(true, 10);
                Vec::new()
            },
            Key::PageDown => {
                self.scroll(false, 10);
                Vec::new()
            },
            _ => Vec::new(),
        }
    }

    fn char_key(&mut self, c: char) -> (r: Vec<Effect>)
        requires
            old(self).wf(),
            !old(self).show_partitions_popup,
        ensures
            final(self).wf(),
            key_outcome(*old(self), *final(self), r@, Key::Char(c)),
    {
        if c == 'q' {
            self.should_quit = true;
            Vec::new()
        } else if c == '?' {
            self.toggle_help();
            Vec::new()
        } else if c == 'T' {
            let p = crate::theme::cycle_palette(&mut self.theme);
            self.status = cat("theme: ", p.as_str());
            Vec::new()
        } else if c == 'r' {
            self.refresh_current()
        } else if c == '/' {
            self.open_filter();
            Vec::new()
        } else if c == '1' {
            self.switch_nav(Screen::Topics)
        } else if c == '2' {
            self.switch_nav(Screen::Groups)
        } else if c == '3' {
            self.switch_nav(Screen::Labels)
        } else if c == '4' {
            self.switch_nav(Screen::Contexts)
        } else if c == '5' {
            self.switch_nav(Screen::Acls)
        } else if c == '6' {
            self.switch_nav(Screen::Schemas)
        } else if c == '7' {
            self.switch_nav(Screen::Connectors)
        } else if c == ' ' {
            self.toggle_topic_mark();
            Vec::new()
        } else if c == 'L' || c == 'U' {
            self.open_topic_label(c == 'L');
            Vec::new()
        } else if c == 'D' {
            self.clear_topic_marks();
            Vec::new()
        } else if c == ':' {
            self.command_buf = String::new();
            self.modal = Some(Modal::Command);
            Vec::new()
        } else if c == 'c' {
            self.create_key();
            Vec::new()
        } else if c == 'e' {
            self.edit_acl_key();
            Vec::new()
        } else if c == 'n' {
            self.produce_key();
            Vec::new()
        } else if c == 'j' {
            self.nav_down()
        } else if c == 'k' {
            self.nav_up()
        } else if c == 'p' {
            let n = self.stack.len();
            if matches!(&self.stack[n - 1], ViewStack::Messages(_)) {
                let mut top = self.stack.pop().unwrap();
                if let ViewStack::Messages(v) = &mut top {
                    v.cycle_partition();
                }
                self.stack.push(top);
                self.reload_messages()
            } else {
                self.show_partitions()
            }
        } else if c == 'i' {
            let n = self.stack.len();
            if matches!(&self.stack[n - 1], ViewStack::Messages(_)) {
                self.show_partitions()
            } else {
                Vec::new()
            }
        } else if c == 'b' || c == 't' || c == 's' {
            self.message_setting(Key::Char(c))
        } else if c == 'l' {
            self.limit_dialog();
            Vec::new()
        } else if c == '+' || c == '=' {
            self.step_limit(true)
        } else if c == '-' {
            self.step_limit(false)
        } else if c == 'f' {
            self.toggle_live()
        } else if c == '[' {
            self.adjust_live_poll(-1)
        } else if c == ']' {
            self.adjust_live_poll(1)
        } else if c == 'o' {
            self.toggle_pretty();
            Vec::new()
        } else if c == 'y' {
            self.copy_selected_message()
        } else if c == 'g' {
            self.open_groups()
        } else if c == 'R' {
            self.restart_key()
        } else if c == 'P' || c == 'O' {
            self.pause_resume(c == 'P')
        } else if c == 'u' {
            self.scroll(true, 3);
            Vec::new()
        } else if c == 'd' {
            self.delete_key()
        } else {
            Vec::new()
        }
    }
}

} // verus!
