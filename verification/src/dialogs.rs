//! Keys while a dialog is open, what its submission does, the splash
//! screen and the live-follow timer.

use vstd::prelude::*;

use crate::acl::AclSpec;
use crate::app::{cmd_of, arg_of, command_outcome, parse_reset_spec, reset_spec_of, words, App, Effect, Key};
use crate::config::clamp_spec;
use crate::kafka::LIVE_MAX_PER_POLL;
use crate::modal::{after_backspace, after_next_field, after_push_char, drop_last_char, is_confirm, Modal, ModalField};
use crate::text::{parse_i32, parse_in_range, parse_usize, pop_char, push_char, trim, trim_str};
use crate::table::TableView;
use crate::views::{
    screen_of, AclsView, ConnectorsView, ContextListView, GroupsView, LabelListView, SchemasView, TopicsView, ViewStack,
};

verus! {

/// The filter of a list screen's table.
pub open spec fn table_filter(v: ViewStack) -> Option<Seq<char>> {
    match v {
        ViewStack::Topics(w) => Some(w.table.filter@),
        ViewStack::Groups(w) => Some(w.table.filter@),
        ViewStack::Labels(w) => Some(w.table.filter@),
        ViewStack::Contexts(w) => Some(w.table.filter@),
        ViewStack::Acls(w) => Some(w.table.filter@),
        ViewStack::Schemas(w) => Some(w.table.filter@),
        ViewStack::Connectors(w) => Some(w.table.filter@),
        _ => None,
    }
}

/// The dialog stays open and only the status line changes.
pub open spec fn refused(a: App, b: App, r: Seq<Effect>, text: Seq<char>) -> bool {
    r.len() == 0 && b.status@ == text && b == (App { status: b.status, ..a })
}

/// The dialog is closed: none is open and both line buffers are empty.
pub open spec fn closed(b: App) -> bool {
    b.modal is None && b.filter_buf@.len() == 0 && b.command_buf@.len() == 0
}

/// `b` with the dialog state of `a` put back.
pub open spec fn reopened(a: App, b: App) -> App {
    App { modal: a.modal, filter_buf: a.filter_buf, command_buf: a.command_buf, ..b }
}

/// Work asked for from a dialog, which closes: when `able`, one piece of
/// work with `doing` on the status line; else `refused_text` there and
/// nothing asked.
pub open spec fn dialog_work(a: App, b: App, r: Seq<Effect>, able: bool, doing: Seq<char>, refused_text: Seq<char>) -> bool {
    &&& closed(b)
    &&& reopened(a, b) == (App { loading: b.loading, status: b.status, ..a })
    &&& able ==> b.loading && b.status@ == doing && r.len() == 1
    &&& !able ==> b.loading == a.loading && b.status@ == refused_text && r.len() == 0
}

/// The view with its table filtered by `f` (views without a table stay).
pub open spec fn with_filter(v: ViewStack, f: String) -> ViewStack {
    match v {
        ViewStack::Topics(w) => ViewStack::Topics(TopicsView { table: TableView { filter: f, ..w.table }, ..w }),
        ViewStack::Groups(w) => ViewStack::Groups(GroupsView { table: TableView { filter: f, ..w.table }, ..w }),
        ViewStack::Labels(w) => ViewStack::Labels(LabelListView { table: TableView { filter: f, ..w.table }, ..w }),
        ViewStack::Contexts(w) => ViewStack::Contexts(ContextListView { table: TableView { filter: f, ..w.table }, ..w }),
        ViewStack::Acls(w) => ViewStack::Acls(AclsView { table: TableView { filter: f, ..w.table }, ..w }),
        ViewStack::Schemas(w) => ViewStack::Schemas(SchemasView { table: TableView { filter: f, ..w.table }, ..w }),
        ViewStack::Connectors(w) => ViewStack::Connectors(ConnectorsView { table: TableView { filter: f, ..w.table }, ..w }),
        _ => v,
    }
}

/// The seven form fields, trimmed.
pub open spec fn trimmed_acl(rt: String, rn: String, pt: String, pr: String, h: String, op: String, pe: String) -> crate::acl::AclView {
    (trim(rt@), trim(rn@), trim(pt@), trim(pr@), trim(h@), trim(op@), trim(pe@))
}

/// What Enter does in a dialog: the form is checked, and either the work
/// starts and the dialog closes, or the status line says what is wrong and
/// the dialog stays.
pub open spec fn submit_outcome(a: App, b: App, r: Seq<Effect>) -> bool {
    match a.modal {
        None => b == a && r.len() == 0,
        Some(m) => match m {
            Modal::Filter => {
                &&& r.len() == 0
                &&& closed(b)
                &&& b.stack@ == a.stack@.drop_last().push(with_filter(a.top(), a.filter_buf))
                &&& reopened(a, b) == (App { stack: b.stack, ..a })
            },
            Modal::Command => {
                &&& b.modal is None
                &&& words(a.command_buf@).len() == 0 ==> r.len() == 0 && closed(b) && reopened(a, b) == a
                &&& words(a.command_buf@).len() > 0 ==> exists|f: String, c: String| f@.len() == 0 && c@.len() == 0
                    && command_outcome(App { modal: None, filter_buf: f, command_buf: c, ..a }, b, r,
                        cmd_of(a.command_buf@), arg_of(a.command_buf@))
            },
            Modal::Produce { topic, key, payload, .. } => if trim(payload@).len() == 0 {
                refused(a, b, r, "payload is required"@)
            } else {
                dialog_work(a, b, r, a.connected, "producing to "@ + topic@ + "…"@, "not connected"@)
                    && (a.connected ==> r[0] == Effect::Produce {
                        topic,
                        key: if trim(key@).len() == 0 { None::<String> } else { Some(key) },
                        payload,
                    })
            },
            Modal::CreateTopic { name, partitions, .. } => if trim(name@).len() == 0 {
                refused(a, b, r, "topic name is required"@)
            } else {
                match parse_in_range(trim(partitions@), true, i32::MIN as int, i32::MAX as int) {
                    Some(n) => if n > 0 {
                        dialog_work(a, b, r, a.connected, "creating topic "@ + trim(name@) + "…"@, "not connected"@)
                            && (a.connected ==> (r[0] matches Effect::CreateTopic { name: x, partitions: p }
                                && x@ == trim(name@) && p == n))
                    } else {
                        refused(a, b, r, "partitions must be a positive number"@)
                    },
                    None => refused(a, b, r, "partitions must be a positive number"@),
                }
            },
            Modal::DeleteConfirm { topic } => dialog_work(a, b, r, a.connected, "deleting topic "@ + topic@ + "…"@,
                "not connected"@) && (a.connected ==> r[0] == Effect::DeleteTopic { name: topic }),
            Modal::MessageLimit { value } => match parse_in_range(trim(value@), false, 0, usize::MAX as int) {
                Some(n) => if 10 <= n <= 10000 {
                    closed(b) && crate::app::limit_set_outcome(a, reopened(a, b), r, n as usize)
                } else {
                    refused(a, b, r, "limit must be 10–10000"@)
                },
                None => refused(a, b, r, "limit must be 10–10000"@),
            },
            Modal::DeleteGroupConfirm { group } => dialog_work(a, b, r, a.connected, "deleting group "@ + group@ + "…"@,
                "not connected"@) && (a.connected ==> r[0] == Effect::DeleteGroup { group }),
            Modal::DeleteLabelConfirm { label, .. } => closed(b)
                && crate::app::label_delete_outcome(a, reopened(a, b), r, label@),
            Modal::ResetOffsets { group, spec } => match reset_spec_of(trim(spec@)) {
                Ok(s) => dialog_work(a, b, r, a.connected, "resetting offsets for "@ + group@ + "…"@, "not connected"@)
                    && (a.connected ==> r[0] == Effect::ResetOffsets { group, strategy: s }),
                Err(e) => refused(a, b, r, e),
            },
            Modal::TopicLabel { label, add, .. } => closed(b)
                && crate::app::label_apply_outcome(a, reopened(a, b), r, trim(label@), add),
            Modal::AclForm { edit, replace, resource_type, resource_name, pattern_type, principal, host, operation, permission, .. } => {
                let t = trimmed_acl(resource_type, resource_name, pattern_type, principal, host, operation, permission);
                if t.3.len() == 0 {
                    refused(a, b, r, "principal is required"@)
                } else if edit && replace is None {
                    refused(a, b, r, "edit: missing original ACL"@)
                } else {
                    &&& dialog_work(a, b, r, a.connected, if edit { "updating ACL…"@ } else { "creating ACL…"@ }, "not connected"@)
                    &&& a.connected && edit ==> (r[0] matches Effect::ReplaceAcl { old: o, new: n } && Some(o) == replace && n.view() == t)
                    &&& a.connected && !edit ==> (r[0] matches Effect::CreateAcl { spec: n } && n.view() == t)
                }
            },
            Modal::DeleteAclConfirm { spec, .. } => dialog_work(a, b, r, a.connected, "deleting ACL…"@, "not connected"@)
                && (a.connected ==> r[0] == Effect::DeleteAcl { spec }),
            Modal::DeleteConnectorConfirm { name } => dialog_work(a, b, r, a.has_connect(), "deleting "@ + name@ + "…"@,
                "kafka_connect not configured"@) && (a.has_connect() ==> r[0] == Effect::ConnectorDelete { name }),
        },
    }
}

/// What a key does while a dialog is open.
pub open spec fn modal_key_outcome(a: App, b: App, r: Seq<Effect>, key: Key) -> bool {
    let m = a.modal->0;
    match key {
        Key::Esc => r.len() == 0 && closed(b) && reopened(a, b) == a,
        Key::Tab => r.len() == 0 && b.modal is Some && b.modal->0.view() == after_next_field(m.view())
            && b == (App { modal: b.modal, ..a }),
        Key::Backspace => r.len() == 0 && match m {
            Modal::Filter => b.filter_buf@ == drop_last_char(a.filter_buf@) && b == (App { filter_buf: b.filter_buf, ..a }),
            Modal::Command => b.command_buf@ == drop_last_char(a.command_buf@) && b == (App { command_buf: b.command_buf, ..a }),
            _ => b.modal is Some && b.modal->0.view() == after_backspace(m.view()) && b == (App { modal: b.modal, ..a }),
        },
        Key::Char(c) => match m {
            Modal::Filter => r.len() == 0 && b.filter_buf@ == a.filter_buf@.push(c) && b == (App { filter_buf: b.filter_buf, ..a }),
            Modal::Command => r.len() == 0 && b.command_buf@ == a.command_buf@.push(c) && b == (App { command_buf: b.command_buf, ..a }),
            _ => if is_confirm(m.view()) {
                if c == 'y' || c == 'Y' {
                    submit_outcome(a, b, r)
                } else if c == 'n' || c == 'N' {
                    r.len() == 0 && closed(b) && reopened(a, b) == a
                } else {
                    r.len() == 0 && b == a
                }
            } else {
                r.len() == 0 && b.modal is Some && b.modal->0.view() == after_push_char(m.view(), c)
                    && b == (App { modal: b.modal, ..a })
            },
        },
        Key::Enter => submit_outcome(a, b, r),
        _ => r.len() == 0 && b == a,
    }
}

/// The splash screen shows at `now` (milliseconds).
pub open spec fn splash_at(a: App, now: u64) -> bool {
    a.splash_until matches Some(t) && now < t
}

fn copy_offsets(v: &Vec<(i32, i64)>) -> (r: Vec<(i32, i64)>)
    ensures
        r@ == v@,
{
    let mut out: Vec<(i32, i64)> = Vec::new();
    let mut i: usize = 0;
    while i < v.len()
        invariant
            i <= v@.len(),
            out@ == v@.subrange(0, i as int),
        decreases v.len() - i,
    {
        out.push(v[i]);
        i = i + 1;
        assert(out@ =~= v@.subrange(0, i as int));
    }
    assert(v@.subrange(0, i as int) =~= v@);
    out
}

/// Whether a live read is due at `now`: following a topic live with
/// nothing else under way, and the poll interval passed since the last one.
pub open spec fn poll_due(a: App, now: u64) -> bool {
    &&& !splash_at(a, now)
    &&& a.modal is None
    &&& !a.show_partitions_popup
    &&& !a.live_fetch_in_flight
    &&& !a.loading
    &&& a.top() matches ViewStack::Messages(v) && v.live && v.next_offsets@.len() > 0
    &&& a.last_live_poll matches Some(last) ==> last <= now
        && now - last >= clamp_spec(a.config.defaults.live_poll_secs as int, 1, 30) * 1000
}

/// What the timer does at `now`: the live read when one is due, else nothing.
pub open spec fn tick_outcome(a: App, b: App, r: Seq<Effect>, now: u64) -> bool {
    if poll_due(a, now) {
        let v = a.top()->Messages_0;
        &&& r.len() == 1
        &&& r[0] matches Effect::PollLive { topic, partition, after, max_messages, sort_by_time }
            && topic == v.topic && partition == v.partition && after@ == v.next_offsets@
            && max_messages == (if v.message_limit < LIVE_MAX_PER_POLL { v.message_limit } else { LIVE_MAX_PER_POLL })
            && sort_by_time == v.sort_by_time
        &&& b == (App { last_live_poll: Some(now), live_fetch_in_flight: true, ..a })
    } else {
        r.len() == 0 && b == a
    }
}

/// One live read at a time: once the timer has asked for one, it asks for
/// no other until the reply comes, whenever it fires.
pub proof fn law_one_live_read_at_a_time(a: App, b: App, c: App, r1: Seq<Effect>, r2: Seq<Effect>, t1: u64, t2: u64)
    requires
        tick_outcome(a, b, r1, t1),
        r1.len() == 1,
        tick_outcome(b, c, r2, t2),
    ensures
        r2.len() == 0,
        c == b,
{
}

impl App {
    fn set_table_filter(&mut self, filter: String)
        requires
            old(self).wf(),
        ensures
            final(self).wf(),
            final(self).stack@.len() == old(self).stack@.len(),
            final(self).stack@.drop_last() == old(self).stack@.drop_last(),
            screen_of(final(self).top()) == screen_of(old(self).top()),
            table_filter(old(self).top()) is Some ==> table_filter(final(self).top()) == Some(filter@),
            table_filter(old(self).top()) is None ==> final(self).top() == old(self).top(),
            final(self).stack@ == old(self).stack@.drop_last().push(with_filter(old(self).top(), filter)),
            *final(self) == (App { stack: final(self).stack, ..*old(self) }),
    {
        let ghost before = self.stack@;
        let mut top = self.stack.pop().unwrap();
        match &mut top {
            ViewStack::Topics(v) => v.table.filter = filter,
            ViewStack::Groups(v) => v.table.filter = filter,
            ViewStack::Labels(v) => v.table.filter = filter,
            ViewStack::Contexts(v) => v.table.filter = filter,
            ViewStack::Acls(v) => v.table.filter = filter,
            ViewStack::Schemas(v) => v.table.filter = filter,
            ViewStack::Connectors(v) => v.table.filter = filter,
            _ => {},
        }
        self.stack.push(top);
        assert(self.stack@.drop_last() =~= before.drop_last());
    }

    fn submit_produce(&mut self, topic: String, key: String, payload: String, field: ModalField) -> (r: Vec<Effect>)
        requires
            old(self).wf(),
            old(self).modal is None,
        ensures
            final(self).wf(),
            submit_outcome(App { modal: Some(Modal::Produce { topic, key, payload, field }), ..*old(self) }, *final(self), r@),
    {
        let p = trim_str(payload.as_str());
        if p.unicode_len() == 0 {
            self.modal = Some(Modal::Produce { topic, key, payload, field });
            self.status = String::from_str("payload is required");
            return Vec::new();
        }
        let r = self.run_produce(topic, key, payload);
        self.close_modal();
        r
    }

    fn submit_create_topic(&mut self, name: String, partitions: String, field: ModalField) -> (r: Vec<Effect>)
        requires
            old(self).wf(),
            old(self).modal is None,
        ensures
            final(self).wf(),
            submit_outcome(App { modal: Some(Modal::CreateTopic { name, partitions, field }), ..*old(self) }, *final(self), r@),
    {
        let n = trim_str(name.as_str());
        if n.unicode_len() == 0 {
            self.modal = Some(Modal::CreateTopic { name, partitions, field });
            self.status = String::from_str("topic name is required");
            return Vec::new();
        }
        let p = trim_str(partitions.as_str());
        let count = match parse_i32(p.as_str()) {
            Some(c) => c,
            None => 0,
        };
        if count <= 0 {
            self.modal = Some(Modal::CreateTopic { name, partitions, field });
            self.status = String::from_str("partitions must be a positive number");
            return Vec::new();
        }
        let r = self.run_create_topic(n, count);
        self.close_modal();
        r
    }

    fn submit_limit(&mut self, value: String) -> (r: Vec<Effect>)
        requires
            old(self).wf(),
            old(self).modal is None,
        ensures
            final(self).wf(),
            submit_outcome(App { modal: Some(Modal::MessageLimit { value }), ..*old(self) }, *final(self), r@),
    {
        let v = trim_str(value.as_str());
        let limit = match parse_usize(v.as_str()) {
            Some(n) => n,
            None => 0,
        };
        if limit < 10 || limit > 10000 {
            self.modal = Some(Modal::MessageLimit { value });
            self.status = String::from_str("limit must be 10–10000");
            return Vec::new();
        }
        let r = self.set_message_limit(limit);
        self.close_modal();
        r
    }

    fn submit_reset(&mut self, group: String, spec: String) -> (r: Vec<Effect>)
        requires
            old(self).wf(),
            old(self).modal is None,
        ensures
            final(self).wf(),
            submit_outcome(App { modal: Some(Modal::ResetOffsets { group, spec }), ..*old(self) }, *final(self), r@),
    {
        let t = trim_str(spec.as_str());
        match parse_reset_spec(t.as_str()) {
            Ok(strategy) => {
                let r = self.run_reset_offsets(group, strategy);
                self.close_modal();
                r
            },
            Err(e) => {
                self.modal = Some(Modal::ResetOffsets { group, spec });
                self.status = e;
                Vec::new()
            },
        }
    }

    #[verifier::spinoff_prover]
    fn submit_acl(&mut self, form: Modal) -> (r: Vec<Effect>)
        requires
            old(self).wf(),
            old(self).modal is None,
            form is AclForm,
        ensures
            final(self).wf(),
            submit_outcome(App { modal: Some(form), ..*old(self) }, *final(self), r@),
    {
        let ghost whole = form;
        match form {
            Modal::AclForm {
                edit,
                replace,
                resource_type,
                resource_name,
                pattern_type,
                principal,
                host,
                operation,
                permission,
                field,
            } => {
                let spec = AclSpec {
                    resource_type: trim_str(resource_type.as_str()),
                    resource_name: trim_str(resource_name.as_str()),
                    pattern_type: trim_str(pattern_type.as_str()),
                    principal: trim_str(principal.as_str()),
                    host: trim_str(host.as_str()),
                    operation: trim_str(operation.as_str()),
                    permission: trim_str(permission.as_str()),
                };
                if spec.principal.unicode_len() == 0 {
                    self.modal = Some(Modal::AclForm {
                        edit, replace, resource_type, resource_name, pattern_type, principal, host, operation, permission, field,
                    });
                    self.status = String::from_str("principal is required");
                    return Vec::new();
                }
                let r = if edit {
                    match replace {
                        Some(old_spec) => self.run_replace_acl(old_spec, spec),
                        None => {
                            self.modal = Some(Modal::AclForm {
                                edit, replace: None, resource_type, resource_name, pattern_type, principal, host, operation,
                                permission, field,
                            });
                            self.status = String::from_str("edit: missing original ACL");
                            return Vec::new();
                        },
                    }
                } else {
                    self.run_create_acl(spec)
                };
                self.close_modal();
                r
            },
            _ => Vec::new(),
        }
    }

    /// Enter in a dialog (see `submit_outcome`).
    pub fn submit_modal(&mut self) -> (r: Vec<Effect>)
        requires
            old(self).wf(),
        ensures
            final(self).wf(),
            submit_outcome(*old(self), *final(self), r@),
    {
        let m = match self.modal.take() {
            Some(m) => m,
            None => {
                return Vec::new();
            },
        };
        assert(*old(self) == (App { modal: Some(m), ..*self }));
        match m {
            Modal::Filter => {
                let mut filter = String::new();
                std::mem::swap(&mut filter, &mut self.filter_buf);
                self.set_table_filter(filter);
                self.close_modal();
                Vec::new()
            },
            Modal::Command => {
                let cmd = self.command_buf.clone();
                self.close_modal();
                let ghost closed = *self;
                let r = self.execute_command(cmd.as_str());
                assert(words(cmd@).len() > 0 ==> command_outcome(App { modal: None, filter_buf: closed.filter_buf,
                    command_buf: closed.command_buf, ..*old(self) }, *self, r@, cmd_of(cmd@), arg_of(cmd@)));
                r
            },
            Modal::Produce { topic, key, payload, field } => self.submit_produce(topic, key, payload, field),
            Modal::CreateTopic { name, partitions, field } => self.submit_create_topic(name, partitions, field),
            Modal::DeleteConfirm { topic } => {
                let r = self.run_delete_topic(topic);
                self.close_modal();
                r
            },
            Modal::MessageLimit { value } => self.submit_limit(value),
            Modal::DeleteGroupConfirm { group } => {
                let r = self.run_delete_group(group);
                self.close_modal();
                r
            },
            Modal::DeleteLabelConfirm { label, topic_count } => {
                let r = self.run_delete_label(label);
                self.close_modal();
                r
            },
            Modal::ResetOffsets { group, spec } => self.submit_reset(group, spec),
            Modal::TopicLabel { label, add, topic_count } => {
                let t = trim_str(label.as_str());
                let r = self.apply_topic_label(t.as_str(), add);
                self.close_modal();
                r
            },
            Modal::AclForm { .. } => self.submit_acl(m),
            Modal::DeleteAclConfirm { spec, summary } => {
                let r = self.run_delete_acl(spec);
                self.close_modal();
                r
            },
            Modal::DeleteConnectorConfirm { name } => {
                let r = self.run_connect_delete(name);
                self.close_modal();
                r
            },
        }
    }

    /// Deletes the topic the open confirmation names.
    pub fn confirm_delete_topic(&mut self) -> (r: Vec<Effect>)
        requires
            old(self).wf(),
        ensures
            final(self).wf(),
            old(self).modal matches Some(Modal::DeleteConfirm { .. }) ==> submit_outcome(*old(self), *final(self), r@),
            !(old(self).modal matches Some(Modal::DeleteConfirm { .. })) ==> r@.len() == 0 && *final(self) == *old(self),
    {
        if let Some(Modal::DeleteConfirm { .. }) = &self.modal {
            self.submit_modal()
        } else {
            Vec::new()
        }
    }

    /// A key while a dialog is open (see `modal_key_outcome`).
    pub fn handle_modal_event(&mut self, key: Key) -> (r: Vec<Effect>)
        requires
            old(self).wf(),
            old(self).modal is Some,
        ensures
            final(self).wf(),
            modal_key_outcome(*old(self), *final(self), r@, key),
    {
        match key {
            Key::Esc => {
                self.close_modal();
                Vec::new()
            },
            Key::Tab => {
                let mut m = self.modal.take().unwrap();
                m.next_field();
                self.modal = Some(m);
                Vec::new()
            },
            Key::Backspace => {
                let mut m = self.modal.take().unwrap();
                match m {
                    Modal::Filter => {
                        let _ = pop_char(&mut self.filter_buf);
                    },
                    Modal::Command => {
                        let _ = pop_char(&mut self.command_buf);
                    },
                    _ => m.backspace(),
                }
                self.modal = Some(m);
                Vec::new()
            },
            Key::Char(c) => {
                let mut m = self.modal.take().unwrap();
                match m {
                    Modal::Filter => {
                        push_char(&mut self.filter_buf, c);
                        self.modal = Some(m);
                        Vec::new()
                    },
                    Modal::Command => {
                        push_char(&mut self.command_buf, c);
                        self.modal = Some(m);
                        Vec::new()
                    },
                    _ => {
                        let confirm = match m {
                            Modal::DeleteConfirm { .. } | Modal::DeleteGroupConfirm { .. } | Modal::DeleteLabelConfirm { .. }
                            | Modal::DeleteAclConfirm { .. } | Modal::DeleteConnectorConfirm { .. } => true,
                            _ => false,
                        };
                        if confirm {
                            let delete_topic = matches!(m, Modal::DeleteConfirm { .. });
                            self.modal = Some(m);
                            if (c == 'y' || c == 'Y') && delete_topic {
                                self.confirm_delete_topic()
                            } else if c == 'y' || c == 'Y' {
                                self.submit_modal()
                            } else if c == 'n' || c == 'N' {
                                self.close_modal();
                                Vec::new()
                            } else {
                                Vec::new()
                            }
                        } else {
                            m.push_char(c);
                            self.modal = Some(m);
                            Vec::new()
                        }
                    },
                }
            },
            Key::Enter => self.submit_modal(),
            _ => Vec::new(),
        }
    }

    /// Whether the splash screen shows at `now` (milliseconds).
    pub fn splash_active(&self, now: u64) -> (r: bool)
        ensures
            r == splash_at(*self, now),
    {
        match self.splash_until {
            Some(t) => now < t,
            None => false,
        }
    }

    /// A key press at `now` (milliseconds): during the splash it only
    /// dismisses the splash; with a dialog open it goes to the dialog.
    pub fn handle_event(&mut self, key: Key, now: u64) -> (r: Vec<Effect>)
        requires
            old(self).wf(),
        ensures
            final(self).wf(),
            splash_at(*old(self), now) ==> r@.len() == 0 && *final(self) == (App { splash_until: None, ..*old(self) }),
            !splash_at(*old(self), now) && old(self).modal is Some ==> modal_key_outcome(*old(self), *final(self), r@, key),
            !splash_at(*old(self), now) && old(self).modal is None ==>
                crate::keys::key_outcome(*old(self), *final(self), r@, key),
    {
        if self.splash_active(now) {
            self.splash_until = None;
            return Vec::new();
        }
        if self.modal.is_some() {
            return self.handle_modal_event(key);
        }
        self.handle_key(key)
    }

    /// The timer at `now` (milliseconds): while following a topic live,
    /// with nothing else under way, asks for the messages after the last
    /// ones read once the poll interval has passed since the last ask.
    pub fn tick(&mut self, now: u64) -> (r: Vec<Effect>)
        requires
            old(self).wf(),
        ensures
            final(self).wf(),
            tick_outcome(*old(self), *final(self), r@, now),
    {
        if self.splash_active(now) {
            return Vec::new();
        }
        if self.modal.is_some() || self.show_partitions_popup || self.live_fetch_in_flight || self.loading {
            return Vec::new();
        }
        let n = self.stack.len();
        let (topic, partition, after, limit, sort_by_time) = match &self.stack[n - 1] {
            ViewStack::Messages(v) => {
                if !v.live || v.next_offsets.len() == 0 {
                    return Vec::new();
                }
                (v.topic.clone(), v.partition, copy_offsets(&v.next_offsets), v.message_limit, v.sort_by_time)
            },
            _ => {
                return Vec::new();
            },
        };
        let interval: u64 = crate::config::clamp_live_poll_secs(self.config.defaults.live_poll_secs) * 1000;
        if let Some(last) = self.last_live_poll {
            if now < last || now - last < interval {
                return Vec::new();
            }
        }
        let batch = if limit < LIVE_MAX_PER_POLL { limit } else { LIVE_MAX_PER_POLL };
        self.last_live_poll = Some(now);
        self.live_fetch_in_flight = true;
        let mut r: Vec<Effect> = Vec::new();
        r.push(Effect::PollLive { topic, partition, after, max_messages: batch, sort_by_time });
        r
    }
}

} // verus!
