//! Modal dialogs: their text fields, keyboard editing, and the lines and
//! size of the popup that shows them.

use vstd::prelude::*;

use crate::acl::{AclSpec, AclView};
use crate::styled::{line_view, lines_view, LineView, SpanStyle, StyledLine, StyledSpan};
use crate::text::{dec, fmt_usize, pop_char, push_char};

verus! {

/// Active field of a two- or three-field form.
#[derive(Debug, Clone, Copy, PartialEq, Eq, Structural)]
pub enum ModalField {
    First,
    Second,
    Third,
}

/// Active field of the ACL form.
#[derive(Debug, Clone, Copy, PartialEq, Eq, Structural)]
pub enum AclFormField {
    ResourceType,
    ResourceName,
    PatternType,
    Principal,
    Host,
    Operation,
    Permission,
}

/// A dialog over the current screen.
#[derive(Debug)]
pub enum Modal {
    Filter,
    Command,
    Produce { topic: String, key: String, payload: String, field: ModalField },
    CreateTopic { name: String, partitions: String, field: ModalField },
    DeleteConfirm { topic: String },
    MessageLimit { value: String },
    DeleteGroupConfirm { group: String },
    /// Remove a label from every topic of the cluster.
    DeleteLabelConfirm { label: String, topic_count: usize },
    /// Reset the offsets of every (topic, partition) the group committed;
    /// `spec` is `earliest`, `latest`, `offset:N` or `timestamp:UNIX_MS`.
    ResetOffsets { group: String, spec: String },
    /// Add a label to, or remove it from, the selected topics.
    TopicLabel { label: String, add: bool, topic_count: usize },
    /// Create an ACL, or replace `replace` by the edited one.
    AclForm {
        edit: bool,
        replace: Option<AclSpec>,
        resource_type: String,
        resource_name: String,
        pattern_type: String,
        principal: String,
        host: String,
        operation: String,
        permission: String,
        field: AclFormField,
    },
    DeleteAclConfirm { spec: AclSpec, summary: String },
    DeleteConnectorConfirm { name: String },
}

/// A dialog as plain values.
pub enum ModalView {
    Filter,
    Command,
    Produce { topic: Seq<char>, key: Seq<char>, payload: Seq<char>, field: ModalField },
    CreateTopic { name: Seq<char>, partitions: Seq<char>, field: ModalField },
    DeleteConfirm { topic: Seq<char> },
    MessageLimit { value: Seq<char> },
    DeleteGroupConfirm { group: Seq<char> },
    DeleteLabelConfirm { label: Seq<char>, topic_count: usize },
    ResetOffsets { group: Seq<char>, spec: Seq<char> },
    TopicLabel { label: Seq<char>, add: bool, topic_count: usize },
    AclForm {
        edit: bool,
        replace: Option<AclView>,
        fields: Seq<Seq<char>>,
        field: AclFormField,
    },
    DeleteAclConfirm { spec: AclView, summary: Seq<char> },
    DeleteConnectorConfirm { name: Seq<char> },
}

/// Position of an ACL form field.
pub open spec fn acl_field_index(f: AclFormField) -> int {
    match f {
        AclFormField::ResourceType => 0,
        AclFormField::ResourceName => 1,
        AclFormField::PatternType => 2,
        AclFormField::Principal => 3,
        AclFormField::Host => 4,
        AclFormField::Operation => 5,
        AclFormField::Permission => 6,
    }
}

/// The ACL form field after `f`, wrapping around.
pub open spec fn acl_field_after(f: AclFormField) -> AclFormField {
    match f {
        AclFormField::ResourceType => AclFormField::ResourceName,
        AclFormField::ResourceName => AclFormField::PatternType,
        AclFormField::PatternType => AclFormField::Principal,
        AclFormField::Principal => AclFormField::Host,
        AclFormField::Host => AclFormField::Operation,
        AclFormField::Operation => AclFormField::Permission,
        AclFormField::Permission => AclFormField::ResourceType,
    }
}

pub open spec fn opt_acl_view(o: Option<AclSpec>) -> Option<AclView> {
    match o {
        Some(s) => Some(s.view()),
        None => None,
    }
}

impl Modal {
    pub open spec fn view(&self) -> ModalView {
        match self {
            Modal::Filter => ModalView::Filter,
            Modal::Command => ModalView::Command,
            Modal::Produce { topic, key, payload, field } => ModalView::Produce { topic: topic@, key: key@, payload: payload@, field: *field },
            Modal::CreateTopic { name, partitions, field } => ModalView::CreateTopic { name: name@, partitions: partitions@, field: *field },
            Modal::DeleteConfirm { topic } => ModalView::DeleteConfirm { topic: topic@ },
            Modal::MessageLimit { value } => ModalView::MessageLimit { value: value@ },
            Modal::DeleteGroupConfirm { group } => ModalView::DeleteGroupConfirm { group: group@ },
            Modal::DeleteLabelConfirm { label, topic_count } => ModalView::DeleteLabelConfirm { label: label@, topic_count: *topic_count },
            Modal::ResetOffsets { group, spec } => ModalView::ResetOffsets { group: group@, spec: spec@ },
            Modal::TopicLabel { label, add, topic_count } => ModalView::TopicLabel { label: label@, add: *add, topic_count: *topic_count },
            Modal::AclForm { edit, replace, resource_type, resource_name, pattern_type, principal, host, operation, permission, field } =>
                ModalView::AclForm {
                    edit: *edit,
                    replace: opt_acl_view(*replace),
                    fields: seq![resource_type@, resource_name@, pattern_type@, principal@, host@, operation@, permission@],
                    field: *field,
                },
            Modal::DeleteAclConfirm { spec, summary } => ModalView::DeleteAclConfirm { spec: spec.view(), summary: summary@ },
            Modal::DeleteConnectorConfirm { name } => ModalView::DeleteConnectorConfirm { name: name@ },
        }
    }
}

/// Popup title.
pub open spec fn modal_title(m: ModalView) -> Seq<char> {
    match m {
        ModalView::Filter => "Filter topics"@,
        ModalView::Command => "Command"@,
        ModalView::Produce { .. } => "Produce message"@,
        ModalView::CreateTopic { .. } => "Create topic"@,
        ModalView::DeleteConfirm { .. } => "Delete topic"@,
        ModalView::MessageLimit { .. } => "Message limit"@,
        ModalView::DeleteGroupConfirm { .. } => "Delete consumer group"@,
        ModalView::DeleteLabelConfirm { .. } => "Delete label"@,
        ModalView::ResetOffsets { .. } => "Reset offsets"@,
        ModalView::TopicLabel { add, .. } => if add { "Add label"@ } else { "Remove label"@ },
        ModalView::AclForm { edit, .. } => if edit { "Edit ACL"@ } else { "Create ACL"@ },
        ModalView::DeleteAclConfirm { .. } => "Delete ACL"@,
        ModalView::DeleteConnectorConfirm { .. } => "Delete connector"@,
    }
}

/// Tab: the produce form stops at its last field, the others wrap.
pub open spec fn after_next_field(m: ModalView) -> ModalView {
    match m {
        ModalView::Produce { topic, key, payload, field } => ModalView::Produce {
            topic,
            key,
            payload,
            field: match field {
                ModalField::First => ModalField::Second,
                _ => ModalField::Third,
            },
        },
        ModalView::CreateTopic { name, partitions, field } => ModalView::CreateTopic {
            name,
            partitions,
            field: match field {
                ModalField::First => ModalField::Second,
                _ => ModalField::First,
            },
        },
        ModalView::AclForm { edit, replace, fields, field } => ModalView::AclForm { edit, replace, fields, field: acl_field_after(field) },
        _ => m,
    }
}

/// Typing `c`: into the active field of a form, or the only field; the
/// filter and command buffers and the confirmations are not edited here.
pub open spec fn after_push_char(m: ModalView, c: char) -> ModalView {
    match m {
        ModalView::Produce { topic, key, payload, field } => match field {
            ModalField::First => ModalView::Produce { topic, key: key.push(c), payload, field },
            _ => ModalView::Produce { topic, key, payload: payload.push(c), field },
        },
        ModalView::CreateTopic { name, partitions, field } => match field {
            ModalField::First => ModalView::CreateTopic { name: name.push(c), partitions, field },
            _ => ModalView::CreateTopic { name, partitions: partitions.push(c), field },
        },
        ModalView::MessageLimit { value } => ModalView::MessageLimit { value: value.push(c) },
        ModalView::ResetOffsets { group, spec } => ModalView::ResetOffsets { group, spec: spec.push(c) },
        ModalView::TopicLabel { label, add, topic_count } => ModalView::TopicLabel { label: label.push(c), add, topic_count },
        ModalView::AclForm { edit, replace, fields, field } => ModalView::AclForm {
            edit,
            replace,
            fields: fields.update(acl_field_index(field), fields[acl_field_index(field)].push(c)),
            field,
        },
        _ => m,
    }
}

pub open spec fn drop_last_char(s: Seq<char>) -> Seq<char> {
    if s.len() == 0 { s } else { s.drop_last() }
}

/// Backspace: deletes the last character of the field `after_push_char`
/// would type into.
pub open spec fn after_backspace(m: ModalView) -> ModalView {
    match m {
        ModalView::Produce { topic, key, payload, field } => match field {
            ModalField::First => ModalView::Produce { topic, key: drop_last_char(key), payload, field },
            _ => ModalView::Produce { topic, key, payload: drop_last_char(payload), field },
        },
        ModalView::CreateTopic { name, partitions, field } => match field {
            ModalField::First => ModalView::CreateTopic { name: drop_last_char(name), partitions, field },
            _ => ModalView::CreateTopic { name, partitions: drop_last_char(partitions), field },
        },
        ModalView::MessageLimit { value } => ModalView::MessageLimit { value: drop_last_char(value) },
        ModalView::ResetOffsets { group, spec } => ModalView::ResetOffsets { group, spec: drop_last_char(spec) },
        ModalView::TopicLabel { label, add, topic_count } => ModalView::TopicLabel { label: drop_last_char(label), add, topic_count },
        ModalView::AclForm { edit, replace, fields, field } => ModalView::AclForm {
            edit,
            replace,
            fields: fields.update(acl_field_index(field), drop_last_char(fields[acl_field_index(field)])),
            field,
        },
        _ => m,
    }
}

/// `after` is `before` with `c` typed into the field the cursor is on and
/// nowhere else: in the produce form the key on the first field and the
/// payload on the others; in the create-topic form the name on the first
/// field and the partition count on the others; in the ACL form the active
/// field; in the one-field dialogs their field. The dialog, its other
/// fields and the active field stay as they were.
pub open spec fn typed_into_active_field(before: ModalView, after: ModalView, c: char) -> bool {
    match before {
        ModalView::Produce { topic, key, payload, field } => match after {
            ModalView::Produce { topic: t2, key: k2, payload: p2, field: f2 } => {
                &&& t2 == topic && f2 == field
                &&& field is First ==> k2 == key + seq![c] && p2 == payload
                &&& !(field is First) ==> k2 == key && p2 == payload + seq![c]
            },
            _ => false,
        },
        ModalView::CreateTopic { name, partitions, field } => match after {
            ModalView::CreateTopic { name: n2, partitions: p2, field: f2 } => {
                &&& f2 == field
                &&& field is First ==> n2 == name + seq![c] && p2 == partitions
                &&& !(field is First) ==> n2 == name && p2 == partitions + seq![c]
            },
            _ => false,
        },
        ModalView::AclForm { edit, replace, fields, field } => match after {
            ModalView::AclForm { edit: e2, replace: r2, fields: fs2, field: f2 } => {
                &&& e2 == edit && r2 == replace && f2 == field && fs2.len() == fields.len()
                &&& forall|k: int| 0 <= k < fields.len() && k != acl_field_index(field) ==> #[trigger] fs2[k] == fields[k]
                &&& fs2[acl_field_index(field)] == fields[acl_field_index(field)] + seq![c]
            },
            _ => false,
        },
        ModalView::MessageLimit { value } => after == ModalView::MessageLimit { value: value + seq![c] },
        ModalView::ResetOffsets { group, spec } => after == ModalView::ResetOffsets { group, spec: spec + seq![c] },
        ModalView::TopicLabel { label, add, topic_count } => after == ModalView::TopicLabel { label: label + seq![c], add, topic_count },
        _ => after == before,
    }
}

/// Typing a character puts it at the end of the active field and changes
/// nothing else (see `typed_into_active_field`).
pub proof fn law_typing_fills_the_active_field(m: ModalView, c: char)
    requires
        m is AclForm ==> m->fields.len() == 7,
    ensures
        typed_into_active_field(m, after_push_char(m, c), c),
{
    match m {
        ModalView::Produce { topic, key, payload, field } => {
            assert(key.push(c) =~= key + seq![c]);
            assert(payload.push(c) =~= payload + seq![c]);
        },
        ModalView::CreateTopic { name, partitions, field } => {
            assert(name.push(c) =~= name + seq![c]);
            assert(partitions.push(c) =~= partitions + seq![c]);
        },
        ModalView::AclForm { fields, field, .. } => {
            let i = acl_field_index(field);
            assert(fields[i].push(c) =~= fields[i] + seq![c]);
        },
        ModalView::MessageLimit { value } => {
            assert(value.push(c) =~= value + seq![c]);
        },
        ModalView::ResetOffsets { spec, .. } => {
            assert(spec.push(c) =~= spec + seq![c]);
        },
        ModalView::TopicLabel { label, .. } => {
            assert(label.push(c) =~= label + seq![c]);
        },
        _ => {},
    }
}

/// Backspace after typing a character gives the dialog back as it was.
pub proof fn law_backspace_undoes_typing(m: ModalView, c: char)
    requires
        m is AclForm ==> m->fields.len() == 7,
    ensures
        after_backspace(after_push_char(m, c)) == m,
{
    match m {
        ModalView::Produce { key, payload, .. } => {
            assert(key.push(c).drop_last() =~= key);
            assert(payload.push(c).drop_last() =~= payload);
        },
        ModalView::CreateTopic { name, partitions, .. } => {
            assert(name.push(c).drop_last() =~= name);
            assert(partitions.push(c).drop_last() =~= partitions);
        },
        ModalView::AclForm { edit, replace, fields, field } => {
            let i = acl_field_index(field);
            let f2 = fields.update(i, fields[i].push(c));
            assert(f2[i].drop_last() =~= fields[i]);
            assert(f2.update(i, drop_last_char(f2[i])) =~= fields);
        },
        ModalView::MessageLimit { value } => {
            assert(value.push(c).drop_last() =~= value);
        },
        ModalView::ResetOffsets { spec, .. } => {
            assert(spec.push(c).drop_last() =~= spec);
        },
        ModalView::TopicLabel { label, .. } => {
            assert(label.push(c).drop_last() =~= label);
        },
        _ => {},
    }
}

/// The confirmation dialogs.
pub open spec fn is_confirm(m: ModalView) -> bool {
    match m {
        ModalView::DeleteConfirm { .. } | ModalView::DeleteGroupConfirm { .. } | ModalView::DeleteLabelConfirm { .. }
        | ModalView::DeleteAclConfirm { .. } | ModalView::DeleteConnectorConfirm { .. } => true,
        _ => false,
    }
}

fn drop_last(s: &mut String)
    ensures
        final(s)@ == drop_last_char(old(s)@),
{
    let _ = pop_char(s);
}

fn acl_field_mut_push(field: AclFormField, rt: &mut String, rn: &mut String, pt: &mut String, pr: &mut String,
    h: &mut String, op: &mut String, pe: &mut String, c: char)
    ensures
        seq![final(rt)@, final(rn)@, final(pt)@, final(pr)@, final(h)@, final(op)@, final(pe)@]
            == seq![old(rt)@, old(rn)@, old(pt)@, old(pr)@, old(h)@, old(op)@, old(pe)@].update(
                acl_field_index(field),
                seq![old(rt)@, old(rn)@, old(pt)@, old(pr)@, old(h)@, old(op)@, old(pe)@][acl_field_index(field)].push(c),
            ),
{
    match field {
        AclFormField::ResourceType => push_char(rt, c),
        AclFormField::ResourceName => push_char(rn, c),
        AclFormField::PatternType => push_char(pt, c),
        AclFormField::Principal => push_char(pr, c),
        AclFormField::Host => push_char(h, c),
        AclFormField::Operation => push_char(op, c),
        AclFormField::Permission => push_char(pe, c),
    }
    assert(seq![final(rt)@, final(rn)@, final(pt)@, final(pr)@, final(h)@, final(op)@, final(pe)@]
        =~= seq![old(rt)@, old(rn)@, old(pt)@, old(pr)@, old(h)@, old(op)@, old(pe)@].update(
            acl_field_index(field),
            seq![old(rt)@, old(rn)@, old(pt)@, old(pr)@, old(h)@, old(op)@, old(pe)@][acl_field_index(field)].push(c),
        ));
}

fn acl_field_mut_pop(field: AclFormField, rt: &mut String, rn: &mut String, pt: &mut String, pr: &mut String,
    h: &mut String, op: &mut String, pe: &mut String)
    ensures
        seq![final(rt)@, final(rn)@, final(pt)@, final(pr)@, final(h)@, final(op)@, final(pe)@]
            == seq![old(rt)@, old(rn)@, old(pt)@, old(pr)@, old(h)@, old(op)@, old(pe)@].update(
                acl_field_index(field),
                drop_last_char(seq![old(rt)@, old(rn)@, old(pt)@, old(pr)@, old(h)@, old(op)@, old(pe)@][acl_field_index(field)]),
            ),
{
    match field {
        AclFormField::ResourceType => drop_last(rt),
        AclFormField::ResourceName => drop_last(rn),
        AclFormField::PatternType => drop_last(pt),
        AclFormField::Principal => drop_last(pr),
        AclFormField::Host => drop_last(h),
        AclFormField::Operation => drop_last(op),
        AclFormField::Permission => drop_last(pe),
    }
    assert(seq![final(rt)@, final(rn)@, final(pt)@, final(pr)@, final(h)@, final(op)@, final(pe)@]
        =~= seq![old(rt)@, old(rn)@, old(pt)@, old(pr)@, old(h)@, old(op)@, old(pe)@].update(
            acl_field_index(field),
            drop_last_char(seq![old(rt)@, old(rn)@, old(pt)@, old(pr)@, old(h)@, old(op)@, old(pe)@][acl_field_index(field)]),
        ));
}

impl Modal {
    /// Popup title.
    pub fn title(&self) -> (r: &'static str)
        ensures
            r@ == modal_title(self.view()),
    {
        match self {
            Modal::Filter => "Filter topics",
            Modal::Command => "Command",
            Modal::Produce { .. } => "Produce message",
            Modal::CreateTopic { .. } => "Create topic",
            Modal::DeleteConfirm { .. } => "Delete topic",
            Modal::MessageLimit { .. } => "Message limit",
            Modal::DeleteGroupConfirm { .. } => "Delete consumer group",
            Modal::DeleteLabelConfirm { .. } => "Delete label",
            Modal::ResetOffsets { .. } => "Reset offsets",
            Modal::TopicLabel { add, .. } => {
                if *add {
                    "Add label"
                } else {
                    "Remove label"
                }
            },
            Modal::AclForm { edit, .. } => {
                if *edit {
                    "Edit ACL"
                } else {
                    "Create ACL"
                }
            },
            Modal::DeleteAclConfirm { .. } => "Delete ACL",
            Modal::DeleteConnectorConfirm { .. } => "Delete connector",
        }
    }

    /// Moves to the next field (Tab).
    pub fn next_field(&mut self)
        ensures
            final(self).view() == after_next_field(old(self).view()),
    {
        match self {
            Modal::Produce { field, .. } => {
                *field = match *field {
                    ModalField::First => ModalField::Second,
                    _ => ModalField::Third,
                };
            },
            Modal::CreateTopic { field, .. } => {
                *field = match *field {
                    ModalField::First => ModalField::Second,
                    _ => ModalField::First,
                };
            },
            Modal::AclForm { field, .. } => {
                *field = match *field {
                    AclFormField::ResourceType => AclFormField::ResourceName,
                    AclFormField::ResourceName => AclFormField::PatternType,
                    AclFormField::PatternType => AclFormField::Principal,
                    AclFormField::Principal => AclFormField::Host,
                    AclFormField::Host => AclFormField::Operation,
                    AclFormField::Operation => AclFormField::Permission,
                    AclFormField::Permission => AclFormField::ResourceType,
                };
            },
            _ => {},
        }
    }

    /// Types `c` into the active field.
    pub fn push_char(&mut self, c: char)
        ensures
            final(self).view() == after_push_char(old(self).view(), c),
            typed_into_active_field(old(self).view(), final(self).view(), c),
    {
        proof {
            law_typing_fills_the_active_field(old(self).view(), c);
        }
        match self {
            Modal::Produce { key, payload, field, .. } => match *field {
                ModalField::First => push_char(key, c),
                _ => push_char(payload, c),
            },
            Modal::CreateTopic { name, partitions, field } => match *field {
                ModalField::First => push_char(name, c),
                _ => push_char(partitions, c),
            },
            Modal::MessageLimit { value } => push_char(value, c),
            Modal::ResetOffsets { spec, .. } => push_char(spec, c),
            Modal::TopicLabel { label, .. } => push_char(label, c),
            Modal::AclForm { resource_type, resource_name, pattern_type, principal, host, operation, permission, field, .. } => {
                acl_field_mut_push(*field, resource_type, resource_name, pattern_type, principal, host, operation, permission, c);
            },
            _ => {},
        }
    }

    /// Deletes the last character of the active field.
    pub fn backspace(&mut self)
        ensures
            final(self).view() == after_backspace(old(self).view()),
    {
        match self {
            Modal::Produce { key, payload, field, .. } => match *field {
                ModalField::First => drop_last(key),
                _ => drop_last(payload),
            },
            Modal::CreateTopic { name, partitions, field } => match *field {
                ModalField::First => drop_last(name),
                _ => drop_last(partitions),
            },
            Modal::MessageLimit { value } => drop_last(value),
            Modal::ResetOffsets { spec, .. } => drop_last(spec),
            Modal::TopicLabel { label, .. } => drop_last(label),
            Modal::AclForm { resource_type, resource_name, pattern_type, principal, host, operation, permission, field, .. } => {
                acl_field_mut_pop(*field, resource_type, resource_name, pattern_type, principal, host, operation, permission);
            },
            _ => {},
        }
    }

    /// `y` or `Y` in a confirmation dialog.
    pub fn is_yes(&self, c: char) -> (r: bool)
        ensures
            r == (is_confirm(self.view()) && (c == 'y' || c == 'Y')),
    {
        let confirm = match self {
            Modal::DeleteConfirm { .. } | Modal::DeleteGroupConfirm { .. } | Modal::DeleteLabelConfirm { .. }
            | Modal::DeleteAclConfirm { .. } | Modal::DeleteConnectorConfirm { .. } => true,
            _ => false,
        };
        confirm && (c == 'y' || c == 'Y')
    }
}

/// Rows of the key-hint footer: three with the full help, else two.
pub fn footer_rows(show_full_help: bool) -> (r: u16)
    ensures
        r == if show_full_help { 3u16 } else { 2u16 },
{
    if show_full_help {
        3
    } else {
        2
    }
}


// ---------- popup ----------

/// A screen rectangle.
#[derive(Debug, Clone, Copy, PartialEq, Eq, Structural)]
pub struct Rect {
    pub x: u16,
    pub y: u16,
    pub width: u16,
    pub height: u16,
}

/// `width` x `height` centred in `area`, cut to the area.
pub fn centered_rect(width: u16, height: u16, area: Rect) -> (r: Rect)
    requires
        area.x + area.width <= u16::MAX,
        area.y + area.height <= u16::MAX,
    ensures
        r.x == area.x + (if area.width >= width { (area.width - width) / 2 } else { 0 }),
        r.y == area.y + (if area.height >= height { (area.height - height) / 2 } else { 0 }),
        r.width == if width <= area.width { width } else { area.width },
        r.height == if height <= area.height { height } else { area.height },
{
    let x = area.x + (if area.width >= width { area.width - width } else { 0 }) / 2;
    let y = area.y + (if area.height >= height { area.height - height } else { 0 }) / 2;
    Rect {
        x,
        y,
        width: if width <= area.width { width } else { area.width },
        height: if height <= area.height { height } else { area.height },
    }
}

/// Rows of the popup for a dialog.
pub open spec fn popup_height_of(m: ModalView) -> u16 {
    match m {
        ModalView::DeleteConfirm { .. } | ModalView::DeleteGroupConfirm { .. } | ModalView::DeleteLabelConfirm { .. } => 7,
        ModalView::Produce { .. } => 11,
        ModalView::CreateTopic { .. } => 9,
        ModalView::ResetOffsets { .. } => 9,
        ModalView::Filter | ModalView::Command | ModalView::MessageLimit { .. } => 5,
        ModalView::TopicLabel { .. } => 7,
        ModalView::AclForm { .. } => 12,
        ModalView::DeleteAclConfirm { .. } => 8,
        ModalView::DeleteConnectorConfirm { .. } => 7,
    }
}

/// Rows of the popup for `m`.
pub fn popup_height(m: &Modal) -> (r: u16)
    ensures
        r == popup_height_of(m.view()),
{
    match m {
        Modal::DeleteConfirm { .. } | Modal::DeleteGroupConfirm { .. } | Modal::DeleteLabelConfirm { .. } => 7,
        Modal::Produce { .. } => 11,
        Modal::CreateTopic { .. } => 9,
        Modal::ResetOffsets { .. } => 9,
        Modal::Filter | Modal::Command | Modal::MessageLimit { .. } => 5,
        Modal::TopicLabel { .. } => 7,
        Modal::AclForm { .. } => 12,
        Modal::DeleteAclConfirm { .. } => 8,
        Modal::DeleteConnectorConfirm { .. } => 7,
    }
}

/// Columns of the popup: the area width kept within 40..=72.
pub fn popup_width(area_width: u16) -> (r: u16)
    ensures
        r == if area_width < 40 { 40 } else if area_width > 72 { 72 } else { area_width },
{
    if area_width < 40 {
        40
    } else if area_width > 72 {
        72
    } else {
        area_width
    }
}

/// Where the popup for `m` goes in `area`.
pub fn popup_rect(m: &Modal, area: Rect) -> (r: Rect)
    requires
        area.x + area.width <= u16::MAX,
        area.y + area.height <= u16::MAX,
    ensures
        r == centered_rect_of(
            if area.width < 40 { 40 } else if area.width > 72 { 72 } else { area.width },
            popup_height_of(m.view()),
            area,
        ),
{
    centered_rect(popup_width(area.width), popup_height(m), area)
}

pub open spec fn centered_rect_of(width: u16, height: u16, area: Rect) -> Rect {
    Rect {
        x: (area.x + (if area.width >= width { (area.width - width) / 2 } else { 0 })) as u16,
        y: (area.y + (if area.height >= height { (area.height - height) / 2 } else { 0 })) as u16,
        width: if width <= area.width { width } else { area.width },
        height: if height <= area.height { height } else { area.height },
    }
}

// ---------- popup lines ----------

/// `label: value` with the value highlighted and a cursor when active, or
/// dimmed (`(empty)` for nothing) when not.
pub open spec fn field_line_of(label: Seq<char>, value: Seq<char>, active: bool) -> LineView {
    if active {
        seq![(label + ": "@, SpanStyle::ModalLabel), (value, SpanStyle::ModalInput), ("_"@, SpanStyle::ModalCursor)]
    } else {
        seq![(label + ": "@, SpanStyle::ModalLabel), (if value.len() == 0 { "(empty)"@ } else { value }, SpanStyle::Value)]
    }
}

pub open spec fn text_line(text: Seq<char>, style: SpanStyle) -> LineView {
    seq![(text, style)]
}

pub open spec fn empty_line() -> LineView {
    seq![(Seq::<char>::empty(), SpanStyle::Plain)]
}

pub open spec fn confirm_hint() -> LineView {
    text_line("y confirm · n/Esc cancel"@, SpanStyle::FooterHint)
}

/// The body lines of the popup for `m`; `buf` is the filter or command
/// being typed.
pub open spec fn modal_lines_of(m: ModalView, buf: Seq<char>) -> Seq<LineView> {
    match m {
        ModalView::Filter => seq![
            text_line("pattern: "@, SpanStyle::ModalLabel),
            seq![(buf, SpanStyle::ModalInput), ("_"@, SpanStyle::ModalCursor)],
            empty_line(),
            text_line("Enter apply · Esc cancel"@, SpanStyle::FooterHint),
        ],
        ModalView::Command => seq![
            seq![(": "@, SpanStyle::ModalLabel), (buf, SpanStyle::ModalInput), ("_"@, SpanStyle::ModalCursor)],
            empty_line(),
            text_line("context <name> · clusters · help  (Enter run, Esc cancel)"@, SpanStyle::FooterHint),
        ],
        ModalView::Produce { topic, key, payload, field } => seq![
            seq![("topic: "@, SpanStyle::ModalLabel), (topic, SpanStyle::Value)],
            field_line_of("key"@, key, field == ModalField::First),
            field_line_of("payload"@, payload, field != ModalField::First),
            empty_line(),
            text_line("Tab next field · Enter send · Esc cancel"@, SpanStyle::FooterHint),
        ],
        ModalView::CreateTopic { name, partitions, field } => seq![
            field_line_of("name"@, name, field == ModalField::First),
            field_line_of("partitions"@, partitions, field != ModalField::First),
            empty_line(),
            text_line("Tab next · Enter create · Esc cancel"@, SpanStyle::FooterHint),
        ],
        ModalView::DeleteConfirm { topic } => seq![
            text_line("Delete topic \""@ + topic + "\"?"@, SpanStyle::Error),
            empty_line(),
            confirm_hint(),
        ],
        ModalView::MessageLimit { value } => seq![
            field_line_of("limit"@, value, true),
            empty_line(),
            text_line("10–10000 · Enter apply · Esc cancel"@, SpanStyle::FooterHint),
        ],
        ModalView::DeleteGroupConfirm { group } => seq![
            text_line("Delete consumer group \""@ + group + "\"?"@, SpanStyle::Error),
            empty_line(),
            confirm_hint(),
        ],
        ModalView::DeleteLabelConfirm { label, topic_count } => seq![
            text_line("Remove label \""@ + label + "\" from all topics?"@, SpanStyle::Error),
            text_line("("@ + dec(topic_count as nat) + " topic(s) in this cluster)"@, SpanStyle::Value),
            empty_line(),
            confirm_hint(),
        ],
        ModalView::ResetOffsets { group, spec } => seq![
            seq![("group: "@, SpanStyle::ModalLabel), (group, SpanStyle::Value)],
            field_line_of("spec"@, spec, true),
            empty_line(),
            text_line("earliest · latest · offset:N · timestamp:UNIX_MS"@, SpanStyle::FooterHint),
            text_line("Enter apply · Esc cancel  (group must be Empty/Dead)"@, SpanStyle::FooterHint),
        ],
        ModalView::TopicLabel { label, add, topic_count } => seq![
            text_line((if add { "add to"@ } else { "remove from"@ }) + " "@ + dec(topic_count as nat) + " topic(s)"@, SpanStyle::Value),
            field_line_of("label"@, label, true),
            empty_line(),
            text_line("lowercase, no spaces · Enter apply · Esc cancel"@, SpanStyle::FooterHint),
        ],
        ModalView::AclForm { edit, replace, fields, field } => seq![
            field_line_of("resource type"@, fields[0], field == AclFormField::ResourceType),
            field_line_of("resource name"@, fields[1], field == AclFormField::ResourceName),
            field_line_of("pattern"@, fields[2], field == AclFormField::PatternType),
            field_line_of("principal"@, fields[3], field == AclFormField::Principal),
            field_line_of("host"@, fields[4], field == AclFormField::Host),
            field_line_of("operation"@, fields[5], field == AclFormField::Operation),
            field_line_of("permission"@, fields[6], field == AclFormField::Permission),
            empty_line(),
            text_line("Tab next field · Enter save · Esc cancel"@, SpanStyle::FooterHint),
        ],
        ModalView::DeleteAclConfirm { spec, summary } => seq![
            text_line("Delete ACL?"@, SpanStyle::Error),
            text_line(summary, SpanStyle::Value),
            empty_line(),
            confirm_hint(),
        ],
        ModalView::DeleteConnectorConfirm { name } => seq![
            text_line("Delete connector \""@ + name + "\"?"@, SpanStyle::Error),
            empty_line(),
            confirm_hint(),
        ],
    }
}

fn sp(text: String, style: SpanStyle) -> (r: StyledSpan)
    ensures
        r.text@ == text@,
        r.style == style,
{
    StyledSpan { text, style }
}

fn line1(text: String, style: SpanStyle) -> (r: StyledLine)
    ensures
        line_view(r) == text_line(text@, style),
{
    let mut spans = Vec::new();
    spans.push(sp(text, style));
    let r = StyledLine { spans };
    assert(line_view(r) =~= text_line(r.spans@[0].text@, style));
    r
}

fn line2(a: String, sa: SpanStyle, b: String, sb: SpanStyle) -> (r: StyledLine)
    ensures
        line_view(r) == seq![(a@, sa), (b@, sb)],
{
    let ghost av = a@;
    let ghost bv = b@;
    let mut spans = Vec::new();
    spans.push(sp(a, sa));
    spans.push(sp(b, sb));
    let r = StyledLine { spans };
    assert(line_view(r) =~= seq![(av, sa), (bv, sb)]);
    r
}

fn line3(a: String, sa: SpanStyle, b: String, sb: SpanStyle, c: String, sc: SpanStyle) -> (r: StyledLine)
    ensures
        line_view(r) == seq![(a@, sa), (b@, sb), (c@, sc)],
{
    let ghost av = a@;
    let ghost bv = b@;
    let ghost cv = c@;
    let mut spans = Vec::new();
    spans.push(sp(a, sa));
    spans.push(sp(b, sb));
    spans.push(sp(c, sc));
    let r = StyledLine { spans };
    assert(line_view(r) =~= seq![(av, sa), (bv, sb), (cv, sc)]);
    r
}

fn empty() -> (r: StyledLine)
    ensures
        line_view(r) == empty_line(),
{
    let r = line1(String::new(), SpanStyle::Plain);
    assert(text_line(Seq::<char>::empty(), SpanStyle::Plain) =~= empty_line());
    r
}

fn hint(text: &str) -> (r: StyledLine)
    ensures
        line_view(r) == text_line(text@, SpanStyle::FooterHint),
{
    line1(String::from_str(text), SpanStyle::FooterHint)
}

/// A form field line (see `field_line_of`).
pub fn field_line(label: &str, value: &str, active: bool) -> (r: StyledLine)
    ensures
        line_view(r) == field_line_of(label@, value@, active),
{
    let mut l = String::from_str(label);
    l.append(": ");
    if active {
        line3(l, SpanStyle::ModalLabel, String::from_str(value), SpanStyle::ModalInput, String::from_str("_"), SpanStyle::ModalCursor)
    } else {
        let text = if value.unicode_len() == 0 {
            String::from_str("(empty)")
        } else {
            String::from_str(value)
        };
        line2(l, SpanStyle::ModalLabel, text, SpanStyle::Value)
    }
}

fn quoted(prefix: &str, middle: &str, suffix: &str) -> (r: String)
    ensures
        r@ == prefix@ + middle@ + suffix@,
{
    let mut s = String::from_str(prefix);
    s.append(middle);
    s.append(suffix);
    s
}

/// The body lines of the popup for `m` (see `modal_lines_of`).
pub fn modal_lines(m: &Modal, buf: &str) -> (r: Vec<StyledLine>)
    ensures
        lines_view(r@) == modal_lines_of(m.view(), buf@),
{
    let mut out: Vec<StyledLine> = Vec::new();
    match m {
        Modal::Filter => {
            out.push(line1(String::from_str("pattern: "), SpanStyle::ModalLabel));
            out.push(line2(String::from_str(buf), SpanStyle::ModalInput, String::from_str("_"), SpanStyle::ModalCursor));
            out.push(empty());
            out.push(hint("Enter apply · Esc cancel"));
        },
        Modal::Command => {
            out.push(line3(String::from_str(": "), SpanStyle::ModalLabel, String::from_str(buf), SpanStyle::ModalInput,
                String::from_str("_"), SpanStyle::ModalCursor));
            out.push(empty());
            out.push(hint("context <name> · clusters · help  (Enter run, Esc cancel)"));
        },
        Modal::Produce { topic, key, payload, field } => {
            out.push(line2(String::from_str("topic: "), SpanStyle::ModalLabel, topic.clone(), SpanStyle::Value));
            out.push(field_line("key", key.as_str(), *field == ModalField::First));
            out.push(field_line("payload", payload.as_str(), *field != ModalField::First));
            out.push(empty());
            out.push(hint("Tab next field · Enter send · Esc cancel"));
        },
        Modal::CreateTopic { name, partitions, field } => {
            out.push(field_line("name", name.as_str(), *field == ModalField::First));
            out.push(field_line("partitions", partitions.as_str(), *field != ModalField::First));
            out.push(empty());
            out.push(hint("Tab next · Enter create · Esc cancel"));
        },
        Modal::DeleteConfirm { topic } => {
            out.push(line1(quoted("Delete topic \"", topic.as_str(), "\"?"), SpanStyle::Error));
            out.push(empty());
            out.push(hint("y confirm · n/Esc cancel"));
        },
        Modal::MessageLimit { value } => {
            out.push(field_line("limit", value.as_str(), true));
            out.push(empty());
            out.push(hint("10–10000 · Enter apply · Esc cancel"));
        },
        Modal::DeleteGroupConfirm { group } => {
            out.push(line1(quoted("Delete consumer group \"", group.as_str(), "\"?"), SpanStyle::Error));
            out.push(empty());
            out.push(hint("y confirm · n/Esc cancel"));
        },
        Modal::DeleteLabelConfirm { label, topic_count } => {
            out.push(line1(quoted("Remove label \"", label.as_str(), "\" from all topics?"), SpanStyle::Error));
            let n = fmt_usize(*topic_count);
            out.push(line1(quoted("(", n.as_str(), " topic(s) in this cluster)"), SpanStyle::Value));
            out.push(empty());
            out.push(hint("y confirm · n/Esc cancel"));
        },
        Modal::ResetOffsets { group, spec } => {
            out.push(line2(String::from_str("group: "), SpanStyle::ModalLabel, group.clone(), SpanStyle::Value));
            out.push(field_line("spec", spec.as_str(), true));
            out.push(empty());
            out.push(hint("earliest · latest · offset:N · timestamp:UNIX_MS"));
            out.push(hint("Enter apply · Esc cancel  (group must be Empty/Dead)"));
        },
        Modal::TopicLabel { label, add, topic_count } => {
            let action = if *add { "add to" } else { "remove from" };
            let n = fmt_usize(*topic_count);
            let mut t = String::from_str(action);
            t.append(" ");
            t.append(n.as_str());
            t.append(" topic(s)");
            out.push(line1(t, SpanStyle::Value));
            out.push(field_line("label", label.as_str(), true));
            out.push(empty());
            out.push(hint("lowercase, no spaces · Enter apply · Esc cancel"));
        },
        Modal::AclForm { resource_type, resource_name, pattern_type, principal, host, operation, permission, field, .. } => {
            out.push(field_line("resource type", resource_type.as_str(), *field == AclFormField::ResourceType));
            out.push(field_line("resource name", resource_name.as_str(), *field == AclFormField::ResourceName));
            out.push(field_line("pattern", pattern_type.as_str(), *field == AclFormField::PatternType));
            out.push(field_line("principal", principal.as_str(), *field == AclFormField::Principal));
            out.push(field_line("host", host.as_str(), *field == AclFormField::Host));
            out.push(field_line("operation", operation.as_str(), *field == AclFormField::Operation));
            out.push(field_line("permission", permission.as_str(), *field == AclFormField::Permission));
            out.push(empty());
            out.push(hint("Tab next field · Enter save · Esc cancel"));
        },
        Modal::DeleteAclConfirm { summary, .. } => {
            out.push(line1(String::from_str("Delete ACL?"), SpanStyle::Error));
            out.push(line1(summary.clone(), SpanStyle::Value));
            out.push(empty());
            out.push(hint("y confirm · n/Esc cancel"));
        },
        Modal::DeleteConnectorConfirm { name } => {
            out.push(line1(quoted("Delete connector \"", name.as_str(), "\"?"), SpanStyle::Error));
            out.push(empty());
            out.push(hint("y confirm · n/Esc cancel"));
        },
    }
    assert(lines_view(out@) =~= modal_lines_of(m.view(), buf@));
    out
}

} // verus!
