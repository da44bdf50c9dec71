//! Turning a channel message into an event envelope: identifiers, source,
//! tenant, subject, a payload made of the message's content, and metadata.
use vstd::prelude::*;
use crate::json::{entries_view, items_view, jget, lemma_entries_view, lemma_items_view, Json, JsonNumber, JsonV, NumberV};
use crate::scope::{clone_opt, opt_view};
use crate::text::{clone_pairs, concat, insert_pair, law_pairs_insert_get, owned, pair_get, pairs_insert, pairs_view};

verus! {

/// How a message becomes an event: its topic, its type and an optional source.
#[derive(Clone, Debug)]
pub struct Msg2EventConfig {
    pub topic: String,
    pub event_type: String,
    pub source: Option<String>,
}

/// A message with the configuration to convert it with.
#[derive(Clone, Debug)]
pub struct ConvertInput {
    pub message: MessageInput,
    pub config: Msg2EventConfig,
}

/// A channel message envelope.
#[derive(Clone, Debug)]
pub struct MessageInput {
    pub id: String,
    pub tenant: TenantInput,
    pub channel: String,
    pub session_id: String,
    pub reply_scope: Option<Json>,
    pub from: Option<ActorInput>,
    pub to: Vec<DestinationInput>,
    pub correlation_id: Option<String>,
    pub text: Option<String>,
    pub attachments: Vec<AttachmentInput>,
    /// Free-form metadata, keyed by name.
    pub metadata: Vec<(String, String)>,
}

/// The tenant a message belongs to.
#[derive(Clone, Debug)]
pub struct TenantInput {
    pub tenant_id: String,
    pub team_id: Option<String>,
    pub user_id: Option<String>,
    pub env_id: String,
}

/// Who sent a message.
#[derive(Clone, Debug)]
pub struct ActorInput {
    pub id: String,
    pub kind: Option<String>,
}

/// Where a message goes.
#[derive(Clone, Debug)]
pub struct DestinationInput {
    pub id: String,
    pub kind: Option<String>,
}

/// A file attached to a message.
#[derive(Clone, Debug)]
pub struct AttachmentInput {
    pub mime_type: String,
    pub url: String,
    pub name: Option<String>,
    pub size_bytes: Option<u64>,
}

/// An event envelope.
#[derive(Clone, Debug)]
pub struct EventOutput {
    pub id: String,
    pub topic: String,
    pub event_type: String,
    pub source: String,
    pub tenant: TenantOutput,
    pub subject: Option<String>,
    pub time: String,
    pub correlation_id: Option<String>,
    pub payload: Json,
    /// Free-form metadata, keyed by name.
    pub metadata: Vec<(String, String)>,
}

/// The tenant an event belongs to.
#[derive(Clone, Debug)]
pub struct TenantOutput {
    pub tenant_id: String,
    pub team_id: Option<String>,
    pub user_id: Option<String>,
    pub env_id: String,
}

/// The capabilities the converter needs: none.
pub fn required_capabilities() -> (r: Vec<String>)
    ensures
        r@.len() == 0,
{
    Vec::new()
}

/// The capabilities the converter offers: `flow2flow:msg2event`.
pub fn provided_capabilities() -> (r: Vec<String>)
    ensures
        r@.len() == 1,
        r@[0]@ == "flow2flow:msg2event"@,
{
    let mut r: Vec<String> = Vec::new();
    r.push(owned("flow2flow:msg2event"));
    r
}

/// An object with an `id` and, when set, a `kind`.
pub open spec fn id_kind_json(id: Seq<char>, kind: Option<String>) -> JsonV {
    JsonV::Object(
        match kind {
            Some(k) => seq![("id"@, JsonV::Str(id)), ("kind"@, JsonV::Str(k@))],
            None => seq![("id"@, JsonV::Str(id))],
        },
    )
}

/// An attachment as JSON: `mime_type`, `name` when set, `size_bytes` when
/// set, `url`.
pub open spec fn attachment_json(a: AttachmentInput) -> JsonV {
    let head = seq![("mime_type"@, JsonV::Str(a.mime_type@))];
    let with_name = match a.name {
        Some(n) => head.push(("name"@, JsonV::Str(n@))),
        None => head,
    };
    let with_size = match a.size_bytes {
        Some(s) => with_name.push(("size_bytes"@, JsonV::Number(NumberV::PosInt(s)))),
        None => with_name,
    };
    JsonV::Object(with_size.push(("url"@, JsonV::Str(a.url@))))
}

/// The payload of the event a message becomes, keys in order: the
/// attachments when there are any, the channel, the sender when there is
/// one, the reply scope when there is one, the session, the text when there
/// is one, the destinations when there are any.
pub open spec fn event_payload(m: MessageInput) -> JsonV {
    let e0: Seq<(Seq<char>, JsonV)> = if m.attachments@.len() > 0 {
        seq![("attachments"@, JsonV::Array(m.attachments@.map_values(|a: AttachmentInput| attachment_json(a))))]
    } else {
        Seq::empty()
    };
    let e1 = e0.push(("channel"@, JsonV::Str(m.channel@)));
    let e2 = match m.from {
        Some(a) => e1.push(("from"@, id_kind_json(a.id@, a.kind))),
        None => e1,
    };
    let e3 = match m.reply_scope {
        Some(r) => e2.push(("reply_scope"@, r@)),
        None => e2,
    };
    let e4 = e3.push(("session_id"@, JsonV::Str(m.session_id@)));
    let e5 = match m.text {
        Some(t) => e4.push(("text"@, JsonV::Str(t@))),
        None => e4,
    };
    let e6 = if m.to@.len() > 0 {
        e5.push(("to"@, JsonV::Array(m.to@.map_values(|d: DestinationInput| id_kind_json(d.id@, d.kind)))))
    } else {
        e5
    };
    JsonV::Object(e6)
}

/// The entries of a message's event payload.
spec fn payload_entries(m: MessageInput) -> Seq<(Seq<char>, JsonV)> {
    crate::ctx::object_entries(event_payload(m))
}

/// Looking a key up in entries where exactly the entry at `i` carries it.
proof fn lemma_lookup_at(entries: Seq<(Seq<char>, JsonV)>, key: Seq<char>, i: int)
    requires
        0 <= i < entries.len(),
        entries[i].0 == key,
        forall|j: int| 0 <= j < i ==> entries[j].0 != key,
    ensures
        jget(JsonV::Object(entries), key) == Some(entries[i].1),
{
    crate::json::lemma_find_key_unique(entries, key, i);
}

/// A destination as it appears in an event payload: its `id`, and its `kind`
/// when it has one.
pub proof fn law_destination_json(id: Seq<char>, kind: Option<String>)
    ensures
        jget(id_kind_json(id, kind), "id"@) == Some(JsonV::Str(id)),
        jget(id_kind_json(id, kind), "kind"@) == match kind {
            Some(k) => Some(JsonV::Str(k@)),
            None => None::<JsonV>,
        },
{
    reveal_strlit("id");
    reveal_strlit("kind");
    let e = crate::ctx::object_entries(id_kind_json(id, kind));
    assert("id"@.len() == 2 && "kind"@.len() == 4);
    assert(e[0].0 == "id"@);
    assert(e[0].0 != "kind"@);
    lemma_lookup_at(e, "id"@, 0);
    match kind {
        Some(k) => {
            lemma_lookup_at(e, "kind"@, 1);
        },
        None => {
            crate::json::lemma_find_key_none(e, "kind"@);
        },
    }
}

proof fn lemma_push_other(s: Seq<(Seq<char>, JsonV)>, k: Seq<char>, v: JsonV, key: Seq<char>)
    requires
        crate::json::find_key(s, key) is None,
        k != key,
    ensures
        crate::json::find_key(s.push((k, v)), key) is None,
{
    assert(s.push((k, v)).drop_last() =~= s);
}

/// The entries of an event payload before its destinations.
spec fn payload_head(m: MessageInput) -> Seq<(Seq<char>, JsonV)> {
    let e0: Seq<(Seq<char>, JsonV)> = if m.attachments@.len() > 0 {
        seq![("attachments"@, JsonV::Array(m.attachments@.map_values(|a: AttachmentInput| attachment_json(a))))]
    } else {
        Seq::empty()
    };
    let e1 = e0.push(("channel"@, JsonV::Str(m.channel@)));
    let e2 = match m.from {
        Some(a) => e1.push(("from"@, id_kind_json(a.id@, a.kind))),
        None => e1,
    };
    let e3 = match m.reply_scope {
        Some(r) => e2.push(("reply_scope"@, r@)),
        None => e2,
    };
    let e4 = e3.push(("session_id"@, JsonV::Str(m.session_id@)));
    match m.text {
        Some(t) => e4.push(("text"@, JsonV::Str(t@))),
        None => e4,
    }
}

proof fn lemma_no_to_in_head(m: MessageInput)
    ensures
        crate::json::find_key(payload_head(m), "to"@) is None,
        event_payload(m) == JsonV::Object(
            if m.to@.len() > 0 {
                payload_head(m).push(("to"@, JsonV::Array(m.to@.map_values(|d: DestinationInput| id_kind_json(d.id@, d.kind)))))
            } else {
                payload_head(m)
            },
        ),
{
    reveal_strlit("attachments");
    reveal_strlit("channel");
    reveal_strlit("from");
    reveal_strlit("reply_scope");
    reveal_strlit("session_id");
    reveal_strlit("text");
    reveal_strlit("to");
    let key = "to"@;
    assert(key.len() == 2);
    assert("attachments"@.len() == 11 && "channel"@.len() == 7 && "from"@.len() == 4);
    assert("reply_scope"@.len() == 11 && "session_id"@.len() == 10 && "text"@.len() == 4);
    assert("attachments"@ != key && "channel"@ != key && "from"@ != key);
    assert("reply_scope"@ != key && "session_id"@ != key && "text"@ != key);
    let e0: Seq<(Seq<char>, JsonV)> = if m.attachments@.len() > 0 {
        seq![("attachments"@, JsonV::Array(m.attachments@.map_values(|a: AttachmentInput| attachment_json(a))))]
    } else {
        Seq::empty()
    };
    if m.attachments@.len() > 0 {
        lemma_push_other(Seq::empty(), "attachments"@, e0[0].1, key);
        assert(Seq::<(Seq<char>, JsonV)>::empty().push(("attachments"@, e0[0].1)) =~= e0);
    }
    assert(crate::json::find_key(e0, key) is None);
    let e1 = e0.push(("channel"@, JsonV::Str(m.channel@)));
    lemma_push_other(e0, "channel"@, JsonV::Str(m.channel@), key);
    let e2 = match m.from {
        Some(a) => e1.push(("from"@, id_kind_json(a.id@, a.kind))),
        None => e1,
    };
    if let Some(a) = m.from {
        lemma_push_other(e1, "from"@, id_kind_json(a.id@, a.kind), key);
    }
    let e3 = match m.reply_scope {
        Some(r) => e2.push(("reply_scope"@, r@)),
        None => e2,
    };
    if let Some(r) = m.reply_scope {
        lemma_push_other(e2, "reply_scope"@, r@, key);
    }
    let e4 = e3.push(("session_id"@, JsonV::Str(m.session_id@)));
    lemma_push_other(e3, "session_id"@, JsonV::Str(m.session_id@), key);
    if let Some(t) = m.text {
        lemma_push_other(e4, "text"@, JsonV::Str(t@), key);
    }
}

/// An event payload carries the message's channel and session, and its
/// destinations: when the message has any, under `to` as an array holding,
/// in order, each destination's `id` and its `kind` when set; when it has
/// none, there is no `to`.
pub proof fn law_event_payload_fields(m: MessageInput)
    ensures
        jget(event_payload(m), "channel"@) == Some(JsonV::Str(m.channel@)),
        jget(event_payload(m), "session_id"@) == Some(JsonV::Str(m.session_id@)),
        m.to@.len() == 0 ==> jget(event_payload(m), "to"@) is None,
        m.to@.len() > 0 ==> jget(event_payload(m), "to"@) is Some,
        m.to@.len() > 0 ==> jget(event_payload(m), "to"@)->0 is Array,
        m.to@.len() > 0 ==> jget(event_payload(m), "to"@)->0->Array_0.len() == m.to@.len(),
        m.to@.len() > 0 ==> forall|k: int| 0 <= k < m.to@.len() ==> jget(
            #[trigger] jget(event_payload(m), "to"@)->0->Array_0[k],
            "id"@,
        ) == Some(JsonV::Str(m.to@[k].id@)),
        m.to@.len() > 0 ==> forall|k: int| 0 <= k < m.to@.len() ==> jget(
            #[trigger] jget(event_payload(m), "to"@)->0->Array_0[k],
            "kind"@,
        ) == match m.to@[k].kind {
            Some(kk) => Some(JsonV::Str(kk@)),
            None => None::<JsonV>,
        },
{
    reveal_strlit("attachments");
    reveal_strlit("channel");
    reveal_strlit("from");
    reveal_strlit("reply_scope");
    reveal_strlit("session_id");
    reveal_strlit("text");
    reveal_strlit("to");
    let e = payload_entries(m);
    let c = if m.attachments@.len() > 0 { 1int } else { 0int };
    assert(e[c].0 == "channel"@);
    lemma_lookup_at(e, "channel"@, c);
    let si = c + 1 + (if m.from is Some { 1int } else { 0int }) + (if m.reply_scope is Some { 1int } else { 0int });
    assert(e[si].0 == "session_id"@);
    assert forall|j: int| 0 <= j < si implies e[j].0 != "session_id"@ by {}
    lemma_lookup_at(e, "session_id"@, si);
    lemma_no_to_in_head(m);
    let h = payload_head(m);
    if m.to@.len() == 0 {
        assert(e == h);
    } else {
        let items0 = JsonV::Array(m.to@.map_values(|d: DestinationInput| id_kind_json(d.id@, d.kind)));
        assert(e == h.push(("to"@, items0)));
        assert(e.drop_last() =~= h);
        crate::json::lemma_find_key(h, "to"@);
        assert(crate::json::find_key(e, "to"@) == Some(h.len() as int));
        let items = m.to@.map_values(|d: DestinationInput| id_kind_json(d.id@, d.kind));
        assert(jget(event_payload(m), "to"@) == Some(JsonV::Array(items)));
        assert forall|k: int| 0 <= k < m.to@.len() implies jget(#[trigger] items[k], "id"@) == Some(JsonV::Str(m.to@[k].id@))
            && jget(items[k], "kind"@) == match m.to@[k].kind {
                Some(kk) => Some(JsonV::Str(kk@)),
                None => None::<JsonV>,
            } by {
            law_destination_json(m.to@[k].id@, m.to@[k].kind);
        }
    }
}

fn id_kind_value(id: &String, kind: &Option<String>) -> (v: Json)
    ensures
        v@ == id_kind_json(id@, *kind),
{
    let mut entries: Vec<(String, Json)> = Vec::new();
    entries.push((owned("id"), Json::String(id.clone())));
    if let Some(k) = kind {
        entries.push((owned("kind"), Json::String(k.clone())));
    }
    proof {
        reveal_strlit("id");
        reveal_strlit("kind");
        lemma_entries_view(entries@);
        assert(entries_view(entries@) =~= crate::ctx::object_entries(id_kind_json(id@, *kind)));
    }
    Json::Object(entries)
}

fn attachment_value(a: &AttachmentInput) -> (v: Json)
    ensures
        v@ == attachment_json(*a),
{
    let mut entries: Vec<(String, Json)> = Vec::new();
    entries.push((owned("mime_type"), Json::String(a.mime_type.clone())));
    if let Some(n) = &a.name {
        entries.push((owned("name"), Json::String(n.clone())));
    }
    if let Some(s) = a.size_bytes {
        entries.push((owned("size_bytes"), Json::Number(JsonNumber::PosInt(s))));
    }
    entries.push((owned("url"), Json::String(a.url.clone())));
    proof {
        reveal_strlit("mime_type");
        reveal_strlit("name");
        reveal_strlit("size_bytes");
        reveal_strlit("url");
        lemma_entries_view(entries@);
        assert(entries_view(entries@) =~= crate::ctx::object_entries(attachment_json(*a)));
    }
    Json::Object(entries)
}

/// Builds the payload of the event a message becomes.
pub fn build_event_payload(message: &MessageInput) -> (v: Json)
    ensures
        v@ == event_payload(*message),
{
    let mut entries: Vec<(String, Json)> = Vec::new();
    let ghost mut spec_entries: Seq<(Seq<char>, JsonV)> = Seq::empty();
    proof {
        reveal_strlit("attachments");
        reveal_strlit("channel");
        reveal_strlit("from");
        reveal_strlit("reply_scope");
        reveal_strlit("session_id");
        reveal_strlit("text");
        reveal_strlit("to");
    }
    if message.attachments.len() > 0 {
        let mut items: Vec<Json> = Vec::new();
        let mut i: usize = 0;
        while i < message.attachments.len()
            invariant
                i <= message.attachments@.len(),
                items@.len() == i,
                forall|j: int| 0 <= j < i ==> #[trigger] items@[j]@ == attachment_json(message.attachments@[j]),
            decreases message.attachments@.len() - i,
        {
            items.push(attachment_value(&message.attachments[i]));
            i = i + 1;
        }
        proof {
            lemma_items_view(items@);
            let target = message.attachments@.map_values(|a: AttachmentInput| attachment_json(a));
            assert forall|j: int| 0 <= j < items@.len() implies #[trigger] items_view(items@)[j] == target[j] by {
                assert(items_view(items@)[j] == items@[j]@);
            }
            assert(items_view(items@) =~= target);
        }
        entries.push((owned("attachments"), Json::Array(items)));
    }
    entries.push((owned("channel"), Json::String(message.channel.clone())));
    if let Some(a) = &message.from {
        entries.push((owned("from"), id_kind_value(&a.id, &a.kind)));
    }
    if let Some(r) = &message.reply_scope {
        entries.push((owned("reply_scope"), r.clone()));
    }
    entries.push((owned("session_id"), Json::String(message.session_id.clone())));
    if let Some(t) = &message.text {
        entries.push((owned("text"), Json::String(t.clone())));
    }
    if message.to.len() > 0 {
        let mut items: Vec<Json> = Vec::new();
        let mut i: usize = 0;
        while i < message.to.len()
            invariant
                i <= message.to@.len(),
                items@.len() == i,
                forall|j: int| 0 <= j < i ==> #[trigger] items@[j]@ == id_kind_json(message.to@[j].id@, message.to@[j].kind),
            decreases message.to@.len() - i,
        {
            items.push(id_kind_value(&message.to[i].id, &message.to[i].kind));
            i = i + 1;
        }
        proof {
            lemma_items_view(items@);
            let target = message.to@.map_values(|d: DestinationInput| id_kind_json(d.id@, d.kind));
            assert forall|j: int| 0 <= j < items@.len() implies #[trigger] items_view(items@)[j] == target[j] by {
                assert(items_view(items@)[j] == items@[j]@);
            }
            assert(items_view(items@) =~= target);
        }
        entries.push((owned("to"), Json::Array(items)));
    }
    proof {
        lemma_entries_view(entries@);
        assert(entries_view(entries@) =~= crate::ctx::object_entries(event_payload(*message)));
    }
    Json::Object(entries)
}

/// The metadata of the event: the message's, with the message's id, channel,
/// session and, when there is a sender, its id and (when set) kind added.
pub open spec fn event_metadata(m: MessageInput) -> Seq<(Seq<char>, Seq<char>)> {
    let base = pairs_insert(
        pairs_insert(pairs_insert(pairs_view(m.metadata@), "message_id"@, m.id@), "message_channel"@, m.channel@),
        "message_session_id"@,
        m.session_id@,
    );
    match m.from {
        Some(a) => {
            let with_id = pairs_insert(base, "message_from_id"@, a.id@);
            match a.kind {
                Some(k) => pairs_insert(with_id, "message_from_kind"@, k@),
                None => with_id,
            }
        },
        None => base,
    }
}

/// The metadata of the event a message becomes: `message_id`,
/// `message_channel` and `message_session_id` hold the message's id, channel
/// and session, `message_from_id` and `message_from_kind` its sender's id and
/// kind when they are set, and every other key holds what the message's own
/// metadata holds under it.
pub proof fn law_event_metadata(m: MessageInput, other: Seq<char>)
    ensures
        pair_get(event_metadata(m), "message_id"@) == Some(m.id@),
        pair_get(event_metadata(m), "message_channel"@) == Some(m.channel@),
        pair_get(event_metadata(m), "message_session_id"@) == Some(m.session_id@),
        m.from is Some ==> pair_get(event_metadata(m), "message_from_id"@) == Some(m.from->0.id@),
        m.from is Some && m.from->0.kind is Some ==> pair_get(event_metadata(m), "message_from_kind"@) == Some(
            m.from->0.kind->0@,
        ),
        other != "message_id"@ && other != "message_channel"@ && other != "message_session_id"@ && other
            != "message_from_id"@ && other != "message_from_kind"@ ==> pair_get(event_metadata(m), other) == pair_get(
            pairs_view(m.metadata@),
            other,
        ),
{
    reveal_strlit("message_id");
    reveal_strlit("message_channel");
    reveal_strlit("message_session_id");
    reveal_strlit("message_from_id");
    reveal_strlit("message_from_kind");
    let (a, b, c, d, e) = ("message_id"@, "message_channel"@, "message_session_id"@, "message_from_id"@, "message_from_kind"@);
    assert(a.len() == 10 && b.len() == 15 && c.len() == 18 && d.len() == 15 && e.len() == 17);
    assert(b[8] != d[8]);
    assert(a != b && a != c && a != d && a != e && b != c && b != d && b != e && c != d && c != e && d != e);
    let m0 = pairs_view(m.metadata@);
    let m1 = pairs_insert(m0, a, m.id@);
    let m2 = pairs_insert(m1, b, m.channel@);
    let m3 = pairs_insert(m2, c, m.session_id@);
    law_pairs_insert_get(m0, a, m.id@, other);
    law_pairs_insert_get(m1, b, m.channel@, other);
    law_pairs_insert_get(m2, c, m.session_id@, other);
    law_pairs_insert_get(m1, b, m.channel@, a);
    law_pairs_insert_get(m2, c, m.session_id@, a);
    law_pairs_insert_get(m2, c, m.session_id@, b);
    match m.from {
        Some(act) => {
            let m4 = pairs_insert(m3, d, act.id@);
            law_pairs_insert_get(m3, d, act.id@, other);
            law_pairs_insert_get(m3, d, act.id@, a);
            law_pairs_insert_get(m3, d, act.id@, b);
            law_pairs_insert_get(m3, d, act.id@, c);
            match act.kind {
                Some(k) => {
                    law_pairs_insert_get(m4, e, k@, other);
                    law_pairs_insert_get(m4, e, k@, a);
                    law_pairs_insert_get(m4, e, k@, b);
                    law_pairs_insert_get(m4, e, k@, c);
                    law_pairs_insert_get(m4, e, k@, d);
                },
                None => {},
            }
        },
        None => {},
    }
}

/// The event a message becomes.
pub open spec fn event_of(input: ConvertInput, e: EventOutput) -> bool {
    let m = input.message;
    let config = input.config;
    &&& e.id@ == "evt-"@ + m.id@
    &&& e.topic@ == config.topic@
    &&& e.event_type@ == config.event_type@
    &&& e.source@ == match config.source {
        Some(s) => s@,
        None => "greentic.messaging."@ + m.channel@,
    }
    &&& e.tenant.tenant_id@ == m.tenant.tenant_id@
    &&& opt_view(e.tenant.team_id) == opt_view(m.tenant.team_id)
    &&& opt_view(e.tenant.user_id) == opt_view(m.tenant.user_id)
    &&& e.tenant.env_id@ == m.tenant.env_id@
    &&& opt_view(e.subject) == match m.from {
        Some(a) => Some("user:"@ + a.id@),
        None => None,
    }
    &&& e.time@ == Seq::<char>::empty()
    &&& opt_view(e.correlation_id) == opt_view(m.correlation_id)
    &&& e.payload@ == event_payload(m)
    &&& pairs_view(e.metadata@) == event_metadata(m)
}

/// Converts a channel message into an event.
pub fn event_from_message(input: &ConvertInput) -> (e: EventOutput)
    ensures
        event_of(*input, e),
{
    let message = &input.message;
    let config = &input.config;
    proof {
        reveal_strlit("evt-");
        reveal_strlit("greentic.messaging.");
        reveal_strlit("user:");
        reveal_strlit("message_id");
        reveal_strlit("message_channel");
        reveal_strlit("message_session_id");
        reveal_strlit("message_from_id");
        reveal_strlit("message_from_kind");
    }
    let id = concat("evt-", message.id.as_str());
    let source = match &config.source {
        Some(s) => s.clone(),
        None => concat("greentic.messaging.", message.channel.as_str()),
    };
    let payload = build_event_payload(message);
    let tenant = TenantOutput {
        tenant_id: message.tenant.tenant_id.clone(),
        team_id: clone_opt(&message.tenant.team_id),
        user_id: clone_opt(&message.tenant.user_id),
        env_id: message.tenant.env_id.clone(),
    };
    let subject = match &message.from {
        Some(a) => Some(concat("user:", a.id.as_str())),
        None => None,
    };
    let mut metadata = clone_pairs(&message.metadata);
    insert_pair(&mut metadata, owned("message_id"), message.id.clone());
    insert_pair(&mut metadata, owned("message_channel"), message.channel.clone());
    insert_pair(&mut metadata, owned("message_session_id"), message.session_id.clone());
    if let Some(a) = &message.from {
        insert_pair(&mut metadata, owned("message_from_id"), a.id.clone());
        if let Some(k) = &a.kind {
            insert_pair(&mut metadata, owned("message_from_kind"), k.clone());
        }
    }
    EventOutput {
        id,
        topic: config.topic.clone(),
        event_type: config.event_type.clone(),
        source,
        tenant,
        subject,
        time: String::new(),
        correlation_id: clone_opt(&message.correlation_id),
        payload,
        metadata,
    }
}

}
