//! Turning an event envelope into a channel message: identifiers, session,
//! tenant, text from a template or from the payload, and metadata.
use vstd::prelude::*;
use crate::ctx::{get_in, json_at};
use crate::json::{jget, Json, JsonNumber, JsonV, NumberV};
use crate::json_text::{json_compact, json_text};
use crate::scope::{clone_opt, opt_view};
use crate::text::{
    chars_of, clone_pairs, concat, decimal, find_chars, find_sub, i64_text, insert_pair, law_pairs_insert_get, lemma_find_sub, pair_get,
    lemma_split_nonempty, occurs_at, owned, pairs_insert, pairs_view, replace_all, replace_chars,
    same_text, signed_decimal, split_on, split_text, string_from_chars, trim_range, trimmed, u64_text,
    views,
};

verus! {

/// How an event becomes a message: the channel, the destination and an
/// optional template for the text.
#[derive(Clone, Debug)]
pub struct Event2MsgConfig {
    pub target_channel: String,
    pub destination: Destination,
    pub text_template: Option<String>,
}

/// Where a message goes.
#[derive(Clone, Debug)]
pub struct Destination {
    pub id: String,
    pub kind: Option<String>,
}

/// An event with the configuration to convert it with.
#[derive(Clone, Debug)]
pub struct ConvertInput {
    pub event: EventInput,
    pub config: Event2MsgConfig,
}

/// An event envelope.
#[derive(Clone, Debug)]
pub struct EventInput {
    pub id: String,
    pub topic: String,
    pub event_type: String,
    pub source: String,
    pub tenant: TenantInput,
    pub subject: Option<String>,
    pub time: String,
    pub correlation_id: Option<String>,
    pub payload: Json,
    /// Free-form metadata, keyed by name.
    pub metadata: Vec<(String, String)>,
}

/// The tenant an event belongs to.
#[derive(Clone, Debug)]
pub struct TenantInput {
    pub tenant_id: String,
    pub team_id: Option<String>,
    pub user_id: Option<String>,
    pub env_id: String,
}

/// A channel message envelope.
#[derive(Clone, Debug)]
pub struct MessageOutput {
    pub id: String,
    pub tenant: TenantOutput,
    pub channel: String,
    pub session_id: String,
    pub reply_scope: Option<Json>,
    pub from: Option<ActorOutput>,
    pub to: Vec<DestinationOutput>,
    pub correlation_id: Option<String>,
    pub text: Option<String>,
    pub attachments: Vec<AttachmentOutput>,
    /// Free-form metadata, keyed by name.
    pub metadata: Vec<(String, String)>,
}

/// The tenant a message belongs to.
#[derive(Clone, Debug)]
pub struct TenantOutput {
    pub tenant_id: String,
    pub team_id: Option<String>,
    pub user_id: Option<String>,
    pub env_id: String,
    pub trace_id: String,
    pub correlation_id: String,
}

/// Who sent a message.
#[derive(Clone, Debug)]
pub struct ActorOutput {
    pub id: String,
    pub kind: Option<String>,
}

/// Where a message goes.
#[derive(Clone, Debug)]
pub struct DestinationOutput {
    pub id: String,
    pub kind: Option<String>,
}

/// A file attached to a message.
#[derive(Clone, Debug)]
pub struct AttachmentOutput {
    pub mime_type: String,
    pub url: String,
    pub name: Option<String>,
    pub size_bytes: Option<u64>,
}

/// The session an event's topic stands for: its last dot-separated segment.
pub open spec fn session_of_topic(topic: Seq<char>) -> Seq<char> {
    split_on(topic, '.').last()
}

/// A topic's session is the text after its last `.`, or the whole topic
/// when it has no `.`: for `a.b.critical` it is `critical`.
pub proof fn law_session_of_topic(head: Seq<char>, tail: Seq<char>)
    requires
        forall|i: int| 0 <= i < tail.len() ==> tail[i] != '.',
    ensures
        session_of_topic(head.push('.') + tail) == tail,
        session_of_topic(tail) == tail,
{
    crate::text::law_split_last(head, '.', tail);
}

pub fn extract_session_from_topic(topic: &str) -> (s: String)
    ensures
        s@ == session_of_topic(topic@),
{
    let parts = split_text(topic, '.');
    proof {
        lemma_split_nonempty(topic@, '.');
        assert(views(parts@)[parts@.len() - 1] == parts@[parts@.len() - 1]@);
    }
    parts[parts.len() - 1].clone()
}

/// The opening of a placeholder.
pub open spec fn open_braces() -> Seq<char> {
    seq!['{', '{']
}

/// The closing of a placeholder.
pub open spec fn close_braces() -> Seq<char> {
    seq!['}', '}']
}

/// The `{{...}}` placeholders of a text, in order: each with its full text
/// and the trimmed text between the braces.
pub open spec fn placeholders(t: Seq<char>) -> Seq<(Seq<char>, Seq<char>)>
    decreases t.len(),
{
    match find_sub(t, open_braces()) {
        None => Seq::empty(),
        Some(i) => {
            proof {
                lemma_find_sub(t, open_braces());
            }
            match find_sub(t.skip(i), close_braces()) {
                None => Seq::empty(),
                Some(j) => {
                    proof {
                        lemma_find_sub(t.skip(i), close_braces());
                    }
                    seq![(t.subrange(i, i + j + 2), trimmed(t.subrange(i + 2, i + j)))] + placeholders(
                        t.skip(i + j + 2),
                    )
                },
            }
        },
    }
}

/// Finds the `{{...}}` placeholders of a text.
pub fn regex_lite_find_all(text: &str, pattern: &str) -> (r: Vec<(String, String)>)
    ensures
        pairs_view(r@) == placeholders(text@),
{
    let t = chars_of(text);
    let open: Vec<char> = chars_of("{{");
    let close: Vec<char> = chars_of("}}");
    proof {
        reveal_strlit("{{");
        reveal_strlit("}}");
        assert(open@ =~= open_braces());
        assert(close@ =~= close_braces());
    }
    let mut results: Vec<(String, String)> = Vec::new();
    let mut pos: usize = 0;
    assert(t@.skip(0) == t@);
    loop
        invariant
            pos <= t@.len(),
            t@ == text@,
            open@ == open_braces(),
            close@ == close_braces(),
            pairs_view(results@) + placeholders(t@.skip(pos as int)) == placeholders(text@),
        decreases t@.len() - pos,
    {
        let ghost rest = t@.skip(pos as int);
        let ghost before = pairs_view(results@);
        let start = match find_chars(&t, &open, pos) {
            Some(s) => s,
            None => {
                assert(placeholders(rest) == Seq::<(Seq<char>, Seq<char>)>::empty());
                assert(pairs_view(results@) =~= placeholders(text@));
                return results;
            },
        };
        proof {
            lemma_find_sub(rest, open_braces());
            assert(occurs_at(rest, open_braces(), start - pos));
            assert(rest.skip(start - pos) == t@.skip(start as int));
            assert(rest.subrange(start - pos, start - pos + 2)[0] == t@[start as int]);
            assert(rest.subrange(start - pos, start - pos + 2)[1] == t@[start + 1]);
        }
        let end = match find_chars(&t, &close, start) {
            Some(e) => e,
            None => {
                assert(placeholders(rest) == Seq::<(Seq<char>, Seq<char>)>::empty());
                assert(pairs_view(results@) =~= placeholders(text@));
                return results;
            },
        };
        let ghost j = end - start;
        proof {
            let u = t@.skip(start as int);
            lemma_find_sub(u, close_braces());
            assert(occurs_at(u, close_braces(), j));
            assert(u[0] == '{' && u[1] == '{');
            if j == 0 {
                assert(u.subrange(j, j + 2)[0] == u[0]);
            }
            if j == 1 {
                assert(u.subrange(j, j + 2)[0] == u[1]);
            }
            assert(j >= 2);
        }
        assert(end + 2 <= t.len());
        let mut full_chars: Vec<char> = Vec::new();
        crate::text::push_range(&mut full_chars, &t, start, end + 2);
        let full = string_from_chars(full_chars.as_slice());
        let path = trim_range(&t, start + 2, end);
        let ghost item = (full@, path@);
        results.push((full, path));
        proof {
            assert(t@.subrange(start as int, end + 2) == rest.subrange(start - pos, start - pos + j + 2));
            assert(t@.subrange(start + 2, end as int) == rest.subrange(start - pos + 2, start - pos + j));
            assert(rest.skip(start - pos + j + 2) == t@.skip(end + 2));
            assert(placeholders(rest) == seq![item] + placeholders(t@.skip(end + 2)));
            assert(pairs_view(results@) =~= before.push(item));
            assert(before.push(item) + placeholders(t@.skip(end + 2)) =~= before + placeholders(rest));
        }
        pos = end + 2;
    }
}

/// A number as serde_json writes it.
pub open spec fn number_text(n: NumberV) -> Seq<char> {
    match n {
        NumberV::PosInt(u) => decimal(u as nat),
        NumberV::NegInt(i) => signed_decimal(i as int),
        NumberV::Float(t) => t,
    }
}

/// A value as a placeholder shows it: a string as is, numbers and booleans
/// as written, `null` as nothing, anything else as compact JSON.
pub open spec fn scalar_text(v: JsonV) -> Seq<char> {
    match v {
        JsonV::Str(s) => s,
        JsonV::Number(n) => number_text(n),
        JsonV::Bool(b) => if b { "true"@ } else { "false"@ },
        JsonV::Null => Seq::empty(),
        _ => json_compact(v),
    }
}

/// The segments of a placeholder path inside the payload: a leading `input`
/// is dropped, and then a leading `payload`, since the value a path is
/// resolved against is the payload itself.
pub open spec fn effective_path(path: Seq<char>) -> Seq<Seq<char>> {
    let parts = split_on(path, '.');
    let rest = if parts[0] == "input"@ {
        parts.drop_first()
    } else {
        parts
    };
    if rest.len() > 0 && rest[0] == "payload"@ {
        rest.drop_first()
    } else {
        rest
    }
}

/// What a placeholder path shows of a payload: the value it leads to, or
/// nothing when it leads nowhere.
pub open spec fn path_value(payload: JsonV, path: Seq<char>) -> Seq<char> {
    match json_at(payload, effective_path(path)) {
        Some(v) => scalar_text(v),
        None => Seq::empty(),
    }
}

fn number_string(n: &JsonNumber) -> (s: String)
    ensures
        s@ == number_text(crate::json::number_view(*n)),
{
    match n {
        JsonNumber::PosInt(u) => u64_text(*u),
        JsonNumber::NegInt(i) => i64_text(*i),
        JsonNumber::Float(t) => t.clone(),
    }
}

/// The text a value shows in a placeholder.
pub fn scalar_string(v: &Json) -> (s: String)
    ensures
        s@ == scalar_text(v@),
{
    proof {
        reveal_strlit("true");
        reveal_strlit("false");
    }
    match v {
        Json::String(s) => s.clone(),
        Json::Number(n) => number_string(n),
        Json::Bool(b) => if *b { owned("true") } else { owned("false") },
        Json::Null => String::new(),
        _ => json_text(v),
    }
}

/// Resolves a placeholder path such as `input.payload.message`, `payload.text`
/// or `text` against a payload.
pub fn resolve_json_path(value: &Json, path: &str) -> (s: String)
    ensures
        s@ == path_value(value@, path@),
{
    let parts = split_text(path, '.');
    proof {
        lemma_split_nonempty(path@, '.');
        reveal_strlit("input");
        assert(views(parts@)[0] == parts@[0]@);
    }
    let first: usize = if same_text(parts[0].as_str(), "input") { 1 } else { 0 };
    proof {
        reveal_strlit("payload");
        assert(views(parts@).skip(first as int) =~= if views(parts@)[0] == "input"@ {
            views(parts@).drop_first()
        } else {
            views(parts@)
        });
    }
    let start: usize = if first < parts.len() && same_text(parts[first].as_str(), "payload") {
        first + 1
    } else {
        first
    };
    proof {
        assert(views(parts@).skip(start as int) =~= effective_path(path@));
    }
    match get_in(value, &parts, start) {
        Some(v) => scalar_string(v),
        None => String::new(),
    }
}

/// The text after each placeholder, in order, is replaced everywhere by what
/// its path shows.
pub open spec fn substitute_all(result: Seq<char>, caps: Seq<(Seq<char>, Seq<char>)>, payload: JsonV) -> Seq<char>
    decreases caps.len(),
{
    if caps.len() == 0 {
        result
    } else {
        substitute_all(replace_all(result, caps[0].0, path_value(payload, caps[0].1)), caps.drop_first(), payload)
    }
}

/// A template with its placeholders filled from a payload.
pub open spec fn substituted(template: Seq<char>, payload: JsonV) -> Seq<char> {
    substitute_all(template, placeholders(template), payload)
}

/// Fills the `{{field}}`, `{{payload.field}}` and `{{input.payload.field}}`
/// placeholders of a template from a payload.
pub fn substitute_placeholders(template: &str, payload: &Json) -> (s: String)
    ensures
        s@ == substituted(template@, payload@),
{
    let captures = regex_lite_find_all(template, "\\{\\{([^}]+)\\}\\}");
    let ghost caps = pairs_view(captures@);
    let mut result = chars_of(template);
    let mut k: usize = 0;
    assert(caps.skip(0) == caps);
    while k < captures.len()
        invariant
            k <= captures@.len(),
            caps == pairs_view(captures@),
            caps == placeholders(template@),
            substitute_all(result@, caps.skip(k as int), payload@) == substituted(template@, payload@),
        decreases captures@.len() - k,
    {
        let pattern = chars_of(captures[k].0.as_str());
        let value_text = resolve_json_path(payload, captures[k].1.as_str());
        let value = chars_of(value_text.as_str());
        proof {
            assert(caps.skip(k as int)[0] == caps[k as int]);
            assert(caps.skip(k as int).drop_first() == caps.skip(k + 1));
        }
        if pattern.len() > 0 {
            result = replace_chars(&result, &pattern, &value);
        }
        k = k + 1;
    }
    string_from_chars(result.as_slice())
}

/// The string a payload holds under a field, if it holds one there.
pub open spec fn str_field(payload: JsonV, field: Seq<char>) -> Option<Seq<char>> {
    match jget(payload, field) {
        Some(JsonV::Str(s)) => Some(s),
        _ => None,
    }
}

/// The text of a payload: the first of `text`, `message`, `body`, `content`
/// and `description` that holds a string, else the payload itself when it is
/// a string, else its compact JSON.
pub open spec fn payload_text(payload: JsonV) -> Seq<char> {
    if str_field(payload, "text"@) is Some {
        str_field(payload, "text"@)->0
    } else if str_field(payload, "message"@) is Some {
        str_field(payload, "message"@)->0
    } else if str_field(payload, "body"@) is Some {
        str_field(payload, "body"@)->0
    } else if str_field(payload, "content"@) is Some {
        str_field(payload, "content"@)->0
    } else if str_field(payload, "description"@) is Some {
        str_field(payload, "description"@)->0
    } else {
        match payload {
            JsonV::Str(s) => s,
            _ => json_compact(payload),
        }
    }
}

/// The fields a message text is looked for in, in order.
pub open spec fn text_fields() -> Seq<Seq<char>> {
    seq!["text"@, "message"@, "body"@, "content"@, "description"@]
}

/// Whether a payload holds a string under a field.
pub open spec fn holds_string(payload: JsonV, field: Seq<char>) -> bool {
    jget(payload, field) matches Some(JsonV::Str(_))
}

/// A message's text is taken from the first of `text`, `message`, `body`,
/// `content` and `description` that holds a string: if the payload holds the
/// string `s` under the field at position `k` of that list and no earlier
/// field holds a string, the text is `s`. When none does, a string payload is
/// its own text.
pub proof fn law_payload_text_fields(payload: JsonV, k: int, s: Seq<char>)
    requires
        0 <= k < 5,
        jget(payload, text_fields()[k]) == Some(JsonV::Str(s)),
        forall|j: int| 0 <= j < k ==> !holds_string(payload, #[trigger] text_fields()[j]),
    ensures
        payload_text(payload) == s,
{
    let f = text_fields();
    assert(f[0] == "text"@);
    assert(f[1] == "message"@);
    assert(f[2] == "body"@);
    assert(f[3] == "content"@);
    assert(f[4] == "description"@);
    if k >= 1 {
        assert(!holds_string(payload, f[0]));
    }
    if k >= 2 {
        assert(!holds_string(payload, f[1]));
    }
    if k >= 3 {
        assert(!holds_string(payload, f[2]));
    }
    if k >= 4 {
        assert(!holds_string(payload, f[3]));
    }
}

/// A string payload with none of the text fields is its own text.
pub proof fn law_payload_text_plain(s: Seq<char>)
    ensures
        payload_text(JsonV::Str(s)) == s,
{
}

fn string_field(payload: &Json, field: &str) -> (r: Option<String>)
    ensures
        opt_view(r) == str_field(payload@, field@),
{
    match payload.get(field) {
        Some(Json::String(s)) => Some(s.clone()),
        _ => None,
    }
}

/// Takes a message text from the common fields of a payload.
pub fn extract_text_from_payload(payload: &Json) -> (r: Option<String>)
    ensures
        r matches Some(s) && s@ == payload_text(payload@),
{
    proof {
        reveal_strlit("text");
        reveal_strlit("message");
        reveal_strlit("body");
        reveal_strlit("content");
        reveal_strlit("description");
    }
    if let Some(s) = string_field(payload, "text") {
        return Some(s);
    }
    if let Some(s) = string_field(payload, "message") {
        return Some(s);
    }
    if let Some(s) = string_field(payload, "body") {
        return Some(s);
    }
    if let Some(s) = string_field(payload, "content") {
        return Some(s);
    }
    if let Some(s) = string_field(payload, "description") {
        return Some(s);
    }
    match payload {
        Json::String(s) => Some(s.clone()),
        _ => Some(json_text(payload)),
    }
}

/// The text of a message: the template filled from the payload, else the
/// payload's own text.
pub open spec fn text_content(template: Option<Seq<char>>, payload: JsonV) -> Seq<char> {
    match template {
        Some(t) => substituted(t, payload),
        None => payload_text(payload),
    }
}

pub fn build_text_content(template: Option<&str>, payload: &Json) -> (r: Option<String>)
    ensures
        r matches Some(s) && s@ == text_content(
            match template {
                Some(t) => Some(t@),
                None => None,
            },
            payload@,
        ),
{
    match template {
        Some(t) => Some(substitute_placeholders(t, payload)),
        None => extract_text_from_payload(payload),
    }
}

/// The metadata of the message: the event's, with the event's id, type,
/// topic, time and (when set) subject added.
pub open spec fn message_metadata(event: EventInput) -> Seq<(Seq<char>, Seq<char>)> {
    let m = pairs_insert(
        pairs_insert(
            pairs_insert(pairs_insert(pairs_view(event.metadata@), "event_id"@, event.id@), "event_type"@, event.event_type@),
            "event_topic"@,
            event.topic@,
        ),
        "event_time"@,
        event.time@,
    );
    match event.subject {
        Some(s) => pairs_insert(m, "event_subject"@, s@),
        None => m,
    }
}

/// The metadata of the message an event becomes: `event_id`, `event_type`,
/// `event_topic` and `event_time` hold the event's id, type, topic and time,
/// `event_subject` its subject when it has one, and every other key holds
/// what the event's own metadata holds under it.
pub proof fn law_message_metadata(event: EventInput, other: Seq<char>)
    ensures
        pair_get(message_metadata(event), "event_id"@) == Some(event.id@),
        pair_get(message_metadata(event), "event_type"@) == Some(event.event_type@),
        pair_get(message_metadata(event), "event_topic"@) == Some(event.topic@),
        pair_get(message_metadata(event), "event_time"@) == Some(event.time@),
        event.subject is Some ==> pair_get(message_metadata(event), "event_subject"@) == Some(event.subject->0@),
        other != "event_id"@ && other != "event_type"@ && other != "event_topic"@ && other != "event_time"@
            && other != "event_subject"@ ==> pair_get(message_metadata(event), other) == pair_get(pairs_view(event.metadata@), other),
{
    reveal_strlit("event_id");
    reveal_strlit("event_type");
    reveal_strlit("event_topic");
    reveal_strlit("event_time");
    reveal_strlit("event_subject");
    let (a, b, c, d, e) = ("event_id"@, "event_type"@, "event_topic"@, "event_time"@, "event_subject"@);
    assert(a.len() == 8 && b.len() == 10 && c.len() == 11 && d.len() == 10 && e.len() == 13);
    assert(b[7] != d[7]);
    assert(a != b && a != c && a != d && a != e && b != c && b != d && b != e && c != d && c != e && d != e);
    let m0 = pairs_view(event.metadata@);
    let m1 = pairs_insert(m0, a, event.id@);
    let m2 = pairs_insert(m1, b, event.event_type@);
    let m3 = pairs_insert(m2, c, event.topic@);
    let m4 = pairs_insert(m3, d, event.time@);
    law_pairs_insert_get(m0, a, event.id@, other);
    law_pairs_insert_get(m1, b, event.event_type@, other);
    law_pairs_insert_get(m2, c, event.topic@, other);
    law_pairs_insert_get(m3, d, event.time@, other);
    law_pairs_insert_get(m1, b, event.event_type@, a);
    law_pairs_insert_get(m2, c, event.topic@, a);
    law_pairs_insert_get(m2, c, event.topic@, b);
    law_pairs_insert_get(m3, d, event.time@, a);
    law_pairs_insert_get(m3, d, event.time@, b);
    law_pairs_insert_get(m3, d, event.time@, c);
    match event.subject {
        Some(sub) => {
            law_pairs_insert_get(m4, e, sub@, other);
            law_pairs_insert_get(m4, e, sub@, a);
            law_pairs_insert_get(m4, e, sub@, b);
            law_pairs_insert_get(m4, e, sub@, c);
            law_pairs_insert_get(m4, e, sub@, d);
        },
        None => {},
    }
}

/// The message an event becomes.
pub open spec fn message_of(input: ConvertInput, m: MessageOutput) -> bool {
    let event = input.event;
    let config = input.config;
    &&& m.id@ == "msg-"@ + event.id@
    &&& m.session_id@ == match event.correlation_id {
        Some(c) => c@,
        None => session_of_topic(event.topic@),
    }
    &&& m.text matches Some(t) && t@ == text_content(opt_view(config.text_template), event.payload@)
    &&& m.channel@ == config.target_channel@
    &&& m.reply_scope is None
    &&& m.from matches Some(a) && a.id@ == event.source@ && opt_view(a.kind) == Some("event"@)
    &&& m.to@.len() == 1 && m.to@[0].id@ == config.destination.id@ && opt_view(m.to@[0].kind) == opt_view(config.destination.kind)
    &&& opt_view(m.correlation_id) == opt_view(event.correlation_id)
    &&& m.attachments@.len() == 0
    &&& m.tenant.tenant_id@ == event.tenant.tenant_id@
    &&& opt_view(m.tenant.team_id) == opt_view(event.tenant.team_id)
    &&& opt_view(m.tenant.user_id) == opt_view(event.tenant.user_id)
    &&& m.tenant.env_id@ == event.tenant.env_id@
    &&& m.tenant.trace_id@ == Seq::<char>::empty()
    &&& m.tenant.correlation_id@ == match event.correlation_id {
        Some(c) => c@,
        None => Seq::empty(),
    }
    &&& pairs_view(m.metadata@) == message_metadata(event)
}

/// Converts an event into a channel message.
pub fn message_from_event(input: &ConvertInput) -> (m: MessageOutput)
    ensures
        message_of(*input, m),
{
    let event = &input.event;
    let config = &input.config;
    let id = concat("msg-", event.id.as_str());
    let session_id = match &event.correlation_id {
        Some(c) => c.clone(),
        None => extract_session_from_topic(event.topic.as_str()),
    };
    let text = match &config.text_template {
        Some(t) => build_text_content(Some(t.as_str()), &event.payload),
        None => build_text_content(None, &event.payload),
    };
    let mut to: Vec<DestinationOutput> = Vec::new();
    to.push(DestinationOutput { id: config.destination.id.clone(), kind: clone_opt(&config.destination.kind) });
    let from = Some(ActorOutput { id: event.source.clone(), kind: Some(owned("event")) });
    let tenant = TenantOutput {
        tenant_id: event.tenant.tenant_id.clone(),
        team_id: clone_opt(&event.tenant.team_id),
        user_id: clone_opt(&event.tenant.user_id),
        env_id: event.tenant.env_id.clone(),
        trace_id: String::new(),
        correlation_id: match &event.correlation_id {
            Some(c) => c.clone(),
            None => String::new(),
        },
    };
    let mut metadata = clone_pairs(&event.metadata);
    insert_pair(&mut metadata, owned("event_id"), event.id.clone());
    insert_pair(&mut metadata, owned("event_type"), event.event_type.clone());
    insert_pair(&mut metadata, owned("event_topic"), event.topic.clone());
    insert_pair(&mut metadata, owned("event_time"), event.time.clone());
    if let Some(subject) = &event.subject {
        insert_pair(&mut metadata, owned("event_subject"), subject.clone());
    }
    proof {
        reveal_strlit("msg-");
        reveal_strlit("event");
        reveal_strlit("event_id");
        reveal_strlit("event_type");
        reveal_strlit("event_topic");
        reveal_strlit("event_time");
        reveal_strlit("event_subject");
    }
    MessageOutput {
        id,
        tenant,
        channel: config.target_channel.clone(),
        session_id,
        reply_scope: None,
        from,
        to,
        correlation_id: clone_opt(&event.correlation_id),
        text,
        attachments: Vec::new(),
        metadata,
    }
}

}
