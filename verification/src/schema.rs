//! The schemas that the message-to-event converter publishes for its input,
//! its output and its configuration, in the canonical schema form.
use vstd::prelude::*;
use crate::scope::opt_view;
use crate::text::{owned, same_text, views};

verus! {

/// What an object schema says of the properties it does not name.
#[derive(Debug)]
pub enum ExtraProperties {
    Allow,
    Forbid,
    Schema(Box<Schema>),
}

/// A schema in the canonical form.
#[derive(Debug)]
pub enum Schema {
    /// Named properties (each name once), the names that must be present,
    /// and what holds of the others.
    Object { properties: Vec<(String, Schema)>, required: Vec<String>, additional: ExtraProperties },
    Array { items: Box<Schema>, min_items: Option<u64>, max_items: Option<u64> },
    String {
        min_len: Option<u64>,
        max_len: Option<u64>,
        regex: Option<String>,
        format: Option<String>,
    },
    Int { min: Option<i64>, max: Option<i64> },
    /// A number with a fractional part, without bounds.
    Float,
    Bool,
    Null,
    OneOf { variants: Vec<Schema> },
}

pub enum ExtraV {
    Allow,
    Forbid,
    Schema(Box<SchemaV>),
}

pub enum SchemaV {
    Object { properties: Seq<(Seq<char>, SchemaV)>, required: Seq<Seq<char>>, additional: ExtraV },
    Array { items: Box<SchemaV>, min_items: Option<u64>, max_items: Option<u64> },
    Text {
        min_len: Option<u64>,
        max_len: Option<u64>,
        regex: Option<Seq<char>>,
        format: Option<Seq<char>>,
    },
    Int { min: Option<i64>, max: Option<i64> },
    Float,
    Bool,
    Null,
    OneOf { variants: Seq<SchemaV> },
}

pub open spec fn schema_view(s: Schema) -> SchemaV
    decreases s,
{
    match s {
        Schema::Object { properties, required, additional } => SchemaV::Object {
            properties: props_view(properties@),
            required: views(required@),
            additional: extra_view(additional),
        },
        Schema::Array { items, min_items, max_items } => SchemaV::Array {
            items: Box::new(schema_view(*items)),
            min_items,
            max_items,
        },
        Schema::String { min_len, max_len, regex, format } => SchemaV::Text {
            min_len,
            max_len,
            regex: opt_view(regex),
            format: opt_view(format),
        },
        Schema::Int { min, max } => SchemaV::Int { min, max },
        Schema::Float => SchemaV::Float,
        Schema::Bool => SchemaV::Bool,
        Schema::Null => SchemaV::Null,
        Schema::OneOf { variants } => SchemaV::OneOf { variants: schemas_view(variants@) },
    }
}

pub open spec fn extra_view(e: ExtraProperties) -> ExtraV
    decreases e,
{
    match e {
        ExtraProperties::Allow => ExtraV::Allow,
        ExtraProperties::Forbid => ExtraV::Forbid,
        ExtraProperties::Schema(s) => ExtraV::Schema(Box::new(schema_view(*s))),
    }
}

pub open spec fn schemas_view(s: Seq<Schema>) -> Seq<SchemaV>
    decreases s,
{
    if s.len() == 0 {
        Seq::empty()
    } else {
        schemas_view(s.drop_last()).push(schema_view(s.last()))
    }
}

pub open spec fn props_view(s: Seq<(String, Schema)>) -> Seq<(Seq<char>, SchemaV)>
    decreases s,
{
    if s.len() == 0 {
        Seq::empty()
    } else {
        props_view(s.drop_last()).push((s.last().0@, schema_view(s.last().1)))
    }
}

}

verus! {

impl View for Schema {
    type V = SchemaV;

    open spec fn view(&self) -> SchemaV {
        schema_view(*self)
    }
}

proof fn lemma_props_view_push(s: Seq<(String, Schema)>, k: String, x: Schema)
    ensures
        props_view(s.push((k, x))) == props_view(s).push((k@, schema_view(x))),
{
    assert(s.push((k, x)).drop_last() == s);
}

proof fn lemma_props_view(s: Seq<(String, Schema)>)
    ensures
        props_view(s).len() == s.len(),
        forall|i: int|
            0 <= i < s.len() ==> #[trigger] props_view(s)[i] == (s[i].0@, schema_view(s[i].1)),
    decreases s.len(),
{
    if s.len() > 0 {
        lemma_props_view(s.drop_last());
    }
}

proof fn lemma_schemas_view_push(s: Seq<Schema>, x: Schema)
    ensures
        schemas_view(s.push(x)) == schemas_view(s).push(schema_view(x)),
{
    assert(s.push(x).drop_last() == s);
}

/// The position of the first property named `key`.
pub open spec fn prop_index(props: Seq<(Seq<char>, SchemaV)>, key: Seq<char>) -> Option<int> {
    crate::search::first_index(props.len(), prop_named(props, key))
}

pub open spec fn prop_named(props: Seq<(Seq<char>, SchemaV)>, key: Seq<char>) -> spec_fn(int) -> bool {
    |i: int| props[i].0 == key
}

/// The properties after `insert(key, schema)` on a map of them: a property
/// of that name gets the schema in place, else the property is added.
pub open spec fn props_insert(props: Seq<(Seq<char>, SchemaV)>, key: Seq<char>, s: SchemaV) -> Seq<(Seq<char>, SchemaV)> {
    match prop_index(props, key) {
        Some(i) => props.update(i, (key, s)),
        None => props.push((key, s)),
    }
}

/// Named property schemas, each with whether it is required, put into a map
/// one after the other.
pub open spec fn props_of(named: Seq<(Seq<char>, SchemaV, bool)>) -> Seq<(Seq<char>, SchemaV)>
    decreases named.len(),
{
    if named.len() == 0 {
        Seq::empty()
    } else {
        let last = named.last();
        props_insert(props_of(named.drop_last()), last.0, last.1)
    }
}

/// The names marked required, in order (a name marked twice comes twice).
pub open spec fn required_of(named: Seq<(Seq<char>, SchemaV, bool)>) -> Seq<Seq<char>>
    decreases named.len(),
{
    if named.len() == 0 {
        Seq::empty()
    } else {
        let rest = required_of(named.drop_last());
        if named.last().2 {
            rest.push(named.last().0)
        } else {
            rest
        }
    }
}

/// The object schema with the given properties, which allows others.
pub open spec fn object_v(named: Seq<(Seq<char>, SchemaV, bool)>) -> SchemaV {
    SchemaV::Object {
        properties: props_of(named),
        required: required_of(named),
        additional: ExtraV::Allow,
    }
}

pub open spec fn named_view(v: Seq<(&str, Schema, bool)>) -> Seq<(Seq<char>, SchemaV, bool)> {
    v.map_values(|e: (&str, Schema, bool)| (e.0@, schema_view(e.1), e.2))
}

/// `map.insert(key, schema)` on an object's properties.
fn insert_prop(props: &mut Vec<(String, Schema)>, key: String, s: Schema)
    ensures
        props_view(final(props)@) == props_insert(props_view(old(props)@), key@, schema_view(s)),
{
    let ghost e = props_view(props@);
    let ghost p = prop_named(e, key@);
    proof {
        lemma_props_view(props@);
    }
    let mut i: usize = 0;
    while i < props.len()
        invariant
            i <= props@.len(),
            e == props_view(props@),
            e == props_view(old(props)@),
            e.len() == props@.len(),
            forall|j: int| 0 <= j < props@.len() ==> #[trigger] e[j] == (props@[j].0@, schema_view(props@[j].1)),
            p == prop_named(e, key@),
            forall|j: int| 0 <= j < i ==> !#[trigger] p(j),
        decreases props@.len() - i,
    {
        if same_text(props[i].0.as_str(), key.as_str()) {
            proof {
                assert(p(i as int));
                crate::search::lemma_first_index_at(e.len(), p, i as int);
            }
            let ghost sv = schema_view(s);
            props.set(i, (key, s));
            proof {
                lemma_props_view(props@);
                assert(props_view(props@) =~= e.update(i as int, (key@, sv)));
            }
            return;
        }
        assert(!p(i as int));
        i = i + 1;
    }
    proof {
        crate::search::lemma_first_index_none(e.len(), p);
        lemma_props_view_push(props@, key, s);
    }
    props.push((key, s));
}

/// An object schema with the given properties, each marked required or not,
/// that allows other properties.
pub fn object_schema(props: Vec<(&str, Schema, bool)>) -> (s: Schema)
    ensures
        s@ == object_v(named_view(props@)),
{
    let ghost all = named_view(props@);
    let mut rest = props;
    let mut properties: Vec<(String, Schema)> = Vec::new();
    let mut required: Vec<String> = Vec::new();
    let ghost mut done: int = 0;
    while rest.len() > 0
        invariant
            0 <= done <= all.len(),
            named_view(rest@) == all.skip(done),
            props_view(properties@) == props_of(all.take(done)),
            views(required@) == required_of(all.take(done)),
        decreases rest@.len(),
    {
        let ghost before = rest@;
        let (name, schema, is_required) = rest.remove(0);
        proof {
            assert(before.len() > 0);
            assert(named_view(before).len() == before.len());
            assert(all.skip(done)[0] == all[done]);
            assert(named_view(before)[0] == all[done]);
            assert(named_view(rest@) =~= named_view(before).skip(1));
            assert(all.take(done + 1).drop_last() =~= all.take(done));
        }
        insert_prop(&mut properties, owned(name), schema);
        if is_required {
            let ghost r = required@;
            required.push(owned(name));
            proof {
                assert(views(required@) =~= views(r).push(name@));
            }
        }
        proof {
            done = done + 1;
            assert(named_view(rest@) =~= all.skip(done));
        }
    }
    proof {
        assert(done == all.len());
        assert(all.take(done) =~= all);
    }
    assert(props_view(properties@) == props_of(all));
    assert(views(required@) == required_of(all));
    let s = Schema::Object { properties, required, additional: ExtraProperties::Allow };
    assert(extra_view(ExtraProperties::Allow) == ExtraV::Allow);
    assert(schema_view(s) == object_v(all));
    s
}

/// Adds a named property schema, required or not, to a list of them.
fn add_prop<'a>(props: &mut Vec<(&'a str, Schema, bool)>, name: &'a str, s: Schema, required: bool)
    ensures
        named_view(final(props)@) == named_view(old(props)@).push((name@, s@, required)),
{
    let ghost before = props@;
    props.push((name, s, required));
    proof {
        assert(named_view(props@) =~= named_view(before).push((name@, schema_view(s), required)));
    }
}

/// A text schema with bounds on its length.
pub open spec fn text_v(min: u64, max: u64) -> SchemaV {
    SchemaV::Text { min_len: Some(min), max_len: Some(max), regex: None, format: None }
}

/// A text schema whose length lies in `min..=max`, with no pattern or format.
pub fn string_schema(min: u64, max: u64) -> (s: Schema)
    ensures
        s@ == text_v(min, max),
{
    Schema::String { min_len: Some(min), max_len: Some(max), regex: None, format: None }
}

/// The properties of a tenant context.
pub open spec fn tenant_props() -> Seq<(Seq<char>, SchemaV, bool)> {
    seq![
        ("tenant_id"@, text_v(1, 128), true),
        ("team_id"@, text_v(1, 128), false),
        ("user_id"@, text_v(1, 128), false),
        ("env_id"@, text_v(1, 64), true),
    ]
}

/// The schema of a tenant context.
pub open spec fn tenant_v() -> SchemaV {
    object_v(tenant_props())
}

/// The schema of a tenant context: tenant and environment required, team and
/// user optional.
pub fn tenant_ctx_schema() -> (s: Schema)
    ensures
        s@ == tenant_v(),
{
    let mut v: Vec<(&str, Schema, bool)> = Vec::new();
    assert(named_view(v@) =~= Seq::empty());
    add_prop(&mut v, "tenant_id", string_schema(1, 128), true);
    add_prop(&mut v, "team_id", string_schema(1, 128), false);
    add_prop(&mut v, "user_id", string_schema(1, 128), false);
    add_prop(&mut v, "env_id", string_schema(1, 64), true);
    assert(named_view(v@) =~= tenant_props());
    object_schema(v)
}

/// The properties of a message's sender.
pub open spec fn actor_props() -> Seq<(Seq<char>, SchemaV, bool)> {
    seq![("id"@, text_v(1, 256), true), ("kind"@, text_v(1, 64), false)]
}

/// The schema of a message's sender.
pub open spec fn actor_v() -> SchemaV {
    object_v(actor_props())
}

/// The schema of a message's sender: an identifier and an optional kind.
pub fn actor_schema() -> (s: Schema)
    ensures
        s@ == actor_v(),
{
    let mut v: Vec<(&str, Schema, bool)> = Vec::new();
    assert(named_view(v@) =~= Seq::empty());
    add_prop(&mut v, "id", string_schema(1, 256), true);
    add_prop(&mut v, "kind", string_schema(1, 64), false);
    assert(named_view(v@) =~= actor_props());
    object_schema(v)
}

/// An array schema without bounds on its length.
pub open spec fn array_v(items: SchemaV) -> SchemaV {
    SchemaV::Array { items: Box::new(items), min_items: None, max_items: None }
}

/// The properties of a message's destination.
pub open spec fn destination_props() -> Seq<(Seq<char>, SchemaV, bool)> {
    seq![("id"@, text_v(1, 512), true), ("kind"@, text_v(1, 64), false)]
}

/// The schema of a message's destinations.
pub open spec fn destinations_v() -> SchemaV {
    array_v(object_v(destination_props()))
}

/// The schema of a message's destinations: any number of them, each an
/// identifier with an optional kind.
pub fn destinations_array_schema() -> (s: Schema)
    ensures
        s@ == destinations_v(),
{
    let mut v: Vec<(&str, Schema, bool)> = Vec::new();
    assert(named_view(v@) =~= Seq::empty());
    add_prop(&mut v, "id", string_schema(1, 512), true);
    add_prop(&mut v, "kind", string_schema(1, 64), false);
    assert(named_view(v@) =~= destination_props());
    let item = object_schema(v);
    Schema::Array { items: Box::new(item), min_items: None, max_items: None }
}

/// The properties of a message's attachment.
pub open spec fn attachment_props() -> Seq<(Seq<char>, SchemaV, bool)> {
    seq![
        ("mime_type"@, text_v(1, 128), true),
        ("url"@, text_v(1, 2048), true),
        ("name"@, text_v(1, 256), false),
        ("size_bytes"@, SchemaV::Int { min: Some(0), max: None }, false),
    ]
}

/// The schema of a message's attachments.
pub open spec fn attachments_v() -> SchemaV {
    array_v(object_v(attachment_props()))
}

/// The schema of a message's attachments: any number of them, each with a
/// media type and a location, and optionally a name and a non-negative size.
pub fn attachments_array_schema() -> (s: Schema)
    ensures
        s@ == attachments_v(),
{
    let mut v: Vec<(&str, Schema, bool)> = Vec::new();
    assert(named_view(v@) =~= Seq::empty());
    add_prop(&mut v, "mime_type", string_schema(1, 128), true);
    add_prop(&mut v, "url", string_schema(1, 2048), true);
    add_prop(&mut v, "name", string_schema(1, 256), false);
    add_prop(&mut v, "size_bytes", Schema::Int { min: Some(0), max: None }, false);
    assert(named_view(v@) =~= attachment_props());
    let item = object_schema(v);
    Schema::Array { items: Box::new(item), min_items: None, max_items: None }
}

/// The schema of metadata: an object of texts of at most 4096 characters.
pub open spec fn metadata_v() -> SchemaV {
    SchemaV::Object {
        properties: Seq::empty(),
        required: Seq::empty(),
        additional: ExtraV::Schema(
            Box::new(SchemaV::Text { min_len: None, max_len: Some(4096), regex: None, format: None }),
        ),
    }
}

/// The schema of metadata: no named properties, and every other property a
/// text of at most 4096 characters.
pub fn metadata_schema() -> (s: Schema)
    ensures
        s@ == metadata_v(),
{
    let text = Schema::String { min_len: None, max_len: Some(4096), regex: None, format: None };
    assert(schema_view(text) == SchemaV::Text { min_len: None, max_len: Some(4096), regex: None, format: None });
    assert(extra_view(ExtraProperties::Schema(Box::new(text))) == ExtraV::Schema(Box::new(schema_view(text))));
    let s = Schema::Object {
        properties: Vec::new(),
        required: Vec::new(),
        additional: ExtraProperties::Schema(Box::new(text)),
    };
    proof {
        assert(props_view(Seq::<(String, Schema)>::empty()) == Seq::<(Seq<char>, SchemaV)>::empty());
        assert(views(Seq::<String>::empty()) =~= Seq::<Seq<char>>::empty());
    }
    s
}

/// The schema that admits any value: one of null, a boolean, a text, an
/// integer, a number, an object or an array.
pub open spec fn any_v() -> SchemaV {
    SchemaV::OneOf {
        variants: seq![
            SchemaV::Null,
            SchemaV::Bool,
            SchemaV::Text { min_len: None, max_len: None, regex: None, format: None },
            SchemaV::Int { min: None, max: None },
            SchemaV::Float,
            SchemaV::Object { properties: Seq::empty(), required: Seq::empty(), additional: ExtraV::Allow },
            array_v(SchemaV::Null),
        ],
    }
}

fn push_schema(v: &mut Vec<Schema>, x: Schema)
    ensures
        schemas_view(final(v)@) == schemas_view(old(v)@).push(x@),
{
    proof {
        lemma_schemas_view_push(v@, x);
    }
    v.push(x);
}

/// The schema that admits any value, as a choice among the kinds of value.
pub fn any_schema() -> (s: Schema)
    ensures
        s@ == any_v(),
{
    let mut variants: Vec<Schema> = Vec::new();
    proof {
        assert(schemas_view(variants@) =~= Seq::<SchemaV>::empty());
        assert(props_view(Seq::<(String, Schema)>::empty()) == Seq::<(Seq<char>, SchemaV)>::empty());
        assert(views(Seq::<String>::empty()) =~= Seq::<Seq<char>>::empty());
    }
    push_schema(&mut variants, Schema::Null);
    push_schema(&mut variants, Schema::Bool);
    push_schema(&mut variants, Schema::String { min_len: None, max_len: None, regex: None, format: None });
    push_schema(&mut variants, Schema::Int { min: None, max: None });
    push_schema(&mut variants, Schema::Float);
    let obj = Schema::Object { properties: Vec::new(), required: Vec::new(), additional: ExtraProperties::Allow };
    assert(extra_view(ExtraProperties::Allow) == ExtraV::Allow);
    push_schema(&mut variants, obj);
    let arr = Schema::Array { items: Box::new(Schema::Null), min_items: None, max_items: None };
    assert(schema_view(Schema::Null) == SchemaV::Null);
    assert(schema_view(arr) == array_v(SchemaV::Null));
    push_schema(&mut variants, arr);
    assert(schemas_view(variants@) =~= any_v()->variants);
    Schema::OneOf { variants }
}

/// The properties of the message a conversion takes.
pub open spec fn message_props() -> Seq<(Seq<char>, SchemaV, bool)> {
    seq![
        ("id"@, text_v(1, 256), true),
        ("tenant"@, tenant_v(), true),
        ("channel"@, text_v(1, 64), true),
        ("session_id"@, text_v(1, 256), true),
        ("reply_scope"@, any_v(), false),
        ("from"@, actor_v(), false),
        ("to"@, destinations_v(), false),
        ("correlation_id"@, text_v(1, 256), false),
        ("text"@, text_v(1, 65536), false),
        ("attachments"@, attachments_v(), false),
        ("metadata"@, metadata_v(), false),
    ]
}

/// The properties of the configuration a conversion takes.
pub open spec fn convert_config_props() -> Seq<(Seq<char>, SchemaV, bool)> {
    seq![
        ("topic"@, text_v(1, 512), true),
        ("event_type"@, text_v(1, 256), true),
        ("source"@, text_v(1, 1024), false),
    ]
}

/// The schema of what a conversion takes: a message and a configuration.
pub open spec fn input_v() -> SchemaV {
    object_v(
        seq![
            ("message"@, object_v(message_props()), true),
            ("config"@, object_v(convert_config_props()), true),
        ],
    )
}

/// The input schema of the convert operation: a channel message envelope
/// and the configuration to convert it with.
pub fn input_schema() -> (s: Schema)
    ensures
        s@ == input_v(),
{
    let mut m: Vec<(&str, Schema, bool)> = Vec::new();
    assert(named_view(m@) =~= Seq::empty());
    add_prop(&mut m, "id", string_schema(1, 256), true);
    add_prop(&mut m, "tenant", tenant_ctx_schema(), true);
    add_prop(&mut m, "channel", string_schema(1, 64), true);
    add_prop(&mut m, "session_id", string_schema(1, 256), true);
    add_prop(&mut m, "reply_scope", any_schema(), false);
    add_prop(&mut m, "from", actor_schema(), false);
    add_prop(&mut m, "to", destinations_array_schema(), false);
    add_prop(&mut m, "correlation_id", string_schema(1, 256), false);
    add_prop(&mut m, "text", string_schema(1, 65536), false);
    add_prop(&mut m, "attachments", attachments_array_schema(), false);
    add_prop(&mut m, "metadata", metadata_schema(), false);
    assert(named_view(m@) =~= message_props());
    let message_schema = object_schema(m);

    let mut c: Vec<(&str, Schema, bool)> = Vec::new();
    assert(named_view(c@) =~= Seq::empty());
    add_prop(&mut c, "topic", string_schema(1, 512), true);
    add_prop(&mut c, "event_type", string_schema(1, 256), true);
    add_prop(&mut c, "source", string_schema(1, 1024), false);
    assert(named_view(c@) =~= convert_config_props());
    let config_schema = object_schema(c);

    let mut v: Vec<(&str, Schema, bool)> = Vec::new();
    assert(named_view(v@) =~= Seq::empty());
    add_prop(&mut v, "message", message_schema, true);
    add_prop(&mut v, "config", config_schema, true);
    assert(named_view(v@) =~= seq![
        ("message"@, object_v(message_props()), true),
        ("config"@, object_v(convert_config_props()), true),
    ]);
    object_schema(v)
}

/// The properties of the event a conversion gives.
pub open spec fn output_props() -> Seq<(Seq<char>, SchemaV, bool)> {
    seq![
        ("id"@, text_v(1, 256), true),
        ("topic"@, text_v(1, 512), true),
        ("type"@, text_v(1, 256), true),
        ("source"@, text_v(1, 1024), true),
        ("tenant"@, tenant_v(), true),
        ("subject"@, text_v(1, 512), false),
        ("time"@, text_v(1, 64), false),
        ("correlation_id"@, text_v(1, 256), false),
        ("payload"@, any_v(), false),
        ("metadata"@, metadata_v(), false),
    ]
}

/// The output schema of the convert operation: an event envelope (its time
/// an RFC 3339 timestamp).
pub fn output_schema() -> (s: Schema)
    ensures
        s@ == object_v(output_props()),
{
    let mut v: Vec<(&str, Schema, bool)> = Vec::new();
    assert(named_view(v@) =~= Seq::empty());
    add_prop(&mut v, "id", string_schema(1, 256), true);
    add_prop(&mut v, "topic", string_schema(1, 512), true);
    add_prop(&mut v, "type", string_schema(1, 256), true);
    add_prop(&mut v, "source", string_schema(1, 1024), true);
    add_prop(&mut v, "tenant", tenant_ctx_schema(), true);
    add_prop(&mut v, "subject", string_schema(1, 512), false);
    add_prop(&mut v, "time", string_schema(1, 64), false);
    add_prop(&mut v, "correlation_id", string_schema(1, 256), false);
    add_prop(&mut v, "payload", any_schema(), false);
    add_prop(&mut v, "metadata", metadata_schema(), false);
    assert(named_view(v@) =~= output_props());
    object_schema(v)
}

/// The properties of the converter's own configuration.
pub open spec fn setup_props() -> Seq<(Seq<char>, SchemaV, bool)> {
    seq![("default_topic"@, text_v(1, 512), true), ("default_event_type"@, text_v(1, 256), true)]
}

/// The configuration schema of the converter: a default topic and a default
/// event type.
pub fn config_schema() -> (s: Schema)
    ensures
        s@ == object_v(setup_props()),
{
    let mut v: Vec<(&str, Schema, bool)> = Vec::new();
    assert(named_view(v@) =~= Seq::empty());
    add_prop(&mut v, "default_topic", string_schema(1, 512), true);
    add_prop(&mut v, "default_event_type", string_schema(1, 256), true);
    assert(named_view(v@) =~= setup_props());
    object_schema(v)
}

/// Whether some property is named `key`.
pub open spec fn names(props: Seq<(Seq<char>, SchemaV)>, key: Seq<char>) -> bool {
    exists|i: int| 0 <= i < props.len() && #[trigger] props[i].0 == key
}

/// No two properties share a name.
pub open spec fn names_unique(props: Seq<(Seq<char>, SchemaV)>) -> bool {
    forall|i: int, j: int| 0 <= i < j < props.len() ==> #[trigger] props[i].0 != #[trigger] props[j].0
}

proof fn lemma_props_insert(props: Seq<(Seq<char>, SchemaV)>, key: Seq<char>, s: SchemaV)
    ensures
        forall|x: Seq<char>| #[trigger] names(props_insert(props, key, s), x) <==> (names(props, x) || x == key),
        names_unique(props) ==> names_unique(props_insert(props, key, s)),
{
    let p = prop_named(props, key);
    crate::search::lemma_first_index(props.len(), p);
    let r = props_insert(props, key, s);
    match prop_index(props, key) {
        Some(i) => {
            assert(p(i));
            assert forall|x: Seq<char>| #[trigger] names(r, x) <==> (names(props, x) || x == key) by {
                if names(r, x) {
                    let k = choose|k: int| 0 <= k < r.len() && #[trigger] r[k].0 == x;
                    assert(props[k].0 == x);
                }
                if names(props, x) {
                    let k = choose|k: int| 0 <= k < props.len() && #[trigger] props[k].0 == x;
                    assert(r[k].0 == x);
                }
                if x == key {
                    assert(r[i].0 == x);
                }
            }
        },
        None => {
            assert forall|x: Seq<char>| #[trigger] names(r, x) <==> (names(props, x) || x == key) by {
                if names(r, x) {
                    let k = choose|k: int| 0 <= k < r.len() && #[trigger] r[k].0 == x;
                    if k < props.len() {
                        assert(props[k].0 == x);
                    }
                }
                if names(props, x) {
                    let k = choose|k: int| 0 <= k < props.len() && #[trigger] props[k].0 == x;
                    assert(r[k].0 == x);
                }
                if x == key {
                    assert(r[props.len() as int].0 == x);
                }
            }
            if names_unique(props) {
                assert forall|a: int, b: int| 0 <= a < b < r.len() implies #[trigger] r[a].0 != #[trigger] r[b].0 by {
                    if b == props.len() {
                        assert(!p(a));
                    }
                }
            }
        },
    }
}

/// An object schema built from named properties names each property once,
/// names every property it was given, and requires only properties it names.
pub proof fn law_object_names(named: Seq<(Seq<char>, SchemaV, bool)>)
    ensures
        names_unique(props_of(named)),
        forall|k: int| 0 <= k < named.len() ==> names(props_of(named), #[trigger] named[k].0),
        forall|k: int| 0 <= k < required_of(named).len() ==> names(props_of(named), #[trigger] required_of(named)[k]),
    decreases named.len(),
{
    if named.len() > 0 {
        let rest = named.drop_last();
        let last = named.last();
        law_object_names(rest);
        lemma_props_insert(props_of(rest), last.0, last.1);
        assert forall|k: int| 0 <= k < named.len() implies names(props_of(named), #[trigger] named[k].0) by {
            if k < rest.len() {
                assert(rest[k] == named[k]);
                assert(names(props_of(rest), rest[k].0));
            }
        }
        assert forall|k: int| 0 <= k < required_of(named).len() implies names(
            props_of(named),
            #[trigger] required_of(named)[k],
        ) by {
            if k < required_of(rest).len() {
                assert(required_of(named)[k] == required_of(rest)[k]);
                assert(names(props_of(rest), required_of(rest)[k]));
            }
        }
    }
}

} // verus!
