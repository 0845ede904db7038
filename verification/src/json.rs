//! JSON values at the edge of the rules: the flat objects the server sends, and
//! the members it reads in what clients send.

use crate::text;
use serde_json::Value;
use vstd::prelude::*;

verus! {

// ---------------------------------------------------------------------------
// Objects that are sent
// ---------------------------------------------------------------------------

/// How often one emoji was given to a message.
#[derive(Debug)]
pub struct ReactionSummary {
    pub emoji: String,
    pub count: i64,
}

impl View for ReactionSummary {
    type V = (Seq<char>, int);

    open spec fn view(&self) -> (Seq<char>, int) {
        (self.emoji@, self.count as int)
    }
}

/// The views of a list of summaries.
pub open spec fn summaries(v: Seq<ReactionSummary>) -> Seq<(Seq<char>, int)> {
    v.map_values(|s: ReactionSummary| s@)
}

/// A member's value in an object that is sent.
#[derive(Debug)]
pub enum JsonValue {
    Null,
    Bool(bool),
    Text(String),
    Texts(Vec<String>),
    Reactions(Vec<ReactionSummary>),
}

/// The model of a member's value.
pub enum JsonModel {
    Null,
    Bool(bool),
    Text(Seq<char>),
    Texts(Seq<Seq<char>>),
    Reactions(Seq<(Seq<char>, int)>),
}

impl View for JsonValue {
    type V = JsonModel;

    open spec fn view(&self) -> JsonModel {
        match self {
            JsonValue::Null => JsonModel::Null,
            JsonValue::Bool(b) => JsonModel::Bool(*b),
            JsonValue::Text(s) => JsonModel::Text(s@),
            JsonValue::Texts(v) => JsonModel::Texts(text::texts(v@)),
            JsonValue::Reactions(v) => JsonModel::Reactions(summaries(v@)),
        }
    }
}

/// The model of an optional text: the text, or null.
pub open spec fn text_or_null(s: Option<Seq<char>>) -> JsonModel {
    match s {
        Some(t) => JsonModel::Text(t),
        None => JsonModel::Null,
    }
}

/// One member of an object that is sent.
#[derive(Debug)]
pub struct Member {
    pub key: String,
    pub value: JsonValue,
}

impl View for Member {
    type V = (Seq<char>, JsonModel);

    open spec fn view(&self) -> (Seq<char>, JsonModel) {
        (self.key@, self.value@)
    }
}

/// An object that is sent: its members, in the order they were put.
#[derive(Debug)]
pub struct JsonObject {
    pub members: Vec<Member>,
}

impl View for JsonObject {
    type V = Seq<(Seq<char>, JsonModel)>;

    open spec fn view(&self) -> Seq<(Seq<char>, JsonModel)> {
        self.members@.map_values(|m: Member| m@)
    }
}

impl JsonObject {
    /// An object with the one member `type`.
    pub fn of_type(kind: &str) -> (r: JsonObject)
        ensures
            r@ == seq![("type"@, JsonModel::Text(kind@))],
    {
        let mut r = JsonObject { members: Vec::new() };
        r.put_text("type", kind);
        proof {
            assert(r@ =~= seq![("type"@, JsonModel::Text(kind@))]);
        }
        r
    }

    /// Adds a member.
    pub fn put(&mut self, key: &str, value: JsonValue)
        ensures
            final(self)@ == old(self)@.push((key@, value@)),
    {
        let ghost before = self@;
        self.members.push(Member { key: key.to_string(), value });
        proof {
            assert(self@ =~= before.push((key@, value@)));
        }
    }

    /// Adds a member that holds a text.
    pub fn put_text(&mut self, key: &str, value: &str)
        ensures
            final(self)@ == old(self)@.push((key@, JsonModel::Text(value@))),
    {
        self.put(key, JsonValue::Text(value.to_string()));
    }

    /// Adds a member that holds a text, or null.
    pub fn put_opt(&mut self, key: &str, value: &Option<String>)
        ensures
            final(self)@ == old(self)@.push((key@, text_or_null(text::opt_text(*value)))),
    {
        match value {
            Some(t) => self.put_text(key, t.as_str()),
            None => self.put(key, JsonValue::Null),
        }
    }

    /// Adds a member that holds a list of texts.
    pub fn put_texts(&mut self, key: &str, value: &Vec<String>)
        ensures
            final(self)@ == old(self)@.push((key@, JsonModel::Texts(text::texts(value@)))),
    {
        self.put(key, JsonValue::Texts(text::clone_texts(value)));
    }

    /// A copy of the object.
    pub fn copy(&self) -> (r: JsonObject)
        ensures
            r@ == self@,
    {
        let mut r = JsonObject { members: Vec::new() };
        let mut i: usize = 0;
        proof {
            assert(r@ =~= self@.take(0));
        }
        while i < self.members.len()
            invariant
                i <= self.members@.len(),
                r@ == self@.take(i as int),
            decreases self.members@.len() - i,
        {
            let value = copy_value(&self.members[i].value);
            r.put(self.members[i].key.as_str(), value);
            i += 1;
            proof {
                assert(self@.take(i as int) =~= self@.take(i as int - 1).push(self@[i as int - 1]));
            }
        }
        proof {
            assert(self@.take(self@.len() as int) == self@);
        }
        r
    }
}

/// A copy of a list of summaries.
pub fn copy_summaries(v: &Vec<ReactionSummary>) -> (r: Vec<ReactionSummary>)
    ensures
        summaries(r@) == summaries(v@),
{
    let mut out: Vec<ReactionSummary> = Vec::new();
    let mut i: usize = 0;
    while i < v.len()
        invariant
            i <= v@.len(),
            summaries(out@) =~= summaries(v@).take(i as int),
        decreases v@.len() - i,
    {
        let ghost before = summaries(out@);
        out.push(ReactionSummary { emoji: v[i].emoji.clone(), count: v[i].count });
        i += 1;
        proof {
            assert(summaries(out@) =~= before.push(v@[i as int - 1]@));
            assert(summaries(v@).take(i as int) =~= before.push(v@[i as int - 1]@));
        }
    }
    proof {
        assert(summaries(v@).take(v@.len() as int) == summaries(v@));
    }
    out
}

fn copy_value(v: &JsonValue) -> (r: JsonValue)
    ensures
        r@ == v@,
{
    match v {
        JsonValue::Null => JsonValue::Null,
        JsonValue::Bool(b) => JsonValue::Bool(*b),
        JsonValue::Text(s) => JsonValue::Text(s.clone()),
        JsonValue::Texts(list) => JsonValue::Texts(text::clone_texts(list)),
        JsonValue::Reactions(list) => JsonValue::Reactions(copy_summaries(list)),
    }
}

// ---------------------------------------------------------------------------
// Values that are received
// ---------------------------------------------------------------------------

/// `serde_json::Value`, any JSON value.
#[verifier::external_type_specification]
#[verifier::external_body]
pub struct ExValue(serde_json::Value);

/// The members of an object that hold strings, by key; empty for a value that
/// is no object.
pub uninterp spec fn text_members(v: Value) -> Map<Seq<char>, Seq<char>>;

/// The members of an object that hold anything but a string, by key, each as
/// its JSON text; empty for a value that is no object.
pub uninterp spec fn other_members(v: Value) -> Map<Seq<char>, Seq<char>>;

/// What `serde_json::from_str` finds in a text: the value's string members and its
/// other members, or nothing where the text is no JSON.
pub uninterp spec fn parsed_members(s: Seq<char>) -> Option<(Map<Seq<char>, Seq<char>>, Map<Seq<char>, Seq<char>>)>;

/// Calls `serde_json::from_str` for a `Value`.
#[verifier::external_body]
pub(crate) fn parse_value(s: &str) -> (r: Option<Value>)
    ensures
        match r {
            Some(v) => parsed_members(s@) == Some((text_members(v), other_members(v))),
            None => parsed_members(s@) is None,
        },
{
    serde_json::from_str::<Value>(s).ok()
}

/// Calls the index operator of `Value` with a key, and `Value::as_str`: the
/// string that the member holds, if it is there and holds one.
#[verifier::external_body]
pub(crate) fn text_member(v: &Value, key: &str) -> (r: Option<String>)
    ensures
        match r {
            Some(t) => text_members(*v).contains_key(key@) && text_members(*v)[key@] == t@,
            None => !text_members(*v).contains_key(key@),
        },
{
    v[key].as_str().map(|t| t.to_string())
}

/// Calls `Value::clone`, which keeps every member.
#[verifier::external_body]
pub(crate) fn clone_value(v: &Value) -> (r: Value)
    ensures
        text_members(r) == text_members(*v),
        other_members(r) == other_members(*v),
{
    v.clone()
}

/// Assigns to a key of a `Value` through its mutable index operator. On an
/// object this sets that member and no other; a value that has a member is an
/// object.
#[verifier::external_body]
pub(crate) fn set_text_member(v: &mut Value, key: &str, value: &str)
    requires
        exists|k: Seq<char>| text_members(*old(v)).contains_key(k),
    ensures
        text_members(*final(v)) == text_members(*old(v)).insert(key@, value@),
        other_members(*final(v)) == other_members(*old(v)).remove(key@),
{
    v[key] = Value::String(value.to_string());
}

/// The string under `key`, or the empty text, without white space at its ends.
pub open spec fn trimmed_member(members: Map<Seq<char>, Seq<char>>, key: Seq<char>) -> Seq<char> {
    if members.contains_key(key) {
        text::trimmed(members[key])
    } else {
        Seq::empty()
    }
}

/// The string under `key` without white space at its ends, if there is one.
pub open spec fn opt_trimmed_member(
    members: Map<Seq<char>, Seq<char>>,
    key: Seq<char>,
) -> Option<Seq<char>> {
    if members.contains_key(key) {
        Some(text::trimmed(members[key]))
    } else {
        None
    }
}

/// Reads a member as trimmed text; empty where it is missing.
pub(crate) fn read_trimmed(v: &Value, key: &str) -> (r: String)
    ensures
        r@ == trimmed_member(text_members(*v), key@),
{
    match text_member(v, key) {
        Some(t) => text::trim(t.as_str()).to_string(),
        None => String::new(),
    }
}

/// Reads a member as trimmed text, if it is there.
pub(crate) fn read_opt_trimmed(v: &Value, key: &str) -> (r: Option<String>)
    ensures
        text::opt_text(r) == opt_trimmed_member(text_members(*v), key@),
{
    match text_member(v, key) {
        Some(t) => Some(text::trim(t.as_str()).to_string()),
        None => None,
    }
}

// ---------------------------------------------------------------------------
// Laws
// ---------------------------------------------------------------------------

/// Whether a member is a text under a key.
pub open spec fn is_text(m: Member, key: Seq<char>, value: Seq<char>) -> bool {
    m.key@ == key && m.value is Text && m.value->Text_0@ == value
}

/// Whether an object is another with one member after what it had.
pub open spec fn has_one_more(object: JsonObject, before: JsonObject) -> bool {
    &&& object.members@.len() == before.members@.len() + 1
    &&& forall|i: int|
        0 <= i < before.members@.len() ==> (#[trigger] object.members@[i])@ == before.members@[i]@
}

proof fn one_more_by_model(object: JsonObject, before: JsonObject, m: (Seq<char>, JsonModel))
    requires
        object@ == before@.push(m),
    ensures
        has_one_more(object, before),
        object.members@.last()@ == m,
{
    let n = before.members@.len() as int;
    assert(object@.len() == object.members@.len());
    assert(object@[n] == object.members@[n]@);
    assert forall|i: int| 0 <= i < n implies (#[trigger] object.members@[i])@
        == before.members@[i]@ by {
        assert(object@[i] == object.members@[i]@);
        assert(before@[i] == before.members@[i]@);
    }
}

/// A new object has its type and nothing else.
pub proof fn objects_start_with_their_type(kind: &str, r: JsonObject)
    requires
        call_ensures(JsonObject::of_type, (kind,), r),
    ensures
        r.members@.len() == 1,
        is_text(r.members@[0], "type"@, kind@),
{
    assert(r@.len() == 1);
    assert(r@[0] == r.members@[0]@);
}

/// A text that is put into an object stands under its key after what was there.
pub proof fn texts_are_put_last(object: &mut JsonObject, key: &str, value: &str)
    requires
        call_ensures(JsonObject::put_text, (object, key, value), ()),
    ensures
        has_one_more(*final(object), *old(object)),
        is_text(final(object).members@.last(), key@, value@),
{
    one_more_by_model(*final(object), *old(object), (key@, JsonModel::Text(value@)));
}

/// A text that may be missing is put as itself, or as null.
pub proof fn missing_texts_are_null(object: &mut JsonObject, key: &str, value: &Option<String>)
    requires
        call_ensures(JsonObject::put_opt, (object, key, value), ()),
    ensures
        has_one_more(*final(object), *old(object)),
        value is Some ==> is_text(final(object).members@.last(), key@, value->0@),
        value is None ==> final(object).members@.last().key@ == key@
            && final(object).members@.last().value is Null,
{
    one_more_by_model(*final(object), *old(object), (key@, text_or_null(text::opt_text(*value))));
}

/// A list of texts is put whole and in its order.
pub proof fn lists_are_put_whole(object: &mut JsonObject, key: &str, value: &Vec<String>, i: int)
    requires
        call_ensures(JsonObject::put_texts, (object, key, value), ()),
        0 <= i < value@.len(),
    ensures
        has_one_more(*final(object), *old(object)),
        ({
            let m = final(object).members@.last();
            &&& m.key@ == key@
            &&& m.value is Texts
            &&& m.value->Texts_0@.len() == value@.len()
            &&& m.value->Texts_0@[i]@ == value@[i]@
        }),
{
    one_more_by_model(
        *final(object),
        *old(object),
        (key@, JsonModel::Texts(text::texts(value@))),
    );
    let m = final(object).members@.last();
    assert(text::texts(m.value->Texts_0@).len() == text::texts(value@).len());
    assert(text::texts(m.value->Texts_0@)[i] == text::texts(value@)[i]);
}

/// A value is put as it is.
pub proof fn values_are_put_as_they_are(object: &mut JsonObject, key: &str, value: JsonValue)
    requires
        call_ensures(JsonObject::put, (object, key, value), ()),
    ensures
        has_one_more(*final(object), *old(object)),
        final(object).members@.last().key@ == key@,
        final(object).members@.last().value@ == value@,
{
    one_more_by_model(*final(object), *old(object), (key@, value@));
}

/// A copy of reactions has the same ones, counted alike.
pub proof fn reactions_are_copied_whole(v: &Vec<ReactionSummary>, r: Vec<ReactionSummary>, i: int)
    requires
        call_ensures(copy_summaries, (v,), r),
        0 <= i < v@.len(),
    ensures
        r@.len() == v@.len(),
        r@[i].emoji@ == v@[i].emoji@,
        r@[i].count == v@[i].count,
{
    assert(summaries(r@).len() == summaries(v@).len());
    assert(summaries(r@)[i] == summaries(v@)[i]);
}

/// What is read of an object's texts is the text under that key and no other, without
/// white space at its ends; where there is none it is empty, or left out.
pub proof fn texts_are_found_under_their_key(members: Map<Seq<char>, Seq<char>>, key: Seq<char>)
    ensures
        members.contains_key(key) ==> trimmed_member(members, key) == text::trimmed(members[key])
            && opt_trimmed_member(members, key) == Some(text::trimmed(members[key])),
        !members.contains_key(key) ==> trimmed_member(members, key).len() == 0
            && opt_trimmed_member(members, key) is None,
{
}

} // verus!
