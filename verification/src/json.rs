//! JSON, one level at a time: the members of a list or a record are kept as the
//! JSON text they are.
use serde_json::{Number, Value};
use vstd::prelude::*;

#[allow(unused_imports)]
use crate::table::as_map;
#[allow(unused_imports)]
use crate::text::texts;

verus! {

/// A JSON value.
pub enum Json {
    Null,
    Bool(bool),
    Int(i128),
    /// A number with a fraction or out of range, which is of no use here.
    Fraction,
    Text(String),
    List(Vec<String>),
    Record(Vec<(String, String)>),
}

/// A JSON value as a plain value.
pub enum JsonView {
    Null,
    Bool(bool),
    Int(int),
    Fraction,
    Text(Seq<char>),
    List(Seq<Seq<char>>),
    Record(Map<Seq<char>, Seq<char>>),
}

/// The fields of a record; of two with the same name the later counts.
pub open spec fn fields_of(fields: Seq<(String, String)>) -> Map<Seq<char>, Seq<char>> {
    as_map(fields.map_values(|f: (String, String)| (f.0@, f.1@)))
}

impl View for Json {
    type V = JsonView;

    open spec fn view(&self) -> JsonView {
        match self {
            Json::Null => JsonView::Null,
            Json::Bool(b) => JsonView::Bool(*b),
            Json::Int(n) => JsonView::Int(*n as int),
            Json::Fraction => JsonView::Fraction,
            Json::Text(s) => JsonView::Text(s@),
            Json::List(items) => JsonView::List(texts(items@)),
            Json::Record(fields) => JsonView::Record(fields_of(fields@)),
        }
    }
}

/// The text that `serde_json` writes for a value whose members are given as JSON
/// text; nothing where a member is not JSON or a number is out of range.
pub uninterp spec fn json_written(value: JsonView) -> Option<Seq<char>>;

/// The value that `serde_json` reads from a text, its members written out again;
/// nothing where the text is not JSON.
pub uninterp spec fn json_read(text: Seq<char>) -> Option<JsonView>;

/// Whether a name is an ordinary name of a field. `serde_json` takes a record that
/// starts with one of its private names, which begin with a dollar sign, for
/// something else.
pub open spec fn ordinary(name: Seq<char>) -> bool {
    name.len() == 0 || name[0] != '$'
}

/// Whether a text was written for a value that is nested at most so deep.
pub open spec fn nested(text: Seq<char>, depth: nat) -> bool
    decreases depth, 2nat,
{
    exists|value: JsonView| #[trigger]
        json_written(value) == Some(text) && members_nested(value, depth)
}

/// Whether a value is nested at most so deep, its members written by `serde_json`
/// too, every name of a field ordinary, and no number out of range.
pub open spec fn members_nested(value: JsonView, depth: nat) -> bool
    decreases depth, 1nat,
{
    match value {
        JsonView::Fraction => false,
        JsonView::Int(n) => i64::MIN <= n <= u64::MAX,
        JsonView::List(items) => depth > 0 && forall|i: int|
            0 <= i < items.len() ==> depth > 0 && nested(#[trigger] items[i], (depth - 1) as nat),
        JsonView::Record(fields) => depth > 0 && forall|k: Seq<char>| #[trigger]
            fields.contains_key(k) ==> depth > 0 && ordinary(k) && nested(
                fields[k],
                (depth - 1) as nat,
            ),
        _ => true,
    }
}

/// Building a `serde_json::Value`, its members by `serde_json::from_str`, and
/// writing it with its `Display`: compact JSON. It succeeds where the members
/// are JSON and a number fits 64 bits, and the reading below gives a value back
/// as it was, as long as its members were written here too, every name of a field
/// is ordinary, and it is not nested deeper than `serde_json` reads. Nothing is
/// claimed of a record with one of its private names: with the feature `raw_value`
/// it reads as what the field quotes.
#[verifier::external_body]
pub(crate) fn write_json(value: &Json) -> (text: Option<String>)
    ensures
        match text {
            Some(text) => json_written(value@) == Some(text@),
            None => json_written(value@) is None,
        },
        members_nested(value@, 100) ==> text is Some && json_read(text->0@) == Some(value@),
{
    let value = match value {
        Json::Null => Value::Null,
        Json::Bool(b) => Value::Bool(*b),
        Json::Int(n) => Value::Number(Number::from_i128(*n)?),
        Json::Fraction => return None,
        Json::Text(s) => Value::String(s.clone()),
        Json::List(l) => {
            Value::Array(l.iter().map(|t| serde_json::from_str(t).ok()).collect::<Option<_>>()?)
        }
        Json::Record(r) => Value::Object(
            r.iter().map(|f| Some((f.0.clone(), serde_json::from_str(&f.1).ok()?))).collect::<Option<_>>()?,
        ),
    };
    Some(value.to_string())
}

/// `serde_json::from_str` into a `Value`, whose members are written out again
/// with its `Display`.
#[verifier::external_body]
pub(crate) fn read_json(text: &str) -> (value: Option<Json>)
    ensures
        match value {
            Some(value) => json_read(text@) == Some(value@),
            None => json_read(text@) is None,
        },
{
    Some(match serde_json::from_str::<Value>(text).ok()? {
        Value::Null => Json::Null,
        Value::Bool(b) => Json::Bool(b),
        Value::Number(n) => n.as_i128().map_or(Json::Fraction, Json::Int),
        Value::String(s) => Json::Text(s),
        Value::Array(items) => Json::List(items.iter().map(Value::to_string).collect()),
        Value::Object(map) => {
            Json::Record(map.iter().map(|(k, v)| (k.clone(), v.to_string())).collect())
        }
    })
}

/// The text that is written for a value.
pub open spec fn written(value: JsonView) -> Seq<char> {
    json_written(value)->0
}

/// Whether a value can be written and reads back as it was.
pub open spec fn reads_back(value: JsonView) -> bool {
    json_written(value) is Some && json_read(written(value)) == Some(value)
}

/// A text that is nested at most so deep is nested at most deeper.
pub(crate) proof fn lemma_nested_deeper(text: Seq<char>, a: nat, b: nat)
    requires
        nested(text, a),
        a <= b,
    ensures
        nested(text, b),
    decreases a, 2nat,
{
    let value = choose|value: JsonView| #[trigger]
        json_written(value) == Some(text) && members_nested(value, a);
    lemma_members_deeper(value, a, b);
}

/// A value that is nested at most so deep is nested at most deeper.
pub(crate) proof fn lemma_members_deeper(value: JsonView, a: nat, b: nat)
    requires
        members_nested(value, a),
        a <= b,
    ensures
        members_nested(value, b),
    decreases a, 1nat,
{
    match value {
        JsonView::List(items) => {
            assert forall|i: int| 0 <= i < items.len() implies nested(
                #[trigger] items[i],
                (b - 1) as nat,
            ) by {
                lemma_nested_deeper(items[i], (a - 1) as nat, (b - 1) as nat);
            }
        },
        JsonView::Record(fields) => {
            assert forall|k: Seq<char>| #[trigger] fields.contains_key(k) implies ordinary(k)
                && nested(fields[k], (b - 1) as nat) by {
                lemma_nested_deeper(fields[k], (a - 1) as nat, (b - 1) as nat);
            }
        },
        _ => {},
    }
}

/// A record while it is being written.
pub struct Fields {
    pub list: Vec<(String, String)>,
}

impl View for Fields {
    type V = Map<Seq<char>, Seq<char>>;

    open spec fn view(&self) -> Map<Seq<char>, Seq<char>> {
        fields_of(self.list@)
    }
}

/// Whether the fields of a record are nested at most so deep, under ordinary names.
pub open spec fn fields_nested(fields: Map<Seq<char>, Seq<char>>, depth: nat) -> bool {
    forall|k: Seq<char>| #[trigger]
        fields.contains_key(k) ==> ordinary(k) && nested(fields[k], depth)
}

/// Writes a value that is nested at most so deep.
pub(crate) fn write_value(value: &Json, Ghost(depth): Ghost<nat>) -> (text: String)
    requires
        members_nested(value@, depth),
        depth <= 100,
    ensures
        text@ == written(value@),
        reads_back(value@),
        nested(text@, depth),
{
    proof {
        lemma_members_deeper(value@, depth, 100);
    }
    match write_json(value) {
        Some(text) => text,
        None => {
            assert(false);
            String::new()
        },
    }
}

impl Fields {
    /// A record without fields.
    pub fn new() -> (fields: Fields)
        ensures
            fields@ == Map::<Seq<char>, Seq<char>>::empty(),
    {
        let fields = Fields { list: Vec::new() };
        assert(fields.list@.map_values(|f: (String, String)| (f.0@, f.1@)) =~= Seq::<
            (Seq<char>, Seq<char>),
        >::empty());
        fields
    }

    /// One more field, given as JSON text.
    pub(crate) fn put_raw(&mut self, name: &str, text: String)
        ensures
            final(self)@ == old(self)@.insert(name@, text@),
    {
        let ghost before = self.list@;
        self.list.push((name.to_string(), text));
        proof {
            let view = |f: (String, String)| (f.0@, f.1@);
            assert(self.list@.map_values(view).drop_last() =~= before.map_values(view));
        }
    }

    /// One more field that holds a plain value.
    fn put(&mut self, name: &str, value: &Json, Ghost(depth): Ghost<nat>)
        requires
            ordinary(name@),
            members_nested(value@, 0),
            fields_nested(old(self)@, depth),
        ensures
            final(self)@ == old(self)@.insert(name@, written(value@)),
            reads_back(value@),
            fields_nested(final(self)@, depth),
    {
        let text = write_value(value, Ghost(0));
        proof {
            lemma_nested_deeper(text@, 0, depth);
        }
        self.put_raw(name, text);
    }

    /// One more field that holds a text.
    pub(crate) fn put_text(&mut self, name: &str, text: &str, Ghost(depth): Ghost<nat>)
        requires
            ordinary(name@),
            fields_nested(old(self)@, depth),
        ensures
            final(self)@ == old(self)@.insert(name@, written(JsonView::Text(text@))),
            reads_back(JsonView::Text(text@)),
            fields_nested(final(self)@, depth),
    {
        self.put(name, &Json::Text(text.to_string()), Ghost(depth));
    }

    /// One more field that holds a number.
    pub(crate) fn put_int(&mut self, name: &str, n: i64, Ghost(depth): Ghost<nat>)
        requires
            ordinary(name@),
            fields_nested(old(self)@, depth),
        ensures
            final(self)@ == old(self)@.insert(name@, written(JsonView::Int(n as int))),
            reads_back(JsonView::Int(n as int)),
            fields_nested(final(self)@, depth),
    {
        self.put(name, &Json::Int(n as i128), Ghost(depth));
    }

    /// One more field that holds a truth value.
    pub(crate) fn put_bool(&mut self, name: &str, yes: bool, Ghost(depth): Ghost<nat>)
        requires
            ordinary(name@),
            fields_nested(old(self)@, depth),
        ensures
            final(self)@ == old(self)@.insert(name@, written(JsonView::Bool(yes))),
            reads_back(JsonView::Bool(yes)),
            fields_nested(final(self)@, depth),
    {
        self.put(name, &Json::Bool(yes), Ghost(depth));
    }

    /// One more field that holds nothing.
    pub(crate) fn put_null(&mut self, name: &str, Ghost(depth): Ghost<nat>)
        requires
            ordinary(name@),
            fields_nested(old(self)@, depth),
        ensures
            final(self)@ == old(self)@.insert(name@, written(JsonView::Null)),
            reads_back(JsonView::Null),
            fields_nested(final(self)@, depth),
    {
        self.put(name, &Json::Null, Ghost(depth));
    }

    /// The record as JSON.
    pub(crate) fn finish(self, Ghost(depth): Ghost<nat>) -> (text: String)
        requires
            fields_nested(self@, depth),
            depth < 100,
        ensures
            text@ == written(JsonView::Record(self@)),
            reads_back(JsonView::Record(self@)),
            nested(text@, depth + 1),
    {
        let value = Json::Record(self.list);
        assert(members_nested(value@, depth + 1));
        write_value(&value, Ghost(depth + 1))
    }
}

/// The text in a field, where the field is there and holds one.
pub open spec fn text_field(fields: Map<Seq<char>, Seq<char>>, name: Seq<char>) -> Option<
    Seq<char>,
> {
    if fields.contains_key(name) {
        match json_read(fields[name]) {
            Some(JsonView::Text(text)) => Some(text),
            _ => None,
        }
    } else {
        None
    }
}

/// The number in a field, where the field is there and holds one.
pub open spec fn int_field(fields: Map<Seq<char>, Seq<char>>, name: Seq<char>) -> Option<int> {
    if fields.contains_key(name) {
        match json_read(fields[name]) {
            Some(JsonView::Int(n)) => Some(n),
            _ => None,
        }
    } else {
        None
    }
}

/// The truth value in a field, where the field is there and holds one.
pub open spec fn bool_field(fields: Map<Seq<char>, Seq<char>>, name: Seq<char>) -> Option<bool> {
    if fields.contains_key(name) {
        match json_read(fields[name]) {
            Some(JsonView::Bool(yes)) => Some(yes),
            _ => None,
        }
    } else {
        None
    }
}

/// The text in a field that may be missing or hold nothing; no answer where it
/// holds anything else.
pub open spec fn optional_text(fields: Map<Seq<char>, Seq<char>>, name: Seq<char>) -> Option<
    Option<Seq<char>>,
> {
    if !fields.contains_key(name) || json_read(fields[name]) == Some(JsonView::Null) {
        Some(None)
    } else {
        match text_field(fields, name) {
            Some(text) => Some(Some(text)),
            None => None,
        }
    }
}

/// The number in a field that may be missing or hold nothing; no answer where it
/// holds anything else.
pub open spec fn optional_int(fields: Map<Seq<char>, Seq<char>>, name: Seq<char>) -> Option<
    Option<int>,
> {
    if !fields.contains_key(name) || json_read(fields[name]) == Some(JsonView::Null) {
        Some(None)
    } else {
        match int_field(fields, name) {
            Some(n) => Some(Some(n)),
            None => None,
        }
    }
}

/// The fields of the record that a text holds, if it holds one.
pub open spec fn record_in(text: Seq<char>) -> Option<Map<Seq<char>, Seq<char>>> {
    match json_read(text) {
        Some(JsonView::Record(fields)) => Some(fields),
        _ => None,
    }
}

/// The items of the list that a text holds, if it holds one.
pub open spec fn list_in(text: Seq<char>) -> Option<Seq<Seq<char>>> {
    match json_read(text) {
        Some(JsonView::List(items)) => Some(items),
        _ => None,
    }
}

/// The fields of the record that a text holds.
pub fn read_record(text: &str) -> (fields: Option<Fields>)
    ensures
        match fields {
            Some(fields) => record_in(text@) == Some(fields@),
            None => record_in(text@) is None,
        },
{
    match read_json(text) {
        Some(Json::Record(list)) => Some(Fields { list }),
        _ => None,
    }
}

/// The items of the list that a text holds.
pub fn read_list(text: &str) -> (items: Option<Vec<String>>)
    ensures
        match items {
            Some(items) => list_in(text@) == Some(texts(items@)),
            None => list_in(text@) is None,
        },
{
    match read_json(text) {
        Some(Json::List(items)) => Some(items),
        _ => None,
    }
}

proof fn lemma_last_field_counts(fields: Seq<(String, String)>, i: int, name: Seq<char>)
    requires
        0 <= i < fields.len(),
        fields[i].0@ == name,
        forall|j: int| i < j < fields.len() ==> (#[trigger] fields[j]).0@ != name,
    ensures
        fields_of(fields).contains_key(name),
        fields_of(fields)[name] == fields[i].1@,
    decreases fields.len(),
{
    let view = |f: (String, String)| (f.0@, f.1@);
    let entries = fields.map_values(view);
    assert(entries.drop_last() =~= fields.drop_last().map_values(view));
    assert(entries.last() == (fields.last().0@, fields.last().1@));
    if i < fields.len() - 1 {
        assert(fields[fields.len() - 1].0@ != name);
        assert forall|j: int| i < j < fields.drop_last().len() implies (
        #[trigger] fields.drop_last()[j]).0@ != name by {
            assert(fields[j].0@ != name);
        }
        lemma_last_field_counts(fields.drop_last(), i, name);
    }
}

proof fn lemma_no_such_field(fields: Seq<(String, String)>, name: Seq<char>)
    requires
        forall|j: int| 0 <= j < fields.len() ==> (#[trigger] fields[j]).0@ != name,
    ensures
        !fields_of(fields).contains_key(name),
    decreases fields.len(),
{
    let view = |f: (String, String)| (f.0@, f.1@);
    let entries = fields.map_values(view);
    if fields.len() > 0 {
        assert(entries.drop_last() =~= fields.drop_last().map_values(view));
        assert(entries.last() == (fields.last().0@, fields.last().1@));
        assert(fields[fields.len() - 1].0@ != name);
        assert forall|j: int| 0 <= j < fields.drop_last().len() implies (
        #[trigger] fields.drop_last()[j]).0@ != name by {
            assert(fields[j].0@ != name);
        }
        lemma_no_such_field(fields.drop_last(), name);
    }
}

impl Fields {
    /// What a field holds, as JSON text.
    pub fn raw(&self, name: &str) -> (text: Option<&String>)
        ensures
            match text {
                Some(text) => self@.contains_key(name@) && self@[name@] == text@,
                None => !self@.contains_key(name@),
            },
    {
        let mut i: usize = self.list.len();
        while i > 0
            invariant
                i <= self.list@.len(),
                forall|j: int| i <= j < self.list@.len() ==> (#[trigger] self.list@[j]).0@ != name@,
            decreases i,
        {
            i = i - 1;
            if crate::text::same_text(&self.list[i].0, name) {
                proof {
                    lemma_last_field_counts(self.list@, i as int, name@);
                }
                return Some(&self.list[i].1);
            }
        }
        proof {
            lemma_no_such_field(self.list@, name@);
        }
        None
    }

    /// The text in a field.
    pub fn text(&self, name: &str) -> (text: Option<String>)
        ensures
            match text {
                Some(text) => text_field(self@, name@) == Some(text@),
                None => text_field(self@, name@) is None,
            },
    {
        match self.raw(name) {
            Some(raw) => match read_json(raw) {
                Some(Json::Text(text)) => Some(text),
                _ => None,
            },
            None => None,
        }
    }

    /// The number in a field.
    pub fn number(&self, name: &str) -> (n: Option<i128>)
        ensures
            match n {
                Some(n) => int_field(self@, name@) == Some(n as int),
                None => int_field(self@, name@) is None,
            },
    {
        match self.raw(name) {
            Some(raw) => match read_json(raw) {
                Some(Json::Int(n)) => Some(n),
                _ => None,
            },
            None => None,
        }
    }

    /// The truth value in a field.
    pub fn flag(&self, name: &str) -> (yes: Option<bool>)
        ensures
            yes == bool_field(self@, name@),
    {
        match self.raw(name) {
            Some(raw) => match read_json(raw) {
                Some(Json::Bool(yes)) => Some(yes),
                _ => None,
            },
            None => None,
        }
    }

    /// The text in a field that may be missing or hold nothing.
    pub fn maybe_text(&self, name: &str) -> (text: Option<Option<String>>)
        ensures
            match text {
                Some(Some(text)) => optional_text(self@, name@) == Some(Some(text@)),
                Some(None) => optional_text(self@, name@) == Some(None::<Seq<char>>),
                None => optional_text(self@, name@) is None,
            },
    {
        match self.raw(name) {
            Some(raw) => match read_json(raw) {
                Some(Json::Text(text)) => Some(Some(text)),
                Some(Json::Null) => Some(None),
                _ => None,
            },
            None => Some(None),
        }
    }

    /// The number in a field that may be missing or hold nothing.
    pub fn maybe_int(&self, name: &str) -> (n: Option<Option<i128>>)
        ensures
            match n {
                Some(Some(n)) => optional_int(self@, name@) == Some(Some(n as int)),
                Some(None) => optional_int(self@, name@) == Some(None::<int>),
                None => optional_int(self@, name@) is None,
            },
    {
        match self.raw(name) {
            Some(raw) => match read_json(raw) {
                Some(Json::Int(n)) => Some(Some(n)),
                Some(Json::Null) => Some(None),
                _ => None,
            },
            None => Some(None),
        }
    }
}

/// A field that is missing, or holds nothing, is taken for none; one that holds
/// something else than was asked for is no answer.
pub proof fn a_field_may_be_missing(
    fields: Map<Seq<char>, Seq<char>>,
    name: Seq<char>,
    text: Seq<char>,
    n: int,
    yes: bool,
)
    ensures
        !fields.contains_key(name) ==> text_field(fields, name) is None && int_field(fields, name)
            is None && bool_field(fields, name) is None && optional_text(fields, name) == Some(
            None::<Seq<char>>,
        ) && optional_int(fields, name) == Some(None::<int>),
        fields.contains_key(name) && json_read(fields[name]) == Some(JsonView::Null)
            ==> text_field(fields, name) is None && optional_text(fields, name) == Some(
            None::<Seq<char>>,
        ) && optional_int(fields, name) == Some(None::<int>),
        fields.contains_key(name) && json_read(fields[name]) == Some(JsonView::Text(text))
            ==> text_field(fields, name) == Some(text) && optional_text(fields, name) == Some(
            Some(text),
        ) && int_field(fields, name) is None && optional_int(fields, name) is None,
        fields.contains_key(name) && json_read(fields[name]) == Some(JsonView::Int(n)) ==> int_field(
            fields,
            name,
        ) == Some(n) && optional_int(fields, name) == Some(Some(n)) && text_field(fields, name) is None
            && optional_text(fields, name) is None,
        fields.contains_key(name) && json_read(fields[name]) == Some(JsonView::Bool(yes))
            ==> bool_field(fields, name) == Some(yes),
{
}

} // verus!
