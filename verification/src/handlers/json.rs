//! JSON objects as the handlers read and write them.

use vstd::prelude::*;
use vstd::string::*;

use crate::text::{same, views};

verus! {

/// A field of a JSON object that came with a request or a reply.
#[derive(Debug, PartialEq, Eq)]
pub enum JsonField {
    Text(String),
    /// A list; what is no text in it has no value here.
    List(Vec<Option<String>>),
    Other,
}

/// A JSON value as far as the handlers read it: the fields of an object, none of any other value.
#[derive(Debug, PartialEq, Eq)]
pub struct JsonPayload {
    pub fields: Vec<(String, JsonField)>,
}

/// The first field of that name.
pub open spec fn json_field(fields: Seq<(String, JsonField)>, name: Seq<char>) -> Option<JsonField>
    decreases fields.len(),
{
    if fields.len() == 0 {
        None
    } else if fields[0].0@ == name {
        Some(fields[0].1)
    } else {
        json_field(fields.skip(1), name)
    }
}

/// The text of that name.
pub open spec fn json_text(payload: JsonPayload, name: Seq<char>) -> Option<Seq<char>> {
    match json_field(payload.fields@, name) {
        Some(JsonField::Text(t)) => Some(t@),
        _ => None,
    }
}

/// The list of that name.
pub open spec fn json_list(payload: JsonPayload, name: Seq<char>) -> Option<Seq<Option<String>>> {
    match json_field(payload.fields@, name) {
        Some(JsonField::List(l)) => Some(l@),
        _ => None,
    }
}

/// Whether everything in a list is a text.
pub open spec fn all_texts(list: Seq<Option<String>>) -> bool {
    forall|i: int| 0 <= i < list.len() ==> #[trigger] list[i] is Some
}

/// The texts in a list, in their order.
pub open spec fn texts_of(list: Seq<Option<String>>) -> Seq<Seq<char>>
    decreases list.len(),
{
    if list.len() == 0 {
        Seq::empty()
    } else {
        match list.last() {
            Some(t) => texts_of(list.drop_last()).push(t@),
            None => texts_of(list.drop_last()),
        }
    }
}

impl JsonPayload {
    /// The first field of that name.
    pub fn get(&self, name: &str) -> (r: Option<&JsonField>)
        ensures
            match r {
                Some(field) => json_field(self.fields@, name@) == Some(*field),
                None => json_field(self.fields@, name@) is None,
            },
    {
        let mut i: usize = 0;
        proof {
            assert(self.fields@.skip(0) =~= self.fields@);
        }
        while i < self.fields.len()
            invariant
                i <= self.fields@.len(),
                json_field(self.fields@, name@) == json_field(
                    self.fields@.skip(i as int),
                    name@,
                ),
            decreases self.fields@.len() - i,
        {
            if same(self.fields[i].0.as_str(), name) {
                return Some(&self.fields[i].1);
            }
            assert(self.fields@.skip(i as int).skip(1) =~= self.fields@.skip(i + 1));
            i = i + 1;
        }
        None
    }

    /// The text of that name.
    pub fn text(&self, name: &str) -> (r: Option<&str>)
        ensures
            match r {
                Some(t) => json_text(*self, name@) == Some(t@),
                None => json_text(*self, name@) is None,
            },
    {
        match self.get(name) {
            Some(JsonField::Text(t)) => Some(t.as_str()),
            _ => None,
        }
    }

    /// The texts in the list of that name, where there is one that holds nothing but texts.
    pub fn texts(&self, name: &str) -> (r: Option<Vec<String>>)
        ensures
            match (r, json_list(*self, name@)) {
                (Some(t), Some(list)) => all_texts(list) && views(t@) == texts_of(list),
                (None, Some(list)) => !all_texts(list),
                (None, None) => true,
                _ => false,
            },
    {
        match self.get(name) {
            Some(JsonField::List(list)) => {
                let mut out: Vec<String> = Vec::new();
                let mut i: usize = 0;
                while i < list.len()
                    invariant
                        json_list(*self, name@) == Some(list@),
                        i <= list@.len(),
                        forall|j: int| 0 <= j < i ==> #[trigger] list@[j] is Some,
                        views(out@) == texts_of(list@.take(i as int)),
                    decreases list@.len() - i,
                {
                    proof {
                        assert(list@.take(i + 1).drop_last() =~= list@.take(i as int));
                        assert(list@.take(i + 1).last() == list@[i as int]);
                    }
                    match &list[i] {
                        Some(t) => {
                            let ghost before = out@;
                            out.push(t.clone());
                            assert(views(out@) =~= views(before).push(t@));
                        },
                        None => {
                            assert(list@[i as int] is None);
                            return None;
                        },
                    }
                    i = i + 1;
                }
                assert(list@.take(list@.len() as int) =~= list@);
                Some(out)
            },
            _ => None,
        }
    }

    /// The texts in the list of that name; what is no text in it is passed over.
    pub fn texts_among(&self, name: &str) -> (r: Vec<String>)
        ensures
            views(r@) == (match json_list(*self, name@) {
                Some(list) => texts_of(list),
                None => Seq::<Seq<char>>::empty(),
            }),
    {
        let mut out: Vec<String> = Vec::new();
        match self.get(name) {
            Some(JsonField::List(list)) => {
                let mut i: usize = 0;
                while i < list.len()
                    invariant
                        i <= list@.len(),
                        views(out@) == texts_of(list@.take(i as int)),
                    decreases list@.len() - i,
                {
                    proof {
                        assert(list@.take(i + 1).drop_last() =~= list@.take(i as int));
                        assert(list@.take(i + 1).last() == list@[i as int]);
                    }
                    match &list[i] {
                        Some(t) => {
                            let ghost before = out@;
                            out.push(t.clone());
                            assert(views(out@) =~= views(before).push(t@));
                        },
                        None => {},
                    }
                    i = i + 1;
                }
                assert(list@.take(list@.len() as int) =~= list@);
            },
            _ => {},
        }
        out
    }
}

/// A value in a JSON object that a handler writes.
#[derive(Debug, PartialEq, Eq)]
pub enum JsonValue {
    Text(String),
    Number(u64),
    Flag(bool),
    /// A floating-point number, as its IEEE 754 bits.
    Real(u64),
    Reals(Vec<u64>),
}

/// What a JSON value says.
pub enum JsonValueView {
    Text(Seq<char>),
    Number(u64),
    Flag(bool),
    Real(u64),
    Reals(Seq<u64>),
}

impl View for JsonValue {
    type V = JsonValueView;

    open spec fn view(&self) -> JsonValueView {
        match self {
            JsonValue::Text(t) => JsonValueView::Text(t@),
            JsonValue::Number(n) => JsonValueView::Number(*n),
            JsonValue::Flag(b) => JsonValueView::Flag(*b),
            JsonValue::Real(bits) => JsonValueView::Real(*bits),
            JsonValue::Reals(list) => JsonValueView::Reals(list@),
        }
    }
}

/// A JSON object that a handler writes.
#[derive(Debug, PartialEq, Eq)]
pub struct JsonObject {
    pub fields: Vec<(String, JsonValue)>,
}

impl View for JsonObject {
    type V = Seq<(Seq<char>, JsonValueView)>;

    open spec fn view(&self) -> Seq<(Seq<char>, JsonValueView)> {
        self.fields@.map_values(|f: (String, JsonValue)| (f.0@, f.1@))
    }
}

impl JsonObject {
    pub fn new() -> (r: JsonObject)
        ensures
            r@ == Seq::<(Seq<char>, JsonValueView)>::empty(),
    {
        let r = JsonObject { fields: Vec::new() };
        assert(r@ =~= Seq::<(Seq<char>, JsonValueView)>::empty());
        r
    }

    /// The object with one more field.
    pub fn with(self, name: &str, value: JsonValue) -> (r: JsonObject)
        ensures
            r@ == self@.push((name@, value@)),
    {
        let mut fields = self.fields;
        fields.push((name.to_owned(), value));
        let r = JsonObject { fields };
        assert(r@ =~= self@.push((name@, value@)));
        r
    }
}

/// A field is read by its name: the first of that name counts, whatever other fields stand before
/// it and whatever comes behind it. Where there is none of that name, nothing is read.
pub proof fn first_field_of_a_name_counts(
    before: Seq<(String, JsonField)>,
    field: (String, JsonField),
    after: Seq<(String, JsonField)>,
)
    requires
        forall|i: int| 0 <= i < before.len() ==> (#[trigger] before[i]).0@ != field.0@,
    ensures
        json_field(before.push(field) + after, field.0@) == Some(field.1),
        json_field(before, field.0@) is None,
    decreases before.len(),
{
    let all = before.push(field) + after;
    assert(all[before.len() as int] == field);
    if before.len() > 0 {
        let rest = before.skip(1);
        assert forall|i: int| 0 <= i < rest.len() implies (#[trigger] rest[i]).0@ != field.0@ by {
            assert(rest[i] == before[i + 1]);
        }
        first_field_of_a_name_counts(rest, field, after);
        assert(all[0] == before[0]);
        assert(all.skip(1) =~= rest.push(field) + after);
    }
}

/// A text field is read as that text and as nothing else, and a list as that list.
pub proof fn fields_are_read_by_their_kind(payload: JsonPayload, name: Seq<char>)
    ensures
        match json_field(payload.fields@, name) {
            Some(JsonField::Text(text)) => json_text(payload, name) == Some(text@) && json_list(
                payload,
                name,
            ) is None,
            Some(JsonField::List(list)) => json_list(payload, name) == Some(list@) && json_text(
                payload,
                name,
            ) is None,
            _ => json_text(payload, name) is None && json_list(payload, name) is None,
        },
{
}

/// A list of texts is read whole and in its order.
pub proof fn lists_keep_their_texts(list: Seq<Option<String>>)
    requires
        forall|i: int| 0 <= i < list.len() ==> #[trigger] list[i] is Some,
    ensures
        all_texts(list),
        texts_of(list).len() == list.len(),
        forall|i: int| 0 <= i < list.len() ==> #[trigger] texts_of(list)[i] == list[i]->0@,
    decreases list.len(),
{
    if list.len() > 0 {
        let fewer = list.drop_last();
        assert forall|i: int| 0 <= i < fewer.len() implies #[trigger] fewer[i] is Some by {
            assert(fewer[i] == list[i]);
        }
        lists_keep_their_texts(fewer);
        assert(list[list.len() - 1] is Some);
        assert forall|i: int| 0 <= i < list.len() implies #[trigger] texts_of(list)[i]
            == list[i]->0@ by {
            if i < fewer.len() {
                assert(texts_of(fewer)[i] == fewer[i]->0@);
            }
        }
    }
}

/// What is no text in a list is passed over, wherever it stands, and changes nothing else.
pub proof fn other_items_are_passed_over(
    before: Seq<Option<String>>,
    after: Seq<Option<String>>,
)
    ensures
        texts_of(before.push(None) + after) == texts_of(before + after),
        !all_texts(before.push(None) + after),
    decreases after.len(),
{
    let all = before.push(None) + after;
    assert(all[before.len() as int] is None);
    if after.len() == 0 {
        assert(all =~= before.push(None));
        assert(all.drop_last() =~= before);
        assert(before + after =~= before);
    } else {
        other_items_are_passed_over(before, after.drop_last());
        assert(all.drop_last() =~= before.push(None) + after.drop_last());
        assert((before + after).drop_last() =~= before + after.drop_last());
        assert(all.last() == after.last());
        assert((before + after).last() == after.last());
    }
}

} // verus!
