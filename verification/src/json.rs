//! JSON values.

use vstd::prelude::*;

use crate::text;

verus! {

/// A JSON number.
#[derive(Clone, Copy, Debug, PartialEq, Eq, Structural)]
pub enum Number {
    /// An integer of at least zero.
    Positive(u64),
    /// An integer below zero.
    Negative(i64),
    /// Any other number, as the bits of an IEEE 754 binary64 number.
    Float(u64),
}

/// A JSON value. An object lists its fields in order.
#[derive(Debug, PartialEq, Eq)]
pub enum Json {
    /// `null`.
    Null,
    /// `true` or `false`.
    Bool(bool),
    /// A number.
    Number(Number),
    /// A string.
    Text(String),
    /// An array.
    List(Vec<Json>),
    /// An object.
    Object(Vec<(String, Json)>),
}

/// A JSON value over mathematical sequences.
pub ghost enum JsonView {
    /// See [`Json::Null`].
    Null,
    /// See [`Json::Bool`].
    Bool(bool),
    /// See [`Json::Number`].
    Number(Number),
    /// See [`Json::Text`].
    Text(Seq<char>),
    /// See [`Json::List`].
    List(Seq<JsonView>),
    /// See [`Json::Object`].
    Object(Seq<(Seq<char>, JsonView)>),
}

/// The view of a value.
pub open spec fn value_view(value: Json) -> JsonView
    decreases value,
{
    match value {
        Json::Null => JsonView::Null,
        Json::Bool(flag) => JsonView::Bool(flag),
        Json::Number(number) => JsonView::Number(number),
        Json::Text(string) => JsonView::Text(string@),
        Json::List(items) => JsonView::List(list_view(items@)),
        Json::Object(fields) => JsonView::Object(fields_view(fields@)),
    }
}

/// The views of the values of an array.
pub open spec fn list_view(items: Seq<Json>) -> Seq<JsonView>
    decreases items,
{
    if items.len() == 0 {
        Seq::empty()
    } else {
        list_view(items.drop_last()).push(value_view(items[items.len() - 1]))
    }
}

/// The views of the fields of an object.
pub open spec fn fields_view(fields: Seq<(String, Json)>) -> Seq<(Seq<char>, JsonView)>
    decreases fields,
{
    if fields.len() == 0 {
        Seq::empty()
    } else {
        fields_view(fields.drop_last()).push(
            (fields[fields.len() - 1].0@, value_view(fields[fields.len() - 1].1)),
        )
    }
}

impl View for Json {
    type V = JsonView;

    open spec fn view(&self) -> JsonView {
        value_view(*self)
    }
}

/// A number that is at least zero.
pub open spec fn number_view(value: nat) -> JsonView {
    JsonView::Number(Number::Positive(value as u64))
}

/// A color as an array of its channels.
pub open spec fn rgb_view(rgb: [u8; 3]) -> JsonView {
    JsonView::List(
        seq![
            number_view(rgb[0] as nat),
            number_view(rgb[1] as nat),
            number_view(rgb[2] as nat),
        ],
    )
}

/// An array of strings.
pub open spec fn texts_view(list: Seq<Seq<char>>) -> JsonView {
    JsonView::List(Seq::new(list.len(), |i: int| JsonView::Text(list[i])))
}

/// The value of the first field called `name` among the fields of an object.
pub open spec fn field_of(fields: Seq<(Seq<char>, JsonView)>, name: Seq<char>) -> Option<JsonView>
    decreases fields.len(),
{
    if fields.len() == 0 {
        None
    } else if fields[0].0 == name {
        Some(fields[0].1)
    } else {
        field_of(fields.skip(1), name)
    }
}

/// The field called `name` of a value; only an object has any.
pub open spec fn field(value: JsonView, name: Seq<char>) -> Option<JsonView> {
    match value {
        JsonView::Object(fields) => field_of(fields, name),
        _ => None,
    }
}

/// The integer of at least zero that a value is.
pub open spec fn natural(value: JsonView) -> Option<u64> {
    match value {
        JsonView::Number(Number::Positive(number)) => Some(number),
        _ => None,
    }
}

/// The view of an array, position by position.
pub proof fn lemma_list_view(items: Seq<Json>)
    ensures
        list_view(items).len() == items.len(),
        forall|i: int| 0 <= i < items.len() ==> #[trigger] list_view(items)[i] == items[i]@,
    decreases items.len(),
{
    if items.len() > 0 {
        lemma_list_view(items.drop_last());
        assert forall|i: int| 0 <= i < items.len() implies #[trigger] list_view(items)[i]
            == items[i]@ by {
            if i < items.len() - 1 {
                assert(list_view(items)[i] == list_view(items.drop_last())[i]);
            }
        }
    }
}

/// The view of an object, field by field.
pub proof fn lemma_fields_view(fields: Seq<(String, Json)>)
    ensures
        fields_view(fields).len() == fields.len(),
        forall|i: int|
            0 <= i < fields.len() ==> #[trigger] fields_view(fields)[i] == (
                fields[i].0@,
                fields[i].1@,
            ),
    decreases fields.len(),
{
    if fields.len() > 0 {
        lemma_fields_view(fields.drop_last());
        assert forall|i: int| 0 <= i < fields.len() implies #[trigger] fields_view(fields)[i] == (
            fields[i].0@,
            fields[i].1@,
        ) by {
            if i < fields.len() - 1 {
                assert(fields_view(fields)[i] == fields_view(fields.drop_last())[i]);
            }
        }
    }
}

fn copy_list(items: &Vec<Json>, upto: usize) -> (result: Vec<Json>)
    requires
        upto <= items@.len(),
    ensures
        list_view(result@) == list_view(items@.take(upto as int)),
        result@.len() == upto,
    decreases items@, upto,
{
    if upto == 0 {
        let result: Vec<Json> = Vec::new();
        result
    } else {
        let mut result = copy_list(items, upto - 1);
        let ghost before = result@;
        let item = &items[upto - 1];
        assert(decreases_to!(items@ => items@[upto - 1]));
        let value = item.copy();
        result.push(value);
        proof {
            assert(result@.drop_last() =~= before);
            assert(items@.take(upto as int).drop_last() =~= items@.take(upto - 1));
        }
        result
    }
}

fn copy_fields(fields: &Vec<(String, Json)>, upto: usize) -> (result: Vec<(String, Json)>)
    requires
        upto <= fields@.len(),
    ensures
        fields_view(result@) == fields_view(fields@.take(upto as int)),
        result@.len() == upto,
    decreases fields@, upto,
{
    if upto == 0 {
        let result: Vec<(String, Json)> = Vec::new();
        result
    } else {
        let mut result = copy_fields(fields, upto - 1);
        let ghost before = result@;
        let field = &fields[upto - 1];
        assert(decreases_to!(fields@ => fields@[upto - 1]));
        let value = field.1.copy();
        result.push((field.0.clone(), value));
        proof {
            assert(result@.drop_last() =~= before);
            assert(fields@.take(upto as int).drop_last() =~= fields@.take(upto - 1));
        }
        result
    }
}

impl Json {
    /// The same value again.
    pub fn copy(&self) -> (result: Json)
        ensures
            result@ == self@,
        decreases *self, 0int,
    {
        match self {
            Json::Null => Json::Null,
            Json::Bool(flag) => Json::Bool(*flag),
            Json::Number(number) => Json::Number(*number),
            Json::Text(string) => Json::Text(string.clone()),
            Json::List(items) => {
                assert(decreases_to!(*self => *items));
                assert(decreases_to!(*items => items@));
                assert(items@.take(items@.len() as int) =~= items@);
                Json::List(copy_list(items, items.len()))
            },
            Json::Object(fields) => {
                assert(decreases_to!(*self => *fields));
                assert(decreases_to!(*fields => fields@));
                assert(fields@.take(fields@.len() as int) =~= fields@);
                Json::Object(copy_fields(fields, fields.len()))
            },
        }
    }

    /// A number of at least zero.
    pub fn number(value: u64) -> (result: Json)
        ensures
            result@ == number_view(value as nat),
    {
        Json::Number(Number::Positive(value))
    }

    /// A string.
    pub fn string(value: &str) -> (result: Json)
        ensures
            result@ == JsonView::Text(value@),
    {
        Json::Text(value.to_owned())
    }

    /// A color as an array of its channels.
    pub fn rgb(rgb: [u8; 3]) -> (result: Json)
        ensures
            result@ == rgb_view(rgb),
    {
        let mut items: Vec<Json> = Vec::new();
        items.push(Json::number(rgb[0] as u64));
        items.push(Json::number(rgb[1] as u64));
        items.push(Json::number(rgb[2] as u64));
        proof {
            lemma_list_view(items@);
            assert(list_view(items@) =~= seq![
                number_view(rgb[0] as nat),
                number_view(rgb[1] as nat),
                number_view(rgb[2] as nat),
            ]);
        }
        Json::List(items)
    }

    /// An array of strings.
    pub fn strings(list: &Vec<String>) -> (result: Json)
        ensures
            result@ == texts_view(text::texts(list@)),
    {
        let mut items: Vec<Json> = Vec::new();
        let mut at: usize = 0;
        while at < list.len()
            invariant
                at <= list@.len(),
                items@.len() == at,
                forall|i: int|
                    0 <= i < at ==> (#[trigger] items@[i])@ == JsonView::Text(list@[i]@),
            decreases list@.len() - at,
        {
            items.push(Json::string(list[at].as_str()));
            at += 1;
        }
        proof {
            lemma_list_view(items@);
            assert(list_view(items@) =~= Seq::new(
                text::texts(list@).len(),
                |i: int| JsonView::Text(text::texts(list@)[i]),
            ));
        }
        Json::List(items)
    }

    /// The field called `name`; only an object has any.
    pub fn get(&self, name: &str) -> (result: Option<&Json>)
        ensures
            match result {
                Some(value) => field(self@, name@) == Some(value@),
                None => field(self@, name@) is None,
            },
    {
        match self {
            Json::Object(fields) => {
                proof {
                    lemma_fields_view(fields@);
                }
                let mut at: usize = 0;
                let ghost all = fields_view(fields@);
                assert(all.skip(0) =~= all);
                while at < fields.len()
                    invariant
                        at <= fields@.len(),
                        all == fields_view(fields@),
                        self@ == JsonView::Object(all),
                        all.len() == fields@.len(),
                        forall|i: int|
                            0 <= i < fields@.len() ==> #[trigger] all[i] == (
                                fields@[i].0@,
                                fields@[i].1@,
                            ),
                        field(self@, name@) == field_of(all.skip(at as int), name@),
                    decreases fields@.len() - at,
                {
                    assert(all.skip(at as int)[0] == all[at as int]);
                    if text::same(fields[at].0.as_str(), name) {
                        return Some(&fields[at].1);
                    }
                    assert(all.skip(at as int).skip(1) =~= all.skip(at + 1));
                    at += 1;
                }
                None
            },
            _ => None,
        }
    }

    /// The integer of at least zero that this value is.
    pub fn as_u64(&self) -> (result: Option<u64>)
        ensures
            result == natural(self@),
    {
        match self {
            Json::Number(Number::Positive(number)) => Some(*number),
            _ => None,
        }
    }
}

/// Builds an object of one field.
pub fn object1(name: &str, value: Json) -> (result: Json)
    ensures
        result@ == JsonView::Object(seq![(name@, value@)]),
{
    let mut fields: Vec<(String, Json)> = Vec::new();
    fields.push((name.to_owned(), value));
    proof {
        lemma_fields_view(fields@);
        assert(fields_view(fields@) =~= seq![(name@, value@)]);
    }
    Json::Object(fields)
}

/// An object with two fields.
pub fn object2(first: &str, one: Json, second: &str, two: Json) -> (result: Json)
    ensures
        result@ == JsonView::Object(seq![(first@, one@), (second@, two@)]),
{
    let mut fields: Vec<(String, Json)> = Vec::new();
    push_field(&mut fields, first, one);
    push_field(&mut fields, second, two);
    assert(fields_view(fields@) =~= seq![(first@, one@), (second@, two@)]);
    Json::Object(fields)
}

/// An object with three fields.
pub fn object3(first: &str, one: Json, second: &str, two: Json, third: &str, three: Json) -> (result:
    Json)
    ensures
        result@ == JsonView::Object(seq![(first@, one@), (second@, two@), (third@, three@)]),
{
    let mut fields: Vec<(String, Json)> = Vec::new();
    push_field(&mut fields, first, one);
    push_field(&mut fields, second, two);
    push_field(&mut fields, third, three);
    assert(fields_view(fields@) =~= seq![(first@, one@), (second@, two@), (third@, three@)]);
    Json::Object(fields)
}

/// Adds a field at the end of a list of fields.
pub fn push_field(fields: &mut Vec<(String, Json)>, name: &str, value: Json)
    ensures
        fields_view(final(fields)@) == fields_view(old(fields)@).push((name@, value@)),
{
    let ghost before = fields@;
    fields.push((name.to_owned(), value));
    assert(fields@.drop_last() =~= before);
}

/// A field of an object is the first of its name, and an object has no field of a name that none of
/// its fields has.
pub proof fn law_fields_are_found_by_name(
    fields: Seq<(Seq<char>, JsonView)>,
    name: Seq<char>,
    at: int,
)
    requires
        0 <= at <= fields.len(),
        forall|i: int| 0 <= i < at ==> (#[trigger] fields[i]).0 != name,
        at < fields.len() ==> fields[at].0 == name,
    ensures
        at < fields.len() ==> field(JsonView::Object(fields), name) == Some(fields[at].1),
        at == fields.len() ==> field(JsonView::Object(fields), name) is None,
    decreases at,
{
    if at > 0 {
        let rest = fields.skip(1);
        assert forall|i: int| 0 <= i < at - 1 implies (#[trigger] rest[i]).0 != name by {
            assert(rest[i] == fields[i + 1]);
        }
        law_fields_are_found_by_name(rest, name, at - 1);
    }
}

/// A color is the list of its red, its green, and its blue, and a list of texts has each of them in
/// its place.
pub proof fn law_lists_keep_their_order(rgb: [u8; 3], list: Seq<Seq<char>>, at: int)
    ensures
        rgb_view(rgb) matches JsonView::List(parts) && parts.len() == 3 && parts[0]
            == JsonView::Number(Number::Positive(rgb[0] as u64)) && parts[1] == JsonView::Number(
            Number::Positive(rgb[1] as u64),
        ) && parts[2] == JsonView::Number(Number::Positive(rgb[2] as u64)),
        texts_view(list) matches JsonView::List(parts) && parts.len() == list.len() && (0 <= at
            < list.len() ==> parts[at] == JsonView::Text(list[at])),
{
}

} // verus!
