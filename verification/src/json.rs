//! JSON values, and the mathematical values that they stand for.
use crate::text;
use vstd::prelude::*;

verus! {

/// A JSON number, kept apart by how it is written.
#[derive(Debug, PartialEq, Eq)]
pub enum Number {
    /// An integer from zero up.
    Unsigned(u64),
    /// An integer below zero.
    Negative(i64),
    /// Any other number, as it is printed.
    Decimal(String),
}

/// A JSON value. Where an object names a key twice, the later entry counts.
#[derive(Debug, PartialEq, Eq)]
pub enum Json {
    Null,
    Bool(bool),
    Number(Number),
    String(String),
    Array(Vec<Json>),
    Object(Vec<(String, Json)>),
}

/// What a [`Number`] stands for.
pub enum NumberModel {
    Unsigned(u64),
    Negative(i64),
    Decimal(Seq<char>),
}

/// What a [`Json`] stands for: an object is a map from its keys, whatever the
/// order in which it lists them.
pub enum JsonModel {
    Null,
    Bool(bool),
    Number(NumberModel),
    Str(Seq<char>),
    Array(Seq<JsonModel>),
    Object(Map<Seq<char>, JsonModel>),
}

impl NumberModel {
    /// The number as it is printed.
    pub open spec fn printed(self) -> Seq<char> {
        match self {
            NumberModel::Unsigned(n) => text::decimal(n as nat),
            NumberModel::Negative(n) => text::signed_decimal(n as int),
            NumberModel::Decimal(t) => t,
        }
    }
}

impl JsonModel {
    /// The value under `key`, where this is an object that has the key.
    pub open spec fn at(self, key: Seq<char>) -> Option<JsonModel> {
        match self {
            JsonModel::Object(fields) => if fields.contains_key(key) {
                Some(fields[key])
            } else {
                None
            },
            _ => None,
        }
    }

    /// The string under `key`, where there is one.
    pub open spec fn string_at(self, key: Seq<char>) -> Option<Seq<char>> {
        match self.at(key) {
            Some(JsonModel::Str(s)) => Some(s),
            _ => None,
        }
    }

    /// The integer from zero up under `key`, where there is one.
    pub open spec fn unsigned_at(self, key: Seq<char>) -> Option<u64> {
        match self.at(key) {
            Some(JsonModel::Number(NumberModel::Unsigned(n))) => Some(n),
            _ => None,
        }
    }
}

impl Number {
    pub open spec fn model(self) -> NumberModel {
        match self {
            Number::Unsigned(n) => NumberModel::Unsigned(n),
            Number::Negative(n) => NumberModel::Negative(n),
            Number::Decimal(t) => NumberModel::Decimal(t@),
        }
    }

    /// The number as it is printed.
    pub fn printed(&self) -> (res: String)
        ensures
            res@ == self.model().printed(),
    {
        match self {
            Number::Unsigned(n) => text::decimal_text(*n as u128),
            Number::Negative(n) => text::signed_decimal_text(*n),
            Number::Decimal(t) => t.clone(),
        }
    }
}

impl Json {
    pub open spec fn model(self) -> JsonModel
        decreases self,
    {
        match self {
            Json::Null => JsonModel::Null,
            Json::Bool(b) => JsonModel::Bool(b),
            Json::Number(n) => JsonModel::Number(n.model()),
            Json::String(s) => JsonModel::Str(s@),
            Json::Array(items) => JsonModel::Array(items_model(items@)),
            Json::Object(fields) => JsonModel::Object(fields_model(fields@)),
        }
    }

    /// A JSON string.
    pub fn text(s: &str) -> (res: Json)
        ensures
            res.model() == JsonModel::Str(s@),
    {
        Json::String(s.to_owned())
    }

    /// A JSON string, or null.
    pub fn optional_text(s: Option<&str>) -> (res: Json)
        ensures
            res.model() == match s {
                Some(t) => JsonModel::Str(t@),
                None => JsonModel::Null,
            },
    {
        match s {
            Some(t) => Json::text(t),
            None => Json::Null,
        }
    }

    /// A JSON integer.
    pub fn unsigned(n: u64) -> (res: Json)
        ensures
            res.model() == JsonModel::Number(NumberModel::Unsigned(n)),
    {
        Json::Number(Number::Unsigned(n))
    }

    /// The value under `key`, where this is an object that has the key.
    pub fn get(&self, key: &str) -> (res: Option<&Json>)
        ensures
            match res {
                Some(value) => self.model().at(key@) == Some(value.model()),
                None => self.model().at(key@) is None,
            },
    {
        match self {
            Json::Object(fields) => {
                let mut i: usize = fields.len();
                assert(fields@.take(fields@.len() as int) =~= fields@);
                while i > 0
                    invariant
                        i <= fields.len(),
                        self.model() == JsonModel::Object(fields_model(fields@)),
                        fields_model(fields@).contains_key(key@) == fields_model(
                            fields@.take(i as int),
                        ).contains_key(key@),
                        fields_model(fields@).contains_key(key@) ==> fields_model(fields@)[key@]
                            == fields_model(fields@.take(i as int))[key@],
                    decreases i,
                {
                    assert(fields@.take(i as int).drop_last() =~= fields@.take(i - 1));
                    if text::same(fields[i - 1].0.as_str(), key) {
                        return Some(&fields[i - 1].1);
                    }
                    i -= 1;
                }
                None
            },
            _ => None,
        }
    }

    /// The text of a JSON string.
    pub fn as_str(&self) -> (res: Option<&str>)
        ensures
            match res {
                Some(s) => self.model() == JsonModel::Str(s@),
                None => !(self.model() is Str),
            },
    {
        match self {
            Json::String(s) => Some(s.as_str()),
            _ => None,
        }
    }

    /// The value of a JSON integer from zero up.
    pub fn as_u64(&self) -> (res: Option<u64>)
        ensures
            match res {
                Some(n) => self.model() == JsonModel::Number(NumberModel::Unsigned(n)),
                None => !(self.model() matches JsonModel::Number(NumberModel::Unsigned(n))),
            },
    {
        match self {
            Json::Number(Number::Unsigned(n)) => Some(*n),
            _ => None,
        }
    }

    /// The string under `key`, where there is one.
    pub fn str_at(&self, key: &str) -> (res: Option<&str>)
        ensures
            match res {
                Some(s) => self.model().string_at(key@) == Some(s@),
                None => self.model().string_at(key@) is None,
            },
    {
        match self.get(key) {
            Some(value) => value.as_str(),
            None => None,
        }
    }
}

impl Clone for Number {
    fn clone(&self) -> (res: Number)
        ensures
            res == *self,
    {
        match self {
            Number::Unsigned(n) => Number::Unsigned(*n),
            Number::Negative(n) => Number::Negative(*n),
            Number::Decimal(t) => Number::Decimal(t.clone()),
        }
    }
}

impl Clone for Json {
    fn clone(&self) -> (res: Json)
        ensures
            res.model() == self.model(),
        decreases self,
    {
        match self {
            Json::Null => Json::Null,
            Json::Bool(b) => Json::Bool(*b),
            Json::Number(n) => Json::Number(n.clone()),
            Json::String(s) => Json::String(s.clone()),
            Json::Array(items) => {
                let mut copies: Vec<Json> = Vec::new();
                let mut i: usize = 0;
                while i < items.len()
                    invariant
                        i <= items.len(),
                        *self == Json::Array(*items),
                        items_model(copies@) == items_model(items@.take(i as int)),
                    decreases items.len() - i,
                {
                    proof {
                        assert(decreases_to!(*self => self->Array_0));
                        assert(decreases_to!(*items => items@));
                        assert(decreases_to!(items@ => items@[i as int]));
                    }
                    let copy = items[i].clone();
                    proof {
                        assert(items@.take(i + 1).drop_last() =~= items@.take(i as int));
                        assert(copies@.push(copy).drop_last() =~= copies@);
                    }
                    copies.push(copy);
                    i += 1;
                }
                assert(items@.take(items@.len() as int) =~= items@);
                Json::Array(copies)
            },
            Json::Object(fields) => {
                let mut copies: Vec<(String, Json)> = Vec::new();
                let mut i: usize = 0;
                while i < fields.len()
                    invariant
                        i <= fields.len(),
                        *self == Json::Object(*fields),
                        fields_model(copies@) == fields_model(fields@.take(i as int)),
                    decreases fields.len() - i,
                {
                    proof {
                        assert(decreases_to!(*self => self->Object_0));
                        assert(decreases_to!(*fields => fields@));
                        assert(decreases_to!(fields@ => fields@[i as int]));
                        assert(decreases_to!(fields@[i as int] => fields@[i as int].1));
                    }
                    let copy = fields[i].1.clone();
                    assert(fields@.take(i + 1).drop_last() =~= fields@.take(i as int));
                    put(&mut copies, fields[i].0.as_str(), copy);
                    i += 1;
                }
                assert(fields@.take(fields@.len() as int) =~= fields@);
                Json::Object(copies)
            },
        }
    }
}

/// What the items of an array stand for.
pub open spec fn items_model(items: Seq<Json>) -> Seq<JsonModel>
    decreases items,
{
    if items.len() == 0 {
        Seq::empty()
    } else {
        items_model(items.drop_last()).push(items.last().model())
    }
}

/// What the fields of an object stand for.
pub open spec fn fields_model(fields: Seq<(String, Json)>) -> Map<Seq<char>, JsonModel>
    decreases fields,
{
    if fields.len() == 0 {
        Map::empty()
    } else {
        fields_model(fields.drop_last()).insert(fields.last().0@, fields.last().1.model())
    }
}

/// Item by item, [`items_model`] is what the item stands for.
pub proof fn lemma_items_model(items: Seq<Json>)
    ensures
        items_model(items).len() == items.len(),
        forall|i: int| 0 <= i < items.len() ==> #[trigger] items_model(items)[i] == items[i].model(),
    decreases items.len(),
{
    if items.len() > 0 {
        lemma_items_model(items.drop_last());
    }
}

/// Adds a field to an object under construction.
pub(crate) fn put(fields: &mut Vec<(String, Json)>, key: &str, value: Json)
    ensures
        fields_model(final(fields)@) == fields_model(old(fields)@).insert(key@, value.model()),
{
    fields.push((key.to_owned(), value));
    assert(fields@.drop_last() =~= old(fields)@);
}

/// An array of one item.
pub(crate) fn array_of_one(item: Json) -> (res: Json)
    ensures
        res.model() == JsonModel::Array(seq![item.model()]),
{
    let mut items: Vec<Json> = Vec::new();
    items.push(item);
    proof {
        lemma_items_model(items@);
        assert(items_model(items@) =~= seq![item.model()]);
    }
    Json::Array(items)
}

} // verus!
