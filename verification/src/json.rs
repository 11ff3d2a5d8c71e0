//! JSON values as plain data, with a mathematical model of each.
use crate::text::same;
use vstd::prelude::*;
use vstd::string::*;

verus! {

/// A JSON value.
///
/// The fields of an object keep the order in which they were written. A number
/// without a fraction or an exponent is held by its value, any other number as
/// its text.
#[derive(Debug, PartialEq)]
pub enum Json {
    Null,
    Bool(bool),
    Number(i128),
    Float(String),
    Text(String),
    List(Vec<Json>),
    Object(Vec<(String, Json)>),
}

/// The model of a JSON value.
pub enum JsonModel {
    Null,
    Bool(bool),
    Number(int),
    Float(Seq<char>),
    Text(Seq<char>),
    List(Seq<JsonModel>),
    Object(Seq<(Seq<char>, JsonModel)>),
}

impl View for Json {
    type V = JsonModel;

    open spec fn view(&self) -> JsonModel
        decreases self,
    {
        match self {
            Json::Null => JsonModel::Null,
            Json::Bool(b) => JsonModel::Bool(*b),
            Json::Number(n) => JsonModel::Number(*n as int),
            Json::Float(t) => JsonModel::Float(t@),
            Json::Text(t) => JsonModel::Text(t@),
            Json::List(items) => JsonModel::List(
                Seq::new(
                    items@.len(),
                    |i: int|
                        if 0 <= i < items@.len() {
                            items@[i].view()
                        } else {
                            JsonModel::Null
                        },
                ),
            ),
            Json::Object(fields) => JsonModel::Object(
                Seq::new(
                    fields@.len(),
                    |i: int|
                        (
                            fields@[i].0@,
                            if 0 <= i < fields@.len() {
                                fields@[i].1.view()
                            } else {
                                JsonModel::Null
                            },
                        ),
                ),
            ),
        }
    }
}


/// The models of the items of a list.
pub open spec fn item_models(items: Seq<Json>) -> Seq<JsonModel> {
    Seq::new(items.len(), |i: int| items[i]@)
}

/// The models of the fields of an object.
pub open spec fn field_models(fields: Seq<(String, Json)>) -> Seq<(Seq<char>, JsonModel)> {
    Seq::new(fields.len(), |i: int| (fields[i].0@, fields[i].1@))
}

/// The model of an optional value.
pub open spec fn opt_json(o: Option<Json>) -> Option<JsonModel> {
    match o {
        Some(v) => Some(v@),
        None => None,
    }
}

/// The model of an optional reference to a value.
pub open spec fn opt_json_ref(o: Option<&Json>) -> Option<JsonModel> {
    match o {
        Some(v) => Some(v@),
        None => None,
    }
}

proof fn list_view(items: Vec<Json>)
    ensures
        Json::List(items)@ == JsonModel::List(item_models(items@)),
{
    assert(Json::List(items)@->List_0 =~= item_models(items@));
}

proof fn object_view(fields: Vec<(String, Json)>)
    ensures
        Json::Object(fields)@ == JsonModel::Object(field_models(fields@)),
{
    let a = Json::Object(fields)@->Object_0;
    let b = field_models(fields@);
    assert forall|i: int| 0 <= i < a.len() implies a[i] == b[i] by {
        assert(a[i].0 == fields@[i].0@);
        assert(a[i].1 == fields@[i].1@);
    }
    assert(a =~= b);
}

// ─── Reading ────────────────────────────────────────────────────────────────

/// The value of the first of `fields` with the name `key`.
pub open spec fn lookup(fields: Seq<(Seq<char>, JsonModel)>, key: Seq<char>) -> Option<JsonModel>
    decreases fields.len(),
{
    if fields.len() == 0 {
        None
    } else if fields[0].0 == key {
        Some(fields[0].1)
    } else {
        lookup(fields.skip(1), key)
    }
}

impl JsonModel {
    /// The value of the field `key`, where this is an object that has it.
    pub open spec fn get(self, key: Seq<char>) -> Option<JsonModel> {
        match self {
            JsonModel::Object(fields) => lookup(fields, key),
            _ => None,
        }
    }

    /// The value of the field `key`, or null.
    pub open spec fn at(self, key: Seq<char>) -> JsonModel {
        match self.get(key) {
            Some(v) => v,
            None => JsonModel::Null,
        }
    }

    /// The text, where this is one.
    pub open spec fn as_text(self) -> Option<Seq<char>> {
        match self {
            JsonModel::Text(t) => Some(t),
            _ => None,
        }
    }

    /// The truth value, where this is one.
    pub open spec fn as_bool(self) -> Option<bool> {
        match self {
            JsonModel::Bool(b) => Some(b),
            _ => None,
        }
    }

    /// The number, where this is an integer that an `i64` holds.
    pub open spec fn as_i64(self) -> Option<int> {
        match self {
            JsonModel::Number(n) => if i64::MIN <= n <= i64::MAX {
                Some(n)
            } else {
                None
            },
            _ => None,
        }
    }

    /// The number, where this is an integer that a `u64` holds.
    pub open spec fn as_u64(self) -> Option<int> {
        match self {
            JsonModel::Number(n) => if 0 <= n <= u64::MAX {
                Some(n)
            } else {
                None
            },
            _ => None,
        }
    }

    /// The items, where this is a list.
    pub open spec fn as_list(self) -> Option<Seq<JsonModel>> {
        match self {
            JsonModel::List(items) => Some(items),
            _ => None,
        }
    }

    /// The text of the field `key`, where there is one.
    pub open spec fn text_field(self, key: Seq<char>) -> Option<Seq<char>> {
        match self.get(key) {
            Some(v) => v.as_text(),
            None => None,
        }
    }

    /// The truth value of the field `key`, where there is one.
    pub open spec fn bool_field(self, key: Seq<char>) -> Option<bool> {
        match self.get(key) {
            Some(v) => v.as_bool(),
            None => None,
        }
    }

    /// The integer of the field `key`, where an `i64` holds it.
    pub open spec fn i64_field(self, key: Seq<char>) -> Option<int> {
        match self.get(key) {
            Some(v) => v.as_i64(),
            None => None,
        }
    }

    /// The integer of the field `key`, where a `u64` holds it.
    pub open spec fn u64_field(self, key: Seq<char>) -> Option<int> {
        match self.get(key) {
            Some(v) => v.as_u64(),
            None => None,
        }
    }

    /// The items of the field `key`, where it is a list.
    pub open spec fn list_field(self, key: Seq<char>) -> Option<Seq<JsonModel>> {
        match self.get(key) {
            Some(v) => v.as_list(),
            None => None,
        }
    }
}

/// The texts among `items`, in order.
pub open spec fn texts_among(items: Seq<JsonModel>) -> Seq<Seq<char>>
    decreases items.len(),
{
    if items.len() == 0 {
        Seq::empty()
    } else {
        let head = texts_among(items.drop_last());
        match items.last().as_text() {
            Some(t) => head.push(t),
            None => head,
        }
    }
}

impl Json {
    /// The value of the field `key`, where this is an object that has it.
    pub fn get<'a>(&'a self, key: &str) -> (r: Option<&'a Json>)
        ensures
            opt_json_ref(r) == self@.get(key@),
    {
        match self {
            Json::Object(fields) => {
                proof {
                    object_view(*fields);
                }
                let ghost all = field_models(fields@);
                let mut i: usize = 0;
                assert(all.skip(0) =~= all);
                while i < fields.len()
                    invariant
                        i <= fields@.len(),
                        all == field_models(fields@),
                        self@ == JsonModel::Object(all),
                        lookup(all.skip(i as int), key@) == lookup(all, key@),
                    decreases fields@.len() - i,
                {
                    assert(all.skip(i as int)[0] == all[i as int]);
                    if same(&fields[i].0, key) {
                        return Some(&fields[i].1);
                    }
                    assert(all.skip(i as int).skip(1) =~= all.skip(i + 1));
                    i += 1;
                }
                assert(all.skip(i as int).len() == 0);
                None
            },
            _ => None,
        }
    }

    /// The text, where this is one.
    pub fn as_str<'a>(&'a self) -> (r: Option<&'a str>)
        ensures
            crate::text::opt_str(r) == self@.as_text(),
    {
        match self {
            Json::Text(t) => Some(t.as_str()),
            _ => None,
        }
    }

    /// The truth value, where this is one.
    pub fn as_bool(&self) -> (r: Option<bool>)
        ensures
            r == self@.as_bool(),
    {
        match self {
            Json::Bool(b) => Some(*b),
            _ => None,
        }
    }

    /// The number, where this is an integer that an `i64` holds.
    pub fn as_i64(&self) -> (r: Option<i64>)
        ensures
            match r {
                Some(n) => self@.as_i64() == Some(n as int),
                None => self@.as_i64() is None,
            },
    {
        match self {
            Json::Number(n) => {
                if *n >= i64::MIN as i128 && *n <= i64::MAX as i128 {
                    Some(*n as i64)
                } else {
                    None
                }
            },
            _ => None,
        }
    }

    /// The number, where this is an integer that a `u64` holds.
    pub fn as_u64(&self) -> (r: Option<u64>)
        ensures
            match r {
                Some(n) => self@.as_u64() == Some(n as int),
                None => self@.as_u64() is None,
            },
    {
        match self {
            Json::Number(n) => {
                if *n >= 0 && *n <= u64::MAX as i128 {
                    Some(*n as u64)
                } else {
                    None
                }
            },
            _ => None,
        }
    }

    /// The items, where this is a list.
    pub fn as_array<'a>(&'a self) -> (r: Option<&'a Vec<Json>>)
        ensures
            match r {
                Some(v) => self@.as_list() == Some(item_models(v@)),
                None => self@.as_list() is None,
            },
    {
        match self {
            Json::List(items) => {
                proof {
                    list_view(*items);
                }
                Some(items)
            },
            _ => None,
        }
    }

    /// The fields, where this is an object.
    pub fn as_object<'a>(&'a self) -> (r: Option<&'a Vec<(String, Json)>>)
        ensures
            match r {
                Some(v) => self@ == JsonModel::Object(field_models(v@)),
                None => !(self@ is Object),
            },
    {
        match self {
            Json::Object(fields) => {
                proof {
                    object_view(*fields);
                }
                Some(fields)
            },
            _ => None,
        }
    }

    /// The text of the field `key`, where there is one.
    pub fn text_field<'a>(&'a self, key: &str) -> (r: Option<&'a str>)
        ensures
            crate::text::opt_str(r) == self@.text_field(key@),
    {
        match self.get(key) {
            Some(v) => v.as_str(),
            None => None,
        }
    }

    /// The truth value of the field `key`, where there is one.
    pub fn bool_field(&self, key: &str) -> (r: Option<bool>)
        ensures
            r == self@.bool_field(key@),
    {
        match self.get(key) {
            Some(v) => v.as_bool(),
            None => None,
        }
    }

    /// The integer of the field `key`, where an `i64` holds it.
    pub fn i64_field(&self, key: &str) -> (r: Option<i64>)
        ensures
            match r {
                Some(n) => self@.i64_field(key@) == Some(n as int),
                None => self@.i64_field(key@) is None,
            },
    {
        match self.get(key) {
            Some(v) => v.as_i64(),
            None => None,
        }
    }

    /// The integer of the field `key`, where a `u64` holds it.
    pub fn u64_field(&self, key: &str) -> (r: Option<u64>)
        ensures
            match r {
                Some(n) => self@.u64_field(key@) == Some(n as int),
                None => self@.u64_field(key@) is None,
            },
    {
        match self.get(key) {
            Some(v) => v.as_u64(),
            None => None,
        }
    }

    /// The items of the field `key`, where it is a list.
    pub fn list_field<'a>(&'a self, key: &str) -> (r: Option<&'a Vec<Json>>)
        ensures
            match r {
                Some(v) => self@.list_field(key@) == Some(item_models(v@)),
                None => self@.list_field(key@) is None,
            },
    {
        match self.get(key) {
            Some(v) => v.as_array(),
            None => None,
        }
    }

    /// The texts among the items of the field `key`, where it is a list.
    pub fn text_list_field(&self, key: &str) -> (r: Option<Vec<String>>)
        ensures
            match r {
                Some(v) => self@.list_field(key@) is Some && crate::text::texts(v@) == texts_among(
                    self@.list_field(key@)->0,
                ),
                None => self@.list_field(key@) is None,
            },
    {
        match self.list_field(key) {
            Some(items) => Some(collect_texts(items)),
            None => None,
        }
    }

    /// A copy of this value.
    pub fn copy(&self) -> (r: Json)
        ensures
            r@ == self@,
        decreases self,
    {
        match self {
            Json::Null => Json::Null,
            Json::Bool(b) => Json::Bool(*b),
            Json::Number(n) => Json::Number(*n),
            Json::Float(t) => Json::Float(t.clone()),
            Json::Text(t) => Json::Text(t.clone()),
            Json::List(items) => {
                let mut out: Vec<Json> = Vec::new();
                let mut i: usize = 0;
                while i < items.len()
                    invariant
                        self matches Json::List(v) && v == items,
                        i <= items@.len(),
                        out@.len() == i,
                        forall|j: int| 0 <= j < i ==> (#[trigger] out@[j])@ == items@[j]@,
                    decreases items@.len() - i,
                {
                    out.push(items[i].copy());
                    i += 1;
                }
                proof {
                    list_view(*items);
                    list_view(out);
                    assert(item_models(out@) =~= item_models(items@));
                }
                Json::List(out)
            },
            Json::Object(fields) => {
                let mut out: Vec<(String, Json)> = Vec::new();
                let mut i: usize = 0;
                while i < fields.len()
                    invariant
                        self matches Json::Object(v) && v == fields,
                        i <= fields@.len(),
                        out@.len() == i,
                        forall|j: int|
                            0 <= j < i ==> (#[trigger] out@[j]).0@ == fields@[j].0@ && out@[j].1@
                                == fields@[j].1@,
                    decreases fields@.len() - i,
                {
                    let name = fields[i].0.clone();
                    let value = fields[i].1.copy();
                    out.push((name, value));
                    i += 1;
                }
                proof {
                    object_view(*fields);
                    object_view(out);
                    assert(field_models(out@) =~= field_models(fields@));
                }
                Json::Object(out)
            },
        }
    }

    /// A text value.
    pub fn text(s: &str) -> (r: Json)
        ensures
            r@ == JsonModel::Text(s@),
    {
        Json::Text(String::from_str(s))
    }

    /// An integer value.
    pub fn uint(n: u64) -> (r: Json)
        ensures
            r@ == JsonModel::Number(n as int),
    {
        Json::Number(n as i128)
    }

    /// A text value, or null where there is no text.
    pub fn opt_text(o: &Option<String>) -> (r: Json)
        ensures
            r@ == opt_text_model(crate::text::opt_text(*o)),
    {
        match o {
            Some(s) => Json::text(s),
            None => Json::Null,
        }
    }

    /// A list of text values.
    pub fn texts(v: &Vec<String>) -> (r: Json)
        ensures
            r@ == text_list_model(crate::text::texts(v@)),
    {
        let mut out: Vec<Json> = Vec::new();
        let mut i: usize = 0;
        while i < v.len()
            invariant
                i <= v@.len(),
                out@.len() == i,
                forall|j: int|
                    0 <= j < i ==> (#[trigger] out@[j])@ == JsonModel::Text(v@[j]@),
            decreases v@.len() - i,
        {
            out.push(Json::text(&v[i]));
            i += 1;
        }
        proof {
            list_view(out);
            assert(item_models(out@) =~= text_list_model(crate::text::texts(v@))->List_0);
        }
        Json::List(out)
    }

    /// An object value.
    pub fn object(fields: Vec<(String, Json)>) -> (r: Json)
        ensures
            r@ == JsonModel::Object(field_models(fields@)),
    {
        proof {
            object_view(fields);
        }
        Json::Object(fields)
    }

    /// A list value.
    pub fn list(items: Vec<Json>) -> (r: Json)
        ensures
            r@ == JsonModel::List(item_models(items@)),
    {
        proof {
            list_view(items);
        }
        Json::List(items)
    }
}

/// A value, or null where there is none.
pub open spec fn or_null(o: Option<&Json>) -> JsonModel {
    match o {
        Some(v) => v@,
        None => JsonModel::Null,
    }
}

/// The field `key` of a value that may be missing.
pub(crate) fn field_of<'a>(o: Option<&'a Json>, key: &str) -> (r: Option<&'a Json>)
    ensures
        or_null(r) == or_null(o).at(key@),
        opt_json_ref(r) == or_null(o).get(key@),
{
    match o {
        Some(v) => v.get(key),
        None => None,
    }
}

/// The text of the field `key` of a value that may be missing.
pub(crate) fn text_of<'a>(o: Option<&'a Json>, key: &str) -> (r: Option<&'a str>)
    ensures
        crate::text::opt_str(r) == or_null(o).text_field(key@),
{
    match o {
        Some(v) => v.text_field(key),
        None => None,
    }
}

/// The model of an optional truth value: null where there is none.
pub open spec fn opt_bool_model(o: Option<bool>) -> JsonModel {
    match o {
        Some(b) => JsonModel::Bool(b),
        None => JsonModel::Null,
    }
}

/// The model of an optional number: null where there is none.
pub open spec fn opt_number_model(o: Option<int>) -> JsonModel {
    match o {
        Some(n) => JsonModel::Number(n),
        None => JsonModel::Null,
    }
}

/// The text of the field `key` of a value that may be missing, or null.
pub(crate) fn copy_text(o: Option<&Json>, key: &str) -> (r: Json)
    ensures
        r@ == opt_text_model(or_null(o).text_field(key@)),
{
    match text_of(o, key) {
        Some(t) => Json::text(t),
        None => Json::Null,
    }
}

/// The truth value of the field `key` of a value that may be missing, or null.
pub(crate) fn copy_bool(o: Option<&Json>, key: &str) -> (r: Json)
    ensures
        r@ == opt_bool_model(or_null(o).bool_field(key@)),
{
    match o {
        Some(v) => match v.bool_field(key) {
            Some(b) => Json::Bool(b),
            None => Json::Null,
        },
        None => Json::Null,
    }
}

/// The integer of the field `key` of a value that may be missing.
pub(crate) fn i64_of(o: Option<&Json>, key: &str) -> (r: Option<i64>)
    ensures
        match r {
            Some(n) => or_null(o).i64_field(key@) == Some(n as int),
            None => or_null(o).i64_field(key@) is None,
        },
{
    match o {
        Some(v) => v.i64_field(key),
        None => None,
    }
}

/// The integer of the field `key` of a value that may be missing, or null.
pub(crate) fn copy_i64(o: Option<&Json>, key: &str) -> (r: Json)
    ensures
        r@ == opt_number_model(or_null(o).i64_field(key@)),
{
    match i64_of(o, key) {
        Some(n) => Json::Number(n as i128),
        None => Json::Null,
    }
}

/// The model of an optional text: null where there is none.
pub open spec fn opt_text_model(o: Option<Seq<char>>) -> JsonModel {
    match o {
        Some(t) => JsonModel::Text(t),
        None => JsonModel::Null,
    }
}

/// The model of a list of texts.
pub open spec fn text_list_model(v: Seq<Seq<char>>) -> JsonModel {
    JsonModel::List(Seq::new(v.len(), |i: int| JsonModel::Text(v[i])))
}

/// The texts among `items`, in order.
pub(crate) fn collect_texts(items: &Vec<Json>) -> (r: Vec<String>)
    ensures
        crate::text::texts(r@) == texts_among(item_models(items@)),
{
    let mut out: Vec<String> = Vec::new();
    let mut i: usize = 0;
    let ghost all = item_models(items@);
    assert(crate::text::texts(out@) =~= texts_among(all.take(0)));
    while i < items.len()
        invariant
            i <= items@.len(),
            all == item_models(items@),
            crate::text::texts(out@) == texts_among(all.take(i as int)),
        decreases items@.len() - i,
    {
        let ghost before = crate::text::texts(out@);
        assert(all.take(i + 1).drop_last() =~= all.take(i as int));
        assert(all.take(i + 1).last() == items@[i as int]@);
        match items[i].as_str() {
            Some(t) => {
                out.push(String::from_str(t));
                assert(crate::text::texts(out@) =~= before.push(t@));
            },
            None => {},
        }
        i += 1;
    }
    assert(all.take(i as int) =~= all);
    out
}

/// The fields of `fields` with text values, in order.
pub open spec fn text_entries(fields: Seq<(Seq<char>, JsonModel)>) -> Seq<(Seq<char>, Seq<char>)>
    decreases fields.len(),
{
    if fields.len() == 0 {
        Seq::empty()
    } else {
        let head = text_entries(fields.drop_last());
        match fields.last().1.as_text() {
            Some(t) => head.push((fields.last().0, t)),
            None => head,
        }
    }
}

/// The contents of pairs of strings.
pub open spec fn pair_texts(v: Seq<(String, String)>) -> Seq<(Seq<char>, Seq<char>)> {
    Seq::new(v.len(), |i: int| (v[i].0@, v[i].1@))
}

/// The fields with text values of an object that may be missing, in order. None
/// where there is no object.
pub open spec fn text_entries_of(v: JsonModel) -> Option<Seq<(Seq<char>, Seq<char>)>> {
    match v {
        JsonModel::Object(fields) => Some(text_entries(fields)),
        _ => None,
    }
}

/// The fields with text values of an object that may be missing, in order.
pub(crate) fn collect_text_entries(o: Option<&Json>) -> (r: Option<Vec<(String, String)>>)
    ensures
        match r {
            Some(v) => text_entries_of(or_null(o)) == Some(pair_texts(v@)),
            None => text_entries_of(or_null(o)) is None,
        },
{
    let v = match o {
        Some(v) => v,
        None => {
            return None;
        },
    };
    match v {
        Json::Object(fields) => {
            proof {
                object_view(*fields);
            }
            let ghost all = field_models(fields@);
            let mut out: Vec<(String, String)> = Vec::new();
            let mut i: usize = 0;
            assert(pair_texts(out@) =~= text_entries(all.take(0)));
            while i < fields.len()
                invariant
                    i <= fields@.len(),
                    all == field_models(fields@),
                    or_null(o) == JsonModel::Object(all),
                    pair_texts(out@) == text_entries(all.take(i as int)),
                decreases fields@.len() - i,
            {
                let ghost before = pair_texts(out@);
                assert(all.take(i + 1).drop_last() =~= all.take(i as int));
                assert(all.take(i + 1).last() == (fields@[i as int].0@, fields@[i as int].1@));
                match fields[i].1.as_str() {
                    Some(t) => {
                        let key = fields[i].0.clone();
                        out.push((key, String::from_str(t)));
                        assert(pair_texts(out@) =~= before.push((fields@[i as int].0@, t@)));
                    },
                    None => {},
                }
                i += 1;
            }
            assert(all.take(i as int) =~= all);
            Some(out)
        },
        _ => None,
    }
}

// ─── Building objects ───────────────────────────────────────────────────────

/// The fields of an object under construction.
pub struct Fields {
    fields: Vec<(String, Json)>,
}

impl View for Fields {
    type V = Seq<(Seq<char>, JsonModel)>;

    closed spec fn view(&self) -> Seq<(Seq<char>, JsonModel)> {
        field_models(self.fields@)
    }
}

impl Fields {
    /// No fields.
    pub fn new() -> (r: Fields)
        ensures
            r@ == Seq::<(Seq<char>, JsonModel)>::empty(),
    {
        let r = Fields { fields: Vec::new() };
        assert(r@ =~= Seq::<(Seq<char>, JsonModel)>::empty());
        r
    }

    /// Adds a field at the end.
    pub fn put(&mut self, key: &str, value: Json)
        ensures
            final(self)@ == old(self)@.push((key@, value@)),
    {
        let ghost before = self@;
        self.fields.push((String::from_str(key), value));
        assert(self@ =~= before.push((key@, value@)));
    }

    /// Adds a text field at the end.
    pub fn put_text(&mut self, key: &str, value: &str)
        ensures
            final(self)@ == old(self)@.push((key@, JsonModel::Text(value@))),
    {
        self.put(key, Json::text(value));
    }

    /// The object with these fields.
    pub fn object(self) -> (r: Json)
        ensures
            r@ == JsonModel::Object(self@),
    {
        proof {
            object_view(self.fields);
        }
        Json::Object(self.fields)
    }
}

/// The texts of keys.
pub open spec fn key_texts(keys: Seq<&str>) -> Seq<Seq<char>> {
    Seq::new(keys.len(), |i: int| keys[i]@)
}

/// A value as a record with these fields. A list stands for the object that has its
/// elements under the keys in their order; those after the first `least` may be left
/// out. Any other value stands for itself.
pub open spec fn record(j: JsonModel, keys: Seq<Seq<char>>, least: nat) -> JsonModel {
    match j {
        JsonModel::List(items) => if least <= items.len() <= keys.len() {
            JsonModel::Object(Seq::new(items.len(), |i: int| (keys[i], items[i])))
        } else {
            j
        },
        _ => j,
    }
}

/// The object that a list stands for, where it is that of a record with these
/// fields.
pub(crate) fn listed_record(j: &Json, keys: &Vec<&'static str>, least: usize) -> (r: Option<Json>)
    ensures
        record(j@, key_texts(keys@), least as nat) == (match r {
            Some(o) => o@,
            None => j@,
        }),
{
    let items = match j.as_array() {
        Some(items) => items,
        None => {
            return None;
        },
    };
    if items.len() < least || keys.len() < items.len() {
        return None;
    }
    let ghost all = item_models(items@);
    let ghost expected = Seq::new(all.len(), |i: int| (key_texts(keys@)[i], all[i]));
    let mut fields = Fields::new();
    let mut i: usize = 0;
    assert(fields@ =~= expected.take(0));
    while i < items.len()
        invariant
            i <= items@.len() <= keys@.len(),
            all == item_models(items@),
            expected == Seq::new(all.len(), |i: int| (key_texts(keys@)[i], all[i])),
            fields@ == expected.take(i as int),
        decreases items@.len() - i,
    {
        assert(all[i as int] == items@[i as int]@);
        fields.put(keys[i], items[i].copy());
        assert(fields@ =~= expected.take(i + 1));
        i += 1;
    }
    assert(fields@ =~= expected);
    Some(fields.object())
}

/// A list under construction.
pub struct Items {
    items: Vec<Json>,
}

impl View for Items {
    type V = Seq<JsonModel>;

    closed spec fn view(&self) -> Seq<JsonModel> {
        item_models(self.items@)
    }
}

impl Items {
    /// No items.
    pub fn new() -> (r: Items)
        ensures
            r@ == Seq::<JsonModel>::empty(),
    {
        let r = Items { items: Vec::new() };
        assert(r@ =~= Seq::<JsonModel>::empty());
        r
    }

    /// Adds an item at the end.
    pub fn put(&mut self, value: Json)
        ensures
            final(self)@ == old(self)@.push(value@),
    {
        let ghost before = self@;
        self.items.push(value);
        assert(self@ =~= before.push(value@));
    }

    /// The list of these items.
    pub fn list(self) -> (r: Json)
        ensures
            r@ == JsonModel::List(self@),
    {
        proof {
            list_view(self.items);
        }
        Json::List(self.items)
    }
}

// ─── Lists of texts ─────────────────────────────────────────────────────────

/// Whether a value is the list of these texts.
pub open spec fn lists_texts(v: JsonModel, items: Seq<Seq<char>>) -> bool {
    &&& v is List
    &&& v->List_0.len() == items.len()
    &&& forall|i: int| 0 <= i < items.len() ==> (#[trigger] v->List_0[i]) == JsonModel::Text(items[i])
}

/// A list of texts is the list of exactly these texts, and they come out of it again.
pub proof fn text_list_holds_its_texts(items: Seq<Seq<char>>)
    ensures
        lists_texts(text_list_model(items), items),
        texts_among(text_list_model(items)->List_0) == items,
    decreases items.len(),
{
    let v = text_list_model(items)->List_0;
    if items.len() == 0 {
        assert(texts_among(v) =~= items);
    } else {
        let front = items.drop_last();
        text_list_holds_its_texts(front);
        assert(v.drop_last() =~= text_list_model(front)->List_0);
        assert(v.last() == JsonModel::Text(items.last()));
        assert(front.push(items.last()) =~= items);
    }
}

} // verus!
