//! YAML values as plain data, written and read by `serde_yaml`.
use crate::text::{opt_text, same};
use crate::yaml::Yaml::{
    Bool as Truth, List, Mapping as Entries, Null as Nothing, Number as Digits, Tagged as Marked,
    Text,
};
use serde_yaml::value::{Tag, TaggedValue};
use serde_yaml::Value::{Bool, Mapping, Null, Number, Sequence, String as Words, Tagged};
use serde_yaml::{from_str, to_string, Error};
use vstd::prelude::*;
use vstd::string::*;

verus! {

/// A YAML value. The entries of a mapping keep their order. A number is held as
/// its text, and a tag without its exclamation mark.
#[derive(Debug, PartialEq)]
pub enum Yaml {
    Null,
    Bool(bool),
    Number(String),
    Text(String),
    List(Vec<Yaml>),
    Mapping(Vec<(Yaml, Yaml)>),
    Tagged(String, Box<Yaml>),
}

/// The model of a YAML value.
pub enum YamlModel {
    Null,
    Bool(bool),
    Number(Seq<char>),
    Text(Seq<char>),
    List(Seq<YamlModel>),
    Mapping(Seq<(YamlModel, YamlModel)>),
    Tagged(Seq<char>, Box<YamlModel>),
}

impl View for Yaml {
    type V = YamlModel;

    open spec fn view(&self) -> YamlModel
        decreases self,
    {
        match self {
            Yaml::Null => YamlModel::Null,
            Yaml::Bool(b) => YamlModel::Bool(*b),
            Yaml::Number(t) => YamlModel::Number(t@),
            Yaml::Text(t) => YamlModel::Text(t@),
            Yaml::List(items) => YamlModel::List(
                Seq::new(
                    items@.len(),
                    |i: int|
                        if 0 <= i < items@.len() {
                            items@[i].view()
                        } else {
                            YamlModel::Null
                        },
                ),
            ),
            Yaml::Mapping(entries) => YamlModel::Mapping(
                Seq::new(
                    entries@.len(),
                    |i: int|
                        (
                            if 0 <= i < entries@.len() {
                                entries@[i].0.view()
                            } else {
                                YamlModel::Null
                            },
                            if 0 <= i < entries@.len() {
                                entries@[i].1.view()
                            } else {
                                YamlModel::Null
                            },
                        ),
                ),
            ),
            Yaml::Tagged(tag, v) => YamlModel::Tagged(tag@, Box::new((**v).view())),
        }
    }
}

/// The models of the items of a list.
pub open spec fn yaml_items(items: Seq<Yaml>) -> Seq<YamlModel> {
    Seq::new(items.len(), |i: int| items[i]@)
}

/// The models of the entries of a mapping.
pub open spec fn yaml_entries(entries: Seq<(Yaml, Yaml)>) -> Seq<(YamlModel, YamlModel)> {
    Seq::new(entries.len(), |i: int| (entries[i].0@, entries[i].1@))
}

/// The model of a list holds the models of its items.
pub proof fn yaml_list_view(items: Vec<Yaml>)
    ensures
        Yaml::List(items)@ == YamlModel::List(yaml_items(items@)),
{
    assert(Yaml::List(items)@->List_0 =~= yaml_items(items@));
}

/// The model of a mapping holds the models of its entries.
pub proof fn yaml_mapping_view(entries: Vec<(Yaml, Yaml)>)
    ensures
        Yaml::Mapping(entries)@ == YamlModel::Mapping(yaml_entries(entries@)),
{
    let a = Yaml::Mapping(entries)@->Mapping_0;
    let b = yaml_entries(entries@);
    assert forall|i: int| 0 <= i < a.len() implies a[i] == b[i] by {
        assert(a[i].0 == entries@[i].0@);
        assert(a[i].1 == entries@[i].1@);
    }
    assert(a =~= b);
}

// ─── Text ───────────────────────────────────────────────────────────────────

/// The YAML value that a text denotes, or the complaint about a text that denotes
/// none.
pub uninterp spec fn parsed_yaml(text: Seq<char>) -> Result<YamlModel, Seq<char>>;

/// The text of a YAML value. None where it has none.
pub uninterp spec fn yaml_text(v: YamlModel) -> Option<Seq<char>>;

/// `serde_yaml::from_str`, into the value with the same contents: what it reads, and
/// its complaint where it reads nothing, depend on the text alone. Which texts it
/// accepts is not stated.
#[verifier::external_body]
pub(crate) fn parse_yaml(text: &str) -> (r: Result<Yaml, String>)
    ensures
        match r {
            Ok(v) => parsed_yaml(text@) == Ok::<YamlModel, Seq<char>>(v@),
            Err(e) => parsed_yaml(text@) == Err::<YamlModel, Seq<char>>(e@),
        },
{
    let show = |e: Error| e.to_string();
    let inner = |x| parse_yaml(&to_string(x).map_err(show)?);
    Ok(match from_str(text).map_err(show)? {
        Null => Nothing,
        Bool(b) => Truth(b),
        Number(n) => Digits(n.to_string()),
        Words(s) => Text(s),
        Sequence(v) => List(Result::from_iter(v.iter().map(inner))?),
        Mapping(m) => Entries(
            Result::from_iter(m.iter().map(|(k, x)| Ok::<_, String>((inner(k)?, inner(x)?))))?
        ),
        Tagged(t) => Marked(t.tag.to_string().split_off(1), inner(&t.value)?.into())
    })
}

/// `serde_yaml::to_string`, on the value with the same contents: the text, or that
/// there is none, depends on the contents alone. Its layout is not stated.
#[verifier::external_body]
pub(crate) fn render_yaml(v: &Yaml) -> (r: Option<String>)
    ensures
        opt_text(r) == yaml_text(v@),
{
    let inner = |x: &Yaml| from_str(&render_yaml(x)?).ok();
    let both = |(k, x): &(_, _)| inner(k).zip(inner(x));
    to_string(&match v {
        Nothing => Null,
        Truth(b) => Bool(*b),
        Digits(t) => from_str(t).ok()?,
        Text(t) => Words(t.clone()),
        List(v) => Sequence(Option::from_iter(v.iter().map(inner))?),
        Entries(m) => Mapping(Option::from_iter(m.iter().map(both))?),
        Marked(t, x) => {
            Tagged(TaggedValue { tag: Tag::new(format!("!{t}")), value: inner(x)? }.into())
        },
    }).ok()
}

/// Whether a value is a given text.
pub(crate) fn is_text(v: &Yaml, text: &str) -> (r: bool)
    ensures
        r == (v@ == YamlModel::Text(text@)),
{
    match v {
        Yaml::Text(t) => same(t, text),
        _ => false,
    }
}

} // verus!
