//! The needs that a configuration file lists.
use crate::mcp_tools::remote::Need;
use crate::text::{cat, texts};
use crate::yaml::{
    is_text, parse_yaml, parsed_yaml, render_yaml, yaml_entries, yaml_items, yaml_list_view,
    yaml_mapping_view, yaml_text, Yaml, YamlModel,
};
use vstd::prelude::*;
use vstd::string::*;

verus! {

/// The refusal of a document that is no mapping.
pub const NO_MAPPING: &'static str = "config is not a YAML mapping";

/// The refusal of a document that holds something else than a list of needs.
pub const NO_SEQUENCE: &'static str = "needs: is not a sequence";

/// What the refusal of a text that is no YAML document begins with. The complaint
/// about the text follows.
pub const NO_YAML: &'static str = "failed to parse config YAML: ";

/// The refusal of a document that cannot be written.
pub const NO_TEXT: &'static str = "serializing nested enums in YAML is not supported yet";

/// The models of texts.
pub open spec fn text_models(v: Seq<Seq<char>>) -> Seq<YamlModel> {
    Seq::new(v.len(), |i: int| YamlModel::Text(v[i]))
}

/// The entry of a need in the list of needs.
pub open spec fn need_model(n: Need) -> YamlModel {
    YamlModel::Mapping(
        seq![
            (YamlModel::Text("id"@), YamlModel::Text(n.id@)),
            (YamlModel::Text("description"@), YamlModel::Text(n.description@)),
            (YamlModel::Text("tags"@), YamlModel::List(text_models(texts(n.tags@)))),
            (YamlModel::Text("priority"@), YamlModel::Text(n.priority@)),
        ],
    )
}

/// A list with one more item at its end, behind the tags that it may have. None
/// where the value is no list.
pub open spec fn longer_list(v: YamlModel, item: YamlModel) -> Option<YamlModel>
    decreases v,
{
    match v {
        YamlModel::List(items) => Some(YamlModel::List(items.push(item))),
        YamlModel::Tagged(tag, inner) => match longer_list(*inner, item) {
            Some(w) => Some(YamlModel::Tagged(tag, Box::new(w))),
            None => None,
        },
        _ => None,
    }
}

/// The position of the first entry with a key; the number of entries where there
/// is none.
pub open spec fn key_index(entries: Seq<(YamlModel, YamlModel)>, key: Seq<char>) -> nat
    decreases entries.len(),
{
    if entries.len() == 0 || entries[0].0 == YamlModel::Text(key) {
        0
    } else {
        1 + key_index(entries.skip(1), key)
    }
}

/// A document with one more need: its mapping is as it was, but that `needs` is the
/// list that it was, or an empty one, with the need at its end.
pub open spec fn with_need(doc: YamlModel, need: YamlModel) -> Result<YamlModel, Seq<char>>
    decreases doc,
{
    match doc {
        YamlModel::Mapping(entries) => {
            let i = key_index(entries, "needs"@) as int;
            if i < entries.len() {
                match longer_list(entries[i].1, need) {
                    Some(list) => Ok(YamlModel::Mapping(entries.update(i, (entries[i].0, list)))),
                    None => Err(NO_SEQUENCE@),
                }
            } else {
                Ok(
                    YamlModel::Mapping(
                        entries.push((YamlModel::Text("needs"@), YamlModel::List(seq![need]))),
                    ),
                )
            }
        },
        YamlModel::Tagged(tag, inner) => match with_need(*inner, need) {
            Ok(w) => Ok(YamlModel::Tagged(tag, Box::new(w))),
            Err(e) => Err(e),
        },
        _ => Err(NO_MAPPING@),
    }
}

/// The text of a document with one more need.
pub open spec fn text_with_need(raw: Seq<char>, need: YamlModel) -> Result<Seq<char>, Seq<char>> {
    match parsed_yaml(raw) {
        Err(e) => Err(NO_YAML@ + e),
        Ok(doc) => match with_need(doc, need) {
            Err(e) => Err(e),
            Ok(v) => match yaml_text(v) {
                Some(t) => Ok(t),
                None => Err(NO_TEXT@),
            },
        },
    }
}

fn text(s: &str) -> (r: Yaml)
    ensures
        r@ == YamlModel::Text(s@),
{
    Yaml::Text(String::from_str(s))
}

fn text_list(v: &Vec<String>) -> (r: Yaml)
    ensures
        r@ == YamlModel::List(text_models(texts(v@))),
{
    let ghost expected = text_models(texts(v@));
    let mut items: Vec<Yaml> = Vec::new();
    let mut i: usize = 0;
    while i < v.len()
        invariant
            i <= v@.len(),
            expected == text_models(texts(v@)),
            items@.len() == i,
            forall|k: int| 0 <= k < i ==> (#[trigger] items@[k])@ == expected[k],
        decreases v@.len() - i,
    {
        items.push(text(&v[i]));
        i += 1;
    }
    proof {
        assert(yaml_items(items@) =~= expected);
        yaml_list_view(items);
    }
    Yaml::List(items)
}

fn need_entry(n: &Need) -> (r: Yaml)
    ensures
        r@ == need_model(*n),
{
    let mut entries: Vec<(Yaml, Yaml)> = Vec::new();
    entries.push((text("id"), text(&n.id)));
    entries.push((text("description"), text(&n.description)));
    entries.push((text("tags"), text_list(&n.tags)));
    entries.push((text("priority"), text(&n.priority)));
    proof {
        assert(yaml_entries(entries@) =~= need_model(*n)->Mapping_0);
        yaml_mapping_view(entries);
    }
    Yaml::Mapping(entries)
}

fn lengthen(v: Yaml, item: Yaml) -> (r: Option<Yaml>)
    ensures
        match r {
            Some(w) => longer_list(v@, item@) == Some(w@),
            None => longer_list(v@, item@) is None,
        },
    decreases v,
{
    match v {
        Yaml::List(items) => {
            let ghost before = items;
            let mut items = items;
            items.push(item);
            proof {
                yaml_list_view(before);
                yaml_list_view(items);
                assert(yaml_items(items@) =~= yaml_items(before@).push(item@));
            }
            Some(Yaml::List(items))
        },
        Yaml::Tagged(tag, inner) => match lengthen(*inner, item) {
            Some(w) => Some(Yaml::Tagged(tag, Box::new(w))),
            None => None,
        },
        _ => None,
    }
}

fn find_key(entries: &Vec<(Yaml, Yaml)>, key: &str) -> (r: usize)
    ensures
        r == key_index(yaml_entries(entries@), key@),
        r <= entries@.len(),
{
    let ghost all = yaml_entries(entries@);
    let mut i: usize = 0;
    assert(all.skip(0) =~= all);
    while i < entries.len()
        invariant
            i <= entries@.len(),
            all == yaml_entries(entries@),
            key_index(all, key@) == i + key_index(all.skip(i as int), key@),
        decreases entries@.len() - i,
    {
        assert(all.skip(i as int)[0] == all[i as int]);
        if is_text(&entries[i].0, key) {
            return i;
        }
        assert(all.skip(i as int).skip(1) =~= all.skip(i + 1));
        i += 1;
    }
    i
}

fn put_need(entries: Vec<(Yaml, Yaml)>, entry: Yaml) -> (r: Result<Yaml, String>)
    ensures
        match with_need(YamlModel::Mapping(yaml_entries(entries@)), entry@) {
            Ok(v) => r matches Ok(w) && w@ == v,
            Err(m) => r matches Err(e) && e@ == m,
        },
{
    let ghost before = yaml_entries(entries@);
    let mut entries = entries;
    let i: usize = find_key(&entries, "needs");
    if i < entries.len() {
        let (key, list) = entries.remove(i);
        let ghost place = before[i as int];
        match lengthen(list, entry) {
            Some(longer) => {
                entries.insert(i, (key, longer));
                proof {
                    assert(yaml_entries(entries@) =~= before.update(
                        i as int,
                        (place.0, longer@),
                    ));
                    yaml_mapping_view(entries);
                }
                Ok(Yaml::Mapping(entries))
            },
            None => Err(String::from_str(NO_SEQUENCE)),
        }
    } else {
        let mut items: Vec<Yaml> = Vec::new();
        items.push(entry);
        proof {
            yaml_list_view(items);
            assert(yaml_items(items@) =~= seq![entry@]);
        }
        let list = Yaml::List(items);
        entries.push((text("needs"), list));
        proof {
            assert(yaml_entries(entries@) =~= before.push(
                (YamlModel::Text("needs"@), YamlModel::List(seq![entry@])),
            ));
            yaml_mapping_view(entries);
        }
        Ok(Yaml::Mapping(entries))
    }
}

fn add_entry(doc: Yaml, entry: Yaml) -> (r: Result<Yaml, String>)
    ensures
        match with_need(doc@, entry@) {
            Ok(v) => r matches Ok(w) && w@ == v,
            Err(m) => r matches Err(e) && e@ == m,
        },
    decreases doc,
{
    match doc {
        Yaml::Mapping(entries) => {
            proof {
                yaml_mapping_view(entries);
            }
            put_need(entries, entry)
        },
        Yaml::Tagged(tag, inner) => match add_entry(*inner, entry) {
            Ok(w) => Ok(Yaml::Tagged(tag, Box::new(w))),
            Err(e) => Err(e),
        },
        _ => Err(String::from_str(NO_MAPPING)),
    }
}

/// A document with one more need. It is refused where it is no mapping, or where
/// its needs are no list.
pub fn add_need(doc: Yaml, need: &Need) -> (r: Result<Yaml, String>)
    ensures
        match with_need(doc@, need_model(*need)) {
            Ok(v) => r matches Ok(w) && w@ == v,
            Err(m) => r matches Err(e) && e@ == m,
        },
{
    add_entry(doc, need_entry(need))
}

/// The text of a configuration file with one more need.
pub fn publish_need_text(raw: &str, need: &Need) -> (r: Result<String, String>)
    ensures
        match text_with_need(raw@, need_model(*need)) {
            Ok(t) => r matches Ok(s) && s@ == t,
            Err(m) => r matches Err(e) && e@ == m,
        },
{
    let doc = match parse_yaml(raw) {
        Ok(doc) => doc,
        Err(e) => {
            return Err(cat(NO_YAML, &e));
        },
    };
    match add_need(doc, need) {
        Ok(v) => match render_yaml(&v) {
            Some(t) => Ok(t),
            None => Err(String::from_str(NO_TEXT)),
        },
        Err(e) => Err(e),
    }
}

// ─── Laws ───────────────────────────────────────────────────────────────────

/// A need that was added comes last in the list of needs, behind those that were
/// there, and every other entry of the document is kept.
pub proof fn added_need_comes_last(entries: Seq<(YamlModel, YamlModel)>, need: YamlModel)
    requires
        with_need(YamlModel::Mapping(entries), need) is Ok,
    ensures
        ({
            let after = with_need(YamlModel::Mapping(entries), need)->Ok_0->Mapping_0;
            let i = key_index(entries, "needs"@) as int;
            &&& i <= entries.len() && i < after.len()
            &&& after[i].0 == YamlModel::Text("needs"@)
            &&& after.len() == (if i < entries.len() {
                entries.len()
            } else {
                entries.len() + 1
            })
            &&& forall|k: int| 0 <= k < entries.len() && k != i ==> #[trigger] after[k]
                == entries[k]
            &&& longer_list(
                if i < entries.len() {
                    entries[i].1
                } else {
                    YamlModel::List(Seq::empty())
                },
                need,
            ) == Some(after[i].1)
        }),
{
    key_index_bounds(entries, "needs"@);
    assert(Seq::<YamlModel>::empty().push(need) =~= seq![need]);
}

proof fn key_index_bounds(entries: Seq<(YamlModel, YamlModel)>, key: Seq<char>)
    ensures
        key_index(entries, key) <= entries.len(),
        key_index(entries, key) < entries.len() ==> entries[key_index(entries, key) as int].0
            == YamlModel::Text(key),
    decreases entries.len(),
{
    if entries.len() > 0 && entries[0].0 != YamlModel::Text(key) {
        key_index_bounds(entries.skip(1), key);
    }
}

/// Two needs come in the order in which they were added.
pub proof fn needs_keep_their_order(
    entries: Seq<(YamlModel, YamlModel)>,
    a: YamlModel,
    b: YamlModel,
)
    requires
        key_index(entries, "needs"@) >= entries.len(),
    ensures
        ({
            let once = with_need(YamlModel::Mapping(entries), a)->Ok_0;
            with_need(once, b) == Ok::<YamlModel, Seq<char>>(
                YamlModel::Mapping(
                    entries.push((YamlModel::Text("needs"@), YamlModel::List(seq![a, b]))),
                ),
            )
        }),
{
    key_index_bounds(entries, "needs"@);
    let key = YamlModel::Text("needs"@);
    let once = entries.push((key, YamlModel::List(seq![a])));
    assert(once.take(entries.len() as int) =~= entries);
    key_index_after(entries, once, entries.len() as int);
    assert(seq![a].push(b) =~= seq![a, b]);
    assert(once.update(entries.len() as int, (key, YamlModel::List(seq![a, b]))) =~= entries.push(
        (key, YamlModel::List(seq![a, b])),
    ));
}

proof fn key_index_after(
    entries: Seq<(YamlModel, YamlModel)>,
    after: Seq<(YamlModel, YamlModel)>,
    n: int,
)
    requires
        n == entries.len(),
        after.len() == n + 1,
        after.take(n) == entries,
        after[n].0 == YamlModel::Text("needs"@),
        key_index(entries, "needs"@) == n,
    ensures
        key_index(after, "needs"@) == n,
    decreases n,
{
    if n > 0 {
        assert(after[0] == after.take(n)[0]);
        let rest = after.skip(1);
        assert(rest.take(n - 1) =~= entries.skip(1));
        key_index_after(entries.skip(1), rest, n - 1);
    }
}

/// A need is written with its id, its description, its tags and its priority.
pub proof fn needs_are_written_with_their_fields(n: Need)
    ensures
        ({
            let entries = need_model(n)->Mapping_0;
            &&& entries.len() == 4
            &&& entries.contains((YamlModel::Text("id"@), YamlModel::Text(n.id@)))
            &&& entries.contains((YamlModel::Text("description"@), YamlModel::Text(n.description@)))
            &&& entries.contains((YamlModel::Text("priority"@), YamlModel::Text(n.priority@)))
            &&& exists|tags: Seq<YamlModel>|
                #[trigger] entries.contains((YamlModel::Text("tags"@), YamlModel::List(tags)))
                    && tags.len() == n.tags@.len() && forall|i: int|
                    0 <= i < tags.len() ==> #[trigger] tags[i] == YamlModel::Text(n.tags@[i]@)
        }),
{
    let entries = need_model(n)->Mapping_0;
    assert(entries[0] == (YamlModel::Text("id"@), YamlModel::Text(n.id@)));
    assert(entries[1] == (YamlModel::Text("description"@), YamlModel::Text(n.description@)));
    assert(entries[3] == (YamlModel::Text("priority"@), YamlModel::Text(n.priority@)));
    let tags = text_models(texts(n.tags@));
    assert(entries[2] == (YamlModel::Text("tags"@), YamlModel::List(tags)));
    assert(entries.contains((YamlModel::Text("tags"@), YamlModel::List(tags))));
}

} // verus!
