//! Equality of values by their contents.
use crate::json::Json;
use vstd::prelude::*;

verus! {

/// Values whose contents can be compared.
pub trait Same: View + Sized {
    /// Whether the contents are equal.
    fn same_as(&self, other: &Self) -> (r: bool)
        ensures
            r == (self@ == other@),
    ;
}

/// The contents of the values of a list.
pub open spec fn views<T: View>(v: Seq<T>) -> Seq<T::V> {
    Seq::new(v.len(), |i: int| v[i]@)
}

/// The contents of an optional value.
pub open spec fn opt_view<T: View>(o: Option<T>) -> Option<T::V> {
    match o {
        Some(v) => Some(v@),
        None => None,
    }
}

impl Same for String {
    fn same_as(&self, other: &String) -> (r: bool) {
        crate::text::same(self, other)
    }
}

/// Whether two lists have the same contents.
pub(crate) fn same_lists<T: Same>(a: &Vec<T>, b: &Vec<T>) -> (r: bool)
    ensures
        r == (views(a@) == views(b@)),
{
    if a.len() != b.len() {
        assert(views(a@).len() != views(b@).len());
        return false;
    }
    let mut i: usize = 0;
    while i < a.len()
        invariant
            i <= a@.len(),
            a@.len() == b@.len(),
            forall|j: int| 0 <= j < i ==> (#[trigger] a@[j])@ == b@[j]@,
        decreases a@.len() - i,
    {
        if !a[i].same_as(&b[i]) {
            assert(views(a@)[i as int] != views(b@)[i as int]);
            return false;
        }
        i += 1;
    }
    assert(views(a@) =~= views(b@));
    true
}

/// Whether two optional values have the same contents.
pub(crate) fn same_options<T: Same>(a: &Option<T>, b: &Option<T>) -> (r: bool)
    ensures
        r == (opt_view(*a) == opt_view(*b)),
{
    match (a, b) {
        (Some(x), Some(y)) => x.same_as(y),
        (None, None) => true,
        _ => false,
    }
}

/// Whether two optional lists of strings have the same contents.
pub(crate) fn same_text_lists(a: &Option<Vec<String>>, b: &Option<Vec<String>>) -> (r: bool)
    ensures
        r == (opt_texts(*a) == opt_texts(*b)),
{
    match (a, b) {
        (Some(x), Some(y)) => same_lists(x, y),
        (None, None) => true,
        _ => false,
    }
}

/// The contents of an optional list of strings.
pub open spec fn opt_texts(o: Option<Vec<String>>) -> Option<Seq<Seq<char>>> {
    match o {
        Some(v) => Some(views(v@)),
        None => None,
    }
}

proof fn list_models_differ(a: Json, b: Json, i: int)
    requires
        a matches Json::List(x) && b matches Json::List(y) && x@.len() == y@.len() && 0 <= i
            < x@.len() && x@[i]@ != y@[i]@,
    ensures
        a@ != b@,
{
    assert(a@->List_0[i] != b@->List_0[i]);
}

impl Same for Json {
    fn same_as(&self, other: &Json) -> (r: bool) {
        same_json(self, other)
    }
}

fn same_json(a: &Json, b: &Json) -> (r: bool)
    ensures
        r == (a@ == b@),
    decreases a,
{
    match (a, b) {
        (Json::Null, Json::Null) => true,
        (Json::Bool(x), Json::Bool(y)) => *x == *y,
        (Json::Number(x), Json::Number(y)) => *x == *y,
        (Json::Float(x), Json::Float(y)) => crate::text::same(x, y),
        (Json::Text(x), Json::Text(y)) => crate::text::same(x, y),
        (Json::List(x), Json::List(y)) => {
            if x.len() != y.len() {
                assert(a@->List_0.len() != b@->List_0.len());
                return false;
            }
            let mut i: usize = 0;
            while i < x.len()
                invariant
                    a matches Json::List(v) && v == x,
                    b matches Json::List(v) && v == y,
                    i <= x@.len(),
                    x@.len() == y@.len(),
                    forall|j: int| 0 <= j < i ==> (#[trigger] x@[j])@ == y@[j]@,
                decreases x@.len() - i,
            {
                if !same_json(&x[i], &y[i]) {
                    proof {
                        list_models_differ(*a, *b, i as int);
                    }
                    return false;
                }
                i += 1;
            }
            assert(a@->List_0 =~= b@->List_0);
            true
        },
        (Json::Object(x), Json::Object(y)) => {
            if x.len() != y.len() {
                assert(a@->Object_0.len() != b@->Object_0.len());
                return false;
            }
            let mut i: usize = 0;
            while i < x.len()
                invariant
                    a matches Json::Object(v) && v == x,
                    b matches Json::Object(v) && v == y,
                    i <= x@.len(),
                    x@.len() == y@.len(),
                    forall|j: int|
                        0 <= j < i ==> (#[trigger] x@[j]).0@ == y@[j].0@ && x@[j].1@ == y@[j].1@,
                decreases x@.len() - i,
            {
                if !crate::text::same(&x[i].0, &y[i].0) {
                    assert(a@->Object_0[i as int].0 != b@->Object_0[i as int].0);
                    return false;
                }
                if !same_json(&x[i].1, &y[i].1) {
                    assert(a@->Object_0[i as int].1 != b@->Object_0[i as int].1);
                    return false;
                }
                i += 1;
            }
            proof {
                let s = a@->Object_0;
                let t = b@->Object_0;
                assert forall|j: int| 0 <= j < s.len() implies s[j] == t[j] by {
                    assert(s[j].0 == x@[j].0@ && s[j].1 == x@[j].1@);
                    assert(t[j].0 == y@[j].0@ && t[j].1 == y@[j].1@);
                }
                assert(s =~= t);
            }
            true
        },
        _ => false,
    }
}

} // verus!
