//! Sets of names.
use crate::text::{copy_all, has, same, texts};
use vstd::prelude::*;
use vstd::string::*;

verus! {

/// A finite set of names.
#[derive(Debug)]
pub struct NameSet {
    names: Vec<String>,
}

impl View for NameSet {
    type V = Set<Seq<char>>;

    closed spec fn view(&self) -> Set<Seq<char>> {
        texts(self.names@).to_set()
    }
}

proof fn push_to_set(s: Seq<Seq<char>>, x: Seq<char>)
    ensures
        s.push(x).to_set() == s.to_set().insert(x),
{
    assert forall|y: Seq<char>|
        s.push(x).to_set().contains(y) == s.to_set().insert(x).contains(y) by {
        if y == x {
            assert(s.push(x)[s.len() as int] == x);
        } else if s.contains(y) {
            let i = choose|i: int| 0 <= i < s.len() && s[i] == y;
            assert(s.push(x)[i] == y);
        } else if s.push(x).contains(y) {
            let i = choose|i: int| 0 <= i < s.push(x).len() && s.push(x)[i] == y;
            assert(s[i] == y);
        }
    }
    assert(s.push(x).to_set() =~= s.to_set().insert(x));
}

proof fn remove_to_set(s: Seq<Seq<char>>, i: int)
    requires
        0 <= i < s.len(),
        s.no_duplicates(),
    ensures
        s.remove(i).to_set() == s.to_set().remove(s[i]),
        s.remove(i).no_duplicates(),
{
    let t = s.remove(i);
    assert forall|y: Seq<char>| t.to_set().contains(y) == s.to_set().remove(s[i]).contains(y) by {
        if t.contains(y) {
            let j = choose|j: int| 0 <= j < t.len() && t[j] == y;
            let k = if j < i { j } else { j + 1 };
            assert(s[k] == y);
        } else if s.contains(y) && y != s[i] {
            let j = choose|j: int| 0 <= j < s.len() && s[j] == y;
            let k = if j < i { j } else { j - 1 };
            assert(t[k] == y);
        }
    }
    assert(t.to_set() =~= s.to_set().remove(s[i]));
}

/// The names of a list, each once, in the order in which they first come.
pub open spec fn each_once(s: Seq<Seq<char>>) -> Seq<Seq<char>>
    decreases s.len(),
{
    if s.len() == 0 {
        s
    } else {
        let head = each_once(s.drop_last());
        if head.contains(s.last()) {
            head
        } else {
            head.push(s.last())
        }
    }
}

/// No name comes twice, and none is lost or added.
pub proof fn each_once_is_the_set(s: Seq<Seq<char>>)
    ensures
        each_once(s).no_duplicates(),
        each_once(s).to_set() == s.to_set(),
    decreases s.len(),
{
    if s.len() > 0 {
        let head = each_once(s.drop_last());
        each_once_is_the_set(s.drop_last());
        push_to_set(s.drop_last(), s.last());
        assert(s.drop_last().push(s.last()) =~= s);
        push_to_set(head, s.last());
        if head.contains(s.last()) {
            assert(head.to_set() =~= head.to_set().insert(s.last()));
        }
    } else {
        assert(each_once(s) =~= s);
    }
}

/// Names that differ are each once already.
pub proof fn distinct_names_are_each_once(s: Seq<Seq<char>>)
    requires
        s.no_duplicates(),
    ensures
        each_once(s) == s,
    decreases s.len(),
{
    if s.len() > 0 {
        let head = s.drop_last();
        distinct_names_are_each_once(head);
        if head.contains(s.last()) {
            let i = choose|i: int| 0 <= i < head.len() && head[i] == s.last();
            assert(s[i] == s[s.len() - 1]);
        }
        assert(head.push(s.last()) =~= s);
    }
}

/// The names of a list, each once, in the order in which they first come.
pub(crate) fn keep_each_once(v: &Vec<String>) -> (r: Vec<String>)
    ensures
        texts(r@) == each_once(texts(v@)),
        texts(r@).no_duplicates(),
{
    let ghost all = texts(v@);
    let mut out: Vec<String> = Vec::new();
    let mut i: usize = 0;
    assert(texts(out@) =~= each_once(all.take(0)));
    while i < v.len()
        invariant
            i <= v@.len(),
            all == texts(v@),
            texts(out@) == each_once(all.take(i as int)),
        decreases v@.len() - i,
    {
        let ghost before = texts(out@);
        assert(all.take(i + 1).drop_last() =~= all.take(i as int));
        assert(all.take(i + 1).last() == v@[i as int]@);
        let known: bool = has(&out, &v[i]);
        if !known {
            out.push(v[i].clone());
            assert(texts(out@) =~= before.push(v@[i as int]@));
        }
        i += 1;
    }
    assert(all.take(i as int) =~= all);
    proof {
        each_once_is_the_set(all);
    }
    out
}

impl NameSet {
    #[verifier::type_invariant]
    spec fn wf(self) -> bool {
        texts(self.names@).no_duplicates()
    }

    /// The empty set.
    pub fn new() -> (r: NameSet)
        ensures
            r@ == Set::<Seq<char>>::empty(),
    {
        let r = NameSet { names: Vec::new() };
        assert(r@ =~= Set::<Seq<char>>::empty());
        r
    }

    /// Empties the set and hands its names out.
    fn take(&mut self) -> (r: Vec<String>)
        ensures
            r@ == old(self).names@,
            final(self)@ == Set::<Seq<char>>::empty(),
    {
        let mut taken = NameSet::new();
        std::mem::swap(self, &mut taken);
        taken.names
    }

    /// Whether `name` is in the set.
    pub fn contains(&self, name: &str) -> (r: bool)
        ensures
            r == self@.contains(name@),
    {
        has(&self.names, name)
    }

    /// The number of names.
    pub fn len(&self) -> (r: usize)
        ensures
            r == self@.len(),
    {
        proof {
            use_type_invariant(self);
            texts(self.names@).unique_seq_to_set();
        }
        self.names.len()
    }

    /// Whether there is no name.
    pub fn is_empty(&self) -> (r: bool)
        ensures
            r == (self@ == Set::<Seq<char>>::empty()),
    {
        proof {
            if self.names@.len() == 0 {
                assert(self@ =~= Set::<Seq<char>>::empty());
            } else {
                assert(texts(self.names@).contains(texts(self.names@)[0]));
                assert(self@.contains(texts(self.names@)[0]));
            }
        }
        self.names.len() == 0
    }

    /// Adds `name`. Returns whether it is new.
    pub fn insert(&mut self, name: &str) -> (r: bool)
        ensures
            final(self)@ == old(self)@.insert(name@),
            r == !old(self)@.contains(name@),
    {
        proof {
            use_type_invariant(&*self);
        }
        if has(&self.names, name) {
            assert(self@ =~= self@.insert(name@));
            return false;
        }
        let ghost before = texts(self.names@);
        let item = String::from_str(name);
        assert(texts(self.names@.push(item)) =~= before.push(name@));
        proof {
            push_to_set(before, name@);
        }
        let mut names = self.take();
        names.push(item);
        *self = NameSet { names };
        true
    }

    /// Removes `name`. Returns whether it was there.
    pub fn remove(&mut self, name: &str) -> (r: bool)
        ensures
            final(self)@ == old(self)@.remove(name@),
            r == old(self)@.contains(name@),
    {
        proof {
            use_type_invariant(&*self);
        }
        let n: usize = self.names.len();
        let mut i: usize = 0;
        while i < n
            invariant
                i <= n,
                n == self.names@.len(),
                self.names@ == old(self).names@,
                texts(self.names@).no_duplicates(),
                forall|j: int| 0 <= j < i ==> self.names@[j]@ != name@,
            decreases n - i,
        {
            if same(&self.names[i], name) {
                let ghost before = texts(self.names@);
                proof {
                    assert(before[i as int] == name@);
                    remove_to_set(before, i as int);
                    assert(texts(self.names@.remove(i as int)) =~= before.remove(i as int));
                }
                let mut names = self.take();
                names.remove(i);
                *self = NameSet { names };
                return true;
            }
            i += 1;
        }
        assert forall|j: int| 0 <= j < texts(self.names@).len() implies texts(self.names@)[j]
            != name@ by {}
        assert(!self@.contains(name@));
        assert(self@ =~= self@.remove(name@));
        false
    }

    /// The names, each once, in the order in which they were added.
    pub fn names(&self) -> (r: Vec<String>)
        ensures
            texts(r@).no_duplicates(),
            texts(r@).to_set() == self@,
    {
        proof {
            use_type_invariant(self);
        }
        copy_all(&self.names)
    }

    /// Adds every name of `other`.
    pub fn extend(&mut self, other: &NameSet)
        ensures
            final(self)@ == old(self)@.union(other@),
    {
        let items = other.names();
        self.insert_all(&items);
        assert(texts(items@).to_set() == other@);
    }

    /// Adds every name of a list.
    pub fn insert_all(&mut self, items: &Vec<String>)
        ensures
            final(self)@ == old(self)@.union(texts(items@).to_set()),
    {
        let ghost all = texts(items@);
        let ghost start = self@;
        let mut i: usize = 0;
        assert(all.take(0).to_set() =~= Set::<Seq<char>>::empty());
        assert(self@ =~= start.union(all.take(0).to_set()));
        while i < items.len()
            invariant
                i <= items@.len(),
                all == texts(items@),
                self@ == start.union(all.take(i as int).to_set()),
            decreases items@.len() - i,
        {
            let _ = self.insert(&items[i]);
            proof {
                assert(all.take(i + 1) =~= all.take(i as int).push(all[i as int]));
                push_to_set(all.take(i as int), all[i as int]);
                assert(self@ =~= start.union(all.take(i + 1).to_set()));
            }
            i += 1;
        }
        assert(all.take(i as int) =~= all);
    }

    /// A copy of the set.
    pub fn copy(&self) -> (r: NameSet)
        ensures
            r@ == self@,
    {
        proof {
            use_type_invariant(self);
        }
        NameSet { names: copy_all(&self.names) }
    }
}

} // verus!
