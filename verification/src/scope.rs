//! The declarations of a program: names bound to nodes.
use vstd::prelude::*;
use crate::node::{Node, SNode, clone_node};
use crate::text::owned;

verus! {

/// The map a list of bindings stands for: a later binding of a name hides an
/// earlier one.
pub open spec fn bindings_map(s: Seq<(String, Node)>) -> Map<Seq<char>, SNode>
    decreases s.len(),
{
    if s.len() == 0 {
        Map::empty()
    } else {
        bindings_map(s.drop_last()).insert(s.last().0@, s.last().1@)
    }
}

/// Whether `i` is the last position of the list that binds `k`.
pub open spec fn last_binding(s: Seq<(String, Node)>, k: Seq<char>, i: int) -> bool {
    &&& 0 <= i < s.len()
    &&& s[i].0@ == k
    &&& forall|j: int| i < j < s.len() ==> s[j].0@ != k
}

proof fn lemma_bindings_lookup(s: Seq<(String, Node)>, k: Seq<char>, i: int)
    requires
        last_binding(s, k, i),
    ensures
        bindings_map(s).contains_key(k),
        bindings_map(s)[k] == s[i].1@,
    decreases s.len(),
{
    if i < s.len() - 1 {
        lemma_bindings_lookup(s.drop_last(), k, i);
    }
}

proof fn lemma_bindings_absent(s: Seq<(String, Node)>, k: Seq<char>)
    requires
        forall|j: int| 0 <= j < s.len() ==> s[j].0@ != k,
    ensures
        !bindings_map(s).contains_key(k),
    decreases s.len(),
{
    if s.len() > 0 {
        lemma_bindings_absent(s.drop_last(), k);
    }
}

proof fn lemma_bindings_update(s: Seq<(String, Node)>, k: Seq<char>, i: int, e: (String, Node))
    requires
        last_binding(s, k, i),
        e.0@ == k,
    ensures
        bindings_map(s.update(i, e)) == bindings_map(s).insert(k, e.1@),
    decreases s.len(),
{
    if i == s.len() - 1 {
        assert(s.update(i, e).drop_last() =~= s.drop_last());
    } else {
        lemma_bindings_update(s.drop_last(), k, i, e);
        assert(s.update(i, e).drop_last() =~= s.drop_last().update(i, e));
        assert(bindings_map(s.update(i, e)) =~= bindings_map(s).insert(k, e.1@));
    }
}

proof fn lemma_bindings_push(s: Seq<(String, Node)>, e: (String, Node))
    ensures
        bindings_map(s.push(e)) == bindings_map(s).insert(e.0@, e.1@),
{
    assert(s.push(e).drop_last() =~= s);
}

/// The names a program has declared, each bound to a node.
#[derive(Debug)]
pub struct Declarations {
    pub(crate) entries: Vec<(String, Node)>,
}

impl View for Declarations {
    type V = Map<Seq<char>, SNode>;

    closed spec fn view(&self) -> Map<Seq<char>, SNode> {
        bindings_map(self.entries@)
    }
}

impl Declarations {
    /// No declarations.
    pub fn new() -> (res: Self)
        ensures
            res@ == Map::<Seq<char>, SNode>::empty(),
    {
        let res = Declarations { entries: Vec::new() };
        assert(res@ =~= Map::<Seq<char>, SNode>::empty());
        res
    }

    /// The position of the last binding of `name`.
    fn find(&self, name: &String) -> (res: Option<usize>)
        ensures
            match res {
                Some(i) => last_binding(self.entries@, name@, i as int),
                None => forall|j: int|
                    0 <= j < self.entries@.len() ==> self.entries@[j].0@ != name@,
            },
    {
        let mut i = self.entries.len();
        while i > 0
            invariant
                i <= self.entries.len(),
                forall|j: int| i <= j < self.entries@.len() ==> self.entries@[j].0@ != name@,
            decreases i,
        {
            if self.entries[i - 1].0 == *name {
                return Some(i - 1);
            }
            i -= 1;
        }
        None
    }

    /// The node bound to `name`, if any.
    pub fn get(&self, name: &str) -> (res: Option<&Node>)
        ensures
            match res {
                Some(n) => self@.contains_key(name@) && n@ == self@[name@],
                None => !self@.contains_key(name@),
            },
    {
        let key = owned(name);
        match self.find(&key) {
            Some(i) => {
                proof {
                    lemma_bindings_lookup(self.entries@, name@, i as int);
                }
                Some(&self.entries[i].1)
            },
            None => {
                proof {
                    lemma_bindings_absent(self.entries@, name@);
                }
                None
            },
        }
    }

    /// Binds `name` to `node`, replacing any earlier binding.
    pub fn insert(&mut self, name: String, node: Node)
        ensures
            final(self)@ == old(self)@.insert(name@, node@),
    {
        match self.find(&name) {
            Some(i) => {
                proof {
                    lemma_bindings_update(self.entries@, name@, i as int, (name, node));
                }
                self.entries.set(i, (name, node));
            },
            None => {
                proof {
                    lemma_bindings_push(self.entries@, (name, node));
                }
                self.entries.push((name, node));
            },
        }
    }

    /// Drops every binding of `name`.
    pub fn remove(&mut self, name: &str)
        ensures
            final(self)@ == old(self)@.remove(name@),
    {
        let ghost old_entries = self.entries@;
        let key = owned(name);
        let mut kept: Vec<(String, Node)> = Vec::new();
        let mut i: usize = 0;
        while i < self.entries.len()
            invariant
                i <= self.entries.len(),
                self.entries@ == old_entries,
                key@ == name@,
                bindings_map(kept@) == bindings_map(old_entries.subrange(0, i as int)).remove(name@),
            decreases self.entries.len() - i,
        {
            let ghost before = kept@;
            if self.entries[i].0 != key {
                let entry = (self.entries[i].0.clone(), clone_node(&self.entries[i].1));
                proof {
                    lemma_bindings_push(before, entry);
                }
                kept.push(entry);
            }
            proof {
                let sub = old_entries.subrange(0, i as int + 1);
                assert(sub.drop_last() =~= old_entries.subrange(0, i as int));
                assert(bindings_map(kept@) =~= bindings_map(sub).remove(name@));
            }
            i += 1;
        }
        assert(old_entries.subrange(0, i as int) =~= old_entries);
        self.entries = kept;
    }
}

} // verus!

verus! {

/// For the declarations `d`, as `insert`, `get` and `remove` state them on
/// the view: reading a name right after `insert` gives the node just bound;
/// `insert` and `remove` leave every other name as it was; after `remove` the
/// name is unbound.
pub proof fn law_declarations_read_after_write(d: Declarations, k: Seq<char>, n: SNode, other: Seq<char>)
    ensures
        d@.insert(k, n).contains_key(k),
        d@.insert(k, n)[k] == n,
        !d@.remove(k).contains_key(k),
        other != k ==> d@.insert(k, n).contains_key(other) == d@.contains_key(other),
        other != k ==> d@.remove(k).contains_key(other) == d@.contains_key(other),
        other != k && d@.contains_key(other) ==> d@.insert(k, n)[other] == d@[other] && d@.remove(
            k,
        )[other] == d@[other],
{
}

} // verus!
