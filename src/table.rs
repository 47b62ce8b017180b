//! Membership tables: node records keyed uniquely by hostname, kept in the
//! order in which their hostnames first arrived.

use vstd::prelude::*;
use crate::pcinfo::{NodeView, PCInfo, PCStatus};

verus! {

/// No two records share a hostname.
pub open spec fn names_unique(s: Seq<NodeView>) -> bool {
    forall|i: int, j: int| 0 <= i < j < s.len() ==> s[i].name != s[j].name
}

/// Some record carries the hostname `name`.
pub open spec fn has_name(s: Seq<NodeView>, name: Seq<char>) -> bool {
    exists|i: int| 0 <= i < s.len() && s[i].name == name
}

/// The table after `r` is put under its hostname: it replaces the record of
/// that hostname in place, or goes at the end.
pub open spec fn table_insert(s: Seq<NodeView>, r: NodeView) -> Seq<NodeView> {
    if has_name(s, r.name) {
        s.map_values(|v: NodeView| if v.name == r.name { r } else { v })
    } else {
        s.push(r)
    }
}

/// The table with the status of the record named `name` set to `status`.
pub open spec fn table_set_status(s: Seq<NodeView>, name: Seq<char>, status: PCStatus) -> Seq<
    NodeView,
> {
    s.map_values(|v: NodeView| if v.name == name { NodeView { status, ..v } } else { v })
}

/// Which records a filtering pass keeps.
pub enum Criterion {
    /// Records whose hostname differs from this one.
    NamedOtherThan(String),
    /// Records flagged as manager.
    Managers,
    /// Records not flagged as manager.
    NonManagers,
}

/// Whether the criterion keeps a record.
pub open spec fn keeps(c: Criterion, v: NodeView) -> bool {
    match c {
        Criterion::NamedOtherThan(n) => v.name != n@,
        Criterion::Managers => v.is_manager,
        Criterion::NonManagers => !v.is_manager,
    }
}

/// The table without the record named `name`.
pub open spec fn table_remove(s: Seq<NodeView>, name: Seq<char>) -> Seq<NodeView> {
    s.filter(|v: NodeView| v.name != name)
}

/// The records flagged as manager, in order.
pub open spec fn managers_only(s: Seq<NodeView>) -> Seq<NodeView> {
    s.filter(|v: NodeView| v.is_manager)
}

/// The records not flagged as manager, in order.
pub open spec fn without_managers(s: Seq<NodeView>) -> Seq<NodeView> {
    s.filter(|v: NodeView| !v.is_manager)
}

/// The table with the manager flag cleared on every record but the one named
/// `except`.
pub open spec fn flags_cleared(s: Seq<NodeView>, except: Seq<char>) -> Seq<NodeView> {
    s.map_values(
        |v: NodeView|
            if v.name != except {
                NodeView { is_manager: false, ..v }
            } else {
                v
            },
    )
}

impl Criterion {
    pub fn test(&self, p: &PCInfo) -> (r: bool)
        ensures
            r == keeps(*self, p@),
    {
        match self {
            Criterion::NamedOtherThan(n) => {
                let same = *p.get_name() == *n;
                !same
            },
            Criterion::Managers => p.is_manager(),
            Criterion::NonManagers => !p.is_manager(),
        }
    }
}

/// A membership table.
pub struct NodeTable {
    entries: Vec<PCInfo>,
}

impl View for NodeTable {
    type V = Seq<NodeView>;

    closed spec fn view(&self) -> Seq<NodeView> {
        self.entries@.map_values(|p: PCInfo| p@)
    }
}

impl NodeTable {
    /// The table is well formed: hostnames are unique.
    pub open spec fn wf(&self) -> bool {
        names_unique(self@)
    }

    /// An empty table.
    pub fn new() -> (r: NodeTable)
        ensures
            r.wf(),
            r@ == Seq::<NodeView>::empty(),
    {
        let r = NodeTable { entries: Vec::new() };
        assert(r@ =~= Seq::<NodeView>::empty());
        r
    }

    /// Number of records.
    pub fn len(&self) -> (r: usize)
        ensures
            r == self@.len(),
    {
        self.entries.len()
    }

    pub fn is_empty(&self) -> (r: bool)
        ensures
            r == (self@.len() == 0),
    {
        self.entries.len() == 0
    }

    /// The record at position `i`.
    pub fn get_index(&self, i: usize) -> (r: &PCInfo)
        requires
            i < self@.len(),
        ensures
            r@ == self@[i as int],
    {
        &self.entries[i]
    }

    /// The position of the record named `name`, if there is one.
    pub fn find(&self, name: &String) -> (r: Option<usize>)
        requires
            self.wf(),
        ensures
            r is Some <==> has_name(self@, name@),
            r is Some ==> r->Some_0 < self@.len() && self@[r->Some_0 as int].name == name@,
    {
        let mut i: usize = 0;
        while i < self.entries.len()
            invariant
                i <= self@.len(),
                self@.len() == self.entries@.len(),
                forall|j: int| 0 <= j < i ==> self@[j].name != name@,
            decreases self@.len() - i,
        {
            if *self.entries[i].get_name() == *name {
                return Some(i);
            }
            i = i + 1;
        }
        None
    }

    /// The record named `name`, if there is one.
    pub fn get(&self, name: &String) -> (r: Option<&PCInfo>)
        requires
            self.wf(),
        ensures
            r is Some <==> has_name(self@, name@),
            r is Some ==> exists|i: int|
                0 <= i < self@.len() && self@[i] == r->Some_0@ && self@[i].name == name@,
    {
        match self.find(name) {
            Some(i) => Some(&self.entries[i]),
            None => None,
        }
    }

    /// Puts `pc` under its hostname, replacing any record of that hostname.
    pub fn insert(&mut self, pc: PCInfo)
        requires
            old(self).wf(),
        ensures
            final(self).wf(),
            final(self)@ == table_insert(old(self)@, pc@),
    {
        let ghost s = self@;
        let name = pc.get_name().clone();
        match self.find(&name) {
            Some(i) => {
                self.entries.set(i, pc);
                assert(self@ =~= table_insert(s, pc@));
            },
            None => {
                self.entries.push(pc);
                assert(self@ =~= table_insert(s, pc@));
            },
        }
    }

    /// Sets the status of the record named `name`; `false` when there is none.
    pub fn set_status(&mut self, name: &String, status: PCStatus) -> (r: bool)
        requires
            old(self).wf(),
        ensures
            final(self).wf(),
            r == has_name(old(self)@, name@),
            final(self)@ == table_set_status(old(self)@, name@, status),
    {
        let ghost s = self@;
        match self.find(name) {
            Some(i) => {
                let mut pc = self.entries[i].clone();
                pc.set_status(status);
                self.entries.set(i, pc);
                assert(self@ =~= table_set_status(s, name@, status));
                true
            },
            None => {
                assert(self@ =~= table_set_status(s, name@, status));
                false
            },
        }
    }

    /// Keeps the records that `c` keeps, in order.
    pub fn retain(&mut self, c: &Criterion)
        requires
            old(self).wf(),
        ensures
            final(self).wf(),
            final(self)@ == old(self)@.filter(|v: NodeView| keeps(*c, v)),
    {
        let ghost s = self@;
        let ghost pred = |v: NodeView| keeps(*c, v);
        let mut kept: Vec<PCInfo> = Vec::new();
        let ghost mut idx: Seq<int> = Seq::empty();
        let mut k: usize = 0;
        while k < self.entries.len()
            invariant
                k <= s.len(),
                s == self@,
                names_unique(s),
                pred == (|v: NodeView| keeps(*c, v)),
                kept@.map_values(|p: PCInfo| p@) == s.subrange(0, k as int).filter(pred),
                idx.len() == kept@.len(),
                forall|a: int| 0 <= a < idx.len() ==> 0 <= #[trigger] idx[a] < k,
                forall|a: int, b: int| 0 <= a < b < idx.len() ==> idx[a] < idx[b],
                forall|a: int| 0 <= a < idx.len() ==> #[trigger] kept@[a]@ == s[idx[a]],
            decreases s.len() - k,
        {
            let ghost before = kept@.map_values(|p: PCInfo| p@);
            assert(s.subrange(0, k + 1).drop_last() =~= s.subrange(0, k as int));
            proof {
                reveal(Seq::filter);
            }
            assert(s.subrange(0, k + 1).filter(pred) == if pred(s[k as int]) {
                s.subrange(0, k as int).filter(pred).push(s[k as int])
            } else {
                s.subrange(0, k as int).filter(pred)
            });
            if c.test(&self.entries[k]) {
                let pc = self.entries[k].clone();
                assert(pc@ == s[k as int]);
                kept.push(pc);
                proof {
                    idx = idx.push(k as int);
                }
                assert(kept@.map_values(|p: PCInfo| p@) =~= before.push(s[k as int]));
            } else {
                assert(kept@.map_values(|p: PCInfo| p@) =~= before);
            }
            k = k + 1;
        }
        assert(s.subrange(0, s.len() as int) =~= s);
        self.entries = kept;
        assert forall|a: int, b: int| 0 <= a < b < self@.len() implies self@[a].name
            != self@[b].name by {
            assert(self@[a] == s[idx[a]]);
            assert(self@[b] == s[idx[b]]);
        }
    }

    /// Removes the record named `name`; `false` when there is none.
    pub fn remove(&mut self, name: &String) -> (r: bool)
        requires
            old(self).wf(),
        ensures
            final(self).wf(),
            r == has_name(old(self)@, name@),
            final(self)@ == table_remove(old(self)@, name@),
    {
        let found = self.find(name);
        let c = Criterion::NamedOtherThan(name.clone());
        self.retain(&c);
        assert((|v: NodeView| keeps(c, v)) =~= (|v: NodeView| v.name != name@));
        found.is_some()
    }

    /// Clears the manager flag of every record but the one named `except`.
    pub fn clear_manager_flags(&mut self, except: &String)
        requires
            old(self).wf(),
        ensures
            final(self).wf(),
            final(self)@ == flags_cleared(old(self)@, except@),
    {
        let ghost s = self@;
        let mut i: usize = 0;
        while i < self.entries.len()
            invariant
                i <= s.len(),
                self@.len() == s.len(),
                self.entries@.len() == s.len(),
                names_unique(s),
                forall|j: int| 0 <= j < i ==> #[trigger] self@[j] == flags_cleared(s, except@)[j],
                forall|j: int| i <= j < s.len() ==> #[trigger] self@[j] == s[j],
            decreases s.len() - i,
        {
            let same = *self.entries[i].get_name() == *except;
            let ghost before = self@;
            if !same {
                let mut pc = self.entries[i].clone();
                pc.set_is_manager(false);
                assert(before[i as int] == s[i as int]);
                assert(pc@ == flags_cleared(s, except@)[i as int]);
                self.entries.set(i, pc);
                assert(self@ =~= before.update(i as int, flags_cleared(s, except@)[i as int]));
            }
            i = i + 1;
        }
        assert(self@ =~= flags_cleared(s, except@));
    }

    /// Removes every record.
    pub fn clear(&mut self)
        ensures
            final(self).wf(),
            final(self)@ == Seq::<NodeView>::empty(),
    {
        self.entries = Vec::new();
        assert(self@ =~= Seq::<NodeView>::empty());
    }
}

impl Clone for NodeTable {
    fn clone(&self) -> (r: NodeTable)
        ensures
            r@ == self@,
    {
        let mut entries: Vec<PCInfo> = Vec::new();
        let mut i: usize = 0;
        while i < self.entries.len()
            invariant
                i <= self.entries@.len(),
                entries@.map_values(|p: PCInfo| p@) =~= self@.subrange(0, i as int),
            decreases self.entries@.len() - i,
        {
            let ghost before = entries@.map_values(|p: PCInfo| p@);
            let pc = self.entries[i].clone();
            assert(pc@ == self@[i as int]);
            entries.push(pc);
            assert(entries@.map_values(|p: PCInfo| p@) =~= before.push(self@[i as int]));
            assert(self@.subrange(0, i + 1) =~= self@.subrange(0, i as int).push(self@[i as int]));
            i = i + 1;
        }
        let r = NodeTable { entries };
        assert(r@ =~= self@);
        r
    }
}

} // verus!
