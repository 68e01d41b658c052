//! The registry of supervised processes: a map from process id to the handle
//! that owns the process, with atomic insert, remove and drain-all.
use vstd::prelude::*;

verus! {

/// No process id occurs twice among the entries.
pub open spec fn keys_unique<H>(s: Seq<(u32, H)>) -> bool {
    forall|i: int, j: int| 0 <= i < j < s.len() ==> s[i].0 != s[j].0
}

/// The map that a sequence of entries stands for.
pub open spec fn map_of<H>(s: Seq<(u32, H)>) -> Map<u32, H>
    decreases s.len(),
{
    if s.len() == 0 {
        Map::empty()
    } else {
        map_of(s.drop_last()).insert(s.last().0, s.last().1)
    }
}

/// What a removal of `pid` from a registry whose contents are `m` hands back.
pub open spec fn taken<H>(m: Map<u32, H>, pid: u32) -> Option<H> {
    if m.contains_key(pid) {
        Some(m[pid])
    } else {
        None
    }
}

pub proof fn lemma_map_of_finite<H>(s: Seq<(u32, H)>)
    ensures
        map_of(s).dom().finite(),
    decreases s.len(),
{
    if s.len() > 0 {
        lemma_map_of_finite(s.drop_last());
    }
}

pub proof fn lemma_map_of_dom<H>(s: Seq<(u32, H)>, k: u32)
    ensures
        map_of(s).contains_key(k) <==> exists|i: int| 0 <= i < s.len() && s[i].0 == k,
    decreases s.len(),
{
    if s.len() > 0 {
        lemma_map_of_dom(s.drop_last(), k);
        if map_of(s).contains_key(k) && k != s.last().0 {
            let i = choose|i: int| 0 <= i < s.len() - 1 && s.drop_last()[i].0 == k;
            assert(s[i].0 == k);
        }
        if exists|i: int| 0 <= i < s.len() && s[i].0 == k {
            let i = choose|i: int| 0 <= i < s.len() && s[i].0 == k;
            if i < s.len() - 1 {
                assert(s.drop_last()[i].0 == k);
            }
        }
    }
}

pub proof fn lemma_map_of_value<H>(s: Seq<(u32, H)>, i: int)
    requires
        keys_unique(s),
        0 <= i < s.len(),
    ensures
        map_of(s).contains_key(s[i].0),
        map_of(s)[s[i].0] == s[i].1,
    decreases s.len(),
{
    if i < s.len() - 1 {
        assert(s.drop_last()[i] == s[i]);
        lemma_map_of_value(s.drop_last(), i);
    }
}

pub proof fn lemma_map_of_len<H>(s: Seq<(u32, H)>)
    requires
        keys_unique(s),
    ensures
        map_of(s).len() == s.len(),
    decreases s.len(),
{
    if s.len() > 0 {
        let t = s.drop_last();
        lemma_map_of_len(t);
        lemma_map_of_finite(t);
        lemma_map_of_dom(t, s.last().0);
        if map_of(t).contains_key(s.last().0) {
            let i = choose|i: int| 0 <= i < t.len() && t[i].0 == s.last().0;
            assert(s[i].0 == s[s.len() - 1].0);
        }
    }
}

pub proof fn lemma_map_of_remove<H>(s: Seq<(u32, H)>, i: int)
    requires
        keys_unique(s),
        0 <= i < s.len(),
    ensures
        keys_unique(s.remove(i)),
        map_of(s.remove(i)) == map_of(s).remove(s[i].0),
    decreases s.len(),
{
    let r = s.remove(i);
    assert(keys_unique(r)) by {
        assert forall|a: int, b: int| 0 <= a < b < r.len() implies r[a].0 != r[b].0 by {
            let a2 = if a < i { a } else { a + 1 };
            let b2 = if b < i { b } else { b + 1 };
            assert(r[a] == s[a2] && r[b] == s[b2]);
        }
    }
    if i == s.len() - 1 {
        assert(r =~= s.drop_last());
        lemma_map_of_dom(r, s[i].0);
        if map_of(r).contains_key(s[i].0) {
            let j = choose|j: int| 0 <= j < r.len() && r[j].0 == s[i].0;
            assert(s[j].0 == s[i].0);
        }
        assert(map_of(r) =~= map_of(s).remove(s[i].0));
    } else {
        let t = s.drop_last();
        lemma_map_of_remove(t, i);
        assert(r.drop_last() =~= t.remove(i));
        assert(r.last() == s.last());
        assert(s[i].0 != s.last().0);
        assert(map_of(r) =~= map_of(s).remove(s[i].0));
    }
}

/// Of two removals of one process id, only the first takes a handle: the
/// second finds the id gone and leaves the contents as they were.
pub proof fn lemma_first_remover_wins<H>(m: Map<u32, H>, pid: u32)
    ensures
        taken(m.remove(pid), pid) is None,
        m.remove(pid).remove(pid) == m.remove(pid),
{
    assert(m.remove(pid).remove(pid) =~= m.remove(pid));
}

/// The processes that are currently supervised, each under its process id.
pub struct Registry<H> {
    entries: Vec<(u32, H)>,
}

impl<H> View for Registry<H> {
    type V = Map<u32, H>;

    closed spec fn view(&self) -> Map<u32, H> {
        map_of(self.entries@)
    }
}

impl<H> Registry<H> {
    /// Each process id is held at most once.
    pub closed spec fn wf(&self) -> bool {
        keys_unique(self.entries@)
    }

    pub fn new() -> (r: Self)
        ensures
            r.wf(),
            r@ == Map::<u32, H>::empty(),
    {
        Registry { entries: Vec::new() }
    }

    fn position(&self, pid: u32) -> (r: Option<usize>)
        requires
            self.wf(),
        ensures
            match r {
                Some(i) => i < self.entries@.len() && self.entries@[i as int].0 == pid,
                None => !self@.contains_key(pid),
            },
    {
        let mut i: usize = 0;
        while i < self.entries.len()
            invariant
                i <= self.entries@.len(),
                forall|j: int| 0 <= j < i ==> self.entries@[j].0 != pid,
            decreases self.entries@.len() - i,
        {
            if self.entries[i].0 == pid {
                return Some(i);
            }
            i = i + 1;
        }
        proof {
            lemma_map_of_dom(self.entries@, pid);
        }
        None
    }

    /// Whether `pid` is supervised.
    pub fn contains(&self, pid: u32) -> (r: bool)
        requires
            self.wf(),
        ensures
            r == self@.contains_key(pid),
    {
        match self.position(pid) {
            Some(i) => {
                proof {
                    lemma_map_of_value(self.entries@, i as int);
                }
                true
            },
            None => false,
        }
    }

    /// The number of supervised processes.
    pub fn len(&self) -> (r: usize)
        requires
            self.wf(),
        ensures
            r == self@.len(),
            self@.dom().finite(),
    {
        proof {
            lemma_map_of_len(self.entries@);
            lemma_map_of_finite(self.entries@);
        }
        self.entries.len()
    }

    /// Adds the handle of a newly started process. A process id that is
    /// already supervised is a caller error: the operating system does not
    /// hand out one id to two live processes.
    pub fn insert(&mut self, pid: u32, handle: H)
        requires
            old(self).wf(),
            !old(self)@.contains_key(pid),
        ensures
            final(self).wf(),
            final(self)@ == old(self)@.insert(pid, handle),
            final(self)@.contains_key(pid),
            final(self)@.len() == old(self)@.len() + 1,
    {
        proof {
            lemma_map_of_dom(self.entries@, pid);
            lemma_map_of_finite(self.entries@);
        }
        let ghost before = self.entries@;
        self.entries.push((pid, handle));
        proof {
            assert(self.entries@.drop_last() =~= before);
        }
    }

    /// Takes the handle of `pid` out, if it is there. Of all the paths that
    /// remove one process id, only the first gets its handle.
    pub fn remove(&mut self, pid: u32) -> (r: Option<H>)
        requires
            old(self).wf(),
        ensures
            final(self).wf(),
            final(self)@ == old(self)@.remove(pid),
            r == taken(old(self)@, pid),
    {
        match self.position(pid) {
            Some(i) => {
                proof {
                    lemma_map_of_value(self.entries@, i as int);
                    lemma_map_of_remove(self.entries@, i as int);
                }
                let (_, h) = self.entries.remove(i);
                Some(h)
            },
            None => {
                proof {
                    assert(self@.remove(pid) =~= self@);
                }
                None
            },
        }
    }

    /// Empties the registry in one step and hands back every entry it held,
    /// each process id once.
    pub fn drain_all(&mut self) -> (r: Vec<(u32, H)>)
        requires
            old(self).wf(),
        ensures
            final(self).wf(),
            final(self)@ == Map::<u32, H>::empty(),
            keys_unique(r@),
            map_of(r@) == old(self)@,
    {
        let mut drained: Vec<(u32, H)> = Vec::new();
        std::mem::swap(&mut drained, &mut self.entries);
        drained
    }
}

} // verus!
