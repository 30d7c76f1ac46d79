use vstd::prelude::*;

verus! {

/// The map that a sequence of `(name, value)` pairs denotes when written in
/// order: a later pair with the same name replaces an earlier one.
pub open spec fn entries_map(s: Seq<(Seq<char>, Seq<char>)>) -> Map<Seq<char>, Seq<char>>
    decreases s.len(),
{
    if s.len() == 0 {
        Map::empty()
    } else {
        entries_map(s.drop_last()).insert(s.last().0, s.last().1)
    }
}

/// Header fields keyed by name, each name at most once; the last value
/// stored under a name wins.
pub struct HeaderMap {
    entries: Vec<(String, String)>,
}

impl HeaderMap {
    /// The pairs as stored, in the order their names were first inserted.
    pub closed spec fn pairs(&self) -> Seq<(Seq<char>, Seq<char>)> {
        self.entries@.map_values(|e: (String, String)| (e.0@, e.1@))
    }

    pub closed spec fn wf(&self) -> bool {
        forall|i: int, j: int|
            0 <= i < j < self.entries@.len() ==> self.entries@[i].0@ != self.entries@[j].0@
    }

    pub open spec fn unique_names(s: Seq<(Seq<char>, Seq<char>)>) -> bool {
        forall|i: int, j: int| 0 <= i < j < s.len() ==> s[i].0 != s[j].0
    }

    pub proof fn lemma_wf_unique(&self)
        requires
            self.wf(),
        ensures
            Self::unique_names(self.pairs()),
    {
        assert forall|i: int, j: int| 0 <= i < j < self.pairs().len() implies self.pairs()[i].0
            != self.pairs()[j].0 by {
            assert(self.entries@[i].0@ != self.entries@[j].0@);
        }
    }

    pub fn new() -> (m: HeaderMap)
        ensures
            m.wf(),
            m@ == Map::<Seq<char>, Seq<char>>::empty(),
            m.pairs().len() == 0,
    {
        let m = HeaderMap { entries: Vec::new() };
        assert(m.pairs() =~= Seq::<(Seq<char>, Seq<char>)>::empty());
        m
    }

    /// Number of distinct names held.
    pub fn len(&self) -> (n: usize)
        requires
            self.wf(),
        ensures
            n == self@.len(),
    {
        proof {
            lemma_entries_map_len(self.pairs());
        }
        self.entries.len()
    }

    /// Stores `value` under `name`, replacing what was stored there.
    pub fn insert(&mut self, name: String, value: String)
        requires
            old(self).wf(),
        ensures
            final(self).wf(),
            final(self)@ == old(self)@.insert(name@, value@),
            !old(self)@.contains_key(name@) ==> final(self).pairs() == old(self).pairs().push(
                (name@, value@),
            ),
    {
        let n = self.entries.len();
        let mut i: usize = 0;
        while i < n
            invariant
                n == self.entries@.len(),
                self.entries == old(self).entries,
                old(self).wf(),
                0 <= i <= n,
                forall|j: int| 0 <= j < i ==> self.entries@[j].0@ != name@,
            decreases n - i,
        {
            if self.entries[i].0 == name {
                let ghost before = self.pairs();
                let ghost nm = name@;
                let ghost vl = value@;
                self.entries.set(i, (name, value));
                proof {
                    assert(self.entries@[i as int].0@ == nm);
                    old(self).lemma_wf_unique();
                    lemma_entries_map_at(before, i as int);
                    assert(self.pairs() =~= before.update(i as int, (nm, vl)));
                    lemma_entries_map_update(before, i as int, nm, vl);
                }
                return;
            }
            i = i + 1;
        }
        let ghost before = self.pairs();
        let ghost pair = (name@, value@);
        proof {
            lemma_entries_map_absent(before, name@);
        }
        self.entries.push((name, value));
        proof {
            assert(self.pairs() =~= before.push(pair));
            assert(self.pairs().drop_last() =~= before);
        }
    }

    /// The value stored under `name`, if any.
    pub fn get(&self, name: &str) -> (r: Option<&String>)
        requires
            self.wf(),
        ensures
            r is Some <==> self@.contains_key(name@),
            r is Some ==> r.unwrap()@ == self@[name@],
    {
        let key = name.to_owned();
        let n = self.entries.len();
        let mut i: usize = 0;
        while i < n
            invariant
                n == self.entries@.len(),
                0 <= i <= n,
                key@ == name@,
                self.wf(),
                forall|j: int| 0 <= j < i ==> self.entries@[j].0@ != name@,
            decreases n - i,
        {
            if self.entries[i].0 == key {
                proof {
                    self.lemma_wf_unique();
                    lemma_entries_map_at(self.pairs(), i as int);
                }
                return Some(&self.entries[i].1);
            }
            i = i + 1;
        }
        proof {
            lemma_entries_map_absent(self.pairs(), name@);
        }
        None
    }

    /// The stored pairs, copied, in storage order.
    pub fn to_vec(&self) -> (v: Vec<(String, String)>)
        ensures
            v@.map_values(|e: (String, String)| (e.0@, e.1@)) == self.pairs(),
    {
        let mut v: Vec<(String, String)> = Vec::new();
        let n = self.entries.len();
        let mut i: usize = 0;
        while i < n
            invariant
                n == self.entries@.len(),
                0 <= i <= n,
                v@.len() == i,
                forall|j: int|
                    0 <= j < i ==> v@[j].0@ == self.entries@[j].0@ && v@[j].1@
                        == self.entries@[j].1@,
            decreases n - i,
        {
            let k = self.entries[i].0.clone();
            let x = self.entries[i].1.clone();
            v.push((k, x));
            i = i + 1;
        }
        assert(v@.map_values(|e: (String, String)| (e.0@, e.1@)) =~= self.pairs());
        v
    }
}

impl View for HeaderMap {
    type V = Map<Seq<char>, Seq<char>>;

    closed spec fn view(&self) -> Map<Seq<char>, Seq<char>> {
        entries_map(self.pairs())
    }
}

proof fn lemma_entries_map_absent(s: Seq<(Seq<char>, Seq<char>)>, k: Seq<char>)
    requires
        forall|j: int| 0 <= j < s.len() ==> s[j].0 != k,
    ensures
        !entries_map(s).contains_key(k),
    decreases s.len(),
{
    if s.len() > 0 {
        lemma_entries_map_absent(s.drop_last(), k);
    }
}

proof fn lemma_entries_map_at(s: Seq<(Seq<char>, Seq<char>)>, i: int)
    requires
        0 <= i < s.len(),
        HeaderMap::unique_names(s),
    ensures
        entries_map(s).contains_key(s[i].0),
        entries_map(s)[s[i].0] == s[i].1,
    decreases s.len(),
{
    if i < s.len() - 1 {
        lemma_entries_map_at(s.drop_last(), i);
    }
}

proof fn lemma_entries_map_len(s: Seq<(Seq<char>, Seq<char>)>)
    requires
        HeaderMap::unique_names(s),
    ensures
        entries_map(s).dom().finite(),
        entries_map(s).len() == s.len(),
    decreases s.len(),
{
    if s.len() > 0 {
        let t = s.drop_last();
        lemma_entries_map_len(t);
        lemma_entries_map_absent(t, s.last().0);
    }
}

proof fn lemma_entries_map_update(
    s: Seq<(Seq<char>, Seq<char>)>,
    i: int,
    k: Seq<char>,
    v: Seq<char>,
)
    requires
        0 <= i < s.len(),
        s[i].0 == k,
        HeaderMap::unique_names(s),
    ensures
        entries_map(s.update(i, (k, v))) == entries_map(s).insert(k, v),
    decreases s.len(),
{
    let u = s.update(i, (k, v));
    if i == s.len() - 1 {
        assert(u.drop_last() =~= s.drop_last());
        assert(entries_map(u) =~= entries_map(s).insert(k, v));
    } else {
        assert(u.drop_last() =~= s.drop_last().update(i, (k, v)));
        lemma_entries_map_update(s.drop_last(), i, k, v);
        assert(s.last().0 != k);
        assert(entries_map(u) =~= entries_map(s).insert(k, v));
    }
}

} // verus!
