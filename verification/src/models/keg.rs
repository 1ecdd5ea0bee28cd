use vstd::prelude::*;

verus! {

/// A keyed mapping from identity key to unit, used uniformly for catalogs,
/// installed sets and evidence collections. Keys are exact, case-sensitive
/// strings; a store never holds two entries under the same key, and inserting
/// under an existing key overwrites.
#[derive(Debug)]
pub struct Store<V> {
    pub entries: Vec<(String, V)>,
}

/// The mapping described by a sequence of key/value pairs; a later pair under
/// the same key overrides an earlier one.
pub open spec fn entries_map<V>(s: Seq<(String, V)>) -> Map<Seq<char>, V>
    decreases s.len(),
{
    if s.len() == 0 {
        Map::empty()
    } else {
        entries_map(s.drop_last()).insert(s.last().0@, s.last().1)
    }
}

pub proof fn lemma_entries_map_contains<V>(s: Seq<(String, V)>, k: Seq<char>)
    ensures
        entries_map(s).contains_key(k) <==> exists|i: int| 0 <= i < s.len() && s[i].0@ == k,
    decreases s.len(),
{
    if s.len() == 0 {
    } else {
        lemma_entries_map_contains(s.drop_last(), k);
        if s.last().0@ == k {
            assert(s[s.len() - 1].0@ == k);
        } else {
            if exists|i: int| 0 <= i < s.len() && s[i].0@ == k {
                let i = choose|i: int| 0 <= i < s.len() && s[i].0@ == k;
                assert(s.drop_last()[i].0@ == k);
            }
            if exists|i: int| 0 <= i < s.drop_last().len() && s.drop_last()[i].0@ == k {
                let i = choose|i: int| 0 <= i < s.drop_last().len() && s.drop_last()[i].0@ == k;
                assert(s[i].0@ == k);
            }
        }
    }
}

pub proof fn lemma_entries_map_index<V>(s: Seq<(String, V)>, i: int)
    requires
        0 <= i < s.len(),
        forall|x: int, y: int| 0 <= x < y < s.len() ==> s[x].0@ != s[y].0@,
    ensures
        entries_map(s).contains_key(s[i].0@),
        entries_map(s)[s[i].0@] == s[i].1,
    decreases s.len(),
{
    if i == s.len() - 1 {
    } else {
        lemma_entries_map_index(s.drop_last(), i);
        assert(s.drop_last()[i] == s[i]);
        assert(s.last().0@ != s[i].0@);
    }
}

pub proof fn lemma_entries_map_remove<V>(s: Seq<(String, V)>, i: int)
    requires
        0 <= i < s.len(),
        forall|x: int, y: int| 0 <= x < y < s.len() ==> s[x].0@ != s[y].0@,
    ensures
        entries_map(s.remove(i)) == entries_map(s).remove(s[i].0@),
    decreases s.len(),
{
    let k = s[i].0@;
    if i == s.len() - 1 {
        assert(s.remove(i) =~= s.drop_last());
        lemma_entries_map_contains(s.drop_last(), k);
        assert(!entries_map(s.drop_last()).contains_key(k));
        assert(entries_map(s).remove(k) =~= entries_map(s.drop_last()));
    } else {
        lemma_entries_map_remove(s.drop_last(), i);
        assert(s.remove(i).drop_last() =~= s.drop_last().remove(i));
        assert(s.remove(i).last() == s.last());
        assert(entries_map(s.remove(i)) == entries_map(s.drop_last().remove(i)).insert(
            s.last().0@,
            s.last().1,
        ));
        assert(s.last().0@ != k);
        assert(entries_map(s.drop_last()).remove(k).insert(s.last().0@, s.last().1)
            =~= entries_map(s.drop_last()).insert(s.last().0@, s.last().1).remove(k));
    }
}

/// The keys of the first `n` pairs, as a set.
pub open spec fn key_set_upto<V>(s: Seq<(String, V)>, n: int) -> Set<Seq<char>> {
    Set::new(|k: Seq<char>| exists|j: int| 0 <= j < n && s[j].0@ == k)
}

pub proof fn lemma_key_set_full<V>(s: Seq<(String, V)>)
    ensures
        key_set_upto(s, s.len() as int) == entries_map(s).dom(),
{
    assert forall|k: Seq<char>|
        key_set_upto(s, s.len() as int).contains(k) == entries_map(s).dom().contains(k) by {
        lemma_entries_map_contains(s, k);
    }
    assert(key_set_upto(s, s.len() as int) =~= entries_map(s).dom());
}

impl<V> View for Store<V> {
    type V = Map<Seq<char>, V>;

    open spec fn view(&self) -> Map<Seq<char>, V> {
        entries_map(self.entries@)
    }
}

impl<V: DeepView> DeepView for Store<V> {
    type V = Map<Seq<char>, V::V>;

    open spec fn deep_view(&self) -> Map<Seq<char>, V::V> {
        Map::new(
            |k: Seq<char>| self@.contains_key(k),
            |k: Seq<char>| self@[k].deep_view(),
        )
    }
}

impl<V> Store<V> {
    /// No two entries share a key.
    pub open spec fn wf(self) -> bool {
        forall|i: int, j: int|
            0 <= i < j < self.entries@.len() ==> self.entries@[i].0@ != self.entries@[j].0@
    }

    pub fn new() -> (r: Self)
        ensures
            r@ == Map::<Seq<char>, V>::empty(),
            r.wf(),
            r.entries@.len() == 0,
    {
        Store { entries: Vec::new() }
    }

    pub fn len(&self) -> (r: usize)
        ensures
            r == self.entries@.len(),
    {
        self.entries.len()
    }

    pub fn is_empty(&self) -> (r: bool)
        requires
            self.wf(),
        ensures
            r <==> self@ == Map::<Seq<char>, V>::empty(),
    {
        proof {
            lemma_entries_map_contains(self.entries@, self.entries@[0].0@);
            if self.entries@.len() > 0 {
                assert(self@.contains_key(self.entries@[0].0@));
            }
        }
        self.entries.len() == 0
    }

    pub fn contains_key(&self, name: &String) -> (r: bool)
        requires
            self.wf(),
        ensures
            r == self@.contains_key(name@),
    {
        let n = self.entries.len();
        for i in 0..n
            invariant
                n == self.entries@.len(),
                forall|j: int| 0 <= j < i ==> self.entries@[j].0@ != name@,
        {
            if self.entries[i].0 == *name {
                proof {
                    lemma_entries_map_contains(self.entries@, name@);
                }
                return true;
            }
        }
        proof {
            lemma_entries_map_contains(self.entries@, name@);
        }
        false
    }

    pub fn get(&self, name: &String) -> (r: Option<&V>)
        requires
            self.wf(),
        ensures
            match r {
                Some(v) => self@.contains_key(name@) && *v == self@[name@],
                None => !self@.contains_key(name@),
            },
    {
        proof {
            lemma_entries_map_contains(self.entries@, name@);
        }
        let n = self.entries.len();
        for i in 0..n
            invariant
                n == self.entries@.len(),
                self.wf(),
                forall|j: int| 0 <= j < i ==> self.entries@[j].0@ != name@,
        {
            if self.entries[i].0 == *name {
                proof {
                    lemma_entries_map_index(self.entries@, i as int);
                }
                return Some(&self.entries[i].1);
            }
        }
        None
    }

    /// The keys, in store order.
    pub fn keys(&self) -> (r: Vec<String>)
        ensures
            r.deep_view() == self.entries@.map_values(|p: (String, V)| p.0@),
    {
        let mut out: Vec<String> = Vec::new();
        let n = self.entries.len();
        proof {
            assert(out.deep_view() =~= self.entries@.take(0).map_values(|p: (String, V)| p.0@));
        }
        for i in 0..n
            invariant
                n == self.entries@.len(),
                out.deep_view() == self.entries@.take(i as int).map_values(
                    |p: (String, V)| p.0@,
                ),
        {
            let ghost o0 = out.deep_view();
            let key = self.entries[i].0.clone();
            let ghost kv = key@;
            out.push(key);
            proof {
                let dv = out.deep_view();
                let target = self.entries@.take(i + 1).map_values(|p: (String, V)| p.0@);
                assert(self.entries@.take(i + 1).len() == i + 1);
                assert(target.len() == i + 1);
                assert(self.entries@.take(i as int).len() == i as int);
                assert(o0.len() == i as int);
                assert(dv.len() == target.len());
                assert forall|j: int| 0 <= j < dv.len() implies dv[j] == target[j] by {
                    if j < dv.len() - 1 {
                        assert(dv[j] == o0[j]);
                        assert(self.entries@.take(i + 1)[j] == self.entries@.take(i as int)[j]);
                    } else {
                        assert(out@[j] == out@.last());
                        assert(dv[j] == kv);
                        assert(self.entries@.take(i + 1)[j] == self.entries@[i as int]);
                    }
                }
                assert(dv =~= target);
            }
        }
        proof {
            assert(self.entries@.take(n as int) =~= self.entries@);
        }
        out
    }

    /// Inserts under the given key, overwriting any entry already there.
    pub fn insert(&mut self, name: String, value: V)
        requires
            old(self).wf(),
        ensures
            final(self)@ == old(self)@.insert(name@, value),
            final(self).wf(),
    {
        let ghost s0 = self.entries@;
        proof {
            lemma_entries_map_contains(s0, name@);
        }
        let n = self.entries.len();
        let mut i: usize = 0;
        while i < n
            invariant
                n == self.entries@.len(),
                self.entries@ == s0,
                s0 == old(self).entries@,
                self.wf(),
                i <= n,
                forall|j: int| 0 <= j < i ==> self.entries@[j].0@ != name@,
            decreases n - i,
        {
            if self.entries[i].0 == *&name {
                let _ = self.entries.remove(i);
                proof {
                    lemma_entries_map_remove(s0, i as int);
                }
                self.entries.push((name, value));
                proof {
                    assert(self.entries@.drop_last() =~= s0.remove(i as int));
                    assert(self@ == entries_map(s0.remove(i as int)).insert(name@, value));
                    assert(self@ =~= entries_map(s0).insert(name@, value));
                    let s1 = self.entries@;
                    assert forall|x: int, y: int|
                        0 <= x < y < s1.len() implies s1[x].0@ != s1[y].0@ by {
                        if y < s1.len() - 1 {
                            assert(s1[x] == s0.remove(i as int)[x]);
                            assert(s1[y] == s0.remove(i as int)[y]);
                        } else {
                            assert(s1[y].0@ == name@);
                            assert(s1[x] == s0.remove(i as int)[x]);
                            if x < i {
                                assert(s0.remove(i as int)[x] == s0[x]);
                            } else {
                                assert(s0.remove(i as int)[x] == s0[x + 1]);
                            }
                        }
                    }
                }
                return ;
            }
            i = i + 1;
        }
        self.entries.push((name, value));
        proof {
            assert(self.entries@.drop_last() =~= s0);
            assert(self@ =~= entries_map(s0).insert(name@, value));
            let s1 = self.entries@;
            assert forall|x: int, y: int|
                0 <= x < y < s1.len() implies s1[x].0@ != s1[y].0@ by {
                if y < s1.len() - 1 {
                    assert(s1[x] == s0[x]);
                    assert(s1[y] == s0[y]);
                } else {
                    assert(s1[y].0@ == name@);
                    assert(s1[x] == s0[x]);
                }
            }
        }
    }

    /// Removes the entry under the given key, returning its value.
    pub fn remove(&mut self, name: &String) -> (r: Option<V>)
        requires
            old(self).wf(),
        ensures
            final(self)@ == old(self)@.remove(name@),
            final(self).wf(),
            match r {
                Some(v) => old(self)@.contains_key(name@) && v == old(self)@[name@],
                None => !old(self)@.contains_key(name@),
            },
    {
        let ghost s0 = self.entries@;
        proof {
            lemma_entries_map_contains(s0, name@);
        }
        let n = self.entries.len();
        let mut i: usize = 0;
        while i < n
            invariant
                n == self.entries@.len(),
                self.entries@ == s0,
                s0 == old(self).entries@,
                self.wf(),
                i <= n,
                forall|j: int| 0 <= j < i ==> self.entries@[j].0@ != name@,
            decreases n - i,
        {
            if self.entries[i].0 == *name {
                proof {
                    lemma_entries_map_index(s0, i as int);
                    lemma_entries_map_remove(s0, i as int);
                }
                let pair = self.entries.remove(i);
                proof {
                    let s1 = self.entries@;
                    assert forall|x: int, y: int|
                        0 <= x < y < s1.len() implies s1[x].0@ != s1[y].0@ by {
                        if x < i {
                            assert(s1[x] == s0[x]);
                        } else {
                            assert(s1[x] == s0[x + 1]);
                        }
                        if y < i {
                            assert(s1[y] == s0[y]);
                        } else {
                            assert(s1[y] == s0[y + 1]);
                        }
                    }
                }
                return Some(pair.1);
            }
            i = i + 1;
        }
        proof {
            assert(!old(self)@.contains_key(name@));
            assert(old(self)@.remove(name@) =~= old(self)@);
        }
        None
    }
}

/// The catalog view and the installed view of one unit kind, consistently
/// keyed: the merge step only ever files installed units under keys that the
/// catalog side also holds.
#[derive(Debug)]
pub struct State<Regular, Installed> {
    pub all: Store<Regular>,
    pub installed: Store<Installed>,
}

/// A list of strings with later duplicates dropped: what inserting each in
/// turn into an initially empty set leaves.
pub open spec fn dedup(s: Seq<Seq<char>>) -> Seq<Seq<char>>
    decreases s.len(),
{
    if s.len() == 0 {
        Seq::empty()
    } else {
        let d = dedup(s.drop_last());
        if d.contains(s.last()) {
            d
        } else {
            d.push(s.last())
        }
    }
}

pub proof fn lemma_dedup_of_distinct(s: Seq<Seq<char>>)
    requires
        forall|i: int, j: int| 0 <= i < j < s.len() ==> s[i] != s[j],
    ensures
        dedup(s) == s,
    decreases s.len(),
{
    if s.len() == 0 {
        assert(dedup(s) =~= s);
    } else {
        lemma_dedup_of_distinct(s.drop_last());
        if s.drop_last().contains(s.last()) {
            let i = choose|i: int| 0 <= i < s.drop_last().len() && s.drop_last()[i] == s.last();
            assert(s[i] == s[s.len() - 1]);
            assert(false);
        }
        assert(dedup(s) =~= s);
    }
}

/// A set of exact strings: at most one copy of each, order of first insertion
/// kept. Stands where the manager reports an unordered collection of names,
/// such as provided executables, aliases or installed version directories.
#[derive(Debug)]
pub struct StringSet {
    pub items: Vec<String>,
}

impl View for StringSet {
    type V = Seq<Seq<char>>;

    open spec fn view(&self) -> Seq<Seq<char>> {
        self.items.deep_view()
    }
}

impl DeepView for StringSet {
    type V = Seq<Seq<char>>;

    open spec fn deep_view(&self) -> Seq<Seq<char>> {
        self.items.deep_view()
    }
}

impl Clone for StringSet {
    fn clone(&self) -> (r: Self)
        ensures
            r@ == self@,
    {
        let items = self.items.clone();
        proof {
            assert(items@ =~= self.items@);
        }
        let r = StringSet { items };
        proof {
            assert(r@ =~= self@);
        }
        r
    }
}

impl StringSet {
    /// The members, as a mathematical set.
    pub open spec fn as_set(self) -> Set<Seq<char>> {
        Set::new(|k: Seq<char>| self@.contains(k))
    }

    /// No member occurs twice.
    pub open spec fn wf(self) -> bool {
        forall|i: int, j: int| 0 <= i < j < self@.len() ==> self@[i] != self@[j]
    }

    pub fn new() -> (r: Self)
        ensures
            r@ == Seq::<Seq<char>>::empty(),
            r.as_set() == Set::<Seq<char>>::empty(),
            r.wf(),
    {
        let r = StringSet { items: Vec::new() };
        proof {
            assert(r.as_set() =~= Set::<Seq<char>>::empty());
        }
        r
    }

    pub fn len(&self) -> (r: usize)
        ensures
            r == self@.len(),
    {
        self.items.len()
    }

    pub fn is_empty(&self) -> (r: bool)
        ensures
            r <==> self@.len() == 0,
    {
        self.items.len() == 0
    }

    pub fn contains(&self, name: &String) -> (r: bool)
        ensures
            r == self.as_set().contains(name@),
    {
        let n = self.items.len();
        for i in 0..n
            invariant
                n == self.items@.len(),
                forall|j: int| 0 <= j < i ==> self@[j] != name@,
        {
            if self.items[i] == *name {
                proof {
                    assert(self@[i as int] == name@);
                }
                return true;
            }
        }
        proof {
            if self.as_set().contains(name@) {
                let i = choose|i: int| 0 <= i < self@.len() && self@[i] == name@;
                assert(false);
            }
        }
        false
    }


    /// Collects a list of strings into a set, dropping later duplicates.
    pub fn from_items(items: Vec<String>) -> (r: StringSet)
        ensures
            r@ == dedup(items.deep_view()),
            r.wf(),
    {
        let mut r = StringSet::new();
        let n = items.len();
        for i in 0..n
            invariant
                n == items@.len(),
                r.wf(),
                r@ == dedup(items.deep_view().take(i as int)),
        {
            let ghost d0 = r@;
            let ghost taken = items.deep_view().take(i as int);
            proof {
                assert(items.deep_view().take(i + 1).drop_last() =~= taken);
                assert(items.deep_view().take(i + 1).last() == items@[i as int]@);
                if d0.contains(items@[i as int]@) {
                    let j = choose|j: int| 0 <= j < d0.len() && d0[j] == items@[i as int]@;
                    assert(r.as_set().contains(items@[i as int]@));
                }
                if r.as_set().contains(items@[i as int]@) {
                    assert(d0.contains(items@[i as int]@));
                }
            }
            r.insert(items[i].clone());
        }
        proof {
            assert(items.deep_view().take(n as int) =~= items.deep_view());
        }
        r
    }

    /// Adds a member; adding one already present leaves the set unchanged.
    pub fn insert(&mut self, name: String)
        requires
            old(self).wf(),
        ensures
            final(self).as_set() == old(self).as_set().insert(name@),
            final(self).wf(),
            old(self).as_set().contains(name@) ==> final(self)@ == old(self)@,
            !old(self).as_set().contains(name@) ==> final(self)@ == old(self)@.push(name@),
    {
        if !self.contains(&name) {
            let ghost s0 = self@;
            self.items.push(name);
            proof {
                assert(self@ =~= s0.push(name@));
                assert forall|k: Seq<char>|
                    self.as_set().contains(k) == old(self).as_set().insert(name@).contains(
                        k,
                    ) by {
                    if self.as_set().contains(k) {
                        let i = choose|i: int| 0 <= i < self@.len() && self@[i] == k;
                        if i < s0.len() {
                            assert(s0[i] == k);
                        } else {
                            assert(k == name@);
                        }
                    }
                    if old(self).as_set().contains(k) {
                        let i = choose|i: int| 0 <= i < s0.len() && s0[i] == k;
                        assert(self@[i] == k);
                    }
                    if k == name@ {
                        assert(self@[s0.len() as int] == name@);
                    }
                }
                assert(self.as_set() =~= old(self).as_set().insert(name@));
                assert forall|i: int, j: int|
                    0 <= i < j < self@.len() implies self@[i] != self@[j] by {
                    if j < s0.len() {
                        assert(s0[i] == self@[i] && s0[j] == self@[j]);
                    } else {
                        assert(self@[j] == name@);
                        assert(s0[i] == self@[i]);
                        assert(!old(self).as_set().contains(name@));
                    }
                }
            }
        } else {
            proof {
                assert(self.as_set() =~= old(self).as_set().insert(name@));
            }
        }
    }
}

} // verus!
