use vstd::prelude::*;

verus! {

/// A value held by the settings store. Decimal values are kept as their
/// IEEE-754 single-precision bit pattern.
#[derive(Clone, Debug)]
pub enum SettingValue {
    Bool(bool),
    Int(i32),
    Float(u32),
    Text(String),
}

/// The mathematical form of a `SettingValue`.
pub enum SettingView {
    Bool(bool),
    Int(i32),
    Float(u32),
    Text(Seq<char>),
}

impl View for SettingValue {
    type V = SettingView;

    open spec fn view(&self) -> SettingView {
        match self {
            SettingValue::Bool(b) => SettingView::Bool(*b),
            SettingValue::Int(i) => SettingView::Int(*i),
            SettingValue::Float(f) => SettingView::Float(*f),
            SettingValue::Text(s) => SettingView::Text(s@),
        }
    }
}

impl SettingValue {
    /// Copies the value, keeping what it means.
    pub fn duplicate(&self) -> (r: SettingValue)
        ensures
            r@ == self@,
    {
        match self {
            SettingValue::Bool(b) => SettingValue::Bool(*b),
            SettingValue::Int(i) => SettingValue::Int(*i),
            SettingValue::Float(f) => SettingValue::Float(*f),
            SettingValue::Text(s) => SettingValue::Text(s.clone()),
        }
    }
}

/// The value that the latest entry for `key` holds, if any.
pub open spec fn lookup(entries: Seq<(Seq<char>, SettingView)>, key: Seq<char>) -> Option<SettingView>
    decreases entries.len(),
{
    if entries.len() == 0 {
        None
    } else if entries.last().0 == key {
        Some(entries.last().1)
    } else {
        lookup(entries.drop_last(), key)
    }
}

/// No key occurs twice.
pub open spec fn keys_unique(entries: Seq<(Seq<char>, SettingView)>) -> bool {
    forall|i: int, j: int|
        0 <= i < j < entries.len() ==> #[trigger] entries[i].0 != #[trigger] entries[j].0
}

/// A key-value settings store, the single source of truth for persisted state.
pub struct Settings {
    entries: Vec<(String, SettingValue)>,
}

impl Settings {
    /// The entries, as keys and values.
    pub closed spec fn entries_view(&self) -> Seq<(Seq<char>, SettingView)> {
        self.entries@.map_values(|e: (String, SettingValue)| (e.0@, e.1@))
    }

    /// What the store holds under `key`.
    pub open spec fn value_at(&self, key: Seq<char>) -> Option<SettingView> {
        lookup(self.entries_view(), key)
    }

    pub closed spec fn wf(&self) -> bool {
        keys_unique(self.entries_view())
    }

    /// An empty store.
    pub fn new() -> (r: Settings)
        ensures
            r.wf(),
            forall|k: Seq<char>| r.value_at(k) is None,
    {
        let r = Settings { entries: Vec::new() };
        assert(r.entries_view().len() == 0);
        r
    }

    /// The value held under `key`, if any.
    pub fn get(&self, key: &String) -> (r: Option<SettingValue>)
        requires
            self.wf(),
        ensures
            match r {
                Some(v) => self.value_at(key@) == Some(v@),
                None => self.value_at(key@) is None,
            },
    {
        match self.find(key) {
            Some(i) => {
                assert(self.entries_view()[i as int].1 == self.entries@[i as int].1@);
                Some(self.entries[i].1.duplicate())
            },
            None => {
                proof {
                    lemma_lookup_absent(self.entries_view(), key@);
                }
                None
            },
        }
    }

    /// Stores `value` under `key`, replacing what was there.
    pub fn set(&mut self, key: &String, value: SettingValue)
        requires
            old(self).wf(),
        ensures
            final(self).wf(),
            forall|k: Seq<char>|
                #[trigger] final(self).value_at(k) == if k == key@ {
                    Some(value@)
                } else {
                    old(self).value_at(k)
                },
    {
        let ghost before = self.entries_view();
        let ghost v = value@;
        match self.find(key) {
            Some(i) => {
                self.entries.set(i, (key.clone(), value));
                proof {
                    assert(self.entries_view() =~= before.update(i as int, (key@, v)));
                    lemma_lookup_update(before, i as int, key@, v);
                }
            },
            None => {
                self.entries.push((key.clone(), value));
                proof {
                    assert(self.entries_view() =~= before.push((key@, v)));
                    assert(self.entries_view().drop_last() =~= before);
                    lemma_lookup_absent(before, key@);
                }
            },
        }
    }

    /// Where `key` stands among the entries.
    fn find(&self, key: &String) -> (r: Option<usize>)
        requires
            self.wf(),
        ensures
            match r {
                Some(i) => i < self.entries@.len() && self.entries_view()[i as int].0 == key@
                    && self.value_at(key@) == Some(self.entries_view()[i as int].1),
                None => forall|j: int|
                    0 <= j < self.entries_view().len() ==> #[trigger] self.entries_view()[j].0
                        != key@,
            },
    {
        let mut i: usize = 0;
        while i < self.entries.len()
            invariant
                self.wf(),
                i <= self.entries@.len(),
                forall|j: int| 0 <= j < i ==> #[trigger] self.entries_view()[j].0 != key@,
            decreases self.entries@.len() - i,
        {
            assert(self.entries_view()[i as int] == (self.entries@[i as int].0@, self.entries@[i as int].1@));
            if self.entries[i].0.eq(key) {
                proof {
                    lemma_lookup_at(self.entries_view(), i as int);
                }
                return Some(i);
            }
            i = i + 1;
        }
        None
    }
}

proof fn lemma_lookup_at(s: Seq<(Seq<char>, SettingView)>, i: int)
    requires
        keys_unique(s),
        0 <= i < s.len(),
    ensures
        lookup(s, s[i].0) == Some(s[i].1),
    decreases s.len(),
{
    if i != s.len() - 1 {
        assert(s[i].0 != s[s.len() - 1].0);
        assert(s.drop_last()[i] == s[i]);
        lemma_lookup_at(s.drop_last(), i);
    }
}

proof fn lemma_lookup_absent(s: Seq<(Seq<char>, SettingView)>, k: Seq<char>)
    requires
        forall|j: int| 0 <= j < s.len() ==> #[trigger] s[j].0 != k,
    ensures
        lookup(s, k) is None,
    decreases s.len(),
{
    if s.len() > 0 {
        assert(s[s.len() - 1].0 != k);
        assert forall|j: int| 0 <= j < s.drop_last().len() implies #[trigger] s.drop_last()[j].0
            != k by {
            assert(s.drop_last()[j] == s[j]);
        }
        lemma_lookup_absent(s.drop_last(), k);
    }
}

proof fn lemma_lookup_update(s: Seq<(Seq<char>, SettingView)>, i: int, k: Seq<char>, v: SettingView)
    requires
        keys_unique(s),
        0 <= i < s.len(),
        s[i].0 == k,
    ensures
        keys_unique(s.update(i, (k, v))),
        forall|q: Seq<char>|
            #[trigger] lookup(s.update(i, (k, v)), q) == if q == k {
                Some(v)
            } else {
                lookup(s, q)
            },
    decreases s.len(),
{
    let t = s.update(i, (k, v));
    assert forall|a: int, b: int| 0 <= a < b < t.len() implies #[trigger] t[a].0 != #[trigger] t[b].0 by {
        assert(s[a].0 != s[b].0);
    }
    if i == s.len() - 1 {
        assert(t.drop_last() =~= s.drop_last());
        assert(t.last() == (k, v));
        assert(s.last().0 == k);
        assert forall|q: Seq<char>| #[trigger] lookup(t, q) == if q == k { Some(v) } else { lookup(s, q) } by {
            if q != k {
                assert(lookup(t, q) == lookup(t.drop_last(), q));
                assert(lookup(s, q) == lookup(s.drop_last(), q));
            }
        }
    } else {
        assert(t.drop_last() =~= s.drop_last().update(i, (k, v)));
        assert(s.drop_last()[i] == s[i]);
        assert(s[s.len() - 1].0 != k);
        lemma_lookup_update(s.drop_last(), i, k, v);
        assert forall|q: Seq<char>| #[trigger] lookup(t, q) == if q == k { Some(v) } else { lookup(s, q) } by {
            assert(t.last() == s.last());
            if t.last().0 != q {
                assert(lookup(t, q) == lookup(t.drop_last(), q));
                assert(lookup(s, q) == lookup(s.drop_last(), q));
                assert(lookup(t.drop_last(), q) == if q == k { Some(v) } else { lookup(s.drop_last(), q) });
            }
        }
    }
}

} // verus!
