use vstd::prelude::*;

verus! {

/// The fields of one pool: a mapping from field name to field value.
///
/// Names are unique; inserting under an existing name overwrites its value.
#[derive(Debug)]
pub struct FieldMap {
    entries: Vec<(String, String)>,
}

/// No two entries carry the same name.
pub open spec fn distinct_names(s: Seq<(String, String)>) -> bool {
    forall|i: int, j: int| 0 <= i < j < s.len() ==> (#[trigger] s[i]).0@ != (#[trigger] s[j]).0@
}

/// Some entry carries the name `k`.
pub open spec fn has_name(s: Seq<(String, String)>, k: Seq<char>) -> bool {
    exists|i: int| 0 <= i < s.len() && (#[trigger] s[i]).0@ == k
}

/// The index of an entry that carries the name `k`, if there is one.
pub open spec fn slot_of(s: Seq<(String, String)>, k: Seq<char>) -> int {
    choose|i: int| 0 <= i < s.len() && (#[trigger] s[i]).0@ == k
}

/// The mapping that a list of entries with distinct names stands for.
pub open spec fn mapping_of(s: Seq<(String, String)>) -> Map<Seq<char>, Seq<char>> {
    Map::new(|k: Seq<char>| has_name(s, k), |k: Seq<char>| s[slot_of(s, k)].1@)
}

/// In a list with distinct names, the entry at `i` is the one found under its name.
pub proof fn lemma_slot_of_entry(s: Seq<(String, String)>, i: int)
    requires
        distinct_names(s),
        0 <= i < s.len(),
    ensures
        has_name(s, s[i].0@),
        slot_of(s, s[i].0@) == i,
        mapping_of(s).contains_key(s[i].0@),
        mapping_of(s)[s[i].0@] == s[i].1@,
{
    let k = s[i].0@;
    assert(has_name(s, k));
    let j = slot_of(s, k);
    assert(0 <= j < s.len() && s[j].0@ == k);
    if j < i {
        assert(s[j].0@ != s[i].0@);
    }
    if i < j {
        assert(s[i].0@ != s[j].0@);
    }
}

/// The mapping of a list has as many keys as the list has entries.
pub proof fn lemma_mapping_len(s: Seq<(String, String)>)
    requires
        distinct_names(s),
    ensures
        mapping_of(s).dom().finite(),
        mapping_of(s).dom().len() == s.len(),
    decreases s.len(),
{
    if s.len() == 0 {
        assert(mapping_of(s).dom() =~= Set::<Seq<char>>::empty());
    } else {
        let t = s.drop_last();
        let k = s.last().0@;
        assert(distinct_names(t)) by {
            assert forall|i: int, j: int| 0 <= i < j < t.len() implies (#[trigger] t[i]).0@ != (
            #[trigger] t[j]).0@ by {
                assert(t[i] == s[i] && t[j] == s[j]);
            }
        }
        lemma_mapping_len(t);
        assert(!mapping_of(t).dom().contains(k)) by {
            if has_name(t, k) {
                let j = slot_of(t, k);
                assert(t[j] == s[j]);
                assert(s[j].0@ != s[s.len() - 1].0@);
            }
        }
        assert(mapping_of(s).dom() =~= mapping_of(t).dom().insert(k)) by {
            assert forall|q: Seq<char>| mapping_of(s).dom().contains(q) <==> mapping_of(
                t,
            ).dom().insert(k).contains(q) by {
                if has_name(s, q) {
                    let j = slot_of(s, q);
                    if j < t.len() {
                        assert(t[j] == s[j]);
                    }
                }
                if has_name(t, q) {
                    let j = slot_of(t, q);
                    assert(t[j] == s[j]);
                }
                if q == k {
                    assert(s[s.len() - 1].0@ == k);
                }
            }
        }
    }
}

impl View for FieldMap {
    type V = Map<Seq<char>, Seq<char>>;

    closed spec fn view(&self) -> Map<Seq<char>, Seq<char>> {
        mapping_of(self.entries@)
    }
}

impl FieldMap {
    /// The invariant of the type: names are unique.
    pub closed spec fn wf(&self) -> bool {
        distinct_names(self.entries@)
    }

    /// A well-formed field map has finitely many names.
    pub proof fn lemma_finite(&self)
        requires
            self.wf(),
        ensures
            self@.dom().finite(),
    {
        lemma_mapping_len(self.entries@);
    }

    /// The empty field map.
    pub fn new() -> (r: FieldMap)
        ensures
            r.wf(),
            r@ == Map::<Seq<char>, Seq<char>>::empty(),
    {
        let r = FieldMap { entries: Vec::new() };
        assert(r@ =~= Map::<Seq<char>, Seq<char>>::empty());
        r
    }

    fn position(&self, name: &String) -> (r: Option<usize>)
        ensures
            match r {
                Some(i) => i < self.entries@.len() && self.entries@[i as int].0@ == name@,
                None => !has_name(self.entries@, name@),
            },
    {
        let mut i: usize = 0;
        while i < self.entries.len()
            invariant
                i <= self.entries@.len(),
                forall|j: int| 0 <= j < i ==> (#[trigger] self.entries@[j]).0@ != name@,
            decreases self.entries@.len() - i,
        {
            if self.entries[i].0 == *name {
                return Some(i);
            }
            i += 1;
        }
        None
    }

    /// The value stored under `name`, if there is one.
    pub fn get(&self, name: &String) -> (r: Option<String>)
        requires
            self.wf(),
        ensures
            match r {
                Some(v) => self@.contains_key(name@) && self@[name@] == v@,
                None => !self@.contains_key(name@),
            },
    {
        match self.position(name) {
            Some(i) => {
                proof {
                    lemma_slot_of_entry(self.entries@, i as int);
                }
                Some(self.entries[i].1.clone())
            },
            None => None,
        }
    }

    /// Whether a value is stored under `name`.
    pub fn contains(&self, name: &String) -> (r: bool)
        ensures
            r == self@.contains_key(name@),
    {
        self.position(name).is_some()
    }

    /// The number of names.
    pub fn len(&self) -> (r: usize)
        requires
            self.wf(),
        ensures
            r == self@.dom().len(),
    {
        proof {
            lemma_mapping_len(self.entries@);
        }
        self.entries.len()
    }

    /// Stores `value` under `name`, overwriting what was there.
    pub fn insert(&mut self, name: String, value: String)
        requires
            old(self).wf(),
        ensures
            final(self).wf(),
            final(self)@ == old(self)@.insert(name@, value@),
    {
        let ghost before = self.entries@;
        let ghost k = name@;
        let ghost v = value@;
        let found = self.position(&name);
        match found {
            Some(i) => {
                self.entries[i] = (name, value);
            },
            None => {
                self.entries.push((name, value));
            },
        }
        proof {
            let after = self.entries@;
            let at: int = match found {
                Some(i) => i as int,
                None => before.len() as int,
            };
            assert(after.len() > at && after[at].0@ == k && after[at].1@ == v);
            assert(forall|j: int| 0 <= j < after.len() && j != at ==> after[j] == before[j]);
            assert(distinct_names(after)) by {
                assert forall|a: int, b: int| 0 <= a < b < after.len() implies (
                #[trigger] after[a]).0@ != (#[trigger] after[b]).0@ by {
                    if a != at {
                        assert(after[a] == before[a]);
                    }
                    if b != at {
                        assert(after[b] == before[b]);
                    }
                    if found is Some {
                        assert(before[a].0@ != before[b].0@);
                    }
                }
            }
            lemma_slot_of_entry(after, at);
            assert forall|q: Seq<char>| q != k implies (has_name(after, q) <==> has_name(
                before,
                q,
            )) by {
                if has_name(after, q) {
                    let j = slot_of(after, q);
                    assert(after[j] == before[j]);
                }
                if has_name(before, q) {
                    let j = slot_of(before, q);
                    assert(after[j] == before[j]);
                }
            }
            assert forall|q: Seq<char>| q != k && has_name(before, q) implies mapping_of(after)[q]
                == mapping_of(before)[q] by {
                let j = slot_of(before, q);
                assert(after[j] == before[j]);
                lemma_slot_of_entry(after, j);
                lemma_slot_of_entry(before, j);
            }
            assert(mapping_of(after) =~= mapping_of(before).insert(k, v));
        }
    }

    /// A copy with the same fields.
    pub fn duplicate(&self) -> (r: FieldMap)
        ensures
            r@ == self@,
            r.wf() == self.wf(),
    {
        let mut entries: Vec<(String, String)> = Vec::new();
        let mut i: usize = 0;
        while i < self.entries.len()
            invariant
                i <= self.entries@.len(),
                entries@ == self.entries@.subrange(0, i as int),
            decreases self.entries@.len() - i,
        {
            let name = self.entries[i].0.clone();
            let value = self.entries[i].1.clone();
            entries.push((name, value));
            assert(entries@ =~= self.entries@.subrange(0, i + 1));
            i += 1;
        }
        assert(entries@ =~= self.entries@);
        FieldMap { entries }
    }

    /// The names and values, in no particular order.
    pub fn to_vec(&self) -> (r: Vec<(String, String)>)
        ensures
            mapping_of(r@) == self@,
            distinct_names(r@) == self.wf(),
    {
        self.duplicate().entries
    }
}

} // verus!
