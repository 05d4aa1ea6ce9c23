//! A map from keys to notes that remembers the order in which keys were
//! first inserted, so that its notes can be walked in a fixed order.
use vstd::prelude::*;
use vstd::hash_map::StringHashMap;
use crate::note::{Note, NoteView};
use crate::text::views;

verus! {

/// Notes by key, with the keys in the order of their first insertion.
pub struct NoteMap {
    map: StringHashMap<Note>,
    order: Vec<String>,
}

/// `s` without the element `k`.
pub open spec fn without(s: Seq<Seq<char>>, k: Seq<char>) -> Seq<Seq<char>>
    decreases s.len(),
{
    if s.len() == 0 {
        s
    } else {
        let w = without(s.drop_last(), k);
        if s.last() != k {
            w.push(s.last())
        } else {
            w
        }
    }
}

impl View for NoteMap {
    type V = Map<Seq<char>, NoteView>;

    closed spec fn view(&self) -> Map<Seq<char>, NoteView> {
        self.map@.map_values(|n: Note| n@)
    }
}

impl NoteMap {
    /// The keys, in the order of their first insertion.
    pub closed spec fn keys(&self) -> Seq<Seq<char>> {
        views(self.order@)
    }

    /// The notes, in the order of their keys.
    pub open spec fn notes_in_order(&self) -> Seq<NoteView> {
        self.keys().map_values(|k: Seq<char>| self@[k])
    }

    /// Each key occurs once in the order, and the order holds the keys of
    /// the map.
    pub closed spec fn wf(&self) -> bool {
        &&& self.keys().no_duplicates()
        &&& forall|k: Seq<char>| #[trigger] self.map@.contains_key(k) <==> self.keys().contains(k)
    }

    /// Every well-formed map orders exactly its keys, once each.
    pub proof fn lemma_keys(&self)
        requires
            self.wf(),
        ensures
            self.keys().no_duplicates(),
            forall|k: Seq<char>| #[trigger] self@.contains_key(k) <==> self.keys().contains(k),
    {
    }

    /// An empty map.
    pub fn new() -> (m: NoteMap)
        ensures
            m.wf(),
            m@ == Map::<Seq<char>, NoteView>::empty(),
            m.keys() == Seq::<Seq<char>>::empty(),
    {
        let m = NoteMap { map: StringHashMap::new(), order: Vec::new() };
        assert(m@ =~= Map::<Seq<char>, NoteView>::empty());
        assert(m.keys() =~= Seq::<Seq<char>>::empty());
        m
    }

    /// The number of notes.
    pub fn len(&self) -> (n: usize)
        requires
            self.wf(),
        ensures
            n == self.keys().len(),
    {
        self.order.len()
    }

    /// Whether a note is stored under `key`.
    pub fn contains_key(&self, key: &str) -> (b: bool)
        requires
            self.wf(),
        ensures
            b == self@.contains_key(key@),
    {
        self.map.contains_key(key)
    }

    /// The note stored under `key`.
    pub fn get(&self, key: &str) -> (r: Option<&Note>)
        requires
            self.wf(),
        ensures
            match r {
                Some(n) => self@.contains_key(key@) && n@ == self@[key@],
                None => !self@.contains_key(key@),
            },
    {
        self.map.get(key)
    }

    /// Stores `note` under `key`, replacing what was there; a new key goes
    /// last in the order.
    pub fn insert(&mut self, key: String, note: Note)
        requires
            old(self).wf(),
        ensures
            final(self).wf(),
            final(self)@ == old(self)@.insert(key@, note@),
            final(self).keys() == (if old(self)@.contains_key(key@) {
                old(self).keys()
            } else {
                old(self).keys().push(key@)
            }),
    {
        let ghost k = key@;
        if !self.map.contains_key(key.as_str()) {
            let ghost before = self.keys();
            self.order.push(key.clone());
            assert(self.keys() =~= before.push(k));
            assert forall|x: Seq<char>| #[trigger] self.keys().contains(x) <==> before.contains(x) || x == k by {
                if self.keys().contains(x) {
                    let i = choose|i: int| 0 <= i < self.keys().len() && self.keys()[i] == x;
                    if i < before.len() {
                        assert(before[i] == x);
                    }
                }
                if before.contains(x) {
                    let i = choose|i: int| 0 <= i < before.len() && before[i] == x;
                    assert(self.keys()[i] == x);
                }
                if x == k {
                    assert(self.keys()[before.len() as int] == x);
                }
            }
        }
        self.map.insert(key, note);
        assert(self@ =~= old(self)@.insert(k, note@));
    }

    /// Removes and returns the note stored under `key`; the other keys keep
    /// their order.
    pub fn remove(&mut self, key: &str) -> (r: Option<Note>)
        requires
            old(self).wf(),
        ensures
            final(self).wf(),
            final(self)@ == old(self)@.remove(key@),
            final(self).keys() == without(old(self).keys(), key@),
            match r {
                Some(n) => old(self)@.contains_key(key@) && n@ == old(self)@[key@],
                None => !old(self)@.contains_key(key@),
            },
    {
        let removed = match self.map.get(key) {
            Some(n) => Some(n.duplicate()),
            None => None,
        };
        let ghost before = self.keys();
        let mut i: usize = 0;
        let mut found: bool = false;
        while i < self.order.len()
            invariant_except_break
                i <= self.order.len(),
                self.keys() == before,
                !found,
                forall|j: int| 0 <= j < i ==> before[j] != key@,
            ensures
                self.keys() == before,
                found ==> i < before.len() && before[i as int] == key@,
                !found ==> i == before.len() && forall|j: int| 0 <= j < i ==> before[j] != key@,
            decreases self.order.len() - i,
        {
            assert(before[i as int] == self.order@[i as int]@);
            let same = self.order[i].as_str().to_owned() == key.to_owned();
            assert(same == (before[i as int] == key@));
            if same {
                found = true;
                break;
            }
            i += 1;
        }
        if !found {
            assert(!before.contains(key@)) by {
                if before.contains(key@) {
                    let j = choose|j: int| 0 <= j < before.len() && before[j] == key@;
                    assert(before[j] != key@);
                }
            }
        }
        if found {
            self.order.remove(i);
            proof {
                lemma_remove_unique(before, i as int, key@);
            }
            assert(self.keys() =~= before.remove(i as int));
        } else {
            proof {
                lemma_filter_all(before, key@);
            }
        }
        self.map.remove(key);
        assert(self@ =~= old(self)@.remove(key@));
        proof {
            assert forall|x: Seq<char>| #[trigger] self.keys().contains(x) <==> before.contains(x) && x != key@ by {
                lemma_filter_contains(before, key@, x);
            }
            lemma_filter_no_dup(before, key@);
        }
        removed
    }

    /// Removes every note.
    pub fn clear(&mut self)
        ensures
            final(self).wf(),
            final(self)@ == Map::<Seq<char>, NoteView>::empty(),
            final(self).keys() == Seq::<Seq<char>>::empty(),
    {
        self.map.clear();
        self.order = Vec::new();
        assert(self@ =~= Map::<Seq<char>, NoteView>::empty());
        assert(self.keys() =~= Seq::<Seq<char>>::empty());
    }

    /// References to the notes, in the order of their keys.
    pub fn values(&self) -> (r: Vec<&Note>)
        requires
            self.wf(),
        ensures
            r@.map_values(|n: &Note| n@) == self.notes_in_order(),
    {
        let mut out: Vec<&Note> = Vec::new();
        let mut i: usize = 0;
        while i < self.order.len()
            invariant
                self.wf(),
                i <= self.order.len(),
                out@.map_values(|n: &Note| n@) =~= self.notes_in_order().take(i as int),
            decreases self.order.len() - i,
        {
            let k = self.order[i].as_str();
            assert(self.keys()[i as int] == k@);
            assert(self.keys().contains(k@));
            assert(self.map@.contains_key(k@));
            match self.map.get(k) {
                Some(n) => {
                    let ghost before = out@.map_values(|n: &Note| n@);
                    out.push(n);
                    assert(out@.map_values(|n: &Note| n@) =~= before.push(self@[k@]));
                    assert(self.notes_in_order().take(i + 1) =~= self.notes_in_order().take(i as int).push(
                        self.notes_in_order()[i as int],
                    ));
                },
                None => {},
            }
            i += 1;
        }
        out
    }

    /// Copies of the notes, in the order of their keys.
    pub fn values_copied(&self) -> (r: Vec<Note>)
        requires
            self.wf(),
        ensures
            r@.map_values(|n: Note| n@) == self.notes_in_order(),
    {
        let refs = self.values();
        let mut out: Vec<Note> = Vec::new();
        let mut i: usize = 0;
        while i < refs.len()
            invariant
                i <= refs.len(),
                refs@.map_values(|n: &Note| n@) == self.notes_in_order(),
                out@.map_values(|n: Note| n@) =~= self.notes_in_order().take(i as int),
            decreases refs.len() - i,
        {
            let ghost before = out@.map_values(|n: Note| n@);
            out.push(refs[i].duplicate());
            assert(refs@.map_values(|n: &Note| n@)[i as int] == refs@[i as int]@);
            assert(out@.map_values(|n: Note| n@) =~= before.push(self.notes_in_order()[i as int]));
            assert(self.notes_in_order().take(i + 1) =~= self.notes_in_order().take(i as int).push(
                self.notes_in_order()[i as int],
            ));
            i += 1;
        }
        out
    }

    /// Replaces the body of the note stored under `key`; reports whether
    /// there was one.
    pub fn set_body(&mut self, key: &str, body: String) -> (found: bool)
        requires
            old(self).wf(),
        ensures
            final(self).wf(),
            found == old(self)@.contains_key(key@),
            final(self).keys() == old(self).keys(),
            final(self)@ == (if found {
                old(self)@.insert(key@, NoteView { body: body@, ..old(self)@[key@] })
            } else {
                old(self)@
            }),
    {
        let updated = match self.map.get(key) {
            Some(n) => {
                let mut m = n.duplicate();
                m.body = body;
                Some(m)
            },
            None => None,
        };
        match updated {
            Some(m) => {
                let k = key.to_owned();
                self.insert(k, m);
                true
            },
            None => false,
        }
    }
}

/// Inserting a note under a new key and then removing that key leaves the
/// notes and the order of their keys as they were.
pub proof fn law_insert_then_remove(m: Map<Seq<char>, NoteView>, keys: Seq<Seq<char>>, k: Seq<char>, n: NoteView)
    requires
        !m.contains_key(k),
        !keys.contains(k),
    ensures
        m.insert(k, n).remove(k) == m,
        without(keys.push(k), k) == keys,
{
    assert(m.insert(k, n).remove(k) =~= m);
    assert(keys.push(k).drop_last() =~= keys);
    lemma_filter_all(keys, k);
}

proof fn lemma_filter_all(s: Seq<Seq<char>>, k: Seq<char>)
    requires
        !s.contains(k),
    ensures
        without(s, k) == s,
    decreases s.len(),
{
    if s.len() > 0 {
        assert(!s.drop_last().contains(k)) by {
            if s.drop_last().contains(k) {
                let i = choose|i: int| 0 <= i < s.drop_last().len() && s.drop_last()[i] == k;
                assert(s[i] == k);
            }
        }
        lemma_filter_all(s.drop_last(), k);
        assert(s[s.len() - 1] != k);
        assert(s.drop_last().push(s.last()) =~= s);
    }
}

proof fn lemma_remove_unique(s: Seq<Seq<char>>, i: int, k: Seq<char>)
    requires
        0 <= i < s.len(),
        s[i] == k,
        forall|j: int| 0 <= j < i ==> s[j] != k,
        s.no_duplicates(),
    ensures
        without(s, k) == s.remove(i),
    decreases s.len(),
{
    if i == s.len() - 1 {
        assert(!s.drop_last().contains(k)) by {
            if s.drop_last().contains(k) {
                let j = choose|j: int| 0 <= j < s.drop_last().len() && s.drop_last()[j] == k;
                assert(s[j] == k);
            }
        }
        lemma_filter_all(s.drop_last(), k);
        assert(s.remove(i) =~= s.drop_last());
    } else {
        let d = s.drop_last();
        assert forall|a: int, b: int| 0 <= a < b < d.len() implies d[a] != d[b] by {
            assert(d[a] == s[a] && d[b] == s[b]);
        }
        lemma_remove_unique(d, i, k);
        assert(s.last() != k) by {
            assert(s[s.len() - 1] == s.last());
        }
        assert(d.remove(i).push(s.last()) =~= s.remove(i));
    }
}

pub(crate) proof fn lemma_filter_contains(s: Seq<Seq<char>>, k: Seq<char>, x: Seq<char>)
    ensures
        without(s, k).contains(x) <==> s.contains(x) && x != k,
    decreases s.len(),
{
    if s.len() > 0 {
        let d = s.drop_last();
        let l = s.last();
        lemma_filter_contains(d, k, x);
        let fd = without(d, k);
        assert(s.contains(x) <==> d.contains(x) || l == x) by {
            if s.contains(x) {
                let i = choose|i: int| 0 <= i < s.len() && s[i] == x;
                if i < d.len() {
                    assert(d[i] == x);
                }
            }
            if d.contains(x) {
                let i = choose|i: int| 0 <= i < d.len() && d[i] == x;
                assert(s[i] == x);
            }
            if l == x {
                assert(s[s.len() - 1] == x);
            }
        }
        if l != k {
            let f = fd.push(l);
            assert(without(s, k) == f);
            assert(f.contains(x) <==> fd.contains(x) || l == x) by {
                if f.contains(x) {
                    let i = choose|i: int| 0 <= i < f.len() && f[i] == x;
                    if i < fd.len() {
                        assert(fd[i] == x);
                    }
                }
                if fd.contains(x) {
                    let i = choose|i: int| 0 <= i < fd.len() && fd[i] == x;
                    assert(f[i] == x);
                }
                if l == x {
                    assert(f[fd.len() as int] == x);
                }
            }
        } else {
            assert(without(s, k) == fd);
        }
    }
}

proof fn lemma_filter_no_dup(s: Seq<Seq<char>>, k: Seq<char>)
    requires
        s.no_duplicates(),
    ensures
        without(s, k).no_duplicates(),
    decreases s.len(),
{
    if s.len() > 0 {
        let d = s.drop_last();
        assert forall|a: int, b: int| 0 <= a < b < d.len() implies d[a] != d[b] by {
            assert(d[a] == s[a] && d[b] == s[b]);
        }
        lemma_filter_no_dup(d, k);
        let fd = without(d, k);
        if s.last() != k {
            assert(!fd.contains(s.last())) by {
                lemma_filter_contains(d, k, s.last());
                if d.contains(s.last()) {
                    let i = choose|i: int| 0 <= i < d.len() && d[i] == s.last();
                    assert(s[i] == s[s.len() - 1]);
                }
            }
            let f = fd.push(s.last());
            assert forall|a: int, b: int| 0 <= a < b < f.len() implies f[a] != f[b] by {
                if b == fd.len() {
                    assert(fd[a] == f[a]);
                } else {
                    assert(fd[a] == f[a] && fd[b] == f[b]);
                }
            }
        }
    }
}

} // verus!
