//! A full-text inverted index over notes: each lower-cased word maps to the
//! identifiers of the notes whose title or body holds it.
use vstd::prelude::*;
use vstd::hash_map::StringHashMap;
use crate::note::{Note, NoteView, note_views};
use crate::text::{views, words, str_lowercase, split_whitespace, to_lowercase};

verus! {

/// The terms of a text: its words, each lower-cased.
pub open spec fn terms_of(text: Seq<char>) -> Seq<Seq<char>> {
    words(text).map_values(|w: Seq<char>| str_lowercase(w))
}

/// The terms of a note: those of its title, then those of its body.
pub open spec fn note_terms(n: NoteView) -> Seq<Seq<char>> {
    terms_of(n.title) + terms_of(n.body)
}

/// Whether some note of `notes` holds `term`.
pub open spec fn indexed(notes: Seq<NoteView>, term: Seq<char>) -> bool {
    exists|i: int| 0 <= i < notes.len() && #[trigger] note_terms(notes[i]).contains(term)
}

/// The identifiers of the notes that hold `term`, in the order of `notes`,
/// each identifier once (where two notes share an identifier, the first one
/// that holds the term places it).
pub open spec fn postings(notes: Seq<NoteView>, term: Seq<char>) -> Seq<Seq<char>>
    decreases notes.len(),
{
    if notes.len() == 0 {
        seq![]
    } else {
        let p = postings(notes.drop_last(), term);
        let n = notes.last();
        if note_terms(n).contains(term) && !p.contains(n.id) {
            p.push(n.id)
        } else {
            p
        }
    }
}

/// The index of `notes`: every term that some note holds, mapped to its
/// postings.
pub open spec fn index_of(notes: Seq<NoteView>) -> Map<Seq<char>, Seq<Seq<char>>> {
    Map::new(|t: Seq<char>| indexed(notes, t), |t: Seq<char>| postings(notes, t))
}

/// `p` with `id` appended, unless `p` holds it already.
pub open spec fn with_id(p: Seq<Seq<char>>, id: Seq<char>) -> Seq<Seq<char>> {
    if p.contains(id) {
        p
    } else {
        p.push(id)
    }
}

/// The index `m` after `id` is recorded under `term`.
pub open spec fn add_posting(m: Map<Seq<char>, Seq<Seq<char>>>, term: Seq<char>, id: Seq<char>) -> Map<
    Seq<char>,
    Seq<Seq<char>>,
> {
    if m.contains_key(term) {
        m.insert(term, with_id(m[term], id))
    } else {
        m.insert(term, seq![id])
    }
}

/// The index `m` after `id` is recorded under each of `terms`, in order.
pub open spec fn add_postings(
    m: Map<Seq<char>, Seq<Seq<char>>>,
    terms: Seq<Seq<char>>,
    id: Seq<char>,
) -> Map<Seq<char>, Seq<Seq<char>>>
    decreases terms.len(),
{
    if terms.len() == 0 {
        m
    } else {
        add_posting(add_postings(m, terms.drop_last(), id), terms.last(), id)
    }
}

/// The postings of `term` in `m` after `id` is recorded under each of `terms`.
pub open spec fn added(m: Map<Seq<char>, Seq<Seq<char>>>, terms: Seq<Seq<char>>, id: Seq<char>, t: Seq<char>) -> Seq<Seq<char>> {
    if terms.contains(t) {
        if m.contains_key(t) {
            with_id(m[t], id)
        } else {
            seq![id]
        }
    } else {
        m[t]
    }
}

proof fn lemma_add_postings(m: Map<Seq<char>, Seq<Seq<char>>>, terms: Seq<Seq<char>>, id: Seq<char>)
    ensures
        add_postings(m, terms, id) =~= Map::new(
            |t: Seq<char>| m.contains_key(t) || terms.contains(t),
            |t: Seq<char>| added(m, terms, id, t),
        ),
    decreases terms.len(),
{
    if terms.len() > 0 {
        let init = terms.drop_last();
        lemma_add_postings(m, init, id);
        let last = terms.last();
        assert forall|t: Seq<char>| #[trigger] terms.contains(t) <==> init.contains(t) || t == last by {
            if terms.contains(t) {
                let k = choose|k: int| 0 <= k < terms.len() && terms[k] == t;
                if k < terms.len() - 1 {
                    assert(init[k] == t);
                }
            }
            if init.contains(t) {
                let k = choose|k: int| 0 <= k < init.len() && init[k] == t;
                assert(terms[k] == t);
            }
            if t == last {
                assert(terms[terms.len() - 1] == t);
            }
        }
        let prev = add_postings(m, init, id);
        assert forall|t: Seq<char>| prev.contains_key(t) && t == last implies with_id(prev[t], id)
            == added(m, terms, id, t) by {
            if init.contains(t) {
                if m.contains_key(t) {
                    let q = m[t];
                    if !q.contains(id) {
                        assert(q.push(id).contains(id)) by {
                            assert(q.push(id)[q.len() as int] == id);
                        }
                    }
                } else {
                    assert(seq![id].contains(id)) by {
                        assert(seq![id][0] == id);
                    }
                }
            }
        }
        assert(!prev.contains_key(last) ==> !init.contains(last) && !m.contains_key(last));
    }
}

proof fn lemma_postings_unindexed(notes: Seq<NoteView>, term: Seq<char>)
    requires
        !indexed(notes, term),
    ensures
        postings(notes, term) == Seq::<Seq<char>>::empty(),
    decreases notes.len(),
{
    if notes.len() > 0 {
        let init = notes.drop_last();
        assert(!indexed(init, term)) by {
            if indexed(init, term) {
                let i = choose|i: int| 0 <= i < init.len() && #[trigger] note_terms(init[i]).contains(term);
                assert(notes[i] == init[i]);
            }
        }
        lemma_postings_unindexed(init, term);
        assert(!note_terms(notes[notes.len() - 1]).contains(term));
    }
}

proof fn lemma_index_step(notes: Seq<NoteView>, n: NoteView)
    ensures
        index_of(notes.push(n)) =~= add_postings(index_of(notes), note_terms(n), n.id),
{
    let all = notes.push(n);
    let m = index_of(notes);
    lemma_add_postings(m, note_terms(n), n.id);
    assert(all.drop_last() =~= notes);
    assert(all.last() == n);
    assert forall|t: Seq<char>| #[trigger] indexed(all, t) <==> indexed(notes, t) || note_terms(n).contains(t) by {
        if indexed(all, t) {
            let i = choose|i: int| 0 <= i < all.len() && #[trigger] note_terms(all[i]).contains(t);
            if i < notes.len() {
                assert(all[i] == notes[i]);
            }
        }
        if indexed(notes, t) {
            let i = choose|i: int| 0 <= i < notes.len() && #[trigger] note_terms(notes[i]).contains(t);
            assert(all[i] == notes[i]);
        }
        if note_terms(n).contains(t) {
            assert(all[notes.len() as int] == n);
        }
    }
    assert forall|t: Seq<char>| indexed(all, t) implies postings(all, t) == added(m, note_terms(n), n.id, t) by {
        if !indexed(notes, t) {
            lemma_postings_unindexed(notes, t);
            assert(Seq::<Seq<char>>::empty().push(n.id) =~= seq![n.id]);
        }
    }
}

proof fn lemma_postings(notes: Seq<NoteView>, term: Seq<char>, id: Seq<char>)
    ensures
        postings(notes, term).contains(id) <==> exists|i: int|
            0 <= i < notes.len() && notes[i].id == id && #[trigger] note_terms(notes[i]).contains(term),
        postings(notes, term).no_duplicates(),
    decreases notes.len(),
{
    if notes.len() > 0 {
        let init = notes.drop_last();
        let n = notes.last();
        let p = postings(init, term);
        lemma_postings(init, term, id);
        lemma_postings(init, term, n.id);
        let holds = exists|i: int|
            0 <= i < notes.len() && notes[i].id == id && #[trigger] note_terms(notes[i]).contains(term);
        let holds_init = exists|i: int|
            0 <= i < init.len() && init[i].id == id && #[trigger] note_terms(init[i]).contains(term);
        assert(holds <==> holds_init || (n.id == id && note_terms(n).contains(term))) by {
            if holds {
                let i = choose|i: int|
                    0 <= i < notes.len() && notes[i].id == id && #[trigger] note_terms(notes[i]).contains(term);
                if i < init.len() {
                    assert(init[i] == notes[i]);
                }
            }
            if holds_init {
                let i = choose|i: int|
                    0 <= i < init.len() && init[i].id == id && #[trigger] note_terms(init[i]).contains(term);
                assert(init[i] == notes[i]);
            }
            if n.id == id && note_terms(n).contains(term) {
                assert(notes[notes.len() - 1] == n);
            }
        }
        if note_terms(n).contains(term) && !p.contains(n.id) {
            let q = p.push(n.id);
            assert(q.contains(id) <==> p.contains(id) || id == n.id) by {
                if q.contains(id) {
                    let k = choose|k: int| 0 <= k < q.len() && q[k] == id;
                    if k < p.len() {
                        assert(p[k] == id);
                    }
                }
                if p.contains(id) {
                    let k = choose|k: int| 0 <= k < p.len() && p[k] == id;
                    assert(q[k] == id);
                }
                if id == n.id {
                    assert(q[p.len() as int] == id);
                }
            }
            assert forall|a: int, b: int| 0 <= a < b < q.len() implies q[a] != q[b] by {
                if b == p.len() {
                    assert(q[a] == p[a]);
                    assert(p.contains(p[a]));
                }
            }
        } else if note_terms(n).contains(term) && n.id == id {
            assert(p.contains(id));
        }
    }
}

/// A query answers exactly the identifiers of the notes that hold the
/// lower-cased term in their title or body, each identifier once.
pub proof fn law_query_exact(notes: Seq<NoteView>, term: Seq<char>, id: Seq<char>)
    ensures
        query_result(index_of(notes), term).contains(id) <==> exists|i: int|
            0 <= i < notes.len() && notes[i].id == id && #[trigger] note_terms(notes[i]).contains(
                str_lowercase(term),
            ),
        query_result(index_of(notes), term).no_duplicates(),
{
    let t = str_lowercase(term);
    lemma_postings(notes, t, id);
    if !indexed(notes, t) {
        assert(!query_result(index_of(notes), term).contains(id));
        assert(!(exists|i: int|
            0 <= i < notes.len() && notes[i].id == id && #[trigger] note_terms(notes[i]).contains(t)));
    }
}

/// Queries for terms with the same lower-case form are answered alike.
pub proof fn law_query_case_insensitive(idx: Map<Seq<char>, Seq<Seq<char>>>, a: Seq<char>, b: Seq<char>)
    requires
        str_lowercase(a) == str_lowercase(b),
    ensures
        query_result(idx, a) == query_result(idx, b),
{
}

/// The words of `text`, each lower-cased.
pub fn tokenize(text: &str) -> (r: Vec<String>)
    ensures
        views(r@) == terms_of(text@),
{
    let ws = split_whitespace(text);
    let mut out: Vec<String> = Vec::new();
    let mut i: usize = 0;
    while i < ws.len()
        invariant
            i <= ws.len(),
            views(ws@) == words(text@),
            views(out@) =~= terms_of(text@).take(i as int),
        decreases ws.len() - i,
    {
        let t = to_lowercase(ws[i].as_str());
        let ghost before = views(out@);
        out.push(t);
        assert(views(out@) =~= before.push(str_lowercase(views(ws@)[i as int])));
        assert(terms_of(text@).take(i + 1) =~= terms_of(text@).take(i as int).push(
            terms_of(text@)[i as int],
        ));
        i += 1;
    }
    out
}

fn copy_strings(v: &Vec<String>) -> (r: Vec<String>)
    ensures
        views(r@) == views(v@),
{
    let mut out: Vec<String> = Vec::new();
    let mut i: usize = 0;
    while i < v.len()
        invariant
            i <= v.len(),
            views(out@) =~= views(v@).take(i as int),
        decreases v.len() - i,
    {
        let ghost before = views(out@);
        out.push(v[i].clone());
        assert(views(out@) =~= before.push(views(v@)[i as int]));
        assert(views(v@).take(i + 1) =~= views(v@).take(i as int).push(views(v@)[i as int]));
        i += 1;
    }
    out
}

/// Whether `v` holds a string equal to `s`.
pub fn contains_string(v: &Vec<String>, s: &String) -> (b: bool)
    ensures
        b == views(v@).contains(s@),
{
    let mut i: usize = 0;
    while i < v.len()
        invariant
            i <= v.len(),
            forall|j: int| 0 <= j < i ==> v@[j]@ != s@,
        decreases v.len() - i,
    {
        if v[i] == *s {
            assert(views(v@)[i as int] == s@);
            return true;
        }
        i += 1;
    }
    assert forall|j: int| 0 <= j < views(v@).len() implies views(v@)[j] != s@ by {
        assert(views(v@)[j] == v@[j]@);
    }
    false
}

/// What a query for `term` answers from the index `idx`: the postings of
/// the lower-cased term, or nothing.
pub open spec fn query_result(idx: Map<Seq<char>, Seq<Seq<char>>>, term: Seq<char>) -> Seq<Seq<char>> {
    if idx.contains_key(str_lowercase(term)) {
        idx[str_lowercase(term)]
    } else {
        Seq::<Seq<char>>::empty()
    }
}

/// The view of an index held in a map of strings to lists of strings.
pub open spec fn postings_view(m: Map<Seq<char>, Vec<String>>) -> Map<Seq<char>, Seq<Seq<char>>> {
    m.map_values(|v: Vec<String>| views(v@))
}

fn add_term(index: &mut StringHashMap<Vec<String>>, term: &String, id: &String)
    ensures
        postings_view(final(index)@) =~= add_posting(postings_view(old(index)@), term@, id@),
{
    let existing: Option<Vec<String>> = match index.get(term.as_str()) {
        Some(e) => Some(copy_strings(e)),
        None => None,
    };
    match existing {
        Some(mut e) => {
            if !contains_string(&e, id) {
                let ghost before = views(e@);
                e.push(id.clone());
                assert(views(e@) =~= before.push(id@));
                index.insert(term.clone(), e);
            } else {
                assert(postings_view(old(index)@).insert(term@, views(e@)) =~= postings_view(old(index)@));
            }
        },
        None => {
            let mut e: Vec<String> = Vec::new();
            e.push(id.clone());
            assert(views(e@) =~= seq![id@]);
            index.insert(term.clone(), e);
        },
    }
}

/// The index over notes, mapping each term to the identifiers of the notes
/// that hold it.
pub struct SearchEngine {
    pub index: StringHashMap<Vec<String>>,
}

impl SearchEngine {
    /// The index as a map of terms to identifier sequences.
    pub open spec fn index_view(&self) -> Map<Seq<char>, Seq<Seq<char>>> {
        postings_view(self.index@)
    }

    /// Builds the index of `notes`: each lower-cased word of a title or body
    /// maps to the identifiers of the notes that hold it, in the order of
    /// `notes`, without duplicates.
    pub fn new(notes: &[Note]) -> (r: SearchEngine)
        ensures
            r.index_view() == index_of(note_views(notes@)),
    {
        let mut index: StringHashMap<Vec<String>> = StringHashMap::new();
        let ghost ns = note_views(notes@);
        assert(postings_view(index@) =~= index_of(ns.take(0)));
        let mut i: usize = 0;
        while i < notes.len()
            invariant
                i <= notes.len(),
                ns == note_views(notes@),
                postings_view(index@) == index_of(ns.take(i as int)),
            decreases notes.len() - i,
        {
            let note = &notes[i];
            let id = note.id.clone();
            let title_terms = tokenize(note.title.as_str());
            let body_terms = tokenize(note.body.as_str());
            let ghost start = postings_view(index@);
            let ghost all_terms = views(title_terms@) + views(body_terms@);
            assert(all_terms == note_terms(ns[i as int]));
            let mut j: usize = 0;
            while j < title_terms.len()
                invariant
                    j <= title_terms.len(),
                    all_terms == views(title_terms@) + views(body_terms@),
                    postings_view(index@) == add_postings(start, all_terms.take(j as int), id@),
                decreases title_terms.len() - j,
            {
                add_term(&mut index, &title_terms[j], &id);
                assert(all_terms.take(j + 1).drop_last() =~= all_terms.take(j as int));
                assert(all_terms.take(j + 1).last() == title_terms@[j as int]@);
                j += 1;
            }
            let mut k: usize = 0;
            while k < body_terms.len()
                invariant
                    k <= body_terms.len(),
                    j == title_terms.len(),
                    all_terms == views(title_terms@) + views(body_terms@),
                    postings_view(index@) == add_postings(start, all_terms.take(j + k), id@),
                decreases body_terms.len() - k,
            {
                add_term(&mut index, &body_terms[k], &id);
                assert(all_terms.take(j + k + 1).drop_last() =~= all_terms.take(j + k));
                assert(all_terms.take(j + k + 1).last() == body_terms@[k as int]@);
                k += 1;
            }
            proof {
                assert(all_terms.take(j + k) =~= all_terms);
                assert(ns.take(i + 1) =~= ns.take(i as int).push(ns[i as int]));
                assert(ns[i as int].id == id@);
                lemma_index_step(ns.take(i as int), ns[i as int]);
            }
            i += 1;
        }
        assert(ns.take(notes.len() as int) =~= ns);
        SearchEngine { index }
    }

    /// The identifiers of the notes that hold the lower-cased `term`, or
    /// nothing where no note holds it.
    pub fn query(&self, term: &str) -> (r: Vec<String>)
        ensures
            views(r@) == query_result(self.index_view(), term@),
    {
        let key = to_lowercase(term);
        match self.index.get(key.as_str()) {
            Some(ids) => copy_strings(ids),
            None => Vec::new(),
        }
    }
}

} // verus!
