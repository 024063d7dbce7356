//! A stanza of a Debian control file: field names mapped to the lines of
//! their values (continuation lines kept as separate lines).

use vstd::prelude::*;
use crate::error::{Error, ErrorView};
use crate::text::{comma_items, join, join_with, split_comma_lines, views};

verus! {

/// A stanza: each field name at most once, with the lines of its value.
pub struct Stanza {
    entries: Vec<(String, Vec<String>)>,
}

pub open spec fn entry_view(e: (String, Vec<String>)) -> (Seq<char>, Seq<Seq<char>>) {
    (e.0@, views(e.1@))
}

pub open spec fn entry_views(es: Seq<(String, Vec<String>)>) -> Seq<(Seq<char>, Seq<Seq<char>>)> {
    es.map_values(|e: (String, Vec<String>)| entry_view(e))
}

/// The map that a list of (name, lines) pairs stands for.
pub open spec fn to_map<V>(es: Seq<(Seq<char>, V)>) -> Map<Seq<char>, V>
    decreases es.len(),
{
    if es.len() == 0 {
        Map::empty()
    } else {
        to_map(es.drop_last()).insert(es.last().0, es.last().1)
    }
}

pub open spec fn distinct_keys<V>(es: Seq<(Seq<char>, V)>) -> bool {
    forall|i: int, j: int| 0 <= i < es.len() && 0 <= j < es.len() && i != j ==> es[i].0 != es[j].0
}

/// The lines of field `k`, if the map has it.
pub open spec fn lookup(m: Map<Seq<char>, Seq<Seq<char>>>, k: Seq<char>) -> Option<Seq<Seq<char>>> {
    if m.dom().contains(k) {
        Some(m[k])
    } else {
        None
    }
}

pub proof fn lemma_to_map_contains<V>(es: Seq<(Seq<char>, V)>, k: Seq<char>)
    requires
        distinct_keys(es),
    ensures
        to_map(es).dom().contains(k) ==> exists|i: int| 0 <= i < es.len() && es[i].0 == k,
        forall|i: int|
            #![trigger es[i]]
            0 <= i < es.len() && es[i].0 == k ==> to_map(es).dom().contains(k) && to_map(es)[k] == es[i].1,
    decreases es.len(),
{
    if es.len() > 0 {
        let init = es.drop_last();
        let n = es.len() - 1;
        assert(distinct_keys(init));
        lemma_to_map_contains(init, k);
        if to_map(es).dom().contains(k) {
            if es[n].0 != k {
                let i = choose|i: int| 0 <= i < init.len() && init[i].0 == k;
                assert(es[i].0 == k);
            } else {
                assert(es[n].0 == k);
            }
        }
        assert forall|i: int|
            #![trigger es[i]]
            0 <= i < es.len() && es[i].0 == k implies to_map(es).dom().contains(k) && to_map(es)[k] == es[i].1 by {
            if i < n {
                assert(init[i].0 == k);
                assert(es[n].0 != k);
            }
        }
    }
}

pub proof fn lemma_to_map_remove<V>(es: Seq<(Seq<char>, V)>, i: int)
    requires
        distinct_keys(es),
        0 <= i < es.len(),
    ensures
        distinct_keys(es.remove(i)),
        to_map(es.remove(i)) == to_map(es).remove(es[i].0),
    decreases es.len(),
{
    let r = es.remove(i);
    assert forall|a: int, b: int| 0 <= a < r.len() && 0 <= b < r.len() && a != b implies r[a].0 != r[b].0 by {
        let a2 = if a < i { a } else { a + 1 };
        let b2 = if b < i { b } else { b + 1 };
        assert(r[a] == es[a2]);
        assert(r[b] == es[b2]);
    }
    let k = es[i].0;
    assert forall|x: Seq<char>| #[trigger] to_map(r).dom().contains(x) <==> to_map(es).remove(k).dom().contains(x) by {
        lemma_to_map_contains(r, x);
        lemma_to_map_contains(es, x);
        if to_map(r).dom().contains(x) {
            let a = choose|a: int| 0 <= a < r.len() && r[a].0 == x;
            let a2 = if a < i { a } else { a + 1 };
            assert(es[a2].0 == x);
        }
        if to_map(es).remove(k).dom().contains(x) {
            let a = choose|a: int| 0 <= a < es.len() && es[a].0 == x;
            assert(a != i);
            let a2 = if a < i { a } else { a - 1 };
            assert(r[a2].0 == x);
        }
    }
    assert forall|x: Seq<char>| #[trigger] to_map(r).dom().contains(x) implies to_map(r)[x] == to_map(es).remove(k)[x] by {
        lemma_to_map_contains(r, x);
        lemma_to_map_contains(es, x);
        let a = choose|a: int| 0 <= a < r.len() && r[a].0 == x;
        let a2 = if a < i { a } else { a + 1 };
        assert(es[a2] == r[a]);
    }
    assert(to_map(r) =~= to_map(es).remove(k));
}

pub proof fn lemma_to_map_update<V>(es: Seq<(Seq<char>, V)>, i: int, v: V)
    requires
        distinct_keys(es),
        0 <= i < es.len(),
    ensures
        distinct_keys(es.update(i, (es[i].0, v))),
        to_map(es.update(i, (es[i].0, v))) == to_map(es).insert(es[i].0, v),
{
    let u = es.update(i, (es[i].0, v));
    let k = es[i].0;
    assert(distinct_keys(u));
    assert forall|x: Seq<char>| #[trigger] to_map(u).dom().contains(x) <==> to_map(es).insert(k, v).dom().contains(x) by {
        lemma_to_map_contains(u, x);
        lemma_to_map_contains(es, x);
        if to_map(u).dom().contains(x) {
            let a = choose|a: int| 0 <= a < u.len() && u[a].0 == x;
            assert(es[a].0 == x);
        }
        if to_map(es).dom().contains(x) {
            let a = choose|a: int| 0 <= a < es.len() && es[a].0 == x;
            assert(u[a].0 == x);
        }
        assert(u[i].0 == k);
    }
    assert forall|x: Seq<char>| #[trigger] to_map(u).dom().contains(x) implies to_map(u)[x] == to_map(es).insert(k, v)[x] by {
        lemma_to_map_contains(u, x);
        lemma_to_map_contains(es, x);
        let a = choose|a: int| 0 <= a < u.len() && u[a].0 == x;
        if a != i {
            assert(es[a] == u[a]);
        }
    }
    assert(to_map(u) =~= to_map(es).insert(k, v));
}

impl View for Stanza {
    type V = Map<Seq<char>, Seq<Seq<char>>>;

    closed spec fn view(&self) -> Map<Seq<char>, Seq<Seq<char>>> {
        to_map(entry_views(self.entries@))
    }
}

impl Stanza {
    #[verifier::type_invariant]
    spec fn inv(self) -> bool {
        distinct_keys(entry_views(self.entries@))
    }

    /// The position of field `key`, if present.
    fn find(&self, key: &String) -> (r: Option<usize>)
        ensures
            match r {
                Some(i) => i < self.entries@.len() && self.entries@[i as int].0@ == key@,
                None => forall|i: int| 0 <= i < self.entries@.len() ==> self.entries@[i].0@ != key@,
            },
    {
        let mut i: usize = 0;
        while i < self.entries.len()
            invariant
                i <= self.entries@.len(),
                forall|j: int| 0 <= j < i ==> self.entries@[j].0@ != key@,
            decreases self.entries.len() - i,
        {
            if self.entries[i].0 == *key {
                return Some(i);
            }
            i += 1;
        }
        None
    }

    proof fn lemma_view_lookup(&self, key: Seq<char>, r: Option<usize>)
        requires
            distinct_keys(entry_views(self.entries@)),
            match r {
                Some(i) => i < self.entries@.len() && self.entries@[i as int].0@ == key,
                None => forall|i: int| 0 <= i < self.entries@.len() ==> self.entries@[i].0@ != key,
            },
        ensures
            match r {
                Some(i) => lookup(self@, key) == Some(views(self.entries@[i as int].1@)),
                None => lookup(self@, key) is None,
            },
    {
        let es = entry_views(self.entries@);
        lemma_to_map_contains(es, key);
        match r {
            Some(i) => {
                assert(es[i as int].0 == key);
            },
            None => {
                if self@.dom().contains(key) {
                    let i = choose|i: int| 0 <= i < es.len() && es[i].0 == key;
                    assert(self.entries@[i].0@ == key);
                }
            },
        }
    }

    /// An empty stanza.
    pub fn new() -> (r: Stanza)
        ensures
            r@ == Map::<Seq<char>, Seq<Seq<char>>>::empty(),
    {
        let r = Stanza { entries: Vec::new() };
        assert(entry_views(r.entries@) =~= seq![]);
        r
    }

    /// Sets field `key` to `lines`, replacing what it held.
    pub fn insert(&mut self, key: String, lines: Vec<String>)
        ensures
            final(self)@ == old(self)@.insert(key@, views(lines@)),
    {
        proof {
            use_type_invariant(&*self);
        }
        let mut es: Vec<(String, Vec<String>)> = Vec::new();
        std::mem::swap(&mut es, &mut self.entries);
        let ghost old_es = es@;
        let tmp = Stanza { entries: es };
        let found = tmp.find(&key);
        let mut es = tmp.entries;
        match found {
            Some(i) => {
                let ghost kv = key@;
                es.set(i, (key, lines));
                proof {
                    assert(entry_views(es@) =~= entry_views(old_es).update(i as int, (kv, views(lines@))));
                    lemma_to_map_update(entry_views(old_es), i as int, views(lines@));
                }
            },
            None => {
                let ghost kv = key@;
                let ghost lv = views(lines@);
                es.push((key, lines));
                proof {
                    let ev = entry_views(es@);
                    assert(ev =~= entry_views(old_es).push((kv, lv)));
                    assert(ev.drop_last() =~= entry_views(old_es));
                    assert(distinct_keys(ev));
                }
            },
        }
        self.entries = es;
    }

    /// Whether field `key` is present.
    pub fn contains_key(&self, key: &str) -> (r: bool)
        ensures
            r == self@.dom().contains(key@),
    {
        proof {
            use_type_invariant(self);
        }
        let k = String::from_str(key);
        let found = self.find(&k);
        proof {
            self.lemma_view_lookup(key@, found);
        }
        found.is_some()
    }

    /// The lines of field `key`, if present.
    pub fn get(&self, key: &str) -> (r: Option<&Vec<String>>)
        ensures
            match r {
                Some(v) => lookup(self@, key@) == Some(views(v@)),
                None => lookup(self@, key@) is None,
            },
    {
        proof {
            use_type_invariant(self);
        }
        let k = String::from_str(key);
        let found = self.find(&k);
        proof {
            self.lemma_view_lookup(key@, found);
        }
        match found {
            Some(i) => Some(&self.entries[i].1),
            None => None,
        }
    }

    /// Takes field `key` out of the stanza, returning its lines.
    pub fn remove(&mut self, key: &str) -> (r: Option<Vec<String>>)
        ensures
            final(self)@ == old(self)@.remove(key@),
            match r {
                Some(v) => lookup(old(self)@, key@) == Some(views(v@)),
                None => lookup(old(self)@, key@) is None,
            },
    {
        proof {
            use_type_invariant(&*self);
        }
        let k = String::from_str(key);
        let found = self.find(&k);
        proof {
            self.lemma_view_lookup(key@, found);
        }
        match found {
            Some(i) => {
                let mut es: Vec<(String, Vec<String>)> = Vec::new();
                std::mem::swap(&mut es, &mut self.entries);
                let ghost old_es = es@;
                let e = es.remove(i);
                proof {
                    assert(entry_views(es@) =~= entry_views(old_es).remove(i as int));
                    lemma_to_map_remove(entry_views(old_es), i as int);
                }
                self.entries = es;
                Some(e.1)
            },
            None => {
                proof {
                    assert(self@ =~= self@.remove(key@));
                }
                None
            },
        }
    }

    /// The fields of the stanza, each once, with their lines.
    pub fn fields(&self) -> (r: Vec<(String, Vec<String>)>)
        ensures
            distinct_keys(entry_views(r@)),
            to_map(entry_views(r@)) == self@,
    {
        proof {
            use_type_invariant(self);
        }
        let mut out: Vec<(String, Vec<String>)> = Vec::new();
        let mut i: usize = 0;
        while i < self.entries.len()
            invariant
                i <= self.entries@.len(),
                entry_views(out@) == entry_views(self.entries@).take(i as int),
            decreases self.entries.len() - i,
        {
            let k = self.entries[i].0.clone();
            let mut ls: Vec<String> = Vec::new();
            let mut j: usize = 0;
            while j < self.entries[i].1.len()
                invariant
                    i < self.entries@.len(),
                    j <= self.entries@[i as int].1@.len(),
                    views(ls@) == views(self.entries@[i as int].1@).take(j as int),
                decreases self.entries@[i as int].1@.len() - j,
            {
                let ghost before = views(ls@);
                ls.push(self.entries[i].1[j].clone());
                assert(views(ls@) =~= before.push(self.entries@[i as int].1@[j as int]@));
                assert(views(self.entries@[i as int].1@).take(j + 1) =~= views(self.entries@[i as int].1@).take(j as int).push(self.entries@[i as int].1@[j as int]@));
                j += 1;
            }
            assert(views(ls@) =~= views(self.entries@[i as int].1@));
            let ghost before = entry_views(out@);
            out.push((k, ls));
            assert(entry_views(out@) =~= before.push(entry_view(self.entries@[i as int])));
            assert(entry_views(self.entries@).take(i + 1) =~= entry_views(self.entries@).take(i as int).push(entry_view(self.entries@[i as int])));
            i += 1;
        }
        assert(entry_views(self.entries@).take(i as int) =~= entry_views(self.entries@));
        out
    }

    /// Takes field `key` out of the stanza, keeping its name beside its lines.
    pub fn remove_value(&mut self, key: &str) -> (r: Value)
        ensures
            final(self)@ == old(self)@.remove(key@),
            r.key@ == key@,
            r.lines_view() == lookup(old(self)@, key@),
    {
        let lines = self.remove(key);
        Value { key: String::from_str(key), lines }
    }
}

/// The single line of a field: absent is `None`, more or fewer lines an error.
pub open spec fn one_line_spec(lines: Option<Seq<Seq<char>>>, key: Seq<char>) -> Result<Option<Seq<char>>, ErrorView> {
    match lines {
        None => Ok(None),
        Some(ls) => if ls.len() == 1 {
            Ok(Some(ls[0]))
        } else {
            Err(ErrorView::NotOneLine(key))
        },
    }
}

/// The single line of a field that must be present.
pub open spec fn one_line_req_spec(lines: Option<Seq<Seq<char>>>, key: Seq<char>) -> Result<Seq<char>, ErrorView> {
    match one_line_spec(lines, key) {
        Ok(Some(l)) => Ok(l),
        Ok(None) => Err(ErrorView::Required(key)),
        Err(e) => Err(e),
    }
}

/// The comma-separated items of a field; none when it is absent.
pub open spec fn comma_items_of(lines: Option<Seq<Seq<char>>>) -> Seq<Seq<char>> {
    match lines {
        None => Seq::<Seq<char>>::empty(),
        Some(ls) => comma_items(ls),
    }
}

pub open spec fn opt_string_result_view(r: Result<Option<String>, Error>) -> Result<Option<Seq<char>>, ErrorView> {
    match r {
        Ok(Some(s)) => Ok(Some(s@)),
        Ok(None) => Ok(None),
        Err(e) => Err(e@),
    }
}

pub open spec fn string_result_view(r: Result<String, Error>) -> Result<Seq<char>, ErrorView> {
    match r {
        Ok(s) => Ok(s@),
        Err(e) => Err(e@),
    }
}

/// A field taken out of a stanza: its name, and its lines if it was present.
pub struct Value {
    pub key: String,
    pub lines: Option<Vec<String>>,
}

impl Value {
    pub open spec fn lines_view(&self) -> Option<Seq<Seq<char>>> {
        match self.lines {
            Some(v) => Some(views(v@)),
            None => None,
        }
    }

    /// The single line of the field; absent is `None`, more or fewer lines an error.
    pub fn one_line(&self) -> (r: Result<Option<String>, Error>)
        ensures
            opt_string_result_view(r) == one_line_spec(self.lines_view(), self.key@),
    {
        match &self.lines {
            None => Ok(None),
            Some(ls) => {
                if ls.len() == 1 {
                    Ok(Some(ls[0].clone()))
                } else {
                    Err(Error::NotOneLine(self.key.clone()))
                }
            },
        }
    }

    /// The single line of a field that must be present.
    pub fn one_line_req(&self) -> (r: Result<String, Error>)
        ensures
            string_result_view(r) == one_line_req_spec(self.lines_view(), self.key@),
    {
        match self.one_line() {
            Ok(Some(l)) => Ok(l),
            Ok(None) => Err(Error::Required(self.key.clone())),
            Err(e) => Err(e),
        }
    }

    /// The comma-separated items of the field (none when absent).
    pub fn split_comma(&self) -> (r: Vec<String>)
        ensures
            views(r@) == comma_items_of(self.lines_view()),
    {
        match &self.lines {
            None => Vec::new(),
            Some(ls) => split_comma_lines(ls),
        }
    }
}


/// Each field of `m` with its lines joined by line feeds.
pub open spec fn joined_fields(m: Map<Seq<char>, Seq<Seq<char>>>) -> Map<Seq<char>, Seq<char>> {
    m.map_values(|ls: Seq<Seq<char>>| join_with(ls, seq!['\n']))
}

pub open spec fn pair_views(v: Seq<(String, String)>) -> Seq<(Seq<char>, Seq<char>)> {
    v.map_values(|p: (String, String)| (p.0@, p.1@))
}

/// The fields of a stanza, each once, with its lines joined by line feeds.
pub fn export_fields(map: &Stanza) -> (r: Vec<(String, String)>)
    ensures
        distinct_keys(pair_views(r@)),
        to_map(pair_views(r@)) == joined_fields(map@),
{
    let fs = map.fields();
    let ghost es = entry_views(fs@);
    let mut out: Vec<(String, String)> = Vec::new();
    let mut i: usize = 0;
    proof {
        reveal_strlit("\n");
    }
    assert("\n"@ =~= seq!['\n']);
    while i < fs.len()
        invariant
            es == entry_views(fs@),
            i <= fs.len(),
            pair_views(out@) == es.take(i as int).map_values(|e: (Seq<char>, Seq<Seq<char>>)| (e.0, join_with(e.1, seq!['\n']))),
            "\n"@ == seq!['\n'],
        decreases fs.len() - i,
    {
        let k = fs[i].0.clone();
        let v = join(&fs[i].1, "\n");
        let ghost before = pair_views(out@);
        out.push((k, v));
        assert(pair_views(out@) =~= before.push((es[i as int].0, join_with(es[i as int].1, seq!['\n']))));
        assert(es.take(i + 1) =~= es.take(i as int).push(es[i as int]));
        i += 1;
    }
    assert(es.take(i as int) =~= es);
    proof {
        let f = |e: (Seq<char>, Seq<Seq<char>>)| (e.0, join_with(e.1, seq!['\n']));
        let ps = pair_views(out@);
        assert(ps =~= es.map_values(f));
        assert forall|a: int, b: int| 0 <= a < ps.len() && 0 <= b < ps.len() && a != b implies ps[a].0 != ps[b].0 by {
            assert(ps[a].0 == es[a].0);
            assert(ps[b].0 == es[b].0);
        }
        assert forall|k: Seq<char>| #[trigger] to_map(ps).dom().contains(k) <==> joined_fields(map@).dom().contains(k) by {
            lemma_to_map_contains(ps, k);
            lemma_to_map_contains(es, k);
            if to_map(ps).dom().contains(k) {
                let a = choose|a: int| 0 <= a < ps.len() && ps[a].0 == k;
                assert(es[a].0 == k);
            }
            if map@.dom().contains(k) {
                let a = choose|a: int| 0 <= a < es.len() && es[a].0 == k;
                assert(ps[a].0 == k);
            }
        }
        assert forall|k: Seq<char>| #[trigger] to_map(ps).dom().contains(k) implies to_map(ps)[k] == joined_fields(map@)[k] by {
            lemma_to_map_contains(ps, k);
            lemma_to_map_contains(es, k);
            let a = choose|a: int| 0 <= a < ps.len() && ps[a].0 == k;
            assert(es[a].0 == k);
            assert(ps[a] == f(es[a]));
        }
        assert(to_map(ps) =~= joined_fields(map@));
    }
    out
}

} // verus!
