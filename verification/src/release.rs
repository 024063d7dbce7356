//! Checksum fields (`Files`, `Checksums-Sha256`, ...): one line per file,
//! `hash size name`.

use vstd::prelude::*;
use crate::error::{Error, ErrorView};
use crate::number::{parse_u64, parse_u64_spec};
use crate::rfc822::{lookup, Stanza};
use crate::text::{split_whitespace, views, words};

verus! {

/// One file of a checksum field.
#[derive(Clone, Debug, PartialEq, Eq)]
pub struct ChecksumEntry {
    pub name: String,
    pub size: u64,
    pub hash: String,
}

/// (name, size, hash).
pub type EntryView = (Seq<char>, u64, Seq<char>);

pub open spec fn entry_view(e: ChecksumEntry) -> EntryView {
    (e.name@, e.size, e.hash@)
}

pub open spec fn entry_views(s: Seq<ChecksumEntry>) -> Seq<EntryView> {
    s.map_values(|e: ChecksumEntry| entry_view(e))
}

/// One line of a checksum field: exactly three words, the second a size.
pub open spec fn checksum_line(l: Seq<char>) -> Result<EntryView, ErrorView> {
    let w = words(l);
    if w.len() != 3 {
        Err(ErrorView::ChecksumLine(l))
    } else {
        match parse_u64_spec(w[1]) {
            None => Err(ErrorView::BadSize(w[1])),
            Some(n) => Ok((w[2], n, w[0])),
        }
    }
}

/// The first entry at or after `i` for file `name` of size `size`.
pub open spec fn find_from(t: Seq<EntryView>, name: Seq<char>, size: u64, i: int) -> Option<int>
    decreases t.len() - i,
{
    if i < 0 || i >= t.len() {
        None
    } else if t[i].0 == name && t[i].1 == size {
        Some(i)
    } else {
        find_from(t, name, size, i + 1)
    }
}

pub open spec fn find_entry(t: Seq<EntryView>, name: Seq<char>, size: u64) -> Option<int> {
    find_from(t, name, size, 0)
}

/// The table with `e` added; an entry for the same file and size is replaced.
pub open spec fn put(t: Seq<EntryView>, e: EntryView) -> Seq<EntryView> {
    match find_entry(t, e.0, e.1) {
        Some(i) => t.update(i, e),
        None => t.push(e),
    }
}

/// The table that the lines of a checksum field give, or the error of its first bad line.
pub open spec fn checksum_table(lines: Seq<Seq<char>>) -> Result<Seq<EntryView>, ErrorView>
    decreases lines.len(),
{
    if lines.len() == 0 {
        Ok(seq![])
    } else {
        match checksum_table(lines.drop_last()) {
            Err(e) => Err(e),
            Ok(t) => match checksum_line(lines.last()) {
                Err(e) => Err(e),
                Ok(e) => Ok(put(t, e)),
            },
        }
    }
}

proof fn lemma_table_err_prefix(ls: Seq<Seq<char>>, j: int)
    requires
        0 <= j <= ls.len(),
        checksum_table(ls.take(j)) is Err,
    ensures
        checksum_table(ls) == checksum_table(ls.take(j)),
    decreases ls.len() - j,
{
    if j < ls.len() {
        assert(ls.take(j + 1).drop_last() =~= ls.take(j));
        lemma_table_err_prefix(ls, j + 1);
    } else {
        assert(ls.take(j) =~= ls);
    }
}

/// What `take_checksums` gives, and the stanza it leaves.
pub open spec fn take_checksums_spec(m: Map<Seq<char>, Seq<Seq<char>>>, key: Seq<char>) -> (
    Result<Option<Seq<EntryView>>, ErrorView>,
    Map<Seq<char>, Seq<Seq<char>>>,
) {
    (
        match lookup(m, key) {
            None => Ok(None),
            Some(ls) => match checksum_table(ls) {
                Ok(t) => Ok(Some(t)),
                Err(e) => Err(e),
            },
        },
        m.remove(key),
    )
}

pub open spec fn table_result_view(r: Result<Option<Vec<ChecksumEntry>>, Error>) -> Result<
    Option<Seq<EntryView>>,
    ErrorView,
> {
    match r {
        Ok(Some(v)) => Ok(Some(entry_views(v@))),
        Ok(None) => Ok(None),
        Err(e) => Err(e@),
    }
}

pub(crate) fn find_exec(t: &Vec<ChecksumEntry>, name: &String, size: u64) -> (r: Option<usize>)
    ensures
        match r {
            Some(i) => find_entry(entry_views(t@), name@, size) == Some(i as int) && i < t.len(),
            None => find_entry(entry_views(t@), name@, size) is None,
        },
{
    let mut i: usize = 0;
    while i < t.len()
        invariant
            i <= t.len(),
            find_from(entry_views(t@), name@, size, i as int) == find_entry(entry_views(t@), name@, size),
        decreases t.len() - i,
    {
        if t[i].name == *name && t[i].size == size {
            return Some(i);
        }
        i += 1;
    }
    None
}

/// The table of a checksum field's lines.
pub fn checksum_entries(lines: &Vec<String>) -> (r: Result<Vec<ChecksumEntry>, Error>)
    ensures
        match r {
            Ok(v) => checksum_table(views(lines@)) == Ok::<Seq<EntryView>, ErrorView>(entry_views(v@)),
            Err(e) => checksum_table(views(lines@)) == Err::<Seq<EntryView>, ErrorView>(e@),
        },
{
    let mut out: Vec<ChecksumEntry> = Vec::new();
    let mut i: usize = 0;
    assert(views(lines@).take(0) =~= Seq::<Seq<char>>::empty());
    assert(entry_views(out@) =~= seq![]);
    while i < lines.len()
        invariant
            i <= lines.len(),
            checksum_table(views(lines@).take(i as int)) == Ok::<Seq<EntryView>, ErrorView>(entry_views(out@)),
        decreases lines.len() - i,
    {
        let ghost pre = views(lines@).take(i as int);
        assert(views(lines@).take(i + 1).drop_last() =~= pre);
        assert(views(lines@).take(i + 1).last() == lines@[i as int]@);
        let line = &lines[i];
        let w = split_whitespace(line.as_str());
        if w.len() != 3 {
            proof {
                lemma_table_err_prefix(views(lines@), i + 1);
            }
            return Err(Error::ChecksumLine(line.clone()));
        }
        assert(views(w@)[1] == w@[1]@);
        let size = match parse_u64(w[1].as_str()) {
            None => {
                proof {
                    lemma_table_err_prefix(views(lines@), i + 1);
                }
                return Err(Error::BadSize(w[1].clone()));
            },
            Some(n) => n,
        };
        let e = ChecksumEntry { name: w[2].clone(), size, hash: w[0].clone() };
        let ghost ev = entry_view(e);
        let ghost old_out = entry_views(out@);
        match find_exec(&out, &e.name, size) {
            Some(k) => {
                out.set(k, e);
                assert(entry_views(out@) =~= old_out.update(k as int, ev));
            },
            None => {
                out.push(e);
                assert(entry_views(out@) =~= old_out.push(ev));
            },
        }
        i += 1;
    }
    assert(views(lines@).take(i as int) =~= views(lines@));
    Ok(out)
}

/// Takes a checksum field out of the stanza and reads it; `None` when absent.
pub fn take_checksums(map: &mut Stanza, key: &str) -> (r: Result<Option<Vec<ChecksumEntry>>, Error>)
    ensures
        (table_result_view(r), final(map)@) == take_checksums_spec(old(map)@, key@),
{
    match map.remove(key) {
        None => Ok(None),
        Some(lines) => match checksum_entries(&lines) {
            Ok(t) => Ok(Some(t)),
            Err(e) => Err(e),
        },
    }
}


/// No two entries of a table are for the same file and size.
pub open spec fn distinct_files(t: Seq<EntryView>) -> bool {
    forall|i: int, j: int|
        0 <= i < t.len() && 0 <= j < t.len() && i != j ==> !(t[i].0 == t[j].0 && t[i].1 == t[j].1)
}

proof fn lemma_find_from(t: Seq<EntryView>, name: Seq<char>, size: u64, i: int)
    requires
        0 <= i,
    ensures
        match find_from(t, name, size, i) {
            Some(k) => i <= k < t.len() && t[k].0 == name && t[k].1 == size,
            None => forall|j: int| i <= j < t.len() ==> !(t[j].0 == name && t[j].1 == size),
        },
    decreases t.len() - i,
{
    if i < t.len() && !(t[i].0 == name && t[i].1 == size) {
        lemma_find_from(t, name, size, i + 1);
    }
}

/// A checksum table names each file (with its size) once: a later line for
/// the same file and size replaces the earlier one's hash.
pub proof fn law_checksum_table_distinct(lines: Seq<Seq<char>>)
    requires
        checksum_table(lines) is Ok,
    ensures
        distinct_files(checksum_table(lines)->Ok_0),
    decreases lines.len(),
{
    if lines.len() > 0 {
        law_checksum_table_distinct(lines.drop_last());
        let t = checksum_table(lines.drop_last())->Ok_0;
        let e = checksum_line(lines.last())->Ok_0;
        lemma_find_from(t, e.0, e.1, 0);
    }
}

} // verus!
