//! Source package stanzas (as in `Sources` indices).

use vstd::prelude::*;
use crate::checksum::{hex_decode, parse_md5, parse_sha256, MD5, SHA256};
use crate::release::{
    entry_view, entry_views, find_entry, find_exec, find_from, take_checksums, take_checksums_spec, ChecksumEntry,
    EntryView,
};
use crate::deps::{dependency_views, parse_dep, parse_dep_spec, Dependency, DependencyView};
use crate::error::{Error, ErrorView};
use crate::ident::{identity_views, people_from, Identity};
use crate::pkg::{parse_priority, priority_named, Priority};
use crate::rfc822::{comma_items_of, lookup, one_line_req_spec, one_line_spec, Stanza};
use crate::text::{split_whitespace, str_eq, views, words};
use crate::vcs::{extract, extract_from, vcs_field, vcs_field_count, vcs_views, Vcs, VcsView};

verus! {

/// Source package specific fields.
#[derive(Clone, Debug, PartialEq, Eq)]
pub struct Source {
    pub format: SourceFormat,
    pub binaries: Vec<SourceBinary>,
    pub files: Vec<SourceArchive>,
    pub vcs: Vec<Vcs>,
    pub directory: String,
    pub standards_version: String,
    pub build_dep: Vec<Dependency>,
    pub build_dep_arch: Vec<Dependency>,
    pub build_dep_indep: Vec<Dependency>,
    pub build_conflict: Vec<Dependency>,
    pub build_conflict_arch: Vec<Dependency>,
    pub build_conflict_indep: Vec<Dependency>,
    pub uploaders: Vec<Identity>,
}

/// The `Files` making up a source package.
#[derive(Clone, Debug, PartialEq, Eq)]
pub struct SourceArchive {
    pub name: String,
    pub size: u64,
    pub md5: MD5,
    pub sha256: Option<SHA256>,
}

/// Information on the binary packages built from a source package.
#[derive(Clone, Debug, PartialEq, Eq)]
pub struct SourceBinary {
    pub name: String,
    pub style: String,
    pub section: String,
    pub priority: Priority,
    pub extras: Vec<String>,
}

/// The Debian "format" name for the source layout.
#[derive(Copy, Clone, Debug, PartialEq, Eq, Hash)]
pub enum SourceFormat {
    Original,
    Quilt3dot0,
    Native3dot0,
    Git3dot0,
}

pub struct BinaryView {
    pub name: Seq<char>,
    pub style: Seq<char>,
    pub section: Seq<char>,
    pub priority: Priority,
    pub extras: Seq<Seq<char>>,
}

impl View for SourceBinary {
    type V = BinaryView;

    open spec fn view(&self) -> BinaryView {
        BinaryView {
            name: self.name@,
            style: self.style@,
            section: self.section@,
            priority: self.priority,
            extras: views(self.extras@),
        }
    }
}

pub open spec fn binary_views(v: Seq<SourceBinary>) -> Seq<BinaryView> {
    v.map_values(|b: SourceBinary| b@)
}

pub struct ArchiveView {
    pub name: Seq<char>,
    pub size: u64,
    pub md5: Seq<u8>,
    pub sha256: Option<Seq<u8>>,
}

impl View for SourceArchive {
    type V = ArchiveView;

    open spec fn view(&self) -> ArchiveView {
        ArchiveView {
            name: self.name@,
            size: self.size,
            md5: self.md5@,
            sha256: match self.sha256 {
                Some(h) => Some(h@),
                None => None,
            },
        }
    }
}

pub open spec fn archive_views(v: Seq<SourceArchive>) -> Seq<ArchiveView> {
    v.map_values(|a: SourceArchive| a@)
}

/// The format that a `Format` value names, if any.
pub open spec fn format_named(s: Seq<char>) -> Option<SourceFormat> {
    if s == "3.0 (quilt)"@ {
        Some(SourceFormat::Quilt3dot0)
    } else if s == "1.0"@ {
        Some(SourceFormat::Original)
    } else if s == "3.0 (git)"@ {
        Some(SourceFormat::Git3dot0)
    } else if s == "3.0 (native)"@ {
        Some(SourceFormat::Native3dot0)
    } else {
        None
    }
}

/// Reads the `Format` of a source package.
pub fn parse_format(string: &str) -> (r: Result<SourceFormat, Error>)
    ensures
        match format_named(string@) {
            Some(f) => r == Ok::<SourceFormat, Error>(f),
            None => r matches Err(e) && e@ == ErrorView::UnsupportedFormat(string@),
        },
{
    if str_eq(string, "3.0 (quilt)") {
        Ok(SourceFormat::Quilt3dot0)
    } else if str_eq(string, "1.0") {
        Ok(SourceFormat::Original)
    } else if str_eq(string, "3.0 (git)") {
        Ok(SourceFormat::Git3dot0)
    } else if str_eq(string, "3.0 (native)") {
        Ok(SourceFormat::Native3dot0)
    } else {
        Err(Error::UnsupportedFormat(String::from_str(string)))
    }
}

/// A binary package known only by name (from `Binary`, without `Package-List`).
pub open spec fn legacy_binary(name: Seq<char>) -> BinaryView {
    BinaryView { name, style: seq![], section: seq![], priority: Priority::Unknown, extras: seq![] }
}

/// The binary packages that `Package-List` lines describe, given the names
/// from `Binary` not yet seen. Each line is `name style section priority
/// extras...`; each name must be one of the names not yet seen; every name
/// must be seen by the end.
pub open spec fn package_list_from(lines: Seq<Seq<char>>, names: Set<Seq<char>>) -> Result<Seq<BinaryView>, ErrorView>
    decreases lines.len(),
{
    if lines.len() == 0 {
        if names == Set::<Seq<char>>::empty() {
            Ok(seq![])
        } else {
            Err(ErrorView::BinaryNotInPackageList)
        }
    } else {
        let l = lines[0];
        let w = words(l);
        if w.len() < 4 {
            Err(ErrorView::PackageListLineTooShort(l))
        } else if !names.contains(w[0]) {
            Err(ErrorView::NotInBinary(w[0]))
        } else {
            match priority_named(w[3]) {
                None => Err(ErrorView::UnsupportedPriority(w[3])),
                Some(p) => match package_list_from(lines.drop_first(), names.remove(w[0])) {
                    Err(e) => Err(e),
                    Ok(rest) => Ok(seq![BinaryView {
                        name: w[0],
                        style: w[1],
                        section: w[2],
                        priority: p,
                        extras: w.subrange(4, w.len() as int),
                    }] + rest),
                },
            }
        }
    }
}

/// What `take_package_list` gives, and the stanza it leaves.
pub open spec fn take_package_list_spec(m: Map<Seq<char>, Seq<Seq<char>>>) -> (Result<Seq<BinaryView>, ErrorView>, Map<Seq<char>, Seq<Seq<char>>>) {
    let m1 = m.remove("Package-List"@);
    let m2 = m1.remove("Binary"@);
    let names = comma_items_of(lookup(m1, "Binary"@));
    match lookup(m, "Package-List"@) {
        None => (Ok(names.map_values(|n: Seq<char>| legacy_binary(n))), m2),
        Some(pl) => (package_list_from(pl, names.to_set()), m2),
    }
}

pub open spec fn binaries_result_view(r: Result<Vec<SourceBinary>, Error>) -> Result<Seq<BinaryView>, ErrorView> {
    match r {
        Ok(v) => Ok(binary_views(v@)),
        Err(e) => Err(e@),
    }
}

fn contains_name(names: &Vec<String>, name: &String) -> (r: bool)
    ensures
        r == views(names@).contains(name@),
{
    let mut i: usize = 0;
    while i < names.len()
        invariant
            i <= names.len(),
            forall|k: int| 0 <= k < i ==> names@[k]@ != name@,
        decreases names.len() - i,
    {
        if names[i] == *name {
            assert(views(names@)[i as int] == name@);
            return true;
        }
        i += 1;
    }
    proof {
        if views(names@).contains(name@) {
            let k = choose|k: int| 0 <= k < views(names@).len() && views(names@)[k] == name@;
            assert(names@[k]@ == name@);
        }
    }
    false
}

/// `s` without any occurrence of `n`.
pub open spec fn filter_out(s: Seq<Seq<char>>, n: Seq<char>) -> Seq<Seq<char>>
    decreases s.len(),
{
    if s.len() == 0 {
        seq![]
    } else if s.last() == n {
        filter_out(s.drop_last(), n)
    } else {
        filter_out(s.drop_last(), n).push(s.last())
    }
}

proof fn lemma_filter_out_set(s: Seq<Seq<char>>, n: Seq<char>)
    ensures
        filter_out(s, n).to_set() == s.to_set().remove(n),
    decreases s.len(),
{
    if s.len() > 0 {
        let init = s.drop_last();
        lemma_filter_out_set(init, n);
        assert(s =~= init.push(s.last()));
        assert forall|x: Seq<char>| s.to_set().contains(x) <==> (init.to_set().contains(x) || x == s.last()) by {
            if s.contains(x) {
                let k = choose|k: int| 0 <= k < s.len() && s[k] == x;
                if k < init.len() {
                    assert(init[k] == x);
                }
            }
            if init.contains(x) {
                let k = choose|k: int| 0 <= k < init.len() && init[k] == x;
                assert(s[k] == x);
            }
            if x == s.last() {
                assert(s[s.len() - 1] == x);
            }
        }
        let f = filter_out(init, n);
        if s.last() != n {
            assert forall|x: Seq<char>| f.push(s.last()).to_set().contains(x) <==> (f.to_set().contains(x) || x == s.last()) by {
                let g = f.push(s.last());
                if g.contains(x) {
                    let k = choose|k: int| 0 <= k < g.len() && g[k] == x;
                    if k < f.len() {
                        assert(f[k] == x);
                    }
                }
                if f.contains(x) {
                    let k = choose|k: int| 0 <= k < f.len() && f[k] == x;
                    assert(g[k] == x);
                }
                if x == s.last() {
                    assert(g[g.len() - 1] == x);
                }
            }
        }
        assert forall|x: Seq<char>| filter_out(s, n).to_set().contains(x) <==> s.to_set().remove(n).contains(x) by {
            assert(s.to_set().contains(x) <==> (init.to_set().contains(x) || x == s.last()));
            assert(f.to_set().contains(x) <==> init.to_set().remove(n).contains(x));
            if s.last() == n {
                assert(filter_out(s, n) == f);
            } else {
                assert(filter_out(s, n) == f.push(s.last()));
                assert(f.push(s.last()).to_set().contains(x) <==> (f.to_set().contains(x) || x == s.last()));
            }
        }
        assert(filter_out(s, n).to_set() =~= s.to_set().remove(n));
    } else {
        assert(filter_out(s, n).to_set() =~= s.to_set().remove(n));
    }
}

fn without_name(names: Vec<String>, name: &String) -> (r: Vec<String>)
    ensures
        views(r@).to_set() == views(names@).to_set().remove(name@),
{
    let mut out: Vec<String> = Vec::new();
    let mut i: usize = 0;
    assert(views(out@) =~= filter_out(views(names@).take(0), name@));
    while i < names.len()
        invariant
            i <= names.len(),
            views(out@) == filter_out(views(names@).take(i as int), name@),
        decreases names.len() - i,
    {
        let ghost before = views(out@);
        assert(views(names@).take(i + 1).drop_last() =~= views(names@).take(i as int));
        assert(views(names@).take(i + 1).last() == names@[i as int]@);
        if names[i] != *name {
            out.push(names[i].clone());
            assert(views(out@) =~= before.push(names@[i as int]@));
        }
        i += 1;
    }
    assert(views(names@).take(i as int) =~= views(names@));
    proof {
        lemma_filter_out_set(views(names@), name@);
    }
    out
}

fn tail_strings(w: &Vec<String>, from: usize) -> (r: Vec<String>)
    requires
        from <= w.len(),
    ensures
        views(r@) == views(w@).subrange(from as int, w.len() as int),
{
    let mut out: Vec<String> = Vec::new();
    let mut i = from;
    while i < w.len()
        invariant
            from <= i <= w.len(),
            views(out@) == views(w@).subrange(from as int, i as int),
        decreases w.len() - i,
    {
        let ghost before = views(out@);
        out.push(w[i].clone());
        assert(views(out@) =~= before.push(w@[i as int]@));
        assert(views(w@).subrange(from as int, i + 1) =~= views(w@).subrange(from as int, i as int).push(views(w@)[i as int]));
        i += 1;
    }
    out
}

proof fn lemma_package_list_err(lines: Seq<Seq<char>>, i: int, names: Set<Seq<char>>)
    requires
        0 <= i < lines.len(),
    ensures
        lines.skip(i).drop_first() == lines.skip(i + 1),
        lines.skip(i)[0] == lines[i],
        lines.skip(i).len() > 0,
{
    assert(lines.skip(i).drop_first() =~= lines.skip(i + 1));
}

/// Takes `Package-List` and `Binary` out of the stanza and describes the
/// binary packages. Without `Package-List`, each name in `Binary` is a
/// package with nothing else known; with it, each line describes one, and
/// its names must be exactly those of `Binary`, each once.
pub fn take_package_list(map: &mut Stanza) -> (r: Result<Vec<SourceBinary>, Error>)
    ensures
        (binaries_result_view(r), final(map)@) == take_package_list_spec(old(map)@),
{
    let package_list = map.remove("Package-List");
    let binary = map.remove_value("Binary");
    let names = binary.split_comma();
    let package_list = match package_list {
        Some(list) => list,
        None => {
            let mut out: Vec<SourceBinary> = Vec::new();
            let mut i: usize = 0;
            while i < names.len()
                invariant
                    i <= names.len(),
                    binary_views(out@) == views(names@).take(i as int).map_values(|n: Seq<char>| legacy_binary(n)),
                decreases names.len() - i,
            {
                let extras: Vec<String> = Vec::new();
                assert(views(extras@) =~= seq![]);
                let ghost before = binary_views(out@);
                let ghost nv = names@[i as int]@;
                out.push(SourceBinary {
                    name: names[i].clone(),
                    style: String::new(),
                    section: String::new(),
                    priority: Priority::Unknown,
                    extras,
                });
                assert(binary_views(out@) =~= before.push(legacy_binary(nv)));
                assert(views(names@).take(i + 1).map_values(|n: Seq<char>| legacy_binary(n)) =~= views(names@).take(i as int).map_values(|n: Seq<char>| legacy_binary(n)).push(legacy_binary(nv)));
                i += 1;
            }
            assert(views(names@).take(i as int) =~= views(names@));
            return Ok(out);
        },
    };
    let ghost pl = views(package_list@);
    let ghost all_names = views(names@).to_set();
    let mut binary_names = names;
    let mut binaries: Vec<SourceBinary> = Vec::new();
    let mut i: usize = 0;
    assert(pl.skip(0) =~= pl);
    assert(binary_views(binaries@) =~= seq![]);
    while i < package_list.len()
        invariant
            pl == views(package_list@),
            i <= package_list.len(),
            map@ == old(map)@.remove("Package-List"@).remove("Binary"@),
            lookup(old(map)@, "Package-List"@) == Some(pl),
            all_names == comma_items_of(lookup(old(map)@.remove("Package-List"@), "Binary"@)).to_set(),
            match package_list_from(pl, all_names) {
                Ok(all) => package_list_from(pl.skip(i as int), views(binary_names@).to_set()) matches Ok(rest)
                    && all == binary_views(binaries@) + rest,
                Err(e) => package_list_from(pl.skip(i as int), views(binary_names@).to_set()) == Err::<Seq<BinaryView>, ErrorView>(e),
            },
        decreases package_list.len() - i,
    {
        proof {
            lemma_package_list_err(pl, i as int, views(binary_names@).to_set());
        }
        let line = &package_list[i];
        let parts = split_whitespace(line.as_str());
        if parts.len() < 4 {
            return Err(Error::PackageListLineTooShort(line.clone()));
        }
        let name = &parts[0];
        assert(views(parts@)[0] == parts@[0]@);
        assert(views(parts@)[3] == parts@[3]@);
        if !contains_name(&binary_names, name) {
            return Err(Error::NotInBinary(name.clone()));
        }
        binary_names = without_name(binary_names, name);
        let priority = match parse_priority(parts[3].as_str()) {
            Ok(p) => p,
            Err(e) => {
                return Err(e);
            },
        };
        let extras = tail_strings(&parts, 4);
        let b = SourceBinary {
            name: name.clone(),
            style: parts[1].clone(),
            section: parts[2].clone(),
            priority,
            extras,
        };
        let ghost bv = b@;
        let ghost before = binary_views(binaries@);
        binaries.push(b);
        assert(binary_views(binaries@) =~= before.push(bv));
        proof {
            match package_list_from(pl, all_names) {
                Ok(all) => {
                    let rest = package_list_from(pl.skip(i + 1), views(binary_names@).to_set())->Ok_0;
                    assert(binary_views(binaries@) + rest =~= before + (seq![bv] + rest));
                },
                Err(e) => {},
            }
        }
        i += 1;
    }
    assert(pl.skip(i as int) =~= Seq::<Seq<char>>::empty());
    if binary_names.len() > 0 {
        assert(views(binary_names@)[0] == binary_names@[0]@);
        assert(views(binary_names@).to_set().contains(binary_names@[0]@));
        return Err(Error::BinaryNotInPackageList);
    }
    assert(views(binary_names@).to_set() =~= Set::<Seq<char>>::empty());
    assert(binary_views(binaries@) =~= binary_views(binaries@) + seq![]);
    Ok(binaries)
}


/// The archives for the `Files` table `md5s`, each paired with its entry in
/// the `Checksums-Sha256` table `shas` (same name and size), if any; every
/// entry of `shas` must find its file.
pub open spec fn archives_from(md5s: Seq<EntryView>, shas: Seq<EntryView>) -> Result<Seq<ArchiveView>, ErrorView>
    decreases md5s.len(),
{
    if md5s.len() == 0 {
        if shas.len() == 0 {
            Ok(seq![])
        } else {
            Err(ErrorView::UnmatchedSha256)
        }
    } else {
        let e = md5s[0];
        let (sha, rest_shas) = match find_entry(shas, e.0, e.1) {
            Some(k) => (Some(shas[k].2), shas.remove(k)),
            None => (None, shas),
        };
        match hex_decode(e.2, 16) {
            None => Err(ErrorView::BadChecksum(e.2)),
            Some(md5) => {
                let sha_bytes: Result<Option<Seq<u8>>, ErrorView> = match sha {
                    None => Ok(None),
                    Some(h) => match hex_decode(h, 32) {
                        None => Err(ErrorView::BadChecksum(h)),
                        Some(b) => Ok(Some(b)),
                    },
                };
                match sha_bytes {
                    Err(x) => Err(x),
                    Ok(sv) => match archives_from(md5s.drop_first(), rest_shas) {
                        Err(x) => Err(x),
                        Ok(rest) => Ok(seq![ArchiveView { name: e.0, size: e.1, md5, sha256: sv }] + rest),
                    },
                }
            },
        }
    }
}

/// What `take_files` gives, and the stanza it leaves.
pub open spec fn take_files_spec(m: Map<Seq<char>, Seq<Seq<char>>>) -> (Result<Seq<ArchiveView>, ErrorView>, Map<Seq<char>, Seq<Seq<char>>>) {
    let (r1, m1) = take_checksums_spec(m, "Files"@);
    match r1 {
        Err(e) => (Err(e), m1),
        Ok(None) => (Err(ErrorView::Required("Files"@)), m1),
        Ok(Some(md5s)) => {
            let (r2, m2) = take_checksums_spec(m1, "Checksums-Sha256"@);
            match r2 {
                Err(e) => (Err(e), m2),
                Ok(o) => (archives_from(md5s, match o {
                    Some(t) => t,
                    None => seq![],
                }), m2),
            }
        },
    }
}

pub open spec fn archives_result_view(r: Result<Vec<SourceArchive>, Error>) -> Result<Seq<ArchiveView>, ErrorView> {
    match r {
        Ok(v) => Ok(archive_views(v@)),
        Err(e) => Err(e@),
    }
}

proof fn lemma_skip_first<A>(s: Seq<A>, i: int)
    requires
        0 <= i < s.len(),
    ensures
        s.skip(i).drop_first() == s.skip(i + 1),
        s.skip(i)[0] == s[i],
        s.skip(i).len() > 0,
{
    assert(s.skip(i).drop_first() =~= s.skip(i + 1));
}

/// Takes `Files` and `Checksums-Sha256` out of the stanza and describes the
/// archives, one per file of `Files`, in the order of its lines.
pub fn take_files(map: &mut Stanza) -> (r: Result<Vec<SourceArchive>, Error>)
    ensures
        (archives_result_view(r), final(map)@) == take_files_spec(old(map)@),
{
    let md5s = match take_checksums(map, "Files") {
        Err(e) => {
            return Err(e);
        },
        Ok(None) => {
            return Err(Error::Required(String::from_str("Files")));
        },
        Ok(Some(t)) => t,
    };
    let mut shas = match take_checksums(map, "Checksums-Sha256") {
        Err(e) => {
            return Err(e);
        },
        Ok(None) => {
            let t: Vec<ChecksumEntry> = Vec::new();
            assert(entry_views(t@) =~= seq![]);
            t
        },
        Ok(Some(t)) => t,
    };
    let ghost md = entry_views(md5s@);
    let ghost sh0 = entry_views(shas@);
    let mut archives: Vec<SourceArchive> = Vec::new();
    let mut i: usize = 0;
    assert(md.skip(0) =~= md);
    assert(archive_views(archives@) =~= seq![]);
    while i < md5s.len()
        invariant
            md == entry_views(md5s@),
            i <= md5s.len(),
            map@ == take_files_spec(old(map)@).1,
            take_files_spec(old(map)@).0 == archives_from(md, sh0),
            match archives_from(md, sh0) {
                Ok(all) => archives_from(md.skip(i as int), entry_views(shas@)) matches Ok(rest)
                    && all == archive_views(archives@) + rest,
                Err(e) => archives_from(md.skip(i as int), entry_views(shas@)) == Err::<Seq<ArchiveView>, ErrorView>(e),
            },
        decreases md5s.len() - i,
    {
        proof {
            lemma_skip_first(md, i as int);
        }
        let e = &md5s[i];
        let ghost ev = entry_view(*e);
        let ghost before_shas = entry_views(shas@);
        let sha = match find_exec(&shas, &e.name, e.size) {
            Some(k) => {
                let x = shas.remove(k);
                assert(entry_views(shas@) =~= before_shas.remove(k as int));
                Some(x.hash)
            },
            None => None,
        };
        let md5 = match parse_md5(e.hash.as_str()) {
            Ok(a) => a,
            Err(x) => {
                return Err(x);
            },
        };
        let sha256 = match sha {
            None => None,
            Some(h) => match parse_sha256(h.as_str()) {
                Ok(a) => Some(a),
                Err(x) => {
                    return Err(x);
                },
            },
        };
        let a = SourceArchive { name: e.name.clone(), size: e.size, md5, sha256 };
        let ghost av = a@;
        let ghost before = archive_views(archives@);
        archives.push(a);
        assert(archive_views(archives@) =~= before.push(av));
        proof {
            match archives_from(md, sh0) {
                Ok(all) => {
                    let rest = archives_from(md.skip(i + 1), entry_views(shas@))->Ok_0;
                    assert(archive_views(archives@) + rest =~= before + (seq![av] + rest));
                },
                Err(x) => {},
            }
        }
        i += 1;
    }
    assert(md.skip(i as int) =~= Seq::<EntryView>::empty());
    if shas.len() > 0 {
        return Err(Error::UnmatchedSha256);
    }
    assert(archive_views(archives@) =~= archive_views(archives@) + seq![]);
    Ok(archives)
}


pub struct SourceView {
    pub format: SourceFormat,
    pub binaries: Seq<BinaryView>,
    pub files: Seq<ArchiveView>,
    pub vcs: Seq<VcsView>,
    pub directory: Seq<char>,
    pub standards_version: Seq<char>,
    pub build_dep: Seq<DependencyView>,
    pub build_dep_arch: Seq<DependencyView>,
    pub build_dep_indep: Seq<DependencyView>,
    pub build_conflict: Seq<DependencyView>,
    pub build_conflict_arch: Seq<DependencyView>,
    pub build_conflict_indep: Seq<DependencyView>,
    pub uploaders: Seq<(Seq<char>, Seq<char>)>,
}

impl View for Source {
    type V = SourceView;

    open spec fn view(&self) -> SourceView {
        SourceView {
            format: self.format,
            binaries: binary_views(self.binaries@),
            files: archive_views(self.files@),
            vcs: vcs_views(self.vcs@),
            directory: self.directory@,
            standards_version: self.standards_version@,
            build_dep: dependency_views(self.build_dep@),
            build_dep_arch: dependency_views(self.build_dep_arch@),
            build_dep_indep: dependency_views(self.build_dep_indep@),
            build_conflict: dependency_views(self.build_conflict@),
            build_conflict_arch: dependency_views(self.build_conflict_arch@),
            build_conflict_indep: dependency_views(self.build_conflict_indep@),
            uploaders: identity_views(self.uploaders@),
        }
    }
}

pub type FieldMap = Map<Seq<char>, Seq<Seq<char>>>;

/// `Format`, then the binary packages, then the files.
pub open spec fn src_head_spec(m: FieldMap) -> (Result<(SourceFormat, Seq<BinaryView>, Seq<ArchiveView>), ErrorView>, FieldMap) {
    let m1 = m.remove("Format"@);
    match one_line_req_spec(lookup(m, "Format"@), "Format"@) {
        Err(e) => (Err(e), m1),
        Ok(l) => match format_named(l) {
            None => (Err(ErrorView::UnsupportedFormat(l)), m1),
            Some(f) => {
                let (rb, m2) = take_package_list_spec(m1);
                match rb {
                    Err(e) => (Err(e), m2),
                    Ok(bs) => {
                        let (rf, m3) = take_files_spec(m2);
                        match rf {
                            Err(e) => (Err(e), m3),
                            Ok(fs) => (Ok((f, bs, fs)), m3),
                        }
                    },
                }
            },
        },
    }
}

/// `Directory`, then the version control fields, then `Standards-Version` (empty when absent).
pub open spec fn src_middle_spec(m: FieldMap) -> (Result<(Seq<char>, Seq<VcsView>, Seq<char>), ErrorView>, FieldMap) {
    let m1 = m.remove("Directory"@);
    match one_line_req_spec(lookup(m, "Directory"@), "Directory"@) {
        Err(e) => (Err(e), m1),
        Ok(d) => {
            let (vs, m2) = extract_from(m1, 0);
            let m3 = m2.remove("Standards-Version"@);
            match one_line_spec(lookup(m2, "Standards-Version"@), "Standards-Version"@) {
                Err(e) => (Err(e), m3),
                Ok(o) => (Ok((d, vs, match o {
                    Some(x) => x,
                    None => seq![],
                })), m3),
            }
        },
    }
}

/// The dependency fields of a source package, in the order they are read.
pub open spec fn dep_key(i: int) -> Seq<char> {
    if i == 0 {
        "Build-Depends"@
    } else if i == 1 {
        "Build-Depends-Arch"@
    } else if i == 2 {
        "Build-Depends-Indep"@
    } else if i == 3 {
        "Build-Conflicts"@
    } else if i == 4 {
        "Build-Conflicts-Arch"@
    } else {
        "Build-Conflicts-Indep"@
    }
}

fn dep_key_exec(i: usize) -> (r: &'static str)
    requires
        i < 6,
    ensures
        r@ == dep_key(i as int),
{
    match i {
        0 => "Build-Depends",
        1 => "Build-Depends-Arch",
        2 => "Build-Depends-Indep",
        3 => "Build-Conflicts",
        4 => "Build-Conflicts-Arch",
        _ => "Build-Conflicts-Indep",
    }
}

/// The dependency fields from the `i`-th on; an absent field is an empty list.
pub open spec fn dep_fields_from(m: FieldMap, i: int) -> (Result<Seq<Seq<DependencyView>>, ErrorView>, FieldMap)
    decreases 6 - i,
{
    if i < 0 || i >= 6 {
        (Ok(seq![]), m)
    } else {
        let key = dep_key(i);
        let ls = match lookup(m, key) {
            Some(l) => l,
            None => seq![],
        };
        let m1 = m.remove(key);
        match parse_dep_spec(ls) {
            Err(e) => (Err(e), m1),
            Ok(d) => {
                let (r2, m2) = dep_fields_from(m1, i + 1);
                match r2 {
                    Err(e) => (Err(e), m2),
                    Ok(ds) => (Ok(seq![d] + ds), m2),
                }
            },
        }
    }
}

/// `Uploaders` (none when absent).
pub open spec fn src_uploaders_spec(m: FieldMap) -> (Result<Seq<(Seq<char>, Seq<char>)>, ErrorView>, FieldMap) {
    let m1 = m.remove("Uploaders"@);
    match one_line_spec(lookup(m, "Uploaders"@), "Uploaders"@) {
        Err(e) => (Err(e), m1),
        Ok(None) => (Ok(seq![]), m1),
        Ok(Some(l)) => match people_from(l, 0) {
            Err(rest) => (Err(ErrorView::BadIdentity(rest)), m1),
            Ok(ps) => (Ok(ps), m1),
        },
    }
}

/// What `parse_src` gives, and the stanza it leaves: the fields are read in
/// the order of `Source`'s fields, and the first error stops the reading.
pub open spec fn parse_src_spec(m: FieldMap) -> (Result<SourceView, ErrorView>, FieldMap) {
    let (ra, ma) = src_head_spec(m);
    match ra {
        Err(e) => (Err(e), ma),
        Ok((f, bs, fs)) => {
            let (rb, mb) = src_middle_spec(ma);
            match rb {
                Err(e) => (Err(e), mb),
                Ok((d, vs, sv)) => {
                    let (rc, mc) = dep_fields_from(mb, 0);
                    match rc {
                        Err(e) => (Err(e), mc),
                        Ok(ds) => {
                            let (rd, md) = src_uploaders_spec(mc);
                            match rd {
                                Err(e) => (Err(e), md),
                                Ok(us) => (Ok(SourceView {
                                    format: f,
                                    binaries: bs,
                                    files: fs,
                                    vcs: vs,
                                    directory: d,
                                    standards_version: sv,
                                    build_dep: ds[0],
                                    build_dep_arch: ds[1],
                                    build_dep_indep: ds[2],
                                    build_conflict: ds[3],
                                    build_conflict_arch: ds[4],
                                    build_conflict_indep: ds[5],
                                    uploaders: us,
                                }), md),
                            }
                        },
                    }
                },
            }
        },
    }
}

pub open spec fn source_result_view(r: Result<Source, Error>) -> Result<SourceView, ErrorView> {
    match r {
        Ok(s) => Ok(s@),
        Err(e) => Err(e@),
    }
}

fn src_head(map: &mut Stanza) -> (r: Result<(SourceFormat, Vec<SourceBinary>, Vec<SourceArchive>), Error>)
    ensures
        (match r {
            Ok((f, b, a)) => Ok((f, binary_views(b@), archive_views(a@))),
            Err(e) => Err(e@),
        }, final(map)@) == src_head_spec(old(map)@),
{
    let line = match map.remove_value("Format").one_line_req() {
        Ok(l) => l,
        Err(e) => {
            return Err(e);
        },
    };
    let format = match parse_format(line.as_str()) {
        Ok(f) => f,
        Err(e) => {
            return Err(e);
        },
    };
    let binaries = match take_package_list(map) {
        Ok(b) => b,
        Err(e) => {
            return Err(e);
        },
    };
    let files = match take_files(map) {
        Ok(a) => a,
        Err(e) => {
            return Err(e);
        },
    };
    Ok((format, binaries, files))
}

fn src_middle(map: &mut Stanza) -> (r: Result<(String, Vec<Vcs>, String), Error>)
    ensures
        (match r {
            Ok((d, v, s)) => Ok((d@, vcs_views(v@), s@)),
            Err(e) => Err(e@),
        }, final(map)@) == src_middle_spec(old(map)@),
{
    let directory = match map.remove_value("Directory").one_line_req() {
        Ok(l) => l,
        Err(e) => {
            return Err(e);
        },
    };
    let vcs = extract(map);
    let standards_version = match map.remove_value("Standards-Version").one_line() {
        Ok(Some(l)) => l,
        Ok(None) => String::new(),
        Err(e) => {
            return Err(e);
        },
    };
    Ok((directory, vcs, standards_version))
}

fn src_deps(map: &mut Stanza) -> (r: Result<Vec<Vec<Dependency>>, Error>)
    ensures
        (match r {
            Ok(v) => Ok(v@.map_values(|d: Vec<Dependency>| dependency_views(d@))),
            Err(e) => Err(e@),
        }, final(map)@) == dep_fields_from(old(map)@, 0),
        r matches Ok(v) ==> v@.len() == 6,
{
    let mut out: Vec<Vec<Dependency>> = Vec::new();
    let mut i: usize = 0;
    assert(out@.map_values(|d: Vec<Dependency>| dependency_views(d@)) =~= seq![]);
    while i < 6
        invariant
            i <= 6,
            out@.len() == i,
            match dep_fields_from(old(map)@, 0) {
                (Ok(all), mf) => dep_fields_from(map@, i as int) matches (Ok(rest), m2)
                    && m2 == mf
                    && all == out@.map_values(|d: Vec<Dependency>| dependency_views(d@)) + rest,
                (Err(e), mf) => dep_fields_from(map@, i as int) == (Err::<Seq<Seq<DependencyView>>, ErrorView>(e), mf),
            },
        decreases 6 - i,
    {
        let key = dep_key_exec(i);
        let lines = match map.remove(key) {
            Some(l) => l,
            None => {
                let l: Vec<String> = Vec::new();
                assert(views(l@) =~= seq![]);
                l
            },
        };
        match parse_dep(&lines) {
            Ok(d) => {
                let ghost before = out@.map_values(|d: Vec<Dependency>| dependency_views(d@));
                let ghost dv = dependency_views(d@);
                out.push(d);
                assert(out@.map_values(|d: Vec<Dependency>| dependency_views(d@)) =~= before.push(dv));
                proof {
                    match dep_fields_from(old(map)@, 0) {
                        (Ok(all), mf) => {
                            let rest = dep_fields_from(map@, i + 1).0->Ok_0;
                            assert(before.push(dv) + rest =~= before + (seq![dv] + rest));
                        },
                        (Err(e), mf) => {},
                    }
                }
            },
            Err(e) => {
                return Err(e);
            },
        }
        i += 1;
    }
    assert(out@.map_values(|d: Vec<Dependency>| dependency_views(d@)) =~= out@.map_values(|d: Vec<Dependency>| dependency_views(d@)) + seq![]);
    Ok(out)
}

fn src_uploaders(map: &mut Stanza) -> (r: Result<Vec<Identity>, Error>)
    ensures
        (match r {
            Ok(v) => Ok(identity_views(v@)),
            Err(e) => Err(e@),
        }, final(map)@) == src_uploaders_spec(old(map)@),
{
    match map.remove_value("Uploaders").one_line() {
        Err(e) => Err(e),
        Ok(None) => {
            let v: Vec<Identity> = Vec::new();
            assert(identity_views(v@) =~= seq![]);
            Ok(v)
        },
        Ok(Some(line)) => crate::ident::read(line.as_str()),
    }
}

/// Reads the source-package fields of a stanza, taking them out of it; what
/// is left are the fields this does not read.
pub fn parse_src(map: &mut Stanza) -> (r: Result<Source, Error>)
    ensures
        (source_result_view(r), final(map)@) == parse_src_spec(old(map)@),
{
    let (format, binaries, files) = match src_head(map) {
        Ok(x) => x,
        Err(e) => {
            return Err(e);
        },
    };
    let (directory, vcs, standards_version) = match src_middle(map) {
        Ok(x) => x,
        Err(e) => {
            return Err(e);
        },
    };
    let mut deps = match src_deps(map) {
        Ok(x) => x,
        Err(e) => {
            return Err(e);
        },
    };
    let ghost dv = deps@.map_values(|d: Vec<Dependency>| dependency_views(d@));
    let uploaders = match src_uploaders(map) {
        Ok(x) => x,
        Err(e) => {
            return Err(e);
        },
    };
    let build_conflict_indep = deps.pop().unwrap();
    let build_conflict_arch = deps.pop().unwrap();
    let build_conflict = deps.pop().unwrap();
    let build_dep_indep = deps.pop().unwrap();
    let build_dep_arch = deps.pop().unwrap();
    let build_dep = deps.pop().unwrap();
    let r = Source {
        format,
        binaries,
        files,
        vcs,
        directory,
        standards_version,
        build_dep,
        build_dep_arch,
        build_dep_indep,
        build_conflict,
        build_conflict_arch,
        build_conflict_indep,
        uploaders,
    };
    assert(r@.build_dep == dv[0]);
    assert(r@.build_conflict_indep == dv[5]);
    Ok(r)
}


/// The names of a list of binary packages.
pub open spec fn binary_names(bs: Seq<BinaryView>) -> Seq<Seq<char>> {
    bs.map_values(|b: BinaryView| b.name)
}

pub open spec fn all_distinct(s: Seq<Seq<char>>) -> bool {
    forall|i: int, j: int| 0 <= i < s.len() && 0 <= j < s.len() && i != j ==> s[i] != s[j]
}

proof fn lemma_package_list_names(lines: Seq<Seq<char>>, names: Set<Seq<char>>)
    requires
        package_list_from(lines, names) is Ok,
    ensures
        binary_names(package_list_from(lines, names)->Ok_0).to_set() == names,
        all_distinct(binary_names(package_list_from(lines, names)->Ok_0)),
    decreases lines.len(),
{
    let bs = package_list_from(lines, names)->Ok_0;
    if lines.len() == 0 {
        assert(binary_names(bs).to_set() =~= names);
    } else {
        let w = words(lines[0]);
        let n = w[0];
        lemma_package_list_names(lines.drop_first(), names.remove(n));
        let rest = package_list_from(lines.drop_first(), names.remove(n))->Ok_0;
        let rn = binary_names(rest);
        assert(binary_names(bs) =~= seq![n] + rn);
        assert forall|x: Seq<char>| binary_names(bs).to_set().contains(x) <==> names.contains(x) by {
            assert(rn.to_set().contains(x) <==> names.remove(n).contains(x));
            if binary_names(bs).contains(x) && x != n {
                let k = choose|k: int| 0 <= k < binary_names(bs).len() && binary_names(bs)[k] == x;
                assert(rn[k - 1] == x);
            }
            if rn.contains(x) {
                let k = choose|k: int| 0 <= k < rn.len() && rn[k] == x;
                assert(binary_names(bs)[k + 1] == x);
            }
            if x == n {
                assert(binary_names(bs)[0] == x);
            }
        }
        assert(binary_names(bs).to_set() =~= names);
        assert forall|i: int, j: int| 0 <= i < binary_names(bs).len() && 0 <= j < binary_names(bs).len() && i != j
            implies binary_names(bs)[i] != binary_names(bs)[j] by {
            if i > 0 && j > 0 {
                assert(binary_names(bs)[i] == rn[i - 1]);
                assert(binary_names(bs)[j] == rn[j - 1]);
            } else if i == 0 {
                assert(rn.to_set().contains(rn[j - 1]));
            } else {
                assert(rn.to_set().contains(rn[i - 1]));
            }
        }
    }
}

/// With a `Package-List`, the binary packages that `take_package_list`
/// describes are exactly those named in `Binary`, each once.
pub proof fn law_package_list_matches_binary(m: FieldMap)
    requires
        lookup(m, "Package-List"@) is Some,
        take_package_list_spec(m).0 is Ok,
    ensures
        binary_names(take_package_list_spec(m).0->Ok_0).to_set() == comma_items_of(
            lookup(m.remove("Package-List"@), "Binary"@),
        ).to_set(),
        all_distinct(binary_names(take_package_list_spec(m).0->Ok_0)),
{
    let pl = lookup(m, "Package-List"@)->Some_0;
    lemma_package_list_names(pl, comma_items_of(lookup(m.remove("Package-List"@), "Binary"@)).to_set());
}

/// How many archives carry a SHA-256 digest.
pub open spec fn sha256_count(arcs: Seq<ArchiveView>) -> nat
    decreases arcs.len(),
{
    if arcs.len() == 0 {
        0
    } else {
        sha256_count(arcs.drop_first()) + if arcs[0].sha256 is Some {
            1nat
        } else {
            0nat
        }
    }
}

/// The archives that `take_files` describes follow the `Files` table one
/// for one (same names and sizes, same order), and every entry of the
/// `Checksums-Sha256` table lands on exactly one of them.
pub proof fn law_files_follow_table(md5s: Seq<EntryView>, shas: Seq<EntryView>)
    requires
        archives_from(md5s, shas) is Ok,
    ensures
        archives_from(md5s, shas)->Ok_0.len() == md5s.len(),
        forall|i: int|
            #![trigger archives_from(md5s, shas)->Ok_0[i]]
            0 <= i < md5s.len() ==> archives_from(md5s, shas)->Ok_0[i].name == md5s[i].0
                && archives_from(md5s, shas)->Ok_0[i].size == md5s[i].1,
        sha256_count(archives_from(md5s, shas)->Ok_0) == shas.len(),
    decreases md5s.len(),
{
    if md5s.len() > 0 {
        let e = md5s[0];
        let rest_shas = match find_entry(shas, e.0, e.1) {
            Some(k) => shas.remove(k),
            None => shas,
        };
        proof_find_entry_in_range(shas, e.0, e.1, 0);
        law_files_follow_table(md5s.drop_first(), rest_shas);
        let arcs = archives_from(md5s, shas)->Ok_0;
        let rest = archives_from(md5s.drop_first(), rest_shas)->Ok_0;
        assert(arcs.drop_first() =~= rest);
        assert forall|i: int|
            #![trigger arcs[i]]
            0 <= i < md5s.len() implies arcs[i].name == md5s[i].0 && arcs[i].size == md5s[i].1 by {
            if i > 0 {
                assert(arcs[i] == rest[i - 1]);
                assert(md5s[i] == md5s.drop_first()[i - 1]);
            }
        }
    }
}

proof fn proof_find_entry_in_range(t: Seq<EntryView>, name: Seq<char>, size: u64, i: int)
    ensures
        find_from(t, name, size, i) matches Some(k) ==> 0 <= k < t.len() && i <= k,
    decreases t.len() - i,
{
    if 0 <= i < t.len() && !(t[i].0 == name && t[i].1 == size) {
        proof_find_entry_in_range(t, name, size, i + 1);
    }
}


/// Whether `k` is one of the version control fields from the `from`-th on.
pub open spec fn vcs_key_from(k: Seq<char>, from: int) -> bool {
    exists|j: int| from <= j < vcs_field_count() && (#[trigger] vcs_field(j)).0 == k
}

/// Whether `k` is one of the dependency fields from the `from`-th on.
pub open spec fn dep_key_from(k: Seq<char>, from: int) -> bool {
    exists|j: int| from <= j < 6 && #[trigger] dep_key(j) == k
}

/// The fields that `parse_src` reads (and so takes out of the stanza).
pub open spec fn src_field(k: Seq<char>) -> bool {
    ||| k == "Format"@
    ||| k == "Package-List"@
    ||| k == "Binary"@
    ||| k == "Files"@
    ||| k == "Checksums-Sha256"@
    ||| k == "Directory"@
    ||| vcs_key_from(k, 0)
    ||| k == "Standards-Version"@
    ||| dep_key_from(k, 0)
    ||| k == "Uploaders"@
}

proof fn lemma_extract_removes(m: FieldMap, i: int)
    requires
        0 <= i <= vcs_field_count(),
    ensures
        extract_from(m, i).1 == m.remove_keys(Set::new(|k: Seq<char>| vcs_key_from(k, i))),
    decreases vcs_field_count() - i,
{
    if i < vcs_field_count() {
        let key = vcs_field(i).0;
        lemma_extract_removes(m.remove(key), i + 1);
        let a = extract_from(m, i).1;
        let b = m.remove_keys(Set::new(|k: Seq<char>| vcs_key_from(k, i)));
        assert forall|k: Seq<char>| vcs_key_from(k, i) <==> (k == key || vcs_key_from(k, i + 1)) by {
            if vcs_key_from(k, i) {
                let j = choose|j: int| i <= j < vcs_field_count() && (#[trigger] vcs_field(j)).0 == k;
                if j > i {
                    assert(vcs_key_from(k, i + 1));
                }
            }
            if k == key {
                assert(vcs_field(i).0 == k);
            }
            if vcs_key_from(k, i + 1) {
                let j = choose|j: int| i + 1 <= j < vcs_field_count() && (#[trigger] vcs_field(j)).0 == k;
                assert(vcs_field(j).0 == k);
            }
        }
        assert(a =~= b);
    } else {
        assert(extract_from(m, i).1 =~= m.remove_keys(Set::new(|k: Seq<char>| vcs_key_from(k, i))));
    }
}

/// Every field of `a` is a field of `b`, with the same lines.
pub open spec fn within(a: FieldMap, b: FieldMap) -> bool {
    forall|k: Seq<char>| #[trigger] a.dom().contains(k) ==> b.dom().contains(k) && a[k] == b[k]
}

proof fn lemma_submap_trans(a: FieldMap, b: FieldMap, c: FieldMap)
    requires
        within(a, b),
        within(b, c),
    ensures
        within(a, c),
{
    assert forall|k: Seq<char>| #[trigger] a.dom().contains(k) implies c.dom().contains(k) && a[k] == c[k] by {
        assert(b.dom().contains(k));
    }
}

proof fn lemma_deps_remove(m: FieldMap, i: int)
    requires
        0 <= i <= 6,
    ensures
        within(dep_fields_from(m, i).1, m),
        dep_fields_from(m, i).0 is Ok ==> dep_fields_from(m, i).1 == m.remove_keys(Set::new(|k: Seq<char>| dep_key_from(k, i))),
    decreases 6 - i,
{
    if i < 6 {
        let key = dep_key(i);
        lemma_deps_remove(m.remove(key), i + 1);
        assert(within(m.remove(key), m));
        if parse_dep_spec(match lookup(m, key) {
            Some(l) => l,
            None => seq![],
        }) is Ok {
            lemma_submap_trans(dep_fields_from(m.remove(key), i + 1).1, m.remove(key), m);
        }
        if dep_fields_from(m, i).0 is Ok {
            let a = dep_fields_from(m, i).1;
            let b = m.remove_keys(Set::new(|k: Seq<char>| dep_key_from(k, i)));
            assert forall|k: Seq<char>| dep_key_from(k, i) <==> (k == key || dep_key_from(k, i + 1)) by {
                if dep_key_from(k, i) {
                    let j = choose|j: int| i <= j < 6 && #[trigger] dep_key(j) == k;
                    if j > i {
                        assert(dep_key_from(k, i + 1));
                    }
                }
                if k == key {
                    assert(dep_key(i) == k);
                }
                if dep_key_from(k, i + 1) {
                    let j = choose|j: int| i + 1 <= j < 6 && #[trigger] dep_key(j) == k;
                    assert(dep_key(j) == k);
                }
            }
            assert(a =~= b);
        }
    } else {
        assert(dep_fields_from(m, i).1 =~= m.remove_keys(Set::new(|k: Seq<char>| dep_key_from(k, i))));
    }
}

/// `parse_src` only takes fields out of the stanza, leaving the others as
/// they were; when it succeeds, what is left is exactly the fields it does
/// not read.
pub proof fn law_parse_src_takes_what_it_reads(m: FieldMap)
    ensures
        within(parse_src_spec(m).1, m),
        parse_src_spec(m).0 is Ok ==> parse_src_spec(m).1 == m.remove_keys(Set::new(|k: Seq<char>| src_field(k))),
{
    let (ra, ma) = src_head_spec(m);
    let (rb, mb) = src_middle_spec(ma);
    let (rc, mc) = dep_fields_from(mb, 0);
    let (rd, md) = src_uploaders_spec(mc);
    let m1 = m.remove("Format"@);
    let m2 = m1.remove("Package-List"@).remove("Binary"@);
    let m3 = m2.remove("Files"@);
    assert(within(ma, m));
    if ra is Ok {
        assert(ma == m3.remove("Checksums-Sha256"@));
        let n1 = ma.remove("Directory"@);
        lemma_extract_removes(n1, 0);
        let n2 = extract_from(n1, 0).1;
        assert(within(mb, ma));
        lemma_submap_trans(mb, ma, m);
        if rb is Ok {
            assert(mb == n2.remove("Standards-Version"@));
            lemma_deps_remove(mb, 0);
            assert(within(mc, mb));
            assert(md == mc.remove("Uploaders"@));
            lemma_submap_trans(mc, mb, m);
            lemma_submap_trans(md, mc, m);
            if rc is Ok && rd is Ok {
                let f = m.remove_keys(Set::new(|k: Seq<char>| src_field(k)));
                assert forall|k: Seq<char>| #[trigger] md.dom().contains(k) <==> f.dom().contains(k) by {}
                assert forall|k: Seq<char>| #[trigger] md.dom().contains(k) implies md[k] == f[k] by {}
                assert(md =~= f);
            }
        }
    }
}

/// The lines of field `k`, none when it is absent.
pub open spec fn field_lines(m: FieldMap, k: Seq<char>) -> Seq<Seq<char>> {
    match lookup(m, k) {
        Some(l) => l,
        None => seq![],
    }
}

/// A dependency field differs from the other dependency fields, from the
/// version control fields and from every other field read before it.
proof fn lemma_dep_keys_apart(i: int)
    requires
        0 <= i < 6,
    ensures
        forall|j: int| 0 <= j < 6 && j != i ==> #[trigger] dep_key(j) != dep_key(i),
        forall|j: int| 0 <= j < vcs_field_count() ==> (#[trigger] vcs_field(j)).0 != dep_key(i),
        !vcs_key_from(dep_key(i), 0),
        dep_key(i) != "Format"@,
        dep_key(i) != "Package-List"@,
        dep_key(i) != "Binary"@,
        dep_key(i) != "Files"@,
        dep_key(i) != "Checksums-Sha256"@,
        dep_key(i) != "Directory"@,
        dep_key(i) != "Standards-Version"@,
{
    reveal_strlit("Build-Depends");
    reveal_strlit("Build-Depends-Arch");
    reveal_strlit("Build-Depends-Indep");
    reveal_strlit("Build-Conflicts");
    reveal_strlit("Build-Conflicts-Arch");
    reveal_strlit("Build-Conflicts-Indep");
    reveal_strlit("Vcs-Arch");
    reveal_strlit("Vcs-Browse");
    reveal_strlit("Vcs-Browser");
    reveal_strlit("Vcs-Bzr");
    reveal_strlit("Vcs-Cvs");
    reveal_strlit("Vcs-Darcs");
    reveal_strlit("Vcs-Git");
    reveal_strlit("Vcs-Hg");
    reveal_strlit("Vcs-Mtn");
    reveal_strlit("Vcs-Svn");
    reveal_strlit("Debian-Vcs-Browser");
    reveal_strlit("Debian-Vcs-Git");
    reveal_strlit("Debian-Vcs-Svn");
    reveal_strlit("Orig-Vcs-Browser");
    reveal_strlit("Orig-Vcs-Git");
    reveal_strlit("Orig-Vcs-Svn");
    reveal_strlit("Original-Vcs-Browser");
    reveal_strlit("Original-Vcs-Bzr");
    reveal_strlit("Upstream-Vcs-Bzr");
    reveal_strlit("Vcs-Upstream-Bzr");
    reveal_strlit("Format");
    reveal_strlit("Package-List");
    reveal_strlit("Binary");
    reveal_strlit("Files");
    reveal_strlit("Checksums-Sha256");
    reveal_strlit("Directory");
    reveal_strlit("Standards-Version");
    let h = dep_key(i);
    assert forall|j: int| 0 <= j < 6 && j != i implies #[trigger] dep_key(j) != h by {
        assert(dep_key(j).len() != h.len());
    }
    assert forall|j: int| 0 <= j < vcs_field_count() implies (#[trigger] vcs_field(j)).0 != h by {
        let t = vcs_field(j).0;
        assert(t.len() != h.len() || t[0] != h[0] || t[1] != h[1]);
    }
    assert("Format"@.len() != h.len());
    assert("Package-List"@.len() != h.len());
    assert("Binary"@.len() != h.len());
    assert("Files"@.len() != h.len());
    assert("Checksums-Sha256"@.len() != h.len());
    assert("Directory"@.len() != h.len());
    assert("Standards-Version"@.len() != h.len());
}

/// Each dependency field that `dep_fields_from` reads is `parse_dep` of that
/// field's lines in the stanza it starts from.
proof fn lemma_dep_fields_read(m: FieldMap, i: int)
    requires
        0 <= i <= 6,
        dep_fields_from(m, i).0 is Ok,
    ensures
        dep_fields_from(m, i).0->Ok_0.len() == 6 - i,
        forall|j: int|
            i <= j < 6 ==> parse_dep_spec(field_lines(m, #[trigger] dep_key(j))) == Ok::<Seq<DependencyView>, ErrorView>(
                dep_fields_from(m, i).0->Ok_0[j - i],
            ),
    decreases 6 - i,
{
    if i < 6 {
        let key = dep_key(i);
        lemma_dep_keys_apart(i);
        lemma_dep_fields_read(m.remove(key), i + 1);
        assert forall|j: int| i + 1 <= j < 6 implies field_lines(m.remove(key), #[trigger] dep_key(j)) == field_lines(m, dep_key(j)) by {
            assert(dep_key(j) != key);
        }
    }
}

/// When `parse_src` succeeds, its parts are what the field readers give on
/// the whole stanza: the binary packages are those of `take_package_list`,
/// the files those of `take_files`, and each dependency list is `parse_dep`
/// of its field's lines (none when absent).
pub proof fn law_parse_src_parts(m: FieldMap)
    requires
        parse_src_spec(m).0 is Ok,
    ensures
        ({
            let s = parse_src_spec(m).0->Ok_0;
            &&& take_package_list_spec(m).0 == Ok::<Seq<BinaryView>, ErrorView>(s.binaries)
            &&& take_files_spec(m).0 == Ok::<Seq<ArchiveView>, ErrorView>(s.files)
            &&& parse_dep_spec(field_lines(m, "Build-Depends"@)) == Ok::<Seq<DependencyView>, ErrorView>(s.build_dep)
            &&& parse_dep_spec(field_lines(m, "Build-Depends-Arch"@)) == Ok::<Seq<DependencyView>, ErrorView>(s.build_dep_arch)
            &&& parse_dep_spec(field_lines(m, "Build-Depends-Indep"@)) == Ok::<Seq<DependencyView>, ErrorView>(s.build_dep_indep)
            &&& parse_dep_spec(field_lines(m, "Build-Conflicts"@)) == Ok::<Seq<DependencyView>, ErrorView>(s.build_conflict)
            &&& parse_dep_spec(field_lines(m, "Build-Conflicts-Arch"@)) == Ok::<Seq<DependencyView>, ErrorView>(s.build_conflict_arch)
            &&& parse_dep_spec(field_lines(m, "Build-Conflicts-Indep"@)) == Ok::<Seq<DependencyView>, ErrorView>(s.build_conflict_indep)
        }),
{
    reveal_strlit("Format");
    reveal_strlit("Package-List");
    reveal_strlit("Binary");
    reveal_strlit("Files");
    reveal_strlit("Checksums-Sha256");
    assert("Format"@.len() == 6);
    assert("Package-List"@.len() == 12);
    assert("Binary"@.len() == 6);
    assert("Format"@[0] != "Binary"@[0]);
    assert("Files"@.len() == 5);
    assert("Checksums-Sha256"@.len() == 16);
    let (ra, ma) = src_head_spec(m);
    let (rb, mb) = src_middle_spec(ma);
    let (rc, mc) = dep_fields_from(mb, 0);
    let m1 = m.remove("Format"@);
    let m2 = m1.remove("Package-List"@).remove("Binary"@);
    let m3 = m2.remove("Files"@);
    assert(lookup(m1, "Package-List"@) == lookup(m, "Package-List"@));
    assert(lookup(m1.remove("Package-List"@), "Binary"@) == lookup(m.remove("Package-List"@), "Binary"@));
    assert(take_package_list_spec(m1).0 == take_package_list_spec(m).0);
    assert(lookup(m2, "Files"@) == lookup(m, "Files"@));
    assert(lookup(m3, "Checksums-Sha256"@) == lookup(m.remove("Files"@), "Checksums-Sha256"@));
    assert(take_files_spec(m2).0 == take_files_spec(m).0);
    assert(ma == m3.remove("Checksums-Sha256"@));
    let n1 = ma.remove("Directory"@);
    lemma_extract_removes(n1, 0);
    let n2 = extract_from(n1, 0).1;
    assert(mb == n2.remove("Standards-Version"@));
    lemma_dep_fields_read(mb, 0);
    assert forall|j: int| 0 <= j < 6 implies field_lines(mb, #[trigger] dep_key(j)) == field_lines(m, dep_key(j)) by {
        lemma_dep_keys_apart(j);
    }
    assert(dep_key(0) == "Build-Depends"@);
    assert(dep_key(1) == "Build-Depends-Arch"@);
    assert(dep_key(2) == "Build-Depends-Indep"@);
    assert(dep_key(3) == "Build-Conflicts"@);
    assert(dep_key(4) == "Build-Conflicts-Arch"@);
    assert(dep_key(5) == "Build-Conflicts-Indep"@);
}

} // verus!
