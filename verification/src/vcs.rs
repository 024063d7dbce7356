//! Version control fields of a source package (`Vcs-Git`, `Vcs-Browser`,
//! `Debian-Vcs-Git`, ...).

use vstd::prelude::*;
use crate::rfc822::{lookup, Stanza};

verus! {

/// The kind of repository a field points at.
#[derive(Clone, Copy, Debug, PartialEq, Eq, Hash)]
pub enum VcsType {
    Browser,
    Arch,
    Bzr,
    Cvs,
    Darcs,
    Git,
    Hg,
    Mtn,
    Svn,
}

/// Whose repository it is: the package's own, its first author's (`Orig-`), Debian's or upstream's.
#[derive(Clone, Copy, Debug, PartialEq, Eq, Hash)]
pub enum VcsTag {
    Vcs,
    Orig,
    Debian,
    Upstream,
}

/// One version control reference.
#[derive(Clone, Debug, PartialEq, Eq, Hash)]
pub struct Vcs {
    pub description: String,
    pub vcs: VcsType,
    pub tag: VcsTag,
}

pub struct VcsView {
    pub description: Seq<char>,
    pub vcs: VcsType,
    pub tag: VcsTag,
}

impl View for Vcs {
    type V = VcsView;

    open spec fn view(&self) -> VcsView {
        VcsView { description: self.description@, vcs: self.vcs, tag: self.tag }
    }
}

pub open spec fn vcs_views(v: Seq<Vcs>) -> Seq<VcsView> {
    v.map_values(|x: Vcs| x@)
}

/// The number of version control fields that are recognised.
pub open spec fn vcs_field_count() -> int {
    20
}

/// The recognised version control fields, in the order they are taken.
pub open spec fn vcs_field(i: int) -> (Seq<char>, VcsType, VcsTag) {
    if i == 0 { ("Vcs-Arch"@, VcsType::Arch, VcsTag::Vcs) }
    else if i == 1 { ("Vcs-Browse"@, VcsType::Browser, VcsTag::Vcs) }
    else if i == 2 { ("Vcs-Browser"@, VcsType::Browser, VcsTag::Vcs) }
    else if i == 3 { ("Vcs-Bzr"@, VcsType::Bzr, VcsTag::Vcs) }
    else if i == 4 { ("Vcs-Cvs"@, VcsType::Cvs, VcsTag::Vcs) }
    else if i == 5 { ("Vcs-Darcs"@, VcsType::Darcs, VcsTag::Vcs) }
    else if i == 6 { ("Vcs-Git"@, VcsType::Git, VcsTag::Vcs) }
    else if i == 7 { ("Vcs-Hg"@, VcsType::Hg, VcsTag::Vcs) }
    else if i == 8 { ("Vcs-Mtn"@, VcsType::Mtn, VcsTag::Vcs) }
    else if i == 9 { ("Vcs-Svn"@, VcsType::Svn, VcsTag::Vcs) }
    else if i == 10 { ("Debian-Vcs-Browser"@, VcsType::Browser, VcsTag::Debian) }
    else if i == 11 { ("Debian-Vcs-Git"@, VcsType::Git, VcsTag::Debian) }
    else if i == 12 { ("Debian-Vcs-Svn"@, VcsType::Svn, VcsTag::Debian) }
    else if i == 13 { ("Orig-Vcs-Browser"@, VcsType::Browser, VcsTag::Orig) }
    else if i == 14 { ("Orig-Vcs-Git"@, VcsType::Git, VcsTag::Orig) }
    else if i == 15 { ("Orig-Vcs-Svn"@, VcsType::Svn, VcsTag::Orig) }
    else if i == 16 { ("Original-Vcs-Browser"@, VcsType::Browser, VcsTag::Orig) }
    else if i == 17 { ("Original-Vcs-Bzr"@, VcsType::Bzr, VcsTag::Orig) }
    else if i == 18 { ("Upstream-Vcs-Bzr"@, VcsType::Bzr, VcsTag::Upstream) }
    else { ("Vcs-Upstream-Bzr"@, VcsType::Bzr, VcsTag::Upstream) }
}

fn vcs_field_exec(i: usize) -> (r: (&'static str, VcsType, VcsTag))
    requires
        i < 20,
    ensures
        (r.0@, r.1, r.2) == vcs_field(i as int),
{
    match i {
        0 => ("Vcs-Arch", VcsType::Arch, VcsTag::Vcs),
        1 => ("Vcs-Browse", VcsType::Browser, VcsTag::Vcs),
        2 => ("Vcs-Browser", VcsType::Browser, VcsTag::Vcs),
        3 => ("Vcs-Bzr", VcsType::Bzr, VcsTag::Vcs),
        4 => ("Vcs-Cvs", VcsType::Cvs, VcsTag::Vcs),
        5 => ("Vcs-Darcs", VcsType::Darcs, VcsTag::Vcs),
        6 => ("Vcs-Git", VcsType::Git, VcsTag::Vcs),
        7 => ("Vcs-Hg", VcsType::Hg, VcsTag::Vcs),
        8 => ("Vcs-Mtn", VcsType::Mtn, VcsTag::Vcs),
        9 => ("Vcs-Svn", VcsType::Svn, VcsTag::Vcs),
        10 => ("Debian-Vcs-Browser", VcsType::Browser, VcsTag::Debian),
        11 => ("Debian-Vcs-Git", VcsType::Git, VcsTag::Debian),
        12 => ("Debian-Vcs-Svn", VcsType::Svn, VcsTag::Debian),
        13 => ("Orig-Vcs-Browser", VcsType::Browser, VcsTag::Orig),
        14 => ("Orig-Vcs-Git", VcsType::Git, VcsTag::Orig),
        15 => ("Orig-Vcs-Svn", VcsType::Svn, VcsTag::Orig),
        16 => ("Original-Vcs-Browser", VcsType::Browser, VcsTag::Orig),
        17 => ("Original-Vcs-Bzr", VcsType::Bzr, VcsTag::Orig),
        18 => ("Upstream-Vcs-Bzr", VcsType::Bzr, VcsTag::Upstream),
        _ => ("Vcs-Upstream-Bzr", VcsType::Bzr, VcsTag::Upstream),
    }
}

/// One reference per line of a field.
pub open spec fn references(lines: Seq<Seq<char>>, ty: VcsType, tag: VcsTag) -> Seq<VcsView> {
    lines.map_values(|l: Seq<char>| VcsView { description: l, vcs: ty, tag })
}

/// The references in the recognised fields from the `i`-th on, and the stanza without those fields.
pub open spec fn extract_from(m: Map<Seq<char>, Seq<Seq<char>>>, i: int) -> (Seq<VcsView>, Map<Seq<char>, Seq<Seq<char>>>)
    decreases vcs_field_count() - i,
{
    if i < 0 || i >= vcs_field_count() {
        (seq![], m)
    } else {
        let (key, ty, tag) = vcs_field(i);
        let found = match lookup(m, key) {
            Some(ls) => references(ls, ty, tag),
            None => seq![],
        };
        let (rest, m2) = extract_from(m.remove(key), i + 1);
        (found + rest, m2)
    }
}

/// Takes the version control fields out of the stanza: one reference per
/// line, the fields in the order `vcs_field` lists them.
pub fn extract(map: &mut Stanza) -> (r: Vec<Vcs>)
    ensures
        (vcs_views(r@), final(map)@) == extract_from(old(map)@, 0),
{
    let mut out: Vec<Vcs> = Vec::new();
    let mut i: usize = 0;
    assert(vcs_views(out@) =~= seq![]);
    while i < 20
        invariant
            i <= 20,
            vcs_views(out@) + extract_from(map@, i as int).0 == extract_from(old(map)@, 0).0,
            extract_from(map@, i as int).1 == extract_from(old(map)@, 0).1,
        decreases 20 - i,
    {
        let (key, ty, tag) = vcs_field_exec(i);
        let ghost before = map@;
        let ghost old_out = vcs_views(out@);
        match map.remove(key) {
            Some(lines) => {
                let mut j: usize = 0;
                while j < lines.len()
                    invariant
                        j <= lines.len(),
                        vcs_views(out@) == old_out + references(crate::text::views(lines@), ty, tag).take(j as int),
                    decreases lines.len() - j,
                {
                    let ghost o = vcs_views(out@);
                    let ghost refs = references(crate::text::views(lines@), ty, tag);
                    let d = lines[j].clone();
                    let ghost x = VcsView { description: d@, vcs: ty, tag };
                    assert(refs[j as int] == x);
                    assert(refs.take(j + 1) =~= refs.take(j as int).push(x));
                    out.push(Vcs { description: d, vcs: ty, tag });
                    assert(vcs_views(out@) =~= o.push(x));
                    assert(vcs_views(out@) =~= old_out + references(crate::text::views(lines@), ty, tag).take(j + 1));
                    j += 1;
                }
                assert(references(crate::text::views(lines@), ty, tag).take(j as int) =~= references(crate::text::views(lines@), ty, tag));
            },
            None => {
                assert(vcs_views(out@) =~= old_out + seq![]);
            },
        }
        assert(vcs_views(out@) + extract_from(map@, i + 1).0 =~= old_out + extract_from(before, i as int).0);
        i += 1;
    }
    assert(vcs_views(out@) =~= vcs_views(out@) + extract_from(map@, 20).0);
    out
}

} // verus!
