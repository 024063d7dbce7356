//! The fields of a source package record, keyed as a stanza's fields are,
//! and how a stanza's remaining fields are copied into one.

use vstd::prelude::*;
use crate::error::{Error, ErrorView};
use crate::rfc822::{distinct_keys, lemma_to_map_contains, lemma_to_map_update, to_map};
use crate::text::{str_eq, trim, trim_str};

verus! {

/// The fields that `parse_src` and its helpers read themselves.
pub const HANDLED_FIELDS: [&'static str; 29] = [
    "Architecture",
    "Binary",
    "Build-Conflicts",
    "Build-Conflicts-Arch",
    "Build-Conflicts-Indep",
    "Build-Depends",
    "Build-Depends-Arch",
    "Build-Depends-Indep",
    "Checksums-Md5",
    "Checksums-Sha1",
    "Checksums-Sha256",
    "Checksums-Sha512",
    "Files",
    "Format",
    "Package",
    "Package-List",
    "Priority",
    "Source",
    "Vcs-Arch",
    "Vcs-Browse",
    "Vcs-Browser",
    "Vcs-Bzr",
    "Vcs-Cvs",
    "Vcs-Darcs",
    "Vcs-Git",
    "Vcs-Hg",
    "Vcs-Mtn",
    "Vcs-Svn",
    "Version",
];

/// The number of fields a record takes.
pub open spec fn source_field_count() -> int {
    70
}

/// The `i`-th field a record takes: the stanza field name, and the record
/// field it fills (the name in lower case, `-` written `_`).
pub open spec fn source_field(i: int) -> (Seq<char>, Seq<char>) {
    if i == 0 {
        ("Autobuild"@, "autobuild"@)
    } else if i == 1 {
        ("Breaks"@, "breaks"@)
    } else if i == 2 {
        ("Bugs"@, "bugs"@)
    } else if i == 3 {
        ("Build-Indep-Architecture"@, "build_indep_architecture"@)
    } else if i == 4 {
        ("Built-For-Profiles"@, "built_for_profiles"@)
    } else if i == 5 {
        ("Built-Using"@, "built_using"@)
    } else if i == 6 {
        ("Class"@, "class"@)
    } else if i == 7 {
        ("Conffiles"@, "conffiles"@)
    } else if i == 8 {
        ("Config-Version"@, "config_version"@)
    } else if i == 9 {
        ("Conflicts"@, "conflicts"@)
    } else if i == 10 {
        ("Debian-Vcs-Browser"@, "debian_vcs_browser"@)
    } else if i == 11 {
        ("Debian-Vcs-Git"@, "debian_vcs_git"@)
    } else if i == 12 {
        ("Debian-Vcs-Svn"@, "debian_vcs_svn"@)
    } else if i == 13 {
        ("Depends"@, "depends"@)
    } else if i == 14 {
        ("Description"@, "description"@)
    } else if i == 15 {
        ("Description-md5"@, "description_md5"@)
    } else if i == 16 {
        ("Dgit"@, "dgit"@)
    } else if i == 17 {
        ("Directory"@, "directory"@)
    } else if i == 18 {
        ("Dm-Upload-Allowed"@, "dm_upload_allowed"@)
    } else if i == 19 {
        ("Enhances"@, "enhances"@)
    } else if i == 20 {
        ("Essential"@, "essential"@)
    } else if i == 21 {
        ("Filename"@, "filename"@)
    } else if i == 22 {
        ("Go-Import-Path"@, "go_import_path"@)
    } else if i == 23 {
        ("Homepage"@, "homepage"@)
    } else if i == 24 {
        ("Important"@, "important"@)
    } else if i == 25 {
        ("Installed-Size"@, "installed_size"@)
    } else if i == 26 {
        ("Installer-Menu-Item"@, "installer_menu_item"@)
    } else if i == 27 {
        ("Kernel-Version"@, "kernel_version"@)
    } else if i == 28 {
        ("MD5sum"@, "md5sum"@)
    } else if i == 29 {
        ("MSDOS-Filename"@, "msdos_filename"@)
    } else if i == 30 {
        ("Maintainer"@, "maintainer"@)
    } else if i == 31 {
        ("Multi-Arch"@, "multi_arch"@)
    } else if i == 32 {
        ("Optional"@, "optional"@)
    } else if i == 33 {
        ("Orig-Vcs-Browser"@, "orig_vcs_browser"@)
    } else if i == 34 {
        ("Orig-Vcs-Git"@, "orig_vcs_git"@)
    } else if i == 35 {
        ("Orig-Vcs-Svn"@, "orig_vcs_svn"@)
    } else if i == 36 {
        ("Origin"@, "origin"@)
    } else if i == 37 {
        ("Original-Maintainer"@, "original_maintainer"@)
    } else if i == 38 {
        ("Original-Vcs-Browser"@, "original_vcs_browser"@)
    } else if i == 39 {
        ("Original-Vcs-Bzr"@, "original_vcs_bzr"@)
    } else if i == 40 {
        ("Package-Revision"@, "package_revision"@)
    } else if i == 41 {
        ("Package-Type"@, "package_type"@)
    } else if i == 42 {
        ("Package_Revision"@, "package_revision"@)
    } else if i == 43 {
        ("Pre-Depends"@, "pre_depends"@)
    } else if i == 44 {
        ("Provides"@, "provides"@)
    } else if i == 45 {
        ("Python-Version"@, "python_version"@)
    } else if i == 46 {
        ("Python3-Version"@, "python3_version"@)
    } else if i == 47 {
        ("Recommended"@, "recommended"@)
    } else if i == 48 {
        ("Recommends"@, "recommends"@)
    } else if i == 49 {
        ("Replaces"@, "replaces"@)
    } else if i == 50 {
        ("Revision"@, "revision"@)
    } else if i == 51 {
        ("Ruby-Versions"@, "ruby_versions"@)
    } else if i == 52 {
        ("SHA1"@, "sha1"@)
    } else if i == 53 {
        ("SHA256"@, "sha256"@)
    } else if i == 54 {
        ("SHA512"@, "sha512"@)
    } else if i == 55 {
        ("Section"@, "section"@)
    } else if i == 56 {
        ("Size"@, "size"@)
    } else if i == 57 {
        ("Standards-Version"@, "standards_version"@)
    } else if i == 58 {
        ("Status"@, "status"@)
    } else if i == 59 {
        ("Subarchitecture"@, "subarchitecture"@)
    } else if i == 60 {
        ("Suggests"@, "suggests"@)
    } else if i == 61 {
        ("Tag"@, "tag"@)
    } else if i == 62 {
        ("Task"@, "task"@)
    } else if i == 63 {
        ("Testsuite"@, "testsuite"@)
    } else if i == 64 {
        ("Testsuite-Triggers"@, "testsuite_triggers"@)
    } else if i == 65 {
        ("Triggers-Awaited"@, "triggers_awaited"@)
    } else if i == 66 {
        ("Triggers-Pending"@, "triggers_pending"@)
    } else if i == 67 {
        ("Uploaders"@, "uploaders"@)
    } else if i == 68 {
        ("Upstream-Vcs-Bzr"@, "upstream_vcs_bzr"@)
    } else {
        ("Vcs-Upstream-Bzr"@, "vcs_upstream_bzr"@)
    }
}

fn source_field_exec(i: usize) -> (r: (&'static str, &'static str))
    requires
        i < 70,
    ensures
        (r.0@, r.1@) == source_field(i as int),
{
    match i {
        0 => ("Autobuild", "autobuild"),
        1 => ("Breaks", "breaks"),
        2 => ("Bugs", "bugs"),
        3 => ("Build-Indep-Architecture", "build_indep_architecture"),
        4 => ("Built-For-Profiles", "built_for_profiles"),
        5 => ("Built-Using", "built_using"),
        6 => ("Class", "class"),
        7 => ("Conffiles", "conffiles"),
        8 => ("Config-Version", "config_version"),
        9 => ("Conflicts", "conflicts"),
        10 => ("Debian-Vcs-Browser", "debian_vcs_browser"),
        11 => ("Debian-Vcs-Git", "debian_vcs_git"),
        12 => ("Debian-Vcs-Svn", "debian_vcs_svn"),
        13 => ("Depends", "depends"),
        14 => ("Description", "description"),
        15 => ("Description-md5", "description_md5"),
        16 => ("Dgit", "dgit"),
        17 => ("Directory", "directory"),
        18 => ("Dm-Upload-Allowed", "dm_upload_allowed"),
        19 => ("Enhances", "enhances"),
        20 => ("Essential", "essential"),
        21 => ("Filename", "filename"),
        22 => ("Go-Import-Path", "go_import_path"),
        23 => ("Homepage", "homepage"),
        24 => ("Important", "important"),
        25 => ("Installed-Size", "installed_size"),
        26 => ("Installer-Menu-Item", "installer_menu_item"),
        27 => ("Kernel-Version", "kernel_version"),
        28 => ("MD5sum", "md5sum"),
        29 => ("MSDOS-Filename", "msdos_filename"),
        30 => ("Maintainer", "maintainer"),
        31 => ("Multi-Arch", "multi_arch"),
        32 => ("Optional", "optional"),
        33 => ("Orig-Vcs-Browser", "orig_vcs_browser"),
        34 => ("Orig-Vcs-Git", "orig_vcs_git"),
        35 => ("Orig-Vcs-Svn", "orig_vcs_svn"),
        36 => ("Origin", "origin"),
        37 => ("Original-Maintainer", "original_maintainer"),
        38 => ("Original-Vcs-Browser", "original_vcs_browser"),
        39 => ("Original-Vcs-Bzr", "original_vcs_bzr"),
        40 => ("Package-Revision", "package_revision"),
        41 => ("Package-Type", "package_type"),
        42 => ("Package_Revision", "package_revision"),
        43 => ("Pre-Depends", "pre_depends"),
        44 => ("Provides", "provides"),
        45 => ("Python-Version", "python_version"),
        46 => ("Python3-Version", "python3_version"),
        47 => ("Recommended", "recommended"),
        48 => ("Recommends", "recommends"),
        49 => ("Replaces", "replaces"),
        50 => ("Revision", "revision"),
        51 => ("Ruby-Versions", "ruby_versions"),
        52 => ("SHA1", "sha1"),
        53 => ("SHA256", "sha256"),
        54 => ("SHA512", "sha512"),
        55 => ("Section", "section"),
        56 => ("Size", "size"),
        57 => ("Standards-Version", "standards_version"),
        58 => ("Status", "status"),
        59 => ("Subarchitecture", "subarchitecture"),
        60 => ("Suggests", "suggests"),
        61 => ("Tag", "tag"),
        62 => ("Task", "task"),
        63 => ("Testsuite", "testsuite"),
        64 => ("Testsuite-Triggers", "testsuite_triggers"),
        65 => ("Triggers-Awaited", "triggers_awaited"),
        66 => ("Triggers-Pending", "triggers_pending"),
        67 => ("Uploaders", "uploaders"),
        68 => ("Upstream-Vcs-Bzr", "upstream_vcs_bzr"),
        _ => ("Vcs-Upstream-Bzr", "vcs_upstream_bzr"),
    }
}

/// The first table position at or after `i` for stanza field `key`.
pub open spec fn field_index_from(key: Seq<char>, i: int) -> Option<int>
    decreases source_field_count() - i,
{
    if i < 0 || i >= source_field_count() {
        None
    } else if source_field(i).0 == key {
        Some(i)
    } else {
        field_index_from(key, i + 1)
    }
}

/// A record of text fields, each set at most once.
pub struct SourceRecord {
    entries: Vec<(String, String)>,
}

pub open spec fn text_entry_views(es: Seq<(String, String)>) -> Seq<(Seq<char>, Seq<char>)> {
    es.map_values(|e: (String, String)| (e.0@, e.1@))
}

impl View for SourceRecord {
    type V = Map<Seq<char>, Seq<char>>;

    closed spec fn view(&self) -> Map<Seq<char>, Seq<char>> {
        to_map(text_entry_views(self.entries@))
    }
}

impl SourceRecord {
    #[verifier::type_invariant]
    spec fn inv(self) -> bool {
        distinct_keys(text_entry_views(self.entries@))
    }

    /// A record with no field set.
    pub fn new() -> (r: SourceRecord)
        ensures
            r@ == Map::<Seq<char>, Seq<char>>::empty(),
    {
        let r = SourceRecord { entries: Vec::new() };
        assert(text_entry_views(r.entries@) =~= seq![]);
        r
    }

    fn find(&self, name: &str) -> (r: Option<usize>)
        ensures
            match r {
                Some(i) => i < self.entries@.len() && self.entries@[i as int].0@ == name@,
                None => forall|i: int| 0 <= i < self.entries@.len() ==> self.entries@[i].0@ != name@,
            },
    {
        let mut i: usize = 0;
        while i < self.entries.len()
            invariant
                i <= self.entries@.len(),
                forall|j: int| 0 <= j < i ==> self.entries@[j].0@ != name@,
            decreases self.entries.len() - i,
        {
            if str_eq(self.entries[i].0.as_str(), name) {
                return Some(i);
            }
            i += 1;
        }
        None
    }

    /// The text of record field `name`, if set.
    pub fn get(&self, name: &str) -> (r: Option<&String>)
        ensures
            match r {
                Some(v) => self@.dom().contains(name@) && self@[name@] == v@,
                None => !self@.dom().contains(name@),
            },
    {
        proof {
            use_type_invariant(self);
        }
        let found = self.find(name);
        proof {
            let es = text_entry_views(self.entries@);
            lemma_to_map_contains(es, name@);
            match found {
                Some(i) => {
                    assert(es[i as int].0 == name@);
                },
                None => {
                    if self@.dom().contains(name@) {
                        let i = choose|i: int| 0 <= i < es.len() && es[i].0 == name@;
                        assert(self.entries@[i].0@ == name@);
                    }
                },
            }
        }
        match found {
            Some(i) => Some(&self.entries[i].1),
            None => None,
        }
    }

    /// Sets record field `name` to `value`.
    pub fn set(&mut self, name: &str, value: &str)
        ensures
            final(self)@ == old(self)@.insert(name@, value@),
    {
        proof {
            use_type_invariant(&*self);
        }
        let found = self.find(name);
        let mut es: Vec<(String, String)> = Vec::new();
        std::mem::swap(&mut es, &mut self.entries);
        let ghost old_es = es@;
        let k = String::from_str(name);
        let v = String::from_str(value);
        match found {
            Some(i) => {
                es.set(i, (k, v));
                proof {
                    assert(text_entry_views(es@) =~= text_entry_views(old_es).update(i as int, (name@, value@)));
                    lemma_to_map_update(text_entry_views(old_es), i as int, value@);
                }
            },
            None => {
                es.push((k, v));
                proof {
                    let ev = text_entry_views(es@);
                    assert(ev =~= text_entry_views(old_es).push((name@, value@)));
                    assert(ev.drop_last() =~= text_entry_views(old_es));
                    assert(distinct_keys(ev));
                }
            },
        }
        self.entries = es;
    }
}

/// What `set_field` does: an unknown stanza field is an error; a blank
/// value leaves the record as it was; any other value fills the record
/// field that the stanza field names.
pub open spec fn set_field_spec(key: Seq<char>, val: Seq<char>, rec: Map<Seq<char>, Seq<char>>) -> (
    Result<(), ErrorView>,
    Map<Seq<char>, Seq<char>>,
) {
    match field_index_from(key, 0) {
        None => (Err(ErrorView::UnrecognisedField(key)), rec),
        Some(i) => (Ok(()), if trim(val).len() == 0 {
            rec
        } else {
            rec.insert(source_field(i).1, val)
        }),
    }
}

pub open spec fn unit_result_view(r: Result<(), Error>) -> Result<(), ErrorView> {
    match r {
        Ok(()) => Ok(()),
        Err(e) => Err(e@),
    }
}

/// Copies one stanza field into the record.
pub fn set_field(key: &str, val: &str, builder: &mut SourceRecord) -> (r: Result<(), Error>)
    ensures
        (unit_result_view(r), final(builder)@) == set_field_spec(key@, val@, old(builder)@),
{
    let mut i: usize = 0;
    while i < 70
        invariant
            i <= 70,
            field_index_from(key@, i as int) == field_index_from(key@, 0),
            builder@ == old(builder)@,
        decreases 70 - i,
    {
        let (k, name) = source_field_exec(i);
        if str_eq(key, k) {
            let t = trim_str(val);
            if !t.as_str().is_empty() {
                builder.set(name, val);
            }
            return Ok(());
        }
        i += 1;
    }
    Err(Error::UnrecognisedField(String::from_str(key)))
}


/// A key that no table position from `k` on holds has no position from `k` on.
proof fn lemma_absent_from(key: Seq<char>, k: int)
    requires
        0 <= k <= source_field_count(),
        forall|i: int| k <= i < source_field_count() ==> source_field(i).0 != key,
    ensures
        field_index_from(key, k) is None,
    decreases source_field_count() - k,
{
    if k < source_field_count() {
        lemma_absent_from(key, k + 1);
    }
}

/// No table position holds a handled field: each differs from every table
/// key in length or in one of its first characters.
proof fn lemma_handled_not_in_table(j: int)
    requires
        0 <= j < HANDLED_FIELDS@.len(),
    ensures
        forall|i: int| 0 <= i < source_field_count() ==> source_field(i).0 != HANDLED_FIELDS@[j]@,
{
    reveal_strlit("Autobuild");
    reveal_strlit("Breaks");
    reveal_strlit("Bugs");
    reveal_strlit("Build-Indep-Architecture");
    reveal_strlit("Built-For-Profiles");
    reveal_strlit("Built-Using");
    reveal_strlit("Class");
    reveal_strlit("Conffiles");
    reveal_strlit("Config-Version");
    reveal_strlit("Conflicts");
    reveal_strlit("Debian-Vcs-Browser");
    reveal_strlit("Debian-Vcs-Git");
    reveal_strlit("Debian-Vcs-Svn");
    reveal_strlit("Depends");
    reveal_strlit("Description");
    reveal_strlit("Description-md5");
    reveal_strlit("Dgit");
    reveal_strlit("Directory");
    reveal_strlit("Dm-Upload-Allowed");
    reveal_strlit("Enhances");
    reveal_strlit("Essential");
    reveal_strlit("Filename");
    reveal_strlit("Go-Import-Path");
    reveal_strlit("Homepage");
    reveal_strlit("Important");
    reveal_strlit("Installed-Size");
    reveal_strlit("Installer-Menu-Item");
    reveal_strlit("Kernel-Version");
    reveal_strlit("MD5sum");
    reveal_strlit("MSDOS-Filename");
    reveal_strlit("Maintainer");
    reveal_strlit("Multi-Arch");
    reveal_strlit("Optional");
    reveal_strlit("Orig-Vcs-Browser");
    reveal_strlit("Orig-Vcs-Git");
    reveal_strlit("Orig-Vcs-Svn");
    reveal_strlit("Origin");
    reveal_strlit("Original-Maintainer");
    reveal_strlit("Original-Vcs-Browser");
    reveal_strlit("Original-Vcs-Bzr");
    reveal_strlit("Package-Revision");
    reveal_strlit("Package-Type");
    reveal_strlit("Package_Revision");
    reveal_strlit("Pre-Depends");
    reveal_strlit("Provides");
    reveal_strlit("Python-Version");
    reveal_strlit("Python3-Version");
    reveal_strlit("Recommended");
    reveal_strlit("Recommends");
    reveal_strlit("Replaces");
    reveal_strlit("Revision");
    reveal_strlit("Ruby-Versions");
    reveal_strlit("SHA1");
    reveal_strlit("SHA256");
    reveal_strlit("SHA512");
    reveal_strlit("Section");
    reveal_strlit("Size");
    reveal_strlit("Standards-Version");
    reveal_strlit("Status");
    reveal_strlit("Subarchitecture");
    reveal_strlit("Suggests");
    reveal_strlit("Tag");
    reveal_strlit("Task");
    reveal_strlit("Testsuite");
    reveal_strlit("Testsuite-Triggers");
    reveal_strlit("Triggers-Awaited");
    reveal_strlit("Triggers-Pending");
    reveal_strlit("Uploaders");
    reveal_strlit("Upstream-Vcs-Bzr");
    reveal_strlit("Vcs-Upstream-Bzr");
    reveal_strlit("Architecture");
    reveal_strlit("Binary");
    reveal_strlit("Build-Conflicts");
    reveal_strlit("Build-Conflicts-Arch");
    reveal_strlit("Build-Conflicts-Indep");
    reveal_strlit("Build-Depends");
    reveal_strlit("Build-Depends-Arch");
    reveal_strlit("Build-Depends-Indep");
    reveal_strlit("Checksums-Md5");
    reveal_strlit("Checksums-Sha1");
    reveal_strlit("Checksums-Sha256");
    reveal_strlit("Checksums-Sha512");
    reveal_strlit("Files");
    reveal_strlit("Format");
    reveal_strlit("Package");
    reveal_strlit("Package-List");
    reveal_strlit("Priority");
    reveal_strlit("Source");
    reveal_strlit("Vcs-Arch");
    reveal_strlit("Vcs-Browse");
    reveal_strlit("Vcs-Browser");
    reveal_strlit("Vcs-Bzr");
    reveal_strlit("Vcs-Cvs");
    reveal_strlit("Vcs-Darcs");
    reveal_strlit("Vcs-Git");
    reveal_strlit("Vcs-Hg");
    reveal_strlit("Vcs-Mtn");
    reveal_strlit("Vcs-Svn");
    reveal_strlit("Version");
    let h = HANDLED_FIELDS@[j]@;
    assert forall|i: int| 0 <= i < source_field_count() implies source_field(i).0 != h by {
        let t = source_field(i).0;
        assert(t.len() != h.len() || t[0] != h[0] || t[1] != h[1] || t[2] != h[2] || t[4] != h[4] || t[8] != h[8]);
    }
}

/// No field that `parse_src` reads itself is copied into a record:
/// `set_field` refuses each of them and leaves the record as it was.
pub proof fn law_handled_fields_not_copied(j: int, val: Seq<char>, rec: Map<Seq<char>, Seq<char>>)
    requires
        0 <= j < HANDLED_FIELDS@.len(),
    ensures
        set_field_spec(HANDLED_FIELDS@[j]@, val, rec) == (
            Err::<(), ErrorView>(ErrorView::UnrecognisedField(HANDLED_FIELDS@[j]@)),
            rec,
        ),
{
    lemma_handled_not_in_table(j);
    lemma_absent_from(HANDLED_FIELDS@[j]@, 0);
}

/// The record field character for stanza field character `c`: an ASCII
/// capital in lower case, `-` as `_`, any other character as itself.
pub open spec fn record_char(c: char) -> char {
    if 'A' <= c && c <= 'Z' {
        ((c as u32) + 32) as char
    } else if c == '-' {
        '_'
    } else {
        c
    }
}

/// The record field that stanza field `key` fills: its name in lower case,
/// with `-` written `_`.
pub open spec fn record_field_name(key: Seq<char>) -> Seq<char> {
    key.map_values(|c: char| record_char(c))
}

proof fn lemma_record_names_0_24()
    ensures
        forall|i: int| 0 <= i < 24 ==> #[trigger] source_field(i).1 == record_field_name(source_field(i).0),
{
    reveal_strlit("Autobuild");
    reveal_strlit("autobuild");
    reveal_strlit("Breaks");
    reveal_strlit("breaks");
    reveal_strlit("Bugs");
    reveal_strlit("bugs");
    reveal_strlit("Build-Indep-Architecture");
    reveal_strlit("build_indep_architecture");
    reveal_strlit("Built-For-Profiles");
    reveal_strlit("built_for_profiles");
    reveal_strlit("Built-Using");
    reveal_strlit("built_using");
    reveal_strlit("Class");
    reveal_strlit("class");
    reveal_strlit("Conffiles");
    reveal_strlit("conffiles");
    reveal_strlit("Config-Version");
    reveal_strlit("config_version");
    reveal_strlit("Conflicts");
    reveal_strlit("conflicts");
    reveal_strlit("Debian-Vcs-Browser");
    reveal_strlit("debian_vcs_browser");
    reveal_strlit("Debian-Vcs-Git");
    reveal_strlit("debian_vcs_git");
    reveal_strlit("Debian-Vcs-Svn");
    reveal_strlit("debian_vcs_svn");
    reveal_strlit("Depends");
    reveal_strlit("depends");
    reveal_strlit("Description");
    reveal_strlit("description");
    reveal_strlit("Description-md5");
    reveal_strlit("description_md5");
    reveal_strlit("Dgit");
    reveal_strlit("dgit");
    reveal_strlit("Directory");
    reveal_strlit("directory");
    reveal_strlit("Dm-Upload-Allowed");
    reveal_strlit("dm_upload_allowed");
    reveal_strlit("Enhances");
    reveal_strlit("enhances");
    reveal_strlit("Essential");
    reveal_strlit("essential");
    reveal_strlit("Filename");
    reveal_strlit("filename");
    reveal_strlit("Go-Import-Path");
    reveal_strlit("go_import_path");
    reveal_strlit("Homepage");
    reveal_strlit("homepage");
    assert(source_field(0).1 =~= record_field_name(source_field(0).0));
    assert(source_field(1).1 =~= record_field_name(source_field(1).0));
    assert(source_field(2).1 =~= record_field_name(source_field(2).0));
    assert(source_field(3).1 =~= record_field_name(source_field(3).0));
    assert(source_field(4).1 =~= record_field_name(source_field(4).0));
    assert(source_field(5).1 =~= record_field_name(source_field(5).0));
    assert(source_field(6).1 =~= record_field_name(source_field(6).0));
    assert(source_field(7).1 =~= record_field_name(source_field(7).0));
    assert(source_field(8).1 =~= record_field_name(source_field(8).0));
    assert(source_field(9).1 =~= record_field_name(source_field(9).0));
    assert(source_field(10).1 =~= record_field_name(source_field(10).0));
    assert(source_field(11).1 =~= record_field_name(source_field(11).0));
    assert(source_field(12).1 =~= record_field_name(source_field(12).0));
    assert(source_field(13).1 =~= record_field_name(source_field(13).0));
    assert(source_field(14).1 =~= record_field_name(source_field(14).0));
    assert(source_field(15).1 =~= record_field_name(source_field(15).0));
    assert(source_field(16).1 =~= record_field_name(source_field(16).0));
    assert(source_field(17).1 =~= record_field_name(source_field(17).0));
    assert(source_field(18).1 =~= record_field_name(source_field(18).0));
    assert(source_field(19).1 =~= record_field_name(source_field(19).0));
    assert(source_field(20).1 =~= record_field_name(source_field(20).0));
    assert(source_field(21).1 =~= record_field_name(source_field(21).0));
    assert(source_field(22).1 =~= record_field_name(source_field(22).0));
    assert(source_field(23).1 =~= record_field_name(source_field(23).0));
}

proof fn lemma_record_names_24_48()
    ensures
        forall|i: int| 24 <= i < 48 ==> #[trigger] source_field(i).1 == record_field_name(source_field(i).0),
{
    reveal_strlit("Important");
    reveal_strlit("important");
    reveal_strlit("Installed-Size");
    reveal_strlit("installed_size");
    reveal_strlit("Installer-Menu-Item");
    reveal_strlit("installer_menu_item");
    reveal_strlit("Kernel-Version");
    reveal_strlit("kernel_version");
    reveal_strlit("MD5sum");
    reveal_strlit("md5sum");
    reveal_strlit("MSDOS-Filename");
    reveal_strlit("msdos_filename");
    reveal_strlit("Maintainer");
    reveal_strlit("maintainer");
    reveal_strlit("Multi-Arch");
    reveal_strlit("multi_arch");
    reveal_strlit("Optional");
    reveal_strlit("optional");
    reveal_strlit("Orig-Vcs-Browser");
    reveal_strlit("orig_vcs_browser");
    reveal_strlit("Orig-Vcs-Git");
    reveal_strlit("orig_vcs_git");
    reveal_strlit("Orig-Vcs-Svn");
    reveal_strlit("orig_vcs_svn");
    reveal_strlit("Origin");
    reveal_strlit("origin");
    reveal_strlit("Original-Maintainer");
    reveal_strlit("original_maintainer");
    reveal_strlit("Original-Vcs-Browser");
    reveal_strlit("original_vcs_browser");
    reveal_strlit("Original-Vcs-Bzr");
    reveal_strlit("original_vcs_bzr");
    reveal_strlit("Package-Revision");
    reveal_strlit("package_revision");
    reveal_strlit("Package-Type");
    reveal_strlit("package_type");
    reveal_strlit("Package_Revision");
    reveal_strlit("package_revision");
    reveal_strlit("Pre-Depends");
    reveal_strlit("pre_depends");
    reveal_strlit("Provides");
    reveal_strlit("provides");
    reveal_strlit("Python-Version");
    reveal_strlit("python_version");
    reveal_strlit("Python3-Version");
    reveal_strlit("python3_version");
    reveal_strlit("Recommended");
    reveal_strlit("recommended");
    assert(source_field(24).1 =~= record_field_name(source_field(24).0));
    assert(source_field(25).1 =~= record_field_name(source_field(25).0));
    assert(source_field(26).1 =~= record_field_name(source_field(26).0));
    assert(source_field(27).1 =~= record_field_name(source_field(27).0));
    assert(source_field(28).1 =~= record_field_name(source_field(28).0));
    assert(source_field(29).1 =~= record_field_name(source_field(29).0));
    assert(source_field(30).1 =~= record_field_name(source_field(30).0));
    assert(source_field(31).1 =~= record_field_name(source_field(31).0));
    assert(source_field(32).1 =~= record_field_name(source_field(32).0));
    assert(source_field(33).1 =~= record_field_name(source_field(33).0));
    assert(source_field(34).1 =~= record_field_name(source_field(34).0));
    assert(source_field(35).1 =~= record_field_name(source_field(35).0));
    assert(source_field(36).1 =~= record_field_name(source_field(36).0));
    assert(source_field(37).1 =~= record_field_name(source_field(37).0));
    assert(source_field(38).1 =~= record_field_name(source_field(38).0));
    assert(source_field(39).1 =~= record_field_name(source_field(39).0));
    assert(source_field(40).1 =~= record_field_name(source_field(40).0));
    assert(source_field(41).1 =~= record_field_name(source_field(41).0));
    assert(source_field(42).1 =~= record_field_name(source_field(42).0));
    assert(source_field(43).1 =~= record_field_name(source_field(43).0));
    assert(source_field(44).1 =~= record_field_name(source_field(44).0));
    assert(source_field(45).1 =~= record_field_name(source_field(45).0));
    assert(source_field(46).1 =~= record_field_name(source_field(46).0));
    assert(source_field(47).1 =~= record_field_name(source_field(47).0));
}

proof fn lemma_record_names_48_70()
    ensures
        forall|i: int| 48 <= i < 70 ==> #[trigger] source_field(i).1 == record_field_name(source_field(i).0),
{
    reveal_strlit("Recommends");
    reveal_strlit("recommends");
    reveal_strlit("Replaces");
    reveal_strlit("replaces");
    reveal_strlit("Revision");
    reveal_strlit("revision");
    reveal_strlit("Ruby-Versions");
    reveal_strlit("ruby_versions");
    reveal_strlit("SHA1");
    reveal_strlit("sha1");
    reveal_strlit("SHA256");
    reveal_strlit("sha256");
    reveal_strlit("SHA512");
    reveal_strlit("sha512");
    reveal_strlit("Section");
    reveal_strlit("section");
    reveal_strlit("Size");
    reveal_strlit("size");
    reveal_strlit("Standards-Version");
    reveal_strlit("standards_version");
    reveal_strlit("Status");
    reveal_strlit("status");
    reveal_strlit("Subarchitecture");
    reveal_strlit("subarchitecture");
    reveal_strlit("Suggests");
    reveal_strlit("suggests");
    reveal_strlit("Tag");
    reveal_strlit("tag");
    reveal_strlit("Task");
    reveal_strlit("task");
    reveal_strlit("Testsuite");
    reveal_strlit("testsuite");
    reveal_strlit("Testsuite-Triggers");
    reveal_strlit("testsuite_triggers");
    reveal_strlit("Triggers-Awaited");
    reveal_strlit("triggers_awaited");
    reveal_strlit("Triggers-Pending");
    reveal_strlit("triggers_pending");
    reveal_strlit("Uploaders");
    reveal_strlit("uploaders");
    reveal_strlit("Upstream-Vcs-Bzr");
    reveal_strlit("upstream_vcs_bzr");
    reveal_strlit("Vcs-Upstream-Bzr");
    reveal_strlit("vcs_upstream_bzr");
    assert(source_field(48).1 =~= record_field_name(source_field(48).0));
    assert(source_field(49).1 =~= record_field_name(source_field(49).0));
    assert(source_field(50).1 =~= record_field_name(source_field(50).0));
    assert(source_field(51).1 =~= record_field_name(source_field(51).0));
    assert(source_field(52).1 =~= record_field_name(source_field(52).0));
    assert(source_field(53).1 =~= record_field_name(source_field(53).0));
    assert(source_field(54).1 =~= record_field_name(source_field(54).0));
    assert(source_field(55).1 =~= record_field_name(source_field(55).0));
    assert(source_field(56).1 =~= record_field_name(source_field(56).0));
    assert(source_field(57).1 =~= record_field_name(source_field(57).0));
    assert(source_field(58).1 =~= record_field_name(source_field(58).0));
    assert(source_field(59).1 =~= record_field_name(source_field(59).0));
    assert(source_field(60).1 =~= record_field_name(source_field(60).0));
    assert(source_field(61).1 =~= record_field_name(source_field(61).0));
    assert(source_field(62).1 =~= record_field_name(source_field(62).0));
    assert(source_field(63).1 =~= record_field_name(source_field(63).0));
    assert(source_field(64).1 =~= record_field_name(source_field(64).0));
    assert(source_field(65).1 =~= record_field_name(source_field(65).0));
    assert(source_field(66).1 =~= record_field_name(source_field(66).0));
    assert(source_field(67).1 =~= record_field_name(source_field(67).0));
    assert(source_field(68).1 =~= record_field_name(source_field(68).0));
    assert(source_field(69).1 =~= record_field_name(source_field(69).0));
}

/// Each stanza field of the table fills the record field that is its name
/// in lower case with `-` written `_` (so `Testsuite-Triggers` fills
/// `testsuite_triggers`, and `Package-Revision` and `Package_Revision` both
/// fill `package_revision`).
pub proof fn law_record_field_names(i: int)
    requires
        0 <= i < source_field_count(),
    ensures
        source_field(i).1 == record_field_name(source_field(i).0),
{
    lemma_record_names_0_24();
    lemma_record_names_24_48();
    lemma_record_names_48_70();
}

/// The position that `field_index_from` finds lies in the table and holds the key.
proof fn lemma_field_index_found(key: Seq<char>, k: int)
    ensures
        field_index_from(key, k) matches Some(i) ==> 0 <= i < source_field_count() && source_field(i).0 == key,
    decreases source_field_count() - k,
{
    if 0 <= k < source_field_count() && source_field(k).0 != key {
        lemma_field_index_found(key, k + 1);
    }
}

/// What `set_field` does to the record, in terms of the field's name alone:
/// a recognised field with a value that is not blank fills the record field
/// named after it (lower case, `-` written `_`) with that value and touches
/// nothing else; otherwise the record is left as it was.
pub proof fn law_set_field_fills_named_field(key: Seq<char>, val: Seq<char>, rec: Map<Seq<char>, Seq<char>>)
    ensures
        set_field_spec(key, val, rec).0 is Ok && trim(val).len() > 0 ==> set_field_spec(key, val, rec).1 == rec.insert(
            record_field_name(key),
            val,
        ),
        !(set_field_spec(key, val, rec).0 is Ok && trim(val).len() > 0) ==> set_field_spec(key, val, rec).1 == rec,
{
    lemma_field_index_found(key, 0);
    if let Some(i) = field_index_from(key, 0) {
        law_record_field_names(i);
    }
}

/// Two positions of the table fill the same record field only for the
/// `Package-Revision` / `Package_Revision` pair.
pub proof fn law_record_fields_distinct(i: int, j: int)
    requires
        0 <= i < source_field_count(),
        0 <= j < source_field_count(),
        i != j,
        source_field(i).1 == source_field(j).1,
    ensures
        source_field(i).0 == "Package-Revision"@ && source_field(j).0 == "Package_Revision"@
            || source_field(i).0 == "Package_Revision"@ && source_field(j).0 == "Package-Revision"@,
{
    reveal_strlit("autobuild");
    reveal_strlit("breaks");
    reveal_strlit("bugs");
    reveal_strlit("build_indep_architecture");
    reveal_strlit("built_for_profiles");
    reveal_strlit("built_using");
    reveal_strlit("class");
    reveal_strlit("conffiles");
    reveal_strlit("config_version");
    reveal_strlit("conflicts");
    reveal_strlit("debian_vcs_browser");
    reveal_strlit("debian_vcs_git");
    reveal_strlit("debian_vcs_svn");
    reveal_strlit("depends");
    reveal_strlit("description");
    reveal_strlit("description_md5");
    reveal_strlit("dgit");
    reveal_strlit("directory");
    reveal_strlit("dm_upload_allowed");
    reveal_strlit("enhances");
    reveal_strlit("essential");
    reveal_strlit("filename");
    reveal_strlit("go_import_path");
    reveal_strlit("homepage");
    reveal_strlit("important");
    reveal_strlit("installed_size");
    reveal_strlit("installer_menu_item");
    reveal_strlit("kernel_version");
    reveal_strlit("md5sum");
    reveal_strlit("msdos_filename");
    reveal_strlit("maintainer");
    reveal_strlit("multi_arch");
    reveal_strlit("optional");
    reveal_strlit("orig_vcs_browser");
    reveal_strlit("orig_vcs_git");
    reveal_strlit("orig_vcs_svn");
    reveal_strlit("origin");
    reveal_strlit("original_maintainer");
    reveal_strlit("original_vcs_browser");
    reveal_strlit("original_vcs_bzr");
    reveal_strlit("package_revision");
    reveal_strlit("package_type");
    reveal_strlit("package_revision");
    reveal_strlit("pre_depends");
    reveal_strlit("provides");
    reveal_strlit("python_version");
    reveal_strlit("python3_version");
    reveal_strlit("recommended");
    reveal_strlit("recommends");
    reveal_strlit("replaces");
    reveal_strlit("revision");
    reveal_strlit("ruby_versions");
    reveal_strlit("sha1");
    reveal_strlit("sha256");
    reveal_strlit("sha512");
    reveal_strlit("section");
    reveal_strlit("size");
    reveal_strlit("standards_version");
    reveal_strlit("status");
    reveal_strlit("subarchitecture");
    reveal_strlit("suggests");
    reveal_strlit("tag");
    reveal_strlit("task");
    reveal_strlit("testsuite");
    reveal_strlit("testsuite_triggers");
    reveal_strlit("triggers_awaited");
    reveal_strlit("triggers_pending");
    reveal_strlit("uploaders");
    reveal_strlit("upstream_vcs_bzr");
    reveal_strlit("vcs_upstream_bzr");
    let a = source_field(i).1;
    let b = source_field(j).1;
    if !(i == 40 && j == 42 || i == 42 && j == 40) {
        assert(a.len() != b.len() || a[0] != b[0] || a[1] != b[1] || a[2] != b[2] || a[3] != b[3] || a[4] != b[4]
            || a[9] != b[9] || a[11] != b[11]);
    }
}

} // verus!
