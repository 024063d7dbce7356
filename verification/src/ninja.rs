//! Build descriptions (for the `ninja` build tool) of the packages in an
//! index: one `build` statement per source or binary package, with the
//! variables a processing script needs.

use vstd::prelude::*;
use crate::error::{Error, ErrorView};
use crate::number::{decimal, decimal_string, parse_u64, parse_u64_spec};
use crate::rfc822::{lookup, Stanza};
use crate::text::{chars_of, has_prefix, has_suffix, split_whitespace, substring, views, words};

verus! {

/// The one line of `ls`, or an error naming all of them.
pub open spec fn one_line_of(ls: Seq<Seq<char>>) -> Result<Seq<char>, ErrorView> {
    if ls.len() == 1 {
        Ok(ls[0])
    } else {
        Err(ErrorView::NotExactlyOneLine(ls))
    }
}

/// The single line of `lines`; any other number of lines is an error.
pub fn one_line(lines: &Vec<String>) -> (r: Result<String, Error>)
    ensures
        match one_line_of(views(lines@)) {
            Ok(l) => r matches Ok(x) && x@ == l,
            Err(e) => r matches Err(x) && x@ == e,
        },
{
    if lines.len() == 1 {
        Ok(lines[0].clone())
    } else {
        let mut copy: Vec<String> = Vec::new();
        let mut i: usize = 0;
        while i < lines.len()
            invariant
                i <= lines.len(),
                views(copy@) == views(lines@).take(i as int),
            decreases lines.len() - i,
        {
            let ghost before = views(copy@);
            copy.push(lines[i].clone());
            assert(views(copy@) =~= before.push(lines@[i as int]@));
            assert(views(lines@).take(i + 1) =~= views(lines@).take(i as int).push(views(lines@)[i as int]));
            i += 1;
        }
        assert(views(lines@).take(i as int) =~= views(lines@));
        Err(Error::NotExactlyOneLine(copy))
    }
}

pub open spec fn lib_prefix() -> Seq<char> {
    seq!['l', 'i', 'b']
}

/// Whether cutting `name` for `subdir` falls on a character boundary: the
/// cut is after four bytes for names beginning `lib`, else after one.
pub open spec fn subdir_ok(name: Seq<char>) -> bool {
    if has_prefix(name, lib_prefix()) {
        name.len() >= 4 && (name[3] as u32) < 0x80
    } else {
        name.len() >= 1 && (name[0] as u32) < 0x80
    }
}

/// The pool directory of a package: `libx` for names beginning `libx`, else the first letter.
pub open spec fn subdir_spec(name: Seq<char>) -> Seq<char> {
    if has_prefix(name, lib_prefix()) {
        name.take(4)
    } else {
        name.take(1)
    }
}

/// The pool directory of a package name, as the archive lays it out.
pub fn subdir(name: &str) -> (r: &str)
    requires
        subdir_ok(name@),
    ensures
        r@ == subdir_spec(name@),
{
    let cs = chars_of(name);
    if cs.len() >= 3 && cs[0] == 'l' && cs[1] == 'i' && cs[2] == 'b' {
        assert(name@.subrange(0, 3) =~= lib_prefix());
        name.substring_char(0, 4)
    } else {
        assert(!has_prefix(name@, lib_prefix())) by {
            if has_prefix(name@, lib_prefix()) {
                assert(name@.subrange(0, 3)[0] == name@[0]);
                assert(name@.subrange(0, 3)[1] == name@[1]);
                assert(name@.subrange(0, 3)[2] == name@[2]);
            }
        }
        name.substring_char(0, 1)
    }
}

/// `s` with every `:` written `$:` (ninja's escape).
pub open spec fn escape_colons(s: Seq<char>) -> Seq<char>
    decreases s.len(),
{
    if s.len() == 0 {
        seq![]
    } else {
        escape_colons(s.drop_last()) + if s.last() == ':' {
            seq!['$', ':']
        } else {
            seq![s.last()]
        }
    }
}

/// `s` with every `:` written `$:`, as `s.replace(':', "$:")` gives it.
pub fn escape_colons_str(s: &str) -> (r: String)
    ensures
        r@ == escape_colons(s@),
{
    let cs = chars_of(s);
    let mut out = String::new();
    let mut i: usize = 0;
    proof {
        reveal_strlit("$:");
    }
    assert(out@ =~= escape_colons(s@.take(0)));
    while i < cs.len()
        invariant
            cs@ == s@,
            i <= cs.len(),
            out@ == escape_colons(s@.take(i as int)),
            "$:"@ == seq!['$', ':'],
        decreases cs.len() - i,
    {
        assert(s@.take(i + 1).drop_last() =~= s@.take(i as int));
        assert(s@.take(i + 1).last() == cs@[i as int]);
        if cs[i] == ':' {
            out.append("$:");
        } else {
            out.append(s.substring_char(i, i + 1));
            assert(s@.subrange(i as int, i + 1) =~= seq![cs@[i as int]]);
        }
        i += 1;
    }
    assert(s@.take(i as int) =~= s@);
    out
}

/// The position of the first line at or after `i` that ends with `.dsc`.
pub open spec fn first_dsc_from(files: Seq<Seq<char>>, i: int) -> Option<int>
    decreases files.len() - i,
{
    if i < 0 || i >= files.len() {
        None
    } else if has_suffix(files[i], seq!['.', 'd', 's', 'c']) {
        Some(i)
    } else {
        first_dsc_from(files, i + 1)
    }
}

/// The sum of the sizes (second words) of the `Files` lines.
pub open spec fn files_size(files: Seq<Seq<char>>) -> nat
    decreases files.len(),
{
    if files.len() == 0 {
        0
    } else {
        files_size(files.drop_last()) + match parse_u64_spec(words(files.last())[1]) {
            Some(n) => n as nat,
            None => 0,
        }
    }
}

/// What the `Files` lines must be for the source statement to be written:
/// a `.dsc` line with at least three words, and on every line a second
/// word that is a size, the sizes adding up to a 64-bit number.
pub open spec fn files_ok(files: Seq<Seq<char>>) -> bool {
    &&& first_dsc_from(files, 0) matches Some(k) && words(files[k]).len() >= 3
    &&& forall|i: int| 0 <= i < files.len() ==> words(#[trigger] files[i]).len() >= 2 && parse_u64_spec(words(files[i])[1]) is Some
    &&& files_size(files) <= u64::MAX
}

/// The pool assignment for a package of `size` bytes: none, `big` or `massive`.
pub open spec fn pool_lines(size: nat) -> Seq<Seq<char>> {
    if size > 250 * 1024 * 1024 {
        seq!["  pool = massive"@]
    } else if size > 100 * 1024 * 1024 {
        seq!["  pool = big"@]
    } else {
        seq![]
    }
}

/// The statement for a source package.
pub open spec fn source_statement(pkg: Seq<char>, version: Seq<char>, dir: Seq<char>, dsc: Seq<char>, size: nat) -> Seq<Seq<char>> {
    let prefix = subdir_spec(pkg) + "/"@ + pkg + "_"@ + version;
    seq![
        "build $dest/"@ + prefix + "$suffix: process-source | $script"@,
        "  description = PS "@ + pkg + " "@ + version,
        "  pkg = "@ + pkg,
        "  version = "@ + version,
        "  url = $mirror/"@ + dir + "/"@ + dsc,
        "  prefix = "@ + prefix,
        "  size = "@ + decimal(size),
    ] + pool_lines(size)
}

/// When the source statement can be written without a failed lookup or cut.
pub open spec fn ninja_source_ok(m: Map<Seq<char>, Seq<Seq<char>>>) -> bool {
    &&& m.dom().contains("Package"@)
    &&& one_line_of(m["Package"@]) is Ok ==> {
        &&& m.dom().contains("Version"@)
        &&& one_line_of(m["Version"@]) is Ok ==> {
            &&& m.dom().contains("Directory"@)
            &&& one_line_of(m["Directory"@]) is Ok ==> {
                &&& m.dom().contains("Files"@)
                &&& files_ok(m["Files"@])
                &&& subdir_ok(one_line_of(m["Package"@])->Ok_0)
            }
        }
    }
}

/// The statement for a source stanza, or the first of `Package`, `Version`
/// and `Directory` that is not one line.
pub open spec fn ninja_source_spec(m: Map<Seq<char>, Seq<Seq<char>>>) -> Result<Seq<Seq<char>>, ErrorView> {
    match one_line_of(m["Package"@]) {
        Err(e) => Err(e),
        Ok(pkg) => match one_line_of(m["Version"@]) {
            Err(e) => Err(e),
            Ok(v) => match one_line_of(m["Directory"@]) {
                Err(e) => Err(e),
                Ok(dir) => {
                    let files = m["Files"@];
                    let dsc = words(files[first_dsc_from(files, 0)->0])[2];
                    Ok(source_statement(pkg, escape_colons(v), dir, dsc, files_size(files)))
                },
            },
        },
    }
}


proof fn lemma_files_size_prefix(files: Seq<Seq<char>>, i: int)
    requires
        0 <= i <= files.len(),
    ensures
        files_size(files.take(i)) <= files_size(files),
    decreases files.len() - i,
{
    if i < files.len() {
        lemma_files_size_prefix(files, i + 1);
        assert(files.take(i + 1).drop_last() =~= files.take(i));
    } else {
        assert(files.take(i) =~= files);
    }
}

fn ends_with_dsc(s: &str) -> (r: bool)
    ensures
        r == has_suffix(s@, seq!['.', 'd', 's', 'c']),
{
    let cs = chars_of(s);
    let n = cs.len();
    if n < 4 {
        return false;
    }
    let r = cs[n - 4] == '.' && cs[n - 3] == 'd' && cs[n - 2] == 's' && cs[n - 1] == 'c';
    let ghost t = s@.subrange(n - 4, n as int);
    assert(t[0] == cs@[n - 4] && t[1] == cs@[n - 3] && t[2] == cs@[n - 2] && t[3] == cs@[n - 1]);
    if r {
        assert(t =~= seq!['.', 'd', 's', 'c']);
    }
    r
}

fn get_field<'a>(map: &'a Stanza, key: &str) -> (r: &'a Vec<String>)
    requires
        map@.dom().contains(key@),
    ensures
        views(r@) == map@[key@],
{
    map.get(key).unwrap()
}

fn pool_line(size: u64, out: &mut Vec<String>)
    ensures
        views(final(out)@) == views(old(out)@) + pool_lines(size as nat),
{
    let ghost before = views(out@);
    if size > 250 * 1024 * 1024 {
        out.push(String::from_str("  pool = massive"));
        assert(views(out@) =~= before + pool_lines(size as nat));
    } else if size > 100 * 1024 * 1024 {
        out.push(String::from_str("  pool = big"));
        assert(views(out@) =~= before + pool_lines(size as nat));
    } else {
        assert(views(out@) =~= before + pool_lines(size as nat));
    }
}

/// The build statement for a source stanza (one with `Files`).
pub fn ninja_source_lines(map: &Stanza) -> (r: Result<Vec<String>, Error>)
    requires
        ninja_source_ok(map@),
    ensures
        match ninja_source_spec(map@) {
            Ok(ls) => r matches Ok(v) && views(v@) == ls,
            Err(e) => r matches Err(x) && x@ == e,
        },
{
    let pkg = match one_line(get_field(map, "Package")) {
        Ok(l) => l,
        Err(e) => {
            return Err(e);
        },
    };
    let version = match one_line(get_field(map, "Version")) {
        Ok(l) => escape_colons_str(l.as_str()),
        Err(e) => {
            return Err(e);
        },
    };
    let dir = match one_line(get_field(map, "Directory")) {
        Ok(l) => l,
        Err(e) => {
            return Err(e);
        },
    };
    let files = get_field(map, "Files");
    let ghost fv = views(files@);
    let mut k: usize = 0;
    while k < files.len() && !ends_with_dsc(files[k].as_str())
        invariant
            fv == views(files@),
            k <= files.len(),
            first_dsc_from(fv, k as int) == first_dsc_from(fv, 0),
        decreases files.len() - k,
    {
        k += 1;
    }
    assert(fv[k as int] == files@[k as int]@);
    let dsc_words = split_whitespace(files[k].as_str());
    let dsc = &dsc_words[2];
    assert(views(dsc_words@)[2] == dsc@);
    let mut size: u64 = 0;
    let mut i: usize = 0;
    while i < files.len()
        invariant
            fv == views(files@),
            files_ok(fv),
            i <= files.len(),
            size as nat == files_size(fv.take(i as int)),
        decreases files.len() - i,
    {
        proof {
            lemma_files_size_prefix(fv, i + 1);
        }
        assert(fv.take(i + 1).drop_last() =~= fv.take(i as int));
        assert(fv.take(i + 1).last() == files@[i as int]@);
        assert(fv[i as int] == files@[i as int]@);
        let w = split_whitespace(files[i].as_str());
        assert(views(w@)[1] == w@[1]@);
        let n = parse_u64(w[1].as_str()).unwrap();
        size = size + n;
        i += 1;
    }
    assert(fv.take(i as int) =~= fv);
    let sub = subdir(pkg.as_str());
    let mut prefix = String::from_str(sub);
    prefix.append("/");
    prefix.append(pkg.as_str());
    prefix.append("_");
    prefix.append(version.as_str());
    let mut out: Vec<String> = Vec::new();
    let mut l0 = String::from_str("build $dest/");
    l0.append(prefix.as_str());
    l0.append("$suffix: process-source | $script");
    out.push(l0);
    let mut l1 = String::from_str("  description = PS ");
    l1.append(pkg.as_str());
    l1.append(" ");
    l1.append(version.as_str());
    out.push(l1);
    let mut l2 = String::from_str("  pkg = ");
    l2.append(pkg.as_str());
    out.push(l2);
    let mut l3 = String::from_str("  version = ");
    l3.append(version.as_str());
    out.push(l3);
    let mut l4 = String::from_str("  url = $mirror/");
    l4.append(dir.as_str());
    l4.append("/");
    l4.append(dsc.as_str());
    out.push(l4);
    let mut l5 = String::from_str("  prefix = ");
    l5.append(prefix.as_str());
    out.push(l5);
    let mut l6 = String::from_str("  size = ");
    l6.append(decimal_string(size).as_str());
    out.push(l6);
    let ghost head = views(out@);
    pool_line(size, &mut out);
    let ghost p = subdir_spec(pkg@) + "/"@ + pkg@ + "_"@ + version@;
    assert(prefix@ =~= p);
    assert(head =~= seq![
        "build $dest/"@ + p + "$suffix: process-source | $script"@,
        "  description = PS "@ + pkg@ + " "@ + version@,
        "  pkg = "@ + pkg@,
        "  version = "@ + version@,
        "  url = $mirror/"@ + dir@ + "/"@ + dsc@,
        "  prefix = "@ + p,
        "  size = "@ + decimal(size as nat),
    ]);
    Ok(out)
}


/// The lines naming the source package of a binary stanza: `Source` when
/// present, else `Package`.
pub open spec fn source_lines_of(m: Map<Seq<char>, Seq<Seq<char>>>) -> Seq<Seq<char>> {
    if m.dom().contains("Source"@) {
        m["Source"@]
    } else {
        m["Package"@]
    }
}

/// When the binary statement can be written without a failed lookup or cut.
pub open spec fn ninja_binary_ok(m: Map<Seq<char>, Seq<Seq<char>>>) -> bool {
    &&& m.dom().contains("Package"@)
    &&& one_line_of(m["Package"@]) is Ok ==> {
        &&& one_line_of(source_lines_of(m)) is Ok ==> {
            &&& words(one_line_of(source_lines_of(m))->Ok_0).len() >= 1
            &&& m.dom().contains("Architecture"@)
            &&& one_line_of(m["Architecture"@]) is Ok ==> {
                &&& m.dom().contains("Version"@)
                &&& one_line_of(m["Version"@]) is Ok ==> {
                    &&& m.dom().contains("Filename"@)
                    &&& one_line_of(m["Filename"@]) is Ok ==> {
                        &&& m.dom().contains("Size"@)
                        &&& (one_line_of(m["Size"@]) matches Ok(l) && parse_u64_spec(l) is Some) ==> subdir_ok(
                            words(one_line_of(source_lines_of(m))->Ok_0)[0],
                        )
                    }
                }
            }
        }
    }
}

/// The statement for a binary package.
pub open spec fn binary_statement(
    source: Seq<char>,
    pkg: Seq<char>,
    version: Seq<char>,
    arch: Seq<char>,
    filename: Seq<char>,
    size: nat,
) -> Seq<Seq<char>> {
    let prefix = subdir_spec(source) + "/"@ + source + "/"@ + pkg + "_"@ + version + "_"@ + arch;
    seq![
        "build $dest/"@ + prefix + "$suffix: process-binary | $script"@,
        "  description = PB "@ + source + " "@ + pkg + " "@ + version + " "@ + arch,
        "  source = "@ + source,
        "  pkg = "@ + pkg,
        "  version = "@ + version,
        "  arch = "@ + arch,
        "  url = $mirror/"@ + filename,
        "  prefix = "@ + prefix,
    ] + pool_lines(size)
}

/// The statement for a binary stanza, or the first field that is not one
/// line (`Package`, the source, `Architecture`, `Version`, `Filename`,
/// `Size`), or a `Size` that is not a number.
pub open spec fn ninja_binary_spec(m: Map<Seq<char>, Seq<Seq<char>>>) -> Result<Seq<Seq<char>>, ErrorView> {
    match one_line_of(m["Package"@]) {
        Err(e) => Err(e),
        Ok(pkg) => match one_line_of(source_lines_of(m)) {
            Err(e) => Err(e),
            Ok(src) => match one_line_of(m["Architecture"@]) {
                Err(e) => Err(e),
                Ok(arch) => match one_line_of(m["Version"@]) {
                    Err(e) => Err(e),
                    Ok(v) => match one_line_of(m["Filename"@]) {
                        Err(e) => Err(e),
                        Ok(fname) => match one_line_of(m["Size"@]) {
                            Err(e) => Err(e),
                            Ok(sl) => match parse_u64_spec(sl) {
                                None => Err(ErrorView::BadSize(sl)),
                                Some(size) => Ok(binary_statement(words(src)[0], pkg, escape_colons(v), arch, fname, size as nat)),
                            },
                        },
                    },
                },
            },
        },
    }
}

/// The build statement for a binary stanza.
pub fn ninja_binary_lines(map: &Stanza) -> (r: Result<Vec<String>, Error>)
    requires
        ninja_binary_ok(map@),
    ensures
        match ninja_binary_spec(map@) {
            Ok(ls) => r matches Ok(v) && views(v@) == ls,
            Err(e) => r matches Err(x) && x@ == e,
        },
{
    let pkg = match one_line(get_field(map, "Package")) {
        Ok(l) => l,
        Err(e) => {
            return Err(e);
        },
    };
    let source_lines = match map.get("Source") {
        Some(ls) => ls,
        None => get_field(map, "Package"),
    };
    let src_line = match one_line(source_lines) {
        Ok(l) => l,
        Err(e) => {
            return Err(e);
        },
    };
    let src_words = split_whitespace(src_line.as_str());
    let source = &src_words[0];
    assert(views(src_words@)[0] == source@);
    let arch = match one_line(get_field(map, "Architecture")) {
        Ok(l) => l,
        Err(e) => {
            return Err(e);
        },
    };
    let version = match one_line(get_field(map, "Version")) {
        Ok(l) => escape_colons_str(l.as_str()),
        Err(e) => {
            return Err(e);
        },
    };
    let filename = match one_line(get_field(map, "Filename")) {
        Ok(l) => l,
        Err(e) => {
            return Err(e);
        },
    };
    let size_line = match one_line(get_field(map, "Size")) {
        Ok(l) => l,
        Err(e) => {
            return Err(e);
        },
    };
    let size = match parse_u64(size_line.as_str()) {
        Some(n) => n,
        None => {
            return Err(Error::BadSize(size_line));
        },
    };
    let sub = subdir(source.as_str());
    let mut prefix = String::from_str(sub);
    prefix.append("/");
    prefix.append(source.as_str());
    prefix.append("/");
    prefix.append(pkg.as_str());
    prefix.append("_");
    prefix.append(version.as_str());
    prefix.append("_");
    prefix.append(arch.as_str());
    let mut out: Vec<String> = Vec::new();
    let mut l0 = String::from_str("build $dest/");
    l0.append(prefix.as_str());
    l0.append("$suffix: process-binary | $script");
    out.push(l0);
    let mut l1 = String::from_str("  description = PB ");
    l1.append(source.as_str());
    l1.append(" ");
    l1.append(pkg.as_str());
    l1.append(" ");
    l1.append(version.as_str());
    l1.append(" ");
    l1.append(arch.as_str());
    out.push(l1);
    let mut l2 = String::from_str("  source = ");
    l2.append(source.as_str());
    out.push(l2);
    let mut l3 = String::from_str("  pkg = ");
    l3.append(pkg.as_str());
    out.push(l3);
    let mut l4 = String::from_str("  version = ");
    l4.append(version.as_str());
    out.push(l4);
    let mut l5 = String::from_str("  arch = ");
    l5.append(arch.as_str());
    out.push(l5);
    let mut l6 = String::from_str("  url = $mirror/");
    l6.append(filename.as_str());
    out.push(l6);
    let mut l7 = String::from_str("  prefix = ");
    l7.append(prefix.as_str());
    out.push(l7);
    let ghost head = views(out@);
    pool_line(size, &mut out);
    let ghost p = subdir_spec(source@) + "/"@ + source@ + "/"@ + pkg@ + "_"@ + version@ + "_"@ + arch@;
    assert(prefix@ =~= p);
    assert(head =~= seq![
        "build $dest/"@ + p + "$suffix: process-binary | $script"@,
        "  description = PB "@ + source@ + " "@ + pkg@ + " "@ + version@ + " "@ + arch@,
        "  source = "@ + source@,
        "  pkg = "@ + pkg@,
        "  version = "@ + version@,
        "  arch = "@ + arch@,
        "  url = $mirror/"@ + filename@,
        "  prefix = "@ + p,
    ]);
    Ok(out)
}


/// When the statement for a stanza can be written: a source statement for
/// a stanza with `Files`, a binary statement otherwise.
pub open spec fn ninja_ok(m: Map<Seq<char>, Seq<Seq<char>>>) -> bool {
    if m.dom().contains("Files"@) {
        ninja_source_ok(m)
    } else {
        ninja_binary_ok(m)
    }
}

pub open spec fn ninja_spec(m: Map<Seq<char>, Seq<Seq<char>>>) -> Result<Seq<Seq<char>>, ErrorView> {
    if m.dom().contains("Files"@) {
        ninja_source_spec(m)
    } else {
        ninja_binary_spec(m)
    }
}

/// The build statement for a stanza of an index: stanzas with `Files`
/// describe source packages, the others binary packages.
pub fn ninja_lines(map: &Stanza) -> (r: Result<Vec<String>, Error>)
    requires
        ninja_ok(map@),
    ensures
        match ninja_spec(map@) {
            Ok(ls) => r matches Ok(v) && views(v@) == ls,
            Err(e) => r matches Err(x) && x@ == e,
        },
{
    if map.contains_key("Files") {
        ninja_source_lines(map)
    } else {
        ninja_binary_lines(map)
    }
}


/// Whether `subdir` may cut `name`.
pub fn subdir_writable(name: &str) -> (r: bool)
    ensures
        r == subdir_ok(name@),
{
    let cs = chars_of(name);
    if cs.len() >= 3 && cs[0] == 'l' && cs[1] == 'i' && cs[2] == 'b' {
        assert(name@.subrange(0, 3) =~= lib_prefix());
        cs.len() >= 4 && (cs[3] as u32) < 0x80
    } else {
        assert(!has_prefix(name@, lib_prefix())) by {
            if has_prefix(name@, lib_prefix()) {
                assert(name@.subrange(0, 3)[0] == name@[0]);
                assert(name@.subrange(0, 3)[1] == name@[1]);
                assert(name@.subrange(0, 3)[2] == name@[2]);
            }
        }
        cs.len() >= 1 && (cs[0] as u32) < 0x80
    }
}

fn files_writable(files: &Vec<String>) -> (r: bool)
    ensures
        r == files_ok(views(files@)),
{
    let ghost fv = views(files@);
    let mut k: usize = 0;
    while k < files.len() && !ends_with_dsc(files[k].as_str())
        invariant
            fv == views(files@),
            k <= files.len(),
            first_dsc_from(fv, k as int) == first_dsc_from(fv, 0),
        decreases files.len() - k,
    {
        k += 1;
    }
    if k >= files.len() {
        return false;
    }
    assert(fv[k as int] == files@[k as int]@);
    if split_whitespace(files[k].as_str()).len() < 3 {
        return false;
    }
    let mut size: u64 = 0;
    let mut i: usize = 0;
    while i < files.len()
        invariant
            fv == views(files@),
            i <= files.len(),
            size as nat == files_size(fv.take(i as int)),
            forall|j: int| 0 <= j < i ==> words(#[trigger] fv[j]).len() >= 2 && parse_u64_spec(words(fv[j])[1]) is Some,
        decreases files.len() - i,
    {
        assert(fv.take(i + 1).drop_last() =~= fv.take(i as int));
        assert(fv.take(i + 1).last() == files@[i as int]@);
        assert(fv[i as int] == files@[i as int]@);
        let w = split_whitespace(files[i].as_str());
        if w.len() < 2 {
            return false;
        }
        assert(views(w@)[1] == w@[1]@);
        let n = match parse_u64(w[1].as_str()) {
            Some(n) => n,
            None => {
                return false;
            },
        };
        match size.checked_add(n) {
            Some(t) => {
                size = t;
            },
            None => {
                proof {
                    lemma_files_size_prefix(fv, i + 1);
                }
                return false;
            },
        }
        i += 1;
    }
    assert(fv.take(i as int) =~= fv);
    true
}

fn source_writable(map: &Stanza) -> (r: bool)
    ensures
        r == ninja_source_ok(map@),
{
    let p = match map.get("Package") {
        None => {
            return false;
        },
        Some(p) => p,
    };
    if p.len() != 1 {
        return true;
    }
    let v = match map.get("Version") {
        None => {
            return false;
        },
        Some(v) => v,
    };
    if v.len() != 1 {
        return true;
    }
    let d = match map.get("Directory") {
        None => {
            return false;
        },
        Some(d) => d,
    };
    if d.len() != 1 {
        return true;
    }
    let f = match map.get("Files") {
        None => {
            return false;
        },
        Some(f) => f,
    };
    assert(views(p@)[0] == p@[0]@);
    files_writable(f) && subdir_writable(p[0].as_str())
}

fn binary_writable(map: &Stanza) -> (r: bool)
    ensures
        r == ninja_binary_ok(map@),
{
    let p = match map.get("Package") {
        None => {
            return false;
        },
        Some(p) => p,
    };
    if p.len() != 1 {
        return true;
    }
    let src = match map.get("Source") {
        Some(s) => s,
        None => p,
    };
    if src.len() != 1 {
        return true;
    }
    assert(views(src@)[0] == src@[0]@);
    let w = split_whitespace(src[0].as_str());
    if w.len() < 1 {
        return false;
    }
    assert(views(w@)[0] == w@[0]@);
    let a = match map.get("Architecture") {
        None => {
            return false;
        },
        Some(a) => a,
    };
    if a.len() != 1 {
        return true;
    }
    let v = match map.get("Version") {
        None => {
            return false;
        },
        Some(v) => v,
    };
    if v.len() != 1 {
        return true;
    }
    let f = match map.get("Filename") {
        None => {
            return false;
        },
        Some(f) => f,
    };
    if f.len() != 1 {
        return true;
    }
    let z = match map.get("Size") {
        None => {
            return false;
        },
        Some(z) => z,
    };
    if z.len() != 1 {
        return true;
    }
    assert(views(z@)[0] == z@[0]@);
    if parse_u64(z[0].as_str()).is_none() {
        return true;
    }
    subdir_writable(w[0].as_str())
}

/// Whether `ninja_lines` may be called on the stanza: every lookup and cut
/// it makes succeeds (where they fail, the statement cannot be written).
pub fn ninja_writable(map: &Stanza) -> (r: bool)
    ensures
        r == ninja_ok(map@),
{
    if map.contains_key("Files") {
        source_writable(map)
    } else {
        binary_writable(map)
    }
}

/// Every `:` of `w` stands right after a `$`.
pub open spec fn colons_escaped(w: Seq<char>) -> bool {
    forall|k: int| 0 <= k < w.len() && #[trigger] w[k] == ':' ==> k >= 1 && w[k - 1] == '$'
}

/// `w` with each `$:` read back as `:`, from the end.
pub open spec fn unescape_colons(w: Seq<char>) -> Seq<char>
    decreases w.len(),
{
    if w.len() == 0 {
        seq![]
    } else if w.len() >= 2 && w.last() == ':' && w[w.len() - 2] == '$' {
        unescape_colons(w.subrange(0, w.len() - 2)).push(':')
    } else {
        unescape_colons(w.drop_last()).push(w.last())
    }
}

/// Escaping leaves no bare `:`, and reading the escapes back gives the text again.
pub proof fn law_escape_colons(s: Seq<char>)
    ensures
        colons_escaped(escape_colons(s)),
        unescape_colons(escape_colons(s)) == s,
    decreases s.len(),
{
    if s.len() > 0 {
        let t = s.drop_last();
        law_escape_colons(t);
        let e = escape_colons(s);
        let et = escape_colons(t);
        if s.last() == ':' {
            assert(e =~= et + seq!['$', ':']);
            assert(e.subrange(0, e.len() - 2) =~= et);
            assert forall|k: int| 0 <= k < e.len() && #[trigger] e[k] == ':' implies k >= 1 && e[k - 1] == '$' by {
                if k < et.len() {
                    assert(e[k] == et[k]);
                    assert(e[k - 1] == et[k - 1]);
                }
            }
        } else {
            assert(e =~= et.push(s.last()));
            assert(e.drop_last() =~= et);
            assert forall|k: int| 0 <= k < e.len() && #[trigger] e[k] == ':' implies k >= 1 && e[k - 1] == '$' by {
                if k < et.len() {
                    assert(e[k] == et[k]);
                    assert(e[k - 1] == et[k - 1]);
                }
            }
        }
        assert(s =~= t.push(s.last()));
    }
}

/// The version in a source statement is the stanza's `Version` with every
/// `:` escaped: its version line holds no bare `:`, and reading the escapes
/// back gives the `Version` line.
pub proof fn law_ninja_source_version(m: Map<Seq<char>, Seq<Seq<char>>>)
    requires
        ninja_source_spec(m) is Ok,
    ensures
        ({
            let lines = ninja_source_spec(m)->Ok_0;
            let v = one_line_of(m["Version"@])->Ok_0;
            exists|w: Seq<char>|
                lines[3] == "  version = "@ + w && #[trigger] colons_escaped(w) && unescape_colons(w) == v
        }),
{
    let v = one_line_of(m["Version"@])->Ok_0;
    law_escape_colons(v);
    assert(colons_escaped(escape_colons(v)));
}

/// The version in a binary statement is the stanza's `Version` with every
/// `:` escaped: its version line holds no bare `:`, and reading the escapes
/// back gives the `Version` line.
pub proof fn law_ninja_binary_version(m: Map<Seq<char>, Seq<Seq<char>>>)
    requires
        ninja_binary_spec(m) is Ok,
    ensures
        ({
            let lines = ninja_binary_spec(m)->Ok_0;
            let v = one_line_of(m["Version"@])->Ok_0;
            exists|w: Seq<char>|
                lines[4] == "  version = "@ + w && #[trigger] colons_escaped(w) && unescape_colons(w) == v
        }),
{
    let v = one_line_of(m["Version"@])->Ok_0;
    law_escape_colons(v);
    assert(colons_escaped(escape_colons(v)));
}

} // verus!
