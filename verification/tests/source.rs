use fapt::deps::{parse_dep, read, ConstraintOperator};
use fapt::error::Error;
use fapt::ident::{read as read_people, Identity};
use fapt::pkg::{parse_priority, Priority};
use fapt::rfc822::Stanza;
use fapt::source::{parse_format, parse_src, take_files, take_package_list, SourceFormat};
use fapt::vcs::{extract, VcsTag, VcsType};

fn stanza(fields: &[(&str, &[&str])]) -> Stanza {
    let mut m = Stanza::new();
    for (k, ls) in fields {
        m.insert(k.to_string(), ls.iter().map(|l| l.to_string()).collect());
    }
    m
}

const MD5_A: &str = "0123456789abcdef0123456789abcdef";
const MD5_B: &str = "fedcba9876543210fedcba9876543210";

fn sha(c: char) -> String {
    std::iter::repeat(c).take(64).collect()
}

#[test]
fn formats() {
    assert_eq!(parse_format("3.0 (quilt)"), Ok(SourceFormat::Quilt3dot0));
    assert_eq!(parse_format("1.0"), Ok(SourceFormat::Original));
    assert_eq!(parse_format("3.0 (git)"), Ok(SourceFormat::Git3dot0));
    assert_eq!(parse_format("3.0 (native)"), Ok(SourceFormat::Native3dot0));
    assert_eq!(parse_format("2.0"), Err(Error::UnsupportedFormat("2.0".to_string())));
}

#[test]
fn priorities() {
    assert_eq!(parse_priority("optional"), Ok(Priority::Optional));
    assert_eq!(parse_priority("extra"), Ok(Priority::Extra));
    assert_eq!(parse_priority("unknown"), Ok(Priority::Unknown));
    assert_eq!(parse_priority("Optional"), Err(Error::UnsupportedPriority("Optional".to_string())));
}

#[test]
fn stanza_fields() {
    let mut m = stanza(&[("A", &["1"]), ("B", &["2", "3"])]);
    assert!(m.contains_key("A"));
    assert_eq!(m.get("B").unwrap(), &vec!["2".to_string(), "3".to_string()]);
    m.insert("A".to_string(), vec!["9".to_string()]);
    assert_eq!(m.get("A").unwrap(), &vec!["9".to_string()]);
    let v = m.remove_value("B");
    assert_eq!(v.one_line(), Err(Error::NotOneLine("B".to_string())));
    assert!(!m.contains_key("B"));
    let v = m.remove_value("B");
    assert_eq!(v.one_line(), Ok(None));
    assert_eq!(v.one_line_req(), Err(Error::Required("B".to_string())));
    assert!(v.split_comma().is_empty());
    let v = m.remove_value("A");
    assert_eq!(v.one_line_req(), Ok("9".to_string()));
    assert_eq!(m.fields().len(), 0);
}

#[test]
fn comma_lists() {
    let mut m = stanza(&[("Binary", &["foo, bar,", " ,baz  "])]);
    assert_eq!(m.remove_value("Binary").split_comma(), vec!["foo", "bar", "baz"]);
}

#[test]
fn package_list_legacy() {
    let mut m = stanza(&[("Binary", &["foo, bar"]), ("Other", &["x"])]);
    let bs = take_package_list(&mut m).unwrap();
    assert_eq!(bs.len(), 2);
    assert_eq!(bs[0].name, "foo");
    assert_eq!(bs[1].name, "bar");
    assert_eq!(bs[1].style, "");
    assert_eq!(bs[1].priority, Priority::Unknown);
    assert!(!m.contains_key("Binary"));
    assert!(m.contains_key("Other"));
}

#[test]
fn package_list_full() {
    let mut m = stanza(&[
        ("Binary", &["foo, libfoo1"]),
        ("Package-List", &["foo deb utils optional arch=any", "libfoo1 deb libs optional"]),
    ]);
    let bs = take_package_list(&mut m).unwrap();
    assert_eq!(bs.len(), 2);
    assert_eq!(bs[0].name, "foo");
    assert_eq!(bs[0].style, "deb");
    assert_eq!(bs[0].section, "utils");
    assert_eq!(bs[0].priority, Priority::Optional);
    assert_eq!(bs[0].extras, vec!["arch=any".to_string()]);
    assert!(bs[1].extras.is_empty());
    assert!(!m.contains_key("Package-List"));
    assert!(!m.contains_key("Binary"));
}

#[test]
fn package_list_errors() {
    let mut m = stanza(&[("Binary", &["foo"]), ("Package-List", &["foo deb utils"])]);
    assert_eq!(
        take_package_list(&mut m),
        Err(Error::PackageListLineTooShort("foo deb utils".to_string()))
    );
    let mut m = stanza(&[("Binary", &["foo"]), ("Package-List", &["bar deb utils optional"])]);
    assert_eq!(take_package_list(&mut m), Err(Error::NotInBinary("bar".to_string())));
    let mut m = stanza(&[
        ("Binary", &["foo"]),
        ("Package-List", &["foo deb utils optional", "foo deb utils optional"]),
    ]);
    assert_eq!(take_package_list(&mut m), Err(Error::NotInBinary("foo".to_string())));
    let mut m = stanza(&[("Binary", &["foo, bar"]), ("Package-List", &["foo deb utils optional"])]);
    assert_eq!(take_package_list(&mut m), Err(Error::BinaryNotInPackageList));
    let mut m = stanza(&[("Binary", &["foo"]), ("Package-List", &["foo deb utils sometimes"])]);
    assert_eq!(
        take_package_list(&mut m),
        Err(Error::UnsupportedPriority("sometimes".to_string()))
    );
}

#[test]
fn files_with_checksums() {
    let a = format!("{} 10 foo.dsc", MD5_A);
    let b = format!("{} 2000 foo.tar.gz", MD5_B);
    let sa = format!("{} 10 foo.dsc", sha('a'));
    let mut m = stanza(&[("Files", &[&a, &b]), ("Checksums-Sha256", &[&sa])]);
    let fs = take_files(&mut m).unwrap();
    assert_eq!(fs.len(), 2);
    assert_eq!(fs[0].name, "foo.dsc");
    assert_eq!(fs[0].size, 10);
    assert_eq!(fs[0].md5[0], 0x01);
    assert_eq!(fs[0].sha256, Some([0xaau8; 32]));
    assert_eq!(fs[1].name, "foo.tar.gz");
    assert_eq!(fs[1].size, 2000);
    assert_eq!(fs[1].sha256, None);
    assert!(!m.contains_key("Files"));
    assert!(!m.contains_key("Checksums-Sha256"));
}

#[test]
fn files_errors() {
    let mut m = stanza(&[]);
    assert_eq!(take_files(&mut m), Err(Error::Required("Files".to_string())));
    let a = format!("{} 10 foo.dsc", MD5_A);
    let sb = format!("{} 11 foo.dsc", sha('b'));
    let mut m = stanza(&[("Files", &[&a]), ("Checksums-Sha256", &[&sb])]);
    assert_eq!(take_files(&mut m), Err(Error::UnmatchedSha256));
    let mut m = stanza(&[("Files", &["abc 10"])]);
    assert_eq!(take_files(&mut m), Err(Error::ChecksumLine("abc 10".to_string())));
    let mut m = stanza(&[("Files", &["abc ten foo"])]);
    assert_eq!(take_files(&mut m), Err(Error::BadSize("ten".to_string())));
    let mut m = stanza(&[("Files", &["abc 10 foo"])]);
    assert_eq!(take_files(&mut m), Err(Error::BadChecksum("abc".to_string())));
}

#[test]
fn files_later_line_replaces_earlier() {
    let a = format!("{} 10 foo.dsc", MD5_A);
    let b = format!("{} 10 foo.dsc", MD5_B);
    let mut m = stanza(&[("Files", &[&a, &b])]);
    let fs = take_files(&mut m).unwrap();
    assert_eq!(fs.len(), 1);
    assert_eq!(fs[0].md5[0], 0xfe);
}

#[test]
fn vcs_fields() {
    let mut m = stanza(&[
        ("Vcs-Git", &["https://salsa.debian.org/foo.git"]),
        ("Vcs-Browser", &["https://salsa.debian.org/foo"]),
        ("Debian-Vcs-Svn", &["svn://x"]),
        ("Vcs-Other", &["kept"]),
    ]);
    let v = extract(&mut m);
    assert_eq!(v.len(), 3);
    assert_eq!(v[0].vcs, VcsType::Browser);
    assert_eq!(v[0].tag, VcsTag::Vcs);
    assert_eq!(v[1].vcs, VcsType::Git);
    assert_eq!(v[1].description, "https://salsa.debian.org/foo.git");
    assert_eq!(v[2].tag, VcsTag::Debian);
    assert!(m.contains_key("Vcs-Other"));
    assert!(!m.contains_key("Vcs-Git"));
}

#[test]
fn people() {
    assert_eq!(
        read_people("Jane Doe <jane@example.org>, \"Roe, Richard\" <rr@example.org>").unwrap(),
        vec![
            Identity { name: "Jane Doe".to_string(), email: "jane@example.org".to_string() },
            Identity { name: "Roe, Richard".to_string(), email: "rr@example.org".to_string() },
        ]
    );
    assert_eq!(read_people("").unwrap(), vec![]);
    assert_eq!(read_people("Jane Doe"), Err(Error::BadIdentity("Jane Doe".to_string())));
    assert_eq!(read_people("A <a@b>, B <b"), Err(Error::BadIdentity("B <b".to_string())));
}

#[test]
fn whole_source_stanza() {
    let a = format!("{} 1234 hello_2.10-2.dsc", MD5_A);
    let mut m = stanza(&[
        ("Package", &["hello"]),
        ("Format", &["3.0 (quilt)"]),
        ("Binary", &["hello"]),
        ("Package-List", &["hello deb devel optional arch=any"]),
        ("Files", &[&a]),
        ("Directory", &["pool/main/h/hello"]),
        ("Vcs-Git", &["https://salsa.debian.org/sanvila/hello.git"]),
        ("Standards-Version", &["4.5.0"]),
        ("Build-Depends", &["debhelper-compat (= 12),", " help2man"]),
        ("Uploaders", &["Jane Doe <jane@example.org>"]),
        ("Maintainer", &["Santiago Vila <sanvila@debian.org>"]),
    ]);
    let src = parse_src(&mut m).unwrap();
    assert_eq!(src.format, SourceFormat::Quilt3dot0);
    assert_eq!(src.binaries.len(), 1);
    assert_eq!(src.files.len(), 1);
    assert_eq!(src.files[0].size, 1234);
    assert_eq!(src.directory, "pool/main/h/hello");
    assert_eq!(src.vcs.len(), 1);
    assert_eq!(src.standards_version, "4.5.0");
    assert_eq!(src.build_dep.len(), 2);
    assert_eq!(src.build_dep[0].alternate[0].package, "debhelper-compat");
    assert_eq!(src.build_dep[0].alternate[0].version_constraints[0].operator, ConstraintOperator::Eq);
    assert_eq!(src.build_dep[1].alternate[0].package, "help2man");
    assert!(src.build_dep_arch.is_empty());
    assert_eq!(src.uploaders.len(), 1);
    assert_eq!(src.uploaders[0].email, "jane@example.org");
    let left: Vec<String> = m.fields().into_iter().map(|(k, _)| k).collect();
    let mut left = left;
    left.sort();
    assert_eq!(left, vec!["Maintainer".to_string(), "Package".to_string()]);
}

#[test]
fn source_stanza_errors() {
    let mut m = stanza(&[]);
    assert_eq!(parse_src(&mut m), Err(Error::Required("Format".to_string())));
    let mut m = stanza(&[("Format", &["1.0"]), ("Binary", &["a"]), ("Files", &[])]);
    assert_eq!(parse_src(&mut m), Err(Error::Required("Directory".to_string())));
    let a = format!("{} 1 a.dsc", MD5_A);
    let mut m = stanza(&[
        ("Format", &["1.0"]),
        ("Files", &[&a]),
        ("Directory", &["d"]),
        ("Build-Depends", &["foo (>= 1"]),
    ]);
    assert_eq!(parse_src(&mut m), Err(Error::Dependency("(>= 1".to_string())));
    assert!(read("foo (>= 1").is_err());
}

#[test]
fn source_parts_match_field_readers() {
    let a = format!("{} 1234 hello_2.10-2.dsc", MD5_A);
    let b = format!("{} 99 hello_2.10.orig.tar.gz", MD5_B);
    let fields: Vec<(&str, Vec<String>)> = vec![
        ("Format", vec!["3.0 (quilt)".to_string()]),
        ("Binary", vec!["hello, hello-dbg".to_string()]),
        ("Package-List", vec!["hello-dbg deb debug optional".to_string(), "hello deb devel optional arch=any".to_string()]),
        ("Files", vec![a.clone(), b.clone()]),
        ("Directory", vec!["pool/main/h/hello".to_string()]),
        ("Build-Depends", vec!["debhelper (>= 9) [linux-any], a | b".to_string()]),
        ("Build-Conflicts-Indep", vec!["c <!nocheck>".to_string()]),
    ];
    let make = || {
        let mut m = Stanza::new();
        for (k, ls) in fields.iter() {
            m.insert(k.to_string(), ls.clone());
        }
        m
    };
    let src = parse_src(&mut make()).unwrap();
    assert_eq!(src.binaries, take_package_list(&mut make()).unwrap());
    assert_eq!(src.files, take_files(&mut make()).unwrap());
    assert_eq!(src.build_dep, parse_dep(&fields[5].1).unwrap());
    assert_eq!(src.build_conflict_indep, parse_dep(&fields[6].1).unwrap());
    assert_eq!(src.build_dep_arch, parse_dep(&vec![]).unwrap());
    assert_eq!(src.binaries[0].name, "hello-dbg");
}
