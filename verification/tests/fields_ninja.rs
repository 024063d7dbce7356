use fapt::error::Error;
use fapt::fields::{set_field, SourceRecord, HANDLED_FIELDS};
use fapt::ninja::{escape_colons_str, ninja_binary_lines, ninja_lines, ninja_source_lines, one_line, subdir};
use fapt::rfc822::{export_fields, Stanza};

fn stanza(fields: &[(&str, &[&str])]) -> Stanza {
    let mut m = Stanza::new();
    for (k, ls) in fields {
        m.insert(k.to_string(), ls.iter().map(|l| l.to_string()).collect());
    }
    m
}

#[test]
fn record_fields() {
    let mut r = SourceRecord::new();
    assert_eq!(set_field("Maintainer", "Jane <j@x>", &mut r), Ok(()));
    assert_eq!(r.get("maintainer").unwrap(), "Jane <j@x>");
    assert_eq!(set_field("Package_Revision", "3", &mut r), Ok(()));
    assert_eq!(set_field("Package-Revision", "4", &mut r), Ok(()));
    assert_eq!(r.get("package_revision").unwrap(), "4");
    assert_eq!(set_field("Homepage", "  ", &mut r), Ok(()));
    assert!(r.get("homepage").is_none());
    assert_eq!(set_field("MSDOS-Filename", "X.DEB", &mut r), Ok(()));
    assert_eq!(r.get("msdos_filename").unwrap(), "X.DEB");
    assert_eq!(
        set_field("Frobnicate", "x", &mut r),
        Err(Error::UnrecognisedField("Frobnicate".to_string()))
    );
    for handled in HANDLED_FIELDS.iter() {
        assert!(set_field(handled, "x", &mut r).is_err());
    }
}

#[test]
fn subdirs() {
    assert_eq!(subdir("libfoo"), "libf");
    assert_eq!(subdir("hello"), "h");
    assert_eq!(subdir("l"), "l");
}

#[test]
fn lines() {
    assert_eq!(one_line(&vec!["a".to_string()]), Ok("a".to_string()));
    assert_eq!(
        one_line(&vec!["a".to_string(), "b".to_string()]),
        Err(Error::NotExactlyOneLine(vec!["a".to_string(), "b".to_string()]))
    );
    assert_eq!(escape_colons_str("1:2.3-4"), "1$:2.3-4");
    assert_eq!(escape_colons_str("::"), "$:$:");
}

#[test]
fn source_statement() {
    let m = stanza(&[
        ("Package", &["libfoo"]),
        ("Version", &["1:2.0-1"]),
        ("Directory", &["pool/main/libf/libfoo"]),
        (
            "Files",
            &[
                "0123 1000 libfoo_2.0-1.dsc",
                "4567 262144000 libfoo_2.0.orig.tar.gz",
                "89ab 1 libfoo_2.0-1.debian.tar.xz",
            ],
        ),
    ]);
    let out = ninja_source_lines(&m).unwrap();
    assert_eq!(
        out,
        vec![
            "build $dest/libf/libfoo_1$:2.0-1$suffix: process-source | $script",
            "  description = PS libfoo 1$:2.0-1",
            "  pkg = libfoo",
            "  version = 1$:2.0-1",
            "  url = $mirror/pool/main/libf/libfoo/libfoo_2.0-1.dsc",
            "  prefix = libf/libfoo_1$:2.0-1",
            "  size = 262145001",
            "  pool = massive",
        ]
    );
    assert_eq!(ninja_lines(&m).unwrap(), out);
}

#[test]
fn binary_statement() {
    let m = stanza(&[
        ("Package", &["hello"]),
        ("Source", &["hello-src (1.0)"]),
        ("Architecture", &["amd64"]),
        ("Version", &["2.10-2"]),
        ("Filename", &["pool/main/h/hello/hello_2.10-2_amd64.deb"]),
        ("Size", &["104857601"]),
    ]);
    let out = ninja_binary_lines(&m).unwrap();
    assert_eq!(
        out,
        vec![
            "build $dest/h/hello-src/hello_2.10-2_amd64$suffix: process-binary | $script",
            "  description = PB hello-src hello 2.10-2 amd64",
            "  source = hello-src",
            "  pkg = hello",
            "  version = 2.10-2",
            "  arch = amd64",
            "  url = $mirror/pool/main/h/hello/hello_2.10-2_amd64.deb",
            "  prefix = h/hello-src/hello_2.10-2_amd64",
            "  pool = big",
        ]
    );
    assert_eq!(ninja_lines(&m).unwrap(), out);
    let m = stanza(&[
        ("Package", &["hello"]),
        ("Architecture", &["all"]),
        ("Version", &["1"]),
        ("Filename", &["f"]),
        ("Size", &["12"]),
    ]);
    let out = ninja_binary_lines(&m).unwrap();
    assert_eq!(out.len(), 8);
    assert_eq!(out[2], "  source = hello");
    let m = stanza(&[
        ("Package", &["hello"]),
        ("Architecture", &["all"]),
        ("Version", &["1"]),
        ("Filename", &["f"]),
        ("Size", &["big"]),
    ]);
    assert_eq!(ninja_binary_lines(&m), Err(Error::BadSize("big".to_string())));
    let m = stanza(&[("Package", &["a", "b"])]);
    assert_eq!(
        ninja_binary_lines(&m),
        Err(Error::NotExactlyOneLine(vec!["a".to_string(), "b".to_string()]))
    );
}

#[test]
fn export_joins_lines() {
    let m = stanza(&[("Description", &["short", " long"]), ("Package", &["p"])]);
    let mut out = export_fields(&m);
    out.sort();
    assert_eq!(
        out,
        vec![
            ("Description".to_string(), "short\n long".to_string()),
            ("Package".to_string(), "p".to_string()),
        ]
    );
}
