use fapt::deps::{
    dep, is_arch_char, is_package_name_char, is_version_char, package_name, parse, read, single, version_constraint, Constraint, ConstraintOperator,
    Dependency, DependencyError, SingleDependency,
};

#[test]
fn check() {
    assert_eq!((String::new(), "foo".to_string()), package_name("foo").unwrap());
    assert_eq!((" bar".to_string(), "foo".to_string()), package_name("foo bar").unwrap());

    assert_eq!(
        (String::new(), Constraint::new(ConstraintOperator::Gt, "1")),
        version_constraint("(>> 1)").unwrap()
    );

    println!("{:?}", single("foo (>> 1) (<< 9) [linux-any]"));
    println!("{:?}", single("foo"));
    println!("{:?}", dep("foo|baz"));
    println!("{:?}", dep("foo | baz"));
    println!("{:?}", parse("foo, baz"));
}

fn simple(name: &str) -> SingleDependency {
    SingleDependency {
        package: name.to_string(),
        arch: None,
        version_constraints: vec![],
        arch_filter: vec![],
        stage_filter: vec![],
    }
}

#[test]
fn single_with_everything() {
    let (rest, d) = single("foo:amd64 (>= 1.0~rc1) (<< 2:3) [linux-any !hurd-i386] <!nocheck> <stage1>, bar").unwrap();
    assert_eq!(rest, ", bar");
    assert_eq!(d.package, "foo");
    assert_eq!(d.arch, Some("amd64".to_string()));
    assert_eq!(
        d.version_constraints,
        vec![
            Constraint::new(ConstraintOperator::Ge, "1.0~rc1"),
            Constraint::new(ConstraintOperator::Lt, "2:3"),
        ]
    );
    assert_eq!(d.arch_filter, vec!["linux-any !hurd-i386".to_string()]);
    assert_eq!(d.stage_filter, vec!["!nocheck".to_string(), "stage1".to_string()]);
}

#[test]
fn operators_longest_first() {
    let cases = [
        ("(>= 1)", ConstraintOperator::Ge),
        ("(<= 1)", ConstraintOperator::Le),
        ("(>> 1)", ConstraintOperator::Gt),
        ("(<< 1)", ConstraintOperator::Lt),
        ("(> 1)", ConstraintOperator::Gt),
        ("(< 1)", ConstraintOperator::Lt),
        ("(= 1)", ConstraintOperator::Eq),
        ("( =1 )", ConstraintOperator::Eq),
    ];
    for (text, op) in cases.iter() {
        assert_eq!(version_constraint(text).unwrap(), (String::new(), Constraint::new(*op, "1")));
    }
    assert!(version_constraint("(~ 1)").is_none());
    assert!(version_constraint("(>= )").is_none());
    assert!(version_constraint("(>= 1").is_none());
}

#[test]
fn read_lists() {
    assert_eq!(read("").unwrap(), vec![]);
    assert_eq!(read("   ").unwrap(), vec![]);
    assert_eq!(
        read("foo | bar, baz").unwrap(),
        vec![
            Dependency { alternate: vec![simple("foo"), simple("bar")] },
            Dependency { alternate: vec![simple("baz")] },
        ]
    );
    assert_eq!(
        read(" a ,\n b\t|c ").unwrap(),
        vec![
            Dependency { alternate: vec![simple("a")] },
            Dependency { alternate: vec![simple("b"), simple("c")] },
        ]
    );
}

#[test]
fn read_refuses_trailing_text() {
    assert_eq!(read("foo,"), Err(DependencyError::TrailingData(",".to_string())));
    assert_eq!(read("foo |"), Err(DependencyError::TrailingData("|".to_string())));
    assert_eq!(read("foo (>= 1"), Err(DependencyError::TrailingData("(>= 1".to_string())));
    assert_eq!(read("foo [linux"), Err(DependencyError::TrailingData("[linux".to_string())));
    assert_eq!(read(", foo"), Err(DependencyError::TrailingData(", foo".to_string())));
}

#[test]
fn arch_suffix_needs_name_after_colon() {
    assert_eq!(read("foo: any"), Err(DependencyError::TrailingData(": any".to_string())));
    let (rest, d) = single("foo :any").unwrap();
    assert_eq!(rest, "");
    assert_eq!(d.arch, Some("any".to_string()));
}

#[test]
fn parse_stops_where_grammar_stops() {
    let (rest, deps) = parse("a, b; c");
    assert_eq!(rest, "; c");
    assert_eq!(deps.len(), 2);
    let (rest, deps) = parse("");
    assert_eq!(rest, "");
    assert!(deps.is_empty());
}

#[test]
fn spacing_around_bars_and_commas() {
    assert_eq!(dep("foo|baz"), dep("foo | baz"));
    assert_eq!(dep("foo|baz").unwrap().1, Dependency { alternate: vec![simple("foo"), simple("baz")] });
    assert_eq!(parse("foo, baz").1, parse("foo,baz").1);
    assert_eq!(read(" foo").unwrap(), read("foo").unwrap());
}

#[test]
fn character_classes() {
    for c in ['a', 'Z', '7', '京', '.', '+', '-', '~', ':', '_', ' ', '('] {
        if is_arch_char(c) {
            assert!(is_package_name_char(c));
        }
        if is_package_name_char(c) {
            assert!(is_version_char(c));
        }
        assert_eq!(is_version_char(c), is_package_name_char(c) || c == '~' || c == ':');
    }
    assert!(is_version_char('~') && is_version_char(':'));
    assert!(!is_package_name_char('~') && !is_package_name_char(':') && !is_version_char('_'));
}

#[test]
fn read_gives_well_formed_dependencies() {
    let ds = read("foo:amd64 (>= 1:2.0~rc1) [linux-any] <!nocheck> | bar, baz").unwrap();
    assert_eq!(ds.len(), 2);
    for d in ds.iter() {
        assert!(!d.alternate.is_empty());
        for s in d.alternate.iter() {
            assert!(!s.package.is_empty() && s.package.chars().all(is_package_name_char));
            if let Some(a) = &s.arch {
                assert!(!a.is_empty() && a.chars().all(is_arch_char));
            }
            for c in s.version_constraints.iter() {
                assert!(!c.version.is_empty() && c.version.chars().all(is_version_char));
            }
            assert!(s.arch_filter.iter().all(|f| !f.contains(']')));
            assert!(s.stage_filter.iter().all(|f| !f.contains('>')));
        }
    }
    assert_eq!(ds[0].alternate[0].version_constraints[0].version, "1:2.0~rc1");
}
