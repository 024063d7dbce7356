//! Debian dependency relations, as found in `Depends`, `Build-Depends` and
//! similar fields: `foo (>= 1.0) [linux-any] <!nocheck> | bar:any, baz`.
//!
//! Blanks (space, tab, CR, LF) may stand before every token; a package
//! name, a version and an architecture name are runs of their own
//! characters; an architecture filter runs from `[` to the next `]`, a
//! stage filter from `<` to the next `>`. The parsers below work on a
//! sequence of characters and a position in it; those for whole tokens
//! return the position after what they read, with the blanks that follow
//! skipped, and `read` takes a text only when they read all of it.

use vstd::prelude::*;
use crate::error::{Error, ErrorView};
use crate::text::{
    char_is_alphanumeric, chars_of, join, join_with, lemma_skip_while, not_char, skip_while, substring, alphanumeric, views,
};

verus! {

/// How a version constraint compares.
#[derive(Clone, Copy, Debug, PartialEq, Eq, Hash)]
pub enum ConstraintOperator {
    Ge,
    Le,
    Gt,
    Lt,
    Eq,
}

/// A version constraint such as `(>= 1.0)`.
#[derive(Clone, Debug, PartialEq, Eq, Hash)]
pub struct Constraint {
    pub version: String,
    pub operator: ConstraintOperator,
}

/// One package, with its optional architecture qualifier and its filters.
#[derive(Clone, Debug, PartialEq, Eq, Hash)]
pub struct SingleDependency {
    pub package: String,
    pub arch: Option<String>,
    pub version_constraints: Vec<Constraint>,
    pub arch_filter: Vec<String>,
    pub stage_filter: Vec<String>,
}

/// A dependency: any one of its alternatives satisfies it.
#[derive(Clone, Debug, PartialEq, Eq, Hash)]
pub struct Dependency {
    pub alternate: Vec<SingleDependency>,
}

/// Why a dependency list was refused.
#[derive(Clone, Debug, PartialEq, Eq)]
pub enum DependencyError {
    /// The text from where the grammar stopped matching.
    TrailingData(String),
}

pub struct ConstraintView {
    pub version: Seq<char>,
    pub operator: ConstraintOperator,
}

pub struct SingleDependencyView {
    pub package: Seq<char>,
    pub arch: Option<Seq<char>>,
    pub version_constraints: Seq<ConstraintView>,
    pub arch_filter: Seq<Seq<char>>,
    pub stage_filter: Seq<Seq<char>>,
}

pub struct DependencyView {
    pub alternate: Seq<SingleDependencyView>,
}

impl View for Constraint {
    type V = ConstraintView;

    open spec fn view(&self) -> ConstraintView {
        ConstraintView { version: self.version@, operator: self.operator }
    }
}

pub open spec fn opt_view(o: Option<String>) -> Option<Seq<char>> {
    match o {
        Some(x) => Some(x@),
        None => None,
    }
}

pub open spec fn constraint_views(v: Seq<Constraint>) -> Seq<ConstraintView> {
    v.map_values(|c: Constraint| c@)
}

impl View for SingleDependency {
    type V = SingleDependencyView;

    open spec fn view(&self) -> SingleDependencyView {
        SingleDependencyView {
            package: self.package@,
            arch: opt_view(self.arch),
            version_constraints: constraint_views(self.version_constraints@),
            arch_filter: views(self.arch_filter@),
            stage_filter: views(self.stage_filter@),
        }
    }
}

pub open spec fn single_views(v: Seq<SingleDependency>) -> Seq<SingleDependencyView> {
    v.map_values(|d: SingleDependency| d@)
}

impl View for Dependency {
    type V = DependencyView;

    open spec fn view(&self) -> DependencyView {
        DependencyView { alternate: single_views(self.alternate@) }
    }
}

pub open spec fn dependency_views(v: Seq<Dependency>) -> Seq<DependencyView> {
    v.map_values(|d: Dependency| d@)
}

impl Constraint {
    pub fn new(operator: ConstraintOperator, version: &str) -> (r: Constraint)
        ensures
            r@ == (ConstraintView { version: version@, operator }),
    {
        Constraint { version: String::from_str(version), operator }
    }
}

// ---------------------------------------------------------------------
// The grammar, over a sequence of characters and a position in it.
// ---------------------------------------------------------------------

/// A blank: space, tab, carriage return or line feed.
pub open spec fn is_blank(c: char) -> bool {
    c == ' ' || c == '\t' || c == '\r' || c == '\n'
}

pub open spec fn blank_pred() -> spec_fn(char) -> bool {
    |c: char| is_blank(c)
}

pub open spec fn package_name_char(c: char) -> bool {
    alphanumeric(c) || c == '.' || c == '+' || c == '-'
}

pub open spec fn version_char(c: char) -> bool {
    alphanumeric(c) || c == '.' || c == '~' || c == '+' || c == ':' || c == '-'
}

pub open spec fn package_pred() -> spec_fn(char) -> bool {
    |c: char| package_name_char(c)
}

pub open spec fn version_pred() -> spec_fn(char) -> bool {
    |c: char| version_char(c)
}

pub open spec fn arch_pred() -> spec_fn(char) -> bool {
    |c: char| alphanumeric(c)
}

/// The position after the blanks at `i`.
pub open spec fn sp(s: Seq<char>, i: int) -> int {
    skip_while(s, i, blank_pred())
}

/// The end of a non-empty run of `p` starting at `i`.
pub open spec fn take1(s: Seq<char>, i: int, p: spec_fn(char) -> bool) -> Option<int> {
    let e = skip_while(s, i, p);
    if e > i {
        Some(e)
    } else {
        None
    }
}

pub open spec fn char_at(s: Seq<char>, i: int, c: char) -> bool {
    0 <= i < s.len() && s[i] == c
}

/// The comparison operator at `i`; longer operators are tried first.
pub open spec fn operator_at(s: Seq<char>, i: int) -> Option<(int, ConstraintOperator)> {
    if char_at(s, i, '>') && char_at(s, i + 1, '=') {
        Some((i + 2, ConstraintOperator::Ge))
    } else if char_at(s, i, '<') && char_at(s, i + 1, '=') {
        Some((i + 2, ConstraintOperator::Le))
    } else if char_at(s, i, '>') && char_at(s, i + 1, '>') {
        Some((i + 2, ConstraintOperator::Gt))
    } else if char_at(s, i, '<') && char_at(s, i + 1, '<') {
        Some((i + 2, ConstraintOperator::Lt))
    } else if char_at(s, i, '>') {
        Some((i + 1, ConstraintOperator::Gt))
    } else if char_at(s, i, '<') {
        Some((i + 1, ConstraintOperator::Lt))
    } else if char_at(s, i, '=') {
        Some((i + 1, ConstraintOperator::Eq))
    } else {
        None
    }
}

/// `( op version )`.
pub open spec fn constraint_at(s: Seq<char>, i: int) -> Option<(int, ConstraintView)> {
    let a = sp(s, i);
    if char_at(s, a, '(') {
        let b = sp(s, a + 1);
        match operator_at(s, b) {
            None => None,
            Some((c, op)) => {
                let d = sp(s, c);
                match take1(s, d, version_pred()) {
                    None => None,
                    Some(e) => {
                        let f = sp(s, e);
                        if char_at(s, f, ')') {
                            Some((sp(s, f + 1), ConstraintView { version: s.subrange(d, e), operator: op }))
                        } else {
                            None
                        }
                    },
                }
            },
        }
    } else {
        None
    }
}

/// `:arch`, with nothing between the colon and the name.
pub open spec fn arch_suffix_at(s: Seq<char>, i: int) -> Option<(int, Seq<char>)> {
    if char_at(s, i, ':') {
        match take1(s, i + 1, arch_pred()) {
            Some(e) => Some((e, s.subrange(i + 1, e))),
            None => None,
        }
    } else {
        None
    }
}

/// `open` ... `close`: what lies between `open` and the first `close` after it.
pub open spec fn delimited_at(s: Seq<char>, i: int, open: char, close: char) -> Option<(int, Seq<char>)> {
    if char_at(s, i, open) {
        let j = skip_while(s, i + 1, not_char(close));
        if j < s.len() {
            Some((j + 1, s.subrange(i + 1, j)))
        } else {
            None
        }
    } else {
        None
    }
}

/// As many version constraints as follow `i`; on none, `i` itself.
pub open spec fn constraints_from(s: Seq<char>, i: int) -> (int, Seq<ConstraintView>)
    decreases s.len() - i,
{
    match constraint_at(s, i) {
        Some((k, c)) => if i < k <= s.len() {
            let (e, r) = constraints_from(s, k);
            (e, seq![c] + r)
        } else {
            (i, seq![])
        },
        None => (i, seq![]),
    }
}

/// As many `open`...`close` filters as follow `i`, blanks allowed before each.
pub open spec fn filters_from(s: Seq<char>, i: int, open: char, close: char) -> (int, Seq<Seq<char>>)
    decreases s.len() - i,
{
    match delimited_at(s, sp(s, i), open, close) {
        Some((k, x)) => if i < k <= s.len() {
            let (e, r) = filters_from(s, k, open, close);
            (e, seq![x] + r)
        } else {
            (i, seq![])
        },
        None => (i, seq![]),
    }
}

/// `package[:arch] (constraint)* [arch filter]* <stage filter>*`.
pub open spec fn single_at(s: Seq<char>, i: int) -> Option<(int, SingleDependencyView)> {
    let a = sp(s, i);
    match take1(s, a, package_pred()) {
        None => None,
        Some(b) => {
            let c = sp(s, b);
            let (d, arch) = match arch_suffix_at(s, c) {
                Some((d, x)) => (d, Some(x)),
                None => (c, None),
            };
            let (f, vcs) = constraints_from(s, sp(s, d));
            let (h, afs) = filters_from(s, sp(s, f), '[', ']');
            let (l, sfs) = filters_from(s, sp(s, h), '<', '>');
            Some((sp(s, l), SingleDependencyView {
                package: s.subrange(a, b),
                arch,
                version_constraints: vcs,
                arch_filter: afs,
                stage_filter: sfs,
            }))
        },
    }
}

/// `| single` repeated, starting right at `i`.
pub open spec fn alternates_from(s: Seq<char>, i: int) -> (int, Seq<SingleDependencyView>)
    decreases s.len() - i,
{
    if char_at(s, i, '|') {
        match single_at(s, i + 1) {
            Some((k, y)) => if i < k <= s.len() {
                let (e, r) = alternates_from(s, k);
                (e, seq![y] + r)
            } else {
                (i, seq![])
            },
            None => (i, seq![]),
        }
    } else {
        (i, seq![])
    }
}

/// `single ( | single )*`.
pub open spec fn dep_at(s: Seq<char>, i: int) -> Option<(int, DependencyView)> {
    let a = sp(s, i);
    match single_at(s, a) {
        None => None,
        Some((b, x)) => {
            let (e, ys) = alternates_from(s, b);
            Some((sp(s, e), DependencyView { alternate: seq![x] + ys }))
        },
    }
}

/// `, dep` repeated.
pub open spec fn deps_from(s: Seq<char>, i: int) -> (int, Seq<DependencyView>)
    decreases s.len() - i,
{
    let j = sp(s, i);
    if char_at(s, j, ',') {
        match dep_at(s, j + 1) {
            Some((k, d)) => if i < k <= s.len() {
                let (e, r) = deps_from(s, k);
                (e, seq![d] + r)
            } else {
                (i, seq![])
            },
            None => (i, seq![]),
        }
    } else {
        (i, seq![])
    }
}

/// A comma-separated (possibly empty) list of dependencies, from the start of `s`.
pub open spec fn parse_all(s: Seq<char>) -> (int, Seq<DependencyView>) {
    let a = sp(s, 0);
    match dep_at(s, a) {
        None => (a, seq![]),
        Some((b, d)) => {
            let (e, ds) = deps_from(s, b);
            (sp(s, e), seq![d] + ds)
        },
    }
}

/// What `read` gives for the text `s`: the list, when the grammar reads all of `s`.
pub open spec fn read_spec(s: Seq<char>) -> Result<Seq<DependencyView>, Seq<char>> {
    let (e, ds) = parse_all(s);
    if e == s.len() {
        Ok(ds)
    } else {
        Err(s.subrange(e, s.len() as int))
    }
}


// ---------------------------------------------------------------------
// Executable parsers, each equal to the grammar above.
// ---------------------------------------------------------------------

/// Characters of an architecture name.
pub fn is_arch_char(val: char) -> (r: bool)
    ensures
        r == alphanumeric(val),
{
    char_is_alphanumeric(val)
}

/// Characters of a package name: alphanumerics, `.`, `+` and `-`.
pub fn is_package_name_char(val: char) -> (r: bool)
    ensures
        r == package_name_char(val),
{
    char_is_alphanumeric(val) || '.' == val || '+' == val || '-' == val
}

/// Characters of a version: alphanumerics, `.`, `~`, `+`, `:` and `-`.
pub fn is_version_char(val: char) -> (r: bool)
    ensures
        r == version_char(val),
{
    char_is_alphanumeric(val) || '.' == val || '~' == val || '+' == val || ':' == val || '-' == val
}

fn skip_blanks(cs: &Vec<char>, i: usize) -> (j: usize)
    requires
        i <= cs.len(),
    ensures
        j == sp(cs@, i as int),
        i <= j <= cs.len(),
{
    let mut j = i;
    while j < cs.len() && (cs[j] == ' ' || cs[j] == '\t' || cs[j] == '\r' || cs[j] == '\n')
        invariant
            i <= j <= cs.len(),
            sp(cs@, j as int) == sp(cs@, i as int),
        decreases cs.len() - j,
    {
        j += 1;
    }
    j
}

fn span_package(cs: &Vec<char>, i: usize) -> (j: usize)
    requires
        i <= cs.len(),
    ensures
        j == skip_while(cs@, i as int, package_pred()),
        i <= j <= cs.len(),
{
    let mut j = i;
    while j < cs.len() && is_package_name_char(cs[j])
        invariant
            i <= j <= cs.len(),
            skip_while(cs@, j as int, package_pred()) == skip_while(cs@, i as int, package_pred()),
        decreases cs.len() - j,
    {
        j += 1;
    }
    j
}

fn span_version(cs: &Vec<char>, i: usize) -> (j: usize)
    requires
        i <= cs.len(),
    ensures
        j == skip_while(cs@, i as int, version_pred()),
        i <= j <= cs.len(),
{
    let mut j = i;
    while j < cs.len() && is_version_char(cs[j])
        invariant
            i <= j <= cs.len(),
            skip_while(cs@, j as int, version_pred()) == skip_while(cs@, i as int, version_pred()),
        decreases cs.len() - j,
    {
        j += 1;
    }
    j
}

fn span_arch(cs: &Vec<char>, i: usize) -> (j: usize)
    requires
        i <= cs.len(),
    ensures
        j == skip_while(cs@, i as int, arch_pred()),
        i <= j <= cs.len(),
{
    let mut j = i;
    while j < cs.len() && is_arch_char(cs[j])
        invariant
            i <= j <= cs.len(),
            skip_while(cs@, j as int, arch_pred()) == skip_while(cs@, i as int, arch_pred()),
        decreases cs.len() - j,
    {
        j += 1;
    }
    j
}

fn span_until(cs: &Vec<char>, i: usize, close: char) -> (j: usize)
    requires
        i <= cs.len(),
    ensures
        j == skip_while(cs@, i as int, not_char(close)),
        i <= j <= cs.len(),
{
    let mut j = i;
    while j < cs.len() && cs[j] != close
        invariant
            i <= j <= cs.len(),
            skip_while(cs@, j as int, not_char(close)) == skip_while(cs@, i as int, not_char(close)),
        decreases cs.len() - j,
    {
        j += 1;
    }
    j
}

fn at(cs: &Vec<char>, i: usize, c: char) -> (r: bool)
    ensures
        r == char_at(cs@, i as int, c),
{
    i < cs.len() && cs[i] == c
}

fn operator_exec(cs: &Vec<char>, i: usize) -> (r: Option<(usize, ConstraintOperator)>)
    requires
        i <= cs.len(),
    ensures
        match r {
            Some((k, op)) => operator_at(cs@, i as int) == Some((k as int, op)) && k <= cs.len(),
            None => operator_at(cs@, i as int) is None,
        },
{
    if i >= cs.len() {
        return None;
    }
    let two = i + 1 < cs.len();
    if cs[i] == '>' && two && cs[i + 1] == '=' {
        Some((i + 2, ConstraintOperator::Ge))
    } else if cs[i] == '<' && two && cs[i + 1] == '=' {
        Some((i + 2, ConstraintOperator::Le))
    } else if cs[i] == '>' && two && cs[i + 1] == '>' {
        Some((i + 2, ConstraintOperator::Gt))
    } else if cs[i] == '<' && two && cs[i + 1] == '<' {
        Some((i + 2, ConstraintOperator::Lt))
    } else if cs[i] == '>' {
        Some((i + 1, ConstraintOperator::Gt))
    } else if cs[i] == '<' {
        Some((i + 1, ConstraintOperator::Lt))
    } else if cs[i] == '=' {
        Some((i + 1, ConstraintOperator::Eq))
    } else {
        None
    }
}

fn constraint_exec(s: &str, cs: &Vec<char>, i: usize) -> (r: Option<(usize, Constraint)>)
    requires
        cs@ == s@,
        i <= cs.len(),
    ensures
        match r {
            Some((k, c)) => constraint_at(cs@, i as int) == Some((k as int, c@)) && k <= cs.len(),
            None => constraint_at(cs@, i as int) is None,
        },
{
    let a = skip_blanks(cs, i);
    if !at(cs, a, '(') {
        return None;
    }
    let b = skip_blanks(cs, a + 1);
    match operator_exec(cs, b) {
        None => None,
        Some((c, op)) => {
            let d = skip_blanks(cs, c);
            let e = span_version(cs, d);
            if e <= d {
                return None;
            }
            let f = skip_blanks(cs, e);
            if !at(cs, f, ')') {
                return None;
            }
            let g = skip_blanks(cs, f + 1);
            let version = substring(s, d, e);
            Some((g, Constraint { version, operator: op }))
        },
    }
}

fn constraints_exec(s: &str, cs: &Vec<char>, i: usize) -> (r: (usize, Vec<Constraint>))
    requires
        cs@ == s@,
        i <= cs.len(),
    ensures
        constraints_from(cs@, i as int) == (r.0 as int, constraint_views(r.1@)),
        i <= r.0 <= cs.len(),
{
    let mut j = i;
    let mut out: Vec<Constraint> = Vec::new();
    loop
        invariant
            cs@ == s@,
            i <= j <= cs.len(),
            constraints_from(cs@, j as int).0 == constraints_from(cs@, i as int).0,
            constraint_views(out@) + constraints_from(cs@, j as int).1 == constraints_from(cs@, i as int).1,
        decreases cs.len() - j,
    {
        match constraint_exec(s, cs, j) {
            Some((k, c)) => {
                if j < k && k <= cs.len() {
                    let ghost old_out = out@;
                    let ghost cv = c@;
                    out.push(c);
                    assert(constraint_views(out@) =~= constraint_views(old_out).push(cv));
                    assert(constraint_views(out@) + constraints_from(cs@, k as int).1 =~= constraint_views(old_out) + constraints_from(cs@, j as int).1);
                    j = k;
                } else {
                    assert(constraint_views(out@) =~= constraint_views(out@) + seq![]);
                    return (j, out);
                }
            },
            None => {
                assert(constraint_views(out@) =~= constraint_views(out@) + seq![]);
                return (j, out);
            },
        }
    }
}

fn delimited_exec(s: &str, cs: &Vec<char>, i: usize, open: char, close: char) -> (r: Option<(usize, String)>)
    requires
        cs@ == s@,
        i <= cs.len(),
    ensures
        match r {
            Some((k, x)) => delimited_at(cs@, i as int, open, close) == Some((k as int, x@)) && k <= cs.len(),
            None => delimited_at(cs@, i as int, open, close) is None,
        },
{
    if !at(cs, i, open) {
        return None;
    }
    let j = span_until(cs, i + 1, close);
    if j < cs.len() {
        Some((j + 1, substring(s, i + 1, j)))
    } else {
        None
    }
}

fn filters_exec(s: &str, cs: &Vec<char>, i: usize, open: char, close: char) -> (r: (usize, Vec<String>))
    requires
        cs@ == s@,
        i <= cs.len(),
    ensures
        filters_from(cs@, i as int, open, close) == (r.0 as int, views(r.1@)),
        i <= r.0 <= cs.len(),
{
    let mut j = i;
    let mut out: Vec<String> = Vec::new();
    loop
        invariant
            cs@ == s@,
            i <= j <= cs.len(),
            filters_from(cs@, j as int, open, close).0 == filters_from(cs@, i as int, open, close).0,
            views(out@) + filters_from(cs@, j as int, open, close).1 == filters_from(cs@, i as int, open, close).1,
        decreases cs.len() - j,
    {
        let a = skip_blanks(cs, j);
        match delimited_exec(s, cs, a, open, close) {
            Some((k, x)) => {
                if j < k && k <= cs.len() {
                    let ghost old_out = out@;
                    let ghost xv = x@;
                    out.push(x);
                    assert(views(out@) =~= views(old_out).push(xv));
                    assert(views(out@) + filters_from(cs@, k as int, open, close).1 =~= views(old_out) + filters_from(cs@, j as int, open, close).1);
                    j = k;
                } else {
                    assert(views(out@) =~= views(out@) + seq![]);
                    return (j, out);
                }
            },
            None => {
                assert(views(out@) =~= views(out@) + seq![]);
                return (j, out);
            },
        }
    }
}

fn single_exec(s: &str, cs: &Vec<char>, i: usize) -> (r: Option<(usize, SingleDependency)>)
    requires
        cs@ == s@,
        i <= cs.len(),
    ensures
        match r {
            Some((k, d)) => single_at(cs@, i as int) == Some((k as int, d@)) && k <= cs.len(),
            None => single_at(cs@, i as int) is None,
        },
{
    let a = skip_blanks(cs, i);
    let b = span_package(cs, a);
    if b <= a {
        return None;
    }
    let package = substring(s, a, b);
    let c = skip_blanks(cs, b);
    let mut d = c;
    let mut arch: Option<String> = None;
    if at(cs, c, ':') {
        let e = span_arch(cs, c + 1);
        if e > c + 1 {
            arch = Some(substring(s, c + 1, e));
            d = e;
        }
    }
    let (f, vcs) = constraints_exec(s, cs, skip_blanks(cs, d));
    let (h, afs) = filters_exec(s, cs, skip_blanks(cs, f), '[', ']');
    let (l, sfs) = filters_exec(s, cs, skip_blanks(cs, h), '<', '>');
    let m = skip_blanks(cs, l);
    let r = SingleDependency {
        package,
        arch,
        version_constraints: vcs,
        arch_filter: afs,
        stage_filter: sfs,
    };
    Some((m, r))
}

fn alternates_exec(s: &str, cs: &Vec<char>, i: usize) -> (r: (usize, Vec<SingleDependency>))
    requires
        cs@ == s@,
        i <= cs.len(),
    ensures
        alternates_from(cs@, i as int) == (r.0 as int, single_views(r.1@)),
        i <= r.0 <= cs.len(),
{
    let mut j = i;
    let mut out: Vec<SingleDependency> = Vec::new();
    loop
        invariant
            cs@ == s@,
            i <= j <= cs.len(),
            alternates_from(cs@, j as int).0 == alternates_from(cs@, i as int).0,
            single_views(out@) + alternates_from(cs@, j as int).1 == alternates_from(cs@, i as int).1,
        decreases cs.len() - j,
    {
        if !at(cs, j, '|') {
            assert(single_views(out@) =~= single_views(out@) + seq![]);
            return (j, out);
        }
        match single_exec(s, cs, j + 1) {
            Some((k, y)) => {
                if j < k && k <= cs.len() {
                    let ghost old_out = out@;
                    let ghost yv = y@;
                    out.push(y);
                    assert(single_views(out@) =~= single_views(old_out).push(yv));
                    assert(single_views(out@) + alternates_from(cs@, k as int).1 =~= single_views(old_out) + alternates_from(cs@, j as int).1);
                    j = k;
                } else {
                    assert(single_views(out@) =~= single_views(out@) + seq![]);
                    return (j, out);
                }
            },
            None => {
                assert(single_views(out@) =~= single_views(out@) + seq![]);
                return (j, out);
            },
        }
    }
}

fn dep_exec(s: &str, cs: &Vec<char>, i: usize) -> (r: Option<(usize, Dependency)>)
    requires
        cs@ == s@,
        i <= cs.len(),
    ensures
        match r {
            Some((k, d)) => dep_at(cs@, i as int) == Some((k as int, d@)) && k <= cs.len(),
            None => dep_at(cs@, i as int) is None,
        },
{
    let a = skip_blanks(cs, i);
    match single_exec(s, cs, a) {
        None => None,
        Some((b, x)) => {
            let (e, ys) = alternates_exec(s, cs, b);
            let ghost xv = x@;
            let ghost ysv = ys@;
            let mut alternate: Vec<SingleDependency> = Vec::new();
            alternate.push(x);
            let mut ys = ys;
            alternate.append(&mut ys);
            assert(single_views(alternate@) =~= seq![xv] + single_views(ysv));
            Some((skip_blanks(cs, e), Dependency { alternate }))
        },
    }
}

fn deps_exec(s: &str, cs: &Vec<char>, i: usize) -> (r: (usize, Vec<Dependency>))
    requires
        cs@ == s@,
        i <= cs.len(),
    ensures
        deps_from(cs@, i as int) == (r.0 as int, dependency_views(r.1@)),
        i <= r.0 <= cs.len(),
{
    let mut j = i;
    let mut out: Vec<Dependency> = Vec::new();
    loop
        invariant
            cs@ == s@,
            i <= j <= cs.len(),
            deps_from(cs@, j as int).0 == deps_from(cs@, i as int).0,
            dependency_views(out@) + deps_from(cs@, j as int).1 == deps_from(cs@, i as int).1,
        decreases cs.len() - j,
    {
        let a = skip_blanks(cs, j);
        if !at(cs, a, ',') {
            assert(dependency_views(out@) =~= dependency_views(out@) + seq![]);
            return (j, out);
        }
        match dep_exec(s, cs, a + 1) {
            Some((k, d)) => {
                if j < k && k <= cs.len() {
                    let ghost old_out = out@;
                    let ghost dv = d@;
                    out.push(d);
                    assert(dependency_views(out@) =~= dependency_views(old_out).push(dv));
                    assert(dependency_views(out@) + deps_from(cs@, k as int).1 =~= dependency_views(old_out) + deps_from(cs@, j as int).1);
                    j = k;
                } else {
                    assert(dependency_views(out@) =~= dependency_views(out@) + seq![]);
                    return (j, out);
                }
            },
            None => {
                assert(dependency_views(out@) =~= dependency_views(out@) + seq![]);
                return (j, out);
            },
        }
    }
}

fn parse_all_exec(s: &str, cs: &Vec<char>) -> (r: (usize, Vec<Dependency>))
    requires
        cs@ == s@,
    ensures
        parse_all(cs@) == (r.0 as int, dependency_views(r.1@)),
        r.0 <= cs.len(),
{
    let a = skip_blanks(cs, 0);
    match dep_exec(s, cs, a) {
        None => {
            let out: Vec<Dependency> = Vec::new();
            assert(dependency_views(out@) =~= seq![]);
            (a, out)
        },
        Some((b, d)) => {
            let (e, ds) = deps_exec(s, cs, b);
            let ghost dv = d@;
            let ghost dsv = ds@;
            let mut out: Vec<Dependency> = Vec::new();
            out.push(d);
            let mut ds = ds;
            out.append(&mut ds);
            assert(dependency_views(out@) =~= seq![dv] + dependency_views(dsv));
            (skip_blanks(cs, e), out)
        },
    }
}

/// Reads a comma-separated list of dependencies. The whole text must
/// match the grammar; where it stops matching, the rest is the error.
pub fn read(val: &str) -> (r: Result<Vec<Dependency>, DependencyError>)
    ensures
        match r {
            Ok(v) => read_spec(val@) == Ok::<Seq<DependencyView>, Seq<char>>(dependency_views(v@)),
            Err(DependencyError::TrailingData(t)) => read_spec(val@) == Err::<Seq<DependencyView>, Seq<char>>(t@),
        },
{
    let cs = chars_of(val);
    let (e, ds) = parse_all_exec(val, &cs);
    if e == cs.len() {
        Ok(ds)
    } else {
        Err(DependencyError::TrailingData(substring(val, e, cs.len())))
    }
}


/// The lines of a field joined into one text, with a space between lines.
pub open spec fn join_lines(ls: Seq<Seq<char>>) -> Seq<char> {
    join_with(ls, seq![' '])
}

/// What `parse_dep` gives for the lines of a field.
pub open spec fn parse_dep_spec(ls: Seq<Seq<char>>) -> Result<Seq<DependencyView>, ErrorView> {
    match read_spec(join_lines(ls)) {
        Ok(d) => Ok(d),
        Err(t) => Err(ErrorView::Dependency(t)),
    }
}

pub open spec fn deps_result_view(r: Result<Vec<Dependency>, Error>) -> Result<Seq<DependencyView>, ErrorView> {
    match r {
        Ok(v) => Ok(dependency_views(v@)),
        Err(e) => Err(e@),
    }
}

/// Reads a dependency field that may span several lines.
pub fn parse_dep(lines: &Vec<String>) -> (r: Result<Vec<Dependency>, Error>)
    ensures
        deps_result_view(r) == parse_dep_spec(views(lines@)),
{
    proof {
        reveal_strlit(" ");
    }
    assert(" "@ =~= seq![' ']);
    let text = join(lines, " ");
    match read(text.as_str()) {
        Ok(d) => Ok(d),
        Err(DependencyError::TrailingData(t)) => Err(Error::Dependency(t)),
    }
}

/// Splits `input` as the grammar's `package_name` does: the name and the rest.
pub fn package_name(input: &str) -> (r: Option<(String, String)>)
    ensures
        match take1(input@, 0, package_pred()) {
            Some(e) => r matches Some((rest, name)) && rest@ == input@.subrange(e, input@.len() as int)
                && name@ == input@.subrange(0, e),
            None => r is None,
        },
{
    let cs = chars_of(input);
    let e = span_package(&cs, 0);
    if e == 0 {
        None
    } else {
        Some((substring(input, e, cs.len()), substring(input, 0, e)))
    }
}

/// Reads one version constraint at the start of `input`: the rest, and the constraint.
pub fn version_constraint(input: &str) -> (r: Option<(String, Constraint)>)
    ensures
        match constraint_at(input@, 0) {
            Some((e, c)) => r matches Some((rest, x)) && rest@ == input@.subrange(e, input@.len() as int) && x@ == c,
            None => r is None,
        },
{
    let cs = chars_of(input);
    match constraint_exec(input, &cs, 0) {
        Some((e, c)) => Some((substring(input, e, cs.len()), c)),
        None => None,
    }
}

/// Reads one package (with its qualifiers) at the start of `input`: the rest, and the package.
pub fn single(input: &str) -> (r: Option<(String, SingleDependency)>)
    ensures
        match single_at(input@, 0) {
            Some((e, d)) => r matches Some((rest, x)) && rest@ == input@.subrange(e, input@.len() as int) && x@ == d,
            None => r is None,
        },
{
    let cs = chars_of(input);
    match single_exec(input, &cs, 0) {
        Some((e, d)) => Some((substring(input, e, cs.len()), d)),
        None => None,
    }
}

/// Reads one dependency (alternatives separated by `|`) at the start of `input`.
pub fn dep(input: &str) -> (r: Option<(String, Dependency)>)
    ensures
        match dep_at(input@, 0) {
            Some((e, d)) => r matches Some((rest, x)) && rest@ == input@.subrange(e, input@.len() as int) && x@ == d,
            None => r is None,
        },
{
    let cs = chars_of(input);
    match dep_exec(input, &cs, 0) {
        Some((e, d)) => Some((substring(input, e, cs.len()), d)),
        None => None,
    }
}

/// Reads as long a comma-separated list of dependencies as `input` begins
/// with: the rest, and the list.
pub fn parse(input: &str) -> (r: (String, Vec<Dependency>))
    ensures
        r.0@ == input@.subrange(parse_all(input@).0, input@.len() as int),
        dependency_views(r.1@) == parse_all(input@).1,
{
    let cs = chars_of(input);
    let (e, ds) = parse_all_exec(input, &cs);
    (substring(input, e, cs.len()), ds)
}


// ---------------------------------------------------------------------
// Locality: every parser reads forward from its position only, so text
// put in front of the input shifts its positions and changes nothing else.
// ---------------------------------------------------------------------

proof fn lemma_shift_skip(p: Seq<char>, s: Seq<char>, i: int, q: spec_fn(char) -> bool)
    requires
        0 <= i <= s.len(),
    ensures
        skip_while(p + s, p.len() + i, q) == p.len() + skip_while(s, i, q),
    decreases s.len() - i,
{
    let t = p + s;
    if i < s.len() {
        assert(t[p.len() + i] == s[i]);
        if q(s[i]) {
            lemma_shift_skip(p, s, i + 1, q);
        }
    }
}

proof fn lemma_shift_char(p: Seq<char>, s: Seq<char>, i: int, c: char)
    requires
        0 <= i,
    ensures
        char_at(p + s, p.len() + i, c) == char_at(s, i, c),
{
    if i < s.len() {
        assert((p + s)[p.len() + i] == s[i]);
    }
}

proof fn lemma_shift_sub(p: Seq<char>, s: Seq<char>, a: int, b: int)
    requires
        0 <= a <= b <= s.len(),
    ensures
        (p + s).subrange(p.len() + a, p.len() + b) == s.subrange(a, b),
{
    assert((p + s).subrange(p.len() + a, p.len() + b) =~= s.subrange(a, b));
}

proof fn lemma_shift_take1(p: Seq<char>, s: Seq<char>, i: int, q: spec_fn(char) -> bool)
    requires
        0 <= i <= s.len(),
    ensures
        match take1(s, i, q) {
            Some(e) => take1(p + s, p.len() + i, q) == Some(p.len() + e) && i < e <= s.len(),
            None => take1(p + s, p.len() + i, q) is None,
        },
{
    lemma_shift_skip(p, s, i, q);
    lemma_skip_while(s, i, q);
}

proof fn lemma_shift_sp(p: Seq<char>, s: Seq<char>, i: int)
    requires
        0 <= i <= s.len(),
    ensures
        sp(p + s, p.len() + i) == p.len() + sp(s, i),
        i <= sp(s, i) <= s.len(),
{
    lemma_shift_skip(p, s, i, blank_pred());
    lemma_skip_while(s, i, blank_pred());
}

proof fn lemma_shift_operator(p: Seq<char>, s: Seq<char>, i: int)
    requires
        0 <= i <= s.len(),
    ensures
        match operator_at(s, i) {
            Some((e, op)) => operator_at(p + s, p.len() + i) == Some((p.len() + e, op)) && i < e <= s.len(),
            None => operator_at(p + s, p.len() + i) is None,
        },
{
    lemma_shift_char(p, s, i, '>');
    lemma_shift_char(p, s, i, '<');
    lemma_shift_char(p, s, i, '=');
    lemma_shift_char(p, s, i + 1, '>');
    lemma_shift_char(p, s, i + 1, '<');
    lemma_shift_char(p, s, i + 1, '=');
    assert(p.len() + (i + 1) == p.len() + i + 1);
}

proof fn lemma_shift_constraint(p: Seq<char>, s: Seq<char>, i: int)
    requires
        0 <= i <= s.len(),
    ensures
        match constraint_at(s, i) {
            Some((e, c)) => constraint_at(p + s, p.len() + i) == Some((p.len() + e, c)) && i < e <= s.len(),
            None => constraint_at(p + s, p.len() + i) is None,
        },
{
    let k = p.len();
    lemma_shift_sp(p, s, i);
    let a = sp(s, i);
    lemma_shift_char(p, s, a, '(');
    if char_at(s, a, '(') {
        lemma_shift_sp(p, s, a + 1);
        let b = sp(s, a + 1);
        assert(k + (a + 1) == k + a + 1);
        lemma_shift_operator(p, s, b);
        if let Some((c, op)) = operator_at(s, b) {
            lemma_shift_sp(p, s, c);
            let d = sp(s, c);
            lemma_shift_take1(p, s, d, version_pred());
            if let Some(e) = take1(s, d, version_pred()) {
                lemma_shift_sp(p, s, e);
                let f = sp(s, e);
                lemma_shift_char(p, s, f, ')');
                if char_at(s, f, ')') {
                    lemma_shift_sp(p, s, f + 1);
                    assert(k + (f + 1) == k + f + 1);
                    lemma_shift_sub(p, s, d, e);
                }
            }
        }
    }
}

proof fn lemma_shift_arch_suffix(p: Seq<char>, s: Seq<char>, i: int)
    requires
        0 <= i <= s.len(),
    ensures
        match arch_suffix_at(s, i) {
            Some((e, x)) => arch_suffix_at(p + s, p.len() + i) == Some((p.len() + e, x)) && i < e <= s.len(),
            None => arch_suffix_at(p + s, p.len() + i) is None,
        },
{
    let k = p.len();
    lemma_shift_char(p, s, i, ':');
    if char_at(s, i, ':') {
        assert(k + (i + 1) == k + i + 1);
        lemma_shift_take1(p, s, i + 1, arch_pred());
        if let Some(e) = take1(s, i + 1, arch_pred()) {
            lemma_shift_sub(p, s, i + 1, e);
        }
    }
}

proof fn lemma_shift_delimited(p: Seq<char>, s: Seq<char>, i: int, open: char, close: char)
    requires
        0 <= i <= s.len(),
    ensures
        match delimited_at(s, i, open, close) {
            Some((e, x)) => delimited_at(p + s, p.len() + i, open, close) == Some((p.len() + e, x)) && i < e <= s.len(),
            None => delimited_at(p + s, p.len() + i, open, close) is None,
        },
{
    let k = p.len();
    lemma_shift_char(p, s, i, open);
    if char_at(s, i, open) {
        assert(k + (i + 1) == k + i + 1);
        lemma_shift_skip(p, s, i + 1, not_char(close));
        lemma_skip_while(s, i + 1, not_char(close));
        let j = skip_while(s, i + 1, not_char(close));
        if j < s.len() {
            lemma_shift_sub(p, s, i + 1, j);
        }
    }
}

proof fn lemma_shift_constraints(p: Seq<char>, s: Seq<char>, i: int)
    requires
        0 <= i <= s.len(),
    ensures
        constraints_from(p + s, p.len() + i) == (p.len() + constraints_from(s, i).0, constraints_from(s, i).1),
        i <= constraints_from(s, i).0 <= s.len(),
    decreases s.len() - i,
{
    lemma_shift_constraint(p, s, i);
    if let Some((e, c)) = constraint_at(s, i) {
        lemma_shift_constraints(p, s, e);
    }
}

proof fn lemma_shift_filters(p: Seq<char>, s: Seq<char>, i: int, open: char, close: char)
    requires
        0 <= i <= s.len(),
    ensures
        filters_from(p + s, p.len() + i, open, close) == (
            p.len() + filters_from(s, i, open, close).0,
            filters_from(s, i, open, close).1,
        ),
        i <= filters_from(s, i, open, close).0 <= s.len(),
    decreases s.len() - i,
{
    lemma_shift_sp(p, s, i);
    lemma_shift_delimited(p, s, sp(s, i), open, close);
    if let Some((e, x)) = delimited_at(s, sp(s, i), open, close) {
        lemma_shift_filters(p, s, e, open, close);
    }
}

proof fn lemma_shift_single(p: Seq<char>, s: Seq<char>, i: int)
    requires
        0 <= i <= s.len(),
    ensures
        match single_at(s, i) {
            Some((e, d)) => single_at(p + s, p.len() + i) == Some((p.len() + e, d)) && i < e <= s.len(),
            None => single_at(p + s, p.len() + i) is None,
        },
{
    let k = p.len();
    lemma_shift_sp(p, s, i);
    let a = sp(s, i);
    lemma_shift_take1(p, s, a, package_pred());
    if let Some(b) = take1(s, a, package_pred()) {
        lemma_shift_sub(p, s, a, b);
        lemma_shift_sp(p, s, b);
        let c = sp(s, b);
        lemma_shift_arch_suffix(p, s, c);
        let d = match arch_suffix_at(s, c) {
            Some((d, x)) => d,
            None => c,
        };
        lemma_shift_sp(p, s, d);
        lemma_shift_constraints(p, s, sp(s, d));
        let f = constraints_from(s, sp(s, d)).0;
        lemma_shift_sp(p, s, f);
        lemma_shift_filters(p, s, sp(s, f), '[', ']');
        let h = filters_from(s, sp(s, f), '[', ']').0;
        lemma_shift_sp(p, s, h);
        lemma_shift_filters(p, s, sp(s, h), '<', '>');
        let l = filters_from(s, sp(s, h), '<', '>').0;
        lemma_shift_sp(p, s, l);
    }
}

proof fn lemma_shift_alternates(p: Seq<char>, s: Seq<char>, i: int)
    requires
        0 <= i <= s.len(),
    ensures
        alternates_from(p + s, p.len() + i) == (p.len() + alternates_from(s, i).0, alternates_from(s, i).1),
        i <= alternates_from(s, i).0 <= s.len(),
    decreases s.len() - i,
{
    let k = p.len();
    lemma_shift_char(p, s, i, '|');
    if char_at(s, i, '|') {
        assert(k + (i + 1) == k + i + 1);
        lemma_shift_single(p, s, i + 1);
        if let Some((e, y)) = single_at(s, i + 1) {
            lemma_shift_alternates(p, s, e);
        }
    }
}

proof fn lemma_shift_dep(p: Seq<char>, s: Seq<char>, i: int)
    requires
        0 <= i <= s.len(),
    ensures
        match dep_at(s, i) {
            Some((e, d)) => dep_at(p + s, p.len() + i) == Some((p.len() + e, d)) && i < e <= s.len(),
            None => dep_at(p + s, p.len() + i) is None,
        },
{
    lemma_shift_sp(p, s, i);
    let a = sp(s, i);
    lemma_shift_single(p, s, a);
    if let Some((b, x)) = single_at(s, a) {
        lemma_shift_alternates(p, s, b);
        lemma_shift_sp(p, s, alternates_from(s, b).0);
    }
}

proof fn lemma_shift_deps(p: Seq<char>, s: Seq<char>, i: int)
    requires
        0 <= i <= s.len(),
    ensures
        deps_from(p + s, p.len() + i) == (p.len() + deps_from(s, i).0, deps_from(s, i).1),
        i <= deps_from(s, i).0 <= s.len(),
    decreases s.len() - i,
{
    let k = p.len();
    lemma_shift_sp(p, s, i);
    let j = sp(s, i);
    lemma_shift_char(p, s, j, ',');
    if char_at(s, j, ',') {
        assert(k + (j + 1) == k + j + 1);
        lemma_shift_dep(p, s, j + 1);
        if let Some((e, d)) = dep_at(s, j + 1) {
            lemma_shift_deps(p, s, e);
        }
    }
}

proof fn lemma_blank_prefix_sp(p: Seq<char>, s: Seq<char>, j: int)
    requires
        0 <= j <= p.len(),
        forall|i: int| 0 <= i < p.len() ==> is_blank(#[trigger] p[i]),
    ensures
        sp(p + s, j) == sp(p + s, p.len() as int),
    decreases p.len() - j,
{
    if j < p.len() {
        assert((p + s)[j] == p[j]);
        lemma_blank_prefix_sp(p, s, j + 1);
    }
}

/// Blanks before a dependency list change nothing: `read` gives the same
/// list, or the same rest where it stops.
pub proof fn law_leading_blanks(p: Seq<char>, s: Seq<char>)
    requires
        forall|i: int| 0 <= i < p.len() ==> is_blank(#[trigger] p[i]),
    ensures
        read_spec(p + s) == read_spec(s),
{
    let t = p + s;
    let k = p.len() as int;
    lemma_blank_prefix_sp(p, s, 0);
    assert(k + 0 == k);
    lemma_shift_sp(p, s, 0);
    let a = sp(s, 0);
    lemma_shift_dep(p, s, a);
    if let Some((b, d)) = dep_at(s, a) {
        lemma_shift_deps(p, s, b);
        let e = deps_from(s, b).0;
        lemma_shift_sp(p, s, e);
        let f = sp(s, e);
        if f < s.len() {
            lemma_shift_sub(p, s, f, s.len() as int);
        }
    } else {
        if a < s.len() {
            lemma_shift_sub(p, s, a, s.len() as int);
        }
    }
}

/// The character classes nest: an architecture character (an alphanumeric)
/// is a package-name character, a package-name character is a version
/// character, and the version characters are exactly the package-name
/// characters together with `~` and `:`. So `~` and `:` are version
/// characters and not package-name characters, and `_` is neither.
pub proof fn law_character_classes_nest(c: char)
    ensures
        alphanumeric(c) ==> package_name_char(c),
        package_name_char(c) ==> version_char(c),
        version_char(c) <==> (package_name_char(c) || c == '~' || c == ':'),
        version_char('~'),
        version_char(':'),
        !package_name_char('~'),
        !package_name_char(':'),
        !version_char('_'),
{
}

/// Every character of `s` passes `p`.
pub open spec fn all_chars(s: Seq<char>, p: spec_fn(char) -> bool) -> bool {
    forall|k: int| 0 <= k < s.len() ==> p(#[trigger] s[k])
}

/// A single dependency as the grammar builds it: a non-empty name of
/// package-name characters, a non-empty architecture of alphanumerics if
/// any, non-empty versions of version characters, and filters that do not
/// hold their closing bracket.
pub open spec fn well_formed_single(d: SingleDependencyView) -> bool {
    &&& d.package.len() > 0 && all_chars(d.package, package_pred())
    &&& (d.arch matches Some(a) ==> a.len() > 0 && all_chars(a, arch_pred()))
    &&& forall|i: int| 0 <= i < d.version_constraints.len() ==> (#[trigger] d.version_constraints[i]).version.len() > 0
        && all_chars(d.version_constraints[i].version, version_pred())
    &&& forall|i: int| 0 <= i < d.arch_filter.len() ==> !(#[trigger] d.arch_filter[i]).contains(']')
    &&& forall|i: int| 0 <= i < d.stage_filter.len() ==> !(#[trigger] d.stage_filter[i]).contains('>')
}

/// A dependency as the grammar builds it: at least one alternative, each well formed.
pub open spec fn well_formed_dependency(d: DependencyView) -> bool {
    &&& d.alternate.len() > 0
    &&& forall|i: int| 0 <= i < d.alternate.len() ==> well_formed_single(#[trigger] d.alternate[i])
}

proof fn lemma_take1(s: Seq<char>, i: int, p: spec_fn(char) -> bool)
    ensures
        take1(s, i, p) matches Some(e) ==> 0 <= i < e <= s.len() && all_chars(s.subrange(i, e), p),
{
    if 0 <= i <= s.len() {
        lemma_skip_while(s, i, p);
        if let Some(e) = take1(s, i, p) {
            assert forall|k: int| 0 <= k < e - i implies p(#[trigger] s.subrange(i, e)[k]) by {
                assert(s.subrange(i, e)[k] == s[i + k]);
            }
        }
    }
}

proof fn lemma_delimited(s: Seq<char>, i: int, open: char, close: char)
    ensures
        delimited_at(s, i, open, close) matches Some((k, x)) ==> !x.contains(close),
{
    if char_at(s, i, open) {
        let j = skip_while(s, i + 1, not_char(close));
        lemma_skip_while(s, i + 1, not_char(close));
        if j < s.len() {
            let x = s.subrange(i + 1, j);
            if x.contains(close) {
                let k = choose|k: int| 0 <= k < x.len() && x[k] == close;
                assert(x[k] == s[i + 1 + k]);
                assert(not_char(close)(s[i + 1 + k]));
            }
        }
    }
}

proof fn lemma_constraints_well_formed(s: Seq<char>, i: int)
    ensures
        forall|j: int| 0 <= j < constraints_from(s, i).1.len() ==> (#[trigger] constraints_from(s, i).1[j]).version.len() > 0
            && all_chars(constraints_from(s, i).1[j].version, version_pred()),
    decreases s.len() - i,
{
    if let Some((k, c)) = constraint_at(s, i) {
        if i < k <= s.len() {
            lemma_constraints_well_formed(s, k);
            let a = sp(s, i);
            let b = sp(s, a + 1);
            let (cc, op) = operator_at(s, b)->Some_0;
            let d = sp(s, cc);
            lemma_take1(s, d, version_pred());
            let r = constraints_from(s, k).1;
            assert forall|j: int| 0 <= j < constraints_from(s, i).1.len() implies (#[trigger] constraints_from(s, i).1[j]).version.len() > 0
                && all_chars(constraints_from(s, i).1[j].version, version_pred()) by {
                if j > 0 {
                    assert(constraints_from(s, i).1[j] == r[j - 1]);
                }
            }
        }
    }
}

proof fn lemma_filters_well_formed(s: Seq<char>, i: int, open: char, close: char)
    ensures
        forall|j: int| 0 <= j < filters_from(s, i, open, close).1.len() ==> !(#[trigger] filters_from(s, i, open, close).1[j]).contains(close),
    decreases s.len() - i,
{
    lemma_delimited(s, sp(s, i), open, close);
    if let Some((k, x)) = delimited_at(s, sp(s, i), open, close) {
        if i < k <= s.len() {
            lemma_filters_well_formed(s, k, open, close);
            let r = filters_from(s, k, open, close).1;
            assert forall|j: int| 0 <= j < filters_from(s, i, open, close).1.len() implies !(#[trigger] filters_from(s, i, open, close).1[j]).contains(close) by {
                if j > 0 {
                    assert(filters_from(s, i, open, close).1[j] == r[j - 1]);
                }
            }
        }
    }
}

proof fn lemma_single_well_formed(s: Seq<char>, i: int)
    ensures
        single_at(s, i) matches Some((k, d)) ==> well_formed_single(d),
{
    let a = sp(s, i);
    lemma_take1(s, a, package_pred());
    if let Some(b) = take1(s, a, package_pred()) {
        let c = sp(s, b);
        if char_at(s, c, ':') {
            lemma_take1(s, c + 1, arch_pred());
        }
        let (d, arch) = match arch_suffix_at(s, c) {
            Some((d, x)) => (d, Some(x)),
            None => (c, None),
        };
        lemma_constraints_well_formed(s, sp(s, d));
        let f = constraints_from(s, sp(s, d)).0;
        lemma_filters_well_formed(s, sp(s, f), '[', ']');
        let h = filters_from(s, sp(s, f), '[', ']').0;
        lemma_filters_well_formed(s, sp(s, h), '<', '>');
    }
}

proof fn lemma_alternates_well_formed(s: Seq<char>, i: int)
    ensures
        forall|j: int| 0 <= j < alternates_from(s, i).1.len() ==> well_formed_single(#[trigger] alternates_from(s, i).1[j]),
    decreases s.len() - i,
{
    if char_at(s, i, '|') {
        lemma_single_well_formed(s, i + 1);
        if let Some((k, y)) = single_at(s, i + 1) {
            if i < k <= s.len() {
                lemma_alternates_well_formed(s, k);
                let r = alternates_from(s, k).1;
                assert forall|j: int| 0 <= j < alternates_from(s, i).1.len() implies well_formed_single(#[trigger] alternates_from(s, i).1[j]) by {
                    if j > 0 {
                        assert(alternates_from(s, i).1[j] == r[j - 1]);
                    }
                }
            }
        }
    }
}

proof fn lemma_dep_well_formed(s: Seq<char>, i: int)
    ensures
        dep_at(s, i) matches Some((k, d)) ==> well_formed_dependency(d),
{
    let a = sp(s, i);
    lemma_single_well_formed(s, a);
    if let Some((b, x)) = single_at(s, a) {
        lemma_alternates_well_formed(s, b);
        let ys = alternates_from(s, b).1;
        let alt = seq![x] + ys;
        assert forall|j: int| 0 <= j < alt.len() implies well_formed_single(#[trigger] alt[j]) by {
            if j > 0 {
                assert(alt[j] == ys[j - 1]);
            }
        }
    }
}

proof fn lemma_deps_well_formed(s: Seq<char>, i: int)
    ensures
        forall|j: int| 0 <= j < deps_from(s, i).1.len() ==> well_formed_dependency(#[trigger] deps_from(s, i).1[j]),
    decreases s.len() - i,
{
    let j0 = sp(s, i);
    if char_at(s, j0, ',') {
        lemma_dep_well_formed(s, j0 + 1);
        if let Some((k, d)) = dep_at(s, j0 + 1) {
            if i < k <= s.len() {
                lemma_deps_well_formed(s, k);
                let r = deps_from(s, k).1;
                assert forall|j: int| 0 <= j < deps_from(s, i).1.len() implies well_formed_dependency(#[trigger] deps_from(s, i).1[j]) by {
                    if j > 0 {
                        assert(deps_from(s, i).1[j] == r[j - 1]);
                    }
                }
            }
        }
    }
}

/// A successful `read` gives only well-formed dependencies: each has at least
/// one alternative, names and architectures are non-empty runs of their own
/// characters, versions are non-empty runs of version characters, and no
/// filter holds its closing bracket.
pub proof fn law_read_well_formed(s: Seq<char>)
    requires
        read_spec(s) is Ok,
    ensures
        forall|i: int| 0 <= i < (read_spec(s)->Ok_0).len() ==> well_formed_dependency(#[trigger] (read_spec(s)->Ok_0)[i]),
{
    let a = sp(s, 0);
    lemma_dep_well_formed(s, a);
    if let Some((b, d)) = dep_at(s, a) {
        lemma_deps_well_formed(s, b);
        let ds = deps_from(s, b).1;
        let all = seq![d] + ds;
        assert forall|i: int| 0 <= i < all.len() implies well_formed_dependency(#[trigger] all[i]) by {
            if i > 0 {
                assert(all[i] == ds[i - 1]);
            }
        }
    }
}

/// A package name as Debian writes it: a non-empty run of letters and digits
/// (in `char::is_alphanumeric`'s sense), `.`, `+` and `-`.
pub open spec fn plain_package_name(n: Seq<char>) -> bool {
    &&& n.len() > 0
    &&& forall|k: int| 0 <= k < n.len() ==> {
        let c = #[trigger] n[k];
        alphanumeric(c) || c == '.' || c == '+' || c == '-'
    }
}

/// A version as Debian writes it: a non-empty run of letters and digits,
/// `.`, `~`, `+`, `:` and `-`.
pub open spec fn plain_version(v: Seq<char>) -> bool {
    &&& v.len() > 0
    &&& forall|k: int| 0 <= k < v.len() ==> {
        let c = #[trigger] v[k];
        alphanumeric(c) || c == '.' || c == '~' || c == '+' || c == ':' || c == '-'
    }
}

/// The dependency on package `n` alone: no architecture, constraint or filter.
pub open spec fn bare_dependency(n: Seq<char>) -> DependencyView {
    DependencyView {
        alternate: seq![SingleDependencyView {
            package: n,
            arch: None,
            version_constraints: seq![],
            arch_filter: seq![],
            stage_filter: seq![],
        }],
    }
}

/// `, n` for each name `n` of `ns`, in order.
pub open spec fn comma_then(ns: Seq<Seq<char>>) -> Seq<char>
    decreases ns.len(),
{
    if ns.len() == 0 {
        seq![]
    } else {
        seq![',', ' '] + ns[0] + comma_then(ns.drop_first())
    }
}

/// The names of `ns` separated by `, `.
pub open spec fn comma_list(ns: Seq<Seq<char>>) -> Seq<char> {
    if ns.len() == 0 {
        seq![]
    } else {
        ns[0] + comma_then(ns.drop_first())
    }
}

proof fn lemma_skip_while_to(s: Seq<char>, i: int, e: int, p: spec_fn(char) -> bool)
    requires
        0 <= i <= e <= s.len(),
        forall|k: int| i <= k < e ==> p(#[trigger] s[k]),
        e == s.len() || !p(s[e]),
    ensures
        skip_while(s, i, p) == e,
    decreases e - i,
{
    if i < e {
        lemma_skip_while_to(s, i + 1, e, p);
    }
}

/// A plain name at `i`, followed by the end or a comma, is read as the bare
/// dependency on it, ending right after the name.
proof fn lemma_bare_dep_at(s: Seq<char>, i: int, n: Seq<char>)
    requires
        0 <= i,
        i + n.len() <= s.len(),
        s.subrange(i, i + n.len()) == n,
        plain_package_name(n),
        i + n.len() == s.len() || s[i + n.len()] == ',',
    ensures
        dep_at(s, i) == Some((i + n.len(), bare_dependency(n))),
{
    let b = i + n.len();
    assert(s[i] == n[0]);
    assert(sp(s, i) == i);
    assert forall|k: int| i <= k < b implies package_pred()(#[trigger] s[k]) by {
        assert(s[k] == n[k - i]);
    }
    lemma_skip_while_to(s, i, b, package_pred());
    assert(take1(s, i, package_pred()) == Some(b));
    assert(sp(s, b) == b);
    assert(arch_suffix_at(s, b) is None);
    assert(constraint_at(s, b) is None);
    assert(constraints_from(s, b) == (b, Seq::<ConstraintView>::empty()));
    assert(delimited_at(s, b, '[', ']') is None);
    assert(filters_from(s, b, '[', ']') == (b, Seq::<Seq<char>>::empty()));
    assert(delimited_at(s, b, '<', '>') is None);
    assert(filters_from(s, b, '<', '>') == (b, Seq::<Seq<char>>::empty()));
    let x = single_at(s, i)->Some_0.1;
    assert(single_at(s, i) == Some((b, bare_dependency(n).alternate[0])));
    assert(alternates_from(s, b) == (b, Seq::<SingleDependencyView>::empty()));
    assert(seq![bare_dependency(n).alternate[0]] + Seq::<SingleDependencyView>::empty() =~= bare_dependency(n).alternate);
}

/// After `p`, the names of `ns` each behind `, ` are read one dependency each.
#[verifier::spinoff_prover]
#[verifier::rlimit(40)]
proof fn lemma_comma_then(p: Seq<char>, ns: Seq<Seq<char>>)
    requires
        forall|k: int| 0 <= k < ns.len() ==> plain_package_name(#[trigger] ns[k]),
    ensures
        deps_from(p + comma_then(ns), p.len() as int) == (
            (p + comma_then(ns)).len() as int,
            ns.map_values(|n: Seq<char>| bare_dependency(n)),
        ),
    decreases ns.len(),
{
    let s = p + comma_then(ns);
    let i = p.len() as int;
    if ns.len() == 0 {
        assert(s =~= p);
        assert(sp(s, i) == i);
        assert(ns.map_values(|n: Seq<char>| bare_dependency(n)) =~= seq![]);
    } else {
        let n = ns[0];
        let t = ns.drop_first();
        assert(plain_package_name(n));
        let q = p + seq![',', ' '] + n;
        assert(s =~= q + comma_then(t));
        assert forall|k: int| 0 <= k < t.len() implies plain_package_name(#[trigger] t[k]) by {
            assert(t[k] == ns[k + 1]);
        }
        lemma_comma_then(q, t);
        assert(s[i] == ',');
        assert(s[i + 1] == ' ');
        assert(sp(s, i) == i);
        let j = i + 2;
        assert(s[j] == n[0]);
        assert(!is_blank(s[j]));
        lemma_skip_while_to(s, i + 1, j, blank_pred());
        assert(s.subrange(j, j + n.len()) =~= n);
        if t.len() > 0 {
            assert(comma_then(t)[0] == ',');
            assert(s[j + n.len()] == ',');
        } else {
            assert(comma_then(t) =~= seq![]);
        }
        lemma_bare_dep_at(s, j, n);
        assert(dep_at(s, i + 1) == Some((q.len() as int, bare_dependency(n))));
        assert(ns.map_values(|n: Seq<char>| bare_dependency(n)) =~= seq![bare_dependency(n)] + t.map_values(
            |n: Seq<char>| bare_dependency(n),
        ));
    }
}

/// Package names separated by commas are read as one dependency per name, in
/// order: `read` of `n1, n2, ..., nk` gives the bare dependencies on
/// `n1`, ..., `nk`, whatever `k` and whatever characters of a package name
/// (`+` and `.` included) the names hold.
pub proof fn law_read_comma_list(ns: Seq<Seq<char>>)
    requires
        ns.len() >= 1,
        forall|k: int| 0 <= k < ns.len() ==> plain_package_name(#[trigger] ns[k]),
    ensures
        read_spec(comma_list(ns)) == Ok::<Seq<DependencyView>, Seq<char>>(ns.map_values(|n: Seq<char>| bare_dependency(n))),
{
    let n = ns[0];
    let t = ns.drop_first();
    let s = comma_list(ns);
    assert(plain_package_name(n));
    assert forall|k: int| 0 <= k < t.len() implies plain_package_name(#[trigger] t[k]) by {
        assert(t[k] == ns[k + 1]);
    }
    lemma_comma_then(n, t);
    assert(s[0] == n[0]);
    assert(sp(s, 0) == 0);
    assert(s.subrange(0, n.len() as int) =~= n);
    if t.len() > 0 {
        assert(comma_then(t)[0] == ',');
        assert(s[n.len() as int] == ',');
    } else {
        assert(comma_then(t) =~= seq![]);
    }
    lemma_bare_dep_at(s, 0, n);
    assert(sp(s, s.len() as int) == s.len());
    assert(ns.map_values(|n: Seq<char>| bare_dependency(n)) =~= seq![bare_dependency(n)] + t.map_values(
        |n: Seq<char>| bare_dependency(n),
    ));
}

/// `n (>= v)`.
pub open spec fn at_least_text(n: Seq<char>, v: Seq<char>) -> Seq<char> {
    n + seq![' ', '(', '>', '=', ' '] + v + seq![')']
}

/// A package name with one `>=` constraint is read as one dependency on that
/// package, with that constraint and no architecture or filter, whatever
/// characters of a name and of a version (`+`, `~`, `:` included) they hold.
pub proof fn law_read_at_least(n: Seq<char>, v: Seq<char>)
    requires
        plain_package_name(n),
        plain_version(v),
    ensures
        read_spec(at_least_text(n, v)) == Ok::<Seq<DependencyView>, Seq<char>>(seq![DependencyView {
            alternate: seq![SingleDependencyView {
                package: n,
                arch: None,
                version_constraints: seq![ConstraintView { version: v, operator: ConstraintOperator::Ge }],
                arch_filter: seq![],
                stage_filter: seq![],
            }],
        }]),
{
    let s = at_least_text(n, v);
    let b = n.len() as int;
    let c = b + 1;
    let d = b + 5;
    let e = d + v.len();
    let len = s.len() as int;
    assert(len == e + 1);
    assert(s[0] == n[0]);
    assert(sp(s, 0) == 0);
    assert forall|k: int| 0 <= k < b implies package_pred()(#[trigger] s[k]) by {
        assert(s[k] == n[k]);
    }
    assert(s[b] == ' ');
    lemma_skip_while_to(s, 0, b, package_pred());
    assert(s[c] == '(');
    lemma_skip_while_to(s, b, c, blank_pred());
    assert(sp(s, c) == c);
    assert(arch_suffix_at(s, c) is None);
    assert(s[c + 1] == '>');
    assert(s[c + 2] == '=');
    assert(sp(s, c + 1) == c + 1);
    assert(operator_at(s, c + 1) == Some((c + 3, ConstraintOperator::Ge)));
    assert(s[c + 3] == ' ');
    assert(s[d] == v[0]);
    lemma_skip_while_to(s, c + 3, d, blank_pred());
    assert forall|k: int| d <= k < e implies version_pred()(#[trigger] s[k]) by {
        assert(s[k] == v[k - d]);
    }
    assert(s[e] == ')');
    lemma_skip_while_to(s, d, e, version_pred());
    assert(sp(s, e) == e);
    assert(s.subrange(d, e) =~= v);
    assert(sp(s, len) == len);
    let con = ConstraintView { version: v, operator: ConstraintOperator::Ge };
    assert(constraint_at(s, c) == Some((len, con)));
    assert(constraint_at(s, len) is None);
    assert(constraints_from(s, len) == (len, Seq::<ConstraintView>::empty()));
    assert(seq![con] + Seq::<ConstraintView>::empty() =~= seq![con]);
    assert(constraints_from(s, c) == (len, seq![con]));
    assert(filters_from(s, len, '[', ']') == (len, Seq::<Seq<char>>::empty()));
    assert(filters_from(s, len, '<', '>') == (len, Seq::<Seq<char>>::empty()));
    assert(s.subrange(0, b) =~= n);
    let single = SingleDependencyView {
        package: n,
        arch: None,
        version_constraints: seq![con],
        arch_filter: seq![],
        stage_filter: seq![],
    };
    assert(single_at(s, 0) == Some((len, single)));
    assert(alternates_from(s, len) == (len, Seq::<SingleDependencyView>::empty()));
    assert(seq![single] + Seq::<SingleDependencyView>::empty() =~= seq![single]);
    assert(dep_at(s, 0) == Some((len, DependencyView { alternate: seq![single] })));
    assert(deps_from(s, len) == (len, Seq::<DependencyView>::empty()));
    assert(seq![DependencyView { alternate: seq![single] }] + Seq::<DependencyView>::empty() =~= seq![DependencyView { alternate: seq![single] }]);
}

} // verus!
