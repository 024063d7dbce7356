//! Lists of people (`Uploaders`): `Name <address>, "Last, First" <address>`.

use vstd::prelude::*;
use crate::error::{Error, ErrorView};
use crate::text::{
    char_is_whitespace, chars_of, lemma_skip_while, not_char, skip_while, substring, trim, trim_str,
    whitespace,
};

verus! {

/// A person: a name and a mail address.
#[derive(Clone, Debug, PartialEq, Eq, Hash)]
pub struct Identity {
    pub name: String,
    pub email: String,
}

impl View for Identity {
    type V = (Seq<char>, Seq<char>);

    open spec fn view(&self) -> (Seq<char>, Seq<char>) {
        (self.name@, self.email@)
    }
}

pub open spec fn identity_views(v: Seq<Identity>) -> Seq<(Seq<char>, Seq<char>)> {
    v.map_values(|x: Identity| x@)
}

/// Commas and whitespace separate the people of a list.
pub open spec fn separator_pred() -> spec_fn(char) -> bool {
    |c: char| c == ',' || whitespace(c)
}

/// `t` without one pair of surrounding double quotes.
pub open spec fn unquote(t: Seq<char>) -> Seq<char> {
    if t.len() >= 2 && t[0] == '"' && t.last() == '"' {
        t.subrange(1, t.len() - 1)
    } else {
        t
    }
}

/// The people listed in `s` from position `i` on: each is a name, then an
/// address between `<` and `>`; the name is trimmed and unquoted. A person
/// without a complete `<...>` is an error, carrying the rest of the text.
pub open spec fn people_from(s: Seq<char>, i: int) -> Result<Seq<(Seq<char>, Seq<char>)>, Seq<char>>
    decreases s.len() - i,
{
    if 0 <= i <= s.len() {
        let a = skip_while(s, i, separator_pred());
        let l = skip_while(s, a, not_char('<'));
        let g = skip_while(s, l + 1, not_char('>'));
        proof {
            lemma_skip_while(s, i, separator_pred());
            lemma_skip_while(s, a, not_char('<'));
            if l + 1 <= s.len() {
                lemma_skip_while(s, l + 1, not_char('>'));
            }
        }
        if a >= s.len() {
            Ok(seq![])
        } else if l >= s.len() || g >= s.len() {
            Err(s.subrange(a, s.len() as int))
        } else {
            let person = (unquote(trim(s.subrange(a, l))), s.subrange(l + 1, g));
            match people_from(s, g + 1) {
                Ok(rest) => Ok(seq![person] + rest),
                Err(e) => Err(e),
            }
        }
    } else {
        Ok(seq![])
    }
}

fn unquote_exec(t: String) -> (r: String)
    ensures
        r@ == unquote(t@),
{
    let cs = chars_of(t.as_str());
    if cs.len() >= 2 && cs[0] == '"' && cs[cs.len() - 1] == '"' {
        substring(t.as_str(), 1, cs.len() - 1)
    } else {
        t
    }
}

/// Reads a list of people.
pub fn read(line: &str) -> (r: Result<Vec<Identity>, Error>)
    ensures
        match people_from(line@, 0) {
            Ok(ps) => r matches Ok(v) && identity_views(v@) == ps,
            Err(rest) => r matches Err(e) && e@ == ErrorView::BadIdentity(rest),
        },
{
    let cs = chars_of(line);
    let mut out: Vec<Identity> = Vec::new();
    let mut i: usize = 0;
    assert(identity_views(out@) =~= seq![]);
    loop
        invariant
            cs@ == line@,
            i <= cs.len(),
            match people_from(line@, 0) {
                Ok(ps) => people_from(line@, i as int) matches Ok(rest) && ps == identity_views(out@) + rest,
                Err(e) => people_from(line@, i as int) == Err::<Seq<(Seq<char>, Seq<char>)>, Seq<char>>(e),
            },
        decreases cs.len() - i,
    {
        let mut a = i;
        while a < cs.len() && (cs[a] == ',' || char_is_whitespace(cs[a]))
            invariant
                i <= a <= cs.len(),
                skip_while(cs@, a as int, separator_pred()) == skip_while(cs@, i as int, separator_pred()),
            decreases cs.len() - a,
        {
            a += 1;
        }
        if a >= cs.len() {
            assert(identity_views(out@) =~= identity_views(out@) + seq![]);
            return Ok(out);
        }
        let mut l = a;
        while l < cs.len() && cs[l] != '<'
            invariant
                a <= l <= cs.len(),
                skip_while(cs@, l as int, not_char('<')) == skip_while(cs@, a as int, not_char('<')),
            decreases cs.len() - l,
        {
            l += 1;
        }
        if l >= cs.len() {
            return Err(Error::BadIdentity(substring(line, a, cs.len())));
        }
        let mut g = l + 1;
        while g < cs.len() && cs[g] != '>'
            invariant
                l + 1 <= g <= cs.len(),
                skip_while(cs@, g as int, not_char('>')) == skip_while(cs@, l + 1, not_char('>')),
            decreases cs.len() - g,
        {
            g += 1;
        }
        if g >= cs.len() {
            return Err(Error::BadIdentity(substring(line, a, cs.len())));
        }
        let raw = substring(line, a, l);
        let name = unquote_exec(trim_str(raw.as_str()));
        let email = substring(line, l + 1, g);
        let ghost p = (name@, email@);
        let ghost old_out = identity_views(out@);
        out.push(Identity { name, email });
        assert(identity_views(out@) =~= old_out.push(p));
        proof {
            match people_from(line@, 0) {
                Ok(ps) => {
                    assert(identity_views(out@) + people_from(line@, g + 1)->Ok_0 =~= old_out + people_from(line@, i as int)->Ok_0);
                },
                Err(e) => {},
            }
        }
        i = g + 1;
    }
}

} // verus!
