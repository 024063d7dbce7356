//! Package priorities.

use vstd::prelude::*;
use crate::error::{Error, ErrorView};
use crate::text::str_eq;

verus! {

/// The `Priority` of a package.
#[derive(Clone, Copy, Debug, PartialEq, Eq, Hash)]
pub enum Priority {
    Unknown,
    Required,
    Important,
    Standard,
    Optional,
    Extra,
    Source,
}

/// The priority that the word `s` names, if any.
pub open spec fn priority_named(s: Seq<char>) -> Option<Priority> {
    if s == "required"@ {
        Some(Priority::Required)
    } else if s == "important"@ {
        Some(Priority::Important)
    } else if s == "standard"@ {
        Some(Priority::Standard)
    } else if s == "optional"@ {
        Some(Priority::Optional)
    } else if s == "extra"@ {
        Some(Priority::Extra)
    } else if s == "source"@ {
        Some(Priority::Source)
    } else if s == "unknown"@ {
        Some(Priority::Unknown)
    } else {
        None
    }
}

/// Reads a priority word.
pub fn parse_priority(s: &str) -> (r: Result<Priority, Error>)
    ensures
        match priority_named(s@) {
            Some(p) => r == Ok::<Priority, Error>(p),
            None => r matches Err(e) && e@ == ErrorView::UnsupportedPriority(s@),
        },
{
    if str_eq(s, "required") {
        Ok(Priority::Required)
    } else if str_eq(s, "important") {
        Ok(Priority::Important)
    } else if str_eq(s, "standard") {
        Ok(Priority::Standard)
    } else if str_eq(s, "optional") {
        Ok(Priority::Optional)
    } else if str_eq(s, "extra") {
        Ok(Priority::Extra)
    } else if str_eq(s, "source") {
        Ok(Priority::Source)
    } else if str_eq(s, "unknown") {
        Ok(Priority::Unknown)
    } else {
        Err(Error::UnsupportedPriority(String::from_str(s)))
    }
}

/// The word by which a field names priority `p`: its name in lower case.
pub open spec fn priority_word(p: Priority) -> Seq<char> {
    match p {
        Priority::Unknown => "unknown"@,
        Priority::Required => "required"@,
        Priority::Important => "important"@,
        Priority::Standard => "standard"@,
        Priority::Optional => "optional"@,
        Priority::Extra => "extra"@,
        Priority::Source => "source"@,
    }
}

/// Each priority's word reads as that priority, and a word that reads as a
/// priority is that priority's word: reading is the inverse of naming.
pub proof fn law_priority_words(p: Priority, s: Seq<char>)
    ensures
        priority_named(priority_word(p)) == Some(p),
        priority_named(s) matches Some(q) ==> s == priority_word(q),
{
    reveal_strlit("unknown");
    reveal_strlit("required");
    reveal_strlit("important");
    reveal_strlit("standard");
    reveal_strlit("optional");
    reveal_strlit("extra");
    reveal_strlit("source");
    let w = priority_word(p);
    assert(w.len() > 0 && w[0] == w[0]);
    assert("unknown"@.len() == 7 && "unknown"@[0] == 'u');
    assert("required"@.len() == 8 && "required"@[0] == 'r');
    assert("important"@.len() == 9 && "important"@[0] == 'i');
    assert("standard"@.len() == 8 && "standard"@[0] == 's');
    assert("optional"@.len() == 8 && "optional"@[0] == 'o');
    assert("extra"@.len() == 5 && "extra"@[0] == 'e');
    assert("source"@.len() == 6 && "source"@[0] == 's');
}

} // verus!
