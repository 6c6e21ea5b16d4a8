//! Settings that refer to a variable of the environment.
use crate::table::Table;
use crate::text::starts_with;
use vstd::prelude::*;

verus! {

/// The variable that a text refers to: `${NAME}` refers to `NAME`, and any other
/// text to none.
pub open spec fn variable_of(s: Seq<char>) -> Option<Seq<char>> {
    if s.len() >= 4 && "${"@.is_prefix_of(s) && s.last() == '}' {
        Some(s.subrange(2, s.len() - 1))
    } else {
        None
    }
}

/// A text with the variable that it refers to put in its place. A variable that
/// is not set leaves the text as it is.
pub open spec fn resolved(s: Seq<char>, env: Map<Seq<char>, String>) -> Seq<char> {
    match variable_of(s) {
        Some(name) if env.contains_key(name) => env[name]@,
        _ => s,
    }
}

/// A text with the variable that it refers to put in its place.
pub fn resolve_env(s: &str, env: &Table<String>) -> (r: String)
    requires
        env.wf(),
    ensures
        r@ == resolved(s@, env@),
{
    proof {
        reveal_strlit("${");
    }
    let n: usize = s.unicode_len();
    if n >= 4 && starts_with(s, "${") && s.get_char(n - 1) == '}' {
        let name = s.substring_char(2, n - 1);
        match env.get(name) {
            Some(value) => value.clone(),
            None => s.to_owned(),
        }
    } else {
        s.to_owned()
    }
}

} // verus!
