//! The to-do listing: canned entries, handed out only to requests whose
//! authorization header is long enough.

use vstd::prelude::*;
use vstd::string::StrSliceExecFns;
use vstd::string::StringExecFns;

verus! {

/// A to-do entry.
pub struct Todo {
    pub id: u32,
    pub title: String,
    pub completed: bool,
}

/// The to-do listing for a request: the two canned entries when the
/// authorization header is present and longer than 30 characters, and
/// nothing (a forbidden answer) otherwise.
pub fn todo_list(authorization: &Option<String>) -> (r: Option<Vec<Todo>>)
    ensures
        (r is Some <==> (authorization matches Some(a) && a@.len() > 30)),
        r matches Some(v) ==> v@.len() == 2 && v@[0].id == 1 && v@[0].title@ == "Learn Rust"@ && !v@[0].completed
            && v@[1].id == 2 && v@[1].title@ == "Learn Actix"@ && !v@[1].completed,
{
    match authorization {
        Some(auth) => {
            if auth.as_str().unicode_len() > 30 {
                let mut v: Vec<Todo> = Vec::new();
                v.push(Todo { id: 1, title: String::from_str("Learn Rust"), completed: false });
                v.push(Todo { id: 2, title: String::from_str("Learn Actix"), completed: false });
                Some(v)
            } else {
                None
            }
        },
        None => None,
    }
}

} // verus!
