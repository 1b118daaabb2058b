//! Which names an actor may have.

use vstd::prelude::*;
use vstd::string::*;

verus! {

/// The name that was refused.
#[derive(Debug, PartialEq, Eq)]
pub struct InvalidName {
    pub name: String,
}

/// A letter, a digit, an underscore or a hyphen.
pub open spec fn is_name_char(c: char) -> bool {
    ||| 'a' <= c <= 'z'
    ||| 'A' <= c <= 'Z'
    ||| '0' <= c <= '9'
    ||| c == '_'
    ||| c == '-'
}

/// A name is valid when it is not empty and made of name characters only.
pub open spec fn valid_name(name: Seq<char>) -> bool {
    name.len() > 0 && forall|i: int| 0 <= i < name.len() ==> is_name_char(#[trigger] name[i])
}

fn name_char(c: char) -> (r: bool)
    ensures
        r == is_name_char(c),
{
    (c >= 'a' && c <= 'z') || (c >= 'A' && c <= 'Z') || (c >= '0' && c <= '9') || c == '_' || c
        == '-'
}

/// Accepts `name` if it is valid, and hands it back in the error if not.
pub fn validate_name(name: &str) -> (r: Result<(), InvalidName>)
    ensures
        r is Ok <==> valid_name(name@),
        r matches Err(e) ==> e.name@ == name@,
{
    let n = name.unicode_len();
    if n == 0 {
        return Err(InvalidName { name: String::from_str(name) });
    }
    let mut i: usize = 0;
    while i < n
        invariant
            i <= n,
            n == name@.len(),
            forall|k: int| 0 <= k < i ==> is_name_char(#[trigger] name@[k]),
        decreases n - i,
    {
        if !name_char(name.get_char(i)) {
            return Err(InvalidName { name: String::from_str(name) });
        }
        i += 1;
    }
    Ok(())
}

} // verus!
