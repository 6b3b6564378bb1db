//! Paths, held as text, joined the way `Path::join` does on Unix.
use vstd::prelude::*;
use vstd::string::*;
use crate::text::concat;

verus! {

/// `base` joined with `rest`: an absolute `rest` replaces `base`; otherwise a `/` is put
/// between them unless `base` is empty or already ends with one.
pub open spec fn join_path(base: Seq<char>, rest: Seq<char>) -> Seq<char> {
    if rest.len() > 0 && rest[0] == '/' {
        rest
    } else if base.len() == 0 || base.last() == '/' {
        base + rest
    } else {
        base + seq!['/'] + rest
    }
}

/// `Path::new(base).join(rest)`, as text.
pub fn join(base: &str, rest: &str) -> (r: String)
    ensures
        r@ == join_path(base@, rest@),
{
    let rn = rest.unicode_len();
    if rn > 0 && rest.get_char(0) == '/' {
        return String::from_str(rest);
    }
    let bn = base.unicode_len();
    if bn == 0 || base.get_char(bn - 1) == '/' {
        concat(base, rest)
    } else {
        let mut r = String::from_str(base);
        proof { reveal_strlit("/"); }
        r.append("/");
        r.append(rest);
        r
    }
}

} // verus!
