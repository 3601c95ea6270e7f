//! Unix-style paths held as strings, and the `join` operation on them.
use vstd::prelude::*;
use vstd::string::*;

verus! {

/// A path is absolute when it starts at the root.
pub open spec fn is_absolute(p: Seq<char>) -> bool {
    p.len() > 0 && p[0] == '/'
}

/// Joining `part` onto `base`: an absolute `part` replaces `base`; otherwise a
/// separator is inserted unless `base` is empty or already ends with one.
pub open spec fn path_join(base: Seq<char>, part: Seq<char>) -> Seq<char> {
    if is_absolute(part) {
        part
    } else if base.len() == 0 || base.last() == '/' {
        base + part
    } else {
        base + seq!['/'] + part
    }
}

/// Join `part` onto `base` as a path.
pub fn join(base: &str, part: &str) -> (r: String)
    ensures
        r@ == path_join(base@, part@),
{
    let plen = part.unicode_len();
    if plen > 0 && part.get_char(0) == '/' {
        return String::from_str(part);
    }
    let blen = base.unicode_len();
    let mut r = String::from_str(base);
    if blen > 0 && base.get_char(blen - 1) != '/' {
        r.append("/");
        proof {
            reveal_strlit("/");
        }
    }
    r.append(part);
    r
}

/// The separator that joining a relative part onto `base` inserts.
pub open spec fn join_separator(base: Seq<char>) -> Seq<char> {
    if base.len() == 0 || base.last() == '/' {
        Seq::empty()
    } else {
        seq!['/']
    }
}

/// Joining a relative part keeps the base and appends the part after at most
/// one inserted separator.
pub proof fn lemma_join_relative(base: Seq<char>, part: Seq<char>)
    requires
        !is_absolute(part),
    ensures
        path_join(base, part) == base + join_separator(base) + part,
{
    if base.len() == 0 || base.last() == '/' {
        assert(base + Seq::<char>::empty() =~= base);
    }
}

/// Distinct relative parts joined onto the same base give distinct paths.
pub proof fn lemma_join_injective(base: Seq<char>, p1: Seq<char>, p2: Seq<char>)
    requires
        !is_absolute(p1),
        !is_absolute(p2),
        path_join(base, p1) == path_join(base, p2),
    ensures
        p1 == p2,
{
    lemma_join_relative(base, p1);
    lemma_join_relative(base, p2);
    let pre = base + join_separator(base);
    let j = path_join(base, p1);
    assert(j.subrange(pre.len() as int, j.len() as int) =~= p1);
    assert(j.subrange(pre.len() as int, j.len() as int) =~= p2);
}

/// A relative part joined onto a base ends the result.
pub proof fn lemma_join_ends_with(base: Seq<char>, part: Seq<char>)
    requires
        !is_absolute(part),
        part.len() > 0,
    ensures
        path_join(base, part).len() > 0,
        path_join(base, part).last() == part.last(),
{
    lemma_join_relative(base, part);
}

} // verus!
