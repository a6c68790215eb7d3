use vstd::prelude::*;
use crate::error::PapError;
use crate::text::starts_with;

verus! {

/// Number of characters in a full identity.
pub const IDENTITY_LEN: usize = 16;

/// The characters of each name.
pub open spec fn names_view(names: Seq<String>) -> Seq<Seq<char>> {
    names.map_values(|s: String| s@)
}

/// The names that start with `p`, in their order.
pub open spec fn matching(names: Seq<Seq<char>>, p: Seq<char>) -> Seq<Seq<char>>
    decreases names.len(),
{
    if names.len() == 0 {
        Seq::empty()
    } else {
        let rest = matching(names.drop_last(), p);
        if p.is_prefix_of(names.last()) {
            rest.push(names.last())
        } else {
            rest
        }
    }
}

/// Picks the stored identity that `id` designates, among the identities
/// (directory names) in `names`.
///
/// An `id` of sixteen characters or more is a full identity and is taken as it
/// is. A shorter one is a prefix: it must start exactly one of `names`; with
/// none the result is `NotFound`, with several it is `Ambiguous`, listing them.
pub fn resolve_prefix(names: &Vec<String>, id: &str) -> (r: Result<String, PapError>)
    ensures
        id@.len() >= IDENTITY_LEN ==> (r matches Ok(s) && s@ == id@),
        id@.len() < IDENTITY_LEN && matching(names_view(names@), id@).len() == 0 ==> (
            r matches Err(PapError::NotFound(s)) && s@ == id@),
        id@.len() < IDENTITY_LEN && matching(names_view(names@), id@).len() == 1 ==> (
            r matches Ok(s) && s@ == matching(names_view(names@), id@)[0]),
        id@.len() < IDENTITY_LEN && matching(names_view(names@), id@).len() > 1 ==> (
            r matches Err(PapError::Ambiguous(c)) && names_view(c@) == matching(names_view(names@), id@)),
{
    if id.unicode_len() >= IDENTITY_LEN {
        return Ok(id.to_owned());
    }
    let mut candidates: Vec<String> = Vec::new();
    let mut i: usize = 0;
    while i < names.len()
        invariant
            i <= names@.len(),
            names_view(candidates@) == matching(names_view(names@.subrange(0, i as int)), id@),
        decreases names@.len() - i,
    {
        let ghost before = candidates@;
        assert(names_view(names@.subrange(0, i + 1)).drop_last() =~= names_view(names@.subrange(0, i as int)));
        if starts_with(names[i].as_str(), id) {
            candidates.push(names[i].clone());
            assert(names_view(candidates@) =~= names_view(before).push(names[i as int]@));
        }
        i = i + 1;
    }
    assert(names@.subrange(0, names@.len() as int) == names@);
    if candidates.len() == 0 {
        Err(PapError::NotFound(id.to_owned()))
    } else if candidates.len() == 1 {
        let only = candidates.remove(0);
        Ok(only)
    } else {
        Err(PapError::Ambiguous(candidates))
    }
}

} // verus!
