//! The identity resolver: an ordered-candidate lookup over the values of
//! environment variables.
//!
//! Environment variable names differ between POSIX and Windows-family
//! systems for the same concept, so one concept is resolved from an
//! ordered list of candidate readings; the caller reads the variables
//! and hands their values in.

use vstd::prelude::*;

use crate::error::SystemError;

verus! {

/// The view of the value of the first candidate that is set, or `None`
/// when none is.
pub open spec fn first_set_value(cands: Seq<Option<String>>) -> Option<Seq<char>>
    decreases cands.len(),
{
    if cands.len() == 0 {
        None
    } else {
        match cands[0] {
            Some(v) => Some(v@),
            None => first_set_value(cands.drop_first()),
        }
    }
}

proof fn lemma_first_set_value_skip(cands: Seq<Option<String>>, i: int)
    requires
        0 <= i <= cands.len(),
        forall|j: int| 0 <= j < i ==> cands[j] is None,
    ensures
        first_set_value(cands) == first_set_value(cands.subrange(i, cands.len() as int)),
    decreases i,
{
    if i > 0 {
        lemma_first_set_value_skip(cands, i - 1);
        let tail = cands.subrange(i - 1, cands.len() as int);
        assert(tail[0] == cands[i - 1]);
        assert(tail.drop_first() =~= cands.subrange(i, cands.len() as int));
    } else {
        assert(cands.subrange(0, cands.len() as int) =~= cands);
    }
}

/// The first of two candidate readings that is set, by view.
pub open spec fn pick2(a: Option<String>, b: Option<String>) -> Option<Seq<char>> {
    if a is Some {
        Some(a->0@)
    } else if b is Some {
        Some(b->0@)
    } else {
        None
    }
}

pub proof fn lemma_first_set_value_pair(cs: Seq<Option<String>>, a: Option<String>, b: Option<
    String,
>)
    requires
        cs.len() == 2,
        cs[0] is Some <==> a is Some,
        cs[0] is Some ==> cs[0]->0@ == a->0@,
        cs[1] is Some <==> b is Some,
        cs[1] is Some ==> cs[1]->0@ == b->0@,
    ensures
        first_set_value(cs) == pick2(a, b),
{
    reveal_with_fuel(first_set_value, 3);
    assert(cs.drop_first() =~= seq![cs[1]]);
    assert(cs.drop_first().drop_first() =~= Seq::<Option<String>>::empty());
}

/// A view-preserving copy of one candidate reading.
pub fn clone_opt(o: &Option<String>) -> (r: Option<String>)
    ensures
        r is Some <==> *o is Some,
        r is Some ==> r->0@ == o->0@,
{
    match o {
        Some(s) => Some(s.clone()),
        None => None,
    }
}

/// Examine the candidate values in order and return the first one that
/// is set (an empty string counts as set); when none is, fail with the
/// label of the logical concept the candidates stand for.
pub fn resolve_env_any(candidates: &Vec<Option<String>>, label: &'static str) -> (r: Result<
    String,
    SystemError,
>)
    ensures
        match r {
            Ok(v) => first_set_value(candidates@) == Some(v@),
            Err(e) => first_set_value(candidates@) is None && (e matches SystemError::MissingEnv(l)
                && l@ == label@),
        },
{
    let n = candidates.len();
    let mut i: usize = 0;
    while i < n
        invariant
            0 <= i <= n,
            n == candidates@.len(),
            forall|j: int| 0 <= j < i ==> candidates@[j] is None,
        decreases n - i,
    {
        match &candidates[i] {
            Some(v) => {
                let out = v.clone();
                proof {
                    lemma_first_set_value_skip(candidates@, i as int);
                    let tail = candidates@.subrange(i as int, n as int);
                    assert(tail[0] == candidates@[i as int]);
                }
                return Ok(out);
            },
            None => {},
        }
        i += 1;
    }
    proof {
        lemma_first_set_value_skip(candidates@, n as int);
        assert(candidates@.subrange(n as int, n as int).len() == 0);
    }
    Err(SystemError::MissingEnv(label))
}

} // verus!
