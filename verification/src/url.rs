//! Connection strings.
//!
//! A connection string is a URL whose scheme (the part before the first `:`)
//! selects the backend driver.  Only the scheme is interpreted here; the rest
//! of the string belongs to the driver.

use vstd::prelude::*;

verus! {

/// Length of the scheme part of `u`: the index of the first `:`, or the
/// length of `u` when it holds no `:` at all.
pub open spec fn scheme_len(u: Seq<char>) -> int
    decreases u.len(),
{
    if u.len() == 0 {
        0
    } else if u[0] == ':' {
        0
    } else {
        1 + scheme_len(u.subrange(1, u.len() as int))
    }
}

/// A connection string is well formed when it has a nonempty scheme
/// followed by a `:`.
pub open spec fn valid_url(u: Seq<char>) -> bool {
    0 < scheme_len(u) < u.len()
}

/// The scheme of a connection string.
pub open spec fn url_scheme(u: Seq<char>) -> Seq<char> {
    u.subrange(0, scheme_len(u))
}

/// `scheme_len` points at the first `:` of `u`, if `u` holds one.
pub proof fn lemma_scheme_len(u: Seq<char>)
    ensures
        0 <= scheme_len(u) <= u.len(),
        forall|k: int| 0 <= k < scheme_len(u) ==> u[k] != ':',
        scheme_len(u) < u.len() ==> u[scheme_len(u)] == ':',
    decreases u.len(),
{
    if u.len() != 0 && u[0] != ':' {
        let tail = u.subrange(1, u.len() as int);
        lemma_scheme_len(tail);
        let m = scheme_len(tail);
        assert forall|k: int| 0 <= k < scheme_len(u) implies u[k] != ':' by {
            if k >= 1 {
                assert(tail[k - 1] == u[k]);
            }
        }
        if scheme_len(u) < u.len() {
            assert(tail[m] == u[m + 1]);
        }
    }
}

/// Splits the scheme off a connection string: `Some` with the part before
/// the first `:` when the string is well formed, `None` otherwise.
pub fn split_scheme(url: &str) -> (r: Option<&str>)
    ensures
        match r {
            Some(s) => valid_url(url@) && s@ == url_scheme(url@),
            None => !valid_url(url@),
        },
{
    let n = url.unicode_len();
    let mut i: usize = 0;
    while i < n && url.get_char(i) != ':'
        invariant
            n == url@.len(),
            i <= n,
            forall|k: int| 0 <= k < i ==> url@[k] != ':',
        decreases n - i,
    {
        i += 1;
    }
    proof {
        lemma_scheme_len(url@);
    }
    if i == 0 || i >= n {
        None
    } else {
        Some(url.substring_char(0, i))
    }
}

} // verus!
