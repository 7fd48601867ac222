//! Process-wide driver registration.
//!
//! A registry holds the schemes for which a backend driver is installed.
//! `connect` refuses a connection string whose scheme is not registered.
//! Installing the default drivers is a guarded one-time effect: a scheme
//! that is already present is never registered twice.

use vstd::prelude::*;
use vstd::string::*;

verus! {

/// Adds a scheme to a registry unless it is already present.
pub open spec fn add_scheme(s: Seq<Seq<char>>, x: Seq<char>) -> Seq<Seq<char>> {
    if s.contains(x) {
        s
    } else {
        s.push(x)
    }
}

/// The effect of installing the default drivers on a registry.
pub open spec fn spec_install(s: Seq<Seq<char>>) -> Seq<Seq<char>> {
    add_scheme(add_scheme(s, "sqlite"@), "postgres"@)
}

/// The registry of installed backend drivers, by URL scheme.
pub struct DriverRegistry {
    pub schemes: Vec<String>,
}

impl DriverRegistry {
    /// The registered schemes.
    pub open spec fn schemes_v(&self) -> Seq<Seq<char>> {
        self.schemes.deep_view()
    }

    /// Whether a driver is registered for `scheme`.
    pub open spec fn registered(&self, scheme: Seq<char>) -> bool {
        self.schemes_v().contains(scheme)
    }

    /// A registry with no drivers installed.
    pub fn new() -> (r: Self)
        ensures
            r.schemes_v() == Seq::<Seq<char>>::empty(),
    {
        let r = DriverRegistry { schemes: Vec::new() };
        proof {
            assert(r.schemes_v() =~= Seq::<Seq<char>>::empty());
        }
        r
    }

    /// Whether a driver is registered for `scheme`.
    pub fn supports(&self, scheme: &str) -> (r: bool)
        ensures
            r == self.registered(scheme@),
    {
        let wanted = String::from_str(scheme);
        let n = self.schemes.len();
        let mut i: usize = 0;
        while i < n
            invariant
                wanted@ == scheme@,
                n == self.schemes.len(),
                i <= n,
                forall|k: int| 0 <= k < i ==> self.schemes_v()[k] != scheme@,
            decreases n - i,
        {
            proof {
                assert(self.schemes_v()[i as int] == self.schemes@[i as int]@);
            }
            if self.schemes[i].eq(&wanted) {
                proof {
                    assert(self.schemes_v()[i as int] == scheme@);
                }
                return true;
            }
            i += 1;
        }
        false
    }

    /// Registers a driver for `scheme` unless one is registered already:
    /// running the registration more than once is safe.
    pub fn register(&mut self, scheme: &str)
        ensures
            final(self).schemes_v() == add_scheme(old(self).schemes_v(), scheme@),
    {
        if !self.supports(scheme) {
            self.schemes.push(String::from_str(scheme));
            proof {
                assert(self.schemes_v() =~= add_scheme(old(self).schemes_v(), scheme@));
            }
        }
    }

    /// Installs the drivers this layer ships with, one per supported
    /// backend.  Idempotent; see [`lemma_install_idempotent`].
    pub fn install_default_drivers(&mut self)
        ensures
            final(self).schemes_v() == spec_install(old(self).schemes_v()),
    {
        self.register("sqlite");
        self.register("postgres");
    }
}

/// Adding a scheme makes it registered and keeps every other registration.
pub proof fn lemma_add_scheme(s: Seq<Seq<char>>, x: Seq<char>, y: Seq<char>)
    ensures
        add_scheme(s, x).contains(x),
        add_scheme(s, x).contains(y) <==> (s.contains(y) || x == y),
{
    if !s.contains(x) {
        assert(s.push(x)[s.len() as int] == x);
        assert(s.push(x).contains(x));
        if add_scheme(s, x).contains(y) && y != x {
            let i = choose|i: int| 0 <= i < s.push(x).len() && s.push(x)[i] == y;
            assert(s[i] == y);
        }
        if s.contains(y) {
            let i = choose|i: int| 0 <= i < s.len() && s[i] == y;
            assert(s.push(x)[i] == y);
        }
    }
}

/// Driver installation is a one-time effect: installing the default
/// drivers into a registry that already went through an installation
/// changes nothing.
pub proof fn lemma_install_idempotent(s: Seq<Seq<char>>)
    ensures
        spec_install(spec_install(s)) == spec_install(s),
{
    lemma_add_scheme(s, "sqlite"@, "postgres"@);
    lemma_add_scheme(add_scheme(s, "sqlite"@), "postgres"@, "sqlite"@);
    lemma_add_scheme(add_scheme(add_scheme(s, "sqlite"@), "postgres"@), "sqlite"@, "postgres"@);
}

} // verus!
