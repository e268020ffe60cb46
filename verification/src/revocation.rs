//! The set of revoked token ids, consulted when authenticating.

use vstd::prelude::*;

verus! {

/// Checks whether a token id has been revoked. A checker states which ids
/// it holds revoked in `spec_is_revoked`; the default, which lets an
/// unverified checker compile, holds none, and a verified one overrides it.
pub trait RevocationCheck {
    /// Whether the checker holds `jti` revoked.
    open spec fn spec_is_revoked(&self, jti: Seq<char>) -> bool {
        false
    }

    /// Whether `jti` has been revoked.
    fn is_revoked(&self, jti: &str) -> (r: bool)
        ensures
            r == self.spec_is_revoked(jti@);
}

/// In-memory set of revoked token ids; refreshed periodically from the
/// database by replacing its whole contents.
pub struct RevocationCache {
    revoked: Vec<String>,
}

impl View for RevocationCache {
    type V = Set<Seq<char>>;

    closed spec fn view(&self) -> Set<Seq<char>> {
        self.revoked@.map_values(|s: String| s@).to_set()
    }
}

impl RevocationCache {
    /// An empty cache.
    pub fn new() -> (r: RevocationCache)
        ensures
            r@ == Set::<Seq<char>>::empty(),
    {
        let r = RevocationCache { revoked: Vec::new() };
        assert(r.revoked@.map_values(|s: String| s@) =~= Seq::<Seq<char>>::empty());
        assert(r@ =~= Set::<Seq<char>>::empty());
        r
    }

    /// Whether `jti` is in the cache.
    pub fn contains(&self, jti: &str) -> (r: bool)
        ensures
            r == self@.contains(jti@),
    {
        let ghost vs = self.revoked@.map_values(|s: String| s@);
        let k = jti.to_string();
        let mut i: usize = 0;
        while i < self.revoked.len()
            invariant
                i <= self.revoked.len(),
                vs == self.revoked@.map_values(|s: String| s@),
                k@ == jti@,
                forall|j: int| 0 <= j < i ==> vs[j] != jti@,
            decreases self.revoked.len() - i,
        {
            if self.revoked[i] == k {
                assert(vs[i as int] == jti@);
                assert(vs.to_set().contains(jti@));
                return true;
            }
            i += 1;
        }
        assert(!vs.contains(jti@));
        false
    }

    /// Add a token id to the revocation cache.
    pub fn revoke(&mut self, jti: &str)
        ensures
            final(self)@ == old(self)@.insert(jti@),
    {
        let ghost before = self.revoked@.map_values(|s: String| s@);
        self.revoked.push(jti.to_string());
        let ghost after = self.revoked@.map_values(|s: String| s@);
        assert(after =~= before.push(jti@));
        assert(after.to_set() =~= before.to_set().insert(jti@)) by {
            assert forall|x: Seq<char>| after.contains(x) <==> before.contains(x) || x == jti@ by {
                if after.contains(x) {
                    let j = choose|j: int| 0 <= j < after.len() && after[j] == x;
                    if j < before.len() {
                        assert(before[j] == x);
                    }
                }
                if before.contains(x) {
                    let j = choose|j: int| 0 <= j < before.len() && before[j] == x;
                    assert(after[j] == x);
                }
                if x == jti@ {
                    assert(after[before.len() as int] == x);
                }
            }
        }
    }

    /// Replace the whole contents with the given token ids.
    pub fn replace_all(&mut self, jtis: Vec<String>)
        ensures
            final(self)@ == jtis@.map_values(|s: String| s@).to_set(),
    {
        self.revoked = jtis;
    }
}

impl RevocationCheck for RevocationCache {
    /// A token id is revoked when the cache holds it.
    open spec fn spec_is_revoked(&self, jti: Seq<char>) -> bool {
        self@.contains(jti)
    }

    fn is_revoked(&self, jti: &str) -> (r: bool) {
        self.contains(jti)
    }
}

} // verus!
