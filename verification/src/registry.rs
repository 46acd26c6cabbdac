use vstd::prelude::*;

use crate::errors::Error;

verus! {

/// What a credential list binds a credential to: the first entry whose key
/// matches, if any.
pub open spec fn spec_lookup(s: Seq<(String, String)>, k: Seq<char>) -> Option<Seq<char>>
    decreases s.len(),
{
    if s.len() == 0 {
        None
    } else if s[0].0@ == k {
        Some(s[0].1@)
    } else {
        spec_lookup(s.drop_first(), k)
    }
}

/// No two entries carry the same credential.
pub open spec fn unique_keys(s: Seq<(String, String)>) -> bool {
    forall|i: int, j: int| 0 <= i < j < s.len() ==> (#[trigger] s[i]).0@ != (#[trigger] s[j]).0@
}

/// How binding `k` to `v` relates the list before to the list after: an
/// already-bound credential is left exactly as it was (the re-bind is a
/// silent no-op, not an overwrite), an unbound one becomes bound to `v`,
/// and no other credential's binding changes.
pub open spec fn bind_rel(
    pre: Seq<(String, String)>,
    post: Seq<(String, String)>,
    k: Seq<char>,
    v: Seq<char>,
) -> bool {
    &&& spec_lookup(post, k) == (if spec_lookup(pre, k) is Some {
        spec_lookup(pre, k)
    } else {
        Some(v)
    })
    &&& forall|k2: Seq<char>| k2 != k ==> spec_lookup(post, k2) == spec_lookup(pre, k2)
}

/// How consuming or revoking `k` relates the list before to the list
/// after: `k` is no longer bound and no other credential's binding changes.
pub open spec fn consume_rel(
    pre: Seq<(String, String)>,
    post: Seq<(String, String)>,
    k: Seq<char>,
) -> bool {
    &&& spec_lookup(post, k) is None
    &&& forall|k2: Seq<char>| k2 != k ==> spec_lookup(post, k2) == spec_lookup(pre, k2)
}

/// A credential is unbound exactly when no entry carries it.
pub proof fn lemma_lookup_absent(s: Seq<(String, String)>, k: Seq<char>)
    ensures
        spec_lookup(s, k) is None <==> (forall|j: int|
            0 <= j < s.len() ==> (#[trigger] s[j]).0@ != k),
    decreases s.len(),
{
    if s.len() > 0 {
        lemma_lookup_absent(s.drop_first(), k);
        assert(forall|j: int|
            1 <= j < s.len() ==> (#[trigger] s[j]) == s.drop_first()[j - 1]);
    }
}

/// Appending an entry binds its credential when it was unbound and leaves
/// every other lookup unchanged.
pub proof fn lemma_lookup_push(s: Seq<(String, String)>, p: (String, String), k2: Seq<char>)
    ensures
        spec_lookup(s.push(p), k2) == (if spec_lookup(s, k2) is Some {
            spec_lookup(s, k2)
        } else if p.0@ == k2 {
            Some(p.1@)
        } else {
            None::<Seq<char>>
        }),
    decreases s.len(),
{
    if s.len() == 0 {
        assert(s.push(p)[0] == p);
        assert(s.push(p).drop_first() =~= Seq::<(String, String)>::empty());
        assert(spec_lookup(s, k2) is None);
        if p.0@ == k2 {
            assert(spec_lookup(s.push(p), k2) == Some(p.1@));
        } else {
            assert(spec_lookup(s.push(p), k2) == spec_lookup(s.push(p).drop_first(), k2));
            assert(spec_lookup(s.push(p), k2) is None);
        }
    } else {
        assert(s.push(p)[0] == s[0]);
        assert(s.push(p).drop_first() =~= s.drop_first().push(p));
        lemma_lookup_push(s.drop_first(), p, k2);
        if s[0].0@ == k2 {
            assert(spec_lookup(s, k2) == Some(s[0].1@));
            assert(spec_lookup(s.push(p), k2) == Some(s[0].1@));
        } else {
            assert(spec_lookup(s, k2) == spec_lookup(s.drop_first(), k2));
            assert(spec_lookup(s.push(p), k2) == spec_lookup(s.drop_first().push(p), k2));
        }
    }
}

/// Removing the entry at `i` erases exactly that credential's binding,
/// provided no other entry carries the same credential.
pub proof fn lemma_lookup_remove_same(s: Seq<(String, String)>, i: int)
    requires
        0 <= i < s.len(),
        forall|j: int| 0 <= j < s.len() && j != i ==> (#[trigger] s[j]).0@ != s[i].0@,
    ensures
        spec_lookup(s.remove(i), s[i].0@) is None,
    decreases s.len(),
{
    let t = s.remove(i);
    assert(forall|a: int| 0 <= a < t.len() ==> t[a] == (if a < i {
        s[a]
    } else {
        s[a + 1]
    }));
    assert(forall|a: int| 0 <= a < t.len() ==> (#[trigger] t[a]).0@ != s[i].0@);
    lemma_lookup_absent(t, s[i].0@);
}

/// Removing the entry at `i` leaves the binding of every credential other
/// than the one at `i` unchanged.
pub proof fn lemma_lookup_remove_other(s: Seq<(String, String)>, i: int, k2: Seq<char>)
    requires
        0 <= i < s.len(),
        s[i].0@ != k2,
    ensures
        spec_lookup(s.remove(i), k2) == spec_lookup(s, k2),
    decreases s.len(),
{
    if i == 0 {
        assert(s.remove(0) =~= s.drop_first());
    } else {
        assert(s.remove(i)[0] == s[0]);
        assert(s.remove(i).drop_first() =~= s.drop_first().remove(i - 1));
        lemma_lookup_remove_other(s.drop_first(), i - 1, k2);
    }
}

/// Uniqueness of credentials survives removing an entry.
pub proof fn lemma_unique_remove(s: Seq<(String, String)>, i: int)
    requires
        0 <= i < s.len(),
        unique_keys(s),
    ensures
        unique_keys(s.remove(i)),
{
    let t = s.remove(i);
    assert(forall|a: int| 0 <= a < t.len() ==> t[a] == (if a < i {
        s[a]
    } else {
        s[a + 1]
    }));
}

/// The one-time-use claim credential ledger: each credential (a public
/// verification key string) is bound to at most one drop hash at any time.
pub struct ClaimKeyRegistry {
    pub entries: Vec<(String, String)>,
}

impl ClaimKeyRegistry {
    /// The registry's invariant: no credential appears twice.
    pub open spec fn wf(self) -> bool {
        unique_keys(self.entries@)
    }

    /// What this registry binds a credential to.
    pub open spec fn bound_to(self, k: Seq<char>) -> Option<Seq<char>> {
        spec_lookup(self.entries@, k)
    }

    /// An empty registry: nothing is bound.
    pub fn new() -> (r: Self)
        ensures
            r.wf(),
            r.entries@.len() == 0,
            forall|k: Seq<char>| r.bound_to(k) is None,
    {
        let r = ClaimKeyRegistry { entries: Vec::new() };
        proof {
            assert forall|k: Seq<char>| r.bound_to(k) is None by {
                lemma_lookup_absent(r.entries@, k);
            }
        }
        r
    }

    /// The index of the entry carrying `key`, if any.
    fn find_index(&self, key: &String) -> (r: Option<usize>)
        ensures
            r matches Some(i) ==> i < self.entries@.len() && self.entries@[i as int].0@ == key@
                && self.bound_to(key@) == Some(self.entries@[i as int].1@),
            r is None ==> self.bound_to(key@) is None,
    {
        let n: usize = self.entries.len();
        let mut i: usize = 0;
        proof {
            assert(self.entries@.skip(0) =~= self.entries@);
        }
        while i < n
            invariant
                i <= n,
                n == self.entries@.len(),
                spec_lookup(self.entries@, key@) == spec_lookup(
                    self.entries@.skip(i as int),
                    key@,
                ),
                forall|j: int| 0 <= j < i ==> (#[trigger] self.entries@[j]).0@ != key@,
            decreases n - i,
        {
            let hit: bool = self.entries[i].0 == *key;
            proof {
                assert(self.entries@.skip(i as int)[0] == self.entries@[i as int]);
                assert(self.entries@.skip(i as int).drop_first() =~= self.entries@.skip(i + 1));
            }
            if hit {
                return Some(i);
            }
            i = i + 1;
        }
        assert(self.entries@.skip(n as int) =~= Seq::<(String, String)>::empty());
        None
    }

    /// Whatever `key` is currently bound to, without consuming it.
    pub fn lookup(&self, key: &String) -> (r: Option<String>)
        ensures
            r matches Some(h) ==> self.bound_to(key@) == Some(h@),
            r is None <==> self.bound_to(key@) is None,
    {
        match self.find_index(key) {
            Some(i) => Some(self.entries[i].1.clone()),
            None => None,
        }
    }

    /// Inserts a credential-to-drop binding. If the credential is already
    /// bound the call is a silent no-op — the existing binding is kept, not
    /// overwritten. Returns whether a new binding was made.
    pub fn bind(&mut self, credential: String, drop_hash: String) -> (r: bool)
        requires
            old(self).wf(),
        ensures
            final(self).wf(),
            bind_rel(old(self).entries@, final(self).entries@, credential@, drop_hash@),
            r == (old(self).bound_to(credential@) is None),
            !r ==> *final(self) == *old(self),
            r ==> final(self).entries@ == old(self).entries@.push((credential, drop_hash)),
    {
        let ghost pre = self.entries@;
        match self.find_index(&credential) {
            Some(_) => false,
            None => {
                proof {
                    lemma_lookup_absent(pre, credential@);
                }
                let ghost kview = credential@;
                let ghost vview = drop_hash@;
                let pair = (credential, drop_hash);
                self.entries.push(pair);
                proof {
                    assert(pair.0@ == kview && pair.1@ == vview);
                    assert forall|k2: Seq<char>| #![auto] true implies spec_lookup(
                        self.entries@,
                        k2,
                    ) == (if spec_lookup(pre, k2) is Some {
                        spec_lookup(pre, k2)
                    } else if kview == k2 {
                        Some(vview)
                    } else {
                        None::<Seq<char>>
                    }) by {
                        lemma_lookup_push(pre, pair, k2);
                    }
                    assert(unique_keys(self.entries@)) by {
                        assert(forall|j: int|
                            0 <= j < pre.len() ==> (#[trigger] self.entries@[j]) == pre[j]);
                        assert(self.entries@[pre.len() as int] == pair);
                    }
                }
                true
            },
        }
    }

    /// Removes whatever binding `key` has. Returns whether one existed.
    pub fn revoke(&mut self, key: &String) -> (r: bool)
        requires
            old(self).wf(),
        ensures
            final(self).wf(),
            consume_rel(old(self).entries@, final(self).entries@, key@),
            r == (old(self).bound_to(key@) is Some),
    {
        let ghost pre = self.entries@;
        match self.find_index(key) {
            Some(i) => {
                let _ = self.entries.remove(i);
                proof {
                    lemma_unique_remove(pre, i as int);
                    lemma_lookup_remove_same(pre, i as int);
                    assert forall|k2: Seq<char>| k2 != key@ implies spec_lookup(self.entries@, k2)
                        == spec_lookup(pre, k2) by {
                        lemma_lookup_remove_other(pre, i as int, k2);
                    }
                }
                true
            },
            None => {
                proof {
                    lemma_lookup_absent(pre, key@);
                }
                false
            },
        }
    }

    /// Looks the credential up and removes its binding in one step. A
    /// consumed or never-bound credential yields `UnknownCredential`; once
    /// this returns the drop hash, a second call with the same credential
    /// deterministically fails.
    pub fn resolve_and_consume(&mut self, credential: &String) -> (r: Result<String, Error>)
        requires
            old(self).wf(),
        ensures
            final(self).wf(),
            r matches Ok(h) ==> old(self).bound_to(credential@) == Some(h@),
            r is Err <==> old(self).bound_to(credential@) is None,
            r is Err ==> r == Err::<String, Error>(Error::UnknownCredential),
            consume_rel(old(self).entries@, final(self).entries@, credential@),
    {
        let ghost pre = self.entries@;
        match self.find_index(credential) {
            Some(i) => {
                let (_, hash) = self.entries.remove(i);
                proof {
                    lemma_unique_remove(pre, i as int);
                    lemma_lookup_remove_same(pre, i as int);
                    assert forall|k2: Seq<char>| k2 != credential@ implies spec_lookup(
                        self.entries@,
                        k2,
                    ) == spec_lookup(pre, k2) by {
                        lemma_lookup_remove_other(pre, i as int, k2);
                    }
                }
                Ok(hash)
            },
            None => {
                proof {
                    lemma_lookup_absent(pre, credential@);
                }
                Err(Error::UnknownCredential)
            },
        }
    }
}

/// The credential lifecycle law: starting from an unbound credential `k`,
/// binding it to `d1`, binding it again to `d2`, and then consuming it,
/// the second bind is a no-op — the consume yields `d1` — and afterwards
/// `k` is unbound, so a further consume deterministically fails.
pub proof fn lemma_credential_lifecycle(
    s0: Seq<(String, String)>,
    s1: Seq<(String, String)>,
    s2: Seq<(String, String)>,
    s3: Seq<(String, String)>,
    k: Seq<char>,
    d1: Seq<char>,
    d2: Seq<char>,
)
    requires
        spec_lookup(s0, k) is None,
        bind_rel(s0, s1, k, d1),
        bind_rel(s1, s2, k, d2),
        consume_rel(s2, s3, k),
    ensures
        spec_lookup(s1, k) == Some(d1),
        spec_lookup(s2, k) == Some(d1),
        spec_lookup(s3, k) is None,
{
}

} // verus!
