use vstd::prelude::*;

verus! {

/// A funding campaign: the creator's identity, the derivation path its
/// drops sign under, the ledger-native funding address, a creation
/// timestamp, mutable search terms and free-text metadata.
pub struct Campaign {
    pub creator: String,
    pub path: String,
    pub funding_address: String,
    pub created_at: u64,
    pub search_terms: Vec<String>,
    pub twitter_handle: String,
}

/// A single claimable allocation of funds tied to one credential holder.
pub struct Drop {
    pub campaign_id: u128,
    pub amount: u128,
    pub funder: String,
    pub path: String,
    pub keys: Vec<String>,
    pub op_return_hex: Option<String>,
    pub target_twitter_handle: String,
    pub target_tweet_id: String,
    pub hash: String,
    pub claimed: bool,
    pub claimed_by: Option<String>,
}

/// An identity proof presented at claim time; its verification is an
/// outside capability and no function here inspects it.
pub struct TwitterProof {
    pub handle: String,
    pub timestamp: u64,
    pub signature: String,
}

/// The drop a list stores under a hash: the first drop whose own hash
/// matches, if any.
pub open spec fn drop_lookup(s: Seq<Drop>, h: Seq<char>) -> Option<Drop>
    decreases s.len(),
{
    if s.len() == 0 {
        None
    } else if s[0].hash@ == h {
        Some(s[0])
    } else {
        drop_lookup(s.drop_first(), h)
    }
}

/// No two drops carry the same hash.
pub open spec fn unique_drop_hashes(s: Seq<Drop>) -> bool {
    forall|i: int, j: int| 0 <= i < j < s.len() ==> (#[trigger] s[i]).hash@ != (#[trigger] s[j]).hash@
}

/// Whether some key in the list views as `k`.
pub open spec fn keys_contain(ks: Seq<String>, k: Seq<char>) -> bool {
    exists|j: int| 0 <= j < ks.len() && (#[trigger] ks[j])@ == k
}

/// The key list with every key viewing as `k` taken out, order kept.
pub open spec fn keys_minus(ks: Seq<String>, k: Seq<char>) -> Seq<String>
    decreases ks.len(),
{
    if ks.len() == 0 {
        Seq::empty()
    } else if ks[0]@ == k {
        keys_minus(ks.drop_first(), k)
    } else {
        seq![ks[0]] + keys_minus(ks.drop_first(), k)
    }
}

/// Membership in a key list splits into its head and its tail.
pub proof fn lemma_keys_contain_cons(ks: Seq<String>, x: Seq<char>)
    requires
        ks.len() > 0,
    ensures
        keys_contain(ks, x) <==> (ks[0]@ == x || keys_contain(ks.drop_first(), x)),
{
    if keys_contain(ks, x) {
        let j = choose|j: int| 0 <= j < ks.len() && (#[trigger] ks[j])@ == x;
        if j > 0 {
            assert(ks.drop_first()[j - 1]@ == x);
        }
    }
    if keys_contain(ks.drop_first(), x) {
        let j = choose|j: int| 0 <= j < ks.drop_first().len() && (#[trigger] ks.drop_first()[j])@
            == x;
        assert(ks[j + 1]@ == x);
    }
}

/// What taking a key out of a list achieves: the key is gone, membership
/// of every other key is untouched, and every remaining entry differs from
/// the removed key and came from the original list.
pub proof fn lemma_keys_minus_props(ks: Seq<String>, k: Seq<char>)
    ensures
        !keys_contain(keys_minus(ks, k), k),
        forall|x: Seq<char>|
            x != k ==> (keys_contain(keys_minus(ks, k), x) <==> keys_contain(ks, x)),
        forall|j: int|
            0 <= j < keys_minus(ks, k).len() ==> (#[trigger] keys_minus(ks, k)[j])@ != k
                && keys_contain(ks, keys_minus(ks, k)[j]@),
    decreases ks.len(),
{
    let m = keys_minus(ks, k);
    if ks.len() == 0 {
        assert(forall|x: Seq<char>| !keys_contain(m, x)) by {
            assert(m.len() == 0);
        }
    } else {
        lemma_keys_minus_props(ks.drop_first(), k);
        let mrest = keys_minus(ks.drop_first(), k);
        if ks[0]@ == k {
            assert(m == mrest);
            assert forall|x: Seq<char>| x != k implies (keys_contain(m, x) <==> keys_contain(
                ks,
                x,
            )) by {
                lemma_keys_contain_cons(ks, x);
            }
            assert forall|j: int| 0 <= j < m.len() implies (#[trigger] m[j])@ != k && keys_contain(
                ks,
                m[j]@,
            ) by {
                lemma_keys_contain_cons(ks, m[j]@);
            }
        } else {
            assert(m == seq![ks[0]] + mrest);
            assert(m[0] == ks[0]);
            assert(forall|j: int| 1 <= j < m.len() ==> (#[trigger] m[j]) == mrest[j - 1]);
            assert(!keys_contain(m, k)) by {
                if keys_contain(m, k) {
                    let j = choose|j: int| 0 <= j < m.len() && (#[trigger] m[j])@ == k;
                    if j > 0 {
                        assert(mrest[j - 1]@ == k);
                    }
                }
            }
            assert forall|x: Seq<char>| x != k implies (keys_contain(m, x) <==> keys_contain(
                ks,
                x,
            )) by {
                lemma_keys_contain_cons(ks, x);
                if keys_contain(m, x) {
                    let j = choose|j: int| 0 <= j < m.len() && (#[trigger] m[j])@ == x;
                    if j > 0 {
                        assert(mrest[j - 1]@ == x);
                    }
                }
                if x == ks[0]@ {
                    assert(m[0]@ == x);
                } else if keys_contain(ks.drop_first(), x) {
                    assert(keys_contain(mrest, x));
                    let j = choose|j: int| 0 <= j < mrest.len() && (#[trigger] mrest[j])@ == x;
                    assert(m[j + 1]@ == x);
                }
            }
            assert forall|j: int| 0 <= j < m.len() implies (#[trigger] m[j])@ != k && keys_contain(
                ks,
                m[j]@,
            ) by {
                if j == 0 {
                    assert(ks[0]@ == m[0]@);
                } else {
                    assert(m[j] == mrest[j - 1]);
                    lemma_keys_contain_cons(ks, m[j]@);
                }
            }
        }
    }
}

/// Taking a key out of a longer list extends taking it out of a prefix.
pub proof fn lemma_keys_minus_snoc(ks: Seq<String>, x: String, k: Seq<char>)
    ensures
        keys_minus(ks.push(x), k) == (if x@ == k {
            keys_minus(ks, k)
        } else {
            keys_minus(ks, k) + seq![x]
        }),
    decreases ks.len(),
{
    if ks.len() == 0 {
        assert(ks.push(x)[0] == x);
        assert(ks.push(x).drop_first() =~= Seq::<String>::empty());
        assert(keys_minus(Seq::<String>::empty(), k) =~= Seq::<String>::empty());
        if x@ == k {
        } else {
            assert(keys_minus(ks.push(x), k) =~= seq![x]);
            assert(keys_minus(ks, k) + seq![x] =~= seq![x]);
        }
    } else {
        assert(ks.push(x)[0] == ks[0]);
        assert(ks.push(x).drop_first() =~= ks.drop_first().push(x));
        lemma_keys_minus_snoc(ks.drop_first(), x, k);
        if ks[0]@ == k {
        } else {
            if x@ == k {
            } else {
                assert(seq![ks[0]] + (keys_minus(ks.drop_first(), k) + seq![x]) =~= (seq![ks[0]]
                    + keys_minus(ks.drop_first(), k)) + seq![x]);
            }
        }
    }
}

/// Builds the key list with every occurrence of `k` removed.
pub fn keys_without(ks: &Vec<String>, k: &String) -> (r: Vec<String>)
    ensures
        r@ == keys_minus(ks@, k@),
{
    let mut r: Vec<String> = Vec::new();
    let mut i: usize = 0;
    proof {
        assert(ks@.take(0) =~= Seq::<String>::empty());
    }
    while i < ks.len()
        invariant
            i <= ks@.len(),
            r@ == keys_minus(ks@.take(i as int), k@),
        decreases ks@.len() - i,
    {
        let keep: bool = !(ks[i] == *k);
        proof {
            lemma_keys_minus_snoc(ks@.take(i as int), ks@[i as int], k@);
            assert(ks@.take(i + 1) =~= ks@.take(i as int).push(ks@[i as int]));
        }
        if keep {
            let x = ks[i].clone();
            assert(x == ks@[i as int]);
            r.push(x);
            assert(r@ =~= keys_minus(ks@.take(i as int), k@) + seq![ks@[i as int]]);
        }
        i = i + 1;
    }
    assert(ks@.take(ks@.len() as int) =~= ks@);
    r
}

/// A hash is absent exactly when no drop carries it.
pub proof fn lemma_drop_lookup_absent(s: Seq<Drop>, h: Seq<char>)
    ensures
        drop_lookup(s, h) is None <==> (forall|j: int|
            0 <= j < s.len() ==> (#[trigger] s[j]).hash@ != h),
    decreases s.len(),
{
    if s.len() > 0 {
        lemma_drop_lookup_absent(s.drop_first(), h);
        assert(forall|j: int| 1 <= j < s.len() ==> (#[trigger] s[j]) == s.drop_first()[j - 1]);
    }
}

/// When a drop with hash `h` sits at index `i` and no other drop shares
/// that hash, the lookup finds exactly that drop.
pub proof fn lemma_drop_lookup_at(s: Seq<Drop>, i: int)
    requires
        0 <= i < s.len(),
        forall|j: int| 0 <= j < i ==> (#[trigger] s[j]).hash@ != s[i].hash@,
    ensures
        drop_lookup(s, s[i].hash@) == Some(s[i]),
    decreases i,
{
    if i > 0 {
        lemma_drop_lookup_at(s.drop_first(), i - 1);
    }
}

/// Appending a drop binds its hash when that hash was absent and leaves
/// every other lookup unchanged.
pub proof fn lemma_drop_lookup_push(s: Seq<Drop>, d: Drop, h: Seq<char>)
    ensures
        drop_lookup(s.push(d), h) == (if drop_lookup(s, h) is Some {
            drop_lookup(s, h)
        } else if d.hash@ == h {
            Some(d)
        } else {
            None::<Drop>
        }),
    decreases s.len(),
{
    if s.len() == 0 {
        assert(s.push(d)[0] == d);
        assert(s.push(d).drop_first() =~= Seq::<Drop>::empty());
    } else {
        assert(s.push(d)[0] == s[0]);
        assert(s.push(d).drop_first() =~= s.drop_first().push(d));
        lemma_drop_lookup_push(s.drop_first(), d, h);
    }
}

/// Replacing the drop at `i` with one carrying the same hash redirects
/// that hash's lookup to the replacement and leaves every other lookup
/// unchanged, provided the hash is unique.
pub proof fn lemma_drop_lookup_update(s: Seq<Drop>, i: int, d: Drop, h: Seq<char>)
    requires
        0 <= i < s.len(),
        d.hash@ == s[i].hash@,
        forall|j: int| 0 <= j < s.len() && j != i ==> (#[trigger] s[j]).hash@ != s[i].hash@,
    ensures
        drop_lookup(s.update(i, d), h) == (if h == s[i].hash@ {
            Some(d)
        } else {
            drop_lookup(s, h)
        }),
    decreases i,
{
    let t = s.update(i, d);
    if i == 0 {
        assert(t[0] == d);
        assert(t.drop_first() =~= s.drop_first());
        if h != s[0].hash@ {
        } else {
        }
    } else {
        assert(t[0] == s[0]);
        assert(t.drop_first() =~= s.drop_first().update(i - 1, d));
        assert(forall|j: int|
            0 <= j < s.drop_first().len() && j != i - 1 ==> (#[trigger] s.drop_first()[j]).hash@
                != s.drop_first()[i - 1].hash@);
        lemma_drop_lookup_update(s.drop_first(), i - 1, d, h);
    }
}

/// Uniqueness of hashes survives replacing a drop with one carrying the
/// same hash.
pub proof fn lemma_unique_drop_update(s: Seq<Drop>, i: int, d: Drop)
    requires
        0 <= i < s.len(),
        unique_drop_hashes(s),
        d.hash@ == s[i].hash@,
    ensures
        unique_drop_hashes(s.update(i, d)),
{
}

/// Appending a key extends membership by exactly that key.
pub proof fn lemma_keys_contain_snoc(ks: Seq<String>, x: String, k: Seq<char>)
    ensures
        keys_contain(ks.push(x), k) <==> (keys_contain(ks, k) || x@ == k),
{
    if keys_contain(ks.push(x), k) {
        let j = choose|j: int| 0 <= j < ks.push(x).len() && (#[trigger] ks.push(x)[j])@ == k;
        if j < ks.len() {
            assert(ks[j]@ == k);
        }
    }
    if keys_contain(ks, k) {
        let j = choose|j: int| 0 <= j < ks.len() && (#[trigger] ks[j])@ == k;
        assert(ks.push(x)[j]@ == k);
    }
    if x@ == k {
        assert(ks.push(x)[ks.len() as int]@ == k);
    }
}

/// Removing the drop at `i` erases exactly that hash's lookup, provided
/// no other drop shares the hash.
pub proof fn lemma_drop_lookup_remove_same(s: Seq<Drop>, i: int)
    requires
        0 <= i < s.len(),
        forall|j: int| 0 <= j < s.len() && j != i ==> (#[trigger] s[j]).hash@ != s[i].hash@,
    ensures
        drop_lookup(s.remove(i), s[i].hash@) is None,
{
    let t = s.remove(i);
    assert(forall|a: int| 0 <= a < t.len() ==> t[a] == (if a < i {
        s[a]
    } else {
        s[a + 1]
    }));
    assert(forall|a: int| 0 <= a < t.len() ==> (#[trigger] t[a]).hash@ != s[i].hash@);
    lemma_drop_lookup_absent(t, s[i].hash@);
}

/// Removing the drop at `i` leaves every other hash's lookup unchanged.
pub proof fn lemma_drop_lookup_remove_other(s: Seq<Drop>, i: int, h: Seq<char>)
    requires
        0 <= i < s.len(),
        s[i].hash@ != h,
    ensures
        drop_lookup(s.remove(i), h) == drop_lookup(s, h),
    decreases s.len(),
{
    if i == 0 {
        assert(s.remove(0) =~= s.drop_first());
    } else {
        assert(s.remove(i)[0] == s[0]);
        assert(s.remove(i).drop_first() =~= s.drop_first().remove(i - 1));
        lemma_drop_lookup_remove_other(s.drop_first(), i - 1, h);
    }
}

/// Uniqueness of hashes survives removing a drop.
pub proof fn lemma_unique_drop_remove(s: Seq<Drop>, i: int)
    requires
        0 <= i < s.len(),
        unique_drop_hashes(s),
    ensures
        unique_drop_hashes(s.remove(i)),
{
    let t = s.remove(i);
    assert(forall|a: int| 0 <= a < t.len() ==> t[a] == (if a < i {
        s[a]
    } else {
        s[a + 1]
    }));
}

/// A drop that a lookup finds is an element of the list.
pub proof fn lemma_drop_lookup_is_member(s: Seq<Drop>, h: Seq<char>)
    requires
        drop_lookup(s, h) is Some,
    ensures
        exists|i: int| 0 <= i < s.len() && (#[trigger] s[i]) == drop_lookup(s, h)->Some_0,
    decreases s.len(),
{
    if s.len() > 0 {
        if s[0].hash@ == h {
            assert(s[0] == drop_lookup(s, h)->Some_0);
        } else {
            lemma_drop_lookup_is_member(s.drop_first(), h);
            let i = choose|i: int|
                0 <= i < s.drop_first().len() && (#[trigger] s.drop_first()[i]) == drop_lookup(
                    s.drop_first(),
                    h,
                )->Some_0;
            assert(s[i + 1] == drop_lookup(s, h)->Some_0);
        }
    }
}

/// The hashes of the drops belonging to a campaign, in catalog order.
pub open spec fn hashes_of_campaign(s: Seq<Drop>, cid: u128) -> Seq<String>
    decreases s.len(),
{
    if s.len() == 0 {
        Seq::empty()
    } else if s[0].campaign_id == cid {
        seq![s[0].hash] + hashes_of_campaign(s.drop_first(), cid)
    } else {
        hashes_of_campaign(s.drop_first(), cid)
    }
}

/// Listing a campaign's drops extends drop by drop.
pub proof fn lemma_hashes_of_campaign_snoc(s: Seq<Drop>, d: Drop, cid: u128)
    ensures
        hashes_of_campaign(s.push(d), cid) == (if d.campaign_id == cid {
            hashes_of_campaign(s, cid) + seq![d.hash]
        } else {
            hashes_of_campaign(s, cid)
        }),
    decreases s.len(),
{
    if s.len() == 0 {
        assert(s.push(d)[0] == d);
        assert(s.push(d).drop_first() =~= Seq::<Drop>::empty());
        assert(hashes_of_campaign(Seq::<Drop>::empty(), cid) =~= Seq::<String>::empty());
        if d.campaign_id == cid {
            assert(hashes_of_campaign(s.push(d), cid) =~= seq![d.hash]);
            assert(hashes_of_campaign(s, cid) + seq![d.hash] =~= seq![d.hash]);
        }
    } else {
        assert(s.push(d)[0] == s[0]);
        assert(s.push(d).drop_first() =~= s.drop_first().push(d));
        lemma_hashes_of_campaign_snoc(s.drop_first(), d, cid);
        if s[0].campaign_id == cid {
            if d.campaign_id == cid {
                assert(seq![s[0].hash] + (hashes_of_campaign(s.drop_first(), cid) + seq![d.hash])
                    =~= (seq![s[0].hash] + hashes_of_campaign(s.drop_first(), cid)) + seq![d.hash]);
            }
        }
    }
}

/// The campaign a list stores under an identifier: the first pair whose
/// identifier matches, if any.
pub open spec fn campaign_lookup(s: Seq<(u128, Campaign)>, id: u128) -> Option<Campaign>
    decreases s.len(),
{
    if s.len() == 0 {
        None
    } else if s[0].0 == id {
        Some(s[0].1)
    } else {
        campaign_lookup(s.drop_first(), id)
    }
}

/// No two campaigns carry the same identifier.
pub open spec fn unique_campaign_ids(s: Seq<(u128, Campaign)>) -> bool {
    forall|i: int, j: int| 0 <= i < j < s.len() ==> (#[trigger] s[i]).0 != (#[trigger] s[j]).0
}

/// An identifier is absent exactly when no pair carries it.
pub proof fn lemma_campaign_lookup_absent(s: Seq<(u128, Campaign)>, id: u128)
    ensures
        campaign_lookup(s, id) is None <==> (forall|j: int|
            0 <= j < s.len() ==> (#[trigger] s[j]).0 != id),
    decreases s.len(),
{
    if s.len() > 0 {
        lemma_campaign_lookup_absent(s.drop_first(), id);
        assert(forall|j: int| 1 <= j < s.len() ==> (#[trigger] s[j]) == s.drop_first()[j - 1]);
    }
}

/// Appending a campaign binds its identifier when it was absent and
/// leaves every other lookup unchanged.
pub proof fn lemma_campaign_lookup_push(s: Seq<(u128, Campaign)>, p: (u128, Campaign), id: u128)
    ensures
        campaign_lookup(s.push(p), id) == (if campaign_lookup(s, id) is Some {
            campaign_lookup(s, id)
        } else if p.0 == id {
            Some(p.1)
        } else {
            None::<Campaign>
        }),
    decreases s.len(),
{
    if s.len() == 0 {
        assert(s.push(p)[0] == p);
        assert(s.push(p).drop_first() =~= Seq::<(u128, Campaign)>::empty());
        assert(campaign_lookup(s, id) is None);
        if p.0 == id {
            assert(campaign_lookup(s.push(p), id) == Some(p.1));
        } else {
            assert(campaign_lookup(s.push(p), id) == campaign_lookup(s.push(p).drop_first(), id));
            assert(campaign_lookup(s.push(p), id) is None);
        }
    } else {
        assert(s.push(p)[0] == s[0]);
        assert(s.push(p).drop_first() =~= s.drop_first().push(p));
        lemma_campaign_lookup_push(s.drop_first(), p, id);
        if s[0].0 == id {
            assert(campaign_lookup(s, id) == Some(s[0].1));
            assert(campaign_lookup(s.push(p), id) == Some(s[0].1));
        } else {
            assert(campaign_lookup(s, id) == campaign_lookup(s.drop_first(), id));
            assert(campaign_lookup(s.push(p), id) == campaign_lookup(s.drop_first().push(p), id));
        }
    }
}

/// Removing the campaign at `i` erases exactly that identifier's lookup,
/// provided no other campaign shares it.
pub proof fn lemma_campaign_lookup_remove_same(s: Seq<(u128, Campaign)>, i: int)
    requires
        0 <= i < s.len(),
        forall|j: int| 0 <= j < s.len() && j != i ==> (#[trigger] s[j]).0 != s[i].0,
    ensures
        campaign_lookup(s.remove(i), s[i].0) is None,
{
    let t = s.remove(i);
    assert(forall|a: int| 0 <= a < t.len() ==> t[a] == (if a < i {
        s[a]
    } else {
        s[a + 1]
    }));
    assert(forall|a: int| 0 <= a < t.len() ==> (#[trigger] t[a]).0 != s[i].0);
    lemma_campaign_lookup_absent(t, s[i].0);
}

/// Removing the campaign at `i` leaves every other identifier's lookup
/// unchanged.
pub proof fn lemma_campaign_lookup_remove_other(s: Seq<(u128, Campaign)>, i: int, id: u128)
    requires
        0 <= i < s.len(),
        s[i].0 != id,
    ensures
        campaign_lookup(s.remove(i), id) == campaign_lookup(s, id),
    decreases s.len(),
{
    if i == 0 {
        assert(s.remove(0) =~= s.drop_first());
    } else {
        assert(s.remove(i)[0] == s[0]);
        assert(s.remove(i).drop_first() =~= s.drop_first().remove(i - 1));
        lemma_campaign_lookup_remove_other(s.drop_first(), i - 1, id);
    }
}

/// Uniqueness of identifiers survives removing a campaign.
pub proof fn lemma_unique_campaign_remove(s: Seq<(u128, Campaign)>, i: int)
    requires
        0 <= i < s.len(),
        unique_campaign_ids(s),
    ensures
        unique_campaign_ids(s.remove(i)),
{
    let t = s.remove(i);
    assert(forall|a: int| 0 <= a < t.len() ==> t[a] == (if a < i {
        s[a]
    } else {
        s[a + 1]
    }));
}

/// Replacing the campaign at `i` under the same identifier redirects that
/// identifier's lookup and leaves every other lookup unchanged, provided
/// the identifier is unique.
pub proof fn lemma_campaign_lookup_update(s: Seq<(u128, Campaign)>, i: int, p: (u128, Campaign), id: u128)
    requires
        0 <= i < s.len(),
        p.0 == s[i].0,
        forall|j: int| 0 <= j < s.len() && j != i ==> (#[trigger] s[j]).0 != s[i].0,
    ensures
        campaign_lookup(s.update(i, p), id) == (if id == s[i].0 {
            Some(p.1)
        } else {
            campaign_lookup(s, id)
        }),
    decreases i,
{
    let t = s.update(i, p);
    if i == 0 {
        assert(t[0] == p);
        assert(t.drop_first() =~= s.drop_first());
    } else {
        assert(t[0] == s[0]);
        assert(t.drop_first() =~= s.drop_first().update(i - 1, p));
        assert(forall|j: int|
            0 <= j < s.drop_first().len() && j != i - 1 ==> (#[trigger] s.drop_first()[j]).0
                != s.drop_first()[i - 1].0);
        lemma_campaign_lookup_update(s.drop_first(), i - 1, p, id);
    }
}

} // verus!
