use vstd::prelude::*;

use crate::address::{address_pubkey_hash, decode_address};
use crate::bitcoin_tx::{
    aux_view, build_check, build_post, build_unsigned, digest_of, ser_tx_with_script, sig_script,
    signing_digest, finalize_signed, UnsignedTransaction,
};
use crate::ecdsa::{extract_signature, get_sig, sig_of_response};
use crate::errors::Error;
use crate::external::{SignRequest, SignatureResponse};
use crate::hexcodec::{hex_encode, hex_of_bytes};
use crate::numfmt::{dec_str, u128_to_string};
use crate::registry::{consume_rel, spec_lookup, ClaimKeyRegistry};
use crate::store::{
    campaign_lookup, drop_lookup, keys_contain, keys_minus, keys_without, unique_campaign_ids,
    unique_drop_hashes, Campaign, Drop,
    lemma_campaign_lookup_absent, lemma_campaign_lookup_push, lemma_campaign_lookup_update,
    lemma_drop_lookup_absent, lemma_drop_lookup_at, lemma_drop_lookup_push,
    lemma_drop_lookup_update, lemma_keys_minus_props, lemma_unique_drop_update,
};

verus! {

/// The auxiliary payload a drop embeds, as a character sequence.
pub open spec fn aux_of(d: Drop) -> Option<Seq<char>> {
    match d.op_return_hex {
        Some(s) => Some(s@),
        None => None,
    }
}

/// The continuation state of one claim attempt, held across the
/// asynchronous signing boundary: the request handed to the remote signer,
/// the unsigned transaction, the funder's public-key hash needed to
/// finalize, and the hash of the drop being redeemed.
pub struct PendingClaim {
    pub request: SignRequest,
    pub tx: UnsignedTransaction,
    pub pubkey_hash: Vec<u8>,
    pub drop_hash: String,
}

impl PendingClaim {
    /// What finalization relies on: a well-formed transaction and a
    /// 20-byte public-key hash.
    pub open spec fn wf(self) -> bool {
        self.tx.wf() && self.pubkey_hash@.len() == 20
    }
}

/// The whole shared state: the operator identity, the campaign catalog,
/// the drop catalog, the authorization key, and the one-time-use claim
/// credential registry.
pub struct Contract {
    pub owner_id: String,
    pub campaign_id: u128,
    pub campaigns: Vec<(u128, Campaign)>,
    pub drops: Vec<Drop>,
    pub auth_public_key: String,
    pub drop_by_key: ClaimKeyRegistry,
}

impl Contract {
    /// The contract's invariant. Besides uniqueness of every identifier,
    /// the registry and the drops' own credential lists agree on
    /// membership in both directions, and every drop's campaign exists.
    pub open spec fn wf(self) -> bool {
        &&& self.drop_by_key.wf()
        &&& unique_drop_hashes(self.drops@)
        &&& unique_campaign_ids(self.campaigns@)
        &&& forall|i: int|
            0 <= i < self.campaigns@.len() ==> (#[trigger] self.campaigns@[i]).0
                < self.campaign_id
        &&& forall|k: Seq<char>|
            (#[trigger] spec_lookup(self.drop_by_key.entries@, k)) matches Some(h)
                ==> (drop_lookup(self.drops@, h) matches Some(d) && keys_contain(d.keys@, k))
        &&& forall|i: int, j: int|
            #![trigger self.drops@[i].keys@[j]]
            0 <= i < self.drops@.len() && 0 <= j < self.drops@[i].keys@.len() ==> spec_lookup(
                self.drop_by_key.entries@,
                self.drops@[i].keys@[j]@,
            ) == Some(self.drops@[i].hash@)
        &&& forall|i: int|
            0 <= i < self.drops@.len() ==> campaign_lookup(
                self.campaigns@,
                (#[trigger] self.drops@[i]).campaign_id,
            ) is Some
    }

    /// The drop a credential currently authorizes, if any.
    pub open spec fn credential_drop(self, k: Seq<char>) -> Option<Drop> {
        match spec_lookup(self.drop_by_key.entries@, k) {
            Some(h) => drop_lookup(self.drops@, h),
            None => None,
        }
    }

    /// A fresh contract owned by `owner_id`: no campaigns, no drops, no
    /// credentials.
    pub fn init(owner_id: String, auth_public_key: String) -> (r: Self)
        ensures
            r.wf(),
            r.owner_id@ == owner_id@,
            r.campaign_id == 0,
            r.campaigns@.len() == 0,
            r.drops@.len() == 0,
            r.drop_by_key.entries@.len() == 0,
            r.auth_public_key@ == auth_public_key@,
    {
        let r = Contract {
            owner_id,
            campaign_id: 0u128,
            campaigns: Vec::new(),
            drops: Vec::new(),
            auth_public_key,
            drop_by_key: ClaimKeyRegistry::new(),
        };
        r
    }

    /// The index of the drop carrying `hash`, if any.
    fn find_drop_index(&self, hash: &String) -> (r: Option<usize>)
        requires
            unique_drop_hashes(self.drops@),
        ensures
            r matches Some(i) ==> i < self.drops@.len() && self.drops@[i as int].hash@ == hash@
                && drop_lookup(self.drops@, hash@) == Some(self.drops@[i as int]),
            r is None <==> drop_lookup(self.drops@, hash@) is None,
    {
        let n: usize = self.drops.len();
        let mut i: usize = 0;
        while i < n
            invariant
                i <= n,
                n == self.drops@.len(),
                unique_drop_hashes(self.drops@),
                forall|j: int| 0 <= j < i ==> (#[trigger] self.drops@[j]).hash@ != hash@,
            decreases n - i,
        {
            if self.drops[i].hash == *hash {
                proof {
                    lemma_drop_lookup_at(self.drops@, i as int);
                }
                return Some(i);
            }
            i = i + 1;
        }
        proof {
            lemma_drop_lookup_absent(self.drops@, hash@);
        }
        None
    }

    /// The index of the campaign carrying `campaign_id`, if any.
    fn find_campaign_index(&self, campaign_id: u128) -> (r: Option<usize>)
        ensures
            r matches Some(i) ==> i < self.campaigns@.len() && self.campaigns@[i as int].0
                == campaign_id && campaign_lookup(self.campaigns@, campaign_id) == Some(
                self.campaigns@[i as int].1,
            ),
            r is None <==> campaign_lookup(self.campaigns@, campaign_id) is None,
    {
        let n: usize = self.campaigns.len();
        let mut i: usize = 0;
        while i < n
            invariant
                i <= n,
                n == self.campaigns@.len(),
                forall|j: int| 0 <= j < i ==> (#[trigger] self.campaigns@[j]).0 != campaign_id,
            decreases n - i,
        {
            if self.campaigns[i].0 == campaign_id {
                proof {
                    lemma_campaign_found_at(self.campaigns@, i as int);
                }
                return Some(i);
            }
            i = i + 1;
        }
        proof {
            lemma_campaign_lookup_absent(self.campaigns@, campaign_id);
        }
        None
    }

    /// Creates a new campaign under the caller's identity and returns its
    /// decimal identifier. Identifiers increase monotonically.
    pub fn create_campaign(
        &mut self,
        caller: String,
        funding_address: String,
        path: String,
        search_terms: Vec<String>,
        twitter_handle: String,
        now: u64,
    ) -> (r: String)
        requires
            old(self).wf(),
            old(self).campaign_id < u128::MAX,
        ensures
            final(self).wf(),
            r@ == dec_str(old(self).campaign_id as nat),
            final(self).campaign_id == old(self).campaign_id + 1,
            final(self).campaigns@.len() == old(self).campaigns@.len() + 1,
            final(self).campaigns@.take(old(self).campaigns@.len() as int) == old(self).campaigns@,
            campaign_lookup(final(self).campaigns@, old(self).campaign_id) matches Some(c) && {
                &&& c.creator@ == caller@
                &&& c.funding_address@ == funding_address@
                &&& c.path@ == path@
                &&& c.created_at == now
                &&& c.search_terms == search_terms
                &&& c.twitter_handle@ == twitter_handle@
            },
            forall|id: u128|
                id != old(self).campaign_id ==> campaign_lookup(final(self).campaigns@, id)
                    == campaign_lookup(old(self).campaigns@, id),
            final(self).drops@ == old(self).drops@,
            final(self).drop_by_key.entries@ == old(self).drop_by_key.entries@,
            final(self).owner_id == old(self).owner_id,
            final(self).auth_public_key == old(self).auth_public_key,
    {
        let id = self.campaign_id;
        self.campaign_id = self.campaign_id + 1;
        let campaign = Campaign {
            creator: caller,
            path,
            funding_address,
            created_at: now,
            search_terms,
            twitter_handle,
        };
        let ghost pre = self.campaigns@;
        let pair = (id, campaign);
        self.campaigns.push(pair);
        proof {
            lemma_campaign_lookup_absent(pre, id);
            assert forall|x: u128| #![auto] true implies campaign_lookup(self.campaigns@, x) == (
            if campaign_lookup(pre, x) is Some {
                campaign_lookup(pre, x)
            } else if id == x {
                Some(pair.1)
            } else {
                None::<Campaign>
            }) by {
                lemma_campaign_lookup_push(pre, pair, x);
            }
            assert(forall|j: int| 0 <= j < pre.len() ==> (#[trigger] self.campaigns@[j]) == pre[j]);
            assert(self.campaigns@[pre.len() as int] == pair);
            assert(self.campaigns@.take(pre.len() as int) =~= pre);
        }
        u128_to_string(id)
    }

    /// The campaign stored under an identifier, if any.
    pub fn get_campaign(&self, campaign_id: u128) -> (r: Option<&Campaign>)
        ensures
            match r {
                Some(c) => campaign_lookup(self.campaigns@, campaign_id) == Some(*c),
                None => campaign_lookup(self.campaigns@, campaign_id) is None,
            },
    {
        match self.find_campaign_index(campaign_id) {
            Some(i) => Some(&self.campaigns[i].1),
            None => None,
        }
    }

    /// The drop stored under a hash, if any.
    pub fn get_drop(&self, hash: &String) -> (r: Option<&Drop>)
        requires
            unique_drop_hashes(self.drops@),
        ensures
            match r {
                Some(d) => drop_lookup(self.drops@, hash@) == Some(*d),
                None => drop_lookup(self.drops@, hash@) is None,
            },
    {
        match self.find_drop_index(hash) {
            Some(i) => Some(&self.drops[i]),
            None => None,
        }
    }

    /// The current authorization public key.
    pub fn get_auth_public_key(&self) -> (r: String)
        ensures
            r@ == self.auth_public_key@,
    {
        self.auth_public_key.clone()
    }

    /// Every campaign, with its identifier.
    pub fn get_campaigns(&self) -> (r: &Vec<(u128, Campaign)>)
        ensures
            r@ == self.campaigns@,
    {
        &self.campaigns
    }

    /// Every drop in the catalog.
    pub fn get_all_drops(&self) -> (r: &Vec<Drop>)
        ensures
            r@ == self.drops@,
    {
        &self.drops
    }

    /// Creates a drop against an existing campaign, copying the funding
    /// address and derivation path the campaign was created with. Only the
    /// operator may add drops, the campaign must exist, and the hash must
    /// be fresh; all three are checked before anything is stored.
    pub fn add_drop(
        &mut self,
        caller: &String,
        campaign_id: u128,
        amount: u128,
        target_twitter_handle: String,
        target_tweet_id: String,
        hash: String,
        op_return_hex: Option<String>,
    ) -> (r: Result<(), Error>)
        requires
            old(self).wf(),
        ensures
            final(self).wf(),
            r is Err ==> *final(self) == *old(self),
            (r == Err::<(), Error>(Error::Unauthorized)) <==> caller@ != old(self).owner_id@,
            caller@ == old(self).owner_id@ ==> ((r == Err::<(), Error>(Error::UnknownCampaign))
                <==> campaign_lookup(old(self).campaigns@, campaign_id) is None),
            caller@ == old(self).owner_id@ && campaign_lookup(
                old(self).campaigns@,
                campaign_id,
            ) is Some ==> ((r == Err::<(), Error>(Error::DuplicateDrop)) <==> drop_lookup(
                old(self).drops@,
                hash@,
            ) is Some),
            r is Ok <==> (caller@ == old(self).owner_id@ && campaign_lookup(
                old(self).campaigns@,
                campaign_id,
            ) is Some && drop_lookup(old(self).drops@, hash@) is None),
            r is Ok ==> {
                &&& final(self).drops@.len() == old(self).drops@.len() + 1
                &&& final(self).drops@.take(old(self).drops@.len() as int) == old(self).drops@
                &&& (drop_lookup(final(self).drops@, hash@) matches Some(d) && {
                    &&& d.campaign_id == campaign_id
                    &&& d.amount == amount
                    &&& (campaign_lookup(old(self).campaigns@, campaign_id) matches Some(c)
                        && d.funder@ == c.funding_address@ && d.path@ == c.path@)
                    &&& d.keys@.len() == 0
                    &&& d.op_return_hex == op_return_hex
                    &&& d.target_twitter_handle@ == target_twitter_handle@
                    &&& d.target_tweet_id@ == target_tweet_id@
                    &&& d.hash@ == hash@
                    &&& !d.claimed
                    &&& d.claimed_by is None
                })
                &&& (forall|h2: Seq<char>|
                    h2 != hash@ ==> drop_lookup(final(self).drops@, h2) == drop_lookup(
                        old(self).drops@,
                        h2,
                    ))
                &&& final(self).campaigns@ == old(self).campaigns@
                &&& final(self).drop_by_key.entries@ == old(self).drop_by_key.entries@
                &&& final(self).campaign_id == old(self).campaign_id
                &&& final(self).owner_id == old(self).owner_id
                &&& final(self).auth_public_key == old(self).auth_public_key
            },
    {
        if !(*caller == self.owner_id) {
            return Err(Error::Unauthorized);
        }
        let ci = match self.find_campaign_index(campaign_id) {
            Some(i) => i,
            None => {
                return Err(Error::UnknownCampaign);
            },
        };
        if self.find_drop_index(&hash).is_some() {
            return Err(Error::DuplicateDrop);
        }
        let funder = self.campaigns[ci].1.funding_address.clone();
        let path = self.campaigns[ci].1.path.clone();
        let ghost hview = hash@;
        let drop = Drop {
            campaign_id: campaign_id,
            amount: amount,
            funder: funder,
            path: path,
            keys: Vec::new(),
            op_return_hex: op_return_hex,
            target_twitter_handle: target_twitter_handle,
            target_tweet_id: target_tweet_id,
            hash: hash,
            claimed: false,
            claimed_by: None,
        };
        let ghost pre = self.drops@;
        let ghost dghost = drop;
        self.drops.push(drop);
        proof {
            lemma_drop_lookup_absent(pre, hview);
            assert forall|h2: Seq<char>| #![auto] true implies drop_lookup(self.drops@, h2) == (
            if drop_lookup(pre, h2) is Some {
                drop_lookup(pre, h2)
            } else if hview == h2 {
                Some(dghost)
            } else {
                None::<Drop>
            }) by {
                lemma_drop_lookup_push(pre, dghost, h2);
            }
            assert(forall|j: int| 0 <= j < pre.len() ==> (#[trigger] self.drops@[j]) == pre[j]);
            assert(self.drops@[pre.len() as int] == dghost);
            assert(self.drops@.take(pre.len() as int) =~= pre);
            assert forall|k2: Seq<char>| (#[trigger] spec_lookup(
                self.drop_by_key.entries@,
                k2,
            )) is Some implies {
                let h = spec_lookup(self.drop_by_key.entries@, k2)->Some_0;
                drop_lookup(self.drops@, h) matches Some(d) && keys_contain(d.keys@, k2)
            } by {
                let h = spec_lookup(self.drop_by_key.entries@, k2)->Some_0;
                assert(drop_lookup(pre, h) matches Some(d) && keys_contain(d.keys@, k2));
            }
        }
        Ok(())
    }

    /// Attaches a claim credential to a drop. A credential already bound —
    /// to this drop or any other — is silently left as it is and `false`
    /// is returned; a fresh credential is bound in the registry, appended
    /// to the drop's own list, and `true` is returned. Operator only.
    pub fn add_drop_key(&mut self, caller: &String, hash: &String, key: String) -> (r: Result<
        bool,
        Error,
    >)
        requires
            old(self).wf(),
        ensures
            final(self).wf(),
            r is Err ==> *final(self) == *old(self),
            (r == Err::<bool, Error>(Error::Unauthorized)) <==> caller@ != old(self).owner_id@,
            caller@ == old(self).owner_id@ ==> ((r == Err::<bool, Error>(Error::UnknownDrop))
                <==> drop_lookup(old(self).drops@, hash@) is None),
            r is Ok <==> (caller@ == old(self).owner_id@ && drop_lookup(
                old(self).drops@,
                hash@,
            ) is Some),
            r matches Ok(b) ==> {
                &&& b == (spec_lookup(old(self).drop_by_key.entries@, key@) is None)
                &&& (!b ==> *final(self) == *old(self))
                &&& (b ==> {
                    &&& crate::registry::bind_rel(
                        old(self).drop_by_key.entries@,
                        final(self).drop_by_key.entries@,
                        key@,
                        hash@,
                    )
                    &&& (drop_lookup(final(self).drops@, hash@) matches Some(d2) && drop_lookup(
                        old(self).drops@,
                        hash@,
                    ) matches Some(d) && {
                        &&& d2.keys@.len() == d.keys@.len() + 1
                        &&& d2.keys@.take(d.keys@.len() as int) == d.keys@
                        &&& d2.keys@[d.keys@.len() as int]@ == key@
                        &&& d2.hash@ == d.hash@
                        &&& d2.campaign_id == d.campaign_id
                        &&& d2.amount == d.amount
                        &&& d2.funder == d.funder
                        &&& d2.path == d.path
                        &&& d2.op_return_hex == d.op_return_hex
                        &&& d2.claimed == d.claimed
                        &&& d2.claimed_by == d.claimed_by
                    })
                    &&& (forall|h2: Seq<char>|
                        h2 != hash@ ==> drop_lookup(final(self).drops@, h2) == drop_lookup(
                            old(self).drops@,
                            h2,
                        ))
                    &&& final(self).campaigns@ == old(self).campaigns@
                })
            },
    {
        if !(*caller == self.owner_id) {
            return Err(Error::Unauthorized);
        }
        let di = match self.find_drop_index(hash) {
            Some(i) => i,
            None => {
                return Err(Error::UnknownDrop);
            },
        };
        let ghost c0 = *self;
        let newly = self.drop_by_key.bind(key.clone(), hash.clone());
        if !newly {
            return Ok(false);
        }
        let mut d = self.drops.remove(di);
        let ghost dpre = d;
        d.keys.push(key);
        self.drops.insert(di, d);
        proof {
            assert(self.drops@ =~= c0.drops@.update(di as int, self.drops@[di as int]));
            lemma_wf_after_attach(c0, *self, di as int, key@);
        }
        Ok(true)
    }

    /// Revokes a credential: removes it from the registry and from the
    /// owning drop's own credential list. Operator only; revoking a
    /// credential that is not bound is a silent no-op.
    pub fn remove_key(&mut self, caller: &String, key: &String) -> (r: Result<(), Error>)
        requires
            old(self).wf(),
        ensures
            final(self).wf(),
            r is Err ==> *final(self) == *old(self),
            (r == Err::<(), Error>(Error::Unauthorized)) <==> caller@ != old(self).owner_id@,
            r is Ok <==> caller@ == old(self).owner_id@,
            r is Ok ==> {
                &&& consume_rel(
                    old(self).drop_by_key.entries@,
                    final(self).drop_by_key.entries@,
                    key@,
                )
                &&& final(self).campaigns@ == old(self).campaigns@
                &&& match spec_lookup(old(self).drop_by_key.entries@, key@) {
                    Some(h) => {
                        &&& (drop_lookup(final(self).drops@, h) matches Some(d2) && drop_lookup(
                            old(self).drops@,
                            h,
                        ) matches Some(d) && {
                            &&& d2.keys@ == keys_minus(d.keys@, key@)
                            &&& !keys_contain(d2.keys@, key@)
                            &&& d2.hash@ == d.hash@
                            &&& d2.claimed == d.claimed
                            &&& d2.claimed_by == d.claimed_by
                        })
                        &&& (forall|h2: Seq<char>|
                            h2 != h ==> drop_lookup(final(self).drops@, h2) == drop_lookup(
                                old(self).drops@,
                                h2,
                            ))
                    },
                    None => final(self).drops@ == old(self).drops@,
                }
            },
    {
        if !(*caller == self.owner_id) {
            return Err(Error::Unauthorized);
        }
        let hash = match self.drop_by_key.lookup(key) {
            Some(h) => h,
            None => {
                return Ok(());
            },
        };
        let di = match self.find_drop_index(&hash) {
            Some(i) => i,
            None => {
                proof {
                    assert(false);
                }
                return Ok(());
            },
        };
        let ghost c0 = *self;
        let _ = self.drop_by_key.revoke(key);
        let mut d = self.drops.remove(di);
        let nk = keys_without(&d.keys, key);
        d.keys = nk;
        self.drops.insert(di, d);
        proof {
            assert(self.drops@ =~= c0.drops@.update(di as int, self.drops@[di as int]));
            lemma_wf_after_consume(c0, *self, di as int, key@);
            lemma_keys_minus_props(c0.drops@[di as int].keys@, key@);
        }
        Ok(())
    }

    /// Marks a drop redeemed by `claimant`. Called only once finalization
    /// has succeeded; a drop already claimed is refused, enforcing
    /// exactly-once redemption together with credential consumption.
    pub fn mark_claimed(&mut self, drop_hash: &String, claimant: String) -> (r: Result<(), Error>)
        requires
            old(self).wf(),
        ensures
            final(self).wf(),
            r is Err ==> *final(self) == *old(self),
            (r == Err::<(), Error>(Error::UnknownDrop)) <==> drop_lookup(
                old(self).drops@,
                drop_hash@,
            ) is None,
            (r == Err::<(), Error>(Error::AlreadyClaimed)) <==> (drop_lookup(
                old(self).drops@,
                drop_hash@,
            ) matches Some(d) && d.claimed),
            r is Ok <==> (drop_lookup(old(self).drops@, drop_hash@) matches Some(d) && !d.claimed),
            r is Ok ==> {
                &&& (drop_lookup(final(self).drops@, drop_hash@) matches Some(d2) && drop_lookup(
                    old(self).drops@,
                    drop_hash@,
                ) matches Some(d) && {
                    &&& d2.claimed
                    &&& (d2.claimed_by matches Some(c) && c@ == claimant@)
                    &&& d2.keys@ == d.keys@
                    &&& d2.hash@ == d.hash@
                    &&& d2.amount == d.amount
                    &&& d2.campaign_id == d.campaign_id
                })
                &&& (forall|h2: Seq<char>|
                    h2 != drop_hash@ ==> drop_lookup(final(self).drops@, h2) == drop_lookup(
                        old(self).drops@,
                        h2,
                    ))
                &&& final(self).campaigns@ == old(self).campaigns@
                &&& final(self).drop_by_key.entries@ == old(self).drop_by_key.entries@
            },
    {
        let di = match self.find_drop_index(drop_hash) {
            Some(i) => i,
            None => {
                return Err(Error::UnknownDrop);
            },
        };
        if self.drops[di].claimed {
            return Err(Error::AlreadyClaimed);
        }
        let ghost c0 = *self;
        let mut d = self.drops.remove(di);
        d.claimed = true;
        d.claimed_by = Some(claimant);
        self.drops.insert(di, d);
        proof {
            assert(self.drops@ =~= c0.drops@.update(di as int, self.drops@[di as int]));
            lemma_wf_after_drop_update(c0, *self, di as int);
        }
        Ok(())
    }

    /// Replaces the authorization public key. Operator only; the new key
    /// must be 64 hexadecimal characters (32 bytes).
    pub fn set_auth_public_key(&mut self, caller: &String, new_key: String) -> (r: Result<
        (),
        Error,
    >)
        requires
            old(self).wf(),
        ensures
            final(self).wf(),
            r is Err ==> *final(self) == *old(self),
            (r == Err::<(), Error>(Error::Unauthorized)) <==> caller@ != old(self).owner_id@,
            caller@ == old(self).owner_id@ ==> ((r == Err::<(), Error>(Error::MalformedInput))
                <==> !(new_key@.len() == 64 && crate::hexcodec::is_hex_seq(new_key@))),
            r is Ok <==> (caller@ == old(self).owner_id@ && new_key@.len() == 64
                && crate::hexcodec::is_hex_seq(new_key@)),
            r is Ok ==> {
                &&& final(self).auth_public_key@ == new_key@
                &&& final(self).drops@ == old(self).drops@
                &&& final(self).campaigns@ == old(self).campaigns@
                &&& final(self).drop_by_key.entries@ == old(self).drop_by_key.entries@
            },
    {
        if !(*caller == self.owner_id) {
            return Err(Error::Unauthorized);
        }
        let valid = match crate::hexcodec::hex_decode(new_key.as_str()) {
            Some(b) => b.len() == 32,
            None => false,
        };
        if !valid {
            return Err(Error::MalformedInput);
        }
        self.auth_public_key = new_key;
        Ok(())
    }

    /// Replaces a campaign's search terms. Only the campaign's creator may
    /// do so.
    pub fn update_search_terms(
        &mut self,
        caller: &String,
        campaign_id: u128,
        search_terms: Vec<String>,
    ) -> (r: Result<(), Error>)
        requires
            old(self).wf(),
        ensures
            final(self).wf(),
            r is Err ==> *final(self) == *old(self),
            (r == Err::<(), Error>(Error::UnknownCampaign)) <==> campaign_lookup(
                old(self).campaigns@,
                campaign_id,
            ) is None,
            campaign_lookup(old(self).campaigns@, campaign_id) matches Some(c) ==> ((r == Err::<
                (),
                Error,
            >(Error::Unauthorized)) <==> caller@ != c.creator@),
            r is Ok <==> (campaign_lookup(old(self).campaigns@, campaign_id) matches Some(c)
                && caller@ == c.creator@),
            r is Ok ==> {
                &&& (campaign_lookup(final(self).campaigns@, campaign_id) matches Some(c2)
                    && campaign_lookup(old(self).campaigns@, campaign_id) matches Some(c) && {
                    &&& c2.search_terms == search_terms
                    &&& c2.creator == c.creator
                    &&& c2.funding_address == c.funding_address
                    &&& c2.path == c.path
                    &&& c2.created_at == c.created_at
                    &&& c2.twitter_handle == c.twitter_handle
                })
                &&& (forall|id2: u128|
                    id2 != campaign_id ==> campaign_lookup(final(self).campaigns@, id2)
                        == campaign_lookup(old(self).campaigns@, id2))
                &&& final(self).drops@ == old(self).drops@
                &&& final(self).drop_by_key.entries@ == old(self).drop_by_key.entries@
            },
    {
        let ci = match self.find_campaign_index(campaign_id) {
            Some(i) => i,
            None => {
                return Err(Error::UnknownCampaign);
            },
        };
        if !(*caller == self.campaigns[ci].1.creator) {
            return Err(Error::Unauthorized);
        }
        let ghost pre = self.campaigns@;
        let (id, mut c) = self.campaigns.remove(ci);
        c.search_terms = search_terms;
        let pair = (id, c);
        self.campaigns.insert(ci, pair);
        proof {
            assert(self.campaigns@ =~= pre.update(ci as int, self.campaigns@[ci as int]));
            assert(forall|j: int|
                0 <= j < pre.len() && j != ci ==> (#[trigger] pre[j]).0 != pre[ci as int].0);
            assert forall|id2: u128| #![auto] true implies campaign_lookup(self.campaigns@, id2)
                == (if id2 == campaign_id {
                Some(self.campaigns@[ci as int].1)
            } else {
                campaign_lookup(pre, id2)
            }) by {
                lemma_campaign_lookup_update(
                    pre,
                    ci as int,
                    self.campaigns@[ci as int],
                    id2,
                );
            }
            assert(forall|i: int|
                0 <= i < self.campaigns@.len() ==> (#[trigger] self.campaigns@[i]).0 == pre[i].0);
        }
        Ok(())
    }

    /// The synchronous half of redeeming a claim: resolves the credential
    /// to its drop, assembles the unsigned withdrawal transaction from the
    /// stored drop parameters and the caller-supplied spend parameters,
    /// computes the signing digest, and consumes the credential — removing
    /// it from the registry and the drop's own list — before the signing
    /// request leaves. Once this returns the request, a second claim with
    /// the same credential deterministically fails, whatever the remote
    /// signer later answers. Malformed inputs are rejected before any
    /// state changes.
    pub fn claim(
        &mut self,
        signer_key: &String,
        txid_str: &str,
        vout: u32,
        receiver: &str,
        change: u128,
    ) -> (r: Result<PendingClaim, Error>)
        requires
            old(self).wf(),
        ensures
            final(self).wf(),
            r is Err ==> *final(self) == *old(self),
            (r == Err::<PendingClaim, Error>(Error::UnknownCredential)) <==> spec_lookup(
                old(self).drop_by_key.entries@,
                signer_key@,
            ) is None,
            old(self).credential_drop(signer_key@) matches Some(d) ==> {
                &&& (r is Ok <==> build_check(
                    txid_str@,
                    d.funder@,
                    receiver@,
                    d.amount,
                    change,
                    aux_of(d),
                ) is Ok)
                &&& (r matches Err(e) ==> build_check(
                    txid_str@,
                    d.funder@,
                    receiver@,
                    d.amount,
                    change,
                    aux_of(d),
                ) == Err::<(), Error>(e))
                &&& (r matches Ok(p) ==> {
                    &&& p.wf()
                    &&& build_post(
                        Ok(p.tx),
                        txid_str@,
                        vout,
                        d.funder@,
                        receiver@,
                        d.amount,
                        change,
                        aux_of(d),
                    )
                    &&& p.request.payload@ == digest_of(p.tx)
                    &&& p.request.path@ == d.path@
                    &&& p.request.key_version == 0
                    &&& Some(p.pubkey_hash@) == address_pubkey_hash(d.funder@)
                    &&& p.drop_hash@ == d.hash@
                    &&& consume_rel(
                        old(self).drop_by_key.entries@,
                        final(self).drop_by_key.entries@,
                        signer_key@,
                    )
                    &&& (drop_lookup(final(self).drops@, d.hash@) matches Some(d2) && {
                        &&& d2.keys@ == keys_minus(d.keys@, signer_key@)
                        &&& !keys_contain(d2.keys@, signer_key@)
                        &&& d2.hash@ == d.hash@
                        &&& d2.claimed == d.claimed
                        &&& d2.claimed_by == d.claimed_by
                        &&& d2.amount == d.amount
                    })
                    &&& (forall|h2: Seq<char>|
                        h2 != d.hash@ ==> drop_lookup(final(self).drops@, h2) == drop_lookup(
                            old(self).drops@,
                            h2,
                        ))
                    &&& final(self).campaigns@ == old(self).campaigns@
                })
            },
    {
        let hash = match self.drop_by_key.lookup(signer_key) {
            Some(h) => h,
            None => {
                return Err(Error::UnknownCredential);
            },
        };
        let di = match self.find_drop_index(&hash) {
            Some(i) => i,
            None => {
                proof {
                    assert(false);
                }
                return Err(Error::UnknownDrop);
            },
        };
        let aux: Option<&str> = match &self.drops[di].op_return_hex {
            Some(s) => Some(s.as_str()),
            None => None,
        };
        proof {
            assert(aux_view(aux) == aux_of(self.drops@[di as int]));
        }
        let tx = match build_unsigned(
            txid_str,
            vout,
            self.drops[di].funder.as_str(),
            receiver,
            self.drops[di].amount,
            change,
            aux,
        ) {
            Ok(t) => t,
            Err(e) => {
                return Err(e);
            },
        };
        let pubkey_hash = match decode_address(self.drops[di].funder.as_str()) {
            Ok(h) => h,
            Err(_) => {
                proof {
                    assert(false);
                }
                return Err(Error::InvalidAddress);
            },
        };
        let digest = signing_digest(&tx);
        let path = self.drops[di].path.clone();
        let request = get_sig(digest, path, 0);
        let ghost c0 = *self;
        let _ = self.drop_by_key.revoke(signer_key);
        let mut d = self.drops.remove(di);
        let nk = keys_without(&d.keys, signer_key);
        d.keys = nk;
        self.drops.insert(di, d);
        proof {
            assert(self.drops@ =~= c0.drops@.update(di as int, self.drops@[di as int]));
            lemma_wf_after_consume(c0, *self, di as int, signer_key@);
            lemma_keys_minus_props(c0.drops@[di as int].keys@, signer_key@);
        }
        Ok(PendingClaim { request: request, tx: tx, pubkey_hash: pubkey_hash, drop_hash: hash })
    }

    /// The continuation invoked exactly once when the remote signer
    /// replies. On a reply carrying a decodable signature it finalizes the
    /// signed transaction, marks the drop claimed by `claimant`, and
    /// returns the hex-encoded wire bytes. On no reply, or a reply whose
    /// components do not decode, it surfaces an opaque remote failure,
    /// finalizes nothing and marks nothing — the credential, consumed when
    /// the claim was made, stays consumed either way.
    pub fn callback(
        &mut self,
        pending: PendingClaim,
        response: Option<SignatureResponse>,
        claimant: String,
    ) -> (r: Result<String, Error>)
        requires
            old(self).wf(),
            pending.wf(),
        ensures
            final(self).wf(),
            r is Err ==> *final(self) == *old(self),
            response is None ==> r == Err::<String, Error>(Error::RemoteSigningFailure),
            (response matches Some(resp) && sig_of_response(resp) is None) ==> r == Err::<
                String,
                Error,
            >(Error::RemoteSigningFailure),
            (response matches Some(resp) && sig_of_response(resp) is Some) ==> {
                let sig = sig_of_response(response->Some_0)->Some_0;
                &&& (r is Ok <==> (drop_lookup(old(self).drops@, pending.drop_hash@) matches Some(
                    d,
                ) && !d.claimed))
                &&& ((r == Err::<String, Error>(Error::UnknownDrop)) <==> drop_lookup(
                    old(self).drops@,
                    pending.drop_hash@,
                ) is None)
                &&& ((r == Err::<String, Error>(Error::AlreadyClaimed)) <==> (drop_lookup(
                    old(self).drops@,
                    pending.drop_hash@,
                ) matches Some(d) && d.claimed))
                &&& (r matches Ok(hex) ==> {
                    &&& hex@ == hex_of_bytes(
                        ser_tx_with_script(pending.tx, sig_script(sig, pending.pubkey_hash@)),
                    )
                    &&& (drop_lookup(final(self).drops@, pending.drop_hash@) matches Some(d2)
                        && d2.claimed && (d2.claimed_by matches Some(c) && c@ == claimant@))
                    &&& (forall|h2: Seq<char>|
                        h2 != pending.drop_hash@ ==> drop_lookup(final(self).drops@, h2)
                            == drop_lookup(old(self).drops@, h2))
                    &&& final(self).campaigns@ == old(self).campaigns@
                    &&& final(self).drop_by_key.entries@ == old(self).drop_by_key.entries@
                })
            },
    {
        let resp = match response {
            Some(x) => x,
            None => {
                return Err(Error::RemoteSigningFailure);
            },
        };
        let sig = match extract_signature(&resp) {
            Ok(s) => s,
            Err(e) => {
                return Err(e);
            },
        };
        let bytes = finalize_signed(&pending.tx, &sig, &pending.pubkey_hash);
        let hex = hex_encode(&bytes);
        match self.mark_claimed(&pending.drop_hash, claimant) {
            Ok(()) => Ok(hex),
            Err(e) => Err(e),
        }
    }

    /// The hashes of all drops belonging to a campaign, in catalog order.
    pub fn get_campaign_drops(&self, campaign_id: u128) -> (r: Vec<String>)
        ensures
            r@ == crate::store::hashes_of_campaign(self.drops@, campaign_id),
    {
        let mut r: Vec<String> = Vec::new();
        let mut i: usize = 0;
        proof {
            assert(self.drops@.take(0) =~= Seq::<Drop>::empty());
        }
        while i < self.drops.len()
            invariant
                i <= self.drops@.len(),
                r@ == crate::store::hashes_of_campaign(self.drops@.take(i as int), campaign_id),
            decreases self.drops@.len() - i,
        {
            proof {
                crate::store::lemma_hashes_of_campaign_snoc(
                    self.drops@.take(i as int),
                    self.drops@[i as int],
                    campaign_id,
                );
                assert(self.drops@.take(i + 1) =~= self.drops@.take(i as int).push(
                    self.drops@[i as int],
                ));
            }
            if self.drops[i].campaign_id == campaign_id {
                let h = self.drops[i].hash.clone();
                assert(h == self.drops@[i as int].hash);
                r.push(h);
                assert(r@ =~= crate::store::hashes_of_campaign(self.drops@.take(i as int), campaign_id)
                    + seq![self.drops@[i as int].hash]);
            }
            i = i + 1;
        }
        assert(self.drops@.take(self.drops@.len() as int) =~= self.drops@);
        r
    }

    /// The index of some drop belonging to the campaign, if one exists.
    fn find_drop_of_campaign(&self, campaign_id: u128) -> (r: Option<usize>)
        ensures
            r matches Some(i) ==> i < self.drops@.len() && self.drops@[i as int].campaign_id
                == campaign_id,
            r is None ==> forall|i: int|
                0 <= i < self.drops@.len() ==> (#[trigger] self.drops@[i]).campaign_id
                    != campaign_id,
    {
        let n: usize = self.drops.len();
        let mut i: usize = 0;
        while i < n
            invariant
                i <= n,
                n == self.drops@.len(),
                forall|j: int| 0 <= j < i ==> (#[trigger] self.drops@[j]).campaign_id != campaign_id,
            decreases n - i,
        {
            if self.drops[i].campaign_id == campaign_id {
                return Some(i);
            }
            i = i + 1;
        }
        None
    }

    /// Removes the drop at `di` and revokes every credential bound to it.
    fn purge_drop(&mut self, di: usize)
        requires
            old(self).wf(),
            di < old(self).drops@.len(),
        ensures
            final(self).wf(),
            final(self).drops@ == old(self).drops@.remove(di as int),
            drop_lookup(final(self).drops@, old(self).drops@[di as int].hash@) is None,
            forall|h: Seq<char>|
                h != old(self).drops@[di as int].hash@ ==> drop_lookup(final(self).drops@, h)
                    == drop_lookup(old(self).drops@, h),
            forall|k: Seq<char>|
                #![trigger spec_lookup(final(self).drop_by_key.entries@, k)]
                spec_lookup(final(self).drop_by_key.entries@, k) == (if spec_lookup(
                    old(self).drop_by_key.entries@,
                    k,
                ) == Some(old(self).drops@[di as int].hash@) {
                    None::<Seq<char>>
                } else {
                    spec_lookup(old(self).drop_by_key.entries@, k)
                }),
            final(self).campaigns@ == old(self).campaigns@,
            final(self).campaign_id == old(self).campaign_id,
            final(self).owner_id == old(self).owner_id,
            final(self).auth_public_key == old(self).auth_public_key,
    {
        let ghost c0 = *self;
        let ghost r0 = self.drop_by_key.entries@;
        let d = self.drops.remove(di);
        let ghost hash = d.hash@;
        proof {
            assert(d == c0.drops@[di as int]);
            assert(forall|j: int|
                0 <= j < c0.drops@.len() && j != di ==> (#[trigger] c0.drops@[j]).hash@ != hash);
            crate::store::lemma_drop_lookup_at(c0.drops@, di as int);
            assert(d.keys@.take(0) =~= Seq::<String>::empty());
        }
        let mut j: usize = 0;
        while j < d.keys.len()
            invariant
                j <= d.keys@.len(),
                self.drop_by_key.wf(),
                forall|k: Seq<char>|
                    #![trigger spec_lookup(self.drop_by_key.entries@, k)]
                    spec_lookup(self.drop_by_key.entries@, k) == (if keys_contain(
                        d.keys@.take(j as int),
                        k,
                    ) {
                        None::<Seq<char>>
                    } else {
                        spec_lookup(r0, k)
                    }),
                self.drops@ == c0.drops@.remove(di as int),
                self.campaigns@ == c0.campaigns@,
                self.campaign_id == c0.campaign_id,
                self.owner_id == c0.owner_id,
                self.auth_public_key == c0.auth_public_key,
            decreases d.keys@.len() - j,
        {
            let _ = self.drop_by_key.revoke(&d.keys[j]);
            proof {
                assert(d.keys@.take(j + 1) =~= d.keys@.take(j as int).push(d.keys@[j as int]));
                assert forall|k: Seq<char>| #![auto] true implies keys_contain(
                    d.keys@.take(j + 1),
                    k,
                ) == (keys_contain(d.keys@.take(j as int), k) || d.keys@[j as int]@ == k) by {
                    crate::store::lemma_keys_contain_snoc(
                        d.keys@.take(j as int),
                        d.keys@[j as int],
                        k,
                    );
                }
            }
            j = j + 1;
        }
        proof {
            assert(d.keys@.take(d.keys@.len() as int) =~= d.keys@);
            let r1 = self.drop_by_key.entries@;
            let d1 = self.drops@;
            // A credential is bound to this drop exactly when it sits in
            // the drop's own list.
            assert forall|k: Seq<char>| #![auto] true implies (keys_contain(d.keys@, k) <==> (
            spec_lookup(r0, k) == Some(hash))) by {
                if keys_contain(d.keys@, k) {
                    let j0 = choose|j0: int|
                        0 <= j0 < d.keys@.len() && (#[trigger] d.keys@[j0])@ == k;
                    assert(c0.drops@[di as int].keys@[j0]@ == k);
                    assert(spec_lookup(r0, k) == Some(hash));
                }
                if spec_lookup(r0, k) == Some(hash) {
                    assert(drop_lookup(c0.drops@, hash) matches Some(dd) && keys_contain(
                        dd.keys@,
                        k,
                    ));
                }
            }
            crate::store::lemma_unique_drop_remove(c0.drops@, di as int);
            crate::store::lemma_drop_lookup_remove_same(c0.drops@, di as int);
            assert forall|h: Seq<char>| h != hash implies drop_lookup(d1, h) == drop_lookup(
                c0.drops@,
                h,
            ) by {
                crate::store::lemma_drop_lookup_remove_other(c0.drops@, di as int, h);
            }
            assert forall|k2: Seq<char>| (#[trigger] spec_lookup(r1, k2)) is Some implies {
                let h = spec_lookup(r1, k2)->Some_0;
                drop_lookup(d1, h) matches Some(dd) && keys_contain(dd.keys@, k2)
            } by {
                assert(spec_lookup(r1, k2) == spec_lookup(r0, k2));
                assert(spec_lookup(r0, k2) != Some(hash));
                let h = spec_lookup(r0, k2)->Some_0;
                assert(drop_lookup(c0.drops@, h) matches Some(dd) && keys_contain(dd.keys@, k2));
                assert(h != hash);
            }
            assert forall|i: int, j2: int|
                #![trigger d1[i].keys@[j2]]
                0 <= i < d1.len() && 0 <= j2 < d1[i].keys@.len() implies spec_lookup(
                r1,
                d1[i].keys@[j2]@,
            ) == Some(d1[i].hash@) by {
                let iorig: int = if i < di {
                    i
                } else {
                    i + 1
                };
                assert(d1[i] == c0.drops@[iorig]);
                let k2 = d1[i].keys@[j2]@;
                assert(spec_lookup(r0, k2) == Some(c0.drops@[iorig].hash@));
                assert(c0.drops@[iorig].hash@ != hash);
            }
            assert(forall|i: int|
                0 <= i < d1.len() ==> (#[trigger] d1[i]).campaign_id == c0.drops@[(if i < di {
                    i
                } else {
                    i + 1
                }) as int].campaign_id);
        }
    }

    /// Removes a drop outright, revoking every credential bound to it.
    /// Operator only.
    pub fn remove_drop(&mut self, caller: &String, hash: &String) -> (r: Result<(), Error>)
        requires
            old(self).wf(),
        ensures
            final(self).wf(),
            r is Err ==> *final(self) == *old(self),
            (r == Err::<(), Error>(Error::Unauthorized)) <==> caller@ != old(self).owner_id@,
            caller@ == old(self).owner_id@ ==> ((r == Err::<(), Error>(Error::UnknownDrop)) <==>
                drop_lookup(old(self).drops@, hash@) is None),
            r is Ok <==> (caller@ == old(self).owner_id@ && drop_lookup(
                old(self).drops@,
                hash@,
            ) is Some),
            r is Ok ==> {
                &&& drop_lookup(final(self).drops@, hash@) is None
                &&& (forall|h2: Seq<char>|
                    h2 != hash@ ==> drop_lookup(final(self).drops@, h2) == drop_lookup(
                        old(self).drops@,
                        h2,
                    ))
                &&& (forall|k: Seq<char>|
                    #![trigger spec_lookup(final(self).drop_by_key.entries@, k)]
                    spec_lookup(final(self).drop_by_key.entries@, k) == (if spec_lookup(
                        old(self).drop_by_key.entries@,
                        k,
                    ) == Some(hash@) {
                        None::<Seq<char>>
                    } else {
                        spec_lookup(old(self).drop_by_key.entries@, k)
                    }))
                &&& final(self).campaigns@ == old(self).campaigns@
            },
    {
        if !(*caller == self.owner_id) {
            return Err(Error::Unauthorized);
        }
        let di = match self.find_drop_index(hash) {
            Some(i) => i,
            None => {
                return Err(Error::UnknownDrop);
            },
        };
        self.purge_drop(di);
        Ok(())
    }

    /// Deletes a campaign, cascading to its drops and to every credential
    /// bound to them. Allowed to the operator and to the campaign's
    /// creator.
    pub fn delete_campaign(&mut self, caller: &String, campaign_id: u128) -> (r: Result<(), Error>)
        requires
            old(self).wf(),
        ensures
            final(self).wf(),
            r is Err ==> *final(self) == *old(self),
            (r == Err::<(), Error>(Error::UnknownCampaign)) <==> campaign_lookup(
                old(self).campaigns@,
                campaign_id,
            ) is None,
            campaign_lookup(old(self).campaigns@, campaign_id) matches Some(c) ==> ((r == Err::<
                (),
                Error,
            >(Error::Unauthorized)) <==> (caller@ != old(self).owner_id@ && caller@ != c.creator@)),
            r is Ok <==> (campaign_lookup(old(self).campaigns@, campaign_id) matches Some(c) && (
            caller@ == old(self).owner_id@ || caller@ == c.creator@)),
            r is Ok ==> {
                &&& campaign_lookup(final(self).campaigns@, campaign_id) is None
                &&& (forall|id2: u128|
                    id2 != campaign_id ==> campaign_lookup(final(self).campaigns@, id2)
                        == campaign_lookup(old(self).campaigns@, id2))
                &&& (forall|i: int|
                    0 <= i < final(self).drops@.len()
                        ==> (#[trigger] final(self).drops@[i]).campaign_id != campaign_id)
                &&& (forall|h: Seq<char>|
                    (#[trigger] drop_lookup(old(self).drops@, h)) matches Some(d)
                        && d.campaign_id != campaign_id ==> drop_lookup(final(self).drops@, h)
                        == drop_lookup(old(self).drops@, h))
                &&& (forall|h: Seq<char>|
                    (#[trigger] drop_lookup(old(self).drops@, h)) matches Some(d)
                        && d.campaign_id == campaign_id ==> drop_lookup(
                        final(self).drops@,
                        h,
                    ) is None)
                &&& (forall|k: Seq<char>|
                    (#[trigger] spec_lookup(final(self).drop_by_key.entries@, k)) is Some
                        ==> spec_lookup(final(self).drop_by_key.entries@, k) == spec_lookup(
                        old(self).drop_by_key.entries@,
                        k,
                    ))
                &&& (forall|k: Seq<char>|
                    #![trigger spec_lookup(old(self).drop_by_key.entries@, k)]
                    spec_lookup(old(self).drop_by_key.entries@, k) matches Some(h)
                        && drop_lookup(old(self).drops@, h) matches Some(d) && d.campaign_id
                        != campaign_id ==> spec_lookup(final(self).drop_by_key.entries@, k)
                        == spec_lookup(old(self).drop_by_key.entries@, k))
                &&& (forall|k: Seq<char>|
                    (#[trigger] spec_lookup(old(self).drop_by_key.entries@, k)) matches Some(h)
                        && drop_lookup(old(self).drops@, h) matches Some(d) && d.campaign_id
                        == campaign_id ==> spec_lookup(
                        final(self).drop_by_key.entries@,
                        k,
                    ) is None)
            },
    {
        let ci = match self.find_campaign_index(campaign_id) {
            Some(i) => i,
            None => {
                return Err(Error::UnknownCampaign);
            },
        };
        let allowed = (*caller == self.owner_id) || (*caller == self.campaigns[ci].1.creator);
        if !allowed {
            return Err(Error::Unauthorized);
        }
        let ghost c0 = *self;
        loop
            invariant
                self.wf(),
                self.campaigns@ == c0.campaigns@,
                self.campaign_id == c0.campaign_id,
                self.owner_id == c0.owner_id,
                self.auth_public_key == c0.auth_public_key,
                ci < self.campaigns@.len(),
                forall|h: Seq<char>|
                    (#[trigger] drop_lookup(self.drops@, h)) is Some ==> drop_lookup(
                        self.drops@,
                        h,
                    ) == drop_lookup(c0.drops@, h),
                forall|h: Seq<char>|
                    (#[trigger] drop_lookup(c0.drops@, h)) matches Some(d) && d.campaign_id
                        != campaign_id ==> drop_lookup(self.drops@, h) == drop_lookup(
                        c0.drops@,
                        h,
                    ),
                forall|k: Seq<char>|
                    (#[trigger] spec_lookup(self.drop_by_key.entries@, k)) is Some ==> spec_lookup(
                        self.drop_by_key.entries@,
                        k,
                    ) == spec_lookup(c0.drop_by_key.entries@, k),
                forall|k: Seq<char>|
                    #![trigger spec_lookup(c0.drop_by_key.entries@, k)]
                    spec_lookup(c0.drop_by_key.entries@, k) matches Some(h)
                        && drop_lookup(c0.drops@, h) matches Some(d) && d.campaign_id
                        != campaign_id ==> spec_lookup(self.drop_by_key.entries@, k)
                        == spec_lookup(c0.drop_by_key.entries@, k),
            ensures
                self.wf(),
                self.campaigns@ == c0.campaigns@,
                self.campaign_id == c0.campaign_id,
                self.owner_id == c0.owner_id,
                self.auth_public_key == c0.auth_public_key,
                ci < self.campaigns@.len(),
                forall|i: int|
                    0 <= i < self.drops@.len() ==> (#[trigger] self.drops@[i]).campaign_id
                        != campaign_id,
                forall|h: Seq<char>|
                    (#[trigger] drop_lookup(self.drops@, h)) is Some ==> drop_lookup(
                        self.drops@,
                        h,
                    ) == drop_lookup(c0.drops@, h),
                forall|h: Seq<char>|
                    (#[trigger] drop_lookup(c0.drops@, h)) matches Some(d) && d.campaign_id
                        != campaign_id ==> drop_lookup(self.drops@, h) == drop_lookup(
                        c0.drops@,
                        h,
                    ),
                forall|k: Seq<char>|
                    (#[trigger] spec_lookup(self.drop_by_key.entries@, k)) is Some ==> spec_lookup(
                        self.drop_by_key.entries@,
                        k,
                    ) == spec_lookup(c0.drop_by_key.entries@, k),
                forall|k: Seq<char>|
                    #![trigger spec_lookup(c0.drop_by_key.entries@, k)]
                    spec_lookup(c0.drop_by_key.entries@, k) matches Some(h)
                        && drop_lookup(c0.drops@, h) matches Some(d) && d.campaign_id
                        != campaign_id ==> spec_lookup(self.drop_by_key.entries@, k)
                        == spec_lookup(c0.drop_by_key.entries@, k),
            decreases self.drops@.len(),
        {
            let ghost cprev = *self;
            let di = match self.find_drop_of_campaign(campaign_id) {
                Some(i) => i,
                None => {
                    break ;
                },
            };
            let ghost hcur = self.drops@[di as int].hash@;
            proof {
                assert(forall|j: int|
                    0 <= j < cprev.drops@.len() && j != di ==> (#[trigger] cprev.drops@[j]).hash@
                        != hcur);
                crate::store::lemma_drop_lookup_at(cprev.drops@, di as int);
            }
            self.purge_drop(di);
            proof {
                assert(drop_lookup(cprev.drops@, hcur) == Some(cprev.drops@[di as int]));
                assert(drop_lookup(c0.drops@, hcur) == Some(cprev.drops@[di as int]));
                assert(cprev.drops@[di as int].campaign_id == campaign_id);
            }
        }
        let ghost s1 = *self;
        let ghost pre = self.campaigns@;
        let _ = self.campaigns.remove(ci);
        proof {
            assert(pre[ci as int].0 == campaign_id);
            assert(forall|j: int|
                0 <= j < pre.len() && j != ci ==> (#[trigger] pre[j]).0 != campaign_id);
            crate::store::lemma_unique_campaign_remove(pre, ci as int);
            crate::store::lemma_campaign_lookup_remove_same(pre, ci as int);
            assert forall|id2: u128| id2 != campaign_id implies campaign_lookup(
                self.campaigns@,
                id2,
            ) == campaign_lookup(pre, id2) by {
                crate::store::lemma_campaign_lookup_remove_other(pre, ci as int, id2);
            }
            assert forall|i: int| 0 <= i < self.drops@.len() implies campaign_lookup(
                self.campaigns@,
                (#[trigger] self.drops@[i]).campaign_id,
            ) is Some by {
                assert(self.drops@[i].campaign_id != campaign_id);
                crate::store::lemma_campaign_lookup_remove_other(
                    pre,
                    ci as int,
                    self.drops@[i].campaign_id,
                );
            }
            assert(self.drops@ == s1.drops@);
            assert(self.drop_by_key.entries@ == s1.drop_by_key.entries@);
            assert forall|h: Seq<char>|
                (#[trigger] drop_lookup(c0.drops@, h)) matches Some(d) && d.campaign_id
                    == campaign_id implies drop_lookup(self.drops@, h) is None by {
                if drop_lookup(s1.drops@, h) is Some {
                    assert(drop_lookup(s1.drops@, h) == drop_lookup(c0.drops@, h));
                    crate::store::lemma_drop_lookup_is_member(s1.drops@, h);
                    let i = choose|i: int|
                        0 <= i < s1.drops@.len() && (#[trigger] s1.drops@[i]) == drop_lookup(
                            s1.drops@,
                            h,
                        )->Some_0;
                    assert(s1.drops@[i].campaign_id != campaign_id);
                    assert(false);
                }
            }
            assert forall|k: Seq<char>|
                (#[trigger] spec_lookup(c0.drop_by_key.entries@, k)) matches Some(h)
                    && drop_lookup(c0.drops@, h) matches Some(d) && d.campaign_id == campaign_id
                implies spec_lookup(self.drop_by_key.entries@, k) is None by {
                if spec_lookup(s1.drop_by_key.entries@, k) is Some {
                    let h = spec_lookup(c0.drop_by_key.entries@, k)->Some_0;
                    assert(spec_lookup(s1.drop_by_key.entries@, k) == Some(h));
                    assert(s1.wf());
                    assert(drop_lookup(s1.drops@, h) is Some);
                    assert(drop_lookup(s1.drops@, h) == drop_lookup(c0.drops@, h));
                    assert(drop_lookup(self.drops@, h) is None);
                    assert(false);
                }
            }
        }
        Ok(())
    }

    /// The credentials currently attached to a drop; empty when the drop
    /// does not exist.
    pub fn get_keys(&self, hash: &String) -> (r: Vec<String>)
        requires
            unique_drop_hashes(self.drops@),
        ensures
            match drop_lookup(self.drops@, hash@) {
                Some(d) => r@.len() == d.keys@.len() && (forall|j: int|
                    0 <= j < r@.len() ==> (#[trigger] r@[j]) == d.keys@[j]),
                None => r@.len() == 0,
            },
    {
        match self.find_drop_index(hash) {
            Some(i) => clone_keys(&self.drops[i].keys),
            None => Vec::new(),
        }
    }
}

/// A by-value copy of a key list; strings clone to equal values.
fn clone_keys(ks: &Vec<String>) -> (r: Vec<String>)
    ensures
        r@.len() == ks@.len(),
        forall|j: int| 0 <= j < r@.len() ==> (#[trigger] r@[j]) == ks@[j],
{
    let mut r: Vec<String> = Vec::new();
    let mut i: usize = 0;
    while i < ks.len()
        invariant
            i <= ks@.len(),
            r@.len() == i,
            forall|j: int| 0 <= j < i ==> (#[trigger] r@[j]) == ks@[j],
        decreases ks@.len() - i,
    {
        r.push(ks[i].clone());
        i = i + 1;
    }
    r
}

/// After consuming credential `k` — removing it from the registry and
/// from the key list of the drop at `di` that owned it — the contract
/// invariant holds again.
proof fn lemma_wf_after_consume(c0: Contract, c1: Contract, di: int, k: Seq<char>)
    requires
        c0.wf(),
        0 <= di < c0.drops@.len(),
        spec_lookup(c0.drop_by_key.entries@, k) == Some(c0.drops@[di].hash@),
        consume_rel(c0.drop_by_key.entries@, c1.drop_by_key.entries@, k),
        c1.drop_by_key.wf(),
        c1.drops@ == c0.drops@.update(di, c1.drops@[di]),
        c1.drops@[di].hash@ == c0.drops@[di].hash@,
        c1.drops@[di].keys@ == keys_minus(c0.drops@[di].keys@, k),
        c1.drops@[di].campaign_id == c0.drops@[di].campaign_id,
        c1.campaigns@ == c0.campaigns@,
        c1.campaign_id == c0.campaign_id,
    ensures
        c1.wf(),
        forall|h: Seq<char>|
            h != c0.drops@[di].hash@ ==> drop_lookup(c1.drops@, h) == drop_lookup(c0.drops@, h),
        drop_lookup(c1.drops@, c0.drops@[di].hash@) == Some(c1.drops@[di]),
{
    let r0 = c0.drop_by_key.entries@;
    let r1 = c1.drop_by_key.entries@;
    let d0 = c0.drops@;
    let d1 = c1.drops@;
    let hash = d0[di].hash@;
    let dd = d1[di];
    lemma_keys_minus_props(d0[di].keys@, k);
    assert(forall|j: int| 0 <= j < d0.len() && j != di ==> (#[trigger] d0[j]).hash@ != hash);
    lemma_drop_lookup_at(d0, di);
    assert(unique_drop_hashes(d1)) by {
        lemma_unique_drop_update(d0, di, dd);
    }
    assert forall|h: Seq<char>| #![auto] true implies drop_lookup(d1, h) == (if h == hash {
        Some(dd)
    } else {
        drop_lookup(d0, h)
    }) by {
        lemma_drop_lookup_update(d0, di, dd, h);
    }
    assert forall|k2: Seq<char>| (#[trigger] spec_lookup(r1, k2)) is Some implies {
        let h = spec_lookup(r1, k2)->Some_0;
        drop_lookup(d1, h) matches Some(d) && keys_contain(d.keys@, k2)
    } by {
        assert(k2 != k);
        assert(spec_lookup(r1, k2) == spec_lookup(r0, k2));
        let h = spec_lookup(r0, k2)->Some_0;
        assert(drop_lookup(d0, h) matches Some(d) && keys_contain(d.keys@, k2));
        if h == hash {
            assert(keys_contain(dd.keys@, k2));
        }
    }
    assert forall|i: int, j: int|
        #![trigger d1[i].keys@[j]]
        0 <= i < d1.len() && 0 <= j < d1[i].keys@.len() implies spec_lookup(r1, d1[i].keys@[j]@)
        == Some(d1[i].hash@) by {
        let k2 = d1[i].keys@[j]@;
        if i == di {
            assert(k2 != k && keys_contain(d0[di].keys@, k2));
            let j0 = choose|j0: int|
                0 <= j0 < d0[di].keys@.len() && (#[trigger] d0[di].keys@[j0])@ == k2;
            assert(spec_lookup(r0, d0[di].keys@[j0]@) == Some(d0[di].hash@));
        } else {
            assert(d1[i] == d0[i]);
            assert(spec_lookup(r0, k2) == Some(d0[i].hash@));
            if k2 == k {
                assert(d0[i].hash@ == hash);
                assert(false);
            }
        }
    }
    assert(forall|i: int|
        0 <= i < d1.len() ==> (#[trigger] d1[i]).campaign_id == d0[i].campaign_id);
}

/// After attaching credential `k` to the drop at `di` — appending it to
/// the registry and to that drop's key list — the contract invariant
/// holds again.
proof fn lemma_wf_after_attach(c0: Contract, c1: Contract, di: int, k: Seq<char>)
    requires
        c0.wf(),
        0 <= di < c0.drops@.len(),
        spec_lookup(c0.drop_by_key.entries@, k) is None,
        crate::registry::bind_rel(
            c0.drop_by_key.entries@,
            c1.drop_by_key.entries@,
            k,
            c0.drops@[di].hash@,
        ),
        c1.drop_by_key.wf(),
        c1.drops@ == c0.drops@.update(di, c1.drops@[di]),
        c1.drops@[di].hash@ == c0.drops@[di].hash@,
        c1.drops@[di].keys@.len() == c0.drops@[di].keys@.len() + 1,
        forall|j: int|
            0 <= j < c0.drops@[di].keys@.len() ==> (#[trigger] c1.drops@[di].keys@[j])
                == c0.drops@[di].keys@[j],
        c1.drops@[di].keys@[c0.drops@[di].keys@.len() as int]@ == k,
        c1.drops@[di].campaign_id == c0.drops@[di].campaign_id,
        c1.campaigns@ == c0.campaigns@,
        c1.campaign_id == c0.campaign_id,
    ensures
        c1.wf(),
        forall|h: Seq<char>|
            h != c0.drops@[di].hash@ ==> drop_lookup(c1.drops@, h) == drop_lookup(c0.drops@, h),
        drop_lookup(c1.drops@, c0.drops@[di].hash@) == Some(c1.drops@[di]),
{
    let r0 = c0.drop_by_key.entries@;
    let r1 = c1.drop_by_key.entries@;
    let d0 = c0.drops@;
    let d1 = c1.drops@;
    let hash = d0[di].hash@;
    let dd = d1[di];
    let oldlen = d0[di].keys@.len() as int;
    assert(forall|j: int| 0 <= j < d0.len() && j != di ==> (#[trigger] d0[j]).hash@ != hash);
    lemma_drop_lookup_at(d0, di);
    assert(unique_drop_hashes(d1)) by {
        lemma_unique_drop_update(d0, di, dd);
    }
    assert forall|h: Seq<char>| #![auto] true implies drop_lookup(d1, h) == (if h == hash {
        Some(dd)
    } else {
        drop_lookup(d0, h)
    }) by {
        lemma_drop_lookup_update(d0, di, dd, h);
    }
    assert forall|k2: Seq<char>| (#[trigger] spec_lookup(r1, k2)) is Some implies {
        let h = spec_lookup(r1, k2)->Some_0;
        drop_lookup(d1, h) matches Some(d) && keys_contain(d.keys@, k2)
    } by {
        if k2 == k {
            assert(spec_lookup(r1, k) == Some(hash));
            assert(dd.keys@[oldlen]@ == k);
            assert(keys_contain(dd.keys@, k));
        } else {
            assert(spec_lookup(r1, k2) == spec_lookup(r0, k2));
            let h = spec_lookup(r0, k2)->Some_0;
            assert(drop_lookup(d0, h) matches Some(d) && keys_contain(d.keys@, k2));
            if h == hash {
                let j0 = choose|j0: int|
                    0 <= j0 < d0[di].keys@.len() && (#[trigger] d0[di].keys@[j0])@ == k2;
                assert(dd.keys@[j0]@ == k2);
                assert(keys_contain(dd.keys@, k2));
            }
        }
    }
    assert forall|i: int, j: int|
        #![trigger d1[i].keys@[j]]
        0 <= i < d1.len() && 0 <= j < d1[i].keys@.len() implies spec_lookup(r1, d1[i].keys@[j]@)
        == Some(d1[i].hash@) by {
        let k2 = d1[i].keys@[j]@;
        if i == di {
            if j < oldlen {
                assert(k2 == d0[di].keys@[j]@);
                assert(spec_lookup(r0, k2) == Some(hash));
                assert(k2 != k);
            } else {
                assert(k2 == k);
                assert(spec_lookup(r1, k) == Some(hash));
            }
        } else {
            assert(d1[i] == d0[i]);
            assert(spec_lookup(r0, k2) == Some(d0[i].hash@));
            assert(k2 != k);
        }
    }
    assert(forall|i: int|
        0 <= i < d1.len() ==> (#[trigger] d1[i]).campaign_id == d0[i].campaign_id);
}

/// After replacing the drop at `di` with one carrying the same hash, the
/// same key list and the same campaign, the contract invariant holds
/// again.
proof fn lemma_wf_after_drop_update(c0: Contract, c1: Contract, di: int)
    requires
        c0.wf(),
        0 <= di < c0.drops@.len(),
        c1.drop_by_key.entries@ == c0.drop_by_key.entries@,
        c1.drops@ == c0.drops@.update(di, c1.drops@[di]),
        c1.drops@[di].hash@ == c0.drops@[di].hash@,
        c1.drops@[di].keys@ == c0.drops@[di].keys@,
        c1.drops@[di].campaign_id == c0.drops@[di].campaign_id,
        c1.campaigns@ == c0.campaigns@,
        c1.campaign_id == c0.campaign_id,
    ensures
        c1.wf(),
        forall|h: Seq<char>|
            h != c0.drops@[di].hash@ ==> drop_lookup(c1.drops@, h) == drop_lookup(c0.drops@, h),
        drop_lookup(c1.drops@, c0.drops@[di].hash@) == Some(c1.drops@[di]),
{
    let r0 = c0.drop_by_key.entries@;
    let d0 = c0.drops@;
    let d1 = c1.drops@;
    let hash = d0[di].hash@;
    let dd = d1[di];
    assert(forall|j: int| 0 <= j < d0.len() && j != di ==> (#[trigger] d0[j]).hash@ != hash);
    lemma_drop_lookup_at(d0, di);
    assert(unique_drop_hashes(d1)) by {
        lemma_unique_drop_update(d0, di, dd);
    }
    assert forall|h: Seq<char>| #![auto] true implies drop_lookup(d1, h) == (if h == hash {
        Some(dd)
    } else {
        drop_lookup(d0, h)
    }) by {
        lemma_drop_lookup_update(d0, di, dd, h);
    }
    assert forall|k2: Seq<char>| (#[trigger] spec_lookup(r0, k2)) is Some implies {
        let h = spec_lookup(r0, k2)->Some_0;
        drop_lookup(d1, h) matches Some(d) && keys_contain(d.keys@, k2)
    } by {
        let h = spec_lookup(r0, k2)->Some_0;
        assert(drop_lookup(d0, h) matches Some(d) && keys_contain(d.keys@, k2));
        assert(h != hash ==> drop_lookup(d1, h) == drop_lookup(d0, h));
    }
    assert forall|i: int, j: int|
        #![trigger d1[i].keys@[j]]
        0 <= i < d1.len() && 0 <= j < d1[i].keys@.len() implies spec_lookup(r0, d1[i].keys@[j]@)
        == Some(d1[i].hash@) by {
        if i == di {
            assert(d1[i].keys@[j] == d0[di].keys@[j]);
        } else {
            assert(d1[i] == d0[i]);
        }
    }
    assert(forall|i: int|
        0 <= i < d1.len() ==> (#[trigger] d1[i]).campaign_id == d0[i].campaign_id);
}

/// The revocation law: once a credential is consumed or revoked — the
/// registry transition satisfies `consume_rel` and the owning drop's key
/// list has been filtered by `keys_minus`, as `remove_key` and `claim`
/// ensure — the credential is bound nowhere and sits in no key list, so a
/// subsequent claim attempt with it yields `UnknownCredential` by the
/// contract of `claim`.
pub proof fn lemma_revoked_credential_fails_claim(
    pre: Seq<(String, String)>,
    post: Seq<(String, String)>,
    keys_pre: Seq<String>,
    keys_post: Seq<String>,
    k: Seq<char>,
)
    requires
        consume_rel(pre, post, k),
        keys_post == keys_minus(keys_pre, k),
    ensures
        spec_lookup(post, k) is None,
        !keys_contain(keys_post, k),
{
    lemma_keys_minus_props(keys_pre, k);
}

proof fn lemma_campaign_found_at(s: Seq<(u128, Campaign)>, i: int)
    requires
        0 <= i < s.len(),
        forall|j: int| 0 <= j < i ==> (#[trigger] s[j]).0 != s[i].0,
    ensures
        campaign_lookup(s, s[i].0) == Some(s[i].1),
    decreases i,
{
    if i > 0 {
        lemma_campaign_found_at(s.drop_first(), i - 1);
    }
}

} // verus!
