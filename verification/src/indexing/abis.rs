//! Contract ABI cache.
//!
//! During linear indexing, ABI updates arrive in block order via the
//! state-history `account` table deltas, so the cache always reflects the
//! chain state at the block being processed. On a cache miss (e.g. the
//! indexer started mid-chain) the current ABI is to be fetched from the chain
//! API: a pragmatic fallback that can mismatch very old blocks.

use crate::antelope::abi;
use crate::antelope::abi::{Abi, AbiModel};
use crate::antelope::decoder::AbiDecoder;
use crate::antelope::name::Name;
use crate::antelope::wire;
use crate::foreign::share;
use std::collections::HashMap;
use std::sync::Arc;
use vstd::prelude::*;

verus! {

broadcast use vstd::std_specs::hash::group_hash_axioms;

/// What is known of the ABIs of accounts: nothing, that there is no (usable)
/// one, or the ABI.
pub type KnownAbis = Map<u64, Option<AbiModel>>;

/// The ABIs that are known, by account.
pub struct AbiCache {
    /// `None` means "known to have no (usable) ABI": negative cache.
    abis: HashMap<u64, Option<Arc<Abi>>>,
    decoders: HashMap<u64, Arc<AbiDecoder<'static>>>,
}

/// An answer of the cache.
pub enum Lookup<T> {
    /// It has to be fetched.
    Unknown,
    /// There is none.
    Absent,
    Known(T),
}

/// What an entry stands for.
pub open spec fn entry_model(entry: Option<Arc<Abi>>) -> Option<AbiModel> {
    match entry {
        Some(abi) => Some(abi.deep_view()),
        None => None,
    }
}

/// The ABI in packed form: none if it is empty, which means that it was
/// cleared, or malformed.
pub open spec fn packed_abi(packed: Seq<u8>) -> Option<AbiModel> {
    let (model, c) = abi::get_abi(wire::at(packed));
    if packed.len() > 0 && c.sound() {
        Some(model)
    } else {
        None
    }
}

impl View for AbiCache {
    type V = KnownAbis;

    closed spec fn view(&self) -> KnownAbis {
        self.abis@.map_values(|e: Option<Arc<Abi>>| entry_model(e))
    }
}

/// What a request for the ABI of an account gives: a request that failed, like
/// an account that has none, gives none.
pub open spec fn fetched_abi<E>(fetched: Result<Option<Abi>, E>) -> Option<AbiModel> {
    match fetched {
        Ok(Some(abi)) => Some(abi.deep_view()),
        _ => None,
    }
}

impl AbiCache {
    /// The decoders that are prepared, by account.
    pub closed spec fn kept(&self) -> Map<u64, Arc<AbiDecoder<'static>>> {
        self.decoders@
    }

    /// A prepared decoder is one for the ABI that the account has now.
    #[verifier::type_invariant]
    spec fn prepared(self) -> bool {
        forall|n: u64| #[trigger]
            self.decoders@.contains_key(n) ==> self.abis@.contains_key(n) && entry_model(
                self.abis@[n],
            ) == Some(self.decoders@[n].interface())
    }

    pub fn new() -> (r: Self)
        ensures
            r@ == Map::<u64, Option<AbiModel>>::empty(),
            r.kept() == Map::<u64, Arc<AbiDecoder<'static>>>::empty(),
    {
        let r = AbiCache { abis: HashMap::new(), decoders: HashMap::new() };
        assert(r@ =~= Map::<u64, Option<AbiModel>>::empty());
        r
    }

    /// Makes the entry of an account, and drops a decoder that was prepared
    /// for an earlier one.
    fn replace(&mut self, account: Name, entry: Option<Arc<Abi>>)
        ensures
            final(self)@ == old(self)@.insert(account.0, entry_model(entry)),
            final(self).kept() == old(self).kept().remove(account.0),
    {
        proof {
            use_type_invariant(&*self);
        }
        let mut abis: HashMap<u64, Option<Arc<Abi>>> = HashMap::new();
        let mut decoders: HashMap<u64, Arc<AbiDecoder<'static>>> = HashMap::new();
        std::mem::swap(&mut decoders, &mut self.decoders);
        std::mem::swap(&mut abis, &mut self.abis);
        decoders.remove(&account.0);
        abis.insert(account.0, entry);
        self.abis = abis;
        self.decoders = decoders;
        assert(self@ =~= old(self)@.insert(account.0, entry_model(entry)));
    }

    /// Record an ABI update seen on-chain (packed `abi_def` bytes; empty
    /// bytes mean the ABI was cleared). A decoder that was prepared for the
    /// account is dropped.
    pub fn update(&mut self, account: Name, packed: &[u8]) -> (r: Option<Arc<Abi>>)
        ensures
            entry_model(r) == packed_abi(packed@),
            final(self)@ == old(self)@.insert(account.0, packed_abi(packed@)),
            final(self).kept() == old(self).kept().remove(account.0),
    {
        if packed.len() == 0 {
            self.replace(account, None);
            return None;
        }
        match Abi::from_bin(packed) {
            Ok(abi) => {
                let abi = Arc::new(abi);
                self.replace(account, Some(share(&abi)));
                Some(abi)
            },
            Err(_) => {
                self.replace(account, None);
                None
            },
        }
    }

    /// The cached ABI of an account.
    pub fn lookup(&self, account: Name) -> (r: Lookup<&Arc<Abi>>)
        ensures
            match r {
                Lookup::Unknown => !self@.contains_key(account.0),
                Lookup::Absent => self@.contains_key(account.0) && self@[account.0] is None,
                Lookup::Known(abi) => self@.contains_key(account.0) && self@[account.0] == Some(
                    abi.deep_view(),
                ),
            },
    {
        match self.abis.get(&account.0) {
            None => Lookup::Unknown,
            Some(entry) => match entry {
                None => Lookup::Absent,
                Some(abi) => Lookup::Known(abi),
            },
        }
    }

    /// Records what a request for the ABI of an account gave, if nothing was
    /// known of it; an entry that is there already stays.
    pub fn store<E>(&mut self, account: Name, fetched: Result<Option<Abi>, E>)
        ensures
            final(self).kept() == old(self).kept(),
            final(self)@ == if old(self)@.contains_key(account.0) {
                old(self)@
            } else {
                old(self)@.insert(account.0, fetched_abi(fetched))
            },
    {
        proof {
            use_type_invariant(&*self);
        }
        if let Lookup::Unknown = self.lookup(account) {
            match fetched {
                Ok(Some(abi)) => self.replace(account, Some(Arc::new(abi))),
                _ => self.replace(account, None),
            }
            assert(self.kept() =~= old(self).kept());
        }
    }

    /// Reuse prepared type lookups until an on-chain ABI update invalidates
    /// them: a decoder that is kept is handed out, and one that is prepared is
    /// kept.
    pub fn decoder(&mut self, account: Name) -> (r: Lookup<Arc<AbiDecoder<'static>>>)
        ensures
            final(self)@ == old(self)@,
            match r {
                Lookup::Unknown => !old(self)@.contains_key(account.0),
                Lookup::Absent => old(self)@.contains_key(account.0) && old(
                    self,
                )@[account.0] is None,
                Lookup::Known(d) => old(self)@.contains_key(account.0) && old(self)@[account.0]
                    == Some(d.interface()),
            },
            match r {
                Lookup::Known(d) => {
                    &&& old(self).kept().contains_key(account.0) ==> d == old(
                        self,
                    ).kept()[account.0]
                    &&& final(self).kept() == old(self).kept().insert(account.0, d)
                },
                _ => final(self).kept() == old(self).kept(),
            },
    {
        proof {
            use_type_invariant(&*self);
        }
        if let Some(decoder) = self.decoders.get(&account.0) {
            let decoder = share(decoder);
            assert(self.kept() =~= self.kept().insert(account.0, decoder));
            return Lookup::Known(decoder);
        }
        let abi = match self.lookup(account) {
            Lookup::Unknown => return Lookup::Unknown,
            Lookup::Absent => return Lookup::Absent,
            Lookup::Known(abi) => share(abi),
        };
        let decoder = Arc::new(AbiDecoder::from_shared(abi));
        let mut decoders: HashMap<u64, Arc<AbiDecoder<'static>>> = HashMap::new();
        std::mem::swap(&mut decoders, &mut self.decoders);
        decoders.insert(account.0, share(&decoder));
        self.decoders = decoders;
        Lookup::Known(decoder)
    }
}

/// The ABI that an account has is the one of its last update: one that was
/// set can be used, one that was cleared or is malformed cannot, and the other
/// accounts keep theirs.
pub proof fn law_last_update_counts(
    known: KnownAbis,
    account: u64,
    first: Seq<u8>,
    last: Seq<u8>,
)
    ensures
        ({
            let after = known.insert(account, packed_abi(first)).insert(
                account,
                packed_abi(last),
            );
            &&& after[account] == packed_abi(last)
            &&& last.len() == 0 ==> after[account] is None
            &&& forall|other: u64|
                other != account ==> after.contains_key(other) == known.contains_key(other) && (
                known.contains_key(other) ==> after[other] == known[other])
        }),
{
}

} // verus!
