use crate::errors::{DispatchError, Error, Event, EventView};
use vstd::prelude::*;

verus! {

/// Registry configuration: the single parameter `max_bytes_in_hash`, the
/// upper bound (in bytes) on the length of a digest. Oversized digests are
/// rejected before any storage access.
#[derive(Clone, Copy, Debug, PartialEq, Eq, Structural)]
pub struct Config {
    pub max_bytes_in_hash: usize,
}

/// One row of the registry: a claimed digest together with its owner and
/// the clock value recorded at the most recent create or transfer.
struct Entry {
    digest: Vec<u8>,
    owner: u64,
    created_at: u64,
}

/// The proof-of-existence claim registry: a table keyed by digest, each row
/// holding the owning actor and the clock value at the claim's creation.
/// Its mathematical value is the map [`Pallet::claims`], from digest to
/// `(owner, created_at)`; absence of a key means the digest is unclaimed.
pub struct Pallet {
    config: Config,
    entries: Vec<Entry>,
}

/// No two rows share a digest: each digest appears in the table at most once.
spec fn entry_keys_unique(s: Seq<Entry>) -> bool {
    forall|i: int, j: int| 0 <= i < j < s.len() ==> s[i].digest@ != s[j].digest@
}

/// The map a table denotes: later rows win, though under
/// [`entry_keys_unique`] every digest appears at most once.
spec fn entries_map(s: Seq<Entry>) -> Map<Seq<u8>, (u64, u64)>
    decreases s.len(),
{
    if s.len() == 0 {
        Map::empty()
    } else {
        entries_map(s.drop_last()).insert(
            s.last().digest@,
            (s.last().owner, s.last().created_at),
        )
    }
}

/// A digest is in the denoted map exactly when some row holds it.
proof fn lemma_entries_map_domain(s: Seq<Entry>)
    ensures
        forall|k: Seq<u8>|
            #[trigger] entries_map(s).contains_key(k) <==> exists|i: int|
                0 <= i < s.len() && s[i].digest@ == k,
    decreases s.len(),
{
    if s.len() > 0 {
        lemma_entries_map_domain(s.drop_last());
        assert forall|k: Seq<u8>| #[trigger] entries_map(s).contains_key(k) implies exists|i: int|
            0 <= i < s.len() && s[i].digest@ == k by {
            if k == s.last().digest@ {
                assert(s[s.len() - 1].digest@ == k);
            } else {
                assert(entries_map(s.drop_last()).contains_key(k));
                let i = choose|i: int| 0 <= i < s.drop_last().len() && s.drop_last()[i].digest@ == k;
                assert(s.drop_last()[i] == s[i]);
                assert(s[i].digest@ == k);
            }
        }
        assert forall|k: Seq<u8>|
            exists|i: int| 0 <= i < s.len() && s[i].digest@ == k implies #[trigger] entries_map(
            s,
        ).contains_key(k) by {
            let i = choose|i: int| 0 <= i < s.len() && s[i].digest@ == k;
            if i < s.len() - 1 {
                assert(s.drop_last()[i] == s[i]);
                assert(s.drop_last()[i].digest@ == k);
                assert(exists|j: int| 0 <= j < s.drop_last().len() && s.drop_last()[j].digest@ == k);
                assert(entries_map(s.drop_last()).contains_key(k));
            } else {
                assert(s.last().digest@ == k);
            }
        }
    }
}

/// Under unique keys, the denoted map sends each row's digest to that row's
/// owner and creation value.
proof fn lemma_entries_map_index(s: Seq<Entry>, i: int)
    requires
        entry_keys_unique(s),
        0 <= i < s.len(),
    ensures
        entries_map(s).contains_key(s[i].digest@),
        entries_map(s)[s[i].digest@] == (s[i].owner, s[i].created_at),
    decreases s.len(),
{
    if i < s.len() - 1 {
        lemma_entries_map_index(s.drop_last(), i);
        assert(s.drop_last()[i] == s[i]);
        assert(s[i].digest@ != s.last().digest@);
    }
}

/// Pushing a row denotes an insertion into the map.
proof fn lemma_entries_map_push(s: Seq<Entry>, e: Entry)
    ensures
        entries_map(s.push(e)) == entries_map(s).insert(e.digest@, (e.owner, e.created_at)),
{
    assert(s.push(e).drop_last() =~= s);
    assert(s.push(e).last() == e);
}

/// Removing row `i` denotes removal of its digest from the map, and keeps
/// the remaining keys unique.
proof fn lemma_entries_map_remove(s: Seq<Entry>, i: int)
    requires
        entry_keys_unique(s),
        0 <= i < s.len(),
    ensures
        entry_keys_unique(s.remove(i)),
        forall|j: int|
            0 <= j < s.remove(i).len() ==> #[trigger] s.remove(i)[j].digest@ != s[i].digest@,
        forall|j: int|
            0 <= j < s.remove(i).len() ==> (#[trigger] s.remove(i)[j]) == s[if j < i {
                j
            } else {
                j + 1
            }],
        entries_map(s.remove(i)) == entries_map(s).remove(s[i].digest@),
    decreases s.len(),
{
    s.remove_ensures(i);
    let t = s.remove(i);
    assert forall|j: int| 0 <= j < t.len() implies (#[trigger] t[j]) == s[if j < i {
        j
    } else {
        j + 1
    }] by {}
    let k = s[i].digest@;
    if i == s.len() - 1 {
        assert(t =~= s.drop_last());
        lemma_entries_map_domain(s.drop_last());
        assert(forall|j: int| 0 <= j < s.len() - 1 ==> s.drop_last()[j].digest@ != k);
        assert(!entries_map(s.drop_last()).contains_key(k));
        assert(entries_map(s).remove(k) =~= entries_map(s.drop_last()));
    } else {
        lemma_entries_map_remove(s.drop_last(), i);
        assert(t.drop_last() =~= s.drop_last().remove(i));
        assert(t.last() == s.last());
        assert(entries_map(t) == entries_map(s.drop_last().remove(i)).insert(
            s.last().digest@,
            (s.last().owner, s.last().created_at),
        ));
        assert(s.drop_last()[i] == s[i]);
        assert(s.last().digest@ != k);
        assert(entries_map(s.drop_last().remove(i)).insert(
            s.last().digest@,
            (s.last().owner, s.last().created_at),
        ) =~= entries_map(s).remove(k));
    }
}

/// A digest may be created when it fits the configured bound and is not
/// already claimed.
pub open spec fn create_allowed(m: Map<Seq<u8>, (u64, u64)>, max: nat, digest: Seq<u8>) -> bool {
    digest.len() <= max && !m.contains_key(digest)
}

/// The claims map after `create_claim`: the new row on success, the map
/// unchanged on failure.
pub open spec fn create_post(
    m: Map<Seq<u8>, (u64, u64)>,
    max: nat,
    caller: u64,
    digest: Seq<u8>,
    now: u64,
) -> Map<Seq<u8>, (u64, u64)> {
    if create_allowed(m, max, digest) {
        m.insert(digest, (caller, now))
    } else {
        m
    }
}

/// The error a failing `create_claim` reports: the length bound is checked
/// before any lookup.
pub open spec fn create_error(m: Map<Seq<u8>, (u64, u64)>, max: nat, digest: Seq<u8>) -> DispatchError
    recommends
        !create_allowed(m, max, digest),
{
    if digest.len() > max {
        DispatchError::ProofTooLong
    } else {
        DispatchError::Module(Error::ProofAlreadyClaimed)
    }
}

/// A digest may be revoked when it fits the bound, is claimed, and is
/// claimed by the caller.
pub open spec fn revoke_allowed(
    m: Map<Seq<u8>, (u64, u64)>,
    max: nat,
    caller: u64,
    digest: Seq<u8>,
) -> bool {
    digest.len() <= max && m.contains_key(digest) && m[digest].0 == caller
}

/// The claims map after `revoke_claim`: the row removed on success, the map
/// unchanged on failure.
pub open spec fn revoke_post(
    m: Map<Seq<u8>, (u64, u64)>,
    max: nat,
    caller: u64,
    digest: Seq<u8>,
) -> Map<Seq<u8>, (u64, u64)> {
    if revoke_allowed(m, max, caller, digest) {
        m.remove(digest)
    } else {
        m
    }
}

/// The error a failing `revoke_claim` reports: existence is checked before
/// ownership, so an absent digest reports `NoSuchProof`, never
/// `NotProofOwner`.
pub open spec fn revoke_error(
    m: Map<Seq<u8>, (u64, u64)>,
    max: nat,
    caller: u64,
    digest: Seq<u8>,
) -> DispatchError
    recommends
        !revoke_allowed(m, max, caller, digest),
{
    if digest.len() > max {
        DispatchError::ProofTooLong
    } else if !m.contains_key(digest) {
        DispatchError::Module(Error::NoSuchProof)
    } else {
        DispatchError::Module(Error::NotProofOwner)
    }
}

/// A claim may be transferred when the target differs from the caller and
/// the caller could revoke it.
pub open spec fn transfer_allowed(
    m: Map<Seq<u8>, (u64, u64)>,
    max: nat,
    caller: u64,
    to: u64,
    digest: Seq<u8>,
) -> bool {
    caller != to && revoke_allowed(m, max, caller, digest)
}

/// The claims map after `transfer_claim`: an atomic revoke-then-create on
/// success — so `created_at` is refreshed to the transfer time, by design —
/// and the map unchanged on failure.
pub open spec fn transfer_post(
    m: Map<Seq<u8>, (u64, u64)>,
    max: nat,
    caller: u64,
    to: u64,
    digest: Seq<u8>,
    now: u64,
) -> Map<Seq<u8>, (u64, u64)> {
    if transfer_allowed(m, max, caller, to, digest) {
        m.remove(digest).insert(digest, (to, now))
    } else {
        m
    }
}

/// The error a failing `transfer_claim` reports: a self-transfer is
/// rejected before anything else, then the revoke-half errors apply
/// unchanged.
pub open spec fn transfer_error(
    m: Map<Seq<u8>, (u64, u64)>,
    max: nat,
    caller: u64,
    to: u64,
    digest: Seq<u8>,
) -> DispatchError
    recommends
        !transfer_allowed(m, max, caller, to, digest),
{
    if caller == to {
        DispatchError::Module(Error::TransferToSelf)
    } else {
        revoke_error(m, max, caller, digest)
    }
}

impl Pallet {
    /// The registry's mathematical value: which digests are claimed, by
    /// whom, and with which creation value.
    pub closed spec fn claims(self) -> Map<Seq<u8>, (u64, u64)> {
        entries_map(self.entries@)
    }

    /// The configured upper bound on a digest's length.
    pub closed spec fn max_bytes(self) -> usize {
        self.config.max_bytes_in_hash
    }

    /// Well-formedness: each digest appears at most once, and every stored
    /// digest fits the configured bound.
    pub closed spec fn wf(self) -> bool {
        &&& entry_keys_unique(self.entries@)
        &&& forall|i: int|
            0 <= i < self.entries@.len() ==> (#[trigger] self.entries@[i]).digest@.len()
                <= self.config.max_bytes_in_hash
    }

    /// An empty registry: every digest is unclaimed.
    pub fn new(config: Config) -> (r: Pallet)
        ensures
            r.wf(),
            r.max_bytes() == config.max_bytes_in_hash,
            r.claims() == Map::<Seq<u8>, (u64, u64)>::empty(),
    {
        Pallet { config, entries: Vec::new() }
    }

    /// The index of the row holding `digest`, if any.
    fn find_index(&self, digest: &Vec<u8>) -> (r: Option<usize>)
        ensures
            match r {
                Some(i) => i < self.entries@.len() && self.entries@[i as int].digest@ == digest@,
                None => forall|j: int|
                    0 <= j < self.entries@.len() ==> (#[trigger] self.entries@[j]).digest@
                        != digest@,
            },
    {
        let n = self.entries.len();
        let mut i: usize = 0;
        while i < n
            invariant
                n == self.entries@.len(),
                i <= n,
                forall|j: int| 0 <= j < i ==> (#[trigger] self.entries@[j]).digest@ != digest@,
            decreases n - i,
        {
            if self.entries[i].digest == *digest {
                proof {
                    assert(self.entries@[i as int].digest@ =~= digest@);
                }
                return Some(i);
            }
            i += 1;
        }
        None
    }

    /// The read-only lookup: whether `digest` is claimed, and if so by whom
    /// and since when.
    pub fn get_claim(&self, digest: &Vec<u8>) -> (r: Option<(u64, u64)>)
        requires
            self.wf(),
        ensures
            match r {
                Some(c) => self.claims().contains_key(digest@) && c == self.claims()[digest@],
                None => !self.claims().contains_key(digest@),
            },
    {
        proof {
            lemma_entries_map_domain(self.entries@);
        }
        match self.find_index(digest) {
            Some(i) => {
                proof {
                    lemma_entries_map_index(self.entries@, i as int);
                }
                let e = &self.entries[i];
                Some((e.owner, e.created_at))
            },
            None => None,
        }
    }

    /// Insert a row for `digest`, replacing a present one: the storage half
    /// of create and the second half of transfer. Always succeeds.
    pub fn add_claim(&mut self, account_id: &u64, digest: &Vec<u8>, current_block: u64) -> (r:
        Result<(), Error>)
        requires
            old(self).wf(),
            digest@.len() <= old(self).max_bytes(),
        ensures
            final(self).wf(),
            final(self).max_bytes() == old(self).max_bytes(),
            final(self).claims() == old(self).claims().insert(
                digest@,
                (*account_id, current_block),
            ),
            r is Ok,
    {
        proof {
            lemma_entries_map_domain(self.entries@);
        }
        let ghost m0 = self.claims();
        match self.find_index(digest) {
            Some(i) => {
                proof {
                    lemma_entries_map_remove(self.entries@, i as int);
                }
                self.entries.remove(i);
            },
            None => {},
        }
        let row = Entry {
            digest: clone_digest(digest),
            owner: *account_id,
            created_at: current_block,
        };
        proof {
            let s = self.entries@;
            assert(forall|j: int| 0 <= j < s.len() ==> (#[trigger] s[j]).digest@ != digest@);
            lemma_entries_map_push(s, row);
            assert forall|i: int, j: int| 0 <= i < j < s.push(row).len() implies s.push(row)[i].digest@
                != s.push(row)[j].digest@ by {
                if j < s.len() {
                    assert(s.push(row)[i] == s[i]);
                    assert(s.push(row)[j] == s[j]);
                } else {
                    assert(s.push(row)[i] == s[i]);
                    assert(s.push(row)[j] == row);
                }
            }
        }
        self.entries.push(row);
        proof {
            assert(self.claims() =~= m0.insert(digest@, (*account_id, current_block)));
        }
        Ok(())
    }

    /// Validate and remove the row for `digest`: the storage half of revoke
    /// and the first half of transfer. Existence is checked before
    /// ownership, so an absent digest reports `NoSuchProof`, never
    /// `NotProofOwner`; on failure the registry is unchanged.
    pub fn remove_claim(&mut self, account_id: &u64, digest: &Vec<u8>) -> (r: Result<(), Error>)
        requires
            old(self).wf(),
        ensures
            final(self).wf(),
            final(self).max_bytes() == old(self).max_bytes(),
            r is Ok <==> old(self).claims().contains_key(digest@) && old(self).claims()[digest@].0
                == *account_id,
            r is Ok ==> final(self).claims() == old(self).claims().remove(digest@),
            r is Err ==> final(self).claims() == old(self).claims(),
            r matches Err(e) ==> e == (if !old(self).claims().contains_key(digest@) {
                Error::NoSuchProof
            } else {
                Error::NotProofOwner
            }),
    {
        proof {
            lemma_entries_map_domain(self.entries@);
        }
        match self.find_index(digest) {
            Some(i) => {
                proof {
                    lemma_entries_map_index(self.entries@, i as int);
                }
                if self.entries[i].owner == *account_id {
                    proof {
                        lemma_entries_map_remove(self.entries@, i as int);
                    }
                    self.entries.remove(i);
                    Ok(())
                } else {
                    Err(Error::NotProofOwner)
                }
            },
            None => Err(Error::NoSuchProof),
        }
    }

    /// Claim `digest` for `caller`, recording `now` as the creation value.
    /// Fails with `ProofTooLong` on a digest over the configured bound —
    /// before any lookup — and with `ProofAlreadyClaimed` on a digest that
    /// is already claimed; on failure the registry is unchanged. On success
    /// the claim is inserted and the `ClaimCreated` event is handed back for
    /// delivery.
    pub fn create_claim(&mut self, caller: u64, digest: Vec<u8>, now: u64) -> (r: Result<
        Event,
        DispatchError,
    >)
        requires
            old(self).wf(),
        ensures
            final(self).wf(),
            final(self).max_bytes() == old(self).max_bytes(),
            final(self).claims() == create_post(
                old(self).claims(),
                old(self).max_bytes() as nat,
                caller,
                digest@,
                now,
            ),
            r is Ok <==> create_allowed(old(self).claims(), old(self).max_bytes() as nat, digest@),
            r matches Ok(e) ==> e@ == (EventView::Created { who: caller, digest: digest@ }),
            r matches Err(e) ==> e == create_error(
                old(self).claims(),
                old(self).max_bytes() as nat,
                digest@,
            ),
            r is Err ==> final(self).claims() == old(self).claims(),
    {
        if digest.len() > self.config.max_bytes_in_hash {
            return Err(DispatchError::ProofTooLong);
        }
        if self.get_claim(&digest).is_some() {
            return Err(DispatchError::Module(Error::ProofAlreadyClaimed));
        }
        match self.add_claim(&caller, &digest, now) {
            Ok(()) => Ok(Event::ClaimCreated(caller, digest)),
            Err(e) => Err(DispatchError::Module(e)),
        }
    }

    /// Release `caller`'s claim on `digest`. Fails with `ProofTooLong` on a
    /// digest over the configured bound, `NoSuchProof` on an unclaimed
    /// digest, and `NotProofOwner` when the stored owner differs from
    /// `caller`; on failure the registry is unchanged. On success the claim
    /// is removed and the `ClaimRevoked` event is handed back for delivery.
    pub fn revoke_claim(&mut self, caller: u64, digest: Vec<u8>) -> (r: Result<
        Event,
        DispatchError,
    >)
        requires
            old(self).wf(),
        ensures
            final(self).wf(),
            final(self).max_bytes() == old(self).max_bytes(),
            final(self).claims() == revoke_post(
                old(self).claims(),
                old(self).max_bytes() as nat,
                caller,
                digest@,
            ),
            r is Ok <==> revoke_allowed(
                old(self).claims(),
                old(self).max_bytes() as nat,
                caller,
                digest@,
            ),
            r matches Ok(e) ==> e@ == (EventView::Revoked { who: caller, digest: digest@ }),
            r matches Err(e) ==> e == revoke_error(
                old(self).claims(),
                old(self).max_bytes() as nat,
                caller,
                digest@,
            ),
            r is Err ==> final(self).claims() == old(self).claims(),
    {
        if digest.len() > self.config.max_bytes_in_hash {
            return Err(DispatchError::ProofTooLong);
        }
        match self.remove_claim(&caller, &digest) {
            Ok(()) => Ok(Event::ClaimRevoked(caller, digest)),
            Err(e) => Err(DispatchError::Module(e)),
        }
    }

    /// Move `caller`'s claim on `digest` to `to`, atomically: a failure in
    /// the revoke half leaves the registry unchanged, and no insertion is
    /// attempted. A self-transfer is rejected with `TransferToSelf` before
    /// anything else; the revoke-half errors propagate unchanged. Because
    /// the transfer removes and re-inserts the row, `created_at` is
    /// refreshed to `now` — by design, not preserved from the original
    /// claim. On success the `ClaimTransferred` event is handed back for
    /// delivery.
    pub fn transfer_claim(&mut self, caller: u64, to: u64, digest: Vec<u8>, now: u64) -> (r: Result<
        Event,
        DispatchError,
    >)
        requires
            old(self).wf(),
        ensures
            final(self).wf(),
            final(self).max_bytes() == old(self).max_bytes(),
            final(self).claims() == transfer_post(
                old(self).claims(),
                old(self).max_bytes() as nat,
                caller,
                to,
                digest@,
                now,
            ),
            r is Ok <==> transfer_allowed(
                old(self).claims(),
                old(self).max_bytes() as nat,
                caller,
                to,
                digest@,
            ),
            r matches Ok(e) ==> e@ == (EventView::Transferred {
                from: caller,
                to: to,
                digest: digest@,
            }),
            r matches Err(e) ==> e == transfer_error(
                old(self).claims(),
                old(self).max_bytes() as nat,
                caller,
                to,
                digest@,
            ),
            r is Err ==> final(self).claims() == old(self).claims(),
    {
        if caller == to {
            return Err(DispatchError::Module(Error::TransferToSelf));
        }
        if digest.len() > self.config.max_bytes_in_hash {
            return Err(DispatchError::ProofTooLong);
        }
        match self.remove_claim(&caller, &digest) {
            Ok(()) => match self.add_claim(&to, &digest, now) {
                Ok(()) => Ok(Event::ClaimTransferred(caller, to, digest)),
                Err(e) => Err(DispatchError::Module(e)),
            },
            Err(e) => Err(DispatchError::Module(e)),
        }
    }
}

/// Byte-for-byte copy of a digest, so a borrowed key can become an owned row.
fn clone_digest(digest: &Vec<u8>) -> (r: Vec<u8>)
    ensures
        r@ == digest@,
{
    let r = digest.clone();
    proof {
        assert(r@ =~= digest@);
    }
    r
}

} // verus!
