//! Laws of the registry, stated over the same transition functions that the
//! contracts of [`crate::registry::Pallet`]'s operations use, and proved for
//! arbitrary histories of operations.

use crate::errors::{DispatchError, Error};
use crate::registry::{
    create_allowed, create_post, revoke_allowed, revoke_error, revoke_post, transfer_allowed,
    transfer_error, transfer_post,
};
use vstd::prelude::*;

verus! {

/// One registry call, abstracted to its arguments.
pub enum Op {
    Create { caller: u64, digest: Seq<u8>, now: u64 },
    Revoke { caller: u64, digest: Seq<u8> },
    Transfer { caller: u64, to: u64, digest: Seq<u8>, now: u64 },
}

/// Whether `op` succeeds against the claims map `m`.
pub open spec fn op_allowed(m: Map<Seq<u8>, (u64, u64)>, max: nat, op: Op) -> bool {
    match op {
        Op::Create { caller, digest, now } => create_allowed(m, max, digest),
        Op::Revoke { caller, digest } => revoke_allowed(m, max, caller, digest),
        Op::Transfer { caller, to, digest, now } => transfer_allowed(m, max, caller, to, digest),
    }
}

/// The claims map after `op`: changed on success, untouched on failure.
pub open spec fn op_post(m: Map<Seq<u8>, (u64, u64)>, max: nat, op: Op) -> Map<Seq<u8>, (u64, u64)> {
    match op {
        Op::Create { caller, digest, now } => create_post(m, max, caller, digest, now),
        Op::Revoke { caller, digest } => revoke_post(m, max, caller, digest),
        Op::Transfer { caller, to, digest, now } => transfer_post(m, max, caller, to, digest, now),
    }
}

/// The claims map after a whole history of calls, applied in order.
pub open spec fn run_ops(m: Map<Seq<u8>, (u64, u64)>, max: nat, ops: Seq<Op>) -> Map<
    Seq<u8>,
    (u64, u64),
>
    decreases ops.len(),
{
    if ops.len() == 0 {
        m
    } else {
        op_post(run_ops(m, max, ops.drop_last()), max, ops.last())
    }
}

/// Whether `op` is a revoke of `digest` that succeeds against `m`: the one
/// kind of step that can unclaim a digest.
pub open spec fn successful_revoke_of(
    m: Map<Seq<u8>, (u64, u64)>,
    max: nat,
    op: Op,
    digest: Seq<u8>,
) -> bool {
    op matches Op::Revoke { caller, digest: d } && d == digest && revoke_allowed(
        m,
        max,
        caller,
        digest,
    )
}

/// A claimed digest stays claimed across any history that contains no
/// successful revoke of it: a create leaves other keys alone and cannot
/// touch a present one, and a transfer re-inserts the digest it removes.
pub proof fn lemma_claim_persists(
    m: Map<Seq<u8>, (u64, u64)>,
    max: nat,
    ops: Seq<Op>,
    digest: Seq<u8>,
)
    requires
        m.contains_key(digest),
        forall|i: int|
            0 <= i < ops.len() ==> !successful_revoke_of(
                run_ops(m, max, ops.take(i)),
                max,
                #[trigger] ops[i],
                digest,
            ),
    ensures
        run_ops(m, max, ops).contains_key(digest),
    decreases ops.len(),
{
    if ops.len() > 0 {
        let prefix = ops.drop_last();
        assert forall|i: int| 0 <= i < prefix.len() implies !successful_revoke_of(
            run_ops(m, max, prefix.take(i)),
            max,
            #[trigger] prefix[i],
            digest,
        ) by {
            assert(prefix[i] == ops[i]);
            assert(prefix.take(i) =~= ops.take(i));
        }
        lemma_claim_persists(m, max, prefix, digest);
        let m1 = run_ops(m, max, prefix);
        let last = ops.last();
        assert(ops.take(ops.len() - 1) =~= prefix);
        assert(!successful_revoke_of(m1, max, last, digest));
        match last {
            Op::Create { caller, digest: d, now } => {},
            Op::Revoke { caller, digest: d } => {},
            Op::Transfer { caller, to, digest: d, now } => {},
        }
    }
}

/// Law (uniqueness): once a `create_claim` of a digest has succeeded, no
/// later `create_claim` of the same digest can succeed until a
/// `revoke_claim` of it succeeds — however many other calls, including
/// transfers of that digest, stand in between.
pub proof fn lemma_create_unique_until_revoked(
    m: Map<Seq<u8>, (u64, u64)>,
    max: nat,
    caller: u64,
    digest: Seq<u8>,
    now: u64,
    ops: Seq<Op>,
)
    requires
        create_allowed(m, max, digest),
        forall|i: int|
            0 <= i < ops.len() ==> !successful_revoke_of(
                run_ops(create_post(m, max, caller, digest, now), max, ops.take(i)),
                max,
                #[trigger] ops[i],
                digest,
            ),
    ensures
        !create_allowed(run_ops(create_post(m, max, caller, digest, now), max, ops), max, digest),
{
    let m1 = create_post(m, max, caller, digest, now);
    assert(m1.contains_key(digest));
    lemma_claim_persists(m1, max, ops, digest);
}

/// Law (ownership gating): a revoke or the revoke half of a transfer is
/// allowed exactly when the digest is claimed by the calling actor; when it
/// is not, an absent digest reports `NoSuchProof` and a foreign owner
/// `NotProofOwner` — existence is checked before ownership.
pub proof fn lemma_ownership_gating(
    m: Map<Seq<u8>, (u64, u64)>,
    max: nat,
    caller: u64,
    to: u64,
    digest: Seq<u8>,
)
    requires
        digest.len() <= max,
    ensures
        revoke_allowed(m, max, caller, digest) <==> m.contains_key(digest) && m[digest].0
            == caller,
        transfer_allowed(m, max, caller, to, digest) <==> caller != to && m.contains_key(digest)
            && m[digest].0 == caller,
        !m.contains_key(digest) ==> revoke_error(m, max, caller, digest) == DispatchError::Module(
            Error::NoSuchProof,
        ),
        m.contains_key(digest) && m[digest].0 != caller ==> revoke_error(m, max, caller, digest)
            == DispatchError::Module(Error::NotProofOwner),
        caller != to && !m.contains_key(digest) ==> transfer_error(m, max, caller, to, digest)
            == DispatchError::Module(Error::NoSuchProof),
        caller != to && m.contains_key(digest) && m[digest].0 != caller ==> transfer_error(
            m,
            max,
            caller,
            to,
            digest,
        ) == DispatchError::Module(Error::NotProofOwner),
{
}

/// Law (self-transfer rejection): a transfer whose target equals the caller
/// is never allowed, reports `TransferToSelf`, and leaves the claims map
/// unchanged — whatever the registry holds and whoever owns the digest.
pub proof fn lemma_self_transfer_rejected(
    m: Map<Seq<u8>, (u64, u64)>,
    max: nat,
    caller: u64,
    digest: Seq<u8>,
    now: u64,
)
    ensures
        !transfer_allowed(m, max, caller, caller, digest),
        transfer_error(m, max, caller, caller, digest) == DispatchError::Module(
            Error::TransferToSelf,
        ),
        transfer_post(m, max, caller, caller, digest, now) == m,
{
}

/// Law (atomicity): an operation that is not allowed leaves the claims map
/// of every digest exactly as it was — in particular a failing transfer
/// never shows a partial revoke-then-create.
pub proof fn lemma_failed_op_changes_nothing(m: Map<Seq<u8>, (u64, u64)>, max: nat, op: Op)
    requires
        !op_allowed(m, max, op),
    ensures
        op_post(m, max, op) == m,
{
}

/// Law (round-trip): a successful `create_claim` of a fresh digest followed
/// by a `revoke_claim` of it by the same actor is always allowed and
/// restores the claims map exactly to its value before the create.
pub proof fn lemma_create_revoke_roundtrip(
    m: Map<Seq<u8>, (u64, u64)>,
    max: nat,
    caller: u64,
    digest: Seq<u8>,
    now: u64,
)
    requires
        create_allowed(m, max, digest),
    ensures
        revoke_allowed(create_post(m, max, caller, digest, now), max, caller, digest),
        revoke_post(create_post(m, max, caller, digest, now), max, caller, digest) == m,
{
    let m1 = create_post(m, max, caller, digest, now);
    assert(m1 == m.insert(digest, (caller, now)));
    assert(m1.remove(digest) =~= m);
}

} // verus!
