//! Concrete instances of the laws proved in `poe::laws`, run through the
//! public operations.

use poe::errors::{DispatchError, Error, Event};
use poe::registry::{Config, Pallet};

fn fresh() -> Pallet {
    Pallet::new(Config { max_bytes_in_hash: 8 })
}

// Uniqueness: after a successful create, no later create of the same digest
// succeeds — across transfers — until a revoke of it succeeds.
#[test]
fn create_unique_until_revoked() {
    let mut p = fresh();
    assert!(p.create_claim(1, b"d".to_vec(), 1).is_ok());
    assert_eq!(
        p.create_claim(1, b"d".to_vec(), 2),
        Err(DispatchError::Module(Error::ProofAlreadyClaimed))
    );
    assert!(p.transfer_claim(1, 2, b"d".to_vec(), 3).is_ok());
    assert_eq!(
        p.create_claim(3, b"d".to_vec(), 4),
        Err(DispatchError::Module(Error::ProofAlreadyClaimed))
    );
    assert!(p.revoke_claim(2, b"d".to_vec()).is_ok());
    assert_eq!(p.create_claim(3, b"d".to_vec(), 5), Ok(Event::ClaimCreated(3, b"d".to_vec())));
}

// Ownership gating: revoke and transfer succeed exactly for the stored
// owner; an absent digest reports NoSuchProof ahead of NotProofOwner.
#[test]
fn ownership_gates_revoke_and_transfer() {
    let mut p = fresh();
    assert!(p.create_claim(1, b"g".to_vec(), 1).is_ok());
    assert_eq!(p.revoke_claim(2, b"g".to_vec()), Err(DispatchError::Module(Error::NotProofOwner)));
    assert_eq!(
        p.transfer_claim(2, 3, b"g".to_vec(), 2),
        Err(DispatchError::Module(Error::NotProofOwner))
    );
    assert_eq!(p.revoke_claim(2, b"h".to_vec()), Err(DispatchError::Module(Error::NoSuchProof)));
    assert_eq!(
        p.transfer_claim(2, 3, b"h".to_vec(), 2),
        Err(DispatchError::Module(Error::NoSuchProof))
    );
    assert!(p.transfer_claim(1, 2, b"g".to_vec(), 3).is_ok());
    assert!(p.revoke_claim(2, b"g".to_vec()).is_ok());
}

// Self-transfer rejection: TransferToSelf wins whether the digest is
// absent, owned by the caller, or owned by someone else.
#[test]
fn self_transfer_always_rejected() {
    let mut p = fresh();
    assert_eq!(
        p.transfer_claim(1, 1, b"s".to_vec(), 1),
        Err(DispatchError::Module(Error::TransferToSelf))
    );
    assert!(p.create_claim(1, b"s".to_vec(), 2).is_ok());
    assert_eq!(
        p.transfer_claim(1, 1, b"s".to_vec(), 3),
        Err(DispatchError::Module(Error::TransferToSelf))
    );
    assert_eq!(
        p.transfer_claim(2, 2, b"s".to_vec(), 4),
        Err(DispatchError::Module(Error::TransferToSelf))
    );
    assert_eq!(p.get_claim(&b"s".to_vec()), Some((1, 2)));
}

// Atomicity: a failing transfer leaves every digest exactly as it was.
#[test]
fn failing_transfer_changes_nothing() {
    let mut p = fresh();
    assert!(p.create_claim(1, b"a".to_vec(), 1).is_ok());
    assert!(p.create_claim(2, b"b".to_vec(), 2).is_ok());
    let r = p.transfer_claim(3, 4, b"a".to_vec(), 9);
    assert!(r.is_err());
    let r2 = p.transfer_claim(1, 2, b"c".to_vec(), 9);
    assert!(r2.is_err());
    assert_eq!(p.get_claim(&b"a".to_vec()), Some((1, 1)));
    assert_eq!(p.get_claim(&b"b".to_vec()), Some((2, 2)));
    assert_eq!(p.get_claim(&b"c".to_vec()), None);
}

// Round-trip: create then revoke by the same actor restores the registry,
// other entries untouched.
#[test]
fn create_then_revoke_restores_prior_state() {
    let mut p = fresh();
    assert!(p.create_claim(5, b"keep".to_vec(), 1).is_ok());
    assert!(p.create_claim(6, b"temp".to_vec(), 2).is_ok());
    assert!(p.revoke_claim(6, b"temp".to_vec()).is_ok());
    assert_eq!(p.get_claim(&b"temp".to_vec()), None);
    assert_eq!(p.get_claim(&b"keep".to_vec()), Some((5, 1)));
    assert_eq!(p.create_claim(7, b"temp".to_vec(), 3), Ok(Event::ClaimCreated(7, b"temp".to_vec())));
}
