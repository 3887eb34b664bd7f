//! The signing-key lifecycle: bootstrap, scheduled rotation with a
//! grace-period overlap, and the single persisted [`KeySet`] that carries
//! the current keypair plus at most one retired verification key.
//!
//! Rotation never mutates a key set in place: each rotation builds a brand
//! new value that replaces the persisted one wholesale.  Persistence itself
//! (an encrypted named parameter) is the caller's collaborator; this module
//! decides *whether* and *with what* to overwrite it.

use vstd::prelude::*;

verus! {

/// The fixed window before expiry in which rotation becomes due, and after
/// a rotation in which the retired key keeps verifying, in seconds (1 day).
pub const GRACE_PERIOD_SECS: i64 = 86400;

/// Seconds in a day.
pub const SECONDS_PER_DAY: i64 = 86400;

/// Default lifetime of a fresh key set, in days.
pub const DEFAULT_EXPIRY_DAYS: i64 = 30;

/// Latest timestamp the lifecycle arithmetic accepts (seconds); far beyond
/// any realistic clock, yet small enough that no sum here overflows.
pub const MAX_TIMESTAMP: i64 = 4102444800000;

/// Longest accepted key lifetime, in days.
pub const MAX_EXPIRY_DAYS: i64 = 36500;

/// The result of the ed25519 public-key derivation for a 32-byte seed.
pub uninterp spec fn public_key_of(seed: Seq<u8>) -> Seq<u8>;

/// Relies on `ed25519_dalek::SigningKey::generate` (with the system
/// random source) and `SigningKey::verifying_key`: the returned pair is a
/// fresh 32-byte seed together with exactly the public key derived from it.
#[verifier::external_body]
fn generate_keypair() -> (r: ([u8; 32], [u8; 32]))
    ensures
        r.1@ == public_key_of(r.0@),
{
    let keys = ed25519_dalek::SigningKey::generate(&mut rand::rngs::OsRng);
    (keys.to_bytes(), keys.verifying_key().to_bytes())
}

/// The unit of trust: one live signing keypair, the verification key that
/// was current before the last rotation (if any), and its window.
#[derive(Clone, Copy, Debug)]
pub struct KeySet {
    /// 32-byte private seed; never leaves the lifecycle manager except
    /// toward the secret store.
    pub signing_key: [u8; 32],
    /// Public key corresponding to `signing_key`.
    pub verify_key: [u8; 32],
    /// The `verify_key` that was active immediately before the last
    /// rotation; absent on first bootstrap.
    pub previous_verify_key: Option<[u8; 32]>,
    /// Creation time, Unix seconds.
    pub created_at: i64,
    /// Expiry time, Unix seconds.  Always after `created_at`.
    pub expires_at: i64,
}

/// The external command that drives the lifecycle: unconditional creation,
/// or the scheduled rotation check.
#[derive(Clone, Copy, Debug)]
pub enum Command {
    Create,
    Update,
}

/// Timestamp and lifetime bounds under which the lifecycle arithmetic
/// cannot overflow.
pub open spec fn lifecycle_bounds(now: i64, expiry_days: i64) -> bool {
    &&& 0 <= now <= MAX_TIMESTAMP
    &&& 1 <= expiry_days <= MAX_EXPIRY_DAYS
}

impl KeySet {
    /// Well-formedness: the window is nonempty and the verification key is
    /// the one derived from the private seed.
    pub open spec fn wf(self) -> bool {
        &&& self.expires_at > self.created_at
        &&& self.verify_key@ == public_key_of(self.signing_key@)
    }

    /// Whether rotation is due at `now`: the expiry lies within the
    /// grace period.
    pub open spec fn rotation_due_spec(self, now: i64) -> bool {
        self.expires_at <= now + GRACE_PERIOD_SECS
    }

    /// The key set built from a keypair at `now` with the given lifetime
    /// and inherited previous key.
    pub open spec fn built_spec(
        seed: [u8; 32],
        vk: [u8; 32],
        prev: Option<[u8; 32]>,
        now: i64,
        expiry_days: i64,
    ) -> KeySet {
        KeySet {
            signing_key: seed,
            verify_key: vk,
            previous_verify_key: prev,
            created_at: now,
            expires_at: (now + expiry_days * SECONDS_PER_DAY) as i64,
        }
    }

    /// Rotation check, executable form.
    pub fn rotation_due(&self, now: i64) -> (r: bool)
        requires
            0 <= now <= MAX_TIMESTAMP,
        ensures
            r == self.rotation_due_spec(now),
    {
        self.expires_at <= now + GRACE_PERIOD_SECS
    }

    /// Builds the key set around a keypair.
    fn build(
        pair: ([u8; 32], [u8; 32]),
        prev: Option<[u8; 32]>,
        now: i64,
        expiry_days: i64,
    ) -> (r: KeySet)
        requires
            lifecycle_bounds(now, expiry_days),
        ensures
            r == KeySet::built_spec(pair.0, pair.1, prev, now, expiry_days),
            r.expires_at == now + expiry_days * SECONDS_PER_DAY,
            r.expires_at > r.created_at,
    {
        let expires_at: i64 = now + expiry_days * SECONDS_PER_DAY;
        KeySet {
            signing_key: pair.0,
            verify_key: pair.1,
            previous_verify_key: prev,
            created_at: now,
            expires_at,
        }
    }

    /// Bootstrap: a brand-new key set with a fresh keypair and no
    /// previous key.
    pub fn create(now: i64, expiry_days: i64) -> (r: KeySet)
        requires
            lifecycle_bounds(now, expiry_days),
        ensures
            r.wf(),
            r.previous_verify_key is None,
            r.created_at == now,
            r.expires_at == now + expiry_days * SECONDS_PER_DAY,
    {
        let pair: ([u8; 32], [u8; 32]) = generate_keypair();
        Self::build(pair, None, now, expiry_days)
    }

    /// The scheduled rotation check over the stored state.  `None` asks
    /// the caller to persist nothing (rotation not yet due); `Some` is the
    /// replacement to persist wholesale.  An absent stored value
    /// bootstraps.  Only one generation of overlap is kept: the outgoing
    /// `verify_key` becomes the new `previous_verify_key`, and whatever
    /// the outgoing set retired before is dropped.
    pub fn next_key_set(stored: Option<&KeySet>, now: i64, expiry_days: i64) -> (r: Option<
        KeySet,
    >)
        requires
            lifecycle_bounds(now, expiry_days),
        ensures
            r is None <==> (stored is Some && !stored->0.rotation_due_spec(now)),
            stored is None ==> (r is Some && r->0.previous_verify_key is None),
            stored is Some && stored->0.rotation_due_spec(now) ==> (r is Some
                && r->0.previous_verify_key == Some(stored->0.verify_key)),
            r is Some ==> (r->0.wf() && r->0.created_at == now && r->0.expires_at == now
                + expiry_days * SECONDS_PER_DAY),
    {
        match stored {
            None => Some(Self::create(now, expiry_days)),
            Some(current) => {
                if current.rotation_due(now) {
                    let pair: ([u8; 32], [u8; 32]) = generate_keypair();
                    Some(Self::build(pair, Some(current.verify_key), now, expiry_days))
                } else {
                    None
                }
            },
        }
    }

    /// One step of the lifecycle driver: `Create` builds and persists a
    /// fresh key set unconditionally; `Update` persists the rotation
    /// check's replacement, if any.  The returned value is what the caller
    /// must write to the secret store (`None`: nothing).
    pub fn plan(command: Command, stored: Option<&KeySet>, now: i64, expiry_days: i64) -> (r:
        Option<KeySet>)
        requires
            lifecycle_bounds(now, expiry_days),
        ensures
            command is Create ==> (r is Some && r->0.wf() && r->0.previous_verify_key is None
                && r->0.created_at == now),
            command is Update ==> {
                &&& (r is None <==> (stored is Some && !stored->0.rotation_due_spec(now)))
                &&& (stored is None ==> (r is Some && r->0.previous_verify_key is None))
                &&& (stored is Some && stored->0.rotation_due_spec(now) ==> (r is Some
                    && r->0.previous_verify_key == Some(stored->0.verify_key)))
                &&& (r is Some ==> (r->0.wf() && r->0.created_at == now))
            },
    {
        match command {
            Command::Create => Some(Self::create(now, expiry_days)),
            Command::Update => Self::next_key_set(stored, now, expiry_days),
        }
    }
}

/// Rotating a due key set hands the outgoing verification key down as the
/// previous key; and whenever the fresh key differs from the outgoing one
/// (random generation makes a collision vanishingly unlikely, but no
/// contract can exclude it), the verification key changes.
pub proof fn lemma_rotation_handover(
    current: KeySet,
    fresh_seed: [u8; 32],
    fresh_vk: [u8; 32],
    now: i64,
    expiry_days: i64,
)
    requires
        current.rotation_due_spec(now),
        fresh_vk@ != current.verify_key@,
        lifecycle_bounds(now, expiry_days),
    ensures
        ({
            let next = KeySet::built_spec(
                fresh_seed,
                fresh_vk,
                Some(current.verify_key),
                now,
                expiry_days,
            );
            &&& next.previous_verify_key == Some(current.verify_key)
            &&& next.verify_key@ != current.verify_key@
        }),
{
}

} // verus!
