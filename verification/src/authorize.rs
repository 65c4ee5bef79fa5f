//! The authorization guard.
//!
//! A client proves that it knows the shared secret by writing the SHA3-256
//! digest of the secret to the commitment value, in one piece or in several.
//! While the commitment equals the digest the guard is armed for
//! [`AUTHORIZE_TIMEOUT_SECS`] seconds, counted down by [`AuthorizeService::tick`].
//! When the countdown runs out the commitment is wiped, so that only a full
//! rewrite authorizes again.

use vstd::prelude::*;
use vstd::utf8::encode_utf8;
use sha3::Digest;
use crate::chunked::fits;
use crate::chunked::spliced;
use crate::chunked::write_fixed;
use crate::error::ReqError;
use crate::text::bytes_equal;

verus! {

/// Identifier of the authorization service.
pub const AUTHORIZE_SERVICE_UUID: u128 = 0xd69a37ee1d8a4329bd2425db4af3c865;

/// Identifier of the commitment characteristic.
pub const KEY_CHAR_UUID: u128 = 0x811ce66622e04a6da50f0c78e076faa6;

/// Seconds for which a matching commitment authorizes.
pub const AUTHORIZE_TIMEOUT_SECS: u64 = 300;

/// Length of the commitment and of the digest it is compared with.
pub const KEY_LENGTH: usize = 32;

/// The SHA3-256 digest of `data`.
pub uninterp spec fn sha3_256(data: Seq<u8>) -> Seq<u8>;

/// `sha3::Sha3_256::digest`, the one-shot form of the hasher: it absorbs
/// `data` and returns the 32 bytes of output as an array. The contract gives
/// that output the name [`sha3_256`]; nothing else is claimed of it.
#[verifier::external_body]
fn sha3_256_digest(data: &[u8]) -> (out: [u8; 32])
    ensures
        out@ == sha3_256(data@),
{
    sha3::Sha3_256::digest(data).into()
}

/// A read-only view on an authorization: the capability that the gated
/// services consult.
pub trait Authorized {
    /// Whether an authorization is in force.
    spec fn authorized(&self) -> bool;

    /// Whether an authorization is in force.
    fn is_authorized(&self) -> (b: bool)
        ensures
            b == self.authorized(),
    ;
}

/// The all-zero commitment.
pub open spec fn blank_key() -> Seq<u8> {
    Seq::new(KEY_LENGTH as nat, |i: int| 0u8)
}

/// What the guard holds, as a mathematical value.
pub struct AuthorizationContext {
    /// The bytes written by the client so far.
    pub commitment: Seq<u8>,
    /// The digest of the configured secret.
    pub expected: Seq<u8>,
    /// Seconds of authorization that are left.
    pub remaining: nat,
}

impl AuthorizationContext {
    /// Both buffers have their fixed length and the countdown is in range.
    pub open spec fn wf(self) -> bool {
        &&& self.commitment.len() == KEY_LENGTH
        &&& self.expected.len() == KEY_LENGTH
        &&& self.remaining <= AUTHORIZE_TIMEOUT_SECS
    }

    /// Whether an authorization is in force.
    pub open spec fn authorized(self) -> bool {
        self.remaining > 0
    }

    /// The guard at startup.
    pub open spec fn initial(expected: Seq<u8>) -> AuthorizationContext {
        AuthorizationContext { commitment: blank_key(), expected, remaining: 0 }
    }

    /// The guard after an accepted write of `bytes` at `offset`.
    pub open spec fn written(self, offset: int, bytes: Seq<u8>) -> AuthorizationContext {
        let commitment = spliced(self.commitment, offset, bytes);
        AuthorizationContext {
            commitment,
            expected: self.expected,
            remaining: if commitment == self.expected {
                AUTHORIZE_TIMEOUT_SECS as nat
            } else {
                0
            },
        }
    }

    /// The guard one second later.
    pub open spec fn ticked(self) -> AuthorizationContext {
        if self.remaining == 0 {
            self
        } else if self.remaining == 1 {
            AuthorizationContext { commitment: blank_key(), expected: self.expected, remaining: 0 }
        } else {
            AuthorizationContext { remaining: (self.remaining - 1) as nat, ..self }
        }
    }

    /// The guard `n` seconds later, with no write in between.
    pub open spec fn ticked_times(self, n: nat) -> AuthorizationContext
        decreases n,
    {
        if n == 0 {
            self
        } else {
            self.ticked().ticked_times((n - 1) as nat)
        }
    }
}

/// The authorization guard of one daemon.
pub struct AuthorizeService {
    key: Vec<u8>,
    expected: [u8; 32],
    remaining: u64,
}

impl View for AuthorizeService {
    type V = AuthorizationContext;

    closed spec fn view(&self) -> AuthorizationContext {
        AuthorizationContext {
            commitment: self.key@,
            expected: self.expected@,
            remaining: self.remaining as nat,
        }
    }
}

impl AuthorizeService {
    /// A guard for the secret `device_id`, not authorized.
    pub fn new(device_id: String) -> (service: AuthorizeService)
        ensures
            service@ == AuthorizationContext::initial(sha3_256(encode_utf8(device_id@))),
            service@.wf(),
    {
        Self::with_digest(sha3_256_digest(device_id.as_str().as_bytes()))
    }

    /// A guard that expects `expected` as commitment, not authorized.
    pub fn with_digest(expected: [u8; 32]) -> (service: AuthorizeService)
        ensures
            service@ == AuthorizationContext::initial(expected@),
            service@.wf(),
    {
        let key: Vec<u8> = vec![0u8; 32];
        assert(key@ =~= blank_key());
        AuthorizeService { key, expected, remaining: 0 }
    }

    /// Writes `new_value` into the commitment at `offset` and compares the
    /// whole commitment with the digest: on a match the countdown starts
    /// anew, otherwise the authorization ends. A mismatch leaves the bytes
    /// in place, since the pieces of a commitment written in several steps
    /// match only when the last one has arrived.
    pub fn write_key(&mut self, offset: usize, new_value: &[u8]) -> (res: Result<(), ReqError>)
        requires
            old(self)@.wf(),
        ensures
            match res {
                Ok(_) => fits(KEY_LENGTH as int, offset as int, new_value@.len() as int)
                    && final(self)@ == old(self)@.written(offset as int, new_value@),
                Err(e) => !fits(KEY_LENGTH as int, offset as int, new_value@.len() as int)
                    && e == ReqError::InvalidLength && final(self)@ == old(self)@,
            },
            final(self)@.wf(),
    {
        match write_fixed(&mut self.key, offset, new_value) {
            Err(e) => Err(e),
            Ok(_) => {
                let same: bool = bytes_equal(self.key.as_slice(), self.expected.as_slice());
                self.remaining = if same {
                    AUTHORIZE_TIMEOUT_SECS
                } else {
                    0
                };
                Ok(())
            },
        }
    }

    /// Counts one second off a running authorization. When the last second
    /// is gone the commitment is wiped.
    pub fn tick(&mut self)
        requires
            old(self)@.wf(),
        ensures
            final(self)@ == old(self)@.ticked(),
            final(self)@.wf(),
    {
        if self.remaining > 0 {
            self.remaining = self.remaining - 1;
            if self.remaining == 0 {
                let blank: Vec<u8> = vec![0u8; 32];
                assert(blank@ =~= blank_key());
                self.key = blank;
            }
        }
    }
}

impl Authorized for AuthorizeService {
    open spec fn authorized(&self) -> bool {
        self@.authorized()
    }

    fn is_authorized(&self) -> (b: bool) {
        self.remaining > 0
    }
}

/// Ticks count a running authorization down and never below zero.
pub proof fn lemma_ticked_times(s: AuthorizationContext, n: nat)
    requires
        s.wf(),
    ensures
        s.ticked_times(n).wf(),
        s.ticked_times(n).expected == s.expected,
        s.ticked_times(n).remaining == if n <= s.remaining {
            s.remaining - n
        } else {
            0
        },
        0 < s.remaining <= n ==> s.ticked_times(n).commitment == blank_key(),
        n < s.remaining || s.remaining == 0 ==> s.ticked_times(n).commitment == s.commitment,
    decreases n,
{
    if n > 0 {
        lemma_ticked_times(s.ticked(), (n - 1) as nat);
    }
}

/// Writing the whole digest authorizes for the full period and writing any
/// other 32 bytes ends the authorization. The period lasts exactly
/// [`AUTHORIZE_TIMEOUT_SECS`] ticks: until then the guard stays authorized
/// and keeps the commitment, after that it is not authorized and the
/// commitment is blank.
pub proof fn lemma_grant_and_expiry(s: AuthorizationContext, value: Seq<u8>, n: nat)
    requires
        s.wf(),
        value.len() == KEY_LENGTH,
    ensures
        s.written(0, value).wf(),
        s.written(0, value).commitment == value,
        value == s.expected ==> s.written(0, value).remaining == AUTHORIZE_TIMEOUT_SECS,
        value != s.expected ==> !s.written(0, value).authorized(),
        value == s.expected && n < AUTHORIZE_TIMEOUT_SECS ==> s.written(0, value).ticked_times(
            n,
        ).authorized() && s.written(0, value).ticked_times(n).commitment == value,
        value == s.expected && n >= AUTHORIZE_TIMEOUT_SECS ==> !s.written(0, value).ticked_times(
            n,
        ).authorized() && s.written(0, value).ticked_times(n).commitment == blank_key(),
{
    assert(spliced(s.commitment, 0, value) =~= value);
    lemma_ticked_times(s.written(0, value), n);
}

} // verus!
