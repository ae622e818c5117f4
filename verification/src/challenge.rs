//! The fixed-layout 397-byte challenge and its typed accessors.
//!
//! A challenge is an immutable binary blob. The only validation at decode
//! time is the length; all multi-byte integers inside it are big-endian.
//! Layout (0-based, half-open): `[0,32)` opaque header, `[32,64)` the base
//! `x`, `[64,320)` the modulus `p`, `[320,324)` the hardness `t`, `[324,340)`
//! reserved, `[340,341)` the IP-version tag, `[341,357)` the client IP slot,
//! `[357,397)` opaque trailer.

use vstd::prelude::*;
use vstd::slice::{slice_subrange, slice_to_vec};

use crate::bignum::{be_to_nat, lemma_be_to_nat_four};

verus! {

/// The exact size of an encoded challenge in bytes.
pub const CHALLENGE_SIZE: usize = 397;

/// The ways a challenge can fail to be processed.
///
/// Decoding fails on a wrong length or an unknown IP-version tag; the two
/// transport-level kinds are produced by the network collaborator around
/// this library and carried through unchanged.
#[derive(Debug, PartialEq, Eq)]
pub enum DuckityError {
    /// The decode input was not exactly [`CHALLENGE_SIZE`] bytes.
    InvalidLength,
    /// The IP-version tag byte was neither `4` nor `6`.
    UnsupportedIpVersion,
    /// A network-layer failure, with its description.
    TransportFailure(String),
    /// The remote service answered with a structured `title`/`message` error.
    ApiError(String, String),
}

/// The client IP address a challenge was issued for: four address bytes for
/// version 4, sixteen for version 6.
#[derive(Debug, PartialEq, Eq)]
pub enum ClientIp {
    V4(Vec<u8>),
    V6(Vec<u8>),
}

/// A decoded challenge: the original 397 bytes, owned and read-only.
pub struct Challenge {
    pub data: Vec<u8>,
}

impl View for Challenge {
    type V = Seq<u8>;

    open spec fn view(&self) -> Seq<u8> {
        self.data@
    }
}

impl Challenge {
    /// A well-formed challenge holds exactly [`CHALLENGE_SIZE`] bytes.
    pub open spec fn wf(&self) -> bool {
        self@.len() == CHALLENGE_SIZE
    }

    /// The value of the base `x`: bytes `[32,64)`, big-endian.
    pub open spec fn x_nat(&self) -> nat {
        be_to_nat(self@.subrange(32, 64))
    }

    /// The value of the modulus `p`: bytes `[64,320)`, big-endian.
    pub open spec fn p_nat(&self) -> nat {
        be_to_nat(self@.subrange(64, 320))
    }

    /// The hardness `t`: bytes `[320,324)`, big-endian.
    pub open spec fn t_nat(&self) -> nat {
        be_to_nat(self@.subrange(320, 324))
    }

    /// The IP-version tag byte at offset 340.
    pub open spec fn ip_tag(&self) -> u8 {
        self@[340]
    }

    /// Decode a challenge from bytes. Succeeds, keeping the bytes verbatim,
    /// exactly when the input is [`CHALLENGE_SIZE`] bytes long; any other
    /// length is rejected with [`DuckityError::InvalidLength`].
    pub fn decode(data: &[u8]) -> (r: Result<Self, DuckityError>)
        ensures
            data@.len() == CHALLENGE_SIZE ==> (r matches Ok(c) && c@ == data@ && c.wf()),
            data@.len() != CHALLENGE_SIZE ==> (r matches Err(e) && e is InvalidLength),
    {
        if data.len() != CHALLENGE_SIZE {
            return Err(DuckityError::InvalidLength);
        }
        Ok(Challenge { data: slice_to_vec(data) })
    }

    /// The challenge's backing bytes, unchanged.
    pub fn bytes(&self) -> (r: &[u8])
        ensures
            r@ == self@,
    {
        self.data.as_slice()
    }

    /// The big-endian bytes of `x`: exactly bytes `[32,64)` of the buffer.
    pub fn x(&self) -> (r: Vec<u8>)
        requires
            self.wf(),
        ensures
            r@ == self@.subrange(32, 64),
            be_to_nat(r@) == self.x_nat(),
    {
        slice_to_vec(slice_subrange(self.data.as_slice(), 32, 64))
    }

    /// The big-endian bytes of `p`: exactly bytes `[64,320)` of the buffer.
    pub fn p(&self) -> (r: Vec<u8>)
        requires
            self.wf(),
        ensures
            r@ == self@.subrange(64, 320),
            be_to_nat(r@) == self.p_nat(),
    {
        slice_to_vec(slice_subrange(self.data.as_slice(), 64, 320))
    }

    /// The hardness `t`, read most-significant byte first.
    pub fn t(&self) -> (r: u32)
        requires
            self.wf(),
        ensures
            r == self.t_nat(),
    {
        let b0 = self.data[320];
        let b1 = self.data[321];
        let b2 = self.data[322];
        let b3 = self.data[323];
        proof {
            let s = self@.subrange(320, 324);
            lemma_be_to_nat_four(s);
            assert(s[0] == b0 && s[1] == b1 && s[2] == b2 && s[3] == b3);
        }
        (b0 as u32) * 0x1000000 + (b1 as u32) * 0x10000 + (b2 as u32) * 0x100 + (b3 as u32)
    }

    /// The client IP. A tag byte of `4` selects exactly the next four bytes;
    /// `6` selects all sixteen of the address slot; anything else is
    /// rejected with [`DuckityError::UnsupportedIpVersion`]. The rest of the
    /// sixteen-byte slot is ignored in the `4` case.
    pub fn ip(&self) -> (r: Result<ClientIp, DuckityError>)
        requires
            self.wf(),
        ensures
            self.ip_tag() == 4 ==> (r matches Ok(ip) && ip matches ClientIp::V4(a) && a@
                == self@.subrange(341, 345)),
            self.ip_tag() == 6 ==> (r matches Ok(ip) && ip matches ClientIp::V6(a) && a@
                == self@.subrange(341, 357)),
            self.ip_tag() != 4 && self.ip_tag() != 6 ==> (r matches Err(e)
                && e is UnsupportedIpVersion),
    {
        let tag = self.data[340];
        if tag == 4 {
            Ok(ClientIp::V4(slice_to_vec(slice_subrange(self.data.as_slice(), 341, 345))))
        } else if tag == 6 {
            Ok(ClientIp::V6(slice_to_vec(slice_subrange(self.data.as_slice(), 341, 357))))
        } else {
            Err(DuckityError::UnsupportedIpVersion)
        }
    }
}

} // verus!
