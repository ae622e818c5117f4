//! The sequential puzzle solver and the solution codec.
//!
//! Solving repeats, exactly `t` times, the round `y <- y^((p+1)/4) mod p`
//! starting from `y = x`. The rounds are inherently sequential: each one
//! consumes the previous result, which is the delay mechanism the protocol
//! relies on. The solver validates nothing about `p`; a malformed modulus
//! yields whatever the formula yields, by design.
//!
//! A solution is encoded by concatenating the original 397 challenge bytes
//! with the minimal big-endian bytes of `y`, then applying URL-safe,
//! unpadded base64.

use vstd::prelude::*;
use vstd::slice::slice_to_vec;
use base64::Engine;

use crate::bignum::{
    be_to_nat, big_modpow, big_normalize, big_quarter, big_succ, lemma_be_to_nat_bound,
    lemma_nat_to_be_len, lemma_nat_to_be_value, nat_to_be, pow_nat,
};
use crate::challenge::{Challenge, CHALLENGE_SIZE};

verus! {

/// One solver round: raise to `(p+1)/4` and reduce modulo `p`.
pub open spec fn solve_round(y: nat, p: nat) -> nat {
    pow_nat(y, (p + 1) / 4) % p
}

/// The value after `t` sequential rounds starting from `x`.
pub open spec fn solve_rounds(x: nat, p: nat, t: nat) -> nat
    decreases t,
{
    if t == 0 {
        x
    } else {
        solve_round(solve_rounds(x, p, (t - 1) as nat), p)
    }
}

/// What an encoded base64url (no padding) text is, for given input bytes.
/// The encoding is a pure function of the bytes; its exact text is pinned
/// only by the trusted encoder below.
pub uninterp spec fn base64url_of(bytes: Seq<u8>) -> Seq<char>;

/// Relies on `base64`'s `URL_SAFE_NO_PAD` engine: the output is a pure
/// function of the input bytes, over the alphabet `A-Z a-z 0-9 - _` with no
/// `=` padding, so it never contains `+`, `/` or `=`.
#[verifier::external_body]
fn base64url_encode(bytes: &[u8]) -> (r: String)
    ensures
        r@ == base64url_of(bytes@),
        forall|i: int| 0 <= i < r@.len() ==> r@[i] != '+' && r@[i] != '/' && r@[i] != '=',
{
    base64::prelude::BASE64_URL_SAFE_NO_PAD.encode(bytes)
}

/// The solution to a challenge: the challenge itself plus the computed
/// result `y`, kept in minimal big-endian form. Both are read-only once
/// constructed.
pub struct Solution {
    pub challenge: Challenge,
    pub y: Vec<u8>,
}

impl Solution {
    /// The 397 challenge bytes carried through unchanged.
    pub open spec fn challenge_bytes(&self) -> Seq<u8> {
        self.challenge@
    }

    /// The minimal big-endian bytes of the computed result.
    pub open spec fn y_bytes(&self) -> Seq<u8> {
        self.y@
    }

    /// The concatenated raw form: challenge bytes, then `y` bytes.
    pub open spec fn raw_bytes(&self) -> Seq<u8> {
        self.challenge@ + self.y@
    }

    /// Well-formed: the challenge has its exact size and `y` is stored in
    /// minimal form (so its length is bounded by the modulus width).
    pub open spec fn wf(&self) -> bool {
        &&& self.challenge.wf()
        &&& self.y@ == nat_to_be(be_to_nat(self.y@))
        &&& self.y@.len() <= 256
    }

    /// Encode the solution: the full challenge buffer, then the minimal
    /// big-endian bytes of `y`, as URL-safe unpadded base64. The output
    /// never contains `+`, `/` or `=`.
    pub fn encode(&self) -> (r: String)
        requires
            self.wf(),
        ensures
            r@ == base64url_of(self.raw_bytes()),
            forall|i: int| 0 <= i < r@.len() ==> r@[i] != '+' && r@[i] != '/' && r@[i] != '=',
    {
        let mut buf = slice_to_vec(self.challenge.bytes());
        let mut tail = slice_to_vec(self.y.as_slice());
        buf.append(&mut tail);
        base64url_encode(buf.as_slice())
    }

    /// The raw (pre-base64) size: always 397 plus the length of the minimal
    /// big-endian encoding of `y`.
    pub fn raw_size(&self) -> (r: usize)
        requires
            self.wf(),
        ensures
            r == self.raw_bytes().len(),
            r == CHALLENGE_SIZE + self.y_bytes().len(),
    {
        self.challenge.bytes().len() + self.y.len()
    }
}

impl Challenge {
    /// Solve the challenge: starting from `x`, perform exactly `t`
    /// sequential rounds of `y <- y^((p+1)/4) mod p`, and wrap the original
    /// challenge bytes together with the final value.
    ///
    /// With `t > 0` the modulus must be nonzero, since reduction modulo
    /// zero is undefined; `t = 0` performs no arithmetic and returns
    /// `y = x` unchanged. No other property of `p` is checked: the server
    /// is trusted to issue a prime `p = 3 (mod 4)`, and for a malformed `p`
    /// the result is simply what the formula yields.
    pub fn solve(&self) -> (r: Solution)
        requires
            self.wf(),
            self.t_nat() == 0 || self.p_nat() > 0,
        ensures
            r.wf(),
            r.challenge_bytes() == self@,
            r.y_bytes() == nat_to_be(solve_rounds(self.x_nat(), self.p_nat(), self.t_nat())),
            be_to_nat(r.y_bytes()) == solve_rounds(self.x_nat(), self.p_nat(), self.t_nat()),
    {
        let x = self.x();
        let p = self.p();
        let t = self.t();

        let mut y = big_normalize(x.as_slice());
        proof {
            lemma_nat_to_be_value(self.x_nat());
            lemma_be_to_nat_bound(self@.subrange(32, 64));
            lemma_pow256_le(32, 256);
            lemma_nat_to_be_len(self.x_nat(), 256);
        }

        if t > 0 {
            let p1 = big_succ(p.as_slice());
            let e = big_quarter(p1.as_slice());
            proof {
                lemma_nat_to_be_value(self.p_nat() + 1);
                lemma_nat_to_be_value((self.p_nat() + 1) / 4);
            }

            let mut i: u32 = 0;
            while i < t
                invariant
                    i <= t,
                    t == self.t_nat(),
                    self.wf(),
                    self.p_nat() > 0,
                    p@ == self@.subrange(64, 320),
                    be_to_nat(e@) == (self.p_nat() + 1) / 4,
                    y@ == nat_to_be(solve_rounds(self.x_nat(), self.p_nat(), i as nat)),
                    be_to_nat(y@) == solve_rounds(self.x_nat(), self.p_nat(), i as nat),
                decreases t - i,
            {
                y = big_modpow(y.as_slice(), e.as_slice(), p.as_slice());
                proof {
                    lemma_nat_to_be_value(
                        solve_rounds(self.x_nat(), self.p_nat(), (i + 1) as nat),
                    );
                }
                i = i + 1;
            }
            proof {
                lemma_be_to_nat_bound(self@.subrange(64, 320));
                lemma_nat_to_be_len(
                    solve_rounds(self.x_nat(), self.p_nat(), self.t_nat()),
                    256,
                );
            }
        }

        Solution { challenge: Challenge { data: slice_to_vec(self.bytes()) }, y }
    }
}

/// Powers of 256 are monotone in the exponent.
proof fn lemma_pow256_le(j: nat, k: nat)
    requires
        j <= k,
    ensures
        pow_nat(256, j) <= pow_nat(256, k),
    decreases k,
{
    if j < k {
        lemma_pow256_le(j, (k - 1) as nat);
        assert(pow_nat(256, k) == 256 * pow_nat(256, (k - 1) as nat));
    }
}

/// Round-trip preservation: a well-formed solution carries its challenge's
/// 397 bytes verbatim as the prefix of the raw encoded buffer.
pub proof fn lemma_solution_preserves_challenge(s: Solution)
    requires
        s.wf(),
    ensures
        s.raw_bytes().len() >= CHALLENGE_SIZE,
        s.raw_bytes().subrange(0, CHALLENGE_SIZE as int) == s.challenge_bytes(),
{
    assert(s.raw_bytes().subrange(0, CHALLENGE_SIZE as int) =~= s.challenge_bytes());
}

/// Zero-rounds identity: a challenge with hardness `t = 0` solves to the
/// base value `x` itself.
pub proof fn lemma_zero_rounds_identity(c: Challenge)
    requires
        c.wf(),
        c.t_nat() == 0,
    ensures
        solve_rounds(c.x_nat(), c.p_nat(), c.t_nat()) == c.x_nat(),
{
}

/// Determinism: the solved value is a function of the challenge bytes
/// alone — two challenges over equal buffers solve to equal values.
pub proof fn lemma_solve_deterministic(c1: Challenge, c2: Challenge)
    requires
        c1.wf(),
        c2.wf(),
        c1@ == c2@,
    ensures
        solve_rounds(c1.x_nat(), c1.p_nat(), c1.t_nat()) == solve_rounds(
            c2.x_nat(),
            c2.p_nat(),
            c2.t_nat(),
        ),
{
}

} // verus!
