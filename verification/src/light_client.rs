//! The threshold verifier: matches commit signatures to committee members by
//! derived address, checks each signature over the header digest, accumulates
//! the voting power of validly signing validators at most once each, and
//! accepts exactly when that power strictly exceeds two thirds of the total.

use vstd::prelude::*;

verus! {

use crate::codec::{CommitSignature, TendermintHeader, header_digest, sha256_of};

/// A committee member: opaque signing-key bytes and a voting weight.
#[derive(Clone, Debug)]
pub struct Validator {
    pub pub_key: Vec<u8>,
    pub voting_power: u64,
}

/// The trusted committee: an ordered list of validators and the sum of their
/// voting power. `new` rejects a stated total that does not match the sum, or
/// a duplicated public key; that check happens at construction, never later.
#[derive(Clone, Debug)]
pub struct ValidatorSet {
    pub validators: Vec<Validator>,
    pub total_voting_power: u64,
}

/// Why an input was rejected before any cryptographic work.
#[derive(Clone, Copy, PartialEq, Eq, Structural, Debug)]
pub enum LightClientError {
    /// A key, signature or total had the wrong length or value.
    MalformedInput,
}

/// Whether an Ed25519 signature is valid for a message under a 32-byte
/// public key. Named but not written out: it is decided only by the
/// `ed25519_dalek` crate and never restated here.
pub uninterp spec fn ed25519_valid(pub_key: Seq<u8>, msg: Seq<u8>, sig: Seq<u8>) -> bool;

/// Relies on ed25519_dalek::VerifyingKey::{from_bytes, verify}: deterministic
/// Ed25519 verification, a function of the key, message and signature bytes
/// alone; a key that does not parse as a curve point validates nothing.
#[verifier::external_body]
fn ed25519_verify(pub_key: &[u8], msg: &[u8; 32], sig: &[u8]) -> (r: bool)
    requires
        pub_key@.len() == 32,
        sig@.len() == 64,
    ensures
        r == ed25519_valid(pub_key@, msg@, sig@),
{
    let pk: [u8; 32] = match pub_key.try_into() {
        Ok(a) => a,
        Err(_) => return false,
    };
    let sg: [u8; 64] = match sig.try_into() {
        Ok(a) => a,
        Err(_) => return false,
    };
    match ed25519_dalek::VerifyingKey::from_bytes(&pk) {
        Ok(vk) => {
            let s = ed25519_dalek::Signature::from_bytes(&sg);
            ed25519_dalek::Verifier::verify(&vk, msg, &s).is_ok()
        },
        Err(_) => false,
    }
}

/// The address of a public key: the first 20 bytes of its SHA-256 digest.
pub open spec fn validator_address_of(pub_key: Seq<u8>) -> Seq<u8> {
    sha256_of(pub_key).take(20)
}

/// Validator `i` bears the address `addr`.
pub open spec fn addr_matches(vs: Seq<Validator>, addr: Seq<u8>, i: int) -> bool {
    validator_address_of(vs[i].pub_key@) == addr
}

/// Validator `i` is the first in the set bearing the address `addr` — the one
/// a commit signature with that address is checked against.
pub open spec fn is_first_match(vs: Seq<Validator>, addr: Seq<u8>, i: int) -> bool {
    &&& 0 <= i < vs.len()
    &&& addr_matches(vs, addr, i)
    &&& forall|j: int| 0 <= j < i ==> !addr_matches(vs, addr, j)
}

/// Commit signature `s` counts for validator `i`: the address resolves to
/// `i`, and the signature is valid over the digest under `i`'s key.
pub open spec fn sig_counts_for(
    vs: Seq<Validator>,
    dig: Seq<u8>,
    s: CommitSignature,
    i: int,
) -> bool {
    &&& is_first_match(vs, s.validator_address@, i)
    &&& ed25519_valid(vs[i].pub_key@, dig, s.signature@)
}

/// Commit signature `s` contributes power to some validator. A signature with
/// an unknown address, or an invalid one, contributes to none.
pub open spec fn sig_contributes(vs: Seq<Validator>, dig: Seq<u8>, s: CommitSignature) -> bool {
    exists|i: int| sig_counts_for(vs, dig, s, i)
}

/// Validator `i` validly signed the digest somewhere in `sigs`.
pub open spec fn validator_signed(
    vs: Seq<Validator>,
    dig: Seq<u8>,
    sigs: Seq<CommitSignature>,
    i: int,
) -> bool {
    exists|k: int| 0 <= k < sigs.len() && sig_counts_for(vs, dig, sigs[k], i)
}

/// The voting power of the validators below `n` that validly signed — each
/// counted once, however many of their signatures `sigs` holds.
pub open spec fn power_sum(
    vs: Seq<Validator>,
    dig: Seq<u8>,
    sigs: Seq<CommitSignature>,
    n: int,
) -> int
    decreases n,
{
    if n <= 0 {
        0
    } else {
        power_sum(vs, dig, sigs, n - 1) + if validator_signed(vs, dig, sigs, n - 1) {
            vs[n - 1].voting_power as int
        } else {
            0
        }
    }
}

/// The accumulated valid signing power of the whole set.
pub open spec fn signing_power(vs: Seq<Validator>, dig: Seq<u8>, sigs: Seq<CommitSignature>) -> int {
    power_sum(vs, dig, sigs, vs.len() as int)
}

/// The quorum bound: a header is accepted iff the signing power strictly
/// exceeds `floor(total * 2 / 3)`.
pub open spec fn required_power(total_voting_power: u64) -> int {
    (2 * total_voting_power) / 3
}

/// Every public key is 32 bytes and every commit signature 64: the lengths
/// checked before any cryptographic work.
pub open spec fn wf_input(vs: Seq<Validator>, sigs: Seq<CommitSignature>) -> bool {
    &&& forall|i: int| 0 <= i < vs.len() ==> (#[trigger] vs[i].pub_key@.len()) == 32
    &&& forall|k: int| 0 <= k < sigs.len() ==> (#[trigger] sigs[k].signature@.len()) == 64
}

/// The sum of the voting power of the validators below `n`.
pub open spec fn sum_powers(vs: Seq<Validator>, n: int) -> int
    decreases n,
{
    if n <= 0 {
        0
    } else {
        sum_powers(vs, n - 1) + vs[n - 1].voting_power as int
    }
}

/// No two validators share a public key.
pub open spec fn distinct_keys(vs: Seq<Validator>) -> bool {
    forall|i: int, j: int|
        0 <= i < j < vs.len() ==> (#[trigger] vs[i].pub_key@) != (#[trigger] vs[j].pub_key@)
}

impl ValidatorSet {
    /// The construction-time invariant: the stated total is the sum of the
    /// members' power, and no public key appears twice.
    pub open spec fn wf(&self) -> bool {
        &&& self.total_voting_power as int == sum_powers(self.validators@, self.validators@.len() as int)
        &&& distinct_keys(self.validators@)
    }

    /// Builds a set, rejecting at construction a total that is not the sum of
    /// the members' voting power, or a duplicated public key.
    pub fn new(validators: Vec<Validator>, total_voting_power: u64) -> (r: Result<
        ValidatorSet,
        LightClientError,
    >)
        ensures
            match r {
                Ok(vs) => vs.validators@ == validators@ && vs.total_voting_power
                    == total_voting_power && vs.wf(),
                Err(e) => e == LightClientError::MalformedInput && !(ValidatorSet {
                    validators,
                    total_voting_power,
                }).wf(),
            },
    {
        let n = validators.len();
        let mut sum: u128 = 0;
        let mut i: usize = 0;
        while i < n
            invariant
                i <= n,
                n == validators@.len(),
                sum == sum_powers(validators@, i as int),
                sum <= i * 0xffff_ffff_ffff_ffffu64,
            decreases n - i,
        {
            proof {
                assert((i + 1) * 0xffff_ffff_ffff_ffffu64 == i * 0xffff_ffff_ffff_ffffu64
                    + 0xffff_ffff_ffff_ffffu64) by (nonlinear_arith);
                assert(usize::MAX * 0xffff_ffff_ffff_ffffu64 < u128::MAX) by (nonlinear_arith)
                    requires
                        usize::MAX <= 0xffff_ffff_ffff_ffffu64,
                ;
                assert(i * 0xffff_ffff_ffff_ffffu64 <= usize::MAX * 0xffff_ffff_ffff_ffffu64)
                    by (nonlinear_arith)
                    requires
                        0 <= i <= usize::MAX,
                ;
            }
            sum = sum + validators[i].voting_power as u128;
            i = i + 1;
        }
        if sum != total_voting_power as u128 {
            return Err(LightClientError::MalformedInput);
        }
        let mut i: usize = 0;
        while i < n
            invariant
                i <= n,
                n == validators@.len(),
                forall|a: int, b: int|
                    0 <= a < b < validators@.len() && a < i ==> (#[trigger] validators@[a].pub_key@)
                        != (#[trigger] validators@[b].pub_key@),
            decreases n - i,
        {
            let mut j: usize = i + 1;
            while j < n
                invariant
                    i < j,
                    j <= n,
                    i < n,
                    n == validators@.len(),
                    forall|b: int|
                        i < b < j ==> (#[trigger] validators@[b].pub_key@)
                            != validators@[i as int].pub_key@,
                decreases n - j,
            {
                if bytes_eq(validators[i].pub_key.as_slice(), validators[j].pub_key.as_slice()) {
                    return Err(LightClientError::MalformedInput);
                }
                j = j + 1;
            }
            i = i + 1;
        }
        Ok(ValidatorSet { validators, total_voting_power })
    }
}

/// Whether two byte strings are equal.
fn bytes_eq(a: &[u8], b: &[u8]) -> (r: bool)
    ensures
        r == (a@ == b@),
{
    let n = a.len();
    if n != b.len() {
        proof {
            assert(a@ != b@);
        }
        return false;
    }
    let mut i: usize = 0;
    while i < n
        invariant
            i <= n,
            n == a@.len(),
            n == b@.len(),
            forall|j: int| 0 <= j < i ==> a@[j] == b@[j],
        decreases n - i,
    {
        if a[i] != b[i] {
            return false;
        }
        i = i + 1;
    }
    proof {
        assert(a@ =~= b@);
    }
    true
}

/// Whether a public key's derived address equals `addr`.
fn address_matches(pub_key: &Vec<u8>, addr: &[u8; 20]) -> (r: bool)
    ensures
        r == (validator_address_of(pub_key@) == addr@),
{
    broadcast use vstd::array::group_array_axioms;

    let h = crate::codec::sha256(pub_key.as_slice());
    let mut i: usize = 0;
    while i < 20
        invariant
            i <= 20,
            h@ == sha256_of(pub_key@),
            h@.len() == 32,
            forall|j: int| 0 <= j < i ==> h@[j] == addr@[j],
        decreases 20 - i,
    {
        if h[i] != addr[i] {
            proof {
                assert(validator_address_of(pub_key@)[i as int] != addr@[i as int]);
            }
            return false;
        }
        i = i + 1;
    }
    proof {
        assert(validator_address_of(pub_key@) =~= addr@);
    }
    true
}

/// The first validator whose derived address is `addr`, if any.
fn find_validator(vs: &Vec<Validator>, addr: &[u8; 20]) -> (r: Option<usize>)
    ensures
        match r {
            Some(j) => is_first_match(vs@, addr@, j as int),
            None => forall|i: int| 0 <= i < vs@.len() ==> !addr_matches(vs@, addr@, i),
        },
{
    let n = vs.len();
    let mut j: usize = 0;
    while j < n
        invariant
            j <= n,
            n == vs@.len(),
            forall|i: int| 0 <= i < j ==> !addr_matches(vs@, addr@, i),
        decreases n - j,
    {
        if address_matches(&vs[j].pub_key, addr) {
            return Some(j);
        }
        j = j + 1;
    }
    None
}

/// The light client holds the trusted committee and is otherwise stateless:
/// verification is a pure function of the set and the header.
pub struct LightClient {
    trusted_validators: ValidatorSet,
}

impl LightClient {
    /// The committee this client trusts.
    pub closed spec fn trusted(&self) -> ValidatorSet {
        self.trusted_validators
    }

    /// A client trusting exactly the given committee.
    pub fn new(validators: ValidatorSet) -> (r: Self)
        ensures
            r.trusted() == validators,
    {
        LightClient { trusted_validators: validators }
    }

    /// Decides whether `header` carries commit signatures whose accumulated
    /// voting power strictly exceeds two thirds of the committee's total.
    /// Signatures with unknown addresses or failing verification contribute
    /// nothing; duplicates for one validator count its power once. A key or
    /// signature of the wrong length is rejected before any cryptographic
    /// work.
    #[verifier::loop_isolation(false)]
    pub fn verify_header(&self, header: &TendermintHeader) -> (r: Result<bool, LightClientError>)
        ensures
            match r {
                Ok(accept) => wf_input(self.trusted().validators@, header.commit_signatures@)
                    && accept == (signing_power(
                    self.trusted().validators@,
                    header_digest(*header),
                    header.commit_signatures@,
                ) > required_power(self.trusted().total_voting_power)),
                Err(e) => e == LightClientError::MalformedInput && !wf_input(
                    self.trusted().validators@,
                    header.commit_signatures@,
                ),
            },
    {
        let vs = &self.trusted_validators.validators;
        let sigs = &header.commit_signatures;
        let n = vs.len();
        let m = sigs.len();

        let mut i: usize = 0;
        while i < n
            invariant
                i <= n,
                n == vs@.len(),
                forall|j: int| 0 <= j < i ==> (#[trigger] vs@[j].pub_key@.len()) == 32,
            decreases n - i,
        {
            if vs[i].pub_key.len() != 32 {
                proof {
                    assert(vs@[i as int].pub_key@.len() != 32);
                }
                return Err(LightClientError::MalformedInput);
            }
            i = i + 1;
        }
        let mut k: usize = 0;
        while k < m
            invariant
                k <= m,
                m == sigs@.len(),
                forall|j: int| 0 <= j < k ==> (#[trigger] sigs@[j].signature@.len()) == 64,
            decreases m - k,
        {
            if sigs[k].signature.len() != 64 {
                proof {
                    assert(sigs@[k as int].signature@.len() != 64);
                }
                return Err(LightClientError::MalformedInput);
            }
            k = k + 1;
        }
        assert(wf_input(vs@, sigs@));

        let dig = header.digest();
        let ghost gdig = header_digest(*header);
        let mut seen: Vec<bool> = Vec::new();
        let mut i: usize = 0;
        while i < n
            invariant
                i <= n,
                seen@.len() == i,
                forall|j: int| 0 <= j < i ==> !(#[trigger] seen@[j]),
            decreases n - i,
        {
            seen.push(false);
            i = i + 1;
        }

        let mut power: u128 = 0;
        let mut k: usize = 0;
        proof {
            assert(sigs@.take(0) =~= Seq::<CommitSignature>::empty());
            lemma_power_sum_empty(vs@, gdig, sigs@.take(0), n as int);
        }
        while k < m
            invariant
                k <= m,
                m == sigs@.len(),
                n == vs@.len(),
                seen@.len() == n,
                wf_input(vs@, sigs@),
                dig@ == gdig,
                forall|j: int|
                    0 <= j < n ==> (#[trigger] seen@[j]) == validator_signed(
                        vs@,
                        gdig,
                        sigs@.take(k as int),
                        j,
                    ),
                power == power_sum(vs@, gdig, sigs@.take(k as int), n as int),
            decreases m - k,
        {
            let sig = &sigs[k];
            let found = find_validator(vs, &sig.validator_address);
            let ghost prev = sigs@.take(k as int);
            proof {
                assert(sigs@.take(k + 1) =~= prev.push(sigs@[k as int]));
            }
            match found {
                Some(j) => {
                    proof {
                        assert forall|i: int|
                            i != j as int implies !sig_counts_for(
                            vs@,
                            gdig,
                            sigs@[k as int],
                            i,
                        ) by {
                            if sig_counts_for(vs@, gdig, sigs@[k as int], i) {
                                lemma_first_match_unique(
                                    vs@,
                                    sigs@[k as int].validator_address@,
                                    i,
                                    j as int,
                                );
                            }
                        }
                    }
                    if !seen[j] {
                        let v = &vs[j];
                        if ed25519_verify(v.pub_key.as_slice(), &dig, sig.signature.as_slice()) {
                            proof {
                                assert(sig_counts_for(vs@, gdig, sigs@[k as int], j as int));
                                lemma_counted_step(
                                    vs@,
                                    gdig,
                                    prev,
                                    sigs@[k as int],
                                    n as int,
                                    j as int,
                                );
                                lemma_power_sum_bound(vs@, gdig, sigs@.take(k + 1), n as int);
                                assert((n as int) * 0xffff_ffff_ffff_ffff <= 0xffff_ffff_ffff_ffff
                                    * 0xffff_ffff_ffff_ffff) by (nonlinear_arith)
                                    requires
                                        0 <= (n as int) <= 0xffff_ffff_ffff_ffff,
                                ;
                            }
                            seen.set(j, true);
                            power = power + v.voting_power as u128;
                        } else {
                            proof {
                                assert(!sig_contributes(vs@, gdig, sigs@[k as int]));
                                lemma_uncounted_step(vs@, gdig, prev, sigs@[k as int], n as int);
                            }
                        }
                    } else {
                        proof {
                            lemma_signed_step(vs@, gdig, prev, sigs@[k as int], n as int, j as int);
                        }
                    }
                },
                None => {
                    proof {
                        assert(!sig_contributes(vs@, gdig, sigs@[k as int]));
                        lemma_uncounted_step(vs@, gdig, prev, sigs@[k as int], n as int);
                    }
                },
            }
            k = k + 1;
        }
        proof {
            assert(sigs@.take(m as int) =~= sigs@);
        }

        let total = self.trusted_validators.total_voting_power;
        let required: u128 = (total as u128) * 2 / 3;
        Ok(power > required)
    }

    /// Projects the attested application hash out of a header.
    pub fn extract_app_hash(&self, header: &TendermintHeader) -> (r: [u8; 32])
        ensures
            r == header.app_hash,
    {
        header.app_hash
    }
}

/// An empty signature list signs nothing and accumulates no power.
proof fn lemma_power_sum_empty(vs: Seq<Validator>, dig: Seq<u8>, sigs: Seq<CommitSignature>, n: int)
    requires
        sigs.len() == 0,
    ensures
        power_sum(vs, dig, sigs, n) == 0,
        forall|i: int| !validator_signed(vs, dig, sigs, i),
    decreases n,
{
    if n > 0 {
        lemma_power_sum_empty(vs, dig, sigs, n - 1);
    }
}

/// At most one validator is the first match for a given address.
proof fn lemma_first_match_unique(vs: Seq<Validator>, addr: Seq<u8>, i1: int, i2: int)
    requires
        is_first_match(vs, addr, i1),
        is_first_match(vs, addr, i2),
    ensures
        i1 == i2,
{
}

/// Appending one signature leaves each validator's signed status as it was,
/// or sets it if the new signature counts for that validator.
proof fn lemma_signed_push(
    vs: Seq<Validator>,
    dig: Seq<u8>,
    sigs: Seq<CommitSignature>,
    s: CommitSignature,
    i: int,
)
    ensures
        validator_signed(vs, dig, sigs.push(s), i) == (validator_signed(vs, dig, sigs, i)
            || sig_counts_for(vs, dig, s, i)),
{
    let sigs2 = sigs.push(s);
    if validator_signed(vs, dig, sigs2, i) {
        let k = choose|k: int| 0 <= k < sigs2.len() && sig_counts_for(vs, dig, sigs2[k], i);
        if k < sigs.len() {
            assert(sigs2[k] == sigs[k]);
            assert(validator_signed(vs, dig, sigs, i));
        } else {
            assert(sigs2[k] == s);
        }
    }
    if validator_signed(vs, dig, sigs, i) {
        let k = choose|k: int| 0 <= k < sigs.len() && sig_counts_for(vs, dig, sigs[k], i);
        assert(sigs2[k] == sigs[k]);
        assert(sig_counts_for(vs, dig, sigs2[k], i));
    }
    if sig_counts_for(vs, dig, s, i) {
        let k = sigs.len() as int;
        assert(sigs2[k] == s);
        assert(sig_counts_for(vs, dig, sigs2[k], i));
    }
}

/// If each validator's signed status is the same under two signature lists,
/// the accumulated power is the same.
proof fn lemma_power_sum_congruent(
    vs: Seq<Validator>,
    dig: Seq<u8>,
    sigs1: Seq<CommitSignature>,
    sigs2: Seq<CommitSignature>,
    n: int,
)
    requires
        forall|i: int|
            0 <= i < n ==> validator_signed(vs, dig, sigs1, i) == validator_signed(
                vs,
                dig,
                sigs2,
                i,
            ),
    ensures
        power_sum(vs, dig, sigs1, n) == power_sum(vs, dig, sigs2, n),
    decreases n,
{
    if n > 0 {
        lemma_power_sum_congruent(vs, dig, sigs1, sigs2, n - 1);
    }
}

/// If exactly one validator's signed status flips from unsigned to signed,
/// the accumulated power grows by exactly that validator's voting power.
proof fn lemma_power_sum_update(
    vs: Seq<Validator>,
    dig: Seq<u8>,
    sigs1: Seq<CommitSignature>,
    sigs2: Seq<CommitSignature>,
    n: int,
    j: int,
)
    requires
        0 <= j < n,
        forall|i: int|
            0 <= i < n && i != j ==> validator_signed(vs, dig, sigs1, i) == validator_signed(
                vs,
                dig,
                sigs2,
                i,
            ),
        !validator_signed(vs, dig, sigs1, j),
        validator_signed(vs, dig, sigs2, j),
    ensures
        power_sum(vs, dig, sigs2, n) == power_sum(vs, dig, sigs1, n) + vs[j].voting_power as int,
    decreases n,
{
    if j == n - 1 {
        lemma_power_sum_congruent(vs, dig, sigs1, sigs2, n - 1);
    } else {
        lemma_power_sum_update(vs, dig, sigs1, sigs2, n - 1, j);
    }
}

/// A pushed signature that counts for no validator changes nothing.
proof fn lemma_uncounted_step(
    vs: Seq<Validator>,
    dig: Seq<u8>,
    sigs: Seq<CommitSignature>,
    s: CommitSignature,
    n: int,
)
    requires
        !sig_contributes(vs, dig, s),
    ensures
        power_sum(vs, dig, sigs.push(s), n) == power_sum(vs, dig, sigs, n),
        forall|i: int|
            validator_signed(vs, dig, sigs.push(s), i) == validator_signed(vs, dig, sigs, i),
{
    assert forall|i: int|
        validator_signed(vs, dig, sigs.push(s), i) == validator_signed(vs, dig, sigs, i) by {
        lemma_signed_push(vs, dig, sigs, s, i);
        assert(!sig_counts_for(vs, dig, s, i));
    }
    lemma_power_sum_congruent(vs, dig, sigs.push(s), sigs, n);
}

/// A pushed signature that counts for validator `j` leaves every other
/// validator as it was, and marks `j` as signed.
proof fn lemma_signed_step(
    vs: Seq<Validator>,
    dig: Seq<u8>,
    sigs: Seq<CommitSignature>,
    s: CommitSignature,
    n: int,
    j: int,
)
    requires
        forall|i: int| i != j ==> !sig_counts_for(vs, dig, s, i),
        validator_signed(vs, dig, sigs, j),
    ensures
        power_sum(vs, dig, sigs.push(s), n) == power_sum(vs, dig, sigs, n),
        forall|i: int|
            validator_signed(vs, dig, sigs.push(s), i) == validator_signed(vs, dig, sigs, i),
{
    assert forall|i: int|
        validator_signed(vs, dig, sigs.push(s), i) == validator_signed(vs, dig, sigs, i) by {
        lemma_signed_push(vs, dig, sigs, s, i);
    }
    lemma_power_sum_congruent(vs, dig, sigs.push(s), sigs, n);
}

/// A pushed signature that counts for a validator not yet signed adds exactly
/// that validator's power and marks exactly that validator.
proof fn lemma_counted_step(
    vs: Seq<Validator>,
    dig: Seq<u8>,
    sigs: Seq<CommitSignature>,
    s: CommitSignature,
    n: int,
    j: int,
)
    requires
        0 <= j < n,
        sig_counts_for(vs, dig, s, j),
        !validator_signed(vs, dig, sigs, j),
    ensures
        power_sum(vs, dig, sigs.push(s), n) == power_sum(vs, dig, sigs, n) + vs[
            j
        ].voting_power as int,
        validator_signed(vs, dig, sigs.push(s), j),
        forall|i: int|
            i != j ==> validator_signed(vs, dig, sigs.push(s), i) == validator_signed(
                vs,
                dig,
                sigs,
                i,
            ),
{
    assert forall|i: int|
        i != j implies validator_signed(vs, dig, sigs.push(s), i) == validator_signed(
        vs,
        dig,
        sigs,
        i,
    ) by {
        lemma_signed_push(vs, dig, sigs, s, i);
        if sig_counts_for(vs, dig, s, i) {
            lemma_first_match_unique(vs, s.validator_address@, i, j);
        }
    }
    lemma_signed_push(vs, dig, sigs, s, j);
    lemma_power_sum_update(vs, dig, sigs, sigs.push(s), n, j);
}

/// No double counting: a further commit signature bearing the address of one
/// that already contributed adds nothing to the accumulated power — one
/// validator's voting power enters at most once, however many signatures
/// carry its address.
pub proof fn lemma_no_double_counting(
    vs: Seq<Validator>,
    dig: Seq<u8>,
    sigs: Seq<CommitSignature>,
    s: CommitSignature,
    k: int,
)
    requires
        0 <= k < sigs.len(),
        sigs[k].validator_address@ == s.validator_address@,
    ensures
        sig_contributes(vs, dig, sigs[k]) ==> signing_power(vs, dig, sigs.push(s)) == signing_power(
            vs,
            dig,
            sigs,
        ),
{
    if sig_contributes(vs, dig, sigs[k]) {
        let j = choose|j: int| sig_counts_for(vs, dig, sigs[k], j);
        assert(validator_signed(vs, dig, sigs, j));
        assert forall|i: int|
            validator_signed(vs, dig, sigs.push(s), i) == validator_signed(vs, dig, sigs, i) by {
            lemma_signed_push(vs, dig, sigs, s, i);
            if sig_counts_for(vs, dig, s, i) && i != j {
                lemma_first_match_unique(vs, s.validator_address@, i, j);
            }
        }
        lemma_power_sum_congruent(vs, dig, sigs.push(s), sigs, vs.len() as int);
    }
}

/// Unknown and invalid tolerance: a commit signature whose address matches no
/// validator, or whose signature fails verification, contributes nothing to
/// the accumulated power — and is absorbed, never fatal.
pub proof fn lemma_tolerated_signature(
    vs: Seq<Validator>,
    dig: Seq<u8>,
    sigs: Seq<CommitSignature>,
    s: CommitSignature,
)
    ensures
        !sig_contributes(vs, dig, s) ==> signing_power(vs, dig, sigs.push(s)) == signing_power(
            vs,
            dig,
            sigs,
        ),
        (forall|i: int|
            0 <= i < vs.len() ==> !addr_matches(vs, s.validator_address@, i)) ==> !sig_contributes(
            vs,
            dig,
            s,
        ),
{
    if !sig_contributes(vs, dig, s) {
        lemma_uncounted_step(vs, dig, sigs, s, vs.len() as int);
    }
}

/// The accumulated signing power of a well-formed validator set never
/// exceeds its total voting power, whatever signatures are offered.
pub proof fn lemma_signing_power_bounded(vs: ValidatorSet, dig: Seq<u8>, sigs: Seq<CommitSignature>)
    requires
        vs.wf(),
    ensures
        0 <= signing_power(vs.validators@, dig, sigs) <= vs.total_voting_power,
{
    lemma_power_sum_le_sum_powers(vs.validators@, dig, sigs, vs.validators@.len() as int);
}

/// The signed subset's power is at most the sum of all power.
proof fn lemma_power_sum_le_sum_powers(
    vs: Seq<Validator>,
    dig: Seq<u8>,
    sigs: Seq<CommitSignature>,
    n: int,
)
    ensures
        0 <= power_sum(vs, dig, sigs, n) <= sum_powers(vs, n) || n < 0,
    decreases n,
{
    if n > 0 {
        lemma_power_sum_le_sum_powers(vs, dig, sigs, n - 1);
    }
}

/// The accumulated power of `n` validators never exceeds `n` times the
/// largest representable voting power.
proof fn lemma_power_sum_bound(vs: Seq<Validator>, dig: Seq<u8>, sigs: Seq<CommitSignature>, n: int)
    ensures
        0 <= power_sum(vs, dig, sigs, n) <= if n >= 0 {
            n * 0xffff_ffff_ffff_ffff
        } else {
            0
        },
    decreases n,
{
    if n > 0 {
        lemma_power_sum_bound(vs, dig, sigs, n - 1);
        assert(n * 0xffff_ffff_ffff_ffff == (n - 1) * 0xffff_ffff_ffff_ffff
            + 0xffff_ffff_ffff_ffff) by (nonlinear_arith);
    }
}

} // verus!
