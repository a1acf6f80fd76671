//! The signing-key ring: zero or more PEM-encoded P-256 private keys
//! parsed at construction, each under a deterministic sequential key
//! identifier. One unparseable key fails construction as a whole; a
//! partial key set is never exposed. Only the public projection of a
//! key leaves the ring.
use crate::errors::AuthError;
use crate::strutil::decimal_string;
use crate::strutil::lemma_decimal_val;
use crate::strutil::push_char;
use crate::strutil::seq_val;
use crate::strutil::spec_decimal;
use crate::strutil::str_eq;
use elliptic_curve::pkcs8::DecodePrivateKey;
use p256::ecdsa::signature::Signer;
use vstd::prelude::*;
use vstd::string::StringExecFns;

verus! {

#[verifier::external_type_specification]
#[verifier::external_body]
pub struct ExJwk(jose_jwk::Jwk);

/// Whether this PEM text parses as a PKCS#8 P-256 private key; the
/// outcome depends on the text alone.
pub uninterp spec fn p256_pem_ok(pem: Seq<char>) -> bool;

/// Relies on `elliptic_curve::SecretKey::<p256::NistP256>::from_pkcs8_pem`
/// to parse the key, and on `jose_jwk`'s conversions from the parsed key
/// (`Ec: From<&SecretKey>` and `Ec: From<&PublicKey>`) to build the
/// private JWK and its public projection, both under the given key id
/// and the signing class.
#[verifier::external_body]
fn parse_signing_jwk(pem: &String, kid: &String) -> (r: Result<(jose_jwk::Jwk, jose_jwk::Jwk), ()>)
    ensures
        r is Ok <==> p256_pem_ok(pem@),
{
    let Ok(sk) = elliptic_curve::SecretKey::<p256::NistP256>::from_pkcs8_pem(pem) else {
        return Err(());
    };
    let prm = jose_jwk::Parameters {
        kid: Some(kid.clone()),
        cls: Some(jose_jwk::Class::Signing),
        ..Default::default()
    };
    let full = jose_jwk::Jwk { key: jose_jwk::Key::Ec(jose_jwk::Ec::from(&sk)), prm: prm.clone() };
    let public = jose_jwk::Jwk {
        key: jose_jwk::Key::Ec(jose_jwk::Ec::from(&sk.public_key())),
        prm,
    };
    Ok((full, public))
}

/// Relies on `jose_jwk::Jwk`'s derived `Clone`.
pub assume_specification[ <jose_jwk::Jwk as Clone>::clone ](j: &jose_jwk::Jwk) -> jose_jwk::Jwk;

/// Relies on `p256::ecdsa::SigningKey::sign` (deterministic RFC 6979
/// ECDSA): a successfully parsed key signs any message, and the raw
/// signature `to_bytes` is 64 bytes.
#[verifier::external_body]
fn ecdsa_sign(pem: &String, msg: &Vec<u8>) -> (r: Result<Vec<u8>, ()>)
    ensures
        r is Ok <==> p256_pem_ok(pem@),
        r matches Ok(sig) ==> sig@.len() == 64,
{
    let Ok(sk) = elliptic_curve::SecretKey::<p256::NistP256>::from_pkcs8_pem(pem) else {
        return Err(());
    };
    let signing = p256::ecdsa::SigningKey::from(sk);
    let sig: p256::ecdsa::Signature = signing.sign(msg.as_slice());
    Ok(sig.to_bytes().to_vec())
}

/// The index rendered in decimal, zero-padded to at least two digits.
pub open spec fn padded2(i: nat) -> Seq<char> {
    if i < 10 {
        seq!['0'] + spec_decimal(i)
    } else {
        spec_decimal(i)
    }
}

/// The deterministic key identifier assigned to the key at index `i`.
pub open spec fn spec_kid(i: nat) -> Seq<char> {
    "key-"@ + padded2(i)
}

pub proof fn lemma_padded2_val(i: nat)
    ensures
        seq_val(padded2(i)) == i,
{
    lemma_decimal_val(i);
    if i < 10 {
        let p = padded2(i);
        assert(p == seq!['0'] + spec_decimal(i));
        assert(spec_decimal(i) == seq![crate::strutil::digit_char(i)]);
        assert(p.len() == 2);
        assert(p.last() == crate::strutil::digit_char(i));
        assert(p.drop_last() =~= seq!['0']);
        assert(seq!['0'].drop_last() =~= Seq::<char>::empty());
        assert(seq!['0'].last() == '0');
        assert(seq_val(Seq::<char>::empty()) == 0);
        assert(seq_val(seq!['0']) == seq_val(seq!['0'].drop_last()) * 10 + crate::strutil::digit_val(
            seq!['0'].last(),
        ));
        assert(seq_val(seq!['0']) == 0);
        assert(crate::strutil::digit_val(crate::strutil::digit_char(i)) == i);
        assert(seq_val(p) == seq_val(p.drop_last()) * 10 + crate::strutil::digit_val(p.last()));
    }
}

/// Distinct indices receive distinct key identifiers.
pub proof fn lemma_kid_injective(a: nat, b: nat)
    requires
        spec_kid(a) == spec_kid(b),
    ensures
        a == b,
{
    let base = "key-"@;
    let pa = padded2(a);
    let pb = padded2(b);
    assert((base + pa).len() == (base + pb).len());
    assert(pa.len() == pb.len());
    assert(pa =~= (base + pa).subrange(base.len() as int, (base + pa).len() as int));
    assert(pb =~= (base + pb).subrange(base.len() as int, (base + pb).len() as int));
    assert(pa == pb);
    lemma_padded2_val(a);
    lemma_padded2_val(b);
}

fn kid_string(i: u64) -> (r: String)
    ensures
        r@ == spec_kid(i as nat),
{
    let mut s = String::from_str("key-");
    if i < 10 {
        push_char(&mut s, '0');
    }
    let d = decimal_string(i);
    s.append(d.as_str());
    proof {
        assert(s@ =~= spec_kid(i as nat));
    }
    s
}

struct SigningKey {
    kid: String,
    pem: String,
    jwk: jose_jwk::Jwk,
    public_jwk: jose_jwk::Jwk,
}

/// The ring of signing keys an orchestrator authenticates and binds
/// tokens with.
pub struct KeyRing {
    keys: Vec<SigningKey>,
}

impl KeyRing {
    /// How many keys the ring holds.
    pub closed spec fn len(self) -> nat {
        self.keys@.len()
    }

    /// The identifier of the key at `i`.
    pub closed spec fn kid_at(self, i: int) -> Seq<char> {
        self.keys@[i].kid@
    }

    /// The PEM text the key at `i` was parsed from.
    pub closed spec fn pem_at(self, i: int) -> Seq<char> {
        self.keys@[i].pem@
    }

    /// Every key parsed, and key identifiers are the deterministic
    /// sequential ones.
    pub closed spec fn wf(self) -> bool {
        forall|i: int|
            0 <= i < self.keys@.len() ==> (#[trigger] self.keys@[i]).kid@ == spec_kid(i as nat)
                && p256_pem_ok(self.keys@[i].pem@)
    }

    /// Key identifiers are unique within one ring.
    pub proof fn lemma_kids_unique(self)
        requires
            self.wf(),
        ensures
            forall|i: int, j: int|
                0 <= i < j < self.len() ==> self.kid_at(i) != self.kid_at(j),
    {
        assert forall|i: int, j: int|
            0 <= i < j < self.len() implies self.kid_at(i) != self.kid_at(j) by {
            if self.kid_at(i) == self.kid_at(j) {
                lemma_kid_injective(i as nat, j as nat);
            }
        }
    }

    /// Parses every PEM-encoded key, assigning identifiers in input
    /// order. One malformed key among the inputs fails construction
    /// entirely; no partial key set is ever exposed.
    pub fn new(pems: &Vec<String>) -> (r: Result<KeyRing, AuthError>)
        ensures
            r is Ok <==> (forall|i: int| 0 <= i < pems@.len() ==> p256_pem_ok(#[trigger] pems@[i]@)),
            r matches Ok(k) ==> k.wf() && k.len() == pems@.len() && (forall|i: int|
                0 <= i < pems@.len() ==> k.pem_at(i) == #[trigger] pems@[i]@),
            r matches Err(e) ==> e == AuthError::KeyParseError,
    {
        let mut keys: Vec<SigningKey> = Vec::new();
        let mut i: usize = 0;
        while i < pems.len()
            invariant
                i <= pems@.len(),
                keys@.len() == i,
                forall|j: int|
                    0 <= j < i ==> (#[trigger] keys@[j]).kid@ == spec_kid(j as nat) && p256_pem_ok(
                        keys@[j].pem@,
                    ) && keys@[j].pem@ == pems@[j]@,
            decreases pems@.len() - i,
        {
            let kid = kid_string(i as u64);
            match parse_signing_jwk(&pems[i], &kid) {
                Ok((jwk, public_jwk)) => {
                    keys.push(SigningKey { kid, pem: pems[i].clone(), jwk, public_jwk });
                },
                Err(_) => {
                    return Err(AuthError::KeyParseError);
                },
            }
            i += 1;
        }
        proof {
            assert forall|j: int| 0 <= j < pems@.len() implies p256_pem_ok(
                #[trigger] pems@[j]@,
            ) by {
                assert(keys@[j].pem@ == pems@[j]@);
            }
        }
        Ok(KeyRing { keys })
    }

    /// The public projections of all keys, for exchange with the
    /// authorization server; private material never leaves the ring.
    pub fn public_jwks(&self) -> (r: Vec<jose_jwk::Jwk>)
        ensures
            r@.len() == self.len(),
    {
        let mut out: Vec<jose_jwk::Jwk> = Vec::new();
        let mut i: usize = 0;
        while i < self.keys.len()
            invariant
                i <= self.keys@.len(),
                out@.len() == i,
            decreases self.keys@.len() - i,
        {
            out.push(self.keys[i].public_jwk.clone());
            i += 1;
        }
        out
    }

    /// Does the ring hold no keys?
    pub fn is_empty(&self) -> (r: bool)
        ensures
            r == (self.len() == 0),
    {
        self.keys.len() == 0
    }

    /// The identifier of the key at `i`.
    pub fn kid(&self, i: usize) -> (r: String)
        requires
            i < self.len(),
        ensures
            r@ == self.kid_at(i as int),
    {
        self.keys[i].kid.clone()
    }

    /// Signs `msg` with the key named by `kid`; succeeds exactly when
    /// the ring holds a key under that identifier, and fails `NotFound`
    /// otherwise.
    pub fn sign_with(&self, kid: &str, msg: &Vec<u8>) -> (r: Result<Vec<u8>, AuthError>)
        requires
            self.wf(),
        ensures
            r is Ok <==> (exists|i: int| 0 <= i < self.len() && self.kid_at(i) == kid@),
            r matches Ok(sig) ==> sig@.len() == 64,
            r is Err ==> r == Err::<Vec<u8>, AuthError>(AuthError::NotFound),
    {
        let mut i: usize = 0;
        while i < self.keys.len()
            invariant
                self.wf(),
                i <= self.keys@.len(),
                forall|j: int| 0 <= j < i ==> (#[trigger] self.keys@[j]).kid@ != kid@,
            decreases self.keys@.len() - i,
        {
            if str_eq(self.keys[i].kid.as_str(), kid) {
                proof {
                    assert(self.kid_at(i as int) == kid@);
                }
                match ecdsa_sign(&self.keys[i].pem, msg) {
                    Ok(sig) => {
                        return Ok(sig);
                    },
                    Err(_) => {
                        proof {
                            assert(false);
                        }
                        return Err(AuthError::NotFound);
                    },
                }
            }
            i += 1;
        }
        Err(AuthError::NotFound)
    }
}

} // verus!
