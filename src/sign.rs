use vstd::prelude::*;
use crate::feed::Feed;
use ed25519_dalek::Signer;
use ed25519_dalek::Verifier;

verus! {

/// Decimal digits of `n`, as ASCII bytes, without leading zeros.
pub open spec fn decimal_bytes(n: nat) -> Seq<u8>
    decreases n,
{
    if n < 10 {
        seq![(48 + n) as u8]
    } else {
        decimal_bytes(n / 10).push((48 + n % 10) as u8)
    }
}

/// The last `k` decimal digits of `n`, zero-padded, as ASCII bytes.
pub open spec fn fixed_digits(n: nat, k: nat) -> Seq<u8>
    decreases k,
{
    if k == 0 {
        Seq::empty()
    } else {
        fixed_digits(n / 10, (k - 1) as nat).push((48 + n % 10) as u8)
    }
}

/// The text that a session signs for an average of `units`: dollars, a
/// point and eight decimals (`"101.00000000"`).
pub open spec fn price_message(units: nat) -> Seq<u8> {
    decimal_bytes(units / 100_000_000) + seq![46u8] + fixed_digits(units % 100_000_000, 8)
}

fn push_decimal(out: &mut Vec<u8>, n: u64)
    ensures
        final(out)@ == old(out)@ + decimal_bytes(n as nat),
    decreases n,
{
    if n >= 10 {
        push_decimal(out, n / 10);
    }
    out.push((48 + n % 10) as u8);
    assert(final(out)@ =~= old(out)@ + decimal_bytes(n as nat));
}

fn push_fixed(out: &mut Vec<u8>, n: u64, k: u64)
    ensures
        final(out)@ == old(out)@ + fixed_digits(n as nat, k as nat),
    decreases k,
{
    if k > 0 {
        push_fixed(out, n / 10, k - 1);
        out.push((48 + n % 10) as u8);
    }
    assert(final(out)@ =~= old(out)@ + fixed_digits(n as nat, k as nat));
}

/// The text that a session signs for an average of `units`.
pub fn price_text(units: u64) -> (r: Vec<u8>)
    ensures
        r@ == price_message(units as nat),
{
    let mut out: Vec<u8> = Vec::new();
    push_decimal(&mut out, units / 100_000_000);
    out.push(46u8);
    push_fixed(&mut out, units % 100_000_000, 8);
    assert(out@ =~= price_message(units as nat));
    out
}

/// The public key that belongs to the secret key `secret`.
pub uninterp spec fn public_of(secret: Seq<u8>) -> Seq<u8>;

/// The signature of `msg` under the secret key `secret`.
pub uninterp spec fn signature_of(secret: Seq<u8>, msg: Seq<u8>) -> Seq<u8>;

/// Whether `sig` is a valid signature of `msg` under the public key `public`.
pub uninterp spec fn signature_valid(public: Seq<u8>, msg: Seq<u8>, sig: Seq<u8>) -> bool;

/// Relies on ed25519_dalek::SigningKey::generate, fed by the operating
/// system's random source: a fresh 32-byte secret key.
#[verifier::external_body]
fn fresh_secret() -> (r: Vec<u8>)
    ensures
        r@.len() == 32,
{
    ed25519_dalek::SigningKey::generate(&mut rand::rngs::OsRng).to_bytes().to_vec()
}

/// Relies on ed25519_dalek::SigningKey::verifying_key: the public key of a
/// secret key depends on the secret alone.
#[verifier::external_body]
fn public_key_for(secret: &Vec<u8>) -> (r: Vec<u8>)
    requires
        secret@.len() == 32,
    ensures
        r@ == public_of(secret@),
        r@.len() == 32,
{
    let bytes: [u8; 32] = secret.as_slice().try_into().unwrap();
    ed25519_dalek::SigningKey::from_bytes(&bytes).verifying_key().to_bytes().to_vec()
}

/// Relies on ed25519_dalek::SigningKey::sign: Ed25519 signing depends on the
/// key and message alone, and the matching public key accepts the result.
#[verifier::external_body]
fn sign_bytes(secret: &Vec<u8>, msg: &Vec<u8>) -> (r: Vec<u8>)
    requires
        secret@.len() == 32,
    ensures
        r@ == signature_of(secret@, msg@),
        signature_valid(public_of(secret@), msg@, r@),
{
    let bytes: [u8; 32] = secret.as_slice().try_into().unwrap();
    ed25519_dalek::SigningKey::from_bytes(&bytes).sign(msg.as_slice()).to_bytes().to_vec()
}

/// Relies on ed25519_dalek::VerifyingKey::verify: `Ok` exactly for a valid
/// signature; a key or signature of the wrong shape is refused.
#[verifier::external_body]
fn verify_bytes(public: &Vec<u8>, msg: &Vec<u8>, sig: &Vec<u8>) -> (r: bool)
    ensures
        r == signature_valid(public@, msg@, sig@),
{
    let key_bytes: [u8; 32] = match public.as_slice().try_into() {
        Ok(b) => b,
        Err(_) => return false,
    };
    let key = match ed25519_dalek::VerifyingKey::from_bytes(&key_bytes) {
        Ok(k) => k,
        Err(_) => return false,
    };
    match ed25519_dalek::Signature::from_slice(sig.as_slice()) {
        Ok(s) => key.verify(msg.as_slice(), &s).is_ok(),
        Err(_) => false,
    }
}

/// A session's key pair; the secret never leaves it.
pub struct KeyPair {
    secret: Vec<u8>,
    public: Vec<u8>,
}

impl KeyPair {
    pub closed spec fn secret_key(&self) -> Seq<u8> {
        self.secret@
    }

    pub closed spec fn public_key(&self) -> Seq<u8> {
        self.public@
    }

    pub closed spec fn wf(&self) -> bool {
        self.secret@.len() == 32 && self.public@ == public_of(self.secret@)
    }

    /// A fresh key pair, independent of every earlier one.
    pub fn generate_key_pair() -> (r: KeyPair)
        ensures
            r.wf(),
            r.public_key() == public_of(r.secret_key()),
    {
        let secret = fresh_secret();
        let public = public_key_for(&secret);
        KeyPair { secret, public }
    }

    /// The public half.
    pub fn public(&self) -> (r: &Vec<u8>)
        ensures
            r@ == self.public_key(),
    {
        &self.public
    }

    /// Signs `msg`; the pair's public key accepts the signature.
    pub fn sign_message(&self, msg: &Vec<u8>) -> (r: Vec<u8>)
        requires
            self.wf(),
        ensures
            r@ == signature_of(self.secret_key(), msg@),
            signature_valid(self.public_key(), msg@, r@),
    {
        sign_bytes(&self.secret, msg)
    }
}

/// Whether `sig` is a valid signature of `msg` under `public`; never fails.
pub fn verify_signature(public: &Vec<u8>, msg: &Vec<u8>, sig: &Vec<u8>) -> (r: bool)
    ensures
        r == signature_valid(public@, msg@, sig@),
{
    verify_bytes(public, msg, sig)
}

/// The public key of each feed's session, at most one per feed; a later
/// key for a feed replaces the earlier one.
pub struct KeyRegistry {
    gemini: Option<Vec<u8>>,
    bybit: Option<Vec<u8>>,
    binance: Option<Vec<u8>>,
    kraken: Option<Vec<u8>>,
    bitfinex: Option<Vec<u8>>,
}

pub open spec fn bytes_opt(k: Option<Vec<u8>>) -> Option<Seq<u8>> {
    match k {
        Some(v) => Some(v@),
        None => None,
    }
}

impl KeyRegistry {
    /// The registered public key of the feed `f`.
    pub closed spec fn key(&self, f: Feed) -> Option<Seq<u8>> {
        match f {
            Feed::Gemini => bytes_opt(self.gemini),
            Feed::Bybit => bytes_opt(self.bybit),
            Feed::Binance => bytes_opt(self.binance),
            Feed::Kraken => bytes_opt(self.kraken),
            Feed::Bitfinex => bytes_opt(self.bitfinex),
        }
    }

    pub fn new() -> (r: KeyRegistry)
        ensures
            forall|f: Feed| r.key(f) is None,
    {
        KeyRegistry { gemini: None, bybit: None, binance: None, kraken: None, bitfinex: None }
    }

    /// Registers `public` as the key of the feed `f`.
    pub fn insert(&mut self, f: Feed, public: Vec<u8>)
        ensures
            final(self).key(f) == Some(public@),
            forall|g: Feed| g != f ==> final(self).key(g) == old(self).key(g),
    {
        match f {
            Feed::Gemini => self.gemini = Some(public),
            Feed::Bybit => self.bybit = Some(public),
            Feed::Binance => self.binance = Some(public),
            Feed::Kraken => self.kraken = Some(public),
            Feed::Bitfinex => self.bitfinex = Some(public),
        }
    }

    /// The registered public key of the feed `f`.
    pub fn get(&self, f: Feed) -> (r: Option<&Vec<u8>>)
        ensures
            match r {
                Some(k) => self.key(f) == Some(k@),
                None => self.key(f) is None,
            },
    {
        match f {
            Feed::Gemini => self.gemini.as_ref(),
            Feed::Bybit => self.bybit.as_ref(),
            Feed::Binance => self.binance.as_ref(),
            Feed::Kraken => self.kraken.as_ref(),
            Feed::Bitfinex => self.bitfinex.as_ref(),
        }
    }
}

} // verus!
