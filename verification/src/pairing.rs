//! Encrypted pairing handshake material.
//!
//! Every peripheral shares one 128-bit symmetric key with this host.  To
//! pair, the host draws a random 96-bit nonce and a random six-digit PIN,
//! encrypts the PIN — as a 4-byte big-endian integer — under AES-128-GCM
//! with that nonce, and writes nonce and ciphertext to the peripheral's
//! pairing characteristics.  The peripheral decrypts with the same shared
//! key and presents the PIN as its legacy-pairing passkey.  The GATT
//! writes themselves happen outside; this module produces the material.

use vstd::prelude::*;
use aes_gcm::KeyInit;
use aes_gcm::aead::Aead;

verus! {

/// Largest PIN the pairing handshake draws.
pub const MAX_PIN: u32 = 999_999;

/// The 128-bit symmetric key shared with every peripheral.
pub struct Key {
    pub array: Vec<u8>,
}

impl Key {
    /// A key is exactly 16 bytes.
    pub open spec fn wf(self) -> bool {
        self.array@.len() == 16
    }

    /// Builds the key from provisioned bytes: the first 16 are taken as
    /// they are, and a shorter input is padded with zeros.
    pub fn from_bytes(bytes: &[u8]) -> (r: Key)
        ensures
            r.wf(),
            forall|i: int|
                0 <= i < 16 ==> #[trigger] r.array@[i] == if i < bytes@.len() {
                    bytes@[i]
                } else {
                    0u8
                },
    {
        let mut array: Vec<u8> = Vec::new();
        let mut i: usize = 0;
        while i < 16
            invariant
                i <= 16,
                array@.len() == i,
                forall|k: int|
                    0 <= k < i ==> #[trigger] array@[k] == if k < bytes@.len() {
                        bytes@[k]
                    } else {
                        0u8
                    },
            decreases 16 - i,
        {
            if i < bytes.len() {
                array.push(bytes[i]);
            } else {
                array.push(0);
            }
            i = i + 1;
        }
        Key { array }
    }
}

/// What AES-128-GCM with a 96-bit nonce and 128-bit tag seals a message
/// to: a function of the key, the nonce and the plaintext alone.
pub uninterp spec fn gcm_seal(key: Seq<u8>, nonce: Seq<u8>, plaintext: Seq<u8>) -> Seq<u8>;

/// Relies on `aes_gcm::Aes128Gcm` (`KeyInit::new_from_slice` plus
/// `Aead::encrypt`): AES-128-GCM sealing with no associated data.  The
/// result is determined by key, nonce and plaintext; it is the ciphertext
/// with the 16-byte authentication tag appended; and encryption succeeds
/// for any plaintext under the GCM length bound.
#[verifier::external_body]
fn aes128gcm_seal(key: &[u8], nonce: &[u8], plaintext: &[u8]) -> (r: Option<Vec<u8>>)
    requires
        key@.len() == 16,
        nonce@.len() == 12,
    ensures
        r matches Some(c) ==> c@ == gcm_seal(key@, nonce@, plaintext@),
        r matches Some(c) ==> c@.len() == plaintext@.len() + 16,
        plaintext@.len() <= 0xFFFF ==> r is Some,
{
    let cipher = match aes_gcm::Aes128Gcm::new_from_slice(key) {
        Ok(c) => c,
        Err(_) => return None,
    };
    let nonce_arr = match aes_gcm::Nonce::<aes_gcm::aead::consts::U12>::try_from(nonce) {
        Ok(n) => n,
        Err(_) => return None,
    };
    match cipher.encrypt(&nonce_arr, plaintext) {
        Ok(c) => Some(c),
        Err(_) => None,
    }
}

pub assume_specification<T>[ rand::random::<T> ]() -> (r: T)
    where
        rand::distr::StandardUniform: rand::distr::Distribution<T>,
;

/// The PIN on the wire: a 4-byte big-endian integer.
pub open spec fn spec_pin_be_bytes(pin: u32) -> Seq<u8> {
    seq![
        ((pin >> 24) & 0xFF) as u8,
        ((pin >> 16) & 0xFF) as u8,
        ((pin >> 8) & 0xFF) as u8,
        (pin & 0xFF) as u8,
    ]
}

/// Encodes the PIN as its 4 big-endian bytes.
pub fn pin_be_bytes(pin: u32) -> (r: Vec<u8>)
    ensures
        r@ == spec_pin_be_bytes(pin),
{
    proof {
        assert((pin >> 24) & 0xFF < 256 && (pin >> 16) & 0xFF < 256 && (pin >> 8) & 0xFF < 256
            && pin & 0xFF < 256) by (bit_vector);
    }
    let mut out: Vec<u8> = Vec::new();
    out.push(((pin >> 24) & 0xFF) as u8);
    out.push(((pin >> 16) & 0xFF) as u8);
    out.push(((pin >> 8) & 0xFF) as u8);
    out.push((pin & 0xFF) as u8);
    proof {
        assert(out@ =~= spec_pin_be_bytes(pin));
    }
    out
}

/// Draws a fresh 96-bit nonce.  Nothing is promised of its value: every
/// caller must treat it as arbitrary.
fn random_nonce() -> (r: Vec<u8>)
    ensures
        r@.len() == 12,
{
    let mut nonce: Vec<u8> = Vec::new();
    let mut i: usize = 0;
    while i < 12
        invariant
            i <= 12,
            nonce@.len() == i,
        decreases 12 - i,
    {
        let byte: u8 = rand::random::<u8>();
        nonce.push(byte);
        i = i + 1;
    }
    nonce
}

/// Draws a fresh PIN in `[0, MAX_PIN]`.  Beyond the range, nothing is
/// promised of its value.
fn random_pin() -> (r: u32)
    ensures
        r <= MAX_PIN,
{
    let word: u32 = rand::random::<u32>();
    word % 1_000_000
}

/// Seals a PIN under the shared key and a caller-chosen nonce.
pub fn seal_pin(key: &[u8], nonce: &[u8], pin: u32) -> (r: Option<Vec<u8>>)
    requires
        key@.len() == 16,
        nonce@.len() == 12,
    ensures
        r is Some,
        r matches Some(c) ==> c@ == gcm_seal(key@, nonce@, spec_pin_be_bytes(pin)),
        r matches Some(c) ==> c@.len() == 20,
{
    let plaintext = pin_be_bytes(pin);
    aes128gcm_seal(key, nonce, plaintext.as_slice())
}

/// Everything one pairing attempt writes to the peripheral: the fresh
/// nonce, the sealed PIN, and the PIN itself for the pairing callback.
pub struct PairingMaterial {
    pub nonce: Vec<u8>,
    pub ciphertext: Vec<u8>,
    pub pin: u32,
}

impl PairingMaterial {
    /// The material is coherent: a 96-bit nonce, a PIN in range, and a
    /// ciphertext that seals exactly that PIN under the given key and
    /// nonce.
    pub open spec fn wf(self, key: Seq<u8>) -> bool {
        &&& self.nonce@.len() == 12
        &&& self.pin <= MAX_PIN
        &&& self.ciphertext@ == gcm_seal(key, self.nonce@, spec_pin_be_bytes(self.pin))
        &&& self.ciphertext@.len() == 20
    }
}

/// Draws a nonce and a PIN and seals the PIN for one pairing attempt.
/// Two calls yield independent material: nothing relates one nonce or PIN
/// to the next.
pub fn setup_pin(key: &Key) -> (r: PairingMaterial)
    requires
        key.wf(),
    ensures
        r.wf(key.array@),
{
    let nonce = random_nonce();
    let pin = random_pin();
    let sealed = seal_pin(key.array.as_slice(), nonce.as_slice(), pin);
    let ciphertext = match sealed {
        Some(c) => c,
        None => {
            // seal_pin promises success; this arm is unreachable.
            proof {
                assert(false);
            }
            Vec::new()
        },
    };
    PairingMaterial { nonce, ciphertext, pin }
}

} // verus!
