//! The secret vault: authenticated encryption for the Shadow partition.
//!
//! A sealed blob is framed as `nonce || ciphertext || tag`.

use crate::cipher::{
    aes256_gcm_open, aes256_gcm_seal, fresh_nonce, open, seal, MAX_PLAINTEXT_LEN, NONCE_LEN,
    TAG_LEN,
};
use vstd::prelude::*;
use vstd::slice::slice_subrange;
use vstd::utf8::encode_utf8;

verus! {

/// Why a vault operation failed.
#[derive(Debug, Clone, Copy, PartialEq, Eq, Structural)]
pub enum VaultError {
    /// No master key is available.
    Locked,
    /// The plaintext is too long to seal.
    Encryption,
    /// The blob is too short, was tampered with, or was sealed under another key.
    CorruptOrWrongKey,
    /// The blob opened, but its plaintext is not of the expected form.
    Malformed,
}

/// Holds the master key in memory, or nothing when the vault is locked.
pub struct SecretVault {
    key: Option<[u8; 32]>,
}

/// The framing of a sealed blob: the nonce, then the ciphertext with its tag.
pub open spec fn blob_frame(nonce: Seq<u8>, sealed: Seq<u8>) -> Seq<u8> {
    nonce + sealed
}

/// The plaintext of a framed blob under a key, or `None` where the blob is
/// shorter than a nonce and a tag or does not authenticate.
pub open spec fn blob_plaintext(key: Seq<u8>, blob: Seq<u8>) -> Option<Seq<u8>> {
    if blob.len() < NONCE_LEN + TAG_LEN {
        None
    } else {
        aes256_gcm_open(
            key,
            blob.subrange(0, NONCE_LEN as int),
            blob.subrange(NONCE_LEN as int, blob.len() as int),
        )
    }
}

/// The value of a hexadecimal digit.
pub open spec fn hex_value(b: u8) -> Option<u8> {
    if 48 <= b <= 57 {
        Some((b - 48) as u8)
    } else if 97 <= b <= 102 {
        Some((b - 87) as u8)
    } else if 65 <= b <= 70 {
        Some((b - 55) as u8)
    } else {
        None
    }
}

/// Whether a text is 64 hexadecimal digits.
pub open spec fn is_hex_key(text: Seq<u8>) -> bool {
    text.len() == 64 && forall|i: int| 0 <= i < 64 ==> hex_value(#[trigger] text[i]) is Some
}

/// The master key that a text supplies: the 32 bytes that 64 hexadecimal
/// digits spell, or the text itself where it is 32 bytes long.
pub open spec fn key_of_text(text: Seq<u8>) -> Option<Seq<u8>> {
    if is_hex_key(text) {
        Some(
            Seq::new(
                32,
                |i: int| (hex_value(text[2 * i])->Some_0 * 16 + hex_value(text[2 * i + 1])->Some_0) as u8,
            ),
        )
    } else if text.len() == 32 {
        Some(text)
    } else {
        None
    }
}

/// The master key that a configuration supplies, if it supplies one.
pub open spec fn configured_key(text: Option<Seq<char>>) -> Option<Seq<u8>> {
    match text {
        Some(t) => key_of_text(encode_utf8(t)),
        None => None,
    }
}

fn hex_digit(b: u8) -> (value: Option<u8>)
    ensures
        value == hex_value(b),
        value matches Some(v) ==> v < 16,
{
    if 48 <= b && b <= 57 {
        Some(b - 48)
    } else if 97 <= b && b <= 102 {
        Some(b - 87)
    } else if 65 <= b && b <= 70 {
        Some(b - 55)
    } else {
        None
    }
}

/// Reads a master key from the text that configures it.
pub fn parse_master_key(text: &str) -> (key: Option<[u8; 32]>)
    ensures
        match key {
            Some(k) => key_of_text(encode_utf8(text@)) == Some(k@),
            None => key_of_text(encode_utf8(text@)) is None,
        },
{
    let bytes = text.as_bytes();
    let mut key: [u8; 32] = [0u8; 32];
    if bytes.len() == 64 {
        let mut i: usize = 0;
        let mut hex = true;
        while i < 32 && hex
            invariant
                i <= 32,
                bytes@.len() == 64,
                hex ==> forall|j: int| 0 <= j < 2 * i ==> hex_value(#[trigger] bytes@[j]) is Some,
                hex ==> forall|j: int|
                    0 <= j < i ==> (#[trigger] key@[j]) == (hex_value(bytes@[2 * j])->Some_0 * 16
                        + hex_value(bytes@[2 * j + 1])->Some_0) as u8,
                !hex ==> !is_hex_key(bytes@),
            decreases 32 - i + (if hex { 1int } else { 0int }),
        {
            match (hex_digit(bytes[2 * i]), hex_digit(bytes[2 * i + 1])) {
                (Some(high), Some(low)) => {
                    key[i] = high * 16 + low;
                    i = i + 1;
                },
                _ => {
                    hex = false;
                },
            }
        }
        if hex {
            proof {
                assert(is_hex_key(bytes@));
                assert(key@ =~= key_of_text(bytes@)->Some_0);
            }
            return Some(key);
        }
        return None;
    }
    if bytes.len() == 32 {
        let mut i: usize = 0;
        while i < 32
            invariant
                i <= 32,
                bytes@.len() == 32,
                forall|j: int| 0 <= j < i ==> key@[j] == bytes@[j],
            decreases 32 - i,
        {
            key[i] = bytes[i];
            i = i + 1;
        }
        proof {
            assert(key@ =~= bytes@);
        }
        return Some(key);
    }
    None
}

impl SecretVault {
    /// The master key, if the vault is unlocked.
    pub closed spec fn master_key(&self) -> Option<Seq<u8>> {
        match self.key {
            Some(k) => Some(k@),
            None => None,
        }
    }

    /// Whether a master key is held.
    pub open spec fn spec_is_unlocked(&self) -> bool {
        self.master_key() is Some
    }

    /// Creates a vault with the given master key; `None` gives a locked vault.
    pub fn new(master_key: Option<&[u8; 32]>) -> (vault: SecretVault)
        ensures
            match master_key {
                Some(k) => vault.master_key() == Some(k@),
                None => vault.master_key() is None,
            },
    {
        match master_key {
            Some(k) => SecretVault { key: Some(*k) },
            None => SecretVault { key: None },
        }
    }

    /// Creates a vault from the text that configures its master key; a
    /// missing text, or one that supplies no key, gives a locked vault.
    pub fn from_key_text(text: Option<&str>) -> (vault: SecretVault)
        ensures
            vault.master_key() == configured_key(
                match text {
                    Some(t) => Some(t@),
                    None => None,
                },
            ),
    {
        match text {
            Some(t) => match parse_master_key(t) {
                Some(key) => SecretVault { key: Some(key) },
                None => SecretVault { key: None },
            },
            None => SecretVault { key: None },
        }
    }

    /// Returns `true` when a master key is held.
    #[verifier::when_used_as_spec(spec_is_unlocked)]
    pub fn is_unlocked(&self) -> (unlocked: bool)
        ensures
            unlocked == self.spec_is_unlocked(),
    {
        self.key.is_some()
    }

    /// Seals a plaintext under a given nonce and frames the result.
    pub fn seal_with_nonce(&self, nonce: &[u8; 12], plaintext: &[u8]) -> (blob: Result<
        Vec<u8>,
        VaultError,
    >)
        ensures
            match self.master_key() {
                None => blob == Err::<Vec<u8>, VaultError>(VaultError::Locked),
                Some(key) => if plaintext@.len() <= MAX_PLAINTEXT_LEN {
                    &&& blob matches Ok(bytes)
                    &&& bytes@ == blob_frame(nonce@, aes256_gcm_seal(key, nonce@, plaintext@))
                    &&& bytes@.len() == NONCE_LEN + plaintext@.len() + TAG_LEN
                    &&& blob_plaintext(key, bytes@) == Some(plaintext@)
                } else {
                    blob == Err::<Vec<u8>, VaultError>(VaultError::Encryption)
                },
            },
    {
        match &self.key {
            None => Err(VaultError::Locked),
            Some(key) => match seal(key, nonce, plaintext) {
                None => Err(VaultError::Encryption),
                Some(sealed) => {
                    let mut blob: Vec<u8> = Vec::new();
                    blob.extend_from_slice(nonce.as_slice());
                    blob.extend_from_slice(sealed.as_slice());
                    proof {
                        assert(blob@ =~= blob_frame(nonce@, sealed@));
                        assert(blob@.subrange(0, NONCE_LEN as int) =~= nonce@);
                        assert(blob@.subrange(NONCE_LEN as int, blob@.len() as int) =~= sealed@);
                    }
                    Ok(blob)
                },
            },
        }
    }

    /// Seals a plaintext under a fresh random nonce.
    ///
    /// Whatever nonce is drawn, the blob is `nonce || ciphertext || tag` and
    /// opens to the plaintext under the vault's key.
    pub fn encrypt_blob(&self, plaintext: &[u8]) -> (blob: Result<Vec<u8>, VaultError>)
        ensures
            match self.master_key() {
                None => blob == Err::<Vec<u8>, VaultError>(VaultError::Locked),
                Some(key) => if plaintext@.len() <= MAX_PLAINTEXT_LEN {
                    &&& blob matches Ok(bytes)
                    &&& bytes@.len() == NONCE_LEN + plaintext@.len() + TAG_LEN
                    &&& bytes@ == blob_frame(
                        bytes@.subrange(0, NONCE_LEN as int),
                        aes256_gcm_seal(key, bytes@.subrange(0, NONCE_LEN as int), plaintext@),
                    )
                    &&& blob_plaintext(key, bytes@) == Some(plaintext@)
                } else {
                    blob == Err::<Vec<u8>, VaultError>(VaultError::Encryption)
                },
            },
    {
        if self.key.is_none() {
            return Err(VaultError::Locked);
        }
        let nonce = fresh_nonce();
        let blob = self.seal_with_nonce(&nonce, plaintext);
        proof {
            if blob is Ok {
                assert(blob->Ok_0@.subrange(0, NONCE_LEN as int) =~= nonce@);
            }
        }
        blob
    }

    /// Opens a framed blob.
    pub fn decrypt_blob(&self, data: &[u8]) -> (plaintext: Result<Vec<u8>, VaultError>)
        ensures
            match self.master_key() {
                None => plaintext == Err::<Vec<u8>, VaultError>(VaultError::Locked),
                Some(key) => match blob_plaintext(key, data@) {
                    Some(bytes) => plaintext matches Ok(p) && p@ == bytes,
                    None => plaintext == Err::<Vec<u8>, VaultError>(
                        VaultError::CorruptOrWrongKey,
                    ),
                },
            },
    {
        match &self.key {
            None => Err(VaultError::Locked),
            Some(key) => {
                if data.len() < NONCE_LEN + TAG_LEN {
                    return Err(VaultError::CorruptOrWrongKey);
                }
                let mut nonce: [u8; 12] = [0u8; 12];
                let mut i: usize = 0;
                while i < NONCE_LEN
                    invariant
                        i <= NONCE_LEN,
                        data@.len() >= NONCE_LEN + TAG_LEN,
                        forall|j: int| 0 <= j < i ==> nonce@[j] == data@[j],
                    decreases NONCE_LEN - i,
                {
                    nonce[i] = data[i];
                    i = i + 1;
                }
                proof {
                    assert(nonce@ =~= data@.subrange(0, NONCE_LEN as int));
                }
                let sealed = slice_subrange(data, NONCE_LEN, data.len());
                match open(key, &nonce, sealed) {
                    Some(bytes) => Ok(bytes),
                    None => Err(VaultError::CorruptOrWrongKey),
                }
            },
        }
    }
}

} // verus!
