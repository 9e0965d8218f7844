//! The cryptography surface of the SafeLang standard library: digests,
//! symmetric keys and asymmetric key pairs, with key material drawn from the
//! process's random generator. The cipher and digest cores are stand-ins
//! that produce fixed-width zero blocks; the dispatch, length checking and
//! hex rendering around them are real and verified.

use vstd::prelude::*;
use vstd::slice::slice_to_vec;

use crate::strutil::push_char;

verus! {

/// The supported digest algorithms.
#[derive(Clone, Copy, Debug, PartialEq, Eq, Structural)]
pub enum HashAlgorithm {
    SHA256,
    SHA512,
    Blake2b,
    Blake3,
}

/// The output width of a digest algorithm, in bytes.
pub open spec fn spec_digest_len(algorithm: HashAlgorithm) -> nat {
    match algorithm {
        HashAlgorithm::SHA256 => 32,
        HashAlgorithm::SHA512 => 64,
        HashAlgorithm::Blake2b => 64,
        HashAlgorithm::Blake3 => 32,
    }
}

/// The stand-in digest of any input: a zero block of the algorithm's width.
pub open spec fn spec_digest(algorithm: HashAlgorithm, data: Seq<u8>) -> Seq<u8> {
    Seq::new(spec_digest_len(algorithm), |i: int| 0u8)
}

/// A computed digest together with the algorithm that produced it.
#[derive(Clone, Debug)]
pub struct Hash {
    algorithm: HashAlgorithm,
    bytes: Vec<u8>,
}

/// The lowercase hex digit for a value below sixteen.
pub open spec fn spec_hex_digit(d: u8) -> char {
    if d < 10 {
        ((48 + d) as u8) as char
    } else {
        ((87 + d) as u8) as char
    }
}

/// The lowercase hex rendering of a byte sequence, two digits per byte.
pub open spec fn spec_hex_of(bytes: Seq<u8>) -> Seq<char>
    decreases bytes.len(),
{
    if bytes.len() == 0 {
        Seq::empty()
    } else {
        spec_hex_of(bytes.drop_last()).push(spec_hex_digit(bytes.last() / 16)).push(
            spec_hex_digit(bytes.last() % 16),
        )
    }
}

/// The lowercase hex digit for a value below sixteen.
fn hex_digit(d: u8) -> (r: char)
    requires
        d < 16,
    ensures
        r == spec_hex_digit(d),
{
    if d < 10 {
        (48 + d) as char
    } else {
        (87 + d) as char
    }
}

impl Hash {
    /// The algorithm that produced this digest.
    pub closed spec fn spec_algorithm(&self) -> HashAlgorithm {
        self.algorithm
    }

    /// The digest bytes.
    pub closed spec fn spec_bytes(&self) -> Seq<u8> {
        self.bytes@
    }

    /// Digests `data` under the chosen algorithm.
    pub fn new(algorithm: HashAlgorithm, data: &[u8]) -> (r: Hash)
        ensures
            r.spec_algorithm() == algorithm,
            r.spec_bytes() == spec_digest(algorithm, data@),
    {
        let bytes = match algorithm {
            HashAlgorithm::SHA256 => hash_sha256(data),
            HashAlgorithm::SHA512 => hash_sha512(data),
            HashAlgorithm::Blake2b => hash_blake2b(data),
            HashAlgorithm::Blake3 => hash_blake3(data),
        };
        Hash { algorithm, bytes }
    }

    /// Whether digesting `data` again reproduces this digest.
    pub fn verify(&self, data: &[u8]) -> (r: bool)
        ensures
            r == (self.spec_bytes() == spec_digest(self.spec_algorithm(), data@)),
    {
        let recomputed = Hash::new(self.algorithm, data);
        let n = self.bytes.len();
        if n != recomputed.bytes.len() {
            assert(self.spec_bytes().len() != spec_digest(self.spec_algorithm(), data@).len());
            return false;
        }
        let mut i: usize = 0;
        while i < n
            invariant
                i <= n,
                n == self.spec_bytes().len(),
                n == recomputed.bytes@.len(),
                recomputed.bytes@ == spec_digest(self.spec_algorithm(), data@),
                forall|j: int| 0 <= j < i ==> self.spec_bytes()[j] == recomputed.bytes@[j],
            decreases n - i,
        {
            if self.bytes[i] != recomputed.bytes[i] {
                return false;
            }
            i = i + 1;
        }
        proof {
            assert(self.spec_bytes() =~= recomputed.bytes@);
        }
        true
    }

    /// The digest bytes.
    pub fn as_bytes(&self) -> (r: &[u8])
        ensures
            r@ == self.spec_bytes(),
    {
        self.bytes.as_slice()
    }

    /// The digest as lowercase hex, two digits per byte.
    pub fn as_hex_string(&self) -> (r: String)
        ensures
            r@ == spec_hex_of(self.spec_bytes()),
    {
        let mut out = String::new();
        let mut i: usize = 0;
        while i < self.bytes.len()
            invariant
                i <= self.bytes@.len(),
                out@ == spec_hex_of(self.bytes@.subrange(0, i as int)),
            decreases self.bytes@.len() - i,
        {
            let ghost prefix = self.bytes@.subrange(0, i as int);
            let b = self.bytes[i];
            push_char(&mut out, hex_digit(b / 16));
            push_char(&mut out, hex_digit(b % 16));
            proof {
                let next = self.bytes@.subrange(0, i + 1);
                assert(next.drop_last() =~= prefix);
                assert(next.last() == self.bytes@[i as int]);
            }
            i = i + 1;
        }
        proof {
            assert(self.bytes@.subrange(0, self.bytes@.len() as int) =~= self.bytes@);
        }
        out
    }
}

/// The stand-in SHA-256 core: a 32-byte zero block.
fn hash_sha256(data: &[u8]) -> (r: Vec<u8>)
    ensures
        r@ == spec_digest(HashAlgorithm::SHA256, data@),
{
    let r = vec![0u8; 32];
    proof {
        assert(r@ =~= spec_digest(HashAlgorithm::SHA256, data@));
    }
    r
}

/// The stand-in SHA-512 core: a 64-byte zero block.
fn hash_sha512(data: &[u8]) -> (r: Vec<u8>)
    ensures
        r@ == spec_digest(HashAlgorithm::SHA512, data@),
{
    let r = vec![0u8; 64];
    proof {
        assert(r@ =~= spec_digest(HashAlgorithm::SHA512, data@));
    }
    r
}

/// The stand-in BLAKE2b core: a 64-byte zero block.
fn hash_blake2b(data: &[u8]) -> (r: Vec<u8>)
    ensures
        r@ == spec_digest(HashAlgorithm::Blake2b, data@),
{
    let r = vec![0u8; 64];
    proof {
        assert(r@ =~= spec_digest(HashAlgorithm::Blake2b, data@));
    }
    r
}

/// The stand-in BLAKE3 core: a 32-byte zero block.
fn hash_blake3(data: &[u8]) -> (r: Vec<u8>)
    ensures
        r@ == spec_digest(HashAlgorithm::Blake3, data@),
{
    let r = vec![0u8; 32];
    proof {
        assert(r@ =~= spec_digest(HashAlgorithm::Blake3, data@));
    }
    r
}

/// Relies on rand's thread-local generator: `RngCore::fill_bytes` overwrites
/// the buffer in place with random bytes and leaves its length unchanged.
/// Nothing is promised about the values drawn.
#[verifier::external_body]
fn fill_random(buffer: &mut Vec<u8>)
    ensures
        final(buffer)@.len() == old(buffer)@.len(),
{
    rand::RngCore::fill_bytes(&mut rand::thread_rng(), buffer.as_mut_slice());
}

/// The supported symmetric ciphers.
#[derive(Clone, Copy, Debug, PartialEq, Eq, Structural)]
pub enum SymmetricAlgorithm {
    AES256GCM,
    ChaCha20Poly1305,
}

/// The key width of a symmetric cipher, in bytes.
pub open spec fn spec_symmetric_key_len(algorithm: SymmetricAlgorithm) -> nat {
    match algorithm {
        SymmetricAlgorithm::AES256GCM => 32,
        SymmetricAlgorithm::ChaCha20Poly1305 => 32,
    }
}

/// A symmetric key with its cipher.
#[derive(Clone, Debug)]
pub struct SymmetricKey {
    algorithm: SymmetricAlgorithm,
    bytes: Vec<u8>,
}

impl SymmetricKey {
    /// The cipher this key belongs to.
    pub closed spec fn spec_algorithm(&self) -> SymmetricAlgorithm {
        self.algorithm
    }

    /// The key bytes.
    pub closed spec fn spec_bytes(&self) -> Seq<u8> {
        self.bytes@
    }

    /// Draws a fresh random key of the cipher's width.
    pub fn generate(algorithm: SymmetricAlgorithm) -> (r: SymmetricKey)
        ensures
            r.spec_algorithm() == algorithm,
            r.spec_bytes().len() == spec_symmetric_key_len(algorithm),
    {
        let mut bytes = vec![0u8; 32];
        fill_random(&mut bytes);
        SymmetricKey { algorithm, bytes }
    }

    /// Wraps existing key material, which must have the cipher's width;
    /// anything else is an `InvalidKeyLength` error.
    pub fn from_bytes(algorithm: SymmetricAlgorithm, bytes: &[u8]) -> (r: Result<
        SymmetricKey,
        CryptoError,
    >)
        ensures
            r is Ok <==> bytes@.len() == spec_symmetric_key_len(algorithm),
            r matches Ok(key) ==> key.spec_algorithm() == algorithm && key.spec_bytes() == bytes@,
            r matches Err(e) ==> e == CryptoError::InvalidKeyLength,
    {
        let expected_len: usize = match algorithm {
            SymmetricAlgorithm::AES256GCM => 32,
            SymmetricAlgorithm::ChaCha20Poly1305 => 32,
        };
        if bytes.len() != expected_len {
            return Err(CryptoError::InvalidKeyLength);
        }
        Ok(SymmetricKey { algorithm, bytes: slice_to_vec(bytes) })
    }

    /// Encrypts under this key: the stand-in cipher yields a zero block
    /// sixteen bytes longer than the plaintext.
    pub fn encrypt(&self, plaintext: &[u8], nonce: &[u8]) -> (r: Result<Vec<u8>, CryptoError>)
        requires
            plaintext@.len() + 16 <= usize::MAX,
        ensures
            r matches Ok(ciphertext) && ciphertext@ == Seq::new(
                plaintext@.len() + 16,
                |i: int| 0u8,
            ),
    {
        let r = vec![0u8; plaintext.len() + 16];
        proof {
            assert(r@ =~= Seq::new(plaintext@.len() + 16, |i: int| 0u8));
        }
        Ok(r)
    }

    /// Decrypts under this key: the stand-in cipher yields a zero block
    /// sixteen bytes shorter than the ciphertext.
    pub fn decrypt(&self, ciphertext: &[u8], nonce: &[u8]) -> (r: Result<Vec<u8>, CryptoError>)
        requires
            ciphertext@.len() >= 16,
        ensures
            r matches Ok(plaintext) && plaintext@ == Seq::new(
                (ciphertext@.len() - 16) as nat,
                |i: int| 0u8,
            ),
    {
        let r = vec![0u8; ciphertext.len() - 16];
        proof {
            assert(r@ =~= Seq::new((ciphertext@.len() - 16) as nat, |i: int| 0u8));
        }
        Ok(r)
    }

    /// The key bytes.
    pub fn as_bytes(&self) -> (r: &[u8])
        ensures
            r@ == self.spec_bytes(),
    {
        self.bytes.as_slice()
    }
}

/// The supported asymmetric schemes.
#[derive(Clone, Copy, Debug, PartialEq, Eq, Structural)]
pub enum AsymmetricAlgorithm {
    RSA,
    Ed25519,
    X25519,
}

/// A private/public key pair with its scheme.
#[derive(Clone, Debug)]
pub struct KeyPair {
    algorithm: AsymmetricAlgorithm,
    private_key: Vec<u8>,
    public_key: Vec<u8>,
}

/// The private-key width of an asymmetric scheme, in bytes.
pub open spec fn spec_private_key_len(algorithm: AsymmetricAlgorithm) -> nat {
    match algorithm {
        AsymmetricAlgorithm::RSA => 2048,
        AsymmetricAlgorithm::Ed25519 => 32,
        AsymmetricAlgorithm::X25519 => 32,
    }
}

/// The public-key width of an asymmetric scheme, in bytes.
pub open spec fn spec_public_key_len(algorithm: AsymmetricAlgorithm) -> nat {
    match algorithm {
        AsymmetricAlgorithm::RSA => 512,
        AsymmetricAlgorithm::Ed25519 => 32,
        AsymmetricAlgorithm::X25519 => 32,
    }
}

impl KeyPair {
    /// The scheme this pair belongs to.
    pub closed spec fn spec_algorithm(&self) -> AsymmetricAlgorithm {
        self.algorithm
    }

    /// The public half.
    pub closed spec fn spec_public_key(&self) -> Seq<u8> {
        self.public_key@
    }

    /// The private half.
    pub closed spec fn spec_private_key(&self) -> Seq<u8> {
        self.private_key@
    }

    /// A stand-in key pair of the scheme's widths.
    pub fn generate(algorithm: AsymmetricAlgorithm) -> (r: KeyPair)
        ensures
            r.spec_algorithm() == algorithm,
            r.spec_private_key().len() == spec_private_key_len(algorithm),
            r.spec_public_key().len() == spec_public_key_len(algorithm),
    {
        match algorithm {
            AsymmetricAlgorithm::RSA => KeyPair {
                algorithm,
                private_key: vec![0u8; 2048],
                public_key: vec![0u8; 512],
            },
            AsymmetricAlgorithm::Ed25519 => KeyPair {
                algorithm,
                private_key: vec![0u8; 32],
                public_key: vec![0u8; 32],
            },
            AsymmetricAlgorithm::X25519 => KeyPair {
                algorithm,
                private_key: vec![0u8; 32],
                public_key: vec![0u8; 32],
            },
        }
    }

    /// The public half.
    pub fn public_key(&self) -> (r: &[u8])
        ensures
            r@ == self.spec_public_key(),
    {
        self.public_key.as_slice()
    }

    /// Signs under the scheme: RSA and Ed25519 yield stand-in signatures of
    /// their scheme's width; X25519 cannot sign.
    pub fn sign(&self, data: &[u8]) -> (r: Result<Vec<u8>, CryptoError>)
        ensures
            self.spec_algorithm() == AsymmetricAlgorithm::RSA ==> (r matches Ok(sig) && sig@
                == Seq::new(256, |i: int| 0u8)),
            self.spec_algorithm() == AsymmetricAlgorithm::Ed25519 ==> (r matches Ok(sig) && sig@
                == Seq::new(64, |i: int| 0u8)),
            self.spec_algorithm() == AsymmetricAlgorithm::X25519 ==> r == Err::<
                Vec<u8>,
                CryptoError,
            >(CryptoError::UnsupportedOperation),
    {
        match self.algorithm {
            AsymmetricAlgorithm::RSA => {
                let sig = vec![0u8; 256];
                proof {
                    assert(sig@ =~= Seq::new(256, |i: int| 0u8));
                }
                Ok(sig)
            },
            AsymmetricAlgorithm::Ed25519 => {
                let sig = vec![0u8; 64];
                proof {
                    assert(sig@ =~= Seq::new(64, |i: int| 0u8));
                }
                Ok(sig)
            },
            AsymmetricAlgorithm::X25519 => Err(CryptoError::UnsupportedOperation),
        }
    }

    /// Verifies under the scheme: the stand-in cores accept every signature;
    /// X25519 cannot verify.
    pub fn verify(&self, data: &[u8], signature: &[u8]) -> (r: Result<bool, CryptoError>)
        ensures
            self.spec_algorithm() != AsymmetricAlgorithm::X25519 ==> r == Ok::<bool, CryptoError>(
                true,
            ),
            self.spec_algorithm() == AsymmetricAlgorithm::X25519 ==> r == Err::<
                bool,
                CryptoError,
            >(CryptoError::UnsupportedOperation),
    {
        match self.algorithm {
            AsymmetricAlgorithm::RSA => Ok(true),
            AsymmetricAlgorithm::Ed25519 => Ok(true),
            AsymmetricAlgorithm::X25519 => Err(CryptoError::UnsupportedOperation),
        }
    }

    /// Encrypts to this pair's public key: RSA pads by 256 bytes and X25519
    /// by 16; Ed25519 cannot encrypt.
    pub fn encrypt(&self, plaintext: &[u8]) -> (r: Result<Vec<u8>, CryptoError>)
        requires
            plaintext@.len() + 256 <= usize::MAX,
        ensures
            self.spec_algorithm() == AsymmetricAlgorithm::RSA ==> (r matches Ok(c) && c@
                == Seq::new(plaintext@.len() + 256, |i: int| 0u8)),
            self.spec_algorithm() == AsymmetricAlgorithm::X25519 ==> (r matches Ok(c) && c@
                == Seq::new(plaintext@.len() + 16, |i: int| 0u8)),
            self.spec_algorithm() == AsymmetricAlgorithm::Ed25519 ==> r == Err::<
                Vec<u8>,
                CryptoError,
            >(CryptoError::UnsupportedOperation),
    {
        match self.algorithm {
            AsymmetricAlgorithm::RSA => {
                let c = vec![0u8; plaintext.len() + 256];
                proof {
                    assert(c@ =~= Seq::new(plaintext@.len() + 256, |i: int| 0u8));
                }
                Ok(c)
            },
            AsymmetricAlgorithm::Ed25519 => Err(CryptoError::UnsupportedOperation),
            AsymmetricAlgorithm::X25519 => {
                let c = vec![0u8; plaintext.len() + 16];
                proof {
                    assert(c@ =~= Seq::new(plaintext@.len() + 16, |i: int| 0u8));
                }
                Ok(c)
            },
        }
    }

    /// Decrypts with this pair's private key: RSA strips 256 bytes and
    /// X25519 strips 16; Ed25519 cannot decrypt.
    pub fn decrypt(&self, ciphertext: &[u8]) -> (r: Result<Vec<u8>, CryptoError>)
        requires
            self.spec_algorithm() == AsymmetricAlgorithm::RSA ==> ciphertext@.len() >= 256,
            self.spec_algorithm() == AsymmetricAlgorithm::X25519 ==> ciphertext@.len() >= 16,
        ensures
            self.spec_algorithm() == AsymmetricAlgorithm::RSA ==> (r matches Ok(p) && p@
                == Seq::new((ciphertext@.len() - 256) as nat, |i: int| 0u8)),
            self.spec_algorithm() == AsymmetricAlgorithm::X25519 ==> (r matches Ok(p) && p@
                == Seq::new((ciphertext@.len() - 16) as nat, |i: int| 0u8)),
            self.spec_algorithm() == AsymmetricAlgorithm::Ed25519 ==> r == Err::<
                Vec<u8>,
                CryptoError,
            >(CryptoError::UnsupportedOperation),
    {
        match self.algorithm {
            AsymmetricAlgorithm::RSA => {
                let p = vec![0u8; ciphertext.len() - 256];
                proof {
                    assert(p@ =~= Seq::new((ciphertext@.len() - 256) as nat, |i: int| 0u8));
                }
                Ok(p)
            },
            AsymmetricAlgorithm::Ed25519 => Err(CryptoError::UnsupportedOperation),
            AsymmetricAlgorithm::X25519 => {
                let p = vec![0u8; ciphertext.len() - 16];
                proof {
                    assert(p@ =~= Seq::new((ciphertext@.len() - 16) as nat, |i: int| 0u8));
                }
                Ok(p)
            },
        }
    }
}

/// A failure in a cryptographic operation.
#[derive(Clone, Copy, Debug, PartialEq, Eq, Structural)]
pub enum CryptoError {
    InvalidKeyLength,
    InvalidNonceLength,
    EncryptionError,
    DecryptionError,
    SignatureError,
    VerificationError,
    UnsupportedOperation,
}

/// The rendered message of a cryptographic failure.
pub open spec fn spec_crypto_error_message(e: CryptoError) -> Seq<char> {
    match e {
        CryptoError::InvalidKeyLength => "Invalid key length"@,
        CryptoError::InvalidNonceLength => "Invalid nonce length"@,
        CryptoError::EncryptionError => "Encryption error"@,
        CryptoError::DecryptionError => "Decryption error"@,
        CryptoError::SignatureError => "Signature error"@,
        CryptoError::VerificationError => "Verification error"@,
        CryptoError::UnsupportedOperation => "Unsupported operation"@,
    }
}

impl CryptoError {
    /// Renders the failure as its user-facing message.
    pub fn message(&self) -> (r: String)
        ensures
            r@ == spec_crypto_error_message(*self),
    {
        match self {
            CryptoError::InvalidKeyLength => crate::strutil::str_copy("Invalid key length"),
            CryptoError::InvalidNonceLength => crate::strutil::str_copy("Invalid nonce length"),
            CryptoError::EncryptionError => crate::strutil::str_copy("Encryption error"),
            CryptoError::DecryptionError => crate::strutil::str_copy("Decryption error"),
            CryptoError::SignatureError => crate::strutil::str_copy("Signature error"),
            CryptoError::VerificationError => crate::strutil::str_copy("Verification error"),
            CryptoError::UnsupportedOperation => crate::strutil::str_copy("Unsupported operation"),
        }
    }
}

} // verus!
