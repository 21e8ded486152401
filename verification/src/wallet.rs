//! Local wallets: a wallet file keeps the Ed25519 secret key XOR-ed with a
//! key derived from the wallet's password by SHA-256, with the public key
//! in hexadecimal to tell a right password from a wrong one.
use vstd::prelude::*;
use std::path::PathBuf;
use ed25519_dalek::SigningKey;
use crate::hashing::{sha256, sha256_of};
use crate::keymap::str_eq;
use crate::text::digit_char;

verus! {

#[verifier::external_type_specification]
#[verifier::external_body]
pub struct ExPathBuf(PathBuf);

/// A wallet as it is stored.
#[derive(Clone, Debug)]
pub struct WalletFile {
    pub name: String,
    pub address: String,
    pub pubkey_hex: String,
    pub encrypted_key: Vec<u8>,
    pub created_at: String,
}

/// The wallets in a directory.
pub struct WalletManager {
    wallet_dir: PathBuf,
}

/// Why a wallet's key could not be had.
#[derive(Clone, Copy, Debug, PartialEq, Eq, Structural)]
pub enum WalletError {
    /// The decrypted key is not 32 bytes long.
    WrongKeyLength,
    /// The decrypted key's public key is not the wallet's: the password is wrong.
    IncorrectPassword,
    /// The text is not hexadecimal.
    InvalidHex,
    /// The decoded key is not 32 bytes long; holds the length.
    WrongHexKeyLength(usize),
}

/// The public key that `ed25519_dalek` derives from the 32-byte secret key `secret`.
pub uninterp spec fn ed25519_public_of(secret: Seq<u8>) -> Seq<u8>;

/// The public key of the secret key `secret`, by `SigningKey::from_bytes`
/// and `verifying_key`; the key is named, not stated.
#[verifier::external_body]
fn ed25519_public_key(secret: &[u8; 32]) -> (r: [u8; 32])
    ensures
        r@ == ed25519_public_of(secret@),
{
    SigningKey::from_bytes(secret).verifying_key().to_bytes()
}

/// `bytes` in lower-case hexadecimal, two digits a byte.
pub open spec fn hex_lower(bytes: Seq<u8>) -> Seq<char>
    decreases bytes.len(),
{
    if bytes.len() == 0 {
        Seq::empty()
    } else {
        hex_lower(bytes.drop_last()) + seq![
            digit_char((bytes.last() / 16) as nat),
            digit_char((bytes.last() % 16) as nat),
        ]
    }
}

/// `hex::encode`: lower-case hexadecimal, two digits a byte.
#[verifier::external_body]
fn hex_encode(bytes: &[u8]) -> (r: String)
    ensures
        r@ == hex_lower(bytes@),
{
    hex::encode(bytes)
}

/// The value of a hexadecimal digit byte of either case.
pub open spec fn hex_digit_value(c: u8) -> Option<u8> {
    if 48 <= c <= 57 {
        Some((c - 48) as u8)
    } else if 97 <= c <= 102 {
        Some((c - 87) as u8)
    } else if 65 <= c <= 70 {
        Some((c - 55) as u8)
    } else {
        None
    }
}

/// Whether `text` is hexadecimal as `hex::decode` reads it: of even length,
/// every byte a digit of either case.
pub open spec fn hex_decodes(text: Seq<u8>) -> bool {
    &&& text.len() % 2 == 0
    &&& forall|i: int| 0 <= i < text.len() ==> (#[trigger] hex_digit_value(text[i])) is Some
}

/// The bytes that hexadecimal `text` stands for, a byte a pair of digits.
pub open spec fn hex_decoded(text: Seq<u8>) -> Seq<u8> {
    Seq::new(
        text.len() / 2,
        |i: int| (hex_digit_value(text[2 * i])->0 * 16 + hex_digit_value(text[2 * i + 1])->0) as u8,
    )
}

/// `hex::decode` on `text`: the bytes it stands for, `None` where it is not
/// hexadecimal.
#[verifier::external_body]
fn hex_decode(text: &[u8]) -> (r: Option<Vec<u8>>)
    ensures
        match r {
            Some(v) => hex_decodes(text@) && v@ == hex_decoded(text@),
            None => !hex_decodes(text@),
        },
{
    match hex::decode(text) {
        Ok(v) => Some(v),
        Err(_) => None,
    }
}

/// `dir` joined with `file`, by `Path::join`.
#[verifier::external_body]
fn join_path(dir: &PathBuf, file: &str) -> PathBuf {
    dir.join(file)
}

/// The key a password encrypts with: the SHA-256 digest of
/// `dina-wallet-encryption:` followed by the password's bytes.
pub open spec fn password_key(password: Seq<char>) -> Seq<u8> {
    sha256_of(vstd::utf8::encode_utf8("dina-wallet-encryption:"@) + vstd::utf8::encode_utf8(password))
}

/// `data` XOR-ed byte by byte with `key`, repeated.
pub open spec fn xor_with(data: Seq<u8>, key: Seq<u8>) -> Seq<u8> {
    Seq::new(data.len(), |i: int| data[i] ^ key[i % 32])
}

/// What unlocking a wallet gives: the secret key and its public key where
/// the decrypted key is 32 bytes whose public key's hexadecimal is the
/// wallet's; otherwise which check failed.
pub open spec fn unlocked(encrypted_key: Seq<u8>, password: Seq<char>, pubkey_hex: Seq<char>) -> Result<
    (Seq<u8>, Seq<u8>),
    WalletError,
> {
    let secret = xor_with(encrypted_key, password_key(password));
    if secret.len() != 32 {
        Err(WalletError::WrongKeyLength)
    } else if hex_lower(ed25519_public_of(secret)) != pubkey_hex {
        Err(WalletError::IncorrectPassword)
    } else {
        Ok((secret, ed25519_public_of(secret)))
    }
}

/// `text` without a leading `0x`.
pub open spec fn without_0x(text: Seq<u8>) -> Seq<u8> {
    if text.len() >= 2 && text[0] == 48 && text[1] == 120 {
        text.skip(2)
    } else {
        text
    }
}

/// The 32 bytes of `v`.
fn array32(v: &Vec<u8>) -> (r: [u8; 32])
    requires
        v@.len() == 32,
    ensures
        r@ == v@,
{
    let r = [
        v[0], v[1], v[2], v[3], v[4], v[5], v[6], v[7],
        v[8], v[9], v[10], v[11], v[12], v[13], v[14], v[15],
        v[16], v[17], v[18], v[19], v[20], v[21], v[22], v[23],
        v[24], v[25], v[26], v[27], v[28], v[29], v[30], v[31],
    ];
    assert(r@ =~= v@);
    r
}

impl WalletManager {
    pub closed spec fn dir(&self) -> PathBuf {
        self.wallet_dir
    }

    pub fn new(wallet_dir: PathBuf) -> (m: Self)
        ensures
            m.dir() == wallet_dir,
    {
        WalletManager { wallet_dir }
    }

    /// The directory of the wallets.
    pub fn wallet_dir(&self) -> (r: &PathBuf)
        ensures
            *r == self.dir(),
    {
        &self.wallet_dir
    }

    /// The key that `password` encrypts with.
    pub fn derive_password_key(password: &str) -> (r: [u8; 32])
        ensures
            r@ == password_key(password@),
    {
        let mut input: Vec<u8> = vstd::slice::slice_to_vec("dina-wallet-encryption:".as_bytes());
        let mut rest: Vec<u8> = vstd::slice::slice_to_vec(password.as_bytes());
        input.append(&mut rest);
        sha256(input.as_slice())
    }

    /// `data` XOR-ed with `key`; applied twice with one key it gives `data` back.
    pub fn xor_cipher(data: &[u8], key: &[u8; 32]) -> (r: Vec<u8>)
        ensures
            r@ == xor_with(data@, key@),
    {
        let mut out: Vec<u8> = Vec::new();
        let mut i: usize = 0;
        while i < data.len()
            invariant
                i <= data@.len(),
                out@ == xor_with(data@, key@).take(i as int),
            decreases data@.len() - i,
        {
            out.push(data[i] ^ key[i % 32]);
            assert(out@ =~= xor_with(data@, key@).take(i + 1));
            i += 1;
        }
        assert(out@ =~= xor_with(data@, key@));
        out
    }

    /// The file name of the wallet `name`: `name.json`.
    pub fn wallet_file_name(name: &str) -> (r: String)
        ensures
            r@ == name@ + ".json"@,
    {
        let mut file = String::from_str(name);
        file.append(".json");
        file
    }

    /// The file of the wallet `name`: `name.json` in the directory.
    pub fn wallet_path(&self, name: &str) -> PathBuf {
        let file = Self::wallet_file_name(name);
        join_path(&self.wallet_dir, file.as_str())
    }

    /// The file that names the default wallet: `_default` in the directory.
    pub fn default_file_path(&self) -> PathBuf {
        join_path(&self.wallet_dir, "_default")
    }

    /// The secret and public key of a wallet, decrypted with `password`:
    /// the decrypted key must be 32 bytes and its public key, in
    /// hexadecimal, the wallet's.
    pub fn unlock_key(encrypted_key: &[u8], password: &str, pubkey_hex: &str) -> (r: Result<
        ([u8; 32], [u8; 32]),
        WalletError,
    >)
        ensures
            match r {
                Ok((secret, public)) => unlocked(encrypted_key@, password@, pubkey_hex@) == Ok::<
                    (Seq<u8>, Seq<u8>),
                    WalletError,
                >((secret@, public@)),
                Err(e) => unlocked(encrypted_key@, password@, pubkey_hex@) == Err::<
                    (Seq<u8>, Seq<u8>),
                    WalletError,
                >(e),
            },
    {
        let pw_key = Self::derive_password_key(password);
        let decrypted = Self::xor_cipher(encrypted_key, &pw_key);
        if decrypted.len() != 32 {
            return Err(WalletError::WrongKeyLength);
        }
        let secret = array32(&decrypted);
        let public = ed25519_public_key(&secret);
        let derived_hex = hex_encode(public.as_slice());
        if !str_eq(derived_hex.as_str(), pubkey_hex) {
            return Err(WalletError::IncorrectPassword);
        }
        Ok((secret, public))
    }

    /// The stored form of the 32-byte secret key `secret` under `password`:
    /// the key XOR-ed with the password's key, beside its public key in
    /// lower-case hexadecimal; it unlocks with that password.
    pub fn seal_wallet(
        name: &str,
        password: &str,
        secret: &[u8; 32],
        address: String,
        created_at: String,
    ) -> (w: WalletFile)
        ensures
            w.name@ == name@,
            w.address == address,
            w.created_at == created_at,
            w.encrypted_key@ == xor_with(secret@, password_key(password@)),
            w.pubkey_hex@ == hex_lower(ed25519_public_of(secret@)),
            unlocked(w.encrypted_key@, password@, w.pubkey_hex@) == Ok::<
                (Seq<u8>, Seq<u8>),
                WalletError,
            >((secret@, ed25519_public_of(secret@))),
    {
        let pw_key = Self::derive_password_key(password);
        let encrypted_key = Self::xor_cipher(secret.as_slice(), &pw_key);
        let public = ed25519_public_key(secret);
        let pubkey_hex = hex_encode(public.as_slice());
        proof {
            law_unlock_with_own_password(secret@, password@);
        }
        WalletFile { name: String::from_str(name), address, pubkey_hex, encrypted_key, created_at }
    }

    /// The 32-byte secret key written in hexadecimal, with or without `0x`.
    pub fn parse_private_key(private_key_hex: &str) -> (r: Result<[u8; 32], WalletError>)
        ensures
            ({
                let text = without_0x(vstd::utf8::encode_utf8(private_key_hex@));
                match r {
                    Ok(secret) => hex_decodes(text) && hex_decoded(text).len() == 32 && secret@
                        == hex_decoded(text),
                    Err(WalletError::InvalidHex) => !hex_decodes(text),
                    Err(WalletError::WrongHexKeyLength(n)) => hex_decodes(text) && n == hex_decoded(
                        text,
                    ).len() && n != 32,
                    Err(_) => false,
                }
            }),
    {
        let bytes = private_key_hex.as_bytes();
        let text = if bytes.len() >= 2 && bytes[0] == 48 && bytes[1] == 120 {
            vstd::slice::slice_subrange(bytes, 2, bytes.len())
        } else {
            bytes
        };
        assert(text@ =~= without_0x(vstd::utf8::encode_utf8(private_key_hex@)));
        let key_bytes = match hex_decode(text) {
            Some(v) => v,
            None => {
                return Err(WalletError::InvalidHex);
            },
        };
        if key_bytes.len() != 32 {
            return Err(WalletError::WrongHexKeyLength(key_bytes.len()));
        }
        Ok(array32(&key_bytes))
    }
}

/// Encrypting and decrypting are the same: XOR-ing twice with one key
/// gives the data back.
pub proof fn law_xor_cipher_is_involution(data: Seq<u8>, key: Seq<u8>)
    ensures
        xor_with(xor_with(data, key), key) == data,
{
    assert forall|i: int| 0 <= i < data.len() implies #[trigger] xor_with(xor_with(data, key), key)[i]
        == data[i] by {
        let a = data[i];
        let b = key[i % 32];
        assert((a ^ b) ^ b == a) by (bit_vector);
    }
    assert(xor_with(xor_with(data, key), key) =~= data);
}

/// A wallet unlocks with the password it was encrypted with: storing a
/// 32-byte secret XOR-ed with a password's key, beside its public key in
/// hexadecimal, and unlocking with that password gives the secret back.
pub proof fn law_unlock_with_own_password(secret: Seq<u8>, password: Seq<char>)
    requires
        secret.len() == 32,
    ensures
        unlocked(
            xor_with(secret, password_key(password)),
            password,
            hex_lower(ed25519_public_of(secret)),
        ) == Ok::<(Seq<u8>, Seq<u8>), WalletError>((secret, ed25519_public_of(secret))),
{
    law_xor_cipher_is_involution(secret, password_key(password));
}

} // verus!
