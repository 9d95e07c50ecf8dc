//! The credential wallet: passphrase-derived encryption of a keystore,
//! lookup of named keypairs, and locking, unlocking and exporting the
//! keystore as a ciphertext.

use vstd::prelude::*;
use argon2::PasswordHasher;
use base64::Engine;
use crypto_box::aead::Aead;
use crate::kv::{assoc, Keyed, KvList};

verus! {

/// Pads or truncates a byte slice to exactly 32 bytes: shorter inputs are
/// zero-extended, longer inputs keep their first 32 bytes.
pub fn slice_to_u8_array(slice: &[u8]) -> (r: [u8; 32])
    ensures
        r@ == pad32(slice@),
{
    let mut array: [u8; 32] = [0u8; 32];
    let mut i: usize = 0;
    while i < 32
        invariant
            i <= 32,
            array@.len() == 32,
            forall|j: int|
                0 <= j < i ==> array@[j] == (if j < slice@.len() {
                    slice@[j]
                } else {
                    0u8
                }),
            forall|j: int| i <= j < 32 ==> array@[j] == 0u8,
        decreases 32 - i,
    {
        if i < slice.len() {
            array[i] = slice[i];
        }
        i = i + 1;
    }
    proof {
        assert(array@ =~= pad32(slice@));
    }
    array
}

/// `b` zero-extended or cut to exactly 32 bytes.
pub open spec fn pad32(b: Seq<u8>) -> Seq<u8> {
    Seq::new(32, |i: int| if i < b.len() {
        b[i]
    } else {
        0u8
    })
}

/// The PHC string the key derivation function renders for `pass` under the
/// wallet's fixed all-zero salt and default parameters: it depends on the
/// passphrase alone.
pub uninterp spec fn argon2_phc_of(pass: Seq<u8>) -> Seq<char>;

/// Relies on argon2's `PasswordHasher::hash_password` with the fixed
/// `0000000000000000` salt and default parameters: deterministic in the
/// passphrase.
#[verifier::external_body]
fn derive_phc(pass: &[u8]) -> (r: Option<String>)
    ensures
        match r {
            Some(s) => s@ == argon2_phc_of(pass@),
            None => true,
        },
{
    match argon2::password_hash::Salt::from_b64("0000000000000000") {
        Ok(salt) => match argon2::Argon2::default().hash_password(pass, salt) {
            Ok(hash) => Some(hash.to_string()),
            Err(_) => None,
        },
        Err(_) => None,
    }
}

/// The ciphertext the salsa box produces for `msg` under `key` with the
/// all-zero nonce: deterministic in its arguments.
pub uninterp spec fn salsa_seal_of(key: Seq<u8>, msg: Seq<u8>) -> Seq<u8>;

/// What opening a ciphertext under `key` with the all-zero nonce yields.
pub uninterp spec fn salsa_open_of(key: Seq<u8>, ct: Seq<u8>) -> Option<Seq<u8>>;

/// Relies on crypto_box's `SalsaBox` used with the default nonce: sealing is
/// deterministic in key and message, and opening the sealed box under the
/// same key gives the message back.
#[verifier::external_body]
fn salsa_seal(key: &[u8; 32], msg: &[u8]) -> (r: Option<Vec<u8>>)
    ensures
        match r {
            Some(c) => c@ == salsa_seal_of(key@, msg@) && salsa_open_of(key@, c@) == Some(msg@),
            None => true,
        },
{
    let secret = crypto_box::SecretKey::from(*key);
    let public = crypto_box::PublicKey::from(&secret);
    let salsa = crypto_box::SalsaBox::new(&public, &secret);
    let nonce = crypto_box::Nonce::default();
    salsa.encrypt(&nonce, msg).ok()
}

/// Relies on crypto_box's `SalsaBox` used with the default nonce: opening
/// authenticates and decrypts, failing on anything not sealed under the key.
#[verifier::external_body]
fn salsa_open(key: &[u8; 32], ct: &[u8]) -> (r: Option<Vec<u8>>)
    ensures
        match r {
            Some(m) => salsa_open_of(key@, ct@) == Some(m@),
            None => salsa_open_of(key@, ct@) is None,
        },
{
    let secret = crypto_box::SecretKey::from(*key);
    let public = crypto_box::PublicKey::from(&secret);
    let salsa = crypto_box::SalsaBox::new(&public, &secret);
    let nonce = crypto_box::Nonce::default();
    salsa.decrypt(&nonce, ct).ok()
}

/// The unpadded standard-alphabet base64 rendering of `b`.
pub uninterp spec fn b64_of(b: Seq<u8>) -> Seq<char>;

/// What decoding a string as unpadded standard-alphabet base64 yields.
pub uninterp spec fn b64_decode_of(s: Seq<char>) -> Option<Seq<u8>>;

/// Relies on base64's `STANDARD_NO_PAD` engine: encoding is deterministic
/// and decoding the result gives the input back.
#[verifier::external_body]
fn b64_encode(b: &[u8]) -> (r: String)
    ensures
        r@ == b64_of(b@),
        b64_decode_of(r@) == Some(b@),
{
    base64::engine::general_purpose::STANDARD_NO_PAD.encode(b)
}

/// Relies on base64's `STANDARD_NO_PAD` engine: decodes exactly the well-
/// formed unpadded encodings.
#[verifier::external_body]
fn b64_decode(s: &str) -> (r: Option<Vec<u8>>)
    ensures
        match r {
            Some(v) => b64_decode_of(s@) == Some(v@),
            None => b64_decode_of(s@) is None,
        },
{
    base64::engine::general_purpose::STANDARD_NO_PAD.decode(s.as_bytes()).ok()
}

/// The UTF-8 encoding of a character sequence.
pub uninterp spec fn utf8_bytes_of(s: Seq<char>) -> Seq<u8>;

/// The characters a byte sequence decodes to as UTF-8, if it is valid.
pub uninterp spec fn utf8_chars_of(b: Seq<u8>) -> Option<Seq<char>>;

/// Relies on `str::as_bytes`: the UTF-8 encoding of a string is a function
/// of its characters and decodes back to them.
#[verifier::external_body]
fn string_bytes(s: &str) -> (r: Vec<u8>)
    ensures
        r@ == utf8_bytes_of(s@),
        utf8_chars_of(r@) == Some(s@),
{
    s.as_bytes().to_vec()
}

/// Relies on `String::from_utf8`: decodes exactly the valid UTF-8 buffers.
#[verifier::external_body]
fn bytes_to_string(b: Vec<u8>) -> (r: Option<String>)
    ensures
        match r {
            Some(s) => utf8_chars_of(b@) == Some(s@),
            None => utf8_chars_of(b@) is None,
        },
{
    match String::from_utf8(b) {
        Ok(s) => Some(s),
        Err(_) => None,
    }
}

/// The 32-byte secret key the wallet derives from a passphrase: the first
/// 32 bytes of the PHC string of the passphrase, zero-extended.
pub open spec fn wallet_key_of(passphrase: Seq<char>) -> Seq<u8> {
    pad32(utf8_bytes_of(argon2_phc_of(utf8_bytes_of(passphrase))))
}

/// What encrypting a byte payload under `passphrase` renders: the sealed
/// bytes, in base64.
pub open spec fn spec_encrypt_bytes(payload: Seq<u8>, passphrase: Seq<char>) -> Seq<char> {
    b64_of(salsa_seal_of(wallet_key_of(passphrase), payload))
}

/// What encrypting `payload` under `passphrase` renders: the sealed UTF-8
/// bytes of the payload, in base64.
pub open spec fn spec_encrypt(payload: Seq<char>, passphrase: Seq<char>) -> Seq<char> {
    spec_encrypt_bytes(utf8_bytes_of(payload), passphrase)
}

/// What decrypting a ciphertext under `passphrase` uncovers, when the
/// base64 and the seal check out.
pub open spec fn spec_decrypt_bytes(cipher: Seq<char>, passphrase: Seq<char>) -> Option<Seq<u8>> {
    match b64_decode_of(cipher) {
        None => None,
        Some(ct) => salsa_open_of(wallet_key_of(passphrase), ct),
    }
}

/// What decrypting a ciphertext under `passphrase` yields, when the base64,
/// the seal, and the UTF-8 decoding all check out.
pub open spec fn spec_decrypt(cipher: Seq<char>, passphrase: Seq<char>) -> Option<Seq<char>> {
    match spec_decrypt_bytes(cipher, passphrase) {
        None => None,
        Some(m) => utf8_chars_of(m),
    }
}

/// Encrypts a byte payload under a key derived from `passphrase`. Fails
/// only if the outside key derivation or seal reports an error.
fn encrypt_bytes(payload: &[u8], passphrase: &String) -> (r: Option<String>)
    ensures
        match r {
            Some(s) => s@ == spec_encrypt_bytes(payload@, passphrase@),
            None => true,
        },
{
    let pass_bytes = string_bytes(passphrase.as_str());
    let phc = match derive_phc(pass_bytes.as_slice()) {
        Some(p) => p,
        None => {
            return None;
        },
    };
    let phc_bytes = string_bytes(phc.as_str());
    let key = slice_to_u8_array(phc_bytes.as_slice());
    match salsa_seal(&key, payload) {
        Some(sealed) => Some(b64_encode(sealed.as_slice())),
        None => None,
    }
}

/// Decrypts a ciphertext back to the sealed bytes.
fn decrypt_bytes(cipher: &String, passphrase: &String) -> (r: Option<Vec<u8>>)
    ensures
        match r {
            Some(m) => spec_decrypt_bytes(cipher@, passphrase@) == Some(m@),
            None => true,
        },
{
    let pass_bytes = string_bytes(passphrase.as_str());
    let phc = match derive_phc(pass_bytes.as_slice()) {
        Some(p) => p,
        None => {
            return None;
        },
    };
    let phc_bytes = string_bytes(phc.as_str());
    let key = slice_to_u8_array(phc_bytes.as_slice());
    let ct = match b64_decode(cipher.as_str()) {
        Some(v) => v,
        None => {
            return None;
        },
    };
    salsa_open(&key, ct.as_slice())
}

/// Encrypts `payload` under a key derived from `passphrase`. Fails only if
/// the outside key derivation or seal reports an error.
pub fn encrypt(payload: String, passphrase: String) -> (r: Option<String>)
    ensures
        match r {
            Some(s) => s@ == spec_encrypt(payload@, passphrase@),
            None => true,
        },
{
    let payload_bytes = string_bytes(payload.as_str());
    encrypt_bytes(payload_bytes.as_slice(), &passphrase)
}

/// Decrypts a ciphertext produced by `encrypt` under the same passphrase.
pub fn decrypt(payload: String, passphrase: String) -> (r: Option<String>)
    ensures
        match r {
            Some(s) => spec_decrypt(payload@, passphrase@) == Some(s@),
            None => true,
        },
{
    match decrypt_bytes(&payload, &passphrase) {
        Some(m) => bytes_to_string(m),
        None => None,
    }
}

/// One keypair: raw secret and public key bytes.
#[derive(Debug)]
pub struct Key {
    pub secret: Vec<u8>,
    pub public: Vec<u8>,
}

/// The mathematical content of a keypair.
pub ghost struct KeyV {
    pub secret: Seq<u8>,
    pub public: Seq<u8>,
}

impl View for Key {
    type V = KeyV;

    open spec fn view(&self) -> KeyV {
        KeyV { secret: self.secret@, public: self.public@ }
    }
}

impl Key {
    /// A copy holding the same bytes.
    pub fn duplicate(&self) -> (r: Self)
        ensures
            r@ == self@,
    {
        let r = Key { secret: self.secret.clone(), public: self.public.clone() };
        proof {
            assert(r.secret@ =~= self.secret@);
            assert(r.public@ =~= self.public@);
        }
        r
    }
}

/// A named keypair held by the wallet.
#[derive(Debug)]
pub struct KeyEntry {
    pub name: String,
    pub key: Key,
}

impl Keyed for KeyEntry {
    open spec fn key_spec(&self) -> Seq<char> {
        self.name@
    }

    fn key(&self) -> (r: &String) {
        &self.name
    }
}

/// The wallet's keys, at most one per name.
pub struct Keys {
    pub by_name: KvList<KeyEntry>,
}

impl Keys {
    /// No keys.
    pub fn new() -> (r: Self)
        ensures
            r.by_name@ =~= Seq::<KeyEntry>::empty(),
            r.by_name.wf(),
    {
        Keys { by_name: KvList::new() }
    }
}

/// The byte-stuffed rendering of one keystore field: a zero byte is
/// doubled, so an unescaped zero can frame fields unambiguously.
pub open spec fn spec_escape(b: Seq<u8>) -> Seq<u8>
    decreases b.len(),
{
    if b.len() == 0 {
        Seq::empty()
    } else {
        (if b.first() == 0 {
            seq![0u8, 0u8]
        } else {
            seq![b.first()]
        }) + spec_escape(b.drop_first())
    }
}

/// One step of the escaped rendering: extending the prefix by one byte
/// appends that byte's escape.
proof fn lemma_escape_take(b: Seq<u8>, i: int)
    requires
        0 <= i < b.len(),
    ensures
        spec_escape(b.take(i + 1)) == spec_escape(b.take(i)) + (if b[i] == 0 {
            seq![0u8, 0u8]
        } else {
            seq![b[i]]
        }),
    decreases i,
{
    let block = if b[i] == 0 {
        seq![0u8, 0u8]
    } else {
        seq![b[i]]
    };
    if i == 0 {
        assert(b.take(1) =~= seq![b[0]]);
        assert(b.take(1).drop_first() =~= Seq::<u8>::empty());
        assert(b.take(0) =~= Seq::<u8>::empty());
        assert(spec_escape(Seq::<u8>::empty()) == Seq::<u8>::empty());
        assert(spec_escape(b.take(1)) =~= block);
    } else {
        lemma_escape_take(b.drop_first(), i - 1);
        let head_block = if b[0] == 0 {
            seq![0u8, 0u8]
        } else {
            seq![b[0]]
        };
        assert(b.take(i + 1).first() == b[0]);
        assert(b.take(i).first() == b[0]);
        assert(b.take(i + 1).drop_first() =~= b.drop_first().take(i));
        assert(b.take(i).drop_first() =~= b.drop_first().take(i - 1));
        assert(b.drop_first()[i - 1] == b[i]);
        assert(head_block + (spec_escape(b.drop_first().take(i - 1)) + block) =~= (head_block
            + spec_escape(b.drop_first().take(i - 1))) + block);
    }
}

/// Appends the escaped field and its terminator to `out`.
fn escape_field(out: &mut Vec<u8>, field: &[u8], terminator: u8)
    ensures
        final(out)@ == old(out)@ + spec_escape(field@) + seq![0u8, terminator],
{
    let ghost base = out@;
    let n = field.len();
    let mut i: usize = 0;
    proof {
        assert(field@.take(0) =~= Seq::<u8>::empty());
        assert(out@ =~= base + spec_escape(field@.take(0)));
    }
    while i < n
        invariant
            n == field@.len(),
            i <= n,
            out@ == base + spec_escape(field@.take(i as int)),
        decreases n - i,
    {
        let b = field[i];
        if b == 0 {
            out.push(0);
            out.push(0);
        } else {
            out.push(b);
        }
        proof {
            lemma_escape_take(field@, i as int);
            if b == 0 {
                assert(out@ =~= base + spec_escape(field@.take(i as int)) + seq![0u8, 0u8]);
                assert(out@ =~= base + spec_escape(field@.take(i as int + 1)));
            } else {
                assert(out@ =~= base + spec_escape(field@.take(i as int)) + seq![b]);
                assert(out@ =~= base + spec_escape(field@.take(i as int + 1)));
            }
        }
        i = i + 1;
    }
    out.push(0);
    out.push(terminator);
    proof {
        assert(field@.take(n as int) =~= field@);
        assert(out@ =~= base + spec_escape(field@) + seq![0u8, terminator]);
    }
}

/// One keystore entry: the UTF-8 name, the secret, and the public key, each
/// escaped and terminated; the entry is closed with the end marker.
pub open spec fn spec_encode_entry(name: Seq<char>, secret: Seq<u8>, public: Seq<u8>) -> Seq<
    u8,
> {
    spec_escape(utf8_bytes_of(name)) + seq![0u8, 1u8] + spec_escape(secret) + seq![0u8, 1u8]
        + spec_escape(public) + seq![0u8, 2u8]
}

/// The whole keystore, entry after entry in stored order.
pub open spec fn spec_encode_keys(entries: Seq<KeyEntry>) -> Seq<u8>
    decreases entries.len(),
{
    if entries.len() == 0 {
        Seq::empty()
    } else {
        spec_encode_entry(
            entries.first().name@,
            entries.first().key.secret@,
            entries.first().key.public@,
        ) + spec_encode_keys(entries.drop_first())
    }
}

/// One step of the keystore rendering: extending the prefix by one entry
/// appends that entry's encoding.
proof fn lemma_encode_keys_take(entries: Seq<KeyEntry>, i: int)
    requires
        0 <= i < entries.len(),
    ensures
        spec_encode_keys(entries.take(i + 1)) == spec_encode_keys(entries.take(i))
            + spec_encode_entry(
            entries[i].name@,
            entries[i].key.secret@,
            entries[i].key.public@,
        ),
    decreases i,
{
    let block = spec_encode_entry(
        entries[i].name@,
        entries[i].key.secret@,
        entries[i].key.public@,
    );
    if i == 0 {
        assert(entries.take(1) =~= seq![entries[0]]);
        assert(entries.take(1).drop_first() =~= Seq::<KeyEntry>::empty());
        assert(entries.take(0) =~= Seq::<KeyEntry>::empty());
        assert(spec_encode_keys(Seq::<KeyEntry>::empty()) == Seq::<u8>::empty());
        assert(entries.take(1).first() == entries[0]);
        assert(spec_encode_keys(entries.take(1)) =~= block);
    } else {
        lemma_encode_keys_take(entries.drop_first(), i - 1);
        let head_block = spec_encode_entry(
            entries[0].name@,
            entries[0].key.secret@,
            entries[0].key.public@,
        );
        assert(entries.take(i + 1).first() == entries[0]);
        assert(entries.take(i).first() == entries[0]);
        assert(entries.take(i + 1).drop_first() =~= entries.drop_first().take(i));
        assert(entries.take(i).drop_first() =~= entries.drop_first().take(i - 1));
        assert(entries.drop_first()[i - 1] == entries[i]);
        assert(head_block + (spec_encode_keys(entries.drop_first().take(i - 1)) + block) =~= (
        head_block + spec_encode_keys(entries.drop_first().take(i - 1))) + block);
    }
}

/// Renders the keystore as bytes, entry after entry.
fn encode_keys(keys: &Keys) -> (r: Vec<u8>)
    ensures
        r@ == spec_encode_keys(keys.by_name@),
{
    let mut out: Vec<u8> = Vec::new();
    let n = keys.by_name.len();
    let mut i: usize = 0;
    proof {
        assert(keys.by_name@.take(0) =~= Seq::<KeyEntry>::empty());
        assert(out@ =~= spec_encode_keys(keys.by_name@.take(0)));
    }
    while i < n
        invariant
            n == keys.by_name@.len(),
            i <= n,
            out@ == spec_encode_keys(keys.by_name@.take(i as int)),
        decreases n - i,
    {
        let entry = keys.by_name.at(i);
        let name_bytes = string_bytes(entry.name.as_str());
        escape_field(&mut out, name_bytes.as_slice(), 1);
        escape_field(&mut out, entry.key.secret.as_slice(), 1);
        escape_field(&mut out, entry.key.public.as_slice(), 2);
        proof {
            lemma_encode_keys_take(keys.by_name@, i as int);
            assert(out@ =~= spec_encode_keys(keys.by_name@.take(i as int + 1)));
        }
        i = i + 1;
    }
    proof {
        assert(keys.by_name@.take(n as int) =~= keys.by_name@);
    }
    out
}

/// Parses a keystore rendered by `encode_keys`: three framed fields per
/// entry, names as UTF-8. Anything malformed or trailing is rejected.
fn decode_keys(bytes: &[u8]) -> (r: Option<Keys>)
    ensures
        match r {
            Some(ks) => ks.by_name.wf(),
            None => true,
        },
{
    let mut ks = Keys::new();
    let mut fields: Vec<Vec<u8>> = Vec::new();
    let mut current: Vec<u8> = Vec::new();
    let n = bytes.len();
    let mut i: usize = 0;
    while i < n
        invariant
            n == bytes@.len(),
            i <= n,
            ks.by_name.wf(),
        decreases n - i,
    {
        let b = bytes[i];
        if b == 0 {
            if i + 1 >= n {
                return None;
            }
            let marker = bytes[i + 1];
            if marker == 0 {
                current.push(0);
            } else if marker == 1 {
                fields.push(current);
                current = Vec::new();
            } else if marker == 2 {
                fields.push(current);
                current = Vec::new();
                if fields.len() != 3 {
                    return None;
                }
                let public = match fields.pop() {
                    Some(f) => f,
                    None => {
                        return None;
                    },
                };
                let secret = match fields.pop() {
                    Some(f) => f,
                    None => {
                        return None;
                    },
                };
                let name_bytes = match fields.pop() {
                    Some(f) => f,
                    None => {
                        return None;
                    },
                };
                let name = match bytes_to_string(name_bytes) {
                    Some(s) => s,
                    None => {
                        return None;
                    },
                };
                ks.by_name.upsert(KeyEntry { name, key: Key { secret, public } });
            } else {
                return None;
            }
            i = i + 2;
        } else {
            current.push(b);
            i = i + 1;
        }
    }
    if current.len() != 0 || fields.len() != 0 {
        return None;
    }
    Some(ks)
}

/// Why the wallet could not be unlocked.
#[derive(Debug, PartialEq, Eq)]
pub enum WalletError {
    /// The ciphertext did not decrypt under the derived key.
    DecryptionFailed,
    /// The decrypted bytes are not a keystore.
    MalformedKeystore,
}

/// The credential wallet: holds its keys in the clear while unlocked, and
/// only a ciphertext of them while locked.
pub struct Wallet {
    pub cipher: Option<String>,
    pub keys: Option<Keys>,
}

impl Wallet {
    /// A wallet with no keys and no ciphertext.
    pub fn new() -> (r: Self)
        ensures
            r.cipher is None,
            r.keys is None,
    {
        Wallet { cipher: None, keys: None }
    }

    /// Stores a freshly drawn keypair under `name`, replacing any previous
    /// one. The caller draws the pair outside and hands it in.
    pub fn generate_keypair(&mut self, name: String, key: Key)
        requires
            match old(self).keys {
                Some(ks) => ks.by_name.wf(),
                None => true,
            },
        ensures
            match final(self).keys {
                Some(ks) => {
                    &&& ks.by_name.wf()
                    &&& match assoc(ks.by_name@, name@) {
                        Some(e) => e.name == name && e.key@ == key@,
                        None => false,
                    }
                    &&& match old(self).keys {
                        Some(old_ks) => forall|k: Seq<char>|
                            k != name@ ==> assoc(ks.by_name@, k) == assoc(old_ks.by_name@, k),
                        None => forall|k: Seq<char>|
                            k != name@ ==> assoc(ks.by_name@, k) is None,
                    }
                },
                None => false,
            },
            final(self).cipher == old(self).cipher,
    {
        let mut ks = match self.keys.take() {
            Some(ks) => ks,
            None => Keys::new(),
        };
        ks.by_name.upsert(KeyEntry { name, key });
        self.keys = Some(ks);
    }

    /// The public key bytes stored under `name`, if the wallet is unlocked
    /// and holds such a key.
    pub fn get_public_key(&self, name: String) -> (r: Option<Vec<u8>>)
        ensures
            match r {
                Some(v) => match self.keys {
                    Some(ks) => match assoc(ks.by_name@, name@) {
                        Some(e) => v@ == e.key.public@,
                        None => false,
                    },
                    None => false,
                },
                None => match self.keys {
                    Some(ks) => assoc(ks.by_name@, name@) is None,
                    None => true,
                },
            },
    {
        match &self.keys {
            None => None,
            Some(ks) => match ks.by_name.get(&name) {
                Some(e) => {
                    let v = e.key.public.clone();
                    proof {
                        assert(v@ =~= e.key.public@);
                    }
                    Some(v)
                },
                None => None,
            },
        }
    }

    /// The secret key bytes stored under `name`, if the wallet is unlocked
    /// and holds such a key.
    pub fn get_secret_key(&self, name: String) -> (r: Option<Vec<u8>>)
        ensures
            match r {
                Some(v) => match self.keys {
                    Some(ks) => match assoc(ks.by_name@, name@) {
                        Some(e) => v@ == e.key.secret@,
                        None => false,
                    },
                    None => false,
                },
                None => match self.keys {
                    Some(ks) => assoc(ks.by_name@, name@) is None,
                    None => true,
                },
            },
    {
        match &self.keys {
            None => None,
            Some(ks) => match ks.by_name.get(&name) {
                Some(e) => {
                    let v = e.key.secret.clone();
                    proof {
                        assert(v@ =~= e.key.secret@);
                    }
                    Some(v)
                },
                None => None,
            },
        }
    }

    /// Whether the keys are present in the clear.
    pub fn is_unlocked(&self) -> (r: bool)
        ensures
            r == (self.keys is Some),
    {
        self.keys.is_some()
    }

    /// Locks the wallet: the keystore is rendered, encrypted under the
    /// passphrase, and kept only as that ciphertext. A wallet with no keys
    /// is left alone, as is one whose outside key derivation fails.
    pub fn lock(&mut self, passphrase: String)
        ensures
            match old(self).keys {
                None => *final(self) == *old(self),
                Some(ks) => {
                    ||| {
                        &&& final(self).keys is None
                        &&& match final(self).cipher {
                            Some(c) => c@ == spec_encrypt_bytes(
                                spec_encode_keys(ks.by_name@),
                                passphrase@,
                            ),
                            None => false,
                        }
                    }
                    ||| *final(self) == *old(self)
                },
            },
    {
        match self.keys.take() {
            None => {},
            Some(ks) => {
                let bytes = encode_keys(&ks);
                match encrypt_bytes(bytes.as_slice(), &passphrase) {
                    Some(c) => {
                        self.cipher = Some(c);
                    },
                    None => {
                        self.keys = Some(ks);
                    },
                }
            },
        }
    }

    /// Unlocks the wallet: the stored ciphertext is decrypted under the
    /// passphrase and parsed back into the keystore. There must be a
    /// ciphertext to unlock.
    pub fn unlock(&mut self, passphrase: String) -> (r: Result<(), WalletError>)
        requires
            old(self).cipher is Some,
        ensures
            match r {
                Ok(_) => {
                    &&& match final(self).keys {
                        Some(ks) => ks.by_name.wf(),
                        None => false,
                    }
                    &&& final(self).cipher == old(self).cipher
                    &&& match old(self).cipher {
                        Some(c) => spec_decrypt_bytes(c@, passphrase@) is Some,
                        None => false,
                    }
                },
                Err(_) => *final(self) == *old(self),
            },
    {
        let cipher = match &self.cipher {
            Some(c) => c.clone(),
            None => {
                proof {
                    assert(false);
                }
                return Err(WalletError::DecryptionFailed);
            },
        };
        let plain = match decrypt_bytes(&cipher, &passphrase) {
            Some(m) => m,
            None => {
                return Err(WalletError::DecryptionFailed);
            },
        };
        let ks = match decode_keys(plain.as_slice()) {
            Some(k) => k,
            None => {
                return Err(WalletError::MalformedKeystore);
            },
        };
        self.keys = Some(ks);
        Ok(())
    }

    /// Exports the wallet: the keystore is rendered and encrypted under the
    /// passphrase, kept as the new ciphertext, and returned; the keys stay
    /// in the clear. A locked or empty wallet exports nothing.
    pub fn export(&mut self, passphrase: String) -> (r: String)
        ensures
            match old(self).keys {
                None => r@ == Seq::<char>::empty() && *final(self) == *old(self),
                Some(ks) => {
                    ||| {
                        &&& r@ == spec_encrypt_bytes(spec_encode_keys(ks.by_name@), passphrase@)
                        &&& final(self).cipher == Some(r)
                        &&& final(self).keys == old(self).keys
                    }
                    ||| (r@ == Seq::<char>::empty() && *final(self) == *old(self))
                },
            },
    {
        let bytes_opt = match &self.keys {
            None => None,
            Some(ks) => Some(encode_keys(ks)),
        };
        match bytes_opt {
            None => String::new(),
            Some(bytes) => match encrypt_bytes(bytes.as_slice(), &passphrase) {
                Some(c) => {
                    self.cipher = Some(c.clone());
                    c
                },
                None => String::new(),
            },
        }
    }

    /// Replaces the stored ciphertext, as when importing an exported wallet.
    pub fn load(&mut self, data: String)
        ensures
            final(self).cipher == Some(data),
            final(self).keys == old(self).keys,
    {
        self.cipher = Some(data);
    }
}

} // verus!
