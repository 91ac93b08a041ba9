use vstd::prelude::*;

use aes_gcm::aead::Aead;
use aes_gcm::KeyInit;
use rand::RngCore;

use crate::jsoncodec::encode_connections;
use crate::jsoncodec::json_of;
use crate::jsoncodec::lemma_json_round_trip;
use crate::jsoncodec::lemma_sp_top_sound;
use crate::jsoncodec::parse_connections;
use crate::models::ConnView;
use crate::models::DbConnection;
use crate::models::conns_view;
use vstd::slice::slice_subrange;

verus! {

/// The ciphertext that AES-256-GCM produces for a key, nonce and
/// plaintext; a fixed function of the three, named here so that contracts
/// can speak of it.
pub uninterp spec fn cipher_of(key: Seq<u8>, nonce: Seq<u8>, plain: Seq<char>) -> Seq<u8>;

/// Relies on rand's thread_rng and fill_bytes: a buffer of `n`
/// cryptographically random bytes; nothing is promised of the values.
#[verifier::external_body]
fn random_bytes(n: usize) -> (r: Vec<u8>)
    ensures
        r@.len() == n,
{
    let mut buf = vec![0u8; n];
    rand::thread_rng().fill_bytes(&mut buf);
    buf
}

/// Relies on Aes256Gcm::encrypt of the aes-gcm crate: the ciphertext is a
/// function of key, nonce and plaintext alone, it is the message followed
/// by a 16-byte tag, and encryption succeeds whenever the message is far
/// below the AES-GCM length ceiling.
#[verifier::external_body]
fn aead_encrypt(key: &Vec<u8>, nonce: &Vec<u8>, plain: &str) -> (r: Option<Vec<u8>>)
    requires
        key@.len() == 32,
        nonce@.len() == 12,
    ensures
        r matches Some(ct) ==> ct@ == cipher_of(key@, nonce@, plain@),
        r matches Some(ct) ==> ct@.len() == vstd::utf8::encode_utf8(plain@).len() + 16,
        plain@.len() <= 0x100000000 ==> r is Some,
{
    let cipher = match aes_gcm::Aes256Gcm::new_from_slice(key.as_slice()) {
        Ok(c) => c,
        Err(_) => return None,
    };
    let nonce_arr = aes_gcm::Nonce::from_slice(nonce.as_slice());
    match cipher.encrypt(nonce_arr, plain.as_bytes()) {
        Ok(ct) => Some(ct),
        Err(_) => None,
    }
}

/// Relies on Aes256Gcm::decrypt of the aes-gcm crate: decrypting a
/// genuine ciphertext under its key and nonce returns the plaintext it
/// was made from, and a decryption that succeeds yields a plaintext whose
/// encryption under the same key and nonce is exactly this ciphertext
/// (counter-mode decryption inverts encryption, and the verified tag is
/// the one encryption computes).  The plaintext is handed back as UTF-8
/// text.
#[verifier::external_body]
fn aead_decrypt(key: &Vec<u8>, nonce: &[u8], ct: &[u8]) -> (r: Option<String>)
    requires
        key@.len() == 32,
        nonce@.len() == 12,
    ensures
        r is None ==> forall|p: Seq<char>| ct@ != cipher_of(key@, nonce@, p),
        r matches Some(s) ==> forall|p: Seq<char>|
            ct@ == cipher_of(key@, nonce@, p) ==> s@ == p,
        r matches Some(s) ==> ct@ == cipher_of(key@, nonce@, s@),
{
    let cipher = match aes_gcm::Aes256Gcm::new_from_slice(key.as_slice()) {
        Ok(c) => c,
        Err(_) => return None,
    };
    let nonce_arr = aes_gcm::Nonce::from_slice(nonce);
    match cipher.decrypt(nonce_arr, ct) {
        Ok(pt) => String::from_utf8(pt).ok(),
        Err(_) => None,
    }
}

/// A well-formed vault blob for a key and list: 12 nonce bytes, then the
/// ciphertext of the list's canonical JSON form under that nonce.
pub open spec fn blob_encrypts(key: Seq<u8>, blob: Seq<u8>, l: Seq<ConnView>) -> bool {
    blob.len() > 12 && blob.subrange(12, blob.len() as int) == cipher_of(
        key,
        blob.subrange(0, 12),
        json_of(l),
    )
}

/// A valid vault key: exactly 32 bytes.
pub open spec fn valid_key(key: Seq<u8>) -> bool {
    key.len() == 32
}

/// The vault key to use, given whatever the key file held: a 32-byte file
/// is the key; anything else is replaced by 32 fresh random bytes.
pub fn ensure_key(existing: Option<Vec<u8>>) -> (r: Vec<u8>)
    ensures
        valid_key(r@),
        match existing {
            Some(k) => k@.len() == 32 ==> r@ == k@,
            None => true,
        },
{
    match existing {
        Some(k) => {
            if k.len() == 32 {
                k
            } else {
                random_bytes(32)
            }
        },
        None => random_bytes(32),
    }
}

/// AEAD-encrypt the connection list under the key with a fresh random
/// 12-byte nonce, yielding the blob `nonce || ciphertext`.  Every call
/// draws a new nonce, so equal lists still produce distinct blobs with
/// overwhelming probability; nothing of the nonce is promised here beyond
/// its length.
pub fn encrypt_blob(key: &Vec<u8>, conns: &Vec<DbConnection>) -> (r: Option<Vec<u8>>)
    requires
        valid_key(key@),
    ensures
        r matches Some(b) ==> blob_encrypts(key@, b@, conns_view(conns@)),
        r matches Some(b) ==> b@.len() == 12 + vstd::utf8::encode_utf8(
            json_of(conns_view(conns@)),
        ).len() + 16,
        json_of(conns_view(conns@)).len() <= 0x100000000 ==> r is Some,
{
    let json = encode_connections(conns);
    let nonce = random_bytes(12);
    match aead_encrypt(key, &nonce, json.as_str()) {
        Some(ct) => {
            let ghost nonce_seq = nonce@;
            let ghost ct_seq = ct@;
            let mut blob = nonce;
            let mut ct_tail = ct;
            blob.append(&mut ct_tail);
            proof {
                assert(blob@.subrange(0, 12) =~= nonce_seq);
                assert(blob@.subrange(12, blob@.len() as int) =~= ct_seq);
            }
            Some(blob)
        },
        None => None,
    }
}

/// Decrypt a vault blob into its connection list.  A genuine blob for
/// some list yields exactly that list; conversely, a non-empty result can
/// only come from a blob that is a genuine encryption of that result
/// under this key and the blob's own nonce, so decryption fails closed: a
/// short, tampered or otherwise undecryptable blob falls back to the
/// empty list, never to a corrupted-but-parsed one.
pub fn decrypt_blob(key: &Vec<u8>, data: &Vec<u8>) -> (r: Vec<DbConnection>)
    requires
        valid_key(key@),
    ensures
        forall|l: Seq<ConnView>|
            blob_encrypts(key@, data@, l) ==> conns_view(r@) == l,
        data@.len() <= 12 ==> r@.len() == 0,
        r@.len() > 0 ==> blob_encrypts(key@, data@, conns_view(r@)),
{
    if data.len() <= 12 {
        return Vec::new();
    }
    let nonce = slice_subrange(data.as_slice(), 0, 12);
    let ct = slice_subrange(data.as_slice(), 12, data.len());
    match aead_decrypt(key, nonce, ct) {
        Some(text) => {
            match parse_connections(text.as_str()) {
                Some(conns) => {
                    proof {
                        assert forall|l: Seq<ConnView>|
                            blob_encrypts(key@, data@, l) implies conns_view(conns@) == l by {
                            assert(ct@ == cipher_of(key@, data@.subrange(0, 12), json_of(l)));
                            lemma_json_round_trip(l);
                        }
                        lemma_sp_top_sound(text@);
                        assert(text@ == json_of(conns_view(conns@)));
                        assert(ct@ == cipher_of(key@, data@.subrange(0, 12), text@));
                        assert(blob_encrypts(key@, data@, conns_view(conns@)));
                    }
                    conns
                },
                None => {
                    proof {
                        assert forall|l: Seq<ConnView>| !blob_encrypts(key@, data@, l) by {
                            if blob_encrypts(key@, data@, l) {
                                assert(ct@ == cipher_of(key@, data@.subrange(0, 12), json_of(l)));
                                lemma_json_round_trip(l);
                            }
                        }
                    }
                    Vec::new()
                },
            }
        },
        None => {
            proof {
                assert forall|l: Seq<ConnView>| !blob_encrypts(key@, data@, l) by {
                    if blob_encrypts(key@, data@, l) {
                        assert(ct@ == cipher_of(key@, data@.subrange(0, 12), json_of(l)));
                    }
                }
            }
            Vec::new()
        },
    }
}

} // verus!
