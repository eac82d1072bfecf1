//! A user of the users table and the check of its password
//! (PBKDF2-HMAC-SHA512, 10000 rounds, 64 bytes).

use sha2::Sha512;
use vstd::prelude::*;
use vstd::utf8::encode_utf8;

verus! {

/// A user of the users table.
#[derive(Debug)]
pub struct UserEntity {
    pub id: String,
    pub email: String,
    pub date_created: String,
    pub is_active: bool,
}

/// The `longitud` bytes that PBKDF2 with HMAC-SHA512 derives from the
/// password and salt in the given number of rounds.
pub uninterp spec fn pbkdf2_hmac_sha512(
    password: Seq<u8>,
    salt: Seq<u8>,
    rondas: u32,
    longitud: nat,
) -> Seq<u8>;

/// Calls `pbkdf2::pbkdf2_hmac::<Sha512>` on a zeroed buffer of `longitud`
/// bytes. Claims: the buffer ends up holding the key named
/// `pbkdf2_hmac_sha512`, of that length. (HMAC accepts keys of any length,
/// so the call does not panic.)
#[verifier::external_body]
fn derivar_pbkdf2_sha512(password: &[u8], salt: &[u8], rondas: u32, longitud: usize) -> (r: Vec<u8>)
    ensures
        r@ == pbkdf2_hmac_sha512(password@, salt@, rondas, longitud as nat),
        r@.len() == longitud,
{
    let mut salida = vec![0u8; longitud];
    pbkdf2::pbkdf2_hmac::<Sha512>(password, salt, rondas, &mut salida);
    salida
}

/// The stored hash is the 64-byte PBKDF2-HMAC-SHA512 key of the UTF-8
/// password and the salt, in 10000 rounds.
pub open spec fn hash_correcto(password: Seq<char>, hash: Seq<u8>, salt: Seq<u8>) -> bool {
    hash == pbkdf2_hmac_sha512(encode_utf8(password), salt, 10000, 64)
}

/// Whether two byte sequences are equal.
fn bytes_iguales(a: &[u8], b: &[u8]) -> (r: bool)
    ensures
        r == (a@ == b@),
{
    if a.len() != b.len() {
        return false;
    }
    let n = a.len();
    for i in 0..n
        invariant
            n == a@.len(),
            n == b@.len(),
            forall|j: int| 0 <= j < i ==> a@[j] == b@[j],
    {
        if a[i] != b[i] {
            return false;
        }
    }
    assert(a@ =~= b@);
    true
}

impl UserEntity {
    /// Whether `password_hash` is the PBKDF2-HMAC-SHA512 key (10000 rounds,
    /// 64 bytes) of the password's UTF-8 bytes with `password_salt`; a hash
    /// that is not 64 bytes long never is.
    pub fn verify_password_hash(password: &str, password_hash: &[u8], password_salt: &[u8]) -> (r:
        bool)
        ensures
            r == hash_correcto(password@, password_hash@, password_salt@),
            password_hash@.len() != 64 ==> !r,
    {
        let output = derivar_pbkdf2_sha512(password.as_bytes(), password_salt, 10000, 64);
        bytes_iguales(output.as_slice(), password_hash)
    }

    /// The id whose stored hash and salt decide the access, when the user
    /// exists and is active; no access otherwise.
    pub fn id_a_verificar(maybe_entity: &Option<UserEntity>) -> (r: Option<String>)
        ensures
            match maybe_entity {
                Some(e) => if e.is_active {
                    r matches Some(id) && id@ == e.id@
                } else {
                    r is None
                },
                None => r is None,
            },
    {
        match maybe_entity {
            Some(e) => if e.is_active {
                Some(e.id.clone())
            } else {
                None
            },
            None => None,
        }
    }

    /// The access of a user given its stored (hash, salt), if its row was
    /// found: granted exactly when the password matches the hash.
    pub fn acceso_con_fila(fila: &Option<(Vec<u8>, Vec<u8>)>, password: &str) -> (r: bool)
        ensures
            match fila {
                Some((hash, salt)) => r == hash_correcto(password@, hash@, salt@),
                None => !r,
            },
    {
        match fila {
            Some((hash, salt)) => UserEntity::verify_password_hash(
                password,
                hash.as_slice(),
                salt.as_slice(),
            ),
            None => false,
        }
    }
}

} // verus!
