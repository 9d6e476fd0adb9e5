//! The cryptographic calls that the rest of the library is built on.
//!
//! Each function here makes one call into an outside crate. What the ciphers
//! and hashes compute is given a name; what the library needs to know of those
//! names stands in the contract of the function that makes the call.
use vstd::prelude::*;

verus! {

/// The Argon2id hash (version 0x13) of a password: memory in KiB, passes,
/// lanes, and the length of the output.
pub uninterp spec fn argon2id(
    password: Seq<u8>,
    sal: Seq<u8>,
    memoria: u32,
    pasadas: u32,
    carriles: u32,
    largo: usize,
) -> Seq<u8>;

/// Why Argon2id refuses a password and a salt, when it does.
pub open spec fn rechazo_de_argon2(password: Seq<u8>, sal: Seq<u8>) -> Option<Seq<char>> {
    if password.len() > 0xFFFF_FFFF {
        Some("password is too long"@)
    } else if sal.len() < 8 {
        Some("salt is too short"@)
    } else if sal.len() > 0xFFFF_FFFF {
        Some("salt is too long"@)
    } else {
        None
    }
}

/// `argon2::Argon2::hash_password_into`, with the algorithm Argon2id, the
/// version 0x13 and the parameters given. It refuses a password of over
/// 0xFFFFFFFF bytes and a salt under 8 or over 0xFFFFFFFF bytes, with the text
/// of the error; otherwise it fills the output. The parameters asked for are
/// those that `argon2::Params::new` accepts, with no more memory than can be
/// reserved on any machine.
#[verifier::external_body]
pub(crate) fn hash_argon2id(
    password: &[u8],
    sal: &[u8],
    memoria: u32,
    pasadas: u32,
    carriles: u32,
    largo: usize,
) -> (r: Result<Vec<u8>, String>)
    requires
        8 <= memoria < 0x20_0000,
        8 * carriles <= memoria,
        1 <= pasadas,
        1 <= carriles,
        4 <= largo <= 0xFFFF,
    ensures
        match r {
            Ok(v) => rechazo_de_argon2(password@, sal@) is None && v@.len() == largo && v@ == argon2id(
                password@,
                sal@,
                memoria,
                pasadas,
                carriles,
                largo,
            ),
            Err(e) => rechazo_de_argon2(password@, sal@) == Some(e@),
        },
{
    let parametros = argon2::Params::new(memoria, pasadas, carriles, Some(largo)).map_err(|e| e.to_string())?;
    let argon = argon2::Argon2::new(argon2::Algorithm::Argon2id, argon2::Version::V0x13, parametros);
    let mut salida = vec![0u8; largo];
    argon.hash_password_into(password, sal, &mut salida).map_err(|e| e.to_string())?;
    Ok(salida)
}

/// What AES-256-GCM makes of a plaintext: the ciphertext followed by the tag.
pub uninterp spec fn gcm_sellado(clave: Seq<u8>, nonce: Seq<u8>, texto: Seq<u8>) -> Seq<u8>;

/// What AES-256-GCM gives back of a ciphertext with its tag, or nothing when the
/// tag does not verify.
pub uninterp spec fn gcm_abierto(clave: Seq<u8>, nonce: Seq<u8>, cifrado: Seq<u8>) -> Option<Seq<u8>>;

/// `Aead::encrypt` of `aes_gcm::Aes256Gcm`, with no associated data. It fails
/// only on a plaintext of over 2^36 bytes. The result is sixteen bytes longer
/// than the plaintext, and opens to it with the same key and nonce. A plaintext
/// for whose result no list is long enough is left out.
#[verifier::external_body]
pub(crate) fn gcm_cifrar(clave: &[u8], nonce: &[u8], texto: &[u8]) -> (r: Option<Vec<u8>>)
    requires
        clave@.len() == 32,
        nonce@.len() == 12,
        texto@.len() + 16 <= isize::MAX,
    ensures
        match r {
            Some(c) => texto@.len() <= 0x10_0000_0000 && c@ == gcm_sellado(clave@, nonce@, texto@)
                && c@.len() == texto@.len() + 16 && gcm_abierto(clave@, nonce@, c@) == Some(texto@),
            None => texto@.len() > 0x10_0000_0000,
        },
{
    let cifra = <aes_gcm::Aes256Gcm as aes_gcm::KeyInit>::new(aes_gcm::Key::<aes_gcm::Aes256Gcm>::from_slice(clave));
    aes_gcm::aead::Aead::encrypt(&cifra, aes_gcm::Nonce::from_slice(nonce), texto).ok()
}

/// `Aead::decrypt` of `aes_gcm::Aes256Gcm`, with no associated data. It fails
/// when the tag does not verify; a ciphertext too short to hold a tag never
/// does. What it gives back is sixteen bytes shorter.
#[verifier::external_body]
pub(crate) fn gcm_descifrar(clave: &[u8], nonce: &[u8], cifrado: &[u8]) -> (r: Option<Vec<u8>>)
    requires
        clave@.len() == 32,
        nonce@.len() == 12,
    ensures
        match r {
            Some(t) => gcm_abierto(clave@, nonce@, cifrado@) == Some(t@) && cifrado@.len() == t@.len() + 16,
            None => gcm_abierto(clave@, nonce@, cifrado@) is None,
        },
{
    let cifra = <aes_gcm::Aes256Gcm as aes_gcm::KeyInit>::new(aes_gcm::Key::<aes_gcm::Aes256Gcm>::from_slice(clave));
    aes_gcm::aead::Aead::decrypt(&cifra, aes_gcm::Nonce::from_slice(nonce), cifrado).ok()
}

/// The number that a list of bytes writes, most significant byte first.
pub open spec fn be(b: Seq<u8>) -> nat
    decreases b.len(),
{
    if b.len() == 0 {
        0
    } else {
        be(b.drop_last()) * 256 + b.last() as nat
    }
}

/// `num_bigint::BigUint::modpow`, on numbers written most significant byte
/// first: the power, reduced by the modulus. The result comes as
/// `BigUint::to_bytes_be` writes it: at least one byte, and no zero in front of
/// another byte. A modulus of zero panics, and one is left out with it.
#[verifier::external_body]
pub(crate) fn potencia_modular(base: &[u8], exponente: &[u8], modulo: &[u8]) -> (r: Vec<u8>)
    requires
        be(modulo@) > 1,
    ensures
        be(r@) == vstd::arithmetic::power::pow(be(base@) as int, be(exponente@)) % be(modulo@) as int,
        r@.len() >= 1,
        r@.len() > 1 ==> r@[0] != 0,
{
    let base = num_bigint::BigUint::from_bytes_be(base);
    let exponente = num_bigint::BigUint::from_bytes_be(exponente);
    base.modpow(&exponente, &num_bigint::BigUint::from_bytes_be(modulo)).to_bytes_be()
}

/// The order of `num_bigint::BigUint`, on numbers written most significant byte
/// first.
#[verifier::external_body]
pub(crate) fn menor(a: &[u8], b: &[u8]) -> (r: bool)
    ensures
        r == (be(a@) < be(b@)),
{
    num_bigint::BigUint::from_bytes_be(a) < num_bigint::BigUint::from_bytes_be(b)
}

/// The subtraction of `num_bigint::BigUint`, on numbers written most significant
/// byte first. It panics where the result would be negative.
#[verifier::external_body]
pub(crate) fn resta(a: &[u8], b: &[u8]) -> (r: Vec<u8>)
    requires
        be(b@) <= be(a@),
    ensures
        be(r@) == be(a@) - be(b@),
{
    (num_bigint::BigUint::from_bytes_be(a) - num_bigint::BigUint::from_bytes_be(b)).to_bytes_be()
}

/// What HKDF-SHA256 with no salt expands from a material and an info.
pub uninterp spec fn hkdf_sha256(material: Seq<u8>, info: Seq<u8>, largo: usize) -> Seq<u8>;

/// `hkdf::Hkdf::<sha2::Sha256>::expand` on a key extracted with no salt. It
/// fails only where more than 255 blocks of 32 bytes are asked for.
#[verifier::external_body]
pub(crate) fn expandir_hkdf(material: &[u8], info: &[u8], largo: usize) -> (r: Option<Vec<u8>>)
    requires
        largo <= 0xFFFF,
    ensures
        match r {
            Some(k) => largo <= 8160 && k@.len() == largo && k@ == hkdf_sha256(material@, info@, largo),
            None => largo > 8160,
        },
{
    let mut k = vec![0u8; largo];
    let hkdf = hkdf::Hkdf::<sha2::Sha256>::new(None, material);
    hkdf.expand(info, &mut k).ok().map(|_| k)
}

/// What AES-128-CBC with PKCS#7 padding makes of a plaintext.
pub uninterp spec fn cbc_cifrado(clave: Seq<u8>, iv: Seq<u8>, texto: Seq<u8>) -> Seq<u8>;

/// What AES-128-CBC with PKCS#7 padding gives back of a ciphertext, or nothing
/// when the padding is malformed.
pub uninterp spec fn cbc_abierto(clave: Seq<u8>, iv: Seq<u8>, cifrado: Seq<u8>) -> Option<Seq<u8>>;

/// `BlockEncryptMut::encrypt_padded_vec_mut::<Pkcs7>` of
/// `cbc::Encryptor<aes::Aes128>`. It adds between one byte and a whole block of
/// padding, and what comes out opens to the plaintext with the same key and IV.
/// A plaintext for whose result no list is long enough is left out.
#[verifier::external_body]
pub(crate) fn cbc_cifrar(clave: &[u8], iv: &[u8], texto: &[u8]) -> (r: Vec<u8>)
    requires
        clave@.len() == 16,
        iv@.len() == 16,
        texto@.len() + 16 <= isize::MAX,
    ensures
        r@ == cbc_cifrado(clave@, iv@, texto@),
        r@.len() == (texto@.len() / 16 + 1) * 16,
        cbc_abierto(clave@, iv@, r@) == Some(texto@),
{
    let cifra = <cbc::Encryptor<aes::Aes128> as aes::cipher::KeyIvInit>::new(clave.into(), iv.into());
    aes::cipher::BlockEncryptMut::encrypt_padded_vec_mut::<aes::cipher::block_padding::Pkcs7>(cifra, texto)
}

/// `BlockDecryptMut::decrypt_padded_vec_mut::<Pkcs7>` of
/// `cbc::Decryptor<aes::Aes128>`. It fails on malformed padding, and on a
/// ciphertext that is not made of whole blocks. The padding is taken off, so
/// what comes out is shorter than what went in.
#[verifier::external_body]
pub(crate) fn cbc_descifrar(clave: &[u8], iv: &[u8], cifrado: &[u8]) -> (r: Option<Vec<u8>>)
    requires
        clave@.len() == 16,
        iv@.len() == 16,
    ensures
        match r {
            Some(t) => cbc_abierto(clave@, iv@, cifrado@) == Some(t@) && t@.len() < cifrado@.len()
                && cifrado@.len() % 16 == 0,
            None => cbc_abierto(clave@, iv@, cifrado@) is None,
        },
{
    let cifra = <cbc::Decryptor<aes::Aes128> as aes::cipher::KeyIvInit>::new(clave.into(), iv.into());
    aes::cipher::BlockDecryptMut::decrypt_padded_vec_mut::<aes::cipher::block_padding::Pkcs7>(cifra, cifrado).ok()
}

/// `RngCore::fill_bytes` of `rand::rngs::OsRng`: as many bytes as asked for.
/// Which bytes they are depends on chance, so nothing is said of them. The call
/// panics when the system has no randomness to give.
#[verifier::external_body]
pub(crate) fn azar_del_sistema(n: usize) -> (r: Vec<u8>)
    requires
        n <= 0xFFFF,
    ensures
        r@.len() == n,
{
    let mut v = vec![0u8; n];
    rand::RngCore::fill_bytes(&mut rand::rngs::OsRng, &mut v);
    v
}

/// `RngCore::fill_bytes` of `rand::thread_rng()`: as many bytes as asked for.
/// Which bytes they are depends on chance, so nothing is said of them. The call
/// panics when the system has no randomness to seed the generator with.
#[verifier::external_body]
pub(crate) fn azar_del_hilo(n: usize) -> (r: Vec<u8>)
    requires
        n <= 0xFFFF,
    ensures
        r@.len() == n,
{
    let mut v = vec![0u8; n];
    rand::RngCore::fill_bytes(&mut rand::thread_rng(), &mut v);
    v
}

/// `Zeroize::zeroize` of the `zeroize` crate on bytes: it overwrites them and
/// leaves the list empty, without panicking.
#[verifier::external_body]
pub(crate) fn borrar_bytes(v: &mut Vec<u8>)
    ensures
        final(v)@ == Seq::<u8>::empty(),
    opens_invariants none
    no_unwind
{
    zeroize::Zeroize::zeroize(v)
}

/// `Zeroize::zeroize` of the `zeroize` crate on a text: it overwrites it and
/// leaves it empty, without panicking.
#[verifier::external_body]
pub(crate) fn borrar_texto(s: &mut String)
    ensures
        final(s)@ == Seq::<char>::empty(),
    opens_invariants none
    no_unwind
{
    zeroize::Zeroize::zeroize(s)
}

} // verus!
