//! Transport encryption for Secret Service sessions.
//!
//! The algorithm is `dh-ietf1024-sha256-aes128-cbc-pkcs7`, which is what clients
//! ask for. Both peers have to derive the same key: one that derives a different
//! one sees corrupt secrets, with no error to point at the cause.
use vstd::arithmetic::power;
use vstd::prelude::*;
use vstd::string::*;

use crate::primitivas::{
    azar_del_sistema, cbc_cifrar, cbc_descifrar, expandir_hkdf, menor, potencia_modular, resta,
};
use crate::texto::{copia_de_bytes, en_decimal, unir, unir3};

verus! {

/// The algorithm name that clients send.
pub const DH_ALGORITHM: &'static str = "dh-ietf1024-sha256-aes128-cbc-pkcs7";

/// The algorithm of a session that does not encrypt.
pub const PLAIN_ALGORITHM: &'static str = "plain";

/// RFC 2409, section 6.2: the second Oakley group, a 1024-bit safe prime.
pub const DH_PRIME: [u8; 128] = [
    0xFF, 0xFF, 0xFF, 0xFF, 0xFF, 0xFF, 0xFF, 0xFF, 0xC9, 0x0F, 0xDA, 0xA2, 0x21, 0x68, 0xC2, 0x34,
    0xC4, 0xC6, 0x62, 0x8B, 0x80, 0xDC, 0x1C, 0xD1, 0x29, 0x02, 0x4E, 0x08, 0x8A, 0x67, 0xCC, 0x74,
    0x02, 0x0B, 0xBE, 0xA6, 0x3B, 0x13, 0x9B, 0x22, 0x51, 0x4A, 0x08, 0x79, 0x8E, 0x34, 0x04, 0xDD,
    0xEF, 0x95, 0x19, 0xB3, 0xCD, 0x3A, 0x43, 0x1B, 0x30, 0x2B, 0x0A, 0x6D, 0xF2, 0x5F, 0x14, 0x37,
    0x4F, 0xE1, 0x35, 0x6D, 0x6D, 0x51, 0xC2, 0x45, 0xE4, 0x85, 0xB5, 0x76, 0x62, 0x5E, 0x7E, 0xC6,
    0xF4, 0x4C, 0x42, 0xE9, 0xA6, 0x37, 0xED, 0x6B, 0x0B, 0xFF, 0x5C, 0xB6, 0xF4, 0x06, 0xB7, 0xED,
    0xEE, 0x38, 0x6B, 0xFB, 0x5A, 0x89, 0x9F, 0xA5, 0xAE, 0x9F, 0x24, 0x11, 0x7C, 0x4B, 0x1F, 0xE6,
    0x49, 0x28, 0x66, 0x51, 0xEC, 0xE6, 0x53, 0x81, 0xFF, 0xFF, 0xFF, 0xFF, 0xFF, 0xFF, 0xFF, 0xFF,
];

/// The generator of the group.
pub const DH_GENERATOR: u8 = 2;

/// Size of the modulus, and therefore of the shared secret once padded.
pub const DH_BYTES: usize = 128;

/// Size of a transport key.
pub const AES_KEY_BYTES: usize = 16;

/// Size of a cipher block, and of an IV.
pub const AES_BLOCK_BYTES: usize = 16;

/// A negotiated session key, plus the public value to hand back to the client.
pub struct DhSession {
    pub server_public: Vec<u8>,
    pub session_key: Vec<u8>,
}

/// The modulus, as a number.
pub open spec fn primo() -> nat {
    crate::primitivas::be(DH_PRIME@)
}

/// A number on a fixed count of bytes, most significant byte first.
pub open spec fn en_bytes(n: nat, largo: nat) -> Seq<u8>
    decreases largo,
{
    if largo == 0 {
        Seq::empty()
    } else {
        en_bytes(n / 256, (largo - 1) as nat).push((n % 256) as u8)
    }
}

/// A power in the group.
pub open spec fn potencia(base: nat, exponente: nat) -> nat {
    (power::pow(base as int, exponente) % primo() as int) as nat
}

/// The transport key that a shared secret gives: HKDF-SHA256 of the secret on
/// the width of the modulus, with no salt and no info, on sixteen bytes.
pub open spec fn clave_de_sesion(compartido: nat) -> Seq<u8> {
    crate::primitivas::hkdf_sha256(en_bytes(compartido, DH_BYTES as nat), Seq::empty(), AES_KEY_BYTES)
}

/// A public value that does not let its sender fix the shared secret.
pub open spec fn publico_admisible(n: nat) -> bool {
    1 < n && n < primo() - 1
}

proof fn el_primo_es_grande()
    ensures
        primo() > 255,
        primo() < power::pow(256, 128),
{
    let p = DH_PRIME@;
    assert(p.len() == 128);
    assert(p[127] == 0xFF);
    assert(p[126] == 0xFF);
    assert(crate::primitivas::be(p.drop_last()) >= 0xFF) by {
        assert(p.drop_last().last() == 0xFF);
    }
    cota_de_be(p);
}

/// A list of bytes writes a number below 256 to its length.
proof fn cota_de_be(b: Seq<u8>)
    ensures
        crate::primitivas::be(b) < power::pow(256, b.len()),
    decreases b.len(),
{
    reveal(power::pow);
    if b.len() > 0 {
        cota_de_be(b.drop_last());
        assert(power::pow(256, b.len()) == 256 * power::pow(256, (b.len() - 1) as nat));
    }
}

/// A list of bytes that does not start with zero writes a number that needs all
/// of them.
proof fn piso_de_be(b: Seq<u8>)
    requires
        b.len() > 0,
        b[0] != 0,
    ensures
        crate::primitivas::be(b) >= power::pow(256, (b.len() - 1) as nat),
    decreases b.len(),
{
    reveal(power::pow);
    if b.len() > 1 {
        piso_de_be(b.drop_last());
        assert(power::pow(256, (b.len() - 1) as nat) == 256 * power::pow(256, (b.len() - 2) as nat));
    } else {
        assert(b.drop_last().len() == 0);
        assert(power::pow(256, 0) == 1);
    }
}

/// Zeros in front do not change the number.
proof fn ceros_delante(n: nat, b: Seq<u8>)
    ensures
        crate::primitivas::be(Seq::new(n, |i: int| 0u8) + b) == crate::primitivas::be(b),
    decreases n, b.len(),
{
    let s = Seq::new(n, |i: int| 0u8) + b;
    if b.len() > 0 {
        assert(s.drop_last() =~= Seq::new(n, |i: int| 0u8) + b.drop_last());
        ceros_delante(n, b.drop_last());
    } else if n > 0 {
        assert(s.drop_last() =~= Seq::new((n - 1) as nat, |i: int| 0u8) + b);
        ceros_delante((n - 1) as nat, b);
    }
}

/// A list of bytes is its number on its length.
proof fn be_y_vuelta(b: Seq<u8>)
    ensures
        b == en_bytes(crate::primitivas::be(b), b.len()),
    decreases b.len(),
{
    if b.len() > 0 {
        be_y_vuelta(b.drop_last());
        assert(crate::primitivas::be(b) / 256 == crate::primitivas::be(b.drop_last()));
        assert(crate::primitivas::be(b) % 256 == b.last());
        assert(b =~= b.drop_last().push(b.last()));
    }
}

/// A number on a fixed count of bytes has that length, and is the number where
/// the bytes are enough.
proof fn en_bytes_y_vuelta(n: nat, largo: nat)
    ensures
        en_bytes(n, largo).len() == largo,
        n < power::pow(256, largo) ==> crate::primitivas::be(en_bytes(n, largo)) == n,
    decreases largo,
{
    reveal(power::pow);
    if largo > 0 {
        en_bytes_y_vuelta(n / 256, (largo - 1) as nat);
        assert(en_bytes(n, largo).drop_last() =~= en_bytes(n / 256, (largo - 1) as nat));
        assert(power::pow(256, largo) == 256 * power::pow(256, (largo - 1) as nat));
        if n < power::pow(256, largo) {
            assert(n / 256 < power::pow(256, (largo - 1) as nat));
        }
    }
}

/// A value with as many zeros in front as it lacks to the size of the modulus.
pub open spec fn rellenado(value: Seq<u8>) -> Seq<u8> {
    Seq::new(
        (if value.len() < DH_BYTES {
            DH_BYTES - value.len()
        } else {
            0
        }) as nat,
        |i: int| 0u8,
    ) + value
}

/// Left-pads to the modulus size.
pub fn pad_to_modulus(value: &[u8]) -> (r: Vec<u8>)
    ensures
        r@ == rellenado(value@),
        crate::primitivas::be(r@) == crate::primitivas::be(value@),
        value@.len() <= DH_BYTES ==> r@ == en_bytes(crate::primitivas::be(value@), DH_BYTES as nat),
{
    let faltan: usize = if value.len() < DH_BYTES {
        DH_BYTES - value.len()
    } else {
        0
    };
    let mut padded: Vec<u8> = Vec::new();
    let mut i: usize = 0;
    while i < faltan
        invariant
            i <= faltan,
            padded@ == Seq::new(i as nat, |j: int| 0u8),
        decreases faltan - i,
    {
        padded.push(0);
        i += 1;
        assert(padded@ =~= Seq::new(i as nat, |j: int| 0u8));
    }
    padded.extend_from_slice(value);
    proof {
        assert(padded@ =~= Seq::new(faltan as nat, |j: int| 0u8) + value@);
        ceros_delante(faltan as nat, value@);
        be_y_vuelta(padded@);
    }
    padded
}

/// Derives the transport key from a shared secret written most significant byte
/// first.
pub fn derive_key(shared: &[u8]) -> (r: Vec<u8>)
    ensures
        r@.len() == AES_KEY_BYTES,
        r@ == crate::primitivas::hkdf_sha256(rellenado(shared@), Seq::empty(), AES_KEY_BYTES),
        shared@.len() <= DH_BYTES ==> r@ == clave_de_sesion(crate::primitivas::be(shared@)),
{
    let material: Vec<u8> = pad_to_modulus(shared);
    let info: Vec<u8> = Vec::new();
    assert(info@ =~= Seq::<u8>::empty());
    match expandir_hkdf(material.as_slice(), info.as_slice(), AES_KEY_BYTES) {
        Some(key) => key,
        None => Vec::new(),
    }
}

/// The outcome of a negotiation: what goes to the client, and the key.
pub open spec fn negociado(cliente: nat, privado: nat, d: DhSession) -> bool {
    &&& d.server_public@ == en_bytes(potencia(DH_GENERATOR as nat, privado), DH_BYTES as nat)
    &&& d.session_key@ == clave_de_sesion(potencia(cliente, privado))
}

/// Completes the exchange against a client's public value, with the private
/// value given.
///
/// The values that would let the client predict the shared secret (zero, one,
/// and the modulus less one) are refused, and so is everything above.
pub fn negotiate_with(client_public: &[u8], private: &[u8]) -> (r: Result<DhSession, String>)
    ensures
        match r {
            Ok(d) => publico_admisible(crate::primitivas::be(client_public@)) && negociado(
                crate::primitivas::be(client_public@),
                crate::primitivas::be(private@),
                d,
            ) && d.server_public@.len() == DH_BYTES && d.session_key@.len() == AES_KEY_BYTES,
            Err(e) => !publico_admisible(crate::primitivas::be(client_public@)) && e@
                == "client public value is out of range"@,
        },
{
    let prime: [u8; 128] = DH_PRIME;
    let one: [u8; 1] = [1];
    let generator: [u8; 1] = [DH_GENERATOR];
    proof {
        el_primo_es_grande();
        numero_de_un_byte(one@);
        numero_de_un_byte(generator@);
    }
    let limite: Vec<u8> = resta(&prime, &one);
    if !menor(&one, client_public) || !menor(client_public, limite.as_slice()) {
        return Err("client public value is out of range".to_owned());
    }
    let server_public: Vec<u8> = potencia_modular(&generator, private, &prime);
    let shared: Vec<u8> = potencia_modular(client_public, private, &prime);
    proof {
        cabe_en_el_modulo(server_public@);
        cabe_en_el_modulo(shared@);
        en_bytes_y_vuelta(crate::primitivas::be(server_public@), DH_BYTES as nat);
    }
    Ok(
        DhSession {
            server_public: pad_to_modulus(server_public.as_slice()),
            session_key: derive_key(shared.as_slice()),
        },
    )
}

/// Completes the exchange against a client's public value, with a fresh private
/// value of 32 bytes.
pub fn negotiate(client_public: &[u8]) -> (r: Result<DhSession, String>)
    ensures
        match r {
            Ok(d) => publico_admisible(crate::primitivas::be(client_public@)) && d.server_public@.len() == DH_BYTES
                && d.session_key@.len() == AES_KEY_BYTES && exists|privado: Seq<u8>|
                privado.len() == 32 && #[trigger] negociado(crate::primitivas::be(client_public@), crate::primitivas::be(privado), d),
            Err(e) => !publico_admisible(crate::primitivas::be(client_public@)) && e@
                == "client public value is out of range"@,
        },
{
    let private: Vec<u8> = azar_del_sistema(32);
    negotiate_with(client_public, private.as_slice())
}

proof fn numero_de_un_byte(b: Seq<u8>)
    requires
        b.len() == 1,
    ensures
        crate::primitivas::be(b) == b[0],
{
    assert(b.drop_last().len() == 0);
    assert(crate::primitivas::be(b.drop_last()) == 0);
}

/// A number below the modulus, written without zeros in front, takes no more
/// bytes than the modulus.
proof fn cabe_en_el_modulo(b: Seq<u8>)
    requires
        crate::primitivas::be(b) < primo(),
        b.len() > 1 ==> b[0] != 0,
    ensures
        b.len() <= DH_BYTES,
{
    el_primo_es_grande();
    if b.len() > DH_BYTES {
        piso_de_be(b);
        power::lemma_pow_increases(256, 128, (b.len() - 1) as nat);
        assert(false);
    }
}

/// Both peers derive the same key: the one that the server takes from the
/// client's public value and its own private value is the one that the client
/// takes from the server's public value and its own.
pub proof fn los_dos_lados_derivan_la_misma_clave(cliente: nat, servidor: nat)
    ensures
        clave_de_sesion(potencia(potencia(DH_GENERATOR as nat, cliente), servidor)) == clave_de_sesion(
            potencia(crate::primitivas::be(en_bytes(potencia(DH_GENERATOR as nat, servidor), DH_BYTES as nat)), cliente),
        ),
{
    el_primo_es_grande();
    let g = DH_GENERATOR as int;
    let p = primo() as int;
    let ga = power::pow(g, cliente);
    let gb = power::pow(g, servidor);
    power::lemma_pow_positive(g, cliente);
    power::lemma_pow_positive(g, servidor);
    en_bytes_y_vuelta(potencia(DH_GENERATOR as nat, servidor), DH_BYTES as nat);
    power::lemma_pow_mod_noop(ga, servidor, p);
    power::lemma_pow_mod_noop(gb, cliente, p);
    power::lemma_pow_multiplies(g, cliente, servidor);
    power::lemma_pow_multiplies(g, servidor, cliente);
    assert(cliente * servidor == servidor * cliente) by (nonlinear_arith);
}

/// The public value goes to the client on the width of the modulus, and is read
/// back as the number it is.
pub proof fn el_publico_vuelve(privado: nat)
    ensures
        en_bytes(potencia(DH_GENERATOR as nat, privado), DH_BYTES as nat).len() == 128,
        crate::primitivas::be(en_bytes(potencia(DH_GENERATOR as nat, privado), DH_BYTES as nat)) == potencia(
            2,
            privado,
        ),
        potencia(2, privado) < primo(),
{
    el_primo_es_grande();
    en_bytes_y_vuelta(potencia(DH_GENERATOR as nat, privado), DH_BYTES as nat);
}

/// What is wrong with a transport key of the given length, if anything is.
pub open spec fn clave_mal_medida(largo: nat) -> Option<Seq<char>> {
    if largo == AES_KEY_BYTES {
        None
    } else {
        Some("session key is "@ + crate::texto::decimal(largo) + " bytes, expected 16"@)
    }
}

/// Checks the size of a transport key.
pub fn key_array(session_key: &[u8]) -> (r: Result<Vec<u8>, String>)
    ensures
        match r {
            Ok(k) => clave_mal_medida(session_key@.len()) is None && k@ == session_key@,
            Err(e) => clave_mal_medida(session_key@.len()) == Some(e@),
        },
{
    if session_key.len() != AES_KEY_BYTES {
        let n: String = en_decimal(session_key.len() as u64);
        return Err(unir3("session key is ", n.as_str(), " bytes, expected 16"));
    }
    Ok(copia_de_bytes(session_key))
}

/// Encrypts a secret for transport under the IV given.
pub fn encrypt_with(session_key: &[u8], plaintext: &[u8], iv: &[u8]) -> (r: Result<Vec<u8>, String>)
    requires
        iv@.len() == AES_BLOCK_BYTES,
        plaintext@.len() + 16 <= isize::MAX,
    ensures
        match r {
            Ok(c) => clave_mal_medida(session_key@.len()) is None && c@ == crate::primitivas::cbc_cifrado(
                session_key@,
                iv@,
                plaintext@,
            ) && c@.len() == (plaintext@.len() / 16 + 1) * 16 && descifrado(session_key@, iv@, c@)
                == Ok::<Seq<u8>, Seq<char>>(plaintext@),
            Err(e) => clave_mal_medida(session_key@.len()) == Some(e@),
        },
{
    match key_array(session_key) {
        Ok(key) => Ok(cbc_cifrar(key.as_slice(), iv, plaintext)),
        Err(e) => Err(e),
    }
}

/// Encrypts a secret for transport. Returns the IV, which is fresh, and the
/// ciphertext; the IV travels in the parameters of the secret. It fails only on
/// a key of the wrong size, and what comes out opens to the secret with the
/// same key.
pub fn encrypt(session_key: &[u8], plaintext: &[u8]) -> (r: Result<(Vec<u8>, Vec<u8>), String>)
    requires
        plaintext@.len() + 16 <= isize::MAX,
    ensures
        match r {
            Ok(p) => clave_mal_medida(session_key@.len()) is None && p.0@.len() == AES_BLOCK_BYTES
                && p.1@ == crate::primitivas::cbc_cifrado(session_key@, p.0@, plaintext@) && p.1@.len() == (
            plaintext@.len() / 16 + 1) * 16 && descifrado(session_key@, p.0@, p.1@) == Ok::<
                Seq<u8>,
                Seq<char>,
            >(plaintext@),
            Err(e) => clave_mal_medida(session_key@.len()) == Some(e@),
        },
{
    let iv: Vec<u8> = azar_del_sistema(AES_BLOCK_BYTES);
    match encrypt_with(session_key, plaintext, iv.as_slice()) {
        Ok(ciphertext) => Ok((iv, ciphertext)),
        Err(e) => Err(e),
    }
}

/// What a key and an IV give back of a ciphertext, or why they give nothing.
pub open spec fn descifrado(clave: Seq<u8>, iv: Seq<u8>, cifrado: Seq<u8>) -> Result<
    Seq<u8>,
    Seq<char>,
> {
    match clave_mal_medida(clave.len()) {
        Some(e) => Err(e),
        None => if iv.len() != AES_BLOCK_BYTES {
            Err("expected a 16-byte IV, got "@ + crate::texto::decimal(iv.len()))
        } else {
            match crate::primitivas::cbc_abierto(clave, iv, cifrado) {
                Some(texto) => Ok(texto),
                None => Err("could not decrypt the secret"@),
            }
        },
    }
}

/// Decrypts a secret received from a client, with the IV it sent in the
/// parameters.
pub fn decrypt(session_key: &[u8], iv: &[u8], ciphertext: &[u8]) -> (r: Result<Vec<u8>, String>)
    ensures
        crate::crypto::vista(r) == descifrado(session_key@, iv@, ciphertext@),
        r matches Ok(t) ==> t@.len() < ciphertext@.len(),
{
    let key: Vec<u8> = match key_array(session_key) {
        Ok(k) => k,
        Err(e) => {
            return Err(e);
        },
    };
    if iv.len() != AES_BLOCK_BYTES {
        let n: String = en_decimal(iv.len() as u64);
        return Err(unir("expected a 16-byte IV, got ", n.as_str()));
    }
    match cbc_descifrar(key.as_slice(), iv, ciphertext) {
        Some(texto) => Ok(texto),
        None => Err("could not decrypt the secret".to_owned()),
    }
}

/// The transport key is taken from the shared secret on the whole width of the
/// modulus, zeros in front included, and a secret on that width is read back as
/// the number it is.
pub proof fn la_clave_sale_del_secreto_entero(compartido: nat)
    requires
        compartido < primo(),
    ensures
        clave_de_sesion(compartido) == crate::primitivas::hkdf_sha256(
            en_bytes(compartido, 128),
            Seq::<u8>::empty(),
            16,
        ),
        en_bytes(compartido, 128).len() == 128,
        crate::primitivas::be(en_bytes(compartido, 128)) == compartido,
{
    el_primo_es_grande();
    en_bytes_y_vuelta(compartido, 128);
}

/// The public values that would let a client fix the shared secret are refused,
/// and so is what is not below the modulus; the others are taken.
pub proof fn se_rechazan_los_publicos_triviales(n: nat)
    ensures
        publico_admisible(n) <==> n != 0 && n != 1 && n + 1 != primo() && n < primo(),
{
    el_primo_es_grande();
}

/// A power in the group is the power, reduced by the modulus, so it is below it.
pub proof fn una_potencia_es_del_grupo(base: nat, exponente: nat)
    ensures
        potencia(base, exponente) < primo(),
        potencia(base, exponente) == power::pow(base as int, exponente) % primo() as int,
        primo() == crate::primitivas::be(DH_PRIME@),
{
    el_primo_es_grande();
}

} // verus!
