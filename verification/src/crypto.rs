//! The encrypted database.
//!
//! On disk it is a salt of sixteen bytes, a nonce of twelve, and the serialised
//! items under AES-256-GCM with a key that Argon2id derives from the master
//! password and the salt.
use vstd::prelude::*;
use vstd::string::*;
use vstd::utf8::*;

use crate::mapa::Mapa;
use crate::primitivas::{
    azar_del_sistema, borrar_bytes, borrar_texto, gcm_cifrar, gcm_descifrar, hash_argon2id,
};
use crate::texto::{copia_de_bytes, tramo_de_bytes, unir};

verus! {

/// Length of the salt at the front of the database.
pub const LARGO_SAL: usize = 16;

/// Length of the nonce after the salt.
pub const LARGO_NONCE: usize = 12;

/// Memory for Argon2id, in KiB.
pub const MEMORIA_KIB: u32 = 19456;

/// Passes of Argon2id over that memory.
pub const PASADAS: u32 = 2;

/// Lanes of Argon2id.
pub const CARRILES: u32 = 1;

/// Length of a database key.
pub const LARGO_CLAVE: usize = 32;

/// A stored secret, as the database keeps it.
pub struct SecretItem {
    pub label: String,
    pub attributes: Mapa<String>,
    pub secret: Vec<u8>,
}

/// What a stored secret is.
#[verifier::ext_equal]
pub struct SecretItemVista {
    pub label: Seq<char>,
    pub attributes: Map<Seq<char>, Seq<char>>,
    pub secret: Seq<u8>,
}

impl View for SecretItem {
    type V = SecretItemVista;

    open spec fn view(&self) -> SecretItemVista {
        SecretItemVista {
            label: self.label@,
            attributes: self.attributes@,
            secret: self.secret@,
        }
    }
}

impl SecretItem {
    /// Wipes the secret, the label and the attributes.
    pub fn zeroize(&mut self)
        ensures
            final(self).label@ == Seq::<char>::empty(),
            final(self).attributes@ == Map::<Seq<char>, Seq<char>>::empty(),
            final(self).secret@ == Seq::<u8>::empty(),
        opens_invariants none
        no_unwind
    {
        borrar_bytes(&mut self.secret);
        borrar_texto(&mut self.label);
        self.attributes.zeroize();
    }
}

/// How a text is shown to whoever debugs: quoted, with what cannot be printed
/// escaped.
pub uninterp spec fn entre_comillas(s: Seq<char>) -> Seq<char>;

/// `format!` with `{:?}`, the `Debug` of `str`: the same text is always shown the
/// same way. Which escapes it writes has a name and no more.
#[verifier::external_body]
fn citar(s: &str) -> (r: String)
    ensures
        r@ == entre_comillas(s@),
{
    format!("{:?}", s)
}

/// How attributes are shown, walked in the order given.
pub open spec fn atributos_impresos(claves: Seq<Seq<char>>, m: Map<Seq<char>, Seq<char>>) -> Seq<char>
    decreases claves.len(),
{
    if claves.len() == 0 {
        Seq::empty()
    } else {
        let k = claves.last();
        let par = entre_comillas(k) + ": "@ + entre_comillas(m[k]);
        if claves.len() == 1 {
            par
        } else {
            atributos_impresos(claves.drop_last(), m) + ", "@ + par
        }
    }
}

/// How an item is shown. The secret does not go into it: what is printed does
/// not depend on it in any way.
pub open spec fn item_impreso(
    label: Seq<char>,
    claves: Seq<Seq<char>>,
    attributes: Map<Seq<char>, Seq<char>>,
) -> Seq<char> {
    "SecretItem { label: "@ + entre_comillas(label) + ", attributes: {"@ + atributos_impresos(
        claves,
        attributes,
    ) + "}, secret: \"<oculto>\" }"@
}

/// How the items of a database are shown.
pub open spec fn items_impresos(items: Seq<SecretItem>) -> Seq<char>
    decreases items.len(),
{
    if items.len() == 0 {
        Seq::empty()
    } else {
        let i = items.last();
        let impreso = item_impreso(i.label@, i.attributes.orden(), i.attributes@);
        if items.len() == 1 {
            impreso
        } else {
            items_impresos(items.drop_last()) + ", "@ + impreso
        }
    }
}

/// Two databases whose items differ in their secrets alone are shown alike.
pub proof fn lo_impreso_no_depende_de_los_secretos(a: Seq<SecretItem>, b: Seq<SecretItem>)
    requires
        a.len() == b.len(),
        forall|i: int|
            0 <= i < a.len() ==> (#[trigger] a[i]).label@ == b[i].label@ && a[i].attributes@ == b[i].attributes@
                && a[i].attributes.orden() == b[i].attributes.orden(),
    ensures
        items_impresos(a) == items_impresos(b),
    decreases a.len(),
{
    if a.len() > 0 {
        assert(a.last() == a[a.len() - 1]);
        assert forall|i: int| 0 <= i < a.drop_last().len() implies (#[trigger] a.drop_last()[i]).label@
            == b.drop_last()[i].label@ && a.drop_last()[i].attributes@ == b.drop_last()[i].attributes@
            && a.drop_last()[i].attributes.orden() == b.drop_last()[i].attributes.orden() by {
            assert(a.drop_last()[i] == a[i]);
        }
        lo_impreso_no_depende_de_los_secretos(a.drop_last(), b.drop_last());
    }
}

impl SecretItem {
    /// The item for whoever debugs: its label and its attributes, and never its
    /// secret.
    pub fn depurado(&self) -> (r: String)
        ensures
            r@ == item_impreso(self.label@, self.attributes.orden(), self.attributes@),
    {
        let mut s: String = "SecretItem { label: ".to_owned();
        s.append(citar(self.label.as_str()).as_str());
        s.append(", attributes: {");
        let n: usize = self.attributes.len();
        let ghost antes = s@;
        let ghost orden = self.attributes.orden();
        let mut i: usize = 0;
        proof {
            assert(orden.take(0) =~= Seq::<Seq<char>>::empty());
            assert(s@ =~= antes + atributos_impresos(orden.take(0), self.attributes@));
        }
        while i < n
            invariant
                i <= n,
                n == orden.len(),
                orden == self.attributes.orden(),
                s@ == antes + atributos_impresos(orden.take(i as int), self.attributes@),
            decreases n - i,
        {
            let ghost hasta = s@;
            if i > 0 {
                s.append(", ");
            }
            s.append(citar(self.attributes.clave(i).as_str()).as_str());
            s.append(": ");
            s.append(citar(self.attributes.valor(i).as_str()).as_str());
            i += 1;
            proof {
                let t = orden.take(i as int);
                assert(t.drop_last() =~= orden.take(i - 1));
                assert(t.last() == orden[i - 1]);
                assert(s@ =~= antes + atributos_impresos(t, self.attributes@));
            }
        }
        assert(orden.take(n as int) =~= orden);
        s.append("}, secret: \"<oculto>\" }");
        s
    }
}

impl Clone for SecretItem {
    fn clone(&self) -> (r: SecretItem)
        ensures
            r@ == self@,
    {
        SecretItem {
            label: self.label.clone(),
            attributes: self.attributes.clone(),
            secret: copia_de_bytes(self.secret.as_slice()),
        }
    }
}

impl Drop for SecretItem {
    fn drop(&mut self)
        opens_invariants none
        no_unwind
    {
        self.zeroize();
    }
}

/// The items of the database, in order. Dropping it drops every item, and each
/// item wipes itself.
pub struct KeyringDatabase {
    pub items: Vec<SecretItem>,
}

impl View for KeyringDatabase {
    type V = Seq<SecretItemVista>;

    open spec fn view(&self) -> Seq<SecretItemVista> {
        self.items@.map_values(|i: SecretItem| i@)
    }
}

impl KeyringDatabase {
    /// Wipes every item and leaves the database without any.
    pub fn zeroize(&mut self)
        ensures
            final(self)@ == Seq::<SecretItemVista>::empty(),
    {
        while self.items.len() > 0
            decreases self.items.len(),
        {
            if let Some(mut item) = self.items.pop() {
                item.zeroize();
            }
        }
        assert(self@ =~= Seq::<SecretItemVista>::empty());
    }
}

impl KeyringDatabase {
    /// The database for whoever debugs, without any of its secrets.
    pub fn depurada(&self) -> (r: String)
        ensures
            r@ == "KeyringDatabase { items: ["@ + items_impresos(self.items@) + "] }"@,
    {
        let mut s: String = "KeyringDatabase { items: [".to_owned();
        let ghost antes = s@;
        let mut i: usize = 0;
        proof {
            assert(self.items@.take(0) =~= Seq::<SecretItem>::empty());
            assert(s@ =~= antes + items_impresos(self.items@.take(0)));
        }
        while i < self.items.len()
            invariant
                i <= self.items@.len(),
                s@ == antes + items_impresos(self.items@.take(i as int)),
            decreases self.items.len() - i,
        {
            if i > 0 {
                s.append(", ");
            }
            s.append(self.items[i].depurado().as_str());
            i += 1;
            proof {
                let t = self.items@.take(i as int);
                assert(t.drop_last() =~= self.items@.take(i - 1));
                assert(t.last() == self.items@[i - 1]);
                assert(s@ =~= antes + items_impresos(t));
            }
        }
        assert(self.items@.take(self.items@.len() as int) =~= self.items@);
        s.append("] }");
        s
    }
}

/// A list of bytes or a text of error, as contracts speak of it.
pub open spec fn vista(r: Result<Vec<u8>, String>) -> Result<Seq<u8>, Seq<char>> {
    match r {
        Ok(v) => Ok(v@),
        Err(e) => Err(e@),
    }
}

/// The database key for a password and a salt, or why there is none.
pub open spec fn clave_de(password: Seq<char>, sal: Seq<u8>) -> Result<Seq<u8>, Seq<char>> {
    match crate::primitivas::rechazo_de_argon2(encode_utf8(password), sal) {
        Some(motivo) => Err("Key derivation failed: "@ + motivo),
        None => Ok(
            crate::primitivas::argon2id(
                encode_utf8(password),
                sal,
                MEMORIA_KIB,
                PASADAS,
                CARRILES,
                LARGO_CLAVE,
            ),
        ),
    }
}

/// Derives the database key from the master password.
pub fn derive_key(password: &str, salt: &[u8]) -> (r: Result<Vec<u8>, String>)
    ensures
        vista(r) == clave_de(password@, salt@),
        r matches Ok(k) ==> k@.len() == LARGO_CLAVE,
{
    match hash_argon2id(password.as_bytes(), salt, MEMORIA_KIB, PASADAS, CARRILES, LARGO_CLAVE) {
        Ok(k) => Ok(k),
        Err(e) => Err(unir("Key derivation failed: ", e.as_str())),
    }
}

/// The database for a plaintext, a password, a salt and a nonce, or why there
/// is none.
pub open spec fn cifrada(
    texto: Seq<u8>,
    password: Seq<char>,
    sal: Seq<u8>,
    nonce: Seq<u8>,
) -> Result<Seq<u8>, Seq<char>> {
    match clave_de(password, sal) {
        Err(e) => Err(e),
        Ok(clave) => if texto.len() > 0x10_0000_0000 {
            Err("Encryption failed"@)
        } else {
            Ok(sal + nonce + crate::primitivas::gcm_sellado(clave, nonce, texto))
        },
    }
}

/// What a password gives back of a database, or why it gives nothing.
pub open spec fn descifrada(datos: Seq<u8>, password: Seq<char>) -> Result<Seq<u8>, Seq<char>> {
    if datos.len() < 28 {
        Err("Invalid encrypted data: too short"@)
    } else {
        match clave_de(password, datos.subrange(0, 16)) {
            Err(e) => Err(e),
            Ok(clave) => match crate::primitivas::gcm_abierto(
                clave,
                datos.subrange(16, 28),
                datos.subrange(28, datos.len() as int),
            ) {
                Some(texto) => Ok(texto),
                None => Err("Decryption failed: wrong password or corrupted data"@),
            },
        }
    }
}

/// Encrypts a serialised database with the salt and the nonce given. What comes
/// out opens to the plaintext with the same password, and is longer than it by
/// the salt, the nonce and the tag.
pub fn encrypt_database_with(
    plaintext: &[u8],
    master_password: &str,
    salt: &[u8],
    nonce: &[u8],
) -> (r: Result<Vec<u8>, String>)
    requires
        salt@.len() == LARGO_SAL,
        nonce@.len() == LARGO_NONCE,
        plaintext@.len() + 16 <= isize::MAX,
    ensures
        vista(r) == cifrada(plaintext@, master_password@, salt@, nonce@),
        r matches Ok(d) ==> descifrada(d@, master_password@) == Ok::<Seq<u8>, Seq<char>>(plaintext@),
        r matches Ok(d) ==> d@.len() == plaintext@.len() + 44,
{
    let mut key: Vec<u8> = match derive_key(master_password, salt) {
        Ok(k) => k,
        Err(e) => {
            return Err(e);
        },
    };
    let sellado: Option<Vec<u8>> = gcm_cifrar(key.as_slice(), nonce, plaintext);
    borrar_bytes(&mut key);
    match sellado {
        Some(ciphertext) => {
            let mut output: Vec<u8> = Vec::new();
            output.extend_from_slice(salt);
            output.extend_from_slice(nonce);
            output.extend_from_slice(ciphertext.as_slice());
            proof {
                assert(output@ =~= salt@ + nonce@ + ciphertext@);
                assert(output@.subrange(0, 16) =~= salt@);
                assert(output@.subrange(16, 28) =~= nonce@);
                assert(output@.subrange(28, output@.len() as int) =~= ciphertext@);
            }
            Ok(output)
        },
        None => Err("Encryption failed".to_owned()),
    }
}

/// Encrypts a serialised database with a fresh salt and a fresh nonce. It fails
/// only on a password that Argon2id refuses or a plaintext too long for the
/// cipher, and what comes out opens to the plaintext with the same password.
pub fn encrypt_database(plaintext: &[u8], master_password: &str) -> (r: Result<Vec<u8>, String>)
    requires
        plaintext@.len() + 16 <= isize::MAX,
    ensures
        exists|sal: Seq<u8>, nonce: Seq<u8>|
            sal.len() == LARGO_SAL && nonce.len() == LARGO_NONCE && vista(r) == #[trigger] cifrada(
                plaintext@,
                master_password@,
                sal,
                nonce,
            ),
        r is Ok <==> encode_utf8(master_password@).len() <= 0xFFFF_FFFF && plaintext@.len()
            <= 0x10_0000_0000,
        r matches Ok(d) ==> descifrada(d@, master_password@) == Ok::<Seq<u8>, Seq<char>>(plaintext@),
        r matches Ok(d) ==> d@.len() == plaintext@.len() + 44,
{
    let salt: Vec<u8> = azar_del_sistema(LARGO_SAL);
    let nonce: Vec<u8> = azar_del_sistema(LARGO_NONCE);
    encrypt_database_with(plaintext, master_password, salt.as_slice(), nonce.as_slice())
}

/// Opens an encrypted database, giving back the serialised items.
pub fn decrypt_database(encrypted_data: &[u8], master_password: &str) -> (r: Result<Vec<u8>, String>)
    ensures
        vista(r) == descifrada(encrypted_data@, master_password@),
{
    if encrypted_data.len() < 28 {
        return Err("Invalid encrypted data: too short".to_owned());
    }
    let salt: Vec<u8> = tramo_de_bytes(encrypted_data, 0, 16);
    let nonce: Vec<u8> = tramo_de_bytes(encrypted_data, 16, 28);
    let ciphertext: Vec<u8> = tramo_de_bytes(encrypted_data, 28, encrypted_data.len());
    let mut key: Vec<u8> = match derive_key(master_password, salt.as_slice()) {
        Ok(k) => k,
        Err(e) => {
            return Err(e);
        },
    };
    let abierto: Option<Vec<u8>> = gcm_descifrar(key.as_slice(), nonce.as_slice(), ciphertext.as_slice());
    borrar_bytes(&mut key);
    match abierto {
        Some(texto) => Ok(texto),
        None => Err("Decryption failed: wrong password or corrupted data".to_owned()),
    }
}

/// The file of a database is the salt, the nonce and the ciphertext, in that
/// order, under the key that Argon2id gives for the password and that salt.
pub proof fn la_base_lleva_con_que_abrirse(
    texto: Seq<u8>,
    password: Seq<char>,
    sal: Seq<u8>,
    nonce: Seq<u8>,
)
    requires
        sal.len() == 16,
        nonce.len() == 12,
    ensures
        cifrada(texto, password, sal, nonce) is Ok <==> encode_utf8(password).len() <= 0xFFFF_FFFF && texto.len()
            <= 0x10_0000_0000,
        cifrada(texto, password, sal, nonce) matches Ok(d) ==> {
            let clave = crate::primitivas::argon2id(encode_utf8(password), sal, 19456, 2, 1, 32);
            &&& d.len() >= 28
            &&& d.take(16) == sal
            &&& d.subrange(16, 28) == nonce
            &&& d.skip(28) == crate::primitivas::gcm_sellado(clave, nonce, texto)
        },
{
    if let Ok(d) = cifrada(texto, password, sal, nonce) {
        let c = crate::primitivas::gcm_sellado(
            crate::primitivas::argon2id(encode_utf8(password), sal, 19456, 2, 1, 32),
            nonce,
            texto,
        );
        assert(d =~= sal + nonce + c);
        assert(d.take(16) =~= sal);
        assert(d.subrange(16, 28) =~= nonce);
        assert(d.skip(28) =~= c);
    }
}

/// A database opens to a text exactly where the cipher opens its ciphertext to
/// that text, with its nonce and the key for the password and its salt. What is
/// too short to hold a salt and a nonce never opens.
pub proof fn una_base_se_abre_con_lo_que_lleva(datos: Seq<u8>, password: Seq<char>, texto: Seq<u8>)
    ensures
        datos.len() < 28 ==> descifrada(datos, password) is Err,
        datos.len() >= 28 ==> (descifrada(datos, password) == Ok::<Seq<u8>, Seq<char>>(texto) <==> encode_utf8(
            password,
        ).len() <= 0xFFFF_FFFF && crate::primitivas::gcm_abierto(
            crate::primitivas::argon2id(encode_utf8(password), datos.take(16), 19456, 2, 1, 32),
            datos.subrange(16, 28),
            datos.skip(28),
        ) == Some(texto)),
{
    if datos.len() >= 28 {
        assert(datos.subrange(0, 16) =~= datos.take(16));
        assert(datos.subrange(28, datos.len() as int) =~= datos.skip(28));
    }
}

} // verus!
