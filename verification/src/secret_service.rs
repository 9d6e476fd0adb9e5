//! Talking to the keyring as a client.
//!
//! The passphrase of a key is filed under the attributes that other desktops
//! use, so it is the same item whoever stored it. Each function here takes what
//! the keyring answered and says what comes next.
use vstd::prelude::*;
use vstd::string::*;
use vstd::utf8::*;

use crate::mapa::Mapa;
use crate::primitivas::borrar_bytes;
use crate::secreto::Secreto;
use crate::texto::{copia_de_bytes, igual, texto_utf8, unir};

verus! {

pub const SERVICE: &'static str = "org.freedesktop.secrets";

pub const SERVICE_PATH: &'static str = "/org/freedesktop/secrets";

pub const SERVICE_IFACE: &'static str = "org.freedesktop.Secret.Service";

pub const COLLECTION_IFACE: &'static str = "org.freedesktop.Secret.Collection";

pub const ITEM_IFACE: &'static str = "org.freedesktop.Secret.Item";

pub const PROMPT_IFACE: &'static str = "org.freedesktop.Secret.Prompt";

pub const LOGIN_COLLECTION: &'static str = "/org/freedesktop/secrets/collection/login";

/// The keyring of the session.
pub const DEFAULT_COLLECTION: &'static str = "/org/freedesktop/secrets/aliases/default";

/// How long the dialog of the keyring is waited for, in seconds.
pub const PROMPT_TIMEOUT: u64 = 120;

/// The attributes of the passphrase of a key.
pub open spec fn atributos_de(key_path: Seq<char>) -> Map<Seq<char>, Seq<char>> {
    Map::<Seq<char>, Seq<char>>::empty().insert("unique"@, "ssh-store:"@ + key_path).insert(
        "xdg:schema"@,
        "org.freedesktop.Secret.Generic"@,
    )
}

/// How the passphrase of a key is filed.
pub fn attributes(key_path: &str) -> (m: Mapa<String>)
    ensures
        m@ == atributos_de(key_path@),
{
    let mut m: Mapa<String> = Mapa::new();
    m.insert("unique".to_owned(), unir("ssh-store:", key_path));
    m.insert("xdg:schema".to_owned(), "org.freedesktop.Secret.Generic".to_owned());
    m
}

/// A search for a key finds what was filed for that key, and nothing that was
/// filed for another.
pub proof fn cada_clave_encuentra_lo_suyo(a: Seq<char>, b: Seq<char>)
    ensures
        atributos_de(a).submap_of(atributos_de(b)) ==> a == b,
        atributos_de(a).submap_of(atributos_de(a)),
{
    reveal_strlit("unique");
    reveal_strlit("xdg:schema");
    let x = "ssh-store:"@;
    assert("unique"@.len() != "xdg:schema"@.len());
    assert(atributos_de(a)["unique"@] == x + a);
    assert(atributos_de(b)["unique"@] == x + b);
    assert(atributos_de(a).dom().contains("unique"@));
    if atributos_de(a).submap_of(atributos_de(b)) {
        assert(atributos_de(b).contains_key("unique"@));
        assert(atributos_de(a)["unique"@] == atributos_de(b)["unique"@]);
    }
    assert((x + a).skip(x.len() as int) =~= a);
    assert((x + b).skip(x.len() as int) =~= b);
}

/// What follows a search for a passphrase.
pub enum Busqueda {
    /// Read the secret of this item.
    Leer(String),
    /// Open the keyring, and then read the secret of this item.
    Abrir(String),
    /// There is nothing stored.
    Nada,
}

/// Decides what to do with the items that a search found. One that can be read
/// is read; one that is there and locked is worth opening the keyring for.
pub fn tras_buscar(unlocked: &Vec<String>, locked: &Vec<String>) -> (r: Busqueda)
    ensures
        if unlocked@.len() > 0 {
            r matches Busqueda::Leer(i) && i@ == unlocked@[0]@
        } else if locked@.len() > 0 {
            r matches Busqueda::Abrir(i) && i@ == locked@[0]@
        } else {
            r is Nada
        },
{
    if unlocked.len() > 0 {
        Busqueda::Leer(unlocked[0].clone())
    } else if locked.len() > 0 {
        Busqueda::Abrir(locked[0].clone())
    } else {
        Busqueda::Nada
    }
}

/// The item to read once the keyring was asked to open: none where it did not.
pub fn tras_abrir(item: String, abierto: bool) -> (r: Option<String>)
    ensures
        match r {
            Some(i) => abierto && i@ == item@,
            None => !abierto,
        },
{
    if abierto {
        Some(item)
    } else {
        None
    }
}

/// What a stored secret says, where it is text.
pub fn frase_guardada(value: Vec<u8>) -> (r: Result<Secreto, String>)
    ensures
        match r {
            Ok(s) => valid_utf8(value@) && s@ == decode_utf8(value@),
            Err(e) => !valid_utf8(value@) && e@ == "el secreto guardado no es texto"@,
        },
{
    let mut v: Vec<u8> = value;
    let t: Option<String> = texto_utf8(v.as_slice());
    borrar_bytes(&mut v);
    match t {
        Some(s) => Ok(Secreto::new(s)),
        None => Err("el secreto guardado no es texto".to_owned()),
    }
}

/// What follows a request to unlock.
pub enum Desbloqueo {
    /// The keyring is open.
    Abierto,
    /// It is not, and nobody is going to ask for the password.
    Cerrado,
    /// This prompt has to be shown.
    Preguntar(String),
}

/// Decides what follows from what the keyring answered to a request to unlock.
pub fn tras_pedir_desbloqueo(unlocked: &Vec<String>, prompt: &str) -> (r: Desbloqueo)
    ensures
        if unlocked@.len() > 0 {
            r is Abierto
        } else if prompt@ == "/"@ {
            r is Cerrado
        } else {
            r matches Desbloqueo::Preguntar(p) && p@ == prompt@
        },
{
    if unlocked.len() > 0 {
        Desbloqueo::Abierto
    } else if igual(prompt, "/") {
        Desbloqueo::Cerrado
    } else {
        Desbloqueo::Preguntar(prompt.to_owned())
    }
}

/// Whether the keyring opened, from how its prompt ended.
pub fn tras_el_dialogo(dismissed: bool) -> (abierto: bool)
    ensures
        abierto == !dismissed,
{
    !dismissed
}

/// An item to store.
pub struct Recuerdo {
    pub label: String,
    pub attributes: Mapa<String>,
    pub parameters: Vec<u8>,
    pub value: Vec<u8>,
    pub content_type: String,
    pub replace: bool,
}

/// The item that files a passphrase. It replaces the one that is there: the
/// passphrase of a key is only one, and two copies would leave no way to tell
/// which one counts.
pub fn recuerdo(key_path: &str, passphrase: &str, label: &str) -> (r: Recuerdo)
    ensures
        r.label@ == label@,
        r.attributes@ == atributos_de(key_path@),
        r.parameters@ == Seq::<u8>::empty(),
        r.value@ == encode_utf8(passphrase@),
        r.content_type@ == "text/plain"@,
        r.replace,
{
    Recuerdo {
        label: label.to_owned(),
        attributes: attributes(key_path),
        parameters: Vec::new(),
        value: copia_de_bytes(passphrase.as_bytes()),
        content_type: "text/plain".to_owned(),
        replace: true,
    }
}

/// A passphrase that was filed is read back as it was.
pub proof fn la_frase_vuelve_igual(passphrase: Seq<char>)
    ensures
        valid_utf8(encode_utf8(passphrase)),
        decode_utf8(encode_utf8(passphrase)) == passphrase,
{
    encode_utf8_valid_utf8(passphrase);
    encode_utf8_decode_utf8(passphrase);
}

/// The passphrase of a key is filed under the path of the key and the generic
/// schema, and under nothing else.
pub proof fn se_archiva_por_la_ruta(key_path: Seq<char>)
    ensures
        atributos_de(key_path) == map![
            "unique"@ => "ssh-store:"@ + key_path,
            "xdg:schema"@ => "org.freedesktop.Secret.Generic"@
        ],
        atributos_de(key_path)["unique"@] == "ssh-store:"@ + key_path,
        atributos_de(key_path)["xdg:schema"@] == "org.freedesktop.Secret.Generic"@,
{
    reveal_strlit("unique");
    reveal_strlit("xdg:schema");
    assert("unique"@.len() != "xdg:schema"@.len());
    assert(atributos_de(key_path) =~= map![
        "unique"@ => "ssh-store:"@ + key_path,
        "xdg:schema"@ => "org.freedesktop.Secret.Generic"@
    ]);
}

} // verus!
