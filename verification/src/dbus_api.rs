//! The Secret Service, as a state and what each call does to it.
//!
//! The state holds sessions, collections, items and aliases, each under the path
//! or the name that clients use. A call takes the state and what the client
//! sent, and says what the state becomes and what is answered. Publishing
//! objects on the bus, emitting signals and writing to disk are left to whoever
//! holds the bus.
use vstd::prelude::*;
use vstd::string::*;

use crate::mapa::Mapa;
use crate::session_crypto;
use crate::texto::{copia_de_bytes, en_decimal, igual, unir};

pub mod collection;
pub mod disco;
pub mod efectos;
pub mod item;
pub mod leyes;
pub mod service;
pub mod sesion;
pub mod transiciones;

verus! {

/// An error as the bus reports it.
#[derive(Debug, PartialEq, Eq)]
pub enum DbusError {
    Failed(String),
    InvalidArgs(String),
    NotSupported(String),
}

/// What an error is.
#[verifier::ext_equal]
pub enum ErrorVista {
    Failed(Seq<char>),
    InvalidArgs(Seq<char>),
    NotSupported(Seq<char>),
}

impl View for DbusError {
    type V = ErrorVista;

    open spec fn view(&self) -> ErrorVista {
        match self {
            DbusError::Failed(s) => ErrorVista::Failed(s@),
            DbusError::InvalidArgs(s) => ErrorVista::InvalidArgs(s@),
            DbusError::NotSupported(s) => ErrorVista::NotSupported(s@),
        }
    }
}

/// The error of a call that failed.
pub fn dbus_err(msg: &str) -> (e: DbusError)
    ensures
        e@ == ErrorVista::Failed(msg@),
{
    DbusError::Failed(msg.to_owned())
}

// ── Object paths ───────────────────────────────────────────

/// A character that an object path may hold between slashes.
pub open spec fn de_nombre(c: char) -> bool {
    '0' <= c <= '9' || 'A' <= c <= 'Z' || 'a' <= c <= 'z' || c == '_'
}

/// A D-Bus object path: a slash alone, or names of at least one character with a
/// slash in front of each.
pub open spec fn ruta_valida(s: Seq<char>) -> bool {
    &&& s.len() > 0
    &&& s[0] == '/'
    &&& s.len() > 1 ==> s.last() != '/'
    &&& forall|i: int| 0 <= i < s.len() ==> de_nombre(#[trigger] s[i]) || s[i] == '/'
    &&& forall|i: int| 0 < i < s.len() && #[trigger] s[i] == '/' ==> s[i - 1] != '/'
}

/// `zbus::zvariant::ObjectPath::try_from` on a text: it accepts exactly the
/// valid object paths, as they are, and refuses the rest with a fixed text.
#[verifier::external_body]
fn ruta_de_objeto(s: &str) -> (r: Result<String, String>)
    ensures
        match r {
            Ok(p) => ruta_valida(s@) && p@ == s@,
            Err(e) => !ruta_valida(s@) && e@ == "Invalid object path"@,
        },
{
    zbus::zvariant::ObjectPath::try_from(s).map(|p| p.to_string()).map_err(|e| e.to_string())
}

/// A path, or the root where it is not valid.
pub fn owned_path(s: &str) -> (r: String)
    ensures
        r@ == ruta_o_raiz(s@),
{
    match ruta_de_objeto(s) {
        Ok(p) => p,
        Err(_) => "/".to_owned(),
    }
}

/// A path, or the root where it is not valid.
pub open spec fn ruta_o_raiz(s: Seq<char>) -> Seq<char> {
    if ruta_valida(s) {
        s
    } else {
        "/"@
    }
}

/// A path, or the error of one that is not valid.
pub fn owned_path_try(s: &str) -> (r: Result<String, DbusError>)
    ensures
        match r {
            Ok(p) => ruta_valida(s@) && p@ == s@,
            Err(e) => !ruta_valida(s@) && e@ == error_de_ruta(),
        },
{
    match ruta_de_objeto(s) {
        Ok(p) => Ok(p),
        Err(e) => Err(DbusError::InvalidArgs(e)),
    }
}

/// The error of a path that is not valid.
pub open spec fn error_de_ruta() -> ErrorVista {
    ErrorVista::InvalidArgs("Invalid object path"@)
}

/// The path of the login collection.
pub const COLECCION_DEL_LOGIN: &'static str = "/org/freedesktop/secrets/collection/login";

/// The path of the item with a given number in a collection.
pub open spec fn ruta_de_item(coleccion: Seq<char>, id: nat) -> Seq<char> {
    coleccion + "/items/"@ + crate::texto::decimal(id)
}

/// The path of the session with a given number.
pub open spec fn ruta_de_sesion(id: nat) -> Seq<char> {
    "/org/freedesktop/secrets/session/s"@ + crate::texto::decimal(id)
}

/// The path of the collection with a given alias.
pub open spec fn ruta_de_coleccion(alias: Seq<char>) -> Seq<char> {
    "/org/freedesktop/secrets/collection/"@ + alias
}

/// The path that an alias is addressed by.
pub open spec fn ruta_de_alias(alias: Seq<char>) -> Seq<char> {
    "/org/freedesktop/secrets/aliases/"@ + alias
}

/// The path that an alias is addressed by.
pub fn alias_path(alias: &str) -> (r: String)
    ensures
        r@ == ruta_de_alias(alias@),
{
    unir("/org/freedesktop/secrets/aliases/", alias)
}

fn nueva_ruta_de_item(coleccion: &str, id: u64) -> (r: String)
    ensures
        r@ == ruta_de_item(coleccion@, id as nat),
{
    let s: String = unir(coleccion, "/items/");
    unir(s.as_str(), en_decimal(id).as_str())
}

// ── What clients send ──────────────────────────────────────

/// A value as a client sends it, told apart as far as the calls tell it apart.
pub enum Valor {
    Texto(String),
    Atributos(Mapa<String>),
    Bytes(Vec<u8>),
    Otro,
}

/// What a value is.
#[verifier::ext_equal]
pub enum ValorVista {
    Texto(Seq<char>),
    Atributos(Map<Seq<char>, Seq<char>>),
    Bytes(Seq<u8>),
    Otro,
}

impl View for Valor {
    type V = ValorVista;

    open spec fn view(&self) -> ValorVista {
        match self {
            Valor::Texto(s) => ValorVista::Texto(s@),
            Valor::Atributos(m) => ValorVista::Atributos(m@),
            Valor::Bytes(b) => ValorVista::Bytes(b@),
            Valor::Otro => ValorVista::Otro,
        }
    }
}

/// The text of a value, where it is one.
pub fn value_to_string(v: &Valor) -> (r: Option<String>)
    ensures
        match r {
            Some(s) => v@ == ValorVista::Texto(s@),
            None => !(v@ is Texto),
        },
{
    match v {
        Valor::Texto(s) => Some(s.clone()),
        _ => None,
    }
}

/// The attributes that a value holds, where it holds attributes.
pub fn value_to_attrmap(v: &Valor) -> (r: Option<Mapa<String>>)
    ensures
        match r {
            Some(m) => v@ == ValorVista::Atributos(m@),
            None => !(v@ is Atributos),
        },
{
    match v {
        Valor::Atributos(m) => Some(m.clone()),
        _ => None,
    }
}

/// The bytes of a value, or the error of one that is not bytes.
pub fn extract_bytes(v: &Valor) -> (r: Result<Vec<u8>, DbusError>)
    ensures
        match r {
            Ok(b) => v@ == ValorVista::Bytes(b@),
            Err(e) => !(v@ is Bytes) && e@ == ErrorVista::Failed("expected byte array"@),
        },
{
    match v {
        Valor::Bytes(b) => Ok(copia_de_bytes(b.as_slice())),
        _ => Err(dbus_err("expected byte array")),
    }
}

/// The text that the properties hold under a name, or another where they hold
/// none.
pub open spec fn texto_o(properties: Map<Seq<char>, ValorVista>, nombre: Seq<char>, otro: Seq<char>) -> Seq<
    char,
> {
    if properties.contains_key(nombre) && properties[nombre] is Texto {
        properties[nombre]->Texto_0
    } else {
        otro
    }
}

/// The attributes that the properties of an item hold: none where they hold
/// none.
pub open spec fn atributos_en(properties: Map<Seq<char>, ValorVista>) -> Map<Seq<char>, Seq<char>> {
    let nombre = "org.freedesktop.Secret.Item.Attributes"@;
    if properties.contains_key(nombre) && properties[nombre] is Atributos {
        properties[nombre]->Atributos_0
    } else {
        Map::empty()
    }
}

fn texto_de_propiedad(properties: &Mapa<Valor>, nombre: &str, otro: &str) -> (r: String)
    ensures
        r@ == texto_o(properties@, nombre@, otro@),
{
    match properties.get(nombre) {
        Some(v) => match value_to_string(v) {
            Some(s) => s,
            None => otro.to_owned(),
        },
        None => otro.to_owned(),
    }
}

fn atributos_de_propiedades(properties: &Mapa<Valor>) -> (r: Mapa<String>)
    ensures
        r@ == atributos_en(properties@),
{
    match properties.get("org.freedesktop.Secret.Item.Attributes") {
        Some(v) => match value_to_attrmap(v) {
            Some(m) => m,
            None => Mapa::new(),
        },
        None => Mapa::new(),
    }
}

/// A secret on its way over a session.
pub struct SecretStruct {
    pub session: String,
    pub parameters: Vec<u8>,
    pub value: Vec<u8>,
    pub content_type: String,
}

/// What a secret on its way is.
#[verifier::ext_equal]
pub struct SecretVista {
    pub session: Seq<char>,
    pub parameters: Seq<u8>,
    pub value: Seq<u8>,
    pub content_type: Seq<char>,
}

impl View for SecretStruct {
    type V = SecretVista;

    open spec fn view(&self) -> SecretVista {
        SecretVista {
            session: self.session@,
            parameters: self.parameters@,
            value: self.value@,
            content_type: self.content_type@,
        }
    }
}

// ── What the state holds ───────────────────────────────────

/// A session with a client.
pub struct SessionInfo {
    algorithm: String,
    shared_key: Option<Vec<u8>>,
    created: u64,
}

/// What a session is.
#[verifier::ext_equal]
pub struct SessionVista {
    pub algorithm: Seq<char>,
    /// The transport key; none where the session does not encrypt.
    pub shared_key: Option<Seq<u8>>,
    pub created: u64,
}

impl View for SessionInfo {
    type V = SessionVista;

    closed spec fn view(&self) -> SessionVista {
        SessionVista {
            algorithm: self.algorithm@,
            shared_key: match self.shared_key {
                Some(k) => Some(k@),
                None => None,
            },
            created: self.created,
        }
    }
}

/// Whether a list of bytes is short enough for the cipher of a session to add its
/// padding to it.
pub open spec fn cabe(largo: nat) -> bool {
    largo + 16 <= isize::MAX
}

impl SessionVista {
    /// What a client's parameters and value stand for over this session, or why
    /// they stand for nothing.
    pub open spec fn recibido(self, parameters: Seq<u8>, value: Seq<u8>) -> Result<Seq<u8>, ErrorVista> {
        match self.shared_key {
            None => Ok(value),
            Some(clave) => match session_crypto::descifrado(clave, parameters, value) {
                Ok(texto) => Ok(texto),
                Err(e) => Err(ErrorVista::Failed("could not decrypt the secret: "@ + e)),
            },
        }
    }
}

impl SessionInfo {
    /// Prepares a stored secret for delivery over this session: the parameters
    /// and the value. What is delivered is received as the secret; over a
    /// session that does not encrypt it is the secret itself, and over one that
    /// does it is its ciphertext under an IV that travels as the parameters. It
    /// fails only on a key of the wrong size.
    pub fn encode(&self, plaintext: &[u8]) -> (r: Result<(Vec<u8>, Vec<u8>), DbusError>)
        requires
            cabe(plaintext@.len()),
        ensures
            match self@.shared_key {
                None => r matches Ok(p) && p.0@ == Seq::<u8>::empty() && p.1@ == plaintext@,
                Some(clave) => match session_crypto::clave_mal_medida(clave.len()) {
                    None => r matches Ok(p) && p.0@.len() == 16 && p.1@ == crate::primitivas::cbc_cifrado(
                        clave,
                        p.0@,
                        plaintext@,
                    ),
                    Some(e) => r matches Err(f) && f@ == ErrorVista::Failed(
                        "could not encrypt the secret: "@ + e,
                    ),
                },
            },
            r matches Ok(p) ==> self@.recibido(p.0@, p.1@) == Ok::<Seq<u8>, ErrorVista>(plaintext@),
    {
        match &self.shared_key {
            None => Ok((Vec::new(), copia_de_bytes(plaintext))),
            Some(key) => match session_crypto::encrypt(key.as_slice(), plaintext) {
                Ok(p) => Ok(p),
                Err(e) => Err(DbusError::Failed(unir("could not encrypt the secret: ", e.as_str()))),
            },
        }
    }

    /// Recovers a secret that a client sent over this session.
    pub fn decode(&self, parameters: &[u8], value: Vec<u8>) -> (r: Result<Vec<u8>, DbusError>)
        ensures
            match r {
                Ok(t) => self@.recibido(parameters@, value@) == Ok::<Seq<u8>, ErrorVista>(t@) && t@.len()
                    <= value@.len(),
                Err(e) => self@.recibido(parameters@, value@) == Err::<Seq<u8>, ErrorVista>(e@),
            },
    {
        match &self.shared_key {
            None => Ok(value),
            Some(key) => match session_crypto::decrypt(key.as_slice(), parameters, value.as_slice()) {
                Ok(t) => Ok(t),
                Err(e) => Err(DbusError::Failed(unir("could not decrypt the secret: ", e.as_str()))),
            },
        }
    }
}

/// An item: a secret with its label and its attributes.
pub struct ItemInfo {
    pub label: String,
    pub attributes: Mapa<String>,
    pub secret: Vec<u8>,
    pub content_type: String,
    pub created: u64,
    pub modified: u64,
}

/// What an item is.
#[verifier::ext_equal]
pub struct ItemVista {
    pub label: Seq<char>,
    pub attributes: Map<Seq<char>, Seq<char>>,
    pub secret: Seq<u8>,
    pub content_type: Seq<char>,
    pub created: u64,
    pub modified: u64,
}

impl View for ItemInfo {
    type V = ItemVista;

    open spec fn view(&self) -> ItemVista {
        ItemVista {
            label: self.label@,
            attributes: self.attributes@,
            secret: self.secret@,
            content_type: self.content_type@,
            created: self.created,
            modified: self.modified,
        }
    }
}

impl Clone for ItemInfo {
    fn clone(&self) -> (r: ItemInfo)
        ensures
            r@ == self@,
    {
        ItemInfo {
            label: self.label.clone(),
            attributes: self.attributes.clone(),
            secret: copia_de_bytes(self.secret.as_slice()),
            content_type: self.content_type.clone(),
            created: self.created,
            modified: self.modified,
        }
    }
}

/// A collection: a list of item paths.
pub struct CollectionInfo {
    label: String,
    locked: bool,
    items: Vec<String>,
    created: u64,
    modified: u64,
}

/// What a collection is.
#[verifier::ext_equal]
pub struct ColeccionVista {
    pub label: Seq<char>,
    pub locked: bool,
    pub items: Seq<Seq<char>>,
    pub created: u64,
    pub modified: u64,
}

/// Paths, as sequences of characters.
pub open spec fn rutas(v: Seq<String>) -> Seq<Seq<char>> {
    v.map_values(|s: String| s@)
}

impl View for CollectionInfo {
    type V = ColeccionVista;

    closed spec fn view(&self) -> ColeccionVista {
        ColeccionVista {
            label: self.label@,
            locked: self.locked,
            items: rutas(self.items@),
            created: self.created,
            modified: self.modified,
        }
    }
}

/// Everything that the service holds in memory.
pub struct KeyringState {
    sessions: Mapa<SessionInfo>,
    collections: Mapa<CollectionInfo>,
    items: Mapa<ItemInfo>,
    aliases: Mapa<String>,
    next_session: u64,
    next_collection: u64,
    next_item: u64,
}

/// What the state is.
#[verifier::ext_equal]
pub struct EstadoVista {
    pub sessions: Map<Seq<char>, SessionVista>,
    pub collections: Map<Seq<char>, ColeccionVista>,
    pub items: Map<Seq<char>, ItemVista>,
    /// The path of the collection that each alias stands for.
    pub aliases: Map<Seq<char>, Seq<char>>,
    pub next_session: nat,
    pub next_collection: nat,
    pub next_item: nat,
}

impl View for KeyringState {
    type V = EstadoVista;

    closed spec fn view(&self) -> EstadoVista {
        EstadoVista {
            sessions: self.sessions@,
            collections: self.collections@,
            items: self.items@,
            aliases: self.aliases@,
            next_session: self.next_session as nat,
            next_collection: self.next_collection as nat,
            next_item: self.next_item as nat,
        }
    }
}

/// Whether a path ends in the number of an item.
pub open spec fn termina_en(p: Seq<char>, id: nat) -> bool {
    exists|c: Seq<char>| p == #[trigger] ruta_de_item(c, id)
}

impl EstadoVista {
    /// Whether an item is in the list of a collection.
    pub open spec fn en(self, coleccion: Seq<char>, item: Seq<char>) -> bool {
        self.collections.contains_key(coleccion) && self.collections[coleccion].items.contains(item)
    }

    /// What every call keeps:
    ///
    /// - a collection lists no item twice, and only items that exist;
    /// - an item is in one collection at most;
    /// - the path of every item ends in a number that was already handed out, so
    ///   the next one is new;
    /// - the path of every session is one that was already handed out, and its
    ///   key has the size that the cipher asks for;
    /// - every alias stands for a collection that exists;
    /// - every secret can be delivered.
    pub open spec fn valido(self) -> bool {
        &&& forall|c: Seq<char>| #[trigger]
            self.collections.contains_key(c) ==> self.collections[c].items.no_duplicates()
        &&& forall|c: Seq<char>, p: Seq<char>| #[trigger]
            self.en(c, p) ==> self.items.contains_key(p)
        &&& forall|c: Seq<char>, d: Seq<char>, p: Seq<char>| #[trigger]
            self.en(c, p) && #[trigger] self.en(d, p) ==> c == d
        &&& forall|p: Seq<char>| #[trigger]
            self.items.contains_key(p) ==> exists|id: nat| id < self.next_item && #[trigger] termina_en(p, id)
        &&& forall|s: Seq<char>| #[trigger]
            self.sessions.contains_key(s) ==> exists|id: nat|
                id < self.next_session && s == #[trigger] ruta_de_sesion(id)
        &&& forall|s: Seq<char>| #[trigger]
            self.sessions.contains_key(s) ==> (self.sessions[s].shared_key matches Some(k) ==> k.len() == 16)
        &&& forall|a: Seq<char>| #[trigger]
            self.aliases.contains_key(a) ==> self.collections.contains_key(self.aliases[a])
        &&& forall|p: Seq<char>| #[trigger]
            self.items.contains_key(p) ==> cabe(self.items[p].secret.len())
    }
}

/// The state of a service that has just started.
pub open spec fn estado_inicial() -> EstadoVista {
    EstadoVista {
        sessions: Map::empty(),
        collections: Map::empty(),
        items: Map::empty(),
        aliases: Map::empty(),
        next_session: 0,
        next_collection: 0,
        next_item: 0,
    }
}

impl KeyringState {
    /// A service that has just started.
    pub fn new() -> (s: KeyringState)
        ensures
            s@ == estado_inicial(),
            s@.valido(),
    {
        KeyringState {
            sessions: Mapa::new(),
            collections: Mapa::new(),
            items: Mapa::new(),
            aliases: Mapa::new(),
            next_session: 0,
            next_collection: 0,
            next_item: 0,
        }
    }

    /// Whether there are numbers left for some more items.
    pub fn admite_items(&self, n: usize) -> (r: bool)
        ensures
            r == (self@.next_item + n <= u64::MAX),
    {
        n as u64 <= u64::MAX - self.next_item
    }

    /// Whether there is a number left for one more session.
    pub fn admite_sesion(&self) -> (r: bool)
        ensures
            r == (self@.next_session < u64::MAX),
    {
        self.next_session < u64::MAX
    }

    /// Reserves the next free item number.
    pub fn take_item_id(&mut self) -> (id: u64)
        requires
            old(self)@.next_item < u64::MAX,
        ensures
            id == old(self)@.next_item,
            final(self)@ == old(self)@.con_reserva(),
            old(self)@.valido() ==> final(self)@.valido(),
    {
        let id: u64 = self.next_item;
        let ghost v = self@;
        self.next_item = id + 1;
        proof {
            if v.valido() {
                transiciones::con_reserva_es_valido(v);
            }
        }
        id
    }
}

/// Whether a path is in a list.
fn contiene(v: &Vec<String>, p: &str) -> (r: bool)
    ensures
        r == rutas(v@).contains(p@),
{
    let mut i: usize = 0;
    while i < v.len()
        invariant
            i <= v@.len(),
            forall|j: int| 0 <= j < i ==> rutas(v@)[j] != p@,
        decreases v.len() - i,
    {
        if igual(v[i].as_str(), p) {
            assert(rutas(v@)[i as int] == p@);
            return true;
        }
        assert(rutas(v@)[i as int] == v@[i as int]@);
        i += 1;
    }
    false
}

/// A list without one of its paths.
fn filtrada(v: &Vec<String>, p: &str) -> (r: Vec<String>)
    ensures
        rutas(r@) == crate::mapa::sin(rutas(v@), p@),
{
    let mut r: Vec<String> = Vec::new();
    let mut i: usize = 0;
    let ghost s = rutas(v@);
    let ghost f = crate::mapa::otra_que(p@);
    proof {
        reveal(Seq::filter);
        assert(rutas(r@) =~= s.take(0).filter(f));
    }
    while i < v.len()
        invariant
            i <= v@.len(),
            s == rutas(v@),
            f == crate::mapa::otra_que(p@),
            rutas(r@) == s.take(i as int).filter(f),
        decreases v.len() - i,
    {
        let ghost antes = rutas(r@);
        proof {
            reveal(Seq::filter);
            assert(s.take(i + 1).drop_last() =~= s.take(i as int));
            assert(s.take(i + 1).last() == v@[i as int]@);
        }
        if !igual(v[i].as_str(), p) {
            r.push(v[i].clone());
            assert(rutas(r@) =~= antes.push(v@[i as int]@));
        }
        i += 1;
    }
    assert(s.take(v@.len() as int) =~= s);
    r
}

/// A copy of a list of paths.
fn copiada(v: &Vec<String>) -> (r: Vec<String>)
    ensures
        rutas(r@) == rutas(v@),
{
    let mut r: Vec<String> = Vec::new();
    let mut i: usize = 0;
    while i < v.len()
        invariant
            i <= v@.len(),
            rutas(r@) == rutas(v@).take(i as int),
        decreases v.len() - i,
    {
        let ghost antes = rutas(r@);
        r.push(v[i].clone());
        i += 1;
        proof {
            assert(rutas(r@) =~= antes.push(v@[i - 1]@));
            assert(rutas(v@).take(i as int) =~= rutas(v@).take(i - 1).push(v@[i - 1]@));
        }
    }
    assert(rutas(v@).take(v@.len() as int) =~= rutas(v@));
    r
}

impl KeyringState {
    /// The collections, in the order in which they are walked.
    pub closed spec fn orden_de_colecciones(&self) -> Seq<Seq<char>> {
        self.collections.orden()
    }

    /// The items, in the order in which they are walked.
    pub closed spec fn orden_de_items(&self) -> Seq<Seq<char>> {
        self.items.orden()
    }

    /// The aliases, in the order in which they are walked.
    pub closed spec fn orden_de_alias(&self) -> Seq<Seq<char>> {
        self.aliases.orden()
    }

    /// The collection that an item is in.
    fn coleccion_de(&self, item: &str) -> (r: Option<String>)
        requires
            self@.valido(),
        ensures
            sesion::vista_de_texto(r) == self@.duena(item@),
    {
        let n: usize = self.collections.len();
        let ghost orden = self.collections.orden();
        let mut i: usize = 0;
        while i < n
            invariant
                i <= n,
                n == orden.len(),
                orden == self.collections.orden(),
                orden.to_set() == self.collections@.dom(),
                self@.valido(),
                forall|j: int| 0 <= j < i ==> !self@.en(#[trigger] orden[j], item@),
            decreases n - i,
        {
            if contiene(&self.collections.valor(i).items, item) {
                let c: String = self.collections.clave(i).clone();
                proof {
                    assert(self@.en(c@, item@));
                    transiciones::una_sola_duena(self@, c@, item@);
                }
                return Some(c);
            }
            proof {
                assert(!self@.en(orden[i as int], item@));
            }
            i += 1;
        }
        proof {
            assert forall|c: Seq<char>| !self@.en(c, item@) by {
                if self@.en(c, item@) {
                    assert(orden.to_set().contains(c));
                    let j = orden.index_of(c);
                    assert(orden[j] == c);
                }
            }
        }
        None
    }

    /// Gives a collection another list of items and, where one is given, another
    /// date of change.
    fn cambiar_lista(&mut self, coleccion: &str, items: Vec<String>, modified: Option<u64>)
        requires
            old(self)@.collections.contains_key(coleccion@),
        ensures
            final(self)@ == (EstadoVista {
                collections: old(self)@.collections.insert(
                    coleccion@,
                    ColeccionVista {
                        items: rutas(items@),
                        modified: match modified {
                            Some(t) => t,
                            None => old(self)@.collections[coleccion@].modified,
                        },
                        ..old(self)@.collections[coleccion@]
                    },
                ),
                ..old(self)@
            }),
            final(self).orden_de_colecciones() == old(self).orden_de_colecciones(),
            final(self).orden_de_items() == old(self).orden_de_items(),
            final(self).orden_de_alias() == old(self).orden_de_alias(),
    {
        match self.collections.get(coleccion) {
            Some(col) => {
                let nueva: CollectionInfo = CollectionInfo {
                    label: col.label.clone(),
                    locked: col.locked,
                    items,
                    created: col.created,
                    modified: match modified {
                        Some(t) => t,
                        None => col.modified,
                    },
                };
                self.collections.insert(coleccion.to_owned(), nueva);
            },
            None => {},
        }
    }

    /// Takes an item out of the list of its collection, if it is in one, and
    /// says which one that is.
    fn desalojar(&mut self, item: &str) -> (r: Option<String>)
        requires
            old(self)@.valido(),
        ensures
            sesion::vista_de_texto(r) == old(self)@.duena(item@),
            final(self)@ == (EstadoVista {
                items: old(self)@.items,
                ..old(self)@.sin_item(item@)
            }),
            final(self).orden_de_items() == old(self).orden_de_items(),
    {
        match self.coleccion_de(item) {
            Some(c) => {
                let items: Vec<String> = match self.collections.get(c.as_str()) {
                    Some(col) => filtrada(&col.items, item),
                    None => Vec::new(),
                };
                proof {
                    assert(self@.en(c@, item@));
                }
                self.cambiar_lista(c.as_str(), items, None);
                Some(c)
            },
            None => None,
        }
    }

    /// A copy of every item, in walking order. What is written to disk is always
    /// the whole of it, whichever collection changed.
    pub fn fotografia(&self) -> (r: Vec<ItemInfo>)
        ensures
            r@.len() == self@.items.dom().len(),
            r@.len() == self.orden_de_items().len(),
            self.orden_de_items().no_duplicates(),
            self.orden_de_items().to_set() == self@.items.dom(),
            forall|i: int|
                0 <= i < r@.len() ==> (#[trigger] r@[i])@ == self@.items[self.orden_de_items()[i]],
    {
        let n: usize = self.items.len();
        let mut r: Vec<ItemInfo> = Vec::new();
        let mut i: usize = 0;
        while i < n
            invariant
                i <= n,
                n == self.items.orden().len(),
                r@.len() == i,
                forall|j: int| 0 <= j < i ==> (#[trigger] r@[j])@ == self.items@[self.items.orden()[j]],
            decreases n - i,
        {
            r.push(self.items.valor(i).clone());
            i += 1;
        }
        r
    }
}

/// The number at the end of a path is only one.
proof fn un_solo_numero(p: Seq<char>, a: nat, b: nat)
    requires
        termina_en(p, a),
        termina_en(p, b),
    ensures
        a == b,
{
    let c = choose|c: Seq<char>| p == #[trigger] ruta_de_item(c, a);
    let d = choose|d: Seq<char>| p == #[trigger] ruta_de_item(d, b);
    reveal_strlit("/items/");
    let x = crate::texto::decimal(a);
    let y = crate::texto::decimal(b);
    crate::texto::decimal_son_digitos(a);
    crate::texto::decimal_son_digitos(b);
    let n = p.len() as int;
    // The last slash of the path stands right before the number.
    assert(p[n - x.len() - 1] == '/');
    assert(p[n - y.len() - 1] == '/');
    if x.len() < y.len() {
        assert(p[n - x.len() - 1] == y[y.len() - x.len() - 1]);
    } else if y.len() < x.len() {
        assert(p[n - y.len() - 1] == x[x.len() - y.len() - 1]);
    }
    assert(p.skip(n - x.len()) =~= x);
    assert(p.skip(n - y.len()) =~= y);
    crate::texto::decimal_es_inyectivo(a, b);
}

/// A path made with a number that was not handed out is the path of no item.
pub proof fn un_numero_sin_usar_es_nuevo(v: EstadoVista, coleccion: Seq<char>, id: nat)
    requires
        v.valido(),
        id >= v.next_item,
    ensures
        !v.items.contains_key(ruta_de_item(coleccion, id)),
{
    let p = ruta_de_item(coleccion, id);
    if v.items.contains_key(p) {
        let otro = choose|otro: nat| otro < v.next_item && #[trigger] termina_en(p, otro);
        assert(termina_en(p, id));
        un_solo_numero(p, otro, id);
    }
}

/// Two items with different numbers have different paths.
pub proof fn numeros_distintos_rutas_distintas(c: Seq<char>, d: Seq<char>, a: nat, b: nat)
    requires
        ruta_de_item(c, a) == ruta_de_item(d, b),
    ensures
        a == b,
{
    let p = ruta_de_item(c, a);
    assert(termina_en(p, a));
    assert(p == ruta_de_item(d, b));
    assert(termina_en(p, b));
    un_solo_numero(p, a, b);
}

} // verus!
