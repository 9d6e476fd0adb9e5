//! The calls on the service, and the end of a session.
use vstd::prelude::*;
use vstd::string::*;

use super::sesion::Sesion;
use super::{
    dbus_err, extract_bytes, owned_path, owned_path_try, texto_de_propiedad, CollectionInfo, DbusError,
    ErrorVista, EstadoVista, KeyringState, SecretStruct, SessionInfo, SessionVista, Valor, ValorVista,
};
use crate::dbus_api;
use crate::mapa::Mapa;
use crate::session_crypto;
use crate::session_crypto::{negotiate, negotiate_with, DhSession, DH_ALGORITHM, PLAIN_ALGORITHM};
use crate::texto::{en_decimal, igual, unir};

verus! {

impl EstadoVista {
    /// Being a collection that exists.
    pub open spec fn las_que_hay(self) -> spec_fn(Seq<char>) -> bool {
        |c: Seq<char>| self.collections.contains_key(c)
    }

    /// What a search finds in some collections, walked in order: in those that
    /// serve secrets now, or in those that do not.
    pub open spec fn hallados_en(
        self,
        sesion: dbus_api::sesion::SesionVista,
        colecciones: Seq<Seq<char>>,
        atributos: Map<Seq<char>, Seq<char>>,
        cerradas: bool,
    ) -> Seq<Seq<char>>
        decreases colecciones.len(),
    {
        if colecciones.len() == 0 {
            Seq::empty()
        } else {
            let c = colecciones.last();
            let antes = self.hallados_en(sesion, colecciones.drop_last(), atributos, cerradas);
            if sesion.cerrada(self.collections[c].locked) == cerradas {
                antes + self.hallados(c, atributos)
            } else {
                antes
            }
        }
    }

    /// What an alias stands for: the collection it was given, or the one named
    /// after it, or the root where there is neither.
    pub open spec fn coleccion_del_alias(self, alias: Seq<char>) -> Result<Seq<char>, ErrorVista> {
        if self.aliases.contains_key(alias) {
            ruta_o_error(self.aliases[alias])
        } else if self.collections.contains_key(dbus_api::ruta_de_coleccion(alias)) {
            ruta_o_error(dbus_api::ruta_de_coleccion(alias))
        } else {
            Ok("/"@)
        }
    }

    /// The state with an alias given to a collection, or taken away, and the
    /// error of a collection that does not exist.
    pub open spec fn con_alias(self, alias: Seq<char>, coleccion: Seq<char>) -> Result<EstadoVista, ErrorVista> {
        if coleccion == "/"@ {
            Ok(EstadoVista { aliases: self.aliases.remove(alias), ..self })
        } else if self.collections.contains_key(coleccion) {
            Ok(EstadoVista { aliases: self.aliases.insert(alias, coleccion), ..self })
        } else {
            Err(ErrorVista::Failed("collection not found"@))
        }
    }
}

/// A path where it is valid, and the error of one that is not.
pub open spec fn ruta_o_error(p: Seq<char>) -> Result<Seq<char>, ErrorVista> {
    if dbus_api::ruta_valida(p) {
        Ok(p)
    } else {
        Err(dbus_api::error_de_ruta())
    }
}

/// The path of a session is a valid object path.
pub proof fn la_ruta_de_una_sesion_es_valida(id: nat)
    ensures
        dbus_api::ruta_valida(dbus_api::ruta_de_sesion(id)),
{
    let x = "/org/freedesktop/secrets/session/s"@;
    reveal_strlit("/org/freedesktop/secrets/session/s");
    let d = crate::texto::decimal(id);
    crate::texto::decimal_son_digitos(id);
    let p = dbus_api::ruta_de_sesion(id);
    assert(x.len() == 34);
    assert forall|i: int| 0 <= i < p.len() implies dbus_api::de_nombre(#[trigger] p[i]) || p[i] == '/' by {
        if i < 34 {
            assert(p[i] == x[i]);
        } else {
            assert(p[i] == d[i - 34]);
        }
    }
    assert forall|i: int| 0 < i < p.len() && #[trigger] p[i] == '/' implies p[i - 1] != '/' by {
        if i < 34 {
            assert(p[i] == x[i]);
            assert(p[i - 1] == x[i - 1]);
        } else {
            assert(p[i] == d[i - 34]);
        }
    }
    assert(p.last() == d.last());
}

/// A request for a collection.
pub enum AltaDeColeccion {
    /// It exists already, at this path.
    Existente(String),
    /// It has to be registered at this path with this label.
    Nueva { path: String, label: String },
}

impl KeyringState {
    /// The collections there are, in walking order.
    pub fn collections(&self) -> (r: Vec<String>)
        ensures
            dbus_api::rutas(r@) == self.orden_de_colecciones().filter(dbus_api::collection::las_validas()),
            self.orden_de_colecciones().no_duplicates(),
            self.orden_de_colecciones().to_set() == self@.collections.dom(),
    {
        let n: usize = self.collections.len();
        let ghost orden = self.collections.orden();
        let ghost f = dbus_api::collection::las_validas();
        let mut r: Vec<String> = Vec::new();
        let mut i: usize = 0;
        proof {
            reveal(Seq::filter);
            assert(dbus_api::rutas(r@) =~= orden.take(0).filter(f));
        }
        while i < n
            invariant
                i <= n,
                n == orden.len(),
                orden == self.collections.orden(),
                f == dbus_api::collection::las_validas(),
                dbus_api::rutas(r@) == orden.take(i as int).filter(f),
            decreases n - i,
        {
            let ghost antes = dbus_api::rutas(r@);
            proof {
                reveal(Seq::filter);
                assert(orden.take(i + 1).drop_last() =~= orden.take(i as int));
            }
            if let Ok(p) = owned_path_try(self.collections.clave(i).as_str()) {
                r.push(p);
                assert(dbus_api::rutas(r@) =~= antes.push(orden[i as int]));
            }
            i += 1;
        }
        assert(orden.take(n as int) =~= orden);
        r
    }

    /// Registers a session, and gives back its path.
    fn registrar_sesion(&mut self, algorithm: &str, shared_key: Option<Vec<u8>>, ahora: u64) -> (r: String)
        requires
            old(self)@.valido(),
            old(self)@.next_session < u64::MAX,
            shared_key matches Some(k) ==> k@.len() == 16,
        ensures
            final(self)@.valido(),
            final(self)@ == old(self)@.con_sesion(
                SessionVista {
                    algorithm: algorithm@,
                    shared_key: match shared_key {
                        Some(k) => Some(k@),
                        None => None,
                    },
                    created: ahora,
                },
            ),
            r@ == dbus_api::ruta_de_sesion(old(self)@.next_session),
            !old(self)@.sessions.contains_key(r@),
    {
        let ghost v = self@;
        let id: u64 = self.next_session;
        self.next_session = id + 1;
        let path: String = unir("/org/freedesktop/secrets/session/s", en_decimal(id).as_str());
        let info: SessionInfo = SessionInfo { algorithm: algorithm.to_owned(), shared_key, created: ahora };
        proof {
            dbus_api::transiciones::con_sesion_es_valido(v, info@);
        }
        self.sessions.insert(path.clone(), info);
        path
    }

    /// Opens a session with the negotiation given: the transport key and the
    /// public value of one that encrypts.
    fn abrir_sesion(&mut self, algorithm: &str, dh: Option<DhSession>, ahora: u64) -> (r: Result<
        (Vec<u8>, String),
        DbusError,
    >)
        requires
            old(self)@.valido(),
            old(self)@.next_session < u64::MAX,
            dh matches Some(d) ==> d.session_key@.len() == 16,
        ensures
            final(self)@.valido(),
            r matches Ok(p) && p.1@ == dbus_api::ruta_de_sesion(old(self)@.next_session) && p.0@ == (match dh {
                Some(d) => d.server_public@,
                None => Seq::<u8>::empty(),
            }),
            !old(self)@.sessions.contains_key(dbus_api::ruta_de_sesion(old(self)@.next_session)),
            final(self)@ == old(self)@.con_sesion(
                SessionVista {
                    algorithm: algorithm@,
                    shared_key: match dh {
                        Some(d) => Some(d.session_key@),
                        None => None,
                    },
                    created: ahora,
                },
            ),
    {
        let (shared_key, output): (Option<Vec<u8>>, Vec<u8>) = match dh {
            Some(d) => {
                let DhSession { server_public, session_key } = d;
                (Some(session_key), server_public)
            },
            None => (None, Vec::new()),
        };
        let path: String = self.registrar_sesion(algorithm, shared_key, ahora);
        proof {
            la_ruta_de_una_sesion_es_valida(old(self)@.next_session);
        }
        match owned_path_try(path.as_str()) {
            Ok(p) => Ok((output, p)),
            Err(e) => Err(e),
        }
    }

    /// Opens a session, with the private value given for the exchange. What comes
    /// back is the public value of the service, empty where the session does not
    /// encrypt, and the path of the session.
    pub fn open_session_with(&mut self, algorithm: &str, input: &Valor, private: &[u8], ahora: u64) -> (r: Result<
        (Vec<u8>, String),
        DbusError,
    >)
        requires
            old(self)@.valido(),
            old(self)@.next_session < u64::MAX,
        ensures
            final(self)@.valido(),
            sesion_abierta(
                old(self)@,
                final(self)@,
                algorithm@,
                input@,
                crate::primitivas::be(private@),
                ahora,
                r,
            ),
    {
        if igual(algorithm, PLAIN_ALGORITHM) {
            self.abrir_sesion(algorithm, None, ahora)
        } else if igual(algorithm, DH_ALGORITHM) {
            let client_public: Vec<u8> = match extract_bytes(input) {
                Ok(b) => b,
                Err(e) => {
                    return Err(e);
                },
            };
            match negotiate_with(client_public.as_slice(), private) {
                Ok(dh) => self.abrir_sesion(algorithm, Some(dh), ahora),
                Err(e) => Err(DbusError::InvalidArgs(e)),
            }
        } else {
            Err(DbusError::NotSupported(unir("unsupported algorithm: ", algorithm)))
        }
    }

    /// Opens a session, with a fresh private value for the exchange.
    ///
    /// An algorithm that is not known is answered as not supported: clients try
    /// the ones they know in order, and fall back on that answer.
    pub fn open_session(&mut self, algorithm: &str, input: &Valor, ahora: u64) -> (r: Result<
        (Vec<u8>, String),
        DbusError,
    >)
        requires
            old(self)@.valido(),
            old(self)@.next_session < u64::MAX,
        ensures
            final(self)@.valido(),
            exists|privado: Seq<u8>|
                privado.len() == 32 && sesion_abierta(
                    old(self)@,
                    final(self)@,
                    algorithm@,
                    input@,
                    #[trigger] crate::primitivas::be(privado),
                    ahora,
                    r,
                ),
    {
        let ghost v = self@;
        let ghost cualquiera = Seq::new(32, |i: int| 0u8);
        if igual(algorithm, PLAIN_ALGORITHM) {
            let r: Result<(Vec<u8>, String), DbusError> = self.abrir_sesion(algorithm, None, ahora);
            proof {
                assert(sesion_abierta(v, self@, algorithm@, input@, crate::primitivas::be(cualquiera), ahora, r));
            }
            return r;
        }
        if igual(algorithm, DH_ALGORITHM) {
            let client_public: Vec<u8> = match extract_bytes(input) {
                Ok(b) => b,
                Err(e) => {
                    let r: Result<(Vec<u8>, String), DbusError> = Err(e);
                    proof {
                        assert(sesion_abierta(
                            v,
                            self@,
                            algorithm@,
                            input@,
                            crate::primitivas::be(cualquiera),
                            ahora,
                            r,
                        ));
                    }
                    return r;
                },
            };
            return match negotiate(client_public.as_slice()) {
                Ok(dh) => {
                    let ghost cliente = crate::primitivas::be(client_public@);
                    let ghost privado = choose|privado: Seq<u8>|
                        privado.len() == 32 && #[trigger] session_crypto::negociado(
                            cliente,
                            crate::primitivas::be(privado),
                            dh,
                        );
                    let r: Result<(Vec<u8>, String), DbusError> = self.abrir_sesion(algorithm, Some(dh), ahora);
                    proof {
                        assert(sesion_abierta(
                            v,
                            self@,
                            algorithm@,
                            input@,
                            crate::primitivas::be(privado),
                            ahora,
                            r,
                        ));
                    }
                    r
                },
                Err(e) => {
                    let r: Result<(Vec<u8>, String), DbusError> = Err(DbusError::InvalidArgs(e));
                    proof {
                        assert(sesion_abierta(
                            v,
                            self@,
                            algorithm@,
                            input@,
                            crate::primitivas::be(cualquiera),
                            ahora,
                            r,
                        ));
                    }
                    r
                },
            };
        }
        let r: Result<(Vec<u8>, String), DbusError> = Err(
            DbusError::NotSupported(unir("unsupported algorithm: ", algorithm)),
        );
        proof {
            assert(sesion_abierta(v, self@, algorithm@, input@, crate::primitivas::be(cualquiera), ahora, r));
        }
        r
    }

    /// Closes a session.
    pub fn session_close(&mut self, path: &str)
        requires
            old(self)@.valido(),
        ensures
            final(self)@.valido(),
            final(self)@ == old(self)@.sin_sesion(path@),
    {
        self.sessions.remove(path);
        proof {
            assert(self@ =~= old(self)@.sin_sesion(path@));
            dbus_api::transiciones::sin_sesion_es_valido(old(self)@, path@);
        }
    }

    /// Decides what a request for a collection comes to: one that exists is
    /// answered as it is.
    pub fn create_collection(&self, properties: &Mapa<Valor>, alias: &str) -> (r: Result<
        AltaDeColeccion,
        DbusError,
    >)
        ensures
            if self@.collections.contains_key(dbus_api::ruta_de_coleccion(alias@)) {
                match ruta_o_error(dbus_api::ruta_de_coleccion(alias@)) {
                    Ok(p) => r matches Ok(AltaDeColeccion::Existente(s)) && s@ == p,
                    Err(m) => r matches Err(e) && e@ == m,
                }
            } else {
                r matches Ok(AltaDeColeccion::Nueva { path, label }) && path@ == dbus_api::ruta_de_coleccion(
                    alias@,
                ) && label@ == dbus_api::texto_o(
                    properties@,
                    "org.freedesktop.Secret.Collection.Label"@,
                    alias@,
                )
            },
    {
        let path: String = unir("/org/freedesktop/secrets/collection/", alias);
        if self.collections.contains_key(path.as_str()) {
            return match owned_path_try(path.as_str()) {
                Ok(p) => Ok(AltaDeColeccion::Existente(p)),
                Err(e) => Err(e),
            };
        }
        let label: String = texto_de_propiedad(
            properties,
            "org.freedesktop.Secret.Collection.Label",
            alias,
        );
        Ok(AltaDeColeccion::Nueva { path, label })
    }

    /// The items, in every collection, that have all of the attributes given:
    /// those whose secret can be served now, and those whose secret cannot.
    pub fn search_items(&self, sesion: &Sesion, attributes: &Mapa<String>) -> (r: (Vec<String>, Vec<String>))
        ensures
            dbus_api::rutas(r.0@) == self@.hallados_en(
                sesion@,
                self.orden_de_colecciones(),
                attributes@,
                false,
            ),
            dbus_api::rutas(r.1@) == self@.hallados_en(sesion@, self.orden_de_colecciones(), attributes@, true),
            self.orden_de_colecciones().no_duplicates(),
            self.orden_de_colecciones().to_set() == self@.collections.dom(),
    {
        let n: usize = self.collections.len();
        let ghost orden = self.collections.orden();
        let mut unlocked: Vec<String> = Vec::new();
        let mut locked: Vec<String> = Vec::new();
        let mut i: usize = 0;
        proof {
            assert(dbus_api::rutas(unlocked@) =~= Seq::<Seq<char>>::empty());
            assert(dbus_api::rutas(locked@) =~= Seq::<Seq<char>>::empty());
            assert(orden.take(0) =~= Seq::<Seq<char>>::empty());
        }
        while i < n
            invariant
                i <= n,
                n == orden.len(),
                orden == self.collections.orden(),
                dbus_api::rutas(unlocked@) == self@.hallados_en(
                    sesion@,
                    orden.take(i as int),
                    attributes@,
                    false,
                ),
                dbus_api::rutas(locked@) == self@.hallados_en(
                    sesion@,
                    orden.take(i as int),
                    attributes@,
                    true,
                ),
            decreases n - i,
        {
            let ghost a = dbus_api::rutas(unlocked@);
            let ghost b = dbus_api::rutas(locked@);
            let c: &String = self.collections.clave(i);
            let col: &CollectionInfo = self.collections.valor(i);
            let mut hallados: Vec<String> = self.collection_search_items(c.as_str(), attributes);
            let ghost hs = dbus_api::rutas(hallados@);
            proof {
                assert(orden.take(i + 1).drop_last() =~= orden.take(i as int));
                assert(orden.take(i + 1).last() == c@);
            }
            if sesion.effectively_locked(col.locked) {
                locked.append(&mut hallados);
                assert(dbus_api::rutas(locked@) =~= b + hs);
            } else {
                unlocked.append(&mut hallados);
                assert(dbus_api::rutas(unlocked@) =~= a + hs);
            }
            i += 1;
        }
        assert(orden.take(n as int) =~= orden);
        (unlocked, locked)
    }

    /// The collection that an alias stands for.
    pub fn read_alias(&self, alias: &str) -> (r: Result<String, DbusError>)
        ensures
            match r {
                Ok(p) => self@.coleccion_del_alias(alias@) == Ok::<Seq<char>, ErrorVista>(p@),
                Err(e) => self@.coleccion_del_alias(alias@) == Err::<Seq<char>, ErrorVista>(e@),
            },
    {
        if let Some(path) = self.aliases.get(alias) {
            return owned_path_try(path.as_str());
        }
        let p: String = unir("/org/freedesktop/secrets/collection/", alias);
        if self.collections.contains_key(p.as_str()) {
            owned_path_try(p.as_str())
        } else {
            proof {
                la_raiz_es_valida();
            }
            Ok(owned_path("/"))
        }
    }

    /// Gives an alias to a collection, or takes it away where the collection
    /// given is the root. Gives back the path that has to be published under the
    /// alias, if any.
    pub fn set_alias(&mut self, alias: &str, collection: &str) -> (r: Result<Option<String>, DbusError>)
        requires
            old(self)@.valido(),
        ensures
            final(self)@.valido(),
            match old(self)@.con_alias(alias@, collection@) {
                Ok(w) => final(self)@ == w && (r matches Ok(p) && dbus_api::sesion::vista_de_texto(p) == (
                if collection@ == "/"@ {
                    None
                } else {
                    Some(collection@)
                })),
                Err(m) => final(self)@ == old(self)@ && (r matches Err(e) && e@ == m),
            },
    {
        let ghost v = self@;
        let r: Result<Option<String>, DbusError> = if igual(collection, "/") {
            self.aliases.remove(alias);
            Ok(None)
        } else if self.collections.contains_key(collection) {
            self.aliases.insert(alias.to_owned(), collection.to_owned());
            Ok(Some(collection.to_owned()))
        } else {
            Err(dbus_err("collection not found"))
        };
        proof {
            let w = self@;
            assert forall|c: Seq<char>, q: Seq<char>| #[trigger] w.en(c, q) <==> v.en(c, q) by {}
            assert forall|c: Seq<char>, d: Seq<char>, q: Seq<char>| #[trigger] w.en(c, q) && #[trigger] w.en(
                d,
                q,
            ) implies c == d by {
                assert(v.en(c, q) && v.en(d, q));
            }
            assert forall|a: Seq<char>| #[trigger] w.aliases.contains_key(a) implies w.collections.contains_key(
                w.aliases[a],
            ) by {
                if a != alias@ || igual_a_raiz(collection@) {
                    assert(v.aliases.contains_key(a));
                }
            }
        }
        r
    }

    /// Sets the flag of the collections among some paths, and says which ones
    /// those are.
    fn poner_candado(&mut self, objects: &Vec<String>, locked: bool) -> (r: Vec<String>)
        requires
            old(self)@.valido(),
        ensures
            final(self)@.valido(),
            final(self)@ == old(self)@.con_candado(dbus_api::rutas(objects@), locked),
            dbus_api::rutas(r@) == dbus_api::rutas(objects@).filter(old(self)@.las_que_hay()),
    {
        let ghost v = self@;
        let ghost l = dbus_api::rutas(objects@);
        let ghost f = v.las_que_hay();
        let mut out: Vec<String> = Vec::new();
        let mut i: usize = 0;
        proof {
            reveal(Seq::filter);
            assert(dbus_api::rutas(out@) =~= l.take(0).filter(f));
            assert(v =~= v.con_candado(l.take(0), locked));
            dbus_api::transiciones::con_candado_es_valido(v, l, locked);
        }
        while i < objects.len()
            invariant
                i <= objects@.len(),
                l == dbus_api::rutas(objects@),
                f == v.las_que_hay(),
                self@ == v.con_candado(l.take(i as int), locked),
                dbus_api::rutas(out@) == l.take(i as int).filter(f),
            decreases objects.len() - i,
        {
            let ghost antes = dbus_api::rutas(out@);
            let ghost k = l[i as int];
            let ghost w = self@;
            proof {
                reveal(Seq::filter);
                assert(l.take(i + 1).drop_last() =~= l.take(i as int));
                assert(l.take(i + 1) =~= l.take(i as int).push(k));
                assert forall|x: Seq<char>| #[trigger] l.take(i + 1).contains(x) <==> l.take(i as int).contains(x) || x
                    == k by {
                    if l.take(i as int).contains(x) {
                        let j = l.take(i as int).index_of(x);
                        assert(l.take(i + 1)[j] == x);
                    }
                    assert(l.take(i + 1)[i as int] == k);
                }
            }
            let nueva: Option<CollectionInfo> = match self.collections.get(objects[i].as_str()) {
                Some(col) => Some(
                    CollectionInfo {
                        label: col.label.clone(),
                        locked,
                        items: super::copiada(&col.items),
                        created: col.created,
                        modified: col.modified,
                    },
                ),
                None => None,
            };
            if let Some(col) = nueva {
                self.collections.insert(objects[i].clone(), col);
                out.push(objects[i].clone());
                assert(dbus_api::rutas(out@) =~= antes.push(k));
            }
            i += 1;
            proof {
                assert(self@.collections =~= v.con_candado(l.take(i as int), locked).collections);
                assert(self@ =~= v.con_candado(l.take(i as int), locked));
            }
        }
        assert(l.take(l.len() as int) =~= l);
        out
    }

    /// Unlocks some collections, and says which of the paths given they are.
    /// Nothing can be unlocked while there is no master password: `None` says
    /// that somebody has to be asked for it.
    pub fn unlock(&mut self, sesion: &Sesion, objects: &Vec<String>) -> (r: Option<Vec<String>>)
        requires
            old(self)@.valido(),
        ensures
            final(self)@.valido(),
            match r {
                None => sesion@.vigente() is None && final(self)@ == old(self)@,
                Some(out) => sesion@.vigente() is Some && final(self)@ == old(self)@.con_candado(
                    dbus_api::rutas(objects@),
                    false,
                ) && dbus_api::rutas(out@) == dbus_api::rutas(objects@).filter(old(self)@.las_que_hay()),
            },
    {
        if !sesion.hay_maestra() {
            return None;
        }
        Some(self.poner_candado(objects, false))
    }

    /// Locks some collections, and says which of the paths given they are.
    pub fn lock(&mut self, objects: &Vec<String>) -> (r: Vec<String>)
        requires
            old(self)@.valido(),
        ensures
            final(self)@.valido(),
            final(self)@ == old(self)@.con_candado(dbus_api::rutas(objects@), true),
            dbus_api::rutas(r@) == dbus_api::rutas(objects@).filter(old(self)@.las_que_hay()),
    {
        self.poner_candado(objects, true)
    }

    /// The secrets of some items, ready to be delivered over a session: those
    /// that exist and are in no collection that is locked, and none where the
    /// session does not exist.
    pub fn get_secrets(&self, sesion: &Sesion, items: &Vec<String>, session: &str) -> (r: Result<
        Mapa<SecretStruct>,
        DbusError,
    >)
        requires
            self@.valido(),
        ensures
            r matches Ok(m) && (forall|p: Seq<char>| #[trigger]
                m@.contains_key(p) <==> dbus_api::rutas(items@).contains(p) && self@.negativa_a_entregar(
                    sesion@,
                    p,
                    session@,
                ) is None) && (forall|p: Seq<char>| #[trigger]
                m@.contains_key(p) ==> m@[p].session == session@ && m@[p].content_type
                    == self@.items[p].content_type && dbus_api::item::entregado(
                    self@.sessions[session@],
                    self@.items[p].secret,
                    m@[p].parameters,
                    m@[p].value,
                )),
    {
        let ghost l = dbus_api::rutas(items@);
        let mut m: Mapa<SecretStruct> = Mapa::new();
        let mut i: usize = 0;
        while i < items.len()
            invariant
                i <= items@.len(),
                l == dbus_api::rutas(items@),
                self@.valido(),
                forall|p: Seq<char>| #[trigger]
                    m@.contains_key(p) <==> l.take(i as int).contains(p) && self@.negativa_a_entregar(
                        sesion@,
                        p,
                        session@,
                    ) is None,
                forall|p: Seq<char>| #[trigger]
                    m@.contains_key(p) ==> m@[p].session == session@ && m@[p].content_type
                        == self@.items[p].content_type && dbus_api::item::entregado(
                        self@.sessions[session@],
                        self@.items[p].secret,
                        m@[p].parameters,
                        m@[p].value,
                    ),
            decreases items.len() - i,
        {
            let ghost k = l[i as int];
            proof {
                assert(l.take(i + 1) =~= l.take(i as int).push(k));
                assert forall|x: Seq<char>| #[trigger] l.take(i + 1).contains(x) <==> l.take(i as int).contains(x) || x
                    == k by {
                    if l.take(i as int).contains(x) {
                        let j = l.take(i as int).index_of(x);
                        assert(l.take(i + 1)[j] == x);
                    }
                    assert(l.take(i + 1)[i as int] == k);
                }
            }
            if let Ok(s) = self.get_secret(sesion, items[i].as_str(), session) {
                m.insert(items[i].clone(), s);
            }
            i += 1;
        }
        assert(l.take(l.len() as int) =~= l);
        Ok(m)
    }
}

spec fn igual_a_raiz(s: Seq<char>) -> bool {
    s == "/"@
}

proof fn la_raiz_es_valida()
    ensures
        dbus_api::ruta_valida("/"@),
{
    reveal_strlit("/");
}

/// What opening a session does to the state and answers, for a private value.
pub open spec fn sesion_abierta(
    v: EstadoVista,
    w: EstadoVista,
    algorithm: Seq<char>,
    input: ValorVista,
    privado: nat,
    ahora: u64,
    r: Result<(Vec<u8>, String), DbusError>,
) -> bool {
    if algorithm == PLAIN_ALGORITHM@ {
        &&& r matches Ok(p) && p.0@ == Seq::<u8>::empty() && p.1@ == dbus_api::ruta_de_sesion(v.next_session)
        &&& w == v.con_sesion(SessionVista { algorithm, shared_key: None, created: ahora })
    } else if algorithm == DH_ALGORITHM@ {
        match input {
            ValorVista::Bytes(publico) => {
                let cliente = crate::primitivas::be(publico);
                if session_crypto::publico_admisible(cliente) {
                    &&& r matches Ok(p) && p.0@ == session_crypto::en_bytes(
                        session_crypto::potencia(session_crypto::DH_GENERATOR as nat, privado),
                        session_crypto::DH_BYTES as nat,
                    ) && p.1@ == dbus_api::ruta_de_sesion(v.next_session)
                    &&& w == v.con_sesion(
                        SessionVista {
                            algorithm,
                            shared_key: Some(
                                session_crypto::clave_de_sesion(session_crypto::potencia(cliente, privado)),
                            ),
                            created: ahora,
                        },
                    )
                } else {
                    w == v && (r matches Err(e) && e@ == ErrorVista::InvalidArgs(
                        "client public value is out of range"@,
                    ))
                }
            },
            _ => w == v && (r matches Err(e) && e@ == ErrorVista::Failed("expected byte array"@)),
        }
    } else {
        w == v && (r matches Err(e) && e@ == ErrorVista::NotSupported("unsupported algorithm: "@ + algorithm))
    }
}

} // verus!
