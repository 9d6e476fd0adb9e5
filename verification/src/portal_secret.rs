//! The master secret that each application gets through the portal.
//!
//! It is made at random the first time an application asks, and kept as one more
//! item of the keyring, so that it is the same for as long as it is there. It is
//! handed over only once it was written to disk: an application must not encrypt
//! with a key that is gone after the next start.
use vstd::prelude::*;
use vstd::string::*;

use crate::dbus_api;
use crate::dbus_api::sesion::Sesion;
use crate::dbus_api::{EstadoVista, ItemInfo, ItemVista, KeyringState, COLECCION_DEL_LOGIN};
use crate::mapa::Mapa;
use crate::primitivas::azar_del_hilo;
use crate::texto::{copia_de_bytes, unir};

verus! {

/// The name by which the portal finds this backend.
pub const NOMBRE_BACKEND: &'static str = "org.freedesktop.impl.portal.desktop.vasak-keyring";

/// The path that the backend is published at.
pub const RUTA_BACKEND: &'static str = "/org/freedesktop/portal/desktop";

/// The version of the interface.
pub const VERSION: u32 = 1;

/// The portal's answer for a request that went well.
pub const RESPUESTA_OK: u32 = 0;

/// The portal's answer for any failure that is not a cancellation.
pub const RESPUESTA_FALLO: u32 = 2;

/// The attribute by which these secrets are marked.
pub const ESQUEMA_PORTAL: &'static str = "org.freedesktop.portal.Secret";

/// How many bytes a master secret has.
pub const LARGO_SECRETO_PORTAL: usize = 64;

/// The attributes of the master secret of an application.
pub open spec fn atributos_de(app_id: Seq<char>) -> Map<Seq<char>, Seq<char>> {
    Map::<Seq<char>, Seq<char>>::empty().insert("xdg:schema"@, ESQUEMA_PORTAL@).insert("app_id"@, app_id)
}

fn atributos(app_id: &str) -> (m: Mapa<String>)
    ensures
        m@ == atributos_de(app_id@),
{
    let mut m: Mapa<String> = Mapa::new();
    m.insert("xdg:schema".to_owned(), ESQUEMA_PORTAL.to_owned());
    m.insert("app_id".to_owned(), app_id.to_owned());
    m
}

/// Each application has attributes of its own.
pub proof fn cada_aplicacion_tiene_los_suyos(a: Seq<char>, b: Seq<char>)
    requires
        atributos_de(a) == atributos_de(b),
    ensures
        a == b,
{
    assert(atributos_de(a)["app_id"@] == a);
    assert(atributos_de(b)["app_id"@] == b);
}

impl EstadoVista {
    /// Whether some item has exactly the given attributes.
    pub open spec fn hay_con(self, atributos: Map<Seq<char>, Seq<char>>) -> bool {
        exists|p: Seq<char>| #[trigger] self.con_atributos(p, atributos)
    }

    /// Whether a secret is that of an item with exactly the given attributes.
    pub open spec fn es_secreto_de(self, secreto: Seq<u8>, atributos: Map<Seq<char>, Seq<char>>) -> bool {
        exists|p: Seq<char>| #[trigger]
            self.con_atributos(p, atributos) && self.items[p].secret == secreto
    }
}

/// The item that keeps the master secret of an application.
pub open spec fn item_del_portal(app_id: Seq<char>, secreto: Seq<u8>, ahora: u64) -> ItemVista {
    ItemVista {
        label: "Secreto de "@ + app_id,
        attributes: atributos_de(app_id),
        secret: secreto,
        content_type: "application/octet-stream"@,
        created: ahora,
        modified: ahora,
    }
}

/// Why an application gets no secret, if it gets none.
pub open spec fn negativa(sesion: dbus_api::sesion::SesionVista, app_id: Seq<char>) -> Option<Seq<char>> {
    if app_id.len() == 0 {
        Some("la aplicación no tiene identificador"@)
    } else {
        sesion.impedimento()
    }
}

/// What a request for a master secret comes to.
pub enum SecretoDeApp {
    /// It was there already.
    Guardado(Vec<u8>),
    /// It was made now: the item at this path has to reach the disk before the
    /// secret is handed over.
    Nuevo { ruta: String, secreto: Vec<u8> },
}

impl KeyringState {
    /// The secret of an item with exactly the given attributes: of the first one,
    /// in walking order.
    pub fn buscar_secreto(&self, atributos: &Mapa<String>) -> (r: Option<Vec<u8>>)
        ensures
            match r {
                Some(s) => self@.es_secreto_de(s@, atributos@) && exists|i: int|
                    0 <= i < self.orden_de_items().len() && self@.con_atributos(
                        #[trigger] self.orden_de_items()[i],
                        atributos@,
                    ) && s@ == self@.items[self.orden_de_items()[i]].secret && forall|j: int|
                        0 <= j < i ==> !self@.con_atributos(#[trigger] self.orden_de_items()[j], atributos@),
                None => !self@.hay_con(atributos@),
            },
    {
        let foto: Vec<ItemInfo> = self.fotografia();
        let ghost orden = self.orden_de_items();
        let mut i: usize = 0;
        while i < foto.len()
            invariant
                i <= foto@.len(),
                foto@.len() == orden.len(),
                orden == self.orden_de_items(),
                orden.to_set() == self@.items.dom(),
                forall|j: int| 0 <= j < foto@.len() ==> (#[trigger] foto@[j])@ == self@.items[orden[j]],
                forall|j: int| 0 <= j < i ==> !self@.con_atributos(#[trigger] orden[j], atributos@),
            decreases foto.len() - i,
        {
            proof {
                assert(orden.to_set().contains(orden[i as int])) by {
                    assert(orden.contains(orden[i as int]));
                }
                assert(foto@[i as int]@ == self@.items[orden[i as int]]);
            }
            if foto[i].attributes.igual_a(atributos) {
                assert(self@.con_atributos(orden[i as int], atributos@));
                return Some(copia_de_bytes(foto[i].secret.as_slice()));
            }
            assert(!self@.con_atributos(orden[i as int], atributos@));
            i += 1;
        }
        proof {
            assert forall|p: Seq<char>| !(#[trigger] self@.con_atributos(p, atributos@)) by {
                if self@.con_atributos(p, atributos@) {
                    assert(orden.to_set().contains(p));
                    let j = orden.index_of(p);
                    assert(orden[j] == p);
                }
            }
        }
        None
    }

    /// The master secret of an application where there is one, or why it gets
    /// none.
    fn secreto_existente(&self, sesion: &Sesion, app_id: &str) -> (r: Result<Option<Vec<u8>>, String>)
        ensures
            match r {
                Err(e) => negativa(sesion@, app_id@) == Some(e@),
                Ok(Some(s)) => negativa(sesion@, app_id@) is None && self@.es_secreto_de(
                    s@,
                    atributos_de(app_id@),
                ),
                Ok(None) => negativa(sesion@, app_id@) is None && !self@.hay_con(atributos_de(app_id@)),
            },
    {
        if app_id.is_empty() {
            return Err("la aplicación no tiene identificador".to_owned());
        }
        if let Err(motivo) = sesion.ensure_unlocked() {
            return Err(motivo);
        }
        Ok(self.buscar_secreto(&atributos(app_id)))
    }

    /// Puts a new master secret in.
    fn nuevo_secreto(&mut self, app_id: &str, azar: Vec<u8>, ahora: u64) -> (r: SecretoDeApp)
        requires
            old(self)@.valido(),
            old(self)@.next_item < u64::MAX,
            azar@.len() == LARGO_SECRETO_PORTAL,
        ensures
            final(self)@.valido(),
            final(self)@ == old(self)@.con_item(
                COLECCION_DEL_LOGIN@,
                item_del_portal(app_id@, azar@, ahora),
                ahora,
            ),
            r matches SecretoDeApp::Nuevo { ruta, secreto } && secreto@ == azar@ && ruta@
                == dbus_api::ruta_de_item(COLECCION_DEL_LOGIN@, old(self)@.next_item) && !old(
                self,
            )@.items.contains_key(ruta@),
    {
        let secreto: Vec<u8> = copia_de_bytes(azar.as_slice());
        let info: ItemInfo = ItemInfo {
            label: unir("Secreto de ", app_id),
            attributes: atributos(app_id),
            secret: azar,
            content_type: "application/octet-stream".to_owned(),
            created: ahora,
            modified: ahora,
        };
        let ruta: String = self.agregar_item(COLECCION_DEL_LOGIN, info, ahora);
        SecretoDeApp::Nuevo { ruta, secreto }
    }

    /// The master secret of an application, with the bytes given for one that
    /// has to be made. The one that is there is given back and nothing changes;
    /// otherwise there is a new item in the login collection.
    pub fn secreto_maestro_de_app_con(
        &mut self,
        sesion: &Sesion,
        app_id: &str,
        azar: Vec<u8>,
        ahora: u64,
    ) -> (r: Result<SecretoDeApp, String>)
        requires
            old(self)@.valido(),
            old(self)@.next_item < u64::MAX,
            azar@.len() == LARGO_SECRETO_PORTAL,
        ensures
            final(self)@.valido(),
            pedido(old(self)@, final(self)@, sesion@, app_id@, azar@, ahora, r),
    {
        match self.secreto_existente(sesion, app_id) {
            Err(e) => Err(e),
            Ok(Some(s)) => Ok(SecretoDeApp::Guardado(s)),
            Ok(None) => Ok(self.nuevo_secreto(app_id, azar, ahora)),
        }
    }

    /// The master secret of an application, made at random the first time.
    pub fn secreto_maestro_de_app(&mut self, sesion: &Sesion, app_id: &str, ahora: u64) -> (r: Result<
        SecretoDeApp,
        String,
    >)
        requires
            old(self)@.valido(),
            old(self)@.next_item < u64::MAX,
        ensures
            final(self)@.valido(),
            exists|azar: Seq<u8>|
                azar.len() == LARGO_SECRETO_PORTAL && #[trigger] pedido(
                    old(self)@,
                    final(self)@,
                    sesion@,
                    app_id@,
                    azar,
                    ahora,
                    r,
                ),
    {
        let ghost v = self@;
        match self.secreto_existente(sesion, app_id) {
            Err(e) => {
                let r: Result<SecretoDeApp, String> = Err(e);
                assert(pedido(v, self@, sesion@, app_id@, Seq::new(64, |i: int| 0u8), ahora, r));
                r
            },
            Ok(Some(s)) => {
                let r: Result<SecretoDeApp, String> = Ok(SecretoDeApp::Guardado(s));
                assert(pedido(v, self@, sesion@, app_id@, Seq::new(64, |i: int| 0u8), ahora, r));
                r
            },
            Ok(None) => {
                let azar: Vec<u8> = azar_del_hilo(LARGO_SECRETO_PORTAL);
                let ghost bytes = azar@;
                let r: Result<SecretoDeApp, String> = Ok(self.nuevo_secreto(app_id, azar, ahora));
                assert(pedido(v, self@, sesion@, app_id@, bytes, ahora, r));
                r
            },
        }
    }

    /// Hands over a secret that was just made, once it is known whether it
    /// reached the disk. Where it did not it is undone: left in memory, the next
    /// request would hand it over without trying to write again.
    pub fn tras_guardar_secreto(&mut self, ruta: &str, secreto: Vec<u8>, guardado: Result<(), String>) -> (r: Result<
        Vec<u8>,
        String,
    >)
        requires
            old(self)@.valido(),
        ensures
            final(self)@.valido(),
            match guardado {
                Ok(_) => r matches Ok(s) && s@ == secreto@ && final(self)@ == old(self)@,
                Err(e) => r matches Err(f) && f@ == e@ && final(self)@ == old(self)@.sin_item(ruta@),
            },
    {
        match guardado {
            Ok(_) => Ok(secreto),
            Err(e) => {
                self.item_delete(ruta);
                Err(e)
            },
        }
    }
}

/// What a request for a master secret does to the state and answers, with the
/// bytes given for one that has to be made.
pub open spec fn pedido(
    v: EstadoVista,
    w: EstadoVista,
    sesion: dbus_api::sesion::SesionVista,
    app_id: Seq<char>,
    azar: Seq<u8>,
    ahora: u64,
    r: Result<SecretoDeApp, String>,
) -> bool {
    match negativa(sesion, app_id) {
        Some(m) => w == v && (r matches Err(e) && e@ == m),
        None => if v.hay_con(atributos_de(app_id)) {
            w == v && (r matches Ok(SecretoDeApp::Guardado(s)) && v.es_secreto_de(s@, atributos_de(app_id)))
        } else {
            &&& w == v.con_item(COLECCION_DEL_LOGIN@, item_del_portal(app_id, azar, ahora), ahora)
            &&& r matches Ok(SecretoDeApp::Nuevo { ruta, secreto }) && secreto@ == azar && ruta@
                == dbus_api::ruta_de_item(COLECCION_DEL_LOGIN@, v.next_item) && !v.items.contains_key(ruta@)
        },
    }
}

/// The secret of an application is only one: where none of its items is there,
/// once it is made every later request gives that same secret, and changes
/// nothing.
pub proof fn el_secreto_es_unico_y_estable(
    v: EstadoVista,
    sesion: dbus_api::sesion::SesionVista,
    app_id: Seq<char>,
    azar: Seq<u8>,
    ahora: u64,
    otro_azar: Seq<u8>,
    despues: u64,
    x: EstadoVista,
    r: Result<SecretoDeApp, String>,
)
    requires
        v.valido(),
        negativa(sesion, app_id) is None,
        !v.hay_con(atributos_de(app_id)),
        pedido(
            v.con_item(COLECCION_DEL_LOGIN@, item_del_portal(app_id, azar, ahora), ahora),
            x,
            sesion,
            app_id,
            otro_azar,
            despues,
            r,
        ),
    ensures
        x == v.con_item(COLECCION_DEL_LOGIN@, item_del_portal(app_id, azar, ahora), ahora),
        r matches Ok(SecretoDeApp::Guardado(s)) && s@ == azar,
{
    let w = v.con_item(COLECCION_DEL_LOGIN@, item_del_portal(app_id, azar, ahora), ahora);
    let p = dbus_api::ruta_de_item(COLECCION_DEL_LOGIN@, v.next_item);
    dbus_api::un_numero_sin_usar_es_nuevo(v, COLECCION_DEL_LOGIN@, v.next_item);
    assert(w.con_atributos(p, atributos_de(app_id)));
    assert forall|q: Seq<char>| #[trigger] w.con_atributos(q, atributos_de(app_id)) implies q == p by {
        if q != p {
            assert(v.con_atributos(q, atributos_de(app_id)));
        }
    }
}

/// Whatever else the keyring holds, an application that has a secret gets that
/// secret: where some item has exactly its attributes, a request changes nothing
/// and answers with the secret of an item that has them. So it does after any
/// other calls, for as long as such an item is there.
pub proof fn quien_tiene_secreto_lo_recibe(
    v: EstadoVista,
    w: EstadoVista,
    sesion: dbus_api::sesion::SesionVista,
    app_id: Seq<char>,
    azar: Seq<u8>,
    ahora: u64,
    r: Result<SecretoDeApp, String>,
    p: Seq<char>,
)
    requires
        app_id.len() > 0,
        sesion.bloqueo is None,
        sesion.maestra is Some || sesion.entorno is Some,
        v.items.contains_key(p),
        v.items[p].attributes == map!["xdg:schema"@ => "org.freedesktop.portal.Secret"@, "app_id"@ => app_id],
        pedido(v, w, sesion, app_id, azar, ahora, r),
    ensures
        w == v,
        r matches Ok(SecretoDeApp::Guardado(s)) && exists|q: Seq<char>| #[trigger]
            v.items.contains_key(q) && v.items[q].attributes == v.items[p].attributes && v.items[q].secret == s@,
        (forall|q: Seq<char>| #[trigger]
            v.items.contains_key(q) && v.items[q].attributes == v.items[p].attributes ==> q == p) ==> (
        r matches Ok(SecretoDeApp::Guardado(s)) && s@ == v.items[p].secret),
{
    los_atributos_son_dos(app_id);
    assert(v.con_atributos(p, atributos_de(app_id)));
    let s = r->Ok_0->Guardado_0;
    let q = choose|q: Seq<char>| #[trigger]
        v.con_atributos(q, atributos_de(app_id)) && v.items[q].secret == s@;
    assert(v.items.contains_key(q));
}

/// The attributes of the secret of an application are its identifier and the mark
/// of the portal, and no others.
pub proof fn los_atributos_son_dos(app_id: Seq<char>)
    ensures
        atributos_de(app_id) == map!["xdg:schema"@ => "org.freedesktop.portal.Secret"@, "app_id"@ => app_id],
        atributos_de(app_id)["app_id"@] == app_id,
        atributos_de(app_id)["xdg:schema"@] == "org.freedesktop.portal.Secret"@,
{
    reveal_strlit("app_id");
    reveal_strlit("xdg:schema");
    assert("app_id"@.len() != "xdg:schema"@.len());
    assert(atributos_de(app_id) =~= map![
        "xdg:schema"@ => "org.freedesktop.portal.Secret"@,
        "app_id"@ => app_id
    ]);
}

/// An application that has no secret gets a new one, of the bytes drawn for it: it
/// is an item of the login collection with the attributes of the application, and
/// every item that was there stays as it was. A request that is refused changes
/// nothing: one without an identifier, or while nothing may be stored.
pub proof fn quien_no_tiene_recibe_uno_nuevo(
    v: EstadoVista,
    w: EstadoVista,
    sesion: dbus_api::sesion::SesionVista,
    app_id: Seq<char>,
    azar: Seq<u8>,
    ahora: u64,
    r: Result<SecretoDeApp, String>,
)
    requires
        v.valido(),
        pedido(v, w, sesion, app_id, azar, ahora, r),
    ensures
        r is Err <==> app_id.len() == 0 || sesion.bloqueo is Some || (sesion.maestra is None && sesion.entorno is None),
        r is Err ==> w == v,
        r matches Ok(SecretoDeApp::Nuevo { ruta, secreto }) ==> {
            &&& forall|q: Seq<char>| #[trigger]
                v.items.contains_key(q) ==> v.items[q].attributes
                    != map!["xdg:schema"@ => "org.freedesktop.portal.Secret"@, "app_id"@ => app_id]
            &&& secreto@ == azar
            &&& !v.items.contains_key(ruta@)
            &&& w.items.contains_key(ruta@)
            &&& w.items[ruta@].secret == azar
            &&& w.items[ruta@].attributes
                == map!["xdg:schema"@ => "org.freedesktop.portal.Secret"@, "app_id"@ => app_id]
            &&& w.items[ruta@].label == "Secreto de "@ + app_id
            &&& w.items[ruta@].content_type == "application/octet-stream"@
            &&& w.items[ruta@].created == ahora && w.items[ruta@].modified == ahora
            &&& forall|q: Seq<char>| q != ruta@ ==> (#[trigger] w.items.contains_key(q) <==> v.items.contains_key(q))
            &&& forall|q: Seq<char>| v.items.contains_key(q) ==> #[trigger] w.items[q] == v.items[q]
            &&& v.collections.contains_key(COLECCION_DEL_LOGIN@) ==> w.collections[COLECCION_DEL_LOGIN@].items
                == v.collections[COLECCION_DEL_LOGIN@].items.push(ruta@) && w.collections[COLECCION_DEL_LOGIN@].locked
                == v.collections[COLECCION_DEL_LOGIN@].locked && w.collections[COLECCION_DEL_LOGIN@].label
                == v.collections[COLECCION_DEL_LOGIN@].label && w.collections[COLECCION_DEL_LOGIN@].created
                == v.collections[COLECCION_DEL_LOGIN@].created && w.collections[COLECCION_DEL_LOGIN@].modified == ahora
            &&& w.next_item == v.next_item + 1
            &&& w.next_session == v.next_session
            &&& forall|c: Seq<char>| #[trigger] w.collections.contains_key(c) <==> v.collections.contains_key(c)
            &&& forall|c: Seq<char>| c != COLECCION_DEL_LOGIN@ && v.collections.contains_key(c)
                ==> #[trigger] w.collections[c] == v.collections[c]
            &&& w.sessions == v.sessions
            &&& w.aliases == v.aliases
        },
{
    los_atributos_son_dos(app_id);
    dbus_api::un_numero_sin_usar_es_nuevo(v, COLECCION_DEL_LOGIN@, v.next_item);
    if r matches Ok(SecretoDeApp::Nuevo { .. }) {
        assert forall|q: Seq<char>| #[trigger] v.items.contains_key(q) implies v.items[q].attributes != atributos_de(
            app_id,
        ) by {
            assert(!v.con_atributos(q, atributos_de(app_id)));
        }
    }
}

/// The secret of an application outlives a restart: once everything was written
/// and the collection loaded again from what was written, an item with the same
/// attributes and the same secret is there, so the next request answers with it.
pub proof fn el_secreto_sobrevive_a_una_recarga(
    v: EstadoVista,
    nueva: EstadoVista,
    p: Seq<char>,
    orden: Seq<Seq<char>>,
    c: Seq<char>,
    ahora: u64,
)
    requires
        v.items.contains_key(p),
        orden.to_set() == v.items.dom(),
        nueva.valido(),
    ensures
        ({
            let escrito = Seq::new(orden.len(), |i: int| dbus_api::disco::guardado(v.items[orden[i]]));
            let w = nueva.recargada(c, dbus_api::disco::cargados(escrito, ahora), ahora);
            exists|q: Seq<char>| #[trigger]
                w.items.contains_key(q) && w.items[q].attributes == v.items[p].attributes && w.items[q].secret
                    == v.items[p].secret
        }),
{
    let escrito = Seq::new(orden.len(), |i: int| dbus_api::disco::guardado(v.items[orden[i]]));
    let cargados = dbus_api::disco::cargados(escrito, ahora);
    let w = nueva.recargada(c, cargados, ahora);
    dbus_api::efectos::recargar_no_toca_el_candado(nueva, c, cargados, ahora);
    assert(orden.to_set().contains(p));
    let j = orden.index_of(p);
    let q = w.collections[c].items[j];
    assert(w.items.contains_key(q));
    assert(w.items[q] == cargados[j]);
}

/// A secret that did not reach the disk leaves no trace: the items and their
/// lists are as they were before it was made, so the next request makes another.
pub proof fn lo_deshecho_no_deja_rastro(v: EstadoVista, app_id: Seq<char>, azar: Seq<u8>, ahora: u64)
    requires
        v.valido(),
        dbus_api::cabe(azar.len()),
        !v.hay_con(atributos_de(app_id)),
    ensures
        ({
            let w = v.con_item(COLECCION_DEL_LOGIN@, item_del_portal(app_id, azar, ahora), ahora).sin_item(
                dbus_api::ruta_de_item(COLECCION_DEL_LOGIN@, v.next_item),
            );
            &&& w.items == v.items
            &&& forall|c: Seq<char>| w.lista(c) == v.lista(c)
            &&& !w.hay_con(atributos_de(app_id))
        }),
{
    let c0 = COLECCION_DEL_LOGIN@;
    let item = item_del_portal(app_id, azar, ahora);
    let p = dbus_api::ruta_de_item(c0, v.next_item);
    let u = v.con_item(c0, item, ahora);
    let w = u.sin_item(p);
    dbus_api::transiciones::con_item_es_valido(v, c0, item, ahora);
    assert(w.items =~= v.items);
    if v.collections.contains_key(c0) {
        let l = v.collections[c0].items;
        assert(l.push(p)[l.len() as int] == p);
        assert(u.en(c0, p));
        dbus_api::transiciones::una_sola_duena(u, c0, p);
        assert(!l.contains(p)) by {
            if l.contains(p) {
                assert(v.en(c0, p));
            }
        }
        crate::mapa::sin_la_agregada(l, p);
    } else {
        assert forall|c: Seq<char>| !u.en(c, p) by {
            if u.en(c, p) {
                assert(v.en(c, p));
            }
        }
    }
    assert forall|c: Seq<char>| w.lista(c) == v.lista(c) by {}
    assert forall|q: Seq<char>| !(#[trigger] w.con_atributos(q, atributos_de(app_id))) by {
        assert(!v.con_atributos(q, atributos_de(app_id)));
    }
}

/// What is answered to the portal: well only where there was a secret and it was
/// written where the application reads it.
pub fn respuesta_del_portal(hubo_secreto: bool, se_escribio: bool) -> (r: u32)
    ensures
        r == if hubo_secreto && se_escribio {
            RESPUESTA_OK
        } else {
            RESPUESTA_FALLO
        },
{
    if hubo_secreto && se_escribio {
        RESPUESTA_OK
    } else {
        RESPUESTA_FALLO
    }
}

/// An item with given attributes is looked for by all of its attributes, each with
/// its value, and what is found is its secret.
pub proof fn se_busca_por_los_atributos_exactos(
    v: EstadoVista,
    atributos: Map<Seq<char>, Seq<char>>,
    secreto: Seq<u8>,
)
    ensures
        v.hay_con(atributos) <==> exists|p: Seq<char>| #[trigger]
            v.items.contains_key(p) && v.items[p].attributes == atributos,
        v.es_secreto_de(secreto, atributos) <==> exists|p: Seq<char>| #[trigger]
            v.items.contains_key(p) && v.items[p].attributes == atributos && v.items[p].secret == secreto,
{
    if v.hay_con(atributos) {
        let p = choose|p: Seq<char>| #[trigger] v.con_atributos(p, atributos);
        assert(v.items.contains_key(p));
    }
    if exists|p: Seq<char>| #[trigger] v.items.contains_key(p) && v.items[p].attributes == atributos {
        let p = choose|p: Seq<char>| #[trigger] v.items.contains_key(p) && v.items[p].attributes == atributos;
        assert(v.con_atributos(p, atributos));
    }
    if v.es_secreto_de(secreto, atributos) {
        let p = choose|p: Seq<char>| #[trigger] v.con_atributos(p, atributos) && v.items[p].secret == secreto;
        assert(v.items.contains_key(p));
    }
    if exists|p: Seq<char>| #[trigger]
        v.items.contains_key(p) && v.items[p].attributes == atributos && v.items[p].secret == secreto {
        let p = choose|p: Seq<char>| #[trigger]
            v.items.contains_key(p) && v.items[p].attributes == atributos && v.items[p].secret == secreto;
        assert(v.con_atributos(p, atributos));
    }
}

} // verus!
