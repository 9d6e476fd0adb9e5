//! The calls on an item.
use vstd::prelude::*;
use vstd::string::*;

use super::sesion::Sesion;
use super::{dbus_err, DbusError, ErrorVista, EstadoVista, ItemInfo, ItemVista, KeyringState, SecretStruct, SessionVista};
use crate::dbus_api;
use crate::mapa::Mapa;

verus! {

impl EstadoVista {
    /// Whether an item is in a collection that serves no secrets now.
    pub open spec fn item_cerrado(self, sesion: dbus_api::sesion::SesionVista, item: Seq<char>) -> bool {
        self.duena(item) matches Some(c) && sesion.cerrada(self.collections[c].locked)
    }

    /// Why the secret of an item is not delivered over a session, if it is not.
    pub open spec fn negativa_a_entregar(
        self,
        sesion: dbus_api::sesion::SesionVista,
        item: Seq<char>,
        session: Seq<char>,
    ) -> Option<Seq<char>> {
        if self.item_cerrado(sesion, item) {
            Some("collection is locked"@)
        } else if !self.items.contains_key(item) {
            Some("item not found"@)
        } else if !self.sessions.contains_key(session) {
            Some("session not found"@)
        } else {
            None
        }
    }

    /// What a secret that a client sent stands for, or why it stands for
    /// nothing.
    pub open spec fn secreto_recibido(self, secret: dbus_api::SecretVista) -> Result<Seq<u8>, ErrorVista> {
        if !self.sessions.contains_key(secret.session) {
            Err(ErrorVista::Failed("session not found"@))
        } else {
            self.sessions[secret.session].recibido(secret.parameters, secret.value)
        }
    }

    /// Why the secret of an item is not changed, if it is not; the new one
    /// otherwise.
    pub open spec fn secreto_nuevo(
        self,
        sesion: dbus_api::sesion::SesionVista,
        item: Seq<char>,
        secret: dbus_api::SecretVista,
    ) -> Result<Seq<u8>, ErrorVista> {
        match sesion.impedimento() {
            Some(motivo) => Err(ErrorVista::Failed(motivo)),
            None => match self.secreto_recibido(secret) {
                Err(e) => Err(e),
                Ok(texto) => if self.items.contains_key(item) {
                    Ok(texto)
                } else {
                    Err(ErrorVista::Failed("item not found"@))
                },
            },
        }
    }

    /// The state with another secret in an item.
    pub open spec fn con_secreto(
        self,
        item: Seq<char>,
        secreto: Seq<u8>,
        content_type: Seq<char>,
        ahora: u64,
    ) -> EstadoVista {
        EstadoVista {
            items: self.items.insert(
                item,
                ItemVista { secret: secreto, content_type, modified: ahora, ..self.items[item] },
            ),
            ..self
        }
    }
}

/// Whether some parameters and a value deliver a secret over a session: as it is
/// where the session does not encrypt, and encrypted under the parameters where
/// it does. Either way the client receives the secret.
pub open spec fn entregado(sesion: SessionVista, secreto: Seq<u8>, parameters: Seq<u8>, value: Seq<u8>) -> bool {
    &&& match sesion.shared_key {
        None => parameters == Seq::<u8>::empty() && value == secreto,
        Some(clave) => parameters.len() == 16 && value == crate::primitivas::cbc_cifrado(
            clave,
            parameters,
            secreto,
        ),
    }
    &&& sesion.recibido(parameters, value) == Ok::<Seq<u8>, ErrorVista>(secreto)
}

pub proof fn con_secreto_es_valido(
    v: EstadoVista,
    item: Seq<char>,
    secreto: Seq<u8>,
    content_type: Seq<char>,
    ahora: u64,
)
    requires
        v.valido(),
        v.items.contains_key(item),
        dbus_api::cabe(secreto.len()),
    ensures
        v.con_secreto(item, secreto, content_type, ahora).valido(),
{
    let w = v.con_secreto(item, secreto, content_type, ahora);
    assert forall|c: Seq<char>, q: Seq<char>| #[trigger] w.en(c, q) <==> v.en(c, q) by {}
    assert forall|c: Seq<char>, d: Seq<char>, q: Seq<char>| #[trigger] w.en(c, q) && #[trigger] w.en(d, q) implies c
        == d by {
        assert(v.en(c, q) && v.en(d, q));
    }
    assert forall|q: Seq<char>| #[trigger] w.items.contains_key(q) implies exists|id: nat|
        id < w.next_item && #[trigger] dbus_api::termina_en(q, id) by {
        assert(v.items.contains_key(q));
    }
    assert forall|q: Seq<char>| #[trigger] w.items.contains_key(q) implies dbus_api::cabe(w.items[q].secret.len()) by {
        assert(v.items.contains_key(q));
    }
}

impl KeyringState {
    /// An item, or the error of one that does not exist.
    fn item(&self, path: &str) -> (r: Result<&ItemInfo, DbusError>)
        ensures
            match r {
                Ok(i) => self@.items.contains_key(path@) && i@ == self@.items[path@],
                Err(e) => !self@.items.contains_key(path@) && e@ == ErrorVista::Failed("item not found"@),
            },
    {
        match self.items.get(path) {
            Some(i) => Ok(i),
            None => Err(dbus_err("item not found")),
        }
    }

    /// The label of an item.
    pub fn item_label(&self, path: &str) -> (r: Result<String, DbusError>)
        ensures
            match r {
                Ok(s) => self@.items.contains_key(path@) && s@ == self@.items[path@].label,
                Err(e) => !self@.items.contains_key(path@) && e@ == ErrorVista::Failed("item not found"@),
            },
    {
        match self.item(path) {
            Ok(i) => Ok(i.label.clone()),
            Err(e) => Err(e),
        }
    }

    /// The attributes of an item.
    pub fn item_attributes(&self, path: &str) -> (r: Result<Mapa<String>, DbusError>)
        ensures
            match r {
                Ok(m) => self@.items.contains_key(path@) && m@ == self@.items[path@].attributes,
                Err(e) => !self@.items.contains_key(path@) && e@ == ErrorVista::Failed("item not found"@),
            },
    {
        match self.item(path) {
            Ok(i) => Ok(i.attributes.clone()),
            Err(e) => Err(e),
        }
    }

    /// When an item was created.
    pub fn item_created(&self, path: &str) -> (r: Result<u64, DbusError>)
        ensures
            match r {
                Ok(t) => self@.items.contains_key(path@) && t == self@.items[path@].created,
                Err(e) => !self@.items.contains_key(path@) && e@ == ErrorVista::Failed("item not found"@),
            },
    {
        match self.item(path) {
            Ok(i) => Ok(i.created),
            Err(e) => Err(e),
        }
    }

    /// When an item was last changed.
    pub fn item_modified(&self, path: &str) -> (r: Result<u64, DbusError>)
        ensures
            match r {
                Ok(t) => self@.items.contains_key(path@) && t == self@.items[path@].modified,
                Err(e) => !self@.items.contains_key(path@) && e@ == ErrorVista::Failed("item not found"@),
            },
    {
        match self.item(path) {
            Ok(i) => Ok(i.modified),
            Err(e) => Err(e),
        }
    }

    /// Whether an item serves no secret now: it goes by its collection, or by the
    /// session alone where it is in none.
    pub fn item_locked(&self, sesion: &Sesion, path: &str) -> (r: bool)
        requires
            self@.valido(),
        ensures
            r == sesion@.cerrada(
                match self@.duena(path@) {
                    Some(c) => self@.collections[c].locked,
                    None => false,
                },
            ),
    {
        match self.coleccion_de(path) {
            Some(c) => {
                proof {
                    assert(self@.en(c@, path@));
                }
                match self.collections.get(c.as_str()) {
                    Some(col) => sesion.effectively_locked(col.locked),
                    None => sesion.effectively_locked(false),
                }
            },
            None => sesion.effectively_locked(false),
        }
    }

    /// Whether an item is in a collection that serves no secrets now.
    fn en_coleccion_cerrada(&self, sesion: &Sesion, path: &str) -> (r: bool)
        requires
            self@.valido(),
        ensures
            r == self@.item_cerrado(sesion@, path@),
    {
        match self.coleccion_de(path) {
            Some(_) => self.item_locked(sesion, path),
            None => false,
        }
    }

    /// The secret of an item, ready to be delivered over a session. A secret
    /// never leaves a collection that is locked.
    pub fn get_secret(&self, sesion: &Sesion, path: &str, session: &str) -> (r: Result<SecretStruct, DbusError>)
        requires
            self@.valido(),
        ensures
            match r {
                Ok(s) => self@.negativa_a_entregar(sesion@, path@, session@) is None && s.session@ == session@
                    && s.content_type@ == self@.items[path@].content_type && entregado(
                    self@.sessions[session@],
                    self@.items[path@].secret,
                    s.parameters@,
                    s.value@,
                ),
                Err(e) => self@.negativa_a_entregar(sesion@, path@, session@) matches Some(m) && e@
                    == ErrorVista::Failed(m),
            },
    {
        if self.en_coleccion_cerrada(sesion, path) {
            return Err(dbus_err("collection is locked"));
        }
        let item: &ItemInfo = match self.item(path) {
            Ok(i) => i,
            Err(e) => {
                return Err(e);
            },
        };
        match self.sessions.get(session) {
            Some(ses) => match ses.encode(item.secret.as_slice()) {
                Ok((parameters, value)) => Ok(
                    SecretStruct {
                        session: session.to_owned(),
                        parameters,
                        value,
                        content_type: item.content_type.clone(),
                    },
                ),
                Err(e) => Err(e),
            },
            None => Err(dbus_err("session not found")),
        }
    }

    /// Changes the secret of an item, and says which collection it is in. A
    /// refused change leaves everything as it was.
    pub fn set_secret(&mut self, sesion: &Sesion, path: &str, secret: SecretStruct, ahora: u64) -> (r: Result<
        Option<String>,
        DbusError,
    >)
        requires
            old(self)@.valido(),
            dbus_api::cabe(secret.value@.len()),
        ensures
            final(self)@.valido(),
            match old(self)@.secreto_nuevo(sesion@, path@, secret@) {
                Ok(texto) => r matches Ok(c) && dbus_api::sesion::vista_de_texto(c) == old(self)@.duena(path@)
                    && final(self)@ == old(self)@.con_secreto(path@, texto, secret.content_type@, ahora),
                Err(m) => r matches Err(e) && e@ == m && final(self)@ == old(self)@,
            },
    {
        if let Err(motivo) = sesion.ensure_unlocked() {
            return Err(DbusError::Failed(motivo));
        }
        let SecretStruct { session, parameters, value, content_type } = secret;
        let plaintext: Vec<u8> = match self.sessions.get(session.as_str()) {
            Some(ses) => match ses.decode(parameters.as_slice(), value) {
                Ok(t) => t,
                Err(e) => {
                    return Err(e);
                },
            },
            None => {
                return Err(dbus_err("session not found"));
            },
        };
        let ghost v = self@;
        let nuevo: ItemInfo = match self.item(path) {
            Ok(i) => {
                proof {
                    con_secreto_es_valido(v, path@, plaintext@, content_type@, ahora);
                }
                ItemInfo {
                    label: i.label.clone(),
                    attributes: i.attributes.clone(),
                    secret: plaintext,
                    content_type,
                    created: i.created,
                    modified: ahora,
                }
            },
            Err(e) => {
                return Err(e);
            },
        };
        let duena: Option<String> = self.coleccion_de(path);
        self.items.insert(path.to_owned(), nuevo);
        Ok(duena)
    }

    /// Deletes an item, and says which collection it was in.
    pub fn item_delete(&mut self, path: &str) -> (r: Option<String>)
        requires
            old(self)@.valido(),
        ensures
            final(self)@.valido(),
            final(self)@ == old(self)@.sin_item(path@),
            dbus_api::sesion::vista_de_texto(r) == old(self)@.duena(path@),
    {
        proof {
            dbus_api::transiciones::sin_item_es_valido(self@, path@);
        }
        let duena: Option<String> = self.desalojar(path);
        self.items.remove(path);
        duena
    }
}

} // verus!
