//! The calls on a collection.
use vstd::prelude::*;
use vstd::string::*;

use super::sesion::Sesion;
use super::{
    atributos_de_propiedades, copiada, dbus_err, nueva_ruta_de_item, owned_path, owned_path_try,
    texto_de_propiedad, CollectionInfo, DbusError, ErrorVista, EstadoVista, ItemInfo, ItemVista, KeyringState,
    SecretStruct, Valor, ValorVista,
};
use crate::dbus_api;
use crate::mapa::Mapa;
use crate::texto::igual;

verus! {

/// A path, or the root where it is not valid, of each of some paths.
pub open spec fn publicables(s: Seq<Seq<char>>) -> Seq<Seq<char>> {
    s.map_values(|p: Seq<char>| dbus_api::ruta_o_raiz(p))
}

/// Being a valid object path.
pub open spec fn las_validas() -> spec_fn(Seq<char>) -> bool {
    |p: Seq<char>| dbus_api::ruta_valida(p)
}

impl EstadoVista {
    /// Whether an item has all of the attributes that a search asks for.
    pub open spec fn cumple(self, item: Seq<char>, atributos: Map<Seq<char>, Seq<char>>) -> bool {
        self.items.contains_key(item) && atributos.submap_of(self.items[item].attributes)
    }

    /// Having all of the attributes that a search asks for.
    pub open spec fn los_que_cumplen(self, atributos: Map<Seq<char>, Seq<char>>) -> spec_fn(Seq<char>) -> bool {
        |p: Seq<char>| self.cumple(p, atributos)
    }

    /// What a search finds in a collection, in the order of its list.
    pub open spec fn hallados(self, coleccion: Seq<char>, atributos: Map<Seq<char>, Seq<char>>) -> Seq<Seq<char>> {
        publicables(self.lista(coleccion).filter(self.los_que_cumplen(atributos)))
    }

    /// What an item to be created is.
    pub open spec fn item_pedido(
        self,
        properties: Map<Seq<char>, ValorVista>,
        secreto: Seq<u8>,
        content_type: Seq<char>,
        ahora: u64,
    ) -> ItemVista {
        ItemVista {
            label: dbus_api::texto_o(properties, "org.freedesktop.Secret.Item.Label"@, "Unnamed"@),
            attributes: dbus_api::atributos_en(properties),
            secret: secreto,
            content_type,
            created: ahora,
            modified: ahora,
        }
    }

    /// The state with a new item, or why there is none. Where the client asked
    /// to replace, the items of the collection with the same attributes go.
    pub open spec fn alta(
        self,
        sesion: dbus_api::sesion::SesionVista,
        coleccion: Seq<char>,
        properties: Map<Seq<char>, ValorVista>,
        secret: dbus_api::SecretVista,
        replace: bool,
        ahora: u64,
    ) -> Result<EstadoVista, ErrorVista> {
        match sesion.impedimento() {
            Some(motivo) => Err(ErrorVista::Failed(motivo)),
            None => match self.secreto_recibido(secret) {
                Err(e) => Err(e),
                Ok(texto) => {
                    let item = self.item_pedido(properties, texto, secret.content_type, ahora);
                    if !replace {
                        Ok(self.con_item(coleccion, item, ahora))
                    } else if !self.collections.contains_key(coleccion) {
                        Err(ErrorVista::Failed("collection not found"@))
                    } else {
                        Ok(self.sin_iguales(coleccion, item.attributes).con_item(coleccion, item, ahora))
                    }
                },
            },
        }
    }
}

/// The next element of a list goes through a filter or does not.
proof fn un_filtro_mas(s: Seq<Seq<char>>, i: int, f: spec_fn(Seq<char>) -> bool)
    requires
        0 <= i < s.len(),
    ensures
        s.take(i + 1).filter(f) == if f(s[i]) {
            s.take(i).filter(f).push(s[i])
        } else {
            s.take(i).filter(f)
        },
{
    reveal(Seq::filter);
    assert(s.take(i + 1).drop_last() =~= s.take(i));
}

impl KeyringState {
    /// A collection, or the error of one that does not exist.
    fn coleccion(&self, path: &str) -> (r: Result<&CollectionInfo, DbusError>)
        ensures
            match r {
                Ok(c) => self@.collections.contains_key(path@) && c@ == self@.collections[path@],
                Err(e) => !self@.collections.contains_key(path@) && e@ == ErrorVista::Failed(
                    "collection not found"@,
                ),
            },
    {
        match self.collections.get(path) {
            Some(c) => Ok(c),
            None => Err(dbus_err("collection not found")),
        }
    }

    /// The label of a collection.
    pub fn collection_label(&self, path: &str) -> (r: Result<String, DbusError>)
        ensures
            match r {
                Ok(s) => self@.collections.contains_key(path@) && s@ == self@.collections[path@].label,
                Err(e) => !self@.collections.contains_key(path@) && e@ == ErrorVista::Failed(
                    "collection not found"@,
                ),
            },
    {
        match self.coleccion(path) {
            Ok(c) => Ok(c.label.clone()),
            Err(e) => Err(e),
        }
    }

    /// Whether a collection serves no secrets now.
    pub fn collection_locked(&self, sesion: &Sesion, path: &str) -> (r: Result<bool, DbusError>)
        ensures
            match r {
                Ok(b) => self@.collections.contains_key(path@) && b == sesion@.cerrada(
                    self@.collections[path@].locked,
                ),
                Err(e) => !self@.collections.contains_key(path@) && e@ == ErrorVista::Failed(
                    "collection not found"@,
                ),
            },
    {
        match self.coleccion(path) {
            Ok(c) => Ok(sesion.effectively_locked(c.locked)),
            Err(e) => Err(e),
        }
    }

    /// When a collection was created.
    pub fn collection_created(&self, path: &str) -> (r: Result<u64, DbusError>)
        ensures
            match r {
                Ok(t) => self@.collections.contains_key(path@) && t == self@.collections[path@].created,
                Err(e) => !self@.collections.contains_key(path@) && e@ == ErrorVista::Failed(
                    "collection not found"@,
                ),
            },
    {
        match self.coleccion(path) {
            Ok(c) => Ok(c.created),
            Err(e) => Err(e),
        }
    }

    /// When a collection was last changed.
    pub fn collection_modified(&self, path: &str) -> (r: Result<u64, DbusError>)
        ensures
            match r {
                Ok(t) => self@.collections.contains_key(path@) && t == self@.collections[path@].modified,
                Err(e) => !self@.collections.contains_key(path@) && e@ == ErrorVista::Failed(
                    "collection not found"@,
                ),
            },
    {
        match self.coleccion(path) {
            Ok(c) => Ok(c.modified),
            Err(e) => Err(e),
        }
    }

    /// The items of a collection, in the order of its list: none where it does
    /// not exist.
    pub fn collection_items(&self, path: &str) -> (r: Vec<String>)
        ensures
            dbus_api::rutas(r@) == self@.lista(path@).filter(las_validas()),
    {
        let ghost f = las_validas();
        let mut r: Vec<String> = Vec::new();
        match self.collections.get(path) {
            Some(col) => {
                let ghost l = dbus_api::rutas(col.items@);
                let mut i: usize = 0;
                proof {
                    reveal(Seq::filter);
                    assert(dbus_api::rutas(r@) =~= l.take(0).filter(f));
                }
                while i < col.items.len()
                    invariant
                        i <= col.items@.len(),
                        l == dbus_api::rutas(col.items@),
                        f == las_validas(),
                        dbus_api::rutas(r@) == l.take(i as int).filter(f),
                    decreases col.items.len() - i,
                {
                    let ghost antes = dbus_api::rutas(r@);
                    proof {
                        un_filtro_mas(l, i as int, f);
                    }
                    if let Ok(p) = owned_path_try(col.items[i].as_str()) {
                        r.push(p);
                        assert(dbus_api::rutas(r@) =~= antes.push(l[i as int]));
                    }
                    i += 1;
                }
                assert(l.take(l.len() as int) =~= l);
            },
            None => {
                proof {
                    reveal(Seq::filter);
                    assert(dbus_api::rutas(r@) =~= self@.lista(path@).filter(f));
                }
            },
        }
        r
    }

    /// Whether an item has all of the attributes that a search asks for.
    pub(super) fn item_cumple(&self, item: &str, attributes: &Mapa<String>) -> (r: bool)
        ensures
            r == self@.cumple(item@, attributes@),
    {
        match self.items.get(item) {
            Some(i) => attributes.dentro_de(&i.attributes),
            None => false,
        }
    }

    /// The items of a collection that have all of the attributes given.
    pub fn collection_search_items(&self, path: &str, attributes: &Mapa<String>) -> (r: Vec<String>)
        ensures
            dbus_api::rutas(r@) == self@.hallados(path@, attributes@),
    {
        let ghost f = self@.los_que_cumplen(attributes@);
        let mut r: Vec<String> = Vec::new();
        match self.collections.get(path) {
            Some(col) => {
                let ghost l = dbus_api::rutas(col.items@);
                let mut i: usize = 0;
                proof {
                    reveal(Seq::filter);
                    assert(dbus_api::rutas(r@) =~= publicables(l.take(0).filter(f)));
                }
                while i < col.items.len()
                    invariant
                        i <= col.items@.len(),
                        l == dbus_api::rutas(col.items@),
                        f == self@.los_que_cumplen(attributes@),
                        dbus_api::rutas(r@) == publicables(l.take(i as int).filter(f)),
                    decreases col.items.len() - i,
                {
                    let ghost antes = dbus_api::rutas(r@);
                    proof {
                        un_filtro_mas(l, i as int, f);
                    }
                    if self.item_cumple(col.items[i].as_str(), attributes) {
                        r.push(owned_path(col.items[i].as_str()));
                        proof {
                            assert(dbus_api::rutas(r@) =~= antes.push(dbus_api::ruta_o_raiz(l[i as int])));
                            assert(publicables(l.take(i as int).filter(f).push(l[i as int])) =~= publicables(
                                l.take(i as int).filter(f),
                            ).push(dbus_api::ruta_o_raiz(l[i as int])));
                        }
                    }
                    i += 1;
                }
                assert(l.take(l.len() as int) =~= l);
            },
            None => {
                proof {
                    reveal(Seq::filter);
                    assert(dbus_api::rutas(r@) =~= publicables(self@.lista(path@).filter(f)));
                }
            },
        }
        r
    }

    /// Takes out the items of a collection that have exactly the given
    /// attributes.
    fn quitar_iguales(&mut self, path: &str, attributes: &Mapa<String>)
        requires
            old(self)@.valido(),
            old(self)@.collections.contains_key(path@),
        ensures
            final(self)@ == old(self)@.sin_iguales(path@, attributes@),
    {
        let ghost v = self@;
        let ghost si = v.los_que(attributes@, true);
        let ghost no = v.los_que(attributes@, false);
        let ghost l = v.collections[path@].items;
        let mut fuera: Vec<String> = Vec::new();
        let mut quedan: Vec<String> = Vec::new();
        if let Some(col) = self.collections.get(path) {
            let mut i: usize = 0;
            proof {
                reveal(Seq::filter);
                assert(dbus_api::rutas(fuera@) =~= l.take(0).filter(si));
                assert(dbus_api::rutas(quedan@) =~= l.take(0).filter(no));
            }
            while i < col.items.len()
                invariant
                    i <= col.items@.len(),
                    v == self@,
                    l == dbus_api::rutas(col.items@),
                    si == v.los_que(attributes@, true),
                    no == v.los_que(attributes@, false),
                    dbus_api::rutas(fuera@) == l.take(i as int).filter(si),
                    dbus_api::rutas(quedan@) == l.take(i as int).filter(no),
                decreases col.items.len() - i,
            {
                let p: &String = &col.items[i];
                let ghost a = dbus_api::rutas(fuera@);
                let ghost b = dbus_api::rutas(quedan@);
                proof {
                    un_filtro_mas(l, i as int, si);
                    un_filtro_mas(l, i as int, no);
                }
                let mismo: bool = match self.items.get(p.as_str()) {
                    Some(item) => item.attributes.igual_a(attributes),
                    None => false,
                };
                if mismo {
                    fuera.push(p.clone());
                    assert(dbus_api::rutas(fuera@) =~= a.push(l[i as int]));
                } else {
                    quedan.push(p.clone());
                    assert(dbus_api::rutas(quedan@) =~= b.push(l[i as int]));
                }
                i += 1;
            }
            assert(l.take(l.len() as int) =~= l);
        }
        self.quitar_items(&fuera);
        self.cambiar_lista(path, quedan, None);
    }

    /// Takes some items out.
    pub(super) fn quitar_items(&mut self, fuera: &Vec<String>)
        ensures
            final(self)@ == (EstadoVista {
                items: old(self)@.items.remove_keys(dbus_api::rutas(fuera@).to_set()),
                ..old(self)@
            }),
    {
        let ghost v = self@;
        let ghost l = dbus_api::rutas(fuera@);
        let mut i: usize = 0;
        assert(v.items.remove_keys(l.take(0).to_set()) =~= v.items);
        while i < fuera.len()
            invariant
                i <= fuera@.len(),
                l == dbus_api::rutas(fuera@),
                self@ == (EstadoVista { items: v.items.remove_keys(l.take(i as int).to_set()), ..v }),
            decreases fuera.len() - i,
        {
            self.items.remove(fuera[i].as_str());
            i += 1;
            proof {
                let antes = l.take(i - 1);
                let despues = l.take(i as int);
                assert(despues =~= antes.push(l[i - 1]));
                assert forall|x: Seq<char>| #[trigger] despues.to_set().contains(x) <==> antes.to_set().contains(x) || x
                    == l[i - 1] by {
                    if antes.contains(x) {
                        let j = antes.index_of(x);
                        assert(despues[j] == x);
                    }
                    assert(despues[i - 1] == l[i - 1]);
                }
                assert(self@.items =~= v.items.remove_keys(despues.to_set()));
            }
        }
        assert(l.take(l.len() as int) =~= l);
    }

    /// Creates an item in a collection, and gives back its path.
    ///
    /// A refusal comes before anything is changed. The path is always new: no
    /// item that was there is ever overwritten. Where the path of the collection
    /// is not a valid object path the item is kept and the error reported.
    pub fn create_item(
        &mut self,
        sesion: &Sesion,
        path: &str,
        properties: &Mapa<Valor>,
        secret: SecretStruct,
        replace: bool,
        ahora: u64,
    ) -> (r: Result<String, DbusError>)
        requires
            old(self)@.valido(),
            old(self)@.next_item < u64::MAX,
            dbus_api::cabe(secret.value@.len()),
        ensures
            final(self)@.valido(),
            match old(self)@.alta(sesion@, path@, properties@, secret@, replace, ahora) {
                Err(m) => r matches Err(e) && e@ == m && final(self)@ == old(self)@,
                Ok(w) => {
                    let p = dbus_api::ruta_de_item(path@, old(self)@.next_item);
                    &&& final(self)@ == w
                    &&& !old(self)@.items.contains_key(p)
                    &&& match r {
                        Ok(s) => dbus_api::ruta_valida(p) && s@ == p,
                        Err(e) => !dbus_api::ruta_valida(p) && e@ == dbus_api::error_de_ruta(),
                    }
                },
            },
    {
        if let Err(motivo) = sesion.ensure_unlocked() {
            return Err(DbusError::Failed(motivo));
        }
        let label: String = texto_de_propiedad(properties, "org.freedesktop.Secret.Item.Label", "Unnamed");
        let attributes: Mapa<String> = atributos_de_propiedades(properties);
        let SecretStruct { session, parameters, value, content_type } = secret;
        let plaintext: Vec<u8> = match self.sessions.get(session.as_str()) {
            Some(ses) => match ses.decode(parameters.as_slice(), value) {
                Ok(t) => t,
                Err(e) => {
                    return Err(e);
                },
            },
            None => {
                return Err(dbus_err("session not found"));
            },
        };
        let ghost v = self@;
        if replace {
            if let Err(e) = self.coleccion(path) {
                return Err(e);
            }
            proof {
                dbus_api::transiciones::sin_iguales_es_valido(v, path@, attributes@);
            }
            self.quitar_iguales(path, &attributes);
        }
        proof {
            dbus_api::un_numero_sin_usar_es_nuevo(v, path@, v.next_item);
        }
        let info: ItemInfo = ItemInfo {
            label,
            attributes,
            secret: plaintext,
            content_type,
            created: ahora,
            modified: ahora,
        };
        let item_path: String = self.agregar_item(path, info, ahora);
        owned_path_try(item_path.as_str())
    }

    /// Puts a new item in, at the end of the list of a collection where that
    /// collection exists, and gives back its path.
    pub(crate) fn agregar_item(&mut self, coleccion: &str, info: ItemInfo, ahora: u64) -> (r: String)
        requires
            old(self)@.valido(),
            old(self)@.next_item < u64::MAX,
            dbus_api::cabe(info.secret@.len()),
        ensures
            final(self)@.valido(),
            final(self)@ == old(self)@.con_item(coleccion@, info@, ahora),
            r@ == dbus_api::ruta_de_item(coleccion@, old(self)@.next_item),
            !old(self)@.items.contains_key(r@),
    {
        let ghost v = self@;
        proof {
            dbus_api::transiciones::con_item_es_valido(v, coleccion@, info@, ahora);
        }
        let id: u64 = self.take_item_id();
        let item_path: String = nueva_ruta_de_item(coleccion, id);
        self.items.insert(item_path.clone(), info);
        let lista: Option<Vec<String>> = match self.collections.get(coleccion) {
            Some(col) => Some(copiada(&col.items)),
            None => None,
        };
        if let Some(mut items) = lista {
            let ghost antes = dbus_api::rutas(items@);
            items.push(item_path.clone());
            assert(dbus_api::rutas(items@) =~= antes.push(item_path@));
            self.cambiar_lista(coleccion, items, Some(ahora));
        }
        item_path
    }

    /// Deletes a collection with its items and with the aliases that stood for
    /// it, and says which they were.
    pub fn collection_delete(&mut self, path: &str) -> (r: (Vec<String>, Vec<String>))
        requires
            old(self)@.valido(),
        ensures
            final(self)@.valido(),
            final(self)@ == old(self)@.sin_coleccion(path@),
            dbus_api::rutas(r.0@) == old(self)@.lista(path@),
            dbus_api::rutas(r.1@).no_duplicates(),
            forall|a: Seq<char>| #[trigger]
                dbus_api::rutas(r.1@).contains(a) <==> old(self)@.aliases.contains_key(a) && old(
                    self,
                )@.aliases[a] == path@,
    {
        let ghost v = self@;
        proof {
            dbus_api::transiciones::sin_coleccion_es_valido(v, path@);
        }
        let removed_items: Vec<String> = match self.collections.remove(path) {
            Some(col) => col.items,
            None => Vec::new(),
        };
        assert(dbus_api::rutas(removed_items@) =~= v.lista(path@));
        self.quitar_items(&removed_items);
        proof {
            if !v.collections.contains_key(path@) {
                assert(v.items.remove_keys(v.lista(path@).to_set()) =~= v.items);
            }
        }
        let huerfanos: Vec<String> = self.alias_de(path);
        let ghost hs = dbus_api::rutas(huerfanos@);
        let ghost w = self@;
        let mut i: usize = 0;
        assert(w.aliases.remove_keys(hs.take(0).to_set()) =~= w.aliases);
        while i < huerfanos.len()
            invariant
                i <= huerfanos@.len(),
                hs == dbus_api::rutas(huerfanos@),
                self@ == (EstadoVista { aliases: w.aliases.remove_keys(hs.take(i as int).to_set()), ..w }),
            decreases huerfanos.len() - i,
        {
            self.aliases.remove(huerfanos[i].as_str());
            i += 1;
            proof {
                let antes = hs.take(i - 1);
                let despues = hs.take(i as int);
                assert(despues =~= antes.push(hs[i - 1]));
                assert forall|x: Seq<char>| #[trigger] despues.to_set().contains(x) <==> antes.to_set().contains(x) || x
                    == hs[i - 1] by {
                    if antes.contains(x) {
                        let j = antes.index_of(x);
                        assert(despues[j] == x);
                    }
                    assert(despues[i - 1] == hs[i - 1]);
                }
                assert(self@.aliases =~= w.aliases.remove_keys(despues.to_set()));
            }
        }
        proof {
            assert(hs.take(hs.len() as int) =~= hs);
            assert(self@.aliases =~= v.sin_coleccion(path@).aliases);
            assert(self@ =~= v.sin_coleccion(path@));
        }
        (removed_items, huerfanos)
    }

    /// The aliases that stand for a collection.
    fn alias_de(&self, path: &str) -> (r: Vec<String>)
        ensures
            dbus_api::rutas(r@).no_duplicates(),
            forall|a: Seq<char>| #[trigger]
                dbus_api::rutas(r@).contains(a) <==> self@.aliases.contains_key(a) && self@.aliases[a] == path@,
    {
        let n: usize = self.aliases.len();
        let ghost orden = self.aliases.orden();
        let mut r: Vec<String> = Vec::new();
        let mut i: usize = 0;
        while i < n
            invariant
                i <= n,
                n == orden.len(),
                orden == self.aliases.orden(),
                orden.no_duplicates(),
                orden.to_set() == self.aliases@.dom(),
                dbus_api::rutas(r@).no_duplicates(),
                forall|a: Seq<char>| #[trigger]
                    dbus_api::rutas(r@).contains(a) <==> orden.take(i as int).contains(a) && self.aliases@[a]
                        == path@,
            decreases n - i,
        {
            let ghost antes = dbus_api::rutas(r@);
            let ghost k = orden[i as int];
            proof {
                assert(!orden.take(i as int).contains(k)) by {
                    if orden.take(i as int).contains(k) {
                        let j = orden.take(i as int).index_of(k);
                        assert(orden[j] == k);
                    }
                }
                assert(!antes.contains(k));
                assert forall|a: Seq<char>| #[trigger] orden.take(i + 1).contains(a) <==> orden.take(i as int).contains(
                    a,
                ) || a == k by {
                    assert(orden.take(i + 1) =~= orden.take(i as int).push(k));
                    if orden.take(i as int).contains(a) {
                        let j = orden.take(i as int).index_of(a);
                        assert(orden.take(i + 1)[j] == a);
                    }
                    assert(orden.take(i + 1)[i as int] == k);
                }
            }
            if igual(self.aliases.valor(i).as_str(), path) {
                r.push(self.aliases.clave(i).clone());
                proof {
                    let ahora = dbus_api::rutas(r@);
                    assert(ahora =~= antes.push(k));
                    assert forall|a: Seq<char>| #[trigger] ahora.contains(a) <==> antes.contains(a) || a == k by {
                        if antes.contains(a) {
                            let j = antes.index_of(a);
                            assert(ahora[j] == a);
                        }
                        assert(ahora[antes.len() as int] == k);
                    }
                }
            }
            i += 1;
        }
        proof {
            assert(orden.take(n as int) =~= orden);
            assert forall|a: Seq<char>| #[trigger] dbus_api::rutas(r@).contains(a) <==> self@.aliases.contains_key(a)
                && self@.aliases[a] == path@ by {
                assert(orden.to_set().contains(a) <==> self.aliases@.dom().contains(a));
            }
        }
        r
    }
}

} // verus!
