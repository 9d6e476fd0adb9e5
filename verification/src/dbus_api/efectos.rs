//! What each call changes, and what it leaves as it was.
//!
//! Every law here speaks of the fields of the state before and after a call, so
//! that it says what the call is for without going through how the call is
//! described.
use vstd::prelude::*;

use super::disco::{AvisoVista, IntentoVista, Items};
use super::{EstadoVista, ErrorVista, ItemVista, SecretVista, SessionVista, ValorVista, COLECCION_DEL_LOGIN};
use crate::crypto::SecretItemVista;
use crate::dbus_api;
use crate::dbus_api::sesion::SesionVista;

verus! {

// ── Items ──────────────────────────────────────────────────

/// Changing a secret touches that item and nothing else: every other item, the
/// collections, the aliases and the sessions stay as they were, and of the item
/// itself its label, its attributes and its date of creation.
pub proof fn cambiar_un_secreto_toca_ese_item_y_nada_mas(
    v: EstadoVista,
    item: Seq<char>,
    secreto: Seq<u8>,
    tipo: Seq<char>,
    ahora: u64,
)
    requires
        v.items.contains_key(item),
    ensures
        ({
            let w = v.con_secreto(item, secreto, tipo, ahora);
            &&& forall|q: Seq<char>| #[trigger] w.items.contains_key(q) <==> v.items.contains_key(q)
            &&& forall|q: Seq<char>| q != item && v.items.contains_key(q) ==> #[trigger] w.items[q] == v.items[q]
            &&& w.items[item].secret == secreto
            &&& w.items[item].content_type == tipo
            &&& w.items[item].modified == ahora
            &&& w.items[item].label == v.items[item].label
            &&& w.items[item].attributes == v.items[item].attributes
            &&& w.items[item].created == v.items[item].created
            &&& w.collections == v.collections
            &&& w.aliases == v.aliases
            &&& w.sessions == v.sessions
            &&& w.next_session == v.next_session
            &&& w.next_collection == v.next_collection
            &&& w.next_item == v.next_item
        }),
{
}

/// A secret is changed where it may be written, the session it came over is
/// open, what came over it can be read, and the item is there; and in no other
/// case. Over a session that does not encrypt, the new secret is what the client
/// sent.
pub proof fn un_secreto_se_cambia_solo_donde_se_puede(
    v: EstadoVista,
    s: SesionVista,
    item: Seq<char>,
    secret: SecretVista,
)
    ensures
        v.secreto_nuevo(s, item, secret) is Ok <==> s.bloqueo is None && (s.maestra is Some || s.entorno is Some)
            && v.sessions.contains_key(secret.session) && v.items.contains_key(item) && (
        v.sessions[secret.session].shared_key matches Some(k) ==> crate::session_crypto::descifrado(
            k,
            secret.parameters,
            secret.value,
        ) is Ok),
        v.secreto_nuevo(s, item, secret) matches Ok(texto) ==> match v.sessions[secret.session].shared_key {
            None => texto == secret.value,
            Some(k) => crate::session_crypto::descifrado(k, secret.parameters, secret.value) == Ok::<
                Seq<u8>,
                Seq<char>,
            >(texto),
        },
        s.bloqueo matches Some(m) ==> v.secreto_nuevo(s, item, secret) == Err::<Seq<u8>, ErrorVista>(
            ErrorVista::Failed(m),
        ),
        s.bloqueo is None && (s.maestra is Some || s.entorno is Some) && !v.sessions.contains_key(secret.session)
            ==> v.secreto_nuevo(s, item, secret) == Err::<Seq<u8>, ErrorVista>(
            ErrorVista::Failed("session not found"@),
        ),
{
}

/// An item that a client created is what the client asked for: the label, the
/// attributes, the secret and its type are those it sent, and its dates are those
/// of the call. Where it sent no label the item has none of its own.
pub proof fn lo_creado_es_lo_pedido(
    v: EstadoVista,
    s: SesionVista,
    c: Seq<char>,
    properties: Map<Seq<char>, ValorVista>,
    secret: SecretVista,
    replace: bool,
    ahora: u64,
    w: EstadoVista,
)
    requires
        v.alta(s, c, properties, secret, replace, ahora) == Ok::<EstadoVista, ErrorVista>(w),
    ensures
        ({
            let n = w.items[dbus_api::ruta_de_item(c, v.next_item)];
            let etiqueta = "org.freedesktop.Secret.Item.Label"@;
            let atributos = "org.freedesktop.Secret.Item.Attributes"@;
            &&& w.items.contains_key(dbus_api::ruta_de_item(c, v.next_item))
            &&& v.sessions.contains_key(secret.session)
            &&& match v.sessions[secret.session].shared_key {
                None => n.secret == secret.value,
                Some(k) => crate::session_crypto::descifrado(k, secret.parameters, secret.value) == Ok::<
                    Seq<u8>,
                    Seq<char>,
                >(n.secret),
            }
            &&& n.content_type == secret.content_type
            &&& n.created == ahora
            &&& n.modified == ahora
            &&& properties.contains_key(etiqueta) ==> (properties[etiqueta] matches ValorVista::Texto(t)
                ==> n.label == t)
            &&& !(properties.contains_key(etiqueta) && properties[etiqueta] is Texto) ==> n.label == "Unnamed"@
            &&& properties.contains_key(atributos) ==> (properties[atributos] matches ValorVista::Atributos(m)
                ==> n.attributes == m)
            &&& !(properties.contains_key(atributos) && properties[atributos] is Atributos) ==> n.attributes
                == Map::<Seq<char>, Seq<char>>::empty()
        }),
{
}

/// An item is created where it may be written, the session the secret came over
/// is open, the secret can be read, and, for a client that replaces, the
/// collection is there; and in no other case.
pub proof fn un_item_se_crea_solo_donde_se_puede(
    v: EstadoVista,
    s: SesionVista,
    c: Seq<char>,
    properties: Map<Seq<char>, ValorVista>,
    secret: SecretVista,
    replace: bool,
    ahora: u64,
)
    ensures
        v.alta(s, c, properties, secret, replace, ahora) is Ok <==> s.bloqueo is None && (s.maestra is Some
            || s.entorno is Some) && v.sessions.contains_key(secret.session) && (
        v.sessions[secret.session].shared_key matches Some(k) ==> crate::session_crypto::descifrado(
            k,
            secret.parameters,
            secret.value,
        ) is Ok) && (replace ==> v.collections.contains_key(c)),
        s.bloqueo matches Some(m) ==> v.alta(s, c, properties, secret, replace, ahora) == Err::<
            EstadoVista,
            ErrorVista,
        >(ErrorVista::Failed(m)),
        s.bloqueo is None && (s.maestra is Some || s.entorno is Some) && !v.sessions.contains_key(secret.session)
            ==> v.alta(s, c, properties, secret, replace, ahora) == Err::<EstadoVista, ErrorVista>(
            ErrorVista::Failed("session not found"@),
        ),
{
}

/// Creating an item changes one collection: it gains the item at the end of its
/// list and the date of the call, and keeps its label, its flag and its date of
/// creation. A client that replaces takes away from it the items with exactly the
/// same attributes; one that does not takes nothing away. Nothing else changes.
pub proof fn crear_un_item_cambia_una_coleccion(
    v: EstadoVista,
    s: SesionVista,
    c: Seq<char>,
    properties: Map<Seq<char>, ValorVista>,
    secret: SecretVista,
    replace: bool,
    ahora: u64,
    w: EstadoVista,
)
    requires
        v.valido(),
        v.alta(s, c, properties, secret, replace, ahora) == Ok::<EstadoVista, ErrorVista>(w),
    ensures
        ({
            let p = dbus_api::ruta_de_item(c, v.next_item);
            let nuevos = w.items[p].attributes;
            let sobra = |q: Seq<char>|
                replace && v.collections.contains_key(c) && v.collections[c].items.contains(q)
                    && v.items[q].attributes == nuevos;
            &&& !v.items.contains_key(p)
            &&& forall|q: Seq<char>| #[trigger]
                w.items.contains_key(q) <==> q == p || (v.items.contains_key(q) && !sobra(q))
            &&& forall|q: Seq<char>| q != p && w.items.contains_key(q) ==> #[trigger] w.items[q] == v.items[q]
            &&& forall|d: Seq<char>| #[trigger]
                w.collections.contains_key(d) <==> v.collections.contains_key(d)
            &&& forall|d: Seq<char>| d != c && v.collections.contains_key(d) ==> #[trigger] w.collections[d]
                == v.collections[d]
            &&& v.collections.contains_key(c) ==> {
                &&& w.collections[c].label == v.collections[c].label
                &&& w.collections[c].locked == v.collections[c].locked
                &&& w.collections[c].created == v.collections[c].created
                &&& w.collections[c].modified == ahora
                &&& w.collections[c].items == v.collections[c].items.filter(
                    |q: Seq<char>| !(replace && v.items[q].attributes == nuevos),
                ).push(p)
            }
            &&& w.sessions == v.sessions
            &&& w.aliases == v.aliases
            &&& w.next_session == v.next_session
            &&& w.next_collection == v.next_collection
            &&& w.next_item == v.next_item + 1
        }),
{
    let p = dbus_api::ruta_de_item(c, v.next_item);
    let atributos = dbus_api::atributos_en(properties);
    dbus_api::un_numero_sin_usar_es_nuevo(v, c, v.next_item);
    if v.collections.contains_key(c) {
        let l = v.collections[c].items;
        let quedan = |q: Seq<char>| !(replace && v.items[q].attributes == atributos);
        assert forall|q: Seq<char>| #[trigger] l.contains(q) implies v.items.contains_key(q) by {
            assert(v.en(c, q));
        }
        if replace {
            dbus_api::transiciones::filtro_es(l, v.los_que(atributos, true));
            dbus_api::transiciones::filtro_es(l, v.los_que(atributos, false));
            el_mismo_filtro(l, v.los_que(atributos, false), quedan);
            assert forall|q: Seq<char>| #[trigger] w.items.contains_key(q) <==> q == p || (v.items.contains_key(q)
                && !(l.contains(q) && v.items[q].attributes == atributos)) by {
                assert(v.iguales(c, atributos).to_set().contains(q) <==> l.contains(q) && v.con_atributos(q, atributos));
            }
        } else {
            todo_pasa(l, quedan);
        }
    }
}

/// Two filters that agree on a list leave the same of it.
proof fn el_mismo_filtro(s: Seq<Seq<char>>, f: spec_fn(Seq<char>) -> bool, g: spec_fn(Seq<char>) -> bool)
    requires
        forall|x: Seq<char>| #[trigger] s.contains(x) ==> f(x) == g(x),
    ensures
        s.filter(f) == s.filter(g),
    decreases s.len(),
{
    reveal(Seq::filter);
    if s.len() > 0 {
        assert forall|x: Seq<char>| #[trigger] s.drop_last().contains(x) implies f(x) == g(x) by {
            let j = s.drop_last().index_of(x);
            assert(s[j] == x);
            assert(s.contains(x));
        }
        assert(s.contains(s[s.len() - 1]));
        el_mismo_filtro(s.drop_last(), f, g);
    }
}

/// A filter that everything goes through leaves the list.
proof fn todo_pasa(s: Seq<Seq<char>>, f: spec_fn(Seq<char>) -> bool)
    requires
        forall|x: Seq<char>| #[trigger] s.contains(x) ==> f(x),
    ensures
        s.filter(f) == s,
    decreases s.len(),
{
    reveal(Seq::filter);
    if s.len() > 0 {
        assert forall|x: Seq<char>| #[trigger] s.drop_last().contains(x) implies f(x) by {
            let j = s.drop_last().index_of(x);
            assert(s[j] == x);
            assert(s.contains(x));
        }
        assert(s.contains(s[s.len() - 1]));
        todo_pasa(s.drop_last(), f);
        assert(s.drop_last().push(s.last()) =~= s);
    }
}

/// Deleting an item takes it out of the items and out of every list, and changes
/// nothing else: the lists keep their order, and the collections their label,
/// their flag and their dates.
pub proof fn borrar_un_item_lo_saca_de_su_lista(v: EstadoVista, item: Seq<char>)
    requires
        v.valido(),
    ensures
        ({
            let w = v.sin_item(item);
            &&& w.items == v.items.remove(item)
            &&& forall|c: Seq<char>| #[trigger]
                w.collections.contains_key(c) <==> v.collections.contains_key(c)
            &&& forall|c: Seq<char>| #[trigger]
                v.collections.contains_key(c) ==> {
                    &&& w.collections[c].items == v.collections[c].items.filter(|q: Seq<char>| q != item)
                    &&& w.collections[c].label == v.collections[c].label
                    &&& w.collections[c].locked == v.collections[c].locked
                    &&& w.collections[c].created == v.collections[c].created
                    &&& w.collections[c].modified == v.collections[c].modified
                }
            &&& w.sessions == v.sessions
            &&& w.aliases == v.aliases
            &&& w.next_session == v.next_session
            &&& w.next_collection == v.next_collection
            &&& w.next_item == v.next_item
        }),
{
    let w = v.sin_item(item);
    let otra = |q: Seq<char>| q != item;
    assert forall|c: Seq<char>| #[trigger] v.collections.contains_key(c) implies w.collections[c].items
        == v.collections[c].items.filter(otra) by {
        let l = v.collections[c].items;
        if l.contains(item) {
            assert(v.en(c, item));
            dbus_api::transiciones::una_sola_duena(v, c, item);
            el_mismo_filtro(l, crate::mapa::otra_que(item), otra);
        } else {
            todo_pasa(l, otra);
            if v.duena(item) == Some(c) {
                assert(v.en(c, item));
            }
        }
    }
    assert forall|c: Seq<char>| #[trigger] w.collections.contains_key(c) <==> v.collections.contains_key(c) by {
        if v.duena(item) == Some(c) {
            assert(v.en(c, item));
        }
    }
}

// ── Collections ────────────────────────────────────────────

/// Deleting a collection takes it, the items it lists and the aliases that stood
/// for it, and nothing else.
pub proof fn borrar_una_coleccion_deja_lo_demas(v: EstadoVista, c: Seq<char>)
    ensures
        ({
            let w = v.sin_coleccion(c);
            let suyo = |q: Seq<char>| v.collections.contains_key(c) && v.collections[c].items.contains(q);
            &&& w.collections == v.collections.remove(c)
            &&& forall|q: Seq<char>| #[trigger] w.items.contains_key(q) <==> v.items.contains_key(q) && !suyo(q)
            &&& forall|q: Seq<char>| w.items.contains_key(q) ==> #[trigger] w.items[q] == v.items[q]
            &&& forall|a: Seq<char>| #[trigger]
                w.aliases.contains_key(a) <==> v.aliases.contains_key(a) && v.aliases[a] != c
            &&& forall|a: Seq<char>| w.aliases.contains_key(a) ==> #[trigger] w.aliases[a] == v.aliases[a]
            &&& w.sessions == v.sessions
            &&& w.next_session == v.next_session
            &&& w.next_collection == v.next_collection
            &&& w.next_item == v.next_item
        }),
{
}

/// A collection that is registered is open, has the label given and the date of
/// the call, and lists the items that were loaded for it, in order, each under a
/// path of its own. Its alias stands for it, and that of the login collection
/// brings the default one. Nothing else changes.
pub proof fn registrar_una_coleccion_agrega_lo_suyo(
    v: EstadoVista,
    c: Seq<char>,
    alias: Seq<char>,
    label: Seq<char>,
    cargados: Seq<ItemVista>,
    ahora: u64,
)
    requires
        v.valido(),
    ensures
        ({
            let w = v.con_coleccion(c, alias, label, cargados, ahora);
            let l = w.collections[c].items;
            &&& w.collections.contains_key(c)
            &&& !w.collections[c].locked
            &&& w.collections[c].label == label
            &&& w.collections[c].created == ahora
            &&& w.collections[c].modified == ahora
            &&& l.len() == cargados.len()
            &&& l.no_duplicates()
            &&& forall|i: int|
                0 <= i < l.len() ==> !v.items.contains_key(#[trigger] l[i]) && w.items.contains_key(l[i])
                    && w.items[l[i]] == cargados[i] && l[i] == dbus_api::ruta_de_item(c, (v.next_item + i) as nat)
            &&& forall|q: Seq<char>| #[trigger]
                w.items.contains_key(q) <==> v.items.contains_key(q) || l.contains(q)
            &&& forall|q: Seq<char>| v.items.contains_key(q) ==> #[trigger] w.items[q] == v.items[q]
            &&& forall|d: Seq<char>| d != c ==> (#[trigger] w.collections.contains_key(d)
                <==> v.collections.contains_key(d))
            &&& forall|d: Seq<char>| d != c && v.collections.contains_key(d) ==> #[trigger] w.collections[d]
                == v.collections[d]
            &&& w.aliases.contains_key(alias)
            &&& alias != "default"@ ==> w.aliases[alias] == c
            &&& alias == "login"@ ==> w.aliases.contains_key("default"@) && w.aliases["default"@] == c
            &&& forall|a: Seq<char>|
                a != alias && !(alias == "login"@ && a == "default"@) ==> (#[trigger] w.aliases.contains_key(a)
                    <==> v.aliases.contains_key(a))
            &&& forall|a: Seq<char>|
                a != alias && !(alias == "login"@ && a == "default"@) && v.aliases.contains_key(a)
                    ==> #[trigger] w.aliases[a] == v.aliases[a]
            &&& w.sessions == v.sessions
            &&& w.next_session == v.next_session
            &&& w.next_collection == v.next_collection
            &&& w.next_item == v.next_item + cargados.len()
        }),
{
    let w = v.con_coleccion(c, alias, label, cargados, ahora);
    let r = dbus_api::transiciones::rutas_nuevas(c, v.next_item, cargados.len());
    lo_cargado_es_nuevo(v, v.items, c, cargados);
    reveal_strlit("login");
    reveal_strlit("default");
    assert("login"@.len() != "default"@.len());
}

/// Items loaded under new numbers are where none was, each as it was given, and
/// what was there stays.
proof fn lo_cargado_es_nuevo(
    v: EstadoVista,
    quedan: Map<Seq<char>, ItemVista>,
    c: Seq<char>,
    cargados: Seq<ItemVista>,
)
    requires
        v.valido(),
        quedan.submap_of(v.items),
    ensures
        ({
            let r = dbus_api::transiciones::rutas_nuevas(c, v.next_item, cargados.len());
            let w = dbus_api::transiciones::con_cargados(quedan, c, v.next_item, cargados);
            &&& r.no_duplicates()
            &&& forall|i: int|
                0 <= i < r.len() ==> !v.items.contains_key(#[trigger] r[i]) && w.contains_key(r[i]) && w[r[i]]
                    == cargados[i]
            &&& forall|q: Seq<char>| #[trigger] w.contains_key(q) <==> quedan.contains_key(q) || r.contains(q)
            &&& forall|q: Seq<char>| quedan.contains_key(q) ==> #[trigger] w[q] == quedan[q]
        }),
{
    let r = dbus_api::transiciones::rutas_nuevas(c, v.next_item, cargados.len());
    let w = dbus_api::transiciones::con_cargados(quedan, c, v.next_item, cargados);
    dbus_api::transiciones::con_cargados_es(quedan, c, v.next_item, cargados);
    dbus_api::transiciones::rutas_nuevas_son_distintas(c, v.next_item, cargados.len());
    assert forall|i: int| 0 <= i < r.len() implies !v.items.contains_key(#[trigger] r[i]) && w.contains_key(r[i])
        && w[r[i]] == cargados[i] by {
        dbus_api::un_numero_sin_usar_es_nuevo(v, c, (v.next_item + i) as nat);
        assert(r.contains(r[i]));
    }
    assert forall|q: Seq<char>| quedan.contains_key(q) implies #[trigger] w[q] == quedan[q] by {
        if r.contains(q) {
            let j = r.index_of(q);
            assert(!v.items.contains_key(r[j]));
        }
    }
}

/// Loading a collection changes what it lists and nothing else of it: a
/// collection that was open stays open and one that was locked stays locked, with
/// the label and the dates it had. One that was not there comes out open. The
/// items it listed go, those of the database come in order, and the rest of the
/// keyring stays as it was.
pub proof fn recargar_no_toca_el_candado(
    v: EstadoVista,
    c: Seq<char>,
    cargados: Seq<ItemVista>,
    ahora: u64,
)
    requires
        v.valido(),
    ensures
        ({
            let w = v.recargada(c, cargados, ahora);
            let l = w.collections[c].items;
            let suyo = |q: Seq<char>| v.collections.contains_key(c) && v.collections[c].items.contains(q);
            &&& w.collections.contains_key(c)
            &&& w.collections[c].locked == (v.collections.contains_key(c) && v.collections[c].locked)
            &&& v.collections.contains_key(c) ==> {
                &&& w.collections[c].label == v.collections[c].label
                &&& w.collections[c].created == v.collections[c].created
                &&& w.collections[c].modified == v.collections[c].modified
            }
            &&& !v.collections.contains_key(c) ==> {
                &&& w.collections[c].label == "Default collection"@
                &&& w.collections[c].created == ahora
                &&& w.collections[c].modified == ahora
            }
            &&& forall|d: Seq<char>| d != c ==> (#[trigger] w.collections.contains_key(d)
                <==> v.collections.contains_key(d))
            &&& forall|d: Seq<char>| d != c && v.collections.contains_key(d) ==> #[trigger] w.collections[d]
                == v.collections[d]
            &&& l.len() == cargados.len()
            &&& l.no_duplicates()
            &&& forall|i: int|
                0 <= i < l.len() ==> !v.items.contains_key(#[trigger] l[i]) && w.items.contains_key(l[i])
                    && w.items[l[i]] == cargados[i] && l[i] == dbus_api::ruta_de_item(c, (v.next_item + i) as nat)
            &&& forall|q: Seq<char>| #[trigger]
                w.items.contains_key(q) <==> (v.items.contains_key(q) && !suyo(q)) || l.contains(q)
            &&& forall|q: Seq<char>| v.items.contains_key(q) && !suyo(q) ==> #[trigger] w.items[q] == v.items[q]
            &&& w.sessions == v.sessions
            &&& w.aliases == v.aliases
            &&& w.next_session == v.next_session
            &&& w.next_collection == v.next_collection
            &&& w.next_item == v.next_item + cargados.len()
        }),
{
    lo_cargado_es_nuevo(v, v.items.remove_keys(v.lista(c).to_set()), c, cargados);
}

/// Locking and unlocking set the flag of the collections named, and change
/// nothing else.
pub proof fn un_candado_cambia_solo_el_candado(v: EstadoVista, objetos: Seq<Seq<char>>, locked: bool)
    ensures
        ({
            let w = v.con_candado(objetos, locked);
            &&& forall|c: Seq<char>| #[trigger]
                w.collections.contains_key(c) <==> v.collections.contains_key(c)
            &&& forall|c: Seq<char>| #[trigger]
                v.collections.contains_key(c) ==> {
                    &&& w.collections[c].locked == (if objetos.contains(c) {
                        locked
                    } else {
                        v.collections[c].locked
                    })
                    &&& w.collections[c].label == v.collections[c].label
                    &&& w.collections[c].items == v.collections[c].items
                    &&& w.collections[c].created == v.collections[c].created
                    &&& w.collections[c].modified == v.collections[c].modified
                }
            &&& w.items == v.items
            &&& w.sessions == v.sessions
            &&& w.aliases == v.aliases
            &&& w.next_session == v.next_session
            &&& w.next_collection == v.next_collection
            &&& w.next_item == v.next_item
        }),
{
}

/// Giving an alias, or taking it away, changes that alias and nothing else. It is
/// refused only for a collection that is not there.
pub proof fn un_alias_cambia_solo_ese_alias(v: EstadoVista, alias: Seq<char>, c: Seq<char>)
    ensures
        v.con_alias(alias, c) is Ok <==> c == "/"@ || v.collections.contains_key(c),
        v.con_alias(alias, c) matches Ok(w) ==> {
            &&& w.aliases.contains_key(alias) <==> c != "/"@
            &&& c != "/"@ ==> w.aliases[alias] == c
            &&& forall|a: Seq<char>| a != alias ==> (#[trigger] w.aliases.contains_key(a)
                <==> v.aliases.contains_key(a))
            &&& forall|a: Seq<char>| a != alias && v.aliases.contains_key(a) ==> #[trigger] w.aliases[a]
                == v.aliases[a]
            &&& w.collections == v.collections
            &&& w.items == v.items
            &&& w.sessions == v.sessions
            &&& w.next_session == v.next_session
            &&& w.next_collection == v.next_collection
            &&& w.next_item == v.next_item
        },
{
}

/// An alias stands for the collection it was given; one that was not given stands
/// for the collection of that name, and for nothing where there is none.
pub proof fn un_alias_dice_su_coleccion(v: EstadoVista, alias: Seq<char>)
    ensures
        v.aliases.contains_key(alias) && dbus_api::ruta_valida(v.aliases[alias]) ==> v.coleccion_del_alias(alias)
            == Ok::<Seq<char>, ErrorVista>(v.aliases[alias]),
        v.aliases.contains_key(alias) && !dbus_api::ruta_valida(v.aliases[alias]) ==> v.coleccion_del_alias(
            alias,
        ) is Err,
        ({
            let suya = "/org/freedesktop/secrets/collection/"@ + alias;
            &&& !v.aliases.contains_key(alias) && v.collections.contains_key(suya) && dbus_api::ruta_valida(suya)
                ==> v.coleccion_del_alias(alias) == Ok::<Seq<char>, ErrorVista>(suya)
            &&& !v.aliases.contains_key(alias) && v.collections.contains_key(suya) && !dbus_api::ruta_valida(suya)
                ==> v.coleccion_del_alias(alias) is Err
            &&& !v.aliases.contains_key(alias) && !v.collections.contains_key(suya) ==> v.coleccion_del_alias(
                alias,
            ) == Ok::<Seq<char>, ErrorVista>("/"@)
        }),
{
}

// ── Sessions with clients ──────────────────────────────────

/// Opening a session adds it under a path that no other has, and changes nothing
/// else.
pub proof fn abrir_una_sesion_agrega_una_sola(v: EstadoVista, sesion: SessionVista)
    requires
        v.valido(),
    ensures
        ({
            let w = v.con_sesion(sesion);
            let p = dbus_api::ruta_de_sesion(v.next_session);
            &&& !v.sessions.contains_key(p)
            &&& w.sessions.contains_key(p)
            &&& w.sessions[p].algorithm == sesion.algorithm
            &&& w.sessions[p].shared_key == sesion.shared_key
            &&& w.sessions[p].created == sesion.created
            &&& forall|q: Seq<char>| q != p ==> (#[trigger] w.sessions.contains_key(q)
                <==> v.sessions.contains_key(q))
            &&& forall|q: Seq<char>| q != p && v.sessions.contains_key(q) ==> #[trigger] w.sessions[q]
                == v.sessions[q]
            &&& w.collections == v.collections
            &&& w.items == v.items
            &&& w.aliases == v.aliases
            &&& w.next_session == v.next_session + 1
            &&& w.next_collection == v.next_collection
            &&& w.next_item == v.next_item
        }),
{
    let p = dbus_api::ruta_de_sesion(v.next_session);
    if v.sessions.contains_key(p) {
        let id = choose|id: nat| id < v.next_session && p == #[trigger] dbus_api::ruta_de_sesion(id);
        dbus_api::transiciones::sesiones_distintas(id, v.next_session);
    }
}

/// What a request for a session is answered, and what it leaves: one that does not
/// encrypt has no key and no public value; one that encrypts has the key that the
/// exchange gives; any other request is refused and changes nothing.
pub proof fn una_sesion_es_la_que_se_pidio(
    v: EstadoVista,
    w: EstadoVista,
    algorithm: Seq<char>,
    input: ValorVista,
    privado: nat,
    ahora: u64,
    r: Result<(Vec<u8>, String), super::DbusError>,
)
    requires
        v.valido(),
        dbus_api::service::sesion_abierta(v, w, algorithm, input, privado, ahora, r),
    ensures
        r is Err ==> w == v,
        r matches Ok(p) ==> {
            &&& !v.sessions.contains_key(p.1@)
            &&& w.sessions.contains_key(p.1@)
            &&& w.sessions[p.1@].algorithm == algorithm
            &&& w.sessions[p.1@].created == ahora
            &&& forall|q: Seq<char>| q != p.1@ ==> (#[trigger] w.sessions.contains_key(q)
                <==> v.sessions.contains_key(q))
            &&& forall|q: Seq<char>| q != p.1@ && v.sessions.contains_key(q) ==> #[trigger] w.sessions[q]
                == v.sessions[q]
            &&& w.items == v.items
            &&& w.collections == v.collections
            &&& w.aliases == v.aliases
            &&& w.next_item == v.next_item
        },
        algorithm == "plain"@ ==> (r matches Ok(p) && p.0@.len() == 0 && w.sessions[p.1@].shared_key is None),
        algorithm == "dh-ietf1024-sha256-aes128-cbc-pkcs7"@ ==> match input {
            ValorVista::Bytes(b) => {
                let cliente = crate::primitivas::be(b);
                if 1 < cliente && cliente + 1 < crate::session_crypto::primo() {
                    r matches Ok(p) && w.sessions[p.1@].shared_key == Some(
                        crate::session_crypto::clave_de_sesion(
                            crate::session_crypto::potencia(cliente, privado),
                        ),
                    ) && crate::primitivas::be(p.0@) == crate::session_crypto::potencia(2, privado) && p.0@.len()
                        == 128
                } else {
                    r matches Err(e) && e@ is InvalidArgs
                }
            },
            _ => r is Err,
        },
        algorithm != "plain"@ && algorithm != "dh-ietf1024-sha256-aes128-cbc-pkcs7"@ ==> (r matches Err(e) && e@
            is NotSupported),
{
    reveal_strlit("plain");
    reveal_strlit("dh-ietf1024-sha256-aes128-cbc-pkcs7");
    assert("plain"@.len() != "dh-ietf1024-sha256-aes128-cbc-pkcs7"@.len());
    let p = dbus_api::ruta_de_sesion(v.next_session);
    if v.sessions.contains_key(p) {
        let id = choose|id: nat| id < v.next_session && p == #[trigger] dbus_api::ruta_de_sesion(id);
        dbus_api::transiciones::sesiones_distintas(id, v.next_session);
    }
    crate::session_crypto::el_publico_vuelve(privado);
}

/// Closing a session takes it and nothing else, and nothing is delivered over it
/// any more.
pub proof fn cerrar_una_sesion_quita_esa_sola(
    v: EstadoVista,
    s: SesionVista,
    ruta: Seq<char>,
    item: Seq<char>,
)
    ensures
        ({
            let w = v.sin_sesion(ruta);
            &&& !w.sessions.contains_key(ruta)
            &&& forall|q: Seq<char>| q != ruta ==> (#[trigger] w.sessions.contains_key(q)
                <==> v.sessions.contains_key(q))
            &&& forall|q: Seq<char>| q != ruta && v.sessions.contains_key(q) ==> #[trigger] w.sessions[q]
                == v.sessions[q]
            &&& w.items == v.items
            &&& w.collections == v.collections
            &&& w.aliases == v.aliases
            &&& w.next_session == v.next_session
            &&& w.next_collection == v.next_collection
            &&& w.next_item == v.next_item
            &&& w.negativa_a_entregar(s, item, ruta) is Some
        }),
{
}

/// Taking a number takes the next one and changes nothing else.
pub proof fn reservar_toma_un_numero(v: EstadoVista)
    ensures
        v.con_reserva().next_item == v.next_item + 1,
        v.con_reserva().items == v.items,
        v.con_reserva().collections == v.collections,
        v.con_reserva().aliases == v.aliases,
        v.con_reserva().sessions == v.sessions,
        v.con_reserva().next_session == v.next_session,
        v.con_reserva().next_collection == v.next_collection,
{
}

// ── Searches ───────────────────────────────────────────────

/// A search in a collection gives back the items of that collection that have
/// every attribute asked for with the value asked for, and no other: an item that
/// differs in one value, or lacks one name, is never in the result.
pub proof fn una_busqueda_compara_los_valores(
    v: EstadoVista,
    c: Seq<char>,
    atributos: Map<Seq<char>, Seq<char>>,
)
    ensures
        ({
            let pedido = |p: Seq<char>|
                v.items.contains_key(p) && forall|k: Seq<char>| #[trigger]
                    atributos.contains_key(k) ==> v.items[p].attributes.contains_key(k)
                        && v.items[p].attributes[k] == atributos[k];
            let r = v.hallados(c, atributos);
            &&& !v.collections.contains_key(c) ==> r.len() == 0
            &&& v.collections.contains_key(c) ==> {
                let l = v.collections[c].items.filter(pedido);
                &&& r.len() == l.len()
                &&& forall|i: int|
                    0 <= i < r.len() ==> #[trigger] r[i] == if dbus_api::ruta_valida(l[i]) {
                        l[i]
                    } else {
                        "/"@
                    }
            }
            &&& forall|q: Seq<char>| #[trigger]
                r.contains(q) ==> exists|p: Seq<char>|
                    v.collections.contains_key(c) && #[trigger] v.collections[c].items.contains(p)
                        && v.items.contains_key(p) && q == dbus_api::ruta_o_raiz(p) && forall|k: Seq<char>|
                        #[trigger] atributos.contains_key(k) ==> v.items[p].attributes.contains_key(k)
                            && v.items[p].attributes[k] == atributos[k]
            &&& forall|p: Seq<char>|
                v.collections.contains_key(c) && #[trigger] v.collections[c].items.contains(p)
                    && v.items.contains_key(p) && (forall|k: Seq<char>| #[trigger]
                    atributos.contains_key(k) ==> v.items[p].attributes.contains_key(k)
                        && v.items[p].attributes[k] == atributos[k]) ==> r.contains(dbus_api::ruta_o_raiz(p))
        }),
{
    let pedido = |p: Seq<char>|
        v.items.contains_key(p) && forall|k: Seq<char>| #[trigger]
            atributos.contains_key(k) ==> v.items[p].attributes.contains_key(k) && v.items[p].attributes[k]
                == atributos[k];
    let f = v.los_que_cumplen(atributos);
    let r = v.hallados(c, atributos);
    let todos = v.lista(c);
    assert forall|p: Seq<char>| #[trigger] todos.contains(p) implies f(p) == pedido(p) by {
        if pedido(p) {
            assert(atributos.submap_of(v.items[p].attributes));
        }
        if f(p) {
            assert forall|k: Seq<char>| #[trigger] atributos.contains_key(k) implies v.items[p].attributes.contains_key(k)
                && v.items[p].attributes[k] == atributos[k] by {
                assert(atributos.dom().contains(k));
            }
        }
    }
    el_mismo_filtro(todos, f, pedido);
    dbus_api::transiciones::filtro_es(todos, pedido);
    let l = todos.filter(pedido);
    assert forall|q: Seq<char>| #[trigger] r.contains(q) implies exists|p: Seq<char>|
        v.collections.contains_key(c) && #[trigger] v.collections[c].items.contains(p) && v.items.contains_key(p) && q
            == dbus_api::ruta_o_raiz(p) && forall|k: Seq<char>| #[trigger]
            atributos.contains_key(k) ==> v.items[p].attributes.contains_key(k) && v.items[p].attributes[k]
                == atributos[k] by {
        let i = r.index_of(q);
        assert(r[i] == q);
        assert(l.contains(l[i]));
        assert(todos.contains(l[i]));
        assert(pedido(l[i]));
        assert(v.collections[c].items.contains(l[i]));
    }
    assert forall|p: Seq<char>|
        v.collections.contains_key(c) && #[trigger] v.collections[c].items.contains(p) && v.items.contains_key(p)
            && (forall|k: Seq<char>| #[trigger]
            atributos.contains_key(k) ==> v.items[p].attributes.contains_key(k) && v.items[p].attributes[k]
                == atributos[k]) implies r.contains(dbus_api::ruta_o_raiz(p)) by {
        assert(pedido(p));
        assert(l.contains(p));
        let j = l.index_of(p);
        assert(r[j] == dbus_api::ruta_o_raiz(p));
    }
}

/// A search in the whole service walks every collection, and tells what can be
/// read now from what cannot: a path is among the first exactly where an item of
/// an open collection has the attributes asked for while there is a master
/// password, and among the others exactly where an item of a collection that is
/// locked, or of any while there is none, has them.
pub proof fn una_busqueda_separa_lo_cerrado(
    v: EstadoVista,
    s: SesionVista,
    orden: Seq<Seq<char>>,
    atributos: Map<Seq<char>, Seq<char>>,
    cerradas: bool,
    q: Seq<char>,
)
    requires
        orden.to_set() == v.collections.dom(),
    ensures
        v.hallados_en(s, orden, atributos, cerradas).contains(q) <==> exists|c: Seq<char>, p: Seq<char>|
            v.collections.contains_key(c) && #[trigger] v.collections[c].items.contains(p) && v.items.contains_key(p)
                && q == dbus_api::ruta_o_raiz(p) && (forall|k: Seq<char>| #[trigger]
                atributos.contains_key(k) ==> v.items[p].attributes.contains_key(k) && v.items[p].attributes[k]
                    == atributos[k]) && (v.collections[c].locked || (s.maestra is None && s.entorno is None))
                == cerradas,
{
    assert forall|c: Seq<char>| #[trigger] orden.contains(c) implies v.collections.contains_key(c) by {
        assert(orden.to_set().contains(c));
    }
    hallados_por_partes(v, s, orden, atributos, cerradas, q);
    if v.hallados_en(s, orden, atributos, cerradas).contains(q) {
        let c = choose|c: Seq<char>| #[trigger]
            orden.contains(c) && s.cerrada(v.collections[c].locked) == cerradas && v.hallados(c, atributos).contains(q);
        una_busqueda_compara_los_valores(v, c, atributos);
        let p = choose|p: Seq<char>|
            v.collections.contains_key(c) && #[trigger] v.collections[c].items.contains(p) && v.items.contains_key(p)
                && q == dbus_api::ruta_o_raiz(p) && forall|k: Seq<char>| #[trigger]
                atributos.contains_key(k) ==> v.items[p].attributes.contains_key(k) && v.items[p].attributes[k]
                    == atributos[k];
        assert(v.collections[c].items.contains(p));
    }
    if exists|c: Seq<char>, p: Seq<char>|
        v.collections.contains_key(c) && #[trigger] v.collections[c].items.contains(p) && v.items.contains_key(p) && q
            == dbus_api::ruta_o_raiz(p) && (forall|k: Seq<char>| #[trigger]
            atributos.contains_key(k) ==> v.items[p].attributes.contains_key(k) && v.items[p].attributes[k]
                == atributos[k]) && (v.collections[c].locked || (s.maestra is None && s.entorno is None))
            == cerradas {
        let (c, p) = choose|c: Seq<char>, p: Seq<char>|
            v.collections.contains_key(c) && #[trigger] v.collections[c].items.contains(p) && v.items.contains_key(p)
                && q == dbus_api::ruta_o_raiz(p) && (forall|k: Seq<char>| #[trigger]
                atributos.contains_key(k) ==> v.items[p].attributes.contains_key(k) && v.items[p].attributes[k]
                    == atributos[k]) && (v.collections[c].locked || (s.maestra is None && s.entorno is None))
                == cerradas;
        una_busqueda_compara_los_valores(v, c, atributos);
        assert(v.hallados(c, atributos).contains(q));
        assert(orden.to_set().contains(c));
        assert(orden.contains(c));
    }
}

/// A search in the whole service gives back no path twice, and the items of each
/// collection together, in the order of its list, collection after collection.
pub proof fn una_busqueda_no_repite(
    v: EstadoVista,
    s: SesionVista,
    orden: Seq<Seq<char>>,
    atributos: Map<Seq<char>, Seq<char>>,
    cerradas: bool,
)
    requires
        v.valido(),
        orden.no_duplicates(),
        forall|c: Seq<char>| #[trigger] orden.contains(c) ==> v.collections.contains_key(c),
        forall|c: Seq<char>, p: Seq<char>| #[trigger] v.en(c, p) ==> dbus_api::ruta_valida(p),
    ensures
        v.hallados_en(s, orden, atributos, cerradas).no_duplicates(),
        orden.len() == 0 ==> v.hallados_en(s, orden, atributos, cerradas).len() == 0,
        orden.len() > 0 ==> v.hallados_en(s, orden, atributos, cerradas) == v.hallados_en(
            s,
            orden.drop_last(),
            atributos,
            cerradas,
        ) + (if (v.collections[orden.last()].locked || (s.maestra is None && s.entorno is None)) == cerradas {
            v.hallados(orden.last(), atributos)
        } else {
            Seq::empty()
        }),
    decreases orden.len(),
{
    if orden.len() > 0 {
        let c = orden.last();
        let previas = orden.drop_last();
        assert(orden[orden.len() - 1] == c);
        assert(orden.contains(c));
        assert forall|d: Seq<char>| #[trigger] previas.contains(d) implies v.collections.contains_key(d) && d != c by {
            let j = previas.index_of(d);
            assert(orden[j] == d);
            assert(orden.contains(d));
        }
        una_busqueda_no_repite(v, s, previas, atributos, cerradas);
        let antes = v.hallados_en(s, previas, atributos, cerradas);
        let suyos = v.hallados(c, atributos);
        let todo = v.hallados_en(s, orden, atributos, cerradas);
        let f = v.los_que_cumplen(atributos);
        let l = v.lista(c).filter(f);
        dbus_api::transiciones::filtro_es(v.lista(c), f);
        assert forall|i: int| 0 <= i < suyos.len() implies #[trigger] suyos[i] == l[i] && v.en(c, l[i]) by {
            assert(l.contains(l[i]));
            assert(v.en(c, l[i]));
        }
        if s.cerrada(v.collections[c].locked) == cerradas {
            assert forall|i: int, j: int| 0 <= i < todo.len() && 0 <= j < todo.len() && i != j implies todo[i]
                != todo[j] by {
                let n = antes.len() as int;
                if i < n && j < n {
                    assert(antes[i] != antes[j]);
                } else if i >= n && j >= n {
                    assert(suyos[i - n] == l[i - n] && suyos[j - n] == l[j - n]);
                } else {
                    let (a, b) = if i < n {
                        (i, j - n)
                    } else {
                        (j, i - n)
                    };
                    assert(suyos[b] == l[b]);
                    assert(antes.contains(antes[a]));
                    hallados_por_partes(v, s, previas, atributos, cerradas, antes[a]);
                    let d = choose|d: Seq<char>| #[trigger]
                        previas.contains(d) && s.cerrada(v.collections[d].locked) == cerradas && v.hallados(
                            d,
                            atributos,
                        ).contains(antes[a]);
                    una_busqueda_compara_los_valores(v, d, atributos);
                    let p = choose|p: Seq<char>|
                        v.collections.contains_key(d) && #[trigger] v.collections[d].items.contains(p)
                            && v.items.contains_key(p) && antes[a] == dbus_api::ruta_o_raiz(p) && forall|k: Seq<char>|
                            #[trigger] atributos.contains_key(k) ==> v.items[p].attributes.contains_key(k)
                                && v.items[p].attributes[k] == atributos[k];
                    assert(v.en(d, p));
                    assert(v.en(c, l[b]));
                }
            }
        } else {
            assert(todo =~= antes + Seq::<Seq<char>>::empty());
        }
    }
}

/// A search in some collections gives back what a search in one of them gives.
proof fn hallados_por_partes(
    v: EstadoVista,
    s: SesionVista,
    orden: Seq<Seq<char>>,
    atributos: Map<Seq<char>, Seq<char>>,
    cerradas: bool,
    q: Seq<char>,
)
    ensures
        v.hallados_en(s, orden, atributos, cerradas).contains(q) <==> exists|c: Seq<char>| #[trigger]
            orden.contains(c) && s.cerrada(v.collections[c].locked) == cerradas && v.hallados(c, atributos).contains(q),
    decreases orden.len(),
{
    if orden.len() > 0 {
        let c = orden.last();
        let antes = v.hallados_en(s, orden.drop_last(), atributos, cerradas);
        let todo = v.hallados_en(s, orden, atributos, cerradas);
        let suyos = v.hallados(c, atributos);
        hallados_por_partes(v, s, orden.drop_last(), atributos, cerradas, q);
        assert(orden[orden.len() - 1] == c);
        assert(orden.contains(c));
        assert forall|d: Seq<char>| #[trigger] orden.contains(d) <==> orden.drop_last().contains(d) || d == c by {
            if orden.contains(d) {
                let j = orden.index_of(d);
                if j < orden.len() - 1 {
                    assert(orden.drop_last()[j] == d);
                }
            }
            if orden.drop_last().contains(d) {
                let j = orden.drop_last().index_of(d);
                assert(orden[j] == d);
            }
        }
        if s.cerrada(v.collections[c].locked) == cerradas {
            assert(todo == antes + suyos);
            assert(todo.contains(q) <==> antes.contains(q) || suyos.contains(q)) by {
                if todo.contains(q) {
                    let j = todo.index_of(q);
                    if j < antes.len() {
                        assert(antes[j] == q);
                    } else {
                        assert(suyos[j - antes.len()] == q);
                    }
                }
                if antes.contains(q) {
                    assert(todo[antes.index_of(q)] == q);
                }
                if suyos.contains(q) {
                    assert(todo[antes.len() + suyos.index_of(q)] == q);
                }
            }
        }
        if antes.contains(q) {
            let d = choose|d: Seq<char>| #[trigger]
                orden.drop_last().contains(d) && s.cerrada(v.collections[d].locked) == cerradas && v.hallados(
                    d,
                    atributos,
                ).contains(q);
            assert(orden.contains(d));
        }
    }
}

// ── Delivering secrets ─────────────────────────────────────

/// A secret is delivered exactly where the item is there, the session is open,
/// and no collection that lists the item is locked or without a master password.
/// The collection that decides is the one that lists the item.
pub proof fn se_entrega_lo_que_esta_abierto(v: EstadoVista, s: SesionVista, item: Seq<char>, session: Seq<char>)
    requires
        v.valido(),
    ensures
        v.negativa_a_entregar(s, item, session) is None <==> {
            &&& v.items.contains_key(item)
            &&& v.sessions.contains_key(session)
            &&& forall|c: Seq<char>|
                v.collections.contains_key(c) && #[trigger] v.collections[c].items.contains(item)
                    ==> !v.collections[c].locked && (s.maestra is Some || s.entorno is Some)
        },
        (exists|c: Seq<char>|
            v.collections.contains_key(c) && #[trigger] v.collections[c].items.contains(item) && (
            v.collections[c].locked || (s.maestra is None && s.entorno is None))) ==> v.negativa_a_entregar(
            s,
            item,
            session,
        ) == Some("collection is locked"@),
        !v.items.contains_key(item) ==> v.negativa_a_entregar(s, item, session) == Some("item not found"@),
        v.items.contains_key(item) && !v.sessions.contains_key(session) && (forall|c: Seq<char>|
            v.collections.contains_key(c) ==> !(#[trigger] v.collections[c].items.contains(item)))
            ==> v.negativa_a_entregar(s, item, session) == Some("session not found"@),
        v.duena(item) matches Some(c) ==> v.collections.contains_key(c) && v.collections[c].items.contains(item),
        v.duena(item) is None ==> forall|c: Seq<char>|
            v.collections.contains_key(c) ==> !(#[trigger] v.collections[c].items.contains(item)),
{
    if exists|c: Seq<char>| v.en(c, item) {
        let c = choose|c: Seq<char>| v.en(c, item);
        dbus_api::transiciones::una_sola_duena(v, c, item);
        assert(v.collections[c].items.contains(item));
        assert forall|d: Seq<char>|
            v.collections.contains_key(d) && #[trigger] v.collections[d].items.contains(item) implies d == c by {
            assert(v.en(d, item));
        }
    } else {
        assert forall|c: Seq<char>| v.collections.contains_key(c) implies !(
        #[trigger] v.collections[c].items.contains(item)) by {
            assert(!v.en(c, item));
        }
    }
}

/// What is delivered is the secret of the item: as it is over a session that does
/// not encrypt, and in a form that the key of the session opens to it over one
/// that does.
pub proof fn lo_entregado_es_el_secreto(
    sesion: SessionVista,
    secreto: Seq<u8>,
    parameters: Seq<u8>,
    value: Seq<u8>,
)
    requires
        dbus_api::item::entregado(sesion, secreto, parameters, value),
    ensures
        match sesion.shared_key {
            None => value == secreto && parameters.len() == 0,
            Some(clave) => clave.len() == 16 && parameters.len() == 16 && crate::primitivas::cbc_abierto(
                clave,
                parameters,
                value,
            ) == Some(secreto),
        },
{
}

/// What a client sent is read as it is over a session that does not encrypt, and
/// opened with the key of the session and the parameters as its IV over one that
/// does.
pub proof fn lo_recibido_es_lo_mandado(sesion: SessionVista, parameters: Seq<u8>, value: Seq<u8>, texto: Seq<u8>)
    ensures
        sesion.recibido(parameters, value) == Ok::<Seq<u8>, ErrorVista>(texto) <==> match sesion.shared_key {
            None => texto == value,
            Some(clave) => clave.len() == 16 && parameters.len() == 16 && crate::primitivas::cbc_abierto(
                clave,
                parameters,
                value,
            ) == Some(texto),
        },
{
}

// ── The session of the daemon ──────────────────────────────

/// The master password in force is the one delivered, and that of the environment
/// only while none was. Secrets are served by a collection that is open while
/// there is one. Storing is refused while the database was not opened, whatever
/// password there is, and while there is none.
pub proof fn la_maestra_entregada_manda(s: SesionVista, locked: bool)
    ensures
        s.maestra is Some ==> s.vigente() == s.maestra,
        s.maestra is None ==> s.vigente() == s.entorno,
        s.cerrada(locked) <==> locked || (s.maestra is None && s.entorno is None),
        s.bloqueo is Some ==> s.impedimento() == s.bloqueo,
        s.bloqueo is None ==> (s.impedimento() is Some <==> s.maestra is None && s.entorno is None),
{
}

/// A wrong password adds one to the count, and the third in a row closes the door
/// for thirty seconds and starts the count over; a right one forgets both.
/// Neither touches the passwords nor what may be written.
pub proof fn un_intento_cambia_solo_la_cuenta(s: SesionVista, ahora: u64)
    ensures
        ({
            let f = s.tras_fallo(ahora);
            let a = s.tras_acierto();
            &&& s.fallos < 2 ==> f.fallos == s.fallos + 1 && f.cerrada_hasta == s.cerrada_hasta
            &&& s.fallos >= 2 ==> f.fallos == 0 && f.cerrada_hasta == Some((ahora + 30_000_000_000) as nat)
            &&& a.fallos == 0
            &&& a.cerrada_hasta is None
            &&& f.maestra == s.maestra && a.maestra == s.maestra
            &&& f.entorno == s.entorno && a.entorno == s.entorno
            &&& f.bloqueo == s.bloqueo && a.bloqueo == s.bloqueo
            &&& f.siguiente_dialogo == s.siguiente_dialogo && a.siguiente_dialogo == s.siguiente_dialogo
        }),
{
}

/// The seconds that are left of a wait are the whole ones, and one at least.
pub proof fn lo_que_falta_son_segundos(s: SesionVista, ahora: u64)
    ensures
        s.cerrada_hasta is None ==> s.faltan(ahora) is None,
        s.cerrada_hasta matches Some(hasta) ==> {
            &&& s.faltan(ahora) is None <==> hasta <= ahora
            &&& hasta > ahora && hasta - ahora < 2_000_000_000 ==> s.faltan(ahora) == Some(1nat)
            &&& hasta > ahora && hasta - ahora >= 1_000_000_000 ==> (s.faltan(ahora) matches Some(n) && n
                * 1_000_000_000 <= hasta - ahora && hasta - ahora < (n + 1) * 1_000_000_000)
        },
{
}

// ── The database on disk ───────────────────────────────────

/// An item of the database is held with its label, its attributes and its secret,
/// as text of the date it was loaded; and what is kept of an item in memory is its
/// label, its attributes and its secret.
pub proof fn se_carga_y_se_guarda_lo_mismo(
    db: Seq<SecretItemVista>,
    items: Seq<ItemVista>,
    ahora: u64,
)
    ensures
        ({
            let c = dbus_api::disco::cargados(db, ahora);
            &&& c.len() == db.len()
            &&& forall|i: int|
                0 <= i < db.len() ==> {
                    &&& (#[trigger] c[i]).label == db[i].label
                    &&& c[i].attributes == db[i].attributes
                    &&& c[i].secret == db[i].secret
                    &&& c[i].content_type == "text/plain"@
                    &&& c[i].created == ahora
                    &&& c[i].modified == ahora
                }
        }),
        ({
            let g = dbus_api::disco::guardados(items);
            &&& g.len() == items.len()
            &&& forall|i: int|
                0 <= i < items.len() ==> {
                    &&& (#[trigger] g[i]).label == items[i].label
                    &&& g[i].attributes == items[i].attributes
                    &&& g[i].secret == items[i].secret
                    &&& g[i] == dbus_api::disco::guardado(items[i])
                }
        }),
{
}

/// A password opens a database where the cipher opens what was read with it and
/// the text is that of a database; a machine without one takes any password; and
/// a file that could not be read is opened by none.
pub proof fn abre_la_contrasena_que_descifra(i: IntentoVista, items: Items)
    ensures
        i.leido is Err ==> dbus_api::disco::abierta_por(i, items) is None,
        i.leido matches Ok(None) ==> dbus_api::disco::abierta_por(i, items) == Some(Seq::<SecretItemVista>::empty()),
        i.leido matches Ok(Some(datos)) ==> match i.password {
            None => dbus_api::disco::abierta_por(i, items) is None && i.texto() is None,
            Some(p) => match crate::crypto::descifrada(datos, p) {
                Err(_) => dbus_api::disco::abierta_por(i, items) is None && i.texto() is None,
                Ok(t) => i.texto() == Some(t) && (match items {
                    Ok(db) => dbus_api::disco::abierta_por(i, items) == Some(db@),
                    Err(_) => dbus_api::disco::abierta_por(i, items) is None,
                }),
            },
        },
        !(i.leido matches Ok(Some(_))) ==> i.texto() is None,
{
}

/// Adopting a password puts it in force and forgets the wrong ones, and does not
/// allow writing by itself; loading the collection does. Seeding from a database
/// that was not opened forbids writing. None of them touches anything else.
pub proof fn adoptar_no_alcanza_para_escribir(s: SesionVista, password: Seq<char>, undecrypted: bool)
    ensures
        ({
            let a = dbus_api::disco::adoptada(s, password);
            let d = dbus_api::disco::desbloqueada(s, password);
            let b = dbus_api::disco::sembrada(s, undecrypted);
            let e = dbus_api::disco::sin_espera(s);
            &&& a.maestra == Some(password) && d.maestra == Some(password)
            &&& a.bloqueo == s.bloqueo && d.bloqueo is None
            &&& a.entorno == s.entorno && d.entorno == s.entorno
            &&& a.fallos == 0 && d.fallos == 0
            &&& a.cerrada_hasta is None && d.cerrada_hasta is None
            &&& a.siguiente_dialogo == s.siguiente_dialogo && d.siguiente_dialogo == s.siguiente_dialogo
            &&& undecrypted ==> b.bloqueo is Some
            &&& !undecrypted ==> b.bloqueo == s.bloqueo
            &&& b.maestra == s.maestra && e.maestra == s.maestra
            &&& b.entorno == s.entorno && e.entorno == s.entorno
            &&& b.fallos == s.fallos && b.cerrada_hasta == s.cerrada_hasta
            &&& b.siguiente_dialogo == s.siguiente_dialogo && e.siguiente_dialogo == s.siguiente_dialogo
            &&& e.bloqueo == s.bloqueo
            &&& e.cerrada_hasta is None
            &&& s.cerrada_hasta is None ==> e.fallos == s.fallos
            &&& s.cerrada_hasta is Some ==> e.fallos == 0
        }),
{
}

/// Whoever tries a password is told to wait exactly while there are seconds left,
/// and told how many.
pub proof fn se_espera_lo_que_falta(s: SesionVista, instante: u64)
    ensures
        match s.faltan(instante) {
            None => dbus_api::disco::espera(s, instante) is None,
            Some(n) => dbus_api::disco::espera(s, instante) == Some(
                "demasiados intentos fallidos: probá de nuevo en "@ + crate::texto::decimal(n) + " s"@,
            ),
        },
{
}

/// Unlocking the keyring makes its secrets served: where the login collection was
/// not locked, once a password opened the database every item of it is in that
/// collection, which is open, and is delivered with its secret over every session.
pub proof fn desbloquear_sirve_los_secretos(
    v: EstadoVista,
    s: SesionVista,
    i: IntentoVista,
    items: Items,
    password: Seq<char>,
    db: Seq<SecretItemVista>,
    ahora: u64,
    session: Seq<char>,
)
    requires
        v.valido(),
        !(v.collections.contains_key(COLECCION_DEL_LOGIN@) && v.collections[COLECCION_DEL_LOGIN@].locked),
        v.sessions.contains_key(session),
        i.password == Some(password),
        dbus_api::disco::abierta_por(i, items) == Some(db),
        dbus_api::disco::entregable(db),
    ensures
        ({
            let w = v.recargada(COLECCION_DEL_LOGIN@, dbus_api::disco::cargados(db, ahora), ahora);
            let t = dbus_api::disco::desbloqueada(s, password);
            let l = w.collections[COLECCION_DEL_LOGIN@].items;
            &&& !t.cerrada(w.collections[COLECCION_DEL_LOGIN@].locked)
            &&& l.len() == db.len()
            &&& forall|k: int|
                0 <= k < l.len() ==> w.negativa_a_entregar(t, #[trigger] l[k], session) is None
                    && w.items[l[k]].secret == db[k].secret && w.items[l[k]].label == db[k].label
                    && w.items[l[k]].attributes == db[k].attributes
            &&& t.impedimento() is None
        }),
{
    let cargados = dbus_api::disco::cargados(db, ahora);
    let w = v.recargada(COLECCION_DEL_LOGIN@, cargados, ahora);
    let t = dbus_api::disco::desbloqueada(s, password);
    let l = w.collections[COLECCION_DEL_LOGIN@].items;
    assert(dbus_api::transiciones::caben(cargados));
    recargar_no_toca_el_candado(v, COLECCION_DEL_LOGIN@, cargados, ahora);
    dbus_api::transiciones::recargada_es_valido(v, COLECCION_DEL_LOGIN@, cargados, ahora);
    assert forall|k: int| 0 <= k < l.len() implies w.negativa_a_entregar(t, #[trigger] l[k], session) is None
        && w.items[l[k]].secret == db[k].secret && w.items[l[k]].label == db[k].label && w.items[l[k]].attributes
        == db[k].attributes by {
        assert(l.contains(l[k]));
        assert(w.en(COLECCION_DEL_LOGIN@, l[k]));
        dbus_api::transiciones::una_sola_duena(w, COLECCION_DEL_LOGIN@, l[k]);
        assert(w.items[l[k]] == cargados[k]);
    }
}

/// The database is a file of its own under the data directory, and there is none
/// under a directory that is not absolute.
pub proof fn la_base_cuelga_del_directorio(base: Seq<u8>)
    ensures
        dbus_api::disco::ruta_bajo(None) is None,
        base.len() == 0 || base[0] != 0x2F ==> dbus_api::disco::ruta_bajo(Some(base)) is None,
        base.len() > 0 && base[0] == 0x2F ==> (dbus_api::disco::ruta_bajo(Some(base)) matches Some(p) && {
            let cola = vstd::utf8::encode_utf8("vasak-keyring/keyring.db"@);
            &&& base.is_prefix_of(p)
            &&& cola.is_suffix_of(p)
            &&& p.len() == base.len() + cola.len() + (if base.last() == 0x2F {
                0int
            } else {
                1int
            })
            &&& p[p.len() - cola.len() - 1] == 0x2F
        }),
{
    if base.len() > 0 && base[0] == 0x2F {
        let cola = vstd::utf8::encode_utf8("vasak-keyring/keyring.db"@);
        let p = dbus_api::disco::ruta_bajo(Some(base))->0;
        assert(base =~= p.subrange(0, base.len() as int));
        assert(cola =~= p.subrange(p.len() - cola.len(), p.len() as int));
    }
}

/// The journal is told of a database that waits for its password, without calling
/// it a failure, and of one that a password did not open; and of nothing else.
pub proof fn el_diario_distingue_la_espera_del_fallo(i: IntentoVista, items: Items)
    ensures
        (dbus_api::disco::aviso_de(i, items) matches Some(AvisoVista::Informe(_))) <==> (i.leido matches Ok(Some(_)))
            && i.password is None,
        (dbus_api::disco::aviso_de(i, items) matches Some(AvisoVista::Fallo(_))) <==> (i.leido matches Ok(Some(_)))
            && i.password is Some && dbus_api::disco::abierta_por(i, items) is None,
{
}

// ── What a call does not touch ─────────────────────────────

/// An item stays as it is through every call that is not about it: through what
/// is done to other items, to collections that do not list it, to aliases, to
/// locks and to sessions.
pub proof fn lo_ajeno_no_se_toca(v: EstadoVista, l: dbus_api::leyes::Llamada, p: Seq<char>)
    requires
        v.valido(),
        v.items.contains_key(p),
        match l {
            dbus_api::leyes::Llamada::Alta { coleccion, properties, replace, .. } => !(replace
                && v.collections.contains_key(coleccion) && v.collections[coleccion].items.contains(p)
                && v.items[p].attributes == dbus_api::atributos_en(properties)),
            dbus_api::leyes::Llamada::Cambio { item, .. } => item != p,
            dbus_api::leyes::Llamada::BajaDeItem { item } => item != p,
            dbus_api::leyes::Llamada::Recarga { coleccion, .. } => !(v.collections.contains_key(coleccion)
                && v.collections[coleccion].items.contains(p)),
            dbus_api::leyes::Llamada::BajaDeColeccion { coleccion } => !(v.collections.contains_key(coleccion)
                && v.collections[coleccion].items.contains(p)),
            _ => true,
        },
    ensures
        v.tras(l).items.contains_key(p),
        v.tras(l).items[p] == v.items[p],
{
    match l {
        dbus_api::leyes::Llamada::Alta { maestra, coleccion, properties, secret, replace, ahora } => {
            if let Ok(w) = v.alta(maestra, coleccion, properties, secret, replace, ahora) {
                crear_un_item_cambia_una_coleccion(
                    v,
                    maestra,
                    coleccion,
                    properties,
                    secret,
                    replace,
                    ahora,
                    w,
                );
            }
        },
        dbus_api::leyes::Llamada::Secreto { coleccion, nuevo, ahora } => {
            dbus_api::un_numero_sin_usar_es_nuevo(v, coleccion, v.next_item);
        },
        dbus_api::leyes::Llamada::Coleccion { coleccion, alias, label, cargados, ahora } => {
            registrar_una_coleccion_agrega_lo_suyo(v, coleccion, alias, label, cargados, ahora);
        },
        dbus_api::leyes::Llamada::Recarga { coleccion, cargados, ahora } => {
            recargar_no_toca_el_candado(v, coleccion, cargados, ahora);
        },
        _ => {},
    }
}

// ── What clients send and see ──────────────────────────────

/// The text that properties hold under a name is the one the client sent there;
/// where it sent none, or something that is not text, it is the other one.
pub proof fn una_propiedad_es_la_mandada(
    properties: Map<Seq<char>, ValorVista>,
    nombre: Seq<char>,
    otro: Seq<char>,
)
    ensures
        properties.contains_key(nombre) ==> (properties[nombre] matches ValorVista::Texto(t) ==> dbus_api::texto_o(
            properties,
            nombre,
            otro,
        ) == t),
        !(properties.contains_key(nombre) && properties[nombre] is Texto) ==> dbus_api::texto_o(
            properties,
            nombre,
            otro,
        ) == otro,
{
}

/// A collection is shown with the items it lists, in order, as far as their paths
/// are valid; and a call on some paths answers with those of them that are
/// collections, in the order in which they came.
pub proof fn se_listan_las_que_hay(v: EstadoVista, rutas: Seq<Seq<char>>, q: Seq<char>)
    ensures
        rutas.filter(dbus_api::collection::las_validas()) == rutas.filter(|p: Seq<char>| dbus_api::ruta_valida(p)),
        rutas.filter(v.las_que_hay()) == rutas.filter(|c: Seq<char>| v.collections.contains_key(c)),
        rutas.filter(v.las_que_hay()).contains(q) <==> rutas.contains(q) && v.collections.contains_key(q),
        rutas.filter(dbus_api::collection::las_validas()).contains(q) <==> rutas.contains(q) && dbus_api::ruta_valida(
            q,
        ),
{
    el_mismo_filtro(
        rutas,
        dbus_api::collection::las_validas(),
        |p: Seq<char>| dbus_api::ruta_valida(p),
    );
    el_mismo_filtro(rutas, v.las_que_hay(), |c: Seq<char>| v.collections.contains_key(c));
    dbus_api::transiciones::filtro_es(rutas, v.las_que_hay());
    dbus_api::transiciones::filtro_es(rutas, dbus_api::collection::las_validas());
}

/// A service that has just started holds nothing, and hands out numbers from zero.
pub proof fn al_empezar_no_hay_nada(p: Seq<char>)
    ensures
        !dbus_api::estado_inicial().items.contains_key(p),
        !dbus_api::estado_inicial().collections.contains_key(p),
        !dbus_api::estado_inicial().sessions.contains_key(p),
        !dbus_api::estado_inicial().aliases.contains_key(p),
        dbus_api::estado_inicial().next_item == 0,
        dbus_api::estado_inicial().next_session == 0,
        dbus_api::estado_inicial().next_collection == 0,
{
}

/// A machine without a database seeds an empty collection and forbids nothing, and
/// so does a keyring that has nowhere to be; a file that could not be read seeds
/// none, and the error says why.
pub proof fn sin_base_se_empieza_vacio(i: IntentoVista, items: Items, ahora: u64)
    ensures
        i.leido matches Ok(None) ==> dbus_api::disco::siembra(i, items, ahora) == Ok::<
            (Seq<ItemVista>, bool),
            ErrorVista,
        >((Seq::empty(), false)),
        dbus_api::disco::siembra_de(None, ahora) == Ok::<(Seq<ItemVista>, bool), ErrorVista>((Seq::empty(), false)),
        i.leido matches Err(e) ==> dbus_api::disco::siembra(i, items, ahora) == Err::<
            (Seq<ItemVista>, bool),
            ErrorVista,
        >(ErrorVista::Failed("no se pudo leer la base del llavero: "@ + e)),
{
}

/// Seeding a collection from the disk goes by the attempt that was made.
pub proof fn se_siembra_del_intento(intento: super::disco::Intento, items: Items, ahora: u64)
    ensures
        dbus_api::disco::siembra_de(Some((&intento, &items)), ahora) == dbus_api::disco::siembra(
            intento@,
            items,
            ahora,
        ),
{
}

/// Contracts speak of lists of texts and of items one by one, each as it is, and
/// of an optional text as that text.
pub proof fn las_vistas_no_pierden_nada(
    rutas: Seq<String>,
    items: Seq<super::ItemInfo>,
    t: String,
    b: Vec<u8>,
    e: String,
)
    ensures
        dbus_api::rutas(rutas).len() == rutas.len(),
        forall|i: int| 0 <= i < rutas.len() ==> #[trigger] dbus_api::rutas(rutas)[i] == rutas[i]@,
        dbus_api::disco::vistas(items).len() == items.len(),
        forall|i: int| 0 <= i < items.len() ==> #[trigger] dbus_api::disco::vistas(items)[i] == items[i]@,
        dbus_api::sesion::vista_de_texto(Some(t)) == Some(t@),
        dbus_api::sesion::vista_de_texto(None) is None,
        dbus_api::sesion::vista_de_secreto(None) is None,
        dbus_api::disco::vista_de_str(None) is None,
        dbus_api::disco::vista_de_lectura(Ok(Some(b))) == Ok::<Option<Seq<u8>>, Seq<char>>(Some(b@)),
        dbus_api::disco::vista_de_lectura(Ok(None)) == Ok::<Option<Seq<u8>>, Seq<char>>(None),
        dbus_api::disco::vista_de_lectura(Err(e)) == Err::<Option<Seq<u8>>, Seq<char>>(e@),
        crate::crypto::vista(Ok(b)) == Ok::<Seq<u8>, Seq<char>>(b@),
        crate::crypto::vista(Err(e)) == Err::<Seq<u8>, Seq<char>>(e@),
{
}

/// A secret or a text that is there is spoken of as what it is.
pub proof fn un_secreto_se_ve_como_es(s: crate::secreto::Secreto, t: &str)
    ensures
        dbus_api::sesion::vista_de_secreto(Some(s)) == Some(s@),
        dbus_api::disco::vista_de_str(Some(t)) == Some(t@),
{
}

/// The list of a collection is the one it holds, and an item is in a collection
/// where that list holds it.
pub proof fn un_item_esta_donde_se_lista(v: EstadoVista, c: Seq<char>, p: Seq<char>)
    ensures
        v.collections.contains_key(c) ==> v.lista(c) == v.collections[c].items,
        !v.collections.contains_key(c) ==> v.lista(c).len() == 0,
        v.en(c, p) <==> v.collections.contains_key(c) && v.collections[c].items.contains(p),
{
}

/// Each object has a path of its own kind: an item under its collection, with its
/// number; a session, a collection and an alias under the service. A path that is
/// not valid is shown as the root, or reported.
pub proof fn cada_objeto_tiene_su_ruta(c: Seq<char>, id: nat, p: Seq<char>)
    ensures
        c.is_prefix_of(dbus_api::ruta_de_item(c, id)),
        dbus_api::ruta_de_item(c, id) == c + "/items/"@ + crate::texto::decimal(id),
        dbus_api::ruta_de_sesion(id) == "/org/freedesktop/secrets/session/s"@ + crate::texto::decimal(id),
        dbus_api::ruta_de_coleccion(c) == "/org/freedesktop/secrets/collection/"@ + c,
        dbus_api::ruta_de_alias(c) == "/org/freedesktop/secrets/aliases/"@ + c,
        dbus_api::ruta_valida(p) ==> dbus_api::ruta_o_raiz(p) == p && dbus_api::service::ruta_o_error(p) == Ok::<
            Seq<char>,
            ErrorVista,
        >(p),
        !dbus_api::ruta_valida(p) ==> dbus_api::ruta_o_raiz(p) == "/"@ && (dbus_api::service::ruta_o_error(
            p,
        ) matches Err(e) && e is InvalidArgs),
{
    assert(c =~= dbus_api::ruta_de_item(c, id).subrange(0, c.len() as int));
}

} // verus!
