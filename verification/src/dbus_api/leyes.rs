//! What holds of the service as a whole, over several calls.
use vstd::prelude::*;

use super::disco::{IntentoVista, Items};
use super::sesion::{SesionVista, UNDECRYPTED_MESSAGE, UNLOCK_COOLDOWN};
use super::{EstadoVista, ErrorVista, ItemVista, SecretVista, SessionVista, ValorVista, COLECCION_DEL_LOGIN};
use crate::crypto::SecretItemVista;
use crate::dbus_api;

verus! {

// ── The database is never written over blindly ─────────────

/// A database that exists and that the password of the session does not open, or
/// opens to something that is no database, keeps everything from being written:
/// from the moment a collection is seeded, and still after a password was adopted
/// or refused, no item is created or changed and no application gets a new
/// secret.
pub proof fn sin_abrir_la_base_no_se_escribe(
    s: SesionVista,
    i: IntentoVista,
    items: Items,
    ahora: u64,
    otra: Seq<char>,
    v: EstadoVista,
    c: Seq<char>,
    properties: Map<Seq<char>, ValorVista>,
    secret: SecretVista,
    replace: bool,
    app_id: Seq<char>,
)
    requires
        i.leido matches Ok(Some(_)),
        i.password is Some,
        dbus_api::disco::contenido(i, items) is None,
    ensures
        dbus_api::disco::siembra(i, items, ahora) == Ok::<(Seq<ItemVista>, bool), ErrorVista>(
            (Seq::empty(), true),
        ),
        ({
            let b = dbus_api::disco::sembrada(s, true);
            forall|x: SesionVista|
                x == b || x == dbus_api::disco::adoptada(b, otra) || x == b.tras_fallo(ahora) ==> {
                    &&& #[trigger] x.impedimento() == Some(UNDECRYPTED_MESSAGE@)
                    &&& v.alta(x, c, properties, secret, replace, ahora) == Err::<EstadoVista, ErrorVista>(
                        ErrorVista::Failed(UNDECRYPTED_MESSAGE@),
                    )
                    &&& v.secreto_nuevo(x, c, secret) == Err::<Seq<u8>, ErrorVista>(
                        ErrorVista::Failed(UNDECRYPTED_MESSAGE@),
                    )
                    &&& crate::portal_secret::negativa(x, app_id) is Some
                }
        }),
{
}

/// A start without a password forbids nothing: the database was not tried, and
/// the password that comes later opens it.
pub proof fn un_arranque_sin_contrasena_no_bloquea(i: IntentoVista, items: Items, ahora: u64, s: SesionVista)
    requires
        i.leido is Ok,
        i.password is None,
    ensures
        dbus_api::disco::siembra(i, items, ahora) == Ok::<(Seq<ItemVista>, bool), ErrorVista>(
            (Seq::empty(), false),
        ),
        dbus_api::disco::sembrada(s, false) == s,
{
}

/// A collection is seeded with what the master password in force makes of the
/// database: its items where the password opens it, nothing yet where there is no
/// password, and otherwise nothing, with writing forbidden.
pub proof fn se_siembra_lo_que_la_maestra_abre(
    s: SesionVista,
    i: IntentoVista,
    datos: Seq<u8>,
    items: Items,
    ahora: u64,
)
    requires
        i.leido == Ok::<Option<Seq<u8>>, Seq<char>>(Some(datos)),
        i.password == s.vigente(),
    ensures
        dbus_api::disco::siembra(i, items, ahora) == Ok::<(Seq<ItemVista>, bool), ErrorVista>(
            match s.vigente() {
                None => (Seq::empty(), false),
                Some(p) => match (crate::crypto::descifrada(datos, p), items) {
                    (Ok(_), Ok(db)) => (dbus_api::disco::cargados(db@, ahora), false),
                    _ => (Seq::empty(), true),
                },
            },
        ),
{
}

/// A file that could not be read is never taken for an empty database.
pub proof fn una_base_ilegible_no_es_una_base_vacia(i: IntentoVista, items: Items, ahora: u64)
    requires
        i.leido is Err,
    ensures
        dbus_api::disco::siembra(i, items, ahora) is Err,
        dbus_api::disco::abierta_por(i, items) is None,
{
}

/// A password that opened the database allows writing, once the collection is
/// loaded, whatever forbade it before.
pub proof fn desbloquear_permite_escribir(s: SesionVista, password: Seq<char>)
    ensures
        dbus_api::disco::desbloqueada(s, password).impedimento() is None,
        dbus_api::disco::desbloqueada(s, password).vigente() == Some(password),
{
}

/// Once a collection is loaded, what is in memory is what is on disk: each item
/// of the database is in the collection, in order, with its label, its attributes
/// and its secret. The items of other collections stay as they were.
pub proof fn recargar_deja_en_memoria_lo_del_disco(
    v: EstadoVista,
    c: Seq<char>,
    db: Seq<SecretItemVista>,
    ahora: u64,
)
    requires
        v.valido(),
    ensures
        ({
            let w = v.recargada(c, dbus_api::disco::cargados(db, ahora), ahora);
            &&& w.lista(c).len() == db.len()
            &&& forall|i: int|
                0 <= i < db.len() ==> w.items.contains_key(#[trigger] w.lista(c)[i])
                    && dbus_api::disco::guardado(w.items[w.lista(c)[i]]) == db[i]
            &&& forall|q: Seq<char>| #[trigger]
                v.items.contains_key(q) && !v.lista(c).contains(q) ==> w.items.contains_key(q) && w.items[q]
                    == v.items[q]
            &&& forall|q: Seq<char>| #[trigger]
                w.items.contains_key(q) ==> w.lista(c).contains(q) || (v.items.contains_key(q)
                    && !v.lista(c).contains(q))
        }),
{
    let cargados = dbus_api::disco::cargados(db, ahora);
    let w = v.recargada(c, cargados, ahora);
    let quedan = v.items.remove_keys(v.lista(c).to_set());
    let r = dbus_api::transiciones::rutas_nuevas(c, v.next_item, cargados.len());
    dbus_api::transiciones::con_cargados_es(quedan, c, v.next_item, cargados);
    assert(w.lista(c) == r);
    assert forall|i: int| 0 <= i < db.len() implies w.items.contains_key(#[trigger] w.lista(c)[i])
        && dbus_api::disco::guardado(w.items[w.lista(c)[i]]) == db[i] by {
        assert(r.contains(r[i]));
        assert(w.items[r[i]] == cargados[i]);
    }
    assert forall|q: Seq<char>| #[trigger] v.items.contains_key(q) && !v.lista(c).contains(q) implies w.items.contains_key(
        q,
    ) && w.items[q] == v.items[q] by {
        assert(quedan.contains_key(q));
        if r.contains(q) {
            let j = r.index_of(q);
            dbus_api::un_numero_sin_usar_es_nuevo(v, c, (v.next_item + j) as nat);
        }
    }
}

/// What is written after a collection was loaded holds every item that was on
/// disk: saving never loses what the person had.
pub proof fn guardar_tras_recargar_no_pierde_nada(
    v: EstadoVista,
    c: Seq<char>,
    db: Seq<SecretItemVista>,
    ahora: u64,
    orden: Seq<Seq<char>>,
    escrito: Seq<SecretItemVista>,
)
    requires
        v.valido(),
        ({
            let w = v.recargada(c, dbus_api::disco::cargados(db, ahora), ahora);
            &&& orden.to_set() == w.items.dom()
            &&& escrito.len() == orden.len()
            &&& forall|i: int|
                0 <= i < escrito.len() ==> #[trigger] escrito[i] == dbus_api::disco::guardado(w.items[orden[i]])
        }),
    ensures
        forall|i: int| 0 <= i < db.len() ==> escrito.contains(#[trigger] db[i]),
{
    let w = v.recargada(c, dbus_api::disco::cargados(db, ahora), ahora);
    recargar_deja_en_memoria_lo_del_disco(v, c, db, ahora);
    assert forall|i: int| 0 <= i < db.len() implies escrito.contains(#[trigger] db[i]) by {
        let p = w.lista(c)[i];
        assert(orden.to_set().contains(p));
        let j = orden.index_of(p);
        assert(escrito[j] == db[i]);
    }
}

/// What was encrypted under a password opens again with it, to the same items.
pub proof fn lo_escrito_se_vuelve_a_abrir(
    datos: Seq<u8>,
    password: Seq<char>,
    texto: Seq<u8>,
    items: Items,
    ahora: u64,
)
    requires
        crate::crypto::descifrada(datos, password) == Ok::<Seq<u8>, Seq<char>>(texto),
        items is Ok,
    ensures
        ({
            let i = IntentoVista { leido: Ok(Some(datos)), password: Some(password) };
            &&& i.texto() == Some(texto)
            &&& dbus_api::disco::abierta_por(i, items) == Some(items->Ok_0@)
            &&& dbus_api::disco::siembra(i, items, ahora) == Ok::<(Seq<ItemVista>, bool), ErrorVista>(
                (dbus_api::disco::cargados(items->Ok_0@, ahora), false),
            )
        }),
{
}

/// What is written comes back whole: a text that stands for the items that were
/// written, encrypted under a password, seeds a collection with those items, all
/// of them and in the same order, each with its label, its attributes and its
/// secret, and with nothing else.
pub proof fn lo_escrito_vuelve_entero(
    escritas: Seq<ItemVista>,
    datos: Seq<u8>,
    password: Seq<char>,
    texto: Seq<u8>,
    items: Items,
    ahora: u64,
)
    requires
        crate::crypto::descifrada(datos, password) == Ok::<Seq<u8>, Seq<char>>(texto),
        items matches Ok(db) && db@ == dbus_api::disco::guardados(escritas),
    ensures
        ({
            let i = IntentoVista { leido: Ok(Some(datos)), password: Some(password) };
            let vueltas = dbus_api::disco::cargados(dbus_api::disco::guardados(escritas), ahora);
            &&& dbus_api::disco::abierta_por(i, items) == Some(dbus_api::disco::guardados(escritas))
            &&& dbus_api::disco::siembra(i, items, ahora) == Ok::<(Seq<ItemVista>, bool), ErrorVista>(
                (vueltas, false),
            )
            &&& vueltas.len() == escritas.len()
            &&& forall|k: int|
                0 <= k < escritas.len() ==> (#[trigger] vueltas[k]).label == escritas[k].label
                    && vueltas[k].attributes == escritas[k].attributes && vueltas[k].secret == escritas[k].secret
        }),
{
    lo_escrito_se_vuelve_a_abrir(datos, password, texto, items, ahora);
    dbus_api::disco::guardar_y_cargar_conserva(escritas, ahora);
}

// ── Wrong passwords ────────────────────────────────────────

/// From a right password on, three wrong ones in a row close the door for half a
/// minute, and not before; a right one opens it at once and starts the count
/// over, so that one more wrong password does not close it.
pub proof fn tres_fallos_cierran_y_un_acierto_abre(s: SesionVista, t1: u64, t2: u64, t3: u64, t4: u64, t: u64)
    ensures
        ({
            let a = s.tras_acierto();
            let uno = a.tras_fallo(t1);
            let dos = uno.tras_fallo(t2);
            let tres = dos.tras_fallo(t3);
            &&& a.faltan(t) is None
            &&& uno.faltan(t) is None
            &&& dos.faltan(t) is None
            &&& tres.faltan(t) is Some <==> t < t3 + UNLOCK_COOLDOWN
            &&& t3 <= t < t3 + UNLOCK_COOLDOWN ==> 1 <= tres.faltan(t)->0 <= 30
            &&& tres.tras_acierto().faltan(t) is None
            &&& tres.tras_acierto().tras_fallo(t4).faltan(t) is None
        }),
{
}

// ── Items ──────────────────────────────────────────────────

/// Creating an item overwrites none: its path is new, and every item that was
/// there stays as it was, but for those that the client asked to replace.
pub proof fn un_alta_no_pisa_nada(
    v: EstadoVista,
    s: SesionVista,
    c: Seq<char>,
    properties: Map<Seq<char>, ValorVista>,
    secret: SecretVista,
    replace: bool,
    ahora: u64,
    w: EstadoVista,
)
    requires
        v.valido(),
        v.alta(s, c, properties, secret, replace, ahora) == Ok::<EstadoVista, ErrorVista>(w),
    ensures
        !v.items.contains_key(dbus_api::ruta_de_item(c, v.next_item)),
        w.items.contains_key(dbus_api::ruta_de_item(c, v.next_item)),
        forall|q: Seq<char>| #[trigger]
            v.items.contains_key(q) && !(replace && v.en(c, q) && v.con_atributos(
                q,
                dbus_api::atributos_en(properties),
            )) ==> w.items.contains_key(q) && w.items[q] == v.items[q],
        forall|d: Seq<char>| d != c ==> #[trigger] w.lista(d) == v.lista(d),
{
    let p = dbus_api::ruta_de_item(c, v.next_item);
    let atributos = dbus_api::atributos_en(properties);
    dbus_api::un_numero_sin_usar_es_nuevo(v, c, v.next_item);
    if replace {
        dbus_api::transiciones::filtro_es(v.collections[c].items, v.los_que(atributos, true));
        assert forall|q: Seq<char>| #[trigger] v.items.contains_key(q) && !(v.en(c, q) && v.con_atributos(
            q,
            atributos,
        )) implies w.items.contains_key(q) && w.items[q] == v.items[q] by {
            assert(!v.iguales(c, atributos).contains(q));
        }
    }
}

/// A client that replaces leaves one item with those attributes in the
/// collection, the new one.
pub proof fn reemplazar_deja_uno_solo(
    v: EstadoVista,
    s: SesionVista,
    c: Seq<char>,
    properties: Map<Seq<char>, ValorVista>,
    secret: SecretVista,
    ahora: u64,
    w: EstadoVista,
)
    requires
        v.valido(),
        v.alta(s, c, properties, secret, true, ahora) == Ok::<EstadoVista, ErrorVista>(w),
    ensures
        w.en(c, dbus_api::ruta_de_item(c, v.next_item)),
        w.con_atributos(dbus_api::ruta_de_item(c, v.next_item), dbus_api::atributos_en(properties)),
        forall|q: Seq<char>|
            w.en(c, q) && #[trigger] w.con_atributos(q, dbus_api::atributos_en(properties)) ==> q
                == dbus_api::ruta_de_item(c, v.next_item),
{
    let p = dbus_api::ruta_de_item(c, v.next_item);
    let atributos = dbus_api::atributos_en(properties);
    let no = v.los_que(atributos, false);
    let l = v.collections[c].items;
    let u = v.sin_iguales(c, atributos);
    dbus_api::un_numero_sin_usar_es_nuevo(v, c, v.next_item);
    dbus_api::transiciones::filtro_es(l, no);
    dbus_api::transiciones::sin_iguales_es_valido(v, c, atributos);
    assert(w.collections[c].items == l.filter(no).push(p));
    assert(l.filter(no).push(p)[l.filter(no).len() as int] == p);
    assert forall|q: Seq<char>| w.en(c, q) && #[trigger] w.con_atributos(q, atributos) implies q == p by {
        if q != p {
            let j = l.filter(no).push(p).index_of(q);
            assert(l.filter(no)[j] == q);
            assert(l.filter(no).contains(q));
            assert(v.en(c, q));
            assert(u.en(c, q));
            assert(u.items.contains_key(q));
            assert(w.items[q] == v.items[q]);
        }
    }
}

/// An item that was created is found by its attributes.
pub proof fn lo_creado_se_encuentra(
    v: EstadoVista,
    s: SesionVista,
    c: Seq<char>,
    properties: Map<Seq<char>, ValorVista>,
    secret: SecretVista,
    replace: bool,
    ahora: u64,
    w: EstadoVista,
)
    requires
        v.valido(),
        v.collections.contains_key(c),
        v.alta(s, c, properties, secret, replace, ahora) == Ok::<EstadoVista, ErrorVista>(w),
    ensures
        w.en(c, dbus_api::ruta_de_item(c, v.next_item)),
        w.hallados(c, dbus_api::atributos_en(properties)).contains(
            dbus_api::ruta_o_raiz(dbus_api::ruta_de_item(c, v.next_item)),
        ),
{
    let p = dbus_api::ruta_de_item(c, v.next_item);
    let atributos = dbus_api::atributos_en(properties);
    let l = w.lista(c);
    let f = w.los_que_cumplen(atributos);
    assert(l.last() == p);
    assert(l[l.len() - 1] == p);
    assert(l.contains(p));
    dbus_api::transiciones::filtro_es(l, f);
    assert(w.cumple(p, atributos));
    assert(l.filter(f).contains(p));
    let j = l.filter(f).index_of(p);
    assert(w.hallados(c, atributos)[j] == dbus_api::ruta_o_raiz(p));
}

/// A secret that a client stored is read back as it was sent, over the same
/// session or over any other, whether they encrypt or not.
pub proof fn lo_guardado_se_lee_igual(
    v: EstadoVista,
    s: SesionVista,
    c: Seq<char>,
    properties: Map<Seq<char>, ValorVista>,
    secret: SecretVista,
    replace: bool,
    ahora: u64,
    w: EstadoVista,
    lectora: Seq<char>,
    parameters: Seq<u8>,
    value: Seq<u8>,
)
    requires
        v.valido(),
        v.collections.contains_key(c),
        !v.collections[c].locked,
        v.alta(s, c, properties, secret, replace, ahora) == Ok::<EstadoVista, ErrorVista>(w),
        dbus_api::cabe(secret.value.len()),
        w.valido(),
        v.sessions.contains_key(lectora),
        dbus_api::item::entregado(
            w.sessions[lectora],
            w.items[dbus_api::ruta_de_item(c, v.next_item)].secret,
            parameters,
            value,
        ),
    ensures
        w.negativa_a_entregar(s, dbus_api::ruta_de_item(c, v.next_item), lectora) is None,
        v.sessions[lectora].recibido(parameters, value) == v.secreto_recibido(secret),
{
    let p = dbus_api::ruta_de_item(c, v.next_item);
    lo_creado_se_encuentra(v, s, c, properties, secret, replace, ahora, w);
    dbus_api::transiciones::una_sola_duena(w, c, p);
}

/// A secret that a client changed is read back as it was sent.
pub proof fn lo_cambiado_se_lee_igual(
    v: EstadoVista,
    s: SesionVista,
    item: Seq<char>,
    secret: SecretVista,
    texto: Seq<u8>,
    ahora: u64,
    lectora: Seq<char>,
    parameters: Seq<u8>,
    value: Seq<u8>,
)
    requires
        v.secreto_nuevo(s, item, secret) == Ok::<Seq<u8>, ErrorVista>(texto),
        dbus_api::item::entregado(
            v.con_secreto(item, texto, secret.content_type, ahora).sessions[lectora],
            v.con_secreto(item, texto, secret.content_type, ahora).items[item].secret,
            parameters,
            value,
        ),
    ensures
        v.sessions[lectora].recibido(parameters, value) == v.secreto_recibido(secret),
        v.con_secreto(item, texto, secret.content_type, ahora).items[item].label == v.items[item].label,
        v.con_secreto(item, texto, secret.content_type, ahora).items[item].attributes == v.items[item].attributes,
{
}

/// A secret never leaves a collection that is locked: neither one that was
/// locked, nor any while there is no master password.
pub proof fn de_una_coleccion_cerrada_no_sale_nada(
    v: EstadoVista,
    s: SesionVista,
    objetos: Seq<Seq<char>>,
    c: Seq<char>,
    item: Seq<char>,
    session: Seq<char>,
)
    requires
        v.valido(),
        v.en(c, item),
    ensures
        objetos.contains(c) ==> v.con_candado(objetos, true).negativa_a_entregar(s, item, session) == Some(
            "collection is locked"@,
        ),
        s.vigente() is None ==> v.negativa_a_entregar(s, item, session) == Some("collection is locked"@),
{
    let w = v.con_candado(objetos, true);
    dbus_api::transiciones::una_sola_duena(v, c, item);
    dbus_api::transiciones::con_candado_es_valido(v, objetos, true);
    assert(w.en(c, item));
    dbus_api::transiciones::una_sola_duena(w, c, item);
}

/// Locking and unlocking what was open leaves everything as it was.
pub proof fn cerrar_y_abrir_no_cambia_nada(v: EstadoVista, objetos: Seq<Seq<char>>)
    requires
        forall|c: Seq<char>| #[trigger]
            objetos.contains(c) && v.collections.contains_key(c) ==> !v.collections[c].locked,
    ensures
        v.con_candado(objetos, true).con_candado(objetos, false) == v,
{
    let w = v.con_candado(objetos, true).con_candado(objetos, false);
    assert(w.collections =~= v.collections);
    assert(w =~= v);
}

/// Deleting an item takes it and nothing else.
pub proof fn borrar_un_item_no_toca_los_demas(v: EstadoVista, item: Seq<char>)
    requires
        v.valido(),
    ensures
        !v.sin_item(item).items.contains_key(item),
        forall|q: Seq<char>| q != item ==> (#[trigger] v.sin_item(item).items.contains_key(q)
            <==> v.items.contains_key(q)) && v.sin_item(item).items[q] == v.items[q],
        forall|c: Seq<char>, q: Seq<char>| #[trigger]
            v.sin_item(item).en(c, q) <==> v.en(c, q) && q != item,
{
    dbus_api::transiciones::sin_item_es_valido(v, item);
}

/// The numbers of items never go back, so a path that was handed out is never
/// handed out again.
pub proof fn los_numeros_no_vuelven(
    v: EstadoVista,
    c: Seq<char>,
    d: Seq<char>,
    item: ItemVista,
    cargados: Seq<ItemVista>,
    alias: Seq<char>,
    label: Seq<char>,
    ahora: u64,
    id: nat,
)
    requires
        id < v.next_item,
    ensures
        v.con_item(c, item, ahora).next_item == v.next_item + 1,
        v.recargada(c, cargados, ahora).next_item >= v.next_item,
        v.con_coleccion(c, alias, label, cargados, ahora).next_item >= v.next_item,
        v.sin_item(c).next_item == v.next_item,
        v.sin_coleccion(c).next_item == v.next_item,
        dbus_api::ruta_de_item(d, id) != dbus_api::ruta_de_item(c, v.next_item),
{
    if dbus_api::ruta_de_item(d, id) == dbus_api::ruta_de_item(c, v.next_item) {
        dbus_api::numeros_distintos_rutas_distintas(d, c, id, v.next_item);
    }
}

/// Nothing but a new item takes a number: changing a secret, locking, naming,
/// and opening or closing a session leave the next one as it was.
pub proof fn lo_demas_no_gasta_numeros(
    v: EstadoVista,
    item: Seq<char>,
    secreto: Seq<u8>,
    tipo: Seq<char>,
    ahora: u64,
    objetos: Seq<Seq<char>>,
    locked: bool,
    alias: Seq<char>,
    c: Seq<char>,
    sesion: SessionVista,
    ruta: Seq<char>,
)
    ensures
        v.con_secreto(item, secreto, tipo, ahora).next_item == v.next_item,
        v.con_candado(objetos, locked).next_item == v.next_item,
        v.con_alias(alias, c) matches Ok(w) ==> w.next_item == v.next_item,
        v.con_sesion(sesion).next_item == v.next_item,
        v.sin_sesion(ruta).next_item == v.next_item,
{
}

/// A call that changes the state.
pub enum Llamada {
    /// A number is reserved.
    Reserva,
    /// A client creates an item.
    Alta {
        maestra: SesionVista,
        coleccion: Seq<char>,
        properties: Map<Seq<char>, ValorVista>,
        secret: SecretVista,
        replace: bool,
        ahora: u64,
    },
    /// An application gets a secret of its own.
    Secreto { coleccion: Seq<char>, nuevo: ItemVista, ahora: u64 },
    /// The secret of an item is changed.
    Cambio { item: Seq<char>, secreto: Seq<u8>, tipo: Seq<char>, ahora: u64 },
    /// An item is deleted.
    BajaDeItem { item: Seq<char> },
    /// A collection is registered.
    Coleccion {
        coleccion: Seq<char>,
        alias: Seq<char>,
        label: Seq<char>,
        cargados: Seq<ItemVista>,
        ahora: u64,
    },
    /// A collection is loaded again.
    Recarga { coleccion: Seq<char>, cargados: Seq<ItemVista>, ahora: u64 },
    /// A collection is deleted.
    BajaDeColeccion { coleccion: Seq<char> },
    /// Collections are locked or unlocked.
    Candado { objetos: Seq<Seq<char>>, locked: bool },
    /// A collection is given a name, or loses it.
    Alias { alias: Seq<char>, coleccion: Seq<char> },
    /// A session is opened.
    Sesion { sesion: SessionVista },
    /// A session is closed.
    Cierre { ruta: Seq<char> },
}

impl EstadoVista {
    /// The state after a call. One that is refused changes nothing.
    pub open spec fn tras(self, l: Llamada) -> EstadoVista {
        match l {
            Llamada::Reserva => self.con_reserva(),
            Llamada::Alta { maestra, coleccion, properties, secret, replace, ahora } => match self.alta(
                maestra,
                coleccion,
                properties,
                secret,
                replace,
                ahora,
            ) {
                Ok(w) => w,
                Err(_) => self,
            },
            Llamada::Secreto { coleccion, nuevo, ahora } => self.con_item(coleccion, nuevo, ahora),
            Llamada::Cambio { item, secreto, tipo, ahora } => self.con_secreto(item, secreto, tipo, ahora),
            Llamada::BajaDeItem { item } => self.sin_item(item),
            Llamada::Coleccion { coleccion, alias, label, cargados, ahora } => self.con_coleccion(
                coleccion,
                alias,
                label,
                cargados,
                ahora,
            ),
            Llamada::Recarga { coleccion, cargados, ahora } => self.recargada(coleccion, cargados, ahora),
            Llamada::BajaDeColeccion { coleccion } => self.sin_coleccion(coleccion),
            Llamada::Candado { objetos, locked } => self.con_candado(objetos, locked),
            Llamada::Alias { alias, coleccion } => match self.con_alias(alias, coleccion) {
                Ok(w) => w,
                Err(_) => self,
            },
            Llamada::Sesion { sesion } => self.con_sesion(sesion),
            Llamada::Cierre { ruta } => self.sin_sesion(ruta),
        }
    }

    /// The state after some calls, one after another.
    pub open spec fn tras_todas(self, llamadas: Seq<Llamada>) -> EstadoVista
        decreases llamadas.len(),
    {
        if llamadas.len() == 0 {
            self
        } else {
            self.tras_todas(llamadas.drop_last()).tras(llamadas.last())
        }
    }

    /// Whether the call at a place of a series hands out a number.
    pub open spec fn entrega(self, llamadas: Seq<Llamada>, i: int, numero: nat) -> bool {
        self.tras_todas(llamadas.take(i)).next_item <= numero < self.tras_todas(llamadas.take(i + 1)).next_item
    }
}

/// No number is ever handed out twice, whatever is called and in whatever order,
/// also after items were deleted: a later call hands out greater numbers than
/// every earlier one, and so other paths.
pub proof fn ningun_numero_se_entrega_dos_veces(
    v: EstadoVista,
    llamadas: Seq<Llamada>,
    i: int,
    j: int,
    antes: nat,
    despues: nat,
)
    requires
        0 <= i < j < llamadas.len(),
        v.entrega(llamadas, i, antes),
        v.entrega(llamadas, j, despues),
    ensures
        antes < despues,
        forall|c: Seq<char>, d: Seq<char>| #[trigger]
            dbus_api::ruta_de_item(c, antes) != #[trigger] dbus_api::ruta_de_item(d, despues),
{
    los_numeros_solo_crecen(v, llamadas, i + 1, j);
    assert forall|c: Seq<char>, d: Seq<char>| #[trigger] dbus_api::ruta_de_item(c, antes)
        != #[trigger] dbus_api::ruta_de_item(d, despues) by {
        if dbus_api::ruta_de_item(c, antes) == dbus_api::ruta_de_item(d, despues) {
            dbus_api::numeros_distintos_rutas_distintas(c, d, antes, despues);
        }
    }
}

proof fn los_numeros_solo_crecen(v: EstadoVista, llamadas: Seq<Llamada>, i: int, j: int)
    requires
        0 <= i <= j <= llamadas.len(),
    ensures
        v.tras_todas(llamadas.take(i)).next_item <= v.tras_todas(llamadas.take(j)).next_item,
    decreases j - i,
{
    if i < j {
        los_numeros_solo_crecen(v, llamadas, i, j - 1);
        assert(llamadas.take(j).drop_last() =~= llamadas.take(j - 1));
    }
}

// ── Collections and aliases ────────────────────────────────

/// Deleting a collection takes its items and the aliases that stood for it, and
/// leaves the other collections with theirs.
pub proof fn borrar_una_coleccion_se_lleva_lo_suyo(v: EstadoVista, c: Seq<char>)
    requires
        v.valido(),
    ensures
        ({
            let w = v.sin_coleccion(c);
            &&& !w.collections.contains_key(c)
            &&& forall|q: Seq<char>| #[trigger] v.en(c, q) ==> !w.items.contains_key(q)
            &&& forall|a: Seq<char>| #[trigger]
                w.aliases.contains_key(a) <==> v.aliases.contains_key(a) && v.aliases[a] != c
            &&& forall|d: Seq<char>, q: Seq<char>|
                d != c && #[trigger] v.en(d, q) ==> w.en(d, q) && w.items.contains_key(q) && w.items[q]
                    == v.items[q]
        }),
{
    let w = v.sin_coleccion(c);
    assert forall|q: Seq<char>| #[trigger] v.en(c, q) implies !w.items.contains_key(q) by {
        assert(v.collections[c].items.to_set().contains(q));
    }
    assert forall|d: Seq<char>, q: Seq<char>| d != c && #[trigger] v.en(d, q) implies w.en(d, q)
        && w.items.contains_key(q) && w.items[q] == v.items[q] by {
        if v.collections.contains_key(c) && v.collections[c].items.to_set().contains(q) {
            assert(v.en(c, q));
        }
    }
}

/// An alias that was given stands for its collection, and one that was taken away
/// stands for the collection named after it, if there is one.
pub proof fn un_alias_se_lee_como_se_puso(v: EstadoVista, alias: Seq<char>, c: Seq<char>, w: EstadoVista)
    requires
        v.con_alias(alias, c) == Ok::<EstadoVista, ErrorVista>(w),
        dbus_api::ruta_valida(c),
    ensures
        c != "/"@ ==> w.coleccion_del_alias(alias) == Ok::<Seq<char>, ErrorVista>(c),
        c == "/"@ && !v.collections.contains_key(dbus_api::ruta_de_coleccion(alias))
            ==> w.coleccion_del_alias(alias) == Ok::<Seq<char>, ErrorVista>("/"@),
        forall|a: Seq<char>| a != alias ==> #[trigger] w.coleccion_del_alias(a) == v.coleccion_del_alias(a),
{
}

/// The login collection is the default one from the moment it is registered, so
/// clients find it before any password arrives.
pub proof fn el_login_es_el_predeterminado(v: EstadoVista, label: Seq<char>, cargados: Seq<ItemVista>, ahora: u64)
    ensures
        ({
            let w = v.con_coleccion(COLECCION_DEL_LOGIN@, "login"@, label, cargados, ahora);
            &&& w.coleccion_del_alias("default"@) == Ok::<Seq<char>, ErrorVista>(COLECCION_DEL_LOGIN@)
            &&& w.coleccion_del_alias("login"@) == Ok::<Seq<char>, ErrorVista>(COLECCION_DEL_LOGIN@)
            &&& w.collections.contains_key(COLECCION_DEL_LOGIN@)
        }),
{
    reveal_strlit("/org/freedesktop/secrets/collection/login");
    assert(dbus_api::ruta_valida(COLECCION_DEL_LOGIN@));
}

} // verus!
