//! What each call makes of the state, and that it keeps what every call keeps.
use vstd::prelude::*;

use super::{ColeccionVista, EstadoVista, ItemVista, SessionVista};
use crate::dbus_api;
use crate::mapa;

verus! {

/// The paths that a collection hands out to a number of new items.
pub open spec fn rutas_nuevas(coleccion: Seq<char>, desde: nat, cuantas: nat) -> Seq<Seq<char>> {
    Seq::new(cuantas, |i: int| dbus_api::ruta_de_item(coleccion, (desde + i) as nat))
}

/// Some items with others added under new paths of a collection.
pub open spec fn con_cargados(
    items: Map<Seq<char>, ItemVista>,
    coleccion: Seq<char>,
    desde: nat,
    cargados: Seq<ItemVista>,
) -> Map<Seq<char>, ItemVista>
    decreases cargados.len(),
{
    if cargados.len() == 0 {
        items
    } else {
        con_cargados(items, coleccion, desde, cargados.drop_last()).insert(
            dbus_api::ruta_de_item(coleccion, (desde + cargados.len() - 1) as nat),
            cargados.last(),
        )
    }
}

impl EstadoVista {
    /// The collection that an item is in, if it is in one.
    pub open spec fn duena(self, item: Seq<char>) -> Option<Seq<char>> {
        if exists|c: Seq<char>| self.en(c, item) {
            Some(choose|c: Seq<char>| self.en(c, item))
        } else {
            None
        }
    }

    /// The state without an item.
    pub open spec fn sin_item(self, item: Seq<char>) -> EstadoVista {
        EstadoVista {
            items: self.items.remove(item),
            collections: match self.duena(item) {
                Some(c) => self.collections.insert(
                    c,
                    ColeccionVista {
                        items: mapa::sin(self.collections[c].items, item),
                        ..self.collections[c]
                    },
                ),
                None => self.collections,
            },
            ..self
        }
    }

    /// Whether an item has exactly the given attributes.
    pub open spec fn con_atributos(self, item: Seq<char>, atributos: Map<Seq<char>, Seq<char>>) -> bool {
        self.items.contains_key(item) && self.items[item].attributes == atributos
    }

    /// Having exactly the given attributes, or not.
    pub open spec fn los_que(self, atributos: Map<Seq<char>, Seq<char>>, si: bool) -> spec_fn(Seq<char>) -> bool {
        |p: Seq<char>| self.con_atributos(p, atributos) == si
    }

    /// The items of a collection that have exactly the given attributes.
    pub open spec fn iguales(self, coleccion: Seq<char>, atributos: Map<Seq<char>, Seq<char>>) -> Seq<
        Seq<char>,
    > {
        self.collections[coleccion].items.filter(self.los_que(atributos, true))
    }

    /// The state without the items of a collection that have exactly the given
    /// attributes.
    pub open spec fn sin_iguales(self, coleccion: Seq<char>, atributos: Map<Seq<char>, Seq<char>>) -> EstadoVista {
        EstadoVista {
            items: self.items.remove_keys(self.iguales(coleccion, atributos).to_set()),
            collections: self.collections.insert(
                coleccion,
                ColeccionVista {
                    items: self.collections[coleccion].items.filter(self.los_que(atributos, false)),
                    ..self.collections[coleccion]
                },
            ),
            ..self
        }
    }

    /// The state with a new item, at the end of the list of a collection where
    /// that collection exists.
    pub open spec fn con_item(self, coleccion: Seq<char>, item: ItemVista, ahora: u64) -> EstadoVista {
        let p = dbus_api::ruta_de_item(coleccion, self.next_item);
        EstadoVista {
            items: self.items.insert(p, item),
            next_item: self.next_item + 1,
            collections: if self.collections.contains_key(coleccion) {
                self.collections.insert(
                    coleccion,
                    ColeccionVista {
                        items: self.collections[coleccion].items.push(p),
                        modified: ahora,
                        ..self.collections[coleccion]
                    },
                )
            } else {
                self.collections
            },
            ..self
        }
    }

    /// The state without a collection, its items, and the aliases that stood for
    /// it.
    pub open spec fn sin_coleccion(self, coleccion: Seq<char>) -> EstadoVista {
        EstadoVista {
            collections: self.collections.remove(coleccion),
            items: if self.collections.contains_key(coleccion) {
                self.items.remove_keys(self.collections[coleccion].items.to_set())
            } else {
                self.items
            },
            aliases: self.aliases.restrict(
                Set::new(|a: Seq<char>| self.aliases.contains_key(a) && self.aliases[a] != coleccion),
            ),
            ..self
        }
    }

    /// The state with a collection registered anew, with the items given and the
    /// alias given. The alias of the login collection brings the default one.
    pub open spec fn con_coleccion(
        self,
        coleccion: Seq<char>,
        alias: Seq<char>,
        label: Seq<char>,
        cargados: Seq<ItemVista>,
        ahora: u64,
    ) -> EstadoVista {
        let aliases = self.aliases.insert(alias, coleccion);
        EstadoVista {
            items: con_cargados(self.items, coleccion, self.next_item, cargados),
            next_item: self.next_item + cargados.len(),
            collections: self.collections.insert(
                coleccion,
                ColeccionVista {
                    label,
                    locked: false,
                    items: rutas_nuevas(coleccion, self.next_item, cargados.len()),
                    created: ahora,
                    modified: ahora,
                },
            ),
            aliases: if alias == "login"@ {
                aliases.insert("default"@, coleccion)
            } else {
                aliases
            },
            ..self
        }
    }

    /// The items that a collection lists; none where it does not exist.
    pub open spec fn lista(self, coleccion: Seq<char>) -> Seq<Seq<char>> {
        if self.collections.contains_key(coleccion) {
            self.collections[coleccion].items
        } else {
            Seq::empty()
        }
    }

    /// The state with the items of a collection replaced by others.
    pub open spec fn recargada(self, coleccion: Seq<char>, cargados: Seq<ItemVista>, ahora: u64) -> EstadoVista {
        let base = if self.collections.contains_key(coleccion) {
            self.collections[coleccion]
        } else {
            ColeccionVista {
                label: "Default collection"@,
                locked: false,
                items: Seq::empty(),
                created: ahora,
                modified: ahora,
            }
        };
        EstadoVista {
            items: con_cargados(
                self.items.remove_keys(self.lista(coleccion).to_set()),
                coleccion,
                self.next_item,
                cargados,
            ),
            next_item: self.next_item + cargados.len(),
            collections: self.collections.insert(
                coleccion,
                ColeccionVista {
                    items: rutas_nuevas(coleccion, self.next_item, cargados.len()),
                    ..base
                },
            ),
            ..self
        }
    }

    /// The state with a new session.
    pub open spec fn con_sesion(self, sesion: SessionVista) -> EstadoVista {
        EstadoVista {
            sessions: self.sessions.insert(dbus_api::ruta_de_sesion(self.next_session), sesion),
            next_session: self.next_session + 1,
            ..self
        }
    }

    /// The state without a session.
    pub open spec fn sin_sesion(self, ruta: Seq<char>) -> EstadoVista {
        EstadoVista { sessions: self.sessions.remove(ruta), ..self }
    }

    /// The state with the next item number taken.
    pub open spec fn con_reserva(self) -> EstadoVista {
        EstadoVista { next_item: self.next_item + 1, ..self }
    }

    /// The state with the flag of some collections set.
    pub open spec fn con_candado(self, objetos: Seq<Seq<char>>, locked: bool) -> EstadoVista {
        EstadoVista {
            collections: Map::new(
                |c: Seq<char>| self.collections.contains_key(c),
                |c: Seq<char>|
                    if objetos.contains(c) {
                        ColeccionVista { locked, ..self.collections[c] }
                    } else {
                        self.collections[c]
                    },
            ),
            ..self
        }
    }
}

// ── Every call keeps the state valid ───────────────────────

/// The collection that an item is in is the only one.
pub proof fn una_sola_duena(v: EstadoVista, c: Seq<char>, p: Seq<char>)
    requires
        v.valido(),
        v.en(c, p),
    ensures
        v.duena(p) == Some(c),
{
}

/// Leaving an element out leaves the rest, in order.
pub proof fn sin_es(s: Seq<Seq<char>>, k: Seq<char>)
    ensures
        forall|x: Seq<char>| #[trigger] mapa::sin(s, k).contains(x) <==> s.contains(x) && x != k,
        s.no_duplicates() ==> mapa::sin(s, k).no_duplicates(),
{
    filtro_es(s, mapa::otra_que(k));
}

/// What a filter leaves of a list.
pub proof fn filtro_es(s: Seq<Seq<char>>, f: spec_fn(Seq<char>) -> bool)
    ensures
        forall|x: Seq<char>| #[trigger] s.filter(f).contains(x) <==> s.contains(x) && f(x),
        s.no_duplicates() ==> s.filter(f).no_duplicates(),
    decreases s.len(),
{
    reveal(Seq::filter);
    if s.len() > 0 {
        let t = s.drop_last();
        filtro_es(t, f);
        assert forall|x: Seq<char>| #[trigger] s.filter(f).contains(x) <==> s.contains(x) && f(x) by {
            if s.filter(f).contains(x) {
                let j = s.filter(f).index_of(x);
                if j < t.filter(f).len() {
                    assert(t.filter(f)[j] == x);
                    assert(t.filter(f).contains(x));
                    let k = t.index_of(x);
                    assert(s[k] == x);
                } else {
                    assert(s[s.len() - 1] == x);
                }
            }
            if s.contains(x) && f(x) {
                let k = s.index_of(x);
                if k < s.len() - 1 {
                    assert(t[k] == x);
                    assert(t.contains(x));
                    assert(t.filter(f).contains(x));
                    let j = t.filter(f).index_of(x);
                    assert(s.filter(f)[j] == x);
                } else {
                    assert(s.filter(f).last() == x);
                }
            }
        }
        if s.no_duplicates() {
            assert(t.no_duplicates());
            assert(!t.contains(s.last())) by {
                if t.contains(s.last()) {
                    let k = t.index_of(s.last());
                    assert(s[k] == s[s.len() - 1]);
                }
            }
            assert(!t.filter(f).contains(s.last()));
        }
    }
}

pub proof fn sin_item_es_valido(v: EstadoVista, p: Seq<char>)
    requires
        v.valido(),
    ensures
        v.sin_item(p).valido(),
        forall|c: Seq<char>, q: Seq<char>| #[trigger] v.sin_item(p).en(c, q) <==> v.en(c, q) && q != p,
{
    let w = v.sin_item(p);
    assert forall|c: Seq<char>, q: Seq<char>| #[trigger] w.en(c, q) <==> v.en(c, q) && q != p by {
        match v.duena(p) {
            Some(d) => {
                sin_es(v.collections[d].items, p);
                assert(v.en(d, p));
                if c != d && v.en(c, p) {
                    assert(false);
                }
            },
            None => {
                assert(!v.en(c, p));
            },
        }
    }
    assert forall|c: Seq<char>| #[trigger] w.collections.contains_key(c) implies w.collections[c].items.no_duplicates() by {
        assert(v.collections.contains_key(c));
        sin_es(v.collections[c].items, p);
    }
    assert forall|c: Seq<char>, d: Seq<char>, q: Seq<char>| #[trigger] w.en(c, q) && #[trigger] w.en(d, q) implies c
        == d by {
        assert(v.en(c, q) && v.en(d, q));
    }
    assert forall|q: Seq<char>| #[trigger] w.items.contains_key(q) implies exists|id: nat|
        id < w.next_item && #[trigger] dbus_api::termina_en(q, id) by {
        assert(v.items.contains_key(q));
    }
    assert forall|a: Seq<char>| #[trigger] w.aliases.contains_key(a) implies w.collections.contains_key(w.aliases[a]) by {
        assert(v.aliases.contains_key(a));
    }
}

pub proof fn sin_iguales_es_valido(v: EstadoVista, c: Seq<char>, atributos: Map<Seq<char>, Seq<char>>)
    requires
        v.valido(),
        v.collections.contains_key(c),
    ensures
        v.sin_iguales(c, atributos).valido(),
{
    let w = v.sin_iguales(c, atributos);
    let l = v.collections[c].items;
    let si = v.los_que(atributos, true);
    let no = v.los_que(atributos, false);
    filtro_es(l, si);
    filtro_es(l, no);
    let fuera = v.iguales(c, atributos).to_set();
    assert forall|q: Seq<char>| #[trigger] fuera.contains(q) <==> l.contains(q) && v.con_atributos(q, atributos) by {
        assert(v.iguales(c, atributos) == l.filter(si));
    }
    assert(w.collections[c].items == l.filter(no));
    assert forall|d: Seq<char>, q: Seq<char>| #[trigger] w.en(d, q) implies v.en(d, q) && !fuera.contains(q) by {
        if d == c {
            assert(l.filter(no).contains(q));
        } else if fuera.contains(q) {
            assert(v.en(c, q));
            assert(v.en(d, q));
        }
    }
    assert forall|d: Seq<char>, e: Seq<char>, q: Seq<char>| #[trigger] w.en(d, q) && #[trigger] w.en(e, q) implies d
        == e by {
        assert(v.en(d, q) && v.en(e, q));
    }
    assert forall|d: Seq<char>, q: Seq<char>| #[trigger] w.en(d, q) implies w.items.contains_key(q) by {
        assert(v.en(d, q));
    }
    assert forall|q: Seq<char>| #[trigger] w.items.contains_key(q) implies exists|id: nat|
        id < w.next_item && #[trigger] dbus_api::termina_en(q, id) by {
        assert(v.items.contains_key(q));
    }
    assert forall|q: Seq<char>| #[trigger] w.items.contains_key(q) implies dbus_api::cabe(w.items[q].secret.len()) by {
        assert(v.items.contains_key(q));
    }
    assert forall|a: Seq<char>| #[trigger] w.aliases.contains_key(a) implies w.collections.contains_key(w.aliases[a]) by {
        assert(v.aliases.contains_key(a));
    }
    assert forall|d: Seq<char>| #[trigger] w.collections.contains_key(d) implies w.collections[d].items.no_duplicates() by {
        assert(v.collections.contains_key(d));
    }
}

pub proof fn con_item_es_valido(v: EstadoVista, c: Seq<char>, item: ItemVista, ahora: u64)
    requires
        v.valido(),
        dbus_api::cabe(item.secret.len()),
    ensures
        v.con_item(c, item, ahora).valido(),
        !v.items.contains_key(dbus_api::ruta_de_item(c, v.next_item)),
{
    let p = dbus_api::ruta_de_item(c, v.next_item);
    let w = v.con_item(c, item, ahora);
    dbus_api::un_numero_sin_usar_es_nuevo(v, c, v.next_item);
    assert(dbus_api::termina_en(p, v.next_item));
    assert forall|d: Seq<char>, q: Seq<char>| #[trigger] w.en(d, q) <==> v.en(d, q) || (d == c && q == p
        && v.collections.contains_key(c)) by {
        if v.collections.contains_key(c) {
            let l = v.collections[c].items;
            if d == c {
                if l.contains(q) {
                    let j = l.index_of(q);
                    assert(l.push(p)[j] == q);
                }
                if l.push(p).contains(q) {
                    let j = l.push(p).index_of(q);
                    if j < l.len() {
                        assert(l[j] == q);
                    }
                }
                assert(l.push(p)[l.len() as int] == p);
            }
        }
    }
    assert forall|d: Seq<char>| #[trigger] w.collections.contains_key(d) implies w.collections[d].items.no_duplicates() by {
        assert(v.collections.contains_key(d));
        if d == c {
            assert(!v.en(c, p));
        }
    }
    assert forall|d: Seq<char>, e: Seq<char>, q: Seq<char>| #[trigger] w.en(d, q) && #[trigger] w.en(e, q) implies d
        == e by {
        if q == p {
            assert(!v.en(d, q));
            assert(!v.en(e, q));
        }
    }
    assert forall|q: Seq<char>| #[trigger] w.items.contains_key(q) implies exists|id: nat|
        id < w.next_item && #[trigger] dbus_api::termina_en(q, id) by {
        if q != p {
            assert(v.items.contains_key(q));
            let id = choose|id: nat| id < v.next_item && #[trigger] dbus_api::termina_en(q, id);
            assert(id < w.next_item && dbus_api::termina_en(q, id));
        }
    }
    assert forall|q: Seq<char>| #[trigger] w.items.contains_key(q) implies dbus_api::cabe(w.items[q].secret.len()) by {
        if q != p {
            assert(v.items.contains_key(q));
        }
    }
    assert forall|a: Seq<char>| #[trigger] w.aliases.contains_key(a) implies w.collections.contains_key(w.aliases[a]) by {
        assert(v.aliases.contains_key(a));
    }
}

pub proof fn sin_coleccion_es_valido(v: EstadoVista, c: Seq<char>)
    requires
        v.valido(),
    ensures
        v.sin_coleccion(c).valido(),
{
    let w = v.sin_coleccion(c);
    assert forall|d: Seq<char>, q: Seq<char>| #[trigger] w.en(d, q) <==> v.en(d, q) && d != c by {}
    assert forall|d: Seq<char>, q: Seq<char>| #[trigger] w.en(d, q) implies w.items.contains_key(q) by {
        assert(v.en(d, q));
        if v.collections.contains_key(c) && v.collections[c].items.to_set().contains(q) {
            assert(v.en(c, q));
        }
    }
    assert forall|d: Seq<char>, e: Seq<char>, q: Seq<char>| #[trigger] w.en(d, q) && #[trigger] w.en(e, q) implies d
        == e by {
        assert(v.en(d, q) && v.en(e, q));
    }
    assert forall|d: Seq<char>| #[trigger] w.collections.contains_key(d) implies w.collections[d].items.no_duplicates() by {
        assert(v.collections.contains_key(d));
    }
    assert forall|q: Seq<char>| #[trigger] w.items.contains_key(q) implies exists|id: nat|
        id < w.next_item && #[trigger] dbus_api::termina_en(q, id) by {
        assert(v.items.contains_key(q));
    }
    assert forall|q: Seq<char>| #[trigger] w.items.contains_key(q) implies dbus_api::cabe(w.items[q].secret.len()) by {
        assert(v.items.contains_key(q));
    }
    assert forall|a: Seq<char>| #[trigger] w.aliases.contains_key(a) implies w.collections.contains_key(w.aliases[a]) by {
        assert(v.aliases.contains_key(a));
    }
}

/// The paths of new items are different, and each is under its number.
pub proof fn rutas_nuevas_son_distintas(c: Seq<char>, desde: nat, n: nat)
    ensures
        rutas_nuevas(c, desde, n).no_duplicates(),
{
    let r = rutas_nuevas(c, desde, n);
    assert forall|i: int, j: int| 0 <= i < j < r.len() implies r[i] != r[j] by {
        if r[i] == r[j] {
            dbus_api::numeros_distintos_rutas_distintas(c, c, (desde + i) as nat, (desde + j) as nat);
        }
    }
}

/// What the items are once others were loaded.
pub proof fn con_cargados_es(
    items: Map<Seq<char>, ItemVista>,
    c: Seq<char>,
    desde: nat,
    cargados: Seq<ItemVista>,
)
    ensures
        forall|q: Seq<char>| #[trigger]
            con_cargados(items, c, desde, cargados).contains_key(q) <==> items.contains_key(q) || rutas_nuevas(
                c,
                desde,
                cargados.len(),
            ).contains(q),
        forall|i: int|
            0 <= i < cargados.len() ==> con_cargados(items, c, desde, cargados)[#[trigger] rutas_nuevas(
                c,
                desde,
                cargados.len(),
            )[i]] == cargados[i],
        forall|q: Seq<char>|
            !rutas_nuevas(c, desde, cargados.len()).contains(q) ==> #[trigger] con_cargados(
                items,
                c,
                desde,
                cargados,
            )[q] == items[q],
    decreases cargados.len(),
{
    let r = rutas_nuevas(c, desde, cargados.len());
    if cargados.len() > 0 {
        let n = cargados.len() as int;
        let menos = cargados.drop_last();
        let s = rutas_nuevas(c, desde, menos.len());
        con_cargados_es(items, c, desde, menos);
        rutas_nuevas_son_distintas(c, desde, cargados.len());
        let ultima = dbus_api::ruta_de_item(c, (desde + n - 1) as nat);
        assert(r =~= s.push(ultima));
        assert(r[n - 1] == ultima);
        let antes = con_cargados(items, c, desde, menos);
        let despues = con_cargados(items, c, desde, cargados);
        assert(despues == antes.insert(ultima, cargados.last()));
        assert forall|q: Seq<char>| #[trigger] despues.contains_key(q) <==> items.contains_key(q) || r.contains(q) by {
            assert(antes.contains_key(q) <==> items.contains_key(q) || s.contains(q));
            if s.contains(q) {
                let j = s.index_of(q);
                assert(r[j] == q);
            }
            if r.contains(q) {
                let j = r.index_of(q);
                if j < n - 1 {
                    assert(s[j] == q);
                }
            }
        }
        assert forall|i: int| 0 <= i < n implies despues[#[trigger] r[i]] == cargados[i] by {
            if i < n - 1 {
                assert(r[i] != r[n - 1]);
                assert(s[i] == r[i]);
                assert(antes[s[i]] == menos[i]);
            }
        }
        assert forall|q: Seq<char>| !r.contains(q) implies #[trigger] despues[q] == items[q] by {
            assert(q != ultima);
            if s.contains(q) {
                let j = s.index_of(q);
                assert(r[j] == q);
            }
            assert(antes[q] == items[q]);
        }
    }
}

/// Items that can be delivered.
pub open spec fn caben(cargados: Seq<ItemVista>) -> bool {
    forall|i: int| 0 <= i < cargados.len() ==> dbus_api::cabe((#[trigger] cargados[i]).secret.len())
}

pub proof fn con_coleccion_es_valido(
    v: EstadoVista,
    c: Seq<char>,
    alias: Seq<char>,
    label: Seq<char>,
    cargados: Seq<ItemVista>,
    ahora: u64,
)
    requires
        v.valido(),
        caben(cargados),
    ensures
        v.con_coleccion(c, alias, label, cargados, ahora).valido(),
{
    let w = v.con_coleccion(c, alias, label, cargados, ahora);
    let r = rutas_nuevas(c, v.next_item, cargados.len());
    con_cargados_es(v.items, c, v.next_item, cargados);
    rutas_nuevas_son_distintas(c, v.next_item, cargados.len());
    las_nuevas_no_estaban(v, c, cargados.len());
    assert forall|d: Seq<char>, q: Seq<char>| #[trigger] w.en(d, q) <==> (d == c && r.contains(q)) || (d != c
        && v.en(d, q)) by {}
    assert forall|d: Seq<char>, q: Seq<char>| #[trigger] w.en(d, q) implies w.items.contains_key(q) by {
        if d != c {
            assert(v.en(d, q));
        }
    }
    assert forall|d: Seq<char>, e: Seq<char>, q: Seq<char>| #[trigger] w.en(d, q) && #[trigger] w.en(e, q) implies d
        == e by {
        if d != c && e != c {
            assert(v.en(d, q) && v.en(e, q));
        } else if d != c {
            assert(v.en(d, q));
        } else if e != c {
            assert(v.en(e, q));
        }
    }
    assert forall|d: Seq<char>| #[trigger] w.collections.contains_key(d) implies w.collections[d].items.no_duplicates() by {
        if d != c {
            assert(v.collections.contains_key(d));
        }
    }
    los_cargados_valen(v.items, v, c, cargados);
    assert forall|a: Seq<char>| #[trigger] w.aliases.contains_key(a) implies w.collections.contains_key(w.aliases[a]) by {
        if w.aliases[a] != c {
            assert(v.aliases.contains_key(a));
        }
    }
}

/// The paths that are about to be handed out belong to no item.
proof fn las_nuevas_no_estaban(v: EstadoVista, c: Seq<char>, n: nat)
    requires
        v.valido(),
    ensures
        forall|q: Seq<char>| #[trigger]
            rutas_nuevas(c, v.next_item, n).contains(q) ==> !v.items.contains_key(q),
{
    let r = rutas_nuevas(c, v.next_item, n);
    assert forall|q: Seq<char>| #[trigger] r.contains(q) implies !v.items.contains_key(q) by {
        let j = r.index_of(q);
        dbus_api::un_numero_sin_usar_es_nuevo(v, c, (v.next_item + j) as nat);
    }
}

/// What is asked of every item holds of some of them with others loaded.
proof fn los_cargados_valen(
    items: Map<Seq<char>, ItemVista>,
    v: EstadoVista,
    c: Seq<char>,
    cargados: Seq<ItemVista>,
)
    requires
        v.valido(),
        caben(cargados),
        items.submap_of(v.items),
    ensures
        forall|q: Seq<char>| #[trigger]
            con_cargados(items, c, v.next_item, cargados).contains_key(q) ==> exists|id: nat|
                id < v.next_item + cargados.len() && #[trigger] dbus_api::termina_en(q, id),
        forall|q: Seq<char>| #[trigger]
            con_cargados(items, c, v.next_item, cargados).contains_key(q) ==> dbus_api::cabe(
                con_cargados(items, c, v.next_item, cargados)[q].secret.len(),
            ),
{
    let r = rutas_nuevas(c, v.next_item, cargados.len());
    let m = con_cargados(items, c, v.next_item, cargados);
    con_cargados_es(items, c, v.next_item, cargados);
    assert forall|q: Seq<char>| #[trigger] m.contains_key(q) implies exists|id: nat|
        id < v.next_item + cargados.len() && #[trigger] dbus_api::termina_en(q, id) by {
        if r.contains(q) {
            let j = r.index_of(q);
            let id = (v.next_item + j) as nat;
            assert(q == dbus_api::ruta_de_item(c, id));
            assert(dbus_api::termina_en(q, id));
        } else {
            assert(items.dom().contains(q));
            assert(v.items.contains_key(q));
            let id = choose|id: nat| id < v.next_item && #[trigger] dbus_api::termina_en(q, id);
            assert(id < v.next_item + cargados.len() && dbus_api::termina_en(q, id));
        }
    }
    assert forall|q: Seq<char>| #[trigger] m.contains_key(q) implies dbus_api::cabe(m[q].secret.len()) by {
        if r.contains(q) {
            let j = r.index_of(q);
            assert(m[r[j]] == cargados[j]);
        } else {
            assert(items.dom().contains(q));
            assert(v.items.contains_key(q));
            assert(m[q] == items[q]);
        }
    }
}

pub proof fn recargada_es_valido(v: EstadoVista, c: Seq<char>, cargados: Seq<ItemVista>, ahora: u64)
    requires
        v.valido(),
        caben(cargados),
    ensures
        v.recargada(c, cargados, ahora).valido(),
{
    let w = v.recargada(c, cargados, ahora);
    let r = rutas_nuevas(c, v.next_item, cargados.len());
    let viejas = v.lista(c).to_set();
    let quedan = v.items.remove_keys(viejas);
    con_cargados_es(quedan, c, v.next_item, cargados);
    rutas_nuevas_son_distintas(c, v.next_item, cargados.len());
    las_nuevas_no_estaban(v, c, cargados.len());
    assert forall|d: Seq<char>, q: Seq<char>| #[trigger] w.en(d, q) <==> (d == c && r.contains(q)) || (d != c
        && v.en(d, q)) by {}
    assert forall|d: Seq<char>, q: Seq<char>| #[trigger] w.en(d, q) implies w.items.contains_key(q) by {
        if d != c {
            assert(v.en(d, q));
            if viejas.contains(q) {
                assert(v.en(c, q));
            }
        }
    }
    assert forall|d: Seq<char>, e: Seq<char>, q: Seq<char>| #[trigger] w.en(d, q) && #[trigger] w.en(e, q) implies d
        == e by {
        if d != c && e != c {
            assert(v.en(d, q) && v.en(e, q));
        } else if d != c {
            assert(v.en(d, q));
        } else if e != c {
            assert(v.en(e, q));
        }
    }
    assert forall|d: Seq<char>| #[trigger] w.collections.contains_key(d) implies w.collections[d].items.no_duplicates() by {
        if d != c {
            assert(v.collections.contains_key(d));
        }
    }
    los_cargados_valen(quedan, v, c, cargados);
    assert forall|a: Seq<char>| #[trigger] w.aliases.contains_key(a) implies w.collections.contains_key(w.aliases[a]) by {
        assert(v.aliases.contains_key(a));
    }
}

/// Two sessions with different numbers have different paths.
pub proof fn sesiones_distintas(a: nat, b: nat)
    requires
        dbus_api::ruta_de_sesion(a) == dbus_api::ruta_de_sesion(b),
    ensures
        a == b,
{
    let x = "/org/freedesktop/secrets/session/s"@;
    let n = x.len() as int;
    assert(dbus_api::ruta_de_sesion(a).skip(n) =~= crate::texto::decimal(a));
    assert(dbus_api::ruta_de_sesion(b).skip(n) =~= crate::texto::decimal(b));
    crate::texto::decimal_es_inyectivo(a, b);
}

pub proof fn con_sesion_es_valido(v: EstadoVista, s: SessionVista)
    requires
        v.valido(),
        s.shared_key matches Some(k) ==> k.len() == 16,
    ensures
        v.con_sesion(s).valido(),
        !v.sessions.contains_key(dbus_api::ruta_de_sesion(v.next_session)),
{
    let w = v.con_sesion(s);
    let p = dbus_api::ruta_de_sesion(v.next_session);
    if v.sessions.contains_key(p) {
        let id = choose|id: nat| id < v.next_session && p == #[trigger] dbus_api::ruta_de_sesion(id);
        sesiones_distintas(id, v.next_session);
    }
    assert forall|q: Seq<char>| #[trigger] w.sessions.contains_key(q) implies exists|id: nat|
        id < w.next_session && q == #[trigger] dbus_api::ruta_de_sesion(id) by {
        if q == p {
            assert(v.next_session < w.next_session);
        } else {
            assert(v.sessions.contains_key(q));
            let id = choose|id: nat| id < v.next_session && q == #[trigger] dbus_api::ruta_de_sesion(id);
            assert(id < w.next_session && q == dbus_api::ruta_de_sesion(id));
        }
    }
    assert forall|q: Seq<char>| #[trigger] w.sessions.contains_key(q) implies (w.sessions[q].shared_key matches Some(
        k,
    ) ==> k.len() == 16) by {
        if q != p {
            assert(v.sessions.contains_key(q));
        }
    }
    mismo_contenido_es_valido(v, w);
}

pub proof fn sin_sesion_es_valido(v: EstadoVista, ruta: Seq<char>)
    requires
        v.valido(),
    ensures
        v.sin_sesion(ruta).valido(),
{
    let w = v.sin_sesion(ruta);
    assert forall|s: Seq<char>| #[trigger] w.sessions.contains_key(s) implies v.sessions.contains_key(s)
        && w.sessions[s] == v.sessions[s] by {}
    mismo_contenido_es_valido(v, w);
}

pub proof fn con_reserva_es_valido(v: EstadoVista)
    requires
        v.valido(),
    ensures
        v.con_reserva().valido(),
{
    mismo_contenido_es_valido(v, v.con_reserva());
}

/// Where only sessions, flags or dates change, or numbers are taken, the items
/// and their lists are as valid as they were.
proof fn mismo_contenido_es_valido(v: EstadoVista, w: EstadoVista)
    requires
        v.valido(),
        w.items == v.items,
        w.next_item >= v.next_item,
        w.aliases == v.aliases,
        forall|c: Seq<char>| #[trigger] w.collections.contains_key(c) <==> v.collections.contains_key(c),
        forall|c: Seq<char>| #[trigger]
            w.collections.contains_key(c) ==> w.collections[c].items == v.collections[c].items,
        forall|s: Seq<char>| #[trigger]
            w.sessions.contains_key(s) ==> exists|id: nat|
                id < w.next_session && s == #[trigger] dbus_api::ruta_de_sesion(id),
        forall|s: Seq<char>| #[trigger]
            w.sessions.contains_key(s) ==> (w.sessions[s].shared_key matches Some(k) ==> k.len() == 16),
    ensures
        w.valido(),
{
    assert forall|c: Seq<char>, q: Seq<char>| #[trigger] w.en(c, q) <==> v.en(c, q) by {}
    assert forall|c: Seq<char>, d: Seq<char>, q: Seq<char>| #[trigger] w.en(c, q) && #[trigger] w.en(d, q) implies c
        == d by {
        assert(v.en(c, q) && v.en(d, q));
    }
    assert forall|c: Seq<char>| #[trigger] w.collections.contains_key(c) implies w.collections[c].items.no_duplicates() by {
        assert(v.collections.contains_key(c));
    }
    assert forall|q: Seq<char>| #[trigger] w.items.contains_key(q) implies exists|id: nat|
        id < w.next_item && #[trigger] dbus_api::termina_en(q, id) by {
        assert(v.items.contains_key(q));
        let id = choose|id: nat| id < v.next_item && #[trigger] dbus_api::termina_en(q, id);
        assert(id < w.next_item && dbus_api::termina_en(q, id));
    }
    assert forall|a: Seq<char>| #[trigger] w.aliases.contains_key(a) implies w.collections.contains_key(w.aliases[a]) by {
        assert(v.aliases.contains_key(a));
        assert(v.collections.contains_key(v.aliases[a]));
    }
}

pub proof fn con_candado_es_valido(v: EstadoVista, objetos: Seq<Seq<char>>, locked: bool)
    requires
        v.valido(),
    ensures
        v.con_candado(objetos, locked).valido(),
{
    let w = v.con_candado(objetos, locked);
    assert forall|s: Seq<char>| #[trigger] w.sessions.contains_key(s) implies exists|id: nat|
        id < w.next_session && s == #[trigger] dbus_api::ruta_de_sesion(id) by {
        assert(v.sessions.contains_key(s));
    }
    mismo_contenido_es_valido(v, w);
}

} // verus!
