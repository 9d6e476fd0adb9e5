//! A map keyed by text.
//!
//! The entries are kept in the order in which their keys first arrived, and no
//! key is there twice. Seen from outside it is a mathematical map from the
//! characters of the key to the view of the value.
use vstd::prelude::*;

use crate::texto::igual;

verus! {

/// A map from text to values.
pub struct Mapa<T> {
    entradas: Vec<(String, T)>,
}

/// The key of each entry, in order.
spec fn claves_de<T>(e: Seq<(String, T)>) -> Seq<Seq<char>> {
    e.map_values(|p: (String, T)| p.0@)
}

/// What a list of entries with different keys stands for.
spec fn mapa_de<T: View>(e: Seq<(String, T)>) -> Map<Seq<char>, T::V> {
    Map::new(
        |k: Seq<char>| claves_de(e).contains(k),
        |k: Seq<char>| e[claves_de(e).index_of(k)].1@,
    )
}

impl<T: View> View for Mapa<T> {
    type V = Map<Seq<char>, T::V>;

    closed spec fn view(&self) -> Map<Seq<char>, T::V> {
        mapa_de(self.entradas@)
    }
}

impl<T> Mapa<T> {
    /// No key is there twice.
    #[verifier::type_invariant]
    spec fn sin_repetidas(self) -> bool {
        claves_de(self.entradas@).no_duplicates()
    }

    /// The keys, in the order in which they are walked.
    pub closed spec fn orden(self) -> Seq<Seq<char>> {
        claves_de(self.entradas@)
    }
}

impl<T: View> Mapa<T> {
    /// An empty map.
    pub fn new() -> (m: Self)
        ensures
            m@ == Map::<Seq<char>, T::V>::empty(),
            m.orden() == Seq::<Seq<char>>::empty(),
    {
        let m: Mapa<T> = Mapa { entradas: Vec::new() };
        assert(claves_de(m.entradas@) =~= Seq::<Seq<char>>::empty());
        assert(m@ =~= Map::<Seq<char>, T::V>::empty());
        m
    }

    /// How many entries there are. The walking order names every key of the
    /// map, each of them once.
    pub fn len(&self) -> (n: usize)
        ensures
            n == self.orden().len(),
            n == self@.dom().len(),
            self@.dom().finite(),
            self.orden().no_duplicates(),
            self.orden().to_set() == self@.dom(),
    {
        proof {
            use_type_invariant(self);
            assert(self.orden().to_set() =~= self@.dom());
            self.orden().unique_seq_to_set();
        }
        self.entradas.len()
    }

    /// The key at a place of the walking order.
    pub fn clave(&self, i: usize) -> (k: &String)
        requires
            i < self.orden().len(),
        ensures
            k@ == self.orden()[i as int],
            self@.contains_key(k@),
    {
        proof {
            assert(claves_de(self.entradas@).contains(claves_de(self.entradas@)[i as int]));
        }
        &self.entradas[i].0
    }

    /// The value at a place of the walking order.
    pub fn valor(&self, i: usize) -> (v: &T)
        requires
            i < self.orden().len(),
        ensures
            v@ == self@[self.orden()[i as int]],
            self@.contains_key(self.orden()[i as int]),
    {
        proof {
            use_type_invariant(self);
            let ks = claves_de(self.entradas@);
            assert(ks.contains(ks[i as int]));
            assert(ks.index_of(ks[i as int]) == i);
        }
        &self.entradas[i].1
    }

    /// Where a key stands, or the number of entries when it is not there.
    fn donde(&self, k: &str) -> (i: usize)
        ensures
            i <= self.entradas@.len(),
            self@.contains_key(k@) <==> i < self.entradas@.len(),
            i < self.entradas@.len() ==> self.entradas@[i as int].0@ == k@ && self@[k@]
                == self.entradas@[i as int].1@ && claves_de(self.entradas@).index_of(k@) == i,
    {
        proof {
            use_type_invariant(self);
        }
        let ghost ks = claves_de(self.entradas@);
        let mut i: usize = 0;
        while i < self.entradas.len()
            invariant
                i <= self.entradas@.len(),
                ks == claves_de(self.entradas@),
                ks.no_duplicates(),
                forall|j: int| 0 <= j < i ==> ks[j] != k@,
            decreases self.entradas.len() - i,
        {
            if igual(self.entradas[i].0.as_str(), k) {
                assert(ks[i as int] == k@);
                assert(ks.contains(k@));
                return i;
            }
            assert(ks[i as int] != k@);
            i += 1;
        }
        assert(!ks.contains(k@));
        i
    }

    /// Whether a key is there.
    pub fn contains_key(&self, k: &str) -> (r: bool)
        ensures
            r == self@.contains_key(k@),
    {
        self.donde(k) < self.entradas.len()
    }

    /// The value of a key.
    pub fn get(&self, k: &str) -> (r: Option<&T>)
        ensures
            match r {
                Some(v) => self@.contains_key(k@) && v@ == self@[k@],
                None => !self@.contains_key(k@),
            },
    {
        let i: usize = self.donde(k);
        if i < self.entradas.len() {
            Some(&self.entradas[i].1)
        } else {
            None
        }
    }

    /// Puts a value under a key, in place of the one that was there. A new key
    /// goes at the end of the walking order; one that was there keeps its place.
    pub fn insert(&mut self, k: String, v: T)
        ensures
            final(self)@ == old(self)@.insert(k@, v@),
            final(self).orden() == if old(self)@.contains_key(k@) {
                old(self).orden()
            } else {
                old(self).orden().push(k@)
            },
    {
        proof {
            use_type_invariant(&*self);
        }
        let i: usize = self.donde(k.as_str());
        let ghost antes = self.entradas@;
        let ghost ks = claves_de(antes);
        let ghost nueva = k@;
        let ghost valor = v@;
        let mut e: Vec<(String, T)> = Vec::new();
        std::mem::swap(&mut e, &mut self.entradas);
        if i < e.len() {
            e.set(i, (k, v));
            assert(claves_de(e@) =~= ks);
        } else {
            e.push((k, v));
            assert(claves_de(e@) =~= ks.push(nueva));
            assert(!ks.contains(nueva));
        }
        let ghost despues = claves_de(e@);
        proof {
            assert(despues.no_duplicates());
            assert(despues[i as int] == nueva);
            assert forall|x: Seq<char>| #[trigger]
                despues.contains(x) <==> (ks.contains(x) || x == nueva) by {
                if ks.contains(x) {
                    let j = ks.index_of(x);
                    assert(despues[j] == x);
                }
                if despues.contains(x) {
                    let j = despues.index_of(x);
                    if j != i {
                        assert(ks[j] == x);
                    }
                }
            }
            assert forall|x: Seq<char>| #[trigger] ks.contains(x) && x != nueva implies e@[despues.index_of(
                x,
            )].1@ == antes[ks.index_of(x)].1@ by {
                let j = ks.index_of(x);
                assert(despues[j] == x);
                assert(despues.index_of(x) == j);
            }
            assert(despues.index_of(nueva) == i);
            assert(mapa_de(e@) =~= mapa_de(antes).insert(nueva, valor));
        }
        self.entradas = e;
    }

    /// Takes a key out.
    pub fn remove(&mut self, k: &str) -> (r: Option<T>)
        ensures
            match r {
                Some(v) => old(self)@.contains_key(k@) && v@ == old(self)@[k@],
                None => !old(self)@.contains_key(k@),
            },
            final(self)@ == old(self)@.remove(k@),
            final(self).orden() == sin(old(self).orden(), k@),
    {
        proof {
            use_type_invariant(&*self);
        }
        let i: usize = self.donde(k);
        let ghost antes = self.entradas@;
        let ghost ks = claves_de(antes);
        if i >= self.entradas.len() {
            proof {
                assert(self@ =~= self@.remove(k@));
                sin_ella(ks, k@);
            }
            return None;
        }
        let mut e: Vec<(String, T)> = Vec::new();
        std::mem::swap(&mut e, &mut self.entradas);
        let (_, v) = e.remove(i);
        let ghost despues = claves_de(e@);
        proof {
            assert(despues =~= ks.remove(i as int));
            assert(despues.no_duplicates());
            quitar_la_unica(ks, i as int);
            assert forall|x: Seq<char>| #[trigger] despues.contains(x) <==> (ks.contains(x) && x != k@) by {
                if ks.contains(x) && x != k@ {
                    let j = ks.index_of(x);
                    if j < i {
                        assert(despues[j] == x);
                    } else {
                        assert(despues[j - 1] == x);
                    }
                }
                if despues.contains(x) {
                    let j = despues.index_of(x);
                    if j < i {
                        assert(ks[j] == x);
                    } else {
                        assert(ks[j + 1] == x);
                    }
                }
            }
            assert forall|x: Seq<char>| #[trigger] despues.contains(x) implies e@[despues.index_of(x)].1@
                == antes[ks.index_of(x)].1@ by {
                let j = ks.index_of(x);
                if j < i {
                    assert(despues[j] == x);
                    assert(despues.index_of(x) == j);
                } else {
                    assert(despues[j - 1] == x);
                    assert(despues.index_of(x) == j - 1);
                }
            }
            assert(mapa_de(e@) =~= mapa_de(antes).remove(k@));
        }
        self.entradas = e;
        Some(v)
    }
}

impl Clone for Mapa<String> {
    /// A copy with the same entries in the same order.
    fn clone(&self) -> (r: Mapa<String>)
        ensures
            r@ == self@,
            r.orden() == self.orden(),
    {
        let n: usize = self.len();
        let mut r: Mapa<String> = Mapa::new();
        let mut i: usize = 0;
        while i < n
            invariant
                i <= n,
                n == self.orden().len(),
                self.orden().no_duplicates(),
                self.orden().to_set() == self@.dom(),
                r.orden() == self.orden().take(i as int),
                r@ == self@.restrict(self.orden().take(i as int).to_set()),
            decreases n - i,
        {
            let ghost hechas = self.orden().take(i as int);
            let ghost k = self.orden()[i as int];
            proof {
                assert(!hechas.contains(k));
                assert(self.orden().contains(k));
                assert(self.orden().take(i as int + 1) =~= hechas.push(k));
            }
            r.insert(self.clave(i).clone(), self.valor(i).clone());
            i += 1;
            proof {
                assert(r@ =~= self@.restrict(self.orden().take(i as int).to_set())) by {
                    assert forall|x: Seq<char>| #[trigger]
                        hechas.push(k).contains(x) <==> (hechas.contains(x) || x == k) by {
                        if hechas.contains(x) {
                            let j = hechas.index_of(x);
                            assert(hechas.push(k)[j] == x);
                        }
                        assert(hechas.push(k)[hechas.len() as int] == k);
                    }
                }
            }
        }
        proof {
            assert(self.orden().take(n as int) =~= self.orden());
            assert(r@ =~= self@);
        }
        r
    }
}

impl Mapa<String> {
    /// Whether every entry of this map is an entry of another.
    pub fn dentro_de(&self, otro: &Mapa<String>) -> (r: bool)
        ensures
            r == self@.submap_of(otro@),
    {
        let n: usize = self.len();
        let mut i: usize = 0;
        while i < n
            invariant
                i <= n,
                n == self.orden().len(),
                self.orden().to_set() == self@.dom(),
                forall|j: int|
                    0 <= j < i ==> otro@.contains_key(#[trigger] self.orden()[j])
                        && otro@[self.orden()[j]] == self@[self.orden()[j]],
            decreases n - i,
        {
            let k: &String = self.clave(i);
            let v: &String = self.valor(i);
            match otro.get(k.as_str()) {
                Some(w) => {
                    if !igual(v.as_str(), w.as_str()) {
                        return false;
                    }
                },
                None => {
                    return false;
                },
            }
            i += 1;
        }
        proof {
            assert forall|k: Seq<char>| #[trigger] self@.dom().contains(k) implies otro@.dom().contains(k)
                && self@[k] == otro@[k] by {
                assert(self.orden().to_set().contains(k));
                let j = self.orden().index_of(k);
                assert(self.orden()[j] == k);
            }
        }
        true
    }

    /// Whether two maps hold the same entries.
    pub fn igual_a(&self, otro: &Mapa<String>) -> (r: bool)
        ensures
            r == (self@ == otro@),
    {
        let r: bool = self.dentro_de(otro) && otro.dentro_de(self);
        proof {
            if r {
                assert forall|k: Seq<char>| #[trigger] self@.dom().contains(k) <==> otro@.dom().contains(k) by {}
                assert(self@ =~= otro@);
            }
        }
        r
    }

    /// Wipes every key and every value, and leaves the map empty.
    pub fn zeroize(&mut self)
        ensures
            final(self)@ == Map::<Seq<char>, Seq<char>>::empty(),
        opens_invariants none
        no_unwind
    {
        borrar_pares(&mut self.entradas);
        proof {
            assert(claves_de(self.entradas@) =~= Seq::<Seq<char>>::empty());
            assert(self@ =~= Map::<Seq<char>, Seq<char>>::empty());
        }
    }
}

/// `Zeroize::zeroize` of the `zeroize` crate on a list of pairs of texts: it
/// overwrites what every text holds and leaves the list empty, without
/// panicking.
#[verifier::external_body]
fn borrar_pares(v: &mut Vec<(String, String)>)
    ensures
        final(v)@ == Seq::<(String, String)>::empty(),
    opens_invariants none
    no_unwind
{
    zeroize::Zeroize::zeroize(v)
}

/// Being another than a key.
pub open spec fn otra_que(k: Seq<char>) -> spec_fn(Seq<char>) -> bool {
    |x: Seq<char>| x != k
}

/// A list of keys without one of them.
pub open spec fn sin(s: Seq<Seq<char>>, k: Seq<char>) -> Seq<Seq<char>> {
    s.filter(otra_que(k))
}

/// Leaving out what is not there leaves everything.
proof fn sin_ella(s: Seq<Seq<char>>, k: Seq<char>)
    requires
        !s.contains(k),
    ensures
        sin(s, k) == s,
    decreases s.len(),
{
    reveal(Seq::filter);
    if s.len() > 0 {
        assert(s.last() == s[s.len() - 1]);
        assert(!s.drop_last().contains(k)) by {
            if s.drop_last().contains(k) {
                let j = s.drop_last().index_of(k);
                assert(s[j] == k);
            }
        }
        sin_ella(s.drop_last(), k);
        assert(s =~= s.drop_last().push(s.last()));
    }
}

/// Leaving out a key that was just put at the end, and was not there before,
/// gives back the list.
pub proof fn sin_la_agregada(s: Seq<Seq<char>>, k: Seq<char>)
    requires
        !s.contains(k),
    ensures
        sin(s.push(k), k) == s,
{
    reveal(Seq::filter);
    sin_ella(s, k);
    assert(s.push(k).drop_last() =~= s);
}

/// Leaving out the element at a place, where nothing is there twice, is
/// removing that place.
proof fn quitar_la_unica(s: Seq<Seq<char>>, i: int)
    requires
        s.no_duplicates(),
        0 <= i < s.len(),
    ensures
        sin(s, s[i]) == s.remove(i),
    decreases s.len(),
{
    reveal(Seq::filter);
    let k = s[i];
    if i == s.len() - 1 {
        assert(!s.drop_last().contains(k)) by {
            if s.drop_last().contains(k) {
                let j = s.drop_last().index_of(k);
                assert(s[j] == k);
            }
        }
        sin_ella(s.drop_last(), k);
        assert(s.remove(i) =~= s.drop_last());
    } else {
        assert(s.drop_last()[i] == k);
        quitar_la_unica(s.drop_last(), i);
        assert(s.remove(i) =~= s.drop_last().remove(i).push(s.last()));
    }
}

} // verus!
