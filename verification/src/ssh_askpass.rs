//! What ssh asks for, read out of the words it asks with.
//!
//! The prompt is written for a person: `ssh` says
//! `Enter passphrase for key '/home/pato/.ssh/id_ed25519':` and `ssh-add` says
//! `Enter passphrase for /home/pato/.ssh/id_ed25519:`. Both carry the path, and
//! the path is what the passphrase is filed under.
use vstd::prelude::*;
use vstd::string::*;

use crate::texto::{buscar, fin_sin_cola, letras, texto_de, unir};

verus! {

/// What stands between the first two quotes of a text, where there are two.
pub open spec fn entre_comillas(s: Seq<char>) -> Option<Seq<char>> {
    let a = crate::texto::primera(s, '\'');
    if a >= s.len() {
        None
    } else {
        let resto = s.skip(a + 1);
        let b = crate::texto::primera(resto, '\'');
        if b >= resto.len() {
            None
        } else {
            Some(resto.take(b))
        }
    }
}

/// A text without the colon at its end, where there is one.
pub open spec fn sin_dos_puntos(s: Seq<char>) -> Seq<char> {
    if s.len() > 0 && s.last() == ':' {
        s.drop_last()
    } else {
        s
    }
}

/// The path that a prompt names: the quoted text where it is a path; otherwise
/// what goes from the first slash to the end, without the colon and the white
/// space there.
pub open spec fn ruta_en(prompt: Seq<char>) -> Option<Seq<char>> {
    let citado = entre_comillas(prompt);
    if citado is Some && (citado->0).len() > 0 && (citado->0)[0] == '/' {
        citado
    } else {
        let i = crate::texto::primera(prompt, '/');
        if i >= prompt.len() {
            None
        } else {
            Some(
                crate::texto::sin_cola(sin_dos_puntos(crate::texto::sin_cola(prompt.skip(i)))),
            )
        }
    }
}

/// The key that ssh is asking about.
pub fn key_path_from(prompt: &str) -> (r: Option<String>)
    ensures
        match r {
            Some(p) => ruta_en(prompt@) == Some(p@),
            None => ruta_en(prompt@) is None,
        },
{
    let v: Vec<char> = letras(prompt);
    let n: usize = v.len();
    assert(v@.skip(0) =~= v@);
    let a: usize = buscar(&v, '\'', 0);
    if a < n {
        let b: usize = buscar(&v, '\'', a + 1);
        proof {
            let resto = v@.skip(a + 1);
            if b < n {
                assert(resto.take(b - (a + 1)) =~= v@.subrange(a + 1, b as int));
            }
        }
        if b < n && a + 1 < b && v[a + 1] == '/' {
            return Some(texto_de(&v, a + 1, b));
        }
    }
    let i: usize = buscar(&v, '/', 0);
    if i >= n {
        return None;
    }
    let f: usize = fin_sin_cola(&v, i, n);
    assert(v@.subrange(i as int, n as int) =~= v@.skip(i as int));
    let g: usize = if f > i && v[f - 1] == ':' {
        f - 1
    } else {
        f
    };
    proof {
        let s = v@.subrange(i as int, f as int);
        if f > i {
            assert(s.last() == v@[f - 1]);
            assert(s.drop_last() =~= v@.subrange(i as int, f - 1));
        }
    }
    let h: usize = fin_sin_cola(&v, i, g);
    Some(texto_de(&v, i, h))
}

/// A path that was found begins with a slash, so there is always one to file
/// the passphrase under.
pub proof fn lo_hallado_es_una_ruta(prompt: Seq<char>)
    requires
        ruta_en(prompt) is Some,
    ensures
        (ruta_en(prompt)->0).len() > 0,
        (ruta_en(prompt)->0)[0] == '/',
{
    let citado = entre_comillas(prompt);
    if !(citado is Some && (citado->0).len() > 0 && (citado->0)[0] == '/') {
        let i = crate::texto::primera(prompt, '/');
        hallada(prompt, '/');
        let s = prompt.skip(i);
        conserva_la_cabeza(s);
        let t = crate::texto::sin_cola(s);
        assert(sin_dos_puntos(t).len() > 0 && sin_dos_puntos(t)[0] == '/');
        conserva_la_cabeza(sin_dos_puntos(t));
    }
}

proof fn hallada(s: Seq<char>, c: char)
    ensures
        0 <= crate::texto::primera(s, c) <= s.len(),
        crate::texto::primera(s, c) < s.len() ==> s[crate::texto::primera(s, c)] == c,
    decreases s.len(),
{
    if s.len() > 0 && s[0] != c {
        hallada(s.drop_first(), c);
    }
}

/// Leaving out white space at the end does not touch a beginning that is none.
proof fn conserva_la_cabeza(s: Seq<char>)
    requires
        s.len() > 0,
        s[0] == '/',
    ensures
        crate::texto::sin_cola(s).len() > 0,
        crate::texto::sin_cola(s)[0] == '/',
    decreases s.len(),
{
    if crate::texto::es_blanco(s.last()) {
        assert(s.len() > 1);
        assert(s.drop_last()[0] == '/');
        conserva_la_cabeza(s.drop_last());
    }
}

/// What the dialog needs to say.
pub struct Request {
    pub prompt: String,
    pub key_path: Option<String>,
}

/// The last part of a path: what follows its last slash.
pub open spec fn ultima_parte(s: Seq<char>) -> Seq<char>
    decreases s.len(),
{
    if s.len() == 0 || s.last() == '/' {
        Seq::empty()
    } else {
        ultima_parte(s.drop_last()).push(s.last())
    }
}

/// The name of a key in a dialog that has to fit on one line.
pub open spec fn nombre_de(key_path: Option<Seq<char>>) -> Seq<char> {
    match key_path {
        Some(p) => ultima_parte(p),
        None => "SSH"@,
    }
}

impl Request {
    /// The path of the key, as contracts speak of it.
    pub open spec fn ruta(&self) -> Option<Seq<char>> {
        match self.key_path {
            Some(p) => Some(p@),
            None => None,
        }
    }

    /// What ssh asked, with the key it is about.
    pub fn de(prompt: String) -> (r: Request)
        ensures
            r.prompt@ == prompt@,
            r.ruta() == ruta_en(prompt@),
    {
        let key_path: Option<String> = key_path_from(prompt.as_str());
        Request { prompt, key_path }
    }

    /// A name for the key.
    pub fn key_name(&self) -> (r: String)
        ensures
            r@ == nombre_de(self.ruta()),
    {
        match &self.key_path {
            Some(p) => {
                let v: Vec<char> = letras(p.as_str());
                let n: usize = v.len();
                let mut i: usize = n;
                assert(v@.subrange(n as int, n as int) =~= Seq::<char>::empty());
                assert(v@.take(n as int) =~= v@);
                assert(ultima_parte(v@) =~= ultima_parte(v@) + Seq::<char>::empty());
                while i > 0 && v[i - 1] != '/'
                    invariant
                        i <= n,
                        n == v@.len(),
                        ultima_parte(v@) == ultima_parte(v@.take(i as int)) + v@.subrange(i as int, n as int),
                    decreases i,
                {
                    proof {
                        let s = v@.take(i as int);
                        assert(s.last() == v@[i - 1]);
                        assert(s.drop_last() =~= v@.take(i - 1));
                        assert(ultima_parte(s) + v@.subrange(i as int, n as int) =~= ultima_parte(
                            v@.take(i - 1),
                        ) + v@.subrange(i - 1, n as int));
                    }
                    i -= 1;
                }
                proof {
                    let s = v@.take(i as int);
                    if i > 0 {
                        assert(s.last() == v@[i - 1]);
                    }
                    assert(ultima_parte(s) =~= Seq::<char>::empty());
                    assert(ultima_parte(v@) =~= v@.subrange(i as int, n as int));
                }
                texto_de(&v, i, n)
            },
            None => "SSH".to_owned(),
        }
    }

    /// What to file the passphrase under, with its label, where it was asked to
    /// be remembered and there is a key to file it under.
    pub fn a_recordar(&self, recordar: bool) -> (r: Option<(String, String)>)
        ensures
            match r {
                Some(p) => recordar && self.ruta() == Some(p.0@) && p.1@ == "Frase de la clave SSH "@
                    + nombre_de(self.ruta()),
                None => !recordar || self.ruta() is None,
            },
    {
        match &self.key_path {
            Some(p) => if recordar {
                let nombre: String = self.key_name();
                Some((p.clone(), unir("Frase de la clave SSH ", nombre.as_str())))
            } else {
                None
            },
            None => None,
        }
    }
}

// ── What a prompt names ────────────────────────────────────

/// A path in quotes is the one that the prompt names, whatever stands around it.
pub proof fn la_ruta_citada_es_la_que_se_lee(antes: Seq<char>, ruta: Seq<char>, despues: Seq<char>)
    requires
        forall|i: int| 0 <= i < antes.len() ==> antes[i] != '\'',
        forall|i: int| 0 <= i < ruta.len() ==> ruta[i] != '\'',
        ruta.len() > 0,
        ruta[0] == '/',
    ensures
        ruta_en(antes + seq!['\''] + ruta + seq!['\''] + despues) == Some(ruta),
{
    let s = antes + seq!['\''] + ruta + seq!['\''] + despues;
    let n = antes.len() as int;
    assert(s[n] == '\'');
    assert forall|j: int| 0 <= j < n implies s[j] != '\'' by {
        assert(s[j] == antes[j]);
    }
    crate::texto::primera_es(s, '\'', n);
    let resto = s.skip(n + 1);
    assert(resto =~= ruta + seq!['\''] + despues);
    assert forall|j: int| 0 <= j < ruta.len() implies resto[j] != '\'' by {
        assert(resto[j] == ruta[j]);
    }
    crate::texto::primera_es(resto, '\'', ruta.len() as int);
    assert(resto.take(ruta.len() as int) =~= ruta);
}

/// A path without quotes goes from the first slash to the end of the prompt, and
/// the colon there is not part of it.
pub proof fn la_ruta_sin_comillas_llega_hasta_los_dos_puntos(
    antes: Seq<char>,
    ruta: Seq<char>,
    cola: Seq<char>,
)
    requires
        forall|i: int| 0 <= i < antes.len() ==> antes[i] != '\'' && antes[i] != '/',
        forall|i: int| 0 <= i < ruta.len() ==> ruta[i] != '\'',
        ruta.len() > 0,
        ruta[0] == '/',
        !crate::texto::es_blanco(ruta.last()),
        ruta.last() != ':',
        forall|i: int| 0 <= i < cola.len() ==> crate::texto::es_blanco(#[trigger] cola[i]),
    ensures
        ruta_en(antes + ruta + seq![':'] + cola) == Some(ruta),
        ruta_en(antes + ruta + cola) == Some(ruta),
{
    crate::texto::lo_visible_no_es_blanco(':');
    crate::texto::lo_visible_no_es_blanco('\'');
    let con = ruta + seq![':'] + cola;
    let s = antes + con;
    assert(antes + ruta + seq![':'] + cola =~= s);
    desde_la_barra(antes, con);
    sin_la_cola(ruta.push(':'), cola);
    assert(ruta + seq![':'] + cola =~= ruta.push(':') + cola);
    assert(ruta.push(':').drop_last() =~= ruta);
    assert(crate::texto::sin_cola(ruta) == ruta);
    let z = antes + (ruta + cola);
    assert(antes + ruta + cola =~= z);
    desde_la_barra(antes, ruta + cola);
    sin_la_cola(ruta, cola);
}

proof fn desde_la_barra(antes: Seq<char>, resto: Seq<char>)
    requires
        forall|i: int| 0 <= i < antes.len() ==> antes[i] != '\'' && antes[i] != '/',
        forall|i: int| 0 <= i < resto.len() ==> resto[i] != '\'',
        resto.len() > 0,
        resto[0] == '/',
    ensures
        ruta_en(antes + resto) == Some(crate::texto::sin_cola(sin_dos_puntos(crate::texto::sin_cola(resto)))),
{
    let s = antes + resto;
    assert forall|j: int| 0 <= j < s.len() implies s[j] != '\'' by {
        if j < antes.len() {
            assert(s[j] == antes[j]);
        } else {
            assert(s[j] == resto[j - antes.len()]);
        }
    }
    crate::texto::primera_es(s, '\'', s.len() as int);
    assert forall|j: int| 0 <= j < antes.len() implies s[j] != '/' by {
        assert(s[j] == antes[j]);
    }
    assert(s[antes.len() as int] == resto[0]);
    crate::texto::primera_es(s, '/', antes.len() as int);
    assert(s.skip(antes.len() as int) =~= resto);
}

proof fn sin_la_cola(s: Seq<char>, cola: Seq<char>)
    requires
        s.len() > 0,
        !crate::texto::es_blanco(s.last()),
        forall|i: int| 0 <= i < cola.len() ==> crate::texto::es_blanco(#[trigger] cola[i]),
    ensures
        crate::texto::sin_cola(s + cola) == s,
    decreases cola.len(),
{
    if cola.len() == 0 {
        assert(s + cola =~= s);
    } else {
        assert((s + cola).last() == cola[cola.len() - 1]);
        assert((s + cola).drop_last() =~= s + cola.drop_last());
        assert forall|i: int| 0 <= i < cola.drop_last().len() implies crate::texto::es_blanco(
            #[trigger] cola.drop_last()[i],
        ) by {
            assert(cola.drop_last()[i] == cola[i]);
        }
        sin_la_cola(s, cola.drop_last());
    }
}

/// A prompt names a path exactly where it holds a slash.
pub proof fn sin_barra_no_hay_ruta(prompt: Seq<char>)
    ensures
        ruta_en(prompt) is Some <==> exists|i: int| 0 <= i < prompt.len() && #[trigger] prompt[i] == '/',
{
    let i = crate::texto::primera(prompt, '/');
    crate::texto::primera_es_la_primera(prompt, '/');
    if i < prompt.len() {
        assert(prompt[i] == '/');
    }
    let citado = entre_comillas(prompt);
    if citado is Some && (citado->0).len() > 0 && (citado->0)[0] == '/' {
        let a = crate::texto::primera(prompt, '\'');
        crate::texto::primera_es_la_primera(prompt, '\'');
        let resto = prompt.skip(a + 1);
        crate::texto::primera_es_la_primera(resto, '\'');
        assert((citado->0)[0] == resto[0]);
        assert(resto[0] == prompt[a + 1]);
    }
}

/// The name of a key is what follows the last slash of its path: the path ends
/// with it, it holds no slash, and a slash stands right before it or the path is
/// it. Without a path there is a name all the same.
pub proof fn el_nombre_es_la_ultima_parte(ruta: Seq<char>)
    ensures
        ({
            let n = nombre_de(Some(ruta));
            &&& n.len() <= ruta.len()
            &&& n == ruta.skip(ruta.len() - n.len())
            &&& forall|i: int| 0 <= i < n.len() ==> #[trigger] n[i] != '/'
            &&& n.len() < ruta.len() ==> ruta[ruta.len() - n.len() - 1] == '/'
        }),
        nombre_de(None) == "SSH"@,
{
    ultima_parte_es(ruta);
}

proof fn ultima_parte_es(s: Seq<char>)
    ensures
        ultima_parte(s).len() <= s.len(),
        ultima_parte(s) == s.skip(s.len() - ultima_parte(s).len()),
        forall|i: int| 0 <= i < ultima_parte(s).len() ==> #[trigger] ultima_parte(s)[i] != '/',
        ultima_parte(s).len() < s.len() ==> s[s.len() - ultima_parte(s).len() - 1] == '/',
    decreases s.len(),
{
    let n = ultima_parte(s);
    if s.len() > 0 && s.last() != '/' {
        let t = s.drop_last();
        ultima_parte_es(t);
        let m = ultima_parte(t);
        assert(n == m.push(s.last()));
        assert forall|i: int| 0 <= i < n.len() implies #[trigger] n[i] == s[s.len() - n.len() + i] by {
            if i < m.len() {
                assert(n[i] == m[i]);
                assert(m[i] == t.skip(t.len() - m.len())[i]);
            }
        }
        assert(n =~= s.skip(s.len() - n.len()));
        assert forall|i: int| 0 <= i < n.len() implies #[trigger] n[i] != '/' by {
            if i < m.len() {
                assert(n[i] == m[i]);
            }
        }
        if n.len() < s.len() {
            assert(s[s.len() - n.len() - 1] == t[t.len() - m.len() - 1]);
        }
    } else {
        assert(n =~= s.skip(s.len() as int));
    }
}

} // verus!
