//! Text built and compared character by character.
//!
//! Every contract of the library speaks of text as a sequence of characters.
//! The functions here are the few operations on strings that the rest needs,
//! each stated over that sequence.
use vstd::prelude::*;
use vstd::string::*;
use vstd::utf8::*;

verus! {

/// `String::push`, as its documentation states it: the character goes at the end.
pub assume_specification[ String::push ](s: &mut String, c: char)
    ensures
        final(s)@ == old(s)@.push(c),
;

/// Whether two texts hold the same characters.
pub fn igual(a: &str, b: &str) -> (r: bool)
    ensures
        r == (a@ == b@),
{
    let x: &[u8] = a.as_bytes();
    let y: &[u8] = b.as_bytes();
    proof {
        encode_utf8_decode_utf8(a@);
        encode_utf8_decode_utf8(b@);
    }
    if x.len() != y.len() {
        return false;
    }
    let mut i: usize = 0;
    while i < x.len()
        invariant
            i <= x.len(),
            x.len() == y.len(),
            x@ == encode_utf8(a@),
            y@ == encode_utf8(b@),
            forall|j: int| 0 <= j < i ==> x@[j] == y@[j],
        decreases x.len() - i,
    {
        if x[i] != y[i] {
            return false;
        }
        i += 1;
    }
    assert(x@ =~= y@);
    true
}

/// `std::str::from_utf8`: the text of some bytes, where they are UTF-8.
#[verifier::external_body]
pub(crate) fn texto_utf8(b: &[u8]) -> (r: Option<String>)
    ensures
        match r {
            Some(s) => valid_utf8(b@) && s@ == decode_utf8(b@),
            None => !valid_utf8(b@),
        },
{
    std::str::from_utf8(b).ok().map(|s| s.to_string())
}

/// A copy of some bytes.
pub fn copia_de_bytes(b: &[u8]) -> (r: Vec<u8>)
    ensures
        r@ == b@,
{
    tramo_de_bytes(b, 0, b.len())
}

/// The bytes from `desde` up to, and not including, `hasta`.
pub fn tramo_de_bytes(b: &[u8], desde: usize, hasta: usize) -> (r: Vec<u8>)
    requires
        desde <= hasta <= b@.len(),
    ensures
        r@ == b@.subrange(desde as int, hasta as int),
{
    let mut r: Vec<u8> = Vec::new();
    let mut i: usize = desde;
    while i < hasta
        invariant
            desde <= i <= hasta <= b@.len(),
            r@ == b@.subrange(desde as int, i as int),
        decreases hasta - i,
    {
        r.push(b[i]);
        i += 1;
        assert(r@ =~= b@.subrange(desde as int, i as int));
    }
    r
}

/// One text after another.
pub fn unir(a: &str, b: &str) -> (r: String)
    ensures
        r@ == a@ + b@,
{
    let mut s: String = a.to_owned();
    s.append(b);
    s
}

/// Three texts in a row.
pub fn unir3(a: &str, b: &str, c: &str) -> (r: String)
    ensures
        r@ == a@ + b@ + c@,
{
    let mut s: String = a.to_owned();
    s.append(b);
    s.append(c);
    s
}

/// The characters of a text.
pub fn letras(s: &str) -> (v: Vec<char>)
    ensures
        v@ == s@,
{
    let mut v: Vec<char> = Vec::new();
    for c in it: s.chars()
        invariant
            v@ == it.seq().take(it.index() as int),
            it.seq() == s@,
    {
        v.push(c);
        assert(it.seq().take(it.index() as int + 1) =~= it.seq().take(it.index() as int).push(
            it.seq()[it.index() as int],
        ));
    }
    assert(s@.take(s@.len() as int) =~= s@);
    v
}

/// The text made of the characters from `desde` up to, and not including, `hasta`.
pub fn texto_de(v: &Vec<char>, desde: usize, hasta: usize) -> (s: String)
    requires
        desde <= hasta <= v@.len(),
    ensures
        s@ == v@.subrange(desde as int, hasta as int),
{
    let mut s: String = String::new();
    let mut i: usize = desde;
    while i < hasta
        invariant
            desde <= i <= hasta <= v@.len(),
            s@ == v@.subrange(desde as int, i as int),
        decreases hasta - i,
    {
        s.push(v[i]);
        i += 1;
        assert(s@ =~= v@.subrange(desde as int, i as int));
    }
    s
}

/// The place of the first appearance of a character, or the length where it
/// does not appear.
pub open spec fn primera(s: Seq<char>, c: char) -> int
    decreases s.len(),
{
    if s.len() == 0 {
        0
    } else if s[0] == c {
        0
    } else {
        1 + primera(s.drop_first(), c)
    }
}

/// The first appearance of a character at or after a place.
pub fn buscar(v: &Vec<char>, c: char, desde: usize) -> (i: usize)
    requires
        desde <= v@.len(),
    ensures
        desde <= i <= v@.len(),
        i == desde + primera(v@.skip(desde as int), c),
        i < v@.len() ==> v@[i as int] == c,
        forall|j: int| desde <= j < i ==> v@[j] != c,
{
    let mut i: usize = desde;
    while i < v.len() && v[i] != c
        invariant
            desde <= i <= v@.len(),
            forall|j: int| desde <= j < i ==> v@[j] != c,
        decreases v.len() - i,
    {
        i += 1;
    }
    proof {
        primera_es(v@.skip(desde as int), c, i - desde);
    }
    i
}

/// What the first appearance is.
pub proof fn primera_es(s: Seq<char>, c: char, i: int)
    requires
        0 <= i <= s.len(),
        i < s.len() ==> s[i] == c,
        forall|j: int| 0 <= j < i ==> s[j] != c,
    ensures
        primera(s, c) == i,
    decreases s.len(),
{
    if s.len() > 0 && i > 0 {
        assert(s[0] != c);
        primera_es(s.drop_first(), c, i - 1);
    }
}

/// The characters that Unicode calls white space.
pub open spec fn es_blanco(c: char) -> bool {
    ||| '\u{9}' <= c <= '\u{d}'
    ||| c == '\u{20}'
    ||| c == '\u{85}'
    ||| c == '\u{a0}'
    ||| c == '\u{1680}'
    ||| '\u{2000}' <= c <= '\u{200a}'
    ||| c == '\u{2028}'
    ||| c == '\u{2029}'
    ||| c == '\u{202f}'
    ||| c == '\u{205f}'
    ||| c == '\u{3000}'
}

/// Whether a character is white space.
pub fn blanco(c: char) -> (r: bool)
    ensures
        r == es_blanco(c),
{
    ('\u{9}' <= c && c <= '\u{d}') || c == '\u{20}' || c == '\u{85}' || c == '\u{a0}' || c == '\u{1680}' || (
    '\u{2000}' <= c && c <= '\u{200a}') || c == '\u{2028}' || c == '\u{2029}' || c == '\u{202f}' || c
        == '\u{205f}' || c == '\u{3000}'
}

/// A text without the white space at its end.
pub open spec fn sin_cola(s: Seq<char>) -> Seq<char>
    decreases s.len(),
{
    if s.len() > 0 && es_blanco(s.last()) {
        sin_cola(s.drop_last())
    } else {
        s
    }
}

/// A text without the white space at its beginning.
pub open spec fn sin_cabeza(s: Seq<char>) -> Seq<char>
    decreases s.len(),
{
    if s.len() > 0 && es_blanco(s[0]) {
        sin_cabeza(s.drop_first())
    } else {
        s
    }
}

/// A text without the white space at either end.
pub open spec fn recortado(s: Seq<char>) -> Seq<char> {
    sin_cola(sin_cabeza(s))
}

/// Where a text ends once the white space at its end is left out.
pub fn fin_sin_cola(v: &Vec<char>, desde: usize, hasta: usize) -> (i: usize)
    requires
        desde <= hasta <= v@.len(),
    ensures
        desde <= i <= hasta,
        v@.subrange(desde as int, i as int) == sin_cola(v@.subrange(desde as int, hasta as int)),
{
    let mut i: usize = hasta;
    while i > desde && blanco(v[i - 1])
        invariant
            desde <= i <= hasta <= v@.len(),
            sin_cola(v@.subrange(desde as int, i as int)) == sin_cola(
                v@.subrange(desde as int, hasta as int),
            ),
        decreases i,
    {
        proof {
            let s = v@.subrange(desde as int, i as int);
            assert(s.last() == v@[i - 1]);
            assert(s.drop_last() =~= v@.subrange(desde as int, i - 1));
        }
        i -= 1;
    }
    proof {
        let s = v@.subrange(desde as int, i as int);
        if i > desde {
            assert(s.last() == v@[i - 1]);
        }
    }
    i
}

/// Where a text begins once the white space at its beginning is left out.
pub fn inicio_sin_cabeza(v: &Vec<char>, desde: usize, hasta: usize) -> (i: usize)
    requires
        desde <= hasta <= v@.len(),
    ensures
        desde <= i <= hasta,
        v@.subrange(i as int, hasta as int) == sin_cabeza(v@.subrange(desde as int, hasta as int)),
{
    let mut i: usize = desde;
    while i < hasta && blanco(v[i])
        invariant
            desde <= i <= hasta <= v@.len(),
            sin_cabeza(v@.subrange(i as int, hasta as int)) == sin_cabeza(
                v@.subrange(desde as int, hasta as int),
            ),
        decreases hasta - i,
    {
        proof {
            let s = v@.subrange(i as int, hasta as int);
            assert(s[0] == v@[i as int]);
            assert(s.drop_first() =~= v@.subrange(i + 1, hasta as int));
        }
        i += 1;
    }
    proof {
        let s = v@.subrange(i as int, hasta as int);
        if i < hasta {
            assert(s[0] == v@[i as int]);
        }
    }
    i
}

/// A letter of ASCII in upper case; any other character as it is.
pub open spec fn mayuscula(c: char) -> char {
    if 'a' <= c <= 'z' {
        (c as u32 - 32) as char
    } else {
        c
    }
}

/// A text with its ASCII letters in upper case.
pub open spec fn mayusculas(s: Seq<char>) -> Seq<char> {
    s.map_values(|c: char| mayuscula(c))
}

/// The part of a text between two places, with its ASCII letters in upper case.
pub fn en_mayusculas(v: &Vec<char>, desde: usize, hasta: usize) -> (s: String)
    requires
        desde <= hasta <= v@.len(),
    ensures
        s@ == mayusculas(v@.subrange(desde as int, hasta as int)),
{
    let mut s: String = String::new();
    let mut i: usize = desde;
    while i < hasta
        invariant
            desde <= i <= hasta <= v@.len(),
            s@ == mayusculas(v@.subrange(desde as int, i as int)),
        decreases hasta - i,
    {
        let c: char = v[i];
        if 'a' <= c && c <= 'z' {
            s.push((c as u8 - 32) as char);
        } else {
            s.push(c);
        }
        i += 1;
        proof {
            assert(v@.subrange(desde as int, i as int) =~= v@.subrange(desde as int, i - 1).push(c));
            assert(s@ =~= mayusculas(v@.subrange(desde as int, i as int)));
        }
    }
    s
}

/// The decimal digit of a value below ten.
pub open spec fn digito(d: nat) -> char {
    (48 + d) as char
}

/// A number in decimal, without leading zeros.
pub open spec fn decimal(n: nat) -> Seq<char>
    decreases n,
{
    if n < 10 {
        seq![digito(n)]
    } else {
        decimal(n / 10).push(digito(n % 10))
    }
}

/// A number in decimal.
pub fn en_decimal(n: u64) -> (r: String)
    ensures
        r@ == decimal(n as nat),
    decreases n,
{
    if n < 10 {
        let mut s: String = String::new();
        s.push((48u8 + n as u8) as char);
        s
    } else {
        let mut s: String = en_decimal(n / 10);
        s.push((48u8 + (n % 10) as u8) as char);
        s
    }
}

/// Two numbers with the same decimal form are the same number, and every
/// character of that form is a digit.
pub proof fn decimal_es_inyectivo(a: nat, b: nat)
    ensures
        decimal(a) == decimal(b) ==> a == b,
    decreases a,
{
    decimal_son_digitos(a);
    decimal_son_digitos(b);
    if decimal(a) == decimal(b) {
        if a >= 10 && b >= 10 {
            assert(decimal(a).drop_last() =~= decimal(a / 10));
            assert(decimal(b).drop_last() =~= decimal(b / 10));
            decimal_es_inyectivo(a / 10, b / 10);
            assert(decimal(a).last() == digito(a % 10));
            assert(decimal(b).last() == digito(b % 10));
        } else if a >= 10 {
            decimal_son_digitos(a / 10);
            assert(decimal(a).len() == decimal(a / 10).len() + 1);
        } else if b >= 10 {
            decimal_son_digitos(b / 10);
            assert(decimal(b).len() == decimal(b / 10).len() + 1);
        } else {
            assert(decimal(a)[0] == digito(a));
            assert(decimal(b)[0] == digito(b));
        }
    }
}

/// The decimal form is never empty and holds digits only.
pub proof fn decimal_son_digitos(n: nat)
    ensures
        decimal(n).len() > 0,
        forall|i: int| 0 <= i < decimal(n).len() ==> '0' <= #[trigger] decimal(n)[i] <= '9',
    decreases n,
{
    if n >= 10 {
        decimal_son_digitos(n / 10);
    }
}

// ── What the forms of text stand for ───────────────────────

/// The number that decimal digits write.
pub open spec fn numero(s: Seq<char>) -> int
    decreases s.len(),
{
    if s.len() == 0 {
        0
    } else {
        numero(s.drop_last()) * 10 + (s.last() as int - '0' as int)
    }
}

/// The decimal form of a number writes that number, most significant digit first
/// and without zeros in front.
pub proof fn decimal_escribe_el_numero(n: nat)
    ensures
        numero(decimal(n)) == n,
        n > 0 ==> decimal(n)[0] != '0',
        n == 0 ==> decimal(n) == seq!['0'],
    decreases n,
{
    decimal_son_digitos(n);
    if n < 10 {
        assert(decimal(n).drop_last() =~= Seq::<char>::empty());
        assert(numero(Seq::<char>::empty()) == 0);
    } else {
        decimal_escribe_el_numero(n / 10);
        decimal_son_digitos(n / 10);
        assert(decimal(n).drop_last() =~= decimal(n / 10));
    }
}

/// Trimming takes white space from both ends, all of it and nothing else.
pub proof fn recortar_quita_solo_los_bordes(s: Seq<char>)
    ensures
        exists|a: int, b: int|
            0 <= a <= b <= s.len() && #[trigger] s.subrange(a, b) == recortado(s) && (forall|i: int|
                0 <= i < a || b <= i < s.len() ==> es_blanco(#[trigger] s[i])),
        recortado(s).len() > 0 ==> !es_blanco(recortado(s)[0]) && !es_blanco(recortado(s).last()),
{
    sin_cabeza_es(s);
    let a = s.len() - sin_cabeza(s).len();
    let t = sin_cabeza(s);
    sin_cola_es(t);
    let b = a + sin_cola(t).len();
    assert(s.subrange(a, b) =~= sin_cola(t)) by {
        assert forall|i: int| 0 <= i < b - a implies s.subrange(a, b)[i] == sin_cola(t)[i] by {
            assert(sin_cola(t)[i] == t[i]);
            assert(t[i] == s[a + i]);
        }
    }
    assert forall|i: int| 0 <= i < a || b <= i < s.len() implies es_blanco(#[trigger] s[i]) by {
        if i >= b {
            assert(t[i - a] == s[i]);
        }
    }
    if recortado(s).len() > 0 {
        assert(sin_cola(t)[0] == t[0]);
    }
}

/// A text that neither begins nor ends with white space is trimmed to itself.
pub proof fn lo_recortado_queda(s: Seq<char>)
    requires
        s.len() > 0 ==> !es_blanco(s[0]) && !es_blanco(s.last()),
    ensures
        recortado(s) == s,
{
}

proof fn sin_cola_es(s: Seq<char>)
    ensures
        sin_cola(s).len() <= s.len(),
        sin_cola(s) == s.take(sin_cola(s).len() as int),
        forall|i: int| sin_cola(s).len() <= i < s.len() ==> es_blanco(#[trigger] s[i]),
        sin_cola(s).len() > 0 ==> !es_blanco(sin_cola(s).last()),
    decreases s.len(),
{
    if s.len() > 0 && es_blanco(s.last()) {
        sin_cola_es(s.drop_last());
        assert(s.drop_last().take(sin_cola(s).len() as int) =~= s.take(sin_cola(s).len() as int));
        assert forall|i: int| sin_cola(s).len() <= i < s.len() implies es_blanco(#[trigger] s[i]) by {
            if i < s.len() - 1 {
                assert(s.drop_last()[i] == s[i]);
            }
        }
    } else {
        assert(s.take(s.len() as int) =~= s);
    }
}

proof fn sin_cabeza_es(s: Seq<char>)
    ensures
        sin_cabeza(s).len() <= s.len(),
        sin_cabeza(s) == s.skip(s.len() - sin_cabeza(s).len()),
        forall|i: int| 0 <= i < s.len() - sin_cabeza(s).len() ==> es_blanco(#[trigger] s[i]),
        sin_cabeza(s).len() > 0 ==> !es_blanco(sin_cabeza(s)[0]),
    decreases s.len(),
{
    if s.len() > 0 && es_blanco(s[0]) {
        sin_cabeza_es(s.drop_first());
        let n = s.len() - sin_cabeza(s).len();
        assert(s.drop_first().skip(n - 1) =~= s.skip(n));
        assert forall|i: int| 0 <= i < n implies es_blanco(#[trigger] s[i]) by {
            if i > 0 {
                assert(s.drop_first()[i - 1] == s[i]);
            }
        }
    } else {
        assert(s.skip(0) =~= s);
    }
}

/// The first appearance of a character is one, and there is none before it; where
/// it does not appear, no place holds it.
pub proof fn primera_es_la_primera(s: Seq<char>, c: char)
    ensures
        0 <= primera(s, c) <= s.len(),
        primera(s, c) < s.len() ==> s[primera(s, c)] == c,
        forall|j: int| 0 <= j < primera(s, c) ==> s[j] != c,
    decreases s.len(),
{
    if s.len() > 0 && s[0] != c {
        primera_es_la_primera(s.drop_first(), c);
        assert forall|j: int| 0 <= j < primera(s, c) implies s[j] != c by {
            if j > 0 {
                assert(s.drop_first()[j - 1] == s[j]);
            }
        }
    }
}

/// Upper case changes the letters from `a` to `z` and leaves every other
/// character, place by place.
pub proof fn mayusculas_cambia_solo_letras(s: Seq<char>)
    ensures
        mayusculas(s).len() == s.len(),
        forall|i: int|
            0 <= i < s.len() ==> (#[trigger] mayusculas(s)[i]) as int == if 'a' <= s[i] <= 'z' {
                s[i] as int - 32
            } else {
                s[i] as int
            },
{
}

/// Space, tabulation and the line breaks are white space; letters, digits and the
/// signs of ASCII are not.
pub proof fn lo_visible_no_es_blanco(c: char)
    ensures
        '!' <= c <= '~' ==> !es_blanco(c),
        c == ' ' || c == '\t' || c == '\n' || c == '\r' ==> es_blanco(c),
        es_blanco(c) <==> 9 <= c as int <= 13 || c as int == 0x20 || c as int == 0x85 || c as int == 0xA0 || c as int
            == 0x1680 || 0x2000 <= c as int <= 0x200A || c as int == 0x2028 || c as int == 0x2029 || c as int == 0x202F
            || c as int == 0x205F || c as int == 0x3000,
{
}

} // verus!
