//! The protocol that `gpg-agent` speaks when it needs a passphrase.
//!
//! A line comes in and an answer comes out: nothing is read, written or shown
//! here. Texts travel percent-encoded, and the protocol goes line by line, so an
//! answer that held a line break would be read as two.
use vstd::prelude::*;
use vstd::string::*;
use vstd::utf8::*;

use crate::secreto::Secreto;
use crate::texto::{
    blanco, buscar, en_decimal, en_mayusculas, fin_sin_cola, igual, inicio_sin_cabeza, letras, texto_de, unir,
};

verus! {

/// The person cancelled: source Pinentry, `GPG_ERR_CANCELED`.
pub const CANCELADO: &'static str = "ERR 83886179 Operation cancelled <Pinentry>";

/// An order that nobody knows, as libassuan reports it.
pub const ORDEN_DESCONOCIDA: &'static str = "ERR 536871187 Unknown IPC command <User defined source 1>";

/// A known order with an argument that nobody knows: `GPG_ERR_ASS_PARAMETER`.
pub const PARAMETRO_DESCONOCIDO: &'static str = "ERR 83886360 IPC parameter error <Pinentry>";

/// The person did not confirm: `GPG_ERR_NOT_CONFIRMED`.
pub const NO_CONFIRMADO: &'static str = "ERR 83886194 Not confirmed <Pinentry>";

/// What has to be done with a line of the agent.
#[derive(Debug, PartialEq, Eq)]
pub enum Accion {
    /// Answer this and go on listening.
    Responder(Vec<String>),
    /// Ask for the passphrase.
    PedirFrase,
    /// Ask yes or no, or show a notice that can only be accepted.
    Confirmar { una_sola_opcion: bool },
    /// Show a message without asking anything.
    Mostrar,
    /// The conversation is over.
    Terminar,
}

/// What an action is, with its lines as sequences of characters.
#[verifier::ext_equal]
pub enum AccionVista {
    Responder(Seq<Seq<char>>),
    PedirFrase,
    Confirmar { una_sola_opcion: bool },
    Mostrar,
    Terminar,
}

/// Lines of text, as sequences of characters.
pub open spec fn lineas(v: Seq<String>) -> Seq<Seq<char>> {
    v.map_values(|s: String| s@)
}

impl View for Accion {
    type V = AccionVista;

    open spec fn view(&self) -> AccionVista {
        match self {
            Accion::Responder(v) => AccionVista::Responder(lineas(v@)),
            Accion::PedirFrase => AccionVista::PedirFrase,
            Accion::Confirmar { una_sola_opcion } => AccionVista::Confirmar {
                una_sola_opcion: *una_sola_opcion,
            },
            Accion::Mostrar => AccionVista::Mostrar,
            Accion::Terminar => AccionVista::Terminar,
        }
    }
}

/// What the agent has told so far of what it is going to ask.
#[derive(Debug)]
pub struct Pedido {
    /// The long explanation: which key it is about.
    pub descripcion: String,
    /// The short label of the field.
    pub etiqueta: String,
    /// The title of the window.
    pub titulo: String,
    /// Why the previous attempt failed, if there was one.
    pub error: String,
    /// Which key it is, as the agent names it.
    pub clave: String,
}

/// What a request is.
#[verifier::ext_equal]
pub struct PedidoVista {
    pub descripcion: Seq<char>,
    pub etiqueta: Seq<char>,
    pub titulo: Seq<char>,
    pub error: Seq<char>,
    pub clave: Seq<char>,
}

impl View for Pedido {
    type V = PedidoVista;

    open spec fn view(&self) -> PedidoVista {
        PedidoVista {
            descripcion: self.descripcion@,
            etiqueta: self.etiqueta@,
            titulo: self.titulo@,
            error: self.error@,
            clave: self.clave@,
        }
    }
}

/// A request of which nothing was told yet.
pub open spec fn pedido_vacio() -> PedidoVista {
    PedidoVista {
        descripcion: Seq::empty(),
        etiqueta: Seq::empty(),
        titulo: Seq::empty(),
        error: Seq::empty(),
        clave: Seq::empty(),
    }
}

impl Clone for Pedido {
    fn clone(&self) -> (p: Pedido)
        ensures
            p@ == self@,
    {
        Pedido {
            descripcion: self.descripcion.clone(),
            etiqueta: self.etiqueta.clone(),
            titulo: self.titulo.clone(),
            error: self.error.clone(),
            clave: self.clave.clone(),
        }
    }
}

impl Default for Pedido {
    fn default() -> (p: Pedido)
        ensures
            p@ == pedido_vacio(),
    {
        Pedido {
            descripcion: String::new(),
            etiqueta: String::new(),
            titulo: String::new(),
            error: String::new(),
            clave: String::new(),
        }
    }
}

impl Pedido {
    /// Leaves the request as if nothing had been told, so that the next one does
    /// not come out with the text, or the error, of this one.
    pub fn limpiar(&mut self)
        ensures
            final(self)@ == pedido_vacio(),
    {
        *self = Pedido::default();
    }
}

/// What answers `GETINFO`: the version of the program and its process number.
pub struct Identidad {
    pub version: String,
    pub pid: u32,
}

// ── Percent encoding ───────────────────────────────────────

/// A character as it travels to the agent.
pub open spec fn escapado(c: char) -> Seq<char> {
    if c == '%' {
        seq!['%', '2', '5']
    } else if c == '\r' {
        seq!['%', '0', 'D']
    } else if c == '\n' {
        seq!['%', '0', 'A']
    } else {
        seq![c]
    }
}

/// A text as it travels to the agent.
pub open spec fn codificado(s: Seq<char>) -> Seq<char>
    decreases s.len(),
{
    if s.len() == 0 {
        Seq::empty()
    } else {
        escapado(s[0]) + codificado(s.drop_first())
    }
}

/// The value of a hexadecimal digit.
pub open spec fn valor_hexa(b: u8) -> Option<u8> {
    if 0x30 <= b <= 0x39 {
        Some((b - 0x30) as u8)
    } else if 0x41 <= b <= 0x46 {
        Some((b - 0x41 + 10) as u8)
    } else if 0x61 <= b <= 0x66 {
        Some((b - 0x61 + 10) as u8)
    } else {
        None
    }
}

/// The byte that the two bytes after a `%` write, where both are hexadecimal
/// digits.
pub open spec fn valor_de_escape(a: u8, b: u8) -> Option<u8> {
    match (valor_hexa(a), valor_hexa(b)) {
        (Some(x), Some(y)) => Some((16 * x + y) as u8),
        _ => None,
    }
}

/// Some bytes with their escapes resolved. What is not a valid escape stays as
/// it is.
pub open spec fn sin_escapes(b: Seq<u8>) -> Seq<u8>
    decreases b.len(),
{
    if b.len() == 0 {
        Seq::empty()
    } else if b[0] == 0x25 && b.len() > 2 && valor_de_escape(b[1], b[2]) is Some {
        seq![valor_de_escape(b[1], b[2])->0] + sin_escapes(b.skip(3))
    } else {
        seq![b[0]] + sin_escapes(b.skip(1))
    }
}

/// The text that bytes which are not UTF-8 are read as.
pub uninterp spec fn utf8_con_perdida(b: Seq<u8>) -> Seq<char>;

/// The text that some bytes are read as.
pub open spec fn leido(b: Seq<u8>) -> Seq<char> {
    if valid_utf8(b) {
        decode_utf8(b)
    } else {
        utf8_con_perdida(b)
    }
}

/// `String::from_utf8_lossy`: bytes that are UTF-8 give their text; others give
/// the text with replacement characters, which has a name and no more.
#[verifier::external_body]
fn leer_utf8(b: &[u8]) -> (r: String)
    ensures
        r@ == if valid_utf8(b@) {
            decode_utf8(b@)
        } else {
            utf8_con_perdida(b@)
        },
{
    String::from_utf8_lossy(b).into_owned()
}

/// A text of the agent with its percent encoding resolved.
pub open spec fn decodificado(s: Seq<char>) -> Seq<char> {
    leido(sin_escapes(encode_utf8(s)))
}

/// The value of a hexadecimal digit.
fn hexa(b: u8) -> (r: Option<u8>)
    ensures
        r == valor_hexa(b),
        r matches Some(x) ==> x < 16,
{
    if 0x30 <= b && b <= 0x39 {
        Some(b - 0x30)
    } else if 0x41 <= b && b <= 0x46 {
        Some(b - 0x41 + 10)
    } else if 0x61 <= b && b <= 0x66 {
        Some(b - 0x61 + 10)
    } else {
        None
    }
}

/// The byte that an escape writes.
fn escape(a: u8, b: u8) -> (r: Option<u8>)
    ensures
        r == valor_de_escape(a, b),
{
    match (hexa(a), hexa(b)) {
        (Some(x), Some(y)) => Some(16 * x + y),
        _ => None,
    }
}

/// Takes the percent encoding off a text of the agent.
pub fn decodificar(texto: &str) -> (r: String)
    ensures
        r@ == decodificado(texto@),
{
    let bytes: &[u8] = texto.as_bytes();
    let mut salida: Vec<u8> = Vec::new();
    let mut i: usize = 0;
    assert(bytes@.skip(0) =~= bytes@);
    assert(salida@ + sin_escapes(bytes@) =~= sin_escapes(bytes@));
    while i < bytes.len()
        invariant
            i <= bytes@.len(),
            bytes@ == encode_utf8(texto@),
            salida@ + sin_escapes(bytes@.skip(i as int)) == sin_escapes(bytes@),
        decreases bytes.len() - i,
    {
        let ghost resto = bytes@.skip(i as int);
        let ghost hecho = salida@;
        if bytes[i] == 0x25 && bytes.len() - i > 2 {
            if let Some(valor) = escape(bytes[i + 1], bytes[i + 2]) {
                salida.push(valor);
                i += 3;
                proof {
                    assert(resto.skip(3) =~= bytes@.skip(i as int));
                    assert(salida@ + sin_escapes(bytes@.skip(i as int)) =~= hecho + (seq![valor]
                        + sin_escapes(resto.skip(3))));
                }
                continue;
            }
        }
        salida.push(bytes[i]);
        i += 1;
        proof {
            assert(resto.skip(1) =~= bytes@.skip(i as int));
            assert(salida@ + sin_escapes(bytes@.skip(i as int)) =~= hecho + (seq![resto[0]]
                + sin_escapes(resto.skip(1))));
        }
    }
    proof {
        assert(sin_escapes(bytes@.skip(i as int)) =~= Seq::<u8>::empty());
        assert(salida@ =~= sin_escapes(bytes@));
    }
    leer_utf8(salida.as_slice())
}

proof fn codificado_al_final(s: Seq<char>, c: char)
    ensures
        codificado(s.push(c)) == codificado(s) + escapado(c),
    decreases s.len(),
{
    if s.len() == 0 {
        assert(s.push(c).drop_first() =~= Seq::<char>::empty());
        assert(codificado(Seq::<char>::empty()) =~= Seq::<char>::empty());
        assert(s.push(c)[0] == c);
        assert(codificado(s.push(c)) =~= escapado(c));
        assert(codificado(s) + escapado(c) =~= escapado(c));
    } else {
        assert(s.push(c).drop_first() =~= s.drop_first().push(c));
        codificado_al_final(s.drop_first(), c);
        assert(codificado(s.push(c)) =~= codificado(s) + escapado(c));
    }
}

/// Puts the percent encoding on a text for the agent.
pub fn codificar(texto: &str) -> (r: String)
    ensures
        r@ == codificado(texto@),
{
    let v: Vec<char> = letras(texto);
    let mut salida: String = String::new();
    let mut i: usize = 0;
    while i < v.len()
        invariant
            i <= v@.len(),
            v@ == texto@,
            salida@ == codificado(v@.take(i as int)),
        decreases v.len() - i,
    {
        let c: char = v[i];
        let ghost antes = salida@;
        if c == '%' {
            salida.push('%');
            salida.push('2');
            salida.push('5');
        } else if c == '\r' {
            salida.push('%');
            salida.push('0');
            salida.push('D');
        } else if c == '\n' {
            salida.push('%');
            salida.push('0');
            salida.push('A');
        } else {
            salida.push(c);
        }
        proof {
            assert(salida@ =~= antes + escapado(c));
            codificado_al_final(v@.take(i as int), c);
            assert(v@.take(i as int).push(c) =~= v@.take(i + 1));
        }
        i += 1;
    }
    assert(v@.take(v@.len() as int) =~= v@);
    salida
}

// ── The round trip ─────────────────────────────────────────

/// Bytes without a `%` pass as they are.
proof fn sin_porcentaje_pasan(a: Seq<u8>, b: Seq<u8>)
    requires
        forall|i: int| 0 <= i < a.len() ==> a[i] != 0x25,
    ensures
        sin_escapes(a + b) == a + sin_escapes(b),
    decreases a.len(),
{
    if a.len() == 0 {
        assert(a + b =~= b);
        assert(a + sin_escapes(b) =~= sin_escapes(b));
    } else {
        assert((a + b)[0] == a[0]);
        assert((a + b).skip(1) =~= a.skip(1) + b);
        assert forall|i: int| 0 <= i < a.skip(1).len() implies a.skip(1)[i] != 0x25 by {
            assert(a.skip(1)[i] == a[i + 1]);
        }
        sin_porcentaje_pasan(a.skip(1), b);
        assert(seq![a[0]] + (a.skip(1) + sin_escapes(b)) =~= a + sin_escapes(b));
    }
}

/// The bytes of a character other than `%` hold no `%`.
proof fn solo_el_porcentaje_lo_lleva(u: u32)
    requires
        is_scalar(u),
        u != 0x25,
    ensures
        forall|i: int| 0 <= i < encode_scalar(u).len() ==> encode_scalar(u)[i] != 0x25,
{
    assert(has_width_1_encoding(u) && u != 0x25 ==> leading_byte_width_1(u) != 0x25) by (bit_vector);
    assert(has_width_2_encoding(u) ==> leading_byte_width_2(u) >= 0x80) by (bit_vector);
    assert(has_width_3_encoding(u) ==> leading_byte_width_3(u) >= 0x80) by (bit_vector);
    assert(has_width_4_encoding(u) ==> leading_byte_width_4(u) >= 0x80) by (bit_vector);
    assert(last_continuation_byte(u) >= 0x80) by (bit_vector);
    assert(second_last_continuation_byte(u) >= 0x80) by (bit_vector);
    assert(third_last_continuation_byte(u) >= 0x80) by (bit_vector);
}

/// The bytes of two texts in a row are those of the first and then those of the
/// second.
proof fn bytes_en_fila(a: Seq<char>, b: Seq<char>)
    ensures
        encode_utf8(a + b) == encode_utf8(a) + encode_utf8(b),
    decreases a.len(),
{
    if a.len() == 0 {
        assert(a + b =~= b);
        assert(encode_utf8(a) + encode_utf8(b) =~= encode_utf8(b));
    } else {
        assert((a + b)[0] == a[0]);
        assert((a + b).drop_first() =~= a.drop_first() + b);
        bytes_en_fila(a.drop_first(), b);
        assert(encode_utf8(a + b) =~= encode_utf8(a) + encode_utf8(b));
    }
}

/// The three bytes of an escape give back one.
proof fn un_escape(a: u8, b: u8, v: u8, resto: Seq<u8>)
    requires
        valor_de_escape(a, b) == Some(v),
    ensures
        sin_escapes(seq![0x25u8, a, b] + resto) == seq![v] + sin_escapes(resto),
{
    let s = seq![0x25u8, a, b] + resto;
    assert(s.skip(3) =~= resto);
}

/// Decoding the bytes of an encoded text gives back the bytes of the text.
proof fn bytes_de_ida_y_vuelta(s: Seq<char>)
    ensures
        sin_escapes(encode_utf8(codificado(s))) == encode_utf8(s),
    decreases s.len(),
{
    if s.len() > 0 {
        let c = s[0];
        let resto = codificado(s.drop_first());
        bytes_de_ida_y_vuelta(s.drop_first());
        bytes_en_fila(escapado(c), resto);
        char_is_scalar(c);
        if c == '%' || c == '\r' || c == '\n' {
            let e = escapado(c);
            is_ascii_chars_encode_utf8(e);
            assert(encode_utf8(e) =~= seq![e[0] as u8, e[1] as u8, e[2] as u8]);
            let v = c as u8;
            assert(e[0] as u8 == 0x25);
            assert(valor_de_escape(e[1] as u8, e[2] as u8) == Some(v));
            un_escape(e[1] as u8, e[2] as u8, v, encode_utf8(resto));
            assert(encode_scalar(c as u32) =~= seq![v]) by {
                is_ascii_chars_encode_utf8(seq![c]);
                assert(seq![c].drop_first() =~= Seq::<char>::empty());
                assert(encode_utf8(seq![c]) =~= encode_scalar(c as u32));
            }
        } else {
            assert(escapado(c).drop_first() =~= Seq::<char>::empty());
            assert(encode_utf8(Seq::<char>::empty()) =~= Seq::<u8>::empty());
            assert(escapado(c)[0] == c);
            assert(encode_utf8(escapado(c)) =~= encode_scalar(c as u32));
            if c as u32 == 0x25 {
                char_u32_cast(c, 0x25);
                assert(c == '%');
            }
            solo_el_porcentaje_lo_lleva(c as u32);
            sin_porcentaje_pasan(encode_scalar(c as u32), encode_utf8(resto));
        }
    } else {
        assert(codificado(s) =~= Seq::<char>::empty());
        assert(encode_utf8(s) =~= Seq::<u8>::empty());
    }
}

/// What goes out encoded comes back the same, whatever it holds.
pub proof fn ida_y_vuelta(s: Seq<char>)
    ensures
        decodificado(codificado(s)) == s,
{
    bytes_de_ida_y_vuelta(s);
    encode_utf8_valid_utf8(s);
    encode_utf8_decode_utf8(s);
}

/// A line of the protocol: it holds no line break.
pub open spec fn una_linea(s: Seq<char>) -> bool {
    forall|i: int| 0 <= i < s.len() ==> #[trigger] s[i] != '\n' && s[i] != '\r'
}

/// An encoded text fits on one line, whatever it holds.
pub proof fn codificado_cabe_en_una_linea(s: Seq<char>)
    ensures
        una_linea(codificado(s)),
    decreases s.len(),
{
    if s.len() > 0 {
        codificado_cabe_en_una_linea(s.drop_first());
    }
}

// ── The conversation ───────────────────────────────────────

/// A line without the line breaks at its end.
pub open spec fn sin_fin_de_linea(s: Seq<char>) -> Seq<char>
    decreases s.len(),
{
    if s.len() > 0 && (s.last() == '\r' || s.last() == '\n') {
        sin_fin_de_linea(s.drop_last())
    } else {
        s
    }
}

/// The order of a line, in upper case: what stands before the first space.
pub open spec fn orden_de(linea: Seq<char>) -> Seq<char> {
    let l = sin_fin_de_linea(linea);
    crate::texto::mayusculas(l.take(crate::texto::primera(l, ' ')))
}

/// What follows the order of a line, without the white space around it.
pub open spec fn resto_de(linea: Seq<char>) -> Seq<char> {
    let l = sin_fin_de_linea(linea);
    let i = crate::texto::primera(l, ' ');
    if i < l.len() {
        crate::texto::recortado(l.skip(i + 1))
    } else {
        Seq::empty()
    }
}

/// Whether a word stands at a place of a text, with white space or an end on
/// both sides.
pub open spec fn palabra_en(s: Seq<char>, w: Seq<char>, i: int) -> bool {
    &&& 0 <= i
    &&& i + w.len() <= s.len()
    &&& s.subrange(i, i + w.len()) == w
    &&& i == 0 || crate::texto::es_blanco(s[i - 1])
    &&& i + w.len() == s.len() || crate::texto::es_blanco(s[i + w.len()])
}

/// Whether a word without white space is one of the words of a text.
pub open spec fn tiene_palabra(s: Seq<char>, w: Seq<char>) -> bool {
    exists|i: int| #[trigger] palabra_en(s, w, i)
}

/// The orders that are accepted and do nothing.
pub open spec fn orden_ignorada(o: Seq<char>) -> bool {
    ||| o == "OPTION"@
    ||| o == "NOP"@
    ||| o == "HELP"@
    ||| o == "SETOK"@
    ||| o == "SETNOTOK"@
    ||| o == "SETCANCEL"@
    ||| o == "SETQUALITYBAR"@
    ||| o == "SETQUALITYBAR_TT"@
    ||| o == "SETTIMEOUT"@
    ||| o == "SETREPEAT"@
    ||| o == "SETREPEATERROR"@
    ||| o == "SETGENPIN"@
    ||| o == "SETGENPIN_TT"@
    ||| o == "CLEARPASSPHRASE"@
}

/// The answer to `GETINFO`.
pub open spec fn informe(que: Seq<char>, version: Seq<char>, pid: u32) -> Seq<Seq<char>> {
    if que == "version"@ {
        seq!["D "@ + codificado(version), "OK"@]
    } else if que == "pid"@ {
        seq!["D "@ + codificado(crate::texto::decimal(pid as nat)), "OK"@]
    } else if que == "flavor"@ {
        seq!["D "@ + codificado("vasak"@), "OK"@]
    } else {
        seq![PARAMETRO_DESCONOCIDO@]
    }
}

/// What has to be done with a line, and what the request becomes after it.
pub open spec fn efecto(linea: Seq<char>, p: PedidoVista, version: Seq<char>, pid: u32) -> (
    AccionVista,
    PedidoVista,
) {
    let o = orden_de(linea);
    let r = resto_de(linea);
    let hecho = AccionVista::Responder(seq!["OK"@]);
    if o == "SETDESC"@ {
        (hecho, PedidoVista { descripcion: decodificado(r), ..p })
    } else if o == "SETPROMPT"@ {
        (hecho, PedidoVista { etiqueta: decodificado(r), ..p })
    } else if o == "SETTITLE"@ {
        (hecho, PedidoVista { titulo: decodificado(r), ..p })
    } else if o == "SETERROR"@ {
        (hecho, PedidoVista { error: decodificado(r), ..p })
    } else if o == "SETKEYINFO"@ {
        (hecho, PedidoVista { clave: decodificado(r), ..p })
    } else if o == "GETPIN"@ {
        (AccionVista::PedirFrase, p)
    } else if o == "CONFIRM"@ {
        (AccionVista::Confirmar { una_sola_opcion: tiene_palabra(r, "--one-button"@) }, p)
    } else if o == "MESSAGE"@ {
        (AccionVista::Mostrar, p)
    } else if o == "GETINFO"@ {
        (AccionVista::Responder(informe(r, version, pid)), p)
    } else if o == "RESET"@ {
        (hecho, pedido_vacio())
    } else if o == "BYE"@ {
        (AccionVista::Terminar, p)
    } else if o == ""@ || orden_ignorada(o) {
        (hecho, p)
    } else {
        (AccionVista::Responder(seq![ORDEN_DESCONOCIDA@]), p)
    }
}

/// Whether every line of an action is one line of the protocol.
pub open spec fn de_a_una_linea(a: AccionVista) -> bool {
    a matches AccionVista::Responder(v) ==> forall|i: int|
        0 <= i < v.len() ==> una_linea(#[trigger] v[i])
}

/// Where a line ends once its line breaks are left out.
fn fin_de_linea(v: &Vec<char>) -> (n: usize)
    ensures
        n <= v@.len(),
        v@.take(n as int) == sin_fin_de_linea(v@),
{
    let mut n: usize = v.len();
    assert(v@.take(n as int) =~= v@);
    while n > 0 && (v[n - 1] == '\r' || v[n - 1] == '\n')
        invariant
            n <= v@.len(),
            sin_fin_de_linea(v@.take(n as int)) == sin_fin_de_linea(v@),
        decreases n,
    {
        proof {
            let s = v@.take(n as int);
            assert(s.last() == v@[n - 1]);
            assert(s.drop_last() =~= v@.take(n - 1));
        }
        n -= 1;
    }
    proof {
        let s = v@.take(n as int);
        if n > 0 {
            assert(s.last() == v@[n - 1]);
        }
    }
    n
}

/// Splits a line into its order and what follows it.
fn partir(linea: &str) -> (r: (String, String))
    ensures
        r.0@ == orden_de(linea@),
        r.1@ == resto_de(linea@),
{
    let v: Vec<char> = letras(linea);
    let n: usize = fin_de_linea(&v);
    let mut l: Vec<char> = Vec::new();
    let mut k: usize = 0;
    while k < n
        invariant
            k <= n <= v@.len(),
            l@ == v@.take(k as int),
        decreases n - k,
    {
        l.push(v[k]);
        k += 1;
        assert(l@ =~= v@.take(k as int));
    }
    let i: usize = buscar(&l, ' ', 0);
    proof {
        assert(l@.skip(0) =~= l@);
        assert(l@.subrange(0, i as int) =~= l@.take(i as int));
    }
    let orden: String = en_mayusculas(&l, 0, i);
    if i < l.len() {
        let a: usize = inicio_sin_cabeza(&l, i + 1, l.len());
        let b: usize = fin_sin_cola(&l, a, l.len());
        proof {
            assert(l@.subrange(i + 1, l@.len() as int) =~= l@.skip(i + 1));
        }
        (orden, texto_de(&l, a, b))
    } else {
        (orden, String::new())
    }
}

/// Whether a word without white space is one of the words of a text.
fn con_palabra(texto: &str, palabra: &str) -> (r: bool)
    ensures
        r == tiene_palabra(texto@, palabra@),
{
    let s: Vec<char> = letras(texto);
    let w: Vec<char> = letras(palabra);
    let n: usize = s.len();
    let m: usize = w.len();
    if m > n {
        assert forall|j: int| !#[trigger] palabra_en(s@, w@, j) by {}
        return false;
    }
    let mut i: usize = 0;
    while i <= n - m
        invariant_except_break
            i <= n - m + 1,
            forall|j: int| 0 <= j < i ==> !#[trigger] palabra_en(s@, w@, j),
        invariant
            s@ == texto@,
            w@ == palabra@,
            n == s@.len(),
            m == w@.len(),
            m <= n,
        ensures
            forall|j: int| 0 <= j <= n - m ==> !#[trigger] palabra_en(s@, w@, j),
        decreases n - m + 1 - i,
    {
        let mut k: usize = 0;
        while k < m && s[i + k] == w[k]
            invariant
                n == s@.len(),
                m == w@.len(),
                k <= m,
                i + m <= n,
                s@.subrange(i as int, i + k) == w@.take(k as int),
            decreases m - k,
        {
            k += 1;
            assert(s@.subrange(i as int, i + k) =~= w@.take(k as int));
        }
        proof {
            if k < m {
                assert(s@.subrange(i as int, i + m)[k as int] == s@[i + k]);
            } else {
                assert(w@.take(k as int) =~= w@);
            }
        }
        if k == m && (i == 0 || blanco(s[i - 1])) && (i + m == n || blanco(s[i + m])) {
            assert(palabra_en(s@, w@, i as int));
            return true;
        }
        assert(!palabra_en(s@, w@, i as int));
        if i == n - m {
            break;
        }
        i += 1;
    }
    assert forall|j: int| !#[trigger] palabra_en(s@, w@, j) by {}
    false
}

/// One line of text.
fn una(s: &str) -> (v: Vec<String>)
    ensures
        lineas(v@) == seq![s@],
{
    let mut v: Vec<String> = Vec::new();
    v.push(s.to_owned());
    assert(lineas(v@) =~= seq![s@]);
    v
}

/// A line of data, and the line that closes the answer.
fn dato(texto: &str) -> (v: Vec<String>)
    ensures
        lineas(v@) == seq!["D "@ + codificado(texto@), "OK"@],
{
    let mut v: Vec<String> = Vec::new();
    v.push(unir("D ", codificar(texto).as_str()));
    v.push("OK".to_owned());
    assert(lineas(v@) =~= seq!["D "@ + codificado(texto@), "OK"@]);
    v
}

fn ok() -> (a: Accion)
    ensures
        a@ == AccionVista::Responder(seq!["OK"@]),
{
    Accion::Responder(una("OK"))
}

/// The literal answers fit on one line each.
proof fn los_literales_caben()
    ensures
        una_linea("OK"@),
        una_linea("D "@),
        una_linea(CANCELADO@),
        una_linea(ORDEN_DESCONOCIDA@),
        una_linea(PARAMETRO_DESCONOCIDO@),
        una_linea(NO_CONFIRMADO@),
        una_linea("OK Pleased to meet you, process "@),
{
    reveal_strlit("OK");
    reveal_strlit("D ");
    reveal_strlit("ERR 83886179 Operation cancelled <Pinentry>");
    reveal_strlit("ERR 536871187 Unknown IPC command <User defined source 1>");
    reveal_strlit("ERR 83886360 IPC parameter error <Pinentry>");
    reveal_strlit("ERR 83886194 Not confirmed <Pinentry>");
    reveal_strlit("OK Pleased to meet you, process ");
}

proof fn dato_en_una_linea(texto: Seq<char>)
    ensures
        una_linea("D "@ + codificado(texto)),
{
    los_literales_caben();
    codificado_cabe_en_una_linea(texto);
}

/// Every answer that a line gets is made of single lines, whatever the line
/// holds and whatever the program calls itself.
pub proof fn ninguna_respuesta_lleva_un_salto(
    linea: Seq<char>,
    p: PedidoVista,
    version: Seq<char>,
    pid: u32,
)
    ensures
        de_a_una_linea(efecto(linea, p, version, pid).0),
{
    los_literales_caben();
    dato_en_una_linea(version);
    dato_en_una_linea(crate::texto::decimal(pid as nat));
    dato_en_una_linea("vasak"@);
}

/// Interprets a line of the agent over the request that is being put together.
pub fn interpretar(linea: &str, pedido: &mut Pedido, quien: &Identidad) -> (a: Accion)
    ensures
        (a@, final(pedido)@) == efecto(linea@, old(pedido)@, quien.version@, quien.pid),
        de_a_una_linea(a@),
{
    proof {
        ninguna_respuesta_lleva_un_salto(linea@, pedido@, quien.version@, quien.pid);
    }
    let (orden, resto) = partir(linea);
    let o: &str = orden.as_str();
    if igual(o, "SETDESC") {
        pedido.descripcion = decodificar(resto.as_str());
        ok()
    } else if igual(o, "SETPROMPT") {
        pedido.etiqueta = decodificar(resto.as_str());
        ok()
    } else if igual(o, "SETTITLE") {
        pedido.titulo = decodificar(resto.as_str());
        ok()
    } else if igual(o, "SETERROR") {
        pedido.error = decodificar(resto.as_str());
        ok()
    } else if igual(o, "SETKEYINFO") {
        pedido.clave = decodificar(resto.as_str());
        ok()
    } else if igual(o, "GETPIN") {
        Accion::PedirFrase
    } else if igual(o, "CONFIRM") {
        Accion::Confirmar { una_sola_opcion: con_palabra(resto.as_str(), "--one-button") }
    } else if igual(o, "MESSAGE") {
        Accion::Mostrar
    } else if igual(o, "GETINFO") {
        Accion::Responder(contar(resto.as_str(), quien))
    } else if igual(o, "RESET") {
        pedido.limpiar();
        ok()
    } else if igual(o, "BYE") {
        Accion::Terminar
    } else if igual(o, "") || se_ignora(o) {
        ok()
    } else {
        Accion::Responder(una(ORDEN_DESCONOCIDA))
    }
}

/// The answer to `GETINFO`. What is not known is answered as not known, and not
/// with something made up.
fn contar(que: &str, quien: &Identidad) -> (v: Vec<String>)
    ensures
        lineas(v@) == informe(que@, quien.version@, quien.pid),
{
    if igual(que, "version") {
        dato(quien.version.as_str())
    } else if igual(que, "pid") {
        dato(en_decimal(quien.pid as u64).as_str())
    } else if igual(que, "flavor") {
        dato("vasak")
    } else {
        una(PARAMETRO_DESCONOCIDO)
    }
}

/// Whether an order is accepted and does nothing.
fn se_ignora(o: &str) -> (r: bool)
    ensures
        r == orden_ignorada(o@),
{
    igual(o, "OPTION") || igual(o, "NOP") || igual(o, "HELP") || igual(o, "SETOK") || igual(o, "SETNOTOK")
        || igual(o, "SETCANCEL") || igual(o, "SETQUALITYBAR") || igual(o, "SETQUALITYBAR_TT")
        || igual(o, "SETTIMEOUT") || igual(o, "SETREPEAT") || igual(o, "SETREPEATERROR")
        || igual(o, "SETGENPIN") || igual(o, "SETGENPIN_TT") || igual(o, "CLEARPASSPHRASE")
}

/// The greeting that goes before any line of the agent.
pub fn saludo(pid: u32) -> (r: String)
    ensures
        r@ == "OK Pleased to meet you, process "@ + crate::texto::decimal(pid as nat),
        una_linea(r@),
{
    proof {
        los_literales_caben();
        crate::texto::decimal_son_digitos(pid as nat);
    }
    unir("OK Pleased to meet you, process ", en_decimal(pid as u64).as_str())
}

/// Lines that hold a secret, as sequences of characters.
pub open spec fn lineas_secretas(v: Seq<Secreto>) -> Seq<Seq<char>> {
    v.map_values(|s: Secreto| s@)
}

/// What answers `GETPIN`. A passphrase goes encoded, an empty one too; nothing
/// typed is a cancellation. The lines hold the passphrase, so they wipe
/// themselves.
pub fn respuesta_a_getpin(frase: Option<&str>) -> (v: Vec<Secreto>)
    ensures
        lineas_secretas(v@) == match frase {
            Some(f) => seq!["D "@ + codificado(f@), "OK"@],
            None => seq![CANCELADO@],
        },
        forall|i: int| 0 <= i < v@.len() ==> una_linea((#[trigger] v@[i])@),
{
    proof {
        los_literales_caben();
    }
    let mut v: Vec<Secreto> = Vec::new();
    match frase {
        Some(f) => {
            proof {
                dato_en_una_linea(f@);
            }
            let codificada: Secreto = Secreto::new(codificar(f));
            v.push(Secreto::new(unir("D ", codificada.as_str())));
            v.push(Secreto::new("OK".to_owned()));
            assert(lineas_secretas(v@) =~= seq!["D "@ + codificado(f@), "OK"@]);
        },
        None => {
            v.push(Secreto::new(CANCELADO.to_owned()));
            assert(lineas_secretas(v@) =~= seq![CANCELADO@]);
        },
    }
    v
}

/// What answers `CONFIRM`.
pub fn respuesta_a_confirm(acepto: bool) -> (v: Vec<String>)
    ensures
        lineas(v@) == if acepto {
            seq!["OK"@]
        } else {
            seq![NO_CONFIRMADO@]
        },
        forall|i: int| 0 <= i < v@.len() ==> una_linea((#[trigger] v@[i])@),
{
    proof {
        los_literales_caben();
    }
    let v: Vec<String> = if acepto {
        una("OK")
    } else {
        una(NO_CONFIRMADO)
    };
    assert(lineas(v@).len() == v@.len());
    assert(v@[0]@ == lineas(v@)[0]);
    v
}

// ── Asking and answering ───────────────────────────────────

/// What a dialog is opened for, and therefore how its outcome is answered.
#[derive(Debug, PartialEq, Eq, Clone, Copy)]
pub enum Pregunta {
    /// A passphrase.
    Frase,
    /// Yes or no.
    Confirmacion,
    /// A notice whose acceptance is answered as a confirmation.
    AvisoConfirmado,
    /// A notice, answered whatever happens to it.
    Aviso,
}

impl Pregunta {
    /// The mode in which the dialog is opened.
    pub open spec fn modo_de(self) -> Seq<char> {
        match self {
            Pregunta::Frase => "frase"@,
            Pregunta::Confirmacion => "confirmar"@,
            Pregunta::AvisoConfirmado => "aviso"@,
            Pregunta::Aviso => "aviso"@,
        }
    }

    /// The mode in which the dialog is opened.
    pub fn modo(&self) -> (r: &'static str)
        ensures
            r@ == self.modo_de(),
    {
        match self {
            Pregunta::Frase => "frase",
            Pregunta::Confirmacion => "confirmar",
            Pregunta::AvisoConfirmado => "aviso",
            Pregunta::Aviso => "aviso",
        }
    }
}

/// The next step of the conversation.
pub enum Paso {
    /// Say these lines and go on listening.
    Decir(Vec<String>),
    /// Open a dialog, and answer with [`contestar`].
    Preguntar(Pregunta),
    /// Say this line and stop.
    Despedirse(String),
}

/// The step that an action asks for.
pub fn siguiente(accion: Accion) -> (p: Paso)
    ensures
        match accion@ {
            AccionVista::Responder(v) => p matches Paso::Decir(l) && lineas(l@) == v,
            AccionVista::PedirFrase => p == Paso::Preguntar(Pregunta::Frase),
            AccionVista::Confirmar { una_sola_opcion } => p == Paso::Preguntar(
                if una_sola_opcion {
                    Pregunta::AvisoConfirmado
                } else {
                    Pregunta::Confirmacion
                },
            ),
            AccionVista::Mostrar => p == Paso::Preguntar(Pregunta::Aviso),
            AccionVista::Terminar => p matches Paso::Despedirse(l) && l@ == "OK closing connection"@,
        },
{
    match accion {
        Accion::Responder(v) => Paso::Decir(v),
        Accion::PedirFrase => Paso::Preguntar(Pregunta::Frase),
        Accion::Confirmar { una_sola_opcion } => if una_sola_opcion {
            Paso::Preguntar(Pregunta::AvisoConfirmado)
        } else {
            Paso::Preguntar(Pregunta::Confirmacion)
        },
        Accion::Mostrar => Paso::Preguntar(Pregunta::Aviso),
        Accion::Terminar => Paso::Despedirse("OK closing connection".to_owned()),
    }
}

/// What is answered to the agent once a dialog is over: `None` where nobody
/// answered it.
pub open spec fn contestacion(pregunta: Pregunta, respuesta: Option<Seq<char>>) -> Seq<Seq<char>> {
    match pregunta {
        Pregunta::Frase => match respuesta {
            Some(f) => seq!["D "@ + codificado(f), "OK"@],
            None => seq![CANCELADO@],
        },
        Pregunta::Aviso => seq!["OK"@],
        _ => if respuesta is Some {
            seq!["OK"@]
        } else {
            seq![NO_CONFIRMADO@]
        },
    }
}

/// The lines that answer the agent once a dialog is over.
pub fn contestar(pregunta: Pregunta, respuesta: Option<&str>) -> (v: Vec<Secreto>)
    ensures
        lineas_secretas(v@) == contestacion(
            pregunta,
            match respuesta {
                Some(f) => Some(f@),
                None => None,
            },
        ),
        forall|i: int| 0 <= i < v@.len() ==> una_linea((#[trigger] v@[i])@),
{
    proof {
        los_literales_caben();
    }
    match pregunta {
        Pregunta::Frase => respuesta_a_getpin(respuesta),
        Pregunta::Aviso => {
            let l: Vec<String> = una("OK");
            assert(lineas(l@).len() == l@.len());
            assert(l@[0]@ == lineas(l@)[0]);
            secretas(l)
        },
        _ => secretas(respuesta_a_confirm(respuesta.is_some())),
    }
}

/// The same lines, as text that wipes itself.
fn secretas(l: Vec<String>) -> (v: Vec<Secreto>)
    ensures
        lineas_secretas(v@) == lineas(l@),
        v@.len() == l@.len(),
        forall|i: int| 0 <= i < v@.len() ==> (#[trigger] v@[i])@ == l@[i]@,
{
    let mut v: Vec<Secreto> = Vec::new();
    let mut i: usize = 0;
    while i < l.len()
        invariant
            i <= l@.len(),
            v@.len() == i,
            forall|j: int| 0 <= j < i ==> (#[trigger] v@[j])@ == l@[j]@,
        decreases l.len() - i,
    {
        v.push(Secreto::new(l[i].clone()));
        i += 1;
    }
    assert(lineas_secretas(v@) =~= lineas(l@));
    v
}

/// What the dialog's process answered: the line it wrote, without its line
/// break, where it ended well and there was a line to read; nothing otherwise.
/// An empty line is an answer, and not the same as none.
pub fn respuesta_del_dialogo(termino_bien: bool, linea: Option<&str>) -> (r: Option<Secreto>)
    ensures
        match r {
            Some(s) => termino_bien && linea is Some && s@ == sin_fin_de_linea(linea->0@),
            None => !termino_bien || linea is None,
        },
{
    match linea {
        Some(l) => if termino_bien {
            let v: Vec<char> = letras(l);
            let n: usize = fin_de_linea(&v);
            assert(v@.subrange(0, n as int) =~= v@.take(n as int));
            Some(Secreto::new(texto_de(&v, 0, n)))
        } else {
            None
        },
        None => None,
    }
}

/// The mode in which a dialog opens: the one asked for, or a passphrase where
/// none was.
pub fn modo_del_dialogo(pedido: &str) -> (r: String)
    ensures
        r@ == if pedido@.len() == 0 {
            "frase"@
        } else {
            pedido@
        },
{
    if pedido.is_empty() {
        "frase".to_owned()
    } else {
        pedido.to_owned()
    }
}

// ── What each order is for ─────────────────────────────────

/// Only the orders that tell something of the request change it: after a line with
/// any other order, what the agent had told is what the request still holds. So
/// the dialog is opened with what was told before it was asked for.
pub proof fn solo_decir_algo_cambia_el_pedido(
    linea: Seq<char>,
    p: PedidoVista,
    version: Seq<char>,
    pid: u32,
)
    ensures
        ({
            let o = orden_de(linea);
            let q = efecto(linea, p, version, pid).1;
            &&& o != "SETDESC"@ && o != "RESET"@ ==> q.descripcion == p.descripcion
            &&& o != "SETPROMPT"@ && o != "RESET"@ ==> q.etiqueta == p.etiqueta
            &&& o != "SETTITLE"@ && o != "RESET"@ ==> q.titulo == p.titulo
            &&& o != "SETERROR"@ && o != "RESET"@ ==> q.error == p.error
            &&& o != "SETKEYINFO"@ && o != "RESET"@ ==> q.clave == p.clave
        }),
        ({
            let (a, q) = efecto(linea, p, version, pid);
            a is PedirFrase || a is Confirmar || a is Mostrar || a is Terminar ==> q == p
        }),
{
    ordenes_distintas();
}

/// The orders are told apart by their length, and those of the same length by a
/// letter.
proof fn ordenes_distintas()
    ensures
        "SETDESC"@.len() == 7 && "SETDESC"@[0] == 'S',
        "SETPROMPT"@.len() == 9 && "SETPROMPT"@[3] == 'P',
        "SETTITLE"@.len() == 8 && "SETTITLE"@[3] == 'T',
        "SETERROR"@.len() == 8 && "SETERROR"@[3] == 'E',
        "SETKEYINFO"@.len() == 10 && "SETKEYINFO"@[3] == 'K',
        "GETPIN"@.len() == 6 && "GETPIN"@[0] == 'G',
        "CONFIRM"@.len() == 7 && "CONFIRM"@[0] == 'C',
        "MESSAGE"@.len() == 7 && "MESSAGE"@[0] == 'M',
        "GETINFO"@.len() == 7 && "GETINFO"@[0] == 'G',
        "RESET"@.len() == 5 && "RESET"@[0] == 'R',
        "BYE"@.len() == 3 && "BYE"@[0] == 'B',
        "OPTION"@.len() == 6 && "OPTION"@[0] == 'O',
        "NOP"@.len() == 3 && "NOP"@[0] == 'N',
        "HELP"@.len() == 4,
        "SETOK"@.len() == 5 && "SETOK"@[0] == 'S',
        "SETNOTOK"@.len() == 8 && "SETNOTOK"@[3] == 'N',
        "SETCANCEL"@.len() == 9 && "SETCANCEL"@[3] == 'C',
        "SETQUALITYBAR"@.len() == 13,
        "SETQUALITYBAR_TT"@.len() == 16,
        "SETTIMEOUT"@.len() == 10 && "SETTIMEOUT"@[3] == 'T',
        "SETREPEAT"@.len() == 9 && "SETREPEAT"@[3] == 'R',
        "SETREPEATERROR"@.len() == 14,
        "SETGENPIN"@.len() == 9 && "SETGENPIN"@[3] == 'G',
        "SETGENPIN_TT"@.len() == 12,
        "CLEARPASSPHRASE"@.len() == 15,
        ""@.len() == 0,
{
    reveal_strlit("SETDESC");
    reveal_strlit("SETPROMPT");
    reveal_strlit("SETTITLE");
    reveal_strlit("SETERROR");
    reveal_strlit("SETKEYINFO");
    reveal_strlit("GETPIN");
    reveal_strlit("CONFIRM");
    reveal_strlit("MESSAGE");
    reveal_strlit("GETINFO");
    reveal_strlit("RESET");
    reveal_strlit("BYE");
    reveal_strlit("OPTION");
    reveal_strlit("NOP");
    reveal_strlit("HELP");
    reveal_strlit("SETOK");
    reveal_strlit("SETNOTOK");
    reveal_strlit("SETCANCEL");
    reveal_strlit("SETQUALITYBAR");
    reveal_strlit("SETQUALITYBAR_TT");
    reveal_strlit("SETTIMEOUT");
    reveal_strlit("SETREPEAT");
    reveal_strlit("SETREPEATERROR");
    reveal_strlit("SETGENPIN");
    reveal_strlit("SETGENPIN_TT");
    reveal_strlit("CLEARPASSPHRASE");
    reveal_strlit("");
}

/// Each order that tells something fills its own field with the text that follows
/// it, decoded, and is answered that it was done; `RESET` forgets everything.
pub proof fn cada_orden_llena_su_campo(linea: Seq<char>, p: PedidoVista, version: Seq<char>, pid: u32)
    ensures
        ({
            let o = orden_de(linea);
            let t = decodificado(resto_de(linea));
            let (a, q) = efecto(linea, p, version, pid);
            &&& o == "SETDESC"@ ==> q.descripcion == t
            &&& o == "SETPROMPT"@ ==> q.etiqueta == t
            &&& o == "SETTITLE"@ ==> q.titulo == t
            &&& o == "SETERROR"@ ==> q.error == t
            &&& o == "SETKEYINFO"@ ==> q.clave == t
            &&& o == "RESET"@ ==> q.descripcion.len() == 0 && q.etiqueta.len() == 0 && q.titulo.len() == 0
                && q.error.len() == 0 && q.clave.len() == 0
            &&& o == "SETDESC"@ || o == "SETPROMPT"@ || o == "SETTITLE"@ || o == "SETERROR"@ || o == "SETKEYINFO"@
                || o == "RESET"@ ==> (a matches AccionVista::Responder(v) && v == seq!["OK"@])
        }),
{
    ordenes_distintas();
}

/// Each order that asks for something gets what it asks for: a passphrase, a
/// confirmation, a notice or the end. What nobody knows is answered as not known,
/// and never as done.
pub proof fn cada_orden_pide_lo_suyo(linea: Seq<char>, p: PedidoVista, version: Seq<char>, pid: u32)
    ensures
        ({
            let o = orden_de(linea);
            let a = efecto(linea, p, version, pid).0;
            &&& a is PedirFrase <==> o == "GETPIN"@
            &&& a is Confirmar <==> o == "CONFIRM"@
            &&& a is Mostrar <==> o == "MESSAGE"@
            &&& a is Terminar <==> o == "BYE"@
            &&& o == "CONFIRM"@ ==> a == (AccionVista::Confirmar {
                una_sola_opcion: tiene_palabra(resto_de(linea), "--one-button"@),
            })
            &&& o == "GETINFO"@ ==> a == AccionVista::Responder(informe(resto_de(linea), version, pid))
            &&& o == "OPTION"@ || o == "NOP"@ || o == "HELP"@ || o == "SETOK"@ || o == "SETNOTOK"@ || o == "SETCANCEL"@
                || o == "SETQUALITYBAR"@ || o == "SETQUALITYBAR_TT"@ || o == "SETTIMEOUT"@ || o == "SETREPEAT"@ || o
                == "SETREPEATERROR"@ || o == "SETGENPIN"@ || o == "SETGENPIN_TT"@ || o == "CLEARPASSPHRASE"@ || o
                == ""@ ==> (a matches AccionVista::Responder(v) && v == seq!["OK"@])
            &&& !(o == "SETDESC"@ || o == "SETPROMPT"@ || o == "SETTITLE"@ || o == "SETERROR"@ || o == "SETKEYINFO"@ || o
                == "GETPIN"@ || o == "CONFIRM"@ || o == "MESSAGE"@ || o == "GETINFO"@ || o == "RESET"@ || o == "BYE"@ || o
                == ""@ || o == "OPTION"@ || o == "NOP"@ || o == "HELP"@ || o == "SETOK"@ || o == "SETNOTOK"@ || o
                == "SETCANCEL"@ || o == "SETQUALITYBAR"@ || o == "SETQUALITYBAR_TT"@ || o == "SETTIMEOUT"@ || o
                == "SETREPEAT"@ || o == "SETREPEATERROR"@ || o == "SETGENPIN"@ || o == "SETGENPIN_TT"@ || o
                == "CLEARPASSPHRASE"@) ==> (a matches AccionVista::Responder(v) && v == seq![
                "ERR 536871187 Unknown IPC command <User defined source 1>"@,
            ])
        }),
{
    ordenes_distintas();
}

// ── How a line is read ─────────────────────────────────────

/// The order of a line ends at its first space, whatever its case; what follows is
/// the rest, without the white space around it.
pub proof fn la_orden_llega_hasta_el_espacio(orden: Seq<char>, resto: Seq<char>)
    requires
        forall|i: int| 0 <= i < orden.len() ==> orden[i] != ' ' && orden[i] != '\n' && orden[i] != '\r',
        resto.len() > 0 ==> resto.last() != '\n' && resto.last() != '\r',
    ensures
        orden_de(orden + seq![' '] + resto) == crate::texto::mayusculas(orden),
        resto_de(orden + seq![' '] + resto) == crate::texto::recortado(resto),
        orden_de(orden) == crate::texto::mayusculas(orden),
        resto_de(orden) == Seq::<char>::empty(),
{
    let l = orden + seq![' '] + resto;
    let n = orden.len() as int;
    assert(l.last() != '\n' && l.last() != '\r') by {
        if resto.len() > 0 {
            assert(l.last() == resto.last());
        } else {
            assert(l.last() == ' ');
        }
    }
    assert(sin_fin_de_linea(l) == l);
    assert(l[n] == ' ');
    assert forall|j: int| 0 <= j < n implies l[j] != ' ' by {
        assert(l[j] == orden[j]);
    }
    crate::texto::primera_es(l, ' ', n);
    assert(l.take(n) =~= orden);
    assert(l.skip(n + 1) =~= resto);
    if n > 0 {
        assert(orden.last() == orden[n - 1]);
    }
    assert(sin_fin_de_linea(orden) == orden);
    crate::texto::primera_es(orden, ' ', n);
    assert(orden.take(n) =~= orden);
}

/// The line breaks at the end of a line are no part of it, and nothing else is
/// taken away.
pub proof fn el_fin_de_linea_no_cuenta(s: Seq<char>)
    ensures
        sin_fin_de_linea(s.push('\n')) == sin_fin_de_linea(s),
        sin_fin_de_linea(s.push('\r')) == sin_fin_de_linea(s),
        orden_de(s.push('\n')) == orden_de(s),
        resto_de(s.push('\n')) == resto_de(s),
        s.len() > 0 && s.last() != '\n' && s.last() != '\r' ==> sin_fin_de_linea(s) == s,
        sin_fin_de_linea(s).is_prefix_of(s),
        sin_fin_de_linea(s).len() > 0 ==> sin_fin_de_linea(s).last() != '\n' && sin_fin_de_linea(s).last() != '\r',
        forall|i: int| sin_fin_de_linea(s).len() <= i < s.len() ==> #[trigger] s[i] == '\n' || s[i] == '\r',
{
    assert(s.push('\n').drop_last() =~= s);
    assert(s.push('\r').drop_last() =~= s);
    un_prefijo(s);
}

proof fn un_prefijo(s: Seq<char>)
    ensures
        sin_fin_de_linea(s).is_prefix_of(s),
        sin_fin_de_linea(s).len() > 0 ==> sin_fin_de_linea(s).last() != '\n' && sin_fin_de_linea(s).last() != '\r',
        forall|i: int| sin_fin_de_linea(s).len() <= i < s.len() ==> #[trigger] s[i] == '\n' || s[i] == '\r',
    decreases s.len(),
{
    if s.len() > 0 && (s.last() == '\r' || s.last() == '\n') {
        un_prefijo(s.drop_last());
        let t = sin_fin_de_linea(s);
        assert(t =~= s.subrange(0, t.len() as int));
        assert forall|i: int| t.len() <= i < s.len() implies #[trigger] s[i] == '\n' || s[i] == '\r' by {
            if i < s.len() - 1 {
                assert(s.drop_last()[i] == s[i]);
            }
        }
    } else {
        assert(s =~= s.subrange(0, s.len() as int));
    }
}

/// What the agent says of a key is what the dialog shows: a text that travels
/// encoded after `SETDESC` is the description, the same characters, and the rest of
/// the request stays.
pub proof fn lo_que_dice_el_agente_se_muestra(t: Seq<char>, p: PedidoVista, version: Seq<char>, pid: u32)
    requires
        codificado(t).len() > 0 ==> !crate::texto::es_blanco(codificado(t)[0]) && !crate::texto::es_blanco(
            codificado(t).last(),
        ),
    ensures
        efecto("SETDESC"@ + seq![' '] + codificado(t), p, version, pid).1 == (PedidoVista { descripcion: t, ..p }),
        efecto("SETERROR"@ + seq![' '] + codificado(t), p, version, pid).1 == (PedidoVista { error: t, ..p }),
        efecto("SETPROMPT"@ + seq![' '] + codificado(t), p, version, pid).1 == (PedidoVista { etiqueta: t, ..p }),
        efecto("SETTITLE"@ + seq![' '] + codificado(t), p, version, pid).1 == (PedidoVista { titulo: t, ..p }),
        efecto("SETKEYINFO"@ + seq![' '] + codificado(t), p, version, pid).1 == (PedidoVista { clave: t, ..p }),
{
    let x = codificado(t);
    ida_y_vuelta(t);
    codificado_cabe_en_una_linea(t);
    crate::texto::lo_recortado_queda(x);
    if x.len() > 0 {
        assert(x.last() == x[x.len() - 1]);
    }
    ordenes_distintas();
    reveal_strlit("SETDESC");
    reveal_strlit("SETPROMPT");
    reveal_strlit("SETTITLE");
    reveal_strlit("SETERROR");
    reveal_strlit("SETKEYINFO");
    la_orden_llega_hasta_el_espacio("SETDESC"@, x);
    la_orden_llega_hasta_el_espacio("SETERROR"@, x);
    la_orden_llega_hasta_el_espacio("SETPROMPT"@, x);
    la_orden_llega_hasta_el_espacio("SETTITLE"@, x);
    la_orden_llega_hasta_el_espacio("SETKEYINFO"@, x);
    assert(crate::texto::mayusculas("SETDESC"@) =~= "SETDESC"@);
    assert(crate::texto::mayusculas("SETERROR"@) =~= "SETERROR"@);
    assert(crate::texto::mayusculas("SETPROMPT"@) =~= "SETPROMPT"@);
    assert(crate::texto::mayusculas("SETTITLE"@) =~= "SETTITLE"@);
    assert(crate::texto::mayusculas("SETKEYINFO"@) =~= "SETKEYINFO"@);
}

/// A word is found where it stands among others, and only as a whole word.
pub proof fn una_palabra_se_halla_entera(antes: Seq<char>, w: Seq<char>, despues: Seq<char>, s: Seq<char>)
    ensures
        (antes.len() == 0 || crate::texto::es_blanco(antes.last())) && (despues.len() == 0 || crate::texto::es_blanco(
            despues[0],
        )) ==> tiene_palabra(antes + w + despues, w),
        tiene_palabra(s, w) ==> exists|a: Seq<char>, b: Seq<char>|
            s == #[trigger] (a + w + b) && (a.len() == 0 || crate::texto::es_blanco(a.last())) && (b.len() == 0
                || crate::texto::es_blanco(b[0])),
{
    let t = antes + w + despues;
    let n = antes.len() as int;
    if (antes.len() == 0 || crate::texto::es_blanco(antes.last())) && (despues.len() == 0 || crate::texto::es_blanco(
        despues[0],
    )) {
        assert(t.subrange(n, n + w.len()) =~= w);
        if n > 0 {
            assert(t[n - 1] == antes.last());
        }
        if despues.len() > 0 {
            assert(t[n + w.len()] == despues[0]);
        }
        assert(palabra_en(t, w, n));
    }
    if tiene_palabra(s, w) {
        let i = choose|i: int| #[trigger] palabra_en(s, w, i);
        let a = s.take(i);
        let b = s.skip(i + w.len());
        assert(s =~= a + s.subrange(i, i + w.len()) + b);
        assert(s == a + w + b);
        if i > 0 {
            assert(a.last() == s[i - 1]);
        }
        if b.len() > 0 {
            assert(b[0] == s[i + w.len()]);
        }
    }
}

// ── What travels, and what it stands for ───────────────────

/// Encoding changes the percent sign and the line breaks, and nothing else.
pub proof fn codificar_cambia_solo_lo_que_molesta(s: Seq<char>)
    requires
        forall|i: int| 0 <= i < s.len() ==> s[i] != '%' && s[i] != '\n' && s[i] != '\r',
    ensures
        codificado(s) == s,
    decreases s.len(),
{
    if s.len() > 0 {
        assert forall|i: int| 0 <= i < s.drop_first().len() implies s.drop_first()[i] != '%' && s.drop_first()[i]
            != '\n' && s.drop_first()[i] != '\r' by {
            assert(s.drop_first()[i] == s[i + 1]);
        }
        codificar_cambia_solo_lo_que_molesta(s.drop_first());
        assert(codificado(s) =~= s);
    } else {
        assert(codificado(s) =~= s);
    }
}

/// A text without percent signs stands for itself.
pub proof fn sin_porcentajes_no_hay_nada_que_decodificar(s: Seq<char>)
    requires
        forall|i: int| 0 <= i < s.len() ==> s[i] != '%',
    ensures
        decodificado(s) == s,
{
    let b = encode_utf8(s);
    los_bytes_no_llevan_porcentaje(s);
    sin_porcentaje_pasan(b, Seq::<u8>::empty());
    assert(b + Seq::<u8>::empty() =~= b);
    assert(sin_escapes(Seq::<u8>::empty()) =~= Seq::<u8>::empty());
    encode_utf8_valid_utf8(s);
    encode_utf8_decode_utf8(s);
}

proof fn los_bytes_no_llevan_porcentaje(s: Seq<char>)
    requires
        forall|i: int| 0 <= i < s.len() ==> s[i] != '%',
    ensures
        forall|i: int| 0 <= i < encode_utf8(s).len() ==> encode_utf8(s)[i] != 0x25,
    decreases s.len(),
{
    if s.len() > 0 {
        assert forall|i: int| 0 <= i < s.drop_first().len() implies s.drop_first()[i] != '%' by {
            assert(s.drop_first()[i] == s[i + 1]);
        }
        los_bytes_no_llevan_porcentaje(s.drop_first());
        let c = s[0];
        char_is_scalar(c);
        if c as u32 == 0x25 {
            char_u32_cast(c, 0x25);
            assert(c == '%');
        }
        solo_el_porcentaje_lo_lleva(c as u32);
        let a = encode_scalar(c as u32);
        let b = encode_utf8(s.drop_first());
        assert(encode_utf8(s) =~= a + b);
        assert forall|i: int| 0 <= i < encode_utf8(s).len() implies encode_utf8(s)[i] != 0x25 by {
            if i < a.len() {
                assert(encode_utf8(s)[i] == a[i]);
            } else {
                assert(encode_utf8(s)[i] == b[i - a.len()]);
            }
        }
    } else {
        assert(encode_utf8(s) =~= Seq::<u8>::empty());
    }
}

/// A percent sign and two hexadecimal digits, of either case, are the byte that
/// the digits write.
pub proof fn un_escape_es_un_byte(alto: u8, bajo: u8, x: u8, y: u8, resto: Seq<u8>)
    requires
        x < 16,
        y < 16,
        if x < 10 {
            alto == 0x30 + x
        } else {
            alto == 0x37 + x || alto == 0x57 + x
        },
        if y < 10 {
            bajo == 0x30 + y
        } else {
            bajo == 0x37 + y || bajo == 0x57 + y
        },
    ensures
        sin_escapes(seq![0x25u8, alto, bajo] + resto) == seq![(16 * x + y) as u8] + sin_escapes(resto),
{
    un_escape(alto, bajo, (16 * x + y) as u8, resto);
}

/// A percent sign that two hexadecimal digits do not follow is a percent sign.
pub proof fn un_porcentaje_suelto_queda(resto: Seq<u8>)
    requires
        resto.len() < 2 || !(0x30 <= resto[0] <= 0x39 || 0x41 <= resto[0] <= 0x46 || 0x61 <= resto[0] <= 0x66) || !(
        0x30 <= resto[1] <= 0x39 || 0x41 <= resto[1] <= 0x46 || 0x61 <= resto[1] <= 0x66),
    ensures
        sin_escapes(seq![0x25u8] + resto) == seq![0x25u8] + sin_escapes(resto),
{
    let s = seq![0x25u8] + resto;
    assert(s.skip(1) =~= resto);
    if resto.len() >= 2 {
        assert(s[1] == resto[0] && s[2] == resto[1]);
    }
}

/// A byte that is not a percent sign stands for itself, whatever follows.
pub proof fn un_byte_cualquiera_queda(b: u8, resto: Seq<u8>)
    requires
        b != 0x25,
    ensures
        sin_escapes(seq![b] + resto) == seq![b] + sin_escapes(resto),
{
    assert((seq![b] + resto).skip(1) =~= resto);
}

/// The passphrase that was typed is the one that the agent reads: one line of data
/// that decodes to it, an empty one too, and a line that closes the answer. Nothing
/// typed is a cancellation. A notice is answered whatever happens to it, and a
/// question as it was answered.
pub proof fn la_frase_llega_al_agente(f: Seq<char>, r: Option<Seq<char>>)
    ensures
        ({
            let v = contestacion(Pregunta::Frase, Some(f));
            &&& v.len() == 2
            &&& v[0].len() >= 2 && v[0].take(2) == "D "@ && decodificado(v[0].skip(2)) == f
            &&& v[1] == "OK"@
            &&& forall|i: int| 0 <= i < v[0].len() ==> #[trigger] v[0][i] != '\n' && v[0][i] != '\r'
        }),
        contestacion(Pregunta::Frase, None) == seq!["ERR 83886179 Operation cancelled <Pinentry>"@],
        contestacion(Pregunta::Aviso, r) == seq!["OK"@],
        contestacion(Pregunta::Confirmacion, r) == if r is Some {
            seq!["OK"@]
        } else {
            seq!["ERR 83886194 Not confirmed <Pinentry>"@]
        },
        contestacion(Pregunta::AvisoConfirmado, r) == contestacion(Pregunta::Confirmacion, r),
{
    reveal_strlit("D ");
    ida_y_vuelta(f);
    dato_en_una_linea(f);
    let l = "D "@ + codificado(f);
    assert(l.take(2) =~= "D "@);
    assert(l.skip(2) =~= codificado(f));
}

/// What the agent asks about the program is answered with data that decodes to the
/// answer, and what nobody knows with an error.
pub proof fn lo_que_se_informa_es_cierto(que: Seq<char>, version: Seq<char>, pid: u32)
    ensures
        que == "version"@ ==> informe(que, version, pid).len() == 2 && decodificado(
            informe(que, version, pid)[0].skip(2),
        ) == version,
        que == "pid"@ ==> informe(que, version, pid).len() == 2 && crate::texto::numero(
            decodificado(informe(que, version, pid)[0].skip(2)),
        ) == pid,
        que == "flavor"@ ==> informe(que, version, pid).len() == 2 && decodificado(
            informe(que, version, pid)[0].skip(2),
        ) == "vasak"@,
        que == "version"@ || que == "pid"@ || que == "flavor"@ ==> informe(que, version, pid)[0].take(2) == "D "@
            && informe(que, version, pid)[1] == "OK"@,
        que != "version"@ && que != "pid"@ && que != "flavor"@ ==> informe(que, version, pid) == seq![
            "ERR 83886360 IPC parameter error <Pinentry>"@,
        ],
{
    reveal_strlit("D ");
    reveal_strlit("version");
    reveal_strlit("pid");
    reveal_strlit("flavor");
    assert("version"@.len() == 7 && "pid"@.len() == 3 && "flavor"@.len() == 6);
    ida_y_vuelta("vasak"@);
    assert(("D "@ + codificado("vasak"@)).skip(2) =~= codificado("vasak"@));
    assert(("D "@ + codificado("vasak"@)).take(2) =~= "D "@);
    assert(("D "@ + codificado(version)).take(2) =~= "D "@);
    let n = crate::texto::decimal(pid as nat);
    ida_y_vuelta(version);
    ida_y_vuelta(n);
    crate::texto::decimal_escribe_el_numero(pid as nat);
    assert(("D "@ + codificado(version)).skip(2) =~= codificado(version));
    assert(("D "@ + codificado(n)).skip(2) =~= codificado(n));
    assert(("D "@ + codificado(n)).take(2) =~= "D "@);
}

/// Each dialog opens in the mode of what it is opened for.
pub proof fn cada_pregunta_abre_en_su_modo()
    ensures
        Pregunta::Frase.modo_de() == "frase"@,
        Pregunta::Confirmacion.modo_de() == "confirmar"@,
        Pregunta::AvisoConfirmado.modo_de() == "aviso"@,
        Pregunta::Aviso.modo_de() == "aviso"@,
{
}

/// The request after some lines, one after another.
pub open spec fn pedido_tras(lineas: Seq<Seq<char>>, p: PedidoVista, version: Seq<char>, pid: u32) -> PedidoVista
    decreases lineas.len(),
{
    if lineas.len() == 0 {
        p
    } else {
        efecto(lineas.last(), pedido_tras(lineas.drop_last(), p, version, pid), version, pid).1
    }
}

/// What was told is still told when the dialog is opened: whatever lines come
/// after, the description stays until another one, or `RESET`, comes; and so do
/// the label, the title, the error and the key.
pub proof fn lo_dicho_sigue_dicho(lineas: Seq<Seq<char>>, p: PedidoVista, version: Seq<char>, pid: u32)
    ensures
        (forall|i: int|
            0 <= i < lineas.len() ==> orden_de(#[trigger] lineas[i]) != "SETDESC"@ && orden_de(lineas[i]) != "RESET"@)
            ==> pedido_tras(lineas, p, version, pid).descripcion == p.descripcion,
        (forall|i: int|
            0 <= i < lineas.len() ==> orden_de(#[trigger] lineas[i]) != "SETPROMPT"@ && orden_de(lineas[i]) != "RESET"@)
            ==> pedido_tras(lineas, p, version, pid).etiqueta == p.etiqueta,
        (forall|i: int|
            0 <= i < lineas.len() ==> orden_de(#[trigger] lineas[i]) != "SETTITLE"@ && orden_de(lineas[i]) != "RESET"@)
            ==> pedido_tras(lineas, p, version, pid).titulo == p.titulo,
        (forall|i: int|
            0 <= i < lineas.len() ==> orden_de(#[trigger] lineas[i]) != "SETERROR"@ && orden_de(lineas[i]) != "RESET"@)
            ==> pedido_tras(lineas, p, version, pid).error == p.error,
        (forall|i: int|
            0 <= i < lineas.len() ==> orden_de(#[trigger] lineas[i]) != "SETKEYINFO"@ && orden_de(lineas[i]) != "RESET"@)
            ==> pedido_tras(lineas, p, version, pid).clave == p.clave,
    decreases lineas.len(),
{
    if lineas.len() > 0 {
        let previas = lineas.drop_last();
        lo_dicho_sigue_dicho(previas, p, version, pid);
        solo_decir_algo_cambia_el_pedido(
            lineas.last(),
            pedido_tras(previas, p, version, pid),
            version,
            pid,
        );
        assert(lineas.last() == lineas[lineas.len() - 1]);
        assert forall|i: int| 0 <= i < previas.len() implies #[trigger] previas[i] == lineas[i] by {}
    }
}

/// Contracts speak of lines one by one, each as it is.
pub proof fn las_lineas_se_ven_como_son(v: Seq<String>, s: Seq<Secreto>)
    ensures
        lineas(v).len() == v.len(),
        forall|i: int| 0 <= i < v.len() ==> #[trigger] lineas(v)[i] == v[i]@,
        lineas_secretas(s).len() == s.len(),
        forall|i: int| 0 <= i < s.len() ==> #[trigger] lineas_secretas(s)[i] == s[i]@,
{
}

} // verus!
