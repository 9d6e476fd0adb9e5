//! The socket through which the password arrives at login.
//!
//! What is here decides: who may deliver, what the bytes that arrived mean, and
//! what is answered. Listening, reading and writing are left to whoever holds
//! the socket.
use vstd::prelude::*;
use vstd::string::*;
use vstd::utf8::*;

use crate::primitivas::borrar_bytes;
use crate::secreto::Secreto;
use crate::texto::{en_decimal, texto_utf8, tramo_de_bytes, unir, unir3};

verus! {

/// The most that is read of a connection, in bytes.
pub const MAXIMO_PETICION: u64 = 1024;

/// How long a client may take to finish writing, in seconds.
pub const PLAZO_LECTURA: u64 = 5;

/// The path of the socket of a user.
pub open spec fn ruta_de(uid: u32) -> Seq<char> {
    "/run/user/"@ + crate::texto::decimal(uid as nat) + "/vasak-keyring/unlock.sock"@
}

/// The path of the socket for a uid. It depends on nothing else, because the
/// side that delivers cannot read the user's environment.
pub fn ruta_del_socket(uid: u32) -> (r: String)
    ensures
        r@ == ruta_de(uid),
{
    unir3("/run/user/", en_decimal(uid as u64).as_str(), "/vasak-keyring/unlock.sock")
}

/// Different users have different sockets.
pub proof fn cada_uid_tiene_su_socket(a: u32, b: u32)
    requires
        ruta_de(a) == ruta_de(b),
    ensures
        a == b,
{
    let x = "/run/user/"@;
    let y = "/vasak-keyring/unlock.sock"@;
    let da = crate::texto::decimal(a as nat);
    let db = crate::texto::decimal(b as nat);
    assert(da.len() == ruta_de(a).len() - x.len() - y.len());
    assert(db.len() == ruta_de(b).len() - x.len() - y.len());
    assert(ruta_de(a).subrange(x.len() as int, (x.len() + da.len()) as int) =~= da);
    assert(ruta_de(b).subrange(x.len() as int, (x.len() + db.len()) as int) =~= db);
    crate::texto::decimal_es_inyectivo(a as nat, b as nat);
}

/// Who may deliver a password: root, who has just authenticated the person, and
/// the owner of the keyring. Nobody else.
pub fn par_autorizado(uid_del_par: u32, uid_propio: u32) -> (r: bool)
    ensures
        r == (uid_del_par == 0 || uid_del_par == uid_propio),
{
    uid_del_par == 0 || uid_del_par == uid_propio
}

/// What some bytes mean as a delivery: the password, or why there is none. One
/// line break at the end is not part of it.
pub open spec fn peticion(bytes: Seq<u8>) -> Result<Seq<char>, Seq<char>> {
    if bytes.len() == 0 {
        Err("no llegó ninguna contraseña"@)
    } else {
        let sin_salto = if bytes.last() == 0x0A {
            bytes.drop_last()
        } else {
            bytes
        };
        if sin_salto.len() == 0 {
            Err("la contraseña llegó vacía"@)
        } else if !valid_utf8(sin_salto) {
            Err("la contraseña no es UTF-8 válido"@)
        } else {
            Ok(decode_utf8(sin_salto))
        }
    }
}

/// Interprets what arrived through the socket.
pub fn interpretar_peticion(bytes: &[u8]) -> (r: Result<String, &'static str>)
    ensures
        match r {
            Ok(s) => peticion(bytes@) == Ok::<Seq<char>, Seq<char>>(s@),
            Err(e) => peticion(bytes@) == Err::<Seq<char>, Seq<char>>(e@),
        },
{
    if bytes.len() == 0 {
        return Err("no llegó ninguna contraseña");
    }
    let n: usize = if bytes[bytes.len() - 1] == 0x0A {
        bytes.len() - 1
    } else {
        bytes.len()
    };
    if n == 0 {
        return Err("la contraseña llegó vacía");
    }
    let mut sin_salto: Vec<u8> = tramo_de_bytes(bytes, 0, n);
    proof {
        if bytes@.last() == 0x0A {
            assert(sin_salto@ =~= bytes@.drop_last());
        } else {
            assert(sin_salto@ =~= bytes@);
        }
    }
    let r: Option<String> = texto_utf8(sin_salto.as_slice());
    borrar_bytes(&mut sin_salto);
    match r {
        Some(s) => Ok(s),
        None => Err("la contraseña no es UTF-8 válido"),
    }
}

/// A password that survives as UTF-8 arrives as it was typed, with one line
/// break after it or with none.
pub proof fn la_contrasena_llega_entera(password: Seq<char>)
    requires
        password.len() > 0,
    ensures
        peticion(encode_utf8(password).push(0x0A)) == Ok::<Seq<char>, Seq<char>>(password),
        encode_utf8(password).last() != 0x0A ==> peticion(encode_utf8(password)) == Ok::<
            Seq<char>,
            Seq<char>,
        >(password),
{
    let b = encode_utf8(password);
    encode_utf8_valid_utf8(password);
    encode_utf8_decode_utf8(password);
    if b.len() == 0 {
        assert(b =~= encode_utf8(Seq::<char>::empty()));
        encode_utf8_decode_utf8(Seq::<char>::empty());
        assert(password =~= Seq::<char>::empty());
    }
    assert(b.push(0x0A).drop_last() =~= b);
}

/// Whether a connection is attended: only where its peer was identified and may
/// deliver. One that is not attended gets no answer.
pub fn se_atiende(uid_del_par: Option<u32>, uid_propio: u32) -> (r: bool)
    ensures
        r == (uid_del_par matches Some(uid) && (uid == 0 || uid == uid_propio)),
{
    match uid_del_par {
        Some(uid) => par_autorizado(uid, uid_propio),
        None => false,
    }
}

/// How the reading of a connection ended.
pub enum Lectura {
    /// The client closed its side, or reached the limit.
    Completa(Vec<u8>),
    /// The reading failed.
    Fallida(String),
    /// The time ran out.
    Vencida,
}

/// What a reading delivers: the password, or what to tell the journal.
pub open spec fn entrega_de(l: Lectura) -> Result<Seq<char>, Seq<char>> {
    match l {
        Lectura::Completa(b) => match peticion(b@) {
            Ok(p) => Ok(p),
            Err(motivo) => Err("vasak-keyring: entrega descartada: "@ + motivo),
        },
        Lectura::Fallida(e) => Err("vasak-keyring: error leyendo del socket de desbloqueo: "@ + e@),
        Lectura::Vencida => Err("vasak-keyring: el cliente del socket no mandó nada en el plazo"@),
    }
}

/// Takes the password out of a reading, and wipes what was read.
pub fn recibir(lectura: Lectura) -> (r: Result<Secreto, String>)
    ensures
        match r {
            Ok(p) => entrega_de(lectura) == Ok::<Seq<char>, Seq<char>>(p@),
            Err(e) => entrega_de(lectura) == Err::<Seq<char>, Seq<char>>(e@),
        },
{
    match lectura {
        Lectura::Completa(b) => {
            let mut buffer: Vec<u8> = b;
            let r: Result<String, &'static str> = interpretar_peticion(buffer.as_slice());
            borrar_bytes(&mut buffer);
            match r {
                Ok(p) => Ok(Secreto::new(p)),
                Err(motivo) => Err(unir("vasak-keyring: entrega descartada: ", motivo)),
            }
        },
        Lectura::Fallida(e) => Err(
            unir("vasak-keyring: error leyendo del socket de desbloqueo: ", e.as_str()),
        ),
        Lectura::Vencida => Err("vasak-keyring: el cliente del socket no mandó nada en el plazo".to_owned()),
    }
}

/// What a delivery comes to: whether the keyring opened, and what to tell the
/// journal.
pub fn informar(abierto: &Result<bool, String>) -> (r: (bool, String))
    ensures
        r.0 == (*abierto == Ok::<bool, String>(true)),
        r.1@ == match *abierto {
            Ok(true) => "vasak-keyring: llavero desbloqueado al iniciar sesión"@,
            Ok(false) => "vasak-keyring: la contraseña recibida no abre la base existente"@,
            Err(e) => "vasak-keyring: falló el desbloqueo: "@ + e@,
        },
{
    match abierto {
        Ok(si) => if *si {
            (true, "vasak-keyring: llavero desbloqueado al iniciar sesión".to_owned())
        } else {
            (false, "vasak-keyring: la contraseña recibida no abre la base existente".to_owned())
        },
        Err(e) => (false, unir("vasak-keyring: falló el desbloqueo: ", e.as_str())),
    }
}

/// The byte that answers a delivery.
pub open spec fn byte_de(abierto: bool) -> u8 {
    if abierto {
        0x31
    } else {
        0x30
    }
}

/// The byte that answers a delivery: `1` where the keyring opened, `0` where it
/// did not. It is a byte and not a bare close, so that whoever delivered can
/// tell a refusal from nobody being there.
pub fn byte_de_respuesta(abierto: bool) -> (b: u8)
    ensures
        b == byte_de(abierto),
{
    if abierto {
        0x31
    } else {
        0x30
    }
}

/// What is done with a reading: the password to try, or, where nothing was
/// delivered, the byte to answer and what to tell the journal.
pub fn tras_leer(lectura: Lectura) -> (r: Result<Secreto, (u8, String)>)
    ensures
        match r {
            Ok(p) => entrega_de(lectura) == Ok::<Seq<char>, Seq<char>>(p@),
            Err((b, e)) => entrega_de(lectura) == Err::<Seq<char>, Seq<char>>(e@) && b == byte_de(false),
        },
{
    match recibir(lectura) {
        Ok(p) => Ok(p),
        Err(e) => Err((byte_de_respuesta(false), e)),
    }
}

/// What a delivery is answered once its password was tried, and what to tell the
/// journal.
pub fn tras_probar(abierto: &Result<bool, String>) -> (r: (u8, String))
    ensures
        r.0 == byte_de(*abierto == Ok::<bool, String>(true)),
        r.1@ == match *abierto {
            Ok(true) => "vasak-keyring: llavero desbloqueado al iniciar sesión"@,
            Ok(false) => "vasak-keyring: la contraseña recibida no abre la base existente"@,
            Err(e) => "vasak-keyring: falló el desbloqueo: "@ + e@,
        },
{
    let (abrio, aviso) = informar(abierto);
    (byte_de_respuesta(abrio), aviso)
}

/// What is read of a delivery is what arrived, but for one line break at its end:
/// nothing is cut, and nothing that arrived is taken for another thing. A delivery
/// is refused where it is empty, where it is a line break alone, and where it is
/// not text.
pub proof fn lo_leido_es_lo_que_llego(bytes: Seq<u8>)
    ensures
        peticion(bytes) matches Ok(p) ==> bytes == encode_utf8(p) || bytes == encode_utf8(p).push(0x0A),
        peticion(bytes) matches Ok(p) ==> p.len() > 0,
        bytes.len() > 0 && bytes.last() != 0x0A ==> (peticion(bytes) is Ok <==> valid_utf8(bytes)),
        bytes.len() > 1 && bytes.last() == 0x0A ==> (peticion(bytes) is Ok <==> valid_utf8(bytes.drop_last())),
        bytes.len() == 0 || bytes == seq![0x0Au8] ==> peticion(bytes) is Err,
{
    if bytes.len() > 0 {
        let b = if bytes.last() == 0x0A {
            bytes.drop_last()
        } else {
            bytes
        };
        if valid_utf8(b) && b.len() > 0 {
            decode_utf8_encode_utf8(b);
            if bytes.last() == 0x0A {
                assert(b.push(0x0A) =~= bytes);
            }
            if decode_utf8(b).len() == 0 {
                assert(decode_utf8(b) =~= Seq::<char>::empty());
                assert(encode_utf8(Seq::<char>::empty()) =~= Seq::<u8>::empty());
            }
        }
    }
}

/// Only a reading that ended delivers, and the answer is `1` where the keyring
/// opened and `0` where it did not.
pub proof fn solo_lo_leido_entero_se_prueba(l: Lectura)
    ensures
        entrega_de(l) is Ok <==> (l matches Lectura::Completa(b) && peticion(b@) is Ok),
        entrega_de(l) matches Ok(p) ==> (l matches Lectura::Completa(b) && peticion(b@) == Ok::<
            Seq<char>,
            Seq<char>,
        >(p)),
        byte_de(true) == 0x31,
        byte_de(false) == 0x30,
{
}

/// The socket of a user is under the runtime directory of that user.
pub proof fn el_socket_esta_bajo_el_usuario(uid: u32)
    ensures
        ruta_de(uid) == "/run/user/"@ + crate::texto::decimal(uid as nat) + "/vasak-keyring/unlock.sock"@,
        crate::texto::numero(
            ruta_de(uid).subrange(
                "/run/user/"@.len() as int,
                ruta_de(uid).len() - "/vasak-keyring/unlock.sock"@.len(),
            ),
        ) == uid,
{
    let d = crate::texto::decimal(uid as nat);
    crate::texto::decimal_escribe_el_numero(uid as nat);
    assert(ruta_de(uid).subrange(
        "/run/user/"@.len() as int,
        ruta_de(uid).len() - "/vasak-keyring/unlock.sock"@.len(),
    ) =~= d);
}

} // verus!
