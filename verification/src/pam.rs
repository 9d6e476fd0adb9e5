//! The delivery of the password at login, from the side of the PAM module.
//!
//! What is here decides what is delivered, how long the daemon is waited for,
//! what its answer means and what is told to the journal. Talking to PAM and to
//! the socket is left to the module itself.
use vstd::prelude::*;
use vstd::string::*;

use crate::derivacion::derivar_maestra;
use crate::errores::ClaseDeError;
use crate::secreto::Secreto;
use crate::texto::{unir, unir3};
use crate::unlock_socket::ruta_del_socket;

verus! {

/// The module did what it had to.
pub const PAM_SUCCESS: i32 = 0;

/// The module has nothing to say about this login.
pub const PAM_IGNORE: i32 = 25;

/// The PAM item that holds the password.
pub const PAM_AUTHTOK: i32 = 6;

/// The priority of the journal entries.
pub const LOG_AUTH: i32 = 4;

/// How many times the daemon is tried while it starts.
pub const INTENTOS: u32 = 15;

/// The wait between two attempts, in milliseconds.
pub const ESPERA_ENTRE_INTENTOS_MS: u64 = 200;

/// The deadline for reading and writing, in seconds.
pub const PLAZO: u64 = 5;

/// Whether a failure to connect means that the daemon has not started yet, so
/// that it is worth trying again. Nothing else gets better by waiting.
pub fn todavia_arrancando(clase: ClaseDeError) -> (r: bool)
    ensures
        r == (clase is NotFound || clase is ConnectionRefused),
{
    match clase {
        ClaseDeError::NotFound => true,
        ClaseDeError::ConnectionRefused => true,
        _ => false,
    }
}

/// What a failed attempt leads to: the number of the next one, or nothing where
/// there is no next one.
pub open spec fn intento_tras(intento: u32, clase: ClaseDeError) -> Option<u32> {
    if (clase is NotFound || clase is ConnectionRefused) && intento + 1 < INTENTOS {
        Some((intento + 1) as u32)
    } else {
        None
    }
}

/// Decides whether to try again after a failed attempt, counting from zero.
pub fn siguiente_intento(intento: u32, clase: ClaseDeError) -> (r: Option<u32>)
    requires
        intento < INTENTOS,
    ensures
        r == intento_tras(intento, clase),
{
    if todavia_arrancando(clase) && intento + 1 < INTENTOS {
        Some(intento + 1)
    } else {
        None
    }
}

/// How many attempts are made where they fail one after another with the given
/// failures.
pub open spec fn intentos_hechos(desde: u32, fallos: Seq<ClaseDeError>) -> nat
    decreases fallos.len(),
{
    if fallos.len() == 0 {
        0
    } else {
        match intento_tras(desde, fallos[0]) {
            Some(n) => 1 + intentos_hechos(n, fallos.drop_first()),
            None => 1,
        }
    }
}

/// The login never waits for more than three seconds: whatever the failures,
/// there are fifteen attempts at most, and so fourteen waits of a fifth of a
/// second.
pub proof fn la_espera_esta_acotada(fallos: Seq<ClaseDeError>)
    ensures
        intentos_hechos(0, fallos) <= INTENTOS,
        INTENTOS * ESPERA_ENTRE_INTENTOS_MS == 3000,
{
    cota_de_intentos(0, fallos);
}

proof fn cota_de_intentos(desde: u32, fallos: Seq<ClaseDeError>)
    requires
        desde < INTENTOS,
    ensures
        intentos_hechos(desde, fallos) <= INTENTOS - desde,
    decreases fallos.len(),
{
    if fallos.len() > 0 {
        if let Some(n) = intento_tras(desde, fallos[0]) {
            cota_de_intentos(n, fallos.drop_first());
        }
    }
}

/// How a delivery ended. Each of these is fixed in a different way, so they are
/// told apart.
pub enum Entrega {
    /// The keyring opened.
    Abierto,
    /// The daemon answered, and said no.
    Rechazada,
    /// Nobody was there in the whole window.
    SinDemonio(String),
    /// There was a connection, and the conversation failed.
    Cortada(String),
}

/// Whether the byte that the daemon answered says that the keyring opened.
pub open spec fn dice_que_abrio(byte: u8) -> bool {
    byte == 0x31
}

/// What the daemon's answer means: `1` is yes, anything else is no.
pub fn respuesta_del_demonio(byte: u8) -> (r: Entrega)
    ensures
        r is Abierto <==> dice_que_abrio(byte),
        r is Rechazada <==> !dice_que_abrio(byte),
{
    if byte == 0x31 {
        Entrega::Abierto
    } else {
        Entrega::Rechazada
    }
}

/// The two sides of the socket agree on what its byte means: it is read as an
/// unlock exactly where there was one.
pub proof fn el_byte_dice_lo_mismo_de_los_dos_lados(abierto: bool)
    ensures
        dice_que_abrio(crate::unlock_socket::byte_de(abierto)) == abierto,
{
}

/// The journal entry for a delivery.
pub open spec fn mensaje_de(e: Entrega, uid: u32) -> Seq<char> {
    match e {
        Entrega::Abierto => "pam_vasak_keyring: llavero desbloqueado"@,
        Entrega::Rechazada =>
            "pam_vasak_keyring: el demonio rechazó la contraseña; no es la que cifra la base del llavero"@,
        Entrega::SinDemonio(e) => "pam_vasak_keyring: no se pudo conectar a "@ + crate::unlock_socket::ruta_de(uid) + " en 3 s ("@
            + e@ + "); el llavero queda cerrado y va a pedir la contraseña a mano"@,
        Entrega::Cortada(e) =>
            "pam_vasak_keyring: se conectó al demonio pero la entrega falló ("@ + e@ + ")"@,
    }
}

impl Entrega {
    /// What to tell the journal.
    pub fn mensaje(&self, uid: u32) -> (r: String)
        ensures
            r@ == mensaje_de(*self, uid),
    {
        match self {
            Entrega::Abierto => "pam_vasak_keyring: llavero desbloqueado".to_owned(),
            Entrega::Rechazada =>
                "pam_vasak_keyring: el demonio rechazó la contraseña; no es la que cifra la base del llavero".to_owned(),
            Entrega::SinDemonio(e) => {
                let ruta: String = ruta_del_socket(uid);
                let s: String = unir3(
                    "pam_vasak_keyring: no se pudo conectar a ",
                    ruta.as_str(),
                    " en 3 s (",
                );
                unir3(
                    s.as_str(),
                    e.as_str(),
                    "); el llavero queda cerrado y va a pedir la contraseña a mano",
                )
            },
            Entrega::Cortada(e) => unir3(
                "pam_vasak_keyring: se conectó al demonio pero la entrega falló (",
                e.as_str(),
                ")",
            ),
        }
    }
}

/// What an entry point answers PAM: a code, and what to tell the journal.
pub struct Salida {
    pub codigo: i32,
    pub mensaje: Option<String>,
}

/// What the authentication phase does with the password that PAM gave: it goes
/// on only where there is one.
pub fn tras_pedir_la_contrasena(codigo: i32, hay: bool) -> (r: Option<Salida>)
    ensures
        match r {
            None => codigo == PAM_SUCCESS && hay,
            Some(s) => (codigo != PAM_SUCCESS || !hay) && s.codigo == PAM_IGNORE && (s.mensaje matches Some(m)
                && m@ == "pam_vasak_keyring: pam_get_authtok failed"@),
        },
{
    if codigo != PAM_SUCCESS || !hay {
        Some(
            Salida {
                codigo: PAM_IGNORE,
                mensaje: Some("pam_vasak_keyring: pam_get_authtok failed".to_owned()),
            },
        )
    } else {
        None
    }
}

/// What the authentication phase answers once it tried to keep the password.
pub fn tras_guardarla(codigo: i32) -> (s: Salida)
    ensures
        codigo == PAM_SUCCESS ==> s.codigo == PAM_SUCCESS && s.mensaje is None,
        codigo != PAM_SUCCESS ==> s.codigo == PAM_IGNORE && (s.mensaje matches Some(m) && m@
            == "pam_vasak_keyring: pam_set_data failed"@),
{
    if codigo != PAM_SUCCESS {
        Salida {
            codigo: PAM_IGNORE,
            mensaje: Some("pam_vasak_keyring: pam_set_data failed".to_owned()),
        }
    } else {
        Salida { codigo: PAM_SUCCESS, mensaje: None }
    }
}

/// What the opening of a session comes to.
pub enum Apertura {
    /// Nothing is delivered.
    Nada(Salida),
    /// This goes through the socket of this user.
    Entregar { uid: u32, maestra: Secreto },
}

/// What the opening of a session does with the password kept at authentication
/// and the user it is for. What is delivered is the master derived from the
/// password, the same that the dialog derives, and never the password itself;
/// an empty password is not delivered.
pub fn al_abrir_la_sesion(guardada: Option<&str>, uid: Option<u32>, machine_id: Option<&str>) -> (a: Apertura)
    ensures
        match (guardada, uid) {
            (None, _) => a matches Apertura::Nada(s) && s.codigo == PAM_IGNORE && (s.mensaje matches Some(m)
                && m@ == "pam_vasak_keyring: no stored password (already consumed or never set)"@),
            (Some(_), None) => a matches Apertura::Nada(s) && s.codigo == PAM_IGNORE && (
            s.mensaje matches Some(m) && m@
                == "pam_vasak_keyring: could not resolve the user of this login"@),
            (Some(p), Some(u)) => if p@.len() == 0 {
                a matches Apertura::Nada(s) && s.codigo == PAM_SUCCESS && (s.mensaje matches Some(m) && m@
                    == "pam_vasak_keyring: la contraseña guardada está vacía; no se entrega"@)
            } else {
                match crate::derivacion::maestra_de(p@, crate::derivacion::sal_de_maquina(machine_id)) {
                    Ok(m) => a matches Apertura::Entregar { uid: v, maestra } && v == u && maestra@ == m
                        && maestra@.len() == 64,
                    Err(e) => a matches Apertura::Nada(s) && s.codigo == PAM_SUCCESS && (
                    s.mensaje matches Some(m) && m@ == "pam_vasak_keyring: "@ + e),
                }
            },
        },
{
    let password: &str = match guardada {
        Some(p) => p,
        None => {
            return Apertura::Nada(
                Salida {
                    codigo: PAM_IGNORE,
                    mensaje: Some(
                        "pam_vasak_keyring: no stored password (already consumed or never set)".to_owned(),
                    ),
                },
            );
        },
    };
    let uid: u32 = match uid {
        Some(u) => u,
        None => {
            return Apertura::Nada(
                Salida {
                    codigo: PAM_IGNORE,
                    mensaje: Some("pam_vasak_keyring: could not resolve the user of this login".to_owned()),
                },
            );
        },
    };
    if password.is_empty() {
        return Apertura::Nada(
            Salida {
                codigo: PAM_SUCCESS,
                mensaje: Some(
                    "pam_vasak_keyring: la contraseña guardada está vacía; no se entrega".to_owned(),
                ),
            },
        );
    }
    match derivar_maestra(password, machine_id) {
        Ok(maestra) => Apertura::Entregar { uid, maestra },
        Err(e) => Apertura::Nada(
            Salida { codigo: PAM_SUCCESS, mensaje: Some(unir("pam_vasak_keyring: ", e.as_str())) },
        ),
    }
}

/// What the opening of a session answers PAM once it tried to deliver. However
/// the delivery ended, the login goes on: a keyring that stays closed keeps
/// nobody out of the system.
pub fn tras_entregar(e: &Entrega, uid: u32) -> (s: Salida)
    ensures
        s.codigo == PAM_SUCCESS,
        s.mensaje matches Some(m) && m@ == mensaje_de(*e, uid),
{
    Salida { codigo: PAM_SUCCESS, mensaje: Some(e.mensaje(uid)) }
}

/// A failed attempt is followed by the next one where the daemon may still be
/// starting and there are attempts left of the fifteen, and by none otherwise. The
/// keyring opened where the daemon answered `1`, and only there.
pub proof fn se_insiste_solo_si_sirve(intento: u32, clase: ClaseDeError, byte: u8)
    ensures
        intento_tras(intento, clase) is Some <==> (clase == ClaseDeError::NotFound || clase
            == ClaseDeError::ConnectionRefused) && intento + 1 < 15,
        intento_tras(intento, clase) matches Some(n) ==> n == intento + 1,
        dice_que_abrio(byte) <==> byte == 0x31,
{
}

} // verus!
