//! What the daemon holds for the whole session: the master password, whether the
//! database may be written, and how many wrong passwords were tried.
use vstd::prelude::*;
use vstd::string::*;

use crate::crypto::encrypt_database;
use crate::secreto::{BytesSecretos, Secreto};
use crate::texto::{unir, unir3};

verus! {

/// Why nothing can be written while there is no master password.
pub const LOCKED_MESSAGE: &'static str =
    "el llavero está bloqueado: no hay contraseña maestra en memoria. Se establece al iniciar sesión mediante pam_vasak_keyring; si el demonio se reinició, hay que volver a iniciar sesión.";

/// Why nothing is written while the database on disk was not opened.
pub const UNDECRYPTED_MESSAGE: &'static str =
    "la base del llavero del disco existe y esta sesión no la pudo descifrar, así que no se escribió nada: lo que hay en memoria no es su contenido y guardarlo la dejaría vacía. Hay que volver a iniciar sesión, o responder en el diálogo de desbloqueo con la contraseña que la abre.";

/// Wrong passwords in a row before the daemon stops answering for a while.
pub const UNLOCK_MAX_ATTEMPTS: u32 = 3;

/// How long it stays shut after that, in nanoseconds.
pub const UNLOCK_COOLDOWN: u64 = 30_000_000_000;

/// A second, in nanoseconds.
pub const SEGUNDO: u64 = 1_000_000_000;

/// The state of the session.
pub struct Sesion {
    maestra: Option<Secreto>,
    entorno: Option<Secreto>,
    bloqueo: Option<String>,
    fallos: u32,
    cerrada_hasta: Option<u128>,
    siguiente_dialogo: u64,
}

/// What the state of the session is.
#[verifier::ext_equal]
pub struct SesionVista {
    /// The master password that was delivered.
    pub maestra: Option<Seq<char>>,
    /// The one that the environment gives, for when none was delivered.
    pub entorno: Option<Seq<char>>,
    /// Why the database may not be written, if it may not.
    pub bloqueo: Option<Seq<char>>,
    /// Wrong passwords in a row.
    pub fallos: nat,
    /// Until when no password is tried, in nanoseconds.
    pub cerrada_hasta: Option<nat>,
    /// The number of the next prompt.
    pub siguiente_dialogo: u64,
}

/// Nanoseconds in whole seconds, one at least.
pub open spec fn segundos_de(ns: int) -> nat {
    if ns / SEGUNDO as int >= 1 {
        (ns / SEGUNDO as int) as nat
    } else {
        1
    }
}

/// An optional secret, as contracts speak of it.
pub open spec fn vista_de_secreto(s: Option<Secreto>) -> Option<Seq<char>> {
    match s {
        Some(t) => Some(t@),
        None => None,
    }
}

/// An optional text, as contracts speak of it.
pub open spec fn vista_de_texto(s: Option<String>) -> Option<Seq<char>> {
    match s {
        Some(t) => Some(t@),
        None => None,
    }
}

impl SesionVista {
    /// The master password in force: the one delivered, or that of the
    /// environment.
    pub open spec fn vigente(self) -> Option<Seq<char>> {
        if self.maestra is Some {
            self.maestra
        } else {
            self.entorno
        }
    }

    /// Why nothing can be stored now, if it cannot. That the database was not
    /// opened comes first: a password in memory does not say that it opened it.
    pub open spec fn impedimento(self) -> Option<Seq<char>> {
        if self.bloqueo is Some {
            self.bloqueo
        } else if self.vigente() is None {
            Some(LOCKED_MESSAGE@)
        } else {
            None
        }
    }

    /// Whether a collection with the given flag serves no secrets now.
    pub open spec fn cerrada(self, locked: bool) -> bool {
        locked || self.vigente() is None
    }

    /// Seconds left of the wait after too many wrong passwords, where there is
    /// one.
    pub open spec fn faltan(self, ahora: u64) -> Option<nat> {
        match self.cerrada_hasta {
            Some(hasta) => if hasta <= ahora {
                None
            } else {
                Some(segundos_de(hasta - ahora))
            },
            None => None,
        }
    }

    /// The session after a password that did not open the database.
    pub open spec fn tras_fallo(self, ahora: u64) -> SesionVista {
        if self.fallos + 1 >= UNLOCK_MAX_ATTEMPTS {
            SesionVista {
                fallos: 0,
                cerrada_hasta: Some((ahora + UNLOCK_COOLDOWN) as nat),
                ..self
            }
        } else {
            SesionVista { fallos: self.fallos + 1, ..self }
        }
    }

    /// The session after a password that did.
    pub open spec fn tras_acierto(self) -> SesionVista {
        SesionVista { fallos: 0, cerrada_hasta: None, ..self }
    }
}

impl View for Sesion {
    type V = SesionVista;

    closed spec fn view(&self) -> SesionVista {
        SesionVista {
            maestra: vista_de_secreto(self.maestra),
            entorno: vista_de_secreto(self.entorno),
            bloqueo: vista_de_texto(self.bloqueo),
            fallos: self.fallos as nat,
            cerrada_hasta: match self.cerrada_hasta {
                Some(t) => Some(t as nat),
                None => None,
            },
            siguiente_dialogo: self.siguiente_dialogo,
        }
    }
}

impl Sesion {
    /// The third wrong password in a row closes the door and starts the count
    /// over, so there are never three; and it stays closed until some time after
    /// an instant of the clock.
    #[verifier::type_invariant]
    spec fn coherente(self) -> bool {
        &&& self.fallos < UNLOCK_MAX_ATTEMPTS
        &&& self.cerrada_hasta matches Some(hasta) ==> hasta <= u64::MAX + UNLOCK_COOLDOWN
    }

    /// A session to which no password was delivered yet, with the one that the
    /// environment gives, if it gives one.
    pub fn new(entorno: Option<String>) -> (s: Sesion)
        ensures
            s@ == (SesionVista {
                maestra: None,
                entorno: vista_de_texto(entorno),
                bloqueo: None,
                fallos: 0,
                cerrada_hasta: None,
                siguiente_dialogo: 0,
            }),
    {
        Sesion {
            maestra: None,
            entorno: match entorno {
                Some(t) => Some(Secreto::new(t)),
                None => None,
            },
            bloqueo: None,
            fallos: 0,
            cerrada_hasta: None,
            siguiente_dialogo: 0,
        }
    }

    /// Adopts a password as the master password of the session.
    pub fn set_master_password(&mut self, password: &str)
        ensures
            final(self)@ == (SesionVista { maestra: Some(password@), ..old(self)@ }),
    {
        proof {
            use_type_invariant(&*self);
        }
        self.maestra = Some(Secreto::new(password.to_owned()));
    }

    /// The master password in force.
    pub fn master_password(&self) -> (r: Option<Secreto>)
        ensures
            vista_de_secreto(r) == self@.vigente(),
    {
        match &self.maestra {
            Some(m) => Some(m.clone()),
            None => match &self.entorno {
                Some(e) => Some(e.clone()),
                None => None,
            },
        }
    }

    /// Whether there is a master password in force.
    pub fn hay_maestra(&self) -> (r: bool)
        ensures
            r == (self@.vigente() is Some),
    {
        self.maestra.is_some() || self.entorno.is_some()
    }

    /// Forbids writing the database until a password opens it.
    pub fn block_writes(&mut self)
        ensures
            final(self)@ == (SesionVista { bloqueo: Some(UNDECRYPTED_MESSAGE@), ..old(self)@ }),
    {
        proof {
            use_type_invariant(&*self);
        }
        self.bloqueo = Some(UNDECRYPTED_MESSAGE.to_owned());
    }

    /// Allows writing again, once what is in memory is what is on disk.
    pub fn unblock_writes(&mut self)
        ensures
            final(self)@ == (SesionVista { bloqueo: None, ..old(self)@ }),
    {
        proof {
            use_type_invariant(&*self);
        }
        self.bloqueo = None;
    }

    /// Why the database may not be written now, if it may not.
    pub fn writes_blocked(&self) -> (r: Option<String>)
        ensures
            vista_de_texto(r) == self@.bloqueo,
    {
        match &self.bloqueo {
            Some(m) => Some(m.clone()),
            None => None,
        }
    }

    /// Checked before a write changes anything, so that a refused one leaves
    /// nothing half done.
    pub fn ensure_unlocked(&self) -> (r: Result<(), String>)
        ensures
            match r {
                Ok(_) => self@.impedimento() is None,
                Err(e) => self@.impedimento() == Some(e@),
            },
    {
        match self.writes_blocked() {
            Some(motivo) => Err(motivo),
            None => if self.hay_maestra() {
                Ok(())
            } else {
                Err(LOCKED_MESSAGE.to_owned())
            },
        }
    }

    /// Whether a collection, or an item in it, serves no secrets right now.
    pub fn effectively_locked(&self, collection_locked: bool) -> (r: bool)
        ensures
            r == self@.cerrada(collection_locked),
    {
        collection_locked || !self.hay_maestra()
    }

    /// Seconds left of the wait, or `None` when there is none. A wait that is
    /// over is forgotten, and the count starts over.
    pub fn unlock_blocked_for(&mut self, ahora: u64) -> (r: Option<u64>)
        ensures
            match r {
                Some(s) => old(self)@.faltan(ahora) == Some(s as nat),
                None => old(self)@.faltan(ahora) is None,
            },
            final(self)@ == if old(self)@.cerrada_hasta is Some && old(self)@.faltan(ahora) is None {
                old(self)@.tras_acierto()
            } else {
                old(self)@
            },
    {
        proof {
            use_type_invariant(&*self);
        }
        let hasta: u128 = match self.cerrada_hasta {
            Some(t) => t,
            None => {
                return None;
            },
        };
        if hasta <= ahora as u128 {
            self.cerrada_hasta = None;
            self.fallos = 0;
            return None;
        }
        let segundos: u64 = ((hasta - ahora as u128) / SEGUNDO as u128) as u64;
        if segundos >= 1 {
            Some(segundos)
        } else {
            Some(1)
        }
    }

    /// Counts a wrong password.
    pub fn note_failed_unlock(&mut self, ahora: u64)
        ensures
            final(self)@ == old(self)@.tras_fallo(ahora),
    {
        proof {
            use_type_invariant(&*self);
        }
        if self.fallos + 1 >= UNLOCK_MAX_ATTEMPTS {
            self.fallos = 0;
            self.cerrada_hasta = Some(ahora as u128 + UNLOCK_COOLDOWN as u128);
        } else {
            self.fallos = self.fallos + 1;
        }
    }

    /// Forgets the wrong passwords, and the wait with them.
    pub fn note_successful_unlock(&mut self)
        ensures
            final(self)@ == old(self)@.tras_acierto(),
    {
        proof {
            use_type_invariant(&*self);
        }
        self.fallos = 0;
        self.cerrada_hasta = None;
    }

    /// The path of a new prompt, where there is a database to open; nothing
    /// where there is none, because whatever was typed would become the master
    /// password of a new keyring.
    pub fn siguiente_prompt(&mut self, hay_base: bool) -> (r: Option<String>)
        ensures
            match r {
                Some(p) => hay_base && p@ == "/org/freedesktop/secrets/prompt/u"@ + crate::texto::decimal(
                    old(self)@.siguiente_dialogo as nat,
                ) && final(self)@ == (SesionVista {
                    siguiente_dialogo: if old(self)@.siguiente_dialogo == u64::MAX {
                        0
                    } else {
                        (old(self)@.siguiente_dialogo + 1) as u64
                    },
                    ..old(self)@
                }),
                None => !hay_base && final(self)@ == old(self)@,
            },
    {
        if !hay_base {
            return None;
        }
        proof {
            use_type_invariant(&*self);
        }
        let id: u64 = self.siguiente_dialogo;
        self.siguiente_dialogo = if id == u64::MAX {
            0
        } else {
            id + 1
        };
        Some(
            unir(
                "/org/freedesktop/secrets/prompt/u",
                crate::texto::en_decimal(id).as_str(),
            ),
        )
    }

    /// What the client that waits on a prompt is told: whether it was dismissed,
    /// and what was unlocked. Only a dialog that was answered and a master
    /// password in memory make an unlock.
    pub fn resultado_del_prompt(&self, contesto: bool, objects: Vec<String>) -> (r: (bool, Vec<String>))
        ensures
            r.0 == !(contesto && self@.vigente() is Some),
            r.1@ == if contesto && self@.vigente() is Some {
                objects@
            } else {
                Seq::empty()
            },
    {
        if contesto && self.hay_maestra() {
            (false, objects)
        } else {
            (true, Vec::new())
        }
    }

    /// What goes to disk: the serialised database under the master password.
    ///
    /// Nothing comes out while the database on disk was not opened, whoever asks
    /// and whatever password is in memory.
    pub fn cifrar_base(&self, serializada: Result<Vec<u8>, String>) -> (r: Result<Vec<u8>, String>)
        requires
            serializada matches Ok(t) ==> t@.len() + 16 <= isize::MAX,
        ensures
            match self@.impedimento() {
                Some(motivo) => r matches Err(e) && e@ == motivo,
                None => match serializada {
                    Err(e) => r matches Err(f) && f@
                        == "no se pudo cifrar el llavero: Serialization failed: "@ + e@,
                    Ok(t) => {
                        let clave = self@.vigente()->0;
                        &&& r matches Ok(d) ==> crate::crypto::descifrada(d@, clave) == Ok::<
                            Seq<u8>,
                            Seq<char>,
                        >(t@)
                        &&& exists|sal: Seq<u8>, nonce: Seq<u8>|
                            sal.len() == crate::crypto::LARGO_SAL && nonce.len()
                                == crate::crypto::LARGO_NONCE && crate::crypto::vista(r) == (
                            match #[trigger] crate::crypto::cifrada(t@, clave, sal, nonce) {
                                Ok(d) => Ok(d),
                                Err(e) => Err("no se pudo cifrar el llavero: "@ + e),
                            })
                        &&& r is Ok <==> vstd::utf8::encode_utf8(clave).len() <= 0xFFFF_FFFF && t@.len()
                            <= 0x10_0000_0000
                    },
                },
            },
    {
        if let Some(motivo) = self.writes_blocked() {
            return Err(motivo);
        }
        let pwd: Secreto = match self.master_password() {
            Some(p) => p,
            None => {
                return Err(LOCKED_MESSAGE.to_owned());
            },
        };
        let texto: BytesSecretos = match serializada {
            Ok(t) => BytesSecretos::new(t),
            Err(e) => {
                return Err(unir("no se pudo cifrar el llavero: Serialization failed: ", e.as_str()));
            },
        };
        match encrypt_database(texto.as_slice(), pwd.as_str()) {
            Ok(d) => Ok(d),
            Err(e) => Err(unir("no se pudo cifrar el llavero: ", e.as_str())),
        }
    }
}

/// What a failed write is reported as.
pub fn error_de_escritura(ruta: &str, error: &str) -> (r: String)
    ensures
        r@ == "no se pudo escribir "@ + ruta@ + ": "@ + error@,
{
    let s: String = unir3("no se pudo escribir ", ruta, ": ");
    unir(s.as_str(), error)
}

} // verus!
