//! The database on disk, and when what is in memory may be written over it.
//!
//! A database that exists and was not opened is not an empty one. Whoever seeds
//! a collection without having opened it leaves writing forbidden, and it is
//! allowed again only once the collection was loaded with what is on disk.
use vstd::prelude::*;
use vstd::string::*;

use super::sesion::Sesion;
use super::{
    copiada, nueva_ruta_de_item, CollectionInfo, DbusError, ErrorVista, EstadoVista, ItemInfo,
    ItemVista, KeyringState, COLECCION_DEL_LOGIN,
};
use crate::crypto::{decrypt_database, KeyringDatabase, SecretItem, SecretItemVista};
use crate::dbus_api;
use crate::errores::ClaseDeError;
use crate::secreto::{BytesSecretos, Secreto};
use crate::texto::{copia_de_bytes, en_decimal, unir, unir3};

verus! {

// ── Where it is ────────────────────────────────────────────

/// The path of the database under a data directory: none where there is no
/// directory or it is not absolute.
pub open spec fn ruta_bajo(base: Option<Seq<u8>>) -> Option<Seq<u8>> {
    match base {
        None => None,
        Some(b) => if b.len() == 0 || b[0] != 0x2F {
            None
        } else {
            let separador = if b.last() == 0x2F {
                Seq::<u8>::empty()
            } else {
                seq![0x2Fu8]
            };
            Some(b + separador + vstd::utf8::encode_utf8("vasak-keyring/keyring.db"@))
        },
    }
}

/// The path of the database under a data directory, as bytes. A relative
/// directory is refused rather than guessed: writing secrets to a place that
/// nobody chose is worse than failing.
pub fn keyring_path_under(base: Option<Vec<u8>>) -> (r: Option<Vec<u8>>)
    ensures
        match r {
            Some(p) => ruta_bajo(
                match base {
                    Some(b) => Some(b@),
                    None => None,
                },
            ) == Some(p@),
            None => ruta_bajo(
                match base {
                    Some(b) => Some(b@),
                    None => None,
                },
            ) is None,
        },
{
    match base {
        Some(b) => {
            if b.len() == 0 || b[0] != 0x2F {
                return None;
            }
            let mut p: Vec<u8> = copia_de_bytes(b.as_slice());
            if b[b.len() - 1] != 0x2F {
                p.push(0x2F);
            }
            let ghost hasta_aqui = p@;
            p.extend_from_slice("vasak-keyring/keyring.db".as_bytes());
            proof {
                let cola = vstd::utf8::encode_utf8("vasak-keyring/keyring.db"@);
                assert(p@ =~= hasta_aqui + cola);
                if b@.last() == 0x2F {
                    assert(p@ =~= b@ + Seq::<u8>::empty() + cola);
                } else {
                    assert(p@ =~= b@ + seq![0x2Fu8] + cola);
                }
            }
            Some(p)
        },
        None => None,
    }
}

/// What a write is reported as where there is no path to write to.
pub const SIN_RUTA: &'static str = "no se pudo determinar la ruta del llavero (¿falta HOME?)";

// ── What is in it ──────────────────────────────────────────

/// What was read of the database file: nothing where there is no file yet.
pub type Lectura = Result<Option<Vec<u8>>, String>;

/// What reading the database file comes to. A file that is not there yet is the
/// ordinary case of a new machine; any other failure is a failure, because a
/// database that is there and cannot be read is not an empty one.
pub fn leer_base(leido: Result<Vec<u8>, (ClaseDeError, String)>) -> (r: Lectura)
    ensures
        match leido {
            Ok(d) => vista_de_lectura(r) == Ok::<Option<Seq<u8>>, Seq<char>>(Some(d@)),
            Err((clase, e)) => vista_de_lectura(r) == if clase is NotFound {
                Ok::<Option<Seq<u8>>, Seq<char>>(None)
            } else {
                Err(e@)
            },
        },
{
    match leido {
        Ok(d) => Ok(Some(d)),
        Err((clase, e)) => match clase {
            ClaseDeError::NotFound => Ok(None),
            _ => Err(e),
        },
    }
}

/// An attempt to open the database: what was read, and what the password made of
/// it.
pub struct Intento {
    password: Option<Secreto>,
    base: BaseAbierta,
    leido: Ghost<Result<Option<Seq<u8>>, Seq<char>>>,
}

enum BaseAbierta {
    NoHay,
    SinContrasena,
    Texto(BytesSecretos),
    NoAbre(String),
    Ilegible(String),
}

/// What an attempt is: what was read, and the password to open it with.
#[verifier::ext_equal]
pub struct IntentoVista {
    pub leido: Result<Option<Seq<u8>>, Seq<char>>,
    pub password: Option<Seq<char>>,
}

/// What was read, as contracts speak of it.
pub open spec fn vista_de_lectura(l: Lectura) -> Result<Option<Seq<u8>>, Seq<char>> {
    match l {
        Ok(Some(d)) => Ok(Some(d@)),
        Ok(None) => Ok(None),
        Err(e) => Err(e@),
    }
}

/// An optional text, as contracts speak of it.
pub open spec fn vista_de_str(s: Option<&str>) -> Option<Seq<char>> {
    match s {
        Some(t) => Some(t@),
        None => None,
    }
}

impl IntentoVista {
    /// What the password makes of what was read, where both are there.
    pub open spec fn resultado(self) -> Option<Result<Seq<u8>, Seq<char>>> {
        match (self.leido, self.password) {
            (Ok(Some(datos)), Some(p)) => Some(crate::crypto::descifrada(datos, p)),
            _ => None,
        }
    }

    /// The serialised items, where the password opened the database.
    pub open spec fn texto(self) -> Option<Seq<u8>> {
        match self.resultado() {
            Some(Ok(t)) => Some(t),
            _ => None,
        }
    }
}

impl View for Intento {
    type V = IntentoVista;

    closed spec fn view(&self) -> IntentoVista {
        IntentoVista {
            leido: self.leido@,
            password: super::sesion::vista_de_secreto(self.password),
        }
    }
}

impl Intento {
    /// The outcome is that of opening what was read with the password.
    #[verifier::type_invariant]
    spec fn coherente(self) -> bool {
        match self@.leido {
            Err(e) => self.base matches BaseAbierta::Ilegible(s) && s@ == e,
            Ok(None) => self.base is NoHay,
            Ok(Some(_)) => match self@.resultado() {
                None => self.base is SinContrasena,
                Some(Ok(t)) => self.base matches BaseAbierta::Texto(b) && b@ == t,
                Some(Err(e)) => self.base matches BaseAbierta::NoAbre(s) && s@ == e,
            },
        }
    }

    /// The serialised items, where the password opened the database.
    pub fn texto(&self) -> (r: Option<&[u8]>)
        ensures
            match r {
                Some(t) => self@.texto() == Some(t@),
                None => self@.texto() is None,
            },
    {
        proof {
            use_type_invariant(self);
        }
        match &self.base {
            BaseAbierta::Texto(t) => Some(t.as_slice()),
            _ => None,
        }
    }

    /// What to tell the journal when a collection is seeded from this attempt.
    pub fn aviso(&self, items: &Items) -> (r: Option<Aviso>)
        ensures
            match r {
                Some(a) => aviso_de(self@, *items) == Some(a@),
                None => aviso_de(self@, *items) is None,
            },
    {
        proof {
            use_type_invariant(self);
        }
        match &self.base {
            BaseAbierta::SinContrasena => Some(
                Aviso::Informe(
                    "[vasak-keyring] hay una base en disco; esperando la contraseña del inicio de sesión".to_owned(),
                ),
            ),
            BaseAbierta::NoAbre(e) => Some(
                Aviso::Fallo(unir("[vasak-keyring] cannot decrypt keyring.db: ", e.as_str())),
            ),
            BaseAbierta::Texto(_) => match items {
                Err(e) => Some(
                    Aviso::Fallo(
                        unir(
                            "[vasak-keyring] cannot decrypt keyring.db: ",
                            unir("Deserialization failed: ", e.as_str()).as_str(),
                        ),
                    ),
                ),
                Ok(_) => None,
            },
            _ => None,
        }
    }
}

/// A line for the journal.
pub enum Aviso {
    /// Nothing is wrong.
    Informe(String),
    /// Something failed.
    Fallo(String),
}

/// What a line for the journal says.
pub enum AvisoVista {
    Informe(Seq<char>),
    Fallo(Seq<char>),
}

impl View for Aviso {
    type V = AvisoVista;

    open spec fn view(&self) -> AvisoVista {
        match self {
            Aviso::Informe(s) => AvisoVista::Informe(s@),
            Aviso::Fallo(s) => AvisoVista::Fallo(s@),
        }
    }
}

/// What the journal is told when a collection is seeded: that a database waits
/// for its password, which is the ordinary start of a session, or why a password
/// did not open it.
pub open spec fn aviso_de(i: IntentoVista, items: Items) -> Option<AvisoVista> {
    match (i.leido, i.password) {
        (Ok(Some(_)), None) => Some(
            AvisoVista::Informe(
                "[vasak-keyring] hay una base en disco; esperando la contraseña del inicio de sesión"@,
            ),
        ),
        (Ok(Some(_)), Some(_)) => match (i.resultado()->0, items) {
            (Err(e), _) => Some(AvisoVista::Fallo("[vasak-keyring] cannot decrypt keyring.db: "@ + e)),
            (Ok(_), Err(e)) => Some(
                AvisoVista::Fallo(
                    "[vasak-keyring] cannot decrypt keyring.db: "@ + ("Deserialization failed: "@ + e@),
                ),
            ),
            _ => None,
        },
        _ => None,
    }
}

/// Opens what was read from disk with a password, if there is one.
pub fn abrir_base(lectura: Lectura, password: Option<&str>) -> (r: Intento)
    ensures
        r@.leido == vista_de_lectura(lectura),
        r@.password == vista_de_str(password),
{
    let ghost leido = vista_de_lectura(lectura);
    let base: BaseAbierta = match lectura {
        Err(e) => BaseAbierta::Ilegible(e),
        Ok(None) => BaseAbierta::NoHay,
        Ok(Some(datos)) => match password {
            None => BaseAbierta::SinContrasena,
            Some(p) => match decrypt_database(datos.as_slice(), p) {
                Ok(t) => BaseAbierta::Texto(BytesSecretos::new(t)),
                Err(e) => BaseAbierta::NoAbre(e),
            },
        },
    };
    let password: Option<Secreto> = match password {
        Some(p) => Some(Secreto::new(p.to_owned())),
        None => None,
    };
    Intento { password, base, leido: Ghost(leido) }
}

/// Opens what was read from disk with the master password in force, if there is
/// one: what a collection is seeded from.
pub fn intento_de_la_sesion(sesion: &Sesion, lectura: Lectura) -> (r: Intento)
    ensures
        r@.leido == vista_de_lectura(lectura),
        r@.password == sesion@.vigente(),
{
    match sesion.master_password() {
        Some(p) => abrir_base(lectura, Some(p.as_str())),
        None => abrir_base(lectura, None),
    }
}

/// The items that the serialised text of a database stands for, or why it stands
/// for none.
pub type Items = Result<KeyringDatabase, String>;

/// What a database holds once it is opened, deserialised as given: nothing where
/// the password did not open it or its text is not a database.
pub open spec fn contenido(i: IntentoVista, items: Items) -> Option<Seq<SecretItemVista>> {
    match (i.texto(), items) {
        (Some(_), Ok(db)) => Some(db@),
        _ => None,
    }
}

/// An item of the database, as it is held in memory.
pub open spec fn cargado(s: SecretItemVista, ahora: u64) -> ItemVista {
    ItemVista {
        label: s.label,
        attributes: s.attributes,
        secret: s.secret,
        content_type: "text/plain"@,
        created: ahora,
        modified: ahora,
    }
}

/// The items of a database, as they are held in memory.
pub open spec fn cargados(db: Seq<SecretItemVista>, ahora: u64) -> Seq<ItemVista> {
    Seq::new(db.len(), |i: int| cargado(db[i], ahora))
}

/// An item held in memory, as the database keeps it.
pub open spec fn guardado(i: ItemVista) -> SecretItemVista {
    SecretItemVista { label: i.label, attributes: i.attributes, secret: i.secret }
}

/// Items held in memory, as the database keeps them.
pub open spec fn guardados(items: Seq<ItemVista>) -> Seq<SecretItemVista> {
    Seq::new(items.len(), |i: int| guardado(items[i]))
}

/// Items, as contracts speak of them.
pub open spec fn vistas(v: Seq<ItemInfo>) -> Seq<ItemVista> {
    v.map_values(|i: ItemInfo| i@)
}

/// Whether every item of a database is short enough to be delivered.
pub open spec fn entregable(db: Seq<SecretItemVista>) -> bool {
    forall|i: int| 0 <= i < db.len() ==> dbus_api::cabe((#[trigger] db[i]).secret.len())
}

/// The items of a database, as they are held in memory.
fn items_de_base(db: &KeyringDatabase, ahora: u64) -> (r: Vec<ItemInfo>)
    ensures
        vistas(r@) == cargados(db@, ahora),
{
    let mut r: Vec<ItemInfo> = Vec::new();
    let mut i: usize = 0;
    while i < db.items.len()
        invariant
            i <= db.items@.len(),
            r@.len() == i,
            forall|j: int| 0 <= j < i ==> (#[trigger] r@[j])@ == cargado(db@[j], ahora),
        decreases db.items.len() - i,
    {
        let si: &SecretItem = &db.items[i];
        r.push(
            ItemInfo {
                label: si.label.clone(),
                attributes: si.attributes.clone(),
                secret: copia_de_bytes(si.secret.as_slice()),
                content_type: "text/plain".to_owned(),
                created: ahora,
                modified: ahora,
            },
        );
        i += 1;
        assert(r@[i - 1]@ == cargado(db@[i - 1], ahora));
    }
    assert(vistas(r@) =~= cargados(db@, ahora));
    r
}

/// The database that holds some items.
pub fn base_de(items: &Vec<ItemInfo>) -> (db: KeyringDatabase)
    ensures
        db@ == guardados(vistas(items@)),
{
    let mut r: Vec<SecretItem> = Vec::new();
    let mut i: usize = 0;
    while i < items.len()
        invariant
            i <= items@.len(),
            r@.len() == i,
            forall|j: int| 0 <= j < i ==> (#[trigger] r@[j])@ == guardado(items@[j]@),
        decreases items.len() - i,
    {
        let info: &ItemInfo = &items[i];
        r.push(
            SecretItem {
                label: info.label.clone(),
                attributes: info.attributes.clone(),
                secret: copia_de_bytes(info.secret.as_slice()),
            },
        );
        i += 1;
    }
    let db: KeyringDatabase = KeyringDatabase { items: r };
    assert(db@ =~= guardados(vistas(items@)));
    db
}

/// What is written and then loaded again keeps its labels, its attributes and
/// its secrets, in order.
pub proof fn guardar_y_cargar_conserva(items: Seq<ItemVista>, ahora: u64)
    ensures
        guardados(cargados(guardados(items), ahora)) == guardados(items),
        cargados(guardados(items), ahora).len() == items.len(),
        forall|i: int|
            0 <= i < items.len() ==> (#[trigger] cargados(guardados(items), ahora)[i]).label == items[i].label
                && cargados(guardados(items), ahora)[i].attributes == items[i].attributes && cargados(
                guardados(items),
                ahora,
            )[i].secret == items[i].secret,
{
    assert(guardados(cargados(guardados(items), ahora)) =~= guardados(items));
}

// ── Seeding a collection ───────────────────────────────────

/// What a collection that was just registered is seeded with.
pub struct DiskLoad {
    pub items: Vec<ItemInfo>,
    /// There is a database on disk that this session tried and could not open.
    pub undecrypted: bool,
}

impl DiskLoad {
    /// The load of a machine without a keyring.
    pub fn empty() -> (d: DiskLoad)
        ensures
            vistas(d.items@) == Seq::<ItemVista>::empty(),
            !d.undecrypted,
    {
        let d: DiskLoad = DiskLoad { items: Vec::new(), undecrypted: false };
        assert(vistas(d.items@) =~= Seq::<ItemVista>::empty());
        d
    }
}

/// What a collection is seeded with: the items, and whether there is a database
/// that was not opened; or the error of one that could not be read.
pub open spec fn siembra(i: IntentoVista, items: Items, ahora: u64) -> Result<
    (Seq<ItemVista>, bool),
    ErrorVista,
> {
    match i.leido {
        Err(e) => Err(ErrorVista::Failed("no se pudo leer la base del llavero: "@ + e)),
        Ok(None) => Ok((Seq::empty(), false)),
        Ok(Some(_)) => if i.password is None {
            Ok((Seq::empty(), false))
        } else {
            match contenido(i, items) {
                Some(db) => Ok((cargados(db, ahora), false)),
                None => Ok((Seq::empty(), true)),
            }
        },
    }
}

/// Decides what a collection is seeded with, from an attempt to open the
/// database and the items that its text stands for; these do not count where
/// there is no text.
///
/// A machine without a database starts empty, and so does one that waits for its
/// password; neither is a failure. A database that a password did not open comes
/// out marked, and one that could not be read is an error.
pub fn items_from_disk(intento: &Intento, items: &Items, ahora: u64) -> (r: Result<DiskLoad, DbusError>)
    ensures
        match r {
            Ok(d) => siembra(intento@, *items, ahora) == Ok::<(Seq<ItemVista>, bool), ErrorVista>(
                (vistas(d.items@), d.undecrypted),
            ),
            Err(e) => siembra(intento@, *items, ahora) == Err::<(Seq<ItemVista>, bool), ErrorVista>(e@),
        },
{
    proof {
        use_type_invariant(intento);
    }
    match &intento.base {
        BaseAbierta::NoHay => Ok(DiskLoad::empty()),
        BaseAbierta::SinContrasena => Ok(DiskLoad::empty()),
        BaseAbierta::Texto(_) => match items {
            Ok(db) => Ok(DiskLoad { items: items_de_base(db, ahora), undecrypted: false }),
            Err(_) => Ok(DiskLoad { items: DiskLoad::empty().items, undecrypted: true }),
        },
        BaseAbierta::NoAbre(_) => Ok(DiskLoad { items: DiskLoad::empty().items, undecrypted: true }),
        BaseAbierta::Ilegible(e) => Err(
            DbusError::Failed(unir("no se pudo leer la base del llavero: ", e.as_str())),
        ),
    }
}

/// What a collection is seeded with where the disk gives what it gives, or where
/// there is no disk to ask.
pub open spec fn siembra_de(disco: Option<(&Intento, &Items)>, ahora: u64) -> Result<
    (Seq<ItemVista>, bool),
    ErrorVista,
> {
    match disco {
        Some((intento, items)) => siembra(intento@, *items, ahora),
        None => Ok((Seq::empty(), false)),
    }
}

/// The session once a collection was seeded: where there is a database that was
/// not opened, nothing may be written.
pub open spec fn sembrada(
    s: dbus_api::sesion::SesionVista,
    undecrypted: bool,
) -> dbus_api::sesion::SesionVista {
    if undecrypted {
        dbus_api::sesion::SesionVista { bloqueo: Some(dbus_api::sesion::UNDECRYPTED_MESSAGE@), ..s }
    } else {
        s
    }
}

/// Takes the items to seed and, where the database on disk was not opened, leaves
/// writing forbidden.
pub fn seed_items(sesion: &mut Sesion, carga: DiskLoad) -> (r: Vec<ItemInfo>)
    ensures
        r@ == carga.items@,
        final(sesion)@ == sembrada(old(sesion)@, carga.undecrypted),
{
    if carga.undecrypted {
        sesion.block_writes();
    }
    carga.items
}

impl KeyringState {
    /// Puts items in under new paths of a collection, and gives back the paths.
    fn cargar(&mut self, coleccion: &str, items: Vec<ItemInfo>) -> (r: Vec<String>)
        requires
            old(self)@.next_item + items@.len() <= u64::MAX,
        ensures
            final(self)@ == (EstadoVista {
                items: dbus_api::transiciones::con_cargados(
                    old(self)@.items,
                    coleccion@,
                    old(self)@.next_item,
                    vistas(items@),
                ),
                next_item: old(self)@.next_item + items@.len(),
                ..old(self)@
            }),
            dbus_api::rutas(r@) == dbus_api::transiciones::rutas_nuevas(
                coleccion@,
                old(self)@.next_item,
                items@.len(),
            ),
    {
        let ghost v = self@;
        let ghost todos = vistas(items@);
        let mut r: Vec<String> = Vec::new();
        let mut i: usize = 0;
        proof {
            assert(todos.take(0) =~= Seq::<ItemVista>::empty());
            assert(dbus_api::rutas(r@) =~= dbus_api::transiciones::rutas_nuevas(coleccion@, v.next_item, 0));
        }
        while i < items.len()
            invariant
                i <= items@.len(),
                todos == vistas(items@),
                v.next_item + items@.len() <= u64::MAX,
                self@ == (EstadoVista {
                    items: dbus_api::transiciones::con_cargados(
                        v.items,
                        coleccion@,
                        v.next_item,
                        todos.take(i as int),
                    ),
                    next_item: v.next_item + i as nat,
                    ..v
                }),
                dbus_api::rutas(r@) == dbus_api::transiciones::rutas_nuevas(coleccion@, v.next_item, i as nat),
            decreases items.len() - i,
        {
            let ghost antes = dbus_api::rutas(r@);
            let id: u64 = self.take_item_id();
            let ip: String = nueva_ruta_de_item(coleccion, id);
            let info: ItemInfo = items[i].clone();
            self.items.insert(ip.clone(), info);
            let ghost nueva = ip@;
            r.push(ip);
            i += 1;
            proof {
                let t = todos.take(i as int);
                assert(t.drop_last() =~= todos.take(i - 1));
                assert(t.last() == items@[i - 1]@);
                assert(dbus_api::rutas(r@) =~= antes.push(nueva));
                assert(dbus_api::rutas(r@) =~= dbus_api::transiciones::rutas_nuevas(
                    coleccion@,
                    v.next_item,
                    i as nat,
                ));
            }
        }
        assert(todos.take(items@.len() as int) =~= todos);
        r
    }

    /// Registers a collection with what the disk gives for it, under an alias:
    /// the attempt of the session, from `intento_de_la_sesion`, and the items that
    /// its text stands for.
    ///
    /// Where the database could not be read nothing is registered: a collection
    /// open and empty would end up written over the database. Where it was not
    /// opened the collection is registered empty, and writing is forbidden. A
    /// keyring that has nowhere to be is registered empty.
    pub fn spawn_collection(
        &mut self,
        sesion: &mut Sesion,
        path: &str,
        alias: &str,
        label: &str,
        disco: Option<(&Intento, &Items)>,
        ahora: u64,
    ) -> (r: Result<Vec<String>, DbusError>)
        requires
            old(self)@.valido(),
            disco matches Some((_, Ok(db))) ==> old(self)@.next_item + db@.len() <= u64::MAX && entregable(db@),
        ensures
            final(self)@.valido(),
            match siembra_de(disco, ahora) {
                Ok(s) => {
                    &&& r matches Ok(p) && dbus_api::rutas(p@) == dbus_api::transiciones::rutas_nuevas(
                        path@,
                        old(self)@.next_item,
                        s.0.len(),
                    )
                    &&& final(self)@ == old(self)@.con_coleccion(path@, alias@, label@, s.0, ahora)
                    &&& final(sesion)@ == sembrada(old(sesion)@, s.1)
                },
                Err(m) => {
                    &&& r matches Err(e) && e@ == m
                    &&& final(self)@ == old(self)@
                    &&& final(sesion)@ == old(sesion)@
                },
            },
    {
        let carga: DiskLoad = match disco {
            Some((intento, items)) => match items_from_disk(intento, items, ahora) {
                Ok(c) => c,
                Err(e) => {
                    return Err(e);
                },
            },
            None => DiskLoad::empty(),
        };
        let ghost v = self@;
        let ghost s = vistas(carga.items@);
        proof {
            assert(dbus_api::transiciones::caben(s));
            dbus_api::transiciones::con_coleccion_es_valido(v, path@, alias@, label@, s, ahora);
        }
        let loaded: Vec<ItemInfo> = seed_items(sesion, carga);
        assert(loaded@.len() == s.len());
        let item_paths: Vec<String> = self.cargar(path, loaded);
        let col_info: CollectionInfo = CollectionInfo {
            label: label.to_owned(),
            locked: false,
            items: copiada(&item_paths),
            created: ahora,
            modified: ahora,
        };
        self.collections.insert(path.to_owned(), col_info);
        self.aliases.insert(alias.to_owned(), path.to_owned());
        if crate::texto::igual(alias, "login") {
            self.aliases.insert("default".to_owned(), path.to_owned());
        }
        Ok(item_paths)
    }

    /// Registers the login collection, which is the default one.
    pub fn register_default_collection(
        &mut self,
        sesion: &mut Sesion,
        disco: Option<(&Intento, &Items)>,
        ahora: u64,
    ) -> (r: Result<Vec<String>, DbusError>)
        requires
            old(self)@.valido(),
            disco matches Some((_, Ok(db))) ==> old(self)@.next_item + db@.len() <= u64::MAX && entregable(db@),
        ensures
            final(self)@.valido(),
            match siembra_de(disco, ahora) {
                Ok(s) => {
                    &&& r matches Ok(p) && dbus_api::rutas(p@) == dbus_api::transiciones::rutas_nuevas(
                        COLECCION_DEL_LOGIN@,
                        old(self)@.next_item,
                        s.0.len(),
                    )
                    &&& final(self)@ == old(self)@.con_coleccion(
                        COLECCION_DEL_LOGIN@,
                        "login"@,
                        "Default collection"@,
                        s.0,
                        ahora,
                    )
                    &&& final(sesion)@ == sembrada(old(sesion)@, s.1)
                },
                Err(m) => {
                    &&& r matches Err(e) && e@ == m
                    &&& final(self)@ == old(self)@
                    &&& final(sesion)@ == old(sesion)@
                },
            },
    {
        self.spawn_collection(sesion, COLECCION_DEL_LOGIN, "login", "Default collection", disco, ahora)
    }

    /// Replaces the content of a collection by that of the database just opened,
    /// and allows writing again. Gives back the paths of the items that are there
    /// now, and those of the ones that went.
    ///
    /// Both things happen at once: from here on what may be written and what is
    /// on disk are the same.
    pub fn reload_collection(
        &mut self,
        sesion: &mut Sesion,
        coll_path: &str,
        db: &KeyringDatabase,
        ahora: u64,
    ) -> (r: (Vec<String>, Vec<String>))
        requires
            old(self)@.valido(),
            old(self)@.next_item + db@.len() <= u64::MAX,
            entregable(db@),
        ensures
            final(self)@.valido(),
            final(self)@ == old(self)@.recargada(coll_path@, cargados(db@, ahora), ahora),
            final(sesion)@ == (dbus_api::sesion::SesionVista { bloqueo: None, ..old(sesion)@ }),
            dbus_api::rutas(r.0@) == dbus_api::transiciones::rutas_nuevas(
                coll_path@,
                old(self)@.next_item,
                db@.len(),
            ),
            dbus_api::rutas(r.1@) == old(self)@.lista(coll_path@),
    {
        let ghost v = self@;
        let items: Vec<ItemInfo> = items_de_base(db, ahora);
        assert(items@.len() == vistas(items@).len());
        proof {
            dbus_api::transiciones::recargada_es_valido(v, coll_path@, cargados(db@, ahora), ahora);
        }
        let stale_paths: Vec<String> = match self.collections.get(coll_path) {
            Some(col) => copiada(&col.items),
            None => Vec::new(),
        };
        assert(dbus_api::rutas(stale_paths@) =~= v.lista(coll_path@));
        self.quitar_items(&stale_paths);
        let item_paths: Vec<String> = self.cargar(coll_path, items);
        if self.collections.contains_key(coll_path) {
            self.cambiar_lista(coll_path, copiada(&item_paths), None);
        } else {
            let nueva: CollectionInfo = CollectionInfo {
                label: "Default collection".to_owned(),
                locked: false,
                items: copiada(&item_paths),
                created: ahora,
                modified: ahora,
            };
            self.collections.insert(coll_path.to_owned(), nueva);
        }
        sesion.unblock_writes();
        (item_paths, stale_paths)
    }

    /// The database that holds every item in memory. Whatever changed, the whole
    /// of it is what goes to disk.
    pub fn para_guardar(&self) -> (db: KeyringDatabase)
        ensures
            db@.len() == self@.items.dom().len(),
            db@.len() == self.orden_de_items().len(),
            self.orden_de_items().no_duplicates(),
            self.orden_de_items().to_set() == self@.items.dom(),
            forall|i: int|
                0 <= i < db@.len() ==> #[trigger] db@[i] == guardado(
                    self@.items[self.orden_de_items()[i]],
                ),
    {
        let foto: Vec<ItemInfo> = self.fotografia();
        let db: KeyringDatabase = base_de(&foto);
        assert(vistas(foto@).len() == foto@.len());
        assert forall|i: int| 0 <= i < db@.len() implies #[trigger] db@[i] == guardado(
            self@.items[self.orden_de_items()[i]],
        ) by {
            assert(vistas(foto@)[i] == foto@[i]@);
        }
        db
    }
}

// ── Unlocking ──────────────────────────────────────────────

/// What a password opens: the items there are, none in a new keyring, or nothing.
pub open spec fn abierta_por(i: IntentoVista, items: Items) -> Option<Seq<SecretItemVista>> {
    if i.leido == Ok::<Option<Seq<u8>>, Seq<char>>(None) {
        Some(Seq::empty())
    } else {
        contenido(i, items)
    }
}

/// Adopts a password as the master password of the session, where it opens the
/// database or there is none to open. The password is the one of the attempt,
/// and the items are those that the text it opened stands for.
///
/// A password that does not open the one there is counts as a wrong one, and is
/// not adopted. One that could not be tried changes nothing. Writing is not
/// allowed here: what is in memory is still what it was.
pub fn adopt_password(sesion: &mut Sesion, intento: &Intento, items: Items, instante: u64) -> (r: Result<
    Option<KeyringDatabase>,
    String,
>)
    requires
        intento@.password is Some,
    ensures
        match abierta_por(intento@, items) {
            Some(abierta) => r matches Ok(Some(db)) && db@ == abierta && final(sesion)@ == adoptada(
                old(sesion)@,
                intento@.password->0,
            ),
            None => match intento@.leido {
                Err(m) => r matches Err(e) && e@ == m && final(sesion)@ == old(sesion)@,
                Ok(_) => r matches Ok(None) && final(sesion)@ == old(sesion)@.tras_fallo(instante),
            },
        },
        final(sesion)@.bloqueo == old(sesion)@.bloqueo,
{
    proof {
        use_type_invariant(intento);
    }
    let db: KeyringDatabase = match &intento.base {
        BaseAbierta::Texto(_) => match items {
            Ok(db) => db,
            Err(_) => {
                sesion.note_failed_unlock(instante);
                return Ok(None);
            },
        },
        BaseAbierta::NoHay => KeyringDatabase { items: Vec::new() },
        BaseAbierta::Ilegible(e) => {
            return Err(e.clone());
        },
        _ => {
            sesion.note_failed_unlock(instante);
            return Ok(None);
        },
    };
    if let Some(password) = &intento.password {
        sesion.set_master_password(password.as_str());
    }
    sesion.note_successful_unlock();
    proof {
        if intento.base is NoHay {
            assert(db@ =~= Seq::<SecretItemVista>::empty());
        }
    }
    Ok(Some(db))
}

/// The session once a password was adopted.
pub open spec fn adoptada(s: dbus_api::sesion::SesionVista, password: Seq<char>) -> dbus_api::sesion::SesionVista {
    dbus_api::sesion::SesionVista { maestra: Some(password), ..s.tras_acierto() }
}

/// What whoever tries a password is told while the door is closed; nothing where
/// it is open.
pub open spec fn espera(s: dbus_api::sesion::SesionVista, instante: u64) -> Option<Seq<char>> {
    match s.faltan(instante) {
        Some(n) => Some("demasiados intentos fallidos: probá de nuevo en "@ + crate::texto::decimal(n) + " s"@),
        None => None,
    }
}

/// The session once a wait that was over is forgotten.
pub open spec fn sin_espera(s: dbus_api::sesion::SesionVista) -> dbus_api::sesion::SesionVista {
    if s.cerrada_hasta is Some {
        s.tras_acierto()
    } else {
        s
    }
}

/// Whether a password may be tried now. After too many wrong ones the answer is
/// to stop trying, which is not the same as the password being wrong.
pub fn admitir_intento(sesion: &mut Sesion, instante: u64) -> (r: Result<(), DbusError>)
    ensures
        match espera(old(sesion)@, instante) {
            Some(mensaje) => (r matches Err(e) && e@ == ErrorVista::Failed(mensaje)) && final(sesion)@ == old(
                sesion,
            )@,
            None => r is Ok && final(sesion)@ == sin_espera(old(sesion)@),
        },
{
    match sesion.unlock_blocked_for(instante) {
        Some(seconds) => {
            let n: String = en_decimal(seconds);
            Err(
                DbusError::Failed(
                    unir3("demasiados intentos fallidos: probá de nuevo en ", n.as_str(), " s"),
                ),
            )
        },
        None => Ok(()),
    }
}

/// Unlocks the keyring with the password of an attempt: adopts it where it opens
/// the database, and loads the login collection. The answer gives the paths of
/// the items that are there now and of the ones that went; `None` is a password
/// that does not open the database, or a keyring that has nowhere to be.
///
/// While too many wrong passwords keep the door closed, nothing is tried.
pub fn aplicar(
    state: &mut KeyringState,
    sesion: &mut Sesion,
    disco: Option<(&Intento, Items)>,
    instante: u64,
    ahora: u64,
) -> (r: Result<Option<(Vec<String>, Vec<String>)>, DbusError>)
    requires
        old(state)@.valido(),
        disco matches Some((i, _)) ==> i@.password is Some,
        disco matches Some((_, Ok(db))) ==> old(state)@.next_item + db@.len() <= u64::MAX && entregable(db@),
    ensures
        final(state)@.valido(),
        match espera(old(sesion)@, instante) {
            Some(mensaje) => {
                &&& r matches Err(e) && e@ == ErrorVista::Failed(mensaje)
                &&& final(state)@ == old(state)@
                &&& final(sesion)@ == old(sesion)@
            },
            None => {
                let s = sin_espera(old(sesion)@);
                match disco {
                    None => r matches Ok(None) && final(state)@ == old(state)@ && final(sesion)@ == s,
                    Some((intento, items)) => match abierta_por(intento@, items) {
                        Some(db) => {
                            &&& r matches Ok(Some(p)) && dbus_api::rutas(p.0@)
                                == dbus_api::transiciones::rutas_nuevas(
                                COLECCION_DEL_LOGIN@,
                                old(state)@.next_item,
                                db.len(),
                            ) && dbus_api::rutas(p.1@) == old(state)@.lista(COLECCION_DEL_LOGIN@)
                            &&& final(state)@ == old(state)@.recargada(
                                COLECCION_DEL_LOGIN@,
                                cargados(db, ahora),
                                ahora,
                            )
                            &&& final(sesion)@ == desbloqueada(s, intento@.password->0)
                        },
                        None => {
                            &&& final(state)@ == old(state)@
                            &&& match intento@.leido {
                                Err(m) => r matches Err(e) && e@ == ErrorVista::Failed(m) && final(sesion)@
                                    == s,
                                Ok(_) => r matches Ok(None) && final(sesion)@ == s.tras_fallo(instante),
                            }
                        },
                    },
                }
            },
        },
{
    if let Err(e) = admitir_intento(sesion, instante) {
        return Err(e);
    }
    match disco {
        None => Ok(None),
        Some((intento, items)) => match adopt_password(sesion, intento, items, instante) {
            Err(e) => Err(DbusError::Failed(e)),
            Ok(None) => Ok(None),
            Ok(Some(db)) => Ok(Some(state.reload_collection(sesion, COLECCION_DEL_LOGIN, &db, ahora))),
        },
    }
}

/// The session once a password opened the database and the login collection was
/// loaded: from then on it may be written.
pub open spec fn desbloqueada(
    s: dbus_api::sesion::SesionVista,
    password: Seq<char>,
) -> dbus_api::sesion::SesionVista {
    dbus_api::sesion::SesionVista { bloqueo: None, ..adoptada(s, password) }
}

} // verus!
