//! The Secret Service: sessions, collections, items and the database on disk.
use num_bigint::BigUint;
use serde_json::Value;
use vasak_keyring::crypto::{decrypt_database, encrypt_database, KeyringDatabase, SecretItem};
use vasak_keyring::dbus_api::disco::{
    abrir_base, adopt_password, aplicar, base_de, intento_de_la_sesion, items_from_disk, keyring_path_under, leer_base, seed_items,
    Aviso, Intento, Items, Lectura,
};
use vasak_keyring::dbus_api::service::AltaDeColeccion;
use vasak_keyring::dbus_api::sesion::{
    error_de_escritura, Sesion, LOCKED_MESSAGE, SEGUNDO, UNDECRYPTED_MESSAGE, UNLOCK_COOLDOWN,
    UNLOCK_MAX_ATTEMPTS,
};
use vasak_keyring::dbus_api::{
    alias_path, extract_bytes, owned_path, owned_path_try, value_to_attrmap, value_to_string, DbusError,
    ItemInfo, KeyringState, SecretStruct, Valor, COLECCION_DEL_LOGIN,
};
use vasak_keyring::errores::ClaseDeError;
use vasak_keyring::mapa::Mapa;
use vasak_keyring::session_crypto;

const LOGIN: &str = COLECCION_DEL_LOGIN;

fn fallo(m: &str) -> DbusError {
    DbusError::Failed(m.to_string())
}

fn mapa(pares: &[(&str, &str)]) -> Mapa<String> {
    let mut m = Mapa::new();
    for (k, v) in pares {
        m.insert(k.to_string(), v.to_string());
    }
    m
}

fn propiedades(label: &str, pares: &[(&str, &str)]) -> Mapa<Valor> {
    let mut m = Mapa::new();
    m.insert(
        "org.freedesktop.Secret.Item.Label".to_string(),
        Valor::Texto(label.to_string()),
    );
    m.insert(
        "org.freedesktop.Secret.Item.Attributes".to_string(),
        Valor::Atributos(mapa(pares)),
    );
    m
}

fn en_claro(session: &str, value: &[u8]) -> SecretStruct {
    SecretStruct {
        session: session.to_string(),
        parameters: Vec::new(),
        value: value.to_vec(),
        content_type: "text/plain".to_string(),
    }
}

fn abierta() -> Sesion {
    let mut s = Sesion::new(None);
    s.set_master_password("maestra");
    s
}

/// A service with the login collection, and a session that does not encrypt.
fn servicio(sesion: &mut Sesion) -> (KeyringState, String) {
    let mut state = KeyringState::new();
    state.register_default_collection(sesion, None, 5).expect("registrar");
    let (_, ses) = state.open_session("plain", &Valor::Otro, 5).expect("plain");
    (state, ses)
}

// ── The database on disk ──

/// The serialised form of a database.
fn texto_de(db: &KeyringDatabase) -> Vec<u8> {
    let items = db
        .items
        .iter()
        .map(|i| {
            let atributos: serde_json::Map<String, Value> = (0..i.attributes.len())
                .map(|k| (i.attributes.clave(k).clone(), Value::from(i.attributes.valor(k).clone())))
                .collect();
            let mut item = serde_json::Map::new();
            item.insert("label".to_string(), Value::from(i.label.clone()));
            item.insert("attributes".to_string(), Value::Object(atributos));
            item.insert("secret".to_string(), Value::from(i.secret.clone()));
            Value::Object(item)
        })
        .collect();
    let mut raiz = serde_json::Map::new();
    raiz.insert("items".to_string(), Value::Array(items));
    serde_json::to_vec(&Value::Object(raiz)).expect("serializar")
}

/// The database that a text stands for.
fn base_desde(texto: &[u8]) -> Items {
    let raiz: Value = serde_json::from_slice(texto).map_err(|e| e.to_string())?;
    let items = raiz.get("items").and_then(Value::as_array).ok_or("sin entradas")?;
    let mut db = KeyringDatabase { items: Vec::new() };
    for i in items {
        let mut attributes = Mapa::new();
        for (k, v) in i.get("attributes").and_then(Value::as_object).ok_or("sin atributos")? {
            attributes.insert(k.clone(), v.as_str().ok_or("no es texto")?.to_string());
        }
        db.items.push(SecretItem {
            label: i.get("label").and_then(Value::as_str).ok_or("sin etiqueta")?.to_string(),
            attributes,
            secret: i
                .get("secret")
                .and_then(Value::as_array)
                .ok_or("sin secreto")?
                .iter()
                .map(|b| b.as_u64().unwrap_or(0) as u8)
                .collect(),
        });
    }
    Ok(db)
}

/// What is written of some items.
fn guardar(sesion: &Sesion, items: &Vec<ItemInfo>) -> Result<Vec<u8>, String> {
    sesion.cifrar_base(Ok(texto_de(&base_de(items))))
}

fn base_con_una_entrada() -> KeyringDatabase {
    KeyringDatabase {
        items: vec![SecretItem {
            label: "la que estaba".into(),
            attributes: mapa(&[("app", "de-prueba")]),
            secret: b"el secreto de la persona".to_vec(),
        }],
    }
}

fn en_disco(password: &str) -> Lectura {
    let texto = texto_de(&base_con_una_entrada());
    Ok(Some(encrypt_database(&texto, password).expect("no se pudo cifrar la base")))
}

fn entrada(secret: &[u8]) -> ItemInfo {
    ItemInfo {
        label: "la nueva".into(),
        attributes: Mapa::new(),
        secret: secret.to_vec(),
        content_type: "text/plain".into(),
        created: 0,
        modified: 0,
    }
}

/// The items of an attempt, as whoever deserialises them gives them.
fn items_de(intento: &Intento) -> Items {
    match intento.texto() {
        Some(t) => base_desde(t),
        None => Err("no se abrió".to_string()),
    }
}

#[test]
fn una_base_inexistente_no_es_un_error() {
    let leido = leer_base(Err((ClaseDeError::NotFound, "no está".into())));
    assert_eq!(leido, Ok(None));
}

#[test]
fn la_base_se_lee_entera() {
    let crudo: Vec<u8> = (0..4096u32).map(|i| (i % 251) as u8).collect();
    assert_eq!(leer_base(Ok(crudo.clone())), Ok(Some(crudo)));
}

#[test]
fn una_base_ilegible_no_se_toma_por_una_base_vacia() {
    let leido = leer_base(Err((ClaseDeError::Otra, "no es un directorio".into())));
    assert_eq!(leido, Err("no es un directorio".to_string()));
    let leido = leer_base(Err((ClaseDeError::PermissionDenied, "no".into())));
    assert_eq!(leido, Err("no".to_string()));
}

#[test]
fn una_coleccion_nueva_arranca_vacia_sin_que_falte_la_base() {
    let intento = abrir_base(Ok(None), None);
    match items_from_disk(&intento, &items_de(&intento), 1) {
        Ok(carga) => assert!(carga.items.is_empty() && !carga.undecrypted),
        Err(e) => panic!("{e:?}"),
    }
}

#[test]
fn una_base_ilegible_no_deja_una_coleccion_abierta_y_vacia() {
    let intento = abrir_base(Err("roto".into()), None);
    match items_from_disk(&intento, &items_de(&intento), 1) {
        Err(e) => assert_eq!(e, fallo("no se pudo leer la base del llavero: roto")),
        Ok(_) => panic!("una base que no se puede leer no puede sembrar una colección"),
    }
    let mut state = KeyringState::new();
    let mut sesion = Sesion::new(None);
    assert_eq!(
        state.register_default_collection(&mut sesion, Some((&intento, &items_de(&intento))), 1),
        Err(fallo("no se pudo leer la base del llavero: roto"))
    );
    assert!(state.collections().is_empty());
    assert!(sesion.writes_blocked().is_none());
}

#[test]
fn una_base_que_no_se_puede_descifrar_no_impide_arrancar() {
    let intento = abrir_base(Ok(Some(b"no soy una base cifrada".to_vec())), Some("cualquiera"));
    match items_from_disk(&intento, &items_de(&intento), 1) {
        Ok(carga) => assert!(carga.items.is_empty() && carga.undecrypted),
        Err(e) => panic!("{e:?}"),
    }
}

#[test]
fn una_contrasena_que_no_abre_la_base_no_puede_escribir_sobre_ella() {
    let disco = en_disco("la-buena");
    let mut sesion = abierta();

    let intento = abrir_base(disco.clone(), Some("la-mala"));
    let carga = items_from_disk(&intento, &items_de(&intento), 1).expect("no es un fallo");
    assert!(carga.items.is_empty());
    assert!(carga.undecrypted);

    let items = seed_items(&mut sesion, carga);
    assert!(items.is_empty());
    let motivo = sesion.writes_blocked().expect("con la base sin abrir no se puede guardar");
    assert!(motivo.contains("descifrar"), "{motivo}");

    let error = guardar(&sesion, &items).expect_err("no se puede escribir");
    assert!(error.contains("no se escribió nada"), "{error}");
    assert_eq!(sesion.ensure_unlocked(), Err(UNDECRYPTED_MESSAGE.to_string()));

    let intento = abrir_base(disco, Some("la-buena"));
    let items = items_de(&intento);
    let db = adopt_password(&mut sesion, &intento, items, 0)
        .expect("legible")
        .expect("la contraseña de la persona abre su base");
    assert_eq!(db.items.len(), 1);
    assert!(sesion.writes_blocked().is_some(), "abrir la base no alcanza para poder guardar");

    let mut state = KeyringState::new();
    state.reload_collection(&mut sesion, LOGIN, &db, 2);
    assert!(sesion.writes_blocked().is_none());
    let mut guardadas = state.fotografia();
    assert_eq!(guardadas.len(), 1);
    guardadas.push(entrada(b"el secreto nuevo"));
    let escrito = guardar(&sesion, &guardadas).expect("con la base abierta se guarda");
    let guardado = base_desde(&decrypt_database(&escrito, "la-buena").expect("se abre")).expect("es una base");
    assert_eq!(guardado.items.len(), 2);
    assert_eq!(guardado.items[0].secret, b"el secreto de la persona");
    assert_eq!(guardado.items[1].secret, b"el secreto nuevo");
}

#[test]
fn un_arranque_sin_contrasena_deja_la_coleccion_vacia_y_no_cierra_el_llavero() {
    let disco = en_disco("la-buena");
    let mut sesion = Sesion::new(None);
    let intento = abrir_base(disco.clone(), None);
    let carga = items_from_disk(&intento, &items_de(&intento), 1).expect("esperar no es un fallo");
    assert!(carga.items.is_empty());
    assert!(!carga.undecrypted);
    seed_items(&mut sesion, carga);
    assert!(sesion.writes_blocked().is_none());

    let intento = abrir_base(disco, Some("la-buena"));
    let items = items_de(&intento);
    let db = adopt_password(&mut sesion, &intento, items, 0)
        .expect("legible")
        .expect("la contraseña del inicio de sesión abre la base");
    assert_eq!(db.items.len(), 1);

    let mut state = KeyringState::new();
    state.reload_collection(&mut sesion, LOGIN, &db, 2);
    assert!(sesion.writes_blocked().is_none());

    let mut guardadas = state.fotografia();
    guardadas.push(entrada(b"el secreto nuevo"));
    let escrito = guardar(&sesion, &guardadas).expect("después de desbloquear se vuelve a guardar");
    let guardado = base_desde(&decrypt_database(&escrito, "la-buena").expect("se abre")).expect("es una base");
    assert_eq!(guardado.items.len(), 2);
    assert_eq!(guardado.items[0].secret, b"el secreto de la persona");
    assert_eq!(guardado.items[1].secret, b"el secreto nuevo");
}

#[test]
fn la_contrasena_del_inicio_de_sesion_abre_el_llavero() {
    let disco = en_disco("la-buena");
    let mut sesion = Sesion::new(None);
    let mut state = KeyringState::new();
    let intento = abrir_base(disco, Some("la-buena"));
    let items = items_de(&intento);
    let r = aplicar(&mut state, &mut sesion, Some((&intento, items)), 0, 7).expect("abre");
    let (nuevas, viejas) = r.expect("la contraseña del inicio de sesión abre la base");
    assert_eq!(nuevas, vec![format!("{LOGIN}/items/0")]);
    assert!(viejas.is_empty());
    assert!(sesion.ensure_unlocked().is_ok());
    let guardadas = state.fotografia();
    assert_eq!(guardadas.len(), 1);
    assert_eq!(guardadas[0].secret, b"el secreto de la persona");
    assert_eq!(guardadas[0].content_type, "text/plain");
    assert_eq!(guardadas[0].created, 7);
}

#[test]
fn un_guardado_concurrente_al_desbloqueo_no_puede_pisar_la_base() {
    // Between the password that opens the database and the load of the
    // collection, what is in memory is the old list, and it cannot be written.
    let disco = en_disco("la-buena");
    let mut sesion = abierta();
    let mala = abrir_base(disco.clone(), Some("la-mala"));
    let mut state = KeyringState::new();
    state
        .register_default_collection(&mut sesion, Some((&mala, &items_de(&mala))), 1)
        .expect("se registra igual");
    let buena = abrir_base(disco, Some("la-buena"));
    let items = items_de(&buena);
    let db = adopt_password(&mut sesion, &buena, items, 0).unwrap().unwrap();

    assert!(sesion.writes_blocked().is_some());
    let foto = state.fotografia();
    assert!(foto.is_empty());
    guardar(&sesion, &foto).expect_err("una lista de antes de la carga no se puede guardar");

    state.reload_collection(&mut sesion, LOGIN, &db, 2);
    assert!(sesion.writes_blocked().is_none());
    assert_eq!(state.collection_items(LOGIN).len(), 1);
    assert_eq!(
        state.item_label(&state.collection_items(LOGIN)[0]),
        Ok("la que estaba".to_string())
    );

    let mut guardadas = state.fotografia();
    guardadas.push(entrada(b"el secreto nuevo"));
    let escrito = guardar(&sesion, &guardadas).expect("con la colección cargada se guarda");
    let guardado = base_desde(&decrypt_database(&escrito, "la-buena").expect("se abre")).expect("es una base");
    assert_eq!(guardado.items.len(), 2);
    assert_eq!(guardado.items[0].secret, b"el secreto de la persona");
}

#[test]
fn lo_escrito_vuelve_entero_y_en_orden() {
    let sesion = abierta();
    let escritas = vec![entrada(b"uno"), entrada(b""), entrada(b"tres")];
    let datos = guardar(&sesion, &escritas).expect("se guarda");
    let intento = abrir_base(Ok(Some(datos)), Some("maestra"));
    let carga = items_from_disk(&intento, &items_de(&intento), 9).expect("se abre");
    assert!(!carga.undecrypted);
    let secretos: Vec<Vec<u8>> = carga.items.iter().map(|i| i.secret.clone()).collect();
    assert_eq!(secretos, vec![b"uno".to_vec(), Vec::new(), b"tres".to_vec()]);
    assert!(carga.items.iter().all(|i| i.label == "la nueva" && i.attributes.len() == 0));
}

#[test]
fn el_diario_dice_en_que_quedo_la_base() {
    let linea = |intento: &Intento, items: &Items| match intento.aviso(items) {
        Some(Aviso::Informe(s)) => (true, s),
        Some(Aviso::Fallo(s)) => (false, s),
        None => (true, String::new()),
    };
    let disco = en_disco("buena");
    let espera = abrir_base(disco.clone(), None);
    assert_eq!(
        linea(&espera, &items_de(&espera)),
        (
            true,
            "[vasak-keyring] hay una base en disco; esperando la contraseña del inicio de sesión".to_string()
        )
    );
    let mala = abrir_base(disco.clone(), Some("mala"));
    assert_eq!(
        linea(&mala, &items_de(&mala)),
        (
            false,
            "[vasak-keyring] cannot decrypt keyring.db: \
             Decryption failed: wrong password or corrupted data"
                .to_string()
        )
    );
    let corta = abrir_base(Ok(Some(b"no soy una base cifrada".to_vec())), Some("cualquiera"));
    assert_eq!(
        linea(&corta, &items_de(&corta)),
        (
            false,
            "[vasak-keyring] cannot decrypt keyring.db: Invalid encrypted data: too short".to_string()
        )
    );
    let buena = abrir_base(disco, Some("buena"));
    assert_eq!(
        linea(&buena, &Err("basura".to_string())),
        (
            false,
            "[vasak-keyring] cannot decrypt keyring.db: Deserialization failed: basura".to_string()
        )
    );
    assert!(buena.aviso(&items_de(&buena)).is_none());
    let no_hay = abrir_base(Ok(None), Some("buena"));
    assert!(no_hay.aviso(&items_de(&no_hay)).is_none());
    let rota = abrir_base(Err("roto".into()), Some("buena"));
    assert!(rota.aviso(&items_de(&rota)).is_none());
}

#[test]
fn un_numero_no_se_entrega_dos_veces() {
    let mut sesion = abierta();
    let (mut state, ses) = servicio(&mut sesion);
    let crear = |state: &mut KeyringState| {
        state
            .create_item(&sesion, LOGIN, &propiedades("a", &[]), en_claro(&ses, b"x"), false, 1)
            .expect("crear")
    };
    assert_eq!(state.take_item_id(), 0);
    let uno = crear(&mut state);
    assert_eq!(uno, format!("{LOGIN}/items/1"));
    assert_eq!(state.item_delete(&uno), Some(LOGIN.to_string()));
    state.lock(&vec![LOGIN.to_string()]);
    state.set_alias("otro", LOGIN).expect("alias");
    state.open_session("plain", &Valor::Otro, 5).expect("plain");
    state.session_close(&ses);
    assert_eq!(state.take_item_id(), 2);
}

#[test]
fn una_base_cuyo_texto_no_es_una_base_no_se_adopta() {
    let mut sesion = Sesion::new(None);
    let intento = abrir_base(en_disco("buena"), Some("buena"));
    let ilegible: Items = Err("basura".to_string());
    match items_from_disk(&intento, &ilegible, 1) {
        Ok(carga) => assert!(carga.undecrypted),
        Err(e) => panic!("{e:?}"),
    }
    let r = adopt_password(&mut sesion, &intento, Err("basura".to_string()), 0);
    assert!(matches!(r, Ok(None)));
    assert!(sesion.master_password().is_none());
}

#[test]
fn desbloquear_cuenta_los_errores_y_espera() {
    let disco = en_disco("la-buena");
    let mut state = KeyringState::new();
    let mut sesion = Sesion::new(None);
    let mala = abrir_base(disco.clone(), Some("no"));
    for _ in 0..3 {
        let r = aplicar(&mut state, &mut sesion, Some((&mala, items_de(&mala))), 0, 1);
        assert!(matches!(r, Ok(None)));
    }
    let buena = abrir_base(disco.clone(), Some("la-buena"));
    let r = aplicar(&mut state, &mut sesion, Some((&buena, items_de(&buena))), 5 * SEGUNDO, 1);
    assert_eq!(
        r.err(),
        Some(fallo("demasiados intentos fallidos: probá de nuevo en 25 s"))
    );
    assert!(sesion.master_password().is_none());
    let r = aplicar(&mut state, &mut sesion, Some((&buena, items_de(&buena))), 30 * SEGUNDO, 1);
    assert!(matches!(r, Ok(Some(_))));
    assert_eq!(sesion.master_password().map(|m| m.as_str().to_string()), Some("la-buena".to_string()));
    // No place for a keyring, and a file that cannot be read.
    assert!(matches!(aplicar(&mut state, &mut sesion, None, 0, 1), Ok(None)));
    let rota = abrir_base(Err("roto".into()), Some("x"));
    let r = aplicar(&mut state, &mut sesion, Some((&rota, Err(String::new()))), 0, 1);
    assert_eq!(r.err(), Some(fallo("roto")));
    // A new keyring takes whatever password arrives first.
    let mut nueva = Sesion::new(None);
    let primera = abrir_base(Ok(None), Some("primera"));
    let r = aplicar(&mut state, &mut nueva, Some((&primera, Err(String::new()))), 0, 1);
    assert!(matches!(r, Ok(Some(_))));
    assert_eq!(nueva.master_password().map(|m| m.as_str().to_string()), Some("primera".to_string()));
}

#[test]
fn se_siembra_con_la_maestra_de_la_sesion() {
    let disco = en_disco("la-buena");
    let sembradas = |sesion: &Sesion| {
        let intento = intento_de_la_sesion(sesion, disco.clone());
        let carga = items_from_disk(&intento, &items_de(&intento), 3).expect("se lee");
        (carga.items.len(), carga.undecrypted)
    };
    let mut sesion = Sesion::new(None);
    assert_eq!(sembradas(&sesion), (0, false));
    sesion.set_master_password("la-mala");
    assert_eq!(sembradas(&sesion), (0, true));
    sesion.set_master_password("la-buena");
    assert_eq!(sembradas(&sesion), (1, false));
    // The one of the environment counts only while none was delivered.
    let mut entorno = Sesion::new(Some("la-buena".to_string()));
    assert_eq!(sembradas(&entorno), (1, false));
    entorno.set_master_password("la-mala");
    assert_eq!(sembradas(&entorno), (0, true));
}

#[test]
fn la_espera_vale_hasta_el_fin_del_reloj() {
    let mut sesion = Sesion::new(None);
    for _ in 0..UNLOCK_MAX_ATTEMPTS {
        sesion.note_failed_unlock(u64::MAX);
    }
    assert_eq!(sesion.unlock_blocked_for(u64::MAX), Some(30));
    sesion.note_successful_unlock();
    assert_eq!(sesion.unlock_blocked_for(u64::MAX), None);
    sesion.note_failed_unlock(u64::MAX);
    assert_eq!(sesion.unlock_blocked_for(u64::MAX), None);
}

#[test]
fn recargar_reemplaza_lo_que_habia_y_no_reusa_rutas() {
    let mut sesion = abierta();
    let (mut state, ses) = servicio(&mut sesion);
    let vieja = state
        .create_item(&sesion, LOGIN, &propiedades("v", &[]), en_claro(&ses, b"v"), false, 6)
        .unwrap();
    assert_eq!(vieja, format!("{LOGIN}/items/0"));
    let (nuevas, idas) = state.reload_collection(&mut sesion, LOGIN, &base_con_una_entrada(), 9);
    assert_eq!(nuevas, vec![format!("{LOGIN}/items/1")]);
    assert_eq!(idas, vec![vieja.clone()]);
    assert_eq!(state.item_label(&vieja), Err(fallo("item not found")));
    assert_eq!(state.item_label(&nuevas[0]), Ok("la que estaba".to_string()));
    assert_eq!(state.collection_created(LOGIN), Ok(5));
    let db = state.para_guardar();
    assert_eq!(db.items.len(), 1);
    assert_eq!(db.items[0].label, "la que estaba");
}

#[test]
fn the_database_hangs_off_the_data_directory() {
    assert_eq!(
        keyring_path_under(Some(b"/home/pato/.local/share".to_vec())),
        Some(b"/home/pato/.local/share/vasak-keyring/keyring.db".to_vec())
    );
    assert_eq!(
        keyring_path_under(Some(b"/".to_vec())),
        Some(b"/vasak-keyring/keyring.db".to_vec())
    );
}

#[test]
fn a_relative_base_is_refused_rather_than_guessed() {
    for relative in ["", "share", "./share", "../share"] {
        assert_eq!(
            keyring_path_under(Some(relative.as_bytes().to_vec())),
            None,
            "a base of {relative:?} must not produce a path"
        );
    }
}

#[test]
fn no_base_means_no_path() {
    assert_eq!(keyring_path_under(None), None);
}

#[test]
fn la_ruta_es_la_que_arma_std() {
    for base in ["/", "/a", "/a/", "/a/b", "/ñ"] {
        let esperada = std::path::PathBuf::from(base).join("vasak-keyring").join("keyring.db");
        assert_eq!(
            keyring_path_under(Some(base.as_bytes().to_vec())),
            Some(esperada.to_string_lossy().as_bytes().to_vec()),
            "{base}"
        );
    }
}

// ── The session ──

#[test]
fn three_wrong_passwords_close_the_door_and_the_right_one_opens_it() {
    let ahora = 1_000;
    let mut sesion = Sesion::new(None);
    assert_eq!(sesion.unlock_blocked_for(ahora), None, "arranca sin bloqueo");

    for _ in 0..UNLOCK_MAX_ATTEMPTS - 1 {
        sesion.note_failed_unlock(ahora);
        assert_eq!(sesion.unlock_blocked_for(ahora), None, "todavía quedan intentos");
    }

    sesion.note_failed_unlock(ahora);
    let left = sesion.unlock_blocked_for(ahora).expect("el tercer fallo bloquea");
    assert!(left <= UNLOCK_COOLDOWN / SEGUNDO && left > 0);
    assert_eq!(left, 30);

    sesion.note_successful_unlock();
    assert_eq!(sesion.unlock_blocked_for(ahora), None);

    sesion.note_failed_unlock(ahora);
    assert_eq!(sesion.unlock_blocked_for(ahora), None);
    sesion.note_successful_unlock();
}

#[test]
fn la_espera_se_cuenta_en_segundos_y_se_termina() {
    let mut sesion = Sesion::new(None);
    for _ in 0..3 {
        sesion.note_failed_unlock(0);
    }
    assert_eq!(sesion.unlock_blocked_for(1), Some(29));
    assert_eq!(sesion.unlock_blocked_for(30 * SEGUNDO - 1), Some(1));
    assert_eq!(sesion.unlock_blocked_for(30 * SEGUNDO), None);
    sesion.note_failed_unlock(0);
    sesion.note_failed_unlock(0);
    assert_eq!(sesion.unlock_blocked_for(0), None, "la cuenta empezó de nuevo");
}

#[test]
fn sin_contrasena_maestra_no_se_escribe() {
    let sesion = Sesion::new(None);
    assert_eq!(sesion.ensure_unlocked(), Err(LOCKED_MESSAGE.to_string()));
    assert_eq!(sesion.cifrar_base(Ok(vec![1])), Err(LOCKED_MESSAGE.to_string()));
    assert!(sesion.effectively_locked(false));
    let entorno = Sesion::new(Some("de-entorno".to_string()));
    assert!(entorno.ensure_unlocked().is_ok());
    assert!(!entorno.effectively_locked(false));
    assert!(entorno.effectively_locked(true));
    let mut ambas = Sesion::new(Some("de-entorno".to_string()));
    ambas.set_master_password("entregada");
    assert_eq!(ambas.master_password().map(|m| m.as_str().to_string()), Some("entregada".to_string()));
    assert_eq!(
        ambas.cifrar_base(Err("cíclico".to_string())),
        Err("no se pudo cifrar el llavero: Serialization failed: cíclico".to_string())
    );
    assert_eq!(
        error_de_escritura("/x", "lleno"),
        "no se pudo escribir /x: lleno"
    );
    ambas.block_writes();
    assert_eq!(ambas.writes_blocked().as_deref(), Some(UNDECRYPTED_MESSAGE));
    ambas.unblock_writes();
    assert_eq!(ambas.writes_blocked(), None);
}

#[test]
fn un_dialogo_se_ofrece_solo_si_hay_base() {
    let mut sesion = Sesion::new(None);
    assert_eq!(sesion.siguiente_prompt(false), None);
    assert_eq!(
        sesion.siguiente_prompt(true).as_deref(),
        Some("/org/freedesktop/secrets/prompt/u0")
    );
    assert_eq!(
        sesion.siguiente_prompt(true).as_deref(),
        Some("/org/freedesktop/secrets/prompt/u1")
    );
    let objetos = vec![LOGIN.to_string()];
    assert_eq!(sesion.resultado_del_prompt(true, objetos.clone()), (true, Vec::new()));
    sesion.set_master_password("x");
    assert_eq!(sesion.resultado_del_prompt(true, objetos.clone()), (false, objetos.clone()));
    assert_eq!(sesion.resultado_del_prompt(false, objetos), (true, Vec::new()));
}

// ── Paths and values ──

#[test]
fn las_rutas_de_objeto_se_validan() {
    for buena in ["/", "/a", "/a/b_9/Z"] {
        assert_eq!(owned_path_try(buena), Ok(buena.to_string()));
        assert_eq!(owned_path(buena), buena);
    }
    for mala in ["", "a", "/a/", "//", "/a//b", "/a-b", "/ñ"] {
        assert_eq!(
            owned_path_try(mala),
            Err(DbusError::InvalidArgs("Invalid object path".to_string())),
            "{mala}"
        );
        assert_eq!(owned_path(mala), "/");
    }
    assert_eq!(alias_path("default"), "/org/freedesktop/secrets/aliases/default");
}

#[test]
fn cada_valor_se_lee_como_lo_que_es() {
    assert_eq!(value_to_string(&Valor::Texto("a".into())).as_deref(), Some("a"));
    assert!(value_to_string(&Valor::Otro).is_none());
    let m = value_to_attrmap(&Valor::Atributos(mapa(&[("k", "v")]))).expect("son atributos");
    assert_eq!(m.get("k").map(|s| s.as_str()), Some("v"));
    assert!(value_to_attrmap(&Valor::Bytes(vec![1])).is_none());
    assert_eq!(extract_bytes(&Valor::Bytes(vec![1, 2])), Ok(vec![1, 2]));
    assert_eq!(extract_bytes(&Valor::Otro), Err(fallo("expected byte array")));
}

// ── Sessions ──

#[test]
fn un_algoritmo_desconocido_no_esta_soportado() {
    let mut state = KeyringState::new();
    assert_eq!(
        state.open_session("dh-ietf1024-sha256", &Valor::Otro, 1).err(),
        Some(DbusError::NotSupported(
            "unsupported algorithm: dh-ietf1024-sha256".to_string()
        ))
    );
    assert_eq!(
        state.open_session(session_crypto::DH_ALGORITHM, &Valor::Otro, 1).err(),
        Some(fallo("expected byte array"))
    );
    assert_eq!(
        state
            .open_session(session_crypto::DH_ALGORITHM, &Valor::Bytes(vec![1]), 1)
            .err(),
        Some(DbusError::InvalidArgs("client public value is out of range".to_string()))
    );
    let (salida, ruta) = state.open_session("plain", &Valor::Otro, 1).unwrap();
    assert!(salida.is_empty());
    assert_eq!(ruta, "/org/freedesktop/secrets/session/s0");
    let (salida, ruta) = state
        .open_session(session_crypto::DH_ALGORITHM, &Valor::Bytes(vec![4]), 1)
        .unwrap();
    assert_eq!(salida.len(), 128);
    assert_eq!(ruta, "/org/freedesktop/secrets/session/s1");
    let (salida, _) = state
        .open_session_with(session_crypto::DH_ALGORITHM, &Valor::Bytes(vec![4]), &[3], 1)
        .unwrap();
    assert_eq!(salida[127], 8);
}

#[test]
fn un_secreto_cifrado_vuelve_como_se_mando() {
    let mut sesion = abierta();
    let (mut state, claro) = servicio(&mut sesion);

    // A client with its own private value.
    let prime = BigUint::from_bytes_be(&session_crypto::DH_PRIME);
    let private = BigUint::from(0x1234_5678_9abcu64);
    let public = BigUint::from(2u32).modpow(&private, &prime);
    let (servidor, dh) = state
        .open_session(
            session_crypto::DH_ALGORITHM,
            &Valor::Bytes(public.to_bytes_be()),
            1,
        )
        .unwrap();
    let shared = BigUint::from_bytes_be(&servidor).modpow(&private, &prime);
    let clave = session_crypto::derive_key(&shared.to_bytes_be());

    let (iv, cifrado) = session_crypto::encrypt(&clave, b"secreto").unwrap();
    let mandado = SecretStruct {
        session: dh.clone(),
        parameters: iv,
        value: cifrado,
        content_type: "text/plain".to_string(),
    };
    let ruta = state
        .create_item(&sesion, LOGIN, &propiedades("x", &[]), mandado, false, 2)
        .unwrap();

    let leido = state.get_secret(&sesion, &ruta, &claro).ok().expect("en claro");
    assert_eq!(leido.value, b"secreto");
    assert!(leido.parameters.is_empty());
    let leido = state.get_secret(&sesion, &ruta, &dh).ok().expect("cifrado");
    assert_ne!(leido.value, b"secreto");
    assert_eq!(
        session_crypto::decrypt(&clave, &leido.parameters, &leido.value).unwrap(),
        b"secreto"
    );
    assert_eq!(leido.session, dh);

    let roto = SecretStruct {
        session: dh.clone(),
        parameters: vec![0; 3],
        value: vec![0; 16],
        content_type: String::new(),
    };
    assert_eq!(
        state.set_secret(&sesion, &ruta, roto, 3),
        Err(fallo(
            "could not decrypt the secret: expected a 16-byte IV, got 3"
        ))
    );
    state.session_close(&dh);
    assert_eq!(
        state.get_secret(&sesion, &ruta, &dh).err(),
        Some(fallo("session not found"))
    );
}

// ── Items and collections ──

#[test]
fn un_item_se_crea_se_lee_se_cambia_y_se_borra() {
    let mut sesion = abierta();
    let (mut state, ses) = servicio(&mut sesion);
    let ruta = state
        .create_item(&sesion, LOGIN, &propiedades("correo", &[("a", "1")]), en_claro(&ses, b"s"), false, 10)
        .unwrap();
    assert_eq!(ruta, format!("{LOGIN}/items/0"));
    assert_eq!(state.item_label(&ruta), Ok("correo".to_string()));
    assert_eq!(
        state.item_attributes(&ruta).ok().and_then(|m| m.get("a").cloned()),
        Some("1".to_string())
    );
    assert_eq!(state.item_created(&ruta), Ok(10));
    assert_eq!(state.item_modified(&ruta), Ok(10));
    assert_eq!(state.collection_modified(LOGIN), Ok(10));
    assert_eq!(state.collection_items(LOGIN), vec![ruta.clone()]);
    assert!(!state.item_locked(&sesion, &ruta));

    let cambio = state.set_secret(&sesion, &ruta, en_claro(&ses, b"otro"), 20);
    assert_eq!(cambio, Ok(Some(LOGIN.to_string())));
    assert_eq!(state.get_secret(&sesion, &ruta, &ses).ok().map(|s| s.value), Some(b"otro".to_vec()));
    assert_eq!(state.item_created(&ruta), Ok(10));
    assert_eq!(state.item_modified(&ruta), Ok(20));
    assert_eq!(
        state.set_secret(&sesion, "/no", en_claro(&ses, b"x"), 1),
        Err(fallo("item not found"))
    );
    assert_eq!(
        state.set_secret(&sesion, &ruta, en_claro("/no", b"x"), 1),
        Err(fallo("session not found"))
    );

    assert_eq!(state.item_delete(&ruta), Some(LOGIN.to_string()));
    assert_eq!(state.item_label(&ruta), Err(fallo("item not found")));
    assert!(state.item_attributes(&ruta).is_err());
    assert_eq!(state.item_created(&ruta), Err(fallo("item not found")));
    assert_eq!(state.item_modified(&ruta), Err(fallo("item not found")));
    assert!(state.collection_items(LOGIN).is_empty());
    assert_eq!(state.item_delete(&ruta), None);
    // A number that was handed out is not handed out again.
    let otra = state
        .create_item(&sesion, LOGIN, &Mapa::new(), en_claro(&ses, b"s"), false, 30)
        .unwrap();
    assert_eq!(otra, format!("{LOGIN}/items/1"));
    assert_eq!(state.item_label(&otra), Ok("Unnamed".to_string()));
}

#[test]
fn un_alta_rechazada_no_deja_nada() {
    let mut sesion = abierta();
    let (mut state, ses) = servicio(&mut sesion);
    let cerrada = Sesion::new(None);
    assert_eq!(
        state.create_item(&cerrada, LOGIN, &Mapa::new(), en_claro(&ses, b"s"), false, 1),
        Err(fallo(LOCKED_MESSAGE))
    );
    assert_eq!(
        state.set_secret(&cerrada, "/x", en_claro(&ses, b"s"), 1),
        Err(fallo(LOCKED_MESSAGE))
    );
    assert_eq!(
        state.create_item(&sesion, LOGIN, &Mapa::new(), en_claro("/no", b"s"), false, 1),
        Err(fallo("session not found"))
    );
    assert_eq!(
        state.create_item(&sesion, "/no", &Mapa::new(), en_claro(&ses, b"s"), true, 1),
        Err(fallo("collection not found"))
    );
    assert!(state.fotografia().is_empty());
    // Without replacing, the item is kept though its collection does not exist.
    assert_eq!(
        state.create_item(&sesion, "/no", &Mapa::new(), en_claro(&ses, b"s"), false, 1),
        Ok("/no/items/0".to_string())
    );
    assert_eq!(
        state.create_item(&sesion, "mala", &Mapa::new(), en_claro(&ses, b"s"), false, 1),
        Err(DbusError::InvalidArgs("Invalid object path".to_string()))
    );
}

#[test]
fn reemplazar_deja_un_solo_item_con_esos_atributos() {
    let mut sesion = abierta();
    let (mut state, ses) = servicio(&mut sesion);
    let a = [("app", "x")];
    let b = [("app", "x"), ("otro", "y")];
    let uno = state
        .create_item(&sesion, LOGIN, &propiedades("1", &a), en_claro(&ses, b"1"), false, 1)
        .unwrap();
    let dos = state
        .create_item(&sesion, LOGIN, &propiedades("2", &a), en_claro(&ses, b"2"), false, 1)
        .unwrap();
    let tres = state
        .create_item(&sesion, LOGIN, &propiedades("3", &b), en_claro(&ses, b"3"), false, 1)
        .unwrap();
    let nuevo = state
        .create_item(&sesion, LOGIN, &propiedades("4", &a), en_claro(&ses, b"4"), true, 1)
        .unwrap();
    assert_eq!(state.collection_items(LOGIN), vec![tres.clone(), nuevo.clone()]);
    assert!(state.item_label(&uno).is_err());
    assert!(state.item_label(&dos).is_err());
    // A search asks for less than the whole.
    assert_eq!(
        state.collection_search_items(LOGIN, &mapa(&a)),
        vec![tres.clone(), nuevo]
    );
    assert_eq!(state.collection_search_items(LOGIN, &mapa(&b)), vec![tres]);
    assert!(state.collection_search_items("/no", &mapa(&a)).is_empty());
}

#[test]
fn de_una_coleccion_cerrada_no_sale_ningun_secreto() {
    let mut sesion = abierta();
    let (mut state, ses) = servicio(&mut sesion);
    let ruta = state
        .create_item(&sesion, LOGIN, &propiedades("x", &[("k", "v")]), en_claro(&ses, b"s"), false, 1)
        .unwrap();
    let objetos = vec![LOGIN.to_string(), "/no".to_string()];
    assert_eq!(state.lock(&objetos), vec![LOGIN.to_string()]);
    assert_eq!(state.collection_locked(&sesion, LOGIN), Ok(true));
    assert!(state.item_locked(&sesion, &ruta));
    assert_eq!(
        state.get_secret(&sesion, &ruta, &ses).err(),
        Some(fallo("collection is locked"))
    );
    let pedidos = vec![ruta.clone(), "/no".to_string()];
    assert_eq!(state.get_secrets(&sesion, &pedidos, &ses).ok().map(|m| m.len()), Some(0));
    assert_eq!(state.search_items(&sesion, &mapa(&[("k", "v")])), (vec![], vec![ruta.clone()]));

    assert_eq!(state.unlock(&sesion, &objetos), Some(vec![LOGIN.to_string()]));
    assert_eq!(state.collection_locked(&sesion, LOGIN), Ok(false));
    let m = state.get_secrets(&sesion, &pedidos, &ses).ok().expect("abierta");
    assert_eq!(m.len(), 1);
    assert_eq!(m.get(&ruta).map(|s| s.value.clone()), Some(b"s".to_vec()));
    assert_eq!(state.get_secrets(&sesion, &pedidos, "/no").ok().map(|m| m.len()), Some(0));
    assert_eq!(state.search_items(&sesion, &mapa(&[("k", "v")])), (vec![ruta.clone()], vec![]));
    assert_eq!(state.get_secret(&sesion, "/no", &ses).err(), Some(fallo("item not found")));

    // Without a master password everything counts as locked.
    let cerrada = Sesion::new(None);
    assert_eq!(state.unlock(&cerrada, &objetos), None);
    assert_eq!(state.collection_locked(&cerrada, LOGIN), Ok(true));
    assert_eq!(
        state.get_secret(&cerrada, &ruta, &ses).err(),
        Some(fallo("collection is locked"))
    );
}

#[test]
fn las_colecciones_se_crean_una_vez_y_se_borran_con_lo_suyo() {
    let mut sesion = abierta();
    let (mut state, ses) = servicio(&mut sesion);
    assert_eq!(state.collection_label(LOGIN), Ok("Default collection".to_string()));
    match state.create_collection(&Mapa::new(), "login") {
        Ok(AltaDeColeccion::Existente(p)) => assert_eq!(p, LOGIN),
        _ => panic!("la del login ya existe"),
    }
    let mut propias = Mapa::new();
    propias.insert(
        "org.freedesktop.Secret.Collection.Label".to_string(),
        Valor::Texto("Trabajo".to_string()),
    );
    let (path, label) = match state.create_collection(&propias, "trabajo") {
        Ok(AltaDeColeccion::Nueva { path, label }) => (path, label),
        _ => panic!("no existía"),
    };
    assert_eq!(path, "/org/freedesktop/secrets/collection/trabajo");
    assert_eq!(label, "Trabajo");
    match state.create_collection(&Mapa::new(), "sin-rotulo") {
        Ok(AltaDeColeccion::Nueva { label, .. }) => assert_eq!(label, "sin-rotulo"),
        _ => panic!("no existía"),
    }
    state
        .spawn_collection(&mut sesion, &path, "trabajo", &label, None, 3)
        .unwrap();
    assert_eq!(state.collections(), vec![LOGIN.to_string(), path.clone()]);
    assert_eq!(state.read_alias("trabajo"), Ok(path.clone()));
    let propio = state
        .create_item(&sesion, &path, &Mapa::new(), en_claro(&ses, b"1"), false, 1)
        .unwrap();
    let ajeno = state
        .create_item(&sesion, LOGIN, &Mapa::new(), en_claro(&ses, b"2"), false, 1)
        .unwrap();
    // What goes to disk is every item of every collection.
    assert_eq!(state.para_guardar().items.len(), 2);
    assert_eq!(state.set_alias("mio", &path), Ok(Some(path.clone())));

    let (items, mut alias) = state.collection_delete(&path);
    alias.sort();
    assert_eq!(items, vec![propio.clone()]);
    assert_eq!(alias, vec!["mio".to_string(), "trabajo".to_string()]);
    assert_eq!(state.collection_label(&path), Err(fallo("collection not found")));
    assert_eq!(state.collection_created(&path), Err(fallo("collection not found")));
    assert_eq!(state.collection_modified(&path), Err(fallo("collection not found")));
    assert_eq!(state.collection_locked(&sesion, &path), Err(fallo("collection not found")));
    assert!(state.item_label(&propio).is_err());
    assert!(state.item_label(&ajeno).is_ok());
    assert_eq!(state.read_alias("mio"), Ok("/".to_string()));
}

#[test]
fn los_alias_se_leen_como_se_pusieron() {
    let mut sesion = abierta();
    let (mut state, _) = servicio(&mut sesion);
    assert_eq!(state.read_alias("default"), Ok(LOGIN.to_string()));
    assert_eq!(state.read_alias("login"), Ok(LOGIN.to_string()));
    assert_eq!(state.read_alias("nadie"), Ok("/".to_string()));
    assert_eq!(state.set_alias("x", "/no"), Err(fallo("collection not found")));
    assert_eq!(state.set_alias("x", LOGIN), Ok(Some(LOGIN.to_string())));
    assert_eq!(state.read_alias("x"), Ok(LOGIN.to_string()));
    assert_eq!(state.set_alias("x", "/"), Ok(None));
    assert_eq!(state.read_alias("x"), Ok("/".to_string()));
    // Without its alias, a collection is still found by its name.
    assert_eq!(state.set_alias("login", "/"), Ok(None));
    assert_eq!(state.read_alias("login"), Ok(LOGIN.to_string()));
}

#[test]
fn una_coleccion_nueva_se_siembra_con_lo_del_disco() {
    let mut sesion = abierta();
    let mut state = KeyringState::new();
    let intento = abrir_base(en_disco("maestra"), Some("maestra"));
    let items = items_de(&intento);
    let rutas = state
        .register_default_collection(&mut sesion, Some((&intento, &items)), 4)
        .unwrap();
    assert_eq!(rutas, vec![format!("{LOGIN}/items/0")]);
    assert_eq!(state.item_label(&rutas[0]), Ok("la que estaba".to_string()));
    assert!(sesion.writes_blocked().is_none());
    let mut id = state.take_item_id();
    assert_eq!(id, 1);
    id = state.take_item_id();
    assert_eq!(id, 2);
}
