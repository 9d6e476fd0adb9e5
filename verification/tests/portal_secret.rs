//! The master secret of each application.
use vasak_keyring::dbus_api::sesion::{Sesion, LOCKED_MESSAGE};
use vasak_keyring::dbus_api::{KeyringState, COLECCION_DEL_LOGIN};
use vasak_keyring::mapa::Mapa;
use vasak_keyring::portal_secret::{
    respuesta_del_portal, SecretoDeApp, ESQUEMA_PORTAL, NOMBRE_BACKEND, RESPUESTA_FALLO, RESPUESTA_OK,
};

/// What the installed portal file declares.
const PORTAL: &str = "[portal]\n\
    DBusName=org.freedesktop.impl.portal.desktop.vasak-keyring\n\
    Interfaces=org.freedesktop.impl.portal.Secret;\n\
    UseIn=Vasak;\n";

#[test]
fn el_nombre_del_backend_coincide_con_el_portal_instalado() {
    assert!(
        PORTAL.contains(&format!("DBusName={NOMBRE_BACKEND}")),
        "el .portal no nombra a {NOMBRE_BACKEND}"
    );
    assert!(
        PORTAL.contains("Interfaces=org.freedesktop.impl.portal.Secret;"),
        "el .portal no declara la interfaz Secret"
    );
}

#[test]
fn el_portal_se_declara_para_el_escritorio_correcto() {
    assert!(PORTAL.contains("UseIn=Vasak;"), "UseIn tiene que ser Vasak");
}

fn servicio() -> (KeyringState, Sesion) {
    let mut sesion = Sesion::new(None);
    sesion.set_master_password("maestra");
    let mut state = KeyringState::new();
    state.register_default_collection(&mut sesion, None, 1).expect("registrar");
    (state, sesion)
}

#[test]
fn el_secreto_de_una_aplicacion_es_unico_y_estable() {
    let (mut state, sesion) = servicio();
    let (ruta, primero) = match state.secreto_maestro_de_app(&sesion, "org.a", 2) {
        Ok(SecretoDeApp::Nuevo { ruta, secreto }) => (ruta, secreto),
        _ => panic!("todavía no había"),
    };
    assert_eq!(ruta, format!("{COLECCION_DEL_LOGIN}/items/0"));
    assert_eq!(primero.len(), 64);
    assert_ne!(primero, vec![0u8; 64]);
    assert_eq!(state.item_label(&ruta), Ok("Secreto de org.a".to_string()));
    assert_eq!(state.tras_guardar_secreto(&ruta, primero.clone(), Ok(())), Ok(primero.clone()));
    match state.secreto_maestro_de_app(&sesion, "org.a", 3) {
        Ok(SecretoDeApp::Guardado(s)) => assert_eq!(s, primero),
        _ => panic!("ya estaba"),
    }
    match state.secreto_maestro_de_app(&sesion, "org.b", 3) {
        Ok(SecretoDeApp::Nuevo { secreto, .. }) => assert_ne!(secreto, primero),
        _ => panic!("otra aplicación, otro secreto"),
    }
    let mut atributos: Mapa<String> = Mapa::new();
    atributos.insert("app_id".to_string(), "org.a".to_string());
    assert_eq!(state.buscar_secreto(&atributos), None, "los atributos son todos o ninguno");
    atributos.insert("xdg:schema".to_string(), ESQUEMA_PORTAL.to_string());
    assert_eq!(state.buscar_secreto(&atributos), Some(primero));
}

#[test]
fn un_secreto_que_no_llego_al_disco_se_deshace() {
    let (mut state, sesion) = servicio();
    let (ruta, secreto) = match state.secreto_maestro_de_app_con(&sesion, "org.a", vec![7; 64], 2) {
        Ok(SecretoDeApp::Nuevo { ruta, secreto }) => (ruta, secreto),
        _ => panic!("todavía no había"),
    };
    assert_eq!(secreto, vec![7; 64]);
    assert_eq!(
        state.tras_guardar_secreto(&ruta, secreto, Err("disco lleno".to_string())),
        Err("disco lleno".to_string())
    );
    assert!(state.fotografia().is_empty());
    assert!(state.collection_items(COLECCION_DEL_LOGIN).is_empty());
    match state.secreto_maestro_de_app_con(&sesion, "org.a", vec![8; 64], 2) {
        Ok(SecretoDeApp::Nuevo { ruta: otra, secreto }) => {
            assert_ne!(otra, ruta);
            assert_eq!(secreto, vec![8; 64]);
        }
        _ => panic!("se hace otro"),
    }
}

#[test]
fn sin_identidad_o_sin_llave_no_hay_secreto() {
    let (mut state, sesion) = servicio();
    assert_eq!(
        state.secreto_maestro_de_app(&sesion, "", 2).err(),
        Some("la aplicación no tiene identificador".to_string())
    );
    assert_eq!(
        state.secreto_maestro_de_app(&Sesion::new(None), "org.a", 2).err(),
        Some(LOCKED_MESSAGE.to_string())
    );
    assert!(state.fotografia().is_empty());
    assert_eq!(respuesta_del_portal(true, true), RESPUESTA_OK);
    assert_eq!(respuesta_del_portal(true, false), RESPUESTA_FALLO);
    assert_eq!(respuesta_del_portal(false, false), RESPUESTA_FALLO);
    assert_eq!(RESPUESTA_OK, 0);
    assert_eq!(RESPUESTA_FALLO, 2);
}
