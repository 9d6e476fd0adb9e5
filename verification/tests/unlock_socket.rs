//! The socket that receives the password, from both sides.
use vasak_keyring::derivacion::derivar_maestra;
use vasak_keyring::errores::ClaseDeError;
use vasak_keyring::pam;
use vasak_keyring::pam::{
    al_abrir_la_sesion, respuesta_del_demonio, siguiente_intento, todavia_arrancando, tras_entregar,
    tras_guardarla, tras_pedir_la_contrasena, Apertura, Entrega, ESPERA_ENTRE_INTENTOS_MS, INTENTOS, PAM_IGNORE, PAM_SUCCESS,
};
use vasak_keyring::unlock_socket::{
    byte_de_respuesta, informar, interpretar_peticion, par_autorizado, recibir, ruta_del_socket, se_atiende,
    tras_leer, tras_probar, Lectura,
};

#[test]
fn la_ruta_se_deriva_del_uid_y_no_del_entorno() {
    assert_eq!(
        std::path::PathBuf::from(ruta_del_socket(1000)),
        std::path::PathBuf::from("/run/user/1000/vasak-keyring/unlock.sock")
    );
    assert!(std::path::PathBuf::from(ruta_del_socket(0)).starts_with("/run/user/0"));
}

#[test]
fn la_ruta_del_socket_es_la_que_el_demonio_publica() {
    assert_eq!(
        ruta_del_socket(1000),
        "/run/user/1000/vasak-keyring/unlock.sock"
    );
    assert_eq!(
        ruta_del_socket(4294967295),
        "/run/user/4294967295/vasak-keyring/unlock.sock"
    );
}

#[test]
fn solo_root_y_el_dueno_pueden_entregar() {
    assert!(par_autorizado(0, 1000), "root autentica el inicio de sesión");
    assert!(par_autorizado(1000, 1000), "el dueño del llavero");
    assert!(!par_autorizado(1001, 1000), "otra persona de la máquina");
    assert!(!par_autorizado(999, 1000), "una cuenta de servicio");
    assert!(se_atiende(Some(0), 1000));
    assert!(!se_atiende(Some(999), 1000));
    assert!(!se_atiende(None, 1000));
}

#[test]
fn el_salto_de_linea_final_no_es_parte_de_la_contrasena() {
    assert_eq!(interpretar_peticion(b"secreta\n").unwrap(), "secreta");
    assert_eq!(interpretar_peticion(b"secreta").unwrap(), "secreta");
    assert_eq!(interpretar_peticion(b"secreta\n\n").unwrap(), "secreta\n");
}

#[test]
fn una_entrega_sin_contrasena_se_descarta() {
    assert!(interpretar_peticion(b"").is_err());
    assert!(interpretar_peticion(b"\n").is_err());
    assert_eq!(interpretar_peticion(b""), Err("no llegó ninguna contraseña"));
    assert_eq!(interpretar_peticion(b"\n"), Err("la contraseña llegó vacía"));
}

#[test]
fn una_contrasena_con_acentos_sobrevive_el_viaje() {
    assert_eq!(
        interpretar_peticion("contraseña ñandú".as_bytes()).unwrap(),
        "contraseña ñandú"
    );
    assert!(interpretar_peticion(&[0xff, 0xfe]).is_err());
    assert_eq!(
        interpretar_peticion(&[0xff, 0xfe]),
        Err("la contraseña no es UTF-8 válido")
    );
}

#[test]
fn cada_lectura_dice_lo_que_paso() {
    match recibir(Lectura::Completa(b"hola\n".to_vec())) {
        Ok(p) => assert_eq!(p.as_str(), "hola"),
        Err(e) => panic!("{e}"),
    }
    let error = |l: Lectura| match recibir(l) {
        Ok(_) => panic!("no había contraseña"),
        Err(e) => e,
    };
    assert_eq!(
        error(Lectura::Completa(Vec::new())),
        "vasak-keyring: entrega descartada: no llegó ninguna contraseña"
    );
    assert_eq!(
        error(Lectura::Fallida("roto".to_string())),
        "vasak-keyring: error leyendo del socket de desbloqueo: roto"
    );
    assert_eq!(
        error(Lectura::Vencida),
        "vasak-keyring: el cliente del socket no mandó nada en el plazo"
    );
}

#[test]
fn la_respuesta_es_un_byte_que_los_dos_lados_leen_igual() {
    assert_eq!(byte_de_respuesta(true), b'1');
    assert_eq!(byte_de_respuesta(false), b'0');
    assert!(matches!(respuesta_del_demonio(byte_de_respuesta(true)), Entrega::Abierto));
    assert!(matches!(respuesta_del_demonio(byte_de_respuesta(false)), Entrega::Rechazada));
    assert!(matches!(respuesta_del_demonio(b'x'), Entrega::Rechazada));
    assert_eq!(
        informar(&Ok(true)),
        (true, "vasak-keyring: llavero desbloqueado al iniciar sesión".to_string())
    );
    assert_eq!(
        informar(&Ok(false)),
        (
            false,
            "vasak-keyring: la contraseña recibida no abre la base existente".to_string()
        )
    );
    assert_eq!(
        informar(&Err("roto".to_string())),
        (false, "vasak-keyring: falló el desbloqueo: roto".to_string())
    );
}

#[test]
fn lo_que_no_llega_se_contesta_con_un_no() {
    match tras_leer(Lectura::Completa(b"hola\n".to_vec())) {
        Ok(p) => assert_eq!(p.as_str(), "hola"),
        Err((b, e)) => panic!("{b} {e}"),
    }
    let negativa = |l: Lectura| match tras_leer(l) {
        Ok(p) => panic!("{}", p.as_str()),
        Err(par) => par,
    };
    assert_eq!(
        negativa(Lectura::Completa(Vec::new())),
        (b'0', "vasak-keyring: entrega descartada: no llegó ninguna contraseña".to_string())
    );
    assert_eq!(
        negativa(Lectura::Fallida("roto".to_string())),
        (b'0', "vasak-keyring: error leyendo del socket de desbloqueo: roto".to_string())
    );
    assert_eq!(
        negativa(Lectura::Vencida),
        (b'0', "vasak-keyring: el cliente del socket no mandó nada en el plazo".to_string())
    );
}

#[test]
fn lo_que_se_probo_se_contesta_como_salio() {
    assert_eq!(
        tras_probar(&Ok(true)),
        (b'1', "vasak-keyring: llavero desbloqueado al iniciar sesión".to_string())
    );
    assert_eq!(
        tras_probar(&Ok(false)),
        (b'0', "vasak-keyring: la contraseña recibida no abre la base existente".to_string())
    );
    assert_eq!(
        tras_probar(&Err("roto".to_string())),
        (b'0', "vasak-keyring: falló el desbloqueo: roto".to_string())
    );
}

#[test]
fn una_entrega_nunca_corta_el_inicio_de_sesion() {
    for entrega in [
        Entrega::Abierto,
        Entrega::Rechazada,
        Entrega::SinDemonio("no está".to_string()),
        Entrega::Cortada("plazo".to_string()),
    ] {
        let s = tras_entregar(&entrega, 7);
        assert_eq!(s.codigo, PAM_SUCCESS);
        assert_eq!(s.mensaje, Some(entrega.mensaje(7)));
    }
}

#[test]
fn un_demonio_que_todavia_no_arranco_no_es_una_negativa() {
    assert!(todavia_arrancando(ClaseDeError::NotFound));
    assert!(todavia_arrancando(ClaseDeError::ConnectionRefused));
}

#[test]
fn lo_que_no_mejora_esperando_no_se_reintenta() {
    assert!(!todavia_arrancando(ClaseDeError::PermissionDenied));
    assert!(!todavia_arrancando(ClaseDeError::ConnectionReset));
    assert!(!todavia_arrancando(ClaseDeError::InvalidData));
    assert!(!todavia_arrancando(ClaseDeError::Interrupted));
    assert!(!todavia_arrancando(ClaseDeError::Otra));
    assert_eq!(siguiente_intento(0, ClaseDeError::PermissionDenied), None);
}

#[test]
fn la_ventana_de_espera_es_de_tres_segundos() {
    assert_eq!(
        std::time::Duration::from_millis(ESPERA_ENTRE_INTENTOS_MS) * INTENTOS,
        std::time::Duration::from_secs(3)
    );
    let mut intento = 0;
    let mut hechos = 1;
    while let Some(n) = siguiente_intento(intento, ClaseDeError::NotFound) {
        intento = n;
        hechos += 1;
    }
    assert_eq!(hechos, INTENTOS);
}

#[test]
fn el_diario_dice_que_fallo() {
    assert_eq!(Entrega::Abierto.mensaje(7), "pam_vasak_keyring: llavero desbloqueado");
    assert_eq!(
        Entrega::Rechazada.mensaje(7),
        "pam_vasak_keyring: el demonio rechazó la contraseña; no es la que cifra la base del llavero"
    );
    assert_eq!(
        Entrega::SinDemonio("no está".to_string()).mensaje(7),
        "pam_vasak_keyring: no se pudo conectar a /run/user/7/vasak-keyring/unlock.sock en 3 s (no está); \
         el llavero queda cerrado y va a pedir la contraseña a mano"
    );
    assert_eq!(
        Entrega::Cortada("plazo".to_string()).mensaje(7),
        "pam_vasak_keyring: se conectó al demonio pero la entrega falló (plazo)"
    );
}

#[test]
fn la_autenticacion_sigue_solo_con_una_contrasena() {
    assert!(tras_pedir_la_contrasena(PAM_SUCCESS, true).is_none());
    for (codigo, hay) in [(PAM_SUCCESS, false), (7, true)] {
        let s = tras_pedir_la_contrasena(codigo, hay).expect("sin contraseña no se sigue");
        assert_eq!(s.codigo, PAM_IGNORE);
        assert_eq!(s.mensaje.as_deref(), Some("pam_vasak_keyring: pam_get_authtok failed"));
    }
    assert_eq!(tras_guardarla(PAM_SUCCESS).codigo, PAM_SUCCESS);
    assert!(tras_guardarla(PAM_SUCCESS).mensaje.is_none());
    assert_eq!(tras_guardarla(1).codigo, PAM_IGNORE);
    assert_eq!(
        tras_guardarla(1).mensaje.as_deref(),
        Some("pam_vasak_keyring: pam_set_data failed")
    );
    assert_eq!(pam::PAM_AUTHTOK, 6);
    assert_eq!(pam::LOG_AUTH, 4);
}

#[test]
fn lo_que_se_entrega_es_la_maestra_derivada() {
    match al_abrir_la_sesion(Some("clave"), Some(1000), Some("maquina\n")) {
        Apertura::Entregar { uid, maestra } => {
            assert_eq!(uid, 1000);
            assert_ne!(maestra.as_str(), "clave");
            match derivar_maestra("clave", Some("maquina")) {
                Ok(m) => assert_eq!(m.as_str(), maestra.as_str()),
                Err(e) => panic!("{e}"),
            }
        }
        Apertura::Nada(_) => panic!("hay algo que entregar"),
    }
    let nada = |p: Option<&str>, u: Option<u32>| match al_abrir_la_sesion(p, u, None) {
        Apertura::Nada(s) => (s.codigo, s.mensaje.unwrap_or_default()),
        Apertura::Entregar { .. } => panic!("no hay nada que entregar"),
    };
    assert_eq!(
        nada(None, Some(1)),
        (
            PAM_IGNORE,
            "pam_vasak_keyring: no stored password (already consumed or never set)".to_string()
        )
    );
    assert_eq!(
        nada(Some("x"), None),
        (
            PAM_IGNORE,
            "pam_vasak_keyring: could not resolve the user of this login".to_string()
        )
    );
    assert_eq!(
        nada(Some(""), Some(1)),
        (
            PAM_SUCCESS,
            "pam_vasak_keyring: la contraseña guardada está vacía; no se entrega".to_string()
        )
    );
}
