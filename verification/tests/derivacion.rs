//! The derivation of the master password.
use sha2::{Digest, Sha256};
use vasak_keyring::derivacion::{derivar_con_sal, derivar_maestra, sal, sal_desde, LARGO};

#[test]
fn la_derivacion_no_puede_cambiar_sin_que_se_note() {
    let sal = sal_desde("0123456789abcdef0123456789abcdef");
    let maestra = derivar_con_sal("contraseña de prueba", &sal).unwrap_or_else(|e| panic!("{e}"));

    assert_eq!(maestra.as_str().len(), LARGO * 2, "hexadecimal de 32 bytes");
    assert!(maestra.as_str().chars().all(|c| c.is_ascii_hexdigit()));

    let otra_vez = derivar_con_sal("contraseña de prueba", &sal).unwrap_or_else(|e| panic!("{e}"));
    assert_eq!(maestra.as_str(), otra_vez.as_str());
}

#[test]
fn la_contrasena_original_no_aparece_en_el_resultado() {
    let sal = sal_desde("maquina");
    let maestra = derivar_con_sal("Tr0mp3ta-Azul", &sal).unwrap_or_else(|e| panic!("{e}"));
    assert!(!maestra.as_str().contains("Tr0mp3ta"));
    assert!(!maestra.as_str().to_lowercase().contains("azul"));
}

fn derivada(password: &str, sal: &[u8]) -> String {
    match derivar_con_sal(password, sal) {
        Ok(m) => m.as_str().to_string(),
        Err(e) => panic!("{e}"),
    }
}

#[test]
fn contrasenas_distintas_dan_maestras_distintas() {
    let sal = sal_desde("maquina");
    let a = derivada("una", &sal);
    let b = derivada("otra", &sal);
    assert_ne!(a, b);
    let c = derivada("una", &sal);
    let d = derivada("unA", &sal);
    assert_ne!(c, d);
}

#[test]
fn la_sal_depende_de_la_maquina() {
    assert_ne!(sal_desde("maquina-a"), sal_desde("maquina-b"));
    assert_eq!(sal_desde("igual"), sal_desde("igual"));
    assert_eq!(sal_desde("cualquiera").len(), 32);
}

#[test]
fn sin_machine_id_la_derivacion_sigue_funcionando() {
    let sal_vacia = sal_desde("");
    assert_eq!(sal_vacia.len(), 32);
    assert!(derivar_con_sal("algo", &sal_vacia).is_ok());
    assert_eq!(sal(None), sal_vacia);
}

#[test]
fn una_contrasena_vacia_no_es_un_error_aca() {
    assert!(derivar_con_sal("", &sal_desde("m")).is_ok());
}

#[test]
fn los_acentos_sobreviven() {
    let sal = sal_desde("m");
    assert_ne!(derivada("contraseña", &sal), derivada("contrasena", &sal));
}

#[test]
fn la_sal_es_el_resumen_de_la_etiqueta_y_el_identificador() {
    assert_eq!(
        sal_desde("abc"),
        Sha256::digest(b"vasak-keyring:v1:abc").to_vec()
    );
    assert_eq!(sal(Some("\n abc \t\n")), sal_desde("abc"));
}

#[test]
fn la_maestra_es_argon2id_en_hexadecimal() {
    let parametros = argon2::Params::new(19 * 1024, 2, 1, Some(32)).unwrap();
    let argon = argon2::Argon2::new(argon2::Algorithm::Argon2id, argon2::Version::V0x13, parametros);
    let sal = sal_desde("maquina");
    let mut salida = [0u8; 32];
    argon.hash_password_into("clave".as_bytes(), &sal, &mut salida).unwrap();
    let esperado: String = salida.iter().map(|b| format!("{b:02x}")).collect();
    assert_eq!(derivada("clave", &sal), esperado);
    match derivar_maestra("clave", Some("maquina\n")) {
        Ok(m) => assert_eq!(m.as_str(), esperado),
        Err(e) => panic!("{e}"),
    }
}

#[test]
fn una_sal_corta_es_un_error() {
    match derivar_con_sal("x", b"corta") {
        Ok(_) => panic!("una sal de cinco bytes no alcanza"),
        Err(e) => assert_eq!(e, "no se pudo derivar la contraseña maestra: salt is too short"),
    }
}
