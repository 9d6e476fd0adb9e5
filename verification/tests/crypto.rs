//! The encrypted database.
use aes_gcm::aead::{Aead, KeyInit};
use vasak_keyring::crypto::{
    decrypt_database, encrypt_database, encrypt_database_with, KeyringDatabase, SecretItem,
};
use vasak_keyring::mapa::Mapa;

fn atributos(pares: &[(&str, &str)]) -> Mapa<String> {
    let mut m = Mapa::new();
    for (k, v) in pares {
        m.insert(k.to_string(), v.to_string());
    }
    m
}

#[test]
fn el_secreto_no_aparece_en_el_debug_de_un_item() {
    let item = SecretItem {
        label: "wifi de casa".into(),
        attributes: atributos(&[("xdg:schema", "org.freedesktop.Secret.Generic")]),
        secret: b"hunter2-secreto".to_vec(),
    };

    let impreso = item.depurado();

    assert!(
        !impreso.contains("hunter2"),
        "el secreto no puede aparecer en el Debug: {impreso}"
    );
    assert!(
        !impreso.contains("104, 117, 110"),
        "ni los bytes del secreto: {impreso}"
    );
    assert!(
        impreso.contains("wifi de casa"),
        "la etiqueta tiene que estar: {impreso}"
    );
    assert_eq!(
        impreso,
        "SecretItem { label: \"wifi de casa\", attributes: {\"xdg:schema\": \
         \"org.freedesktop.Secret.Generic\"}, secret: \"<oculto>\" }"
    );
}

#[test]
fn una_base_cifrada_mide_lo_que_su_texto_y_lo_que_la_abre() {
    // Sixteen bytes of salt, twelve of nonce, the text and sixteen of tag.
    assert_eq!(encrypt_database(b"{\"items\":[]}", "x").expect("cifrar").len(), 56);
    assert_eq!(encrypt_database(b"", "x").expect("cifrar").len(), 44);
    assert_eq!(
        encrypt_database_with(b"abc", "x", &[1; 16], &[2; 12]).expect("cifrar").len(),
        47
    );
}

#[test]
fn la_base_entera_tampoco_se_imprime() {
    let db = KeyringDatabase {
        items: vec![SecretItem {
            label: "correo".into(),
            attributes: Mapa::new(),
            secret: b"otra-secreta-distinta".to_vec(),
        }],
    };

    let impresa = db.depurada();

    assert!(
        !impresa.contains("otra-secreta-distinta"),
        "el secreto no puede aparecer en el Debug de la base: {impresa}"
    );
    assert!(
        !impresa.contains("111, 116, 114, 97"),
        "ni los bytes del secreto: {impresa}"
    );
    assert!(
        impresa.contains("correo"),
        "la etiqueta tiene que estar: {impresa}"
    );
}

#[test]
fn lo_impreso_separa_y_cita_cada_cosa() {
    let item = |label: &str| SecretItem {
        label: label.into(),
        attributes: atributos(&[("a", "1"), ("b\"", "\n")]),
        secret: Vec::new(),
    };
    let db = KeyringDatabase { items: vec![item("x"), item("ñ")] };
    assert_eq!(
        db.depurada(),
        "KeyringDatabase { items: [SecretItem { label: \"x\", attributes: {\"a\": \"1\", \"b\\\"\": \"\\n\"}, \
         secret: \"<oculto>\" }, SecretItem { label: \"ñ\", attributes: {\"a\": \"1\", \"b\\\"\": \"\\n\"}, \
         secret: \"<oculto>\" }] }"
    );
    assert_eq!(KeyringDatabase { items: Vec::new() }.depurada(), "KeyringDatabase { items: [] }");
}

#[test]
fn la_base_se_abre_con_su_contrasena_y_con_ninguna_otra() {
    let cifrado = encrypt_database(b"token", "contraseña-maestra").unwrap();
    assert_eq!(cifrado.len(), 16 + 12 + 5 + 16);
    assert_eq!(decrypt_database(&cifrado, "contraseña-maestra").unwrap(), b"token");
    assert_eq!(
        decrypt_database(&cifrado, "otra"),
        Err("Decryption failed: wrong password or corrupted data".to_string())
    );
    let mut roto = cifrado.clone();
    roto[40] ^= 1;
    assert_eq!(
        decrypt_database(&roto, "contraseña-maestra"),
        Err("Decryption failed: wrong password or corrupted data".to_string())
    );
    // Two writes of the same thing do not look alike.
    assert_ne!(cifrado, encrypt_database(b"token", "contraseña-maestra").unwrap());
}

#[test]
fn lo_que_no_llega_a_base_se_dice() {
    assert_eq!(
        decrypt_database(&[0u8; 27], "x"),
        Err("Invalid encrypted data: too short".to_string())
    );
    assert_eq!(
        decrypt_database(&[0u8; 28], "x"),
        Err("Decryption failed: wrong password or corrupted data".to_string())
    );
}

#[test]
fn el_formato_es_sal_nonce_y_cifrado() {
    let sal = [1u8; 16];
    let nonce = [2u8; 12];
    let base = encrypt_database_with(b"hola", "pw", &sal, &nonce).unwrap();
    assert_eq!(&base[..16], &sal);
    assert_eq!(&base[16..28], &nonce);
    let mut clave = [0u8; 32];
    argon2::Argon2::default()
        .hash_password_into(b"pw", &sal, &mut clave)
        .unwrap();
    let cifra = aes_gcm::Aes256Gcm::new(aes_gcm::Key::<aes_gcm::Aes256Gcm>::from_slice(&clave));
    let abierto = cifra.decrypt(aes_gcm::Nonce::from_slice(&nonce), &base[28..]).unwrap();
    assert_eq!(abierto, b"hola");
}

#[test]
fn borrar_no_deja_nada() {
    let mut item = SecretItem {
        label: "l".into(),
        attributes: atributos(&[("a", "1")]),
        secret: vec![1, 2, 3],
    };
    let copia = item.clone();
    assert_eq!(copia.secret, vec![1, 2, 3]);
    assert_eq!(copia.attributes.get("a").map(|s| s.as_str()), Some("1"));
    item.zeroize();
    assert!(item.label.is_empty() && item.secret.is_empty());
    assert_eq!(item.attributes.len(), 0);
    let mut db = KeyringDatabase { items: vec![copia] };
    db.zeroize();
    assert!(db.items.is_empty());
}
