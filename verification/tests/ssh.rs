//! The passphrases of SSH keys.
use vasak_keyring::secret_service::{
    attributes, frase_guardada, recuerdo, tras_abrir, tras_buscar, tras_el_dialogo, tras_pedir_desbloqueo, Busqueda,
    Desbloqueo,
};
use vasak_keyring::ssh_askpass::{key_path_from, Request};

#[test]
fn reconoce_la_clave_en_los_dos_formatos() {
    assert_eq!(
        key_path_from("Enter passphrase for key '/home/pato/.ssh/id_ed25519': ").as_deref(),
        Some("/home/pato/.ssh/id_ed25519")
    );
    assert_eq!(
        key_path_from("Enter passphrase for /home/pato/.ssh/id_ed25519: ").as_deref(),
        Some("/home/pato/.ssh/id_ed25519")
    );
    assert_eq!(
        key_path_from("Introduzca la frase para /home/pato/.ssh/id_rsa:").as_deref(),
        Some("/home/pato/.ssh/id_rsa")
    );
}

#[test]
fn sin_ruta_no_inventa_una() {
    assert!(key_path_from("Are you sure you want to continue connecting?").is_none());
}

#[test]
fn el_nombre_para_el_dialogo_es_el_del_archivo() {
    let request = Request {
        prompt: String::new(),
        key_path: Some("/home/pato/.ssh/id_ed25519".into()),
    };
    assert_eq!(request.key_name(), "id_ed25519");
}

#[test]
fn las_comillas_que_no_llevan_una_ruta_no_cuentan() {
    assert_eq!(key_path_from("key 'abc' in /x/y : ").as_deref(), Some("/x/y"));
    assert_eq!(key_path_from("it's /a b/ñ:\u{a0}\n").as_deref(), Some("/a b/ñ"));
    assert_eq!(key_path_from("'' /z").as_deref(), Some("/z"));
    assert_eq!(key_path_from("/:").as_deref(), Some("/"));
    assert_eq!(key_path_from("/a::").as_deref(), Some("/a:"));
    assert_eq!(key_path_from(""), None);
}

#[test]
fn el_nombre_de_una_clave_sin_ruta_es_ssh() {
    let request = Request::de("Are you sure?".to_string());
    assert_eq!(request.key_name(), "SSH");
    assert!(request.a_recordar(true).is_none());
    let request = Request::de("for key '/a/': ".to_string());
    assert_eq!(request.key_path.as_deref(), Some("/a/"));
    assert_eq!(request.key_name(), "");
    assert!(request.a_recordar(false).is_none());
    let request = Request::de("for key '/a/ñ': ".to_string());
    assert_eq!(
        request.a_recordar(true),
        Some(("/a/ñ".to_string(), "Frase de la clave SSH ñ".to_string()))
    );
}

#[test]
fn una_frase_se_archiva_donde_los_demas_la_buscan() {
    let m = attributes("/home/pato/.ssh/id_rsa");
    assert_eq!(m.len(), 2);
    assert_eq!(
        m.get("unique").map(|s| s.as_str()),
        Some("ssh-store:/home/pato/.ssh/id_rsa")
    );
    assert_eq!(
        m.get("xdg:schema").map(|s| s.as_str()),
        Some("org.freedesktop.Secret.Generic")
    );
    let r = recuerdo("/k", "frase ñ", "etiqueta");
    assert_eq!(r.value, "frase ñ".as_bytes());
    assert_eq!(r.label, "etiqueta");
    assert_eq!(r.content_type, "text/plain");
    assert!(r.parameters.is_empty() && r.replace);
    assert!(attributes("/k").igual_a(&r.attributes));
    assert!(!attributes("/otra").dentro_de(&r.attributes));
    match frase_guardada(r.value) {
        Ok(s) => assert_eq!(s.as_str(), "frase ñ"),
        Err(e) => panic!("{e}"),
    }
    match frase_guardada(vec![0xff]) {
        Ok(_) => panic!("eso no es texto"),
        Err(e) => assert_eq!(e, "el secreto guardado no es texto"),
    }
}

#[test]
fn lo_que_sigue_a_una_busqueda() {
    let a = vec!["/a".to_string(), "/b".to_string()];
    let nada: Vec<String> = Vec::new();
    assert!(matches!(tras_buscar(&a, &nada), Busqueda::Leer(i) if i == "/a"));
    assert!(matches!(tras_buscar(&nada, &a), Busqueda::Abrir(i) if i == "/a"));
    assert!(matches!(tras_buscar(&nada, &nada), Busqueda::Nada));
    assert!(matches!(tras_pedir_desbloqueo(&a, "/"), Desbloqueo::Abierto));
    assert!(matches!(tras_pedir_desbloqueo(&nada, "/"), Desbloqueo::Cerrado));
    assert!(matches!(tras_pedir_desbloqueo(&nada, "/p"), Desbloqueo::Preguntar(p) if p == "/p"));
    assert_eq!(tras_abrir("/a".to_string(), true).as_deref(), Some("/a"));
    assert_eq!(tras_abrir("/a".to_string(), false), None);
    assert!(tras_el_dialogo(false));
    assert!(!tras_el_dialogo(true));
}
