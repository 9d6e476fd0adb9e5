//! Text and the map keyed by it.
use vasak_keyring::mapa::Mapa;
use vasak_keyring::secreto::Secreto;
use vasak_keyring::texto::{blanco, en_decimal, igual, letras, texto_de};

#[test]
fn el_espacio_en_blanco_es_el_de_unicode() {
    for n in 0..=0x10FFFFu32 {
        if let Some(c) = char::from_u32(n) {
            assert_eq!(blanco(c), c.is_whitespace(), "{n:x}");
        }
    }
}

#[test]
fn los_numeros_se_escriben_en_decimal() {
    for n in [0, 9, 10, 99, 100, 12345, u64::MAX] {
        assert_eq!(en_decimal(n), n.to_string());
    }
}

#[test]
fn dos_textos_son_iguales_caracter_por_caracter() {
    assert!(igual("ñandú", "ñandú"));
    assert!(!igual("ñandú", "nandú"));
    assert!(!igual("a", "ab"));
    let v = letras("a€b");
    assert_eq!(v, vec!['a', '€', 'b']);
    assert_eq!(texto_de(&v, 1, 3), "€b");
}

#[test]
fn el_mapa_guarda_una_entrada_por_clave() {
    let mut m: Mapa<String> = Mapa::new();
    m.insert("a".into(), "1".into());
    m.insert("b".into(), "2".into());
    m.insert("a".into(), "3".into());
    assert_eq!(m.len(), 2);
    assert_eq!(m.clave(0), "a");
    assert_eq!(m.valor(0), "3");
    assert!(m.contains_key("b"));
    assert_eq!(m.remove("a"), Some("3".to_string()));
    assert_eq!(m.remove("a"), None);
    assert_eq!(m.len(), 1);
    assert!(m.get("a").is_none());
}

#[test]
fn un_secreto_se_lee_mientras_vive() {
    let s = Secreto::new("frase".to_string());
    let t = s.clone();
    drop(s);
    assert_eq!(t.as_str(), "frase");
}
