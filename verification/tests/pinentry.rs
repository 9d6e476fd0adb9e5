//! The conversation with `gpg-agent`.
use vasak_keyring::pinentry::{
    codificar, contestar, decodificar, interpretar, modo_del_dialogo, respuesta_a_confirm,
    respuesta_a_getpin, respuesta_del_dialogo, saludo, siguiente, Accion, Identidad, Paso, Pedido,
    Pregunta, CANCELADO, NO_CONFIRMADO, ORDEN_DESCONOCIDA, PARAMETRO_DESCONOCIDO,
};
use vasak_keyring::secreto::Secreto;

fn texto(lineas: &[Secreto]) -> Vec<String> {
    lineas.iter().map(|l| l.as_str().to_string()).collect()
}

fn yo() -> Identidad {
    Identidad { version: "0.3.0".to_string(), pid: 1114645 }
}

fn interpretar_solo(linea: &str) -> Accion {
    let mut pedido = Pedido::default();
    interpretar(linea, &mut pedido, &yo())
}

#[test]
fn la_conversacion_tiene_la_forma_que_el_agente_espera() {
    assert!(saludo(1114645).starts_with("OK Pleased to meet you, process "));
    assert_eq!(saludo(1114645), "OK Pleased to meet you, process 1114645");

    let mut pedido = Pedido::default();
    assert_eq!(
        interpretar("SETDESC hola", &mut pedido, &yo()),
        Accion::Responder(vec!["OK".into()])
    );
    assert_eq!(pedido.descripcion, "hola");

    match interpretar("GETINFO version", &mut pedido, &yo()) {
        Accion::Responder(lineas) => {
            assert!(lineas[0].starts_with("D "), "{lineas:?}");
            assert_eq!(lineas[1], "OK");
        }
        otra => panic!("{otra:?}"),
    }

    assert_eq!(interpretar("BYE", &mut pedido, &yo()), Accion::Terminar);
}

#[test]
fn los_codigos_de_error_son_los_que_gpg_compara() {
    assert_eq!(CANCELADO, "ERR 83886179 Operation cancelled <Pinentry>");
    assert_eq!(0x0500_0063, 83886179);
    assert_eq!(NO_CONFIRMADO, "ERR 83886194 Not confirmed <Pinentry>");
    assert_eq!(0x0500_0072, 83886194);
}

#[test]
fn lo_que_no_se_entiende_se_contesta_como_lo_hace_el_de_verdad() {
    assert_eq!(0x2000_0000 | 275, 536871187);
    assert_eq!(
        interpretar_solo("BAILAR"),
        Accion::Responder(vec![ORDEN_DESCONOCIDA.into()])
    );
    assert_eq!(0x0500_0000 | 280, 83886360);
    assert_eq!(
        interpretar_solo("GETINFO cualquiera"),
        Accion::Responder(vec![PARAMETRO_DESCONOCIDO.into()])
    );
}

#[test]
fn getpin_pide_la_frase_y_confirm_pregunta_si_o_no() {
    assert_eq!(interpretar_solo("GETPIN"), Accion::PedirFrase);
    assert_eq!(
        interpretar_solo("CONFIRM"),
        Accion::Confirmar { una_sola_opcion: false }
    );
    assert_eq!(
        interpretar_solo("CONFIRM --one-button"),
        Accion::Confirmar { una_sola_opcion: true }
    );
    assert_eq!(interpretar_solo("MESSAGE"), Accion::Mostrar);
}

#[test]
fn la_frase_viaja_codificada() {
    assert_eq!(
        texto(&respuesta_a_getpin(Some("100% seguro"))),
        vec!["D 100%25 seguro".to_string(), "OK".to_string()]
    );
    assert_eq!(
        texto(&respuesta_a_getpin(Some("dos\nlineas"))),
        vec!["D dos%0Alineas".to_string(), "OK".to_string()]
    );
    for frase in ["simple", "100% seguro", "con\nsalto", "con\r\nlos dos", "ñandú €"] {
        assert_eq!(decodificar(&codificar(frase)), frase);
    }
}

#[test]
fn cancelar_no_es_una_frase_vacia() {
    assert_eq!(texto(&respuesta_a_getpin(None)), vec![CANCELADO.to_string()]);
    assert_eq!(
        texto(&respuesta_a_getpin(Some(""))),
        vec!["D ".to_string(), "OK".to_string()]
    );
}

#[test]
fn confirmar_o_no_tienen_respuestas_distintas() {
    assert_eq!(respuesta_a_confirm(true), vec!["OK".to_string()]);
    assert_eq!(respuesta_a_confirm(false), vec![NO_CONFIRMADO.to_string()]);
}

#[test]
fn el_texto_del_agente_se_decodifica() {
    let mut pedido = Pedido::default();
    interpretar("SETDESC Clave%20de%20Pato%0A100%25", &mut pedido, &yo());
    assert_eq!(pedido.descripcion, "Clave de Pato\n100%");
}

#[test]
fn un_porcentaje_suelto_no_se_pierde() {
    assert_eq!(decodificar("100% seguro"), "100% seguro");
    assert_eq!(decodificar("termina en %"), "termina en %");
    assert_eq!(decodificar("%zz no es hexa"), "%zz no es hexa");
}

#[test]
fn reset_borra_el_pedido_anterior() {
    let mut pedido = Pedido::default();
    interpretar("SETDESC vieja", &mut pedido, &yo());
    interpretar("SETERROR se equivocó", &mut pedido, &yo());
    interpretar("SETKEYINFO n/deadbeef", &mut pedido, &yo());
    assert_eq!(pedido.error, "se equivocó");
    interpretar("RESET", &mut pedido, &yo());
    assert_eq!(pedido.descripcion, "");
    assert_eq!(pedido.error, "");
    assert_eq!(pedido.clave, "");
}

#[test]
fn limpiar_deja_el_pedido_como_recien_empezado() {
    let mut pedido = Pedido::default();
    interpretar("SETTITLE GPG", &mut pedido, &yo());
    interpretar("SETPROMPT Frase", &mut pedido, &yo());
    assert_eq!(pedido.titulo, "GPG");
    assert_eq!(pedido.etiqueta, "Frase");
    pedido.limpiar();
    assert_eq!(pedido.titulo, "");
    assert_eq!(pedido.etiqueta, "");
}

#[test]
fn las_opciones_se_aceptan_y_las_ordenes_raras_no() {
    for opcion in [
        "OPTION ttyname=/dev/pts/3",
        "OPTION lc-messages=es_AR.UTF-8",
        "OPTION allow-external-password-cache",
        "SETQUALITYBAR",
        "SETTIMEOUT 60",
        "NOP",
    ] {
        assert_eq!(
            interpretar_solo(opcion),
            Accion::Responder(vec!["OK".into()]),
            "{opcion}"
        );
    }

    match interpretar_solo("BAILAR") {
        Accion::Responder(lineas) => assert!(lineas[0].starts_with("ERR "), "{lineas:?}"),
        otra => panic!("{otra:?}"),
    }
}

#[test]
fn la_orden_puede_venir_en_minuscula() {
    assert_eq!(interpretar_solo("getpin"), Accion::PedirFrase);
    assert_eq!(interpretar_solo("Bye"), Accion::Terminar);
}

#[test]
fn las_lineas_sucias_no_rompen() {
    assert_eq!(interpretar_solo(""), Accion::Responder(vec!["OK".into()]));
    assert_eq!(interpretar_solo("GETPIN\r\n"), Accion::PedirFrase);
    assert_eq!(interpretar_solo("GETPIN\n"), Accion::PedirFrase);
}

#[test]
fn ninguna_respuesta_lleva_un_salto_adentro() {
    let mut candidatas = vec![saludo(1), CANCELADO.to_string(), NO_CONFIRMADO.to_string()];
    candidatas.extend(texto(&respuesta_a_getpin(Some("con\nsalto\r\ny retorno"))));
    candidatas.extend(respuesta_a_confirm(false));
    if let Accion::Responder(lineas) = interpretar_solo("GETINFO version") {
        candidatas.extend(lineas);
    }
    for linea in candidatas {
        assert!(!linea.contains('\n'), "{linea:?}");
        assert!(!linea.contains('\r'), "{linea:?}");
    }
}

#[test]
fn getinfo_cuenta_quien_es() {
    assert_eq!(
        interpretar_solo("GETINFO version"),
        Accion::Responder(vec!["D 0.3.0".into(), "OK".into()])
    );
    assert_eq!(
        interpretar_solo("GETINFO pid"),
        Accion::Responder(vec!["D 1114645".into(), "OK".into()])
    );
    assert_eq!(
        interpretar_solo("GETINFO   flavor  "),
        Accion::Responder(vec!["D vasak".into(), "OK".into()])
    );
    let raro = Identidad { version: "1%\n2".to_string(), pid: 0 };
    let mut pedido = Pedido::default();
    assert_eq!(
        interpretar("GETINFO version", &mut pedido, &raro),
        Accion::Responder(vec!["D 1%25%0A2".into(), "OK".into()])
    );
}

#[test]
fn la_opcion_de_confirmar_es_una_palabra_entera() {
    for (linea, esperado) in [
        ("CONFIRM  x --one-button y", true),
        ("CONFIRM --one-buttons", false),
        ("CONFIRM x--one-button", false),
        ("CONFIRM a\t--one-button", true),
        ("CONFIRM --one-butto", false),
    ] {
        assert_eq!(
            interpretar_solo(linea),
            Accion::Confirmar { una_sola_opcion: esperado },
            "{linea}"
        );
    }
}

#[test]
fn lo_que_no_es_utf8_se_lee_con_reemplazos() {
    assert_eq!(decodificar("%FF"), "\u{fffd}");
    assert_eq!(decodificar("a%C3%B1o"), "año");
    assert_eq!(decodificar("%c3x"), "\u{fffd}x");
    // A sign is not a digit, so these are not escapes.
    assert_eq!(decodificar("%+f"), "%+f");
    assert_eq!(decodificar("%+5"), "%+5");
    assert_eq!(decodificar("%-1"), "%-1");
}

#[test]
fn cada_accion_lleva_a_su_paso() {
    assert!(matches!(
        siguiente(Accion::PedirFrase),
        Paso::Preguntar(Pregunta::Frase)
    ));
    assert!(matches!(
        siguiente(Accion::Confirmar { una_sola_opcion: true }),
        Paso::Preguntar(Pregunta::AvisoConfirmado)
    ));
    assert!(matches!(
        siguiente(Accion::Confirmar { una_sola_opcion: false }),
        Paso::Preguntar(Pregunta::Confirmacion)
    ));
    assert!(matches!(
        siguiente(Accion::Mostrar),
        Paso::Preguntar(Pregunta::Aviso)
    ));
    match siguiente(Accion::Terminar) {
        Paso::Despedirse(l) => assert_eq!(l, "OK closing connection"),
        _ => panic!("terminar se despide"),
    }
    match siguiente(Accion::Responder(vec!["OK".into()])) {
        Paso::Decir(l) => assert_eq!(l, vec!["OK".to_string()]),
        _ => panic!("una respuesta se dice"),
    }
    assert_eq!(Pregunta::Frase.modo(), "frase");
    assert_eq!(Pregunta::Confirmacion.modo(), "confirmar");
    assert_eq!(Pregunta::AvisoConfirmado.modo(), "aviso");
    assert_eq!(Pregunta::Aviso.modo(), "aviso");
}

#[test]
fn cada_dialogo_se_contesta_a_su_manera() {
    assert_eq!(texto(&contestar(Pregunta::Frase, Some("a%"))), vec!["D a%25", "OK"]);
    assert_eq!(texto(&contestar(Pregunta::Frase, None)), vec![CANCELADO]);
    assert_eq!(texto(&contestar(Pregunta::Confirmacion, Some(""))), vec!["OK"]);
    assert_eq!(texto(&contestar(Pregunta::Confirmacion, None)), vec![NO_CONFIRMADO]);
    assert_eq!(texto(&contestar(Pregunta::AvisoConfirmado, None)), vec![NO_CONFIRMADO]);
    assert_eq!(texto(&contestar(Pregunta::Aviso, None)), vec!["OK"]);
}

#[test]
fn la_respuesta_del_dialogo_pierde_solo_el_fin_de_linea() {
    let leida = respuesta_del_dialogo(true, Some("una frase \r\n"));
    assert_eq!(leida.map(|s| s.as_str().to_string()), Some("una frase ".to_string()));
    let vacia = respuesta_del_dialogo(true, Some("\n"));
    assert_eq!(vacia.map(|s| s.as_str().to_string()), Some(String::new()));
    assert!(respuesta_del_dialogo(false, Some("algo\n")).is_none());
    assert!(respuesta_del_dialogo(true, None).is_none());
    assert_eq!(modo_del_dialogo(""), "frase");
    assert_eq!(modo_del_dialogo("aviso"), "aviso");
}
