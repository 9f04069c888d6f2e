use probador::{contiene_bytes, programacion_aprobada};

#[test]
fn busqueda_de_bytes() {
    assert!(contiene_bytes(b"abcdef", b"cde"));
    assert!(contiene_bytes(b"abcdef", b"abcdef"));
    assert!(contiene_bytes(b"abcdef", b""));
    assert!(contiene_bytes(b"", b""));
    assert!(!contiene_bytes(b"abcdef", b"ce"));
    assert!(!contiene_bytes(b"abc", b"abcd"));
    assert!(contiene_bytes(b"aaab", b"aab"));
    assert!(contiene_bytes(b"xyz", b"z"));
}

#[test]
fn programacion_buena() {
    assert!(programacion_aprobada(
        "Device ID 0x3020",
        "Blank device: y",
        "Program OK",
        "Pass: 2048 Fail: 0"
    ));
}

#[test]
fn programacion_con_error_de_lectura() {
    let error = "pic16_read_config_memory: error";
    assert!(!programacion_aprobada(error, "", "", "Fail: 0"));
    assert!(!programacion_aprobada("", error, "", "Fail: 0"));
    assert!(!programacion_aprobada("", "", error, "Fail: 0"));
}

#[test]
fn verificacion_fallida() {
    assert!(!programacion_aprobada("", "", "", "Pass: 2000 Fail: 48"));
    assert!(!programacion_aprobada("", "", "", ""));
}
