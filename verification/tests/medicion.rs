use probador::{
    abc_put, get_y, get_z, programar_y_verificar_bueno, programar_y_verificar_test, renglon,
    resultado_y, resultado_z, valor_adc, y_calculada, z_calculada, TestData,
};

fn bits(conv: u8) -> (bool, bool, bool) {
    (conv & 1 == 1, (conv >> 1) & 1 == 1, (conv >> 2) & 1 == 1)
}

#[test]
fn tabla_de_z() {
    let esperada = [false, false, true, false, false, true, true, false];
    for conv in 0u8..8 {
        let (a, b, c) = bits(conv);
        assert_eq!(z_calculada(conv), (a ^ b) & (b | c));
        assert_eq!(z_calculada(conv), esperada[conv as usize]);
    }
}

#[test]
fn tabla_de_y() {
    let esperada = [true, false, true, false, false, false, true, true];
    for conv in 0u8..8 {
        let (a, b, c) = bits(conv);
        assert_eq!(y_calculada(conv), !((!(a | c)) ^ (!(b & c))));
        assert_eq!(y_calculada(conv), esperada[conv as usize]);
    }
}

#[test]
fn get_z_anota_el_bit() {
    let mut d = TestData::default();
    assert!(get_z(&mut d, false, 0));
    assert!(get_z(&mut d, false, 1));
    assert!(!get_z(&mut d, false, 2));
    assert!(get_z(&mut d, true, 3) == false);
    assert_eq!(d.z_cont, 4);
    assert_eq!(d.z, 0b1000);
    assert_eq!(d.y, 0);
    assert_eq!(d.y_cont, 0);
}

#[test]
fn get_y_anota_el_bit() {
    let mut d = TestData::default();
    assert!(get_y(&mut d, true, 0));
    assert!(!get_y(&mut d, true, 1));
    assert_eq!(d.y, 0b11);
    assert_eq!(d.y_cont, 2);
    assert_eq!(d.z_cont, 0);
}

#[test]
fn get_z_conserva_bits_anteriores() {
    let mut d = TestData::default();
    d.z = 0b1;
    d.z_cont = 1;
    get_z(&mut d, false, 1);
    assert_eq!(d.z, 0b1);
    assert_eq!(d.z_cont, 2);
}

#[test]
fn abc_put_solo_cambia_abc() {
    let mut d = TestData::default();
    abc_put(5, &mut d);
    let mut e = TestData::default();
    e.abc = 5;
    assert_eq!(d, e);
}

#[test]
fn programar_anota_resultado() {
    let mut d = TestData::default();
    assert!(!programar_y_verificar_test(&mut d, false));
    assert!(d.programdo_test && !d.verificado_test);
    assert!(programar_y_verificar_bueno(&mut d, true));
    assert!(d.programdo_bueno && d.verificado_bueno);
}

#[test]
fn lectura_del_convertidor() {
    assert_eq!(valor_adc(0x12, 0x34), 0x1234);
    assert_eq!(valor_adc(0xff, 0xff), 0xffff);
    assert_eq!(valor_adc(0, 7), 7);
}

#[test]
fn colores_de_resultados() {
    let mut d = TestData::default();
    for conv in 0u8..8 {
        get_z(&mut d, z_calculada(conv), conv);
        get_y(&mut d, y_calculada(conv), conv);
    }
    for rect in 0u8..8 {
        assert!(resultado_z(&d, rect));
        assert!(resultado_y(&d, rect));
    }
    d.z ^= 0b100;
    assert!(!resultado_z(&d, 2));
    assert!(resultado_z(&d, 3));
}

#[test]
fn renglones_de_la_tabla() {
    let mut d = TestData::default();
    assert_eq!(renglon(5, &d), "|101|X|X|");
    d.z = 0b0010_0000;
    d.z_cont = 8;
    d.abc = 7;
    assert_eq!(renglon(5, &d), "|101|1|X|");
    d.y = 0b0010_0000;
    d.y_cont = 8;
    assert_eq!(renglon(5, &d), "|101|1|1|");
    assert_eq!(renglon(0, &d), "|000|0|0|");
    d.z_cont = 0;
    assert_eq!(renglon(5, &d), "");
}

#[test]
fn renglon_igual_al_formato() {
    let mut d = TestData::default();
    d.z = 0b1010_0110;
    d.y = 0b0101_1001;
    d.z_cont = 8;
    d.y_cont = 8;
    d.abc = 3;
    for i in 0u8..8 {
        let texto = format!("|{:03b}|{:1b}|{:1b}|", i, (d.z >> i) & 1, (d.y >> i) & 1);
        assert_eq!(renglon(i, &d), texto);
    }
}
