use probador::{from_bytes, to_bytes, ConvertTest, TestData, TESTDATALEN};

fn ejemplo() -> TestData {
    TestData {
        programdo_test: true,
        verificado_test: true,
        abc: 7,
        z: 0b0110_0100,
        z_cont: 8,
        y: 0b1100_0101,
        y_cont: 8,
        tension1: 1.65f64.to_bits(),
        tension2: 0.1f64.to_bits(),
        tension3: 3.3f64.to_bits(),
        programdo_bueno: true,
        verificado_bueno: true,
    }
}

#[test]
fn default_es_vacio() {
    let d = TestData::default();
    assert_eq!(to_bytes(d), [0u8; TESTDATALEN]);
    assert!(!d.programdo_test && !d.verificado_test && !d.programdo_bueno && !d.verificado_bueno);
    assert_eq!(f64::from_bits(d.tension1), 0.0);
}

#[test]
fn formato_de_los_bytes() {
    let b = to_bytes(ejemplo());
    assert_eq!(b[0], 7);
    assert_eq!(&b[1..6], &[7, 0b0110_0100, 8, 0b1100_0101, 8]);
    assert_eq!(b[6..14], 1.65f64.to_be_bytes());
    assert_eq!(b[14..22], 0.1f64.to_be_bytes());
    assert_eq!(b[22..30], 3.3f64.to_be_bytes());
}

#[test]
fn byte_de_banderas() {
    let mut d = TestData::default();
    d.programdo_test = true;
    assert_eq!(to_bytes(d)[0], 1);
    d = TestData::default();
    d.verificado_test = true;
    assert_eq!(to_bytes(d)[0], 2);
    d = TestData::default();
    d.programdo_bueno = true;
    assert_eq!(to_bytes(d)[0], 3);
    d = TestData::default();
    d.verificado_bueno = true;
    assert_eq!(to_bytes(d)[0], 4);
}

#[test]
fn metodo_del_rasgo() {
    let d = ejemplo();
    assert_eq!(ConvertTest::to_bytes(&d), to_bytes(d));
}

#[test]
fn ida_y_vuelta() {
    let d = ejemplo();
    assert_eq!(from_bytes(&to_bytes(d)), d);
    let e = TestData::default();
    assert_eq!(from_bytes(&to_bytes(e)), e);
}

#[test]
fn programdo_bueno_se_lee_como_las_dos_banderas_de_test() {
    let mut d = TestData::default();
    d.programdo_bueno = true;
    let r = from_bytes(&to_bytes(d));
    assert!(r.programdo_test && r.verificado_test && r.programdo_bueno);
    let mut d = TestData::default();
    d.programdo_test = true;
    d.verificado_test = true;
    let r = from_bytes(&to_bytes(d));
    assert!(r.programdo_bueno);
}

#[test]
fn decodificar_ignora_lo_que_sobra() {
    let mut v = to_bytes(ejemplo()).to_vec();
    v.extend_from_slice(&[0xff; 10]);
    assert_eq!(from_bytes(&v), ejemplo());
}

#[test]
fn vuelta_conserva_tres_bits_de_banderas() {
    let mut b = [0u8; TESTDATALEN];
    for (k, x) in b.iter_mut().enumerate() {
        *x = (k as u8).wrapping_mul(37);
    }
    b[0] = 0xfd;
    let r = to_bytes(from_bytes(&b));
    assert_eq!(r[0], 0xfd & 7);
    assert_eq!(&r[1..], &b[1..]);
    b[0] = 5;
    assert_eq!(to_bytes(from_bytes(&b)), b);
}

#[test]
fn tensiones_en_flotante() {
    let d = from_bytes(&to_bytes(ejemplo()));
    assert_eq!(f64::from_bits(d.tension1), 1.65);
    assert_eq!(f64::from_bits(d.tension3), 3.3);
}

#[test]
fn igualdad_de_tensiones_como_numeros() {
    let mut a = TestData::default();
    let mut b = TestData::default();
    a.tension2 = 0.0f64.to_bits();
    b.tension2 = (-0.0f64).to_bits();
    assert_eq!(a, b);
    a.tension1 = f64::NAN.to_bits();
    assert_ne!(a, a);
    let mut c = TestData::default();
    c.tension3 = 3.3f64.to_bits();
    let mut d = TestData::default();
    d.tension3 = 3.3f64.to_bits();
    assert_eq!(c, d);
    d.tension3 = 3.2f64.to_bits();
    assert_ne!(c, d);
    d = c;
    d.abc = 1;
    assert_ne!(c, d);
}
