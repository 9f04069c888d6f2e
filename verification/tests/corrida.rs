use probador::{paso, y_calculada, z_calculada, Corrida, Evento, Paso, NUMERODEPRUEBAS};

fn evento_para(p: Paso, acierta: bool) -> Evento {
    match p {
        Paso::ProgramarTest | Paso::ProgramarBueno => Evento::Programado { verificado: true },
        Paso::MedirZ(k) => Evento::Medido(z_calculada(k) == acierta),
        Paso::MedirY(k) => Evento::Medido(y_calculada(k) == acierta),
        Paso::Adc(c) => Evento::Tensiones {
            tension1: (c as f64).to_bits(),
            tension2: 0,
            tension3: 0,
        },
        Paso::Ninguno => Evento::Nada,
    }
}

#[test]
fn calendario() {
    assert_eq!(paso(0), Paso::ProgramarTest);
    assert_eq!(paso(1), Paso::MedirZ(0));
    assert_eq!(paso(2), Paso::MedirY(0));
    assert_eq!(paso(15), Paso::MedirZ(7));
    assert_eq!(paso(16), Paso::MedirY(7));
    assert_eq!(paso(17), Paso::Adc(0));
    assert_eq!(paso(1017), Paso::Adc(1000));
    assert_eq!(paso(NUMERODEPRUEBAS), Paso::ProgramarBueno);
    assert_eq!(paso(NUMERODEPRUEBAS + 1), Paso::Ninguno);
}

#[test]
fn corrida_correcta() {
    let mut c = Corrida::nueva();
    while !c.terminada() {
        let p = c.paso_actual();
        c.avanzar(evento_para(p, true));
    }
    assert!(c.aprobado);
    let d = c.datos;
    assert_eq!(d.z_cont, 8);
    assert_eq!(d.y_cont, 8);
    assert_eq!(d.abc, 7);
    for k in 0u8..8 {
        assert_eq!((d.z >> k) & 1 == 1, z_calculada(k));
        assert_eq!((d.y >> k) & 1 == 1, y_calculada(k));
    }
    assert_eq!(f64::from_bits(d.tension1), 1000.0);
    assert!(d.programdo_test && d.verificado_test && d.programdo_bueno && d.verificado_bueno);
    assert_eq!(c.i, NUMERODEPRUEBAS + 1);
}

#[test]
fn corrida_con_una_salida_mala() {
    let mut c = Corrida::nueva();
    while !c.terminada() {
        let p = c.paso_actual();
        let acierta = p != Paso::MedirY(3);
        c.avanzar(evento_para(p, acierta));
    }
    assert!(!c.aprobado);
    assert_eq!((c.datos.y >> 3) & 1 == 1, !y_calculada(3));
}

#[test]
fn corrida_con_programacion_fallida() {
    let mut c = Corrida::nueva();
    c.avanzar(Evento::Programado { verificado: false });
    assert!(!c.aprobado);
    assert!(c.datos.programdo_test && !c.datos.verificado_test);
    assert_eq!(c.paso_actual(), Paso::MedirZ(0));
    c.avanzar(Evento::Medido(false));
    assert_eq!(c.datos.z_cont, 1);
    assert_eq!(c.datos.abc, 0);
}

#[test]
fn registros_enviados_solo_avanzan() {
    let mut c = Corrida::nueva();
    let mut anterior = c.datos;
    while !c.terminada() {
        let p = c.paso_actual();
        let acierta = p != Paso::MedirZ(2);
        c.avanzar(evento_para(p, acierta));
        let d = c.datos;
        assert!(anterior.abc <= d.abc);
        assert!(anterior.z_cont <= d.z_cont && anterior.y_cont <= d.y_cont);
        assert!(d.y_cont <= d.z_cont && d.z_cont <= d.y_cont + 1 && d.z_cont <= 8);
        assert_eq!((d.z as u16) >> d.z_cont, 0);
        assert_eq!((d.y as u16) >> d.y_cont, 0);
        assert!(!anterior.programdo_test || d.programdo_test);
        for k in 0..anterior.z_cont {
            assert_eq!((d.z >> k) & 1, (anterior.z >> k) & 1);
        }
        for k in 0..anterior.y_cont {
            assert_eq!((d.y >> k) & 1, (anterior.y >> k) & 1);
        }
        anterior = d;
    }
}
