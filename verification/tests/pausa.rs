use probador::{decidir_consulta, decidir_espera, esperar, ver_estado, Consulta, PausaPerdida};
use std::sync::mpsc::channel;

#[test]
fn decisiones() {
    assert_eq!(decidir_consulta(Consulta::Mensaje(true)), Ok(true));
    assert_eq!(decidir_consulta(Consulta::Mensaje(false)), Ok(false));
    assert_eq!(decidir_consulta(Consulta::Vacio), Ok(false));
    assert_eq!(decidir_consulta(Consulta::Desconectado), Err(PausaPerdida::AlConsultar));
    assert_eq!(decidir_espera(Some(true)), Ok(true));
    assert_eq!(decidir_espera(Some(false)), Ok(false));
    assert_eq!(decidir_espera(None), Err(PausaPerdida::AlEsperar));
}

#[test]
fn canal_vacio_sigue() {
    let (_tx, rx) = channel::<bool>();
    assert_eq!(ver_estado(&rx), Ok(false));
}

#[test]
fn pausa_y_reanudacion() {
    let (tx, rx) = channel::<bool>();
    tx.send(true).unwrap();
    tx.send(true).unwrap();
    tx.send(false).unwrap();
    assert_eq!(ver_estado(&rx), Ok(true));
    assert_eq!(esperar(&rx), Ok(true));
    assert_eq!(esperar(&rx), Ok(false));
    assert_eq!(ver_estado(&rx), Ok(false));
}

#[test]
fn canal_cerrado() {
    let (tx, rx) = channel::<bool>();
    drop(tx);
    assert_eq!(ver_estado(&rx), Err(PausaPerdida::AlConsultar));
    assert_eq!(esperar(&rx), Err(PausaPerdida::AlEsperar));
}
