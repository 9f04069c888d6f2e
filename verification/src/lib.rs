//! Bench tester for a programmed PIC board: the record of one test run,
//! its 30-byte wire format, the schedule of a run and the checks made on
//! what the board answers.
//!
//! The bench itself (GPIO lines, the I2C converter, the programmer tool,
//! the results screen) is driven by the caller, which hands this library
//! what it observed.

pub mod corrida;
pub mod datos;
pub mod funciones_internas;
pub mod medicion;
pub mod programacion;

pub use corrida::{paso, Corrida, Evento, Paso, NUMERODEPRUEBAS};
pub use datos::{TestData, TESTDATALEN};
pub use funciones_internas::{
    decidir_consulta, decidir_espera, esperar, from_bytes, to_bytes, ver_estado, Consulta,
    ConvertTest, PausaPerdida,
};
pub use medicion::{
    abc_put, get_y, get_z, programar_y_verificar_bueno, programar_y_verificar_test, renglon,
    resultado_y, resultado_z, valor_adc, y_calculada, z_calculada,
};
pub use programacion::{contiene_bytes, programacion_aprobada};
