use vstd::prelude::*;

use crate::datos::{registro_vacio, TestData};
use crate::medicion::{
    abc_put, bit, con_y, con_z, get_y, get_z, ley_anotar_y, ley_anotar_z,
    programar_y_verificar_bueno, programar_y_verificar_test, registro_valido, y_esperada,
    z_esperada,
};

verus! {

/// Index of the last step of a run; a run has steps `0..=NUMERODEPRUEBAS`.
pub const NUMERODEPRUEBAS: usize = 1018;

/// What the bench does at one step of a run.
#[derive(Clone, Copy, Debug, PartialEq, Eq, Structural)]
pub enum Paso {
    /// Program and verify the test firmware.
    ProgramarTest,
    /// Put the input combination on the board and read its Z output.
    MedirZ(u8),
    /// Read the Y output for the input combination (already on the board).
    MedirY(u8),
    /// Take a voltage reading; the argument counts the readings before it.
    Adc(usize),
    /// Program and verify the final firmware.
    ProgramarBueno,
    /// Nothing (past the end of a run).
    Ninguno,
}

/// The step at index `i` of a run: the test firmware first, then for each
/// input combination 0..8 its Z and then its Y output, then 1001 voltage
/// readings, then the final firmware.
pub open spec fn paso_spec(i: int) -> Paso {
    if i == 0 {
        Paso::ProgramarTest
    } else if 1 <= i <= 16 && i % 2 == 1 {
        Paso::MedirZ((i / 2) as u8)
    } else if 1 <= i <= 16 {
        Paso::MedirY((i / 2 - 1) as u8)
    } else if 17 <= i <= 1017 {
        Paso::Adc((i - 17) as usize)
    } else if i == NUMERODEPRUEBAS {
        Paso::ProgramarBueno
    } else {
        Paso::Ninguno
    }
}

/// The step at index `i` of a run.
pub fn paso(i: usize) -> (p: Paso)
    ensures
        p == paso_spec(i as int),
{
    if i == 0 {
        Paso::ProgramarTest
    } else if 1 <= i && i <= 16 && i % 2 == 1 {
        Paso::MedirZ((i / 2) as u8)
    } else if 1 <= i && i <= 16 {
        Paso::MedirY((i / 2 - 1) as u8)
    } else if 17 <= i && i <= 1017 {
        Paso::Adc(i - 17)
    } else if i == NUMERODEPRUEBAS {
        Paso::ProgramarBueno
    } else {
        Paso::Ninguno
    }
}

/// What the bench observed while doing a step.
#[derive(Clone, Copy, Debug, PartialEq, Eq, Structural)]
pub enum Evento {
    /// A firmware was programmed; whether it verified.
    Programado { verificado: bool },
    /// The output that was read.
    Medido(bool),
    /// The running mean of each voltage, as `f64` bit patterns.
    Tensiones { tension1: u64, tension2: u64, tension3: u64 },
    /// Nothing was done.
    Nada,
}

/// Whether `e` is what doing step `p` observes.
pub open spec fn corresponde(p: Paso, e: Evento) -> bool {
    match p {
        Paso::ProgramarTest | Paso::ProgramarBueno => e is Programado,
        Paso::MedirZ(_) | Paso::MedirY(_) => e is Medido,
        Paso::Adc(_) => e is Tensiones,
        Paso::Ninguno => e is Nada,
    }
}

/// Whether observing `e` at step `p` passes the test.
pub open spec fn paso_aprobado(p: Paso, e: Evento) -> bool {
    match (p, e) {
        (Paso::ProgramarTest, Evento::Programado { verificado }) => verificado,
        (Paso::ProgramarBueno, Evento::Programado { verificado }) => verificado,
        (Paso::MedirZ(k), Evento::Medido(m)) => m == z_esperada(k),
        (Paso::MedirY(k), Evento::Medido(m)) => m == y_esperada(k),
        _ => true,
    }
}

/// The record after observing `e` at step `p`.
pub open spec fn datos_tras(p: Paso, e: Evento, d: TestData) -> TestData {
    match (p, e) {
        (Paso::ProgramarTest, Evento::Programado { verificado }) => TestData {
            programdo_test: true,
            verificado_test: verificado,
            ..d
        },
        (Paso::ProgramarBueno, Evento::Programado { verificado }) => TestData {
            programdo_bueno: true,
            verificado_bueno: verificado,
            ..d
        },
        (Paso::MedirZ(k), Evento::Medido(m)) => con_z(TestData { abc: k, ..d }, m),
        (Paso::MedirY(_), Evento::Medido(m)) => con_y(d, m),
        (Paso::Adc(_), Evento::Tensiones { tension1, tension2, tension3 }) => TestData {
            tension1,
            tension2,
            tension3,
            ..d
        },
        _ => d,
    }
}

/// Number of Z outputs read before step `i`.
pub open spec fn z_hechas(i: int) -> int {
    if i / 2 < 8 {
        i / 2
    } else {
        8
    }
}

/// Number of Y outputs read before step `i`.
pub open spec fn y_hechas(i: int) -> int {
    if i <= 0 {
        0
    } else if (i - 1) / 2 < 8 {
        (i - 1) / 2
    } else {
        8
    }
}

/// The input combination on the board before step `i`: the one whose Z
/// output was read last, 0 before any.
pub open spec fn abc_puesta(i: int) -> int {
    if z_hechas(i) == 0 {
        0
    } else {
        z_hechas(i) - 1
    }
}

/// One run of the bench test: the index of the next step, whether every
/// check so far passed, and the record that is sent out after each step.
#[derive(Clone, Copy, Debug)]
pub struct Corrida {
    pub i: usize,
    pub aprobado: bool,
    pub datos: TestData,
}

impl Corrida {
    /// The run is consistent: its record holds one measurement of each
    /// output per measuring step done, and nothing else.
    pub open spec fn bien_formada(self) -> bool {
        &&& self.i <= NUMERODEPRUEBAS + 1
        &&& registro_valido(self.datos)
        &&& self.datos.z_cont == z_hechas(self.i as int)
        &&& self.datos.y_cont == y_hechas(self.i as int)
        &&& self.datos.abc == abc_puesta(self.i as int)
    }

    /// The run after observing `e` at its next step.
    pub open spec fn tras(self, e: Evento) -> Corrida {
        let p = paso_spec(self.i as int);
        Corrida {
            i: (self.i + 1) as usize,
            aprobado: self.aprobado && paso_aprobado(p, e),
            datos: datos_tras(p, e, self.datos),
        }
    }

    /// A run that has done nothing yet.
    pub open spec fn inicial() -> Corrida {
        Corrida { i: 0, aprobado: true, datos: registro_vacio() }
    }

    /// Starts a run.
    pub fn nueva() -> (r: Corrida)
        ensures
            r == Corrida::inicial(),
            r.bien_formada(),
    {
        let r = Corrida { i: 0, aprobado: true, datos: TestData::default() };
        assert(0u8 >> 0u8 == 0u8) by (bit_vector);
        r
    }

    /// The next step to do.
    pub fn paso_actual(&self) -> (p: Paso)
        ensures
            p == paso_spec(self.i as int),
    {
        paso(self.i)
    }

    /// Whether every step of the run was done.
    pub fn terminada(&self) -> (r: bool)
        ensures
            r == (self.i > NUMERODEPRUEBAS),
    {
        self.i > NUMERODEPRUEBAS
    }

    /// Takes in what the bench observed at the next step.
    pub fn avanzar(&mut self, e: Evento)
        requires
            old(self).bien_formada(),
            old(self).i <= NUMERODEPRUEBAS,
            corresponde(paso_spec(old(self).i as int), e),
        ensures
            *final(self) == old(self).tras(e),
            final(self).bien_formada(),
            final(self).i == old(self).i + 1,
            final(self).aprobado ==> old(self).aprobado,
            paso_spec(old(self).i as int) is ProgramarTest || paso_spec(old(self).i as int) is ProgramarBueno
                ==> final(self).aprobado == (old(self).aprobado && verificada(e)),
            paso_spec(old(self).i as int) matches Paso::MedirZ(k) ==> final(self).aprobado == (
            old(self).aprobado && medida(e) == z_esperada(k)),
            paso_spec(old(self).i as int) matches Paso::MedirY(k) ==> final(self).aprobado == (
            old(self).aprobado && medida(e) == y_esperada(k)),
            paso_spec(old(self).i as int) is Adc ==> (
            final(self).datos.tension1,
            final(self).datos.tension2,
            final(self).datos.tension3,
            ) == tensiones(e),
    {
        let p = paso(self.i);
        proof {
            ley_paso(*self, e);
        }
        match p {
            Paso::ProgramarTest => {
                if let Evento::Programado { verificado } = e {
                    let ok = programar_y_verificar_test(&mut self.datos, verificado);
                    self.aprobado = self.aprobado && ok;
                }
            },
            Paso::MedirZ(k) => {
                if let Evento::Medido(m) = e {
                    abc_put(k, &mut self.datos);
                    let ok = get_z(&mut self.datos, m, k);
                    self.aprobado = self.aprobado && ok;
                }
            },
            Paso::MedirY(k) => {
                if let Evento::Medido(m) = e {
                    let ok = get_y(&mut self.datos, m, k);
                    self.aprobado = self.aprobado && ok;
                }
            },
            Paso::Adc(_) => {
                if let Evento::Tensiones { tension1, tension2, tension3 } = e {
                    self.datos.tension1 = tension1;
                    self.datos.tension2 = tension2;
                    self.datos.tension3 = tension3;
                }
            },
            Paso::ProgramarBueno => {
                if let Evento::Programado { verificado } = e {
                    let ok = programar_y_verificar_bueno(&mut self.datos, verificado);
                    self.aprobado = self.aprobado && ok;
                }
            },
            Paso::Ninguno => {},
        }
        self.i = self.i + 1;
    }
}

/// One step of a consistent run keeps it consistent and only moves
/// forward: the input combination, the two counts and the firmware flags
/// never go back, the bits already recorded stay as they were, and a
/// measuring step records what it read at the bit of its count.
pub proof fn ley_paso(c: Corrida, e: Evento)
    requires
        c.bien_formada(),
        c.i <= NUMERODEPRUEBAS,
        corresponde(paso_spec(c.i as int), e),
    ensures
        ({
            let d = c.datos;
            let d2 = c.tras(e).datos;
            &&& c.tras(e).bien_formada()
            &&& d.abc <= d2.abc
            &&& d.z_cont <= d2.z_cont
            &&& d.y_cont <= d2.y_cont
            &&& d2.y_cont <= d2.z_cont <= d2.y_cont + 1
            &&& d.programdo_test ==> d2.programdo_test
            &&& d.programdo_bueno ==> d2.programdo_bueno
            &&& forall|k: u8| k < d.z_cont ==> bit(d2.z, k) == bit(d.z, k)
            &&& forall|k: u8| k < d.y_cont ==> bit(d2.y, k) == bit(d.y, k)
            &&& paso_spec(c.i as int) is MedirZ ==> bit(d2.z, d.z_cont) == medida(e)
            &&& paso_spec(c.i as int) is MedirY ==> bit(d2.y, d.y_cont) == medida(e)
        }),
{
    let p = paso_spec(c.i as int);
    if p is MedirZ {
        ley_anotar_z(TestData { abc: p->MedirZ_0, ..c.datos }, e->Medido_0);
    }
    if p is MedirY {
        ley_anotar_y(c.datos, e->Medido_0);
    }
}

/// The schedule of a run: the test firmware is programmed first and the
/// final one last, the Z output of input combination `k` is read at step
/// `2k + 1` and its Y output right after it, the `c`-th voltage reading is
/// step `c + 17`, and no two steps of a run do the same thing.
pub proof fn ley_calendario()
    ensures
        paso_spec(0) == Paso::ProgramarTest,
        paso_spec(NUMERODEPRUEBAS as int) == Paso::ProgramarBueno,
        forall|k: u8|
            #![trigger paso_spec(2 * k + 1)]
            k < 8 ==> paso_spec(2 * k + 1) == Paso::MedirZ(k) && paso_spec(2 * k + 2)
                == Paso::MedirY(k),
        forall|c: usize| #![trigger paso_spec(c + 17)] c <= 1000 ==> paso_spec(c + 17) == Paso::Adc(c),
        forall|i: int, j: int|
            0 <= i <= NUMERODEPRUEBAS && 0 <= j <= NUMERODEPRUEBAS && #[trigger] paso_spec(i)
                == #[trigger] paso_spec(j) ==> i == j,
{
}

/// What a step observed that was read from the board: the output read.
pub open spec fn medida(e: Evento) -> bool {
    match e {
        Evento::Medido(m) => m,
        _ => false,
    }
}

/// Whether a firmware that was programmed verified.
pub open spec fn verificada(e: Evento) -> bool {
    match e {
        Evento::Programado { verificado } => verificado,
        _ => false,
    }
}

/// The run after observing `eventos`, one per step, from its start.
pub open spec fn correr(eventos: Seq<Evento>) -> Corrida
    decreases eventos.len(),
{
    if eventos.len() == 0 {
        Corrida::inicial()
    } else {
        correr(eventos.drop_last()).tras(eventos.last())
    }
}

/// `eventos` are what the first steps of a run observe, one per step.
pub open spec fn eventos_validos(eventos: Seq<Evento>) -> bool {
    &&& eventos.len() <= NUMERODEPRUEBAS + 1
    &&& forall|j: int| 0 <= j < eventos.len() ==> corresponde(paso_spec(j), #[trigger] eventos[j])
}

/// A run holds what it observed: after any number of its steps, bit `k`
/// of `z` (of `y`) is the Z (Y) output read for input combination `k`,
/// for each combination whose output was read, the firmware flags are the
/// programming results, and the run is passed exactly when every step
/// passed its check.
pub proof fn ley_corrida(eventos: Seq<Evento>)
    requires
        eventos_validos(eventos),
    ensures
        ({
            let r = correr(eventos);
            let n = eventos.len() as int;
            &&& r.i == n
            &&& r.bien_formada()
            &&& forall|k: u8|
                k < z_hechas(n) ==> bit(r.datos.z, k) == medida(#[trigger] eventos[2 * k + 1])
            &&& forall|k: u8|
                k < y_hechas(n) ==> bit(r.datos.y, k) == medida(#[trigger] eventos[2 * k + 2])
            &&& r.datos.programdo_test == (n >= 1)
            &&& r.datos.verificado_test == (n >= 1 && verificada(eventos[0]))
            &&& r.datos.programdo_bueno == (n == NUMERODEPRUEBAS + 1)
            &&& r.datos.verificado_bueno == (n == NUMERODEPRUEBAS + 1 && verificada(
                eventos[NUMERODEPRUEBAS as int],
            ))
            &&& r.aprobado == forall|j: int|
                0 <= j < n ==> paso_aprobado(paso_spec(j), #[trigger] eventos[j])
        }),
    decreases eventos.len(),
{
    let n = eventos.len() as int;
    if n == 0 {
        assert(0u8 >> 0u8 == 0u8) by (bit_vector);
        return;
    }
    let previos = eventos.drop_last();
    let e = eventos.last();
    assert(eventos_validos(previos)) by {
        assert forall|j: int| 0 <= j < previos.len() implies corresponde(
            paso_spec(j),
            #[trigger] previos[j],
        ) by {
            assert(previos[j] == eventos[j]);
        }
    }
    ley_corrida(previos);
    let r0 = correr(previos);
    let r = correr(eventos);
    assert(r == r0.tras(e));
    assert(corresponde(paso_spec(n - 1), eventos[n - 1]));
    ley_paso(r0, e);
    let p = paso_spec(n - 1);
    assert forall|k: u8| k < z_hechas(n) implies bit(r.datos.z, k) == medida(
        #[trigger] eventos[2 * k + 1],
    ) by {
        if k < z_hechas(n - 1) {
            assert(previos[2 * k + 1] == eventos[2 * k + 1]);
        }
    }
    assert forall|k: u8| k < y_hechas(n) implies bit(r.datos.y, k) == medida(
        #[trigger] eventos[2 * k + 2],
    ) by {
        if k < y_hechas(n - 1) {
            assert(previos[2 * k + 2] == eventos[2 * k + 2]);
        }
    }
    if n >= 2 {
        assert(previos[0] == eventos[0]);
    }
    let todos = forall|j: int| 0 <= j < n ==> paso_aprobado(paso_spec(j), #[trigger] eventos[j]);
    let todos0 = forall|j: int|
        0 <= j < n - 1 ==> paso_aprobado(paso_spec(j), #[trigger] previos[j]);
    if todos {
        assert forall|j: int| 0 <= j < n - 1 implies paso_aprobado(
            paso_spec(j),
            #[trigger] previos[j],
        ) by {
            assert(previos[j] == eventos[j]);
        }
    }
    if todos0 && paso_aprobado(p, e) {
        assert forall|j: int| 0 <= j < n implies paso_aprobado(
            paso_spec(j),
            #[trigger] eventos[j],
        ) by {
            if j < n - 1 {
                assert(previos[j] == eventos[j]);
            }
        }
    }
}

/// Along a run, the records sent after its steps only move forward: for
/// any two points `j1 <= j2` of the run, the input combination, the two
/// counts and the firmware flags have not gone back, and the bits recorded
/// by `j1` are unchanged at `j2`; at every point the Y count is the Z count
/// or one less, neither is above 8, and no bit is set at or above them.
pub proof fn ley_monotonia(eventos: Seq<Evento>, j1: int, j2: int)
    requires
        eventos_validos(eventos),
        0 <= j1 <= j2 <= eventos.len(),
    ensures
        ({
            let d1 = correr(eventos.take(j1)).datos;
            let d2 = correr(eventos.take(j2)).datos;
            &&& registro_valido(d2)
            &&& d2.y_cont <= d2.z_cont <= d2.y_cont + 1
            &&& d1.abc <= d2.abc
            &&& d1.z_cont <= d2.z_cont
            &&& d1.y_cont <= d2.y_cont
            &&& d1.programdo_test ==> d2.programdo_test
            &&& d1.programdo_bueno ==> d2.programdo_bueno
            &&& forall|k: u8| k < d1.z_cont ==> bit(d2.z, k) == bit(d1.z, k)
            &&& forall|k: u8| k < d1.y_cont ==> bit(d2.y, k) == bit(d1.y, k)
        }),
    decreases j2 - j1,
{
    let pre = eventos.take(j2);
    assert(eventos_validos(pre)) by {
        assert forall|j: int| 0 <= j < pre.len() implies corresponde(
            paso_spec(j),
            #[trigger] pre[j],
        ) by {
            assert(pre[j] == eventos[j]);
        }
    }
    ley_corrida(pre);
    if j1 == j2 {
        return;
    }
    ley_monotonia(eventos, j1, j2 - 1);
    let previos = eventos.take(j2 - 1);
    assert(pre.drop_last() =~= previos);
    ley_corrida(previos);
    let c0 = correr(previos);
    assert(corresponde(paso_spec(j2 - 1), eventos[j2 - 1]));
    assert(pre.last() == eventos[j2 - 1]);
    ley_paso(c0, eventos[j2 - 1]);
}

/// The three voltages that a step observed, `(0, 0, 0)` for a step that
/// read none.
pub open spec fn tensiones(e: Evento) -> (u64, u64, u64) {
    match e {
        Evento::Tensiones { tension1, tension2, tension3 } => (tension1, tension2, tension3),
        _ => (0, 0, 0),
    }
}

/// The index of the last voltage reading among the first `n` steps.
pub open spec fn ultima_lectura(n: int) -> int {
    if n - 1 < 1017 {
        n - 1
    } else {
        1017
    }
}

/// Whether the run passes after its first `n` steps, over what they
/// observed: the test firmware verified (once programmed), the final
/// firmware verified (once programmed), and every Z and Y output read so
/// far is the expected one for its input combination.
pub open spec fn aprobada_por_eventos(eventos: Seq<Evento>) -> bool {
    let n = eventos.len() as int;
    &&& n >= 1 ==> verificada(eventos[0])
    &&& n == NUMERODEPRUEBAS + 1 ==> verificada(eventos[NUMERODEPRUEBAS as int])
    &&& forall|k: u8| k < z_hechas(n) ==> medida(#[trigger] eventos[2 * k + 1]) == z_esperada(k)
    &&& forall|k: u8| k < y_hechas(n) ==> medida(#[trigger] eventos[2 * k + 2]) == y_esperada(k)
}

/// A run passes exactly when both firmwares it programmed verified and
/// every output it read was the expected one; in particular a full run
/// whose final firmware did not verify fails.
pub proof fn ley_aprobado(eventos: Seq<Evento>)
    requires
        eventos_validos(eventos),
    ensures
        correr(eventos).aprobado == aprobada_por_eventos(eventos),
        eventos.len() == NUMERODEPRUEBAS + 1 && !verificada(eventos[NUMERODEPRUEBAS as int])
            ==> !correr(eventos).aprobado,
{
    ley_corrida(eventos);
    let n = eventos.len() as int;
    let todos = forall|j: int| 0 <= j < n ==> paso_aprobado(paso_spec(j), #[trigger] eventos[j]);
    if todos {
        if n >= 1 {
            assert(paso_aprobado(paso_spec(0), eventos[0]));
        }
        if n == NUMERODEPRUEBAS + 1 {
            assert(paso_aprobado(paso_spec(NUMERODEPRUEBAS as int), eventos[NUMERODEPRUEBAS as int]));
        }
        assert forall|k: u8| k < z_hechas(n) implies medida(#[trigger] eventos[2 * k + 1])
            == z_esperada(k) by {
            assert(paso_aprobado(paso_spec(2 * k + 1), eventos[2 * k + 1]));
            assert(corresponde(paso_spec(2 * k + 1), eventos[2 * k + 1]));
        }
        assert forall|k: u8| k < y_hechas(n) implies medida(#[trigger] eventos[2 * k + 2])
            == y_esperada(k) by {
            assert(paso_aprobado(paso_spec(2 * k + 2), eventos[2 * k + 2]));
            assert(corresponde(paso_spec(2 * k + 2), eventos[2 * k + 2]));
        }
    }
    if aprobada_por_eventos(eventos) {
        assert forall|j: int| 0 <= j < n implies paso_aprobado(
            paso_spec(j),
            #[trigger] eventos[j],
        ) by {
            assert(corresponde(paso_spec(j), eventos[j]));
            if 1 <= j <= 16 && j % 2 == 1 {
                let k = (j / 2) as u8;
                assert(2 * k + 1 == j);
                assert(medida(eventos[2 * k + 1]) == z_esperada(k));
            } else if 1 <= j <= 16 {
                let k = (j / 2 - 1) as u8;
                assert(2 * k + 2 == j);
                assert(medida(eventos[2 * k + 2]) == y_esperada(k));
            }
        }
    }
}

/// The voltages in a run's record are those of its last voltage reading,
/// and zero before the first one.
pub proof fn ley_tensiones(eventos: Seq<Evento>)
    requires
        eventos_validos(eventos),
    ensures
        ({
            let d = correr(eventos).datos;
            let n = eventos.len() as int;
            &&& n <= 17 ==> d.tension1 == 0 && d.tension2 == 0 && d.tension3 == 0
            &&& n >= 18 ==> (d.tension1, d.tension2, d.tension3) == tensiones(
                eventos[ultima_lectura(n)],
            )
        }),
    decreases eventos.len(),
{
    let n = eventos.len() as int;
    if n == 0 {
        return;
    }
    let previos = eventos.drop_last();
    assert(eventos_validos(previos)) by {
        assert forall|j: int| 0 <= j < previos.len() implies corresponde(
            paso_spec(j),
            #[trigger] previos[j],
        ) by {
            assert(previos[j] == eventos[j]);
        }
    }
    ley_tensiones(previos);
    ley_corrida(previos);
    let e = eventos[n - 1];
    assert(corresponde(paso_spec(n - 1), e));
    assert(correr(eventos) == correr(previos).tras(e));
    if 17 <= n - 1 <= 1017 {
        assert(paso_spec(n - 1) == Paso::Adc((n - 1 - 17) as usize));
        assert(e is Tensiones);
        let d = correr(eventos).datos;
        assert(d.tension1 == e->tension1 && d.tension2 == e->tension2 && d.tension3
            == e->tension3);
        assert(ultima_lectura(n) == n - 1);
    } else {
        let d = correr(eventos).datos;
        let d0 = correr(previos).datos;
        assert(d.tension1 == d0.tension1 && d.tension2 == d0.tension2 && d.tension3
            == d0.tension3);
    }
    if n >= 19 {
        assert(previos[ultima_lectura(n - 1)] == eventos[ultima_lectura(n - 1)]);
    }
}

} // verus!
