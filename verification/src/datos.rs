use vstd::prelude::*;
use vstd::std_specs::cmp::PartialEqSpecImpl;

verus! {

/// Length of the wire format of a [`TestData`].
pub const TESTDATALEN: usize = 30;

/// The record of one run of the bench test.
///
/// The three voltages are kept as the bit patterns of their `f64` values
/// (`f64::to_bits`): the record is carried and encoded exactly, and only
/// the caller turns them back into numbers. Two records are `==` when
/// their voltages are equal as `f64` numbers (see [`iguales_f64`]).
#[derive(Clone, Copy, Debug)]
pub struct TestData {
    pub programdo_test: bool,
    pub verificado_test: bool,
    pub abc: u8,
    pub z: u8,
    pub z_cont: u8,
    pub y: u8,
    pub y_cont: u8,
    pub tension1: u64,
    pub tension2: u64,
    pub tension3: u64,
    pub programdo_bueno: bool,
    pub verificado_bueno: bool,
}

/// The empty record: nothing programmed, nothing measured, voltages `0.0`.
pub open spec fn registro_vacio() -> TestData {
    TestData {
        programdo_test: false,
        verificado_test: false,
        abc: 0,
        z: 0,
        z_cont: 0,
        y: 0,
        y_cont: 0,
        tension1: 0,
        tension2: 0,
        tension3: 0,
        programdo_bueno: false,
        verificado_bueno: false,
    }
}

impl Default for TestData {
    fn default() -> (r: TestData)
        ensures
            r == registro_vacio(),
    {
        TestData {
            programdo_test: false,
            verificado_test: false,
            abc: 0,
            z: 0,
            z_cont: 0,
            y: 0,
            y_cont: 0,
            tension1: 0,
            tension2: 0,
            tension3: 0,
            programdo_bueno: false,
            verificado_bueno: false,
        }
    }
}

/// The bit pattern of an `f64` that is not a number: all exponent bits set
/// and a nonzero fraction.
pub open spec fn es_nan(b: u64) -> bool {
    b & 0x7ff0_0000_0000_0000u64 == 0x7ff0_0000_0000_0000u64 && b & 0x000f_ffff_ffff_ffffu64 != 0
}

/// Whether the `f64` numbers with bit patterns `a` and `b` are equal: a
/// NaN equals nothing, `0.0` equals `-0.0`, and any other number only
/// itself.
pub open spec fn iguales_f64(a: u64, b: u64) -> bool {
    &&& !es_nan(a)
    &&& !es_nan(b)
    &&& (a == b || (a & 0x7fff_ffff_ffff_ffffu64 == 0 && b & 0x7fff_ffff_ffff_ffffu64 == 0))
}

fn tensiones_iguales(a: u64, b: u64) -> (r: bool)
    ensures
        r == iguales_f64(a, b),
{
    let nan_a = a & 0x7ff0_0000_0000_0000u64 == 0x7ff0_0000_0000_0000u64 && a
        & 0x000f_ffff_ffff_ffffu64 != 0;
    let nan_b = b & 0x7ff0_0000_0000_0000u64 == 0x7ff0_0000_0000_0000u64 && b
        & 0x000f_ffff_ffff_ffffu64 != 0;
    !nan_a && !nan_b && (a == b || (a & 0x7fff_ffff_ffff_ffffu64 == 0 && b
        & 0x7fff_ffff_ffff_ffffu64 == 0))
}

/// Field by field, with the voltages compared as `f64` numbers.
pub open spec fn registros_iguales(a: TestData, b: TestData) -> bool {
    &&& a.programdo_test == b.programdo_test
    &&& a.verificado_test == b.verificado_test
    &&& a.abc == b.abc
    &&& a.z == b.z
    &&& a.z_cont == b.z_cont
    &&& a.y == b.y
    &&& a.y_cont == b.y_cont
    &&& iguales_f64(a.tension1, b.tension1)
    &&& iguales_f64(a.tension2, b.tension2)
    &&& iguales_f64(a.tension3, b.tension3)
    &&& a.programdo_bueno == b.programdo_bueno
    &&& a.verificado_bueno == b.verificado_bueno
}

impl PartialEq for TestData {
    fn eq(&self, other: &TestData) -> (r: bool) {
        self.programdo_test == other.programdo_test && self.verificado_test
            == other.verificado_test && self.abc == other.abc && self.z == other.z && self.z_cont
            == other.z_cont && self.y == other.y && self.y_cont == other.y_cont
            && tensiones_iguales(self.tension1, other.tension1) && tensiones_iguales(
            self.tension2,
            other.tension2,
        ) && tensiones_iguales(self.tension3, other.tension3) && self.programdo_bueno
            == other.programdo_bueno && self.verificado_bueno == other.verificado_bueno
    }
}

impl PartialEqSpecImpl for TestData {
    open spec fn obeys_eq_spec() -> bool {
        true
    }

    open spec fn eq_spec(&self, other: &TestData) -> bool {
        registros_iguales(*self, *other)
    }
}

} // verus!
