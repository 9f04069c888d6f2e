use vstd::prelude::*;
use vstd::string::StringSliceAdditionalSpecFns;

verus! {

// ---------------------------------------------------------------------
// Judging the programmer's output
//
// The board is programmed with an external programmer tool in four runs
// (id, blank, program, verify). A run failed when its output reports a
// failed read of the configuration memory; the verify run passed when its
// output reports zero failures.
// ---------------------------------------------------------------------

/// `patron` occurs in `texto` as a run of consecutive bytes.
pub open spec fn contiene(texto: Seq<u8>, patron: Seq<u8>) -> bool {
    exists|i: int|
        0 <= i && i + patron.len() <= texto.len() && #[trigger] texto.subrange(
            i,
            i + patron.len(),
        ) == patron
}

fn coincide_en(texto: &[u8], patron: &[u8], i: usize) -> (r: bool)
    requires
        i + patron@.len() <= texto@.len(),
    ensures
        r == (texto@.subrange(i as int, i + patron@.len()) == patron@),
{
    let m = patron.len();
    let mut k: usize = 0;
    while k < m
        invariant
            k <= m,
            m == patron@.len(),
            i + m <= texto@.len(),
            texto@.len() == texto.len(),
            forall|j: int| 0 <= j < k ==> texto@[i + j] == patron@[j],
        decreases m - k,
    {
        if texto[i + k] != patron[k] {
            assert(texto@.subrange(i as int, i + m)[k as int] != patron@[k as int]);
            return false;
        }
        k = k + 1;
    }
    assert(texto@.subrange(i as int, i + m) =~= patron@);
    true
}

/// Whether `patron` occurs in `texto`.
pub fn contiene_bytes(texto: &[u8], patron: &[u8]) -> (r: bool)
    ensures
        r == contiene(texto@, patron@),
{
    let n = texto.len();
    let m = patron.len();
    if m > n {
        return false;
    }
    let ultimo = n - m;
    let mut i: usize = 0;
    loop
        invariant
            i <= ultimo,
            n == texto@.len(),
            m == patron@.len(),
            ultimo == n - m,
            forall|j: int| 0 <= j < i ==> #[trigger] texto@.subrange(j, j + m) != patron@,
        decreases ultimo - i,
    {
        if coincide_en(texto, patron, i) {
            assert(texto@.subrange(i as int, i + m) == patron@);
            return true;
        }
        if i == ultimo {
            return false;
        }
        i = i + 1;
    }
}

/// Whether the outputs of the four programmer runs show a good programming:
/// none of the id, blank and program runs reports a failed read of the
/// configuration memory, and the verify run reports zero failures.
pub fn programacion_aprobada(id: &str, blank: &str, program: &str, verify: &str) -> (r: bool)
    ensures
        r == (!contiene(id.spec_bytes(), "pic16_read_config_memory".spec_bytes()) && !contiene(
            blank.spec_bytes(),
            "pic16_read_config_memory".spec_bytes(),
        ) && !contiene(program.spec_bytes(), "pic16_read_config_memory".spec_bytes())
            && contiene(verify.spec_bytes(), "Fail: 0".spec_bytes())),
{
    let error = "pic16_read_config_memory".as_bytes();
    let exito = "Fail: 0".as_bytes();
    let mut ret = true;
    ret = ret && !contiene_bytes(id.as_bytes(), error);
    ret = ret && !contiene_bytes(blank.as_bytes(), error);
    ret = ret && !contiene_bytes(program.as_bytes(), error);
    ret = ret && contiene_bytes(verify.as_bytes(), exito);
    ret
}

} // verus!
