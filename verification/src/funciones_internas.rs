use vstd::prelude::*;

use crate::datos::{TestData, TESTDATALEN};
use std::sync::mpsc::{Receiver, TryRecvError};

verus! {

// ---------------------------------------------------------------------
// The wire format
//
//   byte 0      flags: programdo_test | 1, verificado_test | 2,
//               programdo_bueno | 3, verificado_bueno | 4
//   bytes 1..6  abc, z, z_cont, y, y_cont
//   bytes 6..30 tension1, tension2, tension3, each 8 bytes big-endian
// ---------------------------------------------------------------------

/// The eight big-endian bytes of `x`.
pub open spec fn bytes_be(x: u64) -> Seq<u8> {
    seq![
        (x >> 56) as u8,
        (x >> 48) as u8,
        (x >> 40) as u8,
        (x >> 32) as u8,
        (x >> 24) as u8,
        (x >> 16) as u8,
        (x >> 8) as u8,
        x as u8,
    ]
}

/// The `u64` whose big-endian bytes are `s[i..i + 8]`.
pub open spec fn u64_be(s: Seq<u8>, i: int) -> u64 {
    (s[i] as u64) << 56 | (s[i + 1] as u64) << 48 | (s[i + 2] as u64) << 40 | (s[i + 3] as u64)
        << 32 | (s[i + 4] as u64) << 24 | (s[i + 5] as u64) << 16 | (s[i + 6] as u64) << 8 | (s[i
        + 7] as u64)
}

/// The flag byte of a record.
pub open spec fn byte_estado(d: TestData) -> u8 {
    (if d.programdo_test { 1u8 } else { 0u8 }) | (if d.verificado_test { 2u8 } else { 0u8 }) | (
    if d.programdo_bueno { 3u8 } else { 0u8 }) | (if d.verificado_bueno { 4u8 } else { 0u8 })
}

/// The 30 bytes that encode a record.
pub open spec fn bytes_de(d: TestData) -> Seq<u8> {
    seq![byte_estado(d), d.abc, d.z, d.z_cont, d.y, d.y_cont] + bytes_be(d.tension1) + bytes_be(
        d.tension2,
    ) + bytes_be(d.tension3)
}

/// The record that the first 30 bytes of `b` decode to.
pub open spec fn registro_de(b: Seq<u8>) -> TestData {
    TestData {
        programdo_test: b[0] & 1 == 1,
        verificado_test: b[0] & 2 == 2,
        abc: b[1],
        z: b[2],
        z_cont: b[3],
        y: b[4],
        y_cont: b[5],
        tension1: u64_be(b, 6),
        tension2: u64_be(b, 14),
        tension3: u64_be(b, 22),
        programdo_bueno: b[0] & 3 == 3,
        verificado_bueno: b[0] & 4 == 4,
    }
}

fn escribir_be(x: u64) -> (r: [u8; 8])
    ensures
        r@ == bytes_be(x),
{
    let r = [
        (x >> 56) as u8,
        (x >> 48) as u8,
        (x >> 40) as u8,
        (x >> 32) as u8,
        (x >> 24) as u8,
        (x >> 16) as u8,
        (x >> 8) as u8,
        x as u8,
    ];
    assert(r@ =~= bytes_be(x));
    r
}

/// Encodes a record in its 30-byte wire format.
pub fn to_bytes(struct_in: TestData) -> (ret: [u8; TESTDATALEN])
    ensures
        ret@ == bytes_de(struct_in),
        ret[0] == (if struct_in.programdo_test || struct_in.programdo_bueno {
            1int
        } else {
            0int
        }) + (if struct_in.verificado_test || struct_in.programdo_bueno {
            2int
        } else {
            0int
        }) + (if struct_in.verificado_bueno {
            4int
        } else {
            0int
        }),
        ret[1] == struct_in.abc,
        ret[2] == struct_in.z,
        ret[3] == struct_in.z_cont,
        ret[4] == struct_in.y,
        ret[5] == struct_in.y_cont,
        valor_be(ret@, 6) == struct_in.tension1,
        valor_be(ret@, 14) == struct_in.tension2,
        valor_be(ret@, 22) == struct_in.tension3,
{
    proof {
        ley_formato(struct_in);
    }
    let d = struct_in;
    let estado: u8 = (if d.programdo_test { 1u8 } else { 0u8 }) | (if d.verificado_test {
        2u8
    } else {
        0u8
    }) | (if d.programdo_bueno { 3u8 } else { 0u8 }) | (if d.verificado_bueno {
        4u8
    } else {
        0u8
    });
    let t1 = escribir_be(d.tension1);
    let t2 = escribir_be(d.tension2);
    let t3 = escribir_be(d.tension3);
    let ret: [u8; TESTDATALEN] = [
        estado,
        d.abc,
        d.z,
        d.z_cont,
        d.y,
        d.y_cont,
        t1[0],
        t1[1],
        t1[2],
        t1[3],
        t1[4],
        t1[5],
        t1[6],
        t1[7],
        t2[0],
        t2[1],
        t2[2],
        t2[3],
        t2[4],
        t2[5],
        t2[6],
        t2[7],
        t3[0],
        t3[1],
        t3[2],
        t3[3],
        t3[4],
        t3[5],
        t3[6],
        t3[7],
    ];
    assert(ret@ =~= bytes_de(d));
    ret
}

fn leer_be(b: &[u8], i: usize) -> (r: u64)
    requires
        i + 8 <= b@.len(),
    ensures
        r == u64_be(b@, i as int),
{
    (b[i] as u64) << 56 | (b[i + 1] as u64) << 48 | (b[i + 2] as u64) << 40 | (b[i + 3] as u64)
        << 32 | (b[i + 4] as u64) << 24 | (b[i + 5] as u64) << 16 | (b[i + 6] as u64) << 8 | (b[i
        + 7] as u64)
}

/// Decodes a record from the first 30 bytes of `bytes_in`; the bytes after
/// them are ignored.
pub fn from_bytes(bytes_in: &[u8]) -> (r: TestData)
    requires
        bytes_in@.len() >= TESTDATALEN,
    ensures
        r == registro_de(bytes_in@),
        r.programdo_test == (bytes_in@[0] % 2 == 1),
        r.verificado_test == (bytes_in@[0] / 2 % 2 == 1),
        r.programdo_bueno == (bytes_in@[0] % 4 == 3),
        r.verificado_bueno == (bytes_in@[0] / 4 % 2 == 1),
        r.abc == bytes_in@[1],
        r.z == bytes_in@[2],
        r.z_cont == bytes_in@[3],
        r.y == bytes_in@[4],
        r.y_cont == bytes_in@[5],
        r.tension1 == valor_be(bytes_in@, 6),
        r.tension2 == valor_be(bytes_in@, 14),
        r.tension3 == valor_be(bytes_in@, 22),
{
    proof {
        ley_lectura(bytes_in@);
    }
    TestData {
        programdo_test: bytes_in[0] & 1 == 1,
        verificado_test: bytes_in[0] & 2 == 2,
        abc: bytes_in[1],
        z: bytes_in[2],
        z_cont: bytes_in[3],
        y: bytes_in[4],
        y_cont: bytes_in[5],
        tension1: leer_be(bytes_in, 6),
        tension2: leer_be(bytes_in, 14),
        tension3: leer_be(bytes_in, 22),
        programdo_bueno: bytes_in[0] & 3 == 3,
        verificado_bueno: bytes_in[0] & 4 == 4,
    }
}

/// Records that can be turned into their wire format.
pub trait ConvertTest {
    /// The wire format of `self`.
    spec fn bytes_spec(&self) -> Seq<u8>;

    fn to_bytes(&self) -> (r: [u8; TESTDATALEN])
        ensures
            r@ == self.bytes_spec(),
    ;
}

impl ConvertTest for TestData {
    open spec fn bytes_spec(&self) -> Seq<u8> {
        bytes_de(*self)
    }

    fn to_bytes(&self) -> (r: [u8; TESTDATALEN]) {
        to_bytes(*self)
    }
}

// ---------------------------------------------------------------------
// Laws of the wire format
// ---------------------------------------------------------------------

proof fn lemma_u64_be_de_bytes(x: u64)
    ensures
        u64_be(bytes_be(x), 0) == x,
{
    let s = bytes_be(x);
    assert(((x >> 56) as u8 as u64) << 56 | ((x >> 48) as u8 as u64) << 48 | ((x >> 40) as u8
        as u64) << 40 | ((x >> 32) as u8 as u64) << 32 | ((x >> 24) as u8 as u64) << 24 | ((x
        >> 16) as u8 as u64) << 16 | ((x >> 8) as u8 as u64) << 8 | (x as u8 as u64) == x)
        by (bit_vector);
}

proof fn lemma_bytes_de_u64_be(s: Seq<u8>, i: int)
    requires
        0 <= i,
        i + 8 <= s.len(),
    ensures
        bytes_be(u64_be(s, i)) == s.subrange(i, i + 8),
{
    let (b0, b1, b2, b3, b4, b5, b6, b7) = (
        s[i],
        s[i + 1],
        s[i + 2],
        s[i + 3],
        s[i + 4],
        s[i + 5],
        s[i + 6],
        s[i + 7],
    );
    let x = u64_be(s, i);
    assert(x == (b0 as u64) << 56 | (b1 as u64) << 48 | (b2 as u64) << 40 | (b3 as u64) << 32
        | (b4 as u64) << 24 | (b5 as u64) << 16 | (b6 as u64) << 8 | (b7 as u64));
    assert((x >> 56) as u8 == b0 && (x >> 48) as u8 == b1 && (x >> 40) as u8 == b2 && (x >> 32)
        as u8 == b3 && (x >> 24) as u8 == b4 && (x >> 16) as u8 == b5 && (x >> 8) as u8 == b6
        && x as u8 == b7) by (bit_vector)
        requires
            x == (b0 as u64) << 56 | (b1 as u64) << 48 | (b2 as u64) << 40 | (b3 as u64) << 32
                | (b4 as u64) << 24 | (b5 as u64) << 16 | (b6 as u64) << 8 | (b7 as u64),
    ;
    assert(bytes_be(x) =~= s.subrange(i, i + 8));
}

proof fn lemma_banderas(pt: bool, vt: bool, pb: bool, vb: bool)
    ensures
        ({
            let e: u8 = (if pt { 1u8 } else { 0u8 }) | (if vt { 2u8 } else { 0u8 }) | (if pb {
                3u8
            } else {
                0u8
            }) | (if vb { 4u8 } else { 0u8 });
            &&& (e & 1 == 1) == (pt || pb)
            &&& (e & 2 == 2) == (vt || pb)
            &&& (e & 3 == 3) == (pb || (pt && vt))
            &&& (e & 4 == 4) == vb
        }),
{
    assert({
        let e: u8 = (if pt { 1u8 } else { 0u8 }) | (if vt { 2u8 } else { 0u8 }) | (if pb {
            3u8
        } else {
            0u8
        }) | (if vb { 4u8 } else { 0u8 });
        &&& (e & 1 == 1) == (pt || pb)
        &&& (e & 2 == 2) == (vt || pb)
        &&& (e & 3 == 3) == (pb || (pt && vt))
        &&& (e & 4 == 4) == vb
    }) by (bit_vector);
}

proof fn lemma_byte_de_banderas(b: u8)
    ensures
        (if b & 1 == 1 { 1u8 } else { 0u8 }) | (if b & 2 == 2 { 2u8 } else { 0u8 }) | (if b & 3
            == 3 { 3u8 } else { 0u8 }) | (if b & 4 == 4 { 4u8 } else { 0u8 }) == b & 7,
        (b & 7 == b) == (b < 8),
{
    assert((if b & 1 == 1 { 1u8 } else { 0u8 }) | (if b & 2 == 2 { 2u8 } else { 0u8 }) | (if b
        & 3 == 3 { 3u8 } else { 0u8 }) | (if b & 4 == 4 { 4u8 } else { 0u8 }) == b & 7)
        by (bit_vector);
    assert((b & 7 == b) == (b < 8)) by (bit_vector);
}

/// Decoding the encoding of a record gives back every field but the flags
/// of the first byte. Because `programdo_bueno` is encoded as the value 3,
/// which holds the bits of `programdo_test` and `verificado_test`, it reads
/// back as both of them, and both of them read back as `programdo_bueno`.
pub proof fn ley_decodificar_codificado(d: TestData)
    ensures
        registro_de(bytes_de(d)) == (TestData {
            programdo_test: d.programdo_test || d.programdo_bueno,
            verificado_test: d.verificado_test || d.programdo_bueno,
            programdo_bueno: d.programdo_bueno || (d.programdo_test && d.verificado_test),
            ..d
        }),
{
    let b = bytes_de(d);
    lemma_banderas(d.programdo_test, d.verificado_test, d.programdo_bueno, d.verificado_bueno);
    lemma_u64_be_de_bytes(d.tension1);
    lemma_u64_be_de_bytes(d.tension2);
    lemma_u64_be_de_bytes(d.tension3);
    assert(u64_be(b, 6) == u64_be(bytes_be(d.tension1), 0));
    assert(u64_be(b, 14) == u64_be(bytes_be(d.tension2), 0));
    assert(u64_be(b, 22) == u64_be(bytes_be(d.tension3), 0));
}

/// A record whose `programdo_bueno` is exactly "`programdo_test` and
/// `verificado_test`" survives encoding and decoding unchanged.
pub proof fn ley_ida_y_vuelta(d: TestData)
    requires
        d.programdo_bueno == (d.programdo_test && d.verificado_test),
    ensures
        registro_de(bytes_de(d)) == d,
{
    ley_decodificar_codificado(d);
}

/// Encoding the decoding of at least 30 bytes gives back those 30 bytes,
/// with only the three low bits of the flag byte kept; so a flag byte
/// below 8 comes back unchanged.
pub proof fn ley_codificar_decodificado(b: Seq<u8>)
    requires
        b.len() >= TESTDATALEN,
    ensures
        bytes_de(registro_de(b)) == b.subrange(0, TESTDATALEN as int).update(0, b[0] & 7),
        b[0] < 8 ==> bytes_de(registro_de(b)) == b.subrange(0, TESTDATALEN as int),
{
    let d = registro_de(b);
    lemma_byte_de_banderas(b[0]);
    lemma_bytes_de_u64_be(b, 6);
    lemma_bytes_de_u64_be(b, 14);
    lemma_bytes_de_u64_be(b, 22);
    let r = bytes_de(d);
    let e = b.subrange(0, TESTDATALEN as int).update(0, b[0] & 7);
    assert forall|k: int| 0 <= k < 30 implies r[k] == e[k] by {
        if 6 <= k < 14 {
            assert(r[k] == bytes_be(d.tension1)[k - 6]);
            assert(b.subrange(6, 14)[k - 6] == b[k]);
        } else if 14 <= k < 22 {
            assert(r[k] == bytes_be(d.tension2)[k - 14]);
            assert(b.subrange(14, 22)[k - 14] == b[k]);
        } else if 22 <= k < 30 {
            assert(r[k] == bytes_be(d.tension3)[k - 22]);
            assert(b.subrange(22, 30)[k - 22] == b[k]);
        }
    }
    assert(r =~= e);
    if b[0] < 8 {
        assert(e =~= b.subrange(0, TESTDATALEN as int));
    }
}

// ---------------------------------------------------------------------
// The pause channel
//
// The test runs while another thread may ask it to pause: `true` on the
// channel pauses it, `false` lets it go on. A closed channel means the
// pause control is lost, which the bench treats as fatal.
// ---------------------------------------------------------------------

#[verifier::external_type_specification]
#[verifier::external_body]
#[verifier::reject_recursive_types(T)]
pub struct ExReceiver<T>(Receiver<T>);

/// What a look at the pause channel, without waiting, found.
#[derive(Clone, Copy, Debug, PartialEq, Eq, Structural)]
pub enum Consulta {
    /// A message was waiting.
    Mensaje(bool),
    /// Nothing was waiting.
    Vacio,
    /// The sending side is gone.
    Desconectado,
}

/// The pause control was lost: the channel was closed while looking at it
/// (`AlConsultar`) or while waiting for the end of a pause (`AlEsperar`).
#[derive(Clone, Copy, Debug, PartialEq, Eq, Structural)]
pub enum PausaPerdida {
    AlConsultar,
    AlEsperar,
}

/// Calls `Receiver::try_recv` and tells its outcomes apart. Nothing is
/// claimed of which outcome comes: that depends on the other thread.
#[verifier::external_body]
fn consultar(rx: &Receiver<bool>) -> Consulta {
    match rx.try_recv() {
        Ok(m) => Consulta::Mensaje(m),
        Err(TryRecvError::Empty) => Consulta::Vacio,
        Err(TryRecvError::Disconnected) => Consulta::Desconectado,
    }
}

/// Calls `Receiver::recv`, which blocks until a message comes; `None` when
/// the channel is closed. Nothing is claimed of the message.
#[verifier::external_body]
fn recibir(rx: &Receiver<bool>) -> Option<bool> {
    rx.recv().ok()
}

/// What a look at the pause channel means: `Ok(true)` when a pause was
/// asked for, `Ok(false)` when the test goes on, an error when the channel
/// is closed.
pub open spec fn tras_consulta(c: Consulta) -> Result<bool, PausaPerdida> {
    match c {
        Consulta::Mensaje(m) => Ok(m),
        Consulta::Vacio => Ok(false),
        Consulta::Desconectado => Err(PausaPerdida::AlConsultar),
    }
}

/// What a message received during a pause means: `Ok(true)` when the pause
/// goes on, `Ok(false)` when it ends, an error when the channel is closed.
pub open spec fn tras_espera(m: Option<bool>) -> Result<bool, PausaPerdida> {
    match m {
        Some(sigue) => Ok(sigue),
        None => Err(PausaPerdida::AlEsperar),
    }
}

/// Decides on the outcome of a look at the pause channel.
pub fn decidir_consulta(c: Consulta) -> (r: Result<bool, PausaPerdida>)
    ensures
        r == tras_consulta(c),
{
    match c {
        Consulta::Mensaje(m) => Ok(m),
        Consulta::Vacio => Ok(false),
        Consulta::Desconectado => Err(PausaPerdida::AlConsultar),
    }
}

/// Decides on a message received during a pause.
pub fn decidir_espera(m: Option<bool>) -> (r: Result<bool, PausaPerdida>)
    ensures
        r == tras_espera(m),
{
    match m {
        Some(sigue) => Ok(sigue),
        None => Err(PausaPerdida::AlEsperar),
    }
}

/// Looks at the pause channel without waiting. `Ok(true)`: a pause was
/// asked for, and the caller waits with [`esperar`] until it returns
/// `Ok(false)`.
pub fn ver_estado(rx: &Receiver<bool>) -> (r: Result<bool, PausaPerdida>)
    ensures
        exists|c: Consulta| r == tras_consulta(c),
{
    let c = consultar(rx);
    decidir_consulta(c)
}

/// Waits for the next message of a pause. `Ok(true)`: the pause goes on.
pub fn esperar(rx: &Receiver<bool>) -> (r: Result<bool, PausaPerdida>)
    ensures
        exists|m: Option<bool>| r == tras_espera(m),
{
    let m = recibir(rx);
    decidir_espera(m)
}

/// The number whose base-256 digits, most significant first, are
/// `s[i..i + 8]`.
pub open spec fn valor_be(s: Seq<u8>, i: int) -> int {
    s[i] * 0x100_0000_0000_0000 + s[i + 1] * 0x1_0000_0000_0000 + s[i + 2] * 0x100_0000_0000
        + s[i + 3] * 0x1_0000_0000 + s[i + 4] * 0x100_0000 + s[i + 5] * 0x1_0000 + s[i + 6]
        * 0x100 + s[i + 7]
}

proof fn lemma_valor_be(s: Seq<u8>, i: int)
    requires
        0 <= i,
        i + 8 <= s.len(),
    ensures
        u64_be(s, i) == valor_be(s, i),
{
    let (b0, b1, b2, b3, b4, b5, b6, b7) = (
        s[i],
        s[i + 1],
        s[i + 2],
        s[i + 3],
        s[i + 4],
        s[i + 5],
        s[i + 6],
        s[i + 7],
    );
    assert((b0 as u64) << 56 | (b1 as u64) << 48 | (b2 as u64) << 40 | (b3 as u64) << 32 | (b4
        as u64) << 24 | (b5 as u64) << 16 | (b6 as u64) << 8 | (b7 as u64) == b0
        * 0x100_0000_0000_0000 + b1 * 0x1_0000_0000_0000 + b2 * 0x100_0000_0000 + b3
        * 0x1_0000_0000 + b4 * 0x100_0000 + b5 * 0x1_0000 + b6 * 0x100 + b7) by (bit_vector);
}

/// Where each field of a record sits in its wire format: the flag byte
/// holds 1 for `programdo_test`, 2 for `verificado_test`, 3 (both of
/// those) for `programdo_bueno` and 4 for `verificado_bueno`; bytes 1 to 5
/// are `abc`, `z`, `z_cont`, `y`, `y_cont`; and bytes 6, 14 and 22 start
/// the three voltages, each written as a base-256 number, most significant
/// digit first.
pub proof fn ley_formato(d: TestData)
    ensures
        bytes_de(d).len() == TESTDATALEN,
        bytes_de(d)[0] == (if d.programdo_test || d.programdo_bueno {
            1int
        } else {
            0int
        }) + (if d.verificado_test || d.programdo_bueno {
            2int
        } else {
            0int
        }) + (if d.verificado_bueno {
            4int
        } else {
            0int
        }),
        bytes_de(d)[1] == d.abc,
        bytes_de(d)[2] == d.z,
        bytes_de(d)[3] == d.z_cont,
        bytes_de(d)[4] == d.y,
        bytes_de(d)[5] == d.y_cont,
        valor_be(bytes_de(d), 6) == d.tension1,
        valor_be(bytes_de(d), 14) == d.tension2,
        valor_be(bytes_de(d), 22) == d.tension3,
{
    let b = bytes_de(d);
    let (pt, vt, pb, vb) = (d.programdo_test, d.verificado_test, d.programdo_bueno, d.verificado_bueno);
    assert((if pt { 1u8 } else { 0u8 }) | (if vt { 2u8 } else { 0u8 }) | (if pb { 3u8 } else {
        0u8
    }) | (if vb { 4u8 } else { 0u8 }) == (if pt || pb { 1u8 } else { 0u8 }) + (if vt || pb {
        2u8
    } else {
        0u8
    }) + (if vb { 4u8 } else { 0u8 })) by (bit_vector);
    lemma_u64_be_de_bytes(d.tension1);
    lemma_u64_be_de_bytes(d.tension2);
    lemma_u64_be_de_bytes(d.tension3);
    lemma_valor_be(b, 6);
    lemma_valor_be(b, 14);
    lemma_valor_be(b, 22);
    assert(u64_be(b, 6) == u64_be(bytes_be(d.tension1), 0));
    assert(u64_be(b, 14) == u64_be(bytes_be(d.tension2), 0));
    assert(u64_be(b, 22) == u64_be(bytes_be(d.tension3), 0));
}

/// What a record decoded from bytes holds: the flags are bit 0, bit 1,
/// both of bits 0 and 1, and bit 2 of the flag byte; `abc`, `z`, `z_cont`,
/// `y`, `y_cont` are bytes 1 to 5; and each voltage is the base-256 number
/// written, most significant digit first, from byte 6, 14 or 22.
pub proof fn ley_lectura(b: Seq<u8>)
    requires
        b.len() >= TESTDATALEN,
    ensures
        registro_de(b).programdo_test == (b[0] % 2 == 1),
        registro_de(b).verificado_test == (b[0] / 2 % 2 == 1),
        registro_de(b).programdo_bueno == (b[0] % 4 == 3),
        registro_de(b).verificado_bueno == (b[0] / 4 % 2 == 1),
        registro_de(b).abc == b[1],
        registro_de(b).z == b[2],
        registro_de(b).z_cont == b[3],
        registro_de(b).y == b[4],
        registro_de(b).y_cont == b[5],
        registro_de(b).tension1 == valor_be(b, 6),
        registro_de(b).tension2 == valor_be(b, 14),
        registro_de(b).tension3 == valor_be(b, 22),
{
    let b0 = b[0];
    assert((b0 & 1 == 1) == (b0 % 2 == 1) && (b0 & 2 == 2) == (b0 / 2 % 2 == 1) && (b0 & 3 == 3)
        == (b0 % 4 == 3) && (b0 & 4 == 4) == (b0 / 4 % 2 == 1)) by (bit_vector);
    lemma_valor_be(b, 6);
    lemma_valor_be(b, 14);
    lemma_valor_be(b, 22);
}

} // verus!
