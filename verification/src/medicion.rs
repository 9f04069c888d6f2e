use vstd::prelude::*;

use crate::datos::TestData;

verus! {

// ---------------------------------------------------------------------
// The two outputs of the board under test
//
// For an input combination `abc` (bit 0 = A, bit 1 = B, bit 2 = C) the
// board must answer Z = (A xor B) and (B or C) and
// Y = not((not(A or C)) xor (not(B and C))), that is (A or C) == (B and C).
// ---------------------------------------------------------------------

/// Bit `k` of `x`.
pub open spec fn bit(x: u8, k: u8) -> bool {
    (x >> k) & 1u8 == 1u8
}

/// The expected Z output for the input combination `conv`.
pub open spec fn z_esperada(conv: u8) -> bool {
    (bit(conv, 0) != bit(conv, 1)) && (bit(conv, 1) || bit(conv, 2))
}

/// The expected Y output for the input combination `conv`.
pub open spec fn y_esperada(conv: u8) -> bool {
    (bit(conv, 0) || bit(conv, 2)) == (bit(conv, 1) && bit(conv, 2))
}

/// The expected Z output for the input combination `conv`.
pub fn z_calculada(conv: u8) -> (r: bool)
    ensures
        r == z_esperada(conv),
{
    let a = (conv >> 0u8) & 1u8 == 1u8;
    let b = (conv >> 1u8) & 1u8 == 1u8;
    let c = (conv >> 2u8) & 1u8 == 1u8;
    (a ^ b) && (b || c)
}

/// The expected Y output for the input combination `conv`.
pub fn y_calculada(conv: u8) -> (r: bool)
    ensures
        r == y_esperada(conv),
{
    let a = (conv >> 0u8) & 1u8 == 1u8;
    let b = (conv >> 1u8) & 1u8 == 1u8;
    let c = (conv >> 2u8) & 1u8 == 1u8;
    !((!(a || c)) ^ (!(b && c)))
}

// ---------------------------------------------------------------------
// Recording measurements in the record
// ---------------------------------------------------------------------

/// The record after a measured Z output was appended: its bit goes in at
/// position `z_cont`, and `z_cont` counts it.
pub open spec fn con_z(d: TestData, z_medido: bool) -> TestData {
    TestData {
        z: d.z | ((if z_medido { 1u8 } else { 0u8 }) << d.z_cont),
        z_cont: (d.z_cont + 1) as u8,
        ..d
    }
}

/// The record after a measured Y output was appended.
pub open spec fn con_y(d: TestData, y_medido: bool) -> TestData {
    TestData {
        y: d.y | ((if y_medido { 1u8 } else { 0u8 }) << d.y_cont),
        y_cont: (d.y_cont + 1) as u8,
        ..d
    }
}

/// Appends the measured Z output for the input combination `conv` to the
/// record; true when it is the expected one.
pub fn get_z(struct_in: &mut TestData, z_medido: bool, conv: u8) -> (ret: bool)
    requires
        old(struct_in).z_cont < 8,
    ensures
        *final(struct_in) == con_z(*old(struct_in), z_medido),
        ret == (z_medido == z_esperada(conv)),
{
    let z_calculado = z_calculada(conv);
    let z: u8 = if z_medido { 1 } else { 0 };
    struct_in.z = struct_in.z | (z << struct_in.z_cont);
    struct_in.z_cont = struct_in.z_cont + 1;
    z_calculado == z_medido
}

/// Appends the measured Y output for the input combination `conv` to the
/// record; true when it is the expected one.
pub fn get_y(struct_in: &mut TestData, y_medido: bool, conv: u8) -> (ret: bool)
    requires
        old(struct_in).y_cont < 8,
    ensures
        *final(struct_in) == con_y(*old(struct_in), y_medido),
        ret == (y_medido == y_esperada(conv)),
{
    let y_calculado = y_calculada(conv);
    let y: u8 = if y_medido { 1 } else { 0 };
    struct_in.y = struct_in.y | (y << struct_in.y_cont);
    struct_in.y_cont = struct_in.y_cont + 1;
    y_calculado == y_medido
}

/// Records the input combination that was put on the board.
pub fn abc_put(abc: u8, test_data: &mut TestData)
    ensures
        *final(test_data) == (TestData { abc, ..*old(test_data) }),
{
    test_data.abc = abc;
}

/// Records that the test firmware was programmed, and whether it verified;
/// returns the latter.
pub fn programar_y_verificar_test(struct_in: &mut TestData, verificado: bool) -> (r: bool)
    ensures
        *final(struct_in) == (TestData {
            programdo_test: true,
            verificado_test: verificado,
            ..*old(struct_in)
        }),
        r == verificado,
{
    struct_in.verificado_test = verificado;
    struct_in.programdo_test = true;
    struct_in.verificado_test
}

/// Records that the final firmware was programmed, and whether it
/// verified; returns the latter.
pub fn programar_y_verificar_bueno(struct_in: &mut TestData, verificado: bool) -> (r: bool)
    ensures
        *final(struct_in) == (TestData {
            programdo_bueno: true,
            verificado_bueno: verificado,
            ..*old(struct_in)
        }),
        r == verificado,
{
    struct_in.verificado_bueno = verificado;
    struct_in.programdo_bueno = true;
    struct_in.verificado_bueno
}

/// The 16-bit converter reading sent as a high and a low byte.
pub fn valor_adc(adch: u8, adcl: u8) -> (adc: u16)
    ensures
        adc == adch * 256 + adcl,
{
    let h = adch as u16;
    let l = adcl as u16;
    assert((h << 8u16) == h * 256 && h * 256 + l <= 0xffff) by (bit_vector)
        requires
            h < 256,
            l < 256,
    ;
    (h << 8u16) + l
}

/// The measurements in a record are well formed: at most eight of each
/// output, and no bit set at or above their count.
pub open spec fn registro_valido(d: TestData) -> bool {
    &&& d.z_cont <= 8
    &&& d.y_cont <= 8
    &&& d.z >> d.z_cont == 0
    &&& d.y >> d.y_cont == 0
}

proof fn lemma_anotar_bit(x: u8, n: u8, medido: bool)
    requires
        n < 8,
        x >> n == 0,
    ensures
        ({
            let x2 = x | ((if medido { 1u8 } else { 0u8 }) << n);
            &&& x2 >> ((n + 1) as u8) == 0
            &&& bit(x2, n) == medido
            &&& forall|k: u8| k < n ==> bit(x2, k) == bit(x, k)
        }),
{
    let v: u8 = if medido { 1u8 } else { 0u8 };
    let x2 = x | (v << n);
    assert(x2 >> ((n + 1) as u8) == 0 && (((x2 >> n) & 1u8 == 1u8) == (v == 1u8))) by (bit_vector)
        requires
            n < 8,
            x >> n == 0,
            v <= 1,
            x2 == x | (v << n),
    ;
    assert forall|k: u8| k < n implies bit(x2, k) == bit(x, k) by {
        assert((x2 >> k) & 1u8 == (x >> k) & 1u8) by (bit_vector)
            requires
                k < n,
                n < 8,
                v <= 1,
                x2 == x | (v << n),
        ;
    }
}

/// Appending a measured Z output to a well-formed record keeps it well
/// formed, puts the measurement at bit `z_cont` and leaves the earlier
/// measurements as they were.
pub proof fn ley_anotar_z(d: TestData, z_medido: bool)
    requires
        registro_valido(d),
        d.z_cont < 8,
    ensures
        registro_valido(con_z(d, z_medido)),
        bit(con_z(d, z_medido).z, d.z_cont) == z_medido,
        forall|k: u8| k < d.z_cont ==> bit(con_z(d, z_medido).z, k) == bit(d.z, k),
{
    lemma_anotar_bit(d.z, d.z_cont, z_medido);
}

/// Appending a measured Y output to a well-formed record keeps it well
/// formed, puts the measurement at bit `y_cont` and leaves the earlier
/// measurements as they were.
pub proof fn ley_anotar_y(d: TestData, y_medido: bool)
    requires
        registro_valido(d),
        d.y_cont < 8,
    ensures
        registro_valido(con_y(d, y_medido)),
        bit(con_y(d, y_medido).y, d.y_cont) == y_medido,
        forall|k: u8| k < d.y_cont ==> bit(con_y(d, y_medido).y, k) == bit(d.y, k),
{
    lemma_anotar_bit(d.y, d.y_cont, y_medido);
}

// ---------------------------------------------------------------------
// The results screen
// ---------------------------------------------------------------------

/// Whether the recorded Z output for the input combination `rect` is the
/// expected one (shown green, else red).
pub fn resultado_z(test_data: &TestData, rect: u8) -> (r: bool)
    requires
        rect < 8,
    ensures
        r == (bit(test_data.z, rect) == z_esperada(rect)),
{
    let z_calculado = z_calculada(rect);
    let z = (test_data.z >> rect) & 1u8 == 1u8;
    z == z_calculado
}

/// Whether the recorded Y output for the input combination `rect` is the
/// expected one (shown green, else red).
pub fn resultado_y(test_data: &TestData, rect: u8) -> (r: bool)
    requires
        rect < 8,
    ensures
        r == (bit(test_data.y, rect) == y_esperada(rect)),
{
    let y_calculado = y_calculada(rect);
    let y_real = (test_data.y >> rect) & 1u8 == 1u8;
    y_real == y_calculado
}

/// The binary digit of a bit.
pub open spec fn digito(b: bool) -> char {
    if b {
        '1'
    } else {
        '0'
    }
}

/// Row `i` of the truth table on the results screen: the input
/// combination in three binary digits, then the recorded Z and Y outputs,
/// `X` for one not yet measured. A row with Y measured but not Z is empty.
pub open spec fn texto_renglon(i: u8, d: TestData) -> Seq<char> {
    let abc = seq!['|', digito(bit(i, 2)), digito(bit(i, 1)), digito(bit(i, 0)), '|'];
    if d.z_cont > d.abc {
        if d.y_cont > d.abc {
            abc + seq![digito(bit(d.z, i)), '|', digito(bit(d.y, i)), '|']
        } else {
            abc + seq![digito(bit(d.z, i)), '|', 'X', '|']
        }
    } else {
        if d.y_cont > d.abc {
            Seq::empty()
        } else {
            abc + seq!['X', '|', 'X', '|']
        }
    }
}

fn poner_digito(s: &mut String, b: bool)
    ensures
        final(s)@ == old(s)@.push(digito(b)),
{
    if b {
        proof {
            reveal_strlit("1");
        }
        s.append("1");
    } else {
        proof {
            reveal_strlit("0");
        }
        s.append("0");
    }
}

/// Row `i` of the truth table on the results screen.
pub fn renglon(i: u8, test_data: &TestData) -> (r: String)
    requires
        i < 8,
    ensures
        r@ == texto_renglon(i, *test_data),
        r@.len() == 0 <==> (test_data.z_cont <= test_data.abc && test_data.y_cont > test_data.abc),
        r@.len() > 0 ==> r@.len() == 9 && r@.subrange(0, 5) == seq![
            '|',
            digito(bit(i, 2)),
            digito(bit(i, 1)),
            digito(bit(i, 0)),
            '|',
        ],
{
    proof {
        ley_renglon(i, *test_data);
    }
    proof {
        reveal_strlit("|");
        reveal_strlit("X");
    }
    let z_medida = test_data.z_cont > test_data.abc;
    let y_medida = test_data.y_cont > test_data.abc;
    let mut r = String::new();
    if !z_medida && y_medida {
        return r;
    }
    r.append("|");
    poner_digito(&mut r, (i >> 2u8) & 1u8 == 1u8);
    poner_digito(&mut r, (i >> 1u8) & 1u8 == 1u8);
    poner_digito(&mut r, (i >> 0u8) & 1u8 == 1u8);
    r.append("|");
    if z_medida {
        poner_digito(&mut r, (test_data.z >> i) & 1u8 == 1u8);
    } else {
        r.append("X");
    }
    r.append("|");
    if y_medida {
        poner_digito(&mut r, (test_data.y >> i) & 1u8 == 1u8);
    } else {
        r.append("X");
    }
    r.append("|");
    assert(r@ =~= texto_renglon(i, *test_data));
    r
}

/// What row `i` of the truth table shows. It is empty exactly when a Y
/// output but no Z output of the current combination was read; otherwise
/// it has nine characters: the three binary digits of `i` (most
/// significant first, between bars), then the Z and then the Y column,
/// each the recorded bit for combination `i` when that output of the
/// current combination was read and `X` when it was not.
pub proof fn ley_renglon(i: u8, d: TestData)
    requires
        i < 8,
    ensures
        ({
            let t = texto_renglon(i, d);
            &&& t.len() == 0 <==> (d.z_cont <= d.abc && d.y_cont > d.abc)
            &&& t.len() > 0 ==> {
                &&& t.len() == 9
                &&& t.subrange(0, 5) == seq![
                    '|',
                    digito(bit(i, 2)),
                    digito(bit(i, 1)),
                    digito(bit(i, 0)),
                    '|',
                ]
                &&& t[0] == '|' && t[4] == '|' && t[6] == '|' && t[8] == '|'
                &&& (t[1] == '0' || t[1] == '1') && (t[2] == '0' || t[2] == '1') && (t[3] == '0'
                    || t[3] == '1')
                &&& (if t[1] == '1' { 4int } else { 0int }) + (if t[2] == '1' {
                    2int
                } else {
                    0int
                }) + (if t[3] == '1' { 1int } else { 0int }) == i
                &&& t[5] == (if d.z_cont > d.abc {
                    if (d.z >> i) % 2 == 1 {
                        '1'
                    } else {
                        '0'
                    }
                } else {
                    'X'
                })
                &&& t[7] == (if d.y_cont > d.abc {
                    if (d.y >> i) % 2 == 1 {
                        '1'
                    } else {
                        '0'
                    }
                } else {
                    'X'
                })
            }
        }),
{
    let t = texto_renglon(i, d);
    assert((if (i >> 2u8) & 1u8 == 1u8 { 4int } else { 0int }) + (if (i >> 1u8) & 1u8 == 1u8 {
        2int
    } else {
        0int
    }) + (if (i >> 0u8) & 1u8 == 1u8 { 1int } else { 0int }) == i) by (bit_vector)
        requires
            i < 8,
    ;
    let (z, y) = (d.z, d.y);
    assert(((z >> i) & 1u8 == 1u8) == ((z >> i) % 2 == 1) && ((y >> i) & 1u8 == 1u8) == ((y >> i)
        % 2 == 1)) by (bit_vector);
    if t.len() > 0 {
        assert(t.subrange(0, 5) =~= seq![
            '|',
            digito(bit(i, 2)),
            digito(bit(i, 1)),
            digito(bit(i, 0)),
            '|',
        ]);
    }
}

/// The truth table the board must follow, for input combinations 0 to 7:
/// Z is 1 for 2, 5 and 6, and Y is 1 for 0, 2, 6 and 7.
pub proof fn ley_tabla()
    ensures
        !z_esperada(0),
        !z_esperada(1),
        z_esperada(2),
        !z_esperada(3),
        !z_esperada(4),
        z_esperada(5),
        z_esperada(6),
        !z_esperada(7),
        y_esperada(0),
        !y_esperada(1),
        y_esperada(2),
        !y_esperada(3),
        !y_esperada(4),
        !y_esperada(5),
        y_esperada(6),
        y_esperada(7),
{
    assert(((0u8 >> 0u8) & 1u8 == 1u8) == false && ((0u8 >> 1u8) & 1u8 == 1u8) == false && ((0u8 >> 2u8) & 1u8 == 1u8) == false && ((1u8 >> 0u8) & 1u8 == 1u8) == true && ((1u8 >> 1u8) & 1u8 == 1u8) == false && ((1u8 >> 2u8) & 1u8 == 1u8) == false && ((2u8 >> 0u8) & 1u8 == 1u8) == false && ((2u8 >> 1u8) & 1u8 == 1u8) == true && ((2u8 >> 2u8) & 1u8 == 1u8) == false && ((3u8 >> 0u8) & 1u8 == 1u8) == true && ((3u8 >> 1u8) & 1u8 == 1u8) == true && ((3u8 >> 2u8) & 1u8 == 1u8) == false && ((4u8 >> 0u8) & 1u8 == 1u8) == false && ((4u8 >> 1u8) & 1u8 == 1u8) == false && ((4u8 >> 2u8) & 1u8 == 1u8) == true && ((5u8 >> 0u8) & 1u8 == 1u8) == true && ((5u8 >> 1u8) & 1u8 == 1u8) == false && ((5u8 >> 2u8) & 1u8 == 1u8) == true && ((6u8 >> 0u8) & 1u8 == 1u8) == false && ((6u8 >> 1u8) & 1u8 == 1u8) == true && ((6u8 >> 2u8) & 1u8 == 1u8) == true && ((7u8 >> 0u8) & 1u8 == 1u8) == true && ((7u8 >> 1u8) & 1u8 == 1u8) == true && ((7u8 >> 2u8) & 1u8 == 1u8) == true) by (bit_vector);
}

} // verus!
