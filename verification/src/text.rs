//! The calibration text: a calibration model written as four labelled lines
//! of decimal integers, and read back from exactly that layout.
//!
//! ```text
//! gyro_bias = [0, 0, 0]
//! accel_bias = [0, 0, 0]
//! accel_scale = [1000000, 0, 0, 0, 1000000, 0, 0, 0, 1000000]
//! gravity = [9806650]
//! ```

use vstd::prelude::*;
use crate::fixed::fits;
use crate::error::PersistenceError;
use crate::model::{AccelCorrection, CalibrationModel, Sample};
use crate::vector::{Mat3, Vec3};

verus! {

/// How many numbers a calibration text holds.
pub const FIELDS: usize = 16;

/// The numbers of a model in the order of the text: gyroscope bias,
/// accelerometer bias, accelerometer matrix by rows, gravity.
pub open spec fn fields(m: CalibrationModel) -> Seq<i32> {
    seq![
        m.gyro_bias.x,
        m.gyro_bias.y,
        m.gyro_bias.z,
        m.accel.bias.x,
        m.accel.bias.y,
        m.accel.bias.z,
        m.accel.scale.r0.x,
        m.accel.scale.r0.y,
        m.accel.scale.r0.z,
        m.accel.scale.r1.x,
        m.accel.scale.r1.y,
        m.accel.scale.r1.z,
        m.accel.scale.r2.x,
        m.accel.scale.r2.y,
        m.accel.scale.r2.z,
        m.gravity,
    ]
}

/// The model whose numbers are `f`, in the order of the text.
pub open spec fn model_of(f: Seq<i32>) -> CalibrationModel {
    CalibrationModel {
        gyro_bias: Vec3 { x: f[0], y: f[1], z: f[2] },
        accel: AccelCorrection {
            bias: Vec3 { x: f[3], y: f[4], z: f[5] },
            scale: Mat3 {
                r0: Vec3 { x: f[6], y: f[7], z: f[8] },
                r1: Vec3 { x: f[9], y: f[10], z: f[11] },
                r2: Vec3 { x: f[12], y: f[13], z: f[14] },
            },
        },
        gravity: f[15],
    }
}

/// The text that stands before the first number (`k` = 0), between the
/// numbers `k - 1` and `k`, and after the last (`k` = `FIELDS`).
pub open spec fn separator_text(k: int) -> Seq<u8> {
    if k == 0 {
        seq![
            'g' as u8, 'y' as u8, 'r' as u8, 'o' as u8, '_' as u8, 'b' as u8, 'i' as u8,
            'a' as u8, 's' as u8, ' ' as u8, '=' as u8, ' ' as u8, '[' as u8,
        ]
    } else if k == 3 {
        seq![
            ']' as u8, '\n' as u8, 'a' as u8, 'c' as u8, 'c' as u8, 'e' as u8, 'l' as u8,
            '_' as u8, 'b' as u8, 'i' as u8, 'a' as u8, 's' as u8, ' ' as u8, '=' as u8,
            ' ' as u8, '[' as u8,
        ]
    } else if k == 6 {
        seq![
            ']' as u8, '\n' as u8, 'a' as u8, 'c' as u8, 'c' as u8, 'e' as u8, 'l' as u8,
            '_' as u8, 's' as u8, 'c' as u8, 'a' as u8, 'l' as u8, 'e' as u8, ' ' as u8,
            '=' as u8, ' ' as u8, '[' as u8,
        ]
    } else if k == 15 {
        seq![
            ']' as u8, '\n' as u8, 'g' as u8, 'r' as u8, 'a' as u8, 'v' as u8, 'i' as u8,
            't' as u8, 'y' as u8, ' ' as u8, '=' as u8, ' ' as u8, '[' as u8,
        ]
    } else if k == 16 {
        seq![
            ']' as u8, '\n' as u8,
        ]
    } else {
        seq![',' as u8, ' ' as u8]
    }
}

/// The decimal digits of `n`, most significant first, without leading zeros.
pub open spec fn digits(n: nat) -> Seq<u8>
    decreases n,
{
    if n < 10 {
        seq![(48 + n) as u8]
    } else {
        digits(n / 10).push((48 + n % 10) as u8)
    }
}

/// The decimal text of `v`: a minus sign if it is negative, then the digits
/// of its magnitude.
pub open spec fn number_text(v: int) -> Seq<u8> {
    if v < 0 {
        seq!['-' as u8] + digits((-v) as nat)
    } else {
        digits(v as nat)
    }
}

/// The text up to and including the separator after the first `k` numbers.
pub open spec fn render(f: Seq<i32>, k: int) -> Seq<u8>
    decreases k,
{
    if k <= 0 {
        separator_text(0)
    } else {
        render(f, k - 1) + number_text(f[k - 1] as int) + separator_text(k)
    }
}

/// The calibration text of a model.
pub open spec fn model_text(m: CalibrationModel) -> Seq<u8> {
    render(fields(m), FIELDS as int)
}

fn separator(k: usize) -> (v: Vec<u8>)
    ensures
        v@ == separator_text(k as int),
{
    let v = if k == 0 {
        vec![
            'g' as u8, 'y' as u8, 'r' as u8, 'o' as u8, '_' as u8, 'b' as u8, 'i' as u8,
            'a' as u8, 's' as u8, ' ' as u8, '=' as u8, ' ' as u8, '[' as u8,
        ]
    } else if k == 3 {
        vec![
            ']' as u8, '\n' as u8, 'a' as u8, 'c' as u8, 'c' as u8, 'e' as u8, 'l' as u8,
            '_' as u8, 'b' as u8, 'i' as u8, 'a' as u8, 's' as u8, ' ' as u8, '=' as u8,
            ' ' as u8, '[' as u8,
        ]
    } else if k == 6 {
        vec![
            ']' as u8, '\n' as u8, 'a' as u8, 'c' as u8, 'c' as u8, 'e' as u8, 'l' as u8,
            '_' as u8, 's' as u8, 'c' as u8, 'a' as u8, 'l' as u8, 'e' as u8, ' ' as u8,
            '=' as u8, ' ' as u8, '[' as u8,
        ]
    } else if k == 15 {
        vec![
            ']' as u8, '\n' as u8, 'g' as u8, 'r' as u8, 'a' as u8, 'v' as u8, 'i' as u8,
            't' as u8, 'y' as u8, ' ' as u8, '=' as u8, ' ' as u8, '[' as u8,
        ]
    } else if k == 16 {
        vec![
            ']' as u8, '\n' as u8,
        ]
    } else {
        vec![',' as u8, ' ' as u8]
    };
    assert(v@ =~= separator_text(k as int));
    v
}

fn field_values(m: &CalibrationModel) -> (f: Vec<i32>)
    ensures
        f@ == fields(*m),
{
    let f = vec![
        m.gyro_bias.x,
        m.gyro_bias.y,
        m.gyro_bias.z,
        m.accel.bias.x,
        m.accel.bias.y,
        m.accel.bias.z,
        m.accel.scale.r0.x,
        m.accel.scale.r0.y,
        m.accel.scale.r0.z,
        m.accel.scale.r1.x,
        m.accel.scale.r1.y,
        m.accel.scale.r1.z,
        m.accel.scale.r2.x,
        m.accel.scale.r2.y,
        m.accel.scale.r2.z,
        m.gravity,
    ];
    assert(f@ =~= fields(*m));
    f
}

fn push_all(out: &mut Vec<u8>, piece: &Vec<u8>)
    ensures
        final(out)@ == old(out)@ + piece@,
{
    let mut i: usize = 0;
    while i < piece.len()
        invariant
            i <= piece.len(),
            out@ == old(out)@ + piece@.subrange(0, i as int),
        decreases piece.len() - i,
    {
        out.push(piece[i]);
        i = i + 1;
        assert(out@ =~= old(out)@ + piece@.subrange(0, i as int));
    }
    assert(piece@.subrange(0, i as int) =~= piece@);
}

fn push_digits(out: &mut Vec<u8>, n: u64)
    ensures
        final(out)@ == old(out)@ + digits(n as nat),
    decreases n,
{
    if n >= 10 {
        push_digits(out, n / 10);
    }
    out.push((48 + n % 10) as u8);
    assert(out@ =~= old(out)@ + digits(n as nat));
}

fn push_number(out: &mut Vec<u8>, v: i32)
    ensures
        final(out)@ == old(out)@ + number_text(v as int),
{
    if v < 0 {
        out.push('-' as u8);
        push_digits(out, (-(v as i64)) as u64);
        assert(out@ =~= old(out)@ + number_text(v as int));
    } else {
        push_digits(out, v as u64);
    }
}

/// Writes a model as calibration text.
pub fn to_text(m: &CalibrationModel) -> (text: Vec<u8>)
    ensures
        text@ == model_text(*m),
{
    let f = field_values(m);
    let mut out: Vec<u8> = separator(0);
    let mut k: usize = 0;
    while k < FIELDS
        invariant
            k <= FIELDS,
            f@ == fields(*m),
            out@ == render(f@, k as int),
        decreases FIELDS - k,
    {
        push_number(&mut out, f[k]);
        let sep = separator(k + 1);
        push_all(&mut out, &sep);
        k = k + 1;
    }
    out
}

spec fn is_digit(b: u8) -> bool {
    48 <= b <= 57
}

/// Reads digits from `pos` on, most significant first, on top of `acc`:
/// the number read and the position after its last digit.
spec fn scan_digits(s: Seq<u8>, pos: int, acc: int) -> (int, int)
    decreases s.len() - pos,
{
    if 0 <= pos < s.len() && is_digit(s[pos]) {
        scan_digits(s, pos + 1, acc * 10 + (s[pos] - 48))
    } else {
        (acc, pos)
    }
}

/// The number that stands at `pos`, with the position after it: an optional
/// minus sign and at least one digit, of a value that an `i32` holds.
spec fn number_at(s: Seq<u8>, pos: int) -> Option<(i32, int)> {
    let negative = 0 <= pos < s.len() && s[pos] == '-' as u8;
    let start = if negative {
        pos + 1
    } else {
        pos
    };
    let (magnitude, end) = scan_digits(s, start, 0);
    let v = if negative {
        -magnitude
    } else {
        magnitude
    };
    if end == start || !fits(v) {
        None
    } else {
        Some((v as i32, end))
    }
}

/// Whether `piece` stands in `s` at `pos`.
spec fn has_at(s: Seq<u8>, pos: int, piece: Seq<u8>) -> bool {
    0 <= pos && pos + piece.len() <= s.len() && s.subrange(pos, pos + piece.len()) == piece
}

/// The first `k` numbers of `s` with the position after the separator that
/// follows them, if `s` begins as a calibration text does.
spec fn scan(s: Seq<u8>, k: int) -> Option<(Seq<i32>, int)>
    decreases k,
{
    if k <= 0 {
        if has_at(s, 0, separator_text(0)) {
            Some((Seq::empty(), separator_text(0).len() as int))
        } else {
            None
        }
    } else {
        match scan(s, k - 1) {
            None => None,
            Some((values, pos)) => match number_at(s, pos) {
                None => None,
                Some((v, after)) => if has_at(s, after, separator_text(k)) {
                    Some((values.push(v), after + separator_text(k).len()))
                } else {
                    None
                },
            },
        }
    }
}

/// The model that `s` spells, read leniently: leading zeros pass.
spec fn decode(s: Seq<u8>) -> Option<CalibrationModel> {
    match scan(s, FIELDS as int) {
        None => None,
        Some((values, pos)) => if pos == s.len() {
            Some(model_of(values))
        } else {
            None
        },
    }
}

fn has_piece(s: &[u8], pos: usize, piece: &[u8]) -> (found: bool)
    ensures
        found == has_at(s@, pos as int, piece@),
{
    if pos > s.len() || piece.len() > s.len() - pos {
        return false;
    }
    let mut i: usize = 0;
    while i < piece.len()
        invariant
            i <= piece.len(),
            pos + piece.len() <= s.len(),
            s@.subrange(pos as int, pos + i) == piece@.subrange(0, i as int),
        decreases piece.len() - i,
    {
        if s[pos + i] != piece[i] {
            assert(s@.subrange(pos as int, pos + piece.len())[i as int] != piece@[i as int]);
            return false;
        }
        i = i + 1;
        assert(s@.subrange(pos as int, pos + i) =~= s@.subrange(pos as int, pos + i - 1).push(
            s@[pos + i - 1],
        ));
        assert(piece@.subrange(0, i as int) =~= piece@.subrange(0, i - 1).push(piece@[i - 1]));
    }
    assert(piece@.subrange(0, i as int) =~= piece@);
    true
}

fn read_number(s: &[u8], pos: usize) -> (r: Option<(i32, usize)>)
    requires
        pos <= s.len(),
    ensures
        r is Some <==> number_at(s@, pos as int) is Some,
        r is Some ==> number_at(s@, pos as int) == Some((r->Some_0.0, r->Some_0.1 as int)),
        r is Some ==> r->Some_0.1 <= s.len(),
{
    let negative = pos < s.len() && s[pos] == '-' as u8;
    let start: usize = if negative {
        pos + 1
    } else {
        pos
    };
    let mut i: usize = start;
    let mut acc: i64 = 0;
    let mut big = false;
    let ghost mut exact: int = 0;
    while i < s.len() && 48 <= s[i] && s[i] <= 57
        invariant
            start <= i <= s.len(),
            scan_digits(s@, start as int, 0) == scan_digits(s@, i as int, exact),
            0 <= exact,
            !big ==> acc == exact && exact <= 0x8000_0000,
            big ==> exact > 0x8000_0000,
        decreases s.len() - i,
    {
        let d: i64 = (s[i] - 48) as i64;
        proof {
            exact = exact * 10 + d;
        }
        if !big {
            acc = acc * 10 + d;
            if acc > 0x8000_0000 {
                big = true;
            }
        }
        i = i + 1;
    }
    if i == start || big {
        return None;
    }
    if negative {
        Some(((-acc) as i32, i))
    } else if acc > 0x7fff_ffff {
        None
    } else {
        Some((acc as i32, i))
    }
}

fn read_model(s: &[u8]) -> (r: Option<CalibrationModel>)
    ensures
        r == decode(s@),
{
    let first = separator(0);
    if !has_piece(s, 0, first.as_slice()) {
        proof {
            lemma_scan_stays_none(s@, 0, FIELDS as int);
        }
        return None;
    }
    let mut values: Vec<i32> = Vec::new();
    let mut pos: usize = first.len();
    let mut k: usize = 0;
    while k < FIELDS
        invariant
            k <= FIELDS,
            pos <= s.len(),
            values@.len() == k,
            scan(s@, k as int) == Some((values@, pos as int)),
        decreases FIELDS - k,
    {
        let number = read_number(s, pos);
        match number {
            None => {
                assert(scan(s@, k + 1) is None);
                assert(scan(s@, FIELDS as int) is None) by {
                    lemma_scan_stays_none(s@, k + 1, FIELDS as int);
                }
                return None;
            },
            Some((v, after)) => {
                let sep = separator(k + 1);
                if !has_piece(s, after, sep.as_slice()) {
                    assert(scan(s@, k + 1) is None);
                    assert(scan(s@, FIELDS as int) is None) by {
                        lemma_scan_stays_none(s@, k + 1, FIELDS as int);
                    }
                    return None;
                }
                values.push(v);
                pos = after + sep.len();
                k = k + 1;
            },
        }
    }
    if pos != s.len() {
        return None;
    }
    let m = CalibrationModel {
        gyro_bias: Vec3 { x: values[0], y: values[1], z: values[2] },
        accel: AccelCorrection {
            bias: Vec3 { x: values[3], y: values[4], z: values[5] },
            scale: Mat3 {
                r0: Vec3 { x: values[6], y: values[7], z: values[8] },
                r1: Vec3 { x: values[9], y: values[10], z: values[11] },
                r2: Vec3 { x: values[12], y: values[13], z: values[14] },
            },
        },
        gravity: values[15],
    };
    Some(m)
}

/// Once a text stops following the layout, reading on does not mend it.
proof fn lemma_scan_stays_none(s: Seq<u8>, k: int, j: int)
    requires
        0 <= k <= j,
        scan(s, k) is None,
    ensures
        scan(s, j) is None,
    decreases j - k,
{
    if k < j {
        lemma_scan_stays_none(s, k, j - 1);
    }
}

/// The digits of a number are digits, and there is at least one.
proof fn lemma_digits_are_digits(n: nat)
    ensures
        digits(n).len() >= 1,
        forall|i: int| 0 <= i < digits(n).len() ==> is_digit(#[trigger] digits(n)[i]),
    decreases n,
{
    if n >= 10 {
        lemma_digits_are_digits(n / 10);
    }
}

/// Reading over the digits of `n` from zero arrives at `n`.
proof fn lemma_scan_over_digits(s: Seq<u8>, pos: int, n: nat)
    requires
        has_at(s, pos, digits(n)),
    ensures
        scan_digits(s, pos, 0) == scan_digits(s, pos + digits(n).len(), n as int),
    decreases n,
{
    let ds = digits(n);
    let piece = s.subrange(pos, pos + ds.len());
    lemma_digits_are_digits(n);
    if n < 10 {
        assert(piece[0] == s[pos]);
    } else {
        let head = digits(n / 10);
        assert(s.subrange(pos, pos + head.len()) =~= piece.subrange(0, head.len() as int));
        assert(piece.subrange(0, head.len() as int) =~= head);
        lemma_scan_over_digits(s, pos, n / 10);
        assert(piece[head.len() as int] == s[pos + head.len()]);
        assert(s[pos + head.len()] == (48 + n % 10) as u8);
        assert((n / 10) * 10 + n % 10 == n) by (nonlinear_arith);
        assert(scan_digits(s, pos + head.len(), (n / 10) as int) == scan_digits(
            s,
            pos + head.len() + 1,
            (n / 10) * 10 + (s[pos + head.len()] - 48),
        ));
    }
}

/// A number written by `number_text` and followed by something that is no
/// digit is read back as it was.
proof fn lemma_number_at(s: Seq<u8>, pos: int, v: i32)
    requires
        has_at(s, pos, number_text(v as int)),
        pos + number_text(v as int).len() == s.len() || !is_digit(
            s[pos + number_text(v as int).len()],
        ),
    ensures
        number_at(s, pos) == Some((v, pos + number_text(v as int).len())),
{
    let text = number_text(v as int);
    let piece = s.subrange(pos, pos + text.len());
    if v < 0 {
        let n = (-v) as nat;
        lemma_digits_are_digits(n);
        assert(piece[0] == s[pos]);
        assert(s.subrange(pos + 1, pos + 1 + digits(n).len()) =~= piece.subrange(
            1,
            text.len() as int,
        ));
        assert(piece.subrange(1, text.len() as int) =~= digits(n));
        lemma_scan_over_digits(s, pos + 1, n);
    } else {
        let n = v as nat;
        lemma_digits_are_digits(n);
        assert(piece[0] == s[pos]);
        assert(is_digit(digits(n)[0]));
        lemma_scan_over_digits(s, pos, n);
    }
}

/// Every separator but the first begins with a byte that is no digit.
proof fn lemma_separator_start(k: int)
    ensures
        separator_text(k).len() >= 1,
        !is_digit(separator_text(k)[0]),
{
}

/// The text of the first `k` numbers begins the text of the first `j`.
proof fn lemma_render_prefix(f: Seq<i32>, k: int, j: int)
    requires
        0 <= k <= j,
    ensures
        render(f, k).len() <= render(f, j).len(),
        render(f, j).subrange(0, render(f, k).len() as int) == render(f, k),
    decreases j - k,
{
    if k == j {
        assert(render(f, j).subrange(0, render(f, k).len() as int) =~= render(f, k));
    } else {
        lemma_render_prefix(f, k, j - 1);
        assert(render(f, j).subrange(0, render(f, k).len() as int) =~= render(f, j - 1).subrange(
            0,
            render(f, k).len() as int,
        ));
    }
}

/// Reading the text of `f` gives back its first `k` numbers, for every `k`.
proof fn lemma_scan_render(f: Seq<i32>, k: int)
    requires
        f.len() == FIELDS,
        0 <= k <= FIELDS,
    ensures
        scan(render(f, FIELDS as int), k) == Some((f.take(k), render(f, k).len() as int)),
    decreases k,
{
    let s = render(f, FIELDS as int);
    lemma_render_prefix(f, k, FIELDS as int);
    if k == 0 {
        assert(f.take(0) =~= Seq::<i32>::empty());
    } else {
        lemma_scan_render(f, k - 1);
        let before = render(f, k - 1);
        let number = number_text(f[k - 1] as int);
        let sep = separator_text(k);
        let pos = before.len() as int;
        let upto = render(f, k);
        assert(upto == before + number + sep);
        lemma_separator_start(k);
        assert(s.subrange(pos, pos + number.len()) =~= upto.subrange(pos, pos + number.len()));
        assert(upto.subrange(pos, pos + number.len()) =~= number);
        assert(s[pos + number.len()] == upto[pos + number.len()]);
        assert(upto[pos + number.len()] == sep[0]);
        lemma_number_at(s, pos, f[k - 1]);
        assert(s.subrange(pos + number.len(), pos + number.len() + sep.len()) =~= upto.subrange(
            pos + number.len(),
            pos + number.len() + sep.len(),
        ));
        assert(upto.subrange(pos + number.len(), pos + number.len() + sep.len()) =~= sep);
        assert(f.take(k - 1).push(f[k - 1]) =~= f.take(k));
    }
}

/// Reading the text of a model gives the model back.
proof fn lemma_decode_text(m: CalibrationModel)
    ensures
        decode(model_text(m)) == Some(m),
{
    let f = fields(m);
    lemma_scan_render(f, FIELDS as int);
    assert(f.take(FIELDS as int) =~= f);
}

/// Two models with the same text are the same model.
pub proof fn lemma_text_injective(a: CalibrationModel, b: CalibrationModel)
    requires
        model_text(a) == model_text(b),
    ensures
        a == b,
{
    lemma_decode_text(a);
    lemma_decode_text(b);
}

/// What reading a text yields: the model of which it is the text, if there
/// is one and its invariants hold.
pub open spec fn parsed(s: Seq<u8>) -> Result<CalibrationModel, PersistenceError> {
    if exists|m: CalibrationModel| model_text(m) == s {
        let m = choose|m: CalibrationModel| model_text(m) == s;
        if m.wf() {
            Ok(m)
        } else {
            Err(PersistenceError::InvalidModel)
        }
    } else {
        Err(PersistenceError::Malformed)
    }
}

/// Writing a model and reading the text back yields the same model, and so
/// the same corrected sample for every raw sample.
pub proof fn lemma_round_trip(m: CalibrationModel)
    ensures
        m.wf() ==> parsed(model_text(m)) == Ok::<CalibrationModel, PersistenceError>(m),
        !m.wf() ==> parsed(model_text(m)) == Err::<CalibrationModel, PersistenceError>(
            PersistenceError::InvalidModel,
        ),
        forall|raw: Sample|
            m.wf() ==> #[trigger] parsed(model_text(m))->Ok_0.corrected(raw) == m.corrected(raw),
{
    let found = choose|x: CalibrationModel| model_text(x) == model_text(m);
    lemma_text_injective(found, m);
}

/// Reads a calibration text.
pub fn parse(s: &[u8]) -> (r: Result<CalibrationModel, PersistenceError>)
    ensures
        r == parsed(s@),
{
    match read_model(s) {
        None => {
            assert forall|m: CalibrationModel| model_text(m) != s@ by {
                lemma_decode_text(m);
            }
            Err(PersistenceError::Malformed)
        },
        Some(m) => {
            let text = to_text(&m);
            if text.len() != s.len() || !has_piece(s, 0, text.as_slice()) {
                assert forall|x: CalibrationModel| model_text(x) != s@ by {
                    lemma_decode_text(x);
                    assert(s@.subrange(0, s@.len() as int) =~= s@);
                }
                Err(PersistenceError::Malformed)
            } else {
                proof {
                    assert(s@.subrange(0, s@.len() as int) =~= s@);
                    assert(model_text(m) == s@);
                    let found = choose|x: CalibrationModel| model_text(x) == s@;
                    lemma_text_injective(found, m);
                }
                if m.is_valid() {
                    Ok(m)
                } else {
                    Err(PersistenceError::InvalidModel)
                }
            }
        },
    }
}

} // verus!
