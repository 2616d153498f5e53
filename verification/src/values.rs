//! The runtime value domain: typed field values, their equality, ordering
//! and arithmetic.
//!
//! Fractional literals are held exactly as scaled decimals
//! (`mantissa / 10^scale`) rather than binary floating point, so every
//! comparison and arithmetic step is exact integer arithmetic.

use vstd::prelude::*;

use crate::CoilError;

verus! {

/// Largest number of fractional digits a decimal value may carry.
pub const MAX_SCALE: u32 = 9;

/// An exact decimal number with value `mantissa / 10^scale`.
#[derive(Clone, Copy, Debug, PartialEq, Eq, Structural)]
pub struct Decimal {
    pub mantissa: i64,
    pub scale: u32,
}

/// Declared column type.
#[derive(Clone, Copy, Debug, PartialEq, Eq, Structural)]
pub enum FieldType {
    Text,
    Number,
}

/// A runtime value: absent, text, integer, or exact decimal.
#[derive(Clone, Debug, PartialEq)]
pub enum FieldValue {
    Null,
    Text(String),
    Integer(i64),
    Float(Decimal),
}

/// The mathematical model of a [`FieldValue`]: text as a character
/// sequence, numbers as unbounded integers.
pub enum ValV {
    Null,
    Text(Seq<char>),
    Int(int),
    Dec(int, nat),
}

pub open spec fn val_vw(v: FieldValue) -> ValV {
    match v {
        FieldValue::Null => ValV::Null,
        FieldValue::Text(s) => ValV::Text(s@),
        FieldValue::Integer(i) => ValV::Int(i as int),
        FieldValue::Float(d) => ValV::Dec(d.mantissa as int, d.scale as nat),
    }
}

/// A value is well formed when its decimal scale is within bounds.
pub open spec fn val_wf(v: FieldValue) -> bool {
    match v {
        FieldValue::Float(d) => d.scale <= MAX_SCALE,
        _ => true,
    }
}

pub open spec fn pow10(e: nat) -> nat
    decreases e,
{
    if e == 0 {
        1
    } else {
        10 * pow10((e - 1) as nat)
    }
}

pub proof fn lemma_pow10_pos(e: nat)
    ensures
        pow10(e) >= 1,
    decreases e,
{
    if e > 0 {
        lemma_pow10_pos((e - 1) as nat);
    }
}

pub proof fn lemma_pow10_mono(a: nat, b: nat)
    requires
        a <= b,
    ensures
        pow10(a) <= pow10(b),
        pow10(a) >= 1,
    decreases b,
{
    lemma_pow10_pos(a);
    if a < b {
        lemma_pow10_mono(a, (b - 1) as nat);
    }
}

pub proof fn lemma_pow10_values()
    ensures
        pow10(9) == 1000000000,
        pow10(18) == 1000000000000000000,
{
    reveal_with_fuel(pow10, 19);
}

/// Computes `10^e` exactly.
pub fn pow10_u64(e: u32) -> (r: u64)
    requires
        e <= 18,
    ensures
        r as nat == pow10(e as nat),
{
    proof {
        lemma_pow10_values();
    }
    let mut r: u64 = 1;
    let mut i: u32 = 0;
    while i < e
        invariant
            i <= e,
            e <= 18,
            r as nat == pow10(i as nat),
        decreases e - i,
    {
        proof {
            lemma_pow10_mono(i as nat, 17);
            lemma_pow10_values();
            assert(pow10(18) == 10 * pow10(17));
        }
        r = r * 10;
        i = i + 1;
    }
    r
}

pub open spec fn is_numeric(v: ValV) -> bool {
    v is Int || v is Dec
}

/// Mantissa of a numeric value (an integer is a decimal of scale zero).
pub open spec fn mant(v: ValV) -> int {
    match v {
        ValV::Int(i) => i,
        ValV::Dec(m, _) => m,
        _ => 0,
    }
}

/// Scale of a numeric value.
pub open spec fn scl(v: ValV) -> nat {
    match v {
        ValV::Dec(_, s) => s,
        _ => 0,
    }
}

/// Lexicographic order on character sequences.
pub open spec fn seq_char_lt(a: Seq<char>, b: Seq<char>) -> bool {
    ||| exists|i: int|
        0 <= i < a.len() && i < b.len() && (forall|j: int| 0 <= j < i ==> a[j] == b[j]) && a[i]
            < b[i]
    ||| (a.len() < b.len() && (forall|j: int| 0 <= j < a.len() ==> a[j] == b[j]))
}

/// Equality of values: structural per kind; `Null` equals only `Null`;
/// decimals compare by their mathematical value.
pub open spec fn sp_val_eq(a: ValV, b: ValV) -> bool {
    match (a, b) {
        (ValV::Null, ValV::Null) => true,
        (ValV::Text(x), ValV::Text(y)) => x == y,
        (ValV::Int(x), ValV::Int(y)) => x == y,
        (ValV::Dec(m1, s1), ValV::Dec(m2, s2)) => m1 * pow10(s2) == m2 * pow10(s1),
        _ => false,
    }
}

/// Strict numeric order, by cross-multiplied mantissas.
pub open spec fn sp_num_lt(a: ValV, b: ValV) -> bool {
    match (a, b) {
        (ValV::Int(x), ValV::Int(y)) => x < y,
        (ValV::Int(x), ValV::Dec(m, s)) => x * pow10(s) < m,
        (ValV::Dec(m, s), ValV::Int(y)) => m < y * pow10(s),
        (ValV::Dec(m1, s1), ValV::Dec(m2, s2)) => m1 * pow10(s2) < m2 * pow10(s1),
        _ => false,
    }
}

/// Ordering is defined between two numbers or two texts, nowhere else.
pub open spec fn sp_comparable(a: ValV, b: ValV) -> bool {
    (is_numeric(a) && is_numeric(b)) || (a is Text && b is Text)
}

/// Strict order, meaningful when `sp_comparable(a, b)` holds.
pub open spec fn sp_val_lt(a: ValV, b: ValV) -> bool {
    match (a, b) {
        (ValV::Text(x), ValV::Text(y)) => seq_char_lt(x, y),
        _ => sp_num_lt(a, b),
    }
}

/// Whether the arithmetic result of one exec operation matches its model.
pub open spec fn arith_matches(r: Result<FieldValue, CoilError>, s: Result<ValV, CoilError>) -> bool {
    match r {
        Ok(v) => val_wf(v) && s == Result::<ValV, CoilError>::Ok(val_vw(v)),
        Err(e) => s == Result::<ValV, CoilError>::Err(e),
    }
}

/// Multiplies a mantissa by `10^e`, exactly, in a wide intermediate.
fn scaled_mant(m: i64, e: u32) -> (r: i128)
    requires
        e <= 2 * MAX_SCALE,
    ensures
        r == m * pow10(e as nat),
        (i64::MIN as int) * 1000000000000000000 <= r <= (i64::MAX as int) * 1000000000000000000,
{
    proof {
        lemma_pow10_mono(e as nat, 18);
        lemma_pow10_values();
    }
    let p = pow10_u64(e) as i128;
    proof {
        assert((i64::MIN as int) * 1000000000000000000 <= (m as int) * (p as int) <= (
        i64::MAX as int) * 1000000000000000000) by (nonlinear_arith)
            requires
                i64::MIN <= m <= i64::MAX,
                1 <= p <= 1000000000000000000,
        ;
    }
    (m as i128) * p
}

/// Compares two texts in lexicographic character order.
fn text_less(x: &str, y: &str) -> (r: bool)
    ensures
        r == seq_char_lt(x@, y@),
{
    let xn = x.unicode_len();
    let yn = y.unicode_len();
    let limit: usize = if xn < yn {
        xn
    } else {
        yn
    };
    let mut i: usize = 0;
    while i < limit
        invariant
            i <= limit,
            limit == if xn < yn {
                xn
            } else {
                yn
            },
            xn == x@.len(),
            yn == y@.len(),
            forall|j: int| 0 <= j < i ==> x@[j] == y@[j],
        decreases limit - i,
    {
        let cx = x.get_char(i);
        let cy = y.get_char(i);
        if cx != cy {
            if cx < cy {
                assert(seq_char_lt(x@, y@)) by {
                    assert(0 <= i < x@.len() && (i as int) < y@.len() && (forall|j: int|
                        0 <= j < i ==> x@[j] == y@[j]) && x@[i as int] < y@[i as int]);
                };
                return true;
            } else {
                assert(!seq_char_lt(x@, y@)) by {
                    assert(forall|k: int|
                        !(0 <= k < x@.len() && k < y@.len() && (forall|j: int|
                            0 <= j < k ==> x@[j] == y@[j]) && x@[k] < y@[k])) by {
                        assert forall|k: int|
                            0 <= k < x@.len() && k < y@.len() && (forall|j: int|
                                0 <= j < k ==> x@[j] == y@[j]) implies !(x@[k] < y@[k]) by {
                            if k > i {
                                assert(x@[i as int] == y@[i as int]);
                                assert(false);
                            }
                        };
                    };
                };
                return false;
            }
        }
        i = i + 1;
    }
    if xn < yn {
        assert(seq_char_lt(x@, y@));
        return true;
    }
    assert(!seq_char_lt(x@, y@)) by {
        assert forall|k: int|
            0 <= k < x@.len() && k < y@.len() && (forall|j: int|
                0 <= j < k ==> x@[j] == y@[j]) implies !(x@[k] < y@[k]) by {
            assert(x@[k] == y@[k]);
        };
    };
    false
}

impl FieldType {
    /// A value fits a column when it is `Null` or its kind matches the
    /// declared type; both integers and decimals satisfy `Number`.
    pub fn check_field_value_type(&self, field_value: &FieldValue) -> (r: bool)
        ensures
            r == type_compatible(*self, val_vw(*field_value)),
    {
        match field_value {
            FieldValue::Null => true,
            FieldValue::Text(_) => matches!(self, FieldType::Text),
            FieldValue::Integer(_) => matches!(self, FieldType::Number),
            FieldValue::Float(_) => matches!(self, FieldType::Number),
        }
    }
}

pub open spec fn type_compatible(t: FieldType, v: ValV) -> bool {
    match v {
        ValV::Null => true,
        ValV::Text(_) => t is Text,
        ValV::Int(_) => t is Number,
        ValV::Dec(_, _) => t is Number,
    }
}

/// Decides semantic equality of two values.
pub fn value_eq(a: &FieldValue, b: &FieldValue) -> (r: bool)
    requires
        val_wf(*a),
        val_wf(*b),
    ensures
        r == sp_val_eq(val_vw(*a), val_vw(*b)),
{
    match (a, b) {
        (FieldValue::Null, FieldValue::Null) => true,
        (FieldValue::Text(x), FieldValue::Text(y)) => x.eq(y),
        (FieldValue::Integer(x), FieldValue::Integer(y)) => x == y,
        (FieldValue::Float(d1), FieldValue::Float(d2)) => {
            let l = scaled_mant(d1.mantissa, d2.scale);
            let r = scaled_mant(d2.mantissa, d1.scale);
            l == r
        },
        _ => false,
    }
}

/// Decides the strict order of two values; errs on incomparable kinds.
pub fn value_lt(a: &FieldValue, b: &FieldValue) -> (r: Result<bool, CoilError>)
    requires
        val_wf(*a),
        val_wf(*b),
    ensures
        sp_comparable(val_vw(*a), val_vw(*b)) ==> r == Result::<bool, CoilError>::Ok(
            sp_val_lt(val_vw(*a), val_vw(*b)),
        ),
        !sp_comparable(val_vw(*a), val_vw(*b)) ==> r == Result::<bool, CoilError>::Err(
            CoilError::MismatchedTypes,
        ),
{
    match (a, b) {
        (FieldValue::Text(x), FieldValue::Text(y)) => Ok(text_less(x.as_str(), y.as_str())),
        (FieldValue::Integer(x), FieldValue::Integer(y)) => Ok(x < y),
        (FieldValue::Integer(x), FieldValue::Float(d)) => {
            let l = scaled_mant(*x, d.scale);
            Ok(l < d.mantissa as i128)
        },
        (FieldValue::Float(d), FieldValue::Integer(y)) => {
            let r = scaled_mant(*y, d.scale);
            Ok((d.mantissa as i128) < r)
        },
        (FieldValue::Float(d1), FieldValue::Float(d2)) => {
            let l = scaled_mant(d1.mantissa, d2.scale);
            let r = scaled_mant(d2.mantissa, d1.scale);
            Ok(l < r)
        },
        _ => Err(CoilError::MismatchedTypes),
    }
}

pub open spec fn in_i64(x: int) -> bool {
    i64::MIN <= x <= i64::MAX
}

pub open spec fn iabs(x: int) -> int {
    if x >= 0 {
        x
    } else {
        -x
    }
}

/// Integer division truncated toward zero (for positive divisors).
pub open spec fn tdiv(a: int, b: int) -> int {
    if a >= 0 {
        a / b
    } else {
        -((-a) / b)
    }
}

pub open spec fn int_pow(x: int, e: nat) -> int
    decreases e,
{
    if e == 0 {
        1
    } else {
        int_pow(x, (e - 1) as nat) * x
    }
}

/// Sum of two values. Integers stay integers; a decimal operand promotes
/// the result to a decimal at the larger scale, computed exactly.
pub open spec fn sp_val_add(a: ValV, b: ValV) -> Result<ValV, CoilError> {
    if !(is_numeric(a) && is_numeric(b)) {
        Err(CoilError::MismatchedTypes)
    } else if a is Int && b is Int {
        let s = mant(a) + mant(b);
        if in_i64(s) {
            Ok(ValV::Int(s))
        } else {
            Err(CoilError::NumericOverflow)
        }
    } else {
        let s = if scl(a) >= scl(b) {
            scl(a)
        } else {
            scl(b)
        };
        let m = mant(a) * pow10((s - scl(a)) as nat) + mant(b) * pow10((s - scl(b)) as nat);
        if in_i64(m) {
            Ok(ValV::Dec(m, s))
        } else {
            Err(CoilError::NumericOverflow)
        }
    }
}

/// Difference of two values, under the same promotion rule as the sum.
pub open spec fn sp_val_sub(a: ValV, b: ValV) -> Result<ValV, CoilError> {
    if !(is_numeric(a) && is_numeric(b)) {
        Err(CoilError::MismatchedTypes)
    } else if a is Int && b is Int {
        let s = mant(a) - mant(b);
        if in_i64(s) {
            Ok(ValV::Int(s))
        } else {
            Err(CoilError::NumericOverflow)
        }
    } else {
        let s = if scl(a) >= scl(b) {
            scl(a)
        } else {
            scl(b)
        };
        let m = mant(a) * pow10((s - scl(a)) as nat) - mant(b) * pow10((s - scl(b)) as nat);
        if in_i64(m) {
            Ok(ValV::Dec(m, s))
        } else {
            Err(CoilError::NumericOverflow)
        }
    }
}

/// Product of two values. A decimal result beyond [`MAX_SCALE`]
/// fractional digits is truncated toward zero at that scale.
pub open spec fn sp_val_mul(a: ValV, b: ValV) -> Result<ValV, CoilError> {
    if !(is_numeric(a) && is_numeric(b)) {
        Err(CoilError::MismatchedTypes)
    } else if a is Int && b is Int {
        let p = mant(a) * mant(b);
        if in_i64(p) {
            Ok(ValV::Int(p))
        } else {
            Err(CoilError::NumericOverflow)
        }
    } else {
        let p = mant(a) * mant(b);
        let s = scl(a) + scl(b);
        if s <= MAX_SCALE {
            if in_i64(p) {
                Ok(ValV::Dec(p, s))
            } else {
                Err(CoilError::NumericOverflow)
            }
        } else {
            let q = tdiv(p, pow10((s - MAX_SCALE) as nat) as int);
            if in_i64(q) {
                Ok(ValV::Dec(q, MAX_SCALE as nat))
            } else {
                Err(CoilError::NumericOverflow)
            }
        }
    }
}

/// Quotient of two values: always a decimal at [`MAX_SCALE`] fractional
/// digits, truncated toward zero.
pub open spec fn sp_val_div(a: ValV, b: ValV) -> Result<ValV, CoilError> {
    if !(is_numeric(a) && is_numeric(b)) {
        Err(CoilError::MismatchedTypes)
    } else if mant(b) == 0 {
        Err(CoilError::DivisionByZero)
    } else {
        let q = (iabs(mant(a)) * pow10((scl(b) + MAX_SCALE) as nat)) / (iabs(mant(b)) * pow10(
            scl(a),
        ));
        let m = if (mant(a) < 0) != (mant(b) < 0) {
            -q
        } else {
            q
        };
        if in_i64(m) {
            Ok(ValV::Dec(m, MAX_SCALE as nat))
        } else {
            Err(CoilError::NumericOverflow)
        }
    }
}

/// Remainder, for integers only, truncated toward zero as in the host
/// language.
pub open spec fn sp_val_rem(a: ValV, b: ValV) -> Result<ValV, CoilError> {
    if !(a is Int && b is Int) {
        Err(CoilError::MismatchedTypes)
    } else if mant(b) == 0 {
        Err(CoilError::DivisionByZero)
    } else {
        let m = if mant(a) >= 0 {
            mant(a) % iabs(mant(b))
        } else {
            -((-mant(a)) % iabs(mant(b)))
        };
        Ok(ValV::Int(m))
    }
}

/// Integer exponentiation. The exponent must be a non-negative integer
/// no larger than 63; every partial power must be representable.
pub open spec fn sp_val_pow(a: ValV, b: ValV) -> Result<ValV, CoilError> {
    if !(a is Int && b is Int) {
        Err(CoilError::MismatchedTypes)
    } else if mant(b) < 0 {
        Err(CoilError::MismatchedTypes)
    } else if mant(b) > 63 {
        Err(CoilError::NumericOverflow)
    } else if forall|k: int| 0 <= k <= mant(b) ==> #[trigger] in_i64(int_pow(mant(a), k as nat)) {
        Ok(ValV::Int(int_pow(mant(a), mant(b) as nat)))
    } else {
        Err(CoilError::NumericOverflow)
    }
}

/// Arithmetic negation of a number.
pub open spec fn sp_val_neg(a: ValV) -> Result<ValV, CoilError> {
    match a {
        ValV::Int(x) => if in_i64(-x) {
            Ok(ValV::Int(-x))
        } else {
            Err(CoilError::NumericOverflow)
        },
        ValV::Dec(m, s) => if in_i64(-m) {
            Ok(ValV::Dec(-m, s))
        } else {
            Err(CoilError::NumericOverflow)
        },
        _ => Err(CoilError::MismatchedTypes),
    }
}

/// Unary plus: the number itself.
pub open spec fn sp_val_pos(a: ValV) -> Result<ValV, CoilError> {
    if is_numeric(a) {
        Ok(a)
    } else {
        Err(CoilError::MismatchedTypes)
    }
}

/// Copies a value, preserving it exactly.
pub fn clone_value(v: &FieldValue) -> (r: FieldValue)
    ensures
        r == *v,
{
    match v {
        FieldValue::Null => FieldValue::Null,
        FieldValue::Text(s) => FieldValue::Text(s.clone()),
        FieldValue::Integer(i) => FieldValue::Integer(*i),
        FieldValue::Float(d) => FieldValue::Float(*d),
    }
}

/// Compares two text slices character by character.
#[verifier::loop_isolation(false)]
pub fn str_eq(a: &str, b: &str) -> (r: bool)
    ensures
        r == (a@ == b@),
{
    let an = a.unicode_len();
    let bn = b.unicode_len();
    if an != bn {
        return false;
    }
    let mut i: usize = 0;
    while i < an
        invariant
            i <= an,
            forall|k: int| 0 <= k < i ==> a@[k] == b@[k],
        decreases an - i,
    {
        if a.get_char(i) != b.get_char(i) {
            return false;
        }
        i = i + 1;
    }
    proof {
        assert(a@ =~= b@);
    }
    true
}

/// The decimal digit character of one digit value.
pub open spec fn sp_digit_char(d: int) -> char {
    if d == 0 {
        '0'
    } else if d == 1 {
        '1'
    } else if d == 2 {
        '2'
    } else if d == 3 {
        '3'
    } else if d == 4 {
        '4'
    } else if d == 5 {
        '5'
    } else if d == 6 {
        '6'
    } else if d == 7 {
        '7'
    } else if d == 8 {
        '8'
    } else {
        '9'
    }
}

/// The decimal digit string of a natural number.
pub open spec fn sp_nat_str(n: nat) -> Seq<char>
    decreases n,
{
    if n < 10 {
        seq![sp_digit_char(n as int)]
    } else {
        sp_nat_str(n / 10).push(sp_digit_char((n % 10) as int))
    }
}

/// The rendering of a value: `None` for the absent value, text verbatim,
/// integers in decimal with a leading `-` when negative, and decimals as
/// the scaled integer part, a point, and exactly `scale` fraction digits.
pub open spec fn sp_val_str(v: ValV) -> Seq<char> {
    match v {
        ValV::Null => "None"@,
        ValV::Text(s) => s,
        ValV::Int(i) => if i >= 0 {
            sp_nat_str(i as nat)
        } else {
            seq!['-'] + sp_nat_str((-i) as nat)
        },
        ValV::Dec(m, s) => {
            let sign: Seq<char> = if m < 0 {
                seq!['-']
            } else {
                Seq::empty()
            };
            let whole = iabs(m) / (pow10(s) as int);
            let frac = iabs(m) % (pow10(s) as int);
            if s == 0 {
                sign + sp_nat_str(whole as nat)
            } else {
                sign + sp_nat_str(whole as nat) + seq!['.'] + sp_frac_str(frac as nat, s)
            }
        },
    }
}

/// A fraction of `digits` digits, zero-padded on the left.
pub open spec fn sp_frac_str(frac: nat, digits: nat) -> Seq<char>
    decreases digits,
{
    if digits == 0 {
        Seq::empty()
    } else {
        sp_frac_str(frac / 10, (digits - 1) as nat).push(sp_digit_char((frac % 10) as int))
    }
}

/// Appends one digit character.
fn push_digit(s: &mut String, d: u64)
    requires
        d < 10,
    ensures
        final(s)@ == old(s)@ + seq![sp_digit_char(d as int)],
{
    proof {
        reveal_strlit("0");
        reveal_strlit("1");
        reveal_strlit("2");
        reveal_strlit("3");
        reveal_strlit("4");
        reveal_strlit("5");
        reveal_strlit("6");
        reveal_strlit("7");
        reveal_strlit("8");
        reveal_strlit("9");
    }
    if d == 0 {
        s.append("0");
    } else if d == 1 {
        s.append("1");
    } else if d == 2 {
        s.append("2");
    } else if d == 3 {
        s.append("3");
    } else if d == 4 {
        s.append("4");
    } else if d == 5 {
        s.append("5");
    } else if d == 6 {
        s.append("6");
    } else if d == 7 {
        s.append("7");
    } else if d == 8 {
        s.append("8");
    } else {
        s.append("9");
    }
    proof {
        assert(final(s)@ =~= old(s)@ + seq![sp_digit_char(d as int)]);
    }
}

/// Appends the decimal digits of a natural number.
fn push_nat(s: &mut String, n: u64)
    ensures
        final(s)@ == old(s)@ + sp_nat_str(n as nat),
    decreases n,
{
    if n >= 10 {
        push_nat(s, n / 10);
        push_digit(s, n % 10);
        proof {
            assert(final(s)@ =~= old(s)@ + sp_nat_str(n as nat));
        }
    } else {
        push_digit(s, n);
    }
}

/// Appends a fraction, zero-padded on the left to `digits` digits.
fn push_frac(s: &mut String, frac: u64, digits: u32)
    ensures
        final(s)@ == old(s)@ + sp_frac_str(frac as nat, digits as nat),
    decreases digits,
{
    if digits == 0 {
        proof {
            assert(final(s)@ =~= old(s)@ + sp_frac_str(frac as nat, 0));
        }
    } else {
        push_frac(s, frac / 10, digits - 1);
        push_digit(s, frac % 10);
        proof {
            assert(final(s)@ =~= old(s)@ + sp_frac_str(frac as nat, digits as nat));
        }
    }
}

impl FieldValue {
    /// Renders the value as text, exactly as [`sp_val_str`] describes.
    pub fn to_string(&self) -> (r: String)
        requires
            val_wf(*self),
        ensures
            r@ == sp_val_str(val_vw(*self)),
    {
        match self {
            FieldValue::Null => {
                let r = "None".to_owned();
                r
            },
            FieldValue::Text(t) => t.clone(),
            FieldValue::Integer(i) => {
                let mut s = String::new();
                if *i < 0 {
                    proof {
                        reveal_strlit("-");
                    }
                    s.append("-");
                    let mag: u64 = if *i == i64::MIN {
                        9223372036854775808u64
                    } else {
                        (-*i) as u64
                    };
                    push_nat(&mut s, mag);
                    proof {
                        assert(s@ =~= sp_val_str(val_vw(*self)));
                    }
                } else {
                    push_nat(&mut s, *i as u64);
                }
                s
            },
            FieldValue::Float(d) => {
                let mut s = String::new();
                if d.mantissa < 0 {
                    proof {
                        reveal_strlit("-");
                    }
                    s.append("-");
                }
                let mag: u64 = if d.mantissa == i64::MIN {
                    9223372036854775808u64
                } else if d.mantissa < 0 {
                    (-d.mantissa) as u64
                } else {
                    d.mantissa as u64
                };
                proof {
                    lemma_pow10_mono(d.scale as nat, 9);
                    lemma_pow10_values();
                }
                let p = pow10_u64(d.scale);
                let whole = mag / p;
                let frac = mag % p;
                push_nat(&mut s, whole);
                if d.scale > 0 {
                    proof {
                        reveal_strlit(".");
                    }
                    s.append(".");
                    push_frac(&mut s, frac, d.scale);
                }
                proof {
                    assert(s@ =~= sp_val_str(val_vw(*self)));
                }
                s
            },
        }
    }
}

/// Splits a numeric value into mantissa and scale; `None` otherwise.
fn num_parts(v: &FieldValue) -> (r: Option<(i64, u32)>)
    requires
        val_wf(*v),
    ensures
        match r {
            Some(p) => is_numeric(val_vw(*v)) && p.0 == mant(val_vw(*v)) && p.1 == scl(
                val_vw(*v),
            ) && p.1 <= MAX_SCALE,
            None => !is_numeric(val_vw(*v)),
        },
{
    match v {
        FieldValue::Integer(x) => Some((*x, 0)),
        FieldValue::Float(d) => Some((d.mantissa, d.scale)),
        _ => None,
    }
}

/// Adds two values.
pub fn value_add(a: &FieldValue, b: &FieldValue) -> (r: Result<FieldValue, CoilError>)
    requires
        val_wf(*a),
        val_wf(*b),
    ensures
        arith_matches(r, sp_val_add(val_vw(*a), val_vw(*b))),
{
    match (a, b) {
        (FieldValue::Integer(x), FieldValue::Integer(y)) => {
            let s = *x as i128 + *y as i128;
            if i64::MIN as i128 <= s && s <= i64::MAX as i128 {
                Ok(FieldValue::Integer(s as i64))
            } else {
                Err(CoilError::NumericOverflow)
            }
        },
        _ => {
            match (num_parts(a), num_parts(b)) {
                (Some((m1, s1)), Some((m2, s2))) => {
                    let s = if s1 >= s2 {
                        s1
                    } else {
                        s2
                    };
                    let l = scaled_mant(m1, s - s1);
                    let rr = scaled_mant(m2, s - s2);
                    let m = l + rr;
                    if i64::MIN as i128 <= m && m <= i64::MAX as i128 {
                        Ok(FieldValue::Float(Decimal { mantissa: m as i64, scale: s }))
                    } else {
                        Err(CoilError::NumericOverflow)
                    }
                },
                _ => Err(CoilError::MismatchedTypes),
            }
        },
    }
}

/// Subtracts the second value from the first.
pub fn value_sub(a: &FieldValue, b: &FieldValue) -> (r: Result<FieldValue, CoilError>)
    requires
        val_wf(*a),
        val_wf(*b),
    ensures
        arith_matches(r, sp_val_sub(val_vw(*a), val_vw(*b))),
{
    match (a, b) {
        (FieldValue::Integer(x), FieldValue::Integer(y)) => {
            let s = *x as i128 - *y as i128;
            if i64::MIN as i128 <= s && s <= i64::MAX as i128 {
                Ok(FieldValue::Integer(s as i64))
            } else {
                Err(CoilError::NumericOverflow)
            }
        },
        _ => {
            match (num_parts(a), num_parts(b)) {
                (Some((m1, s1)), Some((m2, s2))) => {
                    let s = if s1 >= s2 {
                        s1
                    } else {
                        s2
                    };
                    let l = scaled_mant(m1, s - s1);
                    let rr = scaled_mant(m2, s - s2);
                    let m = l - rr;
                    if i64::MIN as i128 <= m && m <= i64::MAX as i128 {
                        Ok(FieldValue::Float(Decimal { mantissa: m as i64, scale: s }))
                    } else {
                        Err(CoilError::NumericOverflow)
                    }
                },
                _ => Err(CoilError::MismatchedTypes),
            }
        },
    }
}

/// Multiplies two values.
pub fn value_mul(a: &FieldValue, b: &FieldValue) -> (r: Result<FieldValue, CoilError>)
    requires
        val_wf(*a),
        val_wf(*b),
    ensures
        arith_matches(r, sp_val_mul(val_vw(*a), val_vw(*b))),
{
    match (a, b) {
        (FieldValue::Integer(x), FieldValue::Integer(y)) => {
            proof {
                assert(-85070591730234615865843651857942052864 <= (*x as int) * (*y as int)
                    <= 85070591730234615865843651857942052864) by (nonlinear_arith)
                    requires
                        i64::MIN <= *x <= i64::MAX,
                        i64::MIN <= *y <= i64::MAX,
                ;
            }
            let p = *x as i128 * *y as i128;
            if i64::MIN as i128 <= p && p <= i64::MAX as i128 {
                Ok(FieldValue::Integer(p as i64))
            } else {
                Err(CoilError::NumericOverflow)
            }
        },
        _ => {
            match (num_parts(a), num_parts(b)) {
                (Some((m1, s1)), Some((m2, s2))) => {
                    proof {
                        assert(-85070591730234615865843651857942052864 <= (m1 as int) * (
                        m2 as int) <= 85070591730234615865843651857942052864) by (nonlinear_arith)
                            requires
                                i64::MIN <= m1 <= i64::MAX,
                                i64::MIN <= m2 <= i64::MAX,
                        ;
                    }
                    let p = m1 as i128 * m2 as i128;
                    let s = s1 + s2;
                    if s <= MAX_SCALE {
                        if i64::MIN as i128 <= p && p <= i64::MAX as i128 {
                            Ok(FieldValue::Float(Decimal { mantissa: p as i64, scale: s }))
                        } else {
                            Err(CoilError::NumericOverflow)
                        }
                    } else {
                        proof {
                            lemma_pow10_mono((s - MAX_SCALE) as nat, 18);
                            lemma_pow10_values();
                        }
                        let d = pow10_u64(s - MAX_SCALE);
                        let neg = p < 0;
                        let up: u128 = if neg {
                            (-p) as u128
                        } else {
                            p as u128
                        };
                        let uq = up / (d as u128);
                        let q = uq as i128;
                        let m = if neg {
                            -q
                        } else {
                            q
                        };
                        if i64::MIN as i128 <= m && m <= i64::MAX as i128 {
                            Ok(FieldValue::Float(Decimal { mantissa: m as i64, scale: MAX_SCALE }))
                        } else {
                            Err(CoilError::NumericOverflow)
                        }
                    }
                },
                _ => Err(CoilError::MismatchedTypes),
            }
        },
    }
}

/// Divides the first value by the second.
pub fn value_div(a: &FieldValue, b: &FieldValue) -> (r: Result<FieldValue, CoilError>)
    requires
        val_wf(*a),
        val_wf(*b),
    ensures
        arith_matches(r, sp_val_div(val_vw(*a), val_vw(*b))),
{
    match (num_parts(a), num_parts(b)) {
        (Some((m1, s1)), Some((m2, s2))) => {
            if m2 == 0 {
                return Err(CoilError::DivisionByZero);
            }
            let am1: u128 = if m1 < 0 {
                (-(m1 as i128)) as u128
            } else {
                m1 as u128
            };
            let am2: u128 = if m2 < 0 {
                (-(m2 as i128)) as u128
            } else {
                m2 as u128
            };
            proof {
                lemma_pow10_mono((s2 + MAX_SCALE) as nat, 18);
                lemma_pow10_mono(s1 as nat, 18);
                lemma_pow10_values();
            }
            let pn = pow10_u64(s2 + MAX_SCALE) as u128;
            let pd = pow10_u64(s1) as u128;
            proof {
                assert((am1 as int) * (pn as int) <= 9223372036854775808000000000000000000
                    && (am1 as int) * (pn as int) >= 0) by (nonlinear_arith)
                    requires
                        0 <= am1 <= 9223372036854775808,
                        1 <= pn <= 1000000000000000000,
                ;
                assert((am2 as int) * (pd as int) <= 9223372036854775808000000000000000000
                    && (am2 as int) * (pd as int) >= 1) by (nonlinear_arith)
                    requires
                        1 <= am2 <= 9223372036854775808,
                        1 <= pd <= 1000000000000000000,
                ;
            }
            let num = am1 * pn;
            let den = am2 * pd;
            let uq = num / den;
            let q = uq as i128;
            let m = if (m1 < 0) != (m2 < 0) {
                -q
            } else {
                q
            };
            if i64::MIN as i128 <= m && m <= i64::MAX as i128 {
                Ok(FieldValue::Float(Decimal { mantissa: m as i64, scale: MAX_SCALE }))
            } else {
                Err(CoilError::NumericOverflow)
            }
        },
        _ => Err(CoilError::MismatchedTypes),
    }
}

/// Remainder of two integer values.
pub fn value_rem(a: &FieldValue, b: &FieldValue) -> (r: Result<FieldValue, CoilError>)
    requires
        val_wf(*a),
        val_wf(*b),
    ensures
        arith_matches(r, sp_val_rem(val_vw(*a), val_vw(*b))),
{
    match (a, b) {
        (FieldValue::Integer(x), FieldValue::Integer(y)) => {
            if *y == 0 {
                return Err(CoilError::DivisionByZero);
            }
            let ax: u128 = if *x < 0 {
                (-(*x as i128)) as u128
            } else {
                *x as u128
            };
            let ay: u128 = if *y < 0 {
                (-(*y as i128)) as u128
            } else {
                *y as u128
            };
            let ur = ax % ay;
            let m: i128 = if *x < 0 {
                -(ur as i128)
            } else {
                ur as i128
            };
            Ok(FieldValue::Integer(m as i64))
        },
        _ => Err(CoilError::MismatchedTypes),
    }
}

/// Raises an integer to an integer power.
pub fn value_pow(a: &FieldValue, b: &FieldValue) -> (r: Result<FieldValue, CoilError>)
    requires
        val_wf(*a),
        val_wf(*b),
    ensures
        arith_matches(r, sp_val_pow(val_vw(*a), val_vw(*b))),
{
    match (a, b) {
        (FieldValue::Integer(x), FieldValue::Integer(y)) => {
            if *y < 0 {
                return Err(CoilError::MismatchedTypes);
            }
            if *y > 63 {
                return Err(CoilError::NumericOverflow);
            }
            let e: u32 = *y as u32;
            let mut acc: i64 = 1;
            let mut k: u32 = 0;
            while k < e
                invariant
                    k <= e,
                    e <= 63,
                    val_vw(*a) == ValV::Int(*x as int),
                    val_vw(*b) == ValV::Int(*y as int),
                    *y as int == e as int,
                    acc as int == int_pow(*x as int, k as nat),
                    forall|j: int| 0 <= j <= k ==> #[trigger] in_i64(int_pow(*x as int, j as nat)),
                decreases e - k,
            {
                proof {
                    assert(-85070591730234615865843651857942052864 <= (acc as int) * (*x as int)
                        <= 85070591730234615865843651857942052864) by (nonlinear_arith)
                        requires
                            i64::MIN <= acc <= i64::MAX,
                            i64::MIN <= *x <= i64::MAX,
                    ;
                }
                let next = acc as i128 * *x as i128;
                proof {
                    let k1: int = k as int + 1;
                    assert(int_pow(*x as int, k1 as nat) == int_pow(*x as int, k as nat) * (
                    *x as int));
                }
                if next < i64::MIN as i128 || next > i64::MAX as i128 {
                    proof {
                        let k1: int = k as int + 1;
                        let va = val_vw(*a);
                        let vb = val_vw(*b);
                        assert(mant(va) == *x as int);
                        assert(int_pow(mant(va), k1 as nat) == int_pow(mant(va), k as nat) * mant(
                        va));
                        assert(int_pow(mant(va), k as nat) == int_pow(*x as int, k as nat));
                        assert(!in_i64(int_pow(mant(va), k1 as nat)));
                        assert(0 <= k1 <= mant(vb));
                        assert(!(forall|kk: int|
                            0 <= kk <= mant(vb) ==> #[trigger] in_i64(
                                int_pow(mant(va), kk as nat),
                            )));
                    }
                    return Err(CoilError::NumericOverflow);
                }
                acc = next as i64;
                k = k + 1;
                proof {
                    let k1: int = k as int;
                    assert(in_i64(int_pow(*x as int, k1 as nat)));
                }
            }
            Ok(FieldValue::Integer(acc))
        },
        _ => Err(CoilError::MismatchedTypes),
    }
}

/// Negates a numeric value.
pub fn value_neg(a: &FieldValue) -> (r: Result<FieldValue, CoilError>)
    requires
        val_wf(*a),
    ensures
        arith_matches(r, sp_val_neg(val_vw(*a))),
{
    match a {
        FieldValue::Integer(x) => {
            if *x == i64::MIN {
                Err(CoilError::NumericOverflow)
            } else {
                Ok(FieldValue::Integer(-*x))
            }
        },
        FieldValue::Float(d) => {
            if d.mantissa == i64::MIN {
                Err(CoilError::NumericOverflow)
            } else {
                Ok(FieldValue::Float(Decimal { mantissa: -d.mantissa, scale: d.scale }))
            }
        },
        _ => Err(CoilError::MismatchedTypes),
    }
}

/// Unary plus on a numeric value.
pub fn value_pos(a: &FieldValue) -> (r: Result<FieldValue, CoilError>)
    requires
        val_wf(*a),
    ensures
        arith_matches(r, sp_val_pos(val_vw(*a))),
{
    match a {
        FieldValue::Integer(x) => Ok(FieldValue::Integer(*x)),
        FieldValue::Float(d) => Ok(FieldValue::Float(*d)),
        _ => Err(CoilError::MismatchedTypes),
    }
}

} // verus!
