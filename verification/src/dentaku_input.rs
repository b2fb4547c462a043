use vstd::prelude::*;

use crate::error::DentakuError;
use crate::model::{InputtableNumber, Sign};
use crate::number::{in_i64, Number};

verus! {

/// Whether a character is a base-10 digit.
pub open spec fn is_digit_char(c: char) -> bool {
    48 <= c as int <= 57
}

/// The numeric value of a digit character.
pub open spec fn digit_val(c: char) -> int {
    c as int - 48
}

/// The character form of a single digit.
pub open spec fn digit_char(d: int) -> char {
    if d == 0 {
        '0'
    } else if d == 1 {
        '1'
    } else if d == 2 {
        '2'
    } else if d == 3 {
        '3'
    } else if d == 4 {
        '4'
    } else if d == 5 {
        '5'
    } else if d == 6 {
        '6'
    } else if d == 7 {
        '7'
    } else if d == 8 {
        '8'
    } else {
        '9'
    }
}

/// Whether the text holds a decimal point.
pub open spec fn has_point(s: Seq<char>) -> bool {
    exists|k: int| 0 <= k < s.len() && #[trigger] s[k] == '.'
}

/// The digits of the text read as one whole number, the decimal point
/// ignored: the mantissa of the numeral.
pub open spec fn mantissa_of(s: Seq<char>) -> int
    decreases s.len(),
{
    if s.len() == 0 {
        0
    } else if is_digit_char(s.last()) {
        10 * mantissa_of(s.drop_last()) + digit_val(s.last())
    } else {
        mantissa_of(s.drop_last())
    }
}

/// How many digits follow the decimal point.
pub open spec fn scale_of(s: Seq<char>) -> nat
    decreases s.len(),
{
    if s.len() == 0 {
        0
    } else if s.last() == '.' {
        0
    } else if has_point(s) {
        scale_of(s.drop_last()) + 1
    } else {
        0
    }
}

/// Ten to the given power.
pub open spec fn pow10(n: nat) -> int
    decreases n,
{
    if n == 0 {
        1
    } else {
        10 * pow10((n - 1) as nat)
    }
}

/// The mathematical content of an input buffer: the numeral typed so
/// far, the requested sign, and whether a decimal point was inserted.
#[verifier::ext_equal]
pub struct BufferView {
    pub value: Seq<char>,
    pub sign: Sign,
    pub has_decimal: bool,
    pub decimal_point_index: int,
}

impl BufferView {
    /// The buffer as created at program start and after every clear.
    pub open spec fn empty() -> BufferView {
        BufferView { value: Seq::empty(), sign: Sign::Positive, has_decimal: false, decimal_point_index: 0 }
    }

    /// Well-formedness: the text holds only digits and at most one
    /// decimal point, the point never comes first, and the
    /// `has_decimal` flag tracks its presence.
    pub open spec fn inv(self) -> bool {
        &&& forall|i: int|
            0 <= i < self.value.len() ==> is_digit_char(#[trigger] self.value[i]) || self.value[i]
                == '.'
        &&& self.has_decimal == has_point(self.value)
        &&& forall|i: int, j: int|
            0 <= i < j < self.value.len() ==> !(#[trigger] self.value[i] == '.'
                && #[trigger] self.value[j] == '.')
        &&& self.value.len() > 0 ==> is_digit_char(self.value[0])
    }

    /// A digit keypress: a lone leading zero is suppressed (the call is
    /// a no-op), any other digit is appended to the text.
    pub open spec fn spec_add_digit(self, d: int) -> BufferView {
        if self.value.len() == 0 && d == 0 {
            self
        } else {
            BufferView { value: self.value.push(digit_char(d)), ..self }
        }
    }

    /// A digit keypress as the operation reports it: it never fails.
    pub open spec fn spec_try_add_digit(self, d: int) -> Result<BufferView, DentakuError> {
        Ok(self.spec_add_digit(d))
    }

    /// The buffer after a decimal point is accepted: an empty buffer is
    /// seeded with `0` first, so a bare point press reads `0.`.
    pub open spec fn spec_after_decimal_point(self) -> BufferView {
        let base = if self.value.len() == 0 {
            seq!['0']
        } else {
            self.value
        };
        BufferView {
            value: base.push('.'),
            sign: self.sign,
            has_decimal: true,
            decimal_point_index: base.len() as int,
        }
    }

    /// A decimal point keypress: fails with `DuplicateDecimalPoint`
    /// exactly when a point is already present.
    pub open spec fn spec_try_add_decimal_point(self) -> Result<BufferView, DentakuError> {
        if self.has_decimal {
            Err(DentakuError::DuplicateDecimalPoint)
        } else {
            Ok(self.spec_after_decimal_point())
        }
    }

    /// A sign keypress: fails with `SignUnchanged` exactly when the
    /// requested sign equals the current one.
    pub open spec fn spec_try_toggle_sign(self, sign: Sign) -> Result<BufferView, DentakuError> {
        if self.sign == sign {
            Err(DentakuError::SignUnchanged)
        } else {
            Ok(BufferView { sign: sign, ..self })
        }
    }

    /// The committed numeric value: the digits over ten to the number
    /// of decimal places. An empty buffer reads zero. The sign is not
    /// folded in: it belongs to the display path. `None` exactly when
    /// the numeral no longer fits the machine representation.
    pub open spec fn spec_to_number(self) -> Option<Number> {
        if in_i64(mantissa_of(self.value)) && in_i64(pow10(scale_of(self.value))) {
            Some(
                Number {
                    num: mantissa_of(self.value) as i64,
                    den: pow10(scale_of(self.value)) as i64,
                },
            )
        } else {
            None
        }
    }

    /// Clearing discards every field.
    pub open spec fn spec_clear(self) -> BufferView {
        BufferView::empty()
    }

    /// The rendered text: a minus sign when negative, then the typed
    /// numeral, or `0` while the buffer is empty.
    pub open spec fn spec_display(self) -> Seq<char> {
        let body = if self.value.len() == 0 {
            seq!['0']
        } else {
            self.value
        };
        if self.sign == Sign::Negative {
            seq!['-'] + body
        } else {
            body
        }
    }
}

/// The operand currently being typed: its literal text (digits and at
/// most one decimal point), its sign, and whether the point was already
/// inserted. `decimal_point_index` records where the point was placed;
/// no other operation reads it.
#[derive(Debug, Clone, PartialEq)]
pub struct DentakuInputState {
    pub value: String,
    pub sign: Sign,
    pub has_decimal: bool,
    pub decimal_point_index: usize,
}

impl View for DentakuInputState {
    type V = BufferView;

    open spec fn view(&self) -> BufferView {
        BufferView {
            value: self.value@,
            sign: self.sign,
            has_decimal: self.has_decimal,
            decimal_point_index: self.decimal_point_index as int,
        }
    }
}

/// The view of an operation's outcome: the new buffer's content, or the
/// reported failure.
pub open spec fn buffer_result_view(r: Result<DentakuInputState, DentakuError>) -> Result<
    BufferView,
    DentakuError,
> {
    match r {
        Ok(s) => Ok(s@),
        Err(e) => Err(e),
    }
}

impl Default for DentakuInputState {
    /// The empty buffer.
    fn default() -> (r: Self)
        ensures
            r@ == BufferView::empty(),
            r@.inv(),
    {
        let r = DentakuInputState {
            value: String::new(),
            sign: Sign::Positive,
            has_decimal: false,
            decimal_point_index: 0,
        };
        proof {
            assert(r@ =~= BufferView::empty());
        }
        r
    }
}

impl DentakuInputState {
    /// Whether no character was typed yet.
    pub fn is_empty(&self) -> (r: bool)
        ensures
            r == (self@.value.len() == 0),
    {
        self.value.as_str().is_empty()
    }

    /// The same buffer with the text replaced.
    pub fn update_value(&self, value: String) -> (r: Self)
        ensures
            r@ == (BufferView { value: value@, ..self@ }),
    {
        Self {
            value,
            sign: self.sign,
            has_decimal: self.has_decimal,
            decimal_point_index: self.decimal_point_index,
        }
    }

    /// The same buffer with the sign replaced.
    pub fn update_sign(&self, sign: Sign) -> (r: Self)
        ensures
            r@ == (BufferView { sign: sign, ..self@ }),
    {
        Self {
            value: self.value.clone(),
            sign,
            has_decimal: self.has_decimal,
            decimal_point_index: self.decimal_point_index,
        }
    }

    /// The same buffer with the decimal-point flag replaced.
    pub fn update_has_decimal(&self, has_decimal: bool) -> (r: Self)
        ensures
            r@ == (BufferView { has_decimal: has_decimal, ..self@ }),
    {
        Self {
            value: self.value.clone(),
            sign: self.sign,
            has_decimal,
            decimal_point_index: self.decimal_point_index,
        }
    }

    /// The same buffer with the recorded point position replaced.
    pub fn update_decimal_point_index(&self, decimal_point_index: usize) -> (r: Self)
        ensures
            r@ == (BufferView { decimal_point_index: decimal_point_index as int, ..self@ }),
    {
        Self {
            value: self.value.clone(),
            sign: self.sign,
            has_decimal: self.has_decimal,
            decimal_point_index,
        }
    }

    /// Requests a sign: fails with `SignUnchanged` exactly when the
    /// requested sign equals the current one, else replaces it.
    pub fn try_toggle_sign(&self, sign: Sign) -> (r: Result<Self, DentakuError>)
        ensures
            buffer_result_view(r) == self@.spec_try_toggle_sign(sign),
            self@.inv() ==> (r matches Ok(s) ==> s@.inv()),
    {
        if self.sign == sign {
            Err(DentakuError::SignUnchanged)
        } else {
            Ok(self.update_sign(sign))
        }
    }

    /// A digit keypress: a lone leading zero on an empty buffer is
    /// suppressed (the buffer is returned unchanged); any other digit is
    /// appended to the text. This operation never fails.
    pub fn try_add_digit(&self, number: InputtableNumber) -> (r: Result<Self, DentakuError>)
        requires
            number.wf(),
        ensures
            buffer_result_view(r) == self@.spec_try_add_digit(number.value as int),
            r is Ok,
            self@.inv() ==> (r matches Ok(s) ==> s@.inv()),
    {
        if self.is_empty() && number.value == 0 {
            Ok(self.clone_state())
        } else {
            let mut updated = self.value.clone();
            updated.append(digit_str(number.value));
            proof {
                assert(updated@ =~= self@.value.push(digit_char(number.value as int)));
                if self@.inv() {
                    lemma_push_keeps_inv(self@, digit_char(number.value as int));
                }
            }
            Ok(self.update_value(updated))
        }
    }

    /// A decimal point keypress: fails with `DuplicateDecimalPoint`
    /// exactly when a point is already present; otherwise an empty
    /// buffer is seeded with `0` first (a bare point press yields
    /// `0.`), the point is appended, and its position recorded.
    pub fn try_add_decimal_point(&self) -> (r: Result<Self, DentakuError>)
        ensures
            buffer_result_view(r) == self@.spec_try_add_decimal_point(),
            self@.inv() ==> (r matches Ok(s) ==> s@.inv()),
    {
        if self.has_decimal {
            return Err(DentakuError::DuplicateDecimalPoint);
        }
        let mut current_value = if self.is_empty() {
            let seeded = String::from_str("0");
            proof {
                reveal_strlit("0");
                assert(seeded@ =~= seq!['0']);
            }
            seeded
        } else {
            self.value.clone()
        };
        let point_index = current_value.as_str().unicode_len();
        current_value.append(".");
        proof {
            reveal_strlit(".");
        }
        let r = Self {
            value: current_value,
            sign: self.sign,
            has_decimal: true,
            decimal_point_index: point_index,
        };
        proof {
            assert(r@ =~= self@.spec_after_decimal_point());
            if self@.inv() {
                lemma_point_keeps_inv(self@);
            }
        }
        Ok(r)
    }

    /// The empty buffer: every field is reset.
    pub fn clear(&self) -> (r: Self)
        ensures
            r@ == BufferView::empty(),
            r@.inv(),
    {
        Self::default()
    }

    /// A copy of the buffer.
    pub fn clone_state(&self) -> (r: Self)
        ensures
            r@ == self@,
    {
        Self {
            value: self.value.clone(),
            sign: self.sign,
            has_decimal: self.has_decimal,
            decimal_point_index: self.decimal_point_index,
        }
    }

    /// The committed numeric value: the digits over ten to the number of
    /// decimal places; an empty buffer reads zero. The sign is not
    /// folded in: sign application belongs to the display path. `None`
    /// exactly when the numeral's parts no longer fit an `i64`.
    pub fn to_number(&self) -> (r: Option<Number>)
        requires
            self@.inv(),
        ensures
            r == self@.spec_to_number(),
            r matches Some(v) ==> v.wf() && v.finite(),
    {
        let s: &str = self.value.as_str();
        let len = s.unicode_len();
        let ghost chars = self.value@;
        let mut acc: i64 = 0;
        let mut scale: usize = 0;
        let mut seen_point: bool = false;
        let mut i: usize = 0;
        proof {
            assert(chars.take(0) =~= Seq::<char>::empty());
        }
        while i < len
            invariant
                i <= len,
                len == chars.len(),
                s@ == chars,
                self.value@ == chars,
                forall|k: int|
                    0 <= k < chars.len() ==> is_digit_char(#[trigger] chars[k]) || chars[k] == '.',
                0 <= acc,
                acc as int == mantissa_of(chars.take(i as int)),
                seen_point == has_point(chars.take(i as int)),
                scale as int == scale_of(chars.take(i as int)),
                scale <= i,
            decreases len - i,
        {
            let c = s.get_char(i);
            proof {
                assert(chars.take(i as int + 1).drop_last() =~= chars.take(i as int));
                assert(chars.take(i as int + 1).last() == chars[i as int]);
            }
            if c == '.' {
                seen_point = true;
                scale = 0;
            } else {
                let d: i64 = ((c as u32) - 48) as i64;
                if acc > (i64::MAX - d) / 10 {
                    proof {
                        let m = (i64::MAX - d) as int;
                        assert(m == 10 * (m / 10) + m % 10);
                        assert(10 * (acc as int) + d > i64::MAX);
                        assert(mantissa_of(chars.take(i as int + 1)) == 10 * (acc as int) + d);
                        lemma_mantissa_take_le(chars, i as int + 1);
                        assert(!in_i64(mantissa_of(chars)));
                    }
                    return None;
                }
                acc = acc * 10 + d;
                if seen_point {
                    scale = scale + 1;
                    proof {
                        lemma_has_point_push(chars, i as int);
                    }
                } else {
                    proof {
                        lemma_has_point_push(chars, i as int);
                    }
                }
            }
            i = i + 1;
        }
        proof {
            assert(chars.take(len as int) =~= chars);
        }
        let mut den: i64 = 1;
        let mut j: usize = 0;
        while j < scale
            invariant
                j <= scale,
                scale as int == scale_of(chars),
                self.value@ == chars,
                acc as int == mantissa_of(chars),
                0 <= acc,
                1 <= den,
                den as int == pow10(j as nat),
            decreases scale - j,
        {
            if den > 922_337_203_685_477_580 {
                proof {
                    assert(pow10(j as nat + 1) == 10 * pow10(j as nat));
                    lemma_pow10_monotone(j as nat + 1, scale_of(chars));
                    assert(!in_i64(pow10(scale_of(chars))));
                }
                return None;
            }
            den = den * 10;
            j = j + 1;
        }
        Some(Number { num: acc, den })
    }

    /// The rendered text: a minus sign when negative, then the typed
    /// numeral, or `0` while the buffer is empty.
    pub fn to_display_string(&self) -> (r: String)
        ensures
            r@ == self@.spec_display(),
    {
        let mut out = String::new();
        if self.sign == Sign::Negative {
            out.append("-");
        }
        if self.value.as_str().is_empty() {
            out.append("0");
        } else {
            out.append(self.value.as_str());
        }
        proof {
            reveal_strlit("-");
            reveal_strlit("0");
            assert(out@ =~= self@.spec_display());
        }
        out
    }
}

/// The character form of a single keypad digit.
fn digit_str(d: i32) -> (r: &'static str)
    requires
        0 <= d <= 9,
    ensures
        r@ =~= seq![digit_char(d as int)],
{
    proof {
        reveal_strlit("0");
        reveal_strlit("1");
        reveal_strlit("2");
        reveal_strlit("3");
        reveal_strlit("4");
        reveal_strlit("5");
        reveal_strlit("6");
        reveal_strlit("7");
        reveal_strlit("8");
        reveal_strlit("9");
    }
    match d {
        0 => "0",
        1 => "1",
        2 => "2",
        3 => "3",
        4 => "4",
        5 => "5",
        6 => "6",
        7 => "7",
        8 => "8",
        _ => "9",
    }
}

/// Appending a digit keeps a buffer well formed.
proof fn lemma_push_keeps_inv(v: BufferView, c: char)
    requires
        v.inv(),
        is_digit_char(c),
    ensures
        (BufferView { value: v.value.push(c), ..v }).inv(),
{
    let w = BufferView { value: v.value.push(c), ..v };
    assert forall|i: int|
        0 <= i < w.value.len() implies is_digit_char(#[trigger] w.value[i]) || w.value[i]
        == '.' by {
        if i < v.value.len() {
            assert(w.value[i] == v.value[i]);
        }
    }
    assert(has_point(w.value) == has_point(v.value)) by {
        if has_point(v.value) {
            let k = choose|k: int| 0 <= k < v.value.len() && #[trigger] v.value[k] == '.';
            assert(w.value[k] == '.');
        }
        if has_point(w.value) {
            let k = choose|k: int| 0 <= k < w.value.len() && #[trigger] w.value[k] == '.';
            assert(c != '.');
            assert(k < v.value.len());
            assert(v.value[k] == '.');
        }
    }
}

/// Appending the decimal point to a point-free buffer keeps it well
/// formed.
proof fn lemma_point_keeps_inv(v: BufferView)
    requires
        v.inv(),
        !v.has_decimal,
    ensures
        v.spec_after_decimal_point().inv(),
{
    let w = v.spec_after_decimal_point();
    let base = if v.value.len() == 0 {
        seq!['0']
    } else {
        v.value
    };
    assert(w.value == base.push('.'));
    assert(w.value[base.len() as int] == '.');
    assert(has_point(w.value));
    assert forall|i: int, j: int|
        0 <= i < j < w.value.len() implies !(#[trigger] w.value[i] == '.' && #[trigger] w.value[j]
        == '.') by {
        if j < base.len() {
            if v.value.len() == 0 {
                assert(base[i] == '0');
            } else {
                assert(!(v.value[i] == '.' && v.value[j] == '.'));
            }
        } else {
            assert(j == base.len());
            if i < base.len() {
                if v.value.len() == 0 {
                    assert(base[i] == '0');
                } else {
                    assert(!has_point(v.value));
                    assert(v.value[i] != '.');
                }
            }
        }
    }
}

/// The digits-so-far never shrink: the mantissa of a prefix is at most
/// the mantissa of the whole text.
proof fn lemma_mantissa_take_le(s: Seq<char>, j: int)
    requires
        0 <= j <= s.len(),
        forall|k: int| 0 <= k < s.len() ==> is_digit_char(#[trigger] s[k]) || s[k] == '.',
    ensures
        mantissa_of(s.take(j)) <= mantissa_of(s),
    decreases s.len() - j,
{
    if j == s.len() {
        assert(s.take(j) =~= s);
    } else {
        assert(s.take(j + 1).drop_last() =~= s.take(j));
        assert(s.take(j + 1).last() == s[j]);
        lemma_mantissa_nonneg(s.take(j));
        lemma_mantissa_take_le(s, j + 1);
    }
}

/// A mantissa is never negative.
proof fn lemma_mantissa_nonneg(s: Seq<char>)
    ensures
        mantissa_of(s) >= 0,
    decreases s.len(),
{
    if s.len() > 0 {
        lemma_mantissa_nonneg(s.drop_last());
    }
}

/// Powers of ten are positive and grow with the exponent.
proof fn lemma_pow10_monotone(a: nat, b: nat)
    requires
        a <= b,
    ensures
        1 <= pow10(a) <= pow10(b),
    decreases b,
{
    if b == 0 {
    } else if a == b {
        lemma_pow10_monotone((b - 1) as nat, (b - 1) as nat);
    } else {
        lemma_pow10_monotone(a, (b - 1) as nat);
    }
}

/// Extending the text by one character that is not a point leaves the
/// point's presence unchanged; by the point itself, establishes it.
proof fn lemma_has_point_push(chars: Seq<char>, i: int)
    requires
        0 <= i < chars.len(),
    ensures
        chars[i] != '.' ==> has_point(chars.take(i + 1)) == has_point(chars.take(i)),
        chars[i] == '.' ==> has_point(chars.take(i + 1)),
{
    if chars[i] == '.' {
        assert(chars.take(i + 1)[i] == '.');
    } else {
        if has_point(chars.take(i)) {
            let k = choose|k: int|
                0 <= k < chars.take(i).len() && #[trigger] chars.take(i)[k] == '.';
            assert(chars.take(i + 1)[k] == '.');
        }
        if has_point(chars.take(i + 1)) {
            let k = choose|k: int|
                0 <= k < chars.take(i + 1).len() && #[trigger] chars.take(i + 1)[k] == '.';
            assert(k != i);
            assert(chars.take(i)[k] == '.');
        }
    }
}

/// Law: a decimal point cannot be added twice. When one press of the
/// decimal point succeeds, pressing it again on the new buffer always
/// fails with `DuplicateDecimalPoint`.
pub proof fn lemma_decimal_point_not_twice(v: BufferView)
    ensures
        v.spec_try_add_decimal_point() matches Ok(w) ==> w.spec_try_add_decimal_point() == Err::<
            BufferView,
            DentakuError,
        >(DentakuError::DuplicateDecimalPoint),
{
}

/// Law: requesting a sign fails exactly when it equals the current
/// sign; otherwise the rendered text gains or loses its leading minus.
pub proof fn lemma_toggle_sign_flips_display(v: BufferView, sign: Sign)
    requires
        v.inv(),
    ensures
        (v.spec_try_toggle_sign(sign) is Err) == (v.sign == sign),
        v.spec_try_toggle_sign(sign) matches Ok(w) ==> ((w.spec_display()[0] == '-') != (
        v.spec_display()[0] == '-')),
{
    if v.sign != sign {
        let w = BufferView { sign: sign, ..v };
        if v.value.len() == 0 {
            assert(v.spec_display()[0] == '-' || v.spec_display()[0] == '0');
            assert(w.spec_display()[0] == '-' || w.spec_display()[0] == '0');
        } else {
            assert(is_digit_char(v.value[0]));
        }
    }
}

/// Law: clearing resets the buffer fully. A digit typed after a clear
/// yields the same buffer as the same digit typed on a fresh buffer,
/// whatever was typed before the clear.
pub proof fn lemma_clear_resets(v: BufferView, d: int)
    ensures
        BufferView::empty().spec_add_digit(d) == v.spec_clear().spec_add_digit(d),
{
}

/// Law: a buffer without a decimal point reads as the whole number its
/// digits spell, over a denominator of one, whenever that fits the
/// machine representation.
pub proof fn lemma_integer_buffer_value(v: BufferView)
    requires
        v.inv(),
        !v.has_decimal,
        in_i64(mantissa_of(v.value)),
    ensures
        v.spec_to_number() == Some(Number { num: mantissa_of(v.value) as i64, den: 1 }),
{
    if v.value.len() > 0 && v.value.last() == '.' {
        assert(has_point(v.value));
    }
    assert(scale_of(v.value) == 0);
    assert(pow10(0) == 1);
}

/// Law: a digit appended to a buffer multiplies the mantissa by ten and
/// adds the digit — the buffer's numeric value is the exact
/// concatenation of the digits typed.
pub proof fn lemma_digit_append_value(v: BufferView, d: int)
    requires
        0 <= d <= 9,
        !(v.value.len() == 0 && d == 0),
    ensures
        mantissa_of(v.spec_add_digit(d).value) == 10 * mantissa_of(v.value) + d,
{
    let w = v.spec_add_digit(d);
    assert(w.value.drop_last() =~= v.value);
    assert(w.value.last() == digit_char(d));
}

/// A fresh buffer after a whole sequence of digit keypresses.
pub open spec fn spec_type_digits(ds: Seq<int>) -> BufferView
    decreases ds.len(),
{
    if ds.len() == 0 {
        BufferView::empty()
    } else {
        spec_type_digits(ds.drop_last()).spec_add_digit(ds.last())
    }
}

/// The number a digit sequence spells in base ten.
pub open spec fn digits_value(ds: Seq<int>) -> int
    decreases ds.len(),
{
    if ds.len() == 0 {
        0
    } else {
        10 * digits_value(ds.drop_last()) + ds.last()
    }
}

/// Law: a digit sequence typed into a fresh buffer reads back as
/// exactly the number those digits spell, over a denominator of one,
/// whenever that number fits the machine representation. The
/// suppression of a lone leading zero never changes the value.
pub proof fn lemma_typed_digits_parse_exactly(ds: Seq<int>)
    requires
        forall|i: int| 0 <= i < ds.len() ==> 0 <= #[trigger] ds[i] <= 9,
        in_i64(digits_value(ds)),
    ensures
        spec_type_digits(ds).inv(),
        !spec_type_digits(ds).has_decimal,
        mantissa_of(spec_type_digits(ds).value) == digits_value(ds),
        spec_type_digits(ds).spec_to_number() == Some(
            Number { num: digits_value(ds) as i64, den: 1 },
        ),
{
    lemma_typed_digits_mantissa(ds);
    lemma_integer_buffer_value(spec_type_digits(ds));
}

/// The mantissa of a typed digit sequence equals the number the digits
/// spell.
proof fn lemma_typed_digits_mantissa(ds: Seq<int>)
    requires
        forall|i: int| 0 <= i < ds.len() ==> 0 <= #[trigger] ds[i] <= 9,
    ensures
        spec_type_digits(ds).inv(),
        !spec_type_digits(ds).has_decimal,
        mantissa_of(spec_type_digits(ds).value) == digits_value(ds),
        digits_value(ds) >= 0,
    decreases ds.len(),
{
    if ds.len() > 0 {
        lemma_typed_digits_mantissa(ds.drop_last());
        let v = spec_type_digits(ds.drop_last());
        let d = ds.last();
        if v.value.len() == 0 && d == 0 {
            assert(mantissa_of(v.value) == 0);
            assert(digits_value(ds.drop_last()) == 0);
        } else {
            lemma_digit_append_value(v, d);
            lemma_push_keeps_inv(v, digit_char(d));
        }
    }
}

} // verus!
