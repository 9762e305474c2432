//! The tolerant scalar value codec.
//!
//! An action parameter value travels on the wire as a bare JSON scalar
//! with no type tag.  The receiver classifies it structurally: the
//! literals `null`, `true` and `false`; a numeric literal, which becomes
//! a 64-bit signed integer when it is integral and in range, a floating
//! value otherwise; and a quoted string.  Encoding is the inverse and
//! produces the natural JSON scalar for each variant.

use vstd::prelude::*;

verus! {

/// The error kinds of the message model.
#[derive(Clone, Copy, Debug, PartialEq, Eq, Structural)]
pub enum ModelError {
    /// A wire scalar that fits none of the value shapes, or a malformed
    /// literal.
    TypeMismatch,
    /// An integral numeric literal outside the signed 64-bit range.
    Overflow,
    /// A required field is absent.
    MissingRequiredField,
    /// A token that is not a member of a closed enumeration.
    InvalidEnumValue,
    /// An order graph or a mirrored report that breaks a sequencing,
    /// reference or release rule.
    GraphInconsistency,
}

/// A parameter value: any JSON scalar, carried without a type tag.
///
/// A floating value is carried in its lexical form (the numeric literal
/// as it stood on the wire); the crate does no arithmetic on it, and the
/// lexical form round-trips byte for byte.
#[derive(Debug, Clone, PartialEq)]
pub enum ActionParameterValue {
    Null,
    Boolean(bool),
    Integer(i64),
    Float(String),
    String(String),
}

/// The mathematical model of an [`ActionParameterValue`].
pub enum ValueModel {
    Null,
    Boolean(bool),
    Integer(int),
    Float(Seq<char>),
    String(Seq<char>),
}

impl View for ActionParameterValue {
    type V = ValueModel;

    open spec fn view(&self) -> ValueModel {
        match self {
            ActionParameterValue::Null => ValueModel::Null,
            ActionParameterValue::Boolean(b) => ValueModel::Boolean(*b),
            ActionParameterValue::Integer(i) => ValueModel::Integer(*i as int),
            ActionParameterValue::Float(s) => ValueModel::Float(s@),
            ActionParameterValue::String(s) => ValueModel::String(s@),
        }
    }
}

impl DeepView for ActionParameterValue {
    type V = ValueModel;

    open spec fn deep_view(&self) -> ValueModel {
        self.view()
    }
}

// ---------------------------------------------------------------------------
// The scalar grammar.
// ---------------------------------------------------------------------------

/// The decimal digits.
pub open spec fn is_digit(c: char) -> bool {
    48 <= (c as u32) && (c as u32) <= 57
}

/// Numeric value of a decimal digit.
pub open spec fn digit_val(c: char) -> int
    recommends
        is_digit(c),
{
    (c as u32) - 48
}

/// The decimal digit with the given value.
pub open spec fn digit_char(d: int) -> char
    recommends
        0 <= d < 10,
{
    ((48 + d) as u32) as char
}

/// Value of a sequence of decimal digits, most significant first.
pub open spec fn digits_val(s: Seq<char>) -> int
    decreases s.len(),
{
    if s.len() == 0 {
        0
    } else {
        digits_val(s.drop_last()) * 10 + digit_val(s.last())
    }
}

/// True when every character of the sequence is a decimal digit.
pub open spec fn all_digits(s: Seq<char>) -> bool {
    forall|i: int| 0 <= i < s.len() ==> is_digit(#[trigger] s[i])
}

/// First position at or after `i` that does not hold a decimal digit.
pub open spec fn digits_end(s: Seq<char>, i: int) -> int
    decreases s.len() - i,
{
    if 0 <= i < s.len() && is_digit(s[i]) {
        digits_end(s, i + 1)
    } else {
        i
    }
}

/// Length of the optional leading minus sign of a numeric literal.
pub open spec fn num_sign_end(s: Seq<char>) -> int {
    if s.len() > 0 && s[0] == '-' {
        1
    } else {
        0
    }
}

/// End of the integer-digit part of a numeric literal.
pub open spec fn int_part_end(s: Seq<char>) -> int {
    digits_end(s, num_sign_end(s))
}

/// End of the fraction part of a numeric literal (equal to
/// [`int_part_end`] when there is none).
pub open spec fn frac_part_end(s: Seq<char>) -> int {
    let ie = int_part_end(s);
    if ie < s.len() && s[ie] == '.' {
        digits_end(s, ie + 1)
    } else {
        ie
    }
}

/// Start of the exponent digits of a numeric literal, after the marker
/// and the optional sign (equal to [`frac_part_end`] when there is no
/// exponent).
pub open spec fn exp_digits_start(s: Seq<char>) -> int {
    let fe = frac_part_end(s);
    if fe < s.len() && (s[fe] == 'e' || s[fe] == 'E') {
        if fe + 1 < s.len() && (s[fe + 1] == '+' || s[fe + 1] == '-') {
            fe + 2
        } else {
            fe + 1
        }
    } else {
        fe
    }
}

/// End of the exponent part of a numeric literal.
pub open spec fn exp_part_end(s: Seq<char>) -> int {
    let fe = frac_part_end(s);
    if fe < s.len() && (s[fe] == 'e' || s[fe] == 'E') {
        digits_end(s, exp_digits_start(s))
    } else {
        fe
    }
}

/// A well-formed JSON numeric literal: an optional minus sign, an
/// integer part without superfluous leading zero, an optional fraction
/// with at least one digit, and an optional exponent with at least one
/// digit, with nothing trailing.
pub open spec fn is_number_literal(s: Seq<char>) -> bool {
    let se = num_sign_end(s);
    let ie = int_part_end(s);
    let fe = frac_part_end(s);
    &&& ie > se
    &&& (ie - se > 1 ==> s[se] != '0')
    &&& (ie < s.len() && s[ie] == '.' ==> fe > ie + 1)
    &&& (fe < s.len() && (s[fe] == 'e' || s[fe] == 'E') ==> exp_part_end(s) > exp_digits_start(s))
    &&& exp_part_end(s) == s.len()
}

/// A numeric literal with neither fraction nor exponent.
pub open spec fn is_integral_literal(s: Seq<char>) -> bool {
    is_number_literal(s) && int_part_end(s) == s.len()
}

/// Mathematical value of an integral numeric literal.
pub open spec fn int_literal_val(s: Seq<char>) -> int
    recommends
        is_integral_literal(s),
{
    let m = digits_val(s.subrange(num_sign_end(s), s.len() as int));
    if num_sign_end(s) == 1 {
        -m
    } else {
        m
    }
}

// ---------------------------------------------------------------------------
// String escaping.
// ---------------------------------------------------------------------------

/// The lower-case hexadecimal digit with the given value.
pub open spec fn hex_digit_char(d: int) -> char
    recommends
        0 <= d < 16,
{
    if d < 10 {
        digit_char(d)
    } else {
        ((87 + d) as u32) as char
    }
}

/// Value of a hexadecimal digit; 16 when the character is none.
pub open spec fn hex_val(c: char) -> int {
    if 48 <= (c as u32) && (c as u32) <= 57 {
        (c as u32) - 48
    } else if 97 <= (c as u32) && (c as u32) <= 102 {
        (c as u32) - 87
    } else if 65 <= (c as u32) && (c as u32) <= 70 {
        (c as u32) - 55
    } else {
        16
    }
}

/// True for the hexadecimal digits, in either case.
pub open spec fn is_hex_digit(c: char) -> bool {
    hex_val(c) < 16
}

/// Wire form of one character inside a quoted string: the quote, the
/// backslash and the control characters are escaped, everything else
/// stands for itself.
pub open spec fn escape_char(c: char) -> Seq<char> {
    if c == '"' {
        seq!['\\', '"']
    } else if c == '\\' {
        seq!['\\', '\\']
    } else if c == '\n' {
        seq!['\\', 'n']
    } else if c == '\r' {
        seq!['\\', 'r']
    } else if c == '\t' {
        seq!['\\', 't']
    } else if (c as u32) < 32 {
        seq!['\\', 'u', '0', '0', hex_digit_char(((c as u32) / 16) as int), hex_digit_char(
            ((c as u32) % 16) as int,
        )]
    } else {
        seq![c]
    }
}

/// Wire form of the interior of a quoted string.
pub open spec fn escape(s: Seq<char>) -> Seq<char>
    decreases s.len(),
{
    if s.len() == 0 {
        Seq::empty()
    } else {
        escape_char(s[0]) + escape(s.subrange(1, s.len() as int))
    }
}

/// Prepends a character to a decode result that may already have
/// failed.
pub open spec fn unescape_cons(c: char, rest: Option<Seq<char>>) -> Option<Seq<char>> {
    match rest {
        Option::Some(t) => Option::Some(seq![c] + t),
        Option::None => Option::None,
    }
}

/// Reading the interior of a quoted string: resolves the escape
/// sequences and refuses a bare quote, a bare control character, a
/// malformed escape, and a `\u` escape in the surrogate range.
pub open spec fn unescape(s: Seq<char>) -> Option<Seq<char>>
    decreases s.len(),
{
    if s.len() == 0 {
        Option::Some(Seq::empty())
    } else if s[0] == '\\' {
        if s.len() < 2 {
            Option::None
        } else {
            let c = s[1];
            let rest2 = s.subrange(2, s.len() as int);
            if c == '"' || c == '\\' || c == '/' {
                unescape_cons(c, unescape(rest2))
            } else if c == 'n' {
                unescape_cons('\n', unescape(rest2))
            } else if c == 'r' {
                unescape_cons('\r', unescape(rest2))
            } else if c == 't' {
                unescape_cons('\t', unescape(rest2))
            } else if c == 'b' {
                unescape_cons('\u{0008}', unescape(rest2))
            } else if c == 'f' {
                unescape_cons('\u{000C}', unescape(rest2))
            } else if c == 'u' {
                if s.len() >= 6 && is_hex_digit(s[2]) && is_hex_digit(s[3]) && is_hex_digit(s[4])
                    && is_hex_digit(s[5]) {
                    let v = hex_val(s[2]) * 4096 + hex_val(s[3]) * 256 + hex_val(s[4]) * 16
                        + hex_val(s[5]);
                    if v < 0xD800 || v >= 0xE000 {
                        unescape_cons((v as u32) as char, unescape(s.subrange(6, s.len() as int)))
                    } else {
                        Option::None
                    }
                } else {
                    Option::None
                }
            } else {
                Option::None
            }
        }
    } else if s[0] == '"' || (s[0] as u32) < 32 {
        Option::None
    } else {
        unescape_cons(s[0], unescape(s.subrange(1, s.len() as int)))
    }
}

// ---------------------------------------------------------------------------
// The codec itself, as a mathematical function.
// ---------------------------------------------------------------------------

/// The characters of the literal `null`.
pub open spec fn null_chars() -> Seq<char> {
    seq!['n', 'u', 'l', 'l']
}

/// The characters of the literal `true`.
pub open spec fn true_chars() -> Seq<char> {
    seq!['t', 'r', 'u', 'e']
}

/// The characters of the literal `false`.
pub open spec fn false_chars() -> Seq<char> {
    seq!['f', 'a', 'l', 's', 'e']
}

/// Decimal wire form of a natural number, most significant digit
/// first.
pub open spec fn dec_rep(n: nat) -> Seq<char>
    decreases n,
{
    if n < 10 {
        seq![digit_char(n as int)]
    } else {
        dec_rep(n / 10).push(digit_char((n % 10) as int))
    }
}

/// Wire form of a signed integer.
pub open spec fn encode_int(i: int) -> Seq<char> {
    if i < 0 {
        seq!['-'] + dec_rep((-i) as nat)
    } else {
        dec_rep(i as nat)
    }
}

/// What the encoder emits for each value: the natural JSON scalar,
/// with no wrapper and no type tag.
pub open spec fn encode_spec(v: ValueModel) -> Seq<char> {
    match v {
        ValueModel::Null => null_chars(),
        ValueModel::Boolean(b) => if b {
            true_chars()
        } else {
            false_chars()
        },
        ValueModel::Integer(i) => encode_int(i),
        ValueModel::Float(s) => s,
        ValueModel::String(s) => seq!['"'] + escape(s) + seq!['"'],
    }
}

/// Decoding of a scalar that starts with a quote: the closing quote
/// must be there and the interior must unescape cleanly.
pub open spec fn decode_string_spec(s: Seq<char>) -> Result<ValueModel, ModelError> {
    if s.len() >= 2 && s[s.len() - 1] == '"' {
        match unescape(s.subrange(1, s.len() - 1)) {
            Option::Some(t) => Result::Ok(ValueModel::String(t)),
            Option::None => Result::Err(ModelError::TypeMismatch),
        }
    } else {
        Result::Err(ModelError::TypeMismatch)
    }
}

/// Decoding of a scalar that is no literal and no string: an integral
/// numeric literal in signed 64-bit range becomes an integer and one
/// out of range is an overflow; every other numeric literal keeps its
/// lexical form as a floating value; anything else fits no shape.
pub open spec fn decode_number_spec(s: Seq<char>) -> Result<ValueModel, ModelError> {
    if is_number_literal(s) {
        if is_integral_literal(s) {
            let v = int_literal_val(s);
            if -9223372036854775808 <= v && v <= 9223372036854775807 {
                Result::Ok(ValueModel::Integer(v))
            } else {
                Result::Err(ModelError::Overflow)
            }
        } else {
            Result::Ok(ValueModel::Float(s))
        }
    } else {
        Result::Err(ModelError::TypeMismatch)
    }
}

/// What the decoder returns for every input: the structural
/// classification of a bare JSON scalar.
///
/// The boolean literals and `null` name themselves; a quoted string
/// decodes through [`unescape`]; a numeric literal through
/// [`decode_number_spec`].
pub open spec fn decode_spec(s: Seq<char>) -> Result<ValueModel, ModelError> {
    if s == null_chars() {
        Result::Ok(ValueModel::Null)
    } else if s == true_chars() {
        Result::Ok(ValueModel::Boolean(true))
    } else if s == false_chars() {
        Result::Ok(ValueModel::Boolean(false))
    } else if s.len() >= 1 && s[0] == '"' {
        decode_string_spec(s)
    } else {
        decode_number_spec(s)
    }
}

/// A value the encoder is meant for.  Only the lexical floating form is
/// constrained: it must be a numeric literal that the decoder would
/// classify as floating again.
pub open spec fn value_wf(v: ValueModel) -> bool {
    match v {
        ValueModel::Float(s) => is_number_literal(s) && !is_integral_literal(s),
        ValueModel::Integer(i) => -9223372036854775808 <= i && i <= 9223372036854775807,
        _ => true,
    }
}

/// The model of a decode result.
pub open spec fn decoded_view(r: Result<ActionParameterValue, ModelError>) -> Result<
    ValueModel,
    ModelError,
> {
    match r {
        Result::Ok(v) => Result::Ok(v@),
        Result::Err(e) => Result::Err(e),
    }
}

} // verus!



verus! {

// ---------------------------------------------------------------------------
// Facts about the grammar functions.
// ---------------------------------------------------------------------------

/// A decimal digit's character and value are inverse to one another.
proof fn lemma_digit_char_val(d: int)
    requires
        0 <= d < 10,
    ensures
        is_digit(digit_char(d)),
        digit_val(digit_char(d)) == d,
        (digit_char(d) == '0') <==> (d == 0),
{
}

/// A hexadecimal digit's character and value are inverse to one another.
proof fn lemma_hex_digit_char_val(d: int)
    requires
        0 <= d < 16,
    ensures
        is_hex_digit(hex_digit_char(d)),
        hex_val(hex_digit_char(d)) == d,
{
    if d < 10 {
        lemma_digit_char_val(d);
    }
}

/// Everything strictly before `digits_end` is a digit, and the scan
/// stops either at the end or at the first non-digit.
proof fn lemma_digits_end_props(s: Seq<char>, i: int)
    requires
        0 <= i <= s.len(),
    ensures
        i <= digits_end(s, i) <= s.len(),
        forall|j: int| i <= j < digits_end(s, i) ==> is_digit(#[trigger] s[j]),
        digits_end(s, i) < s.len() ==> !is_digit(s[digits_end(s, i)]),
    decreases s.len() - i,
{
    if i < s.len() && is_digit(s[i]) {
        lemma_digits_end_props(s, i + 1);
    }
}

/// On an all-digit tail the scan runs to the end.
proof fn lemma_digits_end_all(s: Seq<char>, i: int)
    requires
        0 <= i <= s.len(),
        forall|j: int| i <= j < s.len() ==> is_digit(#[trigger] s[j]),
    ensures
        digits_end(s, i) == s.len(),
    decreases s.len() - i,
{
    if i < s.len() {
        lemma_digits_end_all(s, i + 1);
    }
}

/// The decimal representation of a natural number consists of digits,
/// evaluates back to the number, and never starts with a superfluous
/// zero.
proof fn lemma_dec_rep(n: nat)
    ensures
        dec_rep(n).len() >= 1,
        all_digits(dec_rep(n)),
        digits_val(dec_rep(n)) == n,
        (dec_rep(n)[0] == '0') <==> (n == 0),
        (dec_rep(n).len() == 1) <==> (n < 10),
    decreases n,
{
    if n < 10 {
        let s = dec_rep(n);
        lemma_digit_char_val(n as int);
        assert(s =~= seq![digit_char(n as int)]);
        assert(s.drop_last() =~= Seq::<char>::empty());
        assert(digits_val(Seq::<char>::empty()) == 0);
        assert(digits_val(s) == digit_val(digit_char(n as int)));
    } else {
        lemma_dec_rep(n / 10);
        lemma_digit_char_val((n % 10) as int);
        let prefix = dec_rep(n / 10);
        let d = digit_char((n % 10) as int);
        let s = prefix.push(d);
        assert(dec_rep(n) == s);
        assert(s.drop_last() =~= prefix);
        assert(s.last() == d);
        assert(digits_val(s) == digits_val(prefix) * 10 + digit_val(d));
        assert(n == (n / 10) * 10 + n % 10);
        assert(all_digits(s)) by {
            assert(forall|j: int|
                0 <= j < s.len() ==> #[trigger] s[j] == (if j < prefix.len() {
                    prefix[j]
                } else {
                    d
                }));
        };
        assert(s[0] == prefix[0]);
        assert(n / 10 >= 1);
    }
}

// ---------------------------------------------------------------------------
// Escaping and unescaping are inverse to one another.
// ---------------------------------------------------------------------------

/// Escaping distributes over concatenation.
proof fn lemma_escape_append(a: Seq<char>, b: Seq<char>)
    ensures
        escape(a + b) == escape(a) + escape(b),
    decreases a.len(),
{
    if a.len() == 0 {
        assert(a + b =~= b);
        assert(escape(a) + escape(b) =~= escape(b));
    } else {
        let a1 = a.subrange(1, a.len() as int);
        lemma_escape_append(a1, b);
        assert((a + b)[0] == a[0]);
        assert((a + b).subrange(1, (a + b).len() as int) =~= a1 + b);
        assert(escape_char(a[0]) + (escape(a1) + escape(b)) =~= (escape_char(a[0]) + escape(a1))
            + escape(b));
    }
}

/// Reading back the escaped form of one character, followed by
/// anything, peels off exactly that character.
proof fn lemma_unescape_escape_step(c: char, t: Seq<char>)
    ensures
        unescape(escape_char(c) + t) == unescape_cons(c, unescape(t)),
{
    let e = escape_char(c) + t;
    if c == '"' || c == '\\' {
        assert(e[0] == '\\');
        assert(e[1] == c);
        assert(e.subrange(2, e.len() as int) =~= t);
    } else if c == '\n' {
        assert(e[0] == '\\');
        assert(e[1] == 'n');
        assert(e.subrange(2, e.len() as int) =~= t);
    } else if c == '\r' {
        assert(e[0] == '\\');
        assert(e[1] == 'r');
        assert(e.subrange(2, e.len() as int) =~= t);
    } else if c == '\t' {
        assert(e[0] == '\\');
        assert(e[1] == 't');
        assert(e.subrange(2, e.len() as int) =~= t);
    } else if (c as u32) < 32 {
        let hi = ((c as u32) / 16) as int;
        let lo = ((c as u32) % 16) as int;
        lemma_hex_digit_char_val(hi);
        lemma_hex_digit_char_val(lo);
        assert(e[0] == '\\');
        assert(e[1] == 'u');
        assert(e.len() >= 6);
        assert(e[2] == '0' && e[3] == '0');
        assert(e[4] == hex_digit_char(hi));
        assert(e[5] == hex_digit_char(lo));
        assert(hex_val(e[2]) == 0 && hex_val(e[3]) == 0);
        let v = hex_val(e[2]) * 4096 + hex_val(e[3]) * 256 + hex_val(e[4]) * 16 + hex_val(e[5]);
        assert(v == (c as u32)) by {
            assert((c as u32) == ((c as u32) / 16) * 16 + (c as u32) % 16);
        };
        assert(v < 0xD800);
        vstd::utf8::char_u32_cast(c, c as u32);
        assert((v as u32) as char == c);
        assert(e.subrange(6, e.len() as int) =~= t);
    } else {
        assert(e[0] == c);
        assert(e[0] != '\\' && e[0] != '"');
        assert(e.subrange(1, e.len() as int) =~= t);
    }
}

/// Reading back the escaped interior of a string gives the original
/// characters.
proof fn lemma_unescape_escape(s: Seq<char>)
    ensures
        unescape(escape(s)) == Option::Some(s),
    decreases s.len(),
{
    if s.len() == 0 {
        assert(escape(s) =~= Seq::<char>::empty());
        assert(unescape(Seq::<char>::empty()) == Option::Some(Seq::<char>::empty()));
        assert(s =~= Seq::<char>::empty());
    } else {
        let rest = s.subrange(1, s.len() as int);
        lemma_unescape_escape(rest);
        lemma_unescape_escape_step(s[0], escape(rest));
        assert(seq![s[0]] + rest =~= s);
    }
}


/// An all-digit sequence, with `-` possibly in front, is a well-formed
/// integral numeric literal.
proof fn lemma_digit_seq_is_integral(s: Seq<char>, se: int)
    requires
        se == num_sign_end(s),
        se < s.len(),
        forall|j: int| se <= j < s.len() ==> is_digit(#[trigger] s[j]),
        s.len() - se > 1 ==> s[se] != '0',
    ensures
        is_integral_literal(s),
        int_literal_val(s) == (if se == 1 {
            -digits_val(s.subrange(1, s.len() as int))
        } else {
            digits_val(s)
        }),
{
    lemma_digits_end_all(s, se);
    let ie = int_part_end(s);
    assert(ie == s.len());
    assert(!(ie < s.len()));
    assert(frac_part_end(s) == ie);
    assert(exp_part_end(s) == ie);
    assert(is_number_literal(s));
    if se == 0 {
        assert(s.subrange(0, s.len() as int) =~= s);
    }
}

/// The round-trip law of the codec: decoding what the encoder emitted
/// gives back the value, for every constructible value of the five
/// variants.
pub proof fn lemma_decode_encode(v: ValueModel)
    requires
        value_wf(v),
    ensures
        decode_spec(encode_spec(v)) == Result::<ValueModel, ModelError>::Ok(v),
{
    let e = encode_spec(v);
    match v {
        ValueModel::Null => {
        },
        ValueModel::Boolean(b) => {
            if b {
                assert(true_chars()[0] != null_chars()[0]);
                assert(e != null_chars());
            } else {
                assert(false_chars().len() != null_chars().len());
                assert(e != null_chars());
                assert(false_chars().len() != true_chars().len());
                assert(e != true_chars());
            }
        },
        ValueModel::Integer(i) => {
            if i >= 0 {
                lemma_dec_rep(i as nat);
                assert(is_digit(e[0]));
                assert(e[0] != 'n' && e[0] != 't' && e[0] != 'f' && e[0] != '"' && e[0] != '-');
                assert(e != null_chars() && e != true_chars() && e != false_chars()) by {
                    assert(null_chars()[0] == 'n' && true_chars()[0] == 't' && false_chars()[0]
                        == 'f');
                };
                assert(num_sign_end(e) == 0);
                lemma_digit_seq_is_integral(e, 0);
                assert(int_literal_val(e) == i);
            } else {
                let d = dec_rep((-i) as nat);
                lemma_dec_rep((-i) as nat);
                assert(e == seq!['-'] + d);
                assert(e[0] == '-');
                assert(e != null_chars() && e != true_chars() && e != false_chars()) by {
                    assert(null_chars()[0] == 'n' && true_chars()[0] == 't' && false_chars()[0]
                        == 'f');
                    assert(!is_digit('n') && !is_digit('t') && !is_digit('f'));
                };
                assert(e[0] != '"');
                assert(num_sign_end(e) == 1);
                assert(forall|j: int| 1 <= j < e.len() ==> #[trigger] e[j] == d[j - 1]);
                assert(e.subrange(1, e.len() as int) =~= d);
                if e.len() - 1 > 1 {
                    assert(d.len() > 1);
                    assert((-i) as nat >= 10);
                    assert(e[1] == d[0]);
                    assert(d[0] != '0');
                }
                lemma_digit_seq_is_integral(e, 1);
                assert(int_literal_val(e) == -digits_val(d));
                assert(digits_val(d) == -i);
            }
        },
        ValueModel::Float(fs) => {
            let se = num_sign_end(fs);
            lemma_digits_end_props(fs, se);
            assert(is_digit(fs[se]));
            if se == 0 {
                assert(fs[0] != 'n' && fs[0] != 't' && fs[0] != 'f' && fs[0] != '"');
            } else {
                assert(fs[0] == '-');
            }
            assert(fs != null_chars() && fs != true_chars() && fs != false_chars()) by {
                assert(null_chars()[0] == 'n' && true_chars()[0] == 't' && false_chars()[0]
                    == 'f');
                assert(!is_digit('n') && !is_digit('t') && !is_digit('f'));
            };
            assert(fs[0] != '"');
        },
        ValueModel::String(ss) => {
            let esc = escape(ss);
            assert(e =~= seq!['"'] + esc + seq!['"']);
            assert(e.len() == esc.len() + 2);
            assert(e[0] == '"');
            assert(e != null_chars() && e != true_chars() && e != false_chars()) by {
                assert(null_chars()[0] == 'n' && true_chars()[0] == 't' && false_chars()[0]
                    == 'f');
            };
            assert(e[e.len() - 1] == '"');
            assert(e.subrange(1, e.len() - 1) =~= esc);
            lemma_unescape_escape(ss);
        },
    }
}

/// Re-encoding a decoded canonical wire form reproduces it byte for
/// byte: every scalar the encoder can emit decodes to a value whose
/// encoding is that same text.
pub proof fn lemma_encode_decode(v: ValueModel)
    requires
        value_wf(v),
    ensures
        decode_spec(encode_spec(v)) matches Result::Ok(w) && encode_spec(w) == encode_spec(v),
{
    lemma_decode_encode(v);
}


// ---------------------------------------------------------------------------
// Trusted bridge to the standard library.
// ---------------------------------------------------------------------------

/// Relies on `alloc::string::String::push`: appends the given character
/// to the end of the string.
pub assume_specification[ std::string::String::push ](s: &mut String, c: char)
    ensures
        final(s)@ == old(s)@.push(c),
;

/// Relies on `core::char::from_u32`: yields the character with the
/// given code for every Unicode scalar value (below the surrogate range
/// or between its end and 0x10FFFF), and nothing otherwise.
pub assume_specification[ char::from_u32 ](v: u32) -> (r: Option<char>)
    ensures
        (r is Some) <==> (v < 0xD800 || (0xE000 <= v && v <= 0x10FFFF)),
        r matches Option::Some(c) ==> c as u32 == v,
;

// ---------------------------------------------------------------------------
// Executable scanning helpers.
// ---------------------------------------------------------------------------

/// A sequence of digits evaluates to a non-negative number.
proof fn lemma_digits_val_nonneg(s: Seq<char>)
    requires
        all_digits(s),
    ensures
        digits_val(s) >= 0,
    decreases s.len(),
{
    if s.len() > 0 {
        assert(all_digits(s.drop_last())) by {
            assert(forall|j: int|
                0 <= j < s.len() - 1 ==> #[trigger] s.drop_last()[j] == s[j]);
        };
        lemma_digits_val_nonneg(s.drop_last());
    }
}

/// True exactly when the string consists of the four given characters.
fn str_matches4(s: &str, a: char, b: char, c: char, d: char) -> (r: bool)
    ensures
        r == (s@ == seq![a, b, c, d]),
{
    let n = s.unicode_len();
    if n != 4 {
        proof {
            assert(seq![a, b, c, d].len() == 4);
        }
        return false;
    }
    let r = s.get_char(0) == a && s.get_char(1) == b && s.get_char(2) == c && s.get_char(3) == d;
    proof {
        if r {
            assert(s@ =~= seq![a, b, c, d]);
        } else {
            assert(s@ == seq![a, b, c, d] ==> s@[0] == a && s@[1] == b && s@[2] == c && s@[3]
                == d);
        }
    }
    r
}

/// True exactly when the string consists of the five given characters.
fn str_matches5(s: &str, a: char, b: char, c: char, d: char, e: char) -> (r: bool)
    ensures
        r == (s@ == seq![a, b, c, d, e]),
{
    let n = s.unicode_len();
    if n != 5 {
        proof {
            assert(seq![a, b, c, d, e].len() == 5);
        }
        return false;
    }
    let r = s.get_char(0) == a && s.get_char(1) == b && s.get_char(2) == c && s.get_char(3) == d
        && s.get_char(4) == e;
    proof {
        if r {
            assert(s@ =~= seq![a, b, c, d, e]);
        } else {
            assert(s@ == seq![a, b, c, d, e] ==> s@[0] == a && s@[1] == b && s@[2] == c && s@[3]
                == d && s@[4] == e);
        }
    }
    r
}

/// Scans the run of decimal digits that starts at `start`.
fn scan_digits(s: &str, n: usize, start: usize) -> (end: usize)
    requires
        n == s@.len(),
        start <= n,
    ensures
        end as int == digits_end(s@, start as int),
        start <= end <= n,
{
    let mut i = start;
    loop
        invariant
            start <= i <= n,
            n == s@.len(),
            digits_end(s@, start as int) == digits_end(s@, i as int),
        ensures
            i as int == digits_end(s@, start as int),
            start <= i <= n,
        decreases n - i,
    {
        if i == n {
            proof {
                assert(digits_end(s@, i as int) == i as int);
            }
            break;
        }
        let c = s.get_char(i);
        let u = c as u32;
        if 48 <= u && u <= 57 {
            proof {
                assert(is_digit(s@[i as int]));
                assert(digits_end(s@, i as int) == digits_end(s@, i as int + 1));
            }
            i = i + 1;
        } else {
            proof {
                assert(!is_digit(s@[i as int]));
                assert(digits_end(s@, i as int) == i as int);
            }
            break;
        }
    }
    i
}

/// Evaluates the run of digits between `from` and `to`, reporting when
/// the value does not fit an unsigned 64-bit number.
fn parse_digits_u64(s: &str, n: usize, from: usize, to: usize) -> (r: Option<u64>)
    requires
        n == s@.len(),
        from <= to <= n,
        forall|j: int| from <= j < to ==> is_digit(#[trigger] s@[j]),
    ensures
        match r {
            Option::Some(a) => a as int == digits_val(s@.subrange(from as int, to as int)),
            Option::None => digits_val(s@.subrange(from as int, to as int)) > u64::MAX as int,
        },
{
    let mut acc: u64 = 0;
    let mut over: bool = false;
    let mut i = from;
    proof {
        assert(s@.subrange(from as int, from as int) =~= Seq::<char>::empty());
    }
    while i < to
        invariant
            from <= i <= to <= n,
            n == s@.len(),
            forall|j: int| from <= j < to ==> is_digit(#[trigger] s@[j]),
            !over ==> acc as int == digits_val(s@.subrange(from as int, i as int)),
            over ==> digits_val(s@.subrange(from as int, i as int)) > u64::MAX as int,
        decreases to - i,
    {
        let c = s.get_char(i);
        let u = c as u32;
        let d: u64 = (u - 48) as u64;
        proof {
            let pre = s@.subrange(from as int, i as int);
            let post = s@.subrange(from as int, i as int + 1);
            assert(post.drop_last() =~= pre);
            assert(post.last() == s@[i as int]);
            assert(all_digits(pre)) by {
                assert(forall|j: int| 0 <= j < pre.len() ==> #[trigger] pre[j] == s@[from + j]);
            };
            lemma_digits_val_nonneg(pre);
            assert(digits_val(post) == digits_val(pre) * 10 + d);
        }
        if over {
            proof {
                let pre = s@.subrange(from as int, i as int);
                let post = s@.subrange(from as int, i as int + 1);
                assert(digits_val(post) >= digits_val(pre) * 10);
                assert(digits_val(pre) * 10 >= digits_val(pre));
            }
        } else {
            if acc > (u64::MAX - d) / 10 {
                over = true;
                proof {
                    let pre = s@.subrange(from as int, i as int);
                    let post = s@.subrange(from as int, i as int + 1);
                    assert(acc as int * 10 + d > u64::MAX as int) by {
                        assert(acc as int >= (u64::MAX - d) as int / 10 + 1);
                    };
                }
            } else {
                proof {
                    assert(acc as int * 10 + d <= u64::MAX as int) by {
                        assert(acc as int <= (u64::MAX - d) as int / 10);
                        assert(((u64::MAX - d) as int / 10) * 10 <= (u64::MAX - d) as int);
                    };
                }
                acc = acc * 10 + d;
            }
        }
        i = i + 1;
    }
    proof {
        assert(s@.subrange(from as int, i as int) =~= s@.subrange(from as int, to as int));
    }
    if over {
        Option::None
    } else {
        Option::Some(acc)
    }
}


/// Value of a hexadecimal digit character; 16 when it is none.
fn hex_value_of(c: char) -> (v: u8)
    ensures
        v as int == hex_val(c),
{
    let u = c as u32;
    if 48 <= u && u <= 57 {
        (u - 48) as u8
    } else if 97 <= u && u <= 102 {
        (u - 87) as u8
    } else if 65 <= u && u <= 70 {
        (u - 55) as u8
    } else {
        16
    }
}

/// Classifies a scalar that is no literal and no string: the numeric
/// path of the decoder.
fn decode_number(s: &str) -> (r: Result<ActionParameterValue, ModelError>)
    ensures
        decoded_view(r) == decode_number_spec(s@),
{
    let n = s.unicode_len();
    let se: usize = if n > 0 && s.get_char(0) == '-' {
        1
    } else {
        0
    };
    proof {
        assert(se as int == num_sign_end(s@));
    }
    let ie = scan_digits(s, n, se);
    proof {
        assert(ie as int == int_part_end(s@));
    }
    if ie == se {
        proof {
            assert(!is_number_literal(s@));
        }
        return Result::Err(ModelError::TypeMismatch);
    }
    if ie - se > 1 && s.get_char(se) == '0' {
        proof {
            assert(!is_number_literal(s@));
        }
        return Result::Err(ModelError::TypeMismatch);
    }
    let mut frac_present: bool = false;
    let fe: usize = if ie < n && s.get_char(ie) == '.' {
        frac_present = true;
        let f = scan_digits(s, n, ie + 1);
        if f == ie + 1 {
            proof {
                assert(frac_part_end(s@) == ie + 1);
                assert(!is_number_literal(s@));
            }
            return Result::Err(ModelError::TypeMismatch);
        }
        f
    } else {
        ie
    };
    proof {
        assert(fe as int == frac_part_end(s@));
    }
    let mut exp_present: bool = false;
    let ee: usize = if fe < n {
        let c = s.get_char(fe);
        if c == 'e' || c == 'E' {
            exp_present = true;
            let es: usize = if fe + 1 < n {
                let c2 = s.get_char(fe + 1);
                if c2 == '+' || c2 == '-' {
                    fe + 2
                } else {
                    fe + 1
                }
            } else {
                fe + 1
            };
            proof {
                assert(es as int == exp_digits_start(s@));
            }
            let g = scan_digits(s, n, es);
            if g == es {
                proof {
                    assert(exp_part_end(s@) == es);
                    assert(!is_number_literal(s@));
                }
                return Result::Err(ModelError::TypeMismatch);
            }
            g
        } else {
            fe
        }
    } else {
        fe
    };
    proof {
        assert(ee as int == exp_part_end(s@));
    }
    if ee != n {
        proof {
            assert(!is_number_literal(s@));
        }
        return Result::Err(ModelError::TypeMismatch);
    }
    proof {
        assert(is_number_literal(s@));
    }
    if frac_present || exp_present {
        proof {
            if frac_present {
                assert(int_part_end(s@) < s@.len());
            } else {
                assert(fe == ie && fe < n);
            }
            assert(!is_integral_literal(s@));
        }
        return Result::Ok(ActionParameterValue::Float(s.to_owned()));
    }
    proof {
        assert(ie == n);
        assert(is_integral_literal(s@));
        lemma_digits_end_props(s@, se as int);
    }
    let parsed = parse_digits_u64(s, n, se, ie);
    proof {
        assert(s@.subrange(se as int, ie as int) == s@.subrange(num_sign_end(s@), s@.len() as int));
    }
    match parsed {
        Option::None => {
            proof {
                assert(digits_val(s@.subrange(num_sign_end(s@), s@.len() as int)) > u64::MAX
                    as int);
            }
            Result::Err(ModelError::Overflow)
        },
        Option::Some(a) => {
            if se == 1 {
                if a > 9223372036854775808u64 {
                    Result::Err(ModelError::Overflow)
                } else if a == 9223372036854775808u64 {
                    Result::Ok(ActionParameterValue::Integer(i64::MIN))
                } else {
                    Result::Ok(ActionParameterValue::Integer(-(a as i64)))
                }
            } else {
                if a > 9223372036854775807u64 {
                    Result::Err(ModelError::Overflow)
                } else {
                    Result::Ok(ActionParameterValue::Integer(a as i64))
                }
            }
        },
    }
}


/// Reads a quoted scalar: the string path of the decoder.
#[verifier::rlimit(100)]
fn decode_string(s: &str) -> (r: Result<ActionParameterValue, ModelError>)
    requires
        s@.len() >= 1,
        s@[0] == '"',
    ensures
        decoded_view(r) == decode_string_spec(s@),
{
    let n = s.unicode_len();
    if n < 2 {
        return Result::Err(ModelError::TypeMismatch);
    }
    if s.get_char(n - 1) != '"' {
        return Result::Err(ModelError::TypeMismatch);
    }
    let iend = n - 1;
    let ghost interior = s@.subrange(1, s@.len() - 1);
    let mut out = String::new();
    let mut k: usize = 1;
    proof {
        assert(s@.subrange(k as int, iend as int) == interior);
        match unescape(interior) {
            Option::Some(t) => {
                assert(out@ + t =~= t);
            },
            Option::None => {},
        }
    }
    while k < iend
        invariant
            1 <= k <= iend,
            iend == n - 1,
            n == s@.len(),
            n >= 2,
            interior == s@.subrange(1, s@.len() - 1),
            s@[0] == '"',
            s@[n - 1] == '"',
            unescape(interior) == (match unescape(s@.subrange(k as int, iend as int)) {
                Option::Some(t) => Option::Some(out@ + t),
                Option::None => Option::None::<Seq<char>>,
            }),
        decreases iend - k,
    {
        let ghost rem = s@.subrange(k as int, iend as int);
        let ghost out0 = out@;
        proof {
            assert(rem.len() == iend - k);
        }
        let c = s.get_char(k);
        proof {
            assert(rem[0] == c);
        }
        if c == '\\' {
            if iend - k < 2 {
                proof {
                    assert(unescape(rem) is None);
                }
                return Result::Err(ModelError::TypeMismatch);
            }
            let c2 = s.get_char(k + 1);
            proof {
                assert(rem[1] == c2);
            }
            let step: usize;
            if c2 == '"' || c2 == '\\' || c2 == '/' {
                out.push(c2);
                step = 2;
                proof {
                    assert(rem.subrange(2, rem.len() as int) =~= s@.subrange(
                        k as int + 2,
                        iend as int,
                    ));
                    assert(unescape(rem) == unescape_cons(c2, unescape(s@.subrange(
                        k as int + 2,
                        iend as int,
                    ))));
                }
            } else if c2 == 'n' || c2 == 'r' || c2 == 't' || c2 == 'b' || c2 == 'f' {
                let dc: char = if c2 == 'n' {
                    '\n'
                } else if c2 == 'r' {
                    '\r'
                } else if c2 == 't' {
                    '\t'
                } else if c2 == 'b' {
                    '\u{0008}'
                } else {
                    '\u{000C}'
                };
                out.push(dc);
                step = 2;
                proof {
                    assert(rem.subrange(2, rem.len() as int) =~= s@.subrange(
                        k as int + 2,
                        iend as int,
                    ));
                    assert(unescape(rem) == unescape_cons(dc, unescape(s@.subrange(
                        k as int + 2,
                        iend as int,
                    ))));
                }
            } else if c2 == 'u' {
                if iend - k < 6 {
                    proof {
                        assert(rem.len() < 6);
                        assert(unescape(rem) is None);
                    }
                    return Result::Err(ModelError::TypeMismatch);
                }
                let h0 = hex_value_of(s.get_char(k + 2));
                let h1 = hex_value_of(s.get_char(k + 3));
                let h2 = hex_value_of(s.get_char(k + 4));
                let h3 = hex_value_of(s.get_char(k + 5));
                proof {
                    assert(rem[2] == s@[k as int + 2]);
                    assert(rem[3] == s@[k as int + 3]);
                    assert(rem[4] == s@[k as int + 4]);
                    assert(rem[5] == s@[k as int + 5]);
                }
                if h0 >= 16 || h1 >= 16 || h2 >= 16 || h3 >= 16 {
                    proof {
                        assert(unescape(rem) is None);
                    }
                    return Result::Err(ModelError::TypeMismatch);
                }
                let v: u32 = (h0 as u32) * 4096 + (h1 as u32) * 256 + (h2 as u32) * 16 + (
                h3 as u32);
                proof {
                    assert(v as int == hex_val(rem[2]) * 4096 + hex_val(rem[3]) * 256 + hex_val(
                        rem[4],
                    ) * 16 + hex_val(rem[5]));
                }
                if 0xD800 <= v && v < 0xE000 {
                    proof {
                        assert(unescape(rem) is None);
                    }
                    return Result::Err(ModelError::TypeMismatch);
                }
                match char::from_u32(v) {
                    Option::Some(ch) => {
                        out.push(ch);
                        step = 6;
                        proof {
                            vstd::utf8::char_u32_cast(ch, v);
                            assert(ch == (v as u32) as char);
                            assert(rem.subrange(6, rem.len() as int) =~= s@.subrange(
                                k as int + 6,
                                iend as int,
                            ));
                            assert(unescape(rem) == unescape_cons(ch, unescape(s@.subrange(
                                k as int + 6,
                                iend as int,
                            ))));
                        }
                    },
                    Option::None => {
                        proof {
                            assert(false);
                        }
                        return Result::Err(ModelError::TypeMismatch);
                    },
                }
            } else {
                proof {
                    assert(unescape(rem) is None);
                }
                return Result::Err(ModelError::TypeMismatch);
            }
            proof {
                let dc = out@.last();
                let rem2 = s@.subrange(k + step as int, iend as int);
                assert(out@ =~= out0.push(dc));
                match unescape(rem2) {
                    Option::Some(t2) => {
                        assert(out0 + (seq![dc] + t2) =~= out0.push(dc) + t2);
                    },
                    Option::None => {},
                }
            }
            k = k + step;
        } else {
            let u = c as u32;
            if c == '"' || u < 32 {
                proof {
                    assert(unescape(rem) is None);
                }
                return Result::Err(ModelError::TypeMismatch);
            }
            out.push(c);
            proof {
                let rem2 = s@.subrange(k as int + 1, iend as int);
                assert(rem.subrange(1, rem.len() as int) =~= rem2);
                assert(unescape(rem) == unescape_cons(c, unescape(rem2)));
                match unescape(rem2) {
                    Option::Some(t2) => {
                        assert(out0 + (seq![c] + t2) =~= out0.push(c) + t2);
                    },
                    Option::None => {},
                }
            }
            k = k + 1;
        }
    }
    proof {
        assert(s@.subrange(k as int, iend as int) =~= Seq::<char>::empty());
        assert(unescape(Seq::<char>::empty()) == Option::Some(Seq::<char>::empty()));
        assert(out@ + Seq::<char>::empty() =~= out@);
    }
    Result::Ok(ActionParameterValue::String(out))
}

impl ActionParameterValue {
    /// Classifies a bare wire scalar without a type hint, as
    /// [`decode_spec`] states: the tolerant structural probe of the
    /// value codec.
    pub fn decode(s: &str) -> (r: Result<ActionParameterValue, ModelError>)
        ensures
            decoded_view(r) == decode_spec(s@),
    {
        if str_matches4(s, 'n', 'u', 'l', 'l') {
            return Result::Ok(ActionParameterValue::Null);
        }
        if str_matches4(s, 't', 'r', 'u', 'e') {
            return Result::Ok(ActionParameterValue::Boolean(true));
        }
        if str_matches5(s, 'f', 'a', 'l', 's', 'e') {
            return Result::Ok(ActionParameterValue::Boolean(false));
        }
        let n = s.unicode_len();
        if n >= 1 && s.get_char(0) == '"' {
            decode_string(s)
        } else {
            decode_number(s)
        }
    }
}


/// Decimal wire form of a signed 64-bit integer.
fn encode_i64(i: i64) -> (r: String)
    ensures
        r@ == encode_int(i as int),
{
    let neg = i < 0;
    let mut m: u64 = if i < 0 {
        (-(i as i128)) as u64
    } else {
        i as u64
    };
    let ghost m0 = m as nat;
    proof {
        assert(m0 == if i < 0 {
            -(i as int)
        } else {
            i as int
        });
    }
    let mut digits: Vec<char> = Vec::new();
    if m == 0 {
        digits.push('0');
        proof {
            assert(digit_char(0) == '0');
            assert(dec_rep(m0) =~= digits@);
        }
    } else {
        while m > 0
            invariant
                m > 0 ==> dec_rep(m0) == dec_rep(m as nat) + digits@,
                m == 0 ==> digits@ == dec_rep(m0),
            decreases m,
        {
            let d = (m % 10) as u8;
            let ch = ((48 + d) as u8) as char;
            proof {
                assert(ch == digit_char((m % 10) as int));
            }
            let ghost old_digits = digits@;
            digits.insert(0, ch);
            proof {
                assert(digits@ =~= seq![ch] + old_digits);
                if m >= 10 {
                    assert(dec_rep(m as nat) == dec_rep((m as nat) / 10).push(digit_char(
                        ((m as nat) % 10) as int,
                    )));
                    assert((m / 10) as nat == (m as nat) / 10);
                    assert(dec_rep((m / 10) as nat) + digits@ =~= (dec_rep((m as nat) / 10).push(
                        ch,
                    )) + old_digits);
                } else {
                    assert(dec_rep(m as nat) =~= seq![ch]);
                    assert(dec_rep(m as nat) + old_digits =~= digits@);
                }
            }
            m = m / 10;
        }
    }
    let mut r = String::new();
    if neg {
        r.push('-');
    }
    let ghost sign: Seq<char> = if neg {
        seq!['-']
    } else {
        Seq::<char>::empty()
    };
    proof {
        assert(r@ =~= sign + digits@.subrange(0, 0));
    }
    let mut idx: usize = 0;
    while idx < digits.len()
        invariant
            idx <= digits@.len(),
            digits@ == dec_rep(m0),
            r@ == sign + digits@.subrange(0, idx as int),
            sign == (if neg {
                seq!['-']
            } else {
                Seq::<char>::empty()
            }),
        decreases digits@.len() - idx,
    {
        let c = digits[idx];
        r.push(c);
        proof {
            assert(digits@.subrange(0, idx as int + 1) =~= digits@.subrange(0, idx as int).push(
                c,
            ));
            assert((sign + digits@.subrange(0, idx as int)).push(c) =~= sign + digits@.subrange(
                0,
                idx as int + 1,
            ));
        }
        idx = idx + 1;
    }
    proof {
        assert(digits@.subrange(0, digits@.len() as int) =~= digits@);
        if neg {
            assert(r@ == seq!['-'] + dec_rep((-(i as int)) as nat));
        } else {
            assert(Seq::<char>::empty() + digits@ =~= digits@);
            assert(r@ == dec_rep((i as int) as nat));
        }
    }
    r
}

/// The lower-case hexadecimal digit character with the given value.
fn hex_char_of(d: u8) -> (c: char)
    requires
        d < 16,
    ensures
        c == hex_digit_char(d as int),
{
    if d < 10 {
        ((48 + d) as u8) as char
    } else {
        ((87 + d) as u8) as char
    }
}

/// Quoted, escaped wire form of the characters of a string value.
fn encode_string_scalar(ss: &String) -> (r: String)
    ensures
        r@ == seq!['"'] + escape(ss@) + seq!['"'],
{
    let mut r = String::new();
    r.push('"');
    let n = ss.as_str().unicode_len();
    let mut i: usize = 0;
    proof {
        assert(escape(ss@.subrange(0, 0)) =~= Seq::<char>::empty());
        assert(r@ =~= seq!['"'] + escape(ss@.subrange(0, 0)));
    }
    while i < n
        invariant
            i <= n,
            n == ss@.len(),
            r@ == seq!['"'] + escape(ss@.subrange(0, i as int)),
        decreases n - i,
    {
        let c = ss.as_str().get_char(i);
        let ghost r0 = r@;
        let u = c as u32;
        if c == '"' {
            r.push('\\');
            r.push('"');
            proof {
                assert(r@ =~= r0 + escape_char(c));
            }
        } else if c == '\\' {
            r.push('\\');
            r.push('\\');
            proof {
                assert(r@ =~= r0 + escape_char(c));
            }
        } else if c == '\n' {
            r.push('\\');
            r.push('n');
            proof {
                assert(r@ =~= r0 + escape_char(c));
            }
        } else if c == '\r' {
            r.push('\\');
            r.push('r');
            proof {
                assert(r@ =~= r0 + escape_char(c));
            }
        } else if c == '\t' {
            r.push('\\');
            r.push('t');
            proof {
                assert(r@ =~= r0 + escape_char(c));
            }
        } else if u < 32 {
            r.push('\\');
            r.push('u');
            r.push('0');
            r.push('0');
            r.push(hex_char_of((u / 16) as u8));
            r.push(hex_char_of((u % 16) as u8));
            proof {
                assert(r@ =~= r0 + escape_char(c));
            }
        } else {
            r.push(c);
            proof {
                assert(escape_char(c) =~= seq![c]);
                assert(r@ =~= r0 + escape_char(c));
            }
        }
        proof {
            let pre = ss@.subrange(0, i as int);
            lemma_escape_append(pre, seq![c]);
            assert(pre + seq![c] =~= ss@.subrange(0, i as int + 1));
            assert(escape(seq![c]) =~= escape_char(c)) by {
                assert(seq![c].subrange(1, 1) =~= Seq::<char>::empty());
                assert(escape_char(c) + escape(Seq::<char>::empty()) =~= escape_char(c));
            };
            assert(r0 + escape_char(c) =~= seq!['"'] + escape(ss@.subrange(0, i as int + 1)));
        }
        i = i + 1;
    }
    proof {
        assert(ss@.subrange(0, n as int) =~= ss@);
    }
    r.push('"');
    proof {
        assert(r@ =~= seq!['"'] + escape(ss@) + seq!['"']);
    }
    r
}

impl ActionParameterValue {
    /// Serializes the value as its natural JSON scalar, with no wrapper
    /// and no type tag, as [`encode_spec`] states.
    pub fn encode(&self) -> (r: String)
        ensures
            r@ == encode_spec(self@),
    {
        match self {
            ActionParameterValue::Null => {
                let r = String::from_str("null");
                proof {
                    reveal_strlit("null");
                    assert(r@ =~= null_chars());
                }
                r
            },
            ActionParameterValue::Boolean(b) => {
                if *b {
                    let r = String::from_str("true");
                    proof {
                        reveal_strlit("true");
                        assert(r@ =~= true_chars());
                    }
                    r
                } else {
                    let r = String::from_str("false");
                    proof {
                        reveal_strlit("false");
                        assert(r@ =~= false_chars());
                    }
                    r
                }
            },
            ActionParameterValue::Integer(i) => encode_i64(*i),
            ActionParameterValue::Float(fs) => fs.clone(),
            ActionParameterValue::String(ss) => encode_string_scalar(ss),
        }
    }
}


/// Materializes a required field of a message: an absent value is the
/// missing-required-field error, never a default.
pub fn require_field<T>(field: Option<T>) -> (r: Result<T, ModelError>)
    ensures
        field matches Option::Some(v) ==> r == Result::<T, ModelError>::Ok(v),
        field is None ==> r == Result::<T, ModelError>::Err(ModelError::MissingRequiredField),
{
    match field {
        Option::Some(v) => Result::Ok(v),
        Option::None => Result::Err(ModelError::MissingRequiredField),
    }
}

} // verus!
