//! JSON text primitives for the wire protocol.
//!
//! The protocol's frames are JSON objects in one canonical form: fixed key
//! order, no extra whitespace, numbers without leading zeros, and strings
//! escaped exactly as [`esc_char`] describes.  Serialization is specified by
//! the `ser_*` spec functions; parsing by the `p*` spec functions, which
//! accept exactly the canonical serializations.  The lemmas here prove the
//! two directions inverse to each other; the executable emitters and parsers
//! are proved to implement the spec functions.

use vstd::prelude::*;

verus! {

// ---------------------------------------------------------------------------
// Characters and digits
// ---------------------------------------------------------------------------

pub open spec fn is_digit(c: char) -> bool {
    48 <= c as u32 <= 57
}

pub open spec fn digit_val(c: char) -> int {
    c as u32 - 48
}

pub open spec fn digit_char(d: int) -> char {
    ((48 + d) as u8) as char
}

/// Lowercase hex digit for `0 <= d < 16`.
pub open spec fn hex_char(d: int) -> char {
    if d < 10 {
        ((48 + d) as u8) as char
    } else {
        ((87 + d) as u8) as char
    }
}

pub open spec fn is_lower_hex(c: char) -> bool {
    48 <= c as u32 <= 57 || 97 <= c as u32 <= 102
}

pub open spec fn hex_val(c: char) -> int {
    if 48 <= c as u32 <= 57 {
        c as u32 - 48
    } else {
        c as u32 - 87
    }
}

/// Two characters with the same scalar value are the same character.
pub proof fn lemma_char_code_inj(a: char, b: char)
    requires
        a as u32 == b as u32,
    ensures
        a == b,
{
    vstd::utf8::char_u32_cast(a, a as u32);
    vstd::utf8::char_u32_cast(b, b as u32);
}

pub proof fn lemma_digit_char_val(c: char)
    requires
        is_digit(c),
    ensures
        digit_char(digit_val(c)) == c,
{
    let v = c as u32;
    let x = ((v as int) as u8) as char;
    assert(digit_char(digit_val(c)) == x);
    assert(x as u32 == v);
    lemma_char_code_inj(x, c);
}

// ---------------------------------------------------------------------------
// Canonical serialization of numbers
// ---------------------------------------------------------------------------

/// Decimal digits of a nonnegative integer, most significant first.
pub open spec fn ser_nat(n: int) -> Seq<char>
    decreases n,
{
    if n < 0 {
        Seq::empty()
    } else if n < 10 {
        seq![digit_char(n)]
    } else {
        ser_nat(n / 10) + seq![digit_char(n % 10)]
    }
}

/// Canonical serialization of a signed 64-bit value.
pub open spec fn ser_i64(n: int) -> Seq<char> {
    if n >= 0 {
        ser_nat(n)
    } else {
        seq!['-'] + ser_nat(-n)
    }
}

// ---------------------------------------------------------------------------
// Canonical serialization of strings
// ---------------------------------------------------------------------------

/// Escape of one character inside a JSON string: quote and backslash get a
/// backslash escape, control characters a `\u00XY` escape, and every other
/// character stands for itself.
pub open spec fn esc_char(c: char) -> Seq<char> {
    if c == '"' {
        seq!['\\', '"']
    } else if c == '\\' {
        seq!['\\', '\\']
    } else if (c as u32) < 32 {
        seq!['\\', 'u', '0', '0', hex_char(c as u32 as int / 16), hex_char(c as u32 as int % 16)]
    } else {
        seq![c]
    }
}

pub open spec fn esc_seq(s: Seq<char>) -> Seq<char>
    decreases s.len(),
{
    if s.len() == 0 {
        Seq::empty()
    } else {
        esc_char(s[0]) + esc_seq(s.drop_first())
    }
}

/// A quoted, escaped JSON string.
pub open spec fn ser_jstr(s: Seq<char>) -> Seq<char> {
    seq!['"'] + esc_seq(s) + seq!['"']
}

pub proof fn lemma_esc_seq_app(a: Seq<char>, b: Seq<char>)
    ensures
        esc_seq(a + b) == esc_seq(a) + esc_seq(b),
    decreases a.len(),
{
    if a.len() == 0 {
        assert(a + b =~= b);
        assert(esc_seq(a) + esc_seq(b) =~= esc_seq(b));
    } else {
        assert((a + b).drop_first() =~= a.drop_first() + b);
        lemma_esc_seq_app(a.drop_first(), b);
        assert(esc_char((a + b)[0]) + (esc_seq(a.drop_first()) + esc_seq(b)) =~= (esc_char(a[0])
            + esc_seq(a.drop_first())) + esc_seq(b));
    }
}

pub proof fn lemma_esc_seq_push(a: Seq<char>, c: char)
    ensures
        esc_seq(a.push(c)) == esc_seq(a) + esc_char(c),
{
    assert(a.push(c) =~= a + seq![c]);
    lemma_esc_seq_app(a, seq![c]);
    assert(seq![c].drop_first() =~= Seq::<char>::empty());
    assert(seq![c][0] == c);
    assert(esc_seq(seq![c]) == esc_char(c) + esc_seq(Seq::<char>::empty()));
    assert(esc_char(c) + Seq::<char>::empty() =~= esc_char(c));
}

// ---------------------------------------------------------------------------
// Spec-level parsing: numbers
// ---------------------------------------------------------------------------

/// Maximal prefix of decimal digits.
pub open spec fn take_digits(t: Seq<char>) -> Seq<char>
    decreases t.len(),
{
    if t.len() > 0 && is_digit(t[0]) {
        seq![t[0]] + take_digits(t.drop_first())
    } else {
        Seq::empty()
    }
}

/// Value of a digit sequence, most significant first.
pub open spec fn digits_val(d: Seq<char>) -> int
    decreases d.len(),
{
    if d.len() == 0 {
        0
    } else {
        digits_val(d.drop_last()) * 10 + digit_val(d.last())
    }
}

/// Parse a canonical nonnegative integer: a nonempty digit run with no
/// leading zero.  Returns the value and the remaining input.
pub open spec fn pnat(t: Seq<char>) -> Option<(int, Seq<char>)> {
    let d = take_digits(t);
    if d.len() == 0 {
        None
    } else if d[0] == '0' && d.len() > 1 {
        None
    } else {
        Some((digits_val(d), t.skip(d.len() as int)))
    }
}

pub open spec fn pu64(t: Seq<char>) -> Option<(u64, Seq<char>)> {
    match pnat(t) {
        Some((v, rest)) => if v <= u64::MAX { Some((v as u64, rest)) } else { None },
        None => None,
    }
}

pub open spec fn pi64(t: Seq<char>) -> Option<(i64, Seq<char>)> {
    if t.len() > 0 && t[0] == '-' {
        match pnat(t.skip(1)) {
            Some((v, rest)) => if 1 <= v <= 0x8000_0000_0000_0000 {
                Some(((-v) as i64, rest))
            } else {
                None
            },
            None => None,
        }
    } else {
        match pnat(t) {
            Some((v, rest)) => if v <= i64::MAX { Some((v as i64, rest)) } else { None },
            None => None,
        }
    }
}

// ---------------------------------------------------------------------------
// Spec-level parsing: strings
// ---------------------------------------------------------------------------

pub open spec fn pjstr_cons(c: char, r: Option<(Seq<char>, Seq<char>)>) -> Option<
    (Seq<char>, Seq<char>),
> {
    match r {
        Some((s, rest)) => Some((seq![c] + s, rest)),
        None => None,
    }
}

/// The control character written as `\u00XY`.
pub open spec fn ctrl_char_of(h1: char, h0: char) -> char {
    ((hex_val(h1) * 16 + hex_val(h0)) as u8) as char
}

/// Parse the body of a canonical JSON string up to and including the closing
/// quote.  Returns the unescaped content and the remaining input.
pub open spec fn pjstr_body(t: Seq<char>) -> Option<(Seq<char>, Seq<char>)>
    decreases t.len(),
{
    if t.len() == 0 {
        None
    } else if t[0] == '"' {
        Some((Seq::empty(), t.skip(1)))
    } else if t[0] == '\\' {
        if t.len() >= 2 && t[1] == '"' {
            pjstr_cons('"', pjstr_body(t.skip(2)))
        } else if t.len() >= 2 && t[1] == '\\' {
            pjstr_cons('\\', pjstr_body(t.skip(2)))
        } else if t.len() >= 6 && t[1] == 'u' && t[2] == '0' && t[3] == '0' && is_lower_hex(t[4])
            && is_lower_hex(t[5]) && hex_val(t[4]) * 16 + hex_val(t[5]) < 32 {
            pjstr_cons(ctrl_char_of(t[4], t[5]), pjstr_body(t.skip(6)))
        } else {
            None
        }
    } else if t[0] as u32 >= 32 {
        pjstr_cons(t[0], pjstr_body(t.skip(1)))
    } else {
        None
    }
}

/// Parse a canonical JSON string, opening quote included.
pub open spec fn pjstr(t: Seq<char>) -> Option<(Seq<char>, Seq<char>)> {
    if t.len() >= 1 && t[0] == '"' {
        pjstr_body(t.skip(1))
    } else {
        None
    }
}

pub proof fn lemma_hex_char_val(v: int)
    requires
        0 <= v < 16,
    ensures
        is_lower_hex(hex_char(v)),
        hex_val(hex_char(v)) == v,
{
}

pub proof fn lemma_hex_char_inv(c: char)
    requires
        is_lower_hex(c),
    ensures
        hex_char(hex_val(c)) == c,
{
    let v = hex_val(c);
    lemma_char_code_inj(hex_char(v), c);
}

pub proof fn lemma_pjstr_body_complete(s: Seq<char>, rest: Seq<char>)
    ensures
        pjstr_body(esc_seq(s) + seq!['"'] + rest) == Some((s, rest)),
    decreases s.len(),
{
    let t = esc_seq(s) + seq!['"'] + rest;
    if s.len() == 0 {
        assert(esc_seq(s) =~= Seq::<char>::empty());
        assert(t[0] == '"');
        assert(t.skip(1) =~= rest);
        assert(pjstr_body(t) == Some((Seq::<char>::empty(), rest)));
        assert(s =~= Seq::<char>::empty());
    } else {
        let c = s[0];
        let s1 = s.drop_first();
        let z = esc_seq(s1) + seq!['"'] + rest;
        lemma_pjstr_body_complete(s1, rest);
        assert(esc_seq(s) == esc_char(c) + esc_seq(s1));
        assert(t =~= esc_char(c) + z);
        assert(seq![c] + s1 =~= s);
        if c == '"' {
            assert(t[0] == '\\' && t[1] == '"');
            assert(t.skip(2) =~= z);
        } else if c == '\\' {
            assert(t[0] == '\\' && t[1] == '\\');
            assert(t.skip(2) =~= z);
        } else if (c as u32) < 32 {
            let v = c as u32 as int;
            assert(t[0] == '\\' && t[1] == 'u' && t[2] == '0' && t[3] == '0');
            assert(t[4] == hex_char(v / 16) && t[5] == hex_char(v % 16));
            lemma_hex_char_val(v / 16);
            lemma_hex_char_val(v % 16);
            assert(hex_val(t[4]) * 16 + hex_val(t[5]) == v);
            assert(ctrl_char_of(t[4], t[5]) == c) by {
                let x = ((v as u8) as char);
                assert(x as u32 == c as u32);
                lemma_char_code_inj(x, c);
            }
            assert(t.skip(6) =~= z);
        } else {
            assert(t[0] == c);
            assert(t[0] != '"' && t[0] != '\\' && t[0] as u32 >= 32);
            assert(t.skip(1) =~= z);
        }
    }
}

#[verifier::rlimit(50)]
pub proof fn lemma_pjstr_body_sound(t: Seq<char>)
    requires
        pjstr_body(t) is Some,
    ensures
        ({
            let (s, rest) = pjstr_body(t)->Some_0;
            &&& t == esc_seq(s) + seq!['"'] + rest
            &&& esc_seq(s).len() + 1 + rest.len() == t.len()
        }),
    decreases t.len(),
{
    let (s, rest) = pjstr_body(t)->Some_0;
    if t[0] == '"' {
        assert(s =~= Seq::<char>::empty());
        assert(esc_seq(s) =~= Seq::<char>::empty());
        assert(t =~= esc_seq(s) + seq!['"'] + t.skip(1));
    } else if t[0] == '\\' {
        if t.len() >= 2 && t[1] == '"' {
            lemma_pjstr_body_sound(t.skip(2));
            let (s1, rest1) = pjstr_body(t.skip(2))->Some_0;
            assert(s == seq!['"'] + s1);
            assert(esc_seq(s) == esc_char('"') + esc_seq(s1)) by {
                assert((seq!['"'] + s1).drop_first() =~= s1);
                assert((seq!['"'] + s1)[0] == '"');
            }
            assert(t =~= seq!['\\', '"'] + t.skip(2));
            assert(t =~= esc_seq(s) + seq!['"'] + rest);
        } else if t.len() >= 2 && t[1] == '\\' {
            lemma_pjstr_body_sound(t.skip(2));
            let (s1, rest1) = pjstr_body(t.skip(2))->Some_0;
            assert(s == seq!['\\'] + s1);
            assert(esc_seq(s) == esc_char('\\') + esc_seq(s1)) by {
                assert((seq!['\\'] + s1).drop_first() =~= s1);
                assert((seq!['\\'] + s1)[0] == '\\');
            }
            assert(t =~= seq!['\\', '\\'] + t.skip(2));
            assert(t =~= esc_seq(s) + seq!['"'] + rest);
        } else {
            let c = ctrl_char_of(t[4], t[5]);
            let v = hex_val(t[4]) * 16 + hex_val(t[5]);
            lemma_pjstr_body_sound(t.skip(6));
            let (s1, rest1) = pjstr_body(t.skip(6))->Some_0;
            assert(s == seq![c] + s1);
            assert(c as u32 == v);
            assert(esc_char(c) == seq!['\\', 'u', '0', '0', hex_char(v / 16), hex_char(v % 16)]);
            lemma_hex_char_inv(t[4]);
            lemma_hex_char_inv(t[5]);
            assert(v / 16 == hex_val(t[4]) && v % 16 == hex_val(t[5])) by {
                assert(0 <= hex_val(t[5]) < 16);
            }
            assert(esc_seq(s) == esc_char(c) + esc_seq(s1)) by {
                assert((seq![c] + s1).drop_first() =~= s1);
                assert((seq![c] + s1)[0] == c);
            }
            assert(t =~= seq![t[0], t[1], t[2], t[3], t[4], t[5]] + t.skip(6));
            assert(t =~= esc_seq(s) + seq!['"'] + rest);
        }
    } else {
        let c = t[0];
        lemma_pjstr_body_sound(t.skip(1));
        let (s1, rest1) = pjstr_body(t.skip(1))->Some_0;
        assert(s == seq![c] + s1);
        assert(esc_char(c) == seq![c]);
        assert(esc_seq(s) == esc_char(c) + esc_seq(s1)) by {
            assert((seq![c] + s1).drop_first() =~= s1);
            assert((seq![c] + s1)[0] == c);
        }
        assert(t =~= seq![c] + t.skip(1));
        assert(t =~= esc_seq(s) + seq!['"'] + rest);
    }
}

/// A canonical JSON string followed by anything parses back to its content.
pub proof fn lemma_pjstr_complete(s: Seq<char>, rest: Seq<char>)
    ensures
        pjstr(ser_jstr(s) + rest) == Some((s, rest)),
{
    let t = ser_jstr(s) + rest;
    assert(t[0] == '"');
    assert(t.skip(1) =~= esc_seq(s) + seq!['"'] + rest);
    lemma_pjstr_body_complete(s, rest);
}

/// Whatever `pjstr` accepts is the canonical string serialization of its
/// content, followed by the returned remainder.
pub proof fn lemma_pjstr_sound(t: Seq<char>)
    requires
        pjstr(t) is Some,
    ensures
        ({
            let (s, rest) = pjstr(t)->Some_0;
            &&& t == ser_jstr(s) + rest
            &&& ser_jstr(s).len() + rest.len() == t.len()
        }),
{
    let (s, rest) = pjstr(t)->Some_0;
    lemma_pjstr_body_sound(t.skip(1));
    assert(t =~= seq![t[0]] + t.skip(1));
    assert(t =~= ser_jstr(s) + rest);
}

// ---------------------------------------------------------------------------
// Number lemmas
// ---------------------------------------------------------------------------

pub open spec fn all_digits(d: Seq<char>) -> bool {
    forall|k: int| 0 <= k < d.len() ==> is_digit(#[trigger] d[k])
}

/// `ser_nat` produces a canonical digit run that evaluates back to its input.
pub proof fn lemma_ser_nat_canonical(n: int)
    requires
        n >= 0,
    ensures
        ser_nat(n).len() >= 1,
        all_digits(ser_nat(n)),
        ser_nat(n)[0] == '0' ==> ser_nat(n) == seq!['0'] && n == 0,
        digits_val(ser_nat(n)) == n,
    decreases n,
{
    if n < 10 {
        let d = seq![digit_char(n)];
        assert(ser_nat(n) =~= d);
        assert(is_digit(digit_char(n)));
        assert(d.drop_last() =~= Seq::<char>::empty());
        assert(d.last() == digit_char(n));
        assert(digits_val(Seq::<char>::empty()) == 0);
        assert(digits_val(d) == digit_val(digit_char(n)));
        assert(digit_val(digit_char(n)) == n);
    } else {
        lemma_ser_nat_canonical(n / 10);
        let d = ser_nat(n / 10);
        let c = digit_char(n % 10);
        assert(ser_nat(n) =~= d.push(c));
        assert(d.push(c).drop_last() =~= d);
        assert(d.push(c).last() == c);
        assert(digits_val(d.push(c)) == digits_val(d) * 10 + digit_val(c));
        assert(digit_val(c) == n % 10);
        assert(ser_nat(n)[0] == d[0]);
        assert(d[0] == '0' ==> n / 10 == 0);
        assert(forall|k: int| 0 <= k < ser_nat(n).len() ==> is_digit(#[trigger] ser_nat(n)[k]))
            by {
            assert(forall|k: int| 0 <= k < d.len() ==> is_digit(#[trigger] d[k]));
            assert(is_digit(c));
            assert(forall|k: int| 0 <= k < ser_nat(n).len() ==> #[trigger] ser_nat(n)[k] == (if k
                < d.len() {
                d[k]
            } else {
                c
            }));
        }
    }
}

/// A digit run followed by a non-digit is exactly what `take_digits` takes.
pub proof fn lemma_take_digits_exact(d: Seq<char>, rest: Seq<char>)
    requires
        all_digits(d),
        rest.len() == 0 || !is_digit(rest[0]),
    ensures
        take_digits(d + rest) == d,
    decreases d.len(),
{
    if d.len() == 0 {
        assert(d + rest =~= rest);
        assert(take_digits(rest) =~= Seq::<char>::empty());
        assert(d =~= Seq::<char>::empty());
    } else {
        assert((d + rest)[0] == d[0]);
        assert((d + rest).drop_first() =~= d.drop_first() + rest);
        assert(all_digits(d.drop_first())) by {
            assert(forall|k: int| 0 <= k < d.drop_first().len() ==> #[trigger] d.drop_first()[k]
                == d[k + 1]);
        }
        lemma_take_digits_exact(d.drop_first(), rest);
        assert(take_digits(d + rest) =~= seq![d[0]] + d.drop_first());
        assert(seq![d[0]] + d.drop_first() =~= d);
    }
}

/// `take_digits` decomposes its input: digits, then a non-digit remainder.
pub proof fn lemma_take_digits_split(t: Seq<char>)
    ensures
        take_digits(t).len() <= t.len(),
        all_digits(take_digits(t)),
        t == take_digits(t) + t.skip(take_digits(t).len() as int),
        take_digits(t).len() < t.len() ==> !is_digit(t[take_digits(t).len() as int]),
        forall|k: int| 0 <= k < take_digits(t).len() ==> #[trigger] take_digits(t)[k] == t[k],
    decreases t.len(),
{
    let d = take_digits(t);
    if t.len() > 0 && is_digit(t[0]) {
        let t1 = t.drop_first();
        lemma_take_digits_split(t1);
        let d1 = take_digits(t1);
        assert(d == seq![t[0]] + d1);
        assert forall|k: int| 0 <= k < d.len() implies #[trigger] d[k] == t[k] by {
            if k > 0 {
                assert(d[k] == d1[k - 1]);
                assert(d1[k - 1] == t1[k - 1]);
                assert(t1[k - 1] == t[k]);
            }
        }
        assert forall|k: int| 0 <= k < d.len() implies is_digit(#[trigger] d[k]) by {
            if k > 0 {
                assert(d[k] == d1[k - 1]);
            }
        }
        assert(t1 == d1 + t1.skip(d1.len() as int));
        assert(t.skip(d.len() as int) =~= t1.skip(d1.len() as int));
        assert(t =~= d + t.skip(d.len() as int));
        if d.len() < t.len() {
            assert(t[d.len() as int] == t1[d1.len() as int]);
        }
    } else {
        assert(d =~= Seq::<char>::empty());
        assert(t =~= Seq::<char>::empty() + t.skip(0));
    }
}

pub proof fn lemma_digits_val_nonneg(d: Seq<char>)
    requires
        all_digits(d),
    ensures
        digits_val(d) >= 0,
    decreases d.len(),
{
    if d.len() > 0 {
        assert(all_digits(d.drop_last())) by {
            assert(forall|k: int| 0 <= k < d.drop_last().len() ==> #[trigger] d.drop_last()[k]
                == d[k]);
        }
        lemma_digits_val_nonneg(d.drop_last());
        assert(is_digit(d.last()));
    }
}

/// Appending more digits can only grow the value.
pub proof fn lemma_digits_val_extend(d: Seq<char>, e: Seq<char>)
    requires
        all_digits(d),
        all_digits(e),
    ensures
        digits_val(d + e) >= digits_val(d),
    decreases e.len(),
{
    if e.len() == 0 {
        assert(d + e =~= d);
    } else {
        let e0 = e.drop_last();
        assert(all_digits(e0)) by {
            assert(forall|k: int| 0 <= k < e0.len() ==> #[trigger] e0[k] == e[k]);
        }
        lemma_digits_val_extend(d, e0);
        assert((d + e).drop_last() =~= d + e0);
        assert((d + e).last() == e.last());
        lemma_digits_val_nonneg(d);
        assert(all_digits(d + e0)) by {
            assert(forall|k: int| 0 <= k < (d + e0).len() ==> is_digit(#[trigger] (d + e0)[k]))
                by {
                assert(forall|k: int| 0 <= k < (d + e0).len() ==> (d + e0)[k] == (if k < d.len() {
                    d[k]
                } else {
                    e0[k - d.len()]
                }));
            }
        }
        lemma_digits_val_nonneg(d + e0);
        assert(digits_val(d + e) == digits_val(d + e0) * 10 + digit_val(e.last()));
        assert(is_digit(e.last()));
    }
}

/// A canonical digit run is reproduced by `ser_nat` of its value.
pub proof fn lemma_canonical_digits_ser(d: Seq<char>)
    requires
        all_digits(d),
        d.len() >= 1,
        d[0] == '0' ==> d.len() == 1,
    ensures
        digits_val(d) >= 0,
        d.len() >= 2 ==> digits_val(d) >= 10,
        ser_nat(digits_val(d)) == d,
    decreases d.len(),
{
    lemma_digits_val_nonneg(d);
    if d.len() == 1 {
        assert(d.drop_last() =~= Seq::<char>::empty());
        assert(d.last() == d[0]);
        assert(digits_val(Seq::<char>::empty()) == 0);
        assert(digits_val(d) == digit_val(d[0]));
        assert(is_digit(d[0]));
        lemma_digit_char_val(d[0]);
        assert(ser_nat(digits_val(d)) =~= seq![d[0]]);
        assert(seq![d[0]] =~= d);
    } else {
        let d0 = d.drop_last();
        assert(all_digits(d0)) by {
            assert(forall|k: int| 0 <= k < d0.len() ==> #[trigger] d0[k] == d[k]);
        }
        assert(d0[0] == d[0]);
        assert(d0[0] == '0' ==> d0.len() == 1) by {
            if d0[0] == '0' {
                assert(d[0] == '0');
            }
        }
        lemma_canonical_digits_ser(d0);
        let v = digits_val(d);
        assert(v == digits_val(d0) * 10 + digit_val(d.last()));
        assert(digits_val(d0) >= 1) by {
            if d0.len() >= 2 {
            } else {
                assert(d0.len() == 1);
                assert(d0[0] != '0');
                assert(is_digit(d0[0]));
                assert(d0.drop_last() =~= Seq::<char>::empty());
                assert(d0.last() == d0[0]);
                assert(digits_val(Seq::<char>::empty()) == 0);
                assert(digits_val(d0) == digit_val(d0[0]));
            }
        }
        assert(v >= 10);
        assert(v / 10 == digits_val(d0) && v % 10 == digit_val(d.last())) by {
            assert(0 <= digit_val(d.last()) < 10);
        }
        assert(ser_nat(v) == ser_nat(digits_val(d0)) + seq![digit_char(digit_val(d.last()))]);
        lemma_digit_char_val(d.last());
        assert(digit_char(digit_val(d.last())) == d.last());
        assert(d0 + seq![d.last()] =~= d);
    }
}

// ---------------------------------------------------------------------------
// Fixed fragments
// ---------------------------------------------------------------------------

/// Match a fixed fragment at the front of the input and drop it.
pub open spec fn plit(t: Seq<char>, l: Seq<char>) -> Option<Seq<char>> {
    if l.is_prefix_of(t) {
        Some(t.skip(l.len() as int))
    } else {
        None
    }
}

pub proof fn lemma_plit_complete(l: Seq<char>, rest: Seq<char>)
    ensures
        plit(l + rest, l) == Some(rest),
{
    assert((l + rest).subrange(0, l.len() as int) =~= l);
    assert(l.is_prefix_of(l + rest));
    assert((l + rest).skip(l.len() as int) =~= rest);
}

/// Parsing completeness for numbers: a canonical number followed by anything
/// that does not begin with a digit parses back to its value.
pub proof fn lemma_pnat_complete(n: int, rest: Seq<char>)
    requires
        n >= 0,
        rest.len() == 0 || !is_digit(rest[0]),
    ensures
        pnat(ser_nat(n) + rest) == Some((n, rest)),
{
    lemma_ser_nat_canonical(n);
    lemma_take_digits_exact(ser_nat(n), rest);
    let t = ser_nat(n) + rest;
    assert(take_digits(t) == ser_nat(n));
    assert(t.skip(ser_nat(n).len() as int) =~= rest);
}

/// Relies on `String::push`: appends the given character to the end of the
/// string.
pub assume_specification[ String::push ](s: &mut String, c: char)
    ensures
        final(s)@ == old(s)@ + seq![c],
;

// ---------------------------------------------------------------------------
// Executable emitters
// ---------------------------------------------------------------------------

/// Append a string slice, character for character.
pub fn emit_lit(out: &mut String, lit: &str)
    ensures
        final(out)@ == old(out)@ + lit@,
{
    out.append(lit);
}

fn digit_exec(d: u8) -> (c: char)
    requires
        d < 10,
    ensures
        c == digit_char(d as int),
{
    (48 + d) as char
}

fn hex_exec(d: u8) -> (c: char)
    requires
        d < 16,
    ensures
        c == hex_char(d as int),
{
    if d < 10 {
        (48 + d) as char
    } else {
        (87 + d) as char
    }
}

/// Append the canonical decimal form of `n`.
pub fn emit_u64(out: &mut String, n: u64)
    ensures
        final(out)@ == old(out)@ + ser_nat(n as int),
    decreases n,
{
    if n >= 10 {
        emit_u64(out, n / 10);
    }
    out.push(digit_exec((n % 10) as u8));
}

/// Append the canonical decimal form of a signed value.
pub fn emit_i64(out: &mut String, n: i64)
    ensures
        final(out)@ == old(out)@ + ser_i64(n as int),
{
    if n >= 0 {
        emit_u64(out, n as u64);
    } else {
        out.push('-');
        let mag: u64 = ((-(n + 1)) as u64) + 1;
        assert(mag as int == -(n as int));
        emit_u64(out, mag);
    }
}

/// Append a quoted, escaped JSON string.
pub fn emit_jstr(out: &mut String, s: &str)
    ensures
        final(out)@ == old(out)@ + ser_jstr(s@),
{
    out.push('"');
    let n = s.unicode_len();
    for i in 0..n
        invariant
            n == s@.len(),
            out@ == old(out)@ + seq!['"'] + esc_seq(s@.take(i as int)),
    {
        let c = s.get_char(i);
        let u = c as u32;
        if c == '"' {
            out.push('\\');
            out.push('"');
        } else if c == '\\' {
            out.push('\\');
            out.push('\\');
        } else if u < 32 {
            out.push('\\');
            out.push('u');
            out.push('0');
            out.push('0');
            out.push(hex_exec((u / 16) as u8));
            out.push(hex_exec((u % 16) as u8));
        } else {
            out.push(c);
        }
        proof {
            lemma_esc_seq_push(s@.take(i as int), c);
            assert(s@.take(i as int).push(c) =~= s@.take(i + 1 as int));
            assert(out@ =~= old(out)@ + seq!['"'] + esc_seq(s@.take(i + 1 as int)));
        }
    }
    out.push('"');
    proof {
        assert(s@.take(n as int) =~= s@);
        assert(out@ =~= old(out)@ + ser_jstr(s@));
    }
}

// ---------------------------------------------------------------------------
// Executable parsers
// ---------------------------------------------------------------------------

/// The characters of a string, as an indexable vector.
pub fn str_to_chars(s: &str) -> (v: Vec<char>)
    ensures
        v@ == s@,
{
    let n = s.unicode_len();
    let mut v: Vec<char> = Vec::new();
    for i in 0..n
        invariant
            n == s@.len(),
            v@ == s@.take(i as int),
    {
        v.push(s.get_char(i));
        proof {
            assert(s@.take(i as int).push(s@[i as int]) =~= s@.take(i + 1 as int));
        }
    }
    proof {
        assert(s@.take(n as int) =~= s@);
    }
    v
}

fn is_digit_exec(c: char) -> (r: bool)
    ensures
        r == is_digit(c),
{
    let u = c as u32;
    48 <= u && u <= 57
}

fn is_lower_hex_exec(c: char) -> (r: bool)
    ensures
        r == is_lower_hex(c),
{
    let u = c as u32;
    (48 <= u && u <= 57) || (97 <= u && u <= 102)
}

fn hex_val_exec(c: char) -> (r: u32)
    requires
        is_lower_hex(c),
    ensures
        r as int == hex_val(c),
        r < 16,
{
    let u = c as u32;
    if u <= 57 {
        u - 48
    } else {
        u - 87
    }
}

/// Match a fixed fragment at position `i`.
pub fn parse_lit(cs: &Vec<char>, i: usize, lit: &str) -> (r: Option<usize>)
    requires
        i <= cs.len(),
    ensures
        match r {
            Some(j) => {
                &&& i <= j <= cs@.len()
                &&& j - i == lit@.len()
                &&& plit(cs@.skip(i as int), lit@) == Some(cs@.skip(j as int))
            },
            None => plit(cs@.skip(i as int), lit@) is None,
        },
{
    let n = lit.unicode_len();
    if cs.len() - i < n {
        proof {
            assert(cs@.skip(i as int).len() < lit@.len());
            assert(!lit@.is_prefix_of(cs@.skip(i as int)));
        }
        return None;
    }
    for k in 0..n
        invariant
            i <= cs.len(),
            n == lit@.len(),
            n <= cs@.len() - i,
            forall|m: int| 0 <= m < k ==> cs@[i + m] == lit@[m],
    {
        if cs[i + k] != lit.get_char(k) {
            proof {
                let t = cs@.skip(i as int);
                assert(t[k as int] == cs@[i + k]);
                assert(!lit@.is_prefix_of(t)) by {
                    if lit@.is_prefix_of(t) {
                        assert(t.subrange(0, lit@.len() as int)[k as int] == t[k as int]);
                    }
                }
            }
            return None;
        }
    }
    proof {
        let t = cs@.skip(i as int);
        assert(t.subrange(0, n as int) =~= lit@);
        assert(lit@.is_prefix_of(t));
        assert(t.skip(n as int) =~= cs@.skip(i + n as int));
    }
    Some(i + n)
}

/// Parse a canonical `u64` at position `i`.
pub fn parse_u64(cs: &Vec<char>, i: usize) -> (r: Option<(u64, usize)>)
    requires
        i <= cs.len(),
    ensures
        match r {
            Some((v, j)) => {
                &&& i < j <= cs@.len()
                &&& pu64(cs@.skip(i as int)) == Some((v, cs@.skip(j as int)))
            },
            None => pu64(cs@.skip(i as int)) is None,
        },
{
    let ghost t = cs@.skip(i as int);
    let ghost run = take_digits(t);
    proof {
        lemma_take_digits_split(t);
    }
    if i == cs.len() || !is_digit_exec(cs[i]) {
        proof {
            if t.len() > 0 {
                assert(t[0] == cs@[i as int]);
            }
            assert(run.len() == 0);
        }
        return None;
    }
    proof {
        assert(t[0] == cs@[i as int]);
        assert(run.len() > 0);
        assert(run[0] == t[0]);
    }
    if cs[i] == '0' {
        if i + 1 < cs.len() && is_digit_exec(cs[i + 1]) {
            proof {
                assert(run.len() > 1) by {
                    if run.len() == 1 {
                        assert(t[1] == cs@[i + 1]);
                        assert(!is_digit(t[1]));
                    }
                }
                assert(run[0] == '0');
            }
            return None;
        }
        proof {
            assert(run.len() == 1) by {
                if run.len() > 1 {
                    assert(run[1] == t[1]);
                    assert(t[1] == cs@[i + 1]);
                    assert(is_digit(t[1]));
                }
            }
            assert(run =~= seq!['0']);
            assert(run.drop_last() =~= Seq::<char>::empty());
            assert(digits_val(Seq::<char>::empty()) == 0);
            assert(digits_val(run) == digit_val('0'));
            assert(t.skip(1) =~= cs@.skip(i + 1 as int));
        }
        return Some((0, i + 1));
    }
    let mut j: usize = i;
    let mut acc: u64 = 0;
    proof {
        assert(run.take(0) =~= Seq::<char>::empty());
    }
    while j < cs.len() && is_digit_exec(cs[j])
        invariant
            i <= j <= cs.len(),
            j - i <= run.len(),
            t == cs@.skip(i as int),
            run == take_digits(t),
            run.len() <= t.len(),
            all_digits(run),
            t == run + t.skip(run.len() as int),
            run.len() < t.len() ==> !is_digit(t[run.len() as int]),
            forall|m: int| 0 <= m < run.len() ==> #[trigger] run[m] == t[m],
            forall|m: int| 0 <= m < run.len() ==> #[trigger] run[m] == cs@[i + m],
            acc as int == digits_val(run.take(j - i)),
        decreases cs.len() - j,
    {
        proof {
            assert(cs@[j as int] == t[j - i]);
            assert(j - i < run.len()) by {
                if j - i >= run.len() {
                    assert(run.len() < t.len());
                    assert(j - i == run.len());
                }
            }
        }
        let d: u64 = (cs[j] as u32 - 48) as u64;
        proof {
            assert(d as int == digit_val(run[j - i]));
            assert(run.take(j - i + 1).drop_last() =~= run.take(j - i));
            assert(run.take(j - i + 1).last() == run[j - i]);
            assert(all_digits(run.take(j - i + 1))) by {
                assert(forall|m: int| 0 <= m < j - i + 1 ==> #[trigger] run.take(j - i + 1)[m]
                    == run[m]);
            }
        }
        if acc > (u64::MAX - d) / 10 {
            proof {
                assert(digits_val(run.take(j - i + 1)) == acc as int * 10 + d);
                assert(digits_val(run.take(j - i + 1)) > u64::MAX);
                assert(run =~= run.take(j - i + 1) + run.skip(j - i + 1));
                assert(all_digits(run.skip(j - i + 1))) by {
                    assert(forall|m: int| 0 <= m < run.skip(j - i + 1).len() ==> #[trigger] run.skip(
                        j - i + 1,
                    )[m] == run[m + j - i + 1]);
                }
                lemma_digits_val_extend(run.take(j - i + 1), run.skip(j - i + 1));
                assert(digits_val(run) > u64::MAX);
            }
            return None;
        }
        acc = acc * 10 + d;
        j = j + 1;
    }
    proof {
        assert(j - i == run.len()) by {
            if j - i < run.len() {
                assert(run[j - i] == cs@[i + (j - i)]);
                assert(is_digit(cs@[j as int]));
                assert(j < i + run.len());
                assert(run.len() <= t.len());
                assert(j < cs.len());
            }
        }
        assert(run.take(j - i) =~= run);
        assert(digits_val(run) == acc as int);
        assert(run[0] != '0');
        assert(t.skip(run.len() as int) =~= cs@.skip(j as int));
    }
    Some((acc, j))
}

/// Parse a canonical `i64` at position `i`.
pub fn parse_i64(cs: &Vec<char>, i: usize) -> (r: Option<(i64, usize)>)
    requires
        i <= cs.len(),
    ensures
        match r {
            Some((v, j)) => {
                &&& i < j <= cs@.len()
                &&& pi64(cs@.skip(i as int)) == Some((v, cs@.skip(j as int)))
            },
            None => pi64(cs@.skip(i as int)) is None,
        },
{
    let ghost t = cs@.skip(i as int);
    if i < cs.len() && cs[i] == '-' {
        proof {
            assert(t[0] == '-');
            assert(t.skip(1) =~= cs@.skip(i + 1 as int));
        }
        match parse_u64(cs, i + 1) {
            Some((v, j)) => {
                proof {
                    assert(cs@.skip(i + 1 as int) == t.skip(1));
                    assert(pu64(t.skip(1)) == Some((v, cs@.skip(j as int))));
                    assert(pnat(t.skip(1)) is Some);
                    lemma_pnat_sound(t.skip(1));
                    let (v0, rest0) = pnat(t.skip(1))->Some_0;
                    assert(v0 >= 0);
                    assert(v0 <= u64::MAX && v0 as u64 == v && rest0 == cs@.skip(j as int));
                    assert(v0 == v as int);
                    assert(pnat(t.skip(1)) == Some((v as int, cs@.skip(j as int))));
                }
                proof {
                    assert(t.len() > 0);
                }
                if v == 0 {
                    proof {
                        assert(pi64(t) is None);
                    }
                    return None;
                }
                if v > 0x8000_0000_0000_0000 {
                    proof {
                        assert(v as int > 0x8000_0000_0000_0000);
                        assert(pi64(t) is None);
                    }
                    return None;
                }
                let w: i64 = if v == 0x8000_0000_0000_0000 {
                    i64::MIN
                } else {
                    -(v as i64)
                };
                proof {
                    assert(w as int == -(v as int));
                    assert(1 <= v as int <= 0x8000_0000_0000_0000);
                    assert(pi64(t) == Some(((-(v as int)) as i64, cs@.skip(j as int))));
                    assert((-(v as int)) as i64 == w);
                }
                Some((w, j))
            },
            None => {
                proof {
                    if pnat(t.skip(1)) is Some {
                        let (v, rest) = pnat(t.skip(1))->Some_0;
                        lemma_pnat_sound(t.skip(1));
                        assert(v > u64::MAX);
                    }
                }
                None
            },
        }
    } else {
        proof {
            if t.len() > 0 {
                assert(t[0] == cs@[i as int]);
            }
        }
        match parse_u64(cs, i) {
            Some((v, j)) => {
                proof {
                    assert(pu64(t) == Some((v, cs@.skip(j as int))));
                    assert(pnat(t) is Some);
                    lemma_pnat_sound(t);
                    let (v0, rest0) = pnat(t)->Some_0;
                    assert(v0 >= 0);
                    assert(v0 <= u64::MAX && v0 as u64 == v && rest0 == cs@.skip(j as int));
                    assert(v0 == v as int);
                    assert(pnat(t) == Some((v as int, cs@.skip(j as int))));
                }
                if v > i64::MAX as u64 {
                    return None;
                }
                Some((v as i64, j))
            },
            None => {
                proof {
                    if pnat(t) is Some {
                        let (v, rest) = pnat(t)->Some_0;
                        lemma_pnat_sound(t);
                        assert(v > u64::MAX);
                    }
                }
                None
            },
        }
    }
}

pub open spec fn body_cont(a: Seq<char>, r: Option<(Seq<char>, Seq<char>)>) -> Option<
    (Seq<char>, Seq<char>),
> {
    match r {
        Some((s, rest)) => Some((a + s, rest)),
        None => None,
    }
}

proof fn lemma_body_cont_cons(a: Seq<char>, c: char, r: Option<(Seq<char>, Seq<char>)>)
    ensures
        body_cont(a, pjstr_cons(c, r)) == body_cont(a.push(c), r),
{
    match r {
        Some((s, rest)) => {
            assert(a + (seq![c] + s) =~= a.push(c) + s);
        },
        None => {},
    }
}

/// Parse a canonical JSON string at position `i`.
pub fn parse_jstr(cs: &Vec<char>, i: usize) -> (r: Option<(String, usize)>)
    requires
        i <= cs.len(),
    ensures
        match r {
            Some((s, j)) => {
                &&& i < j <= cs@.len()
                &&& pjstr(cs@.skip(i as int)) == Some((s@, cs@.skip(j as int)))
            },
            None => pjstr(cs@.skip(i as int)) is None,
        },
{
    let ghost t = cs@.skip(i as int);
    if i == cs.len() || cs[i] != '"' {
        proof {
            if t.len() > 0 {
                assert(t[0] == cs@[i as int]);
            }
        }
        return None;
    }
    proof {
        assert(t[0] == '"');
        assert(t.skip(1) =~= cs@.skip(i + 1 as int));
    }
    let mut acc: String = String::new();
    let mut j: usize = i + 1;
    loop
        invariant
            i + 1 <= j <= cs.len(),
            t == cs@.skip(i as int),
            t.len() >= 1 && t[0] == '"',
            t.skip(1) == cs@.skip(i + 1 as int),
            pjstr_body(cs@.skip(i + 1 as int)) == body_cont(acc@, pjstr_body(cs@.skip(j as int))),
        decreases cs.len() - j,
    {
        let ghost u = cs@.skip(j as int);
        if j == cs.len() {
            proof {
                assert(u.len() == 0);
            }
            return None;
        }
        proof {
            assert(u[0] == cs@[j as int]);
            assert(u.len() == cs@.len() - j);
            assert(u.skip(1) =~= cs@.skip(j + 1 as int));
        }
        let c = cs[j];
        if c == '"' {
            proof {
                assert(pjstr_body(u) == Some((Seq::<char>::empty(), u.skip(1))));
                assert(acc@ + Seq::<char>::empty() =~= acc@);
            }
            return Some((acc, j + 1));
        } else if c == '\\' {
            if j + 1 == cs.len() {
                proof {
                    assert(u.len() == 1);
                    assert(pjstr_body(u) is None);
                }
                return None;
            }
            proof {
                assert(u[1] == cs@[j + 1]);
            }
            let e = cs[j + 1];
            if e == '"' {
                proof {
                    assert(u.skip(2) =~= cs@.skip(j + 2 as int));
                    lemma_body_cont_cons(acc@, '"', pjstr_body(cs@.skip(j + 2 as int)));
                }
                acc.push('"');
                j = j + 2;
            } else if e == '\\' {
                proof {
                    assert(u.skip(2) =~= cs@.skip(j + 2 as int));
                    lemma_body_cont_cons(acc@, '\\', pjstr_body(cs@.skip(j + 2 as int)));
                }
                acc.push('\\');
                j = j + 2;
            } else if e == 'u' {
                if cs.len() - j < 6 {
                    proof {
                        assert(u.len() < 6);
                        assert(pjstr_body(u) is None);
                    }
                    return None;
                }
                proof {
                    assert(u[2] == cs@[j + 2]);
                    assert(u[3] == cs@[j + 3]);
                    assert(u[4] == cs@[j + 4]);
                    assert(u[5] == cs@[j + 5]);
                }
                if cs[j + 2] != '0' || cs[j + 3] != '0' {
                    return None;
                }
                let h1 = cs[j + 4];
                let h0 = cs[j + 5];
                if !is_lower_hex_exec(h1) || !is_lower_hex_exec(h0) {
                    return None;
                }
                let v: u32 = hex_val_exec(h1) * 16 + hex_val_exec(h0);
                if v >= 32 {
                    return None;
                }
                let g: char = (v as u8) as char;
                proof {
                    assert(g == ctrl_char_of(h1, h0));
                    assert(u.skip(6) =~= cs@.skip(j + 6 as int));
                    lemma_body_cont_cons(acc@, g, pjstr_body(cs@.skip(j + 6 as int)));
                }
                acc.push(g);
                j = j + 6;
            } else {
                proof {
                    assert(pjstr_body(u) is None);
                }
                return None;
            }
        } else {
            let w = c as u32;
            if w < 32 {
                proof {
                    assert(pjstr_body(u) is None);
                }
                return None;
            }
            proof {
                assert(u.skip(1) =~= cs@.skip(j + 1 as int));
                lemma_body_cont_cons(acc@, c, pjstr_body(cs@.skip(j + 1 as int)));
            }
            acc.push(c);
            j = j + 1;
        }
    }
}

/// Parsing soundness for numbers: whatever `pnat` accepts is the canonical
/// serialization of its value, followed by the returned remainder.
pub proof fn lemma_pnat_sound(t: Seq<char>)
    requires
        pnat(t) is Some,
    ensures
        ({
            let (v, rest) = pnat(t)->Some_0;
            &&& v >= 0
            &&& t == ser_nat(v) + rest
            &&& rest.len() == 0 || !is_digit(rest[0])
            &&& ser_nat(v).len() + rest.len() == t.len()
        }),
{
    lemma_take_digits_split(t);
    let d = take_digits(t);
    lemma_canonical_digits_ser(d);
    let (v, rest) = pnat(t)->Some_0;
    assert(v == digits_val(d));
    assert(ser_nat(v) == d);
    assert(rest =~= t.skip(d.len() as int));
}

} // verus!
