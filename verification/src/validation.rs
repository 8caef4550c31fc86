//! Schema validator: checks a claim set against a schema's attribute
//! definitions.
//!
//! For every declared attribute, a required attribute must have a matching
//! claim, and a present claim's value must match the attribute's data type
//! (`string`, `integer` or `boolean`). Claims not declared by the schema are
//! accepted without any check; the asymmetry is part of the contract.

use vstd::prelude::*;

use crate::bytes::bytes_eq;
use crate::structures::{Claim, Claims, CredentialSchema, SchemaAttribute, ValidationError};

verus! {

/// The byte string `string`.
pub open spec fn dt_string() -> Seq<u8> {
    seq![115u8, 116, 114, 105, 110, 103]
}

/// The byte string `integer`.
pub open spec fn dt_integer() -> Seq<u8> {
    seq![105u8, 110, 116, 101, 103, 101, 114]
}

/// The byte string `boolean`.
pub open spec fn dt_boolean() -> Seq<u8> {
    seq![98u8, 111, 111, 108, 101, 97, 110]
}

/// The byte string `true`.
pub open spec fn lit_true() -> Seq<u8> {
    seq![116u8, 114, 117, 101]
}

/// The byte string `false`.
pub open spec fn lit_false() -> Seq<u8> {
    seq![102u8, 97, 108, 115, 101]
}

fn dt_string_bytes() -> (r: Vec<u8>)
    ensures
        r@ == dt_string(),
{
    let mut v: Vec<u8> = Vec::new();
    v.push(115);
    v.push(116);
    v.push(114);
    v.push(105);
    v.push(110);
    v.push(103);
    proof {
        assert(v@ =~= dt_string());
    }
    v
}

fn dt_integer_bytes() -> (r: Vec<u8>)
    ensures
        r@ == dt_integer(),
{
    let mut v: Vec<u8> = Vec::new();
    v.push(105);
    v.push(110);
    v.push(116);
    v.push(101);
    v.push(103);
    v.push(101);
    v.push(114);
    proof {
        assert(v@ =~= dt_integer());
    }
    v
}

fn dt_boolean_bytes() -> (r: Vec<u8>)
    ensures
        r@ == dt_boolean(),
{
    let mut v: Vec<u8> = Vec::new();
    v.push(98);
    v.push(111);
    v.push(111);
    v.push(108);
    v.push(101);
    v.push(97);
    v.push(110);
    proof {
        assert(v@ =~= dt_boolean());
    }
    v
}

fn lit_true_bytes() -> (r: Vec<u8>)
    ensures
        r@ == lit_true(),
{
    let mut v: Vec<u8> = Vec::new();
    v.push(116);
    v.push(114);
    v.push(117);
    v.push(101);
    proof {
        assert(v@ =~= lit_true());
    }
    v
}

fn lit_false_bytes() -> (r: Vec<u8>)
    ensures
        r@ == lit_false(),
{
    let mut v: Vec<u8> = Vec::new();
    v.push(102);
    v.push(97);
    v.push(108);
    v.push(115);
    v.push(101);
    proof {
        assert(v@ =~= lit_false());
    }
    v
}

/// An ASCII decimal digit.
pub open spec fn is_ascii_digit(b: u8) -> bool {
    48 <= b && b <= 57
}

/// Every byte of `s` is an ASCII decimal digit.
pub open spec fn all_digits(s: Seq<u8>) -> bool {
    forall|i: int| 0 <= i < s.len() ==> is_ascii_digit(s[i])
}

/// The numeric value of a string of ASCII decimal digits.
pub open spec fn digits_val(s: Seq<u8>) -> int
    decreases s.len(),
{
    if s.len() == 0 {
        0
    } else {
        digits_val(s.drop_last()) * 10 + (s.last() - 48)
    }
}

/// The digit part of a candidate integer spelling: everything after an
/// optional leading sign.
pub open spec fn i64_digits(v: Seq<u8>) -> Seq<u8> {
    if v.len() > 0 && (v[0] == 43 || v[0] == 45) {
        v.subrange(1, v.len() as int)
    } else {
        v
    }
}

/// Whether a candidate integer spelling carries a leading minus sign.
pub open spec fn i64_negative(v: Seq<u8>) -> bool {
    v.len() > 0 && v[0] == 45
}

/// The magnitude bound a spelling must respect to fit a signed 64-bit
/// integer.
pub open spec fn i64_bound(v: Seq<u8>) -> int {
    if i64_negative(v) {
        0x8000000000000000
    } else {
        0x7fffffffffffffff
    }
}

/// Whether a byte string is the decimal spelling of a signed 64-bit integer:
/// an optional sign, one or more digits, and a magnitude within range.
pub open spec fn parses_as_i64(v: Seq<u8>) -> bool {
    &&& i64_digits(v).len() > 0
    &&& all_digits(i64_digits(v))
    &&& digits_val(i64_digits(v)) <= i64_bound(v)
}

proof fn lemma_digits_val_push(s: Seq<u8>, d: u8)
    ensures
        digits_val(s.push(d)) == digits_val(s) * 10 + (d - 48),
{
    assert(s.push(d).drop_last() =~= s);
    assert(s.push(d).last() == d);
}

proof fn lemma_digits_val_nonneg(s: Seq<u8>)
    requires
        all_digits(s),
    ensures
        digits_val(s) >= 0,
    decreases s.len(),
{
    if s.len() > 0 {
        assert(all_digits(s.drop_last())) by {
            assert(forall|i: int|
                0 <= i < s.len() - 1 ==> s.drop_last()[i] == s[i] && is_ascii_digit(s[i]));
        }
        lemma_digits_val_nonneg(s.drop_last());
    }
}

/// For a digit string, the value of any prefix is at most the value of the
/// whole.
proof fn lemma_digits_val_prefix(s: Seq<u8>, i: int)
    requires
        all_digits(s),
        0 <= i <= s.len(),
    ensures
        digits_val(s) >= digits_val(s.take(i)),
    decreases s.len() - i,
{
    if i == s.len() {
        assert(s.take(i) =~= s);
    } else {
        assert(all_digits(s.take(i))) by {
            assert(forall|j: int| 0 <= j < i ==> s.take(i)[j] == s[j] && is_ascii_digit(s[j]));
        }
        lemma_digits_val_nonneg(s.take(i));
        assert(s.take(i + 1) =~= s.take(i).push(s[i]));
        lemma_digits_val_push(s.take(i), s[i]);
        assert(digits_val(s.take(i + 1)) >= digits_val(s.take(i)));
        lemma_digits_val_prefix(s, i + 1);
    }
}

/// Whether a claim value spells a signed 64-bit integer, exactly as the
/// standard decimal parse accepts it.
pub fn is_integer(value: &Vec<u8>) -> (r: bool)
    ensures
        r == parses_as_i64(value@),
{
    let n = value.len();
    let mut start: usize = 0;
    let mut negative = false;
    if n > 0 && (value[0] == 43 || value[0] == 45) {
        start = 1;
        negative = value[0] == 45;
    }
    let ghost digits = i64_digits(value@);
    proof {
        if start == 1 {
            assert(digits =~= value@.subrange(1, n as int));
        }
        assert(negative == i64_negative(value@));
    }
    if start >= n {
        proof {
            assert(digits.len() == 0);
        }
        return false;
    }
    let bound: u128 = if negative {
        0x8000000000000000
    } else {
        0x7fffffffffffffff
    };
    let mut acc: u128 = 0;
    let mut i: usize = start;
    proof {
        assert(digits.take(0) =~= Seq::<u8>::empty());
    }
    while i < n
        invariant
            start <= i <= n,
            n == value.len(),
            start == 0 || start == 1,
            digits == i64_digits(value@),
            digits.len() == n - start,
            forall|j: int| 0 <= j < digits.len() ==> digits[j] == value@[j + start],
            all_digits(digits.take(i - start)),
            acc == digits_val(digits.take(i - start)),
            acc <= bound,
            bound == i64_bound(value@),
        decreases n - i,
    {
        let b = value[i];
        proof {
            assert(digits[i - start] == value@[i as int]);
        }
        if b < 48 || b > 57 {
            proof {
                assert(!is_ascii_digit(digits[i - start]));
                assert(!all_digits(digits));
            }
            return false;
        }
        let d: u128 = (b - 48) as u128;
        let next_acc: u128 = acc * 10 + d;
        proof {
            assert(digits.take(i - start + 1) =~= digits.take(i - start).push(digits[i - start]));
            lemma_digits_val_push(digits.take(i - start), digits[i - start]);
            assert(next_acc == digits_val(digits.take(i - start + 1)));
            assert(all_digits(digits.take(i - start + 1))) by {
                assert(forall|j: int|
                    0 <= j < i - start + 1 ==> is_ascii_digit(
                        #[trigger] digits.take(i - start + 1)[j],
                    ));
            }
        }
        if next_acc > bound {
            proof {
                if all_digits(digits) {
                    lemma_digits_val_prefix(digits, i - start + 1);
                    assert(digits_val(digits) > i64_bound(value@));
                }
                assert(!parses_as_i64(value@));
            }
            return false;
        }
        acc = next_acc;
        i += 1;
    }
    proof {
        assert(digits.take(n - start) =~= digits);
        assert(parses_as_i64(value@));
    }
    true
}

/// Whether a claim value is exactly `true` or `false`, case-sensitive.
pub open spec fn is_boolean_value(v: Seq<u8>) -> bool {
    v == lit_true() || v == lit_false()
}

/// Whether a claim value is exactly `true` or `false`, case-sensitive.
pub fn is_boolean(value: &Vec<u8>) -> (r: bool)
    ensures
        r == is_boolean_value(value@),
{
    let t = lit_true_bytes();
    let f = lit_false_bytes();
    bytes_eq(value, &t) || bytes_eq(value, &f)
}

/// The first claim whose attribute name matches, if any.
pub open spec fn find_claim(data: Seq<Claim>, name: Seq<u8>) -> Option<Claim>
    decreases data.len(),
{
    if data.len() == 0 {
        Option::None
    } else if data[0].attribute@ == name {
        Option::Some(data[0])
    } else {
        find_claim(data.drop_first(), name)
    }
}

proof fn lemma_find_claim_skip(data: Seq<Claim>, name: Seq<u8>, i: int)
    requires
        0 <= i <= data.len(),
        forall|j: int| 0 <= j < i ==> data[j].attribute@ != name,
    ensures
        find_claim(data, name) == find_claim(data.skip(i), name),
    decreases i,
{
    if i > 0 {
        lemma_find_claim_skip(data, name, i - 1);
        let s = data.skip(i - 1);
        assert(s[0] == data[i - 1]);
        assert(s.drop_first() =~= data.skip(i));
    } else {
        assert(data.skip(0) =~= data);
    }
}

fn find_claim_index(data: &Vec<Claim>, name: &Vec<u8>) -> (r: Option<usize>)
    ensures
        match r {
            Option::Some(i) => i < data.len() && data@[i as int].attribute@ == name@ && find_claim(
                data@,
                name@,
            ) == Option::Some(data@[i as int]),
            Option::None => find_claim(data@, name@) is None,
        },
{
    let n = data.len();
    let mut i: usize = 0;
    while i < n
        invariant
            0 <= i <= n,
            n == data.len(),
            forall|j: int| 0 <= j < i ==> data@[j].attribute@ != name@,
        decreases n - i,
    {
        if bytes_eq(&data[i].attribute, name) {
            proof {
                lemma_find_claim_skip(data@, name@, i as int);
                assert(data@.skip(i as int)[0] == data@[i as int]);
            }
            return Some(i);
        }
        i += 1;
    }
    proof {
        lemma_find_claim_skip(data@, name@, n as int);
        assert(data@.skip(n as int) =~= Seq::<Claim>::empty());
    }
    None
}

/// The outcome of checking one schema attribute against a claim set: a
/// required attribute without a matching claim is missing; a present claim is
/// type-checked against the attribute's declared data type.
pub open spec fn attr_result(data: Seq<Claim>, attr: SchemaAttribute) -> Option<ValidationError> {
    match find_claim(data, attr.name@) {
        Option::None => if attr.required {
            Option::Some(ValidationError::MissingAttribute)
        } else {
            Option::None
        },
        Option::Some(c) => if attr.data_type@ == dt_string() {
            Option::None
        } else if attr.data_type@ == dt_integer() {
            if parses_as_i64(c.value@) {
                Option::None
            } else {
                Option::Some(ValidationError::TypeMismatch)
            }
        } else if attr.data_type@ == dt_boolean() {
            if is_boolean_value(c.value@) {
                Option::None
            } else {
                Option::Some(ValidationError::TypeMismatch)
            }
        } else {
            Option::Some(ValidationError::UnsupportedType)
        },
    }
}

/// The outcome of validating a claim set against a schema's attribute list:
/// the first violated attribute, in declaration order, decides the error.
pub open spec fn validate_result(data: Seq<Claim>, attrs: Seq<SchemaAttribute>) -> Option<
    ValidationError,
>
    decreases attrs.len(),
{
    if attrs.len() == 0 {
        Option::None
    } else if attr_result(data, attrs[0]) is Some {
        attr_result(data, attrs[0])
    } else {
        validate_result(data, attrs.drop_first())
    }
}

proof fn lemma_validate_result_skip(data: Seq<Claim>, attrs: Seq<SchemaAttribute>, i: int)
    requires
        0 <= i <= attrs.len(),
        forall|j: int| 0 <= j < i ==> attr_result(data, attrs[j]) is None,
    ensures
        validate_result(data, attrs) == validate_result(data, attrs.skip(i)),
    decreases i,
{
    if i > 0 {
        lemma_validate_result_skip(data, attrs, i - 1);
        let s = attrs.skip(i - 1);
        assert(s[0] == attrs[i - 1]);
        assert(s.drop_first() =~= attrs.skip(i));
    } else {
        assert(attrs.skip(0) =~= attrs);
    }
}

/// Checks every schema attribute against the claim set, in declaration order,
/// and reports the first violation. Claims that no attribute declares are
/// accepted without any check.
pub fn validate_claims_against_schema(claims: &Claims, schema: &CredentialSchema) -> (r: Result<
    (),
    ValidationError,
>)
    ensures
        match r {
            Ok(_) => validate_result(claims.data@, schema.attributes@) is None,
            Err(e) => validate_result(claims.data@, schema.attributes@) == Option::Some(e),
        },
{
    let dt_s = dt_string_bytes();
    let dt_i = dt_integer_bytes();
    let dt_b = dt_boolean_bytes();
    let n = schema.attributes.len();
    let mut i: usize = 0;
    while i < n
        invariant
            0 <= i <= n,
            n == schema.attributes.len(),
            dt_s@ == dt_string(),
            dt_i@ == dt_integer(),
            dt_b@ == dt_boolean(),
            forall|j: int| 0 <= j < i ==> attr_result(claims.data@, schema.attributes@[j]) is None,
        decreases n - i,
    {
        let attr = &schema.attributes[i];
        let found = find_claim_index(&claims.data, &attr.name);
        let step: Option<ValidationError> = match found {
            None => {
                if attr.required {
                    Some(ValidationError::MissingAttribute)
                } else {
                    None
                }
            },
            Some(ci) => {
                if bytes_eq(&attr.data_type, &dt_s) {
                    None
                } else if bytes_eq(&attr.data_type, &dt_i) {
                    if is_integer(&claims.data[ci].value) {
                        None
                    } else {
                        Some(ValidationError::TypeMismatch)
                    }
                } else if bytes_eq(&attr.data_type, &dt_b) {
                    if is_boolean(&claims.data[ci].value) {
                        None
                    } else {
                        Some(ValidationError::TypeMismatch)
                    }
                } else {
                    Some(ValidationError::UnsupportedType)
                }
            },
        };
        proof {
            assert(step == attr_result(claims.data@, schema.attributes@[i as int]));
        }
        if let Some(e) = step {
            proof {
                lemma_validate_result_skip(claims.data@, schema.attributes@, i as int);
                assert(schema.attributes@.skip(i as int)[0] == schema.attributes@[i as int]);
            }
            return Err(e);
        }
        i += 1;
    }
    proof {
        lemma_validate_result_skip(claims.data@, schema.attributes@, n as int);
        assert(schema.attributes@.skip(n as int) =~= Seq::<SchemaAttribute>::empty());
    }
    Ok(())
}

} // verus!
