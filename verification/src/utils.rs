//! Small helpers shared across the crate.
use vstd::prelude::*;
use vstd::laws_eq::obeys_concrete_eq;
use vstd::laws_cmp::obeys_partial_cmp_spec_properties;
use vstd::std_specs::cmp::PartialOrdIs;
use vstd::std_specs::cmp::PartialOrdSpec;

verus! {

/// The index of the first element of `s` equal to `x`, if any.
pub open spec fn first_index_of<T>(s: Seq<T>, x: T) -> Option<int> {
    if exists|i: int| 0 <= i < s.len() && s[i] == x && forall|j: int| 0 <= j < i ==> s[j] != x {
        Some(choose|i: int| 0 <= i < s.len() && s[i] == x && forall|j: int| 0 <= j < i ==> s[j] != x)
    } else {
        None
    }
}

/// The first index is unique: any index holding `x` with no `x` before it is it.
pub proof fn lemma_first_index_of<T>(s: Seq<T>, x: T, i: int)
    requires
        0 <= i < s.len(),
        s[i] == x,
        forall|j: int| 0 <= j < i ==> s[j] != x,
    ensures
        first_index_of(s, x) == Some(i),
{
    let k = choose|k: int| 0 <= k < s.len() && s[k] == x && forall|j: int| 0 <= j < k ==> s[j] != x;
    assert(0 <= k < s.len() && s[k] == x && forall|j: int| 0 <= j < k ==> s[j] != x);
    if k < i {
        assert(s[k] != x);
    } else if i < k {
        assert(s[i] != x);
    }
}

/// Removes the first element equal to `item`, keeping the order of the rest,
/// and gives it back; leaves the vector alone when there is none.
pub fn shift_remove_vec<T: PartialEq>(vec: &mut Vec<T>, item: &T) -> (r: Option<T>)
    requires
        obeys_concrete_eq::<T>(),
    ensures
        match first_index_of(old(vec)@, *item) {
            Some(i) => r == Some(old(vec)@[i]) && final(vec)@ == old(vec)@.remove(i),
            None => r is None && final(vec)@ == old(vec)@,
        },
{
    proof { reveal(obeys_concrete_eq); }
    let mut idx: usize = 0;
    while idx < vec.len()
        invariant
            0 <= idx <= vec@.len(),
            vec@ == old(vec)@,
            obeys_concrete_eq::<T>(),
            forall|j: int| 0 <= j < idx ==> vec@[j] != *item,
        decreases vec@.len() - idx,
    {
        proof { reveal(obeys_concrete_eq); }
        if *item == vec[idx] {
            proof { lemma_first_index_of(vec@, *item, idx as int); }
            return Some(vec.remove(idx));
        }
        idx += 1;
    }
    assert(!exists|i: int| 0 <= i < vec@.len() && vec@[i] == *item && forall|j: int| 0 <= j < i ==> vec@[j] != *item);
    None
}

/// What `clamp` gives for a type whose comparison follows its specification.
pub open spec fn clamp_spec<T: PartialOrd>(x: T, min: T, max: T) -> T {
    if x.is_gt(&min) {
        if x.is_gt(&max) {
            max
        } else {
            x
        }
    } else {
        min
    }
}

/// Limits `x` to the range from `min` to `max`: `min` unless `x` is greater
/// than `min`, else `max` if `x` is greater than `max`, else `x` itself.
pub fn clamp<T: PartialOrd>(x: T, min: T, max: T) -> (r: T)
    ensures
        T::obeys_partial_cmp_spec() ==> r == clamp_spec(x, min, max),
        r == x || r == min || r == max,
{
    if x > min {
        if x > max {
            max
        } else {
            x
        }
    } else {
        min
    }
}

/// The character of a decimal digit.
pub open spec fn digit_char(d: nat) -> char {
    ((48 + d) as u8) as char
}

/// The decimal representation of `n`: its digits, most significant first,
/// with no leading zeros (`0` is written as one digit).
pub open spec fn decimal_digits(n: nat) -> Seq<char>
    decreases n,
{
    if n < 10 {
        seq![digit_char(n)]
    } else {
        decimal_digits(n / 10).push(digit_char(n % 10))
    }
}

/// Appends the decimal representation of `n` to `out`.
pub fn push_decimal(out: &mut Vec<char>, n: usize)
    ensures
        final(out)@ == old(out)@ + decimal_digits(n as nat),
    decreases n,
{
    if n >= 10 {
        push_decimal(out, n / 10);
    }
    let d: u8 = (n % 10) as u8;
    out.push((48u8 + d) as char);
    proof {
        assert(old(out)@ + decimal_digits(n as nat) =~= out@);
    }
}

/// A string holding the given characters in order: `String`'s `FromIterator`
/// over characters, which appends each one.
#[verifier::external_body]
pub(crate) fn string_from_chars(chars: &Vec<char>) -> (s: String)
    ensures
        s@ == chars@,
{
    String::from_iter(chars.iter())
}

/// Whether `a` and `b` are comparable: neither is unordered with respect to
/// the other (as a NaN would be).
pub open spec fn comparable<T: PartialOrd>(a: T, b: T) -> bool {
    a.partial_cmp_spec(&b) is Some
}

/// Clamping into a non-empty range of a totally ordered type: the result lies
/// within the range; a value already inside it is kept; a value at or below the
/// lower end gives the lower end; a value above the upper end gives the upper
/// end; and clamping the result again changes nothing.
pub proof fn lemma_clamp_within_range<T: PartialOrd>(x: T, min: T, max: T)
    requires
        T::obeys_partial_cmp_spec(),
        obeys_partial_cmp_spec_properties::<T>(),
        obeys_concrete_eq::<T>(),
        comparable(x, min),
        comparable(x, max),
        comparable(min, max),
        min.is_le(&max),
    ensures
        ({
            let r = clamp_spec(x, min, max);
            &&& min.is_le(&r)
            &&& r.is_le(&max)
            &&& (min.is_le(&x) && x.is_le(&max) ==> r == x)
            &&& (x.is_le(&min) ==> r == min)
            &&& (x.is_gt(&max) ==> r == max)
            &&& clamp_spec(r, min, max) == r
        }),
{
    reveal(obeys_partial_cmp_spec_properties);
    reveal(obeys_concrete_eq);
    assert(min.partial_cmp_spec(&min) == Some(core::cmp::Ordering::Equal));
    assert(max.partial_cmp_spec(&max) == Some(core::cmp::Ordering::Equal));
    assert(x.partial_cmp_spec(&x) == Some(core::cmp::Ordering::Equal));
}

} // verus!
