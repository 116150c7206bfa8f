//! The conversion framework: one generic mechanism that lets a target
//! field type request its value from an opaque [`Parameter`] without the
//! caller inspecting tags.
//!
//! Each target type implements [`FromParameter`]; the rules compose, so a
//! "list of entity references" goes through the same mechanism as a plain
//! integer, with no per-field bespoke code.

use crate::structure::{EntityRef, Parameter, StepReal, UnTypedParameter, MAX_SCALE};
use vstd::arithmetic::div_mod::{lemma_div_is_ordered, lemma_div_is_ordered_by_denominator};
use vstd::prelude::*;

verus! {

/// A mismatch between a parameter's runtime shape and the type a
/// schema-generated accessor expects: an unrecoverable condition that
/// aborts the whole read, since it signals a corrupt file or a defect in
/// generated code that is not locally fixable.
#[derive(Clone, Copy, Debug, PartialEq, Eq, Structural)]
pub struct ConversionError;

/// Ten to the `n`-th power.
pub open spec fn pow10(n: nat) -> nat
    decreases n,
{
    if n == 0 {
        1
    } else {
        10 * pow10((n - 1) as nat)
    }
}

proof fn lemma_pow10_monotone(a: nat, b: nat)
    requires
        a <= b,
    ensures
        1 <= pow10(a) <= pow10(b),
    decreases b,
{
    if b == 0 {
    } else if a == b {
        lemma_pow10_monotone(0, (b - 1) as nat);
    } else {
        lemma_pow10_monotone(a, (b - 1) as nat);
    }
}

proof fn lemma_pow10_small(n: nat)
    requires
        n <= MAX_SCALE,
    ensures
        1 <= pow10(n) <= 1_000_000_000_000_000_000,
        1 <= n ==> 10 <= pow10(n),
{
    lemma_pow10_monotone(n, 18);
    assert(pow10(18) == 1_000_000_000_000_000_000) by {
        reveal_with_fuel(pow10, 19);
    }
    if 1 <= n {
        lemma_pow10_monotone(1, n);
        assert(pow10(1) == 10) by {
            reveal_with_fuel(pow10, 2);
        }
    }
}

/// The absolute value of a mathematical integer.
pub open spec fn abs_val(m: int) -> int {
    if m >= 0 {
        m
    } else {
        -m
    }
}

/// The integer nearest to `m / 10^s`, ties rounded away from zero.
///
/// This is the crate's one fixed rule for narrowing a real parameter to
/// an integer field.
pub open spec fn round_decimal(m: int, s: nat) -> int {
    let d = pow10(s) as int;
    let q = abs_val(m) / d;
    let r = abs_val(m) % d;
    let up = if 2 * r >= d {
        q + 1
    } else {
        q
    };
    if m >= 0 {
        up
    } else {
        -up
    }
}

fn pow10_u64(n: u32) -> (d: u64)
    requires
        n <= MAX_SCALE,
    ensures
        d == pow10(n as nat),
{
    let mut d: u64 = 1;
    let mut i: u32 = 0;
    while i < n
        invariant
            i <= n <= MAX_SCALE,
            d == pow10(i as nat),
        decreases n - i,
    {
        proof {
            lemma_pow10_small(i as nat);
        }
        d = d * 10;
        i = i + 1;
    }
    d
}

/// Round a real parameter's value to the nearest integer, ties away from
/// zero: the documented narrowing rule for integer fields.
pub fn round_to_i64(value: StepReal) -> (i: i64)
    ensures
        i == round_decimal(value.mantissa_val(), value.scale_val()),
{
    proof {
        use_type_invariant(&value);
    }
    let m: i64 = value.mantissa();
    let s: u32 = value.scale();
    if s == 0 {
        return m;
    }
    let d: u64 = pow10_u64(s);
    proof {
        lemma_pow10_small(s as nat);
    }
    let a: u64 = if m >= 0 {
        m as u64
    } else {
        ((-(m + 1)) as u64) + 1
    };
    assert(a == abs_val(m as int));
    let q: u64 = a / d;
    let r: u64 = a % d;
    proof {
        lemma_div_is_ordered_by_denominator(a as int, 10, d as int);
        lemma_div_is_ordered(a as int, 0x8000_0000_0000_0000, 10);
    }
    let up: u64 = if r >= d - r {
        q + 1
    } else {
        q
    };
    if m >= 0 {
        up as i64
    } else {
        -(up as i64)
    }
}

/// The uniform conversion rules: a target type's way of requesting its
/// value from an opaque parameter.
///
/// `convertible` says exactly which parameters the rule accepts, and
/// `converts_to` pins the produced value down; `from_parameter` returns
/// `Ok` precisely on the accepted parameters and [`ConversionError`] on
/// every other, so a caller can choose between aborting the read and
/// recovering.
pub trait FromParameter: Sized {
    /// The parameters this type's rule accepts.
    spec fn convertible(p: Parameter) -> bool;

    /// The value the rule produces for `p`, as a relation that pins the
    /// result down to its mathematical view.
    spec fn converts_to(p: Parameter, v: Self) -> bool;

    fn from_parameter(p: Parameter) -> (r: Result<Self, ConversionError>)
        ensures
            (r is Ok) == Self::convertible(p),
            r matches Ok(v) ==> Self::converts_to(p, v),
        decreases p,
    ;
}

/// Boolean rule: the enumeration literals `.T.` and `.F.`; everything
/// else fails.
impl FromParameter for bool {
    open spec fn convertible(p: Parameter) -> bool {
        match p {
            Parameter::UnTypedParameter(UnTypedParameter::EnumValue(s)) => s@ == "T"@ || s@
                == "F"@,
            _ => false,
        }
    }

    open spec fn converts_to(p: Parameter, v: bool) -> bool {
        match p {
            Parameter::UnTypedParameter(UnTypedParameter::EnumValue(s)) => v == (s@ == "T"@),
            _ => false,
        }
    }

    fn from_parameter(p: Parameter) -> (r: Result<bool, ConversionError>) {
        match p {
            Parameter::UnTypedParameter(UnTypedParameter::EnumValue(s)) => {
                if s == "T".to_owned() {
                    Ok(true)
                } else if s == "F".to_owned() {
                    Ok(false)
                } else {
                    Err(ConversionError)
                }
            },
            _ => Err(ConversionError),
        }
    }
}

/// Optional-boolean rule: `.U.` and an omitted position mean "absent";
/// `.T.` and `.F.` are present values. Omission is handled here, at the
/// parameter level, which distinguishes this rule from the plain boolean
/// one. An explicit null still fails.
impl FromParameter for Option<bool> {
    open spec fn convertible(p: Parameter) -> bool {
        match p {
            Parameter::UnTypedParameter(UnTypedParameter::EnumValue(s)) => s@ == "T"@ || s@ == "F"@
                || s@ == "U"@,
            Parameter::OmittedParameter => true,
            _ => false,
        }
    }

    open spec fn converts_to(p: Parameter, v: Option<bool>) -> bool {
        match p {
            Parameter::UnTypedParameter(UnTypedParameter::EnumValue(s)) => if s@ == "U"@ {
                v is None
            } else {
                v matches Some(b) && b == (s@ == "T"@)
            },
            Parameter::OmittedParameter => v is None,
            _ => false,
        }
    }

    fn from_parameter(p: Parameter) -> (r: Result<Option<bool>, ConversionError>) {
        match p {
            Parameter::UnTypedParameter(UnTypedParameter::EnumValue(s)) => {
                if s == "U".to_owned() {
                    Ok(None)
                } else if s == "T".to_owned() {
                    Ok(Some(true))
                } else if s == "F".to_owned() {
                    Ok(Some(false))
                } else {
                    Err(ConversionError)
                }
            },
            Parameter::OmittedParameter => Ok(None),
            _ => Err(ConversionError),
        }
    }
}

/// Integer rule: an integer passes through, a real rounds under
/// [`round_decimal`], and null or omitted positions become 0.
impl FromParameter for i64 {
    open spec fn convertible(p: Parameter) -> bool {
        match p {
            Parameter::UnTypedParameter(u) => match u {
                UnTypedParameter::Integer(_) => true,
                UnTypedParameter::Real(_) => true,
                UnTypedParameter::Null => true,
                _ => false,
            },
            Parameter::OmittedParameter => true,
            _ => false,
        }
    }

    open spec fn converts_to(p: Parameter, v: i64) -> bool {
        match p {
            Parameter::UnTypedParameter(u) => match u {
                UnTypedParameter::Integer(n) => v == n,
                UnTypedParameter::Real(x) => v == round_decimal(x.mantissa_val(), x.scale_val()),
                UnTypedParameter::Null => v == 0,
                _ => false,
            },
            Parameter::OmittedParameter => v == 0,
            _ => false,
        }
    }

    fn from_parameter(p: Parameter) -> (r: Result<i64, ConversionError>) {
        match p {
            Parameter::UnTypedParameter(u) => match u {
                UnTypedParameter::Integer(n) => Ok(n),
                UnTypedParameter::Real(x) => Ok(round_to_i64(x)),
                UnTypedParameter::Null => Ok(0),
                _ => Err(ConversionError),
            },
            Parameter::OmittedParameter => Ok(0),
            _ => Err(ConversionError),
        }
    }
}

/// Real rule: only a real parameter passes through; everything else,
/// including null and omission, fails.
impl FromParameter for StepReal {
    open spec fn convertible(p: Parameter) -> bool {
        match p {
            Parameter::UnTypedParameter(UnTypedParameter::Real(_)) => true,
            _ => false,
        }
    }

    open spec fn converts_to(p: Parameter, v: StepReal) -> bool {
        match p {
            Parameter::UnTypedParameter(UnTypedParameter::Real(x)) => v == x,
            _ => false,
        }
    }

    fn from_parameter(p: Parameter) -> (r: Result<StepReal, ConversionError>) {
        match p {
            Parameter::UnTypedParameter(UnTypedParameter::Real(x)) => Ok(x),
            _ => Err(ConversionError),
        }
    }
}

/// Text rule: a string passes through; null and omitted positions become
/// the empty string.
impl FromParameter for String {
    open spec fn convertible(p: Parameter) -> bool {
        match p {
            Parameter::UnTypedParameter(u) => match u {
                UnTypedParameter::String(_) => true,
                UnTypedParameter::Null => true,
                _ => false,
            },
            Parameter::OmittedParameter => true,
            _ => false,
        }
    }

    open spec fn converts_to(p: Parameter, v: String) -> bool {
        match p {
            Parameter::UnTypedParameter(u) => match u {
                UnTypedParameter::String(s) => v@ == s@,
                UnTypedParameter::Null => v@ == Seq::<char>::empty(),
                _ => false,
            },
            Parameter::OmittedParameter => v@ == Seq::<char>::empty(),
            _ => false,
        }
    }

    fn from_parameter(p: Parameter) -> (r: Result<String, ConversionError>) {
        match p {
            Parameter::UnTypedParameter(u) => match u {
                UnTypedParameter::String(s) => Ok(s),
                UnTypedParameter::Null => Ok(String::new()),
                _ => Err(ConversionError),
            },
            Parameter::OmittedParameter => Ok(String::new()),
            _ => Err(ConversionError),
        }
    }
}

/// Entity-reference rule: a `#N` token becomes a reference carrying `N`;
/// null and omitted positions become the id-0 "no reference" sentinel.
impl<T> FromParameter for EntityRef<T> {
    open spec fn convertible(p: Parameter) -> bool {
        match p {
            Parameter::UnTypedParameter(u) => match u {
                UnTypedParameter::EntityRef(_) => true,
                UnTypedParameter::Null => true,
                _ => false,
            },
            Parameter::OmittedParameter => true,
            _ => false,
        }
    }

    open spec fn converts_to(p: Parameter, v: EntityRef<T>) -> bool {
        match p {
            Parameter::UnTypedParameter(u) => match u {
                UnTypedParameter::EntityRef(id) => v.raw_id() == id,
                UnTypedParameter::Null => v.raw_id() == 0,
                _ => false,
            },
            Parameter::OmittedParameter => v.raw_id() == 0,
            _ => false,
        }
    }

    fn from_parameter(p: Parameter) -> (r: Result<EntityRef<T>, ConversionError>) {
        match p {
            Parameter::UnTypedParameter(u) => match u {
                UnTypedParameter::EntityRef(id) => Ok(EntityRef::new(id)),
                UnTypedParameter::Null => Ok(EntityRef::new(0)),
                _ => Err(ConversionError),
            },
            Parameter::OmittedParameter => Ok(EntityRef::new(0)),
            _ => Err(ConversionError),
        }
    }
}

/// Element-wise conversion of an aggregate parameter's contents: what
/// both the ordered-sequence rule and the set rule read from the source.
pub open spec fn converts_to_elements<T: FromParameter>(p: Parameter, w: Seq<T>) -> bool {
    match p {
        Parameter::UnTypedParameter(UnTypedParameter::List(list)) => w.len() == list@.len()
            && forall|i: int| 0 <= i < list@.len() ==> T::converts_to(#[trigger] list@[i], w[i]),
        Parameter::OmittedParameter => w.len() == 0,
        _ => false,
    }
}

/// Ordered-sequence rule: a list converts every element to `T` in order;
/// an omitted position becomes the empty sequence; everything else,
/// including null, fails.
impl<T: FromParameter> FromParameter for Vec<T> {
    open spec fn convertible(p: Parameter) -> bool {
        match p {
            Parameter::UnTypedParameter(UnTypedParameter::List(list)) => forall|i: int|
                0 <= i < list@.len() ==> T::convertible(#[trigger] list@[i]),
            Parameter::OmittedParameter => true,
            _ => false,
        }
    }

    open spec fn converts_to(p: Parameter, v: Vec<T>) -> bool {
        converts_to_elements(p, v@)
    }

    #[verifier::loop_isolation(false)]
    fn from_parameter(p: Parameter) -> (r: Result<Vec<T>, ConversionError>) {
        let ghost gp: Parameter = p;
        match p {
            Parameter::UnTypedParameter(UnTypedParameter::List(mut list)) => {
                let ghost glist: Seq<Parameter> = list@;
                let mut out: Vec<T> = Vec::new();
                while list.len() > 0
                    invariant
                        out@.len() + list@.len() == glist.len(),
                        list@ == glist.skip(out@.len() as int),
                        forall|i: int|
                            0 <= i < out@.len() ==> T::convertible(#[trigger] glist[i]),
                        forall|i: int|
                            0 <= i < out@.len() ==> T::converts_to(#[trigger] glist[i], out@[i]),
                    decreases list@.len(),
                {
                    let item = list.remove(0);
                    proof {
                        assert(item == glist[out@.len() as int]);
                        assert(decreases_to!(gp => item));
                    }
                    match T::from_parameter(item) {
                        Ok(v) => out.push(v),
                        Err(e) => {
                            proof {
                                assert(!T::convertible(glist[out@.len() as int]));
                            }
                            return Err(e);
                        },
                    }
                }
                Ok(out)
            },
            Parameter::OmittedParameter => Ok(Vec::new()),
            _ => Err(ConversionError),
        }
    }
}

/// Value equality of converted values: the set rule's notion of a
/// duplicate. The executable comparison must decide exactly the
/// mathematical relation `veq`.
pub trait ValueEq: Sized {
    /// The mathematical equality the executable comparison decides.
    spec fn veq(a: Self, b: Self) -> bool;

    /// Every value is a duplicate of itself.
    proof fn veq_reflexive(a: Self)
        ensures
            Self::veq(a, a),
    ;

    fn value_eq(&self, other: &Self) -> (b: bool)
        ensures
            b == Self::veq(*self, *other),
    ;
}

impl ValueEq for i64 {
    open spec fn veq(a: i64, b: i64) -> bool {
        a == b
    }

    proof fn veq_reflexive(a: i64) {
    }

    fn value_eq(&self, other: &Self) -> (b: bool) {
        *self == *other
    }
}

impl ValueEq for bool {
    open spec fn veq(a: bool, b: bool) -> bool {
        a == b
    }

    proof fn veq_reflexive(a: bool) {
    }

    fn value_eq(&self, other: &Self) -> (b: bool) {
        *self == *other
    }
}

impl ValueEq for String {
    open spec fn veq(a: String, b: String) -> bool {
        a@ == b@
    }

    proof fn veq_reflexive(a: String) {
    }

    fn value_eq(&self, other: &Self) -> (b: bool) {
        *self == *other
    }
}

impl<T> ValueEq for EntityRef<T> {
    open spec fn veq(a: EntityRef<T>, b: EntityRef<T>) -> bool {
        a.raw_id() == b.raw_id()
    }

    proof fn veq_reflexive(a: EntityRef<T>) {
    }

    fn value_eq(&self, other: &Self) -> (b: bool) {
        self.inner() == other.inner()
    }
}

/// Whether some element of `s` is a duplicate of `x`.
pub open spec fn contains_veq<T: ValueEq>(s: Seq<T>, x: T) -> bool {
    exists|i: int| 0 <= i < s.len() && T::veq(s[i], x)
}

/// `s` with duplicates collapsed: an element survives only if nothing
/// kept before it is a duplicate of it, so first occurrences survive, in
/// their original order.
pub open spec fn dedup_first<T: ValueEq>(s: Seq<T>) -> Seq<T>
    decreases s.len(),
{
    if s.len() == 0 {
        Seq::empty()
    } else {
        let rest = dedup_first(s.drop_last());
        if contains_veq(rest, s.last()) {
            rest
        } else {
            rest.push(s.last())
        }
    }
}

fn contains_value<T: ValueEq>(items: &Vec<T>, x: &T) -> (b: bool)
    ensures
        b == contains_veq(items@, *x),
{
    let mut j: usize = 0;
    while j < items.len()
        invariant
            j <= items@.len(),
            forall|k: int| 0 <= k < j ==> !T::veq(items@[k], *x),
        decreases items@.len() - j,
    {
        if items[j].value_eq(x) {
            return true;
        }
        j = j + 1;
    }
    false
}

/// Collapse duplicates, keeping each veq-class's first occurrence, in
/// order.
#[verifier::loop_isolation(false)]
pub fn collapse_duplicates<T: ValueEq>(items: Vec<T>) -> (r: Vec<T>)
    ensures
        r@ == dedup_first(items@),
{
    let ghost gitems: Seq<T> = items@;
    let mut rest = items;
    let mut out: Vec<T> = Vec::new();
    let mut i: usize = 0;
    proof {
        assert(rest.len() <= usize::MAX);
        assert(gitems.skip(0) =~= gitems);
    }
    while rest.len() > 0
        invariant
            i + rest@.len() == gitems.len(),
            gitems.len() <= usize::MAX,
            rest@ == gitems.skip(i as int),
            out@ == dedup_first(gitems.take(i as int)),
        decreases rest@.len(),
    {
        let x = rest.remove(0);
        proof {
            assert(x == gitems[i as int]);
            assert(gitems.take(i as int + 1).drop_last() =~= gitems.take(i as int));
            assert(gitems.take(i as int + 1).last() == gitems[i as int]);
        }
        if !contains_value(&out, &x) {
            out.push(x);
        }
        i = i + 1;
    }
    proof {
        assert(gitems.take(i as int) =~= gitems);
    }
    out
}

/// Set rule: the same source as the ordered-sequence rule — a list whose
/// every element converts to `T`, or an omitted position for the empty
/// set — with duplicates collapsed, first occurrences kept in order.
pub fn from_parameter_set<T: FromParameter + ValueEq>(p: Parameter) -> (r: Result<
    Vec<T>,
    ConversionError,
>)
    ensures
        (r is Ok) == <Vec<T> as FromParameter>::convertible(p),
        r matches Ok(v) ==> exists|w: Seq<T>|
            #[trigger] converts_to_elements::<T>(p, w) && v@ == dedup_first(w),
{
    let ghost gp: Parameter = p;
    match <Vec<T> as FromParameter>::from_parameter(p) {
        Ok(elements) => {
            let ghost w: Seq<T> = elements@;
            let collapsed = collapse_duplicates(elements);
            proof {
                assert(converts_to_elements::<T>(gp, w) && collapsed@ == dedup_first(w));
            }
            Ok(collapsed)
        },
        Err(e) => Err(e),
    }
}

/// Law: collapsing leaves no two duplicates — distinct surviving
/// positions are never veq-equal.
pub proof fn lemma_dedup_first_distinct<T: ValueEq>(s: Seq<T>)
    ensures
        forall|j1: int, j2: int|
            0 <= j1 < j2 < dedup_first(s).len() ==> !T::veq(
                #[trigger] dedup_first(s)[j1],
                #[trigger] dedup_first(s)[j2],
            ),
    decreases s.len(),
{
    if s.len() > 0 {
        lemma_dedup_first_distinct::<T>(s.drop_last());
        let rest = dedup_first(s.drop_last());
        let d = dedup_first(s);
        let x = s.last();
        assert forall|j1: int, j2: int| 0 <= j1 < j2 < d.len() implies !T::veq(
            d[j1],
            d[j2],
        ) by {
            if contains_veq(rest, x) {
                assert(!T::veq(rest[j1], rest[j2]));
            } else if j2 == rest.len() {
                assert(!T::veq(rest[j1], x));
            } else {
                assert(!T::veq(rest[j1], rest[j2]));
            }
        }
    }
}

/// Law: collapsing loses no value — every element of the source has a
/// duplicate among the survivors.
pub proof fn lemma_dedup_first_covers<T: ValueEq>(s: Seq<T>)
    ensures
        forall|i: int| 0 <= i < s.len() ==> contains_veq(dedup_first(s), #[trigger] s[i]),
    decreases s.len(),
{
    if s.len() > 0 {
        lemma_dedup_first_covers::<T>(s.drop_last());
        let rest = dedup_first(s.drop_last());
        let d = dedup_first(s);
        let x = s.last();
        assert forall|i: int| 0 <= i < s.len() implies contains_veq(d, s[i]) by {
            if i == s.len() - 1 {
                if contains_veq(rest, x) {
                    let k = choose|k: int| 0 <= k < rest.len() && T::veq(rest[k], x);
                    assert(0 <= k < d.len() && T::veq(d[k], s[i]));
                } else {
                    T::veq_reflexive(x);
                    assert(d[rest.len() as int] == x);
                    assert(T::veq(d[rest.len() as int], s[i]));
                }
            } else {
                assert(s.drop_last()[i] == s[i]);
                assert(contains_veq(rest, s[i]));
                let k = choose|k: int| 0 <= k < rest.len() && T::veq(rest[k], s[i]);
                assert(0 <= k < d.len() && T::veq(d[k], s[i]));
            }
        }
    }
}

/// Law: collapsing invents no value — every survivor is an element of
/// the source.
pub proof fn lemma_dedup_first_from_source<T: ValueEq>(s: Seq<T>)
    ensures
        forall|j: int|
            0 <= j < dedup_first(s).len() ==> s.contains(#[trigger] dedup_first(s)[j]),
    decreases s.len(),
{
    if s.len() > 0 {
        lemma_dedup_first_from_source::<T>(s.drop_last());
        let rest = dedup_first(s.drop_last());
        let d = dedup_first(s);
        assert forall|j: int| 0 <= j < d.len() implies s.contains(d[j]) by {
            if j < rest.len() {
                let k = choose|k: int| 0 <= k < s.drop_last().len() && s.drop_last()[k] == rest[j];
                assert(s[k] == rest[j]);
            } else {
                assert(d[j] == s.last());
                assert(s[s.len() - 1] == s.last());
            }
        }
    }
}

/// Law: converting a list of integer parameters to an ordered sequence
/// succeeds and yields exactly those integers, in their original order.
pub proof fn lemma_integer_list_order_preserved(ns: Seq<i64>, p: Parameter)
    requires
        p matches Parameter::UnTypedParameter(UnTypedParameter::List(list)) && list@.len()
            == ns.len() && forall|i: int|
            0 <= i < ns.len() ==> #[trigger] list@[i] == Parameter::UnTypedParameter(
                UnTypedParameter::Integer(ns[i]),
            ),
    ensures
        <Vec<i64> as FromParameter>::convertible(p),
        forall|w: Seq<i64>| #[trigger] converts_to_elements::<i64>(p, w) ==> w == ns,
{
    match p {
        Parameter::UnTypedParameter(UnTypedParameter::List(list)) => {
            assert forall|w: Seq<i64>| #[trigger]
                converts_to_elements::<i64>(p, w) implies w == ns by {
                assert forall|i: int| 0 <= i < ns.len() implies w[i] == ns[i] by {
                    assert(list@[i] == Parameter::UnTypedParameter(
                        UnTypedParameter::Integer(ns[i]),
                    ));
                    assert(<i64 as FromParameter>::converts_to(list@[i], w[i]));
                }
                assert(w =~= ns);
            }
        },
        _ => {},
    }
}

/// Law: converting that same list of integer parameters to a "set of
/// integer" collapses duplicates — the result is the source integers with
/// later repetitions dropped: pairwise distinct, covering every source
/// integer, inventing none.
pub proof fn lemma_integer_set_collapses_duplicates(ns: Seq<i64>, p: Parameter, v: Seq<i64>)
    requires
        p matches Parameter::UnTypedParameter(UnTypedParameter::List(list)) && list@.len()
            == ns.len() && forall|i: int|
            0 <= i < ns.len() ==> #[trigger] list@[i] == Parameter::UnTypedParameter(
                UnTypedParameter::Integer(ns[i]),
            ),
        exists|w: Seq<i64>| #[trigger] converts_to_elements::<i64>(p, w) && v == dedup_first(w),
    ensures
        v == dedup_first(ns),
        forall|j1: int, j2: int| 0 <= j1 < j2 < v.len() ==> v[j1] != v[j2],
        forall|i: int| 0 <= i < ns.len() ==> v.contains(#[trigger] ns[i]),
        forall|j: int| 0 <= j < v.len() ==> ns.contains(#[trigger] v[j]),
{
    lemma_integer_list_order_preserved(ns, p);
    let w = choose|w: Seq<i64>| #[trigger] converts_to_elements::<i64>(p, w) && v == dedup_first(
        w,
    );
    assert(w == ns);
    lemma_dedup_first_distinct::<i64>(ns);
    lemma_dedup_first_covers::<i64>(ns);
    lemma_dedup_first_from_source::<i64>(ns);
    assert forall|i: int| 0 <= i < ns.len() implies v.contains(ns[i]) by {
        assert(contains_veq(dedup_first(ns), ns[i]));
        let k = choose|k: int|
            0 <= k < dedup_first(ns).len() && <i64 as ValueEq>::veq(dedup_first(ns)[k], ns[i]);
        assert(v[k] == ns[i]);
    }
}

} // verus!
