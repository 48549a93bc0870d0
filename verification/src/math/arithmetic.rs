//! The arithmetic that the library leaves to its caller.
//!
//! Sums, products, roots and the like round, and how they round is not for
//! this library to say. It asks an [`Arithmetic`] for them and states its
//! own results in terms of the answers: `sum(arith, a, b)` is what the
//! arithmetic answers when it is asked for `a + b`, and so on. Where
//! an arithmetic could answer one question in two ways, such a name stands
//! for one of the answers, and the contracts that use it speak of an
//! arithmetic that is [`functional`]: one that answers every question in
//! one way only.
use vstd::prelude::*;

verus! {

/// The arithmetic on numbers, as the caller does it.
pub trait Arithmetic<T> {
    /// The whole number `n`.
    fn number(&self, n: i32) -> T;

    /// The count `n` as a number.
    fn count(&self, n: usize) -> T;

    /// The sum `a + b`.
    fn plus(&self, a: T, b: T) -> T;

    /// The difference `a - b`.
    fn minus(&self, a: T, b: T) -> T;

    /// The product `a * b`.
    fn times(&self, a: T, b: T) -> T;

    /// The quotient `a / b`.
    fn over(&self, a: T, b: T) -> T;

    /// `a` with its sign changed.
    fn negate(&self, a: T) -> T;

    /// Whether `a` is zero.
    fn is_zero(&self, a: T) -> bool;

    /// The square root of `a`.
    fn sqrt(&self, a: T) -> T;

    /// The sine of `a`.
    fn sin(&self, a: T) -> T;

    /// The cosine of `a`.
    fn cos(&self, a: T) -> T;

    /// The tangent of `a`.
    fn tan(&self, a: T) -> T;

    /// `a` raised to the power `b`.
    fn powf(&self, a: T, b: T) -> T;

    /// The whole number nearest to `a`; of two that are as near, the one
    /// farther from zero.
    fn round(&self, a: T) -> T;

    /// `a` as a byte: cut down to a whole number, and held between 0 and
    /// 255.
    fn byte(&self, a: T) -> u8;

    /// The number that the text spells, if it spells one.
    fn parse(&self, text: &Vec<u8>) -> Option<T>;
}

/// The number of pairs that two lists make, paired off in order: the
/// length of the shorter.
pub open spec fn pairs<T>(left: Seq<T>, right: Seq<T>) -> int {
    if left.len() <= right.len() {
        left.len() as int
    } else {
        right.len() as int
    }
}

/// Whether `d` can be what the arithmetic answers for `a + b`.
pub open spec fn adds<T, A: Arithmetic<T>>(arith: &A, a: T, b: T, d: T) -> bool {
    call_ensures(A::plus, (arith, a, b), d)
}

/// Whether `d` can be the sum of the products of the first `n` pairs: the
/// whole number zero where there is no pair, the product of the first pair
/// where there is one, and else the sum of the first `n - 1` products, plus
/// the product of the `n`th pair.
pub open spec fn is_sum_of_products<T, A: Arithmetic<T>>(
    arith: &A,
    left: Seq<T>,
    right: Seq<T>,
    n: int,
    d: T,
) -> bool
    decreases n,
{
    if n <= 0 {
        call_ensures(A::number, (arith, 0i32), d)
    } else if n == 1 {
        call_ensures(A::times, (arith, left[0], right[0]), d)
    } else {
        exists|before: T, last: T|
            is_sum_of_products(arith, left, right, n - 1, before) && call_ensures(
                A::times,
                (arith, left[n - 1], right[n - 1]),
                last,
            ) && #[trigger] adds(arith, before, last, d)
    }
}

/// Whether `d` can be the sum of products of the two lists, paired off in
/// order and added up from the left.
pub open spec fn is_dot<T, A: Arithmetic<T>>(arith: &A, left: Seq<T>, right: Seq<T>, d: T) -> bool {
    is_sum_of_products(arith, left, right, pairs(left, right), d)
}

/// What the arithmetic answers for the whole number `n`.
pub open spec fn whole<T, A: Arithmetic<T>>(arith: &A, n: i32) -> T {
    choose|r: T| call_ensures(A::number, (arith, n), r)
}

/// What the arithmetic answers for the count `n`.
pub open spec fn counted<T, A: Arithmetic<T>>(arith: &A, n: usize) -> T {
    choose|r: T| call_ensures(A::count, (arith, n), r)
}

/// What the arithmetic answers for `a + b`.
pub open spec fn sum<T, A: Arithmetic<T>>(arith: &A, a: T, b: T) -> T {
    choose|r: T| call_ensures(A::plus, (arith, a, b), r)
}

/// What the arithmetic answers for `a - b`.
pub open spec fn difference<T, A: Arithmetic<T>>(arith: &A, a: T, b: T) -> T {
    choose|r: T| call_ensures(A::minus, (arith, a, b), r)
}

/// What the arithmetic answers for `a * b`.
pub open spec fn product<T, A: Arithmetic<T>>(arith: &A, a: T, b: T) -> T {
    choose|r: T| call_ensures(A::times, (arith, a, b), r)
}

/// What the arithmetic answers for `a / b`.
pub open spec fn quotient<T, A: Arithmetic<T>>(arith: &A, a: T, b: T) -> T {
    choose|r: T| call_ensures(A::over, (arith, a, b), r)
}

/// What the arithmetic answers for `a` with its sign changed.
pub open spec fn negative<T, A: Arithmetic<T>>(arith: &A, a: T) -> T {
    choose|r: T| call_ensures(A::negate, (arith, a), r)
}

/// What the arithmetic answers when asked whether `a` is zero.
pub open spec fn vanishes<T, A: Arithmetic<T>>(arith: &A, a: T) -> bool {
    choose|r: bool| call_ensures(A::is_zero, (arith, a), r)
}

/// What the arithmetic answers for the square root of `a`.
pub open spec fn root<T, A: Arithmetic<T>>(arith: &A, a: T) -> T {
    choose|r: T| call_ensures(A::sqrt, (arith, a), r)
}

/// What the arithmetic answers for the sine of `a`.
pub open spec fn sine<T, A: Arithmetic<T>>(arith: &A, a: T) -> T {
    choose|r: T| call_ensures(A::sin, (arith, a), r)
}

/// What the arithmetic answers for the cosine of `a`.
pub open spec fn cosine<T, A: Arithmetic<T>>(arith: &A, a: T) -> T {
    choose|r: T| call_ensures(A::cos, (arith, a), r)
}

/// What the arithmetic answers for the tangent of `a`.
pub open spec fn tangent<T, A: Arithmetic<T>>(arith: &A, a: T) -> T {
    choose|r: T| call_ensures(A::tan, (arith, a), r)
}

/// What the arithmetic answers for `a` to the power `b`.
pub open spec fn power<T, A: Arithmetic<T>>(arith: &A, a: T, b: T) -> T {
    choose|r: T| call_ensures(A::powf, (arith, a, b), r)
}

/// The sum of the products of the first `n` pairs, added up from the left.
pub open spec fn sum_of_products<T, A: Arithmetic<T>>(
    arith: &A,
    left: Seq<T>,
    right: Seq<T>,
    n: int,
) -> T
    decreases n,
{
    if n <= 0 {
        whole(arith, 0i32)
    } else if n == 1 {
        product(arith, left[0], right[0])
    } else {
        sum(
            arith,
            sum_of_products(arith, left, right, n - 1),
            product(arith, left[n - 1], right[n - 1]),
        )
    }
}

/// The sum of products of two lists, paired off in order.
pub open spec fn dot_of<T, A: Arithmetic<T>>(arith: &A, left: Seq<T>, right: Seq<T>) -> T {
    sum_of_products(arith, left, right, pairs(left, right))
}

/// What the arithmetic answers for the whole number nearest to `a`.
pub open spec fn rounded<T, A: Arithmetic<T>>(arith: &A, a: T) -> T {
    choose|r: T| call_ensures(A::round, (arith, a), r)
}

/// What the arithmetic answers for `a` as a byte.
pub open spec fn as_byte<T, A: Arithmetic<T>>(arith: &A, a: T) -> u8 {
    choose|r: u8| call_ensures(A::byte, (arith, a), r)
}

/// Whether `n` can be what the arithmetic reads out of the text.
pub open spec fn is_spelled<T, A: Arithmetic<T>>(arith: &A, text: Seq<u8>, n: Option<T>) -> bool {
    exists|t: Vec<u8>| t@ == text && #[trigger] call_ensures(A::parse, (arith, &t), n)
}

/// What the arithmetic reads out of the text.
pub open spec fn spelled<T, A: Arithmetic<T>>(arith: &A, text: Seq<u8>) -> Option<T> {
    choose|n: Option<T>| is_spelled(arith, text, n)
}

/// Whether the arithmetic answers every question in one way only: whatever
/// it answers is the answer.
pub open spec fn functional<T, A: Arithmetic<T>>(arith: &A) -> bool {
    &&& forall|n: i32, r: T| #[trigger] call_ensures(A::number, (arith, n), r) ==> r == whole(arith, n)
    &&& forall|n: usize, r: T| #[trigger]
        call_ensures(A::count, (arith, n), r) ==> r == counted(arith, n)
    &&& forall|a: T, b: T, r: T| #[trigger]
        call_ensures(A::plus, (arith, a, b), r) ==> r == sum(arith, a, b)
    &&& forall|a: T, b: T, r: T| #[trigger]
        call_ensures(A::minus, (arith, a, b), r) ==> r == difference(arith, a, b)
    &&& forall|a: T, b: T, r: T| #[trigger]
        call_ensures(A::times, (arith, a, b), r) ==> r == product(arith, a, b)
    &&& forall|a: T, b: T, r: T| #[trigger]
        call_ensures(A::over, (arith, a, b), r) ==> r == quotient(arith, a, b)
    &&& forall|a: T, r: T| #[trigger]
        call_ensures(A::negate, (arith, a), r) ==> r == negative(arith, a)
    &&& forall|a: T, r: bool| #[trigger]
        call_ensures(A::is_zero, (arith, a), r) ==> r == vanishes(arith, a)
    &&& forall|a: T, r: T| #[trigger] call_ensures(A::sqrt, (arith, a), r) ==> r == root(arith, a)
    &&& forall|a: T, r: T| #[trigger] call_ensures(A::sin, (arith, a), r) ==> r == sine(arith, a)
    &&& forall|a: T, r: T| #[trigger] call_ensures(A::cos, (arith, a), r) ==> r == cosine(arith, a)
    &&& forall|a: T, r: T| #[trigger] call_ensures(A::tan, (arith, a), r) ==> r == tangent(arith, a)
    &&& forall|a: T, b: T, r: T| #[trigger]
        call_ensures(A::powf, (arith, a, b), r) ==> r == power(arith, a, b)
    &&& forall|a: T, r: T| #[trigger]
        call_ensures(A::round, (arith, a), r) ==> r == rounded(arith, a)
    &&& forall|a: T, r: u8| #[trigger] call_ensures(A::byte, (arith, a), r) ==> r == as_byte(arith, a)
    &&& forall|t: Vec<u8>, n: Option<T>| #[trigger]
        call_ensures(A::parse, (arith, &t), n) ==> n == spelled(arith, t@)
}

/// Under an arithmetic that answers in one way only, a sum of products is
/// the sum of products.
pub proof fn lemma_sum_of_products<T, A: Arithmetic<T>>(
    arith: &A,
    left: Seq<T>,
    right: Seq<T>,
    n: int,
    d: T,
)
    requires
        functional(arith),
        is_sum_of_products(arith, left, right, n, d),
    ensures
        d == sum_of_products(arith, left, right, n),
    decreases n,
{
    if n >= 2 {
        let (before, last) = choose|before: T, last: T|
            is_sum_of_products(arith, left, right, n - 1, before) && call_ensures(
                A::times,
                (arith, left[n - 1], right[n - 1]),
                last,
            ) && #[trigger] adds(arith, before, last, d);
        lemma_sum_of_products(arith, left, right, n - 1, before);
    }
}

/// The sum of products of two lists, paired off in order and added up from
/// the left. A list that is longer than the other is cut to its length.
pub fn dot<T: Copy, A: Arithmetic<T>>(left: &Vec<T>, right: &Vec<T>, arith: &A) -> (d: T)
    ensures
        is_dot(arith, left@, right@, d),
        functional(arith) ==> d == dot_of(arith, left@, right@),
{
    let n = if left.len() <= right.len() {
        left.len()
    } else {
        right.len()
    };
    if n == 0 {
        let d = arith.number(0);
        proof {
            if functional(arith) {
                lemma_sum_of_products(arith, left@, right@, 0, d);
            }
        }
        return d;
    }
    let mut d = arith.times(left[0], right[0]);
    let mut i: usize = 1;
    while i < n
        invariant
            1 <= i <= n,
            n == pairs(left@, right@),
            is_sum_of_products(arith, left@, right@, i as int, d),
        decreases n - i,
    {
        let last = arith.times(left[i], right[i]);
        let ghost before = d;
        d = arith.plus(d, last);
        proof {
            assert(adds(arith, before, last, d));
        }
        i += 1;
    }
    proof {
        if functional(arith) {
            lemma_sum_of_products(arith, left@, right@, n as int, d);
        }
    }
    d
}

} // verus!
