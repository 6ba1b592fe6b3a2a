use vstd::prelude::*;

verus! {

/// The sum of two integers, which must fit in an `i32`.
pub fn add(a: i32, b: i32) -> (r: i32)
    requires
        i32::MIN <= a + b <= i32::MAX,
    ensures
        r == a + b,
{
    a + b
}

/// The sum of two integers, with an explicit `return`.
pub fn sum(a: i32, b: i32) -> (r: i32)
    requires
        i32::MIN <= a + b <= i32::MAX,
    ensures
        r == a + b,
{
    return a + b;
}

/// The sum of two integers, as the block's final expression.
pub fn implicit_return_sum(a: i32, b: i32) -> (r: i32)
    requires
        i32::MIN <= a + b <= i32::MAX,
    ensures
        r == a + b,
{
    a + b
}

/// The input plus one hundred.
pub fn plus_100(input: i32) -> (r: i32)
    requires
        input + 100 <= i32::MAX,
    ensures
        r == input + 100,
{
    input + 100
}

/// The difference of two integers, which must fit in an `i32`.
pub fn subtract(a: i32, b: i32) -> (r: i32)
    requires
        i32::MIN <= a - b <= i32::MAX,
    ensures
        r == a - b,
{
    a - b
}

/// The product of two integers, which must fit in an `i32`.
pub fn multiply(a: i32, b: i32) -> (r: i32)
    requires
        i32::MIN <= a * b <= i32::MAX,
    ensures
        r == a * b,
{
    a * b
}

/// The quotient of `a` by `b` rounded toward zero (as integer division in
/// Rust does).
pub open spec fn quotient(a: int, b: int) -> int {
    let n = if a >= 0 { a } else { -a };
    let d = if b >= 0 { b } else { -b };
    if (a >= 0) == (b > 0) {
        n / d
    } else {
        -(n / d)
    }
}

/// The remainder that goes with `quotient`: it has the sign of `a`.
pub open spec fn remainder(a: int, b: int) -> int {
    a - b * quotient(a, b)
}

/// The quotient of `a` by a non-zero `b`, rounded toward zero.
pub fn divide(a: i32, b: i32) -> (r: i32)
    requires
        b != 0,
        !(a == i32::MIN && b == -1),
    ensures
        r == quotient(a as int, b as int),
{
    let n: i64 = if a >= 0 { a as i64 } else { -(a as i64) };
    let d: i64 = if b >= 0 { b as i64 } else { -(b as i64) };
    let q: i64 = n / d;
    assert(0 <= q <= n) by (nonlinear_arith)
        requires
            n >= 0,
            d >= 1,
            q == n / d,
    ;
    assert(d >= 2 ==> 2 * q <= n) by (nonlinear_arith)
        requires
            n >= 0,
            d >= 1,
            q == n / d,
    ;
    assert(d == 1 ==> q == n) by (nonlinear_arith)
        requires
            n >= 0,
            q == n / d,
    ;
    if (a >= 0) == (b > 0) {
        q as i32
    } else {
        (-q) as i32
    }
}

/// The remainder of `a` by a non-zero `b`, with the sign of `a`.
pub fn modulo(a: i32, b: i32) -> (r: i32)
    requires
        b != 0,
        !(a == i32::MIN && b == -1),
    ensures
        r == remainder(a as int, b as int),
{
    let q = divide(a, b) as i64;
    let n: i64 = if a >= 0 { a as i64 } else { -(a as i64) };
    let d: i64 = if b >= 0 { b as i64 } else { -(b as i64) };
    assert(0 <= n - d * (n / d) < d) by (nonlinear_arith)
        requires
            n >= 0,
            d >= 1,
    ;
    assert(-d < a - b * q < d) by (nonlinear_arith)
        requires
            q == quotient(a as int, b as int),
            n == if a >= 0 { a as int } else { -a },
            d == if b >= 0 { b as int } else { -b },
            0 <= n - d * (n / d) < d,
    ;
    (a as i64 - b as i64 * q) as i32
}

/// Applies `f` to `a` and `b`.
pub fn cal<F: Fn(i32, i32) -> i32>(a: i32, b: i32, f: F) -> (r: i32)
    requires
        f.requires((a, b)),
    ensures
        f.ensures((a, b), r),
{
    f(a, b)
}

/// Adds one to the integer behind `n`.
pub fn mutate_number(n: &mut i32)
    requires
        *old(n) < i32::MAX,
    ensures
        *final(n) == *old(n) + 1,
{
    *n += 1;
}

/// Whether a score lies outside the accepted range `0..=100`.
pub open spec fn score_out_of_range(score: i32) -> bool {
    score > 100 || score < 0
}

/// The message given for a score outside `0..=100`.
pub open spec fn score_error() -> Seq<char> {
    "Score must be between 0 and 100"@
}

/// The grade given for every accepted score.
pub open spec fn grade_a() -> Seq<char> {
    "A"@
}

/// A grade, or the reason none could be given.
pub enum GradeResult {
    Value(String),
    Error(String),
}

/// Grades a score: an error for a score outside `0..=100`, else "A".
pub fn check_grade(score: i32) -> (r: GradeResult)
    ensures
        score_out_of_range(score) <==> r is Error,
        r matches GradeResult::Error(e) ==> e@ == score_error(),
        r matches GradeResult::Value(g) ==> g@ == grade_a(),
{
    proof {
        reveal_strlit("Score must be between 0 and 100");
        reveal_strlit("A");
    }
    if score > 100 || score < 0 {
        return GradeResult::Error("Score must be between 0 and 100".to_owned());
    }
    GradeResult::Value("A".to_owned())
}

/// Grades a score: `None` for a score outside `0..=100`, else "A".
pub fn check_grade2(score: i32) -> (r: Option<String>)
    ensures
        score_out_of_range(score) <==> r is None,
        r matches Some(g) ==> g@ == grade_a(),
{
    proof {
        reveal_strlit("A");
    }
    if score > 100 || score < 0 {
        return None;
    }
    Some("A".to_owned())
}

/// Grades a score: an error for a score outside `0..=100`, else "A".
pub fn check_grade3(score: i32) -> (r: Result<String, String>)
    ensures
        score_out_of_range(score) <==> r is Err,
        r matches Err(e) ==> e@ == score_error(),
        r matches Ok(g) ==> g@ == grade_a(),
{
    proof {
        reveal_strlit("Score must be between 0 and 100");
        reveal_strlit("A");
    }
    if score > 100 || score < 0 {
        return Err("Score must be between 0 and 100".to_owned());
    }
    return Ok("A".to_owned());
}

/// The value of the `n`-th Fibonacci number.
pub open spec fn fib(n: nat) -> nat
    decreases n,
{
    if n == 0 {
        0
    } else if n == 1 {
        1
    } else {
        fib((n - 1) as nat) + fib((n - 2) as nat)
    }
}

/// Fibonacci numbers never decrease.
pub proof fn lemma_fib_monotonic(i: nat, j: nat)
    requires
        i <= j,
    ensures
        fib(i) <= fib(j),
    decreases j,
{
    if i < j {
        if j >= 2 {
            lemma_fib_monotonic(i, (j - 1) as nat);
        }
    }
}

/// The `n`-th Fibonacci number, computed bottom-up.
pub fn fibonacci(n: u128) -> (r: u128)
    requires
        fib(n as nat) <= u128::MAX,
    ensures
        r == fib(n as nat),
{
    if n == 0 {
        return 0;
    }
    if n == 1 {
        return 1;
    }
    let mut prev: u128 = 0;
    let mut cur: u128 = 1;
    let mut i: u128 = 1;
    while i < n
        invariant
            1 <= i <= n,
            prev == fib((i - 1) as nat),
            cur == fib(i as nat),
            fib(n as nat) <= u128::MAX,
        decreases n - i,
    {
        proof {
            lemma_fib_monotonic((i + 1) as nat, n as nat);
        }
        let next = prev + cur;
        prev = cur;
        cur = next;
        i = i + 1;
    }
    cur
}

} // verus!
