use vstd::prelude::*;
use vstd::string::StringSliceAdditionalSpecFns;

verus! {

/// Why evaluating a line stopped.
#[derive(Debug, Clone, Copy, PartialEq, Eq, Structural)]
pub enum CalcError {
    /// An operator found fewer than two values on the stack.
    StackUnderflow,
    /// A division by zero.
    DivisionByZero,
    /// A result outside the range of `i32`.
    Overflow,
    /// A token that is neither an operator nor an integer.
    InvalidToken,
}

/// The four binary operators.
#[derive(Debug, Clone, Copy, PartialEq, Eq, Structural)]
pub enum Op {
    Add,
    Subtract,
    Multiply,
    Divide,
}

pub open spec fn abs(a: int) -> int {
    if a < 0 { -a } else { a }
}

/// Integer division rounding toward zero.
pub open spec fn trunc_div(a: int, b: int) -> int {
    let q = abs(a) / abs(b);
    if (a < 0) != (b < 0) { -q } else { q }
}

/// `a op b`, where `b` is the value on top of the stack and `a` the one below;
/// none for a division by zero.
pub open spec fn op_value(op: Op, a: int, b: int) -> Option<int> {
    match op {
        Op::Add => Some(a + b),
        Op::Subtract => Some(a - b),
        Op::Multiply => Some(a * b),
        Op::Divide => if b == 0 { None } else { Some(trunc_div(a, b)) },
    }
}

/// Applying an operator to a stack whose top is its last element.
pub open spec fn binary_step(s: Seq<i32>, op: Op) -> Result<Seq<i32>, CalcError> {
    if s.len() < 2 {
        Err(CalcError::StackUnderflow)
    } else {
        match op_value(op, s[s.len() - 2] as int, s.last() as int) {
            None => Err(CalcError::DivisionByZero),
            Some(v) => if i32::MIN <= v <= i32::MAX {
                Ok(s.drop_last().drop_last().push(v as i32))
            } else {
                Err(CalcError::Overflow)
            },
        }
    }
}

/// The stack after `op`, as `binary_step` gives it: on an error it is unchanged.
pub open spec fn op_done(old_s: Seq<i32>, new_s: Seq<i32>, op: Op, r: Result<(), CalcError>) -> bool {
    match r {
        Ok(_) => binary_step(old_s, op) == Ok::<Seq<i32>, CalcError>(new_s),
        Err(e) => binary_step(old_s, op) == Err::<Seq<i32>, CalcError>(e) && new_s == old_s,
    }
}

fn apply_op(stack: &mut Vec<i32>, op: Op) -> (r: Result<(), CalcError>)
    ensures
        op_done(old(stack)@, final(stack)@, op, r),
{
    let n = stack.len();
    if n < 2 {
        return Err(CalcError::StackUnderflow);
    }
    let b = stack[n - 1] as i64;
    let a = stack[n - 2] as i64;
    let v: i64 = match op {
        Op::Add => a + b,
        Op::Subtract => a - b,
        Op::Multiply => {
            assert(-0x8000_0000 * 0x8000_0000 <= a * b <= 0x8000_0000 * 0x8000_0000) by (nonlinear_arith)
                requires
                    -0x8000_0000 <= a <= 0x7fff_ffff,
                    -0x8000_0000 <= b <= 0x7fff_ffff,
            ;
            a * b
        },
        Op::Divide => {
            if b == 0 {
                return Err(CalcError::DivisionByZero);
            }
            let qa: i64 = if a < 0 { -a } else { a };
            let qb: i64 = if b < 0 { -b } else { b };
            assert(qa / qb <= qa) by (nonlinear_arith)
                requires
                    qa >= 0,
                    qb >= 1,
            ;
            let q = qa / qb;
            if (a < 0) != (b < 0) { -q } else { q }
        },
    };
    if v < i32::MIN as i64 || v > i32::MAX as i64 {
        return Err(CalcError::Overflow);
    }
    stack.pop();
    stack.pop();
    stack.push(v as i32);
    Ok(())
}

/// Replaces the two top values by their sum.
pub fn add(stack: &mut Vec<i32>) -> (r: Result<(), CalcError>)
    ensures
        op_done(old(stack)@, final(stack)@, Op::Add, r),
{
    apply_op(stack, Op::Add)
}

/// Replaces the two top values by the lower one minus the top one.
pub fn subtract(stack: &mut Vec<i32>) -> (r: Result<(), CalcError>)
    ensures
        op_done(old(stack)@, final(stack)@, Op::Subtract, r),
{
    apply_op(stack, Op::Subtract)
}

/// Replaces the two top values by their product.
pub fn multiply(stack: &mut Vec<i32>) -> (r: Result<(), CalcError>)
    ensures
        op_done(old(stack)@, final(stack)@, Op::Multiply, r),
{
    apply_op(stack, Op::Multiply)
}

/// Replaces the two top values by the lower one divided by the top one,
/// rounded toward zero.
pub fn divide(stack: &mut Vec<i32>) -> (r: Result<(), CalcError>)
    ensures
        op_done(old(stack)@, final(stack)@, Op::Divide, r),
{
    apply_op(stack, Op::Divide)
}

/// The bytes that separate tokens: ASCII whitespace.
pub open spec fn is_space(c: u8) -> bool {
    c == 32 || (9 <= c <= 13)
}

pub open spec fn is_digit(c: u8) -> bool {
    48 <= c <= 57
}

pub open spec fn all_digits(s: Seq<u8>) -> bool {
    forall|i: int| 0 <= i < s.len() ==> is_digit(#[trigger] s[i])
}

/// The value of a string of decimal digits.
pub open spec fn digits_value(s: Seq<u8>) -> int
    decreases s.len(),
{
    if s.len() == 0 {
        0
    } else {
        digits_value(s.drop_last()) * 10 + (s.last() - 48)
    }
}

/// The `i32` that one or more digits spell, negated where `neg` holds.
pub open spec fn int_of(body: Seq<u8>, neg: bool) -> Option<int> {
    let v = if neg { -digits_value(body) } else { digits_value(body) };
    if body.len() > 0 && all_digits(body) && i32::MIN <= v <= i32::MAX {
        Some(v)
    } else {
        None
    }
}

/// The `i32` that a token spells: an optional sign, then one or more digits.
pub open spec fn parse_int(t: Seq<u8>) -> Option<int> {
    if t.len() > 0 && (t[0] == 45 || t[0] == 43) {
        int_of(t.subrange(1, t.len() as int), t[0] == 45)
    } else {
        int_of(t, false)
    }
}

/// One token applied to the stack: an operator, an integer pushed, or nothing
/// for an empty token.
pub open spec fn apply_token(s: Seq<i32>, tok: Seq<u8>) -> Result<Seq<i32>, CalcError> {
    if tok.len() == 0 {
        Ok(s)
    } else if tok == seq![43u8] {
        binary_step(s, Op::Add)
    } else if tok == seq![45u8] {
        binary_step(s, Op::Subtract)
    } else if tok == seq![42u8] {
        binary_step(s, Op::Multiply)
    } else if tok == seq![47u8] {
        binary_step(s, Op::Divide)
    } else {
        match parse_int(tok) {
            Some(v) => Ok(s.push(v as i32)),
            None => Err(CalcError::InvalidToken),
        }
    }
}

/// Evaluation of `text` from position `i`, where the current token began at
/// `start`: the final stack, and the error that stopped it, if any. An error
/// leaves the stack as the tokens before it made it.
pub open spec fn eval_from(s: Seq<i32>, text: Seq<u8>, start: int, i: int) -> (Seq<i32>, Option<CalcError>)
    decreases text.len() - i,
{
    if start < 0 || start > i || i > text.len() {
        (s, None)
    } else if i == text.len() || is_space(text[i]) {
        match apply_token(s, text.subrange(start, i)) {
            Err(e) => (s, Some(e)),
            Ok(s2) => if i == text.len() {
                (s2, None)
            } else {
                eval_from(s2, text, i + 1, i + 1)
            },
        }
    } else {
        eval_from(s, text, start, i + 1)
    }
}

/// Evaluation of a whole line against a stack.
pub open spec fn eval_line(s: Seq<i32>, text: Seq<u8>) -> (Seq<i32>, Option<CalcError>) {
    eval_from(s, text, 0, 0)
}

proof fn lemma_digits_value_nonneg(s: Seq<u8>)
    requires
        all_digits(s),
    ensures
        digits_value(s) >= 0,
    decreases s.len(),
{
    if s.len() > 0 {
        assert(is_digit(s[s.len() - 1]));
        lemma_digits_value_nonneg(s.drop_last());
    }
}

proof fn lemma_digits_value_prefix(s: Seq<u8>, k: int)
    requires
        all_digits(s),
        0 <= k <= s.len(),
    ensures
        digits_value(s.subrange(0, k)) <= digits_value(s),
    decreases s.len() - k,
{
    if k == s.len() {
        assert(s.subrange(0, k) == s);
    } else {
        let p = s.subrange(0, k + 1);
        assert(p.drop_last() == s.subrange(0, k));
        assert(is_digit(p.last()));
        lemma_digits_value_nonneg(s.subrange(0, k));
        lemma_digits_value_prefix(s, k + 1);
    }
}

/// The integer that `text[start..end]` spells, as `parse_int` reads it.
fn parse_token(text: &[u8], start: usize, end: usize) -> (r: Option<i32>)
    requires
        start <= end <= text@.len(),
    ensures
        match r {
            Some(v) => parse_int(text@.subrange(start as int, end as int)) == Some(v as int),
            None => parse_int(text@.subrange(start as int, end as int)).is_none(),
        },
{
    let ghost t = text@.subrange(start as int, end as int);
    let mut b = start;
    let mut neg = false;
    if start < end && (text[start] == 45 || text[start] == 43) {
        neg = text[start] == 45;
        b = start + 1;
    }
    let ghost body = text@.subrange(b as int, end as int);
    if start < end {
        assert(t[0] == text@[start as int]);
    }
    assert(neg == (t.len() > 0 && t[0] == 45));
    assert((b == start + 1) == (t.len() > 0 && (t[0] == 45 || t[0] == 43)));
    if b == start {
        assert(body == t);
    } else {
        assert(body == t.subrange(1, t.len() as int));
    }
    assert(parse_int(t) == int_of(body, neg));
    if b == end {
        return None;
    }
    let mut acc: i64 = 0;
    let mut j = b;
    while j < end
        invariant
            b <= j <= end <= text@.len(),
            body == text@.subrange(b as int, end as int),
            parse_int(t) == int_of(body, neg),
            t == text@.subrange(start as int, end as int),
            0 <= acc <= 0x8000_0000,
            acc == digits_value(text@.subrange(b as int, j as int)),
            all_digits(text@.subrange(b as int, j as int)),
        decreases end - j,
    {
        let c = text[j];
        assert(text@.subrange(b as int, j + 1).drop_last() == text@.subrange(b as int, j as int));
        if c < 48 || c > 57 {
            assert(body[j - b] == c);
            assert(!is_digit(body[j - b]));
            return None;
        }
        acc = acc * 10 + (c - 48) as i64;
        j = j + 1;
        assert(all_digits(text@.subrange(b as int, j as int))) by {
            assert forall|i: int| 0 <= i < j - b implies is_digit(#[trigger] text@.subrange(b as int, j as int)[i]) by {
                if i < j - 1 - b {
                    assert(text@.subrange(b as int, j as int)[i] == text@.subrange(b as int, j - 1)[i]);
                }
            }
        }
        if acc > 0x8000_0000 {
            proof {
                if all_digits(body) {
                    assert(body.subrange(0, j - b) == text@.subrange(b as int, j as int));
                    lemma_digits_value_prefix(body, j - b);
                }
            }
            return None;
        }
    }
    assert(body == text@.subrange(b as int, j as int));
    if neg {
        Some((-acc) as i32)
    } else if acc > 0x7fff_ffff {
        None
    } else {
        Some(acc as i32)
    }
}

/// Applies the token `text[start..end]` to the stack.
fn apply_token_at(stack: &mut Vec<i32>, text: &[u8], start: usize, end: usize) -> (r: Result<(), CalcError>)
    requires
        start <= end <= text@.len(),
    ensures
        match apply_token(old(stack)@, text@.subrange(start as int, end as int)) {
            Ok(s) => r is Ok && final(stack)@ == s,
            Err(e) => r == Err::<(), CalcError>(e) && final(stack)@ == old(stack)@,
        },
{
    let ghost tok = text@.subrange(start as int, end as int);
    if start == end {
        return Ok(());
    }
    if end - start == 1 {
        let c = text[start];
        assert(tok =~= seq![c]);
        if c == 43 {
            return crate::calc::add(stack);
        } else if c == 45 {
            return crate::calc::subtract(stack);
        } else if c == 42 {
            return crate::calc::multiply(stack);
        } else if c == 47 {
            return crate::calc::divide(stack);
        }
    } else {
        assert(tok != seq![43u8] && tok != seq![45u8] && tok != seq![42u8] && tok != seq![47u8]) by {
            assert(tok.len() != 1);
        }
    }
    match parse_token(text, start, end) {
        Some(v) => {
            stack.push(v);
            Ok(())
        },
        None => Err(CalcError::InvalidToken),
    }
}

/// Evaluates a line of whitespace-separated tokens against the stack, left to
/// right, stopping at the first error.
pub fn calculate(stack: &mut Vec<i32>, line: &str) -> (r: Result<(), CalcError>)
    ensures
        final(stack)@ == eval_line(old(stack)@, line.spec_bytes()).0,
        match r {
            Ok(_) => eval_line(old(stack)@, line.spec_bytes()).1.is_none(),
            Err(e) => eval_line(old(stack)@, line.spec_bytes()).1 == Some(e),
        },
{
    let text = line.as_bytes();
    let mut start: usize = 0;
    let mut i: usize = 0;
    while i <= text.len()
        invariant
            start <= i <= text@.len() + 1,
            start <= text@.len(),
            text@ == line.spec_bytes(),
            i <= text@.len(),
            eval_line(old(stack)@, text@) == eval_from(stack@, text@, start as int, i as int),
        decreases text@.len() + 1 - i,
    {
        if i == text.len() || (text[i] == 32 || (9 <= text[i] && text[i] <= 13)) {
            let r = apply_token_at(stack, text, start, i);
            match r {
                Err(e) => {
                    return Err(e);
                },
                Ok(_) => {
                    if i == text.len() {
                        return Ok(());
                    }
                    start = i + 1;
                },
            }
        }
        i = i + 1;
    }
    Ok(())
}

} // verus!
