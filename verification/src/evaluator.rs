//! The evaluator: reduce a matched tree of the shape
//! `( operator operand operand... )` — or a bare integer literal — to a
//! signed integer, or to a structured error. Evaluation is deterministic and
//! has no side effects.

use vstd::prelude::*;
use vstd::string::StrSliceExecFns;

use crate::errors::EvalError;
use crate::number::parse_i64;
use crate::number::str_to_i64;
use crate::value::ParseValue;
use crate::value::Val;
use crate::value::deep_view_list;
use crate::value::lemma_deep_view_list;

verus! {

/// The magnitude of an integer.
pub open spec fn int_abs(a: int) -> int {
    if a < 0 {
        -a
    } else {
        a
    }
}

/// Division truncating toward zero, as machine division does.
pub open spec fn trunc_div(a: int, b: int) -> int {
    if (a < 0) != (b < 0) {
        -(int_abs(a) / int_abs(b))
    } else {
        int_abs(a) / int_abs(b)
    }
}

/// The operator character a value stands for, when it is a one-character
/// literal.
pub open spec fn op_char(v: Val) -> Option<char> {
    match v {
        Val::Str(s) => if s.len() == 1 {
            Some(s[0])
        } else {
            None
        },
        _ => None,
    }
}

/// One fold step: combine the accumulator with the next operand under the
/// operator, watching for division by zero and results outside `i64`.
pub open spec fn combine(op: char, a: i64, x: i64) -> Result<i64, EvalError> {
    if op == '+' {
        if i64::MIN <= a + x <= i64::MAX {
            Ok((a + x) as i64)
        } else {
            Err(EvalError::Overflow)
        }
    } else if op == '-' {
        if i64::MIN <= a - x <= i64::MAX {
            Ok((a - x) as i64)
        } else {
            Err(EvalError::Overflow)
        }
    } else if op == '*' {
        if i64::MIN <= a * x <= i64::MAX {
            Ok((a * x) as i64)
        } else {
            Err(EvalError::Overflow)
        }
    } else if op == '/' {
        if x == 0 {
            Err(EvalError::DivisionByZero)
        } else if i64::MIN <= trunc_div(a as int, x as int) <= i64::MAX {
            Ok(trunc_div(a as int, x as int) as i64)
        } else {
            Err(EvalError::Overflow)
        }
    } else {
        Err(EvalError::UnknownOperator)
    }
}

/// The value of a matched tree:
/// - a literal leaf is read as a base-10 signed integer;
/// - `( op )` yields the operator's identity element — 0 for `+`, 1 for
///   `*` — and an arity error for `-` and `/`, which have none;
/// - `( op x y... )` evaluates `x` and folds the remaining operands into it
///   left to right;
/// - an operator outside `+ - * /` is unknown, and any other tree shape is
///   an arity error.
pub open spec fn eval_s(v: Val) -> Result<i64, EvalError>
    decreases v, 1int,
{
    match v {
        Val::Str(s) => match str_to_i64(s) {
            Some(n) => Ok(n),
            None => Err(EvalError::InvalidNumber),
        },
        Val::Empty => Err(EvalError::ArityError),
        Val::List(l) => {
            if l.len() == 3 {
                match op_char(l[1]) {
                    Some(op) => if op == '+' {
                        Ok(0)
                    } else if op == '*' {
                        Ok(1)
                    } else if op == '-' || op == '/' {
                        Err(EvalError::ArityError)
                    } else {
                        Err(EvalError::UnknownOperator)
                    },
                    None => Err(EvalError::UnknownOperator),
                }
            } else if l.len() == 4 {
                match op_char(l[1]) {
                    Some(op) => if op == '+' || op == '-' || op == '*' || op == '/' {
                        match l[2] {
                            Val::List(args) => if args.len() == 0 {
                                Err(EvalError::ArityError)
                            } else {
                                match eval_s(args[0]) {
                                    Ok(acc) => fold_s(op, args, 1, acc),
                                    Err(e) => Err(e),
                                }
                            },
                            _ => Err(EvalError::ArityError),
                        }
                    } else {
                        Err(EvalError::UnknownOperator)
                    },
                    None => Err(EvalError::UnknownOperator),
                }
            } else {
                Err(EvalError::ArityError)
            }
        },
    }
}

/// Fold the operands `args[k..]` into the accumulator, left to right.
pub open spec fn fold_s(op: char, args: Seq<Val>, k: int, acc: i64) -> Result<i64, EvalError>
    decreases args, args.len() - k + 2,
{
    if !(0 <= k < args.len()) {
        Ok(acc)
    } else {
        match eval_s(args[k]) {
            Err(e) => Err(e),
            Ok(x) => match combine(op, acc, x) {
                Ok(y) => fold_s(op, args, k + 1, y),
                Err(e) => Err(e),
            },
        }
    }
}

/// Division of `a` by `b`, truncating toward zero: `None` exactly when the
/// result does not fit an `i64`.
fn div_trunc(a: i64, b: i64) -> (r: Option<i64>)
    requires
        b != 0,
    ensures
        match r {
            Some(q) => q as int == trunc_div(a as int, b as int),
            None => !(i64::MIN <= trunc_div(a as int, b as int) <= i64::MAX),
        },
{
    if a == i64::MIN && b == -1 {
        proof {
            assert(int_abs(a as int) == 9223372036854775808);
            assert(int_abs(b as int) == 1);
            assert(9223372036854775808int / 1int == 9223372036854775808int);
        }
        return None;
    }
    let ua: u64 = if a == i64::MIN {
        9223372036854775808u64
    } else if a < 0 {
        (-a) as u64
    } else {
        a as u64
    };
    let ub: u64 = if b == i64::MIN {
        9223372036854775808u64
    } else if b < 0 {
        (-b) as u64
    } else {
        b as u64
    };
    let q = ua / ub;
    proof {
        assert(ua as int == int_abs(a as int));
        assert(ub as int == int_abs(b as int));
        assert(ub >= 1);
        assert(ua as int / ub as int <= ua as int) by (nonlinear_arith)
            requires
                ub as int >= 1,
                ua as int >= 0,
        ;
    }
    if q >= 9223372036854775808u64 {
        proof {
            assert(ua == 9223372036854775808u64);
            assert(a == i64::MIN);
            assert(q == 9223372036854775808u64);
            assert(ub == 1) by (nonlinear_arith)
                requires
                    q as int == ua as int / ub as int,
                    q as int == ua as int,
                    ua as int == 9223372036854775808,
                    ub as int >= 2 || ub as int == 1,
            ;
            assert(b == 1);
            assert(trunc_div(a as int, b as int) == -9223372036854775808);
        }
        Some(i64::MIN)
    } else {
        if (a < 0) != (b < 0) {
            Some(-(q as i64))
        } else {
            Some(q as i64)
        }
    }
}

/// One fold step, executably: `combine` as code.
fn combine_exec(op: char, a: i64, x: i64) -> (r: Result<i64, EvalError>)
    ensures
        r == combine(op, a, x),
{
    if op == '+' {
        match a.checked_add(x) {
            Some(y) => Ok(y),
            None => Err(EvalError::Overflow),
        }
    } else if op == '-' {
        match a.checked_sub(x) {
            Some(y) => Ok(y),
            None => Err(EvalError::Overflow),
        }
    } else if op == '*' {
        match a.checked_mul(x) {
            Some(y) => Ok(y),
            None => Err(EvalError::Overflow),
        }
    } else if op == '/' {
        if x == 0 {
            Err(EvalError::DivisionByZero)
        } else {
            match div_trunc(a, x) {
                Some(q) => Ok(q),
                None => Err(EvalError::Overflow),
            }
        }
    } else {
        Err(EvalError::UnknownOperator)
    }
}

/// The operator character of a one-character literal value.
fn op_char_exec(v: &ParseValue) -> (r: Option<char>)
    ensures
        r == op_char(v.deep_view()),
{
    match v {
        ParseValue::String(s) => {
            if s.as_str().unicode_len() == 1 {
                Some(s.as_str().get_char(0))
            } else {
                None
            }
        },
        _ => None,
    }
}

/// Evaluate a matched tree to a signed integer or a structured error,
/// exactly as the semantic evaluator says.
#[verifier::loop_isolation(false)]
pub fn eval(expr: &ParseValue) -> (r: Result<i64, EvalError>)
    ensures
        r == eval_s(expr.deep_view()),
    decreases *expr, 1int,
{
    match expr {
        ParseValue::String(s) => {
            match parse_i64(s.as_str()) {
                Some(n) => Ok(n),
                None => Err(EvalError::InvalidNumber),
            }
        },
        ParseValue::Empty => Err(EvalError::ArityError),
        ParseValue::List(l) => {
            proof {
                lemma_deep_view_list(l@);
            }
            if l.len() == 3 {
                match op_char_exec(&l[1]) {
                    Some(op) => if op == '+' {
                        Ok(0)
                    } else if op == '*' {
                        Ok(1)
                    } else if op == '-' || op == '/' {
                        Err(EvalError::ArityError)
                    } else {
                        Err(EvalError::UnknownOperator)
                    },
                    None => Err(EvalError::UnknownOperator),
                }
            } else if l.len() == 4 {
                match op_char_exec(&l[1]) {
                    Some(op) => if op == '+' || op == '-' || op == '*' || op == '/' {
                        match &l[2] {
                            ParseValue::List(args) => {
                                proof {
                                    lemma_deep_view_list(args@);
                                }
                                let ghost argsm = deep_view_list(args@);
                                if args.len() == 0 {
                                    Err(EvalError::ArityError)
                                } else {
                                    proof {
                                        assert(decreases_to!(args@ => args@[0]));
                                        assert(decreases_to!(*expr => l@[2]));
                                        assert(decreases_to!(*expr => args@[0]));
                                    }
                                    match eval(&args[0]) {
                                        Err(e) => Err(e),
                                        Ok(first) => {
                                            let mut acc = first;
                                            let mut k: usize = 1;
                                            let n = args.len();
                                            let ghost whole = fold_s(op, argsm, 1, first);
                                            while k < n
                                                invariant
                                                    1 <= k <= n,
                                                    whole == fold_s(op, argsm, k as int, acc),
                                                decreases n - k,
                                            {
                                                let ghost kk = k as int;
                                                proof {
                                                    assert(decreases_to!(args@ => args@[kk]));
                                                    assert(decreases_to!(*expr => args@[kk]));
                                                }
                                                match eval(&args[k]) {
                                                    Err(e) => {
                                                        return Err(e);
                                                    },
                                                    Ok(x) => {
                                                        match combine_exec(op, acc, x) {
                                                            Ok(y) => {
                                                                acc = y;
                                                                k = k + 1;
                                                            },
                                                            Err(e) => {
                                                                return Err(e);
                                                            },
                                                        }
                                                    },
                                                }
                                            }
                                            Ok(acc)
                                        },
                                    }
                                }
                            },
                            _ => Err(EvalError::ArityError),
                        }
                    } else {
                        Err(EvalError::UnknownOperator)
                    },
                    None => Err(EvalError::UnknownOperator),
                }
            } else {
                Err(EvalError::ArityError)
            }
        },
    }
}

} // verus!
