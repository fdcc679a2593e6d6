//! The parser for the language's surface syntax, specified by a spec-level
//! twin: `spec_parse_expression` and `spec_parse_statements` define, as
//! total functions on the input's characters, exactly which shape of tree a
//! given text denotes, and the executable parser is proved to return a tree
//! of that shape if and only if the twin says one exists.
//!
//! Grammar: integer and decimal literals, `True`/`False`, double-quoted
//! strings, variables, calls, unary minus, `* / + -`, one optional
//! comparison (`== != >= <= > <`), parenthesised groups; statements are
//! `name = expression`, `return expression`, `if c { ... } else { ... }`,
//! `while c { ... }` and `def name(p: Type, ...) -> Type { ... }`,
//! separated by semicolons.  The spec twin carries a fuel bounded by the
//! input's length, so nesting deeper than the fuel allows parses as a
//! failure — on both sides alike.

use crate::ast::{
    expr_v, expr_wf, exprs_v, exprs_wf, params_v, stmt_v, stmt_wf, stmts_v, stmts_wf, ExprV,
    Expression, FuncV, Function, Statement, StmtV, Type,
};
use crate::decimal::{real_from_decimal, Real, MAX_SCALE};
use std::rc::Rc;
use vstd::prelude::*;
use vstd::string::{StrSliceExecFns, StringExecFns};

verus! {

/// Longest input the parser accepts, so that the fuel fits a machine word.
pub const MAX_INPUT: usize = 0x1000_0000;

pub open spec fn is_digit(c: char) -> bool {
    48 <= c as u32 <= 57
}

pub open spec fn is_alpha(c: char) -> bool {
    (65 <= c as u32 <= 90) || (97 <= c as u32 <= 122) || c == '_'
}

pub open spec fn is_alnum(c: char) -> bool {
    is_alpha(c) || is_digit(c)
}

pub open spec fn is_space(c: char) -> bool {
    c == ' ' || c == '\t' || c == '\r' || c == '\n'
}

/// A name the grammar reserves; never a variable.
pub open spec fn is_keyword(n: Seq<char>) -> bool {
    ||| n == "if"@
    ||| n == "else"@
    ||| n == "while"@
    ||| n == "def"@
    ||| n == "return"@
    ||| n == "True"@
    ||| n == "False"@
}

/// Fuel that suffices for any input of length `n` the grammar accepts.
pub open spec fn parse_fuel(n: nat) -> nat {
    16 * n + 64
}

/// The position of the first non-blank character at or after `i`.
pub open spec fn sp_ws(s: Seq<char>, i: nat) -> nat
    decreases s.len() - i,
{
    if i < s.len() && is_space(s[i as int]) {
        sp_ws(s, i + 1)
    } else {
        i
    }
}

/// Digits folded into `val` from position `i` on; `None` when the number
/// leaves the machine range.
pub open spec fn sp_digits(s: Seq<char>, i: nat, val: int) -> Option<(int, nat)>
    decreases s.len() - i,
{
    if i < s.len() && is_digit(s[i as int]) {
        if val > 922_337_203_685_477_580 {
            None
        } else {
            let v2 = val * 10 + (s[i as int] as u32 - 48);
            if v2 > 0x7fff_ffff_ffff_ffff {
                None
            } else {
                sp_digits(s, i + 1, v2)
            }
        }
    } else {
        Some((val, i))
    }
}

/// Fraction digits folded into `mant` with their count, capped at
/// `MAX_SCALE` places.
pub open spec fn sp_frac(s: Seq<char>, i: nat, mant: int, sc: nat) -> Option<(int, nat, nat)>
    decreases s.len() - i,
{
    if i < s.len() && is_digit(s[i as int]) {
        if mant > 922_337_203_685_477_580 || sc >= MAX_SCALE {
            None
        } else {
            let m2 = mant * 10 + (s[i as int] as u32 - 48);
            if m2 > 0x7fff_ffff_ffff_ffff {
                None
            } else {
                sp_frac(s, i + 1, m2, sc + 1)
            }
        }
    } else {
        Some((mant, sc, i))
    }
}

/// End of the identifier that starts before `i`.
pub open spec fn sp_ident_end(s: Seq<char>, i: nat) -> nat
    decreases s.len() - i,
{
    if i < s.len() && is_alnum(s[i as int]) {
        sp_ident_end(s, i + 1)
    } else {
        i
    }
}

/// A number literal at `i`: digits, optionally a point and fraction digits.
pub open spec fn sp_number(s: Seq<char>, i: nat) -> Option<(ExprV, nat)> {
    if i < s.len() && is_digit(s[i as int]) {
        match sp_digits(s, i + 1, (s[i as int] as u32 - 48) as int) {
            None => None,
            Some((val, j)) => if j < s.len() && s[j as int] == '.' && j + 1 < s.len() && is_digit(
                s[j as int + 1],
            ) {
                match sp_frac(s, j + 1, val, 0) {
                    None => None,
                    Some((m, sc, k)) => Some(
                        (ExprV::CReal(Real { mant: m as i64, scale: sc as u32 }), k),
                    ),
                }
            } else {
                Some((ExprV::CInt(val as i64), j))
            },
        }
    } else {
        None
    }
}

/// An identifier at `i` and the position after it.
pub open spec fn sp_ident(s: Seq<char>, i: nat) -> Option<(Seq<char>, nat)> {
    if i < s.len() && is_alpha(s[i as int]) {
        let j = sp_ident_end(s, i + 1);
        Some((s.subrange(i as int, j as int), j))
    } else {
        None
    }
}

/// The closing quote at or after `i`, if any.
pub open spec fn sp_str_end(s: Seq<char>, i: nat) -> Option<nat>
    decreases s.len() - i,
{
    if i < s.len() {
        if s[i as int] == '"' {
            Some(i)
        } else {
            sp_str_end(s, i + 1)
        }
    } else {
        None
    }
}

/// An atom: a parenthesised expression, a string, a number, a boolean
/// literal, or a name (possibly a call).
pub open spec fn sp_atom(s: Seq<char>, i: nat, fuel: nat) -> Option<(ExprV, nat)>
    decreases fuel,
{
    if fuel == 0 {
        None
    } else {
        let f = (fuel - 1) as nat;
        let p = sp_ws(s, i);
        if p < s.len() && s[p as int] == '(' {
            match sp_expr(s, p + 1, f) {
                None => None,
                Some((e, j)) => {
                    let j2 = sp_ws(s, j);
                    if j2 < s.len() && s[j2 as int] == ')' {
                        Some((e, j2 + 1))
                    } else {
                        None
                    }
                },
            }
        } else if p < s.len() && s[p as int] == '"' {
            match sp_str_end(s, p + 1) {
                None => None,
                Some(q) => Some((ExprV::CStr(s.subrange(p as int + 1, q as int)), q + 1)),
            }
        } else if p < s.len() && is_digit(s[p as int]) {
            sp_number(s, p)
        } else {
            match sp_ident(s, p) {
                None => None,
                Some((name, j)) => if name == "True"@ {
                    Some((ExprV::CTrue, j))
                } else if name == "False"@ {
                    Some((ExprV::CFalse, j))
                } else if is_keyword(name) {
                    None
                } else {
                    let j2 = sp_ws(s, j);
                    if j2 < s.len() && s[j2 as int] == '(' {
                        match sp_args(s, j2 + 1, f) {
                            None => None,
                            Some((args, j3)) => Some((ExprV::FuncCall(name, args), j3)),
                        }
                    } else {
                        Some((ExprV::Var(name), j))
                    }
                },
            }
        }
    }
}

/// Call arguments after the opening parenthesis, up to and past the
/// closing one.
pub open spec fn sp_args(s: Seq<char>, i: nat, fuel: nat) -> Option<(Seq<ExprV>, nat)>
    decreases fuel,
{
    if fuel == 0 {
        None
    } else {
        let p = sp_ws(s, i);
        if p < s.len() && s[p as int] == ')' {
            Some((Seq::empty(), p + 1))
        } else {
            sp_args_loop(s, p, Seq::empty(), (fuel - 1) as nat)
        }
    }
}

pub open spec fn sp_args_loop(s: Seq<char>, i: nat, acc: Seq<ExprV>, fuel: nat) -> Option<
    (Seq<ExprV>, nat),
>
    decreases fuel,
{
    if fuel == 0 {
        None
    } else {
        let f = (fuel - 1) as nat;
        match sp_expr(s, i, f) {
            None => None,
            Some((e, j)) => {
                let j2 = sp_ws(s, j);
                if j2 < s.len() && s[j2 as int] == ',' {
                    sp_args_loop(s, j2 + 1, acc.push(e), f)
                } else if j2 < s.len() && s[j2 as int] == ')' {
                    Some((acc.push(e), j2 + 1))
                } else {
                    None
                }
            },
        }
    }
}

/// A unary-minus chain over an atom.
pub open spec fn sp_unary(s: Seq<char>, i: nat, fuel: nat) -> Option<(ExprV, nat)>
    decreases fuel,
{
    if fuel == 0 {
        None
    } else {
        let f = (fuel - 1) as nat;
        let p = sp_ws(s, i);
        if p < s.len() && s[p as int] == '-' {
            match sp_unary(s, p + 1, f) {
                None => None,
                Some((e, j)) => Some((ExprV::Neg(Box::new(e)), j)),
            }
        } else {
            sp_atom(s, i, f)
        }
    }
}

/// A product: unary operands joined by `*` or `/`, left associative.
pub open spec fn sp_mul(s: Seq<char>, i: nat, fuel: nat) -> Option<(ExprV, nat)>
    decreases fuel,
{
    if fuel == 0 {
        None
    } else {
        let f = (fuel - 1) as nat;
        match sp_unary(s, i, f) {
            None => None,
            Some((e, j)) => sp_mul_loop(s, e, j, f),
        }
    }
}

pub open spec fn sp_mul_loop(s: Seq<char>, acc: ExprV, j: nat, fuel: nat) -> Option<(ExprV, nat)>
    decreases fuel,
{
    if fuel == 0 {
        None
    } else {
        let f = (fuel - 1) as nat;
        let p = sp_ws(s, j);
        if p < s.len() && (s[p as int] == '*' || s[p as int] == '/') {
            match sp_unary(s, p + 1, f) {
                None => Some((acc, j)),
                Some((e2, j2)) => if s[p as int] == '*' {
                    sp_mul_loop(s, ExprV::Mul(Box::new(acc), Box::new(e2)), j2, f)
                } else {
                    sp_mul_loop(s, ExprV::Div(Box::new(acc), Box::new(e2)), j2, f)
                },
            }
        } else {
            Some((acc, j))
        }
    }
}

/// A sum: products joined by `+` or binary `-`, left associative.
pub open spec fn sp_add(s: Seq<char>, i: nat, fuel: nat) -> Option<(ExprV, nat)>
    decreases fuel,
{
    if fuel == 0 {
        None
    } else {
        let f = (fuel - 1) as nat;
        match sp_mul(s, i, f) {
            None => None,
            Some((e, j)) => sp_add_loop(s, e, j, f),
        }
    }
}

pub open spec fn sp_add_loop(s: Seq<char>, acc: ExprV, j: nat, fuel: nat) -> Option<(ExprV, nat)>
    decreases fuel,
{
    if fuel == 0 {
        None
    } else {
        let f = (fuel - 1) as nat;
        let p = sp_ws(s, j);
        if p < s.len() && (s[p as int] == '+' || s[p as int] == '-') {
            match sp_mul(s, p + 1, f) {
                None => Some((acc, j)),
                Some((e2, j2)) => if s[p as int] == '+' {
                    sp_add_loop(s, ExprV::Add(Box::new(acc), Box::new(e2)), j2, f)
                } else {
                    sp_add_loop(s, ExprV::Sub(Box::new(acc), Box::new(e2)), j2, f)
                },
            }
        } else {
            Some((acc, j))
        }
    }
}

/// An expression: a sum, optionally compared once.
pub open spec fn sp_expr(s: Seq<char>, i: nat, fuel: nat) -> Option<(ExprV, nat)>
    decreases fuel,
{
    if fuel == 0 {
        None
    } else {
        let f = (fuel - 1) as nat;
        match sp_add(s, i, f) {
            None => None,
            Some((e, j)) => {
                let p = sp_ws(s, j);
                if p + 1 < s.len() && s[p as int] == '=' && s[p as int + 1] == '=' {
                    match sp_add(s, p + 2, f) {
                        None => Some((e, j)),
                        Some((e2, j2)) => Some((ExprV::EQ(Box::new(e), Box::new(e2)), j2)),
                    }
                } else if p + 1 < s.len() && s[p as int] == '!' && s[p as int + 1] == '=' {
                    match sp_add(s, p + 2, f) {
                        None => Some((e, j)),
                        Some((e2, j2)) => Some((ExprV::NEQ(Box::new(e), Box::new(e2)), j2)),
                    }
                } else if p + 1 < s.len() && s[p as int] == '>' && s[p as int + 1] == '=' {
                    match sp_add(s, p + 2, f) {
                        None => Some((e, j)),
                        Some((e2, j2)) => Some((ExprV::GTE(Box::new(e), Box::new(e2)), j2)),
                    }
                } else if p + 1 < s.len() && s[p as int] == '<' && s[p as int + 1] == '=' {
                    match sp_add(s, p + 2, f) {
                        None => Some((e, j)),
                        Some((e2, j2)) => Some((ExprV::LTE(Box::new(e), Box::new(e2)), j2)),
                    }
                } else if p < s.len() && s[p as int] == '>' {
                    match sp_add(s, p + 1, f) {
                        None => Some((e, j)),
                        Some((e2, j2)) => Some((ExprV::GT(Box::new(e), Box::new(e2)), j2)),
                    }
                } else if p < s.len() && s[p as int] == '<' {
                    match sp_add(s, p + 1, f) {
                        None => Some((e, j)),
                        Some((e2, j2)) => Some((ExprV::LT(Box::new(e), Box::new(e2)), j2)),
                    }
                } else {
                    Some((e, j))
                }
            },
        }
    }
}

/// A type name.
pub open spec fn sp_type(s: Seq<char>, i: nat) -> Option<(Type, nat)> {
    let p = sp_ws(s, i);
    match sp_ident(s, p) {
        None => None,
        Some((n, j)) => if n == "Integer"@ {
            Some((Type::TInteger, j))
        } else if n == "Real"@ {
            Some((Type::TReal, j))
        } else if n == "Boolean"@ {
            Some((Type::TBool, j))
        } else if n == "String"@ {
            Some((Type::TString, j))
        } else {
            None
        },
    }
}

/// A parameter list after the opening parenthesis, up to and past the
/// closing one.
pub open spec fn sp_params(s: Seq<char>, i: nat, fuel: nat) -> Option<
    (Seq<(Seq<char>, Type)>, nat),
>
    decreases fuel,
{
    if fuel == 0 {
        None
    } else {
        let p = sp_ws(s, i);
        if p < s.len() && s[p as int] == ')' {
            Some((Seq::empty(), p + 1))
        } else {
            sp_params_loop(s, p, Seq::empty(), (fuel - 1) as nat)
        }
    }
}

pub open spec fn sp_params_loop(
    s: Seq<char>,
    i: nat,
    acc: Seq<(Seq<char>, Type)>,
    fuel: nat,
) -> Option<(Seq<(Seq<char>, Type)>, nat)>
    decreases fuel,
{
    if fuel == 0 {
        None
    } else {
        let f = (fuel - 1) as nat;
        let p = sp_ws(s, i);
        match sp_ident(s, p) {
            None => None,
            Some((n, j)) => if is_keyword(n) {
                None
            } else {
                let j2 = sp_ws(s, j);
                if j2 < s.len() && s[j2 as int] == ':' {
                    match sp_type(s, j2 + 1) {
                        None => None,
                        Some((t, j3)) => {
                            let j4 = sp_ws(s, j3);
                            if j4 < s.len() && s[j4 as int] == ',' {
                                sp_params_loop(s, j4 + 1, acc.push((n, t)), f)
                            } else if j4 < s.len() && s[j4 as int] == ')' {
                                Some((acc.push((n, t)), j4 + 1))
                            } else {
                                None
                            }
                        },
                    }
                } else {
                    None
                }
            },
        }
    }
}

/// A braced block of semicolon-separated statements.
pub open spec fn sp_block(s: Seq<char>, i: nat, fuel: nat) -> Option<(Seq<StmtV>, nat)>
    decreases fuel,
{
    if fuel == 0 {
        None
    } else {
        let p = sp_ws(s, i);
        if p < s.len() && s[p as int] == '{' {
            let q = sp_ws(s, p + 1);
            if q < s.len() && s[q as int] == '}' {
                Some((Seq::empty(), q + 1))
            } else {
                sp_block_loop(s, p + 1, Seq::empty(), (fuel - 1) as nat)
            }
        } else {
            None
        }
    }
}

pub open spec fn sp_block_loop(s: Seq<char>, i: nat, acc: Seq<StmtV>, fuel: nat) -> Option<
    (Seq<StmtV>, nat),
>
    decreases fuel,
{
    if fuel == 0 {
        None
    } else {
        let f = (fuel - 1) as nat;
        match sp_stmt(s, i, f) {
            None => None,
            Some((st, j)) => {
                let p = sp_ws(s, j);
                if p < s.len() && s[p as int] == ';' {
                    let q = sp_ws(s, p + 1);
                    if q < s.len() && s[q as int] == '}' {
                        Some((acc.push(st), q + 1))
                    } else {
                        sp_block_loop(s, p + 1, acc.push(st), f)
                    }
                } else if p < s.len() && s[p as int] == '}' {
                    Some((acc.push(st), p + 1))
                } else {
                    None
                }
            },
        }
    }
}

/// One statement.
pub open spec fn sp_stmt(s: Seq<char>, i: nat, fuel: nat) -> Option<(StmtV, nat)>
    decreases fuel,
{
    if fuel == 0 {
        None
    } else {
        let f = (fuel - 1) as nat;
        let p = sp_ws(s, i);
        match sp_ident(s, p) {
            None => None,
            Some((name, j)) => if name == "return"@ {
                match sp_expr(s, j, f) {
                    None => None,
                    Some((e, j2)) => Some((StmtV::Return(Box::new(e)), j2)),
                }
            } else if name == "if"@ {
                match sp_expr(s, j, f) {
                    None => None,
                    Some((c, j2)) => match sp_block(s, j2, f) {
                        None => None,
                        Some((thn, j3)) => {
                            let p2 = sp_ws(s, j3);
                            match sp_ident(s, p2) {
                                Some((w, j4)) => if w == "else"@ {
                                    match sp_block(s, j4, f) {
                                        None => None,
                                        Some((els, j5)) => Some(
                                            (StmtV::IfThenElse(Box::new(c), thn, els), j5),
                                        ),
                                    }
                                } else {
                                    Some((StmtV::IfThenElse(Box::new(c), thn, Seq::empty()), j3))
                                },
                                None => Some(
                                    (StmtV::IfThenElse(Box::new(c), thn, Seq::empty()), j3),
                                ),
                            }
                        },
                    },
                }
            } else if name == "while"@ {
                match sp_expr(s, j, f) {
                    None => None,
                    Some((c, j2)) => match sp_block(s, j2, f) {
                        None => None,
                        Some((b, j3)) => Some((StmtV::While(Box::new(c), b), j3)),
                    },
                }
            } else if name == "def"@ {
                let p2 = sp_ws(s, j);
                match sp_ident(s, p2) {
                    None => None,
                    Some((fname, j2)) => if is_keyword(fname) {
                        None
                    } else {
                        let p3 = sp_ws(s, j2);
                        if p3 < s.len() && s[p3 as int] == '(' {
                            match sp_params(s, p3 + 1, f) {
                                None => None,
                                Some((ps, j3)) => {
                                    let p4 = sp_ws(s, j3);
                                    if p4 + 1 < s.len() && s[p4 as int] == '-' && s[p4 as int + 1]
                                        == '>' {
                                        match sp_type(s, p4 + 2) {
                                            None => None,
                                            Some((rt, j4)) => match sp_block(s, j4, f) {
                                                None => None,
                                                Some((body, j5)) => Some(
                                                    (
                                                        StmtV::FuncDecl(
                                                            fname,
                                                            FuncV { params: ps, ret: rt, body },
                                                        ),
                                                        j5,
                                                    ),
                                                ),
                                            },
                                        }
                                    } else {
                                        None
                                    }
                                },
                            }
                        } else {
                            None
                        }
                    },
                }
            } else if is_keyword(name) {
                None
            } else {
                let j2 = sp_ws(s, j);
                if j2 < s.len() && s[j2 as int] == '=' && !(j2 + 1 < s.len() && s[j2 as int + 1]
                    == '=') {
                    match sp_expr(s, j2 + 1, f) {
                        None => None,
                        Some((e, j3)) => Some((StmtV::Assignment(name, Box::new(e)), j3)),
                    }
                } else {
                    None
                }
            },
        }
    }
}

/// Top-level statements, semicolon-separated, to the end of the input.
pub open spec fn sp_stmts(s: Seq<char>, i: nat, acc: Seq<StmtV>, fuel: nat) -> Option<Seq<StmtV>>
    decreases fuel,
{
    if fuel == 0 {
        None
    } else {
        let f = (fuel - 1) as nat;
        match sp_stmt(s, i, f) {
            None => None,
            Some((st, j)) => {
                let p = sp_ws(s, j);
                if p == s.len() {
                    Some(acc.push(st))
                } else if s[p as int] == ';' {
                    let q = sp_ws(s, p + 1);
                    if q == s.len() {
                        Some(acc.push(st))
                    } else {
                        sp_stmts(s, p + 1, acc.push(st), f)
                    }
                } else {
                    None
                }
            },
        }
    }
}

/// The shape of the expression a whole input denotes, if any.
pub open spec fn spec_parse_expression(s: Seq<char>) -> Option<ExprV> {
    if s.len() > MAX_INPUT {
        None
    } else {
        match sp_expr(s, 0, parse_fuel(s.len())) {
            None => None,
            Some((e, j)) => if sp_ws(s, j) == s.len() {
                Some(e)
            } else {
                None
            },
        }
    }
}

/// The shapes of the statements a whole input denotes, if any.
pub open spec fn spec_parse_statements(s: Seq<char>) -> Option<Seq<StmtV>> {
    if s.len() > MAX_INPUT {
        None
    } else {
        sp_stmts(s, 0, Seq::empty(), parse_fuel(s.len()))
    }
}


/// An executable expression outcome agrees with a spec-level one.
pub open spec fn expr_outcome_matches(
    r: Option<(Expression, usize)>,
    t: Option<(ExprV, nat)>,
    s: Seq<char>,
) -> bool {
    match (r, t) {
        (Some((e, j)), Some((ev, jv))) => expr_v(e) == ev && expr_wf(e) && j == jv && j <= s.len(),
        (None, None) => true,
        _ => false,
    }
}

/// An executable statement outcome agrees with a spec-level one.
pub open spec fn stmt_outcome_matches(
    r: Option<(Statement, usize)>,
    t: Option<(StmtV, nat)>,
    s: Seq<char>,
) -> bool {
    match (r, t) {
        (Some((st, j)), Some((sv, jv))) => stmt_v(st) == sv && stmt_wf(st) && j == jv && j
            <= s.len(),
        (None, None) => true,
        _ => false,
    }
}

/// Appending to a list appends its shape.
proof fn lemma_exprs_v_push(s: Seq<Expression>, x: Expression)
    ensures
        exprs_v(s.push(x)) == exprs_v(s).push(expr_v(x)),
    decreases s.len(),
{
    if s.len() == 0 {
        assert(s.push(x)[0] == x);
        assert(s.push(x).drop_first() =~= Seq::<Expression>::empty());
        assert(exprs_v(Seq::<Expression>::empty()) =~= Seq::<ExprV>::empty());
        assert(exprs_v(s.push(x)) =~= exprs_v(s).push(expr_v(x)));
    } else {
        assert(s.push(x)[0] == s[0]);
        assert(s.push(x).drop_first() =~= s.drop_first().push(x));
        lemma_exprs_v_push(s.drop_first(), x);
        assert(exprs_v(s.push(x)) =~= exprs_v(s).push(expr_v(x)));
    }
}

proof fn lemma_stmts_v_push(s: Seq<Statement>, x: Statement)
    ensures
        stmts_v(s.push(x)) == stmts_v(s).push(stmt_v(x)),
    decreases s.len(),
{
    if s.len() == 0 {
        assert(s.push(x)[0] == x);
        assert(s.push(x).drop_first() =~= Seq::<Statement>::empty());
        assert(stmts_v(Seq::<Statement>::empty()) =~= Seq::<StmtV>::empty());
        assert(stmts_v(s.push(x)) =~= stmts_v(s).push(stmt_v(x)));
    } else {
        assert(s.push(x)[0] == s[0]);
        assert(s.push(x).drop_first() =~= s.drop_first().push(x));
        lemma_stmts_v_push(s.drop_first(), x);
        assert(stmts_v(s.push(x)) =~= stmts_v(s).push(stmt_v(x)));
    }
}

proof fn lemma_params_v_push(s: Seq<(String, Type)>, x: (String, Type))
    ensures
        params_v(s.push(x)) == params_v(s).push((x.0@, x.1)),
    decreases s.len(),
{
    if s.len() == 0 {
        assert(s.push(x)[0] == x);
        assert(s.push(x).drop_first() =~= Seq::<(String, Type)>::empty());
        assert(params_v(Seq::<(String, Type)>::empty()) =~= Seq::<(Seq<char>, Type)>::empty());
        assert(params_v(s.push(x)) =~= params_v(s).push((x.0@, x.1)));
    } else {
        assert(s.push(x)[0] == s[0]);
        assert(s.push(x).drop_first() =~= s.drop_first().push(x));
        lemma_params_v_push(s.drop_first(), x);
        assert(params_v(s.push(x)) =~= params_v(s).push((x.0@, x.1)));
    }
}

/// Appending a well-formed statement keeps a block well formed.
proof fn lemma_stmts_wf_push(s: Seq<Statement>, x: Statement)
    requires
        stmts_wf(s),
        stmt_wf(x),
    ensures
        stmts_wf(s.push(x)),
    decreases s.len(),
{
    if s.len() == 0 {
        assert(s.push(x)[0] == x);
        assert(s.push(x).drop_first() =~= Seq::<Statement>::empty());
        assert(stmts_wf(Seq::<Statement>::empty()));
    } else {
        assert(s.push(x)[0] == s[0]);
        assert(s.push(x).drop_first() =~= s.drop_first().push(x));
        lemma_stmts_wf_push(s.drop_first(), x);
    }
}

/// Appending a well-formed expression keeps an argument list well formed.
proof fn lemma_exprs_wf_push(s: Seq<Expression>, x: Expression)
    requires
        exprs_wf(s),
        expr_wf(x),
    ensures
        exprs_wf(s.push(x)),
    decreases s.len(),
{
    if s.len() == 0 {
        assert(s.push(x)[0] == x);
        assert(s.push(x).drop_first() =~= Seq::<Expression>::empty());
        assert(exprs_wf(Seq::<Expression>::empty()));
    } else {
        assert(s.push(x)[0] == s[0]);
        assert(s.push(x).drop_first() =~= s.drop_first().push(x));
        lemma_exprs_wf_push(s.drop_first(), x);
    }
}

fn p_ws(s: &str, i: usize) -> (j: usize)
    requires
        i <= s@.len(),
    ensures
        j == sp_ws(s@, i as nat),
        i <= j <= s@.len(),
{
    let n = s.unicode_len();
    let mut j = i;
    while j < n
        invariant
            i <= j <= n,
            n == s@.len(),
            sp_ws(s@, i as nat) == sp_ws(s@, j as nat),
        decreases n - j,
    {
        let c = s.get_char(j);
        if c == ' ' || c == '\t' || c == '\r' || c == '\n' {
            j = j + 1;
        } else {
            return j;
        }
    }
    j
}

fn p_digits(s: &str, i: usize, val: u64) -> (r: Option<(u64, usize)>)
    requires
        i <= s@.len(),
        val <= 0x7fff_ffff_ffff_ffff,
    ensures
        match (r, sp_digits(s@, i as nat, val as int)) {
            (Some((v, j)), Some((vs, js))) => v == vs && j == js && j <= s@.len() && v
                <= 0x7fff_ffff_ffff_ffff,
            (None, None) => true,
            _ => false,
        },
    decreases s@.len() - i,
{
    let n = s.unicode_len();
    if i < n {
        let c = s.get_char(i);
        if c >= '0' && c <= '9' {
            if val > 922_337_203_685_477_580 {
                return None;
            }
            let v2 = val * 10 + ((c as u32) as u64 - 48);
            if v2 > 0x7fff_ffff_ffff_ffff {
                return None;
            }
            return p_digits(s, i + 1, v2);
        }
    }
    Some((val, i))
}

fn p_frac(s: &str, i: usize, mant: u64, sc: u32) -> (r: Option<(u64, u32, usize)>)
    requires
        i <= s@.len(),
        mant <= 0x7fff_ffff_ffff_ffff,
        sc <= MAX_SCALE,
    ensures
        match (r, sp_frac(s@, i as nat, mant as int, sc as nat)) {
            (Some((m, c, j)), Some((ms, cs, js))) => m == ms && c == cs && j == js && j
                <= s@.len() && m <= 0x7fff_ffff_ffff_ffff && c <= MAX_SCALE,
            (None, None) => true,
            _ => false,
        },
    decreases s@.len() - i,
{
    let n = s.unicode_len();
    if i < n {
        let c = s.get_char(i);
        if c >= '0' && c <= '9' {
            if mant > 922_337_203_685_477_580 || sc >= MAX_SCALE {
                return None;
            }
            let m2 = mant * 10 + ((c as u32) as u64 - 48);
            if m2 > 0x7fff_ffff_ffff_ffff {
                return None;
            }
            return p_frac(s, i + 1, m2, sc + 1);
        }
    }
    Some((mant, sc, i))
}

fn p_ident_end(s: &str, i: usize) -> (j: usize)
    requires
        i <= s@.len(),
    ensures
        j == sp_ident_end(s@, i as nat),
        i <= j <= s@.len(),
{
    let n = s.unicode_len();
    let mut j = i;
    while j < n
        invariant
            i <= j <= n,
            n == s@.len(),
            sp_ident_end(s@, i as nat) == sp_ident_end(s@, j as nat),
        decreases n - j,
    {
        let c = s.get_char(j);
        if (c >= 'a' && c <= 'z') || (c >= 'A' && c <= 'Z') || (c >= '0' && c <= '9') || c == '_' {
            j = j + 1;
        } else {
            return j;
        }
    }
    j
}

fn p_str_end(s: &str, i: usize) -> (r: Option<usize>)
    requires
        i <= s@.len(),
    ensures
        match (r, sp_str_end(s@, i as nat)) {
            (Some(j), Some(js)) => j == js && i <= j < s@.len(),
            (None, None) => true,
            _ => false,
        },
{
    let n = s.unicode_len();
    let mut j = i;
    while j < n
        invariant
            i <= j <= n,
            n == s@.len(),
            sp_str_end(s@, i as nat) == sp_str_end(s@, j as nat),
        decreases n - j,
    {
        if s.get_char(j) == '"' {
            return Some(j);
        }
        j = j + 1;
    }
    None
}

fn p_number(s: &str, i: usize) -> (r: Option<(Expression, usize)>)
    requires
        i <= s@.len(),
    ensures
        expr_outcome_matches(r, sp_number(s@, i as nat), s@),
{
    let n = s.unicode_len();
    if i < n {
        let c0 = s.get_char(i);
        if c0 >= '0' && c0 <= '9' {
            match p_digits(s, i + 1, (c0 as u32) as u64 - 48) {
                None => {
                    return None;
                },
                Some((val, j)) => {
                    if j < n && s.get_char(j) == '.' && j + 1 < n {
                        let c1 = s.get_char(j + 1);
                        if c1 >= '0' && c1 <= '9' {
                            match p_frac(s, j + 1, val, 0) {
                                None => {
                                    return None;
                                },
                                Some((m, sc, k)) => {
                                    return Some(
                                        (Expression::CReal(real_from_decimal(m as i64, sc)), k),
                                    );
                                },
                            }
                        }
                    }
                    return Some((Expression::CInt(val as i64), j));
                },
            }
        }
    }
    None
}

fn p_ident(s: &str, i: usize) -> (r: Option<(String, usize)>)
    requires
        i <= s@.len(),
    ensures
        match (r, sp_ident(s@, i as nat)) {
            (Some((nm, j)), Some((ns, js))) => nm@ == ns && j == js && j <= s@.len(),
            (None, None) => true,
            _ => false,
        },
{
    let n = s.unicode_len();
    if i < n {
        let c0 = s.get_char(i);
        if (c0 >= 'a' && c0 <= 'z') || (c0 >= 'A' && c0 <= 'Z') || c0 == '_' {
            let j = p_ident_end(s, i + 1);
            let name = String::from_str(s.substring_char(i, j));
            return Some((name, j));
        }
    }
    None
}

/// Whether a parsed name is one of the grammar's reserved words.
fn p_keyword(name: &str) -> (r: bool)
    ensures
        r == is_keyword(name@),
{
    crate::env::str_eq(name, "if") || crate::env::str_eq(name, "else") || crate::env::str_eq(
        name,
        "while",
    ) || crate::env::str_eq(name, "def") || crate::env::str_eq(name, "return")
        || crate::env::str_eq(name, "True") || crate::env::str_eq(name, "False")
}

#[verifier::rlimit(100)]
fn p_atom(s: &str, i: usize, fuel: u64) -> (r: Option<(Expression, usize)>)
    requires
        i <= s@.len(),
        s@.len() <= MAX_INPUT,
    ensures
        expr_outcome_matches(r, sp_atom(s@, i as nat, fuel as nat), s@),
    decreases fuel,
{
    if fuel == 0 {
        return None;
    }
    let f = fuel - 1;
    let n = s.unicode_len();
    let p = p_ws(s, i);
    if p < n && s.get_char(p) == '(' {
        match p_expr(s, p + 1, f) {
            None => None,
            Some((e, j)) => {
                let j2 = p_ws(s, j);
                if j2 < n && s.get_char(j2) == ')' {
                    Some((e, j2 + 1))
                } else {
                    None
                }
            },
        }
    } else if p < n && s.get_char(p) == '"' {
        match p_str_end(s, p + 1) {
            None => None,
            Some(q) => {
                let lit = String::from_str(s.substring_char(p + 1, q));
                Some((Expression::CString(lit), q + 1))
            },
        }
    } else if p < n && {
        let c = s.get_char(p);
        c >= '0' && c <= '9'
    } {
        p_number(s, p)
    } else {
        match p_ident(s, p) {
            None => None,
            Some((name, j)) => {
                if crate::env::str_eq(name.as_str(), "True") {
                    Some((Expression::CTrue, j))
                } else if crate::env::str_eq(name.as_str(), "False") {
                    Some((Expression::CFalse, j))
                } else if p_keyword(name.as_str()) {
                    None
                } else {
                    let j2 = p_ws(s, j);
                    if j2 < n && s.get_char(j2) == '(' {
                        match p_args(s, j2 + 1, f) {
                            None => None,
                            Some((args, j3)) => Some((Expression::FuncCall(name, args), j3)),
                        }
                    } else {
                        Some((Expression::Var(name), j))
                    }
                }
            },
        }
    }
}

fn p_args(s: &str, i: usize, fuel: u64) -> (r: Option<(Vec<Expression>, usize)>)
    requires
        i <= s@.len(),
        s@.len() <= MAX_INPUT,
    ensures
        match (r, sp_args(s@, i as nat, fuel as nat)) {
            (Some((v, j)), Some((sv, js))) => exprs_v(v@) == sv && exprs_wf(v@) && j == js && j
                <= s@.len(),
            (None, None) => true,
            _ => false,
        },
    decreases fuel,
{
    if fuel == 0 {
        return None;
    }
    let n = s.unicode_len();
    let p = p_ws(s, i);
    if p < n && s.get_char(p) == ')' {
        let out: Vec<Expression> = Vec::new();
        proof {
            assert(exprs_v(out@) =~= Seq::<ExprV>::empty());
        }
        Some((out, p + 1))
    } else {
        let acc: Vec<Expression> = Vec::new();
        proof {
            assert(exprs_v(acc@) =~= Seq::<ExprV>::empty());
        }
        p_args_loop(s, p, acc, fuel - 1)
    }
}

fn p_args_loop(s: &str, i: usize, acc: Vec<Expression>, fuel: u64) -> (r: Option<
    (Vec<Expression>, usize),
>)
    requires
        i <= s@.len(),
        s@.len() <= MAX_INPUT,
        exprs_wf(acc@),
    ensures
        match (r, sp_args_loop(s@, i as nat, exprs_v(acc@), fuel as nat)) {
            (Some((v, j)), Some((sv, js))) => exprs_v(v@) == sv && exprs_wf(v@) && j == js && j
                <= s@.len(),
            (None, None) => true,
            _ => false,
        },
    decreases fuel,
{
    if fuel == 0 {
        return None;
    }
    let f = fuel - 1;
    let n = s.unicode_len();
    match p_expr(s, i, f) {
        None => None,
        Some((e, j)) => {
            let j2 = p_ws(s, j);
            proof {
                lemma_exprs_v_push(acc@, e);
                lemma_exprs_wf_push(acc@, e);
            }
            let mut acc2 = acc;
            acc2.push(e);
            if j2 < n && s.get_char(j2) == ',' {
                p_args_loop(s, j2 + 1, acc2, f)
            } else if j2 < n && s.get_char(j2) == ')' {
                Some((acc2, j2 + 1))
            } else {
                None
            }
        },
    }
}

fn p_unary(s: &str, i: usize, fuel: u64) -> (r: Option<(Expression, usize)>)
    requires
        i <= s@.len(),
        s@.len() <= MAX_INPUT,
    ensures
        expr_outcome_matches(r, sp_unary(s@, i as nat, fuel as nat), s@),
    decreases fuel,
{
    if fuel == 0 {
        return None;
    }
    let f = fuel - 1;
    let n = s.unicode_len();
    let p = p_ws(s, i);
    if p < n && s.get_char(p) == '-' {
        match p_unary(s, p + 1, f) {
            None => None,
            Some((e, j)) => Some((Expression::Neg(Box::new(e)), j)),
        }
    } else {
        p_atom(s, i, f)
    }
}

fn p_mul(s: &str, i: usize, fuel: u64) -> (r: Option<(Expression, usize)>)
    requires
        i <= s@.len(),
        s@.len() <= MAX_INPUT,
    ensures
        expr_outcome_matches(r, sp_mul(s@, i as nat, fuel as nat), s@),
    decreases fuel,
{
    if fuel == 0 {
        return None;
    }
    let f = fuel - 1;
    match p_unary(s, i, f) {
        None => None,
        Some((e, j)) => p_mul_loop(s, e, j, f),
    }
}

fn p_mul_loop(s: &str, acc: Expression, j: usize, fuel: u64) -> (r: Option<(Expression, usize)>)
    requires
        j <= s@.len(),
        s@.len() <= MAX_INPUT,
        expr_wf(acc),
    ensures
        expr_outcome_matches(r, sp_mul_loop(s@, expr_v(acc), j as nat, fuel as nat), s@),
    decreases fuel,
{
    if fuel == 0 {
        return None;
    }
    let f = fuel - 1;
    let n = s.unicode_len();
    let p = p_ws(s, j);
    if p < n && (s.get_char(p) == '*' || s.get_char(p) == '/') {
        let mul_op = s.get_char(p) == '*';
        match p_unary(s, p + 1, f) {
            None => Some((acc, j)),
            Some((e2, j2)) => {
                if mul_op {
                    p_mul_loop(s, Expression::Mul(Box::new(acc), Box::new(e2)), j2, f)
                } else {
                    p_mul_loop(s, Expression::Div(Box::new(acc), Box::new(e2)), j2, f)
                }
            },
        }
    } else {
        Some((acc, j))
    }
}

fn p_add(s: &str, i: usize, fuel: u64) -> (r: Option<(Expression, usize)>)
    requires
        i <= s@.len(),
        s@.len() <= MAX_INPUT,
    ensures
        expr_outcome_matches(r, sp_add(s@, i as nat, fuel as nat), s@),
    decreases fuel,
{
    if fuel == 0 {
        return None;
    }
    let f = fuel - 1;
    match p_mul(s, i, f) {
        None => None,
        Some((e, j)) => p_add_loop(s, e, j, f),
    }
}

fn p_add_loop(s: &str, acc: Expression, j: usize, fuel: u64) -> (r: Option<(Expression, usize)>)
    requires
        j <= s@.len(),
        s@.len() <= MAX_INPUT,
        expr_wf(acc),
    ensures
        expr_outcome_matches(r, sp_add_loop(s@, expr_v(acc), j as nat, fuel as nat), s@),
    decreases fuel,
{
    if fuel == 0 {
        return None;
    }
    let f = fuel - 1;
    let n = s.unicode_len();
    let p = p_ws(s, j);
    if p < n && (s.get_char(p) == '+' || s.get_char(p) == '-') {
        let add_op = s.get_char(p) == '+';
        match p_mul(s, p + 1, f) {
            None => Some((acc, j)),
            Some((e2, j2)) => {
                if add_op {
                    p_add_loop(s, Expression::Add(Box::new(acc), Box::new(e2)), j2, f)
                } else {
                    p_add_loop(s, Expression::Sub(Box::new(acc), Box::new(e2)), j2, f)
                }
            },
        }
    } else {
        Some((acc, j))
    }
}

fn p_expr(s: &str, i: usize, fuel: u64) -> (r: Option<(Expression, usize)>)
    requires
        i <= s@.len(),
        s@.len() <= MAX_INPUT,
    ensures
        expr_outcome_matches(r, sp_expr(s@, i as nat, fuel as nat), s@),
    decreases fuel,
{
    if fuel == 0 {
        return None;
    }
    let f = fuel - 1;
    let n = s.unicode_len();
    match p_add(s, i, f) {
        None => None,
        Some((e, j)) => {
            let p = p_ws(s, j);
            if p < n && p + 1 < n && s.get_char(p) == '=' && s.get_char(p + 1) == '=' {
                match p_add(s, p + 2, f) {
                    None => Some((e, j)),
                    Some((e2, j2)) => Some((Expression::EQ(Box::new(e), Box::new(e2)), j2)),
                }
            } else if p < n && p + 1 < n && s.get_char(p) == '!' && s.get_char(p + 1) == '=' {
                match p_add(s, p + 2, f) {
                    None => Some((e, j)),
                    Some((e2, j2)) => Some((Expression::NEQ(Box::new(e), Box::new(e2)), j2)),
                }
            } else if p < n && p + 1 < n && s.get_char(p) == '>' && s.get_char(p + 1) == '=' {
                match p_add(s, p + 2, f) {
                    None => Some((e, j)),
                    Some((e2, j2)) => Some((Expression::GTE(Box::new(e), Box::new(e2)), j2)),
                }
            } else if p < n && p + 1 < n && s.get_char(p) == '<' && s.get_char(p + 1) == '=' {
                match p_add(s, p + 2, f) {
                    None => Some((e, j)),
                    Some((e2, j2)) => Some((Expression::LTE(Box::new(e), Box::new(e2)), j2)),
                }
            } else if p < n && s.get_char(p) == '>' {
                match p_add(s, p + 1, f) {
                    None => Some((e, j)),
                    Some((e2, j2)) => Some((Expression::GT(Box::new(e), Box::new(e2)), j2)),
                }
            } else if p < n && s.get_char(p) == '<' {
                match p_add(s, p + 1, f) {
                    None => Some((e, j)),
                    Some((e2, j2)) => Some((Expression::LT(Box::new(e), Box::new(e2)), j2)),
                }
            } else {
                Some((e, j))
            }
        },
    }
}

fn p_type(s: &str, i: usize) -> (r: Option<(Type, usize)>)
    requires
        i <= s@.len(),
    ensures
        match (r, sp_type(s@, i as nat)) {
            (Some((t, j)), Some((ts, js))) => t == ts && j == js && j <= s@.len(),
            (None, None) => true,
            _ => false,
        },
{
    let p = p_ws(s, i);
    match p_ident(s, p) {
        None => None,
        Some((n, j)) => {
            if crate::env::str_eq(n.as_str(), "Integer") {
                Some((Type::TInteger, j))
            } else if crate::env::str_eq(n.as_str(), "Real") {
                Some((Type::TReal, j))
            } else if crate::env::str_eq(n.as_str(), "Boolean") {
                Some((Type::TBool, j))
            } else if crate::env::str_eq(n.as_str(), "String") {
                Some((Type::TString, j))
            } else {
                None
            }
        },
    }
}

fn p_params(s: &str, i: usize, fuel: u64) -> (r: Option<(Vec<(String, Type)>, usize)>)
    requires
        i <= s@.len(),
        s@.len() <= MAX_INPUT,
    ensures
        match (r, sp_params(s@, i as nat, fuel as nat)) {
            (Some((v, j)), Some((sv, js))) => params_v(v@) == sv && j == js && j <= s@.len(),
            (None, None) => true,
            _ => false,
        },
    decreases fuel,
{
    if fuel == 0 {
        return None;
    }
    let n = s.unicode_len();
    let p = p_ws(s, i);
    if p < n && s.get_char(p) == ')' {
        let out: Vec<(String, Type)> = Vec::new();
        proof {
            assert(params_v(out@) =~= Seq::<(Seq<char>, Type)>::empty());
        }
        Some((out, p + 1))
    } else {
        let acc: Vec<(String, Type)> = Vec::new();
        proof {
            assert(params_v(acc@) =~= Seq::<(Seq<char>, Type)>::empty());
        }
        p_params_loop(s, p, acc, fuel - 1)
    }
}

fn p_params_loop(s: &str, i: usize, acc: Vec<(String, Type)>, fuel: u64) -> (r: Option<
    (Vec<(String, Type)>, usize),
>)
    requires
        i <= s@.len(),
        s@.len() <= MAX_INPUT,
    ensures
        match (r, sp_params_loop(s@, i as nat, params_v(acc@), fuel as nat)) {
            (Some((v, j)), Some((sv, js))) => params_v(v@) == sv && j == js && j <= s@.len(),
            (None, None) => true,
            _ => false,
        },
    decreases fuel,
{
    if fuel == 0 {
        return None;
    }
    let f = fuel - 1;
    let n = s.unicode_len();
    let p = p_ws(s, i);
    match p_ident(s, p) {
        None => None,
        Some((nm, j)) => {
            if p_keyword(nm.as_str()) {
                None
            } else {
                let j2 = p_ws(s, j);
                if j2 < n && s.get_char(j2) == ':' {
                    match p_type(s, j2 + 1) {
                        None => None,
                        Some((t, j3)) => {
                            let j4 = p_ws(s, j3);
                            proof {
                                lemma_params_v_push(acc@, (nm, t));
                            }
                            let mut acc2 = acc;
                            acc2.push((nm, t));
                            if j4 < n && s.get_char(j4) == ',' {
                                p_params_loop(s, j4 + 1, acc2, f)
                            } else if j4 < n && s.get_char(j4) == ')' {
                                Some((acc2, j4 + 1))
                            } else {
                                None
                            }
                        },
                    }
                } else {
                    None
                }
            }
        },
    }
}

fn p_block(s: &str, i: usize, fuel: u64) -> (r: Option<(Vec<Statement>, usize)>)
    requires
        i <= s@.len(),
        s@.len() <= MAX_INPUT,
    ensures
        match (r, sp_block(s@, i as nat, fuel as nat)) {
            (Some((v, j)), Some((sv, js))) => stmts_v(v@) == sv && stmts_wf(v@) && j == js && j
                <= s@.len(),
            (None, None) => true,
            _ => false,
        },
    decreases fuel,
{
    if fuel == 0 {
        return None;
    }
    let n = s.unicode_len();
    let p = p_ws(s, i);
    if p < n && s.get_char(p) == '{' {
        let q = p_ws(s, p + 1);
        if q < n && s.get_char(q) == '}' {
            let out: Vec<Statement> = Vec::new();
            proof {
                assert(stmts_v(out@) =~= Seq::<StmtV>::empty());
            }
            Some((out, q + 1))
        } else {
            let acc: Vec<Statement> = Vec::new();
            proof {
                assert(stmts_v(acc@) =~= Seq::<StmtV>::empty());
            }
            p_block_loop(s, p + 1, acc, fuel - 1)
        }
    } else {
        None
    }
}

fn p_block_loop(s: &str, i: usize, acc: Vec<Statement>, fuel: u64) -> (r: Option<
    (Vec<Statement>, usize),
>)
    requires
        i <= s@.len(),
        s@.len() <= MAX_INPUT,
        stmts_wf(acc@),
    ensures
        match (r, sp_block_loop(s@, i as nat, stmts_v(acc@), fuel as nat)) {
            (Some((v, j)), Some((sv, js))) => stmts_v(v@) == sv && stmts_wf(v@) && j == js && j
                <= s@.len(),
            (None, None) => true,
            _ => false,
        },
    decreases fuel,
{
    if fuel == 0 {
        return None;
    }
    let f = fuel - 1;
    let n = s.unicode_len();
    match p_stmt(s, i, f) {
        None => None,
        Some((st, j)) => {
            let p = p_ws(s, j);
            proof {
                lemma_stmts_v_push(acc@, st);
                lemma_stmts_wf_push(acc@, st);
            }
            let mut acc2 = acc;
            acc2.push(st);
            if p < n && s.get_char(p) == ';' {
                let q = p_ws(s, p + 1);
                if q < n && s.get_char(q) == '}' {
                    Some((acc2, q + 1))
                } else {
                    p_block_loop(s, p + 1, acc2, f)
                }
            } else if p < n && s.get_char(p) == '}' {
                Some((acc2, p + 1))
            } else {
                None
            }
        },
    }
}

#[verifier::rlimit(100)]
fn p_stmt(s: &str, i: usize, fuel: u64) -> (r: Option<(Statement, usize)>)
    requires
        i <= s@.len(),
        s@.len() <= MAX_INPUT,
    ensures
        stmt_outcome_matches(r, sp_stmt(s@, i as nat, fuel as nat), s@),
    decreases fuel,
{
    if fuel == 0 {
        return None;
    }
    let f = fuel - 1;
    let n = s.unicode_len();
    let p = p_ws(s, i);
    match p_ident(s, p) {
        None => None,
        Some((name, j)) => {
            if crate::env::str_eq(name.as_str(), "return") {
                match p_expr(s, j, f) {
                    None => None,
                    Some((e, j2)) => Some((Statement::Return(Box::new(e)), j2)),
                }
            } else if crate::env::str_eq(name.as_str(), "if") {
                match p_expr(s, j, f) {
                    None => None,
                    Some((c, j2)) => match p_block(s, j2, f) {
                        None => None,
                        Some((thn, j3)) => {
                            let p2 = p_ws(s, j3);
                            match p_ident(s, p2) {
                                Some((w, j4)) => {
                                    if crate::env::str_eq(w.as_str(), "else") {
                                        match p_block(s, j4, f) {
                                            None => None,
                                            Some((els, j5)) => Some(
                                                (
                                                    Statement::IfThenElse(Box::new(c), thn, els),
                                                    j5,
                                                ),
                                            ),
                                        }
                                    } else {
                                        let els: Vec<Statement> = Vec::new();
                                        proof {
                                            assert(stmts_v(els@) =~= Seq::<StmtV>::empty());
                                        }
                                        Some((Statement::IfThenElse(Box::new(c), thn, els), j3))
                                    }
                                },
                                None => {
                                    let els: Vec<Statement> = Vec::new();
                                    proof {
                                        assert(stmts_v(els@) =~= Seq::<StmtV>::empty());
                                    }
                                    Some((Statement::IfThenElse(Box::new(c), thn, els), j3))
                                },
                            }
                        },
                    },
                }
            } else if crate::env::str_eq(name.as_str(), "while") {
                match p_expr(s, j, f) {
                    None => None,
                    Some((c, j2)) => match p_block(s, j2, f) {
                        None => None,
                        Some((b, j3)) => Some((Statement::While(Box::new(c), b), j3)),
                    },
                }
            } else if crate::env::str_eq(name.as_str(), "def") {
                let p2 = p_ws(s, j);
                match p_ident(s, p2) {
                    None => None,
                    Some((fname, j2)) => {
                        if p_keyword(fname.as_str()) {
                            None
                        } else {
                            let p3 = p_ws(s, j2);
                            if p3 < n && s.get_char(p3) == '(' {
                                match p_params(s, p3 + 1, f) {
                                    None => None,
                                    Some((ps, j3)) => {
                                        let p4 = p_ws(s, j3);
                                        if p4 < n && p4 + 1 < n && s.get_char(p4) == '-'
                                            && s.get_char(p4 + 1) == '>' {
                                            match p_type(s, p4 + 2) {
                                                None => None,
                                                Some((rt, j4)) => match p_block(s, j4, f) {
                                                    None => None,
                                                    Some((body, j5)) => {
                                                        let fv = Function {
                                                            params: Rc::new(ps),
                                                            ret: rt,
                                                            body: Rc::new(body),
                                                        };
                                                        Some((Statement::FuncDecl(fname, fv), j5))
                                                    },
                                                },
                                            }
                                        } else {
                                            None
                                        }
                                    },
                                }
                            } else {
                                None
                            }
                        }
                    },
                }
            } else if p_keyword(name.as_str()) {
                None
            } else {
                let j2 = p_ws(s, j);
                if j2 < n && s.get_char(j2) == '=' && !(j2 + 1 < n && s.get_char(j2 + 1) == '=') {
                    match p_expr(s, j2 + 1, f) {
                        None => None,
                        Some((e, j3)) => Some((Statement::Assignment(name, Box::new(e)), j3)),
                    }
                } else {
                    None
                }
            }
        },
    }
}

fn p_stmts(s: &str, i: usize, acc: Vec<Statement>, fuel: u64) -> (r: Option<Vec<Statement>>)
    requires
        i <= s@.len(),
        s@.len() <= MAX_INPUT,
        stmts_wf(acc@),
    ensures
        match (r, sp_stmts(s@, i as nat, stmts_v(acc@), fuel as nat)) {
            (Some(v), Some(sv)) => stmts_v(v@) == sv && stmts_wf(v@),
            (None, None) => true,
            _ => false,
        },
    decreases fuel,
{
    if fuel == 0 {
        return None;
    }
    let f = fuel - 1;
    let n = s.unicode_len();
    match p_stmt(s, i, f) {
        None => None,
        Some((st, j)) => {
            let p = p_ws(s, j);
            proof {
                lemma_stmts_v_push(acc@, st);
                lemma_stmts_wf_push(acc@, st);
            }
            let mut acc2 = acc;
            acc2.push(st);
            if p == n {
                Some(acc2)
            } else if s.get_char(p) == ';' {
                let q = p_ws(s, p + 1);
                if q == n {
                    Some(acc2)
                } else {
                    p_stmts(s, p + 1, acc2, f)
                }
            } else {
                None
            }
        },
    }
}

/// A whole input holding exactly one expression: the tree whose shape the
/// spec-level parser assigns to the text, if it assigns one.
pub fn parse_expression(input: &str) -> (r: Option<Expression>)
    ensures
        match (r, spec_parse_expression(input@)) {
            (Some(e), Some(ev)) => expr_v(e) == ev && expr_wf(e),
            (None, None) => true,
            _ => false,
        },
{
    let n = input.unicode_len();
    if n > MAX_INPUT {
        return None;
    }
    let fuel: u64 = 16 * (n as u64) + 64;
    match p_expr(input, 0, fuel) {
        None => None,
        Some((e, j)) => {
            if p_ws(input, j) == n {
                Some(e)
            } else {
                None
            }
        },
    }
}

/// A whole input holding statements separated by semicolons: the trees
/// whose shapes the spec-level parser assigns to the text, if it assigns
/// any.
pub fn parse_statements(input: &str) -> (r: Option<Vec<Statement>>)
    ensures
        match (r, spec_parse_statements(input@)) {
            (Some(v), Some(sv)) => stmts_v(v@) == sv && stmts_wf(v@),
            (None, None) => true,
            _ => false,
        },
{
    let n = input.unicode_len();
    if n > MAX_INPUT {
        return None;
    }
    let fuel: u64 = 16 * (n as u64) + 64;
    let acc: Vec<Statement> = Vec::new();
    proof {
        assert(stmts_v(acc@) =~= Seq::<StmtV>::empty());
        assert(stmts_wf(acc@));
    }
    p_stmts(input, 0, acc, fuel)
}

} // verus!
