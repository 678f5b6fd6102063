use vstd::prelude::*;

verus! {

use vstd::string::StringSliceAdditionalSpecFns;
use vstd::string::StringExecFns;

use crate::ast::{BinOpRef, CmpOpRef, TypeRef, Lit, Expr, Stmt, Parameter, Function, GlobalConst,
    Program};
use crate::ast::{SpecExpr, SpecStmt, SpecParameter, SpecFunction, SpecGlobalConst, SpecProgram};
use crate::ast::{expr_view, stmt_view, stmts_view, param_view, params_view, fn_view, global_view,
    program_view};
use crate::ast::{lemma_stmts_view_push, lemma_stmts_view_add};
use crate::lex::{Tok, SpecTok, LexIssue, lex_msg, line_of, col_of, spec_lex, lex_all, char_string};

/// A parse failure: a message naming what was expected and what stood there.
#[derive(Debug)]
pub struct ParseError(pub String);

// ----- cursor primitives over a token sequence -----

/// The token at position `i`; the end marker when `i` is out of range.
pub open spec fn tok_at(t: Seq<SpecTok>, i: int) -> SpecTok {
    if 0 <= i && i < t.len() {
        t[i]
    } else {
        SpecTok::Eof
    }
}

/// The cursor after consuming the token at `i`: it never passes the end.
pub open spec fn nxt(t: Seq<SpecTok>, i: int) -> int {
    if 0 <= i && i < t.len() {
        i + 1
    } else {
        i
    }
}

// ----- failure messages -----

/// The display name of a token kind.
pub open spec fn tok_name(t: SpecTok) -> Seq<char> {
    match t {
        SpecTok::Int => "Int"@,
        SpecTok::Unsigned => "Unsigned"@,
        SpecTok::Void => "Void"@,
        SpecTok::Const => "Const"@,
        SpecTok::Return => "Return"@,
        SpecTok::If => "If"@,
        SpecTok::Else => "Else"@,
        SpecTok::While => "While"@,
        SpecTok::Break => "Break"@,
        SpecTok::Continue => "Continue"@,
        SpecTok::True => "True"@,
        SpecTok::False => "False"@,
        SpecTok::Ident(_) => "Ident"@,
        SpecTok::IntLit(_) => "IntLit"@,
        SpecTok::LParen => "LParen"@,
        SpecTok::RParen => "RParen"@,
        SpecTok::LBrace => "LBrace"@,
        SpecTok::RBrace => "RBrace"@,
        SpecTok::Semi => "Semi"@,
        SpecTok::Comma => "Comma"@,
        SpecTok::Assign => "Assign"@,
        SpecTok::EqEq => "EqEq"@,
        SpecTok::NotEq => "NotEq"@,
        SpecTok::Lt => "Lt"@,
        SpecTok::Le => "Le"@,
        SpecTok::Gt => "Gt"@,
        SpecTok::Ge => "Ge"@,
        SpecTok::Plus => "Plus"@,
        SpecTok::Minus => "Minus"@,
        SpecTok::Star => "Star"@,
        SpecTok::Eof => "Eof"@,
    }
}

pub open spec fn expected_msg(want: SpecTok, got: SpecTok) -> Seq<char> {
    "expected "@ + tok_name(want) + ", got "@ + tok_name(got)
}

pub open spec fn expected_ident_msg(got: SpecTok) -> Seq<char> {
    "expected "@ + "identifier"@ + ", got "@ + tok_name(got)
}

pub open spec fn expected_type_msg(got: SpecTok) -> Seq<char> {
    "expected "@ + "type"@ + ", got "@ + tok_name(got)
}

pub open spec fn expected_primary_msg(got: SpecTok) -> Seq<char> {
    "expected "@ + "primary"@ + ", got "@ + tok_name(got)
}

// ----- small steps shared by the productions -----

/// Consume exactly `want`, or fail naming it and the token found.
pub open spec fn sp_expect(t: Seq<SpecTok>, i: int, want: SpecTok) -> Result<int, Seq<char>> {
    let got = tok_at(t, i);
    if got == want {
        Ok(nxt(t, i))
    } else {
        Err(expected_msg(want, got))
    }
}

/// Consume an identifier and yield its text.
pub open spec fn sp_expect_ident(t: Seq<SpecTok>, i: int) -> Result<(Seq<char>, int), Seq<char>> {
    match tok_at(t, i) {
        SpecTok::Ident(name) => Ok((name, nxt(t, i))),
        g => Err(expected_ident_msg(g)),
    }
}

/// `Type := 'unsigned'? ('int' | 'void')`. An `unsigned` prefix clears the
/// signedness of an integer type and is ignored by `void`.
pub open spec fn sp_type(t: Seq<SpecTok>, i: int) -> Result<(TypeRef, int), Seq<char>> {
    let (signed, j) = if tok_at(t, i) is Unsigned {
        (false, nxt(t, i))
    } else {
        (true, i)
    };
    match tok_at(t, j) {
        SpecTok::Int => Ok((TypeRef::Int { bits: 32, signed }, nxt(t, j))),
        SpecTok::Void => Ok((TypeRef::Void, nxt(t, j))),
        g => Err(expected_type_msg(g)),
    }
}

/// The integer literal expression the parser builds for a literal value.
pub open spec fn sp_lit_i32(v: i128) -> SpecExpr {
    SpecExpr::Lit(Lit::Int { bits: 32, signed: true, value: v })
}

/// Boolean coercion of a controlling expression: comparisons and boolean
/// literals stand as they are; anything else becomes `e != 0`.
pub open spec fn sp_ensure_bool(e: SpecExpr) -> SpecExpr {
    match e {
        SpecExpr::Cmp { .. } => e,
        SpecExpr::Lit(Lit::Bool(_)) => e,
        _ => SpecExpr::Cmp {
            left: Box::new(e),
            op: CmpOpRef::Ne,
            right: Box::new(sp_lit_i32(0)),
        },
    }
}

// ----- expressions -----
//
// One production per function, by rank below the cursor's remaining length;
// the `i < k <= t.len()` tests around in-group calls carry the termination
// measure and are never taken on a reachable path, since every successful
// sub-parse moves the cursor forward.

/// `Primary := IntLit | Ident | 'true' | 'false' | '(' Expr ')'`.
pub open spec fn sp_primary(t: Seq<SpecTok>, i: int) -> Result<(SpecExpr, int), Seq<char>>
    decreases t.len() - i, 0int,
{
    match tok_at(t, i) {
        SpecTok::IntLit(v) => Ok((sp_lit_i32(v), nxt(t, i))),
        SpecTok::Ident(name) => Ok((SpecExpr::Var(name), nxt(t, i))),
        SpecTok::True => Ok((SpecExpr::Lit(Lit::Bool(true)), nxt(t, i))),
        SpecTok::False => Ok((SpecExpr::Lit(Lit::Bool(false)), nxt(t, i))),
        SpecTok::LParen => match sp_expr(t, i + 1) {
            Err(m) => Err(m),
            Ok((e, j)) => match sp_expect(t, j, SpecTok::RParen) {
                Err(m) => Err(m),
                Ok(k) => Ok((e, k)),
            },
        },
        g => Err(expected_primary_msg(g)),
    }
}

/// `Mul := Primary ('*' Primary)*`, left-associative.
pub open spec fn sp_mul(t: Seq<SpecTok>, i: int) -> Result<(SpecExpr, int), Seq<char>>
    decreases t.len() - i, 2int,
{
    match sp_primary(t, i) {
        Err(m) => Err(m),
        Ok((e, j)) => {
            if i <= j && j <= t.len() {
                sp_mul_tail(t, j, e)
            } else {
                Err(Seq::empty())
            }
        },
    }
}

pub open spec fn sp_mul_tail(t: Seq<SpecTok>, i: int, acc: SpecExpr) -> Result<
    (SpecExpr, int),
    Seq<char>,
>
    decreases t.len() - i, 1int,
{
    if tok_at(t, i) is Star {
        match sp_primary(t, i + 1) {
            Err(m) => Err(m),
            Ok((r, j)) => {
                if i < j && j <= t.len() {
                    sp_mul_tail(
                        t,
                        j,
                        SpecExpr::Binary {
                            left: Box::new(acc),
                            op: BinOpRef::Mul,
                            right: Box::new(r),
                        },
                    )
                } else {
                    Err(Seq::empty())
                }
            },
        }
    } else {
        Ok((acc, i))
    }
}

/// `Add := Mul (('+' | '-') Mul)*`, left-associative.
pub open spec fn sp_add(t: Seq<SpecTok>, i: int) -> Result<(SpecExpr, int), Seq<char>>
    decreases t.len() - i, 4int,
{
    match sp_mul(t, i) {
        Err(m) => Err(m),
        Ok((e, j)) => {
            if i <= j && j <= t.len() {
                sp_add_tail(t, j, e)
            } else {
                Err(Seq::empty())
            }
        },
    }
}

pub open spec fn sp_add_tail(t: Seq<SpecTok>, i: int, acc: SpecExpr) -> Result<
    (SpecExpr, int),
    Seq<char>,
>
    decreases t.len() - i, 3int,
{
    let op = match tok_at(t, i) {
        SpecTok::Plus => Some(BinOpRef::Add),
        SpecTok::Minus => Some(BinOpRef::Sub),
        _ => None,
    };
    match op {
        Option::None => Ok((acc, i)),
        Option::Some(op) => match sp_mul(t, i + 1) {
            Err(m) => Err(m),
            Ok((r, j)) => {
                if i < j && j <= t.len() {
                    sp_add_tail(
                        t,
                        j,
                        SpecExpr::Binary { left: Box::new(acc), op, right: Box::new(r) },
                    )
                } else {
                    Err(Seq::empty())
                }
            },
        },
    }
}

/// `Cmp := Add (CmpOp Add)?`: at most one comparison per expression.
pub open spec fn sp_cmp(t: Seq<SpecTok>, i: int) -> Result<(SpecExpr, int), Seq<char>>
    decreases t.len() - i, 5int,
{
    match sp_add(t, i) {
        Err(m) => Err(m),
        Ok((l, j)) => {
            let op = match tok_at(t, j) {
                SpecTok::EqEq => Some(CmpOpRef::Eq),
                SpecTok::NotEq => Some(CmpOpRef::Ne),
                SpecTok::Lt => Some(CmpOpRef::Lt),
                SpecTok::Le => Some(CmpOpRef::Le),
                SpecTok::Gt => Some(CmpOpRef::Gt),
                SpecTok::Ge => Some(CmpOpRef::Ge),
                _ => None,
            };
            match op {
                Option::None => Ok((l, j)),
                Option::Some(op) => {
                    if i <= j && j < t.len() {
                        match sp_add(t, j + 1) {
                            Err(m) => Err(m),
                            Ok((r, k)) => Ok(
                                (SpecExpr::Cmp { left: Box::new(l), op, right: Box::new(r) }, k),
                            ),
                        }
                    } else {
                        Err(Seq::empty())
                    }
                },
            }
        },
    }
}

/// `Expr := Cmp`.
pub open spec fn sp_expr(t: Seq<SpecTok>, i: int) -> Result<(SpecExpr, int), Seq<char>>
    decreases t.len() - i, 6int,
{
    sp_cmp(t, i)
}

// ----- statements -----
//
// As with the expressions: the bound tests around in-group calls carry the
// termination measure and are never taken on a reachable path.

/// `Block := '{' Stmt* '}'`, yielding the flattened statement sequence.
pub open spec fn sp_block(t: Seq<SpecTok>, i: int) -> Result<(Seq<SpecStmt>, int), Seq<char>>
    decreases t.len() - i, 7int,
{
    match sp_expect(t, i, SpecTok::LBrace) {
        Err(m) => Err(m),
        Ok(j) => {
            if i < j && j <= t.len() {
                sp_block_items(t, j, Seq::empty())
            } else {
                Err(Seq::empty())
            }
        },
    }
}

/// One statement. A brace-delimited block counts as one statement here and
/// contributes its whole flattened sequence to the owning list.
pub open spec fn sp_stmt(t: Seq<SpecTok>, i: int) -> Result<(Seq<SpecStmt>, int), Seq<char>>
    decreases t.len() - i, 8int,
{
    match tok_at(t, i) {
        SpecTok::LBrace => sp_block(t, i),
        SpecTok::Return => {
            let j = nxt(t, i);
            if tok_at(t, j) is Semi {
                Ok((seq![SpecStmt::Return(None)], nxt(t, j)))
            } else {
                match sp_expr(t, j) {
                    Err(m) => Err(m),
                    Ok((e, k)) => match sp_expect(t, k, SpecTok::Semi) {
                        Err(m) => Err(m),
                        Ok(k2) => Ok((seq![SpecStmt::Return(Some(e))], k2)),
                    },
                }
            }
        },
        SpecTok::Const => {
            match sp_type(t, nxt(t, i)) {
                Err(m) => Err(m),
                Ok((ty, j)) => match sp_expect_ident(t, j) {
                    Err(m) => Err(m),
                    Ok((name, j2)) => match sp_expect(t, j2, SpecTok::Assign) {
                        Err(m) => Err(m),
                        Ok(j3) => match sp_expr(t, j3) {
                            Err(m) => Err(m),
                            Ok((init, j4)) => match sp_expect(t, j4, SpecTok::Semi) {
                                Err(m) => Err(m),
                                Ok(j5) => Ok((seq![SpecStmt::ConstDecl { name, ty, init }], j5)),
                            },
                        },
                    },
                },
            }
        },
        SpecTok::Int | SpecTok::Unsigned => {
            match sp_type(t, i) {
                Err(m) => Err(m),
                Ok((ty, j)) => match sp_expect_ident(t, j) {
                    Err(m) => Err(m),
                    Ok((name, j2)) => {
                        let r = if tok_at(t, j2) is Assign {
                            match sp_expr(t, nxt(t, j2)) {
                                Err(m) => Err(m),
                                Ok((e, j3)) => Ok((Some(e), j3)),
                            }
                        } else {
                            Ok((None, j2))
                        };
                        match r {
                            Err(m) => Err(m),
                            Ok((init, j3)) => match sp_expect(t, j3, SpecTok::Semi) {
                                Err(m) => Err(m),
                                Ok(j4) => Ok((seq![SpecStmt::VarDecl { name, ty, init }], j4)),
                            },
                        }
                    },
                },
            }
        },
        SpecTok::If => {
            match sp_expect(t, nxt(t, i), SpecTok::LParen) {
                Err(m) => Err(m),
                Ok(j) => match sp_expr(t, j) {
                    Err(m) => Err(m),
                    Ok((ce, j2)) => {
                        let cond = sp_ensure_bool(ce);
                        match sp_expect(t, j2, SpecTok::RParen) {
                            Err(m) => Err(m),
                            Ok(j3) => {
                                if i < j3 && j3 <= t.len() {
                                    match sp_stmt_or_block(t, j3) {
                                        Err(m) => Err(m),
                                        Ok((tb, j4)) => {
                                            if tok_at(t, j4) is Else {
                                                let j5 = nxt(t, j4);
                                                if i < j5 && j5 <= t.len() {
                                                    match sp_stmt_or_block(t, j5) {
                                                        Err(m) => Err(m),
                                                        Ok((eb, j6)) => Ok(
                                                            (
                                                                seq![
                                                                    SpecStmt::If {
                                                                        cond,
                                                                        then_body: tb,
                                                                        else_body: eb,
                                                                    },
                                                                ],
                                                                j6,
                                                            ),
                                                        ),
                                                    }
                                                } else {
                                                    Err(Seq::empty())
                                                }
                                            } else {
                                                Ok(
                                                    (
                                                        seq![
                                                            SpecStmt::If {
                                                                cond,
                                                                then_body: tb,
                                                                else_body: Seq::empty(),
                                                            },
                                                        ],
                                                        j4,
                                                    ),
                                                )
                                            }
                                        },
                                    }
                                } else {
                                    Err(Seq::empty())
                                }
                            },
                        }
                    },
                },
            }
        },
        SpecTok::While => {
            match sp_expect(t, nxt(t, i), SpecTok::LParen) {
                Err(m) => Err(m),
                Ok(j) => match sp_expr(t, j) {
                    Err(m) => Err(m),
                    Ok((ce, j2)) => {
                        let cond = sp_ensure_bool(ce);
                        match sp_expect(t, j2, SpecTok::RParen) {
                            Err(m) => Err(m),
                            Ok(j3) => {
                                if i < j3 && j3 <= t.len() {
                                    match sp_stmt_or_block(t, j3) {
                                        Err(m) => Err(m),
                                        Ok((body, j4)) => Ok(
                                            (seq![SpecStmt::While { cond, body }], j4),
                                        ),
                                    }
                                } else {
                                    Err(Seq::empty())
                                }
                            },
                        }
                    },
                },
            }
        },
        SpecTok::Break => {
            match sp_expect(t, nxt(t, i), SpecTok::Semi) {
                Err(m) => Err(m),
                Ok(j) => Ok((seq![SpecStmt::Break], j)),
            }
        },
        SpecTok::Continue => {
            match sp_expect(t, nxt(t, i), SpecTok::Semi) {
                Err(m) => Err(m),
                Ok(j) => Ok((seq![SpecStmt::Continue], j)),
            }
        },
        SpecTok::Ident(name) => {
            if tok_at(t, i + 1) is Assign {
                // the two-token lookahead commits to an assignment
                match sp_expr(t, nxt(t, nxt(t, i))) {
                    Err(m) => Err(m),
                    Ok((value, j)) => match sp_expect(t, j, SpecTok::Semi) {
                        Err(m) => Err(m),
                        Ok(j2) => Ok((seq![SpecStmt::Assign { name, value }], j2)),
                    },
                }
            } else {
                match sp_expr(t, i) {
                    Err(m) => Err(m),
                    Ok((e, j)) => match sp_expect(t, j, SpecTok::Semi) {
                        Err(m) => Err(m),
                        Ok(j2) => Ok((seq![SpecStmt::ExprStmt(e)], j2)),
                    },
                }
            }
        },
        _ => {
            match sp_expr(t, i) {
                Err(m) => Err(m),
                Ok((e, j)) => match sp_expect(t, j, SpecTok::Semi) {
                    Err(m) => Err(m),
                    Ok(j2) => Ok((seq![SpecStmt::ExprStmt(e)], j2)),
                },
            }
        },
    }
}

/// `StmtOrBlock := Block | Stmt`: a bare statement becomes its own sequence.
pub open spec fn sp_stmt_or_block(t: Seq<SpecTok>, i: int) -> Result<
    (Seq<SpecStmt>, int),
    Seq<char>,
>
    decreases t.len() - i, 9int,
{
    if tok_at(t, i) is LBrace {
        sp_block(t, i)
    } else {
        sp_stmt(t, i)
    }
}

/// The statements of a block up to its closing brace, flattened onto `acc`.
pub open spec fn sp_block_items(t: Seq<SpecTok>, i: int, acc: Seq<SpecStmt>) -> Result<
    (Seq<SpecStmt>, int),
    Seq<char>,
>
    decreases t.len() - i, 10int,
{
    if tok_at(t, i) is RBrace {
        Ok((acc, nxt(t, i)))
    } else {
        match sp_stmt(t, i) {
            Err(m) => Err(m),
            Ok((ss, j)) => {
                if i < j && j <= t.len() {
                    sp_block_items(t, j, acc + ss)
                } else {
                    Err(Seq::empty())
                }
            },
        }
    }
}

// ----- declarations and the whole unit -----

/// `Param (',' Param)*`, accumulated left to right.
pub open spec fn sp_params_tail(t: Seq<SpecTok>, i: int, acc: Seq<SpecParameter>) -> Result<
    (Seq<SpecParameter>, int),
    Seq<char>,
>
    decreases t.len() - i,
{
    match sp_type(t, i) {
        Err(m) => Err(m),
        Ok((ty, j)) => match sp_expect_ident(t, j) {
            Err(m) => Err(m),
            Ok((name, j2)) => {
                let acc2 = acc.push(SpecParameter { name, ty });
                if tok_at(t, j2) is Comma {
                    let k = nxt(t, j2);
                    if i < k && k <= t.len() {
                        sp_params_tail(t, k, acc2)
                    } else {
                        Err(Seq::empty())
                    }
                } else {
                    Ok((acc2, j2))
                }
            },
        },
    }
}

/// `Function := Type Ident '(' Params? ')' Block`.
pub open spec fn sp_function(t: Seq<SpecTok>, i: int) -> Result<(SpecFunction, int), Seq<char>> {
    match sp_type(t, i) {
        Err(m) => Err(m),
        Ok((return_type, j)) => match sp_expect_ident(t, j) {
            Err(m) => Err(m),
            Ok((name, j2)) => match sp_expect(t, j2, SpecTok::LParen) {
                Err(m) => Err(m),
                Ok(j3) => {
                    let pr = if tok_at(t, j3) is RParen {
                        Ok((Seq::<SpecParameter>::empty(), j3))
                    } else {
                        sp_params_tail(t, j3, Seq::empty())
                    };
                    match pr {
                        Err(m) => Err(m),
                        Ok((parameters, j4)) => match sp_expect(t, j4, SpecTok::RParen) {
                            Err(m) => Err(m),
                            Ok(j5) => match sp_block(t, j5) {
                                Err(m) => Err(m),
                                Ok((body, j6)) => Ok(
                                    (SpecFunction { name, parameters, return_type, body }, j6),
                                ),
                            },
                        },
                    }
                },
            },
        },
    }
}

/// `GlobalConst := 'const' Type Ident '=' Expr ';'`.
pub open spec fn sp_global_const(t: Seq<SpecTok>, i: int) -> Result<
    (SpecGlobalConst, int),
    Seq<char>,
> {
    match sp_expect(t, i, SpecTok::Const) {
        Err(m) => Err(m),
        Ok(j) => match sp_type(t, j) {
            Err(m) => Err(m),
            Ok((ty, j2)) => match sp_expect_ident(t, j2) {
                Err(m) => Err(m),
                Ok((name, j3)) => match sp_expect(t, j3, SpecTok::Assign) {
                    Err(m) => Err(m),
                    Ok(j4) => match sp_expr(t, j4) {
                        Err(m) => Err(m),
                        Ok((init, j5)) => match sp_expect(t, j5, SpecTok::Semi) {
                            Err(m) => Err(m),
                            Ok(j6) => Ok((SpecGlobalConst { name, ty, init }, j6)),
                        },
                    },
                },
            },
        },
    }
}

/// `Program := (GlobalConst | Function)*`, in source order, until the end
/// marker. A leading `const` selects the global-constant production.
pub open spec fn sp_program_items(
    t: Seq<SpecTok>,
    i: int,
    globals: Seq<SpecGlobalConst>,
    functions: Seq<SpecFunction>,
) -> Result<SpecProgram, Seq<char>>
    decreases t.len() - i,
{
    if tok_at(t, i) is Eof {
        Ok(SpecProgram { globals, functions })
    } else if tok_at(t, i) is Const {
        match sp_global_const(t, i) {
            Err(m) => Err(m),
            Ok((g, j)) => {
                if i < j && j <= t.len() {
                    sp_program_items(t, j, globals.push(g), functions)
                } else {
                    Err(Seq::empty())
                }
            },
        }
    } else {
        match sp_function(t, i) {
            Err(m) => Err(m),
            Ok((f, j)) => {
                if i < j && j <= t.len() {
                    sp_program_items(t, j, globals, functions.push(f))
                } else {
                    Err(Seq::empty())
                }
            },
        }
    }
}

/// Decimal digit characters of a non-negative number.
pub open spec fn dec_str(n: int) -> Seq<char>
    decreases n,
{
    if n < 0 {
        Seq::empty()
    } else if n < 10 {
        seq![((48 + n) as u8) as char]
    } else {
        dec_str(n / 10) + seq![((48 + n % 10) as u8) as char]
    }
}

/// The text a lexical failure contributes to a parse failure:
/// the message followed by its position as `" (line:column)"`.
pub open spec fn lex_fail_text(s: Seq<u8>, issue: LexIssue, p: int) -> Seq<char> {
    lex_msg(issue) + " ("@ + dec_str(line_of(s, p)) + ":"@ + dec_str(col_of(s, p)) + ")"@
}

/// The whole front end on the bytes of a source text: tokenize, then parse.
pub open spec fn sp_translation_unit(s: Seq<u8>) -> Result<SpecProgram, Seq<char>> {
    match spec_lex(s) {
        Err((issue, p)) => Err(lex_fail_text(s, issue, p)),
        Ok(ts) => sp_program_items(ts, 0, Seq::empty(), Seq::empty()),
    }
}

// ----- executable parser -----

/// The display name of a token kind, as the failure messages show it.
fn tok_name_str(t: &Tok) -> (r: &'static str)
    ensures
        r@ == tok_name(t@),
{
    match t {
        Tok::Int => "Int",
        Tok::Unsigned => "Unsigned",
        Tok::Void => "Void",
        Tok::Const => "Const",
        Tok::Return => "Return",
        Tok::If => "If",
        Tok::Else => "Else",
        Tok::While => "While",
        Tok::Break => "Break",
        Tok::Continue => "Continue",
        Tok::True => "True",
        Tok::False => "False",
        Tok::Ident(_) => "Ident",
        Tok::IntLit(_) => "IntLit",
        Tok::LParen => "LParen",
        Tok::RParen => "RParen",
        Tok::LBrace => "LBrace",
        Tok::RBrace => "RBrace",
        Tok::Semi => "Semi",
        Tok::Comma => "Comma",
        Tok::Assign => "Assign",
        Tok::EqEq => "EqEq",
        Tok::NotEq => "NotEq",
        Tok::Lt => "Lt",
        Tok::Le => "Le",
        Tok::Gt => "Gt",
        Tok::Ge => "Ge",
        Tok::Plus => "Plus",
        Tok::Minus => "Minus",
        Tok::Star => "Star",
        Tok::Eof => "Eof",
    }
}

/// Structural token equality, stated over the token models.
#[verifier::rlimit(50)]
fn tok_eq(a: &Tok, b: &Tok) -> (r: bool)
    ensures
        r == (a@ == b@),
{
    match (a, b) {
        (Tok::Int, Tok::Int) => true,
        (Tok::Unsigned, Tok::Unsigned) => true,
        (Tok::Void, Tok::Void) => true,
        (Tok::Const, Tok::Const) => true,
        (Tok::Return, Tok::Return) => true,
        (Tok::If, Tok::If) => true,
        (Tok::Else, Tok::Else) => true,
        (Tok::While, Tok::While) => true,
        (Tok::Break, Tok::Break) => true,
        (Tok::Continue, Tok::Continue) => true,
        (Tok::True, Tok::True) => true,
        (Tok::False, Tok::False) => true,
        (Tok::Ident(x), Tok::Ident(y)) => x.eq(y),
        (Tok::IntLit(x), Tok::IntLit(y)) => x == y,
        (Tok::LParen, Tok::LParen) => true,
        (Tok::RParen, Tok::RParen) => true,
        (Tok::LBrace, Tok::LBrace) => true,
        (Tok::RBrace, Tok::RBrace) => true,
        (Tok::Semi, Tok::Semi) => true,
        (Tok::Comma, Tok::Comma) => true,
        (Tok::Assign, Tok::Assign) => true,
        (Tok::EqEq, Tok::EqEq) => true,
        (Tok::NotEq, Tok::NotEq) => true,
        (Tok::Lt, Tok::Lt) => true,
        (Tok::Le, Tok::Le) => true,
        (Tok::Gt, Tok::Gt) => true,
        (Tok::Ge, Tok::Ge) => true,
        (Tok::Plus, Tok::Plus) => true,
        (Tok::Minus, Tok::Minus) => true,
        (Tok::Star, Tok::Star) => true,
        (Tok::Eof, Tok::Eof) => true,
        _ => false,
    }
}

fn expected_err(want: &Tok, got: &Tok) -> (r: ParseError)
    ensures
        r.0@ == expected_msg(want@, got@),
{
    let mut m = "expected ".to_owned();
    m.append(tok_name_str(want));
    m.append(", got ");
    m.append(tok_name_str(got));
    ParseError(m)
}

fn kind_err(kind: &str, got: &Tok) -> (r: ParseError)
    ensures
        r.0@ == "expected "@ + kind@ + ", got "@ + tok_name(got@),
{
    let mut m = "expected ".to_owned();
    m.append(kind);
    m.append(", got ");
    m.append(tok_name_str(got));
    ParseError(m)
}

/// A one-statement sequence.
fn stmt_vec1(st: Stmt) -> (r: Vec<Stmt>)
    ensures
        stmts_view(r@) == seq![stmt_view(&st)],
{
    let mut v: Vec<Stmt> = Vec::new();
    let ghost pre = v@;
    v.push(st);
    proof {
        lemma_stmts_view_push(pre, &st);
        assert(pre.push(st) =~= v@);
        assert(stmts_view(pre).push(stmt_view(&st)) =~= seq![stmt_view(&st)]);
    }
    v
}

struct Parser {
    toks: Vec<Tok>,
    i: usize,
}

impl Parser {
    /// The model of the token sequence being consumed.
    spec fn tv(&self) -> Seq<SpecTok> {
        self.toks@.map_values(|tk: Tok| tk@)
    }

    spec fn wf(&self) -> bool {
        self.i <= self.toks@.len()
    }

    fn is_eof(&self) -> (r: bool)
        requires
            self.wf(),
        ensures
            r == (tok_at(self.tv(), self.i as int) is Eof),
    {
        if self.i < self.toks.len() {
            matches!(&self.toks[self.i], Tok::Eof)
        } else {
            true
        }
    }

    fn peek(&self) -> (t: Tok)
        requires
            self.wf(),
        ensures
            t@ == tok_at(self.tv(), self.i as int),
    {
        if self.i < self.toks.len() {
            self.toks[self.i].clone()
        } else {
            Tok::Eof
        }
    }

    fn peek2(&self) -> (t: Tok)
        requires
            self.wf(),
        ensures
            t@ == tok_at(self.tv(), self.i as int + 1),
    {
        if self.i < self.toks.len() && self.i + 1 < self.toks.len() {
            self.toks[self.i + 1].clone()
        } else {
            Tok::Eof
        }
    }

    fn bump(&mut self) -> (t: Tok)
        requires
            old(self).wf(),
        ensures
            final(self).wf(),
            final(self).toks == old(self).toks,
            t@ == tok_at(old(self).tv(), old(self).i as int),
            final(self).i as int == nxt(old(self).tv(), old(self).i as int),
    {
        if self.i < self.toks.len() {
            let t = self.toks[self.i].clone();
            self.i = self.i + 1;
            t
        } else {
            Tok::Eof
        }
    }

    fn peek_is(&self, t: &Tok) -> (r: bool)
        requires
            self.wf(),
        ensures
            r == (tok_at(self.tv(), self.i as int) == t@),
    {
        if self.i < self.toks.len() {
            tok_eq(&self.toks[self.i], t)
        } else {
            tok_eq(&Tok::Eof, t)
        }
    }

    fn expect(&mut self, want: Tok) -> (r: Result<(), ParseError>)
        requires
            old(self).wf(),
        ensures
            final(self).wf(),
            final(self).toks == old(self).toks,
            old(self).i <= final(self).i,
            match sp_expect(old(self).tv(), old(self).i as int, want@) {
                Ok(j) => r is Ok && final(self).i as int == j,
                Err(m) => r is Err && r->Err_0.0@ == m,
            },
            r is Ok && !(want@ is Eof) ==> old(self).i < final(self).i,
    {
        let got = self.bump();
        if tok_eq(&got, &want) {
            Ok(())
        } else {
            Err(expected_err(&want, &got))
        }
    }

    fn expect_ident(&mut self) -> (r: Result<String, ParseError>)
        requires
            old(self).wf(),
        ensures
            final(self).wf(),
            final(self).toks == old(self).toks,
            old(self).i <= final(self).i,
            match sp_expect_ident(old(self).tv(), old(self).i as int) {
                Ok((name, j)) => r is Ok && r->Ok_0@ == name && final(self).i as int == j
                    && old(self).i < final(self).i,
                Err(m) => r is Err && r->Err_0.0@ == m,
            },
    {
        match self.bump() {
            Tok::Ident(s) => Ok(s),
            other => Err(kind_err("identifier", &other)),
        }
    }

    fn parse_type(&mut self) -> (r: Result<TypeRef, ParseError>)
        requires
            old(self).wf(),
        ensures
            final(self).wf(),
            final(self).toks == old(self).toks,
            old(self).i <= final(self).i,
            match sp_type(old(self).tv(), old(self).i as int) {
                Ok((ty, j)) => r is Ok && r->Ok_0 == ty && final(self).i as int == j && old(
                    self,
                ).i < final(self).i,
                Err(m) => r is Err && r->Err_0.0@ == m,
            },
    {
        let mut signed = true;
        if self.peek_is(&Tok::Unsigned) {
            self.bump();
            signed = false;
        }
        match self.bump() {
            Tok::Int => Ok(TypeRef::Int { bits: 32, signed }),
            Tok::Void => Ok(TypeRef::Void),
            other => Err(kind_err("type", &other)),
        }
    }

    /// The integer literal expression built for a literal value.
    fn lit_i32(v: i128) -> (r: Expr)
        ensures
            expr_view(&r) == sp_lit_i32(v),
    {
        Expr::Lit(Lit::Int { bits: 32, signed: true, value: v })
    }

    /// Boolean coercion of a controlling expression.
    fn ensure_bool(e: Expr) -> (r: Expr)
        ensures
            expr_view(&r) == sp_ensure_bool(expr_view(&e)),
    {
        match e {
            Expr::Cmp { .. } => e,
            Expr::Lit(Lit::Bool(_)) => e,
            _ => Expr::Cmp {
                left: Box::new(e),
                op: CmpOpRef::Ne,
                right: Box::new(Self::lit_i32(0)),
            },
        }
    }

    fn parse_expr(&mut self) -> (r: Result<Expr, ParseError>)
        requires
            old(self).wf(),
        ensures
            final(self).wf(),
            final(self).toks == old(self).toks,
            old(self).i <= final(self).i,
            match sp_expr(old(self).tv(), old(self).i as int) {
                Ok((e, j)) => r is Ok && expr_view(&r->Ok_0) == e && final(self).i as int == j
                    && old(self).i < final(self).i,
                Err(m) => r is Err && r->Err_0.0@ == m,
            },
        decreases old(self).toks@.len() - old(self).i, 6int,
    {
        self.parse_cmp()
    }

    fn parse_cmp(&mut self) -> (r: Result<Expr, ParseError>)
        requires
            old(self).wf(),
        ensures
            final(self).wf(),
            final(self).toks == old(self).toks,
            old(self).i <= final(self).i,
            match sp_cmp(old(self).tv(), old(self).i as int) {
                Ok((e, j)) => r is Ok && expr_view(&r->Ok_0) == e && final(self).i as int == j
                    && old(self).i < final(self).i,
                Err(m) => r is Err && r->Err_0.0@ == m,
            },
        decreases old(self).toks@.len() - old(self).i, 5int,
    {
        let left = match self.parse_add() {
            Ok(e) => e,
            Err(er) => {
                return Err(er);
            },
        };
        let op = match self.peek() {
            Tok::EqEq => Some(CmpOpRef::Eq),
            Tok::NotEq => Some(CmpOpRef::Ne),
            Tok::Lt => Some(CmpOpRef::Lt),
            Tok::Le => Some(CmpOpRef::Le),
            Tok::Gt => Some(CmpOpRef::Gt),
            Tok::Ge => Some(CmpOpRef::Ge),
            _ => None,
        };
        match op {
            Some(op) => {
                self.bump();
                let right = match self.parse_add() {
                    Ok(e) => e,
                    Err(er) => {
                        return Err(er);
                    },
                };
                Ok(Expr::Cmp { left: Box::new(left), op, right: Box::new(right) })
            },
            None => Ok(left),
        }
    }

    fn at_add_op(&self) -> (r: bool)
        requires
            self.wf(),
        ensures
            r == (tok_at(self.tv(), self.i as int) is Plus || tok_at(self.tv(), self.i as int)
                is Minus),
    {
        self.peek_is(&Tok::Plus) || self.peek_is(&Tok::Minus)
    }

    fn parse_add(&mut self) -> (r: Result<Expr, ParseError>)
        requires
            old(self).wf(),
        ensures
            final(self).wf(),
            final(self).toks == old(self).toks,
            old(self).i <= final(self).i,
            match sp_add(old(self).tv(), old(self).i as int) {
                Ok((e, j)) => r is Ok && expr_view(&r->Ok_0) == e && final(self).i as int == j
                    && old(self).i < final(self).i,
                Err(m) => r is Err && r->Err_0.0@ == m,
            },
        decreases old(self).toks@.len() - old(self).i, 4int,
    {
        let ghost t = self.tv();
        let ghost i0 = self.i as int;
        let mut e = match self.parse_mul() {
            Ok(e) => e,
            Err(er) => {
                return Err(er);
            },
        };
        while self.at_add_op()
            invariant
                self.wf(),
                self.toks == old(self).toks,
                i0 == old(self).i as int,
                i0 < self.i as int <= t.len(),
                t == self.tv(),
                sp_add(t, i0) == sp_add_tail(t, self.i as int, expr_view(&e)),
            decreases t.len() - self.i,
        {
            let op = if self.peek_is(&Tok::Plus) {
                BinOpRef::Add
            } else {
                BinOpRef::Sub
            };
            self.bump();
            let r = match self.parse_mul() {
                Ok(e) => e,
                Err(er) => {
                    return Err(er);
                },
            };
            e = Expr::Binary { left: Box::new(e), op, right: Box::new(r) };
        }
        Ok(e)
    }

    fn parse_mul(&mut self) -> (r: Result<Expr, ParseError>)
        requires
            old(self).wf(),
        ensures
            final(self).wf(),
            final(self).toks == old(self).toks,
            old(self).i <= final(self).i,
            match sp_mul(old(self).tv(), old(self).i as int) {
                Ok((e, j)) => r is Ok && expr_view(&r->Ok_0) == e && final(self).i as int == j
                    && old(self).i < final(self).i,
                Err(m) => r is Err && r->Err_0.0@ == m,
            },
        decreases old(self).toks@.len() - old(self).i, 2int,
    {
        let ghost t = self.tv();
        let ghost i0 = self.i as int;
        let mut e = match self.parse_primary() {
            Ok(e) => e,
            Err(er) => {
                return Err(er);
            },
        };
        while self.peek_is(&Tok::Star)
            invariant
                self.wf(),
                self.toks == old(self).toks,
                i0 == old(self).i as int,
                i0 < self.i as int <= t.len(),
                t == self.tv(),
                sp_mul(t, i0) == sp_mul_tail(t, self.i as int, expr_view(&e)),
            decreases t.len() - self.i,
        {
            self.bump();
            let r = match self.parse_primary() {
                Ok(e) => e,
                Err(er) => {
                    return Err(er);
                },
            };
            e = Expr::Binary { left: Box::new(e), op: BinOpRef::Mul, right: Box::new(r) };
        }
        Ok(e)
    }

    fn parse_primary(&mut self) -> (r: Result<Expr, ParseError>)
        requires
            old(self).wf(),
        ensures
            final(self).wf(),
            final(self).toks == old(self).toks,
            old(self).i <= final(self).i,
            match sp_primary(old(self).tv(), old(self).i as int) {
                Ok((e, j)) => r is Ok && expr_view(&r->Ok_0) == e && final(self).i as int == j
                    && old(self).i < final(self).i,
                Err(m) => r is Err && r->Err_0.0@ == m,
            },
        decreases old(self).toks@.len() - old(self).i, 0int,
    {
        match self.bump() {
            Tok::IntLit(v) => Ok(Expr::Lit(Lit::Int { bits: 32, signed: true, value: v })),
            Tok::Ident(name) => Ok(Expr::Var(name)),
            Tok::True => Ok(Expr::Lit(Lit::Bool(true))),
            Tok::False => Ok(Expr::Lit(Lit::Bool(false))),
            Tok::LParen => {
                let e = match self.parse_expr() {
                    Ok(e) => e,
                    Err(er) => {
                        return Err(er);
                    },
                };
                match self.expect(Tok::RParen) {
                    Ok(()) => Ok(e),
                    Err(er) => Err(er),
                }
            },
            other => Err(kind_err("primary", &other)),
        }
    }

    fn parse_stmt_or_block(&mut self) -> (r: Result<Vec<Stmt>, ParseError>)
        requires
            old(self).wf(),
        ensures
            final(self).wf(),
            final(self).toks == old(self).toks,
            old(self).i <= final(self).i,
            match sp_stmt_or_block(old(self).tv(), old(self).i as int) {
                Ok((ss, j)) => r is Ok && stmts_view(r->Ok_0@) == ss && final(self).i as int == j
                    && old(self).i < final(self).i,
                Err(m) => r is Err && r->Err_0.0@ == m,
            },
        decreases old(self).toks@.len() - old(self).i, 9int,
    {
        if self.peek_is(&Tok::LBrace) {
            self.parse_block()
        } else {
            self.parse_stmt()
        }
    }

    #[verifier::loop_isolation(false)]
    fn parse_block(&mut self) -> (r: Result<Vec<Stmt>, ParseError>)
        requires
            old(self).wf(),
        ensures
            final(self).wf(),
            final(self).toks == old(self).toks,
            old(self).i <= final(self).i,
            match sp_block(old(self).tv(), old(self).i as int) {
                Ok((ss, j)) => r is Ok && stmts_view(r->Ok_0@) == ss && final(self).i as int == j
                    && old(self).i < final(self).i,
                Err(m) => r is Err && r->Err_0.0@ == m,
            },
        decreases old(self).toks@.len() - old(self).i, 7int,
    {
        let ghost t = self.tv();
        let ghost i0 = self.i as int;
        match self.expect(Tok::LBrace) {
            Ok(()) => {},
            Err(e) => {
                return Err(e);
            },
        }
        let mut out: Vec<Stmt> = Vec::new();
        while !self.peek_is(&Tok::RBrace)
            invariant
                self.wf(),
                self.toks == old(self).toks,
                t == self.tv(),
                i0 < self.i as int <= t.len(),
                sp_block(t, i0) == sp_block_items(t, self.i as int, stmts_view(out@)),
            decreases t.len() - self.i,
        {
            let ghost acc = stmts_view(out@);
            let mut part = match self.parse_stmt() {
                Ok(p) => p,
                Err(e) => {
                    return Err(e);
                },
            };
            let ghost pv = part@;
            let ghost pre = out@;
            out.append(&mut part);
            proof {
                assert(out@ == pre + pv);
                lemma_stmts_view_add(pre, pv);
            }
        }
        match self.expect(Tok::RBrace) {
            Ok(()) => Ok(out),
            Err(e) => Err(e),
        }
    }

    #[verifier::rlimit(100)]
    fn parse_stmt(&mut self) -> (r: Result<Vec<Stmt>, ParseError>)
        requires
            old(self).wf(),
        ensures
            final(self).wf(),
            final(self).toks == old(self).toks,
            old(self).i <= final(self).i,
            match sp_stmt(old(self).tv(), old(self).i as int) {
                Ok((ss, j)) => r is Ok && stmts_view(r->Ok_0@) == ss && final(self).i as int == j
                    && old(self).i < final(self).i,
                Err(m) => r is Err && r->Err_0.0@ == m,
            },
        decreases old(self).toks@.len() - old(self).i, 8int,
    {
        match self.peek() {
            Tok::LBrace => {
                return self.parse_block();
            },
            Tok::Return => {
                self.bump();
                if self.peek_is(&Tok::Semi) {
                    self.bump();
                    return Ok(stmt_vec1(Stmt::Return(None)));
                }
                let e = match self.parse_expr() {
                    Ok(e) => e,
                    Err(er) => {
                        return Err(er);
                    },
                };
                match self.expect(Tok::Semi) {
                    Ok(()) => {},
                    Err(er) => {
                        return Err(er);
                    },
                }
                return Ok(stmt_vec1(Stmt::Return(Some(e))));
            },
            Tok::Const => {
                self.bump();
                let ty = match self.parse_type() {
                    Ok(ty) => ty,
                    Err(er) => {
                        return Err(er);
                    },
                };
                let name = match self.expect_ident() {
                    Ok(n) => n,
                    Err(er) => {
                        return Err(er);
                    },
                };
                match self.expect(Tok::Assign) {
                    Ok(()) => {},
                    Err(er) => {
                        return Err(er);
                    },
                }
                let init = match self.parse_expr() {
                    Ok(e) => e,
                    Err(er) => {
                        return Err(er);
                    },
                };
                match self.expect(Tok::Semi) {
                    Ok(()) => {},
                    Err(er) => {
                        return Err(er);
                    },
                }
                return Ok(stmt_vec1(Stmt::ConstDecl { name, ty, init }));
            },
            Tok::Int | Tok::Unsigned => {
                let ty = match self.parse_type() {
                    Ok(ty) => ty,
                    Err(er) => {
                        return Err(er);
                    },
                };
                let name = match self.expect_ident() {
                    Ok(n) => n,
                    Err(er) => {
                        return Err(er);
                    },
                };
                let init = if self.peek_is(&Tok::Assign) {
                    self.bump();
                    match self.parse_expr() {
                        Ok(e) => Some(e),
                        Err(er) => {
                            return Err(er);
                        },
                    }
                } else {
                    None
                };
                match self.expect(Tok::Semi) {
                    Ok(()) => {},
                    Err(er) => {
                        return Err(er);
                    },
                }
                return Ok(stmt_vec1(Stmt::VarDecl { name, ty, init }));
            },
            Tok::If => {
                self.bump();
                match self.expect(Tok::LParen) {
                    Ok(()) => {},
                    Err(er) => {
                        return Err(er);
                    },
                }
                let cond_expr = match self.parse_expr() {
                    Ok(e) => e,
                    Err(er) => {
                        return Err(er);
                    },
                };
                let cond = Self::ensure_bool(cond_expr);
                match self.expect(Tok::RParen) {
                    Ok(()) => {},
                    Err(er) => {
                        return Err(er);
                    },
                }
                let then_body = match self.parse_stmt_or_block() {
                    Ok(b) => b,
                    Err(er) => {
                        return Err(er);
                    },
                };
                let else_body = if self.peek_is(&Tok::Else) {
                    self.bump();
                    match self.parse_stmt_or_block() {
                        Ok(b) => b,
                        Err(er) => {
                            return Err(er);
                        },
                    }
                } else {
                    Vec::new()
                };
                return Ok(stmt_vec1(Stmt::If { cond, then_body, else_body }));
            },
            Tok::While => {
                self.bump();
                match self.expect(Tok::LParen) {
                    Ok(()) => {},
                    Err(er) => {
                        return Err(er);
                    },
                }
                let cond_expr = match self.parse_expr() {
                    Ok(e) => e,
                    Err(er) => {
                        return Err(er);
                    },
                };
                let cond = Self::ensure_bool(cond_expr);
                match self.expect(Tok::RParen) {
                    Ok(()) => {},
                    Err(er) => {
                        return Err(er);
                    },
                }
                let body = match self.parse_stmt_or_block() {
                    Ok(b) => b,
                    Err(er) => {
                        return Err(er);
                    },
                };
                return Ok(stmt_vec1(Stmt::While { cond, body }));
            },
            Tok::Break => {
                self.bump();
                match self.expect(Tok::Semi) {
                    Ok(()) => {},
                    Err(er) => {
                        return Err(er);
                    },
                }
                return Ok(stmt_vec1(Stmt::Break));
            },
            Tok::Continue => {
                self.bump();
                match self.expect(Tok::Semi) {
                    Ok(()) => {},
                    Err(er) => {
                        return Err(er);
                    },
                }
                return Ok(stmt_vec1(Stmt::Continue));
            },
            Tok::Ident(_) => {
                // two-token lookahead: an `=` after the identifier commits
                // to the assignment form
                if matches!(self.peek2(), Tok::Assign) {
                    let name = match self.expect_ident() {
                        Ok(n) => n,
                        Err(er) => {
                            return Err(er);
                        },
                    };
                    match self.expect(Tok::Assign) {
                        Ok(()) => {},
                        Err(er) => {
                            return Err(er);
                        },
                    }
                    let value = match self.parse_expr() {
                        Ok(e) => e,
                        Err(er) => {
                            return Err(er);
                        },
                    };
                    match self.expect(Tok::Semi) {
                        Ok(()) => {},
                        Err(er) => {
                            return Err(er);
                        },
                    }
                    return Ok(stmt_vec1(Stmt::Assign { name, value }));
                }
                let e = match self.parse_expr() {
                    Ok(e) => e,
                    Err(er) => {
                        return Err(er);
                    },
                };
                match self.expect(Tok::Semi) {
                    Ok(()) => {},
                    Err(er) => {
                        return Err(er);
                    },
                }
                return Ok(stmt_vec1(Stmt::ExprStmt(e)));
            },
            _ => {
                // anything else is tried as an expression statement
                let e = match self.parse_expr() {
                    Ok(e) => e,
                    Err(er) => {
                        return Err(er);
                    },
                };
                match self.expect(Tok::Semi) {
                    Ok(()) => {},
                    Err(er) => {
                        return Err(er);
                    },
                }
                return Ok(stmt_vec1(Stmt::ExprStmt(e)));
            },
        }
    }

    #[verifier::loop_isolation(false)]
    fn parse_function(&mut self) -> (r: Result<Function, ParseError>)
        requires
            old(self).wf(),
        ensures
            final(self).wf(),
            final(self).toks == old(self).toks,
            old(self).i <= final(self).i,
            match sp_function(old(self).tv(), old(self).i as int) {
                Ok((f, j)) => r is Ok && fn_view(&r->Ok_0) == f && final(self).i as int == j && old(
                    self,
                ).i < final(self).i,
                Err(m) => r is Err && r->Err_0.0@ == m,
            },
    {
        let ghost t = self.tv();
        let ghost i0 = self.i as int;
        let return_type = match self.parse_type() {
            Ok(ty) => ty,
            Err(er) => {
                return Err(er);
            },
        };
        let name = match self.expect_ident() {
            Ok(n) => n,
            Err(er) => {
                return Err(er);
            },
        };
        match self.expect(Tok::LParen) {
            Ok(()) => {},
            Err(er) => {
                return Err(er);
            },
        }
        let mut parameters: Vec<Parameter> = Vec::new();
        if !self.peek_is(&Tok::RParen) {
            let ghost entry = self.i as int;
            proof {
                assert(params_view(parameters@) =~= Seq::<SpecParameter>::empty());
            }
            let mut more = true;
            while more
                invariant
                    self.wf(),
                    self.toks == old(self).toks,
                    t == self.tv(),
                    i0 <= entry <= self.i as int <= t.len(),
                    more ==> sp_params_tail(t, entry, Seq::empty()) == sp_params_tail(
                        t,
                        self.i as int,
                        params_view(parameters@),
                    ),
                    !more ==> sp_params_tail(t, entry, Seq::empty()) == Ok::<
                        (Seq<SpecParameter>, int),
                        Seq<char>,
                    >((params_view(parameters@), self.i as int)),
                decreases t.len() - self.i + (if more {
                    1int
                } else {
                    0int
                }),
            {
                let ty = match self.parse_type() {
                    Ok(ty) => ty,
                    Err(er) => {
                        return Err(er);
                    },
                };
                let pname = match self.expect_ident() {
                    Ok(n) => n,
                    Err(er) => {
                        return Err(er);
                    },
                };
                let ghost pre = parameters@;
                parameters.push(Parameter { name: pname, ty });
                proof {
                    assert(params_view(parameters@) =~= params_view(pre).push(
                        param_view(&Parameter { name: pname, ty }),
                    ));
                }
                if self.peek_is(&Tok::Comma) {
                    self.bump();
                } else {
                    more = false;
                }
            }
        }
        match self.expect(Tok::RParen) {
            Ok(()) => {},
            Err(er) => {
                return Err(er);
            },
        }
        let body = match self.parse_block() {
            Ok(b) => b,
            Err(er) => {
                return Err(er);
            },
        };
        proof {
            assert(params_view(Seq::<Parameter>::empty()) =~= Seq::<SpecParameter>::empty());
        }
        Ok(Function { name, parameters, return_type, body })
    }

    fn parse_global_const(&mut self) -> (r: Result<GlobalConst, ParseError>)
        requires
            old(self).wf(),
        ensures
            final(self).wf(),
            final(self).toks == old(self).toks,
            old(self).i <= final(self).i,
            match sp_global_const(old(self).tv(), old(self).i as int) {
                Ok((g, j)) => r is Ok && global_view(&r->Ok_0) == g && final(self).i as int == j
                    && old(self).i < final(self).i,
                Err(m) => r is Err && r->Err_0.0@ == m,
            },
    {
        match self.expect(Tok::Const) {
            Ok(()) => {},
            Err(er) => {
                return Err(er);
            },
        }
        let ty = match self.parse_type() {
            Ok(ty) => ty,
            Err(er) => {
                return Err(er);
            },
        };
        let name = match self.expect_ident() {
            Ok(n) => n,
            Err(er) => {
                return Err(er);
            },
        };
        match self.expect(Tok::Assign) {
            Ok(()) => {},
            Err(er) => {
                return Err(er);
            },
        }
        let init = match self.parse_expr() {
            Ok(e) => e,
            Err(er) => {
                return Err(er);
            },
        };
        match self.expect(Tok::Semi) {
            Ok(()) => {},
            Err(er) => {
                return Err(er);
            },
        }
        Ok(GlobalConst { name, ty, init })
    }
}

/// The decimal digits of a number, as text.
fn dec_string(n: usize) -> (r: String)
    ensures
        r@ == dec_str(n as int),
    decreases n,
{
    if n < 10 {
        char_string((48 + n as u8) as char)
    } else {
        let mut m = dec_string(n / 10);
        m.append(char_string((48 + (n % 10) as u8) as char).as_str());
        m
    }
}

/// The whole front end: tokenize the source text, then parse the token
/// sequence into a program by recursive descent. A lexical failure is
/// reported through the parse error, with its position appended as
/// `" (line:column)"`.
#[verifier::loop_isolation(false)]
#[verifier::rlimit(100)]
pub fn parse_translation_unit(src: &str) -> (r: Result<Program, ParseError>)
    requires
        src.spec_bytes().len() < usize::MAX,
    ensures
        match sp_translation_unit(src.spec_bytes()) {
            Ok(p) => r is Ok && program_view(&r->Ok_0) == p,
            Err(m) => r is Err && r->Err_0.0@ == m,
        },
{
    let ghost s = src.spec_bytes();
    let toks = match lex_all(src) {
        Ok(ts) => ts,
        Err(e) => {
            let mut m = e.msg;
            m.append(" (");
            m.append(dec_string(e.line).as_str());
            m.append(":");
            m.append(dec_string(e.col).as_str());
            m.append(")");
            return Err(ParseError(m));
        },
    };
    let ghost t = toks@.map_values(|tk: Tok| tk@);
    let mut p = Parser { toks, i: 0 };
    let mut globals: Vec<GlobalConst> = Vec::new();
    let mut functions: Vec<Function> = Vec::new();
    proof {
        assert(globals@.map_values(|g: GlobalConst| global_view(&g)) =~= Seq::<
            SpecGlobalConst,
        >::empty());
        assert(functions@.map_values(|f: Function| fn_view(&f)) =~= Seq::<SpecFunction>::empty());
    }
    while !p.is_eof()
        invariant
            p.wf(),
            t == p.tv(),
            sp_program_items(t, 0, Seq::empty(), Seq::empty()) == sp_program_items(
                t,
                p.i as int,
                globals@.map_values(|g: GlobalConst| global_view(&g)),
                functions@.map_values(|f: Function| fn_view(&f)),
            ),
        decreases t.len() - p.i,
    {
        if p.peek_is(&Tok::Const) {
            let ghost pre = globals@;
            let g = match p.parse_global_const() {
                Ok(g) => g,
                Err(er) => {
                    return Err(er);
                },
            };
            globals.push(g);
            proof {
                assert(globals@.map_values(|x: GlobalConst| global_view(&x)) =~= pre.map_values(
                    |x: GlobalConst| global_view(&x),
                ).push(global_view(&g)));
            }
        } else {
            let ghost pre = functions@;
            let f = match p.parse_function() {
                Ok(f) => f,
                Err(er) => {
                    return Err(er);
                },
            };
            functions.push(f);
            proof {
                assert(functions@.map_values(|x: Function| fn_view(&x)) =~= pre.map_values(
                    |x: Function| fn_view(&x),
                ).push(fn_view(&f)));
            }
        }
    }
    Ok(Program { globals, functions })
}

} // verus!
