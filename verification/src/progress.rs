use vstd::prelude::*;
use crate::errors::ParseErrorView;
use crate::grammar::{
    assignment, binary, binary_tail, block, call_arguments, conditional, conditional_tail,
    declaration, expect_token, expression, factor, function, global, governed, if_statement,
    import, import_path, operand, parameters, program, signature, statement, while_statement,
    Level, Parsed, Source,
};
use crate::ops::{
    binop_of, unop_of, ExpressionView, ProgramView, Size, StatementView, VariableView,
};
use crate::types::{Keyword, TokenView};

verus! {

/// An outcome of a parse from `pos` on that stays within the tokens and is
/// not the error `Unknown`.
pub open spec fn within<T>(src: Source, pos: nat, r: Parsed<T>) -> bool {
    &&& r.len <= src.left(pos)
    &&& !(r.result matches Err(ParseErrorView::Unknown))
}

/// An outcome within the tokens that, where it is a success, has taken at
/// least one token.
pub open spec fn advances<T>(src: Source, pos: nat, r: Parsed<T>) -> bool {
    &&& within(src, pos, r)
    &&& r.result is Ok ==> r.len >= 1
}

/// A primary expression takes a token or more, within the tokens.
pub proof fn lemma_factor(src: Source, pos: nat)
    ensures
        advances(src, pos, factor(src, pos)),
    decreases src.left(pos), 0nat,
{
    match src.token(pos) {
        None => {},
        Some(TokenView::Identifier(_)) => {
            if src.token(pos + 1) == Some(TokenView::OpenParen) {
                lemma_call_arguments(src, pos + 2, Seq::empty());
            }
        },
        Some(TokenView::OpenParen) => {
            lemma_expression(src, pos + 1);
        },
        Some(t) => {
            if unop_of(t) is Some {
                lemma_factor(src, pos + 1);
            }
        },
    }
}

/// The arguments of a call take the `)` at least, within the tokens.
pub proof fn lemma_call_arguments(src: Source, pos: nat, acc: Seq<ExpressionView>)
    ensures
        advances(src, pos, call_arguments(src, pos, acc)),
    decreases src.left(pos), 52nat,
{
    if src.token(pos) != Some(TokenView::CloseParen) {
        lemma_assignment(src, pos);
        let arg = assignment(src, pos);
        if arg.result is Ok {
            let comma: nat = if src.token(pos + arg.len) == Some(TokenView::Comma) {
                1
            } else {
                0
            };
            lemma_call_arguments(src, pos + arg.len + comma, acc.push(arg.result->Ok_0));
        }
    }
}

/// An operand takes a token or more, within the tokens.
pub proof fn lemma_operand(src: Source, pos: nat, level: Level)
    ensures
        advances(src, pos, operand(src, pos, level)),
    decreases src.left(pos), 4 * level.height() + 1,
{
    match level {
        Level::Comma => lemma_assignment(src, pos),
        Level::Or => lemma_binary(src, pos, Level::And),
        Level::And => lemma_binary(src, pos, Level::BitOr),
        Level::BitOr => lemma_binary(src, pos, Level::BitXor),
        Level::BitXor => lemma_binary(src, pos, Level::BitAnd),
        Level::BitAnd => lemma_binary(src, pos, Level::Equality),
        Level::Equality => lemma_binary(src, pos, Level::Relational),
        Level::Relational => lemma_binary(src, pos, Level::Shift),
        Level::Shift => lemma_binary(src, pos, Level::Additive),
        Level::Additive => lemma_binary(src, pos, Level::Multiplicative),
        Level::Multiplicative => lemma_factor(src, pos),
    }
}

/// A chain of a level takes a token or more, within the tokens.
pub proof fn lemma_binary(src: Source, pos: nat, level: Level)
    ensures
        advances(src, pos, binary(src, pos, level)),
    decreases src.left(pos), 4 * level.height() + 3,
{
    lemma_operand(src, pos, level);
    let first = operand(src, pos, level);
    if first.result is Ok {
        lemma_binary_tail(src, pos + first.len, level, first.result->Ok_0);
    }
}

/// The rest of a chain of a level stays within the tokens.
pub proof fn lemma_binary_tail(src: Source, pos: nat, level: Level, lhs: ExpressionView)
    ensures
        within(src, pos, binary_tail(src, pos, level, lhs)),
    decreases src.left(pos), 4 * level.height() + 2,
{
    match src.token(pos) {
        Some(t) => {
            if level.accepts(t) && binop_of(t) is Some {
                lemma_operand(src, pos + 1, level);
                let rhs = operand(src, pos + 1, level);
                if rhs.result is Ok {
                    lemma_binary_tail(
                        src,
                        pos + 1 + rhs.len,
                        level,
                        ExpressionView::BinOp(
                            binop_of(t)->0,
                            Box::new(lhs),
                            Box::new(rhs.result->Ok_0),
                        ),
                    );
                }
            }
        },
        None => {},
    }
}

/// A ternary chain takes a token or more, within the tokens.
pub proof fn lemma_conditional(src: Source, pos: nat)
    ensures
        advances(src, pos, conditional(src, pos)),
    decreases src.left(pos), 43nat,
{
    lemma_binary(src, pos, Level::Or);
    let first = binary(src, pos, Level::Or);
    if first.result is Ok {
        lemma_conditional_tail(src, pos + first.len, first.result->Ok_0);
    }
}

/// The rest of a ternary chain stays within the tokens.
pub proof fn lemma_conditional_tail(src: Source, pos: nat, cond: ExpressionView)
    ensures
        within(src, pos, conditional_tail(src, pos, cond)),
    decreases src.left(pos), 42nat,
{
    if src.token(pos) == Some(TokenView::Question) {
        lemma_expression(src, pos + 1);
        let then = expression(src, pos + 1);
        if then.result is Ok {
            let colon = expect_token(src, pos + 1 + then.len, TokenView::Colon);
            if colon.result is Ok {
                lemma_expression(src, pos + then.len + 2);
                let otherwise = expression(src, pos + then.len + 2);
                if otherwise.result is Ok {
                    lemma_conditional_tail(
                        src,
                        pos + then.len + 2 + otherwise.len,
                        ExpressionView::Ternary(
                            Box::new(cond),
                            Box::new(then.result->Ok_0),
                            Box::new(otherwise.result->Ok_0),
                        ),
                    );
                }
            }
        }
    }
}

/// An assignment expression takes a token or more, within the tokens.
pub proof fn lemma_assignment(src: Source, pos: nat)
    ensures
        advances(src, pos, assignment(src, pos)),
    decreases src.left(pos), 47nat,
{
    if src.token(pos) is Some && src.token(pos + 1) is Some {
        lemma_expression(src, pos + 2);
    }
    lemma_conditional(src, pos);
}

/// An expression takes a token or more, within the tokens.
pub proof fn lemma_expression(src: Source, pos: nat)
    ensures
        advances(src, pos, expression(src, pos)),
    decreases src.left(pos), 55nat,
{
    lemma_binary(src, pos, Level::Comma);
}

/// A declaration takes a token or more, within the tokens.
pub proof fn lemma_declaration(src: Source, pos: nat, size: Size, t: Seq<char>)
    ensures
        advances(src, pos, declaration(src, pos, size, t)),
    decreases src.left(pos), 60nat,
{
    if src.token(pos) is Some && src.token(pos + 1) is Some {
        lemma_expression(src, pos + 2);
    }
}

/// A statement takes a token or more, within the tokens.
pub proof fn lemma_statement(src: Source, pos: nat)
    ensures
        advances(src, pos, statement(src, pos)),
    decreases src.left(pos), 61nat,
{
    if src.token(pos) is Some {
        lemma_declaration(src, pos + 1, Size::Int, "int"@);
        lemma_declaration(src, pos + 1, Size::Byte, ""@);
        lemma_declaration(src, pos + 1, Size::Byte, "bool"@);
        lemma_declaration(src, pos + 1, Size::Byte, "str"@);
        lemma_expression(src, pos + 1);
        lemma_if_statement(src, pos + 1);
        lemma_while_statement(src, pos + 1);
        lemma_block(src, pos + 1, Seq::empty());
    }
    lemma_expression(src, pos);
}

/// The statements of a block take the `}` at least, within the tokens.
pub proof fn lemma_block(src: Source, pos: nat, acc: Seq<StatementView>)
    ensures
        advances(src, pos, block(src, pos, acc)),
    decreases src.left(pos), 62nat,
{
    if src.token(pos) != Some(TokenView::CloseBrace) {
        lemma_statement(src, pos);
        let first = statement(src, pos);
        if first.result is Ok {
            lemma_block(src, pos + first.len, acc.push(first.result->Ok_0));
        }
    }
}

/// A condition with its statement takes a token or more, within the tokens.
pub proof fn lemma_governed(src: Source, pos: nat)
    ensures
        advances(src, pos, governed(src, pos)),
    decreases src.left(pos), 58nat,
{
    if src.token(pos) == Some(TokenView::OpenParen) {
        lemma_expression(src, pos + 1);
        let cond = expression(src, pos + 1);
        if cond.result is Ok {
            let close = expect_token(src, pos + 1 + cond.len, TokenView::CloseParen);
            if close.result is Ok {
                lemma_statement(src, pos + cond.len + 2);
            }
        }
    }
}

/// An `if` statement takes a token or more, within the tokens.
pub proof fn lemma_if_statement(src: Source, pos: nat)
    ensures
        advances(src, pos, if_statement(src, pos)),
    decreases src.left(pos), 59nat,
{
    lemma_governed(src, pos);
    let head = governed(src, pos);
    if head.result is Ok && src.token(pos + head.len) is Some {
        lemma_statement(src, pos + head.len + 1);
    }
}

/// A `while` statement takes a token or more, within the tokens.
pub proof fn lemma_while_statement(src: Source, pos: nat)
    ensures
        advances(src, pos, while_statement(src, pos)),
    decreases src.left(pos), 59nat,
{
    lemma_governed(src, pos);
}

/// The parameters of a function stay within the tokens.
pub proof fn lemma_parameters(src: Source, pos: nat, acc: Seq<VariableView>)
    ensures
        within(src, pos, parameters(src, pos, acc)),
    decreases src.left(pos),
{
    if src.token(pos) != Some(TokenView::CloseParen) && src.token(pos) is Some && src.token(
        pos + 1,
    ) is Some && src.token(pos + 2) is Some {
        let name = src.token(pos)->0;
        let ty = crate::grammar::parameter_type(src.token(pos + 2)->0);
        if name is Identifier && ty is Some {
            let typed = ty->0;
            let comma: nat = if src.token(pos + 3) == Some(TokenView::Comma) {
                1
            } else {
                0
            };
            lemma_parameters(
                src,
                pos + 3 + comma,
                acc.push(VariableView { name: name->Identifier_0, t: typed.0, size: typed.1 }),
            );
        }
    }
}

/// The head of a function after its name takes a token or more, within the
/// tokens.
pub proof fn lemma_signature(src: Source, pos: nat, fnname: Seq<char>)
    ensures
        advances(src, pos, signature(src, pos, fnname)),
{
    if src.token(pos) is Some {
        lemma_parameters(src, pos + 1, Seq::empty());
    }
}

/// A function takes a token or more, within the tokens.
pub proof fn lemma_function(src: Source, pos: nat)
    ensures
        advances(src, pos, function(src, pos)),
{
    reveal(function);
    if src.token(pos) is Some {
        let at: nat = if src.token(pos + 1) == Some(TokenView::Keyword(Keyword::Async)) {
            pos + 2
        } else {
            pos + 1
        };
        if src.token(at) is Some && src.token(at)->0 is Identifier {
            let fnname = src.token(at)->0->Identifier_0;
            lemma_signature(src, at + 1, fnname);
            let sig = signature(src, at + 1, fnname);
            if sig.result is Ok && src.token(at + 1 + sig.len) is Some {
                lemma_block(src, at + sig.len + 2, Seq::empty());
            }
        }
    }
}

/// The path of an import takes a token or more, within the tokens.
pub proof fn lemma_import_path(src: Source, pos: nat, acc: Seq<Seq<char>>)
    ensures
        advances(src, pos, import_path(src, pos, acc)),
    decreases src.left(pos),
{
    if src.token(pos) is Some && src.token(pos)->0 is Identifier {
        let name = src.token(pos)->0->Identifier_0;
        let separator: nat = if src.token(pos + 1) == Some(TokenView::DoubleColon) {
            1
        } else {
            0
        };
        lemma_import_path(src, pos + 1 + separator, acc.push(name));
    }
}

/// An import takes a token or more, within the tokens.
pub proof fn lemma_import(src: Source, pos: nat)
    ensures
        advances(src, pos, import(src, pos)),
{
    reveal(import);
    lemma_import_path(src, pos, Seq::empty());
    if src.token(pos) is Some {
        lemma_import_path(src, pos + 1, Seq::empty());
    }
}

/// A top-level statement takes a token or more, within the tokens.
pub proof fn lemma_global(src: Source, pos: nat)
    ensures
        advances(src, pos, global(src, pos)),
{
    reveal(global);
    if src.token(pos) is Some {
        lemma_declaration(src, pos + 1, Size::Byte, "&str"@);
    }
    lemma_expression(src, pos);
}

/// Parsing a program never ends in the error `Unknown`, takes no more
/// tokens than there are, and on success takes them all.
pub proof fn lemma_program(src: Source, pos: nat, acc: ProgramView)
    ensures
        within(src, pos, program(src, pos, acc)),
        program(src, pos, acc).result is Ok && pos <= src.tokens.len() ==> pos + program(
            src,
            pos,
            acc,
        ).len == src.tokens.len(),
    decreases src.left(pos),
{
    match src.token(pos) {
        None => {},
        Some(TokenView::Keyword(Keyword::Use)) => {
            lemma_import(src, pos);
            let item = import(src, pos);
            if item.result is Ok {
                lemma_program(
                    src,
                    pos + item.len,
                    ProgramView { imports: acc.imports.push(item.result->Ok_0), ..acc },
                );
            }
        },
        Some(TokenView::Keyword(Keyword::Func)) => {
            lemma_function(src, pos);
            let item = function(src, pos);
            if item.result is Ok {
                lemma_program(
                    src,
                    pos + item.len,
                    ProgramView { func: acc.func.push(item.result->Ok_0), ..acc },
                );
            }
        },
        Some(_) => {
            lemma_global(src, pos);
            let item = global(src, pos);
            if item.result is Ok {
                lemma_program(
                    src,
                    pos + item.len,
                    ProgramView { globals: acc.globals.push(item.result->Ok_0), ..acc },
                );
            }
        },
    }
}

} // verus!
