//! Recursive-descent parsing of tokens into a syntax tree, with the precedence levels
//! additive < multiplicative < power (right-associative) < unary < primary.
use vstd::prelude::*;
use crate::ast::{AstNode, AstView, Numeral, NumeralView};
use crate::error::{Error, ErrorView};
use crate::lexer::{lexed, scan, tokenize_spec, tokens_view, Token, TokenView};
use crate::text::{push_char, same_text};

verus! {

/// A partial parse: the tree read so far and the position of the next token.
pub type Parsed = Result<(AstView, int), ErrorView>;

/// The operator at position `q`, if the token there is one.
pub open spec fn op_at(t: Seq<TokenView>, q: int) -> Option<char> {
    if 0 <= q < t.len() {
        match t[q] {
            TokenView::Operator(c) => Some(c),
            _ => None,
        }
    } else {
        None
    }
}

/// `o` when it is `a` or `b`.
pub open spec fn among(o: Option<char>, a: char, b: char) -> Option<char> {
    match o {
        Some(c) => if c == a || c == b { Some(c) } else { None },
        None => None,
    }
}

pub open spec fn token_is(t: Seq<TokenView>, q: int, k: TokenView) -> bool {
    0 <= q < t.len() && t[q] == k
}

pub open spec fn binary(op: char, l: AstView, r: AstView) -> AstView {
    AstView::Binary { op, left: Box::new(l), right: Box::new(r) }
}

/// How a token is named in messages.
pub open spec fn token_text(k: TokenView) -> Seq<char> {
    match k {
        TokenView::Number(s) => "Number("@ + s + ")"@,
        TokenView::Operator(c) => "Operator('"@.push(c) + "')"@,
        TokenView::LeftParen => "LeftParen"@,
        TokenView::RightParen => "RightParen"@,
        TokenView::Function(s) => "Function(\""@ + s + "\")"@,
        TokenView::Constant(s) => "Constant(\""@ + s + "\")"@,
        TokenView::PrefixOp(s) => "PrefixOp(\""@ + s + "\")"@,
    }
}

/// How the token at position `q`, or the end of input, is named in messages.
pub open spec fn describe(t: Seq<TokenView>, q: int) -> Seq<char> {
    if 0 <= q < t.len() {
        "Some("@ + token_text(t[q]) + ")"@
    } else {
        "None"@
    }
}

/// The error for a token that no production expects.
pub open spec fn unexpected(t: Seq<TokenView>, q: int) -> ErrorView {
    ErrorView::ParseError("意外的 token: "@ + describe(t, q))
}

/// Every successful production consumes at least one token; the guards `p < q <= t.len()`
/// below state that progress where the recursion relies on it.
pub open spec fn expr_spec(t: Seq<TokenView>, p: int) -> Parsed
    decreases t.len() - p, 7int,
{
    add_spec(t, p)
}

pub open spec fn add_spec(t: Seq<TokenView>, p: int) -> Parsed
    decreases t.len() - p, 6int,
{
    match mul_spec(t, p) {
        Err(e) => Err(e),
        Ok((l, q)) => if p < q <= t.len() { add_rest(t, l, q) } else { Ok((l, q)) },
    }
}

/// Left-associative continuation of a sum whose left operand ends before position `q`.
pub open spec fn add_rest(t: Seq<TokenView>, left: AstView, q: int) -> Parsed
    decreases t.len() - q, 5int,
{
    match among(op_at(t, q), '+', '-') {
        None => Ok((left, q)),
        Some(op) => match mul_spec(t, q + 1) {
            Err(e) => Err(e),
            Ok((r, q2)) => if q < q2 <= t.len() {
                add_rest(t, binary(op, left, r), q2)
            } else {
                Ok((binary(op, left, r), q2))
            },
        },
    }
}

pub open spec fn mul_spec(t: Seq<TokenView>, p: int) -> Parsed
    decreases t.len() - p, 4int,
{
    match pow_spec(t, p) {
        Err(e) => Err(e),
        Ok((l, q)) => if p < q <= t.len() { mul_rest(t, l, q) } else { Ok((l, q)) },
    }
}

/// Left-associative continuation of a product whose left operand ends before position `q`.
pub open spec fn mul_rest(t: Seq<TokenView>, left: AstView, q: int) -> Parsed
    decreases t.len() - q, 3int,
{
    match among(op_at(t, q), '*', '/') {
        None => Ok((left, q)),
        Some(op) => match pow_spec(t, q + 1) {
            Err(e) => Err(e),
            Ok((r, q2)) => if q < q2 <= t.len() {
                mul_rest(t, binary(op, left, r), q2)
            } else {
                Ok((binary(op, left, r), q2))
            },
        },
    }
}

/// A power: `^` groups to the right, so `a ^ b ^ c` is `a ^ (b ^ c)`.
pub open spec fn pow_spec(t: Seq<TokenView>, p: int) -> Parsed
    decreases t.len() - p, 2int,
{
    match unary_spec(t, p) {
        Err(e) => Err(e),
        Ok((l, q)) => if op_at(t, q) == Some('^') && p < q {
            match pow_spec(t, q + 1) {
                Err(e) => Err(e),
                Ok((r, q2)) => Ok((binary('^', l, r), q2)),
            }
        } else {
            Ok((l, q))
        },
    }
}

/// Prefix `+`, `-` and prefix operators such as the root sign, which nest to the right.
pub open spec fn unary_spec(t: Seq<TokenView>, p: int) -> Parsed
    decreases t.len() - p, 1int,
{
    if 0 <= p < t.len() {
        match t[p] {
            TokenView::Operator(op) => if op == '+' || op == '-' {
                match unary_spec(t, p + 1) {
                    Err(e) => Err(e),
                    Ok((o, q)) => Ok((AstView::Unary { op, operand: Box::new(o) }, q)),
                }
            } else {
                primary_spec(t, p)
            },
            TokenView::PrefixOp(name) => match unary_spec(t, p + 1) {
                Err(e) => Err(e),
                Ok((o, q)) => Ok((AstView::Call { name, args: seq![o] }, q)),
            },
            _ => primary_spec(t, p),
        }
    } else {
        primary_spec(t, p)
    }
}

/// A number, a parenthesised expression, a call of a named function on at most one
/// argument, or a named constant.
pub open spec fn primary_spec(t: Seq<TokenView>, p: int) -> Parsed
    decreases t.len() - p, 0int,
{
    if 0 <= p < t.len() {
        match t[p] {
            TokenView::Number(s) => Ok((AstView::Number(NumeralView::Literal(s)), p + 1)),
            TokenView::LeftParen => match expr_spec(t, p + 1) {
                Err(e) => Err(e),
                Ok((e, q)) => if token_is(t, q, TokenView::RightParen) {
                    Ok((e, q + 1))
                } else {
                    Err(ErrorView::ParseError("缺少右括号"@))
                },
            },
            TokenView::Function(name) => if token_is(t, p + 1, TokenView::LeftParen) {
                if token_is(t, p + 2, TokenView::RightParen) {
                    Ok((AstView::Call { name, args: Seq::empty() }, p + 3))
                } else {
                    match expr_spec(t, p + 2) {
                        Err(e) => Err(e),
                        Ok((a, q)) => if token_is(t, q, TokenView::RightParen) {
                            Ok((AstView::Call { name, args: seq![a] }, q + 1))
                        } else {
                            Err(ErrorView::ParseError("函数 "@ + name + " 参数列表缺少右括号"@))
                        },
                    }
                }
            } else {
                Err(ErrorView::ParseError("函数 "@ + name + " 后缺少左括号"@))
            },
            TokenView::Constant(name) => if name == "pi"@ {
                Ok((AstView::Number(NumeralView::Pi), p + 1))
            } else if name == "e"@ {
                Ok((AstView::Number(NumeralView::E), p + 1))
            } else {
                Err(ErrorView::ParseError("未知常量: "@ + name))
            },
            _ => Err(unexpected(t, p)),
        }
    } else {
        Err(unexpected(t, p))
    }
}

/// The tree of a whole token sequence: it must be non-empty and read completely.
pub open spec fn parse_spec(t: Seq<TokenView>) -> Result<AstView, ErrorView> {
    if t.len() == 0 {
        Err(ErrorView::ParseError("空表达式"@))
    } else {
        match expr_spec(t, 0) {
            Err(e) => Err(e),
            Ok((a, q)) => if q == t.len() { Ok(a) } else { Err(unexpected(t, q)) },
        }
    }
}

/// What text becomes: its tokens parsed into a tree, or the first error on the way.
pub open spec fn front_end(text: Seq<char>) -> Result<AstView, ErrorView> {
    match tokenize_spec(text) {
        Ok(t) => parse_spec(t),
        Err(e) => Err(e),
    }
}

/// The view of an outcome of a production.
pub open spec fn parsed(r: Result<(AstNode, usize), Error>) -> Parsed {
    match r {
        Ok((n, q)) => Ok((n@, q as int)),
        Err(e) => Err(e@),
    }
}

/// The view of an outcome of `parse`.
pub open spec fn tree(r: Result<AstNode, Error>) -> Result<AstView, ErrorView> {
    match r {
        Ok(n) => Ok(n@),
        Err(e) => Err(e@),
    }
}

/// Whether a production's outcome moved forward within the tokens.
pub open spec fn advanced(r: Result<(AstNode, usize), Error>, p: int, len: int) -> bool {
    match r {
        Ok((_, q)) => p < q <= len,
        Err(_) => true,
    }
}

fn operator_among(toks: &Vec<Token>, q: usize, a: char, b: char) -> (r: Option<char>)
    ensures
        r == among(op_at(tokens_view(toks@), q as int), a, b),
{
    if q < toks.len() {
        match &toks[q] {
            Token::Operator(c) => if *c == a || *c == b { Some(*c) } else { None },
            _ => None,
        }
    } else {
        None
    }
}

fn is_right_paren(toks: &Vec<Token>, q: usize) -> (r: bool)
    ensures
        r == token_is(tokens_view(toks@), q as int, TokenView::RightParen),
{
    q < toks.len() && matches!(toks[q], Token::RightParen)
}

fn is_left_paren(toks: &Vec<Token>, q: usize) -> (r: bool)
    ensures
        r == token_is(tokens_view(toks@), q as int, TokenView::LeftParen),
{
    q < toks.len() && matches!(toks[q], Token::LeftParen)
}

fn quoted(prefix: &str, s: &String, suffix: &str) -> (r: String)
    ensures
        r@ == prefix@ + s@ + suffix@,
{
    let mut r = String::from_str(prefix);
    r.append(s.as_str());
    r.append(suffix);
    r
}

fn describe_at(toks: &Vec<Token>, q: usize) -> (r: String)
    ensures
        r@ == describe(tokens_view(toks@), q as int),
{
    if q < toks.len() {
        let inner = match &toks[q] {
            Token::Number(s) => quoted("Number(", s, ")"),
            Token::Operator(c) => {
                let mut m = String::from_str("Operator('");
                push_char(&mut m, *c);
                m.append("')");
                m
            },
            Token::LeftParen => String::from_str("LeftParen"),
            Token::RightParen => String::from_str("RightParen"),
            Token::Function(s) => quoted("Function(\"", s, "\")"),
            Token::Constant(s) => quoted("Constant(\"", s, "\")"),
            Token::PrefixOp(s) => quoted("PrefixOp(\"", s, "\")"),
        };
        quoted("Some(", &inner, ")")
    } else {
        String::from_str("None")
    }
}

fn unexpected_at(toks: &Vec<Token>, q: usize) -> (e: Error)
    ensures
        e@ == unexpected(tokens_view(toks@), q as int),
{
    let mut m = String::from_str("意外的 token: ");
    m.append(describe_at(toks, q).as_str());
    Error::ParseError(m)
}

fn parse_expression(toks: &Vec<Token>, p: usize) -> (r: Result<(AstNode, usize), Error>)
    requires
        p <= toks.len(),
    ensures
        parsed(r) == expr_spec(tokens_view(toks@), p as int),
        advanced(r, p as int, toks.len() as int),
    decreases toks.len() - p, 7int,
{
    parse_additive(toks, p)
}

fn parse_additive(toks: &Vec<Token>, p: usize) -> (r: Result<(AstNode, usize), Error>)
    requires
        p <= toks.len(),
    ensures
        parsed(r) == add_spec(tokens_view(toks@), p as int),
        advanced(r, p as int, toks.len() as int),
    decreases toks.len() - p, 6int,
{
    let ghost t = tokens_view(toks@);
    let (mut left, mut q) = match parse_multiplicative(toks, p) {
        Ok(x) => x,
        Err(e) => return Err(e),
    };
    let mut next = operator_among(toks, q, '+', '-');
    while next.is_some()
        invariant
            t == tokens_view(toks@),
            p < q <= toks.len(),
            next == among(op_at(t, q as int), '+', '-'),
            add_rest(t, left@, q as int) == add_spec(t, p as int),
        decreases toks.len() - q,
    {
        let op = next.unwrap();
        let (right, q2) = match parse_multiplicative(toks, q + 1) {
            Ok(x) => x,
            Err(e) => return Err(e),
        };
        left = AstNode::BinaryOp { op, left: Box::new(left), right: Box::new(right) };
        q = q2;
        next = operator_among(toks, q, '+', '-');
    }
    Ok((left, q))
}

fn parse_multiplicative(toks: &Vec<Token>, p: usize) -> (r: Result<(AstNode, usize), Error>)
    requires
        p <= toks.len(),
    ensures
        parsed(r) == mul_spec(tokens_view(toks@), p as int),
        advanced(r, p as int, toks.len() as int),
    decreases toks.len() - p, 4int,
{
    let ghost t = tokens_view(toks@);
    let (mut left, mut q) = match parse_power(toks, p) {
        Ok(x) => x,
        Err(e) => return Err(e),
    };
    let mut next = operator_among(toks, q, '*', '/');
    while next.is_some()
        invariant
            t == tokens_view(toks@),
            p < q <= toks.len(),
            next == among(op_at(t, q as int), '*', '/'),
            mul_rest(t, left@, q as int) == mul_spec(t, p as int),
        decreases toks.len() - q,
    {
        let op = next.unwrap();
        let (right, q2) = match parse_power(toks, q + 1) {
            Ok(x) => x,
            Err(e) => return Err(e),
        };
        left = AstNode::BinaryOp { op, left: Box::new(left), right: Box::new(right) };
        q = q2;
        next = operator_among(toks, q, '*', '/');
    }
    Ok((left, q))
}

fn parse_power(toks: &Vec<Token>, p: usize) -> (r: Result<(AstNode, usize), Error>)
    requires
        p <= toks.len(),
    ensures
        parsed(r) == pow_spec(tokens_view(toks@), p as int),
        advanced(r, p as int, toks.len() as int),
    decreases toks.len() - p, 2int,
{
    let (left, q) = match parse_unary(toks, p) {
        Ok(x) => x,
        Err(e) => return Err(e),
    };
    if operator_among(toks, q, '^', '^').is_some() {
        let (right, q2) = match parse_power(toks, q + 1) {
            Ok(x) => x,
            Err(e) => return Err(e),
        };
        return Ok((AstNode::BinaryOp { op: '^', left: Box::new(left), right: Box::new(right) }, q2));
    }
    Ok((left, q))
}

fn parse_unary(toks: &Vec<Token>, p: usize) -> (r: Result<(AstNode, usize), Error>)
    requires
        p <= toks.len(),
    ensures
        parsed(r) == unary_spec(tokens_view(toks@), p as int),
        advanced(r, p as int, toks.len() as int),
    decreases toks.len() - p, 1int,
{
    if p < toks.len() {
        match &toks[p] {
            Token::Operator(c) => {
                if *c == '+' || *c == '-' {
                    let op = *c;
                    let (operand, q) = match parse_unary(toks, p + 1) {
                        Ok(x) => x,
                        Err(e) => return Err(e),
                    };
                    return Ok((AstNode::UnaryOp { op, operand: Box::new(operand) }, q));
                }
            },
            Token::PrefixOp(name) => {
                let name = name.clone();
                let (operand, q) = match parse_unary(toks, p + 1) {
                    Ok(x) => x,
                    Err(e) => return Err(e),
                };
                let node = AstNode::FunctionCall { name, args: vec![operand] };
                assert(node@ == AstView::Call { name: name@, args: seq![operand@] }) by {
                    assert(node@->Call_args =~= seq![operand@]);
                }
                return Ok((node, q));
            },
            _ => {},
        }
    }
    parse_primary(toks, p)
}

fn parse_primary(toks: &Vec<Token>, p: usize) -> (r: Result<(AstNode, usize), Error>)
    requires
        p <= toks.len(),
    ensures
        parsed(r) == primary_spec(tokens_view(toks@), p as int),
        advanced(r, p as int, toks.len() as int),
    decreases toks.len() - p, 0int,
{
    if p >= toks.len() {
        return Err(unexpected_at(toks, p));
    }
    match &toks[p] {
        Token::Number(s) => Ok((AstNode::Number(Numeral::Literal(s.clone())), p + 1)),
        Token::LeftParen => {
            let (inner, q) = match parse_expression(toks, p + 1) {
                Ok(x) => x,
                Err(e) => return Err(e),
            };
            if is_right_paren(toks, q) {
                Ok((inner, q + 1))
            } else {
                Err(Error::ParseError(String::from_str("缺少右括号")))
            }
        },
        Token::Function(name) => {
            let name = name.clone();
            if !is_left_paren(toks, p + 1) {
                return Err(Error::ParseError(quoted("函数 ", &name, " 后缺少左括号")));
            }
            if is_right_paren(toks, p + 2) {
                let node = AstNode::FunctionCall { name, args: Vec::new() };
                assert(node@ == AstView::Call { name: name@, args: Seq::empty() }) by {
                    assert(node@->Call_args =~= Seq::<AstView>::empty());
                }
                return Ok((node, p + 3));
            }
            let (arg, q) = match parse_expression(toks, p + 2) {
                Ok(x) => x,
                Err(e) => return Err(e),
            };
            if is_right_paren(toks, q) {
                let node = AstNode::FunctionCall { name, args: vec![arg] };
                assert(node@ == AstView::Call { name: name@, args: seq![arg@] }) by {
                    assert(node@->Call_args =~= seq![arg@]);
                }
                Ok((node, q + 1))
            } else {
                Err(Error::ParseError(quoted("函数 ", &name, " 参数列表缺少右括号")))
            }
        },
        Token::Constant(name) => {
            if same_text(name.as_str(), "pi") {
                Ok((AstNode::Number(Numeral::Pi), p + 1))
            } else if same_text(name.as_str(), "e") {
                Ok((AstNode::Number(Numeral::E), p + 1))
            } else {
                let mut m = String::from_str("未知常量: ");
                m.append(name.as_str());
                Err(Error::ParseError(m))
            }
        },
        _ => Err(unexpected_at(toks, p)),
    }
}

/// Turns expression text into tokens, and tokens into a syntax tree.
pub struct ExpressionParser {
    allow_functions: bool,
}

impl ExpressionParser {
    /// Whether the parser reads function calls; every parser made by `new` does.
    pub closed spec fn allows_functions(&self) -> bool {
        self.allow_functions
    }

    pub fn new() -> (r: Self)
        ensures
            r.allows_functions(),
    {
        ExpressionParser { allow_functions: true }
    }

    /// The tokens of `expression`, or the first lexical error in it.
    pub fn tokenize(&self, expression: &str) -> (r: Result<Vec<Token>, Error>)
        ensures
            lexed(r) == tokenize_spec(expression@),
    {
        scan(expression)
    }

    /// The syntax tree of a whole token sequence.
    pub fn parse(&self, tokens: Vec<Token>) -> (r: Result<AstNode, Error>)
        ensures
            tree(r) == parse_spec(tokens_view(tokens@)),
    {
        if tokens.len() == 0 {
            return Err(Error::ParseError(String::from_str("空表达式")));
        }
        match parse_expression(&tokens, 0) {
            Err(e) => Err(e),
            Ok((node, q)) => {
                if q == tokens.len() {
                    Ok(node)
                } else {
                    Err(unexpected_at(&tokens, q))
                }
            },
        }
    }

    /// The syntax tree of expression text: its tokens, parsed.
    pub fn parse_text(&self, text: &str) -> (r: Result<AstNode, Error>)
        ensures
            tree(r) == front_end(text@),
    {
        match self.tokenize(text) {
            Err(e) => Err(e),
            Ok(tokens) => self.parse(tokens),
        }
    }
}

impl Default for ExpressionParser {
    fn default() -> (r: Self)
        ensures
            r.allows_functions(),
    {
        ExpressionParser::new()
    }
}

} // verus!
