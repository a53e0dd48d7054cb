//! Lexical analysis: turning expression text into tokens.
use vstd::prelude::*;
use crate::error::{Error, ErrorView};
use crate::text::{alphabetic, chars_of, is_alphabetic, is_white_space, push_char, white_space};

verus! {

/// A lexical unit of an expression.
#[derive(Debug, Clone, PartialEq)]
pub enum Token {
    /// A numeric literal, kept as its text: ASCII digits with at most one '.'.
    Number(String),
    /// One of `+ - * / ^`.
    Operator(char),
    LeftParen,
    RightParen,
    /// A run of alphabetic characters; the parser decides what it names.
    Function(String),
    /// A named constant such as `pi` or `e`.
    Constant(String),
    /// A prefix operator written as a symbol, such as the root sign.
    PrefixOp(String),
}

/// A token with its texts seen as character sequences.
pub enum TokenView {
    Number(Seq<char>),
    Operator(char),
    LeftParen,
    RightParen,
    Function(Seq<char>),
    Constant(Seq<char>),
    PrefixOp(Seq<char>),
}

impl View for Token {
    type V = TokenView;

    open spec fn view(&self) -> TokenView {
        match self {
            Token::Number(s) => TokenView::Number(s@),
            Token::Operator(c) => TokenView::Operator(*c),
            Token::LeftParen => TokenView::LeftParen,
            Token::RightParen => TokenView::RightParen,
            Token::Function(s) => TokenView::Function(s@),
            Token::Constant(s) => TokenView::Constant(s@),
            Token::PrefixOp(s) => TokenView::PrefixOp(s@),
        }
    }
}

/// The views of a sequence of tokens.
pub open spec fn tokens_view(ts: Seq<Token>) -> Seq<TokenView> {
    ts.map_values(|t: Token| t@)
}

pub open spec fn is_digit(c: char) -> bool {
    '0' <= c && c <= '9'
}

/// A character that may appear in a numeric literal.
pub open spec fn numeral_char(c: char) -> bool {
    is_digit(c) || c == '.'
}

pub open spec fn operator_char(c: char) -> bool {
    c == '+' || c == '-' || c == '*' || c == '/' || c == '^'
}

/// A numeric literal that reads as a number: at least one digit and at most one '.'.
pub open spec fn valid_numeral(t: Seq<char>) -> bool {
    &&& exists|k: int| 0 <= k < t.len() && #[trigger] is_digit(t[k])
    &&& forall|a: int, b: int| #![trigger t[a], t[b]] 0 <= a < b < t.len() && t[a] == '.' ==> t[b] != '.'
}

/// Where the run of literal characters that starts at `i` ends.
pub open spec fn numeral_end(s: Seq<char>, i: int) -> int
    decreases s.len() - i,
{
    if 0 <= i < s.len() && numeral_char(s[i]) {
        numeral_end(s, i + 1)
    } else {
        i
    }
}

/// Where the run of alphabetic characters that starts at `i` ends.
pub open spec fn word_end(s: Seq<char>, i: int) -> int
    decreases s.len() - i,
{
    if 0 <= i < s.len() && alphabetic(s[i]) {
        word_end(s, i + 1)
    } else {
        i
    }
}

pub proof fn lemma_numeral_end(s: Seq<char>, i: int)
    requires
        0 <= i <= s.len(),
    ensures
        i <= numeral_end(s, i) <= s.len(),
        forall|k: int| i <= k < numeral_end(s, i) ==> numeral_char(#[trigger] s[k]),
    decreases s.len() - i,
{
    if i < s.len() && numeral_char(s[i]) {
        lemma_numeral_end(s, i + 1);
    }
}

pub proof fn lemma_word_end(s: Seq<char>, i: int)
    requires
        0 <= i <= s.len(),
    ensures
        i <= word_end(s, i) <= s.len(),
        forall|k: int| i <= k < word_end(s, i) ==> alphabetic(#[trigger] s[k]),
    decreases s.len() - i,
{
    if i < s.len() && alphabetic(s[i]) {
        lemma_word_end(s, i + 1);
    }
}

/// `front` followed by the tokens of `rest`, or the error of `rest`.
pub open spec fn followed_by(front: Seq<TokenView>, rest: Result<Seq<TokenView>, ErrorView>) -> Result<Seq<TokenView>, ErrorView> {
    match rest {
        Ok(r) => Ok(front + r),
        Err(e) => Err(e),
    }
}

/// A character that stands for fixed tokens on its own.
pub open spec fn symbol_char(c: char) -> bool {
    c == '√' || c == 'π' || c == 'ℯ' || c == 'ⅇ' || c == '×' || c == '÷' || c == '²' || c == '³'
        || operator_char(c) || c == '(' || c == ')'
}

/// The tokens that a symbol character stands for: mathematical signs are normalised,
/// superscripts become a power of two or three.
pub open spec fn symbol_tokens(c: char) -> Seq<TokenView> {
    if c == '√' {
        seq![TokenView::PrefixOp("sqrt"@)]
    } else if c == 'π' {
        seq![TokenView::Constant("pi"@)]
    } else if c == 'ℯ' || c == 'ⅇ' {
        seq![TokenView::Constant("e"@)]
    } else if c == '×' {
        seq![TokenView::Operator('*')]
    } else if c == '÷' {
        seq![TokenView::Operator('/')]
    } else if c == '²' {
        seq![TokenView::Operator('^'), TokenView::Number("2"@)]
    } else if c == '³' {
        seq![TokenView::Operator('^'), TokenView::Number("3"@)]
    } else if c == '(' {
        seq![TokenView::LeftParen]
    } else if c == ')' {
        seq![TokenView::RightParen]
    } else {
        seq![TokenView::Operator(c)]
    }
}

/// The tokens of `s` from position `i` on, scanning left to right: whitespace is skipped,
/// symbols stand for fixed tokens, a run of digits and '.' is a numeric literal, a run of
/// alphabetic characters is a name, and any other character is an error.
pub open spec fn lex(s: Seq<char>, i: int) -> Result<Seq<TokenView>, ErrorView>
    decreases s.len() - i via lex_decreases
{
    if i < 0 || i >= s.len() {
        Ok(Seq::empty())
    } else {
        let c = s[i];
        if white_space(c) {
            lex(s, i + 1)
        } else if symbol_char(c) {
            followed_by(symbol_tokens(c), lex(s, i + 1))
        } else if numeral_char(c) {
            let j = numeral_end(s, i);
            let t = s.subrange(i, j);
            if valid_numeral(t) {
                followed_by(seq![TokenView::Number(t)], lex(s, j))
            } else {
                Err(ErrorView::InvalidNumber(t))
            }
        } else if alphabetic(c) {
            let j = word_end(s, i);
            followed_by(seq![TokenView::Function(s.subrange(i, j))], lex(s, j))
        } else {
            Err(ErrorView::InvalidCharacter(c))
        }
    }
}

#[via_fn]
proof fn lex_decreases(s: Seq<char>, i: int) {
    if 0 <= i < s.len() {
        lemma_numeral_end(s, i + 1);
        lemma_word_end(s, i + 1);
    }
}

/// The tokens of `text`, or the first lexical error in it.
pub open spec fn tokenize_spec(text: Seq<char>) -> Result<Seq<TokenView>, ErrorView> {
    lex(text, 0)
}

/// The view of a tokenizer outcome.
pub open spec fn lexed(r: Result<Vec<Token>, Error>) -> Result<Seq<TokenView>, ErrorView> {
    match r {
        Ok(ts) => Ok(tokens_view(ts@)),
        Err(e) => Err(e@),
    }
}

proof fn lemma_followed_by_assoc(a: Seq<TokenView>, b: Seq<TokenView>, r: Result<Seq<TokenView>, ErrorView>)
    ensures
        followed_by(a, followed_by(b, r)) == followed_by(a + b, r),
{
    if let Ok(x) = r {
        assert(a + (b + x) =~= (a + b) + x);
    }
}

fn is_numeral_char(c: char) -> (r: bool)
    ensures
        r == numeral_char(c),
{
    ('0' <= c && c <= '9') || c == '.'
}

/// The characters `v[from..to]` as a string.
fn collect_range(v: &Vec<char>, from: usize, to: usize) -> (r: String)
    requires
        from <= to <= v.len(),
    ensures
        r@ == v@.subrange(from as int, to as int),
{
    let mut r = String::new();
    let mut k: usize = from;
    while k < to
        invariant
            from <= k <= to <= v.len(),
            r@ == v@.subrange(from as int, k as int),
        decreases to - k,
    {
        push_char(&mut r, v[k]);
        k = k + 1;
        assert(r@ =~= v@.subrange(from as int, k as int));
    }
    r
}

/// Whether `v[from..to]` reads as a number.
fn check_numeral(v: &Vec<char>, from: usize, to: usize) -> (r: bool)
    requires
        from <= to <= v.len(),
    ensures
        r == valid_numeral(v@.subrange(from as int, to as int)),
{
    let ghost t = v@.subrange(from as int, to as int);
    let mut seen_digit = false;
    let mut seen_dot = false;
    let mut k: usize = from;
    while k < to
        invariant
            from <= k <= to <= v.len(),
            t == v@.subrange(from as int, to as int),
            seen_digit == exists|m: int| 0 <= m < k - from && #[trigger] is_digit(t[m]),
            seen_dot == exists|m: int| 0 <= m < k - from && #[trigger] t[m] == '.',
            forall|a: int, b: int| #![trigger t[a], t[b]] 0 <= a < b < k - from && t[a] == '.' ==> t[b] != '.',
        decreases to - k,
    {
        let c = v[k];
        assert(t[k - from] == c);
        if c == '.' {
            if seen_dot {
                let ghost m = choose|m: int| 0 <= m < k - from && #[trigger] t[m] == '.';
                assert(!(forall|a: int, b: int| #![trigger t[a], t[b]] 0 <= a < b < t.len() && t[a] == '.' ==> t[b] != '.')) by {
                    assert(t[m] == '.' && t[k - from] == '.');
                }
                return false;
            }
            seen_dot = true;
        }
        if '0' <= c && c <= '9' {
            seen_digit = true;
            assert(is_digit(t[k - from]));
        }
        k = k + 1;
    }
    seen_digit
}

/// Splits `text` into tokens, following `tokenize_spec`.
pub fn scan(text: &str) -> (r: Result<Vec<Token>, Error>)
    ensures
        lexed(r) == tokenize_spec(text@),
{
    let chars = chars_of(text);
    let ghost s = text@;
    let n = chars.len();
    let mut tokens: Vec<Token> = Vec::new();
    let mut i: usize = 0;
    while i < n
        invariant
            s == text@,
            chars@ == s,
            n == s.len(),
            i <= n,
            followed_by(tokens_view(tokens@), lex(s, i as int)) == lex(s, 0),
        decreases n - i,
    {
        let ghost before = tokens_view(tokens@);
        let c = chars[i];
        if is_white_space(c) {
            i = i + 1;
            continue;
        }
        let ghost front: Seq<TokenView>;
        let mut next: usize = i + 1;
        if c == '√' {
            tokens.push(Token::PrefixOp(String::from_str("sqrt")));
            proof { front = symbol_tokens(c); }
        } else if c == 'π' {
            tokens.push(Token::Constant(String::from_str("pi")));
            proof { front = symbol_tokens(c); }
        } else if c == 'ℯ' || c == 'ⅇ' {
            tokens.push(Token::Constant(String::from_str("e")));
            proof { front = symbol_tokens(c); }
        } else if c == '×' {
            tokens.push(Token::Operator('*'));
            proof { front = symbol_tokens(c); }
        } else if c == '÷' {
            tokens.push(Token::Operator('/'));
            proof { front = symbol_tokens(c); }
        } else if c == '²' {
            tokens.push(Token::Operator('^'));
            tokens.push(Token::Number(String::from_str("2")));
            proof { front = symbol_tokens(c); }
        } else if c == '³' {
            tokens.push(Token::Operator('^'));
            tokens.push(Token::Number(String::from_str("3")));
            proof { front = symbol_tokens(c); }
        } else if c == '+' || c == '-' || c == '*' || c == '/' || c == '^' {
            tokens.push(Token::Operator(c));
            proof { front = symbol_tokens(c); }
        } else if c == '(' {
            tokens.push(Token::LeftParen);
            proof { front = symbol_tokens(c); }
        } else if c == ')' {
            tokens.push(Token::RightParen);
            proof { front = symbol_tokens(c); }
        } else if is_numeral_char(c) {
            let mut j: usize = i;
            while j < n && is_numeral_char(chars[j])
                invariant
                    chars@ == s,
                    n == s.len(),
                    i <= j <= n,
                    numeral_end(s, i as int) == numeral_end(s, j as int),
                decreases n - j,
            {
                j = j + 1;
            }
            let literal = collect_range(&chars, i, j);
            if !check_numeral(&chars, i, j) {
                assert(lex(s, i as int) == Err::<Seq<TokenView>, ErrorView>(ErrorView::InvalidNumber(literal@)));
                return Err(Error::InvalidNumber(literal));
            }
            tokens.push(Token::Number(literal));
            proof { front = seq![TokenView::Number(s.subrange(i as int, j as int))]; }
            next = j;
        } else if is_alphabetic(c) {
            let mut j: usize = i;
            while j < n && is_alphabetic(chars[j])
                invariant
                    chars@ == s,
                    n == s.len(),
                    i <= j <= n,
                    word_end(s, i as int) == word_end(s, j as int),
                decreases n - j,
            {
                j = j + 1;
            }
            tokens.push(Token::Function(collect_range(&chars, i, j)));
            proof { front = seq![TokenView::Function(s.subrange(i as int, j as int))]; }
            next = j;
        } else {
            assert(lex(s, i as int) == Err::<Seq<TokenView>, ErrorView>(ErrorView::InvalidCharacter(c)));
            return Err(Error::InvalidCharacter(c));
        }
        proof {
            reveal_strlit("sqrt");
            reveal_strlit("pi");
            reveal_strlit("e");
            reveal_strlit("2");
            reveal_strlit("3");
            assert(tokens_view(tokens@) =~= before + front);
            assert(lex(s, i as int) == followed_by(front, lex(s, next as int)));
            lemma_followed_by_assoc(before, front, lex(s, next as int));
        }
        i = next;
    }
    proof {
        assert(tokens_view(tokens@) + Seq::<TokenView>::empty() =~= tokens_view(tokens@));
    }
    Ok(tokens)
}

} // verus!
