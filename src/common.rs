//! Small number and text utilities shared by the calculator's front ends.
use vstd::prelude::*;
use vstd::arithmetic::div_mod::{lemma_fundamental_div_mod, lemma_mod_multiples_vanish};
use crate::text::{chars_of, is_white_space, push_char, upper_of, uppercase_char, white_space};

verus! {

/// `d` divides `n`.
pub open spec fn divides(d: int, n: int) -> bool {
    d > 0 && n % d == 0
}

/// `n` is prime: at least 2 and without a divisor strictly between 1 and `n`.
pub open spec fn prime(n: nat) -> bool {
    n >= 2 && forall|d: int| 2 <= d < n ==> !#[trigger] divides(d, n as int)
}

/// The Fibonacci numbers, starting 0, 1.
pub open spec fn fib(n: nat) -> nat
    decreases n,
{
    if n == 0 {
        0
    } else if n == 1 {
        1
    } else {
        fib((n - 1) as nat) + fib((n - 2) as nat)
    }
}

/// A divisor of `b` divides `a` exactly when it divides `a % b`.
proof fn lemma_divisor_of_remainder(a: int, b: int, d: int)
    requires
        a >= 0,
        b > 0,
        d > 0,
        b % d == 0,
    ensures
        (a % d == 0) <==> ((a % b) % d == 0),
{
    lemma_fundamental_div_mod(a, b);
    lemma_fundamental_div_mod(b, d);
    let q = a / b;
    let y = b / d;
    assert(a == d * (y * q) + a % b) by (nonlinear_arith)
        requires
            a == b * q + a % b,
            b == d * y;
    lemma_mod_multiples_vanish(y * q, a % b, d);
}

/// `d` divides both `a` and `b`.
pub open spec fn common_divisor(d: int, a: int, b: int) -> bool {
    a % d == 0 && b % d == 0
}

/// The greatest common divisor of `a` and `b`, by Euclid's algorithm: the common divisors
/// of `a` and `b` are exactly the divisors of the result (so `gcd(0, 0)` is 0).
pub fn gcd(a: u32, b: u32) -> (r: u32)
    ensures
        forall|d: int| d > 0 ==> (common_divisor(d, a as int, b as int) <==> #[trigger] (r as int % d) == 0),
{
    let mut x = a;
    let mut y = b;
    while y != 0
        invariant
            forall|d: int| #![trigger common_divisor(d, x as int, y as int)]
                d > 0 ==> (common_divisor(d, a as int, b as int) <==> common_divisor(d, x as int, y as int)),
        decreases y,
    {
        let ghost (x0, y0) = (x as int, y as int);
        let t = y;
        y = x % y;
        x = t;
        proof {
            assert forall|d: int| d > 0 implies (common_divisor(d, a as int, b as int) <==> #[trigger] common_divisor(d, x as int, y as int)) by {
                assert(common_divisor(d, a as int, b as int) <==> common_divisor(d, x0, y0));
                if y0 % d == 0 {
                    lemma_divisor_of_remainder(x0, y0, d);
                }
            }
        }
    }
    proof {
        assert forall|d: int| d > 0 implies (common_divisor(d, a as int, b as int) <==> #[trigger] (x as int % d) == 0) by {
            assert(common_divisor(d, a as int, b as int) <==> common_divisor(d, x as int, y as int));
        }
    }
    x
}

/// A number below `i * i` with a divisor of at least `i` also has one below `i`.
proof fn lemma_small_cofactor(n: int, d: int, i: int)
    requires
        2 <= i,
        n < i * i,
        i <= d < n,
        n % d == 0,
    ensures
        2 <= n / d < i,
        n % (n / d) == 0,
{
    lemma_fundamental_div_mod(n, d);
    let k = n / d;
    assert(n == d * k);
    assert(k >= 2) by (nonlinear_arith)
        requires
            n == d * k,
            d < n,
            d >= 2;
    assert(k < i) by (nonlinear_arith)
        requires
            n == d * k,
            n < i * i,
            i <= d,
            k >= 2,
            i >= 2;
    assert(n == k * d + 0) by (nonlinear_arith)
        requires
            n == d * k;
    lemma_mod_multiples_vanish(d, 0, k);
}

/// Whether `n` is prime, by trial division up to its square root.
pub fn is_prime(n: u32) -> (r: bool)
    ensures
        r == prime(n as nat),
{
    if n < 2 {
        return false;
    }
    let m = n as u64;
    let mut i: u64 = 2;
    while i * i <= m
        invariant
            m == n as u64,
            n >= 2,
            2 <= i <= 65536,
            i * i <= 4294967296,
            forall|d: int| 2 <= d < i ==> !#[trigger] divides(d, n as int),
        decreases m + 1 - i,
    {
        assert(i <= 65535) by (nonlinear_arith)
            requires
                i * i <= m,
                m <= 4294967295,
                i >= 2;
        assert(i < m) by (nonlinear_arith)
            requires
                i * i <= m,
                i >= 2;
        if m % i == 0 {
            assert(divides(i as int, n as int));
            return false;
        }
        i = i + 1;
        assert(i * i <= 4294967296) by (nonlinear_arith)
            requires
                i <= 65536;
    }
    proof {
        assert forall|d: int| 2 <= d < n implies !#[trigger] divides(d, n as int) by {
            if d >= i && divides(d, n as int) {
                lemma_small_cofactor(n as int, d, i as int);
                assert(divides(n as int / d, n as int));
            }
        }
    }
    true
}

proof fn lemma_fib_monotone(a: nat, b: nat)
    requires
        a <= b,
    ensures
        fib(a) <= fib(b),
    decreases b,
{
    if a < b {
        lemma_fib_monotone(a, (b - 1) as nat);
    }
}

/// `k` steps of the pair iteration `(a, b) -> (b, a + b)`, returning the first component.
spec fn fib_steps(k: nat, a: nat, b: nat) -> nat
    decreases k,
{
    if k == 0 { a } else { fib_steps((k - 1) as nat, b, a + b) }
}

proof fn lemma_fib_steps(k: nat, j: nat)
    ensures
        fib_steps(k, fib(j), fib(j + 1)) == fib(j + k),
    decreases k,
{
    if k > 0 {
        assert(fib(j + 2) == fib(j) + fib(j + 1));
        lemma_fib_steps((k - 1) as nat, j + 1);
        assert(j + 1 + (k - 1) == j + k);
    }
}

proof fn lemma_fib_93()
    ensures
        fib(93) == 12200160415121876738,
{
    lemma_fib_steps(93, 0);
    assert(fib(0) == 0);
    assert(fib(1) == 1);
    assert(fib_steps(93, 0, 1) == fib_steps(83, 55, 89)) by {
        reveal_with_fuel(fib_steps, 11);
    }
    assert(fib_steps(83, 55, 89) == fib_steps(73, 6765, 10946)) by {
        reveal_with_fuel(fib_steps, 11);
    }
    assert(fib_steps(73, 6765, 10946) == fib_steps(63, 832040, 1346269)) by {
        reveal_with_fuel(fib_steps, 11);
    }
    assert(fib_steps(63, 832040, 1346269) == fib_steps(53, 102334155, 165580141)) by {
        reveal_with_fuel(fib_steps, 11);
    }
    assert(fib_steps(53, 102334155, 165580141) == fib_steps(43, 12586269025, 20365011074)) by {
        reveal_with_fuel(fib_steps, 11);
    }
    assert(fib_steps(43, 12586269025, 20365011074) == fib_steps(33, 1548008755920, 2504730781961)) by {
        reveal_with_fuel(fib_steps, 11);
    }
    assert(fib_steps(33, 1548008755920, 2504730781961) == fib_steps(23, 190392490709135, 308061521170129)) by {
        reveal_with_fuel(fib_steps, 11);
    }
    assert(fib_steps(23, 190392490709135, 308061521170129) == fib_steps(13, 23416728348467685, 37889062373143906)) by {
        reveal_with_fuel(fib_steps, 11);
    }
    assert(fib_steps(13, 23416728348467685, 37889062373143906) == fib_steps(3, 2880067194370816120, 4660046610375530309)) by {
        reveal_with_fuel(fib_steps, 11);
    }
    assert(fib_steps(3, 2880067194370816120, 4660046610375530309) == fib_steps(0, 12200160415121876738, 19740274219868223167)) by {
        reveal_with_fuel(fib_steps, 4);
    }
}

/// The `n`-th Fibonacci number; the 93rd is the last that fits in a `u64`.
pub fn fibonacci(n: u32) -> (r: u64)
    requires
        n <= 93,
    ensures
        r == fib(n as nat),
{
    if n == 0 {
        return 0;
    }
    if n == 1 {
        return 1;
    }
    let mut a: u64 = 0;
    let mut b: u64 = 1;
    let mut k: u32 = 1;
    while k < n
        invariant
            1 <= k <= n <= 93,
            a == fib((k - 1) as nat),
            b == fib(k as nat),
        decreases n - k,
    {
        proof {
            lemma_fib_93();
            lemma_fib_monotone((k + 1) as nat, 93);
        }
        let t = a + b;
        a = b;
        b = t;
        k = k + 1;
    }
    b
}

/// The words of `s`, in order: its maximal runs of characters that are not white space.
/// Reading `s` from the left, white space ends a word, a character right after a word
/// character extends that word, and any other character starts a new word.
pub open spec fn words(s: Seq<char>) -> Seq<Seq<char>>
    decreases s.len(),
{
    if s.len() == 0 {
        Seq::empty()
    } else {
        let init = s.drop_last();
        let c = s.last();
        let w = words(init);
        if white_space(c) {
            w
        } else if init.len() > 0 && !white_space(init.last()) {
            w.update(w.len() - 1, w.last().push(c))
        } else {
            w.push(seq![c])
        }
    }
}

/// A word with its first character in upper case.
pub open spec fn capitalized(w: Seq<char>) -> Seq<char> {
    if w.len() == 0 { w } else { upper_of(w[0]) + w.drop_first() }
}

/// Words joined by single spaces.
pub open spec fn joined(ws: Seq<Seq<char>>) -> Seq<char>
    decreases ws.len(),
{
    if ws.len() == 0 {
        Seq::empty()
    } else if ws.len() == 1 {
        ws[0]
    } else {
        joined(ws.drop_last()) + seq![' '] + ws.last()
    }
}

/// The words of `s`, capitalised and joined by single spaces.
pub open spec fn title_case(s: Seq<char>) -> Seq<char> {
    joined(words(s).map_values(|w: Seq<char>| capitalized(w)))
}

proof fn lemma_words_nonempty(s: Seq<char>)
    requires
        s.len() > 0,
        !white_space(s.last()),
    ensures
        words(s).len() > 0,
    decreases s.len(),
{
    let init = s.drop_last();
    if init.len() > 0 && !white_space(init.last()) {
        lemma_words_nonempty(init);
    }
}

proof fn lemma_words_have_characters(s: Seq<char>)
    ensures
        forall|k: int| 0 <= k < words(s).len() ==> #[trigger] words(s)[k].len() > 0,
    decreases s.len(),
{
    if s.len() > 0 {
        let init = s.drop_last();
        lemma_words_have_characters(init);
        let w = words(init);
        if !white_space(s.last()) && init.len() > 0 && !white_space(init.last()) {
            lemma_words_nonempty(init);
            assert forall|k: int| 0 <= k < words(s).len() implies #[trigger] words(s)[k].len() > 0 by {
                if k < w.len() - 1 {
                    assert(words(s)[k] == w[k]);
                }
            }
        } else if !white_space(s.last()) {
            assert forall|k: int| 0 <= k < words(s).len() implies #[trigger] words(s)[k].len() > 0 by {
                if k < w.len() {
                    assert(words(s)[k] == w[k]);
                }
            }
        }
    }
}

proof fn lemma_joined_push(ws: Seq<Seq<char>>, x: Seq<char>)
    ensures
        joined(ws.push(x)) == if ws.len() == 0 { x } else { joined(ws) + seq![' '] + x },
{
    assert(ws.push(x).drop_last() =~= ws);
}

proof fn lemma_joined_extend(ws: Seq<Seq<char>>, c: char)
    requires
        ws.len() > 0,
    ensures
        joined(ws.update(ws.len() - 1, ws.last().push(c))) == joined(ws).push(c),
{
    let v = ws.update(ws.len() - 1, ws.last().push(c));
    if ws.len() == 1 {
        assert(v[0] == ws[0].push(c));
    } else {
        assert(v.drop_last() =~= ws.drop_last());
        assert(joined(ws.drop_last()) + seq![' '] + ws.last().push(c) =~= (joined(ws.drop_last()) + seq![' '] + ws.last()).push(c));
    }
}

/// `s` with each word capitalised and the words joined by single spaces.
pub fn to_title_case(s: &str) -> (r: String)
    ensures
        r@ == title_case(s@),
{
    let chars = chars_of(s);
    let ghost text = s@;
    let mut out = String::new();
    let mut in_word = false;
    let mut any_word = false;
    let mut i: usize = 0;
    proof {
        assert(text.subrange(0, 0) =~= Seq::<char>::empty());
        assert(words(Seq::<char>::empty()).map_values(|w: Seq<char>| capitalized(w)) =~= Seq::<Seq<char>>::empty());
    }
    while i < chars.len()
        invariant
            chars@ == text,
            i <= chars.len(),
            out@ == title_case(text.subrange(0, i as int)),
            in_word == (i > 0 && !white_space(text[i - 1])),
            any_word == (words(text.subrange(0, i as int)).len() > 0),
        decreases chars.len() - i,
    {
        let c = chars[i];
        let ghost t = text.subrange(0, i as int);
        let ghost t2 = text.subrange(0, i + 1);
        let ghost w = words(t);
        let ghost caps = w.map_values(|x: Seq<char>| capitalized(x));
        proof {
            assert(t2.drop_last() =~= t);
            assert(t2.last() == c);
            if i > 0 {
                assert(t.last() == text[i - 1]);
            }
        }
        if is_white_space(c) {
            in_word = false;
            assert(words(t2) == w);
        } else if in_word {
            push_char(&mut out, c);
            proof {
                lemma_words_nonempty(t);
                let w2 = w.update(w.len() - 1, w.last().push(c));
                assert(words(t2) == w2);
                lemma_words_have_characters(t);
                let last = w.last();
                assert(last.len() > 0);
                assert(last.push(c)[0] == last[0]);
                assert(last.push(c).drop_first() =~= last.drop_first().push(c));
                assert(capitalized(last.push(c)) =~= capitalized(last).push(c));
                assert(w2.map_values(|x: Seq<char>| capitalized(x)) =~= caps.update(caps.len() - 1, caps.last().push(c)));
                lemma_joined_extend(caps, c);
            }
        } else {
            if any_word {
                push_char(&mut out, ' ');
            }
            let up = uppercase_char(c);
            out.append(up.as_str());
            proof {
                let w2 = w.push(seq![c]);
                assert(words(t2) == w2);
                assert(capitalized(seq![c]) =~= upper_of(c));
                assert(w2.map_values(|x: Seq<char>| capitalized(x)) =~= caps.push(upper_of(c)));
                lemma_joined_push(caps, upper_of(c));
                if any_word {
                    assert(out@ =~= joined(caps) + seq![' '] + upper_of(c));
                }
            }
            in_word = true;
            any_word = true;
        }
        i = i + 1;
    }
    proof {
        assert(text.subrange(0, chars.len() as int) =~= text);
    }
    out
}

} // verus!
