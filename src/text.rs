use vstd::prelude::*;

verus! {

/// The character for a decimal digit.
pub open spec fn digit_char(d: nat) -> char
    recommends
        d < 10,
{
    ((d + '0' as nat) as u32) as char
}

/// The decimal rendering of `n`, most significant digit first, no leading zeros.
pub open spec fn decimal(n: nat) -> Seq<char>
    decreases n,
{
    if n < 10 {
        seq![digit_char(n)]
    } else {
        decimal(n / 10) + seq![digit_char(n % 10)]
    }
}

fn digit_text(d: u64) -> (r: &'static str)
    requires
        d < 10,
    ensures
        r@ == seq![digit_char(d as nat)],
{
    proof {
        reveal_strlit("0");
        reveal_strlit("1");
        reveal_strlit("2");
        reveal_strlit("3");
        reveal_strlit("4");
        reveal_strlit("5");
        reveal_strlit("6");
        reveal_strlit("7");
        reveal_strlit("8");
        reveal_strlit("9");
    }
    match d {
        0 => "0",
        1 => "1",
        2 => "2",
        3 => "3",
        4 => "4",
        5 => "5",
        6 => "6",
        7 => "7",
        8 => "8",
        _ => "9",
    }
}

/// Appends the decimal rendering of `n` to `out`.
pub fn push_decimal(out: &mut String, n: u64)
    ensures
        final(out)@ == old(out)@ + decimal(n as nat),
    decreases n,
{
    if n >= 10 {
        push_decimal(out, n / 10);
    }
    out.append(digit_text(n % 10));
    proof {
        if n >= 10 {
            assert(decimal(n as nat) == decimal((n / 10) as nat) + seq![digit_char((n % 10) as nat)]);
        }
    }
    assert(out@ =~= old(out)@ + decimal(n as nat));
}

/// The decimal rendering of `n` as a new string.
pub fn render_decimal(n: u64) -> (r: String)
    ensures
        r@ == decimal(n as nat),
{
    let mut out = String::new();
    push_decimal(&mut out, n);
    assert(out@ =~= decimal(n as nat));
    out
}

pub open spec fn is_digit(c: char) -> bool {
    '0' <= c && c <= '9'
}

pub open spec fn digit_of(c: char) -> nat {
    (c as nat - '0' as nat) as nat
}

pub open spec fn is_paren(c: char) -> bool {
    c == '(' || c == ')'
}

/// The position of the first `(` at or after `i`.
pub open spec fn open_from(s: Seq<char>, i: int) -> Option<int>
    decreases s.len() - i,
{
    if i < 0 || i >= s.len() {
        None
    } else if s[i] == '(' {
        Some(i)
    } else {
        open_from(s, i + 1)
    }
}

/// The position of the first parenthesis at or after `i`, or the length of `s`.
pub open spec fn token_end(s: Seq<char>, i: int) -> int
    decreases s.len() - i,
{
    if i < 0 || i >= s.len() {
        s.len() as int
    } else if is_paren(s[i]) {
        i
    } else {
        token_end(s, i + 1)
    }
}

/// What follows the first `(` up to the next parenthesis or the end.
pub open spec fn thread_token(s: Seq<char>) -> Option<Seq<char>> {
    match open_from(s, 0) {
        Some(p) => Some(s.subrange(p + 1, token_end(s, p + 1))),
        None => None,
    }
}

pub open spec fn all_digits(t: Seq<char>) -> bool {
    forall|k: int| 0 <= k < t.len() ==> is_digit(#[trigger] t[k])
}

/// The number that a string of decimal digits denotes.
pub open spec fn digits_value(t: Seq<char>) -> nat
    decreases t.len(),
{
    if t.len() == 0 {
        0
    } else {
        digits_value(t.drop_last()) * 10 + digit_of(t.last())
    }
}

/// An unsigned decimal numeral with an optional leading `+`, if it fits in 64 bits.
pub open spec fn numeral(t: Seq<char>) -> Option<u64> {
    let d = if t.len() > 0 && t[0] == '+' {
        t.drop_first()
    } else {
        t
    };
    if d.len() > 0 && all_digits(d) && digits_value(d) <= u64::MAX {
        Some(digits_value(d) as u64)
    } else {
        None
    }
}

/// The number inside the parentheses of a thread's debug text, as in `ThreadId(8)`.
pub open spec fn thread_number(s: Seq<char>) -> Option<u64> {
    match thread_token(s) {
        Some(t) => numeral(t),
        None => None,
    }
}

proof fn lemma_prefix_value_le(t: Seq<char>, m: int)
    requires
        all_digits(t),
        0 <= m <= t.len(),
    ensures
        digits_value(t.subrange(0, m)) <= digits_value(t),
    decreases t.len() - m,
{
    if m < t.len() {
        lemma_prefix_value_le(t, m + 1);
        assert(t.subrange(0, m + 1).drop_last() =~= t.subrange(0, m));
    } else {
        assert(t.subrange(0, m) =~= t);
    }
}

/// Reads the number out of a thread's debug text (`ThreadId(8)` gives 8).
pub fn parse(text: &str) -> (r: Option<u64>)
    ensures
        r == thread_number(text@),
{
    let ghost s = text@;
    let n = text.unicode_len();
    let mut i: usize = 0;
    while i < n && text.get_char(i) != '('
        invariant
            n == s.len(),
            s == text@,
            0 <= i <= n,
            open_from(s, 0) == open_from(s, i as int),
        decreases n - i,
    {
        i = i + 1;
    }
    if i == n {
        return None;
    }
    let start: usize = i + 1;
    let mut j: usize = start;
    while j < n && text.get_char(j) != '(' && text.get_char(j) != ')'
        invariant
            n == s.len(),
            s == text@,
            start <= j <= n,
            token_end(s, start as int) == token_end(s, j as int),
        decreases n - j,
    {
        j = j + 1;
    }
    let ghost t = s.subrange(start as int, j as int);
    assert(thread_token(s) == Some(t));
    let mut k: usize = start;
    if k < j && text.get_char(k) == '+' {
        k = k + 1;
    }
    let ghost d = s.subrange(k as int, j as int);
    assert(d =~= if t.len() > 0 && t[0] == '+' { t.drop_first() } else { t });
    if k == j {
        return None;
    }
    assert(thread_number(s) == (if all_digits(d) && digits_value(d) <= u64::MAX {
        Some(digits_value(d) as u64)
    } else {
        None
    }));
    let dstart: usize = k;
    let mut acc: u64 = 0;
    while k < j
        invariant
            n == s.len(),
            s == text@,
            dstart <= k <= j <= n,
            d == s.subrange(dstart as int, j as int),
            thread_number(s) == (if all_digits(d) && digits_value(d) <= u64::MAX {
                Some(digits_value(d) as u64)
            } else {
                None
            }),
            all_digits(d.subrange(0, k - dstart)),
            acc as nat == digits_value(d.subrange(0, k - dstart)),
        decreases j - k,
    {
        let c = text.get_char(k);
        let ghost m = k - dstart;
        assert(d[m] == c);
        if !('0' <= c && c <= '9') {
            assert(!all_digits(d));
            return None;
        }
        let dv: u64 = (c as u32 - '0' as u32) as u64;
        assert(d.subrange(0, m + 1).drop_last() =~= d.subrange(0, m));
        assert(digits_value(d.subrange(0, m + 1)) == acc * 10 + dv);
        if acc > (u64::MAX - dv) / 10 {
            proof {
                if all_digits(d) {
                    lemma_prefix_value_le(d, m + 1);
                }
            }
            return None;
        }
        acc = acc * 10 + dv;
        k = k + 1;
        assert(all_digits(d.subrange(0, k - dstart)));
    }
    assert(d.subrange(0, k - dstart) =~= d);
    Some(acc)
}

/// The numbers of `p` in decimal, separated by `sep`.
pub open spec fn joined(p: Seq<u64>, sep: Seq<char>) -> Seq<char>
    decreases p.len(),
{
    if p.len() == 0 {
        Seq::empty()
    } else if p.len() == 1 {
        decimal(p[0] as nat)
    } else {
        joined(p.drop_last(), sep) + sep + decimal(p.last() as nat)
    }
}

/// Appends the numbers of `p` in decimal, separated by `sep`.
pub fn push_joined(out: &mut String, p: &Vec<u64>, sep: &str)
    ensures
        final(out)@ == old(out)@ + joined(p@, sep@),
{
    let ghost start = out@;
    let mut i: usize = 0;
    while i < p.len()
        invariant
            0 <= i <= p@.len(),
            out@ == start + joined(p@.subrange(0, i as int), sep@),
        decreases p@.len() - i,
    {
        let ghost before = out@;
        assert(p@.subrange(0, i + 1).drop_last() =~= p@.subrange(0, i as int));
        if i > 0 {
            out.append(sep);
        }
        push_decimal(out, p[i]);
        i = i + 1;
        proof {
            if i == 1 {
                assert(joined(p@.subrange(0, 1), sep@) == decimal(p@[0] as nat));
                assert(out@ =~= start + joined(p@.subrange(0, i as int), sep@));
            } else {
                assert(out@ =~= start + joined(p@.subrange(0, i as int), sep@));
            }
        }
    }
    assert(p@.subrange(0, p@.len() as int) =~= p@);
}

} // verus!
