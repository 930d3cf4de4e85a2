use vstd::prelude::*;

verus! {

pub const NEWLINE: u8 = 10;
pub const SLASH: u8 = 47;
pub const DOT: u8 = 46;
pub const PLUS: u8 = 43;
pub const MINUS: u8 = 45;

/// ASCII whitespace, as a line is split into words.
pub open spec fn is_space(c: u8) -> bool {
    c == 32 || c == 9 || c == 10 || c == 11 || c == 12 || c == 13
}

pub fn is_space_byte(c: u8) -> (r: bool)
    ensures
        r == is_space(c),
{
    c == 32 || c == 9 || c == 10 || c == 11 || c == 12 || c == 13
}

/// The views of a sequence of byte strings.
pub open spec fn views(v: Seq<Vec<u8>>) -> Seq<Seq<u8>> {
    v.map_values(|w: Vec<u8>| w@)
}

/// The words of `s` from index `i` on, where `cur` is the word read so far:
/// maximal runs of non-whitespace bytes.
pub open spec fn words_from(s: Seq<u8>, i: int, cur: Seq<u8>) -> Seq<Seq<u8>>
    decreases s.len() - i,
{
    if i >= s.len() || i < 0 {
        if cur.len() > 0 { seq![cur] } else { Seq::empty() }
    } else if is_space(s[i]) {
        if cur.len() > 0 {
            seq![cur] + words_from(s, i + 1, Seq::empty())
        } else {
            words_from(s, i + 1, Seq::empty())
        }
    } else {
        words_from(s, i + 1, cur.push(s[i]))
    }
}

/// The whitespace-separated words of `s`, in order, none of them empty.
pub open spec fn words(s: Seq<u8>) -> Seq<Seq<u8>> {
    words_from(s, 0, Seq::empty())
}

/// The pieces of `s` from index `i` on between occurrences of `sep`, where `cur` is
/// the piece read so far; empty pieces are kept.
pub open spec fn pieces_from(s: Seq<u8>, sep: u8, i: int, cur: Seq<u8>) -> Seq<Seq<u8>>
    decreases s.len() - i,
{
    if i >= s.len() || i < 0 {
        seq![cur]
    } else if s[i] == sep {
        seq![cur] + pieces_from(s, sep, i + 1, Seq::empty())
    } else {
        pieces_from(s, sep, i + 1, cur.push(s[i]))
    }
}

/// `s` cut at every occurrence of `sep`: one piece more than there are separators.
pub open spec fn pieces(s: Seq<u8>, sep: u8) -> Seq<Seq<u8>> {
    pieces_from(s, sep, 0, Seq::empty())
}

/// There is always at least one piece.
pub proof fn lemma_pieces_nonempty(s: Seq<u8>, sep: u8, i: int, cur: Seq<u8>)
    ensures
        pieces_from(s, sep, i, cur).len() >= 1,
    decreases s.len() - i,
{
    if 0 <= i < s.len() {
        if s[i] == sep {
            lemma_pieces_nonempty(s, sep, i + 1, Seq::empty());
        } else {
            lemma_pieces_nonempty(s, sep, i + 1, cur.push(s[i]));
        }
    }
}

/// Splits `s` into its whitespace-separated words.
pub fn split_words(s: &[u8]) -> (r: Vec<Vec<u8>>)
    ensures
        views(r@) == words(s@),
{
    let mut out: Vec<Vec<u8>> = Vec::new();
    let mut cur: Vec<u8> = Vec::new();
    let mut i: usize = 0;
    assert(views(out@) =~= Seq::<Seq<u8>>::empty());
    while i < s.len()
        invariant
            i <= s.len(),
            views(out@) + words_from(s@, i as int, cur@) == words(s@),
        decreases s.len() - i,
    {
        let c = s[i];
        if is_space_byte(c) {
            if cur.len() > 0 {
                let ghost before = out@;
                let ghost w = cur@;
                out.push(cur);
                cur = Vec::new();
                assert(views(out@) =~= views(before).push(w));
                assert(views(before) + (seq![w] + words_from(s@, i + 1, Seq::empty())) =~= views(out@)
                    + words_from(s@, i + 1, cur@));
            } else {
                assert(cur@ =~= Seq::<u8>::empty());
            }
        } else {
            cur.push(c);
        }
        i += 1;
    }
    if cur.len() > 0 {
        let ghost before = out@;
        let ghost w = cur@;
        out.push(cur);
        assert(views(out@) =~= views(before).push(w));
        assert(views(before) + seq![w] =~= views(out@));
    } else {
        assert(views(out@) + Seq::<Seq<u8>>::empty() =~= views(out@));
    }
    out
}

/// Cuts `s` at every occurrence of `sep`, keeping empty pieces.
pub fn split_on(s: &[u8], sep: u8) -> (r: Vec<Vec<u8>>)
    ensures
        views(r@) == pieces(s@, sep),
        r@.len() >= 1,
{
    proof {
        lemma_pieces_nonempty(s@, sep, 0, Seq::empty());
    }
    let mut out: Vec<Vec<u8>> = Vec::new();
    let mut cur: Vec<u8> = Vec::new();
    let mut i: usize = 0;
    assert(views(out@) =~= Seq::<Seq<u8>>::empty());
    while i < s.len()
        invariant
            i <= s.len(),
            views(out@) + pieces_from(s@, sep, i as int, cur@) == pieces(s@, sep),
        decreases s.len() - i,
    {
        let c = s[i];
        if c == sep {
            let ghost before = out@;
            let ghost w = cur@;
            out.push(cur);
            cur = Vec::new();
            assert(views(out@) =~= views(before).push(w));
            assert(views(before) + (seq![w] + pieces_from(s@, sep, i + 1, Seq::empty())) =~= views(out@)
                + pieces_from(s@, sep, i + 1, cur@));
        } else {
            cur.push(c);
        }
        i += 1;
    }
    let ghost before = out@;
    let ghost w = cur@;
    out.push(cur);
    assert(views(out@) =~= views(before).push(w));
    assert(views(before) + seq![w] =~= views(out@));
    out
}

pub open spec fn is_digit(c: u8) -> bool {
    48 <= c <= 57
}

pub open spec fn all_digits(s: Seq<u8>) -> bool {
    forall|i: int| 0 <= i < s.len() ==> is_digit(#[trigger] s[i])
}

/// The value of a string of decimal digits, most significant first.
pub open spec fn decimal(s: Seq<u8>) -> nat
    decreases s.len(),
{
    if s.len() == 0 {
        0
    } else {
        decimal(s.drop_last()) * 10 + (s.last() - 48) as nat
    }
}

/// A digit string is worth at least as much as any of its prefixes.
pub proof fn lemma_decimal_prefix_le(s: Seq<u8>, n: int)
    requires
        all_digits(s),
        0 <= n <= s.len(),
    ensures
        decimal(s.take(n)) <= decimal(s),
    decreases s.len(),
{
    if n < s.len() {
        assert(s.drop_last().take(n) =~= s.take(n));
        lemma_decimal_prefix_le(s.drop_last(), n);
    } else {
        assert(s.take(n) =~= s);
    }
}

/// Reads an unsigned decimal integer: one or more digits and nothing else, with a
/// value that fits in `usize`.
pub fn parse_decimal(s: &[u8]) -> (r: Option<usize>)
    ensures
        r == (if s@.len() > 0 && all_digits(s@) && decimal(s@) <= usize::MAX {
            Some(decimal(s@) as usize)
        } else {
            None::<usize>
        }),
{
    if s.len() == 0 {
        return None;
    }
    let mut acc: usize = 0;
    let mut i: usize = 0;
    assert(s@.take(0) =~= Seq::<u8>::empty());
    while i < s.len()
        invariant
            i <= s.len(),
            all_digits(s@.take(i as int)),
            acc as nat == decimal(s@.take(i as int)),
        decreases s.len() - i,
    {
        let c = s[i];
        if c < 48 || c > 57 {
            assert(!is_digit(s@[i as int]));
            return None;
        }
        let d: usize = (c - 48) as usize;
        assert(s@.take(i + 1).drop_last() =~= s@.take(i as int));
        if acc > (usize::MAX - d) / 10 {
            assert(acc * 10 + d > usize::MAX) by (nonlinear_arith)
                requires
                    acc > (usize::MAX - d) / 10,
                    d <= 9,
            ;
            proof {
                if all_digits(s@) {
                    lemma_decimal_prefix_le(s@, i + 1);
                }
            }
            return None;
        }
        assert(acc * 10 + d <= usize::MAX) by (nonlinear_arith)
            requires
                acc <= (usize::MAX - d) / 10,
                d <= 9,
        ;
        acc = acc * 10 + d;
        i += 1;
        assert(all_digits(s@.take(i as int)));
    }
    assert(s@.take(s.len() as int) =~= s@);
    Some(acc)
}

pub open spec fn is_sign(c: u8) -> bool {
    c == 43 || c == 45
}

pub open spec fn is_exp_mark(c: u8) -> bool {
    c == 101 || c == 69
}

/// ASCII lower case.
pub open spec fn lower(c: u8) -> u8 {
    if 65 <= c <= 90 {
        (c + 32) as u8
    } else {
        c
    }
}

/// `u` spells the lower-case word `w`, in any mix of cases.
pub open spec fn spells(u: Seq<u8>, w: Seq<u8>) -> bool {
    &&& u.len() == w.len()
    &&& forall|i: int| 0 <= i < u.len() ==> lower(#[trigger] u[i]) == w[i]
}

/// The end of the run of digits that starts at `i`.
pub open spec fn digits_end(s: Seq<u8>, i: int) -> int
    decreases s.len() - i,
{
    if 0 <= i < s.len() && is_digit(s[i]) {
        digits_end(s, i + 1)
    } else {
        i
    }
}

/// An optional sign followed by one or more digits.
pub open spec fn is_exponent(e: Seq<u8>) -> bool {
    let d = if e.len() > 0 && is_sign(e[0]) { e.drop_first() } else { e };
    d.len() > 0 && all_digits(d)
}

/// Digits with an optional point, at least one digit in all, then an optional
/// exponent: `e` or `E` and a signed integer.
pub open spec fn is_number(u: Seq<u8>) -> bool {
    let a = digits_end(u, 0);
    let has_point = a < u.len() && u[a] == 46;
    let b = if has_point { digits_end(u, a + 1) } else { a };
    let n_digits = if has_point { b - 1 } else { a };
    &&& n_digits > 0
    &&& (b == u.len() || (is_exp_mark(u[b]) && is_exponent(u.subrange(b + 1, u.len() as int))))
}

/// `inf`, `infinity` or `nan`, in any case.
pub open spec fn is_special(u: Seq<u8>) -> bool {
    ||| spells(u, seq![105u8, 110, 102])
    ||| spells(u, seq![105u8, 110, 102, 105, 110, 105, 116, 121])
    ||| spells(u, seq![110u8, 97, 110])
}

/// A decimal floating-point literal: an optional sign, then a number or one of the
/// special words.
pub open spec fn is_float_literal(s: Seq<u8>) -> bool {
    let u = if s.len() > 0 && is_sign(s[0]) { s.drop_first() } else { s };
    is_number(u) || is_special(u)
}

fn scan_digits(s: &[u8], i: usize) -> (r: usize)
    requires
        i <= s.len(),
    ensures
        r == digits_end(s@, i as int),
        i <= r <= s.len(),
{
    let mut j: usize = i;
    while j < s.len() && 48 <= s[j] && s[j] <= 57
        invariant
            i <= j <= s.len(),
            digits_end(s@, i as int) == digits_end(s@, j as int),
        decreases s.len() - j,
    {
        j += 1;
    }
    j
}

fn all_digits_exec(s: &[u8]) -> (r: bool)
    ensures
        r == all_digits(s@),
{
    let mut i: usize = 0;
    while i < s.len()
        invariant
            i <= s.len(),
            forall|k: int| 0 <= k < i ==> is_digit(#[trigger] s@[k]),
        decreases s.len() - i,
    {
        if s[i] < 48 || s[i] > 57 {
            return false;
        }
        i += 1;
    }
    true
}

fn spells_exec(u: &[u8], w: &[u8]) -> (r: bool)
    ensures
        r == spells(u@, w@),
{
    if u.len() != w.len() {
        return false;
    }
    let mut i: usize = 0;
    while i < u.len()
        invariant
            i <= u.len(),
            u.len() == w.len(),
            forall|k: int| 0 <= k < i ==> lower(#[trigger] u@[k]) == w@[k],
        decreases u.len() - i,
    {
        let c = u[i];
        let l: u8 = if 65 <= c && c <= 90 { c + 32 } else { c };
        if l != w[i] {
            return false;
        }
        i += 1;
    }
    true
}

fn is_exponent_exec(e: &[u8]) -> (r: bool)
    ensures
        r == is_exponent(e@),
{
    if e.len() > 0 && (e[0] == PLUS || e[0] == MINUS) {
        let d = &e[1..e.len()];
        assert(d@ =~= e@.drop_first());
        d.len() > 0 && all_digits_exec(d)
    } else {
        e.len() > 0 && all_digits_exec(e)
    }
}

fn is_number_exec(u: &[u8]) -> (r: bool)
    ensures
        r == is_number(u@),
{
    let a = scan_digits(u, 0);
    let has_point = a < u.len() && u[a] == DOT;
    let b = if has_point { scan_digits(u, a + 1) } else { a };
    let n_digits: usize = if has_point { b - 1 } else { a };
    if n_digits == 0 {
        return false;
    }
    if b == u.len() {
        return true;
    }
    (u[b] == 101 || u[b] == 69) && is_exponent_exec(&u[b + 1..u.len()])
}

fn is_special_exec(u: &[u8]) -> (r: bool)
    ensures
        r == is_special(u@),
{
    let inf: [u8; 3] = [105, 110, 102];
    let infinity: [u8; 8] = [105, 110, 102, 105, 110, 105, 116, 121];
    let nan: [u8; 3] = [110, 97, 110];
    assert(inf@ =~= seq![105u8, 110, 102]);
    assert(infinity@ =~= seq![105u8, 110, 102, 105, 110, 105, 116, 121]);
    assert(nan@ =~= seq![110u8, 97, 110]);
    spells_exec(u, inf.as_slice()) || spells_exec(u, infinity.as_slice()) || spells_exec(u, nan.as_slice())
}

/// Whether `s` is a floating-point literal: an optional sign, then `inf`,
/// `infinity` or `nan` in any case, or digits with an optional point and
/// exponent.
pub fn is_float_literal_exec(s: &[u8]) -> (r: bool)
    ensures
        r == is_float_literal(s@),
{
    if s.len() > 0 && (s[0] == PLUS || s[0] == MINUS) {
        let u = &s[1..s.len()];
        assert(u@ =~= s@.drop_first());
        is_number_exec(u) || is_special_exec(u)
    } else {
        is_number_exec(s) || is_special_exec(s)
    }
}

} // verus!
