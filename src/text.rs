//! Line structure of a character sequence: line breaks, where each line
//! starts and ends, and the (line, column) of a position.
use vstd::prelude::*;

verus! {

/// Number of line breaks in `t`.
pub open spec fn newline_count(t: Seq<char>) -> nat
    decreases t.len(),
{
    if t.len() == 0 {
        0
    } else {
        newline_count(t.drop_last()) + if t.last() == '\n' {
            1nat
        } else {
            0nat
        }
    }
}

/// Position just after the `m`-th line break of `t`, which is where line `m`
/// begins (line 0 begins at 0).
pub open spec fn line_start(t: Seq<char>, m: nat) -> nat
    decreases t.len(),
{
    if m == 0 || t.len() == 0 {
        0
    } else if newline_count(t.drop_last()) >= m {
        line_start(t.drop_last(), m)
    } else {
        t.len()
    }
}

/// Position where line `m` ends: its line break, or the end of the text for
/// the last line.
pub open spec fn line_end(t: Seq<char>, m: nat) -> nat {
    if m < newline_count(t) {
        (line_start(t, m + 1) - 1) as nat
    } else {
        t.len()
    }
}

/// Number of characters on line `m`, its line break excluded.
pub open spec fn line_len(t: Seq<char>, m: nat) -> nat {
    (line_end(t, m) - line_start(t, m)) as nat
}

/// Line on which position `p` lies: the number of line breaks before it.
pub open spec fn line_of(t: Seq<char>, p: nat) -> nat {
    newline_count(t.take(p as int))
}

/// Column of position `p`: its distance from the start of its line.
pub open spec fn col_of(t: Seq<char>, p: nat) -> nat {
    (p - line_start(t, line_of(t, p))) as nat
}

pub proof fn lemma_count_le_len(t: Seq<char>)
    ensures
        newline_count(t) <= t.len(),
    decreases t.len(),
{
    if t.len() > 0 {
        lemma_count_le_len(t.drop_last());
    }
}

/// Counting line breaks over a longer prefix never gives fewer.
pub proof fn lemma_count_mono(t: Seq<char>, a: nat, b: nat)
    requires
        a <= b <= t.len(),
    ensures
        newline_count(t.take(a as int)) <= newline_count(t.take(b as int)),
    decreases b - a,
{
    if a < b {
        assert(t.take(b as int).drop_last() =~= t.take(b - 1));
        lemma_count_mono(t, a, (b - 1) as nat);
    }
}

/// The count over `t.take((p + 1) as int)` adds the character at `p`.
pub proof fn lemma_count_step(t: Seq<char>, p: nat)
    requires
        p < t.len(),
    ensures
        newline_count(t.take((p + 1) as int)) == newline_count(t.take(p as int)) + if t[p as int] == '\n' {
            1nat
        } else {
            0nat
        },
{
    assert(t.take((p + 1) as int).drop_last() =~= t.take(p as int));
}

/// Where line `m` starts depends only on a prefix that holds its line break.
pub proof fn lemma_line_start_prefix(t: Seq<char>, p: nat, m: nat)
    requires
        p <= t.len(),
        m <= newline_count(t.take(p as int)),
    ensures
        line_start(t, m) == line_start(t.take(p as int), m),
    decreases t.len(),
{
    if p == t.len() {
        assert(t.take(p as int) =~= t);
    } else {
        let u = t.drop_last();
        assert(u.take(p as int) =~= t.take(p as int));
        assert(u.take(u.len() as int) =~= u);
        lemma_count_mono(u, p, u.len());
        lemma_line_start_prefix(u, p, m);
    }
}

/// Line `m > 0` starts right after a line break, and `m` breaks precede it.
pub proof fn lemma_line_start_facts(t: Seq<char>, m: nat)
    requires
        m <= newline_count(t),
    ensures
        line_start(t, m) <= t.len(),
        newline_count(t.take(line_start(t, m) as int)) == m,
        m > 0 ==> line_start(t, m) > 0 && t[line_start(t, m) - 1] == '\n',
    decreases t.len(),
{
    if m == 0 {
        assert(t.take(0) =~= Seq::<char>::empty());
    } else {
        let u = t.drop_last();
        if newline_count(u) >= m {
            lemma_line_start_facts(u, m);
            let s = line_start(u, m);
            assert(u.take(s as int) =~= t.take(s as int));
        } else {
            assert(t.take(t.len() as int) =~= t);
        }
    }
}

/// A position right after a line break is where the next line starts.
pub proof fn lemma_line_start_at_break(t: Seq<char>, p: nat)
    requires
        0 < p <= t.len(),
        t[p - 1] == '\n',
    ensures
        line_start(t, newline_count(t.take(p as int))) == p,
{
    let m = newline_count(t.take(p as int));
    lemma_count_step(t, (p - 1) as nat);
    lemma_line_start_prefix(t, p, m);
    assert(t.take(p as int).drop_last() =~= t.take(p - 1));
}

/// Line `m` spans `line_start(t, m) ..= line_end(t, m)` within the text.
pub proof fn lemma_line_bounds(t: Seq<char>, m: nat)
    requires
        m <= newline_count(t),
    ensures
        line_start(t, m) <= line_end(t, m) <= t.len(),
        newline_count(t.take(line_end(t, m) as int)) == m,
        m < newline_count(t) ==> t[line_end(t, m) as int] == '\n',
{
    lemma_line_start_facts(t, m);
    if m < newline_count(t) {
        let s = line_start(t, m + 1);
        lemma_line_start_facts(t, m + 1);
        assert(t.take(s as int).drop_last() =~= t.take(s - 1));
        if s - 1 < line_start(t, m) {
            lemma_count_mono(t, s, line_start(t, m));
        }
    } else {
        assert(t.take(t.len() as int) =~= t);
    }
}

/// Every position from the start to the end of line `m` lies on line `m`.
pub proof fn lemma_on_line(t: Seq<char>, m: nat, q: nat)
    requires
        m <= newline_count(t),
        line_start(t, m) <= q <= line_end(t, m),
    ensures
        line_of(t, q) == m,
{
    lemma_line_start_facts(t, m);
    lemma_line_bounds(t, m);
    lemma_count_mono(t, line_start(t, m), q);
    lemma_count_mono(t, q, line_end(t, m));
}

/// A position lies between the start and the end of its own line.
pub proof fn lemma_position_in_line(t: Seq<char>, p: nat)
    requires
        p <= t.len(),
    ensures
        line_of(t, p) <= newline_count(t),
        line_start(t, line_of(t, p)) <= p <= line_end(t, line_of(t, p)),
{
    let m = line_of(t, p);
    assert(t.take(t.len() as int) =~= t);
    lemma_count_mono(t, p, t.len());
    lemma_line_start_prefix(t, p, m);
    lemma_line_start_facts(t.take(p as int), m);
    if m < newline_count(t) {
        lemma_line_start_facts(t, m + 1);
        let s = line_start(t, m + 1);
        if s <= p {
            lemma_count_mono(t, s, p);
        }
    }
}

/// Number of line breaks in `t`.
pub fn count_newlines(t: &Vec<char>) -> (r: usize)
    ensures
        r == newline_count(t@),
{
    let mut i: usize = 0;
    let mut n: usize = 0;
    while i < t.len()
        invariant
            i <= t@.len(),
            n == newline_count(t@.take(i as int)),
        decreases t@.len() - i,
    {
        proof {
            lemma_count_step(t@, i as nat);
            lemma_count_le_len(t@.take(i as int));
        }
        if t[i] == '\n' {
            n = n + 1;
        }
        i = i + 1;
    }
    proof {
        assert(t@.take(i as int) =~= t@);
    }
    n
}

/// Line and column of position `off`.
pub fn locate(t: &Vec<char>, off: usize) -> (r: (usize, usize))
    requires
        off <= t@.len(),
    ensures
        r.0 == line_of(t@, off as nat),
        r.1 == col_of(t@, off as nat),
{
    let mut i: usize = 0;
    let mut line: usize = 0;
    let mut start: usize = 0;
    while i < off
        invariant
            i <= off <= t@.len(),
            line == newline_count(t@.take(i as int)),
            start == line_start(t@, line as nat),
            start <= i,
        decreases off - i,
    {
        proof {
            lemma_count_step(t@, i as nat);
            lemma_count_le_len(t@.take(i as int));
        }
        if t[i] == '\n' {
            line = line + 1;
            start = i + 1;
            proof {
                lemma_line_start_at_break(t@, (i + 1) as nat);
            }
        }
        i = i + 1;
    }
    (line, i - start)
}

/// Position where line `m` starts.
pub fn find_line_start(t: &Vec<char>, m: usize) -> (r: usize)
    requires
        m <= newline_count(t@),
    ensures
        r == line_start(t@, m as nat),
{
    let mut i: usize = 0;
    let mut count: usize = 0;
    proof {
        assert(t@.take(0) =~= Seq::<char>::empty());
    }
    while count < m
        invariant
            i <= t@.len(),
            count <= m <= newline_count(t@),
            count == newline_count(t@.take(i as int)),
            count < m || m == 0 || (i > 0 && t@[i - 1] == '\n'),
            m == 0 ==> i == 0,
        decreases t@.len() - i,
    {
        if i == t.len() {
            proof {
                assert(t@.take(i as int) =~= t@);
            }
        }
        proof {
            lemma_count_step(t@, i as nat);
        }
        if t[i] == '\n' {
            count = count + 1;
        }
        i = i + 1;
    }
    proof {
        if m > 0 {
            lemma_line_start_at_break(t@, i as nat);
        }
    }
    i
}

/// Position where line `m` ends.
pub fn find_line_end(t: &Vec<char>, m: usize) -> (r: usize)
    requires
        m <= newline_count(t@),
    ensures
        r == line_end(t@, m as nat),
{
    let start = find_line_start(t, m);
    proof {
        lemma_line_start_facts(t@, m as nat);
    }
    let mut j: usize = start;
    while j < t.len() && t[j] != '\n'
        invariant
            start <= j <= t@.len(),
            newline_count(t@.take(j as int)) == m,
        decreases t@.len() - j,
    {
        proof {
            lemma_count_step(t@, j as nat);
        }
        j = j + 1;
    }
    proof {
        if j == t@.len() {
            assert(t@.take(j as int) =~= t@);
        } else {
            lemma_count_step(t@, j as nat);
            assert(t@.take(t@.len() as int) =~= t@);
            lemma_count_mono(t@, (j + 1) as nat, t@.len());
            lemma_line_start_at_break(t@, (j + 1) as nat);
        }
    }
    j
}

/// Decimal digits of `n`, most significant first, without leading zeros.
pub open spec fn decimal(n: nat) -> Seq<char>
    decreases n,
{
    if n < 10 {
        seq![((n + 48) as u8) as char]
    } else {
        decimal(n / 10).push((((n % 10) + 48) as u8) as char)
    }
}

/// Appends the decimal digits of `n` to `out`.
pub fn push_decimal(out: &mut Vec<char>, n: usize)
    ensures
        final(out)@ == old(out)@ + decimal(n as nat),
    decreases n,
{
    if n >= 10 {
        push_decimal(out, n / 10);
    }
    let digit = (n % 10) as u8 + 48;
    out.push(digit as char);
    proof {
        assert(old(out)@ + decimal(n as nat) =~= final(out)@) by {
            if n >= 10 {
                assert(old(out)@ + decimal(n as nat / 10) + seq![digit as char] =~= old(out)@
                    + decimal(n as nat / 10).push(digit as char));
            }
        }
    }
}

/// Number of lines, each ended by a line break except perhaps the last:
/// an empty text has none, and a final line break starts no new line.
pub open spec fn counted_lines(t: Seq<char>) -> nat {
    newline_count(t) + if t.len() > 0 && t.last() != '\n' {
        1nat
    } else {
        0nat
    }
}

/// The last `n` lines of `t`, as they stand in it.
pub open spec fn last_lines(t: Seq<char>, n: nat) -> Seq<char> {
    if n == 0 {
        Seq::empty()
    } else if counted_lines(t) <= n {
        t
    } else {
        t.subrange(line_start(t, (counted_lines(t) - n) as nat) as int, t.len() as int)
    }
}

/// Line breaks of a concatenation add up.
pub proof fn lemma_count_concat(a: Seq<char>, b: Seq<char>)
    ensures
        newline_count(a + b) == newline_count(a) + newline_count(b),
    decreases b.len(),
{
    if b.len() == 0 {
        assert(a + b =~= a);
    } else {
        assert((a + b).drop_last() =~= a + b.drop_last());
        lemma_count_concat(a, b.drop_last());
    }
}

/// Dropping the first `m` lines leaves `counted_lines(t) - m` of them.
pub proof fn lemma_drop_lines_count(t: Seq<char>, m: nat)
    requires
        m <= newline_count(t),
    ensures
        counted_lines(t.subrange(line_start(t, m) as int, t.len() as int)) == counted_lines(t) - m,
{
    let s = line_start(t, m);
    lemma_line_start_facts(t, m);
    let rest = t.subrange(s as int, t.len() as int);
    assert(t.take(s as int) + rest =~= t);
    lemma_count_concat(t.take(s as int), rest);
    if s == t.len() && m > 0 {
        assert(t.last() == '\n');
    }
}

/// At most `n` lines are kept.
pub proof fn lemma_last_lines_count(t: Seq<char>, n: nat)
    ensures
        counted_lines(last_lines(t, n)) <= n,
        counted_lines(t) <= n ==> last_lines(t, n) == t || n == 0,
{
    if n > 0 && counted_lines(t) > n {
        lemma_drop_lines_count(t, (counted_lines(t) - n) as nat);
    }
}

/// Lines are kept whole: the text kept from `t + u` ends with all of `u`
/// when `u` holds fewer line breaks than the lines kept.
pub proof fn lemma_last_lines_keep_tail(t: Seq<char>, u: Seq<char>, n: nat)
    requires
        newline_count(u) < n,
    ensures
        u.len() <= last_lines(t + u, n).len(),
        last_lines(t + u, n).subrange(
            last_lines(t + u, n).len() - u.len(),
            last_lines(t + u, n).len() as int,
        ) == u,
{
    let w = t + u;
    lemma_count_concat(t, u);
    if counted_lines(w) > n {
        let m = (counted_lines(w) - n) as nat;
        assert(w.take(t.len() as int) =~= t);
        lemma_line_start_prefix(w, t.len(), m);
        lemma_line_start_facts(t, m);
        let k = last_lines(w, n);
        assert(k.subrange(k.len() - u.len(), k.len() as int) =~= u);
    } else {
        assert(w.subrange(w.len() - u.len(), w.len() as int) =~= u);
    }
}

/// Number of lines of `t`, as `counted_lines` counts them.
pub fn count_lines(t: &Vec<char>) -> (r: usize)
    ensures
        r == counted_lines(t@),
{
    let n = count_newlines(t);
    if t.len() > 0 && t[t.len() - 1] != '\n' {
        proof {
            lemma_count_le_len(t@.drop_last());
        }
        n + 1
    } else {
        n
    }
}

/// The last `n` lines of `t`.
pub fn keep_last_lines(t: Vec<char>, n: usize) -> (r: Vec<char>)
    ensures
        r@ == last_lines(t@, n as nat),
{
    if n == 0 {
        return Vec::new();
    }
    let count = count_lines(&t);
    if count <= n {
        return t;
    }
    let start = find_line_start(&t, count - n);
    proof {
        lemma_line_start_facts(t@, (count - n) as nat);
    }
    let mut t = t;
    t.split_off(start)
}

/// Line starts of a text that begins at line `m0` of `t` are those of `t`,
/// shifted.
pub proof fn lemma_suffix_line_start(t: Seq<char>, m0: nat, j: nat)
    requires
        m0 <= newline_count(t),
        j <= newline_count(t.subrange(line_start(t, m0) as int, t.len() as int)),
    ensures
        line_start(t.subrange(line_start(t, m0) as int, t.len() as int), j) + line_start(t, m0)
            == line_start(t, m0 + j),
{
    let k = line_start(t, m0);
    let u = t.subrange(k as int, t.len() as int);
    lemma_line_start_facts(t, m0);
    if j > 0 {
        lemma_line_start_facts(u, j);
        let p = line_start(u, j);
        assert(t.take((k + p) as int) =~= t.take(k as int) + u.take(p as int));
        lemma_count_concat(t.take(k as int), u.take(p as int));
        assert(t[(k + p - 1) as int] == u[p - 1]);
        lemma_line_start_at_break(t, k + p);
    }
}

/// Extending a text never lowers its number of lines.
pub proof fn lemma_counted_extend(x: Seq<char>, c: Seq<char>)
    ensures
        counted_lines(x + c) >= counted_lines(x),
{
    lemma_count_concat(x, c);
    if c.len() == 0 {
        assert(x + c =~= x);
    } else {
        assert((x + c).last() == c.last());
        if c.last() == '\n' {
            assert(newline_count(c) >= 1);
        }
    }
}

/// Keeping the last `n` lines after each append keeps the same text as
/// keeping them once after appending everything.
pub proof fn lemma_last_lines_append(x: Seq<char>, c: Seq<char>, n: nat)
    requires
        n > 0,
    ensures
        last_lines(last_lines(x, n) + c, n) == last_lines(x + c, n),
{
    let t = x + c;
    if counted_lines(x) > n {
        let m0 = (counted_lines(x) - n) as nat;
        let k = line_start(x, m0);
        assert(m0 <= newline_count(x));
        lemma_line_start_facts(x, m0);
        assert(last_lines(x, n) == x.subrange(k as int, x.len() as int));
        assert(t.take(x.len() as int) =~= x);
        lemma_count_concat(x, c);
        lemma_line_start_prefix(t, x.len(), m0);
        let u = last_lines(x, n) + c;
        assert(u =~= t.subrange(k as int, t.len() as int));
        lemma_drop_lines_count(t, m0);
        lemma_counted_extend(x, c);
        lemma_line_start_facts(t, m0);
        let rest = t.subrange(k as int, t.len() as int);
        assert(t.take(k as int) + rest =~= t);
        lemma_count_concat(t.take(k as int), rest);
        if counted_lines(u) > n {
            let j = (counted_lines(u) - n) as nat;
            assert(j <= newline_count(u));
            lemma_line_start_facts(u, j);
            lemma_suffix_line_start(t, m0, j);
            assert(u.subrange(line_start(u, j) as int, u.len() as int) =~= t.subrange(
                line_start(t, m0 + j) as int,
                t.len() as int,
            ));
        }
    }
}

} // verus!
