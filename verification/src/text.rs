//! Character-sequence helpers: appending, decimal numerals, ASCII case folding,
//! line splitting, joining, and the byte-wise (code point) order on strings.
use vstd::prelude::*;

verus! {

/// The characters of `s`, in order.
pub fn to_chars(s: &str) -> (r: Vec<char>)
    ensures
        r@ == s@,
{
    let mut r: Vec<char> = Vec::new();
    for c in it: s.chars()
        invariant
            r@ == it.seq().take(it.index() as int),
            it.seq() == s@,
    {
        r.push(c);
    }
    r
}

/// Appends `v` to `out`.
pub fn push_chars(out: &mut Vec<char>, v: &Vec<char>)
    ensures
        final(out)@ == old(out)@ + v@,
{
    let mut i: usize = 0;
    while i < v.len()
        invariant
            i <= v.len(),
            out@ == old(out)@ + v@.take(i as int),
        decreases v.len() - i,
    {
        out.push(v[i]);
        i = i + 1;
    }
    assert(v@.take(v@.len() as int) =~= v@);
}

/// Appends the characters of `s` to `out`.
pub fn push_str(out: &mut Vec<char>, s: &str)
    ensures
        final(out)@ == old(out)@ + s@,
{
    let v = to_chars(s);
    push_chars(out, &v);
}

/// `String::from_iter` over `char`s: the string made of the characters of `v`, in order.
#[verifier::external_body]
pub fn text_of(v: &Vec<char>) -> (r: String)
    ensures
        r@ == v@,
{
    v.iter().collect()
}

/// The character of a decimal digit.
pub open spec fn digit_char(d: nat) -> char {
    ((48 + d) as u32) as char
}

/// Decimal numeral of `n`, without leading zeros.
pub open spec fn decimal(n: nat) -> Seq<char>
    decreases n,
{
    if n < 10 {
        seq![digit_char(n)]
    } else {
        decimal(n / 10).push(digit_char(n % 10))
    }
}

/// Decimal numeral of a signed integer, with a leading `-` when negative.
pub open spec fn signed_decimal(i: int) -> Seq<char> {
    if i < 0 {
        seq!['-'] + decimal((-i) as nat)
    } else {
        decimal(i as nat)
    }
}

/// Decimal numeral left-padded with zeros to at least two digits (`{:02}`).
pub open spec fn decimal_02(n: nat) -> Seq<char> {
    if n < 10 {
        seq!['0'] + decimal(n)
    } else {
        decimal(n)
    }
}

/// The number that a string of decimal digits reads as.
pub open spec fn digits_value(s: Seq<char>) -> int
    decreases s.len(),
{
    if s.len() == 0 {
        0
    } else {
        digits_value(s.drop_last()) * 10 + (s.last() as int - 48)
    }
}

/// The numeral of `n` is made of decimal digits, starts with a non-zero digit unless
/// `n` is zero, and reads as `n`.
pub proof fn lemma_decimal_reads_as_number(n: nat)
    ensures
        decimal(n).len() >= 1,
        forall|i: int| 0 <= i < decimal(n).len() ==> '0' <= #[trigger] decimal(n)[i] <= '9',
        n > 0 ==> decimal(n)[0] != '0',
        digits_value(decimal(n)) == n,
    decreases n,
{
    if n >= 10 {
        lemma_decimal_reads_as_number(n / 10);
        let d = decimal(n);
        assert(d.drop_last() =~= decimal(n / 10));
        assert(d[0] == decimal(n / 10)[0]);
        assert forall|i: int| 0 <= i < d.len() implies '0' <= #[trigger] d[i] <= '9' by {
            if i < d.len() - 1 {
                assert(d[i] == decimal(n / 10)[i]);
            }
        }
        assert(n == (n / 10) * 10 + n % 10);
    } else {
        assert(digits_value(decimal(n)) == digits_value(seq![digit_char(n)].drop_last()) * 10 + (
        digit_char(n) as int - 48));
        assert(seq![digit_char(n)].drop_last() =~= seq![]);
    }
}

/// Appends the decimal numeral of `n`.
pub fn push_decimal(out: &mut Vec<char>, n: u64)
    ensures
        final(out)@ == old(out)@ + decimal(n as nat),
    decreases n,
{
    if n >= 10 {
        push_decimal(out, n / 10);
    }
    let d: u64 = n % 10;
    assert(d < 10);
    let c = ((48 + d) as u8) as char;
    assert(c == digit_char((n % 10) as nat));
    out.push(c);
    proof {
        if n >= 10 {
            assert(decimal(n as nat) == decimal((n / 10) as nat).push(digit_char((n % 10) as nat)));
        } else {
            assert(decimal(n as nat) == seq![digit_char(n as nat)]);
        }
    }
    assert(out@ =~= old(out)@ + decimal(n as nat)) by {
        if n >= 10 {
            assert(decimal(n as nat) =~= decimal((n / 10) as nat).push(digit_char((n % 10) as nat)));
        } else {
            assert(decimal(n as nat) =~= seq![c]);
        }
    }
}

/// Appends the decimal numeral of a signed 32-bit integer (`{}` formatting).
pub fn push_signed_decimal(out: &mut Vec<char>, i: i32)
    ensures
        final(out)@ == old(out)@ + signed_decimal(i as int),
{
    if i < 0 {
        out.push('-');
        let m: i64 = -(i as i64);
        push_decimal(out, m as u64);
        assert(out@ =~= old(out)@ + signed_decimal(i as int));
    } else {
        push_decimal(out, i as u64);
    }
}

/// Appends the decimal numeral of `n`, zero-padded to width two (`{:02}` formatting).
pub fn push_decimal_02(out: &mut Vec<char>, n: u8)
    ensures
        final(out)@ == old(out)@ + decimal_02(n as nat),
{
    if n < 10 {
        out.push('0');
    }
    push_decimal(out, n as u64);
    assert(out@ =~= old(out)@ + decimal_02(n as nat));
}


/// ASCII lower-case of one character; other characters are unchanged.
pub open spec fn ascii_lower(c: char) -> char {
    if 'A' <= c && c <= 'Z' {
        ((c as u32) + 32) as char
    } else {
        c
    }
}

/// `to_ascii_lowercase` on a string.
pub open spec fn ascii_lowercase(s: Seq<char>) -> Seq<char> {
    s.map_values(|c: char| ascii_lower(c))
}

pub fn lower_char(c: char) -> (r: char)
    ensures
        r == ascii_lower(c),
{
    if 'A' <= c && c <= 'Z' {
        ((c as u8) + 32) as char
    } else {
        c
    }
}

/// The ASCII lower-case copy of `s`.
pub fn to_ascii_lowercase(s: &Vec<char>) -> (r: Vec<char>)
    ensures
        r@ == ascii_lowercase(s@),
{
    let mut r: Vec<char> = Vec::new();
    let mut i: usize = 0;
    while i < s.len()
        invariant
            i <= s.len(),
            r@ == ascii_lowercase(s@.take(i as int)),
        decreases s.len() - i,
    {
        r.push(lower_char(s[i]));
        assert(ascii_lowercase(s@.take(i + 1)) =~= ascii_lowercase(s@.take(i as int)).push(
            ascii_lower(s@[i as int]),
        ));
        i = i + 1;
    }
    assert(s@.take(s@.len() as int) =~= s@);
    r
}

/// Whether two character sequences are equal.
pub fn chars_eq(a: &Vec<char>, b: &Vec<char>) -> (r: bool)
    ensures
        r == (a@ == b@),
{
    if a.len() != b.len() {
        return false;
    }
    let mut i: usize = 0;
    while i < a.len()
        invariant
            i <= a.len(),
            a.len() == b.len(),
            a@.take(i as int) == b@.take(i as int),
        decreases a.len() - i,
    {
        if a[i] != b[i] {
            assert(a@[i as int] != b@[i as int]);
            return false;
        }
        assert(a@.take(i + 1) =~= a@.take(i as int).push(a@[i as int]));
        assert(b@.take(i + 1) =~= b@.take(i as int).push(b@[i as int]));
        i = i + 1;
    }
    assert(a@.take(a@.len() as int) =~= a@);
    assert(b@.take(b@.len() as int) =~= b@);
    true
}

/// Whether `s` contains a line feed.
pub open spec fn has_newline(s: Seq<char>) -> bool {
    exists|i: int| 0 <= i < s.len() && s[i] == '\n'
}

/// Index of the first line feed in `s`, or `s.len()` when there is none.
pub open spec fn newline_pos(s: Seq<char>) -> int
    decreases s.len(),
{
    if s.len() == 0 {
        0
    } else if s[0] == '\n' {
        0
    } else {
        1 + newline_pos(s.drop_first())
    }
}

/// A line without its line terminator: a trailing carriage return is removed.
pub open spec fn strip_cr(line: Seq<char>) -> Seq<char> {
    if line.len() > 0 && line.last() == '\r' {
        line.drop_last()
    } else {
        line
    }
}

/// `str::lines`: the text is split at each `\n`; a `\r` just before a `\n` belongs to
/// the terminator; the final line needs no terminator, and an empty final line is
/// not produced.
pub open spec fn lines(s: Seq<char>) -> Seq<Seq<char>>
    decreases s.len(),
{
    if s.len() == 0 {
        seq![]
    } else {
        let k = newline_pos(s);
        proof {
            lemma_newline_pos_bounds(s);
        }
        if k >= s.len() {
            seq![s]
        } else {
            seq![strip_cr(s.take(k))] + lines(s.skip(k + 1))
        }
    }
}

pub proof fn lemma_newline_pos_bounds(s: Seq<char>)
    ensures
        0 <= newline_pos(s) <= s.len(),
        newline_pos(s) < s.len() ==> s[newline_pos(s)] == '\n',
        forall|j: int| 0 <= j < newline_pos(s) ==> s[j] != '\n',
    decreases s.len(),
{
    if s.len() > 0 && s[0] != '\n' {
        lemma_newline_pos_bounds(s.drop_first());
        assert forall|j: int| 0 <= j < newline_pos(s) implies s[j] != '\n' by {
            if j > 0 {
                assert(s[j] == s.drop_first()[j - 1]);
            }
        }
    }
}

proof fn lemma_newline_pos_of_line(cur: Seq<char>, rest: Seq<char>)
    requires
        !has_newline(cur),
    ensures
        newline_pos(cur + seq!['\n'] + rest) == cur.len(),
    decreases cur.len(),
{
    let s = cur + seq!['\n'] + rest;
    if cur.len() > 0 {
        assert(s[0] == cur[0]);
        assert(s.drop_first() =~= cur.drop_first() + seq!['\n'] + rest);
        assert(!has_newline(cur.drop_first())) by {
            if has_newline(cur.drop_first()) {
                let i = choose|i: int| 0 <= i < cur.drop_first().len() && cur.drop_first()[i] == '\n';
                assert(cur[i + 1] == '\n');
            }
        }
        lemma_newline_pos_of_line(cur.drop_first(), rest);
    } else {
        assert(s[0] == '\n');
    }
}

pub proof fn lemma_lines_no_newline(cur: Seq<char>)
    requires
        !has_newline(cur),
    ensures
        lines(cur) == (if cur.len() == 0 { seq![] } else { seq![cur] }),
{
    if cur.len() > 0 {
        lemma_newline_pos_bounds(cur);
        if newline_pos(cur) < cur.len() {
            assert(cur[newline_pos(cur)] == '\n');
        }
    }
}

pub proof fn lemma_lines_step(cur: Seq<char>, rest: Seq<char>)
    requires
        !has_newline(cur),
    ensures
        lines(cur + seq!['\n'] + rest) == seq![strip_cr(cur)] + lines(rest),
{
    let s = cur + seq!['\n'] + rest;
    lemma_newline_pos_of_line(cur, rest);
    assert(s.take(cur.len() as int) =~= cur);
    assert(s.skip(cur.len() as int + 1) =~= rest);
}

/// The lines of `s` (see [`lines`]).
pub fn split_lines(s: &Vec<char>) -> (r: Vec<Vec<char>>)
    ensures
        views(r@) == lines(s@),
{
    let mut done: Vec<Vec<char>> = Vec::new();
    let mut cur: Vec<char> = Vec::new();
    let mut i: usize = 0;
    assert(cur@ + s@.skip(0) =~= s@);
    assert(views(done@) + lines(s@) =~= lines(s@));
    while i < s.len()
        invariant
            i <= s.len(),
            !has_newline(cur@),
            lines(s@) == views(done@) + lines(cur@ + s@.skip(i as int)),
        decreases s.len() - i,
    {
        let c = s[i];
        if c == '\n' {
            proof {
                assert(cur@ + s@.skip(i as int) =~= cur@ + seq!['\n'] + s@.skip(i + 1));
                lemma_lines_step(cur@, s@.skip(i + 1));
            }
            let mut line = cur;
            if line.len() > 0 && line[line.len() - 1] == '\r' {
                line.pop();
            }
            assert(line@ == strip_cr(cur@));
            let ghost old_done = views(done@);
            done.push(line);
            assert(views(done@) =~= old_done.push(strip_cr(cur@)));
            cur = Vec::new();
            assert(cur@ + s@.skip(i + 1) =~= s@.skip(i + 1));
            assert(lines(s@) =~= views(done@) + lines(cur@ + s@.skip(i + 1)));
        } else {
            let ghost old_cur = cur@;
            cur.push(c);
            assert(cur@ + s@.skip(i + 1) =~= old_cur + s@.skip(i as int));
            assert(!has_newline(cur@)) by {
                if has_newline(cur@) {
                    let j = choose|j: int| 0 <= j < cur@.len() && cur@[j] == '\n';
                    if j < old_cur.len() {
                        assert(old_cur[j] == '\n');
                    }
                }
            }
        }
        i = i + 1;
    }
    assert(cur@ + s@.skip(i as int) =~= cur@);
    proof {
        lemma_lines_no_newline(cur@);
    }
    if cur.len() > 0 {
        let ghost old_done = views(done@);
        done.push(cur);
        assert(views(done@) =~= old_done + seq![cur@]);
    } else {
        assert(views(done@) + lines(cur@) =~= views(done@));
    }
    done
}

/// The contents of each character vector.
pub open spec fn views(v: Seq<Vec<char>>) -> Seq<Seq<char>> {
    v.map_values(|x: Vec<char>| x@)
}

/// `items` joined with `sep` between neighbours.
pub open spec fn join(items: Seq<Seq<char>>, sep: Seq<char>) -> Seq<char>
    decreases items.len(),
{
    if items.len() == 0 {
        seq![]
    } else if items.len() == 1 {
        items[0]
    } else {
        join(items.drop_last(), sep) + sep + items.last()
    }
}

/// Appends the items joined with `sep`.
pub fn push_joined(out: &mut Vec<char>, items: &Vec<Vec<char>>, sep: &str)
    ensures
        final(out)@ == old(out)@ + join(views(items@), sep@),
{
    let mut i: usize = 0;
    while i < items.len()
        invariant
            i <= items.len(),
            out@ == old(out)@ + join(views(items@).take(i as int), sep@),
        decreases items.len() - i,
    {
        let ghost before = out@;
        if i > 0 {
            push_str(out, sep);
        }
        push_chars(out, &items[i]);
        proof {
            let t = views(items@).take(i + 1);
            assert(t.drop_last() =~= views(items@).take(i as int));
            assert(t.last() == items[i as int]@);
            if i == 0 {
                assert(join(t, sep@) == t[0]);
                assert(join(views(items@).take(0), sep@) =~= seq![]);
            }
        }
        assert(out@ =~= old(out)@ + join(views(items@).take(i + 1), sep@));
        i = i + 1;
    }
    assert(views(items@).take(items.len() as int) =~= views(items@));
}


/// The order of `String`: lexicographic on code points (the same as on UTF-8 bytes).
pub open spec fn lex_lt(a: Seq<char>, b: Seq<char>) -> bool
    decreases a.len(),
{
    if a.len() == 0 {
        b.len() > 0
    } else if b.len() == 0 {
        false
    } else if a[0] != b[0] {
        (a[0] as int) < (b[0] as int)
    } else {
        lex_lt(a.drop_first(), b.drop_first())
    }
}

pub proof fn lemma_lex_irreflexive(a: Seq<char>)
    ensures
        !lex_lt(a, a),
    decreases a.len(),
{
    if a.len() > 0 {
        lemma_lex_irreflexive(a.drop_first());
    }
}

pub proof fn lemma_lex_asymmetric(a: Seq<char>, b: Seq<char>)
    ensures
        !(lex_lt(a, b) && lex_lt(b, a)),
    decreases a.len(),
{
    if a.len() > 0 && b.len() > 0 && a[0] == b[0] {
        lemma_lex_asymmetric(a.drop_first(), b.drop_first());
    }
}

pub proof fn lemma_lex_transitive(a: Seq<char>, b: Seq<char>, c: Seq<char>)
    requires
        lex_lt(a, b),
        lex_lt(b, c),
    ensures
        lex_lt(a, c),
    decreases a.len(),
{
    if a.len() > 0 && b.len() > 0 && c.len() > 0 && a[0] == b[0] && b[0] == c[0] {
        lemma_lex_transitive(a.drop_first(), b.drop_first(), c.drop_first());
    }
}

pub proof fn lemma_lex_total(a: Seq<char>, b: Seq<char>)
    ensures
        a != b ==> (lex_lt(a, b) || lex_lt(b, a)),
    decreases a.len(),
{
    if a.len() > 0 && b.len() > 0 && a[0] == b[0] {
        lemma_lex_total(a.drop_first(), b.drop_first());
        if a.drop_first() == b.drop_first() {
            assert(a =~= seq![a[0]] + a.drop_first());
            assert(b =~= seq![b[0]] + b.drop_first());
        }
    } else if a.len() == 0 && b.len() == 0 {
        assert(a =~= b);
    } else if a.len() > 0 && b.len() > 0 {
        assert((a[0] as int) != (b[0] as int));
    }
}

proof fn lemma_lex_skip(a: Seq<char>, b: Seq<char>, i: int)
    requires
        0 <= i <= a.len(),
        i <= b.len(),
        a.take(i) == b.take(i),
    ensures
        lex_lt(a, b) == lex_lt(a.skip(i), b.skip(i)),
    decreases i,
{
    if i > 0 {
        assert(a[0] == a.take(i)[0]);
        assert(b[0] == b.take(i)[0]);
        assert(a.drop_first().take(i - 1) =~= a.take(i).drop_first());
        assert(b.drop_first().take(i - 1) =~= b.take(i).drop_first());
        lemma_lex_skip(a.drop_first(), b.drop_first(), i - 1);
        assert(a.drop_first().skip(i - 1) =~= a.skip(i));
        assert(b.drop_first().skip(i - 1) =~= b.skip(i));
    } else {
        assert(a.skip(0) =~= a);
        assert(b.skip(0) =~= b);
    }
}

/// `a < b` in the order of `String`.
pub fn lex_less(a: &Vec<char>, b: &Vec<char>) -> (r: bool)
    ensures
        r == lex_lt(a@, b@),
{
    let mut i: usize = 0;
    while i < a.len() && i < b.len()
        invariant
            i <= a.len(),
            i <= b.len(),
            a@.take(i as int) == b@.take(i as int),
        decreases a.len() - i,
    {
        if a[i] != b[i] {
            proof {
                lemma_lex_skip(a@, b@, i as int);
                assert(a@.skip(i as int)[0] == a@[i as int]);
                assert(b@.skip(i as int)[0] == b@[i as int]);
            }
            return a[i] < b[i];
        }
        assert(a@.take(i + 1) =~= a@.take(i as int).push(a@[i as int]));
        assert(b@.take(i + 1) =~= b@.take(i as int).push(b@[i as int]));
        i = i + 1;
    }
    proof {
        lemma_lex_skip(a@, b@, i as int);
    }
    i < b.len() && i == a.len()
}

/// Every element is smaller than every later one, so none occurs twice.
pub open spec fn strictly_sorted(s: Seq<Seq<char>>) -> bool {
    forall|i: int, j: int| 0 <= i < j < s.len() ==> lex_lt(s[i], s[j])
}

/// `a` and `b` hold the same elements, ignoring order and repetition.
pub open spec fn same_elements(a: Seq<Seq<char>>, b: Seq<Seq<char>>) -> bool {
    forall|x: Seq<char>| a.contains(x) <==> b.contains(x)
}

/// The elements of `s` in increasing order, each once (what `sort` then `dedup` leave).
pub open spec fn sorted_unique(s: Seq<Seq<char>>) -> Seq<Seq<char>> {
    choose|r: Seq<Seq<char>>| strictly_sorted(r) && same_elements(r, s)
}

/// Two strictly sorted sequences with the same elements are equal.
pub proof fn lemma_strictly_sorted_unique(r1: Seq<Seq<char>>, r2: Seq<Seq<char>>)
    requires
        strictly_sorted(r1),
        strictly_sorted(r2),
        same_elements(r1, r2),
    ensures
        r1 == r2,
    decreases r1.len(),
{
    if r1.len() == 0 {
        if r2.len() > 0 {
            assert(r2.contains(r2[0]));
        }
        assert(r1 =~= r2);
    } else {
        assert(r1.contains(r1[0]));
        let k = choose|k: int| 0 <= k < r2.len() && r2[k] == r1[0];
        assert(r2.contains(r2[0]));
        let m = choose|m: int| 0 <= m < r1.len() && r1[m] == r2[0];
        if k > 0 {
            assert(lex_lt(r2[0], r2[k]));
            if m == 0 {
                lemma_lex_irreflexive(r1[0]);
            } else {
                assert(lex_lt(r1[0], r1[m]));
                lemma_lex_asymmetric(r1[0], r1[m]);
            }
        }
        assert(r1[0] == r2[0]);
        let t1 = r1.drop_first();
        let t2 = r2.drop_first();
        assert(strictly_sorted(t1)) by {
            assert forall|i: int, j: int| 0 <= i < j < t1.len() implies lex_lt(t1[i], t1[j]) by {
                assert(t1[i] == r1[i + 1] && t1[j] == r1[j + 1]);
            }
        }
        assert(strictly_sorted(t2)) by {
            assert forall|i: int, j: int| 0 <= i < j < t2.len() implies lex_lt(t2[i], t2[j]) by {
                assert(t2[i] == r2[i + 1] && t2[j] == r2[j + 1]);
            }
        }
        assert forall|x: Seq<char>| t1.contains(x) implies t2.contains(x) by {
            let j = choose|j: int| 0 <= j < t1.len() && t1[j] == x;
            assert(r1[j + 1] == x);
            assert(r1.contains(x));
            let j2 = choose|j2: int| 0 <= j2 < r2.len() && r2[j2] == x;
            assert(lex_lt(r1[0], r1[j + 1]));
            if j2 == 0 {
                lemma_lex_irreflexive(x);
            }
            assert(t2[j2 - 1] == x);
        }
        assert forall|x: Seq<char>| t2.contains(x) implies t1.contains(x) by {
            let j = choose|j: int| 0 <= j < t2.len() && t2[j] == x;
            assert(r2[j + 1] == x);
            assert(r2.contains(x));
            let j1 = choose|j1: int| 0 <= j1 < r1.len() && r1[j1] == x;
            assert(lex_lt(r2[0], r2[j + 1]));
            if j1 == 0 {
                lemma_lex_irreflexive(x);
            }
            assert(t1[j1 - 1] == x);
        }
        lemma_strictly_sorted_unique(t1, t2);
        assert(r1 =~= seq![r1[0]] + t1);
        assert(r2 =~= seq![r2[0]] + t2);
    }
}

/// Any strictly sorted sequence with the elements of `s` is `sorted_unique(s)`.
pub proof fn lemma_sorted_unique_is(r: Seq<Seq<char>>, s: Seq<Seq<char>>)
    requires
        strictly_sorted(r),
        same_elements(r, s),
    ensures
        sorted_unique(s) == r,
{
    let u = sorted_unique(s);
    assert(strictly_sorted(u) && same_elements(u, s));
    assert(same_elements(u, r));
    lemma_strictly_sorted_unique(u, r);
}

/// Every sequence of strings has a strictly sorted arrangement of its elements, so
/// `sorted_unique(s)` is that arrangement.
pub proof fn lemma_sorted_unique_exists(s: Seq<Seq<char>>)
    ensures
        strictly_sorted(sorted_unique(s)),
        same_elements(sorted_unique(s), s),
    decreases s.len(),
{
    if s.len() == 0 {
        let e: Seq<Seq<char>> = seq![];
        assert(strictly_sorted(e) && same_elements(e, s));
    } else {
        let init = s.drop_last();
        let x = s.last();
        lemma_sorted_unique_exists(init);
        let r = sorted_unique(init);
        if r.contains(x) {
            assert forall|y: Seq<char>| r.contains(y) <==> s.contains(y) by {
                if s.contains(y) {
                    let k = choose|k: int| 0 <= k < s.len() && s[k] == y;
                    if k < s.len() - 1 {
                        assert(init[k] == y);
                    }
                }
                if init.contains(y) {
                    let k = choose|k: int| 0 <= k < init.len() && init[k] == y;
                    assert(s[k] == y);
                }
            }
            assert(strictly_sorted(r) && same_elements(r, s));
        } else {
            let p = lemma_insert_position(r, x);
            let r2 = r.insert(p, x);
            assert(strictly_sorted(r2)) by {
                assert forall|i: int, j: int| 0 <= i < j < r2.len() implies lex_lt(r2[i], r2[j]) by {
                    if j < p {
                        assert(r2[i] == r[i] && r2[j] == r[j]);
                    } else if j == p {
                        assert(r2[i] == r[i]);
                    } else if i == p {
                        assert(r2[j] == r[j - 1]);
                    } else if i < p {
                        assert(r2[i] == r[i] && r2[j] == r[j - 1]);
                    } else {
                        assert(r2[i] == r[i - 1] && r2[j] == r[j - 1]);
                    }
                }
            }
            assert forall|y: Seq<char>| r2.contains(y) <==> s.contains(y) by {
                if r2.contains(y) {
                    let k = choose|k: int| 0 <= k < r2.len() && r2[k] == y;
                    if k < p {
                        assert(r[k] == y);
                        assert(r.contains(y));
                    } else if k > p {
                        assert(r[k - 1] == y);
                        assert(r.contains(y));
                    }
                    if r.contains(y) {
                        assert(init.contains(y));
                        let m = choose|m: int| 0 <= m < init.len() && init[m] == y;
                        assert(s[m] == y);
                    } else {
                        assert(s[s.len() - 1] == y);
                    }
                }
                if s.contains(y) {
                    let k = choose|k: int| 0 <= k < s.len() && s[k] == y;
                    if k < s.len() - 1 {
                        assert(init[k] == y);
                        assert(r.contains(y));
                        let m = choose|m: int| 0 <= m < r.len() && r[m] == y;
                        if m < p {
                            assert(r2[m] == y);
                        } else {
                            assert(r2[m + 1] == y);
                        }
                    } else {
                        assert(r2[p] == y);
                    }
                }
            }
            assert(strictly_sorted(r2) && same_elements(r2, s));
        }
    }
}

/// Where `x`, absent from the strictly sorted `r`, belongs: after the smaller
/// elements and before the larger ones.
proof fn lemma_insert_position(r: Seq<Seq<char>>, x: Seq<char>) -> (p: int)
    requires
        strictly_sorted(r),
        !r.contains(x),
    ensures
        0 <= p <= r.len(),
        forall|i: int| 0 <= i < p ==> lex_lt(r[i], x),
        forall|i: int| p <= i < r.len() ==> lex_lt(x, r[i]),
    decreases r.len(),
{
    if r.len() == 0 {
        0
    } else {
        let init = r.drop_last();
        assert(strictly_sorted(init)) by {
            assert forall|i: int, j: int| 0 <= i < j < init.len() implies lex_lt(init[i], init[j]) by {
                assert(init[i] == r[i] && init[j] == r[j]);
            }
        }
        assert(!init.contains(x)) by {
            if init.contains(x) {
                let k = choose|k: int| 0 <= k < init.len() && init[k] == x;
                assert(r[k] == x);
            }
        }
        let q = lemma_insert_position(init, x);
        let last = r.last();
        assert(r[r.len() - 1] == last);
        lemma_lex_total(last, x);
        if lex_lt(last, x) {
            assert forall|i: int| 0 <= i < r.len() implies lex_lt(r[i], x) by {
                if i < q {
                    assert(init[i] == r[i]);
                } else if i < r.len() - 1 {
                    assert(init[i] == r[i]);
                    assert(lex_lt(x, r[i]));
                    assert(lex_lt(r[i], last));
                    lemma_lex_transitive(x, r[i], last);
                    lemma_lex_asymmetric(x, last);
                }
            }
            r.len() as int
        } else {
            assert(lex_lt(x, last));
            assert forall|i: int| 0 <= i < q implies lex_lt(r[i], x) by {
                assert(init[i] == r[i]);
            }
            assert forall|i: int| q <= i < r.len() implies lex_lt(x, r[i]) by {
                if i < r.len() - 1 {
                    assert(init[i] == r[i]);
                }
            }
            q
        }
    }
}

/// Inserts `x` at its place in the strictly sorted `v`, unless it is there already.
pub fn insert_sorted(v: &mut Vec<Vec<char>>, x: Vec<char>)
    requires
        strictly_sorted(views(old(v)@)),
    ensures
        strictly_sorted(views(final(v)@)),
        forall|y: Seq<char>|
            views(final(v)@).contains(y) <==> (views(old(v)@).contains(y) || y == x@),
{
    let ghost xv = x@;
    let ghost old_v = views(v@);
    let mut p: usize = 0;
    while p < v.len() && lex_less(&v[p], &x)
        invariant
            p <= v.len(),
            views(v@) == old_v,
            forall|i: int| 0 <= i < p ==> lex_lt(old_v[i], xv),
            x@ == xv,
        decreases v.len() - p,
    {
        p = p + 1;
    }
    if p < v.len() && chars_eq(&v[p], &x) {
        assert(old_v[p as int] == xv);
        assert forall|y: Seq<char>| views(v@).contains(y) <==> (old_v.contains(y) || y == xv) by {
            if y == xv {
                assert(views(v@)[p as int] == y);
            }
        }
        return;
    }
    proof {
        if p < v.len() {
            assert(!lex_lt(old_v[p as int], xv));
            lemma_lex_total(old_v[p as int], xv);
            assert(lex_lt(xv, old_v[p as int]));
        }
    }
    v.insert(p, x);
    let ghost nv = views(v@);
    assert(nv =~= old_v.insert(p as int, xv));
    assert(strictly_sorted(nv)) by {
        assert forall|i: int, j: int| 0 <= i < j < nv.len() implies lex_lt(nv[i], nv[j]) by {
            if j < p {
                assert(nv[i] == old_v[i] && nv[j] == old_v[j]);
            } else if j == p {
                assert(nv[i] == old_v[i]);
            } else if i == p {
                assert(nv[j] == old_v[j - 1]);
                if j - 1 > p {
                    assert(lex_lt(old_v[p as int], old_v[j - 1]));
                    lemma_lex_transitive(xv, old_v[p as int], old_v[j - 1]);
                }
            } else if i < p {
                assert(nv[i] == old_v[i] && nv[j] == old_v[j - 1]);
                if j - 1 >= p {
                    // old_v[i] < x < old_v[p] <= old_v[j - 1]
                    if j - 1 > p as int {
                        assert(lex_lt(old_v[i], old_v[j - 1]));
                    } else {
                        assert(lex_lt(old_v[i], old_v[j - 1]));
                    }
                }
            } else {
                assert(nv[i] == old_v[i - 1] && nv[j] == old_v[j - 1]);
            }
        }
    }
    assert forall|y: Seq<char>| nv.contains(y) <==> (old_v.contains(y) || y == xv) by {
        if nv.contains(y) {
            let k = choose|k: int| 0 <= k < nv.len() && nv[k] == y;
            if k < p {
                assert(old_v[k] == y);
            } else if k > p {
                assert(old_v[k - 1] == y);
            }
        }
        if old_v.contains(y) {
            let k = choose|k: int| 0 <= k < old_v.len() && old_v[k] == y;
            if k < p {
                assert(nv[k] == y);
            } else {
                assert(nv[k + 1] == y);
            }
        }
        if y == xv {
            assert(nv[p as int] == y);
        }
    }
}

/// The items in increasing order, each once.
pub fn sort_unique(items: &Vec<Vec<char>>) -> (r: Vec<Vec<char>>)
    ensures
        views(r@) == sorted_unique(views(items@)),
        strictly_sorted(views(r@)),
        same_elements(views(r@), views(items@)),
{
    let mut r: Vec<Vec<char>> = Vec::new();
    let mut i: usize = 0;
    while i < items.len()
        invariant
            i <= items.len(),
            strictly_sorted(views(r@)),
            same_elements(views(r@), views(items@).take(i as int)),
        decreases items.len() - i,
    {
        let x = items[i].clone();
        insert_sorted(&mut r, x);
        let ghost t = views(items@).take(i + 1);
        assert(t =~= views(items@).take(i as int).push(items@[i as int]@));
        assert forall|y: Seq<char>| views(r@).contains(y) <==> t.contains(y) by {
            if y == items@[i as int]@ {
                assert(t[i as int] == y);
            }
            if t.contains(y) {
                let k = choose|k: int| 0 <= k < t.len() && t[k] == y;
                if k < i {
                    assert(views(items@).take(i as int)[k] == y);
                }
            }
            if views(items@).take(i as int).contains(y) {
                let k = choose|k: int| 0 <= k < i && views(items@).take(i as int)[k] == y;
                assert(t[k] == y);
            }
        }
        i = i + 1;
    }
    assert(views(items@).take(items.len() as int) =~= views(items@));
    proof {
        lemma_sorted_unique_is(views(r@), views(items@));
    }
    r
}


/// `char::is_whitespace`: the Unicode `White_Space` property.
pub open spec fn is_white_space(c: char) -> bool {
    ||| c == ' '
    ||| ('\t' <= c && c <= '\r')
    ||| c == '\u{85}'
    ||| c == '\u{A0}'
    ||| c == '\u{1680}'
    ||| ('\u{2000}' <= c && c <= '\u{200A}')
    ||| c == '\u{2028}'
    ||| c == '\u{2029}'
    ||| c == '\u{202F}'
    ||| c == '\u{205F}'
    ||| c == '\u{3000}'
}

pub fn is_white_space_char(c: char) -> (r: bool)
    ensures
        r == is_white_space(c),
{
    c == ' ' || ('\t' <= c && c <= '\r') || c == '\u{85}' || c == '\u{A0}' || c == '\u{1680}' || (
    '\u{2000}' <= c && c <= '\u{200A}') || c == '\u{2028}' || c == '\u{2029}' || c == '\u{202F}'
        || c == '\u{205F}' || c == '\u{3000}'
}

/// `s` without its leading white space.
pub open spec fn trim_start(s: Seq<char>) -> Seq<char>
    decreases s.len(),
{
    if s.len() > 0 && is_white_space(s[0]) {
        trim_start(s.drop_first())
    } else {
        s
    }
}

/// `s` without its trailing white space.
pub open spec fn trim_end(s: Seq<char>) -> Seq<char>
    decreases s.len(),
{
    if s.len() > 0 && is_white_space(s.last()) {
        trim_end(s.drop_last())
    } else {
        s
    }
}

/// `str::trim`: `s` without leading and trailing white space.
pub open spec fn trim(s: Seq<char>) -> Seq<char> {
    trim_end(trim_start(s))
}

/// The characters of `s` without leading and trailing white space.
pub fn trimmed(s: &Vec<char>) -> (r: Vec<char>)
    ensures
        r@ == trim(s@),
{
    let mut lo: usize = 0;
    assert(s@.skip(0) =~= s@);
    while lo < s.len() && is_white_space_char(s[lo])
        invariant
            lo <= s.len(),
            trim_start(s@) == trim_start(s@.skip(lo as int)),
        decreases s.len() - lo,
    {
        assert(s@.skip(lo as int).drop_first() =~= s@.skip(lo + 1));
        lo = lo + 1;
    }
    let mut t: Vec<char> = Vec::new();
    let mut i: usize = lo;
    while i < s.len()
        invariant
            lo <= i <= s.len(),
            t@ == s@.subrange(lo as int, i as int),
        decreases s.len() - i,
    {
        t.push(s[i]);
        assert(t@ =~= s@.subrange(lo as int, i + 1));
        i = i + 1;
    }
    assert(t@ =~= s@.skip(lo as int));
    assert(trim_start(s@) == t@);
    let mut hi: usize = t.len();
    assert(t@.take(hi as int) =~= t@);
    while hi > 0 && is_white_space_char(t[hi - 1])
        invariant
            hi <= t.len(),
            trim_end(t@) == trim_end(t@.take(hi as int)),
        decreases hi,
    {
        assert(t@.take(hi as int).drop_last() =~= t@.take(hi - 1));
        hi = hi - 1;
    }
    let mut r: Vec<char> = Vec::new();
    let mut j: usize = 0;
    while j < hi
        invariant
            j <= hi <= t.len(),
            r@ == t@.take(j as int),
        decreases hi - j,
    {
        r.push(t[j]);
        assert(r@ =~= t@.take(j + 1));
        j = j + 1;
    }
    r
}

/// Whether `pat` occurs in `s` at position `i`.
pub open spec fn occurs_at(s: Seq<char>, pat: Seq<char>, i: int) -> bool {
    0 <= i && i + pat.len() <= s.len() && s.subrange(i, i + pat.len()) == pat
}

pub fn matches_at(s: &Vec<char>, pat: &Vec<char>, i: usize) -> (r: bool)
    requires
        i <= s.len(),
    ensures
        r == occurs_at(s@, pat@, i as int),
{
    if pat.len() > s.len() - i {
        return false;
    }
    let mut k: usize = 0;
    while k < pat.len()
        invariant
            k <= pat.len(),
            i + pat.len() <= s.len(),
            s@.subrange(i as int, i + k) == pat@.take(k as int),
        decreases pat.len() - k,
    {
        if s[i + k] != pat[k] {
            assert(s@.subrange(i as int, i + pat.len())[k as int] != pat@[k as int]);
            return false;
        }
        assert(s@.subrange(i as int, i + k + 1) =~= s@.subrange(i as int, i + k).push(s@[i + k]));
        assert(pat@.take(k + 1) =~= pat@.take(k as int).push(pat@[k as int]));
        k = k + 1;
    }
    assert(pat@.take(pat.len() as int) =~= pat@);
    true
}

/// `s.replace(pat, "")`: every occurrence of `pat`, taken left to right without
/// overlap, removed.
pub open spec fn remove_all(s: Seq<char>, pat: Seq<char>) -> Seq<char>
    decreases s.len(),
{
    if s.len() == 0 {
        seq![]
    } else if pat.len() > 0 && occurs_at(s, pat, 0) {
        remove_all(s.skip(pat.len() as int), pat)
    } else {
        seq![s[0]] + remove_all(s.drop_first(), pat)
    }
}

/// `s` with every occurrence of `pat` removed (see [`remove_all`]).
pub fn remove_occurrences(s: &Vec<char>, pat: &Vec<char>) -> (r: Vec<char>)
    ensures
        r@ == remove_all(s@, pat@),
{
    let mut r: Vec<char> = Vec::new();
    let mut i: usize = 0;
    assert(s@.skip(0) =~= s@);
    while i < s.len()
        invariant
            i <= s.len(),
            remove_all(s@, pat@) == r@ + remove_all(s@.skip(i as int), pat@),
        decreases s.len() - i,
    {
        let ghost rest = s@.skip(i as int);
        if pat.len() > 0 && matches_at(s, pat, i) {
            assert(rest.subrange(0, pat@.len() as int) =~= s@.subrange(i as int, i + pat@.len()));
            assert(rest.skip(pat@.len() as int) =~= s@.skip(i + pat@.len()));
            i = i + pat.len();
        } else {
            proof {
                if pat.len() > 0 && occurs_at(rest, pat@, 0) {
                    assert(rest.subrange(0, pat@.len() as int) =~= s@.subrange(
                        i as int,
                        i + pat@.len(),
                    ));
                }
            }
            assert(rest.drop_first() =~= s@.skip(i + 1));
            let ghost before = r@;
            r.push(s[i]);
            assert(r@ =~= before + seq![rest[0]]);
            i = i + 1;
        }
    }
    assert(s@.skip(i as int) =~= seq![]);
    assert(r@ + remove_all(s@.skip(i as int), pat@) =~= r@);
    r
}

} // verus!
