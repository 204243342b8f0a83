//! Character-level text handling: the whitespace and control classes that
//! `str::trim` and `char::is_control` use, trimming, substring search,
//! replacement, line splitting, and decimal numbers.
use vstd::prelude::*;

verus! {

// ---------------------------------------------------------------------------
// Character classes
// ---------------------------------------------------------------------------

/// The characters with the Unicode `White_Space` property, which is what
/// `char::is_whitespace` (and so `str::trim`) tests.
pub open spec fn spec_is_whitespace(c: char) -> bool {
    let u = c as u32;
    ||| 0x09 <= u <= 0x0D
    ||| u == 0x20
    ||| u == 0x85
    ||| u == 0xA0
    ||| u == 0x1680
    ||| 0x2000 <= u <= 0x200A
    ||| u == 0x2028
    ||| u == 0x2029
    ||| u == 0x202F
    ||| u == 0x205F
    ||| u == 0x3000
}

/// Executable test for a `White_Space` character.
pub fn is_whitespace(c: char) -> (b: bool)
    ensures
        b == spec_is_whitespace(c),
{
    let u = c as u32;
    (0x09 <= u && u <= 0x0D) || u == 0x20 || u == 0x85 || u == 0xA0 || u == 0x1680 || (0x2000
        <= u && u <= 0x200A) || u == 0x2028 || u == 0x2029 || u == 0x202F || u == 0x205F || u
        == 0x3000
}

/// The characters of general category `Cc`, which is what `char::is_control` tests.
pub open spec fn spec_is_control(c: char) -> bool {
    let u = c as u32;
    u <= 0x1F || (0x7F <= u && u <= 0x9F)
}

/// Executable test for a control character.
pub fn is_control(c: char) -> (b: bool)
    ensures
        b == spec_is_control(c),
{
    let u = c as u32;
    u <= 0x1F || (0x7F <= u && u <= 0x9F)
}

/// An ASCII decimal digit, `'0'` to `'9'`.
pub open spec fn spec_is_ascii_digit(c: char) -> bool {
    '0' <= c && c <= '9'
}

// ---------------------------------------------------------------------------
// Trimming
// ---------------------------------------------------------------------------

/// `s` without its leading whitespace.
pub open spec fn trim_start(s: Seq<char>) -> Seq<char>
    decreases s.len(),
{
    if s.len() > 0 && spec_is_whitespace(s[0]) {
        trim_start(s.drop_first())
    } else {
        s
    }
}

/// `s` without its trailing whitespace.
pub open spec fn trim_end(s: Seq<char>) -> Seq<char>
    decreases s.len(),
{
    if s.len() > 0 && spec_is_whitespace(s.last()) {
        trim_end(s.drop_last())
    } else {
        s
    }
}

/// `s` without leading and trailing whitespace: what `str::trim` returns.
pub open spec fn spec_trim(s: Seq<char>) -> Seq<char> {
    trim_end(trim_start(s))
}

/// What is left after dropping leading whitespace starts with no whitespace.
pub proof fn lemma_trim_start_first(s: Seq<char>)
    ensures
        trim_start(s).len() > 0 ==> !spec_is_whitespace(trim_start(s)[0]),
    decreases s.len(),
{
    if s.len() > 0 && spec_is_whitespace(s[0]) {
        lemma_trim_start_first(s.drop_first());
    }
}

/// Dropping trailing whitespace leaves a prefix that ends in no whitespace.
pub proof fn lemma_trim_end_prefix(s: Seq<char>)
    ensures
        trim_end(s).len() <= s.len(),
        trim_end(s) == s.take(trim_end(s).len() as int),
        trim_end(s).len() > 0 ==> !spec_is_whitespace(trim_end(s).last()),
    decreases s.len(),
{
    if s.len() > 0 && spec_is_whitespace(s.last()) {
        lemma_trim_end_prefix(s.drop_last());
        assert(s.drop_last().take(trim_end(s).len() as int) =~= s.take(
            trim_end(s).len() as int,
        ));
    } else {
        assert(s.take(s.len() as int) =~= s);
    }
}

/// Trimming a trimmed text changes nothing.
pub proof fn lemma_trim_idempotent(s: Seq<char>)
    ensures
        spec_trim(spec_trim(s)) == spec_trim(s),
{
    let t = trim_start(s);
    let u = trim_end(t);
    lemma_trim_start_first(s);
    lemma_trim_end_prefix(t);
    if u.len() > 0 {
        assert(u[0] == t[0]);
        assert(trim_start(u) == u);
        assert(trim_end(u) == u);
    } else {
        assert(trim_start(u) == u);
        assert(trim_end(u) == u);
    }
}

/// The characters of a string, in order.
pub fn chars_of(s: &str) -> (v: Vec<char>)
    ensures
        v@ == s@,
{
    let mut v: Vec<char> = Vec::new();
    for c in it: s.chars()
        invariant
            v@ == it.seq().take(it.index() as int),
            it.seq() == s@,
    {
        v.push(c);
    }
    v
}

/// The characters `s[a..b]` as a new vector.
pub fn copy_range(s: &[char], a: usize, b: usize) -> (v: Vec<char>)
    requires
        a <= b <= s@.len(),
    ensures
        v@ == s@.subrange(a as int, b as int),
{
    let mut v: Vec<char> = Vec::new();
    let mut i = a;
    while i < b
        invariant
            a <= i <= b <= s@.len(),
            v@ == s@.subrange(a as int, i as int),
        decreases b - i,
    {
        v.push(s[i]);
        i += 1;
    }
    v
}

/// Appends `t` to `v`.
pub fn append_chars(v: &mut Vec<char>, t: &[char])
    ensures
        final(v)@ == old(v)@ + t@,
{
    let mut i: usize = 0;
    while i < t.len()
        invariant
            i <= t@.len(),
            v@ == old(v)@ + t@.subrange(0, i as int),
        decreases t@.len() - i,
    {
        v.push(t[i]);
        i += 1;
    }
}

/// `s` without leading and trailing whitespace.
pub fn trim(s: &[char]) -> (t: Vec<char>)
    ensures
        t@ == spec_trim(s@),
{
    let n = s.len();
    let mut i: usize = 0;
    assert(s@.subrange(0, n as int) =~= s@);
    while i < n && is_whitespace(s[i])
        invariant
            i <= n == s@.len(),
            trim_start(s@) == trim_start(s@.subrange(i as int, n as int)),
        decreases n - i,
    {
        assert(s@.subrange(i as int, n as int).drop_first() =~= s@.subrange(
            i + 1,
            n as int,
        ));
        i += 1;
    }
    assert(trim_start(s@) == s@.subrange(i as int, n as int));
    let mut j: usize = n;
    while j > i && is_whitespace(s[j - 1])
        invariant
            i <= j <= n == s@.len(),
            trim_end(s@.subrange(i as int, n as int)) == trim_end(
                s@.subrange(i as int, j as int),
            ),
        decreases j,
    {
        assert(s@.subrange(i as int, j as int).drop_last() =~= s@.subrange(
            i as int,
            j - 1,
        ));
        j -= 1;
    }
    copy_range(s, i, j)
}

// ---------------------------------------------------------------------------
// Substrings
// ---------------------------------------------------------------------------

/// `p` occurs in `s` starting at index `i`.
pub open spec fn occurs_at(s: Seq<char>, i: int, p: Seq<char>) -> bool {
    0 <= i && i + p.len() <= s.len() && s.subrange(i, i + p.len()) == p
}

/// `p` occurs somewhere in `s`: what `str::contains` with a string pattern tests.
pub open spec fn spec_contains(s: Seq<char>, p: Seq<char>) -> bool {
    exists|i: int| #[trigger] occurs_at(s, i, p)
}

/// Tests whether `p` occurs in `s` at index `i`.
pub fn matches_at(s: &[char], i: usize, p: &[char]) -> (b: bool)
    ensures
        b == occurs_at(s@, i as int, p@),
{
    if i > s.len() || p.len() > s.len() - i {
        return false;
    }
    let mut k: usize = 0;
    while k < p.len()
        invariant
            i + p@.len() <= s@.len() <= usize::MAX,
            k <= p@.len(),
            forall|j: int| 0 <= j < k ==> s@[i + j] == p@[j],
        decreases p@.len() - k,
    {
        if s[i + k] != p[k] {
            assert(s@.subrange(i as int, i + p@.len())[k as int] != p@[k as int]);
            return false;
        }
        k += 1;
    }
    assert(s@.subrange(i as int, i + p@.len()) =~= p@);
    true
}

/// Tests whether `p` occurs anywhere in `s`.
pub fn contains(s: &[char], p: &[char]) -> (b: bool)
    ensures
        b == spec_contains(s@, p@),
{
    if p.len() > s.len() {
        assert forall|i: int| !#[trigger] occurs_at(s@, i, p@) by {}
        return false;
    }
    let last = s.len() - p.len();
    let mut i: usize = 0;
    while i < last
        invariant
            i <= last,
            last + p@.len() == s@.len(),
            forall|j: int| 0 <= j < i ==> !#[trigger] occurs_at(s@, j, p@),
        decreases last - i,
    {
        if matches_at(s, i, p) {
            return true;
        }
        i += 1;
    }
    if matches_at(s, last, p) {
        return true;
    }
    assert forall|j: int| !#[trigger] occurs_at(s@, j, p@) by {
        if 0 <= j < i {
        }
    }
    false
}

/// `s` with every non-overlapping occurrence of `p`, taken from left to right,
/// replaced by `r`: what `str::replace` returns for a non-empty pattern.
pub open spec fn spec_replace(s: Seq<char>, p: Seq<char>, r: Seq<char>) -> Seq<char>
    decreases s.len(),
{
    if s.len() == 0 {
        seq![]
    } else if p.len() > 0 && occurs_at(s, 0, p) {
        r + spec_replace(s.skip(p.len() as int), p, r)
    } else {
        seq![s[0]] + spec_replace(s.drop_first(), p, r)
    }
}

/// Replaces every occurrence of the non-empty pattern `p` in `s` by `r`.
pub fn replace(s: &[char], p: &[char], r: &[char]) -> (t: Vec<char>)
    requires
        p@.len() > 0,
    ensures
        t@ == spec_replace(s@, p@, r@),
{
    let n = s.len();
    let mut out: Vec<char> = Vec::new();
    let mut i: usize = 0;
    assert(s@.skip(0) =~= s@);
    while i < n
        invariant
            i <= n == s@.len(),
            p@.len() > 0,
            out@ + spec_replace(s@.skip(i as int), p@, r@) == spec_replace(s@, p@, r@),
        decreases n - i,
    {
        let ghost rest = s@.skip(i as int);
        assert(rest.len() > 0);
        if matches_at(s, i, p) {
            assert(rest.subrange(0, p@.len() as int) =~= s@.subrange(i as int, i + p@.len()));
            assert(rest.skip(p@.len() as int) =~= s@.skip(i + p@.len()));
            assert(spec_replace(rest, p@, r@) == r@ + spec_replace(
                s@.skip(i + p@.len()),
                p@,
                r@,
            ));
            let ghost before = out@;
            append_chars(&mut out, r);
            assert(before + (r@ + spec_replace(s@.skip(i + p@.len()), p@, r@)) =~= out@
                + spec_replace(s@.skip(i + p@.len()), p@, r@));
            i += p.len();
        } else {
            assert(!occurs_at(rest, 0, p@)) by {
                if occurs_at(rest, 0, p@) {
                    assert(rest.subrange(0, p@.len() as int) =~= s@.subrange(
                        i as int,
                        i + p@.len(),
                    ));
                }
            }
            assert(rest.drop_first() =~= s@.skip(i + 1));
            let ghost before = out@;
            out.push(s[i]);
            assert(before + (seq![s@[i as int]] + spec_replace(s@.skip(i + 1), p@, r@)) =~= out@
                + spec_replace(s@.skip(i + 1), p@, r@));
            i += 1;
        }
    }
    assert(s@.skip(n as int) =~= Seq::<char>::empty());
    assert(out@ + Seq::<char>::empty() =~= out@);
    out
}

// ---------------------------------------------------------------------------
// Lines
// ---------------------------------------------------------------------------

/// The index of the first `'\n'` in `s`, or `s.len()` if there is none.
pub open spec fn line_end(s: Seq<char>) -> int
    decreases s.len(),
{
    if s.len() == 0 {
        0
    } else if s[0] == '\n' {
        0
    } else {
        1 + line_end(s.drop_first())
    }
}

/// `l` without one trailing `'\r'`.
pub open spec fn strip_cr(l: Seq<char>) -> Seq<char> {
    if l.len() > 0 && l.last() == '\r' {
        l.drop_last()
    } else {
        l
    }
}

/// The lines of `s`: what `str::lines` yields. Lines end at `'\n'` or at the
/// end of `s`; a line ended by `'\n'` loses one `'\r'` before it; a final
/// empty line is not yielded.
pub open spec fn spec_lines(s: Seq<char>) -> Seq<Seq<char>>
    decreases s.len(),
{
    if s.len() == 0 {
        seq![]
    } else if line_end(s) >= s.len() {
        seq![s]
    } else {
        proof {
            lemma_line_end_bounds(s);
        }
        seq![strip_cr(s.take(line_end(s)))] + spec_lines(s.skip(line_end(s) + 1))
    }
}

/// The first line of `s` ends inside `s`, at a `'\n'` if before its end.
pub proof fn lemma_line_end_bounds(s: Seq<char>)
    ensures
        0 <= line_end(s) <= s.len(),
        line_end(s) < s.len() ==> s[line_end(s)] == '\n',
    decreases s.len(),
{
    if s.len() > 0 && s[0] != '\n' {
        lemma_line_end_bounds(s.drop_first());
    }
}

proof fn lemma_line_end(s: Seq<char>, k: int)
    requires
        0 <= k <= s.len(),
        k < s.len() ==> s[k] == '\n',
        forall|j: int| 0 <= j < k ==> s[j] != '\n',
    ensures
        line_end(s) == k,
    decreases s.len(),
{
    if s.len() > 0 && k > 0 {
        lemma_line_end(s.drop_first(), k - 1);
    }
}

/// The views of a vector of character vectors.
pub open spec fn views(v: Seq<Vec<char>>) -> Seq<Seq<char>> {
    v.map_values(|x: Vec<char>| x@)
}

/// `l` without one trailing `'\r'`.
fn strip_cr_exec(l: Vec<char>) -> (t: Vec<char>)
    ensures
        t@ == strip_cr(l@),
{
    let mut l = l;
    if l.len() > 0 && l[l.len() - 1] == '\r' {
        l.pop();
    }
    l
}

/// Splits `s` into lines as `str::lines` does.
pub fn lines(s: &[char]) -> (ls: Vec<Vec<char>>)
    ensures
        views(ls@) == spec_lines(s@),
{
    let n = s.len();
    let mut out: Vec<Vec<char>> = Vec::new();
    let mut start: usize = 0;
    let mut i: usize = 0;
    assert(s@.skip(0) =~= s@);
    while i < n
        invariant
            start <= i <= n == s@.len(),
            forall|j: int| start <= j < i ==> s@[j] != '\n',
            views(out@) + spec_lines(s@.skip(start as int)) == spec_lines(s@),
        decreases n - i,
    {
        if s[i] == '\n' {
            let ghost rest = s@.skip(start as int);
            proof {
                lemma_line_end(rest, i - start);
            }
            assert(rest.take(i - start) =~= s@.subrange(start as int, i as int));
            assert(rest.skip(i - start + 1) =~= s@.skip(i + 1));
            let line = strip_cr_exec(copy_range(s, start, i));
            let ghost before = out@;
            out.push(line);
            assert(views(out@) =~= views(before).push(line@));
            assert(views(before) + (seq![line@] + spec_lines(s@.skip(i + 1))) =~= views(out@)
                + spec_lines(s@.skip(i + 1)));
            start = i + 1;
        }
        i += 1;
    }
    if start < n {
        let ghost rest = s@.skip(start as int);
        proof {
            lemma_line_end(rest, n - start);
        }
        assert(rest =~= s@.subrange(start as int, n as int));
        let line = copy_range(s, start, n);
        let ghost before = out@;
        out.push(line);
        assert(views(out@) =~= views(before).push(line@));
        assert(views(before) + seq![line@] =~= views(out@));
    } else {
        assert(s@.skip(start as int) =~= Seq::<char>::empty());
        assert(views(out@) + Seq::<Seq<char>>::empty() =~= views(out@));
    }
    out
}

// ---------------------------------------------------------------------------
// Decimal numbers
// ---------------------------------------------------------------------------

/// Every character of `s` is an ASCII digit.
pub open spec fn all_ascii_digits(s: Seq<char>) -> bool {
    forall|i: int| 0 <= i < s.len() ==> spec_is_ascii_digit(#[trigger] s[i])
}

/// The value of the digit character `c`.
pub open spec fn digit_value(c: char) -> nat {
    (c as int - '0' as int) as nat
}

/// The number that the ASCII digits `s` write in base ten (0 for no digits).
pub open spec fn digits_value(s: Seq<char>) -> nat
    decreases s.len(),
{
    if s.len() == 0 {
        0
    } else {
        digits_value(s.drop_last()) * 10 + digit_value(s.last())
    }
}

/// The number that `str::parse` reads from `s` for an unsigned integer type
/// wide enough: an optional `'+'` followed by at least one ASCII digit.
pub open spec fn parse_unsigned(s: Seq<char>) -> Option<nat> {
    let d = if s.len() > 0 && s[0] == '+' {
        s.drop_first()
    } else {
        s
    };
    if d.len() > 0 && all_ascii_digits(d) {
        Some(digits_value(d))
    } else {
        None
    }
}

/// What `str::parse::<u64>` gives: the number, if it fits in 64 bits.
pub open spec fn spec_parse_u64(s: Seq<char>) -> Option<u64> {
    match parse_unsigned(s) {
        Some(v) => if v <= u64::MAX {
            Some(v as u64)
        } else {
            None
        },
        None => None,
    }
}

/// What `str::parse::<u32>` gives: the number, if it fits in 32 bits.
pub open spec fn spec_parse_u32(s: Seq<char>) -> Option<u32> {
    match parse_unsigned(s) {
        Some(v) => if v <= u32::MAX {
            Some(v as u32)
        } else {
            None
        },
        None => None,
    }
}

/// A prefix of a digit string is worth no more than the whole.
pub proof fn lemma_digits_value_prefix(s: Seq<char>, k: int)
    requires
        0 <= k <= s.len(),
    ensures
        digits_value(s.take(k)) <= digits_value(s),
    decreases s.len(),
{
    if k < s.len() {
        assert(s.drop_last().take(k) =~= s.take(k));
        lemma_digits_value_prefix(s.drop_last(), k);
    } else {
        assert(s.take(k) =~= s);
    }
}

/// Reads an unsigned number as `str::parse::<u64>` does.
pub fn parse_u64(s: &[char]) -> (r: Option<u64>)
    ensures
        r == spec_parse_u64(s@),
{
    let n = s.len();
    let start: usize = if n > 0 && s[0] == '+' {
        1
    } else {
        0
    };
    let ghost d = s@.skip(start as int);
    assert(d =~= (if s@.len() > 0 && s@[0] == '+' {
        s@.drop_first()
    } else {
        s@
    }));
    if start == n {
        return None;
    }
    let mut acc: u64 = 0;
    let mut i: usize = start;
    assert(d.take(0) =~= Seq::<char>::empty());
    while i < n
        invariant
            start <= i <= n == s@.len(),
            d == s@.skip(start as int),
            d == (if s@.len() > 0 && s@[0] == '+' {
                s@.drop_first()
            } else {
                s@
            }),
            all_ascii_digits(d.take(i - start)),
            acc as nat == digits_value(d.take(i - start)),
        decreases n - i,
    {
        let c = s[i];
        if c < '0' || c > '9' {
            assert(d[i - start] == c);
            assert(!spec_is_ascii_digit(d[i - start]));
            assert(!all_ascii_digits(d));
            return None;
        }
        let ghost t = d.take(i - start + 1);
        assert(t.drop_last() =~= d.take(i - start));
        assert(t.last() == c);
        let dv = (c as u32 - '0' as u32) as u64;
        assert(dv == digit_value(c));
        assert(digits_value(t) == acc * 10 + dv);
        match acc.checked_mul(10) {
            Some(m) => match m.checked_add(dv) {
                Some(v) => {
                    acc = v;
                },
                None => {
                    proof {
                        lemma_digits_value_prefix(d, i - start + 1);
                    }
                    return None;
                },
            },
            None => {
                proof {
                    lemma_digits_value_prefix(d, i - start + 1);
                }
                return None;
            },
        }
        i += 1;
    }
    assert(d.take(n - start) =~= d);
    Some(acc)
}

/// Reads an unsigned number as `str::parse::<u32>` does.
pub fn parse_u32(s: &[char]) -> (r: Option<u32>)
    ensures
        r == spec_parse_u32(s@),
{
    match parse_u64(s) {
        Some(v) => if v <= 0xffff_ffff {
            Some(v as u32)
        } else {
            None
        },
        None => None,
    }
}

/// The character of the digit `d`.
pub open spec fn digit_char(d: nat) -> char {
    (d + '0' as int) as char
}

/// The decimal digits of `n`, without leading zeros: what `to_string` gives.
pub open spec fn decimal(n: nat) -> Seq<char>
    decreases n,
{
    if n < 10 {
        seq![digit_char(n)]
    } else {
        decimal(n / 10).push(digit_char(n % 10))
    }
}

fn digit_to_char(d: u64) -> (c: char)
    requires
        d < 10,
    ensures
        c == digit_char(d as nat),
{
    let b = (d as u8) + 48u8;
    b as char
}

/// The decimal digits of `n`.
pub fn to_decimal(n: u64) -> (v: Vec<char>)
    ensures
        v@ == decimal(n as nat),
{
    let mut out: Vec<char> = Vec::new();
    let mut m = n;
    while m >= 10
        invariant
            decimal(n as nat) == decimal(m as nat) + out@,
        decreases m,
    {
        let c = digit_to_char(m % 10);
        let ghost before = out@;
        out.insert(0, c);
        assert(decimal(m as nat) == decimal((m / 10) as nat).push(c));
        assert(decimal((m / 10) as nat).push(c) + before =~= decimal((m / 10) as nat) + out@);
        m = m / 10;
    }
    let c = digit_to_char(m);
    let ghost before = out@;
    out.insert(0, c);
    assert(decimal(m as nat) =~= seq![c]);
    assert(seq![c] + before =~= out@);
    out
}

} // verus!
