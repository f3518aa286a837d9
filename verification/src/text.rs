//! Character-level helpers: converting between `str`/`String` and character
//! sequences, comparing against literals, decimal formatting and parsing.
use vstd::prelude::*;

verus! {

/// Collects a character slice into an owned `String` (std's `FromIterator<char>`).
#[verifier::external_body]
fn collect_chars(v: &[char]) -> (r: String)
    ensures
        r@ == v@,
{
    v.iter().collect()
}

/// The characters of `s`, in order.
pub fn chars_of(s: &str) -> (r: Vec<char>)
    ensures
        r@ == s@,
{
    let mut out: Vec<char> = Vec::new();
    for c in it: s.chars()
        invariant
            out@ == it.seq().take(it.index() as int),
            it.seq() == s@,
    {
        out.push(c);
    }
    out
}

/// A `String` holding exactly the characters `v[from..to]`.
pub fn string_of(v: &Vec<char>, from: usize, to: usize) -> (r: String)
    requires
        from <= to <= v@.len(),
    ensures
        r@ == v@.subrange(from as int, to as int),
{
    let mut part: Vec<char> = Vec::new();
    let mut i = from;
    while i < to
        invariant
            from <= i <= to <= v@.len(),
            part@ == v@.subrange(from as int, i as int),
        decreases to - i,
    {
        part.push(v[i]);
        i = i + 1;
    }
    collect_chars(part.as_slice())
}

/// A `String` holding exactly the characters of `v`.
pub fn string_of_all(v: &Vec<char>) -> (r: String)
    ensures
        r@ == v@,
{
    let r = string_of(v, 0, v.len());
    assert(v@.subrange(0, v@.len() as int) =~= v@);
    r
}

/// `s` followed by `t`.
pub fn join(s: String, t: &str) -> (r: String)
    ensures
        r@ == s@ + t@,
{
    s.concat(t)
}

/// Whether the characters `v[from..to]` are exactly the characters of `lit`.
pub fn range_eq_lit(v: &Vec<char>, from: usize, to: usize, lit: &str) -> (r: bool)
    requires
        from <= to <= v@.len(),
    ensures
        r == (v@.subrange(from as int, to as int) == lit@),
{
    let l = chars_of(lit);
    if to - from != l.len() {
        return false;
    }
    let mut i: usize = 0;
    while i < l.len()
        invariant
            from <= to <= v@.len(),
            to - from == l@.len(),
            l@ == lit@,
            i <= l@.len(),
            forall|j: int| 0 <= j < i ==> v@[from + j] == l@[j],
        decreases l.len() - i,
    {
        if v[from + i] != l[i] {
            assert(v@.subrange(from as int, to as int)[i as int] != lit@[i as int]);
            return false;
        }
        i = i + 1;
    }
    assert(v@.subrange(from as int, to as int) =~= lit@);
    true
}

/// Whether `v` is exactly the characters of `lit`.
pub fn eq_lit(v: &Vec<char>, lit: &str) -> (r: bool)
    ensures
        r == (v@ == lit@),
{
    let r = range_eq_lit(v, 0, v.len(), lit);
    assert(v@.subrange(0, v@.len() as int) =~= v@);
    r
}

/// Whether two strings have the same characters.
pub fn str_eq(a: &str, b: &str) -> (r: bool)
    ensures
        r == (a@ == b@),
{
    let v = chars_of(a);
    let w = chars_of(b);
    if v.len() != w.len() {
        return false;
    }
    let mut i: usize = 0;
    while i < v.len()
        invariant
            v@ == a@,
            w@ == b@,
            v@.len() == w@.len(),
            i <= v@.len(),
            forall|j: int| 0 <= j < i ==> v@[j] == w@[j],
        decreases v.len() - i,
    {
        if v[i] != w[i] {
            assert(a@[i as int] != b@[i as int]);
            return false;
        }
        i = i + 1;
    }
    assert(v@ =~= w@);
    true
}

/// The decimal digit character for `d` (`d < 10`).
pub open spec fn digit_char(d: nat) -> char {
    if d == 0 { '0' }
    else if d == 1 { '1' }
    else if d == 2 { '2' }
    else if d == 3 { '3' }
    else if d == 4 { '4' }
    else if d == 5 { '5' }
    else if d == 6 { '6' }
    else if d == 7 { '7' }
    else if d == 8 { '8' }
    else { '9' }
}

/// The usual decimal representation of `n`: no sign, no leading zeros.
pub open spec fn decimal(n: nat) -> Seq<char>
    decreases n,
{
    if n < 10 {
        seq![digit_char(n)]
    } else {
        decimal(n / 10).push(digit_char(n % 10))
    }
}

fn digit_of(d: u64) -> (c: char)
    requires
        d < 10,
    ensures
        c == digit_char(d as nat),
{
    if d == 0 { '0' }
    else if d == 1 { '1' }
    else if d == 2 { '2' }
    else if d == 3 { '3' }
    else if d == 4 { '4' }
    else if d == 5 { '5' }
    else if d == 6 { '6' }
    else if d == 7 { '7' }
    else if d == 8 { '8' }
    else { '9' }
}

fn push_decimal(n: u64, out: &mut Vec<char>)
    ensures
        final(out)@ == old(out)@ + decimal(n as nat),
    decreases n,
{
    if n >= 10 {
        push_decimal(n / 10, out);
    }
    let ghost before = out@;
    out.push(digit_of(n % 10));
    proof {
        if n >= 10 {
            assert(out@ =~= old(out)@ + decimal((n / 10) as nat).push(digit_char((n % 10) as nat)));
        } else {
            assert(out@ =~= old(out)@ + seq![digit_char(n as nat)]);
        }
    }
}

/// The decimal representation of `n`, as `Display` writes an unsigned integer.
pub fn decimal_string(n: u64) -> (r: String)
    ensures
        r@ == decimal(n as nat),
{
    let mut out: Vec<char> = Vec::new();
    push_decimal(n, &mut out);
    assert(out@ =~= decimal(n as nat));
    string_of_all(&out)
}


/// ASCII whitespace: space, tab, line feed, form feed, carriage return.
pub open spec fn is_ascii_ws(c: char) -> bool {
    c == ' ' || c == '\t' || c == '\n' || c == '\x0C' || c == '\r'
}

/// Splitting by ASCII whitespace, one character at a time: the words
/// finished so far, and the word being read.
pub open spec fn word_scan(s: Seq<char>) -> (Seq<Seq<char>>, Seq<char>)
    decreases s.len(),
{
    if s.len() == 0 {
        (Seq::empty(), Seq::empty())
    } else {
        let (done, cur) = word_scan(s.drop_last());
        if is_ascii_ws(s.last()) {
            if cur.len() > 0 { (done.push(cur), Seq::empty()) } else { (done, cur) }
        } else {
            (done, cur.push(s.last()))
        }
    }
}

/// The maximal runs of non-whitespace characters of `s`, in order.
pub open spec fn words(s: Seq<char>) -> Seq<Seq<char>> {
    let (done, cur) = word_scan(s);
    if cur.len() > 0 { done.push(cur) } else { done }
}

/// The words of `s`, split at ASCII whitespace (as `str::split_ascii_whitespace`).
pub fn split_words(s: &str) -> (r: Vec<String>)
    ensures
        r@.len() == words(s@).len(),
        forall|i: int| 0 <= i < r@.len() ==> (#[trigger] r@[i])@ == words(s@)[i],
{
    let v = chars_of(s);
    let mut done: Vec<String> = Vec::new();
    let mut cur: Vec<char> = Vec::new();
    let mut i: usize = 0;
    while i < v.len()
        invariant
            v@ == s@,
            i <= v@.len(),
            done@.len() == word_scan(v@.take(i as int)).0.len(),
            forall|j: int| 0 <= j < done@.len() ==> (#[trigger] done@[j])@ == word_scan(v@.take(i as int)).0[j],
            cur@ == word_scan(v@.take(i as int)).1,
        decreases v.len() - i,
    {
        let ghost before = v@.take(i as int);
        assert(v@.take(i as int + 1).drop_last() =~= before);
        let c = v[i];
        if c == ' ' || c == '\t' || c == '\n' || c == '\x0C' || c == '\r' {
            if cur.len() > 0 {
                let w = string_of_all(&cur);
                done.push(w);
                cur = Vec::new();
            }
        } else {
            cur.push(c);
        }
        i = i + 1;
    }
    assert(v@.take(v@.len() as int) =~= v@);
    if cur.len() > 0 {
        let w = string_of_all(&cur);
        done.push(w);
    }
    done
}

/// Whitespace as `char::is_whitespace` defines it (the Unicode White_Space property).
pub open spec fn is_unicode_ws(c: char) -> bool {
    ('\t' <= c && c <= '\r') || c == ' ' || c == '\u{85}' || c == '\u{A0}' || c == '\u{1680}'
        || ('\u{2000}' <= c && c <= '\u{200A}') || c == '\u{2028}' || c == '\u{2029}' || c == '\u{202F}'
        || c == '\u{205F}' || c == '\u{3000}'
}

fn is_unicode_ws_exec(c: char) -> (r: bool)
    ensures
        r == is_unicode_ws(c),
{
    ('\t' <= c && c <= '\r') || c == ' ' || c == '\u{85}' || c == '\u{A0}' || c == '\u{1680}'
        || ('\u{2000}' <= c && c <= '\u{200A}') || c == '\u{2028}' || c == '\u{2029}' || c == '\u{202F}'
        || c == '\u{205F}' || c == '\u{3000}'
}

/// `s` without leading whitespace.
pub open spec fn trim_start(s: Seq<char>) -> Seq<char>
    decreases s.len(),
{
    if s.len() > 0 && is_unicode_ws(s[0]) { trim_start(s.drop_first()) } else { s }
}

/// `s` without trailing whitespace.
pub open spec fn trim_end(s: Seq<char>) -> Seq<char>
    decreases s.len(),
{
    if s.len() > 0 && is_unicode_ws(s.last()) { trim_end(s.drop_last()) } else { s }
}

/// `s` without leading and trailing whitespace (as `str::trim`).
pub open spec fn trimmed(s: Seq<char>) -> Seq<char> {
    trim_end(trim_start(s))
}

/// The characters of `s` other than `c`, in order.
pub open spec fn without(s: Seq<char>, c: char) -> Seq<char>
    decreases s.len(),
{
    if s.len() == 0 {
        s
    } else if s.last() == c {
        without(s.drop_last(), c)
    } else {
        without(s.drop_last(), c).push(s.last())
    }
}

/// The positions `(lo, hi)` such that the characters of `s` from `lo` up to
/// `hi` are `trimmed(s)`.
fn trim_bounds(s: &str) -> (r: (Vec<char>, usize, usize))
    ensures
        r.0@ == s@,
        r.1 <= r.2 <= r.0@.len(),
        r.0@.subrange(r.1 as int, r.2 as int) == trimmed(s@),
{
    let v = chars_of(s);
    let mut lo: usize = 0;
    assert(v@.subrange(0, v@.len() as int) =~= v@);
    while lo < v.len() && is_unicode_ws_exec(v[lo])
        invariant
            v@ == s@,
            lo <= v@.len(),
            trim_start(v@.subrange(lo as int, v@.len() as int)) == trim_start(v@),
        decreases v.len() - lo,
    {
        assert(v@.subrange(lo as int, v@.len() as int).drop_first() =~= v@.subrange(lo as int + 1, v@.len() as int));
        lo = lo + 1;
    }
    let ghost mid = v@.subrange(lo as int, v@.len() as int);
    assert(trim_start(v@) == mid);
    let mut hi: usize = v.len();
    while hi > lo && is_unicode_ws_exec(v[hi - 1])
        invariant
            v@ == s@,
            lo <= hi <= v@.len(),
            mid == v@.subrange(lo as int, v@.len() as int),
            trim_end(v@.subrange(lo as int, hi as int)) == trim_end(mid),
        decreases hi,
    {
        assert(v@.subrange(lo as int, hi as int).drop_last() =~= v@.subrange(lo as int, hi as int - 1));
        hi = hi - 1;
    }
    let ghost t = v@.subrange(lo as int, hi as int);
    assert(trimmed(s@) == t);
    (v, lo, hi)
}

/// `trimmed(s)`, as characters.
pub fn trimmed_chars(s: &str) -> (r: Vec<char>)
    ensures
        r@ == trimmed(s@),
{
    let (v, lo, hi) = trim_bounds(s);
    let mut out: Vec<char> = Vec::new();
    let mut i: usize = lo;
    while i < hi
        invariant
            lo <= i <= hi <= v@.len(),
            out@ == v@.subrange(lo as int, i as int),
        decreases hi - i,
    {
        out.push(v[i]);
        i = i + 1;
        assert(out@ =~= v@.subrange(lo as int, i as int));
    }
    out
}

/// `trimmed(s)` with every underscore removed, as characters.
pub fn trim_and_drop_underscores(s: &str) -> (r: Vec<char>)
    ensures
        r@ == without(trimmed(s@), '_'),
{
    let (v, lo, hi) = trim_bounds(s);
    let ghost t = v@.subrange(lo as int, hi as int);
    let mut out: Vec<char> = Vec::new();
    let mut i: usize = lo;
    while i < hi
        invariant
            lo <= i <= hi <= v@.len(),
            t == v@.subrange(lo as int, hi as int),
            out@ == without(v@.subrange(lo as int, i as int), '_'),
        decreases hi - i,
    {
        assert(v@.subrange(lo as int, i as int + 1).drop_last() =~= v@.subrange(lo as int, i as int));
        if v[i] != '_' {
            out.push(v[i]);
        }
        i = i + 1;
    }
    out
}

/// The value of a digit character in base `radix` (10 or 16), if it is one.
pub open spec fn radix_digit(c: char, radix: nat) -> Option<nat> {
    if '0' <= c && c <= '9' {
        Some((c as nat - '0' as nat) as nat)
    } else if radix == 16 && 'a' <= c && c <= 'f' {
        Some((c as nat - 'a' as nat + 10) as nat)
    } else if radix == 16 && 'A' <= c && c <= 'F' {
        Some((c as nat - 'A' as nat + 10) as nat)
    } else {
        None
    }
}

/// Whether `s` is a nonempty string of digits in base `radix`.
pub open spec fn all_digits(s: Seq<char>, radix: nat) -> bool {
    s.len() > 0 && forall|i: int| 0 <= i < s.len() ==> (#[trigger] radix_digit(s[i], radix)) is Some
}

/// The number the digits `s` denote in base `radix`.
pub open spec fn digits_value(s: Seq<char>, radix: nat) -> nat
    decreases s.len(),
{
    if s.len() == 0 {
        0
    } else {
        digits_value(s.drop_last(), radix) * radix + radix_digit(s.last(), radix)->0
    }
}

/// An unsigned integer in base `radix` as Rust's integer parsing reads it:
/// an optional `+`, then one or more digits, denoting at most `max`.
pub open spec fn parse_uint(s: Seq<char>, radix: nat, max: nat) -> Option<nat> {
    let d = if s.len() > 0 && s[0] == '+' { s.drop_first() } else { s };
    if all_digits(d, radix) && digits_value(d, radix) <= max {
        Some(digits_value(d, radix))
    } else {
        None
    }
}

fn radix_digit_exec(c: char, radix: u32) -> (r: Option<u64>)
    requires
        radix == 10 || radix == 16,
    ensures
        r matches Some(x) ==> radix_digit(c, radix as nat) == Some(x as nat) && x < radix,
        r is None ==> radix_digit(c, radix as nat) is None,
{
    if '0' <= c && c <= '9' {
        Some((c as u32 - '0' as u32) as u64)
    } else if radix == 16 && 'a' <= c && c <= 'f' {
        Some((c as u32 - 'a' as u32 + 10) as u64)
    } else if radix == 16 && 'A' <= c && c <= 'F' {
        Some((c as u32 - 'A' as u32 + 10) as u64)
    } else {
        None
    }
}

proof fn lemma_digits_value_bound(s: Seq<char>, radix: nat, k: int)
    requires
        radix == 10 || radix == 16,
        0 <= k <= s.len(),
        forall|i: int| 0 <= i < s.len() ==> (#[trigger] radix_digit(s[i], radix)) is Some,
    ensures
        digits_value(s.take(k), radix) <= digits_value(s, radix),
    decreases s.len() - k,
{
    if k < s.len() {
        lemma_digits_value_bound(s, radix, k + 1);
        assert(s.take(k + 1).drop_last() =~= s.take(k));
        assert(radix_digit(s[k], radix) is Some);
        assert(digits_value(s.take(k), radix) <= digits_value(s.take(k), radix) * radix) by (nonlinear_arith)
            requires radix >= 10;
    } else {
        assert(s.take(k) =~= s);
    }
}

/// Parses `s` as [`parse_uint`] does.
pub fn parse_uint_exec(s: &Vec<char>, radix: u32, max: u64) -> (r: Option<u64>)
    requires
        radix == 10 || radix == 16,
    ensures
        r matches Some(x) ==> parse_uint(s@, radix as nat, max as nat) == Some(x as nat),
        r is None ==> parse_uint(s@, radix as nat, max as nat) is None,
{
    let start: usize = if s.len() > 0 && s[0] == '+' { 1 } else { 0 };
    let ghost d = if s@.len() > 0 && s@[0] == '+' { s@.drop_first() } else { s@ };
    assert(d =~= s@.subrange(start as int, s@.len() as int));
    if start == s.len() {
        return None;
    }
    let mut acc: u64 = 0;
    let mut i: usize = start;
    while i < s.len()
        invariant
            start <= i <= s@.len(),
            d == s@.subrange(start as int, s@.len() as int),
            d == (if s@.len() > 0 && s@[0] == '+' { s@.drop_first() } else { s@ }),
            radix == 10 || radix == 16,
            forall|j: int| 0 <= j < i - start ==> (#[trigger] radix_digit(d[j], radix as nat)) is Some,
            acc as nat == digits_value(d.take(i - start), radix as nat),
            acc <= max,
        decreases s.len() - i,
    {
        let x = match radix_digit_exec(s[i], radix) {
            Some(x) => x,
            None => {
                assert(radix_digit(d[i - start], radix as nat) is None);
                return None;
            }
        };
        assert(d.take(i - start + 1).drop_last() =~= d.take(i - start));
        assert(d[i - start] == s@[i as int]);
        assert((acc as u128) * (radix as u128) + (x as u128) <= 0xFFFF_FFFF_FFFF_FFFF * 16 + 16) by (nonlinear_arith)
            requires
                acc <= 0xFFFF_FFFF_FFFF_FFFFu64,
                radix <= 16,
                x < radix,
        ;
        let wide: u128 = (acc as u128) * (radix as u128) + (x as u128);
        assert(digits_value(d.take(i - start + 1), radix as nat) == wide);
        if wide > max as u128 {
            proof {
                if all_digits(d, radix as nat) {
                    lemma_digits_value_bound(d, radix as nat, i - start + 1);
                }
            }
            return None;
        }
        acc = wide as u64;
        i = i + 1;
    }
    assert(d.take(i - start) =~= d);
    Some(acc)
}

/// The position of the last `"_f"` in `s`, if any.
pub open spec fn last_fine_marker(s: Seq<char>) -> Option<int>
    decreases s.len(),
{
    if s.len() < 2 {
        None
    } else if s[s.len() - 2] == '_' && s[s.len() - 1] == 'f' {
        Some(s.len() - 2)
    } else {
        last_fine_marker(s.drop_last())
    }
}

/// Finds [`last_fine_marker`].
pub fn find_last_fine_marker(s: &Vec<char>) -> (r: Option<usize>)
    ensures
        r matches Some(i) ==> last_fine_marker(s@) == Some(i as int) && i + 2 <= s@.len(),
        r is None ==> last_fine_marker(s@) is None,
{
    let mut n: usize = s.len();
    assert(s@.take(n as int) =~= s@);
    while n >= 2
        invariant
            n <= s@.len(),
            last_fine_marker(s@.take(n as int)) == last_fine_marker(s@),
        decreases n,
    {
        if s[n - 2] == '_' && s[n - 1] == 'f' {
            return Some(n - 2);
        }
        assert(s@.take(n as int).drop_last() =~= s@.take(n as int - 1));
        n = n - 1;
    }
    None
}

/// Whether every character of `s` is a decimal digit.
pub open spec fn decimal_digits(s: Seq<char>) -> bool {
    forall|i: int| 0 <= i < s.len() ==> '0' <= #[trigger] s[i] && s[i] <= '9'
}

/// The position of the fine-channel marker of a property name: its last
/// `"_f"`, when what follows is empty or decimal digits.
pub open spec fn fine_marker(s: Seq<char>) -> Option<int> {
    match last_fine_marker(s) {
        Some(m) => if decimal_digits(s.skip(m + 2)) { Some(m) } else { None },
        None => None,
    }
}

/// Finds [`fine_marker`].
pub fn find_fine_marker(s: &Vec<char>) -> (r: Option<usize>)
    ensures
        r matches Some(i) ==> fine_marker(s@) == Some(i as int) && i + 2 <= s@.len(),
        r is None ==> fine_marker(s@) is None,
{
    let m = match find_last_fine_marker(s) {
        Some(m) => m,
        None => return None,
    };
    let n: usize = s.len();
    assert(m + 2 <= n);
    let mut j: usize = m + 2;
    while j < n
        invariant
            n == s@.len(),
            last_fine_marker(s@) == Some(m as int),
            m + 2 <= j <= s@.len(),
            forall|k: int| m + 2 <= k < j ==> '0' <= #[trigger] s@[k] && s@[k] <= '9',
        decreases n - j,
    {
        if !('0' <= s[j] && s[j] <= '9') {
            proof {
                let t = s@.skip(m + 2);
                assert(t[j - (m + 2)] == s@[j as int]);
                assert(!('0' <= t[j - (m + 2)] && t[j - (m + 2)] <= '9'));
                assert(!decimal_digits(t));
            }
            return None;
        }
        j = j + 1;
    }
    proof {
        assert forall|i: int| 0 <= i < s@.skip(m + 2).len() implies '0' <= #[trigger] s@.skip(m + 2)[i]
            && s@.skip(m + 2)[i] <= '9' by {
            assert(s@.skip(m + 2)[i] == s@[m + 2 + i]);
        }
    }
    Some(m)
}

/// The position of the first `c` in `s`, if any.
pub open spec fn first_index(s: Seq<char>, c: char) -> Option<int>
    decreases s.len(),
{
    if s.len() == 0 {
        None
    } else if s[0] == c {
        Some(0)
    } else {
        match first_index(s.drop_first(), c) {
            Some(i) => Some(i + 1),
            None => None,
        }
    }
}

/// Finds [`first_index`].
pub fn find_first(s: &Vec<char>, c: char) -> (r: Option<usize>)
    ensures
        r matches Some(i) ==> first_index(s@, c) == Some(i as int) && i < s@.len(),
        r is None ==> first_index(s@, c) is None,
{
    let mut i: usize = 0;
    assert(s@.subrange(0, s@.len() as int) =~= s@);
    while i < s.len()
        invariant
            i <= s@.len(),
            forall|j: int| 0 <= j < i ==> s@[j] != c,
            first_index(s@, c) == (match first_index(s@.subrange(i as int, s@.len() as int), c) {
                Some(k) => Some(k + i),
                None => None::<int>,
            }),
        decreases s.len() - i,
    {
        if s[i] == c {
            return Some(i);
        }
        assert(s@.subrange(i as int, s@.len() as int).drop_first() =~= s@.subrange(i as int + 1, s@.len() as int));
        i = i + 1;
    }
    None
}


/// `b` to the power `n`.
pub open spec fn pow_nat(b: nat, n: nat) -> nat
    decreases n,
{
    if n == 0 { 1 } else { b * pow_nat(b, (n - 1) as nat) }
}

proof fn lemma_digits_below(s: Seq<char>, radix: nat)
    requires
        radix == 10 || radix == 16,
        forall|i: int| 0 <= i < s.len() ==> (#[trigger] radix_digit(s[i], radix)) is Some,
    ensures
        digits_value(s, radix) < pow_nat(radix, s.len()),
    decreases s.len(),
{
    if s.len() > 0 {
        let init = s.drop_last();
        assert forall|i: int| 0 <= i < init.len() implies (#[trigger] radix_digit(init[i], radix)) is Some by {
            assert(init[i] == s[i]);
        }
        lemma_digits_below(init, radix);
        assert(radix_digit(s[s.len() - 1], radix) is Some);
        let d = radix_digit(s.last(), radix)->0;
        assert(d < radix);
        let a = digits_value(init, radix);
        let p = pow_nat(radix, init.len());
        assert(a * radix + d < p * radix) by (nonlinear_arith)
            requires a < p, d < radix, radix > 0;
    }
}

proof fn lemma_pow_mono(b: nat, m: nat, n: nat)
    requires
        b >= 1,
        m <= n,
    ensures
        pow_nat(b, m) <= pow_nat(b, n),
    decreases n,
{
    if m < n {
        lemma_pow_mono(b, m, (n - 1) as nat);
        let p = pow_nat(b, (n - 1) as nat);
        assert(p <= b * p) by (nonlinear_arith)
            requires b >= 1;
    }
}

/// A number read by [`parse_uint`] from `s` is below `radix` to the length of `s`.
pub proof fn lemma_parse_below(s: Seq<char>, radix: nat, max: nat, v: nat)
    requires
        radix == 10 || radix == 16,
        parse_uint(s, radix, max) == Some(v),
    ensures
        v < pow_nat(radix, s.len()),
{
    let d = if s.len() > 0 && s[0] == '+' { s.drop_first() } else { s };
    lemma_digits_below(d, radix);
    lemma_pow_mono(radix, d.len(), s.len());
}

} // verus!
