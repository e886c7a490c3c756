//! Character-level text handling shared by the whole library: whitespace
//! trimming, splitting, decimal rendering and padding, all specified over
//! `Seq<char>`.
use vstd::prelude::*;

verus! {

/// The Unicode `White_Space` property, which `char::is_whitespace`,
/// `str::trim` and `str::split_whitespace` follow.
pub open spec fn is_white_space(c: char) -> bool {
    ||| ('\u{9}' <= c && c <= '\u{d}')
    ||| c == ' '
    ||| c == '\u{85}'
    ||| c == '\u{a0}'
    ||| c == '\u{1680}'
    ||| ('\u{2000}' <= c && c <= '\u{200a}')
    ||| c == '\u{2028}'
    ||| c == '\u{2029}'
    ||| c == '\u{202f}'
    ||| c == '\u{205f}'
    ||| c == '\u{3000}'
}

/// Executable test for the `White_Space` property.
pub fn white_space(c: char) -> (r: bool)
    ensures
        r == is_white_space(c),
{
    ('\u{9}' <= c && c <= '\u{d}') || c == ' ' || c == '\u{85}' || c == '\u{a0}' || c
        == '\u{1680}' || ('\u{2000}' <= c && c <= '\u{200a}') || c == '\u{2028}' || c == '\u{2029}'
        || c == '\u{202f}' || c == '\u{205f}' || c == '\u{3000}'
}

/// Index of the first non-whitespace character at or after `i`, or `s.len()`.
pub open spec fn skip_white(s: Seq<char>, i: int) -> int
    decreases s.len() - i,
{
    if i < 0 || i >= s.len() {
        s.len() as int
    } else if !is_white_space(s[i]) {
        i
    } else {
        skip_white(s, i + 1)
    }
}

/// Index of the first whitespace character at or after `i`, or `s.len()`.
pub open spec fn skip_non_white(s: Seq<char>, i: int) -> int
    decreases s.len() - i,
{
    if i < 0 || i >= s.len() {
        s.len() as int
    } else if is_white_space(s[i]) {
        i
    } else {
        skip_non_white(s, i + 1)
    }
}

/// End of `s.take(j)` once its trailing whitespace is dropped.
pub open spec fn drop_trailing_white(s: Seq<char>, j: int) -> int
    decreases j,
{
    if j <= 0 || j > s.len() {
        0
    } else if !is_white_space(s[j - 1]) {
        j
    } else {
        drop_trailing_white(s, j - 1)
    }
}

/// `s` without leading and trailing whitespace, as `str::trim` gives it.
pub open spec fn trimmed(s: Seq<char>) -> Seq<char> {
    let a = skip_white(s, 0);
    let b = drop_trailing_white(s, s.len() as int);
    if a < b {
        s.subrange(a, b)
    } else {
        Seq::empty()
    }
}

proof fn lemma_skip_white_bounds(s: Seq<char>, i: int)
    requires
        0 <= i <= s.len(),
    ensures
        i <= skip_white(s, i) <= s.len(),
        forall|k: int| i <= k < skip_white(s, i) ==> is_white_space(#[trigger] s[k]),
        skip_white(s, i) < s.len() ==> !is_white_space(s[skip_white(s, i)]),
    decreases s.len() - i,
{
    if i < s.len() && is_white_space(s[i]) {
        lemma_skip_white_bounds(s, i + 1);
    }
}

proof fn lemma_skip_non_white_bounds(s: Seq<char>, i: int)
    requires
        0 <= i <= s.len(),
    ensures
        i <= skip_non_white(s, i) <= s.len(),
        forall|k: int| i <= k < skip_non_white(s, i) ==> !is_white_space(#[trigger] s[k]),
        skip_non_white(s, i) < s.len() ==> is_white_space(s[skip_non_white(s, i)]),
    decreases s.len() - i,
{
    if i < s.len() && !is_white_space(s[i]) {
        lemma_skip_non_white_bounds(s, i + 1);
    }
}

proof fn lemma_drop_trailing_bounds(s: Seq<char>, j: int)
    requires
        0 <= j <= s.len(),
    ensures
        0 <= drop_trailing_white(s, j) <= j,
        forall|k: int| drop_trailing_white(s, j) <= k < j ==> is_white_space(#[trigger] s[k]),
        drop_trailing_white(s, j) > 0 ==> !is_white_space(s[drop_trailing_white(s, j) - 1]),
    decreases j,
{
    if j > 0 && is_white_space(s[j - 1]) {
        lemma_drop_trailing_bounds(s, j - 1);
    }
}

/// The trimmed text starts and ends with a non-whitespace character.
pub proof fn lemma_trimmed_has_no_outer_white(s: Seq<char>)
    ensures
        trimmed(s).len() > 0 ==> !is_white_space(trimmed(s)[0]) && !is_white_space(
            trimmed(s)[trimmed(s).len() - 1],
        ),
        trimmed(s).len() <= s.len(),
{
    lemma_skip_white_bounds(s, 0);
    lemma_drop_trailing_bounds(s, s.len() as int);
}

/// Trimming twice is trimming once.
pub proof fn lemma_trim_idempotent(s: Seq<char>)
    ensures
        trimmed(trimmed(s)) == trimmed(s),
{
    let t = trimmed(s);
    lemma_trimmed_has_no_outer_white(s);
    if t.len() > 0 {
        assert(skip_white(t, 0) == 0);
        assert(drop_trailing_white(t, t.len() as int) == t.len());
        assert(t.subrange(0, t.len() as int) =~= t);
    } else {
        assert(trimmed(t) =~= t);
    }
}

/// Every character of the trimmed text is a character of the text.
pub proof fn lemma_trimmed_chars_from(s: Seq<char>)
    ensures
        forall|k: int|
            0 <= k < trimmed(s).len() ==> exists|j: int| 0 <= j < s.len() && s[j] == #[trigger] trimmed(s)[k],
{
    lemma_skip_white_bounds(s, 0);
    lemma_drop_trailing_bounds(s, s.len() as int);
    let a = skip_white(s, 0);
    assert forall|k: int| 0 <= k < trimmed(s).len() implies exists|j: int|
        0 <= j < s.len() && s[j] == #[trigger] trimmed(s)[k] by {
        assert(s[a + k] == trimmed(s)[k]);
    }
}

/// Appends one character to a `String` (`String::push`).
#[verifier::external_body]
pub(crate) fn push_char(s: &mut String, c: char)
    ensures
        final(s)@ == old(s)@.push(c),
{
    s.push(c);
}

/// Copies characters `from..to` of `s` into a new `String`.
pub fn copy_range(s: &str, from: usize, to: usize) -> (r: String)
    requires
        from <= to <= s@.len(),
    ensures
        r@ == s@.subrange(from as int, to as int),
{
    let mut r = String::new();
    let mut i = from;
    while i < to
        invariant
            from <= i <= to <= s@.len(),
            r@ == s@.subrange(from as int, i as int),
        decreases to - i,
    {
        push_char(&mut r, s.get_char(i));
        assert(s@.subrange(from as int, i + 1) == s@.subrange(from as int, i as int).push(
            s@[i as int],
        ));
        i = i + 1;
    }
    r
}

/// `str::trim`: the text without leading and trailing whitespace.
pub fn trim(s: &str) -> (r: String)
    ensures
        r@ == trimmed(s@),
{
    let n = s.unicode_len();
    let mut a: usize = 0;
    while a < n && white_space(s.get_char(a))
        invariant
            n == s@.len(),
            a <= n,
            skip_white(s@, a as int) == skip_white(s@, 0),
        decreases n - a,
    {
        a = a + 1;
    }
    let mut b: usize = n;
    while b > 0 && white_space(s.get_char(b - 1))
        invariant
            n == s@.len(),
            b <= n,
            drop_trailing_white(s@, b as int) == drop_trailing_white(s@, n as int),
        decreases b,
    {
        b = b - 1;
    }
    if a < b {
        copy_range(s, a, b)
    } else {
        String::new()
    }
}

/// Index of the first `c` in `s` at or after `i`, or `s.len()` when there is none.
pub open spec fn find_char(s: Seq<char>, c: char, i: int) -> int
    decreases s.len() - i,
{
    if i < 0 || i >= s.len() {
        s.len() as int
    } else if s[i] == c {
        i
    } else {
        find_char(s, c, i + 1)
    }
}

pub proof fn lemma_find_char_bounds(s: Seq<char>, c: char, i: int)
    requires
        0 <= i <= s.len(),
    ensures
        i <= find_char(s, c, i) <= s.len(),
        forall|k: int| i <= k < find_char(s, c, i) ==> #[trigger] s[k] != c,
        find_char(s, c, i) < s.len() ==> s[find_char(s, c, i)] == c,
    decreases s.len() - i,
{
    if i < s.len() && s[i] != c {
        lemma_find_char_bounds(s, c, i + 1);
    }
}

/// A run with no `c` in it has its `find_char` at its end.
pub proof fn lemma_find_char_absent(s: Seq<char>, c: char, i: int)
    requires
        0 <= i <= s.len(),
        forall|k: int| i <= k < s.len() ==> #[trigger] s[k] != c,
    ensures
        find_char(s, c, i) == s.len(),
    decreases s.len() - i,
{
    if i < s.len() {
        lemma_find_char_absent(s, c, i + 1);
    }
}

/// The text before the first `c` (all of `s` when there is none): the first
/// piece of `split(c)`.
pub open spec fn before_char(s: Seq<char>, c: char) -> Seq<char> {
    s.take(find_char(s, c, 0))
}

/// The text after the first `c` (empty when there is none).
pub open spec fn after_char(s: Seq<char>, c: char) -> Seq<char> {
    let k = find_char(s, c, 0);
    if k < s.len() {
        s.skip(k + 1)
    } else {
        Seq::empty()
    }
}

/// The text before the first `c` (`split(c).next()`).
pub fn text_before_char(s: &str, c: char) -> (r: String)
    ensures
        r@ == before_char(s@, c),
{
    let len = s.unicode_len();
    let mut i: usize = 0;
    while i < len && s.get_char(i) != c
        invariant
            len == s@.len(),
            i <= len,
            find_char(s@, c, i as int) == find_char(s@, c, 0),
        decreases len - i,
    {
        i = i + 1;
    }
    proof {
        lemma_find_char_bounds(s@, c, i as int);
    }
    copy_range(s, 0, i)
}

/// The pieces of `s` between occurrences of `c`, as `str::split(c)` yields them.
pub open spec fn split_char(s: Seq<char>, c: char) -> Seq<Seq<char>>
    decreases s.len(),
{
    let k = find_char(s, c, 0);
    if k >= s.len() {
        seq![s]
    } else {
        proof {
            lemma_find_char_bounds(s, c, 0);
        }
        seq![s.take(k)] + split_char(s.skip(k + 1), c)
    }
}

pub proof fn lemma_split_char_nonempty(s: Seq<char>, c: char)
    ensures
        split_char(s, c).len() >= 1,
        split_char(s, c)[0] == before_char(s, c),
    decreases s.len(),
{
    lemma_find_char_bounds(s, c, 0);
    if find_char(s, c, 0) < s.len() {
        lemma_split_char_nonempty(s.skip(find_char(s, c, 0) + 1), c);
    }
}

/// `find_char` from `i` on `s` is `find_char` from 0 on `s.skip(i)`, shifted.
proof fn lemma_find_char_skip(s: Seq<char>, c: char, i: int)
    requires
        0 <= i <= s.len(),
    ensures
        find_char(s, c, i) == i + find_char(s.skip(i), c, 0),
{
    lemma_find_char_bounds(s, c, i);
    lemma_find_char_bounds(s.skip(i), c, 0);
    let a = find_char(s, c, i);
    let b = find_char(s.skip(i), c, 0);
    if a < i + b {
        assert(s.skip(i)[a - i] == s[a]);
    } else if a > i + b {
        assert(s.skip(i)[b] == s[i + b]);
    }
}

/// Splits `s` at every `c` (`str::split` with a `char` pattern).
pub fn split_on(s: &str, c: char) -> (r: Vec<String>)
    ensures
        r.deep_view() == split_char(s@, c),
{
    let n = s.unicode_len();
    let mut pieces: Vec<String> = Vec::new();
    let mut start: usize = 0;
    let mut i: usize = 0;
    let ghost whole = s@;
    proof {
        lemma_find_char_bounds(s@, c, 0);
        assert(s@.skip(0) =~= s@);
        assert(pieces.deep_view() =~= Seq::<Seq<char>>::empty());
    }
    while i < n
        invariant
            n == s@.len(),
            whole == s@,
            start <= i <= n,
            forall|k: int| start <= k < i ==> #[trigger] s@[k] != c,
            pieces.deep_view() + split_char(s@.skip(start as int), c) == split_char(s@, c),
        decreases n - i,
    {
        if s.get_char(i) == c {
            let piece = copy_range(s, start, i);
            proof {
                let rest = s@.skip(start as int);
                lemma_find_char_absent(s@.take(i as int), c, start as int);
                lemma_find_char_bounds(rest, c, 0);
                lemma_find_char_skip(s@, c, start as int);
                assert(find_char(s@, c, start as int) == i) by {
                    lemma_find_char_bounds(s@, c, start as int);
                    if find_char(s@, c, start as int) < i {
                        let w = find_char(s@, c, start as int);
                        assert(s@[w] == c);
                    }
                }
                assert(rest.take(i - start) == s@.subrange(start as int, i as int));
                assert(rest.skip(i - start + 1) == s@.skip(i + 1));
                let pv = pieces.deep_view();
                assert(split_char(rest, c) == seq![rest.take(i - start)] + split_char(
                    rest.skip(i - start + 1),
                    c,
                ));
                assert(pv.push(piece@) + split_char(s@.skip(i + 1), c) == pv + split_char(
                    rest,
                    c,
                ));
            }
            let ghost pv = pieces.deep_view();
            let ghost qv = piece@;
            pieces.push(piece);
            assert(pieces.deep_view() =~= pv.push(qv));
            start = i + 1;
        }
        i = i + 1;
    }
    let last = copy_range(s, start, n);
    proof {
        let rest = s@.skip(start as int);
        assert forall|k: int| 0 <= k < rest.len() implies #[trigger] rest[k] != c by {
            assert(rest[k] == s@[start + k]);
        }
        lemma_find_char_absent(rest, c, 0);
        assert(rest == s@.subrange(start as int, n as int));
        assert(split_char(rest, c) == seq![rest]);
    }
    let ghost pv = pieces.deep_view();
    let ghost qv = last@;
    pieces.push(last);
    assert(pieces.deep_view() =~= pv.push(qv));
    pieces
}

/// Whether `s` starts with `p`.
pub open spec fn has_prefix(s: Seq<char>, p: Seq<char>) -> bool {
    p.len() <= s.len() && s.take(p.len() as int) == p
}

/// Whether `s` ends with `p`.
pub open spec fn has_suffix(s: Seq<char>, p: Seq<char>) -> bool {
    p.len() <= s.len() && s.skip(s.len() - p.len()) == p
}

/// `str::starts_with` for a `&str` pattern.
pub fn starts_with(s: &str, p: &str) -> (r: bool)
    ensures
        r == has_prefix(s@, p@),
{
    let n = s.unicode_len();
    let m = p.unicode_len();
    if m > n {
        return false;
    }
    let mut i: usize = 0;
    while i < m
        invariant
            n == s@.len(),
            m == p@.len(),
            m <= n,
            i <= m,
            forall|k: int| 0 <= k < i ==> s@[k] == p@[k],
        decreases m - i,
    {
        if s.get_char(i) != p.get_char(i) {
            assert(s@.take(m as int)[i as int] != p@[i as int]);
            return false;
        }
        i = i + 1;
    }
    assert(s@.take(m as int) =~= p@);
    true
}

/// `str::ends_with` for a `&str` pattern.
pub fn ends_with(s: &str, p: &str) -> (r: bool)
    ensures
        r == has_suffix(s@, p@),
{
    let n = s.unicode_len();
    let m = p.unicode_len();
    if m > n {
        return false;
    }
    let off = n - m;
    let mut i: usize = 0;
    while i < m
        invariant
            n == s@.len(),
            m == p@.len(),
            m <= n,
            off == n - m,
            i <= m,
            forall|k: int| 0 <= k < i ==> s@[off + k] == p@[k],
        decreases m - i,
    {
        if s.get_char(off + i) != p.get_char(i) {
            assert(s@.skip(off as int)[i as int] != p@[i as int]);
            return false;
        }
        i = i + 1;
    }
    assert(s@.skip(off as int) =~= p@);
    true
}

/// Whether two texts are equal, character by character.
pub fn same_text(a: &str, b: &str) -> (r: bool)
    ensures
        r == (a@ == b@),
{
    let n = a.unicode_len();
    if n != b.unicode_len() {
        return false;
    }
    let r = starts_with(a, b);
    proof {
        if r {
            assert(a@ =~= a@.take(n as int));
        } else {
            if a@ == b@ {
                assert(a@.take(n as int) =~= a@);
            }
        }
    }
    r
}

/// The decimal digit character for `d < 10`.
pub open spec fn digit_char(d: nat) -> char {
    if d == 0 {
        '0'
    } else if d == 1 {
        '1'
    } else if d == 2 {
        '2'
    } else if d == 3 {
        '3'
    } else if d == 4 {
        '4'
    } else if d == 5 {
        '5'
    } else if d == 6 {
        '6'
    } else if d == 7 {
        '7'
    } else if d == 8 {
        '8'
    } else {
        '9'
    }
}

/// Whether `c` is one of the ASCII digits `0`..`9`.
pub open spec fn is_digit(c: char) -> bool {
    '0' <= c && c <= '9'
}

/// The decimal numeral of `n`, most significant digit first, with no leading zero.
pub open spec fn decimal(n: nat) -> Seq<char>
    decreases n,
{
    if n < 10 {
        seq![digit_char(n)]
    } else {
        decimal(n / 10).push(digit_char(n % 10))
    }
}

/// The decimal numeral of an integer, with a `-` sign when negative (`{}` formatting).
pub open spec fn int_decimal(i: int) -> Seq<char> {
    if i < 0 {
        seq!['-'] + decimal((-i) as nat)
    } else {
        decimal(i as nat)
    }
}

/// A numeral is made of digits only, and has at least one.
pub proof fn lemma_decimal_digits(n: nat)
    ensures
        decimal(n).len() >= 1,
        forall|k: int| 0 <= k < decimal(n).len() ==> is_digit(#[trigger] decimal(n)[k]),
    decreases n,
{
    if n >= 10 {
        lemma_decimal_digits(n / 10);
    }
}

/// The numeral of a number below ten is one digit long; below a hundred, at most two.
pub proof fn lemma_decimal_small(n: nat)
    ensures
        n < 10 ==> decimal(n).len() == 1,
        10 <= n < 100 ==> decimal(n).len() == 2,
{
    if n >= 10 && n < 100 {
        assert(n / 10 < 10);
        assert(decimal((n / 10) as nat).len() == 1);
    }
}

fn digit(d: u64) -> (c: char)
    requires
        d < 10,
    ensures
        c == digit_char(d as nat),
{
    if d == 0 {
        '0'
    } else if d == 1 {
        '1'
    } else if d == 2 {
        '2'
    } else if d == 3 {
        '3'
    } else if d == 4 {
        '4'
    } else if d == 5 {
        '5'
    } else if d == 6 {
        '6'
    } else if d == 7 {
        '7'
    } else if d == 8 {
        '8'
    } else {
        '9'
    }
}

/// `n.to_string()` for an unsigned number.
pub fn nat_text(n: u64) -> (r: String)
    ensures
        r@ == decimal(n as nat),
    decreases n,
{
    if n < 10 {
        let mut r = String::new();
        push_char(&mut r, digit(n));
        r
    } else {
        let mut r = nat_text(n / 10);
        push_char(&mut r, digit(n % 10));
        r
    }
}

/// `i.to_string()` for a signed number.
pub fn int_text(i: i64) -> (r: String)
    ensures
        r@ == int_decimal(i as int),
{
    if i < 0 {
        let m: i128 = 0i128 - (i as i128);
        let mut r = String::new();
        push_char(&mut r, '-');
        let digits = nat_text(m as u64);
        r.append(digits.as_str());
        r
    } else {
        nat_text(i as u64)
    }
}

/// `s` padded on the left with `c` up to `width` characters (`{:>width$}` style).
pub open spec fn pad_front(s: Seq<char>, width: nat, c: char) -> Seq<char> {
    if s.len() < width {
        Seq::new((width - s.len()) as nat, |_i: int| c) + s
    } else {
        s
    }
}

/// `s` padded on the right with `c` up to `width` characters (`{:<width$}`).
pub open spec fn pad_back(s: Seq<char>, width: nat, c: char) -> Seq<char> {
    if s.len() < width {
        s + Seq::new((width - s.len()) as nat, |_i: int| c)
    } else {
        s
    }
}

/// `count` copies of `c`.
pub open spec fn repeat_char(c: char, count: nat) -> Seq<char> {
    Seq::new(count, |_i: int| c)
}

/// Appends `count` copies of `c` to `s`.
pub fn push_repeated(s: &mut String, c: char, count: usize)
    ensures
        final(s)@ == old(s)@ + repeat_char(c, count as nat),
{
    let mut k: usize = 0;
    while k < count
        invariant
            k <= count,
            s@ == old(s)@ + repeat_char(c, k as nat),
        decreases count - k,
    {
        push_char(s, c);
        assert(old(s)@ + repeat_char(c, (k + 1) as nat) =~= (old(s)@ + repeat_char(
            c,
            k as nat,
        )).push(c));
        k = k + 1;
    }
}

/// Left-pads `s` with `c` to `width` characters.
pub fn pad_start(s: &str, width: usize, c: char) -> (r: String)
    ensures
        r@ == pad_front(s@, width as nat, c),
{
    let n = s.unicode_len();
    let mut r = String::new();
    if n < width {
        push_repeated(&mut r, c, width - n);
    }
    r.append(s);
    proof {
        if n < width {
            assert(r@ =~= pad_front(s@, width as nat, c));
        } else {
            assert(r@ =~= s@);
        }
    }
    r
}

/// Right-pads `s` with `c` to `width` characters.
pub fn pad_end(s: &str, width: usize, c: char) -> (r: String)
    ensures
        r@ == pad_back(s@, width as nat, c),
{
    let n = s.unicode_len();
    let mut r = String::new();
    r.append(s);
    if n < width {
        push_repeated(&mut r, c, width - n);
    }
    proof {
        if n >= width {
            assert(r@ =~= s@);
        }
    }
    r
}

/// Lowercase mapping of a text, as `str::to_lowercase` computes it from the
/// Unicode tables.
pub uninterp spec fn unicode_lowercase(s: Seq<char>) -> Seq<char>;

/// Uppercase mapping of a text, as `str::to_uppercase` computes it from the
/// Unicode tables.
pub uninterp spec fn unicode_uppercase(s: Seq<char>) -> Seq<char>;

/// Whether every character is ASCII.
pub open spec fn all_ascii(s: Seq<char>) -> bool {
    forall|k: int| 0 <= k < s.len() ==> (#[trigger] s[k] as u32) < 128
}

/// ASCII lowercase of one character.
pub open spec fn ascii_lower(c: char) -> char {
    if 'A' <= c && c <= 'Z' {
        ((c as u32) + 32) as char
    } else {
        c
    }
}

/// ASCII uppercase of one character.
pub open spec fn ascii_upper(c: char) -> char {
    if 'a' <= c && c <= 'z' {
        ((c as u32) - 32) as char
    } else {
        c
    }
}

/// `str::to_lowercase`. The result is the Unicode lowercase mapping; on ASCII
/// text that mapping changes `A`..`Z` to `a`..`z` and keeps everything else.
/// Which non-ASCII characters map to what is left to the named mapping.
#[verifier::external_body]
pub(crate) fn to_lowercase(s: &str) -> (r: String)
    ensures
        r@ == unicode_lowercase(s@),
        all_ascii(s@) ==> r@ == s@.map_values(|c: char| ascii_lower(c)),
{
    s.to_lowercase()
}

/// `str::to_uppercase`. The result is the Unicode uppercase mapping; on ASCII
/// text that mapping changes `a`..`z` to `A`..`Z` and keeps everything else.
/// Which non-ASCII characters map to what is left to the named mapping.
#[verifier::external_body]
pub(crate) fn to_uppercase(s: &str) -> (r: String)
    ensures
        r@ == unicode_uppercase(s@),
        all_ascii(s@) ==> r@ == s@.map_values(|c: char| ascii_upper(c)),
{
    s.to_uppercase()
}

/// No piece of a split holds the separator, and putting the pieces back
/// together with the separator between them gives the text back.
pub proof fn lemma_split_char_pieces(s: Seq<char>, c: char)
    ensures
        forall|i: int, k: int|
            0 <= i < split_char(s, c).len() && 0 <= k < split_char(s, c)[i].len() ==> #[trigger] split_char(s, c)[i][k] != c,
        join_with(split_char(s, c), c) == s,
    decreases s.len(),
{
    lemma_find_char_bounds(s, c, 0);
    let f = find_char(s, c, 0);
    if f < s.len() {
        let rest = s.skip(f + 1);
        lemma_split_char_pieces(rest, c);
        let p = split_char(s, c);
        assert(p == seq![s.take(f)] + split_char(rest, c));
        assert forall|i: int, k: int|
            0 <= i < p.len() && 0 <= k < p[i].len() implies #[trigger] p[i][k] != c by {
            if i > 0 {
                assert(p[i] == split_char(rest, c)[i - 1]);
            }
        }
        lemma_split_char_nonempty(rest, c);
        assert(p.drop_first() =~= split_char(rest, c));
        assert(s =~= s.take(f) + seq![c] + rest);
    } else {
        assert(forall|k: int| 0 <= k < s.len() ==> #[trigger] s[k] != c);
    }
}

/// Pieces put back together with `c` between each two of them.
pub open spec fn join_with(pieces: Seq<Seq<char>>, c: char) -> Seq<char>
    decreases pieces.len(),
{
    if pieces.len() == 0 {
        Seq::empty()
    } else if pieces.len() == 1 {
        pieces[0]
    } else {
        pieces[0] + seq![c] + join_with(pieces.drop_first(), c)
    }
}

} // verus!
