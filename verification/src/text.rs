//! Text as the display reads and writes it.
//!
//! Reports arrive as free text and everything on screen leaves as text, so the rest of the crate
//! leans on a handful of exact statements about both: what the words of a line are, and how a
//! number is written.

use vstd::prelude::*;

verus! {

broadcast use vstd::string::group_string_axioms;

/// `String::push`: the character goes on the end and nothing else changes.
pub assume_specification[ String::push ](s: &mut String, c: char)
    ensures
        final(s)@ == old(s)@.push(c),
;

// --- numbers -------------------------------------------------------------------------------

/// The character for one decimal digit.
pub open spec fn digit(d: nat) -> char {
    (48 + d) as char
}

/// A number in decimal, without leading zeros.
pub open spec fn decimal(n: nat) -> Seq<char>
    decreases n,
{
    if n < 10 {
        seq![digit(n)]
    } else {
        decimal(n / 10).push(digit(n % 10))
    }
}

/// A number in decimal with a minus sign in front when it is negative.
pub open spec fn signed_decimal(n: int) -> Seq<char> {
    if n < 0 {
        seq!['-'] + decimal((-n) as nat)
    } else {
        decimal(n as nat)
    }
}

/// A run of `n` zeros.
pub open spec fn zeros(n: nat) -> Seq<char> {
    Seq::new(n, |_i: int| '0')
}

/// A number in decimal, filled up with leading zeros to at least `width` characters.
pub open spec fn padded(n: nat, width: nat) -> Seq<char> {
    let plain = decimal(n);
    if plain.len() < width {
        zeros((width - plain.len()) as nat) + plain
    } else {
        plain
    }
}

/// Write a digit.
pub fn push_digit(out: &mut String, d: u64)
    requires
        d < 10,
    ensures
        final(out)@ == old(out)@.push(digit(d as nat)),
{
    let code: u8 = 48u8 + (d as u8);
    out.push(code as char);
}

/// Write a number in decimal.
pub fn push_decimal(out: &mut String, n: u64)
    ensures
        final(out)@ == old(out)@ + decimal(n as nat),
    decreases n,
{
    if n >= 10 {
        push_decimal(out, n / 10);
    }
    push_digit(out, n % 10);
    assert(out@ =~= old(out)@ + decimal(n as nat));
}

/// Write a number in decimal, with its sign when it is negative.
pub fn push_signed(out: &mut String, n: i64)
    ensures
        final(out)@ == old(out)@ + signed_decimal(n as int),
{
    if n < 0 {
        out.push('-');
        let magnitude: u64 = if n == i64::MIN {
            9223372036854775808u64
        } else {
            (-n) as u64
        };
        push_decimal(out, magnitude);
        assert(out@ =~= old(out)@ + signed_decimal(n as int));
    } else {
        push_decimal(out, n as u64);
    }
}

/// How many characters [`decimal`] takes.
pub fn digits_in(n: u64) -> (r: u64)
    ensures
        r == decimal(n as nat).len(),
        r <= n + 1,
    decreases n,
{
    if n < 10 {
        1
    } else {
        digits_in(n / 10) + 1
    }
}

/// Write a number in decimal with leading zeros to at least `width` characters.
pub fn push_padded(out: &mut String, n: u64, width: u64)
    ensures
        final(out)@ == old(out)@ + padded(n as nat, width as nat),
{
    let len: u64 = digits_in(n);
    let mut written: u64 = len;
    while written < width
        invariant
            len <= written,
            written <= width || written == len,
            out@ == old(out)@ + zeros((written - len) as nat),
        decreases width - written,
    {
        out.push('0');
        written = written + 1;
        assert(out@ =~= old(out)@ + zeros((written - len) as nat));
    }
    push_decimal(out, n);
    assert(out@ =~= old(out)@ + padded(n as nat, width as nat));
}

/// The whole number nearest to `n / d`, and of two equally near the even one.
pub open spec fn nearest(n: nat, d: nat) -> nat {
    let (whole, rest) = (n / d, n % d);
    if 2 * rest < d || (2 * rest == d && whole % 2 == 0) {
        whole
    } else {
        whole + 1
    }
}

/// The whole number nearest to `n / d`, and of two equally near the even one.
pub fn nearest_of(n: u64, d: u64) -> (r: u64)
    requires
        0 < d,
        n < u64::MAX,
    ensures
        r == nearest(n as nat, d as nat),
        r <= n + 1,
{
    let whole: u64 = n / d;
    let rest: u64 = n % d;
    assert(rest < d);
    assert(whole <= n) by (nonlinear_arith)
        requires
            whole == n / d,
            0 < d,
    ;
    let twice: u128 = 2 * (rest as u128);
    if twice < d as u128 || (twice == d as u128 && whole % 2 == 0) {
        whole
    } else {
        whole + 1
    }
}

/// `n / d` rounded to a whole number, with a minus sign when it is negative.
pub open spec fn rounded(n: int, d: nat) -> Seq<char> {
    if n < 0 {
        "-"@ + decimal(nearest((-n) as nat, d))
    } else {
        decimal(nearest(n as nat, d))
    }
}

/// Write `n / d` rounded to a whole number.
pub fn push_rounded(out: &mut String, n: i64, d: u64)
    requires
        0 < d,
    ensures
        final(out)@ == old(out)@ + rounded(n as int, d as nat),
{
    if n < 0 {
        out.append("-");
        let size: u64 = if n == i64::MIN {
            0x8000_0000_0000_0000u64
        } else {
            (-n) as u64
        };
        push_decimal(out, nearest_of(size, d));
    } else {
        push_decimal(out, nearest_of(n as u64, d));
    }
    assert(out@ =~= old(out)@ + rounded(n as int, d as nat));
}

/// Rounding can be done behind the whole part, as long as that is scaled by an even number.
proof fn nearest_splits(n: nat, d: nat, scale: nat)
    requires
        0 < d,
        scale % 2 == 0,
    ensures
        nearest(n * scale, d) == (n / d) * scale + nearest((n % d) * scale, d),
        nearest((n % d) * scale, d) <= scale,
{
    let (whole, rest) = (n / d, n % d);
    vstd::arithmetic::div_mod::lemma_fundamental_div_mod(n as int, d as int);
    let inner = rest * scale;
    vstd::arithmetic::div_mod::lemma_fundamental_div_mod(inner as int, d as int);
    let q = whole * scale + inner / d;
    assert(n * scale == d * q + inner % d) by (nonlinear_arith)
        requires
            n == d * whole + rest,
            inner == rest * scale,
            inner == d * (inner / d) + inner % d,
            q == whole * scale + inner / d,
    ;
    vstd::arithmetic::div_mod::lemma_fundamental_div_mod_converse(
        (n * scale) as int,
        d as int,
        q as int,
        (inner % d) as int,
    );
    let half = scale / 2;
    assert(whole * scale == 2 * (whole * half)) by (nonlinear_arith)
        requires
            scale == 2 * half,
    ;
    assert(q % 2 == inner / d % 2);
    assert(inner + scale <= d * scale) by (nonlinear_arith)
        requires
            inner == rest * scale,
            rest + 1 <= d,
    ;
    if inner / d >= scale {
        assert(d * (inner / d) >= d * scale) by (nonlinear_arith)
            requires
                inner / d >= scale,
                d > 0,
        ;
        assert(scale == 0);
    }
}

/// `n / d` to one decimal.
pub open spec fn to_tenths(n: nat, d: nat) -> Seq<char> {
    let tenths = nearest(n * 10, d);
    decimal(tenths / 10) + "."@ + padded(tenths % 10, 1)
}

/// `n / d` to two decimals.
pub open spec fn to_hundredths(n: nat, d: nat) -> Seq<char> {
    let hundredths = nearest(n * 100, d);
    decimal(hundredths / 100) + "."@ + padded(hundredths % 100, 2)
}

/// The nearest to a number of tenths or hundredths of `rest / d`, where that is less than one.
fn nearest_part(rest: u64, d: u64, scale: u64) -> (r: u64)
    requires
        rest < d,
        scale <= 100,
        scale % 2 == 0,
    ensures
        r == nearest(rest as nat * scale as nat, d as nat),
        r <= scale,
{
    proof {
        nearest_splits(rest as nat, d as nat, scale as nat);
        vstd::arithmetic::div_mod::lemma_small_mod(rest as nat, d as nat);
        assert(0 <= rest * scale <= u64::MAX * 100) by (nonlinear_arith)
            requires
                0 <= rest <= u64::MAX,
                0 <= scale <= 100,
        ;
    }
    let n: u128 = rest as u128 * scale as u128;
    let wide: u128 = d as u128;
    let whole: u128 = n / wide;
    let left: u128 = n % wide;
    assert(left < wide);
    if 2 * left < wide || (2 * left == wide && whole % 2 == 0) {
        whole as u64
    } else {
        (whole + 1) as u64
    }
}

/// Write `n / d` to one decimal.
pub fn push_tenths(out: &mut String, n: u64, d: u64)
    requires
        0 < d,
    ensures
        final(out)@ == old(out)@ + to_tenths(n as nat, d as nat),
{
    proof {
        nearest_splits(n as nat, d as nat, 10);
        if n / d == u64::MAX {
            whole_parts_are_exact(n as nat, d as nat);
        }
    }
    let tenths: u64 = nearest_part(n % d, d, 10);
    if tenths == 10 {
        push_decimal(out, n / d + 1);
        out.append(".");
        push_padded(out, 0, 1);
    } else {
        push_decimal(out, n / d);
        out.append(".");
        push_padded(out, tenths, 1);
    }
    assert(out@ =~= old(out)@ + to_tenths(n as nat, d as nat));
}

/// Write `n / d` to two decimals.
pub fn push_hundredths(out: &mut String, n: u64, d: u64)
    requires
        0 < d,
    ensures
        final(out)@ == old(out)@ + to_hundredths(n as nat, d as nat),
{
    proof {
        nearest_splits(n as nat, d as nat, 100);
        if n / d == u64::MAX {
            whole_parts_are_exact(n as nat, d as nat);
        }
    }
    let hundredths: u64 = nearest_part(n % d, d, 100);
    if hundredths == 100 {
        push_decimal(out, n / d + 1);
        out.append(".");
        push_padded(out, 0, 2);
    } else {
        push_decimal(out, n / d);
        out.append(".");
        push_padded(out, hundredths, 2);
    }
    assert(out@ =~= old(out)@ + to_hundredths(n as nat, d as nat));
}

/// The largest number there is divides only by one.
proof fn whole_parts_are_exact(n: nat, d: nat)
    requires
        0 < d,
        n <= u64::MAX,
        n / d == u64::MAX,
    ensures
        n % d == 0,
        nearest(0, d) == 0,
{
    vstd::arithmetic::div_mod::lemma_fundamental_div_mod(n as int, d as int);
    assert(d * (n / d) >= n / d) by (nonlinear_arith)
        requires
            d >= 1,
            n / d >= 0,
    ;
    vstd::arithmetic::div_mod::lemma_small_mod(0nat, d);
    assert(0nat / d == 0) by (nonlinear_arith)
        requires
            d > 0,
    ;
}

// --- characters ----------------------------------------------------------------------------

/// Whether a character separates words: the Unicode `White_Space` property.
pub open spec fn is_space(c: char) -> bool {
    let u = c as u32;
    ||| 0x09 <= u <= 0x0d
    ||| u == 0x20
    ||| u == 0x85
    ||| u == 0xa0
    ||| u == 0x1680
    ||| 0x2000 <= u <= 0x200a
    ||| u == 0x2028
    ||| u == 0x2029
    ||| u == 0x202f
    ||| u == 0x205f
    ||| u == 0x3000
}

/// Whether a character separates words.
pub fn separates(c: char) -> (r: bool)
    ensures
        r == is_space(c),
{
    let u: u32 = c as u32;
    (0x09 <= u && u <= 0x0d) || u == 0x20 || u == 0x85 || u == 0xa0 || u == 0x1680 || (0x2000 <= u
        && u <= 0x200a) || u == 0x2028 || u == 0x2029 || u == 0x202f || u == 0x205f || u == 0x3000
}

/// Whether a character is one of `0` to `9`.
pub open spec fn is_digit(c: char) -> bool {
    '0' <= c <= '9'
}

/// The value of a decimal digit.
pub open spec fn digit_value(c: char) -> nat {
    (c as nat - 48) as nat
}

/// An ASCII capital as its small letter, and anything else as it is.
pub open spec fn lower(c: char) -> char {
    if 'A' <= c <= 'Z' {
        (c as u32 + 32) as char
    } else {
        c
    }
}

/// An ASCII small letter as its capital, and anything else as it is.
pub open spec fn upper(c: char) -> char {
    if 'a' <= c <= 'z' {
        (c as u32 - 32) as char
    } else {
        c
    }
}

/// The small letter of an ASCII capital.
pub fn to_lower(c: char) -> (r: char)
    ensures
        r == lower(c),
{
    if 'A' <= c && c <= 'Z' {
        let code: u8 = (c as u8) + 32;
        code as char
    } else {
        c
    }
}

/// The capital of an ASCII small letter.
pub fn to_upper(c: char) -> (r: char)
    ensures
        r == upper(c),
{
    if 'a' <= c && c <= 'z' {
        let code: u8 = (c as u8) - 32;
        code as char
    } else {
        c
    }
}

// --- whole texts ---------------------------------------------------------------------------

/// The contents of a list of texts.
pub open spec fn texts(list: Seq<&str>) -> Seq<Seq<char>> {
    Seq::new(list.len(), |i: int| list[i]@)
}

/// The characters of a text.
pub fn chars_of(s: &str) -> (v: Vec<char>)
    ensures
        v@ == s@,
{
    let mut v: Vec<char> = Vec::new();
    for c in it: s.chars()
        invariant
            v@ == it.seq().take(it.index() as int),
            it.seq() == s@,
    {
        v.push(c);
    }
    v
}

/// A text out of its characters.
pub fn text_of(v: &[char]) -> (s: String)
    ensures
        s@ == v@,
{
    let mut s: String = String::new();
    let mut i: usize = 0;
    while i < v.len()
        invariant
            i <= v.len(),
            s@ == v@.take(i as int),
        decreases v.len() - i,
    {
        s.push(v[i]);
        i = i + 1;
        assert(s@ =~= v@.take(i as int));
    }
    assert(v@.take(i as int) =~= v@);
    s
}

/// Whether two texts are the same.
pub fn same(a: &str, b: &str) -> (r: bool)
    ensures
        r == (a@ == b@),
{
    let x: Vec<char> = chars_of(a);
    let y: Vec<char> = chars_of(b);
    if x.len() != y.len() {
        return false;
    }
    let mut i: usize = 0;
    while i < x.len()
        invariant
            i <= x.len(),
            x.len() == y.len(),
            x@ == a@,
            y@ == b@,
            forall|k: int| 0 <= k < i ==> a@[k] == b@[k],
        decreases x.len() - i,
    {
        if x[i] != y[i] {
            return false;
        }
        i = i + 1;
    }
    assert(a@ =~= b@);
    true
}

/// Every letter of a text as its small form.
pub open spec fn lowered(s: Seq<char>) -> Seq<char> {
    Seq::new(s.len(), |i: int| lower(s[i]))
}

/// Every letter of a text as its capital.
pub open spec fn uppered(s: Seq<char>) -> Seq<char> {
    Seq::new(s.len(), |i: int| upper(s[i]))
}

/// A text with every ASCII letter small.
pub fn lowercase(s: &str) -> (r: String)
    ensures
        r@ == lowered(s@),
{
    let mut r: String = String::new();
    for c in it: s.chars()
        invariant
            r@ == lowered(s@).take(it.index() as int),
            it.seq() == s@,
    {
        r.push(to_lower(c));
        assert(r@ =~= lowered(s@).take(it.index() as int + 1));
    }
    assert(lowered(s@).take(s@.len() as int) =~= lowered(s@));
    r
}

/// A text with every ASCII letter a capital.
pub fn uppercase(s: &str) -> (r: String)
    ensures
        r@ == uppered(s@),
{
    let mut r: String = String::new();
    for c in it: s.chars()
        invariant
            r@ == uppered(s@).take(it.index() as int),
            it.seq() == s@,
    {
        r.push(to_upper(c));
        assert(r@ =~= uppered(s@).take(it.index() as int + 1));
    }
    assert(uppered(s@).take(s@.len() as int) =~= uppered(s@));
    r
}

/// Whether two texts differ at most in the case of their ASCII letters.
pub fn same_ignoring_case(a: &str, b: &str) -> (r: bool)
    ensures
        r == (lowered(a@) == lowered(b@)),
{
    let x: String = lowercase(a);
    let y: String = lowercase(b);
    same(x.as_str(), y.as_str())
}

/// The first place from `i` on where a character stands, or the end.
pub open spec fn place_of(s: Seq<char>, c: char, i: int) -> int
    decreases s.len() - i,
{
    if i < 0 || i >= s.len() || s[i] == c {
        i
    } else {
        place_of(s, c, i + 1)
    }
}

/// Bounds of [`place_of`].
pub proof fn place_bounds(s: Seq<char>, c: char, i: int)
    requires
        0 <= i <= s.len(),
    ensures
        i <= place_of(s, c, i) <= s.len(),
        place_of(s, c, i) < s.len() ==> s[place_of(s, c, i)] == c,
        forall|k: int| i <= k < place_of(s, c, i) ==> s[k] != c,
    decreases s.len() - i,
{
    if i < s.len() && s[i] != c {
        place_bounds(s, c, i + 1);
    }
}

// --- words ---------------------------------------------------------------------------------

/// Where the word starting at `i` ends.
pub open spec fn word_end(s: Seq<char>, i: int) -> int
    decreases s.len() - i,
{
    if i < 0 || i >= s.len() || is_space(s[i]) {
        i
    } else {
        word_end(s, i + 1)
    }
}

/// The words of a text from position `i` on.
pub open spec fn words_from(s: Seq<char>, i: int) -> Seq<Seq<char>>
    decreases s.len() - i,
{
    if i < 0 || i >= s.len() {
        seq![]
    } else if is_space(s[i]) {
        words_from(s, i + 1)
    } else if i < word_end(s, i) <= s.len() {
        seq![s.subrange(i, word_end(s, i))] + words_from(s, word_end(s, i))
    } else {
        seq![]
    }
}

/// The words of a text: its longest runs without white space, in order.
pub open spec fn words(s: Seq<char>) -> Seq<Seq<char>> {
    words_from(s, 0)
}

/// Bounds of [`word_end`].
pub proof fn word_end_bounds(s: Seq<char>, i: int)
    requires
        0 <= i <= s.len(),
    ensures
        i <= word_end(s, i) <= s.len(),
        i < s.len() && !is_space(s[i]) ==> word_end(s, i) > i,
        forall|k: int| i <= k < word_end(s, i) ==> !is_space(#[trigger] s[k]),
    decreases s.len() - i,
{
    if i < s.len() && !is_space(s[i]) {
        word_end_bounds(s, i + 1);
    }
}

proof fn words_shift(head: Seq<char>, tail: Seq<char>, i: int)
    requires
        0 <= i <= tail.len(),
    ensures
        word_end(head + tail, head.len() + i) == head.len() + word_end(tail, i),
        words_from(head + tail, head.len() + i) == words_from(tail, i),
    decreases tail.len() - i,
{
    let s = head + tail;
    let n = head.len();
    if i < tail.len() {
        assert(s[n + i] == tail[i]);
        words_shift(head, tail, i + 1);
        if !is_space(tail[i]) {
            let end = word_end(tail, i);
            word_end_bounds(tail, i);
            words_shift(head, tail, end);
            assert(s.subrange(n + i, n + end) =~= tail.subrange(i, end));
        }
    }
}

proof fn words_meet(head: Seq<char>, gap: char, tail: Seq<char>, i: int)
    requires
        is_space(gap),
        0 <= i <= head.len(),
    ensures
        word_end(head + seq![gap] + tail, i) == word_end(head, i),
        words_from(head + seq![gap] + tail, i) == words_from(head, i) + words(tail),
    decreases head.len() - i,
{
    let s = head + seq![gap] + tail;
    if i == head.len() {
        assert(s[i] == gap);
        words_shift(head + seq![gap], tail, 0);
        assert((head + seq![gap]).len() == i + 1);
        assert(words_from(s, i) == words_from(s, i + 1));
        assert(words_from(head, i) =~= seq![]);
        assert(seq![] + words(tail) =~= words(tail));
    } else {
        assert(s[i] == head[i]);
        words_meet(head, gap, tail, i + 1);
        if !is_space(head[i]) {
            let end = word_end(head, i);
            word_end_bounds(head, i);
            words_meet(head, gap, tail, end);
            assert(s.subrange(i, end) =~= head.subrange(i, end));
            assert(words_from(s, i) =~= words_from(head, i) + words(tail));
        }
    }
}

/// White space parts words: two texts with some between have the words of the one, then those of
/// the other.
pub proof fn white_space_parts_words(head: Seq<char>, gap: char, tail: Seq<char>)
    requires
        is_space(gap),
    ensures
        words(head + seq![gap] + tail) == words(head) + words(tail),
{
    words_meet(head, gap, tail, 0);
}

/// A text without white space is one word.
pub proof fn a_run_is_one_word(s: Seq<char>)
    requires
        s.len() > 0,
        forall|k: int| 0 <= k < s.len() ==> !is_space(#[trigger] s[k]),
    ensures
        words(s) == seq![s],
{
    word_end_bounds(s, 0);
    run_ends(s, 0);
    assert(s.subrange(0, s.len() as int) =~= s);
    assert(words_from(s, s.len() as int) =~= seq![]);
    assert(words(s) =~= seq![s]);
}

proof fn run_ends(s: Seq<char>, i: int)
    requires
        0 <= i <= s.len(),
        forall|k: int| 0 <= k < s.len() ==> !is_space(#[trigger] s[k]),
    ensures
        word_end(s, i) == s.len(),
    decreases s.len() - i,
{
    if i < s.len() {
        assert(!is_space(s[i]));
        run_ends(s, i + 1);
    }
}

/// Split a text into its words.
pub fn split_words<'a>(s: &'a str) -> (out: Vec<&'a str>)
    ensures
        texts(out@) == words(s@),
{
    let chars: Vec<char> = chars_of(s);
    let mut out: Vec<&'a str> = Vec::new();
    let mut i: usize = 0;
    assert(texts(out@) + words_from(s@, 0) =~= words(s@));
    while i < chars.len()
        invariant
            chars@ == s@,
            i <= chars.len(),
            texts(out@) + words_from(s@, i as int) == words(s@),
        decreases chars.len() - i,
    {
        if separates(chars[i]) {
            i = i + 1;
        } else {
            let start: usize = i;
            proof {
                word_end_bounds(s@, start as int);
            }
            while i < chars.len() && !separates(chars[i])
                invariant
                    chars@ == s@,
                    start <= i <= chars.len(),
                    word_end(s@, i as int) == word_end(s@, start as int),
                decreases chars.len() - i,
            {
                i = i + 1;
            }
            assert(word_end(s@, start as int) == i);
            let ghost before = out@;
            out.push(s.substring_char(start, i));
            assert(texts(out@) =~= texts(before) + seq![s@.subrange(start as int, i as int)]);
            assert(texts(out@) + words_from(s@, i as int) =~= texts(before) + words_from(
                s@,
                start as int,
            ));
        }
    }
    assert(texts(out@) =~= words(s@));
    out
}

// --- lists of words ------------------------------------------------------------------------

/// Whether a word is one of a list.
pub open spec fn listed(word: Seq<char>, list: Seq<&str>) -> bool {
    exists|k: int| 0 <= k < list.len() && (#[trigger] list[k])@ == word
}

/// Whether a word is one of a list.
pub fn is_listed(word: &str, list: &[&str]) -> (r: bool)
    ensures
        r == listed(word@, list@),
{
    let mut i: usize = 0;
    while i < list.len()
        invariant
            i <= list.len(),
            forall|k: int| 0 <= k < i ==> (#[trigger] list@[k])@ != word@,
        decreases list.len() - i,
    {
        if same(list[i], word) {
            assert(list@[i as int]@ == word@);
            return true;
        }
        i = i + 1;
    }
    false
}

// --- digits --------------------------------------------------------------------------------

/// Whether every character is a decimal digit.
pub open spec fn all_digits(s: Seq<char>) -> bool {
    forall|k: int| 0 <= k < s.len() ==> is_digit(#[trigger] s[k])
}

/// The number a run of decimal digits writes.
pub open spec fn number(s: Seq<char>) -> nat
    decreases s.len(),
{
    if s.len() == 0 {
        0
    } else {
        10 * number(s.drop_last()) + digit_value(s.last())
    }
}

/// Ten to the power `n`.
pub open spec fn ten_to(n: nat) -> nat
    decreases n,
{
    if n == 0 {
        1
    } else {
        10 * ten_to((n - 1) as nat)
    }
}

/// A number of `n` digits is below ten to the `n`.
pub proof fn number_bound(s: Seq<char>)
    requires
        all_digits(s),
    ensures
        number(s) < ten_to(s.len()),
    decreases s.len(),
{
    if s.len() > 0 {
        assert(all_digits(s.drop_last())) by {
            assert forall|k: int| 0 <= k < s.drop_last().len() implies is_digit(
                #[trigger] s.drop_last()[k],
            ) by {
                assert(is_digit(s[k]));
            }
        }
        number_bound(s.drop_last());
        assert(is_digit(s[s.len() - 1]));
    }
}

/// A number reads back as itself.
pub proof fn decimals_read_back(n: nat)
    ensures
        number(decimal(n)) == n,
        all_digits(decimal(n)),
        decimal(n).len() >= 1,
    decreases n,
{
    if n < 10 {
        assert(number(decimal(n).drop_last()) == 0);
        assert(decimal(n).last() == digit(n));
    } else {
        decimals_read_back(n / 10);
        let front = decimal(n / 10);
        assert(decimal(n).drop_last() =~= front);
        assert(decimal(n).last() == digit(n % 10));
        assert forall|k: int| 0 <= k < decimal(n).len() implies is_digit(#[trigger] decimal(n)[k]) by {
            if k < front.len() {
                assert(decimal(n)[k] == front[k]);
            }
        }
    }
}

proof fn noughts_in_front(n: nat, s: Seq<char>)
    ensures
        number(zeros(n) + s) == number(s),
        all_digits(s) ==> all_digits(zeros(n) + s),
    decreases n + s.len(),
{
    let all = zeros(n) + s;
    if s.len() > 0 {
        assert(all.drop_last() =~= zeros(n) + s.drop_last());
        assert(all.last() == s.last());
        noughts_in_front(n, s.drop_last());
    } else if n > 0 {
        let none: Seq<char> = seq![];
        assert(all =~= zeros(n));
        assert(all.drop_last() =~= zeros((n - 1) as nat) + none);
        assert(all.last() == '0');
        noughts_in_front((n - 1) as nat, none);
        assert(s =~= none);
    } else {
        assert(all =~= s);
    }
}

/// A number padded to a width reads back as itself, and is as long as the width at least.
pub proof fn padded_reads_back(n: nat, width: nat)
    ensures
        number(padded(n, width)) == n,
        all_digits(padded(n, width)),
        padded(n, width).len() >= width,
        padded(n, width).len() >= 1,
        n < ten_to(width) && width > 0 ==> padded(n, width).len() == width,
{
    decimals_read_back(n);
    let plain = decimal(n);
    if plain.len() < width {
        noughts_in_front((width - plain.len()) as nat, plain);
    }
    decimal_is_short(n, width);
}

proof fn decimal_is_short(n: nat, width: nat)
    ensures
        n < ten_to(width) && width > 0 ==> decimal(n).len() <= width,
    decreases width,
{
    if width > 1 && n >= 10 && n < ten_to(width) {
        assert(ten_to(width) == 10 * ten_to((width - 1) as nat));
        decimal_is_short(n / 10, (width - 1) as nat);
    } else if width == 1 {
        assert(ten_to(1) == 10 * ten_to(0));
    }
}

/// Powers of ten grow.
pub proof fn ten_to_grows(m: nat, n: nat)
    requires
        m <= n,
    ensures
        ten_to(m) <= ten_to(n),
        ten_to(m) >= 1,
    decreases n,
{
    if m < n {
        ten_to_grows(m, (n - 1) as nat);
    } else if n > 0 {
        ten_to_grows((n - 1) as nat, (n - 1) as nat);
    }
}

/// Whether a run of characters is all digits.
pub fn digits_only(v: &[char]) -> (r: bool)
    ensures
        r == all_digits(v@),
{
    let mut i: usize = 0;
    while i < v.len()
        invariant
            i <= v.len(),
            forall|k: int| 0 <= k < i ==> is_digit(#[trigger] v@[k]),
        decreases v.len() - i,
    {
        if !('0' <= v[i] && v[i] <= '9') {
            assert(!is_digit(v@[i as int]));
            return false;
        }
        i = i + 1;
    }
    true
}

/// The value of a decimal digit.
pub fn value_of_digit(c: char) -> (r: u64)
    requires
        is_digit(c),
    ensures
        r == digit_value(c),
        r <= 9,
{
    (c as u32 - 48) as u64
}

/// Read a number of at most eighteen digits.
pub fn read_number(v: &[char]) -> (r: u64)
    requires
        all_digits(v@),
        v@.len() <= 18,
    ensures
        r == number(v@),
        r < ten_to(v@.len()),
{
    let mut n: u64 = 0;
    let mut i: usize = 0;
    proof {
        reveal_with_fuel(ten_to, 19);
        number_bound(v@);
        assert(v@.take(0) =~= seq![]);
    }
    while i < v.len()
        invariant
            i <= v.len(),
            v@.len() <= 18,
            all_digits(v@),
            n == number(v@.take(i as int)),
            n < ten_to(i as nat),
            ten_to(18) == 1_000_000_000_000_000_000,
        decreases v.len() - i,
    {
        proof {
            let t = v@.take(i + 1);
            assert(t.drop_last() =~= v@.take(i as int));
            assert(t.last() == v@[i as int]);
            assert(is_digit(v@[i as int]));
            ten_to_grows((i + 1) as nat, 18);
        }
        n = 10 * n + value_of_digit(v[i]);
        i = i + 1;
    }
    assert(v@.take(i as int) =~= v@);
    n
}

// --- sorting -------------------------------------------------------------------------------

/// Whether `a` sorts before `b` because of position `k`: they agree up to it, and there `a` ends
/// or has the smaller character.
pub open spec fn before_at(a: Seq<char>, b: Seq<char>, k: int) -> bool {
    &&& 0 <= k <= a.len()
    &&& k < b.len()
    &&& forall|j: int| 0 <= j < k ==> a[j] == b[j]
    &&& k == a.len() || a[k] < b[k]
}

/// Whether `a` sorts before `b`.
pub open spec fn before(a: Seq<char>, b: Seq<char>) -> bool {
    exists|k: int| before_at(a, b, k)
}

/// Sorting before is transitive.
pub proof fn before_is_transitive(a: Seq<char>, b: Seq<char>, c: Seq<char>)
    requires
        before(a, b),
        before(b, c),
    ensures
        before(a, c),
{
    let k = choose|k: int| before_at(a, b, k);
    let m = choose|m: int| before_at(b, c, m);
    if k <= m {
        assert(before_at(a, c, k));
    } else {
        assert(before_at(a, c, m));
    }
}

/// Nothing sorts before itself, nor before what sorts before it.
pub proof fn before_is_strict(a: Seq<char>, b: Seq<char>)
    requires
        before(a, b),
    ensures
        a != b,
        !before(b, a),
{
    let k = choose|k: int| before_at(a, b, k);
    if before(b, a) {
        let m = choose|m: int| before_at(b, a, m);
        if k < m {
            assert(b[k] == a[k]);
        } else if m < k {
            assert(a[m] == b[m]);
        }
        assert(false);
    }
}

proof fn texts_sort_from(a: Seq<char>, b: Seq<char>, k: int)
    requires
        0 <= k <= a.len(),
        k <= b.len(),
        forall|j: int| 0 <= j < k ==> a[j] == b[j],
    ensures
        a == b || before(a, b) || before(b, a),
    decreases a.len() - k,
{
    if k == a.len() && k == b.len() {
        assert(a =~= b);
    } else if k == a.len() || (k < b.len() && a[k] < b[k]) {
        assert(before_at(a, b, k));
    } else if k == b.len() || b[k] < a[k] {
        assert(before_at(b, a, k));
    } else {
        texts_sort_from(a, b, k + 1);
    }
}

/// Of two different texts, one sorts before the other.
pub proof fn texts_sort(a: Seq<char>, b: Seq<char>)
    ensures
        a == b || before(a, b) || before(b, a),
{
    texts_sort_from(a, b, 0);
}

/// How two texts sort.
#[derive(Debug, Clone, Copy, PartialEq, Eq, Structural)]
pub enum TextOrder {
    Before,
    Same,
    After,
}

/// Compare two texts, code point by code point.
pub fn order_of(a: &str, b: &str) -> (r: TextOrder)
    ensures
        r == TextOrder::Before <==> before(a@, b@),
        r == TextOrder::Same <==> a@ == b@,
        r == TextOrder::After <==> before(b@, a@),
{
    let x: Vec<char> = chars_of(a);
    let y: Vec<char> = chars_of(b);
    let mut k: usize = 0;
    while k < x.len() && k < y.len() && x[k] == y[k]
        invariant
            k <= x.len(),
            k <= y.len(),
            x@ == a@,
            y@ == b@,
            forall|j: int| 0 <= j < k ==> a@[j] == b@[j],
        decreases x.len() - k,
    {
        k = k + 1;
    }
    proof {
        if before(a@, b@) {
            before_is_strict(a@, b@);
        }
        if before(b@, a@) {
            before_is_strict(b@, a@);
        }
    }
    if k == x.len() && k == y.len() {
        assert(a@ =~= b@);
        TextOrder::Same
    } else if k == x.len() || (k < y.len() && x[k] < y[k]) {
        assert(before_at(a@, b@, k as int));
        TextOrder::Before
    } else {
        assert(before_at(b@, a@, k as int));
        TextOrder::After
    }
}

// --- searching -----------------------------------------------------------------------------

/// Whether a text stands at a place in another.
pub open spec fn stands_at(text: Seq<char>, part: Seq<char>, at: int) -> bool {
    0 <= at && at + part.len() <= text.len() && text.subrange(at, at + part.len() as int) == part
}

/// Whether a text holds another.
pub open spec fn holds(text: Seq<char>, part: Seq<char>) -> bool {
    exists|at: int| stands_at(text, part, at)
}

/// Whether a text stands at a place in another.
pub fn is_at(text: &[char], part: &[char], at: usize) -> (r: bool)
    ensures
        r == stands_at(text@, part@, at as int),
{
    if at > text.len() || part.len() > text.len() - at {
        return false;
    }
    let mut i: usize = 0;
    while i < part.len()
        invariant
            i <= part.len(),
            at + part.len() <= text.len(),
            forall|k: int| 0 <= k < i ==> text@[at + k] == part@[k],
        decreases part.len() - i,
    {
        if text[at + i] != part[i] {
            assert(text@.subrange(at as int, at + part@.len())[i as int] != part@[i as int]);
            return false;
        }
        i = i + 1;
    }
    assert(text@.subrange(at as int, at + part@.len()) =~= part@);
    true
}

/// Whether a text holds another.
pub fn contains_text(text: &str, part: &str) -> (r: bool)
    ensures
        r == holds(text@, part@),
{
    let all: Vec<char> = chars_of(text);
    let wanted: Vec<char> = chars_of(part);
    let mut at: usize = 0;
    loop
        invariant
            at <= all.len(),
            all@ == text@,
            wanted@ == part@,
            forall|k: int| 0 <= k < at ==> !stands_at(text@, part@, k),
        decreases all.len() - at,
    {
        if is_at(all.as_slice(), wanted.as_slice(), at) {
            return true;
        }
        if at == all.len() {
            assert forall|k: int| !stands_at(text@, part@, k) by {
                if k > at {
                    assert(k + part@.len() > text@.len());
                }
            }
            return false;
        }
        at = at + 1;
    }
}

// --- laws ----------------------------------------------------------------------------------

/// Rounding is to the nearest: the whole number chosen is no further than half from the quotient, and
/// between two equally near it is the even one.
pub proof fn rounding_is_to_the_nearest(n: nat, d: nat)
    requires
        0 < d,
    ensures
        -(d as int) <= 2 * (n as int - d * nearest(n, d)) <= d,
        2 * (n as int - d * nearest(n, d)) == d || 2 * (n as int - d * nearest(n, d)) == -(d as int)
            ==> nearest(n, d) % 2 == 0,
{
    vstd::arithmetic::div_mod::lemma_fundamental_div_mod(n as int, d as int);
    let q = n as int / d as int;
    assert(d * (q + 1) == d * q + d) by (nonlinear_arith);
}

/// A rounded number reads back as the nearest whole one, with a minus in front of what was negative.
pub proof fn rounded_numbers_read_back(n: int, d: nat)
    requires
        0 < d,
    ensures
        n >= 0 ==> number(rounded(n, d)) == nearest(n as nat, d) && all_digits(rounded(n, d)),
        n < 0 ==> rounded(n, d)[0] == '-' && number(rounded(n, d).skip(1)) == nearest(
            (-n) as nat,
            d,
        ) && all_digits(rounded(n, d).skip(1)),
{
    reveal_strlit("-");
    if n >= 0 {
        decimals_read_back(nearest(n as nat, d));
    } else {
        decimals_read_back(nearest((-n) as nat, d));
        assert(rounded(n, d).skip(1) =~= decimal(nearest((-n) as nat, d)));
    }
}

/// Tenths read back: a whole number, a point, and one digit, which together are the nearest tenth.
pub proof fn tenths_read_back(n: nat, d: nat)
    requires
        0 < d,
    ensures
        ({
            let text = to_tenths(n, d);
            let point = text.len() - 2;
            &&& point >= 1
            &&& text[point] == '.'
            &&& all_digits(text.take(point))
            &&& is_digit(text.last())
            &&& 10 * number(text.take(point)) + digit_value(text.last()) == nearest(n * 10, d)
        }),
{
    reveal_strlit(".");
    let tenths = nearest(n * 10, d);
    let text = to_tenths(n, d);
    decimals_read_back(tenths / 10);
    assert(ten_to(1) == 10 * ten_to(0));
    padded_reads_back(tenths % 10, 1);
    let last = padded(tenths % 10, 1);
    assert(last.drop_last() =~= Seq::<char>::empty());
    assert(number(last.drop_last()) == 0);
    assert(text.take(text.len() - 2) =~= decimal(tenths / 10));
    assert(text.last() == last[0]);
}

/// Hundredths read back: a whole number, a point, and two digits, which together are the nearest
/// hundredth.
pub proof fn hundredths_read_back(n: nat, d: nat)
    requires
        0 < d,
    ensures
        ({
            let text = to_hundredths(n, d);
            let point = text.len() - 3;
            &&& point >= 1
            &&& text[point] == '.'
            &&& all_digits(text.take(point))
            &&& all_digits(text.skip(point + 1))
            &&& 100 * number(text.take(point)) + number(text.skip(point + 1)) == nearest(n * 100, d)
        }),
{
    reveal_strlit(".");
    let hundredths = nearest(n * 100, d);
    let text = to_hundredths(n, d);
    decimals_read_back(hundredths / 100);
    reveal_with_fuel(ten_to, 3);
    padded_reads_back(hundredths % 100, 2);
    let last = padded(hundredths % 100, 2);
    let point = text.len() - 3;
    assert(text.take(point) =~= decimal(hundredths / 100));
    assert(text.skip(point + 1) =~= last);
}

/// Changing the case of a letter changes nothing else, and changing it again loses nothing: what was
/// made small and what was made large are made alike by either.
pub proof fn case_is_all_that_changes(c: char)
    ensures
        lower(upper(c)) == lower(c),
        upper(lower(c)) == upper(c),
        lower(c) == c <==> !('A' <= c <= 'Z'),
        upper(c) == c <==> !('a' <= c <= 'z'),
        'A' <= c <= 'Z' ==> 'a' <= lower(c) <= 'z' && lower(c) as int - 'a' as int == c as int
            - 'A' as int,
{
}

/// Texts sort as in a dictionary: by the first letter they differ in, and what ends first comes first.
pub proof fn texts_sort_by_their_first_difference(shared: Seq<char>, a: char, b: char, tail: Seq<char>)
    ensures
        a < b ==> before(shared.push(a) + tail, shared.push(b)),
        a < b ==> !before(shared.push(b), shared.push(a) + tail),
        before(shared, shared.push(a) + tail),
        !before(shared.push(a) + tail, shared),
        !before(shared, shared),
{
    let longer = shared.push(a) + tail;
    let k = shared.len() as int;
    if a < b {
        assert(longer[k] == a);
        assert(before_at(longer, shared.push(b), k));
        before_is_strict(longer, shared.push(b));
    }
    assert(before_at(shared, longer, k));
    before_is_strict(shared, longer);
    if before(shared, shared) {
        before_is_strict(shared, shared);
    }
}

/// Blanks, tabs and line ends part words; letters, digits and signs do not.
pub proof fn what_parts_words(c: char)
    ensures
        is_space(' '),
        is_space('\t'),
        is_space('\n'),
        is_space('\r'),
        '!' <= c <= '~' ==> !is_space(c),
{
}

} // verus!
