//! Character-sequence helpers used throughout the crate.

use vstd::prelude::*;

verus! {

broadcast use vstd::string::group_string_axioms;

/// The characters of `s`, in order.
pub fn chars_of(s: &str) -> (v: Vec<char>)
    ensures
        v@ == s@,
{
    let mut v: Vec<char> = Vec::new();
    for c in it: s.chars()
        invariant
            it.seq() == s@,
            v@ == it.seq().take(it.index() as int),
    {
        v.push(c);
    }
    v
}

/// Collects characters into a `String` (std `FromIterator<char>`).
#[verifier::external_body]
pub(crate) fn string_of(v: &Vec<char>) -> (s: String)
    ensures
        s@ == v@,
{
    v.iter().collect()
}


/// The text of an optional string.
pub open spec fn opt_text(o: Option<String>) -> Option<Seq<char>> {
    match o {
        Some(s) => Some(s@),
        None => None,
    }
}

/// Whether `p` is a prefix of `s`.
pub open spec fn has_prefix(s: Seq<char>, p: Seq<char>) -> bool {
    p.len() <= s.len() && s.take(p.len() as int) == p
}

/// Whether `s` starts with the characters of `p`.
pub fn starts_with_chars(s: &Vec<char>, p: &[char]) -> (r: bool)
    ensures
        r == has_prefix(s@, p@),
{
    if p.len() > s.len() {
        return false;
    }
    let mut i: usize = 0;
    while i < p.len()
        invariant
            p@.len() <= s@.len(),
            i <= p@.len(),
            forall|j: int| 0 <= j < i ==> s@[j] == p@[j],
        decreases p.len() - i,
    {
        if s[i] != p[i] {
            assert(s@.take(p@.len() as int)[i as int] != p@[i as int]);
            return false;
        }
        i = i + 1;
    }
    assert(s@.take(p@.len() as int) =~= p@);
    true
}

/// Whether two character sequences are equal.
pub fn chars_eq(a: &Vec<char>, b: &[char]) -> (r: bool)
    ensures
        r == (a@ == b@),
{
    if a.len() != b.len() {
        return false;
    }
    let r = starts_with_chars(a, b);
    proof {
        assert(a@.take(b@.len() as int) =~= a@);
    }
    r
}

/// Whether two texts are equal.
pub fn same_text(a: &str, b: &str) -> (r: bool)
    ensures
        r == (a@ == b@),
{
    let x = chars_of(a);
    let y = chars_of(b);
    chars_eq(&x, y.as_slice())
}

/// Whether `c` occurs in `s`.
pub fn contains_char(s: &Vec<char>, c: char) -> (r: bool)
    ensures
        r == s@.contains(c),
{
    let mut i: usize = 0;
    while i < s.len()
        invariant
            i <= s@.len(),
            forall|j: int| 0 <= j < i ==> s@[j] != c,
        decreases s.len() - i,
    {
        if s[i] == c {
            return true;
        }
        i = i + 1;
    }
    false
}

// ---------------------------------------------------------------------------
// Decimal numbers
// ---------------------------------------------------------------------------

/// The decimal digit for a value below 10.
pub open spec fn digit_char(d: nat) -> char {
    (0x30 + d) as char
}

/// The decimal text of `n`, without leading zeros (`0` for zero), as `{}` formats a `usize`.
pub open spec fn decimal_text(n: nat) -> Seq<char>
    decreases n,
{
    if n < 10 {
        seq![digit_char(n)]
    } else {
        decimal_text(n / 10).push(digit_char(n % 10))
    }
}

/// Writes `n` in decimal.
pub fn usize_text(n: usize) -> (v: Vec<char>)
    ensures
        v@ == decimal_text(n as nat),
    decreases n,
{
    let d = n % 10;
    let c = (0x30u8 + (d as u8)) as char;
    if n < 10 {
        let mut v: Vec<char> = Vec::new();
        v.push(c);
        assert(v@ =~= seq![digit_char(n as nat)]);
        v
    } else {
        let mut v = usize_text(n / 10);
        v.push(c);
        v
    }
}

/// Reading back the decimal text of `n` gives `n`; the text is nonempty and all digits.
pub proof fn lemma_decimal_text(n: nat)
    ensures
        decimal_text(n).len() >= 1,
        dec_digits_value(decimal_text(n)) == Some(n),
        forall|i: int| 0 <= i < decimal_text(n).len() ==> '0' <= #[trigger] decimal_text(n)[i] <= '9',
    decreases n,
{
    if n < 10 {
        let t = decimal_text(n);
        assert(t.drop_last() =~= Seq::<char>::empty());
        assert(dec_digits_value(t.drop_last()) == Some(0nat));
        assert(dec_digit(digit_char(n)) == Some(n));
    } else {
        lemma_decimal_text(n / 10);
        let t = decimal_text(n);
        assert(t.drop_last() =~= decimal_text(n / 10));
        assert(dec_digit(digit_char(n % 10)) == Some(n % 10));
        assert forall|i: int| 0 <= i < t.len() implies '0' <= #[trigger] t[i] <= '9' by {
            if i < t.len() - 1 {
                assert(t[i] == decimal_text(n / 10)[i]);
            }
        }
    }
}

/// Ten to the power `k`.
pub open spec fn pow10(k: nat) -> nat
    decreases k,
{
    if k == 0 {
        1
    } else {
        10 * pow10((k - 1) as nat)
    }
}

/// A number below `10^k` has at most `k` decimal digits.
pub proof fn lemma_decimal_len(n: nat, k: nat)
    requires
        k >= 1,
        n < pow10(k),
    ensures
        decimal_text(n).len() <= k,
    decreases k,
{
    if n >= 10 {
        let p = pow10((k - 1) as nat);
        assert(k >= 2) by {
            if k == 1 {
                assert(pow10(0) == 1);
            }
        }
        assert(n / 10 < p) by (nonlinear_arith)
            requires
                n < 10 * p,
        ;
        lemma_decimal_len(n / 10, (k - 1) as nat);
    }
}

/// Value of a decimal digit character.
pub open spec fn dec_digit(c: char) -> Option<nat> {
    if '0' <= c <= '9' {
        Some((c as nat - 0x30) as nat)
    } else {
        None
    }
}

/// Value of a run of decimal digits; `None` if some character is no digit.
pub open spec fn dec_digits_value(d: Seq<char>) -> Option<nat>
    decreases d.len(),
{
    if d.len() == 0 {
        Some(0)
    } else {
        match (dec_digits_value(d.drop_last()), dec_digit(d.last())) {
            (Some(v), Some(h)) => Some(v * 10 + h),
            _ => None,
        }
    }
}

/// The number `str::parse::<usize>` reads: an optional `+` and at least one decimal digit,
/// whose value must fit in `usize`.
pub open spec fn usize_value(s: Seq<char>) -> Option<nat> {
    let v = if s.len() == 0 {
        None
    } else if s[0] == '+' {
        if s.len() == 1 {
            None
        } else {
            dec_digits_value(s.drop_first())
        }
    } else {
        dec_digits_value(s)
    };
    match v {
        Some(x) => if x <= usize::MAX {
            Some(x)
        } else {
            None
        },
        None => None,
    }
}

proof fn lemma_dec_digits_prefix(d: Seq<char>, i: int)
    requires
        0 <= i <= d.len(),
        dec_digits_value(d.take(i)) is None,
    ensures
        dec_digits_value(d) is None,
    decreases d.len() - i,
{
    if i < d.len() {
        let t = d.take(i + 1);
        assert(t.drop_last() =~= d.take(i));
        lemma_dec_digits_prefix(d, i + 1);
    } else {
        assert(d.take(i) =~= d);
    }
}

proof fn lemma_dec_digits_grow(d: Seq<char>, i: int)
    requires
        0 <= i <= d.len(),
        dec_digits_value(d.take(i)) matches Some(v) && v > usize::MAX,
    ensures
        dec_digits_value(d) is None || dec_digits_value(d)->0 > usize::MAX,
    decreases d.len() - i,
{
    if i < d.len() {
        let t = d.take(i + 1);
        assert(t.drop_last() =~= d.take(i));
        if dec_digits_value(t) is None {
            lemma_dec_digits_prefix(d, i + 1);
        } else {
            lemma_dec_digits_grow(d, i + 1);
        }
    } else {
        assert(d.take(i) =~= d);
    }
}

/// Parses the text as `str::parse::<usize>` does; `None` where that gives an error.
pub fn parse_usize(s: &Vec<char>) -> (r: Option<usize>)
    ensures
        r matches Some(x) ==> usize_value(s@) == Some(x as nat),
        r is None ==> usize_value(s@) is None,
{
    let n = s.len();
    if n == 0 {
        return None;
    }
    let mut i: usize = 0;
    if s[0] == '+' {
        if n == 1 {
            return None;
        }
        i = 1;
    }
    let ghost digits = if s@[0] == '+' { s@.drop_first() } else { s@ };
    let ghost off: int = i as int;
    let mut acc: usize = 0;
    while i < n
        invariant
            n == s@.len(),
            n > 0,
            off == 0 || off == 1,
            (off == 1) == (s@[0] == '+'),
            off == 1 ==> n > 1,
            digits == (if s@[0] == '+' { s@.drop_first() } else { s@ }),
            digits.len() == n - off,
            off <= i <= n,
            dec_digits_value(digits.take(i - off)) == Some(acc as nat),
        decreases n - i,
    {
        let c = s[i];
        proof {
            let t = digits.take(i - off + 1);
            assert(t.drop_last() =~= digits.take(i - off));
            assert(t.last() == c);
        }
        if c < '0' || c > '9' {
            proof {
                assert(dec_digit(c) is None);
                assert(dec_digits_value(digits.take(i - off + 1)) is None);
                lemma_dec_digits_prefix(digits, i - off + 1);
                assert(dec_digits_value(digits) is None);
            }
            return None;
        }
        let d = (c as u32 - 0x30) as usize;
        if acc > (usize::MAX - d) / 10 {
            proof {
                let m = usize::MAX - d;
                assert(acc * 10 + d > usize::MAX) by (nonlinear_arith)
                    requires
                        acc > m / 10,
                        m == usize::MAX - d,
                        0 <= d <= 9,
                ;
                assert(dec_digits_value(digits.take(i - off + 1)) == Some((acc * 10 + d) as nat));
                lemma_dec_digits_grow(digits, i - off + 1);
            }
            return None;
        }
        acc = acc * 10 + d;
        i = i + 1;
    }
    proof {
        assert(digits.take(n - off) =~= digits);
    }
    Some(acc)
}

// ---------------------------------------------------------------------------
// Lower case (std)
// ---------------------------------------------------------------------------

/// The text `str::to_lowercase` gives: each character replaced by its Unicode lower-case
/// mapping (with the final-sigma rule for `Σ`).
pub uninterp spec fn lowercase(s: Seq<char>) -> Seq<char>;

/// ASCII lower case of one character.
pub open spec fn ascii_lower(c: char) -> char {
    if 'A' <= c <= 'Z' {
        ((c as nat) + 32) as char
    } else {
        c
    }
}

/// The lower case of a text as `str::to_lowercase` gives it: ASCII text character by
/// character, any other text by its named Unicode mapping.
pub open spec fn lower_text(s: Seq<char>) -> Seq<char> {
    if vstd::utf8::is_ascii_chars(s) {
        s.map_values(|c: char| ascii_lower(c))
    } else {
        lowercase(s)
    }
}

/// `str::to_lowercase` (std).
///
/// Claims that the result is the named lower-case mapping of the text and, as std documents
/// for characters whose mapping UnicodeData gives one to one, that ASCII text maps character
/// by character to its ASCII lower case. What non-ASCII text maps to is left unsaid.
#[verifier::external_body]
pub(crate) fn to_lowercase(s: &str) -> (r: String)
    ensures
        r@ == lowercase(s@),
        vstd::utf8::is_ascii_chars(s@) ==> r@ == s@.map_values(|c: char| ascii_lower(c)),
{
    s.to_lowercase()
}

/// Appends the characters of `p`.
pub fn push_chars(out: &mut Vec<char>, p: &[char])
    ensures
        final(out)@ == old(out)@ + p@,
{
    let mut i: usize = 0;
    while i < p.len()
        invariant
            i <= p@.len(),
            out@ == old(out)@ + p@.take(i as int),
        decreases p.len() - i,
    {
        proof {
            assert(p@.take(i + 1) =~= p@.take(i as int).push(p@[i as int]));
        }
        out.push(p[i]);
        i = i + 1;
    }
    assert(p@.take(p@.len() as int) =~= p@);
}

/// Appends the characters of `p`.
pub fn push_vec(out: &mut Vec<char>, p: &Vec<char>)
    ensures
        final(out)@ == old(out)@ + p@,
{
    push_chars(out, p.as_slice());
}


// ---------------------------------------------------------------------------
// Searching and replacing
// ---------------------------------------------------------------------------

/// Whether `s` ends with `p`.
pub open spec fn has_suffix(s: Seq<char>, p: Seq<char>) -> bool {
    p.len() <= s.len() && s.skip(s.len() - p.len()) == p
}

/// Whether `s` ends with the characters of `p`.
pub fn ends_with_chars(s: &Vec<char>, p: &[char]) -> (r: bool)
    ensures
        r == has_suffix(s@, p@),
{
    if p.len() > s.len() {
        return false;
    }
    let off = s.len() - p.len();
    let mut i: usize = 0;
    while i < p.len()
        invariant
            p@.len() <= s@.len(),
            off == s@.len() - p@.len(),
            s@.len() <= usize::MAX,
            i <= p@.len(),
            forall|j: int| 0 <= j < i ==> s@[off + j] == p@[j],
        decreases p.len() - i,
    {
        let k: usize = off + i;
        if s[k] != p[i] {
            assert(s@.skip(off as int)[i as int] != p@[i as int]);
            return false;
        }
        i = i + 1;
    }
    assert(s@.skip(off as int) =~= p@);
    true
}

/// Whether `p` occurs in `s` at position `i`.
pub open spec fn occurs_at(s: Seq<char>, i: int, p: Seq<char>) -> bool {
    has_prefix(s.skip(i), p)
}

/// Whether the characters of `p` occur in `s` at position `i`.
pub fn occurs_at_chars(s: &Vec<char>, i: usize, p: &Vec<char>) -> (r: bool)
    requires
        i <= s@.len(),
    ensures
        r == occurs_at(s@, i as int, p@),
{
    if p.len() > s.len() - i {
        return false;
    }
    let mut j: usize = 0;
    while j < p.len()
        invariant
            i <= s@.len(),
            p@.len() <= s@.len() - i,
            s@.len() <= usize::MAX,
            j <= p@.len(),
            forall|k: int| 0 <= k < j ==> s@[i + k] == p@[k],
        decreases p.len() - j,
    {
        let k: usize = i + j;
        if s[k] != p[j] {
            assert(s@.skip(i as int).take(p@.len() as int)[j as int] != p@[j as int]);
            return false;
        }
        j = j + 1;
    }
    assert(s@.skip(i as int).take(p@.len() as int) =~= p@);
    true
}

/// `s` with the occurrences of `p` replaced by `r`, as `str::replace` does: the matches are
/// found from the left and do not overlap; an empty `p` matches before every character and
/// at the end.
pub open spec fn replace_all(s: Seq<char>, p: Seq<char>, r: Seq<char>) -> Seq<char>
    decreases s.len(),
{
    if p.len() == 0 {
        if s.len() == 0 {
            r
        } else {
            r + seq![s[0]] + replace_all(s.skip(1), p, r)
        }
    } else if s.len() == 0 {
        Seq::empty()
    } else if has_prefix(s, p) {
        r + replace_all(s.skip(p.len() as int), p, r)
    } else {
        seq![s[0]] + replace_all(s.skip(1), p, r)
    }
}

/// Replaces every occurrence of `p` in `s` by `r`.
pub fn replace_chars(s: &Vec<char>, p: &Vec<char>, r: &Vec<char>) -> (out: Vec<char>)
    ensures
        out@ == replace_all(s@, p@, r@),
{
    let mut out: Vec<char> = Vec::new();
    let mut i: usize = 0;
    assert(s@.skip(0) =~= s@);
    assert(out@ + replace_all(s@.skip(0), p@, r@) =~= replace_all(s@, p@, r@));
    while i < s.len()
        invariant
            i <= s@.len(),
            out@ + replace_all(s@.skip(i as int), p@, r@) == replace_all(s@, p@, r@),
        decreases s.len() - i,
    {
        let ghost rest = s@.skip(i as int);
        if p.len() == 0 {
            push_vec(&mut out, r);
            out.push(s[i]);
            proof {
                assert(rest[0] == s@[i as int]);
                assert(rest.skip(1) =~= s@.skip(i + 1));
            }
            i = i + 1;
        } else if occurs_at_chars(s, i, p) {
            push_vec(&mut out, r);
            proof {
                assert(rest.skip(p@.len() as int) =~= s@.skip(i + p@.len()));
            }
            i = i + p.len();
        } else {
            out.push(s[i]);
            proof {
                assert(rest[0] == s@[i as int]);
                assert(rest.skip(1) =~= s@.skip(i + 1));
            }
            i = i + 1;
        }
        proof {
            assert(out@ + replace_all(s@.skip(i as int), p@, r@) =~= replace_all(s@, p@, r@));
        }
    }
    if p.len() == 0 {
        push_vec(&mut out, r);
    }
    proof {
        assert(s@.skip(i as int) =~= Seq::<char>::empty());
        assert(out@ =~= replace_all(s@, p@, r@));
    }
    out
}

/// The position of the first `c` in `s` (its length where there is none).
pub open spec fn first_index(s: Seq<char>, c: char) -> int
    decreases s.len(),
{
    if s.len() == 0 {
        0
    } else if s[0] == c {
        0
    } else {
        1 + first_index(s.drop_first(), c)
    }
}

/// The text before the first `c` in `s` and the text after it; `None` where `c` does not
/// occur.
pub open spec fn split_first(s: Seq<char>, c: char) -> Option<(Seq<char>, Seq<char>)> {
    if s.contains(c) {
        let i = first_index(s, c);
        Some((s.take(i), s.skip(i + 1)))
    } else {
        None
    }
}

/// The characters of `s` from `start` up to `end`.
pub fn slice_chars(s: &Vec<char>, start: usize, end: usize) -> (r: Vec<char>)
    requires
        start <= end <= s@.len(),
    ensures
        r@ == s@.subrange(start as int, end as int),
{
    let mut r: Vec<char> = Vec::new();
    let mut k: usize = start;
    while k < end
        invariant
            start <= k <= end <= s@.len(),
            r@ == s@.subrange(start as int, k as int),
        decreases end - k,
    {
        r.push(s[k]);
        k = k + 1;
        assert(r@ =~= s@.subrange(start as int, k as int));
    }
    r
}

proof fn lemma_first_index(s: Seq<char>, c: char, k: int)
    requires
        0 <= k < s.len(),
        s[k] == c,
        forall|j: int| 0 <= j < k ==> s[j] != c,
    ensures
        first_index(s, c) == k,
    decreases k,
{
    if k > 0 {
        assert(s[0] != c);
        let t = s.drop_first();
        assert forall|j: int| 0 <= j < k - 1 implies t[j] != c by {
            assert(t[j] == s[j + 1]);
        }
        lemma_first_index(t, c, k - 1);
    }
}

proof fn lemma_first_index_found(s: Seq<char>, c: char)
    requires
        s.contains(c),
    ensures
        0 <= first_index(s, c) < s.len(),
        s[first_index(s, c)] == c,
        forall|j: int| 0 <= j < first_index(s, c) ==> s[j] != c,
    decreases s.len(),
{
    if s[0] != c {
        let t = s.drop_first();
        let w = choose|w: int| 0 <= w < s.len() && s[w] == c;
        assert(t[w - 1] == c);
        lemma_first_index_found(t, c);
        assert forall|j: int| 0 <= j < first_index(s, c) implies s[j] != c by {
            if j > 0 {
                assert(s[j] == t[j - 1]);
            }
        }
    }
}

/// Breaking a text apart at its first `c` and joining the parts with `c` gives the text
/// back, the first part holding no `c`; a text breaks apart exactly when it holds a `c`.
pub proof fn lemma_split_first_rejoin(s: Seq<char>, c: char)
    ensures
        split_first(s, c) matches Some(pr) ==> s == pr.0 + seq![c] + pr.1 && !pr.0.contains(c),
        split_first(s, c) is None <==> !s.contains(c),
{
    if s.contains(c) {
        lemma_first_index_found(s, c);
        let i = first_index(s, c);
        assert(s =~= s.take(i) + seq![c] + s.skip(i + 1));
        assert(!s.take(i).contains(c)) by {
            if s.take(i).contains(c) {
                let w = choose|w: int| 0 <= w < s.take(i).len() && s.take(i)[w] == c;
                assert(s[w] == c);
            }
        }
    }
}

/// Splits `s` at its first `c`.
pub fn split_first_chars(s: &Vec<char>, c: char) -> (r: Option<(Vec<char>, Vec<char>)>)
    ensures
        r matches Some(pr) ==> split_first(s@, c) == Some((pr.0@, pr.1@)),
        r is None ==> split_first(s@, c) is None,
{
    let mut i: usize = 0;
    while i < s.len()
        invariant
            i <= s@.len(),
            forall|j: int| 0 <= j < i ==> s@[j] != c,
        decreases s.len() - i,
    {
        if s[i] == c {
            let a = slice_chars(s, 0, i);
            let b = slice_chars(s, i + 1, s.len());
            proof {
                lemma_first_index(s@, c, i as int);
                assert(b@ =~= s@.skip(i + 1));
            }
            return Some((a, b));
        }
        i = i + 1;
    }
    proof {
        if s@.contains(c) {
            let w = choose|w: int| 0 <= w < s@.len() && s@[w] == c;
            assert(s@[w] != c);
        }
    }
    None
}

/// The texts of a sequence of strings.
pub open spec fn texts(v: Seq<String>) -> Seq<Seq<char>> {
    v.map_values(|s: String| s@)
}

/// The texts of a concatenation are the concatenated texts.
pub proof fn lemma_texts_concat(a: Seq<String>, b: Seq<String>)
    ensures
        texts(a + b) == texts(a) + texts(b),
{
    assert(texts(a + b) =~= texts(a) + texts(b));
}

} // verus!
