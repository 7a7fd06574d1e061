//! Verified text utilities: prefix/suffix matching and stripping, and
//! decimal integer parsing, all specified over `Seq<char>` views.

use vstd::prelude::*;

verus! {

/// `text` begins with `pat`.
pub open spec fn text_starts_with(text: Seq<char>, pat: Seq<char>) -> bool {
    pat.len() <= text.len() && text.subrange(0, pat.len() as int) == pat
}

/// `text` ends with `pat`.
pub open spec fn text_ends_with(text: Seq<char>, pat: Seq<char>) -> bool {
    pat.len() <= text.len() && text.subrange(text.len() - pat.len(), text.len() as int) == pat
}

/// Whether `text` begins with `pat`, counted in characters.
pub fn str_starts_with(text: &str, pat: &str) -> (r: bool)
    ensures
        r == text_starts_with(text@, pat@),
{
    let tl = text.unicode_len();
    let pl = pat.unicode_len();
    if pl > tl {
        return false;
    }
    let mut i: usize = 0;
    while i < pl
        invariant
            0 <= i <= pl,
            pl <= tl,
            pl == pat@.len(),
            tl == text@.len(),
            forall|j: int| 0 <= j < i ==> text@[j] == pat@[j],
        decreases pl - i,
    {
        if text.get_char(i) != pat.get_char(i) {
            proof {
                if text_starts_with(text@, pat@) {
                    assert(text@.subrange(0, pl as int)[i as int] == pat@[i as int]);
                }
            }
            return false;
        }
        i = i + 1;
    }
    proof {
        assert(text@.subrange(0, pl as int) =~= pat@);
    }
    true
}

/// Whether `text` ends with `pat`, counted in characters.
pub fn str_ends_with(text: &str, pat: &str) -> (r: bool)
    ensures
        r == text_ends_with(text@, pat@),
{
    let tl = text.unicode_len();
    let pl = pat.unicode_len();
    if pl > tl {
        return false;
    }
    let off = tl - pl;
    let mut i: usize = 0;
    while i < pl
        invariant
            0 <= i <= pl,
            pl <= tl,
            off == tl - pl,
            pl == pat@.len(),
            tl == text@.len(),
            forall|j: int| 0 <= j < i ==> text@[off + j] == pat@[j],
        decreases pl - i,
    {
        if text.get_char(off + i) != pat.get_char(i) {
            proof {
                if text_ends_with(text@, pat@) {
                    assert(text@.subrange(tl - pl, tl as int)[i as int] == pat@[i as int]);
                }
            }
            return false;
        }
        i = i + 1;
    }
    proof {
        assert(text@.subrange(tl - pl, tl as int) =~= pat@);
    }
    true
}

/// `text` with a leading `pat` removed, when it is there.
pub fn strip_prefix_string(text: &str, pat: &str) -> (r: Option<String>)
    ensures
        match r {
            Some(s) => text_starts_with(text@, pat@) && s@ == text@.subrange(
                pat@.len() as int,
                text@.len() as int,
            ),
            None => !text_starts_with(text@, pat@),
        },
{
    if str_starts_with(text, pat) {
        let tl = text.unicode_len();
        let pl = pat.unicode_len();
        Some(text.substring_char(pl, tl).to_owned())
    } else {
        None
    }
}

/// `text` with a trailing `pat` removed, when it is there.
pub fn strip_suffix_string(text: &str, pat: &str) -> (r: Option<String>)
    ensures
        match r {
            Some(s) => text_ends_with(text@, pat@) && s@ == text@.subrange(
                0,
                text@.len() - pat@.len(),
            ),
            None => !text_ends_with(text@, pat@),
        },
{
    if str_ends_with(text, pat) {
        let tl = text.unicode_len();
        let pl = pat.unicode_len();
        Some(text.substring_char(0, tl - pl).to_owned())
    } else {
        None
    }
}

/// The part of `s` before its first `'|'`, or all of `s` when there is none.
pub open spec fn before_pipe(s: Seq<char>) -> Seq<char>
    decreases s.len(),
{
    if s.len() == 0 {
        s
    } else if s[0] == '|' {
        Seq::empty()
    } else {
        seq![s[0]] + before_pipe(s.subrange(1, s.len() as int))
    }
}

/// A scan that stops at index `k`, on the first `'|'` or at the end,
/// has found exactly `before_pipe`.
pub proof fn lemma_before_pipe(s: Seq<char>, k: int)
    requires
        0 <= k <= s.len(),
        forall|j: int| 0 <= j < k ==> s[j] != '|',
        k == s.len() || s[k] == '|',
    ensures
        before_pipe(s) == s.subrange(0, k),
    decreases k,
{
    if k == 0 {
        if s.len() == 0 {
            assert(s.subrange(0, 0) =~= s);
        } else {
            assert(s.subrange(0, 0) =~= Seq::<char>::empty());
        }
    } else {
        let t = s.subrange(1, s.len() as int);
        lemma_before_pipe(t, k - 1);
        assert(before_pipe(s) == seq![s[0]] + t.subrange(0, k - 1));
        assert(seq![s[0]] + t.subrange(0, k - 1) =~= s.subrange(0, k));
    }
}

/// What the escaped mention form `<@U1234|user>` yields: the account id
/// between `<@` and the first `'|'` (or the closing `>`), which must be
/// non-empty and begin with `'U'`.
pub open spec fn spec_parse_slack_user_id(s: Seq<char>) -> Option<Seq<char>> {
    if s.len() >= "<@"@.len() + ">"@.len() && text_starts_with(s, "<@"@) && text_ends_with(
        s,
        ">"@,
    ) {
        let cut = before_pipe(s.subrange("<@"@.len() as int, s.len() - ">"@.len()));
        if cut.len() > 0 && cut[0] == 'U' {
            Some(cut)
        } else {
            None
        }
    } else {
        None
    }
}

/// `c` is a decimal digit.
pub open spec fn is_digit(c: char) -> bool {
    48 <= c as u32 && c as u32 <= 57
}

/// The numeric value of a decimal digit.
pub open spec fn digit_val(c: char) -> int {
    c as u32 - 48
}

/// Every character of `s` is a decimal digit.
pub open spec fn all_digits(s: Seq<char>) -> bool {
    forall|i: int| 0 <= i < s.len() ==> is_digit(#[trigger] s[i])
}

/// The value of a digit string read in base ten.
pub open spec fn digits_val(s: Seq<char>) -> int
    decreases s.len(),
{
    if s.len() == 0 {
        0
    } else {
        10 * digits_val(s.drop_last()) + digit_val(s.last())
    }
}

/// What `str::parse::<i64>` accepts: an optional sign, then one or more
/// digits, the whole value within the bounds of the type.
pub open spec fn spec_parse_i64(s: Seq<char>) -> Option<i64> {
    if s.len() == 0 {
        None
    } else if s[0] == '+' || s[0] == '-' {
        let ds = s.subrange(1, s.len() as int);
        if ds.len() > 0 && all_digits(ds) {
            if s[0] == '-' {
                if digits_val(ds) <= 0x8000_0000_0000_0000 {
                    Some((-digits_val(ds)) as i64)
                } else {
                    None
                }
            } else {
                if digits_val(ds) <= i64::MAX {
                    Some(digits_val(ds) as i64)
                } else {
                    None
                }
            }
        } else {
            None
        }
    } else if all_digits(s) {
        if digits_val(s) <= i64::MAX {
            Some(digits_val(s) as i64)
        } else {
            None
        }
    } else {
        None
    }
}

proof fn lemma_digits_val_nonneg(s: Seq<char>)
    requires
        all_digits(s),
    ensures
        digits_val(s) >= 0,
    decreases s.len(),
{
    if s.len() > 0 {
        assert(all_digits(s.drop_last()));
        lemma_digits_val_nonneg(s.drop_last());
    }
}

/// Reading more digits can only grow the value.
proof fn lemma_digits_val_prefix(s: Seq<char>, k: int)
    requires
        all_digits(s),
        0 <= k <= s.len(),
    ensures
        digits_val(s) >= digits_val(s.subrange(0, k)),
    decreases s.len() - k,
{
    if k == s.len() {
        assert(s.subrange(0, k) =~= s);
    } else {
        lemma_digits_val_prefix(s, k + 1);
        let p = s.subrange(0, k + 1);
        assert(p.drop_last() =~= s.subrange(0, k));
        assert(all_digits(s.subrange(0, k)));
        lemma_digits_val_nonneg(s.subrange(0, k));
        assert(digits_val(p) == 10 * digits_val(s.subrange(0, k)) + digit_val(s[k]));
    }
}

/// Decimal integer parsing with the exact acceptance and overflow behaviour
/// of `str::parse::<i64>`.
pub fn parse_i64(s: &str) -> (r: Option<i64>)
    ensures
        r == spec_parse_i64(s@),
{
    let n = s.unicode_len();
    if n == 0 {
        return None;
    }
    let c0 = s.get_char(0);
    let neg = c0 == '-';
    let has_sign = neg || c0 == '+';
    let start: usize = if has_sign {
        1
    } else {
        0
    };
    if start == n {
        // a bare sign has no digits
        proof {
            assert(s@.subrange(1, n as int).len() == 0);
        }
        return None;
    }
    let limit: u64 = if neg {
        0x8000_0000_0000_0000
    } else {
        0x7fff_ffff_ffff_ffff
    };
    let ghost ds = s@.subrange(start as int, n as int);
    let mut acc: u64 = 0;
    let mut i: usize = start;
    while i < n
        invariant
            start <= i <= n,
            n == s@.len(),
            start == 0 || start == 1,
            start == 1 <==> (s@[0] == '+' || s@[0] == '-'),
            neg <==> (s@.len() > 0 && s@[0] == '-'),
            start < n,
            limit == if neg {
                0x8000_0000_0000_0000u64
            } else {
                0x7fff_ffff_ffff_ffffu64
            },
            ds == s@.subrange(start as int, n as int),
            all_digits(s@.subrange(start as int, i as int)),
            acc == digits_val(s@.subrange(start as int, i as int)),
            acc <= limit,
        decreases n - i,
    {
        let c = s.get_char(i);
        let cu = c as u32;
        if cu < 48 || cu > 57 {
            proof {
                assert(ds[i - start] == s@[i as int]);
                assert(!all_digits(ds));
                if start == 0 {
                    assert(ds =~= s@);
                }
            }
            return None;
        }
        let d = (cu - 48) as u64;
        let big: u128 = acc as u128 * 10 + d as u128;
        let ghost prev = s@.subrange(start as int, i as int);
        let ghost cur = s@.subrange(start as int, i + 1);
        proof {
            assert(cur.drop_last() =~= prev);
            assert(cur.last() == s@[i as int]);
            assert(digits_val(cur) == 10 * acc + d);
        }
        if big > limit as u128 {
            proof {
                if start == 0 {
                    assert(ds =~= s@);
                }
                if all_digits(ds) {
                    assert(ds.subrange(0, i + 1 - start) =~= cur);
                    lemma_digits_val_prefix(ds, i + 1 - start);
                    assert(digits_val(ds) > limit);
                }
            }
            return None;
        }
        acc = big as u64;
        i = i + 1;
    }
    proof {
        assert(s@.subrange(start as int, i as int) =~= ds);
        if start == 0 {
            assert(ds =~= s@);
            assert(ds[0] == s@[0]);
            assert(is_digit(s@[0]));
            assert(s@[0] != '+' && s@[0] != '-');
        }
    }
    if neg {
        if acc == 0x8000_0000_0000_0000 {
            Some(i64::MIN)
        } else {
            Some(-(acc as i64))
        }
    } else {
        Some(acc as i64)
    }
}

/// The whitespace that can separate a trigger pattern from the message
/// body: the space and the other ASCII whitespace characters.
pub open spec fn is_space(c: char) -> bool {
    c == ' ' || c == '\t' || c == '\n' || c == '\r'
}

/// `s` without its leading whitespace.
pub open spec fn trim_start_spaces(s: Seq<char>) -> Seq<char>
    decreases s.len(),
{
    if s.len() > 0 && is_space(s[0]) {
        trim_start_spaces(s.subrange(1, s.len() as int))
    } else {
        s
    }
}

/// `s` without its trailing whitespace.
pub open spec fn trim_end_spaces(s: Seq<char>) -> Seq<char>
    decreases s.len(),
{
    if s.len() > 0 && is_space(s.last()) {
        trim_end_spaces(s.drop_last())
    } else {
        s
    }
}

/// A scan that stops at index `k`, on the first non-whitespace character
/// or at the end, has found exactly the leading whitespace.
proof fn lemma_trim_start(s: Seq<char>, k: int)
    requires
        0 <= k <= s.len(),
        forall|j: int| 0 <= j < k ==> is_space(#[trigger] s[j]),
        k == s.len() || !is_space(s[k]),
    ensures
        trim_start_spaces(s) == s.subrange(k, s.len() as int),
    decreases k,
{
    if k == 0 {
        assert(s.subrange(0, s.len() as int) =~= s);
    } else {
        let t = s.subrange(1, s.len() as int);
        lemma_trim_start(t, k - 1);
        assert(t.subrange(k - 1, t.len() as int) =~= s.subrange(k, s.len() as int));
    }
}

/// A scan that stops at index `k`, on the last non-whitespace character or
/// at the start, has found exactly the trailing whitespace.
proof fn lemma_trim_end(s: Seq<char>, k: int)
    requires
        0 <= k <= s.len(),
        forall|j: int| k <= j < s.len() ==> is_space(#[trigger] s[j]),
        k == 0 || !is_space(s[k - 1]),
    ensures
        trim_end_spaces(s) == s.subrange(0, k),
    decreases s.len(),
{
    if s.len() == k {
        if s.len() == 0 {
            assert(s.subrange(0, 0) =~= s);
        } else {
            assert(!is_space(s.last()));
            assert(s.subrange(0, k) =~= s);
        }
    } else {
        assert(is_space(s.last()));
        let t = s.drop_last();
        lemma_trim_end(t, k);
        assert(t.subrange(0, k) =~= s.subrange(0, k));
    }
}

/// Whether the character is separating whitespace.
pub fn space_char(c: char) -> (r: bool)
    ensures
        r == is_space(c),
{
    c == ' ' || c == '\t' || c == '\n' || c == '\r'
}

/// The text without its leading whitespace.
pub fn trim_start_string(s: &str) -> (r: String)
    ensures
        r@ == trim_start_spaces(s@),
{
    let n = s.unicode_len();
    let mut k: usize = 0;
    while k < n && space_char(s.get_char(k))
        invariant
            0 <= k <= n,
            n == s@.len(),
            forall|j: int| 0 <= j < k ==> is_space(#[trigger] s@[j]),
        decreases n - k,
    {
        k = k + 1;
    }
    proof {
        lemma_trim_start(s@, k as int);
    }
    s.substring_char(k, n).to_owned()
}

/// The text without its trailing whitespace.
pub fn trim_end_string(s: &str) -> (r: String)
    ensures
        r@ == trim_end_spaces(s@),
{
    let n = s.unicode_len();
    let mut k: usize = n;
    while k > 0 && space_char(s.get_char(k - 1))
        invariant
            0 <= k <= n,
            n == s@.len(),
            forall|j: int| k <= j < n ==> is_space(#[trigger] s@[j]),
        decreases k,
    {
        k = k - 1;
    }
    proof {
        lemma_trim_end(s@, k as int);
    }
    s.substring_char(0, k).to_owned()
}

/// Ten to the `k`.
pub open spec fn pow10(k: nat) -> int
    decreases k,
{
    if k == 0 {
        1
    } else {
        10 * pow10((k - 1) as nat)
    }
}

/// Putting a digit in front multiplies its value by the right power of ten.
proof fn lemma_digits_val_prepend(c: char, s: Seq<char>)
    ensures
        digits_val(seq![c] + s) == digit_val(c) * pow10(s.len()) + digits_val(s),
    decreases s.len(),
{
    if s.len() == 0 {
        assert(seq![c] + s =~= seq![c]);
        assert(seq![c].drop_last() =~= Seq::<char>::empty());
        assert(digits_val(Seq::<char>::empty()) == 0);
        assert(seq![c].last() == c);
        assert(digits_val(seq![c]) == digit_val(c));
    } else {
        let t = seq![c] + s;
        assert(t.drop_last() =~= seq![c] + s.drop_last());
        assert(t.last() == s.last());
        lemma_digits_val_prepend(c, s.drop_last());
        let dc = digit_val(c);
        let p = pow10((s.len() - 1) as nat);
        assert(digits_val(t) == 10 * (dc * p + digits_val(s.drop_last())) + digit_val(s.last()));
        assert(10 * (dc * p + digits_val(s.drop_last())) == dc * (10 * p) + 10 * digits_val(
            s.drop_last(),
        )) by (nonlinear_arith);
        assert(pow10(s.len()) == 10 * p);
    }
}

/// One digit as text.
fn digit_str(d: u64) -> (r: &'static str)
    requires
        d < 10,
    ensures
        r@.len() == 1,
        is_digit(r@[0]),
        digit_val(r@[0]) == d,
{
    proof {
        reveal_strlit("0");
        reveal_strlit("1");
        reveal_strlit("2");
        reveal_strlit("3");
        reveal_strlit("4");
        reveal_strlit("5");
        reveal_strlit("6");
        reveal_strlit("7");
        reveal_strlit("8");
        reveal_strlit("9");
    }
    if d == 0 {
        "0"
    } else if d == 1 {
        "1"
    } else if d == 2 {
        "2"
    } else if d == 3 {
        "3"
    } else if d == 4 {
        "4"
    } else if d == 5 {
        "5"
    } else if d == 6 {
        "6"
    } else if d == 7 {
        "7"
    } else if d == 8 {
        "8"
    } else {
        "9"
    }
}

/// Renders an integer in decimal, exactly as parsing expects it back.
pub fn render_i64(n: i64) -> (r: String)
    ensures
        spec_parse_i64(r@) == Some(n),
{
    let neg = n < 0;
    let mut m: u64 = if n >= 0 {
        n as u64
    } else {
        (-(n as i128)) as u64
    };
    let ghost mag: int = if n >= 0 {
        n as int
    } else {
        -(n as int)
    };
    let mut digits = String::new();
    if m == 0 {
        proof {
            reveal_strlit("0");
        }
        digits = "0".to_owned();
        proof {
            assert(digits@ =~= seq!['0']);
            assert(digits@.drop_last() =~= Seq::<char>::empty());
            assert(digits_val(Seq::<char>::empty()) == 0);
            assert(digits@.last() == '0');
            assert(digits_val(digits@) == 0);
            assert(all_digits(digits@));
        }
    } else {
        while m > 0
            invariant
                all_digits(digits@),
                mag == m * pow10(digits@.len()) + digits_val(digits@),
                digits@.len() == 0 ==> m > 0,
                0 <= mag <= 0x8000_0000_0000_0000,
            decreases m,
        {
            let d = m % 10;
            let m2 = m / 10;
            let ds = digit_str(d);
            let prev = digits;
            digits = ds.to_owned().concat(prev.as_str());
            proof {
                assert(digits@ =~= seq![ds@[0]] + prev@);
                lemma_digits_val_prepend(ds@[0], prev@);
                assert((10 * (m2 as int) + d) * pow10(prev@.len()) == (m2 as int) * (10 * pow10(
                    prev@.len(),
                )) + d * pow10(prev@.len())) by (nonlinear_arith);
                assert(pow10(digits@.len()) == 10 * pow10(prev@.len()));
                assert(mag == m2 * pow10(digits@.len()) + digits_val(digits@));
                assert forall|j: int| 0 <= j < digits@.len() implies is_digit(
                    #[trigger] digits@[j],
                ) by {
                    if j >= 1 {
                        assert(digits@[j] == prev@[j - 1]);
                    }
                }
            }
            m = m2;
        }
    }
    proof {
        assert(digits@.len() > 0);
        assert(digits_val(digits@) == mag);
        assert(is_digit(digits@[0]));
        assert(digits@[0] as u32 >= 48);
        assert('+' as u32 == 43 && '-' as u32 == 45);
    }
    if neg {
        let s = "-".to_owned().concat(digits.as_str());
        proof {
            reveal_strlit("-");
            assert(s@[0] == '-');
            assert(s@.subrange(1, s@.len() as int) =~= digits@);
        }
        s
    } else {
        digits
    }
}

/// Splits a string at the first occurrence of a character: the parts
/// before and after it, the character itself dropped.
pub fn split_once_char(s: &str, c: char) -> (r: Option<(String, String)>)
    ensures
        match r {
            Some(p) => s@ == p.0@ + seq![c] + p.1@ && !p.0@.contains(c),
            None => !s@.contains(c),
        },
{
    let n = s.unicode_len();
    let mut k: usize = 0;
    while k < n && s.get_char(k) != c
        invariant
            0 <= k <= n,
            n == s@.len(),
            forall|j: int| 0 <= j < k ==> s@[j] != c,
        decreases n - k,
    {
        k = k + 1;
    }
    if k == n {
        proof {
            if s@.contains(c) {
                let w = choose|w: int| 0 <= w < s@.len() && s@[w] == c;
            }
        }
        return None;
    }
    let a = s.substring_char(0, k).to_owned();
    let b = s.substring_char(k + 1, n).to_owned();
    proof {
        assert(s@ =~= a@ + seq![c] + b@);
        if a@.contains(c) {
            let w = choose|w: int| 0 <= w < a@.len() && a@[w] == c;
            assert(s@[w] == c);
        }
    }
    Some((a, b))
}

/// A split is unambiguous: two splits of the same text at the same
/// character, neither of whose front parts contains it, are the same split.
pub proof fn lemma_split_unique(a: Seq<char>, b: Seq<char>, t: Seq<char>, u: Seq<char>, c: char)
    requires
        a + seq![c] + b == t + seq![c] + u,
        !a.contains(c),
        !t.contains(c),
    ensures
        a == t,
        b == u,
{
    let s = a + seq![c] + b;
    if a.len() < t.len() {
        assert(t[a.len() as int] == s[a.len() as int]);
        assert(s[a.len() as int] == c);
        assert(t.contains(c));
    } else if a.len() > t.len() {
        assert(a[t.len() as int] == s[t.len() as int]);
        assert((t + seq![c] + u)[t.len() as int] == c);
        assert(a.contains(c));
    }
    assert(a.len() == t.len());
    assert forall|i: int| 0 <= i < a.len() implies a[i] == t[i] by {
        assert((a + seq![c] + b)[i] == a[i]);
        assert((t + seq![c] + u)[i] == t[i]);
    }
    assert(a =~= t);
    assert((a + seq![c] + b).len() == a.len() + 1 + b.len());
    assert((t + seq![c] + u).len() == t.len() + 1 + u.len());
    assert(b.len() == u.len());
    assert forall|i: int| 0 <= i < b.len() implies b[i] == u[i] by {
        assert((a + seq![c] + b)[a.len() + 1 + i] == b[i]);
        assert((t + seq![c] + u)[t.len() + 1 + i] == u[i]);
    }
    assert(b =~= u);
}

/// Character equality of two strings.
pub fn str_eq(a: &str, b: &str) -> (r: bool)
    ensures
        r == (a@ == b@),
{
    let al = a.unicode_len();
    let bl = b.unicode_len();
    if al != bl {
        return false;
    }
    let mut i: usize = 0;
    while i < al
        invariant
            0 <= i <= al,
            al == a@.len(),
            al == b@.len(),
            forall|j: int| 0 <= j < i ==> a@[j] == b@[j],
        decreases al - i,
    {
        if a.get_char(i) != b.get_char(i) {
            return false;
        }
        i = i + 1;
    }
    proof {
        assert(a@ =~= b@);
    }
    true
}

} // verus!
