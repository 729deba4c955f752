/*!
Verified helpers for the small amount of text processing the converters
need: decimal parsing, separator splitting, class-token membership and
number formatting.

All specifications are stated over `Seq<char>` views, so the executable
functions work for arbitrary unicode input.
*/
use vstd::prelude::*;
use vstd::string::*;

verus! {

/// A decimal digit `'0'..='9'`.
pub open spec fn is_digit(c: char) -> bool {
    48 <= c as u32 && c as u32 <= 57
}

/// Numeric value of a digit; 0 for anything that is not a digit.
pub open spec fn digit_val(c: char) -> nat {
    if is_digit(c) {
        (c as u32 - 48) as nat
    } else {
        0
    }
}

/// Every character of `s` is a decimal digit.
pub open spec fn all_digits(s: Seq<char>) -> bool {
    forall|i: int| 0 <= i < s.len() ==> is_digit(#[trigger] s[i])
}

/// The number denoted by a digit string, most significant digit first.
pub open spec fn digits_val(s: Seq<char>) -> nat
    decreases s.len(),
{
    if s.len() == 0 {
        0
    } else {
        digits_val(s.drop_last()) * 10 + digit_val(s.last())
    }
}

/// What parsing an unsigned 32-bit number from decimal text yields:
/// the digits' value, if the text is a nonempty run of digits whose
/// value fits.
pub open spec fn parse_u32_spec(s: Seq<char>) -> Option<u32> {
    if s.len() > 0 && all_digits(s) && digits_val(s) <= u32::MAX {
        Some(digits_val(s) as u32)
    } else {
        None
    }
}

/// Extending a digit string never decreases its value.
proof fn lemma_digits_val_prefix_le(s: Seq<char>, k: int)
    requires
        0 <= k <= s.len(),
    ensures
        digits_val(s.subrange(0, k)) <= digits_val(s),
    decreases s.len() - k,
{
    if k == s.len() {
        assert(s.subrange(0, k) =~= s);
    } else {
        assert(s.subrange(0, k + 1).drop_last() =~= s.subrange(0, k));
        assert(digits_val(s.subrange(0, k + 1)) == digits_val(s.subrange(0, k)) * 10 + digit_val(
            s.subrange(0, k + 1).last(),
        ));
        assert(digits_val(s.subrange(0, k)) * 10 >= digits_val(s.subrange(0, k))) by (nonlinear_arith);
        lemma_digits_val_prefix_le(s, k + 1);
    }
}

/// Parses a nonempty run of decimal digits as a `u32`.
pub fn parse_u32(s: &str) -> (r: Option<u32>)
    ensures
        r == parse_u32_spec(s@),
{
    let n = s.unicode_len();
    if n == 0 {
        return None;
    }
    let mut acc: u32 = 0;
    let mut i: usize = 0;
    while i < n
        invariant
            0 <= i <= n,
            n == s@.len(),
            all_digits(s@.subrange(0, i as int)),
            acc == digits_val(s@.subrange(0, i as int)),
        decreases n - i,
    {
        let c = s.get_char(i);
        let cv = c as u32;
        if cv < 48 || cv > 57 {
            proof {
                assert(!is_digit(s@[i as int]));
                assert(!all_digits(s@));
            }
            return None;
        }
        let d: u32 = cv - 48;
        proof {
            assert(s@.subrange(0, (i + 1) as int).drop_last() =~= s@.subrange(0, i as int));
            assert(s@.subrange(0, (i + 1) as int).last() == s@[i as int]);
        }
        if acc > (u32::MAX - d) / 10 {
            proof {
                assert(acc * 10 + d > u32::MAX) by (nonlinear_arith)
                    requires acc > (u32::MAX - d) / 10 && d <= 9;
                assert(digits_val(s@.subrange(0, (i + 1) as int)) == acc * 10 + d);
                lemma_digits_val_prefix_le(s@, i + 1);
            }
            return None;
        }
        proof {
            assert(acc * 10 + d <= u32::MAX) by (nonlinear_arith)
                requires acc <= (u32::MAX - d) / 10 && d <= 9;
        }
        acc = acc * 10 + d;
        i += 1;
    }
    proof {
        assert(s@.subrange(0, n as int) =~= s@);
    }
    Some(acc)
}

/// Character-wise string equality, specified over the views.
pub fn str_eq(a: &str, b: &str) -> (r: bool)
    ensures
        r == (a@ == b@),
{
    let na = a.unicode_len();
    let nb = b.unicode_len();
    if na != nb {
        return false;
    }
    let mut i: usize = 0;
    while i < na
        invariant
            0 <= i <= na,
            na == a@.len(),
            na == b@.len(),
            forall|j: int| 0 <= j < i ==> a@[j] == b@[j],
        decreases na - i,
    {
        if a.get_char(i) != b.get_char(i) {
            return false;
        }
        i += 1;
    }
    proof {
        assert(a@ =~= b@);
    }
    true
}

/// Index of the first occurrence of `sep` in `s`, or `s.len()` if absent.
pub open spec fn index_of_first(s: Seq<char>, sep: char) -> int
    decreases s.len(),
{
    if s.len() == 0 {
        0
    } else if s[0] == sep {
        0
    } else {
        1 + index_of_first(s.drop_first(), sep)
    }
}

/// `index_of_first` really is the position of the first occurrence.
pub proof fn lemma_index_of_first(s: Seq<char>, sep: char)
    ensures
        0 <= index_of_first(s, sep) <= s.len(),
        index_of_first(s, sep) < s.len() ==> s[index_of_first(s, sep)] == sep,
        forall|j: int| 0 <= j < index_of_first(s, sep) ==> s[j] != sep,
    decreases s.len(),
{
    if s.len() > 0 && s[0] != sep {
        lemma_index_of_first(s.drop_first(), sep);
        assert forall|j: int| 0 <= j < index_of_first(s, sep) implies s[j] != sep by {
            if j > 0 {
                assert(s.drop_first()[j - 1] == s[j]);
            }
        }
    }
}

#[via_fn]
proof fn split_seq_decreases(s: Seq<char>, sep: char) {
    lemma_index_of_first(s, sep);
}

/// The segments of `s` between occurrences of `sep`, in order; empty
/// segments are kept, so the result always has one segment more than
/// `s` has separators.
pub open spec fn split_seq(s: Seq<char>, sep: char) -> Seq<Seq<char>>
    decreases s.len(),
    via split_seq_decreases
{
    let i = index_of_first(s, sep);
    if i == s.len() {
        seq![s]
    } else {
        seq![s.subrange(0, i)] + split_seq(s.subrange(i + 1, s.len() as int), sep)
    }
}

/// A sequence starting with `a` contains `x` iff `x` is `a` or occurs in
/// the rest.
pub proof fn lemma_cons_contains<A>(a: A, r: Seq<A>, x: A)
    ensures
        (seq![a] + r).contains(x) <==> (a == x || r.contains(x)),
{
    let c = seq![a] + r;
    if a == x {
        assert(c[0] == x);
        assert(c.contains(x));
    }
    if r.contains(x) {
        let i = choose|i: int| 0 <= i < r.len() && r[i] == x;
        assert(c[i + 1] == x);
        assert(c.contains(x));
    }
    if c.contains(x) {
        let i = choose|i: int| 0 <= i < c.len() && c[i] == x;
        if i == 0 {
            assert(a == x);
        } else {
            assert(r[i - 1] == x);
            assert(r.contains(x));
        }
    }
}

/// Position right after `from` of the first `sep` at or after `from`,
/// found by a linear scan.
fn scan_for(s: &str, sep: char, len: usize) -> (i: usize)
    requires
        len == s@.len(),
    ensures
        i == index_of_first(s@, sep),
{
    let mut i: usize = 0;
    while i < len && s.get_char(i) != sep
        invariant
            0 <= i <= len,
            len == s@.len(),
            forall|j: int| 0 <= j < i ==> s@[j] != sep,
        decreases len - i,
    {
        i += 1;
    }
    proof {
        lemma_index_of_first(s@, sep);
        let k = index_of_first(s@, sep);
        if k < i {
            assert(s@[k] == sep);
        }
        if i < k {
            assert(s@[i as int] != sep);
        }
    }
    i
}

/// The `n`-th segment of `s` split on `sep` (0-based), if there are
/// more than `n` segments.
pub fn split_nth(s: &str, sep: char, n: usize) -> (r: Option<String>)
    ensures
        match r {
            Some(x) => n < split_seq(s@, sep).len() && x@ == split_seq(s@, sep)[n as int],
            None => n >= split_seq(s@, sep).len(),
        },
    decreases s@.len(),
{
    let len = s.unicode_len();
    let i = scan_for(s, sep, len);
    proof {
        lemma_index_of_first(s@, sep);
    }
    if i == len {
        if n == 0 {
            Some(s.to_owned())
        } else {
            None
        }
    } else {
        if n == 0 {
            Some(s.substring_char(0, i).to_owned())
        } else {
            let rest = s.substring_char(i + 1, len);
            let r = split_nth(rest, sep, n - 1);
            proof {
                let parts = split_seq(s@, sep);
                let rparts = split_seq(rest@, sep);
                assert(parts == seq![s@.subrange(0, i as int)] + rparts);
                assert(parts.len() == 1 + rparts.len());
                if (n - 1) < rparts.len() {
                    assert(parts[n as int] == rparts[n - 1]);
                }
            }
            r
        }
    }
}

/// ASCII whitespace, as used to separate class tokens.
pub open spec fn is_ws(c: char) -> bool {
    c == ' ' || c == '\t' || c == '\n' || c == '\r' || c == '\u{c}'
}

/// Length of the leading run of non-whitespace characters.
pub open spec fn run_len(s: Seq<char>) -> int
    decreases s.len(),
{
    if s.len() == 0 {
        0
    } else if is_ws(s[0]) {
        0
    } else {
        1 + run_len(s.drop_first())
    }
}

/// `run_len` is in range, and marks the first whitespace position.
pub proof fn lemma_run_len(s: Seq<char>)
    ensures
        0 <= run_len(s) <= s.len(),
        run_len(s) < s.len() ==> is_ws(s[run_len(s)]),
        forall|j: int| 0 <= j < run_len(s) ==> !is_ws(s[j]),
    decreases s.len(),
{
    if s.len() > 0 && !is_ws(s[0]) {
        lemma_run_len(s.drop_first());
        assert forall|j: int| 0 <= j < run_len(s) implies !is_ws(s[j]) by {
            if j > 0 {
                assert(s.drop_first()[j - 1] == s[j]);
            }
        }
    }
}

#[via_fn]
proof fn ws_tokens_decreases(s: Seq<char>) {
    lemma_run_len(s);
}

/// The maximal runs of non-whitespace characters in `s`, in order.
/// This matches how an HTML class attribute is broken into tokens.
pub open spec fn ws_tokens(s: Seq<char>) -> Seq<Seq<char>>
    decreases s.len(),
    via ws_tokens_decreases
{
    if s.len() == 0 {
        seq![]
    } else if is_ws(s[0]) {
        ws_tokens(s.drop_first())
    } else {
        let k = run_len(s);
        seq![s.subrange(0, k)] + ws_tokens(s.subrange(k, s.len() as int))
    }
}

fn is_ws_exec(c: char) -> (r: bool)
    ensures
        r == is_ws(c),
{
    c == ' ' || c == '\t' || c == '\n' || c == '\r' || c == '\u{c}'
}

/// Whether `token` occurs in `s` when `s` is read as a list of
/// whitespace-separated tokens.
pub fn has_token(s: &str, token: &str) -> (r: bool)
    ensures
        r == ws_tokens(s@).contains(token@),
    decreases s@.len(),
{
    let len = s.unicode_len();
    if len == 0 {
        proof {
            assert(!ws_tokens(s@).contains(token@));
        }
        return false;
    }
    let c0 = s.get_char(0);
    if is_ws_exec(c0) {
        let rest = s.substring_char(1, len);
        proof {
            assert(rest@ =~= s@.drop_first());
        }
        return has_token(rest, token);
    }
    let mut k: usize = 1;
    while k < len && !is_ws_exec(s.get_char(k))
        invariant
            1 <= k <= len,
            len == s@.len(),
            forall|j: int| 0 <= j < k ==> !is_ws(s@[j]),
        decreases len - k,
    {
        k += 1;
    }
    proof {
        lemma_run_len(s@);
        let rl = run_len(s@);
        if rl < k {
            assert(is_ws(s@[rl]));
        }
        if k < rl {
            assert(!is_ws(s@[k as int]));
        }
    }
    let head = s.substring_char(0, k);
    let rest = s.substring_char(k, len);
    proof {
        lemma_cons_contains(s@.subrange(0, k as int), ws_tokens(rest@), token@);
    }
    if str_eq(head, token) {
        true
    } else {
        has_token(rest, token)
    }
}

/// What parsing a signed 64-bit number from decimal text yields: an
/// optional leading minus sign followed by a nonempty run of digits
/// whose magnitude is at most `i64::MAX`.
pub open spec fn parse_i64_spec(s: Seq<char>) -> Option<i64> {
    if s.len() > 0 && s[0] == '-' {
        let d = s.drop_first();
        if d.len() > 0 && all_digits(d) && digits_val(d) <= i64::MAX {
            Some((0 - digits_val(d)) as i64)
        } else {
            None
        }
    } else if s.len() > 0 && all_digits(s) && digits_val(s) <= i64::MAX {
        Some(digits_val(s) as i64)
    } else {
        None
    }
}

/// Parses the digit part shared by both signs of [`parse_i64`].
fn parse_i64_digits(s: &str) -> (r: Option<i64>)
    ensures
        match r {
            Some(v) => s@.len() > 0 && all_digits(s@) && digits_val(s@) <= i64::MAX && v
                == digits_val(s@),
            None => !(s@.len() > 0 && all_digits(s@) && digits_val(s@) <= i64::MAX),
        },
{
    let n = s.unicode_len();
    if n == 0 {
        return None;
    }
    let mut acc: i64 = 0;
    let mut i: usize = 0;
    while i < n
        invariant
            0 <= i <= n,
            n == s@.len(),
            all_digits(s@.subrange(0, i as int)),
            0 <= acc,
            acc == digits_val(s@.subrange(0, i as int)),
        decreases n - i,
    {
        let c = s.get_char(i);
        let cv = c as u32;
        if cv < 48 || cv > 57 {
            proof {
                assert(!is_digit(s@[i as int]));
                assert(!all_digits(s@));
            }
            return None;
        }
        let d: i64 = (cv - 48) as i64;
        proof {
            assert(s@.subrange(0, (i + 1) as int).drop_last() =~= s@.subrange(0, i as int));
            assert(s@.subrange(0, (i + 1) as int).last() == s@[i as int]);
        }
        if acc > (i64::MAX - d) / 10 {
            proof {
                assert(acc * 10 + d > i64::MAX) by (nonlinear_arith)
                    requires acc > (i64::MAX - d) / 10 && 0 <= d <= 9 && acc >= 0;
                assert(digits_val(s@.subrange(0, (i + 1) as int)) == acc * 10 + d);
                lemma_digits_val_prefix_le(s@, i + 1);
            }
            return None;
        }
        proof {
            assert(acc * 10 + d <= i64::MAX && acc * 10 >= 0) by (nonlinear_arith)
                requires acc <= (i64::MAX - d) / 10 && 0 <= d <= 9 && acc >= 0;
        }
        acc = acc * 10 + d;
        i += 1;
    }
    proof {
        assert(s@.subrange(0, n as int) =~= s@);
    }
    Some(acc)
}

/// Parses a signed 64-bit number from decimal text.
pub fn parse_i64(s: &str) -> (r: Option<i64>)
    ensures
        r == parse_i64_spec(s@),
{
    let n = s.unicode_len();
    if n > 0 && s.get_char(0) == '-' {
        let rest = s.substring_char(1, n);
        proof {
            assert(rest@ =~= s@.drop_first());
        }
        match parse_i64_digits(rest) {
            Some(v) => Some(-v),
            None => None,
        }
    } else {
        parse_i64_digits(s)
    }
}

/// Value of a fractional digit string in hundredths, truncating after
/// the second digit: `"3"` is 30, `"25"` is 25, `"257"` is 25.
pub open spec fn frac_hundredths(f: Seq<char>) -> nat {
    if f.len() == 0 {
        0
    } else if f.len() == 1 {
        digit_val(f[0]) * 10
    } else {
        digit_val(f[0]) * 10 + digit_val(f[1])
    }
}

/// What parsing decimal statistic text such as `"87.3"` yields: digits,
/// optionally followed by a dot and more digits, read to hundredths.
pub open spec fn parse_decimal_spec(s: Seq<char>) -> Option<crate::data::Decimal> {
    let i = index_of_first(s, '.');
    let whole = s.subrange(0, i);
    let frac = if i == s.len() {
        Seq::<char>::empty()
    } else {
        s.subrange(i + 1, s.len() as int)
    };
    if whole.len() > 0 && all_digits(whole) && all_digits(frac) && digits_val(whole) * 100
        + frac_hundredths(frac) <= u32::MAX {
        Some(
            crate::data::Decimal {
                hundredths: (digits_val(whole) * 100 + frac_hundredths(frac)) as u32,
            },
        )
    } else {
        None
    }
}

/// Parses decimal statistic text (`"87.3"`, `"1.25"`, `"70"`) into a
/// [`crate::data::Decimal`] count of hundredths.
#[verifier::loop_isolation(false)]
pub fn parse_decimal(s: &str) -> (r: Option<crate::data::Decimal>)
    ensures
        r == parse_decimal_spec(s@),
{
    let len = s.unicode_len();
    let i = scan_for(s, '.', len);
    proof {
        lemma_index_of_first(s@, '.');
    }
    let whole = s.substring_char(0, i);
    let w = match parse_u32(whole) {
        Some(w) => w,
        None => {
            proof {
                if all_digits(whole@) && whole@.len() > 0 {
                    assert(digits_val(whole@) > u32::MAX);
                    assert(digits_val(whole@) * 100 >= digits_val(whole@) * 1)
                        by (nonlinear_arith);
                }
            }
            return None;
        },
    };
    let frac = if i == len {
        ""
    } else {
        s.substring_char(i + 1, len)
    };
    proof {
        reveal_strlit("");
        if i == len {
            assert(frac@ =~= Seq::<char>::empty());
        }
    }
    let fln = frac.unicode_len();
    let mut j: usize = 0;
    while j < fln
        invariant
            0 <= j <= fln,
            fln == frac@.len(),
            forall|t: int| 0 <= t < j ==> is_digit(#[trigger] frac@[t]),
        decreases fln - j,
    {
        let cv = frac.get_char(j) as u32;
        if cv < 48 || cv > 57 {
            proof {
                assert(!is_digit(frac@[j as int]));
                assert(!all_digits(frac@)) by {
                    assert(0 <= j < frac@.len() && !is_digit(frac@[j as int]));
                }
            }
            return None;
        }
        j += 1;
    }
    let fr: u32 = if fln == 0 {
        0
    } else if fln == 1 {
        (frac.get_char(0) as u32 - 48) * 10
    } else {
        (frac.get_char(0) as u32 - 48) * 10 + (frac.get_char(1) as u32 - 48)
    };
    proof {
        assert(fr == frac_hundredths(frac@));
        assert(fr <= 99);
    }
    if w > (u32::MAX - fr) / 100 {
        proof {
            assert(w * 100 + fr > u32::MAX) by (nonlinear_arith)
                requires w > (u32::MAX - fr) / 100 && fr <= 99;
        }
        return None;
    }
    proof {
        assert(w * 100 + fr <= u32::MAX) by (nonlinear_arith)
            requires w <= (u32::MAX - fr) / 100 && fr <= 99;
    }
    Some(crate::data::Decimal { hundredths: w * 100 + fr })
}

/// A millisecond timestamp as whole seconds, truncating toward zero
/// exactly as machine integer division does: `1500` gives 1, `-1500`
/// gives -1.
pub open spec fn ms_to_secs_spec(ms: i64) -> i64 {
    if ms >= 0 {
        (ms / 1000) as i64
    } else {
        (0 - ((0 - ms) / 1000)) as i64
    }
}

/// Converts a millisecond timestamp to whole seconds, truncating
/// toward zero.
pub fn ms_to_secs(ms: i64) -> (r: i64)
    ensures
        r == ms_to_secs_spec(ms),
{
    if ms >= 0 {
        ((ms as u64) / 1000) as i64
    } else {
        let wide: i128 = ms as i128;
        let mag: u128 = (-wide) as u128;
        let q: u128 = mag / 1000;
        proof {
            assert(q <= mag) by (nonlinear_arith)
                requires q == mag / 1000;
        }
        -((q as u64) as i64)
    }
}

/// The character for one decimal digit.
pub open spec fn digit_char(d: nat) -> char {
    if d == 0 {
        '0'
    } else if d == 1 {
        '1'
    } else if d == 2 {
        '2'
    } else if d == 3 {
        '3'
    } else if d == 4 {
        '4'
    } else if d == 5 {
        '5'
    } else if d == 6 {
        '6'
    } else if d == 7 {
        '7'
    } else if d == 8 {
        '8'
    } else {
        '9'
    }
}

/// The decimal rendering of `n`, most significant digit first, with no
/// leading zeroes (except for `n == 0` itself).
pub open spec fn dec_str(n: nat) -> Seq<char>
    decreases n,
{
    if n < 10 {
        seq![digit_char(n)]
    } else {
        dec_str(n / 10) + seq![digit_char(n % 10)]
    }
}

fn digit_str(d: u32) -> (r: &'static str)
    requires
        d < 10,
    ensures
        r@ == seq![digit_char(d as nat)],
{
    let r: &'static str = match d {
        0 => "0",
        1 => "1",
        2 => "2",
        3 => "3",
        4 => "4",
        5 => "5",
        6 => "6",
        7 => "7",
        8 => "8",
        _ => "9",
    };
    proof {
        reveal_strlit("0");
        reveal_strlit("1");
        reveal_strlit("2");
        reveal_strlit("3");
        reveal_strlit("4");
        reveal_strlit("5");
        reveal_strlit("6");
        reveal_strlit("7");
        reveal_strlit("8");
        reveal_strlit("9");
        assert(r@ =~= seq![digit_char(d as nat)]);
    }
    r
}

/// Renders `x` in decimal.
pub fn u32_to_dec(x: u32) -> (r: String)
    ensures
        r@ == dec_str(x as nat),
    decreases x,
{
    if x < 10 {
        digit_str(x).to_owned()
    } else {
        let mut s = u32_to_dec(x / 10);
        s.append(digit_str(x % 10));
        s
    }
}

} // verus!
