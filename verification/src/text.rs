//! Character-sequence helpers shared by the domain types and the token
//! engine: decimal rendering of integers and scanning for single characters.

use vstd::prelude::*;

verus! {

/// True when `c` is an ASCII decimal digit.
pub open spec fn is_digit_char(c: char) -> bool {
    48 <= c as u32 <= 57
}

/// The digit character for a value below ten.
pub open spec fn digit_char(d: int) -> char
    recommends
        0 <= d < 10,
{
    if d == 0 {
        '0'
    } else if d == 1 {
        '1'
    } else if d == 2 {
        '2'
    } else if d == 3 {
        '3'
    } else if d == 4 {
        '4'
    } else if d == 5 {
        '5'
    } else if d == 6 {
        '6'
    } else if d == 7 {
        '7'
    } else if d == 8 {
        '8'
    } else {
        '9'
    }
}

pub proof fn lemma_digit_char_value(d: int)
    requires
        0 <= d < 10,
    ensures
        digit_char(d) as u32 == 48 + d,
        is_digit_char(digit_char(d)),
{
}

/// The decimal rendering of `n`, most significant digit first, without
/// leading zeros (`0` renders as the single digit `0`).
pub open spec fn dec_str(n: nat) -> Seq<char>
    decreases n,
{
    if n < 10 {
        seq![digit_char(n as int)]
    } else {
        dec_str(n / 10).push(digit_char((n % 10) as int))
    }
}

/// The value of a sequence of decimal digits, most significant first.
pub open spec fn dec_val(s: Seq<char>) -> nat
    decreases s.len(),
{
    if s.len() == 0 {
        0
    } else {
        dec_val(s.drop_last()) * 10 + if is_digit_char(s.last()) {
            (s.last() as u32 - 48) as nat
        } else {
            0
        }
    }
}

pub proof fn lemma_dec_val_of_dec_str(n: nat)
    ensures
        dec_val(dec_str(n)) == n,
    decreases n,
{
    if n < 10 {
        lemma_digit_char_value(n as int);
        assert(dec_str(n).last() == digit_char(n as int));
        assert(dec_str(n).drop_last() =~= Seq::<char>::empty());
        assert(dec_val(Seq::<char>::empty()) == 0);
    } else {
        lemma_dec_val_of_dec_str(n / 10);
        lemma_digit_char_value((n % 10) as int);
        assert(dec_str(n).last() == digit_char((n % 10) as int));
        assert(dec_str(n).drop_last() =~= dec_str(n / 10));
        assert(dec_val(dec_str(n)) == dec_val(dec_str(n / 10)) * 10 + (n % 10));
        assert((n / 10) * 10 + n % 10 == n) by (nonlinear_arith);
    }
}

pub proof fn lemma_dec_str_injective(a: nat, b: nat)
    requires
        dec_str(a) == dec_str(b),
    ensures
        a == b,
{
    lemma_dec_val_of_dec_str(a);
    lemma_dec_val_of_dec_str(b);
}

pub proof fn lemma_dec_str_all_digits(n: nat)
    ensures
        dec_str(n).len() >= 1,
        forall|i: int| 0 <= i < dec_str(n).len() ==> is_digit_char(#[trigger] dec_str(n)[i]),
    decreases n,
{
    if n < 10 {
        lemma_digit_char_value(n as int);
    } else {
        lemma_dec_str_all_digits(n / 10);
        lemma_digit_char_value((n % 10) as int);
    }
}

/// The one-character string for a digit value.
pub fn digit_str(d: u64) -> (r: &'static str)
    requires
        d < 10,
    ensures
        r@ =~= seq![digit_char(d as int)],
{
    proof {
        reveal_strlit("0");
        reveal_strlit("1");
        reveal_strlit("2");
        reveal_strlit("3");
        reveal_strlit("4");
        reveal_strlit("5");
        reveal_strlit("6");
        reveal_strlit("7");
        reveal_strlit("8");
        reveal_strlit("9");
    }
    if d == 0 {
        "0"
    } else if d == 1 {
        "1"
    } else if d == 2 {
        "2"
    } else if d == 3 {
        "3"
    } else if d == 4 {
        "4"
    } else if d == 5 {
        "5"
    } else if d == 6 {
        "6"
    } else if d == 7 {
        "7"
    } else if d == 8 {
        "8"
    } else {
        "9"
    }
}

/// Renders `n` in decimal.
pub fn u64_to_dec(n: u64) -> (r: String)
    ensures
        r@ == dec_str(n as nat),
{
    let mut digits: Vec<u64> = Vec::new();
    let mut m = n;
    if m == 0 {
        proof {
            reveal_strlit("0");
        }
        return String::from_str("0");
    }
    // Collect the digits, least significant first.
    while m > 0
        invariant
            m > 0 ==> dec_str(n as nat) == dec_str(m as nat) + rev_digit_chars(digits@),
            m == 0 ==> dec_str(n as nat) == rev_digit_chars(digits@),
            forall|i: int| 0 <= i < digits@.len() ==> #[trigger] digits@[i] < 10,
        decreases m,
    {
        let d = m % 10;
        let ghost old_digits = digits@;
        let ghost old_m = m as nat;
        digits.push(d);
        m = m / 10;
        proof {
            assert(rev_digit_chars(digits@) =~= seq![digit_char(d as int)] + rev_digit_chars(
                old_digits,
            )) by {
                assert(digits@.drop_last() =~= old_digits);
            }
            if old_m < 10 {
                assert(dec_str(old_m) =~= seq![digit_char(d as int)]);
            } else {
                assert(dec_str(old_m) =~= dec_str(old_m / 10).push(digit_char(d as int)));
                assert(dec_str(old_m / 10).push(digit_char(d as int)) =~= dec_str(old_m / 10)
                    + seq![digit_char(d as int)]);
            }
            assert(dec_str(n as nat) =~= (if m > 0 {
                dec_str(m as nat)
            } else {
                Seq::<char>::empty()
            }) + rev_digit_chars(digits@));
        }
    }
    // Emit them most significant first.
    let mut out = String::new();
    let total = digits.len();
    proof {
        lemma_rev_digit_chars_len(digits@);
    }
    let mut j: usize = 0;
    while j < total
        invariant
            total == digits@.len(),
            j <= total,
            dec_str(n as nat) == rev_digit_chars(digits@),
            dec_str(n as nat).len() == total,
            forall|i: int| 0 <= i < digits@.len() ==> #[trigger] digits@[i] < 10,
            out@ =~= dec_str(n as nat).subrange(0, j as int),
        decreases total - j,
    {
        let d = digits[total - 1 - j];
        out.append(digit_str(d));
        proof {
            lemma_rev_digit_chars_index(digits@, j as int);
            assert(out@ =~= dec_str(n as nat).subrange(0, j as int + 1));
        }
        j = j + 1;
    }
    proof {
        assert(out@ =~= dec_str(n as nat));
    }
    out
}

/// The digit characters of `ds` in reverse order (`ds` holds a number's
/// digits least significant first).
pub open spec fn rev_digit_chars(ds: Seq<u64>) -> Seq<char>
    decreases ds.len(),
{
    if ds.len() == 0 {
        Seq::empty()
    } else {
        seq![digit_char(ds.last() as int)] + rev_digit_chars(ds.drop_last())
    }
}

proof fn lemma_rev_digit_chars_len(ds: Seq<u64>)
    ensures
        rev_digit_chars(ds).len() == ds.len(),
    decreases ds.len(),
{
    if ds.len() > 0 {
        lemma_rev_digit_chars_len(ds.drop_last());
    }
}

proof fn lemma_rev_digit_chars_index(ds: Seq<u64>, j: int)
    requires
        0 <= j < ds.len(),
    ensures
        rev_digit_chars(ds).len() == ds.len(),
        rev_digit_chars(ds)[j] == digit_char(ds[ds.len() - 1 - j] as int),
    decreases ds.len(),
{
    lemma_rev_digit_chars_len(ds);
    if j == 0 {
        lemma_rev_digit_chars_len(ds.drop_last());
    } else {
        lemma_rev_digit_chars_index(ds.drop_last(), j - 1);
    }
}

/// The JSON string escaping of `s`: quote and backslash get a leading
/// backslash, every other character stands unchanged.
pub open spec fn esc(s: Seq<char>) -> Seq<char>
    decreases s.len(),
{
    if s.len() == 0 {
        Seq::empty()
    } else {
        (if s[0] == '"' || s[0] == '\\' {
            seq!['\\', s[0]]
        } else {
            seq![s[0]]
        }) + esc(s.drop_first())
    }
}

/// The inverse of `esc`: a backslash takes the following character
/// literally.
pub open spec fn unesc(s: Seq<char>) -> Seq<char>
    decreases s.len(),
{
    if s.len() == 0 {
        Seq::empty()
    } else if s[0] == '\\' && s.len() >= 2 {
        seq![s[1]] + unesc(s.skip(2))
    } else {
        seq![s[0]] + unesc(s.drop_first())
    }
}

pub proof fn lemma_unesc_esc(s: Seq<char>)
    ensures
        unesc(esc(s)) == s,
    decreases s.len(),
{
    if s.len() == 0 {
    } else {
        lemma_unesc_esc(s.drop_first());
        let rest = esc(s.drop_first());
        if s[0] == '"' || s[0] == '\\' {
            let e = seq!['\\', s[0]] + rest;
            assert(esc(s) == e);
            assert(e[0] == '\\' && e.len() >= 2);
            assert(e.skip(2) =~= rest);
            assert(unesc(e) =~= seq![s[0]] + unesc(rest));
            assert(seq![s[0]] + s.drop_first() =~= s);
        } else {
            let e = seq![s[0]] + rest;
            assert(esc(s) == e);
            assert(e[0] != '\\');
            assert(e.drop_first() =~= rest);
            assert(unesc(e) =~= seq![s[0]] + unesc(rest));
            assert(seq![s[0]] + s.drop_first() =~= s);
        }
    }
}

pub proof fn lemma_esc_concat(a: Seq<char>, b: Seq<char>)
    ensures
        esc(a + b) == esc(a) + esc(b),
    decreases a.len(),
{
    if a.len() == 0 {
        assert(a + b =~= b);
        assert(esc(a) + esc(b) =~= esc(b));
    } else {
        lemma_esc_concat(a.drop_first(), b);
        assert((a + b).drop_first() =~= a.drop_first() + b);
        assert((a + b)[0] == a[0]);
        if a[0] == '"' || a[0] == '\\' {
            assert(esc(a + b) =~= seq!['\\', a[0]] + (esc(a.drop_first()) + esc(b)));
            assert(esc(a) + esc(b) =~= seq!['\\', a[0]] + (esc(a.drop_first()) + esc(b)));
        } else {
            assert(esc(a + b) =~= seq![a[0]] + (esc(a.drop_first()) + esc(b)));
            assert(esc(a) + esc(b) =~= seq![a[0]] + (esc(a.drop_first()) + esc(b)));
        }
    }
}

/// Escapes `s` for embedding in a JSON string literal.
pub fn json_escape(s: &str) -> (r: String)
    ensures
        r@ == esc(s@),
{
    let n = s.unicode_len();
    let mut out = String::new();
    let mut i: usize = 0;
    while i < n
        invariant
            i <= n,
            n == s@.len(),
            out@ == esc(s@.subrange(0, i as int)),
        decreases n - i,
    {
        let c = s.get_char(i);
        if c == '"' || c == '\\' {
            out.append("\\");
        }
        out.append(s.substring_char(i, i + 1));
        proof {
            reveal_strlit("\\");
            let pre = s@.subrange(0, i as int);
            let one = seq![c];
            lemma_esc_concat(pre, one);
            assert(one[0] == c);
            assert(one.drop_first() =~= Seq::<char>::empty());
            assert(esc(Seq::<char>::empty()) =~= Seq::<char>::empty());
            assert(esc(one.drop_first()) =~= Seq::<char>::empty());
            assert(s@.subrange(i as int, i as int + 1) =~= one);
            assert(pre + one =~= s@.subrange(0, i as int + 1));
            if c == '"' || c == '\\' {
                assert(esc(one) =~= seq!['\\', c]);
                assert(out@ =~= esc(pre) + esc(one));
            } else {
                assert(esc(one) =~= seq![c]);
                assert(out@ =~= esc(pre) + esc(one));
            }
        }
        i = i + 1;
    }
    proof {
        assert(s@.subrange(0, n as int) =~= s@);
    }
    out
}

/// Undoes `esc` on the region `from..to` of `s`.
pub fn json_unescape(s: &str, from: usize, to: usize) -> (r: String)
    requires
        from <= to <= s@.len(),
    ensures
        r@ == unesc(s@.subrange(from as int, to as int)),
{
    let ghost region = s@.subrange(from as int, to as int);
    let mut out = String::new();
    let mut i = from;
    while i < to
        invariant
            from <= i <= to <= s@.len(),
            region == s@.subrange(from as int, to as int),
            unesc(region) == out@ + unesc(s@.subrange(i as int, to as int)),
        decreases to - i,
    {
        let ghost rest = s@.subrange(i as int, to as int);
        let c = s.get_char(i);
        proof {
            assert(rest[0] == c);
        }
        if c == '\\' && i + 1 < to {
            out.append(s.substring_char(i + 1, i + 2));
            proof {
                assert(rest.len() >= 2);
                assert(rest[1] == s@[i as int + 1]);
                assert(rest.skip(2) =~= s@.subrange(i as int + 2, to as int));
                assert(s@.subrange(i as int + 1, i as int + 2) =~= seq![s@[i as int + 1]]);
                assert(unesc(rest) =~= seq![rest[1]] + unesc(rest.skip(2)));
            }
            i = i + 2;
        } else {
            out.append(s.substring_char(i, i + 1));
            proof {
                if c == '\\' {
                    assert(rest.len() < 2);
                }
                assert(rest.drop_first() =~= s@.subrange(i as int + 1, to as int));
                assert(s@.subrange(i as int, i as int + 1) =~= seq![c]);
                assert(unesc(rest) =~= seq![c] + unesc(rest.drop_first()));
            }
            i = i + 1;
        }
    }
    proof {
        assert(s@.subrange(to as int, to as int) =~= Seq::<char>::empty());
        assert(out@ =~= unesc(region));
    }
    out
}

/// The position of the first quote at or after `p` that is not taken
/// literally by a preceding backslash.
pub open spec fn quote_scan(s: Seq<char>, p: int) -> Option<int>
    recommends
        0 <= p,
    decreases s.len() - p,
{
    if p < 0 || p >= s.len() {
        None
    } else if s[p] == '\\' {
        if p + 2 <= s.len() {
            quote_scan(s, p + 2)
        } else {
            None
        }
    } else if s[p] == '"' {
        Some(p)
    } else {
        quote_scan(s, p + 1)
    }
}

/// Finds the first unescaped quote at or after `from`.
pub fn find_unescaped_quote(s: &str, from: usize) -> (r: Option<usize>)
    requires
        from <= s@.len(),
    ensures
        match r {
            Some(i) => quote_scan(s@, from as int) == Some(i as int) && from <= i < s@.len(),
            None => quote_scan(s@, from as int) is None,
        },
{
    let n = s.unicode_len();
    let mut i = from;
    loop
        invariant
            from <= i <= n,
            n == s@.len(),
            quote_scan(s@, from as int) == quote_scan(s@, i as int),
        ensures
            from <= i <= n,
            quote_scan(s@, from as int) == quote_scan(s@, i as int),
        decreases n - i,
    {
        if i >= n {
            return None;
        }
        let c = s.get_char(i);
        if c == '\\' {
            if n - i < 2 {
                return None;
            }
            i = i + 2;
        } else if c == '"' {
            return Some(i);
        } else {
            i = i + 1;
        }
    }
}

/// The scanner passes over an escaped region whole: started where `esc(sub)`
/// begins, it stops exactly at the quote that follows it.
pub proof fn lemma_quote_scan_esc(s: Seq<char>, pre: int, sub: Seq<char>)
    requires
        0 <= pre,
        pre + esc(sub).len() < s.len(),
        s.subrange(pre, pre + esc(sub).len() as int) == esc(sub),
        s[pre + esc(sub).len()] == '"',
    ensures
        quote_scan(s, pre) == Some(pre + esc(sub).len() as int),
    decreases sub.len(),
{
    if sub.len() == 0 {
        assert(s[pre] == '"');
    } else {
        let rest = sub.drop_first();
        let k = esc(sub).len() as int;
        let kr = esc(rest).len() as int;
        if sub[0] == '"' || sub[0] == '\\' {
            assert(esc(sub) == seq!['\\', sub[0]] + esc(rest));
            assert(s[pre] == esc(sub)[0]) by {
                assert(s.subrange(pre, pre + k)[0] == s[pre]);
            }
            assert(s[pre] == '\\');
            assert(s.subrange(pre + 2, pre + 2 + kr) =~= esc(rest)) by {
                assert forall|x: int| 0 <= x < kr implies s[pre + 2 + x] == esc(rest)[x] by {
                    assert(s.subrange(pre, pre + k)[2 + x] == s[pre + 2 + x]);
                    assert(esc(sub)[2 + x] == esc(rest)[x]);
                }
            }
            lemma_quote_scan_esc(s, pre + 2, rest);
        } else {
            assert(esc(sub) == seq![sub[0]] + esc(rest));
            assert(s[pre] == esc(sub)[0]) by {
                assert(s.subrange(pre, pre + k)[0] == s[pre]);
            }
            assert(s[pre] == sub[0]);
            assert(s[pre] != '\\' && s[pre] != '"');
            assert(s.subrange(pre + 1, pre + 1 + kr) =~= esc(rest)) by {
                assert forall|x: int| 0 <= x < kr implies s[pre + 1 + x] == esc(rest)[x] by {
                    assert(s.subrange(pre, pre + k)[1 + x] == s[pre + 1 + x]);
                    assert(esc(sub)[1 + x] == esc(rest)[x]);
                }
            }
            lemma_quote_scan_esc(s, pre + 1, rest);
        }
    }
}

pub proof fn lemma_dec_val_prefix_le(s: Seq<char>, i: int)
    requires
        0 <= i <= s.len(),
    ensures
        dec_val(s.subrange(0, i)) <= dec_val(s),
    decreases s.len() - i,
{
    if i == s.len() {
        assert(s.subrange(0, i) =~= s);
    } else {
        lemma_dec_val_prefix_le(s, i + 1);
        let t = s.subrange(0, i + 1);
        assert(t.drop_last() =~= s.subrange(0, i));
        assert(dec_val(t) == dec_val(s.subrange(0, i)) * 10 + if is_digit_char(t.last()) {
            (t.last() as u32 - 48) as nat
        } else {
            0
        });
        assert(dec_val(s.subrange(0, i)) * 10 >= dec_val(s.subrange(0, i))) by (nonlinear_arith);
    }
}

/// Reads the region `from..to` of `s` as a decimal number. Returns the
/// value of the canonical rendering of any `u64` found there.
pub fn parse_dec(s: &str, from: usize, to: usize) -> (r: Option<u64>)
    requires
        from <= to <= s@.len(),
    ensures
        forall|v: u64| s@.subrange(from as int, to as int) == dec_str(v as nat) ==> r == Some(v),
{
    let ghost region = s@.subrange(from as int, to as int);
    if from == to {
        proof {
            assert forall|v: u64| region == dec_str(v as nat) implies false by {
                lemma_dec_str_all_digits(v as nat);
            }
        }
        return None;
    }
    let mut acc: u64 = 0;
    let mut i = from;
    while i < to
        invariant
            from <= i <= to <= s@.len(),
            region == s@.subrange(from as int, to as int),
            acc as nat == dec_val(region.subrange(0, i - from)),
        decreases to - i,
    {
        let c = s.get_char(i);
        let u = c as u32;
        if u < 48 || u > 57 {
            proof {
                assert forall|v: u64| region == dec_str(v as nat) implies false by {
                    lemma_dec_str_all_digits(v as nat);
                    assert(is_digit_char(region[i - from]));
                }
            }
            return None;
        }
        let d = (u - 48) as u64;
        if acc > (u64::MAX - d) / 10 {
            proof {
                assert forall|v: u64| region == dec_str(v as nat) implies false by {
                    lemma_dec_str_all_digits(v as nat);
                    lemma_dec_val_of_dec_str(v as nat);
                    lemma_dec_val_prefix_le(region, i - from + 1);
                    let t = region.subrange(0, i - from + 1);
                    assert(t.drop_last() =~= region.subrange(0, i - from));
                    assert(t.last() == region[i - from]);
                    assert(is_digit_char(t.last()));
                    assert(dec_val(t) == acc as nat * 10 + d);
                    assert(acc as nat * 10 + d <= v as nat);
                    assert(acc as nat <= ((u64::MAX - d) / 10) as nat) by (nonlinear_arith)
                        requires
                            acc as nat * 10 + d <= u64::MAX as nat,
                            d <= 9,
                    ;
                }
            }
            return None;
        }
        proof {
            assert(acc as nat * 10 + d <= u64::MAX as nat) by (nonlinear_arith)
                requires
                    acc <= (u64::MAX - d) / 10,
                    d <= 9,
            ;
            let t = region.subrange(0, i - from + 1);
            assert(t.drop_last() =~= region.subrange(0, i - from));
            assert(t.last() == region[i - from]);
            assert(is_digit_char(t.last()));
            assert(dec_val(t) == dec_val(region.subrange(0, i - from)) * 10 + d);
        }
        acc = acc * 10 + d;
        i = i + 1;
    }
    proof {
        assert(region.subrange(0, to - from) =~= region);
        assert forall|v: u64| region == dec_str(v as nat) implies Some(acc) == Some(v) by {
            lemma_dec_val_of_dec_str(v as nat);
        }
    }
    Some(acc)
}

/// Character-by-character string equality.
pub fn str_eq(a: &str, b: &str) -> (r: bool)
    ensures
        r == (a@ == b@),
{
    let na = a.unicode_len();
    let nb = b.unicode_len();
    if na != nb {
        return false;
    }
    let mut i: usize = 0;
    while i < na
        invariant
            i <= na,
            na == a@.len() == b@.len(),
            forall|j: int| 0 <= j < i ==> a@[j] == b@[j],
        decreases na - i,
    {
        if a.get_char(i) != b.get_char(i) {
            return false;
        }
        i = i + 1;
    }
    proof {
        assert(a@ =~= b@);
    }
    true
}

/// Finds the first occurrence of `c` in `s` at or after `from`.
pub fn find_char(s: &str, from: usize, c: char) -> (r: Option<usize>)
    requires
        from <= s@.len(),
    ensures
        match r {
            Some(i) => from <= i < s@.len() && s@[i as int] == c && forall|j: int|
                from <= j < i ==> s@[j] != c,
            None => forall|j: int| from <= j < s@.len() ==> s@[j] != c,
        },
{
    let n = s.unicode_len();
    let mut i = from;
    while i < n
        invariant
            from <= i <= n,
            n == s@.len(),
            forall|j: int| from <= j < i ==> s@[j] != c,
        decreases n - i,
    {
        if s.get_char(i) == c {
            return Some(i);
        }
        i = i + 1;
    }
    None
}

/// Finds the last occurrence of `c` in `s` within `from..to`.
pub fn rfind_char(s: &str, from: usize, to: usize, c: char) -> (r: Option<usize>)
    requires
        from <= to <= s@.len(),
    ensures
        match r {
            Some(i) => from <= i < to && s@[i as int] == c && forall|j: int|
                i < j < to ==> s@[j] != c,
            None => forall|j: int| from <= j < to ==> s@[j] != c,
        },
{
    let mut i = to;
    while i > from
        invariant
            from <= i <= to <= s@.len(),
            forall|j: int| i <= j < to ==> s@[j] != c,
        decreases i,
    {
        i = i - 1;
        if s.get_char(i) == c {
            return Some(i);
        }
    }
    None
}

} // verus!
