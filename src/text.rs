//! Character-level helpers: whitespace trimming, comma splitting and
//! decimal number parsing over sequences of characters.
use vstd::prelude::*;

verus! {

/// The characters that `char::is_whitespace` accepts (Unicode White_Space).
pub open spec fn white(c: char) -> bool {
    ('\u{9}' <= c && c <= '\u{d}') || c == ' ' || c == '\u{85}' || c == '\u{a0}'
        || c == '\u{1680}' || ('\u{2000}' <= c && c <= '\u{200a}') || c == '\u{2028}'
        || c == '\u{2029}' || c == '\u{202f}' || c == '\u{205f}' || c == '\u{3000}'
}

pub open spec fn trim_start(s: Seq<char>) -> Seq<char>
    decreases s.len(),
{
    if s.len() > 0 && white(s[0]) {
        trim_start(s.drop_first())
    } else {
        s
    }
}

pub open spec fn trim_end(s: Seq<char>) -> Seq<char>
    decreases s.len(),
{
    if s.len() > 0 && white(s.last()) {
        trim_end(s.drop_last())
    } else {
        s
    }
}

/// Leading and trailing whitespace removed.
pub open spec fn trim(s: Seq<char>) -> Seq<char> {
    trim_end(trim_start(s))
}

/// Empty, or whitespace only.
pub open spec fn blank(s: Seq<char>) -> bool {
    trim(s).len() == 0
}

/// The pieces between commas, in order; `n` commas give `n + 1` pieces.
pub open spec fn split_commas(s: Seq<char>) -> Seq<Seq<char>>
    decreases s.len(),
{
    if s.len() == 0 {
        seq![Seq::<char>::empty()]
    } else {
        let p = split_commas(s.drop_last());
        if s.last() == ',' {
            p.push(Seq::<char>::empty())
        } else {
            p.update(p.len() - 1, p.last().push(s.last()))
        }
    }
}

/// Each piece trimmed, the empty ones dropped, the order kept.
pub open spec fn trimmed_nonempty(parts: Seq<Seq<char>>) -> Seq<Seq<char>>
    decreases parts.len(),
{
    if parts.len() == 0 {
        Seq::<Seq<char>>::empty()
    } else {
        let r = trimmed_nonempty(parts.drop_last());
        if trim(parts.last()).len() > 0 {
            r.push(trim(parts.last()))
        } else {
            r
        }
    }
}

/// A comma-separated list read as its trimmed, non-empty entries.
pub open spec fn list_entries(s: Seq<char>) -> Seq<Seq<char>> {
    trimmed_nonempty(split_commas(s))
}

/// A text that neither starts nor ends with whitespace is blank only when empty.
pub proof fn lemma_not_blank(s: Seq<char>)
    requires
        s.len() > 0,
        !white(s[0]),
        !white(s.last()),
    ensures
        trim(s) == s,
        !blank(s),
{
    assert(trim_start(s) == s);
    assert(trim_end(s) == s);
}

/// Trimming twice changes nothing.
pub proof fn lemma_trim_idempotent(s: Seq<char>)
    ensures
        trim(trim(s)) == trim(s),
{
    let t = trim_start(s);
    lemma_trim_start_shape(s);
    lemma_trim_end_shape(t);
    let u = trim(s);
    if u.len() > 0 {
        assert(u[0] == t.subrange(0, u.len() as int)[0]);
        lemma_not_blank(u);
    }
}

proof fn lemma_trim_start_shape(s: Seq<char>)
    ensures
        trim_start(s).len() > 0 ==> !white(trim_start(s)[0]),
    decreases s.len(),
{
    if s.len() > 0 && white(s[0]) {
        lemma_trim_start_shape(s.drop_first());
    }
}

proof fn lemma_trim_end_shape(s: Seq<char>)
    ensures
        trim_end(s).len() <= s.len(),
        trim_end(s).len() > 0 ==> !white(trim_end(s).last()),
        trim_end(s) == s.subrange(0, trim_end(s).len() as int),
    decreases s.len(),
{
    if s.len() > 0 && white(s.last()) {
        lemma_trim_end_shape(s.drop_last());
        assert(trim_end(s) == trim_end(s.drop_last()));
        assert(s.drop_last().subrange(0, trim_end(s).len() as int) =~= s.subrange(0, trim_end(s).len() as int));
    } else {
        assert(s.subrange(0, s.len() as int) =~= s);
    }
}

/// Every entry of a list is a trimmed text that is not blank.
pub proof fn lemma_entries_not_blank(s: Seq<char>)
    ensures
        forall|i: int| 0 <= i < list_entries(s).len() ==> !blank(#[trigger] list_entries(s)[i]),
        forall|i: int| 0 <= i < list_entries(s).len() ==> trim(#[trigger] list_entries(s)[i]) == list_entries(s)[i],
{
    lemma_kept_trimmed(split_commas(s));
}

proof fn lemma_kept_trimmed(parts: Seq<Seq<char>>)
    ensures
        forall|i: int| 0 <= i < trimmed_nonempty(parts).len() ==> !blank(#[trigger] trimmed_nonempty(parts)[i]),
        forall|i: int| 0 <= i < trimmed_nonempty(parts).len() ==> trim(#[trigger] trimmed_nonempty(parts)[i]) == trimmed_nonempty(parts)[i],
    decreases parts.len(),
{
    if parts.len() > 0 {
        lemma_kept_trimmed(parts.drop_last());
        lemma_trim_idempotent(parts.last());
        let r = trimmed_nonempty(parts.drop_last());
        let x = trim(parts.last());
        assert forall|i: int| 0 <= i < trimmed_nonempty(parts).len() implies
            !blank(#[trigger] trimmed_nonempty(parts)[i]) && trim(trimmed_nonempty(parts)[i]) == trimmed_nonempty(parts)[i] by {
            if i < r.len() {
                assert(trimmed_nonempty(parts)[i] == r[i]);
            }
        }
    }
}

proof fn lemma_white_trims_away(s: Seq<char>)
    requires
        forall|i: int| 0 <= i < s.len() ==> white(#[trigger] s[i]),
    ensures
        trim(s).len() == 0,
    decreases s.len(),
{
    if s.len() > 0 {
        lemma_white_trims_away(s.drop_first());
        assert(trim_start(s) == trim_start(s.drop_first()));
    } else {
        assert(trim_start(s) == s);
    }
}

proof fn lemma_split_white(s: Seq<char>)
    requires
        forall|i: int| 0 <= i < s.len() ==> #[trigger] s[i] == ',' || white(s[i]),
    ensures
        forall|k: int, j: int| 0 <= k < split_commas(s).len() && 0 <= j < split_commas(s)[k].len()
            ==> white(#[trigger] split_commas(s)[k][j]),
    decreases s.len(),
{
    if s.len() > 0 {
        let t = s.drop_last();
        assert forall|i: int| 0 <= i < t.len() implies #[trigger] t[i] == ',' || white(t[i]) by {
            assert(t[i] == s[i]);
        }
        lemma_split_white(t);
        lemma_split_nonempty(t);
        let p = split_commas(t);
        assert(s.last() == s[s.len() - 1]);
        if s.last() != ',' {
            let q = p.update(p.len() - 1, p.last().push(s.last()));
            assert forall|k: int, j: int| 0 <= k < q.len() && 0 <= j < q[k].len() implies white(#[trigger] q[k][j]) by {
                if k < p.len() - 1 {
                    assert(q[k] == p[k]);
                } else if j < p.last().len() {
                    assert(q[k][j] == p[p.len() - 1][j]);
                }
            }
        } else {
            let q = p.push(Seq::<char>::empty());
            assert forall|k: int, j: int| 0 <= k < q.len() && 0 <= j < q[k].len() implies white(#[trigger] q[k][j]) by {
                assert(q[k] == p[k]);
            }
        }
    }
}

proof fn lemma_white_parts_drop(parts: Seq<Seq<char>>)
    requires
        forall|k: int, j: int| 0 <= k < parts.len() && 0 <= j < parts[k].len() ==> white(#[trigger] parts[k][j]),
    ensures
        trimmed_nonempty(parts).len() == 0,
    decreases parts.len(),
{
    if parts.len() > 0 {
        let d = parts.drop_last();
        assert forall|k: int, j: int| 0 <= k < d.len() && 0 <= j < d[k].len() implies white(#[trigger] d[k][j]) by {
            assert(d[k] == parts[k]);
        }
        lemma_white_parts_drop(d);
        let l = parts.last();
        assert forall|j: int| 0 <= j < l.len() implies white(#[trigger] l[j]) by {
            assert(l[j] == parts[parts.len() - 1][j]);
        }
        lemma_white_trims_away(l);
    }
}

/// A text of nothing but commas and whitespace lists no entry.
pub proof fn lemma_separators_give_nothing(s: Seq<char>)
    requires
        forall|i: int| 0 <= i < s.len() ==> #[trigger] s[i] == ',' || white(s[i]),
    ensures
        list_entries(s).len() == 0,
{
    lemma_split_white(s);
    lemma_white_parts_drop(split_commas(s));
}

pub open spec fn is_digit(c: char) -> bool {
    '0' <= c && c <= '9'
}

pub open spec fn all_digits(s: Seq<char>) -> bool {
    forall|i: int| 0 <= i < s.len() ==> is_digit(#[trigger] s[i])
}

/// The number that a string of decimal digits writes.
pub open spec fn digits_value(s: Seq<char>) -> nat
    decreases s.len(),
{
    if s.len() == 0 {
        0
    } else {
        digits_value(s.drop_last()) * 10 + ((s.last() as nat) - ('0' as nat)) as nat
    }
}

/// A whole number written in decimal digits, at most `max`.
pub open spec fn uint_of(s: Seq<char>, max: nat) -> Option<nat> {
    if s.len() > 0 && all_digits(s) && digits_value(s) <= max {
        Some(digits_value(s))
    } else {
        None
    }
}

/// The largest whole amount whose hundredths still fit in a `u64`.
pub const MAX_WHOLE: u64 = 184467440737095516;

/// An amount written as whole units with an optional decimal point and one or
/// two decimal places (`"500"`, `"499.9"`, `"499.95"`), in hundredths.
pub open spec fn cents_of(s: Seq<char>) -> Option<nat> {
    let n = s.len() as int;
    if n >= 2 && s[n - 2] == '.' {
        match (uint_of(s.subrange(0, n - 2), MAX_WHOLE as nat), uint_of(s.subrange(n - 1, n), 9)) {
            (Some(a), Some(b)) => if a * 100 + b * 10 <= u64::MAX { Some(a * 100 + b * 10) } else { None },
            _ => None,
        }
    } else if n >= 3 && s[n - 3] == '.' {
        match (uint_of(s.subrange(0, n - 3), MAX_WHOLE as nat), uint_of(s.subrange(n - 2, n), 99)) {
            (Some(a), Some(b)) => if a * 100 + b <= u64::MAX { Some(a * 100 + b) } else { None },
            _ => None,
        }
    } else {
        match uint_of(s, MAX_WHOLE as nat) {
            Some(a) => Some(a * 100),
            None => None,
        }
    }
}

pub fn is_white(c: char) -> (r: bool)
    ensures
        r == white(c),
{
    ('\u{9}' <= c && c <= '\u{d}') || c == ' ' || c == '\u{85}' || c == '\u{a0}'
        || c == '\u{1680}' || ('\u{2000}' <= c && c <= '\u{200a}') || c == '\u{2028}'
        || c == '\u{2029}' || c == '\u{202f}' || c == '\u{205f}' || c == '\u{3000}'
}

/// Relies on `str::chars`: the characters of the text, in order.
#[verifier::external_body]
pub(crate) fn chars_of(s: &str) -> (r: Vec<char>)
    ensures
        r@ == s@,
{
    s.chars().collect()
}

/// Relies on `String::push`: the character is appended at the end.
#[verifier::external_body]
pub(crate) fn push_char(s: &mut String, c: char)
    ensures
        final(s)@ == old(s)@.push(c),
{
    s.push(c)
}

proof fn lemma_trim_end_skip(s: Seq<char>, lo: int, hi: int)
    requires
        0 <= lo < hi <= s.len(),
        white(s[hi - 1]),
    ensures
        trim_end(s.subrange(lo, hi)) == trim_end(s.subrange(lo, hi - 1)),
{
    let t = s.subrange(lo, hi);
    assert(t.drop_last() =~= s.subrange(lo, hi - 1));
}

/// The bounds of `s[lo..hi]` once leading and trailing whitespace is cut.
pub fn trim_bounds(s: &Vec<char>, lo: usize, hi: usize) -> (r: (usize, usize))
    requires
        lo <= hi <= s@.len(),
    ensures
        lo <= r.0 <= r.1 <= hi,
        s@.subrange(r.0 as int, r.1 as int) == trim(s@.subrange(lo as int, hi as int)),
{
    let ghost whole = s@.subrange(lo as int, hi as int);
    let mut a: usize = lo;
    while a < hi && is_white(s[a])
        invariant
            lo <= a <= hi <= s@.len(),
            whole == s@.subrange(lo as int, hi as int),
            trim_start(whole) == trim_start(s@.subrange(a as int, hi as int)),
        decreases hi - a,
    {
        proof {
            let t = s@.subrange(a as int, hi as int);
            assert(t.drop_first() =~= s@.subrange(a + 1, hi as int));
        }
        a = a + 1;
    }
    proof {
        assert(trim_start(s@.subrange(a as int, hi as int)) == s@.subrange(a as int, hi as int));
    }
    let mut b: usize = hi;
    while b > a && is_white(s[b - 1])
        invariant
            lo <= a <= b <= hi <= s@.len(),
            trim(whole) == trim_end(s@.subrange(a as int, b as int)),
        decreases b - a,
    {
        proof {
            lemma_trim_end_skip(s@, a as int, b as int);
        }
        b = b - 1;
    }
    (a, b)
}

/// The characters of `s[lo..hi]` as a string.
pub fn text_of(s: &Vec<char>, lo: usize, hi: usize) -> (r: String)
    requires
        lo <= hi <= s@.len(),
    ensures
        r@ == s@.subrange(lo as int, hi as int),
{
    let mut out = String::new();
    let mut i: usize = lo;
    while i < hi
        invariant
            lo <= i <= hi <= s@.len(),
            out@ == s@.subrange(lo as int, i as int),
        decreases hi - i,
    {
        push_char(&mut out, s[i]);
        proof {
            assert(s@.subrange(lo as int, i + 1) =~= s@.subrange(lo as int, i as int).push(s@[i as int]));
        }
        i = i + 1;
    }
    out
}

/// The characters of `s[lo..hi]` without leading and trailing whitespace.
pub fn trim_range(s: &Vec<char>, lo: usize, hi: usize) -> (r: String)
    requires
        lo <= hi <= s@.len(),
    ensures
        r@ == trim(s@.subrange(lo as int, hi as int)),
{
    let (a, b) = trim_bounds(s, lo, hi);
    text_of(s, a, b)
}

pub open spec fn texts(v: Seq<String>) -> Seq<Seq<char>> {
    v.map_values(|x: String| x@)
}

proof fn lemma_split_step(s: Seq<char>, i: int)
    requires
        0 <= i < s.len(),
    ensures
        ({
            let p = split_commas(s.subrange(0, i));
            split_commas(s.subrange(0, i + 1)) == if s[i] == ',' {
                p.push(Seq::<char>::empty())
            } else {
                p.update(p.len() - 1, p.last().push(s[i]))
            }
        }),
{
    assert(s.subrange(0, i + 1).drop_last() =~= s.subrange(0, i));
}

proof fn lemma_split_nonempty(s: Seq<char>)
    ensures
        split_commas(s).len() >= 1,
    decreases s.len(),
{
    if s.len() > 0 {
        lemma_split_nonempty(s.drop_last());
    }
}

/// The entries of a comma-separated list: each piece between commas
/// trimmed of whitespace, and the pieces left empty dropped.
pub fn split_list(s: &Vec<char>) -> (r: Vec<String>)
    ensures
        texts(r@) == list_entries(s@),
{
    let mut out: Vec<String> = Vec::new();
    let mut start: usize = 0;
    let mut i: usize = 0;
    proof {
        assert(s@.subrange(0, 0) =~= Seq::<char>::empty());
    }
    while i < s.len()
        invariant
            start <= i <= s@.len(),
            split_commas(s@.subrange(0, i as int)).len() >= 1,
            split_commas(s@.subrange(0, i as int)).last() == s@.subrange(start as int, i as int),
            texts(out@) == trimmed_nonempty(split_commas(s@.subrange(0, i as int)).drop_last()),
        decreases s@.len() - i,
    {
        let ghost p = split_commas(s@.subrange(0, i as int));
        proof {
            lemma_split_step(s@, i as int);
        }
        if s[i] == ',' {
            let (a, b) = trim_bounds(s, start, i);
            proof {
                let q = p.push(Seq::<char>::empty());
                assert(q.drop_last() =~= p);
                assert(p =~= p.drop_last().push(p.last()));
            }
            if a < b {
                let t = text_of(s, a, b);
                let ghost old_out = out@;
                out.push(t);
                proof {
                    assert(texts(out@) =~= texts(old_out).push(t@));
                }
            }
            start = i + 1;
            proof {
                assert(s@.subrange(start as int, i + 1) =~= Seq::<char>::empty());
            }
        } else {
            proof {
                let q = p.update(p.len() - 1, p.last().push(s@[i as int]));
                assert(q.drop_last() =~= p.drop_last());
                assert(s@.subrange(start as int, i + 1) =~= s@.subrange(start as int, i as int).push(s@[i as int]));
            }
        }
        i = i + 1;
    }
    proof {
        let p = split_commas(s@.subrange(0, i as int));
        assert(s@.subrange(0, i as int) =~= s@);
        assert(p =~= p.drop_last().push(p.last()));
    }
    let (a, b) = trim_bounds(s, start, i);
    if a < b {
        let t = text_of(s, a, b);
        let ghost old_out = out@;
        out.push(t);
        proof {
            assert(texts(out@) =~= texts(old_out).push(t@));
        }
    }
    out
}

proof fn lemma_digits_step(s: Seq<char>, lo: int, i: int)
    requires
        0 <= lo <= i < s.len(),
    ensures
        digits_value(s.subrange(lo, i + 1)) == digits_value(s.subrange(lo, i)) * 10 + ((s[i] as nat) - ('0' as nat)) as nat,
{
    assert(s.subrange(lo, i + 1).drop_last() =~= s.subrange(lo, i));
}

proof fn lemma_digits_monotone(s: Seq<char>, lo: int, i: int, j: int)
    requires
        0 <= lo <= i <= j <= s.len(),
    ensures
        digits_value(s.subrange(lo, i)) <= digits_value(s.subrange(lo, j)),
    decreases j - i,
{
    if i < j {
        lemma_digits_monotone(s, lo, i, j - 1);
        lemma_digits_step(s, lo, j - 1);
    }
}

/// A whole number written in the digits `s[lo..hi]`, if there is at least one
/// digit, nothing else, and the number is at most `max`.
pub fn parse_uint(s: &Vec<char>, lo: usize, hi: usize, max: u64) -> (r: Option<u64>)
    requires
        lo <= hi <= s@.len(),
    ensures
        r matches Some(v) ==> uint_of(s@.subrange(lo as int, hi as int), max as nat) == Some(v as nat),
        r is None ==> uint_of(s@.subrange(lo as int, hi as int), max as nat) is None,
{
    if lo == hi {
        return None;
    }
    let mut v: u64 = 0;
    let mut i: usize = lo;
    proof {
        assert(s@.subrange(lo as int, lo as int) =~= Seq::<char>::empty());
    }
    while i < hi
        invariant
            lo <= i <= hi <= s@.len(),
            all_digits(s@.subrange(lo as int, i as int)),
            v as nat == digits_value(s@.subrange(lo as int, i as int)),
            v <= max,
        decreases hi - i,
    {
        let c = s[i];
        proof {
            lemma_digits_step(s@, lo as int, i as int);
        }
        if !('0' <= c && c <= '9') {
            proof {
                let t = s@.subrange(lo as int, hi as int);
                assert(t[i - lo] == c);
            }
            return None;
        }
        let d: u64 = (c as u32 - '0' as u32) as u64;
        if v > max / 10 || d > max - v * 10 {
            proof {
                assert(v * 10 + d > max) by (nonlinear_arith)
                    requires v > max / 10 || (v * 10 <= max && d > max - v * 10);
                lemma_digits_monotone(s@, lo as int, i + 1, hi as int);
            }
            return None;
        }
        v = v * 10 + d;
        proof {
            let t = s@.subrange(lo as int, i + 1);
            assert forall|j: int| 0 <= j < t.len() implies is_digit(#[trigger] t[j]) by {
                if j < i - lo {
                    assert(t[j] == s@.subrange(lo as int, i as int)[j]);
                }
            }
        }
        i = i + 1;
    }
    Some(v)
}

/// An amount in hundredths, read from `s[lo..hi]` as `cents_of` describes.
pub fn parse_cents(s: &Vec<char>, lo: usize, hi: usize) -> (r: Option<u64>)
    requires
        lo <= hi <= s@.len(),
    ensures
        r matches Some(v) ==> cents_of(s@.subrange(lo as int, hi as int)) == Some(v as nat),
        r is None ==> cents_of(s@.subrange(lo as int, hi as int)) is None,
{
    let ghost t = s@.subrange(lo as int, hi as int);
    let n = hi - lo;
    if n >= 2 && s[hi - 2] == '.' {
        proof {
            assert(t.subrange(0, n - 2) =~= s@.subrange(lo as int, hi - 2));
            assert(t.subrange(n - 1, n as int) =~= s@.subrange(hi - 1, hi as int));
        }
        match (parse_uint(s, lo, hi - 2, MAX_WHOLE), parse_uint(s, hi - 1, hi, 9)) {
            (Some(a), Some(b)) => {
                if a <= MAX_WHOLE && b <= 9 && a * 100 <= u64::MAX - b * 10 {
                    Some(a * 100 + b * 10)
                } else {
                    None
                }
            },
            _ => None,
        }
    } else if n >= 3 && s[hi - 3] == '.' {
        proof {
            assert(t.subrange(0, n - 3) =~= s@.subrange(lo as int, hi - 3));
            assert(t.subrange(n - 2, n as int) =~= s@.subrange(hi - 2, hi as int));
        }
        match (parse_uint(s, lo, hi - 3, MAX_WHOLE), parse_uint(s, hi - 2, hi, 99)) {
            (Some(a), Some(b)) => {
                if a <= MAX_WHOLE && b <= 99 && a * 100 <= u64::MAX - b {
                    Some(a * 100 + b)
                } else {
                    None
                }
            },
            _ => None,
        }
    } else {
        match parse_uint(s, lo, hi, MAX_WHOLE) {
            Some(a) => if a <= MAX_WHOLE { Some(a * 100) } else { None },
            None => None,
        }
    }
}

} // verus!
