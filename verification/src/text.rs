//! Character-level text operations on which prompts and replies are built.

use vstd::prelude::*;

verus! {

/// The characters that Unicode classes as `White_Space`.
pub open spec fn is_whitespace_spec(c: char) -> bool {
    let v: u32 = c as u32;
    ||| 0x09 <= v <= 0x0d
    ||| v == 0x20
    ||| v == 0x85
    ||| v == 0xa0
    ||| v == 0x1680
    ||| 0x2000 <= v <= 0x200a
    ||| v == 0x2028
    ||| v == 0x2029
    ||| v == 0x202f
    ||| v == 0x205f
    ||| v == 0x3000
}

/// `s` without its leading whitespace.
pub open spec fn trim_start_spec(s: Seq<char>) -> Seq<char>
    decreases s.len(),
{
    if s.len() > 0 && is_whitespace_spec(s[0]) {
        trim_start_spec(s.drop_first())
    } else {
        s
    }
}

/// `s` without its trailing whitespace.
pub open spec fn trim_end_spec(s: Seq<char>) -> Seq<char>
    decreases s.len(),
{
    if s.len() > 0 && is_whitespace_spec(s.last()) {
        trim_end_spec(s.drop_last())
    } else {
        s
    }
}

/// `s` without leading and trailing whitespace.
pub open spec fn trim_spec(s: Seq<char>) -> Seq<char> {
    trim_end_spec(trim_start_spec(s))
}

/// Whether `c` is whitespace.
pub fn is_whitespace(c: char) -> (r: bool)
    ensures
        r == is_whitespace_spec(c),
{
    let v: u32 = c as u32;
    (0x09 <= v && v <= 0x0d) || v == 0x20 || v == 0x85 || v == 0xa0 || v == 0x1680 || (0x2000
        <= v && v <= 0x200a) || v == 0x2028 || v == 0x2029 || v == 0x202f || v == 0x205f || v
        == 0x3000
}

/// The characters of `s`, one by one.
pub fn chars_of(s: &str) -> (v: Vec<char>)
    ensures
        v@ == s@,
{
    let n: usize = s.unicode_len();
    let mut v: Vec<char> = Vec::new();
    for i in 0..n
        invariant
            n == s@.len(),
            v@ == s@.subrange(0, i as int),
    {
        let c = s.get_char(i);
        v.push(c);
        assert(v@ =~= s@.subrange(0, i + 1));
    }
    assert(v@ =~= s@);
    v
}

/// `String::push`: appends `c` at the end of `s`.
#[verifier::external_body]
pub(crate) fn push_char(s: &mut String, c: char)
    ensures
        final(s)@ == old(s)@.push(c),
{
    s.push(c);
}

/// The string made of the characters `chars[from..to]`.
pub fn string_from_chars(chars: &Vec<char>, from: usize, to: usize) -> (r: String)
    requires
        from <= to <= chars@.len(),
    ensures
        r@ == chars@.subrange(from as int, to as int),
{
    let mut r = String::new();
    let mut i: usize = from;
    while i < to
        invariant
            from <= i <= to <= chars@.len(),
            r@ == chars@.subrange(from as int, i as int),
        decreases to - i,
    {
        push_char(&mut r, chars[i]);
        assert(r@ =~= chars@.subrange(from as int, i + 1));
        i = i + 1;
    }
    r
}

/// Index of the first occurrence of `c` in `s`, if any.
pub open spec fn first_index_of(s: Seq<char>, c: char) -> Option<int> {
    if exists|i: int| 0 <= i < s.len() && s[i] == c {
        Some(choose|i: int| 0 <= i < s.len() && s[i] == c && forall|j: int| 0 <= j < i ==> s[j] != c)
    } else {
        None
    }
}

/// Index of the last occurrence of `c` in `s`, if any.
pub open spec fn last_index_of(s: Seq<char>, c: char) -> Option<int> {
    if exists|i: int| 0 <= i < s.len() && s[i] == c {
        Some(choose|i: int| 0 <= i < s.len() && s[i] == c && forall|j: int| i < j < s.len() ==> s[j] != c)
    } else {
        None
    }
}

proof fn lemma_first_witness(s: Seq<char>, c: char, i: int)
    requires
        0 <= i < s.len(),
        s[i] == c,
    ensures
        exists|k: int| 0 <= k < s.len() && s[k] == c && forall|j: int| 0 <= j < k ==> s[j] != c,
    decreases i,
{
    if exists|j: int| 0 <= j < i && s[j] == c {
        let j: int = choose|j: int| 0 <= j < i && s[j] == c;
        lemma_first_witness(s, c, j);
    } else {
        assert(forall|j: int| 0 <= j < i ==> s[j] != c);
    }
}

proof fn lemma_last_witness(s: Seq<char>, c: char, i: int)
    requires
        0 <= i < s.len(),
        s[i] == c,
    ensures
        exists|k: int| 0 <= k < s.len() && s[k] == c && forall|j: int| k < j < s.len() ==> s[j] != c,
    decreases s.len() - i,
{
    if exists|j: int| i < j < s.len() && s[j] == c {
        let j: int = choose|j: int| i < j < s.len() && s[j] == c;
        lemma_last_witness(s, c, j);
    } else {
        assert(forall|j: int| i < j < s.len() ==> s[j] != c);
    }
}

/// `first_index_of` gives the first position of `c`, or none when `c` does
/// not occur.
pub proof fn lemma_first_index_of(s: Seq<char>, c: char)
    ensures
        match first_index_of(s, c) {
            Some(i) => 0 <= i < s.len() && s[i] == c && forall|j: int| 0 <= j < i ==> s[j] != c,
            None => forall|j: int| 0 <= j < s.len() ==> s[j] != c,
        },
{
    if exists|i: int| 0 <= i < s.len() && s[i] == c {
        let i: int = choose|i: int| 0 <= i < s.len() && s[i] == c;
        lemma_first_witness(s, c, i);
    }
}

/// `last_index_of` gives the last position of `c`, or none when `c` does
/// not occur.
pub proof fn lemma_last_index_of(s: Seq<char>, c: char)
    ensures
        match last_index_of(s, c) {
            Some(i) => 0 <= i < s.len() && s[i] == c && forall|j: int| i < j < s.len() ==> s[j] != c,
            None => forall|j: int| 0 <= j < s.len() ==> s[j] != c,
        },
{
    if exists|i: int| 0 <= i < s.len() && s[i] == c {
        let i: int = choose|i: int| 0 <= i < s.len() && s[i] == c;
        lemma_last_witness(s, c, i);
    }
}

proof fn lemma_occurrence_witness(s: Seq<char>, pat: Seq<char>, i: int)
    requires
        occurs_at(s, pat, i),
    ensures
        exists|k: int| occurs_at(s, pat, k) && forall|j: int| 0 <= j < k ==> !occurs_at(s, pat, j),
    decreases i,
{
    if exists|j: int| 0 <= j < i && occurs_at(s, pat, j) {
        let j: int = choose|j: int| 0 <= j < i && occurs_at(s, pat, j);
        lemma_occurrence_witness(s, pat, j);
    } else {
        assert(forall|j: int| 0 <= j < i ==> !occurs_at(s, pat, j));
    }
}

/// `first_occurrence` gives the first position at which `pat` occurs, or
/// none when it does not occur.
pub proof fn lemma_first_occurrence(s: Seq<char>, pat: Seq<char>)
    ensures
        match first_occurrence(s, pat) {
            Some(i) => occurs_at(s, pat, i) && forall|j: int| 0 <= j < i ==> !occurs_at(s, pat, j),
            None => forall|j: int| !occurs_at(s, pat, j),
        },
{
    if exists|i: int| occurs_at(s, pat, i) {
        let i: int = choose|i: int| occurs_at(s, pat, i);
        lemma_occurrence_witness(s, pat, i);
    }
}

/// The first position of `c` in `chars`.
pub fn find_char(chars: &Vec<char>, c: char) -> (r: Option<usize>)
    ensures
        match r {
            Some(i) => i < chars@.len() && chars@[i as int] == c && forall|j: int|
                0 <= j < i ==> chars@[j] != c,
            None => forall|j: int| 0 <= j < chars@.len() ==> chars@[j] != c,
        },
        r matches Some(i) ==> first_index_of(chars@, c) == Some(i as int),
        r is None <==> first_index_of(chars@, c) is None,
{
    let mut i: usize = 0;
    while i < chars.len()
        invariant
            i <= chars@.len(),
            forall|j: int| 0 <= j < i ==> chars@[j] != c,
        decreases chars@.len() - i,
    {
        if chars[i] == c {
            proof {
                let k: int = choose|k: int|
                    0 <= k < chars@.len() && chars@[k] == c && forall|j: int|
                        0 <= j < k ==> chars@[j] != c;
                assert(k == i as int) by {
                    if k < i {
                    } else if k > i {
                        assert(chars@[i as int] != c);
                    }
                }
            }
            return Some(i);
        }
        i = i + 1;
    }
    None
}

/// The last position of `c` in `chars`.
pub fn rfind_char(chars: &Vec<char>, c: char) -> (r: Option<usize>)
    ensures
        match r {
            Some(i) => i < chars@.len() && chars@[i as int] == c && forall|j: int|
                i < j < chars@.len() ==> chars@[j] != c,
            None => forall|j: int| 0 <= j < chars@.len() ==> chars@[j] != c,
        },
        r matches Some(i) ==> last_index_of(chars@, c) == Some(i as int),
        r is None <==> last_index_of(chars@, c) is None,
{
    let mut i: usize = chars.len();
    while i > 0
        invariant
            i <= chars@.len(),
            forall|j: int| i <= j < chars@.len() ==> chars@[j] != c,
        decreases i,
    {
        if chars[i - 1] == c {
            proof {
                let k: int = choose|k: int|
                    0 <= k < chars@.len() && chars@[k] == c && forall|j: int|
                        k < j < chars@.len() ==> chars@[j] != c;
                assert(k == i - 1) by {
                    if k < i - 1 {
                        assert(chars@[i - 1] != c);
                    } else if k > i - 1 {
                    }
                }
            }
            return Some(i - 1);
        }
        i = i - 1;
    }
    None
}


/// Whether `pat` occurs in `s` starting at position `i`.
pub open spec fn occurs_at(s: Seq<char>, pat: Seq<char>, i: int) -> bool {
    0 <= i && i + pat.len() <= s.len() && s.subrange(i, i + pat.len()) == pat
}

/// Position of the first occurrence of `pat` in `s`, if any.
pub open spec fn first_occurrence(s: Seq<char>, pat: Seq<char>) -> Option<int> {
    if exists|i: int| occurs_at(s, pat, i) {
        Some(choose|i: int| occurs_at(s, pat, i) && forall|j: int| 0 <= j < i ==> !occurs_at(s, pat, j))
    } else {
        None
    }
}

/// `s` with every occurrence of the non-empty `pat`, taken from left to right
/// without overlap, replaced by `rep`.
pub open spec fn replace_all_spec(s: Seq<char>, pat: Seq<char>, rep: Seq<char>) -> Seq<char>
    decreases s.len(),
{
    if pat.len() == 0 || s.len() < pat.len() {
        s
    } else if s.subrange(0, pat.len() as int) == pat {
        rep + replace_all_spec(s.subrange(pat.len() as int, s.len() as int), pat, rep)
    } else {
        seq![s[0]] + replace_all_spec(s.drop_first(), pat, rep)
    }
}

/// Whether `pat` occurs in `chars` at position `i`.
pub fn matches_at(chars: &Vec<char>, pat: &Vec<char>, i: usize) -> (r: bool)
    ensures
        r == occurs_at(chars@, pat@, i as int),
{
    if i > chars.len() || pat.len() > chars.len() - i {
        return false;
    }
    let mut k: usize = 0;
    while k < pat.len()
        invariant
            i <= chars@.len(),
            i + pat@.len() <= chars@.len(),
            k <= pat@.len(),
            forall|j: int| 0 <= j < k ==> chars@[i + j] == pat@[j],
        decreases pat@.len() - k,
    {
        assert(i + k < chars.len());
        if chars[i + k] != pat[k] {
            assert(chars@.subrange(i as int, i + pat@.len())[k as int] != pat@[k as int]);
            return false;
        }
        k = k + 1;
    }
    assert(chars@.subrange(i as int, i + pat@.len()) =~= pat@);
    true
}

/// The first position at which `pat` occurs in `chars`.
pub fn find_seq(chars: &Vec<char>, pat: &Vec<char>) -> (r: Option<usize>)
    ensures
        match r {
            Some(i) => occurs_at(chars@, pat@, i as int) && forall|j: int|
                0 <= j < i ==> !occurs_at(chars@, pat@, j),
            None => forall|j: int| !occurs_at(chars@, pat@, j),
        },
        r matches Some(i) ==> first_occurrence(chars@, pat@) == Some(i as int),
        r is None <==> first_occurrence(chars@, pat@) is None,
{
    let n: usize = chars.len();
    let m: usize = pat.len();
    if m > n {
        assert forall|j: int| !occurs_at(chars@, pat@, j) by {}
        return None;
    }
    let last: usize = n - m;
    let mut i: usize = 0;
    loop
        invariant_except_break
            i <= last,
            forall|j: int| 0 <= j < i ==> !occurs_at(chars@, pat@, j),
        invariant
            n == chars@.len(),
            m == pat@.len(),
            last == n - m,
        ensures
            forall|j: int| 0 <= j <= last ==> !occurs_at(chars@, pat@, j),
        decreases last - i,
    {
        if matches_at(chars, pat, i) {
            proof {
                let k: int = choose|k: int|
                    occurs_at(chars@, pat@, k) && forall|j: int| 0 <= j < k ==> !occurs_at(chars@, pat@, j);
                assert(k == i as int) by {
                    if k > i {
                        assert(!occurs_at(chars@, pat@, i as int));
                    }
                }
            }
            return Some(i);
        }
        if i == last {
            break;
        }
        i = i + 1;
    }
    None
}

proof fn lemma_replace_all_short(s: Seq<char>, pat: Seq<char>, rep: Seq<char>)
    requires
        s.len() < pat.len(),
    ensures
        replace_all_spec(s, pat, rep) == s,
{
}

/// `text` with every occurrence of `pat` replaced by `rep`, as `str::replace` does.
pub fn replace_all(text: &str, pat: &str, rep: &str) -> (r: String)
    requires
        pat@.len() > 0,
    ensures
        r@ == replace_all_spec(text@, pat@, rep@),
{
    let chars = chars_of(text);
    let pchars = chars_of(pat);
    let n: usize = chars.len();
    let m: usize = pchars.len();
    let mut r = String::new();
    let mut i: usize = 0;
    assert(chars@.subrange(0, n as int) =~= chars@);
    while i < n
        invariant
            n == chars@.len(),
            m == pchars@.len(),
            m > 0,
            chars@ == text@,
            pchars@ == pat@,
            i <= n,
            r@ + replace_all_spec(chars@.subrange(i as int, n as int), pat@, rep@)
                == replace_all_spec(text@, pat@, rep@),
        decreases n - i,
    {
        let ghost rest = chars@.subrange(i as int, n as int);
        if matches_at(&chars, &pchars, i) {
            assert(rest.subrange(0, m as int) =~= pat@);
            assert(rest.subrange(m as int, rest.len() as int) =~= chars@.subrange(i + m, n as int));
            r.append(rep);
            i = i + m;
        } else {
            proof {
                if rest.len() >= pat@.len() {
                    assert(rest.subrange(0, m as int) != pat@) by {
                        assert(rest.subrange(0, m as int) =~= chars@.subrange(i as int, i + m));
                    }
                } else {
                    lemma_replace_all_short(rest, pat@, rep@);
                    lemma_replace_all_short(rest.drop_first(), pat@, rep@);
                }
            }
            assert(rest.drop_first() =~= chars@.subrange(i + 1, n as int));
            push_char(&mut r, chars[i]);
            i = i + 1;
        }
    }
    assert(chars@.subrange(n as int, n as int) =~= Seq::<char>::empty());
    r
}

proof fn lemma_trim_start_skips(s: Seq<char>, i: int)
    requires
        0 <= i <= s.len(),
        forall|j: int| 0 <= j < i ==> is_whitespace_spec(s[j]),
    ensures
        trim_start_spec(s) == trim_start_spec(s.subrange(i, s.len() as int)),
    decreases i,
{
    if i > 0 {
        lemma_trim_start_skips(s.drop_first(), i - 1);
        assert(s.drop_first().subrange(i - 1, s.len() - 1) =~= s.subrange(i, s.len() as int));
    } else {
        assert(s.subrange(0, s.len() as int) =~= s);
    }
}

proof fn lemma_trim_end_skips(s: Seq<char>, k: int)
    requires
        0 <= k <= s.len(),
        forall|j: int| k <= j < s.len() ==> is_whitespace_spec(s[j]),
    ensures
        trim_end_spec(s) == trim_end_spec(s.subrange(0, k)),
    decreases s.len() - k,
{
    if k < s.len() {
        lemma_trim_end_skips(s.drop_last(), k);
        assert(s.drop_last().subrange(0, k) =~= s.subrange(0, k));
    } else {
        assert(s.subrange(0, k) =~= s);
    }
}

/// `text` without leading and trailing whitespace, as `str::trim` gives it.
pub fn trim(text: &str) -> (r: String)
    ensures
        r@ == trim_spec(text@),
{
    let chars = chars_of(text);
    let n: usize = chars.len();
    let mut start: usize = 0;
    while start < n && is_whitespace(chars[start])
        invariant
            n == chars@.len(),
            start <= n,
            forall|j: int| 0 <= j < start ==> is_whitespace_spec(chars@[j]),
        decreases n - start,
    {
        start = start + 1;
    }
    proof {
        lemma_trim_start_skips(chars@, start as int);
    }
    let ghost t = chars@.subrange(start as int, n as int);
    assert(trim_start_spec(t) == t);
    let mut end: usize = n;
    while end > start && is_whitespace(chars[end - 1])
        invariant
            n == chars@.len(),
            start <= end <= n,
            forall|j: int| end <= j < n ==> is_whitespace_spec(chars@[j]),
        decreases end - start,
    {
        end = end - 1;
    }
    proof {
        lemma_trim_end_skips(t, end - start);
        assert(t.subrange(0, end - start) =~= chars@.subrange(start as int, end as int));
    }
    string_from_chars(&chars, start, end)
}


proof fn lemma_trim_start_shape(s: Seq<char>)
    ensures
        trim_start_spec(s).len() > 0 ==> !is_whitespace_spec(trim_start_spec(s)[0]),
        exists|i: int|
            0 <= i <= s.len() && trim_start_spec(s) == s.subrange(i, s.len() as int),
    decreases s.len(),
{
    if s.len() > 0 && is_whitespace_spec(s[0]) {
        lemma_trim_start_shape(s.drop_first());
        let i: int = choose|i: int|
            0 <= i <= s.drop_first().len() && trim_start_spec(s.drop_first())
                == s.drop_first().subrange(i, s.drop_first().len() as int);
        assert(s.drop_first().subrange(i, s.drop_first().len() as int) =~= s.subrange(i + 1, s.len() as int));
    } else {
        assert(s.subrange(0, s.len() as int) =~= s);
    }
}

proof fn lemma_trim_end_shape(s: Seq<char>)
    ensures
        trim_end_spec(s).len() > 0 ==> !is_whitespace_spec(trim_end_spec(s).last()),
        exists|k: int| 0 <= k <= s.len() && trim_end_spec(s) == s.subrange(0, k),
    decreases s.len(),
{
    if s.len() > 0 && is_whitespace_spec(s.last()) {
        lemma_trim_end_shape(s.drop_last());
        let k: int = choose|k: int|
            0 <= k <= s.drop_last().len() && trim_end_spec(s.drop_last()) == s.drop_last().subrange(0, k);
        assert(s.drop_last().subrange(0, k) =~= s.subrange(0, k));
    } else {
        assert(s.subrange(0, s.len() as int) =~= s);
    }
}

proof fn lemma_trim_start_fixed(s: Seq<char>)
    requires
        s.len() > 0 ==> !is_whitespace_spec(s[0]),
    ensures
        trim_start_spec(s) == s,
{
}

proof fn lemma_trim_end_fixed(s: Seq<char>)
    requires
        s.len() > 0 ==> !is_whitespace_spec(s.last()),
    ensures
        trim_end_spec(s) == s,
{
}

/// Trimmed text neither starts nor ends with whitespace, is a contiguous
/// piece of the text, and trimming it again changes nothing.
pub proof fn lemma_trim_properties(s: Seq<char>)
    ensures
        trim_spec(s).len() > 0 ==> !is_whitespace_spec(trim_spec(s)[0]),
        trim_spec(s).len() > 0 ==> !is_whitespace_spec(trim_spec(s).last()),
        exists|i: int, k: int| 0 <= i <= k <= s.len() && trim_spec(s) == s.subrange(i, k),
        trim_spec(trim_spec(s)) == trim_spec(s),
{
    let t = trim_start_spec(s);
    lemma_trim_start_shape(s);
    lemma_trim_end_shape(t);
    let i: int = choose|i: int| 0 <= i <= s.len() && t == s.subrange(i, s.len() as int);
    let k: int = choose|k: int| 0 <= k <= t.len() && trim_end_spec(t) == t.subrange(0, k);
    assert(t.subrange(0, k) =~= s.subrange(i, i + k));
    let r = trim_spec(s);
    lemma_trim_start_fixed(r);
    lemma_trim_end_fixed(r);
}

/// Replacing a pattern that does not occur changes nothing.
pub proof fn lemma_replace_absent(s: Seq<char>, pat: Seq<char>, rep: Seq<char>)
    requires
        forall|i: int| !occurs_at(s, pat, i),
    ensures
        replace_all_spec(s, pat, rep) == s,
    decreases s.len(),
{
    if pat.len() > 0 && s.len() >= pat.len() {
        assert(!occurs_at(s, pat, 0));
        assert forall|i: int| !occurs_at(s.drop_first(), pat, i) by {
            if occurs_at(s.drop_first(), pat, i) {
                assert(s.drop_first().subrange(i, i + pat.len()) =~= s.subrange(i + 1, i + 1 + pat.len()));
                assert(occurs_at(s, pat, i + 1));
            }
        }
        lemma_replace_absent(s.drop_first(), pat, rep);
        assert(seq![s[0]] + s.drop_first() =~= s);
    }
}

/// When `p` does not hold `m`, and the last character of `m` occurs nowhere
/// else in `m`, the first `m` in `p`, `m`, `q` is the one right after `p`.
pub proof fn lemma_first_occurrence_after(p: Seq<char>, m: Seq<char>, q: Seq<char>)
    requires
        m.len() > 0,
        forall|k: int| 0 <= k < m.len() - 1 ==> #[trigger] m[k] != m[m.len() - 1],
        forall|i: int| !occurs_at(p, m, i),
    ensures
        first_occurrence(p + m + q, m) == Some(p.len() as int),
{
    let s = p + m + q;
    let n = p.len() as int;
    let l = m.len() as int;
    assert(s.subrange(n, n + l) =~= m);
    assert(occurs_at(s, m, n));
    assert forall|j: int| 0 <= j < n implies !occurs_at(s, m, j) by {
        if occurs_at(s, m, j) {
            if j + l <= n {
                assert(s.subrange(j, j + l) =~= p.subrange(j, j + l));
                assert(occurs_at(p, m, j));
            } else {
                let w = s.subrange(j, j + l);
                assert(w[l - 1] == s[j + l - 1]);
                assert(s[j + l - 1] == m[j + l - 1 - n]);
            }
        }
    }
    lemma_first_occurrence(s, m);
    let i = first_occurrence(s, m)->0;
    if i > n {
        assert(!occurs_at(s, m, n));
    }
}

/// Replacing `m` in `m` followed by text without `m` replaces just that one.
pub proof fn lemma_replace_leading(m: Seq<char>, q: Seq<char>, rep: Seq<char>)
    requires
        m.len() > 0,
        forall|i: int| !occurs_at(q, m, i),
    ensures
        replace_all_spec(m + q, m, rep) == rep + q,
{
    let s = m + q;
    assert(s.subrange(0, m.len() as int) =~= m);
    assert(s.subrange(m.len() as int, s.len() as int) =~= q);
    lemma_replace_absent(q, m, rep);
}

/// Whether `a` and `b` are the same text.
pub fn same_text(a: &str, b: &str) -> (r: bool)
    ensures
        r == (a@ == b@),
{
    let x = a.to_owned();
    let y = b.to_owned();
    x == y
}

} // verus!
