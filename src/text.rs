//! Character-level helpers on strings.
use vstd::prelude::*;
use vstd::string::*;

verus! {

/// What `str::to_lowercase` returns for a string.
pub uninterp spec fn lower_of(s: Seq<char>) -> Seq<char>;

/// Relies on `str::to_lowercase`: the result depends on the characters alone, and
/// the empty string stays empty.
#[verifier::external_body]
pub fn lowercase(s: &str) -> (r: String)
    ensures
        r@ == lower_of(s@),
        s@.len() == 0 ==> r@.len() == 0,
{
    s.to_lowercase()
}

/// Relies on `String::push`: appends one character.
#[verifier::external_body]
fn push_char(s: &mut String, c: char)
    ensures
        final(s)@ == old(s)@.push(c),
{
    s.push(c)
}

/// The characters of a string, as a vector.
pub fn chars_of(s: &str) -> (r: Vec<char>)
    ensures
        r@ == s@,
{
    let n = s.unicode_len();
    let mut r: Vec<char> = Vec::new();
    let mut i: usize = 0;
    while i < n
        invariant
            n == s@.len(),
            i <= n,
            r@ == s@.subrange(0, i as int),
        decreases n - i,
    {
        r.push(s.get_char(i));
        i += 1;
    }
    assert(r@ =~= s@);
    r
}

/// The string made of the characters `v[from..to]`.
pub fn string_of_range(v: &Vec<char>, from: usize, to: usize) -> (r: String)
    requires
        from <= to <= v@.len(),
    ensures
        r@ == v@.subrange(from as int, to as int),
{
    let mut r = String::new();
    let mut i: usize = from;
    while i < to
        invariant
            from <= i <= to <= v@.len(),
            r@ == v@.subrange(from as int, i as int),
        decreases to - i,
    {
        push_char(&mut r, v[i]);
        assert(v@.subrange(from as int, i + 1) =~= v@.subrange(from as int, i as int).push(v@[i as int]));
        i += 1;
    }
    r
}

/// The string made of all characters of `v`.
pub fn string_of(v: &Vec<char>) -> (r: String)
    ensures
        r@ == v@,
{
    let r = string_of_range(v, 0, v.len());
    assert(v@.subrange(0, v@.len() as int) =~= v@);
    r
}


/// Whether `c` equals the lower-case ASCII letter or symbol `d`, ignoring ASCII case.
pub open spec fn eq_ignore_ascii_case(c: char, d: char) -> bool {
    c == d || ('A' <= c <= 'Z' && (c as u32) + 32 == (d as u32))
}

/// Whether `s` ends with `suf`.
pub open spec fn ends_with(s: Seq<char>, suf: Seq<char>) -> bool {
    s.len() >= suf.len() && s.subrange(s.len() - suf.len(), s.len() as int) == suf
}

/// Whether `s` ends with `suf` (lower case), ignoring ASCII case.
pub open spec fn ends_with_ignore_case(s: Seq<char>, suf: Seq<char>) -> bool {
    s.len() >= suf.len() && forall|k: int|
        0 <= k < suf.len() ==> eq_ignore_ascii_case(#[trigger] s[s.len() - suf.len() + k], suf[k])
}

/// Whether `s` begins with `pre`.
pub open spec fn starts_with(s: Seq<char>, pre: Seq<char>) -> bool {
    s.len() >= pre.len() && s.subrange(0, pre.len() as int) == pre
}

/// Whether `pat` occurs in `s` at index `i`.
pub open spec fn occurs_at(s: Seq<char>, pat: Seq<char>, i: int) -> bool {
    0 <= i && i + pat.len() <= s.len() && s.subrange(i, i + pat.len()) == pat
}

/// Whether `pat` occurs anywhere in `s`.
pub open spec fn contains_seq(s: Seq<char>, pat: Seq<char>) -> bool {
    exists|i: int| occurs_at(s, pat, i)
}

/// The last index below `end` that holds `c`, or -1.
pub open spec fn last_index_before(s: Seq<char>, c: char, end: int) -> int
    decreases end,
{
    if end <= 0 {
        -1
    } else if s[end - 1] == c {
        end - 1
    } else {
        last_index_before(s, c, end - 1)
    }
}

/// The first index at or above `start` that holds `c`, or -1.
pub open spec fn first_index_from(s: Seq<char>, c: char, start: int) -> int
    decreases s.len() - start,
{
    if start < 0 || start >= s.len() {
        -1
    } else if s[start] == c {
        start
    } else {
        first_index_from(s, c, start + 1)
    }
}

/// Whether two character sequences are equal.
pub fn eq_chars(a: &Vec<char>, b: &Vec<char>) -> (r: bool)
    ensures
        r == (a@ == b@),
{
    if a.len() != b.len() {
        return false;
    }
    let mut i: usize = 0;
    while i < a.len()
        invariant
            a@.len() == b@.len(),
            i <= a@.len(),
            forall|k: int| 0 <= k < i ==> a@[k] == b@[k],
        decreases a.len() - i,
    {
        if a[i] != b[i] {
            return false;
        }
        i += 1;
    }
    assert(a@ =~= b@);
    true
}

/// Whether `s` ends with `suf`.
pub fn ends_with_chars(s: &Vec<char>, suf: &Vec<char>) -> (r: bool)
    ensures
        r == ends_with(s@, suf@),
{
    if s.len() < suf.len() {
        return false;
    }
    let off = s.len() - suf.len();
    let mut i: usize = 0;
    while i < suf.len()
        invariant
            off == s@.len() - suf@.len(),
            s@.len() <= usize::MAX,
            i <= suf@.len(),
            forall|k: int| 0 <= k < i ==> s@[off + k] == suf@[k],
        decreases suf.len() - i,
    {
        if s[off + i] != suf[i] {
            assert(s@.subrange(off as int, s@.len() as int)[i as int] != suf@[i as int]);
            return false;
        }
        i += 1;
    }
    assert(s@.subrange(off as int, s@.len() as int) =~= suf@);
    true
}

/// Whether `s` ends with `suf` (lower case), ignoring ASCII case.
pub fn ends_with_chars_ignore_case(s: &Vec<char>, suf: &Vec<char>) -> (r: bool)
    ensures
        r == ends_with_ignore_case(s@, suf@),
{
    if s.len() < suf.len() {
        return false;
    }
    let off = s.len() - suf.len();
    let mut i: usize = 0;
    while i < suf.len()
        invariant
            off == s@.len() - suf@.len(),
            s@.len() <= usize::MAX,
            i <= suf@.len(),
            forall|k: int| 0 <= k < i ==> eq_ignore_ascii_case(#[trigger] s@[s@.len() - suf@.len() + k], suf@[k]),
        decreases suf.len() - i,
    {
        let c = s[off + i];
        let d = suf[i];
        let same = c == d || ('A' <= c && c <= 'Z' && (c as u32) + 32 == (d as u32));
        if !same {
            assert(!eq_ignore_ascii_case(s@[s@.len() - suf@.len() + i], suf@[i as int]));
            return false;
        }
        i += 1;
    }
    true
}

/// Whether `s` begins with `pre`.
pub fn starts_with_chars(s: &Vec<char>, pre: &Vec<char>) -> (r: bool)
    ensures
        r == starts_with(s@, pre@),
{
    if s.len() < pre.len() {
        return false;
    }
    let mut i: usize = 0;
    while i < pre.len()
        invariant
            s@.len() >= pre@.len(),
            i <= pre@.len(),
            forall|k: int| 0 <= k < i ==> s@[k] == pre@[k],
        decreases pre.len() - i,
    {
        if s[i] != pre[i] {
            assert(s@.subrange(0, pre@.len() as int)[i as int] != pre@[i as int]);
            return false;
        }
        i += 1;
    }
    assert(s@.subrange(0, pre@.len() as int) =~= pre@);
    true
}

/// Whether `pat` occurs in `s` at index `i`.
fn occurs_at_exec(s: &Vec<char>, pat: &Vec<char>, i: usize) -> (r: bool)
    requires
        i + pat@.len() <= s@.len(),
        s@.len() <= usize::MAX,
    ensures
        r == occurs_at(s@, pat@, i as int),
{
    let mut k: usize = 0;
    while k < pat.len()
        invariant
            i + pat@.len() <= s@.len(),
            s@.len() <= usize::MAX,
            k <= pat@.len(),
            forall|j: int| 0 <= j < k ==> s@[i + j] == pat@[j],
        decreases pat.len() - k,
    {
        if s[i + k] != pat[k] {
            assert(s@.subrange(i as int, i + pat@.len())[k as int] != pat@[k as int]);
            return false;
        }
        k += 1;
    }
    assert(s@.subrange(i as int, i + pat@.len()) =~= pat@);
    true
}

/// Whether `pat` occurs anywhere in `s`.
pub fn contains_chars(s: &Vec<char>, pat: &Vec<char>) -> (r: bool)
    ensures
        r == contains_seq(s@, pat@),
{
    if pat.len() == 0 {
        assert(s@.subrange(0, 0) =~= pat@);
        assert(occurs_at(s@, pat@, 0));
        return true;
    }
    if s.len() < pat.len() {
        return false;
    }
    let last = s.len() - pat.len();
    let mut i: usize = 0;
    while i <= last
        invariant
            last == s@.len() - pat@.len(),
            pat@.len() > 0,
            s@.len() <= usize::MAX,
            i <= last + 1,
            forall|j: int| 0 <= j < i ==> !occurs_at(s@, pat@, j),
        decreases last + 1 - i,
    {
        if occurs_at_exec(s, pat, i) {
            return true;
        }
        i += 1;
    }
    false
}

/// The last index below `end` that holds `c`.
pub fn rfind_before(s: &Vec<char>, c: char, end: usize) -> (r: Option<usize>)
    requires
        end <= s@.len(),
    ensures
        match r {
            Some(k) => k < end && k as int == last_index_before(s@, c, end as int),
            None => last_index_before(s@, c, end as int) == -1,
        },
{
    let mut i: usize = end;
    while i > 0
        invariant
            i <= end <= s@.len(),
            last_index_before(s@, c, end as int) == last_index_before(s@, c, i as int),
        decreases i,
    {
        if s[i - 1] == c {
            proof { lemma_last_index_bounds(s@, c, i as int); }
            return Some(i - 1);
        }
        i -= 1;
    }
    None
}

/// The first index at or above `start` that holds `c`.
pub fn find_from(s: &Vec<char>, c: char, start: usize) -> (r: Option<usize>)
    ensures
        match r {
            Some(k) => start <= k < s@.len() && k as int == first_index_from(s@, c, start as int) && s@[k as int] == c,
            None => first_index_from(s@, c, start as int) == -1,
        },
{
    let mut i: usize = start;
    while i < s.len()
        invariant
            start <= i,
            first_index_from(s@, c, start as int) == first_index_from(s@, c, i as int),
        decreases s.len() - i,
    {
        if s[i] == c {
            proof { lemma_first_index_bounds(s@, c, start as int); }
            return Some(i);
        }
        i += 1;
    }
    None
}

pub proof fn lemma_first_index_bounds(s: Seq<char>, c: char, start: int)
    ensures
        first_index_from(s, c, start) == -1 || (start <= first_index_from(s, c, start) < s.len()),
    decreases s.len() - start,
{
    if 0 <= start < s.len() {
        lemma_first_index_bounds(s, c, start + 1);
    }
}

pub proof fn lemma_last_index_bounds(s: Seq<char>, c: char, end: int)
    ensures
        -1 <= last_index_before(s, c, end),
        last_index_before(s, c, end) < end || last_index_before(s, c, end) == -1,
    decreases end,
{
    if end > 0 {
        lemma_last_index_bounds(s, c, end - 1);
    }
}

/// `first_index_from` finds nothing exactly when no index from `start` on holds `c`.
pub proof fn lemma_first_index_none(s: Seq<char>, c: char, start: int)
    requires
        0 <= start,
    ensures
        (first_index_from(s, c, start) == -1) == (forall|k: int| start <= k < s.len() ==> s[k] != c),
    decreases s.len() - start,
{
    if start < s.len() {
        lemma_first_index_none(s, c, start + 1);
    }
}

} // verus!
