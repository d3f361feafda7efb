//! Character-sequence operations on which title parsing and file naming rest:
//! matching, searching, replacing, splitting and trimming, each stated over
//! `Seq<char>`.

use vstd::prelude::*;

verus! {

/// The characters of `s`, in order.
pub fn chars_of(s: &str) -> (r: Vec<char>)
    ensures
        r@ == s@,
{
    let mut out: Vec<char> = Vec::new();
    for c in it: s.chars()
        invariant
            out@ == it.seq().take(it.index() as int),
    {
        out.push(c);
    }
    out
}

/// `String::push`: appends one character.
#[verifier::external_body]
fn push_char(s: &mut String, c: char)
    ensures
        final(s)@ == old(s)@.push(c),
{
    s.push(c);
}

/// The string made of the characters of `v`, in order.
pub fn string_of(v: &Vec<char>) -> (r: String)
    ensures
        r@ == v@,
{
    let mut s = String::new();
    let mut i: usize = 0;
    while i < v.len()
        invariant
            i <= v.len(),
            s@ == v@.take(i as int),
        decreases v.len() - i,
    {
        push_char(&mut s, v[i]);
        assert(v@.take(i + 1) == v@.take(i as int).push(v@[i as int]));
        i = i + 1;
    }
    assert(v@.take(v.len() as int) == v@);
    s
}


/// `p` occurs in `s` starting at index `i`.
pub open spec fn occurs_at(s: Seq<char>, p: Seq<char>, i: int) -> bool {
    0 <= i && i + p.len() <= s.len() && s.subrange(i, i + p.len()) == p
}

pub open spec fn starts_with(s: Seq<char>, p: Seq<char>) -> bool {
    occurs_at(s, p, 0)
}

pub open spec fn ends_with(s: Seq<char>, p: Seq<char>) -> bool {
    occurs_at(s, p, s.len() - p.len())
}

pub open spec fn contains(s: Seq<char>, p: Seq<char>) -> bool {
    exists|i: int| occurs_at(s, p, i)
}

/// The first index at or after `i` where `p` occurs in `s`.
pub open spec fn find_from(s: Seq<char>, p: Seq<char>, i: int) -> Option<int>
    decreases s.len() + 1 - i,
{
    if i < 0 || i + p.len() > s.len() {
        None
    } else if occurs_at(s, p, i) {
        Some(i)
    } else {
        find_from(s, p, i + 1)
    }
}

/// The first index where `p` occurs in `s`.
pub open spec fn find(s: Seq<char>, p: Seq<char>) -> Option<int> {
    find_from(s, p, 0)
}

/// `s` with every occurrence of `p` replaced by `r`, matches taken from the
/// left without overlap (for a non-empty `p`).
pub open spec fn replace_all(s: Seq<char>, p: Seq<char>, r: Seq<char>) -> Seq<char>
    decreases s.len(),
{
    if p.len() == 0 || s.len() == 0 {
        s
    } else if starts_with(s, p) {
        r + replace_all(s.skip(p.len() as int), p, r)
    } else {
        seq![s[0]] + replace_all(s.skip(1), p, r)
    }
}

/// The pieces of `s` between the occurrences of a non-empty `p`, from the left.
pub open spec fn split(s: Seq<char>, p: Seq<char>) -> Seq<Seq<char>>
    decreases s.len(),
{
    if p.len() == 0 {
        seq![s]
    } else {
        match find(s, p) {
            Some(i) => {
                if i + p.len() <= s.len() && i >= 0 {
                    seq![s.take(i)] + split(s.skip(i + p.len()), p)
                } else {
                    seq![s]
                }
            },
            None => seq![s],
        }
    }
}

/// The Unicode `White_Space` property, which `char::is_whitespace` tests.
pub open spec fn is_white_space(c: char) -> bool {
    let u = c as u32;
    ||| 0x09 <= u <= 0x0d
    ||| u == 0x20
    ||| u == 0x85
    ||| u == 0xa0
    ||| u == 0x1680
    ||| 0x2000 <= u <= 0x200a
    ||| u == 0x2028
    ||| u == 0x2029
    ||| u == 0x202f
    ||| u == 0x205f
    ||| u == 0x3000
}

/// `s` without its leading white space.
pub open spec fn trim_start(s: Seq<char>) -> Seq<char>
    decreases s.len(),
{
    if s.len() > 0 && is_white_space(s[0]) {
        trim_start(s.drop_first())
    } else {
        s
    }
}

/// `s` without its trailing white space.
pub open spec fn trim_end(s: Seq<char>) -> Seq<char>
    decreases s.len(),
{
    if s.len() > 0 && is_white_space(s.last()) {
        trim_end(s.drop_last())
    } else {
        s
    }
}

/// `s` without leading and trailing white space.
pub open spec fn trim(s: Seq<char>) -> Seq<char> {
    trim_end(trim_start(s))
}

pub proof fn lemma_find_from(s: Seq<char>, p: Seq<char>, i: int)
    requires
        0 <= i,
    ensures
        find_from(s, p, i) matches Some(j) ==> i <= j && occurs_at(s, p, j)
            && forall|k: int| i <= k < j ==> !occurs_at(s, p, k),
        find_from(s, p, i) is None ==> forall|k: int| i <= k ==> !occurs_at(s, p, k),
    decreases s.len() + 1 - i,
{
    if i + p.len() > s.len() {
    } else if occurs_at(s, p, i) {
    } else {
        lemma_find_from(s, p, i + 1);
    }
}

/// `find` gives the first occurrence, and none exactly when `p` does not occur.
pub proof fn lemma_find(s: Seq<char>, p: Seq<char>)
    ensures
        find(s, p) matches Some(j) ==> occurs_at(s, p, j)
            && forall|k: int| 0 <= k < j ==> !occurs_at(s, p, k),
        find(s, p) is Some <==> contains(s, p),
{
    lemma_find_from(s, p, 0);
}

/// Whether `p` occurs in `s` at index `i`.
pub fn matches_at(s: &Vec<char>, p: &Vec<char>, i: usize) -> (r: bool)
    ensures
        r == occurs_at(s@, p@, i as int),
{
    if i > s.len() || p.len() > s.len() - i {
        return false;
    }
    let mut k: usize = 0;
    while k < p.len()
        invariant
            i + p.len() <= s.len(),
            k <= p.len(),
            forall|j: int| 0 <= j < k ==> s@[i + j] == p@[j],
        decreases p.len() - k,
    {
        if s[i + k] != p[k] {
            assert(s@.subrange(i as int, i + p.len())[k as int] != p@[k as int]);
            return false;
        }
        k = k + 1;
    }
    assert(s@.subrange(i as int, i + p.len()) =~= p@);
    true
}

/// Whether `s` ends with `p`.
pub fn vec_ends_with(s: &Vec<char>, p: &Vec<char>) -> (r: bool)
    ensures
        r == ends_with(s@, p@),
{
    if p.len() > s.len() {
        return false;
    }
    matches_at(s, p, s.len() - p.len())
}

/// The first index at or after `start` where `p` occurs in `s`.
pub fn vec_find_from(s: &Vec<char>, p: &Vec<char>, start: usize) -> (r: Option<usize>)
    ensures
        r matches Some(j) ==> find_from(s@, p@, start as int) == Some(j as int),
        r is None ==> find_from(s@, p@, start as int) is None,
{
    let mut i = start;
    loop
        invariant
            start <= i,
            find_from(s@, p@, start as int) == find_from(s@, p@, i as int),
        decreases s.len() + 1 - i,
    {
        if i > s.len() || p.len() > s.len() - i {
            return None;
        }
        if matches_at(s, p, i) {
            return Some(i);
        }
        if i == s.len() {
            assert(find_from(s@, p@, i + 1) is None);
            return None;
        }
        i = i + 1;
    }
}

/// The first index where `p` occurs in `s`.
pub fn vec_find(s: &Vec<char>, p: &Vec<char>) -> (r: Option<usize>)
    ensures
        r matches Some(j) ==> find(s@, p@) == Some(j as int),
        r is None ==> find(s@, p@) is None,
{
    vec_find_from(s, p, 0)
}

/// Whether `p` occurs in `s`.
pub fn vec_contains(s: &Vec<char>, p: &Vec<char>) -> (r: bool)
    ensures
        r == contains(s@, p@),
{
    proof { lemma_find(s@, p@); }
    vec_find(s, p).is_some()
}

/// The characters of `s` from index `from` up to `to`.
pub fn vec_slice(s: &Vec<char>, from: usize, to: usize) -> (r: Vec<char>)
    requires
        from <= to <= s.len(),
    ensures
        r@ == s@.subrange(from as int, to as int),
{
    let mut out: Vec<char> = Vec::new();
    let mut i = from;
    while i < to
        invariant
            from <= i <= to <= s.len(),
            out@ == s@.subrange(from as int, i as int),
        decreases to - i,
    {
        out.push(s[i]);
        assert(s@.subrange(from as int, i + 1) == s@.subrange(from as int, i as int).push(s@[i as int]));
        i = i + 1;
    }
    out
}

/// Appends the characters of `b` to `a`.
pub fn vec_append(a: &mut Vec<char>, b: &Vec<char>)
    ensures
        final(a)@ == old(a)@ + b@,
{
    let mut i: usize = 0;
    while i < b.len()
        invariant
            i <= b.len(),
            a@ == old(a)@ + b@.take(i as int),
        decreases b.len() - i,
    {
        a.push(b[i]);
        assert(b@.take(i + 1) == b@.take(i as int).push(b@[i as int]));
        i = i + 1;
    }
    assert(b@.take(b.len() as int) == b@);
}

proof fn lemma_replace_step(s: Seq<char>, p: Seq<char>, r: Seq<char>, i: int)
    requires
        p.len() > 0,
        0 <= i < s.len(),
    ensures
        occurs_at(s, p, i) ==> replace_all(s.skip(i), p, r)
            == r + replace_all(s.skip(i + p.len()), p, r),
        !occurs_at(s, p, i) ==> replace_all(s.skip(i), p, r)
            == seq![s[i]] + replace_all(s.skip(i + 1), p, r),
{
    let t = s.skip(i);
    if occurs_at(s, p, i) {
        assert(t.take(p.len() as int) =~= s.subrange(i, i + p.len()));
        assert(t.skip(p.len() as int) =~= s.skip(i + p.len()));
    } else {
        if p.len() <= t.len() {
            assert(t.take(p.len() as int) =~= s.subrange(i, i + p.len()));
        }
        assert(t.skip(1) =~= s.skip(i + 1));
    }
}

/// `s` with every occurrence of a non-empty `p` replaced by `r`.
pub fn vec_replace_all(s: &Vec<char>, p: &Vec<char>, r: &Vec<char>) -> (out: Vec<char>)
    requires
        p.len() > 0,
    ensures
        out@ == replace_all(s@, p@, r@),
{
    let mut out: Vec<char> = Vec::new();
    let mut i: usize = 0;
    assert(s@.skip(0) =~= s@);
    assert(out@ + replace_all(s@, p@, r@) =~= replace_all(s@, p@, r@));
    while i < s.len()
        invariant
            p.len() > 0,
            i <= s.len(),
            out@ + replace_all(s@.skip(i as int), p@, r@) == replace_all(s@, p@, r@),
        decreases s.len() - i,
    {
        proof { lemma_replace_step(s@, p@, r@, i as int); }
        if matches_at(s, p, i) {
            vec_append(&mut out, r);
            assert(out@ + replace_all(s@.skip(i + p.len()), p@, r@) =~= replace_all(s@, p@, r@));
            i = i + p.len();
        } else {
            out.push(s[i]);
            assert(out@ + replace_all(s@.skip(i + 1), p@, r@) =~= replace_all(s@, p@, r@));
            i = i + 1;
        }
    }
    assert(s@.skip(i as int) =~= Seq::<char>::empty());
    assert(out@ + Seq::<char>::empty() =~= out@);
    out
}


/// The character sequences of a vector of strings.
pub open spec fn string_views(v: Seq<String>) -> Seq<Seq<char>> {
    v.map_values(|s: String| s@)
}

/// The character sequences held by a vector of character vectors.
pub open spec fn views(v: Seq<Vec<char>>) -> Seq<Seq<char>> {
    v.map_values(|x: Vec<char>| x@)
}

/// The pieces of `s` between the occurrences of a non-empty `p`.
pub fn vec_split(s: &Vec<char>, p: &Vec<char>) -> (out: Vec<Vec<char>>)
    requires
        p.len() > 0,
    ensures
        views(out@) == split(s@, p@),
{
    let mut out: Vec<Vec<char>> = Vec::new();
    let mut rest = vec_slice(s, 0, s.len());
    assert(rest@ =~= s@);
    assert(views(out@) + split(rest@, p@) =~= split(s@, p@));
    loop
        invariant
            p.len() > 0,
            views(out@) + split(rest@, p@) == split(s@, p@),
        decreases rest.len(),
    {
        match vec_find(&rest, p) {
            Some(i) => {
                proof { lemma_find(rest@, p@); }
                let piece = vec_slice(&rest, 0, i);
                let next = vec_slice(&rest, i + p.len(), rest.len());
                let ghost old_out = out@;
                out.push(piece);
                assert(views(out@) =~= views(old_out).push(piece@));
                assert(split(rest@, p@) == seq![rest@.take(i as int)] + split(next@, p@)) by {
                    assert(next@ =~= rest@.skip(i + p.len()));
                }
                assert(views(out@) + split(next@, p@) =~= views(old_out) + split(rest@, p@));
                rest = next;
            },
            None => {
                let ghost old_out = out@;
                out.push(rest);
                assert(views(out@) =~= views(old_out).push(rest@));
                assert(split(rest@, p@) == seq![rest@]);
                assert(views(out@) =~= views(old_out) + split(rest@, p@));
                return out;
            },
        }
    }
}

/// `char::is_whitespace`: membership in the Unicode `White_Space` property.
pub fn is_whitespace(c: char) -> (r: bool)
    ensures
        r == is_white_space(c),
{
    let u = c as u32;
    (0x09 <= u && u <= 0x0d) || u == 0x20 || u == 0x85 || u == 0xa0 || u == 0x1680
        || (0x2000 <= u && u <= 0x200a) || u == 0x2028 || u == 0x2029 || u == 0x202f
        || u == 0x205f || u == 0x3000
}

proof fn lemma_trim_start_skip(s: Seq<char>, a: int)
    requires
        0 <= a <= s.len(),
        forall|k: int| 0 <= k < a ==> is_white_space(s[k]),
        a == s.len() || !is_white_space(s[a]),
    ensures
        trim_start(s) == s.skip(a),
    decreases a,
{
    if a == 0 {
        assert(s.skip(0) =~= s);
    } else {
        lemma_trim_start_skip(s.drop_first(), a - 1);
        assert(s.drop_first().skip(a - 1) =~= s.skip(a));
    }
}

proof fn lemma_trim_end_take(s: Seq<char>, b: int)
    requires
        0 <= b <= s.len(),
        forall|k: int| b <= k < s.len() ==> is_white_space(s[k]),
        b == 0 || !is_white_space(s[b - 1]),
    ensures
        trim_end(s) == s.take(b),
    decreases s.len() - b,
{
    if b == s.len() {
        assert(s.take(b) =~= s);
    } else {
        lemma_trim_end_take(s.drop_last(), b);
        assert(s.drop_last().take(b) =~= s.take(b));
    }
}

/// `s` without leading and trailing white space (`str::trim`).
pub fn vec_trim(s: &Vec<char>) -> (r: Vec<char>)
    ensures
        r@ == trim(s@),
{
    let mut a: usize = 0;
    while a < s.len() && is_whitespace(s[a])
        invariant
            a <= s.len(),
            forall|k: int| 0 <= k < a ==> is_white_space(s@[k]),
        decreases s.len() - a,
    {
        a = a + 1;
    }
    proof { lemma_trim_start_skip(s@, a as int); }
    let mut b: usize = s.len();
    while b > a && is_whitespace(s[b - 1])
        invariant
            a <= b <= s.len(),
            forall|k: int| b <= k < s.len() ==> is_white_space(s@[k]),
        decreases b,
    {
        b = b - 1;
    }
    proof {
        let t = s@.skip(a as int);
        lemma_trim_end_take(t, b - a);
        assert(t.take(b - a) =~= s@.subrange(a as int, b as int));
    }
    vec_slice(s, a, b)
}

/// `s` with each run of spaces shortened to a single space.
pub open spec fn collapse_space_runs(s: Seq<char>) -> Seq<char>
    decreases s.len(),
{
    if s.len() == 0 {
        s
    } else if s.last() == ' ' && s.len() >= 2 && s[s.len() - 2] == ' ' {
        collapse_space_runs(s.drop_last())
    } else {
        collapse_space_runs(s.drop_last()).push(s.last())
    }
}

/// `s` with each run of spaces shortened to a single space.
pub fn vec_collapse_spaces(s: &Vec<char>) -> (r: Vec<char>)
    ensures
        r@ == collapse_space_runs(s@),
{
    let mut out: Vec<char> = Vec::new();
    let mut prev_space = false;
    let mut i: usize = 0;
    assert(s@.take(0) =~= Seq::<char>::empty());
    while i < s.len()
        invariant
            i <= s.len(),
            out@ == collapse_space_runs(s@.take(i as int)),
            prev_space == (i > 0 && s@[i - 1] == ' '),
        decreases s.len() - i,
    {
        let c = s[i];
        let ghost t = s@.take(i + 1);
        assert(t.drop_last() =~= s@.take(i as int));
        if c == ' ' {
            if !prev_space {
                out.push(c);
            }
            prev_space = true;
        } else {
            out.push(c);
            prev_space = false;
        }
        i = i + 1;
    }
    assert(s@.take(s.len() as int) =~= s@);
    out
}

/// A trimmed sequence neither starts nor ends with white space.
pub proof fn lemma_trim_edges(s: Seq<char>)
    ensures
        trim(s).len() > 0 ==> !is_white_space(trim(s)[0]) && !is_white_space(trim(s).last()),
{
    lemma_trim_start_edge(s);
    lemma_trim_end_keeps_start(trim_start(s));
}

proof fn lemma_trim_start_edge(s: Seq<char>)
    ensures
        trim_start(s).len() > 0 ==> !is_white_space(trim_start(s)[0]),
    decreases s.len(),
{
    if s.len() > 0 && is_white_space(s[0]) {
        lemma_trim_start_edge(s.drop_first());
    }
}

proof fn lemma_trim_end_keeps_start(s: Seq<char>)
    ensures
        trim_end(s).len() > 0 ==> trim_end(s)[0] == s[0] && !is_white_space(trim_end(s).last()),
    decreases s.len(),
{
    if s.len() > 0 && is_white_space(s.last()) {
        lemma_trim_end_keeps_start(s.drop_last());
    }
}


/// The decimal digit for `d` below ten.
pub open spec fn digit_char(d: int) -> char {
    if d == 0 { '0' } else if d == 1 { '1' } else if d == 2 { '2' } else if d == 3 { '3' }
    else if d == 4 { '4' } else if d == 5 { '5' } else if d == 6 { '6' } else if d == 7 { '7' }
    else if d == 8 { '8' } else { '9' }
}

/// The decimal notation of `n`, without leading zeros.
pub open spec fn decimal(n: nat) -> Seq<char>
    decreases n,
{
    if n < 10 {
        seq![digit_char(n as int)]
    } else {
        decimal(n / 10).push(digit_char((n % 10) as int))
    }
}

fn digit(d: u64) -> (c: char)
    requires
        d < 10,
    ensures
        c == digit_char(d as int),
{
    if d == 0 { '0' } else if d == 1 { '1' } else if d == 2 { '2' } else if d == 3 { '3' }
    else if d == 4 { '4' } else if d == 5 { '5' } else if d == 6 { '6' } else if d == 7 { '7' }
    else if d == 8 { '8' } else { '9' }
}

/// The decimal notation of `n`, as `n.to_string()` writes it.
pub fn vec_decimal(n: u64) -> (r: Vec<char>)
    ensures
        r@ == decimal(n as nat),
{
    let mut out: Vec<char> = Vec::new();
    let mut m = n;
    assert(decimal(n as nat) =~= decimal(m as nat) + out@);
    loop
        invariant
            decimal(n as nat) == decimal(m as nat) + out@,
        decreases m,
    {
        let d = digit(m % 10);
        let ghost old_out = out@;
        out.insert(0, d);
        assert(out@ =~= seq![d] + old_out);
        if m < 10 {
            assert(decimal(n as nat) =~= out@);
            return out;
        }
        assert(decimal(m as nat) == decimal((m / 10) as nat).push(digit_char((m % 10) as int)));
        assert(decimal(n as nat) =~= decimal((m / 10) as nat) + out@);
        m = m / 10;
    }
}

/// A size written as "{width}x{height}".
pub open spec fn size_label(w: nat, h: nat) -> Seq<char> {
    decimal(w) + "x"@ + decimal(h)
}

/// "{width}x{height}" for a rectangle size.
pub fn format_size(w: u64, h: u64) -> (r: String)
    ensures
        r@ == size_label(w as nat, h as nat),
{
    let mut s = vec_decimal(w);
    vec_append(&mut s, &chars_of("x"));
    vec_append(&mut s, &vec_decimal(h));
    string_of(&s)
}


/// The code of `c` with ASCII capitals lowered, as `to_ascii_lowercase` does.
pub open spec fn ascii_lower_code(c: char) -> int {
    if 0x41 <= (c as u32) <= 0x5a { (c as u32) + 0x20 } else { c as u32 as int }
}

/// Two sequences equal up to ASCII case, as `str::eq_ignore_ascii_case` tests.
pub open spec fn eq_ignore_ascii_case(a: Seq<char>, b: Seq<char>) -> bool {
    a.len() == b.len() && forall|i: int| 0 <= i < a.len() ==> ascii_lower_code(a[i]) == ascii_lower_code(b[i])
}

fn lower_code(c: char) -> (r: u32)
    ensures
        r == ascii_lower_code(c),
{
    let u = c as u32;
    if 0x41 <= u && u <= 0x5a { u + 0x20 } else { u }
}

/// Whether `a` and `b` are equal up to ASCII case.
pub fn str_eq_ignore_ascii_case(a: &str, b: &str) -> (r: bool)
    ensures
        r == eq_ignore_ascii_case(a@, b@),
{
    let x = chars_of(a);
    let y = chars_of(b);
    if x.len() != y.len() {
        return false;
    }
    let mut i: usize = 0;
    while i < x.len()
        invariant
            x@ == a@,
            y@ == b@,
            x.len() == y.len(),
            i <= x.len(),
            forall|k: int| 0 <= k < i ==> ascii_lower_code(x@[k]) == ascii_lower_code(y@[k]),
        decreases x.len() - i,
    {
        if lower_code(x[i]) != lower_code(y[i]) {
            return false;
        }
        i = i + 1;
    }
    true
}


/// Trimming twice is trimming once.
pub proof fn lemma_trim_idempotent(s: Seq<char>)
    ensures
        trim(trim(s)) == trim(s),
{
    lemma_trim_edges(s);
    let t = trim(s);
    if t.len() > 0 {
        assert(trim_start(t) == t);
        assert(trim_end(t) == t);
    }
}

/// Replacing a pattern that does not occur changes nothing.
pub proof fn lemma_replace_absent(s: Seq<char>, p: Seq<char>, r: Seq<char>)
    requires
        !contains(s, p),
    ensures
        replace_all(s, p, r) == s,
    decreases s.len(),
{
    if p.len() > 0 && s.len() > 0 {
        assert(!starts_with(s, p));
        let t = s.skip(1);
        assert forall|i: int| !occurs_at(t, p, i) by {
            if occurs_at(t, p, i) {
                assert(s.subrange(i + 1, i + 1 + p.len()) =~= t.subrange(i, i + p.len()));
                assert(occurs_at(s, p, i + 1));
            }
        }
        lemma_replace_absent(t, p, r);
        assert(seq![s[0]] + t =~= s);
    }
}

} // verus!
