//! Small string helpers the rest of the crate builds on: reading a `&str`
//! as a sequence of characters and assembling a `String` one character at
//! a time.

use vstd::prelude::*;

verus! {

/// The characters of `s`, in order.
pub fn chars_of(s: &str) -> (v: Vec<char>)
    ensures
        v@ == s@,
{
    let n = s.unicode_len();
    let mut v: Vec<char> = Vec::new();
    let mut i: usize = 0;
    while i < n
        invariant
            i <= n,
            n == s@.len(),
            v@ == s@.subrange(0, i as int),
        decreases n - i,
    {
        v.push(s.get_char(i));
        i += 1;
        assert(v@ =~= s@.subrange(0, i as int));
    }
    assert(v@ =~= s@);
    v
}

/// Appends one character to a `String` (std's `String::push`).
#[verifier::external_body]
pub(crate) fn push_char(s: &mut String, c: char)
    ensures
        final(s)@ == old(s)@.push(c),
{
    s.push(c);
}

/// Appends the characters `v[from..to]` to `out`.
pub fn push_chars(out: &mut String, v: &Vec<char>, from: usize, to: usize)
    requires
        from <= to <= v@.len(),
    ensures
        final(out)@ == old(out)@ + v@.subrange(from as int, to as int),
{
    let ghost start = out@;
    let mut i = from;
    while i < to
        invariant
            from <= i <= to,
            to <= v@.len(),
            out@ == start + v@.subrange(from as int, i as int),
        decreases to - i,
    {
        push_char(out, v[i]);
        i += 1;
        assert(out@ =~= start + v@.subrange(from as int, i as int));
    }
}

/// A `String` holding exactly the characters of `v`.
pub fn string_of(v: &Vec<char>) -> (s: String)
    ensures
        s@ == v@,
{
    let mut s = String::new();
    push_chars(&mut s, v, 0, v.len());
    assert(v@.subrange(0, v@.len() as int) =~= v@);
    s
}

/// A `String` holding the characters of `s`.
pub fn owned(s: &str) -> (r: String)
    ensures
        r@ == s@,
{
    String::from_str(s)
}

/// Appends the characters of `s` to `out`.
pub fn push_str(out: &mut String, s: &str)
    ensures
        final(out)@ == old(out)@ + s@,
{
    out.append(s);
}

/// Do two character sequences hold the same characters?
pub fn chars_eq(a: &Vec<char>, b: &Vec<char>) -> (r: bool)
    ensures
        r == (a@ == b@),
{
    if a.len() != b.len() {
        return false;
    }
    let mut i: usize = 0;
    while i < a.len()
        invariant
            i <= a@.len(),
            a@.len() == b@.len(),
            forall|j: int| 0 <= j < i ==> a@[j] == b@[j],
        decreases a@.len() - i,
    {
        if a[i] != b[i] {
            return false;
        }
        i += 1;
    }
    assert(a@ =~= b@);
    true
}

/// Do two strings hold the same characters?
pub fn str_eq(a: &str, b: &str) -> (r: bool)
    ensures
        r == (a@ == b@),
{
    let va = chars_of(a);
    let vb = chars_of(b);
    chars_eq(&va, &vb)
}

/// Is `p` a prefix of `s`?
pub open spec fn is_prefix(p: Seq<char>, s: Seq<char>) -> bool {
    p.len() <= s.len() && s.subrange(0, p.len() as int) == p
}

/// Is `p` a suffix of `s`?
pub open spec fn is_suffix(p: Seq<char>, s: Seq<char>) -> bool {
    p.len() <= s.len() && s.subrange(s.len() - p.len(), s.len() as int) == p
}

/// Does `s` start with `p`?
pub fn starts_with(s: &Vec<char>, p: &Vec<char>) -> (r: bool)
    ensures
        r == is_prefix(p@, s@),
{
    if p.len() > s.len() {
        return false;
    }
    let mut i: usize = 0;
    while i < p.len()
        invariant
            i <= p@.len(),
            p@.len() <= s@.len(),
            forall|j: int| 0 <= j < i ==> s@[j] == p@[j],
        decreases p@.len() - i,
    {
        if s[i] != p[i] {
            assert(s@.subrange(0, p@.len() as int)[i as int] != p@[i as int]);
            return false;
        }
        i += 1;
    }
    assert(s@.subrange(0, p@.len() as int) =~= p@);
    true
}

/// Does `s` end with `p`?
pub fn ends_with(s: &Vec<char>, p: &Vec<char>) -> (r: bool)
    ensures
        r == is_suffix(p@, s@),
{
    if p.len() > s.len() {
        return false;
    }
    let off = s.len() - p.len();
    let mut i: usize = 0;
    while i < p.len()
        invariant
            i <= p@.len(),
            p@.len() <= s@.len(),
            off + p@.len() == s@.len(),
            s@.len() == s.len(),
            forall|j: int| 0 <= j < i ==> s@[off + j] == p@[j],
        decreases p@.len() - i,
    {
        if s[off + i] != p[i] {
            assert(s@.subrange(off as int, s@.len() as int)[i as int] != p@[i as int]);
            return false;
        }
        i += 1;
    }
    assert(s@.subrange(off as int, s@.len() as int) =~= p@);
    true
}

/// The characters `v[from..to]` as a new vector.
pub fn slice_vec(v: &Vec<char>, from: usize, to: usize) -> (r: Vec<char>)
    requires
        from <= to <= v@.len(),
    ensures
        r@ == v@.subrange(from as int, to as int),
{
    let mut r: Vec<char> = Vec::new();
    let mut i = from;
    while i < to
        invariant
            from <= i <= to,
            to <= v@.len(),
            r@ == v@.subrange(from as int, i as int),
        decreases to - i,
    {
        r.push(v[i]);
        i += 1;
        assert(r@ =~= v@.subrange(from as int, i as int));
    }
    r
}

/// Unicode `White_Space`, the set `char::is_whitespace` tests.
pub open spec fn is_ws(c: char) -> bool {
    c == ' ' || ('\t' <= c && c <= '\r') || c == '\u{85}' || c == '\u{A0}' || c == '\u{1680}'
        || ('\u{2000}' <= c && c <= '\u{200A}') || c == '\u{2028}' || c == '\u{2029}' || c
        == '\u{202F}' || c == '\u{205F}' || c == '\u{3000}'
}

/// Is `c` Unicode whitespace?
pub fn is_whitespace(c: char) -> (b: bool)
    ensures
        b == is_ws(c),
{
    c == ' ' || ('\t' <= c && c <= '\r') || c == '\u{85}' || c == '\u{A0}' || c == '\u{1680}'
        || ('\u{2000}' <= c && c <= '\u{200A}') || c == '\u{2028}' || c == '\u{2029}' || c
        == '\u{202F}' || c == '\u{205F}' || c == '\u{3000}'
}

/// `s` without its trailing whitespace.
pub open spec fn trim_end_ws(s: Seq<char>) -> Seq<char>
    decreases s.len(),
{
    if s.len() > 0 && is_ws(s.last()) {
        trim_end_ws(s.drop_last())
    } else {
        s
    }
}

/// `s` without its leading whitespace.
pub open spec fn trim_start_ws(s: Seq<char>) -> Seq<char>
    decreases s.len(),
{
    if s.len() > 0 && is_ws(s[0]) {
        trim_start_ws(s.drop_first())
    } else {
        s
    }
}

/// `s` without any whitespace at either end.
pub open spec fn trim_ws(s: Seq<char>) -> Seq<char> {
    trim_start_ws(trim_end_ws(s))
}

/// Trimming trailing whitespace keeps a prefix whose last character, if
/// any, is not whitespace.
pub proof fn lemma_trim_end_ws(s: Seq<char>)
    ensures
        is_prefix(trim_end_ws(s), s),
        trim_end_ws(s).len() > 0 ==> !is_ws(trim_end_ws(s).last()),
        forall|i: int| trim_end_ws(s).len() <= i < s.len() ==> is_ws(#[trigger] s[i]),
    decreases s.len(),
{
    if s.len() > 0 && is_ws(s.last()) {
        lemma_trim_end_ws(s.drop_last());
        assert(s.drop_last().subrange(0, trim_end_ws(s).len() as int) =~= s.subrange(
            0,
            trim_end_ws(s).len() as int,
        ));
        assert forall|i: int| trim_end_ws(s).len() <= i < s.len() implies is_ws(#[trigger] s[i]) by {
            if i < s.len() - 1 {
                assert(s[i] == s.drop_last()[i]);
            }
        }
    } else {
        assert(s.subrange(0, s.len() as int) =~= s);
    }
}

/// Trimming leading whitespace keeps a suffix whose first character, if
/// any, is not whitespace.
pub proof fn lemma_trim_start_ws(s: Seq<char>)
    ensures
        is_suffix(trim_start_ws(s), s),
        trim_start_ws(s).len() > 0 ==> !is_ws(trim_start_ws(s)[0]),
        forall|i: int| 0 <= i < s.len() - trim_start_ws(s).len() ==> is_ws(#[trigger] s[i]),
    decreases s.len(),
{
    if s.len() > 0 && is_ws(s[0]) {
        lemma_trim_start_ws(s.drop_first());
        let t = trim_start_ws(s);
        assert(s.drop_first().subrange(s.drop_first().len() - t.len(), s.drop_first().len() as int)
            =~= s.subrange(s.len() - t.len(), s.len() as int));
        assert forall|i: int| 0 <= i < s.len() - t.len() implies is_ws(#[trigger] s[i]) by {
            if i > 0 {
                assert(s[i] == s.drop_first()[i - 1]);
            }
        }
    } else {
        assert(s.subrange(0, s.len() as int) =~= s);
    }
}

/// The number of trailing whitespace characters of `v`.
pub fn trailing_ws_len(v: &Vec<char>) -> (n: usize)
    ensures
        n == v@.len() - trim_end_ws(v@).len(),
{
    let mut k = v.len();
    assert(v@.subrange(0, k as int) =~= v@);
    while k > 0 && is_whitespace(v[k - 1])
        invariant
            k <= v@.len(),
            trim_end_ws(v@.subrange(0, k as int)) == trim_end_ws(v@),
        decreases k,
    {
        assert(v@.subrange(0, k as int).drop_last() =~= v@.subrange(0, k - 1));
        k -= 1;
    }
    assert(trim_end_ws(v@.subrange(0, k as int)) == v@.subrange(0, k as int));
    v.len() - k
}

/// The number of leading whitespace characters of `v`.
pub fn leading_ws_len(v: &Vec<char>) -> (n: usize)
    ensures
        n == v@.len() - trim_start_ws(v@).len(),
{
    let mut k: usize = 0;
    assert(v@.subrange(0, v@.len() as int) =~= v@);
    while k < v.len() && is_whitespace(v[k])
        invariant
            k <= v@.len(),
            trim_start_ws(v@.subrange(k as int, v@.len() as int)) == trim_start_ws(v@),
        decreases v@.len() - k,
    {
        assert(v@.subrange(k as int, v@.len() as int).drop_first() =~= v@.subrange(
            k + 1,
            v@.len() as int,
        ));
        k += 1;
    }
    assert(v@.subrange(0, v@.len() as int) =~= v@);
    assert(trim_start_ws(v@.subrange(k as int, v@.len() as int)) == v@.subrange(
        k as int,
        v@.len() as int,
    ));
    k
}

/// The length of the run of non-whitespace characters `s` starts with.
pub open spec fn run_len(s: Seq<char>) -> nat
    decreases s.len(),
{
    if s.len() == 0 || is_ws(s[0]) {
        0
    } else {
        1 + run_len(s.drop_first())
    }
}

/// The maximal runs of non-whitespace characters of `s`, in order: what
/// `str::split_whitespace` yields.
pub open spec fn words(s: Seq<char>) -> Seq<Seq<char>>
    decreases s.len(),
{
    if s.len() == 0 {
        Seq::<Seq<char>>::empty()
    } else if is_ws(s[0]) {
        words(s.drop_first())
    } else {
        let k = run_len(s);
        if 0 < k <= s.len() {
            seq![s.subrange(0, k as int)] + words(s.subrange(k as int, s.len() as int))
        } else {
            Seq::<Seq<char>>::empty()
        }
    }
}

/// A run is no longer than its text, and non-empty when the text starts
/// with a non-whitespace character.
pub proof fn lemma_run_len_bounds(s: Seq<char>)
    ensures
        run_len(s) <= s.len(),
        s.len() > 0 && !is_ws(s[0]) ==> run_len(s) > 0,
    decreases s.len(),
{
    if s.len() > 0 && !is_ws(s[0]) {
        lemma_run_len_bounds(s.drop_first());
    }
}

/// A run of `k` non-whitespace characters followed by the end or by
/// whitespace has length `k`.
pub proof fn lemma_run_len_exact(s: Seq<char>, k: nat)
    requires
        k <= s.len(),
        forall|j: int| 0 <= j < k ==> !is_ws(#[trigger] s[j]),
        k == s.len() || is_ws(s[k as int]),
    ensures
        run_len(s) == k,
    decreases k,
{
    if k > 0 {
        let t = s.drop_first();
        assert forall|j: int| 0 <= j < k - 1 implies !is_ws(#[trigger] t[j]) by {
            assert(t[j] == s[j + 1]);
        }
        if k < s.len() {
            assert(t[k - 1] == s[k as int]);
        }
        lemma_run_len_exact(t, (k - 1) as nat);
    }
}

/// Split `s` at whitespace into its words (`str::split_whitespace`).
pub fn split_words(s: &str) -> (out: Vec<String>)
    ensures
        out@.len() == words(s@).len(),
        forall|i: int| 0 <= i < out@.len() ==> #[trigger] out@[i]@ == words(s@)[i],
{
    let v = chars_of(s);
    let n = v.len();
    let mut out: Vec<String> = Vec::new();
    let mut i: usize = 0;
    let ghost done: Seq<Seq<char>> = Seq::empty();
    assert(v@.subrange(0, n as int) =~= v@);
    while i < n
        invariant
            i <= n,
            n == v@.len(),
            v@ == s@,
            out@.len() == done.len(),
            forall|k: int| 0 <= k < out@.len() ==> #[trigger] out@[k]@ == done[k],
            words(s@) == done + words(v@.subrange(i as int, n as int)),
        decreases n - i,
    {
        let ghost rest = v@.subrange(i as int, n as int);
        if is_whitespace(v[i]) {
            assert(rest.drop_first() =~= v@.subrange(i + 1, n as int));
            i += 1;
        } else {
            let start = i;
            while i < n && !is_whitespace(v[i])
                invariant
                    start <= i <= n,
                    n == v@.len(),
                    forall|j: int| start <= j < i ==> !is_ws(#[trigger] v@[j]),
                decreases n - i,
            {
                i += 1;
            }
            proof {
                assert forall|j: int| 0 <= j < i - start implies !is_ws(#[trigger] rest[j]) by {
                    assert(rest[j] == v@[start + j]);
                }
                if i < n {
                    assert(rest[i - start] == v@[i as int]);
                }
                lemma_run_len_exact(rest, (i - start) as nat);
                assert(rest.subrange(0, (i - start) as int) =~= v@.subrange(start as int, i as int));
                assert(rest.subrange((i - start) as int, rest.len() as int) =~= v@.subrange(
                    i as int,
                    n as int,
                ));
            }
            let w = slice_vec(&v, start, i);
            let ws = string_of(&w);
            out.push(ws);
            proof {
                done = done.push(v@.subrange(start as int, i as int));
                assert(words(rest) == seq![v@.subrange(start as int, i as int)] + words(
                    v@.subrange(i as int, n as int),
                ));
                assert(words(s@) =~= done + words(v@.subrange(i as int, n as int)));
            }
        }
    }
    assert(words(v@.subrange(n as int, n as int)) =~= Seq::<Seq<char>>::empty());
    assert(done + Seq::<Seq<char>>::empty() =~= done);
    out
}

/// The characters of each string of `list`.
pub open spec fn views(list: Seq<&str>) -> Seq<Seq<char>> {
    list.map_values(|s: &str| s@)
}

/// Is `name` one of the strings of `list`?
pub fn contains_str(list: &[&str], name: &str) -> (b: bool)
    ensures
        b == views(list@).contains(name@),
{
    let n = list.len();
    let mut i: usize = 0;
    while i < n
        invariant
            i <= n,
            n == list@.len(),
            forall|k: int| 0 <= k < i ==> views(list@)[k] != name@,
        decreases n - i,
    {
        if str_eq(list[i], name) {
            assert(views(list@)[i as int] == name@);
            return true;
        }
        i += 1;
    }
    false
}

/// Does `s` start with `p`?
pub fn str_starts_with(s: &str, p: &str) -> (b: bool)
    ensures
        b == is_prefix(p@, s@),
{
    let vs = chars_of(s);
    let vp = chars_of(p);
    starts_with(&vs, &vp)
}

/// `c` is an ASCII letter or digit.
pub open spec fn is_ascii_alnum(c: char) -> bool {
    ('a' <= c && c <= 'z') || ('A' <= c && c <= 'Z') || ('0' <= c && c <= '9')
}

/// Is `c` an ASCII letter or digit? (`char::is_ascii_alphanumeric`)
pub fn ascii_alnum(c: char) -> (b: bool)
    ensures
        b == is_ascii_alnum(c),
{
    ('a' <= c && c <= 'z') || ('A' <= c && c <= 'Z') || ('0' <= c && c <= '9')
}

/// `c` with an ASCII capital letter lowered; any other char unchanged.
pub open spec fn ascii_lower(c: char) -> char {
    if 'A' <= c && c <= 'Z' {
        ((c as u32) + 32) as char
    } else {
        c
    }
}

/// `a` and `b` are equal once ASCII letters are compared without case.
pub open spec fn eq_ignore_ascii_case(a: Seq<char>, b: Seq<char>) -> bool {
    a.len() == b.len() && forall|i: int| 0 <= i < a.len() ==> ascii_lower(#[trigger] a[i]) == ascii_lower(b[i])
}

pub fn lower_char(c: char) -> (r: char)
    ensures
        r == ascii_lower(c),
{
    if 'A' <= c && c <= 'Z' {
        let u: u8 = (c as u32) as u8;
        (u + 32) as char
    } else {
        c
    }
}

/// `c` with an ASCII small letter raised (`char::to_ascii_uppercase`).
pub open spec fn ascii_upper(c: char) -> char {
    if 'a' <= c && c <= 'z' {
        ((c as u32) - 32) as char
    } else {
        c
    }
}

/// `c` with an ASCII small letter raised.
pub fn upper_char(c: char) -> (r: char)
    ensures
        r == ascii_upper(c),
{
    if 'a' <= c && c <= 'z' {
        let u: u8 = (c as u32) as u8;
        (u - 32) as char
    } else {
        c
    }
}

/// Are `a` and `b` equal, ignoring ASCII case? (`str::eq_ignore_ascii_case`)
pub fn str_eq_ignore_ascii_case(a: &str, b: &str) -> (r: bool)
    ensures
        r == eq_ignore_ascii_case(a@, b@),
{
    let va = chars_of(a);
    let vb = chars_of(b);
    if va.len() != vb.len() {
        return false;
    }
    let mut i: usize = 0;
    while i < va.len()
        invariant
            i <= va@.len(),
            va@.len() == vb@.len(),
            va@ == a@,
            vb@ == b@,
            forall|j: int| 0 <= j < i ==> ascii_lower(#[trigger] va@[j]) == ascii_lower(vb@[j]),
        decreases va@.len() - i,
    {
        if lower_char(va[i]) != lower_char(vb[i]) {
            return false;
        }
        i += 1;
    }
    true
}

/// `s` with surrounding whitespace removed (`str::trim`).
pub fn trim_str(s: &str) -> (r: String)
    ensures
        r@ == trim_ws(s@),
{
    let v = chars_of(s);
    let trail = trailing_ws_len(&v);
    proof {
        lemma_trim_end_ws(v@);
    }
    let te = slice_vec(&v, 0, v.len() - trail);
    assert(te@ =~= trim_end_ws(v@));
    let lead = leading_ws_len(&te);
    proof {
        lemma_trim_start_ws(te@);
    }
    let t = slice_vec(&te, lead, te.len());
    assert(t@ =~= trim_ws(s@));
    string_of(&t)
}

/// `s` with leading whitespace removed (`str::trim_start`).
pub fn trim_start_str(s: &str) -> (r: String)
    ensures
        r@ == trim_start_ws(s@),
{
    let v = chars_of(s);
    let lead = leading_ws_len(&v);
    proof {
        lemma_trim_start_ws(v@);
    }
    let t = slice_vec(&v, lead, v.len());
    assert(t@ =~= trim_start_ws(s@));
    string_of(&t)
}

/// `s` with ASCII capitals lowered.
pub open spec fn lower_ascii(s: Seq<char>) -> Seq<char> {
    s.map_values(|c: char| ascii_lower(c))
}

/// `s` with ASCII capitals lowered (`str::to_ascii_lowercase`).
pub fn to_ascii_lower(s: &str) -> (r: String)
    ensures
        r@ == lower_ascii(s@),
{
    let v = chars_of(s);
    let mut out = String::new();
    let mut i: usize = 0;
    while i < v.len()
        invariant
            i <= v@.len(),
            v@ == s@,
            out@ == lower_ascii(v@.subrange(0, i as int)),
        decreases v@.len() - i,
    {
        push_char(&mut out, lower_char(v[i]));
        i += 1;
        assert(out@ =~= lower_ascii(v@.subrange(0, i as int)));
    }
    assert(v@.subrange(0, v@.len() as int) =~= v@);
    out
}

/// The characters of each string of `v`.
pub open spec fn string_views(v: Seq<String>) -> Seq<Seq<char>> {
    v.map_values(|s: String| s@)
}

/// The index of the first `c` in `s`.
pub open spec fn first_index(s: Seq<char>, c: char) -> Option<nat>
    decreases s.len(),
{
    if s.len() == 0 {
        None
    } else if s[0] == c {
        Some(0)
    } else {
        match first_index(s.drop_first(), c) {
            Some(k) => Some(k + 1),
            None => None,
        }
    }
}

/// Where the first `c` of `v` is, if any.
pub fn find_char(v: &Vec<char>, c: char) -> (r: Option<usize>)
    ensures
        r is Some <==> first_index(v@, c) is Some,
        r matches Some(k) ==> first_index(v@, c) == Some(k as nat) && k < v@.len() && v@[k as int] == c,
{
    let mut i: usize = 0;
    assert(v@.subrange(0, v@.len() as int) =~= v@);
    while i < v.len()
        invariant
            i <= v@.len(),
            forall|j: int| 0 <= j < i ==> v@[j] != c,
            first_index(v@.subrange(i as int, v@.len() as int), c) matches Some(k) ==> first_index(v@, c) == Some((k + i) as nat),
            first_index(v@.subrange(i as int, v@.len() as int), c) is None ==> first_index(v@, c) is None,
        decreases v@.len() - i,
    {
        let ghost rest = v@.subrange(i as int, v@.len() as int);
        if v[i] == c {
            assert(rest[0] == c);
            return Some(i);
        }
        assert(rest.drop_first() =~= v@.subrange(i + 1, v@.len() as int));
        i += 1;
    }
    proof {
        assert(v@.subrange(v@.len() as int, v@.len() as int) =~= Seq::<char>::empty());
    }
    None
}

/// The character for a decimal digit.
pub open spec fn digit(d: nat) -> char {
    (d + 48) as char
}

/// The decimal spelling of `n`, most significant digit first.
pub open spec fn decimal(n: nat) -> Seq<char>
    decreases n,
{
    if n < 10 {
        seq![digit(n)]
    } else {
        decimal(n / 10).push(digit(n % 10))
    }
}

/// Appends the decimal spelling of `n` to `out`.
pub fn push_decimal(out: &mut String, n: u64)
    ensures
        final(out)@ == old(out)@ + decimal(n as nat),
    decreases n,
{
    if n >= 10 {
        push_decimal(out, n / 10);
    }
    let d: u8 = (n % 10) as u8;
    let c: char = (d + 48u8) as char;
    assert(c == digit((n % 10) as nat));
    push_char(out, c);
    assert(final(out)@ =~= old(out)@ + decimal(n as nat)) by {
        if n < 10 {
        } else {
        }
    }
}

/// The decimal spelling of `n`.
pub fn u64_to_string(n: u64) -> (s: String)
    ensures
        s@ == decimal(n as nat),
{
    let mut s = String::new();
    push_decimal(&mut s, n);
    assert(s@ =~= decimal(n as nat));
    s
}

} // verus!
