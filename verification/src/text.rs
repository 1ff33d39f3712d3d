//! Text primitives over sequences of characters.
//!
//! Every routine of the library works on `Vec<char>` and is specified over
//! `Seq<char>`; the functions here move between `str` and that form and give
//! the searching, trimming and splitting operations their meaning.

use vstd::prelude::*;
use vstd::std_specs::iter::IteratorSpec;
use vstd::string::next_postcondition;
use vstd::string::axiom_spec_iter;

verus! {

/// Appends one character to a `String` by `String::push`: the view grows by
/// exactly that character at its end.
#[verifier::external_body]
pub(crate) fn push_char(s: &mut String, c: char)
    ensures
        final(s)@ == old(s)@.push(c),
{
    s.push(c)
}

/// The characters of `s`, in order.
pub fn chars_of(s: &str) -> (v: Vec<char>)
    ensures
        v@ == s@,
{
    let mut v: Vec<char> = Vec::new();
    broadcast use {next_postcondition, axiom_spec_iter};
    let mut it = s.chars();
    loop
        invariant
            v@ + it.remaining() == s@,
            it.obeys_prophetic_iter_laws(),
            it.decrease() is Some,
        ensures
            v@ == s@,
        decreases it.decrease()->0,
    {
        match it.next() {
            Some(c) => {
                v.push(c);
                assert(v@ + it.remaining() =~= s@);
            },
            None => {
                assert(v@ =~= s@);
                break;
            },
        }
    }
    v
}

/// The string made of the characters of `v`, in order.
pub fn string_of(v: &Vec<char>) -> (s: String)
    ensures
        s@ == v@,
{
    let mut s = String::new();
    let mut i: usize = 0;
    while i < v.len()
        invariant
            i <= v.len(),
            s@ == v@.take(i as int),
        decreases v.len() - i,
    {
        push_char(&mut s, v[i]);
        i += 1;
    }
    assert(v@.take(v.len() as int) == v@);
    s
}



/// Whether `c` is white space in the sense of `str::trim` (the Unicode
/// property White_Space).
pub open spec fn is_space(c: char) -> bool {
    let n = c as u32;
    ||| (0x09 <= n && n <= 0x0D)
    ||| n == 0x20
    ||| n == 0x85
    ||| n == 0xA0
    ||| n == 0x1680
    ||| (0x2000 <= n && n <= 0x200A)
    ||| n == 0x2028
    ||| n == 0x2029
    ||| n == 0x202F
    ||| n == 0x205F
    ||| n == 0x3000
}

/// Decides whether `c` is white space.
pub fn is_space_char(c: char) -> (b: bool)
    ensures
        b == is_space(c),
{
    let n: u32 = c as u32;
    (0x09 <= n && n <= 0x0D) || n == 0x20 || n == 0x85 || n == 0xA0 || n == 0x1680 || (0x2000 <= n
        && n <= 0x200A) || n == 0x2028 || n == 0x2029 || n == 0x202F || n == 0x205F || n == 0x3000
}

/// The number of bytes that `c` takes in UTF-8.
pub open spec fn utf8_width(c: char) -> nat {
    let n = c as u32;
    if n < 0x80 {
        1
    } else if n < 0x800 {
        2
    } else if n < 0x10000 {
        3
    } else {
        4
    }
}

/// The number of leading white-space characters of `s`.
pub open spec fn lead_count(s: Seq<char>) -> nat
    decreases s.len(),
{
    if s.len() > 0 && is_space(s[0]) {
        1 + lead_count(s.drop_first())
    } else {
        0
    }
}

/// The number of trailing white-space characters of `s`.
pub open spec fn trail_count(s: Seq<char>) -> nat
    decreases s.len(),
{
    if s.len() > 0 && is_space(s.last()) {
        1 + trail_count(s.drop_last())
    } else {
        0
    }
}

/// The sum of the UTF-8 widths of the first `n` characters of `s`.
pub open spec fn width_of(s: Seq<char>, n: nat) -> nat
    decreases n,
{
    if n == 0 || n > s.len() {
        0
    } else {
        width_of(s, (n - 1) as nat) + utf8_width(s[n - 1])
    }
}

/// The indentation of a line: the byte length of its leading white space.
pub open spec fn indent_of(s: Seq<char>) -> nat {
    width_of(s, lead_count(s))
}

/// The indentation as the library measures it: `indent_of`, held to the
/// machine's word.
pub open spec fn indent(s: Seq<char>) -> nat {
    if indent_of(s) <= usize::MAX {
        indent_of(s)
    } else {
        usize::MAX as nat
    }
}

/// `s` without its leading white space.
pub open spec fn trim_start(s: Seq<char>) -> Seq<char> {
    s.skip(lead_count(s) as int)
}

/// `s` without its trailing white space.
pub open spec fn trim_end(s: Seq<char>) -> Seq<char> {
    s.take(s.len() - trail_count(s))
}

/// `s` without leading and trailing white space.
pub open spec fn trim(s: Seq<char>) -> Seq<char> {
    trim_end(trim_start(s))
}

/// A run of `n` white-space characters followed by the end or by another
/// character is the whole leading white space.
pub proof fn lemma_lead_count_is(s: Seq<char>, n: nat)
    requires
        n <= s.len(),
        forall|k: int| 0 <= k < n ==> is_space(#[trigger] s[k]),
        n < s.len() ==> !is_space(s[n as int]),
    ensures
        lead_count(s) == n,
    decreases s.len(),
{
    if n > 0 {
        let t = s.drop_first();
        assert(is_space(s[0]));
        assert forall|k: int| 0 <= k < n - 1 implies is_space(#[trigger] t[k]) by {
            assert(t[k] == s[k + 1]);
        }
        lemma_lead_count_is(t, (n - 1) as nat);
    }
}

/// A run of `n` white-space characters at the end, with the start or another
/// character before it, is the whole trailing white space.
pub proof fn lemma_trail_count_is(s: Seq<char>, n: nat)
    requires
        n <= s.len(),
        forall|k: int| s.len() - n <= k < s.len() ==> is_space(#[trigger] s[k]),
        n < s.len() ==> !is_space(s[s.len() - n - 1]),
    ensures
        trail_count(s) == n,
    decreases s.len(),
{
    if n > 0 {
        let t = s.drop_last();
        assert(is_space(s[s.len() - 1]));
        assert forall|k: int| t.len() - (n - 1) <= k < t.len() implies is_space(
            #[trigger] t[k],
        ) by {
            assert(t[k] == s[k]);
        }
        lemma_trail_count_is(t, (n - 1) as nat);
    }
}

/// The number of leading white-space characters of `v`.
pub fn lead_len(v: &Vec<char>) -> (n: usize)
    ensures
        n == lead_count(v@),
        n <= v.len(),
{
    let mut i: usize = 0;
    while i < v.len() && is_space_char(v[i])
        invariant
            i <= v.len(),
            forall|k: int| 0 <= k < i ==> is_space(#[trigger] v@[k]),
        decreases v.len() - i,
    {
        i += 1;
    }
    proof {
        lemma_lead_count_is(v@, i as nat);
    }
    i
}

/// The number of trailing white-space characters of `v`.
pub fn trail_len(v: &Vec<char>) -> (n: usize)
    ensures
        n == trail_count(v@),
        n <= v.len(),
{
    let mut i: usize = 0;
    while i < v.len() && is_space_char(v[v.len() - 1 - i])
        invariant
            i <= v.len(),
            forall|k: int| v.len() - i <= k < v.len() ==> is_space(#[trigger] v@[k]),
        decreases v.len() - i,
    {
        i += 1;
    }
    proof {
        lemma_trail_count_is(v@, i as nat);
    }
    i
}

/// The characters of `v` from `a` up to `b`.
pub fn slice(v: &Vec<char>, a: usize, b: usize) -> (r: Vec<char>)
    requires
        a <= b <= v.len(),
    ensures
        r@ == v@.subrange(a as int, b as int),
{
    let mut r: Vec<char> = Vec::new();
    let mut i: usize = a;
    while i < b
        invariant
            a <= i <= b <= v.len(),
            r@ == v@.subrange(a as int, i as int),
        decreases b - i,
    {
        r.push(v[i]);
        assert(r@ =~= v@.subrange(a as int, i + 1));
        i += 1;
    }
    assert(r@ =~= v@.subrange(a as int, b as int));
    r
}

/// Appends the characters of `w` to `v`.
pub fn push_all(v: &mut Vec<char>, w: &Vec<char>)
    ensures
        final(v)@ == old(v)@ + w@,
{
    let mut i: usize = 0;
    while i < w.len()
        invariant
            i <= w.len(),
            v@ == old(v)@ + w@.take(i as int),
        decreases w.len() - i,
    {
        v.push(w[i]);
        assert(v@ =~= old(v)@ + w@.take(i + 1));
        i += 1;
    }
    assert(w@.take(w.len() as int) =~= w@);
}

/// Appends the characters of the string `s` to `v`.
pub fn push_str(v: &mut Vec<char>, s: &str)
    ensures
        final(v)@ == old(v)@ + s@,
{
    let w = chars_of(s);
    push_all(v, &w);
}

/// `v` without its leading white space.
pub fn trim_start_of(v: &Vec<char>) -> (r: Vec<char>)
    ensures
        r@ == trim_start(v@),
{
    let a = lead_len(v);
    slice(v, a, v.len())
}

/// `v` without its trailing white space.
pub fn trim_end_of(v: &Vec<char>) -> (r: Vec<char>)
    ensures
        r@ == trim_end(v@),
{
    let b = trail_len(v);
    slice(v, 0, v.len() - b)
}

/// `v` without leading and trailing white space.
pub fn trim_of(v: &Vec<char>) -> (r: Vec<char>)
    ensures
        r@ == trim(v@),
{
    let a = trim_start_of(v);
    trim_end_of(&a)
}

/// The indentation of the line `v`, saturating at `usize::MAX`.
pub fn indent_len(v: &Vec<char>) -> (n: usize)
    ensures
        n == indent(v@),
{
    let lead = lead_len(v);
    let mut i: usize = 0;
    let mut n: usize = 0;
    while i < lead
        invariant
            i <= lead <= v.len(),
            n == if width_of(v@, i as nat) <= usize::MAX { width_of(v@, i as nat) } else { usize::MAX as nat },
        decreases lead - i,
    {
        let c: u32 = v[i] as u32;
        let w: usize = if c < 0x80 { 1 } else if c < 0x800 { 2 } else if c < 0x10000 { 3 } else { 4 };
        assert(width_of(v@, (i + 1) as nat) == width_of(v@, i as nat) + utf8_width(v@[i as int]));
        n = n.saturating_add(w);
        i += 1;
    }
    n
}



/// Whether `p` occurs in `s` at position `i`.
pub open spec fn match_at(s: Seq<char>, i: int, p: Seq<char>) -> bool {
    0 <= i && i + p.len() <= s.len() && s.subrange(i, i + p.len()) == p
}

/// Whether `s` begins with `p`.
pub open spec fn starts_with(s: Seq<char>, p: Seq<char>) -> bool {
    match_at(s, 0, p)
}

/// Whether `s` ends with `p`.
pub open spec fn ends_with(s: Seq<char>, p: Seq<char>) -> bool {
    match_at(s, s.len() - p.len(), p)
}

/// The first position at or after `i` where `p` occurs in `s`, or
/// `s.len() + 1` where there is none.
pub open spec fn find_from(s: Seq<char>, p: Seq<char>, i: int) -> int
    decreases s.len() - i,
{
    if i < 0 || i > s.len() {
        (s.len() + 1) as int
    } else if match_at(s, i, p) {
        i
    } else if i == s.len() {
        (s.len() + 1) as int
    } else {
        find_from(s, p, i + 1)
    }
}

/// Whether `p` occurs somewhere in `s`.
pub open spec fn contains(s: Seq<char>, p: Seq<char>) -> bool {
    find_from(s, p, 0) <= s.len()
}

/// Decides whether `p` occurs in `v` at position `i`.
pub fn matches_at(v: &Vec<char>, i: usize, p: &Vec<char>) -> (b: bool)
    ensures
        b == match_at(v@, i as int, p@),
{
    if i > v.len() || p.len() > v.len() - i {
        return false;
    }
    let mut k: usize = 0;
    while k < p.len()
        invariant
            k <= p.len(),
            i + p.len() <= v.len(),
            forall|j: int| 0 <= j < k ==> v@[i + j] == p@[j],
        decreases p.len() - k,
    {
        if v[i + k] != p[k] {
            assert(v@.subrange(i as int, i + p.len())[k as int] != p@[k as int]);
            return false;
        }
        k += 1;
    }
    assert(v@.subrange(i as int, i + p.len()) =~= p@);
    true
}

/// Decides whether `v` ends with `p`.
pub fn has_suffix(v: &Vec<char>, p: &Vec<char>) -> (b: bool)
    ensures
        b == ends_with(v@, p@),
{
    if p.len() > v.len() {
        return false;
    }
    matches_at(v, v.len() - p.len(), p)
}

/// Decides whether `v` begins with the string `p`.
pub fn has_prefix_str(v: &Vec<char>, p: &str) -> (b: bool)
    ensures
        b == starts_with(v@, p@),
{
    let pv = chars_of(p);
    matches_at(v, 0, &pv)
}

/// Decides whether `v` ends with the string `p`.
pub fn has_suffix_str(v: &Vec<char>, p: &str) -> (b: bool)
    ensures
        b == ends_with(v@, p@),
{
    let pv = chars_of(p);
    has_suffix(v, &pv)
}

/// Whether `v` holds exactly the characters of `p`.
pub fn equals(v: &Vec<char>, p: &Vec<char>) -> (b: bool)
    ensures
        b == (v@ == p@),
{
    if v.len() != p.len() {
        return false;
    }
    let b = matches_at(v, 0, p);
    assert(v@.subrange(0, v.len() as int) =~= v@);
    b
}

/// Decides whether `v` holds exactly the characters of the string `p`.
pub fn equals_str(v: &Vec<char>, p: &str) -> (b: bool)
    ensures
        b == (v@ == p@),
{
    let pv = chars_of(p);
    equals(v, &pv)
}

/// The first position at or after `i` where `p` occurs in `v`.
pub fn find_at(v: &Vec<char>, p: &Vec<char>, i: usize) -> (r: Option<usize>)
    requires
        i <= v.len(),
    ensures
        match r {
            Some(k) => k == find_from(v@, p@, i as int) && i <= k <= v.len() && k + p.len()
                <= v.len(),
            None => find_from(v@, p@, i as int) == v.len() + 1,
        },
{
    let mut k: usize = i;
    loop
        invariant
            i <= k <= v.len(),
            find_from(v@, p@, i as int) == find_from(v@, p@, k as int),
        decreases v.len() - k,
    {
        if matches_at(v, k, p) {
            return Some(k);
        }
        if k == v.len() {
            assert(find_from(v@, p@, k + 1) == v.len() + 1);
            return None;
        }
        k += 1;
    }
}

/// The first position where the string `p` occurs in `v`.
pub fn find_str(v: &Vec<char>, p: &str) -> (r: Option<usize>)
    ensures
        match r {
            Some(k) => k == find_from(v@, p@, 0) && k + p@.len() <= v.len(),
            None => find_from(v@, p@, 0) == v.len() + 1,
        },
        r is Some == contains(v@, p@),
{
    let pv = chars_of(p);
    find_at(v, &pv, 0)
}

/// Decides whether the string `p` occurs in `v`.
pub fn has_str(v: &Vec<char>, p: &str) -> (b: bool)
    ensures
        b == contains(v@, p@),
{
    find_str(v, p).is_some()
}

/// A nonempty text occurs in itself, and replacing it there leaves the
/// replacement alone.
pub proof fn lemma_replace_whole(s: Seq<char>, to: Seq<char>)
    requires
        s.len() > 0,
    ensures
        contains(s, s),
        replace(s, s, to) == to,
{
    assert(s.subrange(0, s.len() as int) =~= s);
    assert(match_at(s, 0, s));
    assert(replace_from(s, s, to, s.len() as int) =~= Seq::<char>::empty());
    assert(replace_from(s, s, to, 0) =~= to);
}

/// Where `from` occurs nowhere from position `i` on, replacing it leaves the
/// text from `i` on as it is.
pub proof fn lemma_replace_absent(s: Seq<char>, from: Seq<char>, to: Seq<char>, i: int)
    requires
        0 <= i <= s.len(),
        from.len() > 0,
        forall|k: int| i <= k <= s.len() ==> !match_at(s, k, from),
    ensures
        replace_from(s, from, to, i) == s.subrange(i, s.len() as int),
    decreases s.len() - i,
{
    if i < s.len() {
        lemma_replace_absent(s, from, to, i + 1);
        assert(seq![s[i]] + s.subrange(i + 1, s.len() as int) =~= s.subrange(i, s.len() as int));
    } else {
        assert(replace_from(s, from, to, i) =~= s.subrange(i, s.len() as int));
    }
}

/// Replacing a text that is longer than `s` leaves `s` as it is.
pub proof fn lemma_replace_longer(s: Seq<char>, from: Seq<char>, to: Seq<char>)
    requires
        from.len() > s.len(),
    ensures
        replace(s, from, to) == s,
{
    lemma_replace_absent(s, from, to, 0);
    assert(s.subrange(0, s.len() as int) =~= s);
}

/// Replacing a text that begins with `c` leaves a text without `c` as it
/// is.
pub proof fn lemma_replace_without_first(s: Seq<char>, from: Seq<char>, to: Seq<char>, c: char)
    requires
        from.len() > 0,
        from[0] == c,
        forall|k: int| 0 <= k < s.len() ==> #[trigger] s[k] != c,
    ensures
        replace(s, from, to) == s,
{
    assert forall|k: int| 0 <= k <= s.len() implies !match_at(s, k, from) by {
        if match_at(s, k, from) {
            assert(s.subrange(k, k + from.len())[0] == from[0]);
            assert(s[k] == c);
        }
    }
    lemma_replace_absent(s, from, to, 0);
    assert(s.subrange(0, s.len() as int) =~= s);
}

/// The text `s` from position `i` on, with each occurrence of `from`, found
/// from left to right without overlap, replaced by `to`.
pub open spec fn replace_from(s: Seq<char>, from: Seq<char>, to: Seq<char>, i: int) -> Seq<char>
    decreases s.len() - i,
{
    if i < 0 || i >= s.len() || from.len() == 0 {
        Seq::empty()
    } else if match_at(s, i, from) {
        to + replace_from(s, from, to, i + from.len())
    } else {
        seq![s[i]] + replace_from(s, from, to, i + 1)
    }
}

/// `s` with every occurrence of the nonempty `from` replaced by `to`; with
/// an empty `from`, `s` itself.
pub open spec fn replace(s: Seq<char>, from: Seq<char>, to: Seq<char>) -> Seq<char> {
    if from.len() == 0 {
        s
    } else {
        replace_from(s, from, to, 0)
    }
}

/// Replaces every occurrence of `from` in `v` by `to`.
pub fn replace_all(v: &Vec<char>, from: &Vec<char>, to: &Vec<char>) -> (r: Vec<char>)
    ensures
        r@ == replace(v@, from@, to@),
{
    if from.len() == 0 {
        return slice(v, 0, v.len());
    }
    let mut r: Vec<char> = Vec::new();
    let mut i: usize = 0;
    while i < v.len()
        invariant
            i <= v.len(),
            from.len() > 0,
            r@ + replace_from(v@, from@, to@, i as int) == replace_from(v@, from@, to@, 0),
        decreases v.len() - i,
    {
        let ghost before = r@;
        if matches_at(v, i, from) {
            push_all(&mut r, to);
            assert(r@ + replace_from(v@, from@, to@, i + from.len()) =~= before + replace_from(
                v@,
                from@,
                to@,
                i as int,
            ));
            i += from.len();
        } else {
            r.push(v[i]);
            assert(r@ + replace_from(v@, from@, to@, i + 1) =~= before + replace_from(
                v@,
                from@,
                to@,
                i as int,
            ));
            i += 1;
        }
    }
    assert(r@ + Seq::<char>::empty() =~= r@);
    r
}

/// The position of the first `c` in `s` at or after `i`, or `s.len()`.
pub open spec fn next_char(s: Seq<char>, c: char, i: int) -> int
    decreases s.len() - i,
{
    if i < 0 || i >= s.len() {
        s.len() as int
    } else if s[i] == c {
        i
    } else {
        next_char(s, c, i + 1)
    }
}

/// The position that `next_char` gives lies from `i` on, holds `c` where it
/// lies in the text, and no `c` stands between `i` and it.
pub proof fn lemma_next_char(s: Seq<char>, c: char, i: int)
    requires
        0 <= i <= s.len(),
    ensures
        i <= next_char(s, c, i) <= s.len(),
        next_char(s, c, i) < s.len() ==> s[next_char(s, c, i)] == c,
        forall|k: int| i <= k < next_char(s, c, i) ==> s[k] != c,
    decreases s.len() - i,
{
    if i < s.len() && s[i] != c {
        lemma_next_char(s, c, i + 1);
    }
}

/// The position of the first `c` in `v` at or after `i`, or the length of
/// `v`.
pub fn scan_char(v: &Vec<char>, c: char, i: usize) -> (j: usize)
    requires
        i <= v.len(),
    ensures
        j == next_char(v@, c, i as int),
        i <= j <= v.len(),
{
    let mut k: usize = i;
    while k < v.len() && v[k] != c
        invariant
            i <= k <= v.len(),
            next_char(v@, c, i as int) == next_char(v@, c, k as int),
        decreases v.len() - k,
    {
        k += 1;
    }
    k
}

/// The position of the last `c` in the first `n` characters of `s`, or -1.
pub open spec fn last_char(s: Seq<char>, c: char, n: int) -> int
    decreases n,
{
    if n <= 0 || n > s.len() {
        -1
    } else if s[n - 1] == c {
        n - 1
    } else {
        last_char(s, c, n - 1)
    }
}

/// The position of the last `c` in `v`.
pub fn scan_last_char(v: &Vec<char>, c: char) -> (r: Option<usize>)
    ensures
        match r {
            Some(k) => k == last_char(v@, c, v.len() as int) && k < v.len(),
            None => last_char(v@, c, v.len() as int) == -1,
        },
{
    let mut n: usize = v.len();
    while n > 0
        invariant
            n <= v.len(),
            last_char(v@, c, v.len() as int) == last_char(v@, c, n as int),
        decreases n,
    {
        if v[n - 1] == c {
            return Some(n - 1);
        }
        n -= 1;
    }
    None
}

/// The views of the elements of `v`, in order.
pub open spec fn views(v: Seq<Vec<char>>) -> Seq<Seq<char>> {
    Seq::new(v.len(), |i: int| v[i]@)
}

/// The views of the strings of `v`, in order.
pub open spec fn string_views(v: Seq<String>) -> Seq<Seq<char>> {
    Seq::new(v.len(), |i: int| v[i]@)
}

/// The pieces of `s` from position `i` on, cut at each `c`.
pub open spec fn split_from(s: Seq<char>, c: char, i: int) -> Seq<Seq<char>>
    decreases s.len() - i,
{
    if i < 0 || i > s.len() {
        Seq::empty()
    } else {
        let j = next_char(s, c, i);
        if i <= j < s.len() {
            seq![s.subrange(i, j)] + split_from(s, c, j + 1)
        } else {
            seq![s.subrange(i, s.len() as int)]
        }
    }
}

/// The pieces of `s` between the occurrences of `c`, as `str::split` gives
/// them: one more piece than there are occurrences.
pub open spec fn split(s: Seq<char>, c: char) -> Seq<Seq<char>> {
    split_from(s, c, 0)
}

/// Cuts `v` at each `c`.
pub fn split_on(v: &Vec<char>, c: char) -> (r: Vec<Vec<char>>)
    ensures
        views(r@) == split(v@, c),
        r.len() >= 1,
{
    let mut r: Vec<Vec<char>> = Vec::new();
    let mut i: usize = 0;
    loop
        invariant_except_break
            i <= v.len(),
            views(r@) + split_from(v@, c, i as int) == split_from(v@, c, 0),
        ensures
            views(r@) == split(v@, c),
            r.len() >= 1,
        decreases v.len() - i,
    {
        let j = scan_char(v, c, i);
        let piece = slice(v, i, j);
        let ghost before = views(r@);
        r.push(piece);
        assert(views(r@) =~= before.push(piece@));
        if j < v.len() {
            assert(views(r@) + split_from(v@, c, j + 1) =~= before + split_from(v@, c, i as int));
            i = j + 1;
        } else {
            assert(views(r@) =~= before + split_from(v@, c, i as int));
            break;
        }
    }
    r
}

/// `s` without one carriage return at its end, if it has one.
pub open spec fn strip_cr(s: Seq<char>) -> Seq<char> {
    if s.len() > 0 && s.last() == '\r' {
        s.drop_last()
    } else {
        s
    }
}

/// The lines of `s` from position `i` on.
pub open spec fn lines_from(s: Seq<char>, i: int) -> Seq<Seq<char>>
    decreases s.len() - i,
{
    if i < 0 || i >= s.len() {
        Seq::empty()
    } else {
        let j = next_char(s, '\n', i);
        if i <= j < s.len() {
            seq![strip_cr(s.subrange(i, j))] + lines_from(s, j + 1)
        } else {
            seq![s.subrange(i, s.len() as int)]
        }
    }
}

/// The lines of `s` as `str::lines` gives them: cut at each line feed, a
/// carriage return before it dropped, and no empty line for a final line feed.
pub open spec fn lines(s: Seq<char>) -> Seq<Seq<char>> {
    lines_from(s, 0)
}

/// The lines of `v`.
pub fn lines_of(v: &Vec<char>) -> (r: Vec<Vec<char>>)
    ensures
        views(r@) == lines(v@),
{
    let mut r: Vec<Vec<char>> = Vec::new();
    let mut i: usize = 0;
    while i < v.len()
        invariant
            i <= v.len(),
            views(r@) + lines_from(v@, i as int) == lines_from(v@, 0),
        decreases v.len() - i,
    {
        let j = scan_char(v, '\n', i);
        let ghost before = views(r@);
        if j < v.len() {
            let end = if j > i && v[j - 1] == '\r' { j - 1 } else { j };
            let piece = slice(v, i, end);
            assert(piece@ =~= strip_cr(v@.subrange(i as int, j as int)));
            r.push(piece);
            assert(views(r@) =~= before.push(piece@));
            assert(views(r@) + lines_from(v@, j + 1) =~= before + lines_from(v@, i as int));
            i = j + 1;
        } else {
            let piece = slice(v, i, j);
            r.push(piece);
            assert(views(r@) =~= before.push(piece@));
            assert(views(r@) + lines_from(v@, j as int) =~= before + lines_from(v@, i as int));
            i = j;
        }
    }
    assert(views(r@) + Seq::<Seq<char>>::empty() =~= views(r@));
    r
}

/// The texts of `l` with `sep` between each two neighbours.
pub open spec fn join(l: Seq<Seq<char>>, sep: Seq<char>) -> Seq<char>
    decreases l.len(),
{
    if l.len() == 0 {
        Seq::empty()
    } else if l.len() == 1 {
        l[0]
    } else {
        join(l.drop_last(), sep) + sep + l.last()
    }
}

/// Joins the texts of `l` with `sep` between them.
pub fn join_with(l: &Vec<Vec<char>>, sep: &str) -> (r: Vec<char>)
    ensures
        r@ == join(views(l@), sep@),
{
    let mut r: Vec<char> = Vec::new();
    let mut i: usize = 0;
    while i < l.len()
        invariant
            i <= l.len(),
            r@ == join(views(l@).take(i as int), sep@),
        decreases l.len() - i,
    {
        if i > 0 {
            push_str(&mut r, sep);
        }
        push_all(&mut r, &l[i]);
        proof {
            let t = views(l@).take(i + 1);
            assert(t.drop_last() =~= views(l@).take(i as int));
            assert(t.last() == l@[i as int]@);
            if i == 0 {
                assert(r@ =~= t[0]);
            }
        }
        i += 1;
    }
    assert(views(l@).take(l.len() as int) =~= views(l@));
    r
}

/// Appends the texts of `more` to `l`.
pub fn append_texts(l: &mut Vec<Vec<char>>, more: Vec<Vec<char>>)
    ensures
        views(final(l)@) == views(old(l)@) + views(more@),
{
    let mut i: usize = 0;
    assert(views(l@) =~= views(old(l)@) + views(more@).take(0));
    while i < more.len()
        invariant
            i <= more.len(),
            views(l@) == views(old(l)@) + views(more@).take(i as int),
        decreases more.len() - i,
    {
        let t = slice(&more[i], 0, more[i].len());
        assert(t@ =~= more@[i as int]@);
        let ghost before = views(l@);
        l.push(t);
        assert(views(l@) =~= before.push(t@));
        assert(views(l@) =~= views(old(l)@) + views(more@).take(i + 1));
        i += 1;
    }
    assert(views(more@).take(more.len() as int) =~= views(more@));
}

/// The strings of `l` as character vectors.
pub fn texts_of(l: &Vec<String>) -> (r: Vec<Vec<char>>)
    ensures
        views(r@) == string_views(l@),
{
    let mut r: Vec<Vec<char>> = Vec::new();
    let mut i: usize = 0;
    while i < l.len()
        invariant
            i <= l.len(),
            views(r@) == string_views(l@).take(i as int),
        decreases l.len() - i,
    {
        let t = chars_of(l[i].as_str());
        let ghost before = views(r@);
        r.push(t);
        assert(views(r@) =~= before.push(t@));
        assert(string_views(l@).take(i + 1) =~= string_views(l@).take(i as int).push(l@[i as int]@));
        i += 1;
    }
    assert(string_views(l@).take(l.len() as int) =~= string_views(l@));
    r
}

/// The character vectors of `l` as strings.
pub fn strings_of(l: &Vec<Vec<char>>) -> (r: Vec<String>)
    ensures
        string_views(r@) == views(l@),
{
    let mut r: Vec<String> = Vec::new();
    let mut i: usize = 0;
    while i < l.len()
        invariant
            i <= l.len(),
            string_views(r@) == views(l@).take(i as int),
        decreases l.len() - i,
    {
        let t = string_of(&l[i]);
        let ghost before = string_views(r@);
        r.push(t);
        assert(string_views(r@) =~= before.push(t@));
        assert(views(l@).take(i + 1) =~= views(l@).take(i as int).push(l@[i as int]@));
        i += 1;
    }
    assert(views(l@).take(l.len() as int) =~= views(l@));
    r
}



/// Whether `c` is alphanumeric as `char::is_alphanumeric` decides it, over
/// all of Unicode.
pub uninterp spec fn alphanumeric(c: char) -> bool;

/// Whether `c` is an upper-case letter as `char::is_uppercase` decides it,
/// over all of Unicode.
pub uninterp spec fn uppercase(c: char) -> bool;

/// Calls `char::is_alphanumeric`; the contract only names its answer.
#[verifier::external_body]
pub(crate) fn is_alphanumeric_char(c: char) -> (b: bool)
    ensures
        b == alphanumeric(c),
{
    c.is_alphanumeric()
}

/// Calls `char::is_uppercase`; the contract only names its answer.
#[verifier::external_body]
pub(crate) fn is_uppercase_char(c: char) -> (b: bool)
    ensures
        b == uppercase(c),
{
    c.is_uppercase()
}

/// Whether `c` is a letter or a digit: on ASCII the letters `a` to `z` and
/// `A` to `Z` and the digits, beyond ASCII what `char::is_alphanumeric`
/// says.
pub open spec fn is_alnum(c: char) -> bool {
    if (c as u32) < 128 {
        ('a' <= c && c <= 'z') || ('A' <= c && c <= 'Z') || ('0' <= c && c <= '9')
    } else {
        alphanumeric(c)
    }
}

/// Decides whether `c` is a letter or a digit.
pub fn is_alnum_char(c: char) -> (b: bool)
    ensures
        b == is_alnum(c),
{
    if (c as u32) < 128 {
        ('a' <= c && c <= 'z') || ('A' <= c && c <= 'Z') || ('0' <= c && c <= '9')
    } else {
        is_alphanumeric_char(c)
    }
}

/// Whether `c` is a capital letter: on ASCII the letters `A` to `Z`, beyond
/// ASCII what `char::is_uppercase` says.
pub open spec fn is_upper(c: char) -> bool {
    if (c as u32) < 128 {
        'A' <= c && c <= 'Z'
    } else {
        uppercase(c)
    }
}

/// Decides whether `c` is a capital letter.
pub fn is_upper_char(c: char) -> (b: bool)
    ensures
        b == is_upper(c),
{
    if (c as u32) < 128 {
        'A' <= c && c <= 'Z'
    } else {
        is_uppercase_char(c)
    }
}

/// The lower-case form of an ASCII capital letter; every other character
/// unchanged.
pub open spec fn ascii_lower(c: char) -> char {
    if 'A' <= c && c <= 'Z' {
        ((c as u8) + 32) as char
    } else {
        c
    }
}

/// Turns an ASCII capital letter into its lower-case form.
pub fn to_ascii_lower(c: char) -> (r: char)
    ensures
        r == ascii_lower(c),
{
    if 'A' <= c && c <= 'Z' {
        ((c as u8) + 32) as char
    } else {
        c
    }
}

/// Whether `c` is a decimal digit.
pub open spec fn is_digit(c: char) -> bool {
    '0' <= c && c <= '9'
}

/// The value of a decimal digit; 0 for any other character.
pub open spec fn digit_value(c: char) -> nat {
    if is_digit(c) {
        (c as u32 - 48) as nat
    } else {
        0
    }
}

/// The number that the digits of `s` write in base ten.
pub open spec fn digits_value(s: Seq<char>) -> nat
    decreases s.len(),
{
    if s.len() == 0 {
        0
    } else {
        digits_value(s.drop_last()) * 10 + digit_value(s.last())
    }
}

/// Whether `s` holds decimal digits only.
pub open spec fn all_digits(s: Seq<char>) -> bool {
    forall|i: int| 0 <= i < s.len() ==> is_digit(#[trigger] s[i])
}

/// The number that `s` writes, as the unsigned integer types parse it: an
/// optional plus sign, then one digit or more, and a value of at most `max`.
pub open spec fn parse_unsigned(s: Seq<char>, max: nat) -> Option<nat> {
    let body = if s.len() > 0 && s[0] == '+' {
        s.drop_first()
    } else {
        s
    };
    if body.len() > 0 && all_digits(body) && digits_value(body) <= max {
        Some(digits_value(body))
    } else {
        None
    }
}

/// The digits of a prefix write no greater number than the digits of the
/// whole.
pub proof fn lemma_digits_value_prefix(s: Seq<char>, k: int)
    requires
        0 <= k <= s.len(),
    ensures
        digits_value(s.take(k)) <= digits_value(s),
    decreases s.len(),
{
    if k < s.len() {
        lemma_digits_value_prefix(s.drop_last(), k);
        assert(s.drop_last().take(k) =~= s.take(k));
    } else {
        assert(s.take(k) =~= s);
    }
}

/// Parses an unsigned number of at most `max`.
pub fn parse_number(v: &Vec<char>, max: u64) -> (r: Option<u64>)
    ensures
        match r {
            Some(n) => parse_unsigned(v@, max as nat) == Some(n as nat),
            None => parse_unsigned(v@, max as nat) is None,
        },
{
    let start: usize = if v.len() > 0 && v[0] == '+' { 1 } else { 0 };
    let ghost body = v@.skip(start as int);
    assert(start == 1 ==> body =~= v@.drop_first());
    assert(start == 0 ==> body =~= v@);
    if start == v.len() {
        return None;
    }
    let mut acc: u64 = 0;
    let mut i: usize = start;
    assert(body.take(0) =~= Seq::<char>::empty());
    while i < v.len()
        invariant
            start <= i <= v.len(),
            body == v@.skip(start as int),
            body == (if v@.len() > 0 && v@[0] == '+' {
                v@.drop_first()
            } else {
                v@
            }),
            acc == digits_value(body.take(i - start)),
            all_digits(body.take(i - start)),
            acc <= max,
        decreases v.len() - i,
    {
        let c = v[i];
        assert(body[i - start] == c);
        if !('0' <= c && c <= '9') {
            assert(!is_digit(body[i - start]));
            return None;
        }
        let d: u64 = (c as u32 - 48) as u64;
        let ghost next = body.take(i - start + 1);
        assert(next.drop_last() =~= body.take(i - start));
        assert(next.last() == c);
        if d > max || acc > (max - d) / 10 {
            proof {
                lemma_digits_value_prefix(body, i - start + 1);
                assert(digits_value(next) == acc * 10 + d);
                assert(acc * 10 + d > max);
            }
            return None;
        }
        assert(all_digits(next));
        acc = acc * 10 + d;
        i += 1;
    }
    assert(body.take(v.len() - start) =~= body);
    Some(acc)
}

/// The character that writes the digit `d`.
pub open spec fn digit_char(d: nat) -> char {
    ((48 + d) as u8) as char
}

/// The decimal writing of `n`, without leading zeros.
pub open spec fn decimal(n: nat) -> Seq<char>
    decreases n,
{
    if n < 10 {
        seq![digit_char(n)]
    } else {
        decimal(n / 10).push(digit_char(n % 10))
    }
}

/// Appends the decimal writing of `n` to `out`.
pub fn push_decimal(out: &mut Vec<char>, n: u64)
    ensures
        final(out)@ == old(out)@ + decimal(n as nat),
    decreases n,
{
    if n >= 10 {
        push_decimal(out, n / 10);
    }
    let d: u8 = (n % 10) as u8;
    let c: char = (48 + d) as char;
    out.push(c);
    assert(out@ =~= old(out)@ + decimal(n as nat));
}

/// `s` without the characters `c` at its end.
pub open spec fn strip_trailing(s: Seq<char>, c: char) -> Seq<char>
    decreases s.len(),
{
    if s.len() > 0 && s.last() == c {
        strip_trailing(s.drop_last(), c)
    } else {
        s
    }
}

/// `s` without the characters `c` at its start.
pub open spec fn strip_leading(s: Seq<char>, c: char) -> Seq<char>
    decreases s.len(),
{
    if s.len() > 0 && s[0] == c {
        strip_leading(s.drop_first(), c)
    } else {
        s
    }
}

/// `s` without the characters `c` at both ends.
pub open spec fn strip_both(s: Seq<char>, c: char) -> Seq<char> {
    strip_trailing(strip_leading(s, c), c)
}

/// `v` without the characters `c` at its end.
pub fn strip_trailing_of(v: &Vec<char>, c: char) -> (r: Vec<char>)
    ensures
        r@ == strip_trailing(v@, c),
{
    let mut n: usize = v.len();
    assert(v@.take(v.len() as int) =~= v@);
    while n > 0 && v[n - 1] == c
        invariant
            n <= v.len(),
            strip_trailing(v@, c) == strip_trailing(v@.take(n as int), c),
        decreases n,
    {
        assert(v@.take(n as int).drop_last() =~= v@.take(n - 1));
        n -= 1;
    }
    slice(v, 0, n)
}

/// `v` without the characters `c` at its start.
pub fn strip_leading_of(v: &Vec<char>, c: char) -> (r: Vec<char>)
    ensures
        r@ == strip_leading(v@, c),
{
    let mut n: usize = 0;
    assert(v@.skip(0) =~= v@);
    while n < v.len() && v[n] == c
        invariant
            n <= v.len(),
            strip_leading(v@, c) == strip_leading(v@.skip(n as int), c),
        decreases v.len() - n,
    {
        assert(v@.skip(n as int).drop_first() =~= v@.skip(n + 1));
        n += 1;
    }
    assert(v@.skip(n as int) =~= v@.subrange(n as int, v.len() as int));
    slice(v, n, v.len())
}

/// `v` without the characters `c` at both ends.
pub fn strip_both_of(v: &Vec<char>, c: char) -> (r: Vec<char>)
    ensures
        r@ == strip_both(v@, c),
{
    let a = strip_leading_of(v, c);
    strip_trailing_of(&a, c)
}



/// `s` without the repetitions of the nonempty text `p` at its end.
pub open spec fn strip_suffix_all(s: Seq<char>, p: Seq<char>) -> Seq<char>
    decreases s.len(),
{
    if p.len() > 0 && ends_with(s, p) {
        strip_suffix_all(s.take(s.len() - p.len()), p)
    } else {
        s
    }
}

/// `v` without the repetitions of the string `p` at its end.
pub fn strip_suffix_all_of(v: &Vec<char>, p: &str) -> (r: Vec<char>)
    ensures
        r@ == strip_suffix_all(v@, p@),
{
    let pv = chars_of(p);
    let mut n: usize = v.len();
    assert(v@.take(v.len() as int) =~= v@);
    if pv.len() == 0 {
        return slice(v, 0, n);
    }
    loop
        invariant
            n <= v.len(),
            pv@ == p@,
            pv.len() > 0,
            strip_suffix_all(v@, p@) == strip_suffix_all(v@.take(n as int), p@),
        decreases n,
    {
        let cur = slice(v, 0, n);
        assert(cur@ =~= v@.take(n as int));
        if !has_suffix(&cur, &pv) {
            return cur;
        }
        assert(v@.take(n as int).take(n - pv.len()) =~= v@.take(n - pv.len()));
        n -= pv.len();
    }
}

} // verus!
