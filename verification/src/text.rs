//! Character-level text helpers shared by the normalizers and the
//! extraction logic: conversion between `&str` and `Vec<char>`,
//! whitespace classification, and ASCII-case-insensitive comparison.

use vstd::prelude::*;
use vstd::string::StrSliceExecFns;

verus! {

/// Whitespace for the purpose of tokenizing scraped phrases: the Unicode
/// White_Space set, as `char::is_whitespace` recognizes it — scraped
/// French text commonly carries no-break and narrow no-break spaces.
pub open spec fn is_space_char(c: char) -> bool {
    let u = c as int;
    (9 <= u && u <= 13) || u == 32 || u == 0x85 || u == 0xa0 || u == 0x1680 || (0x2000 <= u && u
        <= 0x200a) || u == 0x2028 || u == 0x2029 || u == 0x202f || u == 0x205f || u == 0x3000
}

pub fn is_space(c: char) -> (r: bool)
    ensures
        r == is_space_char(c),
{
    let u = char_code(c);
    (9 <= u && u <= 13) || u == 32 || u == 0x85 || u == 0xa0 || u == 0x1680 || (0x2000 <= u && u
        <= 0x200a) || u == 0x2028 || u == 0x2029 || u == 0x202f || u == 0x205f || u == 0x3000
}

/// The characters of a string slice, in order.
pub fn chars_of(s: &str) -> (r: Vec<char>)
    ensures
        r@ == s@,
{
    let n = s.unicode_len();
    let mut r: Vec<char> = Vec::new();
    let mut i: usize = 0;
    while i < n
        invariant
            i <= n,
            n == s@.len(),
            r@ == s@.subrange(0, i as int),
        decreases n - i,
    {
        r.push(s.get_char(i));
        i = i + 1;
    }
    proof {
        assert(r@ =~= s@);
    }
    r
}

/// Relies on `String`'s `FromIterator<char>` impl: collecting characters
/// builds the string holding exactly those characters in order.
#[verifier::external_body]
pub fn string_from_chars(v: &Vec<char>) -> (r: String)
    ensures
        r@ == v@,
{
    v.iter().collect()
}

/// The code point of `c` with an ASCII upper-case letter folded to its
/// lower-case counterpart.
pub open spec fn lower_code(c: char) -> int {
    if 65 <= c as u32 && c as u32 <= 90 {
        c as u32 + 32
    } else {
        c as int
    }
}

/// Two characters are equal up to ASCII case.
pub open spec fn eq_char_ci(a: char, b: char) -> bool {
    lower_code(a) == lower_code(b)
}

/// Two character sequences are equal up to ASCII case, pointwise.
pub open spec fn eq_seq_ci(a: Seq<char>, b: Seq<char>) -> bool {
    a.len() == b.len() && forall|i: int| 0 <= i < a.len() ==> eq_char_ci(a[i], b[i])
}

fn eq_char_ci_exec(a: char, b: char) -> (r: bool)
    ensures
        r == eq_char_ci(a, b),
{
    let ac = a as u32;
    let bc = b as u32;
    let al = if 65 <= ac && ac <= 90 { ac + 32 } else { ac };
    let bl = if 65 <= bc && bc <= 90 { bc + 32 } else { bc };
    al == bl
}

/// The views of a sequence of character vectors.
pub open spec fn views_of(vs: Seq<Vec<char>>) -> Seq<Seq<char>> {
    vs.map_values(|v: Vec<char>| v@)
}

pub proof fn lemma_views_push(vs: Seq<Vec<char>>, v: Vec<char>)
    ensures
        views_of(vs.push(v)) =~= views_of(vs).push(v@),
{
    assert forall|k: int| 0 <= k < vs.len() + 1 implies views_of(vs.push(v))[k] == views_of(
        vs,
    ).push(v@)[k] by {
        if k < vs.len() {
        }
    }
}

/// The whitespace-delimited tokens of `s`, in order, defined by how the
/// sequence grows on the right: a blank closes the current token, any
/// other character extends it or opens a new one.
pub open spec fn spec_tokenize(s: Seq<char>) -> Seq<Seq<char>>
    decreases s.len(),
{
    if s.len() == 0 {
        Seq::empty()
    } else {
        let rest = spec_tokenize(s.drop_last());
        let c = s.last();
        if is_space_char(c) {
            rest
        } else if s.len() >= 2 && !is_space_char(s[s.len() - 2]) {
            rest.update(rest.len() - 1, rest.last().push(c))
        } else {
            rest.push(seq![c])
        }
    }
}

/// Split `s` into its whitespace-delimited tokens.
pub fn tokenize(s: &Vec<char>) -> (r: Vec<Vec<char>>)
    ensures
        views_of(r@) == spec_tokenize(s@),
{
    let ghost whole: Seq<char> = s@;
    let mut done: Vec<Vec<char>> = Vec::new();
    let mut cur: Vec<char> = Vec::new();
    let mut i: usize = 0;
    while i < s.len()
        invariant
            i <= whole.len(),
            s@ == whole,
            (cur@.len() > 0) == (i > 0 && !is_space_char(whole[i as int - 1])),
            cur@.len() > 0 ==> views_of(done@).push(cur@) == spec_tokenize(whole.take(i as int)),
            cur@.len() == 0 ==> views_of(done@) == spec_tokenize(whole.take(i as int)),
        decreases whole.len() - i,
    {
        let c = s[i];
        proof {
            assert(whole.take(i as int + 1).drop_last() =~= whole.take(i as int));
            assert(whole.take(i as int + 1).last() == whole[i as int]);
        }
        let ghost prev_done = done@;
        let ghost prev_cur = cur@;
        if is_space(c) {
            if cur.len() > 0 {
                done.push(cur);
                cur = Vec::new();
                proof {
                    lemma_views_push(prev_done, done@.last());
                    assert(views_of(done@) =~~= views_of(prev_done).push(prev_cur));
                }
            }
            proof {
                assert(spec_tokenize(whole.take(i as int + 1)) == spec_tokenize(
                    whole.take(i as int),
                ));
            }
        } else {
            if cur.len() > 0 {
                cur.push(c);
                proof {
                    let rest = spec_tokenize(whole.take(i as int));
                    assert(whole.take(i as int + 1)[i as int - 1] == whole[i as int - 1]);
                    assert(spec_tokenize(whole.take(i as int + 1)) == rest.update(
                        rest.len() - 1,
                        rest.last().push(c),
                    ));
                    assert(rest == views_of(prev_done).push(prev_cur));
                    assert(rest.last() == prev_cur);
                    assert(rest.update(rest.len() - 1, prev_cur.push(c)) =~~= views_of(
                        prev_done,
                    ).push(prev_cur.push(c)));
                    assert(cur@ == prev_cur.push(c));
                }
            } else {
                cur.push(c);
                proof {
                    let rest = spec_tokenize(whole.take(i as int));
                    if i > 0 {
                        assert(whole.take(i as int + 1)[i as int - 1] == whole[i as int - 1]);
                        assert(is_space_char(whole[i as int - 1]));
                    }
                    assert(spec_tokenize(whole.take(i as int + 1)) == rest.push(seq![c]));
                    assert(cur@ =~= seq![c]);
                }
            }
        }
        i = i + 1;
    }
    proof {
        assert(whole.take(whole.len() as int) =~= whole);
    }
    if cur.len() > 0 {
        let ghost prev_done = done@;
        let ghost prev_cur = cur@;
        done.push(cur);
        proof {
            lemma_views_push(prev_done, done@.last());
            assert(views_of(done@) =~~= views_of(prev_done).push(prev_cur));
        }
    }
    done
}

/// The numeric value of a sequence of decimal digits.
pub open spec fn digit_val(c: char) -> int {
    c as int - 48
}

pub open spec fn is_digit_char(c: char) -> bool {
    48 <= c as int && c as int <= 57
}

pub open spec fn all_digits(s: Seq<char>) -> bool {
    forall|i: int| 0 <= i < s.len() ==> is_digit_char(s[i])
}

pub open spec fn spec_digits_val(s: Seq<char>) -> int
    decreases s.len(),
{
    if s.len() == 0 {
        0
    } else {
        spec_digits_val(s.drop_last()) * 10 + digit_val(s.last())
    }
}

/// A token parses as an unsigned 32-bit integer when it is a non-empty
/// run of decimal digits whose value fits.
pub open spec fn spec_parse_u32(s: Seq<char>) -> Option<u32> {
    if s.len() > 0 && all_digits(s) && spec_digits_val(s) <= u32::MAX {
        Some(spec_digits_val(s) as u32)
    } else {
        None
    }
}

/// The code point of a character as a `u32`.
fn char_code(c: char) -> (r: u32)
    ensures
        r as int == c as int,
{
    c as u32
}

proof fn lemma_digits_val_nonneg(s: Seq<char>)
    requires
        all_digits(s),
    ensures
        spec_digits_val(s) >= 0,
    decreases s.len(),
{
    if s.len() > 0 {
        assert(all_digits(s.drop_last()));
        lemma_digits_val_nonneg(s.drop_last());
    }
}

proof fn lemma_digits_prefix_le(s: Seq<char>, k: int)
    requires
        all_digits(s),
        0 <= k <= s.len(),
    ensures
        spec_digits_val(s.take(k)) <= spec_digits_val(s),
    decreases s.len() - k,
{
    if k < s.len() {
        lemma_digits_prefix_le(s, k + 1);
        assert(s.take(k + 1).drop_last() =~= s.take(k));
        assert(all_digits(s.take(k)));
        lemma_digits_val_nonneg(s.take(k));
        assert(spec_digits_val(s.take(k + 1)) == spec_digits_val(s.take(k)) * 10 + digit_val(
            s.take(k + 1).last(),
        ));
        assert(is_digit_char(s[k]));
    } else {
        assert(s.take(k) =~= s);
    }
}

/// Parse a non-empty all-digit token as a `u32`; anything else is `None`.
pub fn parse_u32(s: &Vec<char>) -> (r: Option<u32>)
    ensures
        r == spec_parse_u32(s@),
{
    if s.len() == 0 {
        return None;
    }
    let mut acc: u32 = 0;
    let mut i: usize = 0;
    while i < s.len()
        invariant
            i <= s@.len(),
            s@.len() > 0,
            all_digits(s@.take(i as int)),
            acc == spec_digits_val(s@.take(i as int)),
        decreases s@.len() - i,
    {
        let c = s[i];
        let code: u32 = char_code(c);
        if code < 48 || code > 57 {
            proof {
                assert(!is_digit_char(s@[i as int]));
            }
            return None;
        }
        let d: u32 = code - 48;
        proof {
            assert(c as int == code as int);
            assert(is_digit_char(s@[i as int]));
            assert(s@.take(i as int + 1).drop_last() =~= s@.take(i as int));
            assert(s@.take(i as int + 1).last() == s@[i as int]);
            assert(all_digits(s@.take(i as int + 1)));
            assert(spec_digits_val(s@.take(i as int + 1)) == acc * 10 + d);
        }
        if acc > (u32::MAX - d) / 10 {
            proof {
                let next = s@.take(i as int + 1);
                assert(spec_digits_val(next) == acc * 10 + d);
                assert(acc * 10 + d > u32::MAX) by (nonlinear_arith)
                    requires
                        acc > (u32::MAX - d) / 10,
                        d <= 9,
                {
                    let q = (u32::MAX - d) / 10;
                    assert(u32::MAX - d == 10 * q + (u32::MAX - d) % 10);
                }
                if all_digits(s@) {
                    lemma_digits_prefix_le(s@, i as int + 1);
                }
            }
            return None;
        }
        acc = acc * 10 + d;
        i = i + 1;
    }
    proof {
        assert(s@.take(s@.len() as int) =~= s@);
    }
    Some(acc)
}

/// The characters of `s` from `from` (inclusive) to `to` (exclusive).
pub fn sub_chars(s: &Vec<char>, from: usize, to: usize) -> (r: Vec<char>)
    requires
        from <= to <= s@.len(),
    ensures
        r@ == s@.subrange(from as int, to as int),
{
    let mut r: Vec<char> = Vec::new();
    let mut i: usize = from;
    while i < to
        invariant
            from <= i <= to <= s@.len(),
            r@ == s@.subrange(from as int, i as int),
        decreases to - i,
    {
        r.push(s[i]);
        proof {
            assert(s@.subrange(from as int, i as int + 1) =~= s@.subrange(
                from as int,
                i as int,
            ).push(s@[i as int]));
        }
        i = i + 1;
    }
    r
}

/// Equality of two character vectors.
pub fn chars_eq(a: &Vec<char>, b: &Vec<char>) -> (r: bool)
    ensures
        r == (a@ == b@),
{
    if a.len() != b.len() {
        return false;
    }
    let mut i: usize = 0;
    while i < a.len()
        invariant
            i <= a@.len(),
            a@.len() == b@.len(),
            forall|j: int| 0 <= j < i ==> a@[j] == b@[j],
        decreases a@.len() - i,
    {
        if a[i] != b[i] {
            return false;
        }
        i = i + 1;
    }
    proof {
        assert(a@ =~= b@);
    }
    true
}

/// `pat` occurs in `s` at position `i`.
pub open spec fn spec_match_at(s: Seq<char>, pat: Seq<char>, i: int) -> bool {
    0 <= i && i + pat.len() <= s.len() && s.subrange(i, i + pat.len() as int) == pat
}

/// The first position at or after `k` where `pat` occurs in `s`.
pub open spec fn spec_find_from(s: Seq<char>, pat: Seq<char>, k: int) -> Option<int>
    decreases s.len() - k + 1,
{
    if k < 0 || k + pat.len() > s.len() {
        None
    } else if spec_match_at(s, pat, k) {
        Some(k)
    } else {
        spec_find_from(s, pat, k + 1)
    }
}

pub open spec fn spec_find_first(s: Seq<char>, pat: Seq<char>) -> Option<int> {
    spec_find_from(s, pat, 0)
}

/// `pat` occurs somewhere in `s`.
pub open spec fn spec_contains(s: Seq<char>, pat: Seq<char>) -> bool {
    spec_find_first(s, pat) is Some
}

/// The last position strictly before `k` where `pat` occurs in `s`.
pub open spec fn spec_rfind_before(s: Seq<char>, pat: Seq<char>, k: int) -> Option<int>
    decreases k,
{
    if k <= 0 {
        None
    } else if spec_match_at(s, pat, k - 1) {
        Some(k - 1)
    } else {
        spec_rfind_before(s, pat, k - 1)
    }
}

/// The last position where `pat` occurs in `s`.
pub open spec fn spec_rfind(s: Seq<char>, pat: Seq<char>) -> Option<int> {
    spec_rfind_before(s, pat, s.len() - pat.len() + 1)
}

pub proof fn lemma_find_from_bounds(s: Seq<char>, pat: Seq<char>, k: int)
    ensures
        spec_find_from(s, pat, k) matches Some(i) ==> k <= i && i + pat.len() <= s.len()
            && spec_match_at(s, pat, i),
    decreases s.len() - k + 1,
{
    if !(k < 0 || k + pat.len() > s.len()) && !spec_match_at(s, pat, k) {
        lemma_find_from_bounds(s, pat, k + 1);
    }
}

pub proof fn lemma_rfind_before_bounds(s: Seq<char>, pat: Seq<char>, k: int)
    ensures
        spec_rfind_before(s, pat, k) matches Some(i) ==> 0 <= i < k && i + pat.len() <= s.len()
            && spec_match_at(s, pat, i),
    decreases k,
{
    if k > 0 && !spec_match_at(s, pat, k - 1) {
        lemma_rfind_before_bounds(s, pat, k - 1);
    }
}

/// Does `pat` occur in `s` at position `i`?
pub fn match_at(s: &Vec<char>, pat: &Vec<char>, i: usize) -> (r: bool)
    requires
        i + pat@.len() <= s@.len(),
    ensures
        r == spec_match_at(s@, pat@, i as int),
{
    let n = s.len();
    let m = pat.len();
    let mut j: usize = 0;
    while j < m
        invariant
            j <= m,
            m == pat@.len(),
            n == s@.len(),
            i + pat@.len() <= s@.len(),
            forall|t: int| 0 <= t < j ==> s@[i + t] == pat@[t],
        decreases pat@.len() - j,
    {
        if s[i + j] != pat[j] {
            proof {
                assert(s@.subrange(i as int, i + pat@.len() as int)[j as int] == s@[i + j]);
            }
            return false;
        }
        j = j + 1;
    }
    proof {
        assert(s@.subrange(i as int, i + pat@.len() as int) =~= pat@);
    }
    true
}

/// The first occurrence of `pat` in `s`, if any.
pub fn find_first(s: &Vec<char>, pat: &Vec<char>) -> (r: Option<usize>)
    requires
        pat@.len() >= 1,
    ensures
        spec_find_first(s@, pat@) == (match r {
            Some(i) => Some(i as int),
            None => None::<int>,
        }),
{
    let n = s.len();
    let m = pat.len();
    if m > n {
        return None;
    }
    let mut k: usize = 0;
    while k <= n - m
        invariant
            n == s@.len(),
            m == pat@.len(),
            1 <= m <= n,
            k <= n - m + 1,
            spec_find_first(s@, pat@) == spec_find_from(s@, pat@, k as int),
        decreases s@.len() - k,
    {
        if match_at(s, pat, k) {
            proof {
                assert(spec_find_from(s@, pat@, k as int) == Some(k as int));
            }
            return Some(k);
        }
        proof {
            assert(spec_find_from(s@, pat@, k as int) == spec_find_from(s@, pat@, k as int + 1));
        }
        k = k + 1;
    }
    proof {
        assert(spec_find_from(s@, pat@, k as int) is None);
    }
    None
}

/// The last occurrence of `pat` in `s`, if any.
pub fn rfind(s: &Vec<char>, pat: &Vec<char>) -> (r: Option<usize>)
    requires
        pat@.len() >= 1,
    ensures
        spec_rfind(s@, pat@) == (match r {
            Some(i) => Some(i as int),
            None => None::<int>,
        }),
{
    let n = s.len();
    let m = pat.len();
    if m > n {
        return None;
    }
    let mut k: usize = n - m + 1;
    while k > 0
        invariant
            n == s@.len(),
            m == pat@.len(),
            1 <= m <= n,
            k <= n - m + 1,
            spec_rfind(s@, pat@) == spec_rfind_before(s@, pat@, k as int),
        decreases k,
    {
        if match_at(s, pat, k - 1) {
            proof {
                assert(spec_rfind_before(s@, pat@, k as int) == Some(k as int - 1));
            }
            return Some(k - 1);
        }
        proof {
            assert(spec_rfind_before(s@, pat@, k as int) == spec_rfind_before(
                s@,
                pat@,
                k as int - 1,
            ));
        }
        k = k - 1;
    }
    None
}

/// Does `pat` occur anywhere in `s`?
pub fn contains_sub(s: &Vec<char>, pat: &Vec<char>) -> (r: bool)
    requires
        pat@.len() >= 1,
    ensures
        r == spec_contains(s@, pat@),
{
    match find_first(s, pat) {
        Some(_) => true,
        None => false,
    }
}

#[via_fn]
proof fn spec_split_dec(s: Seq<char>, pat: Seq<char>) {
    if pat.len() >= 1 {
        match spec_find_first(s, pat) {
            Some(i) => {
                lemma_find_from_bounds(s, pat, 0);
            },
            None => {},
        }
    }
}

/// `s` split on each non-overlapping occurrence of `pat`, leftmost first;
/// a string without an occurrence is a single piece.
pub open spec fn spec_split(s: Seq<char>, pat: Seq<char>) -> Seq<Seq<char>>
    decreases s.len(),
        via spec_split_dec
{
    if pat.len() == 0 {
        seq![s]
    } else {
        match spec_find_first(s, pat) {
            None => seq![s],
            Some(i) => seq![s.take(i)] + spec_split(s.skip(i + pat.len() as int), pat),
        }
    }
}

proof fn lemma_views_concat(a: Seq<Vec<char>>, b: Seq<Vec<char>>)
    ensures
        views_of(a + b) =~= views_of(a) + views_of(b),
{
    assert forall|k: int| 0 <= k < a.len() + b.len() implies views_of(a + b)[k] == (views_of(a)
        + views_of(b))[k] by {
        if k < a.len() {
        }
    }
}

/// Split `s` on each non-overlapping occurrence of `pat`.
pub fn split_all(s: &Vec<char>, pat: &Vec<char>) -> (r: Vec<Vec<char>>)
    requires
        pat@.len() >= 1,
    ensures
        views_of(r@) == spec_split(s@, pat@),
    decreases s@.len(),
{
    match find_first(s, pat) {
        None => {
            let piece = sub_chars(s, 0, s.len());
            let mut r: Vec<Vec<char>> = Vec::new();
            r.push(piece);
            proof {
                assert(piece@ =~= s@);
                assert(views_of(r@) =~~= seq![s@]);
            }
            r
        },
        Some(i) => {
            let n = s.len();
            proof {
                lemma_find_from_bounds(s@, pat@, 0);
                assert(i + pat@.len() <= n);
            }
            let head = sub_chars(s, 0, i);
            let tail = sub_chars(s, i + pat.len(), n);
            let mut rest = split_all(&tail, pat);
            let ghost rest_snap = rest@;
            let mut r: Vec<Vec<char>> = Vec::new();
            r.push(head);
            let ghost r_snap = r@;
            r.append(&mut rest);
            proof {
                lemma_views_concat(r_snap, rest_snap);
                assert(head@ =~= s@.take(i as int));
                assert(tail@ =~= s@.skip(i + pat@.len() as int));
                assert(views_of(r_snap) =~~= seq![s@.take(i as int)]);
                assert(views_of(r@) =~~= seq![s@.take(i as int)] + spec_split(
                    s@.skip(i + pat@.len() as int),
                    pat@,
                ));
            }
            r
        },
    }
}

/// The pieces of `parts` joined with the separator `sep` between
/// neighbours.
pub open spec fn spec_join(parts: Seq<Seq<char>>, sep: Seq<char>) -> Seq<char>
    decreases parts.len(),
{
    if parts.len() == 0 {
        Seq::empty()
    } else if parts.len() == 1 {
        parts[0]
    } else {
        spec_join(parts.drop_last(), sep) + sep + parts.last()
    }
}

/// Append all characters of `src` to `dst`.
pub fn push_all(dst: &mut Vec<char>, src: &Vec<char>)
    ensures
        final (dst)@ == old(dst)@ + src@,
{
    let mut i: usize = 0;
    while i < src.len()
        invariant
            i <= src@.len(),
            dst@ == old(dst)@ + src@.take(i as int),
        decreases src@.len() - i,
    {
        dst.push(src[i]);
        proof {
            assert(old(dst)@ + src@.take(i as int + 1) =~= (old(dst)@ + src@.take(i as int)).push(
                src@[i as int],
            ));
        }
        i = i + 1;
    }
    proof {
        assert(old(dst)@ + src@.take(src@.len() as int) =~= old(dst)@ + src@);
    }
}

/// Join the pieces with `sep` between neighbours.
pub fn join_chars(parts: &Vec<Vec<char>>, sep: &Vec<char>) -> (r: Vec<char>)
    ensures
        r@ == spec_join(views_of(parts@), sep@),
{
    let mut r: Vec<char> = Vec::new();
    let mut i: usize = 0;
    while i < parts.len()
        invariant
            i <= parts@.len(),
            r@ == spec_join(views_of(parts@.take(i as int)), sep@),
        decreases parts@.len() - i,
    {
        proof {
            assert(views_of(parts@.take(i as int + 1)).drop_last() =~~= views_of(
                parts@.take(i as int),
            ));
            assert(views_of(parts@.take(i as int + 1)).last() == parts@[i as int]@);
        }
        if i > 0 {
            push_all(&mut r, sep);
        }
        push_all(&mut r, &parts[i]);
        proof {
            let vs = views_of(parts@.take(i as int + 1));
            if i == 0 {
                assert(vs.len() == 1);
                assert(r@ =~= vs[0]);
            } else {
                assert(r@ == spec_join(vs.drop_last(), sep@) + sep@ + vs.last());
            }
        }
        i = i + 1;
    }
    proof {
        assert(parts@.take(parts@.len() as int) =~= parts@);
    }
    r
}

/// An exact copy of an optional string.
pub fn dup_opt_string(o: &Option<String>) -> (r: Option<String>)
    ensures
        r == *o,
{
    match o {
        Some(s) => Some(s.clone()),
        None => None,
    }
}

/// An exact copy of a list of strings.
pub fn dup_strings(v: &Vec<String>) -> (r: Vec<String>)
    ensures
        r@ == v@,
{
    let mut r: Vec<String> = Vec::new();
    let mut i: usize = 0;
    while i < v.len()
        invariant
            i <= v@.len(),
            r@ == v@.take(i as int),
        decreases v@.len() - i,
    {
        r.push(v[i].clone());
        proof {
            assert(v@.take(i as int + 1) =~= v@.take(i as int).push(v@[i as int]));
        }
        i = i + 1;
    }
    proof {
        assert(v@.take(v@.len() as int) =~= v@);
    }
    r
}

/// ASCII-case-insensitive equality of two character vectors.
pub fn eq_ignore_ascii_case(a: &Vec<char>, b: &Vec<char>) -> (r: bool)
    ensures
        r == eq_seq_ci(a@, b@),
{
    if a.len() != b.len() {
        return false;
    }
    let mut i: usize = 0;
    while i < a.len()
        invariant
            i <= a.len(),
            a.len() == b.len(),
            forall|j: int| 0 <= j < i ==> eq_char_ci(a@[j], b@[j]),
        decreases a.len() - i,
    {
        if !eq_char_ci_exec(a[i], b[i]) {
            return false;
        }
        i = i + 1;
    }
    true
}

} // verus!
