//! Character-sequence helpers: locating separators, splitting, and
//! reading decimal values out of text.

use vstd::prelude::*;
use crate::numfmt::is_digit_char;

verus! {

/// ASCII whitespace.  The diagnostic stream and the probe's output
/// contain no other kind; trimming of file-name stems is likewise
/// restricted to ASCII whitespace throughout the library.
pub open spec fn is_ws(c: char) -> bool {
    c == ' ' || c == '\t' || c == '\n' || c == '\r'
}

/// Index of the first occurrence of `c`, or -1.
pub open spec fn first_index_of(s: Seq<char>, c: char) -> int
    decreases s.len(),
{
    if s.len() == 0 {
        -1
    } else if s[0] == c {
        0
    } else {
        let r = first_index_of(s.drop_first(), c);
        if r == -1 {
            -1
        } else {
            r + 1
        }
    }
}

pub proof fn lemma_first_index_of(s: Seq<char>, c: char)
    ensures
        -1 <= first_index_of(s, c) < s.len(),
        first_index_of(s, c) >= 0 ==> s[first_index_of(s, c)] == c,
        forall|j: int| 0 <= j < s.len() && (first_index_of(s, c) == -1 || j < first_index_of(s, c))
            ==> s[j] != c,
    decreases s.len(),
{
    if s.len() > 0 && s[0] != c {
        lemma_first_index_of(s.drop_first(), c);
        assert(forall|j: int| 1 <= j < s.len() ==> s[j] == s.drop_first()[j - 1]);
    }
}

/// If position `i` holds `c` and nothing before it does, it is the first.
pub proof fn lemma_first_index_of_is(s: Seq<char>, c: char, i: int)
    requires
        0 <= i < s.len(),
        s[i] == c,
        forall|j: int| 0 <= j < i ==> s[j] != c,
    ensures
        first_index_of(s, c) == i,
{
    lemma_first_index_of(s, c);
    let fi = first_index_of(s, c);
    if fi < i {
        assert(fi >= 0);
    } else if fi > i || fi == -1 {
        assert(s[i] != c);
    }
}

/// Index of the last occurrence of `c`, or -1.
pub open spec fn last_index_of(s: Seq<char>, c: char) -> int
    decreases s.len(),
{
    if s.len() == 0 {
        -1
    } else if s.last() == c {
        s.len() - 1
    } else {
        last_index_of(s.drop_last(), c)
    }
}

pub proof fn lemma_last_index_of(s: Seq<char>, c: char)
    ensures
        -1 <= last_index_of(s, c) < s.len(),
        last_index_of(s, c) >= 0 ==> s[last_index_of(s, c)] == c,
        forall|j: int| 0 <= j < s.len() && j > last_index_of(s, c) ==> s[j] != c,
    decreases s.len(),
{
    if s.len() > 0 && s.last() != c {
        lemma_last_index_of(s.drop_last(), c);
        assert(forall|j: int| 0 <= j < s.len() - 1 ==> s[j] == s.drop_last()[j]);
    }
}

/// If position `i` holds `c` and nothing after it does, it is the last.
pub proof fn lemma_last_index_of_is(s: Seq<char>, c: char, i: int)
    requires
        0 <= i < s.len(),
        s[i] == c,
        forall|j: int| i < j < s.len() ==> s[j] != c,
    ensures
        last_index_of(s, c) == i,
{
    lemma_last_index_of(s, c);
    let li = last_index_of(s, c);
    if li > i {
        assert(s[li] == c);
    } else if li < i {
        assert(s[i] != c);
    }
}

/// The pieces of `s` between occurrences of `c`, as `str::split` yields them.
pub open spec fn split_on(s: Seq<char>, c: char) -> Seq<Seq<char>>
    decreases s.len(),
{
    let i = first_index_of(s, c);
    if !(0 <= i < s.len()) {
        seq![s]
    } else {
        seq![s.take(i)] + split_on(s.skip(i + 1), c)
    }
}

pub proof fn lemma_split_on_len(s: Seq<char>, c: char)
    ensures
        split_on(s, c).len() >= 1,
    decreases s.len(),
{
    let i = first_index_of(s, c);
    if i != -1 {
        lemma_first_index_of(s, c);
        lemma_split_on_len(s.skip(i + 1), c);
    }
}

/// Exec search for `c` at or after `from`; result is `s@.len()` when absent.
pub fn find_char_from(s: &str, from: usize, c: char) -> (r: usize)
    requires
        from <= s@.len(),
    ensures
        from <= r <= s@.len(),
        r < s@.len() ==> s@[r as int] == c,
        forall|j: int| from <= j < r ==> s@[j] != c,
{
    let len = s.unicode_len();
    let mut i = from;
    while i < len
        invariant
            from <= i <= len,
            len == s@.len(),
            forall|j: int| from <= j < i ==> s@[j] != c,
        decreases len - i,
    {
        if s.get_char(i) == c {
            return i;
        }
        i = i + 1;
    }
    i
}

/// Exec search for the last occurrence of `c`; -1 (as `None`) when absent.
pub fn rfind_char(s: &str, c: char) -> (r: Option<usize>)
    ensures
        match r {
            Some(i) => i == last_index_of(s@, c) && i < s@.len(),
            None => last_index_of(s@, c) == -1,
        },
{
    let len = s.unicode_len();
    let mut i = len;
    while i > 0
        invariant
            0 <= i <= len,
            len == s@.len(),
            forall|j: int| i <= j < len ==> s@[j] != c,
        decreases i,
    {
        i = i - 1;
        if s.get_char(i) == c {
            proof {
                lemma_last_index_of_is(s@, c, i as int);
            }
            return Some(i);
        }
    }
    proof {
        lemma_last_index_of(s@, c);
        if last_index_of(s@, c) >= 0 {
            assert(s@[last_index_of(s@, c)] == c);
        }
    }
    None
}

/// Index of the first character that is not whitespace; `s.len()` when
/// the whole string is whitespace.
pub open spec fn first_non_ws(s: Seq<char>) -> int
    decreases s.len(),
{
    if s.len() == 0 {
        0
    } else if !is_ws(s[0]) {
        0
    } else {
        1 + first_non_ws(s.drop_first())
    }
}

pub proof fn lemma_first_non_ws(s: Seq<char>)
    ensures
        0 <= first_non_ws(s) <= s.len(),
        first_non_ws(s) < s.len() ==> !is_ws(s[first_non_ws(s)]),
        forall|j: int| 0 <= j < first_non_ws(s) ==> is_ws(s[j]),
    decreases s.len(),
{
    if s.len() > 0 && is_ws(s[0]) {
        lemma_first_non_ws(s.drop_first());
        assert(forall|j: int| 1 <= j < s.len() ==> s[j] == s.drop_first()[j - 1]);
    }
}

/// Index of the last character that is not whitespace; -1 when none.
pub open spec fn last_non_ws(s: Seq<char>) -> int
    decreases s.len(),
{
    if s.len() == 0 {
        -1
    } else if !is_ws(s.last()) {
        s.len() - 1
    } else {
        last_non_ws(s.drop_last())
    }
}

pub proof fn lemma_last_non_ws(s: Seq<char>)
    ensures
        -1 <= last_non_ws(s) < s.len(),
        last_non_ws(s) >= 0 ==> !is_ws(s[last_non_ws(s)]),
        forall|j: int| last_non_ws(s) < j < s.len() ==> is_ws(s[j]),
    decreases s.len(),
{
    if s.len() > 0 && is_ws(s.last()) {
        lemma_last_non_ws(s.drop_last());
        assert(forall|j: int| 0 <= j < s.len() - 1 ==> s[j] == s.drop_last()[j]);
    }
}

/// What `str::trim` leaves over, for ASCII whitespace.
pub open spec fn spec_trim(s: Seq<char>) -> Seq<char> {
    if first_non_ws(s) == s.len() {
        Seq::empty()
    } else {
        s.subrange(first_non_ws(s), last_non_ws(s) + 1)
    }
}

pub fn is_ws_char(c: char) -> (r: bool)
    ensures
        r == is_ws(c),
{
    c == ' ' || c == '\t' || c == '\n' || c == '\r'
}

/// Exec trim over ASCII whitespace, returning an owned copy.
pub fn trim_str(s: &str) -> (r: String)
    ensures
        r@ == spec_trim(s@),
{
    let len = s.unicode_len();
    let mut a: usize = 0;
    while a < len && is_ws_char(s.get_char(a))
        invariant
            0 <= a <= len,
            len == s@.len(),
            forall|j: int| 0 <= j < a ==> is_ws(s@[j]),
        decreases len - a,
    {
        a = a + 1;
    }
    proof {
        lemma_first_non_ws(s@);
        if a < len {
            let f = first_non_ws(s@);
            if f < a {
                assert(is_ws(s@[f]));
            } else if f > a {
                assert(is_ws(s@[a as int]));
            }
        }
        assert(a == first_non_ws(s@));
    }
    if a == len {
        return String::new();
    }
    let mut b = len;
    loop
        invariant
            a < b <= len,
            a < len,
            len == s@.len(),
            a == first_non_ws(s@),
            !is_ws(s@[a as int]),
            forall|j: int| b <= j < len ==> is_ws(s@[j]),
        decreases b,
    {
        if !is_ws_char(s.get_char(b - 1)) {
            proof {
                lemma_last_non_ws(s@);
                let l = last_non_ws(s@);
                if l > b - 1 {
                    assert(is_ws(s@[l]));
                } else if l < b - 1 {
                    assert(is_ws(s@[b - 1]));
                }
                assert(b - 1 == last_non_ws(s@));
            }
            let t = s.substring_char(a, b);
            return String::from_str(t);
        }
        proof {
            if b - 1 == a {
                assert(is_ws(s@[a as int]));
            }
        }
        b = b - 1;
    }
}

/// Index of the first whitespace character; `s.len()` when none.
pub open spec fn first_ws(s: Seq<char>) -> int
    decreases s.len(),
{
    if s.len() == 0 {
        0
    } else if is_ws(s[0]) {
        0
    } else {
        1 + first_ws(s.drop_first())
    }
}

pub proof fn lemma_first_ws(s: Seq<char>)
    ensures
        0 <= first_ws(s) <= s.len(),
        first_ws(s) < s.len() ==> is_ws(s[first_ws(s)]),
        forall|j: int| 0 <= j < first_ws(s) ==> !is_ws(s[j]),
    decreases s.len(),
{
    if s.len() > 0 && !is_ws(s[0]) {
        lemma_first_ws(s.drop_first());
        assert(forall|j: int| 1 <= j < s.len() ==> s[j] == s.drop_first()[j - 1]);
    }
}

/// Exec scan past whitespace, starting at `from`.
pub fn skip_ws_from(s: &str, from: usize) -> (r: usize)
    requires
        from <= s@.len(),
    ensures
        from <= r <= s@.len(),
        r - from == first_non_ws(s@.skip(from as int)),
{
    let len = s.unicode_len();
    let mut i = from;
    while i < len && is_ws_char(s.get_char(i))
        invariant
            from <= i <= len,
            len == s@.len(),
            forall|j: int| from <= j < i ==> is_ws(s@[j]),
        decreases len - i,
    {
        i = i + 1;
    }
    proof {
        let rest = s@.skip(from as int);
        lemma_first_non_ws(rest);
        assert(forall|m: int| 0 <= m < rest.len() ==> rest[m] == s@[from + m]);
        let f = first_non_ws(rest);
        if f < i - from {
            assert(is_ws(s@[from + f]));
        } else if f > i - from {
            assert(i < len);
            assert(is_ws(rest[i - from]));
        }
    }
    i
}

/// Exec scan to the next whitespace, starting at `from`.
pub fn find_ws_from(s: &str, from: usize) -> (r: usize)
    requires
        from <= s@.len(),
    ensures
        from <= r <= s@.len(),
        r - from == first_ws(s@.skip(from as int)),
{
    let len = s.unicode_len();
    let mut i = from;
    while i < len && !is_ws_char(s.get_char(i))
        invariant
            from <= i <= len,
            len == s@.len(),
            forall|j: int| from <= j < i ==> !is_ws(s@[j]),
        decreases len - i,
    {
        i = i + 1;
    }
    proof {
        let rest = s@.skip(from as int);
        lemma_first_ws(rest);
        assert(forall|m: int| 0 <= m < rest.len() ==> rest[m] == s@[from + m]);
        let f = first_ws(rest);
        if f < i - from {
            assert(!is_ws(s@[from + f]));
        } else if f > i - from {
            assert(i < len);
            assert(!is_ws(rest[i - from]));
        }
    }
    i
}

/// Index of the first occurrence of `pat` as a substring, or -1.
pub open spec fn find_sub(s: Seq<char>, pat: Seq<char>) -> int
    decreases s.len(),
{
    if pat.len() > s.len() {
        -1
    } else if s.take(pat.len() as int) == pat {
        0
    } else if s.len() == 0 {
        -1
    } else {
        let r = find_sub(s.drop_first(), pat);
        if r == -1 {
            -1
        } else {
            r + 1
        }
    }
}

pub proof fn lemma_find_sub(s: Seq<char>, pat: Seq<char>)
    ensures
        pat.len() > s.len() ==> find_sub(s, pat) == -1,
        -1 <= find_sub(s, pat),
        pat.len() <= s.len() ==> find_sub(s, pat) <= s.len() - pat.len(),
        find_sub(s, pat) >= 0 ==> s.subrange(
            find_sub(s, pat),
            find_sub(s, pat) + pat.len(),
        ) == pat,
        forall|j: int| 0 <= j && j + pat.len() <= s.len() && (find_sub(s, pat) == -1 || j
            < find_sub(s, pat)) ==> #[trigger] s.subrange(j, j + pat.len()) != pat,
    decreases s.len(),
{
    if pat.len() <= s.len() {
        if s.take(pat.len() as int) == pat {
            assert(s.subrange(0, pat.len() as int) == s.take(pat.len() as int));
        } else {
            assert(s.len() > 0) by {
                if s.len() == 0 {
                    assert(s.take(pat.len() as int) =~= pat);
                }
            }
            lemma_find_sub(s.drop_first(), pat);
            assert(s.subrange(0, pat.len() as int) != pat);
            assert forall|j: int| 1 <= j && j + pat.len() <= s.len() implies #[trigger] s.subrange(
                j,
                j + pat.len(),
            ) == s.drop_first().subrange(j - 1, j - 1 + pat.len()) by {
                assert(s.subrange(j, j + pat.len()) =~= s.drop_first().subrange(
                    j - 1,
                    j - 1 + pat.len(),
                ));
            }
        }
    }
}

/// If `pat` sits at `i` and nowhere earlier, `i` is the find result.
pub proof fn lemma_find_sub_is(s: Seq<char>, pat: Seq<char>, i: int)
    requires
        0 <= i,
        i + pat.len() <= s.len(),
        s.subrange(i, i + pat.len()) == pat,
        forall|j: int| 0 <= j < i ==> #[trigger] s.subrange(j, j + pat.len()) != pat,
    ensures
        find_sub(s, pat) == i,
{
    lemma_find_sub(s, pat);
    let fs = find_sub(s, pat);
    if fs < i {
        assert(fs >= 0 ==> s.subrange(fs, fs + pat.len()) == pat);
        assert(fs == -1 ==> s.subrange(i, i + pat.len()) != pat);
    } else if fs > i {
        assert(s.subrange(i, i + pat.len()) != pat);
    }
}

/// Whether the character sequence `p` occurs among the strings of `ex`.
pub open spec fn in_list(ex: Seq<String>, p: Seq<char>) -> bool {
    exists|k: int| 0 <= k < ex.len() && ex[k]@ == p
}

/// Exec membership test of `p` in the string list `v`.
pub fn contains_string(v: &Vec<String>, p: &String) -> (r: bool)
    ensures
        r == in_list(v@, p@),
{
    let mut k: usize = 0;
    while k < v.len()
        invariant
            0 <= k <= v@.len(),
            forall|j: int| 0 <= j < k ==> v@[j]@ != p@,
        decreases v@.len() - k,
    {
        if v[k] == *p {
            return true;
        }
        k = k + 1;
    }
    false
}

/// Membership in a concatenation is membership in one of the halves.
pub broadcast proof fn lemma_contains_add<A>(a: Seq<A>, b: Seq<A>, x: A)
    ensures
        #[trigger] (a + b).contains(x) <==> (a.contains(x) || b.contains(x)),
{
    if (a + b).contains(x) {
        let i = choose|i: int| 0 <= i < (a + b).len() && (a + b)[i] == x;
        if i < a.len() {
            assert(a[i] == x);
        } else {
            assert(b[i - a.len()] == x);
        }
    }
    if a.contains(x) {
        let i = choose|i: int| 0 <= i < a.len() && a[i] == x;
        assert((a + b)[i] == x);
    }
    if b.contains(x) {
        let i = choose|i: int| 0 <= i < b.len() && b[i] == x;
        assert((a + b)[a.len() + i] == x);
    }
}

/// Numeric value of a digit character.
pub open spec fn digit_val(c: char) -> nat {
    ((c as int) - ('0' as int)) as nat
}

pub open spec fn all_digits(s: Seq<char>) -> bool {
    forall|i: int| 0 <= i < s.len() ==> is_digit_char(#[trigger] s[i])
}

/// Value of a digit string, most significant first.
pub open spec fn dec_val(s: Seq<char>) -> nat
    decreases s.len(),
{
    if s.len() == 0 {
        0
    } else {
        dec_val(s.drop_last()) * 10 + digit_val(s.last())
    }
}

/// Cap applied to parsed integer parts so that downstream arithmetic
/// stays inside a machine word: one trillion units.
pub open spec fn spec_vcap() -> nat {
    1000000000000
}

/// `min(dec_val(s), VCAP)`, the saturating value an exec parser yields.
pub open spec fn dec_val_sat(s: Seq<char>) -> nat {
    if dec_val(s) > spec_vcap() {
        spec_vcap()
    } else {
        dec_val(s)
    }
}

/// Saturating parse of the digit range `[from, to)` of `s`.
/// The range must be all digits.
pub fn parse_digits_sat(s: &str, from: usize, to: usize) -> (r: u64)
    requires
        from <= to <= s@.len(),
        all_digits(s@.subrange(from as int, to as int)),
    ensures
        r == dec_val_sat(s@.subrange(from as int, to as int)),
{
    let cap: u64 = 1000000000000;
    let mut acc: u64 = 0;
    let mut i = from;
    while i < to
        invariant
            from <= i <= to <= s@.len(),
            all_digits(s@.subrange(from as int, to as int)),
            acc == dec_val_sat(s@.subrange(from as int, i as int)),
            cap == spec_vcap(),
        decreases to - i,
    {
        let c = s.get_char(i);
        proof {
            assert(s@.subrange(from as int, to as int)[i - from] == s@[i as int]);
            assert(is_digit_char(s@[i as int]));
        }
        let d: u64 = (c as u32 as u64) - 48;
        let next = if acc > cap {
            cap
        } else {
            let t = acc * 10 + d;
            if t > cap {
                cap
            } else {
                t
            }
        };
        proof {
            let pre = s@.subrange(from as int, i as int);
            let pre2 = s@.subrange(from as int, i + 1 as int);
            assert(pre2.drop_last() =~= pre);
            assert(pre2.last() == s@[i as int]);
            assert(dec_val(pre2) == dec_val(pre) * 10 + digit_val(s@[i as int]));
            if dec_val(pre) > spec_vcap() {
                assert(dec_val(pre2) > spec_vcap());
            }
        }
        acc = next;
        i = i + 1;
    }
    proof {
        assert(s@.subrange(from as int, to as int) =~= s@.subrange(from as int, i as int));
    }
    acc
}

/// Checks that the digit range `[from, to)` of `s` is all digits.
pub fn check_digits(s: &str, from: usize, to: usize) -> (r: bool)
    requires
        from <= to <= s@.len(),
    ensures
        r == all_digits(s@.subrange(from as int, to as int)),
{
    let mut i = from;
    while i < to
        invariant
            from <= i <= to <= s@.len(),
            forall|j: int| from <= j < i ==> is_digit_char(#[trigger] s@[j]),
        decreases to - i,
    {
        let c = s.get_char(i);
        if !('0' <= c && c <= '9') {
            proof {
                assert(s@.subrange(from as int, to as int)[i - from] == s@[i as int]);
            }
            return false;
        }
        i = i + 1;
    }
    proof {
        assert(forall|j: int| 0 <= j < to - from
            ==> s@.subrange(from as int, to as int)[j] == s@[j + from]);
    }
    true
}

} // verus!
