//! Timecode parsing and output-path uniquification.
//!
//! Times are held in milliseconds and frame rates in thousandths of a
//! frame per second, so that every quantity the transcoder reports can
//! be computed on exactly.

use vstd::prelude::*;
use vstd::assert_by_contradiction;
use crate::numfmt::{spec_dec, u64_to_dec, lemma_spec_dec_digits, lemma_spec_dec_injective};
use crate::numfmt::is_digit_char;
use crate::strutil::{
    all_digits, dec_val, dec_val_sat, spec_vcap, first_index_of, last_index_of, split_on,
    lemma_first_index_of, lemma_first_index_of_is, lemma_last_index_of, lemma_split_on_len,
    find_char_from, rfind_char, parse_digits_sat, check_digits, in_list, contains_string,
    spec_trim, trim_str, digit_val,
};

verus! {

/// Powers of ten, for digit-count bounds.
pub open spec fn pow10(n: nat) -> nat
    decreases n,
{
    if n == 0 {
        1
    } else {
        10 * pow10((n - 1) as nat)
    }
}

pub proof fn lemma_dec_val_bound(s: Seq<char>)
    requires
        all_digits(s),
    ensures
        dec_val(s) < pow10(s.len()),
    decreases s.len(),
{
    if s.len() > 0 {
        assert(all_digits(s.drop_last())) by {
            assert(forall|i: int| 0 <= i < s.len() - 1 ==> s.drop_last()[i] == s[i]);
        }
        lemma_dec_val_bound(s.drop_last());
        assert(is_digit_char(s.last()));
        assert(digit_val(s.last()) <= 9);
    }
}

/// A decimal number as the probe or the timecode carries it: digits,
/// with an optional fractional part after one dot.  Either side of the
/// dot may be empty, but not both.
pub open spec fn wf_decimal(s: Seq<char>) -> bool {
    let di = first_index_of(s, '.');
    if di == -1 {
        s.len() > 0 && all_digits(s)
    } else {
        all_digits(s.take(di)) && all_digits(s.skip(di + 1)) && (di > 0 || s.len() > di + 1)
    }
}

/// Value of the fractional digits, truncated to milliseconds.
pub open spec fn frac3_val(f: Seq<char>) -> nat {
    if f.len() >= 3 {
        dec_val(f.take(3))
    } else if f.len() == 2 {
        dec_val(f) * 10
    } else if f.len() == 1 {
        dec_val(f) * 100
    } else {
        0
    }
}

/// The value of a well-formed decimal in thousandths of its unit, with
/// the integer part saturated at the parsing cap.
pub open spec fn milli_val(s: Seq<char>) -> nat {
    let di = first_index_of(s, '.');
    if di == -1 {
        dec_val_sat(s) * 1000
    } else {
        dec_val_sat(s.take(di)) * 1000 + frac3_val(s.skip(di + 1))
    }
}

/// A malformed segment counts as zero, exactly as a failed parse did.
pub open spec fn seg_milli(s: Seq<char>) -> nat {
    if wf_decimal(s) {
        milli_val(s)
    } else {
        0
    }
}

pub proof fn lemma_frac3_bound(f: Seq<char>)
    requires
        all_digits(f),
    ensures
        frac3_val(f) <= 999,
{
    reveal_with_fuel(pow10, 4);
    if f.len() >= 3 {
        assert(all_digits(f.take(3))) by {
            assert(forall|i: int| 0 <= i < 3 ==> f.take(3)[i] == f[i]);
        }
        lemma_dec_val_bound(f.take(3));
    } else {
        lemma_dec_val_bound(f);
    }
}

pub proof fn lemma_seg_milli_bound(s: Seq<char>)
    ensures
        seg_milli(s) <= spec_vcap() * 1000 + 999,
{
    if wf_decimal(s) {
        let di = first_index_of(s, '.');
        if di != -1 {
            lemma_frac3_bound(s.skip(di + 1));
        }
    }
}

/// Parses a whole string as a decimal, yielding thousandths of its
/// unit; `None` when the text is not a plain decimal number.
pub fn parse_decimal_milli(s: &str) -> (r: Option<u64>)
    ensures
        match r {
            Some(v) => wf_decimal(s@) && v == milli_val(s@),
            None => !wf_decimal(s@),
        },
{
    let len = s.unicode_len();
    let di = find_char_from(s, 0, '.');
    proof {
        lemma_first_index_of(s@, '.');
        if di < len {
            lemma_first_index_of_is(s@, '.', di as int);
        } else {
            if first_index_of(s@, '.') >= 0 {
                assert(s@[first_index_of(s@, '.')] == '.');
            }
        }
    }
    if di == len {
        // no dot: a plain digit string
        if len == 0 {
            return None;
        }
        if !check_digits(s, 0, len) {
            proof {
                assert(s@.subrange(0, len as int) =~= s@);
            }
            return None;
        }
        let v = parse_digits_sat(s, 0, len);
        proof {
            assert(s@.subrange(0, len as int) =~= s@);
            assert(v <= spec_vcap());
        }
        return Some(v * 1000);
    }
    // a dot at di
    if di == 0 && len == 1 {
        // just "."
        return None;
    }
    let int_ok = check_digits(s, 0, di);
    let frac_ok = check_digits(s, di + 1, len);
    proof {
        assert(s@.subrange(0, di as int) =~= s@.take(di as int));
        assert(s@.subrange(di + 1 as int, len as int) =~= s@.skip(di + 1));
    }
    if !(int_ok && frac_ok) {
        return None;
    }
    let iv = parse_digits_sat(s, 0, di);
    let frac_len = len - (di + 1);
    let f_end = if frac_len >= 3 {
        di + 4
    } else {
        len
    };
    let fv_raw = parse_digits_sat(s, di + 1, f_end);
    proof {
        let f = s@.skip(di + 1);
        assert(all_digits(f));
        if frac_len >= 3 {
            assert(s@.subrange(di + 1 as int, f_end as int) =~= f.take(3)) by {
                assert(forall|i: int| 0 <= i < 3 ==> f.take(3)[i] == s@[di + 1 + i]);
            }
            lemma_dec_val_bound(f.take(3));
            assert(all_digits(f.take(3))) by {
                assert(forall|i: int| 0 <= i < 3 ==> f.take(3)[i] == f[i]);
            }
        } else {
            assert(s@.subrange(di + 1 as int, f_end as int) =~= f);
            lemma_dec_val_bound(f);
        }
        lemma_frac3_bound(f);
    }
    let fv: u64 = if frac_len == 1 {
        fv_raw * 100
    } else if frac_len == 2 {
        fv_raw * 10
    } else {
        fv_raw
    };
    proof {
        assert(iv <= spec_vcap());
        assert(fv == frac3_val(s@.skip(di + 1)));
    }
    Some(iv * 1000 + fv)
}

/// The milliseconds named by an `HH:MM:SS(.f)` timecode; anything with
/// a different number of segments counts as zero, and so does each
/// malformed segment.
pub open spec fn spec_timecode_ms(s: Seq<char>) -> nat {
    let ps = split_on(s, ':');
    if ps.len() == 3 {
        3600 * seg_milli(ps[0]) + 60 * seg_milli(ps[1]) + seg_milli(ps[2])
    } else {
        0
    }
}

/// Parses a timecode into milliseconds.
pub fn parse_timecode(tc: &str) -> (r: u64)
    ensures
        r == spec_timecode_ms(tc@),
{
    let len = tc.unicode_len();
    let i = find_char_from(tc, 0, ':');
    proof {
        lemma_first_index_of(tc@, ':');
        if i < len {
            lemma_first_index_of_is(tc@, ':', i as int);
        } else {
            if first_index_of(tc@, ':') >= 0 {
                assert(tc@[first_index_of(tc@, ':')] == ':');
            }
        }
    }
    if i == len {
        // one part only
        return 0;
    }
    let rest1 = tc.substring_char(i + 1, len);
    let j = find_char_from(tc, i + 1, ':');
    proof {
        lemma_first_index_of(rest1@, ':');
        if j < len {
            assert(forall|m: int| 0 <= m < rest1@.len() ==> rest1@[m] == tc@[i + 1 + m]);
            lemma_first_index_of_is(rest1@, ':', j - (i + 1));
        } else {
            if first_index_of(rest1@, ':') >= 0 {
                assert(rest1@[first_index_of(rest1@, ':')] == ':');
                assert(tc@[i + 1 + first_index_of(rest1@, ':')] == ':');
            }
        }
    }
    if j == len {
        // two parts only
        proof {
            assert(split_on(tc@, ':') =~= seq![tc@.take(i as int)] + split_on(tc@.skip(i + 1), ':'));
            assert(rest1@ == tc@.skip(i + 1));
            assert(split_on(rest1@, ':') =~= seq![rest1@]);
        }
        return 0;
    }
    let k = find_char_from(tc, j + 1, ':');
    let rest2 = tc.substring_char(j + 1, len);
    proof {
        assert(rest2@ =~= rest1@.skip(j - i));
        lemma_first_index_of(rest2@, ':');
        if k < len {
            assert(forall|m: int| 0 <= m < rest2@.len() ==> rest2@[m] == tc@[j + 1 + m]);
            lemma_first_index_of_is(rest2@, ':', k - (j + 1));
        } else {
            if first_index_of(rest2@, ':') >= 0 {
                assert(rest2@[first_index_of(rest2@, ':')] == ':');
                assert(tc@[j + 1 + first_index_of(rest2@, ':')] == ':');
            }
        }
    }
    if k < len {
        // four or more parts
        proof {
            lemma_split_on_len(rest2@.skip(k - j), ':');
            assert(split_on(rest2@, ':') =~= seq![rest2@.take(k - (j + 1))] + split_on(
                rest2@.skip(k - j),
                ':',
            ));
            assert(split_on(rest1@, ':') =~= seq![rest1@.take(j - (i + 1))] + split_on(
                rest2@,
                ':',
            ));
            assert(rest2@ == rest1@.skip(j - i));
            assert(split_on(tc@, ':') =~= seq![tc@.take(i as int)] + split_on(rest1@, ':'));
        }
        return 0;
    }
    // exactly three parts
    let p0 = tc.substring_char(0, i);
    let p1 = tc.substring_char(i + 1, j);
    let p2 = rest2;
    proof {
        assert(split_on(rest2@, ':') =~= seq![rest2@]);
        assert(split_on(rest1@, ':') =~= seq![rest1@.take(j - (i + 1))] + split_on(rest2@, ':'));
        assert(rest2@ == rest1@.skip(j - i));
        assert(split_on(tc@, ':') =~= seq![tc@.take(i as int)] + split_on(rest1@, ':'));
        assert(p0@ == tc@.take(i as int));
        assert(p1@ =~= rest1@.take(j - (i + 1)));
        assert(split_on(tc@, ':') =~= seq![p0@, p1@, p2@]);
        lemma_seg_milli_bound(p0@);
        lemma_seg_milli_bound(p1@);
        lemma_seg_milli_bound(p2@);
    }
    let v0 = match parse_decimal_milli(p0) {
        Some(v) => v,
        None => 0,
    };
    let v1 = match parse_decimal_milli(p1) {
        Some(v) => v,
        None => 0,
    };
    let v2 = match parse_decimal_milli(p2) {
        Some(v) => v,
        None => 0,
    };
    3600 * v0 + 60 * v1 + v2
}

// ---------------------------------------------------------------------
// Output-path uniquification.
//
// Paths are handled textually: the directory prefix is everything up to
// and including the last `/`, the extension everything after the last
// `.` of the file name when that dot is not its first character.

/// Directory prefix of `p`, including the trailing separator.
pub open spec fn dir_of(p: Seq<char>) -> Seq<char> {
    p.take(last_index_of(p, '/') + 1)
}

/// File-name part of `p`, after the last separator.
pub open spec fn fname_of(p: Seq<char>) -> Seq<char> {
    p.skip(last_index_of(p, '/') + 1)
}

/// Stem of the file name: what precedes the extension dot.
pub open spec fn raw_stem_of(p: Seq<char>) -> Seq<char> {
    let n = fname_of(p);
    let d = last_index_of(n, '.');
    if d > 0 {
        n.take(d)
    } else {
        n
    }
}

/// Extension of the file name; empty when there is none.
pub open spec fn ext_of(p: Seq<char>) -> Seq<char> {
    let n = fname_of(p);
    let d = last_index_of(n, '.');
    if d > 0 {
        n.skip(d + 1)
    } else {
        Seq::empty()
    }
}

/// Strips one trailing `(N)` disambiguation suffix from a stem, so that
/// repeated uniquification does not pile suffixes up.  The suffix is
/// stripped only when it closes the stem: the last `(`, digits only
/// after it (possibly none), and a `)` as the stem's final character.
/// A parenthesised number anywhere earlier in the stem is left alone.
/// The remainder is trimmed of surrounding whitespace (ASCII, as in
/// the rest of this module).
pub open spec fn strip_suffix(stem: Seq<char>) -> Seq<char> {
    let lp = last_index_of(stem, '(');
    if lp >= 0 {
        let fp = first_index_of(stem.skip(lp), ')');
        if fp >= 0 && lp + fp == stem.len() - 1 && all_digits(stem.subrange(lp + 1, lp + fp)) {
            spec_trim(stem.take(lp))
        } else {
            stem
        }
    } else {
        stem
    }
}

/// Base stem used for numbered candidates of `p`.
pub open spec fn base_of(p: Seq<char>) -> Seq<char> {
    strip_suffix(raw_stem_of(p))
}

/// A numbered name assembled from a directory prefix, a base stem and
/// an optional extension.
pub open spec fn candidate_parts(dir: Seq<char>, base: Seq<char>, ext: Seq<char>, i: nat) -> Seq<char> {
    if ext.len() == 0 {
        dir + base + "("@ + spec_dec(i) + ")"@
    } else {
        dir + base + "("@ + spec_dec(i) + ")"@ + "."@ + ext
    }
}

/// The `i`-th numbered candidate derived from `p`.
pub open spec fn candidate(p: Seq<char>, i: nat) -> Seq<char> {
    candidate_parts(dir_of(p), base_of(p), ext_of(p), i)
}

/// What `unique_path` promises: the result is absent from the list; an
/// absent input comes back unchanged; a present input yields the first
/// free numbered candidate.
pub open spec fn uniquified(ex: Seq<String>, p: Seq<char>, r: Seq<char>) -> bool {
    &&& !in_list(ex, r)
    &&& (!in_list(ex, p) ==> r == p)
    &&& (in_list(ex, p) ==> exists|i: nat|
        1 <= i && r == candidate(p, i) && (forall|j: nat|
            1 <= j < i ==> in_list(ex, #[trigger] candidate(p, j))))
}

/// Different numbers give different candidate paths.
proof fn lemma_candidate_injective(p: Seq<char>, i: nat, j: nat)
    requires
        candidate(p, i) == candidate(p, j),
    ensures
        i == j,
{
    reveal_strlit("(");
    reveal_strlit(")");
    reveal_strlit(".");
    lemma_spec_dec_digits(i);
    lemma_spec_dec_digits(j);
    let off = dir_of(p).len() + base_of(p).len() + 1;
    let di = spec_dec(i);
    let dj = spec_dec(j);
    assert(candidate(p, i).len() == off + di.len() + 1 + (if ext_of(p).len() == 0 {
        0int
    } else {
        1 + ext_of(p).len() as int
    }));
    assert(candidate(p, j).len() == off + dj.len() + 1 + (if ext_of(p).len() == 0 {
        0int
    } else {
        1 + ext_of(p).len() as int
    }));
    assert(di.len() == dj.len());
    assert(di =~= dj) by {
        assert(forall|m: int| 0 <= m < di.len() ==> candidate(p, i)[off + m] == di[m]);
        assert(forall|m: int| 0 <= m < dj.len() ==> candidate(p, j)[off + m] == dj[m]);
    }
    lemma_spec_dec_injective(i, j);
}

/// The set of the first `k` numbered candidates.
spec fn cand_set(p: Seq<char>, k: nat) -> Set<Seq<char>> {
    Set::new(|q: Seq<char>| exists|j: nat| 1 <= j <= k && q == candidate(p, j))
}

proof fn lemma_cand_set_card(p: Seq<char>, k: nat)
    ensures
        cand_set(p, k).finite(),
        cand_set(p, k).len() == k,
    decreases k,
{
    if k == 0 {
        assert(cand_set(p, 0) =~= Set::<Seq<char>>::empty());
    } else {
        lemma_cand_set_card(p, (k - 1) as nat);
        assert(cand_set(p, k) =~= cand_set(p, (k - 1) as nat).insert(candidate(p, k)));
        if cand_set(p, (k - 1) as nat).contains(candidate(p, k)) {
            let j = choose|j: nat| 1 <= j <= k - 1 && candidate(p, k) == candidate(p, j);
            lemma_candidate_injective(p, k, j);
        }
    }
}

/// The strings of the list, as a set of character sequences.
spec fn list_set(ex: Seq<String>) -> Set<Seq<char>> {
    ex.map_values(|s: String| s@).to_set()
}

proof fn lemma_in_list_set(ex: Seq<String>, q: Seq<char>)
    requires
        in_list(ex, q),
    ensures
        list_set(ex).contains(q),
{
    let k = choose|k: int| 0 <= k < ex.len() && ex[k]@ == q;
    let m = ex.map_values(|s: String| s@);
    assert(m[k] == q);
    assert(m.contains(q));
}

/// A list of `n` names cannot hold all of the first `n + 1` candidates,
/// so one of them is free.
proof fn lemma_some_candidate_free(ex: Seq<String>, p: Seq<char>)
    ensures
        exists|i: nat| 1 <= i <= ex.len() + 1 && !in_list(ex, #[trigger] candidate(p, i)),
{
    broadcast use vstd::seq_lib::seq_to_set_is_finite;

    let n = ex.len();
    assert_by_contradiction!(
        exists|i: nat| 1 <= i <= ex.len() + 1 && !in_list(ex, #[trigger] candidate(p, i)),
        {
            let cs = cand_set(p, (n + 1) as nat);
            let ls = list_set(ex);
            lemma_cand_set_card(p, (n + 1) as nat);
            assert(cs.subset_of(ls)) by {
                assert forall|q: Seq<char>| cs.contains(q) implies ls.contains(q) by {
                    let j = choose|j: nat| 1 <= j <= n + 1 && q == candidate(p, j);
                    assert(in_list(ex, candidate(p, j)));
                    lemma_in_list_set(ex, q);
                }
            }
            let m = ex.map_values(|s: String| s@);
            m.lemma_cardinality_of_set();
            vstd::set_lib::lemma_len_subset(cs, ls);
        }
    );
}

/// Returns `path` if it is not among `existing`, else the first numbered
/// variant `base(1)`, `base(2)`, ... that is not, re-using the original
/// extension and stripping any prior `(N)` suffix off the stem first.
///
/// `existing` stands for the set of paths that exist at call time; the
/// caller enumerates the relevant directory entries.
fn split_base(path: &String) -> (r: (String, String, String))
    ensures
        r.0@ == dir_of(path@),
        r.1@ == base_of(path@),
        r.2@ == ext_of(path@),
{
    let s = path.as_str();
    let len = s.unicode_len();
    let dir_end = match rfind_char(s, '/') {
        Some(i) => i + 1,
        None => 0,
    };
    let dir = s.substring_char(0, dir_end);
    let fname = s.substring_char(dir_end, len);
    let flen = len - dir_end;
    proof {
        lemma_last_index_of(s@, '/');
        assert(dir@ == dir_of(path@));
        assert(fname@ == fname_of(path@));
    }
    let d = match rfind_char(fname, '.') {
        Some(d) => d,
        None => 0,
    };
    let (stem, ext) = if d > 0 {
        (fname.substring_char(0, d), fname.substring_char(d + 1, flen))
    } else {
        (fname, fname.substring_char(flen, flen))
    };
    proof {
        lemma_last_index_of(fname@, '.');
        assert(stem@ == raw_stem_of(path@));
        assert(ext@ =~= ext_of(path@));
    }
    let slen = stem.unicode_len();
    let base: String = match rfind_char(stem, '(') {
        Some(lp) => {
            let fp = find_char_from(stem, lp, ')');
            proof {
                lemma_last_index_of(stem@, '(');
                lemma_first_index_of(stem@.skip(lp as int), ')');
                if fp < slen {
                    assert(forall|m: int| 0 <= m < stem@.skip(lp as int).len()
                        ==> stem@.skip(lp as int)[m] == stem@[lp + m]);
                    lemma_first_index_of_is(stem@.skip(lp as int), ')', fp - lp);
                    assert(stem@[fp as int] == ')');
                    assert(stem@[lp as int] == '(');
                    assert(fp != lp);
                } else {
                    if first_index_of(stem@.skip(lp as int), ')') >= 0 {
                        assert(stem@[lp + first_index_of(stem@.skip(lp as int), ')')] == ')');
                    }
                }
            }
            if fp < slen && fp + 1 == slen && check_digits(stem, lp + 1, fp) {
                let t = stem.substring_char(0, lp);
                trim_str(t)
            } else {
                String::from_str(stem)
            }
        },
        None => String::from_str(stem),
    };
    proof {
        assert(base@ == base_of(path@));
    }
    (String::from_str(dir), base, String::from_str(ext))
}

/// Directory prefix and raw (unstripped) stem of a path.
pub fn split_dir_stem(path: &String) -> (r: (String, String))
    ensures
        r.0@ == dir_of(path@),
        r.1@ == raw_stem_of(path@),
{
    let s = path.as_str();
    let len = s.unicode_len();
    let dir_end = match rfind_char(s, '/') {
        Some(i) => i + 1,
        None => 0,
    };
    let dir = s.substring_char(0, dir_end);
    let fname = s.substring_char(dir_end, len);
    let flen = len - dir_end;
    proof {
        lemma_last_index_of(s@, '/');
        assert(dir@ == dir_of(path@));
        assert(fname@ == fname_of(path@));
    }
    let d = match rfind_char(fname, '.') {
        Some(d) => d,
        None => 0,
    };
    let stem = if d > 0 {
        fname.substring_char(0, d)
    } else {
        fname
    };
    proof {
        lemma_last_index_of(fname@, '.');
        assert(stem@ == raw_stem_of(path@));
    }
    (String::from_str(dir), String::from_str(stem))
}

/// Length of the file-name part of a path.
pub fn fname_len(path: &String) -> (n: usize)
    ensures
        n == fname_of(path@).len(),
{
    let s = path.as_str();
    let len = s.unicode_len();
    let dir_end = match rfind_char(s, '/') {
        Some(i) => i + 1,
        None => 0,
    };
    proof {
        lemma_last_index_of(s@, '/');
    }
    len - dir_end
}

fn build_candidate(dir: &String, base: &String, ext: &String, i: u64) -> (c: String)
    ensures
        c@ == candidate_parts(dir@, base@, ext@, i as nat),
{
    let num = u64_to_dec(i);
    let mut cand = String::new();
    cand.append(dir.as_str());
    cand.append(base.as_str());
    cand.append("(");
    cand.append(num.as_str());
    cand.append(")");
    if ext.as_str().unicode_len() > 0 {
        cand.append(".");
        cand.append(ext.as_str());
    }
    proof {
        assert(cand@ =~= candidate_parts(dir@, base@, ext@, i as nat));
    }
    cand
}

pub fn unique_path(path: String, existing: &Vec<String>) -> (r: String)
    requires
        existing@.len() < 0xFFFF_FFFF_FFFF_FFFFu64,
    ensures
        uniquified(existing@, path@, r@),
{
    if !contains_string(existing, &path) {
        return path;
    }
    let (dir, base, ext) = split_base(&path);
    let n = existing.len();
    let mut i: u64 = 1;
    loop
        invariant
            1 <= i <= existing@.len() + 1,
            existing@.len() < 0xFFFF_FFFF_FFFF_FFFFu64,
            n == existing@.len(),
            in_list(existing@, path@),
            dir@ == dir_of(path@),
            base@ == base_of(path@),
            ext@ == ext_of(path@),
            forall|j: nat| 1 <= j < i ==> in_list(existing@, #[trigger] candidate(path@, j)),
        decreases existing@.len() + 1 - i,
    {
        let cand = build_candidate(&dir, &base, &ext, i);
        proof {
            assert(cand@ == candidate(path@, i as nat));
        }
        if !contains_string(existing, &cand) {
            proof {
                assert(1 <= i as nat && cand@ == candidate(path@, i as nat) && (forall|j: nat|
                    1 <= j < i as nat ==> in_list(existing@, #[trigger] candidate(path@, j))));
            }
            return cand;
        }
        proof {
            if i == n as u64 + 1 {
                assert(forall|j: nat| 1 <= j <= existing@.len() + 1
                    ==> in_list(existing@, #[trigger] candidate(path@, j)));
                lemma_some_candidate_free(existing@, path@);
            }
        }
        i = i + 1;
    }
}

/// The uniquified output is determined: any two results of uniquifying
/// the same path against the same list are equal.
pub proof fn lemma_uniquified_unique(ex: Seq<String>, p: Seq<char>, r1: Seq<char>, r2: Seq<char>)
    requires
        uniquified(ex, p, r1),
        uniquified(ex, p, r2),
    ensures
        r1 == r2,
{
    if in_list(ex, p) {
        let i1 = choose|i: nat|
            1 <= i && r1 == candidate(p, i) && (forall|j: nat|
                1 <= j < i ==> in_list(ex, #[trigger] candidate(p, j)));
        let i2 = choose|i: nat|
            1 <= i && r2 == candidate(p, i) && (forall|j: nat|
                1 <= j < i ==> in_list(ex, #[trigger] candidate(p, j)));
        if i1 < i2 {
            assert(in_list(ex, candidate(p, i1)));
        } else if i2 < i1 {
            assert(in_list(ex, candidate(p, i2)));
        }
    }
}

/// Uniquification is idempotent: run on its own output against the same
/// set of existing paths, it hands the output back unchanged, because
/// that output is already absent from the set.
pub proof fn lemma_unique_path_idempotent(ex: Seq<String>, p: Seq<char>, r1: Seq<char>, r2: Seq<char>)
    requires
        uniquified(ex, p, r1),
        uniquified(ex, r1, r2),
    ensures
        r2 == r1,
{
}

} // verus!
