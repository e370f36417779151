//! The two scalar decoders of the configuration model: booleans in their
//! lenient source encoding, and comma-separated integer lists.
//!
//! Both are pure: the same text always decodes to the same value or the
//! same failure.

use vstd::prelude::*;
use vstd::string::*;
use crate::errors::{DecodeError, DecodeErrorV};
use crate::text::chars_of;

verus! {

/// ASCII lower-casing of one character; every other character is kept.
pub open spec fn lower_char(c: char) -> char {
    if 'A' <= c && c <= 'Z' {
        ((c as int) + 32) as char
    } else {
        c
    }
}

/// ASCII lower-casing of a character sequence.
pub open spec fn lower_seq(s: Seq<char>) -> Seq<char> {
    s.map_values(|c: char| lower_char(c))
}

/// The boolean a raw attribute text decodes to, if any: case-insensitively,
/// `true` is true; `false`, the empty text and a single space are false;
/// everything else fails. Blank-as-false is deliberate: many source
/// documents omit the attribute value.
pub open spec fn bool_decode(s: Seq<char>) -> Option<bool> {
    if lower_seq(s) == "true"@ {
        Some(true)
    } else if lower_seq(s) == "false"@ || lower_seq(s) == ""@ || lower_seq(s) == " "@ {
        Some(false)
    } else {
        None
    }
}

/// Whether lower-casing `c` yields exactly `t`.
fn char_lower_eq(c: char, t: char) -> (r: bool)
    ensures
        r == (lower_char(c) == t),
{
    if 'A' <= c && c <= 'Z' {
        (c as u32) + 32 == (t as u32)
    } else {
        c == t
    }
}

/// Whether `s`, lower-cased, is exactly the (already lower-case) text `t`.
fn eq_lower(s: &str, t: &str) -> (r: bool)
    ensures
        r == (lower_seq(s@) == t@),
{
    let slen = s.unicode_len();
    let tlen = t.unicode_len();
    if slen != tlen {
        return false;
    }
    let mut i: usize = 0;
    while i < slen
        invariant
            slen == s@.len(),
            tlen == t@.len(),
            slen == tlen,
            i <= slen,
            forall|j: int| 0 <= j < i ==> lower_char(s@[j]) == t@[j],
        decreases slen - i,
    {
        if !char_lower_eq(s.get_char(i), t.get_char(i)) {
            assert(lower_seq(s@)[i as int] != t@[i as int]);
            return false;
        }
        i = i + 1;
    }
    proof {
        assert(lower_seq(s@) =~= t@);
    }
    true
}

/// Decodes a boolean attribute: exactly the texts `bool_decode` accepts,
/// with `InvalidBoolean` carrying the raw text otherwise.
pub fn parse_bool(s: &str) -> (r: Result<bool, DecodeError>)
    ensures
        match r {
            Ok(b) => bool_decode(s@) == Some(b),
            Err(e) => bool_decode(s@) is None && e@ == DecodeErrorV::InvalidBoolean(s@),
        },
{
    if eq_lower(s, "true") {
        Ok(true)
    } else if eq_lower(s, "false") || eq_lower(s, "") || eq_lower(s, " ") {
        Ok(false)
    } else {
        Err(DecodeError::InvalidBoolean(s.to_owned()))
    }
}

/// Whether `c` is a decimal digit.
pub open spec fn is_digit(c: char) -> bool {
    '0' <= c && c <= '9'
}

/// The value of one decimal digit.
pub open spec fn digit_val(c: char) -> int {
    (c as int) - ('0' as int)
}

/// Whether every character of `s` is a decimal digit.
pub open spec fn all_digits(s: Seq<char>) -> bool {
    forall|i: int| 0 <= i < s.len() ==> is_digit(s[i])
}

/// The value of a digit sequence read in base ten.
pub open spec fn digits_val(s: Seq<char>) -> int
    decreases s.len(),
{
    if s.len() == 0 {
        0
    } else {
        digits_val(s.drop_last()) * 10 + digit_val(s.last())
    }
}

/// The signed integer a text parses to, if it is an optional sign followed
/// by at least one digit and the value fits an `i32` — the grammar of
/// `i32`'s standard string parse.
pub open spec fn i32_of_seq(s: Seq<char>) -> Option<int> {
    let signed = s.len() > 0 && (s[0] == '+' || s[0] == '-');
    let neg = s.len() > 0 && s[0] == '-';
    let ds = if signed {
        s.drop_first()
    } else {
        s
    };
    if ds.len() > 0 && all_digits(ds) {
        let v = if neg {
            -digits_val(ds)
        } else {
            digits_val(ds)
        };
        if i32::MIN <= v <= i32::MAX {
            Some(v)
        } else {
            None
        }
    } else {
        None
    }
}

proof fn lemma_digits_val_nonneg(s: Seq<char>)
    requires
        all_digits(s),
    ensures
        digits_val(s) >= 0,
    decreases s.len(),
{
    if s.len() > 0 {
        assert(all_digits(s.drop_last()));
        lemma_digits_val_nonneg(s.drop_last());
    }
}

proof fn lemma_digits_val_prefix(s: Seq<char>, i: int)
    requires
        all_digits(s),
        0 <= i <= s.len(),
    ensures
        digits_val(s.take(i)) <= digits_val(s),
    decreases s.len() - i,
{
    if i < s.len() {
        lemma_digits_val_prefix(s, i + 1);
        let t = s.take(i + 1);
        assert(t.drop_last() =~= s.take(i));
        assert(all_digits(t.drop_last()));
        lemma_digits_val_nonneg(s.take(i));
        assert(is_digit(t.last()));
        assert(digits_val(s.take(i)) <= digits_val(s.take(i + 1)));
    } else {
        assert(s.take(i) =~= s);
    }
}

/// Parses `v[from..to]` as a signed decimal integer, exactly where
/// `i32_of_seq` succeeds on that range.
fn parse_i32_range(v: &Vec<char>, from: usize, to: usize) -> (r: Option<i32>)
    requires
        from <= to <= v@.len(),
    ensures
        match r {
            Some(x) => i32_of_seq(v@.subrange(from as int, to as int)) == Some(x as int),
            None => i32_of_seq(v@.subrange(from as int, to as int)) is None,
        },
{
    let ghost s = v@.subrange(from as int, to as int);
    let mut i: usize = from;
    let mut neg: bool = false;
    if from < to && (v[from] == '+' || v[from] == '-') {
        neg = v[from] == '-';
        i = from + 1;
    }
    let ghost ds = s.subrange(i - from, s.len() as int);
    proof {
        assert(s.len() == to - from);
        if i > from {
            assert(s[0] == v@[from as int]);
            assert(ds =~= s.drop_first());
        } else {
            assert(ds =~= s);
        }
    }
    if i == to {
        // no digits at all
        return None;
    }
    let digits_start = i;
    let mut mag: u64 = 0;
    while i < to
        invariant
            from <= digits_start <= i <= to <= v@.len(),
            digits_start <= from + 1,
            s == v@.subrange(from as int, to as int),
            s.len() == to - from,
            ds == (if digits_start > from {
                s.drop_first()
            } else {
                s
            }),
            digits_start == from + 1 <==> (s.len() > 0 && (s[0] == '+' || s[0] == '-')),
            neg <==> (s.len() > 0 && s[0] == '-'),
            ds.len() == to - digits_start,
            forall|j: int| 0 <= j < i - digits_start ==> is_digit(ds[j]),
            mag == digits_val(ds.take(i - digits_start)),
            mag <= 0x8000_0000u64,
        decreases to - i,
    {
        let c = v[i];
        assert(c == ds[i - digits_start]);
        if !('0' <= c && c <= '9') {
            proof {
                assert(!all_digits(ds));
                assert(s[0] == v@[from as int]);
                assert(i32_of_seq(s) is None);
            }
            return None;
        }
        let d: u64 = (c as u64) - ('0' as u64);
        let next: u64 = mag * 10 + d;
        proof {
            let k = i - digits_start;
            let t = ds.take(k + 1);
            assert(t.drop_last() =~= ds.take(k));
            assert(t.last() == ds[k]);
            assert(digits_val(t) == mag * 10 + digit_val(ds[k]));
        }
        if next > 0x8000_0000u64 {
            // the digits read so far already exceed every i32 magnitude,
            // and more digits only grow the value
            proof {
                assert(s[0] == v@[from as int]);
                if all_digits(ds) {
                    lemma_digits_val_prefix(ds, i + 1 - digits_start);
                    assert(digits_val(ds) >= digits_val(ds.take(i + 1 - digits_start)));
                }
                assert(i32_of_seq(s) is None);
            }
            return None;
        }
        mag = next;
        i = i + 1;
    }
    assert(ds.take(to - digits_start) =~= ds);
    assert(all_digits(ds));
    assert(mag == digits_val(ds));
    if neg {
        assert(s.len() > 0 && s[0] == '-');
        if mag == 0x8000_0000u64 {
            Some(i32::MIN)
        } else {
            Some(-(mag as i32))
        }
    } else {
        assert(!(s.len() > 0 && s[0] == '-'));
        if mag == 0x8000_0000u64 {
            return None;
        }
        Some(mag as i32)
    }
}

/// Parses a whole string as a signed decimal integer, exactly where
/// `i32_of_seq` succeeds on it.
pub fn parse_i32_str(s: &str) -> (r: Option<i32>)
    ensures
        match r {
            Some(x) => i32_of_seq(s@) == Some(x as int),
            None => i32_of_seq(s@) is None,
        },
{
    let v = chars_of(s);
    proof {
        assert(v@.subrange(0, v@.len() as int) =~= s@);
    }
    parse_i32_range(&v, 0, v.len())
}

/// The segments of `s` between commas; never empty, and empty segments
/// are kept (to be dropped by `decode_segments`).
pub open spec fn split_commas(s: Seq<char>) -> Seq<Seq<char>>
    decreases s.len(),
{
    if s.len() == 0 {
        seq![Seq::<char>::empty()]
    } else if s[0] == ',' {
        seq![Seq::<char>::empty()] + split_commas(s.drop_first())
    } else {
        let rest = split_commas(s.drop_first());
        seq![seq![s[0]] + rest[0]] + rest.drop_first()
    }
}

/// Decodes a segment list: empty segments are dropped, every other segment
/// must parse as an `i32`; the error is the leftmost offending segment.
pub open spec fn decode_segments(segs: Seq<Seq<char>>) -> Result<Seq<i32>, Seq<char>>
    decreases segs.len(),
{
    if segs.len() == 0 {
        Ok(Seq::empty())
    } else if segs[0].len() == 0 {
        decode_segments(segs.drop_first())
    } else {
        match i32_of_seq(segs[0]) {
            None => Err(segs[0]),
            Some(x) => match decode_segments(segs.drop_first()) {
                Err(e) => Err(e),
                Ok(t) => Ok(seq![x as i32] + t),
            },
        }
    }
}

/// The integer list a raw attribute text decodes to: split on commas,
/// empty segments dropped, every remaining segment a signed integer.
pub open spec fn int_list_decode(s: Seq<char>) -> Result<Seq<i32>, Seq<char>> {
    decode_segments(split_commas(s))
}

proof fn lemma_split_at_comma(s: Seq<char>, j: int)
    requires
        0 <= j <= s.len(),
        forall|k: int| 0 <= k < j ==> s[k] != ',',
        j < s.len() ==> s[j] == ',',
    ensures
        j == s.len() ==> split_commas(s) == seq![s],
        j < s.len() ==> split_commas(s) == seq![s.take(j)] + split_commas(s.skip(j + 1)),
    decreases j,
{
    if j == 0 {
        if 0 < s.len() {
            assert(split_commas(s) == seq![Seq::<char>::empty()] + split_commas(s.drop_first()));
            assert(s.take(0) =~= Seq::<char>::empty());
            assert(s.skip(1) =~= s.drop_first());
        } else {
            assert(s =~= Seq::<char>::empty());
            assert(split_commas(s) == seq![s]);
        }
    } else {
        let d = s.drop_first();
        assert(forall|k: int| 0 <= k < j - 1 ==> d[k] != ',');
        lemma_split_at_comma(d, j - 1);
        let rest = split_commas(d);
        if j == s.len() {
            assert(rest == seq![d]);
            assert(seq![s[0]] + d =~= s);
            assert(split_commas(s) =~= seq![s]);
        } else {
            assert(rest == seq![d.take(j - 1)] + split_commas(d.skip(j)));
            assert(rest[0] == d.take(j - 1));
            assert(seq![s[0]] + d.take(j - 1) =~= s.take(j));
            assert(rest.drop_first() =~= split_commas(d.skip(j)));
            assert(d.skip(j) =~= s.skip(j + 1));
            assert(split_commas(s) =~= seq![s.take(j)] + split_commas(s.skip(j + 1)));
        }
    }
}

/// Decodes a comma-separated integer list: `Ok` exactly when every
/// non-empty segment parses, `InvalidIntegerList` carrying the raw text
/// and the leftmost offending segment otherwise.
pub fn parse_csv_string(s: &str) -> (r: Result<Vec<i32>, DecodeError>)
    ensures
        match r {
            Ok(v) => int_list_decode(s@) == Ok::<Seq<i32>, Seq<char>>(v@),
            Err(e) => int_list_decode(s@) is Err && e@ == DecodeErrorV::InvalidIntegerList(
                s@,
                int_list_decode(s@)->Err_0,
            ),
        },
{
    let v = chars_of(s);
    let n = v.len();
    let mut out: Vec<i32> = Vec::new();
    let mut i: usize = 0;
    proof {
        assert(s@.skip(0) =~= s@);
    }
    loop
        invariant_except_break
            decode_segments(split_commas(s@)) == match decode_segments(
                split_commas(s@.skip(i as int)),
            ) {
                Ok(t) => Ok::<Seq<i32>, Seq<char>>(out@ + t),
                Err(e) => Err::<Seq<i32>, Seq<char>>(e),
            },
        invariant
            v@ == s@,
            n == v@.len(),
            i <= n,
        ensures
            decode_segments(split_commas(s@)) == Ok::<Seq<i32>, Seq<char>>(out@),
        decreases n + 1 - i,
    {
        let mut j = i;
        while j < n && v[j] != ','
            invariant
                i <= j <= n,
                n == v@.len(),
                forall|k: int| i <= k < j ==> v@[k] != ',',
            decreases n - j,
        {
            j = j + 1;
        }
        let ghost suffix = s@.skip(i as int);
        let ghost seg = s@.subrange(i as int, j as int);
        let ghost out0 = out@;
        proof {
            assert(forall|k: int| 0 <= k < j - i ==> suffix[k] != ',');
            lemma_split_at_comma(suffix, j - i);
            assert(suffix.take(j - i) =~= seg);
            if j == n {
                assert(suffix =~= seg);
            } else {
                assert(suffix.skip(j - i + 1) =~= s@.skip(j + 1));
            }
        }
        if j > i {
            match parse_i32_range(&v, i, j) {
                Some(x) => {
                    out.push(x);
                    assert(out@ == out0 + seq![x]);
                },
                None => {
                    proof {
                        if j < n {
                            assert(split_commas(suffix) == seq![seg] + split_commas(
                                s@.skip(j + 1),
                            ));
                            assert(split_commas(suffix)[0] == seg);
                        } else {
                            assert(split_commas(suffix) == seq![suffix]);
                            assert(split_commas(suffix)[0] == seg);
                        }
                        assert(decode_segments(split_commas(suffix)) == Err::<Seq<i32>, Seq<char>>(
                            seg,
                        ));
                    }
                    return Err(
                        DecodeError::InvalidIntegerList(
                            s.to_owned(),
                            s.substring_char(i, j).to_owned(),
                        ),
                    );
                },
            }
        }
        if j == n {
            proof {
                assert(split_commas(suffix) == seq![suffix]);
                assert(split_commas(suffix).drop_first() =~= Seq::<Seq<char>>::empty());
                assert(decode_segments(Seq::<Seq<char>>::empty()) == Ok::<Seq<i32>, Seq<char>>(
                    Seq::empty(),
                ));
                if j > i {
                    assert(suffix.len() > 0);
                    assert(decode_segments(split_commas(suffix)) == Ok::<Seq<i32>, Seq<char>>(
                        seq![out@.last()] + Seq::<i32>::empty(),
                    ));
                    assert(out0 + (seq![out@.last()] + Seq::<i32>::empty()) =~= out@);
                } else {
                    assert(suffix.len() == 0);
                    assert(decode_segments(split_commas(suffix)) == Ok::<Seq<i32>, Seq<char>>(
                        Seq::empty(),
                    ));
                    assert(out0 + Seq::<i32>::empty() =~= out@);
                }
                assert(decode_segments(split_commas(s@)) == Ok::<Seq<i32>, Seq<char>>(out@));
            }
            break;
        }
        proof {
            let tail = s@.skip(j + 1);
            assert(split_commas(suffix) == seq![seg] + split_commas(tail));
            assert(split_commas(suffix)[0] == seg);
            assert(split_commas(suffix).drop_first() =~= split_commas(tail));
            if j > i {
                if decode_segments(split_commas(tail)) is Ok {
                    let t = decode_segments(split_commas(tail))->Ok_0;
                    assert(out0 + (seq![out@.last()] + t) =~= out@ + t);
                }
            }
        }
        i = j + 1;
    }
    Ok(out)
}

} // verus!
