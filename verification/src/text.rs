//! Text the client composes itself: decimal renderings of numeric ids,
//! the comma-joined id list of a batch lookup, and the host rewrite that
//! turns a listing `uri` into the lookup endpoint's host.

use vstd::prelude::*;
use vstd::string::StrSliceExecFns;
use vstd::string::StringExecFns;

verus! {

/// The character for one decimal digit.
pub open spec fn digit_char(d: nat) -> char {
    if d == 0 { '0' }
    else if d == 1 { '1' }
    else if d == 2 { '2' }
    else if d == 3 { '3' }
    else if d == 4 { '4' }
    else if d == 5 { '5' }
    else if d == 6 { '6' }
    else if d == 7 { '7' }
    else if d == 8 { '8' }
    else { '9' }
}

/// The decimal digits of `n`, most significant first.
pub open spec fn dec_digits(n: nat) -> Seq<char>
    decreases n,
{
    if n < 10 {
        seq![digit_char(n)]
    } else {
        dec_digits(n / 10).push(digit_char(n % 10))
    }
}

/// The decimal rendering of a signed number: a minus sign, then the digits.
pub open spec fn int_dec(i: int) -> Seq<char> {
    if i < 0 {
        seq!['-'] + dec_digits((-i) as nat)
    } else {
        dec_digits(i as nat)
    }
}

/// The comma-separated decimal renderings of a sequence of ids.
pub open spec fn join_ids(ids: Seq<u64>) -> Seq<char>
    decreases ids.len(),
{
    if ids.len() == 0 {
        Seq::<char>::empty()
    } else if ids.len() == 1 {
        dec_digits(ids[0] as nat)
    } else {
        join_ids(ids.drop_last()) + seq![','] + dec_digits(ids.last() as nat)
    }
}

/// `s` with every occurrence of `pat` replaced by `rep`, scanning left to
/// right without overlap.
pub open spec fn replace_all(s: Seq<char>, pat: Seq<char>, rep: Seq<char>) -> Seq<char>
    decreases s.len(),
    when pat.len() > 0
{
    if s.len() == 0 {
        Seq::<char>::empty()
    } else if pat.is_prefix_of(s) {
        rep + replace_all(s.skip(pat.len() as int), pat, rep)
    } else {
        seq![s[0]] + replace_all(s.skip(1), pat, rep)
    }
}

/// The concatenation of two pieces of text.
pub fn str_concat(a: &str, b: &str) -> (r: String)
    ensures
        r@ == a@ + b@,
{
    let mut s = a.to_owned();
    s.append(b);
    s
}

/// The one-character text of a decimal digit.
fn digit_str(d: u64) -> (s: &'static str)
    requires
        d < 10,
    ensures
        s@ =~= seq![digit_char(d as nat)],
{
    proof {
        reveal_strlit("0");
        reveal_strlit("1");
        reveal_strlit("2");
        reveal_strlit("3");
        reveal_strlit("4");
        reveal_strlit("5");
        reveal_strlit("6");
        reveal_strlit("7");
        reveal_strlit("8");
        reveal_strlit("9");
    }
    match d {
        0 => "0",
        1 => "1",
        2 => "2",
        3 => "3",
        4 => "4",
        5 => "5",
        6 => "6",
        7 => "7",
        8 => "8",
        _ => "9",
    }
}

/// The decimal rendering of an unsigned id.
pub fn u64_to_dec_string(n: u64) -> (s: String)
    ensures
        s@ =~= dec_digits(n as nat),
    decreases n,
{
    if n < 10 {
        digit_str(n).to_owned()
    } else {
        let mut s = u64_to_dec_string(n / 10);
        s.append(digit_str(n % 10));
        proof {
            assert(s@ =~= dec_digits((n / 10) as nat).push(digit_char((n % 10) as nat)));
        }
        s
    }
}

/// The decimal rendering of a signed id.
pub fn i64_to_dec_string(n: i64) -> (s: String)
    ensures
        s@ =~= int_dec(n as int),
{
    if n >= 0 {
        u64_to_dec_string(n as u64)
    } else {
        let m: u64 = (-(n as i128)) as u64;
        proof {
            reveal_strlit("-");
        }
        let mut s = "-".to_owned();
        let digits = u64_to_dec_string(m);
        s.append(digits.as_str());
        proof {
            assert(s@ =~= seq!['-'] + dec_digits((-(n as int)) as nat));
        }
        s
    }
}

/// The comma-joined decimal ids of a batch lookup's `ids` parameter.
pub fn join_ids_string(ids: &Vec<u64>) -> (s: String)
    ensures
        s@ =~= join_ids(ids@),
{
    let mut s = String::new();
    let n = ids.len();
    let mut i: usize = 0;
    while i < n
        invariant
            i <= n,
            n == ids@.len(),
            s@ =~= join_ids(ids@.take(i as int)),
        decreases n - i,
    {
        if i > 0 {
            proof {
                reveal_strlit(",");
            }
            s.append(",");
        }
        let digits = u64_to_dec_string(ids[i]);
        s.append(digits.as_str());
        proof {
            let pre = ids@.take(i as int);
            let cur = ids@.take(i + 1 as int);
            assert(cur.drop_last() =~= pre);
            assert(cur.last() == ids@[i as int]);
            if i == 0 {
                assert(s@ =~= join_ids(cur));
            } else {
                assert(s@ =~= join_ids(pre) + seq![','] + dec_digits(ids@[i as int] as nat));
            }
        }
        i = i + 1;
    }
    proof {
        assert(ids@.take(n as int) =~= ids@);
    }
    s
}

/// Whether `pat` occurs in `s` starting at character `i`.
fn matches_at(s: &str, s_len: usize, i: usize, pat: &str, pat_len: usize) -> (r: bool)
    requires
        s_len == s@.len(),
        pat_len == pat@.len(),
        i < s_len,
    ensures
        r == pat@.is_prefix_of(s@.skip(i as int)),
{
    if pat_len > s_len - i {
        proof {
            assert(!pat@.is_prefix_of(s@.skip(i as int)));
        }
        return false;
    }
    let mut j: usize = 0;
    while j < pat_len
        invariant
            j <= pat_len,
            i < s_len <= usize::MAX,
            pat_len <= s_len - i,
            s_len == s@.len(),
            pat_len == pat@.len(),
            forall|k: int| 0 <= k < j ==> s@[i + k] == pat@[k],
        decreases pat_len - j,
    {
        if s.get_char(i + j) != pat.get_char(j) {
            proof {
                assert(s@.skip(i as int)[j as int] == s@[i + j]);
                assert(!pat@.is_prefix_of(s@.skip(i as int)));
            }
            return false;
        }
        j = j + 1;
    }
    proof {
        assert forall|k: int| 0 <= k < pat_len implies s@.skip(i as int)[k] == pat@[k] by {
            assert(s@.skip(i as int)[k] == s@[i + k]);
        }
        assert(pat@ =~= s@.skip(i as int).subrange(0, pat_len as int));
    }
    true
}

/// `s` with every occurrence of `pat` replaced by `rep`.
pub fn replace_all_str(s: &str, pat: &str, rep: &str) -> (r: String)
    requires
        pat@.len() >= 1,
    ensures
        r@ =~= replace_all(s@, pat@, rep@),
{
    let n = s.unicode_len();
    let p = pat.unicode_len();
    let mut out = String::new();
    let mut i: usize = 0;
    proof {
        assert(s@.skip(0) =~= s@);
    }
    while i < n
        invariant
            i <= n,
            n == s@.len(),
            p == pat@.len(),
            p >= 1,
            out@ + replace_all(s@.skip(i as int), pat@, rep@) =~= replace_all(s@, pat@, rep@),
        decreases n - i,
    {
        let ghost rest = s@.skip(i as int);
        if matches_at(s, n, i, pat, p) {
            out.append(rep);
            proof {
                assert(rest.len() > 0);
                assert(replace_all(rest, pat@, rep@) == rep@ + replace_all(
                    rest.skip(p as int),
                    pat@,
                    rep@,
                ));
                assert(rest.skip(p as int) =~= s@.skip(i + p as int));
            }
            i = i + p;
        } else {
            let c = s.substring_char(i, i + 1);
            out.append(c);
            proof {
                assert(rest.len() > 0);
                assert(!pat@.is_prefix_of(rest));
                assert(replace_all(rest, pat@, rep@) == seq![rest[0]] + replace_all(
                    rest.skip(1),
                    pat@,
                    rep@,
                ));
                assert(c@ =~= seq![rest[0]]);
                assert(rest.skip(1) =~= s@.skip(i + 1 as int));
            }
            i = i + 1;
        }
    }
    proof {
        assert(s@.skip(n as int) =~= Seq::<char>::empty());
        assert(replace_all(Seq::<char>::empty(), pat@, rep@) == Seq::<char>::empty());
        assert(out@ =~= out@ + Seq::<char>::empty());
    }
    out
}

} // verus!
