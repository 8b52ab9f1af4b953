//! Text helpers: lexicographic order of strings and sorting by it.
//!
//! Strings compare character by character by code point, which for UTF-8
//! text is the same order as comparing their bytes.

use vstd::prelude::*;
use vstd::multiset::Multiset;
use vstd::string::StrSliceExecFns;
use vstd::string::StringExecFns;

verus! {

/// `a` sorts strictly before `b`: at the first differing character `a` has
/// the smaller code point, or `a` is a proper prefix of `b`.
pub open spec fn lex_lt(a: Seq<char>, b: Seq<char>) -> bool
    decreases a.len(),
{
    if a.len() == 0 {
        b.len() > 0
    } else if b.len() == 0 {
        false
    } else if a[0] != b[0] {
        (a[0] as int) < (b[0] as int)
    } else {
        lex_lt(a.drop_first(), b.drop_first())
    }
}

/// `a` sorts no later than `b`.
pub open spec fn lex_le(a: Seq<char>, b: Seq<char>) -> bool {
    !lex_lt(b, a)
}

/// The strings are in lexicographic order.
pub open spec fn lex_sorted(s: Seq<String>) -> bool {
    forall|i: int, j: int| 0 <= i < j < s.len() ==> lex_le(#[trigger] s[i]@, #[trigger] s[j]@)
}

proof fn lemma_lex_lt_skip(a: Seq<char>, b: Seq<char>, i: int)
    requires
        0 <= i <= a.len(),
        i <= b.len(),
        a.subrange(0, i) == b.subrange(0, i),
    ensures
        lex_lt(a, b) == lex_lt(a.skip(i), b.skip(i)),
    decreases i,
{
    if i > 0 {
        assert(a[0] == a.subrange(0, i)[0]);
        assert(b[0] == b.subrange(0, i)[0]);
        assert(a.drop_first().subrange(0, i - 1) =~= a.subrange(0, i).drop_first());
        assert(b.drop_first().subrange(0, i - 1) =~= b.subrange(0, i).drop_first());
        lemma_lex_lt_skip(a.drop_first(), b.drop_first(), i - 1);
        assert(a.drop_first().skip(i - 1) =~= a.skip(i));
        assert(b.drop_first().skip(i - 1) =~= b.skip(i));
    } else {
        assert(a.skip(0) =~= a);
        assert(b.skip(0) =~= b);
    }
}

/// Whether `a` sorts strictly before `b`.
pub fn str_lt(a: &str, b: &str) -> (r: bool)
    ensures
        r == lex_lt(a@, b@),
{
    let na = a.unicode_len();
    let nb = b.unicode_len();
    let mut i: usize = 0;
    while i < na && i < nb
        invariant
            na == a@.len(),
            nb == b@.len(),
            i <= na,
            i <= nb,
            a@.subrange(0, i as int) == b@.subrange(0, i as int),
        decreases na - i,
    {
        let ca = a.get_char(i);
        let cb = b.get_char(i);
        if ca != cb {
            proof {
                lemma_lex_lt_skip(a@, b@, i as int);
                assert(a@.skip(i as int)[0] == ca);
                assert(b@.skip(i as int)[0] == cb);
            }
            return ca < cb;
        }
        proof {
            assert(a@.subrange(0, i + 1) =~= a@.subrange(0, i as int).push(ca));
            assert(b@.subrange(0, i + 1) =~= b@.subrange(0, i as int).push(cb));
        }
        i = i + 1;
    }
    proof {
        lemma_lex_lt_skip(a@, b@, i as int);
        assert(a@.skip(i as int).len() == 0 || b@.skip(i as int).len() == 0);
    }
    i == na && i < nb
}

/// Index of the first string that no other string sorts before.
fn least_index(v: &Vec<String>) -> (r: usize)
    requires
        v.len() > 0,
    ensures
        r < v.len(),
        forall|j: int| 0 <= j < v.len() ==> lex_le(v@[r as int]@, #[trigger] v@[j]@),
{
    let mut best: usize = 0;
    let mut i: usize = 1;
    proof {
        lemma_lex_irrefl(v@[0]@);
    }
    while i < v.len()
        invariant
            1 <= i <= v.len(),
            best < i,
            forall|j: int| 0 <= j < i ==> lex_le(v@[best as int]@, #[trigger] v@[j]@),
        decreases v.len() - i,
    {
        if str_lt(v[i].as_str(), v[best].as_str()) {
            proof {
                lemma_lex_lt_trans_le(v@[i as int]@, v@[best as int]@, v@);
                lemma_lex_irrefl(v@[i as int]@);
            }
            best = i;
        }
        i = i + 1;
    }
    best
}

/// No string sorts strictly before itself.
pub proof fn lemma_lex_irrefl(a: Seq<char>)
    ensures
        !lex_lt(a, a),
    decreases a.len(),
{
    if a.len() > 0 {
        lemma_lex_irrefl(a.drop_first());
    }
}

/// Two strings never sort strictly before each other.
pub proof fn lemma_lex_asym(a: Seq<char>, b: Seq<char>)
    ensures
        lex_lt(a, b) ==> !lex_lt(b, a),
    decreases a.len(),
{
    if a.len() > 0 && b.len() > 0 && a[0] == b[0] {
        lemma_lex_asym(a.drop_first(), b.drop_first());
    }
}

/// Of two different strings, one sorts strictly before the other.
pub proof fn lemma_lex_total(a: Seq<char>, b: Seq<char>)
    ensures
        a != b ==> lex_lt(a, b) || lex_lt(b, a),
    decreases a.len(),
{
    if a.len() > 0 && b.len() > 0 && a[0] == b[0] {
        lemma_lex_total(a.drop_first(), b.drop_first());
        if a.drop_first() == b.drop_first() {
            assert(a =~= seq![a[0]] + a.drop_first());
            assert(b =~= seq![b[0]] + b.drop_first());
        }
    }
    if a.len() == 0 && b.len() == 0 {
        assert(a =~= b);
    }
}

/// Sorting strictly before is transitive.
pub proof fn lemma_lex_trans(a: Seq<char>, b: Seq<char>, c: Seq<char>)
    ensures
        lex_lt(a, b) && lex_lt(b, c) ==> lex_lt(a, c),
    decreases a.len(),
{
    if a.len() > 0 && b.len() > 0 && c.len() > 0 {
        lemma_lex_trans(a.drop_first(), b.drop_first(), c.drop_first());
    }
}

/// Sorting no later than is transitive.
pub proof fn lemma_lex_le_trans(a: Seq<char>, b: Seq<char>, c: Seq<char>)
    ensures
        lex_le(a, b) && lex_le(b, c) ==> lex_le(a, c),
{
    lemma_lex_total(a, b);
    lemma_lex_trans(c, a, b);
    lemma_lex_trans(c, b, a);
}

proof fn lemma_lex_lt_trans_le(x: Seq<char>, y: Seq<char>, v: Seq<String>)
    requires
        lex_lt(x, y),
    ensures
        forall|j: int| 0 <= j < v.len() && lex_le(y, #[trigger] v[j]@) ==> lex_le(x, v[j]@),
{
    assert forall|j: int| 0 <= j < v.len() && lex_le(y, #[trigger] v[j]@) implies lex_le(x, v[j]@) by {
        lemma_lex_asym(x, y);
        lemma_lex_le_trans(x, y, v[j]@);
    }
}

/// Sorts strings lexicographically (equal strings keep their order).
pub fn sort_strings(v: Vec<String>) -> (out: Vec<String>)
    ensures
        out@.to_multiset() == v@.to_multiset(),
        lex_sorted(out@),
{
    broadcast use vstd::seq_lib::group_to_multiset_ensures;

    let ghost all = v@;
    let mut rest = v;
    let mut out: Vec<String> = Vec::new();
    while rest.len() > 0
        invariant
            out@.to_multiset().add(rest@.to_multiset()) == all.to_multiset(),
            lex_sorted(out@),
            forall|a: int, b: int| 0 <= a < out@.len() && 0 <= b < rest@.len() ==> lex_le(out@[a]@, rest@[b]@),
        decreases rest@.len(),
    {
        let j = least_index(&rest);
        let ghost before = rest@;
        let x = rest.remove(j);
        proof {
            vstd::seq_lib::to_multiset_remove(before, j as int);
            assert(before[j as int] == x);
            assert(before.contains(x));
            before.to_multiset_ensures();
            assert forall|b: int| 0 <= b < rest@.len() implies lex_le(x@, rest@[b]@) by {
                let b2 = if b < j { b } else { b + 1 };
                assert(rest@[b] == before[b2]);
            }
        }
        let ghost out_before = out@;
        out.push(x);
        proof {
            vstd::seq_lib::to_multiset_build(out_before, x);
            assert(out@.to_multiset().add(rest@.to_multiset()) =~= all.to_multiset());
            assert forall|a: int, b: int| 0 <= a < out@.len() && 0 <= b < rest@.len() implies lex_le(out@[a]@, rest@[b]@) by {
                let b2 = if b < j { b } else { b + 1 };
                assert(rest@[b] == before[b2]);
            }
            assert forall|a: int, b: int| 0 <= a < b < out@.len() implies lex_le(#[trigger] out@[a]@, #[trigger] out@[b]@) by {
                if b == out@.len() - 1 {
                    assert(before[j as int] == out@[b]);
                }
            }
        }
    }
    proof {
        assert(rest@.to_multiset() =~= Multiset::empty());
        assert(out@.to_multiset().add(Multiset::empty()) =~= out@.to_multiset());
    }
    out
}


/// The character of a decimal digit.
pub open spec fn digit_char(d: int) -> char {
    (48 + d) as char
}

/// The decimal digits of `n`, most significant first, without leading zeros.
pub open spec fn dec(n: nat) -> Seq<char>
    decreases n,
{
    if n < 10 {
        seq![digit_char(n as int)]
    } else {
        dec(n / 10).push(digit_char((n % 10) as int))
    }
}

fn digit_text(d: u8) -> (r: &'static str)
    requires
        d < 10,
    ensures
        r@ == seq![digit_char(d as int)],
{
    proof {
        reveal_strlit("0");
        reveal_strlit("1");
        reveal_strlit("2");
        reveal_strlit("3");
        reveal_strlit("4");
        reveal_strlit("5");
        reveal_strlit("6");
        reveal_strlit("7");
        reveal_strlit("8");
        reveal_strlit("9");
    }
    match d {
        0 => "0",
        1 => "1",
        2 => "2",
        3 => "3",
        4 => "4",
        5 => "5",
        6 => "6",
        7 => "7",
        8 => "8",
        _ => "9",
    }
}

/// Appends the decimal form of `n`.
pub fn push_decimal(out: &mut String, n: u64)
    ensures
        final(out)@ == old(out)@ + dec(n as nat),
    decreases n,
{
    if n >= 10 {
        push_decimal(out, n / 10);
    }
    let d = (n % 10) as u8;
    out.append(digit_text(d));
}

/// The decimal form of `n`.
pub fn decimal(n: u64) -> (r: String)
    ensures
        r@ == dec(n as nat),
{
    let mut s = String::new();
    push_decimal(&mut s, n);
    s
}

/// How many bytes `c` takes in UTF-8.
pub open spec fn utf8_len(c: char) -> nat {
    if (c as u32) < 0x80 {
        1
    } else if (c as u32) < 0x800 {
        2
    } else if (c as u32) < 0x10000 {
        3
    } else {
        4
    }
}

/// How many bytes `s` takes in UTF-8.
pub open spec fn utf8_bytes(s: Seq<char>) -> nat
    decreases s.len(),
{
    if s.len() == 0 {
        0
    } else {
        utf8_bytes(s.drop_last()) + utf8_len(s.last())
    }
}

/// The most bytes of input a parse error echoes.
pub open spec fn snippet_limit() -> nat {
    200
}

/// Where the echo of a long input stops: after the last whole character
/// within the first `snippet_limit()` bytes.
pub open spec fn snippet_cut(s: Seq<char>) -> int {
    choose|k: int|
        #![trigger s.take(k)]
        0 <= k < s.len() && utf8_bytes(s.take(k)) <= snippet_limit() && utf8_bytes(s.take(k + 1))
            > snippet_limit()
}

/// The input as a parse error echoes it: whole when it takes at most
/// `snippet_limit()` bytes, otherwise cut at a character boundary within that
/// many bytes and followed by `...`.
pub open spec fn input_snippet(s: Seq<char>) -> Seq<char> {
    if utf8_bytes(s) <= snippet_limit() {
        s
    } else {
        s.take(snippet_cut(s)) + "..."@
    }
}

proof fn lemma_utf8_take_step(s: Seq<char>, k: int)
    requires
        0 <= k < s.len(),
    ensures
        utf8_bytes(s.take(k + 1)) == utf8_bytes(s.take(k)) + utf8_len(s[k]),
{
    assert(s.take(k + 1).drop_last() =~= s.take(k));
}

proof fn lemma_utf8_take_mono(s: Seq<char>, j: int, k: int)
    requires
        0 <= j < k <= s.len(),
    ensures
        utf8_bytes(s.take(j)) < utf8_bytes(s.take(k)),
    decreases k - j,
{
    lemma_utf8_take_step(s, k - 1);
    if j < k - 1 {
        lemma_utf8_take_mono(s, j, k - 1);
    }
}

fn utf8_width(c: char) -> (r: usize)
    ensures
        r == utf8_len(c),
{
    let u = c as u32;
    if u < 0x80 {
        1
    } else if u < 0x800 {
        2
    } else if u < 0x10000 {
        3
    } else {
        4
    }
}

/// The input as a parse error echoes it.
pub fn snippet(text: &str) -> (r: String)
    ensures
        r@ == input_snippet(text@),
{
    let n = text.unicode_len();
    let ghost s = text@;
    let mut i: usize = 0;
    let mut used: usize = 0;
    proof {
        assert(s.take(0) =~= Seq::<char>::empty());
    }
    while i < n
        invariant
            s == text@,
            n == s.len(),
            i <= n,
            used == utf8_bytes(s.take(i as int)),
            used <= 200,
        ensures
            i <= n,
            used == utf8_bytes(s.take(i as int)),
            used <= 200,
            i < n ==> utf8_bytes(s.take(i + 1)) > 200,
        decreases n - i,
    {
        let w = utf8_width(text.get_char(i));
        proof {
            lemma_utf8_take_step(s, i as int);
        }
        if used + w > 200 {
            break;
        }
        used = used + w;
        i = i + 1;
    }
    if i == n {
        proof {
            assert(s.take(n as int) =~= s);
        }
        String::from_str(text)
    } else {
        proof {
            assert(s.take(n as int) =~= s);
            assert(utf8_bytes(s) > 200) by {
                if i + 1 < n {
                    lemma_utf8_take_mono(s, i + 1, n as int);
                }
            }
            let k = snippet_cut(s);
            assert(0 <= i < s.len() && utf8_bytes(s.take(i as int)) <= snippet_limit() && utf8_bytes(
                s.take(i + 1),
            ) > snippet_limit());
            if k + 1 < i {
                lemma_utf8_take_mono(s, k + 1, i as int);
            }
            if k > i {
                if i + 1 < k {
                    lemma_utf8_take_mono(s, i + 1, k);
                }
            }
            assert(k == i);
        }
        let mut r = String::from_str(text.substring_char(0, i));
        r.append("...");
        proof {
            reveal_strlit("...");
        }
        r
    }
}

} // verus!
