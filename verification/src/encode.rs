//! The line format of the output file: one JSON object per snapshot,
//! `{"t":"<instant>","items":[{"id":N,"s":N,"c":N},...]}`, built here byte
//! by byte against an exact specification of the rendering.

use vstd::prelude::*;
use crate::date::{digit, instant_bytes};
use crate::model::{HNTopStoriesSnap, HNTopStorySnap};

verus! {

/// `n` in decimal, no padding, no sign; meaningful for `0 <= n`.
pub open spec fn dec_digits(n: int) -> Seq<u8>
    recommends
        0 <= n,
    decreases n,
{
    if n < 10 {
        seq![digit(n)]
    } else {
        dec_digits(n / 10).push(digit(n))
    }
}

/// `{"id":N,"s":N,"c":N}` for one story.
pub open spec fn item_json(it: HNTopStorySnap) -> Seq<u8> {
    seq![123u8, 34u8, 105u8, 100u8, 34u8, 58u8] + dec_digits(it.id as int) + seq![
        44u8,
        34u8,
        115u8,
        34u8,
        58u8,
    ] + dec_digits(it.score as int) + seq![44u8, 34u8, 99u8, 34u8, 58u8] + dec_digits(
        it.comments as int,
    ) + seq![125u8]
}

/// The stories joined with commas, in order.
pub open spec fn items_json(items: Seq<HNTopStorySnap>) -> Seq<u8>
    decreases items.len(),
{
    if items.len() == 0 {
        seq![]
    } else if items.len() == 1 {
        item_json(items[0])
    } else {
        items_json(items.drop_last()) + seq![44u8] + item_json(items.last())
    }
}

/// The whole line (without the trailing newline):
/// `{"t":"YYYY-MM-DDTHH:MM:SSZ","items":[...]}`.
pub open spec fn snapshot_json(s: HNTopStoriesSnap) -> Seq<u8> {
    seq![123u8, 34u8, 116u8, 34u8, 58u8, 34u8] + instant_bytes(s.t) + seq![
        34u8,
        44u8,
        34u8,
        105u8,
        116u8,
        101u8,
        109u8,
        115u8,
        34u8,
        58u8,
        91u8,
    ] + items_json(s.items@) + seq![93u8, 125u8]
}

/// An ASCII decimal digit.
pub open spec fn is_digit(b: u8) -> bool {
    48 <= b <= 57
}

/// Every byte of `s` is a digit.
pub open spec fn all_digits(s: Seq<u8>) -> bool {
    forall|i: int| 0 <= i < s.len() ==> is_digit(s[i])
}

proof fn lemma_dec_digits_shape(n: int)
    requires
        0 <= n,
    ensures
        all_digits(dec_digits(n)),
        dec_digits(n).len() >= 1,
        n >= 10 ==> dec_digits(n).len() >= 2,
    decreases n,
{
    if n >= 10 {
        lemma_dec_digits_shape(n / 10);
    }
}

/// Splitting an all-digit run at the first non-digit byte is unambiguous:
/// equal concatenations with digit heads and non-digit-led tails split
/// equally.
proof fn lemma_digit_run_framing(d1: Seq<u8>, r1: Seq<u8>, d2: Seq<u8>, r2: Seq<u8>)
    requires
        all_digits(d1),
        all_digits(d2),
        r1.len() > 0,
        r2.len() > 0,
        !is_digit(r1[0]),
        !is_digit(r2[0]),
        d1 + r1 == d2 + r2,
    ensures
        d1 == d2,
        r1 == r2,
{
    if d1.len() < d2.len() {
        assert((d1 + r1)[d1.len() as int] == r1[0]);
        assert((d2 + r2)[d1.len() as int] == d2[d1.len() as int]);
        assert(false);
    } else if d2.len() < d1.len() {
        assert((d2 + r2)[d2.len() as int] == r2[0]);
        assert((d1 + r1)[d2.len() as int] == d1[d2.len() as int]);
        assert(false);
    } else {
        assert(d1 =~= (d1 + r1).subrange(0, d1.len() as int));
        assert(d2 =~= (d2 + r2).subrange(0, d2.len() as int));
        assert(r1 =~= (d1 + r1).subrange(d1.len() as int, (d1 + r1).len() as int));
        assert(r2 =~= (d2 + r2).subrange(d2.len() as int, (d2 + r2).len() as int));
    }
}

proof fn lemma_dec_digits_injective(a: int, b: int)
    requires
        0 <= a,
        0 <= b,
        dec_digits(a) == dec_digits(b),
    ensures
        a == b,
    decreases a,
{
    lemma_dec_digits_shape(a);
    lemma_dec_digits_shape(b);
    if a < 10 && b < 10 {
        assert(dec_digits(a) == seq![digit(a)]);
        assert(dec_digits(b) == seq![digit(b)]);
        assert(seq![digit(a)][0] == digit(a));
        assert(seq![digit(b)][0] == digit(b));
        assert(digit(a) == digit(b));
        assert(0 <= a % 10 < 10);
        assert(0 <= b % 10 < 10);
        assert(a % 10 == b % 10);
    } else if a >= 10 && b >= 10 {
        assert(dec_digits(a) == dec_digits(a / 10).push(digit(a)));
        assert(dec_digits(b) == dec_digits(b / 10).push(digit(b)));
        let k = dec_digits(a / 10).len() as int;
        assert(dec_digits(a / 10).len() == dec_digits(b / 10).len());
        assert(dec_digits(a / 10).push(digit(a))[k] == digit(a));
        assert(dec_digits(b / 10).push(digit(b))[k] == digit(b));
        assert(digit(a) == digit(b));
        assert(0 <= a % 10 < 10);
        assert(0 <= b % 10 < 10);
        assert(a % 10 == b % 10);
        assert(dec_digits(a).drop_last() =~= dec_digits(a / 10));
        assert(dec_digits(b).drop_last() =~= dec_digits(b / 10));
        assert(a / 10 < a) by (nonlinear_arith)
            requires
                a >= 10,
        ;
        lemma_dec_digits_injective(a / 10, b / 10);
        vstd::arithmetic::div_mod::lemma_fundamental_div_mod(a, 10);
        vstd::arithmetic::div_mod::lemma_fundamental_div_mod(b, 10);
    } else {
        // one has a single digit, the other at least two: lengths differ
        assert(false);
    }
}

#[verifier::rlimit(100)]
proof fn lemma_item_json_injective(x1: HNTopStorySnap, x2: HNTopStorySnap)
    requires
        item_json(x1) == item_json(x2),
    ensures
        x1 == x2,
{
    let a1 = dec_digits(x1.id as int);
    let a2 = dec_digits(x2.id as int);
    let b1 = dec_digits(x1.score as int);
    let b2 = dec_digits(x2.score as int);
    let c1 = dec_digits(x1.comments as int);
    let c2 = dec_digits(x2.comments as int);
    lemma_dec_digits_shape(x1.id as int);
    lemma_dec_digits_shape(x2.id as int);
    lemma_dec_digits_shape(x1.score as int);
    lemma_dec_digits_shape(x2.score as int);
    lemma_dec_digits_shape(x1.comments as int);
    lemma_dec_digits_shape(x2.comments as int);
    let l2 = seq![44u8, 34u8, 115u8, 34u8, 58u8];
    let l3 = seq![44u8, 34u8, 99u8, 34u8, 58u8];
    let l4 = seq![125u8];
    let r1 = l2 + (b1 + (l3 + (c1 + l4)));
    let r2 = l2 + (b2 + (l3 + (c2 + l4)));
    let s1 = item_json(x1);
    let s2 = item_json(x2);
    assert(s1 =~= seq![123u8, 34u8, 105u8, 100u8, 34u8, 58u8] + (a1 + r1));
    assert(s2 =~= seq![123u8, 34u8, 105u8, 100u8, 34u8, 58u8] + (a2 + r2));
    assert(a1 + r1 =~= s1.subrange(6, s1.len() as int));
    assert(a2 + r2 =~= s2.subrange(6, s2.len() as int));
    assert(r1[0] == 44);
    assert(r2[0] == 44);
    lemma_digit_run_framing(a1, r1, a2, r2);
    lemma_dec_digits_injective(x1.id as int, x2.id as int);
    let u1 = b1 + (l3 + (c1 + l4));
    let u2 = b2 + (l3 + (c2 + l4));
    assert(u1 =~= r1.subrange(5, r1.len() as int));
    assert(u2 =~= r2.subrange(5, r2.len() as int));
    assert((l3 + (c1 + l4))[0] == 44);
    assert((l3 + (c2 + l4))[0] == 44);
    lemma_digit_run_framing(b1, l3 + (c1 + l4), b2, l3 + (c2 + l4));
    lemma_dec_digits_injective(x1.score as int, x2.score as int);
    let w1 = c1 + l4;
    let w2 = c2 + l4;
    assert(w1 =~= (l3 + (c1 + l4)).subrange(5, (l3 + (c1 + l4)).len() as int));
    assert(w2 =~= (l3 + (c2 + l4)).subrange(5, (l3 + (c2 + l4)).len() as int));
    assert(w1[c1.len() as int] == 125);
    assert((c1 + l4)[c1.len() as int] == 125);
    assert((c2 + l4)[c2.len() as int] == 125);
    lemma_digit_run_framing(c1, l4, c2, l4);
    lemma_dec_digits_injective(x1.comments as int, x2.comments as int);
}

/// How many opening braces `s` holds; each item contributes exactly one,
/// so the brace count of a rendered list is its length.
spec fn brace_count(s: Seq<u8>) -> nat
    decreases s.len(),
{
    if s.len() == 0 {
        0
    } else {
        brace_count(s.drop_last()) + if s.last() == 123 {
            1nat
        } else {
            0nat
        }
    }
}

proof fn lemma_brace_count_concat(s1: Seq<u8>, s2: Seq<u8>)
    ensures
        brace_count(s1 + s2) == brace_count(s1) + brace_count(s2),
    decreases s2.len(),
{
    if s2.len() == 0 {
        assert(s1 + s2 =~= s1);
    } else {
        assert((s1 + s2).drop_last() =~= s1 + s2.drop_last());
        assert((s1 + s2).last() == s2.last());
        lemma_brace_count_concat(s1, s2.drop_last());
    }
}

proof fn lemma_no_brace_count_zero(s: Seq<u8>)
    requires
        forall|i: int| 0 <= i < s.len() ==> s[i] != 123,
    ensures
        brace_count(s) == 0,
    decreases s.len(),
{
    if s.len() > 0 {
        lemma_no_brace_count_zero(s.drop_last());
    }
}

proof fn lemma_count_zero_no_brace(s: Seq<u8>)
    requires
        brace_count(s) == 0,
    ensures
        forall|i: int| 0 <= i < s.len() ==> s[i] != 123,
    decreases s.len(),
{
    if s.len() > 0 {
        lemma_count_zero_no_brace(s.drop_last());
        assert(forall|i: int|
            0 <= i < s.len() - 1 ==> s[i] == s.drop_last()[i] && s.drop_last()[i] != 123);
    }
}

/// The one opening brace of a rendered item is its first byte.
spec fn brace_only_at_start(s: Seq<u8>) -> bool {
    &&& s.len() > 0
    &&& s[0] == 123
    &&& forall|i: int| 1 <= i < s.len() ==> s[i] != 123
}

proof fn lemma_all_digits_count_zero(s: Seq<u8>)
    requires
        all_digits(s),
    ensures
        brace_count(s) == 0,
{
    assert(forall|i: int| 0 <= i < s.len() ==> s[i] != 123);
    lemma_no_brace_count_zero(s);
}

proof fn lemma_brace_count_singleton(b: u8)
    ensures
        brace_count(seq![b]) == if b == 123 {
            1nat
        } else {
            0nat
        },
{
    assert(seq![b].drop_last() =~= Seq::<u8>::empty());
    assert(brace_count(Seq::<u8>::empty()) == 0);
    assert(seq![b].last() == b);
}

proof fn lemma_item_json_brace_shape(x: HNTopStorySnap)
    ensures
        brace_only_at_start(item_json(x)),
        brace_count(item_json(x)) == 1,
{
    let a = dec_digits(x.id as int);
    let b = dec_digits(x.score as int);
    let c = dec_digits(x.comments as int);
    lemma_dec_digits_shape(x.id as int);
    lemma_dec_digits_shape(x.score as int);
    lemma_dec_digits_shape(x.comments as int);
    let l1 = seq![123u8, 34u8, 105u8, 100u8, 34u8, 58u8];
    let l2 = seq![44u8, 34u8, 115u8, 34u8, 58u8];
    let l3 = seq![44u8, 34u8, 99u8, 34u8, 58u8];
    let l4 = seq![125u8];
    let s = item_json(x);
    assert(brace_count(l1) == 1) by {
        assert(l1 =~= seq![123u8] + seq![34u8, 105u8, 100u8, 34u8, 58u8]);
        lemma_brace_count_singleton(123u8);
        assert(brace_count(seq![123u8]) == 1);
        assert(forall|i: int|
            0 <= i < 5 ==> seq![34u8, 105u8, 100u8, 34u8, 58u8][i] != 123);
        lemma_no_brace_count_zero(seq![34u8, 105u8, 100u8, 34u8, 58u8]);
        lemma_brace_count_concat(seq![123u8], seq![34u8, 105u8, 100u8, 34u8, 58u8]);
    }
    assert(brace_count(l2) == 0) by {
        assert(forall|i: int| 0 <= i < 5 ==> l2[i] != 123);
        lemma_no_brace_count_zero(l2);
    }
    assert(brace_count(l3) == 0) by {
        assert(forall|i: int| 0 <= i < 5 ==> l3[i] != 123);
        lemma_no_brace_count_zero(l3);
    }
    assert(brace_count(l4) == 0) by {
        assert(forall|i: int| 0 <= i < 1 ==> l4[i] != 123);
        lemma_no_brace_count_zero(l4);
    }
    lemma_all_digits_count_zero(a);
    lemma_all_digits_count_zero(b);
    lemma_all_digits_count_zero(c);
    assert(brace_count(s) == 1) by {
        lemma_brace_count_concat(l1, a);
        lemma_brace_count_concat(l1 + a, l2);
        lemma_brace_count_concat(l1 + a + l2, b);
        lemma_brace_count_concat(l1 + a + l2 + b, l3);
        lemma_brace_count_concat(l1 + a + l2 + b + l3, c);
        lemma_brace_count_concat(l1 + a + l2 + b + l3 + c, l4);
    }
    assert(s[0] == 123);
    let rest = s.subrange(1, s.len() as int);
    assert(s =~= seq![s[0]] + rest);
    assert(brace_count(seq![s[0]]) == 1) by {
        lemma_brace_count_singleton(s[0]);
    }
    lemma_brace_count_concat(seq![s[0]], rest);
    lemma_count_zero_no_brace(rest);
    assert(forall|i: int| 1 <= i < s.len() ==> s[i] == rest[i - 1] && rest[i - 1] != 123);
}

proof fn lemma_items_json_brace_count(l: Seq<HNTopStorySnap>)
    ensures
        brace_count(items_json(l)) == l.len(),
    decreases l.len(),
{
    if l.len() == 0 {
    } else if l.len() == 1 {
        lemma_item_json_brace_shape(l[0]);
    } else {
        lemma_items_json_brace_count(l.drop_last());
        lemma_item_json_brace_shape(l.last());
        assert(brace_count(seq![44u8]) == 0) by {
            lemma_brace_count_singleton(44u8);
        }
        lemma_brace_count_concat(items_json(l.drop_last()), seq![44u8]);
        lemma_brace_count_concat(items_json(l.drop_last()) + seq![44u8], item_json(l.last()));
    }
}

proof fn lemma_item_run_split(p1: Seq<u8>, i1: Seq<u8>, p2: Seq<u8>, i2: Seq<u8>)
    requires
        brace_only_at_start(i1),
        brace_only_at_start(i2),
        p1 + seq![44u8] + i1 == p2 + seq![44u8] + i2,
    ensures
        p1 == p2,
        i1 == i2,
{
    let s = p1 + seq![44u8] + i1;
    if p1.len() < p2.len() {
        let j = p2.len() as int + 1;
        let t2 = p2 + seq![44u8] + i2;
        assert(s.len() == t2.len());
        assert(j < s.len());
        assert(t2[j] == i2[0]);
        assert(1 <= j - p1.len() - 1 < i1.len());
        assert(s[j] == i1[j - p1.len() - 1]);
        assert(false);
    } else if p2.len() < p1.len() {
        let j = p1.len() as int + 1;
        let t2 = p2 + seq![44u8] + i2;
        assert(s.len() == t2.len());
        assert(j < t2.len());
        assert(s[j] == i1[0]);
        assert(1 <= j - p2.len() - 1 < i2.len());
        assert(t2[j] == i2[j - p2.len() - 1]);
        assert(false);
    } else {
        assert(p1 =~= s.subrange(0, p1.len() as int));
        assert(p2 =~= (p2 + seq![44u8] + i2).subrange(0, p2.len() as int));
        assert(i1 =~= s.subrange(p1.len() as int + 1, s.len() as int));
        assert(i2 =~= (p2 + seq![44u8] + i2).subrange(
            p2.len() as int + 1,
            (p2 + seq![44u8] + i2).len() as int,
        ));
    }
}

proof fn lemma_items_json_injective(aa: Seq<HNTopStorySnap>, bb: Seq<HNTopStorySnap>)
    requires
        items_json(aa) == items_json(bb),
    ensures
        aa == bb,
    decreases aa.len(),
{
    lemma_items_json_brace_count(aa);
    lemma_items_json_brace_count(bb);
    assert(aa.len() == bb.len());
    if aa.len() == 0 {
        assert(aa =~= bb);
    } else if aa.len() == 1 {
        lemma_item_json_injective(aa[0], bb[0]);
        assert(aa =~= bb);
    } else {
        lemma_item_json_brace_shape(aa.last());
        lemma_item_json_brace_shape(bb.last());
        lemma_item_run_split(
            items_json(aa.drop_last()),
            item_json(aa.last()),
            items_json(bb.drop_last()),
            item_json(bb.last()),
        );
        lemma_items_json_injective(aa.drop_last(), bb.drop_last());
        lemma_item_json_injective(aa.last(), bb.last());
        assert(forall|i: int|
            0 <= i < aa.len() - 1 ==> aa[i] == aa.drop_last()[i] && bb[i] == bb.drop_last()[i]);
        assert(aa =~= bb);
    }
}

/// The serialized line determines the snapshot: two well-formed snapshots
/// with the same rendering have the same capture time and the same items.
/// Encoding loses nothing, so any correct reading of a recorded line
/// recovers the data model exactly (the format's field renaming aside).
pub proof fn lemma_snapshot_json_injective(s1: HNTopStoriesSnap, s2: HNTopStoriesSnap)
    requires
        s1.wf(),
        s2.wf(),
        snapshot_json(s1) == snapshot_json(s2),
    ensures
        s1.t == s2.t,
        s1.items@ == s2.items@,
{
    let j1 = snapshot_json(s1);
    let j2 = snapshot_json(s2);
    assert(instant_bytes(s1.t) =~= j1.subrange(6, 26));
    assert(instant_bytes(s2.t) =~= j2.subrange(6, 26));
    crate::date::lemma_instant_bytes_injective(s1.t, s2.t);
    assert(items_json(s1.items@) =~= j1.subrange(37, j1.len() - 2));
    assert(items_json(s2.items@) =~= j2.subrange(37, j2.len() - 2));
    lemma_items_json_injective(s1.items@, s2.items@);
}

/// Appends `n` in decimal.
pub fn push_u32_dec(out: &mut Vec<u8>, n: u32)
    ensures
        final(out)@ == old(out)@ + dec_digits(n as int),
    decreases n,
{
    if n < 10 {
        out.push(48 + n as u8);
        proof {
            assert(final(out)@ =~= old(out)@ + dec_digits(n as int));
        }
    } else {
        assert(n / 10 < n) by (nonlinear_arith)
            requires
                n >= 10,
        ;
        push_u32_dec(out, n / 10);
        out.push(48 + (n % 10) as u8);
        proof {
            assert(final(out)@ =~= old(out)@ + dec_digits(n as int));
        }
    }
}

/// Appends `{"id":N,"s":N,"c":N}` for one story.
fn push_item_json(out: &mut Vec<u8>, it: &HNTopStorySnap)
    ensures
        final(out)@ == old(out)@ + item_json(*it),
{
    out.push(123);
    out.push(34);
    out.push(105);
    out.push(100);
    out.push(34);
    out.push(58);
    push_u32_dec(out, it.id);
    out.push(44);
    out.push(34);
    out.push(115);
    out.push(34);
    out.push(58);
    push_u32_dec(out, it.score);
    out.push(44);
    out.push(34);
    out.push(99);
    out.push(34);
    out.push(58);
    push_u32_dec(out, it.comments);
    out.push(125);
    proof {
        assert(final(out)@ =~= old(out)@ + item_json(*it));
    }
}

/// Renders one snapshot as its JSON line, exactly as `snapshot_json`
/// states it.
#[verifier::rlimit(100)]
pub fn encode_snapshot(s: &HNTopStoriesSnap) -> (r: Vec<u8>)
    requires
        s.wf(),
    ensures
        r@ == snapshot_json(*s),
{
    let mut out: Vec<u8> = Vec::new();
    out.push(123);
    out.push(34);
    out.push(116);
    out.push(34);
    out.push(58);
    out.push(34);
    crate::date::push_instant_bytes(&mut out, &s.t);
    out.push(34);
    out.push(44);
    out.push(34);
    out.push(105);
    out.push(116);
    out.push(101);
    out.push(109);
    out.push(115);
    out.push(34);
    out.push(58);
    out.push(91);
    let ghost header = out@;
    let n = s.items.len();
    let mut i: usize = 0;
    while i < n
        invariant
            n == s.items@.len(),
            i <= n,
            out@ == header + items_json(s.items@.take(i as int)),
        decreases n - i,
    {
        if i > 0 {
            out.push(44);
        }
        push_item_json(&mut out, &s.items[i]);
        proof {
            let taken = s.items@.take(i + 1);
            assert(taken.drop_last() =~= s.items@.take(i as int));
            assert(taken.last() == s.items@[i as int]);
            if i == 0 {
                assert(s.items@.take(1).len() == 1);
                assert(out@ =~= header + items_json(s.items@.take(1)));
            } else {
                assert(out@ =~= header + items_json(taken));
            }
        }
        i = i + 1;
    }
    out.push(93);
    out.push(125);
    proof {
        assert(s.items@.take(n as int) =~= s.items@);
        assert(out@ =~= snapshot_json(*s));
    }
    out
}

} // verus!
