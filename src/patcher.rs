//! Applies text edits in descending offset order so that a length-changing
//! replacement never disturbs the offsets of edits still to be applied.
use vstd::prelude::*;
use crate::finding::Edit;
use crate::text::{utf8_of, bytes_of, chars_of, string_from_bytes};
use vstd::utf8::*;

verus! {

pub open spec fn edit_bytes(e: Edit) -> Seq<u8> {
    utf8_of(e.replacement@)
}

pub open spec fn edit_end(e: Edit) -> int {
    e.offset + e.length
}

/// The edit's span lies inside `t`.
/// Position `p` of `t` starts a character, or is the end.
pub open spec fn char_start(t: Seq<u8>, p: int) -> bool {
    p == t.len() || (0 <= p < t.len() && !is_continuation_byte(t[p]))
}

/// The edit's span lies inside `t` and starts and ends on character starts.
pub open spec fn fits(t: Seq<u8>, e: Edit) -> bool {
    &&& edit_end(e) <= t.len()
    &&& char_start(t, e.offset as int)
    &&& char_start(t, edit_end(e))
}

/// One edit applied to `t`; an edit that does not fit (out of range, or
/// cutting a character) leaves `t` as it is.
pub open spec fn splice(t: Seq<u8>, e: Edit) -> Seq<u8> {
    if fits(t, e) {
        t.subrange(0, e.offset as int) + edit_bytes(e) + t.subrange(edit_end(e), t.len() as int)
    } else {
        t
    }
}

/// The edits applied one after the other, in the order given.
pub open spec fn apply_in_order(t: Seq<u8>, s: Seq<Edit>) -> Seq<u8>
    decreases s.len(),
{
    if s.len() == 0 {
        t
    } else {
        apply_in_order(splice(t, s[0]), s.drop_first())
    }
}

/// `a[k..]` is at or after `b[k..]` in lexicographic order of code points.
pub open spec fn text_ge_from(a: Seq<char>, b: Seq<char>, k: int) -> bool
    decreases b.len() - k,
{
    if k < 0 || k >= b.len() {
        true
    } else if k >= a.len() {
        false
    } else if a[k] != b[k] {
        (a[k] as u32) > (b[k] as u32)
    } else {
        text_ge_from(a, b, k + 1)
    }
}

/// `a` is applied before `b`: larger offset first; at one offset higher rank,
/// then longer span, then the replacement later in code-point order. The
/// order does not depend on the order in which edits are listed.
pub open spec fn precedes(a: Edit, b: Edit) -> bool {
    a.offset > b.offset || (a.offset == b.offset && (a.rank > b.rank || (a.rank == b.rank && (
    a.length > b.length || (a.length == b.length && text_ge_from(
        a.replacement@,
        b.replacement@,
        0,
    ))))))
}

proof fn lemma_text_ge_total(a: Seq<char>, b: Seq<char>, k: int)
    requires
        0 <= k,
    ensures
        text_ge_from(a, b, k) || text_ge_from(b, a, k),
    decreases a.len() + b.len() - 2 * k,
{
    if k < a.len() && k < b.len() {
        if a[k] == b[k] {
            lemma_text_ge_total(a, b, k + 1);
        } else {
            vstd::utf8::char_u32_cast(a[k], a[k] as u32);
            vstd::utf8::char_u32_cast(b[k], b[k] as u32);
        }
    }
}

proof fn lemma_text_ge_trans(a: Seq<char>, b: Seq<char>, c: Seq<char>, k: int)
    requires
        0 <= k,
        text_ge_from(a, b, k),
        text_ge_from(b, c, k),
    ensures
        text_ge_from(a, c, k),
    decreases c.len() - k,
{
    if k < c.len() && k < b.len() && k < a.len() && a[k] == b[k] && b[k] == c[k] {
        lemma_text_ge_trans(a, b, c, k + 1);
    }
}

proof fn lemma_precedes_order(a: Edit, b: Edit, c: Edit)
    ensures
        precedes(a, b) || precedes(b, a),
        precedes(a, b) && precedes(b, c) ==> precedes(a, c),
{
    lemma_text_ge_total(a.replacement@, b.replacement@, 0);
    if precedes(a, b) && precedes(b, c) && a.offset == c.offset && a.rank == c.rank && a.length
        == c.length {
        lemma_text_ge_trans(a.replacement@, b.replacement@, c.replacement@, 0);
    }
}

/// Where `e` is inserted into `s`: after every element that precedes it.
pub open spec fn insert_pos(s: Seq<Edit>, e: Edit) -> int
    decreases s.len(),
{
    if s.len() == 0 {
        0
    } else if precedes(s.last(), e) {
        s.len() as int
    } else {
        insert_pos(s.drop_last(), e)
    }
}

/// The edits in application order (insertion sort; stable for equal keys).
pub open spec fn sort_desc(s: Seq<Edit>) -> Seq<Edit>
    decreases s.len(),
{
    if s.len() == 0 {
        s
    } else {
        let t = sort_desc(s.drop_last());
        t.insert(insert_pos(t, s.last()), s.last())
    }
}

/// The bytes of `t` after all `edits` have been applied in descending offset order.
pub open spec fn patched(t: Seq<u8>, edits: Seq<Edit>) -> Seq<u8> {
    apply_in_order(t, sort_desc(edits))
}

/// Each edit of `s` ends at or before the start of every edit listed before it.
pub open spec fn non_overlapping_desc(s: Seq<Edit>) -> bool {
    forall|i: int, j: int| 0 <= i < j < s.len() ==> edit_end(#[trigger] s[j]) <= (#[trigger] s[i]).offset
}

pub open spec fn all_fit(t: Seq<u8>, s: Seq<Edit>) -> bool {
    forall|i: int| 0 <= i < s.len() ==> fits(t, #[trigger] s[i])
}

/// Every edit of `s` replaces its own span of the original `t`; the bytes
/// between and around the spans are those of `t`.
pub open spec fn stitch(t: Seq<u8>, s: Seq<Edit>) -> Seq<u8>
    decreases s.len(),
{
    if s.len() == 0 {
        t
    } else {
        let e = s[0];
        stitch(t.subrange(0, e.offset as int), s.drop_first()) + edit_bytes(e) + t.subrange(
            edit_end(e),
            t.len() as int,
        )
    }
}

proof fn lemma_leading_byte(x: Seq<u8>)
    requires
        valid_utf8(x),
        x.len() > 0,
    ensures
        !is_continuation_byte(x[0]),
{
    assert(is_char_boundary(x, 0));
    is_char_boundary_iff_not_is_continuation_byte(x, 0);
}

proof fn lemma_edit_bytes_start(e: Edit)
    ensures
        edit_bytes(e).len() > 0 ==> !is_continuation_byte(edit_bytes(e)[0]),
        valid_utf8(edit_bytes(e)),
{
    encode_utf8_valid_utf8(e.replacement@);
    if edit_bytes(e).len() > 0 {
        lemma_leading_byte(edit_bytes(e));
    }
}

/// Splicing `e` keeps every character start at or before its offset.
proof fn lemma_splice_keeps_starts(t: Seq<u8>, e: Edit, p: int)
    requires
        fits(t, e),
        0 <= p <= e.offset,
        char_start(t, p),
    ensures
        char_start(splice(t, e), p),
{
    let u = splice(t, e);
    lemma_edit_bytes_start(e);
    if p < e.offset {
        assert(u[p] == t[p]);
    } else if edit_bytes(e).len() > 0 {
        assert(u[p] == edit_bytes(e)[0]);
    } else if edit_end(e) < t.len() {
        assert(u[p] == t[edit_end(e)]);
    }
}

proof fn lemma_rest_ordered(s: Seq<Edit>)
    requires
        s.len() > 0,
        non_overlapping_desc(s),
    ensures
        non_overlapping_desc(s.drop_first()),
        forall|i: int| 0 <= i < s.drop_first().len() ==> edit_end(#[trigger] s.drop_first()[i]) <= s[0].offset,
{
    let rest = s.drop_first();
    assert forall|i: int, j: int| 0 <= i < j < rest.len() implies edit_end(#[trigger] rest[j])
        <= (#[trigger] rest[i]).offset by {
        assert(rest[i] == s[i + 1] && rest[j] == s[j + 1]);
    }
    assert forall|i: int| 0 <= i < rest.len() implies edit_end(#[trigger] rest[i]) <= s[0].offset by {
        assert(rest[i] == s[i + 1]);
    }
}

proof fn lemma_apply_append(a: Seq<u8>, b: Seq<u8>, s: Seq<Edit>)
    requires
        non_overlapping_desc(s),
        all_fit(a + b, s),
        forall|i: int| 0 <= i < s.len() ==> edit_end(#[trigger] s[i]) <= a.len(),
        b.len() == 0 || !is_continuation_byte(b[0]),
    ensures
        apply_in_order(a + b, s) == apply_in_order(a, s) + b,
    decreases s.len(),
{
    if s.len() > 0 {
        let e = s[0];
        assert(fits(a + b, e));
        if e.offset < a.len() {
            assert((a + b)[e.offset as int] == a[e.offset as int]);
        }
        if edit_end(e) < a.len() {
            assert((a + b)[edit_end(e)] == a[edit_end(e)]);
        }
        assert(fits(a, e));
        let a2 = splice(a, e);
        assert(splice(a + b, e) =~= a2 + b);
        let rest = s.drop_first();
        lemma_rest_ordered(s);
        assert forall|i: int| 0 <= i < rest.len() implies fits(a2 + b, #[trigger] rest[i]) by {
            let x = rest[i];
            assert(x == s[i + 1]);
            assert(fits(a + b, x));
            lemma_splice_keeps_starts(a + b, e, x.offset as int);
            lemma_splice_keeps_starts(a + b, e, edit_end(x));
        }
        assert forall|i: int| 0 <= i < rest.len() implies edit_end(#[trigger] rest[i]) <= a2.len() by {
        }
        lemma_apply_append(a2, b, rest);
    }
}

/// Correction safety: applying non-overlapping edits that fit the text, in
/// descending offset order, changes each edit's own span of the original text
/// and nothing else.
pub proof fn lemma_patch_confined(t: Seq<u8>, s: Seq<Edit>)
    requires
        non_overlapping_desc(s),
        all_fit(t, s),
    ensures
        apply_in_order(t, s) == stitch(t, s),
    decreases s.len(),
{
    if s.len() > 0 {
        let e = s[0];
        assert(fits(t, e));
        let pre = t.subrange(0, e.offset as int);
        let post = edit_bytes(e) + t.subrange(edit_end(e), t.len() as int);
        assert(splice(t, e) =~= pre + post);
        let rest = s.drop_first();
        lemma_rest_ordered(s);
        lemma_edit_bytes_start(e);
        if edit_bytes(e).len() > 0 {
            assert(post[0] == edit_bytes(e)[0]);
        } else if edit_end(e) < t.len() {
            assert(post[0] == t[edit_end(e)]);
        }
        assert forall|i: int| 0 <= i < rest.len() implies fits(pre + post, #[trigger] rest[i]) by {
            let x = rest[i];
            assert(x == s[i + 1]);
            assert(fits(t, x));
            lemma_splice_keeps_starts(t, e, x.offset as int);
            lemma_splice_keeps_starts(t, e, edit_end(x));
        }
        assert forall|i: int| 0 <= i < rest.len() implies fits(pre, #[trigger] rest[i]) by {
            let x = rest[i];
            assert(x == s[i + 1]);
            assert(fits(t, x));
            if x.offset < pre.len() {
                assert(pre[x.offset as int] == t[x.offset as int]);
            }
            if edit_end(x) < pre.len() {
                assert(pre[edit_end(x)] == t[edit_end(x)]);
            }
        }
        lemma_apply_append(pre, post, rest);
        lemma_patch_confined(pre, rest);
        assert(stitch(pre, rest) + edit_bytes(e) + t.subrange(edit_end(e), t.len() as int)
            =~= stitch(pre, rest) + post);
    }
}

/// Correction safety on text: when the edits, in the order they are applied,
/// are non-overlapping and fit the text, the result is the text with each
/// edit's own span replaced and every other byte kept.
pub proof fn lemma_text_patch_confined(text: Seq<char>, edits: Seq<Edit>)
    requires
        non_overlapping_desc(sort_desc(edits)),
        all_fit(utf8_of(text), sort_desc(edits)),
    ensures
        patched(utf8_of(text), edits) == stitch(utf8_of(text), sort_desc(edits)),
{
    lemma_patch_confined(utf8_of(text), sort_desc(edits));
}

proof fn lemma_insert_pos(t: Seq<Edit>, e: Edit)
    ensures
        0 <= insert_pos(t, e) <= t.len(),
        forall|k: int| insert_pos(t, e) <= k < t.len() ==> !precedes(#[trigger] t[k], e),
        insert_pos(t, e) > 0 ==> precedes(t[insert_pos(t, e) - 1], e),
    decreases t.len(),
{
    if t.len() > 0 && !precedes(t.last(), e) {
        let d = t.drop_last();
        lemma_insert_pos(d, e);
        assert forall|k: int| insert_pos(t, e) <= k < t.len() implies !precedes(#[trigger] t[k], e) by {
            if k < d.len() {
                assert(t[k] == d[k]);
            }
        }
        if insert_pos(t, e) > 0 {
            assert(t[insert_pos(t, e) - 1] == d[insert_pos(d, e) - 1]);
        }
    }
}

/// The patcher applies edits in descending order: by offset, and at one
/// offset by rank; their number is kept.
pub proof fn lemma_sort_desc_ordered(s: Seq<Edit>)
    ensures
        sort_desc(s).len() == s.len(),
        forall|i: int, j: int|
            0 <= i < j < sort_desc(s).len() ==> precedes(#[trigger] sort_desc(s)[i], #[trigger] sort_desc(s)[j]),
    decreases s.len(),
{
    if s.len() > 0 {
        let t = sort_desc(s.drop_last());
        let e = s.last();
        lemma_sort_desc_ordered(s.drop_last());
        lemma_insert_pos(t, e);
        let p = insert_pos(t, e);
        let r = t.insert(p, e);
        assert(r == sort_desc(s));
        assert forall|i: int, j: int| 0 <= i < j < r.len() implies precedes(#[trigger] r[i], #[trigger] r[j]) by {
            if i < p && p > 0 {
                lemma_precedes_order(t[i], t[p - 1], e);
            }
            if j > p {
                lemma_precedes_order(e, t[j - 1], e);
            }
            if i == p && j > p {
                lemma_precedes_order(t[j - 1], e, e);
            }
            if j < p {
                assert(r[i] == t[i] && r[j] == t[j]);
            } else if j == p {
                assert(r[i] == t[i]);
                if i < p - 1 {
                    assert(precedes(t[i], t[p - 1]));
                }
            } else if i == p {
                assert(r[j] == t[j - 1]);
                assert(!precedes(t[j - 1], e));
            } else if i < p {
                assert(r[i] == t[i] && r[j] == t[j - 1]);
            } else {
                assert(r[i] == t[i - 1] && r[j] == t[j - 1]);
            }
        }
    }
}

/// Appends `src[from..to]` to `dst`.
fn append_range(dst: &mut Vec<u8>, src: &Vec<u8>, from: usize, to: usize)
    requires
        from <= to <= src@.len(),
    ensures
        final(dst)@ == old(dst)@ + src@.subrange(from as int, to as int),
{
    let ghost start = dst@;
    let mut i: usize = from;
    while i < to
        invariant
            from <= i <= to <= src@.len(),
            dst@ == start + src@.subrange(from as int, i as int),
        decreases to - i,
    {
        dst.push(src[i]);
        proof {
            assert(src@.subrange(from as int, i + 1) =~= src@.subrange(from as int, i as int).push(
                src@[i as int],
            ));
        }
        i = i + 1;
    }
}

proof fn lemma_splice_valid(t: Seq<u8>, e: Edit)
    requires
        valid_utf8(t),
        fits(t, e),
    ensures
        valid_utf8(splice(t, e)),
{
    let o = e.offset as int;
    let z = edit_end(e);
    if o < t.len() {
        is_char_boundary_iff_not_is_continuation_byte(t, o);
    } else {
        is_char_boundary_start_end_of_seq(t);
    }
    if z < t.len() {
        is_char_boundary_iff_not_is_continuation_byte(t, z);
    } else {
        is_char_boundary_start_end_of_seq(t);
    }
    valid_utf8_split(t, o);
    valid_utf8_split(t, z);
    lemma_edit_bytes_start(e);
    valid_utf8_concat(t.subrange(0, o), edit_bytes(e));
    valid_utf8_concat(t.subrange(0, o) + edit_bytes(e), t.subrange(z, t.len() as int));
}

fn splice_bytes(t: &Vec<u8>, e: &Edit) -> (r: Vec<u8>)
    requires
        fits(t@, *e),
    ensures
        r@ == splice(t@, *e),
{
    let n = t.len();
    assert(e.offset + e.length <= n);
    let rep = bytes_of(e.replacement.as_str());
    let mut r: Vec<u8> = Vec::new();
    append_range(&mut r, t, 0, e.offset);
    append_range(&mut r, &rep, 0, rep.len());
    append_range(&mut r, t, e.offset + e.length, n);
    proof {
        assert(rep@.subrange(0, rep@.len() as int) =~= rep@);
        assert(Seq::<u8>::empty() + t@.subrange(0, e.offset as int) =~= t@.subrange(0, e.offset as int));
    }
    r
}

fn text_ge(a: &str, b: &str) -> (r: bool)
    ensures
        r == text_ge_from(a@, b@, 0),
{
    let x = chars_of(a);
    let y = chars_of(b);
    let mut k: usize = 0;
    while k < y.len()
        invariant
            x@ == a@,
            y@ == b@,
            k <= y@.len(),
            text_ge_from(a@, b@, 0) == text_ge_from(a@, b@, k as int),
        decreases y@.len() - k,
    {
        if k >= x.len() {
            return false;
        }
        if x[k] != y[k] {
            return (x[k] as u32) > (y[k] as u32);
        }
        k = k + 1;
    }
    true
}

fn precedes_exec(a: &Edit, b: &Edit) -> (r: bool)
    ensures
        r == precedes(*a, *b),
{
    if a.offset != b.offset {
        a.offset > b.offset
    } else if a.rank != b.rank {
        a.rank > b.rank
    } else if a.length != b.length {
        a.length > b.length
    } else {
        text_ge(a.replacement.as_str(), b.replacement.as_str())
    }
}

/// The edits in the order in which they are applied: descending offset, and
/// at one offset descending rank, otherwise in the order given.
pub fn order_edits(edits: &Vec<Edit>) -> (r: Vec<Edit>)
    ensures
        r@ == sort_desc(edits@),
{
    let mut r: Vec<Edit> = Vec::new();
    let mut i: usize = 0;
    while i < edits.len()
        invariant
            i <= edits@.len(),
            r@ == sort_desc(edits@.subrange(0, i as int)),
        decreases edits@.len() - i,
    {
        let e = edits[i].duplicate();
        let mut p: usize = r.len();
        proof {
            assert(r@.subrange(0, r@.len() as int) =~= r@);
        }
        while p > 0 && !precedes_exec(&r[p - 1], &e)
            invariant
                p <= r@.len(),
                insert_pos(r@, e) == insert_pos(r@.subrange(0, p as int), e),
                p > 0 ==> r@.subrange(0, p as int).last() == r@[p - 1],
            decreases p,
        {
            proof {
                assert(r@.subrange(0, p as int).drop_last() =~= r@.subrange(0, p - 1));
            }
            p = p - 1;
        }
        proof {
            let s = edits@.subrange(0, i + 1);
            assert(s.drop_last() =~= edits@.subrange(0, i as int));
            assert(s.last() == e);
        }
        r.insert(p, e);
        i = i + 1;
    }
    proof {
        assert(edits@.subrange(0, edits@.len() as int) =~= edits@);
    }
    r
}

/// Applies `edits` to the bytes `text`, in descending offset order; an edit
/// whose span does not fit the current bytes is skipped.
pub fn apply_edits_to_bytes(text: &Vec<u8>, edits: &Vec<Edit>) -> (r: Vec<u8>)
    ensures
        r@ == patched(text@, edits@),
        valid_utf8(text@) ==> valid_utf8(r@),
{
    let ordered = order_edits(edits);
    let mut cur: Vec<u8> = text.clone();
    proof {
        assert(cur@ =~= text@);
        assert(ordered@.subrange(0, ordered@.len() as int) =~= ordered@);
    }
    let mut i: usize = 0;
    while i < ordered.len()
        invariant
            i <= ordered@.len(),
            ordered@ == sort_desc(edits@),
            valid_utf8(text@) ==> valid_utf8(cur@),
            apply_in_order(cur@, ordered@.subrange(i as int, ordered@.len() as int))
                == patched(text@, edits@),
        decreases ordered@.len() - i,
    {
        let e = &ordered[i];
        proof {
            let rest = ordered@.subrange(i as int, ordered@.len() as int);
            assert(rest[0] == *e);
            assert(rest.drop_first() =~= ordered@.subrange(i + 1, ordered@.len() as int));
        }
        let n = cur.len();
        if e.length <= n && e.offset <= n - e.length {
            let end = e.offset + e.length;
            let starts = (e.offset == n || !(128 <= cur[e.offset] && cur[e.offset] < 192)) && (end == n
                || !(128 <= cur[end] && cur[end] < 192));
            if starts {
                proof {
                    if valid_utf8(text@) {
                        lemma_splice_valid(cur@, *e);
                    }
                }
                cur = splice_bytes(&cur, e);
            }
        }
        i = i + 1;
    }
    cur
}

/// Applies `edits` to `text` in descending offset order, skipping any edit
/// whose span does not fit or would cut a character.
pub fn apply_edits(text: &str, edits: &Vec<Edit>) -> (r: String)
    ensures
        utf8_of(r@) == patched(utf8_of(text@), edits@),
{
    let b = bytes_of(text);
    proof {
        encode_utf8_valid_utf8(text@);
    }
    let p = apply_edits_to_bytes(&b, edits);
    match string_from_bytes(p) {
        Some(s) => s,
        None => {
            assert(false);
            text.to_string()
        },
    }
}

} // verus!
