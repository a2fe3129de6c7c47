//! Tag normalization: tags are trimmed, lower-cased, stripped of blanks and
//! de-duplicated, keeping the first occurrence of each.
use crate::text::{contains_text, is_blank, lowercase_chars, to_lowercase, trim, trim_chars};
use vstd::prelude::*;

verus! {

/// The views of a list of texts.
pub open spec fn texts(v: Seq<String>) -> Seq<Seq<char>> {
    v.map_values(|t: String| t@)
}

/// The normal form of one tag: trimmed, then lower-cased.
pub open spec fn tag_normal_form(t: Seq<char>) -> Seq<char> {
    lowercase_chars(trim_chars(t))
}

/// The normalized tags of the first `n` input tags.
pub open spec fn normalized_prefix(tags: Seq<Seq<char>>, n: nat) -> Seq<Seq<char>>
    decreases n,
{
    if n == 0 || n > tags.len() {
        Seq::empty()
    } else {
        let r = normalized_prefix(tags, (n - 1) as nat);
        let t = tag_normal_form(tags[n - 1]);
        if t.len() == 0 || r.contains(t) {
            r
        } else {
            r.push(t)
        }
    }
}

/// The normalized tags of a list: the non-empty normal forms, each kept at
/// its first occurrence.
pub open spec fn normalized_tags(tags: Seq<Seq<char>>) -> Seq<Seq<char>> {
    normalized_prefix(tags, tags.len())
}

/// The texts of a list that are not blank, in order.
pub open spec fn non_blank(tags: Seq<Seq<char>>) -> Seq<Seq<char>>
    decreases tags.len(),
{
    if tags.len() == 0 {
        Seq::empty()
    } else {
        let r = non_blank(tags.drop_last());
        if is_blank(tags.last()) {
            r
        } else {
            r.push(tags.last())
        }
    }
}

/// Trims and lower-cases every tag, drops the empty ones and keeps the first
/// occurrence of each.
pub fn normalize_tags(tags: &[String]) -> (out: Vec<String>)
    ensures
        texts(out@) == normalized_tags(texts(tags@)),
{
    let ghost input = texts(tags@);
    let mut out: Vec<String> = Vec::new();
    let mut i: usize = 0;
    while i < tags.len()
        invariant
            0 <= i <= tags@.len(),
            input == texts(tags@),
            texts(out@) == normalized_prefix(input, i as nat),
        decreases tags@.len() - i,
    {
        let t = to_lowercase(trim(tags[i].as_str()));
        assert(t@ == tag_normal_form(input[i as int]));
        let seen = contains_text(&out, &t);
        if !t.as_str().is_empty() && !seen {
            out.push(t);
            assert(texts(out@) =~= normalized_prefix(input, i as nat).push(tag_normal_form(
                input[i as int],
            )));
        }
        i = i + 1;
    }
    out
}

/// The normalized tags, or nothing when none is left.
pub fn normalized_tag_option(tags: &[String]) -> (out: Option<Vec<String>>)
    ensures
        match out {
            Some(v) => texts(v@) == normalized_tags(texts(tags@)) && v@.len() > 0,
            None => normalized_tags(texts(tags@)).len() == 0,
        },
{
    let tags = normalize_tags(tags);
    if tags.len() == 0 {
        None
    } else {
        Some(tags)
    }
}

/// Drops the blank tags of a list, keeping the others in order.
pub fn retain_non_blank(tags: Vec<String>) -> (out: Vec<String>)
    ensures
        texts(out@) == non_blank(texts(tags@)),
{
    let ghost input = texts(tags@);
    let mut out: Vec<String> = Vec::new();
    let mut rest = tags;
    let mut kept_rev: Vec<String> = Vec::new();
    // Walk from the back so that every text is moved, not copied.
    while rest.len() > 0
        invariant
            texts(rest@) == input.take(rest@.len() as int),
            rest@.len() <= input.len(),
            input == texts(tags@),
            non_blank(input) == non_blank(texts(rest@)) + texts(kept_rev@).reverse(),
        decreases rest@.len(),
    {
        let ghost before = texts(rest@);
        let t = rest.pop().unwrap();
        assert(texts(rest@) =~= before.drop_last());
        if !crate::text::blank(t.as_str()) {
            kept_rev.push(t);
            assert(texts(kept_rev@).reverse() =~= seq![before.last()] + texts(
                kept_rev@.drop_last(),
            ).reverse());
            assert(non_blank(before) =~= non_blank(before.drop_last()).push(before.last()));
        }
    }
    assert(texts(rest@) =~= Seq::<Seq<char>>::empty());
    assert(non_blank(texts(rest@)) =~= Seq::<Seq<char>>::empty());
    while kept_rev.len() > 0
        invariant
            non_blank(input) == texts(out@) + texts(kept_rev@).reverse(),
        decreases kept_rev@.len(),
    {
        let ghost before = texts(kept_rev@);
        let t = kept_rev.pop().unwrap();
        out.push(t);
        assert(texts(kept_rev@).reverse() =~= before.reverse().drop_first());
        assert(texts(out@) =~= texts(out@).drop_last().push(before.last()));
    }
    out
}

proof fn lemma_normalized_prefix_props(tags: Seq<Seq<char>>, n: nat)
    requires
        n <= tags.len(),
    ensures
        forall|i: int, j: int|
            0 <= i < j < normalized_prefix(tags, n).len() ==> #[trigger] normalized_prefix(tags, n)[i]
                != #[trigger] normalized_prefix(tags, n)[j],
        forall|i: int|
            0 <= i < normalized_prefix(tags, n).len() ==> #[trigger] normalized_prefix(tags, n)[i].len()
                > 0,
        forall|t: Seq<char>|
            #[trigger] normalized_prefix(tags, n).contains(t) <==> (t.len() > 0 && exists|i: int|
                0 <= i < n && #[trigger] tag_normal_form(tags[i]) == t),
    decreases n,
{
    if n > 0 {
        let m = (n - 1) as nat;
        lemma_normalized_prefix_props(tags, m);
        let r = normalized_prefix(tags, m);
        let t = tag_normal_form(tags[m as int]);
        let out = normalized_prefix(tags, n);
        assert forall|u: Seq<char>| #[trigger] out.contains(u) <==> (u.len() > 0 && exists|i: int|
            0 <= i < n && #[trigger] tag_normal_form(tags[i]) == u) by {
            if u.len() > 0 && exists|i: int| 0 <= i < n && #[trigger] tag_normal_form(tags[i]) == u {
                let i = choose|i: int| 0 <= i < n && #[trigger] tag_normal_form(tags[i]) == u;
                if i < m {
                    assert(r.contains(u));
                    if !(t.len() == 0 || r.contains(t)) {
                        let k = choose|k: int| 0 <= k < r.len() && r[k] == u;
                        assert(out[k] == u);
                    }
                } else {
                    if !(t.len() == 0 || r.contains(t)) {
                        assert(out[out.len() - 1] == u);
                    }
                }
            }
            if out.contains(u) {
                if !(t.len() == 0 || r.contains(t)) {
                    let k = choose|k: int| 0 <= k < out.len() && out[k] == u;
                    if k < r.len() {
                        assert(r[k] == u);
                        assert(r.contains(u));
                    } else {
                        assert(tag_normal_form(tags[m as int]) == u);
                    }
                }
            }
        }
        if !(t.len() == 0 || r.contains(t)) {
            assert forall|i: int, j: int| 0 <= i < j < out.len() implies #[trigger] out[i]
                != #[trigger] out[j] by {
                if j == out.len() - 1 {
                    assert(out[i] == r[i]);
                    assert(r.contains(r[i]));
                }
            }
        }
    }
}

/// Law: normalized tags are non-empty, distinct, and exactly the non-empty
/// normal forms of the input tags.
pub proof fn law_normalized_tags(tags: Seq<Seq<char>>)
    ensures
        forall|i: int, j: int|
            0 <= i < j < normalized_tags(tags).len() ==> #[trigger] normalized_tags(tags)[i]
                != #[trigger] normalized_tags(tags)[j],
        forall|i: int|
            0 <= i < normalized_tags(tags).len() ==> #[trigger] normalized_tags(tags)[i].len() > 0,
        forall|t: Seq<char>|
            #[trigger] normalized_tags(tags).contains(t) <==> (t.len() > 0 && exists|i: int|
                0 <= i < tags.len() && #[trigger] tag_normal_form(tags[i]) == t),
{
    lemma_normalized_prefix_props(tags, tags.len());
}

/// Law: normalizing a longer list only adds tags after those of its prefix;
/// the order of first occurrence is kept.
pub proof fn law_normalized_tags_extend(tags: Seq<Seq<char>>, more: Seq<Seq<char>>)
    ensures
        normalized_tags(tags).len() <= normalized_tags(tags + more).len(),
        normalized_tags(tags) == normalized_tags(tags + more).take(
            normalized_tags(tags).len() as int,
        ),
    decreases more.len(),
{
    if more.len() == 0 {
        assert(tags + more =~= tags);
    } else {
        let shorter = more.drop_last();
        law_normalized_tags_extend(tags, shorter);
        let all = tags + more;
        assert(all.drop_last() =~= tags + shorter);
        lemma_prefix_same(all, tags + shorter, (tags + shorter).len());
        let r = normalized_prefix(all, (all.len() - 1) as nat);
        assert(r == normalized_tags(tags + shorter));
        let out = normalized_tags(all);
        assert(out == r || out == r.push(tag_normal_form(all[all.len() - 1])));
        assert(out.take(r.len() as int) =~= r);
        assert(out.take(normalized_tags(tags).len() as int) =~= r.take(
            normalized_tags(tags).len() as int,
        ));
    }
}

/// Tags that are already normalized: non-empty, distinct, each its own
/// normal form.
pub open spec fn is_normalized(tags: Seq<Seq<char>>) -> bool {
    &&& forall|i: int| 0 <= i < tags.len() ==> #[trigger] tags[i].len() > 0
    &&& forall|i: int| 0 <= i < tags.len() ==> tag_normal_form(#[trigger] tags[i]) == tags[i]
    &&& forall|i: int, j: int| 0 <= i < j < tags.len() ==> #[trigger] tags[i] != #[trigger] tags[j]
}

proof fn lemma_fixed_prefix(tags: Seq<Seq<char>>, n: nat)
    requires
        is_normalized(tags),
        n <= tags.len(),
    ensures
        normalized_prefix(tags, n) == tags.take(n as int),
    decreases n,
{
    if n > 0 {
        let m = (n - 1) as nat;
        lemma_fixed_prefix(tags, m);
        let r = tags.take(m as int);
        assert(tag_normal_form(tags[m as int]) == tags[m as int]);
        assert(tags[m as int].len() > 0);
        assert(!r.contains(tags[m as int])) by {
            if r.contains(tags[m as int]) {
                let k = choose|k: int| 0 <= k < r.len() && r[k] == tags[m as int];
                assert(tags[k] != tags[m as int]);
            }
        }
        assert(tags.take(n as int) =~= r.push(tags[m as int]));
    }
}

/// Law: normalizing tags that are already normalized gives them back
/// unchanged.
pub proof fn law_normalized_fixed_point(tags: Seq<Seq<char>>)
    requires
        is_normalized(tags),
    ensures
        normalized_tags(tags) == tags,
{
    lemma_fixed_prefix(tags, tags.len());
    assert(tags.take(tags.len() as int) =~= tags);
}

/// Law: normalizing twice is normalizing once, wherever every normalized tag
/// is its own normal form (trimming and lower-casing it again changes
/// nothing).
pub proof fn law_normalize_idempotent(tags: Seq<Seq<char>>)
    requires
        forall|i: int|
            0 <= i < normalized_tags(tags).len() ==> tag_normal_form(
                #[trigger] normalized_tags(tags)[i],
            ) == normalized_tags(tags)[i],
    ensures
        normalized_tags(normalized_tags(tags)) == normalized_tags(tags),
{
    law_normalized_tags(tags);
    law_normalized_fixed_point(normalized_tags(tags));
}

proof fn lemma_prefix_same(a: Seq<Seq<char>>, b: Seq<Seq<char>>, n: nat)
    requires
        n <= a.len(),
        n <= b.len(),
        forall|i: int| 0 <= i < n ==> a[i] == b[i],
    ensures
        normalized_prefix(a, n) == normalized_prefix(b, n),
    decreases n,
{
    if n > 0 {
        lemma_prefix_same(a, b, (n - 1) as nat);
    }
}

} // verus!
