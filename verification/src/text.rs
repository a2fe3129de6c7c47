//! Text primitives taken from the standard library: whitespace trimming,
//! lower-casing and character-bounded truncation.
use vstd::prelude::*;

verus! {

/// `char::is_whitespace`: the character has the Unicode `White_Space`
/// property.
pub uninterp spec fn char_is_whitespace(c: char) -> bool;

/// Number of whitespace characters at the start of `s`.
pub open spec fn leading_whitespace(s: Seq<char>) -> nat
    decreases s.len(),
{
    if s.len() > 0 && char_is_whitespace(s[0]) {
        1 + leading_whitespace(s.drop_first())
    } else {
        0
    }
}

/// Number of whitespace characters at the end of `s`.
pub open spec fn trailing_whitespace(s: Seq<char>) -> nat
    decreases s.len(),
{
    if s.len() > 0 && char_is_whitespace(s.last()) {
        1 + trailing_whitespace(s.drop_last())
    } else {
        0
    }
}

/// `s` without its leading and trailing whitespace.
pub open spec fn trim_chars(s: Seq<char>) -> Seq<char> {
    let a = leading_whitespace(s);
    if a >= s.len() {
        Seq::empty()
    } else {
        s.subrange(a as int, s.len() - trailing_whitespace(s))
    }
}

/// A text is blank when nothing is left of it after trimming.
pub open spec fn is_blank(s: Seq<char>) -> bool {
    trim_chars(s).len() == 0
}

/// `char::is_whitespace`; the result is named by `char_is_whitespace`.
#[verifier::external_body]
pub(crate) fn is_whitespace(c: char) -> (b: bool)
    ensures
        b == char_is_whitespace(c),
{
    c.is_whitespace()
}

proof fn lemma_leading_whitespace(s: Seq<char>, a: int)
    requires
        0 <= a <= s.len(),
        forall|p: int| 0 <= p < a ==> char_is_whitespace(#[trigger] s[p]),
        a == s.len() || !char_is_whitespace(s[a]),
    ensures
        leading_whitespace(s) == a,
    decreases a,
{
    if a > 0 {
        let t = s.drop_first();
        assert forall|p: int| 0 <= p < a - 1 implies char_is_whitespace(#[trigger] t[p]) by {
            assert(t[p] == s[p + 1]);
        }
        if a - 1 < t.len() {
            assert(t[a - 1] == s[a]);
        }
        lemma_leading_whitespace(t, a - 1);
        assert(char_is_whitespace(s[0]));
    }
}

proof fn lemma_trailing_whitespace(s: Seq<char>, b: int)
    requires
        0 <= b <= s.len(),
        forall|p: int| b <= p < s.len() ==> char_is_whitespace(#[trigger] s[p]),
        b == 0 || !char_is_whitespace(s[b - 1]),
    ensures
        trailing_whitespace(s) == s.len() - b,
    decreases s.len() - b,
{
    if b < s.len() {
        let t = s.drop_last();
        assert forall|p: int| b <= p < t.len() implies char_is_whitespace(#[trigger] t[p]) by {
            assert(t[p] == s[p]);
        }
        if b > 0 {
            assert(t[b - 1] == s[b - 1]);
        }
        lemma_trailing_whitespace(t, b);
        assert(char_is_whitespace(s.last()));
    }
}

/// Removes leading and trailing whitespace, as `str::trim` does.
pub fn trim(s: &str) -> (r: &str)
    ensures
        r@ == trim_chars(s@),
{
    let n = s.unicode_len();
    let mut a: usize = 0;
    while a < n && is_whitespace(s.get_char(a))
        invariant
            0 <= a <= n,
            n == s@.len(),
            forall|p: int| 0 <= p < a ==> char_is_whitespace(#[trigger] s@[p]),
        decreases n - a,
    {
        a = a + 1;
    }
    proof {
        lemma_leading_whitespace(s@, a as int);
    }
    if a == n {
        return s.substring_char(0, 0);
    }
    let mut b: usize = n;
    while b > a && is_whitespace(s.get_char(b - 1))
        invariant
            a < n,
            a <= b <= n,
            n == s@.len(),
            !char_is_whitespace(s@[a as int]),
            forall|p: int| b <= p < n ==> char_is_whitespace(#[trigger] s@[p]),
        decreases b,
    {
        b = b - 1;
    }
    proof {
        lemma_trailing_whitespace(s@, b as int);
    }
    s.substring_char(a, b)
}

/// `str::to_lowercase`: the Unicode lower-case mapping of a text.
pub uninterp spec fn lowercase_chars(s: Seq<char>) -> Seq<char>;

/// `str::to_lowercase`; the result is named by `lowercase_chars`.
#[verifier::external_body]
pub(crate) fn to_lowercase(s: &str) -> (r: String)
    ensures
        r@ == lowercase_chars(s@),
{
    s.to_lowercase()
}

/// Whether a text is blank.
pub fn blank(s: &str) -> (b: bool)
    ensures
        b == is_blank(s@),
{
    trim(s).is_empty()
}

/// The first `limit` characters of `s`, or all of it when it is shorter.
pub open spec fn first_chars(s: Seq<char>, limit: nat) -> Seq<char> {
    if s.len() <= limit {
        s
    } else {
        s.take(limit as int)
    }
}

/// Keeps at most `limit` characters of `s`.
pub fn truncate_chars(s: &str, limit: usize) -> (r: String)
    ensures
        r@ == first_chars(s@, limit as nat),
{
    if s.unicode_len() <= limit {
        s.to_owned()
    } else {
        s.substring_char(0, limit).to_owned()
    }
}

/// Whether `v` holds a text equal to `s`.
pub fn contains_text(v: &Vec<String>, s: &String) -> (b: bool)
    ensures
        b == v@.map_values(|t: String| t@).contains(s@),
{
    let ghost views = v@.map_values(|t: String| t@);
    let mut i: usize = 0;
    while i < v.len()
        invariant
            0 <= i <= v@.len(),
            views == v@.map_values(|t: String| t@),
            forall|j: int| 0 <= j < i ==> #[trigger] views[j] != s@,
        decreases v@.len() - i,
    {
        if v[i] == *s {
            assert(views[i as int] == s@);
            return true;
        }
        i = i + 1;
    }
    false
}

/// Whether two texts are equal, character by character.
pub fn same_text(a: &str, b: &str) -> (r: bool)
    ensures
        r == (a@ == b@),
{
    let n = a.unicode_len();
    if n != b.unicode_len() {
        return false;
    }
    let mut i: usize = 0;
    while i < n
        invariant
            0 <= i <= n,
            n == a@.len(),
            n == b@.len(),
            forall|j: int| 0 <= j < i ==> a@[j] == b@[j],
        decreases n - i,
    {
        if a.get_char(i) != b.get_char(i) {
            return false;
        }
        i = i + 1;
    }
    assert(a@ =~= b@);
    true
}

/// `a` and `b` agree on their first `k` characters, and there `a` is
/// smaller: either it ends while `b` goes on, or its character comes first.
pub open spec fn diverge_at(a: Seq<char>, b: Seq<char>, k: int) -> bool {
    &&& 0 <= k <= a.len()
    &&& k <= b.len()
    &&& forall|j: int| 0 <= j < k ==> #[trigger] a[j] == b[j]
    &&& ((k == a.len() && k < b.len()) || (k < a.len() && k < b.len() && (a[k] as int) < (
    b[k] as int)))
}

/// The order of `str` and `String`: lexicographic by character (the same
/// as by UTF-8 byte), a proper prefix first.
pub open spec fn text_lt(a: Seq<char>, b: Seq<char>) -> bool {
    exists|k: int| #[trigger] diverge_at(a, b, k)
}

/// No text comes before itself.
pub proof fn lemma_text_lt_irreflexive(a: Seq<char>)
    ensures
        !text_lt(a, a),
{
}

/// The order of texts is transitive.
pub proof fn lemma_text_lt_transitive(a: Seq<char>, b: Seq<char>, c: Seq<char>)
    requires
        text_lt(a, b),
        text_lt(b, c),
    ensures
        text_lt(a, c),
{
    let k1 = choose|k: int| #[trigger] diverge_at(a, b, k);
    let k2 = choose|k: int| #[trigger] diverge_at(b, c, k);
    if k1 < k2 {
        assert(b[k1] == c[k1]) by {
            if k1 < b.len() {
                assert(b[k1] == c[k1]);
            }
        }
        assert forall|j: int| 0 <= j < k1 implies #[trigger] a[j] == c[j] by {
            assert(a[j] == b[j]);
            assert(b[j] == c[j]);
        }
        assert(diverge_at(a, c, k1));
    } else if k2 < k1 {
        assert(a[k2] == b[k2]);
        assert forall|j: int| 0 <= j < k2 implies #[trigger] a[j] == c[j] by {
            assert(a[j] == b[j]);
            assert(b[j] == c[j]);
        }
        assert(diverge_at(a, c, k2));
    } else {
        assert forall|j: int| 0 <= j < k1 implies #[trigger] a[j] == c[j] by {
            assert(a[j] == b[j]);
            assert(b[j] == c[j]);
        }
        assert(diverge_at(a, c, k1));
    }
}

proof fn lemma_text_lt_total_from(a: Seq<char>, b: Seq<char>, i: int)
    requires
        0 <= i <= a.len(),
        i <= b.len(),
        forall|j: int| 0 <= j < i ==> #[trigger] a[j] == b[j],
        a != b,
    ensures
        text_lt(a, b) || text_lt(b, a),
    decreases a.len() - i,
{
    if i == a.len() || i == b.len() {
        if a.len() == b.len() {
            assert(a =~= b);
        } else if a.len() < b.len() {
            assert(diverge_at(a, b, i));
        } else {
            assert forall|j: int| 0 <= j < i implies #[trigger] b[j] == a[j] by {
                assert(a[j] == b[j]);
            }
            assert(diverge_at(b, a, i));
        }
    } else if a[i] != b[i] {
        if (a[i] as int) < (b[i] as int) {
            assert(diverge_at(a, b, i));
        } else {
            assert forall|j: int| 0 <= j < i implies #[trigger] b[j] == a[j] by {
                assert(a[j] == b[j]);
            }
            assert(diverge_at(b, a, i));
        }
    } else {
        lemma_text_lt_total_from(a, b, i + 1);
    }
}

/// Two different texts are ordered one way or the other.
pub proof fn lemma_text_lt_total(a: Seq<char>, b: Seq<char>)
    requires
        a != b,
    ensures
        text_lt(a, b) || text_lt(b, a),
{
    lemma_text_lt_total_from(a, b, 0);
}

/// Whether `a` comes before `b` in the order of texts.
pub fn text_less(a: &str, b: &str) -> (r: bool)
    ensures
        r == text_lt(a@, b@),
{
    let na = a.unicode_len();
    let nb = b.unicode_len();
    let mut i: usize = 0;
    while i < na && i < nb && a.get_char(i) == b.get_char(i)
        invariant
            0 <= i <= na,
            i <= nb,
            na == a@.len(),
            nb == b@.len(),
            forall|j: int| 0 <= j < i ==> #[trigger] a@[j] == b@[j],
        decreases na - i,
    {
        i = i + 1;
    }
    if i == na {
        if i < nb {
            assert(diverge_at(a@, b@, i as int));
            true
        } else {
            assert(a@ =~= b@);
            false
        }
    } else if i == nb {
        assert forall|k: int| !diverge_at(a@, b@, k) by {
            if 0 <= k < i {
                assert(a@[k] == b@[k]);
            }
        }
        false
    } else {
        let ca = a.get_char(i);
        let cb = b.get_char(i);
        if (ca as u32) < (cb as u32) {
            assert(diverge_at(a@, b@, i as int));
            true
        } else {
            assert forall|k: int| !diverge_at(a@, b@, k) by {
                if 0 <= k < i {
                    assert(a@[k] == b@[k]);
                }
                if k > i && diverge_at(a@, b@, k) {
                    assert(a@[i as int] == b@[i as int]);
                }
            }
            false
        }
    }
}

proof fn lemma_leading_stops(s: Seq<char>)
    ensures
        leading_whitespace(s) <= s.len(),
        leading_whitespace(s) < s.len() ==> !char_is_whitespace(s[leading_whitespace(s) as int]),
        forall|p: int| 0 <= p < leading_whitespace(s) ==> char_is_whitespace(#[trigger] s[p]),
    decreases s.len(),
{
    if s.len() > 0 && char_is_whitespace(s[0]) {
        let t = s.drop_first();
        lemma_leading_stops(t);
        assert forall|p: int| 0 <= p < leading_whitespace(s) implies char_is_whitespace(
            #[trigger] s[p],
        ) by {
            if p > 0 {
                assert(s[p] == t[p - 1]);
            }
        }
        if leading_whitespace(s) < s.len() {
            assert(s[leading_whitespace(s) as int] == t[leading_whitespace(t) as int]);
        }
    }
}

proof fn lemma_trailing_stops(s: Seq<char>)
    ensures
        trailing_whitespace(s) <= s.len(),
        trailing_whitespace(s) < s.len() ==> !char_is_whitespace(
            s[s.len() - trailing_whitespace(s) - 1],
        ),
        forall|p: int|
            s.len() - trailing_whitespace(s) <= p < s.len() ==> char_is_whitespace(#[trigger] s[p]),
    decreases s.len(),
{
    if s.len() > 0 && char_is_whitespace(s.last()) {
        let t = s.drop_last();
        lemma_trailing_stops(t);
        assert forall|p: int|
            s.len() - trailing_whitespace(s) <= p < s.len() implies char_is_whitespace(
            #[trigger] s[p],
        ) by {
            if p < s.len() - 1 {
                assert(s[p] == t[p]);
            }
        }
        if trailing_whitespace(s) < s.len() {
            assert(s[s.len() - trailing_whitespace(s) - 1] == t[t.len() - trailing_whitespace(t)
                - 1]);
        }
    }
}

/// Trimming a trimmed text changes nothing.
pub proof fn lemma_trim_idempotent(s: Seq<char>)
    ensures
        trim_chars(trim_chars(s)) == trim_chars(s),
{
    let t = trim_chars(s);
    lemma_leading_stops(s);
    lemma_trailing_stops(s);
    if t.len() == 0 {
        assert(leading_whitespace(t) == 0);
    } else {
        let a = leading_whitespace(s) as int;
        let b = s.len() - trailing_whitespace(s);
        assert(a < s.len());
        assert(!char_is_whitespace(s[a]));
        assert(a < b);
        assert(t == s.subrange(a, b));
        assert(t[0] == s[a]);
        lemma_leading_whitespace(t, 0);
        assert(t[t.len() - 1] == s[b - 1]);
        lemma_trailing_whitespace(t, t.len() as int);
        assert(t.subrange(0, t.len() as int) =~= t);
    }
}

} // verus!
