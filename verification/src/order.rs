//! Orders on texts and sort keys, and a stable sort of positions by key.

use vstd::prelude::*;
use crate::text::{chars_of, str_eq};

verus! {

/// `a` comes no later than `b` in the order of `str`: character by character,
/// a prefix first.
pub open spec fn text_le(a: Seq<char>, b: Seq<char>) -> bool
    decreases a.len(),
{
    if a.len() == 0 {
        true
    } else if b.len() == 0 {
        false
    } else if a[0] != b[0] {
        a[0] < b[0]
    } else {
        text_le(a.drop_first(), b.drop_first())
    }
}

/// `a` comes strictly before `b` in the order of `str`.
pub open spec fn text_lt(a: Seq<char>, b: Seq<char>) -> bool {
    text_le(a, b) && a != b
}

pub proof fn lemma_text_le_total(a: Seq<char>, b: Seq<char>)
    ensures
        text_le(a, b) || text_le(b, a),
    decreases a.len(),
{
    if a.len() > 0 && b.len() > 0 && a[0] == b[0] {
        lemma_text_le_total(a.drop_first(), b.drop_first());
    }
}

pub proof fn lemma_text_le_antisym(a: Seq<char>, b: Seq<char>)
    requires
        text_le(a, b),
        text_le(b, a),
    ensures
        a == b,
    decreases a.len(),
{
    if a.len() == 0 {
        assert(a =~= b);
    } else {
        lemma_text_le_antisym(a.drop_first(), b.drop_first());
        assert forall|i: int| 0 <= i < a.len() implies a[i] == b[i] by {
            if i > 0 {
                assert(a[i] == a.drop_first()[i - 1]);
                assert(b[i] == b.drop_first()[i - 1]);
            }
        }
        assert(a =~= b);
    }
}

pub proof fn lemma_text_le_trans(a: Seq<char>, b: Seq<char>, c: Seq<char>)
    requires
        text_le(a, b),
        text_le(b, c),
    ensures
        text_le(a, c),
    decreases a.len(),
{
    if a.len() > 0 && a[0] == b[0] && b[0] == c[0] {
        lemma_text_le_trans(a.drop_first(), b.drop_first(), c.drop_first());
    }
}

pub proof fn lemma_text_lt_trans(a: Seq<char>, b: Seq<char>, c: Seq<char>)
    requires
        text_le(a, b),
        text_le(b, c),
        text_lt(a, b) || text_lt(b, c),
    ensures
        text_lt(a, c),
{
    lemma_text_le_trans(a, b, c);
    if a == c {
        lemma_text_le_antisym(a, b);
        lemma_text_le_antisym(b, c);
    }
}

/// Whether `a` comes no later than `b` in the order of `str`.
pub fn str_le(a: &str, b: &str) -> (r: bool)
    ensures
        r == text_le(a@, b@),
{
    let va = chars_of(a);
    let vb = chars_of(b);
    let mut i: usize = 0;
    assert(a@.skip(0) == a@);
    assert(b@.skip(0) == b@);
    while i < va.len() && i < vb.len() && va[i] == vb[i]
        invariant
            i <= va@.len(),
            i <= vb@.len(),
            va@ == a@,
            vb@ == b@,
            forall|j: int| 0 <= j < i ==> va@[j] == vb@[j],
            text_le(a@, b@) == text_le(a@.skip(i as int), b@.skip(i as int)),
        decreases va@.len() - i,
    {
        proof {
            assert(a@.skip(i as int).drop_first() == a@.skip(i + 1));
            assert(b@.skip(i as int).drop_first() == b@.skip(i + 1));
        }
        i = i + 1;
    }
    if i == va.len() {
        true
    } else if i == vb.len() {
        false
    } else {
        va[i] < vb[i]
    }
}

/// A sort key: compared by `class`, then `major`, then `minor`, then `text`.
pub struct SortKey {
    pub class: u8,
    pub major: i64,
    pub minor: u64,
    pub text: String,
}

pub struct KeyView {
    pub class: u8,
    pub major: i64,
    pub minor: u64,
    pub text: Seq<char>,
}

impl View for SortKey {
    type V = KeyView;

    open spec fn view(&self) -> KeyView {
        KeyView { class: self.class, major: self.major, minor: self.minor, text: self.text@ }
    }
}

pub open spec fn key_views(ks: Seq<SortKey>) -> Seq<KeyView> {
    ks.map_values(|k: SortKey| k@)
}

/// `x` comes strictly before `y`.
pub open spec fn key_lt(x: KeyView, y: KeyView) -> bool {
    ||| x.class < y.class
    ||| x.class == y.class && x.major < y.major
    ||| x.class == y.class && x.major == y.major && x.minor < y.minor
    ||| x.class == y.class && x.major == y.major && x.minor == y.minor && text_lt(x.text, y.text)
}

pub proof fn lemma_key_lt_total(x: KeyView, y: KeyView)
    ensures
        x == y || key_lt(x, y) || key_lt(y, x),
{
    lemma_text_le_total(x.text, y.text);
}

pub proof fn lemma_key_lt_trans(x: KeyView, y: KeyView, z: KeyView)
    requires
        key_lt(x, y),
        key_lt(y, z),
    ensures
        key_lt(x, z),
{
    if x.class == z.class && x.major == z.major && x.minor == z.minor {
        lemma_text_lt_trans(x.text, y.text, z.text);
    }
}

pub proof fn lemma_key_lt_irrefl(x: KeyView)
    ensures
        !key_lt(x, x),
{
}

/// Whether `x` comes strictly before `y`.
pub fn key_less(x: &SortKey, y: &SortKey) -> (r: bool)
    ensures
        r == key_lt(x@, y@),
{
    if x.class != y.class {
        x.class < y.class
    } else if x.major != y.major {
        x.major < y.major
    } else if x.minor != y.minor {
        x.minor < y.minor
    } else {
        str_le(x.text.as_str(), y.text.as_str()) && !str_eq(x.text.as_str(), y.text.as_str())
    }
}

/// Whether `x` and `y` are the same key.
pub fn key_same(x: &SortKey, y: &SortKey) -> (r: bool)
    ensures
        r == (x@ == y@),
{
    x.class == y.class && x.major == y.major && x.minor == y.minor && str_eq(x.text.as_str(), y.text.as_str())
}

/// Position `i` goes before position `j` in a stable sort of `ks`, ascending
/// or (`desc`) descending: its key comes first, or the keys are the same and
/// `i` came first.
pub open spec fn goes_before(ks: Seq<KeyView>, desc: bool, i: int, j: int) -> bool {
    ||| (if desc { key_lt(ks[j], ks[i]) } else { key_lt(ks[i], ks[j]) })
    ||| ks[i] == ks[j] && i < j
}

pub proof fn lemma_goes_before_total(ks: Seq<KeyView>, desc: bool, i: int, j: int)
    requires
        i != j,
    ensures
        goes_before(ks, desc, i, j) || goes_before(ks, desc, j, i),
{
    lemma_key_lt_total(ks[i], ks[j]);
}

pub proof fn lemma_goes_before_trans(ks: Seq<KeyView>, desc: bool, i: int, j: int, k: int)
    requires
        goes_before(ks, desc, i, j),
        goes_before(ks, desc, j, k),
    ensures
        goes_before(ks, desc, i, k),
{
    if desc {
        if key_lt(ks[j], ks[i]) && key_lt(ks[k], ks[j]) {
            lemma_key_lt_trans(ks[k], ks[j], ks[i]);
        }
    } else {
        if key_lt(ks[i], ks[j]) && key_lt(ks[j], ks[k]) {
            lemma_key_lt_trans(ks[i], ks[j], ks[k]);
        }
    }
}

/// `perm` lists every position of `ks` once, in the order of a stable sort.
pub open spec fn is_stable_order(ks: Seq<KeyView>, desc: bool, perm: Seq<usize>) -> bool {
    &&& perm.len() == ks.len()
    &&& forall|a: int| 0 <= a < perm.len() ==> perm[a] < ks.len()
    &&& forall|j: int| 0 <= j < ks.len() ==> #[trigger] perm.contains(j as usize)
    &&& forall|a: int, b: int|
        0 <= a < b < perm.len() ==> goes_before(ks, desc, #[trigger] perm[a] as int, #[trigger] perm[b] as int)
}

/// Whether position `i` goes before position `j`.
fn goes_before_exec(keys: &Vec<SortKey>, desc: bool, i: usize, j: usize) -> (r: bool)
    requires
        i < keys@.len(),
        j < keys@.len(),
    ensures
        r == goes_before(key_views(keys@), desc, i as int, j as int),
{
    let strict = if desc {
        key_less(&keys[j], &keys[i])
    } else {
        key_less(&keys[i], &keys[j])
    };
    strict || (key_same(&keys[i], &keys[j]) && i < j)
}

/// The positions of `keys` in the order of a stable sort, ascending or
/// (`desc`) descending.
pub fn stable_order(keys: &Vec<SortKey>, desc: bool) -> (perm: Vec<usize>)
    ensures
        is_stable_order(key_views(keys@), desc, perm@),
{
    let ghost ks = key_views(keys@);
    let mut out: Vec<usize> = Vec::new();
    let mut i: usize = 0;
    while i < keys.len()
        invariant
            i <= keys@.len(),
            ks == key_views(keys@),
            out@.len() == i,
            forall|a: int| 0 <= a < out@.len() ==> out@[a] < i,
            forall|j: int| 0 <= j < i ==> #[trigger] out@.contains(j as usize),
            forall|a: int, b: int|
                0 <= a < b < out@.len() ==> goes_before(ks, desc, #[trigger] out@[a] as int, #[trigger] out@[b] as int),
        decreases keys@.len() - i,
    {
        let mut q: usize = 0;
        while q < out.len() && !goes_before_exec(keys, desc, i, out[q])
            invariant
                q <= out@.len(),
                i < keys@.len(),
                ks == key_views(keys@),
                forall|a: int| 0 <= a < out@.len() ==> out@[a] < i,
                forall|a: int| 0 <= a < q ==> !goes_before(ks, desc, i as int, #[trigger] out@[a] as int),
            decreases out@.len() - q,
        {
            q = q + 1;
        }
        let ghost old_out = out@;
        out.insert(q, i);
        proof {
            assert(out@ == old_out.insert(q as int, i));
            assert forall|a: int, b: int| 0 <= a < b < out@.len() implies goes_before(
                ks,
                desc,
                #[trigger] out@[a] as int,
                #[trigger] out@[b] as int,
            ) by {
                if b < q {
                    assert(out@[a] == old_out[a] && out@[b] == old_out[b]);
                } else if a > q {
                    assert(out@[a] == old_out[a - 1] && out@[b] == old_out[b - 1]);
                } else if a < q && b > q {
                    assert(out@[a] == old_out[a] && out@[b] == old_out[b - 1]);
                } else if b == q {
                    assert(out@[a] == old_out[a]);
                    assert(!goes_before(ks, desc, i as int, old_out[a] as int));
                    lemma_goes_before_total(ks, desc, i as int, old_out[a] as int);
                } else {
                    assert(a == q);
                    assert(out@[b] == old_out[b - 1]);
                    assert(goes_before(ks, desc, i as int, old_out[q as int] as int));
                    if b - 1 > q {
                        assert(goes_before(ks, desc, old_out[q as int] as int, old_out[b - 1] as int));
                        lemma_goes_before_trans(ks, desc, i as int, old_out[q as int] as int, old_out[b - 1] as int);
                    }
                }
            }
            assert forall|j: int| 0 <= j < i + 1 implies #[trigger] out@.contains(j as usize) by {
                if j < i {
                    assert(old_out.contains(j as usize));
                    let k = choose|k: int| 0 <= k < old_out.len() && old_out[k] == j as usize;
                    if k < q {
                        assert(out@[k] == j as usize);
                    } else {
                        assert(out@[k + 1] == j as usize);
                    }
                } else {
                    assert(out@[q as int] == i);
                }
            }
        }
        i = i + 1;
    }
    out
}

proof fn lemma_goes_before_asym(ks: Seq<KeyView>, desc: bool, i: int, j: int)
    requires
        goes_before(ks, desc, i, j),
    ensures
        !goes_before(ks, desc, j, i),
{
    if goes_before(ks, desc, j, i) {
        lemma_goes_before_trans(ks, desc, i, j, i);
        lemma_key_lt_irrefl(ks[i]);
    }
}

proof fn lemma_first_difference(p: Seq<usize>, q: Seq<usize>, k: int) -> (a: int)
    requires
        0 <= k <= p.len(),
        p.len() == q.len(),
        forall|j: int| 0 <= j < k ==> p[j] == q[j],
        exists|b: int| k <= b < p.len() && p[b] != q[b],
    ensures
        k <= a < p.len(),
        p[a] != q[a],
        forall|j: int| 0 <= j < a ==> p[j] == q[j],
    decreases p.len() - k,
{
    if p[k] != q[k] {
        k
    } else {
        lemma_first_difference(p, q, k + 1)
    }
}

/// A stable sort has one outcome: two orders that both list every position
/// once in stable-sort order are the same.
pub proof fn law_stable_order_unique(ks: Seq<KeyView>, desc: bool, p: Seq<usize>, q: Seq<usize>)
    requires
        is_stable_order(ks, desc, p),
        is_stable_order(ks, desc, q),
    ensures
        p == q,
{
    if exists|b: int| 0 <= b < p.len() && p[b] != q[b] {
        let a = lemma_first_difference(p, q, 0);
        let x = p[a];
        let y = q[a];
        assert(q.contains(x as int as usize));
        let b = choose|b: int| 0 <= b < q.len() && q[b] == x;
        assert(p.contains(y as int as usize));
        let c = choose|c: int| 0 <= c < p.len() && p[c] == y;
        lemma_key_lt_irrefl(ks[x as int]);
        lemma_key_lt_irrefl(ks[y as int]);
        if b < a {
            assert(p[b] == x);
            assert(goes_before(ks, desc, p[b] as int, p[a] as int));
        }
        if c < a {
            assert(q[c] == y);
            assert(goes_before(ks, desc, q[c] as int, q[a] as int));
        }
        assert(b > a && c > a);
        assert(goes_before(ks, desc, q[a] as int, q[b] as int));
        assert(goes_before(ks, desc, p[a] as int, p[c] as int));
        lemma_goes_before_asym(ks, desc, x as int, y as int);
    }
    assert(p =~= q);
}

} // verus!
