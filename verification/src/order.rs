//! Ordering of rows by multi-part text keys, the way the store's queries
//! order their results (`ORDER BY a DESC, b ASC, ...` over text columns,
//! compared by code point as SQLite's binary collation does).
use vstd::prelude::*;

verus! {

/// Strict lexicographic order of character sequences by code point.
pub open spec fn text_lt(a: Seq<char>, b: Seq<char>) -> bool
    decreases a.len(),
{
    if a.len() == 0 {
        b.len() > 0
    } else if b.len() == 0 {
        false
    } else if a[0] != b[0] {
        (a[0] as u32) < (b[0] as u32)
    } else {
        text_lt(a.drop_first(), b.drop_first())
    }
}

/// `a <= b` in the lexicographic order.
pub open spec fn text_le(a: Seq<char>, b: Seq<char>) -> bool {
    !text_lt(b, a)
}

/// Exactly one of `a < b`, `a == b`, `b < a`.
pub proof fn lemma_text_trichotomy(a: Seq<char>, b: Seq<char>)
    ensures
        text_lt(a, b) || a == b || text_lt(b, a),
        !(text_lt(a, b) && text_lt(b, a)),
        !text_lt(a, a),
    decreases a.len(),
{
    if a.len() > 0 && b.len() > 0 {
        lemma_text_trichotomy(a.drop_first(), b.drop_first());
        if a[0] == b[0] && a.drop_first() == b.drop_first() {
            assert(a =~= b) by {
                assert forall|i: int| 0 <= i < a.len() implies a[i] == b[i] by {
                    if i > 0 {
                        assert(a[i] == a.drop_first()[i - 1]);
                        assert(b[i] == b.drop_first()[i - 1]);
                    }
                }
            }
        }
        if a[0] != b[0] {
            vstd::utf8::char_u32_cast(a[0], a[0] as u32);
            vstd::utf8::char_u32_cast(b[0], b[0] as u32);
            assert((a[0] as u32) != (b[0] as u32));
        }
    }
    if a.len() > 0 {
        lemma_text_trichotomy(a.drop_first(), a.drop_first());
    }
    if a.len() == 0 && b.len() == 0 {
        assert(a == b);
    }
}

/// `<` on texts is transitive.
pub proof fn lemma_text_trans(a: Seq<char>, b: Seq<char>, c: Seq<char>)
    requires
        text_lt(a, b),
        text_lt(b, c),
    ensures
        text_lt(a, c),
    decreases a.len(),
{
    if a.len() > 0 && b.len() > 0 && c.len() > 0 && a[0] == b[0] && b[0] == c[0] {
        lemma_text_trans(a.drop_first(), b.drop_first(), c.drop_first());
    }
}

/// Compares `a` and `b`: -1 when `a < b`, 0 when equal, 1 when `b < a`.
pub fn text_order(a: &[char], b: &[char]) -> (r: i8)
    ensures
        r == -1 <==> text_lt(a@, b@),
        r == 0 <==> a@ == b@,
        r == 1 <==> text_lt(b@, a@),
{
    proof {
        lemma_text_trichotomy(a@, b@);
    }
    let mut i: usize = 0;
    assert(a@.skip(0) == a@);
    assert(b@.skip(0) == b@);
    while i < a.len() && i < b.len() && a[i] == b[i]
        invariant
            i <= a@.len(),
            i <= b@.len(),
            a@.take(i as int) == b@.take(i as int),
            text_lt(a@, b@) == text_lt(a@.skip(i as int), b@.skip(i as int)),
            text_lt(b@, a@) == text_lt(b@.skip(i as int), a@.skip(i as int)),
        decreases a.len() - i,
    {
        assert(a@.skip(i as int).drop_first() == a@.skip(i + 1));
        assert(b@.skip(i as int).drop_first() == b@.skip(i + 1));
        assert(a@.take(i + 1) == a@.take(i as int).push(a@[i as int]));
        assert(b@.take(i + 1) == b@.take(i as int).push(b@[i as int]));
        i = i + 1;
    }
    if i == a.len() && i == b.len() {
        assert(a@ == a@.take(i as int));
        assert(b@ == b@.take(i as int));
        0
    } else if i == a.len() {
        -1
    } else if i == b.len() {
        assert(b@ == b@.take(i as int));
        assert(a@ != b@);
        1
    } else if (a[i] as u32) < (b[i] as u32) {
        assert(a@[i as int] != b@[i as int]);
        -1
    } else {
        assert(a@[i as int] != b@[i as int]);
        1
    }
}

/// Part `k` onward of key `a` sorts strictly before that of key `b`;
/// `desc[k]` reverses the order of part `k`.
pub open spec fn key_lt_from(a: Seq<Seq<char>>, b: Seq<Seq<char>>, desc: Seq<bool>, k: int) -> bool
    decreases desc.len() - k,
{
    if k < 0 || k >= desc.len() {
        false
    } else if (if desc[k] {
        text_lt(b[k], a[k])
    } else {
        text_lt(a[k], b[k])
    }) {
        true
    } else if a[k] == b[k] {
        key_lt_from(a, b, desc, k + 1)
    } else {
        false
    }
}

/// Key `a` sorts strictly before key `b`.
pub open spec fn key_lt(a: Seq<Seq<char>>, b: Seq<Seq<char>>, desc: Seq<bool>) -> bool {
    key_lt_from(a, b, desc, 0)
}

/// Keys `a` and `b` agree on every part that orders.
pub open spec fn key_same_from(a: Seq<Seq<char>>, b: Seq<Seq<char>>, desc: Seq<bool>, k: int) -> bool {
    forall|m: int| k <= m < desc.len() ==> #[trigger] a[m] == b[m]
}

proof fn lemma_key_tri_from(a: Seq<Seq<char>>, b: Seq<Seq<char>>, desc: Seq<bool>, k: int)
    requires
        0 <= k <= desc.len(),
    ensures
        key_lt_from(a, b, desc, k) || key_lt_from(b, a, desc, k) || key_same_from(a, b, desc, k),
        !(key_lt_from(a, b, desc, k) && key_lt_from(b, a, desc, k)),
        !key_lt_from(a, a, desc, k),
    decreases desc.len() - k,
{
    if k < desc.len() {
        lemma_text_trichotomy(a[k], b[k]);
        lemma_text_trichotomy(a[k], a[k]);
        lemma_key_tri_from(a, b, desc, k + 1);
        lemma_key_tri_from(b, a, desc, k + 1);
        lemma_key_tri_from(a, a, desc, k + 1);
        if a[k] == b[k] && key_same_from(a, b, desc, k + 1) {
            assert forall|m: int| k <= m < desc.len() implies #[trigger] a[m] == b[m] by {
                if m > k {
                    assert(a[m] == b[m]);
                }
            }
        }
    }
}

proof fn lemma_key_trans_from(
    a: Seq<Seq<char>>,
    b: Seq<Seq<char>>,
    c: Seq<Seq<char>>,
    desc: Seq<bool>,
    k: int,
)
    requires
        0 <= k <= desc.len(),
    ensures
        key_lt_from(a, b, desc, k) && key_lt_from(b, c, desc, k) ==> key_lt_from(a, c, desc, k),
        key_lt_from(a, b, desc, k) && key_same_from(b, c, desc, k) ==> key_lt_from(a, c, desc, k),
        key_same_from(a, b, desc, k) && key_lt_from(b, c, desc, k) ==> key_lt_from(a, c, desc, k),
    decreases desc.len() - k,
{
    if k < desc.len() {
        lemma_key_trans_from(a, b, c, desc, k + 1);
        if text_lt(a[k], b[k]) && text_lt(b[k], c[k]) {
            lemma_text_trans(a[k], b[k], c[k]);
        }
        if text_lt(c[k], b[k]) && text_lt(b[k], a[k]) {
            lemma_text_trans(c[k], b[k], a[k]);
        }
        lemma_text_trichotomy(a[k], c[k]);
        lemma_text_trichotomy(a[k], b[k]);
        lemma_text_trichotomy(b[k], c[k]);
        if key_same_from(b, c, desc, k) {
            assert(b[k] == c[k]);
            assert(key_same_from(b, c, desc, k + 1));
        }
        if key_same_from(a, b, desc, k) {
            assert(a[k] == b[k]);
            assert(key_same_from(a, b, desc, k + 1));
        }
    }
}

/// `a` sorts no later than `b`.
pub open spec fn key_le(a: Seq<Seq<char>>, b: Seq<Seq<char>>, desc: Seq<bool>) -> bool {
    !key_lt(b, a, desc)
}

/// The key order is a total preorder: `<=` is total and transitive, and
/// `<` cannot hold both ways.
pub proof fn lemma_key_order(a: Seq<Seq<char>>, b: Seq<Seq<char>>, c: Seq<Seq<char>>, desc: Seq<bool>)
    ensures
        key_le(a, b, desc) || key_le(b, a, desc),
        key_le(a, a, desc),
        key_lt(a, b, desc) ==> key_le(a, b, desc),
        key_le(a, b, desc) && key_le(b, c, desc) ==> key_le(a, c, desc),
        key_lt(a, b, desc) && key_le(b, c, desc) ==> key_lt(a, c, desc),
{
    lemma_key_tri_from(a, b, desc, 0);
    lemma_key_tri_from(b, c, desc, 0);
    lemma_key_tri_from(a, c, desc, 0);
    lemma_key_tri_from(a, a, desc, 0);
    lemma_key_trans_from(a, b, c, desc, 0);
    lemma_key_trans_from(c, a, b, desc, 0);
    lemma_key_trans_from(b, c, a, desc, 0);
    lemma_key_trans_from(c, b, a, desc, 0);
    lemma_key_trans_from(a, c, b, desc, 0);
    lemma_key_trans_from(b, a, c, desc, 0);
    if key_same_from(b, c, desc, 0) && key_same_from(a, b, desc, 0) {
        assert(key_same_from(a, c, desc, 0));
    }
    if key_same_from(a, b, desc, 0) && key_same_from(c, a, desc, 0) {
        assert(key_same_from(c, b, desc, 0));
    }
    if key_same_from(b, c, desc, 0) && key_same_from(c, a, desc, 0) {
        assert(key_same_from(b, a, desc, 0));
    }
    if key_same_from(a, b, desc, 0) {
        assert(key_same_from(b, a, desc, 0));
    }
    if key_same_from(b, c, desc, 0) {
        assert(key_same_from(c, b, desc, 0));
    }
}

/// The key of a row: one text per ordering column.
pub struct SortKey {
    pub parts: Vec<Vec<char>>,
}

impl SortKey {
    /// The parts as character sequences.
    pub open spec fn view_parts(&self) -> Seq<Seq<char>> {
        self.parts@.map_values(|v: Vec<char>| v@)
    }
}

/// Compares two keys: true when `a` sorts strictly before `b`.
pub fn key_lt_exec(a: &SortKey, b: &SortKey, desc: &[bool]) -> (r: bool)
    requires
        a.parts@.len() >= desc@.len(),
        b.parts@.len() >= desc@.len(),
    ensures
        r == key_lt(a.view_parts(), b.view_parts(), desc@),
{
    let ghost av = a.view_parts();
    let ghost bv = b.view_parts();
    let mut k: usize = 0;
    while k < desc.len()
        invariant
            k <= desc@.len(),
            a.parts@.len() >= desc@.len(),
            b.parts@.len() >= desc@.len(),
            av == a.view_parts(),
            bv == b.view_parts(),
            key_lt(av, bv, desc@) == key_lt_from(av, bv, desc@, k as int),
        decreases desc.len() - k,
    {
        let o = text_order(a.parts[k].as_slice(), b.parts[k].as_slice());
        assert(av[k as int] == a.parts@[k as int]@);
        assert(bv[k as int] == b.parts@[k as int]@);
        if o != 0 {
            let lt = if desc[k] { o == 1 } else { o == -1 };
            return lt;
        }
        k = k + 1;
    }
    false
}

/// The positions `order` list the keys in non-decreasing key order.
pub open spec fn sorted_by(keys: Seq<Seq<Seq<char>>>, order: Seq<usize>, desc: Seq<bool>) -> bool {
    forall|p: int, q: int|
        0 <= p < q < order.len() ==> key_le(
            #[trigger] keys[order[p] as int],
            #[trigger] keys[order[q] as int],
            desc,
        )
}

/// `order` lists each of `0..n` exactly once.
pub open spec fn is_permutation(order: Seq<usize>, n: nat) -> bool {
    &&& order.len() == n
    &&& forall|p: int| 0 <= p < order.len() ==> order[p] < n
    &&& forall|p: int, q: int| 0 <= p < q < order.len() ==> order[p] != order[q]
}

/// A stable sort of the row positions `0..keys.len()` by key.
pub fn sort_order(keys: &Vec<SortKey>, desc: &[bool]) -> (order: Vec<usize>)
    requires
        forall|i: int| 0 <= i < keys@.len() ==> keys@[i].parts@.len() >= desc@.len(),
    ensures
        is_permutation(order@, keys@.len()),
        sorted_by(keys@.map_values(|k: SortKey| k.view_parts()), order@, desc@),
{
    let ghost kv = keys@.map_values(|k: SortKey| k.view_parts());
    let mut order: Vec<usize> = Vec::new();
    let mut i: usize = 0;
    while i < keys.len()
        invariant
            i <= keys@.len(),
            kv == keys@.map_values(|k: SortKey| k.view_parts()),
            forall|j: int| 0 <= j < keys@.len() ==> keys@[j].parts@.len() >= desc@.len(),
            is_permutation(order@, i as nat),
            sorted_by(kv, order@, desc@),
        decreases keys.len() - i,
    {
        let mut p: usize = 0;
        while p < order.len() && !key_lt_exec(&keys[i], &keys[order[p]], desc)
            invariant
                i < keys@.len(),
                p <= order@.len(),
                kv == keys@.map_values(|k: SortKey| k.view_parts()),
                forall|j: int| 0 <= j < keys@.len() ==> keys@[j].parts@.len() >= desc@.len(),
                is_permutation(order@, i as nat),
                forall|q: int| 0 <= q < p ==> key_le(#[trigger] kv[order@[q] as int], kv[i as int], desc@),
            decreases order.len() - p,
        {
            p = p + 1;
        }
        let ghost old_order = order@;
        order.insert(p, i);
        proof {
            assert forall|a: int, b: int| 0 <= a < b < order@.len() implies key_le(
                #[trigger] kv[order@[a] as int],
                #[trigger] kv[order@[b] as int],
                desc@,
            ) by {
                if a < p as int && b < p as int {
                    assert(order@[a] == old_order[a] && order@[b] == old_order[b]);
                } else if a < p as int && b == p as int {
                } else if a < p as int {
                    assert(order@[a] == old_order[a] && order@[b] == old_order[b - 1]);
                } else if a == p as int {
                    assert(order@[b] == old_order[b - 1]);
                    assert(key_lt(kv[i as int], kv[old_order[p as int] as int], desc@));
                    if b - 1 > p as int {
                        assert(key_le(kv[old_order[p as int] as int], kv[old_order[b - 1] as int], desc@));
                    }
                    lemma_key_order(kv[i as int], kv[old_order[p as int] as int], kv[old_order[b - 1] as int], desc@);
                } else {
                    assert(order@[a] == old_order[a - 1] && order@[b] == old_order[b - 1]);
                }
            }
            assert forall|a: int| 0 <= a < order@.len() implies order@[a] < i + 1 by {
                if a < p as int {
                    assert(order@[a] == old_order[a]);
                } else if a > p as int {
                    assert(order@[a] == old_order[a - 1]);
                }
            }
            assert forall|a: int, b: int| 0 <= a < b < order@.len() implies order@[a] != order@[b] by {
                if a < p as int && b < p as int {
                    assert(order@[a] == old_order[a] && order@[b] == old_order[b]);
                } else if a < p as int && b == p as int {
                    assert(order@[a] == old_order[a]);
                } else if a < p as int {
                    assert(order@[a] == old_order[a] && order@[b] == old_order[b - 1]);
                } else if a == p as int {
                    assert(order@[b] == old_order[b - 1]);
                } else {
                    assert(order@[a] == old_order[a - 1] && order@[b] == old_order[b - 1]);
                }
            }
        }
        i = i + 1;
    }
    order
}


/// `r` lists the elements of `s` in some order, each once.
pub open spec fn is_reordering<T>(r: Seq<T>, s: Seq<T>) -> bool {
    exists|order: Seq<usize>|
        #[trigger] is_permutation(order, s.len()) && r.len() == s.len() && forall|p: int|
            0 <= p < r.len() ==> r[p] == s[order[p] as int]
}

/// The rows of `rows` in the order `order` gives.
pub fn reorder<T>(rows: Vec<T>, order: &Vec<usize>) -> (r: Vec<T>)
    requires
        is_permutation(order@, rows@.len()),
    ensures
        r@.len() == rows@.len(),
        forall|p: int| 0 <= p < r@.len() ==> r@[p] == rows@[order@[p] as int],
{
    let ghost orig = rows@;
    let mut slots: Vec<Option<T>> = Vec::new();
    let mut rows = rows;
    let n = rows.len();
    while rows.len() > 0
        invariant
            rows@.len() + slots@.len() == n,
            n == orig.len(),
            rows@ == orig.take(rows@.len() as int),
            forall|i: int| 0 <= i < slots@.len() ==> slots@[i] == Some(orig[n - 1 - i]),
        decreases rows.len(),
    {
        let x = rows.pop().unwrap();
        slots.push(Some(x));
    }
    // slots holds the rows in reverse order
    let mut out: Vec<T> = Vec::new();
    let mut p: usize = 0;
    while p < order.len()
        invariant
            p <= order@.len(),
            is_permutation(order@, n as nat),
            n == orig.len(),
            slots@.len() == n,
            out@.len() == p,
            forall|q: int| 0 <= q < p ==> out@[q] == orig[order@[q] as int],
            forall|i: int|
                0 <= i < n ==> ((exists|q: int| 0 <= q < p && order@[q] == n - 1 - i) ==> slots@[i]
                    is None),
            forall|i: int|
                0 <= i < n ==> (!(exists|q: int| 0 <= q < p && order@[q] == n - 1 - i) ==> slots@[i]
                    == Some(orig[n - 1 - i])),
        decreases order.len() - p,
    {
        let idx = order[p];
        let slot = n - 1 - idx;
        let mut tmp: Option<T> = None;
        proof {
            assert(!(exists|q: int| 0 <= q < p && order@[q] == n - 1 - slot)) by {
                if exists|q: int| 0 <= q < p && order@[q] == n - 1 - slot {
                    let q = choose|q: int| 0 <= q < p && order@[q] == n - 1 - slot;
                    assert(order@[q] != order@[p as int]);
                }
            }
        }
        slots.set_and_swap(slot, &mut tmp);
        match tmp {
            Some(x) => {
                out.push(x);
            },
            None => {
                assert(false);
            },
        }
        proof {
            assert forall|i: int|
                0 <= i < n && (exists|q: int| 0 <= q < p + 1 && order@[q] == n - 1 - i) implies slots@[i]
                is None by {
                let q = choose|q: int| 0 <= q < p + 1 && order@[q] == n - 1 - i;
                if q < p {
                } else {
                    assert(i == slot);
                }
            }
            assert forall|i: int|
                0 <= i < n && !(exists|q: int| 0 <= q < p + 1 && order@[q] == n - 1 - i) implies slots@[i]
                == Some(orig[n - 1 - i]) by {
                assert(!(exists|q: int| 0 <= q < p && order@[q] == n - 1 - i)) by {
                    if exists|q: int| 0 <= q < p && order@[q] == n - 1 - i {
                        let q = choose|q: int| 0 <= q < p && order@[q] == n - 1 - i;
                        assert(0 <= q < p + 1);
                    }
                }
                assert(order@[p as int] != n - 1 - i);
            }
        }
        p = p + 1;
    }
    out
}

/// `rows` sorted by their keys: `keys[i]` is the key of `rows[i]`, and
/// `key_of` gives each row's key.
pub fn sort_rows<T>(
    rows: Vec<T>,
    keys: &Vec<SortKey>,
    desc: &[bool],
    Ghost(key_of): Ghost<spec_fn(T) -> Seq<Seq<char>>>,
) -> (r: Vec<T>)
    requires
        keys@.len() == rows@.len(),
        forall|i: int| 0 <= i < keys@.len() ==> keys@[i].parts@.len() >= desc@.len(),
        forall|i: int| 0 <= i < keys@.len() ==> #[trigger] keys@[i].view_parts() == key_of(rows@[i]),
    ensures
        is_reordering(r@, rows@),
        forall|p: int, q: int|
            0 <= p < q < r@.len() ==> key_le(key_of(#[trigger] r@[p]), key_of(#[trigger] r@[q]), desc@),
{
    let ghost orig = rows@;
    let order = sort_order(keys, desc);
    let ghost kv = keys@.map_values(|k: SortKey| k.view_parts());
    let r = reorder(rows, &order);
    proof {
        assert forall|p: int, q: int| 0 <= p < q < r@.len() implies key_le(
            key_of(#[trigger] r@[p]),
            key_of(#[trigger] r@[q]),
            desc@,
        ) by {
            assert(kv[order@[p] as int] == keys@[order@[p] as int].view_parts());
            assert(kv[order@[q] as int] == keys@[order@[q] as int].view_parts());
        }
        assert(is_permutation(order@, orig.len()));
    }
    r
}


/// Reordering commutes with mapping.
pub proof fn lemma_reordering_map<T, U>(r: Seq<T>, s: Seq<T>, f: spec_fn(T) -> U)
    requires
        is_reordering(r, s),
    ensures
        is_reordering(r.map_values(f), s.map_values(f)),
{
    let order = choose|order: Seq<usize>|
        #[trigger] is_permutation(order, s.len()) && r.len() == s.len() && forall|p: int|
            0 <= p < r.len() ==> r[p] == s[order[p] as int];
    assert(is_permutation(order, s.map_values(f).len()));
    assert forall|p: int| 0 <= p < r.map_values(f).len() implies r.map_values(f)[p] == s.map_values(f)[order[p] as int] by {
        assert(r[p] == s[order[p] as int]);
    }
}

} // verus!
