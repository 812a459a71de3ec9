//! Verified string comparison and lexicographic sorting.

use vstd::prelude::*;
use vstd::string::StrSliceExecFns;
use vstd::multiset::Multiset;

verus! {

/// The views of a sequence of strings.
pub open spec fn views(s: Seq<String>) -> Seq<Seq<char>> {
    s.map_values(|t: String| t@)
}

/// Whether two strings hold the same characters.
pub fn str_eq(a: &str, b: &str) -> (r: bool)
    ensures
        r == (a@ == b@),
{
    let alen = a.unicode_len();
    let blen = b.unicode_len();
    if alen != blen {
        return false;
    }
    let mut i: usize = 0;
    while i < alen
        invariant
            i <= alen,
            alen == a@.len(),
            alen == b@.len(),
            forall|j: int| 0 <= j < i ==> a@[j] == b@[j],
        decreases alen - i,
    {
        if a.get_char(i) != b.get_char(i) {
            return false;
        }
        i += 1;
    }
    proof {
        assert(a@ =~= b@);
    }
    true
}

/// Lexicographic comparison by code point, both sequences read from
/// position `i` on; a sequence that runs out first comes first.
pub open spec fn str_le_from(a: Seq<char>, b: Seq<char>, i: int) -> bool
    decreases a.len() - i,
{
    if i >= a.len() || i >= b.len() {
        a.len() <= b.len()
    } else if (a[i] as u32) == (b[i] as u32) {
        str_le_from(a, b, i + 1)
    } else {
        (a[i] as u32) < (b[i] as u32)
    }
}

/// Lexicographic order on character sequences, byte-wise ascending by code
/// point.
pub open spec fn str_le(a: Seq<char>, b: Seq<char>) -> bool {
    str_le_from(a, b, 0)
}

/// Whether `a` comes no later than `b` in lexicographic order.
pub fn str_le_exec(a: &str, b: &str) -> (r: bool)
    ensures
        r == str_le(a@, b@),
{
    let alen = a.unicode_len();
    let blen = b.unicode_len();
    let mut i: usize = 0;
    loop
        invariant
            i <= alen,
            i <= blen,
            alen == a@.len(),
            blen == b@.len(),
            str_le(a@, b@) == str_le_from(a@, b@, i as int),
        decreases alen - i,
    {
        if i >= alen || i >= blen {
            return alen <= blen;
        }
        let ca = a.get_char(i) as u32;
        let cb = b.get_char(i) as u32;
        if ca != cb {
            return ca < cb;
        }
        i += 1;
    }
}

/// `str_le` is total: of any two sequences, one comes no later than the
/// other.
pub proof fn lemma_str_le_total(a: Seq<char>, b: Seq<char>)
    ensures
        str_le(a, b) || str_le(b, a),
{
    lemma_str_le_from_total(a, b, 0);
}

proof fn lemma_str_le_from_total(a: Seq<char>, b: Seq<char>, i: int)
    ensures
        str_le_from(a, b, i) || str_le_from(b, a, i),
    decreases a.len() - i,
{
    if i < a.len() && i < b.len() && (a[i] as u32) == (b[i] as u32) {
        lemma_str_le_from_total(a, b, i + 1);
    }
}

/// `str_le` is transitive.
pub proof fn lemma_str_le_trans(a: Seq<char>, b: Seq<char>, c: Seq<char>)
    requires
        str_le(a, b),
        str_le(b, c),
    ensures
        str_le(a, c),
{
    lemma_str_le_from_trans(a, b, c, 0);
}

proof fn lemma_str_le_from_trans(a: Seq<char>, b: Seq<char>, c: Seq<char>, i: int)
    requires
        str_le_from(a, b, i),
        str_le_from(b, c, i),
    ensures
        str_le_from(a, c, i),
    decreases a.len() - i,
{
    if i < a.len() && i < b.len() && i < c.len() && (a[i] as u32) == (b[i] as u32) && (
    b[i] as u32) == (c[i] as u32) {
        lemma_str_le_from_trans(a, b, c, i + 1);
    }
}

/// Inserts `x` into `s` just before the first element it is below or equal
/// to.
pub open spec fn insert_str(x: Seq<char>, s: Seq<Seq<char>>) -> Seq<Seq<char>>
    decreases s.len(),
{
    if s.len() == 0 {
        seq![x]
    } else if str_le(x, s[0]) {
        seq![x] + s
    } else {
        seq![s[0]] + insert_str(x, s.drop_first())
    }
}

/// Insertion sort: the elements of `s`, in lexicographic order.
pub open spec fn sort_strs(s: Seq<Seq<char>>) -> Seq<Seq<char>>
    decreases s.len(),
{
    if s.len() == 0 {
        Seq::<Seq<char>>::empty()
    } else {
        insert_str(s.last(), sort_strs(s.drop_last()))
    }
}

/// Where the first element not below `x` sits at position `i`, inserting `x`
/// into `s` splices it in exactly there.
proof fn lemma_insert_str_at(x: Seq<char>, s: Seq<Seq<char>>, i: int)
    requires
        0 <= i <= s.len(),
        forall|j: int| 0 <= j < i ==> !str_le(x, #[trigger] s[j]),
        i < s.len() ==> str_le(x, s[i]),
    ensures
        insert_str(x, s) =~= s.subrange(0, i) + seq![x] + s.subrange(i, s.len() as int),
    decreases i,
{
    if i == 0 {
        if s.len() == 0 {
            assert(insert_str(x, s) =~= s.subrange(0, 0) + seq![x] + s.subrange(0, 0));
        }
    } else {
        lemma_insert_str_at(x, s.drop_first(), i - 1);
        assert(s.drop_first().subrange(0, i - 1) =~= s.subrange(1, i));
        assert(s.drop_first().subrange(i - 1, s.drop_first().len() as int) =~= s.subrange(
            i,
            s.len() as int,
        ));
    }
}

/// The position where `x` belongs in the sorted list `list`.
fn insert_pos(list: &Vec<String>, x: &str) -> (i: usize)
    ensures
        i <= list@.len(),
        forall|j: int| 0 <= j < i ==> !str_le(x@, #[trigger] list@[j]@),
        i < list@.len() ==> str_le(x@, list@[i as int]@),
{
    let mut i: usize = 0;
    while i < list.len()
        invariant
            i <= list@.len(),
            forall|j: int| 0 <= j < i ==> !str_le(x@, #[trigger] list@[j]@),
        decreases list@.len() - i,
    {
        if str_le_exec(x, list[i].as_str()) {
            return i;
        }
        i += 1;
    }
    i
}

/// Inserts `x` into the sorted list `list`, keeping the order.
pub fn insert_sorted(list: &mut Vec<String>, x: String)
    ensures
        views(final(list)@) == insert_str(x@, views(old(list)@)),
{
    let i = insert_pos(list, x.as_str());
    let ghost s = views(list@);
    list.insert(i, x);
    proof {
        lemma_insert_str_at(x@, s, i as int);
        assert(views(list@) =~= s.subrange(0, i as int) + seq![x@] + s.subrange(
            i as int,
            s.len() as int,
        ));
    }
}

/// The elements of `list`, sorted lexicographically.
pub fn sort_strings(list: &Vec<String>) -> (r: Vec<String>)
    ensures
        views(r@) == sort_strs(views(list@)),
{
    let mut out: Vec<String> = Vec::new();
    let mut i: usize = 0;
    while i < list.len()
        invariant
            i <= list@.len(),
            views(out@) == sort_strs(views(list@.take(i as int))),
        decreases list@.len() - i,
    {
        let x = list[i].clone();
        insert_sorted(&mut out, x);
        proof {
            assert(views(list@.take(i as int + 1)).drop_last() =~= views(list@.take(i as int)));
            assert(views(list@.take(i as int + 1)).last() == list@[i as int]@);
        }
        i += 1;
    }
    proof {
        assert(list@.take(list@.len() as int) =~= list@);
    }
    out
}

/// Whether some element of `list` holds the characters of `x`.
pub fn contains_str(list: &Vec<String>, x: &str) -> (r: bool)
    ensures
        r == views(list@).contains(x@),
{
    let mut i: usize = 0;
    while i < list.len()
        invariant
            i <= list@.len(),
            forall|j: int| 0 <= j < i ==> #[trigger] list@[j]@ != x@,
        decreases list@.len() - i,
    {
        if str_eq(list[i].as_str(), x) {
            proof {
                assert(views(list@)[i as int] == x@);
            }
            return true;
        }
        i += 1;
    }
    proof {
        assert(forall|j: int| 0 <= j < views(list@).len() ==> #[trigger] views(list@)[j] != x@);
    }
    false
}

/// Whether a sequence of character sequences is in lexicographic order.
pub open spec fn sorted_strs(s: Seq<Seq<char>>) -> bool {
    forall|i: int, j: int| 0 <= i < j < s.len() ==> str_le(#[trigger] s[i], #[trigger] s[j])
}

/// Inserting into a sorted sequence keeps it sorted and adds exactly the new
/// element.
proof fn lemma_insert_str_sorted(x: Seq<char>, s: Seq<Seq<char>>)
    requires
        sorted_strs(s),
    ensures
        sorted_strs(insert_str(x, s)),
        insert_str(x, s).to_multiset() == s.to_multiset().insert(x),
    decreases s.len(),
{
    broadcast use vstd::seq_lib::group_to_multiset_ensures;
    broadcast use vstd::seq_lib::lemma_multiset_commutative;

    if s.len() == 0 {
        assert(seq![x].to_multiset() =~= s.to_multiset().insert(x));
    } else if str_le(x, s[0]) {
        let r = seq![x] + s;
        assert forall|i: int, j: int| 0 <= i < j < r.len() implies str_le(r[i], r[j]) by {
            if i == 0 {
                if j > 1 {
                    lemma_str_le_trans(x, s[0], s[j - 1]);
                }
            }
        }
        assert(seq![x].to_multiset() =~= Multiset::<Seq<char>>::empty().insert(x));
        assert(r.to_multiset() =~= s.to_multiset().insert(x));
    } else {
        let rest = s.drop_first();
        assert(forall|i: int, j: int|
            0 <= i < j < rest.len() ==> str_le(#[trigger] rest[i], #[trigger] rest[j]));
        lemma_insert_str_sorted(x, rest);
        let ins = insert_str(x, rest);
        let r = seq![s[0]] + ins;
        lemma_str_le_total(x, s[0]);
        assert forall|i: int, j: int| 0 <= i < j < r.len() implies str_le(r[i], r[j]) by {
            if i == 0 {
                let e = ins[j - 1];
                assert(ins.to_multiset().contains(e));
                if e == x {
                    assert(str_le(s[0], x));
                } else {
                    assert(rest.to_multiset().contains(e));
                    let m = choose|m: int| 0 <= m < rest.len() && rest[m] == e;
                    assert(str_le(s[0], s[m + 1]));
                }
            }
        }
        assert(seq![s[0]] + rest =~= s);
        assert(r.to_multiset() =~= s.to_multiset().insert(x));
    }
}

/// Sorting law: `sort_strs` yields the same elements, as a multiset, in
/// lexicographic order.
pub proof fn lemma_sort_strs_sorted(s: Seq<Seq<char>>)
    ensures
        sorted_strs(sort_strs(s)),
        sort_strs(s).to_multiset() == s.to_multiset(),
    decreases s.len(),
{
    broadcast use vstd::seq_lib::group_to_multiset_ensures;

    if s.len() == 0 {
    } else {
        lemma_sort_strs_sorted(s.drop_last());
        lemma_insert_str_sorted(s.last(), sort_strs(s.drop_last()));
        assert(s.drop_last().push(s.last()) =~= s);
    }
}

} // verus!
