//! Deterministic ordering: strict lexicographic byte order, the stable
//! insertion sort of an object's fields by key, the sort of rendered
//! declaration texts, and removal of adjacent duplicates.

use vstd::prelude::*;
use crate::ast::{Value, size_of_value, size_of_fields};
use crate::text::texts_model;
use vstd::multiset::Multiset;

verus! {

/// One field of an object: its wire name and its value schema.
pub type FieldEntry = (Vec<u8>, Value);

/// Strict lexicographic order on byte strings: a proper prefix precedes
/// its extensions, and otherwise the first differing byte decides.
pub open spec fn lex_lt(a: Seq<u8>, b: Seq<u8>) -> bool
    decreases a.len(),
{
    if b.len() == 0 {
        false
    } else if a.len() == 0 {
        true
    } else if a[0] < b[0] {
        true
    } else if a[0] > b[0] {
        false
    } else {
        lex_lt(a.subrange(1, a.len() as int), b.subrange(1, b.len() as int))
    }
}

/// Two byte strings that neither precede one another are equal.
pub proof fn lemma_lex_lt_connected(a: Seq<u8>, b: Seq<u8>)
    requires
        !lex_lt(a, b),
        !lex_lt(b, a),
    ensures
        a == b,
    decreases a.len(),
{
    if a.len() == 0 || b.len() == 0 {
        assert(a =~= b);
    } else {
        lemma_lex_lt_connected(a.subrange(1, a.len() as int), b.subrange(1, b.len() as int));
        assert(a =~= seq![a[0]] + a.subrange(1, a.len() as int));
        assert(b =~= seq![b[0]] + b.subrange(1, b.len() as int));
    }
}

/// Lexicographic order is transitive.
pub proof fn lemma_lex_lt_trans(a: Seq<u8>, b: Seq<u8>, c: Seq<u8>)
    requires
        lex_lt(a, b),
        lex_lt(b, c),
    ensures
        lex_lt(a, c),
    decreases a.len(),
{
    if a.len() == 0 {
    } else if b.len() == 0 {
    } else if c.len() == 0 {
    } else {
        if a[0] == b[0] && b[0] == c[0] {
            lemma_lex_lt_trans(
                a.subrange(1, a.len() as int),
                b.subrange(1, b.len() as int),
                c.subrange(1, c.len() as int),
            );
        }
    }
}

/// The order is irreflexive.
pub proof fn lemma_lex_lt_irrefl(a: Seq<u8>)
    ensures
        !lex_lt(a, a),
    decreases a.len(),
{
    if a.len() > 0 {
        lemma_lex_lt_irrefl(a.subrange(1, a.len() as int));
    }
}

proof fn lemma_lex_lt_skip(a: Seq<u8>, b: Seq<u8>, i: int)
    requires
        0 <= i <= a.len(),
        i <= b.len(),
        forall|j: int| 0 <= j < i ==> a[j] == b[j],
    ensures
        lex_lt(a, b) == lex_lt(a.skip(i), b.skip(i)),
    decreases i,
{
    if i > 0 {
        let a1 = a.subrange(1, a.len() as int);
        let b1 = b.subrange(1, b.len() as int);
        lemma_lex_lt_skip(a1, b1, i - 1);
        assert(a1.skip(i - 1) =~= a.skip(i));
        assert(b1.skip(i - 1) =~= b.skip(i));
    } else {
        assert(a.skip(0) =~= a);
        assert(b.skip(0) =~= b);
    }
}

/// Decides the strict lexicographic order on two byte strings.
pub fn bytes_lt(a: &Vec<u8>, b: &Vec<u8>) -> (r: bool)
    ensures
        r == lex_lt(a@, b@),
{
    let mut i: usize = 0;
    while i < a.len() && i < b.len()
        invariant
            0 <= i <= a@.len(),
            i <= b@.len(),
            forall|j: int| 0 <= j < i ==> a@[j] == b@[j],
        decreases a@.len() - i,
    {
        if a[i] < b[i] {
            proof {
                lemma_lex_lt_skip(a@, b@, i as int);
            }
            return true;
        }
        if a[i] > b[i] {
            proof {
                lemma_lex_lt_skip(a@, b@, i as int);
            }
            return false;
        }
        i = i + 1;
    }
    proof {
        lemma_lex_lt_skip(a@, b@, i as int);
    }
    a.len() < b.len()
}

// ---- sorting an object's fields by key ----

/// Inserts a field after every field whose key does not strictly exceed
/// its own, so that fields with equal keys keep their presentation order.
pub open spec fn insert_entry(x: FieldEntry, s: Seq<FieldEntry>) -> Seq<FieldEntry>
    decreases s.len(),
{
    if s.len() == 0 {
        seq![x]
    } else if lex_lt(x.0@, s[0].0@) {
        seq![x] + s
    } else {
        seq![s[0]] + insert_entry(x, s.subrange(1, s.len() as int))
    }
}

/// The stable key-sort of an object's fields: the mapping's natural order.
pub open spec fn sort_entries(s: Seq<FieldEntry>) -> Seq<FieldEntry>
    decreases s.len(),
{
    if s.len() == 0 {
        s
    } else {
        insert_entry(s.last(), sort_entries(s.drop_last()))
    }
}

/// Inserting a field adds exactly its size to a field list's size.
pub proof fn lemma_insert_entry_size(x: FieldEntry, s: Seq<FieldEntry>)
    ensures
        size_of_fields(insert_entry(x, s)) == 1 + size_of_value(x.1) + size_of_fields(s),
    decreases s.len(),
{
    assert(size_of_fields(Seq::<FieldEntry>::empty()) == 0);
    if s.len() == 0 {
        assert(insert_entry(x, s) =~= seq![x]);
        assert(seq![x].subrange(1, 1) =~= Seq::<FieldEntry>::empty());
        assert(seq![x][0] == x);
    } else if lex_lt(x.0@, s[0].0@) {
        let r = seq![x] + s;
        assert(r.subrange(1, r.len() as int) =~= s);
        assert(r[0] == x);
    } else {
        let rest = s.subrange(1, s.len() as int);
        lemma_insert_entry_size(x, rest);
        let r = seq![s[0]] + insert_entry(x, rest);
        assert(r.subrange(1, r.len() as int) =~= insert_entry(x, rest));
        assert(r[0] == s[0]);
    }
}

/// Sorting preserves the size of a field list.
pub proof fn lemma_sort_entries_size(s: Seq<FieldEntry>)
    ensures
        size_of_fields(sort_entries(s)) == size_of_fields(s),
    decreases s.len(),
{
    if s.len() > 0 {
        let rest = s.drop_last();
        lemma_sort_entries_size(rest);
        lemma_insert_entry_size(s.last(), sort_entries(rest));
        lemma_size_fields_snoc(rest, s.last());
        assert(rest.push(s.last()) =~= s);
    }
}

/// The size of a field list grows by one entry's size when one is appended.
pub proof fn lemma_size_fields_snoc(s: Seq<FieldEntry>, x: FieldEntry)
    ensures
        size_of_fields(s.push(x)) == size_of_fields(s) + 1 + size_of_value(x.1),
    decreases s.len(),
{
    assert(size_of_fields(Seq::<FieldEntry>::empty()) == 0);
    if s.len() == 0 {
        assert(s.push(x)[0] == x);
        assert(s.push(x).subrange(1, 1) =~= Seq::<FieldEntry>::empty());
    } else {
        let rest = s.subrange(1, s.len() as int);
        lemma_size_fields_snoc(rest, x);
        assert(s.push(x).subrange(1, s.push(x).len() as int) =~= rest.push(x));
        assert(s.push(x)[0] == s[0]);
    }
}

/// Inserts one field into a key-sorted field list, at run time.
pub fn insert_entry_exec(x: FieldEntry, s: Vec<FieldEntry>) -> (r: Vec<FieldEntry>)
    ensures
        r@ == insert_entry(x, s@),
    decreases s@.len(),
{
    let mut s = s;
    if s.len() == 0 {
        s.push(x);
        assert(s@ =~= seq![x]);
        s
    } else if bytes_lt(&x.0, &s[0].0) {
        let ghost pre = s@;
        s.insert(0, x);
        assert(s@ =~= seq![x] + pre);
        s
    } else {
        let ghost orig = s@;
        let h = s.remove(0);
        assert(s@ =~= orig.subrange(1, orig.len() as int));
        let mut r = insert_entry_exec(x, s);
        r.insert(0, h);
        assert(r@ =~= seq![orig[0]] + insert_entry(x, orig.subrange(1, orig.len() as int)));
        r
    }
}

/// Sorts an object's fields by key, stably, at run time.
pub fn sort_entries_exec(s: Vec<FieldEntry>) -> (r: Vec<FieldEntry>)
    ensures
        r@ == sort_entries(s@),
    decreases s@.len(),
{
    let mut s = s;
    if s.len() == 0 {
        s
    } else {
        let ghost orig = s@;
        let x = match s.pop() {
            Option::Some(x) => x,
            Option::None => {
                proof {
                    assert(false);
                }
                unreached()
            },
        };
        assert(s@ =~= orig.drop_last());
        assert(x == orig.last());
        let sorted = sort_entries_exec(s);
        insert_entry_exec(x, sorted)
    }
}

// ---- sorting and deduplicating rendered texts ----

/// Inserts a text after every text that does not strictly exceed it.
pub open spec fn insert_str(x: Seq<u8>, s: Seq<Seq<u8>>) -> Seq<Seq<u8>>
    decreases s.len(),
{
    if s.len() == 0 {
        seq![x]
    } else if lex_lt(x, s[0]) {
        seq![x] + s
    } else {
        seq![s[0]] + insert_str(x, s.subrange(1, s.len() as int))
    }
}

/// Sorts a list of rendered texts into lexicographic order.
pub open spec fn sort_strs(s: Seq<Seq<u8>>) -> Seq<Seq<u8>>
    decreases s.len(),
{
    if s.len() == 0 {
        s
    } else {
        insert_str(s.last(), sort_strs(s.drop_last()))
    }
}

/// Removes each text that is equal to its predecessor.
pub open spec fn dedup_strs(s: Seq<Seq<u8>>) -> Seq<Seq<u8>>
    decreases s.len(),
{
    if s.len() <= 1 {
        s
    } else if s[s.len() - 1] == s[s.len() - 2] {
        dedup_strs(s.drop_last())
    } else {
        dedup_strs(s.drop_last()).push(s.last())
    }
}

/// Inserts one text into a sorted text list, at run time.
pub fn insert_text_exec(x: Vec<u8>, s: Vec<Vec<u8>>) -> (r: Vec<Vec<u8>>)
    ensures
        texts_model(r@) == insert_str(x@, texts_model(s@)),
    decreases s@.len(),
{
    let mut s = s;
    if s.len() == 0 {
        s.push(x);
        assert(texts_model(s@) =~= seq![s@[0]@]);
        s
    } else if bytes_lt(&x, &s[0]) {
        let ghost pre = texts_model(s@);
        s.insert(0, x);
        assert(texts_model(s@) =~= seq![s@[0]@] + pre);
        s
    } else {
        let ghost orig = texts_model(s@);
        let h = s.remove(0);
        assert(texts_model(s@) =~= orig.subrange(1, orig.len() as int));
        let mut r = insert_text_exec(x, s);
        let ghost rpre = texts_model(r@);
        r.insert(0, h);
        assert(texts_model(r@) =~= seq![orig[0]] + rpre);
        r
    }
}

/// Sorts rendered texts into lexicographic order, at run time.
pub fn sort_texts_exec(s: Vec<Vec<u8>>) -> (r: Vec<Vec<u8>>)
    ensures
        texts_model(r@) == sort_strs(texts_model(s@)),
    decreases s@.len(),
{
    let mut s = s;
    if s.len() == 0 {
        assert(texts_model(s@) =~= Seq::<Seq<u8>>::empty());
        s
    } else {
        let ghost orig = texts_model(s@);
        let x = match s.pop() {
            Option::Some(x) => x,
            Option::None => {
                proof {
                    assert(false);
                }
                unreached()
            },
        };
        assert(texts_model(s@) =~= orig.drop_last());
        assert(x@ == orig.last());
        let sorted = sort_texts_exec(s);
        insert_text_exec(x, sorted)
    }
}

/// Removes adjacent duplicate texts, at run time.
pub fn dedup_adjacent_exec(s: Vec<Vec<u8>>) -> (r: Vec<Vec<u8>>)
    ensures
        texts_model(r@) == dedup_strs(texts_model(s@)),
    decreases s@.len(),
{
    let mut s = s;
    if s.len() <= 1 {
        if s.len() == 0 {
            assert(texts_model(s@) =~= Seq::<Seq<u8>>::empty());
        } else {
            assert(texts_model(s@) =~= seq![s@[0]@]);
        }
        s
    } else {
        let ghost orig = texts_model(s@);
        let x = match s.pop() {
            Option::Some(x) => x,
            Option::None => {
                proof {
                    assert(false);
                }
                unreached()
            },
        };
        assert(texts_model(s@) =~= orig.drop_last());
        assert(x@ == orig.last());
        let same = crate::text::bytes_eq(&x, &s[s.len() - 1]);
        let mut r = dedup_adjacent_exec(s);
        if !same {
            let ghost rpre = texts_model(r@);
            r.push(x);
            assert(texts_model(r@) =~= rpre.push(x@));
        }
        r
    }
}

// ---- order-independence of the field sort ----

/// The fields stand in non-decreasing key order.
pub open spec fn entries_sorted(s: Seq<FieldEntry>) -> bool {
    forall|i: int, j: int| 0 <= i < j < s.len() ==> !lex_lt(#[trigger] s[j].0@, #[trigger] s[i].0@)
}

/// No two fields share a key.
pub open spec fn distinct_keys(s: Seq<FieldEntry>) -> bool {
    forall|i: int, j: int| 0 <= i < j < s.len() ==> #[trigger] s[i].0@ != #[trigger] s[j].0@
}

/// Inserting a field adds exactly that field to the multiset.
pub proof fn lemma_insert_entry_multiset(x: FieldEntry, s: Seq<FieldEntry>)
    ensures
        insert_entry(x, s).to_multiset() == s.to_multiset().insert(x),
    decreases s.len(),
{
    broadcast use vstd::seq_lib::group_to_multiset_ensures;
    broadcast use vstd::multiset::group_multiset_axioms;

    if s.len() == 0 {
        assert(insert_entry(x, s) =~= Seq::<FieldEntry>::empty().push(x));
        assert(insert_entry(x, s).to_multiset() =~= s.to_multiset().insert(x));
    } else if lex_lt(x.0@, s[0].0@) {
        vstd::seq_lib::lemma_multiset_commutative(seq![x], s);
        assert(seq![x] =~= Seq::<FieldEntry>::empty().push(x));
        assert(seq![x].to_multiset() =~= Multiset::<FieldEntry>::empty().insert(x));
        assert((seq![x] + s).to_multiset() =~= s.to_multiset().insert(x));
    } else {
        let rest = s.subrange(1, s.len() as int);
        lemma_insert_entry_multiset(x, rest);
        vstd::seq_lib::lemma_multiset_commutative(seq![s[0]], insert_entry(x, rest));
        vstd::seq_lib::lemma_multiset_commutative(seq![s[0]], rest);
        assert(seq![s[0]] =~= Seq::<FieldEntry>::empty().push(s[0]));
        assert(seq![s[0]].to_multiset() =~= Multiset::<FieldEntry>::empty().insert(s[0]));
        assert(seq![s[0]] + rest =~= s);
        assert((seq![s[0]] + insert_entry(x, rest)).to_multiset() =~= s.to_multiset().insert(x));
    }
}

/// Sorting a field list does not change its multiset of fields.
pub proof fn lemma_sort_entries_multiset(s: Seq<FieldEntry>)
    ensures
        sort_entries(s).to_multiset() == s.to_multiset(),
    decreases s.len(),
{
    broadcast use vstd::seq_lib::group_to_multiset_ensures;
    broadcast use vstd::multiset::group_multiset_axioms;

    if s.len() > 0 {
        lemma_sort_entries_multiset(s.drop_last());
        lemma_insert_entry_multiset(s.last(), sort_entries(s.drop_last()));
        assert(s.drop_last().push(s.last()) =~= s);
        assert(sort_entries(s).to_multiset() =~= s.to_multiset());
    }
}

/// Every field of an insertion is the inserted one or one of the list.
pub proof fn lemma_insert_entry_elems(x: FieldEntry, s: Seq<FieldEntry>)
    ensures
        forall|k: int|
            0 <= k < insert_entry(x, s).len() ==> (#[trigger] insert_entry(x, s)[k] == x
                || s.contains(insert_entry(x, s)[k])),
        insert_entry(x, s).len() == s.len() + 1,
    decreases s.len(),
{
    if s.len() == 0 {
    } else if lex_lt(x.0@, s[0].0@) {
        assert forall|k: int| 0 <= k < insert_entry(x, s).len() implies (#[trigger] insert_entry(
            x,
            s,
        )[k] == x || s.contains(insert_entry(x, s)[k])) by {
            if k > 0 {
                assert(insert_entry(x, s)[k] == s[k - 1]);
            }
        }
    } else {
        let rest = s.subrange(1, s.len() as int);
        lemma_insert_entry_elems(x, rest);
        let r = seq![s[0]] + insert_entry(x, rest);
        assert forall|k: int| 0 <= k < r.len() implies (#[trigger] r[k] == x || s.contains(
            r[k],
        )) by {
            if k == 0 {
                assert(s[0] == s[0]);
            } else {
                assert(r[k] == insert_entry(x, rest)[k - 1]);
                if r[k] != x {
                    let m = choose|m: int| 0 <= m < rest.len() && rest[m] == r[k];
                    assert(s[m + 1] == r[k]);
                }
            }
        }
    }
}

/// Inserting into a key-sorted field list keeps it key-sorted.
pub proof fn lemma_insert_entry_sorted(x: FieldEntry, s: Seq<FieldEntry>)
    requires
        entries_sorted(s),
    ensures
        entries_sorted(insert_entry(x, s)),
    decreases s.len(),
{
    if s.len() == 0 {
    } else if lex_lt(x.0@, s[0].0@) {
        let r = seq![x] + s;
        assert forall|i: int, j: int| 0 <= i < j < r.len() implies !lex_lt(
            #[trigger] r[j].0@,
            #[trigger] r[i].0@,
        ) by {
            if i == 0 {
                assert(r[j] == s[j - 1]);
                if lex_lt(s[j - 1].0@, x.0@) {
                    lemma_lex_lt_trans(s[j - 1].0@, x.0@, s[0].0@);
                    if j == 1 {
                        lemma_lex_lt_irrefl(s[0].0@);
                    }
                }
            } else {
                assert(r[i] == s[i - 1] && r[j] == s[j - 1]);
            }
        }
    } else {
        let rest = s.subrange(1, s.len() as int);
        lemma_insert_entry_sorted(x, rest);
        lemma_insert_entry_elems(x, rest);
        let r = seq![s[0]] + insert_entry(x, rest);
        assert forall|i: int, j: int| 0 <= i < j < r.len() implies !lex_lt(
            #[trigger] r[j].0@,
            #[trigger] r[i].0@,
        ) by {
            if i == 0 {
                assert(r[j] == insert_entry(x, rest)[j - 1]);
                if r[j] == x {
                } else {
                    let m = choose|m: int| 0 <= m < rest.len() && rest[m] == r[j];
                    assert(s[m + 1] == r[j]);
                }
            } else {
                assert(r[i] == insert_entry(x, rest)[i - 1]);
                assert(r[j] == insert_entry(x, rest)[j - 1]);
            }
        }
    }
}

/// The sort of a field list is key-sorted.
pub proof fn lemma_sort_entries_sorted(s: Seq<FieldEntry>)
    ensures
        entries_sorted(sort_entries(s)),
    decreases s.len(),
{
    if s.len() > 0 {
        lemma_sort_entries_sorted(s.drop_last());
        lemma_insert_entry_sorted(s.last(), sort_entries(s.drop_last()));
    }
}

/// Two key-sorted field lists with pairwise distinct keys and the same
/// fields are equal.
pub proof fn lemma_sorted_distinct_unique(a: Seq<FieldEntry>, b: Seq<FieldEntry>)
    requires
        entries_sorted(a),
        entries_sorted(b),
        distinct_keys(a),
        distinct_keys(b),
        a.to_multiset() == b.to_multiset(),
    ensures
        a == b,
    decreases a.len(),
{
    broadcast use vstd::seq_lib::group_to_multiset_ensures;
    broadcast use vstd::multiset::group_multiset_axioms;

    if a.len() == 0 || b.len() == 0 {
        assert(a.to_multiset().len() == a.len());
        assert(b.to_multiset().len() == b.len());
        assert(a =~= b);
    } else {
        assert(a.contains(a[0]));
        assert(a.to_multiset().count(a[0]) > 0);
        assert(b.to_multiset().count(a[0]) > 0);
        assert(b.contains(a[0]));
        let jb = choose|jb: int| 0 <= jb < b.len() && b[jb] == a[0];
        assert(b.contains(b[0]));
        assert(b.to_multiset().count(b[0]) > 0);
        assert(a.to_multiset().count(b[0]) > 0);
        assert(a.contains(b[0]));
        let ja = choose|ja: int| 0 <= ja < a.len() && a[ja] == b[0];
        assert(!lex_lt(a[0].0@, b[0].0@)) by {
            if lex_lt(a[0].0@, b[0].0@) {
                if jb == 0 {
                    lemma_lex_lt_irrefl(a[0].0@);
                } else {
                    assert(!lex_lt(b[jb].0@, b[0].0@));
                }
                assert(false);
            }
        }
        assert(!lex_lt(b[0].0@, a[0].0@)) by {
            if lex_lt(b[0].0@, a[0].0@) {
                if ja == 0 {
                    lemma_lex_lt_irrefl(b[0].0@);
                } else {
                    assert(!lex_lt(a[ja].0@, a[0].0@));
                }
                assert(false);
            }
        }
        lemma_lex_lt_connected(a[0].0@, b[0].0@);
        assert(a[0].0@ == b[0].0@);
        assert(a[0] == b[0]) by {
            if jb > 0 {
                assert(b[jb].0@ != b[0].0@);
                assert(b[jb] == a[0]);
                assert(false);
            }
        }
        let at = a.drop_first();
        let bt = b.drop_first();
        assert(a.remove(0).to_multiset() == a.to_multiset().remove(a[0]));
        assert(b.remove(0).to_multiset() == b.to_multiset().remove(b[0]));
        assert(a.remove(0) =~= at);
        assert(b.remove(0) =~= bt);
        assert(entries_sorted(at) && distinct_keys(at)) by {
            assert(forall|i: int| 0 <= i < at.len() ==> at[i] == a[i + 1]);
        }
        assert(entries_sorted(bt) && distinct_keys(bt)) by {
            assert(forall|i: int| 0 <= i < bt.len() ==> bt[i] == b[i + 1]);
        }
        lemma_sorted_distinct_unique(at, bt);
        assert(a =~= b) by {
            assert(forall|i: int| 1 <= i < a.len() ==> a[i] == at[i - 1] && at[i - 1] == bt[i - 1]
                && bt[i - 1] == b[i]);
        }
    }
}

/// The sort has pairwise distinct keys when its input has.
pub proof fn lemma_sort_entries_distinct(s: Seq<FieldEntry>)
    requires
        distinct_keys(s),
    ensures
        distinct_keys(sort_entries(s)),
{
    broadcast use vstd::seq_lib::group_to_multiset_ensures;
    broadcast use vstd::multiset::group_multiset_axioms;

    lemma_sort_entries_multiset(s);
    let t = sort_entries(s);
    assert(s.no_duplicates()) by {
        assert forall|i: int, j: int|
            0 <= i < s.len() && 0 <= j < s.len() && i != j implies s[i] != s[j] by {
            if i < j {
                assert(s[i].0@ != s[j].0@);
            } else {
                assert(s[j].0@ != s[i].0@);
            }
        }
    }
    s.lemma_multiset_has_no_duplicates();
    t.lemma_multiset_has_no_duplicates_conv();
    assert forall|i: int, j: int| 0 <= i < j < t.len() implies #[trigger] t[i].0@
        != #[trigger] t[j].0@ by {
        assert(t[i] != t[j]);
        if t[i].0@ == t[j].0@ {
            assert(t.contains(t[i]));
            assert(t.to_multiset().count(t[i]) > 0);
            assert(s.contains(t[i]));
            assert(t.contains(t[j]));
            assert(t.to_multiset().count(t[j]) > 0);
            assert(s.contains(t[j]));
            let ia = choose|ia: int| 0 <= ia < s.len() && s[ia] == t[i];
            let ib = choose|ib: int| 0 <= ib < s.len() && s[ib] == t[j];
            assert(ia != ib);
            if ia < ib {
                assert(s[ia].0@ != s[ib].0@);
            } else {
                assert(s[ib].0@ != s[ia].0@);
            }
            assert(false);
        }
    }
}

/// Law: the field sort is order-independent. Two presentations of the
/// same fields, under pairwise distinct keys, sort to the same list.
pub proof fn lemma_sort_entries_unique(o1: Seq<FieldEntry>, o2: Seq<FieldEntry>)
    requires
        o1.to_multiset() == o2.to_multiset(),
        distinct_keys(o1),
        distinct_keys(o2),
    ensures
        sort_entries(o1) == sort_entries(o2),
{
    lemma_sort_entries_multiset(o1);
    lemma_sort_entries_multiset(o2);
    lemma_sort_entries_sorted(o1);
    lemma_sort_entries_sorted(o2);
    lemma_sort_entries_distinct(o1);
    lemma_sort_entries_distinct(o2);
    lemma_sorted_distinct_unique(sort_entries(o1), sort_entries(o2));
}

} // verus!
