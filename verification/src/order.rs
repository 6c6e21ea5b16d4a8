//! The order of texts, and lists in that order.
use crate::text::chars_of;
use vstd::prelude::*;
use vstd::seq_lib::*;

verus! {

/// Whether a text comes before another: where they first differ it has the
/// smaller character, or it ends.
pub open spec fn text_before(a: Seq<char>, b: Seq<char>) -> bool
    decreases a.len(),
{
    if b.len() == 0 {
        false
    } else if a.len() == 0 {
        true
    } else if a[0] != b[0] {
        a[0] < b[0]
    } else {
        text_before(a.skip(1), b.skip(1))
    }
}

/// Whether `a` comes before `b`.
pub fn comes_before(a: &str, b: &str) -> (r: bool)
    ensures
        r == text_before(a@, b@),
{
    let first = chars_of(a);
    let second = chars_of(b);
    let mut i: usize = 0;
    assert(a@.skip(0) =~= a@);
    assert(b@.skip(0) =~= b@);
    while i < first.len() && i < second.len() && first[i] == second[i]
        invariant
            i <= first@.len(),
            i <= second@.len(),
            first@ == a@,
            second@ == b@,
            text_before(a@, b@) == text_before(a@.skip(i as int), b@.skip(i as int)),
        decreases first@.len() - i,
    {
        assert(a@.skip(i as int).skip(1) =~= a@.skip(i + 1));
        assert(b@.skip(i as int).skip(1) =~= b@.skip(i + 1));
        i = i + 1;
    }
    if i >= second.len() {
        false
    } else if i >= first.len() {
        true
    } else {
        first[i] < second[i]
    }
}

/// No text comes before itself.
pub proof fn lemma_not_before_itself(a: Seq<char>)
    ensures
        !text_before(a, a),
    decreases a.len(),
{
    if a.len() > 0 {
        lemma_not_before_itself(a.skip(1));
    }
}

/// Of two texts that differ, one comes before the other.
pub proof fn lemma_one_is_before(a: Seq<char>, b: Seq<char>)
    ensures
        text_before(a, b) || text_before(b, a) || a == b,
    decreases a.len(),
{
    if a.len() > 0 && b.len() > 0 && a[0] == b[0] {
        lemma_one_is_before(a.skip(1), b.skip(1));
        if a.skip(1) == b.skip(1) {
            assert(a =~= seq![a[0]] + a.skip(1));
            assert(b =~= seq![b[0]] + b.skip(1));
        }
    } else if a.len() == 0 && b.len() == 0 {
        assert(a =~= b);
    }
}

/// What comes before a text that comes before a third, comes before the third.
pub proof fn lemma_before_before(a: Seq<char>, b: Seq<char>, c: Seq<char>)
    requires
        text_before(a, b),
        text_before(b, c),
    ensures
        text_before(a, c),
    decreases a.len(),
{
    if a.len() > 0 && a[0] == b[0] && b[0] == c[0] {
        lemma_before_before(a.skip(1), b.skip(1), c.skip(1));
    }
}

/// Two texts to sort by: the second counts where the first is the same.
pub open spec fn key_before(a: (Seq<char>, Seq<char>), b: (Seq<char>, Seq<char>)) -> bool {
    text_before(a.0, b.0) || (a.0 == b.0 && text_before(a.1, b.1))
}

proof fn lemma_key_before(
    a: (Seq<char>, Seq<char>),
    b: (Seq<char>, Seq<char>),
    c: (Seq<char>, Seq<char>),
)
    requires
        key_before(a, b),
        key_before(b, c),
    ensures
        key_before(a, c),
{
    if text_before(a.0, b.0) && text_before(b.0, c.0) {
        lemma_before_before(a.0, b.0, c.0);
    }
    if a.0 == b.0 && b.0 == c.0 && text_before(a.1, b.1) && text_before(b.1, c.1) {
        lemma_before_before(a.1, b.1, c.1);
    }
}

proof fn lemma_not_both(a: (Seq<char>, Seq<char>), b: (Seq<char>, Seq<char>))
    requires
        key_before(a, b),
    ensures
        !key_before(b, a),
{
    lemma_not_before_itself(a.0);
    lemma_not_before_itself(a.1);
    if text_before(a.0, b.0) && text_before(b.0, a.0) {
        lemma_before_before(a.0, b.0, a.0);
    }
    if text_before(a.1, b.1) && text_before(b.1, a.1) {
        lemma_before_before(a.1, b.1, a.1);
    }
}

/// What can be sorted by texts.
pub trait Sortable: Sized {
    /// The texts by which it is sorted.
    spec fn sort_key(&self) -> (Seq<char>, Seq<char>);

    /// Whether it comes before another.
    fn sorts_before(&self, other: &Self) -> (b: bool)
        ensures
            b == key_before(self.sort_key(), other.sort_key()),
    ;
}

impl Sortable for String {
    open spec fn sort_key(&self) -> (Seq<char>, Seq<char>) {
        (self@, Seq::empty())
    }

    fn sorts_before(&self, other: &String) -> (b: bool) {
        proof {
            assert(!text_before(Seq::<char>::empty(), Seq::<char>::empty()));
        }
        comes_before(self.as_str(), other.as_str())
    }
}

/// Whether nothing comes before something that stands ahead of it.
pub open spec fn sorted<T: Sortable>(list: Seq<T>) -> bool {
    forall|i: int, j: int|
        0 <= i < j < list.len() ==> !key_before(
            (#[trigger] list[j]).sort_key(),
            (#[trigger] list[i]).sort_key(),
        )
}

/// The items in the order of their texts.
pub fn sort<T: Sortable>(list: Vec<T>) -> (out: Vec<T>)
    ensures
        sorted(out@),
        out@.to_multiset() == list@.to_multiset(),
{
    let ghost all = list@;
    let mut rest = list;
    let mut out: Vec<T> = Vec::new();
    proof {
        out@.to_multiset_ensures();
        assert(out@.to_multiset().add(rest@.to_multiset()) =~= all.to_multiset());
    }
    while rest.len() > 0
        invariant
            sorted(out@),
            out@.to_multiset().add(rest@.to_multiset()) == all.to_multiset(),
        decreases rest@.len(),
    {
        let ghost before = rest@;
        let item = rest.remove(0);
        assert(before.remove(0) =~= rest@);
        let ghost sorted_so_far = out@;
        let ghost key = item.sort_key();
        let mut at: usize = 0;
        while at < out.len() && !item.sorts_before(&out[at])
            invariant
                at <= out@.len(),
                key == item.sort_key(),
                forall|i: int| 0 <= i < at ==> !key_before(key, (#[trigger] out@[i]).sort_key()),
            decreases out@.len() - at,
        {
            at = at + 1;
        }
        proof {
            assert forall|i: int| at <= i < sorted_so_far.len() implies !key_before(
                (#[trigger] sorted_so_far[i]).sort_key(),
                key,
            ) by {
                let first = sorted_so_far[at as int].sort_key();
                let here = sorted_so_far[i].sort_key();
                if key_before(here, key) {
                    lemma_key_before(here, key, first);
                    lemma_not_both(key, first);
                    assert(i == at || !key_before(
                        sorted_so_far[i].sort_key(),
                        sorted_so_far[at as int].sort_key(),
                    ));
                }
            }
        }
        out.insert(at, item);
        proof {
            assert(out@.remove(at as int) =~= sorted_so_far);
            assert(out@.contains(out@[at as int]));
            assert(before.contains(before[0]));
            assert forall|i: int, j: int| 0 <= i < j < out@.len() implies !key_before(
                (#[trigger] out@[j]).sort_key(),
                (#[trigger] out@[i]).sort_key(),
            ) by {
                let old_i = if i < at {
                    i
                } else {
                    i - 1
                };
                let old_j = if j < at {
                    j
                } else {
                    j - 1
                };
                if i != at {
                    assert(out@[i] == sorted_so_far[old_i]);
                }
                if j != at {
                    assert(out@[j] == sorted_so_far[old_j]);
                }
            }
            let value = out@[at as int];
            assert(value == before[0]);
            to_multiset_remove(out@, at as int);
            to_multiset_remove(before, 0);
            out@.to_multiset_ensures();
            before.to_multiset_ensures();
            assert(sorted_so_far.to_multiset() == out@.to_multiset().remove(value));
            assert(rest@.to_multiset() == before.to_multiset().remove(value));
            assert(out@.to_multiset().count(value) > 0);
            assert(before.to_multiset().count(value) > 0);
            assert(out@.to_multiset().add(rest@.to_multiset()) =~= all.to_multiset());
        }
    }
    proof {
        rest@.to_multiset_ensures();
        assert(out@.to_multiset() =~= all.to_multiset());
    }
    out
}

} // verus!
