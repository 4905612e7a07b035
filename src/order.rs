use vstd::prelude::*;
use vstd::multiset::Multiset;
use vstd::seq_lib::group_to_multiset_ensures;

use crate::model::Message;

verus! {

broadcast use group_to_multiset_ensures;

/// Whether `s` runs in creation order: no message comes before one created later.
pub open spec fn sorted_by_created(s: Seq<Message>) -> bool {
    forall|i: int, j: int| 0 <= i < j < s.len() ==> !(#[trigger] s[j]).created.before(&(#[trigger] s[i]).created)
}

/// Whether creation times strictly increase along `s`, as they do along a strictly
/// sequential sending.
pub open spec fn strictly_increasing(s: Seq<Message>) -> bool {
    forall|i: int, j: int| 0 <= i < j < s.len() ==> (#[trigger] s[i]).created.before(&(#[trigger] s[j]).created)
}

/// Puts a page in creation order, keeping messages created at the same instant in the
/// order they had.
pub fn sort_by_created(items: &mut Vec<Message>)
    ensures
        sorted_by_created(final(items)@),
        final(items)@.to_multiset() == old(items)@.to_multiset(),
{
    let ghost orig = items@;
    let mut sorted: Vec<Message> = Vec::new();
    assert(sorted@.to_multiset() =~= Multiset::<Message>::empty());
    assert(sorted@.to_multiset().add(items@.to_multiset()) =~= orig.to_multiset());
    while items.len() > 0
        invariant
            sorted_by_created(sorted@),
            sorted@.to_multiset().add(items@.to_multiset()) == orig.to_multiset(),
        decreases items.len(),
    {
        let ghost before_items = items@;
        let m = items.remove(0);
        assert(before_items.to_multiset() == items@.to_multiset().insert(m));
        let mut j = sorted.len();
        while j > 0 && m.created_before(&sorted[j - 1])
            invariant
                j <= sorted.len(),
                forall|k: int| j <= k < sorted.len() ==> m.created.before(&(#[trigger] sorted@[k]).created),
            decreases j,
        {
            j = j - 1;
        }
        let ghost old_sorted = sorted@;
        sorted.insert(j, m);
        assert(sorted@ == old_sorted.insert(j as int, m));
        assert forall|a: int, b: int| 0 <= a < b < sorted@.len() implies !(#[trigger] sorted@[b]).created.before(
            &(#[trigger] sorted@[a]).created,
        ) by {
            if b < j {
            } else if b == j {
                assert(old_sorted[a] == sorted@[a]);
                if a < j - 1 {
                    assert(!old_sorted[j - 1].created.before(&old_sorted[a].created));
                }
            } else if a < j {
                assert(sorted@[b] == old_sorted[b - 1]);
                if a < j - 1 {
                    assert(!old_sorted[j - 1].created.before(&old_sorted[a].created));
                }
                assert(!old_sorted[b - 1].created.before(&old_sorted[a].created));
            } else if a == j {
                assert(sorted@[b] == old_sorted[b - 1]);
            } else {
                assert(sorted@[b] == old_sorted[b - 1]);
                assert(sorted@[a] == old_sorted[a - 1]);
            }
        }
        assert(sorted@.to_multiset().add(items@.to_multiset()) =~= orig.to_multiset());
    }
    assert(items@.to_multiset() =~= Multiset::<Message>::empty());
    assert(sorted@.to_multiset() =~= orig.to_multiset());
    *items = sorted;
}

/// Sorting restores the send order: when messages were created at strictly increasing
/// times, any page that holds exactly them and runs in creation order is that sequence,
/// so pairing it position by position with the sends pairs each message with its send.
pub proof fn lemma_sort_restores_send_order(sent: Seq<Message>, page: Seq<Message>)
    requires
        strictly_increasing(sent),
        sorted_by_created(page),
        page.to_multiset() == sent.to_multiset(),
    ensures
        page == sent,
    decreases sent.len(),
{
    assert(page.len() == sent.len()) by {
        assert(page.to_multiset().len() == page.len());
        assert(sent.to_multiset().len() == sent.len());
    }
    if sent.len() > 0 {
        assert(page.contains(sent[0]) && sent.contains(page[0])) by {
            assert(sent.to_multiset().count(sent[0]) > 0);
            assert(page.to_multiset().count(page[0]) > 0);
        }
        let m = choose|m: int| 0 <= m < page.len() && page[m] == sent[0];
        let k = choose|k: int| 0 <= k < sent.len() && sent[k] == page[0];
        if k > 0 {
            assert(sent[0].created.before(&sent[k].created));
            if m > 0 {
                assert(!page[m].created.before(&page[0].created));
            }
            assert(false);
        }
        assert(page[0] == sent[0]);
        let p1 = page.drop_first();
        let s1 = sent.drop_first();
        assert(p1 =~= page.remove(0));
        assert(s1 =~= sent.remove(0));
        assert(p1.to_multiset() == s1.to_multiset());
        assert forall|i: int, j: int| 0 <= i < j < s1.len() implies (#[trigger] s1[i]).created.before(
            &(#[trigger] s1[j]).created,
        ) by {
            assert(s1[i] == sent[i + 1] && s1[j] == sent[j + 1]);
        }
        assert forall|i: int, j: int| 0 <= i < j < p1.len() implies !(#[trigger] p1[j]).created.before(
            &(#[trigger] p1[i]).created,
        ) by {
            assert(p1[i] == page[i + 1] && p1[j] == page[j + 1]);
        }
        lemma_sort_restores_send_order(s1, p1);
        assert(page =~= seq![page[0]] + p1);
        assert(sent =~= seq![sent[0]] + s1);
    } else {
        assert(page =~= sent);
    }
}

} // verus!
