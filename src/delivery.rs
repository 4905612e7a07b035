use vstd::prelude::*;
use vstd::string::StringExecFns;
use vstd::utf8::encode_utf8;

use crate::body::normalize_body;
use crate::body::strip_soft_breaks;
use crate::model::Message;
use crate::model::MessageList;
use crate::model::Timestamp;
use crate::order::sort_by_created;
use crate::order::sorted_by_created;

verus! {

/// A message as it was sent: one recipient, one sender, a subject and a body.
#[derive(Clone, Debug, PartialEq, Eq)]
pub struct Fixture {
    pub to: String,
    pub from: String,
    pub subject: String,
    pub body: String,
}

/// Why a retrieved page does not show what was sent.
#[derive(Clone, Copy, Debug, PartialEq, Eq, Structural)]
pub enum DeliveryMismatch {
    /// `total`, `count`, `start` or the number of items is not what was sent.
    Counts,
    /// The item at this position does not match the message sent at the same position.
    Item(usize),
}

/// Whether `got` shows `sent`, checked at the instant `now`: the sender's and the sole
/// recipient's text, the body once soft line breaks are removed, an encoded size above the
/// body's length in bytes, a creation time before `now`, and a `Subject` header holding
/// exactly the subject.
pub open spec fn delivered_as(sent: Fixture, got: Message, now: Timestamp) -> bool {
    &&& got.from.text() == sent.from@
    &&& got.to.len() == 1
    &&& got.to[0].text() == sent.to@
    &&& strip_soft_breaks(got.content.body@) == sent.body@
    &&& got.content.size > encode_utf8(sent.body@).len() as usize
    &&& got.created.before(&now)
    &&& got.content.header_values("Subject"@) matches Some(v) && v.len() == 1 && v[0]@
        == sent.subject@
}

/// Whether the page's counts say that exactly `n` messages were found, from the start.
pub open spec fn counts_match(list: MessageList, n: int) -> bool {
    list.total == n && list.count == n && list.start == 0 && list.items.len() == n
}

/// Checks one retrieved message against the one that was sent.
pub fn check_message(sent: &Fixture, got: &Message, now: &Timestamp) -> (r: bool)
    ensures
        r == delivered_as(*sent, *got, *now),
{
    if got.from.to_text() != sent.from {
        return false;
    }
    if got.to.len() != 1 {
        return false;
    }
    if got.to[0].to_text() != sent.to {
        return false;
    }
    if normalize_body(got.content.body.as_str()) != sent.body {
        return false;
    }
    if got.content.size <= sent.body.as_str().len() {
        return false;
    }
    if !got.created.is_before(now) {
        return false;
    }
    let key = String::from_str("Subject");
    assert(key@ == "Subject"@);
    match got.content.header(&key) {
        Some(v) => {
            assert(got.content.header_values("Subject"@) == Some(*v));
            v.len() == 1 && v[0] == sent.subject
        },
        None => false,
    }
}

/// Checks a page against the messages sent, position by position: first the counts, then
/// each item, stopping at the first that does not match.
pub fn check_delivery(outbox: &Vec<Fixture>, list: &MessageList, now: &Timestamp) -> (r: Result<
    (),
    DeliveryMismatch,
>)
    ensures
        !counts_match(*list, outbox.len() as int) ==> r == Err::<(), DeliveryMismatch>(
            DeliveryMismatch::Counts,
        ),
        counts_match(*list, outbox.len() as int) ==> (r is Ok <==> forall|i: int|
            0 <= i < outbox.len() ==> delivered_as(#[trigger] outbox[i], list.items[i], *now)),
        r matches Err(DeliveryMismatch::Item(k)) ==> counts_match(*list, outbox.len() as int) && k
            < outbox.len() && !delivered_as(outbox[k as int], list.items[k as int], *now) && forall|
            i: int,
        | 0 <= i < k ==> delivered_as(#[trigger] outbox[i], list.items[i], *now),
{
    let n = outbox.len();
    if !(list.total as i128 == n as i128 && list.count as i128 == n as i128 && list.start == 0
        && list.items.len() == n) {
        return Err(DeliveryMismatch::Counts);
    }
    let mut i: usize = 0;
    while i < n
        invariant
            n == outbox.len(),
            counts_match(*list, n as int),
            i <= n,
            forall|j: int| 0 <= j < i ==> delivered_as(#[trigger] outbox[j], list.items[j], *now),
        decreases n - i,
    {
        if !check_message(&outbox[i], &list.items[i], now) {
            return Err(DeliveryMismatch::Item(i));
        }
        i = i + 1;
    }
    Ok(())
}

/// A search by sender that verifies against a batch sent from one address found that batch
/// and nothing else: as many messages as were sent, in total and on the page, each from
/// exactly that address and matching its send position.
pub proof fn lemma_sender_search_exact(
    outbox: Seq<Fixture>,
    list: MessageList,
    now: Timestamp,
    sender: Seq<char>,
)
    requires
        forall|i: int| 0 <= i < outbox.len() ==> (#[trigger] outbox[i]).from@ == sender,
        counts_match(list, outbox.len() as int),
        forall|i: int| 0 <= i < outbox.len() ==> delivered_as(#[trigger] outbox[i], list.items[i], now),
    ensures
        list.total == outbox.len(),
        list.count == outbox.len(),
        list.items.len() == outbox.len(),
        forall|i: int| 0 <= i < list.items.len() ==> (#[trigger] list.items[i]).from.text() == sender,
{
    assert forall|i: int| 0 <= i < list.items.len() implies (#[trigger] list.items[i]).from.text()
        == sender by {
        assert(delivered_as(outbox[i], list.items[i], now));
    }
}

/// Puts the page in creation order, then checks it against the messages sent, in the order
/// they were sent.
pub fn verify_delivery(outbox: &Vec<Fixture>, list: &mut MessageList, now: &Timestamp) -> (r: Result<
    (),
    DeliveryMismatch,
>)
    ensures
        final(list).total == old(list).total,
        final(list).start == old(list).start,
        final(list).count == old(list).count,
        sorted_by_created(final(list).items@),
        final(list).items@.to_multiset() == old(list).items@.to_multiset(),
        !counts_match(*final(list), outbox.len() as int) ==> r == Err::<(), DeliveryMismatch>(
            DeliveryMismatch::Counts,
        ),
        counts_match(*final(list), outbox.len() as int) ==> (r is Ok <==> forall|i: int|
            0 <= i < outbox.len() ==> delivered_as(#[trigger] outbox[i], final(list).items[i], *now)),
        r matches Err(DeliveryMismatch::Item(k)) ==> counts_match(*final(list), outbox.len() as int)
            && k < outbox.len() && !delivered_as(outbox[k as int], final(list).items[k as int], *now)
            && forall|i: int| 0 <= i < k ==> delivered_as(#[trigger] outbox[i], final(list).items[i], *now),
{
    sort_by_created(&mut list.items);
    check_delivery(outbox, list, now)
}

} // verus!
