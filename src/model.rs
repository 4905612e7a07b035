use vstd::prelude::*;
use vstd::string::StringExecFns;

verus! {

/// How a retrieval can fail.
#[derive(Clone, Copy, Debug, PartialEq, Eq, Structural)]
pub enum ClientError {
    /// No response was obtained (connection, DNS or other I/O failure).
    Transport,
    /// The server answered with a status outside the success range.
    HttpStatus(u16),
    /// The response body does not have the expected shape.
    MalformedResponse,
}

/// A mailbox address as the capture service reports it.
#[derive(Clone, Debug, PartialEq, Eq)]
pub struct EmailAddr {
    pub mailbox: String,
    pub domain: String,
    pub params: String,
    pub relays: Option<String>,
}

impl EmailAddr {
    /// The textual form `mailbox@domain`; params and relays take no part in it.
    pub open spec fn text(&self) -> Seq<char> {
        self.mailbox@ + seq!['@'] + self.domain@
    }

    /// Renders the address as `mailbox@domain`.
    pub fn to_text(&self) -> (r: String)
        ensures
            r@ == self.text(),
    {
        let mut r = self.mailbox.clone();
        let at = "@";
        proof {
            reveal_strlit("@");
        }
        r.append(at);
        r.append(self.domain.as_str());
        r
    }
}

/// The content of a captured message.
#[derive(Clone, Debug, PartialEq, Eq)]
pub struct MessageContent {
    /// Header name and its values, in the order the server gave them.
    pub headers: Vec<(String, Vec<String>)>,
    /// The body as received, transport artifacts included.
    pub body: String,
    /// Size of the encoded body.
    pub size: usize,
    pub mime: Option<String>,
}

impl MessageContent {
    /// Values of the first header entry named `key` (names compare case-sensitively).
    pub open spec fn header_values(&self, key: Seq<char>) -> Option<Vec<String>> {
        first_header(self.headers@, key)
    }

    /// Values of the first header entry named `key` (names compare case-sensitively).
    pub fn header(&self, key: &String) -> (r: Option<&Vec<String>>)
        ensures
            r is Some <==> self.header_values(key@) is Some,
            r is Some ==> *r->0 == self.header_values(key@)->0,
    {
        let mut i: usize = 0;
        assert(self.headers@.skip(0) =~= self.headers@);
        while i < self.headers.len()
            invariant
                i <= self.headers.len(),
                first_header(self.headers@, key@) == first_header(self.headers@.skip(i as int), key@),
            decreases self.headers.len() - i,
        {
            assert(self.headers@.skip(i as int).drop_first() =~= self.headers@.skip(i + 1));
            if self.headers[i].0 == *key {
                return Some(&self.headers[i].1);
            }
            i = i + 1;
        }
        None
    }
}

/// Values of the first entry of `entries` named `key`.
pub open spec fn first_header(entries: Seq<(String, Vec<String>)>, key: Seq<char>) -> Option<Vec<String>>
    decreases entries.len(),
{
    if entries.len() == 0 {
        None
    } else if entries[0].0@ == key {
        Some(entries[0].1)
    } else {
        first_header(entries.drop_first(), key)
    }
}

/// An instant in UTC: seconds since the Unix epoch and the nanoseconds past that second
/// (beyond a billion only during a leap second).
#[derive(Clone, Copy, Debug, PartialEq, Eq, Structural)]
pub struct Timestamp {
    pub secs: i64,
    pub nanos: u32,
}

impl Timestamp {
    /// Whether `self` comes strictly before `other` in time.
    pub open spec fn before(&self, other: &Timestamp) -> bool {
        self.secs < other.secs || (self.secs == other.secs && self.nanos < other.nanos)
    }

    /// Whether `self` comes strictly before `other` in time.
    pub fn is_before(&self, other: &Timestamp) -> (r: bool)
        ensures
            r == self.before(other),
    {
        self.secs < other.secs || (self.secs == other.secs && self.nanos < other.nanos)
    }
}

/// The instant that a timezone-qualified timestamp text denotes, converted to UTC, as
/// seconds since the epoch and nanoseconds past the second; `None` where the text is not one.
pub uninterp spec fn utc_instant(text: Seq<char>) -> Option<(i64, u32)>;

/// Relies on chrono's `FromStr for DateTime<Utc>` (a relaxed RFC 3339 reader that
/// converts the offset to UTC, the same reader its serde support uses), read back with
/// `timestamp` and `timestamp_subsec_nanos`.
#[verifier::external_body]
fn parse_utc(text: &str) -> (r: Option<(i64, u32)>)
    ensures
        r == utc_instant(text@),
{
    text.parse::<chrono::DateTime<chrono::Utc>>().ok().map(
        |t| (t.timestamp(), t.timestamp_subsec_nanos()),
    )
}

/// Reads a timestamp as the server writes it.
pub fn parse_timestamp(text: &str) -> (r: Result<Timestamp, ClientError>)
    ensures
        match utc_instant(text@) {
            Some((s, n)) => r == Ok::<Timestamp, ClientError>(Timestamp { secs: s, nanos: n }),
            None => r == Err::<Timestamp, ClientError>(ClientError::MalformedResponse),
        },
{
    match parse_utc(text) {
        Some((secs, nanos)) => Ok(Timestamp { secs, nanos }),
        None => Err(ClientError::MalformedResponse),
    }
}

/// A captured message.
#[derive(Clone, Debug, PartialEq, Eq)]
pub struct Message {
    pub id: String,
    pub from: EmailAddr,
    pub to: Vec<EmailAddr>,
    pub content: MessageContent,
    pub created: Timestamp,
}

impl Message {
    /// Messages order by creation time alone.
    pub fn created_before(&self, other: &Message) -> (r: bool)
        ensures
            r == self.created.before(&other.created),
    {
        self.created.is_before(&other.created)
    }
}

/// A message as it stands in a response, its creation time still as text.
#[derive(Clone, Debug, PartialEq, Eq)]
pub struct RawMessage {
    pub id: String,
    pub from: EmailAddr,
    pub to: Vec<EmailAddr>,
    pub content: MessageContent,
    pub created: String,
}

/// The message that a raw one decodes to, if its timestamp reads.
pub open spec fn decoded(raw: RawMessage) -> Option<Message> {
    match utc_instant(raw.created@) {
        Some((s, n)) => Some(
            Message {
                id: raw.id,
                from: raw.from,
                to: raw.to,
                content: raw.content,
                created: Timestamp { secs: s, nanos: n },
            },
        ),
        None => None,
    }
}

impl Message {
    /// Decodes a message; every field but the timestamp is carried over unchanged.
    pub fn decode(raw: RawMessage) -> (r: Result<Message, ClientError>)
        ensures
            decoded(raw) is Some ==> r == Ok::<Message, ClientError>(decoded(raw)->0),
            decoded(raw) is None ==> r == Err::<Message, ClientError>(ClientError::MalformedResponse),
    {
        let created = parse_timestamp(raw.created.as_str());
        match created {
            Ok(t) => Ok(
                Message { id: raw.id, from: raw.from, to: raw.to, content: raw.content, created: t },
            ),
            Err(e) => Err(e),
        }
    }
}

/// One page of messages.
#[derive(Clone, Debug, PartialEq, Eq)]
pub struct MessageList {
    /// Number of messages that match, over all pages.
    pub total: i64,
    /// Offset of this page.
    pub start: i64,
    /// Number of messages in this page.
    pub count: i64,
    /// The page, in the order the server gave it.
    pub items: Vec<Message>,
}

/// One page of messages as it stands in a response.
#[derive(Clone, Debug, PartialEq, Eq)]
pub struct RawMessageList {
    pub total: i64,
    pub start: i64,
    pub count: i64,
    pub items: Vec<RawMessage>,
}

/// Whether every item's timestamp reads.
pub open spec fn all_decode(items: Seq<RawMessage>) -> bool {
    forall|i: int| 0 <= i < items.len() ==> (#[trigger] decoded(items[i])) is Some
}

/// Whether `list` is `raw` decoded: the same counts, and each item decoded in place.
pub open spec fn decodes_to(raw: RawMessageList, list: MessageList) -> bool {
    &&& list.total == raw.total
    &&& list.start == raw.start
    &&& list.count == raw.count
    &&& list.items.len() == raw.items.len()
    &&& forall|i: int| 0 <= i < raw.items.len() ==> Some(#[trigger] list.items[i]) == decoded(raw.items[i])
}

impl MessageList {
    /// Whether the page agrees with itself: `count` is the number of items, within `total`.
    pub open spec fn consistent(&self) -> bool {
        0 <= self.start && self.count == self.items.len() && self.count <= self.total
    }

    /// Checks that `count` is the number of items and at most `total`, from a start at or past zero.
    pub fn is_consistent(&self) -> (r: bool)
        ensures
            r == self.consistent(),
    {
        0 <= self.start && self.count as i128 == self.items.len() as i128
            && self.count <= self.total
    }

    /// Decodes a page: it fails exactly when some item's timestamp does not read, and
    /// otherwise keeps the counts and each item's fields, in order.
    pub fn decode(raw: RawMessageList) -> (r: Result<MessageList, ClientError>)
        ensures
            all_decode(raw.items@) ==> (r is Ok && decodes_to(raw, r->Ok_0)),
            !all_decode(raw.items@) ==> r == Err::<MessageList, ClientError>(
                ClientError::MalformedResponse,
            ),
    {
        let ghost orig = raw.items@;
        let mut rest = raw.items;
        let mut items: Vec<Message> = Vec::new();
        #[verifier::loop_isolation(false)]
        while rest.len() > 0
            invariant
                items.len() + rest.len() == orig.len(),
                rest@ == orig.skip(items.len() as int),
                forall|i: int| 0 <= i < items.len() ==> Some(#[trigger] items[i]) == decoded(orig[i]),
            decreases rest.len(),
        {
            let ghost k = items.len() as int;
            let m = rest.remove(0);
            assert(m == orig[k]);
            match Message::decode(m) {
                Ok(d) => {
                    items.push(d);
                },
                Err(e) => {
                    assert(decoded(orig[k]) is None);
                    assert(!all_decode(orig));
                    return Err(e);
                },
            }
            assert(rest@ =~= orig.skip(items.len() as int));
        }
        assert forall|i: int| 0 <= i < orig.len() implies (#[trigger] decoded(orig[i])) is Some by {
            assert(Some(items[i]) == decoded(orig[i]));
        }
        Ok(MessageList { total: raw.total, start: raw.start, count: raw.count, items })
    }
}

} // verus!
