use rand::Rng;
use vstd::prelude::*;
use vstd::string::StringExecFns;

use crate::delivery::Fixture;

verus! {

/// Whether `c` is an ASCII letter or digit.
pub open spec fn alphanumeric(c: char) -> bool {
    ('a' <= c && c <= 'z') || ('A' <= c && c <= 'Z') || ('0' <= c && c <= '9')
}

/// Whether `s` is `n` ASCII letters and digits.
pub open spec fn alphanumeric_text(s: Seq<char>, n: nat) -> bool {
    s.len() == n && forall|i: int| 0 <= i < s.len() ==> alphanumeric(#[trigger] s[i])
}

/// The address `mailbox@domain`.
pub open spec fn address(mailbox: Seq<char>, domain: Seq<char>) -> Seq<char> {
    mailbox + seq!['@'] + domain
}

/// Whether `d` is a random domain: ten letters and digits, then `.com`.
pub open spec fn random_domain(d: Seq<char>) -> bool {
    exists|label: Seq<char>| #[trigger] alphanumeric_text(label, 10) && d == label + ".com"@
}

/// Whether `s` is an address with a random ten-character mailbox, at `domain` when one is
/// given and at a random domain otherwise.
pub open spec fn random_address(s: Seq<char>, domain: Option<Seq<char>>) -> bool {
    exists|mailbox: Seq<char>, d: Seq<char>|
        #![trigger alphanumeric_text(mailbox, 10), address(mailbox, d)]
        alphanumeric_text(mailbox, 10) && s == address(mailbox, d) && match domain {
            Some(x) => d == x,
            None => random_domain(d),
        }
}

/// Relies on rand's `thread_rng` and its `Alphanumeric` distribution, which yields bytes
/// drawn from `A-Z`, `a-z` and `0-9`: `n` of them, as characters. (`thread_rng` panics
/// only when the operating system cannot seed it.)
#[verifier::external_body]
fn make_rand_str(n: usize) -> (r: String)
    ensures
        alphanumeric_text(r@, n as nat),
{
    rand::thread_rng().sample_iter(&rand::distributions::Alphanumeric).take(n).map(char::from).collect()
}

/// What may be pinned when fixtures are made; every field left `None` is drawn at random.
#[derive(Clone, Debug, Default, PartialEq, Eq)]
pub struct MakeMessagesParams {
    pub to: Option<String>,
    pub from: Option<String>,
    pub subject: Option<String>,
    pub body: Option<String>,
}

/// Whether `f` is a fixture that `params` allows: each pinned field as pinned, random
/// addresses for unpinned sender or recipient, fifty random letters and digits for an
/// unpinned subject and two hundred for an unpinned body.
pub open spec fn fits(f: Fixture, params: MakeMessagesParams) -> bool {
    &&& match params.to {
        Some(t) => f.to@ == t@,
        None => random_address(f.to@, None),
    }
    &&& match params.from {
        Some(t) => f.from@ == t@,
        None => random_address(f.from@, None),
    }
    &&& match params.subject {
        Some(t) => f.subject@ == t@,
        None => alphanumeric_text(f.subject@, 50),
    }
    &&& match params.body {
        Some(t) => f.body@ == t@,
        None => alphanumeric_text(f.body@, 200),
    }
}

/// A random address: ten random letters and digits at `domain`, or at ten random letters
/// and digits followed by `.com` when no domain is given.
pub fn make_rand_email_addr(domain: Option<String>) -> (r: String)
    ensures
        random_address(
            r@,
            match domain {
                Some(d) => Some(d@),
                None => None,
            },
        ),
{
    let mailbox = make_rand_str(10);
    let dom = match domain {
        Some(d) => d,
        None => {
            let mut label = make_rand_str(10);
            proof {
                reveal_strlit(".com");
            }
            let ghost l = label@;
            label.append(".com");
            assert(alphanumeric_text(l, 10));
            assert(random_domain(label@));
            label
        },
    };
    let mut r = mailbox.clone();
    proof {
        reveal_strlit("@");
    }
    r.append("@");
    r.append(dom.as_str());
    assert(alphanumeric_text(mailbox@, 10));
    assert(r@ == address(mailbox@, dom@));
    r
}

/// One fixture, with the fields that `params` leaves open drawn at random.
pub fn make_rand_message(params: &MakeMessagesParams) -> (r: Fixture)
    ensures
        fits(r, *params),
{
    let to = match &params.to {
        Some(t) => t.clone(),
        None => make_rand_email_addr(None),
    };
    let from = match &params.from {
        Some(t) => t.clone(),
        None => make_rand_email_addr(None),
    };
    let subject = match &params.subject {
        Some(t) => t.clone(),
        None => make_rand_str(50),
    };
    let body = match &params.body {
        Some(t) => t.clone(),
        None => make_rand_str(200),
    };
    Fixture { to, from, subject, body }
}

/// `n` fixtures, each with the fields that `params` leaves open drawn anew.
pub fn make_rand_messages(n: usize, params: &MakeMessagesParams) -> (r: Vec<Fixture>)
    ensures
        r.len() == n,
        forall|i: int| 0 <= i < n ==> fits(#[trigger] r[i], *params),
{
    let mut r: Vec<Fixture> = Vec::new();
    while r.len() < n
        invariant
            r.len() <= n,
            forall|i: int| 0 <= i < r.len() ==> fits(#[trigger] r[i], *params),
        decreases n - r.len(),
    {
        r.push(make_rand_message(params));
    }
    r
}

} // verus!
