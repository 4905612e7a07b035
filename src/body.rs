use vstd::prelude::*;
use vstd::string::StrSliceExecFns;
use vstd::string::StringExecFns;

verus! {

/// A quoted-printable soft line break: `=` followed by CR LF.
pub open spec fn soft_break() -> Seq<char> {
    seq!['=', '\r', '\n']
}

/// Whether a soft line break starts at position `i` of `s`.
pub open spec fn soft_break_at(s: Seq<char>, i: int) -> bool {
    0 <= i && i + 3 <= s.len() && s[i] == '=' && s[i + 1] == '\r' && s[i + 2] == '\n'
}

/// `s` with every soft line break removed, scanning from the left.
pub open spec fn strip_soft_breaks(s: Seq<char>) -> Seq<char>
    decreases s.len(),
{
    if s.len() == 0 {
        seq![]
    } else if soft_break_at(s, 0) {
        strip_soft_breaks(s.skip(3))
    } else {
        seq![s[0]] + strip_soft_breaks(s.skip(1))
    }
}

/// Whether `s` holds no `=`, the one character that quoted-printable escapes in plain text.
pub open spec fn plain(s: Seq<char>) -> bool {
    forall|i: int| 0 <= i < s.len() ==> s[i] != '='
}

/// Pieces of plain text joined by soft line breaks, as an encoder wraps long lines.
pub open spec fn soft_wrapped(pieces: Seq<Seq<char>>) -> Seq<char>
    decreases pieces.len(),
{
    if pieces.len() == 0 {
        seq![]
    } else if pieces.len() == 1 {
        pieces[0]
    } else {
        pieces[0] + soft_break() + soft_wrapped(pieces.skip(1))
    }
}

/// Removes the soft line breaks that quoted-printable transport left in a body.
pub fn normalize_body(body: &str) -> (r: String)
    ensures
        r@ == strip_soft_breaks(body@),
{
    let n = body.unicode_len();
    let mut r = String::new();
    let mut i: usize = 0;
    assert(body@.skip(0) =~= body@);
    assert(r@ + strip_soft_breaks(body@) =~= strip_soft_breaks(body@));
    while i < n
        invariant
            n == body@.len(),
            i <= n,
            r@ + strip_soft_breaks(body@.skip(i as int)) == strip_soft_breaks(body@),
        decreases n - i,
    {
        let ghost t = body@.skip(i as int);
        if n - i >= 3 && body.get_char(i) == '=' && body.get_char(i + 1) == '\r' && body.get_char(
            i + 2,
        ) == '\n' {
            assert(soft_break_at(t, 0));
            assert(t.skip(3) =~= body@.skip(i + 3));
            i = i + 3;
        } else {
            assert(!soft_break_at(t, 0));
            assert(t.skip(1) =~= body@.skip(i + 1));
            let c = body.substring_char(i, i + 1);
            assert(c@ =~= seq![t[0]]);
            r.append(c);
            assert(r@ + strip_soft_breaks(body@.skip(i + 1)) =~= strip_soft_breaks(body@));
            i = i + 1;
        }
    }
    assert(body@.skip(n as int) =~= Seq::<char>::empty());
    assert(r@ =~= strip_soft_breaks(body@));
    r
}

/// Stripping after a plain prefix keeps the prefix as it is.
proof fn lemma_plain_prefix(a: Seq<char>, t: Seq<char>)
    requires
        plain(a),
    ensures
        strip_soft_breaks(a + t) == a + strip_soft_breaks(t),
    decreases a.len(),
{
    if a.len() > 0 {
        let s = a + t;
        assert(!soft_break_at(s, 0));
        assert(s.skip(1) =~= a.skip(1) + t);
        lemma_plain_prefix(a.skip(1), t);
        assert(s =~= seq![a[0]] + (a.skip(1) + t));
        assert(a =~= seq![a[0]] + a.skip(1));
    } else {
        assert(a + t =~= t);
    }
}

/// A plain body (no `=`) is unchanged by normalization.
pub proof fn lemma_plain_unchanged(s: Seq<char>)
    requires
        plain(s),
    ensures
        strip_soft_breaks(s) == s,
{
    lemma_plain_prefix(s, seq![]);
    assert(s + Seq::<char>::empty() =~= s);
}

/// A plain body, cut into lines that an encoder joins with soft line breaks, comes back
/// whole from normalization: the pieces, concatenated.
pub proof fn lemma_soft_wrap_round_trip(pieces: Seq<Seq<char>>)
    requires
        forall|k: int| 0 <= k < pieces.len() ==> plain(#[trigger] pieces[k]),
    ensures
        strip_soft_breaks(soft_wrapped(pieces)) == pieces.flatten(),
    decreases pieces.len(),
{
    if pieces.len() == 0 {
    } else if pieces.len() == 1 {
        lemma_plain_unchanged(pieces[0]);
        assert(pieces.drop_first() =~= Seq::<Seq<char>>::empty());
        assert(pieces.drop_first().flatten() == Seq::<char>::empty());
        assert(pieces.flatten() == pieces.first() + pieces.drop_first().flatten());
        assert(pieces.flatten() =~= pieces[0]);
    } else {
        let rest = pieces.skip(1);
        assert forall|k: int| 0 <= k < rest.len() implies plain(#[trigger] rest[k]) by {
            assert(rest[k] == pieces[k + 1]);
        }
        lemma_soft_wrap_round_trip(rest);
        let tail = soft_break() + soft_wrapped(rest);
        assert(pieces[0] + soft_break() + soft_wrapped(rest) =~= pieces[0] + tail);
        lemma_plain_prefix(pieces[0], tail);
        assert(soft_break_at(tail, 0));
        assert(tail.skip(3) =~= soft_wrapped(rest));
        assert(pieces.drop_first() == rest);
    }
}

} // verus!
