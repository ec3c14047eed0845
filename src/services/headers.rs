use vstd::prelude::*;
use vstd::string::*;

use super::request_filter::PROXY_NAME;

verus! {

/// Name of the header that carries the proxy's identity.
pub const SERVER_HEADER: &'static str = "Server";

/// Name of the header that advertises an alternative transport protocol.
pub const ALT_SVC_HEADER: &'static str = "alt-svc";

pub open spec fn is_ascii_upper(c: char) -> bool {
    'A' <= c && c <= 'Z'
}

/// `a` and `b` are the same letter, case aside.
pub open spec fn char_eq_ignore_case(a: char, b: char) -> bool {
    a == b || (is_ascii_upper(a) && (a as u32) + 32 == (b as u32)) || (is_ascii_upper(b) && (b as u32)
        + 32 == (a as u32))
}

/// Header names compare without regard to ASCII case.
pub open spec fn name_eq(a: Seq<char>, b: Seq<char>) -> bool {
    a.len() == b.len() && forall|i: int| 0 <= i < a.len() ==> char_eq_ignore_case(a[i], b[i])
}

pub fn header_name_eq(a: &str, b: &str) -> (r: bool)
    ensures
        r == name_eq(a@, b@),
{
    let n = a.unicode_len();
    if n != b.unicode_len() {
        return false;
    }
    let mut i: usize = 0;
    while i < n
        invariant
            n == a@.len(),
            n == b@.len(),
            i <= n,
            forall|j: int| 0 <= j < i ==> char_eq_ignore_case(a@[j], b@[j]),
        decreases n - i,
    {
        let x = a.get_char(i);
        let y = b.get_char(i);
        let same = x == y || ('A' <= x && x <= 'Z' && (x as u32) + 32 == (y as u32)) || ('A' <= y
            && y <= 'Z' && (y as u32) + 32 == (x as u32));
        if !same {
            return false;
        }
        i += 1;
    }
    true
}

/// The headers that the rewriter sets or takes away.
pub open spec fn is_rewritten(name: Seq<char>) -> bool {
    name_eq(name, SERVER_HEADER@) || name_eq(name, ALT_SVC_HEADER@)
}

pub open spec fn header_view(hs: Seq<(String, String)>) -> Seq<(Seq<char>, Seq<char>)> {
    hs.map_values(|h: (String, String)| (h.0@, h.1@))
}

/// The headers of `hs` that the rewriter leaves as they are, in order.
pub open spec fn untouched(hs: Seq<(Seq<char>, Seq<char>)>) -> Seq<(Seq<char>, Seq<char>)>
    decreases hs.len(),
{
    if hs.len() == 0 {
        Seq::empty()
    } else {
        let rest = untouched(hs.drop_last());
        if is_rewritten(hs.last().0) {
            rest
        } else {
            rest.push(hs.last())
        }
    }
}

/// Headers after rewriting: the untouched ones, then `Server` with the proxy's name.
pub open spec fn rewritten(hs: Seq<(Seq<char>, Seq<char>)>) -> Seq<(Seq<char>, Seq<char>)> {
    untouched(hs).push((SERVER_HEADER@, PROXY_NAME@))
}

pub proof fn lemma_untouched_has_no_rewritten(hs: Seq<(Seq<char>, Seq<char>)>)
    ensures
        forall|j: int| 0 <= j < untouched(hs).len() ==> !is_rewritten(#[trigger] untouched(hs)[j].0),
    decreases hs.len(),
{
    if hs.len() > 0 {
        lemma_untouched_has_no_rewritten(hs.drop_last());
        let rest = untouched(hs.drop_last());
        assert forall|j: int| 0 <= j < untouched(hs).len() implies !is_rewritten(
            #[trigger] untouched(hs)[j].0,
        ) by {
            if j < rest.len() {
                assert(untouched(hs)[j] == rest[j]);
            }
        }
    }
}

/// Rewrites the headers of an upstream response: every `Server` header gives
/// way to one with the proxy's name, and every `alt-svc` header is removed.
pub fn rewrite_headers(headers: &mut Vec<(String, String)>)
    ensures
        header_view(final(headers)@) == rewritten(header_view(old(headers)@)),
{
    let ghost old_view = header_view(headers@);
    let mut kept: Vec<(String, String)> = Vec::new();
    let mut i: usize = 0;
    while i < headers.len()
        invariant
            i <= headers@.len(),
            old_view == header_view(headers@),
            header_view(kept@) == untouched(old_view.subrange(0, i as int)),
        decreases headers.len() - i,
    {
        let ghost pre = old_view.subrange(0, i as int + 1);
        assert(pre.drop_last() =~= old_view.subrange(0, i as int));
        let name = headers[i].0.as_str();
        let skip = header_name_eq(name, SERVER_HEADER) || header_name_eq(name, ALT_SVC_HEADER);
        if !skip {
            let h = (headers[i].0.clone(), headers[i].1.clone());
            kept.push(h);
            assert(header_view(kept@) =~= untouched(pre));
        }
        i += 1;
    }
    assert(old_view.subrange(0, i as int) =~= old_view);
    kept.push((SERVER_HEADER.to_string(), PROXY_NAME.to_string()));
    assert(header_view(kept@) =~= rewritten(old_view));
    *headers = kept;
}

/// After rewriting, whatever the upstream sent, the last header is `Server`
/// with the proxy's name, no other header is named `Server`, and none is
/// named `alt-svc`.
pub proof fn lemma_rewrite_is_unconditional(hs: Seq<(Seq<char>, Seq<char>)>)
    ensures
        rewritten(hs).last() == (SERVER_HEADER@, PROXY_NAME@),
        forall|j: int|
            0 <= j < rewritten(hs).len() - 1 ==> !is_rewritten(#[trigger] rewritten(hs)[j].0),
        forall|j: int|
            0 <= j < rewritten(hs).len() ==> !name_eq(#[trigger] rewritten(hs)[j].0, ALT_SVC_HEADER@),
{
    reveal_strlit("Server");
    reveal_strlit("alt-svc");
    lemma_untouched_has_no_rewritten(hs);
    let r = rewritten(hs);
    assert forall|j: int| 0 <= j < r.len() implies !name_eq(#[trigger] r[j].0, ALT_SVC_HEADER@) by {
        if j < r.len() - 1 {
            assert(r[j] == untouched(hs)[j]);
        } else {
            assert(SERVER_HEADER@.len() != ALT_SVC_HEADER@.len());
        }
    }
}

/// Rewriting keeps the other headers: each header that is neither `Server`
/// nor `alt-svc` stays, and nothing else is kept.
pub proof fn lemma_rewrite_keeps_others(hs: Seq<(Seq<char>, Seq<char>)>)
    ensures
        rewritten(hs).drop_last() == untouched(hs),
        forall|j: int|
            0 <= j < hs.len() && !is_rewritten(hs[j].0) ==> untouched(hs).contains(#[trigger] hs[j]),
        forall|j: int|
            0 <= j < untouched(hs).len() ==> hs.contains(#[trigger] untouched(hs)[j]),
    decreases hs.len(),
{
    assert(rewritten(hs).drop_last() =~= untouched(hs));
    if hs.len() > 0 {
        let pre = hs.drop_last();
        let rest = untouched(pre);
        lemma_rewrite_keeps_others(pre);
        assert forall|j: int|
            0 <= j < hs.len() && !is_rewritten(hs[j].0) implies untouched(hs).contains(
            #[trigger] hs[j],
        ) by {
            if j < hs.len() - 1 {
                assert(pre[j] == hs[j]);
                let k = choose|k: int| 0 <= k < rest.len() && rest[k] == pre[j];
                assert(untouched(hs)[k] == rest[k]);
            } else {
                assert(untouched(hs)[untouched(hs).len() - 1] == hs[j]);
            }
        }
        assert forall|j: int| 0 <= j < untouched(hs).len() implies hs.contains(
            #[trigger] untouched(hs)[j],
        ) by {
            if j < rest.len() {
                assert(untouched(hs)[j] == rest[j]);
                let k = choose|k: int| 0 <= k < pre.len() && pre[k] == rest[j];
                assert(hs[k] == pre[k]);
            } else {
                assert(untouched(hs)[j] == hs[hs.len() - 1]);
            }
        }
    }
}

} // verus!
