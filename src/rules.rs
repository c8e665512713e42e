//! The fixed rules of cleaning: which query parameters stay, which hosts are
//! replaced, and which scheme is upgraded.
use vstd::prelude::*;

verus! {

/// Whether a query parameter named `key` survives cleaning: only the video id
/// `v` does.
pub open spec fn allowed_key(key: Seq<char>) -> bool {
    key == "v"@
}

/// The pairs of `pairs` whose name is allowed, in their original order.
pub open spec fn kept(pairs: Seq<(Seq<char>, Seq<char>)>) -> Seq<(Seq<char>, Seq<char>)> {
    pairs.filter(|p: (Seq<char>, Seq<char>)| allowed_key(p.0))
}

/// The mirror host that replaces the lower-cased host `host`, if it is a
/// known one.
pub open spec fn replacement(host: Seq<char>) -> Option<Seq<char>> {
    if host == "x.com"@ || host == "twitter.com"@ {
        Some("fxtwitter.com"@)
    } else if host == "instagram.com"@ || host == "www.instagram.com"@ {
        Some("eeinstagram.com"@)
    } else if host == "reddit.com"@ || host == "www.reddit.com"@ || host == "redd.it"@ {
        Some("rxddit.com"@)
    } else if host == "bsky.app"@ || host == "www.bsky.app"@ {
        Some("fxbsky.app"@)
    } else if host == "tiktok.com"@ || host == "www.tiktok.com"@ || host == "vm.tiktok.com"@ {
        Some("tiktokez.com"@)
    } else {
        None
    }
}

/// Whether `scheme` is the insecure one that is upgraded.
pub open spec fn insecure(scheme: Seq<char>) -> bool {
    scheme == "http"@
}

/// Pairs whose names are all allowed are kept whole.
pub proof fn lemma_all_allowed_kept(pairs: Seq<(Seq<char>, Seq<char>)>)
    requires
        forall|i: int| 0 <= i < pairs.len() ==> allowed_key(#[trigger] pairs[i].0),
    ensures
        kept(pairs) == pairs,
    decreases pairs.len(),
{
    reveal_with_fuel(Seq::filter, 1);
    if pairs.len() > 0 {
        let rest = pairs.drop_last();
        assert forall|i: int| 0 <= i < rest.len() implies allowed_key(#[trigger] rest[i].0) by {
            assert(rest[i] == pairs[i]);
        }
        lemma_all_allowed_kept(rest);
        assert(allowed_key(pairs[pairs.len() - 1].0));
        assert(rest.push(pairs.last()) =~= pairs);
    }
}

/// Every kept pair has an allowed name and comes from the input, and every
/// pair of the input with an allowed name is kept.
pub proof fn lemma_kept_exactly_allowed(pairs: Seq<(Seq<char>, Seq<char>)>)
    ensures
        forall|j: int|
            0 <= j < kept(pairs).len() ==> allowed_key(#[trigger] kept(pairs)[j].0) && pairs.contains(
                kept(pairs)[j],
            ),
        forall|i: int| 0 <= i < pairs.len() && allowed_key(#[trigger] pairs[i].0) ==> kept(pairs).contains(pairs[i]),
{
    broadcast use vstd::seq_lib::group_filter_ensures;

    assert forall|j: int| 0 <= j < kept(pairs).len() implies pairs.contains(
        #[trigger] kept(pairs)[j],
    ) by {
        assert(kept(pairs).contains(kept(pairs)[j]));
        pairs.lemma_filter_contains_rev(|p: (Seq<char>, Seq<char>)| allowed_key(p.0), kept(pairs)[j]);
    }
    assert forall|i: int| 0 <= i < pairs.len() && allowed_key(#[trigger] pairs[i].0) implies kept(
        pairs,
    ).contains(pairs[i]) by {
        pairs.lemma_filter_contains(|p: (Seq<char>, Seq<char>)| allowed_key(p.0), i);
    }
}

/// Keeping the allowed pairs of two sequences laid end to end is keeping
/// those of each, laid end to end.
pub proof fn lemma_kept_concat(x: Seq<(Seq<char>, Seq<char>)>, y: Seq<(Seq<char>, Seq<char>)>)
    ensures
        kept(x + y) == kept(x) + kept(y),
    decreases y.len(),
{
    reveal_with_fuel(Seq::filter, 1);
    if y.len() == 0 {
        assert(x + y =~= x);
        assert(kept(x) + kept(y) =~= kept(x));
    } else {
        assert((x + y).drop_last() =~= x + y.drop_last());
        assert((x + y).last() == y.last());
        lemma_kept_concat(x, y.drop_last());
        assert(kept(x + y) =~= kept(x) + kept(y));
    }
}

/// An allowed pair keeps its value and its place: it stays between the
/// allowed pairs that came before it and those that came after it, and
/// nothing else is left.
pub proof fn lemma_allowed_pair_kept_in_place(
    before: Seq<(Seq<char>, Seq<char>)>,
    pair: (Seq<char>, Seq<char>),
    after: Seq<(Seq<char>, Seq<char>)>,
)
    requires
        allowed_key(pair.0),
    ensures
        kept(before + seq![pair] + after) == kept(before) + seq![pair] + kept(after),
{
    lemma_kept_concat(before, seq![pair]);
    lemma_kept_concat(before + seq![pair], after);
    reveal_with_fuel(Seq::filter, 2);
    assert(seq![pair].drop_last() =~= Seq::<(Seq<char>, Seq<char>)>::empty());
    assert(kept(seq![pair]) =~= seq![pair]);
}

/// Keeping the allowed pairs twice keeps the same pairs as doing it once.
pub proof fn lemma_kept_idempotent(pairs: Seq<(Seq<char>, Seq<char>)>)
    ensures
        kept(kept(pairs)) == kept(pairs),
{
    lemma_kept_exactly_allowed(pairs);
    assert forall|i: int| 0 <= i < kept(pairs).len() implies allowed_key(#[trigger] kept(pairs)[i].0) by {
        assert(allowed_key(kept(pairs)[i].0));
    }
    lemma_all_allowed_kept(kept(pairs));
}

/// A mirror host is not itself replaced: host rewriting settles after one step.
pub proof fn lemma_mirror_is_final(host: Seq<char>)
    ensures
        replacement(host) matches Some(m) ==> replacement(m) is None,
{
    reveal_strlit("x.com");
    assert("x.com"@.len() == 5 && "x.com"@[0] == 'x' && "x.com"@[1] == '.');
    reveal_strlit("twitter.com");
    assert("twitter.com"@.len() == 11 && "twitter.com"@[0] == 't' && "twitter.com"@[1] == 'w');
    reveal_strlit("fxtwitter.com");
    assert("fxtwitter.com"@.len() == 13 && "fxtwitter.com"@[0] == 'f' && "fxtwitter.com"@[1] == 'x');
    reveal_strlit("instagram.com");
    assert("instagram.com"@.len() == 13 && "instagram.com"@[0] == 'i' && "instagram.com"@[1] == 'n');
    reveal_strlit("www.instagram.com");
    assert("www.instagram.com"@.len() == 17 && "www.instagram.com"@[0] == 'w' && "www.instagram.com"@[1] == 'w');
    reveal_strlit("eeinstagram.com");
    assert("eeinstagram.com"@.len() == 15 && "eeinstagram.com"@[0] == 'e' && "eeinstagram.com"@[1] == 'e');
    reveal_strlit("reddit.com");
    assert("reddit.com"@.len() == 10 && "reddit.com"@[0] == 'r' && "reddit.com"@[1] == 'e');
    reveal_strlit("www.reddit.com");
    assert("www.reddit.com"@.len() == 14 && "www.reddit.com"@[0] == 'w' && "www.reddit.com"@[1] == 'w');
    reveal_strlit("redd.it");
    assert("redd.it"@.len() == 7 && "redd.it"@[0] == 'r' && "redd.it"@[1] == 'e');
    reveal_strlit("rxddit.com");
    assert("rxddit.com"@.len() == 10 && "rxddit.com"@[0] == 'r' && "rxddit.com"@[1] == 'x');
    reveal_strlit("bsky.app");
    assert("bsky.app"@.len() == 8 && "bsky.app"@[0] == 'b' && "bsky.app"@[1] == 's');
    reveal_strlit("www.bsky.app");
    assert("www.bsky.app"@.len() == 12 && "www.bsky.app"@[0] == 'w' && "www.bsky.app"@[1] == 'w');
    reveal_strlit("fxbsky.app");
    assert("fxbsky.app"@.len() == 10 && "fxbsky.app"@[0] == 'f' && "fxbsky.app"@[1] == 'x');
    reveal_strlit("tiktok.com");
    assert("tiktok.com"@.len() == 10 && "tiktok.com"@[0] == 't' && "tiktok.com"@[1] == 'i');
    reveal_strlit("www.tiktok.com");
    assert("www.tiktok.com"@.len() == 14 && "www.tiktok.com"@[0] == 'w' && "www.tiktok.com"@[1] == 'w');
    reveal_strlit("vm.tiktok.com");
    assert("vm.tiktok.com"@.len() == 13 && "vm.tiktok.com"@[0] == 'v' && "vm.tiktok.com"@[1] == 'm');
    reveal_strlit("tiktokez.com");
    assert("tiktokez.com"@.len() == 12 && "tiktokez.com"@[0] == 't' && "tiktokez.com"@[1] == 'i');
}

/// The scheme that an upgrade writes is not upgraded again.
pub proof fn lemma_upgrade_is_final()
    ensures
        !insecure("https"@),
{
    reveal_strlit("https");
    reveal_strlit("http");
    assert("https"@.len() != "http"@.len());
}

fn same_text(s: &str, lit: &str) -> (r: bool)
    ensures
        r == (s@ == lit@),
{
    let a = s.to_owned();
    let b = lit.to_owned();
    a == b
}

/// Whether the query parameter `key` is kept.
pub fn is_allowed_param(key: &str) -> (r: bool)
    ensures
        r == allowed_key(key@),
{
    same_text(key, "v")
}

/// The pairs whose name is allowed, in their original order.
pub fn kept_pairs(pairs: &Vec<(String, String)>) -> (r: Vec<(String, String)>)
    ensures
        crate::url_ops::pairs_view(r@) == kept(crate::url_ops::pairs_view(pairs@)),
{
    let ghost all = crate::url_ops::pairs_view(pairs@);
    let mut out: Vec<(String, String)> = Vec::new();
    let mut i: usize = 0;
    while i < pairs.len()
        invariant
            i <= pairs@.len(),
            all == crate::url_ops::pairs_view(pairs@),
            crate::url_ops::pairs_view(out@) == kept(all.subrange(0, i as int)),
        decreases pairs.len() - i,
    {
        let ghost before = out@;
        let key = &pairs[i].0;
        if is_allowed_param(key.as_str()) {
            let k = pairs[i].0.clone();
            let v = pairs[i].1.clone();
            out.push((k, v));
            assert(crate::url_ops::pairs_view(out@) =~= crate::url_ops::pairs_view(before).push(all[i as int]));
        }
        proof {
            reveal_with_fuel(Seq::filter, 1);
            assert(all.subrange(0, i + 1).drop_last() =~= all.subrange(0, i as int));
            assert(all.subrange(0, i + 1).last() == all[i as int]);
            assert(crate::url_ops::pairs_view(out@) == kept(all.subrange(0, i + 1)));
        }
        i = i + 1;
    }
    assert(all.subrange(0, pairs@.len() as int) =~= all);
    out
}

/// The mirror host for the lower-cased host `host`, if it is a known one.
pub fn replacement_host(host: &str) -> (r: Option<String>)
    ensures
        match r {
            Some(h) => replacement(host@) == Some(h@),
            None => replacement(host@) is None,
        },
{
    if same_text(host, "x.com") || same_text(host, "twitter.com") {
        Some("fxtwitter.com".to_owned())
    } else if same_text(host, "instagram.com") || same_text(host, "www.instagram.com") {
        Some("eeinstagram.com".to_owned())
    } else if same_text(host, "reddit.com") || same_text(host, "www.reddit.com") || same_text(
        host,
        "redd.it",
    ) {
        Some("rxddit.com".to_owned())
    } else if same_text(host, "bsky.app") || same_text(host, "www.bsky.app") {
        Some("fxbsky.app".to_owned())
    } else if same_text(host, "tiktok.com") || same_text(host, "www.tiktok.com") || same_text(
        host,
        "vm.tiktok.com",
    ) {
        Some("tiktokez.com".to_owned())
    } else {
        None
    }
}

/// Whether `scheme` is upgraded to the secure one.
pub fn is_insecure_scheme(scheme: &str) -> (r: bool)
    ensures
        r == insecure(scheme@),
{
    same_text(scheme, "http")
}

} // verus!
