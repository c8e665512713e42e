//! Finding the links of a chat message and reporting those that cleaning
//! changes.
use vstd::prelude::*;
use crate::sanitize::{sanitize_link, sanitized};
use crate::url_ops::pairs_view;
use crate::utf16::{decode, decode_span, encode, encode_utf16, span};

verus! {

/// An annotation over a message's text.
pub enum Entity {
    /// A link written out in the text, at `offset` for `length` UTF-16 code
    /// units.
    PlainUrl { offset: usize, length: usize },
    /// Text that links to `target`.
    Hyperlink { target: String },
    /// Any other annotation.
    Other,
}

/// The link that entity `e` gives over text whose UTF-16 code units are
/// `units`; `None` for other entities and for spans that do not decode.
pub open spec fn candidate(units: Seq<u16>, e: Entity) -> Option<Seq<char>> {
    match e {
        Entity::PlainUrl { offset, length } => decode(span(units, offset as int, length as int)),
        Entity::Hyperlink { target } => Some(target@),
        Entity::Other => None,
    }
}

/// The links that `entities` give over text whose UTF-16 code units are
/// `units`, in entity order.
pub open spec fn candidates(units: Seq<u16>, entities: Seq<Entity>) -> Seq<Seq<char>>
    decreases entities.len(),
{
    if entities.len() == 0 {
        Seq::empty()
    } else {
        let before = candidates(units, entities.drop_last());
        match candidate(units, entities.last()) {
            Some(c) => before.push(c),
            None => before,
        }
    }
}

/// The pairs (link, cleaned link) for the links whose cleaned form exists and
/// differs, in order.
pub open spec fn reports(links: Seq<Seq<char>>) -> Seq<(Seq<char>, Seq<char>)>
    decreases links.len(),
{
    if links.len() == 0 {
        Seq::empty()
    } else {
        let before = reports(links.drop_last());
        let c = links.last();
        match sanitized(c) {
            Some(s) => if s != c {
                before.push((c, s))
            } else {
                before
            },
            None => before,
        }
    }
}

/// The links of a message: for a plain link the text under its span, skipped
/// where the span does not decode; for a hyperlink its target. Other entities
/// give nothing.
pub fn extract_links(text: &str, entities: &Vec<Entity>) -> (r: Vec<String>)
    ensures
        r@.map_values(|s: String| s@) == candidates(encode(text@), entities@),
{
    let units = encode_utf16(text);
    let ghost u = encode(text@);
    let mut out: Vec<String> = Vec::new();
    let mut i: usize = 0;
    while i < entities.len()
        invariant
            i <= entities@.len(),
            units@ == u,
            out@.map_values(|s: String| s@) == candidates(u, entities@.subrange(0, i as int)),
        decreases entities.len() - i,
    {
        let ghost before = out@;
        proof {
            assert(entities@.subrange(0, i + 1).drop_last() =~= entities@.subrange(0, i as int));
            assert(entities@.subrange(0, i + 1).last() == entities@[i as int]);
        }
        match &entities[i] {
            Entity::PlainUrl { offset, length } => {
                if let Some(link) = decode_span(units.as_slice(), *offset, *length) {
                    out.push(link);
                }
            },
            Entity::Hyperlink { target } => {
                out.push(target.clone());
            },
            Entity::Other => {},
        }
        assert(out@.map_values(|s: String| s@) =~= candidates(u, entities@.subrange(0, i + 1)));
        i = i + 1;
    }
    assert(entities@.subrange(0, entities@.len() as int) =~= entities@);
    out
}

/// The links of a message whose cleaned form differs from them, each with
/// that cleaned form, in entity order.
pub fn better_links(text: &str, entities: &Vec<Entity>) -> (r: Vec<(String, String)>)
    ensures
        pairs_view(r@) == reports(candidates(encode(text@), entities@)),
{
    let links = extract_links(text, entities);
    let ghost all = links@.map_values(|s: String| s@);
    let mut out: Vec<(String, String)> = Vec::new();
    let mut i: usize = 0;
    while i < links.len()
        invariant
            i <= links@.len(),
            all == links@.map_values(|s: String| s@),
            pairs_view(out@) == reports(all.subrange(0, i as int)),
        decreases links.len() - i,
    {
        let ghost before = out@;
        proof {
            assert(all.subrange(0, i + 1).drop_last() =~= all.subrange(0, i as int));
            assert(all.subrange(0, i + 1).last() == all[i as int]);
        }
        let link = &links[i];
        if let Some(clean) = sanitize_link(link.as_str()) {
            if clean != *link {
                out.push((link.clone(), clean));
            }
        }
        assert(pairs_view(out@) =~= reports(all.subrange(0, i + 1)));
        i = i + 1;
    }
    assert(all.subrange(0, links@.len() as int) =~= all);
    out
}

} // verus!
