use vstd::prelude::*;

verus! {

/// The UTF-16 code units of one character: one unit inside the basic plane,
/// a surrogate pair above it.
pub open spec fn char_units(c: char) -> Seq<u16> {
    let x = c as u32 as int;
    if x < 0x10000 {
        seq![x as u16]
    } else {
        seq![(0xD800 + (x - 0x10000) / 0x400) as u16, (0xDC00 + (x - 0x10000) % 0x400) as u16]
    }
}

/// The UTF-16 encoding of a character sequence.
pub open spec fn encode(s: Seq<char>) -> Seq<u16>
    decreases s.len(),
{
    if s.len() == 0 {
        Seq::empty()
    } else {
        char_units(s[0]) + encode(s.drop_first())
    }
}

/// The units that a span of `length` units from `offset` covers, cut off at
/// the end of `units`.
pub open spec fn span(units: Seq<u16>, offset: int, length: int) -> Seq<u16> {
    let n = units.len() as int;
    let start = if offset < n { offset } else { n };
    let end = if offset + length < n { offset + length } else { n };
    units.subrange(start, end)
}

/// Whether `units` is the UTF-16 encoding of some character sequence.
pub open spec fn well_formed(units: Seq<u16>) -> bool {
    exists|s: Seq<char>| encode(s) == units
}

/// The character sequence whose UTF-16 encoding is `units`, if there is one.
pub open spec fn decode(units: Seq<u16>) -> Option<Seq<char>> {
    if well_formed(units) {
        Some(choose|s: Seq<char>| encode(s) == units)
    } else {
        None
    }
}

proof fn lemma_char_units_shape(c: char)
    ensures
        char_units(c).len() == 1 ==> !(0xD800 <= char_units(c)[0] <= 0xDFFF),
        char_units(c).len() == 2 ==> 0xD800 <= char_units(c)[0] <= 0xDBFF,
{
    let x = c as u32 as int;
    assert(x < 0xD800 || 0xE000 <= x <= 0x10FFFF);
    if x >= 0x10000 {
        assert(0 <= (x - 0x10000) / 0x400 <= 0x3FF) by (nonlinear_arith)
            requires 0x10000 <= x <= 0x10FFFF;
    }
}

proof fn lemma_char_units_injective(a: char, b: char)
    requires
        char_units(a)[0] == char_units(b)[0],
        char_units(a).len() > 1 ==> char_units(a)[1] == char_units(b)[1],
    ensures
        a == b,
        char_units(a) == char_units(b),
{
    let x = a as u32 as int;
    let y = b as u32 as int;
    assert(x < 0xD800 || 0xE000 <= x <= 0x10FFFF);
}

proof fn lemma_encode_injective(a: Seq<char>, b: Seq<char>)
    requires
        encode(a) == encode(b),
    ensures
        a == b,
    decreases a.len(),
{
    if a.len() == 0 {
        if b.len() > 0 {
            assert(encode(b).len() > 0);
        }
    } else {
        assert(encode(b).len() > 0);
        let ua = char_units(a[0]);
        let ub = char_units(b[0]);
        assert(encode(a)[0] == ua[0]);
        assert(encode(b)[0] == ub[0]);
        if ub.len() > 1 && ua.len() == 1 {
            lemma_char_units_shape(a[0]);
            lemma_char_units_shape(b[0]);
        }
        if ua.len() > 1 {
            assert(encode(a)[1] == ua[1]);
            if ub.len() == 1 {
                lemma_char_units_shape(a[0]);
                lemma_char_units_shape(b[0]);
            }
            assert(encode(b)[1] == ub[1]);
        }
        lemma_char_units_injective(a[0], b[0]);
        assert(encode(a.drop_first()) =~= encode(a).subrange(ua.len() as int, encode(a).len() as int));
        assert(encode(b.drop_first()) =~= encode(b).subrange(ub.len() as int, encode(b).len() as int));
        lemma_encode_injective(a.drop_first(), b.drop_first());
        assert(a =~= seq![a[0]] + a.drop_first());
        assert(b =~= seq![b[0]] + b.drop_first());
    }
}

/// A character sequence is the decoding of its own encoding.
pub proof fn lemma_decode_encode(s: Seq<char>)
    ensures
        decode(encode(s)) == Some(s),
{
    assert(well_formed(encode(s)));
    let t = choose|t: Seq<char>| encode(t) == encode(s);
    lemma_encode_injective(t, s);
}

proof fn lemma_encode_append(x: Seq<char>, y: Seq<char>)
    ensures
        encode(x + y) == encode(x) + encode(y),
    decreases x.len(),
{
    if x.len() == 0 {
        assert(x + y =~= y);
        assert(encode(x) + encode(y) =~= encode(y));
    } else {
        assert((x + y)[0] == x[0]);
        assert((x + y).drop_first() =~= x.drop_first() + y);
        lemma_encode_append(x.drop_first(), y);
        assert(encode(x + y) =~= encode(x) + encode(y));
    }
}

/// A span that starts and ends on character boundaries of a text decodes to
/// exactly the characters between them.
pub proof fn lemma_span_on_boundaries(before: Seq<char>, inside: Seq<char>, after: Seq<char>)
    ensures
        decode(
            span(encode(before + inside + after), encode(before).len() as int, encode(inside).len() as int),
        ) == Some(inside),
{
    lemma_encode_append(before, inside);
    lemma_encode_append(before + inside, after);
    let all = encode(before + inside + after);
    let a = encode(before).len() as int;
    let b = encode(inside).len() as int;
    assert(span(all, a, b) =~= encode(inside));
    lemma_decode_encode(inside);
}

/// Units that start with the second half of a surrogate pair decode to
/// nothing: a span that starts inside a character is not a text.
pub proof fn lemma_split_pair_not_decoded(units: Seq<u16>)
    requires
        units.len() > 0,
        0xDC00 <= units[0] <= 0xDFFF,
    ensures
        decode(units) is None,
{
    if well_formed(units) {
        let s = choose|s: Seq<char>| encode(s) == units;
        assert(s.len() > 0);
        assert(encode(s)[0] == char_units(s[0])[0]);
        lemma_char_units_shape(s[0]);
    }
}

/// Relies on `str::encode_utf16`: the text's UTF-16 code units, in order.
#[verifier::external_body]
pub(crate) fn encode_utf16(text: &str) -> (r: Vec<u16>)
    ensures
        r@ == encode(text@),
{
    text.encode_utf16().collect()
}

/// Relies on `String::from_utf16`: the text whose encoding is `units`, or an
/// error where `units` holds an unpaired surrogate.
#[verifier::external_body]
fn from_utf16(units: &[u16]) -> (r: Option<String>)
    ensures
        match r {
            Some(s) => encode(s@) == units@,
            None => !well_formed(units@),
        },
{
    String::from_utf16(units).ok()
}

/// The text that a span of UTF-16 code units covers, or `None` where the span
/// starts or ends inside a surrogate pair. A span that runs past the end of the
/// text is cut off there.
pub fn decode_span(units: &[u16], offset: usize, length: usize) -> (r: Option<String>)
    ensures
        match r {
            Some(s) => decode(span(units@, offset as int, length as int)) == Some(s@),
            None => decode(span(units@, offset as int, length as int)) is None,
        },
{
    let n = units.len();
    let start: usize = if offset < n { offset } else { n };
    let end: usize = if length < n - start { start + length } else { n };
    let mut piece: Vec<u16> = Vec::new();
    let mut i: usize = start;
    while i < end
        invariant
            start <= i <= end <= n == units@.len(),
            piece@ == units@.subrange(start as int, i as int),
        decreases end - i,
    {
        piece.push(units[i]);
        i = i + 1;
        assert(piece@ =~= units@.subrange(start as int, i as int));
    }
    proof {
        assert(piece@ =~= span(units@, offset as int, length as int));
    }
    let r = from_utf16(piece.as_slice());
    proof {
        if r is Some {
            lemma_decode_encode(r->Some_0@);
        }
    }
    r
}

} // verus!
