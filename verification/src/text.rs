//! Byte strings: keywords, fields between separators, blank margins.

use vstd::prelude::*;
use vstd::slice::slice_subrange;
use vstd::string::*;

verus! {

/// The line feed that ends a line of text.
pub const LINE_FEED: u8 = 10;

/// The bytes of a string made of ASCII characters only.
pub open spec fn ascii(s: Seq<char>) -> Seq<u8> {
    Seq::new(s.len(), |i: int| s[i] as u8)
}

/// Tells whether `token` spells `word`, a word of ASCII characters; no token
/// spells a word with other characters in it.
pub fn word_is(token: &[u8], word: &str) -> (r: bool)
    ensures
        r == (word.is_ascii() && token@ == ascii(word@)),
{
    broadcast use is_ascii_spec_bytes;

    if !word.is_ascii() {
        return false;
    }
    let w = word.as_bytes();
    if token.len() != w.len() {
        return false;
    }
    let mut i: usize = 0;
    while i < token.len()
        invariant
            i <= token.len(),
            token.len() == w.len(),
            w@ == ascii(word@),
            forall|j: int| 0 <= j < i ==> token@[j] == w@[j],
        decreases token.len() - i,
    {
        if token[i] != w[i] {
            return false;
        }
        i += 1;
    }
    assert(token@ =~= w@);
    true
}

/// The fields of `s` between occurrences of `sep`, read from left to right:
/// a separator closes the current field and opens a new, empty one; any other
/// byte extends the current field. There is always at least one field.
pub open spec fn split(s: Seq<u8>, sep: u8) -> Seq<Seq<u8>>
    decreases s.len(),
{
    if s.len() == 0 {
        seq![Seq::<u8>::empty()]
    } else {
        let before = split(s.drop_last(), sep);
        if s.last() == sep {
            before.push(Seq::<u8>::empty())
        } else {
            before.drop_last().push(before.last().push(s.last()))
        }
    }
}

/// The contents of a list of borrowed byte strings.
pub open spec fn views(fields: Seq<&[u8]>) -> Seq<Seq<u8>> {
    Seq::new(fields.len(), |i: int| fields[i]@)
}

/// There is always at least one field.
pub proof fn lemma_split_nonempty(s: Seq<u8>, sep: u8)
    ensures
        split(s, sep).len() >= 1,
    decreases s.len(),
{
    if s.len() > 0 {
        lemma_split_nonempty(s.drop_last(), sep);
    }
}

/// A string without a separator is a single field.
pub proof fn lemma_split_single(s: Seq<u8>, sep: u8)
    requires
        forall|i: int| 0 <= i < s.len() ==> s[i] != sep,
    ensures
        split(s, sep) == seq![s],
    decreases s.len(),
{
    if s.len() > 0 {
        lemma_split_single(s.drop_last(), sep);
        assert(s.drop_last().push(s.last()) =~= s);
        assert(seq![s.drop_last()].drop_last().push(s) =~= seq![s]);
    } else {
        assert(s =~= Seq::<u8>::empty());
    }
}

/// A separator and a string without one add a single field at the end.
pub proof fn lemma_split_join(s: Seq<u8>, sep: u8, t: Seq<u8>)
    requires
        forall|i: int| 0 <= i < t.len() ==> t[i] != sep,
    ensures
        split(s + seq![sep] + t, sep) == split(s, sep).push(t),
    decreases t.len(),
{
    let whole = s + seq![sep] + t;
    if t.len() == 0 {
        assert(whole.drop_last() =~= s);
        assert(t =~= Seq::<u8>::empty());
    } else {
        lemma_split_join(s, sep, t.drop_last());
        assert(whole.drop_last() =~= s + seq![sep] + t.drop_last());
        assert(whole.last() == t.last());
        let before = split(s, sep).push(t.drop_last());
        assert(before.drop_last() =~= split(s, sep));
        assert(t.drop_last().push(t.last()) =~= t);
    }
}

/// Cuts `bytes` into the fields that `sep` separates.
pub fn split_fields(bytes: &[u8], sep: u8) -> (fields: Vec<&[u8]>)
    ensures
        views(fields@) == split(bytes@, sep),
{
    let mut fields: Vec<&[u8]> = Vec::new();
    let mut start: usize = 0;
    let mut i: usize = 0;
    assert(bytes@.subrange(0, 0) =~= Seq::<u8>::empty());
    assert(views(fields@).push(bytes@.subrange(0, 0)) =~= seq![Seq::<u8>::empty()]);
    while i < bytes.len()
        invariant
            start <= i <= bytes.len(),
            split(bytes@.subrange(0, i as int), sep) == views(fields@).push(
                bytes@.subrange(start as int, i as int),
            ),
        decreases bytes.len() - i,
    {
        let ghost prefix = bytes@.subrange(0, i as int);
        let ghost next = bytes@.subrange(0, i + 1);
        assert(next.drop_last() =~= prefix);
        assert(next.last() == bytes@[i as int]);
        if bytes[i] == sep {
            let field = slice_subrange(bytes, start, i);
            let ghost before = views(fields@);
            fields.push(field);
            assert(views(fields@) =~= before.push(bytes@.subrange(start as int, i as int)));
            start = i + 1;
            assert(bytes@.subrange(start as int, i + 1) =~= Seq::<u8>::empty());
        } else {
            let ghost before = views(fields@).push(bytes@.subrange(start as int, i as int));
            assert(before.drop_last() =~= views(fields@));
            assert(before.last().push(bytes@[i as int]) =~= bytes@.subrange(
                start as int,
                i + 1,
            ));
        }
        i += 1;
    }
    assert(bytes@.subrange(0, i as int) =~= bytes@);
    let field = slice_subrange(bytes, start, i);
    let ghost before = views(fields@);
    fields.push(field);
    assert(views(fields@) =~= before.push(bytes@.subrange(start as int, i as int)));
    fields
}

/// Whether `b` is blank space: a space, a tab, a line feed, a vertical tab,
/// a form feed or a carriage return.
pub open spec fn is_space(b: u8) -> bool {
    b == 32 || (9 <= b <= 13)
}

/// Whether `s` holds nothing but blank space.
pub open spec fn is_blank(s: Seq<u8>) -> bool {
    forall|i: int| 0 <= i < s.len() ==> is_space(#[trigger] s[i])
}

/// `s` without the blank space at its start.
pub open spec fn trim_start(s: Seq<u8>) -> Seq<u8>
    decreases s.len(),
{
    if s.len() > 0 && is_space(s[0]) {
        trim_start(s.drop_first())
    } else {
        s
    }
}

/// `s` without the blank space at its end.
pub open spec fn trim_end(s: Seq<u8>) -> Seq<u8>
    decreases s.len(),
{
    if s.len() > 0 && is_space(s.last()) {
        trim_end(s.drop_last())
    } else {
        s
    }
}

/// `s` without the blank space at its start and at its end.
pub open spec fn trim(s: Seq<u8>) -> Seq<u8> {
    trim_end(trim_start(s))
}

/// Tells whether `b` is blank space.
pub fn space(b: u8) -> (r: bool)
    ensures
        r == is_space(b),
{
    b == 32 || (9 <= b && b <= 13)
}

/// Tells whether `bytes` holds nothing but blank space.
pub fn blank(bytes: &[u8]) -> (r: bool)
    ensures
        r == is_blank(bytes@),
{
    let mut i: usize = 0;
    while i < bytes.len()
        invariant
            i <= bytes.len(),
            forall|j: int| 0 <= j < i ==> is_space(#[trigger] bytes@[j]),
        decreases bytes.len() - i,
    {
        if !space(bytes[i]) {
            return false;
        }
        i += 1;
    }
    true
}

/// Cuts the blank space off both ends of `bytes`.
pub fn trimmed(bytes: &[u8]) -> (r: &[u8])
    ensures
        r@ == trim(bytes@),
{
    let mut start: usize = 0;
    assert(bytes@.subrange(0, bytes@.len() as int) =~= bytes@);
    while start < bytes.len() && space(bytes[start])
        invariant
            start <= bytes.len(),
            trim_start(bytes@) == trim_start(bytes@.subrange(start as int, bytes@.len() as int)),
        decreases bytes.len() - start,
    {
        assert(bytes@.subrange(start as int, bytes@.len() as int).drop_first()
            =~= bytes@.subrange(start + 1, bytes@.len() as int));
        start += 1;
    }
    let mut end: usize = bytes.len();
    while end > start && space(bytes[end - 1])
        invariant
            start <= end <= bytes.len(),
            trim(bytes@) == trim_end(bytes@.subrange(start as int, end as int)),
        decreases end - start,
    {
        assert(bytes@.subrange(start as int, end as int).drop_last() =~= bytes@.subrange(
            start as int,
            end - 1,
        ));
        end -= 1;
    }
    slice_subrange(bytes, start, end)
}

} // verus!
