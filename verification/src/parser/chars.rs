use unicode_xid::UnicodeXID;
use vstd::prelude::*;
use vstd::utf8::*;

verus! {

/// Whether the table lookup of unicode_xid finds `c` among the characters
/// with the property XID_Start. The crate asks it only of characters above
/// U+007F.
pub uninterp spec fn in_xid_start_table(c: char) -> bool;

/// Whether `char::is_alphanumeric` holds of `c`.
pub uninterp spec fn alphanumeric(c: char) -> bool;

pub open spec fn is_ascii_letter(c: char) -> bool {
    ('a' <= c && c <= 'z') || ('A' <= c && c <= 'Z')
}

/// The property XID_Start as unicode_xid decides it: the ASCII letters,
/// and above U+007F what its table holds.
pub open spec fn xid_start(c: char) -> bool {
    is_ascii_letter(c) || (c > '\x7f' && in_xid_start_table(c))
}

/// Calls `UnicodeXID::is_xid_start` of unicode_xid. Its source answers for
/// an ASCII letter at once and looks every other character above U+007F up
/// in a table; the contract says the first in full and gives the lookup the
/// name [`in_xid_start_table`].
#[verifier::external_body]
fn is_xid_start(c: char) -> (found: bool)
    ensures
        found == (is_ascii_letter(c) || (c > '\x7f' && in_xid_start_table(c))),
{
    UnicodeXID::is_xid_start(c)
}

/// `char::is_alphanumeric` of std, which goes by the Unicode properties
/// Alphabetic and the number categories: its answer has the name
/// [`alphanumeric`].
pub assume_specification[ char::is_alphanumeric ](c: char) -> (found: bool)
    ensures
        found == alphanumeric(c),
;

/// A character of the source together with the two judgements on it that
/// come from Unicode tables: whether an identifier may begin with it, and
/// whether one may go on with it.
#[derive(Debug, Clone, Copy, PartialEq, Eq, Structural)]
pub struct SourceChar {
    pub value: char,
    pub starts_identifier: bool,
    pub continues_identifier: bool,
}

impl SourceChar {
    /// The character `value`, given whether it has the property XID_Start
    /// and whether it is alphanumeric. An underscore begins and continues
    /// an identifier whatever the two say.
    pub fn new(value: char, xid_start: bool, alphanumeric: bool) -> (symbol: SourceChar)
        ensures
            symbol == (SourceChar {
                value,
                starts_identifier: value == '_' || xid_start,
                continues_identifier: alphanumeric || value == '_',
            }),
    {
        SourceChar {
            value,
            starts_identifier: value == '_' || xid_start,
            continues_identifier: alphanumeric || value == '_',
        }
    }
}

/// `c` as the scanner sees it.
pub open spec fn classified(c: char) -> SourceChar {
    SourceChar {
        value: c,
        starts_identifier: c == '_' || xid_start(c),
        continues_identifier: alphanumeric(c) || c == '_',
    }
}

/// A text as the scanner sees it, character by character.
pub open spec fn classified_text(text: Seq<char>) -> Seq<SourceChar> {
    Seq::new(text.len(), |i: int| classified(text[i]))
}

/// Asks the Unicode tables about `c`.
pub fn classify(c: char) -> (symbol: SourceChar)
    ensures
        symbol == classified(c),
{
    SourceChar::new(c, is_xid_start(c), c.is_alphanumeric())
}

/// The number of bytes that `c` takes in UTF-8.
pub open spec fn utf8_width(c: char) -> nat {
    if c <= '\u{7F}' {
        1
    } else if c <= '\u{7FF}' {
        2
    } else if c <= '\u{FFFF}' {
        3
    } else {
        4
    }
}

pub fn width_of(c: char) -> (width: usize)
    ensures
        width == utf8_width(c),
{
    if c <= '\u{7F}' {
        1
    } else if c <= '\u{7FF}' {
        2
    } else if c <= '\u{FFFF}' {
        3
    } else {
        4
    }
}

/// The characters of `s` from index `from` up to, not including, `to`.
pub open spec fn text_between(s: Seq<SourceChar>, from: int, to: int) -> Seq<char> {
    Seq::new((to - from) as nat, |k: int| s[from + k].value)
}

/// The number of bytes that the first `i` characters of `s` take in UTF-8:
/// the byte offset of the character at index `i`.
pub open spec fn byte_offset(s: Seq<SourceChar>, i: int) -> nat
    decreases i,
{
    if i <= 0 {
        0
    } else {
        byte_offset(s, i - 1) + utf8_width(s[i - 1].value)
    }
}

/// The number of line feeds among the first `i` characters of `s`.
pub open spec fn line_breaks(s: Seq<SourceChar>, i: int) -> nat
    decreases i,
{
    if i <= 0 {
        0
    } else if s[i - 1].value == '\n' {
        line_breaks(s, i - 1) + 1
    } else {
        line_breaks(s, i - 1)
    }
}

/// The line, counted from 1, on which the character at index `i` stands.
/// The count stops at the largest `usize`.
pub open spec fn line_at(s: Seq<SourceChar>, i: int) -> usize {
    if 1 + line_breaks(s, i) <= usize::MAX {
        (1 + line_breaks(s, i)) as usize
    } else {
        usize::MAX
    }
}

/// The column, counted from 0, of the character at index `i`: the number of
/// characters between it and the line feed before it, or the start.
pub open spec fn column_at(s: Seq<SourceChar>, i: int) -> nat
    decreases i,
{
    if i <= 0 {
        0
    } else if s[i - 1].value == '\n' {
        0
    } else {
        column_at(s, i - 1) + 1
    }
}

/// Offsets grow with the index, by at least one byte per character.
pub proof fn lemma_byte_offset_grows(s: Seq<SourceChar>, i: int, j: int)
    requires
        0 <= i <= j,
    ensures
        byte_offset(s, i) + (j - i) <= byte_offset(s, j),
    decreases j - i,
{
    if i < j {
        lemma_byte_offset_grows(s, i, j - 1);
    }
}

/// A column never exceeds the index it is taken at.
pub proof fn lemma_column_bounded(s: Seq<SourceChar>, i: int)
    requires
        0 <= i,
    ensures
        column_at(s, i) <= i,
    decreases i,
{
    if i > 0 {
        lemma_column_bounded(s, i - 1);
    }
}

proof fn lemma_encode_concat(a: Seq<char>, b: Seq<char>)
    ensures
        encode_utf8(a + b) == encode_utf8(a) + encode_utf8(b),
    decreases a.len(),
{
    if a.len() == 0 {
        assert(a + b =~= b);
        assert(encode_utf8(a) + encode_utf8(b) =~= encode_utf8(b));
    } else {
        assert((a + b).drop_first() =~= a.drop_first() + b);
        lemma_encode_concat(a.drop_first(), b);
        assert(encode_utf8(a + b) =~= encode_utf8(a) + encode_utf8(b));
    }
}

proof fn lemma_encoded_width(c: char)
    ensures
        encode_utf8(seq![c]).len() == utf8_width(c),
{
    assert(seq![c].drop_first() =~= Seq::<char>::empty());
    assert(encode_utf8(seq![c]) =~= encode_scalar(c as u32) + encode_utf8(Seq::<char>::empty()));
}

/// The byte offset behind the whole text is the length of its UTF-8
/// encoding.
pub proof fn lemma_byte_offset_is_encoded_length(s: Seq<SourceChar>, i: int)
    requires
        0 <= i <= s.len(),
    ensures
        byte_offset(s, i) == encode_utf8(text_between(s, 0, i)).len(),
    decreases i,
{
    if i == 0 {
        assert(text_between(s, 0, 0) =~= Seq::<char>::empty());
    } else {
        lemma_byte_offset_is_encoded_length(s, i - 1);
        let c = s[i - 1].value;
        assert(text_between(s, 0, i) =~= text_between(s, 0, i - 1) + seq![c]);
        lemma_encode_concat(text_between(s, 0, i - 1), seq![c]);
        lemma_encoded_width(c);
    }
}

} // verus!
