use crate::error::diagnostic::ErrorForm;
use crate::error::diagnostic::ErrorView;
use crate::error::diagnostic::LabelView;
use crate::parser::chars::byte_offset;
use crate::parser::chars::column_at;
use crate::parser::chars::line_at;
use crate::parser::chars::text_between;
use crate::parser::chars::SourceChar;
use crate::parser::position::Position;
use crate::parser::token::TokenType;
use crate::parser::token::TokenView;
use vstd::prelude::*;

verus! {

/// The message for `!` with a wrong character behind it, up to that
/// character.
pub const EXPECTED_EQUALS_FOUND: &'static str = "I expected to find a '=', instead I recieved a ";

/// The message for `!` at the end of the text.
pub const EXPECTED_EQUALS_ENDED: &'static str =
    "I expected to find a '=', instead the file ended!";

/// The note for `!` with a wrong character behind it.
pub const FORGOT_EQUALS: &'static str =
    "Maybe you forgot the '=' after the '!'\nThis operator is the not equals operator and checks if two value are not the same.";

/// The note for `!` at the end of the text.
pub const FINISH_COMPARISON: &'static str =
    "Seems like you ended the file in the middle of a comparison.\nConsider finishing it.";

/// The message for a string that the text ends in.
pub const UNCLOSED_STRING: &'static str =
    "I expected you to close your string, but instead, the file ended!";

/// The note for a string that the text ends in.
pub const ADD_QUOTE: &'static str =
    "Add in a closing quotation mark to indicate that your string has ended?";

/// The message for a decimal point at the end of the text.
pub const INCOMPLETE_FLOAT: &'static str = "I found an incomplete float in your code";

/// The message for a decimal point without a digit behind it.
pub const INVALID_IN_NUMBER: &'static str = "I found an invalid character inside this number";

/// The note for a decimal point without a digit behind it, in either
/// case.
pub const FINISH_FLOAT: &'static str = "Make sure you finish typing out your float.";

/// The second note where another character follows the point.
pub const NOT_A_NEWLINE: &'static str =
    "Make sure the 'invalid character' isn't a newline, it may trip you up!";

/// The digits of a number: `0` to `9`, no others.
pub open spec fn is_digit(c: char) -> bool {
    '0' <= c && c <= '9'
}

/// The stretches of characters that the scanner runs over: the rest of a
/// comment, the inside of a string, digits, and the rest of a word.
#[derive(Debug, Clone, Copy, PartialEq, Eq, Structural)]
pub enum Run {
    Comment,
    Text,
    Digits,
    Word,
}

/// Whether `symbol` belongs to a run of the given kind.
pub open spec fn in_run(run: Run, symbol: SourceChar) -> bool {
    match run {
        Run::Comment => symbol.value != '\n',
        Run::Text => symbol.value != '"',
        Run::Digits => is_digit(symbol.value),
        Run::Word => symbol.continues_identifier,
    }
}

/// Where the run that begins at index `from` ends: the first index from
/// there on that is the end of `s` or holds a character outside the run.
pub open spec fn run_end(s: Seq<SourceChar>, from: int, run: Run) -> int
    decreases s.len() - from,
{
    if 0 <= from < s.len() && in_run(run, s[from]) {
        run_end(s, from + 1, run)
    } else {
        from
    }
}

/// What the first character of a lexeme announces.
#[derive(Debug, Clone, Copy, PartialEq, Eq, Structural)]
pub enum Lead {
    /// A space, a carriage return, a tab or a line feed.
    Blank,
    /// `#`: a comment up to the end of the line.
    Comment,
    /// An operator of one character.
    Single(TokenType),
    /// `<`, which may go on as `<<` or `<=`.
    Less,
    /// `>`, which may go on as `>>` or `>=`.
    Greater,
    /// `=`, which may go on as `==`.
    Equal,
    /// `!`, which must go on as `!=`.
    Bang,
    /// `"`: a string literal.
    Quote,
    /// A digit: a number.
    Digit,
    /// A character that begins an identifier.
    Word,
    /// Anything else: passed over in silence.
    Unknown,
}

/// The operator that `c` alone stands for, if it is one.
pub open spec fn single_operator(c: char) -> Option<TokenType> {
    if c == '+' {
        Some(TokenType::Plus)
    } else if c == '-' {
        Some(TokenType::Minus)
    } else if c == '*' {
        Some(TokenType::Multiply)
    } else if c == '/' {
        Some(TokenType::Divide)
    } else if c == '%' {
        Some(TokenType::Modulus)
    } else if c == '^' {
        Some(TokenType::Exponent)
    } else if c == '&' {
        Some(TokenType::BitwiseAnd)
    } else if c == '|' {
        Some(TokenType::BitwiseOr)
    } else if c == '~' {
        Some(TokenType::BitwiseNot)
    } else if c == '@' {
        Some(TokenType::BitwiseXor)
    } else {
        None
    }
}

/// What `symbol` announces as the first character of a lexeme. The fixed
/// characters come first: only a character that is none of them can begin
/// a word.
pub open spec fn lead_of(symbol: SourceChar) -> Lead {
    let c = symbol.value;
    if c == ' ' || c == '\r' || c == '\t' || c == '\n' {
        Lead::Blank
    } else if c == '#' {
        Lead::Comment
    } else if single_operator(c) is Some {
        Lead::Single(single_operator(c)->0)
    } else if c == '<' {
        Lead::Less
    } else if c == '>' {
        Lead::Greater
    } else if c == '=' {
        Lead::Equal
    } else if c == '!' {
        Lead::Bang
    } else if c == '"' {
        Lead::Quote
    } else if is_digit(c) {
        Lead::Digit
    } else if symbol.starts_identifier {
        Lead::Word
    } else {
        Lead::Unknown
    }
}

/// Whether the character behind index `i` is `c`.
pub open spec fn follows(s: Seq<SourceChar>, i: int, c: char) -> bool {
    i + 1 < s.len() && s[i + 1].value == c
}

/// In a number that begins at index `i`, the index behind its first run of
/// digits.
pub open spec fn whole_end(s: Seq<SourceChar>, i: int) -> int {
    run_end(s, i + 1, Run::Digits)
}

/// Whether the number that begins at index `i` has a decimal point: one
/// stands right behind its first run of digits.
pub open spec fn has_point(s: Seq<SourceChar>, i: int) -> bool {
    whole_end(s, i) < s.len() && s[whole_end(s, i)].value == '.'
}

/// Where the number that begins at index `i` ends: behind the digits that
/// follow its decimal point, or behind its first run of digits where it has
/// no point. A second point is not part of it.
pub open spec fn number_end(s: Seq<SourceChar>, i: int) -> int {
    if has_point(s, i) {
        run_end(s, whole_end(s, i) + 1, Run::Digits)
    } else {
        whole_end(s, i)
    }
}

/// Where the string that opens at index `i` closes: the index of the next
/// quote, or the end of `s` where there is none.
pub open spec fn string_close(s: Seq<SourceChar>, i: int) -> int {
    run_end(s, i + 1, Run::Text)
}

/// The index behind the lexeme, blank, comment or unknown character that
/// begins at index `i`. Each is the longest that its first character
/// allows.
pub open spec fn lexeme_end(s: Seq<SourceChar>, i: int) -> int {
    match lead_of(s[i]) {
        Lead::Blank => i + 1,
        Lead::Comment => run_end(s, i + 1, Run::Comment),
        Lead::Single(_) => i + 1,
        Lead::Less => if follows(s, i, '<') || follows(s, i, '=') {
            i + 2
        } else {
            i + 1
        },
        Lead::Greater => if follows(s, i, '>') || follows(s, i, '=') {
            i + 2
        } else {
            i + 1
        },
        Lead::Equal => if follows(s, i, '=') {
            i + 2
        } else {
            i + 1
        },
        Lead::Bang => if follows(s, i, '=') {
            i + 2
        } else {
            i + 1
        },
        Lead::Quote => if string_close(s, i) < s.len() {
            string_close(s, i) + 1
        } else {
            string_close(s, i)
        },
        Lead::Digit => number_end(s, i),
        Lead::Word => run_end(s, i + 1, Run::Word),
        Lead::Unknown => i + 1,
    }
}

/// The place of the characters from index `from` up to `to`: their byte
/// range, and the line and column just behind them.
pub open spec fn position_of(s: Seq<SourceChar>, from: int, to: int) -> Position {
    Position {
        start: byte_offset(s, from) as usize,
        end: byte_offset(s, to) as usize,
        line_number: line_at(s, to),
        column_number: column_at(s, to) as usize,
    }
}

/// The token of kind `form` whose lexeme runs from index `from` up to `to`.
pub open spec fn token_of(s: Seq<SourceChar>, form: TokenType, from: int, to: int) -> TokenView {
    TokenView { form, position: position_of(s, from, to), content: text_between(s, from, to) }
}

/// The kind of a word: what the keyword table gives for it, else an
/// identifier.
pub open spec fn form_of_word(keywords: Map<Seq<char>, TokenType>, word: Seq<char>) -> TokenType {
    if keywords.contains_key(word) {
        keywords[word]
    } else {
        TokenType::Identifier
    }
}

/// The token that begins at index `i`, if one does.
pub open spec fn token_at(s: Seq<SourceChar>, i: int, keywords: Map<Seq<char>, TokenType>) -> Option<
    TokenView,
> {
    let end = lexeme_end(s, i);
    match lead_of(s[i]) {
        Lead::Blank => None,
        Lead::Comment => None,
        Lead::Single(form) => Some(token_of(s, form, i, end)),
        Lead::Less => if follows(s, i, '<') {
            Some(token_of(s, TokenType::BitwiseLshift, i, end))
        } else if follows(s, i, '=') {
            Some(token_of(s, TokenType::LessEquals, i, end))
        } else {
            Some(token_of(s, TokenType::LessThan, i, end))
        },
        Lead::Greater => if follows(s, i, '>') {
            Some(token_of(s, TokenType::BitwiseRshift, i, end))
        } else if follows(s, i, '=') {
            Some(token_of(s, TokenType::GreaterEquals, i, end))
        } else {
            Some(token_of(s, TokenType::GreaterThan, i, end))
        },
        Lead::Equal => if follows(s, i, '=') {
            Some(token_of(s, TokenType::Equals, i, end))
        } else {
            Some(token_of(s, TokenType::Assignment, i, end))
        },
        Lead::Bang => if follows(s, i, '=') {
            Some(token_of(s, TokenType::NotEquals, i, end))
        } else {
            None
        },
        Lead::Quote => Some(
            TokenView {
                form: TokenType::String,
                position: position_of(s, i, end),
                content: text_between(s, i + 1, string_close(s, i)),
            },
        ),
        Lead::Digit => if has_point(s, i) {
            Some(token_of(s, TokenType::Float, i, end))
        } else {
            Some(token_of(s, TokenType::Integer, i, end))
        },
        Lead::Word => Some(
            token_of(s, form_of_word(keywords, text_between(s, i, end)), i, end),
        ),
        Lead::Unknown => None,
    }
}

/// A diagnostic with one label, over the characters from index `from` up
/// to `to`.
pub open spec fn error_over(
    s: Seq<SourceChar>,
    kind: ErrorForm,
    message: Seq<char>,
    from: int,
    to: int,
    notes: Seq<Seq<char>>,
) -> ErrorView {
    ErrorView {
        kind,
        message,
        labels: seq![
            LabelView {
                start: byte_offset(s, from) as usize,
                end: byte_offset(s, to) as usize,
                message: Seq::empty(),
            },
        ],
        notes,
    }
}

/// `!` at index `i` with another character than `=` behind it.
pub open spec fn unexpected_after_bang(s: Seq<SourceChar>, i: int) -> ErrorView {
    error_over(
        s,
        ErrorForm::SyntaxError,
        EXPECTED_EQUALS_FOUND@ + seq![s[i + 1].value] + "."@,
        i,
        i + 1,
        seq![FORGOT_EQUALS@],
    )
}

/// `!` at index `i` as the last character.
pub open spec fn ended_after_bang(s: Seq<SourceChar>, i: int) -> ErrorView {
    error_over(
        s,
        ErrorForm::EOFError,
        EXPECTED_EQUALS_ENDED@,
        i,
        i + 1,
        seq![FINISH_COMPARISON@],
    )
}

/// A string that opens at index `i` and never closes.
pub open spec fn unclosed_string(s: Seq<SourceChar>, i: int) -> ErrorView {
    error_over(s, ErrorForm::EOFError, UNCLOSED_STRING@, i, s.len() as int, seq![ADD_QUOTE@])
}

/// A number whose decimal point is the last character.
pub open spec fn incomplete_float(s: Seq<SourceChar>) -> ErrorView {
    error_over(
        s,
        ErrorForm::EOFError,
        INCOMPLETE_FLOAT@,
        s.len() as int,
        s.len() as int,
        seq![FINISH_FLOAT@],
    )
}

/// A number that begins at index `i` whose decimal point has another
/// character than a digit behind it.
pub open spec fn invalid_in_number(s: Seq<SourceChar>, i: int) -> ErrorView {
    error_over(
        s,
        ErrorForm::EOFError,
        INVALID_IN_NUMBER@,
        i,
        whole_end(s, i) + 1,
        seq![FINISH_FLOAT@, NOT_A_NEWLINE@],
    )
}

/// The diagnostics that the number beginning at index `i` raises: one
/// where its decimal point has no digit behind it.
pub open spec fn number_errors(s: Seq<SourceChar>, i: int) -> Seq<ErrorView> {
    if !has_point(s, i) {
        Seq::empty()
    } else if whole_end(s, i) + 1 >= s.len() {
        seq![incomplete_float(s)]
    } else if !is_digit(s[whole_end(s, i) + 1].value) {
        seq![invalid_in_number(s, i)]
    } else {
        Seq::empty()
    }
}

/// The diagnostics that the lexeme beginning at index `i` raises: none or
/// one.
pub open spec fn errors_at(s: Seq<SourceChar>, i: int) -> Seq<ErrorView> {
    match lead_of(s[i]) {
        Lead::Bang => if follows(s, i, '=') {
            Seq::empty()
        } else if i + 1 < s.len() {
            seq![unexpected_after_bang(s, i)]
        } else {
            seq![ended_after_bang(s, i)]
        },
        Lead::Quote => if string_close(s, i) < s.len() {
            Seq::empty()
        } else {
            seq![unclosed_string(s, i)]
        },
        Lead::Digit => number_errors(s, i),
        _ => Seq::empty(),
    }
}

/// The token that begins at index `i` as a list of none or one.
pub open spec fn tokens_at(s: Seq<SourceChar>, i: int, keywords: Map<Seq<char>, TokenType>) -> Seq<
    TokenView,
> {
    match token_at(s, i, keywords) {
        Some(token) => seq![token],
        None => Seq::empty(),
    }
}

/// The tokens of `s` from index `i` on, in the order of the source.
pub open spec fn scan_tokens(
    s: Seq<SourceChar>,
    i: int,
    keywords: Map<Seq<char>, TokenType>,
) -> Seq<TokenView>
    decreases s.len() - i,
{
    let next = lexeme_end(s, i);
    if 0 <= i < next <= s.len() {
        tokens_at(s, i, keywords) + scan_tokens(s, next, keywords)
    } else {
        Seq::empty()
    }
}

/// The diagnostics of `s` from index `i` on, in the order of the source.
pub open spec fn scan_errors(s: Seq<SourceChar>, i: int) -> Seq<ErrorView>
    decreases s.len() - i,
{
    let next = lexeme_end(s, i);
    if 0 <= i < next <= s.len() {
        errors_at(s, i) + scan_errors(s, next)
    } else {
        Seq::empty()
    }
}

/// A run ends between its start and the end of the text, holds only
/// characters of its kind, and stops at the first that is not.
pub proof fn lemma_run_end(s: Seq<SourceChar>, from: int, run: Run)
    requires
        0 <= from <= s.len(),
    ensures
        from <= run_end(s, from, run) <= s.len(),
        forall|k: int| from <= k < run_end(s, from, run) ==> in_run(run, #[trigger] s[k]),
        run_end(s, from, run) < s.len() ==> !in_run(run, s[run_end(s, from, run)]),
    decreases s.len() - from,
{
    if from < s.len() && in_run(run, s[from]) {
        lemma_run_end(s, from + 1, run);
    }
}

/// A run that begins inside another of the same kind ends where that one
/// ends.
pub proof fn lemma_run_end_from_inside(s: Seq<SourceChar>, from: int, mid: int, run: Run)
    requires
        0 <= from <= mid <= s.len(),
        forall|k: int| from <= k < mid ==> in_run(run, #[trigger] s[k]),
    ensures
        run_end(s, from, run) == run_end(s, mid, run),
    decreases mid - from,
{
    if from < mid {
        assert(in_run(run, s[from]));
        lemma_run_end_from_inside(s, from + 1, mid, run);
    }
}

/// Every lexeme takes at least one character and ends inside the text.
pub proof fn lemma_lexeme_end(s: Seq<SourceChar>, i: int)
    requires
        0 <= i < s.len(),
    ensures
        i < lexeme_end(s, i) <= s.len(),
{
    lemma_run_end(s, i + 1, Run::Comment);
    lemma_run_end(s, i + 1, Run::Text);
    lemma_run_end(s, i + 1, Run::Digits);
    lemma_run_end(s, i + 1, Run::Word);
    if has_point(s, i) {
        lemma_run_end(s, whole_end(s, i) + 1, Run::Digits);
    }
}

} // verus!
