use crate::error::diagnostic::Error;
use crate::error::diagnostic::ErrorForm;
use crate::error::diagnostic::ErrorView;
use crate::error::diagnostic::Errors;
use crate::error::diagnostic::Label;
use crate::error::diagnostic::LabelView;
use crate::error::diagnostic::SourceFile;
use crate::parser::chars::byte_offset;
use crate::parser::chars::classified_text;
use crate::parser::chars::classify;
use crate::parser::chars::column_at;
use crate::parser::chars::lemma_byte_offset_grows;
use crate::parser::chars::lemma_byte_offset_is_encoded_length;
use crate::parser::chars::lemma_column_bounded;
use crate::parser::chars::line_at;
use crate::parser::chars::text_between;
use crate::parser::chars::width_of;
use crate::parser::chars::SourceChar;
use crate::parser::grammar::errors_at;
use crate::parser::grammar::follows;
use crate::parser::grammar::in_run;
use crate::parser::grammar::lead_of;
use crate::parser::grammar::lemma_lexeme_end;
use crate::parser::grammar::lemma_run_end;
use crate::parser::grammar::lexeme_end;
use crate::parser::grammar::run_end;
use crate::parser::grammar::scan_errors;
use crate::parser::grammar::scan_tokens;
use crate::parser::grammar::token_of;
use crate::parser::grammar::tokens_at;
use crate::parser::grammar::Lead;
use crate::parser::grammar::Run;
use crate::parser::grammar::ADD_QUOTE;
use crate::parser::grammar::EXPECTED_EQUALS_ENDED;
use crate::parser::grammar::EXPECTED_EQUALS_FOUND;
use crate::parser::grammar::FINISH_COMPARISON;
use crate::parser::grammar::FINISH_FLOAT;
use crate::parser::grammar::FORGOT_EQUALS;
use crate::parser::grammar::INCOMPLETE_FLOAT;
use crate::parser::grammar::INVALID_IN_NUMBER;
use crate::parser::grammar::NOT_A_NEWLINE;
use crate::parser::grammar::UNCLOSED_STRING;
use crate::parser::keywords::Keywords;
use crate::parser::position::Position;
use crate::parser::token::Token;
use crate::parser::token::TokenType;
use crate::parser::token::TokenView;
use vstd::prelude::*;
use vstd::string::*;

verus! {

/// A scanner over one text. It reads the text once from left to right,
/// gathers the tokens in `tokens` and what it finds malformed in `error`,
/// and never stops before the end.
pub struct Lexer {
    /// The text, character by character.
    pub source: Vec<SourceChar>,
    /// The length of the text in bytes.
    pub len: usize,
    /// The number of characters read.
    pub cursor: usize,
    /// The words that are more than identifiers.
    pub keywords: Keywords,
    pub tokens: Vec<Token>,
    pub pos: usize,
    pub line_number: usize,
    pub column_number: usize,
    pub error: Errors,
    pub file: SourceFile,
}

/// What the first character of a lexeme announces.
pub fn lead(symbol: SourceChar) -> (lead: Lead)
    ensures
        lead == lead_of(symbol),
{
    let c = symbol.value;
    if c == ' ' || c == '\r' || c == '\t' || c == '\n' {
        Lead::Blank
    } else if c == '#' {
        Lead::Comment
    } else if c == '+' {
        Lead::Single(TokenType::Plus)
    } else if c == '-' {
        Lead::Single(TokenType::Minus)
    } else if c == '*' {
        Lead::Single(TokenType::Multiply)
    } else if c == '/' {
        Lead::Single(TokenType::Divide)
    } else if c == '%' {
        Lead::Single(TokenType::Modulus)
    } else if c == '^' {
        Lead::Single(TokenType::Exponent)
    } else if c == '&' {
        Lead::Single(TokenType::BitwiseAnd)
    } else if c == '|' {
        Lead::Single(TokenType::BitwiseOr)
    } else if c == '~' {
        Lead::Single(TokenType::BitwiseNot)
    } else if c == '@' {
        Lead::Single(TokenType::BitwiseXor)
    } else if c == '<' {
        Lead::Less
    } else if c == '>' {
        Lead::Greater
    } else if c == '=' {
        Lead::Equal
    } else if c == '!' {
        Lead::Bang
    } else if c == '"' {
        Lead::Quote
    } else if '0' <= c && c <= '9' {
        Lead::Digit
    } else if symbol.starts_identifier {
        Lead::Word
    } else {
        Lead::Unknown
    }
}

/// Whether `symbol` belongs to a run of the given kind.
pub fn continues(run: Run, symbol: SourceChar) -> (inside: bool)
    ensures
        inside == in_run(run, symbol),
{
    match run {
        Run::Comment => symbol.value != '\n',
        Run::Text => symbol.value != '"',
        Run::Digits => '0' <= symbol.value && symbol.value <= '9',
        Run::Word => symbol.continues_identifier,
    }
}

impl Lexer {
    /// The text under the scanner, character by character.
    pub open spec fn input(&self) -> Seq<SourceChar> {
        self.source@
    }

    /// The number of characters read so far.
    pub open spec fn consumed(&self) -> int {
        self.cursor as int
    }

    /// The tokens gathered so far.
    pub open spec fn gathered(&self) -> Seq<TokenView> {
        self.tokens.deep_view()
    }

    /// The diagnostics gathered so far.
    pub open spec fn raised(&self) -> Seq<ErrorView> {
        self.error@
    }

    /// The scanner stands inside its text, `len` is the length of the text
    /// in bytes, and `pos`, `line_number` and `column_number` are those of
    /// the character it stands at.
    pub open spec fn wf(&self) -> bool {
        &&& self.cursor <= self.source@.len()
        &&& self.len == byte_offset(self.source@, self.source@.len() as int)
        &&& self.pos == byte_offset(self.source@, self.cursor as int)
        &&& self.line_number == line_at(self.source@, self.cursor as int)
        &&& self.column_number == column_at(self.source@, self.cursor as int)
    }

    /// The same text, keyword table and file.
    pub open spec fn same_setup(&self, other: &Lexer) -> bool {
        &&& self.source@ == other.source@
        &&& self.len == other.len
        &&& self.keywords@ == other.keywords@
        &&& self.file == other.file
    }

    /// The same tokens and diagnostics.
    pub open spec fn same_output(&self, other: &Lexer) -> bool {
        &&& self.tokens == other.tokens
        &&& self.error == other.error
    }

    /// `after` is `self` once the lexeme at index `i` has been read: it
    /// stands behind the lexeme and has gained the lexeme's token and
    /// diagnostics.
    pub open spec fn stepped(&self, after: &Lexer, i: int) -> bool {
        &&& after.wf()
        &&& after.same_setup(self)
        &&& after.consumed() == lexeme_end(self.input(), i)
        &&& after.gathered() == self.gathered() + tokens_at(self.input(), i, self.keywords@)
        &&& after.raised() == self.raised() + errors_at(self.input(), i)
    }

    /// `after` is `self` once the rest of the text has been read: it
    /// stands at the end, and has gained every token and every diagnostic
    /// from where `self` stands, in the order of the source.
    pub open spec fn tokenised(&self, after: &Lexer) -> bool {
        &&& after.wf()
        &&& after.same_setup(self)
        &&& after.consumed() == self.input().len()
        &&& after.gathered() == self.gathered() + scan_tokens(
            self.input(),
            self.consumed(),
            self.keywords@,
        )
        &&& after.raised() == self.raised() + scan_errors(self.input(), self.consumed())
    }

    /// A scanner at the start of `source`, with an empty keyword table.
    pub fn from_text(source: &str, file: SourceFile) -> (lexer: Lexer)
        ensures
            lexer.wf(),
            lexer.input() == classified_text(source@),
            lexer.consumed() == 0,
            lexer.keywords@ == Map::<Seq<char>, TokenType>::empty(),
            lexer.gathered() == Seq::<TokenView>::empty(),
            lexer.raised() == Seq::<ErrorView>::empty(),
            lexer.file == file,
    {
        let mut symbols: Vec<SourceChar> = Vec::new();
        for c in it: source.chars()
            invariant
                it.seq() == source@,
                symbols@ == classified_text(it.seq().take(it.index() as int)),
        {
            symbols.push(classify(c));
        }
        let len = source.as_bytes().len();
        proof {
            assert(symbols@ == classified_text(source@));
            lemma_byte_offset_is_encoded_length(symbols@, symbols@.len() as int);
            assert(text_between(symbols@, 0, symbols@.len() as int) =~= source@);
        }
        Lexer {
            source: symbols,
            len,
            cursor: 0,
            keywords: Keywords::new(),
            tokens: Vec::new(),
            pos: 0,
            line_number: 1,
            column_number: 0,
            error: Errors::new(),
            file,
        }
    }

    /// A scanner at the start of a text whose characters are judged
    /// already, with an empty keyword table.
    pub fn from_symbols(symbols: Vec<SourceChar>, file: SourceFile) -> (lexer: Lexer)
        requires
            byte_offset(symbols@, symbols@.len() as int) <= usize::MAX,
        ensures
            lexer.wf(),
            lexer.input() == symbols@,
            lexer.consumed() == 0,
            lexer.keywords@ == Map::<Seq<char>, TokenType>::empty(),
            lexer.gathered() == Seq::<TokenView>::empty(),
            lexer.raised() == Seq::<ErrorView>::empty(),
            lexer.file == file,
    {
        let mut len: usize = 0;
        let mut i: usize = 0;
        while i < symbols.len()
            invariant
                i <= symbols.len(),
                len == byte_offset(symbols@, i as int),
                byte_offset(symbols@, symbols@.len() as int) <= usize::MAX,
            decreases symbols.len() - i,
        {
            proof {
                lemma_byte_offset_grows(symbols@, i as int + 1, symbols@.len() as int);
            }
            len = len + width_of(symbols[i].value);
            i = i + 1;
        }
        Lexer {
            source: symbols,
            len,
            cursor: 0,
            keywords: Keywords::new(),
            tokens: Vec::new(),
            pos: 0,
            line_number: 1,
            column_number: 0,
            error: Errors::new(),
            file,
        }
    }

    /// Whether the scanner is well formed, found by reading the text
    /// again.
    pub fn is_wf(&self) -> (ok: bool)
        ensures
            ok == self.wf(),
    {
        if self.cursor > self.source.len() {
            return false;
        }
        let mut bytes: usize = 0;
        let mut line: usize = 1;
        let mut column: usize = 0;
        let mut i: usize = 0;
        while i < self.source.len()
            invariant
                i <= self.source.len(),
                self.cursor <= self.source.len(),
                bytes == byte_offset(self.source@, i as int),
                i <= self.cursor ==> line == line_at(self.source@, i as int),
                i <= self.cursor ==> column == column_at(self.source@, i as int),
                i > self.cursor ==> self.pos == byte_offset(self.source@, self.cursor as int),
                i > self.cursor ==> self.line_number == line_at(
                    self.source@,
                    self.cursor as int,
                ),
                i > self.cursor ==> self.column_number == column_at(
                    self.source@,
                    self.cursor as int,
                ),
            decreases self.source.len() - i,
        {
            if i == self.cursor && (self.pos != bytes || self.line_number != line
                || self.column_number != column) {
                return false;
            }
            let symbol = self.source[i];
            match bytes.checked_add(width_of(symbol.value)) {
                Some(sum) => {
                    bytes = sum;
                },
                None => {
                    proof {
                        lemma_byte_offset_grows(
                            self.source@,
                            i as int + 1,
                            self.source@.len() as int,
                        );
                    }
                    return false;
                },
            }
            if i < self.cursor {
                proof {
                    lemma_column_bounded(self.source@, i as int + 1);
                }
                if symbol.value == '\n' {
                    if line < usize::MAX {
                        line = line + 1;
                    }
                    column = 0;
                } else {
                    column = column + 1;
                }
            }
            i = i + 1;
        }
        self.len == bytes && (self.cursor < self.source.len() || (self.pos == bytes
            && self.line_number == line && self.column_number == column))
    }

    /// Reads the rest of the text: every token from where the scanner
    /// stands goes behind `tokens`, every diagnostic behind those of
    /// `error`, each in the order of the source.
    pub fn tokenise(&mut self)
        requires
            old(self).wf(),
        ensures
            old(self).tokenised(final(self)),
    {
        let ghost before = *self;
        while self.cursor < self.source.len()
            invariant
                self.wf(),
                self.same_setup(&before),
                self.gathered() + scan_tokens(self.input(), self.consumed(), self.keywords@)
                    == before.gathered() + scan_tokens(
                    before.input(),
                    before.consumed(),
                    before.keywords@,
                ),
                self.raised() + scan_errors(self.input(), self.consumed()) == before.raised()
                    + scan_errors(before.input(), before.consumed()),
            decreases self.source.len() - self.cursor,
        {
            let ghost entry = *self;
            proof {
                lemma_lexeme_end(self.input(), self.consumed());
            }
            self.next_lexeme();
            proof {
                let i = entry.consumed();
                assert((entry.gathered() + tokens_at(entry.input(), i, entry.keywords@))
                    + scan_tokens(self.input(), self.consumed(), self.keywords@)
                    =~= entry.gathered() + scan_tokens(entry.input(), i, entry.keywords@));
                assert((entry.raised() + errors_at(entry.input(), i)) + scan_errors(
                    self.input(),
                    self.consumed(),
                ) =~= entry.raised() + scan_errors(entry.input(), i));
            }
        }
        proof {
            assert(scan_tokens(self.input(), self.consumed(), self.keywords@) =~= Seq::<
                TokenView,
            >::empty());
            assert(scan_errors(self.input(), self.consumed()) =~= Seq::<ErrorView>::empty());
            assert(self.gathered() + Seq::<TokenView>::empty() =~= self.gathered());
            assert(self.raised() + Seq::<ErrorView>::empty() =~= self.raised());
        }
    }

    /// Reads the lexeme, blank, comment or unknown character that begins
    /// where the scanner stands.
    fn next_lexeme(&mut self)
        requires
            old(self).wf(),
            old(self).consumed() < old(self).input().len(),
        ensures
            old(self).stepped(final(self), old(self).consumed()),
    {
        let from = self.cursor;
        let start = self.pos;
        let symbol = self.advance();
        match lead(symbol) {
            Lead::Blank => {},
            Lead::Comment => {
                self.skip_run(Run::Comment);
            },
            Lead::Single(form) => {
                self.add_lexeme(form, from, start);
            },
            Lead::Less => {
                if self.possible_advance('<') {
                    self.add_lexeme(TokenType::BitwiseLshift, from, start);
                } else if self.possible_advance('=') {
                    self.add_lexeme(TokenType::LessEquals, from, start);
                } else {
                    self.add_lexeme(TokenType::LessThan, from, start);
                }
            },
            Lead::Greater => {
                if self.possible_advance('>') {
                    self.add_lexeme(TokenType::BitwiseRshift, from, start);
                } else if self.possible_advance('=') {
                    self.add_lexeme(TokenType::GreaterEquals, from, start);
                } else {
                    self.add_lexeme(TokenType::GreaterThan, from, start);
                }
            },
            Lead::Equal => {
                if self.possible_advance('=') {
                    self.add_lexeme(TokenType::Equals, from, start);
                } else {
                    self.add_lexeme(TokenType::Assignment, from, start);
                }
            },
            Lead::Bang => {
                if self.possible_advance('=') {
                    self.add_lexeme(TokenType::NotEquals, from, start);
                } else {
                    self.expected_equals(from, start);
                }
            },
            Lead::Quote => {
                self.get_string(from, start);
            },
            Lead::Digit => {
                self.get_numeric(from, start);
            },
            Lead::Word => {
                self.get_identifier(from, start);
            },
            Lead::Unknown => {},
        }
        proof {
            let s = old(self).input();
            let i = from as int;
            assert(self.gathered() =~= old(self).gathered() + tokens_at(
                s,
                i,
                old(self).keywords@,
            ));
            assert(self.raised() =~= old(self).raised() + errors_at(s, i));
        }
    }

    /// Whether the whole text is read.
    fn at_end(&self) -> (ended: bool)
        ensures
            ended == (self.consumed() >= self.input().len()),
    {
        self.cursor >= self.source.len()
    }

    /// Reads one character and moves `pos`, `line_number` and
    /// `column_number` behind it.
    fn advance(&mut self) -> (symbol: SourceChar)
        requires
            old(self).wf(),
            old(self).consumed() < old(self).input().len(),
        ensures
            final(self).wf(),
            final(self).same_setup(old(self)),
            final(self).same_output(old(self)),
            final(self).consumed() == old(self).consumed() + 1,
            symbol == old(self).input()[old(self).consumed()],
    {
        let symbol = self.source[self.cursor];
        proof {
            lemma_byte_offset_grows(
                self.source@,
                self.cursor as int + 1,
                self.source@.len() as int,
            );
            lemma_byte_offset_grows(self.source@, 0, self.source@.len() as int);
            lemma_column_bounded(self.source@, self.cursor as int + 1);
        }
        self.pos = self.pos + width_of(symbol.value);
        if symbol.value == '\n' {
            if self.line_number < usize::MAX {
                self.line_number = self.line_number + 1;
            }
            self.column_number = 0;
        } else {
            self.column_number = self.column_number + 1;
        }
        self.cursor = self.cursor + 1;
        symbol
    }

    /// Reads the next character if it is `expected`.
    fn possible_advance(&mut self, expected: char) -> (advanced: bool)
        requires
            old(self).wf(),
        ensures
            final(self).wf(),
            final(self).same_setup(old(self)),
            final(self).same_output(old(self)),
            advanced == (old(self).consumed() < old(self).input().len() && old(self).input()[old(
                self,
            ).consumed()].value == expected),
            final(self).consumed() == old(self).consumed() + if advanced {
                1int
            } else {
                0int
            },
    {
        if self.at_end() || self.source[self.cursor].value != expected {
            return false;
        }
        self.advance();
        true
    }

    /// Reads on to the end of the run of the given kind that begins where
    /// the scanner stands.
    fn skip_run(&mut self, run: Run)
        requires
            old(self).wf(),
        ensures
            final(self).wf(),
            final(self).same_setup(old(self)),
            final(self).same_output(old(self)),
            final(self).consumed() == run_end(old(self).input(), old(self).consumed(), run),
    {
        while self.cursor < self.source.len() && continues(run, self.source[self.cursor])
            invariant
                self.wf(),
                self.same_setup(old(self)),
                self.same_output(old(self)),
                run_end(self.input(), self.consumed(), run) == run_end(
                    old(self).input(),
                    old(self).consumed(),
                    run,
                ),
            decreases self.source.len() - self.cursor,
        {
            self.advance();
        }
    }

    /// The characters from index `from` up to `to` as a string.
    fn text(&self, from: usize, to: usize) -> (text: String)
        requires
            from <= to <= self.input().len(),
        ensures
            text@ == text_between(self.input(), from as int, to as int),
    {
        let mut text = String::new();
        let mut i: usize = from;
        while i < to
            invariant
                from <= i <= to <= self.source.len(),
                text@ == text_between(self.source@, from as int, i as int),
            decreases to - i,
        {
            text.push(self.source[i].value);
            i = i + 1;
            assert(text@ =~= text_between(self.source@, from as int, i as int));
        }
        text
    }

    /// Puts a token of kind `form` with the text `content` behind the
    /// others. Its place runs from the byte `start` to where the scanner
    /// stands.
    fn add_token(&mut self, form: TokenType, content: String, start: usize)
        ensures
            final(self).same_setup(old(self)),
            final(self).consumed() == old(self).consumed(),
            final(self).pos == old(self).pos,
            final(self).line_number == old(self).line_number,
            final(self).column_number == old(self).column_number,
            final(self).error == old(self).error,
            final(self).tokens.deep_view() == old(self).tokens.deep_view().push(
                TokenView {
                    form,
                    position: Position {
                        start,
                        end: old(self).pos,
                        line_number: old(self).line_number,
                        column_number: old(self).column_number,
                    },
                    content: content@,
                },
            ),
    {
        let position = Position {
            start,
            end: self.pos,
            line_number: self.line_number,
            column_number: self.column_number,
        };
        let token = Token { form, content, position };
        self.tokens.push(token);
        assert(self.tokens.deep_view() =~= old(self).tokens.deep_view().push(token@));
    }

    /// Puts the token of kind `form` behind the others whose lexeme runs
    /// from index `from`, at byte `start`, to where the scanner stands.
    fn add_lexeme(&mut self, form: TokenType, from: usize, start: usize)
        requires
            old(self).wf(),
            from <= old(self).consumed(),
            start == byte_offset(old(self).input(), from as int),
        ensures
            final(self).wf(),
            final(self).same_setup(old(self)),
            final(self).consumed() == old(self).consumed(),
            final(self).error == old(self).error,
            final(self).tokens.deep_view() == old(self).tokens.deep_view().push(
                token_of(
                    old(self).input(),
                    form,
                    from as int,
                    old(self).consumed(),
                ),
            ),
    {
        let content = self.text(from, self.cursor);
        self.add_token(form, content, start);
    }

    /// Registers a diagnostic with one label over the bytes from `start`
    /// to `end`.
    fn report(
        &mut self,
        kind: ErrorForm,
        message: String,
        start: usize,
        end: usize,
        notes: Vec<String>,
    )
        ensures
            final(self).same_setup(old(self)),
            final(self).consumed() == old(self).consumed(),
            final(self).pos == old(self).pos,
            final(self).line_number == old(self).line_number,
            final(self).column_number == old(self).column_number,
            final(self).tokens == old(self).tokens,
            final(self).error@ == old(self).error@.push(
                ErrorView {
                    kind,
                    message: message@,
                    labels: seq![LabelView { start, end, message: Seq::empty() }],
                    notes: notes.deep_view(),
                },
            ),
    {
        let mut labels: Vec<Label> = Vec::new();
        labels.push(Label::primary(start, end));
        assert(labels.deep_view() =~= seq![LabelView { start, end, message: Seq::empty() }]);
        let error = Error::new(kind, message, labels, notes);
        self.error.register_error(error);
    }

    /// `!` without `=` behind it: no token, one diagnostic over the `!`.
    fn expected_equals(&mut self, from: usize, start: usize)
        requires
            old(self).wf(),
            old(self).consumed() == from + 1,
            lead_of(old(self).input()[from as int]) == Lead::Bang,
            !follows(old(self).input(), from as int, '='),
            start == byte_offset(old(self).input(), from as int),
        ensures
            old(self).stepped(final(self), from as int),
            final(self).tokens == old(self).tokens,
    {
        if !self.at_end() {
            let mut message = String::from_str(EXPECTED_EQUALS_FOUND);
            message.push(self.source[self.cursor].value);
            message.append(".");
            assert(message@ =~= EXPECTED_EQUALS_FOUND@ + seq![self.source@[self.cursor as int].value]
                + "."@);
            let notes = one_note(FORGOT_EQUALS);
            self.report(ErrorForm::SyntaxError, message, start, self.pos, notes);
        } else {
            let message = String::from_str(EXPECTED_EQUALS_ENDED);
            let notes = one_note(FINISH_COMPARISON);
            self.report(ErrorForm::EOFError, message, start, self.pos, notes);
        }
        proof {
            let s = old(self).input();
            let i = from as int;
            assert(self.error@ =~= old(self).error@ + errors_at(s, i));
            assert(self.tokens.deep_view() =~= old(self).tokens.deep_view() + tokens_at(
                s,
                i,
                old(self).keywords@,
            ));
        }
    }

    /// Reads a string literal whose opening quote, at index `from` and
    /// byte `start`, is read already. What stands between the quotes is
    /// the token's content; a string that the text ends in gets a
    /// diagnostic and is a token all the same.
    fn get_string(&mut self, from: usize, start: usize)
        requires
            old(self).wf(),
            old(self).consumed() == from + 1,
            lead_of(old(self).input()[from as int]) == Lead::Quote,
            start == byte_offset(old(self).input(), from as int),
        ensures
            old(self).stepped(final(self), from as int),
    {
        proof {
            lemma_run_end(self.input(), from as int + 1, Run::Text);
        }
        self.skip_run(Run::Text);
        let close = self.cursor;
        if self.at_end() {
            let message = String::from_str(UNCLOSED_STRING);
            let notes = one_note(ADD_QUOTE);
            self.report(ErrorForm::EOFError, message, start, self.pos, notes);
        } else {
            self.advance();
        }
        let content = self.text(from + 1, close);
        self.add_token(TokenType::String, content, start);
        proof {
            let s = old(self).input();
            let i = from as int;
            assert(self.error@ =~= old(self).error@ + errors_at(s, i));
            assert(self.tokens.deep_view() =~= old(self).tokens.deep_view() + tokens_at(
                s,
                i,
                old(self).keywords@,
            ));
        }
    }

    /// Reads a number whose first digit, at index `from` and byte `start`,
    /// is read already: the digits that follow, and one decimal point with
    /// the digits behind it. A point makes it a float; a point without a
    /// digit behind it gets a diagnostic.
    fn get_numeric(&mut self, from: usize, start: usize)
        requires
            old(self).wf(),
            old(self).consumed() == from + 1,
            lead_of(old(self).input()[from as int]) == Lead::Digit,
            start == byte_offset(old(self).input(), from as int),
        ensures
            old(self).stepped(final(self), from as int),
    {
        proof {
            lemma_run_end(self.input(), from as int + 1, Run::Digits);
        }
        self.skip_run(Run::Digits);
        let form = if self.possible_advance('.') {
            if self.at_end() {
                let message = String::from_str(INCOMPLETE_FLOAT);
                let notes = one_note(FINISH_FLOAT);
                self.report(ErrorForm::EOFError, message, self.pos, self.pos, notes);
            } else if !continues(Run::Digits, self.source[self.cursor]) {
                let message = String::from_str(INVALID_IN_NUMBER);
                let notes = two_notes(FINISH_FLOAT, NOT_A_NEWLINE);
                self.report(ErrorForm::EOFError, message, start, self.pos, notes);
            }
            proof {
                lemma_run_end(self.input(), self.consumed(), Run::Digits);
            }
            self.skip_run(Run::Digits);
            TokenType::Float
        } else {
            TokenType::Integer
        };
        self.add_lexeme(form, from, start);
        proof {
            let s = old(self).input();
            let i = from as int;
            assert(self.error@ =~= old(self).error@ + errors_at(s, i));
            assert(self.tokens.deep_view() =~= old(self).tokens.deep_view() + tokens_at(
                s,
                i,
                old(self).keywords@,
            ));
        }
    }

    /// Reads a word whose first character, at index `from` and byte
    /// `start`, is read already, and looks it up in the keyword table.
    fn get_identifier(&mut self, from: usize, start: usize)
        requires
            old(self).wf(),
            old(self).consumed() == from + 1,
            lead_of(old(self).input()[from as int]) == Lead::Word,
            start == byte_offset(old(self).input(), from as int),
        ensures
            old(self).stepped(final(self), from as int),
    {
        proof {
            lemma_run_end(self.input(), from as int + 1, Run::Word);
        }
        self.skip_run(Run::Word);
        let content = self.text(from, self.cursor);
        let form = self.keywords.form_of(content.as_str());
        self.add_token(form, content, start);
        proof {
            let s = old(self).input();
            let i = from as int;
            assert(self.error@ =~= old(self).error@ + errors_at(s, i));
            assert(self.tokens.deep_view() =~= old(self).tokens.deep_view() + tokens_at(
                s,
                i,
                old(self).keywords@,
            ));
        }
    }
}

/// A list with the one note `text`.
fn one_note(text: &str) -> (notes: Vec<String>)
    ensures
        notes.deep_view() == seq![text@],
{
    let mut notes: Vec<String> = Vec::new();
    notes.push(String::from_str(text));
    assert(notes.deep_view() =~= seq![text@]);
    notes
}

/// A list with the notes `first` and `second`.
fn two_notes(first: &str, second: &str) -> (notes: Vec<String>)
    ensures
        notes.deep_view() == seq![first@, second@],
{
    let mut notes: Vec<String> = Vec::new();
    notes.push(String::from_str(first));
    notes.push(String::from_str(second));
    assert(notes.deep_view() =~= seq![first@, second@]);
    notes
}

} // verus!
