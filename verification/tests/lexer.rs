use language::error::diagnostic::Error;
use language::error::diagnostic::ErrorForm;
use language::error::diagnostic::SourceFile;
use language::parser::chars::classify;
use language::parser::chars::SourceChar;
use language::parser::keywords::Keywords;
use language::parser::lexer::continues;
use language::parser::lexer::lead;
use language::parser::lexer::Lexer;
use language::parser::grammar::Lead;
use language::parser::grammar::Run;
use language::parser::position::Position;
use language::parser::token::Token;
use language::parser::token::TokenType;

fn file_of(input: &str) -> SourceFile {
    SourceFile::new(String::from("main.language"), String::from(input))
}

fn scan(input: &str) -> Lexer {
    let mut lexer = Lexer::from_text(input, file_of(input));
    lexer.tokenise();
    lexer
}

fn kinds(lexer: &Lexer) -> Vec<TokenType> {
    lexer.tokens.iter().map(|token| token.form).collect()
}

fn texts(lexer: &Lexer) -> Vec<String> {
    lexer.tokens.iter().map(|token| token.content.clone()).collect()
}

fn errors(lexer: &Lexer) -> &Vec<Error> {
    lexer.error.records()
}

fn place(start: usize, end: usize, line_number: usize, column_number: usize) -> Position {
    Position { start, end, line_number, column_number }
}

#[test]
fn a_new_scanner_stands_at_the_start() {
    let lexer = Lexer::from_text("ab", file_of("ab"));
    assert_eq!(lexer.len, 2);
    assert_eq!(lexer.cursor, 0);
    assert_eq!(lexer.pos, 0);
    assert_eq!(lexer.line_number, 1);
    assert_eq!(lexer.column_number, 0);
    assert!(lexer.tokens.is_empty());
    assert!(lexer.error.is_empty());
    assert_eq!(lexer.source, vec![classify('a'), classify('b')]);
    assert_eq!(lexer.file.name, "main.language");
    assert_eq!(lexer.file.source, "ab");
}

#[test]
fn one_plus_two() {
    let lexer = scan("1 + 2");
    assert_eq!(kinds(&lexer), vec![TokenType::Integer, TokenType::Plus, TokenType::Integer]);
    assert_eq!(texts(&lexer), vec!["1", "+", "2"]);
    assert_eq!(lexer.tokens[0].position, place(0, 1, 1, 1));
    assert_eq!(lexer.tokens[1].position, place(2, 3, 1, 3));
    assert_eq!(lexer.tokens[2].position, place(4, 5, 1, 5));
    assert!(lexer.error.is_empty());
    assert_eq!(lexer.error.len(), 0);
}

#[test]
fn an_assignment() {
    let lexer = scan("a = 5");
    assert_eq!(
        kinds(&lexer),
        vec![TokenType::Identifier, TokenType::Assignment, TokenType::Integer]
    );
    assert_eq!(texts(&lexer), vec!["a", "=", "5"]);
    assert!(lexer.error.is_empty());
}

#[test]
fn a_string_that_the_text_ends_in() {
    let lexer = scan("1 + \"str");
    assert_eq!(kinds(&lexer), vec![TokenType::Integer, TokenType::Plus, TokenType::String]);
    let last = &lexer.tokens[2];
    assert_eq!(last.content, "str");
    assert_eq!(last.position, place(4, 8, 1, 8));
    assert_eq!(errors(&lexer).len(), 1);
    let error = &errors(&lexer)[0];
    assert_eq!(error.kind, ErrorForm::EOFError);
    assert_eq!(
        error.message,
        "I expected you to close your string, but instead, the file ended!"
    );
    assert_eq!(error.labels.len(), 1);
    assert_eq!(error.labels[0].start, 4);
    assert_eq!(error.labels[0].end, 8);
    assert_eq!(error.labels[0].message, "");
    assert_eq!(
        error.notes,
        vec!["Add in a closing quotation mark to indicate that your string has ended?"]
    );
}

#[test]
fn an_empty_text_has_no_token() {
    let lexer = scan("");
    assert!(lexer.tokens.is_empty());
    assert!(lexer.error.is_empty());
    assert_eq!(lexer.pos, 0);
    assert_eq!(lexer.line_number, 1);
}

#[test]
fn blanks_and_comments_give_nothing() {
    let lexer = scan(" \t\r\n# 1 + \"2 != !\n  # the end");
    assert!(lexer.tokens.is_empty());
    assert!(lexer.error.is_empty());
    assert_eq!(lexer.line_number, 3);
}

#[test]
fn a_comment_ends_with_its_line() {
    let lexer = scan("# comment\n1");
    assert_eq!(kinds(&lexer), vec![TokenType::Integer]);
    assert_eq!(lexer.tokens[0].position, place(10, 11, 2, 1));
}

#[test]
fn digits_are_one_integer() {
    let lexer = scan("0123456789");
    assert_eq!(kinds(&lexer), vec![TokenType::Integer]);
    assert_eq!(lexer.tokens[0].content, "0123456789");
    assert_eq!(lexer.tokens[0].position, place(0, 10, 1, 10));
    assert!(lexer.error.is_empty());
}

#[test]
fn digits_point_digits_are_one_float() {
    let lexer = scan("34567.8");
    assert_eq!(kinds(&lexer), vec![TokenType::Float]);
    assert_eq!(lexer.tokens[0].content, "34567.8");
    assert_eq!(lexer.tokens[0].content.matches('.').count(), 1);
    assert_eq!(lexer.tokens[0].position, place(0, 7, 1, 7));
    assert!(lexer.error.is_empty());
}

#[test]
fn a_float_with_several_digits_behind_the_point() {
    let lexer = scan("1.23");
    assert_eq!(kinds(&lexer), vec![TokenType::Float]);
    assert_eq!(texts(&lexer), vec!["1.23"]);
    assert!(lexer.error.is_empty());
}

#[test]
fn a_second_point_ends_the_number() {
    let lexer = scan("1.2.3");
    assert_eq!(kinds(&lexer), vec![TokenType::Float, TokenType::Integer]);
    assert_eq!(texts(&lexer), vec!["1.2", "3"]);
    assert_eq!(lexer.tokens[1].position, place(4, 5, 1, 5));
    assert!(lexer.error.is_empty());
}

#[test]
fn a_point_at_the_end_is_an_incomplete_float() {
    let lexer = scan("12.");
    assert_eq!(kinds(&lexer), vec![TokenType::Float]);
    assert_eq!(texts(&lexer), vec!["12."]);
    assert_eq!(lexer.tokens[0].position, place(0, 3, 1, 3));
    assert_eq!(errors(&lexer).len(), 1);
    let error = &errors(&lexer)[0];
    assert_eq!(error.kind, ErrorForm::EOFError);
    assert_eq!(error.message, "I found an incomplete float in your code");
    assert_eq!(error.labels.len(), 1);
    assert_eq!((error.labels[0].start, error.labels[0].end), (3, 3));
    assert_eq!(error.notes, vec!["Make sure you finish typing out your float."]);
}

#[test]
fn a_point_without_a_digit_behind_it() {
    let lexer = scan("12.x");
    assert_eq!(kinds(&lexer), vec![TokenType::Float, TokenType::Identifier]);
    assert_eq!(texts(&lexer), vec!["12.", "x"]);
    assert_eq!(lexer.tokens[1].position, place(3, 4, 1, 4));
    assert_eq!(errors(&lexer).len(), 1);
    let error = &errors(&lexer)[0];
    assert_eq!(error.kind, ErrorForm::EOFError);
    assert_eq!(error.message, "I found an invalid character inside this number");
    assert_eq!((error.labels[0].start, error.labels[0].end), (0, 3));
    assert_eq!(
        error.notes,
        vec![
            "Make sure you finish typing out your float.",
            "Make sure the 'invalid character' isn't a newline, it may trip you up!"
        ]
    );
}

#[test]
fn two_points_in_a_row() {
    let lexer = scan("1..2");
    assert_eq!(kinds(&lexer), vec![TokenType::Float, TokenType::Integer]);
    assert_eq!(texts(&lexer), vec!["1.", "2"]);
    assert_eq!(errors(&lexer).len(), 1);
    assert_eq!(errors(&lexer)[0].message, "I found an invalid character inside this number");
}

#[test]
fn a_minus_is_no_part_of_a_number() {
    let lexer = scan("-5");
    assert_eq!(kinds(&lexer), vec![TokenType::Minus, TokenType::Integer]);
    assert_eq!(texts(&lexer), vec!["-", "5"]);
}

#[test]
fn the_operators_of_one_character() {
    let lexer = scan("+-*/%^&|~@");
    assert_eq!(
        kinds(&lexer),
        vec![
            TokenType::Plus,
            TokenType::Minus,
            TokenType::Multiply,
            TokenType::Divide,
            TokenType::Modulus,
            TokenType::Exponent,
            TokenType::BitwiseAnd,
            TokenType::BitwiseOr,
            TokenType::BitwiseNot,
            TokenType::BitwiseXor
        ]
    );
    assert_eq!(texts(&lexer), vec!["+", "-", "*", "/", "%", "^", "&", "|", "~", "@"]);
    assert_eq!(lexer.tokens[9].position, place(9, 10, 1, 10));
}

#[test]
fn two_less_than_signs_are_a_shift() {
    let lexer = scan("<<");
    assert_eq!(kinds(&lexer), vec![TokenType::BitwiseLshift]);
    assert_eq!(texts(&lexer), vec!["<<"]);
    assert_eq!(lexer.tokens[0].position, place(0, 2, 1, 2));
}

#[test]
fn less_than_and_equals_are_one_comparison() {
    let lexer = scan("<=");
    assert_eq!(kinds(&lexer), vec![TokenType::LessEquals]);
    assert_eq!(texts(&lexer), vec!["<="]);
}

#[test]
fn a_space_parts_less_than_from_equals() {
    let lexer = scan("< =");
    assert_eq!(kinds(&lexer), vec![TokenType::LessThan, TokenType::Assignment]);
    assert_eq!(texts(&lexer), vec!["<", "="]);
    assert_eq!(lexer.tokens[0].position, place(0, 1, 1, 1));
    assert_eq!(lexer.tokens[1].position, place(2, 3, 1, 3));
}

#[test]
fn greater_than_goes_on_like_less_than() {
    let lexer = scan(">> >= > >>>");
    assert_eq!(
        kinds(&lexer),
        vec![
            TokenType::BitwiseRshift,
            TokenType::GreaterEquals,
            TokenType::GreaterThan,
            TokenType::BitwiseRshift,
            TokenType::GreaterThan
        ]
    );
    assert_eq!(texts(&lexer), vec![">>", ">=", ">", ">>", ">"]);
}

#[test]
fn equals_and_not_equals() {
    let lexer = scan("== = != ===");
    assert_eq!(
        kinds(&lexer),
        vec![
            TokenType::Equals,
            TokenType::Assignment,
            TokenType::NotEquals,
            TokenType::Equals,
            TokenType::Assignment
        ]
    );
    assert!(lexer.error.is_empty());
}

#[test]
fn a_bang_before_another_character() {
    let lexer = scan("!a");
    assert_eq!(kinds(&lexer), vec![TokenType::Identifier]);
    assert_eq!(lexer.tokens[0].position, place(1, 2, 1, 2));
    assert_eq!(errors(&lexer).len(), 1);
    let error = &errors(&lexer)[0];
    assert_eq!(error.kind, ErrorForm::SyntaxError);
    assert_eq!(error.message, "I expected to find a '=', instead I recieved a a.");
    assert_eq!(error.labels.len(), 1);
    assert_eq!((error.labels[0].start, error.labels[0].end), (0, 1));
    assert_eq!(
        error.notes,
        vec![
            "Maybe you forgot the '=' after the '!'\nThis operator is the not equals operator and checks if two value are not the same."
        ]
    );
}

#[test]
fn a_bang_at_the_end() {
    let lexer = scan("1 !");
    assert_eq!(kinds(&lexer), vec![TokenType::Integer]);
    assert_eq!(errors(&lexer).len(), 1);
    let error = &errors(&lexer)[0];
    assert_eq!(error.kind, ErrorForm::EOFError);
    assert_eq!(error.message, "I expected to find a '=', instead the file ended!");
    assert_eq!((error.labels[0].start, error.labels[0].end), (2, 3));
    assert_eq!(
        error.notes,
        vec![
            "Seems like you ended the file in the middle of a comparison.\nConsider finishing it."
        ]
    );
}

#[test]
fn diagnostics_come_in_the_order_of_the_source() {
    let lexer = scan("! 1. \"x");
    assert_eq!(kinds(&lexer), vec![TokenType::Float, TokenType::String]);
    let kinds_found: Vec<ErrorForm> = errors(&lexer).iter().map(|error| error.kind).collect();
    assert_eq!(
        kinds_found,
        vec![ErrorForm::SyntaxError, ErrorForm::EOFError, ErrorForm::EOFError]
    );
    assert_eq!(errors(&lexer)[0].message, "I expected to find a '=', instead I recieved a  .");
    assert_eq!(errors(&lexer)[1].message, "I found an invalid character inside this number");
    assert_eq!(
        errors(&lexer)[2].message,
        "I expected you to close your string, but instead, the file ended!"
    );
    assert_eq!(lexer.error.len(), 3);
}

#[test]
fn a_closed_string() {
    let lexer = scan("\"str\" + 1");
    assert_eq!(kinds(&lexer), vec![TokenType::String, TokenType::Plus, TokenType::Integer]);
    assert_eq!(lexer.tokens[0].content, "str");
    assert_eq!(lexer.tokens[0].position, place(0, 5, 1, 5));
    assert!(lexer.error.is_empty());
}

#[test]
fn an_empty_string() {
    let lexer = scan("\"\"");
    assert_eq!(kinds(&lexer), vec![TokenType::String]);
    assert_eq!(lexer.tokens[0].content, "");
    assert_eq!(lexer.tokens[0].position, place(0, 2, 1, 2));
}

#[test]
fn a_lone_quote() {
    let lexer = scan("\"");
    assert_eq!(kinds(&lexer), vec![TokenType::String]);
    assert_eq!(lexer.tokens[0].content, "");
    assert_eq!(lexer.tokens[0].position, place(0, 1, 1, 1));
    assert_eq!(errors(&lexer).len(), 1);
    assert_eq!((errors(&lexer)[0].labels[0].start, errors(&lexer)[0].labels[0].end), (0, 1));
}

#[test]
fn a_line_feed_inside_a_string() {
    let lexer = scan("\"a\nb\" c");
    assert_eq!(kinds(&lexer), vec![TokenType::String, TokenType::Identifier]);
    assert_eq!(lexer.tokens[0].content, "a\nb");
    assert_eq!(lexer.tokens[0].position, place(0, 5, 2, 2));
    assert_eq!(lexer.tokens[1].position, place(6, 7, 2, 4));
    assert!(lexer.error.is_empty());
}

#[test]
fn a_backslash_is_an_ordinary_character() {
    let lexer = scan("\"a\\\" b");
    assert_eq!(kinds(&lexer), vec![TokenType::String, TokenType::Identifier]);
    assert_eq!(lexer.tokens[0].content, "a\\");
    assert!(lexer.error.is_empty());
}

#[test]
fn a_hash_inside_a_string_begins_no_comment() {
    let lexer = scan("\"a # b\" 1");
    assert_eq!(kinds(&lexer), vec![TokenType::String, TokenType::Integer]);
    assert_eq!(lexer.tokens[0].content, "a # b");
}

#[test]
fn lines_and_columns() {
    let lexer = scan("a\n  bc\n\nd");
    assert_eq!(texts(&lexer), vec!["a", "bc", "d"]);
    assert_eq!(lexer.tokens[0].position, place(0, 1, 1, 1));
    assert_eq!(lexer.tokens[1].position, place(4, 6, 2, 4));
    assert_eq!(lexer.tokens[2].position, place(8, 9, 4, 1));
    assert_eq!(lexer.pos, 9);
    assert_eq!(lexer.line_number, 4);
    assert_eq!(lexer.column_number, 1);
    assert_eq!(lexer.cursor, 9);
}

#[test]
fn positions_count_bytes_and_columns_count_characters() {
    let lexer = scan("\u{e9}t\u{e9} = \"\u{20ac}\" \u{1f600} 1");
    assert_eq!(
        kinds(&lexer),
        vec![TokenType::Identifier, TokenType::Assignment, TokenType::String, TokenType::Integer]
    );
    assert_eq!(lexer.tokens[0].content, "\u{e9}t\u{e9}");
    assert_eq!(lexer.tokens[0].position, place(0, 5, 1, 3));
    assert_eq!(lexer.tokens[1].position, place(6, 7, 1, 5));
    assert_eq!(lexer.tokens[2].content, "\u{20ac}");
    assert_eq!(lexer.tokens[2].position, place(8, 13, 1, 9));
    assert_eq!(lexer.tokens[3].position, place(19, 20, 1, 13));
    assert_eq!(lexer.pos, 20);
    assert_eq!(lexer.len, 20);
    assert_eq!(lexer.cursor, 13);
    assert!(lexer.error.is_empty());
}

#[test]
fn identifiers() {
    let lexer = scan("_a1 b_2 _ x\u{e9}9");
    assert_eq!(
        kinds(&lexer),
        vec![
            TokenType::Identifier,
            TokenType::Identifier,
            TokenType::Identifier,
            TokenType::Identifier
        ]
    );
    assert_eq!(texts(&lexer), vec!["_a1", "b_2", "_", "x\u{e9}9"]);
}

#[test]
fn a_digit_begins_a_number_not_a_word() {
    let lexer = scan("1a");
    assert_eq!(kinds(&lexer), vec![TokenType::Integer, TokenType::Identifier]);
    assert_eq!(texts(&lexer), vec!["1", "a"]);
}

#[test]
fn unknown_characters_are_passed_over() {
    let lexer = scan("$ 1 ? \u{25b3} . 2 ;");
    assert_eq!(kinds(&lexer), vec![TokenType::Integer, TokenType::Integer]);
    assert_eq!(texts(&lexer), vec!["1", "2"]);
    assert_eq!(lexer.tokens[1].position, place(12, 13, 1, 11));
    assert!(lexer.error.is_empty());
}

#[test]
fn every_token_has_characters_and_none_lies_before_another() {
    let lexer = scan("a = 45 + 222 - \"6yh\" <= >> 1.5 ! x\n\"open");
    assert!(lexer.tokens.len() > 5);
    let mut end_before = 0;
    for token in &lexer.tokens {
        assert!(token.position.start < token.position.end);
        assert!(end_before <= token.position.start);
        end_before = token.position.end;
    }
}

#[test]
fn the_program_text() {
    let lexer = scan("\n1 + \"str\" + 34567.8\na = 45 + 222 - \"6yh645bh65v58\"");
    assert_eq!(
        kinds(&lexer),
        vec![
            TokenType::Integer,
            TokenType::Plus,
            TokenType::String,
            TokenType::Plus,
            TokenType::Float,
            TokenType::Identifier,
            TokenType::Assignment,
            TokenType::Integer,
            TokenType::Plus,
            TokenType::Integer,
            TokenType::Minus,
            TokenType::String
        ]
    );
    assert_eq!(
        texts(&lexer),
        vec!["1", "+", "str", "+", "34567.8", "a", "=", "45", "+", "222", "-", "6yh645bh65v58"]
    );
    assert_eq!(lexer.tokens[0].position, place(1, 2, 2, 1));
    assert_eq!(lexer.tokens[2].position, place(5, 10, 2, 9));
    assert_eq!(lexer.tokens[4].position, place(13, 20, 2, 19));
    assert_eq!(lexer.tokens[5].position, place(21, 22, 3, 1));
    assert_eq!(lexer.tokens[11].position, place(36, 51, 3, 30));
    assert!(lexer.error.is_empty());
}

#[test]
fn the_same_text_gives_the_same_tokens_and_diagnostics() {
    let input = "a = 1. + \"x\ny ! <<";
    let first = scan(input);
    let second = scan(input);
    assert!(first.tokens == second.tokens);
    assert_eq!(first.tokens.len(), 5);
    assert_eq!(first.error.len(), second.error.len());
    assert_eq!(first.error.len(), 2);
    for (one, other) in errors(&first).iter().zip(errors(&second).iter()) {
        assert_eq!(one.kind, other.kind);
        assert_eq!(one.message, other.message);
        assert_eq!(one.notes, other.notes);
        assert_eq!(one.labels.len(), other.labels.len());
        assert_eq!(one.labels[0].start, other.labels[0].start);
        assert_eq!(one.labels[0].end, other.labels[0].end);
    }
    assert_eq!(first.pos, second.pos);
}

#[test]
fn a_second_run_adds_nothing() {
    let mut lexer = scan("1 + !");
    assert_eq!(lexer.tokens.len(), 2);
    assert_eq!(lexer.error.len(), 1);
    lexer.tokenise();
    assert_eq!(lexer.tokens.len(), 2);
    assert_eq!(lexer.error.len(), 1);
    assert_eq!(lexer.pos, 5);
}

#[test]
fn without_keywords_every_word_is_an_identifier() {
    let lexer = scan("true false");
    assert_eq!(kinds(&lexer), vec![TokenType::Identifier, TokenType::Identifier]);
}

#[test]
fn keywords_change_the_kind_of_a_word() {
    let mut keywords = Keywords::new();
    keywords.insert(String::from("true"), TokenType::True);
    keywords.insert(String::from("false"), TokenType::False);
    assert_eq!(keywords.form_of("true"), TokenType::True);
    assert_eq!(keywords.form_of("truth"), TokenType::Identifier);
    let input = "true truth false";
    let mut lexer = Lexer::from_text(input, file_of(input));
    lexer.keywords = keywords;
    lexer.tokenise();
    assert_eq!(kinds(&lexer), vec![TokenType::True, TokenType::Identifier, TokenType::False]);
    assert_eq!(texts(&lexer), vec!["true", "truth", "false"]);
}

#[test]
fn a_keyword_can_be_given_anew() {
    let mut keywords = Keywords::new();
    keywords.insert(String::from("eof"), TokenType::Hash);
    keywords.insert(String::from("eof"), TokenType::Eof);
    assert_eq!(keywords.form_of("eof"), TokenType::Eof);
}

#[test]
fn a_scanner_over_judged_characters() {
    let word = SourceChar { value: '1', starts_identifier: true, continues_identifier: true };
    let stop = SourceChar { value: 'a', starts_identifier: false, continues_identifier: false };
    let plus = SourceChar { value: '+', starts_identifier: true, continues_identifier: true };
    let odd = SourceChar { value: '$', starts_identifier: true, continues_identifier: false };
    let mut lexer = Lexer::from_symbols(vec![odd, plus, word, stop, odd, word], file_of(""));
    assert_eq!(lexer.source.len(), 6);
    assert_eq!(lexer.len, 6);
    assert!(lexer.is_wf());
    lexer.tokenise();
    assert_eq!(kinds(&lexer), vec![TokenType::Identifier, TokenType::Identifier]);
    assert_eq!(texts(&lexer), vec!["$+1", "$1"]);
    assert_eq!(lexer.tokens[1].position, place(4, 6, 1, 6));
    assert!(lexer.error.is_empty());
}

#[test]
fn what_a_first_character_announces() {
    assert_eq!(lead(classify(' ')), Lead::Blank);
    assert_eq!(lead(classify('\n')), Lead::Blank);
    assert_eq!(lead(classify('\t')), Lead::Blank);
    assert_eq!(lead(classify('\r')), Lead::Blank);
    assert_eq!(lead(classify('#')), Lead::Comment);
    assert_eq!(lead(classify('+')), Lead::Single(TokenType::Plus));
    assert_eq!(lead(classify('@')), Lead::Single(TokenType::BitwiseXor));
    assert_eq!(lead(classify('^')), Lead::Single(TokenType::Exponent));
    assert_eq!(lead(classify('<')), Lead::Less);
    assert_eq!(lead(classify('>')), Lead::Greater);
    assert_eq!(lead(classify('=')), Lead::Equal);
    assert_eq!(lead(classify('!')), Lead::Bang);
    assert_eq!(lead(classify('"')), Lead::Quote);
    assert_eq!(lead(classify('0')), Lead::Digit);
    assert_eq!(lead(classify('9')), Lead::Digit);
    assert_eq!(lead(classify('_')), Lead::Word);
    assert_eq!(lead(classify('z')), Lead::Word);
    assert_eq!(lead(classify('\u{e9}')), Lead::Word);
    assert_eq!(lead(classify('\u{663}')), Lead::Unknown);
    assert_eq!(lead(classify('.')), Lead::Unknown);
    assert_eq!(lead(classify('\u{25b3}')), Lead::Unknown);
}

#[test]
fn what_a_run_holds() {
    assert!(continues(Run::Comment, classify('"')));
    assert!(!continues(Run::Comment, classify('\n')));
    assert!(continues(Run::Text, classify('\n')));
    assert!(!continues(Run::Text, classify('"')));
    assert!(continues(Run::Digits, classify('7')));
    assert!(!continues(Run::Digits, classify('\u{663}')));
    assert!(!continues(Run::Digits, classify('.')));
    assert!(continues(Run::Word, classify('7')));
    assert!(continues(Run::Word, classify('_')));
    assert!(continues(Run::Word, classify('\u{663}')));
    assert!(!continues(Run::Word, classify('-')));
}

#[test]
fn tokens_compare_by_their_parts() {
    let one = Token { form: TokenType::Integer, position: place(0, 1, 1, 1), content: String::from("1") };
    let same = Token { form: TokenType::Integer, position: place(0, 1, 1, 1), content: String::from("1") };
    let other = Token { form: TokenType::Integer, position: place(0, 1, 1, 1), content: String::from("2") };
    assert!(one == same);
    assert!(one != other);
}

#[test]
fn a_scanner_is_well_formed_until_its_place_is_changed() {
    let mut lexer = Lexer::from_text("a\n\u{e9} b", file_of("a\n\u{e9} b"));
    assert!(lexer.is_wf());
    lexer.tokenise();
    assert!(lexer.is_wf());
    assert_eq!((lexer.cursor, lexer.pos, lexer.line_number, lexer.column_number), (5, 6, 2, 3));
    lexer.pos = 5;
    assert!(!lexer.is_wf());
    lexer.pos = 6;
    lexer.line_number = 1;
    assert!(!lexer.is_wf());
    lexer.line_number = 2;
    lexer.column_number = 4;
    assert!(!lexer.is_wf());
    lexer.column_number = 3;
    assert!(lexer.is_wf());
    lexer.len = 5;
    assert!(!lexer.is_wf());
    lexer.len = 6;
    lexer.cursor = 6;
    assert!(!lexer.is_wf());
    lexer.cursor = 2;
    assert!(!lexer.is_wf());
    lexer.pos = 2;
    lexer.column_number = 0;
    assert!(lexer.is_wf());
    lexer.tokenise();
    assert_eq!(texts(&lexer), vec!["a", "\u{e9}", "b", "\u{e9}", "b"]);
}
