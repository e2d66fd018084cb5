use crate::error::diagnostic::ErrorForm;
use crate::error::diagnostic::ErrorView;
use crate::parser::chars::byte_offset;
use crate::parser::chars::lemma_byte_offset_grows;
use crate::parser::chars::text_between;
use crate::parser::chars::SourceChar;
use crate::parser::grammar::errors_at;
use crate::parser::grammar::follows;
use crate::parser::grammar::has_point;
use crate::parser::grammar::in_run;
use crate::parser::grammar::is_digit;
use crate::parser::grammar::lead_of;
use crate::parser::grammar::lemma_lexeme_end;
use crate::parser::grammar::lemma_run_end;
use crate::parser::grammar::lemma_run_end_from_inside;
use crate::parser::grammar::lexeme_end;
use crate::parser::grammar::position_of;
use crate::parser::grammar::run_end;
use crate::parser::grammar::scan_errors;
use crate::parser::grammar::scan_tokens;
use crate::parser::grammar::string_close;
use crate::parser::grammar::token_of;
use crate::parser::grammar::tokens_at;
use crate::parser::grammar::unclosed_string;
use crate::parser::grammar::whole_end;
use crate::parser::grammar::Lead;
use crate::parser::grammar::Run;
use crate::parser::lexer::Lexer;
use crate::parser::token::TokenType;
use crate::parser::token::TokenView;
use vstd::prelude::*;

verus! {

pub open spec fn is_blank(c: char) -> bool {
    c == ' ' || c == '\r' || c == '\t' || c == '\n'
}

/// A `#` stands at index `j`, and no line feed from there to index `k`.
pub open spec fn commented_from(s: Seq<SourceChar>, j: int, k: int) -> bool {
    &&& 0 <= j <= k < s.len()
    &&& s[j].value == '#'
    &&& forall|m: int| j <= m <= k ==> (#[trigger] s[m]).value != '\n'
}

/// The character at index `k` belongs to a comment.
pub open spec fn in_comment(s: Seq<SourceChar>, k: int) -> bool {
    exists|j: int| commented_from(s, j, k)
}

/// The character at index `k` is a blank or belongs to a comment.
pub open spec fn blank_or_comment(s: Seq<SourceChar>, k: int) -> bool {
    is_blank(s[k].value) || in_comment(s, k)
}

/// Every character of `s` is a blank or belongs to a comment.
pub open spec fn only_blanks_and_comments(s: Seq<SourceChar>) -> bool {
    forall|k: int| 0 <= k < s.len() ==> #[trigger] blank_or_comment(s, k)
}

/// A line feed stands somewhere from index `j` to index `i`.
spec fn line_ends_between(s: Seq<SourceChar>, j: int, i: int) -> bool {
    exists|m: int| j <= m <= i && m < s.len() && (#[trigger] s[m]).value == '\n'
}

/// No comment that began before index `i` reaches it.
spec fn comments_closed(s: Seq<SourceChar>, i: int) -> bool {
    forall|j: int| 0 <= j < i && (#[trigger] s[j]).value == '#' ==> line_ends_between(s, j, i)
}

/// Where no comment reaches, a character of such a text is a blank or
/// begins a comment.
proof fn lemma_blank_or_hash(s: Seq<SourceChar>, i: int)
    requires
        only_blanks_and_comments(s),
        0 <= i < s.len(),
        comments_closed(s, i),
    ensures
        is_blank(s[i].value) || s[i].value == '#',
{
    assert(blank_or_comment(s, i));
    if !is_blank(s[i].value) {
        let j = choose|j: int| commented_from(s, j, i);
        if j < i {
            assert(line_ends_between(s, j, i));
            let m = choose|m: int| j <= m <= i && m < s.len() && (#[trigger] s[m]).value == '\n';
            assert(s[m].value != '\n');
        }
    }
}

/// Behind a blank no comment is open that was not open before it.
proof fn lemma_closed_behind_blank(s: Seq<SourceChar>, i: int)
    requires
        0 <= i < s.len(),
        is_blank(s[i].value),
        comments_closed(s, i),
    ensures
        comments_closed(s, i + 1),
{
    assert forall|j: int| 0 <= j < i + 1 && (#[trigger] s[j]).value == '#' implies line_ends_between(
        s,
        j,
        i + 1,
    ) by {
        assert(line_ends_between(s, j, i));
        let m = choose|m: int| j <= m <= i && m < s.len() && (#[trigger] s[m]).value == '\n';
        assert(j <= m <= i + 1 && m < s.len() && s[m].value == '\n');
    }
}

/// At the line feed that ends a comment, every comment is closed.
proof fn lemma_closed_behind_comment(s: Seq<SourceChar>, i: int, end: int)
    requires
        0 <= i < end < s.len(),
        s[end].value == '\n',
    ensures
        comments_closed(s, end),
{
    assert forall|j: int| 0 <= j < end && (#[trigger] s[j]).value == '#' implies line_ends_between(
        s,
        j,
        end,
    ) by {
        assert(j <= end <= end && end < s.len() && s[end].value == '\n');
    }
}

proof fn lemma_blanks_and_comments(
    s: Seq<SourceChar>,
    i: int,
    keywords: Map<Seq<char>, TokenType>,
)
    requires
        only_blanks_and_comments(s),
        0 <= i <= s.len(),
        i < s.len() ==> comments_closed(s, i),
    ensures
        scan_tokens(s, i, keywords) == Seq::<TokenView>::empty(),
        scan_errors(s, i) == Seq::<ErrorView>::empty(),
    decreases s.len() - i,
{
    if i < s.len() {
        lemma_blank_or_hash(s, i);
        let next = lexeme_end(s, i);
        if is_blank(s[i].value) {
            assert(lead_of(s[i]) == Lead::Blank);
            lemma_closed_behind_blank(s, i);
        } else {
            assert(lead_of(s[i]) == Lead::Comment);
            lemma_run_end(s, i + 1, Run::Comment);
            if next < s.len() {
                lemma_closed_behind_comment(s, i, next);
            }
        }
        lemma_blanks_and_comments(s, next, keywords);
        assert(tokens_at(s, i, keywords) =~= Seq::<TokenView>::empty());
        assert(errors_at(s, i) =~= Seq::<ErrorView>::empty());
        assert(scan_tokens(s, i, keywords) =~= tokens_at(s, i, keywords) + scan_tokens(
            s,
            next,
            keywords,
        ));
        assert(scan_errors(s, i) =~= errors_at(s, i) + scan_errors(s, next));
    }
}

/// A text of blanks and comments alone has no token and no diagnostic.
pub proof fn law_blanks_and_comments(s: Seq<SourceChar>, keywords: Map<Seq<char>, TokenType>)
    requires
        only_blanks_and_comments(s),
    ensures
        scan_tokens(s, 0, keywords) == Seq::<TokenView>::empty(),
        scan_errors(s, 0) == Seq::<ErrorView>::empty(),
{
    lemma_blanks_and_comments(s, 0, keywords);
}

/// A run ends at `end` where every character from `from` to there is of
/// its kind and the one at `end`, if there is one, is not.
proof fn lemma_run_ends_at(s: Seq<SourceChar>, from: int, end: int, run: Run)
    requires
        0 <= from <= end <= s.len(),
        forall|k: int| from <= k < end ==> in_run(run, #[trigger] s[k]),
        end < s.len() ==> !in_run(run, s[end]),
    ensures
        run_end(s, from, run) == end,
{
    lemma_run_end_from_inside(s, from, end, run);
}

/// A text of digits alone is one integer token whose content is the
/// text, and raises nothing.
pub proof fn law_integer_literal(s: Seq<SourceChar>, keywords: Map<Seq<char>, TokenType>)
    requires
        s.len() > 0,
        forall|k: int| 0 <= k < s.len() ==> is_digit((#[trigger] s[k]).value),
    ensures
        scan_tokens(s, 0, keywords) == seq![token_of(s, TokenType::Integer, 0, s.len() as int)],
        token_of(s, TokenType::Integer, 0, s.len() as int).content == text_between(
            s,
            0,
            s.len() as int,
        ),
        scan_errors(s, 0) == Seq::<ErrorView>::empty(),
{
    let end = s.len() as int;
    lemma_run_ends_at(s, 1, end, Run::Digits);
    assert(lead_of(s[0]) == Lead::Digit);
    assert(!has_point(s, 0));
    assert(lexeme_end(s, 0) == end);
    assert(scan_tokens(s, end, keywords) =~= Seq::<TokenView>::empty());
    assert(scan_errors(s, end) =~= Seq::<ErrorView>::empty());
    assert(scan_tokens(s, 0, keywords) =~= seq![token_of(s, TokenType::Integer, 0, end)]);
    assert(scan_errors(s, 0) =~= Seq::<ErrorView>::empty());
}

/// A text of digits, a point at index `point` and digits again is one
/// float token whose content is the text, with that point as its only one,
/// and raises nothing.
pub proof fn law_float_literal(
    s: Seq<SourceChar>,
    point: int,
    keywords: Map<Seq<char>, TokenType>,
)
    requires
        0 < point < s.len() - 1,
        s[point].value == '.',
        forall|k: int| 0 <= k < s.len() && k != point ==> is_digit((#[trigger] s[k]).value),
    ensures
        scan_tokens(s, 0, keywords) == seq![token_of(s, TokenType::Float, 0, s.len() as int)],
        forall|k: int|
            0 <= k < s.len() ==> (token_of(s, TokenType::Float, 0, s.len() as int).content[k]
                == '.' <==> k == point),
        scan_errors(s, 0) == Seq::<ErrorView>::empty(),
{
    let end = s.len() as int;
    lemma_run_ends_at(s, 1, point, Run::Digits);
    lemma_run_ends_at(s, point + 1, end, Run::Digits);
    assert(lead_of(s[0]) == Lead::Digit);
    assert(whole_end(s, 0) == point);
    assert(has_point(s, 0));
    assert(is_digit(s[point + 1].value));
    assert(lexeme_end(s, 0) == end);
    assert(scan_tokens(s, end, keywords) =~= Seq::<TokenView>::empty());
    assert(scan_errors(s, end) =~= Seq::<ErrorView>::empty());
    assert(scan_tokens(s, 0, keywords) =~= seq![token_of(s, TokenType::Float, 0, end)]);
    assert(scan_errors(s, 0) =~= Seq::<ErrorView>::empty());
    assert forall|k: int| 0 <= k < s.len() implies (token_of(
        s,
        TokenType::Float,
        0,
        end,
    ).content[k] == '.' <==> k == point) by {
        if k != point {
            assert(is_digit(s[k].value));
        }
    }
}

/// A string that opens at index `open` and never closes raises exactly
/// one diagnostic, of the kind for ended input, whose label begins at the
/// byte of the opening quote; and it still is a token, of what stands
/// behind the quote.
pub proof fn law_unterminated_string(
    s: Seq<SourceChar>,
    open: int,
    keywords: Map<Seq<char>, TokenType>,
)
    requires
        0 <= open < s.len(),
        s[open].value == '"',
        forall|k: int| open < k < s.len() ==> (#[trigger] s[k]).value != '"',
        byte_offset(s, s.len() as int) <= usize::MAX,
    ensures
        scan_errors(s, open) == seq![unclosed_string(s, open)],
        unclosed_string(s, open).kind == ErrorForm::EOFError,
        unclosed_string(s, open).labels.len() == 1,
        unclosed_string(s, open).labels[0].start == byte_offset(s, open),
        unclosed_string(s, open).labels[0].end == byte_offset(s, s.len() as int),
        scan_tokens(s, open, keywords) == seq![
            TokenView {
                form: TokenType::String,
                position: position_of(s, open, s.len() as int),
                content: text_between(s, open + 1, s.len() as int),
            },
        ],
{
    let end = s.len() as int;
    lemma_run_ends_at(s, open + 1, end, Run::Text);
    lemma_byte_offset_grows(s, open, end);
    assert(lead_of(s[open]) == Lead::Quote);
    assert(string_close(s, open) == end);
    assert(lexeme_end(s, open) == end);
    assert(scan_tokens(s, end, keywords) =~= Seq::<TokenView>::empty());
    assert(scan_errors(s, end) =~= Seq::<ErrorView>::empty());
    assert(scan_errors(s, open) =~= seq![unclosed_string(s, open)]);
    assert(scan_tokens(s, open, keywords) =~= seq![
        TokenView {
            form: TokenType::String,
            position: position_of(s, open, end),
            content: text_between(s, open + 1, end),
        },
    ]);
}

/// `!` without `=` behind it is one character, gives no token and raises
/// exactly one diagnostic: of the kind for a wrong character where one
/// follows, of the kind for ended input where none does.
pub proof fn law_bang_without_equals(
    s: Seq<SourceChar>,
    i: int,
    keywords: Map<Seq<char>, TokenType>,
)
    requires
        0 <= i < s.len(),
        s[i].value == '!',
        !follows(s, i, '='),
    ensures
        lexeme_end(s, i) == i + 1,
        tokens_at(s, i, keywords) == Seq::<TokenView>::empty(),
        errors_at(s, i).len() == 1,
        i + 1 < s.len() ==> errors_at(s, i)[0].kind == ErrorForm::SyntaxError,
        i + 1 >= s.len() ==> errors_at(s, i)[0].kind == ErrorForm::EOFError,
        scan_tokens(s, i, keywords) == scan_tokens(s, i + 1, keywords),
        scan_errors(s, i) == errors_at(s, i) + scan_errors(s, i + 1),
{
    assert(lead_of(s[i]) == Lead::Bang);
    assert(scan_tokens(s, i, keywords) =~= scan_tokens(s, i + 1, keywords));
}

/// The longest operator wins: `<<` is one left shift and `<=` one
/// comparison, never a `<` and a token behind it.
pub proof fn law_longest_operator(s: Seq<SourceChar>, i: int, keywords: Map<Seq<char>, TokenType>)
    requires
        0 <= i < s.len(),
        s[i].value == '<',
    ensures
        follows(s, i, '<') ==> lexeme_end(s, i) == i + 2 && tokens_at(s, i, keywords) == seq![
            token_of(s, TokenType::BitwiseLshift, i, i + 2),
        ],
        follows(s, i, '=') ==> lexeme_end(s, i) == i + 2 && tokens_at(s, i, keywords) == seq![
            token_of(s, TokenType::LessEquals, i, i + 2),
        ],
        !follows(s, i, '<') && !follows(s, i, '=') ==> lexeme_end(s, i) == i + 1 && tokens_at(
            s,
            i,
            keywords,
        ) == seq![token_of(s, TokenType::LessThan, i, i + 1)],
{
    assert(lead_of(s[i]) == Lead::Less);
}

/// A token covers its whole lexeme, and its content is the lexeme as it
/// stands in the text; only a string literal leaves its quotes out of the
/// content.
pub proof fn law_token_text(s: Seq<SourceChar>, i: int, keywords: Map<Seq<char>, TokenType>)
    requires
        0 <= i < s.len(),
        tokens_at(s, i, keywords).len() > 0,
    ensures
        tokens_at(s, i, keywords).len() == 1,
        tokens_at(s, i, keywords)[0].position == position_of(s, i, lexeme_end(s, i)),
        lead_of(s[i]) != Lead::Quote ==> tokens_at(s, i, keywords)[0].content == text_between(
            s,
            i,
            lexeme_end(s, i),
        ),
        lead_of(s[i]) == Lead::Quote ==> tokens_at(s, i, keywords)[0].content == text_between(
            s,
            i + 1,
            string_close(s, i),
        ),
{
}

/// Every token has at least one byte and lies inside the text, and no
/// token begins before the one in front of it ends.
pub proof fn law_token_spans(s: Seq<SourceChar>, i: int, keywords: Map<Seq<char>, TokenType>)
    requires
        0 <= i <= s.len(),
        byte_offset(s, s.len() as int) <= usize::MAX,
    ensures
        forall|k: int|
            0 <= k < scan_tokens(s, i, keywords).len() ==> byte_offset(s, i) <= (
            #[trigger] scan_tokens(s, i, keywords)[k]).position.start < scan_tokens(
                s,
                i,
                keywords,
            )[k].position.end <= byte_offset(s, s.len() as int),
        forall|k: int, m: int|
            0 <= k < m < scan_tokens(s, i, keywords).len() ==> (#[trigger] scan_tokens(
                s,
                i,
                keywords,
            )[k]).position.end <= (#[trigger] scan_tokens(s, i, keywords)[m]).position.start,
    decreases s.len() - i,
{
    if i < s.len() {
        let next = lexeme_end(s, i);
        lemma_lexeme_end(s, i);
        lemma_byte_offset_grows(s, i, next);
        lemma_byte_offset_grows(s, next, s.len() as int);
        law_token_spans(s, next, keywords);
        let head = tokens_at(s, i, keywords);
        let tail = scan_tokens(s, next, keywords);
        let all = scan_tokens(s, i, keywords);
        assert(all =~= head + tail);
        assert(head.len() == 1 ==> head[0].position == position_of(s, i, next));
        assert forall|k: int| 0 <= k < all.len() implies byte_offset(s, i) <= (
        #[trigger] all[k]).position.start < all[k].position.end <= byte_offset(
            s,
            s.len() as int,
        ) by {
            if k >= head.len() {
                assert(all[k] == tail[k - head.len()]);
            }
        }
        assert forall|k: int, m: int| 0 <= k < m < all.len() implies (#[trigger] all[k]).position.end
            <= (#[trigger] all[m]).position.start by {
            assert(all[m] == tail[m - head.len()]);
            if k >= head.len() {
                assert(all[k] == tail[k - head.len()]);
            }
        }
    }
}

/// Scanning is a function of the text, the keyword table and the place
/// to start from: two runs of `tokenise` that agree on these, and on what
/// was gathered before, gather the same tokens and the same diagnostics.
pub proof fn law_rescan(first: Lexer, first_done: Lexer, second: Lexer, second_done: Lexer)
    requires
        first.input() == second.input(),
        first.consumed() == second.consumed(),
        first.keywords@ == second.keywords@,
        first.gathered() == second.gathered(),
        first.raised() == second.raised(),
        first.tokenised(&first_done),
        second.tokenised(&second_done),
    ensures
        first_done.gathered() == second_done.gathered(),
        first_done.raised() == second_done.raised(),
        first_done.pos == second_done.pos,
        first_done.line_number == second_done.line_number,
        first_done.column_number == second_done.column_number,
{
}

} // verus!
