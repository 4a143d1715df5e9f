use vstd::prelude::*;
use crate::error::Error;
use crate::number::{all_digits, literal_value, is_digit, Number};
use crate::text::{chars_of, string_of_range};
use crate::token::Token;
use crate::token_type::{keyword, keyword_kind, TokenType};
use crate::value::{opt_view, Val, Value};

verus! {

/// A token with its text and literal seen as plain values.
pub struct TokView {
    pub kind: TokenType,
    pub lexeme: Seq<char>,
    pub literal: Option<Val>,
    pub line: int,
}

pub open spec fn tok_view(t: Token) -> TokView {
    TokView { kind: t.type_, lexeme: t.lexeme@, literal: opt_view(t.literal), line: t.line as int }
}

pub open spec fn tok_views(t: Seq<Token>) -> Seq<TokView> {
    t.map_values(|x: Token| tok_view(x))
}

pub open spec fn is_alpha(c: char) -> bool {
    ('a' <= c <= 'z') || ('A' <= c <= 'Z') || c == '_'
}

/// Whether `char::is_alphanumeric` holds of a character.
pub uninterp spec fn alphanumeric(c: char) -> bool;

/// Relies on `char::is_alphanumeric`: whether the character is alphabetic
/// or numeric in Unicode.
#[verifier::external_body]
fn is_alphanumeric_char(c: char) -> (r: bool)
    ensures
        r == alphanumeric(c),
{
    c.is_alphanumeric()
}

/// Characters that continue an identifier: underscores and alphanumeric
/// characters (for ASCII, the letters and digits).
pub open spec fn is_word_char(c: char) -> bool {
    is_alpha(c) || is_digit(c) || ('\u{80}' <= c && alphanumeric(c))
}

/// The end of the run of digits that starts at `i`.
pub open spec fn digits_end(s: Seq<char>, i: int) -> int
    decreases s.len() - i,
{
    if i >= s.len() || i < 0 || !is_digit(s[i]) { i } else { digits_end(s, i + 1) }
}

/// The end of the run of letters, digits and underscores that starts at `i`.
pub open spec fn word_end(s: Seq<char>, i: int) -> int
    decreases s.len() - i,
{
    if i >= s.len() || i < 0 || !is_word_char(s[i]) { i } else { word_end(s, i + 1) }
}

/// The first index from `i` on that holds `c`, or the length.
pub open spec fn find_char(s: Seq<char>, i: int, c: char) -> int
    decreases s.len() - i,
{
    if i >= s.len() || i < 0 || s[i] == c { i } else { find_char(s, i + 1, c) }
}

pub open spec fn count_newlines(s: Seq<char>) -> int
    decreases s.len(),
{
    if s.len() == 0 {
        0
    } else {
        count_newlines(s.drop_last()) + if s.last() == '\n' { 1int } else { 0 }
    }
}

/// The kind of the token made of the single character `c`, for those that
/// never start a longer token.
pub open spec fn single_kind(c: char) -> Option<TokenType> {
    if c == '(' { Some(TokenType::LeftParen) }
    else if c == ')' { Some(TokenType::RightParen) }
    else if c == '{' { Some(TokenType::LeftBrace) }
    else if c == '}' { Some(TokenType::RightBrace) }
    else if c == ',' { Some(TokenType::Comma) }
    else if c == '.' { Some(TokenType::Dot) }
    else if c == '-' { Some(TokenType::Minus) }
    else if c == '+' { Some(TokenType::Plus) }
    else if c == ';' { Some(TokenType::Semicolon) }
    else if c == '*' { Some(TokenType::Star) }
    else { None }
}

/// For `!`, `=`, `<` and `>`: the kind alone, and the kind when `=` follows.
pub open spec fn pair_kinds(c: char) -> Option<(TokenType, TokenType)> {
    if c == '!' { Some((TokenType::Bang, TokenType::BangEqual)) }
    else if c == '=' { Some((TokenType::Equal, TokenType::EqualEqual)) }
    else if c == '<' { Some((TokenType::Less, TokenType::LessEqual)) }
    else if c == '>' { Some((TokenType::Greater, TokenType::GreaterEqual)) }
    else { None }
}

/// What one scanning step at `pos` finds: a token or an error (or
/// neither, for blanks and comments), where scanning goes on, and the line
/// there.
pub struct Step {
    pub token: Option<TokView>,
    pub error: Option<(int, Seq<char>)>,
    pub next: int,
    pub line: int,
}

pub open spec fn tok(kind: TokenType, s: Seq<char>, from: int, to: int, lit: Option<Val>, line: int) -> TokView {
    TokView { kind, lexeme: s.subrange(from, to), literal: lit, line }
}

pub open spec fn skip(next: int, line: int) -> Step {
    Step { token: None, error: None, next, line }
}

pub open spec fn emit_tok(t: TokView, next: int, line: int) -> Step {
    Step { token: Some(t), error: None, next, line }
}

pub open spec fn scan_error(line: int, m: Seq<char>, next: int) -> Step {
    Step { token: None, error: Some((line, m)), next, line }
}

/// One scanning step at `pos < s.len()`.
pub open spec fn scan_one(s: Seq<char>, pos: int, line: int) -> Step {
    let c = s[pos];
    if single_kind(c) is Some {
        emit_tok(tok(single_kind(c).unwrap(), s, pos, pos + 1, None, line), pos + 1, line)
    } else if pair_kinds(c) is Some {
        let (one, two) = pair_kinds(c).unwrap();
        if pos + 1 < s.len() && s[pos + 1] == '=' {
            emit_tok(tok(two, s, pos, pos + 2, None, line), pos + 2, line)
        } else {
            emit_tok(tok(one, s, pos, pos + 1, None, line), pos + 1, line)
        }
    } else if c == '/' {
        if pos + 1 < s.len() && s[pos + 1] == '/' {
            skip(find_char(s, pos, '\n'), line)
        } else {
            emit_tok(tok(TokenType::Slash, s, pos, pos + 1, None, line), pos + 1, line)
        }
    } else if c == ' ' || c == '\r' || c == '\t' {
        skip(pos + 1, line)
    } else if c == '\n' {
        skip(pos + 1, line + 1)
    } else if c == '"' {
        let close = find_char(s, pos + 1, '"');
        let l2 = line + count_newlines(s.subrange(pos + 1, close));
        if close >= s.len() {
            scan_error(l2, "Unterminated string."@, s.len() as int)
        } else {
            emit_tok(tok(TokenType::String, s, pos, close + 1, Some(Val::Str(s.subrange(pos + 1, close))), l2), close + 1, l2)
        }
    } else if is_digit(c) {
        let j = digits_end(s, pos);
        let k = if j + 1 < s.len() && s[j] == '.' && is_digit(s[j + 1]) { digits_end(s, j + 1) } else { j };
        let frac = if k > j { s.subrange(j + 1, k) } else { Seq::empty() };
        match literal_value(s.subrange(pos, j), frac) {
            Some(n) => emit_tok(tok(TokenType::Number, s, pos, k, Some(Val::Number(n)), line), k, line),
            None => scan_error(line, "Number literal out of range."@, k),
        }
    } else if is_alpha(c) {
        let j = word_end(s, pos);
        let kind = match keyword_kind(s.subrange(pos, j)) {
            Some(k) => k,
            None => TokenType::Identifier,
        };
        emit_tok(tok(kind, s, pos, j, None, line), j, line)
    } else {
        scan_error(line, "Unexpected character."@, pos + 1)
    }
}

/// Scans `s[pos..]` from `line` on, after the tokens `toks` and errors
/// `errs` found so far; the last token is always the end of input.
pub open spec fn scan_all(s: Seq<char>, pos: int, line: int, toks: Seq<TokView>, errs: Seq<(int, Seq<char>)>) -> (Seq<TokView>, Seq<(int, Seq<char>)>)
    decreases s.len() - pos,
{
    if pos < 0 || pos >= s.len() {
        (toks.push(TokView { kind: TokenType::Eof, lexeme: Seq::empty(), literal: None, line }), errs)
    } else {
        let st = scan_one(s, pos, line);
        let toks1 = match st.token { Some(t) => toks.push(t), None => toks };
        let errs1 = match st.error { Some(e) => errs.push(e), None => errs };
        let next = if pos < st.next <= s.len() { st.next } else { s.len() as int };
        scan_all(s, next, st.line, toks1, errs1)
    }
}

/// The tokens and the errors found in a source text.
pub open spec fn scan(s: Seq<char>) -> (Seq<TokView>, Seq<(int, Seq<char>)>) {
    scan_all(s, 0, 1, Seq::empty(), Seq::empty())
}

proof fn lemma_digits_run(s: Seq<char>, i: int)
    requires
        0 <= i <= s.len(),
    ensures
        i <= digits_end(s, i) <= s.len(),
        all_digits(s.subrange(i, digits_end(s, i))),
    decreases s.len() - i,
{
    if i < s.len() && is_digit(s[i]) {
        lemma_digits_run(s, i + 1);
        let e = digits_end(s, i);
        assert forall|k: int| 0 <= k < e - i implies is_digit(#[trigger] s.subrange(i, e)[k]) by {
            if k > 0 {
                assert(s.subrange(i, e)[k] == s.subrange(i + 1, e)[k - 1]);
            }
        }
    } else {
        assert(s.subrange(i, i).len() == 0);
    }
}

proof fn lemma_word_run(s: Seq<char>, i: int)
    requires
        0 <= i <= s.len(),
    ensures
        i <= word_end(s, i) <= s.len(),
    decreases s.len() - i,
{
    if i < s.len() && is_word_char(s[i]) {
        lemma_word_run(s, i + 1);
    }
}

proof fn lemma_find_bounds(s: Seq<char>, i: int, c: char)
    requires
        0 <= i <= s.len(),
    ensures
        i <= find_char(s, i, c) <= s.len(),
        find_char(s, i, c) < s.len() ==> s[find_char(s, i, c)] == c,
    decreases s.len() - i,
{
    if i < s.len() && s[i] != c {
        lemma_find_bounds(s, i + 1, c);
    }
}

proof fn lemma_keyword_not_eof(w: Seq<char>)
    ensures
        keyword_kind(w) != Some(TokenType::Eof),
{
}

/// A scanning step never yields the end-of-input token.
proof fn lemma_step_not_eof(s: Seq<char>, pos: int, line: int)
    requires
        0 <= pos < s.len(),
    ensures
        scan_one(s, pos, line).token matches Some(t) ==> t.kind != TokenType::Eof,
{
    let c = s[pos];
    if is_alpha(c) {
        lemma_keyword_not_eof(s.subrange(pos, word_end(s, pos)));
    }
}

proof fn lemma_scan_all_shape(s: Seq<char>, pos: int, line: int, toks: Seq<TokView>, errs: Seq<(int, Seq<char>)>)
    ensures
        ({
            let r = scan_all(s, pos, line, toks, errs).0;
            &&& r.len() > toks.len()
            &&& r.subrange(0, toks.len() as int) == toks
            &&& r.last().kind == TokenType::Eof
            &&& forall|i: int| toks.len() <= i < r.len() - 1 ==> (#[trigger] r[i]).kind != TokenType::Eof
        }),
    decreases s.len() - pos,
{
    if pos < 0 || pos >= s.len() {
        let r = scan_all(s, pos, line, toks, errs).0;
        assert(r.subrange(0, toks.len() as int) =~= toks);
    } else {
        let st = scan_one(s, pos, line);
        lemma_step_not_eof(s, pos, line);
        let toks1 = match st.token { Some(t) => toks.push(t), None => toks };
        let errs1 = match st.error { Some(e) => errs.push(e), None => errs };
        let next = if pos < st.next <= s.len() { st.next } else { s.len() as int };
        lemma_scan_all_shape(s, next, st.line, toks1, errs1);
        let r = scan_all(s, pos, line, toks, errs).0;
        assert(r == scan_all(s, next, st.line, toks1, errs1).0);
        assert(r.subrange(0, toks1.len() as int).subrange(0, toks.len() as int) =~= r.subrange(0, toks.len() as int));
        assert(toks1.subrange(0, toks.len() as int) =~= toks);
        assert forall|i: int| toks.len() <= i < r.len() - 1 implies (#[trigger] r[i]).kind != TokenType::Eof by {
            if i < toks1.len() {
                assert(r[i] == r.subrange(0, toks1.len() as int)[i]);
            }
        }
    }
}

/// Scanning never stops early: whatever the text, malformed or not, the
/// tokens end with exactly one end-of-input token, and it is the last.
pub proof fn lemma_scan_ends_with_eof(s: Seq<char>)
    ensures
        scan(s).0.len() >= 1,
        scan(s).0.last().kind == TokenType::Eof,
        forall|i: int| 0 <= i < scan(s).0.len() - 1 ==> (#[trigger] scan(s).0[i]).kind != TokenType::Eof,
{
    lemma_scan_all_shape(s, 0, 1, Seq::empty(), Seq::empty());
}

/// Whether `w` is one complete lexeme of kind `k`: a punctuation mark or
/// operator, a word (reserved or not), a whole number that fits, or a string
/// literal.
pub open spec fn is_single_lexeme(k: TokenType, w: Seq<char>) -> bool {
    ||| (w.len() == 1 && single_kind(w[0]) == Some(k))
    ||| (w.len() == 1 && pair_kinds(w[0]) is Some && pair_kinds(w[0]).unwrap().0 == k)
    ||| (w.len() == 2 && pair_kinds(w[0]) is Some && w[1] == '=' && pair_kinds(w[0]).unwrap().1 == k)
    ||| (w == seq!['/'] && k == TokenType::Slash)
    ||| (w.len() >= 1 && is_alpha(w[0]) && (forall|i: int| 0 <= i < w.len() ==> is_word_char(#[trigger] w[i]))
        && k == match keyword_kind(w) { Some(x) => x, None => TokenType::Identifier })
    ||| (w.len() >= 1 && all_digits(w) && literal_value(w, Seq::empty()) is Some && k == TokenType::Number)
    ||| (exists|j: int| 1 <= j && j + 2 <= w.len() && #[trigger] w[j] == '.'
        && all_digits(w.subrange(0, j)) && all_digits(w.subrange(j + 1, w.len() as int))
        && literal_value(w.subrange(0, j), w.subrange(j + 1, w.len() as int)) is Some && k == TokenType::Number)
    ||| (w.len() >= 2 && w[0] == '"' && w.last() == '"' && k == TokenType::String
        && (forall|i: int| 1 <= i < w.len() - 1 ==> #[trigger] w[i] != '"'))
}

proof fn lemma_word_end_all(w: Seq<char>, i: int)
    requires
        0 <= i <= w.len(),
        forall|j: int| 0 <= j < w.len() ==> is_word_char(#[trigger] w[j]),
    ensures
        word_end(w, i) == w.len(),
    decreases w.len() - i,
{
    if i < w.len() {
        lemma_word_end_all(w, i + 1);
    }
}

proof fn lemma_digits_end_all(w: Seq<char>, i: int)
    requires
        0 <= i <= w.len(),
        all_digits(w),
    ensures
        digits_end(w, i) == w.len(),
    decreases w.len() - i,
{
    if i < w.len() {
        lemma_digits_end_all(w, i + 1);
    }
}

proof fn lemma_find_quote(w: Seq<char>, i: int)
    requires
        1 <= i <= w.len() - 1,
        w[w.len() - 1] == '"',
        forall|j: int| 1 <= j < w.len() - 1 ==> #[trigger] w[j] != '"',
    ensures
        find_char(w, i, '"') == w.len() - 1,
    decreases w.len() - i,
{
    if i < w.len() - 1 {
        lemma_find_quote(w, i + 1);
    }
}

proof fn lemma_digits_end_at(w: Seq<char>, i: int, j: int)
    requires
        0 <= i <= j <= w.len(),
        all_digits(w.subrange(i, j)),
        j == w.len() || !is_digit(w[j]),
    ensures
        digits_end(w, i) == j,
    decreases j - i,
{
    if i < j {
        assert(w.subrange(i, j)[0] == w[i]);
        assert(all_digits(w.subrange(i + 1, j))) by {
            assert forall|t: int| 0 <= t < j - i - 1 implies is_digit(#[trigger] w.subrange(i + 1, j)[t]) by {
                assert(w.subrange(i + 1, j)[t] == w.subrange(i, j)[t + 1]);
            }
        }
        lemma_digits_end_at(w, i + 1, j);
    }
}

/// A text that is a single lexeme scans to exactly one token of that kind,
/// holding the whole text, on line one (a string on the line where it
/// closes), followed by the end-of-input token with no text on the same
/// line, and no error.
pub proof fn lemma_single_lexeme(k: TokenType, w: Seq<char>)
    requires
        is_single_lexeme(k, w),
    ensures
        scan(w).0.len() == 2,
        scan(w).0[0].kind == k,
        scan(w).0[0].lexeme == w,
        scan(w).0[0].line == if k == TokenType::String { 1 + count_newlines(w.subrange(1, w.len() - 1)) } else { 1 },
        scan(w).0[1].kind == TokenType::Eof,
        scan(w).0[1].lexeme.len() == 0,
        scan(w).0[1].line == scan(w).0[0].line,
        scan(w).1.len() == 0,
{
    let st = scan_one(w, 0, 1);
    let c = w[0];
    assert(w.subrange(0, w.len() as int) =~= w);
    if w.len() >= 1 && is_alpha(c) && (forall|i: int| 0 <= i < w.len() ==> is_word_char(#[trigger] w[i])) {
        lemma_word_end_all(w, 0);
    } else if w.len() >= 1 && all_digits(w) && literal_value(w, Seq::empty()) is Some && k == TokenType::Number {
        lemma_digits_end_all(w, 0);
    } else if exists|j: int| 1 <= j && j + 2 <= w.len() && #[trigger] w[j] == '.'
        && all_digits(w.subrange(0, j)) && all_digits(w.subrange(j + 1, w.len() as int))
        && literal_value(w.subrange(0, j), w.subrange(j + 1, w.len() as int)) is Some && k == TokenType::Number {
        let j = choose|j: int| 1 <= j && j + 2 <= w.len() && #[trigger] w[j] == '.'
            && all_digits(w.subrange(0, j)) && all_digits(w.subrange(j + 1, w.len() as int))
            && literal_value(w.subrange(0, j), w.subrange(j + 1, w.len() as int)) is Some && k == TokenType::Number;
        lemma_digits_end_at(w, 0, j);
        assert(w.subrange(j + 1, w.len() as int)[0] == w[j + 1]);
        lemma_digits_end_at(w, j + 1, w.len() as int);
        assert(w.subrange(0, w.len() as int).subrange(0, j) =~= w.subrange(0, j));
    } else if w.len() >= 2 && c == '"' && w.last() == '"' {
        lemma_find_quote(w, 1);
    }
    assert(st.token is Some && st.token.unwrap().kind == k && st.token.unwrap().lexeme == w);
    assert(st.error is None && st.next == w.len());
    assert(scan(w) == scan_all(w, w.len() as int, st.line, Seq::empty().push(st.token.unwrap()), Seq::empty()));
}

proof fn lemma_no_quote(s: Seq<char>, i: int)
    requires
        0 <= i <= s.len(),
        forall|j: int| i <= j < s.len() ==> #[trigger] s[j] != '"',
    ensures
        find_char(s, i, '"') == s.len(),
    decreases s.len() - i,
{
    if i < s.len() {
        lemma_no_quote(s, i + 1);
    }
}

/// An unterminated string does not stop scanning early: wherever scanning
/// reaches a `"` with no closing quote after it, the error is reported, the
/// tokens found before it stay as they are, and the only token added is the
/// end of input, on the line where the text ends.
pub proof fn lemma_unterminated_string(s: Seq<char>, pos: int, line: int, toks: Seq<TokView>, errs: Seq<(int, Seq<char>)>)
    requires
        0 <= pos < s.len(),
        s[pos] == '"',
        forall|j: int| pos < j < s.len() ==> #[trigger] s[j] != '"',
    ensures
        ({
            let end_line = line + count_newlines(s.subrange(pos + 1, s.len() as int));
            scan_all(s, pos, line, toks, errs) == (
                toks.push(TokView { kind: TokenType::Eof, lexeme: Seq::empty(), literal: None, line: end_line }),
                errs.push((end_line, "Unterminated string."@)),
            )
        }),
{
    lemma_no_quote(s, pos + 1);
    let st = scan_one(s, pos, line);
    assert(st.next == s.len());
    assert(scan_all(s, pos, line, toks, errs) == scan_all(s, s.len() as int, st.line, toks, errs.push(st.error.unwrap())));
}

pub open spec fn err_view(e: Error) -> (int, Seq<char>) {
    (e.line as int, e.message@)
}

/// Turns source text into tokens.
pub struct Scanner {
    source: Vec<char>,
    tokens: Vec<Token>,
    errors: Vec<Error>,
    current: usize,
    line: usize,
}

impl Scanner {
    /// The characters being scanned.
    pub closed spec fn src(&self) -> Seq<char> {
        self.source@
    }

    /// Where scanning stands: the position, the line there, and what was
    /// found so far.
    pub closed spec fn pos(&self) -> int {
        self.current as int
    }

    pub closed spec fn line_at(&self) -> int {
        self.line as int
    }

    pub closed spec fn found(&self) -> Seq<TokView> {
        self.tokens@.map_values(|t: Token| tok_view(t))
    }

    pub closed spec fn reported(&self) -> Seq<(int, Seq<char>)> {
        self.errors@.map_values(|e: Error| err_view(e))
    }

    pub closed spec fn wf(&self) -> bool {
        &&& self.source.len() < usize::MAX
        &&& self.current <= self.source.len()
        &&& 1 <= self.line <= self.current + 1
    }

    /// A scanner at the start of `source`, on line one.
    pub fn new(source: String) -> (r: Self)
        requires
            source@.len() < usize::MAX,
        ensures
            r.wf(),
            r.src() == source@,
            r.pos() == 0,
            r.line_at() == 1,
            r.found() == Seq::<TokView>::empty(),
            r.reported() == Seq::<(int, Seq<char>)>::empty(),
    {
        let r = Scanner {
            source: chars_of(source.as_str()),
            tokens: Vec::new(),
            errors: Vec::new(),
            current: 0,
            line: 1,
        };
        assert(r.found() =~= Seq::<TokView>::empty());
        assert(r.reported() =~= Seq::<(int, Seq<char>)>::empty());
        r
    }

    /// The errors reported so far.
    pub fn errors(&self) -> (r: &Vec<Error>)
        ensures
            r@.map_values(|e: Error| err_view(e)) == self.reported(),
    {
        &self.errors
    }

    /// Hands out the errors reported so far and forgets them.
    pub fn take_errors(&mut self, into: &mut Vec<Error>)
        ensures
            final(into)@.map_values(|e: Error| err_view(e)) == old(into)@.map_values(|e: Error| err_view(e)) + old(self).reported(),
            final(self).reported() == Seq::<(int, Seq<char>)>::empty(),
            final(self).wf() == old(self).wf(),
            final(self).src() == old(self).src(),
    {
        let ghost before = into@;
        into.append(&mut self.errors);
        assert(into@.map_values(|e: Error| err_view(e)) =~= before.map_values(|e: Error| err_view(e)) + old(self).reported());
        assert(self.reported() =~= Seq::<(int, Seq<char>)>::empty());
    }

    fn digits_end_exec(&self, i: usize) -> (r: usize)
        requires
            i <= self.source.len(),
        ensures
            r == digits_end(self.source@, i as int),
            i <= r <= self.source.len(),
    {
        let mut j = i;
        while j < self.source.len() && '0' <= self.source[j] && self.source[j] <= '9'
            invariant
                i <= j <= self.source.len(),
                digits_end(self.source@, i as int) == digits_end(self.source@, j as int),
            decreases self.source.len() - j,
        {
            j = j + 1;
        }
        j
    }

    fn word_end_exec(&self, i: usize) -> (r: usize)
        requires
            i <= self.source.len(),
        ensures
            r == word_end(self.source@, i as int),
            i <= r <= self.source.len(),
    {
        let mut j = i;
        while j < self.source.len() && is_word_char_exec(self.source[j])
            invariant
                i <= j <= self.source.len(),
                word_end(self.source@, i as int) == word_end(self.source@, j as int),
            decreases self.source.len() - j,
        {
            j = j + 1;
        }
        j
    }

    /// Scans one token, blank or comment at the current position.
    pub fn scan_token(&mut self)
        requires
            old(self).wf(),
            old(self).pos() < old(self).src().len(),
        ensures
            final(self).wf(),
            final(self).src() == old(self).src(),
            ({
                let st = scan_one(old(self).src(), old(self).pos(), old(self).line_at());
                &&& final(self).found() == match st.token {
                    Some(t) => old(self).found().push(t),
                    None => old(self).found(),
                }
                &&& final(self).reported() == match st.error {
                    Some(e) => old(self).reported().push(e),
                    None => old(self).reported(),
                }
                &&& final(self).pos() == st.next
                &&& final(self).line_at() == st.line
                &&& old(self).pos() < st.next <= old(self).src().len()
            }),
    {
        let ghost s = self.source@;
        let pos = self.current;
        let line = self.line;
        let len = self.source.len();
        let c = self.source[pos];
        match single_kind_exec(c) {
            Some(k) => {
                self.push_token(k, pos, pos + 1, None, line);
                self.current = pos + 1;
                return;
            },
            None => {},
        }
        match pair_kinds_exec(c) {
            Some((one, two)) => {
                if pos + 1 < len && self.source[pos + 1] == '=' {
                    self.push_token(two, pos, pos + 2, None, line);
                    self.current = pos + 2;
                } else {
                    self.push_token(one, pos, pos + 1, None, line);
                    self.current = pos + 1;
                }
                return;
            },
            None => {},
        }
        if c == '/' {
            if pos + 1 < len && self.source[pos + 1] == '/' {
                proof { lemma_find_bounds(s, pos as int + 1, '\n'); }
                let j = self.find_char_exec(pos, '\n');
                assert(find_char(s, pos as int, '\n') == find_char(s, pos + 1, '\n'));
                self.current = j;
            } else {
                self.push_token(TokenType::Slash, pos, pos + 1, None, line);
                self.current = pos + 1;
            }
        } else if c == ' ' || c == '\r' || c == '\t' {
            self.current = pos + 1;
        } else if c == '\n' {
            self.line = line + 1;
            self.current = pos + 1;
        } else if c == '"' {
            let (j, l) = self.string_end(pos);
            self.line = l;
            if j >= len {
                self.push_error(l, "Unterminated string.");
                self.current = len;
            } else {
                let text = string_of_range(&self.source, pos + 1, j);
                self.push_token(TokenType::String, pos, j + 1, Some(Value::String(text)), l);
                self.current = j + 1;
            }
        } else if '0' <= c && c <= '9' {
            let j = self.digits_end_exec(pos);
            proof {
                lemma_digits_run(s, pos as int);
                lemma_digits_run(s, pos + 1);
                assert(digits_end(s, pos as int) == digits_end(s, pos + 1));
            }
            let k = if j + 1 < len && self.source[j] == '.' && '0' <= self.source[j + 1] && self.source[j + 1] <= '9' {
                proof { lemma_digits_run(s, j + 1); }
                self.digits_end_exec(j + 1)
            } else {
                j
            };
            match Number::parse_literal(&self.source, pos, j, k) {
                Some(n) => {
                    self.push_token(TokenType::Number, pos, k, Some(Value::Number(n)), line);
                },
                None => {
                    self.push_error(line, "Number literal out of range.");
                },
            }
            self.current = k;
        } else if ('a' <= c && c <= 'z') || ('A' <= c && c <= 'Z') || c == '_' {
            let j = self.word_end_exec(pos);
            proof {
                lemma_word_run(s, pos + 1);
                assert(word_end(s, pos as int) == word_end(s, pos + 1));
            }
            let kind = match keyword(&self.source, pos, j) {
                Some(k) => k,
                None => TokenType::Identifier,
            };
            self.push_token(kind, pos, j, None, line);
            self.current = j;
        } else {
            self.push_error(line, "Unexpected character.");
            self.current = pos + 1;
        }
    }

    /// Scans the rest of the source, ending with the end-of-input token, and
    /// hands out every token found.
    pub fn scan_tokens(&mut self) -> (r: Vec<Token>)
        requires
            old(self).wf(),
        ensures
            final(self).wf(),
            r@.map_values(|t: Token| tok_view(t)) == scan_all(old(self).src(), old(self).pos(), old(self).line_at(), old(self).found(), old(self).reported()).0,
            final(self).reported() == scan_all(old(self).src(), old(self).pos(), old(self).line_at(), old(self).found(), old(self).reported()).1,
    {
        while self.current < self.source.len()
            invariant
                self.wf(),
                self.src() == old(self).src(),
                scan_all(old(self).src(), old(self).pos(), old(self).line_at(), old(self).found(), old(self).reported())
                    == scan_all(self.src(), self.pos(), self.line_at(), self.found(), self.reported()),
            decreases self.source.len() - self.current,
        {
            self.scan_token();
        }
        let eof = Token::eof(self.line);
        self.tokens.push(eof);
        let mut r: Vec<Token> = Vec::new();
        std::mem::swap(&mut r, &mut self.tokens);
        assert(r@.map_values(|t: Token| tok_view(t)) =~= scan_all(old(self).src(), old(self).pos(), old(self).line_at(), old(self).found(), old(self).reported()).0);
        r
    }

    fn find_char_exec(&self, i: usize, c: char) -> (r: usize)
        requires
            i <= self.source.len(),
        ensures
            r == find_char(self.source@, i as int, c),
            i <= r <= self.source.len(),
    {
        let mut j = i;
        while j < self.source.len() && self.source[j] != c
            invariant
                i <= j <= self.source.len(),
                find_char(self.source@, i as int, c) == find_char(self.source@, j as int, c),
            decreases self.source.len() - j,
        {
            j = j + 1;
        }
        j
    }

    /// Where the string literal opening at `pos` closes, and the line there.
    fn string_end(&self, pos: usize) -> (r: (usize, usize))
        requires
            self.wf(),
            pos == self.current,
            pos < self.source.len(),
        ensures
            r.0 == find_char(self.source@, pos + 1, '"'),
            pos + 1 <= r.0 <= self.source.len(),
            r.1 == self.line + count_newlines(self.source@.subrange(pos + 1, r.0 as int)),
            r.1 <= r.0,
            r.1 >= self.line,
    {
        let ghost s = self.source@;
        let len = self.source.len();
        let mut j = pos + 1;
        let mut l = self.line;
        while j < len && self.source[j] != '"'
            invariant
                pos + 1 <= j <= len,
                len == self.source.len(),
                len < usize::MAX,
                s == self.source@,
                self.line <= pos + 1,
                find_char(s, pos as int + 1, '"') == find_char(s, j as int, '"'),
                l == self.line + count_newlines(s.subrange(pos + 1, j as int)),
                l <= self.line + (j - pos - 1),
                l >= self.line,
            decreases len - j,
        {
            assert(s.subrange(pos + 1, j + 1).drop_last() =~= s.subrange(pos + 1, j as int));
            if self.source[j] == '\n' {
                l = l + 1;
            }
            j = j + 1;
        }
        (j, l)
    }

    fn push_token(&mut self, kind: TokenType, from: usize, to: usize, literal: Option<Value>, line: usize)
        requires
            from <= to <= old(self).source.len(),
        ensures
            final(self).found() == old(self).found().push(tok(kind, old(self).source@, from as int, to as int, opt_view(literal), line as int)),
            final(self).source == old(self).source,
            final(self).errors == old(self).errors,
            final(self).current == old(self).current,
            final(self).line == old(self).line,
    {
        let text = string_of_range(&self.source, from, to);
        let t = Token { type_: kind, lexeme: text, literal, line };
        self.tokens.push(t);
        assert(self.found() =~= old(self).found().push(tok(kind, old(self).source@, from as int, to as int, opt_view(literal), line as int)));
    }

    fn push_error(&mut self, line: usize, msg: &str)
        ensures
            final(self).reported() == old(self).reported().push((line as int, msg@)),
            final(self).source == old(self).source,
            final(self).tokens == old(self).tokens,
            final(self).current == old(self).current,
            final(self).line == old(self).line,
    {
        self.errors.push(Error::new(line, String::from_str(msg)));
        assert(self.reported() =~= old(self).reported().push((line as int, msg@)));
    }
}

fn is_word_char_exec(c: char) -> (r: bool)
    ensures
        r == is_word_char(c),
{
    if ('a' <= c && c <= 'z') || ('A' <= c && c <= 'Z') || c == '_' || ('0' <= c && c <= '9') {
        true
    } else if '\u{80}' <= c {
        is_alphanumeric_char(c)
    } else {
        false
    }
}

fn single_kind_exec(c: char) -> (r: Option<TokenType>)
    ensures
        r == single_kind(c),
{
    if c == '(' { Some(TokenType::LeftParen) }
    else if c == ')' { Some(TokenType::RightParen) }
    else if c == '{' { Some(TokenType::LeftBrace) }
    else if c == '}' { Some(TokenType::RightBrace) }
    else if c == ',' { Some(TokenType::Comma) }
    else if c == '.' { Some(TokenType::Dot) }
    else if c == '-' { Some(TokenType::Minus) }
    else if c == '+' { Some(TokenType::Plus) }
    else if c == ';' { Some(TokenType::Semicolon) }
    else if c == '*' { Some(TokenType::Star) }
    else { None }
}

fn pair_kinds_exec(c: char) -> (r: Option<(TokenType, TokenType)>)
    ensures
        r == pair_kinds(c),
{
    if c == '!' { Some((TokenType::Bang, TokenType::BangEqual)) }
    else if c == '=' { Some((TokenType::Equal, TokenType::EqualEqual)) }
    else if c == '<' { Some((TokenType::Less, TokenType::LessEqual)) }
    else if c == '>' { Some((TokenType::Greater, TokenType::GreaterEqual)) }
    else { None }
}

} // verus!
