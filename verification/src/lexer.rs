//! The first phase of parsing: from characters to tokens.
//!
//! A token records where it stands in the text, so that later phases can name
//! the place of an error and read names and literals out of the text.

use vstd::prelude::*;
use crate::text::{
    chars_of, digit, digit_value, is_digit, is_letter, is_space, is_word, letter, lower_seq, space,
    to_lower_vec, word,
};

verus! {

/// A word of the query language, in whatever case it is written.
#[derive(Clone, Copy, PartialEq, Eq, Debug, Structural)]
pub enum Keyword {
    Select,
    From,
    Where,
    Join,
    On,
    Group,
    By,
    Order,
    Asc,
    Desc,
    As,
    And,
    Or,
    Not,
    Null,
    True,
    False,
    Count,
    Sum,
    Avg,
    Min,
    Max,
}

/// A sign of the query language.
#[derive(Clone, Copy, PartialEq, Eq, Debug, Structural)]
pub enum Symbol {
    Comma,
    Dot,
    Star,
    LeftParen,
    RightParen,
    Plus,
    Minus,
    Slash,
    Percent,
    Equal,
    NotEqual,
    Less,
    LessEqual,
    Greater,
    GreaterEqual,
}

/// What a token is. A name, a quoted name and a text stand in the text of the
/// query, between the start and the end of their token.
#[derive(Clone, Copy, PartialEq, Eq, Debug, Structural)]
pub enum TokenKind {
    Keyword(Keyword),
    Symbol(Symbol),
    /// A plain name: a letter or `_`, then letters, digits and `_`.
    Name,
    /// A name between double quotes.
    Quoted,
    /// A numeral and its value.
    Integer(i64),
    /// A text between single quotes.
    Text,
    /// The end of the text.
    End,
}

/// A token and the characters `start..end` of the text that it is made of.
#[derive(Clone, Copy, PartialEq, Eq, Debug, Structural)]
pub struct Token {
    pub kind: TokenKind,
    pub start: usize,
    pub end: usize,
}

/// A stretch `start..end` of the text.
#[derive(Clone, Copy, PartialEq, Eq, Debug, Structural)]
pub struct Span {
    pub start: usize,
    pub end: usize,
}

/// What is wrong with a text that cannot be parsed.
#[derive(Clone, Copy, PartialEq, Eq, Debug, Structural)]
pub enum Fault {
    UnexpectedCharacter,
    UnterminatedText,
    UnterminatedName,
    NumberTooLarge,
    NestedTooDeep,
    ExpectedSelect,
    ExpectedFrom,
    ExpectedTableName,
    ExpectedName,
    ExpectedOn,
    ExpectedBy,
    ExpectedExpression,
    ExpectedLeftParen,
    ExpectedRightParen,
    ExpectedEnd,
    MisplacedAggregate,
}

/// A fault and the index of the character at which it was found.
#[derive(Clone, Copy, PartialEq, Eq, Debug, Structural)]
pub struct ParseFailure {
    pub fault: Fault,
    pub position: usize,
}

/// A class of characters that a token is a run of.
#[derive(Clone, Copy, PartialEq, Eq, Debug, Structural)]
pub enum CharClass {
    Space,
    Digit,
    Word,
    /// Anything but a single quote.
    InText,
    /// Anything but a double quote.
    InName,
    /// Anything but white space.
    Solid,
}

/// Whether a character is of a class.
pub open spec fn in_class(class: CharClass, c: char) -> bool {
    match class {
        CharClass::Space => is_space(c),
        CharClass::Digit => is_digit(c),
        CharClass::Word => is_word(c),
        CharClass::InText => c != '\'',
        CharClass::InName => c != '"',
        CharClass::Solid => !is_space(c),
    }
}

/// The end of the longest run of characters of a class that starts at `pos`.
pub open spec fn run_end(src: Seq<char>, pos: int, class: CharClass) -> int
    decreases src.len() - pos,
{
    if 0 <= pos < src.len() && in_class(class, src[pos]) {
        run_end(src, pos + 1, class)
    } else {
        pos
    }
}

/// A run ends at or after its start, and within the text.
pub proof fn lemma_run_end(src: Seq<char>, pos: int, class: CharClass)
    requires
        0 <= pos <= src.len(),
    ensures
        pos <= run_end(src, pos, class) <= src.len(),
    decreases src.len() - pos,
{
    if pos < src.len() && in_class(class, src[pos]) {
        lemma_run_end(src, pos + 1, class);
    }
}

/// The value of the numeral `src[start..end]`; nothing once it exceeds the
/// greatest 64-bit integer.
pub open spec fn numeral(src: Seq<char>, start: int, end: int) -> Option<int>
    decreases end - start,
{
    if end <= start {
        Some(0)
    } else {
        match numeral(src, start, end - 1) {
            None => None,
            Some(v) => {
                let w = v * 10 + digit_value(src[end - 1]);
                if w > i64::MAX {
                    None
                } else {
                    Some(w)
                }
            },
        }
    }
}

/// The keyword that a word is, whatever the case of its letters.
pub open spec fn keyword_of(text: Seq<char>) -> Option<Keyword> {
    let w = lower_seq(text);
    if w == "select"@ {
        Some(Keyword::Select)
    } else if w == "from"@ {
        Some(Keyword::From)
    } else if w == "where"@ {
        Some(Keyword::Where)
    } else if w == "join"@ {
        Some(Keyword::Join)
    } else if w == "on"@ {
        Some(Keyword::On)
    } else if w == "group"@ {
        Some(Keyword::Group)
    } else if w == "by"@ {
        Some(Keyword::By)
    } else if w == "order"@ {
        Some(Keyword::Order)
    } else if w == "asc"@ {
        Some(Keyword::Asc)
    } else if w == "desc"@ {
        Some(Keyword::Desc)
    } else if w == "as"@ {
        Some(Keyword::As)
    } else if w == "and"@ {
        Some(Keyword::And)
    } else if w == "or"@ {
        Some(Keyword::Or)
    } else if w == "not"@ {
        Some(Keyword::Not)
    } else if w == "null"@ {
        Some(Keyword::Null)
    } else if w == "true"@ {
        Some(Keyword::True)
    } else if w == "false"@ {
        Some(Keyword::False)
    } else if w == "count"@ {
        Some(Keyword::Count)
    } else if w == "sum"@ {
        Some(Keyword::Sum)
    } else if w == "avg"@ {
        Some(Keyword::Avg)
    } else if w == "min"@ {
        Some(Keyword::Min)
    } else if w == "max"@ {
        Some(Keyword::Max)
    } else {
        None
    }
}

/// The symbol that starts at `pos`, and its length.
pub open spec fn symbol_at(src: Seq<char>, pos: int) -> Option<(Symbol, int)> {
    let c = src[pos];
    let next_is = |d: char| pos + 1 < src.len() && src[pos + 1] == d;
    if c == ',' {
        Some((Symbol::Comma, 1))
    } else if c == '.' {
        Some((Symbol::Dot, 1))
    } else if c == '*' {
        Some((Symbol::Star, 1))
    } else if c == '(' {
        Some((Symbol::LeftParen, 1))
    } else if c == ')' {
        Some((Symbol::RightParen, 1))
    } else if c == '+' {
        Some((Symbol::Plus, 1))
    } else if c == '-' {
        Some((Symbol::Minus, 1))
    } else if c == '/' {
        Some((Symbol::Slash, 1))
    } else if c == '%' {
        Some((Symbol::Percent, 1))
    } else if c == '=' {
        Some((Symbol::Equal, 1))
    } else if c == '<' {
        if next_is('=') {
            Some((Symbol::LessEqual, 2))
        } else if next_is('>') {
            Some((Symbol::NotEqual, 2))
        } else {
            Some((Symbol::Less, 1))
        }
    } else if c == '>' {
        if next_is('=') {
            Some((Symbol::GreaterEqual, 2))
        } else {
            Some((Symbol::Greater, 1))
        }
    } else if c == '!' && next_is('=') {
        Some((Symbol::NotEqual, 2))
    } else {
        None
    }
}

/// The token that starts at `pos`, after any white space.
pub open spec fn token_at(src: Seq<char>, pos: int) -> Result<Token, ParseFailure> {
    let p = run_end(src, pos, CharClass::Space);
    if p >= src.len() {
        Ok(Token { kind: TokenKind::End, start: p as usize, end: p as usize })
    } else {
        let c = src[p];
        if is_digit(c) {
            let e = run_end(src, p, CharClass::Digit);
            match numeral(src, p, e) {
                Some(v) => Ok(
                    Token { kind: TokenKind::Integer(v as i64), start: p as usize, end: e as usize },
                ),
                None => Err(ParseFailure { fault: Fault::NumberTooLarge, position: p as usize }),
            }
        } else if is_letter(c) {
            let e = run_end(src, p, CharClass::Word);
            match keyword_of(src.subrange(p, e)) {
                Some(k) => Ok(
                    Token { kind: TokenKind::Keyword(k), start: p as usize, end: e as usize },
                ),
                None => Ok(Token { kind: TokenKind::Name, start: p as usize, end: e as usize }),
            }
        } else if c == '\'' {
            let e = run_end(src, p + 1, CharClass::InText);
            if e >= src.len() {
                Err(ParseFailure { fault: Fault::UnterminatedText, position: p as usize })
            } else {
                Ok(Token { kind: TokenKind::Text, start: p as usize, end: (e + 1) as usize })
            }
        } else if c == '"' {
            let e = run_end(src, p + 1, CharClass::InName);
            if e >= src.len() {
                Err(ParseFailure { fault: Fault::UnterminatedName, position: p as usize })
            } else {
                Ok(Token { kind: TokenKind::Quoted, start: p as usize, end: (e + 1) as usize })
            }
        } else {
            match symbol_at(src, p) {
                Some((s, n)) => Ok(
                    Token { kind: TokenKind::Symbol(s), start: p as usize, end: (p + n) as usize },
                ),
                None => Err(
                    ParseFailure { fault: Fault::UnexpectedCharacter, position: p as usize },
                ),
            }
        }
    }
}

/// The tokens of the text from `pos` on, the last of them `End`; or the first
/// fault.
pub open spec fn tokens_from(src: Seq<char>, pos: int) -> Result<Seq<Token>, ParseFailure>
    decreases src.len() - pos,
{
    match token_at(src, pos) {
        Err(e) => Err(e),
        Ok(t) => if t.kind == TokenKind::End || !(pos < t.end <= src.len()) {
            Ok(seq![t])
        } else {
            match tokens_from(src, t.end as int) {
                Err(e) => Err(e),
                Ok(rest) => Ok(seq![t] + rest),
            }
        },
    }
}

/// The tokens of a text.
pub open spec fn tokens_of(src: Seq<char>) -> Result<Seq<Token>, ParseFailure> {
    tokens_from(src, 0)
}

fn of_class(class: CharClass, c: char) -> (r: bool)
    ensures
        r == in_class(class, c),
{
    match class {
        CharClass::Space => space(c),
        CharClass::Digit => digit(c),
        CharClass::Word => word(c),
        CharClass::InText => c != '\'',
        CharClass::InName => c != '"',
        CharClass::Solid => !space(c),
    }
}

/// The end of the longest run of characters of a class that starts at `pos`.
pub fn scan(src: &Vec<char>, pos: usize, class: CharClass) -> (e: usize)
    requires
        pos <= src.len(),
    ensures
        e == run_end(src@, pos as int, class),
        pos <= e <= src.len(),
{
    let mut e: usize = pos;
    while e < src.len() && of_class(class, src[e])
        invariant
            pos <= e <= src.len(),
            run_end(src@, pos as int, class) == run_end(src@, e as int, class),
        decreases src.len() - e,
    {
        e += 1;
    }
    e
}

/// The value of the numeral `src[start..end]`; nothing once it exceeds the
/// greatest 64-bit integer.
pub fn read_numeral(src: &Vec<char>, start: usize, end: usize) -> (r: Option<i64>)
    requires
        start <= end <= src.len(),
        forall|i: int| start <= i < end ==> is_digit(#[trigger] src@[i]),
    ensures
        match r {
            Some(v) => numeral(src@, start as int, end as int) == Some(v as int),
            None => numeral(src@, start as int, end as int) is None,
        },
{
    let mut v: i64 = 0;
    let mut i: usize = start;
    while i < end
        invariant
            start <= i <= end <= src.len(),
            forall|k: int| start <= k < end ==> is_digit(#[trigger] src@[k]),
            0 <= v,
            numeral(src@, start as int, i as int) == Some(v as int),
        decreases end - i,
    {
        let c = src[i];
        assert(is_digit(src@[i as int]));
        let d: i64 = ((c as u8) - 48) as i64;
        assert(d == digit_value(c));
        let ghost prev = numeral(src@, start as int, i as int);
        let next = match v.checked_mul(10) {
            Some(t) => t.checked_add(d),
            None => None,
        };
        match next {
            Some(w) => {
                v = w;
                i += 1;
            },
            None => {
                proof {
                    assert(numeral(src@, start as int, i + 1) is None);
                    lemma_numeral_stays_none(src@, start as int, i + 1, end as int);
                }
                return None;
            },
        }
    }
    Some(v)
}

/// A numeral whose beginning exceeds the range exceeds it as a whole.
pub proof fn lemma_numeral_stays_none(src: Seq<char>, start: int, mid: int, end: int)
    requires
        start <= mid <= end,
        numeral(src, start, mid) is None,
    ensures
        numeral(src, start, end) is None,
    decreases end - mid,
{
    if mid < end {
        lemma_numeral_stays_none(src, start, mid, end - 1);
    }
}

/// Every character of a run is of the run's class.
pub proof fn lemma_run_members(src: Seq<char>, pos: int, class: CharClass, i: int)
    requires
        0 <= pos <= i < run_end(src, pos, class),
    ensures
        i < src.len(),
        in_class(class, src[i]),
    decreases src.len() - pos,
{
    if 0 <= pos < src.len() && in_class(class, src[pos]) {
        if i > pos {
            lemma_run_members(src, pos + 1, class, i);
        }
    }
}

fn is_keyword(lowered: &Vec<char>, text: &str) -> (r: bool)
    ensures
        r == (lowered@ == text@),
{
    let chars = chars_of(text);
    let same = crate::text::range_equals(lowered, 0, lowered.len(), &chars);
    assert(lowered@.subrange(0, lowered.len() as int) =~= lowered@);
    same
}

fn keyword(src: &Vec<char>, start: usize, end: usize) -> (r: Option<Keyword>)
    requires
        start <= end <= src.len(),
    ensures
        r == keyword_of(src@.subrange(start as int, end as int)),
{
    let mut part: Vec<char> = Vec::new();
    let mut i: usize = start;
    while i < end
        invariant
            start <= i <= end <= src.len(),
            part@ =~= src@.subrange(start as int, i as int),
        decreases end - i,
    {
        part.push(src[i]);
        i += 1;
    }
    let w = to_lower_vec(&part);
    if is_keyword(&w, "select") {
        Some(Keyword::Select)
    } else if is_keyword(&w, "from") {
        Some(Keyword::From)
    } else if is_keyword(&w, "where") {
        Some(Keyword::Where)
    } else if is_keyword(&w, "join") {
        Some(Keyword::Join)
    } else if is_keyword(&w, "on") {
        Some(Keyword::On)
    } else if is_keyword(&w, "group") {
        Some(Keyword::Group)
    } else if is_keyword(&w, "by") {
        Some(Keyword::By)
    } else if is_keyword(&w, "order") {
        Some(Keyword::Order)
    } else if is_keyword(&w, "asc") {
        Some(Keyword::Asc)
    } else if is_keyword(&w, "desc") {
        Some(Keyword::Desc)
    } else if is_keyword(&w, "as") {
        Some(Keyword::As)
    } else if is_keyword(&w, "and") {
        Some(Keyword::And)
    } else if is_keyword(&w, "or") {
        Some(Keyword::Or)
    } else if is_keyword(&w, "not") {
        Some(Keyword::Not)
    } else if is_keyword(&w, "null") {
        Some(Keyword::Null)
    } else if is_keyword(&w, "true") {
        Some(Keyword::True)
    } else if is_keyword(&w, "false") {
        Some(Keyword::False)
    } else if is_keyword(&w, "count") {
        Some(Keyword::Count)
    } else if is_keyword(&w, "sum") {
        Some(Keyword::Sum)
    } else if is_keyword(&w, "avg") {
        Some(Keyword::Avg)
    } else if is_keyword(&w, "min") {
        Some(Keyword::Min)
    } else if is_keyword(&w, "max") {
        Some(Keyword::Max)
    } else {
        None
    }
}

fn symbol(src: &Vec<char>, pos: usize) -> (r: Option<(Symbol, usize)>)
    requires
        pos < src.len(),
    ensures
        match r {
            Some((s, n)) => symbol_at(src@, pos as int) == Some((s, n as int)) && 1 <= n <= 2 && pos
                + n <= src.len(),
            None => symbol_at(src@, pos as int) is None,
        },
{
    let c = src[pos];
    let has_next = pos + 1 < src.len();
    let d = if has_next {
        src[pos + 1]
    } else {
        ' '
    };
    if c == ',' {
        Some((Symbol::Comma, 1))
    } else if c == '.' {
        Some((Symbol::Dot, 1))
    } else if c == '*' {
        Some((Symbol::Star, 1))
    } else if c == '(' {
        Some((Symbol::LeftParen, 1))
    } else if c == ')' {
        Some((Symbol::RightParen, 1))
    } else if c == '+' {
        Some((Symbol::Plus, 1))
    } else if c == '-' {
        Some((Symbol::Minus, 1))
    } else if c == '/' {
        Some((Symbol::Slash, 1))
    } else if c == '%' {
        Some((Symbol::Percent, 1))
    } else if c == '=' {
        Some((Symbol::Equal, 1))
    } else if c == '<' {
        if has_next && d == '=' {
            Some((Symbol::LessEqual, 2))
        } else if has_next && d == '>' {
            Some((Symbol::NotEqual, 2))
        } else {
            Some((Symbol::Less, 1))
        }
    } else if c == '>' {
        if has_next && d == '=' {
            Some((Symbol::GreaterEqual, 2))
        } else {
            Some((Symbol::Greater, 1))
        }
    } else if c == '!' && has_next && d == '=' {
        Some((Symbol::NotEqual, 2))
    } else {
        None
    }
}

/// The token that starts at `pos`, after any white space.
pub fn next_token(src: &Vec<char>, pos: usize) -> (r: Result<Token, ParseFailure>)
    requires
        pos <= src.len(),
    ensures
        r == token_at(src@, pos as int),
        match r {
            Ok(t) => pos <= t.start <= t.end <= src.len() && (t.kind != TokenKind::End ==> t.start
                < t.end),
            Err(e) => pos <= e.position < src.len(),
        },
{
    let p = scan(src, pos, CharClass::Space);
    if p >= src.len() {
        return Ok(Token { kind: TokenKind::End, start: p, end: p });
    }
    let c = src[p];
    if digit(c) {
        let e = scan(src, p, CharClass::Digit);
        proof {
            lemma_run_end(src@, p + 1, CharClass::Digit);
            assert(e == run_end(src@, p + 1, CharClass::Digit));
            assert forall|i: int| p <= i < e implies is_digit(#[trigger] src@[i]) by {
                lemma_run_members(src@, p as int, CharClass::Digit, i);
            }
        }
        match read_numeral(src, p, e) {
            Some(v) => Ok(Token { kind: TokenKind::Integer(v), start: p, end: e }),
            None => Err(ParseFailure { fault: Fault::NumberTooLarge, position: p }),
        }
    } else if letter(c) {
        let e = scan(src, p, CharClass::Word);
        proof {
            lemma_run_end(src@, p + 1, CharClass::Word);
            assert(e == run_end(src@, p + 1, CharClass::Word));
        }
        match keyword(src, p, e) {
            Some(k) => Ok(Token { kind: TokenKind::Keyword(k), start: p, end: e }),
            None => Ok(Token { kind: TokenKind::Name, start: p, end: e }),
        }
    } else if c == '\'' {
        let e = scan(src, p + 1, CharClass::InText);
        if e >= src.len() {
            Err(ParseFailure { fault: Fault::UnterminatedText, position: p })
        } else {
            Ok(Token { kind: TokenKind::Text, start: p, end: e + 1 })
        }
    } else if c == '"' {
        let e = scan(src, p + 1, CharClass::InName);
        if e >= src.len() {
            Err(ParseFailure { fault: Fault::UnterminatedName, position: p })
        } else {
            Ok(Token { kind: TokenKind::Quoted, start: p, end: e + 1 })
        }
    } else {
        match symbol(src, p) {
            Some((s, n)) => Ok(Token { kind: TokenKind::Symbol(s), start: p, end: p + n }),
            None => Err(ParseFailure { fault: Fault::UnexpectedCharacter, position: p }),
        }
    }
}

/// Whether the tokens are those of a text of `len` characters: they stand one
/// after the other within the text, only the last of them is `End`, and the
/// others are not empty.
pub open spec fn well_formed(tokens: Seq<Token>, len: int) -> bool {
    &&& tokens.len() > 0
    &&& tokens.last().kind == TokenKind::End
    &&& forall|i: int|
        0 <= i < tokens.len() ==> (#[trigger] tokens[i]).start <= tokens[i].end <= len
    &&& forall|i: int|
        0 <= i < tokens.len() - 1 ==> (#[trigger] tokens[i]).kind != TokenKind::End && tokens[i].start
            < tokens[i].end
}

/// The result of reading tokens with `front` put before it.
pub open spec fn after(front: Seq<Token>, rest: Result<Seq<Token>, ParseFailure>) -> Result<
    Seq<Token>,
    ParseFailure,
> {
    match rest {
        Ok(s) => Ok(front + s),
        Err(e) => Err(e),
    }
}

/// The tokens of a text, the last of them `End`; or the first fault.
pub fn tokenize(src: &Vec<char>) -> (r: Result<Vec<Token>, ParseFailure>)
    ensures
        match r {
            Ok(tokens) => tokens_of(src@) == Ok::<Seq<Token>, ParseFailure>(tokens@) && well_formed(
                tokens@,
                src.len() as int,
            ),
            Err(e) => tokens_of(src@) == Err::<Seq<Token>, ParseFailure>(e) && e.position
                < src.len(),
        },
{
    let mut out: Vec<Token> = Vec::new();
    let mut pos: usize = 0;
    assert(after(out@, tokens_from(src@, 0)) == tokens_from(src@, 0)) by {
        match tokens_from(src@, 0) {
            Ok(s) => {
                assert(out@ + s =~= s);
            },
            Err(_) => {},
        }
    }
    loop
        invariant
            pos <= src.len(),
            tokens_of(src@) == after(out@, tokens_from(src@, pos as int)),
            forall|i: int| 0 <= i < out.len() ==> (#[trigger] out[i]).start <= out[i].end <= src.len(),
            forall|i: int|
                0 <= i < out.len() ==> (#[trigger] out[i]).kind != TokenKind::End && out[i].start
                    < out[i].end,
        decreases src.len() - pos,
    {
        match next_token(src, pos) {
            Err(e) => {
                return Err(e);
            },
            Ok(t) => {
                let ghost before = out@;
                out.push(t);
                if t.kind == TokenKind::End {
                    assert(before + seq![t] =~= out@);
                    return Ok(out);
                }
                proof {
                    match tokens_from(src@, t.end as int) {
                        Ok(rest) => {
                            assert(before + (seq![t] + rest) =~= out@ + rest);
                        },
                        Err(_) => {},
                    }
                }
                pos = t.end;
            },
        }
    }
}

/// The message shown for a fault.
pub open spec fn fault_message(fault: Fault) -> Seq<char> {
    match fault {
        Fault::UnexpectedCharacter => "unexpected character"@,
        Fault::UnterminatedText => "text without closing quote"@,
        Fault::UnterminatedName => "name without closing quote"@,
        Fault::NumberTooLarge => "number too large"@,
        Fault::NestedTooDeep => "expression nested too deep"@,
        Fault::ExpectedSelect => "expected SELECT"@,
        Fault::ExpectedFrom => "expected FROM"@,
        Fault::ExpectedTableName => "expected a table name"@,
        Fault::ExpectedName => "expected a name"@,
        Fault::ExpectedOn => "expected ON"@,
        Fault::ExpectedBy => "expected BY"@,
        Fault::ExpectedExpression => "expected an expression"@,
        Fault::ExpectedLeftParen => "expected ("@,
        Fault::ExpectedRightParen => "expected )"@,
        Fault::ExpectedEnd => "unexpected text after the query"@,
        Fault::MisplacedAggregate => "aggregate not allowed here"@,
    }
}

impl Fault {
    /// The message shown for the fault.
    pub fn message(&self) -> (r: String)
        ensures
            r@ == fault_message(*self),
    {
        match self {
            Fault::UnexpectedCharacter => "unexpected character".to_owned(),
            Fault::UnterminatedText => "text without closing quote".to_owned(),
            Fault::UnterminatedName => "name without closing quote".to_owned(),
            Fault::NumberTooLarge => "number too large".to_owned(),
            Fault::NestedTooDeep => "expression nested too deep".to_owned(),
            Fault::ExpectedSelect => "expected SELECT".to_owned(),
            Fault::ExpectedFrom => "expected FROM".to_owned(),
            Fault::ExpectedTableName => "expected a table name".to_owned(),
            Fault::ExpectedName => "expected a name".to_owned(),
            Fault::ExpectedOn => "expected ON".to_owned(),
            Fault::ExpectedBy => "expected BY".to_owned(),
            Fault::ExpectedExpression => "expected an expression".to_owned(),
            Fault::ExpectedLeftParen => "expected (".to_owned(),
            Fault::ExpectedRightParen => "expected )".to_owned(),
            Fault::ExpectedEnd => "unexpected text after the query".to_owned(),
            Fault::MisplacedAggregate => "aggregate not allowed here".to_owned(),
        }
    }
}

} // verus!
