//! The value tuples of the `INSERT` statements of a dump line.
use vstd::prelude::*;
use sql_parse::{
    parse_statement, Expression, InsertReplace, InsertReplaceType, Issues, Level, ParseOptions,
    SQLArguments, SQLDialect, Statement, UnaryOperator,
};

verus! {

/// One cell of a value tuple, as far as the row mappers read it.
#[derive(Debug, Clone, PartialEq, Eq)]
pub enum Literal {
    Integer(u64),
    Str(String),
    Null,
    /// A minus sign before an integer literal; the field holds the magnitude.
    NegInteger(u64),
    /// Any other expression.
    Other,
}

/// What the characters just before the current position look like, outside
/// strings and comments: the run of identifier characters (ASCII letters,
/// digits, `_`) that ends there, and what precedes that run.
#[derive(Debug, Clone, Copy, PartialEq, Eq, Structural)]
pub enum Run {
    /// The previous character is not an identifier character.
    Gap,
    /// The previous character is `%` or `@`.
    AfterMark,
    /// A run of digits only, after a gap.
    Digits,
    /// A run holding a letter or `_`, after a gap.
    Word,
    /// A run right after `%` or `@`.
    Marked,
}

/// The state of a scan of a line that follows how the SQL lexer splits it
/// into tokens: in code, inside a string, a comment or a backquoted name.
#[derive(Debug, Clone, Copy, PartialEq, Eq, Structural)]
pub enum LexState {
    Code(Run),
    /// Just read `x` or `X` in code: whether a quote next would begin a
    /// hex literal, and the run that the `x` extends.
    Ex(bool, Run),
    Dollar,
    Minus,
    Slash,
    Single,
    SingleEscape,
    SingleEnd,
    Double,
    DoubleEscape,
    DoubleEnd,
    LineComment,
    BlockComment,
    BlockStar,
    Backtick,
    /// A token the lexer cannot handle was found.
    Unsupported,
}

pub open spec fn is_ident_char(c: char) -> bool {
    ('a' <= c <= 'z') || ('A' <= c <= 'Z') || ('0' <= c <= '9') || c == '_'
}

pub open spec fn is_digit(c: char) -> bool {
    '0' <= c <= '9'
}

/// The run after the identifier character `c`.
pub open spec fn run_after(r: Run, c: char) -> Run {
    match r {
        Run::Gap => if is_digit(c) { Run::Digits } else { Run::Word },
        Run::AfterMark => Run::Marked,
        Run::Digits => if is_digit(c) { Run::Digits } else { Run::Word },
        Run::Word => Run::Word,
        Run::Marked => Run::Marked,
    }
}

/// Whether an `x` read after run `r` can begin a token: it does unless it
/// continues a name.
pub open spec fn x_starts_token(r: Run) -> bool {
    r != Run::Word
}

/// The state after reading `c` in code, after run `r`.
pub open spec fn code_step(r: Run, c: char) -> LexState {
    if c == 'x' || c == 'X' {
        LexState::Ex(x_starts_token(r), run_after(r, c))
    } else if is_ident_char(c) {
        LexState::Code(run_after(r, c))
    } else if c == '\'' {
        LexState::Single
    } else if c == '"' {
        LexState::Double
    } else if c == '`' {
        LexState::Backtick
    } else if c == '-' {
        LexState::Minus
    } else if c == '/' {
        LexState::Slash
    } else if c == '$' {
        LexState::Dollar
    } else if c == '%' || c == '@' {
        LexState::Code(Run::AfterMark)
    } else {
        LexState::Code(Run::Gap)
    }
}

/// The state after reading `c` in state `st`.
pub open spec fn lex_step(st: LexState, c: char) -> LexState {
    match st {
        LexState::Unsupported => LexState::Unsupported,
        LexState::Code(r) => code_step(r, c),
        LexState::Ex(starts, r) => if c == '\'' {
            if starts { LexState::Unsupported } else { LexState::Single }
        } else {
            code_step(r, c)
        },
        LexState::Dollar => if '1' <= c <= '9' { LexState::Unsupported } else { code_step(Run::Gap, c) },
        LexState::Minus => if c == '-' { LexState::LineComment } else { code_step(Run::Gap, c) },
        LexState::Slash => if c == '*' {
            LexState::BlockComment
        } else if c == '/' {
            LexState::LineComment
        } else {
            code_step(Run::Gap, c)
        },
        LexState::Single => if c == '\\' {
            LexState::SingleEscape
        } else if c == '\'' {
            LexState::SingleEnd
        } else {
            LexState::Single
        },
        LexState::SingleEscape => LexState::Single,
        LexState::SingleEnd => if c == '\'' { LexState::Single } else { code_step(Run::Gap, c) },
        LexState::Double => if c == '\\' {
            LexState::DoubleEscape
        } else if c == '"' {
            LexState::DoubleEnd
        } else {
            LexState::Double
        },
        LexState::DoubleEscape => LexState::Double,
        LexState::DoubleEnd => if c == '"' { LexState::Double } else { code_step(Run::Gap, c) },
        LexState::LineComment => if c == '\n' || c == '\r' {
            LexState::Code(Run::Gap)
        } else {
            LexState::LineComment
        },
        LexState::BlockComment => if c == '*' { LexState::BlockStar } else { LexState::BlockComment },
        LexState::BlockStar => if c == '/' {
            LexState::Code(Run::Gap)
        } else if c == '*' {
            LexState::BlockStar
        } else {
            LexState::BlockComment
        },
        LexState::Backtick => if is_ident_char(c) || c == '-' {
            LexState::Backtick
        } else if c == '`' {
            LexState::Code(Run::Gap)
        } else {
            code_step(Run::Gap, c)
        },
    }
}

/// The state after scanning `s` from the start of a line.
pub open spec fn lex_state(s: Seq<char>) -> LexState
    decreases s.len(),
{
    if s.len() == 0 {
        LexState::Code(Run::Gap)
    } else {
        lex_step(lex_state(s.drop_last()), s.last())
    }
}

/// Whether the line holds a token that the SQL lexer cannot handle: a hex
/// literal (`x'..'`) or a numbered argument (`$1`).
pub open spec fn has_unsupported_token(s: Seq<char>) -> bool {
    lex_state(s) == LexState::Unsupported
}

fn code_step_exec(r: Run, c: char) -> (st: LexState)
    ensures
        st == code_step(r, c),
{
    let is_ident = ('a' <= c && c <= 'z') || ('A' <= c && c <= 'Z') || ('0' <= c && c <= '9')
        || c == '_';
    let is_digit = '0' <= c && c <= '9';
    let next_run = match r {
        Run::Gap | Run::Digits => if is_digit { Run::Digits } else { Run::Word },
        Run::AfterMark | Run::Marked => Run::Marked,
        Run::Word => Run::Word,
    };
    if c == 'x' || c == 'X' {
        LexState::Ex(r != Run::Word, next_run)
    } else if is_ident {
        LexState::Code(next_run)
    } else if c == '\'' {
        LexState::Single
    } else if c == '"' {
        LexState::Double
    } else if c == '`' {
        LexState::Backtick
    } else if c == '-' {
        LexState::Minus
    } else if c == '/' {
        LexState::Slash
    } else if c == '$' {
        LexState::Dollar
    } else if c == '%' || c == '@' {
        LexState::Code(Run::AfterMark)
    } else {
        LexState::Code(Run::Gap)
    }
}

fn lex_step_exec(st: LexState, c: char) -> (r: LexState)
    ensures
        r == lex_step(st, c),
{
    match st {
        LexState::Unsupported => LexState::Unsupported,
        LexState::Code(r) => code_step_exec(r, c),
        LexState::Ex(starts, r) => if c == '\'' {
            if starts { LexState::Unsupported } else { LexState::Single }
        } else {
            code_step_exec(r, c)
        },
        LexState::Dollar => if '1' <= c && c <= '9' {
            LexState::Unsupported
        } else {
            code_step_exec(Run::Gap, c)
        },
        LexState::Minus => if c == '-' { LexState::LineComment } else { code_step_exec(Run::Gap, c) },
        LexState::Slash => if c == '*' {
            LexState::BlockComment
        } else if c == '/' {
            LexState::LineComment
        } else {
            code_step_exec(Run::Gap, c)
        },
        LexState::Single => if c == '\\' {
            LexState::SingleEscape
        } else if c == '\'' {
            LexState::SingleEnd
        } else {
            LexState::Single
        },
        LexState::SingleEscape => LexState::Single,
        LexState::SingleEnd => if c == '\'' { LexState::Single } else { code_step_exec(Run::Gap, c) },
        LexState::Double => if c == '\\' {
            LexState::DoubleEscape
        } else if c == '"' {
            LexState::DoubleEnd
        } else {
            LexState::Double
        },
        LexState::DoubleEscape => LexState::Double,
        LexState::DoubleEnd => if c == '"' { LexState::Double } else { code_step_exec(Run::Gap, c) },
        LexState::LineComment => if c == '\n' || c == '\r' {
            LexState::Code(Run::Gap)
        } else {
            LexState::LineComment
        },
        LexState::BlockComment => if c == '*' { LexState::BlockStar } else { LexState::BlockComment },
        LexState::BlockStar => if c == '/' {
            LexState::Code(Run::Gap)
        } else if c == '*' {
            LexState::BlockStar
        } else {
            LexState::BlockComment
        },
        LexState::Backtick => {
            let is_ident = ('a' <= c && c <= 'z') || ('A' <= c && c <= 'Z') || ('0' <= c && c
                <= '9') || c == '_';
            if is_ident || c == '-' {
                LexState::Backtick
            } else if c == '`' {
                LexState::Code(Run::Gap)
            } else {
                code_step_exec(Run::Gap, c)
            }
        },
    }
}

/// Whether the line holds a token that the SQL lexer cannot handle.
pub fn unsupported_token(line: &str) -> (r: bool)
    ensures
        r == has_unsupported_token(line@),
{
    let mut st = LexState::Code(Run::Gap);
    let ghost mut read: Seq<char> = Seq::empty();
    for c in it: line.chars()
        invariant
            read == it.seq().take(it.index() as int),
            st == lex_state(read),
    {
        proof {
            assert(read.push(c).drop_last() =~= read);
            read = read.push(c);
            assert(read =~= it.seq().take(it.index() + 1));
        }
        st = lex_step_exec(st, c);
    }
    assert(read =~= line@);
    st == LexState::Unsupported
}

#[verifier::external_type_specification]
#[verifier::external_body]
pub struct ExExpression<'a>(Expression<'a>);

/// Whether sql_parse reads `line`, with no error among its issues, as an
/// `INSERT` statement.
pub uninterp spec fn is_insert_statement(line: Seq<char>) -> bool;

/// The value tuples that sql_parse reads from an `INSERT` line, each cell
/// carried over as a `Literal` (none for an `INSERT` without `VALUES`).
pub uninterp spec fn insert_tuples(line: Seq<char>) -> Seq<Seq<Literal>>;

/// The views of a list of tuples.
pub open spec fn tuples_view(t: Seq<Vec<Literal>>) -> Seq<Seq<Literal>> {
    t.map_values(|v: Vec<Literal>| v@)
}

/// Relies on `sql_parse::parse_statement` (MariaDB dialect, `?` arguments,
/// warnings on unquoted identifiers), which panics on a hex literal or a
/// long numbered argument, hence the `requires`. It yields an `INSERT`
/// statement with no error issue exactly when `is_insert_statement` holds,
/// and its value tuples are then carried over by `literal_of`.
#[verifier::external_body]
fn parse_insert_values(line: &str) -> (r: Option<Vec<Vec<Literal>>>)
    requires
        !has_unsupported_token(line@),
    ensures
        r is Some <==> is_insert_statement(line@),
        r matches Some(t) ==> tuples_view(t@) == insert_tuples(line@),
{
    let options = ParseOptions::new().dialect(SQLDialect::MariaDB)
        .arguments(SQLArguments::QuestionMark).warn_unquoted_identifiers(true);
    let mut issues = Issues::new(line);
    let statement = parse_statement(line, &mut issues, &options);
    if issues.issues.iter().any(|i| i.level == Level::Error) {
        return None;
    }
    match statement {
        Some(Statement::InsertReplace(InsertReplace {
            type_: InsertReplaceType::Insert(_), values, ..
        })) => Some(values.map_or(Vec::new(), |v| v.1.iter().map(|t| t.iter().map(literal_of).collect()).collect())),
        _ => None,
    }
}

/// Relies on the variants of `sql_parse::Expression`: an integer, a string
/// (its value as the parser gives it), `NULL`, and a minus sign before an
/// integer are carried over; any other expression is `Other`.
#[verifier::external_body]
fn literal_of(e: &Expression) -> (r: Literal) {
    match e {
        Expression::Integer((v, _)) => Literal::Integer(*v),
        Expression::String(s) => Literal::Str(s.value.to_string()),
        Expression::Null(_) => Literal::Null,
        Expression::Unary { op: UnaryOperator::Minus, operand, .. } => match operand.as_ref() {
            Expression::Integer((v, _)) => Literal::NegInteger(*v),
            _ => Literal::Other,
        },
        _ => Literal::Other,
    }
}

pub open spec fn is_blank(c: char) -> bool {
    c == ' ' || c == '\t' || c == '\r' || c == '\n'
}

/// `s` without its trailing blanks.
pub open spec fn trim_end(s: Seq<char>) -> Seq<char>
    decreases s.len(),
{
    if s.len() > 0 && is_blank(s.last()) {
        trim_end(s.drop_last())
    } else {
        s
    }
}

/// The statement that a dump line holds: the line without trailing blanks
/// and without one final `;`.
pub open spec fn statement_text(line: Seq<char>) -> Seq<char> {
    let t = trim_end(line);
    if t.len() > 0 && t.last() == ';' {
        t.drop_last()
    } else {
        t
    }
}

/// The statement that a dump line holds, as `statement_text` says.
pub fn statement_of(line: &str) -> (r: &str)
    ensures
        r@ == statement_text(line@),
{
    let n = line.unicode_len();
    let mut k = n;
    assert(line@.take(n as int) =~= line@);
    loop
        invariant
            k <= n == line@.len(),
            trim_end(line@.take(k as int)) == trim_end(line@),
        ensures
            k <= n == line@.len(),
            trim_end(line@.take(k as int)) == trim_end(line@),
            k == 0 || !is_blank(line@[k - 1]),
        decreases k,
    {
        if k == 0 {
            break;
        }
        let c = line.get_char(k - 1);
        if !(c == ' ' || c == '\t' || c == '\r' || c == '\n') {
            break;
        }
        assert(line@.take(k as int).drop_last() =~= line@.take(k - 1));
        k = k - 1;
    }
    assert(trim_end(line@.take(k as int)) == line@.take(k as int)) by {
        if k > 0 {
            assert(line@.take(k as int).last() == line@[k - 1]);
        }
    }
    if k > 0 && line.get_char(k - 1) == ';' {
        assert(line@.take(k as int).drop_last() =~= line@.take(k - 1));
        k = k - 1;
    }
    line.substring_char(0, k)
}

/// Whether a dump line is read as an `INSERT` statement: its statement holds
/// no token that the lexer cannot handle, and parses as an `INSERT` with no
/// error.
pub open spec fn is_readable_insert(line: Seq<char>) -> bool {
    !has_unsupported_token(statement_text(line)) && is_insert_statement(statement_text(line))
}

/// The value tuples of a dump line read as an `INSERT` statement.
pub open spec fn line_tuples(line: Seq<char>) -> Seq<Seq<Literal>> {
    insert_tuples(statement_text(line))
}

/// The value tuples of `line` when it is read as an `INSERT` statement, one
/// `Literal` per cell, in order; `None` for any other statement, for a line
/// that does not parse, and for one with a token the lexer cannot handle.
pub fn extract_rows(line: &str) -> (r: Option<Vec<Vec<Literal>>>)
    ensures
        r is Some <==> is_readable_insert(line@),
        r matches Some(t) ==> tuples_view(t@) == line_tuples(line@),
{
    let statement = statement_of(line);
    if unsupported_token(statement) {
        return None;
    }
    parse_insert_values(statement)
}

} // verus!
