//! Rendering of diagnostics: messages, source positions and highlighted
//! source lines.

use vstd::prelude::*;

use crate::syntax::builder::key_text;
use crate::syntax::error::{
    Error, ErrorDetail, ParseIntError, SpecError, SpecErrorDetail, SpecSyntaxKind, SyntaxContext,
    SyntaxErrorKind, VarError, VarErrorKind, VarKey, VarKind, ident_str,
};
use crate::syntax::lex::{Token, members, token_can_vary, token_description};
use crate::syntax::source::SourceFile;
use crate::text::{count_digits, decimal, num_digits, push_char, push_chars, push_decimal, push_repeat, push_str, repeat_char};

verus! {

/// The message of an integer parse error, as std words it.
pub open spec fn parse_int_error_str(e: ParseIntError) -> &'static str {
    match e {
        ParseIntError::Empty => "cannot parse integer from empty string",
        ParseIntError::InvalidDigit => "invalid digit found in string",
        ParseIntError::PosOverflow => "number too large to fit in target type",
        ParseIntError::NegOverflow => "number too small to fit in target type",
    }
}

/// How a syntax context is described in diagnostics.
pub open spec fn context_str(c: SyntaxContext) -> &'static str {
    match c {
        SyntaxContext::TopLevel => "a top-level item",
        SyntaxContext::Func => "a function",
        SyntaxContext::FuncDeclare => "a function declaration",
        SyntaxContext::BBlock => "a basic block",
        SyntaxContext::Inst => "an instruction",
        SyntaxContext::InstResult => "the result of an instruction",
        SyntaxContext::InstOp => "the opcode of an instruction",
        SyntaxContext::ArithInst => "an arithmetic instruction",
        SyntaxContext::ExtractValueInst => "an `extractvalue` instruction",
        SyntaxContext::InsertValueInst => "an `insertvalue` instruction",
        SyntaxContext::AllocaInst => "an `alloca` instruction",
        SyntaxContext::LoadInst => "a `load` instruction",
        SyntaxContext::StoreInst => "a `store` instruction",
        SyntaxContext::ICmpInst => "an `icmp` instruction",
        SyntaxContext::PhiInst => "a `phi` instruction",
        SyntaxContext::CallInst => "a `call` instruction",
        SyntaxContext::RetInst => "a `ret` instruction",
        SyntaxContext::BrInst => "a `br` instruction",
        SyntaxContext::Cond => "a Boolean conditional",
        SyntaxContext::Val => "a value",
        SyntaxContext::Type => "a type",
        SyntaxContext::StructType => "a struct type",
        SyntaxContext::ArrayType => "an array type",
        SyntaxContext::Lit => "a literal",
        SyntaxContext::StructLit => "a struct literal",
        SyntaxContext::ArrayLit => "an array literal",
    }
}

/// How a kind of variable is described in diagnostics.
pub open spec fn var_kind_str(k: VarKind) -> &'static str {
    match k {
        VarKind::BBlock => "basic block",
        VarKind::Value => "value",
    }
}

/// The tokens of a list, each preceded by a space and followed by a comma.
pub open spec fn comma_items(ts: Seq<Token>) -> Seq<char>
    decreases ts.len(),
{
    if ts.len() == 0 {
        Seq::empty()
    } else {
        comma_items(ts.drop_last()) + seq![' '] + token_description(ts.last())@ + seq![',']
    }
}

/// The message for a list of expected tokens: `expected A`, `expected A or
/// B`, or `expected A, B, or C`.
pub open spec fn expected_text(ts: Seq<Token>) -> Seq<char> {
    if ts.len() == 0 {
        "unexpected token"@
    } else if ts.len() == 1 {
        "expected "@ + token_description(ts[0])@
    } else if ts.len() == 2 {
        "expected "@ + token_description(ts[0])@ + " or "@ + token_description(ts[1])@
    } else {
        "expected"@ + comma_items(ts.drop_last()) + " or "@ + token_description(ts.last())@
    }
}

/// The message of a kind of syntax error.
pub open spec fn syntax_kind_text(k: SpecSyntaxKind) -> Seq<char> {
    match k {
        SpecSyntaxKind::ExpectedToken(ts) => expected_text(members(ts)),
        SpecSyntaxKind::ExpectedIdent(i) => "expected `"@ + ident_str(i)@ + "`"@,
        SpecSyntaxKind::TopLevel => "invalid start of top-level item"@,
        SpecSyntaxKind::Id(e) => "invalid integer ID: "@ + parse_int_error_str(e)@,
        SpecSyntaxKind::IntLit(e) => "invalid integer literal: "@ + parse_int_error_str(e)@,
        SpecSyntaxKind::TypeName => "unknown type name"@,
        SpecSyntaxKind::LitName => "unknown literal name"@,
        SpecSyntaxKind::UnexpectedResult => "unexpected result value on void instruction"@,
        SpecSyntaxKind::UnsupportedInst => "unsupported instruction"@,
        SpecSyntaxKind::MissingTerminator => "basic block missing terminator"@,
        SpecSyntaxKind::Cond => "invalid Boolean conditional"@,
    }
}

/// The message of a variable error.
pub open spec fn var_error_text(v: VarKey, k: VarErrorKind) -> Seq<char> {
    let var = key_text(v);
    match k {
        VarErrorKind::Undefined { kind } => "undefined "@ + var_kind_str(kind)@ + " %"@ + var,
        VarErrorKind::Redefined { .. } => "redefined %"@ + var,
        VarErrorKind::KindMismatch { kind, def_kind, .. } => "%"@ + var + " references "@
            + var_kind_str(def_kind)@ + ", but expected "@ + var_kind_str(kind)@,
        VarErrorKind::NonIncreasingNumeric { min } => "%"@ + var
            + " is less than the next available ID %"@ + decimal(min as nat),
        VarErrorKind::IdOverflow => "%"@ + var + " needs an ID past the largest one"@,
    }
}

/// What `str::escape_debug` gives for a text.
pub uninterp spec fn escape_debug_text(t: Seq<char>) -> Seq<char>;

/// The message of an error: what went wrong and, for a syntax error, the
/// token found, with its text where that can vary.
pub open spec fn detail_text(d: SpecErrorDetail, s: Seq<char>, start: int, end: int) -> Seq<char> {
    match d {
        SpecErrorDetail::Syntax(k, tok, _) => syntax_kind_text(k) + "; found "@ + token_description(
            tok,
        )@ + if token_can_vary(tok) {
            " `"@ + escape_debug_text(s.subrange(start, end)) + "`"@
        } else {
            Seq::empty()
        },
        SpecErrorDetail::Var(v, k) => var_error_text(v, k),
    }
}

/// The line of a position, counting from 1.
pub open spec fn line_of(s: Seq<char>, off: int) -> nat
    decreases off,
{
    if off <= 0 {
        1
    } else if s[off - 1] == '\n' {
        line_of(s, off - 1) + 1
    } else {
        line_of(s, off - 1)
    }
}

/// The column of a position, in chars, counting from 1.
pub open spec fn col_of(s: Seq<char>, off: int) -> nat
    decreases off,
{
    if off <= 0 {
        1
    } else if s[off - 1] == '\n' {
        1
    } else {
        col_of(s, off - 1) + 1
    }
}

/// Where a span ends, as a line and a column: one past its last char, or one
/// past its start when it is empty.
pub open spec fn end_pos(s: Seq<char>, start: int, end: int) -> (nat, nat) {
    if end > start {
        (line_of(s, end - 1), col_of(s, end - 1) + 1)
    } else {
        (line_of(s, start), col_of(s, start) + 1)
    }
}

/// Where the line begins after `k` more newlines from `i`.
pub open spec fn skip_lines(s: Seq<char>, i: int, k: nat) -> int
    decreases s.len() - i, k,
{
    if k == 0 {
        i
    } else if i < 0 || i >= s.len() {
        s.len() as int
    } else if s[i] == '\n' {
        skip_lines(s, i + 1, (k - 1) as nat)
    } else {
        skip_lines(s, i + 1, k)
    }
}

/// Where the line through `i` ends: at its newline or the end of the text.
pub open spec fn line_end(s: Seq<char>, i: int) -> int
    decreases s.len() - i,
{
    if i < 0 || i >= s.len() || s[i] == '\n' {
        i
    } else {
        line_end(s, i + 1)
    }
}

/// The text of a line, counting from 1, without its newline.
pub open spec fn line_text(s: Seq<char>, line: nat) -> Seq<char> {
    let a = skip_lines(s, 0, (line - 1) as nat);
    s.subrange(a, line_end(s, a))
}

/// `n` spaces.
pub open spec fn spaces(n: nat) -> Seq<char> {
    repeat_char(' ', n)
}

/// A source line and the line of carets under the part of it that a span
/// covers; `w` is the width of the margin.
#[verifier::opaque]
pub open spec fn highlighted_line(s: Seq<char>, line: nat, start: (nat, nat), end: (nat, nat), w: nat) -> Seq<char> {
    let text = line_text(s, line);
    let hs: int = if line == start.0 { start.1 - 1 } else { 0 };
    let he: int = if line == end.0 { end.1 - 1 } else { text.len() as int };
    let n: nat = if he - hs >= 1 { (he - hs) as nat } else { 1 };
    decimal(line) + " | "@ + text + seq!['\n'] + spaces(w) + " | "@ + spaces(hs as nat) + repeat_char('^', n)
        + seq!['\n']
}

/// The highlighted lines of a span, from its first line up to `line`.
pub open spec fn highlighted_lines(s: Seq<char>, line: int, start: (nat, nat), end: (nat, nat), w: nat) -> Seq<char>
    decreases line + 1 - start.0,
{
    if line < start.0 as int {
        Seq::empty()
    } else {
        highlighted_lines(s, line - 1, start, end, w) + highlighted_line(s, line as nat, start, end, w)
    }
}

/// Where an error is: `--> file:line:col`, and `-line:col` for its end
/// unless it covers one column; `w` is the width of the margin.
#[verifier::opaque]
pub open spec fn location_text(filename: Seq<char>, start: (nat, nat), end: (nat, nat), w: nat) -> Seq<char> {
    spaces(w) + "--> "@ + filename + seq![':'] + decimal(start.0) + seq![':'] + decimal(start.1) + (if end.1
        != start.1 + 1 {
        seq!['-'] + decimal(end.0) + seq![':'] + decimal(end.1)
    } else {
        Seq::empty()
    }) + seq!['\n']
}

/// The last line of a syntax error: the context in which it was found.
#[verifier::opaque]
pub open spec fn context_text(d: SpecErrorDetail, w: nat) -> Seq<char> {
    match d {
        SpecErrorDetail::Syntax(_, _, ctx) => spaces(w) + " = context: parsing "@ + context_str(ctx)@
            + seq!['\n'],
        SpecErrorDetail::Var(..) => Seq::empty(),
    }
}

/// The rendered form of an error in a source text with a file name.
pub open spec fn error_text(e: SpecError, s: Seq<char>, filename: Seq<char>) -> Seq<char> {
    let start = (line_of(s, e.start), col_of(s, e.start));
    let end = end_pos(s, e.start, e.end);
    let w = num_digits(end.0);
    "Error: "@ + detail_text(e.detail, s, e.start, e.end) + seq!['\n'] + location_text(filename, start, end, w)
        + spaces(w) + " |\n"@ + highlighted_lines(s, end.0 as int, start, end, w) + spaces(w) + " |\n"@
        + context_text(e.detail, w)
}

/// Escapes a text as `str::escape_debug` does.
///
/// Trusted: calls `str::escape_debug` on the text and collects its output;
/// the contract only names that output.
#[verifier::external_body]
fn escape_debug(t: &[char]) -> (r: String)
    ensures
        r@ == escape_debug_text(t@),
{
    let text: String = t.iter().collect();
    text.escape_debug().to_string()
}

impl ParseIntError {
    /// The message of the error, as std words it.
    pub fn message(self) -> (s: &'static str)
        ensures
            s@ == parse_int_error_str(self)@,
    {
        match self {
            ParseIntError::Empty => "cannot parse integer from empty string",
            ParseIntError::InvalidDigit => "invalid digit found in string",
            ParseIntError::PosOverflow => "number too large to fit in target type",
            ParseIntError::NegOverflow => "number too small to fit in target type",
        }
    }
}

impl SyntaxContext {
    /// How the context is described in diagnostics.
    pub fn as_str(self) -> (s: &'static str)
        ensures
            s@ == context_str(self)@,
    {
        match self {
            SyntaxContext::TopLevel => "a top-level item",
            SyntaxContext::Func => "a function",
            SyntaxContext::FuncDeclare => "a function declaration",
            SyntaxContext::BBlock => "a basic block",
            SyntaxContext::Inst => "an instruction",
            SyntaxContext::InstResult => "the result of an instruction",
            SyntaxContext::InstOp => "the opcode of an instruction",
            SyntaxContext::ArithInst => "an arithmetic instruction",
            SyntaxContext::ExtractValueInst => "an `extractvalue` instruction",
            SyntaxContext::InsertValueInst => "an `insertvalue` instruction",
            SyntaxContext::AllocaInst => "an `alloca` instruction",
            SyntaxContext::LoadInst => "a `load` instruction",
            SyntaxContext::StoreInst => "a `store` instruction",
            SyntaxContext::ICmpInst => "an `icmp` instruction",
            SyntaxContext::PhiInst => "a `phi` instruction",
            SyntaxContext::CallInst => "a `call` instruction",
            SyntaxContext::RetInst => "a `ret` instruction",
            SyntaxContext::BrInst => "a `br` instruction",
            SyntaxContext::Cond => "a Boolean conditional",
            SyntaxContext::Val => "a value",
            SyntaxContext::Type => "a type",
            SyntaxContext::StructType => "a struct type",
            SyntaxContext::ArrayType => "an array type",
            SyntaxContext::Lit => "a literal",
            SyntaxContext::StructLit => "a struct literal",
            SyntaxContext::ArrayLit => "an array literal",
        }
    }
}

impl VarKind {
    /// How the kind is described in diagnostics.
    pub fn as_str(self) -> (s: &'static str)
        ensures
            s@ == var_kind_str(self)@,
    {
        match self {
            VarKind::BBlock => "basic block",
            VarKind::Value => "value",
        }
    }
}

/// Appends the message for a list of expected tokens.
fn push_expected(out: &mut String, ts: &Vec<Token>)
    ensures
        final(out)@ == old(out)@ + expected_text(ts@),
{
    let n = ts.len();
    if n == 0 {
        push_str(out, "unexpected token");
    } else if n == 1 {
        push_str(out, "expected ");
        push_str(out, ts[0].describe());
    } else if n == 2 {
        push_str(out, "expected ");
        push_str(out, ts[0].describe());
        push_str(out, " or ");
        push_str(out, ts[1].describe());
    } else {
        let ghost o = out@;
        push_str(out, "expected");
        let mut i: usize = 0;
        while i < n - 1
            invariant
                n == ts@.len(),
                n >= 3,
                i <= n - 1,
                out@ == o + "expected"@ + comma_items(ts@.take(i as int)),
            decreases n - 1 - i,
        {
            push_char(out, ' ');
            push_str(out, ts[i].describe());
            push_char(out, ',');
            proof {
                let t = ts@.take(i + 1);
                assert(t.drop_last() == ts@.take(i as int));
            }
            i = i + 1;
        }
        push_str(out, " or ");
        push_str(out, ts[n - 1].describe());
        proof {
            assert(ts@.take((n - 1) as int) == ts@.drop_last());
        }
    }
}

impl SyntaxErrorKind {
    /// Appends the message of the error.
    pub fn push_text(&self, out: &mut String)
        ensures
            final(out)@ == old(out)@ + syntax_kind_text(self@),
    {
        match self {
            SyntaxErrorKind::ExpectedToken(ts) => {
                let v = ts.tokens();
                push_expected(out, &v);
            },
            SyntaxErrorKind::ExpectedIdent(i) => {
                push_str(out, "expected `");
                push_str(out, i.as_str());
                push_str(out, "`");
            },
            SyntaxErrorKind::TopLevel => push_str(out, "invalid start of top-level item"),
            SyntaxErrorKind::Id(e) => {
                push_str(out, "invalid integer ID: ");
                push_str(out, e.message());
            },
            SyntaxErrorKind::IntLit(e) => {
                push_str(out, "invalid integer literal: ");
                push_str(out, e.message());
            },
            SyntaxErrorKind::TypeName => push_str(out, "unknown type name"),
            SyntaxErrorKind::LitName => push_str(out, "unknown literal name"),
            SyntaxErrorKind::UnexpectedResult => push_str(out, "unexpected result value on void instruction"),
            SyntaxErrorKind::UnsupportedInst => push_str(out, "unsupported instruction"),
            SyntaxErrorKind::MissingTerminator => push_str(out, "basic block missing terminator"),
            SyntaxErrorKind::Cond => push_str(out, "invalid Boolean conditional"),
        }
    }

    /// The message of the error.
    pub fn to_string(&self) -> (s: String)
        ensures
            s@ == syntax_kind_text(self@),
    {
        let mut s = String::new();
        self.push_text(&mut s);
        s
    }
}

impl VarError {
    /// Appends the message of the error.
    pub fn push_text(&self, out: &mut String)
        ensures
            final(out)@ == old(out)@ + var_error_text(self.var@, self.kind),
    {
        let ghost o = out@;
        let name = crate::syntax::builder::resolved_text(&self.var);
        match self.kind {
            VarErrorKind::Undefined { kind } => {
                push_str(out, "undefined ");
                push_str(out, kind.as_str());
                push_str(out, " %");
                push_str(out, name.as_str());
            },
            VarErrorKind::Redefined { .. } => {
                push_str(out, "redefined %");
                push_str(out, name.as_str());
            },
            VarErrorKind::KindMismatch { kind, def_kind, .. } => {
                push_str(out, "%");
                push_str(out, name.as_str());
                push_str(out, " references ");
                push_str(out, def_kind.as_str());
                push_str(out, ", but expected ");
                push_str(out, kind.as_str());
            },
            VarErrorKind::NonIncreasingNumeric { min } => {
                push_str(out, "%");
                push_str(out, name.as_str());
                push_str(out, " is less than the next available ID %");
                push_decimal(out, min as u64);
            },
            VarErrorKind::IdOverflow => {
                push_str(out, "%");
                push_str(out, name.as_str());
                push_str(out, " needs an ID past the largest one");
            },
        }
    }

    /// The message of the error.
    pub fn to_string(&self) -> (s: String)
        ensures
            s@ == var_error_text(self.var@, self.kind),
    {
        let mut s = String::new();
        self.push_text(&mut s);
        s
    }
}

/// The line and column of a position.
fn position(cs: &[char], off: usize) -> (lc: (usize, usize))
    requires
        off <= cs@.len() < usize::MAX,
    ensures
        lc.0 == line_of(cs@, off as int),
        lc.1 == col_of(cs@, off as int),
        1 <= lc.0 <= off + 1,
        1 <= lc.1 <= off + 1,
{
    let mut line: usize = 1;
    let mut col: usize = 1;
    let mut i: usize = 0;
    while i < off
        invariant
            i <= off <= cs@.len() < usize::MAX,
            line == line_of(cs@, i as int),
            col == col_of(cs@, i as int),
            1 <= line <= i + 1,
            1 <= col <= i + 1,
        decreases off - i,
    {
        if cs[i] == '\n' {
            line = line + 1;
            col = 1;
        } else {
            col = col + 1;
        }
        i = i + 1;
    }
    (line, col)
}

/// Appends the text of a line, counting from 1, and returns its length.
fn push_line_text(out: &mut String, cs: &[char], line: usize) -> (n: usize)
    requires
        line >= 1,
    ensures
        final(out)@ == old(out)@ + line_text(cs@, line as nat),
        n == line_text(cs@, line as nat).len(),
{
    let ghost s = cs@;
    let len = cs.len();
    let mut i: usize = 0;
    let mut k: usize = line - 1;
    while k > 0 && i < len
        invariant
            i <= len == s.len(),
            s == cs@,
            skip_lines(s, 0, (line - 1) as nat) == skip_lines(s, i as int, k as nat),
        decreases len - i,
    {
        if cs[i] == '\n' {
            k = k - 1;
        }
        i = i + 1;
    }
    let a = i;
    let mut j = a;
    while j < len && cs[j] != '\n'
        invariant
            a <= j <= len == s.len(),
            s == cs@,
            line_end(s, a as int) == line_end(s, j as int),
        decreases len - j,
    {
        j = j + 1;
    }
    push_chars(out, &cs[a..j]);
    j - a
}

/// Appends a source line and the line of carets under the part of it that
/// a span covers.
fn push_highlighted_line(out: &mut String, cs: &[char], line: usize, sl: usize, sc: usize, el: usize, ec: usize, w: usize)
    requires
        1 <= line,
        1 <= sc,
        1 <= ec,
    ensures
        final(out)@ == old(out)@ + highlighted_line(cs@, line as nat, (sl as nat, sc as nat), (el as nat, ec as nat), w as nat),
{
    reveal(highlighted_line);
    push_decimal(out, line as u64);
    push_str(out, " | ");
    let n = push_line_text(out, cs, line);
    push_char(out, '\n');
    push_repeat(out, ' ', w);
    push_str(out, " | ");
    let hs: usize = if line == sl { sc - 1 } else { 0 };
    let he: usize = if line == el { ec - 1 } else { n };
    let k: usize = if he > hs { he - hs } else { 1 };
    push_repeat(out, ' ', hs);
    push_repeat(out, '^', k);
    push_char(out, '\n');
}

/// Appends the highlighted lines of a span that starts at line `sl`, column
/// `sc` and ends at line `el`, column `ec`.
fn push_highlighted_lines(out: &mut String, cs: &[char], sl: usize, sc: usize, el: usize, ec: usize, w: usize)
    requires
        1 <= sl,
        1 <= sc,
        1 <= ec,
        el < usize::MAX,
    ensures
        final(out)@ == old(out)@ + highlighted_lines(cs@, el as int, (sl as nat, sc as nat), (el as nat, ec as nat), w as nat),
{
    let ghost s = cs@;
    let ghost start = (sl as nat, sc as nat);
    let ghost end = (el as nat, ec as nat);
    let ghost base = out@;
    let mut line = sl;
    while line <= el
        invariant
            1 <= sl <= line,
            line <= el + 1 || line == sl,
            el < usize::MAX,
            s == cs@,
            sc >= 1,
            ec >= 1,
            start == (sl as nat, sc as nat),
            end == (el as nat, ec as nat),
            out@ == base + highlighted_lines(s, line - 1, start, end, w as nat),
        decreases el + 1 - line,
    {
        let ghost o = out@;
        push_highlighted_line(out, cs, line, sl, sc, el, ec, w);
        proof {
            assert(highlighted_lines(s, line as int, start, end, w as nat) == highlighted_lines(s, line - 1, start, end, w as nat) + highlighted_line(s, line as nat, start, end, w as nat));
            assert(out@ == base + highlighted_lines(s, line as int, start, end, w as nat));
        }
        line = line + 1;
    }
    proof {
        if el < sl {
            assert(highlighted_lines(s, line - 1, start, end, w as nat) == highlighted_lines(s, el as int, start, end, w as nat));
        }
    }
}

/// Appends where an error is.
fn push_location(out: &mut String, filename: &str, sl: usize, sc: usize, el: usize, ec: usize, w: usize)
    requires
        sc < usize::MAX,
    ensures
        final(out)@ == old(out)@ + location_text(filename@, (sl as nat, sc as nat), (el as nat, ec as nat), w as nat),
{
    reveal(location_text);
    push_repeat(out, ' ', w);
    push_str(out, "--> ");
    push_str(out, filename);
    push_char(out, ':');
    push_decimal(out, sl as u64);
    push_char(out, ':');
    push_decimal(out, sc as u64);
    if ec != sc + 1 {
        push_char(out, '-');
        push_decimal(out, el as u64);
        push_char(out, ':');
        push_decimal(out, ec as u64);
    }
    push_char(out, '\n');
}

impl<'s> Error<'s> {
    /// Appends the context line of a syntax error.
    fn push_context(&self, out: &mut String, w: usize)
        ensures
            final(out)@ == old(out)@ + context_text(self.spec().detail, w as nat),
    {
        reveal(context_text);
        match &self.detail {
            ErrorDetail::Syntax(e) => {
                push_repeat(out, ' ', w);
                push_str(out, " = context: parsing ");
                push_str(out, e.ctx.as_str());
                push_char(out, '\n');
            },
            ErrorDetail::Var(_) => {
                proof {
                    assert(old(out)@ + Seq::<char>::empty() == old(out)@);
                }
            },
        }
    }
}

impl<'s> Error<'s> {
    /// Appends the message of the error.
    fn push_detail(&self, out: &mut String)
        requires
            self.span.start.char_offset <= self.span.end.char_offset <= self.src.spec_chars().len(),
        ensures
            final(out)@ == old(out)@ + detail_text(self.spec().detail, self.src.spec_chars(), self.spec().start, self.spec().end),
    {
        let cs = self.src.chars();
        match &self.detail {
            ErrorDetail::Syntax(e) => {
                e.kind.push_text(out);
                push_str(out, "; found ");
                push_str(out, e.tok.describe());
                if e.tok.can_vary() {
                    push_str(out, " `");
                    let t = escape_debug(&cs[self.span.start.char_offset..self.span.end.char_offset]);
                    push_str(out, t.as_str());
                    push_str(out, "`");
                }
            },
            ErrorDetail::Var(e) => e.push_text(out),
        }
    }

    /// Renders the error: its message, where it is, the source lines it
    /// covers with carets under it, and for a syntax error the context.
    pub fn to_string(&self) -> (r: String)
        requires
            self.span.start.char_offset <= self.span.end.char_offset <= self.src.spec_chars().len(),
            self.src.spec_chars().len() + 2 <= usize::MAX,
        ensures
            r@ == error_text(self.spec(), self.src.spec_chars(), self.src.spec_filename()),
    {
        let cs = self.src.chars();
        let ghost s = cs@;
        let st = self.span.start.char_offset;
        let en = self.span.end.char_offset;
        let mut out = String::new();
        push_str(&mut out, "Error: ");
        self.push_detail(&mut out);
        push_char(&mut out, '\n');
        let (sl, sc) = position(cs, st);
        let (el, ec) = if en > st {
            let (l, c) = position(cs, en - 1);
            (l, c + 1)
        } else {
            (sl, sc + 1)
        };
        proof {
            assert((el as nat, ec as nat) == end_pos(s, st as int, en as int));
        }
        let w = count_digits(el as u64) as usize;
        push_location(&mut out, self.src.filename(), sl, sc, el, ec, w);
        push_repeat(&mut out, ' ', w);
        push_str(&mut out, " |\n");
        push_highlighted_lines(&mut out, cs, sl, sc, el, ec, w);
        push_repeat(&mut out, ' ', w);
        push_str(&mut out, " |\n");
        self.push_context(&mut out, w);
        out
    }
}

/// The rendered form of a span's place in a source text: `line:col` when it
/// covers one byte on one line and one column, else `line:col-line:col`,
/// both at the span's char offsets.
pub open spec fn span_text(s: Seq<char>, sp: crate::syntax::source::Span) -> Seq<char> {
    let start = sp.start.char_offset as int;
    let end = sp.end.char_offset as int;
    let sl = line_of(s, start);
    let sc = col_of(s, start);
    let el = line_of(s, end);
    let ec = col_of(s, end);
    decimal(sl) + seq![':'] + decimal(sc) + if sp.end.offset == sp.start.offset + 1 && sl == el && ec == sc + 1 {
        Seq::empty()
    } else {
        seq!['-'] + decimal(el) + seq![':'] + decimal(ec)
    }
}

impl crate::syntax::source::Span {
    /// Renders where the span is in its source text.
    pub fn to_string(&self, src: &SourceFile) -> (r: String)
        requires
            self.start.char_offset <= src.spec_chars().len(),
            self.end.char_offset <= src.spec_chars().len() < usize::MAX,
        ensures
            r@ == span_text(src.spec_chars(), *self),
    {
        let cs = src.chars();
        let (sl, sc) = position(cs, self.start.char_offset);
        let (el, ec) = position(cs, self.end.char_offset);
        let mut r = String::new();
        push_decimal(&mut r, sl as u64);
        push_char(&mut r, ':');
        push_decimal(&mut r, sc as u64);
        let one_byte = self.end.offset > self.start.offset && self.end.offset - self.start.offset == 1;
        if !(one_byte && sl == el && ec > sc && ec - sc == 1) {
            push_char(&mut r, '-');
            push_decimal(&mut r, el as u64);
            push_char(&mut r, ':');
            push_decimal(&mut r, ec as u64);
        }
        r
    }
}

} // verus!
