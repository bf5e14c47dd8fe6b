use vstd::prelude::*;

use crate::text::{chars_of, string_of};
use crate::token::{Directive, ShaderToken, TokenView};

verus! {

/// Why a composition failed. The first error ends it.
#[derive(Debug)]
pub enum PreprocessorErrorType {
    /// A directive's argument was of the wrong kind, or missing at the end of
    /// the fragment: line, fragment, the kind wanted, the token found (the
    /// directive itself where nothing follows it).
    InvalidToken(usize, String, ShaderToken, ShaderToken),
    /// An `endif` with no open `ifdef` or `ifndef`: line, fragment.
    IfTokenNotFound(usize, String),
    /// A fragment named by an inclusion is not in the registry: line, the
    /// including fragment, the missing one.
    IncludeShaderNotFound(usize, String, String),
    /// A fragment asked for by name is not in the registry.
    ShaderNotFound(String),
    /// Inclusions are nested deeper than the session allows: line, the
    /// including fragment, the fragment it names.
    IncludeDepthExceeded(usize, String, String),
}

/// What an error is, as a mathematical value.
pub enum ErrorView {
    InvalidToken(int, Seq<char>, TokenView, TokenView),
    IfTokenNotFound(int, Seq<char>),
    IncludeShaderNotFound(int, Seq<char>, Seq<char>),
    ShaderNotFound(Seq<char>),
    IncludeDepthExceeded(int, Seq<char>, Seq<char>),
}

impl View for PreprocessorErrorType {
    type V = ErrorView;

    open spec fn view(&self) -> ErrorView {
        match self {
            PreprocessorErrorType::InvalidToken(l, f, e, a) => ErrorView::InvalidToken(
                *l as int,
                f@,
                e@,
                a@,
            ),
            PreprocessorErrorType::IfTokenNotFound(l, f) => ErrorView::IfTokenNotFound(
                *l as int,
                f@,
            ),
            PreprocessorErrorType::IncludeShaderNotFound(l, f, t) =>
                ErrorView::IncludeShaderNotFound(*l as int, f@, t@),
            PreprocessorErrorType::ShaderNotFound(n) => ErrorView::ShaderNotFound(n@),
            PreprocessorErrorType::IncludeDepthExceeded(l, f, t) =>
                ErrorView::IncludeDepthExceeded(*l as int, f@, t@),
        }
    }
}

/// The digit for `d`, which is below ten.
pub open spec fn digit(d: int) -> char {
    if d == 0 {
        '0'
    } else if d == 1 {
        '1'
    } else if d == 2 {
        '2'
    } else if d == 3 {
        '3'
    } else if d == 4 {
        '4'
    } else if d == 5 {
        '5'
    } else if d == 6 {
        '6'
    } else if d == 7 {
        '7'
    } else if d == 8 {
        '8'
    } else {
        '9'
    }
}

/// `n` in decimal, without leading zeros.
pub open spec fn decimal(n: nat) -> Seq<char>
    decreases n,
{
    if n < 10 {
        seq![digit(n as int)]
    } else {
        decimal(n / 10).push(digit((n % 10) as int))
    }
}

/// `s` between double quotes, escaped as Rust's `Debug` escapes a string's
/// ASCII characters: `"` and `\` behind a backslash; NUL, tab, carriage
/// return and line feed as `\0`, `\t`, `\r`, `\n`; the other control
/// characters as `\u{..}` in lower-case hex. Other characters stand as they are.
pub open spec fn quoted(s: Seq<char>) -> Seq<char> {
    seq!['"'] + escaped(s) + seq!['"']
}

/// The escaped characters of `s`, as `quoted` writes them.
pub open spec fn escaped(s: Seq<char>) -> Seq<char>
    decreases s.len(),
{
    if s.len() == 0 {
        Seq::<char>::empty()
    } else {
        escaped(s.drop_last()) + escape_char(s.last())
    }
}

/// How `quoted` writes one character.
pub open spec fn escape_char(c: char) -> Seq<char> {
    if c == '"' {
        seq!['\\', '"']
    } else if c == '\\' {
        seq!['\\', '\\']
    } else if c == '\t' {
        seq!['\\', 't']
    } else if c == '\r' {
        seq!['\\', 'r']
    } else if c == '\n' {
        seq!['\\', 'n']
    } else if c == '\0' {
        seq!['\\', '0']
    } else if (c as u32) < 0x20 || c as u32 == 0x7f {
        seq!['\\', 'u', '{'] + hex(c as u32 as nat) + seq!['}']
    } else {
        seq![c]
    }
}

/// The lower-case hex digit for `d`, which is below sixteen.
pub open spec fn hex_digit(d: nat) -> char {
    if d < 10 {
        digit(d as int)
    } else if d == 10 {
        'a'
    } else if d == 11 {
        'b'
    } else if d == 12 {
        'c'
    } else if d == 13 {
        'd'
    } else if d == 14 {
        'e'
    } else {
        'f'
    }
}

/// `n`, below 256, in lower-case hex without leading zeros.
pub open spec fn hex(n: nat) -> Seq<char> {
    if n < 16 {
        seq![hex_digit(n)]
    } else {
        seq![hex_digit(n / 16), hex_digit(n % 16)]
    }
}

/// The name of a directive, as messages write it.
pub open spec fn directive_name(d: Directive) -> Seq<char> {
    match d {
        Directive::Include => "Include"@,
        Directive::Define => "Define"@,
        Directive::UnDefine => "UnDefine"@,
        Directive::Insert => "Insert"@,
        Directive::IfDefine => "IfDefine"@,
        Directive::IfNotDefine => "IfNotDefine"@,
        Directive::EndIf => "EndIf"@,
    }
}

/// A token as messages write it, e.g. `NameLit(3, "X")`.
pub open spec fn token_text(t: TokenView) -> Seq<char> {
    match t {
        TokenView::Dir(l, d) => "DirectiveToken("@ + decimal(l as nat) + ", "@ + directive_name(d)
            + ")"@,
        TokenView::Comment(l) => "Comment("@ + decimal(l as nat) + ")"@,
        TokenView::Name(l, s) => "NameLit("@ + decimal(l as nat) + ", "@ + quoted(s) + ")"@,
        TokenView::Str(l, s) => "StrLit("@ + decimal(l as nat) + ", "@ + quoted(s) + ")"@,
    }
}

/// The position part of a message: `Error in <fragment>:<line>`, then a new
/// line and three spaces.
pub open spec fn position(line: int, fragment: Seq<char>) -> Seq<char> {
    "Error in "@ + fragment + ":"@ + decimal(line as nat) + "\n   "@
}

/// The readable form of an error.
pub open spec fn message(e: ErrorView) -> Seq<char> {
    match e {
        ErrorView::InvalidToken(l, f, wanted, found) => position(l, f) + "Invalid token: exepted "@
            + token_text(wanted) + " recived "@ + token_text(found),
        ErrorView::IfTokenNotFound(l, f) => position(l, f) + "If token not found!"@,
        ErrorView::IncludeShaderNotFound(l, f, t) => position(l, f) + "Shader "@ + t
            + " not found!"@,
        ErrorView::ShaderNotFound(n) => "Shader "@ + n + " not found!"@,
        ErrorView::IncludeDepthExceeded(l, f, t) => position(l, f) + "Shader "@ + t
            + " is nested too deep!"@,
    }
}

/// The digit for `d`.
fn digit_char(d: usize) -> (r: char)
    requires
        d < 10,
    ensures
        r == digit(d as int),
{
    if d == 0 {
        '0'
    } else if d == 1 {
        '1'
    } else if d == 2 {
        '2'
    } else if d == 3 {
        '3'
    } else if d == 4 {
        '4'
    } else if d == 5 {
        '5'
    } else if d == 6 {
        '6'
    } else if d == 7 {
        '7'
    } else if d == 8 {
        '8'
    } else {
        '9'
    }
}

/// The lower-case hex digit for `d`.
fn hex_digit_char(d: u32) -> (r: char)
    requires
        d < 16,
    ensures
        r == hex_digit(d as nat),
{
    if d < 10 {
        digit_char(d as usize)
    } else if d == 10 {
        'a'
    } else if d == 11 {
        'b'
    } else if d == 12 {
        'c'
    } else if d == 13 {
        'd'
    } else if d == 14 {
        'e'
    } else {
        'f'
    }
}

/// `n` in decimal.
pub fn decimal_chars(n: usize) -> (r: Vec<char>)
    ensures
        r@ == decimal(n as nat),
    decreases n,
{
    if n < 10 {
        vec![digit_char(n)]
    } else {
        let mut r = decimal_chars(n / 10);
        r.push(digit_char(n % 10));
        r
    }
}

/// `s` quoted and escaped.
fn quoted_chars(s: &str) -> (r: Vec<char>)
    ensures
        r@ == quoted(s@),
{
    let cs = chars_of(s);
    let mut r: Vec<char> = vec!['"'];
    let mut i: usize = 0;
    assert(cs@.take(0) =~= Seq::<char>::empty());
    while i < cs.len()
        invariant
            i <= cs.len(),
            r@ == seq!['"'] + escaped(cs@.take(i as int)),
        decreases cs.len() - i,
    {
        let c = cs[i];
        assert(cs@.take(i + 1).drop_last() =~= cs@.take(i as int));
        let ghost r0 = r@;
        if c == '"' {
            r.push('\\');
            r.push('"');
        } else if c == '\\' {
            r.push('\\');
            r.push('\\');
        } else if c == '\t' {
            r.push('\\');
            r.push('t');
        } else if c == '\r' {
            r.push('\\');
            r.push('r');
        } else if c == '\n' {
            r.push('\\');
            r.push('n');
        } else if c == '\0' {
            r.push('\\');
            r.push('0');
        } else if (c as u32) < 0x20 || c as u32 == 0x7f {
            let u = c as u32;
            r.push('\\');
            r.push('u');
            r.push('{');
            if u >= 16 {
                r.push(hex_digit_char(u / 16));
            }
            r.push(hex_digit_char(u % 16));
            r.push('}');
        } else {
            r.push(c);
        }
        assert(r@ =~= r0 + escape_char(c));
        i += 1;
    }
    assert(cs@.take(cs.len() as int) =~= cs@);
    r.push('"');
    r
}

impl ShaderToken {
    /// The token as messages write it.
    pub fn to_text(&self) -> (r: String)
        ensures
            r@ == token_text(self@),
    {
        match self {
            ShaderToken::DirectiveToken(l, d) => {
                let mut s = String::from_str("DirectiveToken(");
                s.append(string_of(&decimal_chars(*l)).as_str());
                s.append(", ");
                let n = match d {
                    Directive::Include => "Include",
                    Directive::Define => "Define",
                    Directive::UnDefine => "UnDefine",
                    Directive::Insert => "Insert",
                    Directive::IfDefine => "IfDefine",
                    Directive::IfNotDefine => "IfNotDefine",
                    Directive::EndIf => "EndIf",
                };
                s.append(n);
                s.append(")");
                s
            },
            ShaderToken::Comment(l) => {
                let mut s = String::from_str("Comment(");
                s.append(string_of(&decimal_chars(*l)).as_str());
                s.append(")");
                s
            },
            ShaderToken::NameLit(l, t) => {
                let mut s = String::from_str("NameLit(");
                s.append(string_of(&decimal_chars(*l)).as_str());
                s.append(", ");
                s.append(string_of(&quoted_chars(t.as_str())).as_str());
                s.append(")");
                s
            },
            ShaderToken::StrLit(l, t) => {
                let mut s = String::from_str("StrLit(");
                s.append(string_of(&decimal_chars(*l)).as_str());
                s.append(", ");
                s.append(string_of(&quoted_chars(t.as_str())).as_str());
                s.append(")");
                s
            },
        }
    }
}

/// The position part of a message.
fn position_text(line: usize, fragment: &String) -> (r: String)
    ensures
        r@ == position(line as int, fragment@),
{
    let mut s = String::from_str("Error in ");
    s.append(fragment.as_str());
    s.append(":");
    s.append(string_of(&decimal_chars(line)).as_str());
    s.append("\n   ");
    s
}

impl PreprocessorErrorType {
    /// The readable form of the error: `Error in <fragment>:<line>` and, on a
    /// second line indented by three spaces, what went wrong; or
    /// `Shader <name> not found!` for a missing entry fragment.
    pub fn to_string(&self) -> (r: String)
        ensures
            r@ == message(self@),
    {
        match self {
            PreprocessorErrorType::InvalidToken(l, f, wanted, found) => {
                let mut s = position_text(*l, f);
                s.append("Invalid token: exepted ");
                s.append(wanted.to_text().as_str());
                s.append(" recived ");
                s.append(found.to_text().as_str());
                s
            },
            PreprocessorErrorType::IfTokenNotFound(l, f) => {
                let mut s = position_text(*l, f);
                s.append("If token not found!");
                s
            },
            PreprocessorErrorType::IncludeShaderNotFound(l, f, t) => {
                let mut s = position_text(*l, f);
                s.append("Shader ");
                s.append(t.as_str());
                s.append(" not found!");
                s
            },
            PreprocessorErrorType::ShaderNotFound(n) => {
                let mut s = String::from_str("Shader ");
                s.append(n.as_str());
                s.append(" not found!");
                s
            },
            PreprocessorErrorType::IncludeDepthExceeded(l, f, t) => {
                let mut s = position_text(*l, f);
                s.append("Shader ");
                s.append(t.as_str());
                s.append(" is nested too deep!");
                s
            },
        }
    }
}

} // verus!
