use vstd::prelude::*;

use crate::text::{
    chars_of, lines, lines_of, remove_quotes, same_chars, split_chars, split_on, string_of,
    trim_end, trim_end_chars, trim_start, trim_start_chars, views, without_quotes,
};

verus! {

/// The preprocessor commands.
#[derive(Clone, Copy, Debug, PartialEq, Eq, Structural)]
pub enum Directive {
    /// Splices the compiled text of another fragment in front of the directive line.
    Include,
    /// Defines a name, with a quoted value or the empty value.
    Define,
    /// Removes a name from the symbol table.
    UnDefine,
    /// Replaces the directive line with quoted code, after substituting defined names.
    Insert,
    /// Opens a block kept only if a name is defined.
    IfDefine,
    /// Opens a block kept only if a name is not defined.
    IfNotDefine,
    /// Closes the innermost open block.
    EndIf,
}

/// A token of a directive line, with the 0-based index of that line in its fragment.
#[derive(Debug, PartialEq, Eq)]
pub enum ShaderToken {
    /// A directive keyword.
    DirectiveToken(usize, Directive),
    /// A bare `//`.
    Comment(usize),
    /// Any other word.
    NameLit(usize, String),
    /// A quoted string, quotes removed.
    StrLit(usize, String),
}

/// What a token is, as a mathematical value.
pub enum TokenView {
    Dir(int, Directive),
    Comment(int),
    Name(int, Seq<char>),
    Str(int, Seq<char>),
}

impl TokenView {
    /// The line the token stands on.
    pub open spec fn line(self) -> int {
        match self {
            TokenView::Dir(l, _) => l,
            TokenView::Comment(l) => l,
            TokenView::Name(l, _) => l,
            TokenView::Str(l, _) => l,
        }
    }
}

impl View for ShaderToken {
    type V = TokenView;

    open spec fn view(&self) -> TokenView {
        match self {
            ShaderToken::DirectiveToken(l, d) => TokenView::Dir(*l as int, *d),
            ShaderToken::Comment(l) => TokenView::Comment(*l as int),
            ShaderToken::NameLit(l, s) => TokenView::Name(*l as int, s@),
            ShaderToken::StrLit(l, s) => TokenView::Str(*l as int, s@),
        }
    }
}

/// The views of a sequence of tokens.
pub open spec fn token_views(ts: Seq<ShaderToken>) -> Seq<TokenView> {
    ts.map_values(|t: ShaderToken| t@)
}

impl ShaderToken {
    /// The line the token stands on.
    pub fn line(&self) -> (r: usize)
        ensures
            r == self@.line(),
    {
        match self {
            ShaderToken::DirectiveToken(l, _) => *l,
            ShaderToken::Comment(l) => *l,
            ShaderToken::NameLit(l, _) => *l,
            ShaderToken::StrLit(l, _) => *l,
        }
    }

    /// A token equal to this one.
    pub fn duplicate(&self) -> (r: ShaderToken)
        ensures
            r@ == self@,
    {
        match self {
            ShaderToken::DirectiveToken(l, d) => ShaderToken::DirectiveToken(*l, *d),
            ShaderToken::Comment(l) => ShaderToken::Comment(*l),
            ShaderToken::NameLit(l, s) => ShaderToken::NameLit(*l, s.clone()),
            ShaderToken::StrLit(l, s) => ShaderToken::StrLit(*l, s.clone()),
        }
    }
}

// ---------------------------------------------------------------------------
// The lexical rules
// ---------------------------------------------------------------------------

/// `//!`, which starts a directive line.
pub open spec fn marker() -> Seq<char> {
    seq!['/', '/', '!']
}

/// `//`, the comment token.
pub open spec fn comment_word() -> Seq<char> {
    seq!['/', '/']
}

/// The directive that a word names, if it is a keyword.
pub open spec fn keyword(w: Seq<char>) -> Option<Directive> {
    if w == seq!['i', 'n', 'c', 'l', 'u', 'd', 'e'] {
        Some(Directive::Include)
    } else if w == seq!['d', 'e', 'f', 'i', 'n', 'e'] {
        Some(Directive::Define)
    } else if w == seq!['u', 'n', 'd', 'e', 'f'] {
        Some(Directive::UnDefine)
    } else if w == seq!['i', 'n', 's', 'e', 'r', 't'] {
        Some(Directive::Insert)
    } else if w == seq!['i', 'f', 'd', 'e', 'f'] {
        Some(Directive::IfDefine)
    } else if w == seq!['i', 'f', 'n', 'd', 'e', 'f'] {
        Some(Directive::IfNotDefine)
    } else if w == seq!['e', 'n', 'd', 'i', 'f'] {
        Some(Directive::EndIf)
    } else {
        None
    }
}

/// The token for a word outside a string literal (the marker itself excepted).
pub open spec fn word_token(w: Seq<char>, n: int) -> TokenView {
    match keyword(w) {
        Some(d) => TokenView::Dir(n, d),
        None => if w == comment_word() {
            TokenView::Comment(n)
        } else {
            TokenView::Name(n, w)
        },
    }
}

/// Where the lexer of one line stands: inside a string literal or not, the
/// literal's text so far, and the tokens found.
pub struct LexState {
    pub in_lit: bool,
    pub lit: Seq<char>,
    pub toks: Seq<TokenView>,
}

pub open spec fn opens_quote(w: Seq<char>) -> bool {
    w.len() > 0 && w[0] == '"'
}

pub open spec fn closes_quote(w: Seq<char>) -> bool {
    w.len() > 0 && w.last() == '"'
}

/// One piece of a directive line read on line `n`. A piece that begins with a
/// quote starts a literal afresh; pieces inside a literal are joined with single
/// spaces; a piece that ends with a quote emits the literal, quotes removed.
pub open spec fn lex_step(st: LexState, w: Seq<char>, n: int) -> LexState {
    let lit1 = if st.in_lit {
        st.lit + w
    } else {
        st.lit
    };
    let in_lit = opens_quote(w) || st.in_lit;
    let lit = if opens_quote(w) {
        w
    } else {
        lit1
    };
    if closes_quote(w) {
        LexState { in_lit: false, lit, toks: st.toks.push(TokenView::Str(n, remove_quotes(lit))) }
    } else if in_lit {
        LexState { in_lit: true, lit: lit + seq![' '], toks: st.toks }
    } else if w == marker() {
        LexState { in_lit: false, lit, toks: st.toks }
    } else {
        LexState { in_lit: false, lit, toks: st.toks.push(word_token(w, n)) }
    }
}

/// The lexer's state after the pieces `ws` of line `n`.
pub open spec fn lex_pieces(ws: Seq<Seq<char>>, n: int) -> LexState
    decreases ws.len(),
{
    if ws.len() == 0 {
        LexState { in_lit: false, lit: Seq::<char>::empty(), toks: Seq::<TokenView>::empty() }
    } else {
        lex_step(lex_pieces(ws.drop_last(), n), ws.last(), n)
    }
}

/// Whether a line is a directive line: it begins with the marker once its
/// leading whitespace is gone.
pub open spec fn is_directive_line(l: Seq<char>) -> bool {
    let t = trim_start(l);
    t.len() >= 3 && t.take(3) == marker()
}

/// The tokens of line `n`: none unless it is a directive line; else those of
/// its trimmed text split at single spaces.
pub open spec fn line_tokens(l: Seq<char>, n: int) -> Seq<TokenView> {
    if is_directive_line(l) {
        lex_pieces(split_on(trim_end(trim_start(l)), ' '), n).toks
    } else {
        Seq::<TokenView>::empty()
    }
}

/// The tokens of a sequence of lines, the lines numbered from 0.
pub open spec fn tokens_of_lines(ls: Seq<Seq<char>>) -> Seq<TokenView>
    decreases ls.len(),
{
    if ls.len() == 0 {
        Seq::<TokenView>::empty()
    } else {
        tokens_of_lines(ls.drop_last()) + line_tokens(ls.last(), ls.len() - 1)
    }
}

/// The tokens of a fragment's text.
pub open spec fn tokens_of(src: Seq<char>) -> Seq<TokenView> {
    tokens_of_lines(lines(src))
}

// ---------------------------------------------------------------------------
// Facts
// ---------------------------------------------------------------------------

/// Every token of line `n` stands on line `n`.
pub proof fn lemma_lex_lines(ws: Seq<Seq<char>>, n: int)
    ensures
        forall|k: int|
            0 <= k < lex_pieces(ws, n).toks.len() ==> (#[trigger] lex_pieces(ws, n).toks[k]).line()
                == n,
    decreases ws.len(),
{
    if ws.len() > 0 {
        lemma_lex_lines(ws.drop_last(), n);
        let prev = lex_pieces(ws.drop_last(), n).toks;
        let cur = lex_pieces(ws, n).toks;
        assert(word_token(ws.last(), n).line() == n);
        assert(cur == prev || (cur.len() == prev.len() + 1 && cur.drop_last() == prev && cur.last().line() == n));
        assert forall|k: int| 0 <= k < cur.len() implies (#[trigger] cur[k]).line() == n by {
            if k < prev.len() {
                assert(cur[k] == prev[k]);
            }
        }
    }
}

/// Every token of a sequence of lines stands on one of those lines.
pub proof fn lemma_token_lines(ls: Seq<Seq<char>>)
    ensures
        forall|k: int|
            0 <= k < tokens_of_lines(ls).len() ==> 0 <= (#[trigger] tokens_of_lines(ls)[k]).line()
                < ls.len(),
    decreases ls.len(),
{
    if ls.len() > 0 {
        lemma_token_lines(ls.drop_last());
        let l = ls.last();
        let n = ls.len() - 1;
        if is_directive_line(l) {
            lemma_lex_lines(split_on(trim_end(trim_start(l)), ' '), n);
        }
        let a = tokens_of_lines(ls.drop_last());
        let b = line_tokens(l, n);
        assert forall|k: int| 0 <= k < tokens_of_lines(ls).len() implies 0 <= (
        #[trigger] tokens_of_lines(ls)[k]).line() < ls.len() by {
            if k >= a.len() {
                assert(tokens_of_lines(ls)[k] == b[k - a.len()]);
                assert(b[k - a.len()].line() == n);
            } else {
                assert(tokens_of_lines(ls)[k] == a[k]);
                assert(0 <= a[k].line() < ls.drop_last().len());
            }
        }
    }
}

/// Text without a directive line has no tokens.
pub proof fn lemma_no_directive_no_tokens(ls: Seq<Seq<char>>)
    requires
        forall|k: int| 0 <= k < ls.len() ==> !is_directive_line(#[trigger] ls[k]),
    ensures
        tokens_of_lines(ls) == Seq::<TokenView>::empty(),
    decreases ls.len(),
{
    if ls.len() > 0 {
        lemma_no_directive_no_tokens(ls.drop_last());
        assert(!is_directive_line(ls[ls.len() - 1]));
    }
}

// ---------------------------------------------------------------------------
// The lexer
// ---------------------------------------------------------------------------

/// The token for a word outside a string literal.
fn make_word_token(w: &Vec<char>, n: usize) -> (r: ShaderToken)
    ensures
        r@ == word_token(w@, n as int),
{
    let d = if same_chars(w, &vec!['i', 'n', 'c', 'l', 'u', 'd', 'e']) {
        Some(Directive::Include)
    } else if same_chars(w, &vec!['d', 'e', 'f', 'i', 'n', 'e']) {
        Some(Directive::Define)
    } else if same_chars(w, &vec!['u', 'n', 'd', 'e', 'f']) {
        Some(Directive::UnDefine)
    } else if same_chars(w, &vec!['i', 'n', 's', 'e', 'r', 't']) {
        Some(Directive::Insert)
    } else if same_chars(w, &vec!['i', 'f', 'd', 'e', 'f']) {
        Some(Directive::IfDefine)
    } else if same_chars(w, &vec!['i', 'f', 'n', 'd', 'e', 'f']) {
        Some(Directive::IfNotDefine)
    } else if same_chars(w, &vec!['e', 'n', 'd', 'i', 'f']) {
        Some(Directive::EndIf)
    } else {
        None
    };
    match d {
        Some(d) => ShaderToken::DirectiveToken(n, d),
        None => if same_chars(w, &vec!['/', '/']) {
            ShaderToken::Comment(n)
        } else {
            ShaderToken::NameLit(n, string_of(w))
        },
    }
}

/// Appends the tokens of line `n` to `toks`.
fn lex_line(l: &Vec<char>, n: usize, toks: &mut Vec<ShaderToken>)
    ensures
        token_views(final(toks)@) == token_views(old(toks)@) + line_tokens(l@, n as int),
{
    let t = trim_start_chars(l);
    let directive = t.len() >= 3 && t[0] == '/' && t[1] == '/' && t[2] == '!';
    assert(directive == is_directive_line(l@)) by {
        if t.len() >= 3 && t@[0] == '/' && t@[1] == '/' && t@[2] == '!' {
            assert(t@.take(3) =~= marker());
        }
        if t.len() >= 3 && t@.take(3) == marker() {
            assert(t@.take(3)[0] == '/' && t@.take(3)[1] == '/' && t@.take(3)[2] == '!');
        }
    }
    if !directive {
        assert(token_views(toks@) + Seq::<TokenView>::empty() =~= token_views(toks@));
        return;
    }
    let pieces = split_chars(&trim_end_chars(&t), ' ');
    let ghost ws = views(pieces@);
    let ghost start = token_views(toks@);
    let mut in_lit = false;
    let mut lit: Vec<char> = Vec::new();
    let mut k: usize = 0;
    assert(ws.take(0) =~= Seq::<Seq<char>>::empty());
    assert(start + lex_pieces(ws.take(0), n as int).toks =~= start);
    while k < pieces.len()
        invariant
            k <= pieces.len(),
            ws == views(pieces@),
            in_lit == lex_pieces(ws.take(k as int), n as int).in_lit,
            lit@ == lex_pieces(ws.take(k as int), n as int).lit,
            token_views(toks@) == start + lex_pieces(ws.take(k as int), n as int).toks,
        decreases pieces.len() - k,
    {
        let w = &pieces[k];
        let ghost st = lex_pieces(ws.take(k as int), n as int);
        assert(ws.take(k + 1).drop_last() =~= ws.take(k as int));
        assert(ws.take(k + 1).last() == w@);
        if in_lit {
            let mut j: usize = 0;
            let ghost lit0 = lit@;
            while j < w.len()
                invariant
                    j <= w.len(),
                    lit@ == lit0 + w@.take(j as int),
                decreases w.len() - j,
            {
                lit.push(w[j]);
                j += 1;
            }
            assert(w@.take(w.len() as int) =~= w@);
        }
        let opens = w.len() > 0 && w[0] == '"';
        if opens {
            in_lit = true;
            lit = Vec::new();
            let mut j: usize = 0;
            while j < w.len()
                invariant
                    j <= w.len(),
                    lit@ == w@.take(j as int),
                decreases w.len() - j,
            {
                lit.push(w[j]);
                j += 1;
            }
            assert(w@.take(w.len() as int) =~= w@);
        }
        let closes = w.len() > 0 && w[w.len() - 1] == '"';
        if closes {
            in_lit = false;
            let s = string_of(&without_quotes(&lit));
            let ghost before = toks@;
            toks.push(ShaderToken::StrLit(n, s));
            assert(token_views(toks@) =~= token_views(before).push(toks@.last()@));
        } else if in_lit {
            lit.push(' ');
        } else if same_chars(w, &vec!['/', '/', '!']) {
        } else {
            let tok = make_word_token(w, n);
            let ghost before = toks@;
            toks.push(tok);
            assert(token_views(toks@) =~= token_views(before).push(toks@.last()@));
        }
        k += 1;
    }
    assert(ws.take(pieces.len() as int) =~= ws);
}

/// The tokens of the lines `ls`, the lines numbered from 0.
pub fn tokenize_lines(ls: &Vec<Vec<char>>) -> (r: Vec<ShaderToken>)
    ensures
        token_views(r@) == tokens_of_lines(views(ls@)),
{
    let mut toks: Vec<ShaderToken> = Vec::new();
    let mut k: usize = 0;
    let ghost vs = views(ls@);
    assert(vs.take(0) =~= Seq::<Seq<char>>::empty());
    assert(token_views(toks@) =~= Seq::<TokenView>::empty());
    while k < ls.len()
        invariant
            k <= ls.len(),
            vs == views(ls@),
            token_views(toks@) == tokens_of_lines(vs.take(k as int)),
        decreases ls.len() - k,
    {
        assert(vs.take(k + 1).drop_last() =~= vs.take(k as int));
        lex_line(&ls[k], k, &mut toks);
        k += 1;
    }
    assert(vs.take(ls.len() as int) =~= vs);
    toks
}

/// The tokens of a fragment's text, in source order.
pub fn tokenize(source: &str) -> (r: Vec<ShaderToken>)
    ensures
        token_views(r@) == tokens_of(source@),
{
    tokenize_lines(&lines_of(&chars_of(source)))
}

} // verus!
