use vstd::prelude::*;

use crate::error::{ErrorView, PreprocessorErrorType};
use crate::symbols::{define_in, is_defined, substitute, undefine_in, Defs, SymbolTable};
use crate::text::{chars_of, join_all, join_lines, lines, lines_of, string_of, views};
use crate::token::{
    lemma_token_lines, token_views, tokenize_lines, tokens_of, Directive, ShaderToken, TokenView,
};

verus! {

/// How deep inclusions may nest below the entry fragment in `preprocess`: as
/// deep as a `usize` counts, so in practice without bound, as with no cycle
/// detection at all (a fragment that includes itself exhausts the stack first).
/// `preprocess_with_depth` takes a smaller bound from the caller.
pub const MAX_INCLUDE_DEPTH: usize = usize::MAX;

/// The two kinds of conditional block.
#[derive(Clone, Copy, Debug, PartialEq, Eq, Structural)]
pub enum Branch {
    IfDefined,
    IfNotDefined,
}

/// An open conditional block: its kind, the line of its opening directive in
/// the fragment that opened it, and whether its name was defined there.
#[derive(Clone, Copy, Debug, PartialEq, Eq, Structural)]
pub struct Frame {
    pub kind: Branch,
    pub line: usize,
    pub defined: bool,
}

/// Named fragments; a later entry shadows an earlier one of the same name.
pub type Registry = Seq<(Seq<char>, Seq<char>)>;

/// The state a session carries from one fragment to the next: the symbol table
/// and the stack of open conditional blocks.
pub struct Env {
    pub defs: Defs,
    pub frames: Seq<Frame>,
}

/// The text of fragment `name`: that of its last entry.
pub open spec fn lookup(reg: Registry, name: Seq<char>) -> Option<Seq<char>>
    decreases reg.len(),
{
    if reg.len() == 0 {
        None
    } else if reg.last().0 == name {
        Some(reg.last().1)
    } else {
        lookup(reg.drop_last(), name)
    }
}

/// Whether closing block `f` blanks its lines: an `ifdef` whose name was not
/// defined, an `ifndef` whose name was.
pub open spec fn erases(f: Frame) -> bool {
    match f.kind {
        Branch::IfDefined => !f.defined,
        Branch::IfNotDefined => f.defined,
    }
}

/// `buf` with the lines `from` through `to` emptied.
pub open spec fn blank(buf: Seq<Seq<char>>, from: int, to: int) -> Seq<Seq<char>> {
    Seq::new(
        buf.len(),
        |k: int|
            if from <= k <= to {
                Seq::<char>::empty()
            } else {
                buf[k]
            },
    )
}

/// `buf` with the lines `ins` put in before line `at`.
pub open spec fn splice(buf: Seq<Seq<char>>, at: int, ins: Seq<Seq<char>>) -> Seq<Seq<char>> {
    buf.take(at) + ins + buf.skip(at)
}

/// The kind of token that a quoted argument is wanted as.
pub open spec fn str_kind() -> TokenView {
    TokenView::Str(0, Seq::<char>::empty())
}

/// The kind of token that a name argument is wanted as.
pub open spec fn name_kind() -> TokenView {
    TokenView::Name(0, Seq::<char>::empty())
}

/// The kind of token wanted where a directive must stand.
pub open spec fn directive_kind() -> TokenView {
    TokenView::Dir(0, Directive::Include)
}

/// The name of the fragment that composition starts from.
pub open spec fn entry_name() -> Seq<char> {
    seq!['m', 'a', 'i', 'n']
}

/// Composes fragment `name`: its tokens interpreted against its lines, the
/// lines joined with `\n`. Inclusions may nest `fuel` deep.
pub open spec fn compose(reg: Registry, env: Env, name: Seq<char>, fuel: nat) -> (
    Env,
    Result<Seq<char>, ErrorView>,
)
    decreases fuel, 1int, 0int,
{
    match lookup(reg, name) {
        None => (env, Err(ErrorView::ShaderNotFound(name))),
        Some(src) => {
            let (env1, r) = interpret(reg, env, name, tokens_of(src), 0, lines(src), 0, fuel);
            (
                env1,
                match r {
                    Ok(buf) => Ok(join_lines(buf)),
                    Err(e) => Err(e),
                },
            )
        },
    }
}

/// Interprets the tokens `toks` of fragment `name` from position `i`, against
/// the working buffer `buf`, into which `offset` lines have been spliced so far.
/// A directive on line `l` of the fragment acts on buffer line `l + offset`.
/// A block records the line of its opening directive as it stood in its own
/// fragment, while its `endif` counts the lines spliced in since: a block
/// holding an inclusion blanks a range measured in both numberings, as is.
pub open spec fn interpret(
    reg: Registry,
    env: Env,
    name: Seq<char>,
    toks: Seq<TokenView>,
    i: int,
    buf: Seq<Seq<char>>,
    offset: int,
    fuel: nat,
) -> (Env, Result<Seq<Seq<char>>, ErrorView>)
    decreases fuel, 0int, toks.len() - i,
{
    if i < 0 || i >= toks.len() {
        (env, Ok(buf))
    } else {
        match toks[i] {
            TokenView::Dir(l, d) => {
                let at = l + offset;
                if d == Directive::EndIf {
                    if env.frames.len() == 0 {
                        (env, Err(ErrorView::IfTokenNotFound(l, name)))
                    } else {
                        let f = env.frames.last();
                        let env1 = Env { defs: env.defs, frames: env.frames.drop_last() };
                        let buf1 = if erases(f) {
                            blank(buf, f.line as int, at)
                        } else {
                            buf
                        };
                        interpret(reg, env1, name, toks, i + 1, buf1, offset, fuel)
                    }
                } else if i + 1 >= toks.len() {
                    let wanted = if d == Directive::Include || d == Directive::Insert {
                        str_kind()
                    } else {
                        name_kind()
                    };
                    (env, Err(ErrorView::InvalidToken(l, name, wanted, toks[i])))
                } else {
                    let arg = toks[i + 1];
                    match d {
                        Directive::Include => match arg {
                            TokenView::Str(_, target) => if fuel == 0 {
                                (env, Err(ErrorView::IncludeDepthExceeded(l, name, target)))
                            } else {
                                let (env1, r) = compose(reg, env, target, (fuel - 1) as nat);
                                match r {
                                    Ok(text) => interpret(
                                        reg,
                                        env1,
                                        name,
                                        toks,
                                        i + 2,
                                        splice(buf, at, lines(text)),
                                        offset + lines(text).len(),
                                        fuel,
                                    ),
                                    Err(ErrorView::ShaderNotFound(m)) => (
                                        env1,
                                        Err(ErrorView::IncludeShaderNotFound(l, name, m)),
                                    ),
                                    Err(e) => (env1, Err(e)),
                                }
                            },
                            _ => (env, Err(ErrorView::InvalidToken(l, name, str_kind(), arg))),
                        },
                        Directive::Define => match arg {
                            TokenView::Name(_, n) => if i + 2 >= toks.len() {
                                let env1 = Env {
                                    defs: define_in(env.defs, n, Seq::<char>::empty()),
                                    frames: env.frames,
                                };
                                interpret(reg, env1, name, toks, i + 2, buf, offset, fuel)
                            } else {
                                match toks[i + 2] {
                                    TokenView::Str(_, v) => {
                                        let env1 = Env {
                                            defs: define_in(env.defs, n, v),
                                            frames: env.frames,
                                        };
                                        interpret(reg, env1, name, toks, i + 3, buf, offset, fuel)
                                    },
                                    other => (
                                        env,
                                        Err(ErrorView::InvalidToken(l, name, str_kind(), other)),
                                    ),
                                }
                            },
                            _ => (env, Err(ErrorView::InvalidToken(l, name, name_kind(), arg))),
                        },
                        Directive::UnDefine => match arg {
                            TokenView::Name(_, n) => {
                                let env1 = Env {
                                    defs: undefine_in(env.defs, n),
                                    frames: env.frames,
                                };
                                interpret(reg, env1, name, toks, i + 2, buf, offset, fuel)
                            },
                            _ => (env, Err(ErrorView::InvalidToken(l, name, name_kind(), arg))),
                        },
                        Directive::Insert => match arg {
                            TokenView::Str(_, code) => interpret(
                                reg,
                                env,
                                name,
                                toks,
                                i + 2,
                                buf.update(at, substitute(code, env.defs)),
                                offset,
                                fuel,
                            ),
                            _ => (env, Err(ErrorView::InvalidToken(l, name, str_kind(), arg))),
                        },
                        _ => match arg {
                            TokenView::Name(_, n) => {
                                let kind = if d == Directive::IfDefine {
                                    Branch::IfDefined
                                } else {
                                    Branch::IfNotDefined
                                };
                                let f = Frame {
                                    kind,
                                    line: l as usize,
                                    defined: is_defined(env.defs, n),
                                };
                                let env1 = Env { defs: env.defs, frames: env.frames.push(f) };
                                interpret(reg, env1, name, toks, i + 2, buf, offset, fuel)
                            },
                            _ => (env, Err(ErrorView::InvalidToken(l, name, name_kind(), arg))),
                        },
                    }
                }
            },
            other => (env, Err(ErrorView::InvalidToken(other.line(), name, directive_kind(), other))),
        }
    }
}

/// The view of a composed text or error.
pub open spec fn text_result(r: Result<Vec<char>, PreprocessorErrorType>) -> Result<
    Seq<char>,
    ErrorView,
> {
    match r {
        Ok(v) => Ok(v@),
        Err(e) => Err(e@),
    }
}

/// The view of a working buffer or error.
pub open spec fn lines_result(r: Result<Vec<Vec<char>>, PreprocessorErrorType>) -> Result<
    Seq<Seq<char>>,
    ErrorView,
> {
    match r {
        Ok(v) => Ok(views(v@)),
        Err(e) => Err(e@),
    }
}

/// The view of a composed string or error.
pub open spec fn string_result(r: Result<String, PreprocessorErrorType>) -> Result<
    Seq<char>,
    ErrorView,
> {
    match r {
        Ok(s) => Ok(s@),
        Err(e) => Err(e@),
    }
}

/// The views of named texts.
pub open spec fn pairs(v: Seq<(String, String)>) -> Registry {
    v.map_values(|e: (String, String)| (e.0@, e.1@))
}

/// A preprocessing session: the registry of fragments, the symbol table and
/// the stack of open conditional blocks. The table and the stack persist
/// across inclusions and across calls.
pub struct ShaderPreprocessor {
    defines: SymbolTable,
    shader_sources: Vec<(String, String)>,
    ifs: Vec<Frame>,
}

impl ShaderPreprocessor {
    /// The fragments this session can compose.
    pub closed spec fn registry(&self) -> Registry {
        pairs(self.shader_sources@)
    }

    /// The symbol table and the open blocks.
    pub closed spec fn env(&self) -> Env {
        Env { defs: self.defines@, frames: self.ifs@ }
    }

    /// The symbol table holds each name once.
    pub closed spec fn wf(&self) -> bool {
        self.defines.wf()
    }

    /// A session over the fragments `standard` and `shader_sources`; an entry
    /// of `shader_sources` shadows a standard one of the same name.
    pub fn with_standard(standard: Vec<(String, String)>, shader_sources: Vec<(String, String)>) -> (r: Self)
        ensures
            r.wf(),
            r.registry() == pairs(standard@) + pairs(shader_sources@),
            r.env() == (Env { defs: Seq::empty(), frames: Seq::empty() }),
    {
        let mut all = standard;
        let mut own = shader_sources;
        let ghost a = all@;
        let ghost b = own@;
        all.append(&mut own);
        let r = ShaderPreprocessor { defines: SymbolTable::new(), shader_sources: all, ifs: Vec::new() };
        assert(r.registry() =~= pairs(a) + pairs(b));
        assert(r.env().frames =~= Seq::<Frame>::empty());
        r
    }

    /// A session over the fragments `shader_sources`. No standard fragments are
    /// bundled with this crate; `with_standard` takes them from the caller.
    pub fn new(shader_sources: Vec<(String, String)>) -> (r: Self)
        ensures
            r.wf(),
            r.registry() == pairs(shader_sources@),
            r.env() == (Env { defs: Seq::empty(), frames: Seq::empty() }),
    {
        let r = Self::with_standard(Vec::new(), shader_sources);
        assert(pairs(Seq::<(String, String)>::empty()) + pairs(shader_sources@) =~= pairs(shader_sources@));
        r
    }

    /// Where the text of fragment `name` stands.
    fn find_source(&self, name: &String) -> (r: Option<usize>)
        ensures
            match r {
                Some(k) => k < self.shader_sources.len() && lookup(self.registry(), name@) == Some(
                    self.shader_sources@[k as int].1@,
                ),
                None => lookup(self.registry(), name@) == None::<Seq<char>>,
            },
    {
        let mut i: usize = self.shader_sources.len();
        assert(self.registry().take(i as int) =~= self.registry());
        while i > 0
            invariant
                i <= self.shader_sources.len(),
                lookup(self.registry(), name@) == lookup(self.registry().take(i as int), name@),
            decreases i,
        {
            assert(self.registry().take(i as int).drop_last() =~= self.registry().take(i - 1));
            if self.shader_sources[i - 1].0 == *name {
                return Some(i - 1);
            }
            i -= 1;
        }
        None
    }

    /// Composes fragment `name`, inclusions nesting at most `fuel` deep.
    fn preprocess_impl(&mut self, name: &String, fuel: usize) -> (r: Result<
        Vec<char>,
        PreprocessorErrorType,
    >)
        requires
            old(self).wf(),
        ensures
            final(self).wf(),
            final(self).registry() == old(self).registry(),
            (final(self).env(), text_result(r)) == compose(
                old(self).registry(),
                old(self).env(),
                name@,
                fuel as nat,
            ),
        decreases fuel, 1int,
    {
        let src = match self.find_source(name) {
            None => {
                return Err(PreprocessorErrorType::ShaderNotFound(name.clone()));
            },
            Some(k) => chars_of(self.shader_sources[k].1.as_str()),
        };
        let ls = lines_of(&src);
        let toks = tokenize_lines(&ls);
        proof {
            lemma_token_lines(views(ls@));
        }
        let r = self.parse(name, &toks, ls, fuel);
        match r {
            Ok(buf) => Ok(join_all(&buf)),
            Err(e) => Err(e),
        }
    }

    /// Interprets the tokens of fragment `name` against its lines.
    #[verifier::rlimit(100)]
    fn parse(
        &mut self,
        name: &String,
        toks: &Vec<ShaderToken>,
        lines0: Vec<Vec<char>>,
        fuel: usize,
    ) -> (r: Result<Vec<Vec<char>>, PreprocessorErrorType>)
        requires
            old(self).wf(),
            forall|k: int|
                0 <= k < toks.len() ==> 0 <= (#[trigger] token_views(toks@)[k]).line()
                    < lines0.len(),
        ensures
            final(self).wf(),
            final(self).registry() == old(self).registry(),
            (final(self).env(), lines_result(r)) == interpret(
                old(self).registry(),
                old(self).env(),
                name@,
                token_views(toks@),
                0,
                views(lines0@),
                0,
                fuel as nat,
            ),
        decreases fuel, 0int,
    {
        let ghost reg = self.registry();
        let ghost tv = token_views(toks@);
        let ghost nlines = lines0.len();
        let ghost target = interpret(
            reg,
            self.env(),
            name@,
            tv,
            0,
            views(lines0@),
            0,
            fuel as nat,
        );
        let mut buf = lines0;
        let mut offset: usize = 0;
        let mut i: usize = 0;
        while i < toks.len()
            invariant
                self.wf(),
                self.registry() == reg,
                reg == old(self).registry(),
                target == interpret(
                    old(self).registry(),
                    old(self).env(),
                    name@,
                    token_views(toks@),
                    0,
                    views(lines0@),
                    0,
                    fuel as nat,
                ),
                tv == token_views(toks@),
                i <= toks.len(),
                buf.len() == nlines + offset,
                forall|k: int| 0 <= k < toks.len() ==> 0 <= (#[trigger] tv[k]).line() < nlines,
                interpret(reg, self.env(), name@, tv, i as int, views(buf@), offset as int, fuel as nat)
                    == target,
            decreases toks.len() - i,
        {
            assert(tv[i as int] == toks@[i as int]@);
            assert(0 <= tv[i as int].line() < nlines);
            match &toks[i] {
                ShaderToken::DirectiveToken(l, d) => {
                    let l = *l;
                    let at = l + offset;
                    match d {
                        Directive::EndIf => {
                            match self.ifs.pop() {
                                None => {
                                    return Err(PreprocessorErrorType::IfTokenNotFound(l, name.clone()));
                                },
                                Some(f) => {
                                    let erase = match f.kind {
                                        Branch::IfDefined => !f.defined,
                                        Branch::IfNotDefined => f.defined,
                                    };
                                    if erase {
                                        let ghost b0 = views(buf@);
                                        let mut k: usize = f.line;
                                        while k <= at
                                            invariant
                                                f.line <= k,
                                                k <= at + 1 || k == f.line,
                                                at < buf.len(),
                                                buf.len() == b0.len(),
                                                views(buf@) == Seq::new(
                                                    b0.len(),
                                                    |m: int|
                                                        if f.line <= m < k {
                                                            Seq::<char>::empty()
                                                        } else {
                                                            b0[m]
                                                        },
                                                ),
                                            decreases at + 1 - k,
                                        {
                                            let ghost before = views(buf@);
                                            buf.set(k, Vec::new());
                                            assert(views(buf@) =~= before.update(
                                                k as int,
                                                Seq::<char>::empty(),
                                            ));
                                            k += 1;
                                        }
                                        assert(views(buf@) =~= blank(b0, f.line as int, at as int));
                                    }
                                    i += 1;
                                }
                            }
                        },
                        _ => {
                            if i + 1 >= toks.len() {
                                let wanted = match d {
                                    Directive::Include | Directive::Insert => ShaderToken::StrLit(0, String::new()),
                                    _ => ShaderToken::NameLit(0, String::new()),
                                };
                                return Err(
                                    PreprocessorErrorType::InvalidToken(
                                        l,
                                        name.clone(),
                                        wanted,
                                        ShaderToken::DirectiveToken(l, *d),
                                    ),
                                );
                            }
                            assert(tv[i + 1] == toks@[i + 1]@);
                            match d {
                                Directive::Include => {
                                    match &toks[i + 1] {
                                        ShaderToken::StrLit(_, target_name) => {
                                            if fuel == 0 {
                                                return Err(
                                                    PreprocessorErrorType::IncludeDepthExceeded(
                                                        l,
                                                        name.clone(),
                                                        target_name.clone(),
                                                    ),
                                                );
                                            }
                                            let r = self.preprocess_impl(target_name, fuel - 1);
                                            match r {
                                                Err(PreprocessorErrorType::ShaderNotFound(m)) => {
                                                    return Err(
                                                        PreprocessorErrorType::IncludeShaderNotFound(
                                                            l,
                                                            name.clone(),
                                                            m,
                                                        ),
                                                    );
                                                },
                                                Err(e) => {
                                                    return Err(e);
                                                },
                                                Ok(text) => {
                                                    let mut ins = lines_of(&text);
                                                    let n_ins = ins.len();
                                                    let ghost b0 = views(buf@);
                                                    let ghost ins0 = views(ins@);
                                                    let mut tail = buf.split_off(at);
                                                    buf.append(&mut ins);
                                                    buf.append(&mut tail);
                                                    assert(views(buf@) =~= splice(b0, at as int, ins0));
                                                    let new_len = buf.len();
                                                    assert(new_len == nlines + offset + n_ins);
                                                    offset = offset + n_ins;
                                                    i += 2;
                                                },
                                            }
                                        },
                                        other => {
                                            return Err(
                                                PreprocessorErrorType::InvalidToken(
                                                    l,
                                                    name.clone(),
                                                    ShaderToken::StrLit(0, String::new()),
                                                    other.duplicate(),
                                                ),
                                            );
                                        },
                                    }
                                },
                                Directive::Define => {
                                    match &toks[i + 1] {
                                        ShaderToken::NameLit(_, n) => {
                                            if i + 2 >= toks.len() {
                                                self.defines.define(n.clone(), String::new());
                                                i += 2;
                                            } else {
                                                assert(tv[i + 2] == toks@[i + 2]@);
                                                match &toks[i + 2] {
                                                    ShaderToken::StrLit(_, v) => {
                                                        self.defines.define(n.clone(), v.clone());
                                                        i += 3;
                                                    },
                                                    other => {
                                                        return Err(
                                                            PreprocessorErrorType::InvalidToken(
                                                                l,
                                                                name.clone(),
                                                                ShaderToken::StrLit(0, String::new()),
                                                                other.duplicate(),
                                                            ),
                                                        );
                                                    },
                                                }
                                            }
                                        },
                                        other => {
                                            return Err(
                                                PreprocessorErrorType::InvalidToken(
                                                    l,
                                                    name.clone(),
                                                    ShaderToken::NameLit(0, String::new()),
                                                    other.duplicate(),
                                                ),
                                            );
                                        },
                                    }
                                },
                                Directive::UnDefine => {
                                    match &toks[i + 1] {
                                        ShaderToken::NameLit(_, n) => {
                                            self.defines.undefine(n);
                                            i += 2;
                                        },
                                        other => {
                                            return Err(
                                                PreprocessorErrorType::InvalidToken(
                                                    l,
                                                    name.clone(),
                                                    ShaderToken::NameLit(0, String::new()),
                                                    other.duplicate(),
                                                ),
                                            );
                                        },
                                    }
                                },
                                Directive::Insert => {
                                    match &toks[i + 1] {
                                        ShaderToken::StrLit(_, code) => {
                                            let line = self.defines.substitute(&chars_of(code.as_str()));
                                            let ghost b0 = views(buf@);
                                            let ghost lv = line@;
                                            buf.set(at, line);
                                            assert(views(buf@) =~= b0.update(at as int, lv));
                                            i += 2;
                                        },
                                        other => {
                                            return Err(
                                                PreprocessorErrorType::InvalidToken(
                                                    l,
                                                    name.clone(),
                                                    ShaderToken::StrLit(0, String::new()),
                                                    other.duplicate(),
                                                ),
                                            );
                                        },
                                    }
                                },
                                _ => {
                                    match &toks[i + 1] {
                                        ShaderToken::NameLit(_, n) => {
                                            let kind = match d {
                                                Directive::IfDefine => Branch::IfDefined,
                                                _ => Branch::IfNotDefined,
                                            };
                                            let defined = self.defines.is_defined(n);
                                            self.ifs.push(Frame { kind, line: l, defined });
                                            i += 2;
                                        },
                                        other => {
                                            return Err(
                                                PreprocessorErrorType::InvalidToken(
                                                    l,
                                                    name.clone(),
                                                    ShaderToken::NameLit(0, String::new()),
                                                    other.duplicate(),
                                                ),
                                            );
                                        },
                                    }
                                },
                            }
                        },
                    }
                },
                other => {
                    return Err(
                        PreprocessorErrorType::InvalidToken(
                            other.line(),
                            name.clone(),
                            ShaderToken::DirectiveToken(0, Directive::Include),
                            other.duplicate(),
                        ),
                    );
                },
            }
        }
        Ok(buf)
    }

    /// Composes the entry fragment `main`.
    pub fn preprocess(&mut self) -> (r: Result<String, PreprocessorErrorType>)
        requires
            old(self).wf(),
        ensures
            final(self).wf(),
            final(self).registry() == old(self).registry(),
            (final(self).env(), string_result(r)) == compose(
                old(self).registry(),
                old(self).env(),
                entry_name(),
                MAX_INCLUDE_DEPTH as nat,
            ),
    {
        self.preprocess_with_depth(MAX_INCLUDE_DEPTH)
    }

    /// Composes the entry fragment `main`, inclusions nesting at most
    /// `max_depth` deep; deeper nesting fails with `IncludeDepthExceeded`.
    pub fn preprocess_with_depth(&mut self, max_depth: usize) -> (r: Result<
        String,
        PreprocessorErrorType,
    >)
        requires
            old(self).wf(),
        ensures
            final(self).wf(),
            final(self).registry() == old(self).registry(),
            (final(self).env(), string_result(r)) == compose(
                old(self).registry(),
                old(self).env(),
                entry_name(),
                max_depth as nat,
            ),
    {
        let name = String::from_str("main");
        proof {
            reveal_strlit("main");
        }
        assert(name@ == entry_name());
        match self.preprocess_impl(&name, max_depth) {
            Ok(text) => Ok(string_of(&text)),
            Err(e) => Err(e),
        }
    }
}

/// The name a file is registered under: its name up to the first `.`.
pub open spec fn stem(file_name: Seq<char>) -> Seq<char>
    decreases file_name.len(),
{
    if file_name.len() == 0 || file_name[0] == '.' {
        Seq::<char>::empty()
    } else {
        seq![file_name[0]] + stem(file_name.drop_first())
    }
}

/// The registry built from a directory listing: each file under its stem, an
/// unreadable file (`None`) with empty text.
pub open spec fn dir_registry(files: Seq<(String, Option<String>)>) -> Registry {
    files.map_values(
        |e: (String, Option<String>)|
            (
                stem(e.0@),
                match e.1 {
                    Some(t) => t@,
                    None => Seq::<char>::empty(),
                },
            ),
    )
}

/// The name a file is registered under: its name up to the first `.`.
pub fn fragment_name(file_name: &str) -> (r: String)
    ensures
        r@ == stem(file_name@),
{
    let s = chars_of(file_name);
    let mut i: usize = 0;
    assert(s@.skip(0) =~= s@);
    while i < s.len() && s[i] != '.'
        invariant
            i <= s.len(),
            stem(s@) == s@.take(i as int) + stem(s@.skip(i as int)),
        decreases s.len() - i,
    {
        assert(s@.skip(i as int).drop_first() =~= s@.skip(i + 1));
        assert(s@.take(i + 1) =~= s@.take(i as int) + seq![s@[i as int]]);
        i += 1;
    }
    let mut r: Vec<char> = Vec::new();
    let mut j: usize = 0;
    while j < i
        invariant
            j <= i <= s.len(),
            r@ == s@.take(j as int),
        decreases i - j,
    {
        r.push(s[j]);
        assert(s@.take(j + 1) =~= s@.take(j as int).push(s@[j as int]));
        j += 1;
    }
    assert(s@.take(i as int) + Seq::<char>::empty() =~= s@.take(i as int));
    string_of(&r)
}

/// Composes the entry fragment `main` of a directory listing: each file's name
/// and its text, `None` where the file could not be read.
pub fn preprocess_dir(files: Vec<(String, Option<String>)>) -> (r: Result<
    String,
    PreprocessorErrorType,
>)
    ensures
        string_result(r) == compose(
            dir_registry(files@),
            Env { defs: Seq::empty(), frames: Seq::empty() },
            entry_name(),
            MAX_INCLUDE_DEPTH as nat,
        ).1,
{
    let mut shaders: Vec<(String, String)> = Vec::new();
    let mut k: usize = 0;
    while k < files.len()
        invariant
            k <= files.len(),
            pairs(shaders@) == dir_registry(files@).take(k as int),
        decreases files.len() - k,
    {
        let name = fragment_name(files[k].0.as_str());
        let text = match &files[k].1 {
            Some(t) => t.clone(),
            None => String::new(),
        };
        let ghost before = shaders@;
        shaders.push((name, text));
        assert(pairs(shaders@) =~= pairs(before).push(dir_registry(files@)[k as int]));
        assert(dir_registry(files@).take(k + 1) =~= dir_registry(files@).take(k as int).push(
            dir_registry(files@)[k as int],
        ));
        k += 1;
    }
    assert(dir_registry(files@).take(files.len() as int) =~= dir_registry(files@));
    let mut session = ShaderPreprocessor::new(shaders);
    session.preprocess()
}

} // verus!
