use vstd::prelude::*;

use crate::error::ErrorView;
use crate::preprocessor::{
    blank, compose, interpret, lookup, splice, Branch, Env, Frame, Registry,
};
use crate::symbols::{
    define_in, is_defined, keys_unique, lemma_key_index, undefine_in, Defs,
};
use crate::text::{join_lines, lemma_join_lines, lines};
use crate::token::{
    is_directive_line, lemma_no_directive_no_tokens, tokens_of, Directive, TokenView,
};

verus! {

/// A fragment without directive lines composes to its own text, the session
/// untouched. Composition rebuilds the text from its lines, so the text must
/// hold no carriage return and must not end with a line ending.
pub proof fn law_plain_fragment_unchanged(reg: Registry, env: Env, name: Seq<char>, fuel: nat)
    requires
        lookup(reg, name) is Some,
        forall|k: int|
            0 <= k < lines(lookup(reg, name)->0).len() ==> !is_directive_line(
                #[trigger] lines(lookup(reg, name)->0)[k],
            ),
        forall|k: int|
            0 <= k < lookup(reg, name)->0.len() ==> #[trigger] lookup(reg, name)->0[k] != '\r',
        lookup(reg, name)->0.len() == 0 || lookup(reg, name)->0.last() != '\n',
    ensures
        compose(reg, env, name, fuel) == (env, Ok::<Seq<char>, ErrorView>(lookup(reg, name)->0)),
{
    let src = lookup(reg, name)->0;
    lemma_no_directive_no_tokens(lines(src));
    lemma_join_lines(src);
    assert(tokens_of(src).len() == 0);
}

/// A name just defined is defined, with the given value; a name just removed
/// is not defined.
pub proof fn law_define_undefine(defs: Defs, x: Seq<char>, v: Seq<char>)
    requires
        keys_unique(defs),
    ensures
        is_defined(define_in(defs, x, v), x),
        define_in(defs, x, v)[crate::symbols::key_index(define_in(defs, x, v), x)] == (x, v),
        !is_defined(undefine_in(defs, x), x),
{
    lemma_key_index(defs, x);
    let d = define_in(defs, x, v);
    lemma_key_index(d, x);
    if crate::symbols::key_index(defs, x) < 0 {
        crate::symbols::lemma_key_index_unique(d, x, d.len() - 1);
    } else {
        assert forall|i: int, j: int| 0 <= i < j < d.len() implies d[i].0 != d[j].0 by {
            assert(defs[i].0 == d[i].0 && defs[j].0 == d[j].0);
        }
        crate::symbols::lemma_key_index_unique(d, x, crate::symbols::key_index(defs, x));
    }
    let u = undefine_in(defs, x);
    lemma_key_index(u, x);
    if crate::symbols::key_index(defs, x) >= 0 {
        let p = crate::symbols::key_index(defs, x);
        if crate::symbols::key_index(u, x) >= 0 {
            let q = crate::symbols::key_index(u, x);
            if q < p {
                assert(u[q] == defs[q]);
            } else {
                assert(u[q] == defs[q + 1]);
            }
        }
    }
}

/// Whether a conditional block of `kind` on name `x` keeps its lines: an
/// `ifdef` where `x` is defined, an `ifndef` where it is not. The two kinds never
/// agree on one name and one table.
pub open spec fn block_kept(kind: Directive, defs: Defs, x: Seq<char>) -> bool {
    (kind == Directive::IfDefine) == is_defined(defs, x)
}

/// For one name and one table, an `ifdef` block is kept exactly when an
/// `ifndef` block is not, and an `ifndef` block is kept exactly when the name is
/// not defined.
pub proof fn law_ifdef_ifndef_exclusive(defs: Defs, x: Seq<char>)
    ensures
        block_kept(Directive::IfDefine, defs, x) == !block_kept(Directive::IfNotDefine, defs, x),
        block_kept(Directive::IfDefine, defs, x) == is_defined(defs, x),
        block_kept(Directive::IfNotDefine, defs, x) == !is_defined(defs, x),
{
}

/// The tokens at `i` are a conditional block with nothing in it but text:
/// `kind x` on line `a`, `endif` on line `b`.
pub open spec fn block_at(
    toks: Seq<TokenView>,
    i: int,
    kind: Directive,
    x: Seq<char>,
    a: int,
    b: int,
) -> bool {
    &&& 0 <= i && i + 3 <= toks.len()
    &&& (kind == Directive::IfDefine || kind == Directive::IfNotDefine)
    &&& toks[i] == TokenView::Dir(a, kind)
    &&& toks[i + 1] is Name && toks[i + 1]->Name_1 == x
    &&& toks[i + 2] == TokenView::Dir(b, Directive::EndIf)
}

/// A conditional block is decided by whether its name is defined when it opens:
/// kept, its lines stay; not kept, every line from its opening directive through
/// its `endif` is emptied. The stack of open blocks is as before.
pub proof fn law_conditional_block(
    reg: Registry,
    env: Env,
    name: Seq<char>,
    toks: Seq<TokenView>,
    i: int,
    buf: Seq<Seq<char>>,
    offset: int,
    fuel: nat,
    kind: Directive,
    x: Seq<char>,
    a: int,
    b: int,
)
    requires
        block_at(toks, i, kind, x, a, b),
        0 <= a <= usize::MAX,
    ensures
        interpret(reg, env, name, toks, i, buf, offset, fuel) == interpret(
            reg,
            env,
            name,
            toks,
            i + 3,
            if block_kept(kind, env.defs, x) {
                buf
            } else {
                blank(buf, a, b + offset)
            },
            offset,
            fuel,
        ),
{
    let f = Frame {
        kind: if kind == Directive::IfDefine {
            Branch::IfDefined
        } else {
            Branch::IfNotDefined
        },
        line: a as usize,
        defined: is_defined(env.defs, x),
    };
    let env1 = Env { defs: env.defs, frames: env.frames.push(f) };
    assert(interpret(reg, env, name, toks, i, buf, offset, fuel) == interpret(
        reg,
        env1,
        name,
        toks,
        i + 2,
        buf,
        offset,
        fuel,
    ));
    assert(env1.frames.drop_last() =~= env.frames);
    assert(Env { defs: env1.defs, frames: env1.frames.drop_last() } == env);
}

/// `define x "v"` followed by a block on `x` that holds only text: an `ifdef`
/// keeps its lines and an `ifndef` blanks them.
pub proof fn law_define_then_block(
    reg: Registry,
    env: Env,
    name: Seq<char>,
    toks: Seq<TokenView>,
    i: int,
    buf: Seq<Seq<char>>,
    offset: int,
    fuel: nat,
    l: int,
    v: Seq<char>,
    kind: Directive,
    x: Seq<char>,
    a: int,
    b: int,
)
    requires
        keys_unique(env.defs),
        0 <= i && i + 3 <= toks.len(),
        toks[i] == TokenView::Dir(l, Directive::Define),
        toks[i + 1] is Name && toks[i + 1]->Name_1 == x,
        toks[i + 2] is Str && toks[i + 2]->Str_1 == v,
        block_at(toks, i + 3, kind, x, a, b),
        0 <= a <= usize::MAX,
    ensures
        interpret(reg, env, name, toks, i, buf, offset, fuel) == interpret(
            reg,
            Env { defs: define_in(env.defs, x, v), frames: env.frames },
            name,
            toks,
            i + 6,
            if kind == Directive::IfDefine {
                buf
            } else {
                blank(buf, a, b + offset)
            },
            offset,
            fuel,
        ),
{
    let env1 = Env { defs: define_in(env.defs, x, v), frames: env.frames };
    law_define_undefine(env.defs, x, v);
    law_conditional_block(reg, env1, name, toks, i + 3, buf, offset, fuel, kind, x, a, b);
}

/// `undef x` followed by a block on `x` that holds only text: an `ifdef` blanks
/// its lines and an `ifndef` keeps them.
pub proof fn law_undefine_then_block(
    reg: Registry,
    env: Env,
    name: Seq<char>,
    toks: Seq<TokenView>,
    i: int,
    buf: Seq<Seq<char>>,
    offset: int,
    fuel: nat,
    l: int,
    kind: Directive,
    x: Seq<char>,
    a: int,
    b: int,
)
    requires
        keys_unique(env.defs),
        0 <= i && i + 2 <= toks.len(),
        toks[i] == TokenView::Dir(l, Directive::UnDefine),
        toks[i + 1] is Name && toks[i + 1]->Name_1 == x,
        block_at(toks, i + 2, kind, x, a, b),
        0 <= a <= usize::MAX,
    ensures
        interpret(reg, env, name, toks, i, buf, offset, fuel) == interpret(
            reg,
            Env { defs: undefine_in(env.defs, x), frames: env.frames },
            name,
            toks,
            i + 5,
            if kind == Directive::IfDefine {
                blank(buf, a, b + offset)
            } else {
                buf
            },
            offset,
            fuel,
        ),
{
    let env1 = Env { defs: undefine_in(env.defs, x), frames: env.frames };
    law_define_undefine(env.defs, x, Seq::<char>::empty());
    law_conditional_block(reg, env1, name, toks, i + 2, buf, offset, fuel, kind, x, a, b);
}

/// An `ifdef a` block holding only an `ifndef b` block and text: the inner
/// block is decided by `b` alone, the outer by `a` alone, and where both fail
/// both ranges are blank.
pub proof fn law_nested_blocks(
    reg: Registry,
    env: Env,
    name: Seq<char>,
    toks: Seq<TokenView>,
    i: int,
    buf: Seq<Seq<char>>,
    offset: int,
    fuel: nat,
    xa: Seq<char>,
    xb: Seq<char>,
    la: int,
    lb: int,
    lc: int,
    ld: int,
)
    requires
        0 <= i && i + 6 <= toks.len(),
        toks[i] == TokenView::Dir(la, Directive::IfDefine),
        toks[i + 1] is Name && toks[i + 1]->Name_1 == xa,
        block_at(toks, i + 2, Directive::IfNotDefine, xb, lb, lc),
        toks[i + 5] == TokenView::Dir(ld, Directive::EndIf),
        0 <= la <= usize::MAX,
        0 <= lb <= usize::MAX,
    ensures
        ({
            let inner = if !is_defined(env.defs, xb) {
                buf
            } else {
                blank(buf, lb, lc + offset)
            };
            let outer = if is_defined(env.defs, xa) {
                inner
            } else {
                blank(inner, la, ld + offset)
            };
            interpret(reg, env, name, toks, i, buf, offset, fuel) == interpret(
                reg,
                env,
                name,
                toks,
                i + 6,
                outer,
                offset,
                fuel,
            )
        }),
{
    let fa = Frame { kind: Branch::IfDefined, line: la as usize, defined: is_defined(env.defs, xa) };
    let env1 = Env { defs: env.defs, frames: env.frames.push(fa) };
    assert(interpret(reg, env, name, toks, i, buf, offset, fuel) == interpret(
        reg,
        env1,
        name,
        toks,
        i + 2,
        buf,
        offset,
        fuel,
    ));
    law_conditional_block(
        reg,
        env1,
        name,
        toks,
        i + 2,
        buf,
        offset,
        fuel,
        Directive::IfNotDefine,
        xb,
        lb,
        lc,
    );
    assert(env1.frames.drop_last() =~= env.frames);
    assert(Env { defs: env1.defs, frames: env1.frames.drop_last() } == env);
}

/// An inclusion composes the named fragment first, with all its directives,
/// against the session as it stands, and splices the lines of the result in
/// front of the directive line; what the named fragment defined stays defined.
pub proof fn law_include_splices(
    reg: Registry,
    env: Env,
    name: Seq<char>,
    toks: Seq<TokenView>,
    i: int,
    buf: Seq<Seq<char>>,
    offset: int,
    fuel: nat,
    l: int,
    target: Seq<char>,
)
    requires
        0 <= i && i + 2 <= toks.len(),
        toks[i] == TokenView::Dir(l, Directive::Include),
        toks[i + 1] is Str && toks[i + 1]->Str_1 == target,
        fuel > 0,
        compose(reg, env, target, (fuel - 1) as nat).1 is Ok,
    ensures
        ({
            let (env1, r) = compose(reg, env, target, (fuel - 1) as nat);
            let text = r->Ok_0;
            interpret(reg, env, name, toks, i, buf, offset, fuel) == interpret(
                reg,
                env1,
                name,
                toks,
                i + 2,
                splice(buf, l + offset, lines(text)),
                offset + lines(text).len(),
                fuel,
            )
        }),
{
}

/// A fragment whose only directive is one inclusion composes to its own lines
/// with the composed lines of the named fragment spliced in front of the
/// directive line. Applied to the named fragment in turn, this composes chains
/// of inclusions in order.
pub proof fn law_include_fragment(
    reg: Registry,
    env: Env,
    name: Seq<char>,
    fuel: nat,
    l: int,
    l2: int,
    target: Seq<char>,
)
    requires
        lookup(reg, name) is Some,
        tokens_of(lookup(reg, name)->0) == seq![
            TokenView::Dir(l, Directive::Include),
            TokenView::Str(l2, target),
        ],
        fuel > 0,
        compose(reg, env, target, (fuel - 1) as nat).1 is Ok,
    ensures
        ({
            let (env1, r) = compose(reg, env, target, (fuel - 1) as nat);
            compose(reg, env, name, fuel) == (
                env1,
                Ok::<Seq<char>, ErrorView>(
                    join_lines(
                        splice(lines(lookup(reg, name)->0), l, lines(r->Ok_0)),
                    ),
                ),
            )
        }),
{
    let src = lookup(reg, name)->0;
    let toks = tokens_of(src);
    law_include_splices(reg, env, name, toks, 0, lines(src), 0, fuel, l, target);
}

/// Composing a fragment that the registry lacks fails with `ShaderNotFound`
/// naming it.
pub proof fn law_missing_fragment(reg: Registry, env: Env, name: Seq<char>, fuel: nat)
    requires
        lookup(reg, name) is None,
    ensures
        compose(reg, env, name, fuel) == (env, Err::<Seq<char>, ErrorView>(
            ErrorView::ShaderNotFound(name),
        )),
{
}

/// An inclusion of a fragment that the registry lacks fails with
/// `IncludeShaderNotFound`, naming the line, the including fragment and the
/// missing one.
pub proof fn law_missing_include(
    reg: Registry,
    env: Env,
    name: Seq<char>,
    toks: Seq<TokenView>,
    i: int,
    buf: Seq<Seq<char>>,
    offset: int,
    fuel: nat,
    l: int,
    target: Seq<char>,
)
    requires
        0 <= i && i + 2 <= toks.len(),
        toks[i] == TokenView::Dir(l, Directive::Include),
        toks[i + 1] is Str && toks[i + 1]->Str_1 == target,
        fuel > 0,
        lookup(reg, target) is None,
    ensures
        interpret(reg, env, name, toks, i, buf, offset, fuel) == (
            env,
            Err::<Seq<Seq<char>>, ErrorView>(ErrorView::IncludeShaderNotFound(l, name, target)),
        ),
{
    assert(compose(reg, env, target, (fuel - 1) as nat) == (
        env,
        Err::<Seq<char>, ErrorView>(ErrorView::ShaderNotFound(target)),
    ));
}

/// An `endif` with no open block fails with `IfTokenNotFound`, naming its line
/// and fragment.
pub proof fn law_unbalanced_endif(
    reg: Registry,
    env: Env,
    name: Seq<char>,
    toks: Seq<TokenView>,
    i: int,
    buf: Seq<Seq<char>>,
    offset: int,
    fuel: nat,
    l: int,
)
    requires
        0 <= i < toks.len(),
        toks[i] == TokenView::Dir(l, Directive::EndIf),
        env.frames.len() == 0,
    ensures
        interpret(reg, env, name, toks, i, buf, offset, fuel) == (
            env,
            Err::<Seq<Seq<char>>, ErrorView>(ErrorView::IfTokenNotFound(l, name)),
        ),
{
}

} // verus!
