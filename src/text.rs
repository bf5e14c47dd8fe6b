use vstd::prelude::*;

verus! {

// ---------------------------------------------------------------------------
// Mathematical model of text: characters, lines and pieces
// ---------------------------------------------------------------------------

/// The character sequences held by a sequence of character vectors.
pub open spec fn views(ls: Seq<Vec<char>>) -> Seq<Seq<char>> {
    ls.map_values(|v: Vec<char>| v@)
}

/// Unicode `White_Space`, which is what `char::is_whitespace` tests.
pub open spec fn is_space(c: char) -> bool {
    let u = c as u32;
    (0x09 <= u <= 0x0d) || u == 0x20 || u == 0x85 || u == 0xa0 || u == 0x1680 || (0x2000 <= u
        <= 0x200a) || u == 0x2028 || u == 0x2029 || u == 0x202f || u == 0x205f || u == 0x3000
}

/// `s` without its leading whitespace.
pub open spec fn trim_start(s: Seq<char>) -> Seq<char>
    decreases s.len(),
{
    if s.len() > 0 && is_space(s[0]) {
        trim_start(s.drop_first())
    } else {
        s
    }
}

/// `s` without its trailing whitespace.
pub open spec fn trim_end(s: Seq<char>) -> Seq<char>
    decreases s.len(),
{
    if s.len() > 0 && is_space(s.last()) {
        trim_end(s.drop_last())
    } else {
        s
    }
}

/// The pieces of `s` between occurrences of `sep`: one more piece than there
/// are separators, empty pieces included.
pub open spec fn split_on(s: Seq<char>, sep: char) -> Seq<Seq<char>>
    decreases s.len(),
{
    if s.len() == 0 {
        seq![Seq::<char>::empty()]
    } else {
        let rest = split_on(s.drop_last(), sep);
        if s.last() == sep {
            rest.push(Seq::<char>::empty())
        } else {
            rest.update(rest.len() - 1, rest.last().push(s.last()))
        }
    }
}

/// A line with one trailing carriage return removed, if it has one.
pub open spec fn strip_cr(l: Seq<char>) -> Seq<char> {
    if l.len() > 0 && l.last() == '\r' {
        l.drop_last()
    } else {
        l
    }
}

/// The lines of `s`: split at `\n`, a `\r` before a `\n` belongs to the line
/// ending, and a final line ending is optional (no empty last line follows it).
pub open spec fn lines(s: Seq<char>) -> Seq<Seq<char>> {
    let parts = split_on(s, '\n');
    let ended = parts.drop_last().map_values(|l: Seq<char>| strip_cr(l));
    if parts.last().len() == 0 {
        ended
    } else {
        ended.push(parts.last())
    }
}

/// The lines `ls` joined with a `\n` between each two of them.
pub open spec fn join_lines(ls: Seq<Seq<char>>) -> Seq<char>
    decreases ls.len(),
{
    if ls.len() == 0 {
        Seq::<char>::empty()
    } else if ls.len() == 1 {
        ls[0]
    } else {
        join_lines(ls.drop_last()) + seq!['\n'] + ls.last()
    }
}

/// `s` with `v` before each of its characters and at its end: replacing the
/// empty pattern, which matches at every character boundary.
pub open spec fn interleave(s: Seq<char>, v: Seq<char>) -> Seq<char>
    decreases s.len(),
{
    if s.len() == 0 {
        v
    } else {
        v + seq![s[0]] + interleave(s.drop_first(), v)
    }
}

/// `s` with every occurrence of `p` replaced by `v`, the occurrences taken
/// from left to right without overlap.
pub open spec fn replace_all(s: Seq<char>, p: Seq<char>, v: Seq<char>) -> Seq<char>
    decreases s.len(),
{
    if p.len() == 0 {
        interleave(s, v)
    } else if s.len() < p.len() {
        s
    } else if s.take(p.len() as int) == p {
        v + replace_all(s.skip(p.len() as int), p, v)
    } else {
        seq![s[0]] + replace_all(s.drop_first(), p, v)
    }
}

/// `s` without its double-quote characters.
pub open spec fn remove_quotes(s: Seq<char>) -> Seq<char> {
    s.filter(|c: char| c != '"')
}

// ---------------------------------------------------------------------------
// Facts about the model
// ---------------------------------------------------------------------------

/// Splitting and joining again at one separator gives back the text.
pub proof fn lemma_join_split(s: Seq<char>)
    ensures
        join_lines(split_on(s, '\n')) == s,
        split_on(s, '\n').len() >= 1,
    decreases s.len(),
{
    if s.len() > 0 {
        lemma_join_split(s.drop_last());
        let rest = split_on(s.drop_last(), '\n');
        if s.last() == '\n' {
            assert(rest.push(Seq::<char>::empty()).drop_last() =~= rest);
            assert(s =~= s.drop_last() + seq!['\n'] + Seq::<char>::empty());
        } else {
            let upd = rest.update(rest.len() - 1, rest.last().push(s.last()));
            if rest.len() == 1 {
                assert(s =~= rest[0].push(s.last()));
            } else {
                assert(upd.drop_last() =~= rest.drop_last());
                assert(join_lines(rest) == join_lines(rest.drop_last()) + seq!['\n'] + rest.last());
                assert(s =~= s.drop_last().push(s.last()));
                assert(s =~= join_lines(rest.drop_last()) + seq!['\n'] + rest.last().push(
                    s.last(),
                ));
            }
        }
    }
}

/// A character that the text does not hold is in no piece of its split.
pub proof fn lemma_split_avoids(s: Seq<char>, sep: char, c: char)
    requires
        forall|m: int| 0 <= m < s.len() ==> s[m] != c,
    ensures
        forall|k: int, j: int|
            0 <= k < split_on(s, sep).len() && 0 <= j < split_on(s, sep)[k].len() ==> #[trigger] split_on(s, sep)[k][j] != c,
    decreases s.len(),
{
    if s.len() > 0 {
        lemma_split_avoids(s.drop_last(), sep, c);
        lemma_split_len(s.drop_last(), sep);
    }
}

/// Text without carriage returns and without a final line ending is its lines
/// joined again.
pub proof fn lemma_join_lines(s: Seq<char>)
    requires
        forall|k: int| 0 <= k < s.len() ==> s[k] != '\r',
        s.len() == 0 || s.last() != '\n',
    ensures
        join_lines(lines(s)) == s,
{
    lemma_join_split(s);
    lemma_split_avoids(s, '\n', '\r');
    let parts = split_on(s, '\n');
    assert forall|k: int| 0 <= k < parts.len() implies strip_cr(#[trigger] parts[k])
        == parts[k] by {
        if parts[k].len() > 0 {
            assert(parts[k][parts[k].len() - 1] != '\r');
        }
    }
    assert(parts.drop_last().map_values(|l: Seq<char>| strip_cr(l)) =~= parts.drop_last());
    if s.len() == 0 {
        assert(lines(s) =~= Seq::<Seq<char>>::empty());
    } else {
        lemma_split_last(s, '\n');
        assert(parts.drop_last().push(parts.last()) =~= parts);
    }
}

/// The last piece of a split of a text that does not end with the separator
/// is not empty.
pub proof fn lemma_split_last(s: Seq<char>, sep: char)
    requires
        s.len() > 0,
        s.last() != sep,
    ensures
        split_on(s, sep).last().len() > 0,
{
    lemma_split_len(s.drop_last(), sep);
}

/// A split has at least one piece.
pub proof fn lemma_split_len(s: Seq<char>, sep: char)
    ensures
        split_on(s, sep).len() >= 1,
    decreases s.len(),
{
    if s.len() > 0 {
        lemma_split_len(s.drop_last(), sep);
    }
}

// ---------------------------------------------------------------------------
// Executable text operations
// ---------------------------------------------------------------------------

/// The characters of `s`, in order.
pub fn chars_of(s: &str) -> (r: Vec<char>)
    ensures
        r@ == s@,
{
    let mut r: Vec<char> = Vec::new();
    for c in it: s.chars()
        invariant
            r@ == it.seq().take(it.index() as int),
    {
        r.push(c);
    }
    r
}

/// Relies on `String`'s `FromIterator<char>` (through `Iterator::collect`): the
/// string of exactly these characters, in order.
#[verifier::external_body]
pub(crate) fn string_of(v: &Vec<char>) -> (r: String)
    ensures
        r@ == v@,
{
    v.iter().collect()
}

/// Whether `c` is whitespace.
pub fn is_space_char(c: char) -> (r: bool)
    ensures
        r == is_space(c),
{
    let u = c as u32;
    (0x09 <= u && u <= 0x0d) || u == 0x20 || u == 0x85 || u == 0xa0 || u == 0x1680 || (0x2000
        <= u && u <= 0x200a) || u == 0x2028 || u == 0x2029 || u == 0x202f || u == 0x205f || u
        == 0x3000
}

/// `s` without its leading whitespace.
pub fn trim_start_chars(s: &Vec<char>) -> (r: Vec<char>)
    ensures
        r@ == trim_start(s@),
{
    let mut start: usize = 0;
    assert(s@.skip(0) =~= s@);
    while start < s.len() && is_space_char(s[start])
        invariant
            start <= s.len(),
            trim_start(s@) == trim_start(s@.skip(start as int)),
        decreases s.len() - start,
    {
        assert(s@.skip(start as int).drop_first() =~= s@.skip(start + 1));
        start += 1;
    }
    let mut r: Vec<char> = Vec::new();
    let mut i: usize = start;
    while i < s.len()
        invariant
            start <= i <= s.len(),
            r@ == s@.subrange(start as int, i as int),
        decreases s.len() - i,
    {
        r.push(s[i]);
        i += 1;
    }
    assert(r@ =~= s@.skip(start as int));
    r
}

/// `s` without its trailing whitespace.
pub fn trim_end_chars(s: &Vec<char>) -> (r: Vec<char>)
    ensures
        r@ == trim_end(s@),
{
    let mut end: usize = s.len();
    assert(s@.take(s.len() as int) =~= s@);
    while end > 0 && is_space_char(s[end - 1])
        invariant
            end <= s.len(),
            trim_end(s@) == trim_end(s@.take(end as int)),
        decreases end,
    {
        assert(s@.take(end as int).drop_last() =~= s@.take(end - 1));
        end -= 1;
    }
    let mut r: Vec<char> = Vec::new();
    let mut i: usize = 0;
    while i < end
        invariant
            i <= end <= s.len(),
            r@ == s@.take(i as int),
        decreases end - i,
    {
        r.push(s[i]);
        assert(s@.take(i + 1) =~= s@.take(i as int).push(s@[i as int]));
        i += 1;
    }
    r
}

/// Whether `a` and `b` hold the same characters.
pub fn same_chars(a: &Vec<char>, b: &Vec<char>) -> (r: bool)
    ensures
        r == (a@ == b@),
{
    if a.len() != b.len() {
        return false;
    }
    let r = occurs_at(a, b, 0);
    assert(a@.subrange(0, b.len() as int) =~= a@);
    r
}

/// The pieces of `s` between occurrences of `sep`.
pub fn split_chars(s: &Vec<char>, sep: char) -> (r: Vec<Vec<char>>)
    ensures
        views(r@) == split_on(s@, sep),
{
    let mut r: Vec<Vec<char>> = Vec::new();
    let mut cur: Vec<char> = Vec::new();
    let mut i: usize = 0;
    assert(s@.take(0) =~= Seq::<char>::empty());
    assert(views(r@).push(cur@) =~= seq![Seq::<char>::empty()]);
    while i < s.len()
        invariant
            i <= s.len(),
            views(r@).push(cur@) == split_on(s@.take(i as int), sep),
        decreases s.len() - i,
    {
        let c = s[i];
        let ghost before = views(r@).push(cur@);
        assert(s@.take(i + 1).drop_last() =~= s@.take(i as int));
        if c == sep {
            r.push(cur);
            cur = Vec::new();
            assert(views(r@).push(cur@) =~= before.push(Seq::<char>::empty()));
        } else {
            cur.push(c);
            assert(views(r@).push(cur@) =~= before.update(
                before.len() - 1,
                before.last().push(c),
            ));
        }
        i += 1;
    }
    assert(s@.take(s.len() as int) =~= s@);
    let ghost before = views(r@);
    r.push(cur);
    assert(views(r@) =~= before.push(cur@));
    r
}

/// The lines of `s`, as `str::lines` gives them.
pub fn lines_of(s: &Vec<char>) -> (r: Vec<Vec<char>>)
    ensures
        views(r@) == lines(s@),
{
    let mut r: Vec<Vec<char>> = Vec::new();
    let mut cur: Vec<char> = Vec::new();
    let mut i: usize = 0;
    assert(s@.take(0) =~= Seq::<char>::empty());
    while i < s.len()
        invariant
            i <= s.len(),
            views(r@) == split_on(s@.take(i as int), '\n').drop_last().map_values(
                |l: Seq<char>| strip_cr(l),
            ),
            cur@ == split_on(s@.take(i as int), '\n').last(),
        decreases s.len() - i,
    {
        let c = s[i];
        let ghost parts = split_on(s@.take(i as int), '\n');
        proof {
            lemma_split_len(s@.take(i as int), '\n');
        }
        assert(s@.take(i + 1).drop_last() =~= s@.take(i as int));
        if c == '\n' {
            let n = cur.len();
            if n > 0 && cur[n - 1] == '\r' {
                cur.pop();
            }
            let ghost before = views(r@);
            r.push(cur);
            cur = Vec::new();
            assert(parts.push(Seq::<char>::empty()).drop_last() =~= parts);
            assert(views(r@) =~= before.push(strip_cr(parts.last())));
            assert(parts.drop_last().map_values(|l: Seq<char>| strip_cr(l)).push(
                strip_cr(parts.last()),
            ) =~= parts.map_values(|l: Seq<char>| strip_cr(l)));
        } else {
            cur.push(c);
            let ghost upd = parts.update(parts.len() - 1, parts.last().push(c));
            assert(upd.drop_last() =~= parts.drop_last());
        }
        i += 1;
    }
    assert(s@.take(s.len() as int) =~= s@);
    if cur.len() > 0 {
        r.push(cur);
    }
    assert(views(r@) =~= lines(s@));
    r
}

/// The lines `ls` joined with a `\n` between each two of them.
pub fn join_all(ls: &Vec<Vec<char>>) -> (r: Vec<char>)
    ensures
        r@ == join_lines(views(ls@)),
{
    let mut r: Vec<char> = Vec::new();
    let mut k: usize = 0;
    assert(views(ls@).take(0) =~= Seq::<Seq<char>>::empty());
    while k < ls.len()
        invariant
            k <= ls.len(),
            r@ == join_lines(views(ls@).take(k as int)),
        decreases ls.len() - k,
    {
        let line = &ls[k];
        if k > 0 {
            r.push('\n');
        }
        let mut j: usize = 0;
        let ghost start = r@;
        while j < line.len()
            invariant
                j <= line.len(),
                r@ == start + line@.take(j as int),
            decreases line.len() - j,
        {
            r.push(line[j]);
            j += 1;
        }
        assert(line@.take(line.len() as int) =~= line@);
        assert(views(ls@).take(k + 1).drop_last() =~= views(ls@).take(k as int));
        if k == 0 {
            assert(r@ =~= join_lines(views(ls@).take(1)));
        }
        k += 1;
    }
    assert(views(ls@).take(ls.len() as int) =~= views(ls@));
    r
}

/// Appends the characters of `v` to `r`.
pub fn push_all(r: &mut Vec<char>, v: &Vec<char>)
    ensures
        final(r)@ == old(r)@ + v@,
{
    let mut j: usize = 0;
    while j < v.len()
        invariant
            j <= v.len(),
            r@ == old(r)@ + v@.take(j as int),
        decreases v.len() - j,
    {
        r.push(v[j]);
        j += 1;
    }
    assert(v@.take(v.len() as int) =~= v@);
}

/// Whether `p` occurs in `s` at position `at`.
pub fn occurs_at(s: &Vec<char>, p: &Vec<char>, at: usize) -> (r: bool)
    requires
        at + p.len() <= s.len(),
    ensures
        r == (s@.subrange(at as int, at + p.len()) == p@),
{
    let mut j: usize = 0;
    while j < p.len()
        invariant
            j <= p.len(),
            at + p.len() <= s.len(),
            forall|m: int| 0 <= m < j ==> s@[at + m] == p@[m],
        decreases p.len() - j,
    {
        if s[at + j] != p[j] {
            assert(s@.subrange(at as int, at + p.len())[j as int] != p@[j as int]);
            return false;
        }
        j += 1;
    }
    assert(s@.subrange(at as int, at + p.len()) =~= p@);
    true
}

/// `s` with every occurrence of `p` replaced by `v`, as `str::replace` does.
pub fn replace_chars(s: &Vec<char>, p: &Vec<char>, v: &Vec<char>) -> (r: Vec<char>)
    ensures
        r@ == replace_all(s@, p@, v@),
{
    let mut r: Vec<char> = Vec::new();
    let mut i: usize = 0;
    if p.len() == 0 {
        assert(s@.skip(0) =~= s@);
        while i < s.len()
            invariant
                i <= s.len(),
                p@.len() == 0,
                r@ + interleave(s@.skip(i as int), v@) == replace_all(s@, p@, v@),
            decreases s.len() - i,
        {
            let ghost rest = s@.skip(i as int);
            assert(rest.drop_first() =~= s@.skip(i + 1));
            let ghost r0 = r@;
            push_all(&mut r, v);
            r.push(s[i]);
            assert(interleave(rest, v@) == v@ + seq![rest[0]] + interleave(rest.drop_first(), v@));
            assert(r@ + interleave(s@.skip(i + 1), v@) =~= r0 + interleave(rest, v@));
            i += 1;
        }
        push_all(&mut r, v);
        assert(s@.skip(s.len() as int) =~= Seq::<char>::empty());
        return r;
    }
    assert(s@.skip(0) =~= s@);
    while i < s.len()
        invariant
            i <= s.len(),
            p@.len() > 0,
            r@ + replace_all(s@.skip(i as int), p@, v@) == replace_all(s@, p@, v@),
        decreases s.len() - i,
    {
        let ghost rest = s@.skip(i as int);
        if p.len() <= s.len() - i && occurs_at(s, p, i) {
            assert(rest.take(p.len() as int) =~= s@.subrange(i as int, i + p.len()));
            assert(rest.skip(p.len() as int) =~= s@.skip(i + p.len()));
            let ghost r0 = r@;
            push_all(&mut r, v);
            assert(r0 + (v@ + replace_all(s@.skip(i + p.len()), p@, v@)) =~= r@ + replace_all(
                s@.skip(i + p.len()),
                p@,
                v@,
            ));
            i += p.len();
        } else {
            if p.len() <= s.len() - i {
                assert(rest.take(p.len() as int) =~= s@.subrange(i as int, i + p.len()));
            }
            assert(rest.drop_first() =~= s@.skip(i + 1));
            let ghost r0 = r@;
            r.push(s[i]);
            assert(r0 + (seq![s@[i as int]] + replace_all(s@.skip(i + 1), p@, v@)) =~= r@
                + replace_all(s@.skip(i + 1), p@, v@));
            i += 1;
        }
    }
    assert(s@.skip(s.len() as int) =~= Seq::<char>::empty());
    r
}

/// `s` without its double-quote characters.
pub fn without_quotes(s: &Vec<char>) -> (r: Vec<char>)
    ensures
        r@ == remove_quotes(s@),
{
    let mut r: Vec<char> = Vec::new();
    let mut i: usize = 0;
    assert(s@.take(0) =~= Seq::<char>::empty());
    while i < s.len()
        invariant
            i <= s.len(),
            r@ == remove_quotes(s@.take(i as int)),
        decreases s.len() - i,
    {
        let ghost t = s@.take(i + 1);
        assert(t.drop_last() =~= s@.take(i as int));
        reveal(Seq::filter);
        assert(remove_quotes(t) == if t.last() != '"' {
            remove_quotes(t.drop_last()).push(t.last())
        } else {
            remove_quotes(t.drop_last())
        });
        if s[i] != '"' {
            r.push(s[i]);
        }
        i += 1;
    }
    assert(s@.take(s.len() as int) =~= s@);
    r
}

} // verus!
