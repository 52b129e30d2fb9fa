//! What the content handlers share: turning a request path into a relative
//! path that cannot leave the served directory, and joining paths.
use vstd::prelude::*;
use crate::text::{chars_of, string_from_chars, push_chars, take_until, split_char};

pub mod samicpp;
pub mod simple;

verus! {

// ---------------------------------------------------------------------------
// Model of request path sanitising
// ---------------------------------------------------------------------------

/// A character that ends the path part of a request target (`:`, `?`, `#`).
pub open spec fn is_path_end(c: char) -> bool {
    c == ':' || c == '?' || c == '#'
}

/// Backslashes read as slashes.
pub open spec fn with_slashes(s: Seq<char>) -> Seq<char> {
    s.map_values(|c: char| if c == '\\' { '/' } else { c })
}

/// The part of a request target that names a file: backslashes read as
/// slashes, cut before the first `:`, `?` or `#`.
pub open spec fn path_part(s: Seq<char>) -> Seq<char> {
    take_until(with_slashes(s), |c: char| is_path_end(c))
}

/// The pieces of `s` between slashes (one empty piece for an empty `s`).
pub open spec fn split_slashes(s: Seq<char>) -> Seq<Seq<char>> {
    split_char(s, '/')
}

/// The component `.`.
pub open spec fn dot() -> Seq<char> {
    seq!['.']
}

/// The component `..`.
pub open spec fn dot_dot() -> Seq<char> {
    seq!['.', '.']
}

/// One piece applied to a stack of components: empty pieces and `.` are
/// skipped, `..` drops the last component (if any), any other piece is pushed.
pub open spec fn resolve_step(stack: Seq<Seq<char>>, piece: Seq<char>) -> Seq<Seq<char>> {
    if piece.len() == 0 || piece == dot() {
        stack
    } else if piece == dot_dot() {
        if stack.len() > 0 { stack.drop_last() } else { stack }
    } else {
        stack.push(piece)
    }
}

/// The components left after applying every piece in order to an empty stack.
pub open spec fn resolve_pieces(pieces: Seq<Seq<char>>) -> Seq<Seq<char>>
    decreases pieces.len(),
{
    if pieces.len() == 0 {
        Seq::empty()
    } else {
        resolve_step(resolve_pieces(pieces.drop_last()), pieces.last())
    }
}

/// The components joined with `/`.
pub open spec fn join_slashes(comps: Seq<Seq<char>>) -> Seq<char>
    decreases comps.len(),
{
    if comps.len() == 0 {
        Seq::empty()
    } else if comps.len() == 1 {
        comps[0]
    } else {
        join_slashes(comps.drop_last()).push('/') + comps.last()
    }
}

/// The components of the sanitised path of request target `s`.
pub open spec fn sanitized_components(s: Seq<char>) -> Seq<Seq<char>> {
    resolve_pieces(split_slashes(path_part(s)))
}

/// The sanitised path of request target `s`.
pub open spec fn sanitized(s: Seq<char>) -> Seq<char> {
    join_slashes(sanitized_components(s))
}

/// A component that names an entry inside a directory: not empty, not `.` or
/// `..`, and free of `/`, `\`, `:`, `?` and `#`.
pub open spec fn plain_component(c: Seq<char>) -> bool {
    &&& c.len() > 0
    &&& c != dot()
    &&& c != dot_dot()
    &&& forall|i: int| 0 <= i < c.len() ==> #[trigger] c[i] != '/' && c[i] != '\\' && !is_path_end(c[i])
}

/// `PathBuf::join` on Unix: an absolute second path replaces the first;
/// otherwise a `/` is put between them unless the first is empty or already
/// ends with one.
pub open spec fn joined(base: Seq<char>, p: Seq<char>) -> Seq<char> {
    if p.len() > 0 && p[0] == '/' {
        p
    } else if base.len() == 0 || base.last() == '/' {
        base + p
    } else {
        base.push('/') + p
    }
}

// ---------------------------------------------------------------------------
// Executable code
// ---------------------------------------------------------------------------

/// The path part of a request target, with backslashes read as slashes.
fn path_part_chars(s: &[char]) -> (res: Vec<char>)
    ensures
        res@ == path_part(s@),
{
    let ghost n = with_slashes(s@);
    let ghost stop = |c: char| is_path_end(c);
    let mut out: Vec<char> = Vec::new();
    let mut i: usize = 0;
    assert(n.skip(0) == n);
    while i < s.len()
        invariant
            i <= s.len(),
            n == with_slashes(s@),
            stop == (|c: char| is_path_end(c)),
            out@ + take_until(n.skip(i as int), stop) == take_until(n, stop),
        decreases s.len() - i,
    {
        let c = s[i];
        let ghost rest = n.skip(i as int);
        assert(rest[0] == (if c == '\\' { '/' } else { c }));
        if c == ':' || c == '?' || c == '#' {
            assert(take_until(rest, stop) == Seq::<char>::empty());
            assert(out@ + Seq::<char>::empty() == out@);
            return out;
        }
        let d = if c == '\\' { '/' } else { c };
        let ghost before = out@;
        out.push(d);
        assert(rest.skip(1) == n.skip(i + 1));
        assert(out@ + take_until(n.skip(i + 1), stop) =~= before + take_until(rest, stop));
        i = i + 1;
    }
    assert(n.skip(s.len() as int) =~= Seq::<char>::empty());
    assert(out@ + Seq::<char>::empty() == out@);
    out
}

/// Whether a piece is `.`.
fn is_dot(p: &[char]) -> (res: bool)
    ensures
        res == (p@ == dot()),
{
    if p.len() == 1 && p[0] == '.' {
        assert(p@ =~= dot());
        true
    } else {
        false
    }
}

/// Whether a piece is `..`.
fn is_dot_dot(p: &[char]) -> (res: bool)
    ensures
        res == (p@ == dot_dot()),
{
    if p.len() == 2 && p[0] == '.' && p[1] == '.' {
        assert(p@ =~= dot_dot());
        true
    } else {
        false
    }
}

/// The views of a stack of components.
pub open spec fn views(v: Seq<Vec<char>>) -> Seq<Seq<char>> {
    v.map_values(|c: Vec<char>| c@)
}

/// Applies one piece to the stack.
fn apply_piece(stack: &mut Vec<Vec<char>>, piece: Vec<char>)
    ensures
        views(final(stack)@) == resolve_step(views(old(stack)@), piece@),
{
    let ghost before = views(stack@);
    if piece.len() == 0 || is_dot(piece.as_slice()) {
    } else if is_dot_dot(piece.as_slice()) {
        if stack.len() > 0 {
            stack.pop();
            assert(views(stack@) =~= before.drop_last());
        }
    } else {
        stack.push(piece);
        assert(views(stack@) =~= before.push(piece@));
    }
}

/// The components of the sanitised path of a request target.
fn sanitize_components(path: &str) -> (res: Vec<Vec<char>>)
    ensures
        views(res@) == sanitized_components(path@),
{
    let cs = chars_of(path);
    let p = path_part_chars(cs.as_slice());
    let mut stack: Vec<Vec<char>> = Vec::new();
    let mut cur: Vec<char> = Vec::new();
    let mut i: usize = 0;
    assert(p@.take(0) =~= Seq::<char>::empty());
    assert(views(stack@) =~= resolve_pieces(split_slashes(p@.take(0)).drop_last()));
    while i < p.len()
        invariant
            i <= p.len(),
            split_slashes(p@.take(i as int)).len() >= 1,
            views(stack@) == resolve_pieces(split_slashes(p@.take(i as int)).drop_last()),
            cur@ == split_slashes(p@.take(i as int)).last(),
        decreases p.len() - i,
    {
        let c = p[i];
        let ghost pre = p@.take(i as int);
        let ghost next = p@.take(i + 1);
        assert(next.drop_last() == pre);
        assert(next.last() == c);
        let ghost sp = split_slashes(pre);
        if c == '/' {
            let piece = cur;
            cur = Vec::new();
            apply_piece(&mut stack, piece);
            assert(split_slashes(next) == sp.push(Seq::<char>::empty()));
            assert(split_slashes(next).drop_last() =~= sp);
            assert(sp =~= sp.drop_last().push(sp.last()));
            assert(resolve_pieces(sp) == resolve_step(resolve_pieces(sp.drop_last()), sp.last()));
        } else {
            cur.push(c);
            assert(split_slashes(next) == sp.update(sp.len() - 1, sp.last().push(c)));
            assert(split_slashes(next).drop_last() =~= sp.drop_last());
        }
        i = i + 1;
    }
    assert(p@.take(p.len() as int) == p@);
    let ghost sp = split_slashes(p@);
    assert(sp =~= sp.drop_last().push(sp.last()));
    apply_piece(&mut stack, cur);
    stack
}

/// The relative path that a request target names: backslashes read as
/// slashes, everything from the first `:`, `?` or `#` dropped, empty and `.`
/// components skipped, and each `..` removing the component before it (never
/// going above the start). The components are joined with `/`.
pub fn sanitize_path(path: &str) -> (res: String)
    ensures
        res@ == sanitized(path@),
{
    let comps = sanitize_components(path);
    let ghost vs = views(comps@);
    let mut out = String::new();
    let mut k: usize = 0;
    while k < comps.len()
        invariant
            k <= comps.len(),
            vs == views(comps@),
            out@ == join_slashes(vs.take(k as int)),
        decreases comps.len() - k,
    {
        let ghost before = out@;
        if k > 0 {
            string_push_slash(&mut out);
        }
        push_chars(&mut out, comps[k].as_slice());
        proof {
            let t = vs.take(k + 1);
            assert(t.drop_last() =~= vs.take(k as int));
            assert(t.last() == comps@[k as int]@);
            if k == 0 {
                assert(t.len() == 1);
            }
        }
        k = k + 1;
    }
    assert(vs.take(comps.len() as int) =~= vs);
    out
}

/// Appends a `/`.
fn string_push_slash(s: &mut String)
    ensures
        final(s)@ == old(s)@.push('/'),
{
    crate::text::string_push(s, '/');
}

/// `Path::new(base).join(p)` on Unix, as text.
pub fn path_join(base: &str, p: &str) -> (res: String)
    ensures
        res@ == joined(base@, p@),
{
    let b = chars_of(base);
    let q = chars_of(p);
    if q.len() > 0 && q[0] == '/' {
        return string_from_chars(q.as_slice());
    }
    let mut out = string_from_chars(b.as_slice());
    if b.len() > 0 && b[b.len() - 1] != '/' {
        string_push_slash(&mut out);
    }
    push_chars(&mut out, q.as_slice());
    out
}

// ---------------------------------------------------------------------------
// Laws of sanitising
// ---------------------------------------------------------------------------

/// A character that may stand inside a plain component.
pub open spec fn plain_char(c: char) -> bool {
    c != '/' && c != '\\' && !is_path_end(c)
}

/// Every character of `s` may stand inside a plain component, `/` aside.
pub open spec fn only_path_chars(s: Seq<char>) -> bool {
    forall|i: int| 0 <= i < s.len() ==> #[trigger] s[i] == '/' || plain_char(s[i])
}

proof fn lemma_path_part_chars(s: Seq<char>)
    ensures
        only_path_chars(path_part(s)),
    decreases s.len(),
{
    lemma_take_until_slashes(with_slashes(s));
}

proof fn lemma_take_until_slashes(n: Seq<char>)
    requires
        forall|i: int| 0 <= i < n.len() ==> #[trigger] n[i] != '\\',
    ensures
        only_path_chars(take_until(n, |c: char| is_path_end(c))),
    decreases n.len(),
{
    let stop = |c: char| is_path_end(c);
    if n.len() > 0 && !stop(n[0]) {
        assert forall|i: int| 0 <= i < n.skip(1).len() implies #[trigger] n.skip(1)[i] != '\\' by {
            assert(n.skip(1)[i] == n[i + 1]);
        }
        lemma_take_until_slashes(n.skip(1));
        let r = take_until(n.skip(1), stop);
        assert(take_until(n, stop) == seq![n[0]] + r);
        assert forall|i: int| 0 <= i < (seq![n[0]] + r).len() implies #[trigger] (seq![n[0]] + r)[i] == '/' || plain_char((seq![n[0]] + r)[i]) by {
            if i > 0 {
                assert((seq![n[0]] + r)[i] == r[i - 1]);
            }
        }
    }
}

/// Every piece between slashes of a text made of path characters is made of
/// plain characters.
proof fn lemma_split_pieces_plain(x: Seq<char>)
    requires
        only_path_chars(x),
    ensures
        forall|k: int| 0 <= k < split_slashes(x).len() ==>
            forall|i: int| 0 <= i < (#[trigger] split_slashes(x)[k]).len() ==> plain_char(#[trigger] split_slashes(x)[k][i]),
        split_slashes(x).len() >= 1,
    decreases x.len(),
{
    if x.len() > 0 {
        assert forall|i: int| 0 <= i < x.drop_last().len() implies #[trigger] x.drop_last()[i] == '/' || plain_char(x.drop_last()[i]) by {
            assert(x.drop_last()[i] == x[i]);
        }
        lemma_split_pieces_plain(x.drop_last());
        let r = split_slashes(x.drop_last());
        if x.last() != '/' {
            assert(plain_char(x[x.len() - 1]));
            let s = split_slashes(x);
            assert forall|k: int| 0 <= k < s.len() implies
                forall|i: int| 0 <= i < (#[trigger] s[k]).len() ==> plain_char(#[trigger] s[k][i]) by {
                if k == s.len() - 1 {
                    assert forall|i: int| 0 <= i < s[k].len() implies plain_char(#[trigger] s[k][i]) by {
                        if i < r.last().len() {
                            assert(s[k][i] == r.last()[i]);
                            assert(r.last() == r[r.len() - 1]);
                        }
                    }
                } else {
                    assert(s[k] == r[k]);
                }
            }
        } else {
            let s = split_slashes(x);
            assert forall|k: int| 0 <= k < s.len() implies
                forall|i: int| 0 <= i < (#[trigger] s[k]).len() ==> plain_char(#[trigger] s[k][i]) by {
                if k < s.len() - 1 {
                    assert(s[k] == r[k]);
                }
            }
        }
    }
}

/// Resolving pieces made of plain characters leaves plain components only.
proof fn lemma_resolve_plain(pieces: Seq<Seq<char>>)
    requires
        forall|k: int| 0 <= k < pieces.len() ==>
            forall|i: int| 0 <= i < (#[trigger] pieces[k]).len() ==> plain_char(#[trigger] pieces[k][i]),
    ensures
        forall|k: int| 0 <= k < resolve_pieces(pieces).len() ==> plain_component(#[trigger] resolve_pieces(pieces)[k]),
    decreases pieces.len(),
{
    if pieces.len() > 0 {
        let init = pieces.drop_last();
        assert forall|k: int| 0 <= k < init.len() implies
            forall|i: int| 0 <= i < (#[trigger] init[k]).len() ==> plain_char(#[trigger] init[k][i]) by {
            assert(init[k] == pieces[k]);
        }
        lemma_resolve_plain(init);
        let r = resolve_pieces(init);
        let g = pieces.last();
        assert(g == pieces[pieces.len() - 1]);
        let out = resolve_step(r, g);
        assert forall|k: int| 0 <= k < out.len() implies plain_component(#[trigger] out[k]) by {
            if k < r.len() {
                assert(out[k] == r[k]);
            } else {
                assert(out[k] == g);
            }
        }
    }
}

/// No component of a sanitised path is empty, `.` or `..`, and none holds a
/// separator or a `:`, `?` or `#`: the path cannot climb out of the directory
/// it is joined to.
pub proof fn lemma_sanitized_components_plain(s: Seq<char>)
    ensures
        forall|k: int| 0 <= k < sanitized_components(s).len() ==> plain_component(#[trigger] sanitized_components(s)[k]),
{
    lemma_path_part_chars(s);
    lemma_split_pieces_plain(path_part(s));
    lemma_resolve_plain(split_slashes(path_part(s)));
}

/// A sanitised path is relative: it never starts with `/`.
pub proof fn lemma_sanitized_relative(s: Seq<char>)
    ensures
        sanitized(s).len() > 0 ==> sanitized(s)[0] != '/',
{
    lemma_sanitized_components_plain(s);
    let comps = sanitized_components(s);
    if comps.len() > 0 {
        lemma_join_first(comps);
    }
}

proof fn lemma_join_first(comps: Seq<Seq<char>>)
    requires
        comps.len() > 0,
        forall|k: int| 0 <= k < comps.len() ==> plain_component(#[trigger] comps[k]),
    ensures
        join_slashes(comps).len() > 0,
        join_slashes(comps)[0] == comps[0][0],
    decreases comps.len(),
{
    if comps.len() > 1 {
        let init = comps.drop_last();
        assert forall|k: int| 0 <= k < init.len() implies plain_component(#[trigger] init[k]) by {
            assert(init[k] == comps[k]);
        }
        lemma_join_first(init);
    }
}

/// The characters of joined plain components are plain characters or `/`.
proof fn lemma_join_chars(comps: Seq<Seq<char>>)
    requires
        forall|k: int| 0 <= k < comps.len() ==> plain_component(#[trigger] comps[k]),
    ensures
        only_path_chars(join_slashes(comps)),
    decreases comps.len(),
{
    if comps.len() == 1 {
        assert(plain_component(comps[0]));
    } else if comps.len() > 1 {
        let init = comps.drop_last();
        assert forall|k: int| 0 <= k < init.len() implies plain_component(#[trigger] init[k]) by {
            assert(init[k] == comps[k]);
        }
        lemma_join_chars(init);
        let a = join_slashes(init).push('/');
        let b = comps.last();
        assert(plain_component(comps[comps.len() - 1]));
        assert forall|i: int| 0 <= i < (a + b).len() implies #[trigger] (a + b)[i] == '/' || plain_char((a + b)[i]) by {
            if i < a.len() - 1 {
                assert((a + b)[i] == join_slashes(init)[i]);
            } else if i >= a.len() {
                assert((a + b)[i] == b[i - a.len()]);
            }
        }
    }
}

/// Text made of path characters is its own path part.
proof fn lemma_path_part_of_path_chars(x: Seq<char>)
    requires
        only_path_chars(x),
    ensures
        path_part(x) == x,
{
    assert(with_slashes(x) =~= x) by {
        assert forall|i: int| 0 <= i < x.len() implies #[trigger] with_slashes(x)[i] == x[i] by {
            assert(x[i] == '/' || plain_char(x[i]));
        }
    }
    lemma_take_until_none(x);
}

proof fn lemma_take_until_none(x: Seq<char>)
    requires
        forall|i: int| 0 <= i < x.len() ==> !is_path_end(#[trigger] x[i]),
    ensures
        take_until(x, |c: char| is_path_end(c)) == x,
    decreases x.len(),
{
    if x.len() > 0 {
        assert forall|i: int| 0 <= i < x.skip(1).len() implies !is_path_end(#[trigger] x.skip(1)[i]) by {
            assert(x.skip(1)[i] == x[i + 1]);
        }
        lemma_take_until_none(x.skip(1));
        assert(seq![x[0]] + x.skip(1) =~= x);
    }
}

/// A text without slashes is a single piece.
proof fn lemma_split_no_slash(x: Seq<char>)
    requires
        forall|i: int| 0 <= i < x.len() ==> #[trigger] x[i] != '/',
    ensures
        split_slashes(x) == seq![x],
    decreases x.len(),
{
    if x.len() > 0 {
        assert forall|i: int| 0 <= i < x.drop_last().len() implies #[trigger] x.drop_last()[i] != '/' by {
            assert(x.drop_last()[i] == x[i]);
        }
        lemma_split_no_slash(x.drop_last());
        assert(x.drop_last().push(x.last()) =~= x);
        assert(split_slashes(x) =~= seq![x]);
    } else {
        assert(x =~= Seq::<char>::empty());
    }
}

/// Appending slash-free text extends the last piece.
proof fn lemma_split_append(a: Seq<char>, b: Seq<char>)
    requires
        forall|i: int| 0 <= i < b.len() ==> #[trigger] b[i] != '/',
    ensures
        split_slashes(a).len() >= 1,
        split_slashes(a + b) == split_slashes(a).update(split_slashes(a).len() - 1, split_slashes(a).last() + b),
    decreases b.len(),
{
    lemma_split_len(a);
    if b.len() == 0 {
        assert(a + b =~= a);
        let s = split_slashes(a);
        assert(s.last() + b =~= s.last());
        assert(s.update(s.len() - 1, s.last()) =~= s);
    } else {
        let b0 = b.drop_last();
        assert forall|i: int| 0 <= i < b0.len() implies #[trigger] b0[i] != '/' by {
            assert(b0[i] == b[i]);
        }
        lemma_split_append(a, b0);
        assert((a + b).drop_last() =~= a + b0);
        assert((a + b).last() == b.last());
        assert(b.last() != '/');
        lemma_split_len(a + b0);
        let s = split_slashes(a);
        assert((s.last() + b0).push(b.last()) =~= s.last() + b);
        assert(split_slashes(a + b) =~= s.update(s.len() - 1, s.last() + b));
    }
}

proof fn lemma_split_len(a: Seq<char>)
    ensures
        split_slashes(a).len() >= 1,
    decreases a.len(),
{
    if a.len() > 0 {
        lemma_split_len(a.drop_last());
    }
}

/// Splitting joined plain components gives the components back.
proof fn lemma_split_join(comps: Seq<Seq<char>>)
    requires
        comps.len() >= 1,
        forall|k: int| 0 <= k < comps.len() ==> plain_component(#[trigger] comps[k]),
    ensures
        split_slashes(join_slashes(comps)) == comps,
    decreases comps.len(),
{
    if comps.len() == 1 {
        assert(plain_component(comps[0]));
        lemma_split_no_slash(comps[0]);
        assert(comps =~= seq![comps[0]]);
    } else {
        let init = comps.drop_last();
        assert forall|k: int| 0 <= k < init.len() implies plain_component(#[trigger] init[k]) by {
            assert(init[k] == comps[k]);
        }
        lemma_split_join(init);
        let a = join_slashes(init).push('/');
        let b = comps.last();
        assert(plain_component(comps[comps.len() - 1]));
        lemma_split_append(a, b);
        assert(a.drop_last() =~= join_slashes(init));
        assert(split_slashes(a) == init.push(Seq::<char>::empty()));
        assert(Seq::<char>::empty() + b =~= b);
        assert(split_slashes(a + b) =~= comps);
    }
}

/// Resolving plain components keeps them all.
proof fn lemma_resolve_plain_identity(comps: Seq<Seq<char>>)
    requires
        forall|k: int| 0 <= k < comps.len() ==> plain_component(#[trigger] comps[k]),
    ensures
        resolve_pieces(comps) == comps,
    decreases comps.len(),
{
    if comps.len() > 0 {
        let init = comps.drop_last();
        assert forall|k: int| 0 <= k < init.len() implies plain_component(#[trigger] init[k]) by {
            assert(init[k] == comps[k]);
        }
        lemma_resolve_plain_identity(init);
        assert(plain_component(comps[comps.len() - 1]));
        assert(init.push(comps.last()) =~= comps);
    }
}

/// Sanitising is idempotent: a sanitised path sanitises to itself.
pub proof fn lemma_sanitize_idempotent(s: Seq<char>)
    ensures
        sanitized(sanitized(s)) == sanitized(s),
{
    let comps = sanitized_components(s);
    lemma_sanitized_components_plain(s);
    let j = join_slashes(comps);
    lemma_join_chars(comps);
    lemma_path_part_of_path_chars(j);
    if comps.len() == 0 {
        assert(split_slashes(j) == seq![Seq::<char>::empty()]);
        let one = seq![Seq::<char>::empty()];
        assert(one.drop_last() =~= Seq::<Seq<char>>::empty());
        assert(one.last().len() == 0);
        assert(resolve_pieces(one.drop_last()) =~= Seq::<Seq<char>>::empty());
        assert(resolve_pieces(one) == resolve_step(resolve_pieces(one.drop_last()), one.last()));
        assert(resolve_pieces(one) =~= Seq::<Seq<char>>::empty());
        assert(sanitized_components(j) =~= comps);
    } else {
        lemma_split_join(comps);
        lemma_resolve_plain_identity(comps);
        assert(sanitized_components(j) == comps);
    }
}

} // verus!
