//! Lexical path policy used by trust checks: normalization without touching the
//! filesystem, and containment in a set of roots. Paths use `/` as separator.
use vstd::prelude::*;
use crate::text::{chars_of, push_all, string_of, trim, trim_chars};

verus! {

/// The pieces of `s` between `/` separators (empty pieces included).
pub open spec fn segments(s: Seq<char>) -> Seq<Seq<char>>
    decreases s.len(),
{
    if s.len() == 0 {
        seq![Seq::empty()]
    } else {
        let rest = segments(s.drop_last());
        if s.last() == '/' {
            rest.push(Seq::empty())
        } else {
            rest.update(rest.len() - 1, rest.last().push(s.last()))
        }
    }
}

/// The named components left after resolving `.` and `..` over `segs`; `None` when a
/// `..` would climb above the start.
pub open spec fn resolve_segments(segs: Seq<Seq<char>>) -> Option<Seq<Seq<char>>>
    decreases segs.len(),
{
    if segs.len() == 0 {
        Some(Seq::empty())
    } else {
        match resolve_segments(segs.drop_last()) {
            None => None,
            Some(st) => {
                let p = segs.last();
                if p.len() == 0 || p == "."@ {
                    Some(st)
                } else if p == ".."@ {
                    if st.len() == 0 {
                        None
                    } else {
                        Some(st.drop_last())
                    }
                } else {
                    Some(st.push(p))
                }
            },
        }
    }
}

/// `parts` joined with `/`.
pub open spec fn join_parts(parts: Seq<Seq<char>>) -> Seq<char>
    decreases parts.len(),
{
    if parts.len() == 0 {
        Seq::empty()
    } else if parts.len() == 1 {
        parts[0]
    } else {
        join_parts(parts.drop_last()) + "/"@ + parts.last()
    }
}

/// The path text for a root flag and named components.
pub open spec fn render(absolute: bool, parts: Seq<Seq<char>>) -> Seq<char> {
    if absolute {
        "/"@ + join_parts(parts)
    } else {
        join_parts(parts)
    }
}

/// What `canonicalize_path` returns for `raw`.
pub open spec fn canonical(raw: Seq<char>) -> Result<Seq<char>, Seq<char>> {
    let t = trim(raw);
    if t.len() == 0 {
        Err("empty path"@)
    } else {
        match resolve_segments(segments(t)) {
            None => Err("path escapes above root via '..'"@),
            Some(parts) => if t[0] != '/' && parts.len() == 0 {
                Err("path resolved to empty"@)
            } else {
                Ok(render(t[0] == '/', parts))
            },
        }
    }
}

fn is_dot(p: &Vec<char>) -> (r: bool)
    ensures
        r == (p@ == "."@),
{
    proof {
        reveal_strlit(".");
    }
    p.len() == 1 && p[0] == '.' && {
        assert(p@ =~= "."@);
        true
    }
}

fn is_dot_dot(p: &Vec<char>) -> (r: bool)
    ensures
        r == (p@ == ".."@),
{
    proof {
        reveal_strlit("..");
    }
    if p.len() == 2 && p[0] == '.' && p[1] == '.' {
        assert(p@ =~= ".."@);
        true
    } else {
        false
    }
}

/// Applies one segment to the component stack. Returns false when a `..` has nothing
/// left to pop.
fn apply_segment(stack: &mut Vec<Vec<char>>, seg: Vec<char>) -> (ok: bool)
    ensures
        ({
            let before = old(stack)@.map_values(|v: Vec<char>| v@);
            let after = final(stack)@.map_values(|v: Vec<char>| v@);
            if seg@.len() == 0 || seg@ == "."@ {
                ok && after == before
            } else if seg@ == ".."@ {
                if before.len() == 0 {
                    !ok
                } else {
                    ok && after == before.drop_last()
                }
            } else {
                ok && after == before.push(seg@)
            }
        }),
{
    let ghost before = stack@.map_values(|v: Vec<char>| v@);
    if seg.len() == 0 || is_dot(&seg) {
        return true;
    }
    if is_dot_dot(&seg) {
        if stack.len() == 0 {
            return false;
        }
        stack.pop();
        assert(stack@.map_values(|v: Vec<char>| v@) =~= before.drop_last());
        return true;
    }
    let ghost sv = seg@;
    stack.push(seg);
    assert(stack@.map_values(|v: Vec<char>| v@) =~= before.push(sv));
    true
}

proof fn lemma_segments_len(s: Seq<char>)
    ensures
        segments(s).len() >= 1,
    decreases s.len(),
{
    if s.len() > 0 {
        lemma_segments_len(s.drop_last());
    }
}

/// Normalizes a path lexically (the target need not exist): trims it, drops `.`
/// and empty components, resolves `..`, and keeps a leading `/`. Climbing above
/// the start, a blank path, and a relative path that resolves to nothing are errors.
pub fn canonicalize_path(path: &str) -> (r: Result<String, String>)
    ensures
        match r {
            Ok(p) => canonical(path@) == Ok::<Seq<char>, Seq<char>>(p@),
            Err(e) => canonical(path@) == Err::<Seq<char>, Seq<char>>(e@),
        },
{
    proof {
        reveal_strlit("empty path");
        reveal_strlit("path escapes above root via '..'");
        reveal_strlit("path resolved to empty");
    }
    let raw = chars_of(path);
    let t = trim_chars(&raw);
    if t.len() == 0 {
        return Err(string_of(chars_of("empty path").as_slice()));
    }
    let n = t.len();
    let mut stack: Vec<Vec<char>> = Vec::new();
    let mut cur: Vec<char> = Vec::new();
    let mut i: usize = 0;
    // Invariant: the segments of t[0..i] are the processed ones followed by `cur`.
    let ghost done: Seq<Seq<char>> = Seq::empty();
    assert(t@.subrange(0, 0) =~= Seq::<char>::empty());
    while i < n
        invariant
            n == t@.len(),
            n > 0,
            t@ == trim(path@),
            i <= n,
            segments(t@.subrange(0, i as int)) == done.push(cur@),
            resolve_segments(done) == Some(stack@.map_values(|v: Vec<char>| v@)),
        decreases n - i,
    {
        let c = t[i];
        let ghost prev = t@.subrange(0, i as int);
        assert(t@.subrange(0, i + 1).drop_last() =~= prev);
        assert(t@.subrange(0, i + 1).last() == c);
        if c == '/' {
            let seg = cur;
            cur = Vec::new();
            let ghost segv = seg@;
            let ghost st_before = stack@.map_values(|v: Vec<char>| v@);
            let ok = apply_segment(&mut stack, seg);
            proof {
                let d2 = done.push(segv);
                assert(d2.drop_last() =~= done);
                assert(d2.last() == segv);
                done = d2;
                assert(segments(t@.subrange(0, i + 1)) =~= done.push(cur@));
            }
            if !ok {
                proof {
                    lemma_resolve_prefix_none(segments(t@), done, t@, i as int + 1);
                }
                return Err(string_of(chars_of("path escapes above root via '..'").as_slice()));
            }
        } else {
            let ghost cur_before = cur@;
            cur.push(c);
            proof {
                lemma_segments_len(prev);
                assert(segments(t@.subrange(0, i + 1)) =~= done.push(cur@));
            }
        }
        i = i + 1;
    }
    assert(t@.subrange(0, n as int) =~= t@);
    let ghost last_seg = cur@;
    let ok = apply_segment(&mut stack, cur);
    proof {
        let d2 = done.push(last_seg);
        assert(d2.drop_last() =~= done);
        assert(segments(t@) == d2);
    }
    if !ok {
        return Err(string_of(chars_of("path escapes above root via '..'").as_slice()));
    }
    let absolute = t[0] == '/';
    if !absolute && stack.len() == 0 {
        return Err(string_of(chars_of("path resolved to empty").as_slice()));
    }
    let mut out: Vec<char> = Vec::new();
    if absolute {
        out.push('/');
    }
    let mut k: usize = 0;
    let ghost parts = stack@.map_values(|v: Vec<char>| v@);
    let ghost prefix = out@;
    assert(parts.subrange(0, 0) =~= Seq::<Seq<char>>::empty());
    while k < stack.len()
        invariant
            k <= stack@.len(),
            parts == stack@.map_values(|v: Vec<char>| v@),
            out@ == prefix + join_parts(parts.subrange(0, k as int)),
        decreases stack@.len() - k,
    {
        assert(parts.subrange(0, k + 1).drop_last() =~= parts.subrange(0, k as int));
        assert(parts.subrange(0, k + 1).last() == parts[k as int]);
        if k > 0 {
            out.push('/');
        }
        push_all(&mut out, &stack[k]);
        proof {
            reveal_strlit("/");
            if k == 0 {
                assert(join_parts(parts.subrange(0, 1)) == parts[0]);
                assert(out@ =~= prefix + join_parts(parts.subrange(0, k + 1)));
            } else {
                assert(out@ =~= prefix + join_parts(parts.subrange(0, k + 1)));
            }
        }
        k = k + 1;
    }
    assert(parts.subrange(0, stack@.len() as int) =~= parts);
    proof {
        reveal_strlit("/");
        if absolute {
            assert(prefix =~= "/"@);
        } else {
            assert(prefix =~= Seq::<char>::empty());
            assert(out@ =~= join_parts(parts));
        }
    }
    Ok(string_of(out.as_slice()))
}

proof fn lemma_resolve_extend_none(a: Seq<Seq<char>>, b: Seq<Seq<char>>)
    requires
        resolve_segments(a) is None,
    ensures
        resolve_segments(a + b) is None,
    decreases b.len(),
{
    if b.len() == 0 {
        assert(a + b =~= a);
    } else {
        lemma_resolve_extend_none(a, b.drop_last());
        assert((a + b).drop_last() =~= a + b.drop_last());
    }
}

proof fn lemma_segments_split(s: Seq<char>, i: int)
    requires
        0 < i <= s.len(),
        s[i - 1] == '/',
    ensures
        segments(s) == segments(s.subrange(0, i - 1)) + segments(s.subrange(i, s.len() as int)),
    decreases s.len(),
{
    if s.len() == i {
        assert(s.drop_last() =~= s.subrange(0, i - 1));
        assert(s.subrange(i, s.len() as int) =~= Seq::<char>::empty());
    } else {
        lemma_segments_split(s.drop_last(), i);
        assert(s.drop_last().subrange(0, i - 1) =~= s.subrange(0, i - 1));
        let tail = s.subrange(i, s.len() as int);
        assert(s.drop_last().subrange(i, s.len() - 1) =~= tail.drop_last());
        lemma_segments_len(tail.drop_last());
        lemma_segments_len(s.subrange(0, i - 1));
        assert(tail.last() == s.last());
        let a = segments(s.subrange(0, i - 1));
        let rest = segments(tail.drop_last());
        if s.last() == '/' {
            assert((a + rest).push(Seq::empty()) =~= a + rest.push(Seq::empty()));
        } else {
            assert((a + rest).update((a + rest).len() - 1, (a + rest).last().push(s.last())) =~= a
                + rest.update(rest.len() - 1, rest.last().push(s.last())));
        }
    }
}

proof fn lemma_resolve_prefix_none(all: Seq<Seq<char>>, done: Seq<Seq<char>>, t: Seq<char>, i: int)
    requires
        0 < i <= t.len(),
        t[i - 1] == '/',
        all == segments(t),
        segments(t.subrange(0, i)) == done.push(Seq::<char>::empty()),
        resolve_segments(done) is None,
    ensures
        resolve_segments(all) is None,
{
    lemma_segments_split(t, i);
    assert(t.subrange(0, i).drop_last() =~= t.subrange(0, i - 1));
    assert(segments(t.subrange(0, i)) == segments(t.subrange(0, i - 1)).push(Seq::empty()));
    let e = Seq::<char>::empty();
    assert(segments(t.subrange(0, i - 1)).push(e).drop_last() =~= segments(t.subrange(0, i - 1)));
    assert(done.push(e).drop_last() =~= done);
    assert(segments(t.subrange(0, i - 1)) == done);
    lemma_resolve_extend_none(done, segments(t.subrange(i, t.len() as int)));
}

// ---------------------------------------------------------------------------
// Containment
// ---------------------------------------------------------------------------

/// The pieces of `segs` that name something: neither empty nor `.`.
pub open spec fn named(segs: Seq<Seq<char>>) -> Seq<Seq<char>>
    decreases segs.len(),
{
    if segs.len() == 0 {
        Seq::empty()
    } else if segs.last().len() != 0 && segs.last() != "."@ {
        named(segs.drop_last()).push(segs.last())
    } else {
        named(segs.drop_last())
    }
}

/// The components `Path::components` yields: `/` for the root, then the non-empty
/// pieces, with `.` kept only as the first component of a relative path.
pub open spec fn components(s: Seq<char>) -> Seq<Seq<char>> {
    let segs = segments(s);
    let kept = named(segs.subrange(1, segs.len() as int));
    if s.len() > 0 && s[0] == '/' {
        seq!["/"@] + kept
    } else if segs[0] == "."@ {
        seq!["."@] + kept
    } else if segs[0].len() != 0 {
        seq![segs[0]] + kept
    } else {
        kept
    }
}

/// `root`'s components are a prefix of `path`'s (what `Path::starts_with` tests).
pub open spec fn component_prefix(path: Seq<char>, root: Seq<char>) -> bool {
    let p = components(path);
    let r = components(root);
    r.len() <= p.len() && p.subrange(0, r.len() as int) == r
}

/// `path` lies under one of `roots`; never, when there are no roots.
pub open spec fn within_roots(path: Seq<char>, roots: Seq<String>) -> bool {
    exists|i: int| 0 <= i < roots.len() && component_prefix(path, (#[trigger] roots[i])@)
}

/// Splits `t` at every `/`.
fn split_segments(t: &Vec<char>) -> (r: Vec<Vec<char>>)
    ensures
        r@.map_values(|v: Vec<char>| v@) == segments(t@),
{
    let mut done: Vec<Vec<char>> = Vec::new();
    let mut cur: Vec<char> = Vec::new();
    let mut i: usize = 0;
    assert(t@.subrange(0, 0) =~= Seq::<char>::empty());
    assert(done@.map_values(|v: Vec<char>| v@).push(cur@) =~= seq![Seq::<char>::empty()]);
    while i < t.len()
        invariant
            i <= t@.len(),
            segments(t@.subrange(0, i as int)) == done@.map_values(|v: Vec<char>| v@).push(cur@),
        decreases t@.len() - i,
    {
        let c = t[i];
        let ghost prev = t@.subrange(0, i as int);
        let ghost d = done@.map_values(|v: Vec<char>| v@);
        assert(t@.subrange(0, i + 1).drop_last() =~= prev);
        assert(t@.subrange(0, i + 1).last() == c);
        if c == '/' {
            let seg = cur;
            cur = Vec::new();
            let ghost sv = seg@;
            done.push(seg);
            assert(done@.map_values(|v: Vec<char>| v@) =~= d.push(sv));
            assert(segments(t@.subrange(0, i + 1)) =~= done@.map_values(|v: Vec<char>| v@).push(
                cur@,
            ));
        } else {
            cur.push(c);
            proof {
                lemma_segments_len(prev);
            }
            assert(segments(t@.subrange(0, i + 1)) =~= done@.map_values(|v: Vec<char>| v@).push(
                cur@,
            ));
        }
        i = i + 1;
    }
    assert(t@.subrange(0, t@.len() as int) =~= t@);
    let ghost d = done@.map_values(|v: Vec<char>| v@);
    let ghost cv = cur@;
    done.push(cur);
    assert(done@.map_values(|v: Vec<char>| v@) =~= d.push(cv));
    done
}

pub(crate) fn copy_chars(v: &Vec<char>) -> (r: Vec<char>)
    ensures
        r@ == v@,
{
    let mut r: Vec<char> = Vec::new();
    push_all(&mut r, v);
    assert(r@ =~= v@);
    r
}

/// The components of `t`, as `components` describes them.
pub(crate) fn path_components(t: &Vec<char>) -> (r: Vec<Vec<char>>)
    ensures
        r@.map_values(|v: Vec<char>| v@) == components(t@),
{
    proof {
        reveal_strlit("/");
        reveal_strlit(".");
    }
    let segs = split_segments(t);
    let ghost sv = segs@.map_values(|v: Vec<char>| v@);
    proof {
        lemma_segments_len(t@);
    }
    let mut out: Vec<Vec<char>> = Vec::new();
    if t.len() > 0 && t[0] == '/' {
        let mut root: Vec<char> = Vec::new();
        root.push('/');
        assert(root@ =~= "/"@);
        out.push(root);
    } else if is_dot(&segs[0]) {
        let mut dot: Vec<char> = Vec::new();
        dot.push('.');
        assert(dot@ =~= "."@);
        out.push(dot);
    } else if segs[0].len() != 0 {
        out.push(copy_chars(&segs[0]));
    }
    let ghost head = out@.map_values(|v: Vec<char>| v@);
    let mut j: usize = 1;
    assert(sv.subrange(1, 1) =~= Seq::<Seq<char>>::empty());
    assert(head =~= head + named(sv.subrange(1, 1)));
    while j < segs.len()
        invariant
            1 <= j <= segs@.len(),
            sv == segs@.map_values(|v: Vec<char>| v@),
            out@.map_values(|v: Vec<char>| v@) == head + named(sv.subrange(1, j as int)),
        decreases segs@.len() - j,
    {
        let ghost before = out@.map_values(|v: Vec<char>| v@);
        assert(sv.subrange(1, j + 1).drop_last() =~= sv.subrange(1, j as int));
        assert(sv.subrange(1, j + 1).last() == sv[j as int]);
        if segs[j].len() != 0 && !is_dot(&segs[j]) {
            let c = copy_chars(&segs[j]);
            out.push(c);
            assert(out@.map_values(|v: Vec<char>| v@) =~= before.push(sv[j as int]));
            assert(out@.map_values(|v: Vec<char>| v@) =~= head + named(sv.subrange(1, j + 1)));
        } else {
            assert(out@.map_values(|v: Vec<char>| v@) =~= head + named(sv.subrange(1, j + 1)));
        }
        j = j + 1;
    }
    out
}

fn chars_equal(a: &Vec<char>, b: &Vec<char>) -> (r: bool)
    ensures
        r == (a@ == b@),
{
    if a.len() != b.len() {
        return false;
    }
    let mut k: usize = 0;
    while k < a.len()
        invariant
            a@.len() == b@.len(),
            k <= a@.len(),
            forall|m: int| 0 <= m < k ==> a@[m] == b@[m],
        decreases a@.len() - k,
    {
        if a[k] != b[k] {
            return false;
        }
        k = k + 1;
    }
    assert(a@ =~= b@);
    true
}

/// `root`'s components are a prefix of `path`'s.
fn starts_with_components(path: &Vec<Vec<char>>, root: &Vec<Vec<char>>) -> (r: bool)
    ensures
        r == ({
            let p = path@.map_values(|v: Vec<char>| v@);
            let q = root@.map_values(|v: Vec<char>| v@);
            q.len() <= p.len() && p.subrange(0, q.len() as int) == q
        }),
{
    let ghost p = path@.map_values(|v: Vec<char>| v@);
    let ghost q = root@.map_values(|v: Vec<char>| v@);
    if root.len() > path.len() {
        return false;
    }
    let mut k: usize = 0;
    while k < root.len()
        invariant
            root@.len() <= path@.len(),
            k <= root@.len(),
            p == path@.map_values(|v: Vec<char>| v@),
            q == root@.map_values(|v: Vec<char>| v@),
            forall|m: int| 0 <= m < k ==> p[m] == q[m],
        decreases root@.len() - k,
    {
        if !chars_equal(&path[k], &root[k]) {
            assert(p.subrange(0, q.len() as int)[k as int] != q[k as int]);
            return false;
        }
        k = k + 1;
    }
    assert(p.subrange(0, q.len() as int) =~= q);
    true
}

/// Whether `path` lies under one of `roots`, comparing whole components (so
/// `/data2` is not under `/data`). With no roots nothing is within them.
pub fn path_within_roots(path: &str, roots: &[String]) -> (r: bool)
    ensures
        r == within_roots(path@, roots@),
{
    if roots.len() == 0 {
        return false;
    }
    let pc = path_components(&chars_of(path));
    let mut i: usize = 0;
    while i < roots.len()
        invariant
            i <= roots@.len(),
            pc@.map_values(|v: Vec<char>| v@) == components(path@),
            forall|m: int| 0 <= m < i ==> !component_prefix(path@, (#[trigger] roots@[m])@),
        decreases roots@.len() - i,
    {
        let rc = path_components(&chars_of(roots[i].as_str()));
        if starts_with_components(&pc, &rc) {
            assert(component_prefix(path@, roots@[i as int]@));
            return true;
        }
        i = i + 1;
    }
    false
}

// ---------------------------------------------------------------------------
// Normal form
// ---------------------------------------------------------------------------

/// A component that names a file or directory: not empty, not `.` or `..`, and
/// without a separator.
pub open spec fn plain_part(p: Seq<char>) -> bool {
    p.len() > 0 && p != "."@ && p != ".."@ && !p.contains('/')
}

proof fn lemma_segments_no_separator(s: Seq<char>)
    ensures
        forall|i: int| 0 <= i < segments(s).len() ==> !(#[trigger] segments(s)[i]).contains('/'),
        segments(s).len() >= 1,
    decreases s.len(),
{
    if s.len() > 0 {
        lemma_segments_no_separator(s.drop_last());
        let rest = segments(s.drop_last());
        if s.last() != '/' {
            let l = rest.last().push(s.last());
            assert forall|k: int| 0 <= k < l.len() implies l[k] != '/' by {
                if k < rest.last().len() {
                    assert(l[k] == rest.last()[k]);
                    assert(!rest[rest.len() - 1].contains('/'));
                }
            }
            assert(!l.contains('/'));
        } else {
            assert(!Seq::<char>::empty().contains('/'));
        }
    }
}

proof fn lemma_resolved_plain(segs: Seq<Seq<char>>)
    requires
        forall|i: int| 0 <= i < segs.len() ==> !(#[trigger] segs[i]).contains('/'),
    ensures
        resolve_segments(segs) matches Some(parts) ==> forall|i: int|
            0 <= i < parts.len() ==> plain_part(#[trigger] parts[i]),
    decreases segs.len(),
{
    if segs.len() > 0 {
        assert forall|i: int| 0 <= i < segs.drop_last().len() implies !(#[trigger] segs.drop_last()[i]).contains('/') by {
            assert(segs.drop_last()[i] == segs[i]);
        }
        lemma_resolved_plain(segs.drop_last());
        assert(!segs[segs.len() - 1].contains('/'));
    }
}

proof fn lemma_segments_after_slash(s: Seq<char>, t: Seq<char>)
    requires
        !t.contains('/'),
    ensures
        segments(s + "/"@ + t) == segments(s).push(t),
    decreases t.len(),
{
    reveal_strlit("/");
    reveal_strlit("..");
    if t.len() == 0 {
        assert(t =~= Seq::<char>::empty());
        assert(s + "/"@ + t =~= s.push('/'));
        assert((s + "/"@ + t).drop_last() =~= s);
        assert((s + "/"@ + t).last() == '/');
    } else {
        let t0 = t.drop_last();
        assert(!t0.contains('/')) by {
            if t0.contains('/') {
                let k = choose|k: int| 0 <= k < t0.len() && t0[k] == '/';
                assert(t[k] == '/');
            }
        }
        lemma_segments_after_slash(s, t0);
        let whole = s + "/"@ + t;
        assert(whole.drop_last() =~= s + "/"@ + t0);
        assert(whole.last() == t.last());
        assert(t.last() != '/') by {
            assert(t[t.len() - 1] == t.last());
        }
        assert(t0.push(t.last()) =~= t);
        let rest = segments(whole.drop_last());
        assert(rest == segments(s).push(t0));
        assert(segments(whole) == rest.update(rest.len() - 1, rest.last().push(whole.last())));
        assert(segments(s).push(t0).update(segments(s).len() as int, t) =~= segments(s).push(t));
    }
}

proof fn lemma_segments_plain(p: Seq<char>)
    requires
        !p.contains('/'),
    ensures
        segments(p) == seq![p],
    decreases p.len(),
{
    if p.len() > 0 {
        let p0 = p.drop_last();
        assert(!p0.contains('/')) by {
            if p0.contains('/') {
                let k = choose|k: int| 0 <= k < p0.len() && p0[k] == '/';
                assert(p[k] == '/');
            }
        }
        lemma_segments_plain(p0);
        assert(p.last() != '/') by {
            assert(p[p.len() - 1] == p.last());
        }
        assert(p0.push(p.last()) =~= p);
        assert(seq![p0].update(0, p) =~= seq![p]);
    } else {
        assert(segments(p) =~= seq![Seq::<char>::empty()]);
        assert(p =~= Seq::<char>::empty());
    }
}

proof fn lemma_segments_join(parts: Seq<Seq<char>>)
    requires
        parts.len() >= 1,
        forall|i: int| 0 <= i < parts.len() ==> !(#[trigger] parts[i]).contains('/'),
    ensures
        segments(join_parts(parts)) == parts,
        segments("/"@ + join_parts(parts)) == seq![Seq::<char>::empty()] + parts,
    decreases parts.len(),
{
    reveal_strlit("/");
    reveal_strlit("..");
    if parts.len() == 1 {
        lemma_segments_plain(parts[0]);
        assert(join_parts(parts) == parts[0]);
        lemma_segments_after_slash(Seq::<char>::empty(), parts[0]);
        assert(Seq::<char>::empty() + "/"@ + parts[0] =~= "/"@ + parts[0]);
        assert(segments(Seq::<char>::empty()) =~= seq![Seq::<char>::empty()]);
        assert(seq![parts[0]] =~= parts);
        assert(seq![Seq::<char>::empty()].push(parts[0]) =~= seq![Seq::<char>::empty()] + parts);
    } else {
        let d = parts.drop_last();
        assert forall|i: int| 0 <= i < d.len() implies !(#[trigger] d[i]).contains('/') by {
            assert(d[i] == parts[i]);
        }
        lemma_segments_join(d);
        assert(!parts[parts.len() - 1].contains('/'));
        lemma_segments_after_slash(join_parts(d), parts.last());
        lemma_segments_after_slash("/"@ + join_parts(d), parts.last());
        assert(join_parts(parts) == join_parts(d) + "/"@ + parts.last());
        assert("/"@ + join_parts(parts) =~= ("/"@ + join_parts(d)) + "/"@ + parts.last());
        assert(d.push(parts.last()) =~= parts);
        assert((seq![Seq::<char>::empty()] + d).push(parts.last()) =~= seq![Seq::<char>::empty()] + parts);
    }
}

proof fn lemma_named_plain(xs: Seq<Seq<char>>)
    requires
        forall|i: int| 0 <= i < xs.len() ==> plain_part(#[trigger] xs[i]),
    ensures
        named(xs) == xs,
    decreases xs.len(),
{
    if xs.len() > 0 {
        let d = xs.drop_last();
        assert forall|i: int| 0 <= i < d.len() implies plain_part(#[trigger] d[i]) by {
            assert(d[i] == xs[i]);
        }
        lemma_named_plain(d);
        assert(plain_part(xs[xs.len() - 1]));
        assert(d.push(xs.last()) =~= xs);
    }
}

/// A path that lexical normalization accepts is in normal form: every component
/// after the root names a file or directory (none is empty, `.` or `..`), and it
/// starts with the root exactly when the raw path did.
pub proof fn lemma_canonical_is_normal(raw: Seq<char>)
    requires
        canonical(raw) is Ok,
    ensures
        ({
            let p = canonical(raw)->Ok_0;
            let t = trim(raw);
            &&& (t[0] == '/') == (p.len() > 0 && p[0] == '/')
            &&& t[0] == '/' ==> components(p)[0] == "/"@ && forall|i: int|
                1 <= i < components(p).len() ==> plain_part(#[trigger] components(p)[i])
            &&& t[0] != '/' ==> forall|i: int|
                0 <= i < components(p).len() ==> plain_part(#[trigger] components(p)[i])
            &&& !components(p).contains(".."@)
        }),
{
    reveal_strlit("/");
    reveal_strlit("..");
    let t = trim(raw);
    let segs = segments(t);
    lemma_segments_no_separator(t);
    lemma_resolved_plain(segs);
    let parts = resolve_segments(segs)->0;
    let p = canonical(raw)->Ok_0;
    let c = components(p);
    if t[0] == '/' {
        assert(p == "/"@ + join_parts(parts));
        let sp = segments(p);
        if parts.len() == 0 {
            assert(join_parts(parts) =~= Seq::<char>::empty());
            assert(p =~= seq!['/']);
            assert(p.drop_last() =~= Seq::<char>::empty());
            assert(p.last() == '/');
            assert(segments(Seq::<char>::empty()) =~= seq![Seq::<char>::empty()]);
            assert(sp =~= seq![Seq::<char>::empty(), Seq::<char>::empty()]);
            assert(sp.subrange(1, 2) =~= seq![Seq::<char>::empty()]);
            assert(named(sp.subrange(1, 2).drop_last()) =~= Seq::<Seq<char>>::empty());
            assert(c =~= seq!["/"@]);
        } else {
            assert forall|i: int| 0 <= i < parts.len() implies !(#[trigger] parts[i]).contains('/') by {
                assert(plain_part(parts[i]));
            }
            lemma_segments_join(parts);
            assert(sp.subrange(1, sp.len() as int) =~= parts);
            lemma_named_plain(parts);
            assert(c =~= seq!["/"@] + parts);
            assert forall|i: int| 1 <= i < c.len() implies plain_part(#[trigger] c[i]) by {
                assert(c[i] == parts[i - 1]);
            }
        }
        assert(p[0] == '/');
        if c.contains(".."@) {
            let k = choose|k: int| 0 <= k < c.len() && c[k] == ".."@;
            if k == 0 {
                assert(c[0] == "/"@);
                assert("/"@[0] != ".."@[0]);
            } else {
                assert(plain_part(c[k]));
            }
        }
    } else {
        assert(parts.len() > 0);
        assert(p == join_parts(parts));
        assert forall|i: int| 0 <= i < parts.len() implies !(#[trigger] parts[i]).contains('/') by {
            assert(plain_part(parts[i]));
        }
        lemma_segments_join(parts);
        let sp = segments(p);
        assert(sp == parts);
        let rest = sp.subrange(1, sp.len() as int);
        assert forall|i: int| 0 <= i < rest.len() implies plain_part(#[trigger] rest[i]) by {
            assert(rest[i] == parts[i + 1]);
        }
        lemma_named_plain(rest);
        assert(plain_part(parts[0]));
        if p.len() > 0 && p[0] == '/' {
            assert(parts[0].len() > 0);
            lemma_join_starts(parts);
            assert(parts[0][0] == '/');
            assert(parts[0].contains('/'));
        }
        assert(c =~= seq![parts[0]] + rest);
        assert(c =~= parts);
        if c.contains(".."@) {
            let k = choose|k: int| 0 <= k < c.len() && c[k] == ".."@;
            assert(plain_part(c[k]));
        }
    }
}

proof fn lemma_join_starts(parts: Seq<Seq<char>>)
    requires
        parts.len() >= 1,
        parts[0].len() > 0,
    ensures
        join_parts(parts).len() > 0 && join_parts(parts)[0] == parts[0][0],
    decreases parts.len(),
{
    if parts.len() > 1 {
        lemma_join_starts(parts.drop_last());
    }
}

} // verus!
