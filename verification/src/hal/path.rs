//! Absolute Unix paths.
use vstd::prelude::*;
use vstd::string::*;
use crate::utils::strings::{is_dot_dot, is_single};

verus! {

// ---------------------------------------------------------------------------
// Specification
// ---------------------------------------------------------------------------

/// `cur` as a one-element list, or nothing when it is empty.
pub open spec fn nonempty(cur: Seq<char>) -> Seq<Seq<char>> {
    if cur.len() == 0 {
        Seq::empty()
    } else {
        seq![cur]
    }
}

/// The non-empty `/`-separated segments of `s`, the first one continuing `cur`.
pub open spec fn segs_acc(s: Seq<char>, cur: Seq<char>) -> Seq<Seq<char>>
    decreases s.len(),
{
    if s.len() == 0 {
        nonempty(cur)
    } else if s[0] == '/' {
        nonempty(cur) + segs_acc(s.drop_first(), Seq::empty())
    } else {
        segs_acc(s.drop_first(), cur.push(s[0]))
    }
}

/// The non-empty `/`-separated segments of `s`, in order.
pub open spec fn segs(s: Seq<char>) -> Seq<Seq<char>> {
    segs_acc(s, Seq::empty())
}

/// Whether `s` holds no `/`.
pub open spec fn slash_free(s: Seq<char>) -> bool {
    forall|i: int| 0 <= i < s.len() ==> s[i] != '/'
}

/// The index of the last `c` in `s`, or -1.
pub open spec fn last_index_of(s: Seq<char>, c: char) -> int
    decreases s.len(),
{
    if s.len() == 0 {
        -1
    } else if s.last() == c {
        s.len() - 1
    } else {
        last_index_of(s.drop_last(), c)
    }
}

/// `s` without its trailing `/` characters.
pub open spec fn trim_end_slashes(s: Seq<char>) -> Seq<char>
    decreases s.len(),
{
    if s.len() > 0 && s.last() == '/' {
        trim_end_slashes(s.drop_last())
    } else {
        s
    }
}

/// The components of a path: the segments after the leading `/`.
pub open spec fn path_components(p: Seq<char>) -> Seq<Seq<char>> {
    segs(p.skip(1))
}

/// The segments joined with single `/` characters.
pub open spec fn join_slash(st: Seq<Seq<char>>) -> Seq<char>
    decreases st.len(),
{
    if st.len() == 0 {
        Seq::empty()
    } else if st.len() == 1 {
        st[0]
    } else {
        join_slash(st.drop_last()) + seq!['/'] + st.last()
    }
}

/// One step of normalisation: `.` is dropped, `..` removes the last kept component.
pub open spec fn norm_step(stack: Seq<Seq<char>>, c: Seq<char>) -> Seq<Seq<char>> {
    if c == seq!['.'] {
        stack
    } else if c == seq!['.', '.'] {
        if stack.len() > 0 {
            stack.drop_last()
        } else {
            stack
        }
    } else {
        stack.push(c)
    }
}

/// The components kept when normalising the component list `comps`.
pub open spec fn norm_stack(comps: Seq<Seq<char>>) -> Seq<Seq<char>>
    decreases comps.len(),
{
    if comps.len() == 0 {
        Seq::empty()
    } else {
        norm_step(norm_stack(comps.drop_last()), comps.last())
    }
}

/// The normal form of the path `p`.
pub open spec fn spec_normalize(p: Seq<char>) -> Seq<char> {
    seq!['/'] + join_slash(norm_stack(path_components(p)))
}

/// The parent of the path `p`, if it has one.
pub open spec fn spec_parent(p: Seq<char>) -> Option<Seq<char>> {
    if p == seq!['/'] {
        None
    } else {
        let t = trim_end_slashes(p);
        let pos = last_index_of(t, '/');
        if pos <= 0 {
            Some(seq!['/'])
        } else {
            Some(p.take(pos))
        }
    }
}

/// The last component of the path `p`, if it has any.
pub open spec fn spec_file_name(p: Seq<char>) -> Option<Seq<char>> {
    let c = path_components(p);
    if c.len() == 0 {
        None
    } else {
        Some(c.last())
    }
}

/// The text after the last `.` of the file name of `p`, when the name has a `.` that is
/// not its first character.
pub open spec fn spec_extension(p: Seq<char>) -> Option<Seq<char>> {
    match spec_file_name(p) {
        None => None,
        Some(name) => {
            let pos = last_index_of(name, '.');
            if pos <= 0 {
                None
            } else {
                Some(name.skip(pos + 1))
            }
        },
    }
}

/// `p` joined with `other`: `other` itself when it is absolute, else `p`, a `/` when `p`
/// does not end in one, and `other`.
pub open spec fn spec_join(p: Seq<char>, other: Seq<char>) -> Seq<char> {
    if other.len() > 0 && other[0] == '/' {
        other
    } else if p.len() > 0 && p.last() == '/' {
        p + other
    } else {
        p + seq!['/'] + other
    }
}

// ---------------------------------------------------------------------------
// Lemmas about segments
// ---------------------------------------------------------------------------

/// Segments of text without `/`: everything goes into the current segment.
pub proof fn lemma_segs_slash_free(s: Seq<char>, cur: Seq<char>)
    requires
        slash_free(s),
    ensures
        segs_acc(s, cur) == nonempty(cur + s),
    decreases s.len(),
{
    if s.len() == 0 {
        assert(cur + s =~= cur);
    } else {
        assert(slash_free(s.drop_first()));
        lemma_segs_slash_free(s.drop_first(), cur.push(s[0]));
        assert(cur.push(s[0]) + s.drop_first() =~= cur + s);
    }
}

/// Splitting the text at a `/` splits its segments.
pub proof fn lemma_segs_split(s: Seq<char>, cur: Seq<char>, q: int)
    requires
        0 <= q < s.len(),
        s[q] == '/',
    ensures
        segs_acc(s, cur) == segs_acc(s.take(q), cur) + segs_acc(s.skip(q + 1), Seq::empty()),
    decreases q,
{
    let t = s.drop_first();
    if q == 0 {
        assert(s.take(0) =~= Seq::<char>::empty());
        assert(s.skip(1) =~= t);
    } else {
        lemma_segs_split(t, if s[0] == '/' {
            Seq::empty()
        } else {
            cur.push(s[0])
        }, q - 1);
        assert(s.take(q).drop_first() =~= t.take(q - 1));
        assert(s.take(q)[0] == s[0]);
        assert(t.skip(q) =~= s.skip(q + 1));
        if s[0] == '/' {
            assert(segs_acc(s.take(q), cur) == nonempty(cur) + segs_acc(t.take(q - 1), Seq::empty()));
            assert(segs_acc(s, cur) == nonempty(cur) + segs_acc(t, Seq::empty()));
            assert((nonempty(cur) + segs_acc(t.take(q - 1), Seq::empty())) + segs_acc(
                s.skip(q + 1),
                Seq::empty(),
            ) =~= nonempty(cur) + (segs_acc(t.take(q - 1), Seq::empty()) + segs_acc(
                s.skip(q + 1),
                Seq::empty(),
            )));
        }
    }
}

/// The index of the last `c` is -1 or a position holding `c` with no `c` after it.
pub proof fn lemma_last_index_of(s: Seq<char>, c: char)
    ensures
        -1 <= last_index_of(s, c) < s.len(),
        last_index_of(s, c) >= 0 ==> s[last_index_of(s, c)] == c,
        forall|i: int| last_index_of(s, c) < i < s.len() ==> s[i] != c,
    decreases s.len(),
{
    if s.len() > 0 && s.last() != c {
        lemma_last_index_of(s.drop_last(), c);
        assert forall|i: int| last_index_of(s, c) < i < s.len() implies s[i] != c by {
            if i < s.len() - 1 {
                assert(s.drop_last()[i] == s[i]);
            }
        }
    }
}

/// The segments of a text ending in a segment without `/`.
pub proof fn lemma_segs_last(s: Seq<char>)
    ensures
        ({
            let q = last_index_of(s, '/');
            segs(s) == segs(s.take(q)) + nonempty(s.skip(q + 1)) || q < 0
        }),
        last_index_of(s, '/') < 0 ==> segs(s) == nonempty(s),
{
    lemma_last_index_of(s, '/');
    let q = last_index_of(s, '/');
    if q >= 0 {
        lemma_segs_split(s, Seq::empty(), q);
        assert(slash_free(s.skip(q + 1)));
        lemma_segs_slash_free(s.skip(q + 1), Seq::empty());
        assert(Seq::<char>::empty() + s.skip(q + 1) =~= s.skip(q + 1));
    } else {
        assert(slash_free(s));
        lemma_segs_slash_free(s, Seq::empty());
        assert(Seq::<char>::empty() + s =~= s);
    }
}

/// Whether every segment of `st` is non-empty and free of `/`.
pub open spec fn segments_wf(st: Seq<Seq<char>>) -> bool {
    forall|i: int| 0 <= i < st.len() ==> (#[trigger] st[i]).len() > 0 && slash_free(st[i])
}

/// Whether no segment of `st` is `.` or `..`.
pub open spec fn no_dots(st: Seq<Seq<char>>) -> bool {
    forall|i: int| 0 <= i < st.len() ==> #[trigger] st[i] != seq!['.'] && st[i] != seq!['.', '.']
}

/// The segments of a text are non-empty and free of `/`.
proof fn lemma_segs_wf(s: Seq<char>, cur: Seq<char>)
    requires
        slash_free(cur),
    ensures
        segments_wf(segs_acc(s, cur)),
    decreases s.len(),
{
    if s.len() == 0 {
    } else if s[0] == '/' {
        lemma_segs_wf(s.drop_first(), Seq::empty());
        let a = nonempty(cur);
        let b = segs_acc(s.drop_first(), Seq::empty());
        assert forall|i: int| 0 <= i < (a + b).len() implies (#[trigger] (a + b)[i]).len() > 0 && slash_free((a + b)[i]) by {
            if i >= a.len() {
                assert((a + b)[i] == b[i - a.len()]);
            }
        }
    } else {
        assert(slash_free(cur.push(s[0])));
        lemma_segs_wf(s.drop_first(), cur.push(s[0]));
    }
}

/// Normalising keeps only components that were there, and drops every `.` and `..`.
proof fn lemma_norm_stack_wf(comps: Seq<Seq<char>>)
    requires
        segments_wf(comps),
    ensures
        segments_wf(norm_stack(comps)),
        no_dots(norm_stack(comps)),
    decreases comps.len(),
{
    if comps.len() > 0 {
        let rest = comps.drop_last();
        assert(segments_wf(rest)) by {
            assert forall|i: int| 0 <= i < rest.len() implies (#[trigger] rest[i]).len() > 0 && slash_free(rest[i]) by {
                assert(rest[i] == comps[i]);
            }
        }
        lemma_norm_stack_wf(rest);
        let st = norm_stack(rest);
        let c = comps.last();
        assert(comps[comps.len() - 1] == c);
        if c != seq!['.'] && c != seq!['.', '.'] {
            assert(norm_stack(comps) == st.push(c));
            assert forall|i: int| 0 <= i < st.push(c).len() implies (#[trigger] st.push(c)[i]).len() > 0 && slash_free(
                st.push(c)[i],
            ) && st.push(c)[i] != seq!['.'] && st.push(c)[i] != seq!['.', '.'] by {
                if i < st.len() {
                    assert(st.push(c)[i] == st[i]);
                }
            }
        } else if c == seq!['.', '.'] && st.len() > 0 {
            assert(norm_stack(comps) == st.drop_last());
            assert forall|i: int| 0 <= i < st.drop_last().len() implies (#[trigger] st.drop_last()[i]).len() > 0
                && slash_free(st.drop_last()[i]) && st.drop_last()[i] != seq!['.'] && st.drop_last()[i] != seq![
                '.',
                '.',
            ] by {
                assert(st.drop_last()[i] == st[i]);
            }
        }
    }
}

/// Joining segments with `/` and splitting the result again gives the segments back.
proof fn lemma_segs_join(st: Seq<Seq<char>>)
    requires
        segments_wf(st),
    ensures
        segs(join_slash(st)) == st,
    decreases st.len(),
{
    if st.len() == 0 {
        assert(segs(join_slash(st)) =~= st);
    } else if st.len() == 1 {
        assert(st[0].len() > 0 && slash_free(st[0]));
        lemma_segs_slash_free(st[0], Seq::empty());
        assert(Seq::<char>::empty() + st[0] =~= st[0]);
        assert(segs(join_slash(st)) =~= st);
    } else {
        let init = st.drop_last();
        let last = st.last();
        assert(st[st.len() - 1] == last);
        assert(segments_wf(init)) by {
            assert forall|i: int| 0 <= i < init.len() implies (#[trigger] init[i]).len() > 0 && slash_free(init[i]) by {
                assert(init[i] == st[i]);
            }
        }
        lemma_segs_join(init);
        let a = join_slash(init);
        let s = a + seq!['/'] + last;
        assert(join_slash(st) == s);
        let q = a.len() as int;
        assert(s[q] == '/');
        lemma_segs_split(s, Seq::empty(), q);
        assert(s.take(q) =~= a);
        assert(s.skip(q + 1) =~= last);
        lemma_segs_slash_free(last, Seq::empty());
        assert(Seq::<char>::empty() + last =~= last);
        assert(segs(join_slash(st)) =~= init + seq![last]);
        assert(init + seq![last] =~= st);
    }
}

/// A component list without `.` or `..` is its own normal form.
proof fn lemma_norm_stack_fixed(st: Seq<Seq<char>>)
    requires
        no_dots(st),
    ensures
        norm_stack(st) == st,
    decreases st.len(),
{
    if st.len() > 0 {
        let init = st.drop_last();
        assert(no_dots(init)) by {
            assert forall|i: int| 0 <= i < init.len() implies #[trigger] init[i] != seq!['.'] && init[i] != seq!['.', '.'] by {
                assert(init[i] == st[i]);
            }
        }
        lemma_norm_stack_fixed(init);
        assert(st[st.len() - 1] == st.last());
        assert(init.push(st.last()) =~= st);
    }
}

/// Normalising a path twice gives what normalising it once gives.
pub proof fn lemma_normalize_idempotent(p: Seq<char>)
    ensures
        spec_normalize(spec_normalize(p)) == spec_normalize(p),
{
    let comps = path_components(p);
    lemma_segs_wf(p.skip(1), Seq::empty());
    lemma_norm_stack_wf(comps);
    let st = norm_stack(comps);
    let n = spec_normalize(p);
    assert(n.skip(1) =~= join_slash(st));
    lemma_segs_join(st);
    assert(path_components(n) == st);
    lemma_norm_stack_fixed(st);
}

/// Normalising never yields more components than it is given.
proof fn lemma_norm_stack_len(comps: Seq<Seq<char>>)
    ensures
        norm_stack(comps).len() <= comps.len(),
    decreases comps.len(),
{
    if comps.len() > 0 {
        lemma_norm_stack_len(comps.drop_last());
    }
}

/// A normalised path has no `.` or `..` component, every component is non-empty and free of
/// `/`, and it has no more components than the path it came from.
pub proof fn lemma_normalize_clean(p: Seq<char>)
    ensures
        no_dots(path_components(spec_normalize(p))),
        segments_wf(path_components(spec_normalize(p))),
        path_components(spec_normalize(p)).len() <= path_components(p).len(),
{
    let comps = path_components(p);
    lemma_segs_wf(p.skip(1), Seq::empty());
    lemma_norm_stack_wf(comps);
    lemma_norm_stack_len(comps);
    let st = norm_stack(comps);
    let n = spec_normalize(p);
    assert(n.skip(1) =~= join_slash(st));
    lemma_segs_join(st);
    assert(path_components(n) == st);
}

/// What a mix of `next` (false) and `next_back` (true) calls, in the order of `from_back`,
/// takes from the components `s`: the components yielded by `next` in order, those yielded
/// by `next_back` in order, and what remains.  A call on nothing left yields nothing.
pub open spec fn take_mix(s: Seq<Seq<char>>, from_back: Seq<bool>) -> (Seq<Seq<char>>, Seq<Seq<char>>, Seq<Seq<char>>)
    decreases from_back.len(),
{
    if from_back.len() == 0 {
        (Seq::empty(), Seq::empty(), s)
    } else {
        let (f, b, rest) = take_mix(s, from_back.drop_last());
        if rest.len() == 0 {
            (f, b, rest)
        } else if from_back.last() {
            (f, b.push(rest.last()), rest.drop_last())
        } else {
            (f.push(rest[0]), b, rest.drop_first())
        }
    }
}

/// Taking components from both ends, in any mix, yields each component once: those taken
/// from the front, then those left, then those taken from the back in reverse order make
/// up the components; as long as calls remain, each one yields one component.
pub proof fn lemma_take_mix_partition(s: Seq<Seq<char>>, from_back: Seq<bool>)
    ensures
        ({
            let (f, b, rest) = take_mix(s, from_back);
            &&& f + rest + b.reverse() == s
            &&& f.len() + b.len() == if from_back.len() < s.len() { from_back.len() as int } else { s.len() as int }
        }),
    decreases from_back.len(),
{
    if from_back.len() > 0 {
        lemma_take_mix_partition(s, from_back.drop_last());
        let (f, b, rest) = take_mix(s, from_back.drop_last());
        if rest.len() > 0 {
            if from_back.last() {
                let x = rest.last();
                assert(b.push(x).reverse() =~= seq![x] + b.reverse());
                assert(rest.drop_last() + seq![x] =~= rest);
                assert(f + rest.drop_last() + b.push(x).reverse() =~= f + rest + b.reverse());
            } else {
                let x = rest[0];
                assert(seq![x] + rest.drop_first() =~= rest);
                assert(f.push(x) + rest.drop_first() + b.reverse() =~= f + rest + b.reverse());
            }
        } else {
            assert(f.len() + b.len() == s.len()) by {
                assert((f + rest + b.reverse()).len() == s.len());
            }
        }
    }
}

/// Taking every component from the back yields the components in reverse order, as taking
/// them from the front yields them in order.
pub proof fn lemma_next_back_reverses(s: Seq<Seq<char>>)
    ensures
        take_mix(s, Seq::new(s.len(), |i: int| true)).1 == s.reverse(),
        take_mix(s, Seq::new(s.len(), |i: int| false)).0 == s,
{
    let all_back = Seq::new(s.len(), |i: int| true);
    let all_front = Seq::new(s.len(), |i: int| false);
    lemma_take_mix_only_back(s, all_back);
    lemma_take_mix_only_front(s, all_front);
    lemma_take_mix_partition(s, all_back);
    lemma_take_mix_partition(s, all_front);
    let (f, b, rest) = take_mix(s, all_back);
    assert(rest.len() == 0);
    assert(f.len() == 0);
    assert(b.reverse() =~= s) by {
        assert(f + rest + b.reverse() =~= b.reverse());
    }
    assert(b.reverse().reverse() =~= b);
    let (f2, b2, rest2) = take_mix(s, all_front);
    assert(b2.len() == 0 && rest2.len() == 0);
    assert(f2 + rest2 + b2.reverse() =~= f2);
}

/// Calls that all take from the back yield nothing from the front.
proof fn lemma_take_mix_only_back(s: Seq<Seq<char>>, from_back: Seq<bool>)
    requires
        forall|i: int| 0 <= i < from_back.len() ==> from_back[i],
    ensures
        take_mix(s, from_back).0.len() == 0,
    decreases from_back.len(),
{
    if from_back.len() > 0 {
        lemma_take_mix_only_back(s, from_back.drop_last());
    }
}

/// Calls that all take from the front yield nothing from the back.
proof fn lemma_take_mix_only_front(s: Seq<Seq<char>>, from_back: Seq<bool>)
    requires
        forall|i: int| 0 <= i < from_back.len() ==> !from_back[i],
    ensures
        take_mix(s, from_back).1.len() == 0,
    decreases from_back.len(),
{
    if from_back.len() > 0 {
        lemma_take_mix_only_front(s, from_back.drop_last());
    }
}

/// Whether `s` holds two `/` in a row.
pub open spec fn has_double_slash(s: Seq<char>) -> bool {
    exists|i: int| 0 <= i < s.len() - 1 && #[trigger] s[i] == '/' && s[i + 1] == '/'
}

/// Joining a relative `other` to an absolute `p` puts `other` after `p` with exactly one
/// `/` between them: `p` is kept in front and `other` at the end, nothing else is added
/// when `p` already ends in `/` (so joining to the root gives `/` and `other`), one `/` is
/// added otherwise, and no `//` appears that `p` or `other` did not hold.
pub proof fn lemma_join_relative(p: Seq<char>, other: Seq<char>)
    requires
        p.len() >= 1,
        p[0] == '/',
        other.len() == 0 || other[0] != '/',
    ensures
        ({
            let r = spec_join(p, other);
            &&& r.take(p.len() as int) == p
            &&& r.skip(r.len() - other.len()) == other
            &&& p.last() == '/' ==> r.len() == p.len() + other.len()
            &&& p.last() != '/' ==> r.len() == p.len() + 1 + other.len() && r[p.len() as int] == '/'
            &&& !has_double_slash(p) && !has_double_slash(other) ==> !has_double_slash(r)
        }),
{
    let r = spec_join(p, other);
    let n = p.len() as int;
    if p.last() == '/' {
        assert(r == p + other);
        assert(r.take(n) =~= p);
        assert(r.skip(r.len() - other.len()) =~= other);
        if !has_double_slash(p) && !has_double_slash(other) && has_double_slash(r) {
            let i = choose|i: int| 0 <= i < r.len() - 1 && #[trigger] r[i] == '/' && r[i + 1] == '/';
            if i + 1 < n {
                assert(p[i] == '/' && p[i + 1] == '/');
            } else if i >= n {
                assert(other[i - n] == '/' && other[i - n + 1] == '/');
            } else {
                assert(other[0] == '/');
            }
        }
    } else {
        assert(r == p + seq!['/'] + other);
        assert(r.take(n) =~= p);
        assert(r.skip(r.len() - other.len()) =~= other);
        if !has_double_slash(p) && !has_double_slash(other) && has_double_slash(r) {
            let i = choose|i: int| 0 <= i < r.len() - 1 && #[trigger] r[i] == '/' && r[i + 1] == '/';
            if i + 1 < n {
                assert(p[i] == '/' && p[i + 1] == '/');
            } else if i == n - 1 {
                assert(p[n - 1] == '/');
            } else if i == n {
                assert(other[0] == '/');
            } else {
                assert(other[i - n - 1] == '/' && other[i - n] == '/');
            }
        }
    }
}

/// What trimming the trailing `/` of `s` leaves: a prefix of `s`, not ending in `/`,
/// followed in `s` by `/` only.
proof fn lemma_trim_end(s: Seq<char>)
    ensures
        trim_end_slashes(s).len() <= s.len(),
        s.take(trim_end_slashes(s).len() as int) == trim_end_slashes(s),
        forall|i: int| trim_end_slashes(s).len() <= i < s.len() ==> s[i] == '/',
        trim_end_slashes(s).len() > 0 ==> trim_end_slashes(s).last() != '/',
    decreases s.len(),
{
    if s.len() > 0 && s.last() == '/' {
        lemma_trim_end(s.drop_last());
        let t = trim_end_slashes(s);
        assert(t == trim_end_slashes(s.drop_last()));
        assert(s.take(t.len() as int) =~= s.drop_last().take(t.len() as int));
        assert forall|i: int| t.len() <= i < s.len() implies s[i] == '/' by {
            if i < s.len() - 1 {
                assert(s[i] == s.drop_last()[i]);
            }
        }
    } else {
        assert(s.take(s.len() as int) =~= s);
    }
}

/// `/` characters at the end of a text add no segment.
proof fn lemma_segs_trailing_slashes(a: Seq<char>, r: Seq<char>)
    requires
        forall|i: int| 0 <= i < r.len() ==> r[i] == '/',
    ensures
        segs(a + r) == segs(a),
    decreases r.len(),
{
    if r.len() == 0 {
        assert(a + r =~= a);
    } else {
        let x = a + r;
        let q = x.len() - 1;
        assert(x[q] == '/');
        lemma_segs_split(x, Seq::empty(), q);
        assert(x.skip(q + 1) =~= Seq::<char>::empty());
        assert(segs_acc(Seq::<char>::empty(), Seq::empty()) =~= Seq::<Seq<char>>::empty());
        assert(x.take(q) =~= a + r.drop_last());
        lemma_segs_trailing_slashes(a, r.drop_last());
        assert(segs(x) =~= segs(x.take(q)));
    }
}

/// The parent of a path is the path without its last component: for a path with a
/// component, the components of its parent are its own without the last one, whether or
/// not it ends in `/`.  The root has no parent.
pub proof fn lemma_parent_drops_last_component(p: Seq<char>)
    requires
        p.len() >= 1,
        p[0] == '/',
    ensures
        p == seq!['/'] ==> spec_parent(p) is None,
        path_components(p).len() > 0 ==> spec_parent(p) is Some && path_components(spec_parent(p)->0)
            == path_components(p).drop_last(),
        spec_parent(p) matches Some(q) ==> q.len() >= 1 && q[0] == '/',
{
    lemma_trim_end(p);
    let t = trim_end_slashes(p);
    let rest = p.skip(t.len() as int);
    if t.len() == 0 {
        // The path is all `/`: it has no component.
        assert(p =~= Seq::<char>::empty() + p);
        assert(p.skip(1) =~= Seq::<char>::empty() + p.skip(1));
        lemma_segs_trailing_slashes(Seq::<char>::empty(), p.skip(1));
        assert(segs(Seq::<char>::empty()) =~= Seq::<Seq<char>>::empty());
        if p != seq!['/'] {
            lemma_last_index_of(t, '/');
            assert(spec_parent(p) == Some(seq!['/']));
        }
        return;
    }
    assert(t[0] == p[0]);
    assert(t.len() >= 2) by {
        if t.len() == 1 {
            assert(t.last() == t[0]);
        }
    }
    // The components are those of `t`: what follows it is `/` only.
    let s1 = t.skip(1);
    assert(p.skip(1) =~= s1 + rest);
    lemma_segs_trailing_slashes(s1, rest);
    assert(path_components(p) == segs(s1));
    lemma_last_index_of(t, '/');
    let pos = last_index_of(t, '/');
    assert(pos >= 0);
    assert(pos < t.len() - 1) by {
        if pos == t.len() - 1 {
            assert(t[pos] == t.last());
        }
    }
    if p == seq!['/'] {
        assert(t.len() <= 1);
    }
    if pos == 0 {
        assert(slash_free(s1)) by {
            assert forall|i: int| 0 <= i < s1.len() implies s1[i] != '/' by {
                assert(s1[i] == t[i + 1]);
            }
        }
        lemma_segs_slash_free(s1, Seq::empty());
        assert(Seq::<char>::empty() + s1 =~= s1);
        assert(segs(s1) == seq![s1]);
        assert(seq![s1].drop_last() =~= Seq::<Seq<char>>::empty());
        assert(spec_parent(p) == Some(seq!['/']));
        assert(seq!['/'].skip(1) =~= Seq::<char>::empty());
        assert(segs(Seq::<char>::empty()) =~= Seq::<Seq<char>>::empty());
    } else {
        assert(s1[pos - 1] == '/');
        lemma_segs_split(s1, Seq::empty(), pos - 1);
        let tail = s1.skip(pos);
        assert(tail =~= t.skip(pos + 1));
        assert(slash_free(tail)) by {
            assert forall|i: int| 0 <= i < tail.len() implies tail[i] != '/' by {
                assert(tail[i] == t[pos + 1 + i]);
            }
        }
        lemma_segs_slash_free(tail, Seq::empty());
        assert(Seq::<char>::empty() + tail =~= tail);
        assert(tail.len() > 0);
        assert(segs(s1) == segs(s1.take(pos - 1)) + seq![tail]);
        assert((segs(s1.take(pos - 1)) + seq![tail]).drop_last() =~= segs(s1.take(pos - 1)));
        let q = p.take(pos);
        assert(spec_parent(p) == Some(q));
        assert(q =~= t.take(pos));
        assert(q.skip(1) =~= s1.take(pos - 1));
    }
}

} // verus!

verus! {

// ---------------------------------------------------------------------------
// Executable code
// ---------------------------------------------------------------------------

/// Whether `s` begins with `/`.
fn starts_with_slash(s: &str) -> (b: bool)
    ensures
        b == (s@.len() > 0 && s@[0] == '/'),
{
    s.unicode_len() > 0 && s.get_char(0) == '/'
}

/// A string holding just `/`.
fn root_string() -> (s: String)
    ensures
        s@ == seq!['/'],
{
    proof {
        reveal_strlit("/");
    }
    String::from_str("/")
}

/// Represents an absolute Unix path
#[derive(Debug)]
pub struct Path {
    raw: String,
}

impl View for Path {
    type V = Seq<char>;

    closed spec fn view(&self) -> Seq<char> {
        self.raw@
    }
}

impl Clone for Path {
    fn clone(&self) -> (r: Self)
        ensures
            r@ == self@,
    {
        proof {
            use_type_invariant(self);
        }
        Path { raw: self.raw.clone() }
    }
}

impl Path {
    /// A path always starts with `/`.
    #[verifier::type_invariant]
    spec fn absolute(self) -> bool {
        self.raw@.len() >= 1 && self.raw@[0] == '/'
    }

    /// Create a new absolute UnixPath from a String
    /// Returns None if the path is not absolute (doesn't start with '/')
    pub fn new(path: String) -> (r: Option<Self>)
        ensures
            r.is_some() == (path@.len() > 0 && path@[0] == '/'),
            r matches Some(p) ==> p@ == path@,
    {
        if starts_with_slash(path.as_str()) {
            Some(Self { raw: path })
        } else {
            None
        }
    }

    /// Create a new absolute UnixPath from a string slice
    /// Returns None if the path is not absolute (doesn't start with '/')
    pub fn from_str(path: &str) -> (r: Option<Self>)
        ensures
            r.is_some() == (path@.len() > 0 && path@[0] == '/'),
            r matches Some(p) ==> p@ == path@,
    {
        Self::new(String::from_str(path))
    }

    /// Create a new absolute UnixPath without checking if it's absolute
    ///
    /// The caller must ensure the path starts with '/'
    pub fn new_unchecked(path: String) -> (r: Self)
        requires
            path@.len() > 0,
            path@[0] == '/',
        ensures
            r@ == path@,
    {
        Self { raw: path }
    }

    /// Returns the raw path string as a string slice
    pub fn as_str(&self) -> (r: &str)
        ensures
            r@ == self@,
            r@.len() >= 1,
            r@[0] == '/',
    {
        proof {
            use_type_invariant(self);
        }
        self.raw.as_str()
    }

    /// Consumes self and returns the inner String
    pub fn into_string(self) -> (r: String)
        ensures
            r@ == self@,
    {
        self.raw
    }

    /// Iterator over path components, skipping empty components and the root
    pub fn components(&self) -> (c: Components)
        ensures
            c@ == path_components(self@),
    {
        proof {
            use_type_invariant(self);
        }
        let len = self.raw.as_str().unicode_len();
        let c = Components { path: self.raw.clone(), front: 1, back: len };
        assert(c.path@.subrange(1, len as int) =~= self@.skip(1));
        c
    }

    /// Get the file name (last component) if present
    pub fn file_name(&self) -> (r: Option<String>)
        ensures
            match r {
                Some(n) => spec_file_name(self@) == Some(n@),
                None => spec_file_name(self@) == None::<Seq<char>>,
            },
    {
        let mut c = self.components();
        c.next_back()
    }

    /// Get the parent path (everything except the last component)
    /// Returns None if this is the root path "/"
    pub fn parent(&self) -> (r: Option<Path>)
        ensures
            match r {
                Some(p) => spec_parent(self@) == Some(p@),
                None => spec_parent(self@) == None::<Seq<char>>,
            },
    {
        proof {
            use_type_invariant(self);
        }
        let s = self.raw.as_str();
        let len = s.unicode_len();
        if len == 1 {
            assert(self@ =~= seq!['/']);
            return None;
        }
        let ghost p = self@;
        let mut t_end = len;
        assert(p.take(len as int) =~= p);
        while t_end > 0 && s.get_char(t_end - 1) == '/'
            invariant
                t_end <= len,
                len == p.len(),
                s@ == p,
                trim_end_slashes(p) == trim_end_slashes(p.take(t_end as int)),
            decreases t_end,
        {
            assert(p.take(t_end as int).drop_last() =~= p.take(t_end - 1));
            t_end = t_end - 1;
        }
        let ghost t = p.take(t_end as int);
        assert(trim_end_slashes(t) == t);
        assert(trim_end_slashes(p) == t);
        let mut j = t_end;
        assert(t.take(t_end as int) =~= t);
        while j > 0 && s.get_char(j - 1) != '/'
            invariant
                j <= t_end <= len,
                len == p.len(),
                s@ == p,
                t == p.take(t_end as int),
                last_index_of(t, '/') == last_index_of(t.take(j as int), '/'),
            decreases j,
        {
            assert(t.take(j as int).drop_last() =~= t.take(j - 1));
            j = j - 1;
        }
        if j == 0 {
            assert(t.take(0) =~= Seq::<char>::empty());
            return Some(Path { raw: root_string() });
        }
        let pos = j - 1;
        assert(t.take(j as int).last() == '/');
        assert(last_index_of(t, '/') == pos);
        if pos == 0 {
            Some(Path { raw: root_string() })
        } else {
            let sub = s.substring_char(0, pos);
            let r = String::from_str(sub);
            assert(r@ =~= p.take(pos as int));
            Some(Path { raw: r })
        }
    }

    /// Get the extension of the file name, if any
    pub fn extension(&self) -> (r: Option<String>)
        ensures
            match r {
                Some(e) => spec_extension(self@) == Some(e@),
                None => spec_extension(self@) == None::<Seq<char>>,
            },
    {
        let name = match self.file_name() {
            Some(n) => n,
            None => return None,
        };
        let ghost nm = name@;
        let s = name.as_str();
        let len = s.unicode_len();
        let mut j = len;
        assert(nm.take(len as int) =~= nm);
        while j > 0 && s.get_char(j - 1) != '.'
            invariant
                j <= len,
                len == nm.len(),
                s@ == nm,
                last_index_of(nm, '.') == last_index_of(nm.take(j as int), '.'),
            decreases j,
        {
            assert(nm.take(j as int).drop_last() =~= nm.take(j - 1));
            j = j - 1;
        }
        if j == 0 {
            assert(nm.take(0) =~= Seq::<char>::empty());
            assert(nm.take(len as int) =~= nm);
            return None;
        }
        assert(nm.take(len as int) =~= nm);
        let pos = j - 1;
        assert(nm.take(j as int).last() == '.');
        assert(last_index_of(nm, '.') == pos);
        // Don't treat dotfiles without extension as having an extension
        if pos == 0 {
            return None;
        }
        let sub = s.substring_char(pos + 1, len);
        let r = String::from_str(sub);
        assert(r@ =~= nm.skip(pos + 1));
        Some(r)
    }

    /// Normalize the path by removing '.' and '..' components
    pub fn normalize(&self) -> (r: Path)
        ensures
            r@ == spec_normalize(self@),
    {
        let mut comps = self.components();
        let mut stack: Vec<String> = Vec::new();
        let ghost all = comps@;
        loop
            invariant
                all == path_components(self@),
                comps@.len() <= all.len(),
                comps@ == all.skip(all.len() - comps@.len()),
                stack@.map_values(|s: String| s@) == norm_stack(
                    all.take(all.len() - comps@.len()),
                ),
            ensures
                comps@.len() == 0,
                stack@.map_values(|s: String| s@) == norm_stack(all),
            decreases comps@.len(),
        {
            let ghost k = all.len() - comps@.len();
            let ghost before = stack@.map_values(|s: String| s@);
            match comps.next() {
                None => {
                    assert(all.take(all.len() as int) =~= all);
                    break;
                },
                Some(component) => {
                    assert(component@ == all[k]);
                    assert(all.take(k + 1).drop_last() =~= all.take(k));
                    assert(all.take(k + 1).last() == all[k]);
                    assert(comps@ =~= all.skip(all.len() - comps@.len()));
                    if is_single(&component, '.') {
                    } else if is_dot_dot(&component) {
                        let _ = stack.pop();
                        assert(stack@.map_values(|s: String| s@) =~= if before.len() > 0 {
                            before.drop_last()
                        } else {
                            before
                        });
                    } else {
                        stack.push(component);
                        assert(stack@.map_values(|s: String| s@) =~= before.push(all[k]));
                    }
                },
            }
        }
        let ghost st = stack@.map_values(|s: String| s@);
        let mut result = root_string();
        let mut i: usize = 0;
        while i < stack.len()
            invariant
                i <= stack.len(),
                st == stack@.map_values(|s: String| s@),
                result@ == seq!['/'] + join_slash(st.take(i as int)),
            decreases stack.len() - i,
        {
            let ghost prev = result@;
            if i > 0 {
                proof {
                    reveal_strlit("/");
                }
                result.append("/");
            }
            result.append(stack[i].as_str());
            proof {
                assert(st.take(i + 1).drop_last() =~= st.take(i as int));
                assert(st.take(i + 1).last() == st[i as int]);
                if i == 0 {
                    assert(join_slash(st.take(1)) == st[0]);
                    assert(result@ =~= seq!['/'] + join_slash(st.take(i + 1)));
                } else {
                    assert(result@ =~= seq!['/'] + join_slash(st.take(i + 1)));
                }
            }
            i = i + 1;
        }
        assert(st.take(stack.len() as int) =~= st);
        Path { raw: result }
    }

    /// Join this path with another path component
    /// If other starts with '/', it replaces the entire path
    pub fn join(&self, other: &str) -> (r: Path)
        ensures
            r@ == spec_join(self@, other@),
    {
        proof {
            use_type_invariant(self);
        }
        if starts_with_slash(other) {
            // Other is absolute, replace entirely
            return Path { raw: String::from_str(other) };
        }
        let mut result = self.raw.clone();
        let len = result.as_str().unicode_len();
        if !(len > 0 && result.as_str().get_char(len - 1) == '/') {
            proof {
                reveal_strlit("/");
            }
            result.append("/");
        }
        result.append(other);
        Path { raw: result }
    }

    /// Returns true (always, for compatibility)
    pub fn is_absolute(&self) -> (b: bool)
        ensures
            b,
    {
        true
    }

    /// Returns false (always, for compatibility)
    pub fn is_relative(&self) -> (b: bool)
        ensures
            !b,
    {
        false
    }

    /// Whether two paths are spelled the same.
    pub fn equals(&self, other: &Path) -> (b: bool)
        ensures
            b == (self@ == other@),
    {
        self.raw == other.raw
    }
}

/// Iterator over path components
#[derive(Debug)]
pub struct Components {
    path: String,
    front: usize,
    back: usize,
}

impl View for Components {
    type V = Seq<Seq<char>>;

    /// The components not yet taken from either end.
    closed spec fn view(&self) -> Seq<Seq<char>> {
        segs(self.path@.subrange(self.front as int, self.back as int))
    }
}

impl Components {
    #[verifier::type_invariant]
    spec fn in_bounds(self) -> bool {
        self.front <= self.back <= self.path@.len()
    }

    /// Takes the first remaining component.
    pub fn next(&mut self) -> (r: Option<String>)
        ensures
            match r {
                None => old(self)@.len() == 0 && final(self)@.len() == 0,
                Some(c) => old(self)@.len() > 0 && c@ == old(self)@[0] && final(self)@ == old(
                    self,
                )@.drop_first(),
            },
    {
        proof {
            use_type_invariant(&*self);
        }
        let ghost orig = self@;
        loop
            invariant
                self.front <= self.back <= self.path@.len(),
                self@ == orig,
                orig == old(self)@,
            decreases self.back - self.front,
        {
            if self.front >= self.back {
                assert(self.path@.subrange(self.front as int, self.back as int) =~= Seq::<
                    char,
                >::empty());
                return None;
            }
            let s = self.path.as_str();
            let front = self.front;
            let back = self.back;
            let ghost full = self.path@.subrange(front as int, back as int);
            let mut j = front;
            while j < back && s.get_char(j) != '/'
                invariant
                    front <= j <= back,
                    back <= s@.len(),
                    s@ == self.path@,
                    forall|i: int| front <= i < j ==> s@[i] != '/',
                decreases back - j,
            {
                j = j + 1;
            }
            if j < back {
                proof {
                    lemma_segs_split(full, Seq::empty(), j - front);
                    assert(full.take(j - front) =~= self.path@.subrange(front as int, j as int));
                    assert(slash_free(full.take(j - front)));
                    lemma_segs_slash_free(full.take(j - front), Seq::empty());
                    assert(Seq::<char>::empty() + full.take(j - front) =~= full.take(j - front));
                    assert(full.skip(j - front + 1) =~= self.path@.subrange(j + 1, back as int));
                }
                self.front = j + 1;
                if j > front {
                    let sub = s.substring_char(front, j);
                    let comp = String::from_str(sub);
                    assert(orig =~= seq![comp@] + self@);
                    assert(orig.drop_first() =~= self@);
                    return Some(comp);
                }
                assert(orig =~= self@);
            } else {
                proof {
                    assert(slash_free(full));
                    lemma_segs_slash_free(full, Seq::empty());
                    assert(Seq::<char>::empty() + full =~= full);
                }
                self.front = back;
                assert(self.path@.subrange(back as int, back as int) =~= Seq::<char>::empty());
                if j > front {
                    let sub = s.substring_char(front, back);
                    let comp = String::from_str(sub);
                    assert(orig.drop_first() =~= self@);
                    return Some(comp);
                }
                return None;
            }
        }
    }

    /// Takes the last remaining component.
    pub fn next_back(&mut self) -> (r: Option<String>)
        ensures
            match r {
                None => old(self)@.len() == 0 && final(self)@.len() == 0,
                Some(c) => old(self)@.len() > 0 && c@ == old(self)@.last() && final(self)@ == old(
                    self,
                )@.drop_last(),
            },
    {
        proof {
            use_type_invariant(&*self);
        }
        let ghost orig = self@;
        loop
            invariant
                self.front <= self.back <= self.path@.len(),
                self@ == orig,
                orig == old(self)@,
            decreases self.back - self.front,
        {
            if self.front >= self.back {
                assert(self.path@.subrange(self.front as int, self.back as int) =~= Seq::<
                    char,
                >::empty());
                return None;
            }
            let s = self.path.as_str();
            let front = self.front;
            let back = self.back;
            let ghost full = self.path@.subrange(front as int, back as int);
            let mut j = back;
            while j > front && s.get_char(j - 1) != '/'
                invariant
                    front <= j <= back,
                    back <= s@.len(),
                    s@ == self.path@,
                    forall|i: int| j <= i < back ==> s@[i] != '/',
                decreases j,
            {
                j = j - 1;
            }
            proof {
                lemma_last_index_of(full, '/');
                lemma_segs_last(full);
            }
            if j > front {
                proof {
                    let q = j - 1 - front;
                    assert(full[q] == '/');
                    assert(last_index_of(full, '/') == q);
                    assert(full.take(q) =~= self.path@.subrange(front as int, j - 1));
                    assert(full.skip(q + 1) =~= self.path@.subrange(j as int, back as int));
                }
                self.back = j - 1;
                if j < back {
                    let sub = s.substring_char(j, back);
                    let comp = String::from_str(sub);
                    assert(orig =~= self@ + seq![comp@]);
                    assert(orig.drop_last() =~= self@);
                    return Some(comp);
                }
                assert(orig =~= self@ + Seq::empty());
            } else {
                proof {
                    assert(last_index_of(full, '/') < 0);
                }
                self.back = front;
                assert(self.path@.subrange(front as int, front as int) =~= Seq::<char>::empty());
                if back > front {
                    let sub = s.substring_char(front, back);
                    let comp = String::from_str(sub);
                    assert(comp@ =~= full);
                    assert(orig.drop_last() =~= self@);
                    return Some(comp);
                }
                return None;
            }
        }
    }

    /// All remaining components, first to last.
    pub fn into_vec(self) -> (v: Vec<String>)
        ensures
            v@.map_values(|s: String| s@) == self@,
    {
        let mut it = self;
        let mut v: Vec<String> = Vec::new();
        let ghost all = it@;
        loop
            invariant
                v@.map_values(|s: String| s@) + it@ == all,
            ensures
                v@.map_values(|s: String| s@) == all,
            decreases it@.len(),
        {
            let ghost prev = v@.map_values(|s: String| s@);
            match it.next() {
                None => {
                    assert(prev + it@ =~= prev);
                    break;
                },
                Some(c) => {
                    v.push(c);
                    assert(v@.map_values(|s: String| s@) =~= prev.push(c@));
                    assert(prev.push(c@) + it@ =~= all);
                },
            }
        }
        v
    }
}

} // verus!
