//! Slash-separated paths as texts: their components, and the operations that
//! are defined by them.
//!
//! A path is read the way the file system reads it: repeated separators and
//! `.` segments do not count (except a `.` that a relative path starts with),
//! and neither does a separator at the end.

use vstd::prelude::*;
use vstd::string::*;

use crate::text::{chars_of, lemma_texts_push, opt_text, same_text, substring_of, texts};

verus! {

/// Where the segment that starts at `i` ends: at the next `/`, or at the end.
pub open spec fn segment_end(s: Seq<char>, i: int) -> int
    decreases s.len() - i,
{
    if i < 0 || i >= s.len() {
        s.len() as int
    } else if s[i] == '/' {
        i
    } else {
        segment_end(s, i + 1)
    }
}

pub proof fn lemma_segment_end(s: Seq<char>, i: int)
    requires
        0 <= i <= s.len(),
    ensures
        i <= segment_end(s, i) <= s.len(),
        forall|j: int| i <= j < segment_end(s, i) ==> s[j] != '/',
        segment_end(s, i) < s.len() ==> s[segment_end(s, i)] == '/',
    decreases s.len() - i,
{
    if i < s.len() && s[i] != '/' {
        lemma_segment_end(s, i + 1);
    }
}

/// The bounds of the components of `s` that start at `i` or later, where `i` is
/// the start of a segment: every segment but the empty ones and `.`.
pub open spec fn body_spans(s: Seq<char>, i: int) -> Seq<(int, int)>
    decreases s.len() - i + 1,
{
    if i < 0 || i >= s.len() {
        Seq::empty()
    } else {
        let e = segment_end(s, i);
        proof {
            lemma_segment_end(s, i);
        }
        let rest = body_spans(s, e + 1);
        if e == i || s.subrange(i, e) == seq!['.'] {
            rest
        } else {
            seq![(i, e)] + rest
        }
    }
}

/// The bounds of the components of `s`: the root of an absolute path, the `.`
/// that a relative path starts with, and every other segment that counts.
pub open spec fn spans(s: Seq<char>) -> Seq<(int, int)> {
    if s.len() > 0 && s[0] == '/' {
        seq![(0int, 1int)] + body_spans(s, 1)
    } else if s.len() > 0 && s.subrange(0, segment_end(s, 0)) == seq!['.'] {
        seq![(0int, 1int)] + body_spans(s, 1)
    } else {
        body_spans(s, 0)
    }
}

/// The components of `s`. The root reads `/`, the current directory `.` and the
/// parent directory `..`; every other component is a name.
pub open spec fn components(s: Seq<char>) -> Seq<Seq<char>> {
    spans(s).map_values(|p: (int, int)| s.subrange(p.0, p.1))
}

/// Whether a component is a name.
pub open spec fn is_name(c: Seq<char>) -> bool {
    c != seq!['/'] && c != seq!['.'] && c != seq!['.', '.']
}

/// The stretch of `s` from the first of `part` to the last of it.
pub open spec fn spanned(s: Seq<char>, part: Seq<(int, int)>) -> Seq<char> {
    if part.len() == 0 {
        Seq::empty()
    } else {
        s.subrange(part[0].0, part.last().1)
    }
}

/// Whether `s` is absolute.
pub open spec fn absolute(s: Seq<char>) -> bool {
    s.len() > 0 && s[0] == '/'
}

/// The last component of `s`, where it is a name.
pub open spec fn final_name(s: Seq<char>) -> Option<Seq<char>> {
    let c = components(s);
    if c.len() > 0 && is_name(c.last()) {
        Some(c.last())
    } else {
        None
    }
}

/// `s` without its last component; nothing for the root and the empty path.
pub open spec fn parent_of(s: Seq<char>) -> Option<Seq<char>> {
    let c = components(s);
    if c.len() > 0 && c.last() != seq!['/'] {
        Some(spanned(s, spans(s).drop_last()))
    } else {
        None
    }
}

/// Whether the components of `s` begin with those of `base`.
pub open spec fn lies_under(s: Seq<char>, base: Seq<char>) -> bool {
    components(base).len() <= components(s).len() && components(s).take(
        components(base).len() as int,
    ) == components(base)
}

/// What is left of `s` behind the components of `base`.
pub open spec fn stripped(s: Seq<char>, base: Seq<char>) -> Option<Seq<char>> {
    if lies_under(s, base) {
        Some(spanned(s, spans(s).skip(components(base).len() as int)))
    } else {
        None
    }
}

/// `rel` under `base`; an absolute `rel` stands for itself.
pub open spec fn joined_path(base: Seq<char>, rel: Seq<char>) -> Seq<char> {
    if absolute(rel) || base.len() == 0 {
        rel
    } else if base.last() == '/' {
        base + rel
    } else {
        base.push('/') + rel
    }
}

/// Every span lies inside `s`, they follow one another, and none is empty.
pub open spec fn spans_ordered(s: Seq<char>, p: Seq<(int, int)>, from: int) -> bool {
    &&& forall|i: int|
        0 <= i < p.len() ==> from <= (#[trigger] p[i]).0 && p[i].0 < p[i].1 && p[i].1 <= s.len()
    &&& forall|i: int, j: int| 0 <= i < j < p.len() ==> (#[trigger] p[i]).1 <= (#[trigger] p[j]).0
}

pub proof fn lemma_body_spans(s: Seq<char>, i: int)
    requires
        0 <= i,
    ensures
        spans_ordered(s, body_spans(s, i), i),
    decreases s.len() - i + 1,
{
    if i < s.len() {
        let e = segment_end(s, i);
        lemma_segment_end(s, i);
        lemma_body_spans(s, e + 1);
    }
}

pub proof fn lemma_spans(s: Seq<char>)
    ensures
        spans_ordered(s, spans(s), 0),
{
    lemma_body_spans(s, 0);
    lemma_body_spans(s, 1);
}

/// No component but the root holds a separator, and none is empty.
pub proof fn lemma_component_chars(s: Seq<char>, k: int)
    requires
        0 <= k < components(s).len(),
    ensures
        components(s)[k].len() > 0,
        components(s)[k] != seq!['/'] ==> !components(s)[k].contains('/'),
{
    lemma_spans(s);
    lemma_span_chars(s, 0);
    lemma_span_chars(s, 1);
    if s.len() > 0 {
        lemma_segment_end(s, 0);
        let first = s.subrange(0, 1);
        if s[0] == '/' {
            assert(first =~= seq!['/']);
            if k > 0 {
                assert(spans(s)[k] == body_spans(s, 1)[k - 1]);
            }
        } else if s.subrange(0, segment_end(s, 0)) == seq!['.'] {
            assert(s.subrange(0, segment_end(s, 0))[0] == '.');
            assert(first =~= seq!['.']);
            assert(!first.contains('/'));
            if k > 0 {
                assert(spans(s)[k] == body_spans(s, 1)[k - 1]);
            }
        }
    }
}

proof fn lemma_span_chars(s: Seq<char>, i: int)
    requires
        0 <= i,
    ensures
        forall|k: int|
            0 <= k < body_spans(s, i).len() ==> !(#[trigger] s.subrange(
                body_spans(s, i)[k].0,
                body_spans(s, i)[k].1,
            )).contains('/') && s.subrange(body_spans(s, i)[k].0, body_spans(s, i)[k].1)
                != seq!['.'],
    decreases s.len() - i + 1,
{
    if i < s.len() {
        let e = segment_end(s, i);
        lemma_segment_end(s, i);
        lemma_span_chars(s, e + 1);
        let here = body_spans(s, i);
        let rest = body_spans(s, e + 1);
        assert forall|k: int| 0 <= k < here.len() implies !(#[trigger] s.subrange(
            here[k].0,
            here[k].1,
        )).contains('/') && s.subrange(here[k].0, here[k].1) != seq!['.'] by {
            if here.len() == rest.len() {
                assert(here =~= rest);
            } else if k > 0 {
                assert(here[k] == rest[k - 1]);
            } else {
                assert(here[0] == (i, e));
            }
        }
    }
}

/// Whether `spans` lists the bounds of `model`.
pub open spec fn bounds_agree(found: Seq<(usize, usize)>, model: Seq<(int, int)>) -> bool {
    &&& found.len() == model.len()
    &&& forall|i: int|
        0 <= i < found.len() ==> (#[trigger] found[i]).0 == model[i].0 && found[i].1 == model[i].1
}

/// The bounds of the components of a path.
pub fn component_bounds(chars: &Vec<char>) -> (out: Vec<(usize, usize)>)
    ensures
        bounds_agree(out@, spans(chars@)),
{
    let mut out: Vec<(usize, usize)> = Vec::new();
    let n: usize = chars.len();
    let mut i: usize = 0;
    let ghost s = chars@;
    if n > 0 && chars[0] == '/' {
        out.push((0, 1));
        i = 1;
    } else if n > 0 && chars[0] == '.' && (n == 1 || chars[1] == '/') {
        proof {
            reveal_with_fuel(segment_end, 3);
            assert(segment_end(s, 0) == 1);
            assert(s.subrange(0, 1) =~= seq!['.']);
        }
        out.push((0, 1));
        i = 1;
    } else {
        proof {
            if n > 0 {
                lemma_segment_end(s, 0);
                reveal_with_fuel(segment_end, 3);
                let first = s.subrange(0, segment_end(s, 0));
                if first == seq!['.'] {
                    assert(first.len() == 1);
                    assert(first[0] == '.');
                    assert(s[0] == '.');
                }
            }
        }
    }
    let ghost head = spans(s).take(out@.len() as int);
    proof {
        assert(spans(s) =~= head + body_spans(s, i as int));
    }
    while i < n
        invariant
            0 <= i,
            n == chars@.len(),
            s == chars@,
            head.len() == out@.len(),
            bounds_agree(out@, head),
            spans(s) == head + body_spans(s, i as int),
        decreases n - i,
    {
        let mut e: usize = i;
        while e < n && chars[e] != '/'
            invariant
                i <= e <= n,
                n == chars@.len(),
                s == chars@,
                segment_end(s, i as int) == segment_end(s, e as int),
            decreases n - e,
        {
            e = e + 1;
        }
        proof {
            lemma_segment_end(s, i as int);
            assert(segment_end(s, i as int) == e);
        }
        let dot = e - i == 1 && chars[i] == '.';
        proof {
            let seg = s.subrange(i as int, e as int);
            if dot {
                assert(seg =~= seq!['.']);
            } else if seg == seq!['.'] {
                assert(seg.len() == 1 && seg[0] == '.');
            }
        }
        if e > i && !dot {
            proof {
                let grown = head.push((i as int, e as int));
                assert(grown + body_spans(s, e + 1) =~= head + body_spans(s, i as int));
                head = grown;
            }
            out.push((i, e));
        }
        if e == n {
            proof {
                assert(head + body_spans(s, e + 1) =~= head);
            }
            return out;
        }
        i = e + 1;
    }
    proof {
        assert(head + body_spans(s, i as int) =~= head);
    }
    out
}

/// The components of a path.
pub fn component_texts(path: &str) -> (out: Vec<String>)
    ensures
        texts(out@) == components(path@),
{
    let chars = chars_of(path);
    let bounds = component_bounds(&chars);
    let mut out: Vec<String> = Vec::new();
    proof {
        lemma_spans(path@);
    }
    for i in 0..bounds.len()
        invariant
            chars@ == path@,
            bounds_agree(bounds@, spans(path@)),
            spans_ordered(path@, spans(path@), 0),
            texts(out@) == components(path@).take(i as int),
    {
        let (from, to) = bounds[i];
        proof {
            assert(spans(path@)[i as int].0 == from);
        }
        let text = substring_of(&chars, from, to);
        proof {
            lemma_texts_push(out@, text);
            assert(components(path@).take(i + 1) =~= components(path@).take(i as int).push(text@));
        }
        out.push(text);
    }
    proof {
        assert(components(path@).take(bounds@.len() as int) =~= components(path@));
    }
    out
}

/// Whether `path` is absolute.
pub fn is_absolute(path: &str) -> (r: bool)
    ensures
        r == absolute(path@),
{
    let chars = chars_of(path);
    chars.len() > 0 && chars[0] == '/'
}

/// Whether a component is a name.
pub fn is_name_component(c: &str) -> (r: bool)
    ensures
        r == is_name(c@),
{
    proof {
        reveal_strlit("/");
        reveal_strlit(".");
        reveal_strlit("..");
        assert("/"@ =~= seq!['/']);
        assert("."@ =~= seq!['.']);
        assert(".."@ =~= seq!['.', '.']);
    }
    !same_text(c, "/") && !same_text(c, ".") && !same_text(c, "..")
}

/// The last component of `path`, where it is a name.
pub fn file_name(path: &str) -> (out: Option<String>)
    ensures
        opt_text(out) == final_name(path@),
{
    let mut parts = component_texts(path);
    proof {
        assert(texts(parts@).len() == parts@.len());
    }
    if parts.len() == 0 {
        return None;
    }
    proof {
        assert(texts(parts@).last() == parts@.last()@);
    }
    match parts.pop() {
        Some(last) => {
            if is_name_component(last.as_str()) {
                Some(last)
            } else {
                None
            }
        },
        None => None,
    }
}

/// `path` without its last component; nothing for the root and the empty path.
pub fn parent(path: &str) -> (out: Option<String>)
    ensures
        opt_text(out) == parent_of(path@),
{
    let chars = chars_of(path);
    let bounds = component_bounds(&chars);
    let n: usize = bounds.len();
    proof {
        lemma_spans(path@);
    }
    if n == 0 {
        return None;
    }
    let (from, to) = bounds[n - 1];
    proof {
        let c = path@.subrange(from as int, to as int);
        assert(components(path@).last() == c);
        if to - from == 1 && path@[from as int] == '/' {
            assert(c =~= seq!['/']);
        } else if c == seq!['/'] {
            assert(c.len() == 1 && c[0] == '/');
        }
    }
    if to - from == 1 && chars[from] == '/' {
        return None;
    }
    if n == 1 {
        return Some(String::new());
    }
    proof {
        assert(spans(path@).drop_last()[0].0 == bounds@[0].0);
        assert(spans(path@).drop_last().last().1 == bounds@[n - 2].1);
        assert(spans(path@)[0].0 < spans(path@)[0].1);
        assert(spans(path@)[n - 2].0 < spans(path@)[n - 2].1);
        if n > 2 {
            assert(spans(path@)[0].1 <= spans(path@)[n - 2].0);
        }
    }
    Some(substring_of(&chars, bounds[0].0, bounds[n - 2].1))
}

/// Whether the components of `path` begin with those of `base`.
pub fn is_under(path: &str, base: &str) -> (r: bool)
    ensures
        r == lies_under(path@, base@),
{
    let p = component_texts(path);
    let b = component_texts(base);
    proof {
        assert(texts(p@).len() == p@.len());
        assert(texts(b@).len() == b@.len());
    }
    if b.len() > p.len() {
        return false;
    }
    for i in 0..b.len()
        invariant
            texts(p@) == components(path@),
            texts(b@) == components(base@),
            texts(p@).len() == p@.len(),
            texts(b@).len() == b@.len(),
            b@.len() <= p@.len(),
            forall|j: int| 0 <= j < i ==> texts(p@)[j] == #[trigger] texts(b@)[j],
    {
        if p[i] != b[i] {
            proof {
                assert(components(path@).take(b@.len() as int)[i as int] != components(
                    base@,
                )[i as int]);
            }
            return false;
        }
        proof {
            assert(texts(p@)[i as int] == texts(b@)[i as int]);
        }
    }
    proof {
        assert(components(path@).take(b@.len() as int) =~= components(base@));
    }
    true
}

/// What is left of `path` behind the components of `base`.
pub fn strip_prefix(path: &str, base: &str) -> (out: Option<String>)
    ensures
        opt_text(out) == stripped(path@, base@),
{
    if !is_under(path, base) {
        return None;
    }
    let chars = chars_of(path);
    let bounds = component_bounds(&chars);
    let base_chars = chars_of(base);
    let base_bounds = component_bounds(&base_chars);
    let k: usize = base_bounds.len();
    let n: usize = bounds.len();
    if n == k {
        return Some(String::new());
    }
    proof {
        lemma_spans(path@);
        let rest = spans(path@).skip(k as int);
        assert(rest[0].0 == bounds@[k as int].0);
        assert(rest.last().1 == bounds@[n - 1].1);
        assert(spans(path@)[k as int].0 < spans(path@)[k as int].1);
        if k + 1 < n {
            assert(spans(path@)[k as int].1 <= spans(path@)[n - 1].0);
            assert(spans(path@)[n - 1].0 < spans(path@)[n - 1].1);
        }
    }
    Some(substring_of(&chars, bounds[k].0, bounds[n - 1].1))
}

/// `rel` under `base`; an absolute `rel` stands for itself.
pub fn join(base: &str, rel: &str) -> (out: String)
    ensures
        out@ == joined_path(base@, rel@),
{
    if is_absolute(rel) {
        return rel.to_owned();
    }
    let chars = chars_of(base);
    let n: usize = chars.len();
    if n == 0 {
        return rel.to_owned();
    }
    let mut out = base.to_owned();
    if chars[n - 1] != '/' {
        out.push('/');
    }
    out.append(rel);
    out
}

/// Whether the characters of `s` from `a` to `b` are a segment: what stands between
/// two separators, or between one and an end.
pub open spec fn is_segment(s: Seq<char>, a: int, b: int) -> bool {
    &&& 0 <= a < b <= s.len()
    &&& a == 0 || s[a - 1] == '/'
    &&& b == s.len() || s[b] == '/'
    &&& forall|j: int| a <= j < b ==> #[trigger] s[j] != '/'
}

proof fn lemma_body_segments(s: Seq<char>, i: int)
    requires
        0 <= i,
        i == 0 || i > s.len() || s[i - 1] == '/',
    ensures
        forall|k: int|
            0 <= k < body_spans(s, i).len() ==> is_segment(
                s,
                (#[trigger] body_spans(s, i)[k]).0,
                body_spans(s, i)[k].1,
            ) && s.subrange(body_spans(s, i)[k].0, body_spans(s, i)[k].1) != seq!['.'],
        forall|a: int, b: int| #[trigger]
            is_segment(s, a, b) && i <= a && s.subrange(a, b) != seq!['.'] ==> body_spans(
                s,
                i,
            ).contains((a, b)),
    decreases s.len() - i + 1,
{
    if i < s.len() {
        let e = segment_end(s, i);
        lemma_segment_end(s, i);
        lemma_body_segments(s, e + 1);
        let here = body_spans(s, i);
        let rest = body_spans(s, e + 1);
        let skips = e == i || s.subrange(i, e) == seq!['.'];
        assert forall|k: int| 0 <= k < here.len() implies is_segment(
            s,
            (#[trigger] here[k]).0,
            here[k].1,
        ) && s.subrange(here[k].0, here[k].1) != seq!['.'] by {
            if skips {
                assert(here[k] == rest[k]);
            } else if k > 0 {
                assert(here[k] == rest[k - 1]);
            }
        }
        assert forall|a: int, b: int| #[trigger]
            is_segment(s, a, b) && i <= a && s.subrange(a, b) != seq!['.'] implies here.contains(
            (a, b)) by {
            if a == i {
                assert(e == b) by {
                    if e < b {
                        assert(s[e] != '/');
                    }
                    if b < e {
                        assert(s[b] != '/');
                    }
                }
                assert(here[0] == (a, b));
            } else {
                assert(a >= e + 1) by {
                    if a <= e {
                        assert(s[a - 1] == '/');
                        assert(s[a - 1] != '/');
                    }
                }
                let k = choose|k: int| 0 <= k < rest.len() && rest[k] == (a, b);
                if skips {
                    assert(here[k] == (a, b));
                } else {
                    assert(here[k + 1] == (a, b));
                }
            }
        }
    }
}

/// A path is made of its segments: every one between its separators, in order, but
/// for the empty ones and for those that stay where they are. An absolute path has
/// its root before them, and a relative one that starts with `.` keeps that.
pub proof fn law_path_is_made_of_its_segments(s: Seq<char>)
    ensures
        forall|a: int, b: int| #[trigger]
            is_segment(s, a, b) && s.subrange(a, b) != seq!['.'] ==> spans(s).contains((a, b)),
        forall|k: int|
            0 <= k < spans(s).len() ==> {
                let p = #[trigger] spans(s)[k];
                ||| is_segment(s, p.0, p.1) && (s.subrange(p.0, p.1) != seq!['.'] || k == 0)
                ||| k == 0 && s[0] == '/' && p == (0int, 1int)
            },
        absolute(s) <==> s.len() > 0 && s[0] == '/',
        absolute(s) ==> components(s).len() > 0 && components(s)[0] == seq!['/'],
{
    lemma_body_segments(s, 0);
    if s.len() > 0 {
        lemma_segment_end(s, 0);
        let dot = s.subrange(0, segment_end(s, 0)) == seq!['.'];
        if s[0] == '/' {
            lemma_body_segments(s, 1);
            let rest = body_spans(s, 1);
            assert forall|a: int, b: int| #[trigger]
                is_segment(s, a, b) && s.subrange(a, b) != seq!['.'] implies spans(s).contains(
                (a, b)) by {
                if a == 0 {
                    assert(s[0] != '/');
                }
                let k = choose|k: int| 0 <= k < rest.len() && rest[k] == (a, b);
                assert(spans(s)[k + 1] == (a, b));
            }
            assert forall|k: int| 0 < k < spans(s).len() implies spans(s)[k] == #[trigger] rest[k
                - 1] by {}
            assert(components(s)[0] =~= seq!['/']);
        } else if dot {
            assert(segment_end(s, 0) == 1) by {
                assert(s.subrange(0, segment_end(s, 0)).len() == 1);
            }
            assert(s.subrange(0, 1)[0] == '.');
            lemma_dot_first(s);
        }
    }
    assert forall|k: int| 0 <= k < spans(s).len() implies {
        let p = #[trigger] spans(s)[k];
        ||| is_segment(s, p.0, p.1) && (s.subrange(p.0, p.1) != seq!['.'] || k == 0)
        ||| k == 0 && s[0] == '/' && p == (0int, 1int)
    } by {
        if s[0] == '/' && k > 0 {
            assert(spans(s)[k] == body_spans(s, 1)[k - 1]);
        }
    }
}

/// The same for a path that starts with `.`.
proof fn lemma_dot_first(s: Seq<char>)
    requires
        s.len() > 0,
        s[0] == '.',
        segment_end(s, 0) == 1,
        s.subrange(0, 1) == seq!['.'],
    ensures
        forall|a: int, b: int| #[trigger]
            is_segment(s, a, b) && s.subrange(a, b) != seq!['.'] ==> spans(s).contains((a, b)),
        forall|k: int|
            0 <= k < spans(s).len() ==> {
                let p = #[trigger] spans(s)[k];
                is_segment(s, p.0, p.1) && (s.subrange(p.0, p.1) != seq!['.'] || k == 0)
            },
{
    lemma_segment_end(s, 0);
    lemma_body_segments(s, 2);
    let rest = body_spans(s, 2);
    let after = body_spans(s, 1);
    assert(is_segment(s, 0, 1)) by {
        if s.len() > 1 {
            assert(s[1] == '/');
        }
    }
    // The separator behind the dot starts an empty segment.
    assert(after == rest) by {
        if s.len() > 1 {
            assert(segment_end(s, 1) == 1);
        } else {
            assert(after =~= rest);
        }
    }
    assert forall|a: int, b: int| #[trigger]
        is_segment(s, a, b) && s.subrange(a, b) != seq!['.'] implies spans(s).contains((a, b)) by {
        if a == 0 {
            assert(b == 1) by {
                if b > 1 {
                    assert(s[1] != '/');
                }
            }
        } else {
            assert(a >= 2) by {
                if a == 1 {
                    assert(s[0] == '/');
                }
            }
            let k = choose|k: int| 0 <= k < rest.len() && rest[k] == (a, b);
            assert(spans(s)[k + 1] == (a, b));
        }
    }
    assert forall|k: int| 0 <= k < spans(s).len() implies {
        let p = #[trigger] spans(s)[k];
        is_segment(s, p.0, p.1) && (s.subrange(p.0, p.1) != seq!['.'] || k == 0)
    } by {
        if k > 0 {
            assert(spans(s)[k] == rest[k - 1]);
        }
    }
}

/// A name that stands behind a directory is the last name of the path, whatever the
/// directory is.
pub proof fn law_last_name_is_found(dir: Seq<char>, name: Seq<char>)
    requires
        name.len() > 0,
        forall|i: int| 0 <= i < name.len() ==> #[trigger] name[i] != '/',
        name != seq!['.'],
        name != seq!['.', '.'],
    ensures
        final_name(joined_path(dir, name)) == Some(name),
{
    let s = joined_path(dir, name);
    let a = s.len() - name.len();
    assert(name[0] != '/');
    assert(s.subrange(a, s.len() as int) =~= name);
    assert forall|j: int| a <= j < s.len() implies #[trigger] s[j] != '/' by {
        assert(s[j] == name[j - a]);
    }
    assert(is_segment(s, a, s.len() as int));
    law_path_is_made_of_its_segments(s);
    lemma_spans(s);
    let k = choose|k: int| 0 <= k < spans(s).len() && spans(s)[k] == (a, s.len() as int);
    if k < spans(s).len() - 1 {
        assert(spans(s)[k].1 <= spans(s)[k + 1].0);
        assert(spans(s)[k + 1].0 < spans(s)[k + 1].1 <= s.len());
    }
    assert(components(s)[k] == name);
    if name == seq!['/'] {
        assert(name[0] == '/');
    }
}

/// A path is joined behind a directory with one separator between them; an absolute
/// one stands for itself.
pub proof fn law_joined_behind_one_separator(base: Seq<char>, rel: Seq<char>)
    ensures
        rel.len() > 0 && rel[0] == '/' ==> joined_path(base, rel) == rel,
        base.len() == 0 ==> joined_path(base, rel) == rel,
        !(rel.len() > 0 && rel[0] == '/') && base.len() > 0 ==> {
            &&& base[base.len() - 1] == '/' ==> joined_path(base, rel) == base + rel
            &&& base[base.len() - 1] != '/' ==> joined_path(base, rel) == base + seq!['/'] + rel
        },
{
    assert(base.push('/') =~= base + seq!['/']);
}

/// A path lies under another exactly where it starts with all its components; what
/// is left of it is the end of the path.
pub proof fn law_path_lies_under_its_start(s: Seq<char>, base: Seq<char>)
    ensures
        stripped(s, base) is Some <==> components(base).len() <= components(s).len() && forall|
            i: int,
        |
            0 <= i < components(base).len() ==> #[trigger] components(s)[i] == components(base)[i],
        stripped(s, base) matches Some(rel) ==> (components(s).len() == components(base).len()
            ==> rel.len() == 0) && (components(s).len() > components(base).len() ==> rel
            == s.subrange(
            spans(s)[components(base).len() as int].0,
            spans(s)[spans(s).len() - 1].1,
        )),
{
    let n = components(base).len() as int;
    if n <= components(s).len() {
        let head = components(s).take(n);
        if head == components(base) {
            assert forall|i: int| 0 <= i < n implies #[trigger] components(s)[i] == components(
                base,
            )[i] by {
                assert(head[i] == components(s)[i]);
            }
        }
        if forall|i: int| 0 <= i < n ==> #[trigger] components(s)[i] == components(base)[i] {
            assert(head =~= components(base));
        }
    }
}

proof fn lemma_last_span(s: Seq<char>, a: int)
    requires
        is_segment(s, a, s.len() as int),
        s.subrange(a, s.len() as int) != seq!['.'],
    ensures
        spans(s).len() > 0,
        spans(s).last() == (a, s.len() as int),
        spans(s)[0].0 == 0,
{
    law_path_is_made_of_its_segments(s);
    lemma_spans(s);
    lemma_segment_end(s, 0);
    let k = choose|k: int| 0 <= k < spans(s).len() && spans(s)[k] == (a, s.len() as int);
    if k < spans(s).len() - 1 {
        assert(spans(s)[k].1 <= spans(s)[k + 1].0);
        assert(spans(s)[k + 1].0 < spans(s)[k + 1].1 <= s.len());
    }
}

/// The parent of a path is what stands before its last name: the directory that the
/// name was put behind, the root, or nothing where there is only the name.
pub proof fn law_parent_is_what_stands_before(dir: Seq<char>, name: Seq<char>, a: int)
    requires
        name.len() > 0,
        forall|i: int| 0 <= i < name.len() ==> #[trigger] name[i] != '/',
        name != seq!['.'],
        is_segment(dir, a, dir.len() as int),
        dir.subrange(a, dir.len() as int) != seq!['.'],
    ensures
        parent_of(joined_path(dir, name)) == Some(dir),
        parent_of(seq!['/'] + name) == Some(seq!['/']),
        parent_of(name) == Some(Seq::<char>::empty()),
{
    assert(name[0] != '/');
    assert(dir[dir.len() - 1] != '/');
    let s = joined_path(dir, name);
    let n = dir.len() as int;
    assert(s =~= dir + seq!['/'] + name);
    assert forall|j: int| n + 1 <= j < s.len() implies #[trigger] s[j] != '/' by {
        assert(s[j] == name[j - n - 1]);
    }
    assert forall|j: int| a <= j < n implies #[trigger] s[j] != '/' by {
        assert(s[j] == dir[j]);
    }
    assert(s.subrange(n + 1, s.len() as int) =~= name);
    assert(s.subrange(a, n) =~= dir.subrange(a, n));
    assert(is_segment(s, n + 1, s.len() as int));
    assert(a == 0 || s[a - 1] == dir[a - 1]);
    assert(is_segment(s, a, n));
    lemma_last_span(s, n + 1);
    law_path_is_made_of_its_segments(s);
    lemma_spans(s);
    let p = spans(s);
    let m = p.len() as int;
    let k = choose|k: int| 0 <= k < p.len() && p[k] == (a, n);
    assert(k == m - 2) by {
        if k < m - 2 {
            let q = p[m - 2];
            assert(p[k].1 <= q.0);
            assert(q.1 <= p[m - 1].0);
            assert(q.0 == n && q.1 == n + 1);
            assert(s[n] == '/');
        }
    }
    assert(p.drop_last()[0].0 == 0);
    assert(s.subrange(0, n) =~= dir);
    assert(components(s).last() =~= name);
    // The root and a single name.
    let r = seq!['/'] + name;
    assert forall|j: int| 1 <= j < r.len() implies #[trigger] r[j] != '/' by {
        assert(r[j] == name[j - 1]);
    }
    assert(r.subrange(1, r.len() as int) =~= name);
    assert(is_segment(r, 1, r.len() as int));
    lemma_last_span(r, 1);
    lemma_spans(r);
    let x = spans(r);
    assert(x[0] == (0int, 1int));
    assert(x.len() == 2) by {
        if x.len() > 2 {
            assert(x[0].1 <= x[1].0);
            assert(x[1].1 <= x[x.len() - 1].0);
        }
    }
    assert(r.subrange(0, 1) =~= seq!['/']);
    assert(components(r).last() =~= name);
    assert(name.subrange(0, name.len() as int) =~= name);
    assert(is_segment(name, 0, name.len() as int));
    lemma_last_span(name, 0);
    lemma_spans(name);
    let y = spans(name);
    assert(y.len() == 1) by {
        if y.len() > 1 {
            assert(y[0].1 <= y[y.len() - 1].0);
        }
    }
    assert(components(name).last() =~= name);
    if name == seq!['/'] {
        assert(name[0] == '/');
    }
}

} // verus!
