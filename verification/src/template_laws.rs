//! What holds of every template: how it is read, and what it renders to.

use vstd::prelude::*;
use crate::fragments::FragmentMap;
use crate::template::{
    alternation_close, fallback_len, lemma_literal_len_bound, literal_len, name_len,
    reference_close, render_segments, rendered, resolve, segments_from, segments_of, token_at,
    SegmentView,
};

verus! {

/// The template text that a segment is read from.
pub open spec fn source_of(segment: SegmentView) -> Seq<char> {
    match segment {
        SegmentView::Literal(text) => text,
        SegmentView::Reference(name) => seq!['#'] + name + seq!['#'],
        SegmentView::Alternation(name, fallback) => seq!['(', '#'] + name + seq!['#', '|']
            + fallback + seq![')'],
    }
}

/// The template text that a list of segments is read from.
pub open spec fn written(segments: Seq<SegmentView>) -> Seq<char>
    decreases segments.len(),
{
    if segments.len() == 0 {
        Seq::empty()
    } else {
        written(segments.drop_last()) + source_of(segments.last())
    }
}

/// Whether a segment renders to the text it was read from: a literal does,
/// and so does a reference to a fragment that the store lacks. An escape
/// and an alternation do not.
pub open spec fn stands(segment: SegmentView, store: FragmentMap) -> bool {
    match segment {
        SegmentView::Literal(_) => true,
        SegmentView::Reference(name) => name.len() > 0 && !store.contains_key(name),
        SegmentView::Alternation(_, _) => false,
    }
}

/// What reading a template can give: a literal is not empty, a name holds
/// neither `#` nor a line feed, the name of an alternation is not empty
/// and its fallback holds no `)`.
pub open spec fn well_formed(segment: SegmentView) -> bool {
    match segment {
        SegmentView::Literal(text) => text.len() > 0,
        SegmentView::Reference(name) => forall|i: int|
            0 <= i < name.len() ==> name[i] != '#' && name[i] != '\n',
        SegmentView::Alternation(name, fallback) => {
            &&& name.len() > 0
            &&& forall|i: int| 0 <= i < name.len() ==> name[i] != '#' && name[i] != '\n'
            &&& forall|i: int| 0 <= i < fallback.len() ==> fallback[i] != ')'
        },
    }
}

/// A run of `k` name characters that is followed by a `#`, a line feed or
/// the end of the text is a name of length `k`.
proof fn lemma_name_len_exact(s: Seq<char>, from: int, k: nat)
    requires
        0 <= from,
        from + k <= s.len(),
        forall|i: int| from <= i < from + k ==> s[i] != '#' && s[i] != '\n',
        from + k == s.len() || s[from + k] == '#' || s[from + k] == '\n',
    ensures
        name_len(s, from) == k,
    decreases k,
{
    if k > 0 {
        lemma_name_len_exact(s, from + 1, (k - 1) as nat);
    }
}

proof fn lemma_fallback_len_exact(s: Seq<char>, from: int, k: nat)
    requires
        0 <= from,
        from + k <= s.len(),
        forall|i: int| from <= i < from + k ==> s[i] != ')',
        from + k == s.len() || s[from + k] == ')',
    ensures
        fallback_len(s, from) == k,
    decreases k,
{
    if k > 0 {
        lemma_fallback_len_exact(s, from + 1, (k - 1) as nat);
    }
}

proof fn lemma_literal_len_exact(s: Seq<char>, from: int, k: nat)
    requires
        0 <= from,
        from + k <= s.len(),
        forall|i: int| from <= i < from + k ==> token_at(s, i) is None,
        from + k == s.len() || token_at(s, from + k) is Some,
    ensures
        literal_len(s, from) == k,
    decreases k,
{
    if k > 0 {
        lemma_literal_len_exact(s, from + 1, (k - 1) as nat);
    }
}

/// Every reference and every alternation holds a `#` in its first or
/// second place.
proof fn lemma_token_needs_hash(s: Seq<char>, at: int)
    requires
        0 <= at < s.len() ==> s[at] != '#',
        0 <= at + 1 < s.len() ==> s[at + 1] != '#',
    ensures
        token_at(s, at) is None,
{
}

/// Rendering goes segment by segment.
pub proof fn lemma_render_concat(a: Seq<SegmentView>, b: Seq<SegmentView>, store: FragmentMap)
    ensures
        render_segments(a + b, store) == render_segments(a, store) + render_segments(b, store),
    decreases b.len(),
{
    if b.len() == 0 {
        assert(a + b =~= a);
    } else {
        lemma_render_concat(a, b.drop_last(), store);
        assert((a + b).drop_last() =~= a + b.drop_last());
        assert((a + b).last() == b.last());
    }
}

proof fn lemma_render_one(segment: SegmentView, store: FragmentMap)
    ensures
        render_segments(seq![segment], store) == resolve(segment, store),
{
    assert(seq![segment].drop_last() =~= Seq::<SegmentView>::empty());
    assert(render_segments(seq![segment].drop_last(), store) =~= Seq::<char>::empty());
}

proof fn lemma_written_concat(a: Seq<SegmentView>, b: Seq<SegmentView>)
    ensures
        written(a + b) == written(a) + written(b),
    decreases b.len(),
{
    if b.len() == 0 {
        assert(a + b =~= a);
    } else {
        lemma_written_concat(a, b.drop_last());
        assert((a + b).drop_last() =~= a + b.drop_last());
        assert((a + b).last() == b.last());
    }
}

proof fn lemma_written_one(segment: SegmentView)
    ensures
        written(seq![segment]) == source_of(segment),
{
    assert(seq![segment].drop_last() =~= Seq::<SegmentView>::empty());
    assert(written(seq![segment].drop_last()) =~= Seq::<char>::empty());
}

proof fn lemma_tile_from(s: Seq<char>, at: int)
    requires
        0 <= at <= s.len(),
    ensures
        written(segments_from(s, at)) == s.subrange(at, s.len() as int),
    decreases s.len() - at,
{
    let n = s.len() as int;
    if at < n {
        lemma_literal_len_bound(s, at + 1);
        let (segment, next) = match token_at(s, at) {
            Some(token) => token,
            None => (
                SegmentView::Literal(s.subrange(at, at + 1 + literal_len(s, at + 1))),
                at + 1 + literal_len(s, at + 1),
            ),
        };
        assert(at < next <= n);
        assert(segments_from(s, at) == seq![segment] + segments_from(s, next));
        assert(source_of(segment) == s.subrange(at, next)) by {
            match alternation_close(s, at) {
                Some((hash, end)) => {
                    let name = s.subrange(at + 2, hash);
                    let fallback = s.subrange(hash + 2, end);
                    assert(segment == SegmentView::Alternation(name, fallback));
                    assert(reference_close(s, at + 1) == Some(hash));
                    assert(seq!['(', '#'] + name =~= s.subrange(at, hash));
                    assert(s.subrange(at, hash) + seq!['#', '|'] =~= s.subrange(at, hash + 2));
                    assert(s.subrange(at, hash + 2) + fallback =~= s.subrange(at, end));
                    assert(s.subrange(at, end) + seq![')'] =~= s.subrange(at, next));
                },
                None => match reference_close(s, at) {
                    Some(close) => {
                        let name = s.subrange(at + 1, close);
                        assert(segment == SegmentView::Reference(name));
                        assert(seq!['#'] + name + seq!['#'] =~= s.subrange(at, next));
                    },
                    None => {},
                },
            }
        }
        lemma_tile_from(s, next);
        lemma_written_concat(seq![segment], segments_from(s, next));
        lemma_written_one(segment);
        assert(s.subrange(at, next) + s.subrange(next, n) =~= s.subrange(at, n));
    } else {
        assert(written(segments_from(s, at)) =~= s.subrange(at, n));
    }
}

proof fn lemma_name_len_chars(s: Seq<char>, from: int)
    requires
        0 <= from <= s.len(),
    ensures
        from + name_len(s, from) <= s.len(),
        forall|i: int| from <= i < from + name_len(s, from) ==> s[i] != '#' && s[i] != '\n',
    decreases s.len() - from,
{
    if from < s.len() && s[from] != '#' && s[from] != '\n' {
        lemma_name_len_chars(s, from + 1);
    }
}

proof fn lemma_fallback_len_chars(s: Seq<char>, from: int)
    requires
        0 <= from <= s.len(),
    ensures
        forall|i: int| from <= i < from + fallback_len(s, from) ==> s[i] != ')',
    decreases s.len() - from,
{
    if from < s.len() && s[from] != ')' {
        lemma_fallback_len_chars(s, from + 1);
    }
}

proof fn lemma_well_formed_from(s: Seq<char>, at: int)
    requires
        0 <= at <= s.len(),
    ensures
        forall|i: int|
            0 <= i < segments_from(s, at).len() ==> well_formed(#[trigger] segments_from(s, at)[i]),
    decreases s.len() - at,
{
    if at < s.len() {
        lemma_literal_len_bound(s, at + 1);
        let (segment, next) = match token_at(s, at) {
            Some(token) => token,
            None => (
                SegmentView::Literal(s.subrange(at, at + 1 + literal_len(s, at + 1))),
                at + 1 + literal_len(s, at + 1),
            ),
        };
        let rest = segments_from(s, next);
        assert(segments_from(s, at) == seq![segment] + rest);
        assert(well_formed(segment)) by {
            lemma_name_len_chars(s, at + 1);
            match alternation_close(s, at) {
                Some((hash, end)) => {
                    lemma_name_len_chars(s, at + 2);
                    lemma_fallback_len_chars(s, hash + 2);
                    assert(reference_close(s, at + 1) == Some(hash));
                },
                None => {},
            }
        }
        lemma_well_formed_from(s, next);
        assert forall|i: int| 0 <= i < segments_from(s, at).len() implies well_formed(
            #[trigger] segments_from(s, at)[i],
        ) by {
            if i > 0 {
                assert(segments_from(s, at)[i] == rest[i - 1]);
            }
        }
    }
}

/// Every segment that reading a template gives is well formed.
pub proof fn lemma_segments_well_formed(s: Seq<char>)
    ensures
        forall|i: int| 0 <= i < segments_of(s).len() ==> well_formed(#[trigger] segments_of(s)[i]),
{
    lemma_well_formed_from(s, 0);
}

/// Reading a template loses nothing: its segments, written out one after
/// the other, give the template again.
pub proof fn lemma_segments_tile(s: Seq<char>)
    ensures
        written(segments_of(s)) == s,
{
    lemma_tile_from(s, 0);
    assert(s.subrange(0, s.len() as int) =~= s);
}

proof fn lemma_standing_segments(segments: Seq<SegmentView>, store: FragmentMap)
    requires
        forall|i: int| 0 <= i < segments.len() ==> stands(#[trigger] segments[i], store),
    ensures
        render_segments(segments, store) == written(segments),
    decreases segments.len(),
{
    if segments.len() > 0 {
        let front = segments.drop_last();
        assert(forall|i: int| 0 <= i < front.len() ==> front[i] == segments[i]);
        lemma_standing_segments(front, store);
        assert(stands(segments[segments.len() - 1], store));
    }
}

/// A template renders to itself where it holds nothing but literal text
/// and references to fragments that the store lacks, wherever in the
/// template they stand.
pub proof fn lemma_standing_template_renders_unchanged(s: Seq<char>, store: FragmentMap)
    requires
        forall|i: int|
            0 <= i < segments_of(s).len() ==> stands(#[trigger] segments_of(s)[i], store),
    ensures
        rendered(s, store) == s,
{
    lemma_standing_segments(segments_of(s), store);
    lemma_segments_tile(s);
}

/// A template in which no reference and no alternation starts renders to
/// itself, whatever the store holds.
pub proof fn lemma_plain_template_renders_unchanged(s: Seq<char>, store: FragmentMap)
    requires
        forall|at: int| 0 <= at < s.len() ==> token_at(s, at) is None,
    ensures
        rendered(s, store) == s,
{
    if s.len() > 0 {
        lemma_literal_len_exact(s, 1, (s.len() - 1) as nat);
        assert(s.subrange(0, s.len() as int) =~= s);
        assert(segments_from(s, s.len() as int) =~= Seq::empty());
        assert(segments_of(s) =~= seq![SegmentView::Literal(s)]);
        lemma_render_one(SegmentView::Literal(s), store);
    } else {
        assert(rendered(s, store) =~= s);
    }
}

/// Text without `#` is such a template: it renders to itself.
pub proof fn lemma_text_without_hash_renders_unchanged(s: Seq<char>, store: FragmentMap)
    requires
        forall|i: int| 0 <= i < s.len() ==> s[i] != '#',
    ensures
        rendered(s, store) == s,
{
    assert forall|at: int| 0 <= at < s.len() implies token_at(s, at) is None by {
        lemma_token_needs_hash(s, at);
    }
    lemma_plain_template_renders_unchanged(s, store);
}

/// A reference to a fragment that the store lacks renders to itself,
/// delimiters included. The name is not empty (an empty one is the escape)
/// and holds no `#`.
pub proof fn lemma_unknown_reference_renders_unchanged(name: Seq<char>, store: FragmentMap)
    requires
        name.len() > 0,
        forall|i: int| 0 <= i < name.len() ==> name[i] != '#',
        !store.contains_key(name),
    ensures
        rendered(seq!['#'] + name + seq!['#'], store) == seq!['#'] + name + seq!['#'],
{
    let s = seq!['#'] + name + seq!['#'];
    let last = s.len() - 1;
    assert(forall|i: int| 1 <= i < last ==> s[i] == name[i - 1]);
    assert(name_len(s, s.len() as int) == 0);
    assert forall|at: int| 1 <= at < s.len() implies token_at(s, at) is None by {
        assert(reference_close(s, last) is None);
    }
    assert(alternation_close(s, 0) is None);
    match reference_close(s, 0) {
        Some(close) => {
            assert(close == last);
            assert(s.subrange(1, close) =~= name);
            assert(segments_from(s, close + 1) =~= Seq::empty());
            assert(segments_of(s) =~= seq![SegmentView::Reference(name)]);
            lemma_render_one(SegmentView::Reference(name), store);
        },
        None => {
            lemma_plain_template_renders_unchanged(s, store);
        },
    }
}

/// How long a name is from a position on depends only on the text from
/// there on; so it is with fallbacks.
proof fn lemma_name_len_shift(p: Seq<char>, t: Seq<char>, k: int)
    requires
        0 <= k,
    ensures
        name_len(p + t, p.len() + k) == name_len(t, k),
        fallback_len(p + t, p.len() + k) == fallback_len(t, k),
    decreases t.len() - k,
{
    if k < t.len() {
        assert((p + t)[p.len() + k] == t[k]);
        lemma_name_len_shift(p, t, k + 1);
    }
}

/// Which reference or alternation starts at a position depends only on the
/// text from there on.
proof fn lemma_token_shift(p: Seq<char>, t: Seq<char>, k: int)
    requires
        0 <= k,
    ensures
        token_at(p + t, p.len() + k) == match token_at(t, k) {
            Some((segment, next)) => Some((segment, p.len() + next)),
            None => None,
        },
{
    let s = p + t;
    let off = p.len() as int;
    assert(forall|i: int| 0 <= i < t.len() ==> s[off + i] == t[i]);
    lemma_name_len_shift(p, t, k + 1);
    lemma_name_len_shift(p, t, k + 2);
    assert(reference_close(s, off + k) == match reference_close(t, k) {
        Some(close) => Some(off + close),
        None => None,
    });
    assert(reference_close(s, off + k + 1) == match reference_close(t, k + 1) {
        Some(close) => Some(off + close),
        None => None,
    });
    match reference_close(t, k + 1) {
        Some(hash) => {
            lemma_name_len_shift(p, t, hash + 2);
        },
        None => {},
    }
    assert(alternation_close(s, off + k) == match alternation_close(t, k) {
        Some((hash, end)) => Some((off + hash, off + end)),
        None => None,
    });
    match alternation_close(t, k) {
        Some((hash, end)) => {
            assert(s.subrange(off + k + 2, off + hash) =~= t.subrange(k + 2, hash));
            assert(s.subrange(off + hash + 2, off + end) =~= t.subrange(hash + 2, end));
        },
        None => match reference_close(t, k) {
            Some(close) => {
                assert(s.subrange(off + k + 1, off + close) =~= t.subrange(k + 1, close));
            },
            None => {},
        },
    }
}

proof fn lemma_literal_len_shift(p: Seq<char>, t: Seq<char>, k: int)
    requires
        0 <= k,
    ensures
        literal_len(p + t, p.len() + k) == literal_len(t, k),
    decreases t.len() - k,
{
    lemma_token_shift(p, t, k);
    if k < t.len() {
        lemma_literal_len_shift(p, t, k + 1);
    }
}

/// The segments from a position on depend only on the text from there on.
proof fn lemma_segments_shift(p: Seq<char>, t: Seq<char>, k: int)
    requires
        0 <= k <= t.len(),
    ensures
        segments_from(p + t, p.len() + k) == segments_from(t, k),
    decreases t.len() - k,
{
    let s = p + t;
    let off = p.len() as int;
    if k < t.len() {
        lemma_token_shift(p, t, k);
        lemma_literal_len_shift(p, t, k + 1);
        lemma_literal_len_bound(t, k + 1);
        match token_at(t, k) {
            Some((segment, next)) => {
                lemma_name_len_chars(t, k + 1);
                lemma_name_len_chars(t, k + 2);
                assert(k < next <= t.len());
                lemma_segments_shift(p, t, next);
            },
            None => {
                let end = k + 1 + literal_len(t, k + 1);
                assert(s.subrange(off + k, off + end) =~= t.subrange(k, end));
                lemma_segments_shift(p, t, end);
            },
        }
    }
}

/// A reference or alternation after text without `#`: the text is one
/// literal segment, and the scan goes on behind the token as if the text
/// began there. The token must not be taken for the inside of an
/// alternation that the text opens: it is an alternation itself or the
/// escape, or the text does not end in `(`.
proof fn lemma_text_then_token(
    before: Seq<char>,
    token: Seq<char>,
    after: Seq<char>,
    segment: SegmentView,
    store: FragmentMap,
)
    requires
        forall|i: int| 0 <= i < before.len() ==> before[i] != '#',
        token_at(token + after, 0) == Some((segment, token.len() as int)),
        token.len() >= 2,
        token[0] == '(' || token[1] == '#' || before.len() == 0 || before.last() != '(',
    ensures
        rendered(before + token + after, store) == before + resolve(segment, store) + rendered(
            after,
            store,
        ),
{
    let rest = token + after;
    let s = before + rest;
    let b = before.len() as int;
    let width = token.len() as int;
    assert(s =~= before + token + after);
    assert(forall|i: int| 0 <= i < b ==> s[i] == before[i]);
    assert(s[b] == token[0] && s[b + 1] == token[1]);
    // The token stands at `b`, and what follows it is `after`.
    lemma_token_shift(before, rest, 0);
    assert(token_at(s, b) == Some((segment, b + width)));
    lemma_segments_shift(before + token, after, 0);
    assert(before + token + after =~= (before + token) + after);
    let tail = segments_of(after);
    assert(segments_from(s, b + width) == tail);
    let middle = segments_from(s, b);
    assert(middle == seq![segment] + tail);
    lemma_render_concat(seq![segment], tail, store);
    lemma_render_one(segment, store);
    // No token starts within `before`.
    assert forall|at: int| 0 <= at < b implies token_at(s, at) is None by {
        if at + 1 < b {
            lemma_token_needs_hash(s, at);
        } else if token[0] == '#' && token[1] == '#' {
            assert(name_len(s, b + 1) == 0);
            assert(reference_close(s, b) == Some(b + 1));
        } else if token[0] != '(' {
            assert(s[at] == before.last());
        }
    }
    if b > 0 {
        lemma_literal_len_exact(s, 1, (b - 1) as nat);
        assert(s.subrange(0, b) =~= before);
        assert(segments_of(s) == seq![SegmentView::Literal(before)] + middle);
        lemma_render_concat(seq![SegmentView::Literal(before)], middle, store);
        lemma_render_one(SegmentView::Literal(before), store);
    } else {
        assert(before + resolve(segment, store) =~= resolve(segment, store));
    }
}

/// A reference renders to the value of its name where the store has one,
/// and to itself where it has none, whatever follows it. The name is not
/// empty and holds neither `#` nor a line feed. Before the reference
/// stands text without `#` that does not end in `(`, with which the
/// reference might form an alternation.
pub proof fn lemma_reference_renders_value_or_itself(
    before: Seq<char>,
    name: Seq<char>,
    after: Seq<char>,
    store: FragmentMap,
)
    requires
        forall|i: int| 0 <= i < before.len() ==> before[i] != '#',
        before.len() == 0 || before.last() != '(',
        name.len() > 0,
        forall|i: int| 0 <= i < name.len() ==> name[i] != '#' && name[i] != '\n',
    ensures
        rendered(before + (seq!['#'] + name + seq!['#']) + after, store) == before + (
        if store.contains_key(name) {
            store[name]
        } else {
            seq!['#'] + name + seq!['#']
        }) + rendered(after, store),
{
    let token = seq!['#'] + name + seq!['#'];
    let rest = token + after;
    let close = 1 + name.len() as int;
    assert(forall|i: int| 0 <= i < token.len() ==> rest[i] == token[i]);
    assert(token[0] == '#' && token[close] == '#');
    assert(forall|i: int| 1 <= i < close ==> token[i] == name[i - 1]);
    lemma_name_len_exact(rest, 1, name.len());
    assert(reference_close(rest, 0) == Some(close));
    assert(alternation_close(rest, 0) is None);
    assert(rest.subrange(1, close) =~= name);
    lemma_text_then_token(before, token, after, SegmentView::Reference(name), store);
}

/// `##` renders to a single `#`, whatever text without `#` stands before it
/// and whatever follows it.
pub proof fn lemma_escape_renders_hash(before: Seq<char>, after: Seq<char>, store: FragmentMap)
    requires
        forall|i: int| 0 <= i < before.len() ==> before[i] != '#',
    ensures
        rendered(before + seq!['#', '#'] + after, store) == before + seq!['#'] + rendered(
            after,
            store,
        ),
{
    let token = seq!['#', '#'];
    let rest = token + after;
    let escape = SegmentView::Reference(Seq::<char>::empty());
    assert(rest[0] == '#' && rest[1] == '#');
    assert(name_len(rest, 1) == 0);
    assert(reference_close(rest, 0) == Some(1int));
    assert(alternation_close(rest, 0) is None);
    assert(rest.subrange(1, 1) =~= Seq::<char>::empty());
    lemma_text_then_token(before, token, after, escape, store);
}

/// An alternation renders to the value of its name where the store has
/// one, and to its fallback exactly where it has none, whatever text
/// without `#` stands before it and whatever follows it. The name is not
/// empty and holds neither `#` nor a line feed; the fallback holds no `)`.
pub proof fn lemma_alternation_renders_value_or_fallback(
    before: Seq<char>,
    name: Seq<char>,
    fallback: Seq<char>,
    after: Seq<char>,
    store: FragmentMap,
)
    requires
        forall|i: int| 0 <= i < before.len() ==> before[i] != '#',
        name.len() > 0,
        forall|i: int| 0 <= i < name.len() ==> name[i] != '#' && name[i] != '\n',
        forall|i: int| 0 <= i < fallback.len() ==> fallback[i] != ')',
    ensures
        rendered(
            before + (seq!['(', '#'] + name + seq!['#', '|'] + fallback + seq![')']) + after,
            store,
        ) == before + (if store.contains_key(name) {
            store[name]
        } else {
            fallback
        }) + rendered(after, store),
{
    let token = seq!['(', '#'] + name + seq!['#', '|'] + fallback + seq![')'];
    let rest = token + after;
    let hash = 2 + name.len() as int;
    let end = hash + 2 + fallback.len() as int;
    assert(token.len() == end + 1);
    assert(forall|i: int| 0 <= i < token.len() ==> rest[i] == token[i]);
    assert(token[0] == '(' && token[1] == '#' && token[hash] == '#' && token[hash + 1] == '|'
        && token[end] == ')');
    assert(forall|i: int| 2 <= i < hash ==> token[i] == name[i - 2]);
    assert(forall|i: int| hash + 2 <= i < end ==> token[i] == fallback[i - hash - 2]);
    lemma_name_len_exact(rest, 2, name.len());
    lemma_fallback_len_exact(rest, hash + 2, fallback.len());
    assert(reference_close(rest, 1) == Some(hash));
    assert(alternation_close(rest, 0) == Some((hash, end)));
    assert(rest.subrange(2, hash) =~= name);
    assert(rest.subrange(hash + 2, end) =~= fallback);
    lemma_text_then_token(before, token, after, SegmentView::Alternation(name, fallback), store);
}

} // verus!
