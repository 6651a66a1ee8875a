//! Templates: text in which `#name#` stands for the value of a fragment.
//!
//! A template is read from left to right, once.
//!
//! * `#name#` is a reference. It is replaced by the value of `name`; where
//!   the store has no such fragment, it is left as it stands, delimiters
//!   included. A name holds neither `#` nor a line feed.
//! * `##` is the escape for a single `#`.
//! * `(#name#|fallback)` is an alternation. It is replaced by the value of
//!   `name`, or by `fallback`, taken literally, where the store has no such
//!   fragment. The name is not empty and the fallback ends at the first `)`.
//! * Everything else is literal text.

use vstd::prelude::*;
use crate::fragments::{FragmentMap, Fragments};
use crate::text::{chars_of, slice};

verus! {

/// One piece of a template.
#[derive(Debug, PartialEq, Eq)]
pub enum Segment {
    /// Text that stands for itself.
    Literal(String),
    /// The name between two `#`; the empty name is the escape.
    Reference(String),
    /// A name and the text to use when the name has no value.
    Alternation(String, String),
}

/// A segment as plain text.
pub enum SegmentView {
    Literal(Seq<char>),
    Reference(Seq<char>),
    Alternation(Seq<char>, Seq<char>),
}

impl View for Segment {
    type V = SegmentView;

    open spec fn view(&self) -> SegmentView {
        match self {
            Segment::Literal(text) => SegmentView::Literal(text@),
            Segment::Reference(name) => SegmentView::Reference(name@),
            Segment::Alternation(name, fallback) => SegmentView::Alternation(name@, fallback@),
        }
    }
}

/// How many characters from `from` on can belong to a name: those before
/// the next `#` or line feed.
pub open spec fn name_len(s: Seq<char>, from: int) -> nat
    decreases s.len() - from,
{
    if 0 <= from < s.len() && s[from] != '#' && s[from] != '\n' {
        1 + name_len(s, from + 1)
    } else {
        0
    }
}

/// How many characters from `from` on stand before the next `)`.
pub open spec fn fallback_len(s: Seq<char>, from: int) -> nat
    decreases s.len() - from,
{
    if 0 <= from < s.len() && s[from] != ')' {
        1 + fallback_len(s, from + 1)
    } else {
        0
    }
}

/// Where the `#` stands that closes a reference opened by a `#` at `at`.
pub open spec fn reference_close(s: Seq<char>, at: int) -> Option<int> {
    let close = at + 1 + name_len(s, at + 1);
    if 0 <= at < s.len() && s[at] == '#' && close < s.len() && s[close] == '#' {
        Some(close)
    } else {
        None
    }
}

/// Where the closing `#` and the closing `)` stand of an alternation opened
/// by a `(` at `at`.
pub open spec fn alternation_close(s: Seq<char>, at: int) -> Option<(int, int)> {
    match reference_close(s, at + 1) {
        Some(hash) => {
            let end = hash + 2 + fallback_len(s, hash + 2);
            if 0 <= at < s.len() && s[at] == '(' && hash > at + 2 && hash + 1 < s.len() && s[hash
                + 1] == '|' && end < s.len() && s[end] == ')' {
                Some((hash, end))
            } else {
                None
            }
        },
        None => None,
    }
}

/// The reference or alternation that starts at `at`, with the position
/// after it.
pub open spec fn token_at(s: Seq<char>, at: int) -> Option<(SegmentView, int)> {
    match alternation_close(s, at) {
        Some((hash, end)) => Some(
            (SegmentView::Alternation(s.subrange(at + 2, hash), s.subrange(hash + 2, end)), end + 1),
        ),
        None => match reference_close(s, at) {
            Some(close) => Some((SegmentView::Reference(s.subrange(at + 1, close)), close + 1)),
            None => None,
        },
    }
}

/// How many characters from `from` on stand before the next reference or
/// alternation.
pub open spec fn literal_len(s: Seq<char>, from: int) -> nat
    decreases s.len() - from,
{
    if 0 <= from < s.len() && token_at(s, from) is None {
        1 + literal_len(s, from + 1)
    } else {
        0
    }
}

/// A fallback ends where a `)` stands or where the text ends.
proof fn lemma_fallback_len_stops(s: Seq<char>, from: int)
    requires
        0 <= from <= s.len(),
    ensures
        from + fallback_len(s, from) == s.len() || s[from + fallback_len(s, from)] == ')',
        from + fallback_len(s, from) <= s.len(),
    decreases s.len() - from,
{
    if from < s.len() && s[from] != ')' {
        lemma_fallback_len_stops(s, from + 1);
    }
}

/// A literal run ends within the text.
pub proof fn lemma_literal_len_bound(s: Seq<char>, from: int)
    requires
        0 <= from <= s.len(),
    ensures
        from + literal_len(s, from) <= s.len(),
    decreases s.len() - from,
{
    if from < s.len() && token_at(s, from) is None {
        lemma_literal_len_bound(s, from + 1);
    }
}

/// The segments of `s` from position `at` on.
pub open spec fn segments_from(s: Seq<char>, at: int) -> Seq<SegmentView>
    decreases s.len() - at,
{
    if 0 <= at < s.len() {
        match token_at(s, at) {
            Some((segment, next)) => seq![segment] + segments_from(s, next),
            None => {
                let end = at + 1 + literal_len(s, at + 1);
                proof {
                    lemma_literal_len_bound(s, at + 1);
                }
                seq![SegmentView::Literal(s.subrange(at, end))] + segments_from(s, end)
            },
        }
    } else {
        Seq::empty()
    }
}

/// The segments that the template text `s` consists of. A literal segment
/// runs up to the next reference or alternation, or to the end.
pub open spec fn segments_of(s: Seq<char>) -> Seq<SegmentView> {
    segments_from(s, 0)
}

/// What one segment renders to.
pub open spec fn resolve(segment: SegmentView, store: FragmentMap) -> Seq<char> {
    match segment {
        SegmentView::Literal(text) => text,
        SegmentView::Reference(name) => if name.len() == 0 {
            seq!['#']
        } else if store.contains_key(name) {
            store[name]
        } else {
            seq!['#'] + name + seq!['#']
        },
        SegmentView::Alternation(name, fallback) => if store.contains_key(name) {
            store[name]
        } else {
            fallback
        },
    }
}

/// What a list of segments renders to: what each renders to, in order.
pub open spec fn render_segments(segments: Seq<SegmentView>, store: FragmentMap) -> Seq<char>
    decreases segments.len(),
{
    if segments.len() == 0 {
        Seq::empty()
    } else {
        render_segments(segments.drop_last(), store) + resolve(segments.last(), store)
    }
}

/// What the template text `s` renders to against `store`.
pub open spec fn rendered(s: Seq<char>, store: FragmentMap) -> Seq<char> {
    render_segments(segments_of(s), store)
}

/// The segments of `segments` as plain text.
pub open spec fn segment_views(segments: Seq<Segment>) -> Seq<SegmentView> {
    segments.map_values(|segment: Segment| segment@)
}

fn scan_name(chars: &Vec<char>, from: usize) -> (end: usize)
    requires
        from <= chars.len(),
    ensures
        end == from + name_len(chars@, from as int),
        end <= chars.len(),
{
    let mut end = from;
    while end < chars.len() && chars[end] != '#' && chars[end] != '\n'
        invariant
            from <= end <= chars.len(),
            from + name_len(chars@, from as int) == end + name_len(chars@, end as int),
        decreases chars.len() - end,
    {
        end += 1;
    }
    end
}

fn scan_fallback(chars: &Vec<char>, from: usize) -> (end: usize)
    requires
        from <= chars.len(),
    ensures
        end == from + fallback_len(chars@, from as int),
        end <= chars.len(),
{
    let mut end = from;
    while end < chars.len() && chars[end] != ')'
        invariant
            from <= end <= chars.len(),
            from + fallback_len(chars@, from as int) == end + fallback_len(chars@, end as int),
        decreases chars.len() - end,
    {
        end += 1;
    }
    end
}

fn find_reference_close(chars: &Vec<char>, at: usize) -> (found: Option<usize>)
    ensures
        match found {
            Some(close) => reference_close(chars@, at as int) == Some(close as int),
            None => reference_close(chars@, at as int) is None,
        },
{
    if at < chars.len() && chars[at] == '#' {
        let close = scan_name(chars, at + 1);
        if close < chars.len() && chars[close] == '#' {
            return Some(close);
        }
    }
    None
}

fn find_alternation_close(chars: &Vec<char>, at: usize) -> (found: Option<(usize, usize)>)
    ensures
        match found {
            Some((hash, end)) => alternation_close(chars@, at as int) == Some(
                (hash as int, end as int),
            ),
            None => alternation_close(chars@, at as int) is None,
        },
{
    if at < chars.len() && chars[at] == '(' {
        if let Some(hash) = find_reference_close(chars, at + 1) {
            if hash > at + 2 && hash + 1 < chars.len() && chars[hash + 1] == '|' {
                let end = scan_fallback(chars, hash + 2);
                if end < chars.len() {
                    proof {
                        lemma_fallback_len_stops(chars@, hash as int + 2);
                    }
                    return Some((hash, end));
                }
            }
        }
    }
    None
}

fn starts_token(chars: &Vec<char>, at: usize) -> (starts: bool)
    ensures
        starts == token_at(chars@, at as int) is Some,
{
    find_alternation_close(chars, at).is_some() || find_reference_close(chars, at).is_some()
}

fn scan_literal(chars: &Vec<char>, from: usize) -> (end: usize)
    requires
        from <= chars.len(),
    ensures
        end == from + literal_len(chars@, from as int),
        end <= chars.len(),
{
    let mut end = from;
    while end < chars.len() && !starts_token(chars, end)
        invariant
            from <= end <= chars.len(),
            from + literal_len(chars@, from as int) == end + literal_len(chars@, end as int),
        decreases chars.len() - end,
    {
        end += 1;
    }
    end
}

/// A parsed template. It keeps no state between renderings: one template
/// serves any number of stores.
#[derive(Debug, PartialEq, Eq)]
pub struct Template {
    pub segments: Vec<Segment>,
}

impl View for Template {
    type V = Seq<SegmentView>;

    open spec fn view(&self) -> Seq<SegmentView> {
        segment_views(self.segments@)
    }
}

impl Template {
    /// Reads the template text `source`.
    pub fn parse(source: &str) -> (template: Template)
        ensures
            template@ == segments_of(source@),
    {
        let chars = chars_of(source);
        let n = chars.len();
        let mut segments: Vec<Segment> = Vec::new();
        let mut at: usize = 0;
        while at < n
            invariant
                chars@ == source@,
                n == chars.len(),
                at <= n,
                segment_views(segments@) + segments_from(source@, at as int) == segments_of(
                    source@,
                ),
            decreases n - at,
        {
            let ghost done = segment_views(segments@);
            let segment: Segment;
            let next: usize;
            if let Some((hash, end)) = find_alternation_close(&chars, at) {
                segment =
                Segment::Alternation(
                    slice(source, at + 2, hash),
                    slice(source, hash + 2, end),
                );
                next = end + 1;
            } else if let Some(close) = find_reference_close(&chars, at) {
                segment = Segment::Reference(slice(source, at + 1, close));
                next = close + 1;
            } else {
                let end = scan_literal(&chars, at + 1);
                segment = Segment::Literal(slice(source, at, end));
                next = end;
            }
            proof {
                let rest = segments_from(source@, next as int);
                assert(segments_from(source@, at as int) == seq![segment@] + rest);
                assert(segment_views(segments@.push(segment)) =~= done.push(segment@));
                assert(done.push(segment@) + rest =~= done + (seq![segment@] + rest));
            }
            segments.push(segment);
            at = next;
        }
        assert(segment_views(segments@) + Seq::<SegmentView>::empty() =~= segment_views(segments@));
        Template { segments }
    }

    /// Renders the template against `store`. This never fails: a reference
    /// to a fragment that the store lacks is left as it stands, and an
    /// alternation gives its fallback.
    pub fn render(&self, store: &Fragments) -> (out: String)
        ensures
            out@ == render_segments(self@, store@),
    {
        proof {
            reveal_strlit("#");
        }
        let n = self.segments.len();
        let mut out = String::new();
        let mut i: usize = 0;
        while i < n
            invariant
                n == self.segments.len(),
                i <= n,
                "#"@ == seq!['#'],
                out@ == render_segments(self@.take(i as int), store@),
            decreases n - i,
        {
            let ghost before = out@;
            match &self.segments[i] {
                Segment::Literal(text) => {
                    out.append(text.as_str());
                },
                Segment::Reference(name) => {
                    if name.as_str().is_empty() {
                        out.append("#");
                    } else {
                        match store.get(name.as_str()) {
                            Some(value) => {
                                out.append(value.as_str());
                            },
                            None => {
                                out.append("#");
                                out.append(name.as_str());
                                out.append("#");
                            },
                        }
                    }
                },
                Segment::Alternation(name, fallback) => {
                    match store.get(name.as_str()) {
                        Some(value) => {
                            out.append(value.as_str());
                        },
                        None => {
                            out.append(fallback.as_str());
                        },
                    }
                },
            }
            proof {
                let upto = self@.take(i as int + 1);
                assert(upto.drop_last() =~= self@.take(i as int));
                assert(upto.last() == self.segments@[i as int]@);
                assert(out@ =~= before + resolve(upto.last(), store@));
            }
            i += 1;
        }
        assert(self@.take(n as int) =~= self@);
        out
    }
}

} // verus!
