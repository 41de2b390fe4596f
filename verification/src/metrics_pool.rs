//! Prefixes and field collisions of pooled child metrics.
//!
//! A pool handle carries a prefix in every name style; child metrics are
//! written with their handle's prefix. When children produce the same fully
//! inflected field name, the later child wins as a whole: walking the
//! children from the last to the first, a child is kept only when none of
//! its names is written by a kept later child, so no entry mixes fields of
//! two attempts. Within a kept child, a repeated name is written once, with
//! its last value. A pool keeps at most a configured number of children,
//! dropping the oldest to make room.

use inflector::Inflector;
use vstd::prelude::*;
use crate::case_convert::ensure_suffix;
use crate::text::{chars_of, push_char, push_str, str_to_owned};

verus! {

/// What `inflector`'s `to_pascal_case` returns for a string.
pub uninterp spec fn inflector_pascal_case(s: Seq<char>) -> Seq<char>;

/// What `inflector`'s `to_snake_case` returns for a string.
pub uninterp spec fn inflector_snake_case(s: Seq<char>) -> Seq<char>;

/// What `inflector`'s `to_kebab_case` returns for a string.
pub uninterp spec fn inflector_kebab_case(s: Seq<char>) -> Seq<char>;

/// Wraps `inflector::Inflector::to_pascal_case`.
#[verifier::external_body]
fn to_pascal_case(s: &str) -> (r: String)
    ensures
        r@ == inflector_pascal_case(s@),
{
    s.to_pascal_case()
}

/// Wraps `inflector::Inflector::to_snake_case`.
#[verifier::external_body]
fn to_snake_case(s: &str) -> (r: String)
    ensures
        r@ == inflector_snake_case(s@),
{
    s.to_snake_case()
}

/// Wraps `inflector::Inflector::to_kebab_case`.
#[verifier::external_body]
fn to_kebab_case(s: &str) -> (r: String)
    ensures
        r@ == inflector_kebab_case(s@),
{
    s.to_kebab_case()
}

/// The name styles a pooled child is written in.
#[derive(Clone, Copy, Debug, PartialEq, Eq)]
pub enum RuntimeStyle {
    Identity,
    PascalCase,
    SnakeCase,
    KebabCase,
}

/// Whether `s` ends with `c`.
pub open spec fn ends_with(s: Seq<char>, c: char) -> bool {
    s.len() > 0 && s.last() == c
}

/// A prefix segment inflected to `style`, with the style's delimiter at
/// its end (an identity segment keeps its own `_` or `-`, or gets `_`).
pub open spec fn spec_prefix_segment(style: RuntimeStyle, segment: Seq<char>) -> Seq<char> {
    match style {
        RuntimeStyle::Identity => if ends_with(segment, '_') || ends_with(segment, '-') {
            segment
        } else {
            segment.push('_')
        },
        RuntimeStyle::PascalCase => inflector_pascal_case(segment),
        RuntimeStyle::SnakeCase => ensure_suffix(inflector_snake_case(segment), '_'),
        RuntimeStyle::KebabCase => ensure_suffix(inflector_kebab_case(segment), '-'),
    }
}

/// Whether the string held by `s` ends with `c`.
fn string_ends_with(s: &String, c: char) -> (r: bool)
    ensures
        r == ends_with(s@, c),
{
    let v = chars_of(s.as_str());
    let n = v.len();
    n > 0 && v[n - 1] == c
}

impl RuntimeStyle {
    /// Inflects one prefix segment to this style.
    pub fn prefix_segment(self, segment: &str) -> (r: String)
        ensures
            r@ == spec_prefix_segment(self, segment@),
    {
        match self {
            RuntimeStyle::Identity => {
                let mut prefix = str_to_owned(segment);
                if !string_ends_with(&prefix, '_') && !string_ends_with(&prefix, '-') {
                    push_char(&mut prefix, '_');
                }
                prefix
            },
            RuntimeStyle::PascalCase => to_pascal_case(segment),
            RuntimeStyle::SnakeCase => {
                let mut prefix = to_snake_case(segment);
                if !string_ends_with(&prefix, '_') {
                    push_char(&mut prefix, '_');
                }
                prefix
            },
            RuntimeStyle::KebabCase => {
                let mut prefix = to_kebab_case(segment);
                if !string_ends_with(&prefix, '-') {
                    push_char(&mut prefix, '-');
                }
                prefix
            },
        }
    }
}

/// The prefix a sequence of segments adds in `style`: the inflected
/// non-empty segments, in order.
pub open spec fn segments_prefix(style: RuntimeStyle, segments: Seq<Seq<char>>) -> Seq<char>
    decreases segments.len(),
{
    if segments.len() == 0 {
        Seq::empty()
    } else {
        let last = segments.last();
        segments_prefix(style, segments.drop_last()) + if last.len() == 0 {
            Seq::<char>::empty()
        } else {
            spec_prefix_segment(style, last)
        }
    }
}

/// The characters of each segment.
pub open spec fn segment_views(segments: Seq<&str>) -> Seq<Seq<char>> {
    segments.map_values(|s: &str| s@)
}

/// A pool handle's prefix, in each of the four name styles.
#[derive(Clone, Debug)]
pub struct PrefixSet {
    identity: String,
    pascal: String,
    snake: String,
    kebab: String,
}

impl PrefixSet {
    /// The prefix in `style`.
    pub closed spec fn spec_for_style(self, style: RuntimeStyle) -> Seq<char> {
        match style {
            RuntimeStyle::Identity => self.identity@,
            RuntimeStyle::PascalCase => self.pascal@,
            RuntimeStyle::SnakeCase => self.snake@,
            RuntimeStyle::KebabCase => self.kebab@,
        }
    }

    /// The empty prefix in every style.
    pub fn empty() -> (r: Self)
        ensures
            forall|style: RuntimeStyle| r.spec_for_style(style) == Seq::<char>::empty(),
    {
        Self {
            identity: String::new(),
            pascal: String::new(),
            snake: String::new(),
            kebab: String::new(),
        }
    }

    /// Extends the prefix by inflected segments; empty segments are skipped.
    pub fn with_segments(self, segments: &Vec<&str>) -> (r: Self)
        ensures
            forall|style: RuntimeStyle| #[trigger]
                r.spec_for_style(style) == self.spec_for_style(style) + segments_prefix(
                    style,
                    segment_views(segments@),
                ),
    {
        let ghost old_self = self;
        let mut identity = self.identity;
        let mut pascal = self.pascal;
        let mut snake = self.snake;
        let mut kebab = self.kebab;
        let mut i: usize = 0;
        while i < segments.len()
            invariant
                i <= segments@.len(),
                identity@ == old_self.identity@ + segments_prefix(
                    RuntimeStyle::Identity,
                    segment_views(segments@.subrange(0, i as int)),
                ),
                pascal@ == old_self.pascal@ + segments_prefix(
                    RuntimeStyle::PascalCase,
                    segment_views(segments@.subrange(0, i as int)),
                ),
                snake@ == old_self.snake@ + segments_prefix(
                    RuntimeStyle::SnakeCase,
                    segment_views(segments@.subrange(0, i as int)),
                ),
                kebab@ == old_self.kebab@ + segments_prefix(
                    RuntimeStyle::KebabCase,
                    segment_views(segments@.subrange(0, i as int)),
                ),
            decreases segments.len() - i,
        {
            let segment = segments[i];
            proof {
                let next = segment_views(segments@.subrange(0, i + 1));
                assert(next.drop_last() =~= segment_views(segments@.subrange(0, i as int)));
                assert(next.last() == segment@);
            }
            if !segment.is_empty() {
                let ghost prev_identity = identity@;
                let ghost prev_pascal = pascal@;
                let ghost prev_snake = snake@;
                let ghost prev_kebab = kebab@;
                let s = RuntimeStyle::Identity.prefix_segment(segment);
                push_str(&mut identity, s.as_str());
                let s = RuntimeStyle::PascalCase.prefix_segment(segment);
                push_str(&mut pascal, s.as_str());
                let s = RuntimeStyle::SnakeCase.prefix_segment(segment);
                push_str(&mut snake, s.as_str());
                let s = RuntimeStyle::KebabCase.prefix_segment(segment);
                push_str(&mut kebab, s.as_str());
                proof {
                    let prev = segment_views(segments@.subrange(0, i as int));
                    assert(identity@ =~= old_self.identity@ + (segments_prefix(
                        RuntimeStyle::Identity,
                        prev,
                    ) + spec_prefix_segment(RuntimeStyle::Identity, segment@)));
                    assert(pascal@ =~= old_self.pascal@ + (segments_prefix(
                        RuntimeStyle::PascalCase,
                        prev,
                    ) + spec_prefix_segment(RuntimeStyle::PascalCase, segment@)));
                    assert(snake@ =~= old_self.snake@ + (segments_prefix(
                        RuntimeStyle::SnakeCase,
                        prev,
                    ) + spec_prefix_segment(RuntimeStyle::SnakeCase, segment@)));
                    assert(kebab@ =~= old_self.kebab@ + (segments_prefix(
                        RuntimeStyle::KebabCase,
                        prev,
                    ) + spec_prefix_segment(RuntimeStyle::KebabCase, segment@)));
                }
            } else {
                proof {
                    let prev = segment_views(segments@.subrange(0, i as int));
                    assert(segments_prefix(RuntimeStyle::Identity, prev) + Seq::<char>::empty()
                        =~= segments_prefix(RuntimeStyle::Identity, prev));
                    assert(segments_prefix(RuntimeStyle::PascalCase, prev) + Seq::<char>::empty()
                        =~= segments_prefix(RuntimeStyle::PascalCase, prev));
                    assert(segments_prefix(RuntimeStyle::SnakeCase, prev) + Seq::<char>::empty()
                        =~= segments_prefix(RuntimeStyle::SnakeCase, prev));
                    assert(segments_prefix(RuntimeStyle::KebabCase, prev) + Seq::<char>::empty()
                        =~= segments_prefix(RuntimeStyle::KebabCase, prev));
                }
            }
            i = i + 1;
        }
        assert(segments@.subrange(0, segments@.len() as int) =~= segments@);
        Self { identity, pascal, snake, kebab }
    }

    /// Extends the prefix by a literal, non-inflected prefix.
    pub fn with_exact_prefix(self, prefix: &str) -> (r: Self)
        ensures
            forall|style: RuntimeStyle| #[trigger]
                r.spec_for_style(style) == self.spec_for_style(style) + prefix@,
    {
        Self {
            identity: joined(self.identity.as_str(), prefix),
            pascal: joined(self.pascal.as_str(), prefix),
            snake: joined(self.snake.as_str(), prefix),
            kebab: joined(self.kebab.as_str(), prefix),
        }
    }

    /// The prefix in `style`.
    pub fn for_style(&self, style: RuntimeStyle) -> (r: &str)
        ensures
            r@ == self.spec_for_style(style),
    {
        match style {
            RuntimeStyle::Identity => self.identity.as_str(),
            RuntimeStyle::PascalCase => self.pascal.as_str(),
            RuntimeStyle::SnakeCase => self.snake.as_str(),
            RuntimeStyle::KebabCase => self.kebab.as_str(),
        }
    }
}

/// `first` followed by `second`, reusing whichever is the whole result
/// when the other is empty.
pub fn joined(first: &str, second: &str) -> (r: String)
    ensures
        r@ == first@ + second@,
{
    if second.is_empty() {
        assert(first@ + second@ =~= first@);
        str_to_owned(first)
    } else if first.is_empty() {
        assert(first@ + second@ =~= second@);
        str_to_owned(second)
    } else {
        let mut r = str_to_owned(first);
        push_str(&mut r, second);
        r
    }
}

/// The prefix a buffered child is written with: the parent's namespace
/// prefix, then the prefix of the handle it was appended through.
pub fn entry_prefix(namespace: &str, handle: &PrefixSet, style: RuntimeStyle) -> (r: String)
    ensures
        r@ == namespace@ + handle.spec_for_style(style),
{
    joined(namespace, handle.for_style(style))
}

/// A field name written by a child, with its prefix.
pub fn prefixed_name(prefix: &str, name: &str) -> (r: String)
    ensures
        r@ == prefix@ + name@,
{
    let mut prefixed = str_to_owned(prefix);
    push_str(&mut prefixed, name);
    prefixed
}

proof fn lemma_segments_prefix_append(style: RuntimeStyle, a: Seq<Seq<char>>, b: Seq<Seq<char>>)
    ensures
        segments_prefix(style, a + b) == segments_prefix(style, a) + segments_prefix(style, b),
    decreases b.len(),
{
    if b.len() == 0 {
        assert(a + b =~= a);
        assert(segments_prefix(style, a) + segments_prefix(style, b) =~= segments_prefix(
            style,
            a,
        ));
    } else {
        assert((a + b).drop_last() =~= a + b.drop_last());
        assert((a + b).last() == b.last());
        lemma_segments_prefix_append(style, a, b.drop_last());
        let tail = if b.last().len() == 0 {
            Seq::<char>::empty()
        } else {
            spec_prefix_segment(style, b.last())
        };
        assert(segments_prefix(style, a + b) =~= segments_prefix(style, a) + (segments_prefix(
            style,
            b.drop_last(),
        ) + tail));
    }
}

/// Extending a handle's prefix twice is extending it once by both
/// extensions in turn: segments by the concatenated segments, literal
/// prefixes by the concatenated literal.
pub proof fn lemma_prefix_extensions_compose(
    style: RuntimeStyle,
    start: Seq<char>,
    first: Seq<Seq<char>>,
    second: Seq<Seq<char>>,
    literal1: Seq<char>,
    literal2: Seq<char>,
)
    ensures
        (start + segments_prefix(style, first)) + segments_prefix(style, second) == start
            + segments_prefix(style, first + second),
        (start + literal1) + literal2 == start + (literal1 + literal2),
{
    lemma_segments_prefix_append(style, first, second);
    assert((start + segments_prefix(style, first)) + segments_prefix(style, second) =~= start
        + (segments_prefix(style, first) + segments_prefix(style, second)));
    assert((start + literal1) + literal2 =~= start + (literal1 + literal2));
}


/// Whether position `i` holds the last occurrence of its name in `names`.
pub open spec fn is_last(names: Seq<Seq<char>>, i: int) -> bool {
    forall|j: int| i < j < names.len() ==> names[j] != names[i]
}

/// Whether `n` is written at least twice in `names`.
pub open spec fn collides(names: Seq<Seq<char>>, n: Seq<char>) -> bool {
    exists|i: int, j: int| 0 <= i < j < names.len() && names[i] == n && names[j] == n
}

proof fn lemma_collides_push(w: Seq<Seq<char>>, x: Seq<char>, n: Seq<char>)
    ensures
        collides(w.push(x), n) <==> (collides(w, n) || (n == x && w.contains(x))),
{
    let w2 = w.push(x);
    if collides(w2, n) {
        let (i, j) = choose|i: int, j: int| 0 <= i < j < w2.len() && w2[i] == n && w2[j] == n;
        if j < w.len() {
            assert(w[i] == n && w[j] == n);
        } else {
            assert(w[i] == x);
        }
    }
    if collides(w, n) {
        let (i, j) = choose|i: int, j: int| 0 <= i < j < w.len() && w[i] == n && w[j] == n;
        assert(w2[i] == n && w2[j] == n);
    }
    if n == x && w.contains(x) {
        let i = choose|i: int| 0 <= i < w.len() && w[i] == x;
        assert(w2[i] == n && w2[w.len() as int] == n);
    }
}

/// The field names one pooled child writes, in write order: for each name
/// the position of its last write, and the names written more than once.
pub struct FieldScan {
    winners: Vec<(String, usize)>,
    collisions: Vec<String>,
    next_occurrence: usize,
    written: Ghost<Seq<Seq<char>>>,
}

impl FieldScan {
    /// The names scanned so far, in order.
    pub closed spec fn spec_written(self) -> Seq<Seq<char>> {
        self.written@
    }

    /// The scan is consistent with the names written so far.
    pub closed spec fn wf(self) -> bool {
        let w = self.written@;
        &&& self.next_occurrence == w.len()
        &&& forall|a: int, b: int|
            0 <= a < b < self.winners@.len() ==> self.winners@[a].0@ != self.winners@[b].0@
        &&& forall|a: int|
            0 <= a < self.winners@.len() ==> {
                let (n, k) = #[trigger] self.winners@[a];
                &&& k < w.len()
                &&& w[k as int] == n@
                &&& is_last(w, k as int)
            }
        &&& forall|i: int| #![trigger self.written@[i]]
            0 <= i < w.len() ==> exists|a: int|
                0 <= a < self.winners@.len() && #[trigger] self.winners@[a].0@
                    == self.written@[i]
        &&& forall|c: int, d: int|
            0 <= c < d < self.collisions@.len() ==> self.collisions@[c]@
                != self.collisions@[d]@
        &&& forall|n: Seq<char>|
            collides(w, n) <==> exists|c: int|
                0 <= c < self.collisions@.len() && #[trigger] self.collisions@[c]@ == n
    }

    /// An empty scan.
    pub fn new() -> (r: Self)
        ensures
            r.wf(),
            r.spec_written() == Seq::<Seq<char>>::empty(),
    {
        FieldScan {
            winners: Vec::new(),
            collisions: Vec::new(),
            next_occurrence: 0,
            written: Ghost(Seq::empty()),
        }
    }

    /// Where `name` is among the winners, if it is.
    fn find_winner(&self, name: &String) -> (r: Option<usize>)
        ensures
            r matches Some(a) ==> a < self.winners@.len() && self.winners@[a as int].0@ == name@,
            r is None ==> forall|a: int|
                0 <= a < self.winners@.len() ==> self.winners@[a].0@ != name@,
    {
        let mut a: usize = 0;
        while a < self.winners.len()
            invariant
                a <= self.winners@.len(),
                forall|b: int| 0 <= b < a ==> self.winners@[b].0@ != name@,
            decreases self.winners.len() - a,
        {
            if self.winners[a].0 == *name {
                return Some(a);
            }
            a = a + 1;
        }
        None
    }

    /// Whether `name` is among the collisions.
    fn has_collision(&self, name: &String) -> (r: bool)
        ensures
            r == exists|c: int| 0 <= c < self.collisions@.len() && #[trigger] self.collisions@[c]@
                == name@,
    {
        let mut c: usize = 0;
        while c < self.collisions.len()
            invariant
                c <= self.collisions@.len(),
                forall|d: int| 0 <= d < c ==> self.collisions@[d]@ != name@,
            decreases self.collisions.len() - c,
        {
            if self.collisions[c] == *name {
                return true;
            }
            c = c + 1;
        }
        false
    }

    /// Records that the child wrote the field `name`.
    pub fn value(&mut self, name: &str)
        requires
            old(self).wf(),
            old(self).spec_written().len() < usize::MAX,
        ensures
            final(self).wf(),
            final(self).spec_written() == old(self).spec_written().push(name@),
    {
        let name = str_to_owned(name);
        let ghost w = self.written@;
        let ghost w2 = w.push(name@);
        let p = self.next_occurrence;
        let ghost mut at: int = 0;
        match self.find_winner(&name) {
            Some(a) => {
                proof {
                    at = a as int;
                }
                let previous = self.winners[a].1;
                assert(w[previous as int] == name@);
                if !self.has_collision(&name) {
                    self.collisions.push(name.clone());
                    assert(self.collisions@.last()@ == name@);
                } else {
                    assert(exists|c: int|
                        0 <= c < self.collisions@.len() && #[trigger] self.collisions@[c]@
                            == name@);
                }
                assert(w.contains(name@));
                self.winners.set(a, (name, p));
                proof {
                    assert(collides(w2, name@)) by {
                        assert(w2[previous as int] == name@);
                        assert(w2[p as int] == name@);
                    }
                }
            },
            None => {
                proof {
                    at = self.winners@.len() as int;
                    if w.contains(name@) {
                        let i = choose|i: int| 0 <= i < w.len() && w[i] == name@;
                        assert(old(self).written@[i] == name@);
                    }
                }
                self.winners.push((name, p));
            },
        }
        self.next_occurrence = p + 1;
        self.written = Ghost(w2);
        proof {
            let ws = self.winners@;
            let ow = old(self).winners@;
            assert(ws[at].0@ == name@);
            assert forall|a: int, b: int| 0 <= a < b < ws.len() implies ws[a].0@ != ws[b].0@ by {
                if a != at && b != at {
                    assert(ws[a] == ow[a] && ws[b] == ow[b]);
                } else if a == at {
                    assert(ws[b] == ow[b]);
                } else {
                    assert(ws[a] == ow[a]);
                }
            }
            let oc = old(self).collisions@;
            let nc = self.collisions@;
            assert forall|c: int, d: int| 0 <= c < d < nc.len() implies nc[c]@ != nc[d]@ by {
                if d >= oc.len() {
                    assert(nc[c] == oc[c]);
                } else {
                    assert(nc[c] == oc[c] && nc[d] == oc[d]);
                }
            }
            assert forall|b: int| 0 <= b < ws.len() implies {
                let (n, k) = #[trigger] ws[b];
                &&& k < w2.len()
                &&& w2[k as int] == n@
                &&& is_last(w2, k as int)
            } by {
                if ws[b].1 != p {
                    assert(ws[b] == old(self).winners@[b]);
                    assert(ws[b].0@ != name@);
                }
            }
            assert forall|i: int| #![trigger self.written@[i]]
                0 <= i < self.written@.len() implies exists|a: int|
                0 <= a < self.winners@.len() && #[trigger] self.winners@[a].0@
                    == self.written@[i] by {
                if i == w.len() {
                    assert(ws[at].0@ == w2[i]);
                } else {
                    let a = choose|a: int|
                        0 <= a < old(self).winners@.len() && #[trigger] old(self).winners@[a].0@
                            == w[i];
                    assert(ws[a].0@ == w2[i]);
                }
            }
            assert forall|n: Seq<char>|
                collides(w2, n) <==> exists|c: int|
                    0 <= c < self.collisions@.len() && #[trigger] self.collisions@[c]@ == n by {
                lemma_collides_push(w, name@, n);
                let oc = old(self).collisions@;
                let nc = self.collisions@;
                if exists|c: int| 0 <= c < oc.len() && #[trigger] oc[c]@ == n {
                    let c = choose|c: int| 0 <= c < oc.len() && #[trigger] oc[c]@ == n;
                    assert(nc[c]@ == n);
                }
                if exists|c: int| 0 <= c < nc.len() && #[trigger] nc[c]@ == n {
                    let c = choose|c: int| 0 <= c < nc.len() && #[trigger] nc[c]@ == n;
                    if c < oc.len() {
                        assert(oc[c]@ == n);
                    }
                }
                if n == name@ && w.contains(name@) {
                    assert(exists|c: int| 0 <= c < nc.len() && #[trigger] nc[c]@ == n);
                }
            }
        }
    }

    /// Where the last write of `name` is, if it was written.
    pub fn winner(&self, name: &str) -> (r: Option<usize>)
        requires
            self.wf(),
        ensures
            r matches Some(k) ==> k < self.spec_written().len() && self.spec_written()[k as int]
                == name@ && is_last(self.spec_written(), k as int),
            r is None ==> !self.spec_written().contains(name@),
    {
        let name = str_to_owned(name);
        match self.find_winner(&name) {
            Some(a) => Some(self.winners[a].1),
            None => {
                proof {
                    if self.written@.contains(name@) {
                        let i = choose|i: int|
                            0 <= i < self.written@.len() && self.written@[i] == name@;
                        let a = choose|a: int|
                            0 <= a < self.winners@.len() && #[trigger] self.winners@[a].0@
                                == self.written@[i];
                    }
                }
                None
            },
        }
    }

    /// Whether some name was written more than once.
    pub fn has_collisions(&self) -> (r: bool)
        requires
            self.wf(),
        ensures
            r == exists|n: Seq<char>| collides(self.spec_written(), n),
    {
        proof {
            if exists|n: Seq<char>| collides(self.spec_written(), n) {
                let n = choose|n: Seq<char>| collides(self.spec_written(), n);
                assert(collides(self.written@, n));
                assert(exists|c: int|
                    0 <= c < self.collisions@.len() && #[trigger] self.collisions@[c]@ == n);
            }
            if self.collisions@.len() > 0 {
                let n = self.collisions@[0]@;
                assert(exists|c: int|
                    0 <= c < self.collisions@.len() && #[trigger] self.collisions@[c]@ == n);
                assert(collides(self.written@, n));
                assert(collides(self.spec_written(), n));
            }
        }
        self.collisions.len() > 0
    }
}

/// Scans the field names one pooled child writes, in write order.
pub fn scan_fields(names: &Vec<String>) -> (r: FieldScan)
    requires
        names@.len() < usize::MAX,
    ensures
        r.wf(),
        r.spec_written() == names@.map_values(|s: String| s@),
{
    let mut scan = FieldScan::new();
    let mut i: usize = 0;
    while i < names.len()
        invariant
            i <= names@.len(),
            names@.len() < usize::MAX,
            scan.wf(),
            scan.spec_written() == names@.subrange(0, i as int).map_values(|s: String| s@),
        decreases names.len() - i,
    {
        scan.value(names[i].as_str());
        i = i + 1;
        assert(scan.spec_written() =~= names@.subrange(0, i as int).map_values(|s: String| s@));
    }
    assert(names@.subrange(0, names@.len() as int) =~= names@);
    scan
}

/// The positions of a child's fields that are written out: for each name,
/// only its last write survives.
pub open spec fn surviving(names: Seq<Seq<char>>, i: int) -> bool {
    0 <= i < names.len() && is_last(names, i)
}

/// Which of a child's fields, written in order, are written out: each
/// name's last write, and no other.
pub fn surviving_fields(names: &Vec<String>) -> (kept: Vec<bool>)
    requires
        names@.len() < usize::MAX,
    ensures
        kept@.len() == names@.len(),
        forall|i: int|
            0 <= i < names@.len() ==> kept@[i] == surviving(
                names@.map_values(|s: String| s@),
                i,
            ),
{
    let ghost ns = names@.map_values(|s: String| s@);
    let scan = scan_fields(names);
    let mut kept: Vec<bool> = Vec::new();
    let mut occurrence: usize = 0;
    while occurrence < names.len()
        invariant
            occurrence <= names@.len(),
            scan.wf(),
            scan.spec_written() == ns,
            ns == names@.map_values(|s: String| s@),
            kept@.len() == occurrence,
            forall|i: int| 0 <= i < occurrence ==> kept@[i] == surviving(ns, i),
        decreases names.len() - occurrence,
    {
        let w = scan.winner(names[occurrence].as_str());
        let keep = match w {
            Some(k) => k == occurrence,
            None => false,
        };
        proof {
            assert(ns[occurrence as int] == names@[occurrence as int]@);
            match w {
                Some(k) => {
                    if k < occurrence {
                        assert(ns[occurrence as int] == ns[k as int]);
                    } else if k > occurrence {
                        assert(ns[k as int] == ns[occurrence as int]);
                    }
                },
                None => {
                    assert(ns.contains(names@[occurrence as int]@));
                },
            }
        }
        kept.push(keep);
        occurrence = occurrence + 1;
    }
    kept
}


/// The name written at position `k` is written out, at `k` or later.
pub open spec fn written_out_later(names: Seq<Seq<char>>, k: int) -> bool {
    exists|i: int| k <= i && surviving(names, i) && names[i] == names[k]
}

proof fn lemma_last_write_exists(names: Seq<Seq<char>>, k: int)
    requires
        0 <= k < names.len(),
    ensures
        written_out_later(names, k),
    decreases names.len() - k,
{
    if is_last(names, k) {
        assert(surviving(names, k));
    } else {
        let j = choose|j: int| k < j < names.len() && names[j] == names[k];
        lemma_last_write_exists(names, j);
        let i = choose|i: int| j <= i && surviving(names, i) && names[i] == names[j];
        assert(k <= i && surviving(names, i) && names[i] == names[k]);
    }
}

/// Later writes win: of the fields one child writes, each name is written
/// out exactly once, with the value of its last write.
pub proof fn lemma_later_writes_win(names: Seq<Seq<char>>)
    ensures
        forall|i: int, j: int|
            surviving(names, i) && surviving(names, j) && i != j ==> names[i] != names[j],
        forall|k: int| 0 <= k < names.len() ==> #[trigger] written_out_later(names, k),
{
    assert forall|i: int, j: int|
        surviving(names, i) && surviving(names, j) && i != j implies names[i] != names[j] by {
        if i < j {
            assert(names[j] != names[i]);
        } else {
            assert(names[i] != names[j]);
        }
    }
    assert forall|k: int| 0 <= k < names.len() implies #[trigger] written_out_later(names, k) by {
        lemma_last_write_exists(names, k);
    }
}


// ---------------------------------------------------------------------------
// Which children survive
// ---------------------------------------------------------------------------

/// Whether some name of `child` occurs in `names`.
pub open spec fn shares_name(names: Seq<Seq<char>>, child: Seq<Seq<char>>) -> bool {
    exists|i: int| 0 <= i < child.len() && names.contains(#[trigger] child[i])
}

/// The names claimed by the surviving children from position `c` on, found
/// by walking the children from the last to the first: a child survives
/// when none of its names is claimed yet, and then claims its names.
pub open spec fn claimed_from(children: Seq<Seq<Seq<char>>>, c: int) -> Seq<Seq<char>>
    decreases children.len() - c,
{
    if c < 0 || c >= children.len() {
        Seq::empty()
    } else {
        let later = claimed_from(children, c + 1);
        if shares_name(later, children[c]) {
            later
        } else {
            later + children[c]
        }
    }
}

/// Whether child `c` survives: no surviving later child writes any of its
/// names. A child that does not survive contributes no field at all.
pub open spec fn child_survives(children: Seq<Seq<Seq<char>>>, c: int) -> bool {
    0 <= c < children.len() && !shares_name(claimed_from(children, c + 1), children[c])
}

/// Whether write `i` of child `c` is written out: the child survives and the
/// write is the child's last write of that name.
pub open spec fn emitted(children: Seq<Seq<Seq<char>>>, c: int, i: int) -> bool {
    child_survives(children, c) && surviving(children[c], i)
}

/// The children's field names as character sequences.
pub open spec fn children_views(children: Seq<Vec<String>>) -> Seq<Seq<Seq<char>>> {
    children.map_values(|v: Vec<String>| v@.map_values(|s: String| s@))
}

/// Whether `name` is one of `names`.
fn contains_name(names: &Vec<String>, name: &String) -> (r: bool)
    ensures
        r == names@.map_values(|s: String| s@).contains(name@),
{
    let ghost vs = names@.map_values(|s: String| s@);
    let mut i: usize = 0;
    while i < names.len()
        invariant
            i <= names@.len(),
            vs == names@.map_values(|s: String| s@),
            forall|j: int| 0 <= j < i ==> vs[j] != name@,
        decreases names.len() - i,
    {
        if names[i] == *name {
            assert(vs[i as int] == name@);
            return true;
        }
        i = i + 1;
    }
    false
}

/// Whether some name of `child` is one of `claimed`.
fn shares_a_name(claimed: &Vec<String>, child: &Vec<String>) -> (r: bool)
    ensures
        r == shares_name(
            claimed@.map_values(|s: String| s@),
            child@.map_values(|s: String| s@),
        ),
{
    let ghost cs = child@.map_values(|s: String| s@);
    let ghost ks = claimed@.map_values(|s: String| s@);
    let mut i: usize = 0;
    while i < child.len()
        invariant
            i <= child@.len(),
            cs == child@.map_values(|s: String| s@),
            ks == claimed@.map_values(|s: String| s@),
            forall|j: int| 0 <= j < i ==> !ks.contains(#[trigger] cs[j]),
        decreases child.len() - i,
    {
        if contains_name(claimed, &child[i]) {
            assert(ks.contains(cs[i as int]));
            return true;
        }
        i = i + 1;
    }
    false
}

/// Appends copies of `names` to `into`.
fn append_names(into: &mut Vec<String>, names: &Vec<String>)
    ensures
        final(into)@.map_values(|s: String| s@) == old(into)@.map_values(|s: String| s@)
            + names@.map_values(|s: String| s@),
{
    let ghost before = into@.map_values(|s: String| s@);
    let ghost ns = names@.map_values(|s: String| s@);
    let mut i: usize = 0;
    while i < names.len()
        invariant
            i <= names@.len(),
            ns == names@.map_values(|s: String| s@),
            into@.map_values(|s: String| s@) == before + ns.take(i as int),
        decreases names.len() - i,
    {
        let copy = names[i].clone();
        let ghost prev = into@.map_values(|s: String| s@);
        into.push(copy);
        proof {
            assert(copy@ == ns[i as int]);
            assert(into@.map_values(|s: String| s@) =~= prev.push(ns[i as int]));
            assert(ns.take(i + 1) =~= ns.take(i as int).push(ns[i as int]));
            assert(into@.map_values(|s: String| s@) =~= before + ns.take(i + 1));
        }
        i = i + 1;
    }
    assert(ns.take(names@.len() as int) =~= ns);
}

/// Which children survive, walking them from the last to the first: a child
/// survives when no surviving later child writes any of its names.
pub fn surviving_children(children: &Vec<Vec<String>>) -> (kept: Vec<bool>)
    ensures
        kept@.len() == children@.len(),
        forall|c: int|
            0 <= c < children@.len() ==> kept@[c] == child_survives(children_views(children@), c),
{
    let ghost vs = children_views(children@);
    let mut kept: Vec<bool> = Vec::new();
    let mut k: usize = 0;
    while k < children.len()
        invariant
            k <= children@.len(),
            kept@.len() == k,
            forall|j: int| 0 <= j < k ==> !kept@[j],
        decreases children.len() - k,
    {
        kept.push(false);
        k = k + 1;
    }
    let mut claimed: Vec<String> = Vec::new();
    let mut c: usize = children.len();
    while c > 0
        invariant
            c <= children@.len(),
            vs == children_views(children@),
            kept@.len() == children@.len(),
            claimed@.map_values(|s: String| s@) == claimed_from(vs, c as int),
            forall|j: int| 0 <= j < c ==> !kept@[j],
            forall|j: int| c <= j < children@.len() ==> kept@[j] == child_survives(vs, j),
        decreases c,
    {
        c = c - 1;
        let child = &children[c];
        proof {
            assert(vs[c as int] == child@.map_values(|s: String| s@));
        }
        if !shares_a_name(&claimed, child) {
            kept.set(c, true);
            append_names(&mut claimed, child);
        }
    }
    kept
}

/// Which writes of which children are written out: for each child, nothing
/// when it does not survive, else each name's last write.
pub fn emitted_fields(children: &Vec<Vec<String>>) -> (r: Vec<Vec<bool>>)
    requires
        forall|c: int| 0 <= c < children@.len() ==> #[trigger] children@[c]@.len() < usize::MAX,
    ensures
        r@.len() == children@.len(),
        forall|c: int|
            0 <= c < children@.len() ==> (#[trigger] r@[c])@.len() == children@[c]@.len(),
        forall|c: int, i: int|
            #![trigger r@[c]@[i]]
            0 <= c < children@.len() && 0 <= i < children@[c]@.len() ==> r@[c]@[i] == emitted(
                children_views(children@),
                c,
                i,
            ),
{
    let ghost vs = children_views(children@);
    let kept = surviving_children(children);
    let mut r: Vec<Vec<bool>> = Vec::new();
    let mut c: usize = 0;
    while c < children.len()
        invariant
            c <= children@.len(),
            vs == children_views(children@),
            kept@.len() == children@.len(),
            forall|j: int| 0 <= j < children@.len() ==> kept@[j] == child_survives(vs, j),
            forall|j: int| 0 <= j < children@.len() ==> #[trigger] children@[j]@.len() < usize::MAX,
            r@.len() == c,
            forall|j: int| 0 <= j < c ==> (#[trigger] r@[j])@.len() == children@[j]@.len(),
            forall|j: int, i: int|
                #![trigger r@[j]@[i]]
                0 <= j < c && 0 <= i < children@[j]@.len() ==> r@[j]@[i] == emitted(vs, j, i),
        decreases children.len() - c,
    {
        let child = &children[c];
        proof {
            assert(vs[c as int] == child@.map_values(|s: String| s@));
        }
        let fields = if kept[c] {
            surviving_fields(child)
        } else {
            let mut none: Vec<bool> = Vec::new();
            let mut i: usize = 0;
            while i < child.len()
                invariant
                    i <= child@.len(),
                    none@.len() == i,
                    forall|j: int| 0 <= j < i ==> !none@[j],
                decreases child.len() - i,
            {
                none.push(false);
                i = i + 1;
            }
            none
        };
        r.push(fields);
        c = c + 1;
    }
    r
}

/// Whether some name is written twice in the pool, by one child or by two:
/// then the pool's fields cannot be described in advance.
pub fn pool_has_collisions(children: &Vec<Vec<String>>) -> (r: bool)
    requires
        children_views(children@).flatten_alt().len() < usize::MAX,
    ensures
        r == exists|n: Seq<char>| collides(children_views(children@).flatten_alt(), n),
{
    let ghost vs = children_views(children@);
    let mut flat: Vec<String> = Vec::new();
    let mut c: usize = 0;
    while c < children.len()
        invariant
            c <= children@.len(),
            vs == children_views(children@),
            flat@.map_values(|s: String| s@) == vs.take(c as int).flatten_alt(),
        decreases children.len() - c,
    {
        append_names(&mut flat, &children[c]);
        proof {
            assert(vs.take(c + 1).drop_last() =~= vs.take(c as int));
            assert(vs.take(c + 1).last() == vs[c as int]);
            assert(vs[c as int] == children@[c as int]@.map_values(|s: String| s@));
        }
        c = c + 1;
    }
    proof {
        assert(vs.take(children@.len() as int) =~= vs);
    }
    let scan = scan_fields(&flat);
    scan.has_collisions()
}

proof fn lemma_claimed_grows(children: Seq<Seq<Seq<char>>>, e: int, x: Seq<char>)
    requires
        0 <= e < children.len(),
        claimed_from(children, e + 1).contains(x),
    ensures
        claimed_from(children, e).contains(x),
{
    let later = claimed_from(children, e + 1);
    if !shares_name(later, children[e]) {
        let i = choose|i: int| 0 <= i < later.len() && later[i] == x;
        assert((later + children[e])[i] == x);
    }
}

proof fn lemma_claimed_includes(children: Seq<Seq<Seq<char>>>, e: int, d: int, i: int)
    requires
        0 <= e <= d,
        child_survives(children, d),
        0 <= i < children[d].len(),
    ensures
        claimed_from(children, e).contains(children[d][i]),
    decreases d - e,
{
    if e == d {
        let later = claimed_from(children, d + 1);
        assert((later + children[d])[later.len() + i] == children[d][i]);
    } else {
        lemma_claimed_includes(children, e + 1, d, i);
        lemma_claimed_grows(children, e, children[d][i]);
    }
}

proof fn lemma_claimed_by_a_survivor(children: Seq<Seq<Seq<char>>>, e: int, x: Seq<char>)
    requires
        0 <= e,
        claimed_from(children, e).contains(x),
    ensures
        exists|d: int| e <= d && child_survives(children, d) && #[trigger] children[d].contains(x),
    decreases children.len() - e,
{
    if e < children.len() {
        let later = claimed_from(children, e + 1);
        if later.contains(x) {
            lemma_claimed_by_a_survivor(children, e + 1, x);
            let d = choose|d: int|
                e + 1 <= d && child_survives(children, d) && #[trigger] children[d].contains(x);
            assert(e <= d && child_survives(children, d) && children[d].contains(x));
        } else {
            assert(!shares_name(later, children[e]));
            let k = choose|k: int| 0 <= k < claimed_from(children, e).len()
                && claimed_from(children, e)[k] == x;
            let j = k - later.len();
            assert(children[e][j] == x);
            assert(child_survives(children, e) && children[e].contains(x));
        }
    }
}

/// Surviving children never write the same name: the last child always
/// survives, and a child is dropped exactly when a surviving later child
/// writes one of its names.
pub proof fn lemma_surviving_children_do_not_collide(children: Seq<Seq<Seq<char>>>)
    ensures
        children.len() > 0 ==> child_survives(children, children.len() - 1),
        forall|c: int, d: int, i: int, j: int|
            c < d && child_survives(children, c) && child_survives(children, d) && 0 <= i
                < children[c].len() && 0 <= j < children[d].len() ==> #[trigger] children[c][i]
                != #[trigger] children[d][j],
        forall|c: int|
            0 <= c < children.len() && !child_survives(children, c) ==> exists|d: int, i: int|
                c < d && child_survives(children, d) && 0 <= i < children[c].len()
                    && #[trigger] children[d].contains(#[trigger] children[c][i]),
{
    assert forall|c: int, d: int, i: int, j: int|
        c < d && child_survives(children, c) && child_survives(children, d) && 0 <= i
            < children[c].len() && 0 <= j < children[d].len() implies #[trigger] children[c][i]
        != #[trigger] children[d][j] by {
        lemma_claimed_includes(children, c + 1, d, j);
        if children[c][i] == children[d][j] {
            assert(claimed_from(children, c + 1).contains(children[c][i]));
        }
    }
    assert forall|c: int|
        0 <= c < children.len() && !child_survives(children, c) implies exists|d: int, i: int|
        c < d && child_survives(children, d) && 0 <= i < children[c].len()
            && #[trigger] children[d].contains(#[trigger] children[c][i]) by {
        let later = claimed_from(children, c + 1);
        let i = choose|i: int| 0 <= i < children[c].len() && later.contains(#[trigger] children[c][i]);
        lemma_claimed_by_a_survivor(children, c + 1, children[c][i]);
        let d = choose|d: int|
            c + 1 <= d && child_survives(children, d) && #[trigger] children[d].contains(
                children[c][i],
            );
        assert(c < d && child_survives(children, d) && children[d].contains(children[c][i]));
    }
}

/// Each name is written out at most once across the pool: two different
/// writes that are both written out carry different names.
pub proof fn lemma_each_name_written_once(children: Seq<Seq<Seq<char>>>)
    ensures
        forall|c: int, i: int, d: int, j: int|
            emitted(children, c, i) && emitted(children, d, j) && (c != d || i != j)
                ==> #[trigger] children[c][i] != #[trigger] children[d][j],
{
    lemma_surviving_children_do_not_collide(children);
    assert forall|c: int, i: int, d: int, j: int|
        emitted(children, c, i) && emitted(children, d, j) && (c != d || i != j)
            implies #[trigger] children[c][i] != #[trigger] children[d][j] by {
        if c == d {
            lemma_later_writes_win(children[c]);
        } else if c < d {
            assert(children[c][i] != children[d][j]);
        } else {
            assert(children[d][j] != children[c][i]);
        }
    }
}

// ---------------------------------------------------------------------------
// The pool's buffer
// ---------------------------------------------------------------------------

/// Number of children a pool keeps unless configured otherwise.
pub const DEFAULT_CAPACITY: usize = 128;

/// The children a pool collects: at most `capacity` of them, the oldest
/// dropped to make room for a new one; after the pool is closed, appends are
/// discarded.
pub struct PoolEntries<T> {
    entries: Option<Vec<T>>,
    capacity: usize,
    overflow: u64,
}

impl<T> PoolEntries<T> {
    /// The collected children, or `None` once the pool is closed.
    pub closed spec fn spec_entries(self) -> Option<Seq<T>> {
        match self.entries {
            Some(v) => Some(v@),
            None => None,
        }
    }

    /// How many children the pool keeps.
    pub closed spec fn spec_capacity(self) -> nat {
        self.capacity as nat
    }

    /// How many children were dropped to make room.
    pub closed spec fn spec_overflow(self) -> nat {
        self.overflow as nat
    }

    /// The pool's invariant: a positive capacity that the collected children
    /// do not exceed.
    pub closed spec fn wf(self) -> bool {
        &&& self.capacity > 0
        &&& self.entries matches Some(v) ==> v@.len() <= self.capacity
    }

    /// An open pool with no children and the default capacity.
    pub fn new() -> (r: Self)
        ensures
            r.wf(),
            r.spec_entries() == Some(Seq::<T>::empty()),
            r.spec_capacity() == DEFAULT_CAPACITY,
            r.spec_overflow() == 0,
    {
        Self { entries: Some(Vec::new()), capacity: DEFAULT_CAPACITY, overflow: 0 }
    }

    /// An open pool with no children that keeps at most `capacity` of them.
    pub fn with_capacity(capacity: usize) -> (r: Self)
        requires
            capacity > 0,
        ensures
            r.wf(),
            r.spec_entries() == Some(Seq::<T>::empty()),
            r.spec_capacity() == capacity,
            r.spec_overflow() == 0,
    {
        Self { entries: Some(Vec::new()), capacity, overflow: 0 }
    }

    /// How many children the pool keeps.
    pub fn capacity(&self) -> (r: usize)
        ensures
            r == self.spec_capacity(),
    {
        self.capacity
    }

    /// How many children were dropped to make room.
    pub fn overflow_count(&self) -> (r: u64)
        ensures
            r == self.spec_overflow(),
    {
        self.overflow
    }

    /// Appends `entry` while the pool is open, dropping the oldest child
    /// first when the pool is full; returns the child that leaves the pool,
    /// if any: the oldest one, or `entry` itself once the pool is closed.
    /// The overflow count saturates at `u64::MAX`.
    pub fn push(&mut self, entry: T) -> (r: Option<T>)
        requires
            old(self).wf(),
        ensures
            final(self).wf(),
            final(self).spec_capacity() == old(self).spec_capacity(),
            match old(self).spec_entries() {
                None => {
                    &&& final(self).spec_entries() is None
                    &&& r == Some(entry)
                    &&& final(self).spec_overflow() == old(self).spec_overflow()
                },
                Some(s) => if s.len() < old(self).spec_capacity() {
                    &&& final(self).spec_entries() == Some(s.push(entry))
                    &&& r is None
                    &&& final(self).spec_overflow() == old(self).spec_overflow()
                } else {
                    &&& final(self).spec_entries() == Some(s.drop_first().push(entry))
                    &&& r == Some(s[0])
                    &&& final(self).spec_overflow() == (if old(self).spec_overflow() < u64::MAX {
                        old(self).spec_overflow() + 1
                    } else {
                        old(self).spec_overflow()
                    })
                },
            },
    {
        let capacity = self.capacity;
        match &mut self.entries {
            Some(entries) => {
                if entries.len() < capacity {
                    entries.push(entry);
                    None
                } else {
                    let oldest = entries.remove(0);
                    entries.push(entry);
                    self.overflow = self.overflow.saturating_add(1);
                    Some(oldest)
                }
            },
            None => Some(entry),
        }
    }

    /// Closes the pool, returning the children collected so far.
    pub fn take(&mut self) -> (r: Vec<T>)
        requires
            old(self).wf(),
        ensures
            final(self).wf(),
            final(self).spec_entries() is None,
            final(self).spec_capacity() == old(self).spec_capacity(),
            final(self).spec_overflow() == old(self).spec_overflow(),
            r@ == match old(self).spec_entries() {
                Some(s) => s,
                None => Seq::<T>::empty(),
            },
    {
        match self.entries.take() {
            Some(entries) => entries,
            None => Vec::new(),
        }
    }
}

} // verus!
