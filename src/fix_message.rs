//! The field store of one raw message and the parser that fills it.
use vstd::prelude::*;
use crate::text::{find_char, lemma_find_char, same_text, scan_to, text_between};

verus! {

/// Character separating the `tag=value` segments of a raw message.
pub const DELIMITER: char = '|';

/// Character separating a tag from its value inside a segment.
pub const ASSIGNMENT: char = '=';

/// The tag and the value of one segment: what stands before its first
/// assignment character, and what follows it. A segment without one has none.
pub open spec fn segment_pair(seg: Seq<char>, a: char) -> Option<(Seq<char>, Seq<char>)> {
    let k = find_char(seg, a);
    if k < seg.len() {
        Some((seg.take(k as int), seg.skip((k + 1) as int)))
    } else {
        None
    }
}

/// `acc` with the pair of segment `seg` written over it, if the segment has one.
pub open spec fn with_segment(
    acc: Map<Seq<char>, Seq<char>>,
    seg: Seq<char>,
    a: char,
) -> Map<Seq<char>, Seq<char>> {
    match segment_pair(seg, a) {
        Some(p) => acc.insert(p.0, p.1),
        None => acc,
    }
}

/// `acc` with the pairs of the segments of `rest` written over it, from left
/// to right, so that a later tag wins over an earlier one.
pub open spec fn fields_after(
    rest: Seq<char>,
    acc: Map<Seq<char>, Seq<char>>,
    d: char,
    a: char,
) -> Map<Seq<char>, Seq<char>>
    decreases rest.len(),
{
    let k = find_char(rest, d);
    if k < rest.len() {
        fields_after(rest.skip((k + 1) as int), with_segment(acc, rest.take(k as int), a), d, a)
    } else {
        with_segment(acc, rest, a)
    }
}

/// The fields of raw message `raw`, tag to value, with segments separated by
/// `d` and tags from values by `a`.
pub open spec fn parsed_fields_with(
    raw: Seq<char>,
    d: char,
    a: char,
) -> Map<Seq<char>, Seq<char>> {
    fields_after(raw, Map::empty(), d, a)
}

/// The fields of raw message `raw` in the default notation (`tag=value|`).
pub open spec fn parsed_fields(raw: Seq<char>) -> Map<Seq<char>, Seq<char>> {
    parsed_fields_with(raw, DELIMITER, ASSIGNMENT)
}

/// The segments `segs` joined by the delimiter.
pub open spec fn join_segments(segs: Seq<Seq<char>>, d: char) -> Seq<char>
    decreases segs.len(),
{
    if segs.len() == 0 {
        Seq::empty()
    } else if segs.len() == 1 {
        segs[0]
    } else {
        segs[0] + seq![d] + join_segments(segs.drop_first(), d)
    }
}

/// `acc` with the pairs of the segments `segs` written over it, from left to right.
pub open spec fn with_segments(
    acc: Map<Seq<char>, Seq<char>>,
    segs: Seq<Seq<char>>,
    a: char,
) -> Map<Seq<char>, Seq<char>>
    decreases segs.len(),
{
    if segs.len() == 0 {
        acc
    } else {
        with_segments(with_segment(acc, segs[0], a), segs.drop_first(), a)
    }
}

/// No segment of `segs` holds the delimiter.
pub open spec fn segments_undelimited(segs: Seq<Seq<char>>, d: char) -> bool {
    forall|i: int, j: int| 0 <= i < segs.len() && 0 <= j < segs[i].len() ==> segs[i][j] != d
}

/// The segment `tag=value`.
pub open spec fn assignment_text(p: (Seq<char>, Seq<char>), a: char) -> Seq<char> {
    p.0 + seq![a] + p.1
}

/// A well-formed pair: the tag holds neither the delimiter nor the
/// assignment character, and the value holds no delimiter.
pub open spec fn well_formed_pair(p: (Seq<char>, Seq<char>), d: char, a: char) -> bool {
    &&& forall|j: int| 0 <= j < p.0.len() ==> p.0[j] != d && p.0[j] != a
    &&& forall|j: int| 0 <= j < p.1.len() ==> p.1[j] != d
}

/// The segments of `pairs`, one `tag=value` each.
pub open spec fn assignment_segments(
    pairs: Seq<(Seq<char>, Seq<char>)>,
    a: char,
) -> Seq<Seq<char>> {
    pairs.map_values(|p: (Seq<char>, Seq<char>)| assignment_text(p, a))
}

proof fn lemma_fields_of_join(
    segs: Seq<Seq<char>>,
    acc: Map<Seq<char>, Seq<char>>,
    d: char,
    a: char,
)
    requires
        segments_undelimited(segs, d),
    ensures
        fields_after(join_segments(segs, d), acc, d, a) == with_segments(acc, segs, a),
    decreases segs.len(),
{
    if segs.len() == 0 {
        assert(find_char(Seq::<char>::empty(), a) == 0);
        assert(find_char(Seq::<char>::empty(), d) == 0);
        assert(with_segment(acc, Seq::empty(), a) == acc);
        assert(fields_after(Seq::empty(), acc, d, a) == acc);
    } else {
        let s0 = segs[0];
        let rest = segs.drop_first();
        assert(segments_undelimited(rest, d)) by {
            assert forall|i: int, j: int| 0 <= i < rest.len() && 0 <= j < rest[i].len() implies rest[i][j]
                != d by {
                assert(rest[i] == segs[i + 1]);
            }
        }
        if segs.len() == 1 {
            assert forall|j: int| 0 <= j < s0.len() implies s0[j] != d by {
                assert(segs[0][j] != d);
            }
            lemma_find_char(s0, d, s0.len() as int);
            assert(rest.len() == 0);
            assert(join_segments(segs, d) == s0);
        } else {
            let t = s0 + seq![d] + join_segments(rest, d);
            assert forall|j: int| 0 <= j < s0.len() implies t[j] != d by {
                assert(t[j] == s0[j]);
                assert(segs[0][j] != d);
            }
            lemma_find_char(t, d, s0.len() as int);
            assert(t.take(s0.len() as int) =~= s0);
            assert(t.skip((s0.len() + 1) as int) =~= join_segments(rest, d));
            lemma_fields_of_join(rest, with_segment(acc, s0, a), d, a);
            assert(join_segments(segs, d) == t);
            assert(fields_after(t, acc, d, a) == fields_after(
                t.skip((s0.len() + 1) as int),
                with_segment(acc, t.take(s0.len() as int), a), d, a
            ));
        }
        assert(with_segments(acc, segs, a) == with_segments(with_segment(acc, s0, a), rest, a));
    }
}

proof fn lemma_pair_of_assignment(p: (Seq<char>, Seq<char>), d: char, a: char)
    requires
        well_formed_pair(p, d, a),
    ensures
        segment_pair(assignment_text(p, a), a) == Some(p),
{
    let t = assignment_text(p, a);
    assert forall|j: int| 0 <= j < p.0.len() implies t[j] != a by {
        assert(t[j] == p.0[j]);
    }
    lemma_find_char(t, a, p.0.len() as int);
    assert(t.take(p.0.len() as int) =~= p.0);
    assert(t.skip((p.0.len() + 1) as int) =~= p.1);
}

proof fn lemma_assignment_segments(pairs: Seq<(Seq<char>, Seq<char>)>, d: char, a: char)
    requires
        d != a,
        forall|i: int| 0 <= i < pairs.len() ==> well_formed_pair(#[trigger] pairs[i], d, a),
    ensures
        segments_undelimited(assignment_segments(pairs, a), d),
        pairs.len() > 0 ==> assignment_segments(pairs, a).drop_first() =~= assignment_segments(
            pairs.drop_first(), a
        ),
{
    let segs = assignment_segments(pairs, a);
    assert forall|i: int, j: int| 0 <= i < segs.len() && 0 <= j < segs[i].len() implies segs[i][j]
        != d by {
        let p = pairs[i];
        assert(well_formed_pair(p, d, a));
        assert(segs[i] == assignment_text(p, a));
        if j < p.0.len() {
            assert(segs[i][j] == p.0[j]);
        } else if j > p.0.len() {
            assert(segs[i][j] == p.1[j - p.0.len() - 1]);
        }
    }
}

proof fn lemma_with_segments_absent(
    pairs: Seq<(Seq<char>, Seq<char>)>,
    acc: Map<Seq<char>, Seq<char>>,
    k: Seq<char>,
    d: char,
    a: char,
)
    requires
        d != a,
        forall|i: int| 0 <= i < pairs.len() ==> well_formed_pair(#[trigger] pairs[i], d, a),
        forall|i: int| 0 <= i < pairs.len() ==> (#[trigger] pairs[i]).0 != k,
    ensures
        with_segments(acc, assignment_segments(pairs, a), a).contains_key(k) == acc.contains_key(k),
        acc.contains_key(k) ==> with_segments(acc, assignment_segments(pairs, a), a)[k] == acc[k],
    decreases pairs.len(),
{
    if pairs.len() > 0 {
        lemma_assignment_segments(pairs, d, a);
        lemma_pair_of_assignment(pairs[0], d, a);
        let acc2 = acc.insert(pairs[0].0, pairs[0].1);
        lemma_with_segments_absent(pairs.drop_first(), acc2, k, d, a);
    }
}

proof fn lemma_with_segments_last(
    pairs: Seq<(Seq<char>, Seq<char>)>,
    acc: Map<Seq<char>, Seq<char>>,
    i: int,
    d: char,
    a: char,
)
    requires
        d != a,
        forall|j: int| 0 <= j < pairs.len() ==> well_formed_pair(#[trigger] pairs[j], d, a),
        0 <= i < pairs.len(),
        forall|j: int| i < j < pairs.len() ==> (#[trigger] pairs[j]).0 != pairs[i].0,
    ensures
        with_segments(acc, assignment_segments(pairs, a), a).contains_key(pairs[i].0),
        with_segments(acc, assignment_segments(pairs, a), a)[pairs[i].0] == pairs[i].1,
    decreases pairs.len(),
{
    lemma_assignment_segments(pairs, d, a);
    lemma_pair_of_assignment(pairs[0], d, a);
    let acc2 = acc.insert(pairs[0].0, pairs[0].1);
    let rest = pairs.drop_first();
    if i == 0 {
        lemma_with_segments_absent(rest, acc2, pairs[0].0, d, a);
    } else {
        lemma_with_segments_last(rest, acc2, i - 1, d, a);
    }
}

/// With distinct delimiter `d` and assignment character `a`, parsing the
/// `tag=value` segments of well-formed pairs, joined by the delimiter, gives each tag the value of its last occurrence, and no tag
/// that none of the pairs has.
pub proof fn law_last_occurrence_wins(pairs: Seq<(Seq<char>, Seq<char>)>, d: char, a: char)
    requires
        d != a,
        forall|i: int| 0 <= i < pairs.len() ==> well_formed_pair(#[trigger] pairs[i], d, a),
    ensures
        forall|i: int|
            0 <= i < pairs.len() && (forall|j: int| i < j < pairs.len() ==> pairs[j].0 != pairs[i].0)
                ==> #[trigger] parsed_fields_with(join_segments(assignment_segments(pairs, a), d), d, a).contains_key(
                pairs[i].0,
            ) && parsed_fields_with(join_segments(assignment_segments(pairs, a), d), d, a)[pairs[i].0] == pairs[i].1,
        forall|k: Seq<char>|
            #[trigger] parsed_fields_with(join_segments(assignment_segments(pairs, a), d), d, a).contains_key(k)
                ==> exists|j: int| 0 <= j < pairs.len() && pairs[j].0 == k,
{
    let segs = assignment_segments(pairs, a);
    let empty = Map::<Seq<char>, Seq<char>>::empty();
    lemma_assignment_segments(pairs, d, a);
    lemma_fields_of_join(segs, empty, d, a);
    assert forall|i: int|
        0 <= i < pairs.len() && (forall|j: int| i < j < pairs.len() ==> pairs[j].0 != pairs[i].0)
            implies #[trigger] parsed_fields_with(join_segments(segs, d), d, a).contains_key(pairs[i].0)
        && parsed_fields_with(join_segments(segs, d), d, a)[pairs[i].0] == pairs[i].1 by {
        lemma_with_segments_last(pairs, empty, i, d, a);
    }
    assert forall|k: Seq<char>| #[trigger] parsed_fields_with(join_segments(segs, d), d, a).contains_key(k)
        implies exists|j: int| 0 <= j < pairs.len() && pairs[j].0 == k by {
        if forall|j: int| 0 <= j < pairs.len() ==> pairs[j].0 != k {
            lemma_with_segments_absent(pairs, empty, k, d, a);
        }
    }
}

/// Parsing the empty string gives no fields, whatever the two characters.
pub proof fn law_parse_empty(d: char, a: char)
    ensures
        parsed_fields_with(Seq::empty(), d, a) == Map::<Seq<char>, Seq<char>>::empty(),
{
    assert(find_char(Seq::<char>::empty(), d) == 0);
    assert(find_char(Seq::<char>::empty(), a) == 0);
}

proof fn lemma_with_segments_skip(
    segs: Seq<Seq<char>>,
    i: int,
    seg: Seq<char>,
    acc: Map<Seq<char>, Seq<char>>,
    a: char,
)
    requires
        0 <= i <= segs.len(),
        segment_pair(seg, a) is None,
    ensures
        with_segments(acc, segs.insert(i, seg), a) == with_segments(acc, segs, a),
    decreases segs.len(),
{
    let t = segs.insert(i, seg);
    if i == 0 {
        assert(t.drop_first() =~= segs);
    } else {
        assert(t.drop_first() =~= segs.drop_first().insert(i - 1, seg));
        lemma_with_segments_skip(segs.drop_first(), i - 1, seg, with_segment(acc, segs[0], a), a);
    }
}

/// A segment without the assignment character `a`, put anywhere among the
/// segments of a message (separated by `d`), leaves its fields as they were.
pub proof fn law_segment_without_assignment_ignored(
    segs: Seq<Seq<char>>,
    i: int,
    seg: Seq<char>,
    d: char,
    a: char,
)
    requires
        segments_undelimited(segs, d),
        0 <= i <= segs.len(),
        forall|j: int| 0 <= j < seg.len() ==> seg[j] != d && seg[j] != a,
    ensures
        parsed_fields_with(join_segments(segs.insert(i, seg), d), d, a) == parsed_fields_with(
            join_segments(segs, d),
            d,
            a,
        ),
{
    let t = segs.insert(i, seg);
    assert(segments_undelimited(t, d)) by {
        assert forall|x: int, y: int| 0 <= x < t.len() && 0 <= y < t[x].len() implies t[x][y]
            != d by {
            if x < i {
                assert(t[x] == segs[x]);
            } else if x > i {
                assert(t[x] == segs[x - 1]);
            }
        }
    }
    lemma_find_char(seg, a, seg.len() as int);
    lemma_fields_of_join(t, Map::empty(), d, a);
    lemma_fields_of_join(segs, Map::empty(), d, a);
    lemma_with_segments_skip(segs, i, seg, Map::empty(), a);
}

/// Segment `seg` assigns a value to tag `k`.
pub open spec fn assigns(seg: Seq<char>, a: char, k: Seq<char>) -> bool {
    segment_pair(seg, a) matches Some(p) && p.0 == k
}

proof fn lemma_with_segments_keys(
    acc: Map<Seq<char>, Seq<char>>,
    segs: Seq<Seq<char>>,
    a: char,
    k: Seq<char>,
)
    ensures
        with_segments(acc, segs, a).contains_key(k) <==> (acc.contains_key(k) || exists|i: int|
            0 <= i < segs.len() && assigns(#[trigger] segs[i], a, k)),
    decreases segs.len(),
{
    if segs.len() > 0 {
        let rest = segs.drop_first();
        let acc2 = with_segment(acc, segs[0], a);
        lemma_with_segments_keys(acc2, rest, a, k);
        if exists|i: int| 0 <= i < rest.len() && assigns(#[trigger] rest[i], a, k) {
            let i = choose|i: int| 0 <= i < rest.len() && assigns(#[trigger] rest[i], a, k);
            assert(segs[i + 1] == rest[i]);
        }
        if exists|i: int| 0 <= i < segs.len() && assigns(#[trigger] segs[i], a, k) {
            let i = choose|i: int| 0 <= i < segs.len() && assigns(#[trigger] segs[i], a, k);
            if i > 0 {
                assert(rest[i - 1] == segs[i]);
            }
        }
    }
}

/// The tags of a parsed message are exactly the tags of those of its
/// segments that hold the assignment character `a`; segments without it,
/// empty ones included, add no tag.
pub proof fn law_tags_of_assigning_segments(segs: Seq<Seq<char>>, d: char, a: char)
    requires
        segments_undelimited(segs, d),
    ensures
        forall|k: Seq<char>|
            #[trigger] parsed_fields_with(join_segments(segs, d), d, a).contains_key(k) <==> exists|
                i: int,
            | 0 <= i < segs.len() && assigns(#[trigger] segs[i], a, k),
{
    lemma_fields_of_join(segs, Map::empty(), d, a);
    assert forall|k: Seq<char>|
        #[trigger] parsed_fields_with(join_segments(segs, d), d, a).contains_key(k) <==> exists|
            i: int,
        | 0 <= i < segs.len() && assigns(#[trigger] segs[i], a, k) by {
        lemma_with_segments_keys(Map::empty(), segs, a, k);
    }
}

/// The map that a list of pairs stands for, a later pair winning over an
/// earlier one with the same tag.
pub open spec fn map_of(s: Seq<(String, String)>) -> Map<Seq<char>, Seq<char>>
    decreases s.len(),
{
    if s.len() == 0 {
        Map::empty()
    } else {
        map_of(s.drop_last()).insert(s.last().0@, s.last().1@)
    }
}

/// No tag occurs twice in `s`.
pub open spec fn keys_unique(s: Seq<(String, String)>) -> bool {
    forall|i: int, j: int| 0 <= i < j < s.len() ==> s[i].0@ != s[j].0@
}

proof fn lemma_map_of_absent(s: Seq<(String, String)>, k: Seq<char>)
    requires
        forall|i: int| 0 <= i < s.len() ==> s[i].0@ != k,
    ensures
        !map_of(s).contains_key(k),
    decreases s.len(),
{
    if s.len() > 0 {
        lemma_map_of_absent(s.drop_last(), k);
    }
}

proof fn lemma_map_of_get(s: Seq<(String, String)>, i: int)
    requires
        keys_unique(s),
        0 <= i < s.len(),
    ensures
        map_of(s).contains_key(s[i].0@),
        map_of(s)[s[i].0@] == s[i].1@,
    decreases s.len(),
{
    if i < s.len() - 1 {
        lemma_map_of_get(s.drop_last(), i);
    }
}

proof fn lemma_map_of_len(s: Seq<(String, String)>)
    requires
        keys_unique(s),
    ensures
        map_of(s).dom().finite(),
        map_of(s).len() == s.len(),
    decreases s.len(),
{
    if s.len() > 0 {
        let t = s.drop_last();
        lemma_map_of_len(t);
        lemma_map_of_absent(t, s.last().0@);
    }
}

proof fn lemma_map_of_update(s: Seq<(String, String)>, i: int, p: (String, String))
    requires
        keys_unique(s),
        0 <= i < s.len(),
        s[i].0@ == p.0@,
    ensures
        map_of(s.update(i, p)) == map_of(s).insert(p.0@, p.1@),
    decreases s.len(),
{
    let u = s.update(i, p);
    if i == s.len() - 1 {
        assert(u.drop_last() =~= s.drop_last());
        assert(map_of(u) =~= map_of(s).insert(p.0@, p.1@));
    } else {
        assert(u.drop_last() =~= s.drop_last().update(i, p));
        lemma_map_of_update(s.drop_last(), i, p);
        assert(s.last().0@ != p.0@);
        assert(map_of(u) =~= map_of(s).insert(p.0@, p.1@));
    }
}

/// The fields of one message, tag to raw value; each tag at most once.
#[derive(Debug)]
pub struct FixMessage {
    fields: Vec<(String, String)>,
}

impl View for FixMessage {
    type V = Map<Seq<char>, Seq<char>>;

    closed spec fn view(&self) -> Map<Seq<char>, Seq<char>> {
        map_of(self.fields@)
    }
}

impl FixMessage {
    /// Well-formedness: the pairs held have distinct tags.
    pub closed spec fn wf(&self) -> bool {
        keys_unique(self.fields@)
    }

    /// A store with no fields.
    pub fn new() -> (r: FixMessage)
        ensures
            r.wf(),
            r@ == Map::<Seq<char>, Seq<char>>::empty(),
    {
        FixMessage { fields: Vec::new() }
    }

    /// Sets `tag` to `value`, replacing a value the tag had before.
    pub fn insert(&mut self, tag: String, value: String)
        requires
            old(self).wf(),
        ensures
            final(self).wf(),
            final(self)@ == old(self)@.insert(tag@, value@),
    {
        let n = self.fields.len();
        let mut i: usize = 0;
        while i < n
            invariant
                n == self.fields.len(),
                self.fields@ == old(self).fields@,
                self.wf(),
                0 <= i <= n,
                forall|j: int| 0 <= j < i ==> self.fields@[j].0@ != tag@,
            decreases n - i,
        {
            if same_text(self.fields[i].0.as_str(), tag.as_str()) {
                let ghost before = self.fields@;
                let pair = (tag, value);
                proof {
                    lemma_map_of_update(before, i as int, pair);
                }
                self.fields.set(i, pair);
                assert(self.fields@ == before.update(i as int, pair));
                return;
            }
            i = i + 1;
        }
        proof {
            lemma_map_of_absent(self.fields@, tag@);
        }
        self.fields.push((tag, value));
        proof {
            assert(self.fields@.drop_last() =~= old(self).fields@);
        }
    }

    /// The value of `tag`, if the message has that tag.
    pub fn get(&self, tag: &str) -> (r: Option<&String>)
        requires
            self.wf(),
        ensures
            match r {
                Some(v) => self@.contains_key(tag@) && v@ == self@[tag@],
                None => !self@.contains_key(tag@),
            },
    {
        let n = self.fields.len();
        let mut i: usize = 0;
        while i < n
            invariant
                n == self.fields.len(),
                self.wf(),
                0 <= i <= n,
                forall|j: int| 0 <= j < i ==> self.fields@[j].0@ != tag@,
            decreases n - i,
        {
            if same_text(self.fields[i].0.as_str(), tag) {
                proof {
                    lemma_map_of_get(self.fields@, i as int);
                }
                return Some(&self.fields[i].1);
            }
            i = i + 1;
        }
        proof {
            lemma_map_of_absent(self.fields@, tag@);
        }
        None
    }

    /// Number of distinct tags held.
    pub fn len(&self) -> (r: usize)
        requires
            self.wf(),
        ensures
            r == self@.len(),
    {
        proof {
            lemma_map_of_len(self.fields@);
        }
        self.fields.len()
    }

    /// Whether the store holds no field.
    pub fn is_empty(&self) -> (r: bool)
        requires
            self.wf(),
        ensures
            r == (self@.len() == 0),
    {
        proof {
            lemma_map_of_len(self.fields@);
        }
        self.fields.len() == 0
    }

    /// The fields as `(tag, value)` pairs, each tag once, in no set order.
    pub fn into_iter(self) -> (r: Vec<(String, String)>)
        requires
            self.wf(),
        ensures
            keys_unique(r@),
            map_of(r@) == self@,
    {
        self.fields
    }

    /// Parses `message` in the default notation: segments separated by `|`,
    /// tags from values by `=`.
    pub fn parse(message: &str) -> (r: FixMessage)
        ensures
            r.wf(),
            r@ == parsed_fields(message@),
    {
        Self::parse_with(message, DELIMITER, ASSIGNMENT)
    }

    /// Splits `message` at each `delimiter` and keeps the tag and value of
    /// each segment that has an `assignment` character (split at the first
    /// one); a later tag overwrites an earlier one, and other segments are
    /// dropped.
    pub fn parse_with(message: &str, delimiter: char, assignment: char) -> (r: FixMessage)
        ensures
            r.wf(),
            r@ == parsed_fields_with(message@, delimiter, assignment),
    {
        let n = message.unicode_len();
        let mut store = FixMessage::new();
        let mut start: usize = 0;
        assert(message@.skip(0) =~= message@);
        loop
            invariant
                n == message@.len(),
                0 <= start <= n,
                store.wf(),
                fields_after(message@.skip(start as int), store@, delimiter, assignment)
                    == parsed_fields_with(message@, delimiter, assignment),
            decreases n - start,
        {
            let ghost rest = message@.skip(start as int);
            let end = scan_to(message, delimiter, start, n);
            proof {
                assert(message@.subrange(start as int, n as int) =~= rest);
            }
            let eq = scan_to(message, assignment, start, end);
            proof {
                let seg = message@.subrange(start as int, end as int);
                assert(rest.take(end - start) =~= seg);
                assert(seg.take(eq - start) =~= message@.subrange(start as int, eq as int));
                if eq < end {
                    assert(seg.skip(eq - start + 1) =~= message@.subrange(eq + 1, end as int));
                }
            }
            if eq < end {
                let tag = text_between(message, start, eq);
                let value = text_between(message, eq + 1, end);
                store.insert(tag, value);
            }
            if end == n {
                return store;
            }
            proof {
                assert(rest.skip(end - start + 1) =~= message@.skip(end + 1));
            }
            start = end + 1;
        }
    }
}

} // verus!
