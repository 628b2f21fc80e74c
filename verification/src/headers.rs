//! Header names and values, and their wire form.

use vstd::prelude::*;

verus! {

/// A body content type.
#[derive(Clone, Copy, PartialEq, Eq, Structural, Debug)]
pub enum ContentType {
    ApplicationJson,
}

impl ContentType {
    /// The wire text of this content type.
    pub open spec fn spec_text(self) -> Seq<char> {
        match self {
            ContentType::ApplicationJson => "application/json"@,
        }
    }

    /// The wire text of this content type.
    pub fn as_str(&self) -> (r: &'static str)
        ensures
            r@ == self.spec_text(),
    {
        match self {
            ContentType::ApplicationJson => "application/json",
        }
    }
}

impl Default for ContentType {
    /// The default content type is `application/json`.
    fn default() -> (r: Self)
        ensures
            r == ContentType::ApplicationJson,
    {
        ContentType::ApplicationJson
    }
}

/// The views of a sequence of owned header entries.
pub open spec fn entry_views(s: Seq<(String, String)>) -> Seq<(Seq<char>, Seq<char>)> {
    s.map_values(|p: (String, String)| (p.0@, p.1@))
}

/// No header name occurs twice.
pub open spec fn names_unique(s: Seq<(Seq<char>, Seq<char>)>) -> bool {
    forall|i: int, j: int| 0 <= i < j < s.len() ==> s[i].0 != s[j].0
}

/// The entries after a set: the value of `name` replaced in place where the
/// name already occurs (at its first occurrence), else a new entry at the end.
pub open spec fn entries_set(
    s: Seq<(Seq<char>, Seq<char>)>,
    name: Seq<char>,
    value: Seq<char>,
) -> Seq<(Seq<char>, Seq<char>)>
    decreases s.len(),
{
    if s.len() == 0 {
        seq![(name, value)]
    } else if s[0].0 == name {
        seq![(name, value)] + s.drop_first()
    } else {
        seq![s[0]] + entries_set(s.drop_first(), name, value)
    }
}

/// The mapping the entries denote. An earlier entry wins over a later
/// duplicate; the entries the library keeps never hold duplicates.
pub open spec fn map_of(s: Seq<(Seq<char>, Seq<char>)>) -> Map<Seq<char>, Seq<char>>
    decreases s.len(),
{
    if s.len() == 0 {
        Map::empty()
    } else {
        map_of(s.drop_first()).insert(s[0].0, s[0].1)
    }
}

/// How many entries carry `name`.
pub open spec fn count_name(s: Seq<(Seq<char>, Seq<char>)>, name: Seq<char>) -> nat
    decreases s.len(),
{
    if s.len() == 0 {
        0
    } else {
        (if s[0].0 == name {
            1nat
        } else {
            0nat
        }) + count_name(s.drop_first(), name)
    }
}

/// One serialized header line: `name: value`.
pub open spec fn line_chars(p: (Seq<char>, Seq<char>)) -> Seq<char> {
    p.0 + ": "@ + p.1
}

/// The serialized header block: the lines of the entries, joined by a newline.
pub open spec fn wire_chars(s: Seq<(Seq<char>, Seq<char>)>) -> Seq<char>
    decreases s.len(),
{
    if s.len() == 0 {
        Seq::empty()
    } else if s.len() == 1 {
        line_chars(s[0])
    } else {
        wire_chars(s.drop_last()) + "\n"@ + line_chars(s.last())
    }
}

/// A mapping from header name to header value, both case-sensitive strings.
#[derive(Debug)]
pub struct Headers {
    entries: Vec<(String, String)>,
}

impl View for Headers {
    type V = Map<Seq<char>, Seq<char>>;

    closed spec fn view(&self) -> Map<Seq<char>, Seq<char>> {
        map_of(entry_views(self.entries@))
    }
}

impl Headers {
    /// The entries in the order they are serialized.
    pub closed spec fn entries_view(self) -> Seq<(Seq<char>, Seq<char>)> {
        entry_views(self.entries@)
    }

    /// No header name occurs twice among the entries.
    pub open spec fn wf(self) -> bool {
        names_unique(self.entries_view())
    }

    /// Creates a new [`Headers`] with no entries.
    pub fn new() -> (h: Self)
        ensures
            h.entries_view() == Seq::<(Seq<char>, Seq<char>)>::empty(),
            h@ == Map::<Seq<char>, Seq<char>>::empty(),
            h.wf(),
    {
        let h = Headers { entries: Vec::new() };
        proof {
            assert(h.entries_view() =~= Seq::<(Seq<char>, Seq<char>)>::empty());
        }
        h
    }

    /// Inserts or overwrites the value for `header_name` and returns the same
    /// instance, so that calls can be chained.
    pub fn set(&mut self, header_name: String, content_type: String) -> (r: &mut Self)
        ensures
            r.entries_view() == entries_set(
                old(self).entries_view(),
                header_name@,
                content_type@,
            ),
            old(self).wf() ==> r.wf(),
            old(self).wf() ==> r@ == old(self)@.insert(header_name@, content_type@),
            *final(self) == *final(r),
    {
        let ghost old_views = entry_views(self.entries@);
        let n = self.entries.len();
        let mut i: usize = 0;
        while i < n
            invariant
                i <= n,
                n == self.entries.len(),
                old_views == entry_views(self.entries@),
                old_views == old(self).entries_view(),
                forall|j: int| 0 <= j < i ==> old_views[j].0 != header_name@,
            decreases n - i,
        {
            if self.entries[i].0 == header_name {
                let _ = self.entries.remove(i);
                self.entries.insert(i, (header_name, content_type));
                proof {
                    assert(entry_views(self.entries@) =~= old_views.update(
                        i as int,
                        (header_name@, content_type@),
                    ));
                    lemma_entries_set_found(old_views, header_name@, content_type@, i as int);
                    if names_unique(old_views) {
                        lemma_entries_set_unique(old_views, header_name@, content_type@);
                        lemma_entries_set_map(old_views, header_name@, content_type@);
                    }
                }
                return self;
            }
            i = i + 1;
        }
        self.entries.push((header_name, content_type));
        proof {
            assert(entry_views(self.entries@) =~= old_views.push((header_name@, content_type@)));
            lemma_entries_set_not_found(old_views, header_name@, content_type@);
            if names_unique(old_views) {
                lemma_entries_set_unique(old_views, header_name@, content_type@);
                lemma_entries_set_map(old_views, header_name@, content_type@);
            }
        }
        self
    }

    /// Whether no header has been set.
    pub fn is_empty(&self) -> (r: bool)
        ensures
            r == (self.entries_view().len() == 0),
    {
        self.entries.len() == 0
    }

    /// Produces the serialized header block: `name: value` pairs joined by a
    /// newline.
    pub fn to_wire_string(&self) -> (r: String)
        ensures
            r@ == wire_chars(self.entries_view()),
    {
        let mut out = String::new();
        let n = self.entries.len();
        let mut i: usize = 0;
        while i < n
            invariant
                i <= n,
                n == self.entries.len(),
                out@ == wire_chars(entry_views(self.entries@).take(i as int)),
            decreases n - i,
        {
            let ghost views = entry_views(self.entries@);
            if i > 0 {
                out.append("\n");
            }
            let e = &self.entries[i];
            out.append(e.0.as_str());
            out.append(": ");
            out.append(e.1.as_str());
            proof {
                assert(views.take(i + 1).drop_last() =~= views.take(i as int));
                assert(views.take(i + 1).last() == views[i as int]);
                assert(out@ =~= wire_chars(views.take(i + 1)));
            }
            i = i + 1;
        }
        proof {
            assert(entry_views(self.entries@).take(n as int) =~= entry_views(self.entries@));
        }
        out
    }
}

impl Default for Headers {
    /// The default header set is empty.
    fn default() -> (h: Self)
        ensures
            h.entries_view() == Seq::<(Seq<char>, Seq<char>)>::empty(),
            h@ == Map::<Seq<char>, Seq<char>>::empty(),
            h.wf(),
    {
        Headers::new()
    }
}

/// A set whose name already occurs replaces the value at the name's first
/// occurrence, in place.
proof fn lemma_entries_set_found(
    s: Seq<(Seq<char>, Seq<char>)>,
    name: Seq<char>,
    value: Seq<char>,
    i: int,
)
    requires
        0 <= i < s.len(),
        s[i].0 == name,
        forall|j: int| 0 <= j < i ==> s[j].0 != name,
    ensures
        entries_set(s, name, value) =~= s.update(i, (name, value)),
    decreases s.len(),
{
    if i == 0 {
        assert(entries_set(s, name, value) =~= s.update(0, (name, value)));
    } else {
        lemma_entries_set_found(s.drop_first(), name, value, i - 1);
        assert(entries_set(s, name, value) =~= s.update(i, (name, value)));
    }
}

/// A set whose name is absent appends a new entry.
proof fn lemma_entries_set_not_found(s: Seq<(Seq<char>, Seq<char>)>, name: Seq<char>, value: Seq<char>)
    requires
        forall|j: int| 0 <= j < s.len() ==> s[j].0 != name,
    ensures
        entries_set(s, name, value) =~= s.push((name, value)),
    decreases s.len(),
{
    if s.len() > 0 {
        lemma_entries_set_not_found(s.drop_first(), name, value);
        assert(entries_set(s, name, value) =~= s.push((name, value)));
    }
}

/// A set preserves uniqueness of the names.
pub proof fn lemma_entries_set_unique(
    s: Seq<(Seq<char>, Seq<char>)>,
    name: Seq<char>,
    value: Seq<char>,
)
    requires
        names_unique(s),
    ensures
        names_unique(entries_set(s, name, value)),
    decreases s.len(),
{
    if s.len() > 0 && s[0].0 != name {
        assert(names_unique(s.drop_first()));
        lemma_entries_set_unique(s.drop_first(), name, value);
        lemma_entries_set_names(s.drop_first(), name, value);
        let t = entries_set(s, name, value);
        assert forall|i: int, j: int| 0 <= i < j < t.len() implies t[i].0 != t[j].0 by {
            if i > 0 {
                assert(t[i] == entries_set(s.drop_first(), name, value)[i - 1]);
                assert(t[j] == entries_set(s.drop_first(), name, value)[j - 1]);
            } else {
                assert(t[j] == entries_set(s.drop_first(), name, value)[j - 1]);
            }
        }
    }
}

/// Every name after a set is either `name` or a name that was already there.
proof fn lemma_entries_set_names(s: Seq<(Seq<char>, Seq<char>)>, name: Seq<char>, value: Seq<char>)
    ensures
        forall|i: int|
            0 <= i < entries_set(s, name, value).len() ==> (entries_set(s, name, value)[i].0 == name
                || (exists|j: int|
                0 <= j < s.len() && s[j].0 == #[trigger] entries_set(s, name, value)[i].0)),
    decreases s.len(),
{
    if s.len() > 0 && s[0].0 != name {
        lemma_entries_set_names(s.drop_first(), name, value);
        let t = entries_set(s, name, value);
        assert forall|i: int|
            0 <= i < t.len() implies (t[i].0 == name || (exists|j: int|
            0 <= j < s.len() && s[j].0 == #[trigger] t[i].0)) by {
            if i == 0 {
                assert(s[0].0 == t[0].0);
            } else {
                let t2 = entries_set(s.drop_first(), name, value);
                assert(t[i] == t2[i - 1]);
                if t2[i - 1].0 != name {
                    let j = choose|j: int|
                        0 <= j < s.drop_first().len() && s.drop_first()[j].0 == t2[i - 1].0;
                    assert(s[j + 1].0 == t[i].0);
                }
            }
        }
    }
}

/// A set means `insert` on the mapping the entries denote.
pub proof fn lemma_entries_set_map(s: Seq<(Seq<char>, Seq<char>)>, name: Seq<char>, value: Seq<char>)
    requires
        names_unique(s),
    ensures
        map_of(entries_set(s, name, value)) == map_of(s).insert(name, value),
    decreases s.len(),
{
    if s.len() == 0 {
        let t = entries_set(s, name, value);
        assert(t.len() == 1);
        assert(t.drop_first().len() == 0);
        assert(map_of(t.drop_first()) == Map::<Seq<char>, Seq<char>>::empty());
        assert(map_of(t) =~= map_of(s).insert(name, value));
    } else if s[0].0 == name {
        let t = entries_set(s, name, value);
        assert(t.drop_first() =~= s.drop_first());
        assert(map_of(t) == map_of(s.drop_first()).insert(name, value));
        assert(map_of(s).insert(name, value) =~= map_of(s.drop_first()).insert(name, value));
    } else {
        assert(names_unique(s.drop_first()));
        lemma_entries_set_map(s.drop_first(), name, value);
        let t = entries_set(s, name, value);
        assert(t.drop_first() =~= entries_set(s.drop_first(), name, value));
        assert(map_of(t) == map_of(s.drop_first()).insert(name, value).insert(s[0].0, s[0].1));
        assert(map_of(t) =~= map_of(s).insert(name, value));
    }
}

/// Among entries with unique names, `name` occurs as often as the mapping
/// holds it: once when present, never when absent.
pub proof fn lemma_count_name_unique(s: Seq<(Seq<char>, Seq<char>)>, name: Seq<char>)
    requires
        names_unique(s),
    ensures
        count_name(s, name) <= 1,
        count_name(s, name) == 1 <==> (exists|j: int| 0 <= j < s.len() && s[j].0 == name),
    decreases s.len(),
{
    if s.len() > 0 {
        assert(names_unique(s.drop_first()));
        lemma_count_name_unique(s.drop_first(), name);
        if s[0].0 == name {
            lemma_count_name_absent(s.drop_first(), name);
        } else {
            if exists|j: int| 0 <= j < s.drop_first().len() && s.drop_first()[j].0 == name {
                let j = choose|j: int| 0 <= j < s.drop_first().len() && s.drop_first()[j].0 == name;
                assert(s[j + 1].0 == name);
            }
            if exists|j: int| 0 <= j < s.len() && s[j].0 == name {
                let j = choose|j: int| 0 <= j < s.len() && s[j].0 == name;
                assert(s.drop_first()[j - 1].0 == name);
            }
        }
    }
}

/// A name that no entry carries is counted zero times.
proof fn lemma_count_name_absent(s: Seq<(Seq<char>, Seq<char>)>, name: Seq<char>)
    requires
        forall|j: int| 0 <= j < s.len() ==> s[j].0 != name,
    ensures
        count_name(s, name) == 0,
    decreases s.len(),
{
    if s.len() > 0 {
        lemma_count_name_absent(s.drop_first(), name);
    }
}

/// Setting the same header name twice leaves exactly one entry for that name,
/// and the mapping holds the value given last.
pub proof fn lemma_set_twice_single_entry(
    s: Seq<(Seq<char>, Seq<char>)>,
    name: Seq<char>,
    v1: Seq<char>,
    v2: Seq<char>,
)
    requires
        names_unique(s),
    ensures
        count_name(entries_set(entries_set(s, name, v1), name, v2), name) == 1,
        names_unique(entries_set(entries_set(s, name, v1), name, v2)),
        map_of(entries_set(entries_set(s, name, v1), name, v2)) == map_of(s).insert(name, v2),
{
    let t1 = entries_set(s, name, v1);
    let t2 = entries_set(t1, name, v2);
    lemma_entries_set_unique(s, name, v1);
    lemma_entries_set_unique(t1, name, v2);
    lemma_entries_set_contains(s, name, v1);
    lemma_entries_set_contains(t1, name, v2);
    lemma_count_name_unique(t2, name);
    lemma_entries_set_map(s, name, v1);
    lemma_entries_set_map(t1, name, v2);
    assert(map_of(s).insert(name, v1).insert(name, v2) =~= map_of(s).insert(name, v2));
}

/// After a set, some entry carries the name that was set.
proof fn lemma_entries_set_contains(s: Seq<(Seq<char>, Seq<char>)>, name: Seq<char>, value: Seq<char>)
    ensures
        exists|j: int|
            0 <= j < entries_set(s, name, value).len() && #[trigger] entries_set(
                s,
                name,
                value,
            )[j].0 == name,
    decreases s.len(),
{
    let t = entries_set(s, name, value);
    if s.len() == 0 || s[0].0 == name {
        assert(t[0].0 == name);
    } else {
        lemma_entries_set_contains(s.drop_first(), name, value);
        let j = choose|j: int|
            0 <= j < entries_set(s.drop_first(), name, value).len() && entries_set(
                s.drop_first(),
                name,
                value,
            )[j].0 == name;
        assert(t[j + 1].0 == name);
    }
}

} // verus!
