use vstd::prelude::*;
use indexmap::IndexMap;

verus! {

/// The text of each string of a sequence.
pub open spec fn texts(v: Seq<String>) -> Seq<Seq<char>> {
    v.map_values(|s: String| s@)
}

/// The messages of one bucket under each recognised scope, oldest first.
pub ghost struct EntriesView {
    pub added: Seq<Seq<char>>,
    pub changed: Seq<Seq<char>>,
    pub fixed: Seq<Seq<char>>,
}

/// The messages of one bucket: `feat` under `added`, `refactor` under
/// `changed`, `fix` under `fixed`, each list in the order they were added.
pub struct Entries {
    pub added: Vec<String>,
    pub changed: Vec<String>,
    pub fixed: Vec<String>,
}

impl View for Entries {
    type V = EntriesView;

    open spec fn view(&self) -> EntriesView {
        EntriesView { added: texts(self.added@), changed: texts(self.changed@), fixed: texts(self.fixed@) }
    }
}

/// A sealed version: the last date seen while it was filled, and its messages.
pub ghost struct BucketView {
    pub date: Seq<char>,
    pub entries: EntriesView,
}

pub struct Bucket {
    pub date: String,
    pub entries: Entries,
}

impl View for Bucket {
    type V = BucketView;

    open spec fn view(&self) -> BucketView {
        BucketView { date: self.date@, entries: self.entries@ }
    }
}

pub open spec fn empty_entries() -> EntriesView {
    EntriesView { added: seq![], changed: seq![], fixed: seq![] }
}

/// The messages listed under a scope keyword; empty for any other keyword.
pub open spec fn scope_items(e: EntriesView, scope: Seq<char>) -> Seq<Seq<char>> {
    if scope == "feat"@ {
        e.added
    } else if scope == "refactor"@ {
        e.changed
    } else if scope == "fix"@ {
        e.fixed
    } else {
        seq![]
    }
}

/// `e` with `msg` appended under `scope`; an unrecognised scope changes nothing.
pub open spec fn add_entry(e: EntriesView, scope: Seq<char>, msg: Seq<char>) -> EntriesView {
    if scope == "feat"@ {
        EntriesView { added: e.added.push(msg), ..e }
    } else if scope == "refactor"@ {
        EntriesView { changed: e.changed.push(msg), ..e }
    } else if scope == "fix"@ {
        EntriesView { fixed: e.fixed.push(msg), ..e }
    } else {
        e
    }
}

/// `scope` is one of `feat`, `refactor` and `fix`.
pub open spec fn is_known_scope(scope: Seq<char>) -> bool {
    scope == "feat"@ || scope == "refactor"@ || scope == "fix"@
}

/// Some recognised scope has a message.
pub open spec fn any_entries(e: EntriesView) -> bool {
    e.added.len() > 0 || e.changed.len() > 0 || e.fixed.len() > 0
}

/// `a` and `b` hold the same text.
pub fn same_text(a: &str, b: &str) -> (r: bool)
    ensures
        r == (a@ == b@),
{
    let n = a.unicode_len();
    if n != b.unicode_len() {
        return false;
    }
    let mut i: usize = 0;
    while i < n
        invariant
            n == a@.len() == b@.len(),
            i <= n,
            forall|k: int| 0 <= k < i ==> a@[k] == b@[k],
        decreases n - i,
    {
        if a.get_char(i) != b.get_char(i) {
            return false;
        }
        i = i + 1;
    }
    assert(a@ =~= b@);
    true
}

impl Entries {
    pub fn new() -> (r: Entries)
        ensures
            r@ == empty_entries(),
    {
        let r = Entries { added: Vec::new(), changed: Vec::new(), fixed: Vec::new() };
        assert(r@.added =~= seq![]);
        assert(r@.changed =~= seq![]);
        assert(r@.fixed =~= seq![]);
        r
    }

    /// Appends `msg` under `scope` when `scope` is `feat`, `refactor` or `fix`.
    pub fn add(&mut self, scope: &str, msg: String)
        ensures
            final(self)@ == add_entry(old(self)@, scope@, msg@),
    {
        if same_text(scope, "feat") {
            self.added.push(msg);
            assert(self@.added =~= old(self)@.added.push(msg@));
        } else if same_text(scope, "refactor") {
            self.changed.push(msg);
            assert(self@.changed =~= old(self)@.changed.push(msg@));
        } else if same_text(scope, "fix") {
            self.fixed.push(msg);
            assert(self@.fixed =~= old(self)@.fixed.push(msg@));
        }
    }
}

/// Whether `scope` has at least one message in `chunks`.
pub fn has_chunk(chunks: &Entries, scope: &str) -> (r: bool)
    ensures
        r == (scope_items(chunks@, scope@).len() > 0),
{
    if same_text(scope, "feat") {
        chunks.added.len() > 0
    } else if same_text(scope, "refactor") {
        chunks.changed.len() > 0
    } else if same_text(scope, "fix") {
        chunks.fixed.len() > 0
    } else {
        false
    }
}

/// Whether any recognised scope has a message in `chunks`.
pub fn any_chunks(chunks: &Entries) -> (r: bool)
    ensures
        r == any_entries(chunks@),
{
    proof {
        reveal_strlit("feat");
        reveal_strlit("refactor");
        reveal_strlit("fix");
        assert("feat"@.len() == 4 && "refactor"@.len() == 8 && "fix"@.len() == 3);
    }
    has_chunk(chunks, "feat") || has_chunk(chunks, "refactor") || has_chunk(chunks, "fix")
}

/// Version labels and their buckets, in the order the labels were first inserted.
#[verifier::external_type_specification]
#[verifier::external_body]
#[verifier::reject_recursive_types(K)]
#[verifier::reject_recursive_types(V)]
#[verifier::reject_recursive_types(S)]
pub struct ExIndexMap<K, V, S>(IndexMap<K, V, S>);

/// The pairs that a map of versions holds, in its order.
pub uninterp spec fn version_entries(m: IndexMap<String, Bucket>) -> Seq<(Seq<char>, BucketView)>;

/// The first index at or after `i` whose label is `k`.
pub open spec fn find_label(es: Seq<(Seq<char>, BucketView)>, k: Seq<char>, i: int) -> Option<int>
    decreases es.len() - i,
{
    if i < 0 || i >= es.len() {
        None
    } else if es[i].0 == k {
        Some(i)
    } else {
        find_label(es, k, i + 1)
    }
}

/// `es` after inserting `(k, v)`: a label already present keeps its place
/// and takes the new bucket; a new label goes last.
pub open spec fn upsert(es: Seq<(Seq<char>, BucketView)>, k: Seq<char>, v: BucketView) -> Seq<(Seq<char>, BucketView)> {
    match find_label(es, k, 0) {
        Some(i) => es.update(i, (k, v)),
        None => es.push((k, v)),
    }
}

/// Relies on `IndexMap::new`: the new map is empty.
#[verifier::external_body]
pub(crate) fn versions_new() -> (m: IndexMap<String, Bucket>)
    ensures
        version_entries(m) == Seq::<(Seq<char>, BucketView)>::empty(),
{
    IndexMap::new()
}

/// Relies on `IndexMap::insert`: an equal key keeps its place and takes the
/// new value; otherwise the pair goes last.
#[verifier::external_body]
pub(crate) fn versions_insert(m: &mut IndexMap<String, Bucket>, k: String, v: Bucket)
    ensures
        version_entries(*final(m)) == upsert(version_entries(*old(m)), k@, v@),
{
    m.insert(k, v);
}

/// Relies on `IndexMap::len`: the number of pairs.
#[verifier::external_body]
pub(crate) fn versions_len(m: &IndexMap<String, Bucket>) -> (r: usize)
    ensures
        r == version_entries(*m).len(),
{
    m.len()
}

/// Relies on `IndexMap::get_index`: the pair at position `i`, for `i` below the length.
#[verifier::external_body]
pub(crate) fn versions_get(m: &IndexMap<String, Bucket>, i: usize) -> (r: Option<(&String, &Bucket)>)
    requires
        i < version_entries(*m).len(),
    ensures
        r.is_some(),
        r.unwrap().0@ == version_entries(*m)[i as int].0,
        r.unwrap().1@ == version_entries(*m)[i as int].1,
{
    m.get_index(i)
}

} // verus!
