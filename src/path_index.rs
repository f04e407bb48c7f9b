//! The index from navigation paths to the catalog's container identifiers.
use vstd::prelude::*;

use crate::text::str_eq;

verus! {

/// The path of segment names, as values.
pub open spec fn path_view(p: Seq<String>) -> Seq<Seq<char>> {
    Seq::new(p.len(), |i: int| p[i]@)
}

/// The identifier of the catalog's root container.
pub open spec fn root_id_spec() -> Seq<char> {
    seq!['0']
}

/// The identifier of the catalog's root container, `"0"`.
pub fn root_id() -> (r: String)
    ensures
        r@ == root_id_spec(),
{
    let r = String::from_str("0");
    proof { reveal_strlit("0"); }
    r
}

/// The identifier bound to `path` among `entries`, the first binding counting.
pub open spec fn lookup(entries: Seq<(Seq<Seq<char>>, Seq<char>)>, path: Seq<Seq<char>>) -> Option<
    Seq<char>,
>
    decreases entries.len(),
{
    if entries.len() == 0 {
        None
    } else if entries[0].0 == path {
        Some(entries[0].1)
    } else {
        lookup(entries.drop_first(), path)
    }
}

/// What `Resolve` gives for `path` over the bindings `m`: the root for the empty path, the
/// bound identifier for a bound path, and the root for any other path.
pub open spec fn resolve_spec(m: Map<Seq<Seq<char>>, Seq<char>>, path: Seq<Seq<char>>) -> Seq<char> {
    if path.len() == 0 {
        root_id_spec()
    } else if m.contains_key(path) {
        m[path]
    } else {
        root_id_spec()
    }
}

/// Maps navigation paths (sequences of container titles) to container identifiers. The
/// empty path always stands for the root container `"0"`; bindings are only ever added or
/// replaced, never removed.
#[derive(Debug, Clone)]
pub struct PathIndex {
    entries: Vec<(Vec<String>, String)>,
}

impl View for PathIndex {
    type V = Map<Seq<Seq<char>>, Seq<char>>;

    closed spec fn view(&self) -> Map<Seq<Seq<char>>, Seq<char>> {
        Map::new(
            |p: Seq<Seq<char>>| lookup(self.entries_view(), p) is Some,
            |p: Seq<Seq<char>>| lookup(self.entries_view(), p)->0,
        )
    }
}

fn same_path(a: &Vec<String>, b: &[String]) -> (r: bool)
    ensures
        r == (path_view(a@) == path_view(b@)),
{
    if a.len() != b.len() {
        assert(path_view(a@).len() != path_view(b@).len());
        return false;
    }
    let mut i: usize = 0;
    while i < a.len()
        invariant
            a.len() == b.len(),
            i <= a.len(),
            forall|j: int| 0 <= j < i ==> a@[j]@ == b@[j]@,
        decreases a.len() - i,
    {
        if !str_eq(a[i].as_str(), b[i].as_str()) {
            assert(path_view(a@)[i as int] != path_view(b@)[i as int]);
            return false;
        }
        i = i + 1;
    }
    assert(path_view(a@) =~= path_view(b@));
    true
}

fn copy_path(p: &[String]) -> (r: Vec<String>)
    ensures
        path_view(r@) == path_view(p@),
{
    let mut r: Vec<String> = Vec::new();
    let mut i: usize = 0;
    while i < p.len()
        invariant
            i <= p.len(),
            r@.len() == i,
            forall|j: int| 0 <= j < i ==> (#[trigger] r@[j])@ == p@[j]@,
        decreases p.len() - i,
    {
        r.push(p[i].clone());
        i = i + 1;
    }
    assert(path_view(r@) =~= path_view(p@));
    r
}

impl PathIndex {
    spec fn entries_view(&self) -> Seq<(Seq<Seq<char>>, Seq<char>)> {
        Seq::new(self.entries@.len(), |i: int| (path_view(self.entries@[i].0@), self.entries@[i].1@))
    }

    /// An index with no bindings but the root's.
    pub fn new() -> (r: PathIndex)
        ensures
            r@ == Map::<Seq<Seq<char>>, Seq<char>>::empty(),
    {
        let r = PathIndex { entries: Vec::new() };
        assert(r@ =~= Map::<Seq<Seq<char>>, Seq<char>>::empty());
        r
    }

    /// The identifier bound to exactly this path, if any.
    pub fn get(&self, path: &[String]) -> (r: Option<String>)
        ensures
            r matches Some(id) ==> self@.contains_key(path_view(path@)) && self@[path_view(path@)]
                == id@,
            r is None ==> !self@.contains_key(path_view(path@)),
    {
        let mut i: usize = 0;
        assert(self.entries_view().subrange(0, self.entries.len() as int) =~= self.entries_view());
        while i < self.entries.len()
            invariant
                i <= self.entries.len(),
                lookup(self.entries_view(), path_view(path@)) == lookup(
                    self.entries_view().subrange(i as int, self.entries.len() as int),
                    path_view(path@),
                ),
            decreases self.entries.len() - i,
        {
            let ghost rest = self.entries_view().subrange(i as int, self.entries.len() as int);
            assert(rest.drop_first() =~= self.entries_view().subrange(
                i + 1,
                self.entries.len() as int,
            ));
            if same_path(&self.entries[i].0, path) {
                return Some(self.entries[i].1.clone());
            }
            i = i + 1;
        }
        None
    }

    /// Binds `parent` followed by `title` to `id`, replacing an earlier binding of that path.
    pub fn extend(&mut self, parent: &[String], title: &String, id: &String)
        ensures
            final(self)@ == old(self)@.insert(path_view(parent@).push(title@), id@),
    {
        let mut key = copy_path(parent);
        key.push(title.clone());
        assert(path_view(key@) =~= path_view(parent@).push(title@));
        let ghost k = path_view(key@);
        let ghost before = self.entries_view();
        let mut i: usize = 0;
        while i < self.entries.len()
            invariant
                i <= self.entries.len(),
                self.entries_view() == before,
                old(self).entries_view() == before,
                forall|j: int| 0 <= j < i ==> #[trigger] before[j].0 != k,
                k == path_view(key@),
                k == path_view(parent@).push(title@),
            decreases self.entries.len() - i,
        {
            if same_path(&self.entries[i].0, key.as_slice()) {
                self.entries.set(i, (key, id.clone()));
                proof {
                    let after = self.entries_view();
                    assert(after =~= before.update(i as int, (k, id@)));
                    assert forall|p: Seq<Seq<char>>| #[trigger] lookup(self.entries_view(), p) == if p == k {
                        Some(id@)
                    } else {
                        lookup(before, p)
                    } by {
                        lemma_lookup_update(before, i as int, k, id@, p);
                    }

                    assert(self@ =~= old(self)@.insert(k, id@));
                }
                return;
            }
            i = i + 1;
        }
        self.entries.push((key, id.clone()));
        proof {
            assert(self.entries_view() =~= before.push((k, id@)));
            assert forall|p: Seq<Seq<char>>| #[trigger] lookup(self.entries_view(), p) == if p
                == k {
                Some(id@)
            } else {
                lookup(before, p)
            } by {
                lemma_lookup_push(before, k, id@, p);
            }
            assert(self@ =~= old(self)@.insert(k, id@));
        }
    }

    /// The container identifier for a navigation path. The empty path gives the root `"0"`; a
    /// bound path gives its identifier. Otherwise the path is walked one segment at a time
    /// and, at the first unbound prefix, the walk stops and gives the root `"0"`.
    pub fn resolve(&self, path: &[String]) -> (r: String)
        ensures
            r@ == resolve_spec(self@, path_view(path@)),
    {
        if path.len() == 0 {
            return root_id();
        }
        match self.get(path) {
            Some(id) => { return id; },
            None => {},
        }
        let mut current: Vec<String> = Vec::new();
        let mut current_id = root_id();
        let mut i: usize = 0;
        while i < path.len()
            invariant
                i <= path.len(),
                current@.len() == i,
                forall|j: int| 0 <= j < i ==> (#[trigger] current@[j])@ == path@[j]@,
                i > 0 ==> self@.contains_key(path_view(current@)),
                !self@.contains_key(path_view(path@)),
            decreases path.len() - i,
        {
            current.push(path[i].clone());
            match self.get(current.as_slice()) {
                Some(id) => { current_id = id; },
                None => { return root_id(); },
            }
            i = i + 1;
        }
        assert(path_view(current@) =~= path_view(path@));
        current_id
    }
}

proof fn lemma_lookup_update(
    s: Seq<(Seq<Seq<char>>, Seq<char>)>,
    i: int,
    k: Seq<Seq<char>>,
    v: Seq<char>,
    p: Seq<Seq<char>>,
)
    requires
        0 <= i < s.len(),
        s[i].0 == k,
        forall|j: int| 0 <= j < i ==> #[trigger] s[j].0 != k,
    ensures
        lookup(s.update(i, (k, v)), p) == if p == k {
            Some(v)
        } else {
            lookup(s, p)
        },
    decreases s.len(),
{
    let t = s.update(i, (k, v));
    if i > 0 {
        assert(s[0].0 != k);
        assert(t[0] == s[0]);
        assert(t.drop_first() =~= s.drop_first().update(i - 1, (k, v)));
        assert forall|j: int| 0 <= j < i - 1 implies #[trigger] s.drop_first()[j].0 != k by {
            assert(s[j + 1].0 != k);
        }
        lemma_lookup_update(s.drop_first(), i - 1, k, v, p);
    } else {
        assert(t[0] == (k, v));
        assert(t.drop_first() =~= s.drop_first());
    }
}

proof fn lemma_lookup_push(
    s: Seq<(Seq<Seq<char>>, Seq<char>)>,
    k: Seq<Seq<char>>,
    v: Seq<char>,
    p: Seq<Seq<char>>,
)
    requires
        forall|j: int| 0 <= j < s.len() ==> #[trigger] s[j].0 != k,
    ensures
        lookup(s.push((k, v)), p) == if p == k {
            Some(v)
        } else {
            lookup(s, p)
        },
    decreases s.len(),
{
    let t = s.push((k, v));
    if s.len() > 0 {
        assert(s[0].0 != k);
        assert(t[0] == s[0]);
        assert(t.drop_first() =~= s.drop_first().push((k, v)));
        assert forall|j: int| 0 <= j < s.drop_first().len() implies #[trigger] s.drop_first()[j].0
            != k by {
            assert(s[j + 1].0 != k);
        }
        lemma_lookup_push(s.drop_first(), k, v, p);
    } else {
        assert(t[0] == (k, v));
        assert(t.drop_first() =~= s);
    }
}

/// The empty path resolves to the root, whatever the index holds.
pub proof fn lemma_empty_path_is_root(m: Map<Seq<Seq<char>>, Seq<char>>)
    ensures
        resolve_spec(m, Seq::empty()) == root_id_spec(),
{
}

/// A path whose own binding is missing resolves to the root, even where a proper prefix of
/// it is bound: navigation into containers that were never listed falls back to the root.
pub proof fn lemma_unbound_path_falls_back_to_root(
    m: Map<Seq<Seq<char>>, Seq<char>>,
    path: Seq<Seq<char>>,
)
    requires
        !m.contains_key(path),
    ensures
        resolve_spec(m, path) == root_id_spec(),
{
}

} // verus!
