use vstd::prelude::*;

verus! {

broadcast use vstd::std_specs::vec::axiom_spec_into_iter;

/// One row of the tag table, reduced to what the directory reads.
pub struct TagRow {
    pub id: i32,
    pub tag_name: Option<String>,
}

/// The directory after the rows `rows`, taken in order, starting from none: a
/// row without a name is skipped, and a name seen again takes the later id.
pub open spec fn directory_of(rows: Seq<TagRow>) -> Map<Seq<char>, i32>
    decreases rows.len(),
{
    if rows.len() == 0 {
        Map::empty()
    } else {
        let before = directory_of(rows.drop_last());
        match rows.last().tag_name {
            Some(name) => before.insert(name@, rows.last().id),
            None => before,
        }
    }
}

struct TagEntry {
    name: String,
    id: i32,
}

/// The known tags, from name to id. Names are compared exactly, case included.
pub struct TagDirectory {
    entries: Vec<TagEntry>,
    names: Ghost<Map<Seq<char>, i32>>,
}

impl View for TagDirectory {
    type V = Map<Seq<char>, i32>;

    closed spec fn view(&self) -> Map<Seq<char>, i32> {
        self.names@
    }
}

impl TagDirectory {
    /// Each name is stored once, and the stored pairs are exactly the map.
    pub closed spec fn wf(&self) -> bool {
        &&& forall|i: int, j: int|
            0 <= i < j < self.entries.len() ==> self.entries@[i].name@ != self.entries@[j].name@
        &&& forall|i: int|
            #![trigger self.entries@[i]]
            0 <= i < self.entries.len() ==> {
                &&& self.names@.contains_key(self.entries@[i].name@)
                &&& self.names@[self.entries@[i].name@] == self.entries@[i].id
            }
        &&& forall|k: Seq<char>|
            #[trigger] self.names@.contains_key(k) ==> exists|i: int|
                0 <= i < self.entries.len() && self.entries@[i].name@ == k
    }

    /// A directory with no tag.
    pub fn new() -> (r: TagDirectory)
        ensures
            r.wf(),
            r@ == Map::<Seq<char>, i32>::empty(),
    {
        TagDirectory { entries: Vec::new(), names: Ghost(Map::empty()) }
    }

    /// The position of `name` among the entries, if it is there.
    fn position(&self, name: &String) -> (r: Option<usize>)
        requires
            self.wf(),
        ensures
            r is Some <==> self@.contains_key(name@),
            r matches Some(i) ==> i < self.entries.len() && self.entries@[i as int].name@
                == name@,
    {
        let mut i: usize = 0;
        while i < self.entries.len()
            invariant
                self.wf(),
                i <= self.entries.len(),
                forall|j: int| 0 <= j < i ==> self.entries@[j].name@ != name@,
            decreases self.entries.len() - i,
        {
            if self.entries[i].name == *name {
                assert(self.names@.contains_key(self.entries@[i as int].name@));
                return Some(i);
            }
            i += 1;
        }
        None
    }

    /// The id of the tag named exactly `name`, if there is one.
    pub fn lookup(&self, name: &String) -> (r: Option<i32>)
        requires
            self.wf(),
        ensures
            r == (if self@.contains_key(name@) {
                Some(self@[name@])
            } else {
                None
            }),
    {
        match self.position(name) {
            Some(i) => Some(self.entries[i].id),
            None => None,
        }
    }

    /// Maps `name` to `id`, replacing any id it had.
    pub fn insert(&mut self, name: String, id: i32)
        requires
            old(self).wf(),
        ensures
            final(self).wf(),
            final(self)@ == old(self)@.insert(name@, id),
    {
        let ghost key = name@;
        let ghost before = self.entries@;
        match self.position(&name) {
            Some(i) => {
                self.entries.set(i, TagEntry { name, id });
            },
            None => {
                self.entries.push(TagEntry { name, id });
            },
        }
        self.names = Ghost(self.names@.insert(key, id));
        assert forall|k: Seq<char>| #[trigger] self.names@.contains_key(k) implies exists|i: int|
            0 <= i < self.entries.len() && self.entries@[i].name@ == k by {
            if k != key {
                let i = choose|i: int| 0 <= i < before.len() && before[i].name@ == k;
                assert(self.entries@[i].name@ == k);
            } else {
                let last = self.entries.len() - 1;
                if self.entries@[last as int].name@ != key {
                    let i = choose|i: int| 0 <= i < before.len() && before[i].name@ == key;
                    assert(self.entries@[i].name@ == k);
                }
            }
        }
    }

    /// Takes one tag row into account. Returns false, changing nothing, when the
    /// row has no name.
    pub fn add_row(&mut self, row: TagRow) -> (r: bool)
        requires
            old(self).wf(),
        ensures
            final(self).wf(),
            r == row.tag_name is Some,
            final(self)@ == (match row.tag_name {
                Some(name) => old(self)@.insert(name@, row.id),
                None => old(self)@,
            }),
    {
        match row.tag_name {
            Some(name) => {
                self.insert(name, row.id);
                true
            },
            None => false,
        }
    }

    /// The directory of all named rows of `rows`.
    pub fn load(rows: Vec<TagRow>) -> (r: TagDirectory)
        ensures
            r.wf(),
            r@ == directory_of(rows@),
    {
        let ghost rs = rows@;
        let mut dir = TagDirectory::new();
        for row in it: rows.into_iter()
            invariant
                it.seq() == rs,
                0 <= it.index() <= rs.len(),
                dir.wf(),
                dir@ == directory_of(rs.take(it.index() as int)),
        {
            let ghost i = it.index() as int;
            assert(rs.take(i + 1).drop_last() =~= rs.take(i));
            dir.add_row(row);
        }
        assert(rs.take(rs.len() as int) =~= rs);
        dir
    }
}

} // verus!
