use vstd::prelude::*;

verus! {

/// Mathematical model of a [`HandlerMapping`].
pub struct HandlerMappingView {
    pub running: bool,
    pub handler_type_name: Seq<char>,
    pub handler_config_path: Seq<char>,
}

/// The state a directory is registered with.  A live worker owns a control
/// channel held outside this crate; its presence is modelled here by
/// `running`: `running == false` means registered but stopped, `true` means
/// a worker is currently active for the directory.
#[derive(Debug)]
pub struct HandlerMapping {
    pub running: bool,
    pub handler_type_name: String,
    pub handler_config_path: String,
}

impl View for HandlerMapping {
    type V = HandlerMappingView;

    open spec fn view(&self) -> HandlerMappingView {
        HandlerMappingView {
            running: self.running,
            handler_type_name: self.handler_type_name@,
            handler_config_path: self.handler_config_path@,
        }
    }
}

impl Clone for HandlerMapping {
    fn clone(&self) -> (r: Self)
        ensures
            r@ == self@,
    {
        HandlerMapping {
            running: self.running,
            handler_type_name: self.handler_type_name.clone(),
            handler_config_path: self.handler_config_path.clone(),
        }
    }
}

/// No two entries share a directory path.
pub open spec fn unique_keys(s: Seq<(String, HandlerMapping)>) -> bool {
    forall|i: int, j: int| 0 <= i < j < s.len() ==> s[i].0@ != s[j].0@
}

/// The table an entry sequence stands for, later entries winning.
pub open spec fn map_of(s: Seq<(String, HandlerMapping)>) -> Map<Seq<char>, HandlerMappingView>
    decreases s.len(),
{
    if s.len() == 0 {
        Map::empty()
    } else {
        map_of(s.drop_last()).insert(s.last().0@, s.last().1@)
    }
}

pub proof fn lemma_map_of_contains(s: Seq<(String, HandlerMapping)>, k: Seq<char>)
    ensures
        map_of(s).contains_key(k) <==> exists|i: int| 0 <= i < s.len() && s[i].0@ == k,
    decreases s.len(),
{
    if s.len() > 0 {
        lemma_map_of_contains(s.drop_last(), k);
        if map_of(s).contains_key(k) {
            if s.last().0@ != k {
                let i = choose|i: int| 0 <= i < s.drop_last().len() && s.drop_last()[i].0@ == k;
                assert(s[i].0@ == k);
            } else {
                assert(s[s.len() - 1].0@ == k);
            }
        } else {
            assert(forall|i: int|
                0 <= i < s.len() - 1 ==> s.drop_last()[i] == s[i]);
        }
    }
}

pub proof fn lemma_map_of_index(s: Seq<(String, HandlerMapping)>, i: int)
    requires
        unique_keys(s),
        0 <= i < s.len(),
    ensures
        map_of(s).contains_key(s[i].0@),
        map_of(s)[s[i].0@] == s[i].1@,
    decreases s.len(),
{
    if i == s.len() - 1 {
    } else {
        assert(unique_keys(s.drop_last())) by {
            assert(forall|a: int|
                0 <= a < s.len() - 1 ==> s.drop_last()[a] == s[a]);
        }
        lemma_map_of_index(s.drop_last(), i);
        assert(s.drop_last()[i] == s[i]);
        assert(s[i].0@ != s.last().0@);
    }
}

pub proof fn lemma_map_of_remove(s: Seq<(String, HandlerMapping)>, i: int)
    requires
        unique_keys(s),
        0 <= i < s.len(),
    ensures
        map_of(s.remove(i)) == map_of(s).remove(s[i].0@),
    decreases s.len(),
{
    let k = s[i].0@;
    if i == s.len() - 1 {
        assert(s.remove(i) =~= s.drop_last());
        lemma_map_of_contains(s.drop_last(), k);
        assert(forall|a: int| 0 <= a < s.len() - 1 ==> s.drop_last()[a] == s[a]);
        assert(!map_of(s.drop_last()).contains_key(k));
        assert(map_of(s).remove(k) =~= map_of(s.drop_last()));
    } else {
        assert(forall|a: int| 0 <= a < s.len() - 1 ==> s.drop_last()[a] == s[a]);
        assert(unique_keys(s.drop_last()));
        lemma_map_of_remove(s.drop_last(), i);
        assert(s.remove(i).drop_last() =~= s.drop_last().remove(i));
        assert(s.remove(i).last() == s.last());
        assert(map_of(s.remove(i)) == map_of(s.drop_last().remove(i)).insert(
            s.last().0@,
            s.last().1@,
        ));
        assert(k != s.last().0@);
        assert(map_of(s.drop_last()).remove(k).insert(s.last().0@, s.last().1@) =~= map_of(
            s.drop_last(),
        ).insert(s.last().0@, s.last().1@).remove(k));
    }
}

/// The authoritative table of directory path to handler state.  Entries are
/// kept in a vector with pairwise distinct paths; the view is the table as a
/// map.  All mutation happens while the caller holds exclusive access to the
/// whole table, all reads under at least shared access; the lock lives with
/// the caller.
#[derive(Debug)]
pub struct Mapping {
    pub directory_mapping: Vec<(String, HandlerMapping)>,
}

impl View for Mapping {
    type V = Map<Seq<char>, HandlerMappingView>;

    open spec fn view(&self) -> Map<Seq<char>, HandlerMappingView> {
        map_of(self.directory_mapping@)
    }
}

impl Mapping {
    /// Entry paths are pairwise distinct.
    pub open spec fn wf(self) -> bool {
        unique_keys(self.directory_mapping@)
    }

    /// An empty table.
    pub fn new() -> (r: Self)
        ensures
            r.wf(),
            r@ == Map::<Seq<char>, HandlerMappingView>::empty(),
    {
        Mapping { directory_mapping: Vec::new() }
    }

    /// Looks a directory up; `None` when it was never registered.
    pub fn get(&self, directory_path: &String) -> (r: Option<&HandlerMapping>)
        requires
            self.wf(),
        ensures
            match r {
                Some(h) => self@.contains_key(directory_path@) && h@ == self@[directory_path@],
                None => !self@.contains_key(directory_path@),
            },
    {
        let n = self.directory_mapping.len();
        let mut i: usize = 0;
        while i < n
            invariant
                self.wf(),
                n == self.directory_mapping@.len(),
                0 <= i <= n,
                forall|j: int| 0 <= j < i ==> self.directory_mapping@[j].0@ != directory_path@,
            decreases n - i,
        {
            let entry = &self.directory_mapping[i];
            if entry.0 == *directory_path {
                proof {
                    lemma_map_of_index(self.directory_mapping@, i as int);
                }
                return Some(&entry.1);
            }
            i += 1;
        }
        proof {
            lemma_map_of_contains(self.directory_mapping@, directory_path@);
        }
        None
    }

    /// Removes a directory's entry, returning it when one was present.
    pub fn remove(&mut self, directory_path: &String) -> (r: Option<HandlerMapping>)
        requires
            old(self).wf(),
        ensures
            final(self).wf(),
            final(self)@ == old(self)@.remove(directory_path@),
            forall|j: int|
                0 <= j < final(self).directory_mapping@.len()
                    ==> final(self).directory_mapping@[j].0@ != directory_path@,
            match r {
                Some(h) => old(self)@.contains_key(directory_path@)
                    && h@ == old(self)@[directory_path@],
                None => !old(self)@.contains_key(directory_path@),
            },
    {
        let n = self.directory_mapping.len();
        let mut i: usize = 0;
        while i < n
            invariant
                self.wf(),
                self == old(self),
                n == self.directory_mapping@.len(),
                0 <= i <= n,
                forall|j: int| 0 <= j < i ==> self.directory_mapping@[j].0@ != directory_path@,
            decreases n - i,
        {
            if self.directory_mapping[i].0 == *directory_path {
                proof {
                    lemma_map_of_index(self.directory_mapping@, i as int);
                    lemma_map_of_remove(self.directory_mapping@, i as int);
                    assert(forall|a: int, b: int|
                        0 <= a < b < self.directory_mapping@.remove(i as int).len()
                            ==> self.directory_mapping@.remove(i as int)[a].0@
                            != self.directory_mapping@.remove(i as int)[b].0@);
                    assert(forall|j: int|
                        0 <= j < self.directory_mapping@.remove(i as int).len()
                            ==> self.directory_mapping@.remove(i as int)[j].0@
                            != directory_path@);
                }
                let removed = self.directory_mapping.remove(i);
                return Some(removed.1);
            }
            i += 1;
        }
        proof {
            lemma_map_of_contains(self.directory_mapping@, directory_path@);
            assert(self@.remove(directory_path@) =~= self@);
        }
        None
    }

    /// Inserts a new entry, or replaces a present one wholesale.
    pub fn insert_or_replace(&mut self, directory_path: String, handler: HandlerMapping)
        requires
            old(self).wf(),
        ensures
            final(self).wf(),
            final(self)@ == old(self)@.insert(directory_path@, handler@),
    {
        let ghost m0 = self@;
        let _ = self.remove(&directory_path);
        let ghost before_push = self.directory_mapping@;
        self.directory_mapping.push((directory_path, handler));
        proof {
            assert(self.directory_mapping@.drop_last() =~= before_push);
            assert(self@ == map_of(before_push).insert(directory_path@, handler@));
            assert(m0.remove(directory_path@).insert(directory_path@, handler@) =~= m0.insert(
                directory_path@,
                handler@,
            ));
        }
    }

    /// The registered directory paths, one per entry, in table order.
    pub fn keys(&self) -> (r: Vec<String>)
        requires
            self.wf(),
        ensures
            r@.len() == self.directory_mapping@.len(),
            forall|i: int| 0 <= i < r@.len() ==> r@[i]@ == self.directory_mapping@[i].0@,
    {
        let n = self.directory_mapping.len();
        let mut out: Vec<String> = Vec::new();
        let mut i: usize = 0;
        while i < n
            invariant
                n == self.directory_mapping@.len(),
                0 <= i <= n,
                out@.len() == i,
                forall|j: int| 0 <= j < i ==> out@[j]@ == self.directory_mapping@[j].0@,
            decreases n - i,
        {
            out.push(self.directory_mapping[i].0.clone());
            i += 1;
        }
        out
    }

    /// The number of registered directories.
    pub fn len(&self) -> (r: usize)
        ensures
            r == self.directory_mapping@.len(),
    {
        self.directory_mapping.len()
    }
}

} // verus!
