//! The manager's registry of running skiddos, keyed by skiddo file.

use crate::args::views;
use vstd::prelude::*;
use vstd::string::StringExecFns;

verus! {

/// The map that a list of (skiddo file, instance) pairs stands for: later pairs
/// take precedence over earlier ones with the same key.
pub open spec fn entries_map<I>(s: Seq<(String, I)>) -> Map<Seq<char>, I>
    decreases s.len(),
{
    if s.len() == 0 {
        Map::empty()
    } else {
        entries_map(s.drop_last()).insert(s.last().0@, s.last().1)
    }
}

/// The keys of a list of pairs, in order.
pub open spec fn key_views<I>(s: Seq<(String, I)>) -> Seq<Seq<char>> {
    s.map_values(|e: (String, I)| e.0@)
}

/// The keys present in the map are exactly the keys of the list.
pub proof fn lemma_entries_dom<I>(s: Seq<(String, I)>)
    ensures
        entries_map(s).dom() == key_views(s).to_set(),
    decreases s.len(),
{
    if s.len() > 0 {
        lemma_entries_dom(s.drop_last());
        assert(key_views(s.drop_last()) =~= key_views(s).drop_last());
        assert(key_views(s).to_set() =~= key_views(s).drop_last().to_set().insert(s.last().0@))
            by {
            assert(key_views(s) =~= key_views(s).drop_last().push(s.last().0@));
            key_views(s).drop_last().lemma_push_to_set_commute(s.last().0@);
        }
    }
    assert(entries_map(s).dom() =~= key_views(s).to_set());
}

/// Replacing the instance of a key already in a list with distinct keys is
/// inserting it into the map.
pub proof fn lemma_entries_update<I>(s: Seq<(String, I)>, i: int, k: String, v: I)
    requires
        0 <= i < s.len(),
        s[i].0@ == k@,
        key_views(s).no_duplicates(),
    ensures
        entries_map(s.update(i, (k, v))) == entries_map(s).insert(k@, v),
    decreases s.len(),
{
    let t = s.update(i, (k, v));
    if i == s.len() - 1 {
        assert(t.drop_last() =~= s.drop_last());
        assert(entries_map(t) =~= entries_map(s).insert(k@, v));
    } else {
        assert(t.drop_last() =~= s.drop_last().update(i, (k, v)));
        assert(key_views(s.drop_last()) =~= key_views(s).drop_last());
        assert(key_views(s)[i] != key_views(s)[s.len() - 1]);
        lemma_entries_update(s.drop_last(), i, k, v);
        assert(entries_map(t) =~= entries_map(s).insert(k@, v));
    }
}

/// The registry of running skiddos, one per skiddo file.
pub struct SkiddoManagerInterface<I> {
    skiddo_instances: Vec<(String, I)>,
}

impl<I> View for SkiddoManagerInterface<I> {
    type V = Map<Seq<char>, I>;

    closed spec fn view(&self) -> Map<Seq<char>, I> {
        entries_map(self.skiddo_instances@)
    }
}

impl<I> SkiddoManagerInterface<I> {
    #[verifier::type_invariant]
    spec fn keys_distinct(self) -> bool {
        key_views(self.skiddo_instances@).no_duplicates()
    }

    /// An empty registry.
    pub fn new() -> (m: Self)
        ensures
            m@ == Map::<Seq<char>, I>::empty(),
    {
        SkiddoManagerInterface { skiddo_instances: Vec::new() }
    }

    /// Registers `instance` as the running skiddo of `skiddo_file`, replacing the
    /// one registered for that file before, if any.
    pub fn spawn(&mut self, skiddo_file: String, instance: I)
        ensures
            final(self)@ == old(self)@.insert(skiddo_file@, instance),
    {
        proof {
            use_type_invariant(&*self);
        }
        let mut list: Vec<(String, I)> = Vec::new();
        std::mem::swap(&mut list, &mut self.skiddo_instances);
        let ghost before = list@;
        let mut i: usize = 0;
        let mut found = false;
        while i < list.len() && !found
            invariant
                list@ == before,
                key_views(before).no_duplicates(),
                0 <= i <= list.len(),
                forall|j: int| 0 <= j < i ==> list@[j].0@ != skiddo_file@,
                found ==> i < list.len() && list@[i as int].0@ == skiddo_file@,
            decreases list.len() - i, if found { 0int } else { 1int },
        {
            if list[i].0 == skiddo_file {
                found = true;
            } else {
                i = i + 1;
            }
        }
        if found {
            proof {
                lemma_entries_update(before, i as int, skiddo_file, instance);
                assert(key_views(before.update(i as int, (skiddo_file, instance))) =~= key_views(
                    before,
                ));
            }
            list.set(i, (skiddo_file, instance));
        } else {
            proof {
                let pushed = before.push((skiddo_file, instance));
                assert(pushed.drop_last() =~= before);
                assert(key_views(pushed) =~= key_views(before).push(skiddo_file@));
                assert(!key_views(before).contains(skiddo_file@)) by {
                    if key_views(before).contains(skiddo_file@) {
                        let j = choose|j: int|
                            0 <= j < key_views(before).len() && key_views(before)[j]
                                == skiddo_file@;
                        assert(before[j].0@ == skiddo_file@);
                    }
                }
            }
            list.push((skiddo_file, instance));
        }
        self.skiddo_instances = list;
    }

    /// The skiddo files of all running skiddos, each once, in no particular order.
    pub fn instances(&self) -> (r: Vec<String>)
        ensures
            views(r@).no_duplicates(),
            views(r@).to_set() == self@.dom(),
    {
        proof {
            use_type_invariant(self);
            lemma_entries_dom(self.skiddo_instances@);
        }
        let mut r: Vec<String> = Vec::new();
        let mut i: usize = 0;
        while i < self.skiddo_instances.len()
            invariant
                0 <= i <= self.skiddo_instances.len(),
                views(r@) == key_views(self.skiddo_instances@).take(i as int),
            decreases self.skiddo_instances.len() - i,
        {
            let key = self.skiddo_instances[i].0.clone();
            let ghost prev = r@;
            r.push(key);
            assert(views(r@) =~= views(prev).push(key@));
            assert(views(r@) =~= key_views(self.skiddo_instances@).take(i + 1));
            i = i + 1;
        }
        assert(key_views(self.skiddo_instances@).take(i as int) =~= key_views(
            self.skiddo_instances@,
        ));
        r
    }

    /// The answer to a request to evaluate `code` in the skiddo of `skiddo_file`:
    /// a placeholder that names both.
    pub fn eval(&self, skiddo_file: String, code: String) -> (r: String)
        ensures
            r@ == "TODO: Implement. {"@ + skiddo_file@ + " "@ + code@ + "}"@,
    {
        let mut r = String::from_str("TODO: Implement. {");
        r.append(skiddo_file.as_str());
        r.append(" ");
        r.append(code.as_str());
        r.append("}");
        r
    }
}

/// Registry law: registering a skiddo file again replaces its instance; the
/// registry still holds one entry for it.
pub proof fn lemma_respawn_replaces<I>(m: Map<Seq<char>, I>, file: Seq<char>, a: I, b: I)
    ensures
        m.insert(file, a).insert(file, b) == m.insert(file, b),
        m.insert(file, a).dom() == m.insert(file, b).dom(),
{
    assert(m.insert(file, a).insert(file, b) =~= m.insert(file, b));
    assert(m.insert(file, a).dom() =~= m.insert(file, b).dom());
}

} // verus!
