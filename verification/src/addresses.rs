//! The map from address identifiers to concrete IP values, both as supplied
//! by a caller (command line or inbound request) and as produced fresh by
//! the resolver for one update cycle.

use vstd::prelude::*;

verus! {

/// One binding of an address identifier to an IP value in textual form.
#[derive(Clone, Debug)]
pub struct AddressEntry {
    pub name: String,
    pub value: String,
}

/// A mapping of address identifiers to IP values. When the same identifier
/// is bound twice, the binding inserted last wins, as for a map.
#[derive(Clone, Debug)]
pub struct AddressMap {
    pub entries: Vec<AddressEntry>,
}

/// The mathematical map described by a sequence of bindings; later
/// bindings overwrite earlier ones.
pub open spec fn entries_map(s: Seq<AddressEntry>) -> Map<Seq<char>, Seq<char>>
    decreases s.len(),
{
    if s.len() == 0 {
        Map::empty()
    } else {
        entries_map(s.drop_last()).insert(s.last().name@, s.last().value@)
    }
}

impl View for AddressMap {
    type V = Map<Seq<char>, Seq<char>>;

    open spec fn view(&self) -> Map<Seq<char>, Seq<char>> {
        entries_map(self.entries@)
    }
}

/// The domain of `entries_map` is exactly the set of bound names.
proof fn lemma_entries_map_domain(s: Seq<AddressEntry>, name: Seq<char>)
    ensures
        entries_map(s).contains_key(name) <==> exists|i: int|
            0 <= i < s.len() && s[i].name@ == name,
    decreases s.len(),
{
    if s.len() > 0 {
        lemma_entries_map_domain(s.drop_last(), name);
        if s.last().name@ == name {
            assert(s[s.len() - 1].name@ == name);
        } else if entries_map(s).contains_key(name) {
            let i = choose|i: int| 0 <= i < s.drop_last().len() && s.drop_last()[i].name@ == name;
            assert(s[i].name@ == name);
        } else {
            assert(forall|i: int|
                0 <= i < s.len() - 1 ==> s.drop_last()[i] == s[i]);
        }
    }
}

/// A binding whose name does not recur later in the sequence decides the
/// value of the map at that name.
proof fn lemma_entries_map_at(s: Seq<AddressEntry>, i: int)
    requires
        0 <= i < s.len(),
        forall|j: int| i < j < s.len() ==> s[j].name@ != s[i].name@,
    ensures
        entries_map(s).contains_key(s[i].name@),
        entries_map(s)[s[i].name@] == s[i].value@,
    decreases s.len(),
{
    if i == s.len() - 1 {
    } else {
        assert(s.drop_last()[i] == s[i]);
        lemma_entries_map_at(s.drop_last(), i);
    }
}

impl AddressMap {
    /// An empty address map.
    pub fn new() -> (r: AddressMap)
        ensures
            r@ == Map::<Seq<char>, Seq<char>>::empty(),
    {
        AddressMap { entries: Vec::new() }
    }

    /// Binds `name` to `value`, replacing any earlier binding of `name`.
    pub fn insert(&mut self, name: String, value: String)
        ensures
            final(self)@ == old(self)@.insert(name@, value@),
    {
        let ghost before = self.entries@;
        self.entries.push(AddressEntry { name, value });
        proof {
            assert(self.entries@.drop_last() =~= before);
        }
    }

    /// Looks the identifier up; returns the value bound to it, if any.
    pub fn get(&self, name: &String) -> (r: Option<&String>)
        ensures
            match r {
                Some(v) => self@.contains_key(name@) && self@[name@] == v@,
                None => !self@.contains_key(name@),
            },
    {
        let mut i: usize = self.entries.len();
        while i > 0
            invariant
                i <= self.entries.len(),
                forall|j: int| i <= j < self.entries@.len() ==> self.entries@[j].name@ != name@,
            decreases i,
        {
            i = i - 1;
            if self.entries[i].name == *name {
                proof {
                    lemma_entries_map_at(self.entries@, i as int);
                }
                return Some(&self.entries[i].value);
            }
        }
        proof {
            lemma_entries_map_domain(self.entries@, name@);
        }
        None
    }
}

} // verus!
