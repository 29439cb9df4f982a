//! The headers of an HTTP message, by name.

use vstd::prelude::*;

use crate::vec_map;
use crate::vec_map::VecMap;

verus! {

/// Headers by name: every name occurs once, and names are told apart letter by letter. Their view
/// is the list of names and values.
#[derive(Debug)]
pub struct Headers {
    map: VecMap<String, String>,
}

/// The entries of a map to strings, with what the strings view.
pub open spec fn string_entries<K>(entries: Seq<(K, String)>) -> Seq<(K, Seq<char>)> {
    Seq::new(entries.len(), |i: int| (entries[i].0, entries[i].1@))
}

/// Looking up, setting and removing a key goes the same way before and after the values are viewed.
proof fn lemma_string_entries<K>(entries: Seq<(K, String)>, k: K, v: String)
    requires
        vec_map::distinct_keys(entries),
    ensures
        vec_map::distinct_keys(string_entries(entries)),
        vec_map::has_key(string_entries(entries), k) == vec_map::has_key(entries, k),
        vec_map::lookup(string_entries(entries), k) == match vec_map::lookup(entries, k) {
            Some(found) => Some(found@),
            None => None,
        },
        string_entries(vec_map::inserted(entries, k, v)) == vec_map::inserted(string_entries(entries), k, v@),
{
    let viewed = string_entries(entries);
    if vec_map::has_key(entries, k) {
        let i = vec_map::position(entries, k);
        assert(viewed[i].0 == k);
        vec_map::lemma_position(viewed, i);
    } else if vec_map::has_key(viewed, k) {
        let i = vec_map::position(viewed, k);
        assert(entries[i].0 == k);
    }
    assert(string_entries(vec_map::inserted(entries, k, v)) =~= vec_map::inserted(viewed, k, v@));
}

impl View for Headers {
    type V = Seq<(Seq<char>, Seq<char>)>;

    closed spec fn view(&self) -> Seq<(Seq<char>, Seq<char>)> {
        string_entries(self.map@)
    }
}

impl Headers {
    /// Every name occurs once.
    #[verifier::type_invariant]
    pub open spec fn inv(self) -> bool {
        vec_map::distinct_keys(self@)
    }

    /// No headers.
    pub fn new() -> (r: Self)
        ensures
            r@ == Seq::<(Seq<char>, Seq<char>)>::empty(),
    {
        let map: VecMap<String, String> = VecMap::new();
        assert(string_entries(map@) =~= Seq::<(Seq<char>, Seq<char>)>::empty());
        Headers { map }
    }

    /// How many headers there are.
    pub fn len(&self) -> (n: usize)
        ensures
            n == self@.len(),
            vec_map::distinct_keys(self@),
    {
        proof {
            use_type_invariant(self);
        }
        self.map.len()
    }

    /// The header at `i`: its name and its value.
    pub fn entry(&self, i: usize) -> (r: (&String, &String))
        requires
            i < self@.len(),
        ensures
            (r.0@, r.1@) == self@[i as int],
    {
        self.map.entry(i)
    }

    /// Whether there is a header of that name.
    pub fn contains_key(&self, name: &String) -> (r: bool)
        ensures
            r == vec_map::has_key(self@, name@),
    {
        proof {
            use_type_invariant(&self.map);
            lemma_string_entries(self.map@, name@, *name);
        }
        self.map.contains_key(name)
    }

    /// The value of the header of that name.
    pub fn get(&self, name: &String) -> (r: Option<&String>)
        ensures
            match r {
                Some(v) => vec_map::lookup(self@, name@) == Some(v@),
                None => vec_map::lookup(self@, name@) is None,
            },
    {
        proof {
            use_type_invariant(&self.map);
            lemma_string_entries(self.map@, name@, *name);
        }
        self.map.get(name)
    }

    /// Sets the value of a header, and hands back the value it had.
    pub fn insert(&mut self, name: String, value: String) -> (r: Option<String>)
        ensures
            final(self)@ == vec_map::inserted(old(self)@, name@, value@),
            match r {
                Some(v) => vec_map::lookup(old(self)@, name@) == Some(v@),
                None => vec_map::lookup(old(self)@, name@) is None,
            },
    {
        proof {
            use_type_invariant(&self.map);
            lemma_string_entries(self.map@, name@, value);
            vec_map::law_inserted(self@, name@, value@, name@);
        }
        let mut map: VecMap<String, String> = VecMap::new();
        assert(string_entries(map@) =~= Seq::<(Seq<char>, Seq<char>)>::empty());
        std::mem::swap(&mut self.map, &mut map);
        let r = map.insert(name, value);
        self.map = map;
        r
    }
}

impl Clone for Headers {
    fn clone(&self) -> (r: Self)
        ensures
            r@ == self@,
    {
        let mut r = Headers::new();
        let n = self.len();
        let mut i: usize = 0;
        assert(r@ =~= self@.take(0));
        while i < n
            invariant
                n == self@.len(),
                i <= n,
                vec_map::distinct_keys(self@),
                r@ == self@.take(i as int),
            decreases n - i,
        {
            let (name, value) = self.entry(i);
            proof {
                vec_map::lemma_inserted_next(self@, i as int);
            }
            r.insert(name.clone(), value.clone());
            i = i + 1;
        }
        assert(self@.take(n as int) =~= self@);
        r
    }
}

/// Headers view as their names and values, in their order.
pub proof fn law_string_entries<K>(entries: Seq<(K, String)>, i: int)
    requires
        0 <= i < entries.len(),
    ensures
        string_entries(entries).len() == entries.len(),
        string_entries(entries)[i].0 == entries[i].0,
        string_entries(entries)[i].1 == entries[i].1@,
{
}

} // verus!
