//! A named, ordered container of string items.
use vstd::prelude::*;

verus! {

/// The mathematical value of a resource: its name and its items in order.
pub struct ResourceView {
    pub name: Seq<char>,
    pub items: Seq<Seq<char>>,
}

/// The views of a sequence of strings.
pub open spec fn strings_view(v: Seq<String>) -> Seq<Seq<char>> {
    v.map_values(|s: String| s@)
}

/// A named container of string items; insertion order is kept and
/// duplicates are allowed.
pub struct SharedResource {
    name: String,
    items: Vec<String>,
}

impl View for SharedResource {
    type V = ResourceView;

    closed spec fn view(&self) -> ResourceView {
        ResourceView { name: self.name@, items: strings_view(self.items@) }
    }
}

/// Copies a vector of strings, item by item.
pub fn copy_strings(v: &Vec<String>) -> (r: Vec<String>)
    ensures
        strings_view(r@) == strings_view(v@),
{
    let mut r: Vec<String> = Vec::new();
    let mut i: usize = 0;
    while i < v.len()
        invariant
            i <= v.len(),
            strings_view(r@) == strings_view(v@.subrange(0, i as int)),
        decreases v.len() - i,
    {
        let ghost before = r@;
        r.push(v[i].clone());
        proof {
            assert(v@.subrange(0, i + 1) == v@.subrange(0, i as int).push(v@[i as int]));
            assert(strings_view(r@) =~= strings_view(before).push(v@[i as int]@));
            assert(strings_view(v@.subrange(0, i + 1)) =~= strings_view(
                v@.subrange(0, i as int),
            ).push(v@[i as int]@));
        }
        i = i + 1;
    }
    proof {
        assert(v@.subrange(0, v@.len() as int) == v@);
    }
    r
}

impl SharedResource {
    /// A resource with the given name and no items.
    pub fn new(name: String) -> (r: SharedResource)
        ensures
            r@.name == name@,
            r@.items == Seq::<Seq<char>>::empty(),
    {
        let r = SharedResource { name, items: Vec::new() };
        proof {
            assert(strings_view(r.items@) =~= Seq::<Seq<char>>::empty());
        }
        r
    }

    /// The resource's name.
    pub fn name(&self) -> (r: String)
        ensures
            r@ == self@.name,
    {
        self.name.clone()
    }

    /// How many items the resource holds.
    pub fn len(&self) -> (r: usize)
        ensures
            r == self@.items.len(),
    {
        self.items.len()
    }

    /// Adds `item` after the existing items.
    pub fn append(&mut self, item: String)
        ensures
            final(self)@.name == old(self)@.name,
            final(self)@.items == old(self)@.items.push(item@),
    {
        self.items.push(item);
        proof {
            assert(strings_view(self.items@) =~= strings_view(old(self).items@).push(item@));
        }
    }

    /// Removes every item; the name stays.
    pub fn clear(&mut self)
        ensures
            final(self)@.name == old(self)@.name,
            final(self)@.items == Seq::<Seq<char>>::empty(),
    {
        self.items.clear();
        proof {
            assert(strings_view(self.items@) =~= Seq::<Seq<char>>::empty());
        }
    }

    /// A copy of the items, in order.
    pub fn snapshot(&self) -> (r: Vec<String>)
        ensures
            strings_view(r@) == self@.items,
    {
        copy_strings(&self.items)
    }
}

} // verus!
