use vstd::prelude::*;

verus! {

/// A record known by an id, with its name: a project, a group, a deliverable
/// or a component, as a lookup by id finds it.
pub struct NameEntry {
    pub id: i32,
    pub name: String,
}

/// The name of the first entry with the id, if any.
pub open spec fn name_in(table: Seq<NameEntry>, id: i32) -> Option<Seq<char>>
    decreases table.len(),
{
    if table.len() == 0 {
        None
    } else if table[0].id == id {
        Some(table[0].name@)
    } else {
        name_in(table.drop_first(), id)
    }
}

/// Looks up the name of the record with the id.
pub fn find_name(table: &Vec<NameEntry>, id: i32) -> (r: Option<String>)
    ensures
        match name_in(table@, id) {
            None => r is None,
            Some(n) => r matches Some(s) && s@ == n,
        },
{
    let mut i: usize = 0;
    assert(table@.skip(0) =~= table@);
    while i < table.len()
        invariant
            i <= table.len(),
            name_in(table@, id) == name_in(table@.skip(i as int), id),
        decreases table.len() - i,
    {
        assert(table@.skip(i as int)[0] == table@[i as int]);
        if table[i].id == id {
            return Some(table[i].name.clone());
        }
        assert(table@.skip(i as int).drop_first() =~= table@.skip(i + 1));
        i = i + 1;
    }
    None
}

} // verus!
