use vstd::prelude::*;

use crate::names::{find_name, name_in, NameEntry};

verus! {

/// The kinds of catalog records of a project.
#[derive(Clone, Copy, Debug, PartialEq, Eq, Structural)]
pub enum CatalogKind {
    GroupComponent,
    GroupDeliverable,
    StudentComponent,
    StudentDeliverable,
    /// A component used by a deliverable, with a quantity.
    Relationship,
}

/// Why a catalog request is refused.
#[derive(Clone, Copy, Debug, PartialEq, Eq, Structural)]
pub enum CatalogError {
    /// 409: the project has a record of this kind with this name, or the
    /// relationship exists already.
    Conflict(CatalogKind),
    /// 404
    NotFound(CatalogKind),
}

/// The message of a refusal.
pub open spec fn spec_catalog_message(e: CatalogError) -> Seq<char> {
    match e {
        CatalogError::Conflict(k) => match k {
            CatalogKind::GroupDeliverable => "Deliverable with this name already exists for the project"@,
            CatalogKind::StudentDeliverable => "Deliverable with this name already exists for the project"@,
            CatalogKind::Relationship => "Relationship already exists"@,
            _ => "Component with this name already exists for the project"@,
        },
        CatalogError::NotFound(k) => match k {
            CatalogKind::GroupComponent => "Group component not found"@,
            CatalogKind::GroupDeliverable => "Group deliverable not found"@,
            CatalogKind::StudentComponent => "Student component not found"@,
            CatalogKind::StudentDeliverable => "Student deliverable not found"@,
            CatalogKind::Relationship => "Relationship not found"@,
        },
    }
}

impl CatalogError {
    /// The HTTP status of the answer.
    pub fn status(&self) -> (s: u16)
        ensures
            s == (match self {
                CatalogError::Conflict(_) => 409u16,
                CatalogError::NotFound(_) => 404u16,
            }),
    {
        match self {
            CatalogError::Conflict(_) => 409,
            CatalogError::NotFound(_) => 404,
        }
    }

    /// The message shown to the client.
    pub fn message(&self) -> (m: &'static str)
        ensures
            m@ == spec_catalog_message(*self),
    {
        match self {
            CatalogError::Conflict(k) => match k {
                CatalogKind::GroupDeliverable => "Deliverable with this name already exists for the project",
                CatalogKind::StudentDeliverable => "Deliverable with this name already exists for the project",
                CatalogKind::Relationship => "Relationship already exists",
                _ => "Component with this name already exists for the project",
            },
            CatalogError::NotFound(k) => match k {
                CatalogKind::GroupComponent => "Group component not found",
                CatalogKind::GroupDeliverable => "Group deliverable not found",
                CatalogKind::StudentComponent => "Student component not found",
                CatalogKind::StudentDeliverable => "Student deliverable not found",
                CatalogKind::Relationship => "Relationship not found",
            },
        }
    }
}

/// A record is created or renamed only when no other record of its kind in the
/// project has the name (`taken`), and a relationship only when it is new.
pub fn require_free(kind: CatalogKind, taken: bool) -> (r: Result<(), CatalogError>)
    ensures
        r == (if taken {
            Err::<(), CatalogError>(CatalogError::Conflict(kind))
        } else {
            Ok::<(), CatalogError>(())
        }),
{
    if taken {
        Err(CatalogError::Conflict(kind))
    } else {
        Ok(())
    }
}

/// A record to read, change or delete must exist (`found`).
pub fn require_found(kind: CatalogKind, found: bool) -> (r: Result<(), CatalogError>)
    ensures
        r == (if found {
            Ok::<(), CatalogError>(())
        } else {
            Err::<(), CatalogError>(CatalogError::NotFound(kind))
        }),
{
    if found {
        Ok(())
    } else {
        Err(CatalogError::NotFound(kind))
    }
}

/// A deliverable that uses a component, in a quantity.
#[derive(Clone, Copy, Debug, PartialEq, Eq, Structural)]
pub struct ComponentUse {
    pub id: i32,
    pub deliverable_id: i32,
    pub component_id: i32,
    pub quantity: i32,
}

/// A use, with the name of the record at its other end.
pub struct NamedUse {
    pub component_use: ComponentUse,
    pub name: String,
}

/// Which end of a use names it: the deliverable, or the component.
#[derive(Clone, Copy, Debug, PartialEq, Eq, Structural)]
pub enum UseEnd {
    Deliverable,
    Component,
}

/// The id of the record at the given end of a use.
pub open spec fn end_id(u: ComponentUse, end: UseEnd) -> i32 {
    match end {
        UseEnd::Deliverable => u.deliverable_id,
        UseEnd::Component => u.component_id,
    }
}

/// The uses in order, each with the name of its own record at `end` (looked up
/// by id in `table`); a use whose record is gone is left out.
pub open spec fn named_uses(uses: Seq<ComponentUse>, table: Seq<NameEntry>, end: UseEnd) -> Seq<
    (ComponentUse, Seq<char>),
>
    decreases uses.len(),
{
    if uses.len() == 0 {
        Seq::empty()
    } else {
        let rest = named_uses(uses.drop_last(), table, end);
        match name_in(table, end_id(uses.last(), end)) {
            Some(n) => rest.push((uses.last(), n)),
            None => rest,
        }
    }
}

/// Names each use by the record at its `end`, found by id in `table`.
pub fn name_uses(uses: &Vec<ComponentUse>, table: &Vec<NameEntry>, end: UseEnd) -> (out: Vec<NamedUse>)
    ensures
        out@.map_values(|u: NamedUse| (u.component_use, u.name@)) == named_uses(uses@, table@, end),
{
    let mut out: Vec<NamedUse> = Vec::new();
    let mut i: usize = 0;
    while i < uses.len()
        invariant
            i <= uses.len(),
            out@.map_values(|u: NamedUse| (u.component_use, u.name@)) == named_uses(
                uses@.take(i as int),
                table@,
                end,
            ),
        decreases uses.len() - i,
    {
        assert(uses@.take(i + 1).drop_last() =~= uses@.take(i as int));
        assert(uses@.take(i + 1).last() == uses@[i as int]);
        let ghost before = out@;
        let u = uses[i];
        let id = match end {
            UseEnd::Deliverable => u.deliverable_id,
            UseEnd::Component => u.component_id,
        };
        match find_name(table, id) {
            Some(n) => {
                out.push(NamedUse { component_use: u, name: n });
                assert(out@.map_values(|u: NamedUse| (u.component_use, u.name@)) =~= before.map_values(
                    |u: NamedUse| (u.component_use, u.name@),
                ).push((uses[i as int], name_in(table@, id)->0)));
            },
            None => {},
        }
        i = i + 1;
    }
    assert(uses@.take(i as int) =~= uses@);
    out
}

} // verus!
