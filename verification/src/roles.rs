//! Role names and the small numbers that stand for them.
//!
//! The first name seen gets the id 1, the next new name 2, and so on. A name
//! keeps its id for good, and a name that is already known gets no second id.
//! In specifications the interner is the sequence of its names in the order
//! in which they came: the name at position `i` has the id `i + 1`.

use crate::bytes::{bytes_eq, bytes_to_vec};
use crate::error::Error;
use vstd::prelude::*;

verus! {

/// A role name.
pub type Role = Vec<u8>;

/// The name of the role that lets an agent create further agents: `admin`.
pub const ROLE_ADMIN: [u8; 5] = [97, 100, 109, 105, 110];

/// The admin role's name as a sequence of bytes.
pub open spec fn admin_role() -> Seq<u8> {
    ROLE_ADMIN@
}

/// A sequence of names that an interner can hold: no name twice, and no more
/// names than there are ids.
pub open spec fn well_formed(roles: Seq<Seq<u8>>) -> bool {
    &&& roles.no_duplicates()
    &&& roles.len() <= u32::MAX
}

/// The id of `name`, if the name is known.
pub open spec fn role_id(roles: Seq<Seq<u8>>, name: Seq<u8>) -> Option<u32> {
    if roles.contains(name) {
        Some((roles.index_of(name) + 1) as u32)
    } else {
        None
    }
}

/// The id of `name`, or 0 if the name is not known.
pub open spec fn role_index(roles: Seq<Seq<u8>>, name: Seq<u8>) -> u32 {
    match role_id(roles, name) {
        Some(id) => id,
        None => 0,
    }
}

/// The name that has the id `id`, or the empty name if no name has it.
pub open spec fn role_name(roles: Seq<Seq<u8>>, id: u32) -> Seq<u8> {
    if 1 <= id <= roles.len() {
        roles[id - 1]
    } else {
        Seq::empty()
    }
}

/// The names after `name` was interned.
pub open spec fn intern(roles: Seq<Seq<u8>>, name: Seq<u8>) -> Seq<Seq<u8>> {
    if roles.contains(name) {
        roles
    } else {
        roles.push(name)
    }
}

/// The id that comes after `count` ids were given out, or a failure where
/// no id is left.
pub open spec fn next_id(count: nat) -> Result<u32, Error> {
    if count >= u32::MAX {
        Err(Error::AllocationOverflow)
    } else {
        Ok((count + 1) as u32)
    }
}

/// What interning `name` returns: the id that the name has, or the next id
/// for a new name, or a failure where no id is left.
pub open spec fn intern_result(roles: Seq<Seq<u8>>, name: Seq<u8>) -> Result<u32, Error> {
    match role_id(roles, name) {
        Some(id) => Ok(id),
        None => next_id(roles.len()),
    }
}

/// The names after each of `names` was interned, first to last.
pub open spec fn intern_all(roles: Seq<Seq<u8>>, names: Seq<Seq<u8>>) -> Seq<Seq<u8>>
    decreases names.len(),
{
    if names.len() == 0 {
        roles
    } else {
        intern(intern_all(roles, names.drop_last()), names.last())
    }
}

/// The ids of `names`, one for one.
pub open spec fn role_ids(roles: Seq<Seq<u8>>, names: Seq<Seq<u8>>) -> Seq<u32> {
    Seq::new(names.len(), |i: int| role_index(roles, names[i]))
}

/// What interning all of `names` returns: their ids, or a failure where
/// the ids do not suffice for the new names among them.
pub open spec fn intern_all_result(roles: Seq<Seq<u8>>, names: Seq<Seq<u8>>) -> Result<
    Seq<u32>,
    Error,
> {
    if intern_all(roles, names).len() > u32::MAX {
        Err(Error::AllocationOverflow)
    } else {
        Ok(role_ids(intern_all(roles, names), names))
    }
}

/// Where no name occurs twice, the name at position `i` has the id `i + 1`.
pub proof fn lemma_role_id_at(roles: Seq<Seq<u8>>, i: int)
    requires
        well_formed(roles),
        0 <= i < roles.len(),
    ensures
        role_id(roles, roles[i]) == Some((i + 1) as u32),
        role_index(roles, roles[i]) == i + 1,
        role_name(roles, (i + 1) as u32) == roles[i],
{
    // The first position of the name is a position of the name, and there is only one.
    assert(roles[roles.index_of(roles[i])] == roles[i]);
}

/// A name that is known has an id between 1 and the number of names, and
/// that id leads back to the name.
pub proof fn lemma_role_id_known(roles: Seq<Seq<u8>>, name: Seq<u8>)
    requires
        well_formed(roles),
        roles.contains(name),
    ensures
        role_id(roles, name) is Some,
        1 <= role_index(roles, name) <= roles.len(),
        role_name(roles, role_index(roles, name)) == name,
{
    assert(roles[roles.index_of(name)] == name);
}

/// A name that is not among the names can be added at the end, and still no
/// name occurs twice.
proof fn lemma_push_new(roles: Seq<Seq<u8>>, name: Seq<u8>)
    requires
        roles.no_duplicates(),
        !roles.contains(name),
    ensures
        roles.push(name).no_duplicates(),
{
    let after = roles.push(name);
    assert forall|a: int, b: int| 0 <= a < after.len() && 0 <= b < after.len() && a
        != b implies after[a] != after[b] by {
        if a < roles.len() && b == roles.len() {
            assert(roles.contains(after[a]));
        }
        if b < roles.len() && a == roles.len() {
            assert(roles.contains(after[b]));
        }
    }
}

/// Interning keeps the names that were there, in their places, and keeps the
/// sequence well formed as long as an id is left.
pub proof fn lemma_intern(roles: Seq<Seq<u8>>, name: Seq<u8>)
    requires
        well_formed(roles),
    ensures
        intern(roles, name).no_duplicates(),
        intern(roles, name).contains(name),
        roles.len() <= intern(roles, name).len() <= roles.len() + 1,
        intern(roles, name).subrange(0, roles.len() as int) == roles,
        intern_result(roles, name) is Ok ==> well_formed(intern(roles, name)),
        intern_result(roles, name) is Ok ==> intern_result(roles, name) == Ok::<u32, Error>(
            role_index(intern(roles, name), name),
        ),
{
    let after = intern(roles, name);
    if roles.contains(name) {
        lemma_role_id_known(roles, name);
    } else {
        lemma_push_new(roles, name);
        if intern_result(roles, name) is Ok {
            lemma_role_id_at(after, roles.len() as int);
        }
    }
}

/// A name keeps its id when names are added behind it.
pub proof fn lemma_role_id_stable(roles: Seq<Seq<u8>>, longer: Seq<Seq<u8>>, name: Seq<u8>)
    requires
        well_formed(longer),
        roles.len() <= longer.len(),
        longer.subrange(0, roles.len() as int) == roles,
        roles.contains(name),
    ensures
        role_id(longer, name) == role_id(roles, name),
        role_index(longer, name) == role_index(roles, name),
{
    let j = roles.index_of(name);
    assert(longer[j] == longer.subrange(0, roles.len() as int)[j]);
    assert(longer[longer.index_of(name)] == name);
}

/// Interning a list of names keeps the names that were there, in their
/// places; it adds at most one name for each name of the list; all of the
/// list's names are known afterwards.
pub proof fn lemma_intern_all(roles: Seq<Seq<u8>>, names: Seq<Seq<u8>>)
    requires
        roles.no_duplicates(),
    ensures
        intern_all(roles, names).no_duplicates(),
        roles.len() <= intern_all(roles, names).len() <= roles.len() + names.len(),
        intern_all(roles, names).subrange(0, roles.len() as int) == roles,
        forall|i: int| 0 <= i < names.len() ==> intern_all(roles, names).contains(names[i]),
    decreases names.len(),
{
    if names.len() > 0 {
        let front = names.drop_last();
        let mid = intern_all(roles, front);
        let after = intern(mid, names.last());
        lemma_intern_all(roles, front);
        if !mid.contains(names.last()) {
            lemma_push_new(mid, names.last());
        }
        assert forall|i: int| 0 <= i < names.len() implies after.contains(names[i]) by {
            if i < front.len() {
                // The name was there before the last one came, and has kept its place.
                assert(front[i] == names[i]);
                assert(after[mid.index_of(names[i])] == names[i]);
            } else if !mid.contains(names.last()) {
                assert(after[mid.len() as int] == names.last());
            }
        }
    }
}

/// Interning a longer list of names leaves at least as many names as
/// interning its first `k` names.
pub proof fn lemma_intern_all_grows(roles: Seq<Seq<u8>>, names: Seq<Seq<u8>>, k: int)
    requires
        0 <= k <= names.len(),
    ensures
        intern_all(roles, names.subrange(0, k)).len() <= intern_all(roles, names).len(),
    decreases names.len() - k,
{
    if k == names.len() {
        assert(names.subrange(0, k) =~= names);
    } else {
        lemma_intern_all_grows(roles, names, k + 1);
        assert(names.subrange(0, k + 1).drop_last() =~= names.subrange(0, k));
    }
}

/// The id for a new name when `count` ids were given out: the next one, or
/// a failure where `count` is the last id there is.
pub fn next_role_id(count: u32) -> (result: Result<u32, Error>)
    ensures
        result == next_id(count as nat),
{
    match count.checked_add(1) {
        Some(id) => Ok(id),
        None => Err(Error::AllocationOverflow),
    }
}

/// The names in a vector of names, as sequences of bytes.
pub open spec fn names_of(names: Seq<Vec<u8>>) -> Seq<Seq<u8>> {
    Seq::new(names.len(), |i: int| names[i]@)
}

/// The position of `name` among `names`, if it is there.
fn find_name(names: &Vec<Role>, name: &[u8]) -> (found: Option<usize>)
    ensures
        match found {
            Some(i) => i < names@.len() && names@[i as int]@ == name@,
            None => !names_of(names@).contains(name@),
        },
{
    let mut i: usize = 0;
    while i < names.len()
        invariant
            i <= names@.len(),
            forall|j: int| 0 <= j < i ==> names@[j]@ != name@,
        decreases names@.len() - i,
    {
        if bytes_eq(names[i].as_slice(), name) {
            return Some(i);
        }
        i += 1;
    }
    assert(forall|j: int| 0 <= j < names@.len() ==> names_of(names@)[j] != name@);
    None
}

/// The table of role names, which gives each name its id.
#[derive(Debug, PartialEq, Eq)]
pub struct RoleInterner {
    names: Vec<Role>,
}

impl View for RoleInterner {
    type V = Seq<Seq<u8>>;

    /// The names, in the order of their ids.
    closed spec fn view(&self) -> Seq<Seq<u8>> {
        names_of(self.names@)
    }
}

impl Clone for RoleInterner {
    fn clone(&self) -> (copy: Self)
        ensures
            copy@ == self@,
    {
        proof {
            use_type_invariant(self);
        }
        let mut names: Vec<Role> = Vec::new();
        let mut i: usize = 0;
        while i < self.names.len()
            invariant
                i <= self.names@.len(),
                names@.len() == i,
                forall|j: int| 0 <= j < i ==> names@[j]@ == self.names@[j]@,
            decreases self.names@.len() - i,
        {
            names.push(bytes_to_vec(self.names[i].as_slice()));
            i += 1;
        }
        assert(names_of(names@) =~= names_of(self.names@));
        RoleInterner { names }
    }
}

impl RoleInterner {
    /// No name occurs twice, and each name has an id that fits in 32 bits.
    #[verifier::type_invariant]
    spec fn inv(self) -> bool {
        well_formed(names_of(self.names@))
    }

    /// An interner that knows no name.
    pub fn new() -> (interner: Self)
        ensures
            interner@ == Seq::<Seq<u8>>::empty(),
    {
        RoleInterner { names: Vec::new() }
    }

    /// The number of names, which is also the id given out last.
    pub fn count(&self) -> (count: u32)
        ensures
            count == self@.len(),
            well_formed(self@),
    {
        proof {
            use_type_invariant(self);
        }
        self.names.len() as u32
    }

    /// The name with the id `id`; the empty name where no name has that id.
    pub fn name_of(&self, id: u32) -> (name: Role)
        ensures
            name@ == role_name(self@, id),
    {
        proof {
            use_type_invariant(self);
        }
        if 1 <= id && id as usize <= self.names.len() {
            bytes_to_vec(self.names[id as usize - 1].as_slice())
        } else {
            Vec::new()
        }
    }

    /// The id of `name`, if the name is known.
    pub fn id_of(&self, name: &[u8]) -> (id: Option<u32>)
        ensures
            id == role_id(self@, name@),
            well_formed(self@),
    {
        proof {
            use_type_invariant(self);
        }
        match find_name(&self.names, name) {
            Some(i) => {
                proof {
                    lemma_role_id_at(self@, i as int);
                }
                Some((i + 1) as u32)
            },
            None => None,
        }
    }

    /// Gives the id of `name`. A name that is not yet known is added and
    /// gets the next id; where no id is left, nothing is added.
    pub fn intern(&mut self, name: &[u8]) -> (result: Result<u32, Error>)
        ensures
            result == intern_result(old(self)@, name@),
            final(self)@ == (if result is Ok {
                intern(old(self)@, name@)
            } else {
                old(self)@
            }),
            well_formed(old(self)@),
            well_formed(final(self)@),
    {
        proof {
            use_type_invariant(&*self);
            lemma_intern(self@, name@);
        }
        match self.id_of(name) {
            Some(id) => Ok(id),
            None => {
                match next_role_id(self.count()) {
                    Ok(id) => {
                        let mut names: Vec<Role> = Vec::new();
                        std::mem::swap(&mut names, &mut self.names);
                        names.push(bytes_to_vec(name));
                        assert(names_of(names@) =~= intern(old(self)@, name@));
                        self.names = names;
                        Ok(id)
                    },
                    Err(e) => Err(e),
                }
            },
        }
    }

    /// Gives the ids of `names`, one for one, adding those names that are
    /// not yet known. Where the ids do not suffice, nothing is added.
    pub fn intern_all(&mut self, names: &Vec<Role>) -> (result: Result<Vec<u32>, Error>)
        ensures
            match result {
                Ok(ids) => intern_all_result(old(self)@, names_of(names@)) == Ok::<
                    Seq<u32>,
                    Error,
                >(ids@) && final(self)@ == intern_all(old(self)@, names_of(names@)),
                Err(e) => intern_all_result(old(self)@, names_of(names@)) == Err::<
                    Seq<u32>,
                    Error,
                >(e) && final(self)@ == old(self)@,
            },
            well_formed(old(self)@),
            well_formed(final(self)@),
    {
        proof {
            use_type_invariant(&*self);
        }
        let ghost start = self@;
        let ghost all = names_of(names@);
        let start_len: usize = self.names.len();
        let mut ids: Vec<u32> = Vec::new();
        let mut i: usize = 0;
        while i < names.len()
            invariant
                i <= names@.len(),
                all == names_of(names@),
                start == old(self)@,
                well_formed(start),
                start_len == start.len(),
                self@ == intern_all(start, all.subrange(0, i as int)),
                well_formed(self@),
                ids@.len() == i,
                forall|j: int| 0 <= j < i ==> ids@[j] == role_index(self@, all[j]),
            decreases names@.len() - i,
        {
            let ghost before = self@;
            let ghost done = all.subrange(0, i as int);
            proof {
                lemma_intern(before, all[i as int]);
                lemma_intern_all(start, done);
                assert(all.subrange(0, i + 1).drop_last() =~= done);
            }
            match self.intern(names[i].as_slice()) {
                Ok(id) => {
                    proof {
                        assert forall|j: int| 0 <= j < i implies ids@[j] == role_index(
                            self@,
                            all[j],
                        ) by {
                            assert(done[j] == all[j]);
                            lemma_role_id_stable(before, self@, all[j]);
                        }
                    }
                    ids.push(id);
                },
                Err(e) => {
                    proof {
                        lemma_intern_all_grows(start, all, i + 1);
                        use_type_invariant(&*self);
                    }
                    // The names that were added before the ids ran out go again.
                    let mut kept: Vec<Role> = Vec::new();
                    std::mem::swap(&mut kept, &mut self.names);
                    kept.truncate(start_len);
                    assert(names_of(kept@) =~= start);
                    self.names = kept;
                    return Err(e);
                },
            }
            i += 1;
        }
        proof {
            assert(all.subrange(0, i as int) =~= all);
            assert(ids@ =~= role_ids(self@, all));
        }
        Ok(ids)
    }
}

} // verus!
