//! Organizations and the registry that keeps them by id.

use crate::assoc::{
    assoc_map, distinct_keys, lemma_assoc_absent, lemma_assoc_index, lemma_assoc_push,
    lemma_assoc_update,
};
use crate::bytes::{bytes_eq, bytes_to_vec, BYTEARRAY_LIMIT};
use crate::error::Error;
use vstd::prelude::*;

verus! {

/// The id of an organization. This could be a DID.
pub type OrgId = Vec<u8>;

/// The name of an organization.
pub type OrgName = Vec<u8>;

/// What is asked of an organization's id: between 1 and 100 bytes.
pub open spec fn check_org_id(id: Seq<u8>) -> Result<(), Error> {
    if id.len() == 0 {
        Err(Error::OrgIdRequired)
    } else if id.len() > BYTEARRAY_LIMIT {
        Err(Error::OrgIdTooLong)
    } else {
        Ok(())
    }
}

/// What is asked of an organization's name: between 1 and 100 bytes.
pub open spec fn check_org_name(name: Seq<u8>) -> Result<(), Error> {
    if name.len() == 0 {
        Err(Error::OrgNameRequired)
    } else if name.len() > BYTEARRAY_LIMIT {
        Err(Error::OrgNameTooLong)
    } else {
        Ok(())
    }
}

/// What is asked of an organization: first of its id, then of its name.
pub open spec fn check_organization(org: OrganizationView) -> Result<(), Error> {
    match check_org_id(org.id) {
        Err(e) => Err(e),
        Ok(_) => check_org_name(org.name),
    }
}

/// Says whether `id` can be an organization's id: it has between 1 and
/// 100 bytes.
pub fn validate_org_id(id: &[u8]) -> (result: Result<(), Error>)
    ensures
        result == check_org_id(id@),
{
    if id.len() == 0 {
        return Err(Error::OrgIdRequired);
    }
    if id.len() > BYTEARRAY_LIMIT {
        return Err(Error::OrgIdTooLong);
    }
    Ok(())
}

/// Says whether `name` can be an organization's name: it has between 1
/// and 100 bytes.
pub fn validate_org_name(name: &[u8]) -> (result: Result<(), Error>)
    ensures
        result == check_org_name(name@),
{
    if name.len() == 0 {
        return Err(Error::OrgNameRequired);
    }
    if name.len() > BYTEARRAY_LIMIT {
        return Err(Error::OrgNameTooLong);
    }
    Ok(())
}

/// An organization: the unit that agents act for and that owns schemas.
#[derive(Debug, PartialEq, Eq)]
pub struct Organization {
    pub id: OrgId,
    pub name: OrgName,
}

/// An organization in specifications.
pub struct OrganizationView {
    pub id: Seq<u8>,
    pub name: Seq<u8>,
}

impl View for Organization {
    type V = OrganizationView;

    open spec fn view(&self) -> OrganizationView {
        OrganizationView { id: self.id@, name: self.name@ }
    }
}

impl Clone for Organization {
    fn clone(&self) -> (copy: Self)
        ensures
            copy@ == self@,
    {
        Organization {
            id: bytes_to_vec(self.id.as_slice()),
            name: bytes_to_vec(self.name.as_slice()),
        }
    }
}

impl Default for Organization {
    fn default() -> (org: Self)
        ensures
            org@ == (OrganizationView { id: Seq::empty(), name: Seq::empty() }),
    {
        Organization { id: Vec::new(), name: Vec::new() }
    }
}

/// Collects the fields of an organization and checks them when it is built.
pub struct OrganizationBuilder {
    id: OrgId,
    name: OrgName,
}

impl View for OrganizationBuilder {
    type V = OrganizationView;

    /// The organization that the builder holds so far.
    closed spec fn view(&self) -> OrganizationView {
        OrganizationView { id: self.id@, name: self.name@ }
    }
}

impl Default for OrganizationBuilder {
    fn default() -> (builder: Self)
        ensures
            builder@ == (OrganizationView { id: Seq::empty(), name: Seq::empty() }),
    {
        OrganizationBuilder { id: Vec::new(), name: Vec::new() }
    }
}

impl OrganizationBuilder {
    /// Sets the id.
    pub fn with_id(self, id: OrgId) -> (builder: Self)
        ensures
            builder@ == (OrganizationView { id: id@, name: self@.name }),
    {
        let mut builder = self;
        builder.id = id;
        builder
    }

    /// Sets the name.
    pub fn with_name(self, name: OrgName) -> (builder: Self)
        ensures
            builder@ == (OrganizationView { id: self@.id, name: name@ }),
    {
        let mut builder = self;
        builder.name = name;
        builder
    }

    /// The organization, if its id and its name are as they must be; else
    /// what is wrong with the id or, the id being right, with the name.
    pub fn build(self) -> (result: Result<Organization, Error>)
        ensures
            match result {
                Ok(org) => check_organization(self@) == Ok::<(), Error>(()) && org@ == self@,
                Err(e) => check_organization(self@) == Err::<(), Error>(e),
            },
    {
        validate_org_id(self.id.as_slice())?;
        validate_org_name(self.name.as_slice())?;
        let mut org = Organization::default();
        org.id = self.id;
        org.name = self.name;
        Ok(org)
    }
}

/// The pairs of id and organization that a vector of organizations holds.
pub open spec fn organization_pairs(entries: Seq<Organization>) -> Seq<
    (Seq<u8>, OrganizationView),
> {
    Seq::new(entries.len(), |i: int| (entries[i].id@, entries[i]@))
}

/// The position of the organization with the id `id`, if there is one.
fn find_organization(entries: &Vec<Organization>, id: &[u8]) -> (found: Option<usize>)
    ensures
        match found {
            Some(i) => i < entries@.len() && entries@[i as int].id@ == id@,
            None => forall|j: int| 0 <= j < entries@.len() ==> entries@[j].id@ != id@,
        },
{
    let mut i: usize = 0;
    while i < entries.len()
        invariant
            i <= entries@.len(),
            forall|j: int| 0 <= j < i ==> entries@[j].id@ != id@,
        decreases entries@.len() - i,
    {
        if bytes_eq(entries[i].id.as_slice(), id) {
            return Some(i);
        }
        i += 1;
    }
    None
}

/// The organizations, each under its id. An id occurs once.
#[derive(Debug, PartialEq, Eq)]
pub struct OrganizationRegistry {
    entries: Vec<Organization>,
}

impl View for OrganizationRegistry {
    type V = Map<Seq<u8>, OrganizationView>;

    /// The organizations by id.
    closed spec fn view(&self) -> Map<Seq<u8>, OrganizationView> {
        assoc_map(organization_pairs(self.entries@))
    }
}

impl Clone for OrganizationRegistry {
    fn clone(&self) -> (copy: Self)
        ensures
            copy@ == self@,
    {
        proof {
            use_type_invariant(self);
        }
        let mut entries: Vec<Organization> = Vec::new();
        let mut i: usize = 0;
        while i < self.entries.len()
            invariant
                i <= self.entries@.len(),
                entries@.len() == i,
                forall|j: int| 0 <= j < i ==> entries@[j]@ == self.entries@[j]@,
            decreases self.entries@.len() - i,
        {
            entries.push(self.entries[i].clone());
            i += 1;
        }
        assert(organization_pairs(entries@) =~= organization_pairs(self.entries@));
        OrganizationRegistry { entries }
    }
}

impl OrganizationRegistry {
    /// No id occurs twice.
    #[verifier::type_invariant]
    spec fn inv(self) -> bool {
        distinct_keys(organization_pairs(self.entries@))
    }

    /// A registry without organizations.
    pub fn new() -> (registry: Self)
        ensures
            registry@ == Map::<Seq<u8>, OrganizationView>::empty(),
    {
        OrganizationRegistry { entries: Vec::new() }
    }

    /// Whether an organization has the id `id`.
    pub fn contains(&self, id: &[u8]) -> (found: bool)
        ensures
            found == self@.contains_key(id@),
    {
        self.get(id).is_some()
    }

    /// The organization with the id `id`, if there is one.
    pub fn get(&self, id: &[u8]) -> (found: Option<&Organization>)
        ensures
            match found {
                Some(org) => self@.contains_key(id@) && org@ == self@[id@] && org@.id == id@,
                None => !self@.contains_key(id@),
            },
    {
        proof {
            use_type_invariant(self);
        }
        let ghost pairs = organization_pairs(self.entries@);
        match find_organization(&self.entries, id) {
            Some(i) => {
                proof {
                    lemma_assoc_index(pairs, i as int);
                }
                Some(&self.entries[i])
            },
            None => {
                proof {
                    lemma_assoc_absent(pairs, id@);
                }
                None
            },
        }
    }

    /// Stores `org` under its id, in place of the organization that had
    /// that id, if there was one.
    pub fn insert(&mut self, org: Organization)
        ensures
            final(self)@ == old(self)@.insert(org@.id, org@),
    {
        proof {
            use_type_invariant(&*self);
        }
        let ghost pairs = organization_pairs(self.entries@);
        let found = find_organization(&self.entries, org.id.as_slice());
        let mut entries: Vec<Organization> = Vec::new();
        std::mem::swap(&mut entries, &mut self.entries);
        match found {
            Some(i) => {
                proof {
                    lemma_assoc_update(pairs, i as int, org@);
                }
                entries.set(i, org);
                assert(organization_pairs(entries@) =~= pairs.update(i as int, (org@.id, org@)));
            },
            None => {
                proof {
                    lemma_assoc_push(pairs, org@.id, org@);
                }
                entries.push(org);
                assert(organization_pairs(entries@) =~= pairs.push((org@.id, org@)));
            },
        }
        self.entries = entries;
    }
}

} // verus!
