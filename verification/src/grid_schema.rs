//! Schemas: named record shapes, each owned by an organization, and the
//! command that registers them.
//!
//! Any active agent of an organization may register a schema for it; the
//! admin role is not asked for. Who is an agent of what is read from the
//! state of [`crate::grid_pike`], which the command takes beside its own.

use crate::assoc::{
    assoc_map, distinct_keys, lemma_assoc_absent, lemma_assoc_index, lemma_assoc_push,
    lemma_assoc_update,
};
use crate::bytes::{bytes_eq, bytes_to_vec, BYTEARRAY_LIMIT};
use crate::error::Error;
use crate::organizations::{check_org_id, validate_org_id, OrgId};
use vstd::prelude::*;

verus! {

/// The name of a schema or of a property.
pub type Name = Vec<u8>;

/// What is asked of a schema's name: between 1 and 100 bytes.
pub open spec fn check_schema_name(name: Seq<u8>) -> Result<(), Error> {
    if name.len() == 0 {
        Err(Error::SchemaNameRequired)
    } else if name.len() > BYTEARRAY_LIMIT {
        Err(Error::SchemaNameTooLong)
    } else {
        Ok(())
    }
}

/// What is asked of a schema: first of its name, then of its owner's id.
pub open spec fn check_schema(name: Seq<u8>, owner: Seq<u8>) -> Result<(), Error> {
    match check_schema_name(name) {
        Err(e) => Err(e),
        Ok(_) => check_org_id(owner),
    }
}

/// Says whether `name` can be a schema's name: it has between 1 and 100
/// bytes.
pub fn validate_schema_name(name: &[u8]) -> (result: Result<(), Error>)
    ensures
        result == check_schema_name(name@),
{
    if name.len() == 0 {
        return Err(Error::SchemaNameRequired);
    }
    if name.len() > BYTEARRAY_LIMIT {
        return Err(Error::SchemaNameTooLong);
    }
    Ok(())
}

/// The type of the values that a property takes.
#[derive(Clone, Copy, Debug, PartialEq, Eq, Structural)]
pub enum DataType {
    Bytes,
    Boolean,
    Number,
    String,
    Enum,
    Struct,
    LatLong,
}

/// One property of a schema.
#[derive(Debug, PartialEq, Eq)]
pub struct PropertyDefinition {
    pub name: Name,
    pub data_type: DataType,
    pub required: bool,
}

/// A property in specifications.
pub struct PropertyDefinitionView {
    pub name: Seq<u8>,
    pub data_type: DataType,
    pub required: bool,
}

impl View for PropertyDefinition {
    type V = PropertyDefinitionView;

    open spec fn view(&self) -> PropertyDefinitionView {
        PropertyDefinitionView {
            name: self.name@,
            data_type: self.data_type,
            required: self.required,
        }
    }
}

impl Clone for PropertyDefinition {
    fn clone(&self) -> (copy: Self)
        ensures
            copy@ == self@,
    {
        PropertyDefinition {
            name: bytes_to_vec(self.name.as_slice()),
            data_type: self.data_type,
            required: self.required,
        }
    }
}

impl Default for PropertyDefinition {
    fn default() -> (property: Self)
        ensures
            property@ == (PropertyDefinitionView {
                name: Seq::empty(),
                data_type: DataType::Bytes,
                required: false,
            }),
    {
        PropertyDefinition { name: Vec::new(), data_type: DataType::Bytes, required: false }
    }
}

/// The properties in a vector of properties, in their order.
pub open spec fn property_views(properties: Seq<PropertyDefinition>) -> Seq<
    PropertyDefinitionView,
> {
    Seq::new(properties.len(), |i: int| properties[i]@)
}

/// A copy of a list of properties.
fn clone_properties(properties: &Vec<PropertyDefinition>) -> (copy: Vec<PropertyDefinition>)
    ensures
        property_views(copy@) == property_views(properties@),
{
    let mut copy: Vec<PropertyDefinition> = Vec::new();
    let mut i: usize = 0;
    while i < properties.len()
        invariant
            i <= properties@.len(),
            copy@.len() == i,
            forall|j: int| 0 <= j < i ==> copy@[j]@ == properties@[j]@,
        decreases properties@.len() - i,
    {
        copy.push(properties[i].clone());
        i += 1;
    }
    copy
}

/// A named record shape that an organization owns.
#[derive(Debug, PartialEq, Eq)]
pub struct Schema {
    pub name: Name,
    pub owner: OrgId,
    pub properties: Vec<PropertyDefinition>,
}

/// A schema in specifications.
pub struct SchemaView {
    pub name: Seq<u8>,
    pub owner: Seq<u8>,
    pub properties: Seq<PropertyDefinitionView>,
}

impl View for Schema {
    type V = SchemaView;

    open spec fn view(&self) -> SchemaView {
        SchemaView {
            name: self.name@,
            owner: self.owner@,
            properties: property_views(self.properties@),
        }
    }
}

impl Clone for Schema {
    fn clone(&self) -> (copy: Self)
        ensures
            copy@ == self@,
    {
        Schema {
            name: bytes_to_vec(self.name.as_slice()),
            owner: bytes_to_vec(self.owner.as_slice()),
            properties: clone_properties(&self.properties),
        }
    }
}

impl Default for Schema {
    fn default() -> (schema: Self)
        ensures
            schema@ == (SchemaView {
                name: Seq::empty(),
                owner: Seq::empty(),
                properties: Seq::empty(),
            }),
    {
        let schema = Schema { name: Vec::new(), owner: Vec::new(), properties: Vec::new() };
        assert(property_views(schema.properties@) =~= Seq::<PropertyDefinitionView>::empty());
        schema
    }
}

/// Collects the fields of a schema and checks them when it is built.
pub struct SchemaBuilder {
    name: Name,
    owner: OrgId,
    properties: Vec<PropertyDefinition>,
}

impl View for SchemaBuilder {
    type V = SchemaView;

    /// The schema that the builder holds so far.
    closed spec fn view(&self) -> SchemaView {
        SchemaView {
            name: self.name@,
            owner: self.owner@,
            properties: property_views(self.properties@),
        }
    }
}

impl Default for SchemaBuilder {
    fn default() -> (builder: Self)
        ensures
            builder@ == (SchemaView {
                name: Seq::empty(),
                owner: Seq::empty(),
                properties: Seq::empty(),
            }),
    {
        let builder = SchemaBuilder {
            name: Vec::new(),
            owner: Vec::new(),
            properties: Vec::new(),
        };
        assert(property_views(builder.properties@) =~= Seq::<PropertyDefinitionView>::empty());
        builder
    }
}

impl SchemaBuilder {
    /// Sets the name.
    pub fn with_name(self, name: Name) -> (builder: Self)
        ensures
            builder@ == (SchemaView { name: name@, ..self@ }),
    {
        let mut builder = self;
        builder.name = name;
        builder
    }

    /// Sets the id of the organization that owns the schema.
    pub fn with_owner(self, owner: OrgId) -> (builder: Self)
        ensures
            builder@ == (SchemaView { owner: owner@, ..self@ }),
    {
        let mut builder = self;
        builder.owner = owner;
        builder
    }

    /// Sets the properties, in their order.
    pub fn with_properties(self, properties: Vec<PropertyDefinition>) -> (builder: Self)
        ensures
            builder@ == (SchemaView { properties: property_views(properties@), ..self@ }),
    {
        let mut builder = self;
        builder.properties = properties;
        builder
    }

    /// The schema, if its name and its owner's id are as they must be; else
    /// what is wrong with the name or, the name being right, with the id.
    pub fn build(self) -> (result: Result<Schema, Error>)
        ensures
            match result {
                Ok(schema) => check_schema(self@.name, self@.owner) == Ok::<(), Error>(())
                    && schema@ == self@,
                Err(e) => check_schema(self@.name, self@.owner) == Err::<(), Error>(e),
            },
    {
        validate_schema_name(self.name.as_slice())?;
        validate_org_id(self.owner.as_slice())?;
        let mut schema = Schema::default();
        schema.name = self.name;
        schema.owner = self.owner;
        schema.properties = self.properties;
        Ok(schema)
    }
}

/// The pairs of name and schema that a vector of schemas holds.
pub open spec fn schema_pairs(entries: Seq<Schema>) -> Seq<(Seq<u8>, SchemaView)> {
    Seq::new(entries.len(), |i: int| (entries[i].name@, entries[i]@))
}

/// The position of the schema with the name `name`, if there is one.
fn find_schema(entries: &Vec<Schema>, name: &[u8]) -> (found: Option<usize>)
    ensures
        match found {
            Some(i) => i < entries@.len() && entries@[i as int].name@ == name@,
            None => forall|j: int| 0 <= j < entries@.len() ==> entries@[j].name@ != name@,
        },
{
    let mut i: usize = 0;
    while i < entries.len()
        invariant
            i <= entries@.len(),
            forall|j: int| 0 <= j < i ==> entries@[j].name@ != name@,
        decreases entries@.len() - i,
    {
        if bytes_eq(entries[i].name.as_slice(), name) {
            return Some(i);
        }
        i += 1;
    }
    None
}

/// The schemas, each under its name. A name occurs once.
#[derive(Debug, PartialEq, Eq)]
pub struct SchemaRegistry {
    entries: Vec<Schema>,
}

impl View for SchemaRegistry {
    type V = Map<Seq<u8>, SchemaView>;

    /// The schemas by name.
    closed spec fn view(&self) -> Map<Seq<u8>, SchemaView> {
        assoc_map(schema_pairs(self.entries@))
    }
}

impl Clone for SchemaRegistry {
    fn clone(&self) -> (copy: Self)
        ensures
            copy@ == self@,
    {
        proof {
            use_type_invariant(self);
        }
        let mut entries: Vec<Schema> = Vec::new();
        let mut i: usize = 0;
        while i < self.entries.len()
            invariant
                i <= self.entries@.len(),
                entries@.len() == i,
                forall|j: int| 0 <= j < i ==> entries@[j]@ == self.entries@[j]@,
            decreases self.entries@.len() - i,
        {
            entries.push(self.entries[i].clone());
            i += 1;
        }
        assert(schema_pairs(entries@) =~= schema_pairs(self.entries@));
        SchemaRegistry { entries }
    }
}

impl SchemaRegistry {
    /// No name occurs twice.
    #[verifier::type_invariant]
    spec fn inv(self) -> bool {
        distinct_keys(schema_pairs(self.entries@))
    }

    /// A registry without schemas.
    pub fn new() -> (registry: Self)
        ensures
            registry@ == Map::<Seq<u8>, SchemaView>::empty(),
    {
        SchemaRegistry { entries: Vec::new() }
    }

    /// Whether a schema has the name `name`.
    pub fn contains(&self, name: &[u8]) -> (found: bool)
        ensures
            found == self@.contains_key(name@),
    {
        self.get(name).is_some()
    }

    /// The schema with the name `name`, if there is one.
    pub fn get(&self, name: &[u8]) -> (found: Option<&Schema>)
        ensures
            match found {
                Some(schema) => self@.contains_key(name@) && schema@ == self@[name@]
                    && schema@.name == name@,
                None => !self@.contains_key(name@),
            },
    {
        proof {
            use_type_invariant(self);
        }
        let ghost pairs = schema_pairs(self.entries@);
        match find_schema(&self.entries, name) {
            Some(i) => {
                proof {
                    lemma_assoc_index(pairs, i as int);
                }
                Some(&self.entries[i])
            },
            None => {
                proof {
                    lemma_assoc_absent(pairs, name@);
                }
                None
            },
        }
    }

    /// Stores `schema` under its name, in place of the schema that had that
    /// name, if there was one.
    pub fn insert(&mut self, schema: Schema)
        ensures
            final(self)@ == old(self)@.insert(schema@.name, schema@),
    {
        proof {
            use_type_invariant(&*self);
        }
        let ghost pairs = schema_pairs(self.entries@);
        let found = find_schema(&self.entries, schema.name.as_slice());
        let mut entries: Vec<Schema> = Vec::new();
        std::mem::swap(&mut entries, &mut self.entries);
        match found {
            Some(i) => {
                proof {
                    lemma_assoc_update(pairs, i as int, schema@);
                }
                entries.set(i, schema);
                assert(schema_pairs(entries@) =~= pairs.update(
                    i as int,
                    (schema@.name, schema@),
                ));
            },
            None => {
                proof {
                    lemma_assoc_push(pairs, schema@.name, schema@);
                }
                entries.push(schema);
                assert(schema_pairs(entries@) =~= pairs.push((schema@.name, schema@)));
            },
        }
        self.entries = entries;
    }
}

/// What a command that succeeded leaves in the log.
#[derive(Debug, PartialEq, Eq)]
pub enum Event {
    SchemaCreated(Name, OrgId),
}

/// An event in specifications.
pub enum EventView {
    SchemaCreated(Seq<u8>, Seq<u8>),
}

impl View for Event {
    type V = EventView;

    open spec fn view(&self) -> EventView {
        match self {
            Event::SchemaCreated(name, owner) => EventView::SchemaCreated(name@, owner@),
        }
    }
}

impl Clone for Event {
    fn clone(&self) -> (copy: Self)
        ensures
            copy@ == self@,
    {
        match self {
            Event::SchemaCreated(name, owner) => Event::SchemaCreated(
                bytes_to_vec(name.as_slice()),
                bytes_to_vec(owner.as_slice()),
            ),
        }
    }
}

/// The events in a vector of events.
pub open spec fn event_views(events: Seq<Event>) -> Seq<EventView> {
    Seq::new(events.len(), |i: int| events[i]@)
}

/// The state in specifications: the schemas by name, and the log.
pub struct ModuleView {
    pub schemas: Map<Seq<u8>, SchemaView>,
    pub events: Seq<EventView>,
}

impl ModuleView {
    /// A name is free for a new schema.
    pub open spec fn validate_new_schema(self, name: Seq<u8>) -> Result<(), Error> {
        if self.schemas.contains_key(name) {
            Err(Error::SchemaAlreadyExists)
        } else {
            Ok(())
        }
    }

    /// The result of the command that creates a schema. The checks come in
    /// this order: the name, the owner's id, that the name is free, that the
    /// owner is there, that the sender is an agent, of the owner, and active.
    pub open spec fn create_schema_check<AccountId>(
        self,
        pike: crate::grid_pike::ModuleView<AccountId>,
        sender: AccountId,
        name: Seq<u8>,
        owner: Seq<u8>,
    ) -> Result<(), Error> {
        if let Err(e) = check_schema(name, owner) {
            Err(e)
        } else if let Err(e) = self.validate_new_schema(name) {
            Err(e)
        } else if let Err(e) = pike.validate_existing_org(owner) {
            Err(e)
        } else if let Err(e) = pike.validate_is_org_active_agent(sender, owner) {
            Err(e)
        } else {
            Ok(())
        }
    }

    /// The state after a schema was created: the schema is there, and the
    /// log holds the creation.
    pub open spec fn create_schema(
        self,
        name: Seq<u8>,
        owner: Seq<u8>,
        properties: Seq<PropertyDefinitionView>,
    ) -> Self {
        ModuleView {
            schemas: self.schemas.insert(name, SchemaView { name, owner, properties }),
            events: self.events.push(EventView::SchemaCreated(name, owner)),
        }
    }
}

/// The registry of schemas, and the log of what was created.
#[derive(Debug, PartialEq, Eq)]
pub struct Module {
    pub schemas: SchemaRegistry,
    pub events: Vec<Event>,
}

impl View for Module {
    type V = ModuleView;

    open spec fn view(&self) -> ModuleView {
        ModuleView { schemas: self.schemas@, events: event_views(self.events@) }
    }
}

impl Clone for Module {
    fn clone(&self) -> (copy: Self)
        ensures
            copy@ == self@,
    {
        let mut events: Vec<Event> = Vec::new();
        let mut i: usize = 0;
        while i < self.events.len()
            invariant
                i <= self.events@.len(),
                events@.len() == i,
                forall|j: int| 0 <= j < i ==> events@[j]@ == self.events@[j]@,
            decreases self.events@.len() - i,
        {
            events.push(self.events[i].clone());
            i += 1;
        }
        assert(event_views(events@) =~= event_views(self.events@));
        Module { schemas: self.schemas.clone(), events }
    }
}

impl Module {
    /// A state without schemas or events.
    pub fn new() -> (module: Self)
        ensures
            module@ == (ModuleView { schemas: Map::empty(), events: Seq::empty() }),
    {
        let module = Module { schemas: SchemaRegistry::new(), events: Vec::new() };
        assert(event_views(module.events@) =~= Seq::<EventView>::empty());
        module
    }

    /// The schema with the name `name`, if there is one.
    pub fn schema_by_name(&self, name: &[u8]) -> (found: Option<Schema>)
        ensures
            match found {
                Some(schema) => self@.schemas.contains_key(name@) && schema@
                    == self@.schemas[name@],
                None => !self@.schemas.contains_key(name@),
            },
    {
        match self.schemas.get(name) {
            Some(schema) => Some(schema.clone()),
            None => None,
        }
    }

    /// Says whether `name` is free for a new schema.
    pub fn validate_new_schema(&self, name: &[u8]) -> (result: Result<(), Error>)
        ensures
            result == self@.validate_new_schema(name@),
    {
        if self.schemas.contains(name) {
            return Err(Error::SchemaAlreadyExists);
        }
        Ok(())
    }

    /// Creates a schema that an organization owns, on behalf of an active
    /// agent of that organization.
    pub fn create_schema<AccountId: Copy + PartialEq + Default>(
        &mut self,
        pike: &crate::grid_pike::Module<AccountId>,
        sender: AccountId,
        name: Name,
        owner: OrgId,
        properties: Vec<PropertyDefinition>,
    ) -> (result: Result<(), Error>)
        ensures
            result == old(self)@.create_schema_check(pike@, sender, name@, owner@),
            final(self)@ == (if result is Ok {
                old(self)@.create_schema(name@, owner@, property_views(properties@))
            } else {
                old(self)@
            }),
    {
        let schema = SchemaBuilder::default().with_name(
            bytes_to_vec(name.as_slice()),
        ).with_owner(bytes_to_vec(owner.as_slice())).with_properties(properties).build()?;
        self.validate_new_schema(name.as_slice())?;
        // The owner must be there.
        pike.validate_existing_org(owner.as_slice())?;
        // The sender must be an active agent of the owner.
        pike.validate_is_org_active_agent(&sender, bytes_to_vec(owner.as_slice()))?;
        self.schemas.insert(schema);
        self.events.push(Event::SchemaCreated(name, owner));
        assert(event_views(self.events@) =~= old(self)@.events.push(
            EventView::SchemaCreated(name@, owner@),
        ));
        Ok(())
    }
}

} // verus!
