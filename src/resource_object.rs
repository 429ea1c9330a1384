use vstd::prelude::*;
use crate::generic_resources::{
    lemma_resources_round_trip, resources_from_json, resources_to_json, GenericResourceView,
    GenericResources,
};
use crate::json::{
    find_member, int_field, int_json, int_member, int_value, lemma_member_after_opt,
    lemma_member_insert_other, lemma_member_of_empty, lemma_object_view, member, members_of, opt_member, push_member, render,
    to_json_text, DeserializationError, Json, JsonValue,
};

verus! {

/// Wire name of the CPU allocation.
pub const NANO_CPUS_KEY: &'static str = "NanoCPUs";

/// Wire name of the memory allocation.
pub const MEMORY_BYTES_KEY: &'static str = "MemoryBytes";

/// Wire name of the user-defined resources.
pub const GENERIC_RESOURCES_KEY: &'static str = "GenericResources";

/// An object describing the resources which can be advertised by a node and
/// requested by a task. Every field is optional: absent means not specified.
#[derive(Debug, PartialEq, Eq)]
pub struct ResourceObject {
    nano_cp_us: Option<i64>,
    memory_bytes: Option<i64>,
    generic_resources: Option<GenericResources>,
}

/// The model of a `ResourceObject`.
pub struct ResourceObjectView {
    /// CPU allocation, in billionths of a core.
    pub nano_cp_us: Option<i64>,
    /// Memory allocation, in bytes.
    pub memory_bytes: Option<i64>,
    pub generic_resources: Option<Seq<GenericResourceView>>,
}

impl View for ResourceObject {
    type V = ResourceObjectView;

    closed spec fn view(&self) -> ResourceObjectView {
        ResourceObjectView {
            nano_cp_us: self.nano_cp_us,
            memory_bytes: self.memory_bytes,
            generic_resources: match self.generic_resources {
                Some(g) => Some(g@),
                None => None,
            },
        }
    }
}

/// Optional resources as an optional wire value.
pub open spec fn generic_json(o: Option<Seq<GenericResourceView>>) -> Option<Json> {
    match o {
        Some(rs) => Some(resources_to_json(rs)),
        None => None,
    }
}

/// What the optional resources member reads as: absent or null is no value,
/// an array of resources is that list, anything else is an error.
pub open spec fn generic_field(j: Option<Json>) -> Result<
    Option<Seq<GenericResourceView>>,
    DeserializationError,
> {
    match j {
        None => Ok(None),
        Some(Json::Null) => Ok(None),
        Some(x) => match resources_from_json(x) {
            Ok(rs) => Ok(Some(rs)),
            Err(e) => Err(e),
        },
    }
}

impl ResourceObjectView {
    /// The descriptor with every field absent.
    pub open spec fn empty() -> Self {
        ResourceObjectView { nano_cp_us: None, memory_bytes: None, generic_resources: None }
    }

    /// The wire form: an object with one member per present field, in field
    /// order, under its fixed wire name.
    pub open spec fn to_json(self) -> Json {
        Json::Object(
            opt_member(NANO_CPUS_KEY@, int_json(self.nano_cp_us)) + opt_member(
                MEMORY_BYTES_KEY@,
                int_json(self.memory_bytes),
            ) + opt_member(GENERIC_RESOURCES_KEY@, generic_json(self.generic_resources)),
        )
    }

    /// Reading the wire form: the value must be an object; each field is read
    /// from the member under its wire name, and other members are ignored.
    pub open spec fn from_json(j: Json) -> Result<Self, DeserializationError> {
        match j {
            Json::Object(ms) => match (
                int_field(member(ms, NANO_CPUS_KEY@)),
                int_field(member(ms, MEMORY_BYTES_KEY@)),
                generic_field(member(ms, GENERIC_RESOURCES_KEY@)),
            ) {
                (Ok(nano_cp_us), Ok(memory_bytes), Ok(generic_resources)) => Ok(
                    ResourceObjectView { nano_cp_us, memory_bytes, generic_resources },
                ),
                _ => Err(DeserializationError),
            },
            _ => Err(DeserializationError),
        }
    }
}


impl ResourceObject {
    /// An object describing the resources which can be advertised by a node
    /// and requested by a task, with every field absent.
    pub fn new() -> (r: Self)
        ensures
            r@ == ResourceObjectView::empty(),
    {
        ResourceObject { nano_cp_us: None, memory_bytes: None, generic_resources: None }
    }

    pub fn set_nano_cp_us(&mut self, nano_cp_us: i64)
        ensures
            final(self)@ == (ResourceObjectView { nano_cp_us: Some(nano_cp_us), ..old(self)@ }),
    {
        self.nano_cp_us = Some(nano_cp_us);
    }

    pub fn with_nano_cp_us(self, nano_cp_us: i64) -> (r: Self)
        ensures
            r@ == (ResourceObjectView { nano_cp_us: Some(nano_cp_us), ..self@ }),
    {
        let mut r = self;
        r.nano_cp_us = Some(nano_cp_us);
        r
    }

    pub fn nano_cp_us(&self) -> (r: Option<i64>)
        ensures
            r == self@.nano_cp_us,
    {
        self.nano_cp_us
    }

    pub fn reset_nano_cp_us(&mut self)
        ensures
            final(self)@ == (ResourceObjectView { nano_cp_us: None, ..old(self)@ }),
    {
        self.nano_cp_us = None;
    }

    pub fn set_memory_bytes(&mut self, memory_bytes: i64)
        ensures
            final(self)@ == (ResourceObjectView { memory_bytes: Some(memory_bytes), ..old(self)@ }),
    {
        self.memory_bytes = Some(memory_bytes);
    }

    pub fn with_memory_bytes(self, memory_bytes: i64) -> (r: Self)
        ensures
            r@ == (ResourceObjectView { memory_bytes: Some(memory_bytes), ..self@ }),
    {
        let mut r = self;
        r.memory_bytes = Some(memory_bytes);
        r
    }

    pub fn memory_bytes(&self) -> (r: Option<i64>)
        ensures
            r == self@.memory_bytes,
    {
        self.memory_bytes
    }

    pub fn reset_memory_bytes(&mut self)
        ensures
            final(self)@ == (ResourceObjectView { memory_bytes: None, ..old(self)@ }),
    {
        self.memory_bytes = None;
    }

    pub fn set_generic_resources(&mut self, generic_resources: GenericResources)
        ensures
            final(self)@ == (ResourceObjectView {
                generic_resources: Some(generic_resources@),
                ..old(self)@
            }),
    {
        self.generic_resources = Some(generic_resources);
    }

    pub fn with_generic_resources(self, generic_resources: GenericResources) -> (r: Self)
        ensures
            r@ == (ResourceObjectView { generic_resources: Some(generic_resources@), ..self@ }),
    {
        let mut r = self;
        r.generic_resources = Some(generic_resources);
        r
    }

    pub fn generic_resources(&self) -> (r: Option<&GenericResources>)
        ensures
            match r {
                Some(g) => self@.generic_resources == Some(g@),
                None => self@.generic_resources is None,
            },
    {
        self.generic_resources.as_ref()
    }

    pub fn reset_generic_resources(&mut self)
        ensures
            final(self)@ == (ResourceObjectView { generic_resources: None, ..old(self)@ }),
    {
        self.generic_resources = None;
    }

    /// The wire form of this descriptor.
    pub fn to_json_value(&self) -> (r: JsonValue)
        ensures
            r@ == self@.to_json(),
    {
        let mut members: Vec<(String, JsonValue)> = Vec::new();
        push_member(&mut members, NANO_CPUS_KEY, int_value(self.nano_cp_us));
        push_member(&mut members, MEMORY_BYTES_KEY, int_value(self.memory_bytes));
        let generic = match &self.generic_resources {
            Some(g) => Some(g.to_json_value()),
            None => None,
        };
        push_member(&mut members, GENERIC_RESOURCES_KEY, generic);
        proof {
            lemma_object_view(members);
            assert(members_of(members@) =~= opt_member(NANO_CPUS_KEY@, int_json(self@.nano_cp_us))
                + opt_member(MEMORY_BYTES_KEY@, int_json(self@.memory_bytes)) + opt_member(
                GENERIC_RESOURCES_KEY@,
                generic_json(self@.generic_resources),
            ));
        }
        JsonValue::Object(members)
    }

    /// The compact JSON text of this descriptor.
    pub fn to_json_string(&self) -> (r: String)
        ensures
            r@ == render(self@.to_json()),
    {
        to_json_text(&self.to_json_value())
    }

    /// Reads a descriptor from its wire form. Members under other names are
    /// ignored; a member under a field's name whose value cannot stand for
    /// that field, or a value that is not an object, is an error.
    pub fn from_json_value(v: &JsonValue) -> (r: Result<Self, DeserializationError>)
        ensures
            match r {
                Ok(x) => ResourceObjectView::from_json(v@) == Ok::<ResourceObjectView, DeserializationError>(x@),
                Err(_) => ResourceObjectView::from_json(v@) is Err,
            },
    {
        match v {
            JsonValue::Object(members) => {
                proof { lemma_object_view(*members); }
                let nano_cp_us = match int_member(members, &String::from_str(NANO_CPUS_KEY)) {
                    Ok(n) => n,
                    Err(e) => return Err(e),
                };
                let memory_bytes = match int_member(members, &String::from_str(MEMORY_BYTES_KEY)) {
                    Ok(n) => n,
                    Err(e) => return Err(e),
                };
                let generic_resources = match find_member(
                    members,
                    &String::from_str(GENERIC_RESOURCES_KEY),
                ) {
                    None => None,
                    Some(i) => match &members[i].1 {
                        JsonValue::Null => None,
                        x => match GenericResources::from_json_value(x) {
                            Ok(g) => Some(g),
                            Err(e) => return Err(e),
                        },
                    },
                };
                Ok(ResourceObject { nano_cp_us, memory_bytes, generic_resources })
            },
            _ => Err(DeserializationError),
        }
    }
}


proof fn lemma_keys_distinct()
    ensures
        NANO_CPUS_KEY@ != MEMORY_BYTES_KEY@,
        NANO_CPUS_KEY@ != GENERIC_RESOURCES_KEY@,
        MEMORY_BYTES_KEY@ != GENERIC_RESOURCES_KEY@,
{
    reveal_strlit("NanoCPUs");
    reveal_strlit("MemoryBytes");
    reveal_strlit("GenericResources");
    assert(NANO_CPUS_KEY@.len() == 8);
    assert(MEMORY_BYTES_KEY@.len() == 11);
    assert(GENERIC_RESOURCES_KEY@.len() == 16);
}

proof fn lemma_members_of_wire_form(r: ResourceObjectView, key: Seq<char>)
    ensures
        member(r.to_json()->Object_0, key) == if key == NANO_CPUS_KEY@ {
            int_json(r.nano_cp_us)
        } else if key == MEMORY_BYTES_KEY@ {
            int_json(r.memory_bytes)
        } else if key == GENERIC_RESOURCES_KEY@ {
            generic_json(r.generic_resources)
        } else {
            None
        },
{
    lemma_keys_distinct();
    let a = opt_member(NANO_CPUS_KEY@, int_json(r.nano_cp_us));
    let b = a + opt_member(MEMORY_BYTES_KEY@, int_json(r.memory_bytes));
    assert(a =~= Seq::empty() + a);
    lemma_member_of_empty(key);
    lemma_member_after_opt(Seq::empty(), NANO_CPUS_KEY@, int_json(r.nano_cp_us), key);
    lemma_member_after_opt(a, MEMORY_BYTES_KEY@, int_json(r.memory_bytes), key);
    lemma_member_after_opt(b, GENERIC_RESOURCES_KEY@, generic_json(r.generic_resources), key);
}

/// Writing a descriptor to its wire form and reading it back gives the same
/// descriptor, whichever fields are present.
pub proof fn lemma_round_trip(r: ResourceObjectView)
    ensures
        ResourceObjectView::from_json(r.to_json()) == Ok::<ResourceObjectView, DeserializationError>(r),
{
    lemma_keys_distinct();
    lemma_members_of_wire_form(r, NANO_CPUS_KEY@);
    lemma_members_of_wire_form(r, MEMORY_BYTES_KEY@);
    lemma_members_of_wire_form(r, GENERIC_RESOURCES_KEY@);
    if let Some(rs) = r.generic_resources {
        lemma_resources_round_trip(rs);
    }
}

/// An absent field is left out of the wire form: no member, not even a null,
/// stands under its name.
pub proof fn lemma_absent_field_omitted(r: ResourceObjectView)
    ensures
        r.nano_cp_us is None ==> member(r.to_json()->Object_0, NANO_CPUS_KEY@) is None,
        r.memory_bytes is None ==> member(r.to_json()->Object_0, MEMORY_BYTES_KEY@) is None,
        r.generic_resources is None ==> member(r.to_json()->Object_0, GENERIC_RESOURCES_KEY@) is None,
{
    lemma_keys_distinct();
    lemma_members_of_wire_form(r, NANO_CPUS_KEY@);
    lemma_members_of_wire_form(r, MEMORY_BYTES_KEY@);
    lemma_members_of_wire_form(r, GENERIC_RESOURCES_KEY@);
}

/// A descriptor with no field set is written as the empty object `{}`.
pub proof fn lemma_empty_is_empty_object()
    ensures
        ResourceObjectView::empty().to_json() == Json::Object(Seq::empty()),
        render(ResourceObjectView::empty().to_json()) == seq!['{', '}'],
{
    let j = ResourceObjectView::empty().to_json();
    assert(j->Object_0 =~= Seq::empty());
    assert(render(j) =~= seq!['{', '}']);
}

/// A member under a name that no field has is ignored, wherever it stands:
/// the object reads exactly as it does without it.
pub proof fn lemma_unknown_member_ignored(
    members: Seq<(Seq<char>, Json)>,
    i: int,
    key: Seq<char>,
    value: Json,
)
    requires
        0 <= i <= members.len(),
        key != NANO_CPUS_KEY@,
        key != MEMORY_BYTES_KEY@,
        key != GENERIC_RESOURCES_KEY@,
    ensures
        ResourceObjectView::from_json(Json::Object(members.insert(i, (key, value))))
            == ResourceObjectView::from_json(Json::Object(members)),
{
    lemma_member_insert_other(members, i, (key, value), NANO_CPUS_KEY@);
    lemma_member_insert_other(members, i, (key, value), MEMORY_BYTES_KEY@);
    lemma_member_insert_other(members, i, (key, value), GENERIC_RESOURCES_KEY@);
}

} // verus!
