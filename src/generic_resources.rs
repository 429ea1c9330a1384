use vstd::prelude::*;
use crate::json::{
    int_field, int_json, int_member, lemma_array_view, lemma_member_after_opt,
    lemma_member_of_empty, lemma_object_view, member, find_member, members_of, opt_member, push_member,
    str_field, str_json, str_member, str_value, int_value, DeserializationError, Json, JsonValue,
};

verus! {

broadcast use {vstd::std_specs::vec::group_vec_axioms, vstd::seq::group_seq_axioms};

/// Wire name of a resource's kind.
pub const KIND_KEY: &'static str = "Kind";

/// Wire name of a resource's value.
pub const VALUE_KEY: &'static str = "Value";

/// Wire name of a named (string-valued) resource.
pub const NAMED_RESOURCE_SPEC_KEY: &'static str = "NamedResourceSpec";

/// Wire name of a discrete (integer-valued) resource.
pub const DISCRETE_RESOURCE_SPEC_KEY: &'static str = "DiscreteResourceSpec";

/// A resource advertised by name, such as one GPU by its identifier.
#[derive(Debug, PartialEq, Eq)]
pub struct NamedResourceSpec {
    pub kind: Option<String>,
    pub value: Option<String>,
}

/// The model of a `NamedResourceSpec`.
pub struct NamedResourceSpecView {
    pub kind: Option<Seq<char>>,
    pub value: Option<Seq<char>>,
}

impl View for NamedResourceSpec {
    type V = NamedResourceSpecView;

    open spec fn view(&self) -> NamedResourceSpecView {
        NamedResourceSpecView { kind: self.kind.deep_view(), value: self.value.deep_view() }
    }
}

impl NamedResourceSpecView {
    /// The wire form: an object with one member per present field.
    pub open spec fn to_json(self) -> Json {
        Json::Object(
            opt_member(KIND_KEY@, str_json(self.kind)) + opt_member(VALUE_KEY@, str_json(self.value)),
        )
    }

    /// Reading the wire form: an object whose members under the field names
    /// must read; other members are ignored.
    pub open spec fn from_json(j: Json) -> Result<Self, DeserializationError> {
        match j {
            Json::Object(ms) => match (
                str_field(member(ms, KIND_KEY@)),
                str_field(member(ms, VALUE_KEY@)),
            ) {
                (Ok(kind), Ok(value)) => Ok(NamedResourceSpecView { kind, value }),
                _ => Err(DeserializationError),
            },
            _ => Err(DeserializationError),
        }
    }

    /// Reading an optional member: absent or null is no value.
    pub open spec fn from_opt_json(j: Option<Json>) -> Result<Option<Self>, DeserializationError> {
        match j {
            None => Ok(None),
            Some(Json::Null) => Ok(None),
            Some(x) => match Self::from_json(x) {
                Ok(v) => Ok(Some(v)),
                Err(e) => Err(e),
            },
        }
    }

    /// Writing the wire form and reading it back gives the same value.
    pub proof fn lemma_round_trip(self)
        ensures
            Self::from_json(self.to_json()) == Ok::<Self, DeserializationError>(self),
    {
        reveal_strlit("Kind");
        reveal_strlit("Value");
        let ms = opt_member(KIND_KEY@, str_json(self.kind)) + opt_member(VALUE_KEY@, str_json(self.value));
        assert(opt_member(KIND_KEY@, str_json(self.kind)) =~= Seq::empty() + opt_member(KIND_KEY@, str_json(self.kind)));
        lemma_member_of_empty(KIND_KEY@);
        lemma_member_of_empty(VALUE_KEY@);
        lemma_member_after_opt(Seq::empty(), KIND_KEY@, str_json(self.kind), KIND_KEY@);
        lemma_member_after_opt(Seq::empty(), KIND_KEY@, str_json(self.kind), VALUE_KEY@);
        lemma_member_after_opt(opt_member(KIND_KEY@, str_json(self.kind)), VALUE_KEY@, str_json(self.value), KIND_KEY@);
        lemma_member_after_opt(opt_member(KIND_KEY@, str_json(self.kind)), VALUE_KEY@, str_json(self.value), VALUE_KEY@);
        assert(KIND_KEY@ != VALUE_KEY@) by {
            assert(KIND_KEY@.len() != VALUE_KEY@.len());
        }
    }
}

impl NamedResourceSpec {
    /// The wire form of this value.
    pub fn to_json_value(&self) -> (r: JsonValue)
        ensures
            r@ == self@.to_json(),
    {
        let mut members: Vec<(String, JsonValue)> = Vec::new();
        push_member(&mut members, KIND_KEY, str_value(&self.kind));
        push_member(&mut members, VALUE_KEY, str_value(&self.value));
        proof {
            lemma_object_view(members);
            assert(members_of(members@) =~= opt_member(KIND_KEY@, str_json(self@.kind)) + opt_member(VALUE_KEY@, str_json(self@.value)));
        }
        JsonValue::Object(members)
    }

    /// Reads a value from its wire form.
    pub fn from_json_value(v: &JsonValue) -> (r: Result<Self, DeserializationError>)
        ensures
            match r {
                Ok(x) => NamedResourceSpecView::from_json(v@) == Ok::<NamedResourceSpecView, DeserializationError>(x@),
                Err(_) => NamedResourceSpecView::from_json(v@) is Err,
            },
    {
        match v {
            JsonValue::Object(members) => {
                proof { lemma_object_view(*members); }
                let kind = match str_member(members, &String::from_str(KIND_KEY)) {
                    Ok(k) => k,
                    Err(e) => return Err(e),
                };
                let value = match str_member(members, &String::from_str(VALUE_KEY)) {
                    Ok(k) => k,
                    Err(e) => return Err(e),
                };
                Ok(NamedResourceSpec { kind, value })
            },
            _ => Err(DeserializationError),
        }
    }
}


/// A resource advertised by count, such as a number of SSDs.
#[derive(Debug, PartialEq, Eq)]
pub struct DiscreteResourceSpec {
    pub kind: Option<String>,
    pub value: Option<i64>,
}

/// The model of a `DiscreteResourceSpec`.
pub struct DiscreteResourceSpecView {
    pub kind: Option<Seq<char>>,
    pub value: Option<i64>,
}

impl View for DiscreteResourceSpec {
    type V = DiscreteResourceSpecView;

    open spec fn view(&self) -> DiscreteResourceSpecView {
        DiscreteResourceSpecView { kind: self.kind.deep_view(), value: self.value }
    }
}

impl DiscreteResourceSpecView {
    /// The wire form: an object with one member per present field.
    pub open spec fn to_json(self) -> Json {
        Json::Object(
            opt_member(KIND_KEY@, str_json(self.kind)) + opt_member(VALUE_KEY@, int_json(self.value)),
        )
    }

    /// Reading the wire form: an object whose members under the field names
    /// must read; other members are ignored.
    pub open spec fn from_json(j: Json) -> Result<Self, DeserializationError> {
        match j {
            Json::Object(ms) => match (
                str_field(member(ms, KIND_KEY@)),
                int_field(member(ms, VALUE_KEY@)),
            ) {
                (Ok(kind), Ok(value)) => Ok(DiscreteResourceSpecView { kind, value }),
                _ => Err(DeserializationError),
            },
            _ => Err(DeserializationError),
        }
    }

    /// Reading an optional member: absent or null is no value.
    pub open spec fn from_opt_json(j: Option<Json>) -> Result<Option<Self>, DeserializationError> {
        match j {
            None => Ok(None),
            Some(Json::Null) => Ok(None),
            Some(x) => match Self::from_json(x) {
                Ok(v) => Ok(Some(v)),
                Err(e) => Err(e),
            },
        }
    }

    /// Writing the wire form and reading it back gives the same value.
    pub proof fn lemma_round_trip(self)
        ensures
            Self::from_json(self.to_json()) == Ok::<Self, DeserializationError>(self),
    {
        reveal_strlit("Kind");
        reveal_strlit("Value");
        let first = opt_member(KIND_KEY@, str_json(self.kind));
        assert(first =~= Seq::empty() + first);
        lemma_member_of_empty(KIND_KEY@);
        lemma_member_of_empty(VALUE_KEY@);
        lemma_member_after_opt(Seq::empty(), KIND_KEY@, str_json(self.kind), KIND_KEY@);
        lemma_member_after_opt(Seq::empty(), KIND_KEY@, str_json(self.kind), VALUE_KEY@);
        lemma_member_after_opt(first, VALUE_KEY@, int_json(self.value), KIND_KEY@);
        lemma_member_after_opt(first, VALUE_KEY@, int_json(self.value), VALUE_KEY@);
        assert(KIND_KEY@ != VALUE_KEY@) by {
            assert(KIND_KEY@.len() != VALUE_KEY@.len());
        }
    }
}

impl DiscreteResourceSpec {
    /// The wire form of this value.
    pub fn to_json_value(&self) -> (r: JsonValue)
        ensures
            r@ == self@.to_json(),
    {
        let mut members: Vec<(String, JsonValue)> = Vec::new();
        push_member(&mut members, KIND_KEY, str_value(&self.kind));
        push_member(&mut members, VALUE_KEY, int_value(self.value));
        proof {
            lemma_object_view(members);
            assert(members_of(members@) =~= opt_member(KIND_KEY@, str_json(self@.kind)) + opt_member(VALUE_KEY@, int_json(self@.value)));
        }
        JsonValue::Object(members)
    }

    /// Reads a value from its wire form.
    pub fn from_json_value(v: &JsonValue) -> (r: Result<Self, DeserializationError>)
        ensures
            match r {
                Ok(x) => DiscreteResourceSpecView::from_json(v@) == Ok::<DiscreteResourceSpecView, DeserializationError>(x@),
                Err(_) => DiscreteResourceSpecView::from_json(v@) is Err,
            },
    {
        match v {
            JsonValue::Object(members) => {
                proof { lemma_object_view(*members); }
                let kind = match str_member(members, &String::from_str(KIND_KEY)) {
                    Ok(k) => k,
                    Err(e) => return Err(e),
                };
                let value = match int_member(members, &String::from_str(VALUE_KEY)) {
                    Ok(n) => n,
                    Err(e) => return Err(e),
                };
                Ok(DiscreteResourceSpec { kind, value })
            },
            _ => Err(DeserializationError),
        }
    }
}


/// One user-defined resource: named, discrete, or (as the schema allows)
/// both or neither.
#[derive(Debug, PartialEq, Eq)]
pub struct GenericResource {
    pub named_resource_spec: Option<NamedResourceSpec>,
    pub discrete_resource_spec: Option<DiscreteResourceSpec>,
}

/// The model of a `GenericResource`.
pub struct GenericResourceView {
    pub named_resource_spec: Option<NamedResourceSpecView>,
    pub discrete_resource_spec: Option<DiscreteResourceSpecView>,
}

impl View for GenericResource {
    type V = GenericResourceView;

    open spec fn view(&self) -> GenericResourceView {
        GenericResourceView {
            named_resource_spec: match self.named_resource_spec {
                Some(n) => Some(n@),
                None => None,
            },
            discrete_resource_spec: match self.discrete_resource_spec {
                Some(d) => Some(d@),
                None => None,
            },
        }
    }
}

/// An optional named resource as an optional wire value.
pub open spec fn named_json(o: Option<NamedResourceSpecView>) -> Option<Json> {
    match o {
        Some(n) => Some(n.to_json()),
        None => None,
    }
}

/// An optional discrete resource as an optional wire value.
pub open spec fn discrete_json(o: Option<DiscreteResourceSpecView>) -> Option<Json> {
    match o {
        Some(d) => Some(d.to_json()),
        None => None,
    }
}

impl GenericResourceView {
    /// The wire form: an object with one member per present field.
    pub open spec fn to_json(self) -> Json {
        Json::Object(
            opt_member(NAMED_RESOURCE_SPEC_KEY@, named_json(self.named_resource_spec))
                + opt_member(DISCRETE_RESOURCE_SPEC_KEY@, discrete_json(self.discrete_resource_spec)),
        )
    }

    /// Reading the wire form: an object whose members under the field names
    /// must read; other members are ignored.
    pub open spec fn from_json(j: Json) -> Result<Self, DeserializationError> {
        match j {
            Json::Object(ms) => match (
                NamedResourceSpecView::from_opt_json(member(ms, NAMED_RESOURCE_SPEC_KEY@)),
                DiscreteResourceSpecView::from_opt_json(member(ms, DISCRETE_RESOURCE_SPEC_KEY@)),
            ) {
                (Ok(named_resource_spec), Ok(discrete_resource_spec)) => Ok(
                    GenericResourceView { named_resource_spec, discrete_resource_spec },
                ),
                _ => Err(DeserializationError),
            },
            _ => Err(DeserializationError),
        }
    }

    /// Writing the wire form and reading it back gives the same value.
    pub proof fn lemma_round_trip(self)
        ensures
            Self::from_json(self.to_json()) == Ok::<Self, DeserializationError>(self),
    {
        reveal_strlit("NamedResourceSpec");
        reveal_strlit("DiscreteResourceSpec");
        let n = NAMED_RESOURCE_SPEC_KEY@;
        let d = DISCRETE_RESOURCE_SPEC_KEY@;
        let first = opt_member(n, named_json(self.named_resource_spec));
        assert(first =~= Seq::empty() + first);
        lemma_member_of_empty(n);
        lemma_member_of_empty(d);
        lemma_member_after_opt(Seq::empty(), n, named_json(self.named_resource_spec), n);
        lemma_member_after_opt(Seq::empty(), n, named_json(self.named_resource_spec), d);
        lemma_member_after_opt(first, d, discrete_json(self.discrete_resource_spec), n);
        lemma_member_after_opt(first, d, discrete_json(self.discrete_resource_spec), d);
        assert(n != d) by {
            assert(n.len() != d.len());
        }
        if let Some(x) = self.named_resource_spec {
            x.lemma_round_trip();
        }
        if let Some(x) = self.discrete_resource_spec {
            x.lemma_round_trip();
        }
    }
}

impl GenericResource {
    /// The wire form of this value.
    pub fn to_json_value(&self) -> (r: JsonValue)
        ensures
            r@ == self@.to_json(),
    {
        let mut members: Vec<(String, JsonValue)> = Vec::new();
        let named = match &self.named_resource_spec {
            Some(x) => Some(x.to_json_value()),
            None => None,
        };
        push_member(&mut members, NAMED_RESOURCE_SPEC_KEY, named);
        let discrete = match &self.discrete_resource_spec {
            Some(x) => Some(x.to_json_value()),
            None => None,
        };
        push_member(&mut members, DISCRETE_RESOURCE_SPEC_KEY, discrete);
        proof {
            lemma_object_view(members);
            assert(members_of(members@) =~= opt_member(
                NAMED_RESOURCE_SPEC_KEY@,
                named_json(self@.named_resource_spec),
            ) + opt_member(DISCRETE_RESOURCE_SPEC_KEY@, discrete_json(self@.discrete_resource_spec)));
        }
        JsonValue::Object(members)
    }

    /// Reads a value from its wire form.
    pub fn from_json_value(v: &JsonValue) -> (r: Result<Self, DeserializationError>)
        ensures
            match r {
                Ok(x) => GenericResourceView::from_json(v@) == Ok::<GenericResourceView, DeserializationError>(x@),
                Err(_) => GenericResourceView::from_json(v@) is Err,
            },
    {
        match v {
            JsonValue::Object(members) => {
                proof { lemma_object_view(*members); }
                let named_resource_spec = match find_member(
                    members,
                    &String::from_str(NAMED_RESOURCE_SPEC_KEY),
                ) {
                    None => None,
                    Some(i) => match &members[i].1 {
                        JsonValue::Null => None,
                        x => match NamedResourceSpec::from_json_value(x) {
                            Ok(n) => Some(n),
                            Err(e) => return Err(e),
                        },
                    },
                };
                let discrete_resource_spec = match find_member(
                    members,
                    &String::from_str(DISCRETE_RESOURCE_SPEC_KEY),
                ) {
                    None => None,
                    Some(i) => match &members[i].1 {
                        JsonValue::Null => None,
                        x => match DiscreteResourceSpec::from_json_value(x) {
                            Ok(d) => Some(d),
                            Err(e) => return Err(e),
                        },
                    },
                };
                Ok(GenericResource { named_resource_spec, discrete_resource_spec })
            },
            _ => Err(DeserializationError),
        }
    }
}


/// User-defined resources, named or discrete, in their order.
#[derive(Debug, PartialEq, Eq)]
pub struct GenericResources {
    pub resources: Vec<GenericResource>,
}

impl View for GenericResources {
    type V = Seq<GenericResourceView>;

    open spec fn view(&self) -> Seq<GenericResourceView> {
        Seq::new(self.resources@.len(), |i: int| self.resources@[i]@)
    }
}

/// The wire form of a list of resources: an array of their objects.
pub open spec fn resources_to_json(rs: Seq<GenericResourceView>) -> Json {
    Json::Array(Seq::new(rs.len(), |i: int| rs[i].to_json()))
}

/// A list of resources read from an array: every item must read.
pub open spec fn resources_from_json(j: Json) -> Result<Seq<GenericResourceView>, DeserializationError> {
    match j {
        Json::Array(items) => if forall|i: int|
            0 <= i < items.len() ==> (#[trigger] GenericResourceView::from_json(items[i])) is Ok {
            Ok(Seq::new(items.len(), |i: int| GenericResourceView::from_json(items[i])->Ok_0))
        } else {
            Err(DeserializationError)
        },
        _ => Err(DeserializationError),
    }
}

/// Writing a list of resources and reading it back gives the same list.
pub proof fn lemma_resources_round_trip(rs: Seq<GenericResourceView>)
    ensures
        resources_from_json(resources_to_json(rs)) == Ok::<Seq<GenericResourceView>, DeserializationError>(rs),
{
    let items = Seq::new(rs.len(), |i: int| rs[i].to_json());
    assert forall|i: int| 0 <= i < items.len() implies (#[trigger] GenericResourceView::from_json(items[i])) == Ok::<GenericResourceView, DeserializationError>(rs[i]) by {
        rs[i].lemma_round_trip();
    }
    assert(Seq::new(items.len(), |i: int| GenericResourceView::from_json(items[i])->Ok_0) =~= rs);
}

impl GenericResources {
    /// The wire form of this value.
    pub fn to_json_value(&self) -> (r: JsonValue)
        ensures
            r@ == resources_to_json(self@),
    {
        let mut items: Vec<JsonValue> = Vec::new();
        let mut i: usize = 0;
        while i < self.resources.len()
            invariant
                i <= self.resources@.len(),
                items@.len() == i,
                forall|k: int| 0 <= k < i ==> (#[trigger] items@[k])@ == self.resources@[k]@.to_json(),
            decreases self.resources@.len() - i,
        {
            items.push(self.resources[i].to_json_value());
            i = i + 1;
        }
        proof {
            lemma_array_view(items);
            assert(Seq::new(items@.len(), |k: int| items@[k]@) =~= Seq::new(
                self@.len(),
                |k: int| self@[k].to_json(),
            ));
        }
        JsonValue::Array(items)
    }

    /// Reads a value from its wire form.
    pub fn from_json_value(v: &JsonValue) -> (r: Result<Self, DeserializationError>)
        ensures
            match r {
                Ok(x) => resources_from_json(v@) == Ok::<Seq<GenericResourceView>, DeserializationError>(x@),
                Err(_) => resources_from_json(v@) is Err,
            },
    {
        match v {
            JsonValue::Array(items) => {
                proof { lemma_array_view(*items); }
                let ghost js = Seq::new(items@.len(), |k: int| items@[k]@);
                let mut resources: Vec<GenericResource> = Vec::new();
                let mut i: usize = 0;
                while i < items.len()
                    invariant
                        i <= items@.len(),
                        resources@.len() == i,
                        js == Seq::new(items@.len(), |k: int| items@[k]@),
                        v@ == Json::Array(js),
                        forall|k: int| 0 <= k < i ==> GenericResourceView::from_json(#[trigger] js[k]) == Ok::<GenericResourceView, DeserializationError>(resources@[k]@),
                    decreases items@.len() - i,
                {
                    match GenericResource::from_json_value(&items[i]) {
                        Ok(x) => resources.push(x),
                        Err(e) => {
                            assert(GenericResourceView::from_json(js[i as int]) is Err);
                            return Err(e);
                        },
                    }
                    i = i + 1;
                }
                assert(forall|k: int| 0 <= k < js.len() ==> (#[trigger] GenericResourceView::from_json(js[k])) is Ok);
                let r = GenericResources { resources };
                assert(r@ =~= Seq::new(js.len(), |k: int| GenericResourceView::from_json(js[k])->Ok_0));
                Ok(r)
            },
            _ => Err(DeserializationError),
        }
    }
}

} // verus!
