//! The value tree: null, booleans, numbers, strings, arrays and objects.
use vstd::prelude::*;

verus! {

/// The mathematical value of a `JsonhValue`.
pub enum JsonhValueView {
    Null,
    Bool(bool),
    Number(Seq<char>),
    String(Seq<char>),
    Array(Seq<JsonhValueView>),
    Object(Seq<JsonhPropertyView>),
}

/// The mathematical value of a `JsonhProperty`.
pub struct JsonhPropertyView {
    pub name: Seq<char>,
    pub value: JsonhValueView,
}

/// A JSONH value: the tree that the tokens of an element describe. A number
/// holds its literal as it was read.
#[derive(Debug, PartialEq, Eq)]
pub enum JsonhValue {
    Null,
    Bool(bool),
    Number(String),
    String(String),
    Array(Vec<JsonhValue>),
    Object(Vec<JsonhProperty>),
}

/// A property of an object: a name and a value.
#[derive(Debug, PartialEq, Eq)]
pub struct JsonhProperty {
    pub name: String,
    pub value: JsonhValue,
}

impl View for JsonhValue {
    type V = JsonhValueView;

    open spec fn view(&self) -> JsonhValueView
        decreases self,
    {
        match self {
            JsonhValue::Null => JsonhValueView::Null,
            JsonhValue::Bool(b) => JsonhValueView::Bool(*b),
            JsonhValue::Number(literal) => JsonhValueView::Number(literal@),
            JsonhValue::String(text) => JsonhValueView::String(text@),
            JsonhValue::Array(items) => JsonhValueView::Array(
                Seq::new(
                    items.len() as nat,
                    |i: int|
                        if 0 <= i < items.len() {
                            items[i].view()
                        } else {
                            JsonhValueView::Null
                        },
                ),
            ),
            JsonhValue::Object(properties) => JsonhValueView::Object(
                Seq::new(
                    properties.len() as nat,
                    |i: int|
                        if 0 <= i < properties.len() {
                            JsonhPropertyView {
                                name: properties[i].name@,
                                value: properties[i].value.view(),
                            }
                        } else {
                            JsonhPropertyView { name: Seq::empty(), value: JsonhValueView::Null }
                        },
                ),
            ),
        }
    }
}

/// The values of the items of an array.
pub open spec fn items_view(items: Seq<JsonhValue>) -> Seq<JsonhValueView> {
    Seq::new(
        items.len(),
        |i: int|
            if 0 <= i < items.len() {
                items[i]@
            } else {
                JsonhValueView::Null
            },
    )
}

/// The names and values of the properties of an object.
pub open spec fn properties_view(properties: Seq<JsonhProperty>) -> Seq<JsonhPropertyView> {
    Seq::new(
        properties.len(),
        |i: int|
            if 0 <= i < properties.len() {
                JsonhPropertyView { name: properties[i].name@, value: properties[i].value@ }
            } else {
                JsonhPropertyView { name: Seq::empty(), value: JsonhValueView::Null }
            },
    )
}

/// The view of an array is the array of the views of its items.
pub proof fn lemma_array_view(items: Vec<JsonhValue>)
    ensures
        JsonhValue::Array(items)@ == JsonhValueView::Array(items_view(items@)),
{
    assert(JsonhValue::Array(items)@->Array_0 =~= items_view(items@));
}

/// The view of an object is the object of the views of its properties.
pub proof fn lemma_object_view(properties: Vec<JsonhProperty>)
    ensures
        JsonhValue::Object(properties)@ == JsonhValueView::Object(properties_view(properties@)),
{
    let direct = JsonhValue::Object(properties)@->Object_0;
    let mapped = properties_view(properties@);
    assert(direct =~= mapped);
}

/// The index of the first property of `properties` from `from` on that has
/// the name `name`, or the number of properties where none has.
pub open spec fn property_index(
    properties: Seq<JsonhPropertyView>,
    name: Seq<char>,
    from: int,
) -> int
    decreases properties.len() - from,
{
    if 0 <= from < properties.len() && properties[from].name != name {
        property_index(properties, name, from + 1)
    } else {
        from
    }
}

/// The properties `properties` with the value `value` under the name `name`:
/// in the place of the property of that name where there is one, and else at
/// the end.
pub open spec fn with_property(
    properties: Seq<JsonhPropertyView>,
    name: Seq<char>,
    value: JsonhValueView,
) -> Seq<JsonhPropertyView> {
    let index = property_index(properties, name, 0);
    if index < properties.len() {
        properties.update(index, JsonhPropertyView { name, value })
    } else {
        properties.push(JsonhPropertyView { name, value })
    }
}

/// The container `container` with the value `value` added: as the last item
/// of an array, which takes no name, or as the property `name` of an object.
/// Anything else has no place for a value.
pub open spec fn attached(
    container: JsonhValueView,
    name: Option<Seq<char>>,
    value: JsonhValueView,
) -> Option<JsonhValueView> {
    match (container, name) {
        (JsonhValueView::Array(items), None) => Some(JsonhValueView::Array(items.push(value))),
        (JsonhValueView::Object(properties), Some(name)) => Some(
            JsonhValueView::Object(with_property(properties, name, value)),
        ),
        _ => None,
    }
}

/// Whether a value under the name `name`, or without a name, has a place in
/// the container `container`.
pub open spec fn attachable(container: JsonhValueView, name: Option<Seq<char>>) -> bool {
    (container is Array && name is None) || (container is Object && name is Some)
}

impl JsonhValue {
    /// Adds `value` to this container: as the last item of an array, or as
    /// the property `name` of an object, where a later value replaces an
    /// earlier one of the same name. Returns whether there was a place for
    /// the value; if not, nothing changes.
    pub fn attach(&mut self, name: Option<String>, value: JsonhValue) -> (r: bool)
        ensures
            r == attachable(old(self)@, option_view(name)),
            r ==> Some(final(self)@) == attached(old(self)@, option_view(name), value@),
            !r ==> final(self)@ == old(self)@,
    {
        match self {
            JsonhValue::Array(items) => {
                if name.is_some() {
                    return false;
                }
                let ghost before = *items;
                proof {
                    lemma_array_view(before);
                }
                items.push(value);
                proof {
                    lemma_array_view(*items);
                    assert(items_view(items@) =~= items_view(before@).push(value@));
                }
                true
            },
            JsonhValue::Object(properties) => {
                let name = match name {
                    Some(name) => name,
                    None => { return false; },
                };
                let ghost before = *properties;
                proof {
                    lemma_object_view(before);
                }
                let mut index: usize = 0;
                while index < properties.len() && !(properties[index].name == name)
                    invariant
                        index <= properties.len(),
                        *properties == before,
                        property_index(properties_view(before@), name@, index as int)
                            == property_index(properties_view(before@), name@, 0),
                    decreases properties.len() - index,
                {
                    index += 1;
                }
                if index < properties.len() {
                    properties.set(index, JsonhProperty { name, value });
                    proof {
                        lemma_object_view(*properties);
                        assert(properties_view(properties@) =~= properties_view(before@).update(
                            index as int,
                            JsonhPropertyView { name: name@, value: value@ },
                        ));
                    }
                } else {
                    properties.push(JsonhProperty { name, value });
                    proof {
                        lemma_object_view(*properties);
                        assert(properties_view(properties@) =~= properties_view(before@).push(
                            JsonhPropertyView { name: name@, value: value@ },
                        ));
                    }
                }
                true
            },
            _ => false,
        }
    }
}

/// The characters of an optional string.
pub open spec fn option_view(text: Option<String>) -> Option<Seq<char>> {
    match text {
        Some(text) => Some(text@),
        None => None,
    }
}

} // verus!
