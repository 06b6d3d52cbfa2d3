//! Component records and the selector-keyed index that holds them.

use vstd::prelude::*;
use crate::geometry::Range;
use crate::syntax::texts;
use dashmap::DashMap;

verus! {

/// A declared component: the tag that templates use for it, where its class
/// name stands, and the names it lets a template bind.
#[derive(Clone, Debug, PartialEq, Eq)]
pub struct Component {
    pub selector: String,
    pub file: String,
    pub class_name_range: Range,
    pub inputs: Vec<String>,
    pub outputs: Vec<String>,
}

/// What a component record says, as plain values.
pub ghost struct ComponentModel {
    pub selector: Seq<char>,
    pub file: Seq<char>,
    pub class_name_range: Range,
    pub inputs: Seq<Seq<char>>,
    pub outputs: Seq<Seq<char>>,
}

impl View for Component {
    type V = ComponentModel;

    open spec fn view(&self) -> ComponentModel {
        ComponentModel {
            selector: self.selector@,
            file: self.file@,
            class_name_range: self.class_name_range,
            inputs: texts(self.inputs@),
            outputs: texts(self.outputs@),
        }
    }
}

/// Where a definition stands: a file and a range in it.
#[derive(Clone, Debug, PartialEq, Eq)]
pub struct Location {
    pub file: String,
    pub range: Range,
}

/// The entries of an index that holds nothing.
pub open spec fn no_entries() -> Map<Seq<char>, ComponentModel> {
    Map::empty()
}

/// The concurrent map of `dashmap`, taken as an opaque value.
#[verifier::external_type_specification]
#[verifier::external_body]
#[verifier::reject_recursive_types(K)]
#[verifier::reject_recursive_types(V)]
#[verifier::reject_recursive_types(S)]
pub struct ExDashMap<K, V, S>(DashMap<K, V, S>);

/// The entries that a map of components holds, each under the text of its
/// key.
pub uninterp spec fn map_entries(map: DashMap<String, Component>) -> Map<Seq<char>, ComponentModel>;

/// `DashMap::new`: the map it makes holds nothing.
#[verifier::external_body]
fn map_new() -> (made: DashMap<String, Component>)
    ensures
        map_entries(made) == no_entries(),
{
    DashMap::new()
}

/// `DashMap::insert`: afterwards the map holds `value` under `key`, in place
/// of what stood there, and every other entry as before.
#[verifier::external_body]
fn map_insert(map: &mut DashMap<String, Component>, key: String, value: Component)
    ensures
        map_entries(*final(map)) == map_entries(*old(map)).insert(key@, value@),
{
    map.insert(key, value);
}

/// `DashMap::get`, with the entry's value cloned out of the guard: the value
/// held under `key`, or `None` where the map holds none.
#[verifier::external_body]
fn map_get(map: &DashMap<String, Component>, key: &str) -> (found: Option<Component>)
    ensures
        match found {
            Some(c) => map_entries(*map).contains_key(key@) && c@ == map_entries(*map)[key@],
            None => !map_entries(*map).contains_key(key@),
        },
{
    map.get(key).map(|entry| entry.value().clone())
}

/// `DashMap::iter`, with each entry's key cloned out: every key of the map
/// once, in an order that the map does not fix.
#[verifier::external_body]
fn map_keys(map: &DashMap<String, Component>) -> (keys: Vec<String>)
    ensures
        forall|i: int| 0 <= i < keys@.len() ==> map_entries(*map).contains_key(
            #[trigger] keys@[i]@,
        ),
        forall|k: Seq<char>| #[trigger]
            map_entries(*map).contains_key(k) ==> texts(keys@).contains(k),
        forall|i: int, j: int|
            0 <= i < j < keys@.len() ==> (#[trigger] keys@[i])@ != (#[trigger] keys@[j])@,
{
    map.iter().map(|entry| entry.key().clone()).collect()
}

/// The index of known components, keyed by selector.
pub struct ComponentIndex {
    map: DashMap<String, Component>,
}

impl View for ComponentIndex {
    type V = Map<Seq<char>, ComponentModel>;

    closed spec fn view(&self) -> Map<Seq<char>, ComponentModel> {
        map_entries(self.map)
    }
}

/// Every entry stands under the selector of its component.
pub open spec fn keyed_by_selector(entries: Map<Seq<char>, ComponentModel>) -> bool {
    forall|k: Seq<char>| #[trigger] entries.contains_key(k) ==> entries[k].selector == k
}

impl ComponentIndex {
    /// An index that holds nothing.
    pub fn new() -> (index: ComponentIndex)
        ensures
            index@ == no_entries(),
            keyed_by_selector(index@),
    {
        ComponentIndex { map: map_new() }
    }

    /// Files `component` under its selector. A component filed earlier
    /// under the same selector gives way; every other one stays as it was.
    pub fn insert(&mut self, component: Component)
        ensures
            final(self)@ == old(self)@.insert(component.selector@, component@),
            final(self)@.contains_key(component.selector@),
            final(self)@[component.selector@] == component@,
            keyed_by_selector(old(self)@) ==> keyed_by_selector(final(self)@),
            forall|k: Seq<char>|
                k != component.selector@ && #[trigger] old(self)@.contains_key(k)
                    ==> final(self)@.contains_key(k) && final(self)@[k] == old(self)@[k],
    {
        let key = component.selector.clone();
        map_insert(&mut self.map, key, component);
    }

    /// The component filed under `selector`, if there is one.
    pub fn get(&self, selector: &str) -> (found: Option<Component>)
        ensures
            match found {
                Some(c) => self@.contains_key(selector@) && c@ == self@[selector@],
                None => !self@.contains_key(selector@),
            },
    {
        map_get(&self.map, selector)
    }

    /// The selectors under which a component is filed, each once, in no
    /// fixed order.
    pub fn selectors(&self) -> (keys: Vec<String>)
        ensures
            forall|i: int| 0 <= i < keys@.len() ==> self@.contains_key(#[trigger] keys@[i]@),
            forall|k: Seq<char>| #[trigger] self@.contains_key(k) ==> texts(keys@).contains(k),
            forall|i: int, j: int|
                0 <= i < j < keys@.len() ==> (#[trigger] keys@[i])@ != (#[trigger] keys@[j])@,
    {
        map_keys(&self.map)
    }
}

/// Filing components under distinct selectors loses none of them: after
/// `second` is filed, `first` is still found under its own selector, and so
/// is every entry that the index held before.
pub proof fn lemma_distinct_inserts_keep_entries(
    before: Map<Seq<char>, ComponentModel>,
    first: ComponentModel,
    second: ComponentModel,
)
    requires
        first.selector != second.selector,
    ensures
        ({
            let after = before.insert(first.selector, first).insert(second.selector, second);
            &&& after.contains_key(first.selector) && after[first.selector] == first
            &&& after.contains_key(second.selector) && after[second.selector] == second
            &&& forall|k: Seq<char>|
                k != first.selector && k != second.selector && #[trigger] before.contains_key(k)
                    ==> after.contains_key(k) && after[k] == before[k]
        }),
{
}

} // verus!
