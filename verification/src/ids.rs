//! Revisions and the identities of the entities in the dependency graph.
use std::any::TypeId;
use std::fmt::Debug;
use vstd::prelude::*;

verus! {

/// Revision counter for incremental computation.
#[derive(Clone, Copy, PartialEq, Eq, Structural, PartialOrd, Ord, Hash, Debug, Default)]
pub struct Epoch(pub u64);

impl Epoch {
    /// The revision a fresh table starts at.
    pub fn zero() -> (e: Epoch)
        ensures
            e.0 == 0,
    {
        Epoch(0)
    }

    /// The revision right after this one.
    pub fn next(self) -> (e: Epoch)
        requires
            self.0 < u64::MAX,
        ensures
            e.0 == self.0 + 1,
    {
        Epoch(self.0 + 1)
    }
}

#[verifier::external_type_specification]
#[verifier::external_body]
pub struct ExTypeId(TypeId);

/// Calls `std::any::TypeId::of::<Marker>()`. Nothing is claimed of the id it
/// returns beyond its type: which id a type gets is the compiler's choice.
#[verifier::external_body]
fn type_id_of<Marker: 'static + ?Sized>() -> TypeId {
    TypeId::of::<Marker>()
}

/// Calls `<TypeId as PartialEq>::eq`. Claimed: two ids compare equal exactly
/// when they are the same id (std documents a `TypeId` as an opaque value
/// that identifies one type and compares equal only for that type).
#[verifier::external_body]
fn same_type(a: &TypeId, b: &TypeId) -> (r: bool)
    ensures
        r == (*a == *b),
{
    *a == *b
}

/// Calls `<str as PartialEq>::eq`. Claimed: the result is true exactly when
/// both strings hold the same characters, as std documents.
#[verifier::external_body]
fn same_text(a: &str, b: &str) -> (r: bool)
    ensures
        r == (a@ == b@),
{
    a == b
}

/// Renders `key` with its `Debug` impl (`format!("{:?}", key)`). Nothing is
/// claimed of the text: it is whatever the key type's `Debug` impl writes.
#[verifier::external_body]
fn debug_text<K: Debug + ?Sized>(key: &K) -> String {
    format!("{:?}", key)
}

/// `text` is what rendering `key` with its `Debug` impl gave: a result of
/// `debug_text` for `key`.
pub closed spec fn is_debug_text<K: Debug>(key: &K, text: Seq<char>) -> bool {
    exists|t: String| #[trigger] call_ensures(debug_text::<K>, (key,), t) && t@ == text
}

/// `id` is what `TypeId::of::<Marker>()` gave: a result of `type_id_of`.
pub closed spec fn is_type_id_of<Marker: 'static>(id: TypeId) -> bool {
    call_ensures(type_id_of::<Marker>, (), id)
}

/// Renders `key` through `debug_text`, keeping the call's outcome in view.
fn render_key<K: Debug>(key: &K) -> (t: String)
    ensures
        is_debug_text(key, t@),
{
    let render = debug_text::<K>;
    let t = render(key);
    assert(call_ensures(debug_text::<K>, (key,), t));
    t
}

/// The type id of `Marker`, keeping the call's outcome in view.
fn marker_type_id<Marker: 'static>() -> (id: TypeId)
    ensures
        is_type_id_of::<Marker>(id),
{
    let get = type_id_of::<Marker>;
    get()
}

/// What an identity is made of: the marker type, the entity's name and the
/// text of its key.
pub struct IdView {
    pub type_id: TypeId,
    pub name: Seq<char>,
    pub key: Seq<char>,
}

/// Identifies an input entity in the dependency graph.
#[derive(Hash, Debug)]
pub struct InputId {
    type_id: TypeId,
    name: &'static str,
    key_debug: String,
}

impl View for InputId {
    type V = IdView;

    closed spec fn view(&self) -> IdView {
        IdView { type_id: self.type_id, name: self.name@, key: self.key_debug@ }
    }
}

impl InputId {
    /// The id of the input `name` under the marker type `Marker`, for `key`.
    pub fn of<Marker: 'static, K: Debug>(key: &K, name: &'static str) -> (id: Self)
        ensures
            id@.name == name@,
            is_debug_text(key, id@.key),
            is_type_id_of::<Marker>(id@.type_id),
    {
        InputId { type_id: marker_type_id::<Marker>(), name, key_debug: render_key(key) }
    }

    /// The input's name.
    pub fn name(&self) -> (n: &'static str)
        ensures
            n@ == self@.name,
    {
        self.name
    }

    /// Whether both ids name the same input.
    pub fn same(&self, other: &InputId) -> (r: bool)
        ensures
            r == (self@ == other@),
    {
        same_type(&self.type_id, &other.type_id) && same_text(self.name, other.name)
            && self.key_debug == other.key_debug
    }
}

impl Clone for InputId {
    fn clone(&self) -> (r: Self)
        ensures
            r@ == self@,
    {
        InputId { type_id: self.type_id, name: self.name, key_debug: self.key_debug.clone() }
    }
}

impl PartialEq for InputId {
    fn eq(&self, other: &Self) -> (r: bool) {
        self.same(other)
    }
}

impl vstd::std_specs::cmp::PartialEqSpecImpl for InputId {
    open spec fn obeys_eq_spec() -> bool {
        true
    }

    open spec fn eq_spec(&self, other: &Self) -> bool {
        self@ == other@
    }
}

impl Eq for InputId {

}

/// Identifies a query entity in the dependency graph.
#[derive(Hash, Debug)]
pub struct QueryId {
    type_id: TypeId,
    name: &'static str,
    key_debug: String,
}

impl View for QueryId {
    type V = IdView;

    closed spec fn view(&self) -> IdView {
        IdView { type_id: self.type_id, name: self.name@, key: self.key_debug@ }
    }
}

impl QueryId {
    /// The id of the query `name` under the marker type `Marker`, for `key`.
    pub fn of<Marker: 'static, K: Debug>(key: &K, name: &'static str) -> (id: Self)
        ensures
            id@.name == name@,
            is_debug_text(key, id@.key),
            is_type_id_of::<Marker>(id@.type_id),
    {
        QueryId { type_id: marker_type_id::<Marker>(), name, key_debug: render_key(key) }
    }

    /// The query's name.
    pub fn name(&self) -> (n: &'static str)
        ensures
            n@ == self@.name,
    {
        self.name
    }

    /// Whether both ids name the same query.
    pub fn same(&self, other: &QueryId) -> (r: bool)
        ensures
            r == (self@ == other@),
    {
        same_type(&self.type_id, &other.type_id) && same_text(self.name, other.name)
            && self.key_debug == other.key_debug
    }
}

impl Clone for QueryId {
    fn clone(&self) -> (r: Self)
        ensures
            r@ == self@,
    {
        QueryId { type_id: self.type_id, name: self.name, key_debug: self.key_debug.clone() }
    }
}

impl PartialEq for QueryId {
    fn eq(&self, other: &Self) -> (r: bool) {
        self.same(other)
    }
}

impl vstd::std_specs::cmp::PartialEqSpecImpl for QueryId {
    open spec fn obeys_eq_spec() -> bool {
        true
    }

    open spec fn eq_spec(&self, other: &Self) -> bool {
        self@ == other@
    }
}

impl Eq for QueryId {

}

/// What a dependency edge points at.
pub enum DepView {
    Input(IdView),
    Query(IdView),
}

/// A dependency edge to an input or query.
#[derive(Hash, Debug)]
pub enum DepId {
    Input(InputId),
    Query(QueryId),
}

impl View for DepId {
    type V = DepView;

    open spec fn view(&self) -> DepView {
        match self {
            DepId::Input(id) => DepView::Input(id@),
            DepId::Query(id) => DepView::Query(id@),
        }
    }
}

impl DepId {
    /// Whether both edges point at the same entity.
    pub fn same(&self, other: &DepId) -> (r: bool)
        ensures
            r == (self@ == other@),
    {
        match (self, other) {
            (DepId::Input(a), DepId::Input(b)) => a.same(b),
            (DepId::Query(a), DepId::Query(b)) => a.same(b),
            _ => false,
        }
    }
}

impl Clone for DepId {
    fn clone(&self) -> (r: Self)
        ensures
            r@ == self@,
    {
        match self {
            DepId::Input(id) => DepId::Input(id.clone()),
            DepId::Query(id) => DepId::Query(id.clone()),
        }
    }
}

impl PartialEq for DepId {
    fn eq(&self, other: &Self) -> (r: bool) {
        self.same(other)
    }
}

impl vstd::std_specs::cmp::PartialEqSpecImpl for DepId {
    open spec fn obeys_eq_spec() -> bool {
        true
    }

    open spec fn eq_spec(&self, other: &Self) -> bool {
        self@ == other@
    }
}

impl Eq for DepId {

}

/// The views of a list of dependency edges.
pub open spec fn deps_view(deps: Seq<DepId>) -> Seq<DepView> {
    deps.map_values(|d: DepId| d@)
}

/// The views of a list of query ids.
pub open spec fn query_ids_view(ids: Seq<QueryId>) -> Seq<IdView> {
    ids.map_values(|q: QueryId| q@)
}

} // verus!
