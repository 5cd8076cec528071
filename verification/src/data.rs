//! Source positions, spans and the value tree.
//!
//! Every node of a loaded document is a [`Spanned`] value: the value itself
//! and the place in the source it was read from. Contracts speak of nodes
//! through their views, which are plain mathematical trees.

use linked_hash_map::LinkedHashMap;
use std::cmp::Ordering;
use std::hash::Hash;
use std::hash::Hasher;
use vstd::prelude::*;
use vstd::std_specs::cmp::PartialEqSpec;
use vstd::std_specs::cmp::PartialEqSpecImpl;
use vstd::std_specs::cmp::PartialOrdSpecImpl;

verus! {

/// A place in the source text.
#[derive(Debug, Copy, Clone, PartialEq, Eq, Ord, Structural)]
pub struct Position {
    pub line: usize,
    pub column: usize,
}

impl Position {
    /// Whether `self` comes strictly before `other`: by line, then by column.
    pub open spec fn before(self, other: Position) -> bool {
        self.line < other.line || (self.line == other.line && self.column < other.column)
    }

    /// Whether `self` is `other` or comes before it.
    pub open spec fn at_or_before(self, other: Position) -> bool {
        self == other || self.before(other)
    }

    /// How `self` stands to `other` in the order of positions.
    pub open spec fn order(self, other: Position) -> Ordering {
        if self.before(other) {
            Ordering::Less
        } else if self == other {
            Ordering::Equal
        } else {
            Ordering::Greater
        }
    }
}

impl PartialOrd for Position {
    /// Positions are ordered by line, then by column.
    fn partial_cmp(&self, other: &Position) -> (r: Option<Ordering>) {
        if self.line < other.line {
            Some(Ordering::Less)
        } else if self.line > other.line {
            Some(Ordering::Greater)
        } else if self.column < other.column {
            Some(Ordering::Less)
        } else if self.column > other.column {
            Some(Ordering::Greater)
        } else {
            Some(Ordering::Equal)
        }
    }
}

impl PartialOrdSpecImpl for Position {
    open spec fn obeys_partial_cmp_spec() -> bool {
        true
    }

    open spec fn partial_cmp_spec(&self, other: &Position) -> Option<Ordering> {
        Some(self.order(*other))
    }
}

/// A value together with the span of source text it was read from.
///
/// The span is metadata: two spanned values are equal, and hash alike, when
/// their inner values do.
#[derive(Debug)]
pub struct Spanned<T> {
    start: Position,
    end: Position,
    value: T,
}

/// What a [`Spanned`] value is to a contract: its span and the view of what
/// it wraps.
pub struct SpannedView<V> {
    pub start: Position,
    pub end: Position,
    pub value: V,
}

impl<T: View> View for Spanned<T> {
    type V = SpannedView<T::V>;

    open spec fn view(&self) -> SpannedView<T::V> {
        SpannedView {
            start: self.spec_start(),
            end: self.spec_end(),
            value: self.spec_value()@,
        }
    }
}

impl<T> Spanned<T> {
    /// Where the span starts.
    pub closed spec fn spec_start(self) -> Position {
        self.start
    }

    /// Where the span ends.
    pub closed spec fn spec_end(self) -> Position {
        self.end
    }

    /// The value that is wrapped.
    pub closed spec fn spec_value(self) -> T {
        self.value
    }

    /// The span's invariant: it does not end before it starts.
    pub open spec fn wf(self) -> bool {
        self.spec_start().at_or_before(self.spec_end())
    }

    /// Wraps `value` with the span from `start` to `end`. A span that ends
    /// before it starts is not a span: callers rule it out.
    pub fn new(value: T, start: Position, end: Position) -> (s: Self)
        requires
            start.at_or_before(end),
        ensures
            s.wf(),
            s.spec_value() == value,
            s.spec_start() == start,
            s.spec_end() == end,
    {
        Spanned { start, end, value }
    }

    /// Where the span starts.
    pub fn start(&self) -> (p: Position)
        ensures
            p == self.spec_start(),
    {
        self.start
    }

    /// Where the span ends.
    pub fn end(&self) -> (p: Position)
        ensures
            p == self.spec_end(),
    {
        self.end
    }

    /// The span: its start and its end.
    pub fn span(&self) -> (p: (Position, Position))
        ensures
            p == (self.spec_start(), self.spec_end()),
    {
        (self.start, self.end)
    }

    /// The value without its span.
    pub fn into_inner(self) -> (v: T)
        ensures
            v == self.spec_value(),
    {
        self.value
    }
}

impl<T: Clone> Clone for Spanned<T> {
    /// The same span around a clone of the inner value.
    fn clone(&self) -> (r: Self)
        ensures
            r.spec_start() == self.spec_start(),
            r.spec_end() == self.spec_end(),
            call_ensures(T::clone, (&self.spec_value(),), r.spec_value()),
    {
        Spanned { start: self.start, end: self.end, value: self.value.clone() }
    }
}

impl<T: PartialEq> PartialEq for Spanned<T> {
    /// Whether the inner values are equal, whatever the spans.
    fn eq(&self, other: &Spanned<T>) -> (r: bool) {
        self.value == other.value
    }
}

impl<T: PartialEq> PartialEqSpecImpl for Spanned<T> {
    open spec fn obeys_eq_spec() -> bool {
        T::obeys_eq_spec()
    }

    open spec fn eq_spec(&self, other: &Spanned<T>) -> bool {
        self.spec_value().eq_spec(&other.spec_value())
    }
}

impl<T: Eq> Eq for Spanned<T> {

}

impl<T: Hash> Hash for Spanned<T> {
    /// Feeds the inner value, and nothing of the span, to `state` through
    /// `Hash::hash`, so that values that are equal hash alike. Nothing is
    /// claimed of the hasher afterwards.
    #[verifier::external_body]
    fn hash<H: Hasher>(&self, state: &mut H) {
        self.value.hash(state)
    }
}

impl<T> AsRef<T> for Spanned<T> {
    /// The inner value, to read.
    fn as_ref(&self) -> (v: &T)
        ensures
            *v == self.spec_value(),
    {
        &self.value
    }
}

impl<T> AsMut<T> for Spanned<T> {
    /// The inner value, to read and to write. The span stays.
    fn as_mut(&mut self) -> (v: &mut T)
        ensures
            *v == old(self).spec_value(),
            final(self).spec_value() == *final(v),
            final(self).spec_start() == old(self).spec_start(),
            final(self).spec_end() == old(self).spec_end(),
    {
        &mut self.value
    }
}

impl<T> std::borrow::Borrow<T> for Spanned<T> {
    /// The inner value, to read.
    fn borrow(&self) -> (v: &T)
        ensures
            *v === self.spec_value(),
    {
        &self.value
    }
}

impl<T> std::borrow::BorrowMut<T> for Spanned<T> {
    /// The inner value, to read and to write. The span stays.
    fn borrow_mut(&mut self) -> (v: &mut T)
        ensures
            *v === old(self).spec_value(),
            final(self).spec_value() == *final(v),
            final(self).spec_start() == old(self).spec_start(),
            final(self).spec_end() == old(self).spec_end(),
    {
        &mut self.value
    }
}

/// A node of a loaded document.
pub type SpannedValue = Spanned<Value>;

/// The view of a node.
pub type NodeView = SpannedView<ValueView>;

/// The view of a mapping's key.
pub type KeyView = SpannedView<Seq<char>>;

/// A document value. A float is held as the text of its literal, exactly as
/// the source has it; a mapping keeps its entries in the order of the source.
#[derive(Debug)]
pub enum Value {
    String(String),
    Integer(i64),
    Float(String),
    Boolean(bool),
    Array(Vec<SpannedValue>),
    Mapping(ValueMap),
}

/// What a [`Value`] is to a contract.
pub enum ValueView {
    String(Seq<char>),
    Integer(i64),
    Float(Seq<char>),
    Boolean(bool),
    Array(Seq<NodeView>),
    Mapping(Seq<(KeyView, NodeView)>),
}

/// The entries of a mapping: a `LinkedHashMap` from spanned keys to nodes,
/// which keeps them in the order in which their keys first came.
#[verifier::external_body]
#[derive(Debug)]
pub struct ValueMap {
    entries: LinkedHashMap<Spanned<String>, SpannedValue>,
}

/// The entries that a map holds, oldest first, each as the views of its key
/// and of its node.
pub uninterp spec fn map_entries(m: ValueMap) -> Seq<(KeyView, NodeView)>;

/// Whether some entry has the key `text`.
pub open spec fn has_key(entries: Seq<(KeyView, NodeView)>, text: Seq<char>) -> bool {
    exists|i: int| 0 <= i < entries.len() && (#[trigger] entries[i]).0.value == text
}

/// The place of an entry with the key `text`.
pub open spec fn key_index(entries: Seq<(KeyView, NodeView)>, text: Seq<char>) -> int {
    choose|i: int| 0 <= i < entries.len() && (#[trigger] entries[i]).0.value == text
}

/// Whether no two entries have the same key.
pub open spec fn keys_distinct(entries: Seq<(KeyView, NodeView)>) -> bool {
    forall|i: int, j: int|
        0 <= i < j < entries.len() ==> (#[trigger] entries[i]).0.value != (
        #[trigger] entries[j]).0.value
}

/// The entries after `key` has been given the node `node`. A new key is
/// added at the end. A key that is already there keeps its first spelling
/// and span, takes the new node, and moves to the end.
pub open spec fn put(entries: Seq<(KeyView, NodeView)>, key: KeyView, node: NodeView) -> Seq<
    (KeyView, NodeView),
> {
    if has_key(entries, key.value) {
        let i = key_index(entries, key.value);
        entries.remove(i).push((entries[i].0, node))
    } else {
        entries.push((key, node))
    }
}

/// The view of a value.
pub open spec fn value_view(v: Value) -> ValueView
    decreases v,
{
    match v {
        Value::String(text) => ValueView::String(text@),
        Value::Integer(i) => ValueView::Integer(i),
        Value::Float(text) => ValueView::Float(text@),
        Value::Boolean(b) => ValueView::Boolean(b),
        Value::Array(items) => ValueView::Array(
            Seq::new(
                items.len() as nat,
                |i: int|
                    if 0 <= i < items.len() {
                        node_view(items[i])
                    } else {
                        arbitrary()
                    },
            ),
        ),
        Value::Mapping(m) => ValueView::Mapping(map_entries(m)),
    }
}

/// The view of a node.
pub closed spec fn node_view(n: SpannedValue) -> NodeView
    decreases n,
{
    SpannedView { start: n.start, end: n.end, value: value_view(n.value) }
}

impl View for Value {
    type V = ValueView;

    open spec fn view(&self) -> ValueView {
        value_view(*self)
    }
}

impl View for ValueMap {
    type V = Seq<(KeyView, NodeView)>;

    open spec fn view(&self) -> Seq<(KeyView, NodeView)> {
        map_entries(*self)
    }
}

impl ValueMap {
    /// `LinkedHashMap::new`: a map that holds no entry.
    #[verifier::external_body]
    fn empty() -> (m: ValueMap)
        ensures
            map_entries(m) == Seq::<(KeyView, NodeView)>::empty(),
    {
        ValueMap { entries: LinkedHashMap::new() }
    }

    /// `LinkedHashMap::insert`. Keys are the same when their texts are. A new
    /// key goes to the end with its node, and `None` comes back. For a key
    /// that is already there the map keeps the key it has, replaces the node,
    /// moves the entry to the end and hands the node it had back.
    #[verifier::external_body]
    fn set(&mut self, key: Spanned<String>, node: SpannedValue) -> (had: Option<SpannedValue>)
        ensures
            map_entries(*final(self)) == put(map_entries(*old(self)), key@, node@),
            had is Some == has_key(map_entries(*old(self)), key@.value),
            had matches Some(n) ==> n@ == map_entries(*old(self))[key_index(
                map_entries(*old(self)),
                key@.value,
            )].1,
    {
        self.entries.insert(key, node)
    }

    /// `LinkedHashMap::len`: the number of entries.
    #[verifier::external_body]
    fn count(&self) -> (n: usize)
        ensures
            n == map_entries(*self).len(),
    {
        self.entries.len()
    }

    /// `LinkedHashMap::get`: the node of the entry whose key has the text
    /// `key`, if there is one.
    #[verifier::external_body]
    fn find(&self, key: &String) -> (found: Option<&SpannedValue>)
        ensures
            found is Some == has_key(map_entries(*self), key@),
            found matches Some(n) ==> n@ == map_entries(*self)[key_index(
                map_entries(*self),
                key@,
            )].1,
    {
        self.entries.get(key)
    }

    /// `LinkedHashMap::iter`, collected: every entry, oldest first.
    #[verifier::external_body]
    fn pairs(&self) -> (all: Vec<(&Spanned<String>, &SpannedValue)>)
        ensures
            all.len() == map_entries(*self).len(),
            forall|i: int|
                0 <= i < all.len() ==> (#[trigger] all[i]).0@ == map_entries(*self)[i].0
                    && all[i].1@ == map_entries(*self)[i].1,
    {
        self.entries.iter().collect()
    }

    /// `LinkedHashMap::clone`: a map with the same entries in the same order.
    #[verifier::external_body]
    fn copy(&self) -> (m: ValueMap)
        ensures
            map_entries(m) == map_entries(*self),
    {
        ValueMap { entries: self.entries.clone() }
    }

    /// A map without entries.
    pub fn new() -> (m: ValueMap)
        ensures
            m@.len() == 0,
    {
        ValueMap::empty()
    }

    /// Gives `key` the node `node`, as [`put`] says, and returns the node
    /// that the key had before.
    pub fn insert(&mut self, key: Spanned<String>, node: SpannedValue) -> (had: Option<
        SpannedValue,
    >)
        ensures
            final(self)@ == put(old(self)@, key@, node@),
            had is Some == has_key(old(self)@, key@.value),
            had matches Some(n) ==> n@ == old(self)@[key_index(old(self)@, key@.value)].1,
    {
        self.set(key, node)
    }

    /// The number of entries.
    pub fn len(&self) -> (n: usize)
        ensures
            n == self@.len(),
    {
        self.count()
    }

    /// The node under the key `key`.
    pub fn get(&self, key: &String) -> (found: Option<&SpannedValue>)
        ensures
            found is Some == has_key(self@, key@),
            found matches Some(n) ==> n@ == self@[key_index(self@, key@)].1,
    {
        self.find(key)
    }

    /// Every entry, in the order of the source.
    pub fn entries(&self) -> (all: Vec<(&Spanned<String>, &SpannedValue)>)
        ensures
            all.len() == self@.len(),
            forall|i: int|
                0 <= i < all.len() ==> (#[trigger] all[i]).0@ == self@[i].0 && all[i].1@
                    == self@[i].1,
    {
        self.pairs()
    }
}

impl Clone for ValueMap {
    fn clone(&self) -> (m: ValueMap)
        ensures
            m@ == self@,
    {
        self.copy()
    }
}

/// A copy of `v`, node for node.
pub fn copy_value(v: &Value) -> (c: Value)
    ensures
        c@ == v@,
    decreases *v,
{
    match v {
        Value::String(text) => Value::String(text.clone()),
        Value::Integer(i) => Value::Integer(*i),
        Value::Float(text) => Value::Float(text.clone()),
        Value::Boolean(b) => Value::Boolean(*b),
        Value::Array(items) => {
            let mut copies: Vec<SpannedValue> = Vec::new();
            let mut i: usize = 0;
            while i < items.len()
                invariant
                    i <= items.len(),
                    decreases_to!(*v => *items),
                    copies.len() == i,
                    forall|j: int| 0 <= j < i ==> node_view(#[trigger] copies[j]) == node_view(items[j]),
                decreases items.len() - i,
            {
                let copy = copy_node(&items[i]);
                copies.push(copy);
                i += 1;
            }
            assert(value_view(Value::Array(copies))->Array_0 =~= value_view(*v)->Array_0);
            Value::Array(copies)
        },
        Value::Mapping(m) => Value::Mapping(m.clone()),
    }
}

/// A copy of the node `n`, with the same span.
pub fn copy_node(n: &SpannedValue) -> (c: SpannedValue)
    ensures
        c@ == n@,
    decreases *n,
{
    Spanned { start: n.start, end: n.end, value: copy_value(&n.value) }
}

impl Clone for Value {
    fn clone(&self) -> (c: Value)
        ensures
            c@ == self@,
    {
        copy_value(self)
    }
}

/// An array's view holds the views of its items, in order.
pub proof fn array_view(items: Vec<SpannedValue>, views: Seq<NodeView>)
    requires
        views.len() == items.len(),
        forall|i: int| 0 <= i < items.len() ==> views[i] == (#[trigger] items[i])@,
    ensures
        Value::Array(items)@ == ValueView::Array(views),
{
    assert(value_view(Value::Array(items))->Array_0 =~= views);
}

/// A node's view, as `node_view` builds it, is its view as a spanned value.
pub proof fn node_view_is_view(n: SpannedValue)
    ensures
        node_view(n) == n@,
{
}

} // verus!
