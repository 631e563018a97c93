//! Schema descriptions and the registry that collects the named ones.

use vstd::prelude::*;
use crate::text::same_text;

verus! {

/// Where a parameter is read from.
#[derive(Clone, Copy, Debug, PartialEq, Eq, Structural)]
pub enum MetaParamIn {
    Query,
    Header,
    Path,
    Cookie,
}

/// The description of a type's shape: its kind, an optional format that
/// qualifies the kind, and, for an array, the schema of its items.
#[derive(Debug, PartialEq, Eq)]
pub struct MetaSchema {
    pub ty: &'static str,
    pub format: Option<&'static str>,
    pub items: Option<Box<MetaSchemaRef>>,
}

/// A schema given in place, or the name of one held by the registry.
#[derive(Debug, PartialEq, Eq)]
pub enum MetaSchemaRef {
    Inline(Box<MetaSchema>),
    Reference(String),
}

/// The mathematical content of a [`MetaSchema`].
pub ghost struct MetaSchemaView {
    pub ty: Seq<char>,
    pub format: Option<Seq<char>>,
    pub items: Option<Box<MetaSchemaRefView>>,
}

/// The mathematical content of a [`MetaSchemaRef`].
pub ghost enum MetaSchemaRefView {
    Inline(Box<MetaSchemaView>),
    Reference(Seq<char>),
}

/// The content of `schema`.
pub open spec fn schema_view(schema: MetaSchema) -> MetaSchemaView
    decreases schema,
{
    MetaSchemaView {
        ty: schema.ty@,
        format: match schema.format {
            Some(format) => Some(format@),
            None => None,
        },
        items: match schema.items {
            Some(items) => Some(Box::new(schema_ref_view(*items))),
            None => None,
        },
    }
}

/// The content of `schema_ref`.
pub open spec fn schema_ref_view(schema_ref: MetaSchemaRef) -> MetaSchemaRefView
    decreases schema_ref,
{
    match schema_ref {
        MetaSchemaRef::Inline(schema) => MetaSchemaRefView::Inline(Box::new(schema_view(*schema))),
        MetaSchemaRef::Reference(name) => MetaSchemaRefView::Reference(name@),
    }
}

impl View for MetaSchema {
    type V = MetaSchemaView;

    open spec fn view(&self) -> MetaSchemaView {
        schema_view(*self)
    }
}

impl View for MetaSchemaRef {
    type V = MetaSchemaRefView;

    open spec fn view(&self) -> MetaSchemaRefView {
        schema_ref_view(*self)
    }
}

impl MetaSchemaView {
    /// A schema of kind `ty` with nothing else set.
    pub open spec fn of_type(ty: Seq<char>) -> MetaSchemaView {
        MetaSchemaView { ty, format: None, items: None }
    }

    /// A schema of kind `ty` qualified by `format`.
    pub open spec fn of_type_with_format(ty: Seq<char>, format: Seq<char>) -> MetaSchemaView {
        MetaSchemaView { ty, format: Some(format), items: None }
    }

    /// The schema of an array whose items follow `items`.
    pub open spec fn array_of(items: MetaSchemaRefView) -> MetaSchemaView {
        MetaSchemaView { ty: "array"@, format: None, items: Some(Box::new(items)) }
    }
}

impl MetaSchema {
    /// A schema of kind `ty`.
    pub fn new(ty: &'static str) -> (schema: MetaSchema)
        ensures
            schema@ == MetaSchemaView::of_type(ty@),
    {
        MetaSchema { ty, format: None, items: None }
    }

    /// A schema of kind `ty` qualified by `format`.
    pub fn new_with_format(ty: &'static str, format: &'static str) -> (schema: MetaSchema)
        ensures
            schema@ == MetaSchemaView::of_type_with_format(ty@, format@),
    {
        MetaSchema { ty, format: Some(format), items: None }
    }

    /// The schema of an array whose items follow `items`.
    pub fn array_of(items: MetaSchemaRef) -> (schema: MetaSchema)
        ensures
            schema@ == MetaSchemaView::array_of(items@),
    {
        MetaSchema { ty: "array", format: None, items: Some(Box::new(items)) }
    }
}

/// What a registry holds: names with their schemas, in the order in which
/// they were registered.
pub type Entries = Seq<(Seq<char>, MetaSchemaView)>;

/// Whether `entries` holds a schema under `name`.
pub open spec fn has_name(entries: Entries, name: Seq<char>) -> bool {
    exists|i: int| 0 <= i < entries.len() && #[trigger] entries[i].0 == name
}

/// No name is held twice.
pub open spec fn distinct_names(entries: Entries) -> bool {
    forall|i: int, j: int|
        0 <= i < entries.len() && 0 <= j < entries.len() && i != j ==> #[trigger] entries[i].0
            != #[trigger] entries[j].0
}

/// How many entries are held under `name`.
pub open spec fn occurrences(entries: Entries, name: Seq<char>) -> nat
    decreases entries.len(),
{
    if entries.len() == 0 {
        0
    } else {
        occurrences(entries.drop_last(), name) + if entries.last().0 == name {
            1nat
        } else {
            0nat
        }
    }
}

/// `entries` once `name` is sure to be registered: unchanged when the name is
/// already there, and otherwise with `schema` added under it.
pub open spec fn ensure_entry(entries: Entries, name: Seq<char>, schema: MetaSchemaView) -> Entries {
    if has_name(entries, name) {
        entries
    } else {
        entries.push((name, schema))
    }
}

/// `entries` after `name` was registered `times` times with `schema`.
pub open spec fn ensure_entry_repeatedly(
    entries: Entries,
    name: Seq<char>,
    schema: MetaSchemaView,
    times: nat,
) -> Entries
    decreases times,
{
    if times == 0 {
        entries
    } else {
        ensure_entry(ensure_entry_repeatedly(entries, name, schema, (times - 1) as nat), name, schema)
    }
}

/// The schema held under `name`, if there is one.
pub open spec fn lookup(entries: Entries, name: Seq<char>) -> Option<MetaSchemaView> {
    if has_name(entries, name) {
        Some(entries[choose|i: int| 0 <= i < entries.len() && #[trigger] entries[i].0 == name].1)
    } else {
        None
    }
}

/// Whether every name that `schema_ref` refers to, at any depth, is held in
/// `entries`.
pub open spec fn resolves(schema_ref: MetaSchemaRefView, entries: Entries) -> bool
    decreases schema_ref,
{
    match schema_ref {
        MetaSchemaRefView::Inline(schema) => match schema.items {
            Some(items) => resolves(*items, entries),
            None => true,
        },
        MetaSchemaRefView::Reference(name) => has_name(entries, name),
    }
}

/// With distinct names, a name that is held is held exactly once, and a name
/// that is not held is held zero times.
pub proof fn lemma_occurrences_of_distinct(entries: Entries, name: Seq<char>)
    requires
        distinct_names(entries),
    ensures
        occurrences(entries, name) == if has_name(entries, name) {
            1nat
        } else {
            0nat
        },
    decreases entries.len(),
{
    if entries.len() > 0 {
        let before = entries.drop_last();
        let last = entries.len() - 1;
        assert(distinct_names(before)) by {
            assert forall|i: int, j: int|
                0 <= i < before.len() && 0 <= j < before.len() && i != j implies #[trigger] before[i].0
                != #[trigger] before[j].0 by {
                assert(before[i] == entries[i]);
                assert(before[j] == entries[j]);
            }
        }
        lemma_occurrences_of_distinct(before, name);
        if entries.last().0 == name {
            assert(entries[last].0 == name);
            if has_name(before, name) {
                let i = choose|i: int| 0 <= i < before.len() && #[trigger] before[i].0 == name;
                assert(before[i] == entries[i]);
                assert(entries[i].0 != entries[last].0);
            }
        } else {
            if has_name(before, name) {
                let i = choose|i: int| 0 <= i < before.len() && #[trigger] before[i].0 == name;
                assert(entries[i].0 == name);
            }
            if has_name(entries, name) {
                let i = choose|i: int| 0 <= i < entries.len() && #[trigger] entries[i].0 == name;
                assert(before[i].0 == name);
            }
        }
    }
}

/// Registering a name leaves the names distinct and the name held exactly
/// once, whether or not it was held before.
pub proof fn lemma_ensure_entry_holds_once(entries: Entries, name: Seq<char>, schema: MetaSchemaView)
    requires
        distinct_names(entries),
    ensures
        distinct_names(ensure_entry(entries, name, schema)),
        has_name(ensure_entry(entries, name, schema), name),
        occurrences(ensure_entry(entries, name, schema), name) == 1,
{
    let after = ensure_entry(entries, name, schema);
    if !has_name(entries, name) {
        assert(after[entries.len() as int].0 == name);
        assert forall|i: int, j: int|
            0 <= i < after.len() && 0 <= j < after.len() && i != j implies #[trigger] after[i].0
            != #[trigger] after[j].0 by {
            if i < entries.len() {
                assert(after[i] == entries[i]);
            }
            if j < entries.len() {
                assert(after[j] == entries[j]);
            }
        }
    }
    lemma_occurrences_of_distinct(after, name);
}

/// Registering a name a second time changes nothing, whatever schema the
/// second registration brings.
pub proof fn lemma_ensure_entry_idempotent(
    entries: Entries,
    name: Seq<char>,
    schema: MetaSchemaView,
    again: MetaSchemaView,
)
    ensures
        ensure_entry(ensure_entry(entries, name, schema), name, again) == ensure_entry(
            entries,
            name,
            schema,
        ),
{
    let after = ensure_entry(entries, name, schema);
    if !has_name(entries, name) {
        assert(after[entries.len() as int].0 == name);
    }
}

/// Registering a name any number of times, at least once, gives what one
/// registration gives.
pub proof fn lemma_ensure_entry_repeatedly(
    entries: Entries,
    name: Seq<char>,
    schema: MetaSchemaView,
    times: nat,
)
    requires
        times >= 1,
    ensures
        ensure_entry_repeatedly(entries, name, schema, times) == ensure_entry(entries, name, schema),
    decreases times,
{
    if times > 1 {
        lemma_ensure_entry_repeatedly(entries, name, schema, (times - 1) as nat);
        lemma_ensure_entry_idempotent(entries, name, schema, schema);
    } else {
        assert(ensure_entry_repeatedly(entries, name, schema, 0) == entries);
    }
}

/// The named schemas collected so far. A name is held at most once, and what
/// was registered stays.
pub struct Registry {
    schemas: Vec<(String, MetaSchema)>,
}

impl Registry {
    /// A registry is well formed when it holds each name at most once.
    pub open spec fn wf(&self) -> bool {
        distinct_names(self@)
    }

    /// The names and schemas held, in the order of registration.
    pub closed spec fn view(&self) -> Entries {
        Seq::new(self.schemas.len() as nat, |i: int| (self.schemas[i].0@, self.schemas[i].1@))
    }

    /// An empty registry.
    pub fn new() -> (registry: Registry)
        ensures
            registry@ == Seq::<(Seq<char>, MetaSchemaView)>::empty(),
            registry.wf(),
    {
        Registry { schemas: Vec::new() }
    }

    /// The number of schemas held.
    pub fn len(&self) -> (n: usize)
        ensures
            n == self@.len(),
    {
        self.schemas.len()
    }

    fn position(&self, name: &str) -> (found: Option<usize>)
        ensures
            match found {
                Some(i) => i < self@.len() && self@[i as int].0 == name@,
                None => !has_name(self@, name@),
            },
    {
        let mut i: usize = 0;
        while i < self.schemas.len()
            invariant
                i <= self.schemas.len(),
                forall|j: int| 0 <= j < i ==> (#[trigger] self@[j]).0 != name@,
            decreases self.schemas.len() - i,
        {
            if same_text(self.schemas[i].0.as_str(), name) {
                return Some(i);
            }
            i += 1;
        }
        None
    }

    /// Whether a schema is held under `name`.
    pub fn contains(&self, name: &str) -> (held: bool)
        ensures
            held == has_name(self@, name@),
    {
        self.position(name).is_some()
    }

    /// The schema held under `name`.
    pub fn get(&self, name: &str) -> (schema: Option<&MetaSchema>)
        requires
            self.wf(),
        ensures
            match schema {
                Some(schema) => lookup(self@, name@) == Some(schema@),
                None => lookup(self@, name@).is_none(),
            },
    {
        match self.position(name) {
            Some(i) => {
                proof {
                    let k = choose|k: int| 0 <= k < self@.len() && #[trigger] self@[k].0 == name@;
                    assert(k == i) by {
                        if k != i {
                            assert(self@[k].0 != self@[i as int].0);
                        }
                    }
                }
                Some(&self.schemas[i].1)
            },
            None => None,
        }
    }

    /// Makes sure that a schema is held under `name`: `schema` is added when
    /// the name is new, and nothing changes when it is already held.
    pub fn register_schema(&mut self, name: String, schema: MetaSchema)
        requires
            old(self).wf(),
        ensures
            final(self).wf(),
            final(self)@ == ensure_entry(old(self)@, name@, schema@),
            occurrences(final(self)@, name@) == 1,
    {
        proof {
            lemma_ensure_entry_holds_once(self@, name@, schema@);
        }
        if self.position(name.as_str()).is_none() {
            self.schemas.push((name, schema));
            assert(self@ =~= old(self)@.push((name@, schema@)));
        }
    }
}

} // verus!
