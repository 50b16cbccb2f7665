//! The manifest document: a tree of typed nodes, with the one mutation that
//! the library needs (insertion by key) and the typed getters that never
//! fail.
//!
//! Strings, booleans, arrays and dictionaries are interpreted. Every other
//! kind of leaf (numbers, dates, data, identifiers) is carried through as it
//! was read.

use vstd::prelude::*;
use vstd::string::StringExecFns;

verus! {

/// What a node is, as a mathematical value.
pub enum NodeView {
    String(Seq<char>),
    Boolean(bool),
    Array(Seq<NodeView>),
    Dictionary(Seq<(Seq<char>, NodeView)>),
    Opaque(plist::Value),
}

/// A node of a manifest document.
#[derive(Debug)]
pub enum Node {
    String(String),
    Boolean(bool),
    Array(Vec<Node>),
    Dictionary(Dictionary),
    /// A leaf that the library does not interpret.
    Opaque(plist::Value),
}

/// A dictionary of a manifest document: its entries in the order in which
/// their keys were first inserted, no key twice.
#[derive(Debug)]
pub struct Dictionary {
    entries: Vec<(String, Node)>,
}

/// No key occurs twice among `entries`.
pub open spec fn keys_distinct(entries: Seq<(Seq<char>, NodeView)>) -> bool {
    forall|i: int, j: int| 0 <= i < j < entries.len() ==> entries[i].0 != entries[j].0
}

/// The least position from `from` on at which `key` stands in `entries`, or
/// their length where it stands nowhere.
pub open spec fn key_position(entries: Seq<(Seq<char>, NodeView)>, key: Seq<char>, from: int) -> int
    decreases entries.len() - from,
{
    if from < 0 || from >= entries.len() {
        entries.len() as int
    } else if entries[from].0 == key {
        from
    } else {
        key_position(entries, key, from + 1)
    }
}

/// The value that `entries` hold for `key`.
pub open spec fn lookup(entries: Seq<(Seq<char>, NodeView)>, key: Seq<char>) -> Option<NodeView> {
    let at = key_position(entries, key, 0);
    if at < entries.len() {
        Some(entries[at].1)
    } else {
        None
    }
}

/// `entries` after the insertion of `value` for `key`: a key that is present
/// keeps its place and gets the new value, a new key comes last.
pub open spec fn inserted(
    entries: Seq<(Seq<char>, NodeView)>,
    key: Seq<char>,
    value: NodeView,
) -> Seq<(Seq<char>, NodeView)> {
    let at = key_position(entries, key, 0);
    if at < entries.len() {
        entries.update(at, (key, value))
    } else {
        entries.push((key, value))
    }
}

/// The string that `entries` hold for `key`. A value of another type counts
/// as absent.
pub open spec fn string_at(entries: Seq<(Seq<char>, NodeView)>, key: Seq<char>) -> Option<
    Seq<char>,
> {
    match lookup(entries, key) {
        Some(NodeView::String(s)) => Some(s),
        _ => None,
    }
}

/// The dictionary that `entries` hold for `key`. A value of another type
/// counts as absent.
pub open spec fn dictionary_at(entries: Seq<(Seq<char>, NodeView)>, key: Seq<char>) -> Option<
    Seq<(Seq<char>, NodeView)>,
> {
    match lookup(entries, key) {
        Some(NodeView::Dictionary(d)) => Some(d),
        _ => None,
    }
}

/// The strings that `items` consist of, where every item is a string.
pub open spec fn strings_of(items: Seq<NodeView>) -> Option<Seq<Seq<char>>> {
    if forall|i: int| 0 <= i < items.len() ==> (#[trigger] items[i]) is String {
        Some(Seq::new(items.len(), |i: int| items[i]->String_0))
    } else {
        None
    }
}

/// The list of strings that `entries` hold for `key`. A value that is no
/// array, or an array with an item that is no string, counts as absent.
pub open spec fn strings_at(entries: Seq<(Seq<char>, NodeView)>, key: Seq<char>) -> Option<
    Seq<Seq<char>>,
> {
    match lookup(entries, key) {
        Some(NodeView::Array(items)) => strings_of(items),
        _ => None,
    }
}

/// What `key_position` finds holds `key`, and no position before it does.
pub proof fn lemma_key_position(entries: Seq<(Seq<char>, NodeView)>, key: Seq<char>, from: int)
    requires
        0 <= from <= entries.len(),
    ensures
        from <= key_position(entries, key, from) <= entries.len(),
        key_position(entries, key, from) < entries.len() ==> entries[key_position(
            entries,
            key,
            from,
        )].0 == key,
        forall|k: int| from <= k < key_position(entries, key, from) ==> entries[k].0 != key,
    decreases entries.len() - from,
{
    if from < entries.len() && entries[from].0 != key {
        lemma_key_position(entries, key, from + 1);
    }
}

/// A position that holds `key`, with none before it that does, is the one
/// that `key_position` finds.
pub proof fn lemma_key_position_is(
    entries: Seq<(Seq<char>, NodeView)>,
    key: Seq<char>,
    from: int,
    at: int,
)
    requires
        0 <= from <= at <= entries.len(),
        at < entries.len() ==> entries[at].0 == key,
        forall|k: int| from <= k < at ==> entries[k].0 != key,
    ensures
        key_position(entries, key, from) == at,
    decreases entries.len() - from,
{
    if from < at {
        lemma_key_position_is(entries, key, from + 1, at);
    }
}

/// After an insertion the key holds the inserted value.
pub proof fn lemma_lookup_inserted_same(
    entries: Seq<(Seq<char>, NodeView)>,
    key: Seq<char>,
    value: NodeView,
)
    ensures
        lookup(inserted(entries, key, value), key) == Some(value),
{
    let at = key_position(entries, key, 0);
    lemma_key_position(entries, key, 0);
    lemma_key_position_is(inserted(entries, key, value), key, 0, at);
}

/// An insertion leaves what every other key holds as it was.
pub proof fn lemma_lookup_inserted_other(
    entries: Seq<(Seq<char>, NodeView)>,
    key: Seq<char>,
    value: NodeView,
    other: Seq<char>,
)
    requires
        other != key,
    ensures
        lookup(inserted(entries, key, value), other) == lookup(entries, other),
{
    let after = inserted(entries, key, value);
    let at = key_position(entries, other, 0);
    lemma_key_position(entries, key, 0);
    lemma_key_position(entries, other, 0);
    lemma_key_position_is(after, other, 0, if at < entries.len() {
        at
    } else {
        after.len() as int
    });
}

/// An insertion keeps the keys distinct.
pub proof fn lemma_inserted_keys_distinct(
    entries: Seq<(Seq<char>, NodeView)>,
    key: Seq<char>,
    value: NodeView,
)
    requires
        keys_distinct(entries),
    ensures
        keys_distinct(inserted(entries, key, value)),
{
    lemma_key_position(entries, key, 0);
}

impl View for Node {
    type V = NodeView;

    open spec fn view(&self) -> NodeView
        decreases self,
    {
        match self {
            Node::String(s) => NodeView::String(s@),
            Node::Boolean(b) => NodeView::Boolean(*b),
            Node::Array(items) => NodeView::Array(
                Seq::new(
                    items@.len(),
                    |i: int|
                        if 0 <= i < items@.len() {
                            items@[i].view()
                        } else {
                            NodeView::Boolean(false)
                        },
                ),
            ),
            Node::Dictionary(d) => NodeView::Dictionary(d.view()),
            Node::Opaque(v) => NodeView::Opaque(*v),
        }
    }
}

impl View for Dictionary {
    type V = Seq<(Seq<char>, NodeView)>;

    closed spec fn view(&self) -> Seq<(Seq<char>, NodeView)>
        decreases self,
    {
        Seq::new(
            self.entries@.len(),
            |i: int|
                if 0 <= i < self.entries@.len() {
                    (self.entries@[i].0@, self.entries@[i].1.view())
                } else {
                    (Seq::empty(), NodeView::Boolean(false))
                },
        )
    }
}

impl Node {
    /// The string that this node is, if it is one.
    pub fn as_string(&self) -> (r: Option<&String>)
        ensures
            match r {
                Some(s) => self@ == NodeView::String(s@),
                None => !(self@ is String),
            },
    {
        match self {
            Node::String(s) => Some(s),
            _ => None,
        }
    }

    /// The items of this node, if it is an array.
    pub fn as_array(&self) -> (r: Option<&Vec<Node>>)
        ensures
            match r {
                Some(items) => self@ == NodeView::Array(items_view(items@)),
                None => !(self@ is Array),
            },
    {
        match self {
            Node::Array(items) => {
                assert(self@->Array_0 =~= items_view(items@));
                Some(items)
            },
            _ => None,
        }
    }

    /// The dictionary that this node is, if it is one.
    pub fn as_dictionary(&self) -> (r: Option<&Dictionary>)
        ensures
            match r {
                Some(d) => self@ == NodeView::Dictionary(d@),
                None => !(self@ is Dictionary),
            },
    {
        match self {
            Node::Dictionary(d) => Some(d),
            _ => None,
        }
    }

    /// The strings that this node lists, if it is an array of strings.
    pub fn as_strings(&self) -> (r: Option<Vec<String>>)
        ensures
            match r {
                Some(list) => self@ is Array && strings_of(self@->Array_0) == Some(
                    list.deep_view(),
                ),
                None => !(self@ is Array) || strings_of(self@->Array_0) is None,
            },
    {
        match self {
            Node::Array(items) => {
                assert(self@->Array_0 =~= items_view(items@));
                let mut list: Vec<String> = Vec::new();
                let mut i: usize = 0;
                while i < items.len()
                    invariant
                        self@ == NodeView::Array(items_view(items@)),
                        0 <= i <= items.len(),
                        list.len() == i,
                        list.deep_view().len() == i,
                        forall|j: int|
                            0 <= j < i ==> (#[trigger] items@[j])@ == NodeView::String(
                                list.deep_view()[j],
                            ),
                    decreases items.len() - i,
                {
                    match &items[i] {
                        Node::String(s) => {
                            list.push(s.clone());
                        },
                        _ => {
                            assert(!(items_view(items@)[i as int] is String));
                            return None;
                        },
                    }
                    i += 1;
                }
                proof {
                    let views = items_view(items@);
                    assert forall|j: int| 0 <= j < views.len() implies (#[trigger] views[j]) is String by {}
                    assert(strings_of(views)->0 =~= list.deep_view());
                }
                Some(list)
            },
            _ => None,
        }
    }
}

/// The views of the items of an array, in order.
pub open spec fn items_view(items: Seq<Node>) -> Seq<NodeView> {
    Seq::new(
        items.len(),
        |i: int|
            if 0 <= i < items.len() {
                items[i]@
            } else {
                NodeView::Boolean(false)
            },
    )
}

impl Dictionary {
    #[verifier::type_invariant]
    spec fn keys_unique(&self) -> bool {
        forall|i: int, j: int|
            0 <= i < j < self.entries@.len() ==> self.entries@[i].0@ != self.entries@[j].0@
    }

    /// A dictionary without entries.
    pub fn new() -> (d: Dictionary)
        ensures
            d@ == Seq::<(Seq<char>, NodeView)>::empty(),
    {
        let d = Dictionary { entries: Vec::new() };
        d
    }

    /// The number of entries.
    pub fn len(&self) -> (n: usize)
        ensures
            n == self@.len(),
            keys_distinct(self@),
    {
        proof {
            use_type_invariant(self);
        }
        self.entries.len()
    }

    /// The position of `key` among the entries, or their number where the
    /// key is absent.
    fn position(&self, key: &String) -> (at: usize)
        ensures
            at == key_position(self@, key@, 0),
            at <= self.entries@.len(),
            self.entries@.len() == self@.len(),
    {
        let n = self.entries.len();
        let mut at: usize = 0;
        while at < n
            invariant
                n == self.entries@.len(),
                n == self@.len(),
                0 <= at <= n,
                key_position(self@, key@, 0) == key_position(self@, key@, at as int),
            decreases n - at,
        {
            if self.entries[at].0 == *key {
                return at;
            }
            at += 1;
        }
        at
    }

    /// The value that the dictionary holds for `key`.
    pub fn get(&self, key: &str) -> (r: Option<&Node>)
        ensures
            match r {
                Some(node) => lookup(self@, key@) == Some(node@),
                None => lookup(self@, key@) is None,
            },
    {
        let owned = String::from_str(key);
        let at = self.position(&owned);
        if at < self.entries.len() {
            Some(&self.entries[at].1)
        } else {
            None
        }
    }

    /// The string that the dictionary holds for `key`. A value of another
    /// type counts as absent.
    pub fn get_string(&self, key: &str) -> (r: Option<String>)
        ensures
            match r {
                Some(s) => string_at(self@, key@) == Some(s@),
                None => string_at(self@, key@) is None,
            },
    {
        match self.get(key) {
            Some(Node::String(s)) => Some(s.clone()),
            _ => None,
        }
    }

    /// The dictionary that this one holds for `key`. A value of another type
    /// counts as absent.
    pub fn get_dictionary(&self, key: &str) -> (r: Option<&Dictionary>)
        ensures
            match r {
                Some(d) => dictionary_at(self@, key@) == Some(d@),
                None => dictionary_at(self@, key@) is None,
            },
    {
        match self.get(key) {
            Some(Node::Dictionary(d)) => Some(d),
            _ => None,
        }
    }

    /// The list of strings that the dictionary holds for `key`. A value that
    /// is no array of strings counts as absent.
    pub fn get_strings(&self, key: &str) -> (r: Option<Vec<String>>)
        ensures
            match r {
                Some(list) => strings_at(self@, key@) == Some(list.deep_view()),
                None => strings_at(self@, key@) is None,
            },
    {
        match self.get(key) {
            Some(node) => node.as_strings(),
            None => None,
        }
    }

    /// Inserts `value` for `key`. A key that is present keeps its place and
    /// gets the new value; a new key comes last.
    pub fn insert(&mut self, key: String, value: Node)
        ensures
            final(self)@ == inserted(old(self)@, key@, value@),
    {
        proof {
            use_type_invariant(&*self);
        }
        let at = self.position(&key);
        let mut entries: Vec<(String, Node)> = Vec::new();
        core::mem::swap(&mut self.entries, &mut entries);
        if at < entries.len() {
            entries.set(at, (key, value));
        } else {
            entries.push((key, value));
        }
        proof {
            lemma_key_position(old(self)@, key@, 0);
            assert forall|i: int, j: int| 0 <= i < j < entries@.len() implies entries@[i].0@
                != entries@[j].0@ by {
                if i < old(self)@.len() {
                    assert(old(self)@[i].0 == old(self).entries@[i].0@);
                }
                if j < old(self)@.len() {
                    assert(old(self)@[j].0 == old(self).entries@[j].0@);
                }
            }
        }
        self.entries = entries;
    }
}

/// A document as the property-list codec holds it, node for node: strings,
/// booleans, arrays and dictionaries become the nodes of the same kind, the
/// entries of a dictionary in their order, and every other value is carried
/// as it is. Nothing is claimed here; `crate::codec` names the result.
#[verifier::external_body]
pub(crate) fn node_from_value(value: plist::Value) -> Node {
    match value {
        plist::Value::String(s) => Node::String(s),
        plist::Value::Boolean(b) => Node::Boolean(b),
        plist::Value::Array(items) => Node::Array(items.into_iter().map(node_from_value).collect()),
        plist::Value::Dictionary(d) => Node::Dictionary(
            Dictionary { entries: d.into_iter().map(|(k, v)| (k, node_from_value(v))).collect() },
        ),
        other => Node::Opaque(other),
    }
}

/// The reverse of `node_from_value`, node for node. Nothing is claimed here;
/// `crate::codec` names the result.
#[verifier::external_body]
pub(crate) fn value_from_node(node: &Node) -> plist::Value {
    match node {
        Node::String(s) => plist::Value::String(s.clone()),
        Node::Boolean(b) => plist::Value::Boolean(*b),
        Node::Array(items) => plist::Value::Array(items.iter().map(value_from_node).collect()),
        Node::Dictionary(d) => plist::Value::Dictionary(
            d.entries.iter().map(|(k, v)| (k.clone(), value_from_node(v))).collect(),
        ),
        Node::Opaque(value) => value.clone(),
    }
}

} // verus!
