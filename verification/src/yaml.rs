//! YAML values as trees.
use crate::json::{field_models, models, number_read, read_number, Json, JsonV};
use crate::text::same;
use crate::views::views;
use vstd::prelude::*;

verus! {

/// A YAML value.
#[derive(Debug)]
pub enum Node {
    Null,
    Bool(bool),
    Int(i64),
    /// A number that is not an integer, as it is written.
    Real(String),
    Text(String),
    Array(Vec<Node>),
    Hash(Vec<(Node, Node)>),
    /// What is not there, or cannot be read.
    Bad,
}

/// What a [`Node`] stands for.
pub enum NodeV {
    Null,
    Bool(bool),
    Int(i64),
    Real(Seq<char>),
    Text(Seq<char>),
    Array(Seq<NodeV>),
    Hash(Seq<(NodeV, NodeV)>),
    Bad,
}

impl Node {
    /// What the value stands for.
    pub open spec fn model(self) -> NodeV
        decreases self,
    {
        match self {
            Node::Null => NodeV::Null,
            Node::Bool(b) => NodeV::Bool(b),
            Node::Int(n) => NodeV::Int(n),
            Node::Real(t) => NodeV::Real(t@),
            Node::Text(t) => NodeV::Text(t@),
            Node::Array(items) => NodeV::Array(item_models(items@)),
            Node::Hash(pairs) => NodeV::Hash(pair_models(pairs@)),
            Node::Bad => NodeV::Bad,
        }
    }
}

/// What the values of `s` stand for.
pub open spec fn item_models(s: Seq<Node>) -> Seq<NodeV>
    decreases s,
{
    if s.len() == 0 {
        Seq::empty()
    } else {
        item_models(s.drop_last()).push(s.last().model())
    }
}

/// What the pairs of a hash stand for.
pub open spec fn pair_models(s: Seq<(Node, Node)>) -> Seq<(NodeV, NodeV)>
    decreases s,
{
    if s.len() == 0 {
        Seq::empty()
    } else {
        pair_models(s.drop_last()).push((s.last().0.model(), s.last().1.model()))
    }
}

impl View for Node {
    type V = NodeV;

    open spec fn view(&self) -> NodeV {
        self.model()
    }
}

/// The models of a sequence of values are the models of its items, one by one.
pub proof fn lemma_item_models(s: Seq<Node>)
    ensures
        item_models(s) == views(s),
    decreases s.len(),
{
    if s.len() > 0 {
        lemma_item_models(s.drop_last());
        assert(views(s) =~= views(s.drop_last()).push(s.last()@));
    } else {
        assert(views(s) =~= Seq::empty());
    }
}

/// What one pair of a hash stands for.
pub open spec fn pair_view(e: (Node, Node)) -> (NodeV, NodeV) {
    (e.0@, e.1@)
}

/// The models of the pairs of a hash are the models of its pairs, one by one.
pub proof fn lemma_pair_models(s: Seq<(Node, Node)>)
    ensures
        pair_models(s) == s.map_values(|e: (Node, Node)| pair_view(e)),
    decreases s.len(),
{
    let f = |e: (Node, Node)| pair_view(e);
    if s.len() > 0 {
        lemma_pair_models(s.drop_last());
        assert(s.map_values(f) =~= s.drop_last().map_values(f).push(pair_view(s.last())));
    } else {
        assert(s.map_values(f) =~= Seq::empty());
    }
}

/// The value behind the first of the keys, from `i` on, that is the text `key`.
pub open spec fn value_from(pairs: Seq<(NodeV, NodeV)>, key: Seq<char>, i: int) -> NodeV
    decreases pairs.len() - i,
{
    if i < 0 || i >= pairs.len() {
        NodeV::Bad
    } else if pairs[i].0 == NodeV::Text(key) {
        pairs[i].1
    } else {
        value_from(pairs, key, i + 1)
    }
}

impl NodeV {
    /// The value behind the text `key` in a hash; bad where there is none.
    pub open spec fn at(self, key: Seq<char>) -> NodeV {
        match self {
            NodeV::Hash(pairs) => value_from(pairs, key, 0),
            _ => NodeV::Bad,
        }
    }

    /// The text that a text value is.
    pub open spec fn text(self) -> Option<Seq<char>> {
        match self {
            NodeV::Text(t) => Some(t),
            _ => None,
        }
    }

    /// The items of an array; none in what is not an array.
    pub open spec fn items(self) -> Seq<NodeV> {
        match self {
            NodeV::Array(items) => items,
            _ => Seq::empty(),
        }
    }

    /// The pairs of a hash; none in what is not a hash.
    pub open spec fn pairs(self) -> Seq<(NodeV, NodeV)> {
        match self {
            NodeV::Hash(pairs) => pairs,
            _ => Seq::empty(),
        }
    }
}

impl Node {
    /// The value behind the text `key` in a hash; nothing where there is none.
    pub fn get(&self, key: &str) -> (r: Option<&Node>)
        ensures
            match r {
                Some(y) => self@.at(key@) == y@,
                None => self@.at(key@) == NodeV::Bad,
            },
    {
        match self {
            Node::Hash(pairs) => {
                let ghost ps = pair_models(pairs@);
                proof {
                    lemma_pair_models(pairs@);
                }
                let mut i: usize = 0;
                while i < pairs.len()
                    invariant
                        i <= pairs@.len(),
                        ps == pairs@.map_values(|e: (Node, Node)| pair_view(e)),
                        value_from(ps, key@, i as int) == value_from(ps, key@, 0),
                        self@.at(key@) == value_from(ps, key@, 0),
                    decreases pairs@.len() - i,
                {
                    assert(ps[i as int] == pair_view(pairs@[i as int]));
                    match &pairs[i].0 {
                        Node::Text(t) => {
                            if same(t.as_str(), key) {
                                return Some(&pairs[i].1);
                            }
                        },
                        _ => {},
                    }
                    i += 1;
                }
                None
            },
            _ => None,
        }
    }

    /// The text behind the text `key`.
    pub fn get_text(&self, key: &str) -> (r: Option<&String>)
        ensures
            match r {
                Some(t) => self@.at(key@).text() == Some(t@),
                None => self@.at(key@).text() is None,
            },
    {
        match self.get(key) {
            Some(Node::Text(t)) => Some(t),
            _ => None,
        }
    }
}

/// A YAML value as `yaml_rust2` holds it.
#[verifier::external_type_specification]
#[verifier::external_body]
pub struct ExYaml(yaml_rust2::Yaml);

/// The tree that a `yaml_rust2::Yaml` holds; the pairs of a hash in the order of its map.
pub uninterp spec fn yaml_tree(y: yaml_rust2::Yaml) -> NodeV;

/// The documents that `yaml_rust2::YamlLoader` reads from a text, or what it says of a text that is
/// not YAML.
pub uninterp spec fn yaml_documents(text: Seq<char>) -> Result<Seq<NodeV>, Seq<char>>;

/// The trees of some values.
pub open spec fn yaml_trees(s: Seq<yaml_rust2::Yaml>) -> Seq<NodeV> {
    s.map_values(|y: yaml_rust2::Yaml| yaml_tree(y))
}

/// Reads a text with `yaml_rust2::YamlLoader::load_from_str`: there are documents exactly where the
/// text has some, and they hold these trees; the error is what its `Display` prints.
#[verifier::external_body]
fn load_documents(text: &str) -> (r: Result<Vec<yaml_rust2::Yaml>, String>)
    ensures
        match r {
            Ok(docs) => yaml_documents(text@) == Ok::<Seq<NodeV>, Seq<char>>(yaml_trees(docs@)),
            Err(e) => yaml_documents(text@) == Err::<Seq<NodeV>, Seq<char>>(e@),
        },
{
    yaml_rust2::YamlLoader::load_from_str(text).map_err(|e| e.to_string())
}

/// Takes a `yaml_rust2::Yaml` apart into the tree that it holds.
#[verifier::external_body]
fn tree_of_yaml(y: yaml_rust2::Yaml) -> (r: Node)
    ensures
        r@ == yaml_tree(y),
{
    match y {
        yaml_rust2::Yaml::Null => Node::Null,
        yaml_rust2::Yaml::Boolean(b) => Node::Bool(b),
        yaml_rust2::Yaml::Integer(n) => Node::Int(n),
        yaml_rust2::Yaml::Real(t) => Node::Real(t),
        yaml_rust2::Yaml::String(t) => Node::Text(t),
        yaml_rust2::Yaml::Array(a) => Node::Array(a.into_iter().map(tree_of_yaml).collect()),
        yaml_rust2::Yaml::Hash(h) => Node::Hash(h.into_iter().map(|(k, v)| (tree_of_yaml(k), tree_of_yaml(v))).collect()),
        yaml_rust2::Yaml::Alias(_) => Node::Bad,
        yaml_rust2::Yaml::BadValue => Node::Bad,
    }
}

/// The first document of a YAML text, if there is any, or what is wrong with the text.
pub fn parse_yaml(text: &str) -> (r: Result<Option<Node>, String>)
    ensures
        match yaml_documents(text@) {
            Ok(docs) => r is Ok && match r->Ok_0 {
                Some(y) => docs.len() > 0 && y@ == docs[0],
                None => docs.len() == 0,
            },
            Err(e) => r is Err && r->Err_0@ == e,
        },
{
    match load_documents(text) {
        Ok(docs) => {
            let mut rest = docs;
            if rest.len() == 0 {
                return Ok(None);
            }
            let first = rest.remove(0);
            Ok(Some(tree_of_yaml(first)))
        },
        Err(e) => Err(e),
    }
}

/// The JSON value that stands for a YAML value. What cannot be read is null, and so is a number
/// that JSON does not have; pairs whose key is not a text are left out.
pub open spec fn as_json(y: NodeV) -> JsonV
    decreases y,
{
    match y {
        NodeV::Null => JsonV::Null,
        NodeV::Bool(b) => JsonV::Bool(b),
        NodeV::Int(n) => if n >= 0 {
            JsonV::UInt(n as u64)
        } else {
            JsonV::Int(n)
        },
        NodeV::Real(t) => number_read(t),
        NodeV::Text(t) => JsonV::Text(t),
        NodeV::Array(items) => JsonV::Array(as_json_items(items)),
        NodeV::Hash(pairs) => JsonV::Object(as_json_fields(pairs)),
        NodeV::Bad => JsonV::Null,
    }
}

/// The JSON values that stand for some YAML values.
pub open spec fn as_json_items(s: Seq<NodeV>) -> Seq<JsonV>
    decreases s,
{
    if s.len() == 0 {
        Seq::empty()
    } else {
        as_json_items(s.drop_last()).push(as_json(s.last()))
    }
}

/// The fields that stand for the pairs of a hash.
pub open spec fn as_json_fields(s: Seq<(NodeV, NodeV)>) -> Seq<(Seq<char>, JsonV)>
    decreases s,
{
    if s.len() == 0 {
        Seq::empty()
    } else {
        match s.last().0 {
            NodeV::Text(key) => as_json_fields(s.drop_last()).push((key, as_json(s.last().1))),
            _ => as_json_fields(s.drop_last()),
        }
    }
}

/// The JSON value that stands for a YAML value.
pub fn yaml_to_json(y: &Node) -> (r: Json)
    ensures
        r@ == as_json(y@),
    decreases y,
{
    match y {
        Node::Null => Json::Null,
        Node::Bool(b) => Json::Bool(*b),
        Node::Int(n) => if *n >= 0 {
            Json::UInt(*n as u64)
        } else {
            Json::Int(*n)
        },
        Node::Real(t) => read_number(t.as_str()),
        Node::Text(t) => Json::Text(t.clone()),
        Node::Array(items) => Json::Array(json_items(items)),
        Node::Hash(pairs) => Json::Object(json_fields(pairs)),
        Node::Bad => Json::Null,
    }
}

/// The JSON values that stand for some YAML values.
fn json_items(items: &Vec<Node>) -> (r: Vec<Json>)
    ensures
        models(r@) == as_json_items(item_models(items@)),
    decreases items,
{
    let mut r: Vec<Json> = Vec::new();
    let mut i: usize = 0;
    while i < items.len()
        invariant
            i <= items@.len(),
            models(r@) == as_json_items(item_models(items@.take(i as int))),
        decreases items@.len() - i,
    {
        let ghost before = r@;
        assert(decreases_to!(items => items@[i as int]));
        let c = yaml_to_json(&items[i]);
        r.push(c);
        assert(r@.drop_last() =~= before);
        assert(items@.take(i + 1).drop_last() =~= items@.take(i as int));
        assert(item_models(items@.take(i + 1)).drop_last() =~= item_models(
            items@.take(i as int),
        ));
        i += 1;
    }
    assert(items@.take(i as int) =~= items@);
    r
}

/// The fields that stand for the pairs of a hash.
fn json_fields(pairs: &Vec<(Node, Node)>) -> (r: Vec<(String, Json)>)
    ensures
        field_models(r@) == as_json_fields(pair_models(pairs@)),
    decreases pairs,
{
    let mut r: Vec<(String, Json)> = Vec::new();
    let mut i: usize = 0;
    while i < pairs.len()
        invariant
            i <= pairs@.len(),
            field_models(r@) == as_json_fields(pair_models(pairs@.take(i as int))),
        decreases pairs@.len() - i,
    {
        let ghost before = r@;
        assert(decreases_to!(pairs => pairs@[i as int]));
        assert(decreases_to!(pairs@[i as int] => pairs@[i as int].1));
        assert(pairs@.take(i + 1).drop_last() =~= pairs@.take(i as int));
        assert(pair_models(pairs@.take(i + 1)).drop_last() =~= pair_models(
            pairs@.take(i as int),
        ));
        assert(pair_models(pairs@.take(i + 1)).last() == pair_view(pairs@[i as int]));
        match &pairs[i].0 {
            Node::Text(key) => {
                let c = yaml_to_json(&pairs[i].1);
                r.push((key.clone(), c));
                assert(r@.drop_last() =~= before);
            },
            _ => {
                assert(!(pairs@[i as int].0@ is Text));
            },
        }
        i += 1;
    }
    assert(pairs@.take(i as int) =~= pairs@);
    r
}

/// The value behind a key is that of the first pair with this key; without such a pair there is
/// none.
pub proof fn law_values_are_found_by_key(pairs: Seq<(NodeV, NodeV)>, key: Seq<char>, i: int)
    requires
        0 <= i <= pairs.len(),
        forall|k: int| 0 <= k < i ==> (#[trigger] pairs[k]).0 != NodeV::Text(key),
    ensures
        i == pairs.len() ==> NodeV::Hash(pairs).at(key) == NodeV::Bad,
        i < pairs.len() && pairs[i].0 == NodeV::Text(key) ==> NodeV::Hash(pairs).at(key)
            == pairs[i].1,
{
    lemma_value_from(pairs, key, 0, i);
}

proof fn lemma_value_from(pairs: Seq<(NodeV, NodeV)>, key: Seq<char>, from: int, i: int)
    requires
        0 <= from <= i <= pairs.len(),
        forall|k: int| from <= k < i ==> (#[trigger] pairs[k]).0 != NodeV::Text(key),
    ensures
        value_from(pairs, key, from) == value_from(pairs, key, i),
    decreases i - from,
{
    if from < i {
        lemma_value_from(pairs, key, from + 1, i);
    }
}

/// What is read of a value is what it is: the text of a text, the items of an array, the pairs of a
/// hash, and nothing of anything else.
pub proof fn law_values_are_read_by_their_kind(y: NodeV)
    ensures
        y.text() is Some <==> y is Text,
        y is Text ==> y == NodeV::Text(y.text()->0),
        y is Array ==> y == NodeV::Array(y.items()),
        !(y is Array) ==> y.items().len() == 0,
        y is Hash ==> y == NodeV::Hash(y.pairs()),
        !(y is Hash) ==> y.pairs().len() == 0,
        !(y is Hash) ==> forall|key: Seq<char>| #[trigger] y.at(key) == NodeV::Bad,
{
}

/// YAML becomes JSON that says the same: texts, truth values and integers stay, arrays keep their
/// items in order, and what stands behind a text key of a hash stands behind it in the object.
pub proof fn law_yaml_becomes_the_same_json(y: NodeV, key: Seq<char>)
    ensures
        y is Text ==> as_json(y) == JsonV::Text(y->Text_0),
        y is Bool ==> as_json(y) == JsonV::Bool(y->Bool_0),
        y is Int && y->Int_0 >= 0 ==> as_json(y) is UInt && as_json(y)->UInt_0 == y->Int_0,
        y is Int && y->Int_0 < 0 ==> as_json(y) == JsonV::Int(y->Int_0),
        y is Null || y is Bad ==> as_json(y) is Null,
        y is Array ==> {
            &&& as_json(y) is Array
            &&& as_json(y)->Array_0.len() == y->Array_0.len()
            &&& forall|i: int|
                0 <= i < y->Array_0.len() ==> #[trigger] as_json(y)->Array_0[i] == as_json(
                    y->Array_0[i],
                )
        },
        y is Hash ==> {
            &&& as_json(y) is Object
            &&& as_json(y)->Object_0 == as_json_fields(y->Hash_0)
        },
{
    if y is Array {
        lemma_as_json_items(y->Array_0);
    }
}

proof fn lemma_as_json_items(s: Seq<NodeV>)
    ensures
        as_json_items(s).len() == s.len(),
        forall|i: int| 0 <= i < s.len() ==> #[trigger] as_json_items(s)[i] == as_json(s[i]),
    decreases s.len(),
{
    if s.len() > 0 {
        lemma_as_json_items(s.drop_last());
    }
}

/// A field of the object that a hash becomes is there exactly where a pair of the hash has its name
/// as a text key, and has the value of that pair; the fields stand in the order of the pairs.
pub proof fn law_pairs_become_fields(
    a: Seq<(NodeV, NodeV)>,
    b: Seq<(NodeV, NodeV)>,
    name: Seq<char>,
    value: NodeV,
)
    ensures
        as_json_fields(a + b) == as_json_fields(a) + as_json_fields(b),
        as_json_fields(seq![(NodeV::Text(name), value)]) == seq![(name, as_json(value))],
        !(value is Text) ==> as_json_fields(seq![(value, NodeV::Text(name))]).len() == 0,
    decreases b.len(),
{
    assert(seq![(NodeV::Text(name), value)].drop_last() =~= Seq::empty());
    assert(seq![(value, NodeV::Text(name))].drop_last() =~= Seq::empty());
    assert(as_json_fields(Seq::<(NodeV, NodeV)>::empty()) =~= Seq::empty());
    assert(as_json_fields(seq![(NodeV::Text(name), value)]) =~= seq![(name, as_json(value))]);
    if b.len() == 0 {
        assert(a + b =~= a);
        assert(as_json_fields(a) + as_json_fields(b) =~= as_json_fields(a));
    } else {
        assert((a + b).drop_last() =~= a + b.drop_last());
        assert((a + b).last() == b.last());
        law_pairs_become_fields(a, b.drop_last(), name, value);
        assert(as_json_fields(a + b) =~= as_json_fields(a) + as_json_fields(b));
    }
}

} // verus!
