//! Reading and writing catalogs as TOML text.
//!
//! The toml crate parses text into its generic value tree; that tree is
//! rebuilt here as the plain [`Node`] type, and everything from the node
//! inward — checking the catalog schema, collecting the actions, and encoding
//! a catalog back into a node — is verified against the spec functions below.

use vstd::prelude::*;

use crate::catalog::{Action, Tools};

verus! {

/// A TOML document rebuilt as plain data: only the shapes the catalog schema
/// reads are kept apart; every other value kind is `Other`.
pub enum Node {
    /// A string value.
    Str(String),
    /// An array, in document order.
    Arr(Vec<Node>),
    /// A table, as (key, value) entries in the toml crate's iteration order.
    Tbl(Vec<(String, Node)>),
    /// Any other TOML value (integer, float, boolean, datetime).
    Other,
}

/// How a document can fail the catalog schema.
#[derive(Clone, Copy, PartialEq, Eq, Structural, Debug)]
pub enum SchemaError {
    /// The document's top level is not a table.
    NotTable,
    /// The document has no `actions` key.
    MissingActions,
    /// The `actions` value is not an array.
    ActionsNotArray,
    /// An entry of `actions` is not a table.
    EntryNotTable,
    /// An entry has no `action` key.
    MissingActionName,
    /// An entry's `action` value is not a string.
    ActionNameNotString,
    /// An entry has no `tools` key.
    MissingTools,
    /// An entry's `tools` value is not an array.
    ToolsNotArray,
    /// An element of a `tools` array is not a string.
    ToolNotString,
}

/// Why a catalog could not be produced or rendered.
#[derive(Debug)]
pub enum LoadError {
    /// The text is not well-formed TOML; carries the parser's message.
    Syntax(String),
    /// The document is well-formed TOML but not a catalog.
    Schema(SchemaError),
    /// A user catalog file exists but could not be read.
    Io(String),
    /// A catalog could not be rendered as TOML text.
    Render(String),
}

/// The first value under `key`, searching entries front to back.
pub open spec fn lookup(entries: Seq<(String, Node)>, key: Seq<char>) -> Option<Node>
    decreases entries.len(),
{
    if entries.len() == 0 {
        None
    } else if entries[0].0@ == key {
        Some(entries[0].1)
    } else {
        lookup(entries.drop_first(), key)
    }
}

/// The tool names of a `tools` array, or the schema fault of its leftmost
/// non-string element.
pub open spec fn tool_list_of(items: Seq<Node>) -> Result<Seq<Seq<char>>, SchemaError>
    decreases items.len(),
{
    if items.len() == 0 {
        Ok(Seq::empty())
    } else {
        match tool_list_of(items.drop_last()) {
            Ok(rest) => match items.last() {
                Node::Str(s) => Ok(rest.push(s@)),
                _ => Err(SchemaError::ToolNotString),
            },
            Err(e) => Err(e),
        }
    }
}

/// One `actions` entry as an (action name, tool names) pair, or its leftmost
/// schema fault.
pub open spec fn action_of(n: Node) -> Result<(Seq<char>, Seq<Seq<char>>), SchemaError> {
    match n {
        Node::Tbl(entries) => match lookup(entries@, "action"@) {
            Some(Node::Str(name)) => match lookup(entries@, "tools"@) {
                Some(Node::Arr(items)) => match tool_list_of(items@) {
                    Ok(ts) => Ok((name@, ts)),
                    Err(e) => Err(e),
                },
                Some(_) => Err(SchemaError::ToolsNotArray),
                None => Err(SchemaError::MissingTools),
            },
            Some(_) => Err(SchemaError::ActionNameNotString),
            None => Err(SchemaError::MissingActionName),
        },
        _ => Err(SchemaError::EntryNotTable),
    }
}

/// All entries of an `actions` array, in document order, or the schema fault
/// of the leftmost bad entry.
pub open spec fn actions_of(items: Seq<Node>) -> Result<
    Seq<(Seq<char>, Seq<Seq<char>>)>,
    SchemaError,
>
    decreases items.len(),
{
    if items.len() == 0 {
        Ok(Seq::empty())
    } else {
        match actions_of(items.drop_last()) {
            Ok(rest) => match action_of(items.last()) {
                Ok(a) => Ok(rest.push(a)),
                Err(e) => Err(e),
            },
            Err(e) => Err(e),
        }
    }
}

/// What a document means as a catalog: the ordered (action, tools) pairs under
/// its `actions` key, or the schema fault that rules it out. Keys other than
/// the ones the schema reads are ignored.
pub open spec fn spec_catalog_of(n: Node) -> Result<Seq<(Seq<char>, Seq<Seq<char>>)>, SchemaError> {
    match n {
        Node::Tbl(entries) => match lookup(entries@, "actions"@) {
            Some(Node::Arr(items)) => actions_of(items@),
            Some(_) => Err(SchemaError::ActionsNotArray),
            None => Err(SchemaError::MissingActions),
        },
        _ => Err(SchemaError::NotTable),
    }
}

/// A catalog result with the catalog replaced by its model.
pub open spec fn catalog_result_view(r: Result<Tools, SchemaError>) -> Result<
    Seq<(Seq<char>, Seq<Seq<char>>)>,
    SchemaError,
> {
    match r {
        Ok(t) => Ok(t@),
        Err(e) => Err(e),
    }
}

#[verifier::external_type_specification]
#[verifier::external_body]
#[verifier::reject_recursive_types(K)]
#[verifier::reject_recursive_types(V)]
pub struct ExTomlMap<K, V>(toml::map::Map<K, V>);

#[verifier::external_type_specification]
#[verifier::external_body]
pub struct ExTomlValue(toml::Value);

#[verifier::external_type_specification]
#[verifier::external_body]
pub struct ExTomlDeError(toml::de::Error);

#[verifier::external_type_specification]
#[verifier::external_body]
pub struct ExTomlSerError(toml::ser::Error);

/// What toml::from_str makes of this text: the parsed document as a node, or
/// `None` when the text is not well-formed TOML. The parse depends on the
/// text alone.
pub uninterp spec fn toml_doc_of(text: Seq<char>) -> Option<Node>;

/// What toml::to_string makes of this document node: its TOML text, or `None`
/// when the tree cannot be rendered. The rendering depends on the node alone.
pub uninterp spec fn toml_text_of(n: Node) -> Option<Seq<char>>;

/// Relies on toml::from_str: parses TOML text into the toml crate's table
/// representation, rebuilt as a node (always a table at the top), or reports
/// the syntax fault. The result depends on the text alone.
#[verifier::external_body]
fn toml_parse(text: &str) -> (r: Result<Node, toml::de::Error>)
    ensures
        match r {
            Ok(n) => toml_doc_of(text@) == Some(n) && n is Tbl,
            Err(_) => toml_doc_of(text@) is None,
        },
{
    match toml::from_str::<toml::map::Map<String, toml::Value>>(text) {
        Ok(t) => Ok(value_to_node(toml::Value::Table(t))),
        Err(e) => Err(e),
    }
}

/// Relies on the shape of toml::Value: rebuilds the value tree as plain data.
/// Strings, arrays and tables keep their contents, arrays in document order
/// and tables in the toml crate's iteration order; every other value kind
/// becomes `Node::Other`.
#[verifier::external_body]
fn value_to_node(v: toml::Value) -> Node {
    match v {
        toml::Value::String(s) => Node::Str(s),
        toml::Value::Array(items) => Node::Arr(items.into_iter().map(value_to_node).collect()),
        toml::Value::Table(t) => Node::Tbl(
            t.into_iter().map(|(k, val)| (k, value_to_node(val))).collect(),
        ),
        _ => Node::Other,
    }
}

/// Relies on toml::de::Error::message: a human-readable description of what
/// went wrong while parsing.
#[verifier::external_body]
fn de_error_message(e: &toml::de::Error) -> String {
    e.message().to_owned()
}

/// Relies on the shape of toml::Value: the inverse of `value_to_node`.
/// `Node::Other`, which no encoder of this crate produces, becomes a TOML
/// boolean.
#[verifier::external_body]
fn node_to_value(n: Node) -> toml::Value {
    match n {
        Node::Str(s) => toml::Value::String(s),
        Node::Arr(items) => toml::Value::Array(items.into_iter().map(node_to_value).collect()),
        Node::Tbl(entries) => toml::Value::Table(
            entries.into_iter().map(|(k, val)| (k, node_to_value(val))).collect(),
        ),
        Node::Other => toml::Value::Boolean(false),
    }
}

/// Relies on toml::to_string: renders the node's value tree as TOML text, or
/// reports why the tree cannot be rendered. The result depends on the node
/// alone.
#[verifier::external_body]
fn toml_render(n: Node) -> (r: Result<String, toml::ser::Error>)
    ensures
        match r {
            Ok(s) => toml_text_of(n) == Some(s@),
            Err(_) => toml_text_of(n) is None,
        },
{
    toml::to_string(&node_to_value(n))
}

/// Relies on core::fmt::Display for toml::ser::Error: a human-readable
/// description of why rendering failed.
#[verifier::external_body]
fn ser_error_message(e: &toml::ser::Error) -> String {
    format!("{}", e)
}

/// The first value stored under `key`, searching front to back.
fn lookup_node<'a>(entries: &'a Vec<(String, Node)>, key: &str) -> (r: Option<&'a Node>)
    ensures
        match r {
            Some(v) => lookup(entries@, key@) == Some(*v),
            None => lookup(entries@, key@) is None,
        },
{
    let needle: String = key.to_owned();
    let n = entries.len();
    proof {
        assert(entries@.skip(0) =~= entries@);
    }
    for i in 0..n
        invariant
            n == entries@.len(),
            needle@ == key@,
            lookup(entries@, key@) == lookup(entries@.skip(i as int), key@),
    {
        proof {
            assert(entries@.skip(i as int)[0] == entries@[i as int]);
            assert(entries@.skip(i as int).drop_first() =~= entries@.skip(i as int + 1));
        }
        if entries[i].0 == needle {
            return Some(&entries[i].1);
        }
    }
    proof {
        assert(entries@.skip(n as int) =~= Seq::<(String, Node)>::empty());
    }
    None
}

proof fn lemma_tool_list_err_persists(items: Seq<Node>, j: int)
    requires
        0 <= j <= items.len(),
        tool_list_of(items.take(j)) is Err,
    ensures
        tool_list_of(items) == tool_list_of(items.take(j)),
    decreases items.len() - j,
{
    if j == items.len() {
        assert(items.take(j) =~= items);
    } else {
        assert(items.take(j + 1).drop_last() =~= items.take(j));
        lemma_tool_list_err_persists(items, j + 1);
    }
}

proof fn lemma_actions_err_persists(items: Seq<Node>, j: int)
    requires
        0 <= j <= items.len(),
        actions_of(items.take(j)) is Err,
    ensures
        actions_of(items) == actions_of(items.take(j)),
    decreases items.len() - j,
{
    if j == items.len() {
        assert(items.take(j) =~= items);
    } else {
        assert(items.take(j + 1).drop_last() =~= items.take(j));
        lemma_actions_err_persists(items, j + 1);
    }
}

/// The tool names of a `tools` array, exactly as `tool_list_of` has them.
fn tools_from_nodes(items: &Vec<Node>) -> (r: Result<Vec<String>, SchemaError>)
    ensures
        match r {
            Ok(v) => tool_list_of(items@) == Ok::<_, SchemaError>(v.deep_view()),
            Err(e) => tool_list_of(items@) == Err::<Seq<Seq<char>>, _>(e),
        },
{
    let mut out: Vec<String> = Vec::new();
    let n = items.len();
    proof {
        assert(items@.take(0) =~= Seq::<Node>::empty());
        assert(out.deep_view() =~= Seq::<Seq<char>>::empty());
    }
    for i in 0..n
        invariant
            n == items@.len(),
            tool_list_of(items@.take(i as int)) == Ok::<_, SchemaError>(out.deep_view()),
    {
        proof {
            assert(items@.take(i as int + 1).drop_last() =~= items@.take(i as int));
            assert(items@.take(i as int + 1).last() == items@[i as int]);
        }
        match &items[i] {
            Node::Str(s) => {
                out.push(s.clone());
                proof {
                    assert(out.deep_view() =~= tool_list_of(
                        items@.take(i as int + 1),
                    ).unwrap());
                }
            },
            _ => {
                proof {
                    lemma_tool_list_err_persists(items@, i as int + 1);
                }
                return Err(SchemaError::ToolNotString);
            },
        }
    }
    proof {
        assert(items@.take(n as int) =~= items@);
    }
    Ok(out)
}

/// One `actions` entry, exactly as `action_of` has it.
fn action_from_node(n: &Node) -> (r: Result<Action, SchemaError>)
    ensures
        match r {
            Ok(a) => action_of(*n) == Ok::<_, SchemaError>(a@),
            Err(e) => action_of(*n) == Err::<(Seq<char>, Seq<Seq<char>>), _>(e),
        },
{
    match n {
        Node::Tbl(entries) => match lookup_node(entries, "action") {
            Some(Node::Str(name)) => match lookup_node(entries, "tools") {
                Some(Node::Arr(items)) => match tools_from_nodes(items) {
                    Ok(ts) => Ok(Action::new(name.clone(), ts)),
                    Err(e) => Err(e),
                },
                Some(_) => Err(SchemaError::ToolsNotArray),
                None => Err(SchemaError::MissingTools),
            },
            Some(_) => Err(SchemaError::ActionNameNotString),
            None => Err(SchemaError::MissingActionName),
        },
        _ => Err(SchemaError::EntryNotTable),
    }
}

/// All entries of an `actions` array, exactly as `actions_of` has them.
fn actions_from_nodes(items: &Vec<Node>) -> (r: Result<Vec<Action>, SchemaError>)
    ensures
        match r {
            Ok(v) => actions_of(items@) == Ok::<_, SchemaError>(v.deep_view()),
            Err(e) => actions_of(items@) == Err::<Seq<(Seq<char>, Seq<Seq<char>>)>, _>(e),
        },
{
    let mut out: Vec<Action> = Vec::new();
    let n = items.len();
    proof {
        assert(items@.take(0) =~= Seq::<Node>::empty());
        assert(out.deep_view() =~= Seq::<(Seq<char>, Seq<Seq<char>>)>::empty());
    }
    for i in 0..n
        invariant
            n == items@.len(),
            actions_of(items@.take(i as int)) == Ok::<_, SchemaError>(out.deep_view()),
    {
        proof {
            assert(items@.take(i as int + 1).drop_last() =~= items@.take(i as int));
            assert(items@.take(i as int + 1).last() == items@[i as int]);
        }
        match action_from_node(&items[i]) {
            Ok(a) => {
                out.push(a);
                proof {
                    assert(out.deep_view() =~= actions_of(items@.take(i as int + 1)).unwrap());
                }
            },
            Err(e) => {
                proof {
                    lemma_actions_err_persists(items@, i as int + 1);
                }
                return Err(e);
            },
        }
    }
    proof {
        assert(items@.take(n as int) =~= items@);
    }
    Ok(out)
}

/// The catalog a document node holds, exactly as `spec_catalog_of` has it:
/// the ordered actions under its `actions` key, or the leftmost schema fault.
pub fn catalog_of_node(n: &Node) -> (r: Result<Tools, SchemaError>)
    ensures
        catalog_result_view(r) == spec_catalog_of(*n),
{
    match n {
        Node::Tbl(entries) => match lookup_node(entries, "actions") {
            Some(Node::Arr(items)) => match actions_from_nodes(items) {
                Ok(v) => Ok(Tools::new(v)),
                Err(e) => Err(e),
            },
            Some(_) => Err(SchemaError::ActionsNotArray),
            None => Err(SchemaError::MissingActions),
        },
        _ => Err(SchemaError::NotTable),
    }
}

/// What parsing a text as a catalog owes, over the named parse: a syntax
/// fault exactly when the text is not well-formed TOML, and otherwise
/// exactly what the schema walk says of the parsed document — the catalog on
/// success, the schema fault otherwise, never anything else.
pub open spec fn parses_to(text: Seq<char>, r: Result<Tools, LoadError>) -> bool {
    match toml_doc_of(text) {
        None => r matches Err(e) && e is Syntax,
        Some(n) => match r {
            Ok(t) => spec_catalog_of(n) == Ok::<_, SchemaError>(t@),
            Err(e) => match e {
                LoadError::Schema(s) => spec_catalog_of(n) == Err::<
                    Seq<(Seq<char>, Seq<Seq<char>>)>,
                    _,
                >(s),
                _ => false,
            },
        },
    }
}

/// Whether this text parses as a catalog: well-formed TOML that passes the
/// schema walk.
pub open spec fn text_parses(text: Seq<char>) -> bool {
    match toml_doc_of(text) {
        Some(n) => spec_catalog_of(n) is Ok,
        None => false,
    }
}

/// The catalog model this text parses to; meaningful when `text_parses`.
pub open spec fn parsed_model(text: Seq<char>) -> Seq<(Seq<char>, Seq<Seq<char>>)>
    recommends
        text_parses(text),
{
    spec_catalog_of(toml_doc_of(text).unwrap()).unwrap()
}

/// Parses TOML text as a catalog: syntax faults come from the toml crate,
/// schema faults from the verified walk over the parsed document. Success is
/// owed exactly when the named parse and the schema walk both succeed.
pub fn parse_catalog(text: &str) -> (r: Result<Tools, LoadError>)
    ensures
        parses_to(text@, r),
{
    match toml_parse(text) {
        Err(e) => Err(LoadError::Syntax(de_error_message(&e))),
        Ok(node) => match catalog_of_node(&node) {
            Ok(t) => Ok(t),
            Err(e) => Err(LoadError::Schema(e)),
        },
    }
}

/// Whether `n` is a string node holding exactly `s`.
pub open spec fn is_str_with(n: Node, s: Seq<char>) -> bool {
    match n {
        Node::Str(t) => t@ == s,
        _ => false,
    }
}

/// Whether `n` is the canonical document node for the entry `e`: a table of
/// exactly the fields `action` (the name) and `tools` (the names as strings),
/// in that order.
pub open spec fn entry_encodes(n: Node, e: (Seq<char>, Seq<Seq<char>>)) -> bool {
    match n {
        Node::Tbl(fields) => {
            &&& fields@.len() == 2
            &&& fields@[0].0@ == "action"@
            &&& (match fields@[0].1 {
                Node::Str(s) => s@ == e.0,
                _ => false,
            })
            &&& fields@[1].0@ == "tools"@
            &&& (match fields@[1].1 {
                Node::Arr(ts) => {
                    &&& ts@.len() == e.1.len()
                    &&& forall|j: int| 0 <= j < ts@.len() ==> #[trigger] is_str_with(ts@[j], e.1[j])
                },
                _ => false,
            })
        },
        _ => false,
    }
}

/// Whether `n` is the canonical document node for the catalog model `m`: a
/// table whose one key `actions` holds the encoded entries in order.
pub open spec fn encodes(n: Node, m: Seq<(Seq<char>, Seq<Seq<char>>)>) -> bool {
    match n {
        Node::Tbl(top) => {
            &&& top@.len() == 1
            &&& top@[0].0@ == "actions"@
            &&& (match top@[0].1 {
                Node::Arr(items) => {
                    &&& items@.len() == m.len()
                    &&& forall|i: int| #![auto] 0 <= i < m.len() ==> entry_encodes(items@[i], m[i])
                },
                _ => false,
            })
        },
        _ => false,
    }
}

proof fn lemma_tool_list_encoded(ts: Seq<Node>, m: Seq<Seq<char>>)
    requires
        ts.len() == m.len(),
        forall|j: int| 0 <= j < ts.len() ==> #[trigger] is_str_with(ts[j], m[j]),
    ensures
        tool_list_of(ts) == Ok::<_, SchemaError>(m),
    decreases ts.len(),
{
    if ts.len() == 0 {
        assert(m =~= Seq::<Seq<char>>::empty());
    } else {
        lemma_tool_list_encoded(ts.drop_last(), m.drop_last());
        assert(is_str_with(ts[ts.len() - 1], m[m.len() - 1]));
        assert(m.drop_last().push(m.last()) =~= m);
    }
}

proof fn lemma_action_encoded(n: Node, e: (Seq<char>, Seq<Seq<char>>))
    requires
        entry_encodes(n, e),
    ensures
        action_of(n) == Ok::<_, SchemaError>(e),
{
    reveal_strlit("action");
    reveal_strlit("tools");
    assert("action"@.len() == 6);
    assert("tools"@.len() == 5);
    match n {
        Node::Tbl(fields) => {
            assert(fields@[0].0@ != "tools"@);
            assert(lookup(fields@, "tools"@) == lookup(fields@.drop_first(), "tools"@));
            assert(fields@.drop_first()[0] == fields@[1]);
            match fields@[1].1 {
                Node::Arr(ts) => {
                    lemma_tool_list_encoded(ts@, e.1);
                },
                _ => {
                },
            }
        },
        _ => {
        },
    }
}

proof fn lemma_actions_encoded(items: Seq<Node>, m: Seq<(Seq<char>, Seq<Seq<char>>)>)
    requires
        items.len() == m.len(),
        forall|i: int| #![auto] 0 <= i < m.len() ==> entry_encodes(items[i], m[i]),
    ensures
        actions_of(items) == Ok::<_, SchemaError>(m),
    decreases items.len(),
{
    if items.len() == 0 {
        assert(m =~= Seq::<(Seq<char>, Seq<Seq<char>>)>::empty());
    } else {
        lemma_actions_encoded(items.drop_last(), m.drop_last());
        lemma_action_encoded(items.last(), m.last());
        assert(m.drop_last().push(m.last()) =~= m);
    }
}

/// A catalog encoded as a document node decodes back to the same catalog:
/// the round trip through the document structure loses nothing, whatever the
/// catalog holds.
pub proof fn lemma_encode_decode(n: Node, m: Seq<(Seq<char>, Seq<Seq<char>>)>)
    requires
        encodes(n, m),
    ensures
        spec_catalog_of(n) == Ok::<_, SchemaError>(m),
{
    match n {
        Node::Tbl(top) => {
            match top@[0].1 {
                Node::Arr(items) => {
                    lemma_actions_encoded(items@, m);
                },
                _ => {
                },
            }
        },
        _ => {
        },
    }
}

/// The canonical document node for a catalog: one `actions` key holding one
/// table of `action` and `tools` per entry, everything in catalog order.
pub fn catalog_to_node(c: &Tools) -> (n: Node)
    ensures
        encodes(n, c@),
{
    let actions = c.actions();
    let mut items: Vec<Node> = Vec::new();
    let n_actions = actions.len();
    for i in 0..n_actions
        invariant
            n_actions == actions@.len(),
            actions.deep_view() == c@,
            items@.len() == i,
            forall|j: int| #![auto] 0 <= j < i ==> entry_encodes(items@[j], c@[j]),
    {
        let a = &actions[i];
        let tool_names = a.tools();
        let mut ts: Vec<Node> = Vec::new();
        let n_tools = tool_names.len();
        for k in 0..n_tools
            invariant
                n_tools == tool_names@.len(),
                tool_names.deep_view() == a@.1,
                a@ == c@[i as int],
                ts@.len() == k,
                forall|j: int| 0 <= j < k ==> #[trigger] is_str_with(ts@[j], a@.1[j]),
        {
            ts.push(Node::Str(tool_names[k].clone()));
        }
        let mut fields: Vec<(String, Node)> = Vec::new();
        fields.push(("action".to_owned(), Node::Str(a.action().to_owned())));
        fields.push(("tools".to_owned(), Node::Arr(ts)));
        items.push(Node::Tbl(fields));
    }
    let mut top: Vec<(String, Node)> = Vec::new();
    top.push(("actions".to_owned(), Node::Arr(items)));
    Node::Tbl(top)
}

/// Renders a catalog as TOML text: the named rendering of a document node
/// that encodes the catalog exactly (see `catalog_to_node`), or a rendering
/// fault when that rendering has none.
pub fn serialize_catalog(c: &Tools) -> (r: Result<String, LoadError>)
    ensures
        r matches Ok(s) ==> exists|n: Node|
            #[trigger] encodes(n, c@) && toml_text_of(n) == Some(s@),
        r matches Err(e) ==> e is Render && exists|n: Node|
            #[trigger] encodes(n, c@) && toml_text_of(n) is None,
{
    let node = catalog_to_node(c);
    let ghost gn = node;
    match toml_render(node) {
        Ok(s) => {
            proof {
                assert(encodes(gn, c@) && toml_text_of(gn) == Some(s@));
            }
            Ok(s)
        },
        Err(e) => {
            proof {
                assert(encodes(gn, c@) && toml_text_of(gn) is None);
            }
            Err(LoadError::Render(ser_error_message(&e)))
        },
    }
}

/// What a schema fault means, in words.
pub open spec fn schema_message(e: SchemaError) -> Seq<char> {
    match e {
        SchemaError::NotTable => "document is not a table"@,
        SchemaError::MissingActions => "missing 'actions' key"@,
        SchemaError::ActionsNotArray => "'actions' is not an array"@,
        SchemaError::EntryNotTable => "an entry of 'actions' is not a table"@,
        SchemaError::MissingActionName => "an entry has no 'action' key"@,
        SchemaError::ActionNameNotString => "an entry's 'action' is not a string"@,
        SchemaError::MissingTools => "an entry has no 'tools' key"@,
        SchemaError::ToolsNotArray => "an entry's 'tools' is not an array"@,
        SchemaError::ToolNotString => "a tool name is not a string"@,
    }
}

impl SchemaError {
    /// The fault in words, for reporting.
    pub fn message(&self) -> (r: &'static str)
        ensures
            r@ == schema_message(*self),
    {
        match self {
            SchemaError::NotTable => "document is not a table",
            SchemaError::MissingActions => "missing 'actions' key",
            SchemaError::ActionsNotArray => "'actions' is not an array",
            SchemaError::EntryNotTable => "an entry of 'actions' is not a table",
            SchemaError::MissingActionName => "an entry has no 'action' key",
            SchemaError::ActionNameNotString => "an entry's 'action' is not a string",
            SchemaError::MissingTools => "an entry has no 'tools' key",
            SchemaError::ToolsNotArray => "an entry's 'tools' is not an array",
            SchemaError::ToolNotString => "a tool name is not a string",
        }
    }
}

/// What a load fault means, in words.
pub open spec fn load_message(e: LoadError) -> Seq<char> {
    match e {
        LoadError::Syntax(m) => m@,
        LoadError::Schema(s) => schema_message(s),
        LoadError::Io(m) => m@,
        LoadError::Render(m) => m@,
    }
}

impl LoadError {
    /// The fault in words, for reporting.
    pub fn message(&self) -> (r: String)
        ensures
            r@ == load_message(*self),
    {
        match self {
            LoadError::Syntax(m) => m.clone(),
            LoadError::Schema(s) => s.message().to_owned(),
            LoadError::Io(m) => m.clone(),
            LoadError::Render(m) => m.clone(),
        }
    }
}

} // verus!

