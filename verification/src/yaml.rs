//! Entity descriptions and how they are decoded from a document tree.
//!
//! The document is a mapping with a sequence under `entities`. Each entity is
//! a mapping with an optional string under `name` and a sequence under
//! `components`. Each component is a mapping with its kind under `type` and,
//! for the kinds that carry data, a mapping of numbers under `data`. Keys that
//! the schema does not name are ignored.

use vstd::prelude::*;
use crate::components::Scalar;
use crate::tree::{error_text, node_of, read_value, yaml_tree, Node};

verus! {

/// One component as a document states it.
#[derive(Clone, Copy, Debug, PartialEq, Eq, Structural)]
pub enum YamlComponent {
    /// Position component with x, y coordinates
    Position { x: Scalar, y: Scalar },
    /// Velocity component with vx, vy components
    Velocity { vx: Scalar, vy: Scalar },
    /// Unit marker component
    Unit,
    /// Vehicle marker component
    Vehicle,
}

/// One entity as a document states it.
#[derive(Debug)]
pub struct YamlEntity {
    /// Optional name for the entity
    pub name: Option<String>,
    /// The components in the order of the document
    pub components: Vec<YamlComponent>,
}

/// The entities of a document, in its order.
#[derive(Debug)]
pub struct YamlEntityList {
    pub entities: Vec<YamlEntity>,
}

/// What a `YamlEntity` holds, as mathematical values.
pub struct EntityView {
    pub name: Option<Seq<char>>,
    pub components: Seq<YamlComponent>,
}

impl View for YamlEntity {
    type V = EntityView;

    open spec fn view(&self) -> EntityView {
        EntityView {
            name: match self.name {
                Some(s) => Some(s@),
                None => None,
            },
            components: self.components@,
        }
    }
}

impl View for YamlEntityList {
    type V = Seq<EntityView>;

    open spec fn view(&self) -> Seq<EntityView> {
        self.entities@.map_values(|e: YamlEntity| e@)
    }
}

/// Why a text is not a document of entities.
#[derive(Clone, Copy, Debug, PartialEq, Eq, Structural)]
pub enum ParseErrorKind {
    /// The text is not one well-formed YAML document.
    Syntax,
    /// A key that the schema requires is absent.
    MissingField,
    /// A value has another shape than the schema gives it.
    TypeMismatch,
    /// A component's `type` is none of the known kinds.
    UnknownComponentKind,
}

/// A failure to read a document.
#[derive(Debug)]
pub struct ParseError {
    pub kind: ParseErrorKind,
    /// The place in the document's order of the entity that is at fault,
    /// where the fault lies in one.
    pub entity: Option<usize>,
    /// The place, among that entity's components, of the component that is
    /// at fault, where the fault lies in one.
    pub component: Option<usize>,
    pub message: String,
}

/// What is wrong with a text, and where: the kind of the fault, and the
/// places of the entity and of the component in which it lies.
pub struct Fault {
    pub kind: ParseErrorKind,
    pub entity: Option<int>,
    pub component: Option<int>,
}

/// A place as a mathematical integer.
pub open spec fn place(at: Option<usize>) -> Option<int> {
    match at {
        Some(i) => Some(i as int),
        None => None,
    }
}

/// The message of an error that the schema gives rise to.
pub open spec fn schema_message(kind: ParseErrorKind) -> Seq<char> {
    match kind {
        ParseErrorKind::Syntax => "malformed document"@,
        ParseErrorKind::MissingField => "missing field"@,
        ParseErrorKind::TypeMismatch => "invalid type"@,
        ParseErrorKind::UnknownComponentKind => "unknown component type"@,
    }
}

impl ParseError {
    /// The fault that the error reports.
    pub open spec fn fault(self) -> Fault {
        Fault { kind: self.kind, entity: place(self.entity), component: place(self.component) }
    }

    /// The error of a tree that breaks the schema in the given way at the
    /// given place.
    pub fn schema(kind: ParseErrorKind, entity: Option<usize>, component: Option<usize>) -> (e:
        ParseError)
        ensures
            e.kind == kind,
            e.entity == entity,
            e.component == component,
            e.message@ == schema_message(kind),
    {
        let message = match kind {
            ParseErrorKind::Syntax => "malformed document".to_owned(),
            ParseErrorKind::MissingField => "missing field".to_owned(),
            ParseErrorKind::TypeMismatch => "invalid type".to_owned(),
            ParseErrorKind::UnknownComponentKind => "unknown component type".to_owned(),
        };
        ParseError { kind, entity, component, message }
    }
}

/// Whether `node` is the string `key`.
pub open spec fn is_key(node: Node, key: Seq<char>) -> bool {
    node matches Node::Text(s) && s@ == key
}

/// The value under the first entry whose key is the string `key`.
pub open spec fn lookup(entries: Seq<(Node, Node)>, key: Seq<char>) -> Option<Node>
    decreases entries.len(),
{
    if entries.len() == 0 {
        None
    } else if is_key(entries[0].0, key) {
        Some(entries[0].1)
    } else {
        lookup(entries.drop_first(), key)
    }
}

/// The number under `key`, which must be present.
pub open spec fn scalar_field(entries: Seq<(Node, Node)>, key: Seq<char>) -> Result<
    Scalar,
    ParseErrorKind,
> {
    match lookup(entries, key) {
        None => Err(ParseErrorKind::MissingField),
        Some(Node::Number(s)) => Ok(s),
        Some(_) => Err(ParseErrorKind::TypeMismatch),
    }
}

/// The two numbers of a component that carries data: `data` must be a
/// mapping that holds both.
pub open spec fn payload(entries: Seq<(Node, Node)>, first: Seq<char>, second: Seq<char>) -> Result<
    (Scalar, Scalar),
    ParseErrorKind,
> {
    match lookup(entries, "data"@) {
        None => Err(ParseErrorKind::MissingField),
        Some(Node::Mapping(fields)) => match scalar_field(fields@, first) {
            Err(k) => Err(k),
            Ok(a) => match scalar_field(fields@, second) {
                Err(k) => Err(k),
                Ok(b) => Ok((a, b)),
            },
        },
        Some(_) => Err(ParseErrorKind::TypeMismatch),
    }
}

/// A marker carries no data: `data` is absent or null.
pub open spec fn no_payload(entries: Seq<(Node, Node)>) -> Result<(), ParseErrorKind> {
    match lookup(entries, "data"@) {
        None => Ok(()),
        Some(Node::Null) => Ok(()),
        Some(_) => Err(ParseErrorKind::TypeMismatch),
    }
}

/// The component of the kind `tag` that the entries describe.
pub open spec fn component_tagged(tag: Seq<char>, entries: Seq<(Node, Node)>) -> Result<
    YamlComponent,
    ParseErrorKind,
> {
    if tag == "Position"@ {
        match payload(entries, "x"@, "y"@) {
            Ok((x, y)) => Ok(YamlComponent::Position { x, y }),
            Err(k) => Err(k),
        }
    } else if tag == "Velocity"@ {
        match payload(entries, "vx"@, "vy"@) {
            Ok((vx, vy)) => Ok(YamlComponent::Velocity { vx, vy }),
            Err(k) => Err(k),
        }
    } else if tag == "Unit"@ {
        match no_payload(entries) {
            Ok(_) => Ok(YamlComponent::Unit),
            Err(k) => Err(k),
        }
    } else if tag == "Vehicle"@ {
        match no_payload(entries) {
            Ok(_) => Ok(YamlComponent::Vehicle),
            Err(k) => Err(k),
        }
    } else {
        Err(ParseErrorKind::UnknownComponentKind)
    }
}

/// The component that a node describes, or how it breaks the schema.
pub open spec fn component_of(node: Node) -> Result<YamlComponent, ParseErrorKind> {
    match node {
        Node::Mapping(entries) => match lookup(entries@, "type"@) {
            None => Err(ParseErrorKind::MissingField),
            Some(Node::Text(tag)) => component_tagged(tag@, entries@),
            Some(_) => Err(ParseErrorKind::TypeMismatch),
        },
        _ => Err(ParseErrorKind::TypeMismatch),
    }
}

/// All the values if every item succeeded, else the place and the error of
/// the first item that failed.
pub open spec fn collect<T, E>(results: Seq<Result<T, E>>) -> Result<Seq<T>, (int, E)>
    decreases results.len(),
{
    if results.len() == 0 {
        Ok(Seq::empty())
    } else {
        match collect(results.drop_last()) {
            Err(failure) => Err(failure),
            Ok(values) => match results.last() {
                Err(e) => Err((results.len() - 1, e)),
                Ok(v) => Ok(values.push(v)),
            },
        }
    }
}

/// The components that a sequence of nodes describes, or the place and the
/// fault of the first node that describes none.
pub open spec fn components_of(nodes: Seq<Node>) -> Result<
    Seq<YamlComponent>,
    (int, ParseErrorKind),
> {
    collect(nodes.map_values(|n: Node| component_of(n)))
}

/// The name of an entity: absent, null or a string.
pub open spec fn name_of(entries: Seq<(Node, Node)>) -> Result<Option<Seq<char>>, ParseErrorKind> {
    match lookup(entries, "name"@) {
        None => Ok(None),
        Some(Node::Null) => Ok(None),
        Some(Node::Text(s)) => Ok(Some(s@)),
        Some(_) => Err(ParseErrorKind::TypeMismatch),
    }
}

/// The entity that a node describes, or how it breaks the schema and, where
/// one of its components does, the place of the first such component.
pub open spec fn entity_of(node: Node) -> Result<EntityView, (ParseErrorKind, Option<int>)> {
    match node {
        Node::Mapping(entries) => match name_of(entries@) {
            Err(k) => Err((k, None)),
            Ok(name) => match lookup(entries@, "components"@) {
                None => Err((ParseErrorKind::MissingField, None)),
                Some(Node::Sequence(items)) => match components_of(items@) {
                    Err((j, k)) => Err((k, Some(j))),
                    Ok(components) => Ok(EntityView { name, components }),
                },
                Some(_) => Err((ParseErrorKind::TypeMismatch, None)),
            },
        },
        _ => Err((ParseErrorKind::TypeMismatch, None)),
    }
}

/// A fault of the document as a whole, outside any entity.
pub open spec fn fault_at_root(kind: ParseErrorKind) -> Fault {
    Fault { kind, entity: None, component: None }
}

/// The entities that a document's root describes, or the first fault in
/// document order.
pub open spec fn document_of(root: Node) -> Result<Seq<EntityView>, Fault> {
    match root {
        Node::Mapping(entries) => match lookup(entries@, "entities"@) {
            None => Err(fault_at_root(ParseErrorKind::MissingField)),
            Some(Node::Sequence(items)) => match collect(
                items@.map_values(|n: Node| entity_of(n)),
            ) {
                Ok(entities) => Ok(entities),
                Err((i, (kind, component))) => Err(Fault { kind, entity: Some(i), component }),
            },
            Some(_) => Err(fault_at_root(ParseErrorKind::TypeMismatch)),
        },
        _ => Err(fault_at_root(ParseErrorKind::TypeMismatch)),
    }
}

/// What parsing a text gives: a function of the text alone.
pub open spec fn parse_outcome(text: Seq<char>) -> Result<Seq<EntityView>, Fault> {
    match yaml_tree(text) {
        None => Err(fault_at_root(ParseErrorKind::Syntax)),
        Some(root) => document_of(root),
    }
}

/// Once a prefix has failed, the whole fails with the same error.
pub proof fn lemma_collect_prefix_failed<T, E>(results: Seq<Result<T, E>>, k: int)
    requires
        0 <= k <= results.len(),
        collect(results.take(k)) is Err,
    ensures
        collect(results) == collect(results.take(k)),
    decreases results.len() - k,
{
    if k == results.len() {
        assert(results.take(k) =~= results);
    } else {
        assert(results.take(k + 1).drop_last() =~= results.take(k));
        lemma_collect_prefix_failed(results, k + 1);
    }
}

/// `collect` succeeds exactly when every item does, and then keeps the
/// items' values in their order; when it fails, it names the first item that
/// failed, with its error.
pub proof fn lemma_collect_characterized<T, E>(results: Seq<Result<T, E>>)
    ensures
        collect(results) is Ok <==> forall|i: int| 0 <= i < results.len() ==> results[i] is Ok,
        collect(results) matches Ok(values) ==> values.len() == results.len() && forall|i: int|
            0 <= i < results.len() ==> results[i] == Ok::<T, E>(values[i]),
        collect(results) matches Err((i, e)) ==> 0 <= i < results.len() && results[i] == Err::<
            T,
            E,
        >(e) && forall|j: int| 0 <= j < i ==> results[j] is Ok,
    decreases results.len(),
{
    if results.len() > 0 {
        let front = results.drop_last();
        lemma_collect_characterized(front);
        let n = results.len() - 1;
        match collect(front) {
            Err((i, e)) => {
                assert(results[i] == front[i]);
                assert forall|j: int| 0 <= j < i implies results[j] is Ok by {
                    assert(results[j] == front[j]);
                }
            },
            Ok(values) => {
                assert forall|j: int| 0 <= j < n implies results[j] is Ok by {
                    assert(results[j] == front[j]);
                }
                match results.last() {
                    Err(e) => {
                        assert(results[n] == Err::<T, E>(e));
                    },
                    Ok(v) => {
                        assert forall|i: int| 0 <= i < results.len() implies results[i] == Ok::<
                            T,
                            E,
                        >(values.push(v)[i]) by {
                            if i < n {
                                assert(results[i] == front[i]);
                            }
                        }
                    },
                }
            },
        }
    }
}

/// The value under the first entry of a mapping whose key is the string
/// `key`, if there is one.
pub fn find_field<'a>(entries: &'a Vec<(Node, Node)>, key: &str) -> (found: Option<&'a Node>)
    ensures
        found is Some <==> lookup(entries@, key@) is Some,
        found matches Some(n) ==> lookup(entries@, key@) == Some(*n),
{
    let wanted = key.to_owned();
    let mut i: usize = 0;
    proof {
        assert(entries@.skip(0) =~= entries@);
    }
    while i < entries.len()
        invariant
            i <= entries.len(),
            wanted@ == key@,
            lookup(entries@, key@) == lookup(entries@.skip(i as int), key@),
        decreases entries.len() - i,
    {
        proof {
            assert(entries@.skip(i as int)[0] == entries@[i as int]);
            assert(entries@.skip(i as int).drop_first() =~= entries@.skip(i + 1));
        }
        match &entries[i].0 {
            Node::Text(s) => {
                if s.eq(&wanted) {
                    return Some(&entries[i].1);
                }
            },
            _ => {},
        }
        i += 1;
    }
    None
}

fn read_scalar(entries: &Vec<(Node, Node)>, key: &str) -> (r: Result<Scalar, ParseErrorKind>)
    ensures
        r == scalar_field(entries@, key@),
{
    match find_field(entries, key) {
        None => Err(ParseErrorKind::MissingField),
        Some(Node::Number(s)) => Ok(*s),
        Some(_) => Err(ParseErrorKind::TypeMismatch),
    }
}

fn read_payload(entries: &Vec<(Node, Node)>, first: &str, second: &str) -> (r: Result<
    (Scalar, Scalar),
    ParseErrorKind,
>)
    ensures
        r == payload(entries@, first@, second@),
{
    match find_field(entries, "data") {
        None => Err(ParseErrorKind::MissingField),
        Some(Node::Mapping(fields)) => match read_scalar(fields, first) {
            Err(k) => Err(k),
            Ok(a) => match read_scalar(fields, second) {
                Err(k) => Err(k),
                Ok(b) => Ok((a, b)),
            },
        },
        Some(_) => Err(ParseErrorKind::TypeMismatch),
    }
}

fn read_no_payload(entries: &Vec<(Node, Node)>) -> (r: Result<(), ParseErrorKind>)
    ensures
        r == no_payload(entries@),
{
    match find_field(entries, "data") {
        None => Ok(()),
        Some(Node::Null) => Ok(()),
        Some(_) => Err(ParseErrorKind::TypeMismatch),
    }
}

fn is_text(s: &String, literal: &str) -> (same: bool)
    ensures
        same == (s@ == literal@),
{
    let other = literal.to_owned();
    s.eq(&other)
}

fn read_component(node: &Node) -> (r: Result<YamlComponent, ParseErrorKind>)
    ensures
        r == component_of(*node),
{
    match node {
        Node::Mapping(entries) => match find_field(entries, "type") {
            None => Err(ParseErrorKind::MissingField),
            Some(Node::Text(tag)) => {
                if is_text(tag, "Position") {
                    match read_payload(entries, "x", "y") {
                        Ok((x, y)) => Ok(YamlComponent::Position { x, y }),
                        Err(k) => Err(k),
                    }
                } else if is_text(tag, "Velocity") {
                    match read_payload(entries, "vx", "vy") {
                        Ok((vx, vy)) => Ok(YamlComponent::Velocity { vx, vy }),
                        Err(k) => Err(k),
                    }
                } else if is_text(tag, "Unit") {
                    match read_no_payload(entries) {
                        Ok(_) => Ok(YamlComponent::Unit),
                        Err(k) => Err(k),
                    }
                } else if is_text(tag, "Vehicle") {
                    match read_no_payload(entries) {
                        Ok(_) => Ok(YamlComponent::Vehicle),
                        Err(k) => Err(k),
                    }
                } else {
                    Err(ParseErrorKind::UnknownComponentKind)
                }
            },
            Some(_) => Err(ParseErrorKind::TypeMismatch),
        },
        _ => Err(ParseErrorKind::TypeMismatch),
    }
}

fn read_components(nodes: &Vec<Node>) -> (r: Result<Vec<YamlComponent>, (usize, ParseErrorKind)>)
    ensures
        match components_of(nodes@) {
            Ok(components) => r matches Ok(got) && got@ == components,
            Err((j, k)) => r matches Err((at, kind)) && at == j && kind == k,
        },
{
    let ghost results = nodes@.map_values(|n: Node| component_of(n));
    let mut components: Vec<YamlComponent> = Vec::new();
    let mut i: usize = 0;
    proof {
        assert(results.take(0) =~= Seq::empty());
    }
    while i < nodes.len()
        invariant
            i <= nodes.len(),
            results == nodes@.map_values(|n: Node| component_of(n)),
            collect(results.take(i as int)) == Ok::<Seq<YamlComponent>, (int, ParseErrorKind)>(
                components@,
            ),
        decreases nodes.len() - i,
    {
        proof {
            assert(results.take(i + 1).drop_last() =~= results.take(i as int));
            assert(results.take(i + 1).last() == component_of(nodes@[i as int]));
        }
        match read_component(&nodes[i]) {
            Ok(c) => {
                components.push(c);
            },
            Err(k) => {
                proof {
                    lemma_collect_prefix_failed(results, i + 1);
                }
                return Err((i, k));
            },
        }
        i += 1;
    }
    proof {
        assert(results.take(i as int) =~= results);
    }
    Ok(components)
}

fn read_name(entries: &Vec<(Node, Node)>) -> (r: Result<Option<String>, ParseErrorKind>)
    ensures
        match name_of(entries@) {
            Ok(None) => r matches Ok(None),
            Ok(Some(name)) => r matches Ok(Some(got)) && got@ == name,
            Err(k) => r == Err::<Option<String>, ParseErrorKind>(k),
        },
{
    match find_field(entries, "name") {
        None => Ok(None),
        Some(Node::Null) => Ok(None),
        Some(Node::Text(s)) => Ok(Some(s.clone())),
        Some(_) => Err(ParseErrorKind::TypeMismatch),
    }
}

fn read_entity(node: &Node) -> (r: Result<YamlEntity, (ParseErrorKind, Option<usize>)>)
    ensures
        match entity_of(*node) {
            Ok(entity) => r matches Ok(got) && got@ == entity,
            Err((k, component)) => r matches Err((kind, at)) && kind == k && place(at)
                == component,
        },
{
    match node {
        Node::Mapping(entries) => match read_name(entries) {
            Err(k) => Err((k, None)),
            Ok(name) => match find_field(entries, "components") {
                None => Err((ParseErrorKind::MissingField, None)),
                Some(Node::Sequence(items)) => match read_components(items) {
                    Err((j, k)) => Err((k, Some(j))),
                    Ok(components) => Ok(YamlEntity { name, components }),
                },
                Some(_) => Err((ParseErrorKind::TypeMismatch, None)),
            },
        },
        _ => Err((ParseErrorKind::TypeMismatch, None)),
    }
}

fn read_entities(nodes: &Vec<Node>) -> (r: Result<Vec<YamlEntity>, ParseError>)
    ensures
        match collect(nodes@.map_values(|n: Node| entity_of(n))) {
            Ok(entities) => r matches Ok(got) && got@.map_values(|e: YamlEntity| e@)
                == entities,
            Err((i, (kind, component))) => r matches Err(e) && e.fault() == (Fault {
                kind,
                entity: Some(i),
                component,
            }) && e.message@ == schema_message(kind),
        },
{
    let ghost results = nodes@.map_values(|n: Node| entity_of(n));
    let mut entities: Vec<YamlEntity> = Vec::new();
    let mut i: usize = 0;
    proof {
        assert(results.take(0) =~= Seq::empty());
        assert(entities@.map_values(|e: YamlEntity| e@) =~= Seq::empty());
    }
    while i < nodes.len()
        invariant
            i <= nodes.len(),
            results == nodes@.map_values(|n: Node| entity_of(n)),
            collect(results.take(i as int)) == Ok::<
                Seq<EntityView>,
                (int, (ParseErrorKind, Option<int>)),
            >(entities@.map_values(|e: YamlEntity| e@)),
        decreases nodes.len() - i,
    {
        proof {
            assert(results.take(i + 1).drop_last() =~= results.take(i as int));
            assert(results.take(i + 1).last() == entity_of(nodes@[i as int]));
        }
        match read_entity(&nodes[i]) {
            Ok(entity) => {
                let ghost before = entities@;
                entities.push(entity);
                proof {
                    assert(entities@.map_values(|e: YamlEntity| e@) =~= before.map_values(
                        |e: YamlEntity| e@,
                    ).push(entity@));
                }
            },
            Err((kind, component)) => {
                proof {
                    lemma_collect_prefix_failed(results, i + 1);
                }
                return Err(ParseError::schema(kind, Some(i), component));
            },
        }
        i += 1;
    }
    proof {
        assert(results.take(i as int) =~= results);
    }
    Ok(entities)
}

/// Whether `got` is what `outcome` asks for: the entities it names, or an
/// error that reports the fault it names.
pub open spec fn agrees(
    got: Result<YamlEntityList, ParseError>,
    outcome: Result<Seq<EntityView>, Fault>,
) -> bool {
    match outcome {
        Ok(entities) => got matches Ok(list) && list@ == entities,
        Err(fault) => got matches Err(e) && e.fault() == fault,
    }
}

/// Decode an entity's description from its node.
pub fn decode_entity(node: &Node) -> (r: Result<YamlEntity, ParseError>)
    ensures
        match entity_of(*node) {
            Ok(entity) => r matches Ok(got) && got@ == entity,
            Err((kind, component)) => r matches Err(e) && e.fault() == (Fault {
                kind,
                entity: None,
                component,
            }) && e.message@ == schema_message(kind),
        },
{
    match read_entity(node) {
        Ok(entity) => Ok(entity),
        Err((kind, component)) => Err(ParseError::schema(kind, None, component)),
    }
}

/// Decode one component from its node.
pub fn decode_component(node: &Node) -> (r: Result<YamlComponent, ParseError>)
    ensures
        match component_of(*node) {
            Ok(component) => r matches Ok(got) && got == component,
            Err(k) => r matches Err(e) && e.fault() == fault_at_root(k) && e.message@
                == schema_message(k),
        },
{
    match read_component(node) {
        Ok(component) => Ok(component),
        Err(k) => Err(ParseError::schema(k, None, None)),
    }
}

/// Decode the entities of a document from its root. The whole tree is
/// validated: the first node that breaks the schema, in document order, gives
/// the error and its place, and then no entity is returned.
pub fn decode_document(root: &Node) -> (r: Result<YamlEntityList, ParseError>)
    ensures
        agrees(r, document_of(*root)),
        r matches Err(e) ==> e.message@ == schema_message(e.kind),
{
    match root {
        Node::Mapping(entries) => match find_field(entries, "entities") {
            None => Err(ParseError::schema(ParseErrorKind::MissingField, None, None)),
            Some(Node::Sequence(items)) => match read_entities(items) {
                Ok(entities) => Ok(YamlEntityList { entities }),
                Err(e) => Err(e),
            },
            Some(_) => Err(ParseError::schema(ParseErrorKind::TypeMismatch, None, None)),
        },
        _ => Err(ParseError::schema(ParseErrorKind::TypeMismatch, None, None)),
    }
}

/// Parse a YAML text into the entities it describes. The text is parsed and
/// validated as a whole before anything is returned. Where the text is not
/// well-formed YAML, the error's message is the parser's own, with the place
/// in the text; where the tree breaks the schema, it is the message of the
/// error's kind.
pub fn parse_entity_list(yaml: &str) -> (r: Result<YamlEntityList, ParseError>)
    ensures
        agrees(r, parse_outcome(yaml@)),
        r matches Err(e) ==> yaml_tree(yaml@) is Some ==> e.message@ == schema_message(e.kind),
{
    match read_value(yaml) {
        Ok(value) => {
            let root = node_of(value);
            decode_document(&root)
        },
        Err(error) => Err(
            ParseError {
                kind: ParseErrorKind::Syntax,
                entity: None,
                component: None,
                message: error_text(&error),
            },
        ),
    }
}

/// Parsing is a function of the text: two results of parsing one text hold
/// the same entities, or report the same fault.
pub proof fn lemma_parse_deterministic(
    text: Seq<char>,
    first: Result<YamlEntityList, ParseError>,
    second: Result<YamlEntityList, ParseError>,
)
    requires
        agrees(first, parse_outcome(text)),
        agrees(second, parse_outcome(text)),
    ensures
        first is Ok <==> second is Ok,
        first matches Ok(a) ==> second matches Ok(b) && a@ == b@,
        first matches Err(a) ==> second matches Err(b) && a.fault() == b.fault(),
{
}

/// Whether `tag` names one of the component kinds.
pub open spec fn known_kind(tag: Seq<char>) -> bool {
    tag == "Position"@ || tag == "Velocity"@ || tag == "Unit"@ || tag == "Vehicle"@
}

/// Whether the entries of a component lack `data` or, in it, one of the two
/// numbers named.
pub open spec fn lacks_number(entries: Seq<(Node, Node)>, first: Seq<char>, second: Seq<char>) -> bool {
    match lookup(entries, "data"@) {
        None => true,
        Some(Node::Mapping(fields)) => lookup(fields@, first) is None || lookup(fields@, second)
            is None,
        Some(_) => false,
    }
}

/// Whether a node states a kind that carries data and lacks a field that
/// the kind requires.
pub open spec fn lacks_required_field(node: Node) -> bool {
    node matches Node::Mapping(entries) && lookup(entries@, "type"@) matches Some(Node::Text(tag))
        && ((tag@ == "Position"@ && lacks_number(entries@, "x"@, "y"@)) || (tag@ == "Velocity"@
        && lacks_number(entries@, "vx"@, "vy"@)))
}

/// A component whose `type` is a string that names no known kind is refused
/// for that reason.
pub proof fn lemma_unknown_kind_refused(node: Node)
    requires
        node matches Node::Mapping(entries) && lookup(entries@, "type"@) matches Some(
            Node::Text(tag),
        ) && !known_kind(tag@),
    ensures
        component_of(node) == Err::<YamlComponent, ParseErrorKind>(
            ParseErrorKind::UnknownComponentKind,
        ),
{
}

/// A component that lacks a field that its kind requires is refused: a
/// missing number is never filled in with a default.
pub proof fn lemma_missing_field_refused(node: Node)
    requires
        lacks_required_field(node),
    ensures
        component_of(node) is Err,
{
    reveal_strlit("Position");
    reveal_strlit("Velocity");
    assert("Position"@[0] == 'P');
    assert("Velocity"@[0] == 'V');
}

/// The node of the `j`-th component listed for the `i`-th entity of a
/// document, where the tree holds one.
pub open spec fn listed_component(root: Node, i: int, j: int) -> Option<Node> {
    match root {
        Node::Mapping(entries) => match lookup(entries@, "entities"@) {
            Some(Node::Sequence(items)) => if 0 <= i < items@.len() {
                match items@[i] {
                    Node::Mapping(fields) => match lookup(fields@, "components"@) {
                        Some(Node::Sequence(listed)) => if 0 <= j < listed@.len() {
                            Some(listed@[j])
                        } else {
                            None
                        },
                        _ => None,
                    },
                    _ => None,
                }
            } else {
                None
            },
            _ => None,
        },
        _ => None,
    }
}

/// Where one component of one entity is refused, the whole document is
/// refused, whatever the other entities hold.
pub proof fn lemma_refused_component_refuses_document(root: Node, i: int, j: int)
    requires
        listed_component(root, i, j) is Some,
        component_of(listed_component(root, i, j)->Some_0) is Err,
    ensures
        document_of(root) is Err,
{
    let entries = root->Mapping_0;
    let items = lookup(entries@, "entities"@)->Some_0->Sequence_0;
    let fields = items@[i]->Mapping_0;
    let listed = lookup(fields@, "components"@)->Some_0->Sequence_0;
    let inner = listed@.map_values(|n: Node| component_of(n));
    lemma_collect_characterized(inner);
    assert(inner[j] is Err);
    assert(components_of(listed@) is Err);
    assert(entity_of(items@[i]) is Err);
    let outer = items@.map_values(|n: Node| entity_of(n));
    lemma_collect_characterized(outer);
    assert(outer[i] is Err);
}

/// A text whose document lists a component that lacks a field that its kind
/// requires is refused.
pub proof fn lemma_text_with_missing_field_refused(text: Seq<char>, i: int, j: int)
    requires
        yaml_tree(text) matches Some(root) && listed_component(root, i, j) matches Some(node)
            && lacks_required_field(node),
    ensures
        parse_outcome(text) is Err,
{
    let root = yaml_tree(text)->Some_0;
    lemma_missing_field_refused(listed_component(root, i, j)->Some_0);
    lemma_refused_component_refuses_document(root, i, j);
}

/// A text whose document lists a component of a kind that is not known is
/// refused.
pub proof fn lemma_text_with_unknown_kind_refused(text: Seq<char>, i: int, j: int)
    requires
        yaml_tree(text) matches Some(root) && listed_component(root, i, j) matches Some(
            Node::Mapping(entries),
        ) && lookup(entries@, "type"@) matches Some(Node::Text(tag)) && !known_kind(tag@),
    ensures
        parse_outcome(text) is Err,
{
    let root = yaml_tree(text)->Some_0;
    lemma_unknown_kind_refused(listed_component(root, i, j)->Some_0);
    lemma_refused_component_refuses_document(root, i, j);
}

} // verus!
