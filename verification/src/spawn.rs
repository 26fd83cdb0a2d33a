//! Spawning the entities of a document into a table.
//!
//! A document is parsed and validated as a whole first. Only then are its
//! entities created, in document order, each with its components attached in
//! the order in which they are listed.
//!
//! A description may list two components of one kind. That is accepted, not
//! refused: an entity has one slot for each kind, and the component listed
//! later overwrites the one listed earlier.

use vstd::prelude::*;
use crate::table::{kind_of, ComponentKind, EntityId, EntityTable};
use crate::tree::yaml_tree;
use crate::yaml::{
    parse_entity_list, parse_outcome, schema_message, EntityView, ParseError, YamlComponent,
    YamlEntity, YamlEntityList,
};

verus! {

/// The slots of an entity after the components were attached in order: a
/// later component takes the place of an earlier one of its kind.
pub open spec fn slots_of(components: Seq<YamlComponent>) -> Map<ComponentKind, YamlComponent>
    decreases components.len(),
{
    if components.len() == 0 {
        Map::empty()
    } else {
        slots_of(components.drop_last()).insert(kind_of(components.last()), components.last())
    }
}

/// The rows that the entities of a document add to a table.
pub open spec fn rows_of(entities: Seq<EntityView>) -> Seq<Map<ComponentKind, YamlComponent>> {
    entities.map_values(|e: EntityView| slots_of(e.components))
}

/// Whether `handles` are the `count` entities created next after the first
/// `start` ones, in the order of creation.
pub open spec fn consecutive(handles: Seq<EntityId>, start: int, count: int) -> bool {
    &&& handles.len() == count
    &&& forall|i: int| 0 <= i < count ==> (#[trigger] handles[i]).index == start + i
}

/// An entity holds a component of a kind exactly if its description lists
/// one, and then it holds the last one listed of that kind.
pub proof fn lemma_last_write_wins(components: Seq<YamlComponent>, kind: ComponentKind)
    ensures
        slots_of(components).contains_key(kind) <==> exists|i: int|
            0 <= i < components.len() && kind_of(#[trigger] components[i]) == kind,
        slots_of(components).contains_key(kind) ==> exists|i: int|
            0 <= i < components.len() && slots_of(components)[kind] == #[trigger] components[i]
                && kind_of(components[i]) == kind && forall|j: int|
                i < j < components.len() ==> kind_of(#[trigger] components[j]) != kind,
    decreases components.len(),
{
    if components.len() > 0 {
        let front = components.drop_last();
        let n = components.len() - 1;
        lemma_last_write_wins(front, kind);
        if kind_of(components.last()) == kind {
            assert(kind_of(components[n]) == kind);
            assert(slots_of(components)[kind] == components[n]);
        } else if slots_of(front).contains_key(kind) {
            let i = choose|i: int|
                0 <= i < front.len() && slots_of(front)[kind] == #[trigger] front[i] && kind_of(
                    front[i],
                ) == kind && forall|j: int|
                    i < j < front.len() ==> kind_of(#[trigger] front[j]) != kind;
            assert(components[i] == front[i]);
            assert forall|j: int| i < j < components.len() implies kind_of(
                #[trigger] components[j],
            ) != kind by {
                if j < n {
                    assert(components[j] == front[j]);
                }
            }
        } else {
            assert forall|i: int| 0 <= i < components.len() implies kind_of(
                #[trigger] components[i],
            ) != kind by {
                if i < n {
                    assert(components[i] == front[i]);
                }
            }
        }
    }
}

/// The row of the `i`-th entity of a document, among the rows that the
/// document adds behind those of `before`, is what attaching its components
/// in order gives; the rows of `before` stay as they were.
pub proof fn lemma_spawned_rows(
    before: Seq<Map<ComponentKind, YamlComponent>>,
    entities: Seq<EntityView>,
    i: int,
)
    requires
        0 <= i < entities.len(),
    ensures
        (before + rows_of(entities)).len() == before.len() + entities.len(),
        (before + rows_of(entities))[before.len() + i] == slots_of(entities[i].components),
        forall|k: int| 0 <= k < before.len() ==> (before + rows_of(entities))[k] == before[k],
{
}

/// Create one entity and attach the components of its description in order.
pub fn spawn_single_entity(table: &mut EntityTable, entity: &YamlEntity) -> (handle: EntityId)
    ensures
        final(table)@ == old(table)@.push(slots_of(entity@.components)),
        handle.index == old(table)@.len(),
{
    let handle = table.create_entity();
    let ghost components = entity.components@;
    let mut i: usize = 0;
    proof {
        assert(components.take(0) =~= Seq::empty());
    }
    while i < entity.components.len()
        invariant
            i <= entity.components.len(),
            components == entity.components@,
            handle.index == old(table)@.len(),
            table@ == old(table)@.push(slots_of(components.take(i as int))),
        decreases entity.components.len() - i,
    {
        table.attach(handle, entity.components[i]);
        proof {
            assert(components.take(i + 1).drop_last() =~= components.take(i as int));
            assert(table@ =~= old(table)@.push(slots_of(components.take(i + 1))));
        }
        i += 1;
    }
    proof {
        assert(components.take(i as int) =~= components);
    }
    handle
}

/// Create the entities of a parsed document in its order, and give their
/// handles in the same order.
pub fn spawn_entities(table: &mut EntityTable, list: &YamlEntityList) -> (handles: Vec<EntityId>)
    ensures
        final(table)@ == old(table)@ + rows_of(list@),
        consecutive(handles@, old(table)@.len() as int, list@.len() as int),
{
    let mut handles: Vec<EntityId> = Vec::new();
    let mut i: usize = 0;
    proof {
        assert(old(table)@ + rows_of(list@.take(0)) =~= old(table)@);
    }
    while i < list.entities.len()
        invariant
            i <= list.entities.len(),
            list.entities@.len() == list@.len(),
            table@ == old(table)@ + rows_of(list@.take(i as int)),
            consecutive(handles@, old(table)@.len() as int, i as int),
        decreases list.entities.len() - i,
    {
        let handle = spawn_single_entity(table, &list.entities[i]);
        handles.push(handle);
        proof {
            assert(list@[i as int] == list.entities@[i as int]@);
            assert(rows_of(list@.take(i + 1)) =~= rows_of(list@.take(i as int)).push(
                slots_of(list@[i as int].components),
            ));
            assert(table@ =~= old(table)@ + rows_of(list@.take(i + 1)));
        }
        i += 1;
    }
    proof {
        assert(list@.take(i as int) =~= list@);
    }
    handles
}

/// Spawn the entities that a YAML text describes and give their handles, one
/// for each entity of the text, in its order.
///
/// A text that is not a valid document creates nothing: the table stays as
/// it was, and the error says what is wrong.
///
/// ```yaml
/// entities:
///   - name: "player"
///     components:
///       - type: Position
///         data:
///           x: 10.0
///           y: 20.0
///       - type: Velocity
///         data:
///           vx: 1.0
///           vy: 0.0
///       - type: Unit
/// ```
pub fn spawn_from_yaml(table: &mut EntityTable, yaml: &str) -> (r: Result<
    Vec<EntityId>,
    ParseError,
>)
    ensures
        match parse_outcome(yaml@) {
            Ok(entities) => {
                &&& r matches Ok(handles)
                &&& consecutive(handles@, old(table)@.len() as int, entities.len() as int)
                &&& final(table)@ == old(table)@ + rows_of(entities)
            },
            Err(fault) => {
                &&& r matches Err(e)
                &&& e.fault() == fault
                &&& final(table)@ == old(table)@
            },
        },
        r matches Err(e) ==> yaml_tree(yaml@) is Some ==> e.message@ == schema_message(e.kind),
{
    match parse_entity_list(yaml) {
        Ok(list) => Ok(spawn_entities(table, &list)),
        Err(e) => Err(e),
    }
}

/// Spawn the entities that a YAML text describes, as `spawn_from_yaml` does,
/// without giving their handles.
pub fn spawn_yaml_entities(table: &mut EntityTable, yaml: &str) -> (r: Result<(), ParseError>)
    ensures
        match parse_outcome(yaml@) {
            Ok(entities) => r is Ok && final(table)@ == old(table)@ + rows_of(entities),
            Err(fault) => r matches Err(e) && e.fault() == fault && final(table)@ == old(
                table,
            )@,
        },
        r matches Err(e) ==> yaml_tree(yaml@) is Some ==> e.message@ == schema_message(e.kind),
{
    match spawn_from_yaml(table, yaml) {
        Ok(_) => Ok(()),
        Err(e) => Err(e),
    }
}

} // verus!
