//! A table of entities with one slot per component kind.

use vstd::prelude::*;
use crate::components::{Position, Unit, Vehicle, Velocity};
use crate::yaml::YamlComponent;

verus! {

/// The kinds of component. An entity holds at most one component of a kind.
#[derive(Clone, Copy, Debug, PartialEq, Eq, Structural)]
pub enum ComponentKind {
    Position,
    Velocity,
    Unit,
    Vehicle,
}

/// The kind of a component.
pub open spec fn kind_of(component: YamlComponent) -> ComponentKind {
    match component {
        YamlComponent::Position { .. } => ComponentKind::Position,
        YamlComponent::Velocity { .. } => ComponentKind::Velocity,
        YamlComponent::Unit => ComponentKind::Unit,
        YamlComponent::Vehicle => ComponentKind::Vehicle,
    }
}

/// The components of one entity. An empty slot is `None`: a kind that was
/// never attached is absent, not a default value.
#[derive(Clone, Copy, Debug, PartialEq, Eq, Structural)]
pub struct Slots {
    pub position: Option<Position>,
    pub velocity: Option<Velocity>,
    pub unit: Option<Unit>,
    pub vehicle: Option<Vehicle>,
}

impl Slots {
    /// Whether the slot of `kind` is filled.
    pub open spec fn holds(self, kind: ComponentKind) -> bool {
        match kind {
            ComponentKind::Position => self.position is Some,
            ComponentKind::Velocity => self.velocity is Some,
            ComponentKind::Unit => self.unit is Some,
            ComponentKind::Vehicle => self.vehicle is Some,
        }
    }

    /// The component in the slot of `kind`, where it is filled.
    pub open spec fn value(self, kind: ComponentKind) -> YamlComponent {
        match kind {
            ComponentKind::Position => YamlComponent::Position {
                x: self.position->Some_0.x,
                y: self.position->Some_0.y,
            },
            ComponentKind::Velocity => YamlComponent::Velocity {
                vx: self.velocity->Some_0.vx,
                vy: self.velocity->Some_0.vy,
            },
            ComponentKind::Unit => YamlComponent::Unit,
            ComponentKind::Vehicle => YamlComponent::Vehicle,
        }
    }

    /// No component at all.
    pub fn empty() -> (slots: Slots)
        ensures
            slots@ == Map::<ComponentKind, YamlComponent>::empty(),
    {
        let slots = Slots { position: None, velocity: None, unit: None, vehicle: None };
        assert(slots@ =~= Map::<ComponentKind, YamlComponent>::empty());
        slots
    }

    /// The slots with `component` put into the slot of its kind, in place of
    /// what was there.
    pub fn with(self, component: YamlComponent) -> (slots: Slots)
        ensures
            slots@ == self@.insert(kind_of(component), component),
    {
        let slots = match component {
            YamlComponent::Position { x, y } => Slots {
                position: Some(Position { x, y }),
                velocity: self.velocity,
                unit: self.unit,
                vehicle: self.vehicle,
            },
            YamlComponent::Velocity { vx, vy } => Slots {
                position: self.position,
                velocity: Some(Velocity { vx, vy }),
                unit: self.unit,
                vehicle: self.vehicle,
            },
            YamlComponent::Unit => Slots {
                position: self.position,
                velocity: self.velocity,
                unit: Some(Unit),
                vehicle: self.vehicle,
            },
            YamlComponent::Vehicle => Slots {
                position: self.position,
                velocity: self.velocity,
                unit: self.unit,
                vehicle: Some(Vehicle),
            },
        };
        assert(slots@ =~= self@.insert(kind_of(component), component));
        slots
    }
}

impl View for Slots {
    type V = Map<ComponentKind, YamlComponent>;

    /// The filled slots, keyed by kind.
    open spec fn view(&self) -> Map<ComponentKind, YamlComponent> {
        Map::new(|kind: ComponentKind| self.holds(kind), |kind: ComponentKind| self.value(kind))
    }
}

/// The handle of an entity of a table. A table hands its handles out in the
/// order in which the entities were created.
#[derive(Clone, Copy, Debug, PartialEq, Eq, Structural)]
pub struct EntityId {
    pub index: usize,
}

/// Entities and their components.
#[derive(Debug)]
pub struct EntityTable {
    rows: Vec<Slots>,
}

impl View for EntityTable {
    type V = Seq<Map<ComponentKind, YamlComponent>>;

    /// For each entity, in the order of creation, its components by kind.
    closed spec fn view(&self) -> Seq<Map<ComponentKind, YamlComponent>> {
        self.rows@.map_values(|slots: Slots| slots@)
    }
}

impl EntityTable {
    /// A table without entities.
    pub fn new() -> (table: EntityTable)
        ensures
            table@ == Seq::<Map<ComponentKind, YamlComponent>>::empty(),
    {
        let table = EntityTable { rows: Vec::new() };
        assert(table@ =~= Seq::<Map<ComponentKind, YamlComponent>>::empty());
        table
    }

    /// The number of entities.
    pub fn len(&self) -> (n: usize)
        ensures
            n == self@.len(),
    {
        self.rows.len()
    }

    /// Whether `handle` is one of this table's entities.
    pub fn contains(&self, handle: EntityId) -> (known: bool)
        ensures
            known == (handle.index < self@.len()),
    {
        handle.index < self.rows.len()
    }

    /// Create an entity without components.
    pub fn create_entity(&mut self) -> (handle: EntityId)
        ensures
            final(self)@ == old(self)@.push(Map::<ComponentKind, YamlComponent>::empty()),
            handle.index == old(self)@.len(),
    {
        let handle = EntityId { index: self.rows.len() };
        self.rows.push(Slots::empty());
        assert(self@ =~= old(self)@.push(Map::<ComponentKind, YamlComponent>::empty()));
        handle
    }

    /// Attach a component to an entity. It takes the place of a component of
    /// the same kind that the entity had; the other kinds stay as they are.
    pub fn attach(&mut self, handle: EntityId, component: YamlComponent)
        requires
            handle.index < old(self)@.len(),
        ensures
            final(self)@ == old(self)@.update(
                handle.index as int,
                old(self)@[handle.index as int].insert(kind_of(component), component),
            ),
    {
        let slots = self.rows[handle.index].with(component);
        self.rows.set(handle.index, slots);
        assert(self@ =~= old(self)@.update(
            handle.index as int,
            old(self)@[handle.index as int].insert(kind_of(component), component),
        ));
    }

    /// The components of an entity.
    pub fn slots(&self, handle: EntityId) -> (slots: Slots)
        requires
            handle.index < self@.len(),
        ensures
            slots@ == self@[handle.index as int],
    {
        self.rows[handle.index]
    }
}

} // verus!
