//! The entities that a fresh world starts with.

use vstd::prelude::*;
use crate::components::Scalar;
use crate::table::{ComponentKind, EntityId, EntityTable};
use crate::yaml::YamlComponent;

verus! {

/// The bits of 0.0.
pub const ZERO_BITS: u64 = 0;

/// The bits of 1.0.
pub const ONE_BITS: u64 = 0x3FF0_0000_0000_0000;

/// The bits of 2.0.
pub const TWO_BITS: u64 = 0x4000_0000_0000_0000;

/// The bits of 10.0.
pub const TEN_BITS: u64 = 0x4024_0000_0000_0000;

/// The position (`x`, `y`) as a component, from the bits of the two numbers.
pub open spec fn position_at(x: u64, y: u64) -> YamlComponent {
    YamlComponent::Position { x: Scalar { bits: x }, y: Scalar { bits: y } }
}

/// The velocity (`vx`, `vy`) as a component, from the bits of the two numbers.
pub open spec fn velocity_of(vx: u64, vy: u64) -> YamlComponent {
    YamlComponent::Velocity { vx: Scalar { bits: vx }, vy: Scalar { bits: vy } }
}

/// The first starting entity: at the origin, moving by (1, 2) each tick.
pub open spec fn mover() -> Map<ComponentKind, YamlComponent> {
    Map::empty().insert(ComponentKind::Position, position_at(ZERO_BITS, ZERO_BITS)).insert(
        ComponentKind::Velocity,
        velocity_of(ONE_BITS, TWO_BITS),
    )
}

/// The second starting entity: at (10, 10), with no velocity.
pub open spec fn landmark() -> Map<ComponentKind, YamlComponent> {
    Map::empty().insert(ComponentKind::Position, position_at(TEN_BITS, TEN_BITS))
}

/// Setup: spawn the two starting entities, the mover first, and give their
/// handles.
pub fn setup_system(table: &mut EntityTable) -> (handles: (EntityId, EntityId))
    ensures
        final(table)@ == old(table)@.push(mover()).push(landmark()),
        handles.0.index == old(table)@.len(),
        handles.1.index == old(table)@.len() + 1,
{
    let origin = Scalar { bits: ZERO_BITS };
    let far = Scalar { bits: TEN_BITS };
    let first = table.create_entity();
    table.attach(first, YamlComponent::Position { x: origin, y: origin });
    table.attach(
        first,
        YamlComponent::Velocity { vx: Scalar { bits: ONE_BITS }, vy: Scalar { bits: TWO_BITS } },
    );
    let second = table.create_entity();
    table.attach(second, YamlComponent::Position { x: far, y: far });
    assert(table@ =~= old(table)@.push(mover()).push(landmark()));
    (first, second)
}

} // verus!
