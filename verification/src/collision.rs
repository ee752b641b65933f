use vstd::prelude::*;

verus! {

/// The flags that the physics engine attaches to a collision event.
#[derive(Debug, Clone, Copy, PartialEq, Eq, Structural)]
pub struct ContactFlags {
    /// At least one of the two colliders is a sensor.
    pub sensor: bool,
    /// The event was produced because a collider was removed.
    pub removed: bool,
}

/// A collision event between two entities, each written as its 64-bit id.
#[derive(Debug, Clone, Copy, PartialEq, Eq, Structural)]
pub enum ContactEvent {
    Started(u64, u64, ContactFlags),
    Stopped(u64, u64, ContactFlags),
}

/// A sensor entity and the entity that it is a child of (an enemy and its
/// sensor, for instance).
#[derive(Debug, Clone, Copy, PartialEq, Eq, Structural)]
pub struct SensorParent {
    pub sensor: u64,
    pub parent: u64,
}

/// The parent recorded for `entity` in `table`: that of its first entry, or
/// `None` when `entity` is not a sensor of the table.
pub open spec fn parent_of(table: Seq<SensorParent>, entity: u64) -> Option<u64>
    decreases table.len(),
{
    if table.len() == 0 {
        None
    } else {
        match parent_of(table.drop_last(), entity) {
            Some(p) => Some(p),
            None => if table.last().sensor == entity {
                Some(table.last().parent)
            } else {
                None
            },
        }
    }
}

/// The event is the start of a contact that involves a sensor and nothing
/// else (the flags are exactly "sensor").
pub open spec fn is_sensor_start(event: ContactEvent) -> bool {
    match event {
        ContactEvent::Started(_, _, flags) => flags.sensor && !flags.removed,
        ContactEvent::Stopped(_, _, _) => false,
    }
}

/// What one event contributes: the enemy (the parent of the sensor that was
/// touched, the first entity's sensor taking precedence) and the platform (the
/// other entity of the contact).
pub open spec fn contact_pair(event: ContactEvent, table: Seq<SensorParent>) -> Option<(u64, u64)> {
    match event {
        ContactEvent::Started(first, second, flags) => if flags.sensor && !flags.removed {
            match parent_of(table, first) {
                Some(enemy) => Some((enemy, second)),
                None => match parent_of(table, second) {
                    Some(enemy) => Some((enemy, first)),
                    None => None,
                },
            }
        } else {
            None
        },
        ContactEvent::Stopped(_, _, _) => None,
    }
}

/// The (enemy, platform) pairs of a run of events, in the order of the events.
pub open spec fn contact_pairs(events: Seq<ContactEvent>, table: Seq<SensorParent>) -> Seq<
    (u64, u64),
>
    decreases events.len(),
{
    if events.len() == 0 {
        Seq::empty()
    } else {
        let earlier = contact_pairs(events.drop_last(), table);
        match contact_pair(events.last(), table) {
            Some(pair) => earlier.push(pair),
            None => earlier,
        }
    }
}

/// Pairs up two sequences element by element, as far as the shorter one goes.
pub open spec fn zip_spec(a: Seq<u64>, b: Seq<u64>) -> Seq<(u64, u64)> {
    Seq::new(
        if a.len() <= b.len() {
            a.len()
        } else {
            b.len()
        },
        |i: int| (a[i], b[i]),
    )
}

/// Looks `entity` up among the sensors of `table` and gives its parent.
pub fn sensor_parent(table: &Vec<SensorParent>, entity: u64) -> (parent: Option<u64>)
    ensures
        parent == parent_of(table@, entity),
        parent is None <==> (forall|i: int| 0 <= i < table@.len() ==> table@[i].sensor != entity),
        forall|i: int|
            0 <= i < table@.len() && #[trigger] table@[i].sensor == entity && (forall|j: int|
                0 <= j < i ==> table@[j].sensor != entity) ==> parent == Some(table@[i].parent),
{
    let mut i: usize = 0;
    while i < table.len()
        invariant
            i <= table@.len(),
            parent_of(table@.take(i as int), entity) is None,
        decreases table@.len() - i,
    {
        assert(table@.take(i + 1).drop_last() =~= table@.take(i as int));
        if table[i].sensor == entity {
            proof {
                lemma_parent_of_prefix(table@, entity, i + 1);
                lemma_parent_of_first_entry(table@, entity);
            }
            return Some(table[i].parent);
        }
        i = i + 1;
    }
    assert(table@.take(i as int) =~= table@);
    proof {
        lemma_parent_of_first_entry(table@, entity);
    }
    None
}

/// The parent found for `entity` is that of the first entry of the table for
/// `entity`, wherever it stands and whatever the other entries hold; there is
/// none exactly when no entry is for `entity`.
pub proof fn lemma_parent_of_first_entry(table: Seq<SensorParent>, entity: u64)
    ensures
        parent_of(table, entity) is None <==> (forall|i: int|
            0 <= i < table.len() ==> table[i].sensor != entity),
        forall|i: int|
            0 <= i < table.len() && #[trigger] table[i].sensor == entity && (forall|j: int|
                0 <= j < i ==> table[j].sensor != entity) ==> parent_of(table, entity) == Some(
                table[i].parent,
            ),
    decreases table.len(),
{
    if table.len() > 0 {
        let rest = table.drop_last();
        lemma_parent_of_first_entry(rest, entity);
        assert forall|i: int|
            0 <= i < table.len() && #[trigger] table[i].sensor == entity && (forall|j: int|
                0 <= j < i ==> table[j].sensor != entity) implies parent_of(table, entity) == Some(
            table[i].parent,
        ) by {
            if i < table.len() - 1 {
                assert(rest[i].sensor == entity);
                assert forall|j: int| 0 <= j < i implies rest[j].sensor != entity by {
                    assert(rest[j] == table[j]);
                }
            } else {
                assert forall|j: int| 0 <= j < rest.len() implies rest[j].sensor != entity by {
                    assert(rest[j] == table[j]);
                }
            }
        }
        if forall|i: int| 0 <= i < table.len() ==> table[i].sensor != entity {
            assert forall|j: int| 0 <= j < rest.len() implies rest[j].sensor != entity by {
                assert(rest[j] == table[j]);
            }
        }
        if parent_of(table, entity) is None {
            assert forall|i: int| 0 <= i < table.len() implies table[i].sensor != entity by {
                if i < table.len() - 1 {
                    assert(rest[i] == table[i]);
                }
            }
        }
    }
}

/// A match in a prefix of the table is the match in the whole table.
proof fn lemma_parent_of_prefix(table: Seq<SensorParent>, entity: u64, len: int)
    requires
        0 <= len <= table.len(),
        parent_of(table.take(len), entity) is Some,
    ensures
        parent_of(table, entity) == parent_of(table.take(len), entity),
    decreases table.len() - len,
{
    if len < table.len() {
        assert(table.take(len + 1).drop_last() =~= table.take(len));
        lemma_parent_of_prefix(table, entity, len + 1);
    } else {
        assert(table.take(len) =~= table);
    }
}

/// Goes through the collision events of a frame and records, for each sensor
/// contact that starts, the enemy whose sensor was touched and the platform
/// that touched it, in two lists of the same length.
pub fn sensor_contacts(events: &Vec<ContactEvent>, table: &Vec<SensorParent>) -> (lists: (
    Vec<u64>,
    Vec<u64>,
))
    ensures
        lists.0@ == contact_pairs(events@, table@).map_values(|pair: (u64, u64)| pair.0),
        lists.1@ == contact_pairs(events@, table@).map_values(|pair: (u64, u64)| pair.1),
        lists.0@.len() == lists.1@.len(),
{
    let mut enemies: Vec<u64> = Vec::new();
    let mut platforms: Vec<u64> = Vec::new();
    let mut i: usize = 0;
    while i < events.len()
        invariant
            i <= events@.len(),
            enemies@ == contact_pairs(events@.take(i as int), table@).map_values(
                |pair: (u64, u64)| pair.0,
            ),
            platforms@ == contact_pairs(events@.take(i as int), table@).map_values(
                |pair: (u64, u64)| pair.1,
            ),
        decreases events@.len() - i,
    {
        let ghost before = contact_pairs(events@.take(i as int), table@);
        assert(events@.take(i + 1).drop_last() =~= events@.take(i as int));
        assert(events@.take(i + 1).last() == events@[i as int]);
        match events[i] {
            ContactEvent::Started(first, second, flags) => {
                if flags.sensor && !flags.removed {
                    match sensor_parent(table, first) {
                        Some(enemy) => {
                            enemies.push(enemy);
                            platforms.push(second);
                        },
                        None => {
                            match sensor_parent(table, second) {
                                Some(enemy) => {
                                    enemies.push(enemy);
                                    platforms.push(first);
                                },
                                None => {},
                            }
                        },
                    }
                }
            },
            ContactEvent::Stopped(_, _, _) => {},
        }
        proof {
            let after = contact_pairs(events@.take(i + 1), table@);
            assert(enemies@ =~= after.map_values(|pair: (u64, u64)| pair.0));
            assert(platforms@ =~= after.map_values(|pair: (u64, u64)| pair.1));
        }
        i = i + 1;
    }
    assert(events@.take(i as int) =~= events@);
    (enemies, platforms)
}

/// Pairs each enemy with the platform at the same position, as far as the
/// shorter of the two lists goes.
pub fn assimilation_pairs(enemies: &Vec<u64>, platforms: &Vec<u64>) -> (pairs: Vec<(u64, u64)>)
    ensures
        pairs@ == zip_spec(enemies@, platforms@),
{
    let mut pairs: Vec<(u64, u64)> = Vec::new();
    let mut i: usize = 0;
    while i < enemies.len() && i < platforms.len()
        invariant
            i <= enemies@.len(),
            i <= platforms@.len(),
            pairs@.len() == i,
            forall|k: int| 0 <= k < i ==> pairs@[k] == (enemies@[k], platforms@[k]),
        decreases enemies@.len() - i,
    {
        pairs.push((enemies[i], platforms[i]));
        i = i + 1;
    }
    assert(pairs@ =~= zip_spec(enemies@, platforms@));
    pairs
}

/// Pairing the enemies and the platforms that `sensor_contacts` records gives
/// back every recorded contact, once and in order.
pub proof fn lemma_pairs_round_trip(events: Seq<ContactEvent>, table: Seq<SensorParent>)
    ensures
        zip_spec(
            contact_pairs(events, table).map_values(|pair: (u64, u64)| pair.0),
            contact_pairs(events, table).map_values(|pair: (u64, u64)| pair.1),
        ) == contact_pairs(events, table),
{
    let pairs = contact_pairs(events, table);
    assert(zip_spec(
        pairs.map_values(|pair: (u64, u64)| pair.0),
        pairs.map_values(|pair: (u64, u64)| pair.1),
    ) =~= pairs);
}

/// What one event contributes: nothing unless it is the start of a contact
/// whose flags are exactly "sensor"; then the parent of the first entity with
/// the second entity as platform when the first is a known sensor, else the
/// parent of the second with the first as platform when the second is, else
/// nothing.
pub proof fn lemma_contact_pair_cases(event: ContactEvent, table: Seq<SensorParent>)
    ensures
        !is_sensor_start(event) ==> contact_pair(event, table) is None,
        match event {
            ContactEvent::Started(first, second, flags) => flags.sensor && !flags.removed ==> {
                &&& (forall|enemy: u64|
                    parent_of(table, first) == Some(enemy) ==> contact_pair(event, table) == Some(
                        (enemy, second),
                    ))
                &&& (forall|enemy: u64|
                    parent_of(table, first) is None && parent_of(table, second) == Some(enemy)
                        ==> contact_pair(event, table) == Some((enemy, first)))
                &&& (parent_of(table, first) is None && parent_of(table, second) is None
                    ==> contact_pair(event, table) is None)
            },
            ContactEvent::Stopped(_, _, _) => contact_pair(event, table) is None,
        },
{
}

/// The contacts of a run of events are those of its events, each taken on its
/// own and kept in order: every event that yields a pair adds exactly that
/// pair, none is merged with or dropped for another.
pub proof fn lemma_contact_pairs_filter_map(events: Seq<ContactEvent>, table: Seq<SensorParent>)
    ensures
        contact_pairs(events, table) == events.filter_map(
            |event: ContactEvent| contact_pair(event, table),
        ),
    decreases events.len(),
{
    if events.len() > 0 {
        lemma_contact_pairs_filter_map(events.drop_last(), table);
        let rest = events.drop_last().filter_map(|event: ContactEvent| contact_pair(event, table));
        match contact_pair(events.last(), table) {
            Some(pair) => {
                assert(rest.push(pair) =~= rest + seq![pair]);
            },
            None => {},
        }
    }
}

/// The contacts of two runs of events one after the other are the contacts of
/// the first run followed by those of the second.
pub proof fn lemma_contact_pairs_concat(
    earlier: Seq<ContactEvent>,
    later: Seq<ContactEvent>,
    table: Seq<SensorParent>,
)
    ensures
        contact_pairs(earlier + later, table) == contact_pairs(earlier, table) + contact_pairs(
            later,
            table,
        ),
    decreases later.len(),
{
    if later.len() == 0 {
        assert(earlier + later =~= earlier);
        assert(contact_pairs(earlier, table) + contact_pairs(later, table) =~= contact_pairs(
            earlier,
            table,
        ));
    } else {
        lemma_contact_pairs_concat(earlier, later.drop_last(), table);
        assert((earlier + later).drop_last() =~= earlier + later.drop_last());
        assert((earlier + later).last() == later.last());
        let a = contact_pairs(earlier, table);
        let b = contact_pairs(later.drop_last(), table);
        match contact_pair(later.last(), table) {
            Some(pair) => {
                assert((a + b).push(pair) =~= a + b.push(pair));
            },
            None => {},
        }
    }
}

/// A single event yields its own pair, or nothing.
pub proof fn lemma_contact_pairs_single(event: ContactEvent, table: Seq<SensorParent>)
    ensures
        contact_pairs(seq![event], table) == (match contact_pair(event, table) {
            Some(pair) => seq![pair],
            None => Seq::<(u64, u64)>::empty(),
        }),
{
    assert(seq![event].drop_last() =~= Seq::<ContactEvent>::empty());
    assert(contact_pairs(Seq::<ContactEvent>::empty(), table) == Seq::<(u64, u64)>::empty());
    assert(seq![event].last() == event);
    match contact_pair(event, table) {
        Some(pair) => {
            assert(Seq::<(u64, u64)>::empty().push(pair) =~= seq![pair]);
        },
        None => {},
    }
}

/// Each event contributes at most one contact, and only a starting sensor
/// contact contributes one.
pub proof fn lemma_at_most_one_contact_per_event(events: Seq<ContactEvent>, table: Seq<SensorParent>)
    ensures
        contact_pairs(events, table).len() <= events.len(),
        (forall|i: int| 0 <= i < events.len() ==> !is_sensor_start(#[trigger] events[i]))
            ==> contact_pairs(events, table).len() == 0,
    decreases events.len(),
{
    if events.len() > 0 {
        lemma_at_most_one_contact_per_event(events.drop_last(), table);
        if forall|i: int| 0 <= i < events.len() ==> !is_sensor_start(#[trigger] events[i]) {
            assert(!is_sensor_start(events[events.len() - 1]));
            assert forall|i: int|
                0 <= i < events.drop_last().len() implies !is_sensor_start(
                #[trigger] events.drop_last()[i],
            ) by {
                assert(events.drop_last()[i] == events[i]);
            }
        }
    }
}

} // verus!
