//! Deferred changes to the set of entities. Passes queue them while they
//! work on a snapshot; the queue is run against the store at a safe point.
use vstd::prelude::*;
use crate::components::{Components, EntityId};
use crate::store::Store;

verus! {

#[derive(Clone, Debug, PartialEq, Eq)]
pub enum Command {
    /// Create an entity with these components.
    Spawn(Components),
    /// Destroy an entity, if it still exists.
    Despawn(EntityId),
    /// Put these components on an entity, if it still exists.
    Insert(EntityId, Components),
}

/// How many of the commands create an entity.
pub open spec fn spawn_count(commands: Seq<Command>) -> nat
    decreases commands.len(),
{
    if commands.len() == 0 {
        0
    } else {
        spawn_count(commands.drop_last()) + if commands.last() is Spawn { 1nat } else { 0nat }
    }
}

/// The records after one command. `fresh` is the identity that a spawn
/// gives to its entity. Commands on entities that are gone do nothing.
pub open spec fn after_command(records: Map<u64, Components>, command: Command, fresh: u64) -> Map<u64, Components> {
    match command {
        Command::Spawn(record) => records.insert(fresh, record),
        Command::Despawn(id) => records.remove(id),
        Command::Insert(id, patch) => if records.dom().contains(id) {
            records.insert(id, records[id].merged_spec(patch))
        } else {
            records
        },
    }
}

/// The records after all commands, in order. `spawned` holds the identity
/// of each created entity, in the order of the spawn commands.
pub open spec fn after_commands(records: Map<u64, Components>, commands: Seq<Command>, spawned: Seq<u64>) -> Map<u64, Components>
    decreases commands.len(),
{
    if commands.len() == 0 {
        records
    } else if commands.last() is Spawn {
        if spawned.len() == 0 {
            records
        } else {
            after_command(
                after_commands(records, commands.drop_last(), spawned.drop_last()),
                commands.last(),
                spawned.last(),
            )
        }
    } else {
        after_command(after_commands(records, commands.drop_last(), spawned), commands.last(), 0)
    }
}

/// The parts joined end to end.
pub open spec fn flat(parts: Seq<Seq<Command>>) -> Seq<Command>
    decreases parts.len(),
{
    if parts.len() == 0 {
        Seq::empty()
    } else {
        flat(parts.drop_last()) + parts.last()
    }
}

pub proof fn lemma_flat_push(parts: Seq<Seq<Command>>, part: Seq<Command>)
    ensures
        flat(parts.push(part)) == flat(parts) + part,
{
    assert(parts.push(part).drop_last() == parts);
}

/// A command that brings neither a ship nor an enemy into the game, and
/// no projectile but one of `flying`: a despawn, or the spawn of an entity
/// without a player and without an enemy component, that carries no
/// projectile if its record is not among `flying`.
pub open spec fn harmless_but(flying: Set<Components>, command: Command) -> bool {
    command is Despawn || (command is Spawn && command->Spawn_0.player is None && command->Spawn_0.enemy is None && (
    command->Spawn_0.projectile is None || flying.contains(command->Spawn_0)))
}

/// Every command of the queue is harmless but for the projectiles of
/// `flying`.
pub open spec fn all_harmless_but(flying: Set<Components>, queue: Seq<Command>) -> bool {
    forall|k: int| 0 <= k < queue.len() ==> harmless_but(flying, #[trigger] queue[k])
}

/// A command that brings neither a ship nor an enemy into the game: a
/// despawn, or the spawn of an entity without a player and without an
/// enemy component.
pub open spec fn harmless(command: Command) -> bool {
    harmless_but(Set::full(), command)
}

/// Every command of the queue is harmless.
pub open spec fn all_harmless(queue: Seq<Command>) -> bool {
    all_harmless_but(Set::full(), queue)
}

/// Parts that are harmless but for the projectiles of `flying` make a
/// whole that is.
pub proof fn lemma_flat_harmless(flying: Set<crate::components::Components>, parts: Seq<Seq<Command>>)
    requires
        forall|i: int| 0 <= i < parts.len() ==> all_harmless_but(flying, #[trigger] parts[i]),
    ensures
        all_harmless_but(flying, flat(parts)),
    decreases parts.len(),
{
    if parts.len() > 0 {
        let head = parts.drop_last();
        assert forall|i: int| 0 <= i < head.len() implies all_harmless_but(flying, #[trigger] head[i]) by {
            assert(head[i] == parts[i]);
        }
        lemma_flat_harmless(flying, head);
        assert(all_harmless_but(flying, parts[parts.len() - 1]));
        lemma_joined_harmless(flying, flat(head), parts.last());
    }
}

/// A queue that is harmless but for the projectiles of `flying` stays so
/// when commands that are so are queued behind it.
pub proof fn lemma_joined_harmless(flying: Set<crate::components::Components>, queue: Seq<Command>, more: Seq<Command>)
    requires
        all_harmless_but(flying, queue),
        all_harmless_but(flying, more),
    ensures
        all_harmless_but(flying, queue + more),
{
    assert forall|k: int| 0 <= k < (queue + more).len() implies harmless_but(flying, #[trigger] (queue + more)[k]) by {
        if k < queue.len() {
            assert((queue + more)[k] == queue[k]);
        } else {
            assert((queue + more)[k] == more[k - queue.len()]);
        }
    }
}

/// A harmless queue brings no ship into the game: an entity that has a
/// player component after the queue has run was there before, with the
/// same record.
pub proof fn lemma_harmless_adds_no_ship(
    records: Map<u64, Components>,
    queue: Seq<Command>,
    spawned: Seq<u64>,
    id: u64,
)
    requires
        all_harmless(queue),
        spawned.len() == spawn_count(queue),
        after_commands(records, queue, spawned).dom().contains(id),
        after_commands(records, queue, spawned)[id].player is Some,
    ensures
        records.dom().contains(id),
        records[id] == after_commands(records, queue, spawned)[id],
    decreases queue.len(),
{
    if queue.len() > 0 {
        let head = queue.drop_last();
        let last = queue.last();
        assert(harmless(queue[queue.len() - 1]));
        assert forall|k: int| 0 <= k < head.len() implies harmless(#[trigger] head[k]) by {
            assert(head[k] == queue[k]);
        }
        if last is Spawn {
            let ids = spawned.drop_last();
            let before = after_commands(records, head, ids);
            assert(after_commands(records, queue, spawned) == before.insert(spawned.last(), last->Spawn_0));
            lemma_harmless_adds_no_ship(records, head, ids, id);
        } else {
            let before = after_commands(records, head, spawned);
            assert(after_commands(records, queue, spawned) == before.remove(last->Despawn_0));
            lemma_harmless_adds_no_ship(records, head, spawned, id);
        }
    }
}

/// A harmless queue brings no enemy into the game: an entity that has an
/// enemy component after the queue has run was there before, with the
/// same record.
pub proof fn lemma_harmless_adds_no_enemy(
    records: Map<u64, Components>,
    queue: Seq<Command>,
    spawned: Seq<u64>,
    id: u64,
)
    requires
        all_harmless(queue),
        spawned.len() == spawn_count(queue),
        after_commands(records, queue, spawned).dom().contains(id),
        after_commands(records, queue, spawned)[id].enemy is Some,
    ensures
        records.dom().contains(id),
        records[id] == after_commands(records, queue, spawned)[id],
    decreases queue.len(),
{
    if queue.len() > 0 {
        let head = queue.drop_last();
        let last = queue.last();
        assert(harmless(queue[queue.len() - 1]));
        assert forall|k: int| 0 <= k < head.len() implies harmless(#[trigger] head[k]) by {
            assert(head[k] == queue[k]);
        }
        if last is Spawn {
            let ids = spawned.drop_last();
            let before = after_commands(records, head, ids);
            assert(after_commands(records, queue, spawned) == before.insert(spawned.last(), last->Spawn_0));
            lemma_harmless_adds_no_enemy(records, head, ids, id);
        } else {
            let before = after_commands(records, head, spawned);
            assert(after_commands(records, queue, spawned) == before.remove(last->Despawn_0));
            lemma_harmless_adds_no_enemy(records, head, spawned, id);
        }
    }
}

/// What is in a part is in the whole.
pub proof fn lemma_flat_contains(parts: Seq<Seq<Command>>, i: int, command: Command)
    requires
        0 <= i < parts.len(),
        parts[i].contains(command),
    ensures
        flat(parts).contains(command),
    decreases parts.len(),
{
    let head = flat(parts.drop_last());
    let last = parts.last();
    if i == parts.len() - 1 {
        let k = choose|k: int| 0 <= k < last.len() && last[k] == command;
        assert((head + last)[head.len() + k] == command);
    } else {
        assert(parts.drop_last()[i] == parts[i]);
        lemma_flat_contains(parts.drop_last(), i, command);
        let k = choose|k: int| 0 <= k < head.len() && head[k] == command;
        assert((head + last)[k] == command);
    }
}

/// What is queued stays queued when more is queued behind it.
pub proof fn lemma_stays_queued(queue: Seq<Command>, more: Seq<Command>, command: Command)
    requires
        queue.contains(command),
    ensures
        (queue + more).contains(command),
{
    let k = choose|k: int| 0 <= k < queue.len() && queue[k] == command;
    assert((queue + more)[k] == command);
}

/// What is queued behind a queue is in the longer queue.
pub proof fn lemma_joins_queue(queue: Seq<Command>, more: Seq<Command>, command: Command)
    requires
        more.contains(command),
    ensures
        (queue + more).contains(command),
{
    let k = choose|k: int| 0 <= k < more.len() && more[k] == command;
    assert((queue + more)[queue.len() + k] == command);
}

pub struct WorldCommandBuffer {
    pub commands: Vec<Command>,
}

impl View for WorldCommandBuffer {
    type V = Seq<Command>;

    open spec fn view(&self) -> Seq<Command> {
        self.commands@
    }
}

impl WorldCommandBuffer {
    pub fn new() -> (buffer: WorldCommandBuffer)
        ensures
            buffer@.len() == 0,
    {
        WorldCommandBuffer { commands: Vec::new() }
    }

    /// Queues the creation of an entity.
    pub fn add_entity(&mut self, components: Components)
        ensures
            final(self)@ == old(self)@.push(Command::Spawn(components)),
    {
        self.commands.push(Command::Spawn(components));
    }

    /// Queues one more component for an entity; `component` is a record
    /// that holds it.
    pub fn add_component(&mut self, entity: EntityId, component: Components)
        ensures
            final(self)@ == old(self)@.push(Command::Insert(entity, component)),
    {
        self.commands.push(Command::Insert(entity, component));
    }

    /// Queues several components for an entity.
    pub fn add_component_bundle(&mut self, entity: EntityId, components: Components)
        ensures
            final(self)@ == old(self)@.push(Command::Insert(entity, components)),
    {
        self.commands.push(Command::Insert(entity, components));
    }

    /// Queues the destruction of an entity.
    pub fn remove_entity(&mut self, entity: EntityId)
        ensures
            final(self)@ == old(self)@.push(Command::Despawn(entity)),
    {
        self.commands.push(Command::Despawn(entity));
    }

    /// Runs every queued command against the store, in the order queued,
    /// and empties the queue. Returns the identities of the entities
    /// created, which are new to the store and differ from each other.
    #[verifier::rlimit(50)]
    pub fn execute(&mut self, store: &mut Store) -> (spawned: Vec<EntityId>)
        requires
            old(store).wf(),
        ensures
            final(store).wf(),
            final(self)@.len() == 0,
            spawned@.len() == spawn_count(old(self)@),
            final(store)@ == after_commands(old(store)@, old(self)@, spawned@),
            forall|k: int| 0 <= k < spawned@.len() ==> !old(store).issued().contains(#[trigger] spawned@[k]),
            forall|k: int, l: int| 0 <= k < l < spawned@.len() ==> spawned@[k] != spawned@[l],
            old(store).issued().subset_of(final(store).issued()),
            forall|id: u64|
                final(store).issued().contains(id) ==> old(store).issued().contains(id) || spawned@.contains(id),
    {
        let mut commands: Vec<Command> = Vec::new();
        core::mem::swap(&mut self.commands, &mut commands);
        let ghost all = commands@;
        let mut spawned: Vec<EntityId> = Vec::new();
        let mut i: usize = 0;
        while i < commands.len()
            invariant
                i <= commands@.len(),
                commands@.len() == all.len(),
                forall|j: int| i <= j < all.len() ==> commands@[j] == all[j],
                store.wf(),
                self@.len() == 0,
                spawned@.len() == spawn_count(all.take(i as int)),
                store@ == after_commands(old(store)@, all.take(i as int), spawned@),
                forall|k: int| 0 <= k < spawned@.len() ==> !old(store).issued().contains(#[trigger] spawned@[k]),
                forall|k: int| 0 <= k < spawned@.len() ==> store.issued().contains(#[trigger] spawned@[k]),
                forall|k: int, l: int| 0 <= k < l < spawned@.len() ==> spawned@[k] != spawned@[l],
                old(store).issued().subset_of(store.issued()),
                forall|id: u64|
                    store.issued().contains(id) ==> old(store).issued().contains(id) || spawned@.contains(id),
            decreases commands@.len() - i,
        {
            let mut command: Command = Command::Despawn(0);
            core::mem::swap(&mut commands[i], &mut command);
            assert(command == all[i as int]);
            assert(all.take(i as int + 1).drop_last() == all.take(i as int));
            assert(all.take(i as int + 1).last() == all[i as int]);
            let ghost before_ids = spawned@;
            match command {
                Command::Spawn(record) => {
                    let id: u64 = store.spawn(record);
                    spawned.push(id);
                    assert(spawned@.drop_last() == before_ids);
                    assert(spawned@.last() == id);
                    assert forall|x: u64| store.issued().contains(x) implies old(store).issued().contains(x)
                        || spawned@.contains(x) by {
                        if x == id {
                            assert(spawned@[spawned@.len() - 1] == id);
                        } else {
                            if !old(store).issued().contains(x) {
                                assert(before_ids.contains(x));
                                let k = choose|k: int| 0 <= k < before_ids.len() && before_ids[k] == x;
                                assert(spawned@[k] == x);
                            }
                        }
                    }
                },
                Command::Despawn(id) => {
                    store.despawn(id);
                },
                Command::Insert(id, patch) => {
                    match store.get(id) {
                        Some(base) => {
                            store.set(id, base.merged(patch));
                        },
                        None => {},
                    }
                },
            }
            i = i + 1;
        }
        assert(all.take(all.len() as int) == all);
        spawned
    }
}

/// Commands never bring back an entity that they destroyed, nor one that
/// had already gone: an identity that was given out before and is absent
/// after a despawn stays absent, whatever is spawned afterwards.
pub proof fn lemma_despawned_stays_gone(
    records: Map<u64, Components>,
    commands: Seq<Command>,
    spawned: Seq<u64>,
    id: u64,
    at: int,
)
    requires
        spawned.len() == spawn_count(commands),
        forall|k: int| 0 <= k < spawned.len() ==> #[trigger] spawned[k] != id,
        0 <= at < commands.len(),
        commands[at] == Command::Despawn(id),
    ensures
        !after_commands(records, commands, spawned).dom().contains(id),
    decreases commands.len(),
{
    let head = commands.drop_last();
    let last = commands.last();
    if last is Spawn {
        let ids = spawned.drop_last();
        assert(spawned.last() == spawned[spawned.len() - 1]);
        assert forall|k: int| 0 <= k < ids.len() implies #[trigger] ids[k] != id by {
            assert(ids[k] == spawned[k]);
        }
        assert(head[at] == commands[at]);
        lemma_despawned_stays_gone(records, head, ids, id, at);
    } else if at == commands.len() - 1 {
    } else {
        assert(head[at] == commands[at]);
        lemma_despawned_stays_gone(records, head, spawned, id, at);
    }
}

/// Every despawn among the commands is of entity `id`.
pub open spec fn despawns_own(part: Seq<Command>, id: EntityId) -> bool {
    forall|k: int| 0 <= k < part.len() && (#[trigger] part[k]) is Despawn ==> part[k]->Despawn_0 == id
}

/// Every despawn of the queue is of an entity of `ids`.
pub open spec fn despawns_within(queue: Seq<Command>, ids: Set<u64>) -> bool {
    forall|k: int| 0 <= k < queue.len() && (#[trigger] queue[k]) is Despawn ==> ids.contains(queue[k]->Despawn_0)
}

/// Queues that despawn within `ids` make a queue that does.
pub proof fn lemma_joined_within(queue: Seq<Command>, more: Seq<Command>, ids: Set<u64>)
    requires
        despawns_within(queue, ids),
        despawns_within(more, ids),
    ensures
        despawns_within(queue + more, ids),
{
    let all = queue + more;
    assert forall|k: int| 0 <= k < all.len() && (#[trigger] all[k]) is Despawn implies ids.contains(
        all[k]->Despawn_0,
    ) by {
        if k < queue.len() {
            assert(all[k] == queue[k]);
        } else {
            assert(all[k] == more[k - queue.len()]);
        }
    }
}

/// Parts that despawn within `ids` make a whole that does.
pub proof fn lemma_flat_within(parts: Seq<Seq<Command>>, ids: Set<u64>)
    requires
        forall|i: int| 0 <= i < parts.len() ==> despawns_within(#[trigger] parts[i], ids),
    ensures
        despawns_within(flat(parts), ids),
    decreases parts.len(),
{
    if parts.len() > 0 {
        let head = parts.drop_last();
        assert forall|i: int| 0 <= i < head.len() implies despawns_within(#[trigger] head[i], ids) by {
            assert(head[i] == parts[i]);
        }
        lemma_flat_within(head, ids);
        assert(despawns_within(parts[parts.len() - 1], ids));
        lemma_joined_within(flat(head), parts.last(), ids);
    }
}

/// A part that despawns nothing but its own entity despawns within any
/// set that holds that entity.
pub proof fn lemma_own_is_within(part: Seq<Command>, id: EntityId, ids: Set<u64>)
    requires
        despawns_own(part, id),
        ids.contains(id),
    ensures
        despawns_within(part, ids),
{
}

/// The commands before the `at`-th create fewer entities than all
/// commands, if the `at`-th creates one.
pub proof fn lemma_spawns_before(queue: Seq<Command>, at: int)
    requires
        0 <= at < queue.len(),
    ensures
        spawn_count(queue.take(at)) <= spawn_count(queue),
        queue[at] is Spawn ==> spawn_count(queue.take(at)) < spawn_count(queue),
    decreases queue.len(),
{
    let head = queue.drop_last();
    if at == queue.len() - 1 {
        assert(queue.take(at) == head);
    } else {
        assert(head.take(at) == queue.take(at));
        assert(head[at] == queue[at]);
        lemma_spawns_before(head, at);
    }
}

/// What a queue creates is in the store after the queue has run, with the
/// record that its spawn command holds, if the queue is harmless, the
/// created entities are new and differ from each other, and the queue
/// despawns none but entities that were there before.
pub proof fn lemma_spawned_lands(records: Map<u64, Components>, queue: Seq<Command>, spawned: Seq<u64>, at: int)
    requires
        all_harmless(queue),
        despawns_within(queue, records.dom()),
        spawned.len() == spawn_count(queue),
        forall|k: int| 0 <= k < spawned.len() ==> !records.dom().contains(#[trigger] spawned[k]),
        forall|k: int, l: int| 0 <= k < l < spawned.len() ==> spawned[k] != spawned[l],
        0 <= at < queue.len(),
        queue[at] is Spawn,
    ensures
        0 <= spawn_count(queue.take(at)) < spawned.len(),
        after_commands(records, queue, spawned).dom().contains(spawned[spawn_count(queue.take(at)) as int]),
        after_commands(records, queue, spawned)[spawned[spawn_count(queue.take(at)) as int]] == queue[at]->Spawn_0,
    decreases queue.len(),
{
    lemma_spawns_before(queue, at);
    let head = queue.drop_last();
    let last = queue.last();
    assert(harmless(queue[queue.len() - 1]));
    if at == queue.len() - 1 {
        assert(queue.take(at) == head);
    } else {
        assert(head.take(at) == queue.take(at));
        assert(head[at] == queue[at]);
        assert forall|k: int| 0 <= k < head.len() implies harmless(#[trigger] head[k]) by {
            assert(head[k] == queue[k]);
        }
        assert forall|k: int| 0 <= k < head.len() && (#[trigger] head[k]) is Despawn implies records.dom().contains(
            head[k]->Despawn_0,
        ) by {
            assert(head[k] == queue[k]);
        }
        let index = spawn_count(queue.take(at)) as int;
        if last is Spawn {
            let ids = spawned.drop_last();
            assert forall|k: int| 0 <= k < ids.len() implies !records.dom().contains(#[trigger] ids[k]) by {
                assert(ids[k] == spawned[k]);
            }
            assert forall|k: int, l: int| 0 <= k < l < ids.len() implies ids[k] != ids[l] by {
                assert(ids[k] == spawned[k] && ids[l] == spawned[l]);
            }
            lemma_spawned_lands(records, head, ids, at);
            assert(ids[index] == spawned[index]);
            assert(spawned[index] != spawned[spawned.len() - 1]);
        } else {
            lemma_spawned_lands(records, head, spawned, at);
            assert(queue[queue.len() - 1] is Despawn);
            assert(records.dom().contains(last->Despawn_0));
        }
    }
}

/// Every command creates an entity.
pub open spec fn all_spawns(part: Seq<Command>) -> bool {
    forall|k: int| 0 <= k < part.len() ==> (#[trigger] part[k]) is Spawn
}

/// Where a record of the store comes from after a harmless queue has run:
/// it was there before the queue, or it is the record of one of the spawn
/// commands of the queue.
pub proof fn lemma_record_origin(records: Map<u64, Components>, queue: Seq<Command>, spawned: Seq<u64>, id: u64) -> (at:
    int)
    requires
        all_harmless(queue),
        spawned.len() == spawn_count(queue),
        after_commands(records, queue, spawned).dom().contains(id),
    ensures
        at < queue.len(),
        at < 0 ==> records.dom().contains(id) && after_commands(records, queue, spawned)[id] == records[id],
        at >= 0 ==> queue[at] is Spawn && after_commands(records, queue, spawned)[id] == queue[at]->Spawn_0,
    decreases queue.len(),
{
    if queue.len() == 0 {
        -1
    } else {
        let head = queue.drop_last();
        let last = queue.last();
        assert(harmless(queue[queue.len() - 1]));
        assert forall|k: int| 0 <= k < head.len() implies harmless(#[trigger] head[k]) by {
            assert(head[k] == queue[k]);
        }
        if last is Spawn {
            if id == spawned.last() {
                queue.len() - 1
            } else {
                let at = lemma_record_origin(records, head, spawned.drop_last(), id);
                if at >= 0 {
                    assert(head[at] == queue[at]);
                }
                at
            }
        } else {
            let at = lemma_record_origin(records, head, spawned, id);
            if at >= 0 {
                assert(head[at] == queue[at]);
            }
            at
        }
    }
}

} // verus!
