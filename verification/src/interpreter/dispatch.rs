use super::callback::{
    timeline_model, CallbackModel, CallbackResult, TimedCallback, TimedModel,
};
use super::entity::{
    default_entity, spawn_entity, Entity, EnvironmentModel, ExecutionEnvironment,
};
use super::float::FloatUnit;
use super::utils::{
    lemma_swap_removed_all_mapped, rising_below, swap_remove_all, swap_removed_all,
};
use super::{Actions, BulletMap, EntityMap, Interpreter, PathMap, PatternMap};
use vstd::prelude::*;

verus! {

/// Whether an entity has lived out its life.
pub open spec fn expired(e: EnvironmentModel) -> bool {
    e.duration <= e.elapsed
}

/// The places of the entries of a timeline that are due once the entity
/// has lived `elapsed` frames, in rising order.
pub open spec fn due(timeline: Seq<TimedModel>, elapsed: u32) -> Seq<usize>
    decreases timeline.len(),
{
    if timeline.len() == 0 {
        Seq::empty()
    } else {
        let rest = due(timeline.drop_last(), elapsed);
        if timeline.last().frame <= elapsed {
            rest.push((timeline.len() - 1) as usize)
        } else {
            rest
        }
    }
}

/// The spawns among the due entries of a timeline, in the order of the
/// timeline.
pub open spec fn due_spawns(timeline: Seq<TimedModel>, elapsed: u32) -> Seq<CallbackModel>
    decreases timeline.len(),
{
    if timeline.len() == 0 {
        Seq::empty()
    } else {
        let rest = due_spawns(timeline.drop_last(), elapsed);
        if timeline.last().frame <= elapsed && timeline.last().func is Spawn {
            rest.push(timeline.last().func)
        } else {
            rest
        }
    }
}

/// Whether a due entry of a timeline asks for the entity's deletion.
pub open spec fn asks_deletion(timeline: Seq<TimedModel>, elapsed: u32) -> bool {
    exists|k: int|
        0 <= k < timeline.len() && (#[trigger] timeline[k]).frame <= elapsed && timeline[k].func is Delete
}

/// Whether the entity leaves the world in this tick: it has lived out its
/// life, or a due entry asks for its deletion.
pub open spec fn removed(e: EnvironmentModel, timeline: Seq<TimedModel>) -> bool {
    expired(e) || asks_deletion(timeline, e.elapsed)
}

/// The entity after the dispatch of one tick: one frame older, unless it
/// had lived out its life.
pub open spec fn dispatched(e: EnvironmentModel) -> EnvironmentModel {
    if expired(e) {
        e
    } else {
        EnvironmentModel { elapsed: (e.elapsed + 1) as u32, ..e }
    }
}

/// The entity's timeline after the dispatch of one tick: without its due
/// entries, unless the entity had lived out its life.
pub open spec fn dispatched_timeline(e: EnvironmentModel, timeline: Seq<TimedModel>) -> Seq<TimedModel> {
    if expired(e) {
        timeline
    } else {
        swap_removed_all(timeline, due(timeline, e.elapsed))
    }
}

/// The spawns that the entity fires in this tick, in the order in which it
/// fires them.
pub open spec fn spawned_by(e: EnvironmentModel, timeline: Seq<TimedModel>) -> Seq<CallbackModel> {
    if expired(e) {
        Seq::empty()
    } else {
        due_spawns(timeline, e.elapsed)
    }
}

/// The places of the entities among the first `n` that leave the world in
/// this tick, in rising order.
pub open spec fn deletions(es: Seq<EnvironmentModel>, ts: Seq<Seq<TimedModel>>, n: nat) -> Seq<usize>
    decreases n,
{
    if n == 0 {
        Seq::empty()
    } else {
        let rest = deletions(es, ts, (n - 1) as nat);
        if removed(es[n - 1], ts[n - 1]) {
            rest.push((n - 1) as usize)
        } else {
            rest
        }
    }
}

/// The spawns that the first `n` entities fire in this tick, in pool order.
pub open spec fn spawn_total(es: Seq<EnvironmentModel>, ts: Seq<Seq<TimedModel>>, n: nat) -> Seq<
    CallbackModel,
>
    decreases n,
{
    if n == 0 {
        Seq::empty()
    } else {
        spawn_total(es, ts, (n - 1) as nat) + spawned_by(es[n - 1], ts[n - 1])
    }
}

/// The entity that the spawn `action` brings into the world: the one that
/// its captured fields make, at the start of its life.
pub open spec fn born<U: FloatUnit>(unit: U, action: CallbackModel, paths: PathMap, bullets: BulletMap) -> EnvironmentModel {
    match action {
        CallbackModel::Spawn { definitions, values, globals } => ExecutionEnvironment::spawned(
            spawn_entity(unit, definitions, paths, bullets, globals, Some(values)),
        ),
        _ => ExecutionEnvironment::spawned(default_entity()),
    }
}

/// Whether `e` is the entity that the spawn `action` brings into the world.
pub open spec fn born_of<U: FloatUnit>(
    unit: U,
    action: CallbackModel,
    paths: PathMap,
    bullets: BulletMap,
    e: EnvironmentModel,
) -> bool {
    action is Spawn && e == born(unit, action, paths, bullets)
}

/// The due places rise and lie in the timeline.
pub proof fn lemma_due_rising(timeline: Seq<TimedModel>, elapsed: u32)
    requires
        timeline.len() <= usize::MAX,
    ensures
        rising_below(due(timeline, elapsed), timeline.len()),
    decreases timeline.len(),
{
    if timeline.len() > 0 {
        lemma_due_rising(timeline.drop_last(), elapsed);
    }
}

/// The places of the deletions rise and lie among the first `n`.
pub proof fn lemma_deletions_rising(es: Seq<EnvironmentModel>, ts: Seq<Seq<TimedModel>>, n: nat)
    requires
        n <= usize::MAX,
    ensures
        rising_below(deletions(es, ts, n), n),
    decreases n,
{
    if n > 0 {
        lemma_deletions_rising(es, ts, (n - 1) as nat);
    }
}

/// The deletions among the first `n` are the places of the entities that
/// leave the world in this tick.
pub proof fn lemma_deletions_are_the_removed(
    es: Seq<EnvironmentModel>,
    ts: Seq<Seq<TimedModel>>,
    n: nat,
    i: int,
)
    requires
        n <= usize::MAX,
        0 <= i < n,
    ensures
        removed(es[i], ts[i]) <==> exists|j: int|
            0 <= j < deletions(es, ts, n).len() && #[trigger] deletions(es, ts, n)[j] == i,
    decreases n,
{
    let all = deletions(es, ts, n);
    let rest = deletions(es, ts, (n - 1) as nat);
    lemma_deletions_rising(es, ts, (n - 1) as nat);
    if i < n - 1 {
        lemma_deletions_are_the_removed(es, ts, (n - 1) as nat, i);
        if removed(es[i], ts[i]) {
            let j = choose|j: int| 0 <= j < rest.len() && #[trigger] rest[j] == i;
            assert(all[j] == i);
        }
        if exists|j: int| 0 <= j < all.len() && #[trigger] all[j] == i {
            let j = choose|j: int| 0 <= j < all.len() && #[trigger] all[j] == i;
            assert(j < rest.len());
            assert(rest[j] == i);
        }
    } else {
        if removed(es[i], ts[i]) {
            assert(all[all.len() - 1] == i);
        }
        if exists|j: int| 0 <= j < all.len() && #[trigger] all[j] == i {
            let j = choose|j: int| 0 <= j < all.len() && #[trigger] all[j] == i;
            if j < rest.len() {
                assert(rest[j] == all[j]);
            }
        }
    }
}

/// An entity that has not lived out its life and of which no due entry asks
/// deletion stays in the world for this tick; one that has lived out its
/// life leaves it.
pub proof fn lemma_lifetime(e: EnvironmentModel, timeline: Seq<TimedModel>)
    ensures
        e.elapsed >= e.duration ==> removed(e, timeline),
        e.elapsed < e.duration && !asks_deletion(timeline, e.elapsed) ==> !removed(e, timeline)
            && dispatched(e).elapsed == e.elapsed + 1,
{
}

/// The entity after `k` ticks.
pub open spec fn aged(e: EnvironmentModel, k: nat) -> EnvironmentModel
    decreases k,
{
    if k == 0 {
        e
    } else {
        dispatched(aged(e, (k - 1) as nat))
    }
}

/// An entity that enters the world lives as many ticks as its lifetime
/// says: each tick makes it one frame older until it has lived them all,
/// and then it has lived out its life and stays as it is.
pub proof fn lemma_lives_its_lifetime(e: EnvironmentModel, k: nat)
    requires
        e.elapsed == 0,
    ensures
        aged(e, k).duration == e.duration,
        k <= e.duration ==> aged(e, k).elapsed == k,
        k < e.duration ==> !expired(aged(e, k)),
        k >= e.duration ==> expired(aged(e, k)) && aged(e, k).elapsed == e.duration,
    decreases k,
{
    if k > 0 {
        lemma_lives_its_lifetime(e, (k - 1) as nat);
    }
}

/// Fires the due entries of one entity's timeline, in the order of the
/// timeline, and removes them from it; the entity grows one frame older.
/// An entity that has lived out its life is left alone. What is spawned
/// goes to the end of `pending_e`, with an empty timeline at the end of
/// `pending_a`. The result says whether the entity is to leave the world.
pub fn dispatch<U: FloatUnit>(
    env: &mut ExecutionEnvironment,
    timeline: &mut Vec<TimedCallback>,
    paths: &PathMap,
    patterns: &PatternMap,
    prefabs: &EntityMap,
    bullets: &BulletMap,
    fps: u16,
    unit: &U,
    pending_e: &mut Vec<ExecutionEnvironment>,
    pending_a: &mut Actions,
) -> (deleted: bool)
    requires
        old(pending_e)@.len() == old(pending_a)@.len(),
    ensures
        final(env).model() == dispatched(old(env).model()),
        timeline_model(final(timeline)@) == dispatched_timeline(
            old(env).model(),
            timeline_model(old(timeline)@),
        ),
        deleted == removed(old(env).model(), timeline_model(old(timeline)@)),
        final(pending_e)@.len() == old(pending_e)@.len() + spawned_by(
            old(env).model(),
            timeline_model(old(timeline)@),
        ).len(),
        final(pending_a)@.len() == final(pending_e)@.len(),
        forall|j: int|
            0 <= j < old(pending_e)@.len() ==> final(pending_e)@[j] == old(pending_e)@[j]
                && final(pending_a)@[j] == old(pending_a)@[j],
        forall|j: int|
            old(pending_e)@.len() <= j < final(pending_e)@.len() ==> born_of(*unit, spawned_by(old(env).model(), timeline_model(old(timeline)@))[j - old(
                    pending_e,
                )@.len()],
                *paths,
                *bullets,
                (#[trigger] final(pending_e)@[j]).model(),
            ) && final(pending_a)@[j]@.len() == 0,
{
    if env.duration <= env.elapsed {
        return true;
    }
    let ghost tm = timeline_model(timeline@);
    let ghost elapsed = env.elapsed;
    let mut deleted = false;
    let mut fired: Vec<usize> = Vec::new();
    let mut k: usize = 0;
    assert(tm.take(0) =~= Seq::empty());
    while k < timeline.len()
        invariant
            k <= timeline@.len(),
            *env == *old(env),
            *timeline == *old(timeline),
            tm == timeline_model(timeline@),
            elapsed == env.elapsed,
            fired@ == due(tm.take(k as int), elapsed),
            deleted == asks_deletion(tm.take(k as int), elapsed),
            pending_e@.len() == old(pending_e)@.len() + due_spawns(tm.take(k as int), elapsed).len(),
            pending_a@.len() == pending_e@.len(),
            forall|j: int|
                0 <= j < old(pending_e)@.len() ==> pending_e@[j] == old(pending_e)@[j]
                    && pending_a@[j] == old(pending_a)@[j],
            forall|j: int|
                old(pending_e)@.len() <= j < pending_e@.len() ==> born_of(*unit, due_spawns(tm.take(k as int), elapsed)[j - old(pending_e)@.len()],
                    *paths,
                    *bullets,
                    (#[trigger] pending_e@[j]).model(),
                ) && pending_a@[j]@.len() == 0,
        decreases timeline@.len() - k,
    {
        let ghost before = tm.take(k as int);
        let ghost next = tm.take(k + 1);
        assert(next.drop_last() =~= before);
        assert(next.last() == tm[k as int]);
        assert(tm[k as int] == timeline@[k as int].model());
        if timeline[k].frame <= env.elapsed {
            fired.push(k);
            match timeline[k].func.fire(env, paths, patterns, prefabs, bullets, unit) {
                CallbackResult::AddEntities(ents) => {
                    admit_all(
                        &ents,
                        env,
                        paths,
                        patterns,
                        prefabs,
                        bullets,
                        fps,
                        unit,
                        pending_e,
                        pending_a,
                        Ghost(tm[k as int].func),
                    );
                    assert(asks_deletion(next, elapsed) == asks_deletion(before, elapsed)) by {
                        lemma_asks_deletion_step(next, elapsed);
                    }
                },
                CallbackResult::Delete => {
                    deleted = true;
                    assert(asks_deletion(next, elapsed)) by {
                        assert(next[k as int].frame <= elapsed && next[k as int].func is Delete);
                    }
                },
                CallbackResult::Mutate => {
                    assert(asks_deletion(next, elapsed) == asks_deletion(before, elapsed)) by {
                        lemma_asks_deletion_step(next, elapsed);
                    }
                },
            }
        } else {
            assert(asks_deletion(next, elapsed) == asks_deletion(before, elapsed)) by {
                lemma_asks_deletion_step(next, elapsed);
            }
        }
        k += 1;
    }
    assert(tm.take(k as int) =~= tm);
    proof {
        lemma_due_rising(tm, elapsed);
        lemma_swap_removed_all_mapped(timeline@, |x: TimedCallback| x.model(), fired@);
        assert(timeline@.map_values(|x: TimedCallback| x.model()) =~= tm);
    }
    let ghost unswept = timeline@;
    swap_remove_all(timeline, &fired);
    assert(timeline_model(timeline@) =~= swap_removed_all(unswept, fired@).map_values(
        |x: TimedCallback| x.model(),
    ));
    env.elapsed += 1;
    deleted
}

/// Whether a due entry asks deletion is decided by the last entry or by
/// those before it.
proof fn lemma_asks_deletion_step(t: Seq<TimedModel>, elapsed: u32)
    requires
        t.len() > 0,
    ensures
        asks_deletion(t, elapsed) == (asks_deletion(t.drop_last(), elapsed) || (t.last().frame
            <= elapsed && t.last().func is Delete)),
{
    let d = t.drop_last();
    if asks_deletion(t, elapsed) {
        let k = choose|k: int|
            0 <= k < t.len() && (#[trigger] t[k]).frame <= elapsed && t[k].func is Delete;
        if k < t.len() - 1 {
            assert(d[k] == t[k]);
        }
    }
    if asks_deletion(d, elapsed) {
        let k = choose|k: int|
            0 <= k < d.len() && (#[trigger] d[k]).frame <= elapsed && d[k].func is Delete;
        assert(t[k] == d[k]);
    }
}

/// Admits the entities of one spawn to the pending pools: each at the
/// start of its life, with the timeline of its behaviour.
fn admit_all<U: FloatUnit>(
    ents: &Vec<Entity>,
    parent: &ExecutionEnvironment,
    paths: &PathMap,
    patterns: &PatternMap,
    prefabs: &EntityMap,
    bullets: &BulletMap,
    fps: u16,
    unit: &U,
    pending_e: &mut Vec<ExecutionEnvironment>,
    pending_a: &mut Actions,
    Ghost(action): Ghost<CallbackModel>,
)
    requires
        old(pending_e)@.len() == old(pending_a)@.len(),
        ents@.len() == 1,
        action matches CallbackModel::Spawn { definitions, values, globals } && ents@[0].model()
            == spawn_entity(*unit, definitions, *paths, *bullets, globals, Some(values)),
    ensures
        final(pending_e)@.len() == old(pending_e)@.len() + 1,
        final(pending_a)@.len() == final(pending_e)@.len(),
        forall|j: int|
            0 <= j < old(pending_e)@.len() ==> final(pending_e)@[j] == old(pending_e)@[j]
                && final(pending_a)@[j] == old(pending_a)@[j],
        born_of(*unit, action, *paths, *bullets, final(pending_e)@[old(pending_e)@.len() as int].model()),
        final(pending_a)@[old(pending_e)@.len() as int]@.len() == 0,
{
    let mut i: usize = 0;
    while i < ents.len()
        invariant
            i <= ents@.len(),
            ents@.len() == 1,
            action matches CallbackModel::Spawn { definitions, values, globals } && ents@[0].model()
                == spawn_entity(*unit, definitions, *paths, *bullets, globals, Some(values)),
            pending_e@.len() == old(pending_e)@.len() + i,
            pending_a@.len() == pending_e@.len(),
            forall|j: int|
                0 <= j < old(pending_e)@.len() ==> pending_e@[j] == old(pending_e)@[j]
                    && pending_a@[j] == old(pending_a)@[j],
            i == 1 ==> born_of(*unit, action,
                *paths,
                *bullets,
                pending_e@[old(pending_e)@.len() as int].model(),
            ) && pending_a@[old(pending_e)@.len() as int]@.len() == 0,
        decreases ents@.len() - i,
    {
        let globals = Interpreter::<U>::create_globals(parent.entity.position);
        pending_e.push(ExecutionEnvironment::new(&ents[i]));
        let timeline = match ents[i].compile_behavior(paths, patterns, prefabs, bullets, globals, fps, unit) {
            Ok(Some(timeline)) => timeline,
            _ => Vec::new(),
        };
        pending_a.push(timeline);
        i += 1;
    }
}

} // verus!
