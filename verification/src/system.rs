//! The animation system: the curve asset cache, the per-scene group
//! registry, and the per-frame playback driver, owned together by one
//! explicit `AnimationSystem` value — no process-wide state.
//!
//! Emitted attribute writes go to an explicit producer/consumer command
//! queue: playback appends, and exactly one consumer drains once per tick.
//! Within one tick, commands are appended in the order scenes and groups
//! were advanced, so a fixed sequence of `advance` calls yields the same
//! command sequence.

use vstd::prelude::*;
use vstd::pervasive::VecAdditionalExecFns;
use std::rc::Rc;
use std::string::String;
use crate::cache::{partition, CurveAssetCache};
use crate::curve::{curve_wf, FrameCurve, Interpolation};
use crate::errors::AnimError;
use crate::group::{
    commands_view, group_emits, group_step, group_wf, idle_group, Animation, AnimationGroup,
    AttributeCommand, CommandView, GroupView, LoopMode, PlaybackState, TargetAnimation,
    TargetAnimationView, AmountCalc,
};
use crate::ingest::{attribute_of, ChannelKind};
use crate::value::{value_in_range, AnimValue, TICK_LIMIT};

verus! {

/// Mathematical image of one scene's slot in the registry.
pub struct SceneSlotView {
    pub scene: int,
    pub groups: Seq<GroupView>,
}

/// One scene's animation groups.
pub struct SceneSlot {
    pub scene: u64,
    pub groups: Vec<AnimationGroup>,
}

/// The views of a sequence of machine groups.
pub open spec fn group_views(s: Seq<AnimationGroup>) -> Seq<GroupView> {
    s.map_values(|g: AnimationGroup| g@)
}

impl View for SceneSlot {
    type V = SceneSlotView;

    open spec fn view(&self) -> SceneSlotView {
        SceneSlotView { scene: self.scene as int, groups: group_views(self.groups@) }
    }
}

/// All groups of a sequence are well-formed.
pub open spec fn groups_wf(gs: Seq<GroupView>) -> bool {
    forall|i: int| 0 <= i < gs.len() ==> group_wf(#[trigger] gs[i])
}

/// One advance applied to every group of a scene, in order.
pub open spec fn groups_step(gs: Seq<GroupView>, delta_ms: int) -> Seq<GroupView> {
    gs.map_values(|g: GroupView| group_step(g, delta_ms))
}

/// The commands a scene's groups emit during one advance, concatenated in
/// group order.
pub open spec fn groups_emits(gs: Seq<GroupView>, delta_ms: int) -> Seq<CommandView>
    decreases gs.len(),
{
    if gs.len() == 0 {
        Seq::empty()
    } else {
        groups_emits(gs.drop_last(), delta_ms) + group_emits(gs.last(), delta_ms)
    }
}

/// One advance applied to every scene of the registry, in order.
pub open spec fn scenes_step(scenes: Seq<SceneSlotView>, delta_ms: int) -> Seq<SceneSlotView> {
    scenes.map_values(
        |s: SceneSlotView| SceneSlotView { scene: s.scene, groups: groups_step(s.groups, delta_ms) },
    )
}

/// The commands the whole registry emits during one advance, concatenated
/// in scene order then group order.
pub open spec fn scenes_emits(scenes: Seq<SceneSlotView>, delta_ms: int) -> Seq<CommandView>
    decreases scenes.len(),
{
    if scenes.len() == 0 {
        Seq::empty()
    } else {
        scenes_emits(scenes.drop_last(), delta_ms) + groups_emits(
            scenes.last().groups,
            delta_ms,
        )
    }
}

/// Scene identifiers are unique and every group is well-formed.
pub open spec fn registry_wf(scenes: Seq<SceneSlotView>) -> bool {
    &&& forall|i: int, j: int|
        0 <= i < j < scenes.len() ==> #[trigger] scenes[i].scene != #[trigger] scenes[j].scene
    &&& forall|i: int| 0 <= i < scenes.len() ==> groups_wf((#[trigger] scenes[i]).groups)
}

/// Whether a scene identifier has a slot.
pub open spec fn has_scene(scenes: Seq<SceneSlotView>, scene: int) -> bool {
    exists|i: int| 0 <= i < scenes.len() && (#[trigger] scenes[i]).scene == scene
}

/// The slot index of a scene identifier (unique under `registry_wf`).
pub open spec fn scene_index(scenes: Seq<SceneSlotView>, scene: int) -> int {
    choose|i: int| 0 <= i < scenes.len() && (#[trigger] scenes[i]).scene == scene
}

/// Whether a group handle is valid: its scene has a slot and the group
/// index is within that slot.
pub open spec fn has_group(scenes: Seq<SceneSlotView>, scene: int, gid: int) -> bool {
    &&& has_scene(scenes, scene)
    &&& 0 <= gid < scenes[scene_index(scenes, scene)].groups.len()
}

/// The group a handle denotes.
pub open spec fn group_at(scenes: Seq<SceneSlotView>, scene: int, gid: int) -> GroupView {
    scenes[scene_index(scenes, scene)].groups[gid]
}

/// The registry with one group replaced.
pub open spec fn registry_with_group(
    scenes: Seq<SceneSlotView>,
    scene: int,
    gid: int,
    g: GroupView,
) -> Seq<SceneSlotView> {
    let si = scene_index(scenes, scene);
    scenes.update(
        si,
        SceneSlotView { scene: scenes[si].scene, groups: scenes[si].groups.update(gid, g) },
    )
}

/// Any slot holding the identifier is the slot `scene_index` denotes.
pub proof fn lemma_scene_index_agrees(scenes: Seq<SceneSlotView>, scene: int, i: int)
    requires
        registry_wf(scenes),
        0 <= i < scenes.len(),
        scenes[i].scene == scene,
    ensures
        has_scene(scenes, scene),
        scene_index(scenes, scene) == i,
{
    assert(has_scene(scenes, scene));
    let j = scene_index(scenes, scene);
    assert(0 <= j < scenes.len() && scenes[j].scene == scene);
}

/// Replacing one group by a well-formed one preserves registry
/// well-formedness.
pub proof fn lemma_registry_update_wf(scenes: Seq<SceneSlotView>, si: int, gid: int, g: GroupView)
    requires
        registry_wf(scenes),
        0 <= si < scenes.len(),
        0 <= gid < scenes[si].groups.len(),
        group_wf(g),
    ensures
        registry_wf(
            scenes.update(
                si,
                SceneSlotView {
                    scene: scenes[si].scene,
                    groups: scenes[si].groups.update(gid, g),
                },
            ),
        ),
{
    let updated = scenes.update(
        si,
        SceneSlotView { scene: scenes[si].scene, groups: scenes[si].groups.update(gid, g) },
    );
    assert forall|i: int| 0 <= i < updated.len() implies groups_wf(
        (#[trigger] updated[i]).groups,
    ) by {
        assert(groups_wf(scenes[i].groups));
        if i == si {
            let gs = updated[i].groups;
            assert forall|k: int| 0 <= k < gs.len() implies group_wf(#[trigger] gs[k]) by {
                if k != gid {
                    assert(gs[k] == scenes[si].groups[k]);
                    assert(group_wf(scenes[si].groups[k]));
                }
            }
        }
    }
}

/// The per-scene group registry.
pub struct GroupRegistry {
    pub scenes: Vec<SceneSlot>,
}

impl View for GroupRegistry {
    type V = Seq<SceneSlotView>;

    open spec fn view(&self) -> Seq<SceneSlotView> {
        self.scenes@.map_values(|s: SceneSlot| s@)
    }
}

impl GroupRegistry {
    /// The slot index of a scene identifier, if present.
    pub fn find_scene(&self, scene_id: u64) -> (r: Option<usize>)
        ensures
            match r {
                Some(i) => 0 <= i < self@.len() && self@[i as int].scene == scene_id as int,
                None => !has_scene(self@, scene_id as int),
            },
    {
        let n = self.scenes.len();
        let mut i: usize = 0;
        #[verifier::loop_isolation(false)]
        while i < n
            invariant
                i <= n,
                n == self.scenes@.len(),
                forall|j: int| 0 <= j < i ==> (#[trigger] self@[j]).scene != scene_id as int,
            decreases n - i,
        {
            if self.scenes[i].scene == scene_id {
                proof {
                    assert(self@[i as int] == self.scenes@[i as int]@);
                }
                return Some(i);
            }
            proof {
                assert(self@[i as int] == self.scenes@[i as int]@);
            }
            i = i + 1;
        }
        None
    }
}

/// The attribute-write command queue: producers append during a tick and
/// exactly one consumer drains once per tick.
pub struct CommandQueue {
    pub items: Vec<AttributeCommand>,
}

impl View for CommandQueue {
    type V = Seq<CommandView>;

    open spec fn view(&self) -> Seq<CommandView> {
        commands_view(self.items@)
    }
}

impl CommandQueue {
    /// An empty queue.
    pub fn new() -> (q: CommandQueue)
        ensures
            q@ =~= Seq::<CommandView>::empty(),
    {
        let q = CommandQueue { items: Vec::new() };
        proof {
            assert(q@ =~= Seq::<CommandView>::empty());
        }
        q
    }

    /// Append one command.
    pub fn push(&mut self, cmd: AttributeCommand)
        ensures
            final(self)@ == old(self)@.push(cmd@),
    {
        self.items.push(cmd);
        proof {
            assert(self@ =~= old(self)@.push(cmd@));
        }
    }

    /// Hand the queued commands to the single consumer, emptying the queue.
    pub fn drain(&mut self) -> (r: Vec<AttributeCommand>)
        ensures
            final(self)@ =~= Seq::<CommandView>::empty(),
            commands_view(r@) == old(self)@,
    {
        let mut taken: Vec<AttributeCommand> = Vec::new();
        core::mem::swap(&mut taken, &mut self.items);
        proof {
            assert(self@ =~= Seq::<CommandView>::empty());
        }
        taken
    }
}

/// Advance every group of one scene, appending emitted commands to `out`.
#[verifier::loop_isolation(false)]
fn advance_groups(groups: &mut Vec<AnimationGroup>, delta_ms: u32, out: &mut Vec<AttributeCommand>)
    requires
        groups_wf(group_views(old(groups)@)),
    ensures
        groups_wf(group_views(final(groups)@)),
        group_views(final(groups)@) == groups_step(group_views(old(groups)@), delta_ms as int),
        commands_view(final(out)@) == commands_view(old(out)@) + groups_emits(
            group_views(old(groups)@),
            delta_ms as int,
        ),
{
    let n = groups.len();
    let mut idx: usize = 0;
    while idx < n
        invariant
            idx <= n,
            n == groups@.len(),
            groups@.len() == old(groups)@.len(),
            forall|i: int| idx <= i < n ==> groups@[i] == old(groups)@[i],
            forall|i: int|
                0 <= i < idx ==> (#[trigger] groups@[i])@ == group_step(
                    old(groups)@[i]@,
                    delta_ms as int,
                ) && group_wf(groups@[i]@),
            commands_view(out@) == commands_view(old(out)@) + groups_emits(
                group_views(old(groups)@).take(idx as int),
                delta_ms as int,
            ),
        decreases n - idx,
    {
        let ghost entry_groups = groups@;
        let ghost entry_out_len = out@.len();
        let mut g = AnimationGroup::new();
        groups.set_and_swap(idx, &mut g);
        proof {
            assert(g == old(groups)@[idx as int]);
            assert(group_views(old(groups)@)[idx as int] == old(groups)@[idx as int]@);
            assert(group_wf(g@));
        }
        g.advance_tick(delta_ms, out);
        groups.set_and_swap(idx, &mut g);
        proof {
            let ghost prefix = group_views(old(groups)@).take(idx as int);
            let ghost prefix1 = group_views(old(groups)@).take(idx as int + 1);
            assert(prefix1.drop_last() =~= prefix);
            assert(prefix1.last() == old(groups)@[idx as int]@);
            assert(groups_emits(prefix1, delta_ms as int) == groups_emits(prefix, delta_ms as int)
                + group_emits(old(groups)@[idx as int]@, delta_ms as int));
            assert(commands_view(out@) =~= commands_view(old(out)@) + groups_emits(
                prefix1,
                delta_ms as int,
            ));
            assert(forall|i: int| idx + 1 <= i < n ==> groups@[i] == old(groups)@[i]);
        }
        idx = idx + 1;
    }
    proof {
        assert(group_views(old(groups)@).take(n as int) =~= group_views(old(groups)@));
        assert(group_views(groups@) =~= groups_step(group_views(old(groups)@), delta_ms as int));
    }
}

/// The animation system: cache, registry and command queue, constructed
/// once per session and passed by reference to ingest, bind and tick calls.
pub struct AnimationSystem {
    pub cache: CurveAssetCache,
    pub registry: GroupRegistry,
    pub queue: CommandQueue,
}

impl AnimationSystem {
    /// Cache and registry invariants together.
    pub open spec fn wf(&self) -> bool {
        &&& self.cache.wf()
        &&& registry_wf(self.registry@)
    }

    /// A fresh system: empty cache, no scenes, empty queue.
    pub fn new() -> (s: AnimationSystem)
        ensures
            s.wf(),
            s.registry@ =~= Seq::<SceneSlotView>::empty(),
            s.queue@ =~= Seq::<CommandView>::empty(),
            partition(s.cache@, crate::ingest::AttributeKind::Position) =~= Map::empty(),
            partition(s.cache@, crate::ingest::AttributeKind::Rotation) =~= Map::empty(),
            partition(s.cache@, crate::ingest::AttributeKind::Scaling) =~= Map::empty(),
    {
        let s = AnimationSystem {
            cache: CurveAssetCache::new(),
            registry: GroupRegistry { scenes: Vec::new() },
            queue: CommandQueue::new(),
        };
        proof {
            assert(s.registry@ =~= Seq::<SceneSlotView>::empty());
        }
        s
    }

    /// Return the cached curve for `key` under the kind `kind` drives, or
    /// bake the stream and publish it. See
    /// [`CurveAssetCache::bake_or_fetch`].
    pub fn bake_or_fetch(
        &mut self,
        key: &String,
        kind: ChannelKind,
        interpolation: Interpolation,
        ticks: &Vec<u16>,
        values: &Vec<AnimValue>,
    ) -> (r: Result<Rc<FrameCurve>, AnimError>)
        requires
            old(self).wf(),
            forall|i: int| 0 <= i < values@.len() ==> value_in_range(#[trigger] values@[i]@),
        ensures
            final(self).wf(),
            final(self).registry == old(self).registry,
            final(self).queue == old(self).queue,
            kind is MorphTargetWeights ==> r == Err::<Rc<FrameCurve>, AnimError>(
                AnimError::UnsupportedChannelKind,
            ) && final(self).cache@ == old(self).cache@,
            !(kind is MorphTargetWeights) && partition(old(self).cache@, attribute_of(
                kind,
            )).dom().contains(key@) ==> (r matches Ok(c) && c@ == partition(
                old(self).cache@,
                attribute_of(kind),
            )[key@] && final(self).cache@ == old(self).cache@),
            !(kind is MorphTargetWeights) && !partition(old(self).cache@, attribute_of(
                kind,
            )).dom().contains(key@) && !crate::ingest::stream_ok(
                interpolation,
                ticks@,
                values@.len() as int,
            ) ==> r == Err::<Rc<FrameCurve>, AnimError>(AnimError::MalformedKeyframeStream)
                && final(self).cache@ == old(self).cache@,
            !(kind is MorphTargetWeights) && !partition(old(self).cache@, attribute_of(
                kind,
            )).dom().contains(key@) && crate::ingest::stream_ok(
                interpolation,
                ticks@,
                values@.len() as int,
            ) ==> (r matches Ok(c) && c@.interpolation == interpolation && c@.frames
                == crate::ingest::baked_frames(interpolation, ticks@, values@) && curve_wf(c@)
                && partition(final(self).cache@, attribute_of(kind)) == partition(
                old(self).cache@,
                attribute_of(kind),
            ).insert(key@, c@)),
            r matches Ok(c) ==> curve_wf(c@) && partition(final(self).cache@, attribute_of(
                kind,
            )).contains_pair(key@, c@),
    {
        self.cache.bake_or_fetch(key, kind, interpolation, ticks, values)
    }

    /// Create a group for a scene, creating the scene's slot on first use,
    /// and return its handle within that scene.
    pub fn create_group(&mut self, scene_id: u64) -> (gid: usize)
        requires
            old(self).wf(),
        ensures
            final(self).wf(),
            final(self).cache == old(self).cache,
            final(self).queue == old(self).queue,
            has_scene(old(self).registry@, scene_id as int) ==> {
                let si = scene_index(old(self).registry@, scene_id as int);
                &&& gid as int == old(self).registry@[si].groups.len()
                &&& final(self).registry@ =~= old(self).registry@.update(
                    si,
                    SceneSlotView {
                        scene: scene_id as int,
                        groups: old(self).registry@[si].groups.push(idle_group()),
                    },
                )
            },
            !has_scene(old(self).registry@, scene_id as int) ==> gid == 0 && final(self).registry@
                =~= old(self).registry@.push(
                SceneSlotView {
                    scene: scene_id as int,
                    groups: seq![idle_group()],
                },
            ),
            has_group(final(self).registry@, scene_id as int, gid as int),
            group_at(final(self).registry@, scene_id as int, gid as int) == idle_group(),
    {
        let n = self.registry.scenes.len();
        let mut si: usize = 0;
        #[verifier::loop_isolation(false)]
        while si < n
            invariant
                si <= n,
                n == self.registry.scenes@.len(),
                forall|i: int| 0 <= i < si ==> (#[trigger] self.registry@[i]).scene != scene_id
                    as int,
                self == old(self),
            decreases n - si,
        {
            if self.registry.scenes[si].scene == scene_id {
                proof {
                    assert(self.registry@[si as int].scene == scene_id as int);
                    lemma_scene_index_agrees(self.registry@, scene_id as int, si as int);
                }
                let mut slot = SceneSlot { scene: 0, groups: Vec::new() };
                self.registry.scenes.set_and_swap(si, &mut slot);
                let gid = slot.groups.len();
                slot.groups.push(AnimationGroup::new());
                let ghost pushed_slot = slot@;
                self.registry.scenes.set_and_swap(si, &mut slot);
                proof {
                    assert(pushed_slot.groups =~= old(self).registry@[si as int].groups.push(
                        idle_group(),
                    ));
                    assert(self.registry@ =~= old(self).registry@.update(
                        si as int,
                        SceneSlotView {
                            scene: scene_id as int,
                            groups: old(self).registry@[si as int].groups.push(idle_group()),
                        },
                    ));
                    lemma_scene_index_agrees(self.registry@, scene_id as int, si as int);
                }
                return gid;
            }
            si = si + 1;
        }
        let mut groups: Vec<AnimationGroup> = Vec::new();
        groups.push(AnimationGroup::new());
        let slot = SceneSlot { scene: scene_id, groups };
        let ghost new_slot = slot@;
        self.registry.scenes.push(slot);
        proof {
            assert(new_slot.groups =~= seq![idle_group()]);
            assert(self.registry@ =~= old(self).registry@.push(
                SceneSlotView { scene: scene_id as int, groups: seq![idle_group()] },
            ));
            lemma_scene_index_agrees(
                self.registry@,
                scene_id as int,
                self.registry@.len() - 1,
            );
        }
        0
    }

    /// Record a target binding in a group: the given animation will drive
    /// `target_id`'s attribute whenever the group plays.
    pub fn add_target_animation(
        &mut self,
        scene_id: u64,
        target_id: u64,
        group_id: usize,
        animation: Animation,
    )
        requires
            old(self).wf(),
            has_group(old(self).registry@, scene_id as int, group_id as int),
            curve_wf(animation.curve@),
            animation.base_offset <= TICK_LIMIT,
        ensures
            final(self).wf(),
            final(self).cache == old(self).cache,
            final(self).queue == old(self).queue,
            has_group(final(self).registry@, scene_id as int, group_id as int),
            ({
                let g = group_at(old(self).registry@, scene_id as int, group_id as int);
                final(self).registry@ == registry_with_group(
                    old(self).registry@,
                    scene_id as int,
                    group_id as int,
                    GroupView {
                        targets: g.targets.push(
                            TargetAnimationView { target: target_id as int, animation: animation@ },
                        ),
                        ..g
                    },
                )
            }),
    {
        let ghost scenes0 = self.registry@;
        let ghost animation_view = animation@;
        let si_opt = self.registry.find_scene(scene_id);
        proof {
            assert(si_opt.is_some());
        }
        let si = si_opt.unwrap();
        proof {
            lemma_scene_index_agrees(scenes0, scene_id as int, si as int);
        }
        let mut slot = SceneSlot { scene: 0, groups: Vec::new() };
        self.registry.scenes.set_and_swap(si, &mut slot);
        proof {
            assert(slot@ == scenes0[si as int]);
            assert(group_id < slot.groups@.len());
        }
        let mut g = AnimationGroup::new();
        slot.groups.set_and_swap(group_id, &mut g);
        proof {
            assert(g@ == scenes0[si as int].groups[group_id as int]);
            assert(groups_wf(scenes0[si as int].groups));
            assert(group_wf(g@));
        }
        g.add_target(TargetAnimation { target: target_id, animation });
        let ghost gprime = g@;
        slot.groups.set_and_swap(group_id, &mut g);
        proof {
            assert(group_views(slot.groups@) =~= scenes0[si as int].groups.update(
                group_id as int,
                gprime,
            ));
            assert(slot@ == SceneSlotView {
                scene: scenes0[si as int].scene,
                groups: scenes0[si as int].groups.update(group_id as int, gprime),
            });
        }
        self.registry.scenes.set_and_swap(si, &mut slot);
        proof {
            assert(self.registry@ =~= registry_with_group(
                scenes0,
                scene_id as int,
                group_id as int,
                gprime,
            ));
            lemma_registry_update_wf(scenes0, si as int, group_id as int, gprime);
            lemma_scene_index_agrees(self.registry@, scene_id as int, si as int);
        }
    }

    /// Start a group playing over the tick window from `window_start` to `window_end`. Valid
    /// from `Idle`, `Stopped`, or `Playing` (a restart resets progress to
    /// the window start); starting a paused group is an invalid transition,
    /// reported and ignored.
    pub fn start(
        &mut self,
        scene_id: u64,
        group_id: usize,
        speed_permille: u32,
        loop_mode: LoopMode,
        window_start: u16,
        window_end: u16,
        ticks_per_second: u16,
        amount: AmountCalc,
    ) -> (r: Result<(), AnimError>)
        requires
            old(self).wf(),
            has_group(old(self).registry@, scene_id as int, group_id as int),
            window_start < window_end,
            1 <= ticks_per_second,
        ensures
            final(self).wf(),
            final(self).cache == old(self).cache,
            final(self).queue == old(self).queue,
            has_group(final(self).registry@, scene_id as int, group_id as int),
            ({
                let g = group_at(old(self).registry@, scene_id as int, group_id as int);
                if g.state is Paused {
                    r == Err::<(), AnimError>(AnimError::InvalidStateTransition) && final(self).registry@
                        == old(self).registry@
                } else {
                    r == Ok::<(), AnimError>(()) && final(self).registry@ == registry_with_group(
                        old(self).registry@,
                        scene_id as int,
                        group_id as int,
                        GroupView {
                            state: PlaybackState::Playing,
                            loop_mode,
                            speed_permille: speed_permille as int,
                            window_start: window_start as int,
                            window_end: window_end as int,
                            ticks_per_second: ticks_per_second as int,
                            amount,
                            acc: 0,
                            ..g
                        },
                    )
                }
            }),
    {
        let ghost scenes0 = self.registry@;
        let si_opt = self.registry.find_scene(scene_id);
        proof {
            assert(si_opt.is_some());
        }
        let si = si_opt.unwrap();
        proof {
            lemma_scene_index_agrees(scenes0, scene_id as int, si as int);
        }
        let mut slot = SceneSlot { scene: 0, groups: Vec::new() };
        self.registry.scenes.set_and_swap(si, &mut slot);
        proof {
            assert(slot@ == scenes0[si as int]);
            assert(group_id < slot.groups@.len());
        }
        let mut g = AnimationGroup::new();
        slot.groups.set_and_swap(group_id, &mut g);
        proof {
            assert(g@ == scenes0[si as int].groups[group_id as int]);
            assert(groups_wf(scenes0[si as int].groups));
            assert(group_wf(g@));
        }
        let r = g.start(
            speed_permille,
            loop_mode,
            window_start,
            window_end,
            ticks_per_second,
            amount,
        );
        let ghost gprime = g@;
        slot.groups.set_and_swap(group_id, &mut g);
        proof {
            assert(group_views(slot.groups@) =~= scenes0[si as int].groups.update(
                group_id as int,
                gprime,
            ));
            assert(slot@ == SceneSlotView {
                scene: scenes0[si as int].scene,
                groups: scenes0[si as int].groups.update(group_id as int, gprime),
            });
        }
        self.registry.scenes.set_and_swap(si, &mut slot);
        proof {
            assert(self.registry@ =~= registry_with_group(
                scenes0,
                scene_id as int,
                group_id as int,
                gprime,
            ));
            lemma_registry_update_wf(scenes0, si as int, group_id as int, gprime);
            lemma_scene_index_agrees(self.registry@, scene_id as int, si as int);
            if gprime == group_at(scenes0, scene_id as int, group_id as int) {
                assert(scenes0[si as int].groups.update(group_id as int, gprime)
                    =~= scenes0[si as int].groups);
                assert(self.registry@ =~= scenes0);
            }
        }
        r
    }

    /// Freeze a group's progress. Valid only from `Playing`.
    pub fn pause(&mut self, scene_id: u64, group_id: usize) -> (r: Result<(), AnimError>)
        requires
            old(self).wf(),
            has_group(old(self).registry@, scene_id as int, group_id as int),
        ensures
            final(self).wf(),
            final(self).cache == old(self).cache,
            final(self).queue == old(self).queue,
            has_group(final(self).registry@, scene_id as int, group_id as int),
            ({
                let g = group_at(old(self).registry@, scene_id as int, group_id as int);
                if g.state is Playing {
                    r == Ok::<(), AnimError>(()) && final(self).registry@ == registry_with_group(
                        old(self).registry@,
                        scene_id as int,
                        group_id as int,
                        GroupView { state: PlaybackState::Paused, ..g },
                    )
                } else {
                    r == Err::<(), AnimError>(AnimError::InvalidStateTransition) && final(self).registry@
                        == old(self).registry@
                }
            }),
    {
        let ghost scenes0 = self.registry@;
        let si_opt = self.registry.find_scene(scene_id);
        proof {
            assert(si_opt.is_some());
        }
        let si = si_opt.unwrap();
        proof {
            lemma_scene_index_agrees(scenes0, scene_id as int, si as int);
        }
        let mut slot = SceneSlot { scene: 0, groups: Vec::new() };
        self.registry.scenes.set_and_swap(si, &mut slot);
        proof {
            assert(slot@ == scenes0[si as int]);
            assert(group_id < slot.groups@.len());
        }
        let mut g = AnimationGroup::new();
        slot.groups.set_and_swap(group_id, &mut g);
        proof {
            assert(g@ == scenes0[si as int].groups[group_id as int]);
            assert(groups_wf(scenes0[si as int].groups));
            assert(group_wf(g@));
        }
        let r = g.pause();
        let ghost gprime = g@;
        slot.groups.set_and_swap(group_id, &mut g);
        proof {
            assert(group_views(slot.groups@) =~= scenes0[si as int].groups.update(
                group_id as int,
                gprime,
            ));
            assert(slot@ == SceneSlotView {
                scene: scenes0[si as int].scene,
                groups: scenes0[si as int].groups.update(group_id as int, gprime),
            });
        }
        self.registry.scenes.set_and_swap(si, &mut slot);
        proof {
            assert(self.registry@ =~= registry_with_group(
                scenes0,
                scene_id as int,
                group_id as int,
                gprime,
            ));
            lemma_registry_update_wf(scenes0, si as int, group_id as int, gprime);
            lemma_scene_index_agrees(self.registry@, scene_id as int, si as int);
            if gprime == group_at(scenes0, scene_id as int, group_id as int) {
                assert(scenes0[si as int].groups.update(group_id as int, gprime)
                    =~= scenes0[si as int].groups);
                assert(self.registry@ =~= scenes0);
            }
        }
        r
    }

    /// Continue a paused group from its frozen progress. Valid only from
    /// `Paused`.
    pub fn resume(&mut self, scene_id: u64, group_id: usize) -> (r: Result<(), AnimError>)
        requires
            old(self).wf(),
            has_group(old(self).registry@, scene_id as int, group_id as int),
        ensures
            final(self).wf(),
            final(self).cache == old(self).cache,
            final(self).queue == old(self).queue,
            has_group(final(self).registry@, scene_id as int, group_id as int),
            ({
                let g = group_at(old(self).registry@, scene_id as int, group_id as int);
                if g.state is Paused {
                    r == Ok::<(), AnimError>(()) && final(self).registry@ == registry_with_group(
                        old(self).registry@,
                        scene_id as int,
                        group_id as int,
                        GroupView { state: PlaybackState::Playing, ..g },
                    )
                } else {
                    r == Err::<(), AnimError>(AnimError::InvalidStateTransition) && final(self).registry@
                        == old(self).registry@
                }
            }),
    {
        let ghost scenes0 = self.registry@;
        let si_opt = self.registry.find_scene(scene_id);
        proof {
            assert(si_opt.is_some());
        }
        let si = si_opt.unwrap();
        proof {
            lemma_scene_index_agrees(scenes0, scene_id as int, si as int);
        }
        let mut slot = SceneSlot { scene: 0, groups: Vec::new() };
        self.registry.scenes.set_and_swap(si, &mut slot);
        proof {
            assert(slot@ == scenes0[si as int]);
            assert(group_id < slot.groups@.len());
        }
        let mut g = AnimationGroup::new();
        slot.groups.set_and_swap(group_id, &mut g);
        proof {
            assert(g@ == scenes0[si as int].groups[group_id as int]);
            assert(groups_wf(scenes0[si as int].groups));
            assert(group_wf(g@));
        }
        let r = g.resume();
        let ghost gprime = g@;
        slot.groups.set_and_swap(group_id, &mut g);
        proof {
            assert(group_views(slot.groups@) =~= scenes0[si as int].groups.update(
                group_id as int,
                gprime,
            ));
            assert(slot@ == SceneSlotView {
                scene: scenes0[si as int].scene,
                groups: scenes0[si as int].groups.update(group_id as int, gprime),
            });
        }
        self.registry.scenes.set_and_swap(si, &mut slot);
        proof {
            assert(self.registry@ =~= registry_with_group(
                scenes0,
                scene_id as int,
                group_id as int,
                gprime,
            ));
            lemma_registry_update_wf(scenes0, si as int, group_id as int, gprime);
            lemma_scene_index_agrees(self.registry@, scene_id as int, si as int);
            if gprime == group_at(scenes0, scene_id as int, group_id as int) {
                assert(scenes0[si as int].groups.update(group_id as int, gprime)
                    =~= scenes0[si as int].groups);
                assert(self.registry@ =~= scenes0);
            }
        }
        r
    }

    /// Reset a group to `Idle`; binding evaluation ceases. Valid from any
    /// non-idle state; stopping an idle group is reported and ignored.
    pub fn stop(&mut self, scene_id: u64, group_id: usize) -> (r: Result<(), AnimError>)
        requires
            old(self).wf(),
            has_group(old(self).registry@, scene_id as int, group_id as int),
        ensures
            final(self).wf(),
            final(self).cache == old(self).cache,
            final(self).queue == old(self).queue,
            has_group(final(self).registry@, scene_id as int, group_id as int),
            ({
                let g = group_at(old(self).registry@, scene_id as int, group_id as int);
                if g.state is Idle {
                    r == Err::<(), AnimError>(AnimError::InvalidStateTransition) && final(self).registry@
                        == old(self).registry@
                } else {
                    r == Ok::<(), AnimError>(()) && final(self).registry@ == registry_with_group(
                        old(self).registry@,
                        scene_id as int,
                        group_id as int,
                        GroupView { state: PlaybackState::Idle, acc: 0, ..g },
                    )
                }
            }),
    {
        let ghost scenes0 = self.registry@;
        let si_opt = self.registry.find_scene(scene_id);
        proof {
            assert(si_opt.is_some());
        }
        let si = si_opt.unwrap();
        proof {
            lemma_scene_index_agrees(scenes0, scene_id as int, si as int);
        }
        let mut slot = SceneSlot { scene: 0, groups: Vec::new() };
        self.registry.scenes.set_and_swap(si, &mut slot);
        proof {
            assert(slot@ == scenes0[si as int]);
            assert(group_id < slot.groups@.len());
        }
        let mut g = AnimationGroup::new();
        slot.groups.set_and_swap(group_id, &mut g);
        proof {
            assert(g@ == scenes0[si as int].groups[group_id as int]);
            assert(groups_wf(scenes0[si as int].groups));
            assert(group_wf(g@));
        }
        let r = g.stop();
        let ghost gprime = g@;
        slot.groups.set_and_swap(group_id, &mut g);
        proof {
            assert(group_views(slot.groups@) =~= scenes0[si as int].groups.update(
                group_id as int,
                gprime,
            ));
            assert(slot@ == SceneSlotView {
                scene: scenes0[si as int].scene,
                groups: scenes0[si as int].groups.update(group_id as int, gprime),
            });
        }
        self.registry.scenes.set_and_swap(si, &mut slot);
        proof {
            assert(self.registry@ =~= registry_with_group(
                scenes0,
                scene_id as int,
                group_id as int,
                gprime,
            ));
            lemma_registry_update_wf(scenes0, si as int, group_id as int, gprime);
            lemma_scene_index_agrees(self.registry@, scene_id as int, si as int);
            if gprime == group_at(scenes0, scene_id as int, group_id as int) {
                assert(scenes0[si as int].groups.update(group_id as int, gprime)
                    =~= scenes0[si as int].groups);
                assert(self.registry@ =~= scenes0);
            }
        }
        r
    }

    /// Advance playback by one frame's time budget, appending the frame's
    /// attribute-write commands to the queue in scene then group order.
    pub fn advance(&mut self, delta_ms: u32)
        requires
            old(self).wf(),
        ensures
            final(self).wf(),
            final(self).cache == old(self).cache,
            final(self).registry@ == scenes_step(old(self).registry@, delta_ms as int),
            final(self).queue@ == old(self).queue@ + scenes_emits(
                old(self).registry@,
                delta_ms as int,
            ),
    {
        let n = self.registry.scenes.len();
        let mut si: usize = 0;
        #[verifier::loop_isolation(false)]
        while si < n
            invariant
                si <= n,
                n == self.registry.scenes@.len(),
                self.registry.scenes@.len() == old(self).registry.scenes@.len(),
                self.cache == old(self).cache,
                forall|i: int|
                    si <= i < n ==> self.registry.scenes@[i] == old(self).registry.scenes@[i],
                forall|i: int|
                    0 <= i < si ==> (#[trigger] self.registry@[i]) == scenes_step(
                        old(self).registry@,
                        delta_ms as int,
                    )[i],
                registry_wf(self.registry@),
                self.queue@ == old(self).queue@ + scenes_emits(
                    old(self).registry@.take(si as int),
                    delta_ms as int,
                ),
            decreases n - si,
        {
            let ghost entry_scenes = self.registry.scenes@;
            let ghost entry_registry = self.registry@;
            let mut slot = SceneSlot { scene: 0, groups: Vec::new() };
            self.registry.scenes.set_and_swap(si, &mut slot);
            proof {
                assert(slot == old(self).registry.scenes@[si as int]);
                assert(old(self).registry@[si as int] == old(self).registry.scenes@[si as int]@);
                assert(groups_wf(group_views(slot.groups@)));
            }
            advance_groups(&mut slot.groups, delta_ms, &mut self.queue.items);
            self.registry.scenes.set_and_swap(si, &mut slot);
            proof {
                let ghost prior = old(self).registry@;
                let ghost prefix = prior.take(si as int);
                let ghost prefix1 = prior.take(si as int + 1);
                assert(prefix1.drop_last() =~= prefix);
                assert(prefix1.last() == prior[si as int]);
                assert(scenes_emits(prefix1, delta_ms as int) == scenes_emits(
                    prefix,
                    delta_ms as int,
                ) + groups_emits(prior[si as int].groups, delta_ms as int));
                assert(self.queue@ =~= old(self).queue@ + scenes_emits(
                    prefix1,
                    delta_ms as int,
                ));
                assert(forall|i: int|
                    0 <= i < n && i != si as int ==> self.registry.scenes@[i]
                        == entry_scenes[i]);
                assert(forall|i: int|
                    0 <= i < n ==> (#[trigger] self.registry@[i]) == self.registry.scenes@[i]@);
                assert(forall|i: int|
                    0 <= i < n ==> (#[trigger] entry_registry[i]) == entry_scenes[i]@);
                assert(self.registry@[si as int] == scenes_step(prior, delta_ms as int)[si as int]);
                assert forall|i: int| 0 <= i < si implies (#[trigger] self.registry@[i])
                    == scenes_step(prior, delta_ms as int)[i] by {
                    assert(entry_registry[i] == scenes_step(prior, delta_ms as int)[i]);
                    assert(self.registry.scenes@[i] == entry_scenes[i]);
                    assert(self.registry@[i] == self.registry.scenes@[i]@);
                    assert(entry_registry[i] == entry_scenes[i]@);
                }
                assert forall|i: int| 0 <= i < n implies groups_wf(
                    (#[trigger] self.registry@[i]).groups,
                ) by {
                    if i == si as int {
                        assert(self.registry@[i] == scenes_step(prior, delta_ms as int)[i]);
                    } else {
                        assert(entry_registry[i] == entry_scenes[i]@);
                        assert(self.registry.scenes@[i] == entry_scenes[i]);
                        assert(self.registry@[i] == self.registry.scenes@[i]@);
                        assert(groups_wf(entry_registry[i].groups));
                    }
                }
                assert forall|i: int| 0 <= i < n implies (#[trigger] self.registry@[i]).scene
                    == entry_registry[i].scene by {
                    assert(entry_registry[i] == entry_scenes[i]@);
                    assert(self.registry@[i] == self.registry.scenes@[i]@);
                    if i != si as int {
                        assert(self.registry.scenes@[i] == entry_scenes[i]);
                    } else {
                        assert(self.registry@[i] == scenes_step(prior, delta_ms as int)[i]);
                        assert(entry_scenes[i] == old(self).registry.scenes@[i]);
                        assert(prior[i] == old(self).registry.scenes@[i]@);
                        assert(entry_registry[i] == prior[i]);
                    }
                }
                assert(registry_wf(self.registry@));
            }
            si = si + 1;
        }
        proof {
            assert(old(self).registry@.take(n as int) =~= old(self).registry@);
            assert(self.registry@ =~= scenes_step(old(self).registry@, delta_ms as int));
        }
    }

    /// The playback state a group is currently in.
    pub fn group_state(&self, scene_id: u64, group_id: usize) -> (s: PlaybackState)
        requires
            self.wf(),
            has_group(self.registry@, scene_id as int, group_id as int),
        ensures
            s == group_at(self.registry@, scene_id as int, group_id as int).state,
    {
        let si_opt = self.registry.find_scene(scene_id);
        proof {
            assert(si_opt.is_some());
        }
        let si = si_opt.unwrap();
        proof {
            lemma_scene_index_agrees(self.registry@, scene_id as int, si as int);
            assert(self.registry@[si as int] == self.registry.scenes@[si as int]@);
        }
        let slot = &self.registry.scenes[si];
        proof {
            assert(group_id < slot.groups@.len());
            assert(slot.groups@[group_id as int]@ == slot@.groups[group_id as int]);
        }
        let g = &slot.groups[group_id];
        g.state
    }

    /// Hand this tick's commands to the consumer, emptying the queue.
    pub fn drain_commands(&mut self) -> (r: Vec<AttributeCommand>)
        requires
            old(self).wf(),
        ensures
            final(self).wf(),
            final(self).cache == old(self).cache,
            final(self).registry == old(self).registry,
            final(self).queue@ =~= Seq::<CommandView>::empty(),
            commands_view(r@) == old(self).queue@,
    {
        self.queue.drain()
    }
}

} // verus!
