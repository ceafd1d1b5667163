//! The world aggregate: the avatar table and the camera, each behind its
//! own command invoker, plus the game-mode state machine, and the mapping
//! from pressed keys to queued commands.

use vstd::prelude::*;

verus! {

use crate::camera::Camera;
use crate::gameobject::GameObject;
use crate::invoker::{Command, Invoker, Level, chain_ok};
use crate::vec3::Vec3;

/// How far one avatar move command travels (half a unit).
pub const AVATOR_STEP: i64 = 32768;

/// How far one camera move command travels (a tenth of a unit, rounded
/// down to the nearest representable value).
pub const CAMERA_STEP: i64 = 6553;

/// Key of the avatar that movement commands address.
pub const PLAYER_ID: i32 = 1;

/// A command addressed to the avatar table.
pub enum AvatorCommand {
    /// Move the player avatar by the given offset.
    Move(Vec3),
}

/// A command addressed to the camera.
pub enum CameraCommand {
    /// Move the eye by the given offset.
    Move(Vec3),
    /// Point the camera at the given target.
    LookAt(Vec3),
}

/// The game-mode state machine: normal rendering, or the pose-inspection
/// overlay.  A single toggle flips between the two; there are no other
/// transitions.
#[derive(Clone, Copy, PartialEq, Eq, Structural, Debug)]
pub enum WorldState {
    Render,
    Pose,
}

/// A pressed key with a meaning in this world: avatar movement
/// (`L`/`H`/`J`/`K`), camera movement (`W`/`S`/`A`/`D`), or the mode
/// toggle (`M`).
#[derive(Clone, Copy, PartialEq, Eq, Structural, Debug)]
pub enum InputKey {
    L,
    H,
    J,
    K,
    W,
    S,
    A,
    D,
    M,
}

/// The avatar table: game objects keyed by id, in load order.
pub struct AvatorMap {
    /// The `(id, object)` pairs.
    pub entries: Vec<(i32, GameObject)>,
}

/// `s` after moving every object stored under `id` by `v`; with unique
/// keys, the one so named.  A missing key moves nothing.
pub open spec fn spec_translated(s: Seq<(i32, GameObject)>, id: i32, v: Vec3) -> Seq<
    (i32, GameObject),
> {
    s.map(
        |k: int, e: (i32, GameObject)|
            if e.0 == id {
                (
                    e.0,
                    GameObject {
                        position: e.1.position.spec_plus(v),
                        joints: e.1.joints,
                        animations: e.1.animations,
                    },
                )
            } else {
                e
            },
    )
}

impl AvatorMap {

    /// An empty table.
    pub fn new() -> (r: AvatorMap)
        ensures
            r.entries@.len() == 0,
    {
        AvatorMap { entries: Vec::new() }
    }

    /// Adds an object under `id`.
    pub fn insert(&mut self, id: i32, obj: GameObject)
        ensures
            final(self).entries@ == old(self).entries@.push((id, obj)),
    {
        self.entries.push((id, obj));
    }

    /// Moves every avatar stored under `id` by `v`; with unique keys,
    /// the one so named.  A missing key is a no-op rather than an
    /// error, so a stray command cannot take the world down.
    pub fn translate_by_id(&mut self, id: i32, v: Vec3)
        ensures
            final(self).entries@ == spec_translated(old(self).entries@, id, v),
    {
        let ghost pre: Seq<(i32, GameObject)> = self.entries@;
        let n = self.entries.len();
        let mut i: usize = 0;
        while i < n
            invariant
                n == self.entries@.len(),
                i <= n,
                pre.len() == n,
                forall|k: int| i <= k < n ==> self.entries@[k] == pre[k],
                forall|k: int|
                    0 <= k < i ==> self.entries@[k] == spec_translated(pre, id, v)[k],
            decreases n - i,
        {
            let ghost before: Seq<(i32, GameObject)> = self.entries@;
            let e = entry_at(&mut self.entries, i);
            if e.0 == id {
                e.1.translate(v);
            }
            proof {
                assert(self.entries@ == before.update(i as int, self.entries@[i as int]));
                assert(self.entries@[i as int] == spec_translated(pre, id, v)[i as int]);
            }
            i += 1;
        }
        proof {
            assert(self.entries@ =~= spec_translated(pre, id, v));
        }
    }
}

/// A mutable borrow of the table entry at `i`.
fn entry_at(list: &mut Vec<(i32, GameObject)>, i: usize) -> (e: &mut (i32, GameObject))
    requires
        i < old(list)@.len(),
    ensures
        *e == old(list)@[i as int],
        final(list)@ == old(list)@.update(i as int, *final(e)),
{
    &mut list[i]
}

impl Command<AvatorMap> for AvatorCommand {
    open spec fn applies(&self, pre: AvatorMap, post: AvatorMap) -> bool {
        match *self {
            AvatorCommand::Move(v) => post.entries@ == spec_translated(
                pre.entries@,
                PLAYER_ID,
                v,
            ),
        }
    }

    open spec fn spec_level(&self) -> Level {
        Level::Avator
    }

    fn get_level(&self) -> (l: Level) {
        Level::Avator
    }

    fn execute(&self, t: &mut AvatorMap) {
        match self {
            AvatorCommand::Move(v) => t.translate_by_id(PLAYER_ID, *v),
        }
    }
}

impl Command<Camera> for CameraCommand {
    open spec fn applies(&self, pre: Camera, post: Camera) -> bool {
        match *self {
            CameraCommand::Move(v) => post == (Camera {
                position: pre.position.spec_plus(v),
                target: pre.target,
                perspective: pre.perspective,
            }),
            CameraCommand::LookAt(v) => post == (Camera {
                position: pre.position,
                target: v,
                perspective: pre.perspective,
            }),
        }
    }

    open spec fn spec_level(&self) -> Level {
        Level::System
    }

    fn get_level(&self) -> (l: Level) {
        Level::System
    }

    fn execute(&self, t: &mut Camera) {
        match self {
            CameraCommand::Move(v) => t.translate(*v),
            CameraCommand::LookAt(v) => t.look_at(*v),
        }
    }
}

/// The world: every entity category behind its own command invoker, plus
/// the game-mode flag.
pub struct World {
    /// The avatar table and its queued commands.
    pub avators: Invoker<AvatorCommand, AvatorMap>,
    /// The camera and its queued commands.
    pub camera: Invoker<CameraCommand, Camera>,
    /// The current game mode.
    pub state: WorldState,
}

impl World {
    /// Assembles a world around loaded avatars and a camera, with empty
    /// command queues, in the render mode.
    pub fn new(avators: AvatorMap, camera: Camera) -> (w: World)
        ensures
            w.avators.target == avators,
            w.avators.commands@.len() == 0,
            w.avators.current_index == 0,
            w.camera.target == camera,
            w.camera.commands@.len() == 0,
            w.camera.current_index == 0,
            w.state == WorldState::Render,
    {
        World {
            avators: Invoker::new(avators),
            camera: Invoker::new(camera),
            state: WorldState::Render,
        }
    }

    /// The camera entity.
    pub fn camera(&self) -> (c: &Camera)
        ensures
            c == &self.camera.target,
    {
        &self.camera.target
    }

    /// Queues the command a pressed key stands for: `L`/`H`/`J`/`K` move
    /// the player avatar by half a unit, `W`/`S`/`A`/`D` move the camera
    /// by a tenth of a unit, and `M` toggles the game mode.
    pub fn handle_input(&mut self, key: InputKey)
        ensures
            match key {
                InputKey::L => final(self).avators.commands@ == old(self).avators.commands@.push(
                    AvatorCommand::Move(Vec3 { x: AVATOR_STEP, y: 0, z: 0 }),
                ),
                InputKey::H => final(self).avators.commands@ == old(self).avators.commands@.push(
                    AvatorCommand::Move(Vec3 { x: (-AVATOR_STEP) as i64, y: 0, z: 0 }),
                ),
                InputKey::J => final(self).avators.commands@ == old(self).avators.commands@.push(
                    AvatorCommand::Move(Vec3 { x: 0, y: (-AVATOR_STEP) as i64, z: 0 }),
                ),
                InputKey::K => final(self).avators.commands@ == old(self).avators.commands@.push(
                    AvatorCommand::Move(Vec3 { x: 0, y: AVATOR_STEP, z: 0 }),
                ),
                InputKey::W => final(self).camera.commands@ == old(self).camera.commands@.push(
                    CameraCommand::Move(Vec3 { x: 0, y: CAMERA_STEP, z: 0 }),
                ),
                InputKey::S => final(self).camera.commands@ == old(self).camera.commands@.push(
                    CameraCommand::Move(Vec3 { x: 0, y: (-CAMERA_STEP) as i64, z: 0 }),
                ),
                InputKey::A => final(self).camera.commands@ == old(self).camera.commands@.push(
                    CameraCommand::Move(Vec3 { x: (-CAMERA_STEP) as i64, y: 0, z: 0 }),
                ),
                InputKey::D => final(self).camera.commands@ == old(self).camera.commands@.push(
                    CameraCommand::Move(Vec3 { x: CAMERA_STEP, y: 0, z: 0 }),
                ),
                InputKey::M => final(self).state == (if old(self).state == WorldState::Render {
                    WorldState::Pose
                } else {
                    WorldState::Render
                }),
            },
            key != InputKey::M ==> final(self).state == old(self).state,
            !(key == InputKey::L || key == InputKey::H || key == InputKey::J || key
                == InputKey::K) ==> final(self).avators == old(self).avators,
            !(key == InputKey::W || key == InputKey::S || key == InputKey::A || key
                == InputKey::D) ==> final(self).camera == old(self).camera,
            final(self).avators.target == old(self).avators.target,
            final(self).avators.current_index == old(self).avators.current_index,
            final(self).camera.target == old(self).camera.target,
            final(self).camera.current_index == old(self).camera.current_index,
    {
        match key {
            InputKey::L => self.avators.append_command(
                AvatorCommand::Move(Vec3 { x: AVATOR_STEP, y: 0, z: 0 }),
            ),
            InputKey::H => self.avators.append_command(
                AvatorCommand::Move(Vec3 { x: (-AVATOR_STEP) as i64, y: 0, z: 0 }),
            ),
            InputKey::J => self.avators.append_command(
                AvatorCommand::Move(Vec3 { x: 0, y: (-AVATOR_STEP) as i64, z: 0 }),
            ),
            InputKey::K => self.avators.append_command(
                AvatorCommand::Move(Vec3 { x: 0, y: AVATOR_STEP, z: 0 }),
            ),
            InputKey::W => self.camera.append_command(
                CameraCommand::Move(Vec3 { x: 0, y: CAMERA_STEP, z: 0 }),
            ),
            InputKey::S => self.camera.append_command(
                CameraCommand::Move(Vec3 { x: 0, y: (-CAMERA_STEP) as i64, z: 0 }),
            ),
            InputKey::A => self.camera.append_command(
                CameraCommand::Move(Vec3 { x: (-CAMERA_STEP) as i64, y: 0, z: 0 }),
            ),
            InputKey::D => self.camera.append_command(
                CameraCommand::Move(Vec3 { x: CAMERA_STEP, y: 0, z: 0 }),
            ),
            InputKey::M => {
                self.state = if self.state == WorldState::Render {
                    WorldState::Pose
                } else {
                    WorldState::Render
                };
            },
        }
    }

    /// Replays all queued avatar commands, then all queued camera
    /// commands, and leaves both queues empty.
    pub fn execute_all_commands(&mut self)
        requires
            old(self).avators.current_index <= old(self).avators.commands@.len(),
            old(self).camera.current_index <= old(self).camera.commands@.len(),
        ensures
            exists|states: Seq<AvatorMap>|
                {
                    &&& #[trigger] chain_ok(
                        old(self).avators.commands@.skip(old(self).avators.current_index as int),
                        states,
                    )
                    &&& states[0] == old(self).avators.target
                    &&& states.last() == final(self).avators.target
                },
            exists|states: Seq<Camera>|
                {
                    &&& #[trigger] chain_ok(
                        old(self).camera.commands@.skip(old(self).camera.current_index as int),
                        states,
                    )
                    &&& states[0] == old(self).camera.target
                    &&& states.last() == final(self).camera.target
                },
            final(self).avators.commands@.len() == 0,
            final(self).camera.commands@.len() == 0,
            final(self).avators.current_index == 0,
            final(self).camera.current_index == 0,
            final(self).state == old(self).state,
    {
        self.avators.execute_all_commands();
        self.camera.execute_all_commands();
    }
}

} // verus!
