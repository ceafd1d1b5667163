use parti_game::camera::Camera;
use parti_game::fixed::FP_ONE;
use parti_game::gameobject::GameObject;
use parti_game::invoker::{Command, Invoker};
use parti_game::mat4::Mat4;
use parti_game::vec3::Vec3;
use parti_game::invoker::Level;
use parti_game::world::{
    AvatorCommand, AvatorMap, CameraCommand, InputKey, World, WorldState, AVATOR_STEP, CAMERA_STEP,
};

fn test_camera() -> Camera {
    Camera::new(Vec3::new(0, 0, 0), Vec3::new(FP_ONE, 0, 0), Mat4::identity())
}

fn one_avatar(id: i32) -> AvatorMap {
    let mut map = AvatorMap::new();
    map.insert(id, GameObject::new(Vec3::new(0, 0, 0), Vec::new(), Vec::new()).unwrap());
    map
}

#[test]
fn invoker_replays_in_order_exactly_once() {
    let mut inv: Invoker<CameraCommand, Camera> = Invoker::new(test_camera());
    // two look-at commands do not commute: the later one must win
    inv.append_command(CameraCommand::LookAt(Vec3::new(1, 1, 1)));
    inv.append_command(CameraCommand::LookAt(Vec3::new(2, 2, 2)));
    inv.execute_all_commands();
    assert_eq!(inv.target.target, Vec3::new(2, 2, 2));
    assert_eq!(inv.commands.len(), 0);
    assert_eq!(inv.current_index, 0);
    // two moves must each land exactly once
    inv.append_command(CameraCommand::Move(Vec3::new(10, 0, 0)));
    inv.append_command(CameraCommand::Move(Vec3::new(5, 0, 0)));
    inv.execute_all_commands();
    assert_eq!(inv.target.position, Vec3::new(15, 0, 0));
    // replaying again with nothing queued changes nothing
    inv.execute_all_commands();
    assert_eq!(inv.target.position, Vec3::new(15, 0, 0));
    assert_eq!(inv.target.target, Vec3::new(2, 2, 2));
    assert_eq!(inv.commands.len(), 0);
}

#[test]
fn invoker_append_has_no_side_effect() {
    let mut inv: Invoker<CameraCommand, Camera> = Invoker::new(test_camera());
    inv.append_command(CameraCommand::Move(Vec3::new(10, 0, 0)));
    assert_eq!(inv.target.position, Vec3::new(0, 0, 0));
    assert_eq!(inv.commands.len(), 1);
}

#[test]
fn execute_command_steps_one_at_a_time() {
    let mut inv: Invoker<CameraCommand, Camera> = Invoker::new(test_camera());
    inv.append_command(CameraCommand::Move(Vec3::new(10, 0, 0)));
    inv.append_command(CameraCommand::Move(Vec3::new(0, 20, 0)));
    inv.execute_command();
    assert_eq!(inv.target.position, Vec3::new(10, 0, 0));
    assert_eq!(inv.current_index, 1);
    inv.execute_command();
    assert_eq!(inv.target.position, Vec3::new(10, 20, 0));
    inv.execute_command();
    assert_eq!(inv.target.position, Vec3::new(10, 20, 0));
    assert_eq!(inv.current_index, 2);
}

#[test]
fn get_level_reports_category() {
    assert_eq!(CameraCommand::Move(Vec3::new(0, 0, 0)).get_level(), Level::System);
    assert_eq!(AvatorCommand::Move(Vec3::new(0, 0, 0)).get_level(), Level::Avator);
}

#[test]
fn keys_move_the_player_avatar() {
    let mut w = World::new(one_avatar(1), test_camera());
    w.handle_input(InputKey::L);
    w.handle_input(InputKey::K);
    // nothing moves until the queue is replayed
    assert_eq!(w.avators.target.entries[0].1.position, Vec3::new(0, 0, 0));
    w.execute_all_commands();
    assert_eq!(
        w.avators.target.entries[0].1.position,
        Vec3::new(AVATOR_STEP, AVATOR_STEP, 0)
    );
    w.handle_input(InputKey::H);
    w.handle_input(InputKey::J);
    w.execute_all_commands();
    assert_eq!(w.avators.target.entries[0].1.position, Vec3::new(0, 0, 0));
}

#[test]
fn keys_move_the_camera() {
    let mut w = World::new(one_avatar(1), test_camera());
    w.handle_input(InputKey::W);
    w.handle_input(InputKey::D);
    w.execute_all_commands();
    assert_eq!(w.camera().position, Vec3::new(CAMERA_STEP, CAMERA_STEP, 0));
    w.handle_input(InputKey::S);
    w.handle_input(InputKey::A);
    w.execute_all_commands();
    assert_eq!(w.camera().position, Vec3::new(0, 0, 0));
}

#[test]
fn missing_player_id_is_a_quiet_no_op() {
    let mut w = World::new(one_avatar(2), test_camera());
    w.handle_input(InputKey::L);
    w.execute_all_commands();
    assert_eq!(w.avators.target.entries[0].1.position, Vec3::new(0, 0, 0));
}

#[test]
fn mode_toggle_flips_between_render_and_pose() {
    let mut w = World::new(one_avatar(1), test_camera());
    assert_eq!(w.state, WorldState::Render);
    w.handle_input(InputKey::M);
    assert_eq!(w.state, WorldState::Pose);
    w.handle_input(InputKey::M);
    assert_eq!(w.state, WorldState::Render);
}

#[test]
fn camera_direction_and_look_at() {
    let mut cam = test_camera();
    assert_eq!(cam.direction(), Vec3::new(FP_ONE, 0, 0));
    cam.look_at(Vec3::new(0, FP_ONE, 0));
    assert_eq!(cam.direction(), Vec3::new(0, FP_ONE, 0));
}

#[test]
fn view_matrix_of_axis_aligned_camera() {
    // Eye at the origin looking along +x with the world z axis up:
    // side = -y, up = +z, forward = +x.
    let cam = test_camera();
    let v = cam.view();
    let expected = Mat4::new([
        0, -FP_ONE, 0, 0,
        0, 0, FP_ONE, 0,
        -FP_ONE, 0, 0, 0,
        0, 0, 0, FP_ONE,
    ]);
    assert_eq!(v, expected);
    // with the identity perspective the projection is clamp-free and
    // equals the view matrix
    assert_eq!(cam.projection(), expected);
}
