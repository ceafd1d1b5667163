use parti_game::fixed::{CYCLE_TICKS, FP_ONE, MAT_LIMIT};
use parti_game::gameobject::{GameObject, LoadError, SkinningError};
use parti_game::joint::{Joint, ROOT_PARENT};
use parti_game::mat4::Mat4;
use parti_game::vec3::Vec3;

fn origin() -> Vec3 {
    Vec3::new(0, 0, 0)
}

fn root_joint(bind: Mat4, inverse_bind: Mat4) -> Joint {
    Joint { joint_index: 0, parent_index: ROOT_PARENT, bind, inverse_bind }
}

#[test]
fn empty_skeleton_yields_one_identity() {
    let obj = GameObject::new(origin(), Vec::new(), Vec::new()).unwrap();
    let out = obj.get_skinning(0).unwrap();
    assert_eq!(out.len(), 1);
    assert_eq!(out[0], Mat4::identity());
    let out = obj.get_skinning(123_456).unwrap();
    assert_eq!(out.len(), 1);
    assert_eq!(out[0], Mat4::identity());
    let out = obj.get_skinning_at(7).unwrap();
    assert_eq!(out.len(), 1);
    assert_eq!(out[0], Mat4::identity());
}

#[test]
fn unanimated_joint_outputs_bind_chain() {
    // A root joint without any track exports parent_world * bind and is
    // not post-multiplied by its inverse bind pose.
    let bind = Mat4::translation(3 * FP_ONE, 0, 0);
    let inverse_bind = Mat4::translation(-5 * FP_ONE, 0, 0);
    let obj = GameObject::new(origin(), vec![root_joint(bind, inverse_bind)], Vec::new()).unwrap();
    let out = obj.get_skinning(0).unwrap();
    assert_eq!(out.len(), 1);
    assert_eq!(out[0], bind);
}

#[test]
fn single_root_blends_halfway() {
    // One root joint, bind and inverse bind the identity, a track of two
    // keyframes: the identity at t=0 and a unit translation at t=2.  At
    // an elapsed time of 1.0 the blend factor is exactly one half.
    let track = vec![(0, Mat4::identity()), (2 * FP_ONE, Mat4::translation(FP_ONE, 0, 0))];
    let obj = GameObject::new(
        origin(),
        vec![root_joint(Mat4::identity(), Mat4::identity())],
        vec![track],
    )
    .unwrap();
    let out = obj.get_skinning(FP_ONE).unwrap();
    assert_eq!(out.len(), 1);
    assert_eq!(out[0], Mat4::translation(FP_ONE / 2, 0, 0));
}

#[test]
fn midpoint_is_componentwise_mean() {
    let a = Mat4::new([
        FP_ONE, 0, 0, 700, 0, FP_ONE, 0, -900, 0, 0, FP_ONE, 41, 0, 0, 0, FP_ONE,
    ]);
    let b = Mat4::new([
        FP_ONE, 0, 0, 1300, 0, FP_ONE, 0, -100, 0, 0, FP_ONE, 44, 0, 0, 0, FP_ONE,
    ]);
    let obj = GameObject::new(
        origin(),
        vec![root_joint(Mat4::identity(), Mat4::identity())],
        vec![vec![(0, a), (2 * FP_ONE, b)]],
    )
    .unwrap();
    // elapsed 1.0 sits exactly halfway between the two keyframes
    let out = obj.get_skinning(FP_ONE).unwrap();
    for r in 0..4 {
        for c in 0..4 {
            let mean = (a.entry(r, c) + b.entry(r, c)).div_euclid(2);
            assert_eq!(out[0].entry(r, c), mean);
        }
    }
}

#[test]
fn exact_sample_boundary_has_no_blend_error() {
    let p0 = Mat4::translation(0, 0, 0);
    let p1 = Mat4::translation(FP_ONE, -2 * FP_ONE, 17);
    let obj = GameObject::new(
        origin(),
        vec![root_joint(Mat4::identity(), Mat4::identity())],
        vec![vec![(0, p0), (2 * FP_ONE, p1)]],
    )
    .unwrap();
    // k = 1 sample periods: time = 1 * CYCLE / 2, landing exactly on p1
    let out = obj.get_skinning(CYCLE_TICKS / 2).unwrap();
    assert_eq!(out[0], p1);
    // k = 2 wraps back to p0
    let out = obj.get_skinning(CYCLE_TICKS).unwrap();
    assert_eq!(out[0], p0);
}

#[test]
fn time_wraps_by_whole_cycles() {
    let track = vec![(0, Mat4::identity()), (2 * FP_ONE, Mat4::translation(FP_ONE, 5, -7))];
    let obj = GameObject::new(
        origin(),
        vec![root_joint(Mat4::identity(), Mat4::identity())],
        vec![track],
    )
    .unwrap();
    for t in [0, 12_345, FP_ONE, 3 * FP_ONE + 41] {
        let now = obj.get_skinning(t).unwrap();
        let next_cycle = obj.get_skinning(t + CYCLE_TICKS).unwrap();
        assert_eq!(now, next_cycle);
    }
}

#[test]
fn frame_index_wraps_by_track_length() {
    let track = vec![
        (0, Mat4::translation(1, 2, 3)),
        (FP_ONE, Mat4::translation(4, 5, 6)),
        (2 * FP_ONE, Mat4::translation(7, 8, 9)),
    ];
    let obj = GameObject::new(
        origin(),
        vec![root_joint(Mat4::identity(), Mat4::identity())],
        vec![track],
    )
    .unwrap();
    for frame in 0..6 {
        let now = obj.get_skinning_at(frame).unwrap();
        let wrapped = obj.get_skinning_at(frame + 3).unwrap();
        assert_eq!(now, wrapped);
    }
}

#[test]
fn child_joint_composes_with_inverse_bind() {
    // Joint 0 has no track and the identity bind; joint 1 carries a
    // one-keyframe track with a pure translation and the identity
    // inverse bind, so its skinning output is exactly that translation.
    let joints = vec![
        root_joint(Mat4::identity(), Mat4::identity()),
        Joint {
            joint_index: 1,
            parent_index: 0,
            bind: Mat4::identity(),
            inverse_bind: Mat4::identity(),
        },
    ];
    let animations = vec![Vec::new(), vec![(0, Mat4::translation(0, FP_ONE, 0))]];
    let obj = GameObject::new(origin(), joints, animations).unwrap();
    let out = obj.get_skinning(FP_ONE / 3).unwrap();
    assert_eq!(out.len(), 2);
    assert_eq!(out[0], Mat4::identity());
    assert_eq!(out[1], Mat4::translation(0, FP_ONE, 0));
    let out = obj.get_skinning_at(11).unwrap();
    assert_eq!(out[1], Mat4::translation(0, FP_ONE, 0));
}

#[test]
fn overflow_is_reported_not_wrapped() {
    let big = Mat4::new([MAT_LIMIT; 16]);
    let obj = GameObject::new(
        origin(),
        vec![root_joint(Mat4::identity(), big)],
        vec![vec![(0, big)]],
    )
    .unwrap();
    assert!(matches!(obj.get_skinning(0), Err(SkinningError::Overflow)));
    assert!(matches!(obj.get_skinning_at(0), Err(SkinningError::Overflow)));
}

#[test]
fn construction_rejects_bad_skeletons() {
    // joint stored at the wrong position
    let misplaced = Joint {
        joint_index: 1,
        parent_index: ROOT_PARENT,
        bind: Mat4::identity(),
        inverse_bind: Mat4::identity(),
    };
    assert_eq!(
        GameObject::new(origin(), vec![misplaced], Vec::new()).unwrap_err(),
        LoadError::InvalidSkeleton
    );
    // parent at or after the child
    let self_parent = Joint {
        joint_index: 0,
        parent_index: 0,
        bind: Mat4::identity(),
        inverse_bind: Mat4::identity(),
    };
    assert_eq!(
        GameObject::new(origin(), vec![self_parent], Vec::new()).unwrap_err(),
        LoadError::InvalidSkeleton
    );
    // a bind entry outside the representable range
    let wild = Mat4::new([i64::MAX; 16]);
    assert_eq!(
        GameObject::new(origin(), vec![root_joint(wild, Mat4::identity())], Vec::new())
            .unwrap_err(),
        LoadError::InvalidSkeleton
    );
    // too many joints
    let mut many = Vec::new();
    for i in 0..256usize {
        many.push(Joint {
            joint_index: i as u8,
            parent_index: ROOT_PARENT,
            bind: Mat4::identity(),
            inverse_bind: Mat4::identity(),
        });
    }
    assert_eq!(
        GameObject::new(origin(), many, Vec::new()).unwrap_err(),
        LoadError::InvalidSkeleton
    );
}

#[test]
fn construction_rejects_bad_tracks() {
    let wild = Mat4::new([i64::MIN; 16]);
    let obj = GameObject::new(
        origin(),
        vec![root_joint(Mat4::identity(), Mat4::identity())],
        vec![vec![(0, wild)]],
    );
    assert_eq!(obj.unwrap_err(), LoadError::InvalidTrack);
}

#[test]
fn translate_moves_position_saturating() {
    let mut obj = GameObject::new(origin(), Vec::new(), Vec::new()).unwrap();
    obj.translate(Vec3::new(FP_ONE, -FP_ONE, 3));
    assert_eq!(obj.position, Vec3::new(FP_ONE, -FP_ONE, 3));
    obj.translate(Vec3::new(i64::MAX, 0, 0));
    assert_eq!(obj.position.x, i64::MAX);
}
