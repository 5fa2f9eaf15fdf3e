use aios_kernel::compositor::surface::{
    DamageRect, DamageRegion, SurfaceContentType, SurfaceError, SurfaceLayer, SurfaceState, SurfaceTable, SurfaceTitle,
};
use aios_kernel::ids::{ChannelId, ProcessId, SharedMemoryId, SurfaceId, MAX_SURFACES};

fn create(t: &mut SurfaceTable, owner: u32, title: &[u8]) -> Result<SurfaceId, SurfaceError> {
    t.surface_create(
        ProcessId(owner),
        ChannelId(7),
        320,
        200,
        SurfaceTitle::from_bytes(title),
        SurfaceContentType::Generic,
        SurfaceLayer::Normal,
    )
}

#[test]
fn surfaces_get_fresh_ids_and_start_created() {
    let mut t = SurfaceTable::new();
    let a = create(&mut t, 2, b"a").unwrap();
    let b = create(&mut t, 2, b"b").unwrap();
    assert_eq!((a, b), (SurfaceId(1), SurfaceId(2)));
    let s = t.get(a).unwrap();
    assert_eq!(s.state, SurfaceState::Created);
    assert_eq!((s.width, s.height), (320, 200));
    assert_eq!(s.title.as_bytes(), b"a");
    assert_eq!(s.owner_pid, ProcessId(2));
    // A zero side is refused and uses no id.
    let zero = t.surface_create(
        ProcessId(2),
        ChannelId(7),
        0,
        10,
        SurfaceTitle::from_bytes(b"z"),
        SurfaceContentType::Generic,
        SurfaceLayer::Normal,
    );
    assert_eq!(zero, Err(SurfaceError::InvalidSize));
    // Destroyed ids are not reused.
    t.surface_destroy(a, ProcessId(2)).unwrap();
    assert!(t.get(a).is_none());
    assert_eq!(create(&mut t, 2, b"c").unwrap(), SurfaceId(3));
}

#[test]
fn table_fills_up() {
    let mut t = SurfaceTable::new();
    for _ in 0..MAX_SURFACES {
        create(&mut t, 2, b"w").unwrap();
    }
    assert_eq!(create(&mut t, 2, b"w"), Err(SurfaceError::TableFull));
}

#[test]
fn attach_buffer_activates_and_marks_damage() {
    let mut t = SurfaceTable::new();
    let id = create(&mut t, 2, b"app").unwrap();
    assert_eq!(
        t.surface_attach_buffer(id, SharedMemoryId(4), DamageRegion::FullSurface, ProcessId(3)),
        Err(SurfaceError::NotOwner)
    );
    assert_eq!(
        t.surface_attach_buffer(SurfaceId(99), SharedMemoryId(4), DamageRegion::FullSurface, ProcessId(2)),
        Err(SurfaceError::NotFound)
    );
    t.surface_attach_buffer(id, SharedMemoryId(4), DamageRegion::NoDamage, ProcessId(2)).unwrap();
    let s = t.get(id).unwrap();
    assert_eq!(s.state, SurfaceState::Active);
    assert_eq!(s.shmem_id, Some(SharedMemoryId(4)));
    // A new surface starts damaged; attaching without damage keeps that.
    assert!(s.damaged);
    let rect = DamageRect { x: 0, y: 0, width: 4, height: 4 };
    t.surface_attach_buffer(id, SharedMemoryId(5), DamageRegion::Rect(rect), ProcessId(2)).unwrap();
    assert!(t.get(id).unwrap().damaged);
    assert_eq!(t.get(id).unwrap().shmem_id, Some(SharedMemoryId(5)));
}

#[test]
fn resize_move_hide_and_relayer() {
    let mut t = SurfaceTable::new();
    let id = create(&mut t, 2, b"app").unwrap();
    assert_eq!(t.surface_resize(id, 0, 5, ProcessId(2)), Err(SurfaceError::InvalidSize));
    assert_eq!(t.surface_resize(id, 640, 480, ProcessId(2)), Ok((640, 480)));
    t.surface_set_position(id, -5, 12, ProcessId(2)).unwrap();
    t.surface_set_visible(id, false, ProcessId(2)).unwrap();
    let before = t.get(id).unwrap().layer_seq;
    t.surface_set_layer(id, SurfaceLayer::TopLevel, ProcessId(2)).unwrap();
    let s = t.get(id).unwrap();
    assert_eq!((s.width, s.height, s.x, s.y), (640, 480, -5, 12));
    assert!(!s.visible);
    assert!(s.damaged);
    assert_eq!(s.layer, SurfaceLayer::TopLevel);
    assert!(s.layer_seq > before);
    assert_eq!(t.surface_set_position(id, 0, 0, ProcessId(9)), Err(SurfaceError::NotOwner));
}

#[test]
fn lifecycle_transitions() {
    assert!(SurfaceState::Created.can_transition_to(SurfaceState::Active));
    assert!(SurfaceState::Created.can_transition_to(SurfaceState::Configured));
    assert!(SurfaceState::Active.can_transition_to(SurfaceState::Suspended));
    assert!(SurfaceState::Suspended.can_transition_to(SurfaceState::Active));
    assert!(SurfaceState::Suspended.can_transition_to(SurfaceState::Destroyed));
    assert!(!SurfaceState::Destroyed.can_transition_to(SurfaceState::Active));
    assert!(!SurfaceState::Configured.can_transition_to(SurfaceState::Created));
    assert!(SurfaceState::Destroyed.is_terminal());
    assert!(!SurfaceState::Active.is_terminal());
}

#[test]
fn mark_damaged_ignores_unknown_surfaces() {
    let mut t = SurfaceTable::new();
    let id = create(&mut t, 2, b"app").unwrap();
    assert!(t.get(id).unwrap().damaged);
    t.mark_damaged(id);
    assert!(t.get(id).unwrap().damaged);
    let before: Vec<Option<(u64, bool)>> = t.slots().iter().map(|o| o.map(|s| (s.id.0, s.damaged))).collect();
    t.mark_damaged(SurfaceId(42));
    let after: Vec<Option<(u64, bool)>> = t.slots().iter().map(|o| o.map(|s| (s.id.0, s.damaged))).collect();
    assert_eq!(after, before);
}
