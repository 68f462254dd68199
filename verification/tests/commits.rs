use wprs_compositor::commit::commit;
use wprs_compositor::commit::commit_inner;
use wprs_compositor::commit::commit_violation;
use wprs_compositor::commit::decode_buffer;
use wprs_compositor::commit::execute_or_defer_commit;
use wprs_compositor::commit::find_claim;
use wprs_compositor::commit::BufferAssignment;
use wprs_compositor::commit::CommitError;
use wprs_compositor::commit::CommitPlan;
use wprs_compositor::commit::CommitRequest;
use wprs_compositor::commit::InvariantViolation;
use wprs_compositor::commit::ShmBuffer;
use wprs_compositor::decoration::DecorationBehavior;
use wprs_compositor::geometry::Offset;
use wprs_compositor::geometry::Point;
use wprs_compositor::geometry::Size;
use wprs_compositor::lifecycle::BridgeSignal;
use wprs_compositor::parent::ParentViolation;
use wprs_compositor::parent::X11Parent;
use wprs_compositor::parent::X11ParentForPopup;
use wprs_compositor::registry::Buffer;
use wprs_compositor::registry::FrameState;
use wprs_compositor::registry::PixelFormat;
use wprs_compositor::registry::Role;
use wprs_compositor::registry::ToplevelState;
use wprs_compositor::registry::X11Window;
use wprs_compositor::state::WprsCompositorState;

fn ready_state() -> WprsCompositorState {
    let mut state = WprsCompositorState::new(DecorationBehavior::Auto);
    state.bridge_signal(BridgeSignal::Ready { display: 0 });
    state
}

fn window_of(id: u32, surface: u64) -> X11Window {
    X11Window { id, surface: Some(surface), transient_for: None, origin: Point { x: 0, y: 0 } }
}

fn child_window(id: u32, surface: u64, target: u32) -> X11Window {
    X11Window { id, surface: Some(surface), transient_for: Some(target), origin: Point { x: 0, y: 0 } }
}

fn no_buffer() -> CommitRequest {
    CommitRequest { buffer: BufferAssignment::Unchanged, pool_available: true }
}

fn pool_bytes(n: usize) -> Vec<u8> {
    let mut bytes = Vec::new();
    for i in 0..n {
        bytes.push((i % 251) as u8);
    }
    bytes
}

fn shm(format: u32, width: i32, height: i32, stride: i32, offset: i32, pool: usize) -> ShmBuffer {
    ShmBuffer { format, width, height, stride, offset, pool: pool_bytes(pool) }
}

fn with_new_buffer(raw: ShmBuffer) -> CommitRequest {
    CommitRequest { buffer: BufferAssignment::NewBuffer(raw), pool_available: true }
}

fn dirty_toplevel(configured: bool, dirty: bool) -> Role {
    Role::Toplevel(ToplevelState {
        configured,
        frame: Some(FrameState { offset: Point { x: 2, y: 24 }, dirty }),
    })
}

fn checked_commit(
    state: &mut WprsCompositorState,
    surface: u64,
    request: CommitRequest,
) -> Result<CommitPlan, CommitError> {
    assert_eq!(commit_violation(state, surface), None);
    commit_inner(surface, request, state)
}

#[test]
fn decode_cuts_the_rows_out_of_the_pool() {
    let raw = shm(1, 2, 2, 8, 4, 32);
    let buffer = decode_buffer(&raw).unwrap();
    assert_eq!(
        buffer,
        Buffer {
            format: PixelFormat::Xrgb8888,
            size: Size { w: 2, h: 2 },
            stride: 8,
            data: (4..20).collect(),
        }
    );
    let raw = shm(0, 1, 1, 4, 0, 4);
    let buffer = decode_buffer(&raw).unwrap();
    assert_eq!(buffer.format, PixelFormat::Argb8888);
    assert_eq!(buffer.data, vec![0, 1, 2, 3]);
}

#[test]
fn decode_takes_a_stride_wider_than_the_row() {
    let raw = shm(0, 1, 3, 6, 2, 20);
    let buffer = decode_buffer(&raw).unwrap();
    assert_eq!(buffer.stride, 6);
    assert_eq!(buffer.data, (2..20).collect::<Vec<u8>>());
}

#[test]
fn decode_names_what_is_wrong() {
    assert_eq!(decode_buffer(&shm(2, 1, 1, 4, 0, 4)), Err(CommitError::UnsupportedFormat));
    assert_eq!(decode_buffer(&shm(875713089, 1, 1, 4, 0, 4)), Err(CommitError::UnsupportedFormat));
    assert_eq!(decode_buffer(&shm(0, 0, 1, 4, 0, 4)), Err(CommitError::BadGeometry));
    assert_eq!(decode_buffer(&shm(0, 1, 0, 4, 0, 4)), Err(CommitError::BadGeometry));
    assert_eq!(decode_buffer(&shm(0, -1, 1, 4, 0, 4)), Err(CommitError::BadGeometry));
    assert_eq!(decode_buffer(&shm(0, 1, 1, 4, -1, 4)), Err(CommitError::BadGeometry));
    assert_eq!(decode_buffer(&shm(0, 2, 1, 7, 0, 16)), Err(CommitError::BadGeometry));
    assert_eq!(decode_buffer(&shm(0, 1, 1, 4, 1, 4)), Err(CommitError::OutOfBounds));
    assert_eq!(decode_buffer(&shm(0, 1, 2, 4, 0, 7)), Err(CommitError::OutOfBounds));
    assert_eq!(
        decode_buffer(&shm(0, 1, i32::MAX, i32::MAX, i32::MAX, 8)),
        Err(CommitError::OutOfBounds)
    );
    assert_eq!(decode_buffer(&shm(7, 0, 0, 0, 0, 0)), Err(CommitError::UnsupportedFormat));
}

#[test]
fn find_claim_takes_the_first_window_of_the_surface() {
    let windows = vec![window_of(100, 1), window_of(101, 2), window_of(102, 2)];
    assert_eq!(find_claim(&windows, 2), Some(1));
    assert_eq!(find_claim(&windows, 1), Some(0));
    assert_eq!(find_claim(&windows, 3), None);
    assert_eq!(find_claim(&Vec::new(), 1), None);
    let unknown = X11Window { id: 5, surface: None, transient_for: None, origin: Point { x: 0, y: 0 } };
    assert_eq!(find_claim(&vec![unknown], 0), None);
}

#[test]
fn commit_without_window_is_deferred_then_pairs_on_retry() {
    let mut state = ready_state();
    let request = with_new_buffer(shm(0, 1, 1, 4, 0, 4));
    assert_eq!(commit_violation(&state, 1), None);
    let first = execute_or_defer_commit(&mut state, 1, request.clone()).unwrap();
    assert!(first.deferred);
    assert_eq!(first.plan.paired, None);
    assert_eq!(first.plan.parent, None);
    assert!(first.plan.install_buffer);
    assert!(first.plan.synthesize_frame);
    assert!(first.plan.request_frame);
    assert!(first.plan.forward_commit);
    assert_eq!(state.surface(1).unwrap().x11_window, None);
    assert_eq!(state.surface(1).unwrap().role, Role::Unassigned);

    assert!(state.add_x11_surface(window_of(100, 1)));
    assert_eq!(commit_violation(&state, 1), None);
    let retry = execute_or_defer_commit(&mut state, 1, request).unwrap();
    assert!(!retry.deferred);
    assert_eq!(retry.plan.paired, Some(window_of(100, 1)));
    assert!(retry.plan.install_buffer);
    assert!(!retry.plan.detach_buffer);
    assert!(!retry.plan.synthesize_frame);
    assert_eq!(state.surface(1).unwrap().x11_window, Some(window_of(100, 1)));
    assert_eq!(state.surface(1).unwrap().buffer.as_ref().unwrap().data, vec![0, 1, 2, 3]);
    assert!(state.unpaired_windows().is_empty());
    assert_eq!(state.surfaces().surface_of_window(100), Some(1));
}

#[test]
fn still_unpaired_retry_defers_again() {
    let mut state = ready_state();
    let first = execute_or_defer_commit(&mut state, 1, no_buffer()).unwrap();
    let again = execute_or_defer_commit(&mut state, 1, no_buffer()).unwrap();
    assert!(first.deferred);
    assert!(again.deferred);
    assert_eq!(first.plan, again.plan);
    assert_eq!(state.surfaces().len(), 1);
}

#[test]
fn order_of_arrival_does_not_change_the_outcome() {
    let request = with_new_buffer(shm(1, 1, 2, 4, 0, 8));

    let mut window_first = ready_state();
    window_first.add_x11_surface(window_of(90, 9));
    window_first.add_x11_surface(window_of(100, 1));
    let outcome = execute_or_defer_commit(&mut window_first, 1, request.clone()).unwrap();
    assert!(!outcome.deferred);

    let mut commit_first = ready_state();
    commit_first.add_x11_surface(window_of(90, 9));
    let outcome = execute_or_defer_commit(&mut commit_first, 1, request.clone()).unwrap();
    assert!(outcome.deferred);
    commit_first.add_x11_surface(window_of(100, 1));
    let outcome = execute_or_defer_commit(&mut commit_first, 1, request).unwrap();
    assert!(!outcome.deferred);

    assert_eq!(window_first.surface(1), commit_first.surface(1));
    assert_eq!(window_first.unpaired_windows(), commit_first.unpaired_windows());
    assert_eq!(window_first.unpaired_windows(), &vec![window_of(90, 9)]);
    assert_eq!(window_first.surfaces().len(), commit_first.surfaces().len());
    assert_eq!(window_first.surface(1).unwrap().x11_window, Some(window_of(100, 1)));
}

#[test]
fn cursor_commit_is_not_deferred_and_gets_its_frame_at_once() {
    let mut state = ready_state();
    state.set_role(3, Role::Cursor);
    let outcome = execute_or_defer_commit(&mut state, 3, no_buffer()).unwrap();
    assert!(!outcome.deferred);
    assert!(outcome.plan.synthesize_frame);
    assert_eq!(outcome.plan.paired, None);
    state.add_x11_surface(window_of(100, 3));
    let outcome = execute_or_defer_commit(&mut state, 3, no_buffer()).unwrap();
    assert!(!outcome.deferred);
    assert!(outcome.plan.synthesize_frame);
    assert_eq!(outcome.plan.paired, Some(window_of(100, 3)));
}

#[test]
fn claimed_window_leaves_and_the_last_takes_its_place() {
    let mut state = ready_state();
    state.add_x11_surface(window_of(100, 1));
    state.add_x11_surface(window_of(101, 2));
    state.add_x11_surface(window_of(102, 3));
    state.add_x11_surface(window_of(103, 4));
    let plan = checked_commit(&mut state, 1, no_buffer()).unwrap();
    assert_eq!(plan.paired, Some(window_of(100, 1)));
    assert_eq!(
        state.unpaired_windows(),
        &vec![window_of(103, 4), window_of(101, 2), window_of(102, 3)]
    );
    let plan = checked_commit(&mut state, 3, no_buffer()).unwrap();
    assert_eq!(plan.paired, Some(window_of(102, 3)));
    assert_eq!(state.unpaired_windows(), &vec![window_of(103, 4), window_of(101, 2)]);
    let plan = checked_commit(&mut state, 7, no_buffer()).unwrap();
    assert_eq!(plan.paired, None);
    assert_eq!(state.unpaired_windows().len(), 2);
}

#[test]
fn paired_window_cannot_wait_again() {
    let mut state = ready_state();
    state.add_x11_surface(window_of(100, 1));
    checked_commit(&mut state, 1, no_buffer()).unwrap();
    assert!(!state.add_x11_surface(window_of(100, 2)));
    assert!(state.unpaired_windows().is_empty());
    checked_commit(&mut state, 2, no_buffer()).unwrap();
    assert_eq!(state.surface(2).unwrap().x11_window, None);
    assert_eq!(state.surfaces().surface_of_window(100), Some(1));
}

#[test]
fn commit_applies_new_buffer_or_removal_never_both() {
    let mut state = ready_state();
    let plan = checked_commit(&mut state, 1, with_new_buffer(shm(0, 1, 1, 4, 4, 8))).unwrap();
    assert!(plan.install_buffer);
    assert!(!plan.detach_buffer);
    assert_eq!(
        state.surface(1).unwrap().buffer,
        Some(Buffer {
            format: PixelFormat::Argb8888,
            size: Size { w: 1, h: 1 },
            stride: 4,
            data: vec![4, 5, 6, 7],
        })
    );
    let plan = checked_commit(&mut state, 1, no_buffer()).unwrap();
    assert!(!plan.install_buffer);
    assert!(!plan.detach_buffer);
    assert!(state.surface(1).unwrap().buffer.is_some());
    let removal = CommitRequest { buffer: BufferAssignment::Removed, pool_available: false };
    let plan = checked_commit(&mut state, 1, removal).unwrap();
    assert!(!plan.install_buffer);
    assert!(plan.detach_buffer);
    assert_eq!(state.surface(1).unwrap().buffer, None);
}

#[test]
fn abandoned_commit_changes_nothing() {
    let mut state = ready_state();
    state.add_x11_surface(window_of(100, 1));
    let missing_pool = CommitRequest {
        buffer: BufferAssignment::NewBuffer(shm(0, 1, 1, 4, 0, 4)),
        pool_available: false,
    };
    assert_eq!(checked_commit(&mut state, 1, missing_pool), Err(CommitError::MissingPool));
    assert_eq!(
        checked_commit(&mut state, 1, with_new_buffer(shm(9, 1, 1, 4, 0, 4))),
        Err(CommitError::UnsupportedFormat)
    );
    assert_eq!(
        checked_commit(&mut state, 1, with_new_buffer(shm(0, 2, 1, 4, 0, 4))),
        Err(CommitError::BadGeometry)
    );
    assert_eq!(
        execute_or_defer_commit(&mut state, 1, with_new_buffer(shm(0, 1, 1, 4, 0, 3))),
        Err(CommitError::OutOfBounds)
    );
    assert!(state.surface(1).is_none());
    assert_eq!(state.surfaces().len(), 0);
    assert_eq!(state.unpaired_windows(), &vec![window_of(100, 1)]);
    let plan = commit(1, with_new_buffer(shm(0, 1, 1, 4, 0, 4)), &mut state).unwrap();
    assert_eq!(plan.paired, Some(window_of(100, 1)));
    assert!(plan.install_buffer);
}

#[test]
fn missing_pool_does_not_matter_without_a_new_buffer() {
    let mut state = ready_state();
    let request = CommitRequest { buffer: BufferAssignment::Unchanged, pool_available: false };
    assert!(checked_commit(&mut state, 1, request).is_ok());
}

#[test]
fn dirty_frame_of_configured_toplevel_is_drawn_once() {
    let mut state = ready_state();
    state.set_role(1, dirty_toplevel(true, true));
    let plan = checked_commit(&mut state, 1, no_buffer()).unwrap();
    assert!(plan.redraw_frame);
    assert_eq!(state.surface(1).unwrap().role, dirty_toplevel(true, false));
    let plan = checked_commit(&mut state, 1, no_buffer()).unwrap();
    assert!(!plan.redraw_frame);
    assert_eq!(state.surface(1).unwrap().role, dirty_toplevel(true, false));
}

#[test]
fn frame_is_not_drawn_before_configuration_or_when_clean() {
    let mut state = ready_state();
    state.set_role(1, dirty_toplevel(false, true));
    state.set_role(2, dirty_toplevel(true, false));
    state.set_role(3, Role::Toplevel(ToplevelState { configured: true, frame: None }));
    state.set_role(4, Role::Popup);
    for surface in [1, 2, 3, 4, 5] {
        let plan = checked_commit(&mut state, surface, no_buffer()).unwrap();
        assert!(!plan.redraw_frame);
    }
    assert_eq!(state.surface(1).unwrap().role, dirty_toplevel(false, true));
    assert_eq!(state.surface(5).unwrap().role, Role::Unassigned);
}

#[test]
fn frame_completion_is_synthesized_for_unpaired_and_cursor_surfaces_only() {
    let mut state = ready_state();
    state.add_x11_surface(window_of(100, 1));
    state.set_role(1, dirty_toplevel(true, false));
    let plan = checked_commit(&mut state, 1, no_buffer()).unwrap();
    assert!(!plan.synthesize_frame);
    let plan = checked_commit(&mut state, 1, no_buffer()).unwrap();
    assert!(!plan.synthesize_frame);
    assert_eq!(plan.paired, None);
    let plan = checked_commit(&mut state, 2, no_buffer()).unwrap();
    assert!(plan.synthesize_frame);
    state.set_role(1, Role::Cursor);
    let plan = checked_commit(&mut state, 1, no_buffer()).unwrap();
    assert!(plan.synthesize_frame);
}

#[test]
fn freshly_paired_child_is_registered_with_its_parent() {
    let mut state = ready_state();
    let mut parent_window = window_of(100, 1);
    parent_window.origin = Point { x: 40, y: 50 };
    state.add_x11_surface(parent_window);
    checked_commit(&mut state, 1, no_buffer()).unwrap();
    state.set_role(1, dirty_toplevel(true, false));

    state.add_x11_surface(child_window(101, 2, 100));
    let plan = checked_commit(&mut state, 2, no_buffer()).unwrap();
    assert_eq!(plan.paired, Some(child_window(101, 2, 100)));
    assert_eq!(
        plan.parent,
        Some(X11Parent {
            surface_id: 1,
            for_toplevel: Some(1),
            for_popup: X11ParentForPopup { surface_id: 1, offset: Offset { dx: -38, dy: -26 } },
        })
    );
    assert_eq!(state.surface(1).unwrap().children, vec![2]);
    assert!(state.surface(2).unwrap().children.is_empty());
    assert_eq!(state.surfaces().live_children(1), vec![2]);

    let plan = checked_commit(&mut state, 2, no_buffer()).unwrap();
    assert_eq!(plan.paired, None);
    assert_eq!(plan.parent, None);
    assert_eq!(state.surface(1).unwrap().children, vec![2]);
}

#[test]
fn child_of_a_popup_gets_no_toplevel() {
    let mut state = ready_state();
    let mut parent_window = window_of(100, 1);
    parent_window.origin = Point { x: -5, y: 5 };
    state.add_x11_surface(parent_window);
    checked_commit(&mut state, 1, no_buffer()).unwrap();
    state.set_role(1, Role::Popup);
    state.add_x11_surface(child_window(101, 2, 100));
    let plan = checked_commit(&mut state, 2, no_buffer()).unwrap();
    let parent = plan.parent.unwrap();
    assert_eq!(parent.for_toplevel, None);
    assert_eq!(parent.for_popup.offset, Offset { dx: 5, dy: -5 });
}

#[test]
fn forbidden_orderings_are_named_before_the_commit() {
    let mut state = ready_state();
    state.add_x11_surface(child_window(101, 2, 100));
    assert_eq!(
        commit_violation(&state, 2),
        Some(InvariantViolation::Parent(ParentViolation::TargetNotPaired))
    );
    assert_eq!(commit_violation(&state, 3), None);

    state.add_x11_surface(window_of(100, 1));
    checked_commit(&mut state, 1, no_buffer()).unwrap();
    assert_eq!(
        commit_violation(&state, 2),
        Some(InvariantViolation::Parent(ParentViolation::ParentHasNoRole))
    );
    state.set_role(1, Role::Cursor);
    assert_eq!(
        commit_violation(&state, 2),
        Some(InvariantViolation::Parent(ParentViolation::ParentIsCursor))
    );
    state.set_role(1, Role::Popup);
    assert_eq!(commit_violation(&state, 2), None);

    state.add_x11_surface(child_window(102, 1, 100));
    assert_eq!(commit_violation(&state, 1), Some(InvariantViolation::SelfParent));
    assert!(state.surface(1).unwrap().children.is_empty());
}
