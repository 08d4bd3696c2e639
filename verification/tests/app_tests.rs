use cetacea::models::{Container, Health};
use cetacea::render::{status_color, StatusColor};
use cetacea::sort::sort_containers;
use cetacea::view::{InputEvent, ResourceView, ViewState};

fn create_test_container(name: &str, state: &str) -> Container {
    Container {
        id: "test_id".to_string(),
        names: vec![name.to_string()],
        image: "test_image".to_string(),
        command: "test_command".to_string(),
        created: 0,
        state: state.to_string(),
        status: "test_status".to_string(),
        ports: vec![],
        health: None,
    }
}

#[test]
fn test_container_sorting() {
    let containers = vec![
        create_test_container("c", "stopped"),
        create_test_container("a", "running"),
        create_test_container("b", "running"),
        create_test_container("d", "stopped"),
    ];

    let sorted = sort_containers(containers);

    // Running containers first (alphabetically), then stopped (alphabetically).
    assert_eq!(sorted[0].names[0], "a");
    assert_eq!(sorted[1].names[0], "b");
    assert_eq!(sorted[2].names[0], "c");
    assert_eq!(sorted[3].names[0], "d");
}

#[test]
fn test_container_health_status() {
    let mut container = create_test_container("test", "running");
    container.health = Some(Health { status: "healthy".to_string() });

    let sorted = sort_containers(vec![container]);

    assert_eq!(sorted[0].health.as_ref().unwrap().status, "healthy");
}

#[test]
fn test_sorting_scenario_running_before_stopped() {
    let containers = vec![
        create_test_container("b", "running"),
        create_test_container("a", "running"),
        create_test_container("z", "stopped"),
    ];

    let sorted = sort_containers(containers);

    assert_eq!(sorted[0].names[0], "a");
    assert_eq!(sorted[1].names[0], "b");
    assert_eq!(sorted[2].names[0], "z");
    assert_eq!(sorted[2].state, "stopped");
}

#[test]
fn test_sorting_empty_name_first() {
    let mut unnamed = create_test_container("x", "running");
    unnamed.names = vec![];
    let containers = vec![create_test_container("a", "running"), unnamed];

    let sorted = sort_containers(containers);

    assert!(sorted[0].names.is_empty());
    assert_eq!(sorted[1].names[0], "a");
}

#[test]
fn test_status_colors() {
    let mut healthy = create_test_container("h", "running");
    healthy.health = Some(Health { status: "healthy".to_string() });
    assert_eq!(status_color(&healthy), StatusColor::Success);

    let mut unhealthy = create_test_container("u", "running");
    unhealthy.health = Some(Health { status: "unhealthy".to_string() });
    assert_eq!(status_color(&unhealthy), StatusColor::Error);

    let mut starting = create_test_container("s", "running");
    starting.health = Some(Health { status: "starting".to_string() });
    assert_eq!(status_color(&starting), StatusColor::Warning);

    let unprobed = create_test_container("n", "running");
    assert_eq!(status_color(&unprobed), StatusColor::Success);

    let stopped = create_test_container("x", "exited");
    assert_eq!(status_color(&stopped), StatusColor::Error);
}

#[test]
fn test_view_state_initial() {
    let state = ViewState::new();
    assert_eq!(state.current_view, ResourceView::Cpu);
    assert!(state.show_graphs);
    assert!(!state.should_quit);
}

#[test]
fn test_view_cycling_round_trip() {
    for start in [ResourceView::Cpu, ResourceView::Memory, ResourceView::Gpu] {
        let mut state = ViewState::new();
        state.current_view = start;
        state.handle_event(InputEvent::ViewLeft);
        state.handle_event(InputEvent::ViewRight);
        assert_eq!(state.current_view, start);

        state.handle_event(InputEvent::ViewRight);
        state.handle_event(InputEvent::ViewLeft);
        assert_eq!(state.current_view, start);
    }
}

#[test]
fn test_view_cycling_order() {
    let mut state = ViewState::new();
    state.handle_event(InputEvent::ViewRight);
    assert_eq!(state.current_view, ResourceView::Memory);
    state.handle_event(InputEvent::ViewRight);
    assert_eq!(state.current_view, ResourceView::Gpu);
    state.handle_event(InputEvent::ViewRight);
    assert_eq!(state.current_view, ResourceView::Cpu);
    state.handle_event(InputEvent::ViewLeft);
    assert_eq!(state.current_view, ResourceView::Gpu);
}

#[test]
fn test_toggle_and_quit_events() {
    let mut state = ViewState::new();
    let quit = state.handle_event(InputEvent::ToggleGraphs);
    assert!(!quit);
    assert!(!state.show_graphs);
    state.handle_event(InputEvent::ToggleGraphs);
    assert!(state.show_graphs);

    let quit = state.handle_event(InputEvent::Other);
    assert!(!quit);
    assert!(!state.should_quit);

    let quit = state.handle_event(InputEvent::Quit);
    assert!(quit);
    assert!(state.should_quit);
}
