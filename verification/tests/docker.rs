use nulctl::docker_panel::{
    clamp_docker_scroll, container_name_color, docker_lines, docker_max_scroll, docker_scroll_down,
    docker_scroll_up, docker_title, visible_docker_lines, ContainerColor, DockerLine,
};
use nulctl::telemetry::DockerContainer;

fn sample(name: &str, status: &str) -> DockerContainer {
    DockerContainer {
        name: name.to_string(),
        status: status.to_string(),
        created: "2024-01-01".to_string(),
        image: "nginx:latest".to_string(),
        ports: "80/tcp".to_string(),
    }
}

#[test]
fn container_name_color_by_status() {
    assert_eq!(container_name_color("Up 2 hours"), ContainerColor::Blue);
    assert_eq!(container_name_color("Restarting (1) 5 seconds ago"), ContainerColor::Yellow);
    assert_eq!(container_name_color("Exited (0) 1 day ago"), ContainerColor::Red);
    assert_eq!(container_name_color("Dead"), ContainerColor::Red);
}

#[test]
fn docker_scroll_clamps_to_content() {
    assert_eq!(docker_max_scroll(10, 4), 6);
    assert_eq!(clamp_docker_scroll(9, 6), 6);
    assert_eq!(docker_scroll_up(0), 0);
    assert_eq!(docker_scroll_down(5, 6), 6);
}

#[test]
fn docker_lines_include_all_fields() {
    let lines = docker_lines(&[sample("web", "Up 1 hour")]);
    assert_eq!(lines.len(), 5);
    match &lines[0] {
        DockerLine::Name { text, .. } => assert_eq!(text, "web"),
        _ => panic!("expected the container name first"),
    }
}

#[test]
fn visible_docker_lines_respects_viewport() {
    let lines = docker_lines(&[sample("a", "Up"), sample("b", "Up")]);
    let visible = visible_docker_lines(&lines, 1, 3);
    assert_eq!(visible.len(), 3);
}

#[test]
fn docker_lines_separate_containers_with_blank() {
    let lines = docker_lines(&[sample("a", "Up"), sample("b", "Exited (1)")]);
    assert_eq!(lines.len(), 11);
    assert!(matches!(lines[5], DockerLine::Blank));
    assert!(matches!(
        &lines[6],
        DockerLine::Name { color: ContainerColor::Red, .. }
    ));
}

#[test]
fn docker_scroll_stays_in_range() {
    assert_eq!(docker_max_scroll(3, 10), 0);
    assert_eq!(docker_scroll_up(4), 3);
    assert_eq!(docker_scroll_down(6, 6), 6);
    assert_eq!(clamp_docker_scroll(2, 6), 2);
}

#[test]
fn docker_title_counts_containers() {
    assert_eq!(docker_title(&[], 0, 0), " Docker · none ");
    let one = docker_title(&[sample("a", "Up")], 0, 0);
    assert!(one.contains('1'));
}
