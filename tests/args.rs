use tinygraph::args::{get_out_file, get_scene_file};

fn args(v: &[&str]) -> Vec<String> {
    v.iter().map(|s| s.to_string()).collect()
}

#[test]
fn defaults_without_arguments() {
    assert_eq!(get_scene_file(&args(&["tinygraph"])), "scene.json");
    assert_eq!(get_out_file(&args(&["tinygraph"])), "out.png");
    assert_eq!(get_out_file(&args(&[])), "out.png");
}

#[test]
fn output_first_then_scene() {
    let a = args(&["tinygraph", "picture.png"]);
    assert_eq!(get_out_file(&a), "picture.png");
    assert_eq!(get_scene_file(&a), "scene.json");
    let a = args(&["tinygraph", "picture.png", "room.json"]);
    assert_eq!(get_out_file(&a), "picture.png");
    assert_eq!(get_scene_file(&a), "room.json");
}
