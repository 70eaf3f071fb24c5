use tidyup::config::Config;
use tidyup::engine::classify;
use tidyup::engine::dest_path;
use tidyup::engine::join_path;
use tidyup::engine::plan_moves;
use tidyup::extension::chars_eq_str;
use tidyup::extension::extension_of;
use tidyup::routing::categories;
use tidyup::routing::route;
use tidyup::routing::Category;

fn config(dir: &str, relevant: &[&str], ignored: &[&str]) -> Config {
    Config::new(
        dir.to_string(),
        relevant.iter().map(|s| s.to_string()).collect(),
        ignored.iter().map(|s| s.to_string()).collect(),
        false,
    )
}

#[test]
fn extension_plain() {
    assert_eq!(extension_of("a.png"), vec!['p', 'n', 'g']);
}

#[test]
fn extension_lowercases() {
    assert_eq!(extension_of("c.PY"), vec!['p', 'y']);
    assert_eq!(extension_of("photo.JpEg"), vec!['j', 'p', 'e', 'g']);
}

#[test]
fn extension_none_without_dot() {
    assert_eq!(extension_of("noext"), Vec::<char>::new());
    assert_eq!(extension_of(""), Vec::<char>::new());
}

#[test]
fn extension_empty_after_trailing_dot() {
    assert_eq!(extension_of("file."), Vec::<char>::new());
}

#[test]
fn extension_takes_last_dot() {
    assert_eq!(extension_of("archive.tar.gz"), vec!['g', 'z']);
}

#[test]
fn chars_eq_str_agrees() {
    assert!(chars_eq_str(&vec!['p', 'n', 'g'], "png"));
    assert!(!chars_eq_str(&vec!['p', 'n', 'g'], "pngx"));
    assert!(!chars_eq_str(&vec!['p', 'n', 'g'], "pn"));
    assert!(!chars_eq_str(&vec!['p', 'n', 'g'], "pny"));
}

#[test]
fn routing_table_contents() {
    assert_eq!(route(&vec!['p', 'n', 'g']), Some(Category::Images));
    assert_eq!(route(&vec!['j', 'p', 'g']), Some(Category::Images));
    assert_eq!(route(&vec!['j', 'p', 'e', 'g']), Some(Category::Images));
    assert_eq!(route(&vec!['p', 'y']), Some(Category::Python));
    assert_eq!(route(&vec!['c', 'p', 'p']), Some(Category::Cpp));
    assert_eq!(route(&vec!['t', 'x', 't']), None);
    assert_eq!(route(&Vec::new()), None);
}

#[test]
fn folder_names() {
    assert_eq!(Category::Images.folder(), "images");
    assert_eq!(Category::Python.folder(), "python");
    assert_eq!(Category::Cpp.folder(), "c++");
}

#[test]
fn categories_fixed_and_unique() {
    let v = categories();
    assert_eq!(v, vec![Category::Images, Category::Python, Category::Cpp]);
    let w = categories();
    assert_eq!(v, w);
    assert_ne!(Category::Images.folder(), Category::Python.folder());
    assert_ne!(Category::Images.folder(), Category::Cpp.folder());
    assert_ne!(Category::Python.folder(), Category::Cpp.folder());
}

#[test]
fn classify_is_deterministic() {
    let cfg = config("desk", &["png", "jpg"], &["jpg"]);
    for name in ["a.png", "b.jpg", "c.PY", "noext", "file."] {
        assert_eq!(classify(name, &cfg), classify(name, &cfg));
    }
}

#[test]
fn scenario_no_filters() {
    let cfg = config("desk", &[], &[]);
    assert_eq!(classify("a.png", &cfg), Some(Category::Images));
    assert_eq!(classify("b.txt", &cfg), None);
    assert_eq!(classify("c.PY", &cfg), Some(Category::Python));

    let names = vec!["a.png".to_string(), "b.txt".to_string(), "c.PY".to_string()];
    let plan = plan_moves(&names, &cfg);
    assert_eq!(plan.len(), 2);
    assert_eq!(plan[0].name, "a.png");
    assert_eq!(plan[0].category, Category::Images);
    assert_eq!(plan[1].name, "c.PY");
    assert_eq!(plan[1].category, Category::Python);
    assert_eq!(dest_path("desk", plan[0].category, &plan[0].name), "desk/images/a.png");
    assert_eq!(dest_path("desk", plan[1].category, &plan[1].name), "desk/python/c.PY");
}

#[test]
fn scenario_allow_list() {
    let cfg = config("desk", &["png"], &[]);
    let names = vec!["a.png".to_string(), "b.jpg".to_string()];
    let plan = plan_moves(&names, &cfg);
    assert_eq!(plan.len(), 1);
    assert_eq!(plan[0].name, "a.png");
    assert_eq!(plan[0].category, Category::Images);
    assert_eq!(classify("b.jpg", &cfg), None);
}

#[test]
fn scenario_deny_list_wins() {
    let cfg = config("desk", &["png", "jpg"], &["jpg"]);
    let names = vec!["a.png".to_string(), "b.jpg".to_string()];
    let plan = plan_moves(&names, &cfg);
    assert_eq!(plan.len(), 1);
    assert_eq!(plan[0].name, "a.png");
    assert_eq!(plan[0].category, Category::Images);
    assert_eq!(classify("b.jpg", &cfg), None);
}

#[test]
fn deny_list_wins_without_allow_list() {
    let cfg = config("desk", &[], &["py"]);
    assert_eq!(classify("c.py", &cfg), None);
    assert_eq!(classify("c.PY", &cfg), None);
    assert_eq!(classify("a.png", &cfg), Some(Category::Images));
}

#[test]
fn scenario_no_extension_is_skipped() {
    let cfg = config("desk", &[], &[]);
    assert_eq!(classify("noext", &cfg), None);
    let plan = plan_moves(&vec!["noext".to_string()], &cfg);
    assert!(plan.is_empty());
}

#[test]
fn filters_compare_the_lowercased_extension() {
    // An uppercase entry on a filter list can never match, since the
    // computed extension is lowercased first.
    let cfg = config("desk", &["PNG"], &[]);
    assert_eq!(classify("a.png", &cfg), None);
    assert_eq!(classify("a.PNG", &cfg), None);
}

#[test]
fn plan_only_covers_listed_names() {
    // Category folders showing up in a listing have no dot, hence no
    // extension, and are never planned for a move.
    let cfg = config("desk", &[], &[]);
    let names = vec!["images".to_string(), "python".to_string(), "c++".to_string()];
    let plan = plan_moves(&names, &cfg);
    assert!(plan.is_empty());
    let plan = plan_moves(&vec!["a.png".to_string()], &cfg);
    assert_eq!(plan.len(), 1);
    assert_eq!(plan[0].name, "a.png");
}

#[test]
fn join_path_concatenates() {
    assert_eq!(join_path("desk", "a.png"), "desk/a.png");
    assert_eq!(join_path("", "a.png"), "/a.png");
}

#[test]
fn case_preserved_in_plan() {
    let cfg = config("desk", &[], &[]);
    let plan = plan_moves(&vec!["c.PY".to_string()], &cfg);
    assert_eq!(plan.len(), 1);
    assert_eq!(plan[0].name, "c.PY");
    assert_eq!(dest_path("desk", plan[0].category, &plan[0].name), "desk/python/c.PY");
}
