use gpu_probe::greeting::greet;

#[test]
fn greet_follows_the_template() {
    assert_eq!(
        greet("World"),
        "Hello, World! Welcome to AI Video Processing Assistant."
    );
}

#[test]
fn greet_embeds_the_name_verbatim() {
    let name = "  odd  name \t";
    let out = greet(name);
    assert!(out.contains(name));
    assert!(out.starts_with("Hello, "));
    assert!(out.ends_with("! Welcome to AI Video Processing Assistant."));
}

#[test]
fn greet_with_empty_name() {
    assert_eq!(
        greet(""),
        "Hello, ! Welcome to AI Video Processing Assistant."
    );
}
