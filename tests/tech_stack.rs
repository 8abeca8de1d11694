use job_organizer::tech::extract_tech_stack;

#[test]
fn test_extract_simple() {
    let description = "We are looking for a Rust developer with experience in Python and AWS.";
    let tech_stack = extract_tech_stack(description);
    assert!(tech_stack.contains(&"Rust".to_string()));
    assert!(tech_stack.contains(&"Python".to_string()));
    assert!(tech_stack.contains(&"AWS".to_string()));
    assert_eq!(tech_stack.len(), 3);
}

#[test]
fn test_extract_case_insensitive() {
    let description = "Experience with rust and PYTHON is required.";
    let tech_stack = extract_tech_stack(description);
    assert!(tech_stack.contains(&"Rust".to_string()));
    assert!(tech_stack.contains(&"Python".to_string()));
    assert_eq!(tech_stack.len(), 2);
}

#[test]
fn test_extract_no_matches() {
    let description = "Looking for a project manager.";
    let tech_stack = extract_tech_stack(description);
    assert!(tech_stack.is_empty());
}

#[test]
fn test_extract_with_punctuation() {
    let description = "Skills: Java, Kubernetes. Nice to have: C++.";
    let tech_stack = extract_tech_stack(description);
    assert!(tech_stack.contains(&"Java".to_string()));
    assert!(tech_stack.contains(&"Kubernetes".to_string()));
    assert!(tech_stack.contains(&"C++".to_string()));
    assert_eq!(tech_stack.len(), 3);
}

#[test]
fn extract_keeps_list_order() {
    let tech_stack = extract_tech_stack("Docker and rust on Linux");
    assert_eq!(tech_stack, vec!["Rust".to_string(), "Docker".to_string(), "Linux".to_string()]);
}

#[test]
fn extract_does_not_match_inside_words() {
    let tech_stack = extract_tech_stack("Rusty gopher");
    assert!(tech_stack.is_empty());
}
