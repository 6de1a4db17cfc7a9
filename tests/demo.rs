use ls_pretty::demo::Person;

#[test]
fn test_person_creation() {
    let person = Person::new("Test".to_string(), 20);
    assert_eq!(person.name, "Test");
    assert_eq!(person.age, 20);
    assert!(person.email.is_none());
}

#[test]
fn test_person_email() {
    let mut person = Person::new("Test".to_string(), 20);
    person.set_email("test@example.com".to_string());
    assert!(person.email.is_some());
}

#[test]
fn greeting_without_email() {
    let person = Person::new("Alice".to_string(), 30);
    assert_eq!(person.greet(), "Hello Alice");
}

#[test]
fn greeting_with_email() {
    let mut person = Person::new("Alice".to_string(), 30);
    person.set_email("alice@example.com".to_string());
    assert_eq!(person.greet(), "Hello Alice, contact: alice@example.com");
}
