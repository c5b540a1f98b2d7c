use cl::gui::entities::contexts::namespaces_context::DEFAULT_NAMESPACE;
use cl::gui::entities::namespaces_context::NamespacesContext;

fn namespace_builder(n_of_namespaces: usize) -> Vec<String> {
    let mut namespaces = vec![];
    for i in 0..n_of_namespaces {
        namespaces.push(format!("namespace{}", (i + 1)))
    }
    namespaces
}

fn context_builder(n_of_commands: usize) -> NamespacesContext {
    let namespaces = namespace_builder(n_of_commands);
    NamespacesContext::new(namespaces)
}

#[test]
fn stepping_should_filter_namespaces() {
    let expected = vec![DEFAULT_NAMESPACE.to_string(), "namespace1".to_string()];
    let context = NamespacesContext::new(vec!["namespace1".to_string()]);
    assert_eq!(context.namespaces(), &expected);

    let namespaces = vec![
        "namespace1".to_string(),
        "namespace1".to_string(),
        "namespace1".to_string(),
    ];

    let expected = vec![DEFAULT_NAMESPACE.to_string(), "namespace1".to_string()];

    let context = NamespacesContext::new(namespaces);
    assert_eq!(context.namespaces(), &expected);
}

#[test]
fn stepping_should_go_to_previous_namespace() {
    let mut context = context_builder(2);

    assert_eq!(context.current_namespace(), DEFAULT_NAMESPACE);

    context.previous_namespace();
    assert_eq!(context.get_selected_namespace_idx(), 2);
    assert_eq!(context.current_namespace(), "namespace2");

    context.previous_namespace();
    assert_eq!(context.get_selected_namespace_idx(), 1);
    assert_eq!(context.current_namespace(), "namespace1");

    context.previous_namespace();
    assert_eq!(context.get_selected_namespace_idx(), 0);
    assert_eq!(context.current_namespace(), DEFAULT_NAMESPACE);
}

#[test]
fn stepping_should_go_to_next_namespace() {
    let mut context = context_builder(2);

    assert_eq!(context.current_namespace(), DEFAULT_NAMESPACE);

    context.next_namespace();
    assert_eq!(context.get_selected_namespace_idx(), 1);
    assert_eq!(context.current_namespace(), "namespace1");

    context.next_namespace();
    assert_eq!(context.get_selected_namespace_idx(), 2);
    assert_eq!(context.current_namespace(), "namespace2");

    context.next_namespace();
    assert_eq!(context.get_selected_namespace_idx(), 0);
    assert_eq!(context.current_namespace(), DEFAULT_NAMESPACE);
}

#[test]
fn stepping_position_stays_in_range_over_moves() {
    let mut context = context_builder(3);
    for step in 0..20 {
        if step % 3 == 0 {
            context.previous_namespace();
        } else {
            context.next_namespace();
        }
        assert!(context.get_selected_namespace_idx() < context.namespaces().len());
    }
    context.reset_context();
    assert_eq!(context.get_selected_namespace_idx(), 0);
}
