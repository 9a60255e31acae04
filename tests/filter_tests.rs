use variant_filter::filter::{
    run, should_hide_option, Attribute, Cart, CartLine, DeliveryGroup, DeliveryOption,
    FilterPolicy, SHIPPING_VARIANT_ATTRIBUTE,
};

fn option(title: &str, handle: &str) -> DeliveryOption {
    DeliveryOption { title: title.to_string(), handle: handle.to_string() }
}

fn group(options: Vec<DeliveryOption>) -> DeliveryGroup {
    DeliveryGroup { delivery_options: options }
}

fn cart(variant: Option<&str>, subscription: bool, groups: Vec<DeliveryGroup>) -> Cart {
    Cart {
        attribute: variant.map(|v| Attribute { value: Some(v.to_string()) }),
        lines: vec![CartLine { subscription: false }, CartLine { subscription }],
        delivery_groups: groups,
    }
}

fn hidden(cart: &Cart, policy: &FilterPolicy) -> Vec<String> {
    run(cart, policy)
        .operations
        .into_iter()
        .map(|o| o.delivery_option_handle)
        .collect()
}

fn tagged_groups() -> Vec<DeliveryGroup> {
    vec![
        group(vec![option("Standard Shipping (A)", "h1"), option("Standard Shipping (B)", "h2")]),
        group(vec![option("Pickup", "h3"), option("Express (C)", "h4")]),
    ]
}

#[test]
fn test_should_hide_option() {
    assert!(!should_hide_option("Standard Shipping (A)", "A"));
    assert!(should_hide_option("Standard Shipping (B)", "A"));

    assert!(should_hide_option("Standard Shipping (A)", "B"));
    assert!(!should_hide_option("Standard Shipping (B)", "B"));

    assert!(!should_hide_option("Express Shipping", "A"));
    assert!(!should_hide_option("Express Shipping", "B"));
}

#[test]
fn hide_check_compares_whole_variant() {
    assert!(should_hide_option("Standard Shipping (A)", "AB"));
    assert!(should_hide_option("Standard Shipping (A)", "a"));
    assert!(!should_hide_option("Standard (AB)", "A"));
    let policy = FilterPolicy::letters_a_to_d();
    assert!(!policy.hides_option("Test (1)", "A"));
    assert!(policy.hides_option("Test (D)", "A"));
}

#[test]
fn scenario_variant_b_two_groups() {
    let c = cart(
        Some("B"),
        false,
        vec![
            group(vec![option("Standard Shipping (A)", "h1"), option("Standard Shipping (B)", "h2")]),
            group(vec![option("Pickup", "h3")]),
        ],
    );
    assert_eq!(hidden(&c, &FilterPolicy::with_subscription_exemption()), vec!["h1".to_string()]);
}

#[test]
fn scenario_variant_a_express_options() {
    let c = cart(Some("A"), false, vec![group(vec![option("Express (C)", "h1"), option("Express (A)", "h2")])]);
    assert_eq!(hidden(&c, &FilterPolicy::with_subscription_exemption()), vec!["h1".to_string()]);
    assert_eq!(hidden(&c, &FilterPolicy::letters_a_to_d()), vec!["h1".to_string()]);
}

#[test]
fn no_assigned_variant_hides_nothing() {
    let policy = FilterPolicy::with_subscription_exemption();
    assert!(hidden(&cart(None, false, tagged_groups()), &policy).is_empty());
    assert!(hidden(&cart(Some(""), false, tagged_groups()), &policy).is_empty());
    let no_value = Cart {
        attribute: Some(Attribute { value: None }),
        lines: vec![],
        delivery_groups: tagged_groups(),
    };
    assert!(hidden(&no_value, &policy).is_empty());
    assert!(hidden(&no_value, &FilterPolicy::letters_a_to_d()).is_empty());
}

#[test]
fn subscription_cart_is_exempt() {
    let c = cart(Some("A"), true, tagged_groups());
    assert!(hidden(&c, &FilterPolicy::with_subscription_exemption()).is_empty());
    // A policy without the exemption filters the same cart.
    assert_eq!(
        hidden(&c, &FilterPolicy::letters_a_to_d()),
        vec!["h2".to_string(), "h4".to_string()]
    );
}

#[test]
fn directives_follow_group_then_option_order() {
    let c = cart(Some("D"), false, tagged_groups());
    assert_eq!(
        hidden(&c, &FilterPolicy::with_subscription_exemption()),
        vec!["h1".to_string(), "h2".to_string(), "h4".to_string()]
    );
}

#[test]
fn repeated_runs_give_identical_directives() {
    let c = cart(Some("B"), false, tagged_groups());
    let policy = FilterPolicy::with_subscription_exemption();
    let first = hidden(&c, &policy);
    let second = hidden(&c, &policy);
    assert_eq!(first, second);
    assert_eq!(first, vec!["h1".to_string(), "h4".to_string()]);
}

#[test]
fn empty_cart_and_untagged_options() {
    let policy = FilterPolicy::with_subscription_exemption();
    assert!(hidden(&cart(Some("A"), false, vec![]), &policy).is_empty());
    assert!(hidden(&cart(Some("A"), false, vec![group(vec![])]), &policy).is_empty());
    let untagged = vec![group(vec![option("Pickup", "p"), option("Express Shipping", "e")])];
    assert!(hidden(&cart(Some("A"), false, untagged), &policy).is_empty());
}

#[test]
fn variant_attribute_name() {
    assert_eq!(SHIPPING_VARIANT_ATTRIBUTE, "_ab_shipping_suffix");
}
