use genco::FormatTokens;
use genco::Java;
use genco::Modifier;
use genco::Tokens;

#[test]
fn test_vec() {
    let mut el: Tokens<Java> = Tokens::new();
    el.append(vec![Modifier::Public, Modifier::Final, Modifier::Static]);
    assert_eq!(
        Ok("public static final"),
        el.to_string().as_ref().map(|s| s.as_str())
    );
}

#[test]
fn modifier_names() {
    assert_eq!(Modifier::Default.name(), "default");
    assert_eq!(Modifier::Public.name(), "public");
    assert_eq!(Modifier::Protected.name(), "protected");
    assert_eq!(Modifier::Private.name(), "private");
    assert_eq!(Modifier::Abstract.name(), "abstract");
    assert_eq!(Modifier::Static.name(), "static");
    assert_eq!(Modifier::Final.name(), "final");
    assert_eq!(Modifier::Native.name(), "native");
}

#[test]
fn single_modifier() {
    let mut t: Tokens<Java> = Tokens::new();
    t.append(Modifier::Abstract);
    assert_eq!(t.to_string().unwrap(), "abstract");
}

#[test]
fn duplicate_modifiers_collapse() {
    let mut t: Tokens<Java> = Tokens::new();
    t.append(vec![
        Modifier::Public,
        Modifier::Public,
        Modifier::Final,
        Modifier::Public,
    ]);
    assert_eq!(t.to_string().unwrap(), "public final");
}

#[test]
fn empty_modifier_collection() {
    let mut t: Tokens<Java> = Tokens::new();
    t.append(Vec::<Modifier>::new());
    assert_eq!(t.to_string().unwrap(), "");
}

#[test]
fn all_modifiers_in_declared_order() {
    let mut t: Tokens<Java> = Tokens::new();
    t.append(vec![
        Modifier::Native,
        Modifier::Final,
        Modifier::Static,
        Modifier::Abstract,
        Modifier::Private,
        Modifier::Protected,
        Modifier::Public,
        Modifier::Default,
    ]);
    assert_eq!(
        t.to_string().unwrap(),
        "default public protected private abstract static final native"
    );
}
