use genco::Formatter;
use genco::Item;
use genco::ItemStr;
use genco::Java;
use genco::JavaType;
use genco::Lang;
use genco::LangBox;
use genco::Tokens;

#[test]
fn scenario_keywords_with_spacing() {
    let mut t: Tokens<Java> = Tokens::new();
    t.append("public");
    t.spacing();
    t.append("static");
    t.spacing();
    t.spacing();
    t.append("final");
    assert_eq!(t.to_string().unwrap(), "public static final");
}

#[test]
fn spacing_runs_collapse() {
    let mut t: Tokens<Java> = Tokens::new();
    t.append("a");
    t.spacing();
    t.spacing();
    t.spacing();
    t.spacing();
    t.append("b");
    assert_eq!(t.to_string().unwrap(), "a b");
}

#[test]
fn spacing_suppressed_at_line_start() {
    let mut t: Tokens<Java> = Tokens::new();
    t.append("a");
    t.line();
    t.spacing();
    t.append("b");
    assert_eq!(t.to_string().unwrap(), "a\nb");
}

#[test]
fn spacing_suppressed_on_fresh_output() {
    let mut t: Tokens<Java> = Tokens::new();
    t.spacing();
    t.append("a");
    assert_eq!(t.to_string().unwrap(), "a");
}

#[test]
fn trailing_spacing_dropped() {
    let mut t: Tokens<Java> = Tokens::new();
    t.append("a");
    t.spacing();
    assert_eq!(t.to_string().unwrap(), "a");
}

#[test]
fn push_collapses_to_one_break() {
    let mut t: Tokens<Java> = Tokens::new();
    t.append("a");
    t.push();
    t.push();
    t.append("b");
    assert_eq!(t.to_string().unwrap(), "a\nb");
}

#[test]
fn push_after_line_is_noop() {
    let mut t: Tokens<Java> = Tokens::new();
    t.append("a");
    t.line();
    t.push();
    t.append("b");
    assert_eq!(t.to_string().unwrap(), "a\nb");
}

#[test]
fn push_on_empty_output_is_noop() {
    let mut t: Tokens<Java> = Tokens::new();
    t.push();
    t.append("a");
    assert_eq!(t.to_string().unwrap(), "a");
}

#[test]
fn line_always_breaks() {
    let mut t: Tokens<Java> = Tokens::new();
    t.line();
    t.line();
    assert_eq!(t.to_string().unwrap(), "\n\n");
}

#[test]
fn scenario_indent_roundtrip() {
    let mut t: Tokens<Java> = Tokens::new();
    t.indent();
    t.append("x");
    t.unindent();
    let mut out = Formatter::new(0);
    let mut config = Java::new_config();
    t.format(&mut out, &mut config);
    assert_eq!(out.depth(), 0);
    assert_eq!(out.into_output(), "x\n");
}

#[test]
fn indent_breaks_nonempty_line() {
    let mut t: Tokens<Java> = Tokens::new();
    t.append("a");
    t.indent();
    t.append("b");
    t.unindent();
    let mut out = Formatter::new(0);
    let mut config = Java::new_config();
    t.format(&mut out, &mut config);
    assert_eq!(out.depth(), 0);
    assert_eq!(out.into_output(), "a\nb\n");
}

#[test]
fn formatter_tracks_depth() {
    let mut t: Tokens<Java> = Tokens::new();
    t.indent();
    t.indent();
    t.append("x");
    let mut out = Formatter::new(0);
    let mut config = Java::new_config();
    t.format(&mut out, &mut config);
    assert_eq!(out.depth(), 2);
    assert!(out.line_has_content());
}

#[test]
fn empty_literal_leaves_line_empty() {
    let mut t: Tokens<Java> = Tokens::new();
    t.append("");
    t.spacing();
    t.append("x");
    assert_eq!(t.to_string().unwrap(), "x");
}

#[test]
fn scenario_quoted_escapes() {
    let mut t: Tokens<Java> = Tokens::new();
    t.push_item(Item::Quoted(ItemStr::from_str("a\"b")));
    assert_eq!(t.to_string().unwrap(), "\"a\\\"b\"");
}

#[test]
fn quoted_empty_text() {
    let mut t: Tokens<Java> = Tokens::new();
    t.push_item(Item::Quoted(ItemStr::from_str("")));
    assert_eq!(t.to_string().unwrap(), "\"\"");
}

#[test]
fn quoted_control_characters() {
    let mut t: Tokens<Java> = Tokens::new();
    t.push_item(Item::Quoted(ItemStr::from_str("a\\b\nc\td\re")));
    assert_eq!(t.to_string().unwrap(), "\"a\\\\b\\nc\\td\\re\"");
}

#[test]
fn quoted_marks_line_nonempty() {
    let mut t: Tokens<Java> = Tokens::new();
    t.push_item(Item::Quoted(ItemStr::from_str("q")));
    t.spacing();
    t.append("x");
    assert_eq!(t.to_string().unwrap(), "\"q\" x");
}

#[test]
fn langbox_renders_construct() {
    let construct = JavaType {
        name: ItemStr::from_str("java.util.List"),
    };
    let mut t: Tokens<Java> = Tokens::new();
    t.push_item(Item::LangBox(LangBox::new(construct)));
    assert_eq!(t.to_string().unwrap(), "java.util.List");
}

#[test]
fn registered_emits_nothing() {
    let construct = JavaType {
        name: ItemStr::from_str("java.util.List"),
    };
    let mut t: Tokens<Java> = Tokens::new();
    t.append("a");
    t.push_item(Item::Registered(LangBox::new(construct)));
    t.append("b");
    assert_eq!(t.to_string().unwrap(), "ab");
}

#[test]
fn items_debug_format() {
    let lit: Item<Java> = Item::Literal(ItemStr::from_str("x"));
    assert_eq!(format!("{:?}", lit), "Literal(Shared(\"x\"))");
    let sp: Item<Java> = Item::Spacing;
    assert_eq!(format!("{:?}", sp), "Spacing");
    let st: Item<Java> = Item::Literal(ItemStr::Static("y"));
    assert_eq!(format!("{:?}", st), "Literal(Static(\"y\"))");
}

#[test]
fn langbox_clone_shares_construct() {
    let shared = LangBox::new(JavaType {
        name: ItemStr::from_str("Shared"),
    });
    let mut t: Tokens<Java> = Tokens::new();
    t.push_item(Item::LangBox(shared.clone()));
    t.spacing();
    t.push_item(Item::LangBox(shared));
    assert_eq!(t.to_string().unwrap(), "Shared Shared");
}
