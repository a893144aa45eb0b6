use genco::FormatTokens;
use genco::Item;
use genco::ItemStr;
use genco::Java;
use genco::Tokens;
use std::rc::Rc;

#[test]
fn strings_become_literals() {
    let mut t: Tokens<Java> = Tokens::new();
    t.append("borrowed");
    t.spacing();
    t.append(String::from("owned"));
    t.spacing();
    let owned = String::from("referenced");
    t.append(&owned);
    t.spacing();
    t.append(Rc::new(String::from("shared")));
    t.spacing();
    let rc = Rc::new(String::from("rc-ref"));
    t.append(&rc);
    t.spacing();
    t.append(ItemStr::from_str("item-str"));
    assert_eq!(
        t.to_string().unwrap(),
        "borrowed owned referenced shared rc-ref item-str"
    );
}

#[test]
fn integers_render_decimal() {
    let mut t: Tokens<Java> = Tokens::new();
    t.append(42u32);
    t.spacing();
    t.append(0u8);
    t.spacing();
    t.append(-7i32);
    t.spacing();
    t.append(255u8);
    t.spacing();
    t.append(1000000u64);
    assert_eq!(t.to_string().unwrap(), "42 0 -7 255 1000000");
}

#[test]
fn extreme_integers_render_decimal() {
    let mut t: Tokens<Java> = Tokens::new();
    t.append(u128::MAX);
    t.spacing();
    t.append(i128::MIN);
    t.spacing();
    t.append(i64::MIN);
    assert_eq!(
        t.to_string().unwrap(),
        "340282366920938463463374607431768211455 \
         -170141183460469231731687303715884105728 \
         -9223372036854775808"
    );
}

#[test]
fn option_none_contributes_nothing() {
    let mut t: Tokens<Java> = Tokens::new();
    t.append("a");
    t.append(Option::<Tokens<Java>>::None);
    t.append("b");
    assert_eq!(t.to_string().unwrap(), "ab");
}

#[test]
fn option_some_delegates() {
    let mut inner: Tokens<Java> = Tokens::new();
    inner.append("inner");
    let mut t: Tokens<Java> = Tokens::new();
    t.append(Some(inner));
    assert_eq!(t.to_string().unwrap(), "inner");
}

#[test]
fn option_none_is_empty() {
    let none: Option<Tokens<Java>> = None;
    assert!(FormatTokens::<Java>::is_empty(&none));
}

#[test]
fn empty_tokens_is_empty() {
    let t: Tokens<Java> = Tokens::new();
    assert!(FormatTokens::<Java>::is_empty(&t));
    let mut s: Tokens<Java> = Tokens::new();
    s.spacing();
    assert!(!FormatTokens::<Java>::is_empty(&s));
}

#[test]
fn collection_with_nonempty_member_is_not_empty() {
    let mut a: Tokens<Java> = Tokens::new();
    a.append("x");
    let b: Tokens<Java> = Tokens::new();
    let v = vec![b, a];
    assert!(!FormatTokens::<Java>::is_empty(&v));
    let w = vec![Tokens::<Java>::new(), Tokens::<Java>::new()];
    assert!(FormatTokens::<Java>::is_empty(&w));
}

#[test]
fn collection_flattens_in_order() {
    let mut a: Tokens<Java> = Tokens::new();
    a.append("first");
    let mut b: Tokens<Java> = Tokens::new();
    b.spacing();
    b.append("second");
    let mut t: Tokens<Java> = Tokens::new();
    t.append(vec![a, b]);
    assert_eq!(t.to_string().unwrap(), "first second");
}

#[test]
fn roundtrip_preserves_directives() {
    let mut t: Tokens<Java> = Tokens::new();
    t.append("a");
    t.spacing();
    t.append("b");
    t.line();
    t.push_item(Item::Quoted(ItemStr::from_str("q")));
    let before = t.to_string().unwrap();
    let n = t.len();
    let again = t.into_tokens();
    assert_eq!(again.len(), n);
    assert_eq!(again.to_string().unwrap(), before);
}

#[test]
fn borrowed_tokens_append_as_clones() {
    let mut inner: Tokens<Java> = Tokens::new();
    inner.append("shared");
    let mut t: Tokens<Java> = Tokens::new();
    t.append(&inner);
    t.spacing();
    t.append(&inner);
    assert_eq!(t.to_string().unwrap(), "shared shared");
    assert_eq!(inner.to_string().unwrap(), "shared");
}

#[test]
fn extend_appends_in_order() {
    let mut a: Tokens<Java> = Tokens::new();
    a.append("a");
    let mut b: Tokens<Java> = Tokens::new();
    b.spacing();
    b.append("b");
    a.extend(b);
    assert_eq!(a.to_string().unwrap(), "a b");
}

#[test]
fn item_from_conversions() {
    let mut t: Tokens<Java> = Tokens::new();
    t.push_item(Item::from(ItemStr::from_str("a")));
    t.spacing();
    t.push_item(Item::from(Rc::new(String::from("b"))));
    assert_eq!(t.to_string().unwrap(), "a b");
}

#[test]
fn single_item_appends_itself() {
    let mut t: Tokens<Java> = Tokens::new();
    t.append(Item::Literal(ItemStr::from_string(String::from("lit"))));
    assert_eq!(t.to_string().unwrap(), "lit");
}
