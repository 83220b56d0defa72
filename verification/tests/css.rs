use conrod_layout::color::{rgba, Color};
use conrod_layout::css::{
    parse_hex_color, CssValueable, CustomParseError, Declaration, FromValue, Rule, Selector,
    SelectorRelation, Specificity, Theme, Unit, Value,
};

fn selector(element: Option<&str>, classes: &[&str], pseudo_classes: &[&str]) -> Selector {
    let mut s = Selector::new(element);
    for class in classes {
        s.with_class(class);
    }
    for pseudo_class in pseudo_classes {
        s.with_pseudo_class(pseudo_class);
    }
    s
}

fn px(property: &str, value: u64, important: bool) -> Declaration {
    Declaration { property: property.to_string(), value: Value::Scalar(value, Unit::Px), important }
}

fn rule(selectors: Vec<Selector>, declarations: Vec<Declaration>) -> Rule {
    Rule { selectors, declarations }
}

fn scalar_of(value: Option<Value>) -> Option<(u64, Unit)> {
    match value {
        Some(Value::Scalar(number, unit)) => Some((number, unit)),
        _ => None,
    }
}

#[test]
fn important_rule_wins_over_later_more_specific_rule() {
    let theme = Theme::from_rules(vec![
        rule(vec![selector(Some("button"), &[], &[])], vec![px("border-width", 1, false)]),
        rule(vec![selector(Some("button"), &[], &["active"])], vec![px("border-width", 1, true)]),
        rule(vec![selector(Some("button"), &["big"], &["active"])], vec![px("border-width", 5, false)]),
    ]);
    let widget = selector(Some("button"), &["big"], &["active"]);
    assert_eq!(scalar_of(theme.get("border-width", &widget)), Some((1, Unit::Px)));
    assert_eq!(theme.scalar("border-width", &widget), Some(1));
}

#[test]
fn the_value_comes_from_the_important_rule() {
    let theme = Theme::from_rules(vec![
        rule(vec![selector(Some("button"), &[], &[])], vec![px("border-width", 2, false)]),
        rule(vec![selector(Some("button"), &[], &["active"])], vec![px("border-width", 7, true)]),
        rule(vec![selector(Some("button"), &["big"], &["active"])], vec![px("border-width", 5, false)]),
    ]);
    let widget = selector(Some("button"), &["big"], &["active"]);
    assert_eq!(theme.scalar("border-width", &widget), Some(7));
    let plain = selector(Some("button"), &[], &[]);
    assert_eq!(theme.scalar("border-width", &plain), Some(2));
    let big = selector(Some("button"), &["big"], &[]);
    assert_eq!(theme.scalar("border-width", &big), Some(2));
}

#[test]
fn more_specific_rule_wins_among_equally_important() {
    let theme = Theme::from_rules(vec![
        rule(vec![selector(Some("button"), &["big"], &[])], vec![px("width", 10, false)]),
        rule(vec![selector(Some("button"), &[], &[])], vec![px("width", 20, false)]),
        rule(vec![selector(None, &[], &[])], vec![px("width", 30, false)]),
    ]);
    let widget = selector(Some("button"), &["big"], &[]);
    assert_eq!(theme.scalar("width", &widget), Some(10));
    assert_eq!(theme.scalar("width", &selector(Some("button"), &[], &[])), Some(20));
    assert_eq!(theme.scalar("width", &selector(Some("label"), &[], &[])), Some(30));
}

#[test]
fn last_rule_wins_among_equals() {
    let theme = Theme::from_rules(vec![
        rule(vec![selector(Some("button"), &[], &[])], vec![px("width", 1, false)]),
        rule(vec![selector(Some("button"), &[], &[])], vec![px("width", 2, false)]),
        rule(vec![selector(Some("label"), &[], &[])], vec![px("width", 3, false)]),
    ]);
    assert_eq!(theme.scalar("width", &selector(Some("button"), &[], &[])), Some(2));
}

#[test]
fn first_declaration_of_a_rule_speaks() {
    let theme = Theme::from_rules(vec![rule(
        vec![selector(Some("button"), &[], &[])],
        vec![px("height", 9, false), px("width", 1, false), px("width", 2, true)],
    )]);
    assert_eq!(theme.scalar("width", &selector(Some("button"), &[], &[])), Some(1));
}

#[test]
fn highest_matching_selector_of_a_rule_counts() {
    let theme = Theme::from_rules(vec![
        rule(
            vec![selector(Some("button"), &[], &[]), selector(Some("button"), &["a", "b"], &[])],
            vec![px("width", 1, false)],
        ),
        rule(vec![selector(Some("button"), &["a"], &[])], vec![px("width", 2, false)]),
    ]);
    assert_eq!(theme.scalar("width", &selector(Some("button"), &["a", "b"], &[])), Some(1));
    assert_eq!(theme.scalar("width", &selector(Some("button"), &["a"], &[])), Some(2));
}

#[test]
fn nothing_holds_where_no_rule_speaks() {
    let theme = Theme::from_rules(vec![rule(
        vec![selector(Some("button"), &[], &[])],
        vec![px("width", 1, false)],
    )]);
    assert!(theme.get("width", &selector(Some("label"), &[], &[])).is_none());
    assert!(theme.get("height", &selector(Some("button"), &[], &[])).is_none());
    assert!(theme.get("width", &selector(None, &[], &[])).is_none());
    assert!(Theme::new().get("width", &selector(Some("button"), &[], &[])).is_none());
}

#[test]
fn typed_lookups_give_their_kind_only() {
    let red = rgba(255, 0, 0, 255);
    let theme = Theme::from_rules(vec![rule(
        vec![selector(None, &[], &[])],
        vec![
            Declaration { property: "color".to_string(), value: Value::Color(red), important: false },
            Declaration { property: "font".to_string(), value: Value::Symbol("bold".to_string()), important: false },
            Declaration { property: "text".to_string(), value: Value::String("hello".to_string()), important: false },
            px("size", 12, false),
            px("huge", u64::MAX, false),
        ],
    )]);
    let widget = selector(Some("label"), &[], &[]);
    assert_eq!(theme.color("color", &widget), Some(red));
    assert_eq!(theme.color("size", &widget), None);
    assert_eq!(theme.scalar("size", &widget), Some(12));
    assert_eq!(theme.scalar("color", &widget), None);
    assert_eq!(theme.font_size("size", &widget), Some(12));
    assert_eq!(theme.font_size("huge", &widget), Some(u32::MAX));
    assert_eq!(theme.font_size("font", &widget), None);
    assert_eq!(theme.string("font", &widget), Some("bold".to_string()));
    assert_eq!(theme.string("text", &widget), Some("hello".to_string()));
    assert_eq!(theme.string("size", &widget), None);
    assert_eq!(theme.string("missing", &widget), None);
}

#[test]
fn selector_matches_by_element_and_subsets() {
    let widget = selector(Some("button"), &["big", "red"], &["active"]);
    assert!(selector(None, &[], &[]).matches(&widget));
    assert!(selector(Some("button"), &[], &[]).matches(&widget));
    assert!(selector(Some("button"), &["red"], &["active"]).matches(&widget));
    assert!(selector(None, &["big", "red"], &[]).matches(&widget));
    assert!(!selector(Some("label"), &[], &[]).matches(&widget));
    assert!(!selector(Some("button"), &["blue"], &[]).matches(&widget));
    assert!(!selector(Some("button"), &[], &["hover"]).matches(&widget));
    assert!(!selector(Some("button"), &[], &[]).matches(&selector(None, &[], &[])));
}

#[test]
fn classes_can_be_taken_away() {
    let mut s = selector(Some("button"), &["big", "red"], &["active", "hover"]);
    s.without_class("big");
    s.without_pseudo_class("hover");
    s.without_class("absent");
    assert!(s.matches(&selector(Some("button"), &["red"], &["active"])));
    assert!(selector(Some("button"), &["red"], &["active"]).matches(&s));
    assert!(!s.is_empty());
    assert!(Selector::new(None).is_empty());
    assert!(Selector::default().is_empty());
    assert!(!Selector::new(Some("a")).is_empty());
    let mut only_class = Selector::new(None);
    only_class.with_class("x");
    assert!(!only_class.is_empty());
    only_class.without_class("x");
    assert!(only_class.is_empty());
}

#[test]
fn specificity_counts_names_and_element() {
    assert_eq!(selector(None, &[], &[]).specificity(), Specificity([0, 0, 0]));
    assert_eq!(selector(Some("a"), &[], &[]).specificity(), Specificity([0, 0, 1]));
    assert_eq!(selector(Some("a"), &["x", "y"], &["z"]).specificity(), Specificity([0, 3, 1]));
    assert_eq!(selector(None, &["x", "x"], &[]).specificity(), Specificity([0, 1, 0]));
}

#[test]
fn specificity_adds_up_along_a_chain() {
    let root = selector(Some("panel"), &["dark"], &[]);
    let mut middle = selector(Some("list"), &[], &["focus"]);
    middle.relation = Some(Box::new(SelectorRelation::Ancestor(root)));
    let mut last = selector(None, &["item"], &[]);
    last.relation = Some(Box::new(SelectorRelation::Parent(middle)));
    assert_eq!(last.specificity(), Specificity([0, 3, 2]));
    assert_eq!(last.clone().specificity(), Specificity([0, 3, 2]));
}

#[test]
fn specificity_stops_at_255() {
    let names: Vec<String> = (0..300).map(|i| format!("c{}", i)).collect();
    let mut s = Selector::new(None);
    for name in &names {
        s.with_class(name);
    }
    assert_eq!(s.specificity(), Specificity([0, 255, 0]));
    assert_eq!(Specificity([200, 1, 255]).add(Specificity([100, 2, 1])), Specificity([255, 3, 255]));
}

#[test]
fn specificity_orders_by_first_difference() {
    assert!(Specificity([1, 0, 0]).outranks(&Specificity([0, 9, 9])));
    assert!(Specificity([0, 2, 0]).outranks(&Specificity([0, 1, 9])));
    assert!(Specificity([0, 1, 2]).outranks(&Specificity([0, 1, 1])));
    assert!(!Specificity([0, 1, 1]).outranks(&Specificity([0, 1, 1])));
    assert!(!Specificity([0, 1, 1]).outranks(&Specificity([0, 2, 0])));
    assert!(Specificity([0, 1, 1]) < Specificity([0, 2, 0]));
}

#[test]
fn units_by_name() {
    assert_eq!(Unit::from("px"), Unit::Px);
    assert_eq!(Unit::from("%"), Unit::Percent);
    assert_eq!(Unit::from("em"), Unit::Unitless);
    assert_eq!(Unit::from(""), Unit::Unitless);
    assert_eq!(Unit::from("PX"), Unit::Unitless);
}

#[test]
fn values_give_their_own_kind() {
    let c = Color { red: 1, green: 2, blue: 3, alpha: 4 };
    assert_eq!(Value::Color(c).color(), Some(c));
    assert_eq!(Value::Color(c).scalar(), None);
    assert_eq!(Value::Color(c).string(), None);
    assert_eq!(Value::Scalar(3, Unit::Percent).scalar(), Some(3));
    assert_eq!(Value::Symbol("a".to_string()).string(), Some("a".to_string()));
    assert_eq!(Value::String("b".to_string()).string(), Some("b".to_string()));
    assert_eq!(Value::String("b".to_string()).clone().string(), Some("b".to_string()));
}

#[test]
fn hex_colors_with_six_and_eight_digits() {
    assert_eq!(parse_hex_color("ff8000").ok(), Some(rgba(255, 128, 0, 255)));
    assert_eq!(parse_hex_color("FF8000").ok(), Some(rgba(255, 128, 0, 255)));
    assert_eq!(parse_hex_color("01020304").ok(), Some(rgba(1, 2, 3, 4)));
    assert_eq!(parse_hex_color("ffffffff").ok(), Some(rgba(255, 255, 255, 255)));
    assert_eq!(parse_hex_color("000000").ok(), Some(rgba(0, 0, 0, 255)));
    assert_eq!(parse_hex_color("+12345").ok(), Some(rgba(1, 0x23, 0x45, 255)));
    assert_eq!(parse_hex_color("+1234567").ok(), Some(rgba(1, 0x23, 0x45, 0x67)));
}

#[test]
fn hex_colors_agree_with_std_parsing() {
    for text in ["ff8000", "01020304", "+12345", "+1234567", "abcdef", "ABCDEF12", "-12345", "12 456", "12345+", "g00000"] {
        let expected = u32::from_str_radix(text, 16).ok().map(|x| {
            if text.len() == 6 {
                rgba((x >> 16) as u8, (x >> 8) as u8, x as u8, 255)
            } else {
                rgba((x >> 24) as u8, (x >> 16) as u8, (x >> 8) as u8, x as u8)
            }
        });
        assert_eq!(parse_hex_color(text).ok(), expected);
    }
}

#[test]
fn bad_hex_colors_are_refused_with_their_text() {
    for text in ["", "fff", "fffffff", "fffffffff", "gggggg", "-12345", "12345é", "ééé", "1234 6"] {
        match parse_hex_color(text) {
            Err(CustomParseError::InvalidColorHex(found)) => assert_eq!(found, text),
            other => panic!("{:?}", other),
        }
    }
}

#[test]
fn values_read_as_what_is_asked_for() {
    let symbol = |text: &str| Value::Symbol(text.to_string());
    assert_eq!(<Option<bool> as FromValue>::from(symbol("true")), Some(true));
    assert_eq!(<Option<bool> as FromValue>::from(Value::String("false".to_string())), Some(false));
    assert_eq!(<Option<bool> as FromValue>::from(symbol("yes")), None);
    assert_eq!(<Option<bool> as FromValue>::from(Value::Scalar(1, Unit::Px)), None);
    assert_eq!(<Option<u64> as FromValue>::from(Value::Scalar(9, Unit::Px)), Some(9));
    assert_eq!(<Option<u64> as FromValue>::from(symbol("9")), None);
    assert_eq!(<Option<u32> as FromValue>::from(Value::Scalar(9, Unit::Px)), Some(9));
    assert_eq!(<Option<u32> as FromValue>::from(Value::Scalar(1 << 40, Unit::Px)), Some(u32::MAX));
    let red = rgba(255, 0, 0, 255);
    assert_eq!(<Option<Color> as FromValue>::from(Value::Color(red)), Some(red));
    assert_eq!(<Option<Color> as FromValue>::from(symbol("red")), None);
    let read: CssValueable<Option<bool>> = CssValueable::of(symbol("true"));
    assert_eq!(read.0, Some(true));
}
