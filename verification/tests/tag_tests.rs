//! Tests of tag and allergen recognition and of the tag rules.
use mensa::notes::{parse_and_split_notes, Note};
use mensa::rules::{TagFilter, TagRule};
use mensa::tag::{Allergene, Tag};

#[test]
fn parses_single_tags() {
    assert_eq!(Tag::parse_str("Rind"), vec![Tag::Cow]);
    assert_eq!(Tag::parse_str("Schweinefleisch"), vec![Tag::Pig]);
    assert_eq!(Tag::parse_str("vegan"), vec![Tag::Vegan]);
    assert_eq!(Tag::parse_str("Knoblauch"), vec![Tag::Garlic]);
    assert_eq!(Tag::parse_str("enthält Sellerie"), vec![Tag::Sellery]);
}

#[test]
fn parses_multiple_tags_in_enum_order() {
    let tags = Tag::parse_str("Vegetarisch, enthält Milch und Knoblauch");
    assert_eq!(tags, vec![Tag::Garlic, Tag::Lactose, Tag::Vegetarian]);
}

#[test]
fn matching_ignores_case_and_umlauts() {
    assert_eq!(Tag::parse_str("GEFLÜGEL"), vec![Tag::Poultry]);
    assert_eq!(Tag::parse_str("SÜSSUNGSMITTEL"), vec![]);
    assert_eq!(Tag::parse_str("Süßungsmittel"), vec![Tag::Sweetener]);
}

#[test]
fn egg_matches_the_whole_note_ei() {
    assert_eq!(Tag::parse_str("ei"), vec![Tag::Egg]);
    assert_eq!(Tag::parse_str("Ei"), vec![Tag::Egg]);
    // "ei" merely as a substring is not enough
    assert_eq!(Tag::parse_str("eine Beilage"), vec![]);
    assert_eq!(Tag::parse_str("Eier"), vec![Tag::Egg]);
}

#[test]
fn unknown_notes_match_nothing() {
    assert_eq!(Tag::parse_str("Pommes"), vec![]);
    assert_eq!(Tag::parse_str(""), vec![]);
}

#[test]
fn primary_and_secondary_are_complements() {
    assert!(Tag::Vegan.is_primary());
    assert!(Tag::Cow.is_primary());
    assert!(!Tag::Gluten.is_primary());
    assert!(Tag::Gluten.is_secondary());
    assert!(!Tag::Vegan.is_secondary());
    for tag in Tag::all() {
        assert_eq!(tag.is_primary(), !tag.is_secondary());
    }
}

#[test]
fn describes_tags() {
    assert_eq!(Tag::Alcohol.describe(), "Contains alcohol");
    assert_eq!(Tag::Vegan.describe(), "Does not contain any animal produce");
    assert_eq!(
        Tag::CacaoContainingFatGlaze.describe(),
        "Contains a cheap oil-based glazing instead of real chocolate glazing"
    );
}

#[test]
fn as_emoji_and_as_id() {
    assert_eq!(Tag::Vegan.as_emoji(), "🌱");
    assert_eq!(Tag::Poultry.as_emoji(), "🐓");
    assert_eq!(Tag::Alcohol.as_emoji(), "1");
    assert_eq!(Tag::Vegan.as_id(true), "Vegan");
    assert_eq!(Tag::Vegan.as_id(false), "🌱");
    assert_eq!(Tag::Waxed.as_id(true), "27");
}

#[test]
fn names_spell_out_variants() {
    assert_eq!(Tag::CacaoContainingFatGlaze.name(), "Cacao Containing Fat Glaze");
    assert_eq!(Tag::FlavorEnhancer.name(), "Flavor Enhancer");
    assert_eq!(Tag::Vegan.name(), "Vegan");
}

#[test]
fn allergene_from_str() {
    assert_eq!(Allergene::from_str("Milch"), vec![Allergene::Milk]);
    assert_eq!(Allergene::from_str("Schwefel"), vec![Allergene::Sulfite]);
    assert_eq!(
        Allergene::from_str("Nüsse und Senf"),
        vec![Allergene::Mustard, Allergene::Nuts]
    );
    assert_eq!(Allergene::from_str("Pommes"), vec![]);
}

#[test]
fn notes_split_into_tags_and_descriptions() {
    let notes = Note::parse_str("Schwein");
    assert_eq!(notes, vec![Note::Tag(Tag::Pig)]);
    let notes = Note::parse_str("Hausgemachte Pommes");
    assert_eq!(notes, vec![Note::Desc("Hausgemachte Pommes".to_owned())]);
}

#[test]
fn split_notes_deduplicates() {
    let notes = vec![
        "Schwein".to_owned(),
        "Hausgemacht".to_owned(),
        "Hausgemacht".to_owned(),
        "Schweinefleisch".to_owned(),
    ];
    let (tags, descs) = parse_and_split_notes(&notes);
    assert_eq!(tags, vec![Tag::Pig]);
    assert_eq!(descs, vec!["Hausgemacht".to_owned()]);
}

#[test]
fn tag_rules_select_and_reject() {
    let rule = TagRule { add: vec![Tag::Vegan], sub: vec![Tag::Nuts] };
    assert!(rule.is_match_add(&vec![Tag::Vegan, Tag::Soy]));
    assert!(!rule.is_match_add(&vec![Tag::Cow]));
    assert!(rule.is_match_sub(&vec![Tag::Nuts]));
    assert!(!rule.is_match_sub(&vec![Tag::Vegan]));
    assert!(!rule.is_empty_add());
    assert!(TagRule::empty().is_empty_add());
}

#[test]
fn joined_rules_combine_both_sides() {
    let a = TagRule { add: vec![Tag::Vegan], sub: vec![] };
    let b = TagRule { add: vec![Tag::Vegetarian], sub: vec![Tag::Pig] };
    let joined = a.joined(b);
    assert_eq!(joined.add, vec![Tag::Vegan, Tag::Vegetarian]);
    assert_eq!(joined.sub, vec![Tag::Pig]);
}

#[test]
fn empty_allow_list_allows_everything() {
    let filter = TagFilter { allow: vec![], deny: vec![Tag::Fish] };
    assert!(filter.allows(&vec![Tag::Cow]));
    assert!(filter.denies(&vec![Tag::Fish]));
    assert!(!filter.denies(&vec![Tag::Cow]));
    let narrow = TagFilter { allow: vec![Tag::Vegan], deny: vec![] };
    assert!(narrow.allows(&vec![Tag::Vegan]));
    assert!(!narrow.allows(&vec![Tag::Cow]));
    let joined = narrow.joined(TagFilter { allow: vec![Tag::Vegetarian], deny: vec![] });
    assert!(joined.allows(&vec![Tag::Vegetarian]));
}
