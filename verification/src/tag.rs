//! Tags and allergens derived from the free-text notes of a meal.
//!
//! The upstream notes are German phrases; each tag is recognized by a fixed
//! set of patterns, matched case-insensitively against the note. The matching
//! rules are the library's own: a simple character fold stands in for case
//! folding, and each pattern is a substring test (one tag also matches one
//! exact whole note).
use vstd::prelude::*;

use crate::textops::{chars_of, contains_lit, contains_seq};

verus! {

/// Case folding for the characters the patterns use: ASCII letters and the
/// German letters that occur in them.
pub open spec fn fold_char(c: char) -> char {
    if 65 <= c as u32 && c as u32 <= 90 {
        (((c as u32 + 32) as u8) as char)
    } else if c == '\u{c4}' {
        'ä'
    } else if c == '\u{d6}' {
        'ö'
    } else if c == '\u{dc}' {
        'ü'
    } else if c == '\u{1e9e}' {
        'ß'
    } else {
        c
    }
}

/// Every character of `s` through [`fold_char`].
pub open spec fn folded(s: Seq<char>) -> Seq<char> {
    s.map_values(|c: char| fold_char(c))
}

/// Executable [`fold_char`].
fn fold_char_x(c: char) -> (r: char)
    ensures
        r == fold_char(c),
{
    let u = c as u32;
    if 65 <= u && u <= 90 {
        ((u + 32) as u8) as char
    } else if c == '\u{c4}' {
        'ä'
    } else if c == '\u{d6}' {
        'ö'
    } else if c == '\u{dc}' {
        'ü'
    } else if c == '\u{1e9e}' {
        'ß'
    } else {
        c
    }
}

/// The characters of `s`, case folded.
fn folded_chars(s: &str) -> (r: Vec<char>)
    ensures
        r@ == folded(s@),
{
    let v = chars_of(s);
    let n = v.len();
    let mut r: Vec<char> = Vec::new();
    let mut i: usize = 0;
    while i < n
        invariant
            n == v@.len(),
            v@ == s@,
            i <= n,
            r@ == folded(s@.take(i as int)),
        decreases n - i,
    {
        r.push(fold_char_x(v[i]));
        proof {
            assert(r@ =~= folded(s@.take(i as int + 1)));
        }
        i = i + 1;
    }
    proof {
        assert(s@.take(n as int) =~= s@);
    }
    r
}

/// A tag describing a meal.
///
/// Contains allergy information, descriptions and categories.
#[derive(Debug, Clone, Copy, Hash, PartialEq, Eq, PartialOrd, Ord, Structural)]
pub enum Tag {
    Acidifier,
    Alcohol,
    Antioxidant,
    Blackened,
    CacaoContainingFatGlaze,
    Coloring,
    Cow,
    Egg,
    Fish,
    FlavorEnhancer,
    Garlic,
    Gluten,
    Lactose,
    Lupin,
    Mustard,
    Nuts,
    Phosphate,
    Pig,
    Poultry,
    Preservative,
    Sellery,
    Sesame,
    Soy,
    Sulfite,
    Sweetener,
    Vegan,
    Vegetarian,
    Waxed,
}

/// The position of a tag in the enum's order.
pub open spec fn tag_id(t: Tag) -> int {
    match t {
        Tag::Acidifier => 0,
        Tag::Alcohol => 1,
        Tag::Antioxidant => 2,
        Tag::Blackened => 3,
        Tag::CacaoContainingFatGlaze => 4,
        Tag::Coloring => 5,
        Tag::Cow => 6,
        Tag::Egg => 7,
        Tag::Fish => 8,
        Tag::FlavorEnhancer => 9,
        Tag::Garlic => 10,
        Tag::Gluten => 11,
        Tag::Lactose => 12,
        Tag::Lupin => 13,
        Tag::Mustard => 14,
        Tag::Nuts => 15,
        Tag::Phosphate => 16,
        Tag::Pig => 17,
        Tag::Poultry => 18,
        Tag::Preservative => 19,
        Tag::Sellery => 20,
        Tag::Sesame => 21,
        Tag::Soy => 22,
        Tag::Sulfite => 23,
        Tag::Sweetener => 24,
        Tag::Vegan => 25,
        Tag::Vegetarian => 26,
        Tag::Waxed => 27,
    }
}

/// Every tag's position lies in the enum's range.
pub(crate) proof fn lemma_tag_id_range(t: Tag)
    ensures
        0 <= tag_id(t) < 28,
{
}

/// The tag at position `i` of the enum's order.
pub(crate) fn tag_of_id(i: u8) -> (t: Tag)
    requires
        i < 28,
    ensures
        tag_id(t) == i as int,
{
    match i {
        0 => Tag::Acidifier,
        1 => Tag::Alcohol,
        2 => Tag::Antioxidant,
        3 => Tag::Blackened,
        4 => Tag::CacaoContainingFatGlaze,
        5 => Tag::Coloring,
        6 => Tag::Cow,
        7 => Tag::Egg,
        8 => Tag::Fish,
        9 => Tag::FlavorEnhancer,
        10 => Tag::Garlic,
        11 => Tag::Gluten,
        12 => Tag::Lactose,
        13 => Tag::Lupin,
        14 => Tag::Mustard,
        15 => Tag::Nuts,
        16 => Tag::Phosphate,
        17 => Tag::Pig,
        18 => Tag::Poultry,
        19 => Tag::Preservative,
        20 => Tag::Sellery,
        21 => Tag::Sesame,
        22 => Tag::Soy,
        23 => Tag::Sulfite,
        24 => Tag::Sweetener,
        25 => Tag::Vegan,
        26 => Tag::Vegetarian,
        27 => Tag::Waxed,
        _ => unreached(),
    }
}

/// Does the case-folded note `f` carry the tag `t`?
///
/// Each tag matches when one of its patterns stands somewhere in the note;
/// [`Tag::Egg`] also matches the whole note `"ei"` on its own.
pub open spec fn tag_matches(t: Tag, f: Seq<char>) -> bool {
    match t {
        Tag::Acidifier => contains_seq(f, "säuerungsmittel"@) || contains_seq(f, "säurungsmittel"@),
        Tag::Alcohol => contains_seq(f, "alkohol"@),
        Tag::Antioxidant => contains_seq(f, "antioxidation"@) || contains_seq(f, "antioxydation"@),
        Tag::Blackened => contains_seq(f, "geschwärzt"@),
        Tag::CacaoContainingFatGlaze => contains_seq(f, "kakaohaltige fettglasur"@),
        Tag::Coloring => contains_seq(f, "farbstoff"@),
        Tag::Cow => contains_seq(f, "rind"@),
        Tag::Egg => contains_seq(f, "hühnerei"@) || contains_seq(f, "eier"@) || f == "ei"@
            || contains_seq(f, "enthält ei*"@),
        Tag::Fish => contains_seq(f, "fisch"@),
        Tag::FlavorEnhancer => contains_seq(f, "geschmacksverstärker"@),
        Tag::Garlic => contains_seq(f, "knoblauch"@),
        Tag::Gluten => contains_seq(f, "gluten"@) || contains_seq(f, "weizen"@) || contains_seq(
            f,
            "hafer"@,
        ) || contains_seq(f, "gerste"@) || contains_seq(f, "roggen"@),
        Tag::Lactose => contains_seq(f, "milch"@) || contains_seq(f, "laktose"@),
        Tag::Lupin => contains_seq(f, "lupin"@),
        Tag::Mustard => contains_seq(f, "senf"@),
        Tag::Nuts => contains_seq(f, "schalenfrüchte"@) || contains_seq(f, "nüsse"@)
            || contains_seq(f, "walnuss"@) || contains_seq(f, "pistazie"@) || contains_seq(
            f,
            "mandeln"@,
        ),
        Tag::Phosphate => contains_seq(f, "phosphat"@),
        Tag::Pig => contains_seq(f, "schwein"@),
        Tag::Poultry => contains_seq(f, "geflügel"@),
        Tag::Preservative => contains_seq(f, "konservierung"@) || contains_seq(f, "konserviert"@),
        Tag::Sellery => contains_seq(f, "sellerie"@),
        Tag::Sesame => contains_seq(f, "sesam"@),
        Tag::Soy => contains_seq(f, "soja"@),
        Tag::Sulfite => contains_seq(f, "sulfit"@) || contains_seq(f, "schwefel"@),
        Tag::Sweetener => contains_seq(f, "süßungsmittel"@),
        Tag::Vegan => contains_seq(f, "vegan"@),
        Tag::Vegetarian => contains_seq(f, "fleischlos"@) || contains_seq(f, "vegetarisch"@)
            || contains_seq(f, "ohne fleisch"@),
        Tag::Waxed => contains_seq(f, "wachs"@),
    }
}

/// Is the folded note exactly `"ei"`?
fn is_exactly_ei(hay: &Vec<char>) -> (r: bool)
    ensures
        r == (hay@ == "ei"@),
{
    proof {
        reveal_strlit("ei");
    }
    if hay.len() == 2 {
        let ok = hay[0] == 'e' && hay[1] == 'i';
        proof {
            if ok {
                assert(hay@ =~= "ei"@);
            }
        }
        ok
    } else {
        false
    }
}

/// Executable [`tag_matches`] over a pre-folded note.
pub(crate) fn matches_folded(t: Tag, hay: &Vec<char>) -> (r: bool)
    ensures
        r == tag_matches(t, hay@),
{
    match t {
        Tag::Acidifier => contains_lit(hay, "säuerungsmittel") || contains_lit(
            hay,
            "säurungsmittel",
        ),
        Tag::Alcohol => contains_lit(hay, "alkohol"),
        Tag::Antioxidant => contains_lit(hay, "antioxidation") || contains_lit(
            hay,
            "antioxydation",
        ),
        Tag::Blackened => contains_lit(hay, "geschwärzt"),
        Tag::CacaoContainingFatGlaze => contains_lit(hay, "kakaohaltige fettglasur"),
        Tag::Coloring => contains_lit(hay, "farbstoff"),
        Tag::Cow => contains_lit(hay, "rind"),
        Tag::Egg => contains_lit(hay, "hühnerei") || contains_lit(hay, "eier") || is_exactly_ei(
            hay,
        ) || contains_lit(hay, "enthält ei*"),
        Tag::Fish => contains_lit(hay, "fisch"),
        Tag::FlavorEnhancer => contains_lit(hay, "geschmacksverstärker"),
        Tag::Garlic => contains_lit(hay, "knoblauch"),
        Tag::Gluten => contains_lit(hay, "gluten") || contains_lit(hay, "weizen") || contains_lit(
            hay,
            "hafer",
        ) || contains_lit(hay, "gerste") || contains_lit(hay, "roggen"),
        Tag::Lactose => contains_lit(hay, "milch") || contains_lit(hay, "laktose"),
        Tag::Lupin => contains_lit(hay, "lupin"),
        Tag::Mustard => contains_lit(hay, "senf"),
        Tag::Nuts => contains_lit(hay, "schalenfrüchte") || contains_lit(hay, "nüsse")
            || contains_lit(hay, "walnuss") || contains_lit(hay, "pistazie") || contains_lit(
            hay,
            "mandeln",
        ),
        Tag::Phosphate => contains_lit(hay, "phosphat"),
        Tag::Pig => contains_lit(hay, "schwein"),
        Tag::Poultry => contains_lit(hay, "geflügel"),
        Tag::Preservative => contains_lit(hay, "konservierung") || contains_lit(
            hay,
            "konserviert",
        ),
        Tag::Sellery => contains_lit(hay, "sellerie"),
        Tag::Sesame => contains_lit(hay, "sesam"),
        Tag::Soy => contains_lit(hay, "soja"),
        Tag::Sulfite => contains_lit(hay, "sulfit") || contains_lit(hay, "schwefel"),
        Tag::Sweetener => contains_lit(hay, "süßungsmittel"),
        Tag::Vegan => contains_lit(hay, "vegan"),
        Tag::Vegetarian => contains_lit(hay, "fleischlos") || contains_lit(hay, "vegetarisch")
            || contains_lit(hay, "ohne fleisch"),
        Tag::Waxed => contains_lit(hay, "wachs"),
    }
}

impl Tag {
    /// Try deriving tags from the `raw` note.
    ///
    /// The result holds exactly the tags whose patterns match the case-folded
    /// note, in the enum's order.
    pub fn parse_str(raw: &str) -> (r: Vec<Tag>)
        ensures
            forall|t: Tag| r@.contains(t) <==> tag_matches(t, folded(raw@)),
            forall|a: int, b: int| 0 <= a < b < r@.len() ==> tag_id(r@[a]) < tag_id(r@[b]),
    {
        let hay = folded_chars(raw);
        let mut r: Vec<Tag> = Vec::new();
        let mut i: u8 = 0;
        while i < 28
            invariant
                i <= 28,
                hay@ == folded(raw@),
                forall|t: Tag| r@.contains(t) ==> tag_matches(t, hay@),
                forall|t: Tag| #[trigger] r@.contains(t) ==> tag_id(t) < i as int,
                forall|t: Tag|
                    tag_id(t) < i as int && #[trigger] tag_matches(t, hay@) ==> r@.contains(t),
                forall|a: int, b: int| 0 <= a < b < r@.len() ==> tag_id(r@[a]) < tag_id(r@[b]),
            decreases 28 - i,
        {
            let t = tag_of_id(i);
            if matches_folded(t, &hay) {
                let ghost r0 = r@;
                r.push(t);
                proof {
                    assert forall|x: Tag| r@.contains(x) implies r0.contains(x) || x == t by {
                        let k = choose|k: int| 0 <= k < r@.len() && r@[k] == x;
                        if k < r0.len() {
                            assert(r0[k] == x);
                        }
                    }
                    assert(r@.contains(t)) by {
                        assert(r@[r@.len() - 1] == t);
                    }
                    assert forall|x: Tag| r0.contains(x) implies r@.contains(x) by {
                        let k = choose|k: int| 0 <= k < r0.len() && r0[k] == x;
                        assert(r@[k] == x);
                    }
                    assert forall|x: Tag| #[trigger] r@.contains(x) implies tag_id(x) < i as int
                        + 1 by {
                        if x != t {
                            assert(r0.contains(x));
                        }
                    }
                    assert forall|a: int, b: int| 0 <= a < b < r@.len() implies tag_id(r@[a])
                        < tag_id(r@[b]) by {
                        if b == r@.len() - 1 {
                            assert(r0.contains(r0[a]));
                            assert(r@[a] == r0[a]);
                            assert(r@[b] == t);
                        } else {
                            assert(r@[a] == r0[a] && r@[b] == r0[b]);
                        }
                    }
                }
            }
            i = i + 1;
        }
        proof {
            assert forall|t: Tag| tag_matches(t, hay@) implies r@.contains(t) by {
                lemma_tag_id_range(t);
            }
        }
        r
    }

    /// Is this a primary tag?
    ///
    /// Primary tags have an associated emoji and are not allergy information.
    pub fn is_primary(&self) -> (r: bool)
        ensures
            r == spec_is_primary(*self),
    {
        match self {
            Tag::Cow | Tag::Fish | Tag::Pig | Tag::Poultry | Tag::Vegan | Tag::Vegetarian => true,
            _ => false,
        }
    }

    /// Is this **not** a primary tag?
    pub fn is_secondary(&self) -> (r: bool)
        ensures
            r == !spec_is_primary(*self),
    {
        !self.is_primary()
    }

    /// Describe this tag with english words.
    ///
    /// This adds information where the variant's name itself does not suffice.
    pub fn describe(&self) -> (r: &'static str)
        ensures
            r@ == spec_describe(*self)@,
    {
        match self {
            Tag::Acidifier => "Contains artificial acidifier",
            Tag::Alcohol => "Contains alcohol",
            Tag::Antioxidant => "Contains an antioxidant",
            Tag::Blackened => "Contains ingredients that have been blackened, i.e. blackened olives",
            Tag::CacaoContainingFatGlaze => "Contains a cheap oil-based glazing instead of real chocolate glazing",
            Tag::Coloring => "Contains food coloring",
            Tag::Cow => "Contains meat from cattle",
            Tag::Egg => "Contains egg",
            Tag::Fish => "Contains fish",
            Tag::FlavorEnhancer => "Contains artificial flavor enhancer",
            Tag::Garlic => "Contains garlic",
            Tag::Gluten => "Contains gluten",
            Tag::Lactose => "Contains milk",
            Tag::Lupin => "Contains lupin",
            Tag::Mustard => "Contains mustard",
            Tag::Nuts => "Contains nuts",
            Tag::Phosphate => "Contains phosphate",
            Tag::Pig => "Contains meat from pig",
            Tag::Poultry => "Contains poultry meat",
            Tag::Preservative => "Contains artificial preservatives",
            Tag::Sellery => "Contains sellery",
            Tag::Sesame => "Contains sesame",
            Tag::Soy => "Contains soy",
            Tag::Sulfite => "Contains sulfite",
            Tag::Sweetener => "Contains artificial sweetener",
            Tag::Vegan => "Does not contain any animal produce",
            Tag::Vegetarian => "Does not contain any meat",
            Tag::Waxed => "Some ingredients have been waxed",
        }
    }

    /// The tag's emoji where it has one, else its number in the enum's order.
    pub fn as_emoji(&self) -> (r: String)
        ensures
            r@ == spec_as_emoji(*self)@,
    {
        String::from_str(self.as_id_str(false))
    }

    /// An identifier for this tag: with `plain`, a word; otherwise the emoji
    /// form. Tags without a special form show their number either way.
    pub fn as_id(&self, plain: bool) -> (r: String)
        ensures
            r@ == spec_as_id(*self, plain)@,
    {
        String::from_str(self.as_id_str(plain))
    }

    /// [`Tag::as_id`] as a borrowed string.
    fn as_id_str(&self, plain: bool) -> (r: &'static str)
        ensures
            r@ == spec_as_id(*self, plain)@,
    {
        match self {
            Tag::Vegan => if plain {
                "Vegan"
            } else {
                "🌱"
            },
            Tag::Vegetarian => if plain {
                "Vegetarian"
            } else {
                "🧀"
            },
            Tag::Pig => if plain {
                "Pig"
            } else {
                "🐖"
            },
            Tag::Fish => if plain {
                "Fish"
            } else {
                "🐟"
            },
            Tag::Cow => if plain {
                "Cow"
            } else {
                "🐄"
            },
            Tag::Poultry => if plain {
                "Poultry"
            } else {
                "🐓"
            },
            Tag::Acidifier => "0",
            Tag::Alcohol => "1",
            Tag::Antioxidant => "2",
            Tag::Blackened => "3",
            Tag::CacaoContainingFatGlaze => "4",
            Tag::Coloring => "5",
            Tag::Egg => "7",
            Tag::FlavorEnhancer => "9",
            Tag::Garlic => "10",
            Tag::Gluten => "11",
            Tag::Lactose => "12",
            Tag::Lupin => "13",
            Tag::Mustard => "14",
            Tag::Nuts => "15",
            Tag::Phosphate => "16",
            Tag::Preservative => "19",
            Tag::Sellery => "20",
            Tag::Sesame => "21",
            Tag::Soy => "22",
            Tag::Sulfite => "23",
            Tag::Sweetener => "24",
            Tag::Waxed => "27",
        }
    }

    /// The tag's name, with spaces where the variant name runs words together.
    pub fn name(&self) -> (r: String)
        ensures
            r@ == spec_name(*self)@,
    {
        match self {
            Tag::CacaoContainingFatGlaze => String::from_str("Cacao Containing Fat Glaze"),
            Tag::FlavorEnhancer => String::from_str("Flavor Enhancer"),
            Tag::Acidifier => String::from_str("Acidifier"),
            Tag::Alcohol => String::from_str("Alcohol"),
            Tag::Antioxidant => String::from_str("Antioxidant"),
            Tag::Blackened => String::from_str("Blackened"),
            Tag::Coloring => String::from_str("Coloring"),
            Tag::Cow => String::from_str("Cow"),
            Tag::Egg => String::from_str("Egg"),
            Tag::Fish => String::from_str("Fish"),
            Tag::Garlic => String::from_str("Garlic"),
            Tag::Gluten => String::from_str("Gluten"),
            Tag::Lactose => String::from_str("Lactose"),
            Tag::Lupin => String::from_str("Lupin"),
            Tag::Mustard => String::from_str("Mustard"),
            Tag::Nuts => String::from_str("Nuts"),
            Tag::Phosphate => String::from_str("Phosphate"),
            Tag::Pig => String::from_str("Pig"),
            Tag::Poultry => String::from_str("Poultry"),
            Tag::Preservative => String::from_str("Preservative"),
            Tag::Sellery => String::from_str("Sellery"),
            Tag::Sesame => String::from_str("Sesame"),
            Tag::Soy => String::from_str("Soy"),
            Tag::Sulfite => String::from_str("Sulfite"),
            Tag::Sweetener => String::from_str("Sweetener"),
            Tag::Vegan => String::from_str("Vegan"),
            Tag::Vegetarian => String::from_str("Vegetarian"),
            Tag::Waxed => String::from_str("Waxed"),
        }
    }

    /// Every tag, in the enum's order.
    pub fn all() -> (r: Vec<Tag>)
        ensures
            r@.len() == 28,
            forall|i: int| 0 <= i < 28 ==> tag_id(r@[i]) == i,
    {
        let mut r: Vec<Tag> = Vec::new();
        let mut i: u8 = 0;
        while i < 28
            invariant
                i <= 28,
                r@.len() == i as int,
                forall|j: int| 0 <= j < i as int ==> tag_id(r@[j]) == j,
            decreases 28 - i,
        {
            r.push(tag_of_id(i));
            i = i + 1;
        }
        r
    }
}

/// Primary tags have an associated emoji and are not allergy information.
pub open spec fn spec_is_primary(t: Tag) -> bool {
    t == Tag::Cow || t == Tag::Fish || t == Tag::Pig || t == Tag::Poultry || t == Tag::Vegan || t
        == Tag::Vegetarian
}

/// The description of each tag.
pub open spec fn spec_describe(t: Tag) -> &'static str {
    match t {
        Tag::Acidifier => "Contains artificial acidifier",
        Tag::Alcohol => "Contains alcohol",
        Tag::Antioxidant => "Contains an antioxidant",
        Tag::Blackened => "Contains ingredients that have been blackened, i.e. blackened olives",
        Tag::CacaoContainingFatGlaze => "Contains a cheap oil-based glazing instead of real chocolate glazing",
        Tag::Coloring => "Contains food coloring",
        Tag::Cow => "Contains meat from cattle",
        Tag::Egg => "Contains egg",
        Tag::Fish => "Contains fish",
        Tag::FlavorEnhancer => "Contains artificial flavor enhancer",
        Tag::Garlic => "Contains garlic",
        Tag::Gluten => "Contains gluten",
        Tag::Lactose => "Contains milk",
        Tag::Lupin => "Contains lupin",
        Tag::Mustard => "Contains mustard",
        Tag::Nuts => "Contains nuts",
        Tag::Phosphate => "Contains phosphate",
        Tag::Pig => "Contains meat from pig",
        Tag::Poultry => "Contains poultry meat",
        Tag::Preservative => "Contains artificial preservatives",
        Tag::Sellery => "Contains sellery",
        Tag::Sesame => "Contains sesame",
        Tag::Soy => "Contains soy",
        Tag::Sulfite => "Contains sulfite",
        Tag::Sweetener => "Contains artificial sweetener",
        Tag::Vegan => "Does not contain any animal produce",
        Tag::Vegetarian => "Does not contain any meat",
        Tag::Waxed => "Some ingredients have been waxed",
    }
}

/// The identifier of each tag: a word or an emoji for the primary tags, the
/// tag's number otherwise.
pub open spec fn spec_as_id(t: Tag, plain: bool) -> &'static str {
    match t {
        Tag::Vegan => if plain {
            "Vegan"
        } else {
            "🌱"
        },
        Tag::Vegetarian => if plain {
            "Vegetarian"
        } else {
            "🧀"
        },
        Tag::Pig => if plain {
            "Pig"
        } else {
            "🐖"
        },
        Tag::Fish => if plain {
            "Fish"
        } else {
            "🐟"
        },
        Tag::Cow => if plain {
            "Cow"
        } else {
            "🐄"
        },
        Tag::Poultry => if plain {
            "Poultry"
        } else {
            "🐓"
        },
        Tag::Acidifier => "0",
        Tag::Alcohol => "1",
        Tag::Antioxidant => "2",
        Tag::Blackened => "3",
        Tag::CacaoContainingFatGlaze => "4",
        Tag::Coloring => "5",
        Tag::Egg => "7",
        Tag::FlavorEnhancer => "9",
        Tag::Garlic => "10",
        Tag::Gluten => "11",
        Tag::Lactose => "12",
        Tag::Lupin => "13",
        Tag::Mustard => "14",
        Tag::Nuts => "15",
        Tag::Phosphate => "16",
        Tag::Preservative => "19",
        Tag::Sellery => "20",
        Tag::Sesame => "21",
        Tag::Soy => "22",
        Tag::Sulfite => "23",
        Tag::Sweetener => "24",
        Tag::Waxed => "27",
    }
}

/// The emoji identifier of each tag.
pub open spec fn spec_as_emoji(t: Tag) -> &'static str {
    spec_as_id(t, false)
}

/// The display name of each tag.
pub open spec fn spec_name(t: Tag) -> &'static str {
    match t {
        Tag::CacaoContainingFatGlaze => "Cacao Containing Fat Glaze",
        Tag::FlavorEnhancer => "Flavor Enhancer",
        Tag::Acidifier => "Acidifier",
        Tag::Alcohol => "Alcohol",
        Tag::Antioxidant => "Antioxidant",
        Tag::Blackened => "Blackened",
        Tag::Coloring => "Coloring",
        Tag::Cow => "Cow",
        Tag::Egg => "Egg",
        Tag::Fish => "Fish",
        Tag::Garlic => "Garlic",
        Tag::Gluten => "Gluten",
        Tag::Lactose => "Lactose",
        Tag::Lupin => "Lupin",
        Tag::Mustard => "Mustard",
        Tag::Nuts => "Nuts",
        Tag::Phosphate => "Phosphate",
        Tag::Pig => "Pig",
        Tag::Poultry => "Poultry",
        Tag::Preservative => "Preservative",
        Tag::Sellery => "Sellery",
        Tag::Sesame => "Sesame",
        Tag::Soy => "Soy",
        Tag::Sulfite => "Sulfite",
        Tag::Sweetener => "Sweetener",
        Tag::Vegan => "Vegan",
        Tag::Vegetarian => "Vegetarian",
        Tag::Waxed => "Waxed",
    }
}

/// An allergen derived from the free-text notes of a meal, in the older, purely
/// allergen-centric classification.
#[derive(Debug, Clone, Copy, Hash, PartialEq, Eq, PartialOrd, Ord, Structural)]
pub enum Allergene {
    Alcohol,
    Antioxidant,
    Blackened,
    Coloring,
    Egg,
    FlavorEnhancer,
    Garlic,
    Gluten,
    Milk,
    Mustard,
    Nuts,
    Phosphate,
    Preservative,
    Sellery,
    Sesame,
    Soy,
    Sulfite,
    Sweetener,
}

/// The position of an allergen in the enum's order.
pub open spec fn allergene_id(a: Allergene) -> int {
    match a {
        Allergene::Alcohol => 0,
        Allergene::Antioxidant => 1,
        Allergene::Blackened => 2,
        Allergene::Coloring => 3,
        Allergene::Egg => 4,
        Allergene::FlavorEnhancer => 5,
        Allergene::Garlic => 6,
        Allergene::Gluten => 7,
        Allergene::Milk => 8,
        Allergene::Mustard => 9,
        Allergene::Nuts => 10,
        Allergene::Phosphate => 11,
        Allergene::Preservative => 12,
        Allergene::Sellery => 13,
        Allergene::Sesame => 14,
        Allergene::Soy => 15,
        Allergene::Sulfite => 16,
        Allergene::Sweetener => 17,
    }
}

/// Every allergen's position lies in the enum's range.
proof fn lemma_allergene_id_range(a: Allergene)
    ensures
        0 <= allergene_id(a) < 18,
{
}

/// The allergen at position `i` of the enum's order.
fn allergene_of_id(i: u8) -> (a: Allergene)
    requires
        i < 18,
    ensures
        allergene_id(a) == i as int,
{
    match i {
        0 => Allergene::Alcohol,
        1 => Allergene::Antioxidant,
        2 => Allergene::Blackened,
        3 => Allergene::Coloring,
        4 => Allergene::Egg,
        5 => Allergene::FlavorEnhancer,
        6 => Allergene::Garlic,
        7 => Allergene::Gluten,
        8 => Allergene::Milk,
        9 => Allergene::Mustard,
        10 => Allergene::Nuts,
        11 => Allergene::Phosphate,
        12 => Allergene::Preservative,
        13 => Allergene::Sellery,
        14 => Allergene::Sesame,
        15 => Allergene::Soy,
        16 => Allergene::Sulfite,
        17 => Allergene::Sweetener,
        _ => unreached(),
    }
}

/// Does the case-folded note `f` carry the allergen `a`?
pub open spec fn allergene_matches(a: Allergene, f: Seq<char>) -> bool {
    match a {
        Allergene::Alcohol => contains_seq(f, "alkohol"@),
        Allergene::Antioxidant => contains_seq(f, "antioxidation"@),
        Allergene::Blackened => contains_seq(f, "geschwärzt"@),
        Allergene::Coloring => contains_seq(f, "farbstoff"@),
        Allergene::Egg => contains_seq(f, "eier"@),
        Allergene::FlavorEnhancer => contains_seq(f, "geschmacksverstärker"@),
        Allergene::Garlic => contains_seq(f, "knoblauch"@),
        Allergene::Gluten => contains_seq(f, "gluten"@),
        Allergene::Milk => contains_seq(f, "milch"@),
        Allergene::Mustard => contains_seq(f, "senf"@),
        Allergene::Nuts => contains_seq(f, "schalenfrüchte"@) || contains_seq(f, "nüsse"@),
        Allergene::Phosphate => contains_seq(f, "phosphat"@),
        Allergene::Preservative => contains_seq(f, "konservierung"@),
        Allergene::Sellery => contains_seq(f, "sellerie"@),
        Allergene::Sesame => contains_seq(f, "sesam"@),
        Allergene::Soy => contains_seq(f, "soja"@),
        Allergene::Sulfite => contains_seq(f, "sulfit"@) || contains_seq(f, "schwefel"@),
        Allergene::Sweetener => contains_seq(f, "süßungsmittel"@),
    }
}

/// Executable [`allergene_matches`] over a pre-folded note.
fn allergene_matches_folded(a: Allergene, hay: &Vec<char>) -> (r: bool)
    ensures
        r == allergene_matches(a, hay@),
{
    match a {
        Allergene::Alcohol => contains_lit(hay, "alkohol"),
        Allergene::Antioxidant => contains_lit(hay, "antioxidation"),
        Allergene::Blackened => contains_lit(hay, "geschwärzt"),
        Allergene::Coloring => contains_lit(hay, "farbstoff"),
        Allergene::Egg => contains_lit(hay, "eier"),
        Allergene::FlavorEnhancer => contains_lit(hay, "geschmacksverstärker"),
        Allergene::Garlic => contains_lit(hay, "knoblauch"),
        Allergene::Gluten => contains_lit(hay, "gluten"),
        Allergene::Milk => contains_lit(hay, "milch"),
        Allergene::Mustard => contains_lit(hay, "senf"),
        Allergene::Nuts => contains_lit(hay, "schalenfrüchte") || contains_lit(hay, "nüsse"),
        Allergene::Phosphate => contains_lit(hay, "phosphat"),
        Allergene::Preservative => contains_lit(hay, "konservierung"),
        Allergene::Sellery => contains_lit(hay, "sellerie"),
        Allergene::Sesame => contains_lit(hay, "sesam"),
        Allergene::Soy => contains_lit(hay, "soja"),
        Allergene::Sulfite => contains_lit(hay, "sulfit") || contains_lit(hay, "schwefel"),
        Allergene::Sweetener => contains_lit(hay, "süßungsmittel"),
    }
}

impl Allergene {
    /// Try deriving allergens from the `raw` note.
    ///
    /// The result holds exactly the allergens whose patterns match the
    /// case-folded note, in the enum's order.
    pub fn from_str(raw: &str) -> (r: Vec<Allergene>)
        ensures
            forall|a: Allergene| r@.contains(a) <==> allergene_matches(a, folded(raw@)),
            forall|i: int, j: int|
                0 <= i < j < r@.len() ==> allergene_id(r@[i]) < allergene_id(r@[j]),
    {
        let hay = folded_chars(raw);
        let mut r: Vec<Allergene> = Vec::new();
        let mut i: u8 = 0;
        while i < 18
            invariant
                i <= 18,
                hay@ == folded(raw@),
                forall|a: Allergene| r@.contains(a) ==> allergene_matches(a, hay@),
                forall|a: Allergene| #[trigger] r@.contains(a) ==> allergene_id(a) < i as int,
                forall|a: Allergene|
                    allergene_id(a) < i as int && #[trigger] allergene_matches(a, hay@)
                        ==> r@.contains(a),
                forall|x: int, y: int|
                    0 <= x < y < r@.len() ==> allergene_id(r@[x]) < allergene_id(r@[y]),
            decreases 18 - i,
        {
            let a = allergene_of_id(i);
            if allergene_matches_folded(a, &hay) {
                let ghost r0 = r@;
                r.push(a);
                proof {
                    assert forall|x: Allergene| r@.contains(x) implies r0.contains(x) || x == a by {
                        let k = choose|k: int| 0 <= k < r@.len() && r@[k] == x;
                        if k < r0.len() {
                            assert(r0[k] == x);
                        }
                    }
                    assert(r@.contains(a)) by {
                        assert(r@[r@.len() - 1] == a);
                    }
                    assert forall|x: Allergene| r0.contains(x) implies r@.contains(x) by {
                        let k = choose|k: int| 0 <= k < r0.len() && r0[k] == x;
                        assert(r@[k] == x);
                    }
                    assert forall|x: Allergene| #[trigger] r@.contains(x) implies allergene_id(x)
                        < i as int + 1 by {
                        if x != a {
                            assert(r0.contains(x));
                        }
                    }
                    assert forall|x: int, y: int| 0 <= x < y < r@.len() implies allergene_id(r@[x])
                        < allergene_id(r@[y]) by {
                        if y == r@.len() - 1 {
                            assert(r0.contains(r0[x]));
                            assert(r@[x] == r0[x]);
                            assert(r@[y] == a);
                        } else {
                            assert(r@[x] == r0[x] && r@[y] == r0[y]);
                        }
                    }
                }
            }
            i = i + 1;
        }
        proof {
            assert forall|a: Allergene| allergene_matches(a, hay@) implies r@.contains(a) by {
                lemma_allergene_id_range(a);
            }
        }
        r
    }
}

} // verus!
