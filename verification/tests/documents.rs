use powers_dict::config::{AssetsConfig, PowersConfig};
use powers_dict::icons::{
    format_at_icon_to_asset, format_power_icon_to_asset, icon_file_name, icon_url,
    make_icon_name_and_digest, replace_all,
};
use powers_dict::keyed::Keyed;
use powers_dict::load::PowersDictionary;
use powers_dict::namekey::NameKey;
use powers_dict::output::{
    archetype_of, is_zero, make_document_url, make_file_name, ArchetypeOutput, ArchetypesOutput,
    ExtendedArchetypeOutput, HeaderOutput, PowerCategoryOutput, RootOutput,
};
use powers_dict::requirements::{requires_to_string, requires_to_string_inner};
use powers_dict::structs::{
    Archetype, ArchetypeRef, AttribNames, BasePowerSet, PowerCategory, PrimarySecondary,
};

fn key(s: &str) -> NameKey {
    NameKey::new(s)
}

fn chars(s: &str) -> Vec<char> {
    s.chars().collect()
}

fn assets() -> AssetsConfig {
    AssetsConfig {
        base_asset_url: "https://assets.example/".to_string(),
        ext: ".png".to_string(),
        archetype_icon_format: "archetypes/{md5}/{icon}".to_string(),
        powers_icon_format: "powers/{md5}/{md5}-{icon}?{icon}".to_string(),
    }
}

fn config() -> PowersConfig {
    let mut c = PowersConfig::new();
    c.issue = "i27".to_string();
    c.source = "live".to_string();
    c.extract_date = Some("2021-03-04T05:06:07+00:00".to_string());
    c
}

fn tokens(list: &[&str]) -> Vec<String> {
    list.iter().map(|s| s.to_string()).collect()
}

fn line(list: &[&str]) -> Option<String> {
    requires_to_string(&tokens(list))
}

#[test]
fn replace_all_replaces_from_the_left() {
    let r = |text: &str, pattern: &str, with: &str| -> String {
        replace_all(&chars(text), &chars(pattern), &chars(with)).into_iter().collect()
    };
    assert_eq!(r("a{x}b{x}", "{x}", "12"), "a12b12");
    assert_eq!(r("aaa", "aa", "b"), "ba");
    assert_eq!(r("abc", "abcd", "x"), "abc");
    assert_eq!(r("", "a", "x"), "");
    assert_eq!(r("abab", "ab", ""), "");
    assert_eq!(r("xay", "a", "aa"), "xaay");
    assert_eq!(r("{md5", "{md5}", "00"), "{md5");
    assert_eq!(r("abc", "", "x"), "abc");
}

#[test]
fn icon_file_names_are_lower_case_with_extension() {
    assert_eq!(icon_file_name("Jetpack.tga", ".png"), "jetpack.png");
    assert_eq!(icon_file_name("Jetpack", ".png"), "jetpack.png");
    assert_eq!(icon_file_name("Class_Icon.old.tga", ".png"), "class_icon.png");
    assert_eq!(icon_file_name(".hidden", ".png"), ".png");
    assert_eq!(icon_file_name("", ""), "");
    // lower case is that of all letters, and may be longer
    assert_eq!(icon_file_name("STRASSE_ÄÖ.tga", ".png"), "strasse_äö.png");
    assert_eq!(icon_file_name("İ.tga", ".x"), "i\u{307}.x");
}

#[test]
fn icon_digest_is_the_md5_of_the_file_name() {
    let (name, digest) = make_icon_name_and_digest("Jetpack.tga", ".png");
    assert_eq!(name, "jetpack.png");
    assert_eq!(
        digest,
        [
            0x45, 0x0d, 0xe9, 0xd3, 0xe3, 0xcf, 0xae, 0x75, 0x22, 0x4b, 0x69, 0x3e, 0x98, 0xd2,
            0x7f, 0x1f
        ]
    );
    let (name, digest) = make_icon_name_and_digest("Straße.tga", ".png");
    assert_eq!(name, "straße.png");
    assert_eq!(digest[0], 0xe7);
    assert_eq!(digest[15], 0x78);
}

#[test]
fn icon_url_fills_the_format() {
    let mut digest = [0u8; 16];
    digest[0] = 0x0a;
    digest[1] = 0xff;
    assert_eq!(icon_url("base/", "{md5}/{icon}", "a.png", &digest), "base/0a/a.png");
    digest[0] = 0xf0;
    assert_eq!(icon_url("", "{icon}{icon}-{md5}", "a", &digest), "aa-f0");
    digest[0] = 0x9b;
    assert_eq!(icon_url("b", "plain", "a", &digest), "bplain");
    // a name that holds the mark of the digest is not filled again
    assert_eq!(icon_url("", "{icon}", "{md5}", &digest), "{md5}");
}

#[test]
fn icons_are_formatted_to_assets() {
    assert_eq!(
        format_at_icon_to_asset("Class_Icon.tga", &assets()),
        "https://assets.example/archetypes/2e/class_icon.png"
    );
    assert_eq!(
        format_power_icon_to_asset("Jetpack.tga", &assets()),
        "https://assets.example/powers/45/45-jetpack.png?jetpack.png"
    );
}

#[test]
fn requirement_of_one_always_holds() {
    assert_eq!(line(&["1"]), None);
    assert_eq!(line(&[]), None);
    assert_eq!(line(&["1", "1"]).as_deref(), Some("1"));
    assert_eq!(line(&["0"]).as_deref(), Some("0"));
}

#[test]
fn requirement_operators_stand_between_operands() {
    assert_eq!(line(&["a", "b", "=="]).as_deref(), Some("a == b"));
    assert_eq!(line(&["a", "b", "eq"]).as_deref(), Some("a == b"));
    assert_eq!(line(&["a", "b", "||", "c", "&&"]).as_deref(), Some("(a || b) && c"));
    assert_eq!(line(&["a", "b", "c", "+", "*"]).as_deref(), Some("a * (b + c)"));
    assert_eq!(line(&["a", "b", "<=", "!"]).as_deref(), Some("!(a <= b)"));
    assert_eq!(line(&["a", "!"]).as_deref(), Some("!a"));
    assert_eq!(line(&["x", "1", ">", "y", "2", "<", "&&"]).as_deref(), Some("(x > 1) && (y < 2)"));
    for op in ["/", "-", ">="] {
        assert_eq!(line(&["a", "b", op]), Some(format!("a {} b", op)));
    }
}

#[test]
fn requirement_functions_take_their_arguments() {
    assert_eq!(line(&["rand"]).as_deref(), Some("rand()"));
    assert_eq!(line(&["drop"]).as_deref(), Some("drop()"));
    assert_eq!(line(&["a", "dup"]).as_deref(), Some("dup()"));
    assert_eq!(line(&["a", "negate"]).as_deref(), Some("negate(a)"));
    assert_eq!(line(&["v", "lo", "hi", "minmax"]).as_deref(), Some("minmax(v, lo, hi)"));
    assert_eq!(line(&["v", "1", "+", "lo", "hi", "minmax"]).as_deref(), Some("minmax((v + 1), lo, hi)"));
    assert_eq!(line(&["Fire", "source.owns?"]).as_deref(), Some("source.owns?(Fire)"));
    assert_eq!(line(&["Fire", "arch", "source.isPlayer?"]).as_deref(), Some("source.isPlayer?()"));
    assert_eq!(line(&["x", "isPvP?"]).as_deref(), Some("isPvP?()"));
    assert_eq!(line(&["x", "target.IsHero?"]).as_deref(), Some("target.IsHero?()"));
    assert_eq!(line(&["x", "IsHero?"]).as_deref(), Some("IsHero?()"));
    assert_eq!(line(&["x", "thisIs?"]).as_deref(), Some("thisIs?(x)"));
    assert_eq!(line(&["owns?"]).as_deref(), Some("owns?()"));
}

#[test]
fn requirement_references_join_the_token_before() {
    assert_eq!(line(&["kHeld", "source>"]).as_deref(), Some("source>kHeld"));
    assert_eq!(line(&["source>"]).as_deref(), Some("source>"));
    assert_eq!(line(&["x", "source.MapTeamArea>"]).as_deref(), Some("source.MapTeamArea"));
    assert_eq!(line(&["x", "source.VillainName>"]).as_deref(), Some("source.VillainName"));
    assert_eq!(line(&["kMeter", "source>", "0", ">"]).as_deref(), Some("source>kMeter > 0"));
}

#[test]
fn requirement_with_missing_operands_leaves_them_out() {
    assert_eq!(line(&["!"]).as_deref(), Some("!"));
    assert_eq!(line(&["a", "=="]).as_deref(), Some(" == a"));
    assert_eq!(line(&["=="]).as_deref(), Some(" == "));
    assert_eq!(line(&["negate"]).as_deref(), Some("negate()"));
    assert_eq!(line(&["hi", "minmax"]).as_deref(), Some("minmax(, , hi)"));
}

#[test]
fn requirement_brackets_are_taken_from_the_whole() {
    assert_eq!(line(&["(x)"]).as_deref(), Some("x"));
    assert_eq!(line(&["()"]).as_deref(), Some(""));
    assert_eq!(line(&["(x"]).as_deref(), Some("(x"));
    assert_eq!(line(&["("]).as_deref(), Some("("));
}

#[test]
fn requirement_inner_says_where_it_stopped() {
    let list: Vec<Vec<char>> = ["x", "a", "b", "+"].iter().map(|s| chars(s)).collect();
    let (text, left) = requires_to_string_inner(&list, 4);
    assert_eq!(text, Some(chars("(a + b)")));
    assert_eq!(left, 1);
    let (text, left) = requires_to_string_inner(&list, 1);
    assert_eq!(text, Some(chars("x")));
    assert_eq!(left, 0);
    assert_eq!(requires_to_string_inner(&list, 0), (None, 0));
}

#[test]
fn zero_is_zero() {
    assert!(is_zero(&0));
    assert!(!is_zero(&1));
    assert!(!is_zero(&-1));
    assert!(!is_zero(&i32::MIN));
}

#[test]
fn file_names_are_lower_case_without_blanks() {
    let name = |s: &str| -> String { make_file_name(&chars(s)).into_iter().collect() };
    assert_eq!(name("Temporary_Powers"), "temporary_powers");
    assert_eq!(name("Mastermind Summon"), "mastermind_summon");
    assert_eq!(name(""), "");
    assert_eq!(name("a b  C"), "a_b__c");
}

#[test]
fn document_urls_depend_on_the_base() {
    assert_eq!(make_document_url(&None, &chars("pool")), "pool/index.json");
    assert_eq!(
        make_document_url(&Some("https://x.example/powers/".to_string()), &chars("pool")),
        "https://x.example/powers/pool/"
    );
    assert_eq!(make_document_url(&None, &chars("")), "/index.json");
}

#[test]
fn header_is_taken_from_the_configuration() {
    let h = HeaderOutput::from_config(&config());
    assert_eq!(h.issue.as_deref(), Some("i27"));
    assert_eq!(h.source.as_deref(), Some("live"));
    assert_eq!(h.extract_date.as_deref(), Some("2021-03-04T05:06:07+00:00"));
}

fn blaster() -> Archetype {
    let mut a = Archetype::new();
    a.pch_name = Some("Class_Blaster".to_string());
    a.pch_display_name = Some("Blaster".to_string());
    a.pch_display_help = Some("Ranged damage".to_string());
    a.pch_icon = Some("Class_Icon.tga".to_string());
    a.ppch_allowed_origin_names = vec!["Science".to_string(), "Magic".to_string()];
    a.pi_level_up_respecs = vec![24, 34];
    a.pch_primary_category = Some(key("Blaster_Ranged"));
    a
}

#[test]
fn archetype_output_copies_the_archetype() {
    let e = ExtendedArchetypeOutput::from_archetype(&blaster());
    assert_eq!(e.display_help.as_deref(), Some("Ranged damage"));
    assert_eq!(e.display_short_help, None);
    assert_eq!(e.allowed_origins, vec!["Science", "Magic"]);
    assert!(e.restrictions.is_empty());
    assert_eq!(e.level_up_respecs, vec![24, 34]);
    assert_eq!(e.primary_category.unwrap().to_string(), "Blaster_Ranged");
    assert!(e.secondary_category.is_none());

    let plain = ArchetypeOutput::from_archetype(&blaster(), &PrimarySecondary::Primary, false, &config());
    assert_eq!(plain.name.as_deref(), Some("Class_Blaster"));
    assert_eq!(plain.display_name.as_deref(), Some("Blaster"));
    assert_eq!(plain.icon, None);
    assert_eq!(plain.primary_or_secondary.as_deref(), Some("Primary"));
    assert!(plain.extended.is_none());

    let mut with_assets = config();
    with_assets.assets = Some(assets());
    let full = ArchetypeOutput::from_archetype(&blaster(), &PrimarySecondary::Secondary, true, &with_assets);
    assert_eq!(full.icon.as_deref(), Some("https://assets.example/archetypes/2e/class_icon.png"));
    assert_eq!(full.primary_or_secondary.as_deref(), Some("Secondary"));
    assert!(full.extended.is_some());
    let none = ArchetypeOutput::from_archetype(&Archetype::new(), &PrimarySecondary::Neither, false, &with_assets);
    assert_eq!(none.primary_or_secondary, None);
    assert_eq!(none.icon, None);
}

fn dictionary() -> PowersDictionary {
    let mut archetypes = Keyed::new();
    archetypes.insert(key("Class_Blaster"), blaster());
    let mut scrapper = Archetype::new();
    scrapper.pch_name = Some("Class_Scrapper".to_string());
    archetypes.insert(key("Class_Scrapper"), scrapper);
    let mut villain_archetypes = Keyed::new();
    let mut pet = Archetype::new();
    pet.pch_name = Some("Class_Minion_Pets".to_string());
    villain_archetypes.insert(key("@Class_Minion_Pets"), pet);

    let mut power_sets = Keyed::new();
    for (full, included) in [("Blaster_Ranged.Fire_Blast", true), ("Blaster_Ranged.Ice Blast", false), ("Blaster_Ranged.Archery", true)] {
        let mut s = BasePowerSet::new();
        s.pch_full_name = Some(key(full));
        s.pch_name = Some(full.rsplit('.').next().unwrap().to_string());
        s.pch_display_name = Some(full.rsplit('.').next().unwrap().replace('_', " "));
        s.include_in_output = included;
        power_sets.insert(key(full), s);
    }

    let mut power_categories = Keyed::new();
    let mut shown = PowerCategory::new();
    shown.pch_name = Some(key("Blaster_Ranged"));
    shown.pch_display_name = Some("Ranged".to_string());
    shown.top_level = true;
    shown.include_in_output = true;
    shown.archetypes = vec![ArchetypeRef { villain: false, index: 0 }];
    shown.pri_sec = PrimarySecondary::Primary;
    shown.pp_power_sets = vec![2, 7, 1, 0];
    power_categories.insert(key("Blaster_Ranged"), shown);
    let mut reached = PowerCategory::new();
    reached.pch_name = Some(key("Redirects"));
    reached.include_in_output = true;
    power_categories.insert(key("Redirects"), reached);
    let mut pool = PowerCategory::new();
    pool.pch_name = Some(key("Pool Powers"));
    pool.top_level = true;
    pool.include_in_output = true;
    pool.archetypes = vec![ArchetypeRef { villain: false, index: 0 }, ArchetypeRef { villain: false, index: 1 }];
    power_categories.insert(key("Pool Powers"), pool);
    let mut pets = PowerCategory::new();
    pets.pch_name = Some(key("Pets"));
    pets.top_level = true;
    pets.include_in_output = true;
    pets.archetypes = vec![ArchetypeRef { villain: true, index: 0 }];
    power_categories.insert(key("Pets"), pets);
    let mut nameless = PowerCategory::new();
    nameless.top_level = true;
    nameless.include_in_output = true;
    power_categories.insert(key("Nameless"), nameless);

    PowersDictionary {
        power_categories,
        power_sets,
        powers: Keyed::new(),
        archetypes,
        villain_archetypes,
        villains: Keyed::new(),
        attrib_names: AttribNames::new(),
    }
}

#[test]
fn archetype_references_name_their_table() {
    let dict = dictionary();
    let name = |r: ArchetypeRef| archetype_of(&dict, r).and_then(|a| a.pch_name.clone());
    assert_eq!(name(ArchetypeRef { villain: false, index: 1 }).as_deref(), Some("Class_Scrapper"));
    assert_eq!(name(ArchetypeRef { villain: true, index: 0 }).as_deref(), Some("Class_Minion_Pets"));
    assert_eq!(name(ArchetypeRef { villain: true, index: 1 }), None);
    assert_eq!(name(ArchetypeRef { villain: false, index: 2 }), None);
}

#[test]
fn archetypes_output_lists_every_archetype_in_full() {
    let out = ArchetypesOutput::from_archetypes(&dictionary().archetypes, &config());
    assert_eq!(out.header.issue.as_deref(), Some("i27"));
    assert_eq!(out.archetypes.len(), 2);
    assert_eq!(out.archetypes[0].name.as_deref(), Some("Class_Blaster"));
    assert_eq!(out.archetypes[1].name.as_deref(), Some("Class_Scrapper"));
    assert!(out.archetypes.iter().all(|a| a.extended.is_some() && a.primary_or_secondary.is_none()));
}

#[test]
fn root_output_lists_the_top_level_categories() {
    let dict = dictionary();
    let root = RootOutput::from_power_categories(&dict, &config());
    assert_eq!(root.archetypes, "archetypes/index.json");
    let names: Vec<String> = root.power_categories.iter().map(|c| c.name.as_ref().unwrap().to_string()).collect();
    assert_eq!(names, vec!["Blaster_Ranged", "Pool Powers", "Pets"]);
    let first = &root.power_categories[0];
    assert_eq!(first.display_name.as_deref(), Some("Ranged"));
    assert_eq!(first.url, "blaster_ranged/index.json");
    let at = first.archetype.as_ref().unwrap();
    assert_eq!(at.name.as_deref(), Some("Class_Blaster"));
    assert_eq!(at.primary_or_secondary.as_deref(), Some("Primary"));
    assert!(at.extended.is_none());
    assert!(root.power_categories[1].archetype.is_none());
    assert_eq!(root.power_categories[1].url, "pool_powers/index.json");
    assert_eq!(
        root.power_categories[2].archetype.as_ref().unwrap().name.as_deref(),
        Some("Class_Minion_Pets")
    );
    let mut served = config();
    served.base_json_url = Some("https://x.example/".to_string());
    let root = RootOutput::from_power_categories(&dict, &served);
    assert_eq!(root.archetypes, "https://x.example/archetypes/");
    assert_eq!(root.power_categories[1].url, "https://x.example/pool_powers/");
}

#[test]
fn category_output_lists_its_included_sets() {
    let dict = dictionary();
    let cat = dict.power_categories.value(0);
    let out = PowerCategoryOutput::from_power_category(cat, &dict, &config());
    assert_eq!(out.name.as_ref().unwrap().to_string(), "Blaster_Ranged");
    assert_eq!(out.archetype.as_ref().unwrap().name.as_deref(), Some("Class_Blaster"));
    let names: Vec<String> = out.power_sets.iter().map(|s| s.name.as_ref().unwrap().to_string()).collect();
    assert_eq!(names, vec!["Blaster_Ranged.Archery", "Blaster_Ranged.Fire_Blast"]);
    assert_eq!(out.power_sets[0].url.as_deref(), Some("archery/index.json"));
    assert_eq!(out.power_sets[1].display_name.as_deref(), Some("Fire Blast"));
    let mut served = config();
    served.base_json_url = Some("https://x.example/".to_string());
    let out = PowerCategoryOutput::from_power_category(cat, &dict, &served);
    assert_eq!(out.power_sets[1].url.as_deref(), Some("https://x.example/blaster_ranged/fire_blast/"));
    let pool = PowerCategoryOutput::from_power_category(dict.power_categories.value(2), &dict, &served);
    assert!(pool.archetype.is_none());
    assert!(pool.power_sets.is_empty());
}
