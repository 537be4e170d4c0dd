use powers_dict::config::{AssetsConfig, PowersConfig};
use powers_dict::keyed::Keyed;
use powers_dict::load::{resolve_references, PowerTables};
use powers_dict::namekey::NameKey;
use powers_dict::output_sets::{decimal_string, DisplayInfo, PowerOutput, PowerSetOutput};
use powers_dict::pending::{can_merge, count_pending};
use powers_dict::enums::ShowPowerSetting;
use powers_dict::structs::{
    AttribModParam, AttribModParam_EntCreate, AttribModParam_Phase, AttribModParam_Power,
    AttribModTemplate, AttribNames, BasePower, BasePowerSet, EffectGroup, PowerCategory,
};

fn key(s: &str) -> NameKey {
    NameKey::new(s)
}

fn config() -> PowersConfig {
    let mut c = PowersConfig::new();
    c.extract_date = Some("2021-03-04T05:06:07+00:00".to_string());
    c
}

fn output(name: &str, icon: Option<&str>) -> PowerOutput {
    PowerOutput {
        name: Some(key(name)),
        icon: icon.map(|i| i.to_string()),
        available_at_level: 0,
        display_info: vec![DisplayInfo { label: "Type".to_string(), text: "Click".to_string() }],
    }
}

fn set() -> BasePowerSet {
    let mut s = BasePowerSet::new();
    s.pch_full_name = Some(key("Blaster_Ranged.Fire_Blast"));
    s.pch_display_name = Some("Fire Blast".to_string());
    s.pch_icon_name = Some("fire_blast_set.tga".to_string());
    s.e_show_in_inventory = ShowPowerSetting::kShowPowerSetting_IfUsable;
    s.b_show_in_manage = true;
    for (name, level) in [("Flares", 0), ("Fire_Blast", 0), ("Fire_Ball", 1), ("Inferno", 31), ("Blaze", 17), ("Aim", 5)] {
        s.pp_power_names.push(key(&format!("Blaster_Ranged.Fire_Blast.{}", name)));
        s.pi_available.push(level);
    }
    s
}

#[test]
fn decimal_strings_are_exact() {
    assert_eq!(decimal_string(0), "0");
    assert_eq!(decimal_string(7), "7");
    assert_eq!(decimal_string(10), "10");
    assert_eq!(decimal_string(1234567890), "1234567890");
    assert_eq!(decimal_string(-1), "-1");
    assert_eq!(decimal_string(-305), "-305");
    assert_eq!(decimal_string(i32::MAX), "2147483647");
    assert_eq!(decimal_string(i32::MIN), "-2147483648");
}

#[test]
fn power_set_output_orders_powers_by_level() {
    let powers = vec![
        output("Blaster_Ranged.Fire_Blast.Inferno", Some("inferno.png")),
        output("blaster_ranged.fire_blast.flares", Some("flares.png")),
        output("Blaster_Ranged.Fire_Blast.Unlisted", None),
        output("Blaster_Ranged.Fire_Blast.Aim", None),
        output("Blaster_Ranged.Fire_Blast.Fire_Blast", None),
    ];
    let out = PowerSetOutput::from_base_power_set(&set(), powers, &config());
    let levels: Vec<(String, i32)> = out
        .powers
        .iter()
        .map(|p| (p.name.as_ref().unwrap().to_string(), p.available_at_level))
        .collect();
    assert_eq!(
        levels,
        vec![
            // what has no level in the set keeps the level that it came with
            ("Blaster_Ranged.Fire_Blast.Unlisted".to_string(), 0),
            // of one level: in the order in which they came
            ("blaster_ranged.fire_blast.flares".to_string(), 1),
            ("Blaster_Ranged.Fire_Blast.Fire_Blast".to_string(), 1),
            ("Blaster_Ranged.Fire_Blast.Aim".to_string(), 6),
            ("Blaster_Ranged.Fire_Blast.Inferno".to_string(), 32),
        ]
    );
    let info: Vec<(&str, &str)> = out.powers[4]
        .display_info
        .iter()
        .map(|d| (d.label.as_str(), d.text.as_str()))
        .collect();
    assert_eq!(info, vec![("Type", "Click"), ("Available Level", "32")]);
    let ordered: Vec<String> = out.ordered_power_names.iter().map(|k| k.to_string()).collect();
    assert_eq!(
        ordered,
        vec![
            "Blaster_Ranged.Fire_Blast.Flares",
            "Blaster_Ranged.Fire_Blast.Fire_Blast",
            "Blaster_Ranged.Fire_Blast.Inferno",
            "Blaster_Ranged.Fire_Blast.Aim"
        ]
    );
    assert_eq!(out.name.unwrap().to_string(), "Blaster_Ranged.Fire_Blast");
    assert_eq!(out.display_name.as_deref(), Some("Fire Blast"));
    assert_eq!(out.display_help, None);
    assert_eq!(out.show_in_inventory.as_deref(), Some("IfUsable"));
    assert!(out.show_in_power_management && !out.show_in_power_info);
    // without assets the set names its own icon
    assert_eq!(out.icon.as_deref(), Some("fire_blast_set.tga"));
    assert_eq!(out.specialize_at_level, None);
    assert_eq!(out.specialize_requires, None);
    assert_eq!(out.set_buy_requires, None);
    assert_eq!(out.display_set_buy_requires_failed, None);
}

#[test]
fn power_set_output_replaces_a_level_that_is_displayed() {
    let mut p = output("Blaster_Ranged.Fire_Blast.Blaze", None);
    p.available_at_level = 3;
    p.display_info.insert(0, DisplayInfo { label: "Available Level".to_string(), text: "?".to_string() });
    p.display_info.push(DisplayInfo { label: "Available Level".to_string(), text: "kept".to_string() });
    let out = PowerSetOutput::from_base_power_set(&set(), vec![p], &config());
    let info: Vec<(&str, &str)> = out.powers[0]
        .display_info
        .iter()
        .map(|d| (d.label.as_str(), d.text.as_str()))
        .collect();
    assert_eq!(info, vec![("Available Level", "18"), ("Type", "Click"), ("Available Level", "kept")]);
}

#[test]
fn power_set_output_takes_the_icon_of_its_first_power() {
    let mut served = config();
    served.assets = Some(AssetsConfig {
        base_asset_url: String::new(),
        ext: String::new(),
        archetype_icon_format: String::new(),
        powers_icon_format: String::new(),
    });
    let powers = vec![
        output("Blaster_Ranged.Fire_Blast.Aim", Some("aim.png")),
        output("Blaster_Ranged.Fire_Blast.Flares", Some("flares.png")),
    ];
    let out = PowerSetOutput::from_base_power_set(&set(), powers, &served);
    assert_eq!(out.icon.as_deref(), Some("flares.png"));
    // the first power of the set is not put out
    let out = PowerSetOutput::from_base_power_set(&set(), vec![output("Blaster_Ranged.Fire_Blast.Aim", Some("aim.png"))], &served);
    assert_eq!(out.icon, None);
    let mut without = set();
    without.pch_icon_name = None;
    let out = PowerSetOutput::from_base_power_set(&without, vec![output("Blaster_Ranged.Fire_Blast.Flares", Some("flares.png"))], &served);
    assert_eq!(out.icon, None);
}

#[test]
fn power_set_output_shows_its_requirements() {
    let mut s = set();
    s.i_specialize_at = 24;
    s.pp_specialize_requires = vec!["x".to_string(), "1".to_string(), ">".to_string()];
    s.ppch_set_buy_requires = vec!["Fire".to_string(), "source.owns?".to_string(), "!".to_string()];
    s.pch_set_buy_requires_failed_text = Some("Not yet".to_string());
    let out = PowerSetOutput::from_base_power_set(&s, vec![], &config());
    assert_eq!(out.specialize_at_level, Some(25));
    assert_eq!(out.specialize_requires.as_deref(), Some("x > 1"));
    assert_eq!(out.set_buy_requires.as_deref(), Some("!source.owns?(Fire)"));
    assert_eq!(out.display_set_buy_requires_failed.as_deref(), Some("Not yet"));
    assert!(out.powers.is_empty() && out.ordered_power_names.is_empty());
    s.ppch_set_buy_requires.clear();
    let out = PowerSetOutput::from_base_power_set(&s, vec![], &config());
    assert_eq!(out.display_set_buy_requires_failed, None);
}

fn with_params(name: &str, params: Vec<Option<AttribModParam>>) -> BasePower {
    let mut p = BasePower::new();
    p.pch_full_name = Some(key(name));
    let mut group = EffectGroup::new();
    for param in params {
        let mut t = AttribModTemplate::new();
        t.p_params = param;
        group.pp_templates.push(t);
    }
    p.pp_effects.push(EffectGroup::new());
    p.pp_effects.push(group);
    p
}

#[test]
fn pending_counts_open_latches() {
    let cats: Keyed<PowerCategory> = Keyed::new();
    let sets: Keyed<BasePowerSet> = Keyed::new();
    let mut powers: Keyed<BasePower> = Keyed::new();
    assert_eq!(count_pending(&cats, &sets, &powers), Some(0));
    let mut resolved = AttribModParam_Power::new();
    resolved.resolved = true;
    powers.insert(
        key("A.B.One"),
        with_params(
            "A.B.One",
            vec![
                Some(AttribModParam::EntCreate(AttribModParam_EntCreate::new())),
                None,
                Some(AttribModParam::Phase(AttribModParam_Phase::new())),
                Some(AttribModParam::Power(AttribModParam_Power::new())),
                Some(AttribModParam::Power(resolved)),
            ],
        ),
    );
    let mut done = with_params("A.B.Two", vec![Some(AttribModParam::EntCreate(AttribModParam_EntCreate::new()))]);
    done.redirects_resolved = true;
    powers.insert(key("A.B.Two"), done);
    // two parameters and a redirect list of the first, one parameter of the second
    assert_eq!(count_pending(&cats, &sets, &powers), Some(4));
    powers.value_mut(0).include_in_output = true;
    powers.value_mut(1).include_in_output = true;
    let mut cats = cats;
    let mut sets = sets;
    let followed = resolve_references(&Keyed::new(), &Keyed::new(), &mut cats, &mut sets, &mut powers);
    assert_eq!(followed, 4);
    assert_eq!(count_pending(&cats, &sets, &powers), Some(0));
    let tables = PowerTables {
        attrib_names: AttribNames::new(),
        archetypes: Keyed::new(),
        boost_sets: Keyed::new(),
        villain_archetypes: Keyed::new(),
        villains: Keyed::new(),
        power_categories: cats,
        power_sets: sets,
        powers,
    };
    assert!(can_merge(&tables));
}
