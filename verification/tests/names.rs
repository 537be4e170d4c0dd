use powers_dict::keyed::Keyed;
use powers_dict::namekey::{fold_char_exec, NameKey};
use powers_dict::text::{chars_of, push_chars, push_str, string_of};

fn key(s: &str) -> NameKey {
    NameKey::new(s)
}

fn texts(keys: &[NameKey]) -> Vec<String> {
    keys.iter().map(|k| k.to_string()).collect()
}

#[test]
fn name_key_keeps_its_text() {
    assert_eq!(key("Pets.Wolf_Powers.Bite").to_string(), "Pets.Wolf_Powers.Bite");
    assert_eq!(key("").to_string(), "");
    assert_eq!(key("Pets").len(), 4);
    assert_eq!(key("Grüße").len(), 5);
    assert_eq!(key("Grüße").to_string(), "Grüße");
    assert_eq!(NameKey::from_chars(vec!['a', '.', 'b']).to_string(), "a.b");
    assert_eq!(key("ab").chars(), &vec!['a', 'b']);
    assert_eq!(key("Pets").clone().to_string(), "Pets");
}

#[test]
fn strings_and_characters_convert_both_ways() {
    assert_eq!(chars_of("a.B"), vec!['a', '.', 'B']);
    assert_eq!(string_of(&vec!['x', 'ß', 'z']), "xßz");
    assert_eq!(string_of(&vec![]), "");
    let mut text = vec!['a'];
    push_chars(&mut text, &vec!['b', 'c']);
    push_str(&mut text, "dé");
    push_str(&mut text, "");
    assert_eq!(string_of(&text), "abcdé");
}

#[test]
fn case_folds_only_ascii_letters() {
    assert_eq!(fold_char_exec('A'), 'a');
    assert_eq!(fold_char_exec('Z'), 'z');
    assert_eq!(fold_char_exec('m'), 'm');
    assert_eq!(fold_char_exec('@'), '@');
    assert_eq!(fold_char_exec('['), '[');
    assert_eq!(fold_char_exec('_'), '_');
    assert_eq!(fold_char_exec('Ä'), 'Ä');
}

#[test]
fn keys_compare_without_case() {
    assert!(key("Pets.Wolf").eq_key(&key("pets.WOLF")));
    assert!(key("").eq_key(&key("")));
    assert!(!key("Pets.Wolf").eq_key(&key("Pets.Wolves")));
    assert!(!key("Pets.Wolf").eq_key(&key("Pets_Wolf")));
    assert!(!key("Pets").eq_key(&key("Pet")));
    assert!(!key("Ärger").eq_key(&key("ärger")));
}

#[test]
fn split_keeps_every_segment() {
    assert_eq!(texts(&key("Cat.Set.Power").split()), vec!["Cat", "Set", "Power"]);
    assert_eq!(texts(&key("Cat").split()), vec!["Cat"]);
    assert_eq!(texts(&key("").split()), vec![""]);
    assert_eq!(texts(&key("a..b.").split()), vec!["a", "", "b", ""]);
    assert_eq!(texts(&key(".").split()), vec!["", ""]);
    assert_eq!(texts(&key("a.b.c.d").split()), vec!["a", "b", "c", "d"]);
}

#[test]
fn join_and_prefix_build_names() {
    assert_eq!(key("Cat").join(&key("Set")).to_string(), "Cat.Set");
    assert_eq!(key("Cat").join(&key("Set")).join(&key("Power")).to_string(), "Cat.Set.Power");
    assert_eq!(key("").join(&key("")).to_string(), ".");
    assert_eq!(key("Class_Minion").prefixed('@').to_string(), "@Class_Minion");
}

#[test]
fn wildcard_is_exactly_one_star() {
    assert!(key("*").is_wildcard());
    assert!(!key("**").is_wildcard());
    assert!(!key("").is_wildcard());
    assert!(!key("a").is_wildcard());
    assert!(!key("*.x").is_wildcard());
}

#[test]
fn partial_match_takes_leading_segments() {
    let name = key("Pets.Wolf_Powers.Bite");
    assert!(name.partial_match(&key("Pets")));
    assert!(name.partial_match(&key("pets.wolf_powers")));
    assert!(name.partial_match(&key("Pets.Wolf_Powers.Bite")));
    assert!(name.partial_match(&key("*.Wolf_Powers")));
    assert!(name.partial_match(&key("Pets.*.bite")));
    assert!(name.partial_match(&key("*")));
    assert!(!name.partial_match(&key("Pet")));
    assert!(!name.partial_match(&key("Wolf_Powers")));
    assert!(!name.partial_match(&key("Pets.Wolf_Powers.Bite.More")));
    assert!(!name.partial_match(&key("Pets.*.Claw")));
    assert!(!name.partial_match(&key("")));
    assert!(key("").partial_match(&key("")));
}

#[test]
fn table_finds_records_without_case() {
    let mut t: Keyed<u32> = Keyed::new();
    assert_eq!(t.len(), 0);
    assert_eq!(t.find(&key("a")), None);
    assert!(t.get(&key("a")).is_none());
    t.insert(key("Alpha"), 1);
    t.insert(key("Beta"), 2);
    t.insert(key("Gamma"), 3);
    assert_eq!(t.len(), 3);
    assert_eq!(t.find(&key("alpha")), Some(0));
    assert_eq!(t.find(&key("GAMMA")), Some(2));
    assert_eq!(t.find(&key("Delta")), None);
    assert_eq!(t.get(&key("beta")), Some(&2));
    assert_eq!(t.get(&key("Bet")), None);
    assert_eq!(*t.value(1), 2);
    assert_eq!(t.key(1).to_string(), "Beta");
    assert_eq!(t.values(), &vec![1, 2, 3]);
}

#[test]
fn insert_under_a_known_key_replaces_in_place() {
    let mut t: Keyed<u32> = Keyed::new();
    t.insert(key("Alpha"), 1);
    t.insert(key("Beta"), 2);
    t.insert(key("ALPHA"), 10);
    assert_eq!(t.len(), 2);
    assert_eq!(t.values(), &vec![10, 2]);
    // the key stays as it was first written
    assert_eq!(t.key(0).to_string(), "Alpha");
    assert_eq!(t.find(&key("alpha")), Some(0));
}

#[test]
fn records_change_in_place() {
    let mut t: Keyed<u32> = Keyed::new();
    t.insert(key("a"), 1);
    t.insert(key("b"), 2);
    *t.value_mut(1) = 20;
    assert_eq!(t.values(), &vec![1, 20]);
    for v in t.values_mut() {
        *v += 1;
    }
    assert_eq!(t.values(), &vec![2, 21]);
    assert_eq!(t.find(&key("b")), Some(1));
}

#[test]
fn remove_at_moves_the_rest_up() {
    let mut t: Keyed<u32> = Keyed::new();
    t.insert(key("a"), 1);
    t.insert(key("b"), 2);
    t.insert(key("c"), 3);
    assert_eq!(t.remove_at(1), 2);
    assert_eq!(t.len(), 2);
    assert_eq!(t.find(&key("c")), Some(1));
    assert_eq!(t.find(&key("b")), None);
    assert_eq!(t.values(), &vec![1, 3]);
}
