//! The documents that are put out: what goes into each of them.

use vstd::prelude::*;
use vstd::string::*;
use vstd::utf8::encode_utf8;
use crate::config::{AssetsConfig, PowersConfig};
use crate::icons::{format_at_icon_to_asset, icon_name, icon_path, md5_digest};
use crate::keyed::Keyed;
use crate::load::PowersDictionary;
use crate::matcher::ref_in_range;
use crate::namekey::{fold_char, fold_char_exec, opt_text, NameKey};
use crate::structs::{Archetype, ArchetypeRef, BasePowerSet, PowerCategory, PrimarySecondary};
use crate::text::{chars_of, opt_str, push_chars, push_str, string_of, strings};

verus! {

/// The name of the document that a directory holds.
pub open spec fn json_file() -> Seq<char> {
    "index.json"@
}

/// The name of a file or directory for something of the given name: the
/// name with ASCII letters in lower case and blanks as underscores.
pub open spec fn file_name(name: Seq<char>) -> Seq<char> {
    Seq::new(
        name.len(),
        |i: int|
            if name[i] == ' ' {
                '_'
            } else {
                fold_char(name[i])
            },
    )
}

/// The address of the document for something whose documents are in the
/// directory `path`: below the base address where one is configured, else
/// the document in the directory itself.
pub open spec fn document_url(base: Option<Seq<char>>, path: Seq<char>) -> Seq<char> {
    match base {
        Some(b) => b + path + seq!['/'],
        None => path + seq!['/'] + json_file(),
    }
}

/// The name of a file or directory for something of the given name: see
/// [`file_name`].
pub fn make_file_name(name: &Vec<char>) -> (r: Vec<char>)
    ensures
        r@ == file_name(name@),
{
    let mut r: Vec<char> = Vec::new();
    let mut i: usize = 0;
    while i < name.len()
        invariant
            i <= name.len(),
            r@ == file_name(name@).take(i as int),
        decreases name.len() - i,
    {
        let c = name[i];
        if c == ' ' {
            r.push('_');
        } else {
            r.push(fold_char_exec(c));
        }
        assert(r@ =~= file_name(name@).take(i + 1));
        i += 1;
    }
    assert(file_name(name@).take(name.len() as int) =~= file_name(name@));
    r
}

/// The address of the document for something whose documents are in the
/// directory `path`: see [`document_url`].
pub fn make_document_url(base: &Option<String>, path: &Vec<char>) -> (url: String)
    ensures
        url@ == document_url(opt_str(*base), path@),
{
    let mut url: Vec<char> = Vec::new();
    match base {
        Some(base_url) => {
            push_str(&mut url, base_url.as_str());
        },
        None => {},
    }
    push_chars(&mut url, path);
    url.push('/');
    if base.is_none() {
        push_str(&mut url, "index.json");
    }
    proof {
        if base is Some {
            assert(url@ =~= base->0@ + path@ + seq!['/']);
        } else {
            assert(url@ =~= path@ + seq!['/'] + json_file());
        }
    }
    string_of(&url)
}

/// A copy of an optional string.
fn clone_opt(s: &Option<String>) -> (r: Option<String>)
    ensures
        opt_str(r) == opt_str(*s),
{
    match s {
        Some(s) => Some(s.clone()),
        None => None,
    }
}

/// A copy of an optional key.
fn clone_opt_key(s: &Option<NameKey>) -> (r: Option<NameKey>)
    ensures
        opt_text(r) == opt_text(*s),
{
    match s {
        Some(s) => Some(s.clone()),
        None => None,
    }
}

/// A copy of a list of strings.
fn clone_strings(list: &Vec<String>) -> (r: Vec<String>)
    ensures
        strings(r@) == strings(list@),
{
    let mut r: Vec<String> = Vec::new();
    let mut k: usize = 0;
    while k < list.len()
        invariant
            k <= list.len(),
            r@.len() == k,
            forall|j: int| 0 <= j < k ==> r@[j]@ == list@[j]@,
        decreases list.len() - k,
    {
        r.push(list[k].clone());
        k += 1;
    }
    assert(strings(r@) =~= strings(list@));
    r
}

/// A copy of a list of numbers.
fn clone_numbers(list: &Vec<i32>) -> (r: Vec<i32>)
    ensures
        r@ == list@,
{
    let mut r: Vec<i32> = Vec::new();
    let mut k: usize = 0;
    while k < list.len()
        invariant
            k <= list.len(),
            r@ == list@.take(k as int),
        decreases list.len() - k,
    {
        r.push(list[k]);
        k += 1;
    }
    assert(list@.take(list.len() as int) =~= list@);
    r
}

/// Common fields added to other documents.
#[derive(Debug)]
pub struct HeaderOutput {
    pub issue: Option<String>,
    pub source: Option<String>,
    pub extract_date: Option<String>,
}

impl HeaderOutput {
    /// The header says what the configuration says.
    pub open spec fn describes(&self, config: PowersConfig) -> bool {
        &&& opt_str(self.issue) == Some(config.issue@)
        &&& opt_str(self.source) == Some(config.source@)
        &&& opt_str(self.extract_date) == opt_str(config.extract_date)
    }

    /// Creates a `HeaderOutput` from a `PowersConfig`. The time of the
    /// extraction must be known.
    pub fn from_config(config: &PowersConfig) -> (r: Self)
        requires
            config.extract_date is Some,
        ensures
            r.describes(*config),
            r.extract_date is Some,
    {
        HeaderOutput {
            issue: Some(config.issue.clone()),
            source: Some(config.source.clone()),
            extract_date: clone_opt(&config.extract_date),
        }
    }
}

/// Additional fields of an archetype in the full view of the archetypes.
#[derive(Debug)]
pub struct ExtendedArchetypeOutput {
    pub display_help: Option<String>,
    pub display_short_help: Option<String>,
    pub allowed_origins: Vec<String>,
    pub restrictions: Vec<String>,
    pub level_up_respecs: Vec<i32>,
    pub primary_category: Option<NameKey>,
    pub secondary_category: Option<NameKey>,
}

impl ExtendedArchetypeOutput {
    /// The fields say what the archetype says.
    pub open spec fn describes(&self, at: Archetype) -> bool {
        &&& opt_str(self.display_help) == opt_str(at.pch_display_help)
        &&& opt_str(self.display_short_help) == opt_str(at.pch_display_short_help)
        &&& strings(self.allowed_origins@) == strings(at.ppch_allowed_origin_names@)
        &&& strings(self.restrictions@) == strings(at.ppch_special_restrictions@)
        &&& self.level_up_respecs@ == at.pi_level_up_respecs@
        &&& opt_text(self.primary_category) == opt_text(at.pch_primary_category)
        &&& opt_text(self.secondary_category) == opt_text(at.pch_secondary_category)
    }

    /// Creates an `ExtendedArchetypeOutput` from an `Archetype`.
    pub fn from_archetype(at: &Archetype) -> (r: Self)
        ensures
            r.describes(*at),
    {
        ExtendedArchetypeOutput {
            display_help: clone_opt(&at.pch_display_help),
            display_short_help: clone_opt(&at.pch_display_short_help),
            allowed_origins: clone_strings(&at.ppch_allowed_origin_names),
            restrictions: clone_strings(&at.ppch_special_restrictions),
            level_up_respecs: clone_numbers(&at.pi_level_up_respecs),
            primary_category: clone_opt_key(&at.pch_primary_category),
            secondary_category: clone_opt_key(&at.pch_secondary_category),
        }
    }
}

/// The word for the role of a category, where it has one.
pub open spec fn role_word(pri_sec: PrimarySecondary) -> Option<Seq<char>> {
    match pri_sec {
        PrimarySecondary::Secondary => Some("Secondary"@),
        PrimarySecondary::Primary => Some("Primary"@),
        PrimarySecondary::Neither => None,
    }
}

/// The address of the icon of an archetype, where icons are configured and
/// the archetype has one.
pub open spec fn archetype_icon(at: Archetype, assets: Option<AssetsConfig>) -> Option<Seq<char>> {
    match (assets, at.pch_icon) {
        (Some(a), Some(icon)) => Some(
            a.base_asset_url@ + icon_path(
                a.archetype_icon_format@,
                icon_name(icon@, a.ext@),
                md5_digest(encode_utf8(icon_name(icon@, a.ext@))),
            ),
        ),
        _ => None,
    }
}

/// An archetype as the documents show it.
#[derive(Debug)]
pub struct ArchetypeOutput {
    pub name: Option<String>,
    pub display_name: Option<String>,
    pub icon: Option<String>,
    pub primary_or_secondary: Option<String>,
    pub extended: Option<ExtendedArchetypeOutput>,
}

impl ArchetypeOutput {
    /// The fields say what the archetype says, with the given role; the
    /// additional fields are there exactly where they are asked for.
    pub open spec fn describes(
        &self,
        at: Archetype,
        pri_sec: PrimarySecondary,
        extended: bool,
        config: PowersConfig,
    ) -> bool {
        &&& opt_str(self.name) == opt_str(at.pch_name)
        &&& opt_str(self.display_name) == opt_str(at.pch_display_name)
        &&& opt_str(self.icon) == archetype_icon(at, config.assets)
        &&& opt_str(self.primary_or_secondary) == role_word(pri_sec)
        &&& self.extended is Some <==> extended
        &&& self.extended is Some ==> self.extended->0.describes(at)
    }

    /// Creates an `ArchetypeOutput` from an `Archetype`.
    pub fn from_archetype(
        at: &Archetype,
        pri_sec: &PrimarySecondary,
        extended: bool,
        config: &PowersConfig,
    ) -> (r: Self)
        ensures
            r.describes(*at, *pri_sec, extended, *config),
    {
        let mut at_out = ArchetypeOutput {
            name: clone_opt(&at.pch_name),
            display_name: clone_opt(&at.pch_display_name),
            icon: None,
            primary_or_secondary: match pri_sec {
                PrimarySecondary::Secondary => Some(String::from_str("Secondary")),
                PrimarySecondary::Primary => Some(String::from_str("Primary")),
                PrimarySecondary::Neither => None,
            },
            extended: if extended {
                Some(ExtendedArchetypeOutput::from_archetype(at))
            } else {
                None
            },
        };
        match &config.assets {
            Some(assets_config) => {
                match &at.pch_icon {
                    Some(icon) => {
                        at_out.icon = Some(format_at_icon_to_asset(icon.as_str(), assets_config));
                    },
                    None => {},
                }
            },
            None => {},
        }
        at_out
    }
}

/// The document of all archetypes.
#[derive(Debug)]
pub struct ArchetypesOutput {
    pub header: HeaderOutput,
    pub archetypes: Vec<ArchetypeOutput>,
}

impl ArchetypesOutput {
    /// Creates an `ArchetypesOutput` from the table of archetypes: every
    /// archetype in full, without a role, in the order of the table.
    pub fn from_archetypes(ats: &Keyed<Archetype>, config: &PowersConfig) -> (r: Self)
        requires
            config.extract_date is Some,
        ensures
            r.header.describes(*config),
            r.archetypes@.len() == ats.value_seq().len(),
            forall|i: int|
                0 <= i < r.archetypes@.len() ==> (#[trigger] r.archetypes@[i]).describes(
                    ats.value_seq()[i],
                    PrimarySecondary::Neither,
                    true,
                    *config,
                ),
    {
        let mut ats_out = ArchetypesOutput {
            header: HeaderOutput::from_config(config),
            archetypes: Vec::new(),
        };
        let n = ats.len();
        let mut i: usize = 0;
        while i < n
            invariant
                i <= n,
                n == ats.value_seq().len(),
                ats_out.header.describes(*config),
                ats_out.archetypes@.len() == i,
                forall|j: int|
                    0 <= j < i ==> (#[trigger] ats_out.archetypes@[j]).describes(
                        ats.value_seq()[j],
                        PrimarySecondary::Neither,
                        true,
                        *config,
                    ),
            decreases n - i,
        {
            let at = ArchetypeOutput::from_archetype(
                ats.value(i),
                &PrimarySecondary::Neither,
                true,
                config,
            );
            ats_out.archetypes.push(at);
            i += 1;
        }
        ats_out
    }
}

/// The archetype that a reference refers to, where the dictionary has it.
pub open spec fn referred(dict: PowersDictionary, r: ArchetypeRef) -> Option<Archetype> {
    let table = if r.villain {
        dict.villain_archetypes
    } else {
        dict.archetypes
    };
    if r.index < table.value_seq().len() {
        Some(table.value_seq()[r.index as int])
    } else {
        None
    }
}

/// The archetype that a category is meant for: the one that is associated
/// with it, where that is exactly one and the dictionary has it.
pub open spec fn sole_archetype(dict: PowersDictionary, cat: PowerCategory) -> Option<Archetype> {
    if cat.archetypes@.len() == 1 {
        referred(dict, cat.archetypes@[0])
    } else {
        None
    }
}

/// In a dictionary whose references are in range, the archetype that a
/// category is meant for is there exactly where one archetype, and no
/// more, is associated with the category: only then is the role of the
/// category read.
pub proof fn law_sole_archetype_is_the_only_one(dict: PowersDictionary, c: int)
    requires
        dict.references_in_range(),
        0 <= c < dict.power_categories.value_seq().len(),
    ensures
        sole_archetype(dict, dict.power_categories.value_seq()[c]) is Some
            <==> dict.power_categories.value_seq()[c].archetypes@.len() == 1,
{
    let cat = dict.power_categories.value_seq()[c];
    if cat.archetypes@.len() == 1 {
        assert(ref_in_range(
            cat.archetypes@[0],
            dict.archetypes.value_seq().len(),
            dict.villain_archetypes.value_seq().len(),
        ));
    }
}

/// The archetype that a reference refers to: see [`referred`].
pub fn archetype_of(dict: &PowersDictionary, r: ArchetypeRef) -> (at: Option<&Archetype>)
    ensures
        at is Some <==> referred(*dict, r) is Some,
        at is Some ==> *at->0 == referred(*dict, r)->0,
{
    if r.villain {
        if r.index < dict.villain_archetypes.len() {
            Some(dict.villain_archetypes.value(r.index))
        } else {
            None
        }
    } else {
        if r.index < dict.archetypes.len() {
            Some(dict.archetypes.value(r.index))
        } else {
            None
        }
    }
}

/// The archetype of a category as the documents show it, without the
/// additional fields: see [`sole_archetype`].
fn sole_archetype_output(dict: &PowersDictionary, cat: &PowerCategory, config: &PowersConfig) -> (r:
    Option<ArchetypeOutput>)
    ensures
        r is Some <==> sole_archetype(*dict, *cat) is Some,
        r is Some ==> r->0.describes(sole_archetype(*dict, *cat)->0, cat.pri_sec, false, *config),
{
    if cat.archetypes.len() == 1 {
        // if there's only 1 archetype attached, then this is a group of sets
        // intended for that archetype
        match archetype_of(dict, cat.archetypes[0]) {
            Some(at) => Some(ArchetypeOutput::from_archetype(at, &cat.pri_sec, false, config)),
            None => None,
        }
    } else {
        None
    }
}

/// A power category in the root index.
#[derive(Debug)]
pub struct RootPowerCategory {
    pub name: Option<NameKey>,
    pub display_name: Option<String>,
    pub archetype: Option<ArchetypeOutput>,
    pub url: String,
}

impl RootPowerCategory {
    /// The entry says what the category says, and where its document is.
    pub open spec fn describes(
        &self,
        dict: PowersDictionary,
        cat: PowerCategory,
        config: PowersConfig,
    ) -> bool {
        &&& cat.pch_name is Some
        &&& opt_text(self.name) == opt_text(cat.pch_name)
        &&& opt_str(self.display_name) == opt_str(cat.pch_display_name)
        &&& self.url@ == document_url(opt_str(config.base_json_url), file_name(cat.pch_name->0@))
        &&& self.archetype is Some <==> sole_archetype(dict, cat) is Some
        &&& self.archetype is Some ==> self.archetype->0.describes(
            sole_archetype(dict, cat)->0,
            cat.pri_sec,
            false,
            config,
        )
    }
}

/// The category has an entry in the root index: it is at the top level,
/// included, and has a name.
pub open spec fn in_root(cat: PowerCategory) -> bool {
    cat.top_level && cat.include_in_output && cat.pch_name is Some
}

/// The positions of the categories that have an entry in the root index,
/// in the order of the table.
pub open spec fn root_positions(cats: Seq<PowerCategory>) -> Seq<int>
    decreases cats.len(),
{
    if cats.len() == 0 {
        Seq::empty()
    } else {
        let before = root_positions(cats.drop_last());
        if in_root(cats.last()) {
            before.push(cats.len() - 1)
        } else {
            before
        }
    }
}

/// Every position of [`root_positions`] is that of a category with an
/// entry in the root index.
pub proof fn lemma_root_positions_valid(cats: Seq<PowerCategory>)
    ensures
        forall|k: int|
            0 <= k < root_positions(cats).len() ==> 0 <= (#[trigger] root_positions(cats)[k])
                < cats.len() && in_root(cats[root_positions(cats)[k]]),
    decreases cats.len(),
{
    if cats.len() > 0 {
        lemma_root_positions_valid(cats.drop_last());
        let before = root_positions(cats.drop_last());
        assert forall|k: int| 0 <= k < root_positions(cats).len() implies 0 <= (
        #[trigger] root_positions(cats)[k]) < cats.len() && in_root(
            cats[root_positions(cats)[k]],
        ) by {
            if k < before.len() {
                assert(root_positions(cats)[k] == before[k]);
                assert(cats.drop_last()[before[k]] == cats[before[k]]);
            }
        }
    }
}

/// The root index.
#[derive(Debug)]
pub struct RootOutput {
    pub header: HeaderOutput,
    /// The address of the document of the archetypes.
    pub archetypes: String,
    pub power_categories: Vec<RootPowerCategory>,
}

impl RootOutput {
    /// Converts the categories of a dictionary to a `RootOutput`: an entry
    /// for every category that is at the top level and included, in the
    /// order of the table.
    pub fn from_power_categories(dict: &PowersDictionary, config: &PowersConfig) -> (r: Self)
        requires
            config.extract_date is Some,
        ensures
            r.header.describes(*config),
            r.archetypes@ == document_url(opt_str(config.base_json_url), file_name("archetypes"@)),
            r.power_categories@.len() == root_positions(dict.power_categories.value_seq()).len(),
            forall|k: int|
                0 <= k < r.power_categories@.len() ==> (#[trigger] r.power_categories@[k]).describes(
                    *dict,
                    dict.power_categories.value_seq()[root_positions(
                        dict.power_categories.value_seq(),
                    )[k]],
                    *config,
                ),
            // where the references are in range, an entry shows an
            // archetype exactly where its category has one archetype
            dict.references_in_range() ==> forall|k: int|
                0 <= k < r.power_categories@.len() ==> ((
                #[trigger] r.power_categories@[k]).archetype is Some
                    <==> dict.power_categories.value_seq()[root_positions(
                    dict.power_categories.value_seq(),
                )[k]].archetypes@.len() == 1),
    {
        let at_path = make_file_name(&chars_of("archetypes"));
        let mut root = RootOutput {
            header: HeaderOutput::from_config(config),
            archetypes: make_document_url(&config.base_json_url, &at_path),
            power_categories: Vec::new(),
        };
        let ghost cats = dict.power_categories.value_seq();
        let n = dict.power_categories.len();
        let mut c: usize = 0;
        assert(cats.take(0) =~= Seq::empty());
        while c < n
            invariant
                c <= n,
                n == cats.len(),
                cats == dict.power_categories.value_seq(),
                root.header.describes(*config),
                root.archetypes@ == document_url(
                    opt_str(config.base_json_url),
                    file_name("archetypes"@),
                ),
                root.power_categories@.len() == root_positions(cats.take(c as int)).len(),
                forall|k: int|
                    0 <= k < root.power_categories@.len() ==> (
                    #[trigger] root.power_categories@[k]).describes(
                        *dict,
                        cats[root_positions(cats.take(c as int))[k]],
                        *config,
                    ),
            decreases n - c,
        {
            let pcat = dict.power_categories.value(c);
            proof {
                assert(cats.take(c + 1).drop_last() =~= cats.take(c as int));
                assert(cats.take(c + 1).last() == cats[c as int]);
            }
            if pcat.top_level && pcat.include_in_output {
                match &pcat.pch_name {
                    Some(pcat_name) => {
                        let path = make_file_name(pcat_name.chars());
                        let rpc = RootPowerCategory {
                            name: Some(pcat_name.clone()),
                            display_name: clone_opt(&pcat.pch_display_name),
                            archetype: sole_archetype_output(dict, pcat, config),
                            url: make_document_url(&config.base_json_url, &path),
                        };
                        root.power_categories.push(rpc);
                    },
                    None => {},
                }
            }
            c += 1;
        }
        assert(cats.take(n as int) =~= cats);
        proof {
            if dict.references_in_range() {
                lemma_root_positions_valid(cats);
                assert forall|k: int| 0 <= k < root.power_categories@.len() implies ((
                #[trigger] root.power_categories@[k]).archetype is Some
                    <==> cats[root_positions(cats)[k]].archetypes@.len() == 1) by {
                    law_sole_archetype_is_the_only_one(*dict, root_positions(cats)[k]);
                }
            }
        }
        root
    }
}

/// A power set in the document of a power category.
#[derive(Debug)]
pub struct PowerCategoryPowerSetOutput {
    pub name: Option<NameKey>,
    pub display_name: Option<String>,
    pub url: Option<String>,
}

/// The directory of the documents of a power set: below that of its
/// category where the output is to be served, else beside it.
pub open spec fn set_path(
    base: Option<Seq<char>>,
    cat_name: Option<Seq<char>>,
    set_name: Option<Seq<char>>,
) -> Seq<char> {
    let below = match set_name {
        Some(n) => file_name(n),
        None => Seq::empty(),
    };
    match base {
        Some(_) => (match cat_name {
            Some(c) => file_name(c),
            None => Seq::empty(),
        }) + seq!['/'] + below,
        None => below,
    }
}

impl PowerCategoryPowerSetOutput {
    /// The entry says what the power set says, and where its document is.
    pub open spec fn describes(
        &self,
        cat: PowerCategory,
        set: BasePowerSet,
        config: PowersConfig,
    ) -> bool {
        &&& opt_text(self.name) == opt_text(set.pch_full_name)
        &&& opt_str(self.display_name) == opt_str(set.pch_display_name)
        &&& opt_str(self.url) == Some(
            document_url(
                opt_str(config.base_json_url),
                set_path(opt_str(config.base_json_url), opt_text(cat.pch_name), opt_str(set.pch_name)),
            ),
        )
    }
}

/// The positions in the list of a category's power sets of those that have
/// an entry in the category's document: the power sets of the table that
/// are included.
pub open spec fn shown_sets(set_list: Seq<usize>, sets: Seq<BasePowerSet>) -> Seq<int>
    decreases set_list.len(),
{
    if set_list.len() == 0 {
        Seq::empty()
    } else {
        let before = shown_sets(set_list.drop_last(), sets);
        if set_list.last() < sets.len() && sets[set_list.last() as int].include_in_output {
            before.push(set_list.len() - 1)
        } else {
            before
        }
    }
}

/// The document of a power category.
#[derive(Debug)]
pub struct PowerCategoryOutput {
    pub header: HeaderOutput,
    pub name: Option<NameKey>,
    pub archetype: Option<ArchetypeOutput>,
    pub power_sets: Vec<PowerCategoryPowerSetOutput>,
}

impl PowerCategoryOutput {
    /// Converts a `PowerCategory` to a `PowerCategoryOutput`: with an
    /// entry for every power set of the category that is included, in the
    /// order in which the category lists them.
    pub fn from_power_category(
        power_category: &PowerCategory,
        dict: &PowersDictionary,
        config: &PowersConfig,
    ) -> (r: Self)
        requires
            config.extract_date is Some,
        ensures
            r.header.describes(*config),
            opt_text(r.name) == opt_text(power_category.pch_name),
            r.archetype is Some <==> sole_archetype(*dict, *power_category) is Some,
            r.archetype is Some ==> r.archetype->0.describes(
                sole_archetype(*dict, *power_category)->0,
                power_category.pri_sec,
                false,
                *config,
            ),
            r.power_sets@.len() == shown_sets(
                power_category.pp_power_sets@,
                dict.power_sets.value_seq(),
            ).len(),
            forall|k: int|
                0 <= k < r.power_sets@.len() ==> (#[trigger] r.power_sets@[k]).describes(
                    *power_category,
                    dict.power_sets.value_seq()[power_category.pp_power_sets@[shown_sets(
                        power_category.pp_power_sets@,
                        dict.power_sets.value_seq(),
                    )[k]] as int],
                    *config,
                ),
    {
        let mut pcat = PowerCategoryOutput {
            header: HeaderOutput::from_config(config),
            name: clone_opt_key(&power_category.pch_name),
            archetype: sole_archetype_output(dict, power_category, config),
            power_sets: Vec::new(),
        };
        let ghost sets = dict.power_sets.value_seq();
        let ghost set_list = power_category.pp_power_sets@;
        let ns = dict.power_sets.len();
        let mut a: usize = 0;
        assert(set_list.take(0) =~= Seq::empty());
        while a < power_category.pp_power_sets.len()
            invariant
                a <= power_category.pp_power_sets.len(),
                ns == sets.len(),
                sets == dict.power_sets.value_seq(),
                set_list == power_category.pp_power_sets@,
                pcat.header.describes(*config),
                opt_text(pcat.name) == opt_text(power_category.pch_name),
                pcat.archetype is Some <==> sole_archetype(*dict, *power_category) is Some,
                pcat.archetype is Some ==> pcat.archetype->0.describes(
                    sole_archetype(*dict, *power_category)->0,
                    power_category.pri_sec,
                    false,
                    *config,
                ),
                pcat.power_sets@.len() == shown_sets(set_list.take(a as int), sets).len(),
                forall|k: int|
                    0 <= k < pcat.power_sets@.len() ==> (#[trigger] pcat.power_sets@[k]).describes(
                        *power_category,
                        sets[set_list[shown_sets(set_list.take(a as int), sets)[k]] as int],
                        *config,
                    ),
            decreases power_category.pp_power_sets.len() - a,
        {
            let s = power_category.pp_power_sets[a];
            proof {
                assert(set_list.take(a + 1).drop_last() =~= set_list.take(a as int));
                assert(set_list.take(a + 1).last() == set_list[a as int]);
            }
            if s < ns && dict.power_sets.value(s).include_in_output {
                let pset = dict.power_sets.value(s);
                let mut path: Vec<char> = Vec::new();
                if config.base_json_url.is_some() {
                    match &power_category.pch_name {
                        Some(pcat_name) => {
                            path = make_file_name(pcat_name.chars());
                        },
                        None => {},
                    }
                    path.push('/');
                }
                let ghost front = path@;
                match &pset.pch_name {
                    Some(name) => {
                        let below = make_file_name(&chars_of(name.as_str()));
                        push_chars(&mut path, &below);
                    },
                    None => {
                        assert(front + Seq::<char>::empty() =~= front);
                    },
                }
                proof {
                    let want = set_path(
                        opt_str(config.base_json_url),
                        opt_text(power_category.pch_name),
                        opt_str(pset.pch_name),
                    );
                    assert(path@ =~= want);
                }
                let entry = PowerCategoryPowerSetOutput {
                    name: clone_opt_key(&pset.pch_full_name),
                    display_name: clone_opt(&pset.pch_display_name),
                    url: Some(make_document_url(&config.base_json_url, &path)),
                };
                pcat.power_sets.push(entry);
            }
            a += 1;
        }
        assert(set_list.take(power_category.pp_power_sets.len() as int) =~= set_list);
        pcat
    }
}

/// Returns true if `val` is 0: a number that is left out of a document.
pub fn is_zero(val: &i32) -> (r: bool)
    ensures
        r == (*val == 0),
{
    *val == 0
}

} // verus!
