//! What the user configures.

use vstd::prelude::*;
use crate::namekey::NameKey;

verus! {

/// Where the icons of the output are found.
#[derive(Debug)]
pub struct AssetsConfig {
    /// What every address of an asset begins with.
    pub base_asset_url: String,
    /// The extension of an icon's file, with its dot.
    pub ext: String,
    /// The path of an archetype's icon, in which `{md5}` stands for the first
    /// byte of the digest of the icon's file name and `{icon}` for the name.
    pub archetype_icon_format: String,
    /// The path of a power's icon, with the same two place holders.
    pub powers_icon_format: String,
}

/// The configuration of a run.
#[derive(Debug)]
pub struct PowersConfig {
    /// The names of the categories to keep at the top level; where the list is
    /// empty, all are kept.
    pub power_categories: Vec<NameKey>,
    /// Patterns of the names of power sets that are left out before the tables
    /// are merged.
    pub filter_powersets: Vec<NameKey>,
    /// The names of categories that every archetype is matched to, whatever
    /// the archetype itself names.
    pub global_categories: Vec<NameKey>,
    /// The issue of the game that the data is from.
    pub issue: String,
    /// The source of the data.
    pub source: String,
    /// The time of the extraction, as text.
    pub extract_date: Option<String>,
    /// What every address of an output document begins with, if the output is
    /// to be served.
    pub base_json_url: Option<String>,
    pub assets: Option<AssetsConfig>,
}

impl PowersConfig {
    /// A configuration that keeps everything and names nothing.
    pub fn new() -> (r: Self)
        ensures
            r.power_categories@.len() == 0,
            r.filter_powersets@.len() == 0,
            r.global_categories@.len() == 0,
            r.issue@.len() == 0,
            r.source@.len() == 0,
            r.extract_date is None,
            r.base_json_url is None,
            r.assets is None,
    {
        PowersConfig {
            power_categories: Vec::new(),
            filter_powersets: Vec::new(),
            global_categories: Vec::new(),
            issue: String::new(),
            source: String::new(),
            extract_date: None,
            base_json_url: None,
            assets: None,
        }
    }
}

} // verus!
