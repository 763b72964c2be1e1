//! Plugin configuration: which mode to run in, how to quote, how to rename
//! parameters in annotations and which optional matchers are enabled.

use vstd::prelude::*;
use crate::text::str_eq;

verus! {

/// The options the plugin is configured with.
pub struct PluginConfig {
    pub add: bool,
    pub remove: bool,
    pub single_quotes: bool,
    pub regexp: Option<String>,
    pub rename: Option<Vec<RenameEntry>>,
    pub enable: Option<Vec<String>>,
}

/// One renaming of a parameter name inside generated annotations.
pub struct RenameEntry {
    pub from: String,
    pub to: String,
}

/// What the annotator does to the functions it finds.
#[derive(Debug, Clone, Copy, PartialEq, Eq, Structural)]
pub enum Mode {
    /// Add annotations where they are missing.
    Add,
    /// Remove existing annotations.
    Remove,
    /// Remove existing annotations and add fresh ones.
    Rebuild,
}

/// The mode selected by the `add` and `remove` flags.
pub open spec fn spec_mode(add: bool, remove: bool) -> Option<Mode> {
    if add && remove {
        Some(Mode::Rebuild)
    } else if add {
        Some(Mode::Add)
    } else if remove {
        Some(Mode::Remove)
    } else {
        None
    }
}

/// The map that a sequence of `(from, to)` pairs describes when each pair is
/// inserted in order: a later pair for the same name replaces an earlier one.
pub open spec fn pairs_map(s: Seq<(Seq<char>, Seq<char>)>) -> Map<Seq<char>, Seq<char>>
    decreases s.len(),
{
    if s.len() == 0 {
        Map::empty()
    } else {
        pairs_map(s.drop_last()).insert(s.last().0, s.last().1)
    }
}

/// The pairs of a list of rename entries, as character sequences.
pub open spec fn entry_pairs(v: Seq<RenameEntry>) -> Seq<(Seq<char>, Seq<char>)> {
    v.map_values(|e: RenameEntry| (e.from@, e.to@))
}

/// A name-to-name map, as built from the `rename` option.
pub struct RenameMap {
    entries: Vec<(String, String)>,
}

impl RenameMap {
    /// The entries of the map, as character sequences, in insertion order.
    pub closed spec fn pairs(&self) -> Seq<(Seq<char>, Seq<char>)> {
        self.entries@.map_values(|p: (String, String)| (p.0@, p.1@))
    }

    /// The empty map.
    pub fn empty() -> (r: RenameMap)
        ensures
            r@ == Map::<Seq<char>, Seq<char>>::empty(),
    {
        let r = RenameMap { entries: Vec::new() };
        assert(r.pairs() =~= Seq::<(Seq<char>, Seq<char>)>::empty());
        r
    }

    /// Looks `name` up; the value of the last entry for `name` wins.
    pub fn get(&self, name: &str) -> (r: Option<&String>)
        ensures
            match r {
                Some(v) => self@.contains_key(name@) && self@[name@] == v@,
                None => !self@.contains_key(name@),
            },
    {
        let n = self.entries.len();
        let mut i = n;
        while i > 0
            invariant
                n == self.entries@.len(),
                i <= n,
                forall|j: int| i <= j < n ==> self.entries@[j].0@ != name@,
            decreases i,
        {
            let k = i - 1;
            if str_eq(self.entries[k].0.as_str(), name) {
                proof {
                    lemma_pairs_map_last(self.pairs(), name@, k as int);
                }
                return Some(&self.entries[k].1);
            }
            i = k;
        }
        proof {
            lemma_pairs_map_absent(self.pairs(), name@);
        }
        None
    }
}

impl View for RenameMap {
    type V = Map<Seq<char>, Seq<char>>;

    open spec fn view(&self) -> Map<Seq<char>, Seq<char>> {
        pairs_map(self.pairs())
    }
}

/// In a pair list whose last pair for `k` stands at `i`, the map holds that
/// pair's value for `k`.
pub proof fn lemma_pairs_map_last(s: Seq<(Seq<char>, Seq<char>)>, k: Seq<char>, i: int)
    requires
        0 <= i < s.len(),
        s[i].0 == k,
        forall|j: int| i < j < s.len() ==> s[j].0 != k,
    ensures
        pairs_map(s).contains_key(k),
        pairs_map(s)[k] == s[i].1,
    decreases s.len(),
{
    if i < s.len() - 1 {
        lemma_pairs_map_last(s.drop_last(), k, i);
    }
}

/// A pair list without a pair for `k` gives a map without `k`.
pub proof fn lemma_pairs_map_absent(s: Seq<(Seq<char>, Seq<char>)>, k: Seq<char>)
    requires
        forall|j: int| 0 <= j < s.len() ==> s[j].0 != k,
    ensures
        !pairs_map(s).contains_key(k),
    decreases s.len(),
{
    if s.len() > 0 {
        lemma_pairs_map_absent(s.drop_last(), k);
    }
}

/// The rename map that a configuration describes.
pub open spec fn spec_rename_map(rename: Option<Vec<RenameEntry>>) -> Map<Seq<char>, Seq<char>> {
    match rename {
        Some(v) => pairs_map(entry_pairs(v@)),
        None => Map::empty(),
    }
}

/// Whether the list holds the name of the optional matcher set for
/// angular-dashboard-framework.
pub open spec fn spec_adf_enabled(enable: Option<Vec<String>>) -> bool {
    match enable {
        Some(v) => exists|i: int| 0 <= i < v@.len() && #[trigger] v@[i]@ == "angular-dashboard-framework"@,
        None => false,
    }
}

impl PluginConfig {
    /// The configuration with every flag off and every option absent.
    pub fn default_config() -> (r: PluginConfig)
        ensures
            !r.add,
            !r.remove,
            !r.single_quotes,
            r.regexp is None,
            r.rename is None,
            r.enable is None,
    {
        PluginConfig {
            add: false,
            remove: false,
            single_quotes: false,
            regexp: None,
            rename: None,
            enable: None,
        }
    }

    /// The mode: rebuild when both `add` and `remove` are set, add or remove
    /// when only one is, none when neither is.
    pub fn mode(&self) -> (r: Option<Mode>)
        ensures
            r == spec_mode(self.add, self.remove),
    {
        if self.add && self.remove {
            Some(Mode::Rebuild)
        } else if self.add {
            Some(Mode::Add)
        } else if self.remove {
            Some(Mode::Remove)
        } else {
            None
        }
    }

    /// The quote character selected by `single_quotes`.
    pub fn quote_char(&self) -> (r: char)
        ensures
            r == (if self.single_quotes { '\'' } else { '"' }),
    {
        if self.single_quotes {
            '\''
        } else {
            '"'
        }
    }

    /// The rename entries as a map; a later entry for a name overrides an
    /// earlier one.
    pub fn rename_map(&self) -> (r: RenameMap)
        ensures
            r@ == spec_rename_map(self.rename),
    {
        match &self.rename {
            None => RenameMap::empty(),
            Some(v) => {
                let mut entries: Vec<(String, String)> = Vec::new();
                let mut i: usize = 0;
                while i < v.len()
                    invariant
                        i <= v@.len(),
                        entries@.map_values(|p: (String, String)| (p.0@, p.1@))
                            =~= entry_pairs(v@).take(i as int),
                    decreases v@.len() - i,
                {
                    let from = v[i].from.clone();
                    let to = v[i].to.clone();
                    let ghost before = entries@;
                    entries.push((from, to));
                    proof {
                        assert(entries@ =~= before.push((from, to)));
                        assert(entry_pairs(v@).take(i + 1) =~= entry_pairs(v@).take(i as int).push(
                            (v@[i as int].from@, v@[i as int].to@),
                        ));
                        assert(entries@.map_values(|p: (String, String)| (p.0@, p.1@))
                            =~= before.map_values(|p: (String, String)| (p.0@, p.1@)).push((from@, to@)));
                    }
                    i = i + 1;
                }
                assert(entry_pairs(v@).take(v@.len() as int) =~= entry_pairs(v@));
                RenameMap { entries }
            },
        }
    }

    /// Whether "angular-dashboard-framework" is among the enabled extras.
    pub fn is_adf_enabled(&self) -> (r: bool)
        ensures
            r == spec_adf_enabled(self.enable),
    {
        match &self.enable {
            None => false,
            Some(v) => {
                let mut i: usize = 0;
                while i < v.len()
                    invariant
                        self.enable == Some(*v),
                        i <= v@.len(),
                        forall|j: int| 0 <= j < i ==> v@[j]@ != "angular-dashboard-framework"@,
                    decreases v@.len() - i,
                {
                    if str_eq(v[i].as_str(), "angular-dashboard-framework") {
                        let ghost w: Vec<String> = self.enable->0;
                        assert(w == *v);
                        assert(w@[i as int]@ == "angular-dashboard-framework"@);
                        return true;
                    }
                    i = i + 1;
                }
                false
            },
        }
    }
}

impl Default for PluginConfig {
    fn default() -> (r: PluginConfig)
        ensures
            !r.add,
            !r.remove,
            !r.single_quotes,
            r.regexp is None,
            r.rename is None,
            r.enable is None,
    {
        PluginConfig::default_config()
    }
}

} // verus!
