//! Where the client finds its data.
use vstd::prelude::*;
use vstd::string::StringExecFns;

verus! {

/// The kinds of list files.
#[derive(Clone, Copy, Debug, PartialEq, Eq, Structural)]
pub enum ListType {
    Bullet,
    Icon,
    Interface,
    Tile,
    Object,
}

/// The data and sprite folders and the list files to read.
#[derive(Debug)]
pub struct Config {
    pub data_dir: String,
    pub rle_dir: String,
    pub list_paths: Vec<(String, ListType)>,
}

pub open spec fn list_path_views(v: Seq<(String, ListType)>) -> Seq<(Seq<char>, ListType)> {
    v.map_values(|p: (String, ListType)| (p.0@, p.1))
}

impl Config {
    /// Data under `../Data/DATAs`, sprites under `../Data/RELs`, and the
    /// list files of bullets, icons, interface, tiles and objects.
    pub fn default() -> (c: Config)
        ensures
            c.data_dir@ == "../Data/DATAs"@,
            c.rle_dir@ == "../Data/RELs"@,
            list_path_views(c.list_paths@) == seq![
                ("bul.lst"@, ListType::Bullet),
                ("ico.lst"@, ListType::Icon),
                ("int.lst"@, ListType::Interface),
                ("tle.lst"@, ListType::Tile),
                ("obj.lst"@, ListType::Object),
            ],
    {
        let mut list_paths: Vec<(String, ListType)> = Vec::new();
        list_paths.push((String::from_str("bul.lst"), ListType::Bullet));
        list_paths.push((String::from_str("ico.lst"), ListType::Icon));
        list_paths.push((String::from_str("int.lst"), ListType::Interface));
        list_paths.push((String::from_str("tle.lst"), ListType::Tile));
        list_paths.push((String::from_str("obj.lst"), ListType::Object));
        let c = Config {
            data_dir: String::from_str("../Data/DATAs"),
            rle_dir: String::from_str("../Data/RELs"),
            list_paths,
        };
        assert(list_path_views(c.list_paths@) =~= seq![
            ("bul.lst"@, ListType::Bullet),
            ("ico.lst"@, ListType::Icon),
            ("int.lst"@, ListType::Interface),
            ("tle.lst"@, ListType::Tile),
            ("obj.lst"@, ListType::Object),
        ]);
        c
    }
}

} // verus!
