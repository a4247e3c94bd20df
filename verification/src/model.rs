//! Document model: typed representation of the external JSON catalog, and
//! the flat row record that is persisted for each entry.

use vstd::prelude::*;

verus! {

/// License information attached to the catalog document.
#[derive(Debug, Clone, PartialEq, Eq)]
pub struct License {
    pub name: String,
    pub url: String,
}

/// Season information of one catalog entry: a season label plus an
/// optional year (the external document may omit the year).
#[derive(Debug, Clone, PartialEq, Eq)]
pub struct AnimeSeason {
    pub season: String,
    pub year: Option<i32>,
}

/// One catalog entry as it appears in the external document.
///
/// Only `title`, `kind`, `episodes`, `status`, `season`, `picture` and
/// `thumbnail` participate in the persisted row; `sources`, `synonyms`,
/// `related_anime` and `tags` are parsed but intentionally dropped by the
/// row mapping.
#[derive(Debug, Clone, PartialEq, Eq)]
pub struct AnimeEntry {
    pub sources: Vec<String>,
    pub title: String,
    pub kind: String,
    pub episodes: i32,
    pub status: String,
    pub season: AnimeSeason,
    pub picture: String,
    pub thumbnail: String,
    pub synonyms: Vec<String>,
    pub related_anime: Vec<String>,
    pub tags: Vec<String>,
}

/// The root catalog document.
#[derive(Debug, Clone, PartialEq, Eq)]
pub struct AnimeDatabase {
    pub license: License,
    pub repository: String,
    pub last_update: String,
    pub data: Vec<AnimeEntry>,
}

/// The flat record persisted for one entry. The year is always concrete:
/// an absent source year maps to the sentinel 0.
#[derive(Debug, Clone, PartialEq, Eq)]
pub struct AnimeRow {
    pub title: String,
    pub kind: String,
    pub episodes: i32,
    pub status: String,
    pub season: String,
    pub year: i32,
    pub picture: String,
    pub thumbnail: String,
}

/// Mathematical view of a `License`.
pub ghost struct LicenseV {
    pub name: Seq<char>,
    pub url: Seq<char>,
}

/// Mathematical view of an `AnimeSeason`.
pub ghost struct SeasonV {
    pub season: Seq<char>,
    pub year: Option<int>,
}

/// Mathematical view of an `AnimeEntry`.
pub ghost struct EntryV {
    pub sources: Seq<Seq<char>>,
    pub title: Seq<char>,
    pub kind: Seq<char>,
    pub episodes: int,
    pub status: Seq<char>,
    pub season: SeasonV,
    pub picture: Seq<char>,
    pub thumbnail: Seq<char>,
    pub synonyms: Seq<Seq<char>>,
    pub related_anime: Seq<Seq<char>>,
    pub tags: Seq<Seq<char>>,
}

/// Mathematical view of an `AnimeDatabase`.
pub ghost struct DocV {
    pub license: LicenseV,
    pub repository: Seq<char>,
    pub last_update: Seq<char>,
    pub entries: Seq<EntryV>,
}

/// Mathematical view of an `AnimeRow`.
pub ghost struct RowV {
    pub title: Seq<char>,
    pub kind: Seq<char>,
    pub episodes: int,
    pub status: Seq<char>,
    pub season: Seq<char>,
    pub year: int,
    pub picture: Seq<char>,
    pub thumbnail: Seq<char>,
}

/// Views of a sequence of strings.
pub open spec fn str_views(v: Seq<String>) -> Seq<Seq<char>> {
    v.map_values(|s: String| s@)
}

impl View for License {
    type V = LicenseV;

    open spec fn view(&self) -> LicenseV {
        LicenseV { name: self.name@, url: self.url@ }
    }
}

impl View for AnimeSeason {
    type V = SeasonV;

    open spec fn view(&self) -> SeasonV {
        SeasonV {
            season: self.season@,
            year: match self.year {
                Some(y) => Some(y as int),
                None => None,
            },
        }
    }
}

impl View for AnimeEntry {
    type V = EntryV;

    open spec fn view(&self) -> EntryV {
        EntryV {
            sources: str_views(self.sources@),
            title: self.title@,
            kind: self.kind@,
            episodes: self.episodes as int,
            status: self.status@,
            season: self.season@,
            picture: self.picture@,
            thumbnail: self.thumbnail@,
            synonyms: str_views(self.synonyms@),
            related_anime: str_views(self.related_anime@),
            tags: str_views(self.tags@),
        }
    }
}

/// Views of a sequence of entries.
pub open spec fn entry_views(v: Seq<AnimeEntry>) -> Seq<EntryV> {
    v.map_values(|e: AnimeEntry| e@)
}

impl View for AnimeDatabase {
    type V = DocV;

    open spec fn view(&self) -> DocV {
        DocV {
            license: self.license@,
            repository: self.repository@,
            last_update: self.last_update@,
            entries: entry_views(self.data@),
        }
    }
}

impl View for AnimeRow {
    type V = RowV;

    open spec fn view(&self) -> RowV {
        RowV {
            title: self.title@,
            kind: self.kind@,
            episodes: self.episodes as int,
            status: self.status@,
            season: self.season@,
            year: self.year as int,
            picture: self.picture@,
            thumbnail: self.thumbnail@,
        }
    }
}

/// Views of a sequence of rows.
pub open spec fn row_views(v: Seq<AnimeRow>) -> Seq<RowV> {
    v.map_values(|r: AnimeRow| r@)
}

} // verus!
