//! Entries of IMDb, as far as naming a file needs them.
use vstd::prelude::*;

verus! {

/// The kind of a title.
#[derive(Clone, Copy, Debug, PartialEq, Eq, Structural)]
pub enum TitleKind {
    Movie,
    Short,
    TVEpisode,
    TVMiniSeries,
    TVMovie,
    TVSeries,
    TVShort,
    TVSpecial,
    Video,
    VideoGame,
}

impl TitleKind {
    /// Whether a title of this kind has episodes.
    pub open spec fn has_episodes(self) -> bool {
        self is TVMiniSeries || self is TVSeries
    }

    /// The kind as IMDb's data files write it.
    pub open spec fn text(self) -> Seq<char> {
        match self {
            TitleKind::Movie => "movie"@,
            TitleKind::Short => "short"@,
            TitleKind::TVEpisode => "tvEpisode"@,
            TitleKind::TVMiniSeries => "tvMiniSeries"@,
            TitleKind::TVMovie => "tvMovie"@,
            TitleKind::TVSeries => "tvSeries"@,
            TitleKind::TVShort => "tvShort"@,
            TitleKind::TVSpecial => "tvSpecial"@,
            TitleKind::Video => "video"@,
            TitleKind::VideoGame => "videoGame"@,
        }
    }

    /// Whether a title of this kind is a TV show, mini series among them.
    pub fn is_tv_series(self) -> (r: bool)
        ensures
            r == self.has_episodes(),
    {
        match self {
            TitleKind::TVMiniSeries | TitleKind::TVSeries => true,
            _ => false,
        }
    }

    /// The kind as IMDb's data files write it.
    pub fn as_str(self) -> (r: &'static str)
        ensures
            r@ == self.text(),
    {
        match self {
            TitleKind::Movie => "movie",
            TitleKind::Short => "short",
            TitleKind::TVEpisode => "tvEpisode",
            TitleKind::TVMiniSeries => "tvMiniSeries",
            TitleKind::TVMovie => "tvMovie",
            TitleKind::TVSeries => "tvSeries",
            TitleKind::TVShort => "tvShort",
            TitleKind::TVSpecial => "tvSpecial",
            TitleKind::Video => "video",
            TitleKind::VideoGame => "videoGame",
        }
    }
}

/// The title of an entity.
#[derive(Debug)]
pub struct Title {
    /// The IMDb identifier, such as `tt0096697`.
    pub id: String,
    /// The kind of the title.
    pub kind: TitleKind,
    /// The canonical title.
    pub title: String,
    /// The year in which it came out, where that is known.
    pub start_year: Option<u32>,
}

/// What makes an entity an episode of a TV show.
#[derive(Debug)]
pub struct Episode {
    /// The IMDb identifier of the episode itself.
    pub id: String,
    /// The number of the season, where it has one.
    pub season: Option<u32>,
    /// The number within the season, where it has one.
    pub episode: Option<u32>,
}

/// An entry of IMDb: a title and, where it is an episode, the episode's numbers.
#[derive(Debug)]
pub struct MediaEntity {
    pub title: Title,
    pub episode: Option<Episode>,
}

impl Clone for Title {
    fn clone(&self) -> (r: Self)
        ensures
            r == *self,
    {
        Title {
            id: self.id.clone(),
            kind: self.kind,
            title: self.title.clone(),
            start_year: self.start_year,
        }
    }
}

impl Clone for Episode {
    fn clone(&self) -> (r: Self)
        ensures
            r == *self,
    {
        Episode { id: self.id.clone(), season: self.season, episode: self.episode }
    }
}

impl Clone for MediaEntity {
    fn clone(&self) -> (r: Self)
        ensures
            r == *self,
    {
        MediaEntity {
            title: self.title.clone(),
            episode: match &self.episode {
                Some(e) => Some(e.clone()),
                None => None,
            },
        }
    }
}

/// One result of a search.
#[derive(Debug)]
pub struct Scored {
    /// How well the result fits the query: the bits of a 64-bit floating-point
    /// number. Nothing here calculates with it.
    pub score: u64,
    /// The entity that was found.
    pub entity: MediaEntity,
}

/// What a search found, the best result first.
#[derive(Debug)]
pub struct SearchResults {
    pub hits: Vec<Scored>,
}

/// What is to be taken of a search's results.
#[derive(Debug)]
pub enum Pick {
    /// Nothing: there are no results.
    Nothing,
    /// This entity, unasked.
    Take(MediaEntity),
    /// What the user chooses.
    Ask,
}

impl SearchResults {
    /// What is to be taken: the only result or, where there are several, the first one if
    /// it leads the second clearly enough.
    pub open spec fn picked(self, leads: bool) -> Pick {
        if self.hits@.len() == 0 {
            Pick::Nothing
        } else if self.hits@.len() == 1 || leads {
            Pick::Take(self.hits@[0].entity)
        } else {
            Pick::Ask
        }
    }

    /// Picks a result. Whether the first one leads the second clearly enough is for the
    /// caller to find out.
    pub fn pick(&self, leads: bool) -> (r: Pick)
        ensures
            r == self.picked(leads),
    {
        if self.hits.len() == 0 {
            Pick::Nothing
        } else if self.hits.len() == 1 || leads {
            Pick::Take(self.hits[0].entity.clone())
        } else {
            Pick::Ask
        }
    }
}

} // verus!
