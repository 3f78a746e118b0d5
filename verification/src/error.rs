//! Why a path gets no new name.
use crate::entity::TitleKind;
use crate::paths;
use crate::patterns;
use crate::text;
use std::num::ParseIntError;
use std::path::PathBuf;
use vstd::prelude::*;
use vstd::string::*;

verus! {

/// Why a path gets no new name, or why a whole set of paths gets none.
#[derive(Debug)]
pub enum RenameError {
    /// The path has no parent.
    NoParent(PathBuf),
    /// The path does not end in a name.
    NoFileName(PathBuf),
    /// The name at the end of the path is not UTF-8.
    NotUnicode(PathBuf),
    /// The pattern matches, but not the group that is to be read.
    MissingGroup { group: String, pattern: String },
    /// What was captured is no number.
    Number(ParseIntError),
    /// A pattern does not compile.
    Pattern(regex::Error),
    /// The path is an episode's, and the entity to be used for it is no TV show.
    NotTvShow(TitleKind),
    /// The TV show has no such episode.
    NoSuchEpisode { season: u32, episode: u32, tvshow_id: String },
    /// There is no entity for the episode of this identifier.
    NoSuchEntity(String),
    /// Nothing can be read off the path, and no entity was given to be used for it.
    NoOverride,
    /// The search found nothing.
    NoResults,
    /// The search failed, or the choice among its results.
    Search(String),
    /// The index of IMDb could not be read.
    Index(String),
    /// Two paths would get the same new path.
    DuplicateDestination(PathBuf),
    /// The new path is taken.
    DestinationExists(PathBuf),
}

/// An error as a mathematical value. A path is given by its bytes.
#[verifier::ext_equal]
pub enum RenameErrorView {
    NoParent(Seq<u8>),
    NoFileName(Seq<u8>),
    NotUnicode(Seq<u8>),
    MissingGroup { group: Seq<char>, pattern: Seq<char> },
    Number(ParseIntError),
    Pattern(regex::Error),
    NotTvShow(TitleKind),
    NoSuchEpisode { season: u32, episode: u32, tvshow_id: Seq<char> },
    NoSuchEntity(Seq<char>),
    NoOverride,
    NoResults,
    Search(Seq<char>),
    Index(Seq<char>),
    DuplicateDestination(Seq<u8>),
    DestinationExists(Seq<u8>),
}

impl View for RenameError {
    type V = RenameErrorView;

    open spec fn view(&self) -> RenameErrorView {
        match self {
            RenameError::NoParent(p) => RenameErrorView::NoParent(paths::path_bytes(*p)),
            RenameError::NoFileName(p) => RenameErrorView::NoFileName(paths::path_bytes(*p)),
            RenameError::NotUnicode(p) => RenameErrorView::NotUnicode(paths::path_bytes(*p)),
            RenameError::MissingGroup { group, pattern } => RenameErrorView::MissingGroup {
                group: group@,
                pattern: pattern@,
            },
            RenameError::Number(e) => RenameErrorView::Number(*e),
            RenameError::Pattern(e) => RenameErrorView::Pattern(*e),
            RenameError::NotTvShow(kind) => RenameErrorView::NotTvShow(*kind),
            RenameError::NoSuchEpisode { season, episode, tvshow_id } =>
                RenameErrorView::NoSuchEpisode {
                season: *season,
                episode: *episode,
                tvshow_id: tvshow_id@,
            },
            RenameError::NoSuchEntity(id) => RenameErrorView::NoSuchEntity(id@),
            RenameError::NoOverride => RenameErrorView::NoOverride,
            RenameError::NoResults => RenameErrorView::NoResults,
            RenameError::Search(text) => RenameErrorView::Search(text@),
            RenameError::Index(text) => RenameErrorView::Index(text@),
            RenameError::DuplicateDestination(p) => RenameErrorView::DuplicateDestination(
                paths::path_bytes(*p),
            ),
            RenameError::DestinationExists(p) => RenameErrorView::DestinationExists(
                paths::path_bytes(*p),
            ),
        }
    }
}

/// A result as a mathematical value.
pub open spec fn viewed<T: View>(r: Result<T, RenameError>) -> Result<T::V, RenameErrorView> {
    match r {
        Ok(t) => Ok(t@),
        Err(e) => Err(e@),
    }
}

/// A result that may be nothing, as a mathematical value.
pub open spec fn viewed_option<T: View>(r: Result<Option<T>, RenameError>) -> Result<
    Option<T::V>,
    RenameErrorView,
> {
    match r {
        Ok(Some(t)) => Ok(Some(t@)),
        Ok(None) => Ok(None),
        Err(e) => Err(e@),
    }
}

impl RenameErrorView {
    /// Whether no path is to be renamed where one fails like this.
    pub open spec fn stops_all(self) -> bool {
        self is Index
    }

    /// The error in words.
    pub open spec fn message(self) -> Seq<char> {
        match self {
            RenameErrorView::NoParent(p) => paths::display_text(p)
                + ": has no parent, cannot rename"@,
            RenameErrorView::NoFileName(p) => paths::display_text(p) + ": missing file name"@,
            RenameErrorView::NotUnicode(p) => paths::display_text(p)
                + ": invalid UTF-8, cannot rename"@,
            RenameErrorView::MissingGroup { group, pattern } => "missing '"@ + group
                + "' group in: "@ + pattern,
            RenameErrorView::Number(e) => text::number_fault_text(e),
            RenameErrorView::Pattern(e) => patterns::error_text(e),
            RenameErrorView::NotTvShow(kind) =>
                "expected TV show to rename episode, but found "@ + kind.text(),
            RenameErrorView::NoSuchEpisode { season, episode, tvshow_id } =>
                "could not find S"@ + text::two_digits(season as nat) + "E"@ + text::two_digits(
                episode as nat,
            ) + " for TV show "@ + tvshow_id,
            RenameErrorView::NoSuchEntity(id) => "could not find media entity for episode "@
                + id,
            RenameErrorView::NoOverride =>
                "could not parse file path and there is no override set via -q/--query"@,
            RenameErrorView::NoResults => "no search results"@,
            RenameErrorView::Search(text) => text,
            RenameErrorView::Index(text) => text,
            RenameErrorView::DuplicateDestination(p) => "duplicate rename proposal for '"@
                + paths::display_text(p) + "'"@,
            RenameErrorView::DestinationExists(p) => "file path '"@ + paths::display_text(p)
                + "' already exists"@,
        }
    }
}

impl RenameError {
    /// Whether no path is to be renamed where one fails like this: the index could not be
    /// read.
    pub fn stops_all(&self) -> (r: bool)
        ensures
            r == self@.stops_all(),
    {
        matches!(self, RenameError::Index(_))
    }

    /// The error in words.
    pub fn message(&self) -> (r: String)
        ensures
            r@ == self@.message(),
    {
        let mut out = String::new();
        match self {
            RenameError::NoParent(p) => {
                out.append(paths::display(p).as_str());
                out.append(": has no parent, cannot rename");
            },
            RenameError::NoFileName(p) => {
                out.append(paths::display(p).as_str());
                out.append(": missing file name");
            },
            RenameError::NotUnicode(p) => {
                out.append(paths::display(p).as_str());
                out.append(": invalid UTF-8, cannot rename");
            },
            RenameError::MissingGroup { group, pattern } => {
                out.append("missing '");
                out.append(group.as_str());
                out.append("' group in: ");
                out.append(pattern.as_str());
            },
            RenameError::Number(e) => {
                out.append(text::fault_text(e).as_str());
            },
            RenameError::Pattern(e) => {
                out.append(patterns::describe(e).as_str());
            },
            RenameError::NotTvShow(kind) => {
                out.append("expected TV show to rename episode, but found ");
                out.append(kind.as_str());
            },
            RenameError::NoSuchEpisode { season, episode, tvshow_id } => {
                out.append("could not find S");
                text::push_two_digits(&mut out, *season);
                out.append("E");
                text::push_two_digits(&mut out, *episode);
                out.append(" for TV show ");
                out.append(tvshow_id.as_str());
            },
            RenameError::NoSuchEntity(id) => {
                out.append("could not find media entity for episode ");
                out.append(id.as_str());
            },
            RenameError::NoOverride => {
                out.append("could not parse file path and there is no override set via -q/--query");
            },
            RenameError::NoResults => {
                out.append("no search results");
            },
            RenameError::Search(text) => {
                out.append(text.as_str());
            },
            RenameError::Index(text) => {
                out.append(text.as_str());
            },
            RenameError::DuplicateDestination(p) => {
                out.append("duplicate rename proposal for '");
                out.append(paths::display(p).as_str());
                out.append("'");
            },
            RenameError::DestinationExists(p) => {
                out.append("file path '");
                out.append(paths::display(p).as_str());
                out.append("' already exists");
            },
        }
        assert(out@ =~= self@.message());
        out
    }
}

} // verus!
