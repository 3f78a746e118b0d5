//! What a source path tells about the entity that the file holds.
use crate::entity::MediaEntity;
use crate::error;
use crate::error::{RenameError, RenameErrorView};
use crate::paths;
use crate::patterns;
use crate::patterns::{Capture, CaptureView};
use crate::text;
use std::path::PathBuf;
use vstd::prelude::*;
use vstd::string::*;
use vstd::utf8::*;

verus! {

/// A source path with what was read off it, which helps to find the entity that the
/// file holds.
#[derive(Debug)]
pub struct Candidate {
    /// The path, in its parts.
    pub path: CandidatePath,
    /// What the path seems to be.
    pub kind: CandidateKind,
}

/// A source path in parts that do not overlap. Only the base name is read; the parent
/// and the extension are there to put a new path together.
#[derive(Debug)]
pub struct CandidatePath {
    /// The parent of the path, such as `/foo` in `/foo/bar.mkv`.
    pub parent: PathBuf,
    /// The name without its extension, such as `bar` in `/foo/bar.mkv`.
    pub base_name: String,
    /// The extension without its dot, such as `mkv` in `/foo/bar.mkv`.
    pub ext: Option<String>,
}

/// What a path seems to be.
#[derive(Debug)]
pub enum CandidateKind {
    /// Anything that has a year in its name.
    Any(CandidateAny),
    /// An episode of a TV show.
    Episode(CandidateEpisode),
    /// Anything else. Such a path can only be renamed after an entity that is given.
    Unknown,
}

/// A path with a year in its name. What stands before the year is taken for the title.
#[derive(Debug)]
pub struct CandidateAny {
    /// The presumed title.
    pub title: String,
    /// The presumed year.
    pub year: u32,
}

/// A path that looks like an episode's. What stands before the season is taken for the
/// title of the TV show.
#[derive(Debug)]
pub struct CandidateEpisode {
    /// The presumed title of the TV show.
    pub tvshow_title: String,
    /// The number of the season.
    pub season: u32,
    /// The number of the episode.
    pub episode: u32,
}

/// A candidate as a mathematical value.
pub struct CandidateView {
    pub path: CandidatePathView,
    pub kind: CandidateKindView,
}

/// A path in its parts as a mathematical value. The parent is given by its bytes.
pub struct CandidatePathView {
    pub parent: Seq<u8>,
    pub base_name: Seq<char>,
    pub ext: Option<Seq<char>>,
}

/// What a path seems to be, as a mathematical value.
pub enum CandidateKindView {
    Any(CandidateAnyView),
    Episode(CandidateEpisodeView),
    Unknown,
}

/// A title and a year as a mathematical value.
pub struct CandidateAnyView {
    pub title: Seq<char>,
    pub year: u32,
}

/// An episode's numbers and its TV show's title as a mathematical value.
pub struct CandidateEpisodeView {
    pub tvshow_title: Seq<char>,
    pub season: u32,
    pub episode: u32,
}

impl CandidateView {
    /// Whether the title that was read off the base name begins it.
    pub open spec fn title_leads(self) -> bool {
        match self.kind {
            CandidateKindView::Any(x) => x.title.is_prefix_of(self.path.base_name),
            CandidateKindView::Episode(x) => x.tvshow_title.is_prefix_of(self.path.base_name),
            CandidateKindView::Unknown => true,
        }
    }
}

impl View for Candidate {
    type V = CandidateView;

    open spec fn view(&self) -> CandidateView {
        CandidateView { path: self.path@, kind: self.kind@ }
    }
}

impl View for CandidatePath {
    type V = CandidatePathView;

    open spec fn view(&self) -> CandidatePathView {
        CandidatePathView {
            parent: paths::path_bytes(self.parent),
            base_name: self.base_name@,
            ext: match self.ext {
                Some(ext) => Some(ext@),
                None => None,
            },
        }
    }
}

impl View for CandidateKind {
    type V = CandidateKindView;

    open spec fn view(&self) -> CandidateKindView {
        match self {
            CandidateKind::Any(x) => CandidateKindView::Any(x@),
            CandidateKind::Episode(x) => CandidateKindView::Episode(x@),
            CandidateKind::Unknown => CandidateKindView::Unknown,
        }
    }
}

impl View for CandidateAny {
    type V = CandidateAnyView;

    open spec fn view(&self) -> CandidateAnyView {
        CandidateAnyView { title: self.title@, year: self.year }
    }
}

impl View for CandidateEpisode {
    type V = CandidateEpisodeView;

    open spec fn view(&self) -> CandidateEpisodeView {
        CandidateEpisodeView {
            tvshow_title: self.tvshow_title@,
            season: self.season,
            episode: self.episode,
        }
    }
}

/// A name in its parts: a directory's has no extension.
pub open spec fn name_parts(parent: Seq<u8>, name: Seq<char>, is_dir: bool) -> CandidatePathView {
    let (base_name, ext) = if is_dir {
        (name, None)
    } else {
        text::split_name(name)
    };
    CandidatePathView { parent, base_name, ext }
}

/// A path in its parts, or why it cannot be split, given its parent and its name.
pub open spec fn path_parts(
    path: Seq<u8>,
    parent: Option<Seq<u8>>,
    name: Option<Seq<u8>>,
    is_dir: bool,
) -> Result<CandidatePathView, RenameErrorView> {
    match parent {
        None => Err(RenameErrorView::NoParent(path)),
        Some(parent) => match name {
            None => Err(RenameErrorView::NoFileName(path)),
            Some(name) => if valid_utf8(name) {
                Ok(name_parts(parent, decode_utf8(name), is_dir))
            } else {
                Err(RenameErrorView::NotUnicode(path))
            },
        },
    }
}

/// The base name that an entity gives: an episode's numbers and title, or else the
/// title with the year where that is known.
pub open spec fn entity_name(entity: MediaEntity) -> Seq<char> {
    match entity.episode {
        Some(ep) => "S"@ + text::two_digits(number_or_zero(ep.season)) + "E"@ + text::two_digits(
            number_or_zero(ep.episode),
        ) + " - "@ + entity.title.title@,
        None => match entity.title.start_year {
            None => entity.title.title@,
            Some(year) => entity.title.title@ + " ("@ + text::decimal(year as nat) + ")"@,
        },
    }
}

/// The number, or zero where there is none.
pub open spec fn number_or_zero(n: Option<u32>) -> nat {
    match n {
        Some(n) => n as nat,
        None => 0,
    }
}

impl CandidatePathView {
    /// The name that the parts make up.
    pub open spec fn name(self) -> Seq<char> {
        match self.ext {
            None => self.base_name,
            Some(ext) => self.base_name + "."@ + ext,
        }
    }

    /// The name that a file of this extension gets after an entity.
    pub open spec fn new_name(self, entity: MediaEntity) -> Seq<char> {
        match self.ext {
            None => entity_name(entity),
            Some(ext) => entity_name(entity) + "."@ + ext,
        }
    }
}

impl CandidatePathView {
    /// Whether the name that the file gets after an entity splits at the extension that
    /// the file had: it does where that has no dot, and where a file without extension
    /// gets no dot from the entity's name.
    pub open spec fn splits_alike(self, entity: MediaEntity, is_dir: bool) -> bool {
        match self.ext {
            Some(ext) => !is_dir && !ext.contains('.'),
            None => is_dir || !entity_name(entity).contains('.'),
        }
    }

    /// Whether a path ends in the name that the file gets after an entity, and goes before
    /// that like the file's own. A path that begins with two separators need not: on
    /// Windows, what is joined to it may turn out to be the name of a share.
    pub open spec fn ends_in_new_name(self, path: Seq<u8>, entity: MediaEntity) -> bool {
        &&& paths::name_bytes(path) == Some(encode_utf8(self.new_name(entity)))
        &&& paths::plain_start(self.parent) || paths::parent_bytes(path) == Some(self.parent)
    }

    /// Whether a path has these parts but for the base name, and gets itself after an
    /// entity.
    pub open spec fn kept_by(self, path: Seq<u8>, entity: MediaEntity, is_dir: bool) -> bool {
        match path_parts(path, paths::parent_bytes(path), paths::name_bytes(path), is_dir) {
            Ok(parts) => {
                &&& parts.ext == self.ext
                &&& paths::same_path(parts.parent, self.parent)
                &&& paths::same_path(
                    path,
                    paths::joined_bytes(parts.parent, parts.new_name(entity)),
                )
            },
            Err(_) => false,
        }
    }
}

/// The parts of a name make it up.
proof fn lemma_parts_make_the_name(parent: Seq<u8>, name: Seq<char>, is_dir: bool)
    ensures
        name_parts(parent, name, is_dir).name() == name,
{
    name.index_of_last_ensures('.');
    reveal_strlit(".");
    assert("."@ =~= seq!['.']);
    if let Some(i) = name.index_of_last('.') {
        assert(name.take(i) + seq!['.'] + name.skip(i + 1) =~= name);
    }
}

/// A new name splits into the entity's name and the extension that the file had.
pub proof fn lemma_new_name_splits(
    parts: CandidatePathView,
    parent: Seq<u8>,
    entity: MediaEntity,
    is_dir: bool,
)
    requires
        parts.splits_alike(entity, is_dir),
    ensures
        name_parts(parent, parts.new_name(entity), is_dir) == (CandidatePathView {
            parent,
            base_name: entity_name(entity),
            ext: parts.ext,
        }),
{
    let base = entity_name(entity);
    let new = parts.new_name(entity);
    new.index_of_last_ensures('.');
    if let Some(ext) = parts.ext {
        reveal_strlit(".");
        assert("."@ =~= seq!['.']);
        assert(new[base.len() as int] == '.');
        assert(new.contains('.'));
        let i = new.index_of_last('.')->0;
        assert(i == base.len()) by {
            if i > base.len() {
                assert(new[i] == ext[i - base.len() - 1]);
                assert(ext.contains('.'));
            }
        }
        assert(new.take(i) =~= base);
        assert(new.skip(i + 1) =~= ext);
    }
}

impl CandidatePath {
    /// Splits a source path into its parts, or says why it cannot be split. Whether the
    /// path is a directory is for the caller to find out.
    ///
    /// The parts make up the path again, where its name is a single file name.
    pub fn from_path(path: &PathBuf, is_dir: bool) -> (r: Result<CandidatePath, RenameError>)
        ensures
            error::viewed(r) == path_parts(
                paths::path_bytes(*path),
                paths::parent_bytes(paths::path_bytes(*path)),
                paths::name_bytes(paths::path_bytes(*path)),
                is_dir,
            ),
            r matches Ok(c) ==> (paths::plain_start(paths::path_bytes(*path)) && paths::lone_name(
                c@.name(),
            ) ==> paths::same_path(
                paths::path_bytes(*path),
                paths::joined_bytes(c@.parent, c@.name()),
            )),
    {
        let parent = paths::parent(path);
        let name = paths::file_name(path);
        proof {
            if parent is Some && name is Some {
                lemma_parts_make_the_name(
                    paths::path_bytes(parent->0),
                    decode_utf8(paths::path_bytes(name->0)),
                    is_dir,
                );
            }
        }
        CandidatePath::from_parts(path, parent, name, is_dir)
    }

    /// Puts together the parts of a path from its parent and its name, or says which of
    /// the two is missing or that the name is not UTF-8.
    pub fn from_parts(
        path: &PathBuf,
        parent: Option<PathBuf>,
        name: Option<PathBuf>,
        is_dir: bool,
    ) -> (r: Result<CandidatePath, RenameError>)
        ensures
            error::viewed(r) == path_parts(
                paths::path_bytes(*path),
                paths::optional_bytes(parent),
                paths::optional_bytes(name),
                is_dir,
            ),
    {
        let parent = match parent {
            None => return Err(RenameError::NoParent(path.clone())),
            Some(parent) => parent,
        };
        let name_os = match name {
            None => return Err(RenameError::NoFileName(path.clone())),
            Some(name) => name,
        };
        let name = match paths::to_str(&name_os) {
            None => return Err(RenameError::NotUnicode(path.clone())),
            Some(name) => name,
        };
        proof {
            encode_utf8_decode_utf8(name@);
        }
        Ok(CandidatePath::from_name(parent, name, is_dir))
    }

    /// The parts of a path, given its parent and its name as text.
    pub fn from_name(parent: PathBuf, name: &str, is_dir: bool) -> (r: CandidatePath)
        ensures
            r@ == name_parts(paths::path_bytes(parent), name@, is_dir),
    {
        let (base_name, ext) = if is_dir {
            (name.to_owned(), None)
        } else {
            text::split_at_last_dot(name)
        };
        CandidatePath { parent, base_name, ext }
    }

    /// The name that the file gets after an entity: the entity's name in place of the
    /// base name, with the extension kept.
    pub fn new_name(&self, entity: &MediaEntity) -> (r: String)
        ensures
            r@ == self@.new_name(*entity),
    {
        let mut out = String::new();
        match &entity.episode {
            Some(ep) => {
                out.append("S");
                text::push_two_digits(&mut out, ep.season.unwrap_or(0));
                out.append("E");
                text::push_two_digits(&mut out, ep.episode.unwrap_or(0));
                out.append(" - ");
                out.append(entity.title.title.as_str());
            },
            None => {
                out.append(entity.title.title.as_str());
                if let Some(year) = entity.title.start_year {
                    out.append(" (");
                    text::push_decimal(&mut out, year);
                    out.append(")");
                }
            },
        }
        assert(out@ =~= entity_name(*entity));
        if let Some(ext) = &self.ext {
            out.append(".");
            out.append(ext.as_str());
        }
        out
    }

    /// The path that the file gets after an entity.
    ///
    /// A file that is renamed once is not renamed again: where the new path ends in the new
    /// name, as it does where that is a single file name, and the new name splits at the
    /// same extension, the new path gets itself after the same entity.
    pub fn to_path(&self, entity: &MediaEntity) -> (r: PathBuf)
        ensures
            paths::path_bytes(r) == paths::joined_bytes(
                self@.parent,
                self@.new_name(*entity),
            ),
            paths::plain_start(self@.parent) && paths::lone_name(self@.new_name(*entity))
                ==> self@.ends_in_new_name(paths::path_bytes(r), *entity),
            forall|is_dir: bool|
                self@.ends_in_new_name(paths::path_bytes(r), *entity) && self@.splits_alike(
                    *entity,
                    is_dir,
                ) ==> #[trigger] self@.kept_by(paths::path_bytes(r), *entity, is_dir),
    {
        let name = self.new_name(entity);
        let path = paths::join(&self.parent, name.as_str());
        proof {
            encode_utf8_valid_utf8(name@);
            encode_utf8_decode_utf8(name@);
            assert forall|is_dir: bool|
                self@.ends_in_new_name(paths::path_bytes(path), *entity) && self@.splits_alike(
                    *entity,
                    is_dir,
                ) implies #[trigger] self@.kept_by(paths::path_bytes(path), *entity, is_dir) by {
                let parent = paths::parent_bytes(paths::path_bytes(path))->0;
                lemma_new_name_splits(self@, parent, *entity, is_dir);
            }
        }
        path
    }
}

/// The text before a byte offset.
pub open spec fn text_before(text: Seq<char>, start: nat) -> Seq<char> {
    decode_utf8(encode_utf8(text).subrange(0, start as int))
}

/// The text before a capture begins the text that it stands in, and what was captured
/// follows.
pub proof fn lemma_text_before(text: Seq<char>, start: nat, part: Seq<char>)
    requires
        patterns::stands_at(text, start, part),
    ensures
        (text_before(text, start) + part).is_prefix_of(text),
        text_before(text, start).is_prefix_of(text),
        encode_utf8(text_before(text, start)).len() == start,
{
    let bytes = encode_utf8(text);
    let end = (start + encode_utf8(part).len()) as int;
    encode_utf8_valid_utf8(text);
    encode_utf8_decode_utf8(text);
    encode_utf8_decode_utf8(part);
    valid_utf8_split(bytes, start as int);
    valid_utf8_split(bytes, end);
    decode_utf8_split(bytes, end);
    let head = bytes.subrange(0, start as int);
    let upto = bytes.subrange(0, end);
    assert(upto =~= head + encode_utf8(part));
    decode_utf8_encode_utf8(head);
    decode_utf8_encode_utf8(upto);
    let before = text_before(text, start);
    lemma_encode_concat(before, part);
    assert(encode_utf8(before + part) == upto);
    encode_utf8_decode_utf8(before + part);
    assert(decode_utf8(upto) == before + part);
    assert(before.is_prefix_of(before + part));
}

/// Texts are encoded one after the other.
proof fn lemma_encode_concat(a: Seq<char>, b: Seq<char>)
    ensures
        encode_utf8(a + b) == encode_utf8(a) + encode_utf8(b),
    decreases a.len(),
{
    if a.len() == 0 {
        assert(a + b =~= b);
    } else {
        assert((a + b).drop_first() =~= a.drop_first() + b);
        lemma_encode_concat(a.drop_first(), b);
        assert(encode_utf8(a + b) =~= encode_utf8(a) + encode_utf8(b));
    }
}

/// The number that a captured text writes, or why it writes none.
pub open spec fn captured_number(part: Seq<char>) -> Result<u32, RenameErrorView> {
    match text::number(part) {
        Some(n) => Ok(n),
        None => Err(RenameErrorView::Number(text::number_fault(part))),
    }
}

/// The episode that a base name tells of, given what the season's and the episode's
/// pattern capture in it.
pub open spec fn episode_of(
    name: Seq<char>,
    season: CaptureView,
    season_pattern: Seq<char>,
    episode: CaptureView,
    episode_pattern: Seq<char>,
) -> Result<Option<CandidateEpisodeView>, RenameErrorView> {
    if season is NoMatch || episode is NoMatch {
        Ok(None)
    } else {
        match (season, episode) {
            (CaptureView::Group(start, season), CaptureView::Group(_, episode)) => match (
                captured_number(season),
                captured_number(episode),
            ) {
                (Err(e), _) => Err(e),
                (_, Err(e)) => Err(e),
                (Ok(season), Ok(episode)) => Ok(
                    Some(
                        CandidateEpisodeView {
                            tvshow_title: text_before(name, start),
                            season,
                            episode,
                        },
                    ),
                ),
            },
            (CaptureView::Group(_, _), _) => Err(
                RenameErrorView::MissingGroup { group: "episode"@, pattern: episode_pattern },
            ),
            _ => Err(RenameErrorView::MissingGroup { group: "season"@, pattern: season_pattern }),
        }
    }
}

/// What a base name that tells of no episode seems to be, given what the year's pattern
/// captures in it.
pub open spec fn titled_of(
    name: Seq<char>,
    year: CaptureView,
    year_pattern: Seq<char>,
) -> Result<CandidateKindView, RenameErrorView> {
    match year {
        CaptureView::NoMatch => Ok(CandidateKindView::Unknown),
        CaptureView::NoGroup => Err(
            RenameErrorView::MissingGroup { group: "year"@, pattern: year_pattern },
        ),
        CaptureView::Group(start, year) => match captured_number(year) {
            Err(e) => Err(e),
            Ok(year) => Ok(
                CandidateKindView::Any(
                    CandidateAnyView { title: text_before(name, start), year },
                ),
            ),
        },
    }
}

/// The number that a captured text writes.
fn read_number(part: &str) -> (r: Result<u32, RenameError>)
    ensures
        error::viewed(r) == captured_number(part@),
{
    match text::parse_number(part) {
        Ok(n) => Ok(n),
        Err(e) => Err(RenameError::Number(e)),
    }
}

/// The text before a byte offset.
fn before(text: &str, start: usize) -> (r: String)
    requires
        is_char_boundary(encode_utf8(text@), start as int),
    ensures
        r@ == text_before(text@, start as nat),
{
    let (head, _) = text.split_at(start);
    proof {
        encode_utf8_decode_utf8(head@);
    }
    head.to_owned()
}

impl CandidateEpisode {
    /// The episode that a base name tells of, given what the season's and the episode's
    /// pattern capture in it: none where one of them does not match, an error where one
    /// of them matches without the group that is to be read, or where what was captured
    /// is no number.
    pub fn from_captures(
        name: &str,
        season: Capture,
        season_pattern: &str,
        episode: Capture,
        episode_pattern: &str,
    ) -> (r: Result<Option<CandidateEpisode>, RenameError>)
        requires
            season@.cuts(name@),
        ensures
            error::viewed_option(r) == episode_of(
                name@,
                season@,
                season_pattern@,
                episode@,
                episode_pattern@,
            ),
    {
        if let Capture::NoMatch = season {
            return Ok(None);
        }
        if let Capture::NoMatch = episode {
            return Ok(None);
        }
        let mat_season = match season {
            Capture::Group(g) => g,
            _ => return Err(
                RenameError::MissingGroup {
                    group: "season".to_owned(),
                    pattern: season_pattern.to_owned(),
                },
            ),
        };
        let mat_episode = match episode {
            Capture::Group(g) => g,
            _ => return Err(
                RenameError::MissingGroup {
                    group: "episode".to_owned(),
                    pattern: episode_pattern.to_owned(),
                },
            ),
        };
        let tvshow_title = before(name, mat_season.start);
        let season = match read_number(mat_season.text.as_str()) {
            Err(e) => return Err(e),
            Ok(n) => n,
        };
        let episode = match read_number(mat_episode.text.as_str()) {
            Err(e) => return Err(e),
            Ok(n) => n,
        };
        Ok(Some(CandidateEpisode { tvshow_title, season, episode }))
    }
}

impl CandidateKind {
    /// What a base name that tells of no episode seems to be, given what the year's
    /// pattern captures in it: unknown where it does not match, an error where it
    /// matches without the group that is to be read, or where what was captured is no
    /// number.
    pub fn from_year(name: &str, year: Capture, year_pattern: &str) -> (r: Result<
        CandidateKind,
        RenameError,
    >)
        requires
            year@.cuts(name@),
        ensures
            error::viewed(r) == titled_of(name@, year@, year_pattern@),
    {
        let mat_year = match year {
            Capture::NoMatch => return Ok(CandidateKind::Unknown),
            Capture::NoGroup => return Err(
                RenameError::MissingGroup {
                    group: "year".to_owned(),
                    pattern: year_pattern.to_owned(),
                },
            ),
            Capture::Group(g) => g,
        };
        let year = match read_number(mat_year.text.as_str()) {
            Err(e) => return Err(e),
            Ok(n) => n,
        };
        let title = before(name, mat_year.start);
        Ok(CandidateKind::Any(CandidateAny { title, year }))
    }
}

} // verus!
