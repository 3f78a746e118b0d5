use imdb_rename::candidate::{CandidateAny, CandidateEpisode, CandidateKind};
use imdb_rename::entity::{Episode, MediaEntity, Pick, Scored, SearchResults, Title, TitleKind};
use imdb_rename::error::RenameError;
use imdb_rename::query::{Query, QueryCache};
use imdb_rename::renamer::{EpisodeRequest, Renamer, RenamerBuilder, Step};
use std::path::PathBuf;

fn entity(id: &str, kind: TitleKind) -> MediaEntity {
    MediaEntity {
        title: Title {
            id: id.to_string(),
            kind,
            title: "A Title".to_string(),
            start_year: Some(1999),
        },
        episode: None,
    }
}

fn listed(id: &str, number: Option<u32>) -> Episode {
    Episode { id: id.to_string(), season: Some(1), episode: number }
}

fn several(ids: &[&str]) -> SearchResults {
    let hit = |id: &&str| Scored {
        score: 1.0f64.to_bits(),
        entity: entity(id, TitleKind::Movie),
    };
    SearchResults { hits: ids.iter().map(hit).collect() }
}

fn results(id: &str) -> SearchResults {
    several(&[id])
}

fn any(title: &str, year: u32) -> CandidateKind {
    CandidateKind::Any(CandidateAny { title: title.to_string(), year })
}

fn episode(title: &str, season: u32, number: u32) -> CandidateKind {
    CandidateKind::Episode(CandidateEpisode {
        tvshow_title: title.to_string(),
        season,
        episode: number,
    })
}

fn query(name: &str) -> Query {
    Query {
        name: name.to_string(),
        year_ge: None,
        year_le: None,
        kinds: vec![TitleKind::Movie],
        votes_ge: None,
    }
}

fn forced(kind: TitleKind) -> Renamer {
    let mut b = RenamerBuilder::new();
    b.force(entity("tt7", kind));
    b.build().unwrap()
}

fn searches(step: Step) -> Query {
    match step {
        Step::Search(q) => q,
        other => panic!("{:?}", other),
    }
}

fn found(step: Step) -> String {
    match step {
        Step::Found(e) => e.title.id,
        other => panic!("{:?}", other),
    }
}

fn failure(step: Step) -> RenameError {
    match step {
        Step::Failed(e) => e,
        other => panic!("{:?}", other),
    }
}

#[test]
fn a_title_and_a_year_are_searched_for() {
    let r = RenamerBuilder::new().build().unwrap();
    let q = searches(r.find(&any("Citizen.Kane.", 1941)));
    assert_eq!(q.name, "Citizen Kane");
    assert_eq!((q.year_ge, q.year_le), (Some(1941), Some(1941)));
    assert_eq!(q.votes_ge, Some(1000));
    assert_eq!(
        q.kinds,
        vec![
            TitleKind::Movie,
            TitleKind::Short,
            TitleKind::TVMiniSeries,
            TitleKind::TVMovie,
            TitleKind::TVSeries,
            TitleKind::TVShort,
            TitleKind::TVSpecial,
            TitleKind::Video,
        ]
    );
}

#[test]
fn a_tv_show_is_searched_for() {
    let mut b = RenamerBuilder::new();
    b.min_votes(5);
    let r = b.build().unwrap();
    let q = searches(r.find(&episode("The Simpsons ", 1, 2)));
    assert_eq!(q.name, "The Simpsons");
    assert_eq!((q.year_ge, q.year_le), (None, None));
    assert_eq!(q.votes_ge, Some(5));
    assert_eq!(q.kinds, vec![TitleKind::TVMiniSeries, TitleKind::TVSeries]);
}

#[test]
fn a_path_leads_to_its_first_step() {
    let r = RenamerBuilder::new().build().unwrap();
    let (c, step) = r.propose_one(&PathBuf::from("/m/Heat.1995.mkv"), false).unwrap();
    assert_eq!(c.path.base_name, "Heat.1995");
    assert_eq!(searches(step).name, "Heat");
    let p = c.proposal(&PathBuf::from("/m/Heat.1995.mkv"), &entity("tt1", TitleKind::Movie));
    assert_eq!(p.src, PathBuf::from("/m/Heat.1995.mkv"));
    assert_eq!(p.dst, PathBuf::from("/m/A Title (1999).mkv"));
    assert!(r.propose_one(&PathBuf::from("/"), true).is_err());
}

#[test]
fn a_given_entity_is_used() {
    let r = forced(TitleKind::TVSeries);
    assert_eq!(found(r.find(&any("x", 1))), "tt7");
    assert_eq!(found(r.find(&CandidateKind::Unknown)), "tt7");
    match r.find(&episode("x", 3, 4)) {
        Step::ListEpisodes(e) => {
            assert_eq!((e.tvshow_id.as_str(), e.season, e.episode), ("tt7", 3, 4))
        }
        other => panic!("{:?}", other),
    }
    assert!(matches!(
        forced(TitleKind::TVMiniSeries).find(&episode("x", 3, 4)),
        Step::ListEpisodes(_)
    ));
}

#[test]
fn a_given_entity_must_be_a_tv_show_for_an_episode() {
    let e = failure(forced(TitleKind::Movie).find(&episode("x", 3, 4)));
    assert_eq!(e.message(), "expected TV show to rename episode, but found movie");
    let e = failure(forced(TitleKind::VideoGame).find(&episode("x", 3, 4)));
    assert_eq!(e.message(), "expected TV show to rename episode, but found videoGame");
}

#[test]
fn nothing_known_and_nothing_given_is_an_error() {
    let e = failure(RenamerBuilder::new().build().unwrap().find(&CandidateKind::Unknown));
    assert!(matches!(e, RenameError::NoOverride));
    assert_eq!(
        e.message(),
        "could not parse file path and there is no override set via -q/--query"
    );
}

#[test]
fn a_movie_is_found_by_asking() {
    let mut r = RenamerBuilder::new().build().unwrap();
    let kind = any("Heat", 1995);
    let q = searches(r.find(&kind));
    let q = match r.searched(q, Ok(several(&["tt1", "tt2"]))) {
        Step::Choose(q) => q,
        other => panic!("{:?}", other),
    };
    assert_eq!(r.results(&q).unwrap().hits[0].entity.title.id, "tt1");
    let q = match r.compared(&kind, q, false) {
        Step::Ask(q) => q,
        other => panic!("{:?}", other),
    };
    assert!(matches!(r.find(&kind), Step::Choose(_)));
    let chosen = entity("tt2", TitleKind::Movie);
    assert_eq!(found(r.chosen(&kind, q, Ok(chosen))), "tt2");
    assert_eq!(found(r.find(&kind)), "tt2");
}

#[test]
fn a_clear_result_is_taken_unasked() {
    let mut r = RenamerBuilder::new().build().unwrap();
    let kind = any("Heat", 1995);
    r.searched(query("a"), Ok(several(&["tt1", "tt2"])));
    assert_eq!(found(r.compared(&kind, query("a"), true)), "tt1");
    assert_eq!(found(r.choose_one(query("a"))), "tt1");
    r.searched(query("b"), Ok(results("tt3")));
    assert_eq!(found(r.compared(&kind, query("b"), false)), "tt3");
    r.searched(query("c"), Ok(several(&["tt4", "tt5"])));
    match r.compared(&episode("x", 3, 4), query("c"), true) {
        Step::ListEpisodes(e) => assert_eq!(e.tvshow_id, "tt4"),
        other => panic!("{:?}", other),
    }
}

#[test]
fn no_result_is_an_error() {
    let mut r = RenamerBuilder::new().build().unwrap();
    let kind = any("Heat", 1995);
    r.searched(query("a"), Ok(several(&[])));
    let e = failure(r.compared(&kind, query("a"), true));
    assert!(matches!(e, RenameError::NoResults));
    assert_eq!(e.message(), "no search results");
    assert!(matches!(r.choose_one(query("a")), Step::Choose(_)));
    assert!(matches!(failure(r.compared(&kind, query("b"), true)), RenameError::NoResults));
}

#[test]
fn results_are_picked_by_their_number() {
    assert!(matches!(several(&[]).pick(true), Pick::Nothing));
    assert!(matches!(results("tt1").pick(false), Pick::Take(e) if e.title.id == "tt1"));
    assert!(matches!(several(&["tt1", "tt2"]).pick(true), Pick::Take(e) if e.title.id == "tt1"));
    assert!(matches!(several(&["tt1", "tt2"]).pick(false), Pick::Ask));
}

#[test]
fn an_episode_is_found_in_its_tv_show() {
    let mut r = RenamerBuilder::new().build().unwrap();
    let kind = episode("The Simpsons", 1, 2);
    let q = searches(r.find(&kind));
    let q = match r.searched(q, Ok(results("tt2"))) {
        Step::Choose(q) => q,
        other => panic!("{:?}", other),
    };
    let request = match r.chosen(&kind, q, Ok(entity("tt2", TitleKind::TVSeries))) {
        Step::ListEpisodes(request) => request,
        other => panic!("{:?}", other),
    };
    assert_eq!(request.tvshow_id, "tt2");
    let episodes = vec![
        listed("e0", None),
        listed("e1", Some(1)),
        listed("e2", Some(2)),
        listed("e3", Some(2)),
    ];
    let id = match request.listed(Ok(episodes)) {
        Step::FetchEntity(id) => id,
        other => panic!("{:?}", other),
    };
    assert_eq!(id, "e2");
    assert_eq!(found(Step::fetched(id, Ok(Some(entity("e2", TitleKind::TVEpisode))))), "e2");
}

#[test]
fn an_episode_may_be_missing() {
    let request = EpisodeRequest { tvshow_id: "tt2".to_string(), season: 1, episode: 23 };
    let e = failure(request.listed(Ok(vec![listed("e1", Some(1)), listed("e0", None)])));
    assert_eq!(e.message(), "could not find S01E23 for TV show tt2");
    let e = failure(Step::fetched("e9".to_string(), Ok(None)));
    assert_eq!(e.message(), "could not find media entity for episode e9");
}

#[test]
fn failures_outside_are_passed_on() {
    let mut r = RenamerBuilder::new().build().unwrap();
    let e = failure(r.searched(query("a"), Err("no search".to_string())));
    assert!(matches!(&e, RenameError::Search(_)));
    assert_eq!(e.message(), "no search");
    assert!(r.results(&query("a")).is_none());
    let e = failure(r.chosen(&any("a", 1), query("a"), Err("no choice".to_string())));
    assert!(matches!(&e, RenameError::Search(_)));
    assert_eq!(e.message(), "no choice");
    assert!(matches!(r.choose_one(query("a")), Step::Search(_)));
    let request = EpisodeRequest { tvshow_id: "tt2".to_string(), season: 1, episode: 23 };
    let e = failure(request.listed(Err("no list".to_string())));
    assert!(matches!(&e, RenameError::Index(_)));
    assert_eq!(e.message(), "no list");
    let e = failure(Step::fetched("e9".to_string(), Err("no entity".to_string())));
    assert!(matches!(&e, RenameError::Index(_)));
    assert_eq!(e.message(), "no entity");
}

#[test]
fn a_query_is_searched_once() {
    let mut r = RenamerBuilder::new().build().unwrap();
    assert!(matches!(r.search(query("a")), Step::Search(_)));
    r.searched(query("a"), Ok(results("tt1")));
    assert!(matches!(r.search(query("a")), Step::Choose(_)));
    assert!(matches!(r.choose_one(query("a")), Step::Choose(_)));
    assert!(matches!(r.search(query("b")), Step::Search(_)));
    r.searched(query("b"), Ok(results("tt2")));
    assert_eq!(r.results(&query("a")).unwrap().hits[0].entity.title.id, "tt1");
    assert_eq!(r.results(&query("b")).unwrap().hits[0].entity.title.id, "tt2");
    assert!(r.results(&query("c")).is_none());
    r.searched(query("a"), Ok(results("tt3")));
    assert!(matches!(r.searched(query("a"), Err("no search".to_string())), Step::Choose(_)));
    assert_eq!(r.results(&query("a")).unwrap().hits[0].entity.title.id, "tt1");
}

#[test]
fn a_choice_is_remembered() {
    let mut r = RenamerBuilder::new().build().unwrap();
    let movie = any("a", 1);
    r.chosen(&movie, query("a"), Ok(entity("tt1", TitleKind::Movie)));
    assert_eq!(found(r.choose_one(query("a"))), "tt1");
    r.chosen(&movie, query("b"), Ok(entity("tt2", TitleKind::Movie)));
    r.searched(query("a"), Ok(results("tt3")));
    assert_eq!(found(r.choose_one(query("a"))), "tt1");
    assert_eq!(found(r.choose_one(query("b"))), "tt2");
    let step = r.chosen(&movie, query("a"), Ok(entity("tt4", TitleKind::Movie)));
    assert_eq!(found(step), "tt1");
    assert_eq!(found(r.chosen(&movie, query("a"), Err("no choice".to_string()))), "tt1");
    assert_eq!(found(r.compared(&movie, query("a"), true)), "tt1");
    assert_eq!(found(r.choose_one(query("a"))), "tt1");
}

#[test]
fn queries_are_told_apart() {
    let full = |name: &str, kinds, votes| Query {
        name: name.to_string(),
        year_ge: Some(1),
        year_le: Some(2),
        kinds,
        votes_ge: votes,
    };
    let q = full("a", vec![TitleKind::Movie], Some(3));
    assert!(q.same(&q.duplicate()));
    assert!(!q.same(&full("b", vec![TitleKind::Movie], Some(3))));
    assert!(!q.same(&full("a", vec![TitleKind::Video], Some(3))));
    assert!(!q.same(&full("a", vec![], Some(3))));
    assert!(!q.same(&full("a", vec![TitleKind::Movie], Some(4))));
    assert!(!q.same(&full("a", vec![TitleKind::Movie], None)));
    let mut later = q.duplicate();
    later.year_le = None;
    assert!(!q.same(&later));
}

#[test]
fn a_cache_keeps_one_value_for_a_query() {
    let mut cache: QueryCache<u32> = QueryCache::new();
    assert!(cache.get(&query("a")).is_none());
    cache.insert(query("a"), 1);
    cache.insert(query("b"), 2);
    cache.insert(query("a"), 3);
    assert_eq!(cache.get(&query("a")), Some(&3));
    assert_eq!(cache.get(&query("b")), Some(&2));
    assert!(cache.get(&query("c")).is_none());
}

#[test]
fn a_pattern_must_compile() {
    let mut b = RenamerBuilder::new();
    b.regex_year("(").regex_season("[");
    let e = b.build().unwrap_err();
    assert!(matches!(&e, RenameError::Pattern(_)));
    // The season's pattern is compiled before the year's.
    assert!(e.message().contains("unclosed character class"));
    b.regex_season("x");
    assert!(b.build().unwrap_err().message().contains("unclosed group"));
    b.regex_year("x").regex_episode(")");
    assert!(b.build().unwrap_err().message().contains("unopened group"));
}

#[test]
fn the_default_configuration() {
    let r = RenamerBuilder::default().build().unwrap();
    assert_eq!(f64::from_bits(r.good_threshold()), 0.25);
    let mut b = RenamerBuilder::new();
    b.good_threshold(0.5f64.to_bits()).min_votes(0);
    let copy = b.clone();
    b.min_votes(9);
    assert_eq!(f64::from_bits(copy.build().unwrap().good_threshold()), 0.5);
    let votes = |b: &RenamerBuilder| searches(b.build().unwrap().find(&any("a", 1))).votes_ge;
    assert_eq!(votes(&copy), Some(0));
    assert_eq!(votes(&b), Some(9));
}

#[test]
fn kinds_have_the_names_of_the_data_files() {
    let kinds = [
        (TitleKind::Movie, "movie", false),
        (TitleKind::Short, "short", false),
        (TitleKind::TVEpisode, "tvEpisode", false),
        (TitleKind::TVMiniSeries, "tvMiniSeries", true),
        (TitleKind::TVMovie, "tvMovie", false),
        (TitleKind::TVSeries, "tvSeries", true),
        (TitleKind::TVShort, "tvShort", false),
        (TitleKind::TVSpecial, "tvSpecial", false),
        (TitleKind::Video, "video", false),
        (TitleKind::VideoGame, "videoGame", false),
    ];
    for (kind, name, series) in kinds {
        assert_eq!((kind.as_str(), kind.is_tv_series()), (name, series));
    }
}
