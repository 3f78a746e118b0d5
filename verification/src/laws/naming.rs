//! What holds of the names that files get.
use crate::candidate;
use crate::candidate::CandidatePathView;
use crate::entity::{Episode, MediaEntity};
use crate::laws::texts;
use crate::text;
use vstd::prelude::*;

verus! {

/// The season's number of an episode, or zero where it has none.
pub open spec fn season_of(ep: Episode) -> nat {
    match ep.season {
        Some(n) => n as nat,
        None => 0,
    }
}

/// The number of an episode within its season, or zero where it has none.
pub open spec fn number_of(ep: Episode) -> nat {
    match ep.episode {
        Some(n) => n as nat,
        None => 0,
    }
}

/// Whether a name is `S` and digits, `E` and digits, a dash and a title.
pub open spec fn episode_form(
    name: Seq<char>,
    season: Seq<char>,
    number: Seq<char>,
    title: Seq<char>,
) -> bool {
    name == seq!['S'] + season + seq!['E'] + number + seq![' ', '-', ' '] + title
}

/// The name of an episode can be read back: it is `S` and at least two digits of the
/// season's value, `E` and at least two digits of the episode's, a dash, and the title.
pub proof fn law_an_episode_is_named_by_its_numbers(entity: MediaEntity, ep: Episode)
    requires
        entity.episode == Some(ep),
    ensures
        exists|s: Seq<char>, t: Seq<char>| #[trigger]
            episode_form(candidate::entity_name(entity), s, t, entity.title.title@)
                && texts::digits_of(s, season_of(ep), 2) && texts::digits_of(
                t,
                number_of(ep),
                2,
            ),
{
    reveal_strlit("S");
    reveal_strlit("E");
    reveal_strlit(" - ");
    assert("S"@ =~= seq!['S']);
    assert("E"@ =~= seq!['E']);
    assert(" - "@ =~= seq![' ', '-', ' ']);
    let s = text::two_digits(season_of(ep));
    let t = text::two_digits(number_of(ep));
    texts::law_two_digits_have_the_value(season_of(ep));
    texts::law_two_digits_have_the_value(number_of(ep));
    assert(episode_form(candidate::entity_name(entity), s, t, entity.title.title@));
}

/// Episodes of the same title get the same name only if they have the same numbers.
pub proof fn law_episode_names_tell_numbers_apart(
    a: MediaEntity,
    b: MediaEntity,
    x: Episode,
    y: Episode,
)
    requires
        a.episode == Some(x),
        b.episode == Some(y),
        a.title.title@ == b.title.title@,
        candidate::entity_name(a) == candidate::entity_name(b),
    ensures
        season_of(x) == season_of(y),
        number_of(x) == number_of(y),
{
    law_an_episode_is_named_by_its_numbers(a, x);
    law_an_episode_is_named_by_its_numbers(b, y);
    let name = candidate::entity_name(a);
    let title = a.title.title@;
    let (s, t) = choose|s: Seq<char>, t: Seq<char>| #[trigger]
        episode_form(name, s, t, title) && texts::digits_of(s, season_of(x), 2)
            && texts::digits_of(t, number_of(x), 2);
    let (u, v) = choose|u: Seq<char>, v: Seq<char>| #[trigger]
        episode_form(name, u, v, title) && texts::digits_of(u, season_of(y), 2)
            && texts::digits_of(v, number_of(y), 2);
    assert(name[1 + s.len() as int] == 'E');
    assert(name[1 + u.len() as int] == 'E');
    assert(s.len() == u.len()) by {
        if s.len() < u.len() {
            assert(name[1 + s.len() as int] == u[s.len() as int]);
        } else if u.len() < s.len() {
            assert(name[1 + u.len() as int] == s[u.len() as int]);
        }
    }
    assert(name.len() == 5 + s.len() + t.len() + title.len());
    assert(name.len() == 5 + u.len() + v.len() + title.len());
    assert(s =~= u) by {
        assert forall|i: int| 0 <= i < s.len() implies s[i] == u[i] by {
            assert(name[1 + i] == s[i]);
            assert(name[1 + i] == u[i]);
        }
    }
    assert(t =~= v) by {
        assert forall|i: int| 0 <= i < t.len() implies t[i] == v[i] by {
            assert(name[2 + s.len() + i] == t[i]);
            assert(name[2 + s.len() + i] == v[i]);
        }
    }
}

/// What is no episode is named by its title and, where its year is known, a space and the
/// year's digits in brackets.
pub proof fn law_a_title_is_named_with_its_year(entity: MediaEntity)
    requires
        entity.episode is None,
    ensures
        match entity.title.start_year {
            None => candidate::entity_name(entity) == entity.title.title@,
            Some(year) => exists|d: Seq<char>| #[trigger]
                texts::digits_of(d, year as nat, 1) && candidate::entity_name(entity)
                    == entity.title.title@ + seq![' ', '('] + d + seq![')'],
        },
{
    if let Some(year) = entity.title.start_year {
        reveal_strlit(" (");
        reveal_strlit(")");
        assert(" ("@ =~= seq![' ', '(']);
        assert(")"@ =~= seq![')']);
        texts::law_a_decimal_has_the_value(year as nat);
    }
}

/// Titles get the same name with two years only if the years are the same.
pub proof fn law_title_names_tell_years_apart(a: MediaEntity, b: MediaEntity, x: u32, y: u32)
    requires
        a.episode is None,
        b.episode is None,
        a.title.start_year == Some(x),
        b.title.start_year == Some(y),
        a.title.title@ == b.title.title@,
        candidate::entity_name(a) == candidate::entity_name(b),
    ensures
        x == y,
{
    law_a_title_is_named_with_its_year(a);
    law_a_title_is_named_with_its_year(b);
    let name = candidate::entity_name(a);
    let title = a.title.title@;
    let c = choose|d: Seq<char>| #[trigger]
        texts::digits_of(d, x as nat, 1) && name == title + seq![' ', '('] + d + seq![')'];
    let d = choose|d: Seq<char>| #[trigger]
        texts::digits_of(d, y as nat, 1) && name == title + seq![' ', '('] + d + seq![')'];
    assert(name.len() == title.len() + 3 + c.len());
    assert(name.len() == title.len() + 3 + d.len());
    assert(c =~= d) by {
        assert forall|i: int| 0 <= i < c.len() implies c[i] == d[i] by {
            assert(name[title.len() + 2 + i] == c[i]);
            assert(name[title.len() + 2 + i] == d[i]);
        }
    }
}

/// A file's new name is the entity's, with a dot and the extension that the file had. What
/// had no extension gets none.
pub proof fn law_a_new_name_ends_in_the_extension(parts: CandidatePathView, entity: MediaEntity)
    ensures
        match parts.ext {
            None => parts.new_name(entity) == candidate::entity_name(entity),
            Some(ext) => parts.new_name(entity) == candidate::entity_name(entity) + seq!['.'] + ext,
        },
        match parts.ext {
            None => parts.name() == parts.base_name,
            Some(ext) => parts.name() == parts.base_name + seq!['.'] + ext,
        },
{
    reveal_strlit(".");
    assert("."@ =~= seq!['.']);
}

} // verus!
