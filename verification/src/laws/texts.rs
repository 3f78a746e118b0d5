//! What holds of numbers and names as text.
use crate::entity::TitleKind;
use crate::error::RenameErrorView;
use crate::paths;
use crate::patterns;
use crate::text;
use vstd::prelude::*;

verus! {

/// Whether a text is made of decimal digits alone, at least as many as given, and has no
/// more leading zeros than it takes for that.
pub open spec fn digits_of(s: Seq<char>, value: nat, least: nat) -> bool {
    &&& s.len() >= least
    &&& s.len() > 0
    &&& forall|i: int| 0 <= i < s.len() ==> '0' <= #[trigger] s[i] <= '9'
    &&& s.len() > least && s.len() > 1 ==> s[0] != '0'
    &&& text::digits_value(s) == value
}

/// A digit that is appended counts once, and what stands before it ten times as much.
pub proof fn law_digits_count_by_their_place(s: Seq<char>, c: char)
    requires
        '0' <= c <= '9',
    ensures
        text::digits_value(Seq::empty()) == 0,
        text::digits_value(s.push(c)) == text::digits_value(s) * 10 + (c as int - 48),
{
    assert(s.push(c).drop_last() =~= s);
}

/// The decimal of a number is digits without leading zeros that have the number's value.
pub proof fn law_a_decimal_has_the_value(n: nat)
    ensures
        digits_of(text::decimal(n), n, 1),
    decreases n,
{
    if n < 10 {
        let d = text::digit(n);
        assert(text::decimal(n) =~= Seq::<char>::empty().push(d));
        law_digits_count_by_their_place(Seq::empty(), d);
    } else {
        let d = text::digit(n % 10);
        law_a_decimal_has_the_value(n / 10);
        law_digits_count_by_their_place(text::decimal(n / 10), d);
        let s = text::decimal(n);
        assert(s == text::decimal(n / 10).push(d));
        assert forall|i: int| 0 <= i < s.len() implies '0' <= #[trigger] s[i] <= '9' by {
            if i < s.len() - 1 {
                assert(s[i] == text::decimal(n / 10)[i]);
            }
        }
        if text::decimal(n / 10).len() == 1 {
            let first = text::decimal(n / 10);
            assert(first =~= Seq::<char>::empty().push(first[0]));
            law_digits_count_by_their_place(Seq::empty(), first[0]);
        }
    }
}

/// A number of at least two digits is digits that have the number's value, and a leading
/// zero only where there would be a single digit.
pub proof fn law_two_digits_have_the_value(n: nat)
    ensures
        digits_of(text::two_digits(n), n, 2),
{
    law_a_decimal_has_the_value(n);
    let s = text::decimal(n);
    if n < 10 {
        assert(s.len() == 1);
        let t = text::two_digits(n);
        assert(t =~= Seq::<char>::empty().push('0').push(s[0]));
        assert(s =~= Seq::<char>::empty().push(s[0]));
        law_digits_count_by_their_place(Seq::empty(), s[0]);
        law_digits_count_by_their_place(Seq::empty(), '0');
        law_digits_count_by_their_place(Seq::empty().push('0'), s[0]);
    } else {
        if s.len() == 1 {
            assert(s =~= Seq::<char>::empty().push(s[0]));
            law_digits_count_by_their_place(Seq::empty(), s[0]);
        }
    }
}

/// A text is read as a number if and only if it is digits that have the number's value, or
/// a plus sign before such digits.
pub proof fn law_a_number_is_read(s: Seq<char>, n: u32)
    ensures
        text::number(s) == Some(n) <==> exists|digits: Seq<char>|
            (s == digits || s == seq!['+'] + digits) && digits.len() > 0
                && #[trigger] text::digits_value(digits) == n && forall|i: int|
                0 <= i < digits.len() ==> '0' <= #[trigger] digits[i] <= '9',
{
    if text::number(s) == Some(n) {
        let digits = if s[0] == '+' {
            s.skip(1)
        } else {
            s
        };
        assert(s[0] == '+' ==> s =~= seq!['+'] + digits);
        assert(text::digits_value(digits) == n);
    }
    if exists|digits: Seq<char>|
        (s == digits || s == seq!['+'] + digits) && digits.len() > 0
            && #[trigger] text::digits_value(digits) == n && forall|i: int|
            0 <= i < digits.len() ==> '0' <= #[trigger] digits[i] <= '9' {
        let digits = choose|digits: Seq<char>|
            (s == digits || s == seq!['+'] + digits) && digits.len() > 0
                && #[trigger] text::digits_value(digits) == n && forall|i: int|
                0 <= i < digits.len() ==> '0' <= #[trigger] digits[i] <= '9';
        if s == digits {
            assert('0' <= digits[0] <= '9');
        } else {
            assert(s.skip(1) =~= digits);
        }
    }
}

/// A number that was written is read back, with or without a leading zero.
pub proof fn law_a_written_number_is_read_back(n: u32)
    ensures
        text::number(text::decimal(n as nat)) == Some(n),
        text::number(text::two_digits(n as nat)) == Some(n),
{
    law_a_decimal_has_the_value(n as nat);
    law_two_digits_have_the_value(n as nat);
    law_a_number_is_read(text::decimal(n as nat), n);
    law_a_number_is_read(text::two_digits(n as nat), n);
}

/// Whether a text is another one with its dots read as spaces and the white space at both
/// ends gone, and nothing else.
pub open spec fn cleaned(clean: Seq<char>, name: Seq<char>) -> bool {
    &&& clean.len() > 0 ==> !text::white_space(clean[0]) && !text::white_space(clean.last())
    &&& exists|from: int| #[trigger] cleaned_from(clean, name, from)
}

/// Whether a text is what stands in another one from an index on, with its dots read as
/// spaces, and what stands before and after is dots and white space.
pub open spec fn cleaned_from(clean: Seq<char>, name: Seq<char>, from: int) -> bool {
    &&& 0 <= from <= from + clean.len() <= name.len()
    &&& forall|i: int|
        0 <= i < clean.len() ==> #[trigger] clean[i] == if name[from + i] == '.' {
            ' '
        } else {
            name[from + i]
        }
    &&& forall|k: int|
        (0 <= k < from || from + clean.len() <= k < name.len()) ==> #[trigger] name[k] == '.'
            || text::white_space(name[k])
}

/// A name that is searched for is the given one with its dots read as spaces and the white
/// space around it gone.
pub proof fn law_a_name_is_cleaned(name: Seq<char>)
    ensures
        cleaned(text::trim(text::dots_to_spaces(name)), name),
{
    let s = text::dots_to_spaces(name);
    let t = text::trim_start(s);
    let clean = text::trim(s);
    lemma_start(s);
    lemma_end(t);
    let from = choose|k: int|
        0 <= k <= s.len() && #[trigger] s.skip(k) == t && forall|i: int|
            0 <= i < k ==> text::white_space(#[trigger] s[i]);
    let to = choose|k: int|
        0 <= k <= t.len() && #[trigger] t.take(k) == clean && forall|i: int|
            k <= i < t.len() ==> text::white_space(#[trigger] t[i]);
    assert forall|k: int|
        (0 <= k < from || from + clean.len() <= k < name.len()) implies #[trigger] name[k] == '.'
        || text::white_space(name[k]) by {
        if k < from {
            assert(text::white_space(s[k]));
        } else {
            assert(text::white_space(t[k - from]));
        }
    }
    assert forall|i: int| 0 <= i < clean.len() implies #[trigger] clean[i] == if name[from + i]
        == '.' {
        ' '
    } else {
        name[from + i]
    } by {
        assert(clean[i] == t[i]);
        assert(t[i] == s[from + i]);
    }
    assert(cleaned_from(clean, name, from));
}

proof fn lemma_start(s: Seq<char>)
    ensures
        exists|k: int|
            0 <= k <= s.len() && #[trigger] s.skip(k) == text::trim_start(s) && forall|i: int|
                0 <= i < k ==> text::white_space(#[trigger] s[i]),
        text::trim_start(s).len() > 0 ==> !text::white_space(text::trim_start(s)[0]),
    decreases s.len(),
{
    if s.len() > 0 && text::white_space(s[0]) {
        let rest = s.skip(1);
        lemma_start(rest);
        let k = choose|k: int|
            0 <= k <= rest.len() && #[trigger] rest.skip(k) == text::trim_start(rest)
                && forall|i: int| 0 <= i < k ==> text::white_space(#[trigger] rest[i]);
        assert(s.skip(k + 1) =~= rest.skip(k));
        assert forall|i: int| 0 <= i < k + 1 implies text::white_space(#[trigger] s[i]) by {
            if i > 0 {
                assert(s[i] == rest[i - 1]);
            }
        }
    } else {
        assert(s.skip(0) =~= s);
    }
}

proof fn lemma_end(s: Seq<char>)
    ensures
        exists|k: int|
            0 <= k <= s.len() && #[trigger] s.take(k) == text::trim_end(s) && forall|i: int|
                k <= i < s.len() ==> text::white_space(#[trigger] s[i]),
        text::trim_end(s).len() > 0 ==> !text::white_space(text::trim_end(s).last()),
        text::trim_end(s).len() > 0 ==> text::trim_end(s)[0] == s[0],
    decreases s.len(),
{
    if s.len() > 0 && text::white_space(s.last()) {
        let rest = s.drop_last();
        lemma_end(rest);
        let k = choose|k: int|
            0 <= k <= rest.len() && #[trigger] rest.take(k) == text::trim_end(rest)
                && forall|i: int| k <= i < rest.len() ==> text::white_space(#[trigger] rest[i]);
        assert(s.take(k) =~= rest.take(k));
        assert forall|i: int| k <= i < s.len() implies text::white_space(#[trigger] s[i]) by {
            if i < s.len() - 1 {
                assert(s[i] == rest[i]);
            }
        }
    } else {
        assert(s.take(s.len() as int) =~= s);
    }
}

/// White space is what Unicode says: the controls from tab to carriage return, the space,
/// next line, and the spaces and separators beyond.
pub proof fn law_white_space_is_what_unicode_says(c: char)
    ensures
        text::white_space(c) <==> {
            let n = c as int;
            9 <= n <= 13 || n == 32 || n == 133 || n == 160 || n == 5760 || 8192 <= n <= 8202 || n
                == 8232 || n == 8233 || n == 8239 || n == 8287 || n == 12288
        },
{
}

/// A name splits at its last dot: what stands before it and after it make up the name, and
/// no dot stands after it. A name without dot is whole.
pub proof fn law_a_name_splits_at_its_last_dot(name: Seq<char>)
    ensures
        match text::split_name(name) {
            (base, Some(ext)) => base + seq!['.'] + ext == name && !ext.contains('.'),
            (base, None) => base == name && !name.contains('.'),
        },
{
    name.index_of_last_ensures('.');
    if let Some(i) = name.index_of_last('.') {
        let ext = name.skip(i + 1);
        assert(name.take(i) + seq!['.'] + ext =~= name);
        assert forall|k: int| 0 <= k < ext.len() implies ext[k] != '.' by {
            assert(name[i + 1 + k] != '.');
        }
    }
}

/// Series and mini series have episodes, and nothing else has.
pub proof fn law_series_have_episodes(kind: TitleKind)
    ensures
        kind.has_episodes() <==> kind == TitleKind::TVSeries || kind == TitleKind::TVMiniSeries,
{
}

/// Titles of two kinds are written differently.
pub proof fn law_kinds_are_told_apart(a: TitleKind, b: TitleKind)
    requires
        a.text() == b.text(),
    ensures
        a == b,
{
    reveal_strlit("movie");
    reveal_strlit("short");
    reveal_strlit("tvEpisode");
    reveal_strlit("tvMiniSeries");
    reveal_strlit("tvMovie");
    reveal_strlit("tvSeries");
    reveal_strlit("tvShort");
    reveal_strlit("tvSpecial");
    reveal_strlit("video");
    reveal_strlit("videoGame");
    let (s, t) = (a.text(), b.text());
    assert(s.len() == t.len());
    assert(s[0] == t[0] && s[1] == t[1] && s[2] == t[2] && s[3] == t[3] && s[4] == t[4]);
    assert(s.len() > 6 ==> s[6] == t[6]);
}

/// An error names what failed: the path, the pattern and its group, the kind, the episode's
/// numbers and its TV show, or the episode's identifier; and it passes on what others say.
pub proof fn law_a_message_names_what_failed(e: RenameErrorView)
    ensures
        match e {
            RenameErrorView::NoParent(p) => e.message() == paths::display_text(p)
                + ": has no parent, cannot rename"@,
            RenameErrorView::NoFileName(p) => e.message() == paths::display_text(p)
                + ": missing file name"@,
            RenameErrorView::NotUnicode(p) => e.message() == paths::display_text(p)
                + ": invalid UTF-8, cannot rename"@,
            RenameErrorView::MissingGroup { group, pattern } => e.message() == "missing '"@ + group
                + "' group in: "@ + pattern,
            RenameErrorView::Number(fault) => e.message() == text::number_fault_text(fault),
            RenameErrorView::Pattern(fault) => e.message() == patterns::error_text(fault),
            RenameErrorView::NotTvShow(kind) => e.message()
                == "expected TV show to rename episode, but found "@ + kind.text(),
            RenameErrorView::NoSuchEpisode { season, episode, tvshow_id } => exists|
                s: Seq<char>,
                t: Seq<char>,
            |
                #![trigger digits_of(s, season as nat, 2), digits_of(t, episode as nat, 2)]
                digits_of(s, season as nat, 2) && digits_of(t, episode as nat, 2) && e.message()
                    == "could not find S"@ + s + "E"@ + t + " for TV show "@ + tvshow_id,
            RenameErrorView::NoSuchEntity(id) => e.message()
                == "could not find media entity for episode "@ + id,
            RenameErrorView::NoOverride => e.message()
                == "could not parse file path and there is no override set via -q/--query"@,
            RenameErrorView::NoResults => e.message() == "no search results"@,
            RenameErrorView::Search(said) => e.message() == said,
            RenameErrorView::Index(said) => e.message() == said,
            RenameErrorView::DuplicateDestination(p) => e.message()
                == "duplicate rename proposal for '"@ + paths::display_text(p) + "'"@,
            RenameErrorView::DestinationExists(p) => e.message() == "file path '"@
                + paths::display_text(p) + "' already exists"@,
        },
{
    if let RenameErrorView::NoSuchEpisode { season, episode, .. } = e {
        law_two_digits_have_the_value(season as nat);
        law_two_digits_have_the_value(episode as nat);
    }
}

} // verus!
