//! The state of the team list: the teams, the filters, and the teams that
//! pass them.

use vstd::prelude::*;
use vstd::string::*;
use crate::chart::categories::string_views;
use crate::chart::engine::{location_keys, locations_of};
use crate::data::team::{Team, spec_search_string};
use crate::text::{
    TextOrder, chars_of, contains_text, decimal, format_i64, is_substring,
    lemma_text_before_transitive, lowercase, order_text, parse_i64,
    spec_parse_i64, text_before, to_lowercase, trim, trimmed,
};

verus! {

/// The field in which the search text is looked for.
#[derive(Debug, Clone, Copy, PartialEq, Eq)]
pub enum FilterField {
    Name,
    Location,
    League,
    All,
}

impl FilterField {
    /// The name of the field.
    pub fn as_str(&self) -> (name: &'static str)
        ensures
            name@ == match *self {
                FilterField::Name => "球队名称"@,
                FilterField::Location => "地区"@,
                FilterField::League => "联赛"@,
                FilterField::All => "全部字段"@,
            },
    {
        match self {
            FilterField::Name => "球队名称",
            FilterField::Location => "地区",
            FilterField::League => "联赛",
            FilterField::All => "全部字段",
        }
    }
}

/// The teams, the filters and the selection of the team list.
#[derive(Debug)]
pub struct TeamListView {
    pub teams: Vec<Team>,
    /// The teams that pass the filters, in the order of `teams`.
    pub filtered_teams: Vec<Team>,
    /// The selected row of `filtered_teams`.
    pub selected_index: Option<usize>,
    pub search_text: String,
    pub filter_field: FilterField,
    /// The locations of the teams, each once, in dictionary order.
    pub unique_locations: Vec<String>,
    pub selected_location: Option<String>,
    /// The leagues of the teams, each once, in rising order.
    pub unique_leagues: Vec<i64>,
    pub selected_league: Option<i64>,
    pub show_advanced_filters: bool,
    pub min_wealth: Option<i64>,
    pub max_wealth: Option<i64>,
    pub min_year: Option<i64>,
    pub max_year: Option<i64>,
    pub wealth_filter_text: String,
    pub year_filter_text: String,
}

/// The league of each team.
pub open spec fn leagues_of(teams: Seq<Team>) -> Seq<i64> {
    teams.map_values(|t: Team| t.league_id)
}

/// Each text stands before those behind it in dictionary order.
pub open spec fn texts_ascending(texts: Seq<Seq<char>>) -> bool {
    forall|i: int, j: int| 0 <= i < j < texts.len() ==> text_before(texts[i], texts[j])
}

/// Each number is less than those behind it.
pub open spec fn numbers_ascending(numbers: Seq<i64>) -> bool {
    forall|i: int, j: int| 0 <= i < j < numbers.len() ==> numbers[i] < numbers[j]
}

/// The texts of `keys`, each once, in dictionary order.
pub fn sorted_unique_texts(keys: &Vec<String>) -> (sorted: Vec<String>)
    ensures
        texts_ascending(string_views(sorted@)),
        forall|text: Seq<char>|
            string_views(sorted@).contains(text) <==> string_views(keys@).contains(text),
{
    let mut sorted: Vec<String> = Vec::new();
    let mut k: usize = 0;
    while k < keys.len()
        invariant
            k <= keys@.len(),
            texts_ascending(string_views(sorted@)),
            forall|text: Seq<char>|
                string_views(sorted@).contains(text) <==> string_views(keys@).take(
                    k as int,
                ).contains(text),
        decreases keys.len() - k,
    {
        let key = &keys[k];
        let ghost views = string_views(sorted@);
        let ghost seen = string_views(keys@).take(k as int);
        let ghost next = string_views(keys@).take(k as int + 1);
        proof {
            assert(next =~= seen.push(key@));
            assert forall|text: Seq<char>| next.contains(text) <==> (seen.contains(text) || text
                == key@) by {
                if seen.contains(text) {
                    let i = choose|i: int| 0 <= i < seen.len() && seen[i] == text;
                    assert(next[i] == text);
                }
                if text == key@ {
                    assert(next[k as int] == text);
                }
                if next.contains(text) {
                    let i = choose|i: int| 0 <= i < next.len() && next[i] == text;
                    if i < k {
                        assert(seen[i] == text);
                    }
                }
            }
        }
        let mut p: usize = 0;
        let mut found = false;
        let mut placed = false;
        while !placed && p < sorted.len()
            invariant
                p <= sorted@.len(),
                views == string_views(sorted@),
                forall|i: int| 0 <= i < p ==> text_before(#[trigger] views[i], key@),
                placed ==> p < sorted@.len() && (if found {
                    views[p as int] == key@
                } else {
                    text_before(key@, views[p as int])
                }),
                !placed ==> !found,
            decreases sorted.len() - p + if placed { 0int } else { 1int },
        {
            match order_text(sorted[p].as_str(), key.as_str()) {
                TextOrder::Before => {
                    assert(views[p as int] == sorted@[p as int]@);
                    p = p + 1;
                },
                TextOrder::Same => {
                    assert(views[p as int] == sorted@[p as int]@);
                    found = true;
                    placed = true;
                },
                TextOrder::After => {
                    assert(views[p as int] == sorted@[p as int]@);
                    placed = true;
                },
            }
        }
        if found {
            proof {
                assert(views.contains(key@));
            }
        } else {
            proof {
                let after = views.insert(p as int, key@);
                views.insert_ensures(p as int, key@);
                assert(string_views(sorted@.insert(p as int, *key)) =~= after);
                assert forall|i: int, j: int| 0 <= i < j < after.len() implies text_before(
                    after[i],
                    after[j],
                ) by {
                    if j == p {
                        assert(after[i] == views[i]);
                    } else if i == p {
                        assert(after[j] == views[j - 1]);
                        if j - 1 > p {
                            lemma_text_before_transitive(key@, views[p as int], views[j - 1]);
                        }
                    } else {
                        let i0 = if i < p {
                            i
                        } else {
                            i - 1
                        };
                        let j0 = if j < p {
                            j
                        } else {
                            j - 1
                        };
                        assert(after[i] == views[i0] && after[j] == views[j0]);
                    }
                }
                assert forall|text: Seq<char>| after.contains(text) <==> (views.contains(text)
                    || text == key@) by {
                    if views.contains(text) {
                        let i = choose|i: int| 0 <= i < views.len() && views[i] == text;
                        if i < p {
                            assert(after[i] == text);
                        } else {
                            assert(after[i + 1] == text);
                        }
                    }
                    if text == key@ {
                        assert(after[p as int] == text);
                    }
                    if after.contains(text) {
                        let i = choose|i: int| 0 <= i < after.len() && after[i] == text;
                        if i < p {
                            assert(views[i] == text);
                        } else if i > p {
                            assert(views[i - 1] == text);
                        }
                    }
                }
            }
            sorted.insert(p, key.clone());
        }
        k = k + 1;
    }
    proof {
        assert(string_views(keys@).take(k as int) =~= string_views(keys@));
    }
    sorted
}

/// The leagues of `teams`, each once, in rising order.
pub fn sorted_unique_leagues(teams: &Vec<Team>) -> (sorted: Vec<i64>)
    ensures
        numbers_ascending(sorted@),
        forall|id: i64| sorted@.contains(id) <==> leagues_of(teams@).contains(id),
{
    let mut sorted: Vec<i64> = Vec::new();
    let mut k: usize = 0;
    while k < teams.len()
        invariant
            k <= teams@.len(),
            numbers_ascending(sorted@),
            forall|id: i64|
                sorted@.contains(id) <==> leagues_of(teams@).take(k as int).contains(id),
        decreases teams.len() - k,
    {
        let key = teams[k].league_id;
        let ghost before = sorted@;
        let ghost seen = leagues_of(teams@).take(k as int);
        let ghost next = leagues_of(teams@).take(k as int + 1);
        proof {
            assert(next =~= seen.push(key));
            assert forall|id: i64| next.contains(id) <==> (seen.contains(id) || id == key) by {
                if seen.contains(id) {
                    let i = choose|i: int| 0 <= i < seen.len() && seen[i] == id;
                    assert(next[i] == id);
                }
                if id == key {
                    assert(next[k as int] == id);
                }
                if next.contains(id) {
                    let i = choose|i: int| 0 <= i < next.len() && next[i] == id;
                    if i < k {
                        assert(seen[i] == id);
                    }
                }
            }
        }
        let mut p: usize = 0;
        while p < sorted.len() && sorted[p] < key
            invariant
                p <= sorted@.len(),
                forall|i: int| 0 <= i < p ==> #[trigger] sorted@[i] < key,
            decreases sorted.len() - p,
        {
            p = p + 1;
        }
        if p < sorted.len() && sorted[p] == key {
            proof {
                assert(before.contains(key));
            }
        } else {
            proof {
                let after = before.insert(p as int, key);
                before.insert_ensures(p as int, key);
                assert forall|i: int, j: int| 0 <= i < j < after.len() implies after[i]
                    < after[j] by {
                    if j == p {
                        assert(after[i] == before[i]);
                    } else if i == p {
                        assert(after[j] == before[j - 1]);
                    } else {
                        let i0 = if i < p {
                            i
                        } else {
                            i - 1
                        };
                        let j0 = if j < p {
                            j
                        } else {
                            j - 1
                        };
                        assert(after[i] == before[i0] && after[j] == before[j0]);
                    }
                }
                assert forall|id: i64| after.contains(id) <==> (before.contains(id) || id
                    == key) by {
                    if before.contains(id) {
                        let i = choose|i: int| 0 <= i < before.len() && before[i] == id;
                        if i < p {
                            assert(after[i] == id);
                        } else {
                            assert(after[i + 1] == id);
                        }
                    }
                    if id == key {
                        assert(after[p as int] == id);
                    }
                    if after.contains(id) {
                        let i = choose|i: int| 0 <= i < after.len() && after[i] == id;
                        if i < p {
                            assert(before[i] == id);
                        } else if i > p {
                            assert(before[i - 1] == id);
                        }
                    }
                }
            }
            sorted.insert(p, key);
        }
        k = k + 1;
    }
    proof {
        assert(leagues_of(teams@).take(k as int) =~= leagues_of(teams@));
    }
    sorted
}

/// The test for being a hyphen.
pub open spec fn is_hyphen() -> spec_fn(char) -> bool {
    |c: char| c == '-'
}

/// The position of the first hyphen of `text`, or its length when it has
/// none.
pub open spec fn first_hyphen(text: Seq<char>) -> int
    decreases text.len(),
{
    if text.len() == 0 || text[0] == '-' {
        0
    } else {
        1 + first_hyphen(text.drop_first())
    }
}

/// The bounds that the text of a range filter asks for, given the bounds
/// `kept` that hold so far. White space around the text is set aside. An
/// empty text asks for no bounds. A text without a hyphen that is a number
/// asks for that number as the lower bound and for no upper bound. A text
/// with one hyphen asks for the numbers before and behind the hyphen, white
/// space around each set aside, and for no bound where there is no number.
/// Any other text keeps the bounds that hold so far.
pub open spec fn spec_parse_range(text: Seq<char>, kept: (Option<i64>, Option<i64>)) -> (
    Option<i64>,
    Option<i64>,
) {
    let inner = trimmed(text);
    let hyphens = inner.filter(is_hyphen()).len();
    if inner.len() == 0 {
        (None, None)
    } else if hyphens == 0 {
        match spec_parse_i64(inner) {
            Some(value) => (Some(value), None),
            None => kept,
        }
    } else if hyphens == 1 {
        (
            spec_parse_i64(trimmed(inner.take(first_hyphen(inner)))),
            spec_parse_i64(trimmed(inner.skip(first_hyphen(inner) + 1))),
        )
    } else {
        kept
    }
}

/// Reads the bounds that the text of a range filter asks for.
pub fn parse_range(text: &str, kept: (Option<i64>, Option<i64>)) -> (bounds: (
    Option<i64>,
    Option<i64>,
))
    ensures
        bounds == spec_parse_range(text@, kept),
{
    let inner = trim(text);
    let chars = chars_of(inner);
    let n = chars.len();
    if n == 0 {
        return (None, None);
    }
    let mut hyphens: usize = 0;
    let mut first: usize = n;
    let mut i: usize = 0;
    proof {
        reveal(Seq::filter);
        assert(chars@.take(0) =~= Seq::<char>::empty());
        assert(chars@.skip(0) =~= chars@);
    }
    while i < n
        invariant
            n == chars@.len(),
            i <= n,
            hyphens == chars@.take(i as int).filter(is_hyphen()).len(),
            hyphens <= i,
            hyphens == 0 ==> first == n && first_hyphen(chars@) == i + first_hyphen(
                chars@.skip(i as int),
            ),
            hyphens > 0 ==> first < i && first as int == first_hyphen(chars@),
        decreases n - i,
    {
        proof {
            assert(chars@.take(i as int + 1) =~= chars@.take(i as int).push(chars@[i as int]));
            chars@.take(i as int).lemma_filter_push(chars@[i as int], is_hyphen());
            assert(chars@.skip(i as int).drop_first() =~= chars@.skip(i as int + 1));
            assert(chars@.skip(i as int)[0] == chars@[i as int]);
        }
        if chars[i] == '-' {
            if hyphens == 0 {
                first = i;
            }
            hyphens = hyphens + 1;
        }
        i = i + 1;
    }
    proof {
        assert(chars@.take(n as int) =~= chars@);
    }
    if hyphens == 0 {
        match parse_i64(inner) {
            Some(value) => (Some(value), None),
            None => kept,
        }
    } else if hyphens == 1 {
        let left = inner.substring_char(0, first);
        let right = inner.substring_char(first + 1, n);
        proof {
            assert(inner@.subrange(0, first as int) =~= inner@.take(first as int));
            assert(inner@.subrange(first as int + 1, n as int) =~= inner@.skip(first as int + 1));
        }
        (parse_i64(trim(left)), parse_i64(trim(right)))
    } else {
        kept
    }
}

/// Whether `team` holds the search term in the chosen field. Names,
/// locations and the text of all fields are looked at in lower case; the
/// league is looked at as its number.
pub open spec fn spec_matches_search(team: Team, field: FilterField, term: Seq<char>) -> bool {
    match field {
        FilterField::Name => is_substring(lowercase(team.name@), term),
        FilterField::Location => is_substring(lowercase(team.location@), term),
        FilterField::League => is_substring(decimal(team.league_id as int), term),
        FilterField::All => is_substring(lowercase(spec_search_string(team@)), term),
    }
}

/// Whether `team` holds the search term in the chosen field.
pub fn matches_search(team: &Team, field: FilterField, term: &str) -> (r: bool)
    ensures
        r == spec_matches_search(*team, field, term@),
{
    match field {
        FilterField::Name => {
            let name = to_lowercase(team.name.as_str());
            contains_text(name.as_str(), term)
        },
        FilterField::Location => {
            let location = to_lowercase(team.location.as_str());
            contains_text(location.as_str(), term)
        },
        FilterField::League => {
            let league = format_i64(team.league_id);
            contains_text(league.as_str(), term)
        },
        FilterField::All => {
            let all = team.search_string();
            let lowered = to_lowercase(all.as_str());
            contains_text(lowered.as_str(), term)
        },
    }
}

/// The filter settings of a team list as plain values.
pub struct FilterView {
    pub search_text: Seq<char>,
    pub filter_field: FilterField,
    pub selected_location: Option<Seq<char>>,
    pub selected_league: Option<i64>,
    pub min_wealth: Option<i64>,
    pub max_wealth: Option<i64>,
    pub min_year: Option<i64>,
    pub max_year: Option<i64>,
}

/// Whether `team` passes `filters`: the search text, if there is one, in
/// lower case; the chosen location and league; the bounds on wealth and on
/// the founding year.
pub open spec fn passes_filters(filters: FilterView, team: Team) -> bool {
    &&& filters.search_text.len() == 0 || spec_matches_search(
        team,
        filters.filter_field,
        lowercase(filters.search_text),
    )
    &&& filters.selected_location matches Some(location) ==> team.location@ == location
    &&& filters.selected_league matches Some(league) ==> team.league_id == league
    &&& filters.min_wealth matches Some(min) ==> team.wealth >= min
    &&& filters.max_wealth matches Some(max) ==> team.wealth <= max
    &&& filters.min_year matches Some(min) ==> team.found_year >= min
    &&& filters.max_year matches Some(max) ==> team.found_year <= max
}

/// The test for passing `filters`.
pub open spec fn filter_test(filters: FilterView) -> spec_fn(Team) -> bool {
    |team: Team| passes_filters(filters, team)
}

impl TeamListView {
    /// The filter settings as plain values.
    pub open spec fn filters(&self) -> FilterView {
        FilterView {
            search_text: self.search_text@,
            filter_field: self.filter_field,
            selected_location: match self.selected_location {
                Some(location) => Some(location@),
                None => None,
            },
            selected_league: self.selected_league,
            min_wealth: self.min_wealth,
            max_wealth: self.max_wealth,
            min_year: self.min_year,
            max_year: self.max_year,
        }
    }

    /// Whether `team` passes the filters.
    pub open spec fn spec_passes(&self, team: Team) -> bool {
        passes_filters(self.filters(), team)
    }

    /// The test for passing the filters.
    pub open spec fn passes_test(&self) -> spec_fn(Team) -> bool {
        filter_test(self.filters())
    }

    /// The filter settings of `self` are those of `other`.
    pub open spec fn same_filters(&self, other: &Self) -> bool {
        &&& self.search_text == other.search_text
        &&& self.filter_field == other.filter_field
        &&& self.selected_location == other.selected_location
        &&& self.selected_league == other.selected_league
        &&& self.show_advanced_filters == other.show_advanced_filters
        &&& self.min_wealth == other.min_wealth
        &&& self.max_wealth == other.max_wealth
        &&& self.min_year == other.min_year
        &&& self.max_year == other.max_year
        &&& self.wealth_filter_text == other.wealth_filter_text
        &&& self.year_filter_text == other.year_filter_text
    }

    /// The filter options are those of the teams: their locations and
    /// leagues, each once, in order.
    pub open spec fn options_current(&self) -> bool {
        &&& texts_ascending(string_views(self.unique_locations@))
        &&& forall|text: Seq<char>|
            string_views(self.unique_locations@).contains(text) <==> locations_of(
                self.teams@,
            ).contains(text)
        &&& numbers_ascending(self.unique_leagues@)
        &&& forall|id: i64|
            self.unique_leagues@.contains(id) <==> leagues_of(self.teams@).contains(id)
    }

    /// A list without teams, searching all fields, with no filter set.
    pub fn new() -> (view: Self)
        ensures
            view.teams@.len() == 0,
            view.filtered_teams@.len() == 0,
            view.selected_index is None,
            view.search_text@.len() == 0,
            view.filter_field == FilterField::All,
            view.unique_locations@.len() == 0,
            view.selected_location is None,
            view.unique_leagues@.len() == 0,
            view.selected_league is None,
            !view.show_advanced_filters,
            view.min_wealth is None,
            view.max_wealth is None,
            view.min_year is None,
            view.max_year is None,
            view.wealth_filter_text@.len() == 0,
            view.year_filter_text@.len() == 0,
    {
        TeamListView {
            teams: Vec::new(),
            filtered_teams: Vec::new(),
            selected_index: None,
            search_text: String::new(),
            filter_field: FilterField::All,
            unique_locations: Vec::new(),
            selected_location: None,
            unique_leagues: Vec::new(),
            selected_league: None,
            show_advanced_filters: false,
            min_wealth: None,
            max_wealth: None,
            min_year: None,
            max_year: None,
            wealth_filter_text: String::new(),
            year_filter_text: String::new(),
        }
    }

    /// Takes `teams` as the teams of the list, renews the filter options
    /// and applies the filters.
    pub fn set_teams(&mut self, teams: Vec<Team>)
        ensures
            final(self).teams == teams,
            final(self).options_current(),
            final(self).filtered_teams@ == teams@.filter(old(self).passes_test()),
            final(self).same_filters(old(self)),
            final(self).selected_index == old(self).selected_index,
    {
        self.teams = teams;
        self.update_filter_options();
        self.apply_filter();
    }

    /// Renews the filter options from the teams.
    pub fn update_filter_options(&mut self)
        ensures
            final(self).options_current(),
            final(self).teams == old(self).teams,
            final(self).filtered_teams == old(self).filtered_teams,
            final(self).selected_index == old(self).selected_index,
            final(self).same_filters(old(self)),
    {
        let locations = location_keys(&self.teams);
        self.unique_locations = sorted_unique_texts(&locations);
        self.unique_leagues = sorted_unique_leagues(&self.teams);
    }

    /// Whether `team` passes the filters, given the search text in lower
    /// case.
    fn passes(&self, team: &Team, term: &str) -> (r: bool)
        requires
            term@ == lowercase(self.search_text@),
        ensures
            r == self.spec_passes(*team),
    {
        if !self.search_text.as_str().is_empty() && !matches_search(team, self.filter_field, term) {
            return false;
        }
        match &self.selected_location {
            Some(location) => {
                if team.location != *location {
                    return false;
                }
            },
            None => {},
        }
        match self.selected_league {
            Some(league) => {
                if team.league_id != league {
                    return false;
                }
            },
            None => {},
        }
        match self.min_wealth {
            Some(min) => {
                if team.wealth < min {
                    return false;
                }
            },
            None => {},
        }
        match self.max_wealth {
            Some(max) => {
                if team.wealth > max {
                    return false;
                }
            },
            None => {},
        }
        match self.min_year {
            Some(min) => {
                if team.found_year < min {
                    return false;
                }
            },
            None => {},
        }
        match self.max_year {
            Some(max) => {
                if team.found_year > max {
                    return false;
                }
            },
            None => {},
        }
        true
    }

    /// Applies the filters: the filtered teams become the teams that pass
    /// them all, in order.
    pub fn apply_filter(&mut self)
        ensures
            final(self).filtered_teams@ == old(self).teams@.filter(old(self).passes_test()),
            final(self).teams == old(self).teams,
            final(self).selected_index == old(self).selected_index,
            final(self).unique_locations == old(self).unique_locations,
            final(self).unique_leagues == old(self).unique_leagues,
            final(self).same_filters(old(self)),
    {
        let term = to_lowercase(self.search_text.as_str());
        let mut filtered: Vec<Team> = Vec::new();
        let mut i: usize = 0;
        proof {
            reveal(Seq::filter);
            assert(self.teams@.take(0) =~= Seq::<Team>::empty());
        }
        while i < self.teams.len()
            invariant
                i <= self.teams@.len(),
                term@ == lowercase(self.search_text@),
                filtered@ == self.teams@.take(i as int).filter(self.passes_test()),
            decreases self.teams.len() - i,
        {
            proof {
                assert(self.teams@.take(i as int + 1) =~= self.teams@.take(i as int).push(
                    self.teams@[i as int],
                ));
                self.teams@.take(i as int).lemma_filter_push(
                    self.teams@[i as int],
                    self.passes_test(),
                );
            }
            if self.passes(&self.teams[i], term.as_str()) {
                filtered.push(self.teams[i].clone());
            }
            i = i + 1;
        }
        proof {
            assert(self.teams@.take(i as int) =~= self.teams@);
        }
        self.filtered_teams = filtered;
    }

    /// Reads the bounds on wealth from the text of the wealth filter.
    pub fn parse_wealth_filter(&mut self)
        ensures
            (final(self).min_wealth, final(self).max_wealth) == spec_parse_range(
                old(self).wealth_filter_text@,
                (old(self).min_wealth, old(self).max_wealth),
            ),
            final(self).min_year == old(self).min_year,
            final(self).max_year == old(self).max_year,
            final(self).same_but_bounds(old(self)),
    {
        let bounds = parse_range(self.wealth_filter_text.as_str(), (self.min_wealth, self.max_wealth));
        self.min_wealth = bounds.0;
        self.max_wealth = bounds.1;
    }

    /// Reads the bounds on the founding year from the text of the year
    /// filter.
    pub fn parse_year_filter(&mut self)
        ensures
            (final(self).min_year, final(self).max_year) == spec_parse_range(
                old(self).year_filter_text@,
                (old(self).min_year, old(self).max_year),
            ),
            final(self).min_wealth == old(self).min_wealth,
            final(self).max_wealth == old(self).max_wealth,
            final(self).same_but_bounds(old(self)),
    {
        let bounds = parse_range(self.year_filter_text.as_str(), (self.min_year, self.max_year));
        self.min_year = bounds.0;
        self.max_year = bounds.1;
    }

    /// Everything but the bounds on wealth and year is as in `other`.
    pub open spec fn same_but_bounds(&self, other: &Self) -> bool {
        &&& self.teams == other.teams
        &&& self.filtered_teams == other.filtered_teams
        &&& self.selected_index == other.selected_index
        &&& self.search_text == other.search_text
        &&& self.filter_field == other.filter_field
        &&& self.unique_locations == other.unique_locations
        &&& self.selected_location == other.selected_location
        &&& self.unique_leagues == other.unique_leagues
        &&& self.selected_league == other.selected_league
        &&& self.show_advanced_filters == other.show_advanced_filters
        &&& self.wealth_filter_text == other.wealth_filter_text
        &&& self.year_filter_text == other.year_filter_text
    }

    /// The selected team, if a row of the filtered list is selected.
    pub fn get_selected_team(&self) -> (team: Option<&Team>)
        ensures
            match self.selected_index {
                Some(i) => if i < self.filtered_teams@.len() {
                    team == Some(&self.filtered_teams@[i as int])
                } else {
                    team is None
                },
                None => team is None,
            },
    {
        match self.selected_index {
            Some(i) => if i < self.filtered_teams.len() {
                Some(&self.filtered_teams[i])
            } else {
                None
            },
            None => None,
        }
    }

    /// The number of the selected team, if a row is selected.
    pub fn get_selected_team_id(&self) -> (id: Option<i64>)
        ensures
            match self.selected_index {
                Some(i) => if i < self.filtered_teams@.len() {
                    id == Some(self.filtered_teams@[i as int].id)
                } else {
                    id is None
                },
                None => id is None,
            },
    {
        match self.get_selected_team() {
            Some(team) => Some(team.id),
            None => None,
        }
    }

    /// Selects the first row of the filtered list whose team has the
    /// number `team_id`, or no row when there is none.
    pub fn select_team_by_id(&mut self, team_id: i64)
        ensures
            match final(self).selected_index {
                Some(i) => i < old(self).filtered_teams@.len() && old(self).filtered_teams@[i as int].id
                    == team_id && forall|j: int|
                    0 <= j < i ==> (#[trigger] old(self).filtered_teams@[j]).id != team_id,
                None => forall|j: int|
                    0 <= j < old(self).filtered_teams@.len() ==> (#[trigger] old(
                        self,
                    ).filtered_teams@[j]).id != team_id,
            },
            *final(self) == (TeamListView {
                selected_index: final(self).selected_index,
                ..*old(self)
            }),
    {
        let mut i: usize = 0;
        while i < self.filtered_teams.len()
            invariant
                i <= self.filtered_teams@.len(),
                forall|j: int| 0 <= j < i ==> (#[trigger] self.filtered_teams@[j]).id != team_id,
                self == old(self),
            decreases self.filtered_teams.len() - i,
        {
            if self.filtered_teams[i].id == team_id {
                self.selected_index = Some(i);
                return ;
            }
            i = i + 1;
        }
        self.selected_index = None;
    }

    /// The first of the teams that has the number `team_id`, if there is
    /// one.
    pub fn find_team(&self, team_id: i64) -> (team: Option<&Team>)
        ensures
            match team {
                Some(t) => exists|i: int|
                    0 <= i < self.teams@.len() && *t == #[trigger] self.teams@[i] && t.id
                        == team_id && forall|j: int|
                        0 <= j < i ==> (#[trigger] self.teams@[j]).id != team_id,
                None => forall|j: int|
                    0 <= j < self.teams@.len() ==> (#[trigger] self.teams@[j]).id != team_id,
            },
    {
        let mut i: usize = 0;
        while i < self.teams.len()
            invariant
                i <= self.teams@.len(),
                forall|j: int| 0 <= j < i ==> (#[trigger] self.teams@[j]).id != team_id,
            decreases self.teams.len() - i,
        {
            if self.teams[i].id == team_id {
                return Some(&self.teams[i]);
            }
            i = i + 1;
        }
        None
    }

    /// Clears the search text and applies the filters.
    pub fn clear_search(&mut self)
        ensures
            final(self).search_text@.len() == 0,
            final(self).teams == old(self).teams,
            final(self).filtered_teams@ == old(self).teams@.filter(final(self).passes_test()),
            final(self).selected_index == old(self).selected_index,
            final(self).filter_field == old(self).filter_field,
            final(self).unique_locations == old(self).unique_locations,
            final(self).unique_leagues == old(self).unique_leagues,
            final(self).selected_location == old(self).selected_location,
            final(self).selected_league == old(self).selected_league,
            final(self).show_advanced_filters == old(self).show_advanced_filters,
            final(self).min_wealth == old(self).min_wealth,
            final(self).max_wealth == old(self).max_wealth,
            final(self).min_year == old(self).min_year,
            final(self).max_year == old(self).max_year,
            final(self).wealth_filter_text == old(self).wealth_filter_text,
            final(self).year_filter_text == old(self).year_filter_text,
    {
        self.search_text = String::new();
        self.apply_filter();
    }

    /// Drops every filter and shows all teams.
    pub fn reset_filters(&mut self)
        ensures
            final(self).search_text@.len() == 0,
            final(self).selected_location is None,
            final(self).selected_league is None,
            final(self).wealth_filter_text@.len() == 0,
            final(self).year_filter_text@.len() == 0,
            final(self).min_wealth is None,
            final(self).max_wealth is None,
            final(self).min_year is None,
            final(self).max_year is None,
            final(self).teams == old(self).teams,
            final(self).filtered_teams@ == old(self).teams@,
            final(self).selected_index == old(self).selected_index,
            final(self).filter_field == old(self).filter_field,
            final(self).unique_locations == old(self).unique_locations,
            final(self).unique_leagues == old(self).unique_leagues,
            final(self).show_advanced_filters == old(self).show_advanced_filters,
    {
        self.search_text = String::new();
        self.selected_location = None;
        self.selected_league = None;
        self.wealth_filter_text = String::new();
        self.year_filter_text = String::new();
        self.min_wealth = None;
        self.max_wealth = None;
        self.min_year = None;
        self.max_year = None;
        self.apply_filter();
        proof {
            let test = self.passes_test();
            assert forall|i: int| 0 <= i < self.teams@.len() implies test(self.teams@[i]) by {}
            lemma_filter_keeps_all(self.teams@, test);
        }
    }
}

/// A filter that every element passes keeps the sequence as it is.
pub proof fn lemma_filter_keeps_all<A>(s: Seq<A>, test: spec_fn(A) -> bool)
    requires
        forall|i: int| 0 <= i < s.len() ==> test(#[trigger] s[i]),
    ensures
        s.filter(test) == s,
    decreases s.len(),
{
    reveal(Seq::filter);
    if s.len() > 0 {
        assert forall|i: int| 0 <= i < s.drop_last().len() implies test(
            #[trigger] s.drop_last()[i],
        ) by {
            assert(s.drop_last()[i] == s[i]);
        }
        lemma_filter_keeps_all(s.drop_last(), test);
        assert(test(s[s.len() - 1]));
        assert(s.drop_last().push(s.last()) =~= s);
    }
}

} // verus!
