//! The state of the editor for sponsors and football associations.

use vstd::prelude::*;
use vstd::string::*;
use crate::data::sponsor::{FA, Sponsor};
use crate::text::{contains_text, decimal, is_substring, lowercase, push_decimal, to_lowercase};

verus! {

/// What the editor works on.
#[derive(Debug, Clone, Copy, PartialEq, Eq)]
pub enum SponsorEditorMode {
    Sponsor,
    FA,
}

/// The records, the search, and what is selected and being edited.
#[derive(Debug)]
pub struct SponsorEditorView {
    pub sponsors: Vec<Sponsor>,
    pub fas: Vec<FA>,
    /// The sponsors that the search finds, in order.
    pub displayed_sponsors: Vec<Sponsor>,
    /// The associations that the search finds, in order.
    pub displayed_fas: Vec<FA>,
    pub mode: SponsorEditorMode,
    pub search_query: String,
    pub selected_sponsor_idx: Option<usize>,
    pub selected_fa_idx: Option<usize>,
    pub edited_sponsor: Option<Sponsor>,
    pub edited_fa: Option<FA>,
    pub show_logo_dialog: bool,
}

/// Whether the search for `term`, given in lower case, finds `sponsor`: in
/// its name, its description, its industry or its headquarters, each looked
/// at in lower case.
pub open spec fn sponsor_found(sponsor: Sponsor, term: Seq<char>) -> bool {
    ||| is_substring(lowercase(sponsor.sponsor_name@), term)
    ||| is_substring(lowercase(sponsor.description@), term)
    ||| is_substring(lowercase(sponsor.industry@), term)
    ||| is_substring(lowercase(sponsor.headquarter_location@), term)
}

/// Whether the search for `term`, given in lower case, finds `fa`: in its
/// title, its location or the name of one of its operators, each looked at
/// in lower case.
pub open spec fn fa_found(fa: FA, term: Seq<char>) -> bool {
    ||| is_substring(lowercase(fa.title@), term)
    ||| is_substring(lowercase(fa.location@), term)
    ||| is_substring(lowercase(fa.main_operator_name@), term)
    ||| is_substring(lowercase(fa.youth_operator_name@), term)
    ||| is_substring(lowercase(fa.competition_operator_name@), term)
}

/// The test for being found as a sponsor; an empty term finds all.
pub open spec fn sponsor_test(term: Seq<char>) -> spec_fn(Sponsor) -> bool {
    |sponsor: Sponsor| term.len() == 0 || sponsor_found(sponsor, term)
}

/// The test for being found as an association; an empty term finds all.
pub open spec fn fa_test(term: Seq<char>) -> spec_fn(FA) -> bool {
    |fa: FA| term.len() == 0 || fa_found(fa, term)
}

/// The name of the sponsor that is created when there are `count` sponsors.
pub open spec fn spec_new_sponsor_name(count: int) -> Seq<char> {
    "赞助商"@ + decimal(count + 1)
}

/// The first position from `from` on at which a sponsor of the name
/// `name` stands, if there is one.
pub open spec fn first_of_name_from(sponsors: Seq<Sponsor>, name: Seq<char>, from: int) -> Option<
    int,
>
    decreases sponsors.len() - from,
{
    if from < 0 || from >= sponsors.len() {
        None
    } else if sponsors[from].sponsor_name@ == name {
        Some(from)
    } else {
        first_of_name_from(sponsors, name, from + 1)
    }
}

/// The first position at which a sponsor of the name `name` stands, if
/// there is one.
pub open spec fn first_of_name(sponsors: Seq<Sponsor>, name: Seq<char>) -> Option<int> {
    first_of_name_from(sponsors, name, 0)
}

/// Whether `hay`, looked at in lower case, holds `term`.
fn field_holds(hay: &String, term: &str) -> (r: bool)
    ensures
        r == is_substring(lowercase(hay@), term@),
{
    let lowered = to_lowercase(hay.as_str());
    contains_text(lowered.as_str(), term)
}

impl SponsorEditorView {
    /// An editor without records, in sponsor mode, with nothing searched,
    /// selected or edited.
    pub fn new() -> (view: Self)
        ensures
            view.sponsors@.len() == 0,
            view.fas@.len() == 0,
            view.displayed_sponsors@.len() == 0,
            view.displayed_fas@.len() == 0,
            view.mode == SponsorEditorMode::Sponsor,
            view.search_query@.len() == 0,
            view.selected_sponsor_idx is None,
            view.selected_fa_idx is None,
            view.edited_sponsor is None,
            view.edited_fa is None,
            !view.show_logo_dialog,
    {
        SponsorEditorView {
            sponsors: Vec::new(),
            fas: Vec::new(),
            displayed_sponsors: Vec::new(),
            displayed_fas: Vec::new(),
            mode: SponsorEditorMode::Sponsor,
            search_query: String::new(),
            selected_sponsor_idx: None,
            selected_fa_idx: None,
            edited_sponsor: None,
            edited_fa: None,
            show_logo_dialog: false,
        }
    }

    /// The displayed records are those that the search finds.
    pub open spec fn search_applied(&self) -> bool {
        &&& self.displayed_sponsors@ == self.sponsors@.filter(
            sponsor_test(lowercase(self.search_query@)),
        )
        &&& self.displayed_fas@ == self.fas@.filter(fa_test(lowercase(self.search_query@)))
    }

    /// Mode, selection and what is being edited are as in `other`.
    pub open spec fn same_selection(&self, other: &Self) -> bool {
        &&& self.mode == other.mode
        &&& self.selected_sponsor_idx == other.selected_sponsor_idx
        &&& self.selected_fa_idx == other.selected_fa_idx
        &&& self.edited_sponsor == other.edited_sponsor
        &&& self.edited_fa == other.edited_fa
        &&& self.show_logo_dialog == other.show_logo_dialog
    }

    /// Searches the records anew for the query.
    pub fn apply_search_filter(&mut self)
        ensures
            final(self).search_applied(),
            final(self).sponsors == old(self).sponsors,
            final(self).fas == old(self).fas,
            final(self).search_query == old(self).search_query,
            final(self).same_selection(old(self)),
    {
        let term = to_lowercase(self.search_query.as_str());
        let all = term.as_str().is_empty();
        let mut sponsors: Vec<Sponsor> = Vec::new();
        let mut i: usize = 0;
        proof {
            reveal(Seq::filter);
            assert(self.sponsors@.take(0) =~= Seq::<Sponsor>::empty());
            assert(self.fas@.take(0) =~= Seq::<FA>::empty());
        }
        while i < self.sponsors.len()
            invariant
                i <= self.sponsors@.len(),
                all == (term@.len() == 0),
                sponsors@ == self.sponsors@.take(i as int).filter(sponsor_test(term@)),
            decreases self.sponsors.len() - i,
        {
            proof {
                assert(self.sponsors@.take(i as int + 1) =~= self.sponsors@.take(i as int).push(
                    self.sponsors@[i as int],
                ));
                self.sponsors@.take(i as int).lemma_filter_push(
                    self.sponsors@[i as int],
                    sponsor_test(term@),
                );
            }
            let s = &self.sponsors[i];
            if all || field_holds(&s.sponsor_name, term.as_str()) || field_holds(
                &s.description,
                term.as_str(),
            ) || field_holds(&s.industry, term.as_str()) || field_holds(
                &s.headquarter_location,
                term.as_str(),
            ) {
                sponsors.push(s.clone());
            }
            i = i + 1;
        }
        let mut fas: Vec<FA> = Vec::new();
        let mut j: usize = 0;
        while j < self.fas.len()
            invariant
                j <= self.fas@.len(),
                all == (term@.len() == 0),
                fas@ == self.fas@.take(j as int).filter(fa_test(term@)),
            decreases self.fas.len() - j,
        {
            proof {
                assert(self.fas@.take(j as int + 1) =~= self.fas@.take(j as int).push(
                    self.fas@[j as int],
                ));
                self.fas@.take(j as int).lemma_filter_push(self.fas@[j as int], fa_test(term@));
            }
            let f = &self.fas[j];
            if all || field_holds(&f.title, term.as_str()) || field_holds(
                &f.location,
                term.as_str(),
            ) || field_holds(&f.main_operator_name, term.as_str()) || field_holds(
                &f.youth_operator_name,
                term.as_str(),
            ) || field_holds(&f.competition_operator_name, term.as_str()) {
                fas.push(f.clone());
            }
            j = j + 1;
        }
        proof {
            assert(self.sponsors@.take(i as int) =~= self.sponsors@);
            assert(self.fas@.take(j as int) =~= self.fas@);
        }
        self.displayed_sponsors = sponsors;
        self.displayed_fas = fas;
    }

    /// Takes `sponsors` as the sponsors and searches anew.
    pub fn set_sponsors(&mut self, sponsors: Vec<Sponsor>)
        ensures
            final(self).sponsors == sponsors,
            final(self).fas == old(self).fas,
            final(self).search_applied(),
            final(self).search_query == old(self).search_query,
            final(self).same_selection(old(self)),
    {
        self.sponsors = sponsors;
        self.apply_search_filter();
    }

    /// Takes `fas` as the associations and searches anew.
    pub fn set_fas(&mut self, fas: Vec<FA>)
        ensures
            final(self).fas == fas,
            final(self).sponsors == old(self).sponsors,
            final(self).search_applied(),
            final(self).search_query == old(self).search_query,
            final(self).same_selection(old(self)),
    {
        self.fas = fas;
        self.apply_search_filter();
    }

    /// The sponsor that is being edited.
    pub fn get_edited_sponsor(&self) -> (sponsor: Option<Sponsor>)
        ensures
            sponsor == self.edited_sponsor,
    {
        match &self.edited_sponsor {
            Some(sponsor) => Some(sponsor.clone()),
            None => None,
        }
    }

    /// The association that is being edited.
    pub fn get_edited_fa(&self) -> (fa: Option<FA>)
        ensures
            fa == self.edited_fa,
    {
        match &self.edited_fa {
            Some(fa) => Some(fa.clone()),
            None => None,
        }
    }

    /// Changes from sponsors to associations or back, and drops what is
    /// selected and being edited.
    pub fn toggle_mode(&mut self)
        ensures
            *final(self) == (SponsorEditorView {
                mode: match old(self).mode {
                    SponsorEditorMode::Sponsor => SponsorEditorMode::FA,
                    SponsorEditorMode::FA => SponsorEditorMode::Sponsor,
                },
                selected_sponsor_idx: None,
                selected_fa_idx: None,
                edited_sponsor: None,
                edited_fa: None,
                ..*old(self)
            }),
    {
        self.mode = match self.mode {
            SponsorEditorMode::Sponsor => SponsorEditorMode::FA,
            SponsorEditorMode::FA => SponsorEditorMode::Sponsor,
        };
        self.selected_sponsor_idx = None;
        self.selected_fa_idx = None;
        self.edited_sponsor = None;
        self.edited_fa = None;
    }

    /// Takes `query` as the search query and searches anew.
    pub fn search(&mut self, query: &str)
        ensures
            final(self).search_query@ == query@,
            final(self).search_applied(),
            final(self).sponsors == old(self).sponsors,
            final(self).fas == old(self).fas,
            final(self).same_selection(old(self)),
    {
        self.search_query = query.to_owned();
        self.apply_search_filter();
    }

    /// Selects row `index` of the displayed sponsors and takes a copy of it
    /// to edit. A row that is not there selects nothing.
    pub fn select_sponsor(&mut self, index: usize)
        ensures
            *final(self) == (if index < old(self).displayed_sponsors@.len() {
                SponsorEditorView {
                    selected_sponsor_idx: Some(index),
                    edited_sponsor: Some(old(self).displayed_sponsors@[index as int]),
                    ..*old(self)
                }
            } else {
                *old(self)
            }),
    {
        if index < self.displayed_sponsors.len() {
            self.selected_sponsor_idx = Some(index);
            self.edited_sponsor = Some(self.displayed_sponsors[index].clone());
        }
    }

    /// Selects row `index` of the displayed associations and takes a copy
    /// of it to edit. A row that is not there selects nothing.
    pub fn select_fa(&mut self, index: usize)
        ensures
            *final(self) == (if index < old(self).displayed_fas@.len() {
                SponsorEditorView {
                    selected_fa_idx: Some(index),
                    edited_fa: Some(old(self).displayed_fas@[index as int]),
                    ..*old(self)
                }
            } else {
                *old(self)
            }),
    {
        if index < self.displayed_fas.len() {
            self.selected_fa_idx = Some(index);
            self.edited_fa = Some(self.displayed_fas[index].clone());
        }
    }

    /// Takes `path` as the logo of the sponsor that is being edited, of the
    /// selected row of the displayed sponsors, and of the first sponsor of
    /// the edited sponsor's name. Without a sponsor being edited nothing
    /// changes.
    pub fn set_logo_path(&mut self, path: std::path::PathBuf)
        ensures
            old(self).edited_sponsor is None ==> *final(self) == *old(self),
            old(self).edited_sponsor matches Some(edited) ==> {
                &&& final(self).edited_sponsor == Some(
                    Sponsor { logo_path: Some(path), ..edited },
                )
                &&& final(self).displayed_sponsors@ == match old(self).selected_sponsor_idx {
                    Some(i) => if i < old(self).displayed_sponsors@.len() {
                        old(self).displayed_sponsors@.update(
                            i as int,
                            Sponsor {
                                logo_path: Some(path),
                                ..old(self).displayed_sponsors@[i as int]
                            },
                        )
                    } else {
                        old(self).displayed_sponsors@
                    },
                    None => old(self).displayed_sponsors@,
                }
                &&& final(self).sponsors@ == match first_of_name(
                    old(self).sponsors@,
                    edited.sponsor_name@,
                ) {
                    Some(i) => old(self).sponsors@.update(
                        i,
                        Sponsor { logo_path: Some(path), ..old(self).sponsors@[i] },
                    ),
                    None => old(self).sponsors@,
                }
                &&& final(self).fas == old(self).fas
                &&& final(self).displayed_fas == old(self).displayed_fas
                &&& final(self).search_query == old(self).search_query
                &&& final(self).mode == old(self).mode
                &&& final(self).selected_sponsor_idx == old(self).selected_sponsor_idx
                &&& final(self).selected_fa_idx == old(self).selected_fa_idx
                &&& final(self).edited_fa == old(self).edited_fa
            },
    {
        let name = match &self.edited_sponsor {
            Some(edited) => edited.sponsor_name.clone(),
            None => {
                return ;
            },
        };
        let mut edited = match &self.edited_sponsor {
            Some(edited) => edited.clone(),
            None => {
                return ;
            },
        };
        edited.logo_path = Some(path.clone());
        self.edited_sponsor = Some(edited);
        match self.selected_sponsor_idx {
            Some(i) => {
                if i < self.displayed_sponsors.len() {
                    let mut shown = self.displayed_sponsors[i].clone();
                    shown.logo_path = Some(path.clone());
                    self.displayed_sponsors.set(i, shown);
                }
            },
            None => {},
        }
        let mut i: usize = 0;
        while i < self.sponsors.len()
            invariant
                i <= self.sponsors@.len(),
                self.sponsors == old(self).sponsors,
                old(self).edited_sponsor is Some,
                name@ == old(self).edited_sponsor->0.sponsor_name@,
                first_of_name(self.sponsors@, name@) == first_of_name_from(
                    self.sponsors@,
                    name@,
                    i as int,
                ),
                self.edited_sponsor == Some(
                    Sponsor { logo_path: Some(path), ..old(self).edited_sponsor->0 },
                ),
                self.displayed_sponsors@ == match old(self).selected_sponsor_idx {
                    Some(i) => if i < old(self).displayed_sponsors@.len() {
                        old(self).displayed_sponsors@.update(
                            i as int,
                            Sponsor {
                                logo_path: Some(path),
                                ..old(self).displayed_sponsors@[i as int]
                            },
                        )
                    } else {
                        old(self).displayed_sponsors@
                    },
                    None => old(self).displayed_sponsors@,
                },
                self.fas == old(self).fas,
                self.displayed_fas == old(self).displayed_fas,
                self.search_query == old(self).search_query,
                self.mode == old(self).mode,
                self.selected_sponsor_idx == old(self).selected_sponsor_idx,
                self.selected_fa_idx == old(self).selected_fa_idx,
                self.edited_fa == old(self).edited_fa,
            decreases self.sponsors.len() - i,
        {
            if self.sponsors[i].sponsor_name == name {
                let mut kept = self.sponsors[i].clone();
                kept.logo_path = Some(path);
                self.sponsors.set(i, kept);
                return ;
            }
            i = i + 1;
        }
    }

    /// The sponsor to create next: a copy of the last sponsor under a new
    /// name, which is a fixed word and the number of sponsors there will
    /// be. Without a sponsor to copy there is none.
    pub fn draft_new_sponsor(&self) -> (draft: Option<Sponsor>)
        requires
            self.sponsors@.len() < usize::MAX,
        ensures
            draft is Some <==> self.sponsors@.len() > 0,
            draft matches Some(s) ==> s == (Sponsor {
                sponsor_name: s.sponsor_name,
                ..self.sponsors@.last()
            }) && s.sponsor_name@ == spec_new_sponsor_name(self.sponsors@.len() as int),
    {
        let n = self.sponsors.len();
        if n == 0 {
            return None;
        }
        let mut name = "赞助商".to_owned();
        push_decimal(&mut name, (n + 1) as u64);
        let mut draft = self.sponsors[n - 1].clone();
        draft.sponsor_name = name;
        Some(draft)
    }

    /// Takes a sponsor that was created into the list, searches anew, and
    /// selects the first displayed sponsor of its name to edit. When the
    /// search finds no sponsor of that name, the selection stays.
    pub fn adopt_sponsor(&mut self, sponsor: Sponsor)
        ensures
            final(self).sponsors@ == old(self).sponsors@.push(sponsor),
            final(self).search_applied(),
            final(self).fas == old(self).fas,
            final(self).search_query == old(self).search_query,
            final(self).mode == old(self).mode,
            final(self).selected_fa_idx == old(self).selected_fa_idx,
            final(self).edited_fa == old(self).edited_fa,
            first_of_name(final(self).displayed_sponsors@, sponsor.sponsor_name@) matches Some(i)
                ==> final(self).selected_sponsor_idx == Some(i as usize) && final(
                self).edited_sponsor == Some(final(self).displayed_sponsors@[i]),
            first_of_name(final(self).displayed_sponsors@, sponsor.sponsor_name@) is None
                ==> final(self).selected_sponsor_idx == old(self).selected_sponsor_idx && final(
                self).edited_sponsor == old(self).edited_sponsor,
    {
        let name = sponsor.sponsor_name.clone();
        self.sponsors.push(sponsor);
        self.apply_search_filter();
        let mut i: usize = 0;
        while i < self.displayed_sponsors.len()
            invariant
                i <= self.displayed_sponsors@.len(),
                self.search_applied(),
                self.sponsors@ == old(self).sponsors@.push(sponsor),
                self.fas == old(self).fas,
                self.search_query == old(self).search_query,
                self.same_selection(old(self)),
                name@ == sponsor.sponsor_name@,
                first_of_name(self.displayed_sponsors@, name@) == first_of_name_from(
                    self.displayed_sponsors@,
                    name@,
                    i as int,
                ),
            decreases self.displayed_sponsors.len() - i,
        {
            if self.displayed_sponsors[i].sponsor_name == name {
                self.selected_sponsor_idx = Some(i);
                self.edited_sponsor = Some(self.displayed_sponsors[i].clone());
                return ;
            }
            i = i + 1;
        }
    }
}

} // verus!
