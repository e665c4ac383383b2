//! Sponsors and football associations.

use vstd::prelude::*;
use vstd::string::*;
use crate::text::{decimal, format_i64, number_or_zero, spec_number_or_zero};

verus! {

/// The owned file path of the standard library, carried through unread.
#[verifier::external_type_specification]
#[verifier::external_body]
pub struct ExPathBuf(std::path::PathBuf);

/// `PathBuf`'s `clone`: the copy is the path itself.
pub assume_specification[ <std::path::PathBuf as Clone>::clone ](
    path: &std::path::PathBuf,
) -> (copy: std::path::PathBuf)
    ensures
        copy == *path,
;

/// A sponsor. Offers and the unlock flag are kept as the texts that the
/// record store holds.
#[derive(Debug)]
pub struct Sponsor {
    pub sponsor_name: String,
    pub sponsor_type: String,
    pub unlocked: String,
    pub description: String,
    pub brand_offer: String,
    pub chest_offer: String,
    pub back_offer: String,
    pub sleeve_offer: String,
    pub billboard_offer: String,
    pub bib_offer: String,
    pub banner_offer: String,
    pub headquarter_location: String,
    pub industry: String,
    pub location_restriction: String,
    pub logo_path: Option<std::path::PathBuf>,
}

impl Clone for Sponsor {
    fn clone(&self) -> (r: Self)
        ensures
            r == *self,
    {
        Sponsor {
            sponsor_name: self.sponsor_name.clone(),
            sponsor_type: self.sponsor_type.clone(),
            unlocked: self.unlocked.clone(),
            description: self.description.clone(),
            brand_offer: self.brand_offer.clone(),
            chest_offer: self.chest_offer.clone(),
            back_offer: self.back_offer.clone(),
            sleeve_offer: self.sleeve_offer.clone(),
            billboard_offer: self.billboard_offer.clone(),
            bib_offer: self.bib_offer.clone(),
            banner_offer: self.banner_offer.clone(),
            headquarter_location: self.headquarter_location.clone(),
            industry: self.industry.clone(),
            location_restriction: self.location_restriction.clone(),
            logo_path: match &self.logo_path {
                Some(path) => Some(path.clone()),
                None => None,
            },
        }
    }
}

/// The numbers among the columns of a sponsor in the record store.
#[derive(Debug, Clone, Copy, PartialEq, Eq)]
pub struct SponsorNumbers {
    pub unlocked: i64,
    pub brand_offer: i64,
    pub chest_offer: i64,
    pub back_offer: i64,
    pub sleeve_offer: i64,
    pub billboard_offer: i64,
    pub bib_offer: i64,
    pub banner_offer: i64,
}

impl Sponsor {
    /// The numbers of `self` as texts are those of `numbers`.
    pub open spec fn shows_numbers(&self, numbers: SponsorNumbers) -> bool {
        &&& self.unlocked@ == decimal(numbers.unlocked as int)
        &&& self.brand_offer@ == decimal(numbers.brand_offer as int)
        &&& self.chest_offer@ == decimal(numbers.chest_offer as int)
        &&& self.back_offer@ == decimal(numbers.back_offer as int)
        &&& self.sleeve_offer@ == decimal(numbers.sleeve_offer as int)
        &&& self.billboard_offer@ == decimal(numbers.billboard_offer as int)
        &&& self.bib_offer@ == decimal(numbers.bib_offer as int)
        &&& self.banner_offer@ == decimal(numbers.banner_offer as int)
    }

    /// A sponsor from the columns of the record store: the texts as they
    /// are, the numbers in decimal, and no logo.
    pub fn from_columns(
        sponsor_name: String,
        sponsor_type: String,
        description: String,
        headquarter_location: String,
        industry: String,
        location_restriction: String,
        numbers: SponsorNumbers,
    ) -> (s: Self)
        ensures
            s.sponsor_name == sponsor_name,
            s.sponsor_type == sponsor_type,
            s.description == description,
            s.headquarter_location == headquarter_location,
            s.industry == industry,
            s.location_restriction == location_restriction,
            s.shows_numbers(numbers),
            s.logo_path is None,
    {
        Sponsor {
            sponsor_name,
            sponsor_type,
            unlocked: format_i64(numbers.unlocked),
            description,
            brand_offer: format_i64(numbers.brand_offer),
            chest_offer: format_i64(numbers.chest_offer),
            back_offer: format_i64(numbers.back_offer),
            sleeve_offer: format_i64(numbers.sleeve_offer),
            billboard_offer: format_i64(numbers.billboard_offer),
            bib_offer: format_i64(numbers.bib_offer),
            banner_offer: format_i64(numbers.banner_offer),
            headquarter_location,
            industry,
            location_restriction,
            logo_path: None,
        }
    }

    /// The numbers to write to the record store: each text as the number
    /// it holds, or zero where it holds none.
    pub fn numbers(&self) -> (numbers: SponsorNumbers)
        ensures
            numbers == (SponsorNumbers {
                unlocked: spec_number_or_zero(self.unlocked@),
                brand_offer: spec_number_or_zero(self.brand_offer@),
                chest_offer: spec_number_or_zero(self.chest_offer@),
                back_offer: spec_number_or_zero(self.back_offer@),
                sleeve_offer: spec_number_or_zero(self.sleeve_offer@),
                billboard_offer: spec_number_or_zero(self.billboard_offer@),
                bib_offer: spec_number_or_zero(self.bib_offer@),
                banner_offer: spec_number_or_zero(self.banner_offer@),
            }),
    {
        SponsorNumbers {
            unlocked: number_or_zero(self.unlocked.as_str()),
            brand_offer: number_or_zero(self.brand_offer.as_str()),
            chest_offer: number_or_zero(self.chest_offer.as_str()),
            back_offer: number_or_zero(self.back_offer.as_str()),
            sleeve_offer: number_or_zero(self.sleeve_offer.as_str()),
            billboard_offer: number_or_zero(self.billboard_offer.as_str()),
            bib_offer: number_or_zero(self.bib_offer.as_str()),
            banner_offer: number_or_zero(self.banner_offer.as_str()),
        }
    }

    /// A sponsor of the generic type with empty texts and offers of zero.
    pub fn new() -> (s: Self)
        ensures
            s.sponsor_name@ == Seq::<char>::empty(),
            s.sponsor_type@ == "Generic"@,
            s.unlocked@ == "0"@,
            s.description@ == Seq::<char>::empty(),
            s.brand_offer@ == "0"@,
            s.chest_offer@ == "0"@,
            s.back_offer@ == "0"@,
            s.sleeve_offer@ == "0"@,
            s.billboard_offer@ == "0"@,
            s.bib_offer@ == "0"@,
            s.banner_offer@ == "0"@,
            s.headquarter_location@ == Seq::<char>::empty(),
            s.industry@ == Seq::<char>::empty(),
            s.location_restriction@ == Seq::<char>::empty(),
            s.logo_path is None,
    {
        Sponsor {
            sponsor_name: String::new(),
            sponsor_type: "Generic".to_owned(),
            unlocked: "0".to_owned(),
            description: String::new(),
            brand_offer: "0".to_owned(),
            chest_offer: "0".to_owned(),
            back_offer: "0".to_owned(),
            sleeve_offer: "0".to_owned(),
            billboard_offer: "0".to_owned(),
            bib_offer: "0".to_owned(),
            banner_offer: "0".to_owned(),
            headquarter_location: String::new(),
            industry: String::new(),
            location_restriction: String::new(),
            logo_path: None,
        }
    }
}

/// A football association. Levels, relations, abilities and fame are kept
/// as the texts that the record store holds.
#[derive(Debug)]
pub struct FA {
    pub id: i64,
    pub title: String,
    pub location: String,
    pub subsidy_level: String,
    pub main_operator_name: String,
    pub youth_operator_name: String,
    pub competition_operator_name: String,
    pub youth_development: String,
    pub youth_operator_relation: String,
    pub youth_operator_ability: String,
    pub competition_operator_relation: String,
    pub competition_operator_ability: String,
    pub main_operator_relation: String,
    pub main_operator_ability: String,
    pub main_operator_fame: String,
    pub youth_operator_fame: String,
    pub competition_operator_fame: String,
}

impl Clone for FA {
    fn clone(&self) -> (r: Self)
        ensures
            r == *self,
    {
        FA {
            id: self.id,
            title: self.title.clone(),
            location: self.location.clone(),
            subsidy_level: self.subsidy_level.clone(),
            main_operator_name: self.main_operator_name.clone(),
            youth_operator_name: self.youth_operator_name.clone(),
            competition_operator_name: self.competition_operator_name.clone(),
            youth_development: self.youth_development.clone(),
            youth_operator_relation: self.youth_operator_relation.clone(),
            youth_operator_ability: self.youth_operator_ability.clone(),
            competition_operator_relation: self.competition_operator_relation.clone(),
            competition_operator_ability: self.competition_operator_ability.clone(),
            main_operator_relation: self.main_operator_relation.clone(),
            main_operator_ability: self.main_operator_ability.clone(),
            main_operator_fame: self.main_operator_fame.clone(),
            youth_operator_fame: self.youth_operator_fame.clone(),
            competition_operator_fame: self.competition_operator_fame.clone(),
        }
    }
}

/// The numbers among the columns of an association in the record store.
#[derive(Debug, Clone, Copy, PartialEq, Eq)]
pub struct FaNumbers {
    pub subsidy_level: i64,
    pub youth_development: i64,
    pub youth_operator_relation: i64,
    pub youth_operator_ability: i64,
    pub competition_operator_relation: i64,
    pub competition_operator_ability: i64,
    pub main_operator_relation: i64,
    pub main_operator_ability: i64,
    pub main_operator_fame: i64,
    pub youth_operator_fame: i64,
    pub competition_operator_fame: i64,
}

impl FA {
    /// The numbers of `self` as texts are those of `numbers`.
    pub open spec fn shows_numbers(&self, numbers: FaNumbers) -> bool {
        &&& self.subsidy_level@ == decimal(numbers.subsidy_level as int)
        &&& self.youth_development@ == decimal(numbers.youth_development as int)
        &&& self.youth_operator_relation@ == decimal(numbers.youth_operator_relation as int)
        &&& self.youth_operator_ability@ == decimal(numbers.youth_operator_ability as int)
        &&& self.competition_operator_relation@ == decimal(
            numbers.competition_operator_relation as int,
        )
        &&& self.competition_operator_ability@ == decimal(
            numbers.competition_operator_ability as int,
        )
        &&& self.main_operator_relation@ == decimal(numbers.main_operator_relation as int)
        &&& self.main_operator_ability@ == decimal(numbers.main_operator_ability as int)
        &&& self.main_operator_fame@ == decimal(numbers.main_operator_fame as int)
        &&& self.youth_operator_fame@ == decimal(numbers.youth_operator_fame as int)
        &&& self.competition_operator_fame@ == decimal(numbers.competition_operator_fame as int)
    }

    /// An association from the columns of the record store: the texts as
    /// they are, the numbers in decimal.
    pub fn from_columns(
        id: i64,
        title: String,
        location: String,
        main_operator_name: String,
        youth_operator_name: String,
        competition_operator_name: String,
        numbers: FaNumbers,
    ) -> (fa: Self)
        ensures
            fa.id == id,
            fa.title == title,
            fa.location == location,
            fa.main_operator_name == main_operator_name,
            fa.youth_operator_name == youth_operator_name,
            fa.competition_operator_name == competition_operator_name,
            fa.shows_numbers(numbers),
    {
        FA {
            id,
            title,
            location,
            subsidy_level: format_i64(numbers.subsidy_level),
            main_operator_name,
            youth_operator_name,
            competition_operator_name,
            youth_development: format_i64(numbers.youth_development),
            youth_operator_relation: format_i64(numbers.youth_operator_relation),
            youth_operator_ability: format_i64(numbers.youth_operator_ability),
            competition_operator_relation: format_i64(numbers.competition_operator_relation),
            competition_operator_ability: format_i64(numbers.competition_operator_ability),
            main_operator_relation: format_i64(numbers.main_operator_relation),
            main_operator_ability: format_i64(numbers.main_operator_ability),
            main_operator_fame: format_i64(numbers.main_operator_fame),
            youth_operator_fame: format_i64(numbers.youth_operator_fame),
            competition_operator_fame: format_i64(numbers.competition_operator_fame),
        }
    }

    /// The numbers to write to the record store: each text as the number
    /// it holds, or zero where it holds none.
    pub fn numbers(&self) -> (numbers: FaNumbers)
        ensures
            numbers == (FaNumbers {
                subsidy_level: spec_number_or_zero(self.subsidy_level@),
                youth_development: spec_number_or_zero(self.youth_development@),
                youth_operator_relation: spec_number_or_zero(self.youth_operator_relation@),
                youth_operator_ability: spec_number_or_zero(self.youth_operator_ability@),
                competition_operator_relation: spec_number_or_zero(
                    self.competition_operator_relation@,
                ),
                competition_operator_ability: spec_number_or_zero(
                    self.competition_operator_ability@,
                ),
                main_operator_relation: spec_number_or_zero(self.main_operator_relation@),
                main_operator_ability: spec_number_or_zero(self.main_operator_ability@),
                main_operator_fame: spec_number_or_zero(self.main_operator_fame@),
                youth_operator_fame: spec_number_or_zero(self.youth_operator_fame@),
                competition_operator_fame: spec_number_or_zero(self.competition_operator_fame@),
            }),
    {
        FaNumbers {
            subsidy_level: number_or_zero(self.subsidy_level.as_str()),
            youth_development: number_or_zero(self.youth_development.as_str()),
            youth_operator_relation: number_or_zero(self.youth_operator_relation.as_str()),
            youth_operator_ability: number_or_zero(self.youth_operator_ability.as_str()),
            competition_operator_relation: number_or_zero(
                self.competition_operator_relation.as_str(),
            ),
            competition_operator_ability: number_or_zero(
                self.competition_operator_ability.as_str(),
            ),
            main_operator_relation: number_or_zero(self.main_operator_relation.as_str()),
            main_operator_ability: number_or_zero(self.main_operator_ability.as_str()),
            main_operator_fame: number_or_zero(self.main_operator_fame.as_str()),
            youth_operator_fame: number_or_zero(self.youth_operator_fame.as_str()),
            competition_operator_fame: number_or_zero(self.competition_operator_fame.as_str()),
        }
    }

    /// An association with the number zero, empty names and levels of zero.
    pub fn new() -> (fa: Self)
        ensures
            fa.id == 0,
            fa.title@ == Seq::<char>::empty(),
            fa.location@ == Seq::<char>::empty(),
            fa.subsidy_level@ == "0"@,
            fa.main_operator_name@ == Seq::<char>::empty(),
            fa.youth_operator_name@ == Seq::<char>::empty(),
            fa.competition_operator_name@ == Seq::<char>::empty(),
            fa.youth_development@ == "0"@,
            fa.youth_operator_relation@ == "0"@,
            fa.youth_operator_ability@ == "0"@,
            fa.competition_operator_relation@ == "0"@,
            fa.competition_operator_ability@ == "0"@,
            fa.main_operator_relation@ == "0"@,
            fa.main_operator_ability@ == "0"@,
            fa.main_operator_fame@ == "0"@,
            fa.youth_operator_fame@ == "0"@,
            fa.competition_operator_fame@ == "0"@,
    {
        FA {
            id: 0,
            title: String::new(),
            location: String::new(),
            subsidy_level: "0".to_owned(),
            main_operator_name: String::new(),
            youth_operator_name: String::new(),
            competition_operator_name: String::new(),
            youth_development: "0".to_owned(),
            youth_operator_relation: "0".to_owned(),
            youth_operator_ability: "0".to_owned(),
            competition_operator_relation: "0".to_owned(),
            competition_operator_ability: "0".to_owned(),
            main_operator_relation: "0".to_owned(),
            main_operator_ability: "0".to_owned(),
            main_operator_fame: "0".to_owned(),
            youth_operator_fame: "0".to_owned(),
            competition_operator_fame: "0".to_owned(),
        }
    }
}

} // verus!
