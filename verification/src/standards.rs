//! Reporting standards as facts independent of any manuscript: their names,
//! how many items each published checklist has, which of those items this
//! engine carries, and what evidence each carried item needs.

use vstd::prelude::*;

use crate::text::{str_eq, views};

verus! {

/// A reporting standard a journal can bind.
#[derive(Debug, Clone, Copy, PartialEq, Eq, Structural)]
pub enum Standard {
    Consort,
    Prisma,
    Strobe,
    Arrive,
    Tripod,
    Cheers,
    Spirit,
    Stard,
}

pub open spec fn standard_name(s: Standard) -> Seq<char> {
    match s {
        Standard::Consort => "CONSORT"@,
        Standard::Prisma => "PRISMA"@,
        Standard::Strobe => "STROBE"@,
        Standard::Arrive => "ARRIVE"@,
        Standard::Tripod => "TRIPOD"@,
        Standard::Cheers => "CHEERS"@,
        Standard::Spirit => "SPIRIT"@,
        Standard::Stard => "STARD"@,
    }
}

/// The standards in the order the absence report walks them.
pub open spec fn all_standards() -> Seq<Standard> {
    seq![
        Standard::Consort,
        Standard::Prisma,
        Standard::Strobe,
        Standard::Arrive,
        Standard::Tripod,
        Standard::Cheers,
        Standard::Spirit,
        Standard::Stard,
    ]
}

/// How many items a published standard has, with the unit named: `numbered`
/// counts top-level numbered items; `sub_items` counts checklist rows where
/// that total is recorded.
#[derive(Debug, Clone, Copy, PartialEq, Eq, Structural)]
pub struct PublishedCount {
    pub numbered: usize,
    pub sub_items: Option<usize>,
}

pub open spec fn published_spec(s: Standard) -> Option<PublishedCount> {
    match s {
        Standard::Consort => Some(PublishedCount { numbered: 25, sub_items: None }),
        Standard::Prisma => Some(PublishedCount { numbered: 27, sub_items: None }),
        Standard::Strobe => Some(PublishedCount { numbered: 22, sub_items: None }),
        Standard::Arrive => Some(PublishedCount { numbered: 21, sub_items: None }),
        Standard::Tripod => Some(PublishedCount { numbered: 22, sub_items: None }),
        _ => None,
    }
}

impl Standard {
    pub fn as_str(self) -> (r: &'static str)
        ensures
            r@ == standard_name(self),
    {
        match self {
            Standard::Consort => "CONSORT",
            Standard::Prisma => "PRISMA",
            Standard::Strobe => "STROBE",
            Standard::Arrive => "ARRIVE",
            Standard::Tripod => "TRIPOD",
            Standard::Cheers => "CHEERS",
            Standard::Spirit => "SPIRIT",
            Standard::Stard => "STARD",
        }
    }

    /// Whether this engine's item labels include sub-items (`6a`, `16a`), so
    /// that a count of them is not in the unit of `numbered`.
    pub fn items_are_sub_items(self) -> (r: bool)
        ensures
            r == (published_spec(self) is Some),
    {
        match self {
            Standard::Consort | Standard::Prisma | Standard::Strobe | Standard::Arrive
            | Standard::Tripod => true,
            _ => false,
        }
    }

    /// The standard a stored requirement value names, written exactly as its
    /// name is written (`"STROBE"`), or in lower case.
    pub fn parse(s: &str) -> (r: Option<Standard>)
        ensures
            r == parse_standard(s@),
    {
        let all = vec![
            Standard::Consort,
            Standard::Prisma,
            Standard::Strobe,
            Standard::Arrive,
            Standard::Tripod,
            Standard::Cheers,
            Standard::Spirit,
            Standard::Stard,
        ];
        assert(all@ =~= all_standards());
        let mut i: usize = 0;
        while i < all.len()
            invariant
                all@ == all_standards(),
                i <= all@.len(),
                parse_standard(s@) == parse_from(s@, i as int),
            decreases all@.len() - i,
        {
            let name = all[i].as_str();
            let lower = crate::text::to_lowercase(name);
            if str_eq(name, s) || str_eq(lower.as_str(), s) {
                return Some(all[i]);
            }
            i += 1;
        }
        None
    }
}

/// The first standard, from position `k` of [`all_standards`] on, whose name
/// or lowercase name is `v`.
pub open spec fn parse_from(v: Seq<char>, k: int) -> Option<Standard>
    decreases all_standards().len() - k,
{
    if k < 0 || k >= all_standards().len() {
        None
    } else if standard_name(all_standards()[k]) == v || crate::text::lowercase(
        standard_name(all_standards()[k]),
    ) == v {
        Some(all_standards()[k])
    } else {
        parse_from(v, k + 1)
    }
}

/// The standard a value names.
pub open spec fn parse_standard(v: Seq<char>) -> Option<Standard> {
    parse_from(v, 0)
}

/// What a published standard has, with its unit. `None` for standards with
/// no evaluator.
pub fn published_item_count(s: Standard) -> (r: Option<PublishedCount>)
    ensures
        r == published_spec(s),
{
    match s {
        Standard::Consort => Some(PublishedCount { numbered: 25, sub_items: None }),
        Standard::Prisma => Some(PublishedCount { numbered: 27, sub_items: None }),
        Standard::Strobe => Some(PublishedCount { numbered: 22, sub_items: None }),
        Standard::Arrive => Some(PublishedCount { numbered: 21, sub_items: None }),
        Standard::Tripod => Some(PublishedCount { numbered: 22, sub_items: None }),
        _ => None,
    }
}

/// The evidence an item needs, named without naming a manuscript.
#[derive(Debug, Clone, Copy, PartialEq, Eq, Structural)]
pub enum ItemCheck {
    /// The evidence lives only in a layer that is not produced.
    NotImplemented,
    AbstractPresent,
    ResultsSectionPresent,
    SampleSizeReported,
    StatisticalTestReported,
    EffectSizeReported,
    ConfidenceIntervalReported,
}

impl ItemCheck {
    /// Whether an item with this check can be decided at all.
    pub fn is_evaluable(self) -> (r: bool)
        ensures
            r == (self != ItemCheck::NotImplemented),
    {
        match self {
            ItemCheck::NotImplemented => false,
            _ => true,
        }
    }
}

/// One carried item of a standard.
#[derive(Debug)]
pub struct StandardItem {
    pub item: &'static str,
    pub requirement: &'static str,
    pub check: ItemCheck,
    /// The fields the check reads. `science.*` names the declined scientific
    /// layer.
    pub reads: Vec<&'static str>,
}

/// A journal's binding of a standard to a study design, with its sentence.
#[derive(Debug, Clone)]
pub struct StandardBinding {
    pub standard: Standard,
    pub design: String,
    pub source_span: String,
}

/// The item has exactly this label, requirement, check and reads.
pub open spec fn item_is(
    it: StandardItem,
    item: Seq<char>,
    requirement: Seq<char>,
    check: ItemCheck,
    reads: Seq<Seq<char>>,
) -> bool {
    &&& it.item@ == item
    &&& it.requirement@ == requirement
    &&& it.check == check
    &&& views(it.reads@) == reads
}

/// How many of `items` can be decided.
pub open spec fn count_evaluable(items: Seq<StandardItem>) -> nat
    decreases items.len(),
{
    if items.len() == 0 {
        0
    } else {
        count_evaluable(items.drop_last()) + if items.last().check != ItemCheck::NotImplemented {
            1nat
        } else {
            0nat
        }
    }
}

pub const CONSORT_1B: &'static str =
    "Structured summary of trial design, methods, results, and conclusions";
pub const CONSORT_6A: &'static str =
    "Completely defined pre-specified primary and secondary outcome measures";
pub const CONSORT_7A: &'static str = "How sample size was determined";
pub const CONSORT_12A: &'static str =
    "Statistical methods used to compare groups for primary and secondary outcomes";
pub const CONSORT_17A: &'static str =
    "For each outcome, results for each group, and the estimated effect size and its precision";
pub const PRISMA_2: &'static str = "Structured summary of the review";
pub const PRISMA_5: &'static str = "Specify the inclusion and exclusion criteria for the review";
pub const PRISMA_7: &'static str = "Present the full search strategies for all databases";
pub const PRISMA_13A: &'static str =
    "Describe the processes used to decide which studies were eligible for each synthesis";
pub const PRISMA_16A: &'static str =
    "Describe the results of the search and selection process";
pub const STROBE_4: &'static str = "Present key elements of study design early in the paper";
pub const STROBE_6A: &'static str =
    "Give the eligibility criteria, and the sources and methods of selection of participants";
pub const STROBE_10: &'static str = "Explain how the study sample size was arrived at";
pub const STROBE_12A: &'static str =
    "Describe all methods used to control for confounding";
pub const STROBE_16A: &'static str =
    "Give estimates and their precision (e.g. 95% confidence interval)";
pub const ARRIVE_1A: &'static str =
    "Provide brief details of the groups being compared, including control groups";
pub const ARRIVE_2B: &'static str = "Explain how the sample size was decided";
pub const ARRIVE_3A: &'static str =
    "Describe any criteria used for including and excluding animals";
pub const ARRIVE_7A: &'static str =
    "Provide details of the statistical methods used for each analysis";
pub const ARRIVE_10B: &'static str =
    "For each analysis, report the effect size with its measure of precision";
pub const TRIPOD_4A: &'static str = "Describe the study design or source of data";
pub const TRIPOD_5A: &'static str = "Specify key elements of the study setting";
pub const TRIPOD_7A: &'static str =
    "Clearly define all predictors used in developing the model";
pub const TRIPOD_8: &'static str = "Explain how the study sample size was arrived at";
pub const TRIPOD_10B: &'static str =
    "Specify type of model, all model-building procedures, and method for internal validation";

fn make_item(
    item: &'static str,
    requirement: &'static str,
    check: ItemCheck,
    read: &'static str,
) -> (r: StandardItem)
    ensures
        item_is(r, item@, requirement@, check, seq![read@]),
{
    let reads = vec![read];
    assert(views(reads@) =~= seq![read@]);
    StandardItem { item, requirement, check, reads }
}

/// The `k`-th item this engine carries for a standard: its label, its
/// requirement, its check, and the fields it reads.
pub open spec fn item_data(s: Standard, k: int) -> (Seq<char>, Seq<char>, ItemCheck, Seq<Seq<char>>) {
    match s {
        Standard::Consort => {
            if k == 0 {
                ("1b"@, CONSORT_1B@, ItemCheck::AbstractPresent, seq!["structure"@])
            } else if k == 1 {
                ("6a"@, CONSORT_6A@, ItemCheck::NotImplemented, seq!["science.outcomes"@])
            } else if k == 2 {
                ("7a"@, CONSORT_7A@, ItemCheck::SampleSizeReported, seq!["statistics"@])
            } else if k == 3 {
                ("12a"@, CONSORT_12A@, ItemCheck::StatisticalTestReported, seq!["statistics"@])
            } else if k == 4 {
                ("17a"@, CONSORT_17A@, ItemCheck::EffectSizeReported, seq!["statistics"@])
            } else {
                (Seq::empty(), Seq::empty(), ItemCheck::NotImplemented, Seq::empty())
            }
        },
        Standard::Prisma => {
            if k == 0 {
                ("2"@, PRISMA_2@, ItemCheck::AbstractPresent, seq!["structure"@])
            } else if k == 1 {
                ("5"@, PRISMA_5@, ItemCheck::NotImplemented, seq!["science.eligibility"@])
            } else if k == 2 {
                ("7"@, PRISMA_7@, ItemCheck::NotImplemented, seq!["science.methods"@])
            } else if k == 3 {
                ("13a"@, PRISMA_13A@, ItemCheck::NotImplemented, seq!["science.methods"@])
            } else if k == 4 {
                ("16a"@, PRISMA_16A@, ItemCheck::ResultsSectionPresent, seq!["structure"@])
            } else {
                (Seq::empty(), Seq::empty(), ItemCheck::NotImplemented, Seq::empty())
            }
        },
        Standard::Strobe => {
            if k == 0 {
                ("4"@, STROBE_4@, ItemCheck::NotImplemented, seq!["science.design"@])
            } else if k == 1 {
                ("6a"@, STROBE_6A@, ItemCheck::NotImplemented, seq!["science.population"@])
            } else if k == 2 {
                ("10"@, STROBE_10@, ItemCheck::SampleSizeReported, seq!["statistics"@])
            } else if k == 3 {
                ("12a"@, STROBE_12A@, ItemCheck::NotImplemented, seq!["science.methods"@])
            } else if k == 4 {
                ("16a"@, STROBE_16A@, ItemCheck::ConfidenceIntervalReported, seq!["statistics"@])
            } else {
                (Seq::empty(), Seq::empty(), ItemCheck::NotImplemented, Seq::empty())
            }
        },
        Standard::Arrive => {
            if k == 0 {
                ("1a"@, ARRIVE_1A@, ItemCheck::NotImplemented, seq!["science.design"@])
            } else if k == 1 {
                ("2b"@, ARRIVE_2B@, ItemCheck::SampleSizeReported, seq!["statistics"@])
            } else if k == 2 {
                ("3a"@, ARRIVE_3A@, ItemCheck::NotImplemented, seq!["science.population"@])
            } else if k == 3 {
                ("7a"@, ARRIVE_7A@, ItemCheck::StatisticalTestReported, seq!["statistics"@])
            } else if k == 4 {
                ("10b"@, ARRIVE_10B@, ItemCheck::NotImplemented, seq!["science.results"@])
            } else {
                (Seq::empty(), Seq::empty(), ItemCheck::NotImplemented, Seq::empty())
            }
        },
        Standard::Tripod => {
            if k == 0 {
                ("4a"@, TRIPOD_4A@, ItemCheck::NotImplemented, seq!["science.design"@])
            } else if k == 1 {
                ("5a"@, TRIPOD_5A@, ItemCheck::NotImplemented, seq!["science.population"@])
            } else if k == 2 {
                ("7a"@, TRIPOD_7A@, ItemCheck::NotImplemented, seq!["science.variables"@])
            } else if k == 3 {
                ("8"@, TRIPOD_8@, ItemCheck::SampleSizeReported, seq!["statistics"@])
            } else if k == 4 {
                ("10b"@, TRIPOD_10B@, ItemCheck::NotImplemented, seq!["science.methods"@])
            } else {
                (Seq::empty(), Seq::empty(), ItemCheck::NotImplemented, Seq::empty())
            }
        },
        _ => (Seq::empty(), Seq::empty(), ItemCheck::NotImplemented, Seq::empty()),
    }
}

/// How many items this engine carries for a standard.
pub open spec fn item_count(s: Standard) -> nat {
    match s {
        Standard::Consort | Standard::Prisma | Standard::Strobe | Standard::Arrive
        | Standard::Tripod => 5,
        _ => 0,
    }
}

/// The items carried for a standard, in checklist order.
pub open spec fn items_ok(s: Standard, its: Seq<StandardItem>) -> bool {
    &&& its.len() == item_count(s)
    &&& forall|k: int|
        0 <= k < its.len() ==> item_is(
            #[trigger] its[k],
            item_data(s, k).0,
            item_data(s, k).1,
            item_data(s, k).2,
            item_data(s, k).3,
        )
}

/// The items this engine carries for a standard. Empty for a standard with no
/// evaluator.
pub fn items_for(s: Standard) -> (r: Vec<StandardItem>)
    ensures
        items_ok(s, r@),
{
    let mut v = Vec::new();
    match s {
        Standard::Consort => {
            v.push(make_item("1b", CONSORT_1B, ItemCheck::AbstractPresent, "structure"));
            v.push(make_item("6a", CONSORT_6A, ItemCheck::NotImplemented, "science.outcomes"));
            v.push(make_item("7a", CONSORT_7A, ItemCheck::SampleSizeReported, "statistics"));
            v.push(make_item("12a", CONSORT_12A, ItemCheck::StatisticalTestReported, "statistics"));
            v.push(make_item("17a", CONSORT_17A, ItemCheck::EffectSizeReported, "statistics"));
        },
        Standard::Prisma => {
            v.push(make_item("2", PRISMA_2, ItemCheck::AbstractPresent, "structure"));
            v.push(make_item("5", PRISMA_5, ItemCheck::NotImplemented, "science.eligibility"));
            v.push(make_item("7", PRISMA_7, ItemCheck::NotImplemented, "science.methods"));
            v.push(make_item("13a", PRISMA_13A, ItemCheck::NotImplemented, "science.methods"));
            v.push(make_item("16a", PRISMA_16A, ItemCheck::ResultsSectionPresent, "structure"));
        },
        Standard::Strobe => {
            v.push(make_item("4", STROBE_4, ItemCheck::NotImplemented, "science.design"));
            v.push(make_item("6a", STROBE_6A, ItemCheck::NotImplemented, "science.population"));
            v.push(make_item("10", STROBE_10, ItemCheck::SampleSizeReported, "statistics"));
            v.push(make_item("12a", STROBE_12A, ItemCheck::NotImplemented, "science.methods"));
            v.push(make_item("16a", STROBE_16A, ItemCheck::ConfidenceIntervalReported, "statistics"));
        },
        Standard::Arrive => {
            v.push(make_item("1a", ARRIVE_1A, ItemCheck::NotImplemented, "science.design"));
            v.push(make_item("2b", ARRIVE_2B, ItemCheck::SampleSizeReported, "statistics"));
            v.push(make_item("3a", ARRIVE_3A, ItemCheck::NotImplemented, "science.population"));
            v.push(make_item("7a", ARRIVE_7A, ItemCheck::StatisticalTestReported, "statistics"));
            v.push(make_item("10b", ARRIVE_10B, ItemCheck::NotImplemented, "science.results"));
        },
        Standard::Tripod => {
            v.push(make_item("4a", TRIPOD_4A, ItemCheck::NotImplemented, "science.design"));
            v.push(make_item("5a", TRIPOD_5A, ItemCheck::NotImplemented, "science.population"));
            v.push(make_item("7a", TRIPOD_7A, ItemCheck::NotImplemented, "science.variables"));
            v.push(make_item("8", TRIPOD_8, ItemCheck::SampleSizeReported, "statistics"));
            v.push(make_item("10b", TRIPOD_10B, ItemCheck::NotImplemented, "science.methods"));
        },
        _ => {},
    }
    v
}

} // verus!
