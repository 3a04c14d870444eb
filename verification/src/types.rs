//! The data of one moderation response.
use vstd::prelude::*;

verus! {

/// One flag per moderation category of interest.
#[derive(Debug, Clone, Copy, PartialEq, Eq, Default)]
pub struct Categories {
    pub violence: bool,
    pub violence_graphic: bool,
    pub harassment_threatening: bool,
    pub hate_threatening: bool,
    pub illicit_violent: bool,
}

/// The score of each category, as the decimal text that the response held
/// for it: blanks trimmed, empty where the response named no such score.
/// A text that is no number counts as zero.
#[derive(Debug, Clone, PartialEq, Eq, Default)]
pub struct CategoryScores {
    pub violence: Vec<u8>,
    pub violence_graphic: Vec<u8>,
    pub harassment_threatening: Vec<u8>,
    pub hate_threatening: Vec<u8>,
    pub illicit_violent: Vec<u8>,
}

/// The flags and scores of one input line.
#[derive(Debug, Clone, PartialEq, Eq, Default)]
pub struct ModerationResult {
    pub categories: Categories,
    pub category_scores: CategoryScores,
}

/// The results of one batch, in the order of its lines.
#[derive(Debug, Clone, PartialEq, Eq, Default)]
pub struct ApiResult {
    pub results: Vec<ModerationResult>,
}

/// What a `CategoryScores` holds.
pub struct ScoreTexts {
    pub violence: Seq<u8>,
    pub violence_graphic: Seq<u8>,
    pub harassment_threatening: Seq<u8>,
    pub hate_threatening: Seq<u8>,
    pub illicit_violent: Seq<u8>,
}

/// What a `ModerationResult` holds.
pub struct ResultModel {
    pub categories: Categories,
    pub scores: ScoreTexts,
}

impl View for CategoryScores {
    type V = ScoreTexts;

    open spec fn view(&self) -> ScoreTexts {
        ScoreTexts {
            violence: self.violence@,
            violence_graphic: self.violence_graphic@,
            harassment_threatening: self.harassment_threatening@,
            hate_threatening: self.hate_threatening@,
            illicit_violent: self.illicit_violent@,
        }
    }
}

impl View for ModerationResult {
    type V = ResultModel;

    open spec fn view(&self) -> ResultModel {
        ResultModel { categories: self.categories, scores: self.category_scores@ }
    }
}

impl View for ApiResult {
    type V = Seq<ResultModel>;

    open spec fn view(&self) -> Seq<ResultModel> {
        self.results@.map_values(|r: ModerationResult| r@)
    }
}

} // verus!
