//! Choosing the scores that count towards a line's two summary scores.
use vstd::prelude::*;
use vstd::slice::slice_to_vec;
use crate::text::line_texts;
use crate::types::{Categories, CategoryScores, ScoreTexts};

verus! {

/// A score counts where its flag is set.
pub open spec fn counted(flag: bool, score: Seq<u8>) -> Seq<Seq<u8>> {
    if flag {
        seq![score]
    } else {
        Seq::empty()
    }
}

/// The scores whose mean is a line's violence score: those of violence,
/// graphic violence and violent illicit content, each where its flag is set.
pub open spec fn violence_group(flags: Categories, scores: ScoreTexts) -> Seq<Seq<u8>> {
    counted(flags.violence, scores.violence) + counted(
        flags.violence_graphic,
        scores.violence_graphic,
    ) + counted(flags.illicit_violent, scores.illicit_violent)
}

/// The scores whose mean is a line's threat score: those of threatening
/// harassment and threatening hate, each where its flag is set.
pub open spec fn threat_group(flags: Categories, scores: ScoreTexts) -> Seq<Seq<u8>> {
    counted(flags.harassment_threatening, scores.harassment_threatening) + counted(
        flags.hate_threatening,
        scores.hate_threatening,
    )
}

fn push_counted(group: &mut Vec<Vec<u8>>, flag: bool, score: &Vec<u8>)
    ensures
        line_texts(final(group)@) == line_texts(old(group)@) + counted(flag, score@),
{
    if flag {
        group.push(slice_to_vec(score.as_slice()));
    }
    proof {
        assert(line_texts(final(group)@) =~= line_texts(old(group)@) + counted(flag, score@));
    }
}

/// The scores that count towards the violence score and those that count
/// towards the threat score. The summary score of a group is the mean of
/// its scores, and zero for an empty group.
pub fn gather_scores(categories: &Categories, scores: &CategoryScores) -> (r: (
    Vec<Vec<u8>>,
    Vec<Vec<u8>>,
))
    ensures
        line_texts(r.0@) == violence_group(*categories, scores@),
        line_texts(r.1@) == threat_group(*categories, scores@),
{
    let mut violence: Vec<Vec<u8>> = Vec::new();
    let mut threat: Vec<Vec<u8>> = Vec::new();
    proof {
        assert(line_texts(violence@) =~= Seq::empty());
        assert(line_texts(threat@) =~= Seq::empty());
    }
    push_counted(&mut violence, categories.violence, &scores.violence);
    push_counted(&mut violence, categories.violence_graphic, &scores.violence_graphic);
    push_counted(&mut violence, categories.illicit_violent, &scores.illicit_violent);
    push_counted(&mut threat, categories.harassment_threatening, &scores.harassment_threatening);
    push_counted(&mut threat, categories.hate_threatening, &scores.hate_threatening);
    proof {
        assert(line_texts(violence@) =~= violence_group(*categories, scores@));
        assert(line_texts(threat@) =~= threat_group(*categories, scores@));
    }
    (violence, threat)
}

/// Where no flag is set no score counts, whatever the scores are.
pub proof fn lemma_no_flag_no_score(flags: Categories, scores: ScoreTexts)
    requires
        !flags.violence,
        !flags.violence_graphic,
        !flags.harassment_threatening,
        !flags.hate_threatening,
        !flags.illicit_violent,
    ensures
        violence_group(flags, scores) == Seq::<Seq<u8>>::empty(),
        threat_group(flags, scores) == Seq::<Seq<u8>>::empty(),
{
    assert(violence_group(flags, scores) =~= Seq::<Seq<u8>>::empty());
    assert(threat_group(flags, scores) =~= Seq::<Seq<u8>>::empty());
}

} // verus!
