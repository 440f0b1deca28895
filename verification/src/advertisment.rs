//! A procurement notice and its matching predicate against a subscription.
//!
//! Matching is a conjunction of five independent clauses: keyword matching on
//! the title, the description and the additional information, and two price
//! bounds. An absent filter field trivially satisfies its clause; absent price
//! fields on the notice fall back to sentinel values chosen so that unpriced
//! notices are never silently excluded by a value filter.

use crate::subscription::Subscription;
use crate::text::{text_matches, text_matches_keywords_ref};
use vstd::prelude::*;

verus! {

/// Stand-in comparison value when a notice carries no usable lower price:
/// an unpriced notice is treated as arbitrarily expensive, so it passes every
/// minimum-price filter a subscription can express.
pub const UNPRICED_HIGH_SENTINEL: i64 = 2147483647;

/// Stand-in comparison value when a notice carries no usable upper price:
/// an unpriced notice is treated as arbitrarily cheap on the maximum-price
/// axis, so it passes every maximum-price filter a subscription can express.
pub const UNPRICED_LOW_SENTINEL: i64 = -2147483648;

/// One procurement notice, as the feed publishes it, with the link the poller
/// derives from its identifier.
#[derive(Debug, Clone)]
pub struct Advertisment {
    pub advertising_notice_id: u64,
    pub contract_object: String,
    pub contract_description: String,
    pub additional_information: Option<String>,
    pub estimated_value: Option<i64>,
    pub min_estimated_value: Option<i64>,
    pub max_estimated_value: Option<i64>,
    pub publication_date: String,
    pub link: String,
}

/// The additional-information text, an absent value read as the empty string.
pub open spec fn info_text(ad: Advertisment) -> Seq<char> {
    match ad.additional_information {
        Some(s) => s@,
        None => Seq::empty(),
    }
}

/// The value a minimum-price filter compares against: the estimated value,
/// else the minimum estimated value, else the high sentinel.
pub open spec fn min_comparison_value(ad: Advertisment) -> int {
    match ad.estimated_value {
        Some(v) => v as int,
        None => match ad.min_estimated_value {
            Some(v) => v as int,
            None => UNPRICED_HIGH_SENTINEL as int,
        },
    }
}

/// The value a maximum-price filter compares against: the estimated value,
/// else the maximum estimated value, else the low sentinel.
pub open spec fn max_comparison_value(ad: Advertisment) -> int {
    match ad.estimated_value {
        Some(v) => v as int,
        None => match ad.max_estimated_value {
            Some(v) => v as int,
            None => UNPRICED_LOW_SENTINEL as int,
        },
    }
}

/// Whether a notice matches a subscription: every present filter clause must
/// hold; an absent filter holds trivially.
pub open spec fn spec_matches(ad: Advertisment, sub: Subscription) -> bool {
    &&& match sub.title_keywords {
        Some(kws) => text_matches(ad.contract_object@, kws.deep_view()),
        None => true,
    }
    &&& match sub.desc_keywords {
        Some(kws) => text_matches(ad.contract_description@, kws.deep_view()),
        None => true,
    }
    &&& match sub.additional_info_keywords {
        Some(kws) => text_matches(info_text(ad), kws.deep_view()),
        None => true,
    }
    &&& match sub.min_price {
        Some(p) => min_comparison_value(ad) >= p as int,
        None => true,
    }
    &&& match sub.max_price {
        Some(p) => max_comparison_value(ad) <= p as int,
        None => true,
    }
}

impl Advertisment {
    /// Decides whether this notice matches `sub`. Pure: the result is a
    /// function of the two records alone, so re-evaluating the same pair
    /// always yields the same answer.
    pub fn matches_subscription(&self, sub: &Subscription) -> (r: bool)
        ensures
            r == spec_matches(*self, *sub),
    {
        let title_match = match &sub.title_keywords {
            Some(kws) => text_matches_keywords_ref(&self.contract_object, kws),
            None => true,
        };

        let desc_match = match &sub.desc_keywords {
            Some(kws) => text_matches_keywords_ref(&self.contract_description, kws),
            None => true,
        };

        let additional_info_match = match &sub.additional_info_keywords {
            Some(kws) => match &self.additional_information {
                Some(info) => text_matches_keywords_ref(info, kws),
                None => false,
            },
            None => true,
        };

        let min_value_match = match sub.min_price {
            Some(p) => {
                let cmp = match self.estimated_value {
                    Some(v) => v,
                    None => match self.min_estimated_value {
                        Some(v) => v,
                        None => UNPRICED_HIGH_SENTINEL,
                    },
                };
                cmp >= p as i64
            },
            None => true,
        };

        let max_value_match = match sub.max_price {
            Some(p) => {
                let cmp = match self.estimated_value {
                    Some(v) => v,
                    None => match self.max_estimated_value {
                        Some(v) => v,
                        None => UNPRICED_LOW_SENTINEL,
                    },
                };
                cmp <= p as i64
            },
            None => true,
        };

        title_match && desc_match && additional_info_match && min_value_match && max_value_match
    }
}

/// Matching is pure: the engine's result is a function of the two records
/// alone, with no hidden state, so re-running it on the same pair always
/// yields the same result. The hypotheses are what `matches_subscription`
/// ensures of any two of its calls on that pair.
pub proof fn lemma_matching_deterministic(ad: Advertisment, sub: Subscription, r1: bool, r2: bool)
    requires
        r1 == spec_matches(ad, sub),
        r2 == spec_matches(ad, sub),
    ensures
        r1 == r2,
{
}

/// A subscription with every filter field absent matches every notice.
pub proof fn lemma_unconstrained_matches(ad: Advertisment, sub: Subscription)
    requires
        sub.title_keywords is None,
        sub.desc_keywords is None,
        sub.additional_info_keywords is None,
        sub.min_price is None,
        sub.max_price is None,
    ensures
        spec_matches(ad, sub),
{
}

/// If a title keyword filter is present and shares no canonical token with
/// the notice title, the notice does not match, whatever the other fields say.
pub proof fn lemma_title_mismatch(ad: Advertisment, sub: Subscription, kws: Vec<String>)
    requires
        sub.title_keywords == Some(kws),
        forall|a: int, b: int, k: int|
            #[trigger] crate::text::is_token(ad.contract_object@, a, b) && 0 <= k
                < kws.deep_view().len() ==> crate::text::canon(ad.contract_object@.subrange(a, b))
                != crate::text::canon(#[trigger] kws.deep_view()[k]),
    ensures
        !spec_matches(ad, sub),
{
}

} // verus!
