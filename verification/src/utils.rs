//! The whitelist applied to class notices, and waiting for the network.
use vstd::prelude::*;
use crate::database::Config;
use crate::entity::{Category, NoticeSent};
use crate::text::{contains_seq, contains_str};

verus! {

/// Some pattern of `filters` occurs in `title`.
pub open spec fn any_pattern_in(title: Seq<char>, filters: Seq<String>) -> bool {
    exists|k: int| 0 <= k < filters.len() && contains_seq(title, #[trigger] filters[k]@)
}

/// Whether a notice passes the filter: notices outside the class category
/// always pass; a class notice passes when no filter is configured or the
/// configured list is empty (an empty list receives everything), or when its
/// title contains one of the configured patterns.
pub open spec fn passes_filter(notice: NoticeSent, filter: Option<Vec<String>>) -> bool {
    if notice.main_category != Category::ClassNotice {
        true
    } else {
        match filter {
            None => true,
            Some(fs) => fs@.len() == 0 || any_pattern_in(notice.title@, fs@),
        }
    }
}

/// Decides whether a notice is kept (see [`passes_filter`]).
pub fn filter_notice(notice: &NoticeSent, config: &Config) -> (r: bool)
    ensures
        r == passes_filter(*notice, config.filter),
{
    if notice.main_category != Category::ClassNotice {
        true
    } else {
        match &config.filter {
            Some(filters) => {
                if filters.len() == 0 {
                    return true;
                }
                let mut k: usize = 0;
                while k < filters.len()
                    invariant
                        k <= filters@.len(),
                        filters@.len() > 0,
                        notice.main_category == Category::ClassNotice,
                        config.filter == Some(*filters),
                        forall|m: int| 0 <= m < k ==> !contains_seq(notice.title@, #[trigger] filters@[m]@),
                    decreases filters@.len() - k,
                {
                    if contains_str(notice.title.as_str(), filters[k].as_str()) {
                        assert(contains_seq(notice.title@, filters@[k as int]@));
                        assert(any_pattern_in(notice.title@, filters@));
                        return true;
                    }
                    k = k + 1;
                }
                false
            },
            None => true,
        }
    }
}

/// The whitelist keeps a class notice as soon as any one of its patterns
/// occurs in the title, whichever position that pattern has in the list;
/// it drops a class notice only when the list is non-empty and no pattern
/// occurs; notices of the other categories, no filter, or an empty list
/// keep everything.
pub proof fn lemma_whitelist(notice: NoticeSent, fs: Vec<String>, k: int)
    ensures
        notice.main_category != Category::ClassNotice ==> passes_filter(notice, Some(fs)),
        passes_filter(notice, None),
        fs@.len() == 0 ==> passes_filter(notice, Some(fs)),
        0 <= k < fs@.len() && contains_seq(notice.title@, fs@[k]@) ==> passes_filter(notice, Some(fs)),
        notice.main_category == Category::ClassNotice && fs@.len() > 0
            && (forall|m: int| 0 <= m < fs@.len() ==> !contains_seq(notice.title@, #[trigger] fs@[m]@))
            ==> !passes_filter(notice, Some(fs)),
{
}

// ---------------------------------------------------------------------------
// Waiting for the network.

/// What to do after a connectivity check.
#[derive(Clone, Copy, Debug, PartialEq, Eq, Structural)]
pub enum ConnectStep {
    /// The network is reachable: go on.
    Proceed,
    /// The network is unreachable: wait `secs` seconds and check again.
    Wait { secs: u64 },
}

/// The step after a connectivity check: go on when connected, else wait
/// `interval` seconds before the next check.
pub fn after_connectivity_check(connected: bool, interval: u64) -> (r: ConnectStep)
    ensures
        r == (if connected { ConnectStep::Proceed } else { ConnectStep::Wait { secs: interval } }),
{
    if connected {
        ConnectStep::Proceed
    } else {
        ConnectStep::Wait { secs: interval }
    }
}

} // verus!
