//! Log filtering in the style of `eth_getLogs`.
//!
//! A mined log matches a filter when its block number lies in the filter's
//! range, its emitting address is listed (an empty address list matches any
//! address), and, when topic combinations are given, at least one of them
//! matches. A combination matches when, at every position it constrains,
//! the log has a topic and that topic is the expected one.

use vstd::prelude::*;

use crate::address::Address;
use crate::log::LogMined;
use crate::values::{BlockNumber, LogTopic};

verus! {

/// One conjunction of positional topic constraints.
#[derive(Clone, Debug)]
pub struct LogFilterTopicCombination(pub Vec<(usize, LogTopic)>);

/// Whether a combination matches the topics of a log: every constrained
/// position exists and holds the expected topic.
pub open spec fn combination_matches(comb: Seq<(usize, LogTopic)>, topics: Seq<LogTopic>) -> bool {
    forall|k: int|
        0 <= k < comb.len() ==> (#[trigger] comb[k]).0 < topics.len()
            && topics[comb[k].0 as int]@ == comb[k].1@
}

impl LogFilterTopicCombination {
    /// Checks if the given log topics satisfy every constraint of the
    /// combination.
    pub fn matches(&self, log_topics: &Vec<LogTopic>) -> (r: bool)
        ensures
            r == combination_matches(self.0@, log_topics@),
    {
        let n = self.0.len();
        let mut k: usize = 0;
        while k < n
            invariant
                k <= n,
                n == self.0@.len(),
                forall|j: int|
                    0 <= j < k ==> (#[trigger] self.0@[j]).0 < log_topics@.len()
                        && log_topics@[self.0@[j].0 as int]@ == self.0@[j].1@,
            decreases n - k,
        {
            let (topic_index, topic): (usize, LogTopic) = self.0[k];
            if topic_index >= log_topics.len() {
                return false;
            }
            if !(log_topics[topic_index] == topic) {
                return false;
            }
            k = k + 1;
        }
        true
    }
}

/// A filter over mined logs.
#[derive(Clone, Debug)]
pub struct LogFilter {
    /// First block of the range, inclusive.
    pub from_block: BlockNumber,
    /// Last block of the range, inclusive; unbounded above when absent.
    pub to_block: Option<BlockNumber>,
    /// Emitting addresses accepted by the filter; empty accepts any.
    pub addresses: Vec<Address>,
    /// Disjunction of topic combinations; empty accepts any topics.
    pub topics_combinations: Vec<LogFilterTopicCombination>,
}

/// Whether a mined log matches a filter.
pub open spec fn filter_matches(f: LogFilter, log: LogMined) -> bool {
    &&& f.from_block.0 <= log.block_number.0
    &&& (f.to_block matches Some(to) ==> log.block_number.0 <= to.0)
    &&& (f.addresses@.len() == 0 || exists|i: int|
        0 <= i < f.addresses@.len() && (#[trigger] f.addresses@[i])@ == log.log.address@)
    &&& (f.topics_combinations@.len() == 0 || exists|i: int|
        0 <= i < f.topics_combinations@.len() && combination_matches(
            (#[trigger] f.topics_combinations@[i]).0@,
            log.log.topics@,
        ))
}

impl LogFilter {
    /// Checks if a log matches the filter.
    pub fn matches(&self, log: &LogMined) -> (r: bool)
        ensures
            r == filter_matches(*self, *log),
    {
        // filter block range
        if log.block_number.0 < self.from_block.0 {
            return false;
        }
        match &self.to_block {
            Some(to_block) => {
                if log.block_number.0 > to_block.0 {
                    return false;
                }
            },
            None => {},
        }

        // filter address: an empty list accepts any address
        if self.addresses.len() > 0 {
            let mut found: bool = false;
            let mut i: usize = 0;
            let n = self.addresses.len();
            while i < n
                invariant
                    i <= n,
                    n == self.addresses@.len(),
                    !found ==> forall|j: int|
                        0 <= j < i ==> (#[trigger] self.addresses@[j])@ != log.log.address@,
                    found ==> exists|j: int|
                        0 <= j < n && (#[trigger] self.addresses@[j])@ == log.log.address@,
                decreases n - i,
            {
                if self.addresses[i] == log.log.address {
                    found = true;
                }
                i = i + 1;
            }
            if !found {
                return false;
            }
        }

        // filter topics: an empty list of combinations accepts any topics
        if self.topics_combinations.is_empty() {
            return true;
        }
        let n = self.topics_combinations.len();
        let mut i: usize = 0;
        while i < n
            invariant
                i <= n,
                n == self.topics_combinations@.len(),
                self.from_block.0 <= log.block_number.0,
                self.to_block matches Some(to) ==> log.block_number.0 <= to.0,
                self.addresses@.len() == 0 || exists|j: int|
                    0 <= j < self.addresses@.len() && (#[trigger] self.addresses@[j])@
                        == log.log.address@,
                forall|j: int|
                    0 <= j < i ==> !combination_matches(
                        (#[trigger] self.topics_combinations@[j]).0@,
                        log.log.topics@,
                    ),
            decreases n - i,
        {
            if self.topics_combinations[i].matches(&log.log.topics) {
                proof {
                    let ghost w = i as int;
                    assert(0 <= w < self.topics_combinations@.len() && combination_matches(
                        (#[trigger] self.topics_combinations@[w]).0@,
                        log.log.topics@,
                    ));
                }
                return true;
            }
            i = i + 1;
        }
        false
    }
}

} // verus!
