//! Items generated from the query: calculator result, AI question, web searches.
use vstd::prelude::*;

use crate::items::{AiItem, CalculatorItem, SearchItem};
use crate::search::{detect_search, first_trigger_prefix, SearchDetection, SearchProvider};
use crate::text::{chars_of, has_prefix, starts_with, string_from, sub_vec, trim, trim_chars, trim_str};

verus! {

/// Whether `char::is_numeric` holds of a character (Unicode numeric categories).
pub uninterp spec fn numeric_char(c: char) -> bool;

/// `char::is_numeric`, whose result is named `numeric_char(c)`; as its documentation
/// states, the ASCII digits are numeric.
#[verifier::external_body]
fn is_numeric(c: char) -> (b: bool)
    ensures
        b == numeric_char(c),
        '0' <= c <= '9' ==> b,
{
    c.is_numeric()
}

/// Some character of `s` is numeric.
pub open spec fn has_numeric(s: Seq<char>) -> bool {
    exists|i: int| 0 <= i < s.len() && numeric_char(#[trigger] s[i])
}

/// Some character of `s` is an ASCII digit.
pub open spec fn has_ascii_digit(s: Seq<char>) -> bool {
    exists|i: int| 0 <= i < s.len() && '0' <= #[trigger] s[i] <= '9'
}

/// Container for dynamically generated items based on the user's query.
#[derive(Debug)]
pub struct DynamicItems {
    /// Calculator result (shown at top when the query is a math expression).
    pub calculator_item: Option<CalculatorItem>,
    /// AI query item.
    pub ai_item: Option<AiItem>,
    /// Search provider items.
    pub search_items: Vec<SearchItem>,
}

/// The AI item that a query gives: its text, or for the `!ai` trigger the trimmed rest
/// after it when that is not blank.
pub open spec fn ai_item_matches(ai: Option<AiItem>, q: Seq<char>) -> bool {
    ai matches Some(a) && a.query@ == q
}

/// The search items that a query without a trigger gives: one per provider, in order,
/// each with the trimmed query.
pub open spec fn fallback_items(items: Seq<SearchItem>, providers: Seq<SearchProvider>, q: Seq<char>) -> bool {
    &&& items.len() == providers.len()
    &&& forall|i: int|
        0 <= i < items.len() ==> (#[trigger] items[i]).provider == providers[i] && items[i].query@
            == q
}

/// What `process_query` leaves in the container, given the enabled modules, the
/// providers, and the calculation of the query.
pub open spec fn processed(
    d: DynamicItems,
    query: Seq<char>,
    calculator_enabled: bool,
    ai_enabled: bool,
    search_enabled: bool,
    providers: Seq<SearchProvider>,
    calculation: Option<CalculatorItem>,
) -> bool {
    let t = trim(query);
    if t.len() == 0 {
        d.calculator_item is None && d.ai_item is None && d.search_items@.len() == 0
    } else {
        &&& d.calculator_item == (if calculator_enabled && has_numeric(query) {
            calculation
        } else {
            None
        })
        &&& if ai_enabled && has_prefix(t, "!ai"@) {
            let q = trim(t.subrange(3, t.len() as int));
            &&& d.search_items@.len() == 0
            &&& if q.len() > 0 {
                ai_item_matches(d.ai_item, q)
            } else {
                d.ai_item is None
            }
        } else {
            match first_trigger_prefix(providers, t, 0) {
                Some(i) if search_enabled && trim(
                    t.subrange(providers[i].trigger@.len() as int, t.len() as int),
                ).len() > 0 => {
                    &&& d.ai_item is None
                    &&& d.search_items@.len() == 1
                    &&& d.search_items@[0].provider == providers[i]
                    &&& d.search_items@[0].query@ == trim(
                        t.subrange(providers[i].trigger@.len() as int, t.len() as int),
                    )
                },
                _ => {
                    &&& if ai_enabled {
                        ai_item_matches(d.ai_item, t)
                    } else {
                        d.ai_item is None
                    }
                    &&& if search_enabled && first_trigger_prefix(providers, t, 0) is None {
                        fallback_items(d.search_items@, providers, t)
                    } else {
                        d.search_items@.len() == 0
                    }
                },
            }
        }
    }
}

impl DynamicItems {
    /// Number of items: the calculator and AI items when present, and the searches.
    pub open spec fn total_count(self) -> int {
        (if self.calculator_item is Some {
            1int
        } else {
            0
        }) + (if self.ai_item is Some {
            1int
        } else {
            0
        }) + self.search_items@.len()
    }

    /// An empty container.
    pub fn new() -> (d: Self)
        ensures
            d.calculator_item is None,
            d.ai_item is None,
            d.search_items@.len() == 0,
    {
        DynamicItems { calculator_item: None, ai_item: None, search_items: Vec::new() }
    }

    /// Replace the items with those that `query` gives.
    ///
    /// `calculation` is what the calculator gives for the query (its `Ok` result); it
    /// is kept when the calculator is enabled and the query holds a numeric character.
    pub fn process_query(
        &mut self,
        query: &str,
        calculator_enabled: bool,
        ai_enabled: bool,
        search_enabled: bool,
        providers: &Vec<SearchProvider>,
        calculation: Option<CalculatorItem>,
    )
        ensures
            processed(
                *final(self),
                query@,
                calculator_enabled,
                ai_enabled,
                search_enabled,
                providers@,
                calculation,
            ),
            calculator_enabled && trim(query@).len() > 0 && has_ascii_digit(query@)
                ==> final(self).calculator_item == calculation,
    {
        self.clear();
        let trimmed = trim_str(query);
        if trimmed.len() == 0 {
            return;
        }
        if calculator_enabled {
            let q = chars_of(query);
            let mut found = false;
            let mut i: usize = 0;
            while i < q.len()
                invariant
                    i <= q.len(),
                    q@ == query@,
                    found == exists|k: int| 0 <= k < i && numeric_char(#[trigger] q@[k]),
                    forall|k: int| 0 <= k < i && '0' <= #[trigger] q@[k] <= '9' ==> numeric_char(q@[k]),
                decreases q.len() - i,
            {
                if is_numeric(q[i]) {
                    found = true;
                }
                i = i + 1;
            }
            if found {
                self.calculator_item = calculation;
            }
        }
        let ai_trigger = chars_of("!ai");
        proof {
            reveal_strlit("!ai");
        }
        let has_ai_trigger = starts_with(&trimmed, &ai_trigger);
        let detection = detect_search(query, providers);
        let has_search_trigger = match &detection {
            SearchDetection::Triggered { .. } => true,
            _ => false,
        };
        if ai_enabled && has_ai_trigger {
            let rest = sub_vec(&trimmed, 3, trimmed.len());
            let ai_query = trim_chars(&rest);
            if ai_query.len() > 0 {
                self.ai_item = Some(AiItem::new(string_from(&ai_query)));
            }
        } else if search_enabled && has_search_trigger {
            if let SearchDetection::Triggered { provider, query: search_query } = detection {
                self.search_items.push(SearchItem::new(provider, search_query));
            }
        } else {
            if ai_enabled {
                self.ai_item = Some(AiItem::new(string_from(&trimmed)));
            }
            if search_enabled {
                if let SearchDetection::Fallback { query: fallback_query } = detection {
                    let mut i: usize = 0;
                    let ghost ai_before = self.ai_item;
                    let ghost calc_before = self.calculator_item;
                    while i < providers.len()
                        invariant
                            i <= providers.len(),
                            self.ai_item == ai_before,
                            self.calculator_item == calc_before,
                            self.search_items@.len() == i,
                            forall|k: int|
                                0 <= k < i ==> (#[trigger] self.search_items@[k]).provider
                                    == providers@[k] && self.search_items@[k].query@ == fallback_query@,
                        decreases providers.len() - i,
                    {
                        self.search_items.push(SearchItem::new(providers[i].clone(), fallback_query.clone()));
                        i = i + 1;
                    }
                }
            }
        }
    }

    /// Remove every item.
    pub fn clear(&mut self)
        ensures
            final(self).calculator_item is None,
            final(self).ai_item is None,
            final(self).search_items@.len() == 0,
    {
        self.calculator_item = None;
        self.ai_item = None;
        self.search_items.clear();
    }

    /// Total number of items.
    pub fn count(&self) -> (n: usize)
        requires
            self.total_count() <= usize::MAX,
        ensures
            n == self.total_count(),
            n == (if self.calculator_item is Some {
                1int
            } else {
                0
            }) + (if self.ai_item is Some {
                1int
            } else {
                0
            }) + self.search_items@.len(),
    {
        let calc_count: usize = if self.calculator_item.is_some() {
            1
        } else {
            0
        };
        let ai_count: usize = if self.ai_item.is_some() {
            1
        } else {
            0
        };
        calc_count + ai_count + self.search_items.len()
    }

    /// Whether there is a calculator item.
    pub fn has_calculator(&self) -> (b: bool)
        ensures
            b == self.calculator_item is Some,
    {
        self.calculator_item.is_some()
    }

    /// Whether there is an AI item.
    pub fn has_ai(&self) -> (b: bool)
        ensures
            b == self.ai_item is Some,
    {
        self.ai_item.is_some()
    }

    /// Number of search items.
    pub fn search_count(&self) -> (n: usize)
        ensures
            n == self.search_items@.len(),
    {
        self.search_items.len()
    }
}

impl Default for DynamicItems {
    fn default() -> (d: Self)
        ensures
            d.calculator_item is None,
            d.ai_item is None,
            d.search_items@.len() == 0,
    {
        DynamicItems::new()
    }
}


/// Processing a query gives at most one search item per provider, or a single one.
pub proof fn lemma_processed_search_bound(
    d: DynamicItems,
    query: Seq<char>,
    calculator_enabled: bool,
    ai_enabled: bool,
    search_enabled: bool,
    providers: Seq<SearchProvider>,
    calculation: Option<CalculatorItem>,
)
    requires
        processed(d, query, calculator_enabled, ai_enabled, search_enabled, providers, calculation),
    ensures
        d.search_items@.len() <= providers.len() + 1,
{
}

} // verus!
