//! Filters on labels. A filter is a list of rules, separated by commas, all of
//! which must hold:
//!
//! - `key=value`: the label `key` has the value `value`;
//! - `key!=value`: the label `key` is missing or has another value;
//! - `key`: the label `key` is there;
//! - `!key`: the label `key` is missing.

use crate::error::{ErrorView, RobotLBError};
use crate::string_map::StringMap;
use crate::text::{same, split, split_at_each};
use vstd::prelude::*;

verus! {

/// One condition on labels.
#[derive(Debug)]
pub enum Rule {
    Equal(String, String),
    NotEqual(String, String),
    Exists(String),
    DoesNotExist(String),
}

/// What a [`Rule`] says.
pub enum RuleView {
    Equal(Seq<char>, Seq<char>),
    NotEqual(Seq<char>, Seq<char>),
    Exists(Seq<char>),
    DoesNotExist(Seq<char>),
}

impl DeepView for Rule {
    type V = RuleView;

    open spec fn deep_view(&self) -> RuleView {
        match self {
            Rule::Equal(key, value) => RuleView::Equal(key@, value@),
            Rule::NotEqual(key, value) => RuleView::NotEqual(key@, value@),
            Rule::Exists(key) => RuleView::Exists(key@),
            Rule::DoesNotExist(key) => RuleView::DoesNotExist(key@),
        }
    }
}

impl RuleView {
    /// Whether the labels meet the rule.
    pub open spec fn holds(self, labels: Map<Seq<char>, Seq<char>>) -> bool {
        match self {
            RuleView::Equal(key, value) => labels.contains_pair(key, value),
            RuleView::NotEqual(key, value) => !labels.contains_pair(key, value),
            RuleView::Exists(key) => labels.contains_key(key),
            RuleView::DoesNotExist(key) => !labels.contains_key(key),
        }
    }
}

/// Whether the labels meet every rule.
pub open spec fn filter_holds(rules: Seq<RuleView>, labels: Map<Seq<char>, Seq<char>>) -> bool {
    forall|i: int| 0 <= i < rules.len() ==> (#[trigger] rules[i]).holds(labels)
}

/// The rule that `text` spells. A rule has a key that is not empty, and at most
/// one `=`.
pub open spec fn rule_of(text: Seq<char>) -> Option<RuleView> {
    let sides = split_at_each(text, '=');
    let key = sides[0];
    if sides.len() > 2 || key.len() == 0 {
        None
    } else if sides.len() == 2 {
        if key.last() != '!' {
            Some(RuleView::Equal(key, sides[1]))
        } else if key.len() > 1 {
            Some(RuleView::NotEqual(key.drop_last(), sides[1]))
        } else {
            None
        }
    } else {
        if key[0] != '!' {
            Some(RuleView::Exists(key))
        } else if key.len() > 1 {
            Some(RuleView::DoesNotExist(key.drop_first()))
        } else {
            None
        }
    }
}

/// The rules that the texts spell, or the first text that spells none.
pub open spec fn rules_of(texts: Seq<Seq<char>>) -> Result<Seq<RuleView>, ErrorView>
    decreases texts.len(),
{
    if texts.len() == 0 {
        Ok(Seq::empty())
    } else {
        match (rules_of(texts.drop_last()), rule_of(texts.last())) {
            (Err(e), _) => Err(e),
            (Ok(_), None) => Err(ErrorView::InvalidNodeFilter(texts.last())),
            (Ok(rules), Some(rule)) => Ok(rules.push(rule)),
        }
    }
}

/// The filter that `text` spells: its rules, or the first piece that is not a rule.
pub open spec fn filter_of(text: Seq<char>) -> Result<Seq<RuleView>, ErrorView> {
    rules_of(split_at_each(text, ','))
}

/// A filter on labels.
#[derive(Debug)]
pub struct LabelFilter {
    pub rules: Vec<Rule>,
}

impl DeepView for LabelFilter {
    type V = Seq<RuleView>;

    open spec fn deep_view(&self) -> Seq<RuleView> {
        self.rules.deep_view()
    }
}

/// Splitting gives at least one piece.
pub proof fn lemma_split_is_not_empty(text: Seq<char>, separator: char)
    ensures
        split_at_each(text, separator).len() >= 1,
    decreases text.len(),
{
    if text.len() > 0 {
        lemma_split_is_not_empty(text.drop_last(), separator);
    }
}

proof fn lemma_first_failure_stays(texts: Seq<Seq<char>>, n: int)
    requires
        0 <= n <= texts.len(),
        rules_of(texts.take(n)) is Err,
    ensures
        rules_of(texts) == rules_of(texts.take(n)),
    decreases texts.len() - n,
{
    if n < texts.len() {
        assert(texts.take(n + 1).drop_last() == texts.take(n));
        lemma_first_failure_stays(texts, n + 1);
    } else {
        assert(texts.take(n) == texts);
    }
}

fn parse_rule(text: &str) -> (r: Option<Rule>)
    ensures
        match r {
            Some(rule) => rule_of(text@) == Some(rule.deep_view()),
            None => rule_of(text@) is None,
        },
{
    let sides = split(text, '=');
    proof {
        lemma_split_is_not_empty(text@, '=');
        assert(sides.deep_view().len() == sides@.len());
        assert(sides.deep_view()[0] == sides@[0]@);
    }
    let key = sides[0].as_str();
    let n: usize = key.unicode_len();
    if sides.len() > 2 || n == 0 {
        None
    } else if sides.len() == 2 {
        assert(sides.deep_view()[1] == sides@[1]@);
        let value = sides[1].clone();
        if key.get_char(n - 1) != '!' {
            Some(Rule::Equal(key.to_owned(), value))
        } else if n > 1 {
            assert(key@.subrange(0, n - 1) == key@.drop_last());
            Some(Rule::NotEqual(key.substring_char(0, n - 1).to_owned(), value))
        } else {
            None
        }
    } else {
        if key.get_char(0) != '!' {
            Some(Rule::Exists(key.to_owned()))
        } else if n > 1 {
            assert(key@.subrange(1, n as int) == key@.drop_first());
            Some(Rule::DoesNotExist(key.substring_char(1, n).to_owned()))
        } else {
            None
        }
    }
}

impl LabelFilter {
    /// The filter that `text` spells.
    pub fn from_str(text: &str) -> (r: Result<LabelFilter, RobotLBError>)
        ensures
            match r {
                Ok(filter) => filter_of(text@) == Ok::<Seq<RuleView>, ErrorView>(
                    filter.deep_view(),
                ),
                Err(e) => filter_of(text@) == Err::<Seq<RuleView>, ErrorView>(e.deep_view()),
            },
    {
        let texts = split(text, ',');
        let mut rules: Vec<Rule> = Vec::new();
        let mut i: usize = 0;
        proof {
            assert(texts.deep_view().take(0) =~= Seq::empty());
            assert(rules.deep_view() =~= Seq::empty());
        }
        while i < texts.len()
            invariant
                i <= texts@.len(),
                texts.deep_view() == split_at_each(text@, ','),
                rules_of(texts.deep_view().take(i as int)) == Ok::<Seq<RuleView>, ErrorView>(
                    rules.deep_view(),
                ),
            decreases texts@.len() - i,
        {
            proof {
                let next = texts.deep_view().take(i + 1);
                assert(next.drop_last() == texts.deep_view().take(i as int));
                assert(next.last() == texts@[i as int]@);
            }
            match parse_rule(texts[i].as_str()) {
                Some(rule) => {
                    let ghost before = rules.deep_view();
                    rules.push(rule);
                    assert(rules.deep_view() =~= before.push(rule.deep_view()));
                },
                None => {
                    proof {
                        lemma_first_failure_stays(texts.deep_view(), i + 1);
                    }
                    return Err(RobotLBError::InvalidNodeFilter(texts[i].clone()));
                },
            }
            i = i + 1;
        }
        assert(texts.deep_view().take(i as int) == texts.deep_view());
        Ok(LabelFilter { rules })
    }

    /// Whether the labels meet every rule of the filter.
    pub fn check(&self, labels: &StringMap) -> (r: bool)
        ensures
            r == filter_holds(self.deep_view(), labels.deep_view()),
    {
        let mut i: usize = 0;
        while i < self.rules.len()
            invariant
                i <= self.rules@.len(),
                forall|j: int|
                    0 <= j < i ==> (#[trigger] self.deep_view()[j]).holds(labels.deep_view()),
            decreases self.rules@.len() - i,
        {
            let holds = match &self.rules[i] {
                Rule::Equal(key, value) => match labels.get(key.as_str()) {
                    Some(found) => same(found.as_str(), value.as_str()),
                    None => false,
                },
                Rule::NotEqual(key, value) => match labels.get(key.as_str()) {
                    Some(found) => !same(found.as_str(), value.as_str()),
                    None => true,
                },
                Rule::Exists(key) => labels.contains_key(key.as_str()),
                Rule::DoesNotExist(key) => !labels.contains_key(key.as_str()),
            };
            assert(holds == self.deep_view()[i as int].holds(labels.deep_view()));
            if !holds {
                return false;
            }
            i = i + 1;
        }
        true
    }
}

} // verus!
