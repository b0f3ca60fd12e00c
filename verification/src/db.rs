//! The domain classification rules that a new database is seeded with.

use vstd::prelude::*;

verus! {

/// The seeded rules, as (domain, classification) pairs in order.
pub open spec fn default_rules() -> Seq<(Seq<char>, Seq<char>)> {
    seq![
        ("chatgpt.com"@, "productive"@),
        ("chat.openai.com"@, "productive"@),
        ("youtube.com"@, "unproductive"@),
        ("instagram.com"@, "unproductive"@),
    ]
}

/// The domain rules that every new database starts with, as
/// (domain, classification) pairs.
pub fn default_domain_rules() -> (rules: Vec<(&'static str, &'static str)>)
    ensures
        rules@.len() == default_rules().len(),
        forall|i: int| 0 <= i < rules@.len() ==> (#[trigger] rules@[i].0@, rules@[i].1@) == default_rules()[i],
{
    let rules = vec![
        ("chatgpt.com", "productive"),
        ("chat.openai.com", "productive"),
        ("youtube.com", "unproductive"),
        ("instagram.com", "unproductive"),
    ];
    rules
}

} // verus!
