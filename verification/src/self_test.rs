//! The paper-only checks of the integration self-test: what a fresh
//! recommendation and its replay must say for the test to pass.

use vstd::prelude::*;
use crate::config::nested_get;
use crate::json::{json_get, Json, JsonView};
use crate::text::{chars_eq, chars_of};

verus! {

/// Why a recommendation fails the self-test, if it does: it must be made
/// in paper mode, must not allow live execution, and must record that no
/// broker order endpoint is present.
pub open spec fn recommendation_failure(v: JsonView) -> Option<Seq<char>> {
    if nested_get(v, seq!["mode"@]) != Some(JsonView::Text("paper"@)) {
        Some("mode was not paper"@)
    } else if nested_get(v, seq!["policy"@, "live_execution_allowed"@]) != Some(JsonView::Bool(false)) {
        Some("live_execution_allowed was not false"@)
    } else if nested_get(v, seq!["audit"@, "broker_order_endpoint_present"@]) != Some(JsonView::Bool(false)) {
        Some("broker_order_endpoint_present was not false"@)
    } else {
        None
    }
}

/// Why a replayed decision fails the self-test, if it does: its stored
/// content hash must check out.
pub open spec fn replay_failure(v: JsonView) -> Option<Seq<char>> {
    if nested_get(v, seq!["audit"@, "stored_content_hash_valid"@]) != Some(JsonView::Bool(true)) {
        Some("stored_content_hash_valid was not true on replay"@)
    } else {
        None
    }
}

fn text_at(v: &Json, a: &str) -> (r: bool)
    ensures
        r == (nested_get(v@, seq![a@]) == Some(JsonView::Text("paper"@))),
{
    let r = match v.get(a) {
        Some(x) => match x.as_str() {
            Some(t) => chars_eq(&chars_of(t), &chars_of("paper")),
            None => false,
        },
        None => false,
    };
    proof {
        reveal_with_fuel(nested_get, 2);
        assert(seq![a@].subrange(1, 1) =~= Seq::<Seq<char>>::empty());
    }
    r
}

fn bool_at(v: &Json, a: &str, b: &str, expected: bool) -> (r: bool)
    ensures
        r == (nested_get(v@, seq![a@, b@]) == Some(JsonView::Bool(expected))),
{
    let r = match v.get(a) {
        Some(x) => match x.get(b) {
            Some(y) => match y.as_bool() {
                Some(found) => found == expected,
                None => false,
            },
            None => false,
        },
        None => false,
    };
    proof {
        reveal_with_fuel(nested_get, 3);
        assert(seq![a@, b@].subrange(1, 2) =~= seq![b@]);
        assert(seq![b@].subrange(1, 1) =~= Seq::<Seq<char>>::empty());
    }
    r
}

/// The message of the first paper-only check that the recommendation
/// fails, or `None` when it passes them all.
pub fn check_recommendation(value: &Json) -> (r: Option<String>)
    ensures
        match r {
            Some(m) => recommendation_failure(value@) == Some(m@),
            None => recommendation_failure(value@) is None,
        },
{
    if !text_at(value, "mode") {
        Some("mode was not paper".to_owned())
    } else if !bool_at(value, "policy", "live_execution_allowed", false) {
        Some("live_execution_allowed was not false".to_owned())
    } else if !bool_at(value, "audit", "broker_order_endpoint_present", false) {
        Some("broker_order_endpoint_present was not false".to_owned())
    } else {
        None
    }
}

/// The message of the replay check when the replayed decision fails it,
/// or `None` when it passes.
pub fn check_replay(replay: &Json) -> (r: Option<String>)
    ensures
        match r {
            Some(m) => replay_failure(replay@) == Some(m@),
            None => replay_failure(replay@) is None,
        },
{
    if !bool_at(replay, "audit", "stored_content_hash_valid", true) {
        Some("stored_content_hash_valid was not true on replay".to_owned())
    } else {
        None
    }
}

/// A recommendation passes the self-test's paper-only checks exactly when
/// its `mode` is the text `paper`, its `policy.live_execution_allowed` is
/// `false` and its `audit.broker_order_endpoint_present` is `false`; in
/// particular one that reports a broker order endpoint fails.
pub proof fn law_only_paper_recommendations_pass(v: JsonView)
    ensures
        recommendation_failure(v) is None <==> {
            &&& json_get(v, "mode"@) == Some(JsonView::Text("paper"@))
            &&& json_get(v, "policy"@) matches Some(policy) && json_get(policy, "live_execution_allowed"@) == Some(
                JsonView::Bool(false),
            )
            &&& json_get(v, "audit"@) matches Some(audit) && json_get(audit, "broker_order_endpoint_present"@)
                == Some(JsonView::Bool(false))
        },
        (json_get(v, "audit"@) matches Some(audit) && json_get(audit, "broker_order_endpoint_present"@) == Some(
            JsonView::Bool(true),
        )) ==> recommendation_failure(v) is Some,
{
    reveal_with_fuel(nested_get, 3);
    assert(seq!["mode"@].subrange(1, 1) =~= Seq::<Seq<char>>::empty());
    assert(seq!["policy"@, "live_execution_allowed"@].subrange(1, 2) =~= seq!["live_execution_allowed"@]);
    assert(seq!["live_execution_allowed"@].subrange(1, 1) =~= Seq::<Seq<char>>::empty());
    assert(seq!["audit"@, "broker_order_endpoint_present"@].subrange(1, 2) =~= seq!["broker_order_endpoint_present"@]);
    assert(seq!["broker_order_endpoint_present"@].subrange(1, 1) =~= Seq::<Seq<char>>::empty());
}

/// A replayed decision passes the replay check exactly when its
/// `audit.stored_content_hash_valid` is `true`.
pub proof fn law_replay_passes_only_with_a_valid_hash(v: JsonView)
    ensures
        replay_failure(v) is None <==> (json_get(v, "audit"@) matches Some(audit) && json_get(
            audit,
            "stored_content_hash_valid"@,
        ) == Some(JsonView::Bool(true))),
{
    reveal_with_fuel(nested_get, 3);
    assert(seq!["audit"@, "stored_content_hash_valid"@].subrange(1, 2) =~= seq!["stored_content_hash_valid"@]);
    assert(seq!["stored_content_hash_valid"@].subrange(1, 1) =~= Seq::<Seq<char>>::empty());
}

} // verus!
