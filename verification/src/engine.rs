//! The recommendation engine's own rules: which market-data provider and
//! which adviser a configuration selects, which contract kinds are
//! accepted, what the health report says, and how a replayed decision is
//! marked. Running the providers, the advisers, the C++ core and the
//! decision store is left to the caller.

use vstd::prelude::*;
use crate::errors::EngineError;
use crate::config::nested_get;
use crate::json::{
    json_get, keys_sorted, law_set_member_keeps_key_order, law_set_member_keeps_others, pairs_view, push_member, set_member, text,
    with_member, Json, JsonView,
};
use crate::text::{chars_eq, chars_of, to_lowercase, unicode_lowercase};

verus! {

/// The version the engine stamps on its decisions.
pub const ENGINE_VERSION: &'static str = "smart-orchestrator-rust-v0.1.0";

/// A market-data provider a configuration can select.
#[derive(Debug, PartialEq, Eq, Structural)]
pub enum ProviderKind {
    Synthetic,
    AlpacaReadOnly,
}

/// The provider that `provider.kind` selects, compared case-insensitively:
/// `synthetic`, or one of the three spellings of the read-only Alpaca
/// provider. Any other kind is refused, named in lower case.
pub open spec fn provider_kind_of(kind: Seq<char>) -> Result<ProviderKind, Seq<char>> {
    let k = unicode_lowercase(kind);
    if k == "synthetic"@ {
        Ok(ProviderKind::Synthetic)
    } else if k == "alpaca"@ || k == "alpaca-readonly"@ || k == "alpaca_readonly"@ {
        Ok(ProviderKind::AlpacaReadOnly)
    } else {
        Err(k)
    }
}

fn is(s: &[char], word: &str) -> (r: bool)
    ensures
        r == (s@ == word@),
{
    chars_eq(s, &chars_of(word))
}

/// The provider a configured `provider.kind` selects (see
/// [`provider_kind_of`]).
pub fn select_provider(kind: &str) -> (r: Result<ProviderKind, EngineError>)
    ensures
        match provider_kind_of(kind@) {
            Ok(p) => r == Ok::<ProviderKind, EngineError>(p),
            Err(k) => r matches Err(EngineError::UnknownProviderKind(m)) && m@ == k,
        },
{
    let lower = to_lowercase(kind);
    let k = chars_of(lower.as_str());
    if is(&k, "synthetic") {
        Ok(ProviderKind::Synthetic)
    } else if is(&k, "alpaca") || is(&k, "alpaca-readonly") || is(&k, "alpaca_readonly") {
        Ok(ProviderKind::AlpacaReadOnly)
    } else {
        Err(EngineError::UnknownProviderKind(lower))
    }
}

/// An adviser a configuration can select.
#[derive(Debug, PartialEq, Eq, Structural)]
pub enum AdvisorKind {
    Heuristic,
    OpenAI,
}

/// The adviser that `model.kind` selects, compared case-insensitively:
/// the heuristic adviser (`heuristic`, `none` or `local`) or the OpenAI
/// one (`openai` or `responses`). Any other kind is refused, named in
/// lower case.
pub open spec fn advisor_kind_of(kind: Seq<char>) -> Result<AdvisorKind, Seq<char>> {
    let k = unicode_lowercase(kind);
    if k == "heuristic"@ || k == "none"@ || k == "local"@ {
        Ok(AdvisorKind::Heuristic)
    } else if k == "openai"@ || k == "responses"@ {
        Ok(AdvisorKind::OpenAI)
    } else {
        Err(k)
    }
}

/// The adviser a configured `model.kind` selects (see
/// [`advisor_kind_of`]).
pub fn select_advisor(kind: &str) -> (r: Result<AdvisorKind, EngineError>)
    ensures
        match advisor_kind_of(kind@) {
            Ok(a) => r == Ok::<AdvisorKind, EngineError>(a),
            Err(k) => r matches Err(EngineError::UnknownAdvisorKind(m)) && m@ == k,
        },
{
    let lower = to_lowercase(kind);
    let k = chars_of(lower.as_str());
    if is(&k, "heuristic") || is(&k, "none") || is(&k, "local") {
        Ok(AdvisorKind::Heuristic)
    } else if is(&k, "openai") || is(&k, "responses") {
        Ok(AdvisorKind::OpenAI)
    } else {
        Err(EngineError::UnknownAdvisorKind(lower))
    }
}

/// The text `format!("{:?}", s)` gives for a string: `s` quoted, with
/// quotes, backslashes and unprintable characters escaped.
pub uninterp spec fn debug_quoted(s: Seq<char>) -> Seq<char>;

/// Trusted: formats `s` with `Debug` (`format!("{s:?}")`); the contract
/// names the result.
#[verifier::external_body]
fn quote_debug(s: &str) -> (r: String)
    ensures
        r@ == debug_quoted(s@),
{
    format!("{s:?}")
}

/// Where a named adviser comes from.
#[derive(Debug, PartialEq, Eq)]
pub enum AdvisorSource {
    /// The `model.models` registry names it, with this URI.
    Registry(String),
    /// `default` without a registry entry: the `model.kind` selection.
    LegacyKind,
}

/// The message for a name that neither the registry nor `default` covers.
pub open spec fn unknown_model_message(name: Seq<char>) -> Seq<char> {
    "no model named "@ + debug_quoted(name)
        + " in config.model.models (configure it there, or use \"default\" for the legacy model.kind/model.name selection)"@
}

/// Where the adviser called `name` comes from, given its entry in the
/// `model.models` registry (`registered_uri`): the registry first, then,
/// for `default` only, the legacy `model.kind`; any other unregistered
/// name is an error, never a silent fallback.
pub fn advisor_source(name: &str, registered_uri: Option<&str>) -> (r: Result<AdvisorSource, EngineError>)
    ensures
        match registered_uri {
            Some(u) => r matches Ok(AdvisorSource::Registry(v)) && v@ == u@,
            None => if name@ == "default"@ {
                r == Ok::<AdvisorSource, EngineError>(AdvisorSource::LegacyKind)
            } else {
                r matches Err(EngineError::UnknownAdvisorKind(m)) && m@ == unknown_model_message(name@)
            },
        },
{
    match registered_uri {
        Some(u) => Ok(AdvisorSource::Registry(u.to_owned())),
        None => {
            if is(&chars_of(name), "default") {
                Ok(AdvisorSource::LegacyKind)
            } else {
                let q = quote_debug(name);
                let a = crate::text::concat("no model named ", q.as_str());
                let m = crate::text::concat(
                    a.as_str(),
                    " in config.model.models (configure it there, or use \"default\" for the legacy model.kind/model.name selection)",
                );
                Err(EngineError::UnknownAdvisorKind(m))
            }
        },
    }
}

/// Checks the kinds of a contract: `option_type` must be `call` or `put`,
/// then `exercise_style` must be `american` or `european` (exactly as
/// written).
pub fn check_contract_kinds(option_type: &str, exercise_style: &str) -> (r: Result<(), EngineError>)
    ensures
        !(option_type@ == "call"@ || option_type@ == "put"@) ==> (r matches Err(EngineError::InvalidOptionType(m))
            && m@ == option_type@),
        (option_type@ == "call"@ || option_type@ == "put"@) && !(exercise_style@ == "american"@ || exercise_style@
            == "european"@) ==> (r matches Err(EngineError::InvalidExerciseStyle(m)) && m@ == exercise_style@),
        (option_type@ == "call"@ || option_type@ == "put"@) && (exercise_style@ == "american"@ || exercise_style@
            == "european"@) ==> r is Ok,
{
    let o = chars_of(option_type);
    if !(is(&o, "call") || is(&o, "put")) {
        return Err(EngineError::InvalidOptionType(option_type.to_owned()));
    }
    let e = chars_of(exercise_style);
    if !(is(&e, "american") || is(&e, "european")) {
        return Err(EngineError::InvalidExerciseStyle(exercise_style.to_owned()));
    }
    Ok(())
}

// ---------------------------------------------------------------------------
// Health and replay
// ---------------------------------------------------------------------------

/// The health report: paper mode, no broker order endpoint, and which
/// provider, adviser and database the engine runs with (members in key
/// order).
pub open spec fn health_view(provider: Seq<char>, advisor: Seq<char>, database: Seq<char>) -> JsonView {
    JsonView::Object(
        seq![
            ("advisor"@, JsonView::Text(advisor)),
            ("broker_order_endpoint_present"@, JsonView::Bool(false)),
            ("database"@, JsonView::Text(database)),
            ("engine_version"@, JsonView::Text(ENGINE_VERSION@)),
            ("mode"@, JsonView::Text("paper"@)),
            ("provider"@, JsonView::Text(provider)),
            ("status"@, JsonView::Text("ok"@)),
        ],
    )
}

/// The engine's health report (see [`health_view`]).
pub fn health_report(provider: &str, advisor: &str, database: &str) -> (r: Json)
    ensures
        r@ == health_view(provider@, advisor@, database@),
{
    let mut members: Vec<(String, Json)> = Vec::new();
    push_member(&mut members, "advisor", text(advisor));
    push_member(&mut members, "broker_order_endpoint_present", Json::Bool(false));
    push_member(&mut members, "database", text(database));
    push_member(&mut members, "engine_version", text(ENGINE_VERSION));
    push_member(&mut members, "mode", text("paper"));
    push_member(&mut members, "provider", text(provider));
    push_member(&mut members, "status", text("ok"));
    proof {
        assert(pairs_view(members@) =~= health_view(provider@, advisor@, database@)->Object_0);
    }
    Json::Object(members)
}

/// The mode a replayed decision is marked with.
pub const REPLAY_MODE: &'static str = "stored_inputs_and_outputs_no_network";

/// A stored decision as replayed: its `audit` object gains `replay_mode`
/// (an absent `audit` becomes an object holding just that); an `audit`
/// that is not an object is left alone.
pub open spec fn replay_marked(v: JsonView) -> JsonView {
    match v {
        JsonView::Object(ps) => match json_get(v, "audit"@) {
            Some(JsonView::Object(aps)) => JsonView::Object(
                with_member(ps, "audit"@, JsonView::Object(with_member(aps, "replay_mode"@, JsonView::Text(REPLAY_MODE@)))),
            ),
            Some(_) => v,
            None => JsonView::Object(
                with_member(ps, "audit"@, JsonView::Object(seq![("replay_mode"@, JsonView::Text(REPLAY_MODE@))])),
            ),
        },
        _ => v,
    }
}

/// Marks a stored decision as replayed (see [`replay_marked`]). A stored
/// decision is always an object.
pub fn mark_replay(payload: &mut Json)
    requires
        old(payload)@ is Object,
    ensures
        final(payload)@ == replay_marked(old(payload)@),
{
    let ghost before = old(payload)@;
    let audit: Option<Vec<(String, Json)>> = match payload.get("audit") {
        Some(a) => match a.deep_copy() {
            Json::Object(members) => Some(members),
            _ => None,
        },
        None => Some(Vec::new()),
    };
    if let Some(mut members) = audit {
        let ghost inner = pairs_view(members@);
        proof {
            crate::json::lemma_pairs_view(members@);
        }
        set_member(&mut members, "replay_mode", text(REPLAY_MODE));
        proof {
            let mode = JsonView::Text(REPLAY_MODE@);
            if json_get(before, "audit"@) is None {
                assert(inner =~= Seq::<(Seq<char>, JsonView)>::empty());
                assert(with_member(inner, "replay_mode"@, mode) =~= seq![("replay_mode"@, mode)]);
            }
        }
        match payload {
            Json::Object(top) => set_member(top, "audit", Json::Object(members)),
            _ => {},
        }
    }
}

/// A replayed decision reads `audit.replay_mode` as the replay mode,
/// whenever its `audit` is absent or an object, and every other member of
/// the decision is as stored; a decision whose members are in key order
/// keeps them in key order.
pub proof fn law_replay_is_marked(v: JsonView, c: Seq<char>)
    requires
        v is Object,
        !(json_get(v, "audit"@) matches Some(a) && !(a is Object)),
    ensures
        nested_get(replay_marked(v), seq!["audit"@, "replay_mode"@]) == Some(JsonView::Text(REPLAY_MODE@)),
        c != "audit"@ ==> json_get(replay_marked(v), c) == json_get(v, c),
        keys_sorted(v->Object_0) && (json_get(v, "audit"@) matches Some(JsonView::Object(aps)) ==> keys_sorted(aps))
            ==> keys_sorted(replay_marked(v)->Object_0),
{
    let ps = v->Object_0;
    let inner = match json_get(v, "audit"@) {
        Some(JsonView::Object(aps)) => aps,
        _ => Seq::empty(),
    };
    let audit = JsonView::Object(with_member(inner, "replay_mode"@, JsonView::Text(REPLAY_MODE@)));
    law_set_member_keeps_key_order(inner, "replay_mode"@, JsonView::Text(REPLAY_MODE@));
    law_set_member_keeps_key_order(ps, "audit"@, audit);
    if c != "audit"@ {
        law_set_member_keeps_others(ps, "audit"@, audit, c);
    }
    if json_get(v, "audit"@) is None {
        assert(with_member(Seq::<(Seq<char>, JsonView)>::empty(), "replay_mode"@, JsonView::Text(REPLAY_MODE@))
            =~= seq![("replay_mode"@, JsonView::Text(REPLAY_MODE@))]);
    }
    assert(replay_marked(v) == JsonView::Object(with_member(ps, "audit"@, audit)));
    assert(seq!["audit"@, "replay_mode"@].subrange(1, 2) =~= seq!["replay_mode"@]);
    assert(seq!["replay_mode"@].subrange(1, 1) =~= Seq::<Seq<char>>::empty());
    reveal_with_fuel(nested_get, 3);
}

} // verus!
