//! Properties of the library that span several operations.

use crate::bus::{BusMessage, reached, spec_matches_project};
use crate::json::JsonValue;
use crate::registry::{HookEntry, HookPhase, hooks_of_phase};
use crate::canvas::Canvas;
use crate::renderer::color_of;
use crate::scene_runner::{
    DrawView,
    EntityInstance,
    apply_action,
    apply_actions,
    entity_draws,
    frame_draws,
    hover_targets_of,
    key_actions,
    key_actions_of,
};
use crate::script::{SceneDefinition, entity_ids, first_repeat, repeats_earlier, validation_outcome};
use crate::table::{
    del,
    has_key,
    index_of,
    keys_match,
    keys_unique,
    lemma_del,
    lemma_index_of,
    lemma_put,
    put,
    to_map,
};
use crate::auth::{
    AuthConfig,
    AuthError,
    AuthRequest,
    AuthSubject,
    AuthType,
    all_digits,
    api_key_matches,
    authenticated_at,
    candidate_tokens,
    digits_value,
    first_subject,
    fresh_claims,
    fresh_subject,
    hs256_claims,
    MAX_EXPIRE_HOURS,
    issued_on_clock,
    token_verdicts,
};
use crate::state::{ForgeState, project_pairs};
use vstd::prelude::*;
use vstd::utf8::{encode_utf8, is_ascii_chars};

verus! {

/// What is stored under a key is what a lookup of that key gives back, and
/// storing under one key leaves every other key as it was.
pub proof fn law_store_then_lookup<V>(s: Seq<(Seq<char>, V)>, k: Seq<char>, v: V, other: Seq<char>)
    requires
        keys_unique(s),
    ensures
        to_map(put(s, k, v)).contains_key(k),
        to_map(put(s, k, v))[k] == v,
        other != k ==> to_map(put(s, k, v)).contains_key(other) == to_map(s).contains_key(other),
        other != k && to_map(s).contains_key(other) ==> to_map(put(s, k, v))[other] == to_map(s)[other],
{
    lemma_put(s, k, v);
}

/// A removed key is gone, and removal leaves every other key as it was.
pub proof fn law_remove_then_absent<V>(s: Seq<(Seq<char>, V)>, k: Seq<char>, other: Seq<char>)
    requires
        keys_unique(s),
    ensures
        !to_map(del(s, k)).contains_key(k),
        other != k ==> to_map(del(s, k)).contains_key(other) == to_map(s).contains_key(other),
        other != k && to_map(s).contains_key(other) ==> to_map(del(s, k))[other] == to_map(s)[other],
{
    lemma_del(s, k);
}

/// Listing order: a new key goes after every key already stored, and
/// storing under a known key keeps its place.
pub proof fn law_insertion_order<V>(s: Seq<(Seq<char>, V)>, k: Seq<char>, v: V)
    requires
        keys_unique(s),
    ensures
        !has_key(s, k) ==> put(s, k, v) == s.push((k, v)),
        has_key(s, k) ==> put(s, k, v).len() == s.len() && put(s, k, v)[index_of(s, k)] == (k, v)
            && forall|i: int| 0 <= i < s.len() && i != index_of(s, k) ==> put(s, k, v)[i] == s[i],
{
}

/// A name is registered once: after it is registered, the registry holds
/// it, so registering it again is refused.
pub proof fn law_registered_name_taken<A>(actions: Map<Seq<char>, A>, name: Seq<char>, handler: A)
    ensures
        actions.insert(name, handler).contains_key(name),
        actions.insert(name, handler)[name] == handler,
{
}

/// A registered hook is returned for its own phase, after the hooks
/// registered before it, and is not returned for any other phase.
pub proof fn law_hook_joins_its_phase<H>(
    pairs: Seq<(Seq<char>, HookEntry<H>)>,
    name: Seq<char>,
    entry: HookEntry<H>,
    phase: HookPhase,
)
    ensures
        hooks_of_phase(pairs.push((name, entry)), phase) == if entry.phase == phase {
            hooks_of_phase(pairs, phase).push(entry)
        } else {
            hooks_of_phase(pairs, phase)
        },
{
    let f = |e: (Seq<char>, HookEntry<H>)| e.1;
    let pred = |h: HookEntry<H>| h.phase == phase;
    assert(pairs.push((name, entry)).map_values(f) =~= pairs.map_values(f).push(entry));
    pairs.map_values(f).lemma_filter_push(entry, pred);
}

/// The three action names are different texts.
proof fn lemma_action_names_differ()
    ensures
        "hide"@ != "show"@,
        "hide"@ != "destroy"@,
        "show"@ != "destroy"@,
{
    reveal_strlit("hide");
    reveal_strlit("show");
    reveal_strlit("destroy");
    assert("hide"@[0] != "show"@[0]);
    assert("hide"@.len() != "destroy"@.len());
    assert("show"@.len() != "destroy"@.len());
}

/// Hiding then showing an entity leaves it visible and otherwise unchanged.
pub proof fn law_hide_then_show(m: Map<Seq<char>, EntityInstance>, id: Seq<char>)
    requires
        m.contains_key(id),
    ensures
        apply_action(apply_action(m, id, "hide"@), id, "show"@) == m.insert(
            id,
            EntityInstance { visible: true, ..m[id] },
        ),
{
    lemma_action_names_differ();
    assert(apply_action(apply_action(m, id, "hide"@), id, "show"@) =~= m.insert(
        id,
        EntityInstance { visible: true, ..m[id] },
    ));
}

/// A destroyed entity is gone, and destroying it again changes nothing.
pub proof fn law_destroy_removes(m: Map<Seq<char>, EntityInstance>, id: Seq<char>)
    ensures
        !apply_action(m, id, "destroy"@).contains_key(id),
        apply_action(apply_action(m, id, "destroy"@), id, "destroy"@) == apply_action(
            m,
            id,
            "destroy"@,
        ),
{
    lemma_action_names_differ();
    assert(apply_action(apply_action(m, id, "destroy"@), id, "destroy"@) =~= apply_action(
        m,
        id,
        "destroy"@,
    ));
}

/// An action other than `hide`, `show` and `destroy` changes nothing.
pub proof fn law_unknown_action_ignored(m: Map<Seq<char>, EntityInstance>, id: Seq<char>, action: Seq<char>)
    requires
        action != "hide"@,
        action != "show"@,
        action != "destroy"@,
    ensures
        apply_action(m, id, action) == m,
{
}

/// The actions a key press asks for target entities of the runtime only.
pub proof fn law_key_actions_target_entities(
    pairs: Seq<(Seq<char>, EntityInstance)>,
    key: Seq<char>,
    i: int,
)
    requires
        keys_unique(pairs),
        keys_match(pairs, |e: EntityInstance| e.id@),
        0 <= i < key_actions(pairs, key).len(),
    ensures
        to_map(pairs).contains_key(key_actions(pairs, key)[i].0),
    decreases pairs.len(),
{
    let init = pairs.drop_last();
    let last = pairs.last();
    let front = key_actions(init, key);
    assert(keys_unique(init)) by {
        assert forall|a: int, b: int|
            0 <= a < init.len() && 0 <= b < init.len() && (#[trigger] init[a]).0 == (
            #[trigger] init[b]).0 implies a == b by {
            assert(init[a] == pairs[a] && init[b] == pairs[b]);
        }
    }
    assert(keys_match(init, |e: EntityInstance| e.id@)) by {
        assert forall|a: int| 0 <= a < init.len() implies (#[trigger] init[a]).0 == init[a].1.id@ by {
            assert(init[a] == pairs[a]);
        }
    }
    if i < front.len() {
        law_key_actions_target_entities(init, key, i);
        let k = key_actions(pairs, key)[i].0;
        assert(key_actions(pairs, key)[i] == front[i]);
        let j = index_of(init, k);
        assert(init[j] == pairs[j]);
        lemma_index_of(pairs, j);
    } else {
        let own = key_actions_of(last.1, key);
        assert(key_actions(pairs, key)[i] == own[i - front.len()]);
        assert(own[i - front.len()].0 == last.1.id@) by {
            lemma_key_actions_of_id(last.1, key, i - front.len());
        }
        lemma_index_of(pairs, pairs.len() - 1);
    }
}

/// The actions asked of one entity all name that entity.
proof fn lemma_key_actions_of_id(e: EntityInstance, key: Seq<char>, j: int)
    requires
        0 <= j < key_actions_of(e, key).len(),
    ensures
        key_actions_of(e, key)[j].0 == e.id@,
{
}

/// Running actions (those a key press or the pointer asks for) changes
/// only the entities they name, and only whether each is visible or
/// present: no entity appears, every other field stays, and an entity no
/// action names is kept as it was.
pub proof fn law_actions_change_only_targets(
    m: Map<Seq<char>, EntityInstance>,
    acts: Seq<(Seq<char>, Seq<char>)>,
    id: Seq<char>,
)
    ensures
        apply_actions(m, acts).contains_key(id) ==> m.contains_key(id) && apply_actions(m, acts)[id] == (
        EntityInstance { visible: apply_actions(m, acts)[id].visible, ..m[id] }),
        (forall|j: int| 0 <= j < acts.len() ==> (#[trigger] acts[j]).0 != id) ==> (apply_actions(
            m,
            acts,
        ).contains_key(id) == m.contains_key(id) && (m.contains_key(id) ==> apply_actions(m, acts)[id]
            == m[id])),
    decreases acts.len(),
{
    if acts.len() > 0 {
        let init = acts.drop_last();
        law_actions_change_only_targets(m, init, id);
        if forall|j: int| 0 <= j < acts.len() ==> (#[trigger] acts[j]).0 != id {
            assert forall|j: int| 0 <= j < init.len() implies (#[trigger] init[j]).0 != id by {
                assert(init[j] == acts[j]);
            }
            assert(acts[acts.len() - 1].0 != id);
        }
    }
}

/// Running no actions changes nothing, and running actions one batch after
/// another is running them all in order.
pub proof fn law_actions_compose(
    m: Map<Seq<char>, EntityInstance>,
    a: Seq<(Seq<char>, Seq<char>)>,
    b: Seq<(Seq<char>, Seq<char>)>,
)
    ensures
        apply_actions(m, Seq::empty()) == m,
        apply_actions(apply_actions(m, a), b) == apply_actions(m, a + b),
    decreases b.len(),
{
    if b.len() > 0 {
        law_actions_compose(m, a, b.drop_last());
        assert((a + b).drop_last() =~= a + b.drop_last());
        assert((a + b).last() == b.last());
    } else {
        assert(a + b =~= a);
    }
}

/// A handler subscribed to a message type is reached by every message of
/// that type, after the handlers subscribed to it before, and before the
/// handlers of every message (`*`).
pub proof fn law_subscriber_reached<H>(subs: Map<Seq<char>, Seq<H>>, t: Seq<char>, h: H)
    requires
        t != "*"@,
    ensures
        reached(
            subs.insert(
                t,
                if subs.contains_key(t) {
                    subs[t].push(h)
                } else {
                    seq![h]
                },
            ),
            t,
        ) == (if subs.contains_key(t) {
            subs[t]
        } else {
            Seq::empty()
        }).push(h) + (if subs.contains_key("*"@) {
            subs["*"@]
        } else {
            Seq::empty()
        }),
{
    if !subs.contains_key(t) {
        assert(Seq::<H>::empty().push(h) =~= seq![h]);
    }
}

/// A handler subscribed to every message (`*`) is reached by a message of
/// any type, after that type's own handlers.
pub proof fn law_wildcard_reached<H>(subs: Map<Seq<char>, Seq<H>>, t: Seq<char>, i: int)
    requires
        subs.contains_key("*"@),
        0 <= i < subs["*"@].len(),
    ensures
        reached(subs, t)[reached(subs, t).len() - subs["*"@].len() + i] == subs["*"@][i],
{
}

/// After unsubscribing a type, its messages reach only the handlers of
/// every message.
pub proof fn law_unsubscribe<H>(subs: Map<Seq<char>, Seq<H>>, t: Seq<char>)
    requires
        t != "*"@,
    ensures
        reached(subs.remove(t), t) == if subs.contains_key("*"@) {
            subs["*"@]
        } else {
            Seq::<H>::empty()
        },
{
    assert(reached(subs.remove(t), t) =~= if subs.contains_key("*"@) {
        subs["*"@]
    } else {
        Seq::<H>::empty()
    });
}

/// Events that belong to no project reach every client, whatever project
/// it follows; an event of a project reaches the clients of that project.
pub proof fn law_project_filter(msg: BusMessage, project_id: Seq<char>)
    ensures
        msg.spec_project() is None ==> spec_matches_project(msg, project_id),
        msg.spec_project() == Some(project_id) ==> spec_matches_project(msg, project_id),
{
}

/// A scene passes validation exactly when its name is not empty and its
/// entity ids are distinct.
pub proof fn law_validation_accepts(scene: SceneDefinition)
    ensures
        validation_outcome(scene) is None <==> (scene.scene@.len() > 0 && entity_ids(
            scene,
        ).no_duplicates()),
{
    let ids = entity_ids(scene);
    if scene.scene@.len() > 0 {
        if ids.no_duplicates() {
            if exists|j: int| 0 <= j < ids.len() && repeats_earlier(ids, j) {
                let j = choose|j: int| 0 <= j < ids.len() && repeats_earlier(ids, j);
                let i = choose|i: int| 0 <= i < j && ids[i] == ids[j];
                assert(false);
            }
        } else {
            let (a, b) = choose|a: int, b: int|
                0 <= a < ids.len() && 0 <= b < ids.len() && a != b && ids[a] == ids[b];
            let (i, j) = if a < b {
                (a, b)
            } else {
                (b, a)
            };
            assert(repeats_earlier(ids, j));
            assert(first_repeat(ids) is Some);
        }
    }
}

/// Colour text of a length other than 6 or 8 (after the leading `#`s) is
/// opaque white, and `#RRGGBB` is always opaque.
pub proof fn law_color_defaults(bytes: Seq<u8>)
    ensures
        crate::renderer::without_hashes(bytes).len() != 6 && crate::renderer::without_hashes(
            bytes,
        ).len() != 8 ==> color_of(bytes) == seq![255u8, 255u8, 255u8, 255u8],
        crate::renderer::without_hashes(bytes).len() == 6 ==> color_of(bytes)[3] == 255u8,
        color_of(bytes).len() == 4,
{
}

/// The bytes of the decimal notation of `m`: digits whose value is `m`.
proof fn lemma_decimal_bytes(m: nat)
    ensures
        crate::text::decimal(m).len() > 0,
        is_ascii_chars(crate::text::decimal(m)),
        all_digits(ascii_bytes(crate::text::decimal(m))),
        digits_value(ascii_bytes(crate::text::decimal(m))) == m,
    decreases m,
{
    let d = crate::text::decimal(m);
    if m < 10 {
        assert(ascii_bytes(d) =~= seq![(48 + m) as u8]);
        assert(ascii_bytes(d).drop_last() =~= Seq::<u8>::empty());
        assert(digits_value(Seq::<u8>::empty()) == 0);
        assert(ascii_bytes(d).last() == (48 + m) as u8);
        assert(digits_value(ascii_bytes(d)) == digits_value(ascii_bytes(d).drop_last()) * 10 + (ascii_bytes(d).last() - 48));
    } else {
        lemma_decimal_bytes(m / 10);
        let p = crate::text::decimal(m / 10);
        assert(d == p.push(crate::text::digit_char(m % 10)));
        assert(ascii_bytes(d) =~= ascii_bytes(p).push((48 + m % 10) as u8));
        assert(ascii_bytes(d).drop_last() =~= ascii_bytes(p));
        assert(m == (m / 10) * 10 + m % 10);
        assert(ascii_bytes(d).last() == (48 + m % 10) as u8);
        assert(digits_value(ascii_bytes(d)) == digits_value(ascii_bytes(d).drop_last()) * 10 + (ascii_bytes(d).last() - 48));
    }
}

/// The bytes of ASCII characters.
pub open spec fn ascii_bytes(chars: Seq<char>) -> Seq<u8> {
    chars.map_values(|c: char| c as u8)
}

/// Reading the decimal notation of any `i64` gives the number back.
pub proof fn law_decimal_parses_back(n: i64)
    ensures
        crate::auth::parse_i64_spec(encode_utf8(crate::text::signed_decimal(n as int))) == Some(n),
{
    let m: nat = if n < 0 {
        (-n) as nat
    } else {
        n as nat
    };
    lemma_decimal_bytes(m);
    let d = crate::text::decimal(m);
    let s = crate::text::signed_decimal(n as int);
    assert(is_ascii_chars(s)) by {
        if n < 0 {
            assert forall|i: int| 0 <= i < s.len() implies '\0' <= #[trigger] s[i] <= '\u{7f}' by {
                if i > 0 {
                    assert(s[i] == d[i - 1]);
                }
            }
        }
    }
    vstd::utf8::is_ascii_chars_encode_utf8(s);
    let b = encode_utf8(s);
    assert(b =~= ascii_bytes(s));
    if n < 0 {
        assert(b[0] == 45u8);
        assert(b.drop_first() =~= ascii_bytes(d));
    } else {
        assert(b =~= ascii_bytes(d));
        assert(48 <= b[0] <= 57);
    }
}

/// A token issued on the clock for `sub`, with a lifetime of no negative
/// number of hours, verifies, giving back its subject and times, at any
/// time up to 60 seconds after it expires.
pub proof fn law_issued_token_verifies(t: Seq<char>, sub: Seq<char>, iat: i64, hours: i64, secret: Seq<u8>, now: i64)
    requires
        issued_on_clock(t, sub, iat, hours, secret),
        0 <= hours <= MAX_EXPIRE_HOURS,
        iat + hours * 3600 >= now - 60,
    ensures
        fresh_claims(t, secret, now) == Some((sub, iat, (iat + hours * 3600) as i64)),
{
}

/// A token more than 60 seconds past its expiry does not verify.
pub proof fn law_expired_token_refused(t: Seq<char>, secret: Seq<u8>, now: i64)
    requires
        hs256_claims(t, secret) matches Some(c) && c.2 < now - 60,
    ensures
        fresh_claims(t, secret, now) is None,
{
}

/// A wrong API key does not refuse a request whose bearer token verifies:
/// the request is authenticated as that token's subject.
pub proof fn law_token_despite_wrong_key(
    req: AuthRequest,
    config: AuthConfig,
    now: i64,
    r: Result<AuthSubject, AuthError>,
    sub: Seq<char>,
)
    requires
        authenticated_at(req, config, now, r),
        !api_key_matches(req, config),
        candidate_tokens(req).len() > 0,
        fresh_subject(candidate_tokens(req)[0], encode_utf8(config.jwt_secret@), now) == Some(sub),
    ensures
        r matches Ok(s) && s.id@ == sub && s.auth_type == AuthType::Jwt,
{
    let vs = token_verdicts(candidate_tokens(req), encode_utf8(config.jwt_secret@), now);
    assert(vs[0] == Some(sub));
    assert(first_subject(vs) == Some(sub));
}

/// A project stored under a new id is listed last, after the projects
/// already listed, which keep their order.
pub proof fn law_new_project_listed_last(before: ForgeState, after: ForgeState, k: Seq<char>)
    requires
        !has_key(project_pairs(before.project_list()), k),
        after.project_put_from(before, k),
    ensures
        after.project_list() == before.project_list().push(after.projects()[k]),
{
    let a = after.project_list();
    let b = before.project_list();
    assert(project_pairs(a) == project_pairs(b).push((k, after.projects()[k])));
    assert(a.len() == b.len() + 1);
    assert forall|i: int| 0 <= i < a.len() implies a[i] == b.push(after.projects()[k])[i] by {
        assert(project_pairs(a)[i].1 == a[i]);
        if i < b.len() {
            assert(project_pairs(b)[i].1 == b[i]);
        }
    }
    assert(a =~= b.push(after.projects()[k]));
}

/// A canvas keeps its size through any run of calls: each drawing call
/// takes it by shared reference, and each clipping call keeps its size, so
/// a run of states each of the size of the one before ends at the size it
/// began with.
pub proof fn law_canvas_size_kept(states: Seq<Canvas>)
    requires
        states.len() > 0,
        forall|i: int|
            0 <= i < states.len() - 1 ==> (#[trigger] states[i + 1]).spec_width() == states[i].spec_width()
                && states[i + 1].spec_height() == states[i].spec_height(),
    ensures
        states.last().spec_width() == states[0].spec_width(),
        states.last().spec_height() == states[0].spec_height(),
    decreases states.len(),
{
    if states.len() > 1 {
        let init = states.drop_last();
        assert forall|i: int| 0 <= i < init.len() - 1 implies (#[trigger] init[i + 1]).spec_width()
            == init[i].spec_width() && init[i + 1].spec_height() == init[i].spec_height() by {
            assert(init[i + 1] == states[i + 1] && init[i] == states[i]);
        }
        law_canvas_size_kept(init);
        let k = states.len() - 2;
        assert(states[k + 1].spec_width() == states[k].spec_width());
        assert(init.last() == states[k]);
    }
}

/// Two messages are of the same kind.
pub open spec fn same_kind(a: BusMessage, b: BusMessage) -> bool {
    &&& (a is ProjectCreated) == (b is ProjectCreated)
    &&& (a is ProjectUpdated) == (b is ProjectUpdated)
    &&& (a is ProjectDeleted) == (b is ProjectDeleted)
    &&& (a is EntityCreated) == (b is EntityCreated)
    &&& (a is SceneCreated) == (b is SceneCreated)
    &&& (a is SceneUpdated) == (b is SceneUpdated)
    &&& (a is SceneDeleted) == (b is SceneDeleted)
    &&& (a is NodeAdded) == (b is NodeAdded)
    &&& (a is NodeUpdated) == (b is NodeUpdated)
    &&& (a is NodeDeleted) == (b is NodeDeleted)
    &&& (a is AssetCreated) == (b is AssetCreated)
    &&& (a is AssetUpdated) == (b is AssetUpdated)
    &&& (a is AssetDeleted) == (b is AssetDeleted)
    &&& (a is AssetReady) == (b is AssetReady)
    &&& (a is ScriptCreated) == (b is ScriptCreated)
    &&& (a is ScriptUpdated) == (b is ScriptUpdated)
    &&& (a is ScriptDeleted) == (b is ScriptDeleted)
    &&& (a is ScriptCompiled) == (b is ScriptCompiled)
    &&& (a is BuildStarted) == (b is BuildStarted)
    &&& (a is BuildProgress) == (b is BuildProgress)
    &&& (a is BuildCompleted) == (b is BuildCompleted)
    &&& (a is BuildFailed) == (b is BuildFailed)
    &&& (a is RuntimeInit) == (b is RuntimeInit)
    &&& (a is RuntimeUpdate) == (b is RuntimeUpdate)
    &&& (a is RuntimeError) == (b is RuntimeError)
    &&& (a is ExtensionRegistered) == (b is ExtensionRegistered)
}

/// Each kind of message is tagged with its own snake_case name, the name
/// handlers subscribe to.
pub proof fn law_type_tags(m: BusMessage)
    ensures
        m is ProjectCreated ==> m.spec_type_tag() == "project_created"@,
        m is ProjectUpdated ==> m.spec_type_tag() == "project_updated"@,
        m is ProjectDeleted ==> m.spec_type_tag() == "project_deleted"@,
        m is EntityCreated ==> m.spec_type_tag() == "entity_created"@,
        m is SceneCreated ==> m.spec_type_tag() == "scene_created"@,
        m is SceneUpdated ==> m.spec_type_tag() == "scene_updated"@,
        m is SceneDeleted ==> m.spec_type_tag() == "scene_deleted"@,
        m is NodeAdded ==> m.spec_type_tag() == "node_added"@,
        m is NodeUpdated ==> m.spec_type_tag() == "node_updated"@,
        m is NodeDeleted ==> m.spec_type_tag() == "node_deleted"@,
        m is AssetCreated ==> m.spec_type_tag() == "asset_created"@,
        m is AssetUpdated ==> m.spec_type_tag() == "asset_updated"@,
        m is AssetDeleted ==> m.spec_type_tag() == "asset_deleted"@,
        m is AssetReady ==> m.spec_type_tag() == "asset_ready"@,
        m is ScriptCreated ==> m.spec_type_tag() == "script_created"@,
        m is ScriptUpdated ==> m.spec_type_tag() == "script_updated"@,
        m is ScriptDeleted ==> m.spec_type_tag() == "script_deleted"@,
        m is ScriptCompiled ==> m.spec_type_tag() == "script_compiled"@,
        m is BuildStarted ==> m.spec_type_tag() == "build_started"@,
        m is BuildProgress ==> m.spec_type_tag() == "build_progress"@,
        m is BuildCompleted ==> m.spec_type_tag() == "build_completed"@,
        m is BuildFailed ==> m.spec_type_tag() == "build_failed"@,
        m is RuntimeInit ==> m.spec_type_tag() == "runtime_init"@,
        m is RuntimeUpdate ==> m.spec_type_tag() == "runtime_update"@,
        m is RuntimeError ==> m.spec_type_tag() == "runtime_error"@,
        m is ExtensionRegistered ==> m.spec_type_tag() == "extension_registered"@,
{
}

/// Messages of different kinds have different tags, so the handlers of
/// one kind never receive a message of another.
pub proof fn law_type_tags_distinct(a: BusMessage, b: BusMessage)
    requires
        a.spec_type_tag() == b.spec_type_tag(),
    ensures
        same_kind(a, b),
{
    reveal_strlit("project_created");
    assert("project_created"@.len() == 15 && "project_created"@[0] == 'p' && "project_created"@[8] == 'c');
    reveal_strlit("project_updated");
    assert("project_updated"@.len() == 15 && "project_updated"@[0] == 'p' && "project_updated"@[8] == 'u');
    reveal_strlit("project_deleted");
    assert("project_deleted"@.len() == 15 && "project_deleted"@[0] == 'p' && "project_deleted"@[8] == 'd');
    reveal_strlit("entity_created");
    assert("entity_created"@.len() == 14 && "entity_created"@[0] == 'e' && "entity_created"@[8] == 'r');
    reveal_strlit("scene_created");
    assert("scene_created"@.len() == 13 && "scene_created"@[0] == 's' && "scene_created"@[8] == 'e');
    reveal_strlit("scene_updated");
    assert("scene_updated"@.len() == 13 && "scene_updated"@[0] == 's' && "scene_updated"@[8] == 'd');
    reveal_strlit("scene_deleted");
    assert("scene_deleted"@.len() == 13 && "scene_deleted"@[0] == 's' && "scene_deleted"@[8] == 'l');
    reveal_strlit("node_added");
    assert("node_added"@.len() == 10 && "node_added"@[0] == 'n' && "node_added"@[8] == 'e');
    reveal_strlit("node_updated");
    assert("node_updated"@.len() == 12 && "node_updated"@[0] == 'n' && "node_updated"@[8] == 'a');
    reveal_strlit("node_deleted");
    assert("node_deleted"@.len() == 12 && "node_deleted"@[0] == 'n' && "node_deleted"@[8] == 'e');
    reveal_strlit("asset_created");
    assert("asset_created"@.len() == 13 && "asset_created"@[0] == 'a' && "asset_created"@[8] == 'e');
    reveal_strlit("asset_updated");
    assert("asset_updated"@.len() == 13 && "asset_updated"@[0] == 'a' && "asset_updated"@[8] == 'd');
    reveal_strlit("asset_deleted");
    assert("asset_deleted"@.len() == 13 && "asset_deleted"@[0] == 'a' && "asset_deleted"@[8] == 'l');
    reveal_strlit("asset_ready");
    assert("asset_ready"@.len() == 11 && "asset_ready"@[0] == 'a' && "asset_ready"@[8] == 'a');
    reveal_strlit("script_created");
    assert("script_created"@.len() == 14 && "script_created"@[0] == 's' && "script_created"@[8] == 'r');
    reveal_strlit("script_updated");
    assert("script_updated"@.len() == 14 && "script_updated"@[0] == 's' && "script_updated"@[8] == 'p');
    reveal_strlit("script_deleted");
    assert("script_deleted"@.len() == 14 && "script_deleted"@[0] == 's' && "script_deleted"@[8] == 'e');
    reveal_strlit("script_compiled");
    assert("script_compiled"@.len() == 15 && "script_compiled"@[0] == 's' && "script_compiled"@[8] == 'o');
    reveal_strlit("build_started");
    assert("build_started"@.len() == 13 && "build_started"@[0] == 'b' && "build_started"@[8] == 'a');
    reveal_strlit("build_progress");
    assert("build_progress"@.len() == 14 && "build_progress"@[0] == 'b' && "build_progress"@[8] == 'o');
    reveal_strlit("build_completed");
    assert("build_completed"@.len() == 15 && "build_completed"@[0] == 'b' && "build_completed"@[8] == 'm');
    reveal_strlit("build_failed");
    assert("build_failed"@.len() == 12 && "build_failed"@[0] == 'b' && "build_failed"@[8] == 'i');
    reveal_strlit("runtime_init");
    assert("runtime_init"@.len() == 12 && "runtime_init"@[0] == 'r' && "runtime_init"@[8] == 'i');
    reveal_strlit("runtime_update");
    assert("runtime_update"@.len() == 14 && "runtime_update"@[0] == 'r' && "runtime_update"@[8] == 'u');
    reveal_strlit("runtime_error");
    assert("runtime_error"@.len() == 13 && "runtime_error"@[0] == 'r' && "runtime_error"@[8] == 'e');
    reveal_strlit("extension_registered");
    assert("extension_registered"@.len() == 20 && "extension_registered"@[0] == 'e' && "extension_registered"@[8] == 'n');
    let t = a.spec_type_tag();
    let u = b.spec_type_tag();
    assert(t.len() == u.len() && t[0] == u[0] && t[8] == u[8]);
}

/// A message that belongs to a project passes a client's filter exactly
/// when it belongs to the project the client follows; the scene-node and
/// extension events pass every filter.
pub proof fn law_project_of_message(m: BusMessage, p: Seq<char>)
    ensures
        match m {
            BusMessage::ProjectCreated { project_id, .. } => m.spec_project() == Some(project_id@) && (spec_matches_project(m, p) <==> project_id@ == p),
            BusMessage::ProjectUpdated { project_id, .. } => m.spec_project() == Some(project_id@) && (spec_matches_project(m, p) <==> project_id@ == p),
            BusMessage::ProjectDeleted { project_id, .. } => m.spec_project() == Some(project_id@) && (spec_matches_project(m, p) <==> project_id@ == p),
            BusMessage::EntityCreated { project_id, .. } => m.spec_project() == Some(project_id@) && (spec_matches_project(m, p) <==> project_id@ == p),
            BusMessage::SceneCreated { project_id, .. } => m.spec_project() == Some(project_id@) && (spec_matches_project(m, p) <==> project_id@ == p),
            BusMessage::SceneUpdated { project_id, .. } => m.spec_project() == Some(project_id@) && (spec_matches_project(m, p) <==> project_id@ == p),
            BusMessage::SceneDeleted { project_id, .. } => m.spec_project() == Some(project_id@) && (spec_matches_project(m, p) <==> project_id@ == p),
            BusMessage::NodeAdded { .. } => m.spec_project() is None && spec_matches_project(m, p),
            BusMessage::NodeUpdated { .. } => m.spec_project() is None && spec_matches_project(m, p),
            BusMessage::NodeDeleted { .. } => m.spec_project() is None && spec_matches_project(m, p),
            BusMessage::AssetCreated { project_id, .. } => m.spec_project() == Some(project_id@) && (spec_matches_project(m, p) <==> project_id@ == p),
            BusMessage::AssetUpdated { project_id, .. } => m.spec_project() == Some(project_id@) && (spec_matches_project(m, p) <==> project_id@ == p),
            BusMessage::AssetDeleted { project_id, .. } => m.spec_project() == Some(project_id@) && (spec_matches_project(m, p) <==> project_id@ == p),
            BusMessage::AssetReady { project_id, .. } => m.spec_project() == Some(project_id@) && (spec_matches_project(m, p) <==> project_id@ == p),
            BusMessage::ScriptCreated { project_id, .. } => m.spec_project() == Some(project_id@) && (spec_matches_project(m, p) <==> project_id@ == p),
            BusMessage::ScriptUpdated { project_id, .. } => m.spec_project() == Some(project_id@) && (spec_matches_project(m, p) <==> project_id@ == p),
            BusMessage::ScriptDeleted { project_id, .. } => m.spec_project() == Some(project_id@) && (spec_matches_project(m, p) <==> project_id@ == p),
            BusMessage::ScriptCompiled { project_id, .. } => m.spec_project() == Some(project_id@) && (spec_matches_project(m, p) <==> project_id@ == p),
            BusMessage::BuildStarted { project_id, .. } => m.spec_project() == Some(project_id@) && (spec_matches_project(m, p) <==> project_id@ == p),
            BusMessage::BuildProgress { project_id, .. } => m.spec_project() == Some(project_id@) && (spec_matches_project(m, p) <==> project_id@ == p),
            BusMessage::BuildCompleted { project_id, .. } => m.spec_project() == Some(project_id@) && (spec_matches_project(m, p) <==> project_id@ == p),
            BusMessage::BuildFailed { project_id, .. } => m.spec_project() == Some(project_id@) && (spec_matches_project(m, p) <==> project_id@ == p),
            BusMessage::RuntimeInit { project_id, .. } => m.spec_project() == Some(project_id@) && (spec_matches_project(m, p) <==> project_id@ == p),
            BusMessage::RuntimeUpdate { project_id, .. } => m.spec_project() == Some(project_id@) && (spec_matches_project(m, p) <==> project_id@ == p),
            BusMessage::RuntimeError { project_id, .. } => m.spec_project() == Some(project_id@) && (spec_matches_project(m, p) <==> project_id@ == p),
            BusMessage::ExtensionRegistered { .. } => m.spec_project() is None && spec_matches_project(m, p),
        },
{
}

/// Where a drawing call draws.
pub open spec fn draw_position(d: DrawView) -> (u64, u64) {
    match d {
        DrawView::Sprite { x, y, .. } => (x, y),
        DrawView::Rect { x, y, .. } => (x, y),
        DrawView::Text { x, y, .. } => (x, y),
    }
}

/// Every drawing call made for an entity is placed at the entity's
/// position, and a sprite is drawn with the entity's rotation and scale;
/// a hidden entity draws nothing, and an entity draws at most a sprite, a
/// rectangle and a text, in that order.
pub proof fn law_entity_drawn_at_its_position(e: EntityInstance, i: int)
    requires
        0 <= i < entity_draws(e).len(),
    ensures
        e.visible,
        entity_draws(e).len() <= 3,
        draw_position(entity_draws(e)[i]) == (e.x, e.y),
        entity_draws(e)[i] matches DrawView::Sprite { rotation, scale_x, scale_y, .. } ==> rotation
            == e.rotation && scale_x == e.scale_x && scale_y == e.scale_y,
{
}

/// Every drawing call of a frame is at the position of a visible entity
/// of the frame.
pub proof fn law_frame_drawn_at_entity_positions(es: Seq<EntityInstance>, i: int)
    requires
        0 <= i < frame_draws(es).len(),
    ensures
        exists|j: int|
            0 <= j < es.len() && es[j].visible && draw_position(#[trigger] frame_draws(es)[i]) == (
            es[j].x,
            es[j].y,
        ),
    decreases es.len(),
{
    let init = es.drop_last();
    let front = frame_draws(init);
    if i < front.len() {
        law_frame_drawn_at_entity_positions(init, i);
        let j = choose|j: int|
            0 <= j < init.len() && init[j].visible && draw_position(#[trigger] front[i]) == (
            init[j].x,
            init[j].y,
        );
        assert(frame_draws(es)[i] == front[i]);
        assert(es[j] == init[j]);
    } else {
        let k = i - front.len();
        assert(frame_draws(es)[i] == entity_draws(es.last())[k]);
        law_entity_drawn_at_its_position(es.last(), k);
        assert(es[es.len() - 1] == es.last());
    }
}

/// Showing a present entity makes it visible, and hiding it makes it
/// hidden, whatever it was before; nothing else about it changes, and
/// doing either twice is doing it once.
pub proof fn law_show_and_hide_set_visibility(m: Map<Seq<char>, EntityInstance>, id: Seq<char>)
    requires
        m.contains_key(id),
    ensures
        apply_action(m, id, "show"@).contains_key(id),
        apply_action(m, id, "show"@)[id].visible,
        apply_action(m, id, "show"@)[id] == (EntityInstance { visible: true, ..m[id] }),
        apply_action(m, id, "hide"@).contains_key(id),
        !apply_action(m, id, "hide"@)[id].visible,
        apply_action(m, id, "hide"@)[id] == (EntityInstance { visible: false, ..m[id] }),
        apply_action(apply_action(m, id, "show"@), id, "show"@) == apply_action(m, id, "show"@),
        apply_action(apply_action(m, id, "hide"@), id, "hide"@) == apply_action(m, id, "hide"@),
{
    lemma_action_names_differ();
    assert(apply_action(apply_action(m, id, "show"@), id, "show"@) =~= apply_action(m, id, "show"@));
    assert(apply_action(apply_action(m, id, "hide"@), id, "hide"@) =~= apply_action(m, id, "hide"@));
}

/// Each hover target is an entity of the runtime, placed at that entity's
/// position, with the action its `on_hover` component names.
pub proof fn law_hover_targets_at_entity_positions(pairs: Seq<(Seq<char>, EntityInstance)>, i: int)
    requires
        0 <= i < hover_targets_of(pairs).len(),
    ensures
        exists|j: int|
            0 <= j < pairs.len() && (#[trigger] pairs[j]).0 == hover_targets_of(pairs)[i].0
                && hover_targets_of(pairs)[i].1 == pairs[j].1.x && hover_targets_of(pairs)[i].2
                == pairs[j].1.y && pairs[j].1.spec_hover_action() == Some(hover_targets_of(pairs)[i].5),
    decreases pairs.len(),
{
    let init = pairs.drop_last();
    let front = hover_targets_of(init);
    if i < front.len() {
        law_hover_targets_at_entity_positions(init, i);
        let j = choose|j: int|
            0 <= j < init.len() && (#[trigger] init[j]).0 == front[i].0 && front[i].1 == init[j].1.x
                && front[i].2 == init[j].1.y && init[j].1.spec_hover_action() == Some(front[i].5);
        assert(hover_targets_of(pairs)[i] == front[i]);
        assert(pairs[j] == init[j]);
    } else {
        assert(pairs[pairs.len() - 1] == pairs.last());
    }
}

} // verus!
