//! Home Assistant through its REST API: which request a function call
//! makes, and what of Home Assistant's answers is shown to the LLM.
use vstd::prelude::*;

use crate::error::BotError;
use crate::json::{
    array_of, items_view, json_string, jstr, lemma_items_view, lemma_items_view_push,
    lemma_lookup_at, lemma_members_view, lemma_members_view_push, lookup, members_view, obj1, obj2, obj3, set_member, Json,
    JsonValue,
};
use crate::plugins::{defs_view, FunctionDef};
use crate::text::{contains, contains_seq, lowercase, starts_with, to_lowercase};

verus! {

/// Home Assistant's REST API at `url`, reached with the long-lived `token`.
pub struct HomeAssistantPlugin {
    pub url: String,
    pub token: String,
}

/// A member whose value is a JSON number that the caller converts before
/// adding it to the request body: to a 32-bit integer (saturating, as Rust's
/// `as` does) where `as_integer`, else to a floating-point number.
pub struct NumberMember {
    pub key: String,
    pub number: Json,
    pub as_integer: bool,
}

/// The request a function call makes.
#[allow(inconsistent_fields)]
pub enum HaRequest {
    /// POST `/api/services/{domain}/{service}` with `body`, to which `number`
    /// is first added where there is one.
    CallService { domain: String, service: String, body: Json, number: Option<NumberMember> },
    /// GET `/api/states/{entity_id}`.
    GetState { entity_id: String },
    /// GET `/api/states`, then keep the entities that match.
    SearchEntities { domain: Option<String>, query: Option<String> },
}

#[allow(inconsistent_fields)]
pub enum HaRequestView {
    CallService {
        domain: Seq<char>,
        service: Seq<char>,
        body: JsonValue,
        number: Option<(Seq<char>, JsonValue, bool)>,
    },
    GetState { entity_id: Seq<char> },
    SearchEntities { domain: Option<Seq<char>>, query: Option<Seq<char>> },
}

impl View for HaRequest {
    type V = HaRequestView;

    open spec fn view(&self) -> HaRequestView {
        match self {
            HaRequest::CallService { domain, service, body, number } => HaRequestView::CallService {
                domain: domain@,
                service: service@,
                body: body@,
                number: match number {
                    Some(n) => Some((n.key@, n.number@, n.as_integer)),
                    None => None,
                },
            },
            HaRequest::GetState { entity_id } => HaRequestView::GetState { entity_id: entity_id@ },
            HaRequest::SearchEntities { domain, query } => HaRequestView::SearchEntities {
                domain: crate::state::opt_string_view(*domain),
                query: crate::state::opt_string_view(*query),
            },
        }
    }
}

/// The index of the first '.' of `id`, or its length where there is none.
pub open spec fn first_dot(id: Seq<char>) -> int {
    if exists|i: int| 0 <= i < id.len() && id[i] == '.' {
        choose|i: int|
            0 <= i < id.len() && id[i] == '.' && forall|j: int| 0 <= j < i ==> id[j] != '.'
    } else {
        id.len() as int
    }
}

/// The domain of an entity id: what comes before its first '.' (all of it
/// where there is none), e.g. "switch" for "switch.cave".
pub open spec fn domain_of(entity_id: Seq<char>) -> Seq<char> {
    entity_id.take(first_dot(entity_id))
}

/// `members` with each member of `data` set in turn.
pub open spec fn merge_members(
    members: Seq<(Seq<char>, JsonValue)>,
    data: Seq<(Seq<char>, JsonValue)>,
) -> Seq<(Seq<char>, JsonValue)>
    decreases data.len(),
{
    if data.len() == 0 {
        members
    } else {
        let merged = merge_members(members, data.drop_last());
        set_member(merged, data.last().0, data.last().1)
    }
}

pub open spec fn is_number(v: JsonValue) -> bool {
    v is Number
}

pub open spec fn entity_body(entity_id: Seq<char>) -> JsonValue {
    JsonValue::Object(seq![("entity_id"@, jstr(entity_id))])
}

/// What a function call asks of Home Assistant: the request, or the words
/// of the error.
pub open spec fn ha_plan(function_name: Seq<char>, params: JsonValue) -> Result<
    HaRequestView,
    Seq<char>,
> {
    let entity = params.field("entity_id"@).as_str();
    if function_name == "turn_on_device"@ {
        match entity {
            None => Err("Missing entity_id"@),
            Some(id) => {
                let domain = domain_of(id);
                let pct = params.field("brightness_pct"@);
                Ok(
                    HaRequestView::CallService {
                        domain,
                        service: "turn_on"@,
                        body: entity_body(id),
                        number: if domain == "light"@ && is_number(pct) {
                            Some(("brightness_pct"@, pct, true))
                        } else {
                            None
                        },
                    },
                )
            },
        }
    } else if function_name == "turn_off_device"@ {
        match entity {
            None => Err("Missing entity_id"@),
            Some(id) => Ok(
                HaRequestView::CallService {
                    domain: domain_of(id),
                    service: "turn_off"@,
                    body: entity_body(id),
                    number: None,
                },
            ),
        }
    } else if function_name == "get_entity_state"@ {
        match entity {
            None => Err("Missing entity_id"@),
            Some(id) => Ok(HaRequestView::GetState { entity_id: id }),
        }
    } else if function_name == "set_thermostat"@ {
        match entity {
            None => Err("Missing entity_id"@),
            Some(id) => {
                let t = params.field("temperature"@);
                if is_number(t) {
                    Ok(
                        HaRequestView::CallService {
                            domain: "climate"@,
                            service: "set_temperature"@,
                            body: entity_body(id),
                            number: Some(("temperature"@, t, false)),
                        },
                    )
                } else {
                    Err("Missing temperature"@)
                }
            },
        }
    } else if function_name == "search_entities"@ {
        Ok(
            HaRequestView::SearchEntities {
                domain: params.field("domain"@).as_str(),
                query: params.field("query"@).as_str(),
            },
        )
    } else if function_name == "call_service"@ {
        match params.field("domain"@).as_str() {
            None => Err("Missing domain"@),
            Some(domain) => match params.field("service"@).as_str() {
                None => Err("Missing service"@),
                Some(service) => match entity {
                    None => Err("Missing entity_id"@),
                    Some(id) => {
                        let base = seq![("entity_id"@, jstr(id))];
                        let body = match params.field("data"@) {
                            JsonValue::Object(data) => merge_members(base, data),
                            _ => base,
                        };
                        Ok(
                            HaRequestView::CallService {
                                domain,
                                service,
                                body: JsonValue::Object(body),
                                number: None,
                            },
                        )
                    },
                },
            },
        }
    } else {
        Err("Unknown function: "@ + function_name)
    }
}

/// The domain of an entity id is what comes before its first dot: a start
/// of the id, without a dot, followed by a dot or by nothing.
pub proof fn lemma_domain_of(id: Seq<char>)
    ensures
        domain_of(id).is_prefix_of(id),
        forall|j: int| 0 <= j < domain_of(id).len() ==> domain_of(id)[j] != '.',
        domain_of(id).len() == id.len() || id[domain_of(id).len() as int] == '.',
{
    if exists|i: int| 0 <= i < id.len() && id[i] == '.' {
        let i = choose|i: int| 0 <= i < id.len() && id[i] == '.';
        lemma_first_dot_exists(id, i);
    }
}

proof fn lemma_first_dot_exists(id: Seq<char>, i: int)
    requires
        0 <= i < id.len(),
        id[i] == '.',
    ensures
        exists|f: int| 0 <= f < id.len() && id[f] == '.' && forall|j: int| 0 <= j < f ==> id[j] != '.',
    decreases i,
{
    if exists|j: int| 0 <= j < i && id[j] == '.' {
        let j = choose|j: int| 0 <= j < i && id[j] == '.';
        lemma_first_dot_exists(id, j);
    } else {
        assert(0 <= i < id.len() && id[i] == '.' && forall|j: int| 0 <= j < i ==> id[j] != '.');
    }
}

/// A device function targets the entity named in the call: its request
/// body names exactly that entity. Turning a device on or off calls that
/// service of the entity's domain (the part of its id before the first
/// dot) whatever else the call holds; setting a thermostat calls the climate
/// service with the temperature asked, where a number is asked.
pub proof fn lemma_plan_targets_entity(function_name: Seq<char>, params: JsonValue, id: Seq<char>)
    requires
        function_name == "turn_on_device"@ || function_name == "turn_off_device"@ || function_name
            == "set_thermostat"@,
        params.field("entity_id"@) == jstr(id),
    ensures
        function_name != "set_thermostat"@ || params.field("temperature"@) is Number
            <==> ha_plan(function_name, params) is Ok,
        ha_plan(function_name, params) is Ok ==> (ha_plan(function_name, params) matches Ok(HaRequestView::CallService {
            domain,
            service,
            body,
            number,
        }) && body == JsonValue::Object(seq![("entity_id"@, jstr(id))]) && body.field("entity_id"@)
            == jstr(id) && if function_name == "set_thermostat"@ {
            &&& domain == "climate"@
            &&& service == "set_temperature"@
            &&& number == Some(("temperature"@, params.field("temperature"@), false))
        } else {
            &&& domain.is_prefix_of(id)
            &&& forall|j: int| 0 <= j < domain.len() ==> domain[j] != '.'
            &&& domain.len() == id.len() || id[domain.len() as int] == '.'
            &&& service == if function_name == "turn_on_device"@ {
                "turn_on"@
            } else {
                "turn_off"@
            }
        }),
{
    reveal_strlit("turn_on_device");
    reveal_strlit("turn_off_device");
    reveal_strlit("set_thermostat");
    reveal_strlit("get_entity_state");
    reveal_strlit("entity_id");
    lemma_domain_of(id);
    assert("set_thermostat"@[0] != "turn_on_device"@[0]);
    assert("set_thermostat"@[0] != "turn_off_device"@[0]);
    assert("set_thermostat"@.len() != "get_entity_state"@.len());
    assert("turn_off_device"@.len() != "turn_on_device"@.len());
    assert("turn_off_device"@.len() != "get_entity_state"@.len());
    assert("turn_on_device"@.len() != "get_entity_state"@.len());
    lemma_lookup_at(seq![("entity_id"@, jstr(id))], "entity_id"@, 0);
}

proof fn lemma_lookup_absent(members: Seq<(Seq<char>, JsonValue)>, key: Seq<char>)
    requires
        forall|i: int| 0 <= i < members.len() ==> members[i].0 != key,
    ensures
        lookup(members, key) is None,
    decreases members.len(),
{
    if members.len() > 0 {
        assert(members[0].0 != key);
        lemma_lookup_absent(members.drop_first(), key);
    }
}

/// Merging members of distinct names: each is found with its value, and
/// every other name keeps what it had.
proof fn lemma_merge_lookup(
    members: Seq<(Seq<char>, JsonValue)>,
    data: Seq<(Seq<char>, JsonValue)>,
    key: Seq<char>,
)
    requires
        forall|i: int, j: int| 0 <= i < j < data.len() ==> data[i].0 != data[j].0,
    ensures
        lookup(merge_members(members, data), key) == match lookup(data, key) {
            Some(v) => Some(v),
            None => lookup(members, key),
        },
    decreases data.len(),
{
    if data.len() > 0 {
        let rest = data.drop_last();
        let last = data.last();
        lemma_merge_lookup(members, rest, key);
        crate::json::lemma_set_then_get(merge_members(members, rest), last.0, last.1, key);
        crate::json::lemma_lookup_append(rest, seq![last], key);
        assert(data =~= rest + seq![last]);
        reveal_with_fuel(lookup, 2);
        assert(seq![last].drop_first().len() == 0);
        if key == last.0 {
            assert forall|i: int| 0 <= i < rest.len() implies rest[i].0 != key by {
                assert(data[i].0 != data[data.len() - 1].0);
            }
            lemma_lookup_absent(rest, key);
        }
    }
}

/// The other functions: a state query asks for the entity named; a search
/// passes on the domain and query asked, where they are strings; a service
/// call goes to the domain and service asked, with a body that names the
/// entity and holds each member of `data` (names distinct), where `data` is
/// an object, the entity's name unless `data` sets it; and any other function
/// is refused as unknown.
pub proof fn lemma_plan_other_functions(function_name: Seq<char>, params: JsonValue)
    ensures
        function_name == "get_entity_state"@ ==> ha_plan(function_name, params) == match params.field(
            "entity_id"@,
        ) {
            JsonValue::Str(id) => Ok(HaRequestView::GetState { entity_id: id }),
            _ => Err("Missing entity_id"@),
        },
        function_name == "search_entities"@ ==> ha_plan(function_name, params) == Ok::<
            HaRequestView,
            Seq<char>,
        >(
            HaRequestView::SearchEntities {
                domain: match params.get("domain"@) {
                    Some(JsonValue::Str(d)) => Some(d),
                    _ => None,
                },
                query: match params.get("query"@) {
                    Some(JsonValue::Str(q)) => Some(q),
                    _ => None,
                },
            },
        ),
        function_name == "call_service"@ ==> match (
            params.field("domain"@),
            params.field("service"@),
            params.field("entity_id"@),
        ) {
            (JsonValue::Str(domain), JsonValue::Str(service), JsonValue::Str(id)) => ha_plan(
                function_name,
                params,
            ) matches Ok(HaRequestView::CallService { domain: d, service: sv, body, number }) && d
                == domain && sv == service && number is None && match params.field("data"@) {
                JsonValue::Object(data) => (forall|i: int, j: int|
                    0 <= i < j < data.len() ==> data[i].0 != data[j].0) ==> (forall|k: Seq<char>|
                    #[trigger] lookup(data, k) is Some ==> body.get(k) == lookup(data, k)) && (lookup(
                    data,
                    "entity_id"@,
                ) is None ==> body.get("entity_id"@) == Some(jstr(id))),
                _ => body == JsonValue::Object(seq![("entity_id"@, jstr(id))]),
            },
            _ => ha_plan(function_name, params) is Err,
        },
        function_name != "turn_on_device"@ && function_name != "turn_off_device"@ && function_name
            != "get_entity_state"@ && function_name != "set_thermostat"@ && function_name
            != "search_entities"@ && function_name != "call_service"@ ==> ha_plan(
            function_name,
            params,
        ) == Err::<HaRequestView, Seq<char>>("Unknown function: "@ + function_name),
{
    reveal_strlit("turn_on_device");
    reveal_strlit("turn_off_device");
    reveal_strlit("set_thermostat");
    reveal_strlit("get_entity_state");
    reveal_strlit("search_entities");
    reveal_strlit("call_service");
    reveal_strlit("entity_id");
    assert("get_entity_state"@.len() != "turn_on_device"@.len() && "get_entity_state"@.len()
        != "turn_off_device"@.len() && "get_entity_state"@.len() != "set_thermostat"@.len());
    assert("search_entities"@.len() != "turn_on_device"@.len() && "search_entities"@[0]
        != "turn_off_device"@[0] && "search_entities"@.len() != "get_entity_state"@.len()
        && "search_entities"@.len() != "set_thermostat"@.len());
    assert("call_service"@.len() != "turn_on_device"@.len() && "call_service"@.len()
        != "turn_off_device"@.len() && "call_service"@.len() != "get_entity_state"@.len()
        && "call_service"@.len() != "set_thermostat"@.len() && "call_service"@.len()
        != "search_entities"@.len());
    if function_name == "call_service"@ {
        match (params.field("domain"@), params.field("service"@), params.field("entity_id"@)) {
            (JsonValue::Str(domain), JsonValue::Str(service), JsonValue::Str(id)) => {
                let base = seq![("entity_id"@, jstr(id))];
                lemma_lookup_at(base, "entity_id"@, 0);
                match params.field("data"@) {
                    JsonValue::Object(data) => {
                        if forall|i: int, j: int|
                            0 <= i < j < data.len() ==> data[i].0 != data[j].0 {
                            assert forall|k: Seq<char>| #[trigger]
                                lookup(data, k) is Some implies JsonValue::Object(
                                merge_members(base, data),
                            ).get(k) == lookup(data, k) by {
                                lemma_merge_lookup(base, data, k);
                            }
                            lemma_merge_lookup(base, data, "entity_id"@);
                        }
                    },
                    _ => {},
                }
            },
            _ => {},
        }
    }
}

/// The keys of an entity's attributes that are shown with its state, where present.
pub open spec fn state_keys() -> Seq<Seq<char>> {
    seq![
        "brightness"@,
        "color_temp"@,
        "temperature"@,
        "current_temperature"@,
        "humidity"@,
        "unit_of_measurement"@,
        "device_class"@,
    ]
}

/// The attributes among `keys` that are present (not null), in the order of `keys`.
pub open spec fn present_attributes(attributes: JsonValue, keys: Seq<Seq<char>>) -> Seq<
    (Seq<char>, JsonValue),
>
    decreases keys.len(),
{
    if keys.len() == 0 {
        Seq::empty()
    } else {
        let rest = present_attributes(attributes, keys.drop_last());
        let k = keys.last();
        if attributes.field(k) == JsonValue::Null {
            rest
        } else {
            rest.push((k, attributes.field(k)))
        }
    }
}

/// The compact state of an entity: its id, state, friendly name and last
/// change, then those of its key attributes that are present.
pub open spec fn state_summary(full: JsonValue) -> JsonValue {
    let attributes = full.field("attributes"@);
    JsonValue::Object(
        seq![
            ("entity_id"@, full.field("entity_id"@)),
            ("state"@, full.field("state"@)),
            ("friendly_name"@, attributes.field("friendly_name"@)),
            ("last_changed"@, full.field("last_changed"@)),
        ] + present_attributes(attributes, state_keys()),
    )
}

/// Among distinct `keys`, the attribute `key` is found in the present
/// attributes exactly where it is one of the keys and is not null.
proof fn lemma_present_lookup(attributes: JsonValue, keys: Seq<Seq<char>>, key: Seq<char>)
    requires
        forall|i: int, j: int| 0 <= i < j < keys.len() ==> keys[i] != keys[j],
    ensures
        lookup(present_attributes(attributes, keys), key) == if keys.contains(key)
            && attributes.field(key) != JsonValue::Null {
            Some(attributes.field(key))
        } else {
            None
        },
    decreases keys.len(),
{
    if keys.len() > 0 {
        let rest = keys.drop_last();
        lemma_present_lookup(attributes, rest, key);
        let k = keys.last();
        let before = present_attributes(attributes, rest);
        if attributes.field(k) != JsonValue::Null {
            crate::json::lemma_lookup_append(before, seq![(k, attributes.field(k))], key);
            assert(before.push((k, attributes.field(k))) =~= before + seq![(k, attributes.field(k))]);
            reveal_with_fuel(lookup, 2);
            assert(seq![(k, attributes.field(k))].drop_first().len() == 0);
        }
        if keys.contains(key) {
            let i = choose|i: int| 0 <= i < keys.len() && keys[i] == key;
            if i < keys.len() - 1 {
                assert(rest[i] == key);
                assert(key != k);
            }
        }
        if rest.contains(key) {
            let i = choose|i: int| 0 <= i < rest.len() && rest[i] == key;
            assert(keys[i] == key);
            assert(keys[i] != keys[keys.len() - 1]);
        }
        if key == k {
            assert(keys[keys.len() - 1] == key);
        }
    }
}

/// The compact state of an entity shows its id, state, friendly name and
/// last change, and each of its key attributes brightness, color_temp,
/// temperature, current_temperature, humidity, unit_of_measurement and
/// device_class that it has (not null), with its value; a key attribute it
/// lacks is left out.
pub proof fn lemma_state_summary_fields(full: JsonValue, key: Seq<char>)
    requires
        key == "brightness"@ || key == "color_temp"@ || key == "temperature"@ || key
            == "current_temperature"@ || key == "humidity"@ || key == "unit_of_measurement"@ || key
            == "device_class"@,
    ensures
        state_summary(full).field("entity_id"@) == full.field("entity_id"@),
        state_summary(full).field("state"@) == full.field("state"@),
        state_summary(full).field("friendly_name"@) == full.field("attributes"@).field(
            "friendly_name"@,
        ),
        state_summary(full).field("last_changed"@) == full.field("last_changed"@),
        state_summary(full).get(key) == if full.field("attributes"@).field(key) == JsonValue::Null {
            None
        } else {
            Some(full.field("attributes"@).field(key))
        },
{
    reveal_strlit("entity_id");
    reveal_strlit("state");
    reveal_strlit("friendly_name");
    reveal_strlit("last_changed");
    reveal_strlit("brightness");
    reveal_strlit("color_temp");
    reveal_strlit("temperature");
    reveal_strlit("current_temperature");
    reveal_strlit("humidity");
    reveal_strlit("unit_of_measurement");
    reveal_strlit("device_class");
    let attributes = full.field("attributes"@);
    let base = seq![
        ("entity_id"@, full.field("entity_id"@)),
        ("state"@, full.field("state"@)),
        ("friendly_name"@, attributes.field("friendly_name"@)),
        ("last_changed"@, full.field("last_changed"@)),
    ];
    let keys = state_keys();
    let present = present_attributes(attributes, keys);
    assert forall|i: int, j: int| 0 <= i < j < keys.len() implies keys[i] != keys[j] by {
        assert(keys[i].len() != keys[j].len() || keys[i][0] != keys[j][0]);
    }
    assert(base[0].0.len() != base[1].0.len() && base[0].0.len() != base[2].0.len()
        && base[0].0.len() != base[3].0.len());
    assert(base[1].0.len() != base[2].0.len() && base[1].0.len() != base[3].0.len());
    assert(base[2].0.len() != base[3].0.len());
    lemma_lookup_at(base + present, "entity_id"@, 0);
    lemma_lookup_at(base + present, "state"@, 1);
    lemma_lookup_at(base + present, "friendly_name"@, 2);
    lemma_lookup_at(base + present, "last_changed"@, 3);
    crate::json::lemma_lookup_append(base, present, key);
    reveal_with_fuel(lookup, 5);
    assert(base[0].0.len() != key.len() || base[0].0[0] != key[0]);
    assert(base[1].0.len() != key.len() || base[1].0[0] != key[0]);
    assert(base[2].0.len() != key.len() || base[2].0[0] != key[0]);
    assert(base[3].0.len() != key.len() || base[3].0[0] != key[0]);
    assert(lookup(base, key) is None);
    lemma_present_lookup(attributes, keys, key);
    assert(keys.contains(key)) by {
        if key == "brightness"@ {
            assert(keys[0] == key);
        } else if key == "color_temp"@ {
            assert(keys[1] == key);
        } else if key == "temperature"@ {
            assert(keys[2] == key);
        } else if key == "current_temperature"@ {
            assert(keys[3] == key);
        } else if key == "humidity"@ {
            assert(keys[4] == key);
        } else if key == "unit_of_measurement"@ {
            assert(keys[5] == key);
        } else {
            assert(keys[6] == key);
        }
    }
}

/// At most this many entities are returned by a search.
pub const MAX_SEARCH_RESULTS: usize = 20;

pub open spec fn str_or_empty(v: JsonValue) -> Seq<char> {
    match v.as_str() {
        Some(s) => s,
        None => Seq::empty(),
    }
}

/// Whether an entity matches a search: its id begins with the domain and a
/// dot, and its id or friendly name contains the query, case aside.
pub open spec fn entity_matches(
    entity: JsonValue,
    domain: Option<Seq<char>>,
    query: Option<Seq<char>>,
) -> bool {
    let id = str_or_empty(entity.field("entity_id"@));
    let friendly = lowercase(str_or_empty(entity.field("attributes"@).field("friendly_name"@)));
    &&& match domain {
        Some(d) => (d + "."@).is_prefix_of(id),
        None => true,
    }
    &&& match query {
        Some(q) => contains_seq(lowercase(id), lowercase(q)) || contains_seq(
            friendly,
            lowercase(q),
        ),
        None => true,
    }
}

/// How an entity is shown in search results.
pub open spec fn entity_summary(entity: JsonValue) -> JsonValue {
    JsonValue::Object(
        seq![
            ("entity_id"@, entity.field("entity_id"@)),
            ("state"@, entity.field("state"@)),
            ("friendly_name"@, entity.field("attributes"@).field("friendly_name"@)),
        ],
    )
}

pub open spec fn at_most(s: Seq<JsonValue>, n: nat) -> Seq<JsonValue> {
    if s.len() <= n {
        s
    } else {
        s.take(n as int)
    }
}

/// The result of a search over the entities in `states` (an array; anything
/// else holds none): the first `MAX_SEARCH_RESULTS` matching entities, each
/// summarised.
pub open spec fn search_result(
    states: JsonValue,
    domain: Option<Seq<char>>,
    query: Option<Seq<char>>,
) -> JsonValue {
    let all = match states.as_array() {
        Some(items) => items,
        None => Seq::empty(),
    };
    JsonValue::Array(
        at_most(
            all.filter(|e: JsonValue| entity_matches(e, domain, query)),
            MAX_SEARCH_RESULTS as nat,
        ).map_values(|e: JsonValue| entity_summary(e)),
    )
}

/// A search ignores the case of the query: two queries with the same lower
/// case give the same result.
pub proof fn lemma_search_ignores_query_case(
    states: JsonValue,
    domain: Option<Seq<char>>,
    q1: Seq<char>,
    q2: Seq<char>,
)
    requires
        lowercase(q1) == lowercase(q2),
    ensures
        search_result(states, domain, Some(q1)) == search_result(states, domain, Some(q2)),
{
    let p1 = |e: JsonValue| entity_matches(e, domain, Some(q1));
    let p2 = |e: JsonValue| entity_matches(e, domain, Some(q2));
    assert(p1 =~= p2);
}

/// The fields of the summary of an entity in search results.
proof fn lemma_entity_summary_fields(entity: JsonValue)
    ensures
        entity_summary(entity).field("entity_id"@) == entity.field("entity_id"@),
        entity_summary(entity).field("state"@) == entity.field("state"@),
        entity_summary(entity).field("friendly_name"@) == entity.field("attributes"@).field(
            "friendly_name"@,
        ),
{
    reveal_strlit("entity_id");
    reveal_strlit("state");
    reveal_strlit("friendly_name");
    let members = entity_summary(entity)->Object_0;
    assert(members[0].0.len() != "state"@.len() && members[0].0.len() != "friendly_name"@.len()
        && members[1].0.len() != "friendly_name"@.len());
    lemma_lookup_at(members, "entity_id"@, 0);
    lemma_lookup_at(members, "state"@, 1);
    lemma_lookup_at(members, "friendly_name"@, 2);
}

/// A search finds every entity among the first `MAX_SEARCH_RESULTS` listed
/// whose id starts with the domain and a dot, where a domain is asked, and
/// whose id or friendly name contains the query, case aside, where a query
/// is asked: the result shows it with its id and state.
pub proof fn lemma_search_finds(
    states: JsonValue,
    domain: Option<Seq<char>>,
    query: Option<Seq<char>>,
    j: int,
    id: Seq<char>,
    friendly: Seq<char>,
)
    requires
        states matches JsonValue::Array(items) && 0 <= j < items.len(),
        j < MAX_SEARCH_RESULTS,
        states->Array_0[j].field("entity_id"@) == jstr(id),
        domain matches Some(d) ==> (d + "."@).is_prefix_of(id),
        query matches Some(q) ==> contains_seq(lowercase(id), lowercase(q)) || (states->Array_0[j].field(
            "attributes"@,
        ).field("friendly_name"@) == jstr(friendly) && contains_seq(lowercase(friendly), lowercase(q))),
    ensures
        exists|k: int|
            0 <= k < search_result(states, domain, query)->Array_0.len() && (#[trigger] search_result(
                states,
                domain,
                query,
            )->Array_0[k]).field("entity_id"@) == jstr(id) && search_result(
                states,
                domain,
                query,
            )->Array_0[k].field("state"@) == states->Array_0[j].field("state"@),
{
    let items = states->Array_0;
    let pred = |e: JsonValue| entity_matches(e, domain, query);
    let e = items[j];
    if query is Some {
        if !contains_seq(lowercase(id), lowercase(query->Some_0)) {
            assert(str_or_empty(e.field("attributes"@).field("friendly_name"@)) == friendly);
        }
    }
    assert(pred(e));
    let head = items.take(j);
    let filtered = items.filter(pred);
    assert(items =~= items.take(j + 1) + items.skip(j + 1));
    Seq::filter_distributes_over_add(items.take(j + 1), items.skip(j + 1), pred);
    assert(items.take(j + 1).drop_last() =~= head);
    assert(items.take(j + 1).last() == e);
    reveal_with_fuel(Seq::filter, 1);
    assert(items.take(j + 1).filter(pred) == head.filter(pred).push(e));
    head.lemma_filter_len(pred);
    let k = head.filter(pred).len() as int;
    assert(filtered[k] == e);
    let shown = at_most(filtered, MAX_SEARCH_RESULTS as nat);
    assert(shown[k] == e);
    let result = shown.map_values(|x: JsonValue| entity_summary(x));
    lemma_entity_summary_fields(e);
    assert(search_result(states, domain, query)->Array_0 == result);
    assert(result[k] == entity_summary(e));
}

/// A search shows at most `MAX_SEARCH_RESULTS` entities, each one of those
/// listed, and where a domain is asked, each with an id that starts with the
/// domain and a dot.
pub proof fn lemma_search_sound(
    states: JsonValue,
    domain: Option<Seq<char>>,
    query: Option<Seq<char>>,
    k: int,
)
    requires
        0 <= k < search_result(states, domain, query)->Array_0.len(),
    ensures
        search_result(states, domain, query)->Array_0.len() <= MAX_SEARCH_RESULTS,
        states matches JsonValue::Array(items) && exists|j: int|
            0 <= j < items.len() && #[trigger] items[j].field("entity_id"@) == search_result(
                states,
                domain,
                query,
            )->Array_0[k].field("entity_id"@) && (domain matches Some(d) ==> items[j].field(
                "entity_id"@,
            ) matches JsonValue::Str(id) && (d + "."@).is_prefix_of(id)),
{
    let items = match states.as_array() {
        Some(items) => items,
        None => Seq::empty(),
    };
    let pred = |e: JsonValue| entity_matches(e, domain, query);
    let filtered = items.filter(pred);
    let shown = at_most(filtered, MAX_SEARCH_RESULTS as nat);
    let result = shown.map_values(|x: JsonValue| entity_summary(x));
    assert(search_result(states, domain, query)->Array_0 == result);
    items.lemma_filter_len(pred);
    let e = shown[k];
    assert(e == filtered[k]);
    items.lemma_filter_pred(pred, k);
    assert(filtered.contains(e));
    items.lemma_filter_contains_rev(pred, e);
    let j = choose|j: int| 0 <= j < items.len() && items[j] == e;
    lemma_entity_summary_fields(e);
    assert(result[k] == entity_summary(e));
    if states.as_array() is None {
        assert(items.len() == 0);
    }
    if domain is Some {
        reveal_strlit(".");
        let id = str_or_empty(e.field("entity_id"@));
        assert((domain->Some_0 + "."@).len() > 0);
        assert(e.field("entity_id"@) is Str);
    }
    assert(0 <= j < items.len() && items[j].field("entity_id"@) == result[k].field("entity_id"@));
}

impl HomeAssistantPlugin {
    pub fn new(url: String, token: String) -> (p: Self)
        ensures
            p.url@ == url@,
            p.token@ == token@,
    {
        HomeAssistantPlugin { url, token }
    }

    /// The Authorization header for Home Assistant's API.
    pub fn auth_header(&self) -> (h: String)
        ensures
            h@ == "Bearer "@ + self.token@,
    {
        let mut h = String::from_str("Bearer ");
        h.append(self.token.as_str());
        h
    }

    /// The URL of the service `domain.service`.
    pub fn service_url(&self, domain: &str, service: &str) -> (u: String)
        ensures
            u@ == self.url@ + "/api/services/"@ + domain@ + "/"@ + service@,
    {
        let mut u = self.url.clone();
        u.append("/api/services/");
        u.append(domain);
        u.append("/");
        u.append(service);
        u
    }

    /// The URL of the state of `entity_id`.
    pub fn state_url(&self, entity_id: &str) -> (u: String)
        ensures
            u@ == self.url@ + "/api/states/"@ + entity_id@,
    {
        let mut u = self.url.clone();
        u.append("/api/states/");
        u.append(entity_id);
        u
    }

    /// The URL of the states of all entities.
    pub fn states_url(&self) -> (u: String)
        ensures
            u@ == self.url@ + "/api/states"@,
    {
        let mut u = self.url.clone();
        u.append("/api/states");
        u
    }

    /// Decides what a call of `function_name` with `params` asks of Home
    /// Assistant (the request it makes is then sent by the caller).
    pub fn plan(&self, function_name: &str, params: &Json) -> (r: Result<HaRequest, BotError>)
        ensures
            match r {
                Ok(req) => ha_plan(function_name@, params@) == Ok::<HaRequestView, Seq<char>>(
                    req@,
                ),
                Err(e) => ha_plan(function_name@, params@) is Err && (e matches BotError::HomeAssistant(m)
                    && Err::<HaRequestView, Seq<char>>(m@) == ha_plan(function_name@, params@)),
            },
    {
        plan_call(function_name, params)
    }

    /// The functions offered to the LLM.
    pub fn available_functions(&self) -> (functions: Vec<FunctionDef>)
        ensures
            defs_view(functions@).map_values(|f: crate::plugins::FunctionDefView| f.name)
                == ha_function_names(),
            defs_view(functions@).map_values(|f: crate::plugins::FunctionDefView| f.description)
                == ha_function_descriptions(),
            defs_view(functions@).map_values(|f: crate::plugins::FunctionDefView| f.parameters)
                == ha_parameter_schemas(),
    {
        ha_functions()
    }
}

/// The names of the functions offered, in order.
pub open spec fn ha_function_names() -> Seq<Seq<char>> {
    seq![
        "turn_on_device"@,
        "turn_off_device"@,
        "get_entity_state"@,
        "set_thermostat"@,
        "search_entities"@,
        "call_service"@,
    ]
}

/// Their descriptions, in order.
pub open spec fn ha_function_descriptions() -> Seq<Seq<char>> {
    seq![
        "Turn on any Home Assistant device (light, switch, scene, script, fan, etc.) by entity ID. The domain is inferred from the entity_id prefix."@,
        "Turn off any Home Assistant device (light, switch, fan, etc.) by entity ID. The domain is inferred from the entity_id prefix."@,
        "Get the current state of any Home Assistant entity"@,
        "Set a climate/thermostat entity to a target temperature"@,
        "Search Home Assistant entities by domain and/or name. Use this when you need to find an entity ID. Returns a compact list (max 20) with entity_id, state, and friendly_name."@,
        "Call any Home Assistant service. Use for actions not covered by other tools (e.g. activating scenes, running scripts, or toggling devices)."@,
    ]
}

pub open spec fn names_array(names: Seq<Seq<char>>) -> JsonValue {
    JsonValue::Array(names.map_values(|n: Seq<char>| jstr(n)))
}

/// A parameter of the given JSON type, with its description.
pub open spec fn parameter(kind: Seq<char>, description: Seq<char>) -> JsonValue {
    JsonValue::Object(seq![("type"@, jstr(kind)), ("description"@, jstr(description))])
}

/// The JSON Schema of an object with these properties, of which `required` are required.
pub open spec fn object_schema(
    properties: Seq<(Seq<char>, JsonValue)>,
    required: Seq<Seq<char>>,
) -> JsonValue {
    JsonValue::Object(
        seq![
            ("type"@, jstr("object"@)),
            ("properties"@, JsonValue::Object(properties)),
            ("required"@, names_array(required)),
        ],
    )
}

/// Whether `schema` describes an object and requires only its own
/// properties: its `type` is `object`, and each entry of its `required`
/// array is the name of a member of its `properties`.
pub open spec fn requires_own_properties(schema: JsonValue) -> bool {
    &&& schema.field("type"@) == jstr("object"@)
    &&& match schema.field("required"@) {
        JsonValue::Array(required) => forall|k: int|
            0 <= k < required.len() ==> (#[trigger] required[k] matches JsonValue::Str(n)
                && schema.field("properties"@).get(n) is Some),
        _ => false,
    }
}

/// The properties and the required names of the parameter schema of each
/// function offered, in order.
pub open spec fn ha_schema_parts() -> Seq<(Seq<(Seq<char>, JsonValue)>, Seq<Seq<char>>)> {
    seq![
        (
            seq![
                (
                    "entity_id"@,
                    parameter(
                        "string"@,
                        "Home Assistant entity ID, e.g. light.kitchen, switch.sonoff_abc, scene.ligar_cave"@,
                    ),
                ),
                (
                    "brightness_pct"@,
                    parameter(
                        "number"@,
                        "Brightness percentage 0-100, only for light entities (optional)"@,
                    ),
                ),
            ],
            seq!["entity_id"@],
        ),
        (
            seq![
                (
                    "entity_id"@,
                    parameter(
                        "string"@,
                        "Home Assistant entity ID, e.g. switch.sonoff_abc, light.bedroom"@,
                    ),
                ),
            ],
            seq!["entity_id"@],
        ),
        (
            seq![("entity_id"@, parameter("string"@, "Entity ID to query"@))],
            seq!["entity_id"@],
        ),
        (
            seq![
                ("entity_id"@, parameter("string"@, "Climate entity ID"@)),
                ("temperature"@, parameter("number"@, "Target temperature in Celsius"@)),
            ],
            seq!["entity_id"@, "temperature"@],
        ),
        (
            seq![
                (
                    "domain"@,
                    parameter(
                        "string"@,
                        "Filter by domain, e.g. 'light', 'switch', 'climate', 'scene', 'script'"@,
                    ),
                ),
                (
                    "query"@,
                    parameter("string"@, "Substring to match against entity_id or friendly_name"@),
                ),
            ],
            Seq::empty(),
        ),
        (
            seq![
                (
                    "domain"@,
                    parameter("string"@, "Service domain, e.g. 'scene', 'script', 'light', 'switch'"@),
                ),
                (
                    "service"@,
                    parameter("string"@, "Service name, e.g. 'turn_on', 'turn_off', 'toggle'"@),
                ),
                ("entity_id"@, parameter("string"@, "Target entity ID"@)),
                ("data"@, parameter("object"@, "Additional service data (optional)"@)),
            ],
            seq!["domain"@, "service"@, "entity_id"@],
        ),
    ]
}

/// The parameter schemas of the functions offered, in order.
pub open spec fn ha_parameter_schemas() -> Seq<JsonValue> {
    ha_schema_parts().map_values(
        |part: (Seq<(Seq<char>, JsonValue)>, Seq<Seq<char>>)| object_schema(part.0, part.1),
    )
}

/// An object schema requires only its own properties where each required
/// name is one of them.
proof fn lemma_object_schema(properties: Seq<(Seq<char>, JsonValue)>, required: Seq<Seq<char>>)
    requires
        forall|k: int| 0 <= k < required.len() ==> #[trigger] lookup(properties, required[k]) is Some,
    ensures
        requires_own_properties(object_schema(properties, required)),
{
    reveal_strlit("type");
    reveal_strlit("properties");
    reveal_strlit("required");
    let members = seq![
        ("type"@, jstr("object"@)),
        ("properties"@, JsonValue::Object(properties)),
        ("required"@, names_array(required)),
    ];
    assert(members[0].0.len() != "properties"@.len());
    assert(members[0].0.len() != "required"@.len());
    assert(members[1].0.len() != "required"@.len());
    assert(members.drop_first()[0] == members[1]);
    assert(members.drop_first().drop_first()[0] == members[2]);
    assert(lookup(members.drop_first(), "properties"@) == Some(JsonValue::Object(properties)));
    assert(lookup(members.drop_first().drop_first(), "required"@) == Some(names_array(required)));
    assert(lookup(members.drop_first(), "required"@) == Some(names_array(required)));
}

/// Every function offered to the LLM has a distinct name, takes an object,
/// and requires only parameters that its schema describes.
pub proof fn lemma_ha_functions_well_formed()
    ensures
        ha_function_names().len() == ha_parameter_schemas().len(),
        forall|i: int, j: int|
            0 <= i < j < ha_function_names().len() ==> #[trigger] ha_function_names()[i]
                != #[trigger] ha_function_names()[j],
        forall|i: int|
            0 <= i < ha_parameter_schemas().len() ==> requires_own_properties(
                #[trigger] ha_parameter_schemas()[i],
            ),
{
    reveal_strlit("entity_id");
    reveal_strlit("brightness_pct");
    reveal_strlit("temperature");
    reveal_strlit("domain");
    reveal_strlit("query");
    reveal_strlit("service");
    reveal_strlit("data");
    reveal_strlit("turn_on_device");
    reveal_strlit("turn_off_device");
    reveal_strlit("get_entity_state");
    reveal_strlit("set_thermostat");
    reveal_strlit("search_entities");
    reveal_strlit("call_service");
    reveal_with_fuel(lookup, 5);
    let names = ha_function_names();
    assert forall|i: int, j: int| 0 <= i < j < names.len() implies #[trigger] names[i]
        != #[trigger] names[j] by {
        assert(names[0][0] != names[3][0]);
        assert(names[1][0] != names[4][0]);
        assert(names[i].len() != names[j].len() || names[i][0] != names[j][0]);
    }
    let schemas = ha_parameter_schemas();
    assert forall|i: int| 0 <= i < schemas.len() implies requires_own_properties(
        #[trigger] schemas[i],
    ) by {
        let props = ha_schema_parts()[i].0;
        let req = ha_schema_parts()[i].1;
        assert forall|k: int| 0 <= k < req.len() implies #[trigger] lookup(props, req[k]) is Some by {
            if i == 0 {
            } else if i == 1 {
            } else if i == 2 {
            } else if i == 3 {
            } else if i == 4 {
            } else {
            }
        }
        lemma_object_schema(props, req);
    }
}

fn property(kind: &str, description: &str) -> (p: Json)
    ensures
        p@ == JsonValue::Object(seq![("type"@, jstr(kind@)), ("description"@, jstr(description@))]),
{
    obj2("type", json_string(kind), "description", json_string(description))
}

fn names1(a: &str) -> (r: Json)
    ensures
        r@ == names_array(seq![a@]),
{
    let items = vec![json_string(a)];
    proof {
        lemma_items_view(items@);
        assert(items_view(items@) =~= seq![a@].map_values(|n: Seq<char>| jstr(n)));
    }
    array_of(items)
}

fn names2(a: &str, b: &str) -> (r: Json)
    ensures
        r@ == names_array(seq![a@, b@]),
{
    let items = vec![json_string(a), json_string(b)];
    proof {
        lemma_items_view(items@);
        assert(items_view(items@) =~= seq![a@, b@].map_values(|n: Seq<char>| jstr(n)));
    }
    array_of(items)
}

fn names3(a: &str, b: &str, c: &str) -> (r: Json)
    ensures
        r@ == names_array(seq![a@, b@, c@]),
{
    let items = vec![json_string(a), json_string(b), json_string(c)];
    proof {
        lemma_items_view(items@);
        assert(items_view(items@) =~= seq![a@, b@, c@].map_values(|n: Seq<char>| jstr(n)));
    }
    array_of(items)
}

fn no_names() -> (r: Json)
    ensures
        r@ == names_array(Seq::empty()),
{
    let items: Vec<Json> = Vec::new();
    proof {
        assert(items_view(items@) =~= Seq::<Seq<char>>::empty().map_values(|n: Seq<char>| jstr(n)));
    }
    array_of(items)
}

fn schema(properties: Json, required: Json) -> (s: Json)
    ensures
        s@ == JsonValue::Object(
            seq![
                ("type"@, jstr("object"@)),
                ("properties"@, properties@),
                ("required"@, required@),
            ],
        ),
{
    obj3("type", json_string("object"), "properties", properties, "required", required)
}

fn function_def(name: &str, description: &str, parameters: Json) -> (f: FunctionDef)
    ensures
        f@.name == name@,
        f@.description == description@,
        f@.parameters == parameters@,
{
    FunctionDef {
        name: String::from_str(name),
        description: String::from_str(description),
        parameters,
    }
}

fn ha_functions() -> (functions: Vec<FunctionDef>)
    ensures
        defs_view(functions@).map_values(|f: crate::plugins::FunctionDefView| f.name)
            == ha_function_names(),
        defs_view(functions@).map_values(|f: crate::plugins::FunctionDefView| f.description)
            == ha_function_descriptions(),
        defs_view(functions@).map_values(|f: crate::plugins::FunctionDefView| f.parameters)
            == ha_parameter_schemas(),
{
    let turn_on = function_def(
        "turn_on_device",
        "Turn on any Home Assistant device (light, switch, scene, script, fan, etc.) by entity ID. The domain is inferred from the entity_id prefix.",
        schema(
            obj2(
                "entity_id",
                property(
                    "string",
                    "Home Assistant entity ID, e.g. light.kitchen, switch.sonoff_abc, scene.ligar_cave",
                ),
                "brightness_pct",
                property(
                    "number",
                    "Brightness percentage 0-100, only for light entities (optional)",
                ),
            ),
            names1("entity_id"),
        ),
    );
    let turn_off = function_def(
        "turn_off_device",
        "Turn off any Home Assistant device (light, switch, fan, etc.) by entity ID. The domain is inferred from the entity_id prefix.",
        schema(
            obj1(
                "entity_id",
                property(
                    "string",
                    "Home Assistant entity ID, e.g. switch.sonoff_abc, light.bedroom",
                ),
            ),
            names1("entity_id"),
        ),
    );
    let get_state = function_def(
        "get_entity_state",
        "Get the current state of any Home Assistant entity",
        schema(obj1("entity_id", property("string", "Entity ID to query")), names1("entity_id")),
    );
    let thermostat = function_def(
        "set_thermostat",
        "Set a climate/thermostat entity to a target temperature",
        schema(
            obj2(
                "entity_id",
                property("string", "Climate entity ID"),
                "temperature",
                property("number", "Target temperature in Celsius"),
            ),
            names2("entity_id", "temperature"),
        ),
    );
    let search = function_def(
        "search_entities",
        "Search Home Assistant entities by domain and/or name. Use this when you need to find an entity ID. Returns a compact list (max 20) with entity_id, state, and friendly_name.",
        schema(
            obj2(
                "domain",
                property(
                    "string",
                    "Filter by domain, e.g. 'light', 'switch', 'climate', 'scene', 'script'",
                ),
                "query",
                property("string", "Substring to match against entity_id or friendly_name"),
            ),
            no_names(),
        ),
    );
    let call = function_def(
        "call_service",
        "Call any Home Assistant service. Use for actions not covered by other tools (e.g. activating scenes, running scripts, or toggling devices).",
        schema(
            crate::json::obj4(
                "domain",
                property("string", "Service domain, e.g. 'scene', 'script', 'light', 'switch'"),
                "service",
                property("string", "Service name, e.g. 'turn_on', 'turn_off', 'toggle'"),
                "entity_id",
                property("string", "Target entity ID"),
                "data",
                property("object", "Additional service data (optional)"),
            ),
            names3("domain", "service", "entity_id"),
        ),
    );
    let functions = vec![turn_on, turn_off, get_state, thermostat, search, call];
    proof {
        let dv = defs_view(functions@);
        assert(dv.map_values(|f: crate::plugins::FunctionDefView| f.name) =~= ha_function_names());
        assert(dv.map_values(|f: crate::plugins::FunctionDefView| f.description)
            =~= ha_function_descriptions());
        assert(dv.map_values(|f: crate::plugins::FunctionDefView| f.parameters)
            =~= ha_parameter_schemas());
    }
    functions
}

/// The domain of an entity id.
fn entity_domain(entity_id: &str) -> (d: String)
    ensures
        d@ == domain_of(entity_id@),
{
    let chars = crate::text::chars_of(entity_id);
    let mut i: usize = 0;
    while i < chars.len() && chars[i] != '.'
        invariant
            i <= chars@.len(),
            chars@ == entity_id@,
            forall|j: int| 0 <= j < i ==> chars@[j] != '.',
        decreases chars@.len() - i,
    {
        i = i + 1;
    }
    proof {
        let id = entity_id@;
        if i < chars.len() {
            assert(0 <= i < id.len() && id[i as int] == '.');
            let f = choose|f: int|
                0 <= f < id.len() && id[f] == '.' && forall|j: int| 0 <= j < f ==> id[j] != '.';
            assert(0 <= i < id.len() && id[i as int] == '.' && forall|j: int|
                0 <= j < i ==> id[j] != '.');
            if f < i {
                assert(id[f] != '.');
            }
            if f > i {
                assert(id[i as int] != '.');
            }
        } else {
            assert(id.take(id.len() as int) =~= id);
        }
    }
    crate::text::substring(entity_id, 0, i)
}

fn ha_error(message: &str) -> (e: BotError)
    ensures
        e matches BotError::HomeAssistant(m) && m@ == message@,
{
    BotError::HomeAssistant(String::from_str(message))
}

fn str_field<'a>(params: &'a Json, key: &str) -> (r: Option<&'a str>)
    ensures
        crate::state::opt_str_view(r) == params@.field(key@).as_str(),
{
    match params.get(key) {
        Some(v) => v.as_str(),
        None => None,
    }
}

fn number_field(params: &Json, key: &str) -> (r: Option<Json>)
    ensures
        match r {
            Some(n) => is_number(params@.field(key@)) && n@ == params@.field(key@),
            None => !is_number(params@.field(key@)),
        },
{
    match params.get(key) {
        Some(v) => match v {
            Json::Number(_) => Some(v.clone()),
            _ => None,
        },
        None => None,
    }
}

fn entity_body_of(entity_id: &str) -> (b: Json)
    ensures
        b@ == entity_body(entity_id@),
{
    obj1("entity_id", json_string(entity_id))
}

fn eq_str(a: &str, b: &str) -> (r: bool)
    ensures
        r == (a@ == b@),
{
    String::from_str(a) == String::from_str(b)
}

#[verifier::rlimit(40)]
fn plan_call(function_name: &str, params: &Json) -> (r: Result<HaRequest, BotError>)
    ensures
        match r {
            Ok(req) => ha_plan(function_name@, params@) == Ok::<HaRequestView, Seq<char>>(req@),
            Err(e) => ha_plan(function_name@, params@) is Err && (e matches BotError::HomeAssistant(m)
                && Err::<HaRequestView, Seq<char>>(m@) == ha_plan(function_name@, params@)),
        },
{
    proof {
        reveal_strlit("turn_on_device");
        reveal_strlit("turn_off_device");
        reveal_strlit("get_entity_state");
        reveal_strlit("set_thermostat");
        reveal_strlit("search_entities");
        reveal_strlit("call_service");
    }
    let entity = str_field(params, "entity_id");
    if eq_str(function_name, "turn_on_device") {
        let id = match entity {
            Some(id) => id,
            None => {
                return Err(ha_error("Missing entity_id"));
            },
        };
        let domain = entity_domain(id);
        let number = if domain == String::from_str("light") {
            match number_field(params, "brightness_pct") {
                Some(n) => Some(NumberMember { key: String::from_str("brightness_pct"), number: n, as_integer: true }),
                None => None,
            }
        } else {
            None
        };
        Ok(
            HaRequest::CallService {
                domain,
                service: String::from_str("turn_on"),
                body: entity_body_of(id),
                number,
            },
        )
    } else if eq_str(function_name, "turn_off_device") {
        let id = match entity {
            Some(id) => id,
            None => {
                return Err(ha_error("Missing entity_id"));
            },
        };
        Ok(
            HaRequest::CallService {
                domain: entity_domain(id),
                service: String::from_str("turn_off"),
                body: entity_body_of(id),
                number: None,
            },
        )
    } else if eq_str(function_name, "get_entity_state") {
        match entity {
            Some(id) => Ok(HaRequest::GetState { entity_id: String::from_str(id) }),
            None => Err(ha_error("Missing entity_id")),
        }
    } else if eq_str(function_name, "set_thermostat") {
        let id = match entity {
            Some(id) => id,
            None => {
                return Err(ha_error("Missing entity_id"));
            },
        };
        match number_field(params, "temperature") {
            Some(t) => Ok(
                HaRequest::CallService {
                    domain: String::from_str("climate"),
                    service: String::from_str("set_temperature"),
                    body: entity_body_of(id),
                    number: Some(NumberMember { key: String::from_str("temperature"), number: t, as_integer: false }),
                },
            ),
            None => Err(ha_error("Missing temperature")),
        }
    } else if eq_str(function_name, "search_entities") {
        let domain = match str_field(params, "domain") {
            Some(d) => Some(String::from_str(d)),
            None => None,
        };
        let query = match str_field(params, "query") {
            Some(q) => Some(String::from_str(q)),
            None => None,
        };
        Ok(HaRequest::SearchEntities { domain, query })
    } else if eq_str(function_name, "call_service") {
        let domain = match str_field(params, "domain") {
            Some(d) => d,
            None => {
                return Err(ha_error("Missing domain"));
            },
        };
        let service = match str_field(params, "service") {
            Some(s) => s,
            None => {
                return Err(ha_error("Missing service"));
            },
        };
        let id = match entity {
            Some(id) => id,
            None => {
                return Err(ha_error("Missing entity_id"));
            },
        };
        let mut body = entity_body_of(id);
        match params.get("data") {
            Some(Json::Object(data)) => {
                merge_into(&mut body, data);
            },
            _ => {},
        }
        Ok(
            HaRequest::CallService {
                domain: String::from_str(domain),
                service: String::from_str(service),
                body,
                number: None,
            },
        )
    } else {
        let mut m = String::from_str("Unknown function: ");
        m.append(function_name);
        Err(BotError::HomeAssistant(m))
    }
}

/// Sets each member of `data` in `body`, in order.
fn merge_into(body: &mut Json, data: &Vec<(String, Json)>)
    requires
        old(body)@ is Object,
    ensures
        final(body)@ == JsonValue::Object(
            merge_members(old(body)@->Object_0, members_view(data@)),
        ),
{
    let ghost start = body@->Object_0;
    let ghost dv = members_view(data@);
    proof {
        lemma_members_view(data@);
        assert(dv.take(0) =~= Seq::<(Seq<char>, JsonValue)>::empty());
    }
    let mut i: usize = 0;
    while i < data.len()
        invariant
            i <= data@.len(),
            dv == members_view(data@),
            dv.len() == data@.len(),
            forall|k: int|
                0 <= k < data@.len() ==> #[trigger] dv[k] == (data@[k].0@, data@[k].1@),
            body@ == JsonValue::Object(merge_members(start, dv.take(i as int))),
        decreases data@.len() - i,
    {
        let key = data[i].0.as_str();
        let value = data[i].1.clone();
        body.set(key, value);
        proof {
            assert(dv.take(i + 1).drop_last() =~= dv.take(i as int));
            assert(dv.take(i + 1).last() == dv[i as int]);
        }
        i = i + 1;
    }
    assert(dv.take(i as int) =~= dv);
}

/// The compact state of an entity, from Home Assistant's full state.
pub fn compact_state(full: &Json) -> (summary: Json)
    ensures
        summary@ == state_summary(full@),
{
    let attributes = field_or_null(full, "attributes");
    let mut members: Vec<(String, Json)> = vec![
        crate::json::member("entity_id", field_or_null(full, "entity_id")),
        crate::json::member("state", field_or_null(full, "state")),
        crate::json::member("friendly_name", field_or_null(&attributes, "friendly_name")),
        crate::json::member("last_changed", field_or_null(full, "last_changed")),
    ];
    let ghost head = seq![
        ("entity_id"@, full@.field("entity_id"@)),
        ("state"@, full@.field("state"@)),
        ("friendly_name"@, attributes@.field("friendly_name"@)),
        ("last_changed"@, full@.field("last_changed"@)),
    ];
    proof {
        lemma_members_view(members@);
        assert(members_view(members@) =~= head);
    }
    let keys = vec![
        "brightness",
        "color_temp",
        "temperature",
        "current_temperature",
        "humidity",
        "unit_of_measurement",
        "device_class",
    ];
    let ghost key_views = keys@.map_values(|k: &str| k@);
    assert(key_views =~= state_keys());
    let mut i: usize = 0;
    while i < keys.len()
        invariant
            i <= keys@.len(),
            key_views == keys@.map_values(|k: &str| k@),
            members_view(members@) == head + present_attributes(
                attributes@,
                key_views.take(i as int),
            ),
        decreases keys@.len() - i,
    {
        let key = keys[i];
        let value = field_or_null(&attributes, key);
        proof {
            assert(key_views.take(i + 1).drop_last() =~= key_views.take(i as int));
            assert(key_views.take(i + 1).last() == key@);
        }
        if !value.is_null() {
            let ghost before = members@;
            let m = crate::json::member(key, value);
            members.push(m);
            proof {
                lemma_members_view_push(before, m);
            }
        }
        i = i + 1;
    }
    assert(key_views.take(i as int) =~= key_views);
    Json::Object(members)
}

/// The member `key` of a document, copied; `Null` where there is none.
fn field_or_null(v: &Json, key: &str) -> (f: Json)
    ensures
        f@ == v@.field(key@),
{
    match v.get(key) {
        Some(f) => f.clone(),
        None => Json::Null,
    }
}

fn str_or_empty_of(v: &Json) -> (s: &str)
    ensures
        s@ == str_or_empty(v@),
{
    proof {
        reveal_strlit("");
    }
    match v.as_str() {
        Some(s) => s,
        None => "",
    }
}

/// Whether an entity matches a search.
fn matches_search(entity: &Json, domain: Option<&str>, query: Option<&str>) -> (r: bool)
    ensures
        r == entity_matches(
            entity@,
            crate::state::opt_str_view(domain),
            crate::state::opt_str_view(query),
        ),
{
    let id_json = field_or_null(entity, "entity_id");
    let id = str_or_empty_of(&id_json);
    let attributes = field_or_null(entity, "attributes");
    let friendly_json = field_or_null(&attributes, "friendly_name");
    let friendly = to_lowercase(str_or_empty_of(&friendly_json));
    proof {
        reveal_strlit("");
        reveal_strlit(".");
    }
    let domain_ok = match domain {
        Some(d) => {
            let mut prefix = String::from_str(d);
            prefix.append(".");
            starts_with(id, prefix.as_str())
        },
        None => true,
    };
    if !domain_ok {
        return false;
    }
    match query {
        Some(q) => {
            let q_lower = to_lowercase(q);
            let id_lower = to_lowercase(id);
            contains(id_lower.as_str(), q_lower.as_str()) || contains(friendly.as_str(), q_lower.as_str())
        },
        None => true,
    }
}

/// The first `MAX_SEARCH_RESULTS` entities of `states` that match the
/// search, each summarised.
pub fn search_entities(states: &Json, domain: Option<&str>, query: Option<&str>) -> (result: Json)
    ensures
        result@ == search_result(
            states@,
            crate::state::opt_str_view(domain),
            crate::state::opt_str_view(query),
        ),
{
    let ghost d = crate::state::opt_str_view(domain);
    let ghost q = crate::state::opt_str_view(query);
    let ghost pred = |e: JsonValue| entity_matches(e, d, q);
    let empty: Vec<Json> = Vec::new();
    let all: &Vec<Json> = match states.as_array() {
        Some(items) => items,
        None => &empty,
    };
    let ghost av = items_view(all@);
    proof {
        lemma_items_view(all@);
        assert(items_view(empty@) =~= Seq::<JsonValue>::empty());
    }
    let mut out: Vec<Json> = Vec::new();
    let mut i: usize = 0;
    while i < all.len()
        invariant
            i <= all@.len(),
            av == items_view(all@),
            av.len() == all@.len(),
            forall|k: int| 0 <= k < all@.len() ==> #[trigger] av[k] == all@[k]@,
            pred == (|e: JsonValue| entity_matches(e, d, q)),
            d == crate::state::opt_str_view(domain),
            q == crate::state::opt_str_view(query),
            items_view(out@) == at_most(av.take(i as int).filter(pred), MAX_SEARCH_RESULTS as nat).map_values(
                |e: JsonValue| entity_summary(e),
            ),
            out@.len() <= MAX_SEARCH_RESULTS,
        decreases all@.len() - i,
    {
        let e = &all[i];
        let m = matches_search(e, domain, query);
        proof {
            reveal_with_fuel(Seq::<_>::filter, 1);
            assert(av.take(i + 1).drop_last() =~= av.take(i as int));
            assert(av.take(i + 1).last() == e@);
            lemma_items_view(out@);
        }
        if m && out.len() < MAX_SEARCH_RESULTS {
            let s = summary_of(e);
            let ghost before = out@;
            out.push(s);
            proof {
                reveal_with_fuel(Seq::<_>::filter, 1);
                lemma_items_view_push(before, s);
                let f0 = av.take(i as int).filter(pred);
                let f1 = av.take(i + 1).filter(pred);
                assert(f1 == f0.push(e@));
                assert(f0.len() == before.len());
                assert(at_most(f1, MAX_SEARCH_RESULTS as nat).map_values(
                    |e: JsonValue| entity_summary(e),
                ) =~= at_most(f0, MAX_SEARCH_RESULTS as nat).map_values(
                    |e: JsonValue| entity_summary(e),
                ).push(entity_summary(e@)));
            }
        } else {
            proof {
                reveal_with_fuel(Seq::<_>::filter, 1);
                let f0 = av.take(i as int).filter(pred);
                let f1 = av.take(i + 1).filter(pred);
                if m {
                    assert(f1 == f0.push(e@));
                    assert(at_most(f1, MAX_SEARCH_RESULTS as nat) =~= at_most(
                        f0,
                        MAX_SEARCH_RESULTS as nat,
                    ));
                } else {
                    assert(f1 == f0);
                }
            }
        }
        i = i + 1;
    }
    assert(av.take(i as int) =~= av);
    array_of(out)
}

fn summary_of(entity: &Json) -> (s: Json)
    ensures
        s@ == entity_summary(entity@),
{
    let attributes = field_or_null(entity, "attributes");
    obj3(
        "entity_id",
        field_or_null(entity, "entity_id"),
        "state",
        field_or_null(entity, "state"),
        "friendly_name",
        field_or_null(&attributes, "friendly_name"),
    )
}

} // verus!
