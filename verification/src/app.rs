//! What the gateway answers about itself: liveness, readiness and the list of
//! models; and the identity it gives each request.

use crate::chat;
use crate::error;
use crate::error::ApiError;
use crate::json;
use crate::json::JsonView;
use crate::lifecycle::Ledger;
use crate::lifecycle::Lifecycle;
use crate::openai::ModelObject;
use crate::registry::ModelEntry;
use crate::registry::Registry;
use crate::status::WorkerStatus;
use serde_json::Value;
use vstd::prelude::*;
use vstd::string::*;

verus! {

/// The id of a request: the worker's request id, echoed to the client.
#[derive(Debug)]
pub struct RequestId(pub String);

/// Groups of 8, 4, 4, 4 and 12 lower-case hexadecimal digits, with dashes
/// between them.
pub open spec fn is_uuid(id: Seq<char>) -> bool {
    &&& id.len() == 36
    &&& forall|i: int|
        0 <= i < 36 ==> if i == 8 || i == 13 || i == 18 || i == 23 {
            #[trigger] id[i] == '-'
        } else {
            chat::hex_digit(id[i])
        }
}

/// `uuid::Uuid::now_v7`, in its hyphenated form. It depends on the time and on
/// chance; every outcome has the form of a UUID.
#[verifier::external_body]
fn fresh_request_id() -> (r: String)
    ensures
        is_uuid(r@),
{
    uuid::Uuid::now_v7().to_string()
}

impl RequestId {
    /// A fresh id.
    pub fn new() -> (r: Self)
        ensures
            is_uuid(r.0@),
    {
        RequestId(fresh_request_id())
    }
}

/// The path a request is counted under: the matched route pattern, never the
/// raw URI.
pub fn route_label(matched: Option<&str>) -> (r: String)
    ensures
        r@ == (match matched {
            Some(path) => path@,
            None => "(unmatched)"@,
        }),
{
    match matched {
        Some(path) => path.to_owned(),
        None => "(unmatched)".to_owned(),
    }
}

/// The body of the liveness answer.
pub fn healthz() -> (r: Value)
    ensures
        json::contents(r) == JsonView::Object(map!["status"@ => JsonView::Str("ok"@)]),
{
    json::with(json::object(), "status", json::string("ok"))
}

/// The status a model shows; one without a slot is about to start.
pub open spec fn shown(l: Ledger, id: Seq<char>) -> WorkerStatus {
    match chat::status_of(l, id) {
        Some(status) => status,
        None => WorkerStatus::Starting,
    }
}

/// The status a model shows.
pub fn shown_status(ledger: &Lifecycle, id: &str) -> (r: WorkerStatus)
    requires
        ledger.wf(),
    ensures
        r == shown(ledger@, id@),
{
    match ledger.status(id) {
        Some(status) => status,
        None => WorkerStatus::Starting,
    }
}

/// The worker has settled: it serves, or it is deliberately not loaded.
pub open spec fn settled(status: WorkerStatus) -> bool {
    status is Ready || status is Unloaded
}

/// Every model has settled.
pub open spec fn all_settled(entries: Seq<ModelEntry>, l: Ledger) -> bool {
    forall|i: int| 0 <= i < entries.len() ==> settled(shown(l, (#[trigger] entries[i]).id@))
}

/// The models' states, by id.
pub open spec fn state_map(entries: Seq<ModelEntry>, l: Ledger) -> Map<Seq<char>, JsonView>
    decreases entries.len(),
{
    if entries.len() == 0 {
        Map::empty()
    } else {
        state_map(entries.drop_last(), l).insert(
            entries.last().id@,
            JsonView::Str(shown(l, entries.last().id@).spec_text()),
        )
    }
}

/// The readiness answer: success once every configured worker has settled,
/// otherwise unavailable; in both cases with each model's state.
pub fn readyz(registry: &Registry, ledger: &Lifecycle) -> (r: (u16, Value))
    requires
        ledger.wf(),
    ensures
        ({
            let ready = all_settled(registry.entries@, ledger@);
            &&& r.0 == (if ready {
                200
            } else {
                503int
            })
            &&& json::contents(r.1) == JsonView::Object(
                map![
                    "status"@ => JsonView::Str(if ready { "ready"@ } else { "unavailable"@ }),
                    "models"@ => JsonView::Object(state_map(registry.entries@, ledger@))
                ],
            )
        }),
{
    let ghost all = registry.entries@;
    let mut models: Value = json::object();
    let mut ready: bool = true;
    let mut i: usize = 0;
    assert(all.take(0) =~= Seq::empty());
    while i < registry.entries.len()
        invariant
            i <= all.len(),
            all == registry.entries@,
            ledger.wf(),
            json::contents(models) == JsonView::Object(state_map(all.take(i as int), ledger@)),
            ready == all_settled(all.take(i as int), ledger@),
        decreases all.len() - i,
    {
        let ghost part = all.take(i + 1);
        assert(part.drop_last() =~= all.take(i as int));
        assert(part.last() == all[i as int]);
        let id: &str = registry.entries[i].id.as_str();
        let status: WorkerStatus = shown_status(ledger, id);
        let ok: bool = match status {
            WorkerStatus::Ready | WorkerStatus::Unloaded { .. } => true,
            _ => false,
        };
        proof {
            let before = all.take(i as int);
            if all_settled(part, ledger@) {
                assert(part[i as int] == all[i as int]);
                assert forall|j: int| 0 <= j < before.len() implies settled(
                    shown(ledger@, (#[trigger] before[j]).id@),
                ) by {
                    assert(part[j] == before[j]);
                }
            }
            if all_settled(before, ledger@) && ok {
                assert forall|j: int| 0 <= j < part.len() implies settled(
                    shown(ledger@, (#[trigger] part[j]).id@),
                ) by {
                    if j < i {
                        assert(part[j] == before[j]);
                    }
                }
            }
        }
        ready = ready && ok;
        models = json::with(models, id, json::string(status.text().as_str()));
        i = i + 1;
    }
    assert(all.take(i as int) =~= all);
    let word: &'static str = if ready {
        "ready"
    } else {
        "unavailable"
    };
    let body: Value = json::with(json::object(), "status", json::string(word));
    let body: Value = json::with(body, "models", models);
    let code: u16 = if ready {
        200
    } else {
        503
    };
    (code, body)
}

/// A model in the list that clients see.
pub open spec fn listed(entry: ModelEntry) -> JsonView {
    JsonView::Object(
        map![
            "id"@ => JsonView::Str(entry.id@),
            "object"@ => JsonView::Str("model"@),
            "created"@ => crate::openai::num(entry.created_unix as int),
            "owned_by"@ => JsonView::Str("kiln"@)
        ],
    )
}

/// The list of models that clients see.
pub fn list_models(registry: &Registry) -> (r: Value)
    ensures
        json::contents(r) == JsonView::Object(
            map![
                "object"@ => JsonView::Str("list"@),
                "data"@ => JsonView::Array(
                    Seq::new(registry.entries@.len(), |i: int| listed(registry.entries@[i])),
                )
            ],
        ),
{
    let mut data: Vec<Value> = Vec::new();
    let mut i: usize = 0;
    while i < registry.entries.len()
        invariant
            i <= registry.entries@.len(),
            data@.len() == i,
            forall|j: int|
                0 <= j < i ==> json::contents(#[trigger] data@[j]) == listed(
                    registry.entries@[j],
                ),
        decreases registry.entries@.len() - i,
    {
        let object: ModelObject = ModelObject {
            id: registry.entries[i].id.clone(),
            object: "model",
            created: registry.entries[i].created_unix,
            owned_by: "kiln",
        };
        data.push(object.to_json());
        i = i + 1;
    }
    assert(json::list_contents(data@) =~= Seq::new(
        registry.entries@.len(),
        |i: int| listed(registry.entries@[i]),
    ));
    let o: Value = json::with(json::object(), "object", json::string("list"));
    json::with(o, "data", json::array(data))
}

/// The error of an exposition that could not be made.
pub fn metrics_error(why: &str) -> (r: ApiError)
    ensures
        r@ == error::internal("metrics encoding failed: "@ + why@),
{
    let mut m: String = "metrics encoding failed: ".to_owned();
    m.append(why);
    ApiError::internal(m)
}

/// The error of a request body that could not be read.
pub fn body_error(why: &str) -> (r: ApiError)
    ensures
        r@ == error::invalid_request("failed to read request body: "@ + why@),
{
    let mut m: String = "failed to read request body: ".to_owned();
    m.append(why);
    ApiError::invalid_request(m)
}

/// The error of a request body that is no such request.
pub fn json_error(why: &str) -> (r: ApiError)
    ensures
        r@ == error::invalid_request("invalid request JSON: "@ + why@),
{
    let mut m: String = "invalid request JSON: ".to_owned();
    m.append(why);
    ApiError::invalid_request(m)
}

/// The keys are told apart.
proof fn lemma_listed_keys()
    ensures
        "id"@ != "object"@,
        "id"@ != "created"@,
        "id"@ != "owned_by"@,
        "object"@ != "created"@,
        "object"@ != "owned_by"@,
        "created"@ != "owned_by"@,
{
    reveal_strlit("id");
    reveal_strlit("object");
    reveal_strlit("created");
    reveal_strlit("owned_by");
    assert("id"@.len() != "object"@.len());
    assert("id"@.len() != "created"@.len());
    assert("id"@.len() != "owned_by"@.len());
    assert("object"@.len() != "created"@.len());
    assert("object"@.len() != "owned_by"@.len());
    assert("created"@.len() != "owned_by"@.len());
}


/// A request's id has the form of a UUID: 36 characters, dashes behind the first 8, 12, 16 and
/// 20 digits, and lower-case hexadecimal digits everywhere else.
pub proof fn law_request_ids_are_uuids(id: Seq<char>, i: int)
    requires
        is_uuid(id),
        0 <= i < 36,
    ensures
        id.len() == 36,
        i == 8 || i == 13 || i == 18 || i == 23 <==> id[i] == '-',
        id[i] != '-' ==> '0' <= id[i] <= '9' || 'a' <= id[i] <= 'f',
{
}

/// A model shows its slot's state, and one without a slot is about to start.
pub proof fn law_models_show_their_state(l: Ledger, id: Seq<char>)
    ensures
        l.has(id) ==> shown(l, id) == l.slot(id).status,
        !l.has(id) ==> shown(l, id) is Starting,
{
}

/// The gateway is ready once every model serves or is deliberately not loaded: one model in
/// any other state is enough to hold it back.
pub proof fn law_one_unsettled_model_holds_readiness_back(
    entries: Seq<ModelEntry>,
    l: Ledger,
    i: int,
    status: WorkerStatus,
)
    ensures
        settled(status) <==> status is Ready || status is Unloaded,
        0 <= i < entries.len() && !settled(shown(l, entries[i].id@)) ==> !all_settled(entries, l),
        all_settled(Seq::empty(), l),
        (forall|k: int|
            0 <= k < entries.len() ==> (shown(l, (#[trigger] entries[k]).id@) is Ready || shown(
                l,
                entries[k].id@,
            ) is Unloaded)) ==> all_settled(entries, l),
{
}

/// Every model's state is told under its id, and nothing else is.
pub proof fn law_every_models_state_is_told(
    entries: Seq<ModelEntry>,
    l: Ledger,
    i: int,
    key: Seq<char>,
)
    ensures
        0 <= i < entries.len() ==> state_map(entries, l).contains_key(entries[i].id@) && state_map(
            entries,
            l,
        )[entries[i].id@] == JsonView::Str(shown(l, entries[i].id@).spec_text()),
        state_map(entries, l).contains_key(key) ==> exists|k: int|
            0 <= k < entries.len() && (#[trigger] entries[k]).id@ == key,
    decreases entries.len(),
{
    if entries.len() > 0 {
        law_every_models_state_is_told(entries.drop_last(), l, i, key);
        if 0 <= i < entries.len() - 1 {
            assert(entries.drop_last()[i] == entries[i]);
        }
        if state_map(entries, l).contains_key(key) {
            if key == entries.last().id@ {
                assert(entries[entries.len() - 1].id@ == key);
            } else {
                let k = choose|k: int|
                    0 <= k < entries.drop_last().len() && (
                    #[trigger] entries.drop_last()[k]).id@ == key;
                assert(entries[k].id@ == key);
            }
        }
    }
}

/// A model is listed by its id and the time it was registered, as a model of this gateway.
pub proof fn law_models_are_listed_whole(entry: ModelEntry)
    ensures
        json::str_field(listed(entry), "id"@) == Some(entry.id@),
        json::str_field(listed(entry), "object"@) == Some("model"@),
        json::u64_field(listed(entry), "created"@) == Some(entry.created_unix),
        json::str_field(listed(entry), "owned_by"@) == Some("kiln"@),
{
    lemma_listed_keys();
}

} // verus!
