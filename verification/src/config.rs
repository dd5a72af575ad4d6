//! The gateway's configuration file: the local model is entered as an Ollama
//! provider and made the agents' primary model, and everything else that the
//! file holds stays as it was.
//!
//! The configuration is a `serde_json` object. Its contents are modelled by
//! [`Json`], and what `serde_json` does to them is stated by the private
//! functions of this module that call it.
use vstd::prelude::*;
use vstd::string::*;

verus! {

/// The entries of a JSON object: no key occurs twice, and their order carries
/// no meaning.
pub type Entries = Map<Seq<char>, Json>;

/// A JSON value.
pub enum Json {
    Null,
    Bool(bool),
    /// A number that is held as a 64-bit integer.
    Integer(int),
    /// Any other number, by the text that it is written as.
    Float(Seq<char>),
    Text(Seq<char>),
    Array(Seq<Json>),
    Object(Entries),
}

/// A JSON value as `serde_json` holds it.
#[verifier::external_type_specification]
#[verifier::external_body]
pub struct ExValue(serde_json::Value);

/// A JSON object as `serde_json` holds it.
#[verifier::external_type_specification]
#[verifier::external_body]
#[verifier::reject_recursive_types(K)]
#[verifier::reject_recursive_types(V)]
pub struct ExMap<K, V>(serde_json::Map<K, V>);

/// The reason why `serde_json` refused a text or a value.
#[verifier::external_type_specification]
#[verifier::external_body]
pub struct ExError(serde_json::Error);

/// What a `serde_json::Value` holds.
pub uninterp spec fn json_of(value: serde_json::Value) -> Json;

/// What a `serde_json::Map` holds.
pub uninterp spec fn entries_of(
    object: serde_json::Map<String, serde_json::Value>,
) -> Entries;

/// The object that `serde_json::from_str` reads from a text, if it reads one.
pub uninterp spec fn parsed_object(text: Seq<char>) -> Option<Entries>;

/// The text that `serde_json::to_string_pretty` writes for an object.
pub uninterp spec fn pretty_text(entries: Entries) -> Seq<char>;

/// Whether `serde_json` keeps a key for purposes of its own: an object with such
/// a key may be read as something other than an object.
pub open spec fn reserved_key(key: Seq<char>) -> bool {
    ||| key == "$serde_json::private::RawValue"@
    ||| key == "$serde_json::private::Number"@
}

/// Whether a value reads back as it was written: it holds no
/// floating-point number, which may be read with a rounding error, and no
/// reserved key, and its arrays and objects are nested at most `depth` deep.
pub open spec fn reads_back(value: Json, depth: nat) -> bool
    decreases depth,
{
    match value {
        Json::Float(_) => false,
        Json::Array(items) => depth > 0 && (forall|i: int|
            0 <= i < items.len() ==> reads_back(#[trigger] items[i], (depth - 1) as nat)),
        Json::Object(entries) => depth > 0 && (forall|key: Seq<char>| #[trigger]
            entries.contains_key(key) ==> !reserved_key(key) && reads_back(
                entries[key],
                (depth - 1) as nat,
            )),
        _ => true,
    }
}

/// How deep `serde_json` reads: a text nested deeper is refused.
pub open spec fn depth_limit() -> nat {
    127
}

/// `serde_json::Map::new`: an object without entries.
#[verifier::external_body]
fn empty_object() -> (object: serde_json::Map<String, serde_json::Value>)
    ensures
        entries_of(object) == Entries::empty(),
{
    serde_json::Map::new()
}

/// `serde_json::Map::contains_key`: whether the object has an entry under the key.
#[verifier::external_body]
fn contains_key(
    object: &serde_json::Map<String, serde_json::Value>,
    key: &str,
) -> (present: bool)
    ensures
        present == entries_of(*object).contains_key(key@),
{
    object.contains_key(key)
}

/// `serde_json::Map::insert`: the entry under the key is set, whether or not
/// there was one, and the value that stood there before is handed back.
#[verifier::external_body]
fn insert(
    object: &mut serde_json::Map<String, serde_json::Value>,
    key: String,
    value: serde_json::Value,
) -> (previous: Option<serde_json::Value>)
    ensures
        entries_of(*final(object)) == entries_of(*old(object)).insert(key@, json_of(value)),
        previous is Some <==> entries_of(*old(object)).contains_key(key@),
        previous matches Some(v) ==> json_of(v) == entries_of(*old(object))[key@],
{
    object.insert(key, value)
}

/// `serde_json::Map::get`: the value under the key, if there is one.
#[verifier::external_body]
fn get<'a>(
    object: &'a serde_json::Map<String, serde_json::Value>,
    key: &str,
) -> (value: Option<&'a serde_json::Value>)
    ensures
        value is Some <==> entries_of(*object).contains_key(key@),
        value matches Some(v) ==> json_of(*v) == entries_of(*object)[key@],
{
    object.get(key)
}

/// `IndexMut::index_mut` of `serde_json::Map`: the value under a key that the
/// object has, open to change. It panics for any other key. Whatever the value
/// is changed to becomes the object's entry; the other entries stay.
#[verifier::external_body]
fn index_mut<'a>(
    object: &'a mut serde_json::Map<String, serde_json::Value>,
    key: &str,
) -> (value: &'a mut serde_json::Value)
    requires
        entries_of(*old(object)).contains_key(key@),
    ensures
        json_of(*value) == entries_of(*old(object))[key@],
        entries_of(*final(object)) == entries_of(*old(object)).insert(key@, json_of(*final(value))),
{
    &mut object[key]
}

/// `serde_json::Value::as_object`: the object that the value is, or `None`
/// where it is something else.
#[verifier::external_body]
fn as_object<'a>(value: &'a serde_json::Value) -> (object: Option<
    &'a serde_json::Map<String, serde_json::Value>,
>)
    ensures
        object is Some <==> json_of(*value) is Object,
        object matches Some(o) ==> json_of(*value) == Json::Object(entries_of(*o)),
{
    value.as_object()
}

/// `serde_json::Value::as_object_mut`: the object that the value is, open to
/// change, or `None` where it is something else. Whatever the object is changed
/// to becomes the value.
#[verifier::external_body]
fn as_object_mut<'a>(value: &'a mut serde_json::Value) -> (object: Option<
    &'a mut serde_json::Map<String, serde_json::Value>,
>)
    ensures
        object is Some <==> json_of(*old(value)) is Object,
        object matches Some(o) ==> json_of(*old(value)) == Json::Object(entries_of(*o)),
        object matches Some(o) ==> json_of(*final(value)) == Json::Object(entries_of(*final(o))),
        object is None ==> *final(value) == *old(value),
{
    value.as_object_mut()
}

/// `serde_json::Value`'s `From<Map<String, Value>>`: the object as a value.
#[verifier::external_body]
fn object_value(object: serde_json::Map<String, serde_json::Value>) -> (value: serde_json::Value)
    ensures
        json_of(value) == Json::Object(entries_of(object)),
{
    serde_json::Value::from(object)
}

/// `serde_json::Value`'s `From<String>`: the text as a value.
#[verifier::external_body]
fn text_value(text: String) -> (value: serde_json::Value)
    ensures
        json_of(value) == Json::Text(text@),
{
    serde_json::Value::from(text)
}

/// `serde_json::Value`'s `From<u64>`: the number as a value.
#[verifier::external_body]
fn number_value(number: u64) -> (value: serde_json::Value)
    ensures
        json_of(value) == Json::Integer(number as int),
{
    serde_json::Value::from(number)
}

/// `serde_json::Value`'s `From<Vec<Value>>`: the items, in order, as one value.
#[verifier::external_body]
fn array_value(items: Vec<serde_json::Value>) -> (value: serde_json::Value)
    ensures
        json_of(value) == Json::Array(items@.map_values(|v: serde_json::Value| json_of(v))),
{
    serde_json::Value::from(items)
}

/// `serde_json::from_str` for an object. What it reads, and whether it reads
/// anything, depends on the text alone.
#[verifier::external_body]
fn parse_object(text: &str) -> (object: Result<
    serde_json::Map<String, serde_json::Value>,
    serde_json::Error,
>)
    ensures
        object is Ok <==> parsed_object(text@) is Some,
        object matches Ok(o) ==> Some(entries_of(o)) == parsed_object(text@),
{
    serde_json::from_str(text)
}

/// `serde_json::to_string_pretty` for an object. It fails only for a map whose
/// keys are not strings and for a `Serialize` impl that fails, and an object of
/// `serde_json`'s own values has neither. The text depends on the entries alone:
/// they are written in the order of their keys. `serde_json::from_str` reads the
/// text back as the same object, but for floating-point numbers, reserved keys
/// and nesting beyond the limit, of which nothing is said.
#[verifier::external_body]
fn pretty_print(object: &serde_json::Map<String, serde_json::Value>) -> (text: Result<
    String,
    serde_json::Error,
>)
    ensures
        text is Ok,
        text matches Ok(t) ==> t@ == pretty_text(entries_of(*object)),
        text matches Ok(t) ==> (reads_back(Json::Object(entries_of(*object)), depth_limit())
            ==> parsed_object(t@) == Some(entries_of(*object))),
{
    serde_json::to_string_pretty(object)
}

/// The object under a key, taken as empty where there is none.
pub open spec fn section_at(entries: Entries, key: Seq<char>) -> Entries {
    if entries.contains_key(key) && entries[key] is Object {
        entries[key]->Object_0
    } else {
        Entries::empty()
    }
}

/// Whether the key can hold a section: it is free, or an object stands there.
pub open spec fn section_possible(entries: Entries, key: Seq<char>) -> bool {
    entries.contains_key(key) ==> entries[key] is Object
}

/// Whether each section that the model is entered in is an object or missing.
pub open spec fn mergeable(config: Entries) -> bool {
    &&& section_possible(config, "models"@)
    &&& section_possible(section_at(config, "models"@), "providers"@)
    &&& section_possible(config, "agents"@)
    &&& section_possible(section_at(config, "agents"@), "defaults"@)
    &&& section_possible(section_at(section_at(config, "agents"@), "defaults"@), "model"@)
}

/// Whether two objects agree on a key: neither has it, or both have it with
/// the same value.
pub open spec fn same_entry(a: Entries, b: Entries, key: Seq<char>) -> bool {
    &&& a.contains_key(key) <==> b.contains_key(key)
    &&& a.contains_key(key) ==> a[key] == b[key]
}

/// What a model costs: nothing.
pub open spec fn free_of_charge() -> Json {
    Json::Object(
        Entries::empty()
            .insert("input"@, Json::Integer(0))
            .insert("output"@, Json::Integer(0))
            .insert("cacheRead"@, Json::Integer(0))
            .insert("cacheWrite"@, Json::Integer(0)),
    )
}

/// How a provider lists the model.
pub open spec fn model_entry(model: Seq<char>) -> Json {
    Json::Object(
        Entries::empty()
            .insert("id"@, Json::Text(model))
            .insert("name"@, Json::Text(model))
            .insert("input"@, Json::Array(seq![Json::Text("text"@)]))
            .insert("cost"@, free_of_charge()),
    )
}

/// The provider that serves the model from the local Ollama server.
pub open spec fn ollama_provider(model: Seq<char>) -> Json {
    Json::Object(
        Entries::empty()
            .insert("api"@, Json::Text("ollama"@))
            .insert("apiKey"@, Json::Text("ollama-local"@))
            .insert("baseUrl"@, Json::Text("http://127.0.0.1:11434"@))
            .insert("models"@, Json::Array(seq![model_entry(model)])),
    )
}

/// The name by which the agents refer to the model.
pub open spec fn primary_model(model: Seq<char>) -> Seq<char> {
    "ollama/"@ + model
}

/// The section `models`, with the model entered as a provider.
pub open spec fn models_with(models: Entries, model: Seq<char>) -> Entries {
    models.insert(
        "providers"@,
        Json::Object(section_at(models, "providers"@).insert("ollama"@, ollama_provider(model))),
    )
}

/// The section `agents`, with the model as the primary one by default.
pub open spec fn agents_with(agents: Entries, model: Seq<char>) -> Entries {
    let defaults = section_at(agents, "defaults"@);
    let chosen = section_at(defaults, "model"@).insert(
        "primary"@,
        Json::Text(primary_model(model)),
    );
    agents.insert("defaults"@, Json::Object(defaults.insert("model"@, Json::Object(chosen))))
}

/// The configuration with the model entered.
pub open spec fn merged(config: Entries, model: Seq<char>) -> Entries {
    config.insert(
        "models"@,
        Json::Object(models_with(section_at(config, "models"@), model)),
    ).insert("agents"@, Json::Object(agents_with(section_at(config, "agents"@), model)))
}

/// The text that an optional text holds.
pub open spec fn optional_text(text: Option<&str>) -> Option<Seq<char>> {
    match text {
        Some(t) => Some(t@),
        None => None,
    }
}

/// The configuration that a file holds: what can be read from it, and nothing
/// where the file is missing or does not hold an object.
pub open spec fn loaded(file: Option<Seq<char>>) -> Entries {
    match file {
        Some(text) => match parsed_object(text) {
            Some(entries) => entries,
            None => Entries::empty(),
        },
        None => Entries::empty(),
    }
}

/// The section under a key, made first where it is missing.
fn section<'a>(
    object: &'a mut serde_json::Map<String, serde_json::Value>,
    key: &str,
) -> (inner: &'a mut serde_json::Map<String, serde_json::Value>)
    requires
        section_possible(entries_of(*old(object)), key@),
    ensures
        entries_of(*inner) == section_at(entries_of(*old(object)), key@),
        entries_of(*final(object)) == entries_of(*old(object)).insert(
            key@,
            Json::Object(entries_of(*final(inner))),
        ),
{
    if !contains_key(object, key) {
        insert(object, key.to_owned(), object_value(empty_object()));
    }
    as_object_mut(index_mut(object, key)).unwrap()
}

/// What a model costs: nothing.
fn cost_value() -> (value: serde_json::Value)
    ensures
        json_of(value) == free_of_charge(),
{
    let mut cost = empty_object();
    insert(&mut cost, "input".to_owned(), number_value(0));
    insert(&mut cost, "output".to_owned(), number_value(0));
    insert(&mut cost, "cacheRead".to_owned(), number_value(0));
    insert(&mut cost, "cacheWrite".to_owned(), number_value(0));
    object_value(cost)
}

/// How a provider lists the model.
fn model_value(model: &str) -> (value: serde_json::Value)
    ensures
        json_of(value) == model_entry(model@),
{
    let mut inputs: Vec<serde_json::Value> = Vec::new();
    inputs.push(text_value("text".to_owned()));
    assert(inputs@.map_values(|v: serde_json::Value| json_of(v)) =~= seq![Json::Text("text"@)]);
    let mut entry = empty_object();
    insert(&mut entry, "id".to_owned(), text_value(model.to_owned()));
    insert(&mut entry, "name".to_owned(), text_value(model.to_owned()));
    insert(&mut entry, "input".to_owned(), array_value(inputs));
    insert(&mut entry, "cost".to_owned(), cost_value());
    object_value(entry)
}

/// The provider that serves the model from the local Ollama server.
fn provider_value(model: &str) -> (value: serde_json::Value)
    ensures
        json_of(value) == ollama_provider(model@),
{
    let mut models: Vec<serde_json::Value> = Vec::new();
    models.push(model_value(model));
    assert(models@.map_values(|v: serde_json::Value| json_of(v)) =~= seq![model_entry(model@)]);
    let mut provider = empty_object();
    insert(&mut provider, "api".to_owned(), text_value("ollama".to_owned()));
    insert(&mut provider, "apiKey".to_owned(), text_value("ollama-local".to_owned()));
    insert(&mut provider, "baseUrl".to_owned(), text_value("http://127.0.0.1:11434".to_owned()));
    insert(&mut provider, "models".to_owned(), array_value(models));
    object_value(provider)
}

/// The two top-level sections are different entries.
proof fn lemma_sections_differ()
    ensures
        "models"@ != "agents"@,
{
    reveal_strlit("models");
    reveal_strlit("agents");
    assert("models"@[0] != "agents"@[0]);
}

/// Enters a model in a configuration.
pub fn merge_openclaw_config(config: &mut serde_json::Map<String, serde_json::Value>, model: &str)
    requires
        mergeable(entries_of(*old(config))),
    ensures
        entries_of(*final(config)) == merged(entries_of(*old(config)), model@),
{
    proof {
        lemma_sections_differ();
    }
    let models = section(config, "models");
    let providers = section(models, "providers");
    insert(providers, "ollama".to_owned(), provider_value(model));
    let agents = section(config, "agents");
    let defaults = section(agents, "defaults");
    let chosen = section(defaults, "model");
    insert(chosen, "primary".to_owned(), text_value("ollama/".to_owned().concat(model)));
}

/// Whether the key of an object can hold a section, and the object that stands
/// there now.
fn existing_section<'a>(
    object: &'a serde_json::Map<String, serde_json::Value>,
    key: &str,
) -> (found: Result<Option<&'a serde_json::Map<String, serde_json::Value>>, ()>)
    ensures
        found is Ok <==> section_possible(entries_of(*object), key@),
        found matches Ok(Some(s)) ==> entries_of(*s) == section_at(entries_of(*object), key@),
        found matches Ok(None) ==> section_at(entries_of(*object), key@) == Entries::empty(),
{
    match get(object, key) {
        None => Ok(None),
        Some(value) => match as_object(value) {
            Some(inner) => Ok(Some(inner)),
            None => Err(()),
        },
    }
}

/// Whether a model can be entered in a configuration.
pub fn is_mergeable(config: &serde_json::Map<String, serde_json::Value>) -> (possible: bool)
    ensures
        possible == mergeable(entries_of(*config)),
{
    match existing_section(config, "models") {
        Err(()) => return false,
        Ok(None) => {},
        Ok(Some(models)) => match existing_section(models, "providers") {
            Err(()) => return false,
            Ok(_) => {},
        },
    }
    match existing_section(config, "agents") {
        Err(()) => false,
        Ok(None) => true,
        Ok(Some(agents)) => match existing_section(agents, "defaults") {
            Err(()) => false,
            Ok(None) => true,
            Ok(Some(defaults)) => match existing_section(defaults, "model") {
                Err(()) => false,
                Ok(_) => true,
            },
        },
    }
}

/// The configuration that a file holds.
pub fn load_openclaw_config(file: Option<&str>) -> (config: serde_json::Map<String, serde_json::Value>)
    ensures
        entries_of(config) == loaded(optional_text(file)),
{
    match file {
        Some(text) => match parse_object(text) {
            Ok(config) => config,
            Err(_) => empty_object(),
        },
        None => empty_object(),
    }
}

/// The text of the configuration file once the model is entered in it. `file`
/// is what the file holds now, if there is one. The result is `None` where
/// something other than an object stands in the place of one of the sections
/// that the model is entered in.
pub fn write_openclaw_config(file: Option<&str>, model: &str) -> (text: Option<String>)
    ensures
        text is Some <==> mergeable(loaded(optional_text(file))),
        text matches Some(t) ==> t@ == pretty_text(merged(loaded(optional_text(file)), model@)),
        text matches Some(t) ==> (reads_back(
            Json::Object(loaded(optional_text(file))),
            depth_limit(),
        ) ==> loaded(Some(t@)) == merged(loaded(optional_text(file)), model@) && parsed_object(t@)
            == Some(merged(loaded(optional_text(file)), model@))),
{
    let mut config = load_openclaw_config(file);
    if is_mergeable(&config) {
        proof {
            if reads_back(Json::Object(entries_of(config)), depth_limit()) {
                law_merge_keeps_reading_back(entries_of(config), model@);
            }
        }
        merge_openclaw_config(&mut config, model);
        Some(pretty_print(&config).unwrap())
    } else {
        None
    }
}

/// The text that an error is reported as, given what the error says.
pub fn err_to_string(e: &str) -> (message: String)
    ensures
        message@ == "Error: "@ + e@,
{
    "Error: ".to_owned().concat(e)
}

/// Whether the entries of an object all read back.
spec fn entries_read_back(entries: Entries, depth: nat) -> bool {
    forall|key: Seq<char>| #[trigger]
        entries.contains_key(key) ==> !reserved_key(key) && reads_back(entries[key], depth)
}

/// An object reads back exactly if its entries do, one level down.
proof fn lemma_object_reads_back(entries: Entries, depth: nat)
    requires
        depth > 0,
    ensures
        reads_back(Json::Object(entries), depth) == entries_read_back(
            entries,
            (depth - 1) as nat,
        ),
{
    let value = Json::Object(entries);
    if reads_back(value, depth) {
        assert forall|key: Seq<char>| #[trigger] entries.contains_key(key) implies !reserved_key(
            key,
        ) && reads_back(entries[key], (depth - 1) as nat) by {
            assert(value->Object_0.contains_key(key));
        }
    }
}

/// A section of an object whose entries read back.
proof fn lemma_section_reads_back(entries: Entries, key: Seq<char>, depth: nat)
    requires
        depth > 0,
        entries_read_back(entries, depth),
    ensures
        entries_read_back(section_at(entries, key), (depth - 1) as nat),
{
    if entries.contains_key(key) && entries[key] is Object {
        let inner = entries[key]->Object_0;
        assert(reads_back(entries[key], depth));
        assert forall|k: Seq<char>| #[trigger] inner.contains_key(k) implies !reserved_key(k)
            && reads_back(inner[k], (depth - 1) as nat) by {}
    }
}

/// Setting an entry to a value that reads back.
proof fn lemma_insert_reads_back(entries: Entries, key: Seq<char>, value: Json, depth: nat)
    requires
        entries_read_back(entries, depth),
        !reserved_key(key),
        reads_back(value, depth),
    ensures
        entries_read_back(entries.insert(key, value), depth),
{
    let after = entries.insert(key, value);
    assert forall|k: Seq<char>| #[trigger] after.contains_key(k) implies !reserved_key(k)
        && reads_back(after[k], depth) by {
        if k != key {
            assert(entries.contains_key(k));
        }
    }
}

/// The keys that the model is entered under are none of the reserved ones.
proof fn lemma_own_keys_not_reserved()
    ensures
        !reserved_key("models"@),
        !reserved_key("providers"@),
        !reserved_key("ollama"@),
        !reserved_key("agents"@),
        !reserved_key("defaults"@),
        !reserved_key("model"@),
        !reserved_key("primary"@),
        !reserved_key("api"@),
        !reserved_key("apiKey"@),
        !reserved_key("baseUrl"@),
        !reserved_key("id"@),
        !reserved_key("name"@),
        !reserved_key("input"@),
        !reserved_key("cost"@),
        !reserved_key("output"@),
        !reserved_key("cacheRead"@),
        !reserved_key("cacheWrite"@),
{
    reveal_strlit("$serde_json::private::RawValue");
    reveal_strlit("$serde_json::private::Number");
    reveal_strlit("models");
    reveal_strlit("providers");
    reveal_strlit("ollama");
    reveal_strlit("agents");
    reveal_strlit("defaults");
    reveal_strlit("model");
    reveal_strlit("primary");
    reveal_strlit("api");
    reveal_strlit("apiKey");
    reveal_strlit("baseUrl");
    reveal_strlit("id");
    reveal_strlit("name");
    reveal_strlit("input");
    reveal_strlit("cost");
    reveal_strlit("output");
    reveal_strlit("cacheRead");
    reveal_strlit("cacheWrite");
    assert(forall|key: Seq<char>| key.len() < 20 ==> !reserved_key(key));
}

/// The provider reads back at any depth that has room for its four levels.
proof fn lemma_provider_reads_back(model: Seq<char>, depth: nat)
    requires
        depth >= 4,
    ensures
        reads_back(ollama_provider(model), depth),
{
    lemma_own_keys_not_reserved();
    let none = Entries::empty();
    let zero = Json::Integer(0);
    let d1 = (depth - 1) as nat;
    let d2 = (depth - 2) as nat;
    let d3 = (depth - 3) as nat;
    let d4 = (depth - 4) as nat;
    assert(reads_back(zero, d4));
    assert(entries_read_back(none, d4));
    lemma_insert_reads_back(none, "input"@, zero, d4);
    let cost1 = none.insert("input"@, zero);
    lemma_insert_reads_back(cost1, "output"@, zero, d4);
    let cost2 = cost1.insert("output"@, zero);
    lemma_insert_reads_back(cost2, "cacheRead"@, zero, d4);
    let cost3 = cost2.insert("cacheRead"@, zero);
    lemma_insert_reads_back(cost3, "cacheWrite"@, zero, d4);
    assert(reads_back(free_of_charge(), d3));
    let inputs = Json::Array(seq![Json::Text("text"@)]);
    assert(reads_back(Json::Text("text"@), d4));
    assert(reads_back(inputs, d3));
    lemma_insert_reads_back(none, "id"@, Json::Text(model), d3);
    let entry1 = none.insert("id"@, Json::Text(model));
    lemma_insert_reads_back(entry1, "name"@, Json::Text(model), d3);
    let entry2 = entry1.insert("name"@, Json::Text(model));
    lemma_insert_reads_back(entry2, "input"@, inputs, d3);
    let entry3 = entry2.insert("input"@, inputs);
    lemma_insert_reads_back(entry3, "cost"@, free_of_charge(), d3);
    assert(reads_back(model_entry(model), d2));
    let models = Json::Array(seq![model_entry(model)]);
    assert(reads_back(models, d1));
    lemma_insert_reads_back(none, "api"@, Json::Text("ollama"@), d1);
    let provider1 = none.insert("api"@, Json::Text("ollama"@));
    lemma_insert_reads_back(provider1, "apiKey"@, Json::Text("ollama-local"@), d1);
    let provider2 = provider1.insert("apiKey"@, Json::Text("ollama-local"@));
    lemma_insert_reads_back(
        provider2,
        "baseUrl"@,
        Json::Text("http://127.0.0.1:11434"@),
        d1,
    );
    let provider3 = provider2.insert("baseUrl"@, Json::Text("http://127.0.0.1:11434"@));
    lemma_insert_reads_back(provider3, "models"@, models, d1);
}

/// Entering a model in a configuration that reads back as it was written leaves
/// one that does so too.
pub proof fn law_merge_keeps_reading_back(config: Entries, model: Seq<char>)
    requires
        reads_back(Json::Object(config), depth_limit()),
    ensures
        reads_back(Json::Object(merged(config, model)), depth_limit()),
{
    lemma_own_keys_not_reserved();
    lemma_object_reads_back(config, 127);
    let models = section_at(config, "models"@);
    lemma_section_reads_back(config, "models"@, 126);
    let providers = section_at(models, "providers"@);
    lemma_section_reads_back(models, "providers"@, 125);
    lemma_provider_reads_back(model, 124);
    lemma_insert_reads_back(providers, "ollama"@, ollama_provider(model), 124);
    let providers_after = Json::Object(providers.insert("ollama"@, ollama_provider(model)));
    assert(reads_back(providers_after, 125));
    lemma_insert_reads_back(models, "providers"@, providers_after, 125);
    let models_after = Json::Object(models_with(models, model));
    assert(reads_back(models_after, 126));
    lemma_insert_reads_back(config, "models"@, models_after, 126);
    let agents = section_at(config, "agents"@);
    lemma_section_reads_back(config, "agents"@, 126);
    let defaults = section_at(agents, "defaults"@);
    lemma_section_reads_back(agents, "defaults"@, 125);
    let chosen = section_at(defaults, "model"@);
    lemma_section_reads_back(defaults, "model"@, 124);
    let primary = Json::Text(primary_model(model));
    lemma_insert_reads_back(chosen, "primary"@, primary, 123);
    let chosen_after = Json::Object(chosen.insert("primary"@, primary));
    assert(reads_back(chosen_after, 124));
    lemma_insert_reads_back(defaults, "model"@, chosen_after, 124);
    let defaults_after = Json::Object(defaults.insert("model"@, chosen_after));
    assert(reads_back(defaults_after, 125));
    lemma_insert_reads_back(agents, "defaults"@, defaults_after, 125);
    let agents_after = Json::Object(agents_with(agents, model));
    assert(reads_back(agents_after, 126));
    lemma_insert_reads_back(
        config.insert("models"@, models_after),
        "agents"@,
        agents_after,
        126,
    );
    lemma_object_reads_back(merged(config, model), 127);
}

/// Once a model is entered, the configuration names it: `models.providers.ollama`
/// is the local provider with this model alone, and
/// `agents.defaults.model.primary` refers to it.
pub proof fn law_merged_config_names_model(config: Entries, model: Seq<char>)
    ensures
        ({
            let providers = section_at(section_at(merged(config, model), "models"@), "providers"@);
            &&& providers.contains_key("ollama"@)
            &&& providers["ollama"@] == ollama_provider(model)
        }),
        ({
            let defaults = section_at(section_at(merged(config, model), "agents"@), "defaults"@);
            let chosen = section_at(defaults, "model"@);
            &&& chosen.contains_key("primary"@)
            &&& chosen["primary"@] == Json::Text(primary_model(model))
        }),
{
    lemma_sections_differ();
}

/// Entering a model touches nothing else: every other entry of the
/// configuration and of each section on the way is there afterwards exactly if
/// it was there before, with the value that it had.
pub proof fn law_merge_keeps_other_entries(config: Entries, model: Seq<char>, key: Seq<char>)
    ensures
        ({
            let after = merged(config, model);
            let models = section_at(config, "models"@);
            let models_after = section_at(after, "models"@);
            let agents = section_at(config, "agents"@);
            let agents_after = section_at(after, "agents"@);
            let defaults = section_at(agents, "defaults"@);
            let defaults_after = section_at(agents_after, "defaults"@);
            &&& key != "models"@ && key != "agents"@ ==> same_entry(config, after, key)
            &&& key != "providers"@ ==> same_entry(models, models_after, key)
            &&& key != "ollama"@ ==> same_entry(
                section_at(models, "providers"@),
                section_at(models_after, "providers"@),
                key,
            )
            &&& key != "defaults"@ ==> same_entry(agents, agents_after, key)
            &&& key != "model"@ ==> same_entry(defaults, defaults_after, key)
            &&& key != "primary"@ ==> same_entry(
                section_at(defaults, "model"@),
                section_at(defaults_after, "model"@),
                key,
            )
        }),
{
    lemma_sections_differ();
}

/// A configuration in which a model was entered can have another entered.
pub proof fn law_merged_config_stays_mergeable(config: Entries, model: Seq<char>)
    ensures
        mergeable(merged(config, model)),
{
    lemma_sections_differ();
}

/// The last model wins: entering one and then another leaves the configuration
/// that entering the second alone does. In particular, entering a model twice
/// is the same as entering it once.
pub proof fn law_last_model_wins(config: Entries, first: Seq<char>, second: Seq<char>)
    ensures
        merged(merged(config, first), second) == merged(config, second),
{
    lemma_sections_differ();
    let once = merged(config, first);
    let models = section_at(config, "models"@);
    let agents = section_at(config, "agents"@);
    assert(section_at(once, "models"@) == models_with(models, first));
    assert(section_at(once, "agents"@) == agents_with(agents, first));
    let providers = section_at(models, "providers"@);
    assert(providers.insert("ollama"@, ollama_provider(first)).insert(
        "ollama"@,
        ollama_provider(second),
    ) =~= providers.insert("ollama"@, ollama_provider(second)));
    assert(models_with(models_with(models, first), second) =~= models_with(models, second));
    let defaults = section_at(agents, "defaults"@);
    let chosen = section_at(defaults, "model"@);
    assert(chosen.insert("primary"@, Json::Text(primary_model(first))).insert(
        "primary"@,
        Json::Text(primary_model(second)),
    ) =~= chosen.insert("primary"@, Json::Text(primary_model(second))));
    let defaults_once = section_at(agents_with(agents, first), "defaults"@);
    let chosen_twice = Json::Object(chosen.insert("primary"@, Json::Text(primary_model(second))));
    assert(defaults_once.insert("model"@, chosen_twice) =~= defaults.insert("model"@, chosen_twice));
    assert(agents_with(agents_with(agents, first), second) =~= agents_with(agents, second));
    assert(merged(once, second) =~= merged(config, second));
}

/// The last model that is written wins: writing one to the file and then another
/// leaves the text that writing the second alone does, whatever the configuration
/// holds, so long as the first text reads back as what was written.
pub proof fn law_last_written_model_wins(config: Entries, first: Seq<char>, second: Seq<char>)
    requires
        parsed_object(pretty_text(merged(config, first))) == Some(merged(config, first)),
    ensures
        pretty_text(merged(loaded(Some(pretty_text(merged(config, first)))), second))
            == pretty_text(merged(config, second)),
{
    law_last_model_wins(config, first, second);
}

/// The value at the end of a path of keys, if there is one.
pub open spec fn value_at(value: Json, path: Seq<Seq<char>>) -> Option<Json>
    decreases path.len(),
{
    if path.len() == 0 {
        Some(value)
    } else {
        match value {
            Json::Object(entries) => if entries.contains_key(path[0]) {
                value_at(entries[path[0]], path.drop_first())
            } else {
                None
            },
            _ => None,
        }
    }
}

/// Whether two paths meet: one of them leads on from where the other ends.
pub open spec fn paths_meet(a: Seq<Seq<char>>, b: Seq<Seq<char>>) -> bool {
    forall|i: int| 0 <= i < a.len() && i < b.len() ==> #[trigger] a[i] == b[i]
}

/// What stands behind the first key of a path is in the section there.
proof fn lemma_into_section(entries: Entries, path: Seq<Seq<char>>)
    requires
        path.len() >= 2,
    ensures
        value_at(Json::Object(entries), path) == value_at(
            Json::Object(section_at(entries, path[0])),
            path.drop_first(),
        ),
{
    let rest = path.drop_first();
    assert(rest.len() >= 1);
    if entries.contains_key(path[0]) && entries[path[0]] is Object {
        assert(entries[path[0]] == Json::Object(section_at(entries, path[0])));
    } else {
        assert(value_at(Json::Object(Entries::empty()), rest) == None::<Json>);
        if entries.contains_key(path[0]) {
            assert(value_at(entries[path[0]], rest) == None::<Json>);
        }
    }
}

/// An entry that is set is no matter to a path that goes another way.
proof fn lemma_other_way(entries: Entries, key: Seq<char>, value: Json, path: Seq<Seq<char>>)
    requires
        path.len() >= 1,
        path[0] != key,
    ensures
        value_at(Json::Object(entries.insert(key, value)), path) == value_at(
            Json::Object(entries),
            path,
        ),
{
}

/// Entering a model changes what stands at two places: that of the provider and
/// that of the primary model. At every other place, however deep, stands what
/// stood there before, or nothing where nothing stood.
pub proof fn law_merge_changes_two_places_only(
    config: Entries,
    model: Seq<char>,
    path: Seq<Seq<char>>,
)
    requires
        !paths_meet(path, seq!["models"@, "providers"@, "ollama"@]),
        !paths_meet(path, seq!["agents"@, "defaults"@, "model"@, "primary"@]),
    ensures
        value_at(Json::Object(merged(config, model)), path) == value_at(
            Json::Object(config),
            path,
        ),
{
    lemma_sections_differ();
    let after = merged(config, model);
    let provider = seq!["models"@, "providers"@, "ollama"@];
    let primary = seq!["agents"@, "defaults"@, "model"@, "primary"@];
    let i = choose|i: int| 0 <= i < path.len() && i < provider.len() && path[i] != provider[i];
    let j = choose|j: int| 0 <= j < path.len() && j < primary.len() && path[j] != primary[j];
    let models = section_at(config, "models"@);
    let agents = section_at(config, "agents"@);
    if path[0] != "models"@ && path[0] != "agents"@ {
        let once = config.insert("models"@, Json::Object(models_with(models, model)));
        lemma_other_way(config, "models"@, Json::Object(models_with(models, model)), path);
        lemma_other_way(once, "agents"@, Json::Object(agents_with(agents, model)), path);
    } else if path[0] == "models"@ {
        assert(i >= 1);
        let rest = path.drop_first();
        lemma_into_section(config, path);
        lemma_into_section(after, path);
        assert(section_at(after, "models"@) == models_with(models, model));
        let providers = section_at(models, "providers"@);
        let entered = providers.insert("ollama"@, ollama_provider(model));
        if rest[0] != "providers"@ {
            lemma_other_way(models, "providers"@, Json::Object(entered), rest);
        } else {
            assert(i == 2);
            let last = rest.drop_first();
            lemma_into_section(models, rest);
            lemma_into_section(models_with(models, model), rest);
            assert(section_at(models_with(models, model), "providers"@) == entered);
            assert(last[0] == path[2]);
            lemma_other_way(providers, "ollama"@, ollama_provider(model), last);
        }
    } else {
        assert(j >= 1);
        let rest = path.drop_first();
        lemma_into_section(config, path);
        lemma_into_section(after, path);
        assert(section_at(after, "agents"@) == agents_with(agents, model));
        let defaults = section_at(agents, "defaults"@);
        let chosen = section_at(defaults, "model"@);
        let named = chosen.insert("primary"@, Json::Text(primary_model(model)));
        let settled = defaults.insert("model"@, Json::Object(named));
        if rest[0] != "defaults"@ {
            lemma_other_way(agents, "defaults"@, Json::Object(settled), rest);
        } else {
            assert(j >= 2);
            let further = rest.drop_first();
            lemma_into_section(agents, rest);
            lemma_into_section(agents_with(agents, model), rest);
            assert(section_at(agents_with(agents, model), "defaults"@) == settled);
            assert(further[0] == path[2]);
            if further[0] != "model"@ {
                lemma_other_way(defaults, "model"@, Json::Object(named), further);
            } else {
                assert(j == 3);
                let last = further.drop_first();
                lemma_into_section(defaults, further);
                lemma_into_section(settled, further);
                assert(section_at(settled, "model"@) == named);
                assert(last[0] == path[3]);
                lemma_other_way(chosen, "primary"@, Json::Text(primary_model(model)), last);
            }
        }
    }
}

/// Whether an object is the local provider with the given model: these four
/// entries and no others, and one model, with these four and no others, that
/// costs nothing.
pub open spec fn serves_model_locally(provider: Json, model: Seq<char>) -> bool {
    &&& provider is Object
    &&& forall|key: Seq<char>| #[trigger]
        provider->Object_0.contains_key(key) <==> key == "api"@ || key == "apiKey"@ || key
            == "baseUrl"@ || key == "models"@
    &&& provider->Object_0["api"@] == Json::Text("ollama"@)
    &&& provider->Object_0["apiKey"@] == Json::Text("ollama-local"@)
    &&& provider->Object_0["baseUrl"@] == Json::Text("http://127.0.0.1:11434"@)
    &&& provider->Object_0["models"@] is Array
    &&& provider->Object_0["models"@]->Array_0.len() == 1
    &&& {
        let listed = provider->Object_0["models"@]->Array_0[0];
        &&& listed is Object
        &&& forall|key: Seq<char>| #[trigger]
            listed->Object_0.contains_key(key) <==> key == "id"@ || key == "name"@ || key
                == "input"@ || key == "cost"@
        &&& listed->Object_0["id"@] == Json::Text(model)
        &&& listed->Object_0["name"@] == Json::Text(model)
        &&& listed->Object_0["input"@] is Array
        &&& listed->Object_0["input"@]->Array_0.len() == 1
        &&& listed->Object_0["input"@]->Array_0[0] == Json::Text("text"@)
        &&& listed->Object_0["cost"@] is Object
        &&& forall|key: Seq<char>| #[trigger]
            listed->Object_0["cost"@]->Object_0.contains_key(key) <==> key == "input"@ || key
                == "output"@ || key == "cacheRead"@ || key == "cacheWrite"@
        &&& forall|key: Seq<char>| #[trigger]
            listed->Object_0["cost"@]->Object_0.contains_key(key)
                ==> listed->Object_0["cost"@]->Object_0[key] == Json::Integer(0)
    }
}

/// The keys of the provider and of the model that it lists are all different.
proof fn lemma_provider_keys_differ()
    ensures
        "api"@ != "apiKey"@ && "api"@ != "baseUrl"@ && "api"@ != "models"@,
        "apiKey"@ != "baseUrl"@ && "apiKey"@ != "models"@ && "baseUrl"@ != "models"@,
        "id"@ != "name"@ && "id"@ != "input"@ && "id"@ != "cost"@,
        "name"@ != "input"@ && "name"@ != "cost"@ && "input"@ != "cost"@,
{
    reveal_strlit("api");
    reveal_strlit("apiKey");
    reveal_strlit("baseUrl");
    reveal_strlit("models");
    reveal_strlit("id");
    reveal_strlit("name");
    reveal_strlit("input");
    reveal_strlit("cost");
    assert("api"@.len() == 3 && "apiKey"@.len() == 6 && "baseUrl"@.len() == 7);
    assert("models"@.len() == 6 && "apiKey"@[0] != "models"@[0]);
    assert("id"@.len() == 2 && "name"@.len() == 4 && "input"@.len() == 5 && "cost"@.len() == 4);
    assert("name"@[0] != "cost"@[0]);
}

/// Once a model is entered, the provider under `models`, `providers`, `ollama`
/// is the local one with that model, and the text under `agents`, `defaults`,
/// `model`, `primary` is the model's name behind `ollama/`; whatever the
/// configuration was.
pub proof fn law_merge_enters_the_model(config: Entries, model: Seq<char>)
    ensures
        ({
            let after = Json::Object(merged(config, model));
            let provider = value_at(after, seq!["models"@, "providers"@, "ollama"@]);
            &&& provider is Some
            &&& serves_model_locally(provider->0, model)
            &&& value_at(after, seq!["agents"@, "defaults"@, "model"@, "primary"@]) == Some(
                Json::Text("ollama/"@ + model),
            )
        }),
{
    lemma_sections_differ();
    lemma_provider_keys_differ();
    let after = merged(config, model);
    let models = section_at(config, "models"@);
    let agents = section_at(config, "agents"@);
    let defaults = section_at(agents, "defaults"@);
    let path = seq!["models"@, "providers"@, "ollama"@];
    let rest = path.drop_first();
    let last = rest.drop_first();
    lemma_into_section(after, path);
    lemma_into_section(models_with(models, model), rest);
    let entered = section_at(models, "providers"@).insert("ollama"@, ollama_provider(model));
    assert(section_at(models_with(models, model), "providers"@) == entered);
    assert(last[0] == "ollama"@);
    assert(value_at(entered["ollama"@], last.drop_first()) == Some(entered["ollama"@]));
    assert(value_at(Json::Object(entered), last) == Some(ollama_provider(model)));
    assert(serves_model_locally(ollama_provider(model), model)) by {
        let provider = ollama_provider(model)->Object_0;
        assert(provider["models"@] == Json::Array(seq![model_entry(model)]));
        let listed = model_entry(model)->Object_0;
        assert(listed["input"@] == Json::Array(seq![Json::Text("text"@)]));
        assert(listed["cost"@] == free_of_charge());
    }
    let path = seq!["agents"@, "defaults"@, "model"@, "primary"@];
    let rest = path.drop_first();
    let further = rest.drop_first();
    let last = further.drop_first();
    lemma_into_section(after, path);
    lemma_into_section(agents_with(agents, model), rest);
    let named = section_at(defaults, "model"@).insert(
        "primary"@,
        Json::Text(primary_model(model)),
    );
    let settled = defaults.insert("model"@, Json::Object(named));
    assert(section_at(agents_with(agents, model), "defaults"@) == settled);
    lemma_into_section(settled, further);
    assert(section_at(settled, "model"@) == named);
    assert(last[0] == "primary"@);
    assert(value_at(named["primary"@], last.drop_first()) == Some(named["primary"@]));
}

/// A model can be entered exactly if nothing but an object stands at each of the
/// five places that lead to where it is entered.
pub proof fn law_model_fits_unless_something_is_in_the_way(config: Entries)
    ensures
        mergeable(config) <==> {
            let whole = Json::Object(config);
            let models = value_at(whole, seq!["models"@]);
            let providers = value_at(whole, seq!["models"@, "providers"@]);
            let agents = value_at(whole, seq!["agents"@]);
            let defaults = value_at(whole, seq!["agents"@, "defaults"@]);
            let chosen = value_at(whole, seq!["agents"@, "defaults"@, "model"@]);
            &&& models is Some ==> models->0 is Object
            &&& providers is Some ==> providers->0 is Object
            &&& agents is Some ==> agents->0 is Object
            &&& defaults is Some ==> defaults->0 is Object
            &&& chosen is Some ==> chosen->0 is Object
        },
{
    lemma_single_key(config, "models"@);
    lemma_single_key(config, "agents"@);
    let models = section_at(config, "models"@);
    let agents = section_at(config, "agents"@);
    let defaults = section_at(agents, "defaults"@);
    lemma_single_key(models, "providers"@);
    lemma_single_key(agents, "defaults"@);
    lemma_single_key(defaults, "model"@);
    let providers_path = seq!["models"@, "providers"@];
    lemma_into_section(config, providers_path);
    assert(providers_path.drop_first() =~= seq!["providers"@]);
    let defaults_path = seq!["agents"@, "defaults"@];
    lemma_into_section(config, defaults_path);
    assert(defaults_path.drop_first() =~= seq!["defaults"@]);
    let chosen_path = seq!["agents"@, "defaults"@, "model"@];
    lemma_into_section(config, chosen_path);
    let rest = chosen_path.drop_first();
    lemma_into_section(agents, rest);
    assert(rest.drop_first() =~= seq!["model"@]);
}

/// What stands at a path of one key.
proof fn lemma_single_key(entries: Entries, key: Seq<char>)
    ensures
        value_at(Json::Object(entries), seq![key]) == (if entries.contains_key(key) {
            Some(entries[key])
        } else {
            None
        }),
{
    let path = seq![key];
    if entries.contains_key(key) {
        assert(value_at(entries[key], path.drop_first()) == Some(entries[key]));
    }
}

/// A file that holds an object is taken for that very object, whatever is in it;
/// only a file that is missing or holds none is taken for an empty one.
pub proof fn law_file_is_read_as_it_is(text: Seq<char>)
    ensures
        parsed_object(text) matches Some(entries) ==> loaded(Some(text)) == entries,
        parsed_object(text) is None ==> loaded(Some(text)) == Entries::empty(),
        loaded(None) == Entries::empty(),
{
}

/// What is read from a file is the object that it holds.
pub proof fn law_loaded_config_is_the_file(
    file: &str,
    config: serde_json::Map<String, serde_json::Value>,
    none: serde_json::Map<String, serde_json::Value>,
)
    requires
        call_ensures(load_openclaw_config, (Some(file),), config),
        call_ensures(load_openclaw_config, (None,), none),
    ensures
        parsed_object(file@) matches Some(entries) ==> entries_of(config) == entries,
        parsed_object(file@) is None ==> entries_of(config) == Entries::empty(),
        entries_of(none) == Entries::empty(),
{
    law_file_is_read_as_it_is(file@);
}

/// What is written for a file that holds an object is that object with the model
/// entered: the text is the pretty form of an object in which at every place but
/// the two of the model stands what stood there in the file. Where the file's
/// object is one that reads back as it was written, the written text is read as
/// just that.
pub proof fn law_written_file_keeps_all_else(
    file: &str,
    model: &str,
    text: String,
    before: Entries,
    path: Seq<Seq<char>>,
)
    requires
        call_ensures(write_openclaw_config, (Some(file), model), Some(text)),
        parsed_object(file@) == Some(before),
        !paths_meet(path, seq!["models"@, "providers"@, "ollama"@]),
        !paths_meet(path, seq!["agents"@, "defaults"@, "model"@, "primary"@]),
    ensures
        exists|after: Entries|
            text@ == #[trigger] pretty_text(after) && value_at(Json::Object(after), path)
                == value_at(Json::Object(before), path),
        reads_back(Json::Object(before), 127) ==> {
            &&& parsed_object(text@) is Some
            &&& value_at(Json::Object(parsed_object(text@)->0), path) == value_at(
                Json::Object(before),
                path,
            )
        },
{
    law_file_is_read_as_it_is(file@);
    law_merge_changes_two_places_only(before, model@, path);
    assert(text@ == pretty_text(merged(before, model@)));
}

/// What is written names the model, whatever the file held, if it held anything:
/// the text is the pretty form of an object with the local provider of the model
/// and with the model as the primary one; and where the file was missing or held
/// no object, the text is read as just that.
pub proof fn law_written_file_names_the_model(file: Option<&str>, model: &str, text: String)
    requires
        call_ensures(write_openclaw_config, (file, model), Some(text)),
    ensures
        exists|after: Entries|
            {
                let provider = value_at(
                    Json::Object(after),
                    seq!["models"@, "providers"@, "ollama"@],
                );
                &&& text@ == #[trigger] pretty_text(after)
                &&& provider is Some
                &&& serves_model_locally(provider->0, model@)
                &&& value_at(
                    Json::Object(after),
                    seq!["agents"@, "defaults"@, "model"@, "primary"@],
                ) == Some(Json::Text("ollama/"@ + model@))
            },
        file is None || parsed_object(file->0@) is None ==> {
            let written = parsed_object(text@);
            &&& written is Some
            &&& value_at(
                Json::Object(written->0),
                seq!["agents"@, "defaults"@, "model"@, "primary"@],
            ) == Some(Json::Text("ollama/"@ + model@))
            &&& forall|key: Seq<char>| #[trigger]
                written->0.contains_key(key) <==> key == "models"@ || key == "agents"@
        },
{
    let config = loaded(optional_text(file));
    law_merge_enters_the_model(config, model@);
    assert(text@ == pretty_text(merged(config, model@)));
    if file is None || parsed_object(file->0@) is None {
        assert(config == Entries::empty());
        lemma_object_reads_back(config, 127);
        assert(reads_back(Json::Object(config), depth_limit()));
    }
}

/// A text is written exactly if nothing is in the way of the model, in the file
/// that is there; a file that is missing or holds no object is never in the way.
pub proof fn law_written_unless_something_is_in_the_way(
    file: &str,
    model: &str,
    text: Option<String>,
    fresh: Option<String>,
)
    requires
        call_ensures(write_openclaw_config, (Some(file), model), text),
        call_ensures(write_openclaw_config, (None, model), fresh),
    ensures
        fresh is Some,
        parsed_object(file@) is None ==> text is Some,
        parsed_object(file@) matches Some(entries) ==> (text is Some <==> mergeable(entries)),
{
    law_file_is_read_as_it_is(file@);
}

/// What reads back as it was written: every value but a floating-point number,
/// if what it consists of does so one level down and is under no reserved key;
/// and there are 127 levels.
pub proof fn law_what_reads_back(
    flag: bool,
    number: int,
    text: Seq<char>,
    items: Seq<Json>,
    entries: Entries,
    depth: nat,
)
    ensures
        depth_limit() == 127,
        reads_back(Json::Null, depth),
        reads_back(Json::Bool(flag), depth),
        reads_back(Json::Integer(number), depth),
        reads_back(Json::Text(text), depth),
        !reads_back(Json::Float(text), depth),
        !reads_back(Json::Array(items), 0),
        !reads_back(Json::Object(entries), 0),
        reads_back(Json::Array(items), depth + 1) <==> forall|i: int|
            0 <= i < items.len() ==> reads_back(#[trigger] items[i], depth),
        reads_back(Json::Object(entries), depth + 1) <==> forall|key: Seq<char>| #[trigger]
            entries.contains_key(key) ==> key != "$serde_json::private::RawValue"@ && key
                != "$serde_json::private::Number"@ && reads_back(entries[key], depth),
{
    lemma_object_reads_back(entries, depth + 1);
    let list = Json::Array(items);
    if reads_back(list, depth + 1) {
        assert forall|i: int| 0 <= i < items.len() implies reads_back(
            #[trigger] items[i],
            depth,
        ) by {
            assert(reads_back(list->Array_0[i], depth));
        }
    }
}

/// An error is reported as what it says, behind the word for it.
pub proof fn law_error_says_what_happened(e: &str, message: String)
    requires
        call_ensures(err_to_string, (e,), message),
    ensures
        message@ == "Error: "@ + e@,
{
}

/// Entering a model in a configuration that it fits in changes the two places of
/// the model and no other.
pub proof fn law_entering_changes_two_places_only(
    config: &mut serde_json::Map<String, serde_json::Value>,
    model: &str,
    path: Seq<Seq<char>>,
)
    requires
        call_ensures(merge_openclaw_config, (config, model), ()),
        !paths_meet(path, seq!["models"@, "providers"@, "ollama"@]),
        !paths_meet(path, seq!["agents"@, "defaults"@, "model"@, "primary"@]),
    ensures
        ({
            let before = Json::Object(entries_of(*old(config)));
            let after = Json::Object(entries_of(*final(config)));
            let provider = value_at(after, seq!["models"@, "providers"@, "ollama"@]);
            &&& value_at(after, path) == value_at(before, path)
            &&& provider is Some
            &&& serves_model_locally(provider->0, model@)
            &&& value_at(after, seq!["agents"@, "defaults"@, "model"@, "primary"@]) == Some(
                Json::Text("ollama/"@ + model@),
            )
        }),
{
    law_merge_changes_two_places_only(entries_of(*config), model@, path);
    law_merge_enters_the_model(entries_of(*config), model@);
}

} // verus!
