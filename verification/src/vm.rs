//! Trusted boundary around the embedded Koto interpreter and the
//! serialization crates.
//!
//! Everything the rest of the crate knows about these crates is stated here,
//! as contracts on thin wrappers; each wrapper's doc comment names the
//! outside function it relies on. Values of the declared types are opaque:
//! the verified logic moves them around and reasons about its own bookkeeping,
//! never about their contents.

use vstd::prelude::*;

use koto::runtime::{KCell, KMap, KValue, Ptr};
use koto::KotoSettings;

verus! {

#[verifier::external_type_specification]
#[verifier::external_body]
pub struct ExKoto(koto::Koto);

#[verifier::external_type_specification]
#[verifier::external_body]
pub struct ExKValue(koto::runtime::KValue);

#[verifier::external_type_specification]
#[verifier::external_body]
pub struct ExKMap(koto::runtime::KMap);

#[verifier::external_type_specification]
#[verifier::external_body]
pub struct ExKotoError(koto::runtime::Error);

#[verifier::external_type_specification]
#[verifier::external_body]
pub struct ExCallContext<'a>(koto::runtime::CallContext<'a>);

#[verifier::external_type_specification]
#[verifier::external_body]
#[verifier::reject_recursive_types(T)]
pub struct ExPtr<T: ?Sized>(Ptr<T>);

#[verifier::external_type_specification]
#[verifier::external_body]
#[verifier::reject_recursive_types(T)]
pub struct ExKCell<T: ?Sized>(KCell<T>);

#[verifier::external_type_specification]
#[verifier::external_body]
pub struct ExJsonValue(serde_json::Value);

#[verifier::external_type_specification]
#[verifier::external_body]
pub struct ExYamlValue(serde_yaml::Value);

/// A shared text buffer: the host hands it to interpreter-side bindings and
/// drains it afterwards, so its contents are aliased and never tracked.
pub type SharedBuffer = Ptr<KCell<String>>;

/// A shared boolean flag, aliased like [`SharedBuffer`].
pub type SharedFlag = Ptr<KCell<bool>>;

/// Relies on `KCell::from` and `Ptr::from`: a fresh, empty shared buffer.
#[verifier::external_body]
pub(crate) fn buffer_new() -> (r: SharedBuffer) {
    Ptr::from(KCell::from(String::new()))
}

/// Relies on `KCell::borrow_mut` and `String::push_str`: appends text to the
/// shared buffer.
#[verifier::external_body]
pub(crate) fn buffer_append(buf: &SharedBuffer, text: &str) {
    buf.borrow_mut().push_str(text);
}

/// Relies on `KCell::borrow_mut` and `core::mem::take`: drains the shared
/// buffer, returning everything written since the last drain.
#[verifier::external_body]
pub(crate) fn buffer_take(buf: &SharedBuffer) -> (r: String) {
    core::mem::take(&mut *buf.borrow_mut())
}

/// Relies on `KCell::borrow_mut` and `String::clear`: empties the shared
/// buffer.
#[verifier::external_body]
pub(crate) fn buffer_clear(buf: &SharedBuffer) {
    buf.borrow_mut().clear();
}

/// Relies on `KCell::from` and `Ptr::from`: a fresh shared flag.
#[verifier::external_body]
pub(crate) fn flag_new(initial: bool) -> (r: SharedFlag) {
    Ptr::from(KCell::from(initial))
}

/// Relies on `KCell::borrow`: reads the shared flag.
#[verifier::external_body]
pub(crate) fn flag_get(flag: &SharedFlag) -> (r: bool) {
    *flag.borrow()
}

/// Relies on `KCell::borrow_mut`: sets the shared flag.
#[verifier::external_body]
pub(crate) fn flag_set(flag: &SharedFlag, value: bool) {
    *flag.borrow_mut() = value;
}

/// Relies on `Koto::with_settings`: builds an interpreter instance with the
/// given wall-clock execution limit and test-running setting.
#[verifier::external_body]
pub(crate) fn vm_new(limit_ms: Option<u64>, run_tests: bool) -> (r: koto::Koto) {
    let mut settings = KotoSettings::default();
    settings.run_tests = run_tests;
    if let Some(ms) = limit_ms {
        settings = settings.with_execution_limit(core::time::Duration::from_millis(ms));
    }
    koto::Koto::with_settings(settings)
}

/// Relies on `Koto::compile_and_run`: compiles and runs a script, returning
/// its result value or the interpreter's diagnostic text.
#[verifier::external_body]
pub(crate) fn vm_run(vm: &mut koto::Koto, script: &str) -> (r: Result<KValue, String>) {
    vm.compile_and_run(script).map_err(|error| error.to_string())
}

/// Relies on `Koto::value_to_string`: renders a value the way the
/// interpreter displays it.
#[verifier::external_body]
pub(crate) fn vm_render_value(vm: &mut koto::Koto, value: KValue) -> (r: Result<String, String>) {
    vm.value_to_string(value).map_err(|error| error.to_string())
}

/// Relies on `Koto::call_instance_function`: calls `function` with `instance`
/// bound as its implicit receiver and no arguments.
#[verifier::external_body]
pub(crate) fn vm_call_instance(
    vm: &mut koto::Koto,
    instance: &KValue,
    function: &KValue,
) -> (r: Result<(), String>) {
    vm.call_instance_function(instance.clone(), function.clone(), &[])
        .map(|_| ())
        .map_err(|error| error.to_string())
}

/// Relies on `KMap::insert` on `Koto::prelude`: binds a name in the
/// interpreter's prelude, replacing any previous binding of that name.
#[verifier::external_body]
pub(crate) fn prelude_insert(vm: &koto::Koto, name: &str, value: KValue) {
    vm.prelude().insert(name, value);
}

/// Relies on `KMap::get` on `Koto::prelude`: looks a prelude binding up.
#[verifier::external_body]
pub(crate) fn prelude_get_map(vm: &koto::Koto, name: &str) -> (r: Option<KMap>) {
    match vm.prelude().get(name) {
        Some(KValue::Map(m)) => Some(m),
        _ => None,
    }
}

/// Relies on `Koto::exports` and `ValueKey`'s display form: the exported
/// values of the last run, as (name, value) pairs in the export map's own
/// order, which follows declaration order in the script.
#[verifier::external_body]
pub(crate) fn exports_entries(vm: &koto::Koto) -> (r: Vec<(String, KValue)>) {
    vm.exports().data().iter().map(|(key, value)| (key.to_string(), value.clone())).collect()
}

/// Relies on `KValue::clone`: koto values are shared handles, and a clone is
/// the same value.
#[verifier::external_body]
pub(crate) fn kvalue_clone(v: &KValue) -> (r: KValue)
    ensures
        r == *v,
{
    v.clone()
}

/// Relies on `KMap::clone`: koto maps are shared handles, and a clone is the
/// same map.
#[verifier::external_body]
pub(crate) fn kmap_clone(m: &KMap) -> (r: KMap)
    ensures
        r == *m,
{
    m.clone()
}

/// Relies on matching `KValue::Null`.
#[verifier::external_body]
pub(crate) fn kvalue_is_null(v: &KValue) -> (r: bool) {
    matches!(v, KValue::Null)
}

/// Relies on matching `KValue::Map`: the contained map when the value is one.
#[verifier::external_body]
pub(crate) fn kvalue_as_map(v: &KValue) -> (r: Option<KMap>) {
    match v {
        KValue::Map(m) => Some(m.clone()),
        _ => None,
    }
}

/// Relies on matching `KValue::Str`: the contained text when the value is a
/// string.
#[verifier::external_body]
pub(crate) fn kvalue_as_str(v: &KValue) -> (r: Option<String>) {
    match v {
        KValue::Str(s) => Some(s.as_str().to_string()),
        _ => None,
    }
}

/// Relies on matching `KValue::Number` with an integer payload.
#[verifier::external_body]
pub(crate) fn kvalue_as_integer(v: &KValue) -> (r: Option<i64>) {
    match v {
        KValue::Number(koto::runtime::KNumber::I64(n)) => Some(*n),
        _ => None,
    }
}

/// Relies on `KValue::from` for strings.
#[verifier::external_body]
pub(crate) fn kvalue_from_string(s: String) -> (r: KValue) {
    KValue::from(s)
}

/// Relies on `KValue::from` for booleans.
#[verifier::external_body]
pub(crate) fn kvalue_from_bool(b: bool) -> (r: KValue) {
    KValue::from(b)
}

/// Relies on `KValue::from` for integers.
#[verifier::external_body]
pub(crate) fn kvalue_from_integer(n: i64) -> (r: KValue) {
    KValue::from(n)
}

/// The absent value.
#[verifier::external_body]
pub(crate) fn kvalue_null() -> (r: KValue) {
    KValue::Null
}

/// Relies on `KValue::Tuple`: packs values into a tuple value.
#[verifier::external_body]
pub(crate) fn kvalue_tuple(values: Vec<KValue>) -> (r: KValue) {
    KValue::Tuple(values.into())
}

/// Relies on `KValue::Map`.
#[verifier::external_body]
pub(crate) fn kvalue_from_map(m: KMap) -> (r: KValue) {
    KValue::Map(m)
}

/// Relies on `KMap::default`: a fresh, empty koto map.
#[verifier::external_body]
pub(crate) fn kmap_new() -> (r: KMap) {
    KMap::default()
}

/// Relies on `KMap::insert`.
#[verifier::external_body]
pub(crate) fn kmap_insert(m: &KMap, key: &str, value: KValue) {
    m.insert(key, value);
}

/// Relies on `Error::from<String>`: wraps a message as an interpreter error.
#[verifier::external_body]
pub(crate) fn koto_error(message: String) -> (r: koto::runtime::Error) {
    koto::runtime::Error::from(message)
}

/// Relies on `CallContext::args`: the call's arguments, cloned.
#[verifier::external_body]
pub(crate) fn ctx_args(ctx: &mut koto::runtime::CallContext<'_>) -> (r: Vec<KValue>) {
    ctx.args().to_vec()
}

/// Relies on `KotoVm::run_unary_op` with the display operation: the value's
/// display form, or an error when its display override yields no string.
#[verifier::external_body]
pub(crate) fn ctx_display(ctx: &mut koto::runtime::CallContext<'_>, value: KValue) -> (r: Result<
    String,
    koto::runtime::Error,
>) {
    match ctx.vm.run_unary_op(koto::runtime::UnaryOp::Display, value)? {
        KValue::Str(s) => Ok(s.as_str().to_string()),
        unexpected => Err(koto::runtime::Error::from(
            format!("expected a string from the display operation, found {unexpected:?}"),
        )),
    }
}

/// Relies on `KValue`'s debug form.
#[verifier::external_body]
pub(crate) fn kvalue_debug(v: &KValue) -> (r: String) {
    format!("{v:?}")
}

/// The kind of one meta-map entry, as far as the test harness reads it.
pub enum MetaEntryKind {
    /// A named test case.
    Test(String),
    /// The hook run before each case.
    PreTest,
    /// The hook run after each passing case.
    PostTest,
    /// Anything else the meta map holds.
    Other,
}

/// One meta-map entry: its kind and its value.
pub struct MetaEntry {
    pub kind: MetaEntryKind,
    pub value: KValue,
}

/// Relies on `KMap::meta_map` and `MetaKey`: the map's meta entries in their
/// stored order, each classified as a test case, a hook, or other.
#[verifier::external_body]
pub(crate) fn meta_entries(m: &KMap) -> (r: Vec<MetaEntry>) {
    let Some(meta) = m.meta_map() else { return Vec::new() };
    let classify = |key: &koto::runtime::MetaKey| match key {
        koto::runtime::MetaKey::Test(name) => MetaEntryKind::Test(name.as_str().to_string()),
        koto::runtime::MetaKey::PreTest => MetaEntryKind::PreTest,
        koto::runtime::MetaKey::PostTest => MetaEntryKind::PostTest,
        _ => MetaEntryKind::Other,
    };
    meta.borrow().iter().map(
        |(key, value)| MetaEntry { kind: classify(key), value: value.clone() },
    ).collect()
}

/// Relies on `SystemTime::now` and `duration_since` the epoch: the current
/// Unix time in milliseconds. The bound holds for the next ~290 million
/// years: the value fits in 63 bits.
#[verifier::external_body]
pub(crate) fn now_millis() -> (r: u64)
    ensures
        r < 0x8000_0000_0000_0000u64,
{
    match std::time::SystemTime::now().duration_since(std::time::SystemTime::UNIX_EPOCH) {
        Ok(elapsed) => elapsed.as_millis() as u64,
        Err(_) => 0,
    }
}

/// Relies on `uuid::Uuid::new_v4` and its hyphenated display form: a fresh
/// random identifier, 36 characters long.
#[verifier::external_body]
pub(crate) fn uuid_v4_string() -> (r: String)
    ensures
        r@.len() == 36,
{
    uuid::Uuid::new_v4().to_string()
}

/// Relies on `koto::serde::from_koto_value`: converts a koto value into a
/// JSON value.
#[verifier::external_body]
pub(crate) fn koto_value_to_json(value: KValue) -> (r: Result<serde_json::Value, String>) {
    koto::serde::from_koto_value(value).map_err(|error| error.to_string())
}

/// Relies on `koto::serde::to_koto_value`: converts a JSON value into a koto
/// value.
#[verifier::external_body]
pub(crate) fn json_to_koto_value(value: serde_json::Value) -> (r: Result<KValue, String>) {
    koto::serde::to_koto_value(value).map_err(|error| error.to_string())
}

/// Relies on `serde_json::to_string_pretty`.
#[verifier::external_body]
pub(crate) fn json_to_string_pretty(value: &serde_json::Value) -> (r: Result<String, String>) {
    serde_json::to_string_pretty(value).map_err(|error| error.to_string())
}

/// Relies on `serde_json::from_str`: parses JSON text.
#[verifier::external_body]
pub(crate) fn json_parse(text: &str) -> (r: Result<serde_json::Value, String>) {
    serde_json::from_str(text).map_err(|error| error.to_string())
}

/// Relies on `serde_yaml::from_str`: parses YAML text.
#[verifier::external_body]
pub(crate) fn yaml_parse(text: &str) -> (r: Result<serde_yaml::Value, String>) {
    serde_yaml::from_str(text).map_err(|error| error.to_string())
}

/// Relies on `serde_json::to_value`: converts a parsed YAML value to JSON.
#[verifier::external_body]
pub(crate) fn yaml_value_to_json(value: serde_yaml::Value) -> (r: Result<serde_json::Value, String>) {
    serde_json::to_value(value).map_err(|error| error.to_string())
}

/// Relies on `serde_yaml::to_string`.
#[verifier::external_body]
pub(crate) fn json_to_yaml_string(value: &serde_json::Value) -> (r: Result<String, String>) {
    serde_yaml::to_string(value).map_err(|error| error.to_string())
}

/// What encoding a list of key/value pairs as a JSON object returns; the
/// backing map is ordered by key, so the text depends on the pairs alone,
/// later values winning for a repeated key.
pub uninterp spec fn json_of_pairs(pairs: Seq<(Seq<char>, Seq<char>)>) -> Seq<char>;

/// Relies on `serde_json::to_string` over a `serde_json::Map` of strings.
#[verifier::external_body]
pub(crate) fn pairs_to_json(pairs: &Vec<(String, String)>) -> (r: String)
    ensures
        r@ == json_of_pairs(pairs@.map_values(|p: (String, String)| (p.0@, p.1@))),
{
    let mut map = serde_json::Map::new();
    for (key, value) in pairs {
        map.insert(key.clone(), serde_json::Value::String(value.clone()));
    }
    serde_json::to_string(&serde_json::Value::Object(map)).unwrap_or_default()
}

/// Relies on `serde_json::Value::get`: object field lookup.
#[verifier::external_body]
pub(crate) fn json_get(value: &serde_json::Value, key: &str) -> (r: Option<serde_json::Value>) {
    value.get(key).cloned()
}

/// Relies on `serde_json::Value::as_str`.
#[verifier::external_body]
pub(crate) fn json_as_str(value: &serde_json::Value) -> (r: Option<String>) {
    value.as_str().map(|s| s.to_string())
}

/// Relies on `serde_json::Value::as_array`.
#[verifier::external_body]
pub(crate) fn json_as_array(value: &serde_json::Value) -> (r: Option<Vec<serde_json::Value>>) {
    value.as_array().cloned()
}

} // verus!
