//! The namespaces the execution host surfaces into every interpreter
//! instance: `host` (echo, clocks, identifiers, logging, a reference
//! benchmark) and `serde` (text to structured value and back, in JSON and
//! YAML), plus the host's replacement `print`, which writes to the host's
//! capture buffer instead of the process's standard output.
//!
//! Each binding is one interpreter-side closure that immediately calls a
//! function of this module; the closures themselves are built in trusted
//! wrappers at the end of the file.

use vstd::prelude::*;

use koto::runtime::{CallContext, KMap, KNativeFunction, KValue};

use crate::text::{concat2, decimal_string};
use crate::vm::{
    buffer_append, ctx_args, ctx_display, flag_get, json_parse, json_to_koto_value,
    json_to_string_pretty, json_to_yaml_string, kmap_insert, kmap_new, koto_error,
    koto_value_to_json, kvalue_as_integer, kvalue_as_str, kvalue_debug, kvalue_from_bool,
    kvalue_from_integer, kvalue_from_map, kvalue_from_string, kvalue_null, kvalue_tuple,
    now_millis, uuid_v4_string, yaml_parse, yaml_value_to_json, SharedBuffer, SharedFlag,
};

verus! {

/// The mathematical Fibonacci sequence.
pub open spec fn spec_fib(n: nat) -> nat
    decreases n,
{
    if n == 0 {
        0
    } else if n == 1 {
        1
    } else {
        spec_fib((n - 1) as nat) + spec_fib((n - 2) as nat)
    }
}

/// One beyond the largest 64-bit value.
pub open spec fn pow2_64() -> nat {
    0x1_0000_0000_0000_0000nat
}

/// The reference benchmark: the n-th Fibonacci number, reduced modulo 2^64.
pub fn fib_wrapped(n: u64) -> (r: u64)
    ensures
        r as nat == spec_fib(n as nat) % pow2_64(),
{
    let mut a: u64 = 0;
    let mut b: u64 = 1;
    let mut i: u64 = 0;
    while i < n
        invariant
            i <= n,
            a as nat == spec_fib(i as nat) % pow2_64(),
            b as nat == spec_fib((i + 1) as nat) % pow2_64(),
        decreases n - i,
    {
        let ghost fi = spec_fib(i as nat);
        let ghost fi1 = spec_fib((i + 1) as nat);
        let next = a.wrapping_add(b);
        proof {
            let m = pow2_64() as int;
            vstd::arithmetic::div_mod::lemma_add_mod_noop(fi as int, fi1 as int, m);
            if a + b > u64::MAX {
                vstd::arithmetic::div_mod::lemma_mod_multiples_vanish(1, a + b - m, m);
                vstd::arithmetic::div_mod::lemma_small_mod((a + b - m) as nat, m as nat);
            } else {
                vstd::arithmetic::div_mod::lemma_small_mod((a + b) as nat, m as nat);
            }
            assert(next as nat == spec_fib((i + 2) as nat) % pow2_64());
        }
        a = b;
        b = next;
        i = i + 1;
    }
    a
}

/// `host.echo`: hands its first argument back, or the absent value.
fn echo_entry(ctx: &mut CallContext<'_>) -> Result<KValue, koto::runtime::Error> {
    let mut args = ctx_args(ctx);
    if args.len() == 0 {
        Ok(kvalue_null())
    } else {
        Ok(args.remove(0))
    }
}

/// `host.now`: the coarse timestamp, whole seconds since the epoch, as text.
fn now_entry(_ctx: &mut CallContext<'_>) -> Result<KValue, koto::runtime::Error> {
    let seconds = now_millis() / 1000;
    Ok(kvalue_from_string(decimal_string(seconds)))
}

/// `host.uuid_v4`: a fresh random identifier.
fn uuid_entry(_ctx: &mut CallContext<'_>) -> Result<KValue, koto::runtime::Error> {
    Ok(kvalue_from_string(uuid_v4_string()))
}

/// `host.log_info`: the logging sink; hands the message back to the script.
fn log_info_entry(ctx: &mut CallContext<'_>) -> Result<KValue, koto::runtime::Error> {
    let args = ctx_args(ctx);
    let message: String = if args.len() == 0 {
        "log event".to_owned()
    } else {
        match kvalue_as_str(&args[0]) {
            Some(s) => s,
            None => kvalue_debug(&args[0]),
        }
    };
    Ok(kvalue_from_string(message))
}

/// `host.profiling_enabled`: whether the host currently profiles runs.
fn profiling_enabled_entry(flag: &SharedFlag, _ctx: &mut CallContext<'_>) -> Result<
    KValue,
    koto::runtime::Error,
> {
    Ok(kvalue_from_bool(flag_get(flag)))
}

/// `host.performance.now_ms`: the millisecond clock.
fn now_ms_entry(_ctx: &mut CallContext<'_>) -> Result<KValue, koto::runtime::Error> {
    let ms = now_millis();
    Ok(kvalue_from_integer(ms as i64))
}

/// `host.performance.fast_fib`: the reference numeric benchmark.
fn fast_fib_entry(ctx: &mut CallContext<'_>) -> Result<KValue, koto::runtime::Error> {
    let args = ctx_args(ctx);
    if args.len() == 0 {
        return Err(koto_error("expected a numeric input".to_owned()));
    }
    match kvalue_as_integer(&args[0]) {
        Some(n) => {
            if n < 0 {
                Err(koto_error("expected a non-negative input".to_owned()))
            } else {
                let f = fib_wrapped(n as u64);
                Ok(kvalue_from_integer(#[verifier::truncate] (f as i64)))
            }
        },
        None => Err(koto_error("expected an integer input".to_owned())),
    }
}

/// The replacement `print`: renders its arguments the way the embedded
/// `print` does - a lone string as-is, anything else through the display
/// operation, several values as a tuple - and appends the line and a
/// trailing newline to the host's capture buffer.
fn print_entry(buf: &SharedBuffer, ctx: &mut CallContext<'_>) -> Result<
    KValue,
    koto::runtime::Error,
> {
    let mut args = ctx_args(ctx);
    if args.len() == 0 {
        return Err(koto_error("print expects at least one argument".to_owned()));
    }
    let line: String = if args.len() == 1 {
        let first = args.remove(0);
        match kvalue_as_str(&first) {
            Some(s) => s,
            None => ctx_display(ctx, first)?,
        }
    } else {
        ctx_display(ctx, kvalue_tuple(args))?
    };
    buffer_append(buf, line.as_str());
    buffer_append(buf, "\n");
    Ok(kvalue_null())
}

/// `serde.to_json`: a koto value rendered as pretty-printed JSON text.
fn to_json_entry(ctx: &mut CallContext<'_>) -> Result<KValue, koto::runtime::Error> {
    let mut args = ctx_args(ctx);
    let value = if args.len() == 0 {
        kvalue_null()
    } else {
        args.remove(0)
    };
    let json = match koto_value_to_json(value) {
        Ok(json) => json,
        Err(message) => {
            return Err(koto_error(concat2("Serialization error: ", message.as_str())));
        },
    };
    match json_to_string_pretty(&json) {
        Ok(text) => Ok(kvalue_from_string(text)),
        Err(message) => Err(koto_error(concat2("Serialization error: ", message.as_str()))),
    }
}

/// `serde.from_json`: JSON text parsed into a koto value; a parse failure is
/// reported as a script-visible error.
fn from_json_entry(ctx: &mut CallContext<'_>) -> Result<KValue, koto::runtime::Error> {
    let args = ctx_args(ctx);
    if args.len() == 0 {
        return Err(koto_error("expected a JSON string".to_owned()));
    }
    match kvalue_as_str(&args[0]) {
        Some(text) => {
            let parsed = match json_parse(text.as_str()) {
                Ok(parsed) => parsed,
                Err(message) => {
                    return Err(koto_error(concat2("Failed to parse JSON: ", message.as_str())));
                },
            };
            match json_to_koto_value(parsed) {
                Ok(value) => Ok(value),
                Err(message) => Err(
                    koto_error(concat2("Failed to convert JSON: ", message.as_str())),
                ),
            }
        },
        None => Err(koto_error("expected a JSON string".to_owned())),
    }
}

/// `serde.to_yaml`: a koto value rendered as YAML text.
fn to_yaml_entry(ctx: &mut CallContext<'_>) -> Result<KValue, koto::runtime::Error> {
    let mut args = ctx_args(ctx);
    let value = if args.len() == 0 {
        kvalue_null()
    } else {
        args.remove(0)
    };
    let json = match koto_value_to_json(value) {
        Ok(json) => json,
        Err(message) => {
            return Err(koto_error(concat2("Serialization error: ", message.as_str())));
        },
    };
    match json_to_yaml_string(&json) {
        Ok(text) => Ok(kvalue_from_string(text)),
        Err(message) => Err(koto_error(concat2("Serialization error: ", message.as_str()))),
    }
}

/// `serde.from_yaml`: YAML text parsed into a koto value.
fn from_yaml_entry(ctx: &mut CallContext<'_>) -> Result<KValue, koto::runtime::Error> {
    let args = ctx_args(ctx);
    if args.len() == 0 {
        return Err(koto_error("expected a YAML string".to_owned()));
    }
    match kvalue_as_str(&args[0]) {
        Some(text) => {
            let parsed = match yaml_parse(text.as_str()) {
                Ok(parsed) => parsed,
                Err(message) => {
                    return Err(koto_error(concat2("Failed to parse YAML: ", message.as_str())));
                },
            };
            let json = match yaml_value_to_json(parsed) {
                Ok(json) => json,
                Err(message) => {
                    return Err(koto_error(concat2("Failed to convert YAML: ", message.as_str())));
                },
            };
            match json_to_koto_value(json) {
                Ok(value) => Ok(value),
                Err(message) => Err(
                    koto_error(concat2("Failed to convert YAML: ", message.as_str())),
                ),
            }
        },
        None => Err(koto_error("expected a YAML string".to_owned())),
    }
}

/// Relies on `KNativeFunction::new`: wraps [`echo_entry`] as a binding.
#[verifier::external_body]
fn native_echo() -> (r: KValue) {
    KValue::NativeFunction(KNativeFunction::new(echo_entry))
}

/// Relies on `KNativeFunction::new`: wraps [`now_entry`] as a binding.
#[verifier::external_body]
fn native_now() -> (r: KValue) {
    KValue::NativeFunction(KNativeFunction::new(now_entry))
}

/// Relies on `KNativeFunction::new`: wraps [`uuid_entry`] as a binding.
#[verifier::external_body]
fn native_uuid_v4() -> (r: KValue) {
    KValue::NativeFunction(KNativeFunction::new(uuid_entry))
}

/// Relies on `KNativeFunction::new`: wraps [`log_info_entry`] as a binding.
#[verifier::external_body]
fn native_log_info() -> (r: KValue) {
    KValue::NativeFunction(KNativeFunction::new(log_info_entry))
}

/// Relies on `KNativeFunction::new`: wraps [`profiling_enabled_entry`],
/// capturing the host's shared flag.
#[verifier::external_body]
fn native_profiling_enabled(flag: &SharedFlag) -> (r: KValue) {
    let flag = flag.clone();
    KValue::NativeFunction(KNativeFunction::new(move |ctx| profiling_enabled_entry(&flag, ctx)))
}

/// Relies on `KNativeFunction::new`: wraps [`now_ms_entry`] as a binding.
#[verifier::external_body]
fn native_now_ms() -> (r: KValue) {
    KValue::NativeFunction(KNativeFunction::new(now_ms_entry))
}

/// Relies on `KNativeFunction::new`: wraps [`fast_fib_entry`] as a binding.
#[verifier::external_body]
fn native_fast_fib() -> (r: KValue) {
    KValue::NativeFunction(KNativeFunction::new(fast_fib_entry))
}

/// Relies on `KNativeFunction::new`: wraps [`print_entry`], capturing the
/// host's capture buffer.
#[verifier::external_body]
pub(crate) fn native_print(buf: &SharedBuffer) -> (r: KValue) {
    let buf = buf.clone();
    KValue::NativeFunction(KNativeFunction::new(move |ctx| print_entry(&buf, ctx)))
}

/// Relies on `KNativeFunction::new`: wraps [`to_json_entry`] as a binding.
#[verifier::external_body]
fn native_to_json() -> (r: KValue) {
    KValue::NativeFunction(KNativeFunction::new(to_json_entry))
}

/// Relies on `KNativeFunction::new`: wraps [`from_json_entry`] as a binding.
#[verifier::external_body]
fn native_from_json() -> (r: KValue) {
    KValue::NativeFunction(KNativeFunction::new(from_json_entry))
}

/// Relies on `KNativeFunction::new`: wraps [`to_yaml_entry`] as a binding.
#[verifier::external_body]
fn native_to_yaml() -> (r: KValue) {
    KValue::NativeFunction(KNativeFunction::new(to_yaml_entry))
}

/// Relies on `KNativeFunction::new`: wraps [`from_yaml_entry`] as a binding.
#[verifier::external_body]
fn native_from_yaml() -> (r: KValue) {
    KValue::NativeFunction(KNativeFunction::new(from_yaml_entry))
}

/// The names of a module-entry list, in order.
pub open spec fn entry_names(s: Seq<(String, KValue)>) -> Seq<Seq<char>> {
    s.map_values(|p: (String, KValue)| p.0@)
}

/// The entries of the `performance` sub-namespace: the millisecond clock and
/// the reference benchmark.
pub fn performance_module_entries() -> (r: Vec<(String, KValue)>)
    ensures
        entry_names(r@) =~= seq!["now_ms"@, "fast_fib"@],
{
    let mut entries: Vec<(String, KValue)> = Vec::new();
    entries.push(("now_ms".to_owned(), native_now_ms()));
    entries.push(("fast_fib".to_owned(), native_fast_fib()));
    entries
}

/// The entries of the `host` namespace: a version string, the echo function,
/// the profiling query, the coarse and millisecond clocks, the identifier
/// generator, the logging sink, and the performance sub-namespace.
pub fn host_module_entries(profiling_flag: &SharedFlag) -> (r: Vec<(String, KValue)>)
    ensures
        entry_names(r@) =~= seq![
            "version"@,
            "echo"@,
            "profiling_enabled"@,
            "now"@,
            "uuid_v4"@,
            "log_info"@,
            "performance"@,
        ],
{
    let mut entries: Vec<(String, KValue)> = Vec::new();
    entries.push(("version".to_owned(), kvalue_from_string("0.1.0".to_owned())));
    entries.push(("echo".to_owned(), native_echo()));
    entries.push(("profiling_enabled".to_owned(), native_profiling_enabled(profiling_flag)));
    entries.push(("now".to_owned(), native_now()));
    entries.push(("uuid_v4".to_owned(), native_uuid_v4()));
    entries.push(("log_info".to_owned(), native_log_info()));
    entries.push(
        ("performance".to_owned(), kvalue_from_map(kmap_from_entries(performance_module_entries()))),
    );
    entries
}

/// The entries of the `serde` namespace: text to structured value and back,
/// in JSON and YAML.
pub fn serialization_module_entries() -> (r: Vec<(String, KValue)>)
    ensures
        entry_names(r@) =~= seq!["to_json"@, "from_json"@, "to_yaml"@, "from_yaml"@],
{
    let mut entries: Vec<(String, KValue)> = Vec::new();
    entries.push(("to_json".to_owned(), native_to_json()));
    entries.push(("from_json".to_owned(), native_from_json()));
    entries.push(("to_yaml".to_owned(), native_to_yaml()));
    entries.push(("from_yaml".to_owned(), native_from_yaml()));
    entries
}

/// Inserts every entry into a fresh koto map, in order.
pub fn kmap_from_entries(entries: Vec<(String, KValue)>) -> (r: KMap) {
    let m = kmap_new();
    let n = entries.len();
    let mut remaining = entries;
    let mut i: usize = 0;
    while i < n
        invariant
            remaining@.len() + i == n,
        decreases n - i,
    {
        let (name, value) = remaining.remove(0);
        kmap_insert(&m, name.as_str(), value);
        i = i + 1;
    }
    m
}

/// Assembles the `host` namespace; its entry list and names are fixed by
/// [`host_module_entries`].
pub(crate) fn build_host_module(profiling_flag: &SharedFlag) -> (r: KMap) {
    kmap_from_entries(host_module_entries(profiling_flag))
}

/// Assembles the `serde` namespace; its entry list and names are fixed by
/// [`serialization_module_entries`].
pub(crate) fn build_serialization_module() -> (r: KMap) {
    kmap_from_entries(serialization_module_entries())
}

} // verus!
