//! The execution host: owns one embedded interpreter instance, drives script
//! runs with captured output and an optional wall-clock execution limit, and
//! keeps a registry of host bindings that survives every rebuild of the
//! interpreter.
//!
//! Output capture: the host owns shared buffers and binds its own `print`
//! (in the prelude, and inside the embedded `io` namespace) that writes to
//! them; both buffers are cleared before a run and drained exactly once per
//! run, whether the run succeeds or fails. This is a deliberate narrowing:
//! the interpreter's own stdout/stderr handles are not redirected, so a
//! script writing through `io.stdout()` or `io.stderr()` directly reaches
//! the process streams, and the error buffer carries only what the host
//! routes there.
//!
//! Rebuilds: changing the execution limit tears the interpreter down and
//! builds a bare one, so the host then replays every registered binding; the
//! registry itself is never touched by a rebuild, which is what makes
//! "bindings survive a limit change" a property of this type rather than a
//! hope about call order.

use vstd::prelude::*;
use vstd::pervasive::VecAdditionalExecFns;

use koto::runtime::{KMap, KValue};

use crate::builtins::{build_host_module, build_serialization_module, native_print};
use crate::text::concat2;
use crate::vm::{
    buffer_clear, buffer_take, buffer_new, exports_entries, flag_new, flag_set, kmap_insert,
    kvalue_clone, kvalue_from_map, kvalue_is_null, now_millis, prelude_get_map, prelude_insert,
    vm_call_instance, vm_new, vm_render_value, vm_run, SharedBuffer, SharedFlag,
};

verus! {

/// An error surfaced by the execution host.
#[derive(Debug)]
pub enum HostError {
    /// Compile or runtime failure inside the interpreter, carrying its
    /// diagnostic text.
    Execution { message: String },
    /// A native extension library could not be opened.
    ExtensionLoad { path: String, message: String },
    /// A native extension library lacks the expected entry-point symbol.
    ExtensionMissingSymbol { path: String },
    /// A native extension's entry point reported failure.
    ExtensionRegistration { path: String },
}

/// Mathematical value of a [`HostError`].
#[verifier::ext_equal]
pub enum HostErrorModel {
    Execution { message: Seq<char> },
    ExtensionLoad { path: Seq<char>, message: Seq<char> },
    ExtensionMissingSymbol { path: Seq<char> },
    ExtensionRegistration { path: Seq<char> },
}

impl View for HostError {
    type V = HostErrorModel;

    open spec fn view(&self) -> HostErrorModel {
        match self {
            HostError::Execution { message } => HostErrorModel::Execution { message: message@ },
            HostError::ExtensionLoad { path, message } => HostErrorModel::ExtensionLoad {
                path: path@,
                message: message@,
            },
            HostError::ExtensionMissingSymbol { path } => HostErrorModel::ExtensionMissingSymbol {
                path: path@,
            },
            HostError::ExtensionRegistration { path } => HostErrorModel::ExtensionRegistration {
                path: path@,
            },
        }
    }
}

impl Clone for HostError {
    fn clone(&self) -> (r: Self)
        ensures
            r@ == self@,
    {
        match self {
            HostError::Execution { message } => HostError::Execution { message: message.clone() },
            HostError::ExtensionLoad { path, message } => HostError::ExtensionLoad {
                path: path.clone(),
                message: message.clone(),
            },
            HostError::ExtensionMissingSymbol { path } => HostError::ExtensionMissingSymbol {
                path: path.clone(),
            },
            HostError::ExtensionRegistration { path } => HostError::ExtensionRegistration {
                path: path.clone(),
            },
        }
    }
}

impl HostError {
    /// A human-readable description of the error.
    pub fn message(&self) -> (r: String)
        ensures
            match self@ {
                HostErrorModel::Execution { message } => r@ == message,
                HostErrorModel::ExtensionLoad { path, message } => r@
                    == "failed to load native extension "@ + path + ": "@ + message,
                HostErrorModel::ExtensionMissingSymbol { path } => r@
                    == "native extension is missing koto_register: "@ + path,
                HostErrorModel::ExtensionRegistration { path } => r@
                    == "native extension reported registration failure: "@ + path,
            },
    {
        match self {
            HostError::Execution { message } => message.clone(),
            HostError::ExtensionLoad { path, message } => {
                let head = concat2("failed to load native extension ", path.as_str());
                let r = concat2(head.as_str(), concat2(": ", message.as_str()).as_str());
                proof {
                    assert(r@ =~= "failed to load native extension "@ + path@ + ": "@
                        + message@);
                }
                r
            },
            HostError::ExtensionMissingSymbol { path } => {
                concat2("native extension is missing koto_register: ", path.as_str())
            },
            HostError::ExtensionRegistration { path } => {
                concat2("native extension reported registration failure: ", path.as_str())
            },
        }
    }
}

/// What one script run produced.
#[derive(Debug)]
pub struct ExecutionOutput {
    /// The run's result rendered as text; `None` when the script's value was
    /// the absent value.
    pub return_value: Option<String>,
    /// Everything the run printed, drained from the capture buffer.
    pub stdout: String,
    /// Everything the run wrote to the error buffer.
    pub stderr: String,
    /// Wall-clock time of the run, in milliseconds.
    pub duration_ms: u64,
    /// The raw result value; `None` when it was the absent value.
    pub value: Option<KValue>,
}

/// The mathematical value of a binding list: (name, value) pairs in
/// registration order.
pub open spec fn bindings_model(s: Seq<(String, KValue)>) -> Seq<(Seq<char>, KValue)> {
    s.map_values(|p: (String, KValue)| (p.0@, p.1))
}

/// The names of a binding list, in order.
pub open spec fn binding_names(s: Seq<(Seq<char>, KValue)>) -> Seq<Seq<char>> {
    s.map_values(|p: (Seq<char>, KValue)| p.0)
}

/// The position of a name in a binding list.
pub open spec fn binding_index(s: Seq<(Seq<char>, KValue)>, name: Seq<char>) -> Option<int>
    decreases s.len(),
{
    if s.len() == 0 {
        None
    } else if s[0].0 == name {
        Some(0int)
    } else {
        match binding_index(s.drop_first(), name) {
            Some(i) => Some(i + 1),
            None => None,
        }
    }
}

/// A binding list after one registration: last write wins by name, a new
/// name goes to the end.
pub open spec fn spec_upsert(
    s: Seq<(Seq<char>, KValue)>,
    name: Seq<char>,
    value: KValue,
) -> Seq<(Seq<char>, KValue)> {
    match binding_index(s, name) {
        Some(i) => s.update(i, (name, value)),
        None => s.push((name, value)),
    }
}

proof fn lemma_binding_index_found(s: Seq<(Seq<char>, KValue)>, name: Seq<char>, i: int)
    requires
        0 <= i < s.len(),
        forall|j: int| 0 <= j < i ==> s[j].0 != name,
        s[i].0 == name,
    ensures
        binding_index(s, name) == Some(i),
    decreases i,
{
    if i == 0 {
    } else {
        let rest = s.drop_first();
        assert(forall|j: int| 0 <= j < rest.len() ==> rest[j] == s[j + 1]);
        lemma_binding_index_found(rest, name, i - 1);
    }
}

proof fn lemma_binding_index_none(s: Seq<(Seq<char>, KValue)>, name: Seq<char>)
    requires
        forall|j: int| 0 <= j < s.len() ==> s[j].0 != name,
    ensures
        binding_index(s, name) is None,
    decreases s.len(),
{
    if s.len() == 0 {
    } else {
        let rest = s.drop_first();
        assert(forall|j: int| 0 <= j < rest.len() ==> rest[j] == s[j + 1]);
        lemma_binding_index_none(rest, name);
    }
}

/// The position of a name in a binding list.
fn find_binding(v: &Vec<(String, KValue)>, name: &String) -> (r: Option<usize>)
    ensures
        match r {
            Some(i) => i < v@.len() && binding_index(bindings_model(v@), name@) == Some(i as int),
            None => binding_index(bindings_model(v@), name@) is None,
        },
{
    let ghost bs = bindings_model(v@);
    let mut i: usize = 0;
    while i < v.len()
        invariant
            i <= v@.len(),
            bs == bindings_model(v@),
            forall|j: int| 0 <= j < i as int ==> bs[j].0 != name@,
        decreases v@.len() - i,
    {
        if v[i].0 == *name {
            proof {
                assert(bs[i as int].0 == name@);
                lemma_binding_index_found(bs, name@, i as int);
            }
            return Some(i);
        }
        i = i + 1;
    }
    proof {
        lemma_binding_index_none(bs, name@);
    }
    None
}

/// Mathematical value of a [`Runtime`].
#[verifier::ext_equal]
pub struct RuntimeModel {
    /// The configured wall-clock limit for one run, in milliseconds.
    pub execution_limit_ms: Option<u64>,
    /// Whether the interpreter runs a script's own test exports.
    pub run_tests: bool,
    /// Whether runs are wrapped in a profiling scope.
    pub profiling_enabled: bool,
    /// The host-binding registry, in registration order.
    pub bindings: Seq<(Seq<char>, KValue)>,
    /// Paths of the native extensions retained for the process lifetime.
    pub extensions: Seq<Seq<char>>,
}

/// The execution host. All interpreter access goes through `&mut self`, so
/// two runs can never interleave.
pub struct Runtime {
    vm: koto::Koto,
    stdout_buf: SharedBuffer,
    stderr_buf: SharedBuffer,
    profiling_flag: SharedFlag,
    profiling_enabled: bool,
    execution_limit_ms: Option<u64>,
    run_tests: bool,
    host_bindings: Vec<(String, KValue)>,
    extensions: Vec<String>,
}

impl View for Runtime {
    type V = RuntimeModel;

    closed spec fn view(&self) -> RuntimeModel {
        RuntimeModel {
            execution_limit_ms: self.execution_limit_ms,
            run_tests: self.run_tests,
            profiling_enabled: self.profiling_enabled,
            bindings: bindings_model(self.host_bindings@),
            extensions: self.extensions.deep_view(),
        }
    }
}

/// The outcome of the caller's attempt to open and register one native
/// extension library; opening and the entry-point call happen outside this
/// crate, and the host records the result.
pub enum ExtensionLoadOutcome {
    /// The library could not be opened.
    OpenFailed { message: String },
    /// The library lacks the `koto_register` entry point.
    MissingSymbol,
    /// The entry point ran and reported failure.
    RegistrationFailed,
    /// The entry point ran and reported success.
    Registered,
}

impl Runtime {
    /// Builds a host with no execution limit, test running off, profiling
    /// off, and the standard bindings registered: the capturing `print`,
    /// the `host` namespace and the `serde` namespace.
    pub fn new() -> (r: Result<Runtime, HostError>)
        ensures
            r is Ok,
            r matches Ok(rt) ==> {
                &&& rt@.execution_limit_ms is None
                &&& !rt@.run_tests
                &&& !rt@.profiling_enabled
                &&& binding_names(rt@.bindings) =~= seq!["print"@, "host"@, "serde"@]
                &&& rt@.extensions =~= Seq::<Seq<char>>::empty()
            },
    {
        broadcast use vstd::string::group_string_axioms;

        let stdout_buf = buffer_new();
        let stderr_buf = buffer_new();
        let profiling_flag = flag_new(false);
        let print_value = native_print(&stdout_buf);
        let host_module = build_host_module(&profiling_flag);
        let serde_module = build_serialization_module();
        let mut rt = Runtime {
            vm: vm_new(None, false),
            stdout_buf,
            stderr_buf,
            profiling_flag,
            profiling_enabled: false,
            execution_limit_ms: None,
            run_tests: false,
            host_bindings: Vec::new(),
            extensions: Vec::new(),
        };
        proof {
            assert(bindings_model(rt.host_bindings@) =~= Seq::<(Seq<char>, KValue)>::empty());
            assert(rt.extensions.deep_view() =~= Seq::<Seq<char>>::empty());
            reveal_strlit("print");
            reveal_strlit("host");
            reveal_strlit("serde");
        }
        rt.register_host_value("print", print_value);
        proof {
            assert(binding_index(Seq::<(Seq<char>, KValue)>::empty(), "print"@) is None);
            assert(binding_names(rt@.bindings) =~= seq!["print"@]);
        }
        let ghost b1 = rt@.bindings;
        rt.register_host_value("host", kvalue_from_map(host_module));
        proof {
            assert(b1.drop_first() =~= Seq::<(Seq<char>, KValue)>::empty());
            assert(b1[0].0 == binding_names(b1)[0]);
            assert(b1[0].0 != "host"@);
            assert(binding_index(b1.drop_first(), "host"@) is None);
            assert(binding_index(b1, "host"@) is None);
            assert(binding_names(rt@.bindings) =~= seq!["print"@, "host"@]);
        }
        let ghost b2 = rt@.bindings;
        rt.register_host_value("serde", kvalue_from_map(serde_module));
        proof {
            assert(b2.drop_first().drop_first() =~= Seq::<(Seq<char>, KValue)>::empty());
            assert(b2[0].0 == binding_names(b2)[0]);
            assert(b2[1].0 == binding_names(b2)[1]);
            assert("print"@[0] == 'p');
            assert("serde"@[0] == 's');
            assert("host"@[0] == 'h');
            assert(b2[0].0 != "serde"@);
            assert(b2[1].0 != "serde"@);
            assert(b2.drop_first()[0] == b2[1]);
            assert(binding_index(b2.drop_first().drop_first(), "serde"@) is None);
            assert(binding_index(b2.drop_first(), "serde"@) is None);
            assert(binding_index(b2, "serde"@) is None);
            assert(binding_names(rt@.bindings) =~= seq!["print"@, "host"@, "serde"@]);
        }
        rt.patch_io_print();
        Ok(rt)
    }

    /// Binds its own capturing `print` inside the embedded `io` namespace,
    /// so that `io.print` is captured like the prelude's `print`.
    fn patch_io_print(&self) {
        match prelude_get_map(&self.vm, "io") {
            Some(io_map) => {
                kmap_insert(&io_map, "print", native_print(&self.stdout_buf));
            },
            None => {},
        }
    }

    /// Inserts a value into the interpreter's prelude *and* into the
    /// host-binding registry that survives interpreter rebuilds; idempotent
    /// by name, last write wins.
    pub fn register_host_value(&mut self, name: &str, value: KValue)
        ensures
            final(self)@ == (RuntimeModel {
                bindings: spec_upsert(old(self)@.bindings, name@, value),
                ..old(self)@
            }),
    {
        prelude_insert(&self.vm, name, kvalue_clone(&value));
        let name_owned = name.to_owned();
        let ghost bs = bindings_model(self.host_bindings@);
        match find_binding(&self.host_bindings, &name_owned) {
            Some(i) => {
                self.host_bindings.set(i, (name_owned, value));
                proof {
                    assert(bindings_model(self.host_bindings@) =~= bs.update(
                        binding_index(bs, name@)->Some_0,
                        (name@, value),
                    ));
                    assert(final(self)@ =~= RuntimeModel {
                        bindings: spec_upsert(old(self)@.bindings, name@, value),
                        ..old(self)@
                    });
                }
            },
            None => {
                self.host_bindings.push((name_owned, value));
                proof {
                    assert(bindings_model(self.host_bindings@) =~= bs.push((name@, value)));
                    assert(final(self)@ =~= RuntimeModel {
                        bindings: spec_upsert(old(self)@.bindings, name@, value),
                        ..old(self)@
                    });
                }
            },
        }
    }

    /// Inserts a host function - any closure with the interpreter's native
    /// calling convention - into the prelude and the registry.
    pub fn register_host_function<F>(&mut self, name: &str, function: F) where
        F: for<'a> Fn(&mut koto::runtime::CallContext<'a>) -> Result<
            KValue,
            koto::runtime::Error,
        > + 'static,

        ensures
            exists|v: KValue|
                final(self)@ == (RuntimeModel {
                    bindings: #[trigger] spec_upsert(old(self)@.bindings, name@, v),
                    ..old(self)@
                }),
    {
        let value = native_function_value(function);
        self.register_host_value(name, value);
        proof {
            assert(final(self)@ == (RuntimeModel {
                bindings: spec_upsert(old(self)@.bindings, name@, value),
                ..old(self)@
            }));
        }
    }

    /// Registers a module map as a host binding.
    pub fn register_host_module(&mut self, name: &str, module: KMap)
        ensures
            exists|v: KValue|
                final(self)@ == (RuntimeModel {
                    bindings: #[trigger] spec_upsert(old(self)@.bindings, name@, v),
                    ..old(self)@
                }),
    {
        let value = kvalue_from_map(module);
        self.register_host_value(name, value);
        proof {
            assert(final(self)@ == (RuntimeModel {
                bindings: spec_upsert(old(self)@.bindings, name@, value),
                ..old(self)@
            }));
        }
    }

    /// Tears the interpreter down, builds a bare one under the current
    /// configuration, replays every registered host binding onto it, and
    /// re-binds the capturing `print` inside `io`.
    fn rebuild_vm(&mut self)
        ensures
            final(self)@ == old(self)@,
    {
        self.vm = vm_new(self.execution_limit_ms, self.run_tests);
        let mut i: usize = 0;
        while i < self.host_bindings.len()
            invariant
                self@ == old(self)@,
            decreases self.host_bindings@.len() - i,
        {
            let entry_value = kvalue_clone(&self.host_bindings[i].1);
            prelude_insert(&self.vm, self.host_bindings[i].0.as_str(), entry_value);
            i = i + 1;
        }
        self.patch_io_print();
    }

    /// Compiles and runs a script under the given wall-clock limit. When the
    /// requested limit differs from the configured one, the interpreter is
    /// rebuilt first, replaying all host bindings - the registry itself is
    /// left exactly as it was. Both capture buffers are cleared before the
    /// run and drained exactly once afterwards, whether the run succeeded
    /// or not; a run whose result is the absent value yields no return
    /// value text.
    pub fn execute_script_with_timeout(&mut self, script: &str, timeout_ms: Option<u64>) -> (r:
        Result<ExecutionOutput, HostError>)
        ensures
            final(self)@ == (RuntimeModel { execution_limit_ms: timeout_ms, ..old(self)@ }),
            r matches Err(e) ==> e@ is Execution,
            r matches Ok(out) ==> ((out.return_value is Some) <==> (out.value is Some)),
    {
        let same = match (&self.execution_limit_ms, &timeout_ms) {
            (Some(a), Some(b)) => *a == *b,
            (None, None) => true,
            _ => false,
        };
        if !same {
            self.execution_limit_ms = timeout_ms;
            self.rebuild_vm();
        }
        buffer_clear(&self.stdout_buf);
        buffer_clear(&self.stderr_buf);
        let started = now_millis();
        let result = vm_run(&mut self.vm, script);
        let ended = now_millis();
        let duration_ms = if ended >= started {
            ended - started
        } else {
            0
        };
        let stdout = buffer_take(&self.stdout_buf);
        let stderr = buffer_take(&self.stderr_buf);
        match result {
            Ok(value) => {
                if kvalue_is_null(&value) {
                    Ok(ExecutionOutput {
                        return_value: None,
                        stdout,
                        stderr,
                        duration_ms,
                        value: None,
                    })
                } else {
                    match vm_render_value(&mut self.vm, kvalue_clone(&value)) {
                        Ok(rendered) => Ok(ExecutionOutput {
                            return_value: Some(rendered),
                            stdout,
                            stderr,
                            duration_ms,
                            value: Some(value),
                        }),
                        Err(message) => Err(HostError::Execution { message }),
                    }
                }
            },
            Err(message) => Err(HostError::Execution { message }),
        }
    }

    /// Runs a script with no wall-clock limit.
    pub fn execute_script(&mut self, script: &str) -> (r: Result<ExecutionOutput, HostError>)
        ensures
            final(self)@ == (RuntimeModel { execution_limit_ms: None, ..old(self)@ }),
            r matches Err(e) ==> e@ is Execution,
            r matches Ok(out) ==> ((out.return_value is Some) <==> (out.value is Some)),
    {
        self.execute_script_with_timeout(script, None)
    }

    /// Changes the execution limit, rebuilding the interpreter and replaying
    /// all host bindings; the binding registry is untouched, so everything
    /// registered before the change remains callable after it.
    pub fn set_execution_timeout(&mut self, limit_ms: Option<u64>)
        ensures
            final(self)@ == (RuntimeModel { execution_limit_ms: limit_ms, ..old(self)@ }),
    {
        self.execution_limit_ms = limit_ms;
        self.rebuild_vm();
    }

    /// Switches per-run profiling on or off; consulted at each execution.
    pub fn set_profiling_enabled(&mut self, enabled: bool)
        ensures
            final(self)@ == (RuntimeModel { profiling_enabled: enabled, ..old(self)@ }),
    {
        self.profiling_enabled = enabled;
        flag_set(&self.profiling_flag, enabled);
    }

    /// Empties both capture buffers.
    pub fn clear_output(&self) {
        buffer_clear(&self.stdout_buf);
        buffer_clear(&self.stderr_buf);
    }

    /// Drains everything printed since the last drain.
    pub fn take_stdout(&self) -> String {
        buffer_take(&self.stdout_buf)
    }

    /// Drains everything written to the error buffer since the last drain.
    /// Nothing routes script output here - the interpreter's own stderr
    /// handle is not redirected - so this is empty unless the host itself
    /// wrote to the buffer.
    pub fn take_stderr(&self) -> String {
        buffer_take(&self.stderr_buf)
    }

    /// The values the last run exported, as (name, value) pairs in export
    /// order, which follows declaration order in the script.
    pub fn exports(&self) -> Vec<(String, KValue)> {
        exports_entries(&self.vm)
    }

    /// Calls `function` with `instance` bound as its implicit receiver,
    /// returning the interpreter's diagnostic text on failure.
    pub fn call_instance(&mut self, instance: &KValue, function: &KValue) -> (r: Result<
        (),
        String,
    >)
        ensures
            final(self)@ == old(self)@,
    {
        vm_call_instance(&mut self.vm, instance, function)
    }

    /// Records the outcome of one native-extension load. Only a successful
    /// registration changes the host: the library's path joins the retained
    /// list. Every failure leaves the host exactly as it was and is returned
    /// as the matching typed error.
    pub fn apply_extension_load(&mut self, path: &str, outcome: ExtensionLoadOutcome) -> (r:
        Result<(), HostError>)
        ensures
            match outcome {
                ExtensionLoadOutcome::Registered => r is Ok && final(self)@ == (RuntimeModel {
                    extensions: old(self)@.extensions.push(path@),
                    ..old(self)@
                }),
                ExtensionLoadOutcome::OpenFailed { message } => r matches Err(e)
                    && e@ == (HostErrorModel::ExtensionLoad { path: path@, message: message@ })
                    && final(self)@ == old(self)@,
                ExtensionLoadOutcome::MissingSymbol => r matches Err(e)
                    && e@ == (HostErrorModel::ExtensionMissingSymbol { path: path@ })
                    && final(self)@ == old(self)@,
                ExtensionLoadOutcome::RegistrationFailed => r matches Err(e)
                    && e@ == (HostErrorModel::ExtensionRegistration { path: path@ })
                    && final(self)@ == old(self)@,
            },
    {
        match outcome {
            ExtensionLoadOutcome::Registered => {
                self.extensions.push(path.to_owned());
                proof {
                    assert(self.extensions.deep_view() =~= old(self)@.extensions.push(path@));
                    assert(final(self)@ =~= RuntimeModel {
                        extensions: old(self)@.extensions.push(path@),
                        ..old(self)@
                    });
                }
                Ok(())
            },
            ExtensionLoadOutcome::OpenFailed { message } => Err(
                HostError::ExtensionLoad { path: path.to_owned(), message },
            ),
            ExtensionLoadOutcome::MissingSymbol => Err(
                HostError::ExtensionMissingSymbol { path: path.to_owned() },
            ),
            ExtensionLoadOutcome::RegistrationFailed => Err(
                HostError::ExtensionRegistration { path: path.to_owned() },
            ),
        }
    }
}

/// Relies on `KNativeFunction::new`: wraps a host closure as a binding
/// value.
#[verifier::external_body]
fn native_function_value<F>(function: F) -> (r: KValue) where
    F: for<'a> Fn(&mut koto::runtime::CallContext<'a>) -> Result<
        KValue,
        koto::runtime::Error,
    > + 'static,
 {
    KValue::NativeFunction(koto::runtime::KNativeFunction::new(function))
}

/// A by-value handle to one execution host, passed to whoever runs scripts.
pub struct Executor {
    pub runtime: Runtime,
}

impl View for Executor {
    type V = RuntimeModel;

    closed spec fn view(&self) -> RuntimeModel {
        self.runtime@
    }
}

impl Executor {
    /// An executor around a freshly built host.
    pub fn new() -> (r: Executor)
        ensures
            r@.execution_limit_ms is None,
            !r@.run_tests,
            !r@.profiling_enabled,
    {
        match Runtime::new() {
            Ok(runtime) => Executor { runtime },
            Err(_) => vstd::pervasive::unreached(),
        }
    }

    /// An executor around an existing host.
    pub fn with_runtime(runtime: Runtime) -> (r: Executor)
        ensures
            r@ == runtime@,
    {
        Executor { runtime }
    }

    /// The underlying host.
    pub fn runtime(&self) -> (r: &Runtime)
        ensures
            r@ == self@,
    {
        &self.runtime
    }

    /// Runs a script with no wall-clock limit.
    pub fn execute_script(&mut self, script: &str) -> (r: Result<ExecutionOutput, HostError>)
        ensures
            final(self)@ == (RuntimeModel { execution_limit_ms: None, ..old(self)@ }),
            r matches Err(e) ==> e@ is Execution,
    {
        self.runtime.execute_script(script)
    }

    /// Runs a script under the given wall-clock limit.
    pub fn execute_script_with_timeout(&mut self, script: &str, timeout_ms: Option<u64>) -> (r:
        Result<ExecutionOutput, HostError>)
        ensures
            final(self)@ == (RuntimeModel { execution_limit_ms: timeout_ms, ..old(self)@ }),
            r matches Err(e) ==> e@ is Execution,
            r matches Ok(out) ==> ((out.return_value is Some) <==> (out.value is Some)),
    {
        self.runtime.execute_script_with_timeout(script, timeout_ms)
    }
}

impl Default for Executor {
    /// An executor around a freshly built host.
    fn default() -> (r: Executor)
        ensures
            r@.execution_limit_ms is None,
            !r@.run_tests,
            !r@.profiling_enabled,
    {
        Executor::new()
    }
}

} // verus!
