//! What the sandbox of one request is made of: its limits, the events that
//! a script may listen to, how `require` finds a module in the bundle, and
//! the extensions that are installed.

use vstd::prelude::*;
use vstd::string::*;
use crate::bundle::{spec_find_path, Bundle, File};
use crate::decimal::{decimal_of_u64, spec_digits};
use crate::error::{ScriptError, ScriptErrorKind};
use crate::http::utf8_text;
use crate::text::{chars_of, str_eq, tail_eq};

verus! {

/// The most memory that one sandbox may hold: 128 MiB.
pub const MEMORY_LIMIT: usize = 134_217_728;

/// Seconds that the entry point of a bundle may run while it registers its
/// handlers.
pub const REGISTRATION_LIMIT: u64 = 1;

/// The length of a second in the unit of the clock, which counts
/// nanoseconds.
pub const TICKS_PER_SECOND: u64 = 1_000_000_000;

/// The clock of a sandbox: when it was started and how many seconds the
/// script may run. Moments are readings of a clock that never goes back.
#[derive(Clone, Copy, Debug, PartialEq, Eq, Structural)]
pub struct Timer {
    pub start_time: Option<u64>,
    pub time_limit: Option<u64>,
}

/// The time that has passed from `start` to `now`, in the unit of the
/// clock; none where `now` is not later.
pub open spec fn spec_elapsed(start: u64, now: u64) -> int {
    if now <= start {
        0
    } else {
        now - start
    }
}

/// What a script is told when its time is up.
pub open spec fn timeout_text(limit: u64) -> Seq<char> {
    "Script timed out, limit is "@ + spec_digits(limit as nat) + " seconds."@
}

impl Timer {
    /// Whether the time of the script is up at `now`: the clock was
    /// started, there is a limit, and more time has passed than the limit
    /// allows, be it by one tick of the clock.
    pub open spec fn expired(self, now: u64) -> bool {
        match (self.start_time, self.time_limit) {
            (Some(start), Some(limit)) => spec_elapsed(start, now) > limit * TICKS_PER_SECOND,
            _ => false,
        }
    }

    /// A clock that was not started yet: no script is stopped by it.
    pub fn new(time_limit: Option<u64>) -> (timer: Timer)
        ensures
            timer == (Timer { start_time: None, time_limit }),
            forall|now: u64| !#[trigger] timer.expired(now),
    {
        Timer { start_time: None, time_limit }
    }

    /// The clock under which the entry point of a bundle runs: started at
    /// `now`, with one second to go, whatever the limit of the handler is.
    pub fn registration(now: u64) -> (timer: Timer)
        ensures
            timer == (Timer { start_time: Some(now), time_limit: Some(REGISTRATION_LIMIT) }),
            forall|later: u64|
                #[trigger] timer.expired(later) <==> later > now && later - now
                    > TICKS_PER_SECOND,
    {
        Timer { start_time: Some(now), time_limit: Some(REGISTRATION_LIMIT) }
    }

    /// The clock that is left when the entry point has run: the limit of
    /// the handler is kept, and the clock is not running, so that nothing
    /// is stopped until it is started.
    pub fn after_registration(time_limit: Option<u64>) -> (timer: Timer)
        ensures
            timer == (Timer { start_time: None, time_limit }),
            forall|now: u64| !#[trigger] timer.expired(now),
    {
        Timer::new(time_limit)
    }

    /// Starts the clock at `now`. A clock without a limit is left as it
    /// is.
    pub fn start_timer(&mut self, now: u64)
        ensures
            final(self).time_limit == old(self).time_limit,
            final(self).start_time == if old(self).time_limit is Some {
                Some(now)
            } else {
                old(self).start_time
            },
    {
        if self.time_limit.is_some() {
            self.start_time = Some(now);
        }
    }

    /// What a tick of the interpreter at `now` comes to: the script goes
    /// on, or it is stopped with the error that names the limit.
    pub fn check(&self, now: u64) -> (result: Result<(), ScriptError>)
        ensures
            result is Ok <==> !self.expired(now),
            result matches Err(error) ==> error.is(
                ScriptErrorKind::Runtime,
                timeout_text(self.time_limit.unwrap()),
            ),
    {
        match (self.start_time, self.time_limit) {
            (Some(start), Some(limit)) => {
                let elapsed: u64 = if now <= start {
                    0
                } else {
                    now - start
                };
                assert(limit * TICKS_PER_SECOND <= 0xFFFF_FFFF_FFFF_FFFF * 1_000_000_000)
                    by (nonlinear_arith)
                    requires
                        limit <= 0xFFFF_FFFF_FFFF_FFFF,
                        TICKS_PER_SECOND == 1_000_000_000,
                ;
                let allowed: u128 = (limit as u128) * (TICKS_PER_SECOND as u128);
                if (elapsed as u128) > allowed {
                    let mut message = String::from_str("Script timed out, limit is ");
                    message.append(decimal_of_u64(limit).as_str());
                    message.append(" seconds.");
                    Err(ScriptError::RuntimeError(message))
                } else {
                    Ok(())
                }
            },
            _ => Ok(()),
        }
    }
}

/// A script that runs on is stopped at the first tick that comes after its
/// limit, and at every tick after that: once the time is up it stays up.
/// Up to the limit it is not stopped.
pub proof fn lemma_timeout_is_certain(timer: Timer, start: u64, limit: u64, now: u64, later: u64)
    requires
        timer.start_time == Some(start),
        timer.time_limit == Some(limit),
        now >= start,
        later >= now,
    ensures
        now - start > limit * TICKS_PER_SECOND ==> timer.expired(now),
        now - start <= limit * TICKS_PER_SECOND ==> !timer.expired(now),
        timer.expired(now) ==> timer.expired(later),
{
}

/// Whether `event` is one that a script may listen to. The set is closed:
/// `fetch` and nothing else.
pub open spec fn spec_known_event(event: Seq<char>) -> bool {
    event == "fetch"@
}

/// The name of the registry slot that holds the listener of `event`.
pub open spec fn spec_listener_slot(event: Seq<char>) -> Seq<char> {
    "listener_"@ + event
}

/// The registry slot for the listener of `event`; an error where the event
/// is not known.
pub fn listener_slot(event: &str) -> (result: Result<String, ScriptError>)
    ensures
        match result {
            Ok(slot) => spec_known_event(event@) && slot@ == spec_listener_slot(event@),
            Err(error) => !spec_known_event(event@) && error.is(
                ScriptErrorKind::Runtime,
                "Invalid event specified."@,
            ),
        },
{
    if str_eq(event, "fetch") {
        let mut slot = String::from_str("listener_");
        slot.append(event);
        Ok(slot)
    } else {
        Err(ScriptError::runtime("Invalid event specified."))
    }
}

/// A path with every slash turned into a dot.
pub open spec fn spec_dotted(path: Seq<char>) -> Seq<char> {
    Seq::new(
        path.len(),
        |i: int|
            if path[i] == '/' {
                '.'
            } else {
                path[i]
            },
    )
}

/// A module name without the extension `.lua`, where it has it.
pub open spec fn spec_bare_name(name: Seq<char>) -> Seq<char> {
    if name.len() >= 4 && name.subrange(name.len() - 4, name.len() as int) == ".lua"@ {
        name.subrange(0, name.len() - 4)
    } else {
        name
    }
}

/// Whether the file at `path` is the module `name`: its dotted path is the
/// name, the name with `.lua` behind it, or the name without its `.lua`.
pub open spec fn spec_is_module(path: Seq<char>, name: Seq<char>) -> bool {
    let dotted = spec_dotted(path);
    dotted == name || dotted == name + ".lua"@ || dotted == spec_bare_name(name)
}

/// Index of the first file at or after `from` that is the module `name`,
/// or the number of files.
pub open spec fn spec_find_module(files: Seq<File>, name: Seq<char>, from: int) -> int
    decreases files.len() - from,
{
    if from < 0 || from >= files.len() {
        files.len() as int
    } else if spec_is_module(files[from].file_path@, name) {
        from
    } else {
        spec_find_module(files, name, from + 1)
    }
}

/// Whether the file at `path` is the module `name`.
pub fn is_module(path: &str, name: &str) -> (same: bool)
    ensures
        same == spec_is_module(path@, name@),
{
    let raw = chars_of(path);
    let mut dotted: Vec<char> = Vec::new();
    let mut i: usize = 0;
    while i < raw.len()
        invariant
            i <= raw.len(),
            raw@ == path@,
            dotted@ == spec_dotted(path@).subrange(0, i as int),
        decreases raw.len() - i,
    {
        let c: char = raw[i];
        dotted.push(
            if c == '/' {
                '.'
            } else {
                c
            },
        );
        assert(dotted@ =~= spec_dotted(path@).subrange(0, i + 1));
        i = i + 1;
    }
    assert(dotted@ =~= spec_dotted(path@));
    let plain = chars_of(name);
    proof {
        reveal_strlit(".lua");
    }
    let extension = chars_of(".lua");
    let mut longer: Vec<char> = Vec::new();
    let mut k: usize = 0;
    while k < plain.len()
        invariant
            k <= plain.len(),
            longer@ == plain@.subrange(0, k as int),
        decreases plain.len() - k,
    {
        longer.push(plain[k]);
        assert(longer@ =~= plain@.subrange(0, k + 1));
        k = k + 1;
    }
    assert(longer@ =~= plain@);
    longer.push('.');
    longer.push('l');
    longer.push('u');
    longer.push('a');
    assert(longer@ =~= name@ + ".lua"@);
    let n: usize = plain.len();
    let has_extension: bool = n >= 4 && tail_eq(&plain, n - 4, &extension);
    let mut bare: Vec<char> = Vec::new();
    let kept: usize = if has_extension {
        n - 4
    } else {
        n
    };
    let mut j: usize = 0;
    while j < kept
        invariant
            j <= kept <= plain.len(),
            bare@ == plain@.subrange(0, j as int),
        decreases kept - j,
    {
        bare.push(plain[j]);
        assert(bare@ =~= plain@.subrange(0, j + 1));
        j = j + 1;
    }
    assert(plain@.subrange(0, n as int) =~= plain@);
    assert(bare@ == spec_bare_name(name@));
    assert(dotted@.subrange(0, dotted.len() as int) =~= dotted@);
    tail_eq(&dotted, 0, &plain) || tail_eq(&dotted, 0, &longer) || tail_eq(&dotted, 0, &bare)
}

/// How a `require` is answered.
#[derive(Clone, Debug, PartialEq, Eq)]
pub enum RequirePlan {
    /// A file of the bundle is the module and was evaluated before: hand
    /// back what the registry holds under `key`, the path of the file.
    Cached { key: String },
    /// A file of the bundle is the module: evaluate it, keep the result in
    /// the registry under `key`, the path of the file, and hand it back.
    Load { file: usize, key: String },
    /// No file is the module: hand back what the registry holds under the
    /// name, which is where the extensions are.
    Registry { name: String },
}

/// Whether the file at `path` is among `loaded`.
pub open spec fn spec_cached(loaded: Seq<String>, path: Seq<char>) -> bool {
    exists|i: int| 0 <= i < loaded.len() && (#[trigger] loaded[i])@ == path
}

/// Whether `plan` answers a `require` of `name` rightly: the first file
/// that is the module decides, and it is evaluated only where it was not
/// evaluated before. `loaded` holds the paths of the files that were. Two
/// files never share what is kept: each is kept under its own path.
pub open spec fn plan_meets(
    plan: RequirePlan,
    files: Seq<File>,
    loaded: Seq<String>,
    name: Seq<char>,
) -> bool {
    let at = spec_find_module(files, name, 0);
    if 0 <= at < files.len() {
        if spec_cached(loaded, files[at].file_path@) {
            plan matches RequirePlan::Cached { key } && key@ == files[at].file_path@
        } else {
            plan matches RequirePlan::Load { file, key } && file == at && key@
                == files[at].file_path@
        }
    } else {
        plan matches RequirePlan::Registry { name: asked } && asked@ == name
    }
}

/// Decides how a `require` of `name` is answered, given the paths of the
/// files of the bundle that were evaluated so far.
pub fn plan_require(bundle: &Bundle, loaded: &Vec<String>, name: &str) -> (plan: RequirePlan)
    ensures
        plan_meets(plan, bundle.files@, loaded@, name@),
{
    let mut i: usize = 0;
    while i < bundle.files.len()
        invariant
            i <= bundle.files.len(),
            spec_find_module(bundle.files@, name@, 0) == spec_find_module(
                bundle.files@,
                name@,
                i as int,
            ),
        decreases bundle.files.len() - i,
    {
        let file = &bundle.files[i];
        if is_module(file.file_path.as_str(), name) {
            assert(spec_find_module(bundle.files@, name@, 0) == i);
            let mut k: usize = 0;
            while k < loaded.len()
                invariant
                    k <= loaded.len(),
                    i < bundle.files.len(),
                    *file == bundle.files[i as int],
                    spec_find_module(bundle.files@, name@, 0) == i,
                    forall|j: int| 0 <= j < k ==> (#[trigger] loaded[j])@ != file.file_path@,
                decreases loaded.len() - k,
            {
                if str_eq(loaded[k].as_str(), file.file_path.as_str()) {
                    assert(spec_cached(loaded@, bundle.files[i as int].file_path@));
                    return RequirePlan::Cached { key: file.file_path.clone() };
                }
                k = k + 1;
            }
            return RequirePlan::Load { file: i, key: file.file_path.clone() };
        }
        i = i + 1;
    }
    RequirePlan::Registry { name: String::from_str(name) }
}

/// A chunk of source code with the name under which it is loaded.
#[derive(Clone, Debug, PartialEq, Eq)]
pub struct LuaModule {
    /// Name or path of the module.
    pub name: String,
    /// Source code of the module.
    pub source: String,
}

/// What is said of a file that is no text.
pub open spec fn not_text() -> Seq<char> {
    "File is not valid UTF-8."@
}

impl LuaModule {
    /// A module with the name `name` and the source `source`.
    pub fn new(name: &str, source: &str) -> (module: LuaModule)
        ensures
            module.name@ == name@,
            module.source@ == source@,
    {
        LuaModule { name: String::from_str(name), source: String::from_str(source) }
    }

    /// The module that a file of a bundle is, loaded under `name`. A file
    /// whose bytes are not UTF-8 is no module.
    pub fn from_file(name: &str, file: &File) -> (result: Result<LuaModule, ScriptError>)
        ensures
            match result {
                Ok(module) => module.name@ == name@ && vstd::utf8::valid_utf8(file.content@)
                    && vstd::utf8::encode_utf8(module.source@) == file.content@,
                Err(error) => !vstd::utf8::valid_utf8(file.content@) && error.is(
                    ScriptErrorKind::Runtime,
                    not_text(),
                ),
            },
    {
        match utf8_text(&file.content) {
            Some(source) => Ok(LuaModule { name: String::from_str(name), source }),
            None => Err(ScriptError::runtime("File is not valid UTF-8.")),
        }
    }

    /// The bytes that the interpreter reads.
    pub fn source(&self) -> (bytes: Vec<u8>)
        ensures
            bytes@ == vstd::utf8::encode_utf8(self.source@),
    {
        self.source.as_str().as_bytes_vec()
    }

    /// The name that the interpreter shows in its messages.
    pub fn name(&self) -> (name: String)
        ensures
            name@ == self.name@,
    {
        self.name.clone()
    }
}

/// The module that the entry point of `bundle` is, if a file has its name;
/// an error where that file is no text.
pub fn entry_module(bundle: &Bundle) -> (result: Result<Option<LuaModule>, ScriptError>)
    ensures
        ({
            let at = crate::bundle::spec_find_name(bundle.files@, bundle.entry_point@, 0);
            match result {
                Ok(Some(module)) => 0 <= at < bundle.files.len() && module.name@
                    == bundle.files[at].file_name@ && vstd::utf8::encode_utf8(module.source@)
                    == bundle.files[at].content@,
                Ok(None) => at == bundle.files.len(),
                Err(error) => 0 <= at < bundle.files.len() && !vstd::utf8::valid_utf8(
                    bundle.files[at].content@,
                ) && error.is(ScriptErrorKind::Runtime, not_text()),
            }
        }),
{
    match bundle.entry_file() {
        Some(at) => {
            let file = &bundle.files[at];
            match LuaModule::from_file(file.file_name.as_str(), file) {
                Ok(module) => Ok(Some(module)),
                Err(error) => Err(error),
            }
        },
        None => Ok(None),
    }
}

/// The bytes of the file at exactly `path`, as `getfile` hands them out.
pub fn get_file(bundle: &Bundle, path: &str) -> (content: Option<Vec<u8>>)
    ensures
        ({
            let at = spec_find_path(bundle.files@, path@, 0);
            match content {
                Some(bytes) => 0 <= at < bundle.files.len() && bytes@ == bundle.files[at].content@,
                None => at == bundle.files.len(),
            }
        }),
{
    match bundle.find_by_path(path) {
        Some(at) => Some(bundle.files[at].content.clone()),
        None => None,
    }
}

/// The module that `dofile` evaluates for exactly `path`, under the name of
/// the file; nothing where no file has the path.
pub fn do_file(bundle: &Bundle, path: &str) -> (result: Result<Option<LuaModule>, ScriptError>)
    ensures
        ({
            let at = spec_find_path(bundle.files@, path@, 0);
            match result {
                Ok(Some(module)) => 0 <= at < bundle.files.len() && module.name@
                    == bundle.files[at].file_name@ && vstd::utf8::encode_utf8(module.source@)
                    == bundle.files[at].content@,
                Ok(None) => at == bundle.files.len(),
                Err(error) => 0 <= at < bundle.files.len() && !vstd::utf8::valid_utf8(
                    bundle.files[at].content@,
                ) && error.is(ScriptErrorKind::Runtime, not_text()),
            }
        }),
{
    match bundle.find_by_path(path) {
        Some(at) => {
            let file = &bundle.files[at];
            match LuaModule::from_file(file.file_name.as_str(), file) {
                Ok(module) => Ok(Some(module)),
                Err(error) => Err(error),
            }
        },
        None => Ok(None),
    }
}

/// What an extension says of itself.
#[derive(Clone, Copy, Debug, PartialEq, Eq)]
pub struct ExtensionInfo<'a> {
    /// Name of the extension.
    pub name: &'a str,
    /// Description of the extension.
    pub description: &'a str,
    /// Whether the extension is installed as a global as well.
    pub default: bool,
}

/// Where one extension is installed.
#[derive(Clone, Debug, PartialEq, Eq)]
pub struct Registration {
    /// The key in the module registry.
    pub module: String,
    /// Whether a global of the same name is set as well.
    pub global: bool,
}

/// Where extensions are installed: each in the module registry under its
/// name, and as a global where it is a default one.
pub fn register_extensions(extensions: &Vec<ExtensionInfo<'_>>) -> (plan: Vec<Registration>)
    ensures
        plan.len() == extensions.len(),
        forall|i: int|
            0 <= i < plan.len() ==> (#[trigger] plan[i]).module@ == extensions[i].name@
                && plan[i].global == extensions[i].default,
{
    let mut plan: Vec<Registration> = Vec::new();
    let mut i: usize = 0;
    while i < extensions.len()
        invariant
            i <= extensions.len(),
            plan.len() == i,
            forall|k: int|
                0 <= k < i ==> (#[trigger] plan[k]).module@ == extensions[k].name@
                    && plan[k].global == extensions[k].default,
        decreases extensions.len() - i,
    {
        plan.push(
            Registration {
                module: String::from_str(extensions[i].name),
                global: extensions[i].default,
            },
        );
        i = i + 1;
    }
    plan
}

/// The extension that reads and writes JSON.
pub struct JsonExtension;

/// The extension that makes identifiers.
pub struct UuidExtension;

impl JsonExtension {
    /// What the extension says of itself.
    pub fn extension_info(&self) -> (info: ExtensionInfo<'static>)
        ensures
            info.name@ == "json"@,
            info.description@ == "Operations for creating/parsing JSON data."@,
            info.default,
    {
        ExtensionInfo {
            name: "json",
            description: "Operations for creating/parsing JSON data.",
            default: true,
        }
    }
}

impl UuidExtension {
    /// What the extension says of itself.
    pub fn extension_info(&self) -> (info: ExtensionInfo<'static>)
        ensures
            info.name@ == "uuid"@,
            info.description@ == "UUID module for generating UUIDs."@,
            info.default,
    {
        ExtensionInfo { name: "uuid", description: "UUID module for generating UUIDs.", default: true }
    }

    /// A fresh identifier, written out: the text of an identifier that is
    /// marked as random, which reads back as that identifier.
    pub fn v4(&self) -> (text: String)
        ensures
            exists|id: u128|
                crate::ids::is_random_id(id) && text@ == #[trigger] crate::ids::uuid_text(id)
                    && crate::ids::uuid_of_text(text@) == Some(id),
    {
        let id = crate::ids::fresh_id();
        let text = crate::ids::id_text(id);
        assert(crate::ids::is_random_id(id) && text@ == crate::ids::uuid_text(id));
        text
    }
}

impl crate::http::HttpExtension {
    /// What the extension says of itself.
    pub fn extension_info(&self) -> (info: ExtensionInfo<'static>)
        ensures
            info.name@ == "http"@,
            info.description@ == "HTTP operations"@,
            info.default,
    {
        ExtensionInfo { name: "http", description: "HTTP operations", default: true }
    }
}

} // verus!
