//! Apps on an Android emulator or an iOS simulator, and the device-control
//! invocations that start, stop, reset and inspect them.
use vstd::prelude::*;
use vstd::string::*;
use crate::json::{CliError, Json};
use crate::recipe::{enroll_outcome, enroll_payload, is_document_of, unenroll_payload, NimbusApp};
use crate::text::{compact_text, to_json_text};

verus! {

/// One app on one device.
#[allow(inconsistent_fields)]
#[derive(Debug)]
pub enum LaunchableApp {
    /// Driven through the Android debug bridge; `device_id` picks one of
    /// several attached devices.
    Android { package_name: String, activity_name: String, device_id: Option<String> },
    /// Driven through the simulator-control tool.
    Ios { app_id: String, device_id: String },
}

/// An external program to run, with its arguments.
#[derive(Debug)]
pub struct Invocation {
    pub program: String,
    pub args: Vec<String>,
}

/// The texts of a sequence of strings.
pub open spec fn texts(v: Seq<String>) -> Seq<Seq<char>> {
    v.map_values(|s: String| s@)
}

impl Invocation {
    /// The arguments as texts.
    pub open spec fn arg_texts(&self) -> Seq<Seq<char>> {
        texts(self.args@)
    }
}

/// The arguments that select the device, before any command.
pub open spec fn device_args(app: LaunchableApp) -> Seq<Seq<char>> {
    match app {
        LaunchableApp::Android { device_id, .. } => match device_id {
            Some(id) => seq!["-s"@, id@],
            None => Seq::empty(),
        },
        LaunchableApp::Ios { .. } => seq!["simctl"@],
    }
}

/// The command that stops the app.
pub open spec fn kill_args(app: LaunchableApp) -> Seq<Seq<char>> {
    match app {
        LaunchableApp::Android { package_name, .. } => seq!["shell"@, "am force-stop "@ + package_name@],
        LaunchableApp::Ios { app_id, device_id } => seq!["terminate"@, device_id@, app_id@],
    }
}

/// The command that clears the app's data.
pub open spec fn reset_args(app: LaunchableApp) -> Seq<Seq<char>> {
    match app {
        LaunchableApp::Android { package_name, .. } => seq!["shell"@, "pm clear "@ + package_name@],
        LaunchableApp::Ios { app_id, device_id } => seq!["privacy"@, device_id@, "reset"@, "all"@, app_id@],
    }
}

/// A string holding `s`.
fn text(s: &str) -> (r: String)
    ensures
        r@ == s@,
{
    String::from_str(s)
}

/// `a` followed by `b`.
fn joined(a: &str, b: &str) -> (r: String)
    ensures
        r@ == a@ + b@,
{
    let mut r = String::from_str(a);
    r.append(b);
    r
}

/// Adds `arg` after the arguments of `inv`.
fn push_arg(inv: &mut Invocation, arg: String)
    ensures
        final(inv).program == old(inv).program,
        final(inv).arg_texts() == old(inv).arg_texts().push(arg@),
{
    let ghost before = inv.args@;
    inv.args.push(arg);
    assert(texts(inv.args@) =~= texts(before).push(arg@));
}

impl LaunchableApp {
    /// The device-control tool, given by its path, bound to this app's device.
    pub fn exe(&self, tool: &String) -> (r: Invocation)
        ensures
            r.program@ == tool@,
            r.arg_texts() == device_args(*self),
    {
        let mut inv = Invocation { program: tool.clone(), args: Vec::new() };
        assert(inv.arg_texts() =~= Seq::<Seq<char>>::empty());
        match self {
            LaunchableApp::Android { device_id, .. } => {
                if let Some(id) = device_id {
                    push_arg(&mut inv, text("-s"));
                    push_arg(&mut inv, id.clone());
                    assert(inv.arg_texts() =~= seq!["-s"@, id@]);
                }
            },
            LaunchableApp::Ios { .. } => {
                push_arg(&mut inv, text("simctl"));
            },
        }
        inv
    }

    /// Stops the app: Android force-stops the package, iOS terminates the app.
    pub fn kill_app(&self, tool: &String) -> (r: Invocation)
        ensures
            r.program@ == tool@,
            r.arg_texts() == device_args(*self) + kill_args(*self),
    {
        let mut inv = self.exe(tool);
        let ghost start = inv.arg_texts();
        match self {
            LaunchableApp::Android { package_name, .. } => {
                push_arg(&mut inv, text("shell"));
                push_arg(&mut inv, joined("am force-stop ", package_name.as_str()));
            },
            LaunchableApp::Ios { app_id, device_id } => {
                push_arg(&mut inv, text("terminate"));
                push_arg(&mut inv, device_id.clone());
                push_arg(&mut inv, app_id.clone());
            },
        }
        assert(inv.arg_texts() =~= start + kill_args(*self));
        inv
    }

    /// Whether stopping the app succeeded, given whether the tool exited
    /// successfully: on iOS the app may already have stopped, so it always has.
    pub fn kill_succeeded(&self, exited_ok: bool) -> (r: bool)
        ensures
            r == (self is Ios || exited_ok),
    {
        match self {
            LaunchableApp::Android { .. } => exited_ok,
            LaunchableApp::Ios { .. } => true,
        }
    }

    /// Clears the app's data: Android clears the package, iOS resets all
    /// privacy settings of the app (its containers are emptied after).
    pub fn reset_app(&self, tool: &String) -> (r: Invocation)
        ensures
            r.program@ == tool@,
            r.arg_texts() == device_args(*self) + reset_args(*self),
    {
        let mut inv = self.exe(tool);
        let ghost start = inv.arg_texts();
        match self {
            LaunchableApp::Android { package_name, .. } => {
                push_arg(&mut inv, text("shell"));
                push_arg(&mut inv, joined("pm clear ", package_name.as_str()));
            },
            LaunchableApp::Ios { app_id, device_id } => {
                push_arg(&mut inv, text("privacy"));
                push_arg(&mut inv, device_id.clone());
                push_arg(&mut inv, text("reset"));
                push_arg(&mut inv, text("all"));
                push_arg(&mut inv, app_id.clone());
            },
        }
        assert(inv.arg_texts() =~= start + reset_args(*self));
        inv
    }

    /// Asks the simulator for the path of one of the app's containers
    /// (`data`, or `groups` for its group containers).
    pub fn ios_app_container(&self, tool: &String, container: &String) -> (r: Invocation)
        requires
            self is Ios,
        ensures
            r.program@ == tool@,
            r.arg_texts() == seq!["simctl"@, "get_app_container"@, self->Ios_device_id@,
                self->Ios_app_id@, container@],
    {
        let mut inv = self.exe(tool);
        match self {
            LaunchableApp::Ios { app_id, device_id } => {
                push_arg(&mut inv, text("get_app_container"));
                push_arg(&mut inv, device_id.clone());
                push_arg(&mut inv, app_id.clone());
                push_arg(&mut inv, container.clone());
            },
            LaunchableApp::Android { .. } => {},
        }
        assert(inv.arg_texts() =~= seq!["simctl"@, "get_app_container"@, self->Ios_device_id@,
            self->Ios_app_id@, container@]);
        inv
    }
}

/// `s` with each single quote written `&apos;`, so that it can stand
/// between single quotes in a shell command.
pub open spec fn escape_quotes(s: Seq<char>) -> Seq<char>
    decreases s.len(),
{
    if s.len() == 0 {
        s
    } else {
        escape_quotes(s.drop_last()) + if s.last() == '\'' { "&apos;"@ } else { seq![s.last()] }
    }
}

/// The parts joined, with `sep` between each two.
pub open spec fn join(parts: Seq<Seq<char>>, sep: Seq<char>) -> Seq<char>
    decreases parts.len(),
{
    if parts.len() == 0 {
        Seq::empty()
    } else if parts.len() == 1 {
        parts[0]
    } else {
        join(parts.drop_last(), sep) + sep + parts.last()
    }
}

/// The launch flags of an Android app: reset the database, the experiments
/// payload, log the state; each only when asked for.
pub open spec fn android_flags(reset_db: bool, payload: Option<Seq<char>>, log_state: bool) -> Seq<Seq<char>> {
    (if reset_db { seq!["--ez reset-db true"@] } else { Seq::empty() })
    + match payload {
        Some(p) => seq!["--es experiments '"@ + p + "'"@],
        None => Seq::empty(),
    }
    + (if log_state { seq!["--ez log-state true"@] } else { Seq::empty() })
}

/// The separator between the lines of an Android launch command.
pub open spec fn line_break() -> Seq<char> {
    " \\\n        "@
}

/// The shell command that starts an Android activity with the given flags.
pub open spec fn android_launch(package_name: Seq<char>, activity_name: Seq<char>, flags: Seq<Seq<char>>) -> Seq<char> {
    "am start -n "@ + package_name + "/"@ + activity_name
        + " \\\n        -a android.intent.action.MAIN \\\n        -c android.intent.category.LAUNCHER \\\n        --esn nimbus-cli \\\n        --ei version 1 \\\n        "@
        + join(flags, line_break())
}

/// The launch arguments of an iOS app, after the tool's own.
pub open spec fn ios_launch_args(
    device_id: Seq<char>,
    app_id: Seq<char>,
    reset_db: bool,
    payload: Option<Seq<char>>,
    log_state: bool,
) -> Seq<Seq<char>> {
    seq!["launch"@, device_id, app_id, "--nimbus-cli"@, "--version"@, "1"@]
    + (if reset_db { seq!["--reset-db"@] } else { Seq::empty() })
    + match payload {
        Some(p) => seq!["--experiments"@, p],
        None => Seq::empty(),
    }
    + (if log_state { seq!["--log-state"@] } else { Seq::empty() })
}

/// The payload as it is handed to the app: its JSON text, quotes escaped.
pub open spec fn payload_text(payload: Option<Json>) -> Option<Seq<char>> {
    match payload {
        Some(p) => Some(escape_quotes(compact_text(p))),
        None => None,
    }
}

/// What starting the app runs, after the device arguments.
pub open spec fn start_args(app: LaunchableApp, reset_db: bool, payload: Option<Json>, log_state: bool) -> Seq<Seq<char>> {
    match app {
        LaunchableApp::Android { package_name, activity_name, .. } => seq!["shell"@,
            android_launch(package_name@, activity_name@, android_flags(reset_db, payload_text(payload), log_state))],
        LaunchableApp::Ios { app_id, device_id } =>
            ios_launch_args(device_id@, app_id@, reset_db, payload_text(payload), log_state),
    }
}

/// Writes each single quote of `s` as `&apos;`.
pub fn escape_quotes_in(s: &str) -> (r: String)
    ensures
        r@ == escape_quotes(s@),
{
    let n = s.unicode_len();
    let mut r = String::new();
    let mut i: usize = 0;
    while i < n
        invariant
            i <= n,
            n == s@.len(),
            r@ == escape_quotes(s@.subrange(0, i as int)),
        decreases n - i,
    {
        let c = s.get_char(i);
        let ghost before = s@.subrange(0, i as int);
        assert(s@.subrange(0, i as int + 1).drop_last() =~= before);
        if c == '\'' {
            r.append("&apos;");
        } else {
            r.append(s.substring_char(i, i + 1));
            assert(s@.subrange(i as int, i as int + 1) =~= seq![c]);
        }
        i = i + 1;
    }
    assert(s@.subrange(0, n as int) =~= s@);
    r
}

/// Joins the parts with `sep` between each two.
fn join_with(parts: &Vec<String>, sep: &str) -> (r: String)
    ensures
        r@ == join(texts(parts@), sep@),
{
    let mut r = String::new();
    let mut i: usize = 0;
    while i < parts.len()
        invariant
            i <= parts.len(),
            r@ == join(texts(parts@.subrange(0, i as int)), sep@),
        decreases parts.len() - i,
    {
        let ghost done = texts(parts@.subrange(0, i as int + 1));
        assert(done.drop_last() =~= texts(parts@.subrange(0, i as int)));
        assert(done.last() == parts@[i as int]@);
        if i > 0 {
            r.append(sep);
        }
        r.append(parts[i].as_str());
        i = i + 1;
    }
    assert(parts@.subrange(0, parts.len() as int) =~= parts@);
    r
}

/// The payload's text as the app gets it.
fn payload_arg(payload: Option<&Json>) -> (r: Option<String>)
    ensures
        match (r, payload) {
            (Some(t), Some(p)) => payload_text(Some(*p)) == Some(t@),
            (None, None) => true,
            _ => false,
        },
{
    match payload {
        Some(p) => Some(escape_quotes_in(to_json_text(p).as_str())),
        None => None,
    }
}

/// The payload a reference points to.
pub open spec fn deref_payload(payload: Option<&Json>) -> Option<Json> {
    match payload {
        Some(p) => Some(*p),
        None => None,
    }
}

/// Adds `part` after the string parts of `v`.
fn push_text(v: &mut Vec<String>, part: String)
    ensures
        texts(final(v)@) == texts(old(v)@).push(part@),
{
    let ghost before = v@;
    v.push(part);
    assert(texts(v@) =~= texts(before).push(part@));
}

impl LaunchableApp {
    /// The command that starts an Android app with the given launch flags.
    pub fn android_start(&self, tool: &String, reset_db: bool, payload: Option<&Json>, log_state: bool) -> (r: Invocation)
        requires
            self is Android,
        ensures
            r.program@ == tool@,
            r.arg_texts() == device_args(*self) + start_args(*self, reset_db, deref_payload(payload), log_state),
    {
        let mut inv = self.exe(tool);
        let ghost start = inv.arg_texts();
        let json = payload_arg(payload);
        let mut flags: Vec<String> = Vec::new();
        assert(texts(flags@) =~= Seq::<Seq<char>>::empty());
        if reset_db {
            push_text(&mut flags, text("--ez reset-db true"));
        }
        let ghost f1 = texts(flags@);
        if let Some(j) = json {
            let mut flag = joined("--es experiments '", j.as_str());
            flag.append("'");
            push_text(&mut flags, flag);
        }
        let ghost f2 = texts(flags@);
        if log_state {
            push_text(&mut flags, text("--ez log-state true"));
        }
        let ghost pt = payload_text(deref_payload(payload));
        assert(texts(flags@) =~= android_flags(reset_db, pt, log_state));
        match self {
            LaunchableApp::Android { package_name, activity_name, .. } => {
                let mut sh = joined("am start -n ", package_name.as_str());
                sh.append("/");
                sh.append(activity_name.as_str());
                sh.append(" \\\n        -a android.intent.action.MAIN \\\n        -c android.intent.category.LAUNCHER \\\n        --esn nimbus-cli \\\n        --ei version 1 \\\n        ");
                sh.append(join_with(&flags, " \\\n        ").as_str());
                push_arg(&mut inv, text("shell"));
                push_arg(&mut inv, sh);
            },
            LaunchableApp::Ios { .. } => {},
        }
        assert(inv.arg_texts() =~= start + start_args(*self, reset_db, deref_payload(payload), log_state));
        inv
    }

    /// The command that launches an iOS app with the given launch flags.
    pub fn ios_start(&self, tool: &String, reset_db: bool, payload: Option<&Json>, log_state: bool) -> (r: Invocation)
        requires
            self is Ios,
        ensures
            r.program@ == tool@,
            r.arg_texts() == device_args(*self) + start_args(*self, reset_db, deref_payload(payload), log_state),
    {
        let mut inv = self.exe(tool);
        let ghost start = inv.arg_texts();
        let json = payload_arg(payload);
        match self {
            LaunchableApp::Ios { app_id, device_id } => {
                push_arg(&mut inv, text("launch"));
                push_arg(&mut inv, device_id.clone());
                push_arg(&mut inv, app_id.clone());
                push_arg(&mut inv, text("--nimbus-cli"));
                push_arg(&mut inv, text("--version"));
                push_arg(&mut inv, text("1"));
            },
            LaunchableApp::Android { .. } => {},
        }
        let ghost s1 = inv.arg_texts();
        if reset_db {
            push_arg(&mut inv, text("--reset-db"));
        }
        let ghost s2 = inv.arg_texts();
        if let Some(j) = json {
            push_arg(&mut inv, text("--experiments"));
            push_arg(&mut inv, j);
        }
        let ghost s3 = inv.arg_texts();
        if log_state {
            push_arg(&mut inv, text("--log-state"));
        }
        assert(inv.arg_texts() =~= start + start_args(*self, reset_db, deref_payload(payload), log_state));
        inv
    }

    /// The command that starts the app with the given launch flags.
    pub fn start_app(&self, tool: &String, reset_db: bool, payload: Option<&Json>, log_state: bool) -> (r: Invocation)
        ensures
            r.program@ == tool@,
            r.arg_texts() == device_args(*self) + start_args(*self, reset_db, deref_payload(payload), log_state),
    {
        match self {
            LaunchableApp::Android { .. } => self.android_start(tool, reset_db, payload, log_state),
            LaunchableApp::Ios { .. } => self.ios_start(tool, reset_db, payload, log_state),
        }
    }

    /// Starts the app so that it logs its experiment state.
    pub fn log_state(&self, tool: &String) -> (r: Invocation)
        ensures
            r.program@ == tool@,
            r.arg_texts() == device_args(*self) + start_args(*self, false, None, true),
    {
        self.start_app(tool, false, None, true)
    }

    /// Starts the app with an empty payload, which leaves every experiment
    /// and rollout; its database is kept.
    pub fn unenroll_all(&self, tool: &String) -> (r: Invocation)
        ensures
            r.program@ == tool@,
            exists|p: Json| is_document_of(p, Seq::empty())
                && r.arg_texts() == device_args(*self) + start_args(*self, false, Some(p), true),
    {
        let payload = unenroll_payload();
        self.start_app(tool, false, Some(&payload), true)
    }

    /// Starts the app with a whole list document as its payload.
    pub fn apply_list(&self, tool: &String, list: &Json, preserve_nimbus_db: bool) -> (r: Invocation)
        ensures
            r.program@ == tool@,
            r.arg_texts() == device_args(*self) + start_args(*self, !preserve_nimbus_db, Some(*list), true),
    {
        self.start_app(tool, !preserve_nimbus_db, Some(list), true)
    }

    /// Starts the app enrolled in one branch of an experiment and in every
    /// given rollout, with a fresh database unless asked to keep it.
    pub fn enroll(
        &self,
        tool: &String,
        params: &NimbusApp,
        experiment: Json,
        rollouts: Vec<Json>,
        branch: &String,
        preserve_targeting: bool,
        preserve_bucketing: bool,
        preserve_nimbus_db: bool,
    ) -> (r: Result<Invocation, CliError>)
        ensures
            match r {
                Ok(inv) => inv.program@ == tool@ && exists|p: Json|
                    #[trigger] enroll_outcome(params.app_name@, experiment, rollouts@, branch@, preserve_targeting,
                        preserve_bucketing, Ok(p))
                    && inv.arg_texts() == device_args(*self) + start_args(*self, !preserve_nimbus_db, Some(p), true),
                Err(e) => enroll_outcome(params.app_name@, experiment, rollouts@, branch@, preserve_targeting,
                    preserve_bucketing, Err(e)),
            },
    {
        match enroll_payload(params, experiment, rollouts, branch, preserve_targeting, preserve_bucketing) {
            Ok(p) => Ok(self.start_app(tool, !preserve_nimbus_db, Some(&p), true)),
            Err(e) => Err(e),
        }
    }
}

/// The arguments that read the device's main log buffer.
pub open spec fn logcat_texts() -> Seq<Seq<char>> {
    seq!["logcat"@, "-b"@, "main"@]
}

/// The arguments that read the device's main log buffer.
pub fn logcat_args() -> (r: Vec<String>)
    ensures
        texts(r@) == logcat_texts(),
{
    let mut r: Vec<String> = Vec::new();
    assert(texts(r@) =~= Seq::<Seq<char>>::empty());
    push_text(&mut r, text("logcat"));
    push_text(&mut r, text("-b"));
    push_text(&mut r, text("main"));
    assert(texts(r@) =~= logcat_texts());
    r
}

/// The command that follows a log file of an iOS app as it grows.
pub fn follow_log_file(log_file: &String) -> (r: Invocation)
    ensures
        r.program@ == "tail"@,
        r.arg_texts() == seq!["-f"@, log_file@],
{
    let mut inv = Invocation { program: text("tail"), args: Vec::new() };
    assert(inv.arg_texts() =~= Seq::<Seq<char>>::empty());
    push_arg(&mut inv, text("-f"));
    push_arg(&mut inv, log_file.clone());
    assert(inv.arg_texts() =~= seq!["-f"@, log_file@]);
    inv
}

/// The glob pattern that finds the log files under an app's data container.
pub fn log_file_pattern(data_dir: &String) -> (r: String)
    ensures
        r@ == data_dir@ + "/**/*.log"@,
{
    let mut r = data_dir.clone();
    r.append("/**/*.log");
    r
}

/// The log file to read: the first one found; there is none before the
/// app has been started for the first time.
pub fn first_log_file(found: Option<String>) -> (r: Result<String, CliError>)
    ensures
        match found {
            Some(f) => r == Ok::<String, CliError>(f),
            None => r == Err::<String, CliError>(CliError::LogsUnavailable),
        },
{
    match found {
        Some(f) => Ok(f),
        None => Err(CliError::LogsUnavailable),
    }
}

impl LaunchableApp {
    /// Reads the Android log buffer: followed in colour, or dumped once.
    pub fn android_logs(&self, tool: &String, follow: bool) -> (r: Invocation)
        ensures
            r.program@ == tool@,
            r.arg_texts() == device_args(*self) + logcat_texts()
                + if follow { seq!["-v"@, "color"@] } else { seq!["-d"@] },
    {
        let mut inv = self.exe(tool);
        let ghost start = inv.arg_texts();
        push_arg(&mut inv, text("logcat"));
        push_arg(&mut inv, text("-b"));
        push_arg(&mut inv, text("main"));
        if follow {
            push_arg(&mut inv, text("-v"));
            push_arg(&mut inv, text("color"));
        } else {
            push_arg(&mut inv, text("-d"));
        }
        assert(inv.arg_texts() =~= start + logcat_texts()
            + if follow { seq!["-v"@, "color"@] } else { seq!["-d"@] });
        inv
    }

    /// The shell pipeline that finds an iOS app's log files, as shown to
    /// the user.
    pub fn ios_log_file_command(&self) -> (r: String)
        requires
            self is Ios,
        ensures
            r@ == "find $(xcrun simctl get_app_container "@ + self->Ios_device_id@ + " "@
                + self->Ios_app_id@ + " data) -name \\*.log"@,
    {
        match self {
            LaunchableApp::Ios { device_id, app_id } => {
                let mut r = joined("find $(xcrun simctl get_app_container ", device_id.as_str());
                r.append(" ");
                r.append(app_id.as_str());
                r.append(" data) -name \\*.log");
                r
            },
            LaunchableApp::Android { .. } => String::new(),
        }
    }
}

/// The directories of the group containers read so far, whether the line
/// being read has had its tab, and what followed that tab.
pub open spec fn scan_groups(s: Seq<char>) -> (Seq<Seq<char>>, bool, Seq<char>)
    decreases s.len(),
{
    if s.len() == 0 {
        (Seq::empty(), false, Seq::empty())
    } else {
        let (done, tab, cur) = scan_groups(s.drop_last());
        let c = s.last();
        if c == '\n' {
            (end_line(done, tab, cur), false, Seq::empty())
        } else if tab {
            (done, true, cur.push(c))
        } else if c == '\t' {
            (done, true, Seq::empty())
        } else {
            (done, false, Seq::empty())
        }
    }
}

/// The directories after a line ends: its text after the first tab, when
/// it has a tab and that text is not empty.
pub open spec fn end_line(done: Seq<Seq<char>>, tab: bool, cur: Seq<char>) -> Seq<Seq<char>> {
    if tab && cur.len() > 0 {
        done.push(cur)
    } else {
        done
    }
}

/// The directories named by a listing of group containers, one
/// `name<TAB>path` per line.
pub open spec fn group_dirs(listing: Seq<char>) -> Seq<Seq<char>> {
    let (done, tab, cur) = scan_groups(listing);
    end_line(done, tab, cur)
}

/// The directories that resetting an iOS app empties: its data container,
/// when it has one, then its group containers.
pub open spec fn reset_dirs(data_dir: Seq<char>, groups: Seq<char>) -> Seq<Seq<char>> {
    (if data_dir.len() > 0 { seq![data_dir] } else { Seq::empty() }) + group_dirs(groups)
}

/// The directories to delete and create again, empty, when resetting an
/// iOS app, given the paths the simulator reported for its data container
/// and its group containers.
pub fn ios_reset(data_dir: &String, groups: &String) -> (r: Vec<String>)
    ensures
        texts(r@) == reset_dirs(data_dir@, groups@),
{
    let mut dirs: Vec<String> = Vec::new();
    assert(texts(dirs@) =~= Seq::<Seq<char>>::empty());
    if data_dir.as_str().unicode_len() > 0 {
        push_text(&mut dirs, data_dir.clone());
    }
    let ghost first = texts(dirs@);
    let g = groups.as_str();
    let n = g.unicode_len();
    let mut tab = false;
    let mut cur = String::new();
    let mut i: usize = 0;
    assert(g@.subrange(0, 0) =~= Seq::<char>::empty());
    while i < n
        invariant
            i <= n,
            n == g@.len(),
            g@ == groups@,
            ({
                let (done, t, c) = scan_groups(g@.subrange(0, i as int));
                texts(dirs@) == first + done && t == tab && c == cur@
            }),
        decreases n - i,
    {
        let c = g.get_char(i);
        let ghost prefix = g@.subrange(0, i as int + 1);
        assert(prefix.drop_last() =~= g@.subrange(0, i as int));
        assert(prefix.last() == c);
        let ghost done = scan_groups(g@.subrange(0, i as int)).0;
        if c == '\n' {
            if tab && cur.unicode_len() > 0 {
                push_text(&mut dirs, cur);
                assert(first + done.push(cur@) =~= (first + done).push(cur@));
            }
            tab = false;
            cur = String::new();
        } else if tab {
            cur.append(g.substring_char(i, i + 1));
            assert(g@.subrange(i as int, i as int + 1) =~= seq![c]);
        } else if c == '\t' {
            tab = true;
            cur = String::new();
        } else {
            cur = String::new();
        }
        i = i + 1;
    }
    assert(g@.subrange(0, n as int) =~= g@);
    let ghost done = scan_groups(g@).0;
    if tab && cur.unicode_len() > 0 {
        push_text(&mut dirs, cur);
        assert(first + done.push(cur@) =~= (first + done).push(cur@));
    }
    assert(texts(dirs@) =~= reset_dirs(data_dir@, groups@));
    dirs
}

/// A text without its leading and trailing whitespace, as std trims it.
pub uninterp spec fn trimmed(s: Seq<char>) -> Seq<char>;

/// Relies on str::trim: the text with leading and trailing white space
/// removed, which is no longer than the text.
#[verifier::external_body]
fn trim_text(s: &str) -> (r: String)
    ensures
        r@ == trimmed(s@),
        r@.len() <= s@.len(),
{
    s.trim().to_string()
}

/// The container path in what the simulator printed: the output without
/// surrounding white space.
pub fn container_path(output: &str) -> (r: String)
    ensures
        r@ == trimmed(output@),
        r@.len() <= output@.len(),
{
    trim_text(output)
}

} // verus!
