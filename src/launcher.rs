//! The standalone launcher's settings: which sbt version to run, where its
//! launcher jar comes from, and what goes on the java command line.
use vstd::prelude::*;
use vstd::utf8::encode_utf8;
use vstd::string::{StrSliceExecFns, StringExecFns, StringSliceAdditionalSpecFns};
use crate::decimal::{decimal_chars, decimal_string, parse_digits};
use crate::frame::unsigned_text;

verus! {

/// The sbt version run where none is asked for.
pub open spec fn release_version() -> Seq<char> {
    "0.13.16"@
}

/// The settings of one launch.
pub struct Launcher {
    pub sbt_version: String,
    pub sbt_explicit_version: String,
    pub verbose: bool,
    pub java_cmd: String,
    /// Options for the JVM, from `-J` and `-D` arguments.
    pub jvm_opts: Vec<String>,
    /// The path of the launcher jar.
    pub sbt_jar: String,
    pub sbt_new: bool,
    pub residual_args: Vec<String>,
}

/// Which line of releases a version belongs to, as far as where its
/// launcher is published.
#[derive(Debug, Clone, Copy, PartialEq, Eq, Structural)]
pub enum ReleaseLine {
    /// `0.7.*`
    Early,
    /// `0.10.*`, `0.11.1` and `0.11.2`, published by scala-tools.
    ScalaTools,
    /// Any other `0.*`.
    Ivy,
    /// Everything else.
    Maven,
}

pub open spec fn has_prefix(s: Seq<u8>, p: Seq<u8>) -> bool {
    p.len() <= s.len() && s.subrange(0, p.len() as int) == p
}

pub open spec fn release_line(v: Seq<u8>) -> ReleaseLine {
    if has_prefix(v, seq![48u8, 46, 55, 46]) {
        ReleaseLine::Early
    } else if has_prefix(v, seq![48u8, 46, 49, 48, 46]) || v == seq![48u8, 46, 49, 49, 46, 49] || v
        == seq![48u8, 46, 49, 49, 46, 50] {
        ReleaseLine::ScalaTools
    } else if has_prefix(v, seq![48u8, 46]) {
        ReleaseLine::Ivy
    } else {
        ReleaseLine::Maven
    }
}

pub open spec fn googlecode_url() -> Seq<char> {
    "http://simple-build-tool.googlecode.com"@
}

pub open spec fn ivy_releases_url() -> Seq<char> {
    "http://repo.typesafe.com/typesafe/ivy-releases"@
}

pub open spec fn maven_releases_url() -> Seq<char> {
    "http://repo.scala-sbt.org/scalasbt/maven-releases"@
}

pub open spec fn base_url_of(line: ReleaseLine) -> Seq<char> {
    match line {
        ReleaseLine::Early => googlecode_url(),
        ReleaseLine::Maven => maven_releases_url(),
        _ => ivy_releases_url(),
    }
}

/// Where the launcher of version `v` is published.
pub open spec fn launcher_url(v: Seq<char>, line: ReleaseLine) -> Seq<char> {
    match line {
        ReleaseLine::Early => googlecode_url() + "/files/sbt-launch-0.7.7.jar"@,
        ReleaseLine::ScalaTools => ivy_releases_url() + "/org.scala-tools.sbt/sbt-launch/"@ + v
            + "/sbt-launch.jar"@,
        ReleaseLine::Ivy => ivy_releases_url() + "/org.scala-sbt/sbt-launch/"@ + v
            + "/sbt-launch.jar"@,
        ReleaseLine::Maven => maven_releases_url() + "/org/scala-sbt/sbt-launch/"@ + v
            + "/sbt-launch.jar"@,
    }
}

/// The options every JVM gets.
pub open spec fn default_jvm_opt(i: int) -> Seq<char> {
    if i == 0 {
        "-XX:MaxPermSize=384m"@
    } else if i == 1 {
        "-Xms512m"@
    } else if i == 2 {
        "-Xmx1536m"@
    } else {
        "-Xss2m"@
    }
}

/// What a path joined with one more component reads, as std's
/// `Path::join` writes it.
pub uninterp spec fn joined_path(base: Seq<char>, part: Seq<char>) -> Seq<char>;

/// Relies on std::path::Path::join: the joined path depends on the two
/// parts alone; paths made from `&str` are UTF-8, so the text is kept whole.
#[verifier::external_body]
fn join_path(base: &str, part: &str) -> (r: String)
    ensures
        r@ == joined_path(base@, part@),
{
    std::path::Path::new(base).join(part).to_string_lossy().into_owned()
}

fn has_prefix_bytes(s: &[u8], p: &[u8]) -> (r: bool)
    ensures
        r == has_prefix(s@, p@),
{
    if p.len() > s.len() {
        return false;
    }
    let mut i: usize = 0;
    while i < p.len()
        invariant
            p@.len() <= s@.len(),
            i <= p@.len(),
            forall|j: int| 0 <= j < i ==> s@[j] == p@[j],
        decreases p@.len() - i,
    {
        if s[i] != p[i] {
            assert(s@.subrange(0, p@.len() as int)[i as int] != p@[i as int]);
            return false;
        }
        i = i + 1;
    }
    assert(s@.subrange(0, p@.len() as int) =~= p@);
    true
}

fn bytes_are(s: &[u8], p: &[u8]) -> (r: bool)
    ensures
        r == (s@ == p@),
{
    if s.len() != p.len() {
        return false;
    }
    let r = has_prefix_bytes(s, p);
    assert(s@.subrange(0, s@.len() as int) =~= s@);
    r
}

/// The release line of `version`.
pub fn release_line_of(version: &str) -> (r: ReleaseLine)
    ensures
        r == release_line(version.spec_bytes()),
{
    let v = version.as_bytes();
    let p07 = vec![48u8, 46, 55, 46];
    let p010 = vec![48u8, 46, 49, 48, 46];
    let v0111 = vec![48u8, 46, 49, 49, 46, 49];
    let v0112 = vec![48u8, 46, 49, 49, 46, 50];
    let p0 = vec![48u8, 46];
    assert(p07@ =~= seq![48u8, 46, 55, 46]);
    assert(p010@ =~= seq![48u8, 46, 49, 48, 46]);
    assert(v0111@ =~= seq![48u8, 46, 49, 49, 46, 49]);
    assert(v0112@ =~= seq![48u8, 46, 49, 49, 46, 50]);
    assert(p0@ =~= seq![48u8, 46]);
    if has_prefix_bytes(v, p07.as_slice()) {
        ReleaseLine::Early
    } else if has_prefix_bytes(v, p010.as_slice()) || bytes_are(v, v0111.as_slice()) || bytes_are(
        v,
        v0112.as_slice(),
    ) {
        ReleaseLine::ScalaTools
    } else if has_prefix_bytes(v, p0.as_slice()) {
        ReleaseLine::Ivy
    } else {
        ReleaseLine::Maven
    }
}

/// The repository that publishes the launcher of `version`.
pub fn url_base(version: &str) -> (r: &'static str)
    ensures
        r@ == base_url_of(release_line(version.spec_bytes())),
{
    match release_line_of(version) {
        ReleaseLine::Early => "http://simple-build-tool.googlecode.com",
        ReleaseLine::Maven => "http://repo.scala-sbt.org/scalasbt/maven-releases",
        _ => "http://repo.typesafe.com/typesafe/ivy-releases",
    }
}

/// The address of the launcher jar of `version`.
pub fn make_url(version: &str) -> (r: String)
    ensures
        r@ == launcher_url(version@, release_line(version.spec_bytes())),
{
    let mut s = url_base(version).to_owned();
    match release_line_of(version) {
        ReleaseLine::Early => {
            s.append("/files/sbt-launch-0.7.7.jar");
        },
        ReleaseLine::ScalaTools => {
            s.append("/org.scala-tools.sbt/sbt-launch/");
            s.append(version);
            s.append("/sbt-launch.jar");
        },
        ReleaseLine::Ivy => {
            s.append("/org.scala-sbt/sbt-launch/");
            s.append(version);
            s.append("/sbt-launch.jar");
        },
        ReleaseLine::Maven => {
            s.append("/org/scala-sbt/sbt-launch/");
            s.append(version);
            s.append("/sbt-launch.jar");
        },
    }
    s
}

/// Where the launcher jar of `version` is kept under `launch_dir`:
/// `<launch_dir>/<version>/sbt-launch.jar`.
pub fn jar_file(launch_dir: &str, version: &str) -> (r: String)
    ensures
        r@ == joined_path(joined_path(launch_dir@, version@), "sbt-launch.jar"@),
{
    let dir = join_path(launch_dir, version);
    join_path(dir.as_str(), "sbt-launch.jar")
}

/// What the settings hold, as text.
pub struct LauncherView {
    pub sbt_version: Seq<char>,
    pub sbt_explicit_version: Seq<char>,
    pub verbose: bool,
    pub java_cmd: Seq<char>,
    pub jvm_opts: Seq<Seq<char>>,
    pub sbt_jar: Seq<char>,
    pub sbt_new: bool,
    pub residual_args: Seq<Seq<char>>,
}

pub open spec fn texts(v: Seq<String>) -> Seq<Seq<char>> {
    v.map_values(|s: String| s@)
}

impl View for Launcher {
    type V = LauncherView;

    open spec fn view(&self) -> LauncherView {
        LauncherView {
            sbt_version: self.sbt_version@,
            sbt_explicit_version: self.sbt_explicit_version@,
            verbose: self.verbose,
            java_cmd: self.java_cmd@,
            jvm_opts: texts(self.jvm_opts@),
            sbt_jar: self.sbt_jar@,
            sbt_new: self.sbt_new,
            residual_args: texts(self.residual_args@),
        }
    }
}

/// What a command-line argument asks of the launcher.
#[derive(Debug, Clone, Copy, PartialEq, Eq, Structural)]
pub enum ArgKind {
    /// `-h` or `-help`: show the usage and stop.
    Help,
    /// `-v`: say more.
    Verbose,
    /// `-jvm-debug <port>`
    JvmDebug,
    /// `-sbt-jar <path>`
    SbtJar,
    /// `-D...`: a system property for the JVM, passed as it is.
    Define,
    /// `-J...`: an option for the JVM, passed without the `-J`.
    JavaOpt,
    /// `new`: make a new project, with the release version.
    New,
    /// Anything else goes to sbt.
    Other,
}

/// What an option's value stands for.
#[derive(Debug, Clone, Copy, PartialEq, Eq, Structural)]
pub enum ValueKind {
    Port,
    Path,
}

/// Why the command line was refused.
#[derive(Debug, Clone, Copy, PartialEq, Eq, Structural)]
pub enum ArgError {
    /// The option at `index` has no value after it, or one that starts
    /// with `-`.
    MissingValue { index: usize, kind: ValueKind },
    /// The value at `index`, of `-jvm-debug`, is not a port number.
    BadPort { index: usize },
}

pub open spec fn starts_with_two(a: Seq<char>, c0: char, c1: char) -> bool {
    a.len() >= 2 && a[0] == c0 && a[1] == c1
}

pub open spec fn arg_kind(a: Seq<char>) -> ArgKind {
    if a == "-h"@ || a == "-help"@ {
        ArgKind::Help
    } else if a == "-v"@ {
        ArgKind::Verbose
    } else if a == "-jvm-debug"@ {
        ArgKind::JvmDebug
    } else if a == "-sbt-jar"@ {
        ArgKind::SbtJar
    } else if starts_with_two(a, '-', 'D') {
        ArgKind::Define
    } else if starts_with_two(a, '-', 'J') {
        ArgKind::JavaOpt
    } else if a == "new"@ {
        ArgKind::New
    } else {
        ArgKind::Other
    }
}

/// An option's value: present, not empty, and not starting with `-`.
pub open spec fn value_ok(args: Seq<String>, i: int) -> bool {
    0 <= i < args.len() && args[i]@.len() > 0 && args[i]@[0] != '-'
}

/// A port number: a decimal, with an optional `+`, up to 65535.
pub open spec fn port_text(b: Seq<u8>) -> Option<u16> {
    match unsigned_text(b) {
        Some(n) => if n <= 65535 {
            Some(n as u16)
        } else {
            None
        },
        None => None,
    }
}

/// The agent option that has the JVM listen for a debugger on `port`.
pub open spec fn debug_agent_opt(port: u16) -> Seq<char> {
    "-Xrunjdwp:transport=dt_socket,server=y,suspend=n,address="@ + decimal_chars(port as nat)
}

/// The settings after the arguments from index `i` on, and whether one
/// asked for the usage.
pub open spec fn args_from(v: LauncherView, args: Seq<String>, i: int) -> Result<
    (LauncherView, bool),
    ArgError,
>
    decreases args.len() - i,
{
    if i < 0 || i >= args.len() {
        Ok((v, false))
    } else {
        let a = args[i]@;
        match arg_kind(a) {
            ArgKind::Help => Ok((v, true)),
            ArgKind::Verbose => args_from(LauncherView { verbose: true, ..v }, args, i + 1),
            ArgKind::JvmDebug => if !value_ok(args, i + 1) {
                Err(ArgError::MissingValue { index: i as usize, kind: ValueKind::Port })
            } else {
                match port_text(encode_utf8(args[i + 1]@)) {
                    Some(port) => args_from(
                        LauncherView {
                            jvm_opts: v.jvm_opts.push("-Xdebug"@).push(debug_agent_opt(port)),
                            ..v
                        },
                        args,
                        i + 2,
                    ),
                    None => Err(ArgError::BadPort { index: (i + 1) as usize }),
                }
            },
            ArgKind::SbtJar => if !value_ok(args, i + 1) {
                Err(ArgError::MissingValue { index: i as usize, kind: ValueKind::Path })
            } else {
                args_from(LauncherView { sbt_jar: args[i + 1]@, ..v }, args, i + 2)
            },
            ArgKind::Define => args_from(
                LauncherView { jvm_opts: v.jvm_opts.push(a), ..v },
                args,
                i + 1,
            ),
            ArgKind::JavaOpt => args_from(
                LauncherView { jvm_opts: v.jvm_opts.push(a.subrange(2, a.len() as int)), ..v },
                args,
                i + 1,
            ),
            ArgKind::New => args_from(
                LauncherView {
                    sbt_new: true,
                    sbt_explicit_version: release_version(),
                    residual_args: v.residual_args.push(a),
                    ..v
                },
                args,
                i + 1,
            ),
            ArgKind::Other => args_from(
                LauncherView { residual_args: v.residual_args.push(a), ..v },
                args,
                i + 1,
            ),
        }
    }
}

/// The command that runs sbt: java, the default JVM options, the options
/// given, `-jar` and the launcher jar, then the arguments for sbt.
pub open spec fn java_command_of(v: LauncherView) -> Seq<Seq<char>> {
    seq![v.java_cmd] + Seq::new(4, |i: int| default_jvm_opt(i)) + v.jvm_opts + seq![
        "-jar"@,
        v.sbt_jar,
    ] + v.residual_args
}

/// What kind of argument `a` is.
pub fn arg_kind_of(a: &str) -> (r: ArgKind)
    ensures
        r == arg_kind(a@),
{
    let n = a.unicode_len();
    if text_eq(a, "-h") || text_eq(a, "-help") {
        ArgKind::Help
    } else if text_eq(a, "-v") {
        ArgKind::Verbose
    } else if text_eq(a, "-jvm-debug") {
        ArgKind::JvmDebug
    } else if text_eq(a, "-sbt-jar") {
        ArgKind::SbtJar
    } else if n >= 2 && a.get_char(0) == '-' && a.get_char(1) == 'D' {
        ArgKind::Define
    } else if n >= 2 && a.get_char(0) == '-' && a.get_char(1) == 'J' {
        ArgKind::JavaOpt
    } else if text_eq(a, "new") {
        ArgKind::New
    } else {
        ArgKind::Other
    }
}

fn text_eq(a: &str, b: &str) -> (r: bool)
    ensures
        r == (a@ == b@),
{
    a.to_owned() == b.to_owned()
}

/// Reads a port number.
pub fn parse_port(v: &str) -> (r: Option<u16>)
    ensures
        r == port_text(v.spec_bytes()),
{
    let b = v.as_bytes();
    let n = b.len();
    let st: usize = if n > 0 && b[0] == 43 {
        1
    } else {
        0
    };
    if n > 0 && b[0] == 43 {
        assert(b@.drop_first() =~= b@.subrange(1, n as int));
    } else {
        assert(b@ =~= b@.subrange(0, n as int));
    }
    match parse_digits(b, st, n) {
        Some(p) => {
            if p <= 65535 {
                Some(p as u16)
            } else {
                None
            }
        },
        None => None,
    }
}

/// The version that settles the run: the one asked for, else the one that
/// the build properties name, else the release version.
pub open spec fn chosen_version(explicit: Seq<char>, props_version: Seq<char>) -> Seq<char> {
    let chosen = if explicit.len() == 0 {
        props_version
    } else {
        explicit
    };
    if chosen.len() == 0 {
        release_version()
    } else {
        chosen
    }
}

proof fn lemma_texts_push(v: Seq<String>, s: String)
    ensures
        texts(v.push(s)) == texts(v).push(s@),
{
    assert(texts(v.push(s)) =~= texts(v).push(s@));
}

proof fn lemma_texts_append(a: Seq<String>, b: Seq<String>)
    ensures
        texts(a + b) == texts(a) + texts(b),
{
    assert(texts(a + b) =~= texts(a) + texts(b));
}

/// Appends copies of the strings of `v` to `out`.
fn push_all(out: &mut Vec<String>, v: &Vec<String>)
    ensures
        texts(final(out)@) == texts(old(out)@) + texts(v@),
{
    let mut i: usize = 0;
    while i < v.len()
        invariant
            i <= v@.len(),
            texts(out@) == texts(old(out)@) + texts(v@.take(i as int)),
        decreases v@.len() - i,
    {
        let ghost before = out@;
        out.push(v[i].clone());
        proof {
            lemma_texts_push(before, out@.last());
            assert(v@.take(i + 1) =~= v@.take(i as int).push(v@[i as int]));
            lemma_texts_push(v@.take(i as int), v@[i as int]);
        }
        i = i + 1;
    }
    assert(v@.take(v@.len() as int) =~= v@);
}

/// The index of the first `c` at or after `pos` in `t`, or `t.len()` if
/// none.
pub open spec fn next_char(t: Seq<char>, c: char, pos: int) -> int
    decreases t.len() - pos,
{
    if pos < 0 || pos >= t.len() {
        t.len() as int
    } else if t[pos] == c {
        pos
    } else {
        next_char(t, c, pos + 1)
    }
}

/// The next `c` is found at or after where the search starts.
pub proof fn lemma_next_char_bounds(t: Seq<char>, c: char, pos: int)
    requires
        0 <= pos <= t.len(),
    ensures
        pos <= next_char(t, c, pos) <= t.len(),
    decreases t.len() - pos,
{
    if pos < t.len() && t[pos] != c {
        lemma_next_char_bounds(t, c, pos + 1);
    }
}

/// The first line from `pos` on that starts with `sbt.version`.
pub open spec fn version_line_from(t: Seq<char>, pos: int) -> Option<Seq<char>>
    decreases t.len() - pos,
{
    if pos < 0 || pos >= t.len() {
        None
    } else {
        let e = next_char(t, '\n', pos);
        proof {
            lemma_next_char_bounds(t, '\n', pos);
        }
        let line = t.subrange(pos, e);
        if line.len() >= "sbt.version"@.len() && line.subrange(0, "sbt.version"@.len() as int)
            == "sbt.version"@ {
            Some(line)
        } else if e >= t.len() {
            None
        } else {
            version_line_from(t, e + 1)
        }
    }
}

/// What stands between the first `=` of a line and the next one, or the end
/// of the line; `None` where the line has no `=`.
pub open spec fn second_field(line: Seq<char>) -> Option<Seq<char>> {
    let f = next_char(line, '=', 0);
    if f >= line.len() {
        None
    } else {
        Some(line.subrange(f + 1, next_char(line, '=', f + 1)))
    }
}

/// The text with the white space at both ends taken off, as std's
/// `str::trim` leaves it.
pub uninterp spec fn trimmed(s: Seq<char>) -> Seq<char>;

/// Relies on std's str::trim: the result depends on the text alone.
#[verifier::external_body]
fn trim_text(s: &str) -> (r: String)
    ensures
        r@ == trimmed(s@),
{
    s.trim().to_owned()
}

/// The sbt version that build properties name: on the first line that
/// starts with `sbt.version`, what follows the first `=` (up to a second
/// one), trimmed.
pub open spec fn props_version_of(t: Seq<char>) -> Option<Seq<char>> {
    match version_line_from(t, 0) {
        Some(line) => match second_field(line) {
            Some(v) => Some(trimmed(v)),
            None => None,
        },
        None => None,
    }
}

fn find_char(t: &str, n: usize, c: char, pos: usize) -> (r: usize)
    requires
        n == t@.len(),
        pos <= n,
    ensures
        r == next_char(t@, c, pos as int),
{
    let mut i: usize = pos;
    while i < n && t.get_char(i) != c
        invariant
            n == t@.len(),
            pos <= i <= n,
            next_char(t@, c, pos as int) == next_char(t@, c, i as int),
        decreases n - i,
    {
        i = i + 1;
    }
    i
}

/// Reads the sbt version from the text of a build properties file.
pub fn props_sbt_version(text: &str) -> (r: Option<String>)
    ensures
        match props_version_of(text@) {
            Some(v) => r matches Some(s) && s@ == v,
            None => r is None,
        },
{
    let n = text.unicode_len();
    let key = "sbt.version";
    let k = key.unicode_len();
    let mut pos: usize = 0;
    while pos < n
        invariant
            n == text@.len(),
            k == key@.len(),
            key@ == "sbt.version"@,
            pos <= n,
            version_line_from(text@, 0) == version_line_from(text@, pos as int),
        decreases n - pos,
    {
        let e = find_char(text, n, '\n', pos);
        proof {
            lemma_next_char_bounds(text@, '\n', pos as int);
        }
        let line = text.substring_char(pos, e);
        let ln = line.unicode_len();
        if ln >= k && text_eq(line.substring_char(0, k), key) {
            let f = find_char(line, ln, '=', 0);
            proof {
                lemma_next_char_bounds(line@, '=', 0);
            }
            if f >= ln {
                return None;
            }
            let g = find_char(line, ln, '=', f + 1);
            proof {
                lemma_next_char_bounds(line@, '=', f + 1);
            }
            return Some(trim_text(line.substring_char(f + 1, g)));
        }
        if e >= n {
            return None;
        }
        pos = e + 1;
    }
    None
}

impl Launcher {
    /// Settings that run `java`, with nothing else set.
    pub fn new() -> (r: Launcher)
        ensures
            r@ == (LauncherView {
                sbt_version: Seq::empty(),
                sbt_explicit_version: Seq::empty(),
                verbose: false,
                java_cmd: "java"@,
                jvm_opts: Seq::empty(),
                sbt_jar: Seq::empty(),
                sbt_new: false,
                residual_args: Seq::empty(),
            }),
    {
        let r = Launcher {
            sbt_version: String::new(),
            sbt_explicit_version: String::new(),
            verbose: false,
            java_cmd: "java".to_owned(),
            jvm_opts: Vec::new(),
            sbt_jar: String::new(),
            sbt_new: false,
            residual_args: Vec::new(),
        };
        assert(texts(r.jvm_opts@) =~= Seq::empty());
        assert(texts(r.residual_args@) =~= Seq::empty());
        r
    }

    /// Settles the version to run: the one asked for, else the one that the
    /// project's build properties name (`props_version`, empty where none),
    /// else the release version.
    pub fn set_sbt_version(&mut self, props_version: &str)
        ensures
            final(self)@ == (LauncherView {
                sbt_version: chosen_version(old(self)@.sbt_explicit_version, props_version@),
                ..old(self)@
            }),
    {
        if self.sbt_explicit_version.as_str().is_empty() {
            self.sbt_version = props_version.to_owned();
        } else {
            self.sbt_version = self.sbt_explicit_version.clone();
        }
        if self.sbt_version.as_str().is_empty() {
            self.sbt_version = "0.13.16".to_owned();
        }
    }

    /// Adds an option for the JVM.
    pub fn add_jvm_opt(&mut self, s: &str)
        ensures
            final(self)@ == (LauncherView { jvm_opts: old(self)@.jvm_opts.push(s@), ..old(self)@ }),
    {
        let o = s.to_owned();
        proof {
            lemma_texts_push(self.jvm_opts@, o);
        }
        self.jvm_opts.push(o);
    }

    /// Adds an argument that goes to sbt itself.
    pub fn add_residual(&mut self, s: &str)
        ensures
            final(self)@ == (LauncherView {
                residual_args: old(self)@.residual_args.push(s@),
                ..old(self)@
            }),
    {
        let o = s.to_owned();
        proof {
            lemma_texts_push(self.residual_args@, o);
        }
        self.residual_args.push(o);
    }

    /// Turns on JVM debugging on `port`: adds `-Xdebug` and the agent option
    /// that listens there.
    pub fn add_debugger(&mut self, port: u16)
        ensures
            final(self)@ == (LauncherView {
                jvm_opts: old(self)@.jvm_opts.push("-Xdebug"@).push(debug_agent_opt(port)),
                ..old(self)@
            }),
    {
        self.add_jvm_opt("-Xdebug");
        let mut agent = "-Xrunjdwp:transport=dt_socket,server=y,suspend=n,address=".to_owned();
        let p = decimal_string(port as u64);
        agent.append(p.as_str());
        self.add_jvm_opt(agent.as_str());
    }

    /// The options every JVM gets: the permanent generation, the initial and
    /// largest heap, and the thread stack size.
    pub fn default_jvm_opts(&self) -> (r: Vec<String>)
        ensures
            texts(r@) == Seq::new(4, |i: int| default_jvm_opt(i)),
    {
        let r = vec![
            "-XX:MaxPermSize=384m".to_owned(),
            "-Xms512m".to_owned(),
            "-Xmx1536m".to_owned(),
            "-Xss2m".to_owned(),
        ];
        assert(texts(r@) =~= Seq::new(4, |i: int| default_jvm_opt(i)));
        r
    }

    /// Applies the command-line arguments in order, up to one that asks for
    /// the usage; gives whether one did.
    pub fn apply_args(&mut self, args: &Vec<String>) -> (r: Result<bool, ArgError>)
        ensures
            match args_from(old(self)@, args@, 0) {
                Ok((v, help)) => r == Ok::<bool, ArgError>(help) && final(self)@ == v,
                Err(e) => r == Err::<bool, ArgError>(e),
            },
    {
        let mut i: usize = 0;
        while i < args.len()
            invariant
                i <= args@.len(),
                args_from(old(self)@, args@, 0) == args_from(self@, args@, i as int),
            decreases args@.len() - i,
        {
            let a = args[i].as_str();
            match arg_kind_of(a) {
                ArgKind::Help => {
                    return Ok(true);
                },
                ArgKind::Verbose => {
                    self.verbose = true;
                    i = i + 1;
                },
                ArgKind::JvmDebug => {
                    if !self.value_at(args, i + 1) {
                        return Err(ArgError::MissingValue { index: i, kind: ValueKind::Port });
                    }
                    match parse_port(args[i + 1].as_str()) {
                        Some(port) => {
                            self.add_debugger(port);
                            i = i + 2;
                        },
                        None => {
                            return Err(ArgError::BadPort { index: i + 1 });
                        },
                    }
                },
                ArgKind::SbtJar => {
                    if !self.value_at(args, i + 1) {
                        return Err(ArgError::MissingValue { index: i, kind: ValueKind::Path });
                    }
                    self.sbt_jar = args[i + 1].clone();
                    i = i + 2;
                },
                ArgKind::Define => {
                    self.add_jvm_opt(a);
                    i = i + 1;
                },
                ArgKind::JavaOpt => {
                    let n = a.unicode_len();
                    self.add_jvm_opt(a.substring_char(2, n));
                    i = i + 1;
                },
                ArgKind::New => {
                    self.sbt_new = true;
                    self.sbt_explicit_version = "0.13.16".to_owned();
                    self.add_residual(a);
                    i = i + 1;
                },
                ArgKind::Other => {
                    self.add_residual(a);
                    i = i + 1;
                },
            }
        }
        Ok(false)
    }

    fn value_at(&self, args: &Vec<String>, i: usize) -> (r: bool)
        ensures
            r == value_ok(args@, i as int),
    {
        i < args.len() && args[i].as_str().unicode_len() > 0 && args[i].as_str().get_char(0) != '-'
    }

    /// Settles the version, and has sbt start its shell where no argument
    /// for it was given.
    pub fn prepare(&mut self, props_version: &str)
        ensures
            ({
                let v = LauncherView {
                    sbt_version: chosen_version(old(self)@.sbt_explicit_version, props_version@),
                    ..old(self)@
                };
                final(self)@ == if v.residual_args.len() == 0 {
                    LauncherView { residual_args: seq!["shell"@], ..v }
                } else {
                    v
                }
            }),
    {
        self.set_sbt_version(props_version);
        if self.residual_args.len() == 0 {
            self.add_residual("shell");
            assert(self@.residual_args =~= seq!["shell"@]);
        }
    }

    /// The command line that runs sbt: java, the default JVM options, the
    /// options given, `-jar` and the launcher jar, then the arguments for sbt.
    pub fn java_command(&self) -> (r: Vec<String>)
        ensures
            texts(r@) == java_command_of(self@),
    {
        let mut r: Vec<String> = Vec::new();
        r.push(self.java_cmd.clone());
        assert(texts(r@) =~= seq![self.java_cmd@]);
        let d = self.default_jvm_opts();
        push_all(&mut r, &d);
        push_all(&mut r, &self.jvm_opts);
        let tail = vec!["-jar".to_owned(), self.sbt_jar.clone()];
        assert(texts(tail@) =~= seq!["-jar"@, self.sbt_jar@]);
        push_all(&mut r, &tail);
        push_all(&mut r, &self.residual_args);
        r
    }
}

} // verus!
