//! The arguments that start the Gradle wrapper, as its `gradlew` script
//! assembles them.
use vstd::prelude::*;

verus! {

/// Why no Gradle command could be formed.
#[derive(Clone, Copy, Debug, PartialEq, Eq, Structural)]
pub enum GenerateArgsError {
    /// No JDK was given and no `java` executable was found on the `PATH`.
    JavaNotFound,
}

impl GenerateArgsError {
    /// The message shown to the user.
    pub fn message(&self) -> (r: &'static str)
        ensures
            r@ == gradle_error_message(),
    {
        match self {
            GenerateArgsError::JavaNotFound => "ERROR: JAVA_HOME is not set and no 'java' command could be found in your PATH.\nPlease set the JAVA_HOME variable in your environment to match the location of your Java installation.",
        }
    }
}

pub open spec fn gradle_error_message() -> Seq<char> {
    "ERROR: JAVA_HOME is not set and no 'java' command could be found in your PATH.\nPlease set the JAVA_HOME variable in your environment to match the location of your Java installation."@
}

/// The inputs of the `gradlew` script.
#[derive(Debug)]
pub struct GradleLaunchOptions<'a> {
    /// The Java executable to run; when `None`, `java` on the `PATH` is used.
    pub jdk_home: Option<&'a str>,
    /// The directory that holds the `gradlew` script.
    pub app_home: &'a str,
    /// The script's base name, passed on as `org.gradle.appname`.
    pub app_base_name: &'a str,
    /// The arguments given to the script.
    pub cli_args: &'a [String],
    /// `GRADLE_OPTS`; when `None`, the environment's value is used.
    pub gradle_opts: Option<&'a str>,
    /// `JAVA_OPTS`; when `None`, the environment's value is used.
    pub java_opts: Option<&'a str>,
}

/// The JVM options the script always passes first.
pub const DEFAULT_JVM_OPTS: &'static str = "\"-Xmx64m\" \"-Xms64m\"";

/// The words that a POSIX shell would split `s` into, or `None` where `s`
/// is not well formed (an unclosed quote, a trailing backslash).
pub uninterp spec fn shell_words(s: Seq<char>) -> Option<Seq<Seq<char>>>;

pub open spec fn strings_view(v: Seq<String>) -> Seq<Seq<char>> {
    v.map_values(|w: String| w@)
}

/// Relies on shlex::split: it splits a command line into words as a POSIX
/// shell does, and returns `None` on malformed input.
#[verifier::external_body]
fn shlex_split(s: &str) -> (r: Option<Vec<String>>)
    ensures
        r matches Some(v) ==> shell_words(s@) == Some(strings_view(v@)),
        r is None ==> shell_words(s@) is None,
{
    shlex::split(s)
}

/// `base` joined with a relative `component` by `/`, as a Unix path.
pub open spec fn path_join(base: Seq<char>, component: Seq<char>) -> Seq<char> {
    if base.len() == 0 {
        component
    } else if base.last() == '/' {
        base + component
    } else {
        base + "/"@ + component
    }
}

/// Joins a relative path component to `base`.
pub fn join_path(base: &str, component: &str) -> (r: String)
    ensures
        r@ == path_join(base@, component@),
{
    let len: usize = base.unicode_len();
    let mut r = String::from_str(base);
    if len > 0 && base.get_char(len - 1) != '/' {
        r.append("/");
    }
    r.append(component);
    r
}

/// The wrapper jar inside the application's directory.
pub open spec fn wrapper_jar(app_home: Seq<char>) -> Seq<char> {
    path_join(path_join(path_join(app_home, "gradle"@), "wrapper"@), "gradle-wrapper.jar"@)
}

/// The text that is split into JVM options: the defaults, then `JAVA_OPTS`,
/// then `GRADLE_OPTS`, separated by spaces.
pub open spec fn jvm_opts_line(java_opts: Seq<char>, gradle_opts: Seq<char>) -> Seq<char> {
    DEFAULT_JVM_OPTS@ + " "@ + java_opts + " "@ + gradle_opts
}

/// The arguments of the `java` command: the JVM options (none where they
/// could not be split), the application name property, the classpath, the
/// wrapper's main class and the script's own arguments.
pub open spec fn gradle_args(
    jvm_words: Option<Seq<Seq<char>>>,
    app_base_name: Seq<char>,
    app_home: Seq<char>,
    cli_args: Seq<Seq<char>>,
) -> Seq<Seq<char>> {
    let words = match jvm_words {
        Some(w) => w,
        None => Seq::empty(),
    };
    words + seq![
        "-Dorg.gradle.appname="@ + app_base_name,
        "-classpath"@,
        wrapper_jar(app_home),
        "org.gradle.wrapper.GradleWrapperMain"@,
    ] + cli_args
}

/// Builds the argument list from JVM options already split into words.
pub fn assemble_gradle_args(
    jvm_words: Option<Vec<String>>,
    app_base_name: &str,
    app_home: &str,
    cli_args: &[String],
) -> (r: Vec<String>)
    ensures
        strings_view(r@) == gradle_args(
            match jvm_words {
                Some(w) => Some(strings_view(w@)),
                None => None,
            },
            app_base_name@,
            app_home@,
            strings_view(cli_args@),
        ),
{
    let mut args: Vec<String> = match jvm_words {
        Some(w) => w,
        None => Vec::new(),
    };
    let ghost words = strings_view(args@);
    let mut name = String::from_str("-Dorg.gradle.appname=");
    name.append(app_base_name);
    args.push(name);
    args.push(String::from_str("-classpath"));
    let gradle = join_path(app_home, "gradle");
    let wrapper = join_path(gradle.as_str(), "wrapper");
    let jar = join_path(wrapper.as_str(), "gradle-wrapper.jar");
    args.push(jar);
    args.push(String::from_str("org.gradle.wrapper.GradleWrapperMain"));
    let ghost fixed = strings_view(args@);
    assert(fixed =~= words + seq![
        "-Dorg.gradle.appname="@ + app_base_name@,
        "-classpath"@,
        wrapper_jar(app_home@),
        "org.gradle.wrapper.GradleWrapperMain"@,
    ]);
    let mut i: usize = 0;
    while i < cli_args.len()
        invariant
            i <= cli_args.len(),
            strings_view(args@) =~= fixed + strings_view(cli_args@).subrange(0, i as int),
        decreases cli_args.len() - i,
    {
        let ghost prev = args@;
        args.push(cli_args[i].clone());
        assert(strings_view(args@) =~= strings_view(prev).push(cli_args@[i as int]@));
        assert(strings_view(cli_args@).subrange(0, i + 1) =~= strings_view(cli_args@).subrange(0, i as int).push(cli_args@[i as int]@));
        i += 1;
    }
    assert(strings_view(cli_args@).subrange(0, i as int) =~= strings_view(cli_args@));
    args
}

/// The Java command and its arguments that start the Gradle wrapper.
///
/// `java_on_path` is the `java` found on the `PATH`, used when no JDK is
/// given; `env_java_opts` and `env_gradle_opts` are the environment's
/// `JAVA_OPTS` and `GRADLE_OPTS` (empty when unset), used where the options
/// carry none.
pub fn generate_gradle_args(
    options: &GradleLaunchOptions,
    java_on_path: Option<&str>,
    env_java_opts: &str,
    env_gradle_opts: &str,
) -> (r: Result<(String, Vec<String>), GenerateArgsError>)
    ensures
        r is Err <==> options.jdk_home is None && java_on_path is None,
        r matches Err(e) ==> e == GenerateArgsError::JavaNotFound,
        r matches Ok((cmd, args)) ==> {
            &&& cmd@ == match options.jdk_home {
                Some(j) => j@,
                None => java_on_path.unwrap()@,
            }
            &&& strings_view(args@) == gradle_args(
                shell_words(
                    jvm_opts_line(
                        match options.java_opts {
                            Some(o) => o@,
                            None => env_java_opts@,
                        },
                        match options.gradle_opts {
                            Some(o) => o@,
                            None => env_gradle_opts@,
                        },
                    ),
                ),
                options.app_base_name@,
                options.app_home@,
                strings_view(options.cli_args@),
            )
        },
{
    let java_cmd: &str = match options.jdk_home {
        Some(j) => j,
        None => match java_on_path {
            Some(j) => j,
            None => return Err(GenerateArgsError::JavaNotFound),
        },
    };
    let java_opts: &str = match options.java_opts {
        Some(o) => o,
        None => env_java_opts,
    };
    let gradle_opts: &str = match options.gradle_opts {
        Some(o) => o,
        None => env_gradle_opts,
    };
    let mut line = String::from_str(DEFAULT_JVM_OPTS);
    line.append(" ");
    line.append(java_opts);
    line.append(" ");
    line.append(gradle_opts);
    let words = shlex_split(line.as_str());
    let args = assemble_gradle_args(words, options.app_base_name, options.app_home, options.cli_args);
    Ok((String::from_str(java_cmd), args))
}

/// Whether `pattern` occurs in `s`.
pub open spec fn occurs_in(pattern: Seq<char>, s: Seq<char>) -> bool {
    exists|i: int| 0 <= i <= s.len() - pattern.len() && #[trigger] s.subrange(i, i + pattern.len()) == pattern
}

/// Whether `pattern` occurs in `s` at position `at`.
fn occurs_at(pattern: &str, s: &str, at: usize) -> (r: bool)
    requires
        at + pattern@.len() <= s@.len() <= usize::MAX,
    ensures
        r == (s@.subrange(at as int, at + pattern@.len()) == pattern@),
{
    let plen: usize = pattern.unicode_len();
    let mut j: usize = 0;
    while j < plen
        invariant
            plen == pattern@.len(),
            at + plen <= s@.len() <= usize::MAX,
            j <= plen,
            forall|k: int| 0 <= k < j ==> s@[at + k] == pattern@[k],
        decreases plen - j,
    {
        if s.get_char(at + j) != pattern.get_char(j) {
            assert(s@.subrange(at as int, at + plen)[j as int] != pattern@[j as int]);
            return false;
        }
        j += 1;
    }
    assert(s@.subrange(at as int, at + plen) =~= pattern@);
    true
}

/// Whether `pattern` occurs in `s`.
pub fn contains_pattern(s: &str, pattern: &str) -> (r: bool)
    ensures
        r == occurs_in(pattern@, s@),
{
    let slen: usize = s.unicode_len();
    let plen: usize = pattern.unicode_len();
    if plen > slen {
        return false;
    }
    let last: usize = slen - plen;
    let mut i: usize = 0;
    loop
        invariant
            slen == s@.len(),
            plen == pattern@.len(),
            last == slen - plen,
            i <= last,
            forall|k: int| 0 <= k < i ==> #[trigger] s@.subrange(k, k + plen) != pattern@,
        decreases last - i,
    {
        if occurs_at(pattern, s, i) {
            return true;
        }
        if i == last {
            return false;
        }
        i += 1;
    }
}

/// Picks the built jar among the entries of the build's output directory:
/// the first whose name contains `pattern`.
pub fn find_built_jar(file_names: &Vec<String>, pattern: &str) -> (r: Option<usize>)
    ensures
        r is None <==> forall|k: int| 0 <= k < file_names.len() ==> !occurs_in(pattern@, #[trigger] file_names@[k]@),
        r matches Some(k) ==> k < file_names.len() && occurs_in(pattern@, file_names@[k as int]@)
            && forall|m: int| 0 <= m < k ==> !occurs_in(pattern@, #[trigger] file_names@[m]@),
{
    let mut k: usize = 0;
    while k < file_names.len()
        invariant
            k <= file_names.len(),
            forall|m: int| 0 <= m < k ==> !occurs_in(pattern@, #[trigger] file_names@[m]@),
        decreases file_names.len() - k,
    {
        if contains_pattern(file_names[k].as_str(), pattern) {
            return Some(k);
        }
        k += 1;
    }
    None
}

} // verus!
