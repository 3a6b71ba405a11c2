//! Reading a JDK's version from `java -version` and choosing a JDK.
use vstd::prelude::*;
use vstd::utf8::{decode_utf8, valid_utf8};
use crate::number::{i32_of, parse_i32};

verus! {

/// Declares std's UTF-8 decoding error, carried as the cause of an
/// unreadable `java -version` output.
#[verifier::external_type_specification]
#[verifier::external_body]
pub struct ExFromUtf8Error(std::string::FromUtf8Error);

/// Why the version of a Java executable could not be read.
#[derive(Debug)]
pub enum JavaVersionError {
    /// The executable could not be started.
    CommandIo(std::io::Error),
    /// `java -version` exited with an error; its standard error is kept.
    CommandFailed(String),
    /// The output was not UTF-8.
    OutputParseError(std::string::FromUtf8Error),
    /// The output holds no version string.
    VersionNotFound,
}

/// The pattern of the version line; its first group is the version.
pub const JAVA_VERSION_PATTERN: &'static str = "(?:java|openjdk) version \"([^\"]+)\"";

/// The text of the first group of the leftmost match of the regular
/// expression `pattern` in `text`, or `None` where nothing matches or the
/// pattern is invalid.
pub uninterp spec fn first_group_of(pattern: Seq<char>, text: Seq<char>) -> Option<Seq<char>>;

/// Relies on regex::Regex::new and Regex::captures: the leftmost match and
/// the text of its first capture group.
#[verifier::external_body]
fn regex_first_group(pattern: &str, text: &str) -> (r: Option<String>)
    ensures
        r matches Some(v) ==> first_group_of(pattern@, text@) == Some(v@),
        r is None ==> first_group_of(pattern@, text@) is None,
{
    match regex::Regex::new(pattern) {
        Ok(re) => re.captures(text).and_then(|c| c.get(1)).map(|m| m.as_str().to_string()),
        Err(_) => None,
    }
}

/// What decoding `bytes` as UTF-8 with U+FFFD for invalid sequences gives.
pub uninterp spec fn utf8_lossy_of(bytes: Seq<u8>) -> Seq<char>;

/// Relies on String::from_utf8_lossy: valid UTF-8 is decoded as it is.
#[verifier::external_body]
fn utf8_lossy(bytes: &[u8]) -> (r: String)
    ensures
        r@ == utf8_lossy_of(bytes@),
        valid_utf8(bytes@) ==> r@ == decode_utf8(bytes@),
{
    String::from_utf8_lossy(bytes).into_owned()
}

/// Relies on String::from_utf8: it succeeds exactly on valid UTF-8.
#[verifier::external_body]
fn utf8_decode(bytes: Vec<u8>) -> (r: Result<String, std::string::FromUtf8Error>)
    ensures
        r is Ok <==> valid_utf8(bytes@),
        r matches Ok(s) ==> s@ == decode_utf8(bytes@),
{
    String::from_utf8(bytes)
}

/// Reads the Java version from the result of `java -version`, which writes
/// it to standard error: `success` is whether the command exited with
/// success and `stderr` what it wrote there.
pub fn java_version_from_output(success: bool, stderr: Vec<u8>) -> (r: Result<String, JavaVersionError>)
    ensures
        !success ==> (r matches Err(JavaVersionError::CommandFailed(m)) && m@ == utf8_lossy_of(stderr@)),
        success && !valid_utf8(stderr@) ==> r matches Err(JavaVersionError::OutputParseError(_)),
        success && valid_utf8(stderr@) ==> match first_group_of(JAVA_VERSION_PATTERN@, decode_utf8(stderr@)) {
            Some(v) => (r matches Ok(s) && s@ == v),
            None => r matches Err(JavaVersionError::VersionNotFound),
        },
{
    if !success {
        return Err(JavaVersionError::CommandFailed(utf8_lossy(stderr.as_slice())));
    }
    let text = match utf8_decode(stderr) {
        Ok(t) => t,
        Err(e) => return Err(JavaVersionError::OutputParseError(e)),
    };
    match regex_first_group(JAVA_VERSION_PATTERN, text.as_str()) {
        Some(v) => Ok(v),
        None => Err(JavaVersionError::VersionNotFound),
    }
}

/// The position of the first `.` in `v`, or its length when there is none.
pub open spec fn dot_index(v: Seq<char>) -> nat
    decreases v.len(),
{
    if v.len() == 0 || v[0] == '.' {
        0
    } else {
        1 + dot_index(v.drop_first())
    }
}

proof fn lemma_dot_index(v: Seq<char>, j: int)
    requires
        0 <= j <= v.len(),
        forall|k: int| 0 <= k < j ==> v[k] != '.',
        j == v.len() || v[j] == '.',
    ensures
        dot_index(v) == j,
    decreases j,
{
    if j > 0 {
        lemma_dot_index(v.drop_first(), j - 1);
    }
}

/// The major number of a version string: the part before the first `.`,
/// read as an `i32`.
pub open spec fn major_of(version: Seq<char>) -> Option<i32> {
    i32_of(version.subrange(0, dot_index(version) as int))
}

/// Reads the major number of a version string ("17.0.2" gives 17, "1.8.0"
/// gives 1).
pub fn major_version(version: &str) -> (r: Option<i32>)
    ensures
        r == major_of(version@),
{
    let len: usize = version.unicode_len();
    let mut j: usize = 0;
    while j < len && version.get_char(j) != '.'
        invariant
            len == version@.len(),
            j <= len,
            forall|k: int| 0 <= k < j ==> version@[k] != '.',
        decreases len - j,
    {
        j += 1;
    }
    proof {
        lemma_dot_index(version@, j as int);
    }
    let head = version.substring_char(0, j);
    parse_i32(head)
}

/// What a caller needs of a JDK: its `java` executable and major version.
pub trait JdkTrait {
    spec fn executable_spec(&self) -> Seq<char>;

    spec fn version_spec(&self) -> i32;

    fn java_executable(&self) -> (r: &str)
        ensures
            r@ == self.executable_spec(),
    ;

    fn version(&self) -> (r: i32)
        ensures
            r == self.version_spec(),
    ;
}

/// A JDK found on the machine.
#[derive(Debug)]
pub struct Jdk {
    java_executable: String,
    version: i32,
}

impl JdkTrait for Jdk {
    closed spec fn executable_spec(&self) -> Seq<char> {
        self.java_executable@
    }

    closed spec fn version_spec(&self) -> i32 {
        self.version
    }

    fn java_executable(&self) -> (r: &str) {
        self.java_executable.as_str()
    }

    fn version(&self) -> (r: i32) {
        self.version
    }
}

/// A candidate qualifies when its version was read and its major number is
/// at least `minimum`.
pub open spec fn qualifies(version: Option<String>, minimum: i32) -> bool {
    match version {
        Some(v) => match major_of(v@) {
            Some(m) => m >= minimum,
            None => false,
        },
        None => false,
    }
}

impl Jdk {
    /// Chooses the first candidate whose major version is at least
    /// `minimalize_version`. Each candidate is a `java` executable on the
    /// `PATH`, in order, with the version read from it (`None` where that
    /// failed).
    pub fn resolve_higher(candidates: &Vec<(String, Option<String>)>, minimalize_version: i32) -> (r:
        Option<Jdk>)
        ensures
            r is None <==> forall|k: int|
                0 <= k < candidates.len() ==> !qualifies(#[trigger] candidates@[k].1, minimalize_version),
            r matches Some(jdk) ==> exists|k: int|
                0 <= k < candidates.len() && qualifies(#[trigger] candidates@[k].1, minimalize_version)
                    && (forall|m: int| 0 <= m < k ==> !qualifies(#[trigger] candidates@[m].1, minimalize_version))
                    && jdk.executable_spec() == candidates@[k].0@
                    && Some(jdk.version_spec()) == major_of(candidates@[k].1.unwrap()@),
    {
        let mut k: usize = 0;
        while k < candidates.len()
            invariant
                k <= candidates.len(),
                forall|m: int| 0 <= m < k ==> !qualifies(#[trigger] candidates@[m].1, minimalize_version),
            decreases candidates.len() - k,
        {
            let (executable, version) = &candidates[k];
            match version {
                Some(v) => match major_version(v.as_str()) {
                    Some(major) => {
                        if major >= minimalize_version {
                            let jdk = Jdk { java_executable: executable.clone(), version: major };
                            assert(qualifies(candidates@[k as int].1, minimalize_version));
                            return Some(jdk);
                        }
                    },
                    None => {},
                },
                None => {},
            }
            k += 1;
        }
        None
    }
}

} // verus!
