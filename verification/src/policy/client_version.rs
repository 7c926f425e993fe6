//! Minimum version policy of recognised Codex clients.

use vstd::prelude::*;
use vstd::string::StringSliceAdditionalSpecFns;
use vstd::utf8::encode_utf8;

use crate::text::{is_control, str_equal, trim_spec, trim_str};

verus! {

/// A SemVer version as the `semver` crate holds it.
#[verifier::external_type_specification]
#[verifier::external_body]
pub struct ExSemverVersion(semver::Version);

/// Whether `semver::Version::parse` accepts the text as a version.
pub uninterp spec fn semver_accepts(text: Seq<char>) -> bool;

/// Whether the version parsed from `a` has lower precedence than the one
/// parsed from `b`, as `semver::Version`'s `Ord` orders them.
pub uninterp spec fn semver_precedes(a: Seq<char>, b: Seq<char>) -> bool;

/// `semver::Version::parse`: the version, or `None` where the text is not
/// a valid SemVer version. The version itself is not described.
#[verifier::external_body]
fn semver_parse(value: &str) -> (r: Option<semver::Version>)
    ensures
        r is Some <==> semver_accepts(value@),
{
    semver::Version::parse(value).ok()
}

/// `Clone::clone` of a `semver::Version`: a copy. Nothing is stated of it,
/// since the version itself is never read here.
pub assume_specification[ <semver::Version as Clone>::clone ](version: &semver::Version) -> semver::Version;

/// `semver::Version::parse` of both texts and `<` on the two versions:
/// whether the version `a` names has lower precedence than the one `b`
/// names. Both texts are ones the parser accepts.
#[verifier::external_body]
fn text_precedes(a: &str, b: &str) -> (r: bool)
    requires
        semver_accepts(a@),
        semver_accepts(b@),
    ensures
        r == semver_precedes(a@, b@),
{
    match (semver::Version::parse(a), semver::Version::parse(b)) {
        (Ok(x), Ok(y)) => x < y,
        _ => false,
    }
}

/// A Codex client whose minimum version the gateway may enforce.
#[derive(Debug, Clone, Copy, PartialEq, Eq, Structural)]
pub enum CodexClientKind {
    Desktop,
    Cli,
}

impl CodexClientKind {
    pub open spec fn spec_name(self) -> Seq<char> {
        match self {
            CodexClientKind::Desktop => "codex_desktop"@,
            CodexClientKind::Cli => "codex_cli"@,
        }
    }

    pub fn as_str(self) -> (r: &'static str)
        ensures
            r@ == self.spec_name(),
    {
        match self {
            CodexClientKind::Desktop => "codex_desktop",
            CodexClientKind::Cli => "codex_cli",
        }
    }
}

/// The longest version text accepted, in bytes.
pub const MAXIMUM_VERSION_LENGTH: usize = 64;

/// The shape a version text must have before SemVer parsing: 1 to 64
/// bytes, no surrounding whitespace, no ASCII control byte.
pub open spec fn version_text_shape(value: Seq<char>) -> bool {
    let b = encode_utf8(value);
    &&& 0 < b.len() <= MAXIMUM_VERSION_LENGTH
    &&& trim_spec(value) == value
    &&& forall|i: int| 0 <= i < b.len() ==> !is_control(#[trigger] b[i])
}

/// A strictly checked SemVer version of a Codex client; its view is the
/// text it was parsed from.
#[derive(Debug, PartialEq, Eq, PartialOrd, Ord)]
pub struct CodexClientVersion {
    version: semver::Version,
    text: String,
}

impl CodexClientVersion {
    /// The text is one that `semver::Version::parse` accepts.
    #[verifier::type_invariant]
    spec fn parsed(self) -> bool {
        semver_accepts(self.text@)
    }
}

impl Clone for CodexClientVersion {
    fn clone(&self) -> (r: CodexClientVersion)
        ensures
            r@ == self@,
    {
        self.duplicate()
    }
}

impl View for CodexClientVersion {
    type V = Seq<char>;

    closed spec fn view(&self) -> Seq<char> {
        self.text@
    }
}

/// The version text is not a valid version.
#[derive(Debug, Clone, Copy, PartialEq, Eq, Structural)]
pub struct CodexClientVersionError;

fn has_control_byte(b: &[u8]) -> (r: bool)
    ensures
        r == exists|i: int| 0 <= i < b@.len() && is_control(#[trigger] b@[i]),
{
    let mut i: usize = 0;
    while i < b.len()
        invariant
            i <= b.len(),
            forall|j: int| 0 <= j < i ==> !is_control(#[trigger] b@[j]),
        decreases b.len() - i,
    {
        if b[i] < 32 || b[i] == 127 {
            assert(is_control(b@[i as int]));
            return true;
        }
        i = i + 1;
    }
    false
}

impl CodexClientVersion {
    /// Accepts only a standard SemVer version with no surrounding whitespace,
    /// at most 64 bytes long.
    pub fn parse(value: &str) -> (r: Result<CodexClientVersion, CodexClientVersionError>)
        ensures
            r is Ok <==> version_text_shape(value@) && semver_accepts(value@),
            r matches Ok(v) ==> v@ == value@,
    {
        let bytes = value.as_bytes();
        if bytes.len() == 0 || bytes.len() > MAXIMUM_VERSION_LENGTH || !str_equal(trim_str(value), value)
            || has_control_byte(bytes) {
            return Err(CodexClientVersionError);
        }
        match semver_parse(value) {
            Some(version) => {
                let text = value.to_string();
                Ok(CodexClientVersion { version, text })
            },
            None => Err(CodexClientVersionError),
        }
    }

    /// The version text, which is how the version displays.
    pub fn to_string(&self) -> (r: String)
        ensures
            r@ == self@,
    {
        self.text.clone()
    }

    /// A copy of the version.
    pub fn duplicate(&self) -> (r: CodexClientVersion)
        ensures
            r@ == self@,
    {
        proof {
            use_type_invariant(self);
        }
        CodexClientVersion { version: self.version.clone(), text: self.text.clone() }
    }
}

/// A recognised client fell short of the frozen minimum version.
#[derive(Debug, Clone, PartialEq, Eq)]
pub enum ClientVersionRejection {
    /// The client sent no valid version.
    Unavailable { kind: CodexClientKind, min: CodexClientVersion },
    /// The client's version is below the minimum.
    TooOld { kind: CodexClientKind, current: CodexClientVersion, min: CodexClientVersion },
}

impl ClientVersionRejection {
    pub fn kind(&self) -> (r: CodexClientKind)
        ensures
            r == match self {
                ClientVersionRejection::Unavailable { kind, .. } => *kind,
                ClientVersionRejection::TooOld { kind, .. } => *kind,
            },
    {
        match self {
            ClientVersionRejection::Unavailable { kind, .. } => *kind,
            ClientVersionRejection::TooOld { kind, .. } => *kind,
        }
    }

    pub fn current(&self) -> (r: Option<&CodexClientVersion>)
        ensures
            match self {
                ClientVersionRejection::Unavailable { .. } => r is None,
                ClientVersionRejection::TooOld { current, .. } => r == Some(current),
            },
    {
        match self {
            ClientVersionRejection::Unavailable { .. } => None,
            ClientVersionRejection::TooOld { current, .. } => Some(current),
        }
    }

    pub fn min(&self) -> (r: &CodexClientVersion)
        ensures
            *r == match self {
                ClientVersionRejection::Unavailable { min, .. } => *min,
                ClientVersionRejection::TooOld { min, .. } => *min,
            },
    {
        match self {
            ClientVersionRejection::Unavailable { min, .. } => min,
            ClientVersionRejection::TooOld { min, .. } => min,
        }
    }
}

/// The minimum versions frozen in a runtime snapshot; `None` leaves that
/// client unrestricted.
#[derive(Debug, Clone, PartialEq, Eq)]
pub struct CodexClientMinVersions {
    desktop: Option<CodexClientVersion>,
    cli: Option<CodexClientVersion>,
}

impl Default for CodexClientMinVersions {
    fn default() -> (r: CodexClientMinVersions)
        ensures
            r.spec_desktop() is None,
            r.spec_cli() is None,
    {
        CodexClientMinVersions { desktop: None, cli: None }
    }
}

impl CodexClientMinVersions {
    pub closed spec fn spec_desktop(&self) -> Option<CodexClientVersion> {
        self.desktop
    }

    pub closed spec fn spec_cli(&self) -> Option<CodexClientVersion> {
        self.cli
    }

    pub open spec fn spec_min_for(&self, kind: CodexClientKind) -> Option<CodexClientVersion> {
        match kind {
            CodexClientKind::Desktop => self.spec_desktop(),
            CodexClientKind::Cli => self.spec_cli(),
        }
    }

    pub fn new(desktop: Option<CodexClientVersion>, cli: Option<CodexClientVersion>) -> (r: CodexClientMinVersions)
        ensures
            r.spec_desktop() == desktop,
            r.spec_cli() == cli,
    {
        CodexClientMinVersions { desktop, cli }
    }

    pub fn desktop(&self) -> (r: Option<&CodexClientVersion>)
        ensures
            r is Some <==> self.spec_desktop() is Some,
            r matches Some(v) ==> self.spec_desktop() == Some(*v),
    {
        self.desktop.as_ref()
    }

    pub fn cli(&self) -> (r: Option<&CodexClientVersion>)
        ensures
            r is Some <==> self.spec_cli() is Some,
            r matches Some(v) ==> self.spec_cli() == Some(*v),
    {
        self.cli.as_ref()
    }

    pub fn min_for(&self, kind: CodexClientKind) -> (r: Option<&CodexClientVersion>)
        ensures
            r is Some <==> self.spec_min_for(kind) is Some,
            r matches Some(v) ==> self.spec_min_for(kind) == Some(*v),
    {
        match kind {
            CodexClientKind::Desktop => self.desktop(),
            CodexClientKind::Cli => self.cli(),
        }
    }

    /// Checks a recognised client; a client with no minimum passes.
    pub fn enforce(&self, kind: CodexClientKind, current: Option<&CodexClientVersion>) -> (r: Result<
        (),
        ClientVersionRejection,
    >)
        ensures
            self.spec_min_for(kind) is None ==> r is Ok,
            self.spec_min_for(kind) matches Some(min) ==> match current {
                None => r matches Err(ClientVersionRejection::Unavailable { kind: k, min: m })
                    && k == kind && m@ == min@,
                Some(c) => if semver_precedes(c@, min@) {
                    r matches Err(ClientVersionRejection::TooOld { kind: k, current: cc, min: m })
                        && k == kind && cc@ == c@ && m@ == min@
                } else {
                    r is Ok
                },
            },
    {
        let min = match self.min_for(kind) {
            Some(min) => min,
            None => return Ok(()),
        };
        let current = match current {
            Some(current) => current,
            None => return Err(ClientVersionRejection::Unavailable { kind, min: min.duplicate() }),
        };
        proof {
            use_type_invariant(current);
            use_type_invariant(min);
        }
        if text_precedes(current.text.as_str(), min.text.as_str()) {
            return Err(
                ClientVersionRejection::TooOld { kind, current: current.duplicate(), min: min.duplicate() },
            );
        }
        Ok(())
    }
}

} // verus!
