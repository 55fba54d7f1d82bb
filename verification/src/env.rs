//! Discovery of the proxy binary and of Application Default Credentials.
//!
//! The functions here decide; whoever calls them has looked at the files.

use vstd::prelude::*;

use crate::model::{CheckRow, CheckRowView, CheckStatus};
use crate::paths;
use crate::text;

pub mod version_probe;

use crate::env::version_probe::ProxyVersionError;

verus! {

pub const PROXY_BIN_INSTALL_HINT: &'static str =
    "Install cloud-sql-proxy, or set \"proxy_bin\" in connections.json to its absolute path.";

pub const ADC_RELATIVE_PATH: &'static str =
    ".config/gcloud/application_default_credentials.json";

pub const ADC_HINT: &'static str =
    "Run: gcloud auth application-default login \u{2014} see https://cloud.google.com/docs/authentication/provide-credentials-adc";

// ---------------------------------------------------------------------------
// The proxy binary.
// ---------------------------------------------------------------------------

/// Why no usable proxy binary was found.
#[derive(Debug, PartialEq, Eq)]
pub enum ProxyBinError {
    /// A bare name is on no entry of `PATH`.
    NotFound { name: String },
    /// The path is not an executable file.
    NotExecutable { path: String },
}

#[verifier::ext_equal]
pub enum ProxyBinErrorView {
    NotFound { name: Seq<char> },
    NotExecutable { path: Seq<char> },
}

impl View for ProxyBinError {
    type V = ProxyBinErrorView;

    open spec fn view(&self) -> ProxyBinErrorView {
        match self {
            ProxyBinError::NotFound { name } => ProxyBinErrorView::NotFound { name: name@ },
            ProxyBinError::NotExecutable { path } => ProxyBinErrorView::NotExecutable {
                path: path@,
            },
        }
    }
}

impl ProxyBinErrorView {
    pub open spec fn text(self) -> Seq<char> {
        match self {
            ProxyBinErrorView::NotFound { name } => name + " not found on PATH"@,
            ProxyBinErrorView::NotExecutable { path } => path + " is not an executable file"@,
        }
    }
}

impl ProxyBinError {
    /// The error in words.
    pub fn message(&self) -> (message: String)
        ensures
            message@ == self@.text(),
    {
        match self {
            ProxyBinError::NotFound { name } => text::concat(name.as_str(), " not found on PATH"),
            ProxyBinError::NotExecutable { path } => text::concat(
                path.as_str(),
                " is not an executable file",
            ),
        }
    }
}

/// What is known about a path: whether it is a file, and its permission bits.
#[derive(Debug, Clone, Copy, PartialEq, Eq, Structural)]
pub struct FileFacts {
    pub is_file: bool,
    pub mode: u32,
}

/// A file that somebody may execute.
pub open spec fn executable(facts: FileFacts) -> bool {
    facts.is_file && facts.mode & 0o111 != 0
}

pub fn is_executable_file(facts: FileFacts) -> (yes: bool)
    ensures
        yes == executable(facts),
{
    facts.is_file && facts.mode & 0o111 != 0
}

/// The paths at which a binary may stand: an absolute name itself, a bare
/// name under every entry of `PATH` in order.
pub open spec fn candidate_paths(name: Seq<char>, path_env: Seq<char>) -> Seq<Seq<char>> {
    if paths::absolute(name) {
        seq![name]
    } else {
        text::pieces(path_env, ':').map_values(|dir: Seq<char>| paths::joined(dir, name))
    }
}

/// The paths at which to look for a binary.
pub fn bin_candidates(name: &str, path_env: &str) -> (candidates: Vec<String>)
    ensures
        text::views(candidates@) == candidate_paths(name@, path_env@),
{
    let mut candidates: Vec<String> = Vec::new();
    if paths::is_absolute(name) {
        candidates.push(name.to_owned());
        assert(text::views(candidates@) =~= seq![name@]);
        return candidates;
    }
    let dirs = text::split(path_env, ':');
    let ghost pieces = text::pieces(path_env@, ':');
    let mut i: usize = 0;
    while i < dirs.len()
        invariant
            i <= dirs@.len(),
            candidates@.len() == i,
            forall|k: int|
                0 <= k < i ==> (#[trigger] candidates@[k])@ == paths::joined(dirs@[k]@, name@),
        decreases dirs@.len() - i,
    {
        candidates.push(paths::join(dirs[i].as_str(), name));
        i += 1;
    }
    proof {
        assert(pieces.len() == dirs@.len());
        assert forall|k: int| 0 <= k < dirs@.len() implies #[trigger] pieces[k] == dirs@[k]@ by {
            assert(text::views(dirs@)[k] == dirs@[k]@);
        }
        assert(text::views(candidates@) =~= candidate_paths(name@, path_env@));
    }
    candidates
}

/// A candidate and what was found there.
#[derive(Debug, PartialEq, Eq)]
pub struct Candidate {
    pub path: String,
    pub facts: FileFacts,
}

/// The first executable candidate.
pub open spec fn first_executable(candidates: Seq<Candidate>) -> Option<Seq<char>>
    decreases candidates.len(),
{
    if candidates.len() == 0 {
        None
    } else if executable(candidates[0].facts) {
        Some(candidates[0].path@)
    } else {
        first_executable(candidates.drop_first())
    }
}

/// The first candidate that is a file.
pub open spec fn first_file(candidates: Seq<Candidate>) -> Option<Seq<char>>
    decreases candidates.len(),
{
    if candidates.len() == 0 {
        None
    } else if candidates[0].facts.is_file {
        Some(candidates[0].path@)
    } else {
        first_file(candidates.drop_first())
    }
}

/// The binary among its candidates. An absolute name is its own candidate and
/// has to be executable; for a bare name the first executable candidate wins,
/// and a file without the execute permission is reported as such.
pub open spec fn resolved_bin(name: Seq<char>, candidates: Seq<Candidate>) -> Result<
    Seq<char>,
    ProxyBinErrorView,
> {
    if paths::absolute(name) {
        if candidates.len() > 0 && executable(candidates[0].facts) {
            Ok(name)
        } else {
            Err(ProxyBinErrorView::NotExecutable { path: name })
        }
    } else if first_executable(candidates) is Some {
        Ok(first_executable(candidates)->0)
    } else if first_file(candidates) is Some {
        Err(ProxyBinErrorView::NotExecutable { path: first_file(candidates)->0 })
    } else {
        Err(ProxyBinErrorView::NotFound { name })
    }
}

/// An absolute path has to be an executable file.
pub fn require_executable_file(path: &str, facts: FileFacts) -> (result: Result<(), ProxyBinError>)
    ensures
        match result {
            Ok(()) => executable(facts),
            Err(error) => !executable(facts) && error@ == (ProxyBinErrorView::NotExecutable {
                path: path@,
            }),
        },
{
    if is_executable_file(facts) {
        Ok(())
    } else {
        Err(ProxyBinError::NotExecutable { path: path.to_owned() })
    }
}

/// Picks the binary among its candidates.
pub fn resolve_bin(name: &str, candidates: &Vec<Candidate>) -> (result: Result<
    String,
    ProxyBinError,
>)
    ensures
        match result {
            Ok(path) => resolved_bin(name@, candidates@) == Ok::<Seq<char>, ProxyBinErrorView>(
                path@,
            ),
            Err(error) => resolved_bin(name@, candidates@) == Err::<Seq<char>, ProxyBinErrorView>(
                error@,
            ),
        },
{
    if paths::is_absolute(name) {
        let facts = if candidates.len() > 0 {
            candidates[0].facts
        } else {
            FileFacts { is_file: false, mode: 0 }
        };
        return match require_executable_file(name, facts) {
            Ok(()) => Ok(name.to_owned()),
            Err(error) => Err(error),
        };
    }
    let mut non_executable_match: Option<String> = None;
    let mut i: usize = 0;
    assert(candidates@.skip(0) =~= candidates@);
    while i < candidates.len()
        invariant
            !paths::absolute(name@),
            i <= candidates@.len(),
            first_executable(candidates@) == first_executable(candidates@.skip(i as int)),
            first_file(candidates@) == match non_executable_match {
                Some(path) => Some(path@),
                None => first_file(candidates@.skip(i as int)),
            },
        decreases candidates@.len() - i,
    {
        let candidate = &candidates[i];
        if is_executable_file(candidate.facts) {
            return Ok(candidate.path.clone());
        }
        if non_executable_match.is_none() && candidate.facts.is_file {
            non_executable_match = Some(candidate.path.clone());
        }
        assert(candidates@.skip(i as int).drop_first() =~= candidates@.skip(i + 1));
        i += 1;
    }
    match non_executable_match {
        Some(path) => Err(ProxyBinError::NotExecutable { path }),
        None => Err(ProxyBinError::NotFound { name: name.to_owned() }),
    }
}

/// The binary to look for: the configured one, else the proxy's usual name.
pub fn proxy_bin_name(configured: Option<&str>) -> (name: String)
    ensures
        name@ == match configured {
            Some(name) => name@,
            None => "cloud-sql-proxy"@,
        },
{
    match configured {
        Some(name) => name.to_owned(),
        None => "cloud-sql-proxy".to_owned(),
    }
}

pub open spec fn proxy_bin_missing_row(error: ProxyBinErrorView) -> CheckRowView {
    CheckRowView {
        id: "proxy_bin"@,
        status: CheckStatus::Fail,
        detail: error.text(),
        hint: Some(PROXY_BIN_INSTALL_HINT@),
    }
}

pub open spec fn proxy_bin_probe_row(
    path: Seq<char>,
    probe: Result<String, ProxyVersionError>,
) -> CheckRowView {
    match probe {
        Ok(version) => CheckRowView {
            id: "proxy_bin"@,
            status: CheckStatus::Pass,
            detail: path + " ("@ + version@ + ")"@,
            hint: None,
        },
        Err(error) => CheckRowView {
            id: "proxy_bin"@,
            status: CheckStatus::Fail,
            detail: path + ": "@ + error.text(),
            hint: Some(error.hint_text()),
        },
    }
}

/// Doctor's row for the proxy binary: found first, then probed.
pub open spec fn proxy_bin_row(
    resolved: Result<String, ProxyBinError>,
    probe: Result<String, ProxyVersionError>,
) -> CheckRowView {
    match resolved {
        Err(error) => proxy_bin_missing_row(error@),
        Ok(path) => proxy_bin_probe_row(path@, probe),
    }
}

/// Doctor's check of the proxy binary: where it was found, and what its
/// version probe said.
pub fn proxy_bin_check(
    resolved: &Result<String, ProxyBinError>,
    probe: &Result<String, ProxyVersionError>,
) -> (row: CheckRow)
    ensures
        row@ == proxy_bin_row(*resolved, *probe),
{
    match resolved {
        Err(error) => check_row_for_proxy_bin_resolve_error(error),
        Ok(path) => check_row_for_proxy_bin_probe(path.as_str(), probe),
    }
}

pub fn check_row_for_proxy_bin_resolve_error(error: &ProxyBinError) -> (row: CheckRow)
    ensures
        row@ == proxy_bin_missing_row(error@),
{
    CheckRow {
        id: "proxy_bin".to_owned(),
        status: CheckStatus::Fail,
        detail: error.message(),
        hint: Some(PROXY_BIN_INSTALL_HINT.to_owned()),
    }
}

pub fn check_row_for_proxy_bin_probe(path: &str, probe: &Result<String, ProxyVersionError>) -> (row:
    CheckRow)
    ensures
        row@ == proxy_bin_probe_row(path@, *probe),
{
    match probe {
        Ok(version) => CheckRow {
            id: "proxy_bin".to_owned(),
            status: CheckStatus::Pass,
            detail: format_proxy_bin_pass_detail(path, version.as_str()),
            hint: None,
        },
        Err(error) => CheckRow {
            id: "proxy_bin".to_owned(),
            status: CheckStatus::Fail,
            detail: format_proxy_version_fail_detail(path, error),
            hint: Some(error.hint().to_owned()),
        },
    }
}

/// `{path} ({version})`.
pub fn format_proxy_bin_pass_detail(path: &str, version: &str) -> (detail: String)
    ensures
        detail@ == path@ + " ("@ + version@ + ")"@,
{
    let mut detail = path.to_owned();
    detail.append(" (");
    detail.append(version);
    detail.append(")");
    detail
}

/// `{path}: {error}`.
pub fn format_proxy_version_fail_detail(path: &str, error: &ProxyVersionError) -> (detail: String)
    ensures
        detail@ == path@ + ": "@ + error.text(),
{
    let mut detail = path.to_owned();
    detail.append(": ");
    detail.append(error.message().as_str());
    detail
}

// ---------------------------------------------------------------------------
// Application Default Credentials.
// ---------------------------------------------------------------------------

/// Whether a file can be read, given what is known about its path and whether
/// it could be opened.
pub fn is_readable_file(facts: FileFacts, opened: bool) -> (yes: bool)
    ensures
        yes == (facts.is_file && opened),
{
    facts.is_file && opened
}

/// Where credentials were looked for, and whether they are there.
#[derive(Debug, PartialEq, Eq)]
pub struct AdcStatus {
    /// Whether a readable credentials file was found.
    pub present: bool,
    /// The path that was looked at, where there is one.
    pub path: Option<String>,
    /// Whether the environment variable named the path.
    pub gac_env_set: bool,
}

/// The path of the credentials file: the one that the environment variable
/// names, else the default one under the home directory.
pub open spec fn credentials_path(home: Option<Seq<char>>, gac_env: Option<Seq<char>>) -> Option<
    Seq<char>,
> {
    match gac_env {
        Some(path) => Some(path),
        None => match home {
            Some(home) => Some(paths::joined(home, ADC_RELATIVE_PATH@)),
            None => None,
        },
    }
}

/// The path of the credentials file to look at.
pub fn adc_candidate(home: &Option<String>, gac_env: &Option<String>) -> (path: Option<String>)
    ensures
        text::option_view(path) == credentials_path(
            text::option_view(*home),
            text::option_view(*gac_env),
        ),
{
    match gac_env {
        Some(path) => Some(path.clone()),
        None => match home {
            Some(home) => Some(paths::join(home.as_str(), ADC_RELATIVE_PATH)),
            None => None,
        },
    }
}

/// The credentials' status, given whether the file to look at is readable.
/// Without a file to look at there are none.
pub fn resolve_adc_status(
    home: &Option<String>,
    gac_env: &Option<String>,
    readable: bool,
) -> (status: AdcStatus)
    ensures
        text::option_view(status.path) == credentials_path(
            text::option_view(*home),
            text::option_view(*gac_env),
        ),
        status.present == (readable && status.path is Some),
        status.gac_env_set == gac_env is Some,
{
    let path = adc_candidate(home, gac_env);
    AdcStatus { present: readable && path.is_some(), path, gac_env_set: gac_env.is_some() }
}

pub open spec fn path_text(path: Option<Seq<char>>) -> Seq<char> {
    match path {
        Some(path) => path,
        None => Seq::empty(),
    }
}

pub fn display_path(path: &Option<String>) -> (shown: String)
    ensures
        shown@ == path_text(text::option_view(*path)),
{
    match path {
        Some(path) => path.clone(),
        None => String::new(),
    }
}

/// Why a credentials file does not count although it was looked for.
pub open spec fn file_reason(exists: bool) -> Seq<char> {
    if exists {
        "exists but is unreadable"@
    } else {
        "does not exist"@
    }
}

pub fn existing_file_reason(exists: bool) -> (reason: &'static str)
    ensures
        reason@ == file_reason(exists),
{
    if exists {
        "exists but is unreadable"
    } else {
        "does not exist"
    }
}

pub open spec fn missing_adc_text(path: Option<Seq<char>>, gac_env_set: bool, exists: bool) -> Seq<
    char,
> {
    match path {
        None =>
            "could not determine a home directory to look for Application Default Credentials"@,
        Some(path) => if gac_env_set {
            "GOOGLE_APPLICATION_CREDENTIALS is set to "@ + path
                + " but that file is missing or unreadable"@
        } else {
            "no Application Default Credentials file at "@ + path + " ("@ + file_reason(exists)
                + ") and GOOGLE_APPLICATION_CREDENTIALS is unset"@
        },
    }
}

/// Why there are no credentials; `exists` says whether there is a file at the
/// path at all.
pub fn missing_adc_detail(status: &AdcStatus, exists: bool) -> (detail: String)
    ensures
        detail@ == missing_adc_text(text::option_view(status.path), status.gac_env_set, exists),
{
    match &status.path {
        None =>
            "could not determine a home directory to look for Application Default Credentials".to_owned(),
        Some(path) => if status.gac_env_set {
            let mut detail = "GOOGLE_APPLICATION_CREDENTIALS is set to ".to_owned();
            detail.append(path.as_str());
            detail.append(" but that file is missing or unreadable");
            detail
        } else {
            let mut detail = "no Application Default Credentials file at ".to_owned();
            detail.append(path.as_str());
            detail.append(" (");
            detail.append(existing_file_reason(exists));
            detail.append(") and GOOGLE_APPLICATION_CREDENTIALS is unset");
            detail
        },
    }
}

pub open spec fn adc_row(
    present: bool,
    path: Option<Seq<char>>,
    gac_env_set: bool,
    exists: bool,
) -> CheckRowView {
    if present {
        CheckRowView {
            id: "adc"@,
            status: CheckStatus::Pass,
            detail: path_text(path),
            hint: None,
        }
    } else {
        CheckRowView {
            id: "adc"@,
            status: CheckStatus::Fail,
            detail: missing_adc_text(path, gac_env_set, exists),
            hint: Some(ADC_HINT@),
        }
    }
}

/// Doctor's check of the credentials.
pub fn check_row_for_adc(status: &AdcStatus, exists: bool) -> (row: CheckRow)
    ensures
        row@ == adc_row(
            status.present,
            text::option_view(status.path),
            status.gac_env_set,
            exists,
        ),
{
    if status.present {
        CheckRow {
            id: "adc".to_owned(),
            status: CheckStatus::Pass,
            detail: display_path(&status.path),
            hint: None,
        }
    } else {
        CheckRow {
            id: "adc".to_owned(),
            status: CheckStatus::Fail,
            detail: missing_adc_detail(status, exists),
            hint: Some(ADC_HINT.to_owned()),
        }
    }
}

/// What the environment says about Application Default Credentials.
#[derive(Debug, PartialEq, Eq)]
pub struct Credentials {
    pub home: Option<String>,
    pub gac_env: Option<String>,
    /// Whether the file to look at is readable.
    pub readable: bool,
    /// Whether there is a file to look at.
    pub exists: bool,
}

impl Credentials {
    pub open spec fn path(self) -> Option<Seq<char>> {
        credentials_path(text::option_view(self.home), text::option_view(self.gac_env))
    }

    pub open spec fn present(self) -> bool {
        self.readable && self.path() is Some
    }
}

/// Doctor's check of the credentials, given what the environment says.
pub fn adc_check(credentials: &Credentials) -> (row: CheckRow)
    ensures
        row@ == adc_row(
            credentials.present(),
            credentials.path(),
            credentials.gac_env is Some,
            credentials.exists,
        ),
{
    let status = resolve_adc_status(&credentials.home, &credentials.gac_env, credentials.readable);
    check_row_for_adc(&status, credentials.exists)
}

// ---------------------------------------------------------------------------
// Laws.
// ---------------------------------------------------------------------------

/// Whether candidates are those of a name, looked up in a search path.
pub open spec fn looked_up(candidates: Seq<Candidate>, name: Seq<char>, path_env: Seq<char>) -> bool {
    candidates.map_values(|candidate: Candidate| candidate.path@) == candidate_paths(name, path_env)
}

/// Every binary that is found stands at one of the candidates, and is an
/// executable file there.
pub proof fn found_binaries_are_executable(
    name: Seq<char>,
    path_env: Seq<char>,
    candidates: Seq<Candidate>,
)
    requires
        looked_up(candidates, name, path_env),
        resolved_bin(name, candidates) is Ok,
    ensures
        exists|i: int|
            0 <= i < candidates.len() && (#[trigger] candidates[i]).path@ == resolved_bin(
                name,
                candidates,
            )->Ok_0 && executable(candidates[i].facts),
{
    if paths::absolute(name) {
        let found = candidates.map_values(|candidate: Candidate| candidate.path@);
        assert(found[0] == name);
        assert(candidates[0].path@ == name);
    } else {
        first_executables_are_executable(candidates);
    }
}

proof fn first_executables_are_executable(candidates: Seq<Candidate>)
    requires
        first_executable(candidates) is Some,
    ensures
        exists|i: int|
            0 <= i < candidates.len() && (#[trigger] candidates[i]).path@ == first_executable(
                candidates,
            )->0 && executable(candidates[i].facts),
    decreases candidates.len(),
{
    if !executable(candidates[0].facts) {
        let rest = candidates.drop_first();
        first_executables_are_executable(rest);
        let i = choose|i: int|
            0 <= i < rest.len() && (#[trigger] rest[i]).path@ == first_executable(rest)->0
                && executable(rest[i].facts);
        assert(candidates[i + 1] == rest[i]);
    }
}

/// A binary is found wherever one of its candidates is an executable file.
pub proof fn executable_candidates_are_found(
    name: Seq<char>,
    path_env: Seq<char>,
    candidates: Seq<Candidate>,
    i: int,
)
    requires
        looked_up(candidates, name, path_env),
        0 <= i < candidates.len(),
        executable(candidates[i].facts),
    ensures
        resolved_bin(name, candidates) is Ok,
{
    if paths::absolute(name) {
        let found = candidates.map_values(|candidate: Candidate| candidate.path@);
        assert(found.len() == 1);
    } else {
        executables_have_a_first(candidates, i);
    }
}

proof fn executables_have_a_first(candidates: Seq<Candidate>, i: int)
    requires
        0 <= i < candidates.len(),
        executable(candidates[i].facts),
    ensures
        first_executable(candidates) is Some,
    decreases candidates.len(),
{
    if i > 0 {
        executables_have_a_first(candidates.drop_first(), i - 1);
    }
}

/// A file counts as executable exactly where its owner, its group or others
/// may execute it.
pub proof fn anybody_may_execute(facts: FileFacts, yes: bool)
    requires
        call_ensures(is_executable_file, (facts,), yes),
    ensures
        yes <==> facts.is_file && (facts.mode & 0o100 != 0 || facts.mode & 0o010 != 0 || facts.mode
            & 0o001 != 0),
{
    let mode = facts.mode;
    assert(mode & 0o111 != 0 <==> mode & 0o100 != 0 || mode & 0o010 != 0 || mode & 0o001 != 0)
        by (bit_vector);
}

/// Whether a candidate is a file that somebody may execute.
pub open spec fn runnable(candidate: Candidate) -> bool {
    &&& candidate.facts.is_file
    &&& candidate.facts.mode & 0o100 != 0 || candidate.facts.mode & 0o010 != 0
        || candidate.facts.mode & 0o001 != 0
}

proof fn runnable_is_executable(candidate: Candidate)
    ensures
        runnable(candidate) == executable(candidate.facts),
{
    let mode = candidate.facts.mode;
    assert(mode & 0o111 != 0 <==> mode & 0o100 != 0 || mode & 0o010 != 0 || mode & 0o001 != 0)
        by (bit_vector);
}

proof fn the_first_executable_comes_first(candidates: Seq<Candidate>) -> (at: int)
    ensures
        match first_executable(candidates) {
            Some(path) => 0 <= at < candidates.len() && candidates[at].path@ == path && runnable(
                candidates[at],
            ) && forall|j: int| 0 <= j < at ==> !runnable(#[trigger] candidates[j]),
            None => forall|j: int| 0 <= j < candidates.len() ==> !runnable(#[trigger] candidates[j]),
        },
    decreases candidates.len(),
{
    if candidates.len() == 0 {
        0
    } else {
        runnable_is_executable(candidates[0]);
        if executable(candidates[0].facts) {
            0
        } else {
            let rest = candidates.drop_first();
            let at = the_first_executable_comes_first(rest);
            assert forall|j: int| 1 <= j < candidates.len() implies #[trigger] candidates[j]
                == rest[j - 1] by {}
            at + 1
        }
    }
}

proof fn the_first_file_comes_first(candidates: Seq<Candidate>) -> (at: int)
    ensures
        match first_file(candidates) {
            Some(path) => 0 <= at < candidates.len() && candidates[at].path@ == path
                && candidates[at].facts.is_file && forall|j: int|
                0 <= j < at ==> !(#[trigger] candidates[j]).facts.is_file,
            None => forall|j: int|
                0 <= j < candidates.len() ==> !(#[trigger] candidates[j]).facts.is_file,
        },
    decreases candidates.len(),
{
    if candidates.len() == 0 || candidates[0].facts.is_file {
        0
    } else {
        let rest = candidates.drop_first();
        let at = the_first_file_comes_first(rest);
        assert forall|j: int| 1 <= j < candidates.len() implies #[trigger] candidates[j] == rest[j
            - 1] by {}
        at + 1
    }
}

/// As in a shell, the first match on `PATH` wins: what is found for a bare name
/// is the path of an executable candidate before which none is executable.
/// Nothing is found only where no candidate is executable; then the first
/// candidate that is a file at all is reported, or that there is none.
pub proof fn the_first_match_wins(
    name: &str,
    candidates: &Vec<Candidate>,
    result: Result<String, ProxyBinError>,
) -> (at: int)
    requires
        call_ensures(resolve_bin, (name, candidates), result),
        name@.len() == 0 || name@[0] != '/',
    ensures
        match result {
            Ok(path) => {
                &&& 0 <= at < candidates@.len()
                &&& candidates@[at].path@ == path@
                &&& runnable(candidates@[at])
                &&& forall|j: int| 0 <= j < at ==> !runnable(#[trigger] candidates@[j])
            },
            Err(ProxyBinError::NotExecutable { path }) => {
                &&& forall|j: int|
                    0 <= j < candidates@.len() ==> !runnable(#[trigger] candidates@[j])
                &&& 0 <= at < candidates@.len()
                &&& candidates@[at].path@ == path@
                &&& candidates@[at].facts.is_file
                &&& forall|j: int| 0 <= j < at ==> !(#[trigger] candidates@[j]).facts.is_file
            },
            Err(ProxyBinError::NotFound { name: missing }) => {
                &&& missing@ == name@
                &&& forall|j: int|
                    0 <= j < candidates@.len() ==> !(#[trigger] candidates@[j]).facts.is_file
            },
        },
{
    let executable_at = the_first_executable_comes_first(candidates@);
    let file_at = the_first_file_comes_first(candidates@);
    if result is Ok {
        executable_at
    } else {
        assert(first_executable(candidates@) is None);
        file_at
    }
}

/// An absolute name is looked at in its own place only: it is found there, as
/// it was given, exactly where it is an executable file.
pub proof fn absolute_names_stand_for_themselves(
    name: &str,
    candidates: &Vec<Candidate>,
    result: Result<String, ProxyBinError>,
)
    requires
        call_ensures(resolve_bin, (name, candidates), result),
        name@.len() > 0 && name@[0] == '/',
    ensures
        result is Ok <==> candidates@.len() > 0 && runnable(candidates@[0]),
        match result {
            Ok(path) => path@ == name@,
            Err(error) => error matches ProxyBinError::NotExecutable { path } && path@ == name@,
        },
{
    if candidates@.len() > 0 {
        runnable_is_executable(candidates@[0]);
    }
}

/// A bare name is looked for under every entry of `PATH`, in their order; an
/// absolute one in its own place only.
pub proof fn every_entry_is_searched_in_order(
    name: &str,
    path_env: &str,
    dirs: Vec<String>,
    candidates: Vec<String>,
)
    requires
        call_ensures(bin_candidates, (name, path_env), candidates),
        call_ensures(text::split, (path_env, ':'), dirs),
    ensures
        name@.len() > 0 && name@[0] == '/' ==> candidates@.len() == 1 && candidates@[0]@ == name@,
        name@.len() == 0 || name@[0] != '/' ==> candidates@.len() == dirs@.len() && forall|i: int|
            0 <= i < dirs@.len() ==> (#[trigger] candidates@[i])@ == paths::joined(
                dirs@[i]@,
                name@,
            ),
{
    let found = text::views(candidates@);
    assert(found == candidate_paths(name@, path_env@));
    assert(found.len() == candidates@.len());
    let pieces = text::pieces(path_env@, ':');
    assert(pieces == text::views(dirs@));
    assert(pieces.len() == dirs@.len());
    if name@.len() > 0 && name@[0] == '/' {
        assert(found[0] == candidates@[0]@);
    } else {
        assert forall|i: int| 0 <= i < dirs@.len() implies (#[trigger] candidates@[i])@
            == paths::joined(dirs@[i]@, name@) by {
            assert(found[i] == candidates@[i]@);
            assert(pieces[i] == dirs@[i]@);
        }
    }
}

/// The binary to look for is the configured one where there is one.
pub proof fn configured_binaries_are_looked_for(configured: Option<&str>, name: String)
    requires
        call_ensures(proxy_bin_name, (configured,), name),
    ensures
        configured matches Some(own) ==> name@ == own@,
        configured is None ==> name@ == "cloud-sql-proxy"@,
{
}

/// Doctor's check of the binary passes exactly where it was found and its
/// version could be read. It shows where the binary is, or why there is none.
pub proof fn binaries_pass_with_their_version(
    resolved: &Result<String, ProxyBinError>,
    probe: &Result<String, ProxyVersionError>,
    row: CheckRow,
)
    requires
        call_ensures(proxy_bin_check, (resolved, probe), row),
    ensures
        row.id@ == "proxy_bin"@,
        row.status == CheckStatus::Pass <==> resolved is Ok && probe is Ok,
        row.status == CheckStatus::Fail <==> resolved is Err || probe is Err,
        row.hint is Some <==> row.status == CheckStatus::Fail,
        resolved matches Ok(path) ==> path@.is_prefix_of(row.detail@),
        resolved matches Ok(path) ==> (probe matches Ok(version) ==> row.detail@ == path@ + " ("@
            + version@ + ")"@),
        resolved matches Err(ProxyBinError::NotFound { name }) ==> name@.is_prefix_of(row.detail@),
        resolved matches Err(ProxyBinError::NotExecutable { path }) ==> path@.is_prefix_of(
            row.detail@,
        ),
{
    match *resolved {
        Ok(path) => {
            assert(row.detail@.take(path@.len() as int) =~= path@);
        },
        Err(ProxyBinError::NotFound { name }) => {
            assert(row.detail@.take(name@.len() as int) =~= name@);
        },
        Err(ProxyBinError::NotExecutable { path }) => {
            assert(row.detail@.take(path@.len() as int) =~= path@);
        },
    }
}

/// Credentials are looked for where the environment variable says, whatever the
/// home directory is, and in gcloud's place under the home directory where the
/// variable is not set. They are there exactly where there is such a place and
/// its file can be read.
pub proof fn the_environment_variable_names_the_credentials(
    home: &Option<String>,
    gac_env: &Option<String>,
    readable: bool,
    status: AdcStatus,
)
    requires
        call_ensures(resolve_adc_status, (home, gac_env, readable), status),
    ensures
        status.gac_env_set <==> gac_env is Some,
        gac_env matches Some(own) ==> status.path is Some && status.path->0@ == own@,
        gac_env is None ==> (home matches Some(dir) ==> status.path is Some && status.path->0@
            == paths::joined(dir@, ".config/gcloud/application_default_credentials.json"@)),
        gac_env is None && home is None ==> status.path is None,
        status.present <==> readable && (gac_env is Some || home is Some),
{
}

/// Only a file that could be opened is readable.
pub proof fn readable_files_could_be_opened(facts: FileFacts, opened: bool, yes: bool)
    requires
        call_ensures(is_readable_file, (facts, opened), yes),
    ensures
        yes ==> facts.is_file,
        yes ==> opened,
        facts.is_file ==> yes == opened,
{
}

/// Doctor's check of the credentials passes exactly where there is a place to
/// look for them and its file can be read. It shows that place.
pub proof fn credentials_pass_where_they_are_readable(credentials: &Credentials, row: CheckRow)
    requires
        call_ensures(adc_check, (credentials,), row),
    ensures
        row.id@ == "adc"@,
        row.status == CheckStatus::Pass <==> credentials.readable && (credentials.gac_env is Some
            || credentials.home is Some),
        row.status == CheckStatus::Fail <==> row.hint is Some,
        row.status != CheckStatus::Warn,
        row.status == CheckStatus::Pass ==> (credentials.gac_env matches Some(own) ==> row.detail@
            == own@),
        row.status == CheckStatus::Pass && credentials.gac_env is None ==> row.detail@
            == paths::joined(
            credentials.home->0@,
            ".config/gcloud/application_default_credentials.json"@,
        ),
{
}

/// A binary that was found and could not be probed is reported with its path,
/// with what the probe said, and with the probe's hint.
pub proof fn failed_probes_are_reported(
    path: &str,
    error: ProxyVersionError,
    row: CheckRow,
    message: String,
    hint: &'static str,
)
    requires
        call_ensures(check_row_for_proxy_bin_probe, (path, &Err(error)), row),
        call_ensures(ProxyVersionError::message, (&error,), message),
        call_ensures(ProxyVersionError::hint, (&error,), hint),
    ensures
        row.status == CheckStatus::Fail,
        row.detail@ == path@ + ": "@ + message@,
        row.hint is Some,
        row.hint->0@ == hint@,
{
}

/// A binary that was not found is told by its name, and one that cannot be
/// executed by its path.
pub proof fn binary_errors_tell_why(error: &ProxyBinError, message: String)
    requires
        call_ensures(ProxyBinError::message, (error,), message),
    ensures
        error matches ProxyBinError::NotFound { name } ==> message@ == name@ + " not found on PATH"@,
        error matches ProxyBinError::NotExecutable { path } ==> message@ == path@
            + " is not an executable file"@,
{
}

/// Credentials that are not there are told where they were looked for: in the
/// place that the environment variable names, or in the default one, where it
/// makes a difference whether there is a file at all.
pub proof fn missing_credentials_tell_where(status: &AdcStatus, exists: bool, detail: String)
    requires
        call_ensures(missing_adc_detail, (status, exists), detail),
    ensures
        status.path is None ==> detail@
            == "could not determine a home directory to look for Application Default Credentials"@,
        status.path matches Some(path) ==> (status.gac_env_set ==> detail@
            == "GOOGLE_APPLICATION_CREDENTIALS is set to "@ + path@
            + " but that file is missing or unreadable"@),
        status.path matches Some(path) ==> (!status.gac_env_set && exists ==> detail@
            == "no Application Default Credentials file at "@ + path@ + " ("@
            + "exists but is unreadable"@ + ") and GOOGLE_APPLICATION_CREDENTIALS is unset"@),
        status.path matches Some(path) ==> (!status.gac_env_set && !exists ==> detail@
            == "no Application Default Credentials file at "@ + path@ + " ("@ + "does not exist"@
            + ") and GOOGLE_APPLICATION_CREDENTIALS is unset"@),
{
}

/// Doctor's check of credentials that are not there says where they were looked
/// for.
pub proof fn failed_credentials_are_reported(
    credentials: &Credentials,
    status: AdcStatus,
    row: CheckRow,
    detail: String,
)
    requires
        call_ensures(adc_check, (credentials,), row),
        call_ensures(
            resolve_adc_status,
            (&credentials.home, &credentials.gac_env, credentials.readable),
            status,
        ),
        call_ensures(missing_adc_detail, (&status, credentials.exists), detail),
        row.status == CheckStatus::Fail,
    ensures
        row.detail@ == detail@,
        row.hint is Some && row.hint->0@ == ADC_HINT@,
{
}

} // verus!
