//! The dispatcher: from a resolved target to the response, by a fixed order
//! of decisions.
//!
//! 1. A target that is missing (a path that was refused is missing, too) is
//!    answered at once. Where single-page mode has a page to fall back on,
//!    that page is sent, but only to a request that passes authentication:
//!    no byte of a file goes to a request that was denied. Without such a
//!    page the answer is an empty 404, whatever the credentials.
//! 2. A target below a dotted name is forbidden unless dotfiles are shown.
//! 3. A request that fails authentication is unauthorized.
//! 4. A file is sent. A directory is answered with its `index.html` where it
//!    has one, with 404 where listings are off, and with a listing otherwise.
//! 5. Every response has its headers shaped before it leaves.
//!
//! Nothing here touches the disk: what the disk holds comes in as plain
//! values, and a listing goes out as a request to enumerate the directory.

use crate::auth::{auth_decision, check_credentials, AuthDecision, Credentials};
use crate::decode::percent_decoded;
use crate::config::ServerConfig;
use crate::path::{
    child, child_path, classify, escapes_root, kind_of, locate, names_dotfile, resolved_path,
    Probe, ResolvedTarget, TargetKind,
};
use crate::response::{
    allowed_origin, file_found, forbidden, header_count, header_value, lemma_shaped_headers,
    listing_page, not_found, shape, shaped, unauthorized, BodyView, HeaderName, MediaType,
    Response, ResponseView,
};
use crate::text::copy_of;
use vstd::prelude::*;

verus! {

/// What the disk holds beside the target itself.
#[derive(Clone, Copy, Debug, PartialEq, Eq, Structural)]
pub struct TreeFacts {
    /// Whether the target, a directory, holds a regular file `index.html`.
    /// Read only where the target is a directory.
    pub dir_has_index: bool,
    /// Whether the root holds a regular file `index.html`. Read only in
    /// single-page mode.
    pub root_has_index: bool,
}

/// What the dispatcher decides.
#[derive(Clone, Debug, PartialEq, Eq)]
pub enum Outcome {
    /// Send this response.
    Respond(Response),
    /// Enumerate the directory `dir` and render its listing.
    Listing { dir: String },
}

/// An outcome as contracts speak of it.
pub enum OutcomeView {
    Respond(ResponseView),
    Listing { dir: Seq<char> },
}

impl View for Outcome {
    type V = OutcomeView;

    open spec fn view(&self) -> OutcomeView {
        match self {
            Outcome::Respond(r) => OutcomeView::Respond(r@),
            Outcome::Listing { dir } => OutcomeView::Listing { dir: dir@ },
        }
    }
}

/// The path of the index page of the directory `dir`.
pub open spec fn index_of(dir: Seq<char>) -> Seq<char> {
    child(dir, "index.html"@)
}

/// The answer to a request for something that is not there: the root's
/// index page in single-page mode, if the root has one, and 404 otherwise.
pub open spec fn fallback(config: &ServerConfig, root_has_index: bool) -> ResponseView {
    if config.spa_mode && root_has_index {
        file_found(index_of(config.root@), MediaType::Inferred)
    } else {
        not_found()
    }
}

/// The answer to a request for something that is not there, given the
/// verdict on its credentials: where there is a page to fall back on, a
/// request that was denied gets 401 and no page.
pub open spec fn missing_answer(
    config: &ServerConfig,
    verdict: AuthDecision,
    root_has_index: bool,
) -> ResponseView {
    if config.spa_mode && root_has_index && verdict == AuthDecision::Deny {
        unauthorized()
    } else {
        fallback(config, root_has_index)
    }
}

/// Whether the credentials of a request for such a target are looked at: a
/// missing target needs them only where a page would be sent in its place,
/// any other target unless the dotted name already forbids it.
pub open spec fn credentials_matter(
    config: &ServerConfig,
    kind: TargetKind,
    is_dotfile: bool,
    root_has_index: bool,
) -> bool {
    if kind == TargetKind::Missing {
        config.spa_mode && root_has_index
    } else {
        !(is_dotfile && !config.show_dotfiles)
    }
}

/// The decision on a target at `fs_path` of kind `kind`, given the verdict
/// of the authentication gate and what the disk holds.
pub open spec fn dispatched(
    config: &ServerConfig,
    fs_path: Seq<char>,
    kind: TargetKind,
    is_dotfile: bool,
    verdict: AuthDecision,
    facts: TreeFacts,
) -> OutcomeView {
    if kind == TargetKind::Missing {
        OutcomeView::Respond(shaped(config, missing_answer(config, verdict, facts.root_has_index)))
    } else if is_dotfile && !config.show_dotfiles {
        OutcomeView::Respond(shaped(config, forbidden()))
    } else if verdict == AuthDecision::Deny {
        OutcomeView::Respond(shaped(config, unauthorized()))
    } else if kind == TargetKind::File {
        OutcomeView::Respond(shaped(config, file_found(fs_path, MediaType::Inferred)))
    } else if facts.dir_has_index {
        OutcomeView::Respond(shaped(config, file_found(index_of(fs_path), MediaType::HtmlUtf8)))
    } else if !config.show_index {
        OutcomeView::Respond(shaped(config, not_found()))
    } else {
        OutcomeView::Listing { dir: fs_path }
    }
}

/// The kind of the target that the decoded path `path` resolves to, where
/// the disk shows `probe` at its place.
pub open spec fn kind_at(path: Seq<char>, probe: Probe) -> TargetKind {
    if escapes_root(path) {
        TargetKind::Missing
    } else {
        kind_of(probe)
    }
}

/// The whole pipeline as one function: the decision on the request for the
/// decoded path `path` with the credentials `supplied`, where the disk shows
/// `probe` at the resolved place and `facts` beside it.
pub open spec fn answer(
    config: &ServerConfig,
    path: Seq<char>,
    supplied: &Option<Credentials>,
    probe: Probe,
    facts: TreeFacts,
) -> OutcomeView {
    dispatched(
        config,
        resolved_path(config.root@, path),
        kind_at(path, probe),
        names_dotfile(path),
        auth_decision(&config.auth, supplied),
        facts,
    )
}

/// A path that would leave the root is answered with an empty 404, whatever
/// the credentials, the dotfile setting and the disk. Single-page mode with
/// an index page at the root is the one exception: there every path that
/// leads nowhere is answered with that page.
pub proof fn lemma_traversal_is_not_found(
    config: &ServerConfig,
    path: Seq<char>,
    supplied: &Option<Credentials>,
    probe: Probe,
    facts: TreeFacts,
)
    requires
        escapes_root(path),
        !(config.spa_mode && facts.root_has_index),
    ensures
        answer(config, path, supplied, probe, facts) == OutcomeView::Respond(
            shaped(config, not_found()),
        ),
        shaped(config, not_found()).status == 404,
        shaped(config, not_found()).body == crate::response::BodyView::Empty,
{
}

/// A directory that holds `index.html` is answered with that file as
/// `text/html; charset=utf-8`, and never with a listing, once the request
/// has passed the two gates.
pub proof fn lemma_directory_index_is_served(
    config: &ServerConfig,
    fs_path: Seq<char>,
    is_dotfile: bool,
    verdict: AuthDecision,
    facts: TreeFacts,
)
    requires
        facts.dir_has_index,
        !(is_dotfile && !config.show_dotfiles),
        verdict == AuthDecision::Allow,
    ensures
        dispatched(config, fs_path, TargetKind::Directory, is_dotfile, verdict, facts)
            == OutcomeView::Respond(
            shaped(config, file_found(index_of(fs_path), MediaType::HtmlUtf8)),
        ),
        !(dispatched(
            config,
            fs_path,
            TargetKind::Directory,
            is_dotfile,
            verdict,
            facts,
        ) is Listing),
{
}

/// The decision is a function of the configuration, the request and what
/// the disk holds: the same request on an unchanged tree gets the same
/// status, headers and body.
pub proof fn lemma_same_request_same_answer(
    config: &ServerConfig,
    path: Seq<char>,
    supplied: &Option<Credentials>,
    probe: Probe,
    facts: TreeFacts,
    probe_again: Probe,
    facts_again: TreeFacts,
)
    requires
        probe_again == probe,
        facts_again == facts,
    ensures
        answer(config, path, supplied, probe_again, facts_again) == answer(
            config,
            path,
            supplied,
            probe,
            facts,
        ),
{
}

/// With dotfiles hidden, a target below a dotted name that exists is
/// answered with 403, no body and a closed connection, and with no header
/// but those that shaping adds. With dotfiles shown, the dot makes no
/// difference to the answer.
pub proof fn lemma_dotfile_gate(
    config: &ServerConfig,
    fs_path: Seq<char>,
    kind: TargetKind,
    verdict: AuthDecision,
    facts: TreeFacts,
)
    requires
        kind != TargetKind::Missing,
    ensures
        !config.show_dotfiles ==> dispatched(config, fs_path, kind, true, verdict, facts)
            == OutcomeView::Respond(shaped(config, forbidden())),
        !config.no_cache && !config.cors_enabled ==> shaped(config, forbidden()) == forbidden(),
        forbidden().headers.len() == 0 && forbidden().close_connection,
        config.show_dotfiles ==> dispatched(config, fs_path, kind, true, verdict, facts)
            == dispatched(config, fs_path, kind, false, verdict, facts),
{
    lemma_shaped_headers(config, forbidden());
}

/// A request that reaches the authentication gate and is denied gets 401
/// with the Basic challenge; one that is allowed never gets 401.
pub proof fn lemma_auth_gate(
    config: &ServerConfig,
    fs_path: Seq<char>,
    kind: TargetKind,
    is_dotfile: bool,
    verdict: AuthDecision,
    facts: TreeFacts,
)
    requires
        kind != TargetKind::Missing,
        !(is_dotfile && !config.show_dotfiles),
    ensures
        verdict == AuthDecision::Deny ==> dispatched(
            config,
            fs_path,
            kind,
            is_dotfile,
            verdict,
            facts,
        ) == OutcomeView::Respond(shaped(config, unauthorized())),
        unauthorized().status == 401,
        header_value(unauthorized().headers, HeaderName::WwwAuthenticate) == Some(
            crate::response::challenge(),
        ),
        verdict == AuthDecision::Allow ==> (dispatched(
            config,
            fs_path,
            kind,
            is_dotfile,
            verdict,
            facts,
        ) matches OutcomeView::Respond(r) ==> r.status != 401),
{
    assert(unauthorized().headers.drop_last() =~= Seq::empty());
    lemma_shaped_headers(config, file_found(fs_path, MediaType::Inferred));
    lemma_shaped_headers(config, file_found(index_of(fs_path), MediaType::HtmlUtf8));
    lemma_shaped_headers(config, not_found());
}

/// In single-page mode a path that leads nowhere is answered with the
/// root's index page and 200, if the root has one and the request passes
/// authentication; a request that was denied gets 401 in its place. Without
/// the mode, or without the page, the answer is an empty 404 whatever the
/// credentials.
pub proof fn lemma_single_page_fallback(
    config: &ServerConfig,
    fs_path: Seq<char>,
    is_dotfile: bool,
    verdict: AuthDecision,
    facts: TreeFacts,
)
    ensures
        config.spa_mode && facts.root_has_index && verdict == AuthDecision::Allow ==> dispatched(
            config,
            fs_path,
            TargetKind::Missing,
            is_dotfile,
            verdict,
            facts,
        ) == OutcomeView::Respond(
            shaped(config, file_found(index_of(config.root@), MediaType::Inferred)),
        ),
        config.spa_mode && facts.root_has_index && verdict == AuthDecision::Deny ==> dispatched(
            config,
            fs_path,
            TargetKind::Missing,
            is_dotfile,
            verdict,
            facts,
        ) == OutcomeView::Respond(shaped(config, unauthorized())),
        !(config.spa_mode && facts.root_has_index) ==> dispatched(
            config,
            fs_path,
            TargetKind::Missing,
            is_dotfile,
            verdict,
            facts,
        ) == OutcomeView::Respond(shaped(config, not_found())),
        file_found(index_of(config.root@), MediaType::Inferred).status == 200,
        unauthorized().status == 401,
        not_found().status == 404,
{
}

/// A request that was denied is never answered with a file nor with a
/// listing: whatever it asked for, it gets a response without a body.
pub proof fn lemma_denied_requests_get_no_file(
    config: &ServerConfig,
    fs_path: Seq<char>,
    kind: TargetKind,
    is_dotfile: bool,
    facts: TreeFacts,
)
    ensures
        dispatched(config, fs_path, kind, is_dotfile, AuthDecision::Deny, facts)
            matches OutcomeView::Respond(r) && r.body == BodyView::Empty && r.status >= 400,
{
    lemma_shaped_headers(config, not_found());
    lemma_shaped_headers(config, forbidden());
    lemma_shaped_headers(config, unauthorized());
}

/// The verdict on the credentials makes no difference to the answer where
/// the credentials do not matter.
pub proof fn lemma_credentials_matter(
    config: &ServerConfig,
    fs_path: Seq<char>,
    kind: TargetKind,
    is_dotfile: bool,
    facts: TreeFacts,
)
    requires
        !credentials_matter(config, kind, is_dotfile, facts.root_has_index),
    ensures
        dispatched(config, fs_path, kind, is_dotfile, AuthDecision::Deny, facts) == dispatched(
            config,
            fs_path,
            kind,
            is_dotfile,
            AuthDecision::Allow,
            facts,
        ),
{
}

/// Every response that the dispatcher decides on, of whatever status,
/// forbids caching where caching is off and allows the configured origin
/// where CORS is on.
pub proof fn lemma_every_response_is_shaped(
    config: &ServerConfig,
    fs_path: Seq<char>,
    kind: TargetKind,
    is_dotfile: bool,
    verdict: AuthDecision,
    facts: TreeFacts,
)
    ensures
        dispatched(config, fs_path, kind, is_dotfile, verdict, facts) matches OutcomeView::Respond(
            r,
        ) ==> {
            &&& config.no_cache ==> header_value(r.headers, HeaderName::CacheControl) == Some(
                "no-store"@,
            ) && header_count(r.headers, HeaderName::CacheControl) == 1
            &&& config.cors_enabled ==> header_value(
                r.headers,
                HeaderName::AccessControlAllowOrigin,
            ) == Some(allowed_origin(config)) && header_count(
                r.headers,
                HeaderName::AccessControlAllowOrigin,
            ) == 1
        },
{
    lemma_shaped_headers(config, missing_answer(config, verdict, facts.root_has_index));
    lemma_shaped_headers(config, forbidden());
    lemma_shaped_headers(config, unauthorized());
    lemma_shaped_headers(config, file_found(fs_path, MediaType::Inferred));
    lemma_shaped_headers(config, file_found(index_of(fs_path), MediaType::HtmlUtf8));
    lemma_shaped_headers(config, not_found());
}

/// The path of the index page of the directory `dir`.
pub fn index_path(dir: &str) -> (path: String)
    ensures
        path@ == index_of(dir@),
{
    child_path(dir, "index.html")
}

/// The answer to a request for something that is not there, once the
/// request has passed authentication.
pub fn not_found_or_fallback(config: &ServerConfig, root_has_index: bool) -> (r: Response)
    ensures
        r@ == shaped(config, fallback(config, root_has_index)),
{
    if config.spa_mode && root_has_index {
        shape(config, Response::file(index_path(config.root.as_str()), MediaType::Inferred))
    } else {
        shape(config, Response::not_found())
    }
}

/// The dispatcher proper: the decision on a resolved target, given the
/// verdict on the request's credentials.
pub fn dispatch(
    config: &ServerConfig,
    target: &ResolvedTarget,
    verdict: AuthDecision,
    facts: TreeFacts,
) -> (outcome: Outcome)
    ensures
        outcome@ == dispatched(
            config,
            target.fs_path@,
            target.kind,
            target.is_dotfile,
            verdict,
            facts,
        ),
{
    match target.kind {
        TargetKind::Missing => {
            if config.spa_mode && facts.root_has_index && verdict == AuthDecision::Deny {
                Outcome::Respond(shape(config, Response::unauthorized()))
            } else {
                Outcome::Respond(not_found_or_fallback(config, facts.root_has_index))
            }
        },
        _ => {
            if target.is_dotfile && !config.show_dotfiles {
                Outcome::Respond(shape(config, Response::forbidden()))
            } else if verdict == AuthDecision::Deny {
                Outcome::Respond(shape(config, Response::unauthorized()))
            } else if target.kind == TargetKind::File {
                Outcome::Respond(
                    shape(
                        config,
                        Response::file(copy_of(target.fs_path.as_str()), MediaType::Inferred),
                    ),
                )
            } else if facts.dir_has_index {
                Outcome::Respond(
                    shape(
                        config,
                        Response::file(index_path(target.fs_path.as_str()), MediaType::HtmlUtf8),
                    ),
                )
            } else if !config.show_index {
                Outcome::Respond(shape(config, Response::not_found()))
            } else {
                Outcome::Listing { dir: copy_of(target.fs_path.as_str()) }
            }
        },
    }
}

/// The decision on a resolved target and the credentials that came with the
/// request. The credentials are looked at only where they matter.
pub fn respond(
    config: &ServerConfig,
    target: &ResolvedTarget,
    supplied: &Option<Credentials>,
    facts: TreeFacts,
) -> (outcome: Outcome)
    ensures
        outcome@ == dispatched(
            config,
            target.fs_path@,
            target.kind,
            target.is_dotfile,
            auth_decision(&config.auth, supplied),
            facts,
        ),
{
    let needed = match target.kind {
        TargetKind::Missing => config.spa_mode && facts.root_has_index,
        _ => !(target.is_dotfile && !config.show_dotfiles),
    };
    let verdict = if needed {
        check_credentials(&config.auth, supplied)
    } else {
        AuthDecision::Allow
    };
    dispatch(config, target, verdict, facts)
}

/// The whole pipeline for a raw request path: a path that cannot be decoded
/// is missing, any other is answered as its decoded form is.
pub open spec fn answer_to_raw(
    config: &ServerConfig,
    raw_path: Seq<char>,
    supplied: &Option<Credentials>,
    probe: Probe,
    facts: TreeFacts,
) -> OutcomeView {
    match percent_decoded(raw_path) {
        Some(path) => answer(config, path, supplied, probe, facts),
        None => dispatched(
            config,
            config.root@,
            TargetKind::Missing,
            false,
            auth_decision(&config.auth, supplied),
            facts,
        ),
    }
}

/// Answers the request for the raw path `raw_path`, where a look at the place
/// that `locate` names for it found `probe`, and `facts` beside it.
pub fn answer_request(
    config: &ServerConfig,
    raw_path: &str,
    supplied: &Option<Credentials>,
    probe: Probe,
    facts: TreeFacts,
) -> (outcome: Outcome)
    ensures
        outcome@ == answer_to_raw(config, raw_path@, supplied, probe, facts),
{
    let target = classify(locate(config.root.as_str(), raw_path), probe);
    respond(config, &target, supplied, facts)
}

/// What is sent in place of a file that was there when it was looked for and
/// is gone when it is opened: what a missing target gets, and an empty 404
/// where the file that is gone is the very page to fall back on.
pub open spec fn vanished(
    config: &ServerConfig,
    path: Seq<char>,
    root_has_index: bool,
) -> ResponseView {
    if path == index_of(config.root@) {
        shaped(config, not_found())
    } else {
        shaped(config, fallback(config, root_has_index))
    }
}

/// The response for a request whose file at `path` could not be opened. The
/// request has passed authentication, or no file would have been opened.
pub fn file_vanished(config: &ServerConfig, path: &str, root_has_index: bool) -> (r: Response)
    ensures
        r@ == vanished(config, path@, root_has_index),
{
    let index = index_path(config.root.as_str());
    if path.eq(index.as_str()) {
        shape(config, Response::not_found())
    } else {
        not_found_or_fallback(config, root_has_index)
    }
}

/// The response for a listing that was asked for, from what the renderer
/// returned: the page, or a fixed text where rendering failed. Either way
/// the status is 200.
pub fn finish_listing(config: &ServerConfig, rendered: Option<String>) -> (r: Response)
    ensures
        r@ == shaped(
            config,
            listing_page(
                match rendered {
                    Some(html) => Some(html@),
                    None => None,
                },
            ),
        ),
{
    match rendered {
        Some(html) => shape(config, Response::page(html)),
        None => shape(config, Response::page(copy_of("TEMPLATE RENDER ERROR"))),
    }
}

/// The response where the directory of a listing could not be enumerated:
/// an empty 404.
pub fn listing_unavailable(config: &ServerConfig) -> (r: Response)
    ensures
        r@ == shaped(config, not_found()),
{
    shape(config, Response::not_found())
}

} // verus!
