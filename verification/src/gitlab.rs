//! Which repositories a GitLab query names: the client that asks, the requests it makes one
//! after the other, and the list of clone URLs that the replies add up to.

use vstd::prelude::*;

use crate::failure::{Failure, FailureModel};
use crate::order::{
    is_sorted_set_of, law_sorted_set_holds_every_text_in_order, law_sorted_set_is_unique,
    same_members, sort_dedup, text_before,
};
use crate::text::{copy_texts, law_texts_stand_one_by_one, texts};

verus! {

/// Repository filter types for GitLab
#[derive(Debug, Clone, Copy)]
pub enum RepoType {
    All,
    Owner,
    Member,
}

/// A struct to hold GitLab repository query specifications
#[derive(Debug)]
pub struct RepoSpecifiers {
    pub user: Vec<String>,
    pub group: Vec<String>,
    pub all_groups: bool,
    pub repo_filter: RepoType,
}

impl RepoSpecifiers {
    /// Whether the specifiers name nothing at all.
    pub open spec fn names_nothing(self) -> bool {
        self.user@.len() == 0 && self.group@.len() == 0 && !self.all_groups
    }

    /// Tells whether the specifiers name nothing at all.
    pub fn is_empty(&self) -> (empty: bool)
        ensures
            empty == self.names_nothing(),
    {
        self.user.is_empty() && self.group.is_empty() && !self.all_groups
    }
}

/// Why a query for repositories fails.
#[derive(Debug)]
pub enum GitlabError {
    /// The address is no URL; the text is the parser's own.
    InvalidUrl(String),
    /// The address names no host.
    MissingHost,
    /// No user goes by that name.
    UserNotFound(String),
    /// A request failed.
    Request(Failure),
}

/// `GitlabError` by what its texts hold.
pub enum GitlabErrorModel {
    InvalidUrl(Seq<char>),
    MissingHost,
    UserNotFound(Seq<char>),
    Request(FailureModel),
}

impl View for GitlabError {
    type V = GitlabErrorModel;

    open spec fn view(&self) -> GitlabErrorModel {
        match self {
            GitlabError::InvalidUrl(e) => GitlabErrorModel::InvalidUrl(e@),
            GitlabError::MissingHost => GitlabErrorModel::MissingHost,
            GitlabError::UserNotFound(name) => GitlabErrorModel::UserNotFound(name@),
            GitlabError::Request(e) => GitlabErrorModel::Request(e@),
        }
    }
}

/// What the message for an error says.
pub open spec fn error_text(e: GitlabErrorModel) -> Seq<char> {
    match e {
        GitlabErrorModel::InvalidUrl(cause) => cause,
        GitlabErrorModel::MissingHost => "GitLab URL must contain a host"@,
        GitlabErrorModel::UserNotFound(name) => "GitLab user `"@ + name + "` not found"@,
        GitlabErrorModel::Request(cause) => cause.message,
    }
}

impl GitlabError {
    /// The message for people; what caused a failed request stands in the failure itself.
    pub fn message(&self) -> (text: String)
        ensures
            text@ == error_text(self@),
    {
        match self {
            GitlabError::InvalidUrl(cause) => cause.clone(),
            GitlabError::MissingHost => "GitLab URL must contain a host".to_owned(),
            GitlabError::UserNotFound(name) => {
                let mut text: String = "GitLab user `".to_owned();
                text.append(name.as_str());
                text.append("` not found");
                text
            },
            GitlabError::Request(cause) => cause.message.clone(),
        }
    }
}

/// How to reach a GitLab server.
#[derive(Debug)]
pub struct ClientPlan {
    /// The host to talk to.
    pub host: String,
    /// The token to present; without one the client sees public projects only.
    pub token: Option<String>,
    /// Whether the client is to be an insecure one.
    pub insecure: bool,
}

/// The host part that `url::Url::parse` and `url::Url::host_str` find in an address, or the text
/// of the error with which the parser refuses it.
pub uninterp spec fn parsed_host(address: Seq<char>) -> Result<Option<Seq<char>>, Seq<char>>;

/// `url::Url::parse`, then `url::Url::host_str`: the host of an address if it has one, or the
/// display text of the parse error. Both rest on the address alone, and `parsed_host` names what
/// they give.
#[verifier::external_body]
fn url_host(address: &str) -> (host: Result<Option<String>, String>)
    ensures
        match host {
            Ok(found) => parsed_host(address@) == Ok::<Option<Seq<char>>, Seq<char>>(
                found.deep_view(),
            ),
            Err(e) => parsed_host(address@) == Err::<Option<Seq<char>>, Seq<char>>(e@),
        },
{
    match url::Url::parse(address) {
        Ok(parsed) => Ok(parsed.host_str().map(|h| h.to_string())),
        Err(e) => Err(e.to_string()),
    }
}

/// The client for an address whose host has been looked up.
pub open spec fn planned_client(
    host: Result<Option<Seq<char>>, Seq<char>>,
    token: Option<Seq<char>>,
    ignore_certs: bool,
    plan: Result<ClientPlan, GitlabError>,
) -> bool {
    match host {
        Err(e) => plan is Err && plan->Err_0@ == GitlabErrorModel::InvalidUrl(e),
        Ok(None) => plan is Err && plan->Err_0@ == GitlabErrorModel::MissingHost,
        Ok(Some(name)) => {
            &&& plan is Ok
            &&& plan->Ok_0.host@ == name
            &&& plan->Ok_0.token.deep_view() == token
            &&& plan->Ok_0.insecure == ignore_certs
        },
    }
}

/// Decides on the client for an address whose host has been looked up: without a host there is
/// none, with a token it authenticates, and `ignore_certs` alone makes it insecure.
pub fn client_for_host(
    host: Result<Option<String>, String>,
    token: Option<String>,
    ignore_certs: bool,
) -> (plan: Result<ClientPlan, GitlabError>)
    ensures
        planned_client(
            match host {
                Ok(found) => Ok(found.deep_view()),
                Err(e) => Err(e@),
            },
            token.deep_view(),
            ignore_certs,
            plan,
        ),
{
    match host {
        Err(e) => Err(GitlabError::InvalidUrl(e)),
        Ok(None) => Err(GitlabError::MissingHost),
        Ok(Some(name)) => Ok(ClientPlan { host: name, token, insecure: ignore_certs }),
    }
}

/// Decides on the client for a GitLab address.
pub fn create_gitlab_client(
    gitlab_url: &str,
    token: Option<String>,
    ignore_certs: bool,
) -> (plan: Result<ClientPlan, GitlabError>)
    ensures
        planned_client(parsed_host(gitlab_url@), token.deep_view(), ignore_certs, plan),
{
    client_for_host(url_host(gitlab_url), token, ignore_certs)
}

/// What an enumeration asks of the server next.
#[derive(Debug)]
pub enum Request {
    /// The ids of the users that go by a name.
    FindUser(String),
    /// The clone URLs of a user's projects.
    UserProjects(u64),
    /// The ids of all groups.
    AllGroups,
    /// The ids of the groups that a search finds.
    SearchGroups(String),
    /// The clone URLs of a group's projects.
    GroupProjects(u64),
    /// Nothing more: the outcome is ready.
    Finished,
}

/// What the server replied.
#[derive(Debug)]
pub enum Reply {
    /// Ids of users or groups, in the server's order.
    Ids(Vec<u64>),
    /// Clone URLs of projects.
    Urls(Vec<String>),
    /// The request failed.
    Failure(Failure),
}

/// `Request` by what its texts hold.
pub enum RequestModel {
    FindUser(Seq<char>),
    UserProjects(u64),
    AllGroups,
    SearchGroups(Seq<char>),
    GroupProjects(u64),
    Finished,
}

/// `Reply` by what its lists hold.
pub enum ReplyModel {
    Ids(Seq<u64>),
    Urls(Seq<Seq<char>>),
    Failure(FailureModel),
}

impl View for Request {
    type V = RequestModel;

    open spec fn view(&self) -> RequestModel {
        match self {
            Request::FindUser(name) => RequestModel::FindUser(name@),
            Request::UserProjects(id) => RequestModel::UserProjects(*id),
            Request::AllGroups => RequestModel::AllGroups,
            Request::SearchGroups(name) => RequestModel::SearchGroups(name@),
            Request::GroupProjects(id) => RequestModel::GroupProjects(*id),
            Request::Finished => RequestModel::Finished,
        }
    }
}

impl View for Reply {
    type V = ReplyModel;

    open spec fn view(&self) -> ReplyModel {
        match self {
            Reply::Ids(ids) => ReplyModel::Ids(ids@),
            Reply::Urls(urls) => ReplyModel::Urls(texts(urls@)),
            Reply::Failure(cause) => ReplyModel::Failure(cause@),
        }
    }
}

/// Whether a reply is of the kind that a request asks for; any request may fail.
pub open spec fn answers(request: RequestModel, reply: ReplyModel) -> bool {
    match request {
        RequestModel::FindUser(_) => reply !is Urls,
        RequestModel::UserProjects(_) => reply !is Ids,
        RequestModel::AllGroups => reply !is Urls,
        RequestModel::SearchGroups(_) => reply !is Urls,
        RequestModel::GroupProjects(_) => reply !is Ids,
        RequestModel::Finished => false,
    }
}

/// How far an enumeration has come.
pub enum Stage {
    FindUser,
    UserProjects(u64),
    AllGroups,
    SearchGroups,
    GroupProjects,
    Done,
    Failed(GitlabErrorModel),
}

/// An enumeration under way: what is still to be asked, and what has been collected.
pub struct EnumerationModel {
    pub stage: Stage,
    pub users: Seq<Seq<char>>,
    pub all_groups: bool,
    pub searches: Seq<Seq<char>>,
    pub groups: Seq<u64>,
    pub urls: Seq<Seq<char>>,
}

impl EnumerationModel {
    /// The stage once no group is left to find.
    pub open spec fn after_search(self) -> Stage {
        if self.groups.len() > 0 {
            Stage::GroupProjects
        } else {
            Stage::Done
        }
    }

    /// The stage once every user has been handled and all groups were not asked for.
    pub open spec fn after_users(self) -> Stage {
        if self.searches.len() > 0 {
            Stage::SearchGroups
        } else {
            self.after_search()
        }
    }

    /// The stage with which the listed users and groups are taken up.
    pub open spec fn from_users(self) -> Stage {
        if self.users.len() > 0 {
            Stage::FindUser
        } else if self.all_groups {
            Stage::AllGroups
        } else {
            self.after_users()
        }
    }

    /// The enumeration at its start. With all groups asked for, no group is searched by name.
    pub open spec fn start(
        users: Seq<Seq<char>>,
        groups: Seq<Seq<char>>,
        all_groups: bool,
    ) -> EnumerationModel {
        let fresh = EnumerationModel {
            stage: Stage::Done,
            users,
            all_groups,
            searches: if all_groups { Seq::empty() } else { groups },
            groups: Seq::empty(),
            urls: Seq::empty(),
        };
        EnumerationModel { stage: fresh.from_users(), ..fresh }
    }

    /// What is asked next.
    pub open spec fn request(self) -> RequestModel {
        match self.stage {
            Stage::FindUser => RequestModel::FindUser(self.users[0]),
            Stage::UserProjects(id) => RequestModel::UserProjects(id),
            Stage::AllGroups => RequestModel::AllGroups,
            Stage::SearchGroups => RequestModel::SearchGroups(self.searches[0]),
            Stage::GroupProjects => RequestModel::GroupProjects(self.groups[0]),
            Stage::Done => RequestModel::Finished,
            Stage::Failed(_) => RequestModel::Finished,
        }
    }

    /// What a reply makes of the enumeration.
    pub open spec fn step(self, reply: ReplyModel) -> EnumerationModel {
        match reply {
            ReplyModel::Failure(cause) => EnumerationModel {
                stage: Stage::Failed(GitlabErrorModel::Request(cause)),
                ..self
            },
            ReplyModel::Ids(ids) => match self.stage {
                Stage::FindUser => if ids.len() == 0 {
                    EnumerationModel {
                        stage: Stage::Failed(GitlabErrorModel::UserNotFound(self.users[0])),
                        ..self
                    }
                } else {
                    EnumerationModel { stage: Stage::UserProjects(ids[0]), ..self }
                },
                Stage::AllGroups => {
                    let next = EnumerationModel { groups: ids, ..self };
                    EnumerationModel { stage: next.after_search(), ..next }
                },
                _ => {
                    let next = EnumerationModel {
                        searches: self.searches.drop_first(),
                        groups: self.groups + ids,
                        ..self
                    };
                    EnumerationModel { stage: next.after_users(), ..next }
                },
            },
            ReplyModel::Urls(urls) => match self.stage {
                Stage::UserProjects(_) => {
                    let next = EnumerationModel {
                        users: self.users.drop_first(),
                        urls: self.urls + urls,
                        ..self
                    };
                    EnumerationModel { stage: next.from_users(), ..next }
                },
                _ => {
                    let next = EnumerationModel {
                        groups: self.groups.drop_first(),
                        urls: self.urls + urls,
                        ..self
                    };
                    EnumerationModel { stage: next.after_search(), ..next }
                },
            },
        }
    }

    /// What an enumeration that asks no more has to show for it.
    pub open spec fn has_outcome(self, outcome: Result<Vec<String>, GitlabError>) -> bool {
        match self.stage {
            Stage::Failed(e) => outcome is Err && outcome->Err_0@ == e,
            _ => outcome is Ok && is_sorted_set_of(texts(outcome->Ok_0@), self.urls),
        }
    }
}

enum Phase {
    FindUser,
    UserProjects(u64),
    AllGroups,
    SearchGroups,
    GroupProjects,
    Done,
    Failed(GitlabError),
}

/// An enumeration of repositories under way.
pub struct Enumeration {
    phase: Phase,
    users: Vec<String>,
    user_at: usize,
    all_groups: bool,
    searches: Vec<String>,
    search_at: usize,
    groups: Vec<u64>,
    group_at: usize,
    urls: Vec<String>,
}

impl View for Enumeration {
    type V = EnumerationModel;

    closed spec fn view(&self) -> EnumerationModel {
        EnumerationModel {
            stage: match self.phase {
                Phase::FindUser => Stage::FindUser,
                Phase::UserProjects(id) => Stage::UserProjects(id),
                Phase::AllGroups => Stage::AllGroups,
                Phase::SearchGroups => Stage::SearchGroups,
                Phase::GroupProjects => Stage::GroupProjects,
                Phase::Done => Stage::Done,
                Phase::Failed(e) => Stage::Failed(e@),
            },
            users: texts(self.users@).skip(self.user_at as int),
            all_groups: self.all_groups,
            searches: texts(self.searches@).skip(self.search_at as int),
            groups: self.groups@.skip(self.group_at as int),
            urls: texts(self.urls@),
        }
    }
}

impl Enumeration {
    /// What every enumeration keeps: what it asks about is there to be asked about.
    pub closed spec fn wf(self) -> bool {
        &&& self.user_at <= self.users@.len()
        &&& self.search_at <= self.searches@.len()
        &&& self.group_at <= self.groups@.len()
        &&& self.phase is FindUser ==> self.user_at < self.users@.len()
        &&& self.phase is UserProjects ==> self.user_at < self.users@.len()
        &&& self.phase is SearchGroups ==> self.search_at < self.searches@.len()
        &&& self.phase is GroupProjects ==> self.group_at < self.groups@.len()
    }

    /// What to ask next.
    pub fn request(&self) -> (request: Request)
        requires
            self.wf(),
        ensures
            request@ == self@.request(),
    {
        match &self.phase {
            Phase::FindUser => Request::FindUser(self.users[self.user_at].clone()),
            Phase::UserProjects(id) => Request::UserProjects(*id),
            Phase::AllGroups => Request::AllGroups,
            Phase::SearchGroups => Request::SearchGroups(self.searches[self.search_at].clone()),
            Phase::GroupProjects => Request::GroupProjects(self.groups[self.group_at]),
            Phase::Done => Request::Finished,
            Phase::Failed(_) => Request::Finished,
        }
    }

    fn phase_after_search(&self) -> (phase: Phase)
        requires
            self.group_at <= self.groups@.len(),
        ensures
            phase == (if self.group_at < self.groups@.len() {
                Phase::GroupProjects
            } else {
                Phase::Done
            }),
    {
        if self.group_at < self.groups.len() {
            Phase::GroupProjects
        } else {
            Phase::Done
        }
    }

    fn phase_after_users(&self) -> (phase: Phase)
        requires
            self.group_at <= self.groups@.len(),
            self.search_at <= self.searches@.len(),
        ensures
            phase == (if self.search_at < self.searches@.len() {
                Phase::SearchGroups
            } else if self.group_at < self.groups@.len() {
                Phase::GroupProjects
            } else {
                Phase::Done
            }),
    {
        if self.search_at < self.searches.len() {
            Phase::SearchGroups
        } else {
            self.phase_after_search()
        }
    }

    fn phase_from_users(&self) -> (phase: Phase)
        requires
            self.group_at <= self.groups@.len(),
            self.search_at <= self.searches@.len(),
            self.user_at <= self.users@.len(),
        ensures
            phase == (if self.user_at < self.users@.len() {
                Phase::FindUser
            } else if self.all_groups {
                Phase::AllGroups
            } else if self.search_at < self.searches@.len() {
                Phase::SearchGroups
            } else if self.group_at < self.groups@.len() {
                Phase::GroupProjects
            } else {
                Phase::Done
            }),
    {
        if self.user_at < self.users.len() {
            Phase::FindUser
        } else if self.all_groups {
            Phase::AllGroups
        } else {
            self.phase_after_users()
        }
    }

    /// Takes up a reply. The result tells whether a user or a group has been dealt with, which
    /// is when a progress display moves on.
    pub fn advance(&mut self, reply: Reply) -> (dealt_with: bool)
        requires
            old(self).wf(),
            answers(old(self)@.request(), reply@),
        ensures
            final(self).wf(),
            final(self)@ == old(self)@.step(reply@),
            dealt_with == (reply@ is Urls),
    {
        let ghost before = self@;
        match reply {
            Reply::Failure(cause) => {
                self.phase = Phase::Failed(GitlabError::Request(cause));
                assert(self@ == before.step(reply@));
                false
            },
            Reply::Ids(ids) => {
                match &self.phase {
                    Phase::FindUser => {
                        if ids.len() == 0 {
                            let name: String = self.users[self.user_at].clone();
                            self.phase = Phase::Failed(GitlabError::UserNotFound(name));
                        } else {
                            self.phase = Phase::UserProjects(ids[0]);
                        }
                        assert(self@ == before.step(reply@));
                    },
                    Phase::AllGroups => {
                        self.groups = ids;
                        self.group_at = 0;
                        self.phase = self.phase_after_search();
                        assert(self@.groups == reply@->Ids_0);
                        assert(self@ == before.step(reply@));
                    },
                    _ => {
                        let mut more: Vec<u64> = ids;
                        self.groups.append(&mut more);
                        assert(self.search_at < self.searches.len());
                        self.search_at = self.search_at + 1;
                        self.phase = self.phase_after_users();
                        assert(self@.groups == before.groups + reply@->Ids_0);
                        assert(self@.searches == before.searches.drop_first());
                        assert(self@ == before.step(reply@));
                    },
                }
                false
            },
            Reply::Urls(urls) => {
                let mut more: Vec<String> = urls;
                let ghost held = self.urls@;
                self.urls.append(&mut more);
                assert(texts(self.urls@) == texts(held) + texts(urls@));
                match &self.phase {
                    Phase::UserProjects(_) => {
                        assert(self.user_at < self.users.len());
                        self.user_at = self.user_at + 1;
                        self.phase = self.phase_from_users();
                        assert(self@.users == before.users.drop_first());
                        assert(self@ == before.step(reply@));
                    },
                    _ => {
                        assert(self.group_at < self.groups.len());
                        self.group_at = self.group_at + 1;
                        self.phase = self.phase_after_search();
                        assert(self@.groups == before.groups.drop_first());
                        assert(self@ == before.step(reply@));
                    },
                }
                true
            },
        }
    }

    /// The outcome: the clone URLs, sorted and each once, or the error that ended the
    /// enumeration.
    pub fn finish(self) -> (outcome: Result<Vec<String>, GitlabError>)
        requires
            self.wf(),
            self@.request() is Finished,
        ensures
            self@.has_outcome(outcome),
            self@.stage matches Stage::Failed(e) ==> outcome is Err && outcome->Err_0@ == e,
            !(self@.stage is Failed) ==> {
                &&& outcome is Ok
                &&& forall|i: int|
                    0 <= i < self@.urls.len() ==> texts(outcome->Ok_0@).contains(
                        #[trigger] self@.urls[i],
                    )
                &&& forall|i: int|
                    0 <= i < outcome->Ok_0@.len() ==> self@.urls.contains(
                        (#[trigger] outcome->Ok_0@[i])@,
                    )
                &&& forall|i: int, j: int|
                    0 <= i < j < outcome->Ok_0@.len() ==> text_before(
                        (#[trigger] outcome->Ok_0@[i])@,
                        (#[trigger] outcome->Ok_0@[j])@,
                    )
            },
    {
        match self.phase {
            Phase::Failed(e) => Err(e),
            _ => {
                let listed: Vec<String> = sort_dedup(&self.urls);
                proof {
                    law_texts_stand_one_by_one(self.urls@);
                    assert forall|i: int| 0 <= i < self@.urls.len() implies texts(listed@).contains(
                        #[trigger] self@.urls[i],
                    ) by {
                        assert(self@.urls[i] == self.urls@[i]@);
                    }
                }
                Ok(listed)
            },
        }
    }
}

/// Begins to enumerate the repositories that the specifiers name.
pub fn enumerate_repo_urls(repo_specifiers: &RepoSpecifiers) -> (enumeration: Enumeration)
    ensures
        enumeration.wf(),
        enumeration@ == EnumerationModel::start(
            texts(repo_specifiers.user@),
            texts(repo_specifiers.group@),
            repo_specifiers.all_groups,
        ),
{
    let users: Vec<String> = copy_texts(repo_specifiers.user.as_slice());
    let searches: Vec<String> = if repo_specifiers.all_groups {
        Vec::new()
    } else {
        copy_texts(repo_specifiers.group.as_slice())
    };
    let mut enumeration: Enumeration = Enumeration {
        phase: Phase::Done,
        users,
        user_at: 0,
        all_groups: repo_specifiers.all_groups,
        searches,
        search_at: 0,
        groups: Vec::new(),
        group_at: 0,
        urls: Vec::new(),
    };
    enumeration.phase = enumeration.phase_from_users();
    proof {
        let want = EnumerationModel::start(
            texts(repo_specifiers.user@),
            texts(repo_specifiers.group@),
            repo_specifiers.all_groups,
        );
        assert(texts(users@).len() == users@.len());
        assert(texts(searches@).len() == searches@.len());
        assert(enumeration@.users == want.users);
        assert(enumeration@.searches == want.searches);
        assert(enumeration@.groups == want.groups);
        assert(enumeration@.urls == want.urls);
    }
    enumeration
}

/// The query behind a listing of repositories.
pub fn list_repositories(
    users: &[String],
    groups: &[String],
    all_groups: bool,
    repo_filter: RepoType,
) -> (specifiers: RepoSpecifiers)
    ensures
        texts(specifiers.user@) == texts(users@),
        texts(specifiers.group@) == texts(groups@),
        specifiers.all_groups == all_groups,
        specifiers.repo_filter == repo_filter,
{
    RepoSpecifiers { user: copy_texts(users), group: copy_texts(groups), all_groups, repo_filter }
}

/// One line for each URL.
pub open spec fn listing_text(urls: Seq<Seq<char>>) -> Seq<char>
    decreases urls.len(),
{
    if urls.len() == 0 {
        Seq::empty()
    } else {
        listing_text(urls.drop_last()) + urls.last().push('\n')
    }
}

/// Renders a listing: one line for each URL.
pub fn repository_listing(urls: &[String]) -> (listing: String)
    ensures
        listing@ == listing_text(texts(urls@)),
{
    let mut listing: String = String::new();
    let mut i: usize = 0;
    while i < urls.len()
        invariant
            i <= urls@.len(),
            listing@ == listing_text(texts(urls@).take(i as int)),
        decreases urls@.len() - i,
    {
        listing.append(urls[i].as_str());
        listing.push('\n');
        proof {
            let longer = texts(urls@).take(i + 1);
            assert(longer.drop_last() == texts(urls@).take(i as int));
            assert(longer.last() == urls@[i as int]@);
        }
        i += 1;
    }
    assert(texts(urls@).take(i as int) == texts(urls@));
    listing
}

/// A server that answers every request: what it knows of users, groups and their projects.
pub struct Server {
    pub users_named: spec_fn(Seq<char>) -> Seq<u64>,
    pub projects_of_user: spec_fn(u64) -> Seq<Seq<char>>,
    pub all_groups: Seq<u64>,
    pub groups_found: spec_fn(Seq<char>) -> Seq<u64>,
    pub projects_of_group: spec_fn(u64) -> Seq<Seq<char>>,
}

impl Server {
    /// Its reply to a request.
    pub open spec fn reply(self, request: RequestModel) -> ReplyModel {
        match request {
            RequestModel::FindUser(name) => ReplyModel::Ids((self.users_named)(name)),
            RequestModel::UserProjects(id) => ReplyModel::Urls((self.projects_of_user)(id)),
            RequestModel::AllGroups => ReplyModel::Ids(self.all_groups),
            RequestModel::SearchGroups(name) => ReplyModel::Ids((self.groups_found)(name)),
            RequestModel::GroupProjects(id) => ReplyModel::Urls((self.projects_of_group)(id)),
            RequestModel::Finished => ReplyModel::Ids(Seq::empty()),
        }
    }

    /// The first of the listed users whom it does not know.
    pub open spec fn first_unknown(self, users: Seq<Seq<char>>) -> Option<Seq<char>>
        decreases users.len(),
    {
        if users.len() == 0 {
            None
        } else if (self.users_named)(users[0]).len() == 0 {
            Some(users[0])
        } else {
            self.first_unknown(users.drop_first())
        }
    }

    /// The projects of the listed users; the first user that goes by a name counts.
    pub open spec fn user_urls(self, users: Seq<Seq<char>>) -> Seq<Seq<char>>
        decreases users.len(),
    {
        if users.len() == 0 {
            Seq::empty()
        } else {
            (self.projects_of_user)((self.users_named)(users[0])[0]) + self.user_urls(
                users.drop_first(),
            )
        }
    }

    /// The groups that searches by name find.
    pub open spec fn searched_groups(self, names: Seq<Seq<char>>) -> Seq<u64>
        decreases names.len(),
    {
        if names.len() == 0 {
            Seq::empty()
        } else {
            (self.groups_found)(names[0]) + self.searched_groups(names.drop_first())
        }
    }

    /// The groups that a query is about.
    pub open spec fn groups_asked_for(self, names: Seq<Seq<char>>, all_groups: bool) -> Seq<u64> {
        if all_groups {
            self.all_groups
        } else {
            self.searched_groups(names)
        }
    }

    /// The projects of groups.
    pub open spec fn group_urls(self, groups: Seq<u64>) -> Seq<Seq<char>>
        decreases groups.len(),
    {
        if groups.len() == 0 {
            Seq::empty()
        } else {
            (self.projects_of_group)(groups[0]) + self.group_urls(groups.drop_first())
        }
    }
}

/// An enumeration after at most so many requests to a server.
pub open spec fn run_against(m: EnumerationModel, server: Server, requests: nat) -> EnumerationModel
    decreases requests,
{
    if requests == 0 || m.request() is Finished {
        m
    } else {
        run_against(m.step(server.reply(m.request())), server, (requests - 1) as nat)
    }
}

/// How far a progress display moves in the course of at most so many requests to a server: one step
/// for each user or group that is dealt with.
pub open spec fn progress_against(m: EnumerationModel, server: Server, requests: nat) -> nat
    decreases requests,
{
    if requests == 0 || m.request() is Finished {
        0
    } else {
        let reply = server.reply(m.request());
        (if reply is Urls {
            1nat
        } else {
            0
        }) + progress_against(m.step(reply), server, (requests - 1) as nat)
    }
}

/// How many requests a query takes at most: two for each user, one for each search, or one for
/// all groups together, and one for each group.
pub open spec fn requests_enough(
    server: Server,
    users: Seq<Seq<char>>,
    groups: Seq<Seq<char>>,
    all_groups: bool,
) -> nat {
    2 * users.len() + (if all_groups { 1 } else { groups.len() })
        + server.groups_asked_for(groups, all_groups).len()
}

proof fn lemma_run_groups(m: EnumerationModel, server: Server)
    requires
        m.stage == m.after_search(),
    ensures
        ({
            let end = run_against(m, server, m.groups.len());
            &&& progress_against(m, server, m.groups.len()) == m.groups.len()
            &&& end.stage == Stage::Done
            &&& end.urls == m.urls + server.group_urls(m.groups)
        }),
    decreases m.groups.len(),
{
    if m.groups.len() == 0 {
        assert(m.urls + server.group_urls(m.groups) == m.urls);
    } else {
        let next = m.step(server.reply(m.request()));
        lemma_run_groups(next, server);
        assert(next.groups == m.groups.drop_first());
        assert(next.urls + server.group_urls(next.groups) == m.urls + server.group_urls(m.groups));
    }
}

proof fn lemma_run_searches(m: EnumerationModel, server: Server)
    requires
        m.stage == m.after_users(),
    ensures
        ({
            let groups = m.groups + server.searched_groups(m.searches);
            let end = run_against(m, server, m.searches.len() + groups.len());
            &&& progress_against(m, server, m.searches.len() + groups.len()) == groups.len()
            &&& end.stage == Stage::Done
            &&& end.urls == m.urls + server.group_urls(groups)
        }),
    decreases m.searches.len(),
{
    let groups = m.groups + server.searched_groups(m.searches);
    if m.searches.len() == 0 {
        assert(groups == m.groups);
        lemma_run_groups(m, server);
    } else {
        let next = m.step(server.reply(m.request()));
        lemma_run_searches(next, server);
        assert(next.searches == m.searches.drop_first());
        assert(next.groups + server.searched_groups(next.searches) == groups);
    }
}

proof fn lemma_run_users(m: EnumerationModel, server: Server)
    requires
        m.stage == m.from_users(),
        m.groups.len() == 0,
        m.all_groups ==> m.searches.len() == 0,
    ensures
        ({
            let groups = server.groups_asked_for(m.searches, m.all_groups);
            let enough = requests_enough(server, m.users, m.searches, m.all_groups);
            let end = run_against(m, server, enough);
            match server.first_unknown(m.users) {
                Some(name) => end.stage == Stage::Failed(GitlabErrorModel::UserNotFound(name)),
                None => {
                    &&& progress_against(m, server, enough) == m.users.len() + groups.len()
                    &&& end.stage == Stage::Done
                    &&& end.urls == m.urls + server.user_urls(m.users) + server.group_urls(groups)
                },
            }
        }),
    decreases m.users.len(),
{
    let groups = server.groups_asked_for(m.searches, m.all_groups);
    let enough = requests_enough(server, m.users, m.searches, m.all_groups);
    if m.users.len() == 0 {
        assert(m.urls + server.user_urls(m.users) == m.urls);
        if m.all_groups {
            let next = m.step(server.reply(m.request()));
            assert(run_against(m, server, enough) == run_against(next, server, (enough - 1) as nat));
            assert(progress_against(m, server, enough) == progress_against(
                next,
                server,
                (enough - 1) as nat,
            ));
            lemma_run_groups(next, server);
        } else {
            assert(m.groups + server.searched_groups(m.searches) == groups);
            lemma_run_searches(m, server);
        }
    } else {
        let found = m.step(server.reply(m.request()));
        assert(run_against(m, server, enough) == run_against(found, server, (enough - 1) as nat));
        assert(progress_against(m, server, enough) == progress_against(
            found,
            server,
            (enough - 1) as nat,
        ));
        if (server.users_named)(m.users[0]).len() == 0 {
            assert(run_against(found, server, (enough - 1) as nat) == found);
        } else {
            let next = found.step(server.reply(found.request()));
            assert(run_against(found, server, (enough - 1) as nat) == run_against(
                next,
                server,
                (enough - 2) as nat,
            ));
            assert(progress_against(found, server, (enough - 1) as nat) == 1 + progress_against(
                next,
                server,
                (enough - 2) as nat,
            ));
            lemma_run_users(next, server);
            assert(next.users == m.users.drop_first());
            assert(next.urls + server.user_urls(next.users) == m.urls + server.user_urls(m.users));
        }
    }
}

/// Asked of a server that answers everything, an enumeration ends within `requests_enough`
/// requests. It fails where one of the users is unknown, and then for the first such user.
/// Otherwise it has collected the projects of every user and of every group asked for.
pub proof fn law_enumeration_collects_everything(
    server: Server,
    users: Seq<Seq<char>>,
    groups: Seq<Seq<char>>,
    all_groups: bool,
)
    ensures
        ({
            let end = run_against(
                EnumerationModel::start(users, groups, all_groups),
                server,
                requests_enough(server, users, groups, all_groups),
            );
            match server.first_unknown(users) {
                Some(name) => end.stage == Stage::Failed(GitlabErrorModel::UserNotFound(name)),
                None => {
                    &&& end.stage == Stage::Done
                    &&& end.urls == server.user_urls(users) + server.group_urls(
                        server.groups_asked_for(groups, all_groups),
                    )
                },
            }
        }),
{
    let start = EnumerationModel::start(users, groups, all_groups);
    lemma_run_users(start, server);
    assert(start.urls + server.user_urls(users) == server.user_urls(users));
}

/// In the course of an enumeration of known users, a progress display moves by one step for each user
/// and for each group asked for.
pub proof fn law_progress_counts_users_and_groups(
    server: Server,
    users: Seq<Seq<char>>,
    groups: Seq<Seq<char>>,
    all_groups: bool,
)
    requires
        server.first_unknown(users) is None,
    ensures
        progress_against(
            EnumerationModel::start(users, groups, all_groups),
            server,
            requests_enough(server, users, groups, all_groups),
        ) == users.len() + server.groups_asked_for(groups, all_groups).len(),
{
    lemma_run_users(EnumerationModel::start(users, groups, all_groups), server);
}

/// Specifiers that name nothing ask nothing of a server, and their outcome is the empty list.
pub proof fn law_empty_specifiers_ask_nothing(specifiers: RepoSpecifiers)
    requires
        specifiers.names_nothing(),
    ensures
        ({
            let start = EnumerationModel::start(
                texts(specifiers.user@),
                texts(specifiers.group@),
                specifiers.all_groups,
            );
            &&& start.request() is Finished
            &&& forall|outcome: Result<Vec<String>, GitlabError>| #[trigger]
                start.has_outcome(outcome) ==> outcome is Ok && outcome->Ok_0@.len() == 0
        }),
{
    let start = EnumerationModel::start(
        texts(specifiers.user@),
        texts(specifiers.group@),
        specifiers.all_groups,
    );
    assert forall|outcome: Result<Vec<String>, GitlabError>| #[trigger]
        start.has_outcome(outcome) implies outcome is Ok && outcome->Ok_0@.len() == 0 by {
        let list = texts(outcome->Ok_0@);
        if list.len() > 0 {
            assert(list.contains(list[0]));
            assert(start.urls.contains(list[0]));
        }
    }
}

/// A request that fails ends the enumeration with the client's own failure, whatever was asked.
pub proof fn law_failed_request_ends_enumeration(m: EnumerationModel, cause: FailureModel)
    requires
        !(m.request() is Finished),
    ensures
        m.step(ReplyModel::Failure(cause)).request() is Finished,
        forall|outcome: Result<Vec<String>, GitlabError>| #[trigger]
            m.step(ReplyModel::Failure(cause)).has_outcome(outcome) <==> outcome is Err
                && outcome->Err_0@ == GitlabErrorModel::Request(cause),
{
}

/// The list that an enumeration ends with rests on which URLs it has collected, not on the order in
/// which they came or on how often.
pub proof fn law_outcome_rests_on_the_urls_alone(
    a: EnumerationModel,
    b: EnumerationModel,
    one: Result<Vec<String>, GitlabError>,
    other: Result<Vec<String>, GitlabError>,
)
    requires
        a.stage is Done,
        b.stage is Done,
        same_members(a.urls, b.urls),
        a.has_outcome(one),
        b.has_outcome(other),
    ensures
        one is Ok,
        other is Ok,
        texts(one->Ok_0@) == texts(other->Ok_0@),
{
    law_sorted_set_is_unique(a.urls, b.urls, texts(one->Ok_0@), texts(other->Ok_0@));
}

impl EnumerationModel {
    /// Whether what is asked about is there to be asked about.
    pub open spec fn is_consistent(self) -> bool {
        match self.stage {
            Stage::FindUser => self.users.len() > 0,
            Stage::UserProjects(_) => self.users.len() > 0,
            Stage::SearchGroups => self.searches.len() > 0,
            Stage::GroupProjects => self.groups.len() > 0,
            _ => true,
        }
    }

    /// How many replies about users are still to come.
    pub open spec fn user_replies_left(self) -> int {
        2 * self.users.len() - if self.stage is UserProjects {
            1int
        } else {
            0
        }
    }

    /// How many replies about all groups together are still to come, users aside.
    pub open spec fn all_groups_replies_left(self) -> int {
        if self.stage is AllGroups {
            1
        } else {
            0
        }
    }

    /// How near an enumeration is to its end, by what is left to ask.
    pub open spec fn is_nearer_its_end_than(self, before: EnumerationModel) -> bool {
        decreases_to!(
            before.user_replies_left(),
            before.all_groups_replies_left(),
            before.searches.len(),
            before.groups.len() => self.user_replies_left(),
            self.all_groups_replies_left(),
            self.searches.len(),
            self.groups.len()
        )
    }
}

/// Whatever the server replies, an enumeration comes to an end: from a consistent start on, every
/// reply ends it or leaves less to ask about users, then about all groups, then about searches,
/// then about groups.
pub proof fn law_every_reply_brings_an_enumeration_nearer_its_end(
    m: EnumerationModel,
    reply: ReplyModel,
)
    requires
        m.is_consistent(),
        answers(m.request(), reply),
    ensures
        m.step(reply).is_consistent(),
        m.step(reply).request() is Finished || m.step(reply).is_nearer_its_end_than(m),
        forall|users: Seq<Seq<char>>, groups: Seq<Seq<char>>, all_groups: bool| #[trigger]
            EnumerationModel::start(users, groups, all_groups).is_consistent(),
{
}

/// An enumeration that ends without an error lists every URL that it has collected and no other, each
/// before all that come after it, and so none of them twice.
pub proof fn law_every_collected_url_is_listed(
    m: EnumerationModel,
    outcome: Result<Vec<String>, GitlabError>,
)
    requires
        !(m.stage is Failed),
        m.has_outcome(outcome),
    ensures
        outcome is Ok,
        forall|i: int| 0 <= i < m.urls.len() ==> texts(outcome->Ok_0@).contains(#[trigger] m.urls[i]),
        forall|i: int|
            0 <= i < outcome->Ok_0@.len() ==> m.urls.contains((#[trigger] outcome->Ok_0@[i])@),
        forall|i: int, j: int|
            0 <= i < j < outcome->Ok_0@.len() ==> text_before(
                (#[trigger] outcome->Ok_0@[i])@,
                (#[trigger] outcome->Ok_0@[j])@,
            ),
{
    let listed = texts(outcome->Ok_0@);
    law_texts_stand_one_by_one(outcome->Ok_0@);
    law_sorted_set_holds_every_text_in_order(listed, m.urls);
    assert forall|i: int| 0 <= i < outcome->Ok_0@.len() implies m.urls.contains(
        (#[trigger] outcome->Ok_0@[i])@,
    ) by {
        assert(m.urls.contains(listed[i]));
    }
    assert forall|i: int, j: int| 0 <= i < j < outcome->Ok_0@.len() implies text_before(
        (#[trigger] outcome->Ok_0@[i])@,
        (#[trigger] outcome->Ok_0@[j])@,
    ) by {
        assert(text_before(listed[i], listed[j]));
    }
}

proof fn lemma_concat_members<A>(a: Seq<A>, b: Seq<A>, x: A)
    ensures
        (a + b).contains(x) <==> a.contains(x) || b.contains(x),
{
    if a.contains(x) {
        let i = a.index_of(x);
        assert((a + b)[i] == x);
    }
    if b.contains(x) {
        let i = b.index_of(x);
        assert((a + b)[a.len() + i] == x);
    }
    if (a + b).contains(x) {
        let i = (a + b).index_of(x);
        if i < a.len() {
            assert(a[i] == x);
        } else {
            assert(b[i - a.len()] == x);
        }
    }
}

/// Whether a URL is that of a project of one of the named users; the first user that goes by a name
/// counts.
pub open spec fn is_project_of_a_user(server: Server, users: Seq<Seq<char>>, url: Seq<char>) -> bool {
    exists|i: int|
        0 <= i < users.len() && (server.projects_of_user)(
            (server.users_named)(#[trigger] users[i])[0],
        ).contains(url)
}

/// Whether a URL is that of a project of one of the groups that a query is about: of all groups, or
/// of those that a search for one of the names finds.
pub open spec fn is_project_of_a_group(
    server: Server,
    names: Seq<Seq<char>>,
    all_groups: bool,
    url: Seq<char>,
) -> bool {
    exists|group: u64| #[trigger]
        (server.projects_of_group)(group).contains(url) && (if all_groups {
            server.all_groups.contains(group)
        } else {
            exists|i: int|
                0 <= i < names.len() && (server.groups_found)(#[trigger] names[i]).contains(group)
        })
}

proof fn lemma_user_urls_members(server: Server, users: Seq<Seq<char>>, url: Seq<char>)
    ensures
        server.user_urls(users).contains(url) <==> is_project_of_a_user(server, users, url),
    decreases users.len(),
{
    if users.len() > 0 {
        let rest = users.drop_first();
        let head = (server.projects_of_user)((server.users_named)(users[0])[0]);
        lemma_user_urls_members(server, rest, url);
        lemma_concat_members(head, server.user_urls(rest), url);
        if is_project_of_a_user(server, rest, url) {
            let i = choose|i: int|
                0 <= i < rest.len() && (server.projects_of_user)(
                    (server.users_named)(#[trigger] rest[i])[0],
                ).contains(url);
            assert(users[i + 1] == rest[i]);
        }
        if is_project_of_a_user(server, users, url) && !head.contains(url) {
            let i = choose|i: int|
                0 <= i < users.len() && (server.projects_of_user)(
                    (server.users_named)(#[trigger] users[i])[0],
                ).contains(url);
            assert(rest[i - 1] == users[i]);
        }
    }
}

proof fn lemma_searched_groups_members(server: Server, names: Seq<Seq<char>>, group: u64)
    ensures
        server.searched_groups(names).contains(group) <==> exists|i: int|
            0 <= i < names.len() && (server.groups_found)(#[trigger] names[i]).contains(group),
    decreases names.len(),
{
    if names.len() > 0 {
        let rest = names.drop_first();
        let head = (server.groups_found)(names[0]);
        lemma_searched_groups_members(server, rest, group);
        lemma_concat_members(head, server.searched_groups(rest), group);
        if server.searched_groups(rest).contains(group) {
            let i = choose|i: int|
                0 <= i < rest.len() && (server.groups_found)(#[trigger] rest[i]).contains(group);
            assert(names[i + 1] == rest[i]);
        }
        if !head.contains(group) && exists|i: int|
            0 <= i < names.len() && (server.groups_found)(#[trigger] names[i]).contains(group) {
            let i = choose|i: int|
                0 <= i < names.len() && (server.groups_found)(#[trigger] names[i]).contains(group);
            assert(rest[i - 1] == names[i]);
        }
    }
}

proof fn lemma_group_urls_members(server: Server, groups: Seq<u64>, url: Seq<char>)
    ensures
        server.group_urls(groups).contains(url) <==> exists|group: u64| #[trigger]
            (server.projects_of_group)(group).contains(url) && groups.contains(group),
    decreases groups.len(),
{
    if groups.len() > 0 {
        let rest = groups.drop_first();
        let head = (server.projects_of_group)(groups[0]);
        lemma_group_urls_members(server, rest, url);
        lemma_concat_members(head, server.group_urls(rest), url);
        assert(groups == seq![groups[0]] + rest);
        assert forall|group: u64| groups.contains(group) <==> group == groups[0] || rest.contains(
            group,
        ) by {
            lemma_concat_members(seq![groups[0]], rest, group);
            assert(seq![groups[0]].contains(group) <==> group == groups[0]) by {
                assert(seq![groups[0]][0] == groups[0]);
            }
        }
        if head.contains(url) {
            assert((server.projects_of_group)(groups[0]).contains(url));
        }
    }
}

proof fn lemma_no_unknown(server: Server, users: Seq<Seq<char>>)
    requires
        forall|i: int| 0 <= i < users.len() ==> (server.users_named)(#[trigger] users[i]).len() > 0,
    ensures
        server.first_unknown(users) is None,
    decreases users.len(),
{
    if users.len() > 0 {
        assert((server.users_named)(users[0]).len() > 0);
        let rest = users.drop_first();
        assert forall|i: int| 0 <= i < rest.len() implies (server.users_named)(
            #[trigger] rest[i],
        ).len() > 0 by {
            assert(rest[i] == users[i + 1]);
        }
        lemma_no_unknown(server, rest);
    }
}

proof fn lemma_first_unknown(server: Server, users: Seq<Seq<char>>, at: int)
    requires
        0 <= at < users.len(),
        forall|i: int| 0 <= i < at ==> (server.users_named)(#[trigger] users[i]).len() > 0,
        (server.users_named)(users[at]).len() == 0,
    ensures
        server.first_unknown(users) == Some(users[at]),
    decreases at,
{
    if at > 0 {
        assert((server.users_named)(users[0]).len() > 0);
        let rest = users.drop_first();
        assert forall|i: int| 0 <= i < at - 1 implies (server.users_named)(
            #[trigger] rest[i],
        ).len() > 0 by {
            assert(rest[i] == users[i + 1]);
        }
        assert(rest[at - 1] == users[at]);
        lemma_first_unknown(server, rest, at - 1);
    }
}

/// Where the server knows every user, the list that comes out holds the URL of every project of every
/// user and of every group asked for, and no other URL, in strictly ascending order.
pub proof fn law_every_project_is_listed(
    server: Server,
    users: Seq<Seq<char>>,
    names: Seq<Seq<char>>,
    all_groups: bool,
    outcome: Result<Vec<String>, GitlabError>,
)
    requires
        forall|i: int| 0 <= i < users.len() ==> (server.users_named)(#[trigger] users[i]).len() > 0,
        run_against(
            EnumerationModel::start(users, names, all_groups),
            server,
            requests_enough(server, users, names, all_groups),
        ).has_outcome(outcome),
    ensures
        outcome is Ok,
        forall|i: int, url: Seq<char>|
            0 <= i < users.len() && #[trigger] (server.projects_of_user)(
                (server.users_named)(users[i])[0],
            ).contains(url) ==> texts(outcome->Ok_0@).contains(url),
        forall|group: u64, url: Seq<char>|
            all_groups && server.all_groups.contains(group) && #[trigger] (
            server.projects_of_group)(group).contains(url) ==> texts(outcome->Ok_0@).contains(url),
        forall|i: int, group: u64, url: Seq<char>|
            !all_groups && 0 <= i < names.len() && #[trigger] (server.groups_found)(
                names[i],
            ).contains(group) && #[trigger] (server.projects_of_group)(group).contains(url)
                ==> texts(outcome->Ok_0@).contains(url),
        forall|i: int|
            0 <= i < outcome->Ok_0@.len() ==> {
                let url = (#[trigger] outcome->Ok_0@[i])@;
                is_project_of_a_user(server, users, url) || is_project_of_a_group(
                    server,
                    names,
                    all_groups,
                    url,
                )
            },
        forall|i: int, j: int|
            0 <= i < j < outcome->Ok_0@.len() ==> text_before(
                (#[trigger] outcome->Ok_0@[i])@,
                (#[trigger] outcome->Ok_0@[j])@,
            ),
{
    let end = run_against(
        EnumerationModel::start(users, names, all_groups),
        server,
        requests_enough(server, users, names, all_groups),
    );
    lemma_no_unknown(server, users);
    law_enumeration_collects_everything(server, users, names, all_groups);
    law_every_collected_url_is_listed(end, outcome);
    let groups = server.groups_asked_for(names, all_groups);
    let listed = texts(outcome->Ok_0@);
    assert forall|url: Seq<char>| #[trigger] end.urls.contains(url) <==> is_project_of_a_user(
        server,
        users,
        url,
    ) || is_project_of_a_group(server, names, all_groups, url) by {
        lemma_concat_members(server.user_urls(users), server.group_urls(groups), url);
        lemma_user_urls_members(server, users, url);
        lemma_group_urls_members(server, groups, url);
        assert forall|group: u64| #[trigger] groups.contains(group) <==> (if all_groups {
            server.all_groups.contains(group)
        } else {
            exists|i: int|
                0 <= i < names.len() && (server.groups_found)(#[trigger] names[i]).contains(group)
        }) by {
            lemma_searched_groups_members(server, names, group);
        }
        if is_project_of_a_group(server, names, all_groups, url) {
            let group = choose|group: u64| #[trigger]
                (server.projects_of_group)(group).contains(url) && (if all_groups {
                    server.all_groups.contains(group)
                } else {
                    exists|i: int|
                        0 <= i < names.len() && (server.groups_found)(#[trigger] names[i]).contains(
                            group,
                        )
                });
            assert(groups.contains(group));
        }
        if server.group_urls(groups).contains(url) {
            let group = choose|group: u64| #[trigger]
                (server.projects_of_group)(group).contains(url) && groups.contains(group);
            assert(groups.contains(group));
        }
    }
    assert forall|url: Seq<char>| end.urls.contains(url) implies #[trigger] listed.contains(url) by {
        let i = end.urls.index_of(url);
        assert(listed.contains(end.urls[i]));
    }
    assert forall|i: int, url: Seq<char>|
        0 <= i < users.len() && #[trigger] (server.projects_of_user)(
            (server.users_named)(users[i])[0],
        ).contains(url) implies listed.contains(url) by {
        assert(is_project_of_a_user(server, users, url));
        assert(end.urls.contains(url));
    }
    assert forall|group: u64, url: Seq<char>|
        all_groups && server.all_groups.contains(group) && #[trigger] (server.projects_of_group)(
            group,
        ).contains(url) implies listed.contains(url) by {
        assert(is_project_of_a_group(server, names, all_groups, url));
        assert(end.urls.contains(url));
    }
    assert forall|i: int, group: u64, url: Seq<char>|
        !all_groups && 0 <= i < names.len() && #[trigger] (server.groups_found)(names[i]).contains(
            group,
        ) && #[trigger] (server.projects_of_group)(group).contains(url) implies listed.contains(
        url,
    ) by {
        assert(is_project_of_a_group(server, names, all_groups, url));
        assert(end.urls.contains(url));
    }
}

/// Where the server does not know a user, the first such user is named, and no list comes out.
pub proof fn law_first_unknown_user_is_named(
    server: Server,
    users: Seq<Seq<char>>,
    names: Seq<Seq<char>>,
    all_groups: bool,
    at: int,
    outcome: Result<Vec<String>, GitlabError>,
)
    requires
        0 <= at < users.len(),
        forall|i: int| 0 <= i < at ==> (server.users_named)(#[trigger] users[i]).len() > 0,
        (server.users_named)(users[at]).len() == 0,
        run_against(
            EnumerationModel::start(users, names, all_groups),
            server,
            requests_enough(server, users, names, all_groups),
        ).has_outcome(outcome),
    ensures
        outcome is Err,
        outcome->Err_0@ == GitlabErrorModel::UserNotFound(users[at]),
{
    lemma_first_unknown(server, users, at);
    law_enumeration_collects_everything(server, users, names, all_groups);
}

/// With a host there is a client, which has that host, the token that was given, or none, and is
/// insecure just when certificates are to be ignored; without a host, or without a URL, there is
/// none, and the error says which.
pub proof fn law_client_follows_host_token_and_certificates(
    host: Result<Option<Seq<char>>, Seq<char>>,
    token: Option<Seq<char>>,
    ignore_certs: bool,
    plan: Result<ClientPlan, GitlabError>,
)
    requires
        planned_client(host, token, ignore_certs, plan),
    ensures
        plan is Ok <==> host is Ok && host->Ok_0 is Some,
        plan matches Ok(client) ==> client.host@ == host->Ok_0->0 && client.token.deep_view() == token
            && client.insecure == ignore_certs,
        host == Ok::<Option<Seq<char>>, Seq<char>>(None) ==> plan->Err_0@
            == GitlabErrorModel::MissingHost,
        host matches Err(cause) ==> plan->Err_0@ == GitlabErrorModel::InvalidUrl(cause),
{
}

/// What an error says holds the name of the user, or the words of whoever failed, in full.
pub proof fn law_error_texts_hold_names_and_causes(
    name: Seq<char>,
    cause: Seq<char>,
    failure: FailureModel,
)
    ensures
        error_text(GitlabErrorModel::UserNotFound(name)) == "GitLab user `"@ + name
            + "` not found"@,
        error_text(GitlabErrorModel::InvalidUrl(cause)) == cause,
        error_text(GitlabErrorModel::Request(failure)) == failure.message,
        error_text(GitlabErrorModel::MissingHost) == "GitLab URL must contain a host"@,
{
}

/// A listing of one URL is its line, and that of two lists is the one listing behind the other.
pub proof fn law_listings_go_line_by_line(url: Seq<char>, a: Seq<Seq<char>>, b: Seq<Seq<char>>)
    ensures
        listing_text(Seq::empty()) == Seq::<char>::empty(),
        listing_text(seq![url]) == url + seq!['\n'],
        listing_text(a + b) == listing_text(a) + listing_text(b),
    decreases b.len(),
{
    let one = seq![url];
    assert(one.drop_last() == Seq::<Seq<char>>::empty());
    assert(one.last() == url);
    assert(listing_text(one.drop_last()) == Seq::<char>::empty());
    assert(listing_text(one) == url + seq!['\n']);
    if b.len() == 0 {
        assert(a + b == a);
        assert(listing_text(a) + listing_text(b) == listing_text(a));
    } else {
        law_listings_go_line_by_line(url, a, b.drop_last());
        assert((a + b).drop_last() == a + b.drop_last());
        assert((a + b).last() == b.last());
        assert(listing_text(a + b) == listing_text(a) + listing_text(b));
    }
}

/// Whatever is asked, a server's reply to it, or a failure, answers it.
pub proof fn law_every_request_can_be_answered(
    request: RequestModel,
    server: Server,
    cause: FailureModel,
)
    requires
        !(request is Finished),
    ensures
        answers(request, server.reply(request)),
        answers(request, ReplyModel::Failure(cause)),
{
}

/// Every URL of a reply is kept, behind those that were collected before, and none of those is lost;
/// every group that a search finds is kept, and of the users that go by a name the first counts.
pub proof fn law_replies_are_kept_in_full(m: EnumerationModel, urls: Seq<Seq<char>>, ids: Seq<u64>)
    ensures
        m.stage is UserProjects || m.stage is GroupProjects ==> m.step(ReplyModel::Urls(urls)).urls
            == m.urls + urls,
        m.stage is SearchGroups ==> m.step(ReplyModel::Ids(ids)).groups == m.groups + ids && m.step(
            ReplyModel::Ids(ids),
        ).urls == m.urls,
        m.stage is AllGroups ==> m.step(ReplyModel::Ids(ids)).groups == ids && m.step(
            ReplyModel::Ids(ids),
        ).urls == m.urls,
        m.stage is FindUser && ids.len() > 0 ==> m.step(ReplyModel::Ids(ids)).request()
            == RequestModel::UserProjects(ids[0]) && m.step(ReplyModel::Ids(ids)).urls == m.urls,
{
}

/// What is said of a request, of a reply or of an error is said of all that it holds.
pub proof fn law_requests_and_replies_are_seen_in_full(request: Request, reply: Reply, e: GitlabError)
    ensures
        request matches Request::FindUser(name) ==> request@ == RequestModel::FindUser(name@),
        request matches Request::UserProjects(id) ==> request@ == RequestModel::UserProjects(id),
        request is AllGroups <==> request@ is AllGroups,
        request matches Request::SearchGroups(name) ==> request@ == RequestModel::SearchGroups(
            name@,
        ),
        request matches Request::GroupProjects(id) ==> request@ == RequestModel::GroupProjects(id),
        request is Finished <==> request@ is Finished,
        reply matches Reply::Ids(ids) ==> reply@ == ReplyModel::Ids(ids@),
        reply matches Reply::Urls(urls) ==> reply@ == ReplyModel::Urls(
            urls@.map_values(|url: String| url@),
        ),
        reply matches Reply::Failure(cause) ==> reply@ == ReplyModel::Failure(cause@),
        e matches GitlabError::InvalidUrl(cause) ==> e@ == GitlabErrorModel::InvalidUrl(cause@),
        e is MissingHost <==> e@ is MissingHost,
        e matches GitlabError::UserNotFound(name) ==> e@ == GitlabErrorModel::UserNotFound(name@),
        e matches GitlabError::Request(cause) ==> e@ == GitlabErrorModel::Request(cause@),
{
    if let Reply::Urls(urls) = reply {
        assert(texts(urls@) == urls@.map_values(|url: String| url@));
    }
}

} // verus!
