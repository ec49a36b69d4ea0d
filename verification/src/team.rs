//! Which team is mine: the team that the outcome predicate speaks of.
//!
//! The remote service names the organisation of the user, and lists the
//! teams whose name contains that of the organisation. My team is the first
//! team of that list.

use crate::document::{items_at, items_of, member, member_of, text_at, text_of};
use crate::filter::FilterConfig;
use crate::json::{field, json_field, json_parse, parse};
use serde_json::Value;
use vstd::prelude::*;

verus! {

/// The organisation of the user.
#[derive(Debug)]
pub struct MyOrg {
    pub id: String,
    pub name: String,
}

/// The view of a [`MyOrg`].
pub struct MyOrgView {
    pub id: Seq<char>,
    pub name: Seq<char>,
}

impl View for MyOrg {
    type V = MyOrgView;

    open spec fn view(&self) -> MyOrgView {
        MyOrgView { id: self.id@, name: self.name@ }
    }
}

/// A team of the team directory.
#[derive(Debug)]
pub struct TeamInfoShort {
    pub id: String,
    pub name: String,
    pub logo_url: String,
}

/// The view of a [`TeamInfoShort`].
pub struct TeamInfoShortView {
    pub id: Seq<char>,
    pub name: Seq<char>,
    pub logo_url: Seq<char>,
}

impl View for TeamInfoShort {
    type V = TeamInfoShortView;

    open spec fn view(&self) -> TeamInfoShortView {
        TeamInfoShortView { id: self.id@, name: self.name@, logo_url: self.logo_url@ }
    }
}

/// An edge of the team directory.
#[derive(Debug)]
pub struct TeamNode {
    pub node: TeamInfoShort,
}

impl View for TeamNode {
    type V = TeamInfoShortView;

    open spec fn view(&self) -> TeamInfoShortView {
        self.node@
    }
}

impl DeepView for TeamNode {
    type V = TeamInfoShortView;

    open spec fn deep_view(&self) -> TeamInfoShortView {
        self@
    }
}

/// The teams of a directory response.
#[derive(Debug)]
pub struct TeamsFilterTeams {
    pub edges: Vec<TeamNode>,
}

/// The data of a directory response.
#[derive(Debug)]
pub struct TeamsFilterData {
    pub teams: TeamsFilterTeams,
}

/// A response of the team directory.
#[derive(Debug)]
pub struct TeamsFilterResponse {
    pub data: TeamsFilterData,
}

impl View for TeamsFilterResponse {
    type V = Seq<TeamInfoShortView>;

    open spec fn view(&self) -> Seq<TeamInfoShortView> {
        self.data.teams.edges.deep_view()
    }
}

/// Why my team could not be resolved.
#[derive(Debug)]
pub enum TeamError {
    /// The organisation response is not JSON or lacks an identifier or a
    /// name.
    OrganisationUnreadable,
    /// The directory response is not JSON, lacks its list of teams, or
    /// lists a team without an identifier, a name or a logo.
    DirectoryUnreadable,
    /// The directory lists no team for the organisation named.
    NoTeams(String),
}

/// The view of a [`TeamError`].
pub enum TeamErrorView {
    OrganisationUnreadable,
    DirectoryUnreadable,
    NoTeams(Seq<char>),
}

impl View for TeamError {
    type V = TeamErrorView;

    open spec fn view(&self) -> TeamErrorView {
        match self {
            TeamError::OrganisationUnreadable => TeamErrorView::OrganisationUnreadable,
            TeamError::DirectoryUnreadable => TeamErrorView::DirectoryUnreadable,
            TeamError::NoTeams(name) => TeamErrorView::NoTeams(name@),
        }
    }
}

impl TeamErrorView {
    /// The message of an error.
    pub open spec fn message(self) -> Seq<char> {
        match self {
            TeamErrorView::OrganisationUnreadable => "Failed to parse organization info"@,
            TeamErrorView::DirectoryUnreadable => "Failed to parse team ID response"@,
            TeamErrorView::NoTeams(name) => "No teams found matching the name '"@ + name + "'"@,
        }
    }
}

impl TeamError {
    /// The message of the error.
    pub fn message(&self) -> (r: String)
        ensures
            r@ == self@.message(),
    {
        match self {
            TeamError::OrganisationUnreadable => "Failed to parse organization info".to_owned(),
            TeamError::DirectoryUnreadable => "Failed to parse team ID response".to_owned(),
            TeamError::NoTeams(name) => {
                let mut out = "No teams found matching the name '".to_owned();
                out.append(name.as_str());
                out.append("'");
                out
            },
        }
    }
}

/// Whether a filter asks for an outcome, so that my team has to be resolved.
pub fn outcome_wanted(filters: &FilterConfig) -> (r: bool)
    ensures
        r == (filters@.wins || filters@.losses),
{
    filters.wins || filters.losses
}

/// An organisation response, decoded: it needs an identifier and a name.
pub open spec fn organisation_of(doc: Value) -> Option<MyOrgView> {
    match (text_of(json_field(doc, "id"@)), text_of(json_field(doc, "name"@))) {
        (Some(id), Some(name)) => Some(MyOrgView { id, name }),
        _ => None,
    }
}

/// A team of the directory, decoded from its edge: it needs an identifier,
/// a name and a logo.
pub open spec fn directory_team_of(edge: Value) -> Option<TeamInfoShortView> {
    let node = json_field(edge, "node"@);
    match (
        text_of(member(node, "id"@)),
        text_of(member(node, "name"@)),
        text_of(member(node, "logoUrl"@)),
    ) {
        (Some(id), Some(name), Some(logo_url)) => Some(TeamInfoShortView { id, name, logo_url }),
        _ => None,
    }
}

/// The edges of a directory response.
pub open spec fn directory_edges(doc: Value) -> Option<Seq<Value>> {
    items_of(member(member(json_field(doc, "data"@), "teams"@), "edges"@))
}

/// A directory response, decoded: it needs a list of edges, each of which
/// holds a team.
pub open spec fn directory_of(doc: Value) -> Option<Seq<TeamInfoShortView>> {
    match directory_edges(doc) {
        Some(edges) => if forall|i: int|
            0 <= i < edges.len() ==> directory_team_of(#[trigger] edges[i]) is Some {
            Some(edges.map_values(|e: Value| directory_team_of(e)->0))
        } else {
            None
        },
        None => None,
    }
}

/// My team among the teams of a directory: the first, or the error that
/// names the organisation where the directory is empty.
pub open spec fn my_team_of(
    teams: Seq<TeamInfoShortView>,
    organisation: Seq<char>,
) -> Result<Seq<char>, TeamErrorView> {
    if teams.len() == 0 {
        Err(TeamErrorView::NoTeams(organisation))
    } else {
        Ok(teams[0].id)
    }
}

/// Decodes an organisation response.
pub fn decode_organisation(doc: &Value) -> (r: Result<MyOrg, TeamError>)
    ensures
        match r {
            Ok(org) => organisation_of(*doc) == Some(org@),
            Err(e) => organisation_of(*doc) is None && e@ == TeamErrorView::OrganisationUnreadable,
        },
{
    match (text_at(field(doc, "id")), text_at(field(doc, "name"))) {
        (Some(id), Some(name)) => Ok(MyOrg { id, name }),
        _ => Err(TeamError::OrganisationUnreadable),
    }
}

/// Decodes a team of the directory from its edge.
fn decode_directory_team(edge: &Value) -> (r: Option<TeamInfoShort>)
    ensures
        match r {
            Some(team) => directory_team_of(*edge) == Some(team@),
            None => directory_team_of(*edge) is None,
        },
{
    let node = field(edge, "node");
    match (
        text_at(member_of(node, "id")),
        text_at(member_of(node, "name")),
        text_at(member_of(node, "logoUrl")),
    ) {
        (Some(id), Some(name), Some(logo_url)) => Some(TeamInfoShort { id, name, logo_url }),
        _ => None,
    }
}

/// Decodes a directory response.
#[verifier::loop_isolation(false)]
pub fn decode_directory(doc: &Value) -> (r: Result<TeamsFilterResponse, TeamError>)
    ensures
        match r {
            Ok(response) => directory_of(*doc) == Some(response@),
            Err(e) => directory_of(*doc) is None && e@ == TeamErrorView::DirectoryUnreadable,
        },
{
    let teams = member_of(field(doc, "data"), "teams");
    match items_at(member_of(teams, "edges")) {
        Some(list) => {
            let mut edges: Vec<TeamNode> = Vec::new();
            let mut i: usize = 0;
            while i < list.len()
                invariant
                    i <= list.len(),
                    edges.len() == i,
                    forall|j: int|
                        0 <= j < i ==> directory_team_of(#[trigger] list@[j]) == Some(
                            edges@[j]@,
                        ),
                decreases list.len() - i,
            {
                match decode_directory_team(&list[i]) {
                    Some(node) => {
                        edges.push(TeamNode { node });
                    },
                    None => {
                        assert(directory_team_of(list@[i as int]) is None);
                        return Err(TeamError::DirectoryUnreadable);
                    },
                }
                i += 1;
            }
            let response = TeamsFilterResponse {
                data: TeamsFilterData { teams: TeamsFilterTeams { edges } },
            };
            assert(response@ =~= list@.map_values(|e: Value| directory_team_of(e)->0));
            Ok(response)
        },
        None => Err(TeamError::DirectoryUnreadable),
    }
}

/// Picks my team from a directory: the identifier of its first team.
pub fn get_my_team_id(response: &TeamsFilterResponse, organisation: &str) -> (r: Result<
    String,
    TeamError,
>)
    ensures
        match r {
            Ok(id) => my_team_of(response@, organisation@) == Ok::<Seq<char>, TeamErrorView>(id@),
            Err(e) => my_team_of(response@, organisation@) == Err::<Seq<char>, TeamErrorView>(e@),
        },
{
    let edges = &response.data.teams.edges;
    if edges.len() == 0 {
        return Err(TeamError::NoTeams(organisation.to_owned()));
    }
    assert(response@[0] == edges@[0]@);
    Ok(edges[0].node.id.clone())
}

/// Reads the organisation of the user from the text of an organisation
/// response.
pub fn read_organisation(body: &str) -> (r: Result<MyOrg, TeamError>)
    ensures
        match r {
            Ok(org) => json_parse(body@) matches Some(doc) && organisation_of(doc) == Some(org@),
            Err(e) => e@ == TeamErrorView::OrganisationUnreadable && !(json_parse(
                body@,
            ) matches Some(doc) && organisation_of(doc) is Some),
        },
{
    match parse(body) {
        Some(doc) => decode_organisation(&doc),
        None => Err(TeamError::OrganisationUnreadable),
    }
}

/// Reads my team from the text of a directory response.
pub fn read_my_team_id(body: &str, organisation: &str) -> (r: Result<String, TeamError>)
    ensures
        match r {
            Ok(id) => json_parse(body@) matches Some(doc) && directory_of(doc) matches Some(teams)
                && my_team_of(teams, organisation@) == Ok::<Seq<char>, TeamErrorView>(id@),
            Err(e) => match json_parse(body@) {
                Some(doc) => match directory_of(doc) {
                    Some(teams) => my_team_of(teams, organisation@) == Err::<
                        Seq<char>,
                        TeamErrorView,
                    >(e@),
                    None => e@ == TeamErrorView::DirectoryUnreadable,
                },
                None => e@ == TeamErrorView::DirectoryUnreadable,
            },
        },
{
    match parse(body) {
        Some(doc) => match decode_directory(&doc) {
            Ok(response) => get_my_team_id(&response, organisation),
            Err(e) => Err(e),
        },
        None => Err(TeamError::DirectoryUnreadable),
    }
}

} // verus!
