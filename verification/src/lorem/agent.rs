//! What the stand-in keeps of its sessions.

use vstd::prelude::*;
use vstd::utf8;

use crate::json;
use crate::json::{parse_document, Document, DocumentView};
use crate::mcp::servers::{ServerView, StdioServer};
use crate::text::chars;
use crate::text::chars::same_text;
use crate::text::number;
use crate::text::number::decimal_text;
use crate::text::search;
use crate::text::search::join_texts;

verus! {

/// A tool server that a session is offered.
#[derive(Debug, PartialEq, Eq)]
pub enum AgentServer {
    /// One that is reached through the connection, by its id.
    Acp(String),
    /// One that is run as a process.
    Stdio(StdioServer),
    /// Any other.
    Other,
}

/// A tool server as texts.
#[verifier::ext_equal]
pub enum AgentServerView {
    Acp(Seq<char>),
    Stdio(ServerView),
    Other,
}

impl View for AgentServer {
    type V = AgentServerView;

    open spec fn view(&self) -> AgentServerView {
        match *self {
            AgentServer::Acp(id) => AgentServerView::Acp(id@),
            AgentServer::Stdio(server) => AgentServerView::Stdio(server@),
            AgentServer::Other => AgentServerView::Other,
        }
    }
}

/// Tool servers as texts.
pub open spec fn agent_server_views(servers: Seq<AgentServer>) -> Seq<AgentServerView> {
    Seq::new(servers.len(), |i: int| servers[i]@)
}

/// Whether a server is run as a process, under a name.
pub open spec fn has_name(server: AgentServerView, name: Seq<char>) -> bool {
    server matches AgentServerView::Stdio(server) && server.name == name
}

/// The first server with a name that is run as a process.
pub open spec fn named_server(servers: Seq<AgentServerView>, name: Seq<char>) -> Option<ServerView>
    decreases servers.len(),
{
    if servers.len() == 0 {
        None
    } else if has_name(servers[0], name) {
        Some(servers[0]->Stdio_0)
    } else {
        named_server(servers.skip(1), name)
    }
}

/// The first server with a name that is run as a process.
pub fn find_server<'a>(servers: &'a Vec<AgentServer>, name: &str) -> (found: Option<
    &'a StdioServer,
>)
    ensures
        match found {
            Some(found) => named_server(agent_server_views(servers@), name@) == Some(found@),
            None => named_server(agent_server_views(servers@), name@) is None,
        },
{
    let ghost all = agent_server_views(servers@);
    let mut i: usize = 0;
    assert(all.skip(0) =~= all);
    while i < servers.len()
        invariant
            all == agent_server_views(servers@),
            i <= servers@.len(),
            named_server(all.skip(i as int), name@) == named_server(all, name@),
        decreases servers@.len() - i,
    {
        assert(all.skip(i as int)[0] == servers@[i as int]@);
        assert(all.skip(i as int).skip(1) =~= all.skip(i + 1));
        if let AgentServer::Stdio(server) = &servers[i] {
            if same_text(server.name.as_str(), name) {
                return Some(server);
            }
        }
        i = i + 1;
    }
    assert(all.skip(all.len() as int).len() == 0);
    None
}

/// The id of the first server that is reached through the connection.
pub open spec fn acp_id(servers: Seq<AgentServerView>) -> Option<Seq<char>>
    decreases servers.len(),
{
    if servers.len() == 0 {
        None
    } else if servers[0] is Acp {
        Some(servers[0]->Acp_0)
    } else {
        acp_id(servers.skip(1))
    }
}

/// The id of the first server that is reached through the connection.
pub fn find_acp_id(servers: &Vec<AgentServer>) -> (found: Option<String>)
    ensures
        chars::optional_text(found) == acp_id(agent_server_views(servers@)),
{
    let ghost all = agent_server_views(servers@);
    let mut i: usize = 0;
    assert(all.skip(0) =~= all);
    while i < servers.len()
        invariant
            all == agent_server_views(servers@),
            i <= servers@.len(),
            acp_id(all.skip(i as int)) == acp_id(all),
        decreases servers@.len() - i,
    {
        assert(all.skip(i as int)[0] == servers@[i as int]@);
        assert(all.skip(i as int).skip(1) =~= all.skip(i + 1));
        if let AgentServer::Acp(id) = &servers[i] {
            return Some(id.clone());
        }
        i = i + 1;
    }
    assert(all.skip(all.len() as int).len() == 0);
    None
}

/// What a session is for.
#[derive(Debug, Clone, Copy, PartialEq, Eq, Structural)]
pub enum SessionKind {
    Main,
    Fix,
}

/// The kind of a session, from the servers it is offered.
pub open spec fn kind_of(servers: Seq<AgentServerView>) -> SessionKind {
    if named_server(servers, "git-commit-fix-close-tools"@) is Some {
        SessionKind::Fix
    } else {
        SessionKind::Main
    }
}

/// A session that is offered the server that closes fix sessions is one.
pub fn session_kind(servers: &Vec<AgentServer>) -> (kind: SessionKind)
    ensures
        kind == kind_of(agent_server_views(servers@)),
{
    if find_server(servers, "git-commit-fix-close-tools").is_some() {
        SessionKind::Fix
    } else {
        SessionKind::Main
    }
}

/// What is kept of a session until its first prompt.
#[derive(Debug)]
pub struct SessionState {
    pub kind: SessionKind,
    pub servers: Vec<AgentServer>,
}

/// The stand-in: the counters of its sessions and prompts, and the sessions
/// that have not been prompted yet.
#[derive(Debug)]
pub struct LoremAgent {
    next_session_id: usize,
    next_prompt_seed: usize,
    next_prompt_index: usize,
    sessions: Vec<(String, SessionState)>,
    confetti: Option<String>,
    commit_workflow: Option<StdioServer>,
}

/// The stand-in as mathematical values.
#[verifier::ext_equal]
pub struct AgentView {
    pub next_session_id: nat,
    pub next_prompt_seed: nat,
    pub next_prompt_index: nat,
    pub sessions: Seq<(Seq<char>, SessionKind, Seq<AgentServerView>)>,
    /// The server of the confetti tool.
    pub confetti: Option<Seq<char>>,
    /// The server that opens fix sessions.
    pub commit_workflow: Option<ServerView>,
}

/// Sessions as texts.
pub open spec fn session_views(sessions: Seq<(String, SessionState)>) -> Seq<
    (Seq<char>, SessionKind, Seq<AgentServerView>),
> {
    Seq::new(
        sessions.len(),
        |i: int|
            (sessions[i].0@, sessions[i].1.kind, agent_server_views(sessions[i].1.servers@)),
    )
}

impl View for LoremAgent {
    type V = AgentView;

    closed spec fn view(&self) -> AgentView {
        AgentView {
            next_session_id: self.next_session_id as nat,
            next_prompt_seed: self.next_prompt_seed as nat,
            next_prompt_index: self.next_prompt_index as nat,
            sessions: session_views(self.sessions@),
            confetti: chars::optional_text(self.confetti),
            commit_workflow: match self.commit_workflow {
                Some(server) => Some(server@),
                None => None,
            },
        }
    }
}

/// The servers that are remembered once some were offered: the first of its
/// kind that ever was. Confetti goes by the connection only where that is not
/// disabled.
pub open spec fn remembering(
    agent: AgentView,
    servers: Seq<AgentServerView>,
    disable_mcp: bool,
) -> AgentView {
    AgentView {
        confetti: if agent.confetti is Some || disable_mcp {
            agent.confetti
        } else {
            acp_id(servers)
        },
        commit_workflow: if agent.commit_workflow is Some {
            agent.commit_workflow
        } else {
            named_server(servers, "git-commit-fix-open-tools"@)
        },
        ..agent
    }
}

/// A counter moved on, around the numbers that there are.
pub open spec fn counted(counter: nat, by: nat) -> nat {
    (counter + by) % (usize::MAX as nat + 1)
}

fn count_on(counter: usize, by: usize) -> (next: usize)
    ensures
        next == counted(counter as nat, by as nat),
{
    if by > usize::MAX - counter {
        proof {
            let size = usize::MAX as int + 1;
            vstd::arithmetic::div_mod::lemma_fundamental_div_mod_converse(
                counter + by,
                size,
                1,
                counter + by - size,
            );
        }
        counter - (usize::MAX - by) - 1
    } else {
        proof {
            vstd::arithmetic::div_mod::lemma_small_mod(
                (counter + by) as nat,
                usize::MAX as nat + 1,
            );
        }
        counter + by
    }
}

/// The id of a session.
pub open spec fn lorem_session_id(number: nat) -> Seq<char> {
    "lorem-session-"@ + number::decimal(number)
}

/// The place of the session with an id.
pub open spec fn place_of(
    sessions: Seq<(Seq<char>, SessionKind, Seq<AgentServerView>)>,
    id: Seq<char>,
) -> Option<int>
    decreases sessions.len(),
{
    if sessions.len() == 0 {
        None
    } else if sessions.last().0 == id {
        Some(sessions.len() - 1)
    } else {
        place_of(sessions.drop_last(), id)
    }
}

/// What a prompt sets off.
#[derive(Debug)]
pub struct PromptStart {
    /// The place of the prompt among all.
    pub prompt_index: usize,
    /// Where the words of the reply start.
    pub seed: usize,
    /// What was kept of the session, at its first prompt.
    pub session: Option<SessionState>,
}

impl LoremAgent {
    /// A stand-in without sessions.
    pub fn new() -> (agent: Self)
        ensures
            agent@ == (AgentView {
                next_session_id: 0,
                next_prompt_seed: 0,
                next_prompt_index: 0,
                sessions: Seq::empty(),
                confetti: None,
                commit_workflow: None,
            }),
    {
        let agent = LoremAgent {
            next_session_id: 0,
            next_prompt_seed: 0,
            next_prompt_index: 0,
            sessions: Vec::new(),
            confetti: None,
            commit_workflow: None,
        };
        assert(agent@.sessions =~= Seq::empty());
        agent
    }

    /// Remembers the servers that every session shares, as they are offered
    /// first.
    pub fn remember(&mut self, servers: &Vec<AgentServer>, disable_mcp: bool)
        ensures
            final(self)@ == remembering(old(self)@, agent_server_views(servers@), disable_mcp),
    {
        if self.confetti.is_none() && !disable_mcp {
            self.confetti = find_acp_id(servers);
        }
        if self.commit_workflow.is_none() {
            self.commit_workflow = match find_server(servers, "git-commit-fix-open-tools") {
                Some(server) => Some(server.copy()),
                None => None,
            };
        }
    }

    /// The server of the confetti tool, where one was offered.
    pub fn confetti(&self) -> (server: Option<String>)
        ensures
            chars::optional_text(server) == self@.confetti,
    {
        match &self.confetti {
            Some(server) => Some(server.clone()),
            None => None,
        }
    }

    /// The server that opens fix sessions, where one was offered.
    pub fn commit_workflow(&self) -> (server: Option<StdioServer>)
        ensures
            match server {
                Some(server) => self@.commit_workflow == Some(server@),
                None => self@.commit_workflow is None,
            },
    {
        match &self.commit_workflow {
            Some(server) => Some(server.copy()),
            None => None,
        }
    }

    /// Opens a session. A single process may serve several over its lifetime,
    /// so their ids are counted up.
    pub fn new_session(&mut self, servers: Vec<AgentServer>) -> (id: String)
        ensures
            id@ == lorem_session_id(old(self)@.next_session_id),
            final(self)@ == (AgentView {
                next_session_id: counted(old(self)@.next_session_id, 1),
                sessions: old(self)@.sessions.push(
                    (id@, kind_of(agent_server_views(servers@)), agent_server_views(servers@)),
                ),
                ..old(self)@
            }),
    {
        let mut id = "lorem-session-".to_owned();
        id.append(decimal_text(self.next_session_id as u64).as_str());
        self.next_session_id = count_on(self.next_session_id, 1);
        let kind = session_kind(&servers);
        let kept = id.clone();
        let ghost before = self.sessions@;
        self.sessions.push((kept, SessionState { kind, servers }));
        assert(session_views(self.sessions@) =~= session_views(before).push(
            (id@, kind, agent_server_views(servers@)),
        ));
        id
    }

    /// Takes a prompt of a session. What was kept of the session is handed out
    /// at its first prompt, and is then forgotten.
    pub fn start_prompt(&mut self, session_id: &str) -> (start: PromptStart)
        ensures
            start.prompt_index == old(self)@.next_prompt_index,
            start.seed == old(self)@.next_prompt_seed,
            final(self)@.next_prompt_index == counted(old(self)@.next_prompt_index, 1),
            final(self)@.next_prompt_seed == counted(
                old(self)@.next_prompt_seed,
                crate::lorem::plan::REPLY_WORD_COUNT as nat,
            ),
            final(self)@.next_session_id == old(self)@.next_session_id,
            final(self)@.confetti == old(self)@.confetti,
            final(self)@.commit_workflow == old(self)@.commit_workflow,
            match place_of(old(self)@.sessions, session_id@) {
                Some(place) => {
                    &&& start.session matches Some(session) && (
                        session_id@,
                        session.kind,
                        agent_server_views(session.servers@),
                    ) == old(self)@.sessions[place]
                    &&& final(self)@.sessions == old(self)@.sessions.remove(place)
                },
                None => start.session is None && final(self)@.sessions == old(self)@.sessions,
            },
    {
        let prompt_index: usize = self.next_prompt_index;
        let seed: usize = self.next_prompt_seed;
        self.next_prompt_index = count_on(prompt_index, 1);
        self.next_prompt_seed = count_on(seed, crate::lorem::plan::REPLY_WORD_COUNT);
        let session = self.take_session(session_id);
        PromptStart { prompt_index, seed, session }
    }

    fn take_session(&mut self, session_id: &str) -> (session: Option<SessionState>)
        ensures
            final(self)@ == (AgentView { sessions: final(self)@.sessions, ..old(self)@ }),
            match place_of(old(self)@.sessions, session_id@) {
                Some(place) => {
                    &&& session matches Some(session) && (
                        session_id@,
                        session.kind,
                        agent_server_views(session.servers@),
                    ) == old(self)@.sessions[place]
                    &&& final(self)@.sessions == old(self)@.sessions.remove(place)
                },
                None => session is None && final(self)@.sessions == old(self)@.sessions,
            },
    {
        let ghost all = session_views(self.sessions@);
        let mut i: usize = self.sessions.len();
        assert(all.take(all.len() as int) =~= all);
        while i > 0
            invariant
                all == session_views(self.sessions@),
                self@ == old(self)@,
                all == old(self)@.sessions,
                i <= self.sessions@.len(),
                place_of(all.take(i as int), session_id@) == place_of(all, session_id@),
            decreases i,
        {
            assert(all.take(i as int).last() == all[i - 1]);
            assert(all.take(i as int).drop_last() =~= all.take(i - 1));
            i = i - 1;
            if same_text(self.sessions[i].0.as_str(), session_id) {
                let ghost before = self.sessions@;
                let (_, session) = self.sessions.remove(i);
                assert(session_views(self.sessions@) =~= all.remove(i as int));
                return Some(session);
            }
        }
        None
    }
}

/// The name of a tool out of its description, where it has one.
pub open spec fn described_name(description: Seq<char>) -> Option<Seq<char>> {
    match json::json_document(utf8::encode_utf8(description)) {
        Ok(tool) => json::text_member(tool, "name"@),
        Err(_) => None,
    }
}

/// The names of tools out of their descriptions. A tool without a name is
/// passed over.
pub open spec fn described_names(descriptions: Seq<Seq<char>>) -> Seq<Seq<char>>
    decreases descriptions.len(),
{
    if descriptions.len() == 0 {
        Seq::empty()
    } else {
        let before = described_names(descriptions.drop_last());
        match described_name(descriptions.last()) {
            Some(name) => before.push(name),
            None => before,
        }
    }
}

/// The names of the tools that a server lists in a response. A response that
/// lists none names none.
pub open spec fn names_in(response: DocumentView) -> Seq<Seq<char>> {
    match json::member_of(response, "tools"@) {
        Some(tools) => match json::json_document(utf8::encode_utf8(tools)) {
            Ok(DocumentView::List(descriptions)) => described_names(descriptions),
            _ => Seq::empty(),
        },
        None => Seq::empty(),
    }
}

fn names_of_tools(descriptions: &Vec<String>) -> (names: Vec<String>)
    ensures
        chars::texts(names@) == described_names(chars::texts(descriptions@)),
{
    let ghost all = chars::texts(descriptions@);
    let mut names: Vec<String> = Vec::new();
    let mut i: usize = 0;
    assert(chars::texts(names@) =~= described_names(all.take(0)));
    while i < descriptions.len()
        invariant
            i <= descriptions@.len(),
            all == chars::texts(descriptions@),
            chars::texts(names@) == described_names(all.take(i as int)),
        decreases descriptions@.len() - i,
    {
        let ghost before = chars::texts(names@);
        assert(all.take(i + 1).drop_last() =~= all.take(i as int));
        if let Ok(tool) = parse_document(descriptions[i].as_str().as_bytes()) {
            if let Some(name) = tool.text("name") {
                names.push(name);
                assert(chars::texts(names@) =~= before.push(name@));
            }
        }
        i = i + 1;
    }
    assert(all.take(all.len() as int) =~= all);
    names
}

/// The names of the tools that a server lists in a response.
pub fn tool_names_of(response: &Document) -> (names: Vec<String>)
    ensures
        chars::texts(names@) == names_in(response@),
{
    if let Some(tools) = response.member("tools") {
        if let Ok(Document::List(descriptions)) = parse_document(tools.as_str().as_bytes()) {
            return names_of_tools(&descriptions);
        }
    }
    let none: Vec<String> = Vec::new();
    assert(chars::texts(none@) =~= Seq::<Seq<char>>::empty());
    none
}

/// Reads the names of the tools that a server lists.
pub fn tool_names(response: &[u8]) -> (names: Result<Vec<String>, String>)
    ensures
        match names {
            Ok(names) => json::json_document(response@) is Ok && chars::texts(names@) == names_in(
                json::json_document(response@)->Ok_0,
            ),
            Err(error) => json::json_document(response@) == Err::<DocumentView, Seq<char>>(error@),
        },
{
    match parse_document(response) {
        Ok(document) => Ok(tool_names_of(&document)),
        Err(error) => Err(error),
    }
}

/// What a session says of the tools that it was offered.
#[derive(Debug)]
pub struct Listing {
    /// The name or the id of the server.
    pub server: String,
    /// The names of its tools, or why they could not be listed.
    pub tools: Result<Vec<String>, String>,
}

/// The line of a server in the list of tools.
pub open spec fn listing_line(listing: Listing) -> Seq<char> {
    "- "@ + listing.server@ + ": "@ + match listing.tools {
        Ok(tools) => search::join(chars::texts(tools@), ", "@),
        Err(error) => "<failed to list tools: "@ + error@ + ">"@,
    }
}

/// The list of tools: a heading, and a line for each server.
pub open spec fn listing_lines(listings: Seq<Listing>) -> Seq<Seq<char>> {
    seq!["Registered MCP tools:"@] + Seq::new(listings.len(), |i: int| listing_line(listings[i]))
}

/// The list of tools.
pub fn list_registered_tools(listings: &Vec<Listing>) -> (text: String)
    ensures
        text@ == search::join(listing_lines(listings@), "\n"@),
{
    let mut lines: Vec<String> = Vec::new();
    lines.push("Registered MCP tools:".to_owned());
    let mut i: usize = 0;
    while i < listings.len()
        invariant
            i <= listings@.len(),
            lines@.len() == i + 1,
            lines@[0]@ == "Registered MCP tools:"@,
            forall|k: int|
                0 <= k < i ==> (#[trigger] lines@[k + 1])@ == listing_line(listings@[k]),
        decreases listings@.len() - i,
    {
        let listing = &listings[i];
        let mut line = "- ".to_owned();
        line.append(listing.server.as_str());
        line.append(": ");
        let ghost start = line@;
        match &listing.tools {
            Ok(tools) => {
                line.append(join_texts(tools, ", ").as_str());
            },
            Err(error) => {
                line.append("<failed to list tools: ");
                line.append(error.as_str());
                line.append(">");
                assert(line@ =~= start + ("<failed to list tools: "@ + error@ + ">"@));
            },
        }
        let ghost before = lines@;
        lines.push(line);
        assert forall|k: int| 0 <= k < i + 1 implies (#[trigger] lines@[k + 1])@ == listing_line(
            listings@[k],
        ) by {
            if k < i {
                assert(lines@[k + 1] == before[k + 1]);
            }
        }
        i = i + 1;
    }
    proof {
        let texts = chars::texts(lines@);
        assert forall|k: int| 0 <= k < texts.len() implies texts[k] == listing_lines(
            listings@,
        )[k] by {
            if k > 0 {
                assert(lines@[(k - 1) + 1]@ == listing_line(listings@[k - 1]));
            }
        }
        assert(texts =~= listing_lines(listings@));
    }
    join_texts(&lines, "\n")
}

/// A server that is remembered stays the one, whatever is offered later.
pub proof fn the_first_server_is_kept(
    agent: AgentView,
    servers: Seq<AgentServerView>,
    disable_mcp: bool,
)
    ensures
        agent.confetti is Some ==> remembering(agent, servers, disable_mcp).confetti
            == agent.confetti,
        agent.commit_workflow is Some ==> remembering(agent, servers, disable_mcp).commit_workflow
            == agent.commit_workflow,
        remembering(remembering(agent, servers, disable_mcp), servers, disable_mcp) == remembering(
            agent,
            servers,
            disable_mcp,
        ),
{
}

/// The first server with a name is the one that is found, and none is where none
/// has it; the same holds of the first server that the connection reaches.
pub proof fn the_first_server_is_found(
    servers: Seq<AgentServerView>,
    name: Seq<char>,
    index: int,
)
    requires
        0 <= index <= servers.len(),
    ensures
        (forall|i: int| 0 <= i < index ==> !has_name(#[trigger] servers[i], name)) ==> {
            &&& index == servers.len() ==> named_server(servers, name) is None
            &&& index < servers.len() ==> (servers[index] matches AgentServerView::Stdio(server) ==> (
            server.name == name ==> named_server(servers, name) == Some(server)))
        },
        (forall|i: int| 0 <= i < index ==> !((#[trigger] servers[i]) is Acp)) ==> {
            &&& index == servers.len() ==> acp_id(servers) is None
            &&& index < servers.len() ==> (servers[index] matches AgentServerView::Acp(id)
                ==> acp_id(servers) == Some(id))
        },
    decreases index,
{
    if index > 0 {
        let rest = servers.skip(1);
        the_first_server_is_found(rest, name, index - 1);
        if index < servers.len() {
            assert(rest[index - 1] == servers[index]);
        }
        if forall|i: int| 0 <= i < index ==> !has_name(#[trigger] servers[i], name) {
            assert(!has_name(servers[0], name));
            assert forall|i: int| 0 <= i < index - 1 implies !has_name(#[trigger] rest[i], name) by {
                assert(rest[i] == servers[i + 1]);
            }
        }
        if forall|i: int| 0 <= i < index ==> !((#[trigger] servers[i]) is Acp) {
            assert(!(servers[0] is Acp));
            assert forall|i: int| 0 <= i < index - 1 implies !((#[trigger] rest[i]) is Acp) by {
                assert(rest[i] == servers[i + 1]);
            }
        }
    }
}

/// A session is a fix session exactly where the server that closes fix sessions
/// is among its own.
pub proof fn fix_sessions_are_known_by_their_server(servers: Seq<AgentServerView>, index: int)
    ensures
        0 <= index < servers.len() && (servers[index] matches AgentServerView::Stdio(server)
            && server.name == "git-commit-fix-close-tools"@) ==> kind_of(servers) is Fix,
        kind_of(servers) is Fix ==> exists|i: int|
            0 <= i < servers.len() && has_name(
                #[trigger] servers[i],
                "git-commit-fix-close-tools"@,
            ),
    decreases servers.len(),
{
    if servers.len() > 0 {
        let rest = servers.skip(1);
        fix_sessions_are_known_by_their_server(rest, index - 1);
        if 0 < index < servers.len() {
            assert(rest[index - 1] == servers[index]);
        }
        if has_name(servers[0], "git-commit-fix-close-tools"@) {
        } else if kind_of(rest) is Fix {
            let i = choose|i: int|
                0 <= i < rest.len() && has_name(#[trigger] rest[i], "git-commit-fix-close-tools"@);
            assert(servers[i + 1] == rest[i]);
        }
    }
}

/// Confetti goes by the connection, unless that is disabled; commits go by the
/// server that opens fix sessions.
pub proof fn servers_are_remembered_by_use(
    agent: AgentView,
    servers: Seq<AgentServerView>,
    disable_mcp: bool,
)
    ensures
        ({
            let after = remembering(agent, servers, disable_mcp);
            &&& agent.confetti is None && !disable_mcp ==> after.confetti == acp_id(servers)
            &&& agent.confetti is None && disable_mcp ==> after.confetti is None
            &&& agent.commit_workflow is None ==> after.commit_workflow == named_server(
                servers,
                "git-commit-fix-open-tools"@,
            )
            &&& after.sessions == agent.sessions && after.next_session_id == agent.next_session_id
            &&& after.next_prompt_index == agent.next_prompt_index && after.next_prompt_seed
                == agent.next_prompt_seed
        }),
{
}

/// A session that was opened is found under its id, and a session that was not
/// is not.
pub proof fn sessions_are_found_by_their_id(
    sessions: Seq<(Seq<char>, SessionKind, Seq<AgentServerView>)>,
    id: Seq<char>,
)
    ensures
        place_of(sessions, id) matches Some(place) ==> 0 <= place < sessions.len()
            && sessions[place].0 == id && forall|i: int|
            place < i < sessions.len() ==> (#[trigger] sessions[i]).0 != id,
        place_of(sessions, id) is None ==> forall|i: int|
            0 <= i < sessions.len() ==> (#[trigger] sessions[i]).0 != id,
    decreases sessions.len(),
{
    if sessions.len() > 0 && sessions.last().0 != id {
        let less = sessions.drop_last();
        sessions_are_found_by_their_id(less, id);
        match place_of(less, id) {
            Some(place) => {
                assert forall|i: int| place < i < sessions.len() implies (
                #[trigger] sessions[i]).0 != id by {
                    if i < less.len() {
                        assert(less[i] == sessions[i]);
                    }
                }
            },
            None => {
                assert forall|i: int| 0 <= i < sessions.len() implies (
                #[trigger] sessions[i]).0 != id by {
                    if i < less.len() {
                        assert(less[i] == sessions[i]);
                    }
                }
            },
        }
    }
}

/// Sessions have ids of their own.
pub proof fn session_ids_are_distinct(left: nat, right: nat)
    requires
        left != right,
    ensures
        lorem_session_id(left) != lorem_session_id(right),
        search::starts_with(lorem_session_id(left), "lorem-session-"@),
{
    let prefix = "lorem-session-"@;
    number::lemma_decimal_value(left);
    number::lemma_decimal_value(right);
    assert(lorem_session_id(left).take(prefix.len() as int) =~= prefix);
    assert(lorem_session_id(left).skip(prefix.len() as int) =~= number::decimal(left));
    assert(lorem_session_id(right).skip(prefix.len() as int) =~= number::decimal(right));
}

/// The list of tools has a heading and a line for each server, which starts with
/// its name and tells its tools, or why there are none.
pub proof fn every_server_is_listed(listings: Seq<Listing>, index: int)
    requires
        0 <= index < listings.len(),
    ensures
        listing_lines(listings).len() == listings.len() + 1,
        listing_lines(listings)[0] == "Registered MCP tools:"@,
        search::starts_with(
            listing_lines(listings)[index + 1],
            "- "@ + listings[index].server@ + ": "@,
        ),
        listings[index].tools matches Ok(tools) ==> search::ends_with(
            listing_lines(listings)[index + 1],
            search::join(chars::texts(tools@), ", "@),
        ),
        listings[index].tools matches Err(error) ==> search::contains(
            listing_lines(listings)[index + 1],
            error@,
        ),
{
    let listing = listings[index];
    let line = listing_line(listing);
    assert(listing_lines(listings)[index + 1] == line);
    let head = "- "@ + listing.server@ + ": "@;
    assert(line.take(head.len() as int) =~= head);
    match listing.tools {
        Ok(tools) => {
            let told = search::join(chars::texts(tools@), ", "@);
            assert(line.skip(line.len() - told.len()) =~= told);
        },
        Err(error) => {
            let at: int = head.len() + "<failed to list tools: "@.len() as int;
            assert(line.subrange(at, at + error@.len()) =~= error@);
            search::containing_is_standing_somewhere(line, error@);
        },
    }
}

/// The names of tools are those that their descriptions give, in order; a tool
/// without one is passed over.
pub proof fn names_come_from_descriptions(descriptions: Seq<Seq<char>>, description: Seq<char>)
    ensures
        described_names(Seq::empty()).len() == 0,
        described_name(description) matches Some(name) ==> described_names(
            descriptions.push(description),
        ) == described_names(descriptions).push(name),
        described_name(description) is None ==> described_names(descriptions.push(description))
            == described_names(descriptions),
{
    assert(descriptions.push(description).drop_last() =~= descriptions);
}

} // verus!
