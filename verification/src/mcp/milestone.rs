//! The milestone-list tool, offered where the `gh` CLI with its `milestone`
//! extension is available.

use vstd::prelude::*;

use crate::json;
use crate::json::quote;
use crate::text::chars;
use crate::text::chars::text_of_bytes;
use crate::text::number;
use crate::text::number::decimal_text;
use crate::text::search;
use crate::text::search::{join_texts, text_contains};

verus! {

/// Stable name of the milestone-list tool, as advertised to the agent.
pub const MILESTONE_LIST_TOOL_NAME: &'static str = "milestone_list";

/// An open GitHub milestone as reported by `gh milestone list`.
///
/// `issue_count` is a proxy for how fleshed-out the milestone is: zero issues
/// usually means it is still a raw idea.
#[derive(Debug, Clone, PartialEq, Eq)]
pub struct Milestone {
    pub number: u64,
    pub title: String,
    pub issue_count: u64,
}

/// Shape of one entry in the output of `gh milestone list`.
#[derive(Debug)]
pub struct RawMilestone {
    pub number: u64,
    pub title: String,
    pub issues: RawIssueCount,
}

/// The number of issues of a milestone.
#[derive(Debug)]
pub struct RawIssueCount {
    pub total_count: u64,
}

impl From<RawMilestone> for Milestone {
    fn from(raw: RawMilestone) -> (milestone: Self) {
        Milestone { number: raw.number, title: raw.title, issue_count: raw.issues.total_count }
    }
}

impl vstd::std_specs::convert::FromSpecImpl<RawMilestone> for Milestone {
    open spec fn obeys_from_spec() -> bool {
        true
    }

    open spec fn from_spec(raw: RawMilestone) -> Self {
        Milestone { number: raw.number, title: raw.title, issue_count: raw.issues.total_count }
    }
}

/// Whether the `gh` CLI and its `milestone` extension are ready to use.
#[derive(Debug, Clone, PartialEq, Eq)]
pub enum GhAvailability {
    Available,
    /// `gh` itself, or the `milestone` extension, is missing. `reason` and
    /// `hint` are shown to the user as-is.
    Unavailable { reason: String, hint: String },
}

/// Talks to the `gh` CLI on behalf of the milestone-list tool.
///
/// A trait so that something else can stand in for the program.
pub trait MilestoneCli {
    /// Whether the program is ready to use.
    fn check_availability(&self) -> GhAvailability;

    /// The open milestones.
    fn list_open(&self) -> Result<Vec<Milestone>, String>;
}

/// Whether the program is ready to use, from whether it runs at all and what
/// it lists as its extensions.
pub fn gh_availability(runs: bool, extensions: Option<&str>) -> (availability: GhAvailability)
    ensures
        match availability {
            GhAvailability::Available => runs && extensions is Some && search::contains(
                extensions->0@,
                "milestone"@,
            ),
            GhAvailability::Unavailable { reason, hint } => if !runs {
                reason@ == "the gh CLI is not installed"@ && hint@
                    == "install it from https://cli.github.com"@
            } else {
                &&& extensions matches Some(list) ==> !search::contains(list@, "milestone"@)
                &&& reason@ == "the gh milestone extension is not installed"@
                &&& hint@ == "install it with: gh extension install valeriobelli/gh-milestone"@
            },
        },
{
    if !runs {
        return GhAvailability::Unavailable {
            reason: "the gh CLI is not installed".to_owned(),
            hint: "install it from https://cli.github.com".to_owned(),
        };
    }
    if let Some(list) = extensions {
        if text_contains(list, "milestone") {
            return GhAvailability::Available;
        }
    }
    GhAvailability::Unavailable {
        reason: "the gh milestone extension is not installed".to_owned(),
        hint: "install it with: gh extension install valeriobelli/gh-milestone".to_owned(),
    }
}

/// The arguments of the program that lists the open milestones.
pub fn list_arguments() -> (arguments: Vec<String>)
    ensures
        chars::texts(arguments@) == seq![
            "milestone"@,
            "list"@,
            "--state"@,
            "open"@,
            "--json"@,
            "number,title,issues"@,
        ],
{
    let arguments: Vec<String> = vec![
        "milestone".to_owned(),
        "list".to_owned(),
        "--state".to_owned(),
        "open".to_owned(),
        "--json".to_owned(),
        "number,title,issues".to_owned(),
    ];
    assert(chars::texts(arguments@) =~= seq![
        "milestone"@,
        "list"@,
        "--state"@,
        "open"@,
        "--json"@,
        "number,title,issues"@,
    ]);
    arguments
}

/// How a run of the program that lists milestones ended.
#[derive(Debug)]
pub enum ListRun {
    /// It could not be run.
    NotRun(String),
    /// It failed, and left this on its standard error.
    Failed(Vec<u8>),
    /// What it printed could not be read.
    Unreadable(String),
    /// It printed these.
    Listed(Vec<RawMilestone>),
}

/// Milestones out of the entries they were printed as.
pub open spec fn milestones_of(entries: Seq<RawMilestone>) -> Seq<Milestone> {
    Seq::new(
        entries.len(),
        |i: int|
            Milestone {
                number: entries[i].number,
                title: entries[i].title,
                issue_count: entries[i].issues.total_count,
            },
    )
}

/// Why no milestones came of a run, where none did.
pub open spec fn list_error(run: ListRun) -> Option<Seq<char>> {
    match run {
        ListRun::NotRun(error) => Some("failed to run gh milestone list: "@ + error@),
        ListRun::Failed(stderr) => Some(chars::lossy_text(stderr@)),
        ListRun::Unreadable(error) => Some(
            "failed to parse gh milestone list output: "@ + error@,
        ),
        ListRun::Listed(_) => None,
    }
}

/// The milestones that a run of the program listed.
pub fn listed_milestones(run: ListRun) -> (listed: Result<Vec<Milestone>, String>)
    ensures
        match listed {
            Ok(milestones) => run is Listed && milestones@ == milestones_of(run->Listed_0@),
            Err(error) => list_error(run) == Some(error@),
        },
{
    match run {
        ListRun::NotRun(error) => {
            let mut text = "failed to run gh milestone list: ".to_owned();
            text.append(error.as_str());
            Err(text)
        },
        ListRun::Failed(stderr) => Err(text_of_bytes(stderr.as_slice())),
        ListRun::Unreadable(error) => {
            let mut text = "failed to parse gh milestone list output: ".to_owned();
            text.append(error.as_str());
            Err(text)
        },
        ListRun::Listed(entries) => {
            let ghost all = entries@;
            let mut milestones: Vec<Milestone> = Vec::new();
            for entry in iter: entries
                invariant
                    iter.seq() == all,
                    milestones@ == milestones_of(all.take(iter.index())),
            {
                milestones.push(Milestone::from(entry));
                assert(milestones@ =~= milestones_of(all.take(iter.index() + 1)));
            }
            assert(all.take(all.len() as int) =~= all);
            Ok(milestones)
        },
    }
}

/// A milestone as JSON.
pub open spec fn milestone_text(milestone: Milestone) -> Seq<char> {
    "{\"number\":"@ + number::decimal(milestone.number as nat) + ",\"title\":"@ + json::quoted(
        milestone.title@,
    ) + ",\"issue_count\":"@ + number::decimal(milestone.issue_count as nat) + "}"@
}

/// Milestones as JSON.
pub open spec fn milestones_text(milestones: Seq<Milestone>) -> Seq<char> {
    "["@ + search::join(
        Seq::new(milestones.len(), |i: int| milestone_text(milestones[i])),
        ","@,
    ) + "]"@
}

/// Writes milestones as JSON.
pub fn milestones_json(milestones: &Vec<Milestone>) -> (json: String)
    ensures
        json@ == milestones_text(milestones@),
{
    let mut items: Vec<String> = Vec::new();
    let mut i: usize = 0;
    while i < milestones.len()
        invariant
            i <= milestones.len(),
            items@.len() == i,
            forall|k: int| 0 <= k < i ==> (#[trigger] items@[k])@ == milestone_text(milestones@[k]),
        decreases milestones.len() - i,
    {
        let milestone = &milestones[i];
        let mut item = "{\"number\":".to_owned();
        item.append(decimal_text(milestone.number).as_str());
        item.append(",\"title\":");
        item.append(quote(milestone.title.as_str()).as_str());
        item.append(",\"issue_count\":");
        item.append(decimal_text(milestone.issue_count).as_str());
        item.append("}");
        items.push(item);
        i = i + 1;
    }
    assert(chars::texts(items@) =~= Seq::new(
        milestones@.len(),
        |i: int| milestone_text(milestones@[i]),
    ));
    let mut json = "[".to_owned();
    json.append(join_texts(&items, ",").as_str());
    json.append("]");
    json
}

/// The tool failed: the program could not list the milestones.
#[derive(Debug, Clone, Copy, PartialEq, Eq, Structural)]
pub struct ListFailed;

/// Whether a reply is the answer of the tool to what the program listed.
pub open spec fn is_reply_to(
    reply: Result<String, ListFailed>,
    listed: Result<Vec<Milestone>, String>,
) -> bool {
    match listed {
        Ok(milestones) => reply is Ok && reply->Ok_0@ == milestones_text(milestones@),
        Err(_) => reply is Err,
    }
}

/// The answer of the tool to what the program listed.
pub fn milestone_reply(listed: Result<Vec<Milestone>, String>) -> (reply: Result<String, ListFailed>)
    ensures
        is_reply_to(reply, listed),
{
    match listed {
        Ok(milestones) => Ok(milestones_json(&milestones)),
        Err(_) => Err(ListFailed),
    }
}

/// Lists the open milestones as JSON: the answer to whatever the program lists
/// when it is asked for the open ones.
pub fn list_open_milestones<C: MilestoneCli>(cli: &C) -> (reply: Result<String, ListFailed>)
    ensures
        exists|listed: Result<Vec<Milestone>, String>|
            call_ensures(C::list_open, (cli,), listed) && #[trigger] is_reply_to(reply, listed),
{
    let listed = cli.list_open();
    let ghost answer = listed;
    let reply = milestone_reply(listed);
    assert(is_reply_to(reply, answer));
    reply
}

/// User's decision when the milestone-list tool is unavailable at startup.
#[derive(Debug, Clone, Copy, PartialEq, Eq, Structural)]
pub enum ToolUnavailableChoice {
    /// Abort the session instead of starting without the tool.
    Abort,
    /// Start the session without the milestone-list tool.
    Ignore,
}

/// How to proceed without the tool: as the user decided, and without it where
/// there was nobody to ask or no answer came.
pub fn choice_without_tool(answer: Option<ToolUnavailableChoice>) -> (choice: ToolUnavailableChoice)
    ensures
        choice == (match answer {
            Some(choice) => choice,
            None => ToolUnavailableChoice::Ignore,
        }),
{
    match answer {
        Some(choice) => choice,
        None => ToolUnavailableChoice::Ignore,
    }
}

/// Each milestone is taken over with its number, its title and the number of its
/// issues, in the order of the list.
pub proof fn milestones_are_taken_over(entries: Seq<RawMilestone>, index: int)
    requires
        0 <= index < entries.len(),
    ensures
        milestones_of(entries).len() == entries.len(),
        milestones_of(entries)[index].number == entries[index].number,
        milestones_of(entries)[index].title == entries[index].title,
        milestones_of(entries)[index].issue_count == entries[index].issues.total_count,
{
}

/// The list tells of each milestone its number, its title and the number of its
/// issues.
pub proof fn every_milestone_is_told(milestones: Seq<Milestone>, index: int)
    requires
        0 <= index < milestones.len(),
    ensures
        ({
            let milestone = milestones[index];
            let text = milestone_text(milestone);
            &&& search::contains(milestones_text(milestones), text)
            &&& search::contains(text, json::quoted(milestone.title@))
            &&& search::starts_with(
                text,
                "{\"number\":"@ + number::decimal(milestone.number as nat),
            )
            &&& search::ends_with(
                text,
                ",\"issue_count\":"@ + number::decimal(milestone.issue_count as nat) + "}"@,
            )
        }),
{
    let texts = Seq::new(milestones.len(), |i: int| milestone_text(milestones[i]));
    let milestone = milestones[index];
    let text = milestone_text(milestone);
    let head = "{\"number\":"@ + number::decimal(milestone.number as nat);
    let tail = ",\"issue_count\":"@ + number::decimal(milestone.issue_count as nat) + "}"@;
    let title = json::quoted(milestone.title@);
    assert(text.take(head.len() as int) =~= head);
    assert(text.skip(text.len() - tail.len()) =~= tail);
    let at: int = head.len() + ",\"title\":"@.len() as int;
    assert(text.subrange(at, at + title.len()) =~= title);
    search::containing_is_standing_somewhere(text, title);
    search::lemma_joined_part(texts, ","@, index);
    let joined = search::join(texts, ","@);
    let whole = milestones_text(milestones);
    let place = choose|place: int|
        0 <= place && place + text.len() <= joined.len() && #[trigger] joined.subrange(
            place,
            place + text.len(),
        ) == text;
    let there = "["@.len() + place;
    assert(whole.subrange(there, there + text.len()) =~= joined.subrange(place, place + text.len()));
    search::containing_is_standing_somewhere(whole, text);
}

/// A run that listed nothing says why: whatever the program or the reader
/// complained of.
pub proof fn failures_tell_why(run: ListRun)
    ensures
        list_error(run) is None <==> run is Listed,
        run matches ListRun::NotRun(error) ==> search::ends_with(list_error(run)->0, error@),
        run matches ListRun::Unreadable(error) ==> search::ends_with(list_error(run)->0, error@),
        run matches ListRun::Failed(stderr) ==> list_error(run) == Some(
            chars::lossy_text(stderr@),
        ),
{
    match run {
        ListRun::NotRun(error) => {
            let text = "failed to run gh milestone list: "@ + error@;
            assert(text.skip(text.len() - error@.len()) =~= error@);
        },
        ListRun::Unreadable(error) => {
            let text = "failed to parse gh milestone list output: "@ + error@;
            assert(text.skip(text.len() - error@.len()) =~= error@);
        },
        _ => {},
    }
}

} // verus!
