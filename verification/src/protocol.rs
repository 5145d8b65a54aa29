//! What the daemon answers to a command, and what the command does to the
//! registry.

use crate::app::App;
use crate::command::{parse_command, Command, CommandView, Request};
use crate::persist::{Snapshot, SnapshotView};
use crate::registry::{EntryView, Registry, StatsView};
use crate::report::{is_listing, mrtg_text, reports, StatsReport};
use crate::status::{status_name, ListingStatus};
use crate::text::{append_str, string_of};
use crate::time::{clock, Timestamp};
use crate::triplet::{option_ip, IpView, SenderIp, TripletView};
use vstd::prelude::*;

verus! {

/// What is to be done with a request that has been taken.
#[derive(Debug)]
pub enum Reply {
    /// The text is the answer.
    Text(String),
    /// The registry was made ready to be written; once `snapshot` is
    /// written, `text` is the answer.
    Save { snapshot: Snapshot, text: String },
    /// The text is the answer; after it the daemon ends its run and starts
    /// again with its configuration and its data read anew.
    Reload(String),
    /// The answer is the text of these figures.
    Stats(StatsReport),
}

/// A reply as plain values.
pub enum ReplyView {
    Text(Seq<char>),
    Save { snapshot: SnapshotView, text: Seq<char> },
    Reload(Seq<char>),
    Stats(StatsReport),
}

impl View for Reply {
    type V = ReplyView;

    open spec fn view(&self) -> ReplyView {
        match *self {
            Reply::Text(t) => ReplyView::Text(t@),
            Reply::Save { snapshot, text } => ReplyView::Save { snapshot: snapshot@, text: text@ },
            Reply::Reload(t) => ReplyView::Reload(t@),
            Reply::Stats(r) => ReplyView::Stats(r),
        }
    }
}

/// How a listing is told: by its name, or, where the request named a
/// listing, by whether it is that one.
pub open spec fn verdict(status: ListingStatus, wanted: Option<ListingStatus>) -> Seq<char> {
    match wanted {
        Some(w) => if status == w {
            "true"@
        } else {
            "false"@
        },
        None => status_name(status),
    }
}

/// What is said of the listing `status`, between `before` and `list`.
pub open spec fn list_phrase(before: Seq<char>, status: ListingStatus) -> Seq<char> {
    before + status_name(status) + "list"@
}

/// The registry after the command `cmd` was taken at `now`.
pub open spec fn registry_after(reg: Registry, cmd: CommandView, now: nat) -> Registry {
    match cmd {
        CommandView::Save => reg.saved(now),
        CommandView::Update { triplet, .. } => reg.update(triplet, now),
        CommandView::Add { triplet, add_status } => reg.set(triplet, add_status, now),
        CommandView::Delete { triplet } => reg.delete(triplet),
        CommandView::Clear { status } => reg.clear(status, now),
        CommandView::Mrtg => reg.prune(now),
        _ => reg,
    }
}

/// Whether `reply` answers the command `cmd`, taken at `now` by the registry
/// `reg`.
pub open spec fn answers(reg: Registry, cmd: CommandView, now: nat, reply: ReplyView) -> bool {
    match cmd {
        CommandView::Update { triplet, check_status } => reply == ReplyView::Text(
            verdict(reg.update(triplet, now).stored(triplet).unwrap(), check_status),
        ),
        CommandView::Check { triplet, check_status } => reply == ReplyView::Text(
            verdict(reg.effective(triplet, now), check_status),
        ),
        CommandView::Add { triplet, add_status } => reply == ReplyView::Text(
            list_phrase("Added to "@, add_status),
        ),
        CommandView::Delete { triplet } => reply == ReplyView::Text(
            match reg.stored(triplet) {
                Some(status) => list_phrase("Removed from "@, status),
                None => "Not found"@,
            },
        ),
        CommandView::Status { triplet } => reply == ReplyView::Text(
            match reg.stored(triplet) {
                Some(status) => status_name(status),
                None => "unseen"@,
            },
        ),
        CommandView::List { status } => match reply {
            ReplyView::Text(text) => is_listing(reg.entries, status, text),
            _ => false,
        },
        CommandView::Clear { status } => reply == ReplyView::Text("data and statistics cleared"@),
        CommandView::Save => match reply {
            ReplyView::Save { snapshot, text } => snapshot.of(reg.saved(now)) && text
                == "greylistd data has been saved"@,
            _ => false,
        },
        CommandView::Reload => reply == ReplyView::Reload("reloading configuration and data"@),
        CommandView::Stats => match reply {
            ReplyView::Stats(report) => reports(report, reg, now),
            _ => false,
        },
        CommandView::Mrtg => reply == ReplyView::Text(mrtg_text(reg.prune(now), now)),
    }
}

/// What is answered to a line that is no command.
pub open spec fn invalid_reply() -> ReplyView {
    ReplyView::Text("Invalid command"@)
}

/// Whether a registry `before` that takes the line `line` at `now` is
/// `after` and gives `reply`, where `ipv6` is what the first token of the
/// triplet of the line was read as elsewhere in case it is no IPv4 address.
/// A line that is no command changes nothing and is answered so.
pub open spec fn handles(
    before: Registry,
    line: Seq<char>,
    ipv6: Option<IpView>,
    now: nat,
    after: Registry,
    reply: ReplyView,
) -> bool {
    match parse_command(line, ipv6) {
        Ok(cmd) => after == registry_after(before, cmd, now) && answers(before, cmd, now, reply),
        Err(_) => after == before && reply == invalid_reply(),
    }
}

/// To check a triplet, to ask for its status, to list the entries or to ask
/// for the statistics changes nothing in the registry, whatever is answered.
pub proof fn lemma_queries_change_nothing(reg: Registry, cmd: CommandView, now: nat)
    requires
        cmd is Check || cmd is Status || cmd is List || cmd is Stats,
    ensures
        registry_after(reg, cmd, now) == reg,
{
}

/// A check tells a grey triplet inside its window as white, and leaves its
/// entry grey, with its count and its times as they were.
pub proof fn lemma_check_reports_without_promoting(
    reg: Registry,
    t: TripletView,
    wanted: Option<ListingStatus>,
    now: nat,
)
    requires
        reg.stored(t) == Some(ListingStatus::Grey),
        reg.in_window(reg.entries[reg.key(t)].meta.first_seen, now),
    ensures
        answers(
            reg,
            CommandView::Check { triplet: t, check_status: wanted },
            now,
            ReplyView::Text(verdict(ListingStatus::White, wanted)),
        ),
        registry_after(reg, CommandView::Check { triplet: t, check_status: wanted }, now).stored(t)
            == Some(ListingStatus::Grey),
        registry_after(reg, CommandView::Check { triplet: t, check_status: wanted }, now).entries
            == reg.entries,
{
}

/// The counts and the time at which counting began change by a deciding
/// request and by clearing every entry, and by nothing else that is asked;
/// the time of the last save changes by saving only.
pub proof fn lemma_counters(reg: Registry, cmd: CommandView, now: nat)
    requires
        !(cmd is Update),
        !(cmd matches CommandView::Clear { status } && status.len() == 0),
    ensures
        registry_after(reg, cmd, now).stats == (StatsView {
            lastsave: registry_after(reg, cmd, now).stats.lastsave,
            ..reg.stats
        }),
        !(cmd is Save) ==> registry_after(reg, cmd, now).stats == reg.stats,
{
}

/// To clear the entries of some listings leaves the entries of all other
/// listings and the counters as they are; to clear with no listing named
/// leaves no entry, and the counters start again.
pub proof fn lemma_clear(reg: Registry, statuses: Seq<ListingStatus>, now: nat, k: u64)
    requires
        reg.entries.contains_key(k),
    ensures
        statuses.len() > 0 ==> reg.clear(statuses, now).stats == reg.stats,
        statuses.len() > 0 ==> (reg.clear(statuses, now).entries.contains_key(k)
            <==> !statuses.contains(reg.entries[k].status)),
        statuses.len() > 0 && !statuses.contains(reg.entries[k].status) ==> reg.clear(
            statuses,
            now,
        ).entries[k] == reg.entries[k],
        statuses.len() == 0 ==> reg.clear(statuses, now).entries == Map::<u64, EntryView>::empty()
            && reg.clear(statuses, now).stats == Registry::fresh_stats(now),
{
}

/// The text that tells `status`, as `verdict` says.
fn tell(status: ListingStatus, wanted: Option<ListingStatus>) -> (s: String)
    ensures
        s@ == verdict(status, wanted),
{
    match wanted {
        Some(w) => if status == w {
            "true".to_owned()
        } else {
            "false".to_owned()
        },
        None => status.to_string(),
    }
}

/// The text that `list_phrase` says of `status`.
fn phrase(before: &str, status: ListingStatus) -> (s: String)
    ensures
        s@ == list_phrase(before@, status),
{
    let mut v: Vec<char> = Vec::new();
    append_str(&mut v, before);
    append_str(&mut v, status.to_string().as_str());
    append_str(&mut v, "list");
    assert(v@ =~= list_phrase(before@, status));
    string_of(&v)
}

impl Reply {
    /// Whether the daemon ends its run after this reply, to start again.
    pub fn reloads(&self) -> (b: bool)
        ensures
            b == (self@ is Reload),
    {
        match self {
            Reply::Reload(_) => true,
            _ => false,
        }
    }
}

impl App {
    /// Takes the command `cmd` at `now`: changes the registry as the command
    /// asks and returns the reply.
    pub fn execute(&mut self, cmd: Command, now: Timestamp) -> (reply: Reply)
        requires
            old(self).wf(),
        ensures
            final(self).wf(),
            final(self)@ == registry_after(old(self)@, cmd@, now@),
            answers(old(self)@, cmd@, now@, reply@),
    {
        match cmd {
            Command::Update { triplet, check_status } => {
                let status = self.add_or_update_triplet_at(triplet, now).listing_status;
                Reply::Text(tell(status, check_status))
            },
            Command::Check { triplet, check_status } => {
                let status = self.check_triplet_at(&triplet, now);
                Reply::Text(tell(status, check_status))
            },
            Command::Add { triplet, add_status } => {
                self.add_triplet_at(triplet, add_status, now);
                Reply::Text(phrase("Added to ", add_status))
            },
            Command::Delete { triplet } => {
                match self.delete(&triplet) {
                    Some(status) => Reply::Text(phrase("Removed from ", status)),
                    None => Reply::Text("Not found".to_owned()),
                }
            },
            Command::Status { triplet } => {
                match self.status(&triplet) {
                    Some(status) => Reply::Text(status.to_string()),
                    None => Reply::Text("unseen".to_owned()),
                }
            },
            Command::List { status } => Reply::Text(self.list(&status)),
            Command::Clear { status } => {
                self.clear_at(&status, now);
                Reply::Text("data and statistics cleared".to_owned())
            },
            Command::Save => Reply::Save {
                snapshot: self.save_at(now),
                text: "greylistd data has been saved".to_owned(),
            },
            Command::Reload => Reply::Reload("reloading configuration and data".to_owned()),
            Command::Stats => Reply::Stats(self.stats_at(now)),
            Command::Mrtg => Reply::Text(self.mrtg_at(now)),
        }
    }

    /// Takes the request line `line` at `now`. An IPv4 address in the line
    /// is read here; `ipv6` is what the first token of the triplet was read
    /// as elsewhere in case it is an IPv6 address.
    pub fn handle_client_at(&mut self, line: &str, ipv6: Option<SenderIp>, now: Timestamp) -> (reply:
        Reply)
        requires
            old(self).wf(),
        ensures
            final(self).wf(),
            handles(old(self)@, line@, option_ip(ipv6), now@, final(self)@, reply@),
    {
        let cmd = match Request::parse(line) {
            Ok(request) => request.resolve(ipv6),
            Err(e) => Err(e),
        };
        match cmd {
            Ok(cmd) => self.execute(cmd, now),
            Err(_) => Reply::Text("Invalid command".to_owned()),
        }
    }

    /// Takes the request line `line` at the time of the call.
    pub fn handle_client(&mut self, line: &str, ipv6: Option<SenderIp>) -> (reply: Reply)
        requires
            old(self).wf(),
        ensures
            final(self).wf(),
            exists|now: nat|
                handles(old(self)@, line@, option_ip(ipv6), now, final(self)@, reply@),
    {
        let now = clock();
        let reply = self.handle_client_at(line, ipv6, now);
        assert(handles(old(self)@, line@, option_ip(ipv6), now@, self@, reply@));
        reply
    }
}

} // verus!
