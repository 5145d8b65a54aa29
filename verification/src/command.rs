//! The command language of the daemon: one line of tokens with one space
//! between them, read into a request and, once the address of its triplet is
//! known, into a command.

use crate::status::{flag_status, status_from_flag, ListingStatus};
use crate::text::{chars_of, is_text, split_once, split_once_chars, string_of, views};
use crate::triplet::{
    option_ip, resolve_tokens, triplet_tokens, IpView, SenderIp, Triplet, TripletError,
    TripletText, TripletTokens, TripletView,
};
use vstd::prelude::*;

verus! {

/// What a request asks for.
#[derive(Clone, Copy, Debug, PartialEq, Eq, Structural)]
pub enum Verb {
    Add,
    Delete,
    Check,
    Update,
    Stats,
    Status,
    Mrtg,
    List,
    Save,
    Reload,
    Clear,
}

/// The verb that the first token `word` names; `None` where it names none.
pub open spec fn verb_of(word: Seq<char>) -> Option<Verb> {
    if word == "add"@ {
        Some(Verb::Add)
    } else if word == "delete"@ {
        Some(Verb::Delete)
    } else if word == "check"@ {
        Some(Verb::Check)
    } else if word == "stats"@ {
        Some(Verb::Stats)
    } else if word == "status"@ {
        Some(Verb::Status)
    } else if word == "mrtg"@ {
        Some(Verb::Mrtg)
    } else if word == "list"@ {
        Some(Verb::List)
    } else if word == "save"@ {
        Some(Verb::Save)
    } else if word == "clear"@ {
        Some(Verb::Clear)
    } else if word == "reload"@ {
        Some(Verb::Reload)
    } else if word == "update"@ {
        Some(Verb::Update)
    } else {
        None
    }
}

/// Whether the verb takes a triplet.
pub open spec fn takes_triplet(verb: Verb) -> bool {
    verb == Verb::Add || verb == Verb::Delete || verb == Verb::Check || verb == Verb::Update
        || verb == Verb::Status
}

/// Whether the verb takes status flags and nothing else.
pub open spec fn takes_flags_only(verb: Verb) -> bool {
    verb == Verb::List || verb == Verb::Clear
}

/// Whether `s` begins with two hyphens.
pub open spec fn is_flag_start(s: Seq<char>) -> bool {
    s.len() >= 2 && s[0] == '-' && s[1] == '-'
}

/// The leading tokens of `s` that begin with two hyphens, and what follows
/// them. Such a token ends at the next space, or with the text.
pub open spec fn leading_flags(s: Seq<char>) -> (Seq<Seq<char>>, Seq<char>)
    decreases s.len(),
{
    if is_flag_start(s) {
        match split_once(s, ' ') {
            Some((flag, rest)) => {
                let (flags, operand) = leading_flags(rest);
                (seq![flag] + flags, operand)
            },
            None => (seq![s], Seq::empty()),
        }
    } else {
        (Seq::empty(), s)
    }
}

/// The listings that the flags name, in their order; a flag that names none
/// is passed over.
pub open spec fn flag_statuses(flags: Seq<Seq<char>>) -> Seq<ListingStatus>
    decreases flags.len(),
{
    if flags.len() == 0 {
        Seq::empty()
    } else {
        let init = flag_statuses(flags.drop_last());
        match flag_status(flags.last()) {
            Some(status) => init.push(status),
            None => init,
        }
    }
}

/// The last of the listings, where there is one.
pub open spec fn last_status(statuses: Seq<ListingStatus>) -> Option<ListingStatus> {
    if statuses.len() > 0 {
        Some(statuses.last())
    } else {
        None
    }
}

/// A request as plain values: its verb, the listings that its flags name,
/// and the tokens of its triplet where the verb takes one.
pub struct RequestView {
    pub verb: Verb,
    pub flags: Seq<ListingStatus>,
    pub operand: Option<TripletTokens>,
}

/// The request with the verb `verb` that takes a triplet, read from what
/// follows the verb.
pub open spec fn triplet_request(verb: Verb, input: Seq<char>) -> Option<RequestView> {
    let (flags, rest) = leading_flags(input);
    match triplet_tokens(rest) {
        Some(tokens) => Some(
            RequestView { verb, flags: flag_statuses(flags), operand: Some(tokens) },
        ),
        None => None,
    }
}

/// The request that the line `s` denotes. The first token names the verb; a
/// line whose first token names none is an update, and that token begins its
/// flags or its triplet. `None` where the verb takes a triplet and what
/// follows the flags has not two or three tokens.
pub open spec fn parse_request(s: Seq<char>) -> Option<RequestView> {
    let (word, tail) = match split_once(s, ' ') {
        Some(pair) => pair,
        None => (s, Seq::empty()),
    };
    match verb_of(word) {
        None => triplet_request(Verb::Update, s),
        Some(verb) => if takes_triplet(verb) {
            triplet_request(verb, tail)
        } else if takes_flags_only(verb) {
            Some(RequestView { verb, flags: flag_statuses(leading_flags(tail).0), operand: None })
        } else {
            Some(RequestView { verb, flags: Seq::empty(), operand: None })
        },
    }
}

/// A command as plain values.
pub enum CommandView {
    Add { triplet: TripletView, add_status: ListingStatus },
    Delete { triplet: TripletView },
    Check { triplet: TripletView, check_status: Option<ListingStatus> },
    Update { triplet: TripletView, check_status: Option<ListingStatus> },
    Stats,
    Status { triplet: TripletView },
    Mrtg,
    List { status: Seq<ListingStatus> },
    Save,
    Reload,
    Clear { status: Seq<ListingStatus> },
}

/// The command of a request whose triplet, where it has one, is `triplet`.
/// Of several flags the last one counts; `add` without a flag adds to the
/// whitelist.
pub open spec fn command_of(req: RequestView, triplet: TripletView) -> CommandView {
    match req.verb {
        Verb::Add => CommandView::Add {
            triplet,
            add_status: match last_status(req.flags) {
                Some(status) => status,
                None => ListingStatus::White,
            },
        },
        Verb::Delete => CommandView::Delete { triplet },
        Verb::Check => CommandView::Check { triplet, check_status: last_status(req.flags) },
        Verb::Update => CommandView::Update { triplet, check_status: last_status(req.flags) },
        Verb::Stats => CommandView::Stats,
        Verb::Status => CommandView::Status { triplet },
        Verb::Mrtg => CommandView::Mrtg,
        Verb::List => CommandView::List { status: req.flags },
        Verb::Save => CommandView::Save,
        Verb::Reload => CommandView::Reload,
        Verb::Clear => CommandView::Clear { status: req.flags },
    }
}

/// The command that a request denotes, where `ipv6` is what the first token
/// of its triplet was read as elsewhere in case it is no IPv4 address; the
/// error where the request denotes no command. A request without a triplet
/// denotes its command whatever `ipv6` is, unless its verb takes one.
pub open spec fn resolve_request(req: RequestView, ipv6: Option<IpView>) -> Result<
    CommandView,
    TripletError,
> {
    match req.operand {
        None => if takes_triplet(req.verb) {
            Err(TripletError::Tokens)
        } else {
            Ok(command_of(req, arbitrary()))
        },
        Some(tokens) => match resolve_tokens(tokens, ipv6) {
            Ok(triplet) => Ok(command_of(req, triplet)),
            Err(e) => Err(e),
        },
    }
}

/// The command that the line `s` denotes, where `ipv6` is what the first
/// token of its triplet was read as elsewhere in case it is no IPv4 address.
pub open spec fn parse_command(s: Seq<char>, ipv6: Option<IpView>) -> Result<
    CommandView,
    TripletError,
> {
    match parse_request(s) {
        None => Err(TripletError::Tokens),
        Some(req) => resolve_request(req, ipv6),
    }
}

/// The leading tokens of `input` that begin with two hyphens, and what
/// follows them.
pub fn parse_cmd_input(input: &str) -> (r: (Vec<String>, String))
    ensures
        r.0@.map_values(|f: String| f@) == leading_flags(input@).0,
        r.1@ == leading_flags(input@).1,
{
    let v = chars_of(input);
    let (flags, rest) = leading_flag_tokens(v);
    let mut out: Vec<String> = Vec::new();
    let mut i: usize = 0;
    while i < flags.len()
        invariant
            i <= flags.len(),
            out@.map_values(|f: String| f@) == views(flags@).take(i as int),
        decreases flags.len() - i,
    {
        let f = string_of(&flags[i]);
        proof {
            assert(out@.push(f).map_values(|f: String| f@) =~= out@.map_values(|f: String| f@).push(
                f@,
            ));
            assert(views(flags@).take(i + 1) =~= views(flags@).take(i as int).push(flags@[i as int]@));
        }
        out.push(f);
        i += 1;
    }
    assert(views(flags@).take(flags.len() as int) =~= views(flags@));
    (out, string_of(&rest))
}

/// `parse_cmd_input` on characters.
pub fn leading_flag_tokens(input: Vec<char>) -> (r: (Vec<Vec<char>>, Vec<char>))
    ensures
        views(r.0@) == leading_flags(input@).0,
        r.1@ == leading_flags(input@).1,
{
    let mut flags: Vec<Vec<char>> = Vec::new();
    let mut rest = input;
    loop
        invariant
            views(flags@) + leading_flags(rest@).0 == leading_flags(input@).0,
            leading_flags(rest@).1 == leading_flags(input@).1,
        decreases rest.len(),
    {
        if !(rest.len() >= 2 && rest[0] == '-' && rest[1] == '-') {
            assert(leading_flags(rest@).0 =~= Seq::<Seq<char>>::empty());
            assert(views(flags@) + leading_flags(rest@).0 =~= views(flags@));
            return (flags, rest);
        }
        match split_once_chars(&rest, ' ') {
            Some((flag, tail)) => {
                proof {
                    crate::text::lemma_find(rest@, ' ');
                    assert(views(flags@.push(flag)) =~= views(flags@) + seq![flag@]);
                    assert(leading_flags(rest@).0 == seq![flag@] + leading_flags(tail@).0);
                    assert(views(flags@.push(flag)) + leading_flags(tail@).0 =~= views(flags@)
                        + leading_flags(rest@).0);
                }
                flags.push(flag);
                rest = tail;
            },
            None => {
                proof {
                    assert(views(flags@.push(rest)) =~= views(flags@) + seq![rest@]);
                    assert(leading_flags(rest@).0 == seq![rest@]);
                }
                flags.push(rest);
                return (flags, Vec::new());
            },
        }
    }
}

/// The listings that the flags name.
fn statuses_of(flags: &Vec<Vec<char>>) -> (r: Vec<ListingStatus>)
    ensures
        r@ == flag_statuses(views(flags@)),
{
    let mut r: Vec<ListingStatus> = Vec::new();
    let mut i: usize = 0;
    while i < flags.len()
        invariant
            i <= flags.len(),
            r@ == flag_statuses(views(flags@).take(i as int)),
        decreases flags.len() - i,
    {
        proof {
            let t = views(flags@).take(i + 1);
            assert(t.drop_last() =~= views(flags@).take(i as int));
            assert(t.last() == flags@[i as int]@);
        }
        match status_from_flag(&flags[i]) {
            Some(status) => {
                r.push(status);
            },
            None => {},
        }
        i += 1;
    }
    assert(views(flags@).take(flags.len() as int) =~= views(flags@));
    r
}

/// The verb that `word` names.
fn verb_named(word: &Vec<char>) -> (r: Option<Verb>)
    ensures
        r == verb_of(word@),
{
    if is_text(word, "add") {
        Some(Verb::Add)
    } else if is_text(word, "delete") {
        Some(Verb::Delete)
    } else if is_text(word, "check") {
        Some(Verb::Check)
    } else if is_text(word, "stats") {
        Some(Verb::Stats)
    } else if is_text(word, "status") {
        Some(Verb::Status)
    } else if is_text(word, "mrtg") {
        Some(Verb::Mrtg)
    } else if is_text(word, "list") {
        Some(Verb::List)
    } else if is_text(word, "save") {
        Some(Verb::Save)
    } else if is_text(word, "clear") {
        Some(Verb::Clear)
    } else if is_text(word, "reload") {
        Some(Verb::Reload)
    } else if is_text(word, "update") {
        Some(Verb::Update)
    } else {
        None
    }
}

/// A request: a command whose triplet, where it has one, still holds its
/// address as text.
#[derive(Debug)]
pub struct Request {
    pub verb: Verb,
    pub flags: Vec<ListingStatus>,
    pub operand: Option<TripletText>,
}

impl View for Request {
    type V = RequestView;

    open spec fn view(&self) -> RequestView {
        RequestView {
            verb: self.verb,
            flags: self.flags@,
            operand: match self.operand {
                Some(t) => Some(t@),
                None => None,
            },
        }
    }
}

/// A command of the daemon.
#[derive(Debug)]
pub enum Command {
    Add { triplet: Triplet, add_status: ListingStatus },
    Delete { triplet: Triplet },
    Check { triplet: Triplet, check_status: Option<ListingStatus> },
    Update { triplet: Triplet, check_status: Option<ListingStatus> },
    Stats,
    Status { triplet: Triplet },
    Mrtg,
    List { status: Vec<ListingStatus> },
    Save,
    Reload,
    Clear { status: Vec<ListingStatus> },
}

impl View for Command {
    type V = CommandView;

    open spec fn view(&self) -> CommandView {
        match *self {
            Command::Add { triplet, add_status } => CommandView::Add { triplet: triplet@, add_status },
            Command::Delete { triplet } => CommandView::Delete { triplet: triplet@ },
            Command::Check { triplet, check_status } => CommandView::Check {
                triplet: triplet@,
                check_status,
            },
            Command::Update { triplet, check_status } => CommandView::Update {
                triplet: triplet@,
                check_status,
            },
            Command::Stats => CommandView::Stats,
            Command::Status { triplet } => CommandView::Status { triplet: triplet@ },
            Command::Mrtg => CommandView::Mrtg,
            Command::List { status } => CommandView::List { status: status@ },
            Command::Save => CommandView::Save,
            Command::Reload => CommandView::Reload,
            Command::Clear { status } => CommandView::Clear { status: status@ },
        }
    }
}

/// Reads what follows the verb `verb`, which takes a triplet.
fn read_triplet_request(verb: Verb, input: Vec<char>) -> (r: Option<Request>)
    ensures
        match r {
            Some(req) => triplet_request(verb, input@) == Some(req@),
            None => triplet_request(verb, input@).is_none(),
        },
{
    let (flags, rest) = leading_flag_tokens(input);
    match TripletText::from_chars(&rest) {
        Some(tokens) => Some(Request { verb, flags: statuses_of(&flags), operand: Some(tokens) }),
        None => None,
    }
}

impl Request {
    /// Reads the line `line`; `Tokens` where it denotes no request.
    pub fn parse(line: &str) -> (r: Result<Request, TripletError>)
        ensures
            match r {
                Ok(req) => parse_request(line@) == Some(req@),
                Err(e) => parse_request(line@).is_none() && e == TripletError::Tokens,
            },
    {
        let v = chars_of(line);
        let (verb, tail) = match split_once_chars(&v, ' ') {
            Some((word, tail)) => (verb_named(&word), tail),
            None => (verb_named(&v), Vec::new()),
        };
        let found = match verb {
            None => read_triplet_request(Verb::Update, v),
            Some(Verb::Add) => read_triplet_request(Verb::Add, tail),
            Some(Verb::Delete) => read_triplet_request(Verb::Delete, tail),
            Some(Verb::Check) => read_triplet_request(Verb::Check, tail),
            Some(Verb::Update) => read_triplet_request(Verb::Update, tail),
            Some(Verb::Status) => read_triplet_request(Verb::Status, tail),
            Some(Verb::List) => {
                let (flags, _) = leading_flag_tokens(tail);
                Some(Request { verb: Verb::List, flags: statuses_of(&flags), operand: None })
            },
            Some(Verb::Clear) => {
                let (flags, _) = leading_flag_tokens(tail);
                Some(Request { verb: Verb::Clear, flags: statuses_of(&flags), operand: None })
            },
            Some(Verb::Stats) => Some(Request { verb: Verb::Stats, flags: Vec::new(), operand: None }),
            Some(Verb::Mrtg) => Some(Request { verb: Verb::Mrtg, flags: Vec::new(), operand: None }),
            Some(Verb::Save) => Some(Request { verb: Verb::Save, flags: Vec::new(), operand: None }),
            Some(Verb::Reload) => Some(
                Request { verb: Verb::Reload, flags: Vec::new(), operand: None },
            ),
        };
        match found {
            Some(req) => Ok(req),
            None => Err(TripletError::Tokens),
        }
    }

    /// The first token of the triplet of the request: the text of its
    /// address.
    pub fn ip_token(&self) -> (r: Option<String>)
        ensures
            match r {
                Some(t) => self@.operand.is_some() && t@ == self@.operand.unwrap().ip,
                None => self@.operand.is_none(),
            },
    {
        match &self.operand {
            Some(t) => Some(t.ip.clone()),
            None => None,
        }
    }

    /// The command of the request, where `ipv6` is what the first token of
    /// its triplet was read as elsewhere in case it is no IPv4 address.
    pub fn resolve(self, ipv6: Option<SenderIp>) -> (r: Result<Command, TripletError>)
        ensures
            match r {
                Ok(cmd) => resolve_request(self@, option_ip(ipv6)) == Ok::<CommandView, TripletError>(
                    cmd@,
                ),
                Err(e) => resolve_request(self@, option_ip(ipv6)) == Err::<
                    CommandView,
                    TripletError,
                >(e),
            },
    {
        let last: Option<ListingStatus> = if self.flags.len() > 0 {
            Some(self.flags[self.flags.len() - 1])
        } else {
            None
        };
        match self.operand {
            None => match self.verb {
                Verb::List => Ok(Command::List { status: self.flags }),
                Verb::Clear => Ok(Command::Clear { status: self.flags }),
                Verb::Stats => Ok(Command::Stats),
                Verb::Mrtg => Ok(Command::Mrtg),
                Verb::Save => Ok(Command::Save),
                Verb::Reload => Ok(Command::Reload),
                _ => Err(TripletError::Tokens),
            },
            Some(tokens) => match tokens.resolve(ipv6) {
                Err(e) => Err(e),
                Ok(triplet) => Ok(
                    match self.verb {
                        Verb::Add => Command::Add {
                            triplet,
                            add_status: match last {
                                Some(status) => status,
                                None => ListingStatus::White,
                            },
                        },
                        Verb::Delete => Command::Delete { triplet },
                        Verb::Check => Command::Check { triplet, check_status: last },
                        Verb::Update => Command::Update { triplet, check_status: last },
                        Verb::Status => Command::Status { triplet },
                        Verb::Stats => Command::Stats,
                        Verb::Mrtg => Command::Mrtg,
                        Verb::List => Command::List { status: self.flags },
                        Verb::Save => Command::Save,
                        Verb::Reload => Command::Reload,
                        Verb::Clear => Command::Clear { status: self.flags },
                    },
                ),
            },
        }
    }
}

} // verus!
