//! The commands of the daemon's control socket and the lines that answer
//! them. Every reply is one line that begins with `OK:` or `ERROR:`.

use vstd::prelude::*;
use vstd::string::StringExecFns;
use crate::state::db::{PendingTab, PendingTabView};
use crate::text::{decimal_digits, join, str_eq, u64_to_string};

verus! {

/// The words of a line: its pieces between runs of white space.
pub uninterp spec fn words_of(line: Seq<char>) -> Seq<Seq<char>>;

/// Splits a line into its words.
///
/// Trusted: calls `str::split_whitespace` of the standard library and
/// collects the pieces. The contract names the words, which depend on the
/// line alone.
#[verifier::external_body]
pub(crate) fn split_words(line: &str) -> (words: Vec<String>)
    ensures
        words.deep_view() == words_of(line@),
{
    line.split_whitespace().map(|w| w.to_string()).collect()
}

/// A command of the control socket.
#[derive(Debug)]
pub enum IpcCommand {
    Status,
    Peers,
    Tabs,
    /// Send a tab to a device.
    Send { device: String, url: String, title: Option<String> },
    /// Open a pending tab and acknowledge it.
    Open { tab_id: String },
    /// The line is no command; `reply` says why.
    Invalid { reply: String },
}

/// A command as plain data.
pub enum IpcCommandView {
    Status,
    Peers,
    Tabs,
    Send { device: Seq<char>, url: Seq<char>, title: Option<Seq<char>> },
    Open { tab_id: Seq<char> },
    Invalid { reply: Seq<char> },
}

impl View for IpcCommand {
    type V = IpcCommandView;

    open spec fn view(&self) -> IpcCommandView {
        match self {
            IpcCommand::Status => IpcCommandView::Status,
            IpcCommand::Peers => IpcCommandView::Peers,
            IpcCommand::Tabs => IpcCommandView::Tabs,
            IpcCommand::Send { device, url, title } => IpcCommandView::Send {
                device: device@,
                url: url@,
                title: title.deep_view(),
            },
            IpcCommand::Open { tab_id } => IpcCommandView::Open { tab_id: tab_id@ },
            IpcCommand::Invalid { reply } => IpcCommandView::Invalid { reply: reply@ },
        }
    }
}

/// The words joined by single spaces.
pub open spec fn joined_words(words: Seq<Seq<char>>) -> Seq<char>
    decreases words.len(),
{
    if words.len() == 0 {
        Seq::empty()
    } else if words.len() == 1 {
        words[0]
    } else {
        joined_words(words.drop_last()) + " "@ + words.last()
    }
}

/// The command that the words of a line stand for.
pub open spec fn command_of(words: Seq<Seq<char>>) -> IpcCommandView {
    if words.len() == 0 {
        IpcCommandView::Invalid { reply: "ERROR: Empty command"@ }
    } else if words[0] == "status"@ {
        IpcCommandView::Status
    } else if words[0] == "peers"@ {
        IpcCommandView::Peers
    } else if words[0] == "tabs"@ {
        IpcCommandView::Tabs
    } else if words[0] == "send"@ {
        if words.len() < 3 {
            IpcCommandView::Invalid { reply: "ERROR: Usage: send <device> <url> [title]"@ }
        } else {
            IpcCommandView::Send {
                device: words[1],
                url: words[2],
                title: if words.len() > 3 {
                    Some(joined_words(words.subrange(3, words.len() as int)))
                } else {
                    None
                },
            }
        }
    } else if words[0] == "open"@ {
        if words.len() < 2 {
            IpcCommandView::Invalid { reply: "ERROR: Usage: open <tab_id>"@ }
        } else {
            IpcCommandView::Open { tab_id: words[1] }
        }
    } else {
        IpcCommandView::Invalid { reply: "ERROR: Unknown command: "@ + words[0] }
    }
}

/// Joins the words from position `from` on by single spaces.
fn join_words(words: &[String], from: usize) -> (r: String)
    requires
        from <= words@.len(),
    ensures
        r@ == joined_words(words.deep_view().subrange(from as int, words@.len() as int)),
{
    let ghost all = words.deep_view().subrange(from as int, words@.len() as int);
    let mut out = String::new();
    let mut i: usize = from;
    proof {
        assert(all.subrange(0, 0) =~= Seq::<Seq<char>>::empty());
    }
    while i < words.len()
        invariant
            from <= i <= words.len(),
            all == words.deep_view().subrange(from as int, words@.len() as int),
            out@ == joined_words(all.subrange(0, i - from)),
        decreases words.len() - i,
    {
        let ghost before = out@;
        proof {
            assert(all.subrange(0, i - from + 1).drop_last() =~= all.subrange(0, i - from));
            assert(all.subrange(0, i - from + 1).last() == words[i as int]@);
            assert(all.subrange(0, i - from + 1)[0] == all[0]);
        }
        if i > from {
            out.append(" ");
        }
        out.append(words[i].as_str());
        proof {
            if i == from {
                assert(before =~= Seq::<char>::empty());
                assert(out@ =~= words[i as int]@);
            } else {
                assert(out@ =~= before + " "@ + words[i as int]@);
            }
        }
        i += 1;
    }
    proof {
        assert(all.subrange(0, words.len() - from) =~= all);
    }
    out
}

/// Reads a command from the words of a line.
pub fn command_of_words(words: &[String]) -> (cmd: IpcCommand)
    ensures
        cmd@ == command_of(words.deep_view()),
{
    if words.len() == 0 {
        return IpcCommand::Invalid { reply: "ERROR: Empty command".to_owned() };
    }
    let name = words[0].as_str();
    if str_eq(name, "status") {
        IpcCommand::Status
    } else if str_eq(name, "peers") {
        IpcCommand::Peers
    } else if str_eq(name, "tabs") {
        IpcCommand::Tabs
    } else if str_eq(name, "send") {
        if words.len() < 3 {
            IpcCommand::Invalid { reply: "ERROR: Usage: send <device> <url> [title]".to_owned() }
        } else {
            let title = if words.len() > 3 {
                Some(join_words(words, 3))
            } else {
                None
            };
            IpcCommand::Send { device: words[1].clone(), url: words[2].clone(), title }
        }
    } else if str_eq(name, "open") {
        if words.len() < 2 {
            IpcCommand::Invalid { reply: "ERROR: Usage: open <tab_id>".to_owned() }
        } else {
            IpcCommand::Open { tab_id: words[1].clone() }
        }
    } else {
        IpcCommand::Invalid { reply: join("ERROR: Unknown command: ", name) }
    }
}

/// Reads a command from a line of the control socket.
pub fn parse_command(line: &str) -> (cmd: IpcCommand)
    ensures
        cmd@ == command_of(words_of(line@)),
{
    let words = split_words(line);
    let cmd = command_of_words(words.as_slice());
    cmd
}

/// The reply to `status`.
pub fn reply_status(device_id: &str, peers: usize) -> (r: String)
    ensures
        r@ == "OK: Device "@ + device_id@ + " - "@ + decimal_digits(peers as nat)
            + " peers connected"@,
{
    let mut out = "OK: Device ".to_owned();
    out.append(device_id);
    out.append(" - ");
    out.append(u64_to_string(peers as u64).as_str());
    out.append(" peers connected");
    out
}

/// The line of one pending tab.
pub open spec fn tab_line(tab: PendingTabView) -> Seq<char> {
    tab.id + ": "@ + tab.url + " (from "@ + tab.from_device + ")"@
}

/// The lines of the pending tabs, each behind a line break.
pub open spec fn tab_lines(tabs: Seq<PendingTabView>) -> Seq<char>
    decreases tabs.len(),
{
    if tabs.len() == 0 {
        Seq::empty()
    } else {
        tab_lines(tabs.drop_last()) + "\n"@ + tab_line(tabs.last())
    }
}

/// The reply to `tabs`.
pub fn reply_tabs(tabs: &[PendingTab]) -> (r: String)
    ensures
        r@ == (if tabs@.len() == 0 {
            "OK: No pending tabs"@
        } else {
            "OK:"@ + tab_lines(tabs.deep_view())
        }),
{
    if tabs.len() == 0 {
        return "OK: No pending tabs".to_owned();
    }
    let ghost all = tabs.deep_view();
    let mut out = "OK:".to_owned();
    let mut i: usize = 0;
    proof {
        assert(all.subrange(0, 0) =~= Seq::<PendingTabView>::empty());
        assert("OK:"@ + Seq::<char>::empty() =~= "OK:"@);
    }
    while i < tabs.len()
        invariant
            i <= tabs.len(),
            all == tabs.deep_view(),
            out@ == "OK:"@ + tab_lines(all.subrange(0, i as int)),
        decreases tabs.len() - i,
    {
        let ghost before = out@;
        proof {
            assert(all.subrange(0, i + 1).drop_last() =~= all.subrange(0, i as int));
            assert(all.subrange(0, i + 1).last() == tabs[i as int]@);
        }
        out.append("\n");
        out.append(tabs[i].id.as_str());
        out.append(": ");
        out.append(tabs[i].url.as_str());
        out.append(" (from ");
        out.append(tabs[i].from_device.as_str());
        out.append(")");
        proof {
            assert(out@ =~= before + "\n"@ + tab_line(tabs[i as int]@));
            assert(out@ =~= "OK:"@ + tab_lines(all.subrange(0, i + 1)));
        }
        i += 1;
    }
    proof {
        assert(all.subrange(0, tabs.len() as int) =~= all);
    }
    out
}

/// The reply to a `send` that was queued.
pub fn reply_sent(device: &str) -> (r: String)
    ensures
        r@ == "OK: Tab queued for "@ + device@,
{
    join("OK: Tab queued for ", device)
}

/// The reply that reports an error.
pub fn reply_error(message: &str) -> (r: String)
    ensures
        r@ == "ERROR: "@ + message@,
{
    join("ERROR: ", message)
}

/// Finds the pending tab called `tab_id`.
pub fn find_tab<'a>(tabs: &'a [PendingTab], tab_id: &str) -> (r: Option<&'a PendingTab>)
    ensures
        match r {
            Some(tab) => tab@.id == tab_id@ && exists|i: int|
                0 <= i < tabs@.len() && #[trigger] tabs[i] == *tab && forall|j: int|
                    0 <= j < i ==> tabs[j]@.id != tab_id@,
            None => forall|i: int| 0 <= i < tabs@.len() ==> (#[trigger] tabs[i])@.id != tab_id@,
        },
{
    let mut i: usize = 0;
    while i < tabs.len()
        invariant
            i <= tabs.len(),
            forall|j: int| 0 <= j < i ==> (#[trigger] tabs[j])@.id != tab_id@,
        decreases tabs.len() - i,
    {
        if str_eq(tabs[i].id.as_str(), tab_id) {
            return Some(&tabs[i]);
        }
        i += 1;
    }
    None
}

} // verus!
