//! The pseudo-terminal and the child behind it.

use crate::app_log::LogLevel;
use crate::attach;
use crate::report;
use crate::report::{detail_of, Report};
use crate::session;
use crate::session::Session;
use crate::text;
use vstd::prelude::*;
use vstd::string::*;

verus! {

/// A pseudo-terminal master fd and the PID of the child process.
#[derive(Clone, Copy, Debug, PartialEq, Eq, Structural)]
pub struct Pty {
    pub fd: i32,
    pub pid: i32,
}

/// Which process goes on after a fork into a new pseudo-terminal.
#[derive(Debug)]
pub enum Forked {
    /// There was no fork, for this reason.
    Failed(String),
    /// This is the child.
    Child,
    /// This is the parent.
    Parent(Pty),
}

/// The status with which the child leaves when its command cannot be executed.
pub const EXEC_FAILED: i32 = 127;

/// The value of the session variable inside a session: the sockets of the
/// sessions around it, outermost first, and its own at the end.
pub open spec fn session_chain(prev: Option<Seq<char>>, sockname: Seq<char>) -> Seq<char> {
    match prev {
        Some(p) if p.len() > 0 => p + ":"@ + sockname,
        _ => sockname,
    }
}

impl Pty {
    /// Tell the processes apart after `forkpty` returned `ret` and the master
    /// fd `master`.
    pub fn new(ret: i32, master: i32) -> (r: Forked)
        ensures
            ret < 0 ==> (r matches Forked::Failed(msg) && msg@ == "Could not find a pty."@),
            ret == 0 ==> r is Child,
            ret > 0 ==> r == Forked::Parent(Pty { fd: master, pid: ret }),
    {
        if ret < 0 {
            Forked::Failed("Could not find a pty.".to_owned())
        } else if ret == 0 {
            Forked::Child
        } else {
            Forked::Parent(Pty { fd: master, pid: ret })
        }
    }

    /// The process group that signals for the child go to, as `kill` takes it.
    pub fn group(&self) -> (r: i32)
        requires
            self.pid > 0,
        ensures
            r == -self.pid,
    {
        -self.pid
    }
}

impl Session {
    /// The value of the session variable for the child, where the variable was
    /// `prev` before.
    pub fn chain(&self, prev: Option<&str>) -> (r: String)
        ensures
            r@ == session_chain(session::str_text(prev), self.sockname@),
    {
        match prev {
            Some(p) => {
                if !p.is_empty() {
                    let mut r: String = p.to_owned();
                    r.append(":");
                    r.append(self.sockname.as_str());
                    return r;
                }
            },
            None => {},
        }
        self.sockname.as_str().to_owned()
    }

    /// The report of the child when it could not execute `command` for the
    /// reason `text`.
    pub fn exec_failed(&self, command: &str, text: &str) -> (r: Report)
        ensures
            r@ == report::ReportView::printed(
                self.progname@,
                LogLevel::Error,
                report::detail("could not execute "@ + command@, text@),
            ),
    {
        let mut what: String = "could not execute ".to_owned();
        what.append(command);
        Report::printed(
            self.progname.as_str(),
            LogLevel::Error,
            detail_of(what.as_str(), text),
        )
    }
}

/// Inside a session, the session variable ends in its socket, it names that of
/// each session around it as before, and it says that the process runs inside
/// all of these.
pub proof fn chain_names_the_session(
    prev: Option<Seq<char>>,
    sockname: Seq<char>,
    outer: Seq<char>,
)
    requires
        sockname.len() > 0,
        !sockname.contains(':'),
    ensures
        text::last_piece(session_chain(prev, sockname), ':') == sockname,
        attach::inside(session_chain(prev, sockname), sockname),
        prev matches Some(p) && attach::inside(p, outer) ==> attach::inside(
            session_chain(prev, sockname),
            outer,
        ),
{
    let chain = session_chain(prev, sockname);
    reveal_strlit(":");
    let cut = chain.len() - sockname.len();
    assert(chain.skip(cut) =~= sockname);
    assert forall|i: int| cut <= i < chain.len() implies chain[i] != ':' by {
        assert(chain[i] == sockname[i - cut]);
        assert(sockname.contains(sockname[i - cut]));
    }
    assert(chain.take(chain.len() as int) =~= chain);
    if cut > 0 {
        text::last_piece_starts_at(chain, ':', cut, chain.len() as int);
    } else {
        text::whole_text_is_last_piece(sockname, ':');
    }
    assert(text::is_piece(chain, ':', cut, chain.len() as int));
    assert(chain.subrange(cut, chain.len() as int) =~= sockname);
    if let Some(p) = prev {
        if attach::inside(p, outer) {
            let (i, j) = choose|i: int, j: int| #[trigger]
                text::is_piece(p, ':', i, j) && p.subrange(i, j) == outer;
            assert forall|k: int| 0 <= k < p.len() implies chain[k] == p[k] by {}
            assert(text::is_piece(chain, ':', i, j));
            assert(chain.subrange(i, j) =~= outer);
        }
    }
}

} // verus!
