//! The background worker's decisions: which command runs next, what waits
//! while a look-up runs, and what each piece of work reports.
use vstd::prelude::*;

use crate::deck::{Cmd, Evt};
use crate::model::Item;
use crate::sync::SyncStats;
use crate::thread::Event;

verus! {

/// The commands that arrived while a look-up ran, oldest first.
pub struct Backlog {
    pub waiting: Vec<Cmd>,
}

impl Backlog {
    /// Nothing waiting.
    pub fn new() -> (r: Backlog)
        ensures
            r.waiting@.len() == 0,
    {
        Backlog { waiting: Vec::new() }
    }

    /// The command to run next from the backlog: the oldest waiting, if any.
    pub fn take_oldest(&mut self) -> (r: Option<Cmd>)
        ensures
            old(self).waiting@.len() == 0 ==> (r is None && final(self).waiting@ == old(self).waiting@),
            old(self).waiting@.len() > 0 ==> (r == Some(old(self).waiting@[0]) && final(self).waiting@
                == old(self).waiting@.drop_first()),
    {
        if self.waiting.len() == 0 {
            None
        } else {
            Some(self.waiting.remove(0))
        }
    }

    /// A command that arrives while a look-up runs: a conversation is
    /// handed back to be loaded at once; anything else waits its turn.
    pub fn sort_in(&mut self, c: Cmd) -> (r: Option<Cmd>)
        ensures
            c is Thread ==> (r == Some(c) && final(self).waiting@ == old(self).waiting@),
            !(c is Thread) ==> (r is None && final(self).waiting@ == old(self).waiting@.push(c)),
    {
        match c {
            Cmd::Thread { .. } => Some(c),
            _ => {
                self.waiting.push(c);
                None
            },
        }
    }
}

/// Whether the look-up with `ticket` is still the one wanted.
pub fn live(latest: u64, ticket: u64) -> (r: bool)
    ensures
        r == (latest == ticket),
{
    latest == ticket
}

/// What comes after a sync or poll.
pub enum AfterSync {
    /// Report this.
    Report(Evt),
    /// The sync ran: read the list from the cache, then report it.
    LoadItems(SyncStats),
}

/// After a sync or poll: a skipped one is quiet, a failed one reports its
/// error, and after one that ran, the list is read.
pub fn after_sync(res: Result<SyncStats, String>) -> (r: AfterSync)
    ensures
        match res {
            Ok(st) => if st.skipped {
                r matches AfterSync::Report(Evt::Quiet)
            } else {
                r matches AfterSync::LoadItems(s) && s == st
            },
            Err(e) => r matches AfterSync::Report(Evt::Failed(m)) && m == e,
        },
{
    match res {
        Ok(st) => if st.skipped {
            AfterSync::Report(Evt::Quiet)
        } else {
            AfterSync::LoadItems(st)
        },
        Err(e) => AfterSync::Report(Evt::Failed(e)),
    }
}

/// The report of a sync once the list is read: the list, with the login
/// where it could be read (else empty), or the error of the read.
pub fn synced(stats: SyncStats, items: Result<Vec<Item>, String>, login: Option<String>) -> (r: Evt)
    ensures
        match items {
            Ok(v) => r matches Evt::Synced { stats: s, items: w, login: l } && s == stats && w == v
                && l@ == match login {
                Some(x) => x@,
                None => Seq::<char>::empty(),
            },
            Err(e) => r matches Evt::Failed(m) && m == e,
        },
{
    match items {
        Ok(v) => {
            let l = match login {
                Some(x) => x,
                None => String::new(),
            };
            Evt::Synced { stats, items: v, login: l }
        },
        Err(e) => Evt::Failed(e),
    }
}

/// The report of loading the conversation at `url`.
pub fn load_thread(url: String, res: Result<Vec<Event>, String>) -> (r: Evt)
    ensures
        match res {
            Ok(v) => r matches Evt::Thread { url: u, events } && u == url && events == v,
            Err(e) => r matches Evt::Failed(m) && m == e,
        },
{
    match res {
        Ok(events) => Evt::Thread { url, events },
        Err(e) => Evt::Failed(e),
    }
}

} // verus!
