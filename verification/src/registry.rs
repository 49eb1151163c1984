//! Who is reachable, and what waits for those who are not.
//!
//! The registry is the relay's shared state. Its two operations, logging a
//! user in and routing a message, each take the registry as a whole, so that
//! a caller who guards it with one lock gets both as atomic steps.
//!
//! A user who has connected once counts as reachable from then on: nothing
//! here takes a user out of the registry again, whatever becomes of the
//! user's connections.

use vstd::prelude::*;
use crate::request::{Message, MessageView};

verus! {

/// The views of a sequence of messages, in the same order.
pub open spec fn views(messages: Seq<Message>) -> Seq<MessageView> {
    messages.map_values(|message: Message| message@)
}

/// What a registry is, as mathematics: the set of reachable usernames, and
/// for each username that has messages waiting the queue of them, oldest
/// first.
pub struct Directory {
    pub reachable: Set<Seq<char>>,
    pub pending: Map<Seq<char>, Seq<MessageView>>,
}

impl Directory {
    /// The directory of a relay that has seen nobody yet.
    pub open spec fn empty() -> Directory {
        Directory { reachable: Set::empty(), pending: Map::empty() }
    }

    /// The messages that wait for `name`, oldest first.
    pub open spec fn queue(self, name: Seq<char>) -> Seq<MessageView> {
        if self.pending.dom().contains(name) {
            self.pending[name]
        } else {
            Seq::empty()
        }
    }

    /// What holds of every directory that a registry reaches: a queue is
    /// kept only while it holds something, only for a user who is not
    /// reachable, and holds only messages to that user.
    pub open spec fn well_formed(self) -> bool {
        forall|name: Seq<char>| #[trigger]
            self.pending.dom().contains(name) ==> {
                &&& !self.reachable.contains(name)
                &&& self.pending[name].len() > 0
                &&& forall|k: int|
                    0 <= k < self.pending[name].len() ==> (#[trigger] self.pending[name][k]).to
                        == name
            }
    }

    /// The directory after `name` has connected: `name` is reachable and
    /// nothing waits for it; a user who was reachable already changes nothing.
    pub open spec fn login(self, name: Seq<char>) -> Directory {
        if self.reachable.contains(name) {
            self
        } else {
            Directory {
                reachable: self.reachable.insert(name),
                pending: self.pending.remove(name),
            }
        }
    }

    /// The messages that the connecting of `name` sets free, oldest first:
    /// its queue where `name` was not reachable, nothing where it was.
    pub open spec fn released(self, name: Seq<char>) -> Seq<MessageView> {
        if self.reachable.contains(name) {
            Seq::empty()
        } else {
            self.queue(name)
        }
    }

    /// Whether `message` goes out at once: its recipient is reachable.
    pub open spec fn publishes(self, message: MessageView) -> bool {
        self.reachable.contains(message.to)
    }

    /// The directory after `message` has been routed: unchanged where the
    /// recipient is reachable, else with the message at the end of the
    /// recipient's queue.
    pub open spec fn route(self, message: MessageView) -> Directory {
        if self.publishes(message) {
            self
        } else {
            Directory {
                reachable: self.reachable,
                pending: self.pending.insert(message.to, self.queue(message.to).push(message)),
            }
        }
    }
}

/// What becomes of a routed message.
#[derive(Debug)]
pub enum Routing {
    /// The recipient is reachable: the message is to be published now.
    Publish(Message),
    /// The recipient is not reachable: the registry holds the message.
    Queued,
}

/// Whether `name` is one of `users`.
spec fn listed(users: Seq<String>, name: Seq<char>) -> bool {
    exists|i: int| 0 <= i < users.len() && (#[trigger] users[i])@ == name
}

/// Whether `waiting` has a queue for `name`.
spec fn keyed(waiting: Seq<(String, Vec<Message>)>, name: Seq<char>) -> bool {
    exists|i: int| 0 <= i < waiting.len() && (#[trigger] waiting[i]).0@ == name
}

/// Where in `waiting` the queue for `name` stands.
spec fn slot(waiting: Seq<(String, Vec<Message>)>, name: Seq<char>) -> int {
    choose|i: int| 0 <= i < waiting.len() && (#[trigger] waiting[i]).0@ == name
}

/// No two queues of `waiting` are for the same user.
spec fn distinct_keys(waiting: Seq<(String, Vec<Message>)>) -> bool {
    forall|i: int, j: int|
        0 <= i < j < waiting.len() ==> (#[trigger] waiting[i]).0@ != (#[trigger] waiting[j]).0@
}

/// The directory that two lists stand for.
spec fn directory_of(
    users: Seq<String>,
    waiting: Seq<(String, Vec<Message>)>,
) -> Directory {
    Directory {
        reachable: Set::new(|name: Seq<char>| listed(users, name)),
        pending: Map::new(
            |name: Seq<char>| keyed(waiting, name),
            |name: Seq<char>| views(waiting[slot(waiting, name)].1@),
        ),
    }
}

/// With distinct keys, the queue found for a user is the one that carries
/// the user's name.
proof fn lemma_slot(waiting: Seq<(String, Vec<Message>)>, at: int)
    requires
        distinct_keys(waiting),
        0 <= at < waiting.len(),
    ensures
        keyed(waiting, waiting[at].0@),
        slot(waiting, waiting[at].0@) == at,
{
    let name = waiting[at].0@;
    let found = slot(waiting, name);
    if found < at {
    } else if at < found {
    }
}

/// The reachable users and the pending queues of a relay.
pub struct Registry {
    login_user: Vec<String>,
    waiting_list: Vec<(String, Vec<Message>)>,
}

impl View for Registry {
    type V = Directory;

    closed spec fn view(&self) -> Directory {
        directory_of(self.login_user@, self.waiting_list@)
    }
}

impl Registry {
    /// The registry's invariant: no user is listed twice, no user has two
    /// queues, and every queue is non-empty, for a user who is not reachable,
    /// and of messages to that user.
    pub closed spec fn wf(&self) -> bool {
        &&& forall|i: int, j: int|
            0 <= i < j < self.login_user@.len() ==> (#[trigger] self.login_user@[i])@ != (
            #[trigger] self.login_user@[j])@
        &&& distinct_keys(self.waiting_list@)
        &&& forall|i: int|
            0 <= i < self.waiting_list@.len() ==> {
                &&& (#[trigger] self.waiting_list@[i]).1@.len() > 0
                &&& !listed(self.login_user@, self.waiting_list@[i].0@)
                &&& forall|k: int|
                    0 <= k < self.waiting_list@[i].1@.len() ==> (
                    #[trigger] self.waiting_list@[i].1@[k]).to@ == self.waiting_list@[i].0@
            }
    }

    /// A registry in good order stands for a directory in good order.
    pub proof fn lemma_well_formed(&self)
        requires
            self.wf(),
        ensures
            self@.well_formed(),
    {
        let waiting = self.waiting_list@;
        assert forall|name: Seq<char>| #[trigger]
            self@.pending.dom().contains(name) implies {
            &&& !self@.reachable.contains(name)
            &&& self@.pending[name].len() > 0
            &&& forall|k: int|
                0 <= k < self@.pending[name].len() ==> (#[trigger] self@.pending[name][k]).to
                    == name
        } by {
            let at = slot(waiting, name);
            assert forall|k: int| 0 <= k < self@.pending[name].len() implies (
            #[trigger] self@.pending[name][k]).to == name by {
            }
        }
    }

    /// A registry with nobody reachable and nothing waiting.
    pub fn new() -> (registry: Self)
        ensures
            registry.wf(),
            registry@ == Directory::empty(),
            registry@.well_formed(),
    {
        let registry = Registry { login_user: Vec::new(), waiting_list: Vec::new() };
        assert(registry@.reachable =~= Set::empty());
        assert(registry@.pending =~= Map::empty());
        registry
    }

    /// Whether `username` is reachable.
    pub fn is_login(&self, username: &str) -> (reachable: bool)
        ensures
            reachable == self@.reachable.contains(username@),
    {
        let wanted = username.to_owned();
        let mut i: usize = 0;
        while i < self.login_user.len()
            invariant
                i <= self.login_user.len(),
                wanted@ == username@,
                forall|j: int| 0 <= j < i ==> (#[trigger] self.login_user@[j])@ != username@,
            decreases self.login_user.len() - i,
        {
            if self.login_user[i] == wanted {
                return true;
            }
            i += 1;
        }
        false
    }

    /// Where the queue for `name` stands, if there is one.
    fn position(&self, name: &String) -> (found: Option<usize>)
        ensures
            match found {
                Some(at) => at < self.waiting_list@.len() && self.waiting_list@[at as int].0@
                    == name@,
                None => !keyed(self.waiting_list@, name@),
            },
    {
        let mut i: usize = 0;
        while i < self.waiting_list.len()
            invariant
                i <= self.waiting_list.len(),
                forall|j: int| 0 <= j < i ==> (#[trigger] self.waiting_list@[j]).0@ != name@,
            decreases self.waiting_list.len() - i,
        {
            if self.waiting_list[i].0 == *name {
                return Some(i);
            }
            i += 1;
        }
        None
    }

    /// Makes `username` reachable and hands out what waited for it.
    ///
    /// Where `username` was not reachable it now is, its queue is taken out
    /// of the registry and returned whole, oldest message first. Where it was
    /// reachable already nothing changes and nothing is returned. No other
    /// user's queue is touched either way.
    pub fn login_user(&mut self, username: String) -> (released: Vec<Message>)
        requires
            old(self).wf(),
        ensures
            final(self).wf(),
            final(self)@.well_formed(),
            final(self)@ == old(self)@.login(username@),
            views(released@) == old(self)@.released(username@),
    {
        if self.is_login(username.as_str()) {
            let released: Vec<Message> = Vec::new();
            proof {
                self.lemma_well_formed();
            }
            return released;
        }
        let ghost users = self.login_user@;
        let ghost waiting = self.waiting_list@;
        let ghost name = username@;
        let found = self.position(&username);
        self.login_user.push(username);
        let released = match found {
            Some(at) => {
                proof {
                    lemma_slot(waiting, at as int);
                }
                let (_, queue) = self.waiting_list.remove(at);
                queue
            },
            None => Vec::new(),
        };
        proof {
            let users_after = self.login_user@;
            let waiting_after = self.waiting_list@;
            // every queue that stays is a queue that was, for somebody else
            assert forall|j: int| 0 <= j < waiting_after.len() implies exists|i: int|
                0 <= i < waiting.len() && waiting[i] == #[trigger] waiting_after[j]
                    && waiting[i].0@ != name by {
                let i = if found matches Some(at) && j >= at { j + 1 } else { j };
                assert(waiting[i] == waiting_after[j]);
            }
            // the users are those that were, and the newcomer
            assert forall|n: Seq<char>| listed(users_after, n) <==> (listed(users, n) || n
                == name) by {
                if listed(users, n) {
                    let i = choose|i: int| 0 <= i < users.len() && (#[trigger] users[i])@ == n;
                    assert(users_after[i]@ == n);
                }
                if n == name {
                    assert(users_after[users.len() as int]@ == n);
                }
            }
            // the queues are those that were, but the newcomer's
            assert forall|n: Seq<char>| keyed(waiting_after, n) <==> (keyed(waiting, n) && n
                != name) by {
                if keyed(waiting, n) && n != name {
                    let i = choose|i: int|
                        0 <= i < waiting.len() && (#[trigger] waiting[i]).0@ == n;
                    let j = if found matches Some(at) && i > at { i - 1 } else { i };
                    assert(waiting_after[j] == waiting[i]);
                }
            }
            assert forall|n: Seq<char>| keyed(waiting_after, n) implies views(
                waiting_after[slot(waiting_after, n)].1@,
            ) == views(waiting[slot(waiting, n)].1@) by {
                let j = slot(waiting_after, n);
                let i = choose|i: int|
                    0 <= i < waiting.len() && waiting[i] == #[trigger] waiting_after[j]
                        && waiting[i].0@ != name;
                lemma_slot(waiting, i);
            }
            assert(self@.reachable =~= old(self)@.login(name).reachable);
            assert(self@.pending =~= old(self)@.login(name).pending);
            self.lemma_well_formed();
        }
        released
    }

    /// Routes one message: to the bus where its recipient is reachable, else
    /// to the end of the recipient's queue, which is made if there is none.
    pub fn route(&mut self, message: Message) -> (routing: Routing)
        requires
            old(self).wf(),
        ensures
            final(self).wf(),
            final(self)@.well_formed(),
            final(self)@ == old(self)@.route(message@),
            routing == (if old(self)@.publishes(message@) {
                Routing::Publish(message)
            } else {
                Routing::Queued
            }),
    {
        if self.is_login(message.to.as_str()) {
            proof {
                self.lemma_well_formed();
            }
            return Routing::Publish(message);
        }
        let ghost waiting = self.waiting_list@;
        let ghost name = message.to@;
        let ghost queue_before = old(self)@.queue(name);
        let found = self.position(&message.to);
        match found {
            Some(at) => {
                proof {
                    lemma_slot(waiting, at as int);
                }
                let (owner, mut queue) = self.waiting_list.remove(at);
                queue.push(message);
                self.waiting_list.insert(at, (owner, queue));
            },
            None => {
                let owner = message.to.clone();
                let mut queue: Vec<Message> = Vec::new();
                queue.push(message);
                self.waiting_list.push((owner, queue));
            },
        }
        proof {
            let waiting_after = self.waiting_list@;
            // the recipient's queue stands where it stood, or at the end
            let at: int = match found {
                Some(at) => at as int,
                None => waiting_after.len() - 1,
            };
            assert(waiting_after[at].0@ == name);
            // every other queue is as it was
            assert forall|i: int| 0 <= i < waiting.len() && i != at implies waiting_after[i]
                == #[trigger] waiting[i] by {}
            assert forall|n: Seq<char>| keyed(waiting_after, n) <==> (keyed(waiting, n) || n
                == name) by {}
            assert forall|n: Seq<char>| keyed(waiting_after, n) implies views(
                waiting_after[slot(waiting_after, n)].1@,
            ) == (if n == name {
                queue_before.push(message@)
            } else {
                views(waiting[slot(waiting, n)].1@)
            }) by {
                let j = slot(waiting_after, n);
                lemma_slot(waiting_after, j);
                if n == name {
                    lemma_slot(waiting_after, at);
                } else {
                    lemma_slot(waiting, j);
                }
            }
            assert(self@.pending =~= old(self)@.route(message@).pending);
            self.lemma_well_formed();
        }
        Routing::Queued
    }
}

} // verus!
