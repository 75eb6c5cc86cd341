//! Which clients a game server lets in.
use crate::text;
use crate::text_laws;
use std::collections::HashSet;
use vstd::prelude::*;

verus! {

broadcast use vstd::std_specs::hash::group_hash_axioms;

/// Who asks to connect.
#[derive(Debug, Clone, Copy, PartialEq, Eq)]
pub enum Peer {
    /// A client with this netcode id.
    Netcode(u64),
    /// Anyone else.
    Other,
}

/// Why a connection is refused.
#[derive(Debug, Clone, Copy, PartialEq, Eq)]
pub enum DeniedReason {
    InvalidToken,
}

/// What was done to an entry of the mapping from client ids to sessions.
#[derive(Debug, Clone, Copy, PartialEq, Eq)]
pub enum Operation {
    Put,
    Delete,
    Purge,
}

/// Only lets in clients whose id is associated with a session.
#[derive(Debug)]
pub struct BevygapConnectionRequestHandler {
    valid_client_ids: HashSet<u64>,
}

impl View for BevygapConnectionRequestHandler {
    type V = Set<u64>;

    closed spec fn view(&self) -> Set<u64> {
        self.valid_client_ids@
    }
}

/// The client id that a key reads as.
pub open spec fn id_of(key: Seq<char>) -> Option<u64> {
    match text::parsed_unsigned(key, u64::MAX as nat) {
        Some(n) => Some(n as u64),
        None => None,
    }
}

/// The ids that are let in after an operation on a key. A key that is no client id changes nothing.
pub open spec fn admitted(ids: Set<u64>, key: Seq<char>, operation: Operation) -> Set<u64> {
    match (id_of(key), operation) {
        (Some(id), Operation::Put) => ids.insert(id),
        (Some(id), _) => ids.remove(id),
        (None, _) => ids,
    }
}

/// A client is let in where its id is among `ids`, and no one else is.
pub open spec fn denied(ids: Set<u64>, peer: Peer) -> Option<DeniedReason> {
    if peer matches Peer::Netcode(id) && ids.contains(id) {
        None
    } else {
        Some(DeniedReason::InvalidToken)
    }
}

/// The client id that `key` reads as.
pub fn client_id_of(key: &str) -> (r: Option<u64>)
    ensures
        r == id_of(key@),
{
    text::parse_u64(key)
}

impl BevygapConnectionRequestHandler {
    /// Lets in `valid_client_ids`.
    pub fn new(valid_client_ids: HashSet<u64>) -> (r: Self)
        ensures
            r@ == valid_client_ids@,
    {
        BevygapConnectionRequestHandler { valid_client_ids }
    }

    /// Follows an operation on the mapping from client ids to sessions. Says whether the key is a
    /// client id: one that is not changes nothing.
    pub fn apply(&mut self, key: &str, operation: Operation) -> (r: bool)
        ensures
            final(self)@ == admitted(old(self)@, key@, operation),
            r == (id_of(key@) is Some),
    {
        match client_id_of(key) {
            Some(client_id) => {
                match operation {
                    Operation::Put => {
                        self.valid_client_ids.insert(client_id);
                    },
                    Operation::Delete => {
                        self.valid_client_ids.remove(&client_id);
                    },
                    Operation::Purge => {
                        self.valid_client_ids.remove(&client_id);
                    },
                }
                true
            },
            None => false,
        }
    }

    /// Whether to refuse a connection, and why.
    pub fn handle_request(&self, peer: Peer) -> (r: Option<DeniedReason>)
        ensures
            r == denied(self@, peer),
    {
        match peer {
            Peer::Netcode(client_id) => {
                if self.valid_client_ids.contains(&client_id) {
                    None
                } else {
                    Some(DeniedReason::InvalidToken)
                }
            },
            Peer::Other => Some(DeniedReason::InvalidToken),
        }
    }

    /// Whether to refuse a connection, and why. No one is let in while the ids cannot be read.
    pub fn decide(handler: Option<&Self>, peer: Peer) -> (r: Option<DeniedReason>)
        ensures
            r == (match handler {
                Some(readable) => denied(readable@, peer),
                None => Some(DeniedReason::InvalidToken),
            }),
    {
        match handler {
            Some(readable) => readable.handle_request(peer),
            None => Some(DeniedReason::InvalidToken),
        }
    }
}

// ---------------------------------------------------------------------------
// Watching
// ---------------------------------------------------------------------------

/// How long to wait before the mapping is watched anew, in seconds.
pub const RETRY_DELAY_SECS: u64 = 1;

/// What came of watching the mapping from client ids to sessions.
#[derive(Debug)]
pub enum WatchNews {
    /// It could not be watched.
    Refused,
    /// It is watched now.
    Opened,
    /// An entry could not be read.
    Failed,
    /// Something was done to an entry.
    Entry { key: String, operation: Operation },
    /// It is no longer watched.
    Ended,
}

/// What to do next about the mapping.
#[derive(Debug, Clone, Copy, PartialEq, Eq)]
pub enum WatchStep {
    /// Wait for the next entry.
    Read,
    /// Wait, and watch anew.
    Restart,
}

/// What is done next. `writable` says whether the ids can be changed: where an entry needs that and
/// they cannot, the mapping is watched anew.
pub open spec fn watched(news: WatchNews, writable: bool) -> WatchStep {
    match news {
        WatchNews::Refused | WatchNews::Ended => WatchStep::Restart,
        WatchNews::Opened | WatchNews::Failed => WatchStep::Read,
        WatchNews::Entry { key, .. } => if id_of(key@) is Some && !writable {
            WatchStep::Restart
        } else {
            WatchStep::Read
        },
    }
}

/// The ids that are let in after news of the mapping. Only an entry changes them.
pub open spec fn followed(ids: Set<u64>, news: WatchNews) -> Set<u64> {
    match news {
        WatchNews::Entry { key, operation } => admitted(ids, key@, operation),
        _ => ids,
    }
}

impl BevygapConnectionRequestHandler {
    /// Follows news of the mapping, and says what to do next.
    pub fn follow(&mut self, news: &WatchNews) -> (r: WatchStep)
        ensures
            final(self)@ == followed(old(self)@, *news),
            r == watched(*news, true),
    {
        match news {
            WatchNews::Refused => WatchStep::Restart,
            WatchNews::Opened => WatchStep::Read,
            WatchNews::Failed => WatchStep::Read,
            WatchNews::Entry { key, operation } => {
                self.apply(key.as_str(), *operation);
                WatchStep::Read
            },
            WatchNews::Ended => WatchStep::Restart,
        }
    }

    /// What to do next about news of the mapping while the ids cannot be changed.
    pub fn follow_unwritable(news: &WatchNews) -> (r: WatchStep)
        ensures
            r == watched(*news, false),
    {
        match news {
            WatchNews::Refused => WatchStep::Restart,
            WatchNews::Opened => WatchStep::Read,
            WatchNews::Failed => WatchStep::Read,
            WatchNews::Entry { key, .. } => match client_id_of(key.as_str()) {
                Some(_) => WatchStep::Restart,
                None => WatchStep::Read,
            },
            WatchNews::Ended => WatchStep::Restart,
        }
    }
}

// ---------------------------------------------------------------------------
// Laws
// ---------------------------------------------------------------------------

/// The ids that are let in after `operations`, where those in `start` were let in before.
pub open spec fn admitted_after(
    start: Set<u64>,
    operations: Seq<(Seq<char>, Operation)>,
) -> Set<u64>
    decreases operations.len(),
{
    if operations.len() == 0 {
        start
    } else {
        let before = admitted_after(start, operations.drop_last());
        admitted(before, operations.last().0, operations.last().1)
    }
}

/// The last of `operations` on a key that reads as `id`.
pub open spec fn last_on(operations: Seq<(Seq<char>, Operation)>, id: u64) -> Option<Operation>
    decreases operations.len(),
{
    if operations.len() == 0 {
        None
    } else if id_of(operations.last().0) == Some(id) {
        Some(operations.last().1)
    } else {
        last_on(operations.drop_last(), id)
    }
}

/// A client is let in exactly where its id was last put, and not deleted since; or where nothing was
/// done to its id, and it was let in from the start.
pub proof fn law_admitted_while_mapped(
    start: Set<u64>,
    operations: Seq<(Seq<char>, Operation)>,
    id: u64,
)
    ensures
        denied(admitted_after(start, operations), Peer::Netcode(id)) is None <==> (match last_on(
            operations,
            id,
        ) {
            Some(operation) => operation == Operation::Put,
            None => start.contains(id),
        }),
    decreases operations.len(),
{
    if operations.len() > 0 {
        law_admitted_while_mapped(start, operations.drop_last(), id);
    }
}

/// The ids that are let in after `news`, where those in `start` were let in before.
pub open spec fn followed_after(start: Set<u64>, news: Seq<WatchNews>) -> Set<u64>
    decreases news.len(),
{
    if news.len() == 0 {
        start
    } else {
        followed(followed_after(start, news.drop_last()), news.last())
    }
}

/// The operations that `news` tells of.
pub open spec fn operations_in(news: Seq<WatchNews>) -> Seq<(Seq<char>, Operation)>
    decreases news.len(),
{
    if news.len() == 0 {
        Seq::empty()
    } else {
        let before = operations_in(news.drop_last());
        match news.last() {
            WatchNews::Entry { key, operation } => before.push((key@, operation)),
            _ => before,
        }
    }
}

/// However often the watch fails and starts anew, the ids that are let in are those that the
/// operations it told of leave.
pub proof fn law_watch_follows_the_mapping(start: Set<u64>, news: Seq<WatchNews>)
    ensures
        followed_after(start, news) == admitted_after(start, operations_in(news)),
    decreases news.len(),
{
    if news.len() > 0 {
        let earlier = news.drop_last();
        law_watch_follows_the_mapping(start, earlier);
        if let WatchNews::Entry { key, operation } = news.last() {
            let before = operations_in(earlier);
            assert(before.push((key@, operation)).drop_last() == before);
        }
    }
}

/// The watch goes on after an entry that cannot be read or is no client id, and is started anew
/// whenever it ends, cannot be opened, or has an id that cannot be taken in.
pub proof fn law_watch_goes_on(news: WatchNews, writable: bool)
    ensures
        watched(news, writable) == WatchStep::Restart <==> {
            ||| news is Refused
            ||| news is Ended
            ||| news matches WatchNews::Entry { key, .. } && id_of(key@) is Some && !writable
        },
{
}

/// No one but a netcode client is ever let in.
pub proof fn law_others_are_denied(ids: Set<u64>)
    ensures
        denied(ids, Peer::Other) == Some(DeniedReason::InvalidToken),
{
}

/// A client whose id is stored in decimal, as it is for a session, is let in from there on, and no
/// longer once the entry is gone; for other clients nothing changes.
pub proof fn law_stored_clients_are_admitted(ids: Set<u64>, id: u64, other: u64)
    requires
        other != id,
    ensures
        ({
            let key = text::decimal(id as nat);
            let after = admitted(ids, key, Operation::Put);
            &&& denied(after, Peer::Netcode(id)) is None
            &&& denied(admitted(after, key, Operation::Delete), Peer::Netcode(id)) is Some
            &&& denied(admitted(after, key, Operation::Purge), Peer::Netcode(id)) is Some
            &&& denied(after, Peer::Netcode(other)) == denied(ids, Peer::Netcode(other))
        }),
{
    text::law_decimal_reads_back(id as nat, u64::MAX as nat);
}

/// A client is let in exactly where its very id is among those that are.
pub proof fn law_let_in_by_id_alone(ids: Set<u64>, id: u64)
    ensures
        ids.contains(id) ==> denied(ids, Peer::Netcode(id)) is None,
        !ids.contains(id) ==> denied(ids, Peer::Netcode(id)) == Some(DeniedReason::InvalidToken),
{
}

/// An entry whose key is digits, with or without a `+` before them, lets in the client with the value
/// of the digits where it was put, and keeps it out where it was deleted or purged. It changes nothing
/// for another client, and nothing at all where the value is out of range.
pub proof fn law_entry_changes_its_client(
    ids: Set<u64>,
    digits: Seq<char>,
    signed: bool,
    operation: Operation,
    id: u64,
)
    requires
        digits.len() > 0,
        forall|i: int| 0 <= i < digits.len() ==> '0' <= #[trigger] digits[i] <= '9',
    ensures
        ({
            let key = if signed {
                seq!['+'] + digits
            } else {
                digits
            };
            let after = admitted(ids, key, operation);
            let n = text::digits_value(digits);
            &&& n == id ==> (after.contains(id) <==> operation == Operation::Put)
            &&& n != id ==> (after.contains(id) <==> ids.contains(id))
            &&& id_of(key) is Some <==> n <= u64::MAX
            &&& n <= u64::MAX ==> id_of(key) == Some(n as u64)
        }),
{
    text_laws::law_unsigned_numbers(digits, u64::MAX as nat);
}

/// An entry whose key holds anything else changes nothing.
pub proof fn law_other_entries_change_nothing(
    ids: Set<u64>,
    key: Seq<char>,
    operation: Operation,
    i: int,
)
    requires
        key.len() == 0 || (0 <= i < key.len() && !('0' <= key[i] <= '9') && (i > 0 || key[i] != '+'
            || key.len() == 1)),
    ensures
        admitted(ids, key, operation) == ids,
        id_of(key) is None,
{
    text_laws::law_other_texts_are_no_numbers(key, u64::MAX as nat, i);
}

} // verus!
