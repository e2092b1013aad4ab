//! The backend as the engine sees it: the commands that the engine issues,
//! and a model of what a key-value backend with strings and sets does with
//! them. The engine never talks to the backend itself; the model is what its
//! contracts and laws are stated over.

use vstd::prelude::*;
use vstd::utf8::encode_utf8;

verus! {

/// What the backend holds under one key.
pub enum Entry {
    /// A string value.
    Text(Seq<char>),
    /// A set of members. The backend never keeps an empty set.
    Members(Set<Seq<char>>),
}

/// The contents of the backend: what it holds under each key that exists.
pub type Database = Map<Seq<char>, Entry>;

/// A command to the backend.
pub enum Command {
    /// Store `value` under `key`, replacing whatever was there.
    Store { key: Seq<char>, value: Seq<char> },
    /// Add `member` to the set under `key`.
    AddMember { key: Seq<char>, member: Seq<char> },
    /// Remove `key` and what it holds.
    Delete { key: Seq<char> },
    /// Remove `member` from the set under `key`.
    RemoveMember { key: Seq<char>, member: Seq<char> },
    /// Ask for the string under `key`.
    Fetch { key: Seq<char> },
    /// Ask for the members common to the sets under all of `keys`.
    Intersect { keys: Seq<Seq<char>> },
    /// Ask for the keys that match `pattern`.
    ListKeys { pattern: Seq<char> },
}

impl Command {
    /// The words of the command as they go over the wire: its name, then
    /// its arguments, each in UTF-8.
    pub open spec fn args(self) -> Seq<Seq<u8>> {
        match self {
            Command::Store { key, value } => seq![
                encode_utf8(seq!['S', 'E', 'T']),
                encode_utf8(key),
                encode_utf8(value),
            ],
            Command::AddMember { key, member } => seq![
                encode_utf8(seq!['S', 'A', 'D', 'D']),
                encode_utf8(key),
                encode_utf8(member),
            ],
            Command::Delete { key } => seq![encode_utf8(seq!['D', 'E', 'L']), encode_utf8(key)],
            Command::RemoveMember { key, member } => seq![
                encode_utf8(seq!['S', 'R', 'E', 'M']),
                encode_utf8(key),
                encode_utf8(member),
            ],
            Command::Fetch { key } => seq![encode_utf8(seq!['G', 'E', 'T']), encode_utf8(key)],
            Command::Intersect { keys } => seq![encode_utf8(seq!['S', 'I', 'N', 'T', 'E', 'R'])]
                + keys.map_values(|k: Seq<char>| encode_utf8(k)),
            Command::ListKeys { pattern } => seq![
                encode_utf8(seq!['K', 'E', 'Y', 'S']),
                encode_utf8(pattern),
            ],
        }
    }

    /// The key that the command may change; none for a command that only
    /// asks.
    pub open spec fn target(self) -> Option<Seq<char>> {
        match self {
            Command::Store { key, .. } => Some(key),
            Command::AddMember { key, .. } => Some(key),
            Command::Delete { key } => Some(key),
            Command::RemoveMember { key, .. } => Some(key),
            _ => None,
        }
    }

    /// The backend's contents after the command. A set command on a key that
    /// holds a string is refused and changes nothing; a set that loses its
    /// last member disappears with its key.
    pub open spec fn apply(self, db: Database) -> Database {
        match self {
            Command::Store { key, value } => db.insert(key, Entry::Text(value)),
            Command::AddMember { key, member } => {
                if !db.contains_key(key) {
                    db.insert(key, Entry::Members(set![member]))
                } else {
                    match db[key] {
                        Entry::Members(s) => db.insert(key, Entry::Members(s.insert(member))),
                        Entry::Text(_) => db,
                    }
                }
            },
            Command::Delete { key } => db.remove(key),
            Command::RemoveMember { key, member } => {
                if !db.contains_key(key) {
                    db
                } else {
                    match db[key] {
                        Entry::Members(s) => {
                            if s.remove(member) =~= Set::empty() {
                                db.remove(key)
                            } else {
                                db.insert(key, Entry::Members(s.remove(member)))
                            }
                        },
                        Entry::Text(_) => db,
                    }
                }
            },
            _ => db,
        }
    }
}

/// The backend's contents after a batch of commands, applied in order.
pub open spec fn apply_all(db: Database, commands: Seq<Command>) -> Database
    decreases commands.len(),
{
    if commands.len() == 0 {
        db
    } else {
        commands.last().apply(apply_all(db, commands.drop_last()))
    }
}

/// The reply to `Fetch`: the string under `key`, if the key holds one.
pub open spec fn stored_text(db: Database, key: Seq<char>) -> Option<Seq<char>> {
    if db.contains_key(key) {
        match db[key] {
            Entry::Text(t) => Some(t),
            Entry::Members(_) => None,
        }
    } else {
        None
    }
}

/// The members of the set under `key`; none where the key does not exist
/// or holds a string.
pub open spec fn stored_members(db: Database, key: Seq<char>) -> Set<Seq<char>> {
    if db.contains_key(key) {
        match db[key] {
            Entry::Members(s) => s,
            Entry::Text(_) => Set::empty(),
        }
    } else {
        Set::empty()
    }
}

/// Whether the backend answers `Intersect` over `keys`: it refuses an empty
/// list of keys, and a key that holds a string.
pub open spec fn intersection_answered(db: Database, keys: Seq<Seq<char>>) -> bool {
    &&& keys.len() > 0
    &&& forall|i: int|
        0 <= i < keys.len() ==> stored_text(db, #[trigger] keys[i]) is None
}

/// The members that the sets under all of `keys` have in common.
pub open spec fn common_members(db: Database, keys: Seq<Seq<char>>) -> Set<Seq<char>> {
    Set::new(
        |m: Seq<char>|
            forall|i: int| 0 <= i < keys.len() ==> stored_members(db, #[trigger] keys[i]).contains(m),
    )
}

/// The reply to `Intersect`: the common members, or nothing where the backend
/// refuses.
pub open spec fn intersection_reply(db: Database, keys: Seq<Seq<char>>) -> Option<
    Set<Seq<char>>,
> {
    if intersection_answered(db, keys) {
        Some(common_members(db, keys))
    } else {
        None
    }
}

/// A batch in which no command targets `key` leaves what the backend holds
/// under `key` as it is.
pub proof fn lemma_untargeted_key_unchanged(db: Database, commands: Seq<Command>, key: Seq<char>)
    requires
        forall|i: int| 0 <= i < commands.len() ==> (#[trigger] commands[i]).target() != Some(key),
    ensures
        apply_all(db, commands).contains_key(key) == db.contains_key(key),
        db.contains_key(key) ==> apply_all(db, commands)[key] == db[key],
    decreases commands.len(),
{
    if commands.len() > 0 {
        let front = commands.drop_last();
        assert forall|i: int| 0 <= i < front.len() implies (#[trigger] front[i]).target() != Some(
            key,
        ) by {
            assert(front[i] == commands[i]);
        }
        lemma_untargeted_key_unchanged(db, front, key);
        assert(commands.last() == commands[commands.len() - 1]);
    }
}

/// A batch applied in two parts is the batch applied in one.
pub proof fn lemma_apply_all_concat(db: Database, first: Seq<Command>, second: Seq<Command>)
    ensures
        apply_all(db, first + second) == apply_all(apply_all(db, first), second),
    decreases second.len(),
{
    if second.len() == 0 {
        assert(first + second =~= first);
    } else {
        lemma_apply_all_concat(db, first, second.drop_last());
        assert((first + second).drop_last() =~= first + second.drop_last());
        assert((first + second).last() == second.last());
    }
}

/// The intersection over two lists of keys together holds what the
/// intersections over each list have in common.
pub proof fn lemma_common_members_concat(
    db: Database,
    first: Seq<Seq<char>>,
    second: Seq<Seq<char>>,
)
    ensures
        common_members(db, first + second) == common_members(db, first).intersect(
            common_members(db, second),
        ),
{
    let both = first + second;
    assert forall|m: Seq<char>|
        common_members(db, both).contains(m) <==> (common_members(db, first).contains(m)
            && common_members(db, second).contains(m)) by {
        if common_members(db, both).contains(m) {
            assert forall|i: int| 0 <= i < first.len() implies stored_members(
                db,
                #[trigger] first[i],
            ).contains(m) by {
                assert(both[i] == first[i]);
            }
            assert forall|i: int| 0 <= i < second.len() implies stored_members(
                db,
                #[trigger] second[i],
            ).contains(m) by {
                assert(both[first.len() + i] == second[i]);
            }
        }
        if common_members(db, first).contains(m) && common_members(db, second).contains(m) {
            assert forall|i: int| 0 <= i < both.len() implies stored_members(
                db,
                #[trigger] both[i],
            ).contains(m) by {
                if i < first.len() {
                    assert(both[i] == first[i]);
                } else {
                    assert(both[i] == second[i - first.len()]);
                }
            }
        }
    }
    assert(common_members(db, both) =~= common_members(db, first).intersect(
        common_members(db, second),
    ));
}

} // verus!
