//! The table of birthdays, one row for each username.
//!
//! No username is held twice: writing a birthday under a name that the table
//! already holds replaces the birthday of that row, so that a lookup always
//! answers with the date written last. The mathematical model of the table
//! is therefore a map from username to date of birth.

use crate::calendar::Date;
use vstd::prelude::*;
use vstd::string::StringExecFns;

verus! {

/// The birthday of one user.
#[derive(Clone, Debug)]
pub struct BirthdayRecord {
    pub username: String,
    pub birthday: Date,
}

impl BirthdayRecord {
    /// A record is well formed when its username is not empty and its
    /// birthday is a well-formed date.
    pub open spec fn wf(&self) -> bool {
        self.username@.len() > 0 && self.birthday.wf()
    }
}

/// The table of birthdays, in the order in which the usernames were first
/// written.
#[derive(Clone, Debug)]
pub struct RecordStore {
    rows: Vec<BirthdayRecord>,
}

impl View for RecordStore {
    type V = Map<Seq<char>, Date>;

    /// The date of birth held for each username that the table has a row for.
    closed spec fn view(&self) -> Map<Seq<char>, Date> {
        Map::new(
            |name: Seq<char>| self.row_of(name) is Some,
            |name: Seq<char>| self.rows@[self.row_of(name).unwrap()].birthday,
        )
    }
}

impl RecordStore {
    /// The index of a row that holds `name`, where there is one.
    spec fn row_of(&self, name: Seq<char>) -> Option<int> {
        if exists|i: int| 0 <= i < self.rows@.len() && self.rows@[i].username@ == name {
            Some(choose|i: int| 0 <= i < self.rows@.len() && self.rows@[i].username@ == name)
        } else {
            None
        }
    }

    /// The table is well formed when every row is, and no two rows hold the
    /// same username.
    pub closed spec fn wf(&self) -> bool {
        &&& forall|i: int| 0 <= i < self.rows@.len() ==> (#[trigger] self.rows@[i]).wf()
        &&& forall|i: int, j: int|
            0 <= i < j < self.rows@.len()
                ==> (#[trigger] self.rows@[i]).username@ != (#[trigger] self.rows@[j]).username@
    }

    /// A table without rows.
    pub fn new() -> (store: RecordStore)
        ensures
            store.wf(),
            store@ == Map::<Seq<char>, Date>::empty(),
    {
        let store = RecordStore { rows: Vec::new() };
        assert(store@ =~= Map::<Seq<char>, Date>::empty());
        store
    }

    /// The index of the row that holds `name`, or the number of rows where
    /// no row holds it.
    fn position(&self, name: &String) -> (at: usize)
        requires
            self.wf(),
        ensures
            at <= self.rows@.len(),
            at < self.rows@.len() ==> self.rows@[at as int].username@ == name@,
            at == self.rows@.len() ==> forall|i: int|
                0 <= i < self.rows@.len() ==> (#[trigger] self.rows@[i]).username@ != name@,
    {
        let mut at: usize = 0;
        while at < self.rows.len()
            invariant
                at <= self.rows@.len(),
                forall|i: int| 0 <= i < at ==> (#[trigger] self.rows@[i]).username@ != name@,
            decreases self.rows@.len() - at,
        {
            if self.rows[at].username == *name {
                return at;
            }
            at += 1;
        }
        at
    }

    /// The record held for `name`, or `None` where the table holds none.
    pub fn find_by_username(&self, name: &str) -> (found: Option<&BirthdayRecord>)
        requires
            self.wf(),
        ensures
            found is Some <==> self@.contains_key(name@),
            found matches Some(record) ==> record.wf() && record.username@ == name@
                && record.birthday == self@[name@],
    {
        let key = String::from_str(name);
        let at = self.position(&key);
        if at < self.rows.len() {
            assert(self.row_of(name@) is Some);
            Some(&self.rows[at])
        } else {
            None
        }
    }

    /// Writes `record`: where the table holds a row for its username, that
    /// row takes the new birthday; otherwise the table gains a row.
    pub fn insert(&mut self, record: BirthdayRecord)
        requires
            old(self).wf(),
            record.wf(),
        ensures
            final(self).wf(),
            final(self)@ == old(self)@.insert(record.username@, record.birthday),
    {
        let ghost name = record.username@;
        let ghost birthday = record.birthday;
        let at = self.position(&record.username);
        if at < self.rows.len() {
            self.rows.set(at, record);
        } else {
            self.rows.push(record);
        }
        proof {
            let after = *self;
            let before = *old(self);
            assert forall|other: Seq<char>| other != name implies (after.row_of(other) is Some)
                == (before.row_of(other) is Some) by {
                if before.row_of(other) is Some {
                    let i = before.row_of(other).unwrap();
                    assert(after.rows@[i].username@ == other);
                }
                if after.row_of(other) is Some {
                    let i = after.row_of(other).unwrap();
                    assert(before.rows@[i].username@ == other);
                }
            }
            assert(after.rows@[at as int].username@ == name);
            assert(after@ =~= before@.insert(name, birthday));
        }
    }
}

} // verus!
