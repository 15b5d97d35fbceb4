//! Storage: the keyed append log of entries. Each entry lives under a file
//! id; the live ids always form one contiguous interval. The directory-level
//! byte I/O sits outside this crate; storage here captures the logical
//! contract that the rest of the log is proved against: keyed by ordinal,
//! contiguous range, whole-entry removal.

use vstd::prelude::*;

use crate::model::{contains_id, empty_model, next_file_id, remove_spec, trim_front, wf_model, WalModel};
use crate::types::{WalEntry, WalError};

verus! {

/// The entry log. Entry `i` of `entries` is stored under file id
/// `first_id + i`.
#[derive(Debug)]
pub struct Storage {
    first_id: u64,
    entries: Vec<WalEntry>,
}

impl View for Storage {
    type V = WalModel;

    closed spec fn view(&self) -> WalModel {
        WalModel { first: self.first_id, entries: self.entries@.map_values(|e: WalEntry| e@) }
    }
}

impl Storage {
    /// Storage is well formed when its model is.
    pub open spec fn wf(&self) -> bool {
        wf_model(self@)
    }

    /// Creates an empty log.
    pub fn new() -> (r: Self)
        ensures
            r.wf(),
            r@ == empty_model(),
    {
        let s = Storage { first_id: 0, entries: Vec::new() };
        proof {
            assert(s@.entries =~= empty_model().entries);
            assert(s@ =~= empty_model());
        }
        s
    }

    /// The inclusive range of live file ids, or `None` if the log is empty.
    pub fn files_range(&self) -> (r: Option<(u64, u64)>)
        requires
            self.wf(),
        ensures
            self@.entries.len() == 0 ==> r is None,
            self@.entries.len() > 0 ==> r == Some(
                (self@.first, (self@.first + self@.entries.len() - 1) as u64),
            ),
    {
        if self.entries.len() == 0 {
            None
        } else {
            Some((self.first_id, self.first_id + (self.entries.len() - 1) as u64))
        }
    }

    /// Number of stored entries.
    pub fn len(&self) -> (r: usize)
        ensures
            r == self@.entries.len(),
    {
        self.entries.len()
    }

    /// Writes `entry` under `file_id`: overwrites a live id, appends at the
    /// next free id, and accepts any starting id on an empty log.
    ///
    /// The write itself cannot fail here; the `Result` mirrors the fallible
    /// durable medium this log models, and every error of that medium is
    /// surfaced, never swallowed.
    pub fn write_entry(&mut self, file_id: u64, entry: WalEntry) -> (r: Result<(), WalError>)
        requires
            old(self).wf(),
            entry.wf(),
            old(self)@.entries.len() > 0 && !contains_id(old(self)@, file_id) ==> file_id
                == next_file_id(old(self)@) && old(self)@.first + old(self)@.entries.len()
                <= u64::MAX,
        ensures
            r is Ok,
            final(self).wf(),
            old(self)@.entries.len() == 0 ==> final(self)@ == (WalModel {
                first: file_id,
                entries: seq![entry@],
            }),
            contains_id(old(self)@, file_id) ==> final(self)@ == (WalModel {
                first: old(self)@.first,
                entries: old(self)@.entries.update(file_id - old(self)@.first, entry@),
            }),
            old(self)@.entries.len() > 0 && !contains_id(old(self)@, file_id) ==> final(self)@
                == (WalModel {
                first: old(self)@.first,
                entries: old(self)@.entries.push(entry@),
            }),
    {
        if self.entries.len() == 0 {
            self.first_id = file_id;
            self.entries.push(entry);
            proof {
                assert(self@.entries =~= old(self)@.entries.push(entry@));
            }
        } else if file_id >= self.first_id && file_id - self.first_id < (
        self.entries.len() as u64) {
            let idx = (file_id - self.first_id) as usize;
            self.entries[idx] = entry;
            proof {
                assert(self@.entries =~= old(self)@.entries.update(
                    file_id - old(self)@.first,
                    entry@,
                ));
            }
        } else {
            self.entries.push(entry);
            proof {
                assert(self@.entries =~= old(self)@.entries.push(entry@));
            }
        }
        Ok(())
    }

    /// Reads the entry stored under `file_id`.
    pub fn read_entry(&self, file_id: u64) -> (r: Result<&WalEntry, WalError>)
        requires
            self.wf(),
        ensures
            contains_id(self@, file_id) ==> (r matches Ok(e) && e@ == self@.entries[file_id
                - self@.first]),
            !contains_id(self@, file_id) ==> r == Err::<&WalEntry, WalError>(WalError::NotFound),
    {
        if self.entries.len() > 0 && file_id >= self.first_id && file_id - self.first_id < (
        self.entries.len() as u64) {
            let idx = (file_id - self.first_id) as usize;
            Ok(&self.entries[idx])
        } else {
            Err(WalError::NotFound)
        }
    }

    /// Removes the single entry stored under `file_id`, which must be the
    /// oldest or the newest live entry: the live range never gets a hole.
    pub fn remove_entry(&mut self, file_id: u64) -> (r: Result<(), WalError>)
        requires
            old(self).wf(),
            contains_id(old(self)@, file_id) ==> file_id == old(self)@.first || file_id == old(
                self,
            )@.first + old(self)@.entries.len() - 1,
        ensures
            final(self).wf(),
            contains_id(old(self)@, file_id) ==> r is Ok && final(self)@ == remove_spec(
                old(self)@,
                file_id,
            ),
            !contains_id(old(self)@, file_id) ==> r == Err::<(), WalError>(WalError::NotFound)
                && final(self)@ == old(self)@,
    {
        if self.entries.len() == 0 || file_id < self.first_id || file_id - self.first_id >= (
        self.entries.len() as u64) {
            return Err(WalError::NotFound);
        }
        if self.entries.len() == 1 {
            self.entries.pop();
            self.first_id = 0;
            proof {
                assert(self@.entries =~= empty_model().entries);
                assert(self@ =~= empty_model());
            }
        } else if file_id == self.first_id {
            self.entries.remove(0);
            self.first_id = self.first_id + 1;
            proof {
                assert(self@.entries =~= remove_spec(old(self)@, file_id).entries);
                assert(self@ =~= remove_spec(old(self)@, file_id));
            }
        } else {
            self.entries.pop();
            proof {
                assert(self@.entries =~= remove_spec(old(self)@, file_id).entries);
                assert(self@ =~= remove_spec(old(self)@, file_id));
            }
        }
        Ok(())
    }

    /// Removes the contiguous inclusive id range `from..=to` in one logical
    /// operation and returns how many entries went; the range must reach the
    /// oldest or the newest live entry, so the live range never gets a hole.
    pub fn remove_entries(&mut self, from: u64, to: u64) -> (r: Result<usize, WalError>)
        requires
            old(self).wf(),
            from <= to,
            contains_id(old(self)@, from),
            contains_id(old(self)@, to),
            from == old(self)@.first || to == old(self)@.first + old(self)@.entries.len() - 1,
        ensures
            final(self).wf(),
            r matches Ok(n) && n == to - from + 1,
            from == old(self)@.first ==> final(self)@ == trim_front(
                old(self)@,
                to + 1 - old(self)@.first,
            ),
            from != old(self)@.first ==> final(self)@ == (WalModel {
                first: old(self)@.first,
                entries: old(self)@.entries.take(from - old(self)@.first),
            }),
    {
        let n = self.entries.len();
        proof {
            assert(to - from + 1 <= n);
        }
        let count = (to - from + 1) as usize;
        if from == self.first_id {
            let tail = self.entries.split_off(count);
            self.entries = tail;
            if self.entries.len() == 0 {
                self.first_id = 0;
                proof {
                    assert(self@.entries =~= empty_model().entries);
                    assert(self@ =~= trim_front(old(self)@, to + 1 - old(self)@.first));
                }
            } else {
                proof {
                    assert(to + 1 - old(self)@.first < old(self)@.entries.len());
                    assert(old(self)@.first + old(self)@.entries.len() <= u64::MAX + 1);
                }
                self.first_id = to + 1;
                proof {
                    assert(self@.entries =~= trim_front(
                        old(self)@,
                        to + 1 - old(self)@.first,
                    ).entries);
                    assert(self@ =~= trim_front(old(self)@, to + 1 - old(self)@.first));
                }
            }
        } else {
            let keep = (from - self.first_id) as usize;
            self.entries.truncate(keep);
            proof {
                assert(self@.entries =~= old(self)@.entries.take(from - old(self)@.first));
            }
        }
        Ok(count)
    }
}

} // verus!
