//! Rotation logic of the output writer: the day-keyed file name, the
//! decision whether an alarm's date requires a fresh file, and the proofs
//! that a day boundary rotates exactly once and a run of same-day alarms
//! opens exactly one file.

use vstd::prelude::*;
use crate::date::{date_bytes, lemma_date_bytes_injective, UtcDate};

verus! {

/// `{prefix}-{YYYY-MM-DD}.jl`.
pub open spec fn file_name_bytes(prefix: Seq<u8>, d: UtcDate) -> Seq<u8> {
    prefix + seq![45u8] + date_bytes(d) + seq![46u8, 106u8, 108u8]
}

/// Whether a writer whose last file was keyed `key` must open a new file
/// for an alarm dated `d`: only when no file is open yet or the key is
/// stale.
pub open spec fn rotation_opens(key: Option<UtcDate>, d: UtcDate) -> bool {
    key != Some(d)
}

/// How many files a writer keyed `key` opens over the alarm dates `days`,
/// in order.
pub open spec fn opens_count(key: Option<UtcDate>, days: Seq<UtcDate>) -> nat
    decreases days.len(),
{
    if days.len() == 0 {
        0
    } else {
        (if rotation_opens(key, days[0]) {
            1nat
        } else {
            0nat
        }) + opens_count(Some(days[0]), days.drop_first())
    }
}

/// The naming and rotation-key state of the output writer; the open file
/// handle itself lives with the caller that performs the I/O.
pub struct OutputWriter {
    pub prefix: Vec<u8>,
    pub key: Option<UtcDate>,
}

impl OutputWriter {
    /// A writer with no file open yet.
    pub fn new(prefix: Vec<u8>) -> (w: Self)
        ensures
            w.prefix == prefix,
            w.key is None,
    {
        OutputWriter { prefix, key: None }
    }

    /// Decides rotation for an alarm dated `d`: returns the name of the
    /// file to open when one is owed (no file yet, or the rotation key is
    /// not `d`), and records `d` as the new key. Idempotent when the key
    /// already matches.
    pub fn ensure_open_for(&mut self, d: &UtcDate) -> (r: Option<Vec<u8>>)
        requires
            d.wf(),
        ensures
            final(self).key == Some(*d),
            final(self).prefix == old(self).prefix,
            r is Some <==> rotation_opens(old(self).key, *d),
            r matches Some(name) ==> name@ == file_name_bytes(old(self).prefix@, *d),
    {
        let stale = match &self.key {
            Some(k) => !(k.year == d.year && k.month == d.month && k.day == d.day),
            None => true,
        };
        if stale {
            let mut name: Vec<u8> = Vec::new();
            let mut j: usize = 0;
            while j < self.prefix.len()
                invariant
                    j <= self.prefix@.len(),
                    name@ == self.prefix@.take(j as int),
                decreases self.prefix@.len() - j,
            {
                let b = self.prefix[j];
                name.push(b);
                proof {
                    assert(name@ =~= self.prefix@.take(j + 1));
                }
                j = j + 1;
            }
            proof {
                assert(name@ =~= self.prefix@);
            }
            name.push(45);
            crate::date::push_date_bytes(&mut name, d);
            name.push(46);
            name.push(106);
            name.push(108);
            self.key = Some(*d);
            proof {
                assert(name@ =~= file_name_bytes(self.prefix@, *d));
            }
            Some(name)
        } else {
            self.key = Some(*d);
            None
        }
    }

    /// One persist step: decides rotation on the snapshot's own capture
    /// date — never on the clock at write time — and only then renders the
    /// line, so the line always belongs to the file current at that
    /// moment. Returns the file to open, if one is owed, and the rendered
    /// line.
    pub fn record_snapshot(&mut self, snap: &crate::model::HNTopStoriesSnap) -> (r: (
        Option<Vec<u8>>,
        Vec<u8>,
    ))
        requires
            snap.wf(),
        ensures
            final(self).key == Some(snap.t.date),
            final(self).prefix == old(self).prefix,
            r.0 is Some <==> rotation_opens(old(self).key, snap.t.date),
            r.0 matches Some(name) ==> name@ == file_name_bytes(old(self).prefix@, snap.t.date),
            r.1@ == crate::encode::snapshot_json(*snap),
    {
        let to_open = self.ensure_open_for(&snap.t.date);
        let line = crate::encode::encode_snapshot(snap);
        (to_open, line)
    }
}

proof fn lemma_same_day_run_opens_none(days: Seq<UtcDate>, d: UtcDate)
    requires
        forall|i: int| 0 <= i < days.len() ==> days[i] == d,
    ensures
        opens_count(Some(d), days) == 0,
    decreases days.len(),
{
    if days.len() > 0 {
        assert(days[0] == d);
        lemma_same_day_run_opens_none(days.drop_first(), d);
    }
}

/// No duplicate or lost rotation: over any run of consecutive alarms that
/// all fall on one calendar date, the writer opens a file exactly once —
/// immediately if none is open for that date yet, and never again.
pub proof fn lemma_single_open_per_day(key: Option<UtcDate>, days: Seq<UtcDate>, d: UtcDate)
    requires
        days.len() > 0,
        forall|i: int| 0 <= i < days.len() ==> days[i] == d,
    ensures
        opens_count(key, days) == if rotation_opens(key, d) {
            1nat
        } else {
            0nat
        },
{
    assert(days[0] == d);
    lemma_same_day_run_opens_none(days.drop_first(), d);
}

/// Rotation correctness at a day boundary: after writing under date `d1`,
/// an alarm dated `d2 != d1` rotates exactly once, and the file it opens
/// is named for `d2` — never the `d1` file, since distinct dates never
/// share a file name.
pub proof fn lemma_rotation_at_day_boundary(prefix: Seq<u8>, d1: UtcDate, d2: UtcDate)
    requires
        d1.wf(),
        d2.wf(),
        d1 != d2,
    ensures
        rotation_opens(Some(d1), d2),
        opens_count(Some(d1), seq![d2]) == 1,
        file_name_bytes(prefix, d2) != file_name_bytes(prefix, d1),
{
    assert(opens_count(Some(d1), seq![d2]) == 1) by {
        assert(seq![d2][0] == d2);
        lemma_single_open_per_day(Some(d1), seq![d2], d2);
    }
    if file_name_bytes(prefix, d2) == file_name_bytes(prefix, d1) {
        let n1 = file_name_bytes(prefix, d1);
        let n2 = file_name_bytes(prefix, d2);
        let p = prefix.len() as int;
        assert(date_bytes(d1) =~= n1.subrange(p + 1, p + 11));
        assert(date_bytes(d2) =~= n2.subrange(p + 1, p + 11));
        lemma_date_bytes_injective(d1, d2);
    }
}

} // verus!
