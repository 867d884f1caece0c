//! Diary entries and the store that keeps one entry per day, in date order.

use crate::date::{lemma_same_day, Date};
use crate::measure::{measured, Measurement};
use vstd::prelude::*;

verus! {

/// One day's record: free text and the measurements taken that day, if any.
#[derive(Debug, PartialEq, Eq)]
pub struct Entry {
    pub date: Date,
    pub content: String,
    pub weight_kg: Option<Measurement>,
    pub waist_cm: Option<Measurement>,
}

/// What an [`Entry`] holds, as mathematical values: the day as its Julian day number,
/// the text as a sequence of characters, each measurement in thousandths.
pub struct EntryView {
    pub date: int,
    pub content: Seq<char>,
    pub weight_kg: Option<nat>,
    pub waist_cm: Option<nat>,
}

impl EntryView {
    /// An entry with no text and no measurement records nothing.
    pub open spec fn is_empty(self) -> bool {
        self.content.len() == 0 && self.weight_kg is None && self.waist_cm is None
    }
}

impl View for Entry {
    type V = EntryView;

    open spec fn view(&self) -> EntryView {
        EntryView {
            date: self.date@,
            content: self.content@,
            weight_kg: measured(self.weight_kg),
            waist_cm: measured(self.waist_cm),
        }
    }
}

impl Clone for Entry {
    fn clone(&self) -> (r: Self)
        ensures
            r@ == self@,
            r.date == self.date,
            r.weight_kg == self.weight_kg,
            r.waist_cm == self.waist_cm,
    {
        Entry {
            date: self.date,
            content: self.content.clone(),
            weight_kg: self.weight_kg,
            waist_cm: self.waist_cm,
        }
    }
}

impl Entry {
    /// An entry for `date` with the given text and measurements.
    pub fn new(
        date: Date,
        content: String,
        weight_kg: Option<Measurement>,
        waist_cm: Option<Measurement>,
    ) -> (e: Entry)
        ensures
            e.date == date,
            e.content == content,
            e.weight_kg == weight_kg,
            e.waist_cm == waist_cm,
    {
        Entry { date, content, weight_kg, waist_cm }
    }

    /// Whether the entry records nothing: no text and no measurement.
    pub fn is_empty(&self) -> (b: bool)
        ensures
            b == self@.is_empty(),
    {
        self.content.as_str().is_empty() && self.weight_kg.is_none() && self.waist_cm.is_none()
    }
}

/// Dates strictly increase along the sequence, so no day occurs twice.
pub open spec fn sorted(s: Seq<EntryView>) -> bool {
    forall|i: int, j: int| 0 <= i < j < s.len() ==> s[i].date < s[j].date
}

/// The number of entries dated before `day`. In a sorted sequence these are its first
/// entries, so this is also the index at which an entry for `day` stands or belongs.
pub open spec fn rank(s: Seq<EntryView>, day: int) -> int
    decreases s.len(),
{
    if s.len() == 0 {
        0
    } else {
        rank(s.drop_last(), day) + if s.last().date < day {
            1int
        } else {
            0int
        }
    }
}

/// The entry of a sorted sequence that is dated `day`, if there is one.
pub open spec fn lookup(s: Seq<EntryView>, day: int) -> Option<EntryView> {
    let i = rank(s, day);
    if i < s.len() && s[i].date == day {
        Some(s[i])
    } else {
        None
    }
}

/// A sorted sequence after `e` was put into it: in the place of the entry of the same
/// day if there is one, else before the first entry of a later day.
pub open spec fn upserted(s: Seq<EntryView>, e: EntryView) -> Seq<EntryView> {
    let i = rank(s, e.date);
    if i < s.len() && s[i].date == e.date {
        s.update(i, e)
    } else {
        s.insert(i, e)
    }
}

/// The views of a run of entries.
pub open spec fn views(entries: Seq<Entry>) -> Seq<EntryView> {
    entries.map_values(|e: Entry| e@)
}

/// A sorted sequence after each entry of `added` was put into it, first to last.
pub open spec fn upserted_all(s: Seq<EntryView>, added: Seq<EntryView>) -> Seq<EntryView>
    decreases added.len(),
{
    if added.len() == 0 {
        s
    } else {
        upserted(upserted_all(s, added.drop_last()), added.last())
    }
}

/// In a sorted sequence, the index that splits the earlier days from `day` and the
/// later ones is the rank of `day`.
pub proof fn lemma_rank_is_split(s: Seq<EntryView>, day: int, i: int)
    requires
        sorted(s),
        0 <= i <= s.len(),
        forall|k: int| 0 <= k < i ==> s[k].date < day,
        forall|k: int| i <= k < s.len() ==> s[k].date >= day,
    ensures
        rank(s, day) == i,
    decreases s.len(),
{
    if s.len() > 0 {
        let t = s.drop_last();
        lemma_sorted_drop_last(s);
        assert forall|k: int| 0 <= k < t.len() implies t[k] == s[k] by {}
        if i == s.len() {
            lemma_rank_is_split(t, day, i - 1);
        } else {
            lemma_rank_is_split(t, day, i);
        }
    }
}

/// The rank of a day splits a sorted sequence: earlier days before it, the day itself
/// and later days from it on.
pub proof fn lemma_rank_splits(s: Seq<EntryView>, day: int)
    requires
        sorted(s),
    ensures
        0 <= rank(s, day) <= s.len(),
        forall|k: int| 0 <= k < rank(s, day) ==> s[k].date < day,
        forall|k: int| rank(s, day) <= k < s.len() ==> s[k].date >= day,
    decreases s.len(),
{
    if s.len() > 0 {
        let t = s.drop_last();
        lemma_sorted_drop_last(s);
        lemma_rank_splits(t, day);
        assert forall|k: int| 0 <= k < rank(s, day) implies s[k].date < day by {
            if k < t.len() {
                assert(t[k] == s[k]);
            }
        }
        assert forall|k: int| rank(s, day) <= k < s.len() implies s[k].date >= day by {
            if k < t.len() {
                assert(t[k] == s[k]);
            }
        }
    }
}

/// Dropping the last entry of a sorted sequence leaves a sorted sequence.
pub proof fn lemma_sorted_drop_last(s: Seq<EntryView>)
    requires
        sorted(s),
        s.len() > 0,
    ensures
        sorted(s.drop_last()),
{
}

/// A sorted sequence holds no day twice, and finding a day in it means finding the one
/// entry with that date.
pub proof fn lemma_lookup_finds(s: Seq<EntryView>, day: int)
    requires
        sorted(s),
    ensures
        forall|i: int, j: int|
            0 <= i < s.len() && 0 <= j < s.len() && i != j ==> s[i].date != s[j].date,
        forall|i: int| 0 <= i < s.len() && s[i].date == day ==> lookup(s, day) == Some(s[i]),
        lookup(s, day) matches Some(e) ==> e.date == day && s.contains(e),
        lookup(s, day) is None ==> forall|i: int| 0 <= i < s.len() ==> s[i].date != day,
{
    lemma_rank_splits(s, day);
}

/// Putting an entry into a sorted store leaves the store sorted.
pub proof fn lemma_upserted_sorted(s: Seq<EntryView>, e: EntryView)
    requires
        sorted(s),
    ensures
        sorted(upserted(s, e)),
        0 <= rank(s, e.date) <= s.len(),
        rank(upserted(s, e), e.date) == rank(s, e.date),
{
    let i = rank(s, e.date);
    let u = upserted(s, e);
    lemma_rank_splits(s, e.date);
    assert forall|a: int, b: int| 0 <= a < b < u.len() implies u[a].date < u[b].date by {
        if i < s.len() && s[i].date == e.date {
            assert(s[a].date < s[b].date);
        } else if b < i {
            assert(s[a].date < s[b].date);
        } else if b > i && a < i {
            assert(s[a].date < s[b - 1].date);
        } else if a > i {
            assert(s[a - 1].date < s[b - 1].date);
        }
    }
    lemma_rank_is_split(u, e.date, i);
}

/// Putting an entry in the place of the one of the same day changes the rank of no
/// day.
proof fn lemma_rank_after_replacing(s: Seq<EntryView>, e: EntryView, day: int)
    requires
        sorted(s),
        0 <= rank(s, e.date) < s.len(),
        s[rank(s, e.date)].date == e.date,
    ensures
        rank(upserted(s, e), day) == rank(s, day),
        day != e.date ==> lookup(upserted(s, e), day) == lookup(s, day),
{
    let u = upserted(s, e);
    let r = rank(s, day);
    lemma_upserted_sorted(s, e);
    lemma_rank_splits(s, day);
    assert forall|k: int| 0 <= k < u.len() implies u[k].date == s[k].date by {}
    lemma_rank_is_split(u, day, r);
    if day != e.date && r < s.len() && s[r].date == day {
        assert(u[r] == s[r]);
    }
}

/// Putting in an entry for a day that had none leaves the rank of every earlier day as
/// it was.
proof fn lemma_rank_before_inserted(s: Seq<EntryView>, e: EntryView, day: int)
    requires
        sorted(s),
        lookup(s, e.date) is None,
        day < e.date,
    ensures
        rank(upserted(s, e), day) == rank(s, day),
        rank(s, day) <= rank(s, e.date),
        lookup(upserted(s, e), day) == lookup(s, day),
{
    let i = rank(s, e.date);
    let r = rank(s, day);
    let u = upserted(s, e);
    lemma_upserted_sorted(s, e);
    lemma_rank_splits(s, e.date);
    lemma_rank_splits(s, day);
    if r > i {
        assert(s[i].date < day);
    }
    assert forall|k: int| 0 <= k < r implies u[k].date < day by {
        assert(u[k] == s[k]);
    }
    assert forall|k: int| r <= k < u.len() implies u[k].date >= day by {
        if k < i {
            assert(u[k] == s[k]);
        } else if k > i {
            assert(u[k] == s[k - 1]);
        }
    }
    lemma_rank_is_split(u, day, r);
    if r < i {
        assert(u[r] == s[r]);
    } else {
        assert(u[r] == e);
        assert(r < s.len() ==> s[r].date >= e.date);
    }
}

/// Putting in an entry for a day that had none raises the rank of every later day by
/// one.
proof fn lemma_rank_after_inserted(s: Seq<EntryView>, e: EntryView, day: int)
    requires
        sorted(s),
        lookup(s, e.date) is None,
        day > e.date,
    ensures
        rank(upserted(s, e), day) == rank(s, day) + 1,
        rank(s, day) >= rank(s, e.date),
        lookup(upserted(s, e), day) == lookup(s, day),
{
    let i = rank(s, e.date);
    let r = rank(s, day);
    let u = upserted(s, e);
    lemma_upserted_sorted(s, e);
    lemma_rank_splits(s, e.date);
    lemma_rank_splits(s, day);
    if r < i {
        assert(s[r].date < e.date);
    }
    assert forall|k: int| 0 <= k < r + 1 implies u[k].date < day by {
        if k < i {
            assert(u[k] == s[k]);
        } else if k > i {
            assert(u[k] == s[k - 1]);
        }
    }
    assert forall|k: int| r + 1 <= k < u.len() implies u[k].date >= day by {
        assert(u[k] == s[k - 1]);
    }
    lemma_rank_is_split(u, day, r + 1);
    if r < s.len() {
        assert(u[r + 1] == s[r]);
    }
}

/// Putting an entry into a sorted store leaves the store sorted, makes the entry the
/// one found for its day, and changes what is found for no other day.
pub proof fn lemma_upserted(s: Seq<EntryView>, e: EntryView, day: int)
    requires
        sorted(s),
    ensures
        sorted(upserted(s, e)),
        lookup(upserted(s, e), e.date) == Some(e),
        day != e.date ==> lookup(upserted(s, e), day) == lookup(s, day),
{
    let i = rank(s, e.date);
    lemma_upserted_sorted(s, e);
    if i < s.len() && s[i].date == e.date {
        lemma_rank_after_replacing(s, e, day);
    } else if day < e.date {
        lemma_rank_before_inserted(s, e, day);
    } else if day > e.date {
        lemma_rank_after_inserted(s, e, day);
    }
}

/// Putting the same entry in a second time changes nothing.
pub proof fn lemma_upserted_idempotent(s: Seq<EntryView>, e: EntryView)
    requires
        sorted(s),
    ensures
        upserted(upserted(s, e), e) == upserted(s, e),
{
    let u = upserted(s, e);
    lemma_upserted(s, e, e.date);
    lemma_rank_splits(u, e.date);
}

/// The last entry of `added` that is dated `day`, if there is one.
pub open spec fn latest(added: Seq<EntryView>, day: int) -> Option<EntryView>
    decreases added.len(),
{
    if added.len() == 0 {
        None
    } else if added.last().date == day {
        Some(added.last())
    } else {
        latest(added.drop_last(), day)
    }
}

/// Whatever entries are put into a sorted store, in whatever order, the store stays
/// sorted, and what it then holds for a day is the entry put in last for that day;
/// a day for which none was put in keeps what it had.
pub proof fn lemma_upserted_all(s: Seq<EntryView>, added: Seq<EntryView>, day: int)
    requires
        sorted(s),
    ensures
        sorted(upserted_all(s, added)),
        lookup(upserted_all(s, added), day) == match latest(added, day) {
            Some(e) => Some(e),
            None => lookup(s, day),
        },
    decreases added.len(),
{
    if added.len() > 0 {
        lemma_upserted_all(s, added.drop_last(), day);
        lemma_upserted(upserted_all(s, added.drop_last()), added.last(), day);
    }
}

/// Building a store from the entries of a sorted store gives that store back.
pub proof fn lemma_upserted_all_of_sorted(s: Seq<EntryView>)
    requires
        sorted(s),
    ensures
        upserted_all(Seq::empty(), s) == s,
    decreases s.len(),
{
    if s.len() > 0 {
        let t = s.drop_last();
        lemma_upserted_all_of_sorted(t);
        lemma_rank_is_split(t, s.last().date, t.len() as int);
    }
}

/// The store: at most one entry per day, kept in ascending order of date.
///
/// Its view is the sequence of its entries' views, which is [`sorted`] at all times.
#[derive(Debug, PartialEq, Eq)]
pub struct EntryStore {
    entries: Vec<Entry>,
}

impl View for EntryStore {
    type V = Seq<EntryView>;

    closed spec fn view(&self) -> Seq<EntryView> {
        views(self.entries@)
    }
}

impl EntryStore {
    #[verifier::type_invariant]
    spec fn in_order(self) -> bool {
        sorted(views(self.entries@))
    }

    /// A store with no entries.
    pub fn new() -> (store: EntryStore)
        ensures
            store@ == Seq::<EntryView>::empty(),
    {
        EntryStore { entries: Vec::new() }
    }

    /// The number of days that have an entry.
    pub fn len(&self) -> (n: usize)
        ensures
            n == self@.len(),
    {
        self.entries.len()
    }

    /// Whether the store has no entry at all.
    pub fn is_empty(&self) -> (b: bool)
        ensures
            b == (self@.len() == 0),
    {
        self.entries.len() == 0
    }

    /// The entries in ascending order of date.
    pub fn entries(&self) -> (all: &Vec<Entry>)
        ensures
            views(all@) == self@,
            sorted(self@),
    {
        proof {
            use_type_invariant(self);
        }
        &self.entries
    }

    /// The index of the first entry that is not dated before `day`.
    fn position(&self, day: i32) -> (i: usize)
        ensures
            i == rank(self@, day as int),
            i <= self@.len(),
            sorted(self@),
    {
        proof {
            use_type_invariant(self);
        }
        let ghost s = self@;
        let mut lo: usize = 0;
        let mut hi: usize = self.entries.len();
        while lo < hi
            invariant
                s == views(self.entries@),
                sorted(s),
                0 <= lo <= hi <= s.len(),
                forall|k: int| 0 <= k < lo ==> s[k].date < day,
                forall|k: int| hi <= k < s.len() ==> s[k].date >= day,
            decreases hi - lo,
        {
            let mid = lo + (hi - lo) / 2;
            if self.entries[mid].date.to_julian_day() < day {
                assert forall|k: int| 0 <= k < mid + 1 implies s[k].date < day by {
                    if k < mid {
                        assert(s[k].date < s[mid as int].date);
                    }
                }
                lo = mid + 1;
            } else {
                hi = mid;
            }
        }
        proof {
            lemma_rank_is_split(s, day as int, lo as int);
        }
        lo
    }

    /// The entry for the day with the given Julian day number, if the store has one.
    pub fn on_day(&self, julian_day: i32) -> (r: Option<&Entry>)
        ensures
            sorted(self@),
            match r {
                Some(e) => lookup(self@, julian_day as int) == Some(e@),
                None => lookup(self@, julian_day as int) is None,
            },
    {
        let i = self.position(julian_day);
        if i < self.entries.len() && self.entries[i].date.to_julian_day() == julian_day {
            Some(&self.entries[i])
        } else {
            None
        }
    }

    /// The entry for `date`, if the store has one.
    pub fn get(&self, date: Date) -> (r: Option<&Entry>)
        ensures
            sorted(self@),
            match r {
                Some(e) => lookup(self@, date@) == Some(e@) && e.date == date,
                None => lookup(self@, date@) is None,
            },
            r is Some <==> exists|i: int| 0 <= i < self@.len() && self@[i].date == date@,
    {
        let r = self.on_day(date.to_julian_day());
        proof {
            lemma_lookup_finds(self@, date@);
            if let Some(e) = r {
                lemma_same_day(e.date, date);
            }
        }
        r
    }

    /// Puts `entry` into the store. An entry already there for the same day is
    /// replaced; otherwise the new entry goes where its date belongs.
    pub fn upsert(&mut self, entry: Entry)
        ensures
            final(self)@ == upserted(old(self)@, entry@),
            sorted(old(self)@),
            sorted(final(self)@),
    {
        let day = entry.date.to_julian_day();
        let i = self.position(day);
        let ghost before = self@;
        proof {
            lemma_upserted(before, entry@, day as int);
        }
        // The entries leave the store while they are changed, and come back in order.
        let mut entries: Vec<Entry> = Vec::new();
        core::mem::swap(&mut self.entries, &mut entries);
        if i < entries.len() && entries[i].date.to_julian_day() == day {
            entries.set(i, entry);
            assert(views(entries@) =~= before.update(i as int, entry@));
        } else {
            entries.insert(i, entry);
            assert(views(entries@) =~= before.insert(i as int, entry@));
        }
        core::mem::swap(&mut self.entries, &mut entries);
    }

    /// A store built from entries in any order. Each is put in after the ones before
    /// it, so of several entries for one day the last one stays.
    pub fn from_entries(entries: Vec<Entry>) -> (store: EntryStore)
        ensures
            store@ == upserted_all(Seq::empty(), views(entries@)),
            sorted(store@),
    {
        let mut store = EntryStore::new();
        let mut i: usize = 0;
        while i < entries.len()
            invariant
                0 <= i <= entries.len(),
                store@ == upserted_all(Seq::empty(), views(entries@).take(i as int)),
                sorted(store@),
            decreases entries.len() - i,
        {
            let ghost done = views(entries@).take(i as int);
            let ghost next = views(entries@).take(i + 1);
            assert(next.drop_last() =~= done);
            store.upsert(entries[i].clone());
            i += 1;
        }
        assert(views(entries@).take(i as int) =~= views(entries@));
        store
    }
}

} // verus!
