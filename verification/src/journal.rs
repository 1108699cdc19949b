use crate::history::{item_check, items_view, validate_item, ActivePlay, HistoryCore, HistoryItem, HistoryItemView, InvalidItem, PersistedActive, MAX_HISTORY_ITEMS};
use std::collections::VecDeque;
use vstd::prelude::*;

verus! {

/// The byte that ends a journal line.
pub const NEWLINE: u8 = 10;

/// The bytes `u8::is_ascii_whitespace` accepts: space, tab, line feed,
/// form feed and carriage return.
pub open spec fn ascii_white_space(byte: u8) -> bool {
    byte == 32 || byte == 9 || byte == 10 || byte == 12 || byte == 13
}

/// A line that holds nothing but ASCII white space (or nothing at all).
pub open spec fn blank_line(line: Seq<u8>) -> bool {
    forall|k: int| 0 <= k < line.len() ==> ascii_white_space(#[trigger] line[k])
}

/// The pieces `bytes` splits into at each newline, as `[u8]::split` yields
/// them: an empty input is one empty piece, and a trailing newline ends in
/// an empty piece.
pub open spec fn pieces(bytes: Seq<u8>) -> Seq<Seq<u8>>
    decreases bytes.len(),
{
    if bytes.len() == 0 {
        seq![Seq::empty()]
    } else {
        let before = pieces(bytes.drop_last());
        if bytes.last() == NEWLINE {
            before.push(Seq::empty())
        } else {
            before.update(before.len() - 1, before.last().push(bytes.last()))
        }
    }
}

/// Every split of a byte string has at least one piece.
pub proof fn lemma_pieces_nonempty(bytes: Seq<u8>)
    ensures
        pieces(bytes).len() >= 1,
    decreases bytes.len(),
{
    if bytes.len() > 0 {
        lemma_pieces_nonempty(bytes.drop_last());
    }
}

/// The lines of a journal that hold anything: its pieces between newlines,
/// in order, without the blank ones.
pub open spec fn journal_lines_of(bytes: Seq<u8>) -> Seq<Seq<u8>> {
    pieces(bytes).filter(kept())
}

/// The lines worth reading: those that hold more than white space.
pub open spec fn kept() -> spec_fn(Seq<u8>) -> bool {
    |line: Seq<u8>| !blank_line(line)
}

/// The contents of a run of lines.
pub open spec fn line_views(lines: Seq<Vec<u8>>) -> Seq<Seq<u8>> {
    lines.map_values(|line: Vec<u8>| line@)
}

/// Whether one byte is ASCII white space.
fn is_ascii_white_space(byte: u8) -> (white: bool)
    ensures
        white == ascii_white_space(byte),
{
    byte == 32 || byte == 9 || byte == 10 || byte == 12 || byte == 13
}

/// Whether a line holds nothing but ASCII white space.
fn is_blank(line: &Vec<u8>) -> (blank: bool)
    ensures
        blank == blank_line(line@),
{
    let mut k: usize = 0;
    while k < line.len()
        invariant
            k <= line@.len(),
            forall|m: int| 0 <= m < k ==> ascii_white_space(#[trigger] line@[m]),
        decreases line.len() - k,
    {
        if !is_ascii_white_space(line[k]) {
            return false;
        }
        k = k + 1;
    }
    true
}

/// The journal's lines that hold anything, in order. Splitting on bytes
/// rather than decoding the file means a stranger's file need not even be
/// text to be judged.
pub fn journal_lines(bytes: &[u8]) -> (lines: Vec<Vec<u8>>)
    ensures
        line_views(lines@) == journal_lines_of(bytes@),
{
    let mut lines: Vec<Vec<u8>> = Vec::new();
    let mut current: Vec<u8> = Vec::new();
    let mut i: usize = 0;
    proof {
        assert(bytes@.subrange(0, 0) =~= Seq::<u8>::empty());
    }
    while i < bytes.len()
        invariant
            i <= bytes@.len(),
            pieces(bytes@.subrange(0, i as int)).len() >= 1,
            current@ == pieces(bytes@.subrange(0, i as int)).last(),
            line_views(lines@) == pieces(bytes@.subrange(0, i as int)).drop_last().filter(kept()),
        decreases bytes.len() - i,
    {
        let byte = bytes[i];
        let ghost before = pieces(bytes@.subrange(0, i as int));
        let ghost taken = bytes@.subrange(0, i + 1);
        proof {
            assert(taken.drop_last() =~= bytes@.subrange(0, i as int));
            assert(taken.last() == byte);
        }
        if byte == NEWLINE {
            let blank = is_blank(&current);
            let ghost old_lines = line_views(lines@);
            if !blank {
                let finished = current;
                lines.push(finished);
                proof {
                    assert(line_views(lines@) =~= old_lines.push(finished@));
                }
            }
            current = Vec::new();
            proof {
                let now = pieces(taken);
                assert(now == before.push(Seq::empty()));
                assert(now.drop_last() =~= before);
                reveal(Seq::filter);
                assert(before.filter(kept()) == (if kept()(before.last()) {
                    before.drop_last().filter(kept()).push(before.last())
                } else {
                    before.drop_last().filter(kept())
                }));
                assert(blank == blank_line(before.last()));
                assert(kept()(before.last()) == !blank_line(before.last()));
                if blank {
                    assert(line_views(lines@) == old_lines);
                } else {
                    assert(line_views(lines@) == old_lines.push(before.last()));
                }
                assert(line_views(lines@) == before.filter(kept()));
            }
        } else {
            current.push(byte);
            proof {
                let now = pieces(taken);
                assert(now =~= before.update(before.len() - 1, before.last().push(byte)));
                assert(now.drop_last() =~= before.drop_last());
            }
        }
        i = i + 1;
    }
    let ghost all = pieces(bytes@.subrange(0, i as int));
    proof {
        assert(bytes@.subrange(0, i as int) =~= bytes@);
        assert(all =~= all.drop_last().push(all.last()));
        reveal(Seq::filter);
        assert(all.drop_last().push(all.last()).drop_last() =~= all.drop_last());
    }
    let ghost old_lines = line_views(lines@);
    if !is_blank(&current) {
        let last = current;
        lines.push(last);
        proof {
            assert(line_views(lines@) =~= old_lines.push(last@));
        }
    }
    lines
}

/// How one journal line read.
pub enum LineReading {
    /// A row carrying this archive's format tag.
    Tagged(HistoryItem),
    /// A row without the tag, as an earlier build of this archive wrote
    /// them (or as anyone else's file might happen to parse).
    Untagged(HistoryItem),
    /// Not a row at all.
    Unreadable,
}

/// What the file at the journal's path turned out to be.
pub enum Journal {
    /// Written by this archive: its rows, and whether the final line was
    /// torn by a crash mid-append.
    Ours { finalized: VecDeque<HistoryItem>, torn_tail: bool },
    /// Not one line of it is this archive's.
    Foreign,
}

/// Why a journal of ours cannot be loaded.
#[derive(Clone, Copy, Debug, PartialEq, Eq, Structural)]
pub enum JournalError {
    /// A row this archive could not have written.
    Invalid(InvalidItem),
    /// A line before the last one that is not a row (numbered from one).
    Unparsable { line: usize },
}

/// Whether a line is evidence that the journal is ours: it carries the
/// tag, or it is an untagged row whose ids agree and that holds no
/// playback data.
pub open spec fn reading_is_ours(reading: LineReading) -> bool {
    match reading {
        LineReading::Tagged(_) => true,
        LineReading::Untagged(item) => item_check(item@) is Ok,
        LineReading::Unreadable => false,
    }
}

/// What is wrong with line `i`, if anything: a row that fails validation,
/// or an unreadable line that is not the last one.
pub open spec fn reading_fault(readings: Seq<LineReading>, i: int) -> Option<JournalError> {
    match readings[i] {
        LineReading::Tagged(item) => match item_check(item@) {
            Err(e) => Some(JournalError::Invalid(e)),
            Ok(_) => None,
        },
        LineReading::Untagged(item) => match item_check(item@) {
            Err(e) => Some(JournalError::Invalid(e)),
            Ok(_) => None,
        },
        LineReading::Unreadable => if i + 1 == readings.len() {
            None
        } else {
            Some(JournalError::Unparsable { line: (i + 1) as usize })
        },
    }
}

/// The rows of the lines that read as rows, in order.
pub open spec fn read_rows(readings: Seq<LineReading>) -> Seq<HistoryItemView>
    decreases readings.len(),
{
    if readings.len() == 0 {
        Seq::empty()
    } else {
        let before = read_rows(readings.drop_last());
        match readings.last() {
            LineReading::Tagged(item) => before.push(item@),
            LineReading::Untagged(item) => before.push(item@),
            LineReading::Unreadable => before,
        }
    }
}

/// Judges a journal line by line. An empty journal is ours and empty. One
/// none of whose lines is ours is foreign: no record to protect. Otherwise
/// the first damaged line decides the error, and only the final line may be
/// torn.
pub fn classify_journal(readings: Vec<LineReading>) -> (result: Result<Journal, JournalError>)
    ensures
        readings@.len() == 0 ==> (result matches Ok(Journal::Ours { finalized, torn_tail })
            && finalized@.len() == 0 && !torn_tail),
        readings@.len() > 0 && (forall|i: int|
            0 <= i < readings@.len() ==> !reading_is_ours(#[trigger] readings@[i])) ==> (
        result matches Ok(Journal::Foreign)),
        (exists|i: int| 0 <= i < readings@.len() && reading_is_ours(#[trigger] readings@[i]))
            ==> match result {
            Err(e) => exists|i: int|
                0 <= i < readings@.len() && #[trigger] reading_fault(readings@, i) == Some(e) && (
                forall|j: int| 0 <= j < i ==> #[trigger] reading_fault(readings@, j) is None),
            Ok(Journal::Ours { finalized, torn_tail }) => {
                &&& forall|i: int| 0 <= i < readings@.len() ==> #[trigger] reading_fault(readings@, i) is None
                &&& items_view(finalized@) == read_rows(readings@)
                &&& torn_tail == (readings@.last() is Unreadable)
            },
            Ok(Journal::Foreign) => false,
        },
{
    let count = readings.len();
    if count == 0 {
        return Ok(Journal::Ours { finalized: VecDeque::new(), torn_tail: false });
    }
    let mut any_ours = false;
    let mut k: usize = 0;
    while k < count
        invariant
            count == readings@.len(),
            k <= count,
            any_ours == exists|i: int| 0 <= i < k && reading_is_ours(#[trigger] readings@[i]),
        decreases count - k,
    {
        let ours = match &readings[k] {
            LineReading::Tagged(_) => true,
            LineReading::Untagged(item) => validate_item(item).is_ok(),
            LineReading::Unreadable => false,
        };
        proof {
            if ours {
                assert(reading_is_ours(readings@[k as int]));
            }
        }
        any_ours = any_ours || ours;
        k = k + 1;
    }
    if !any_ours {
        return Ok(Journal::Foreign);
    }
    let ghost all = readings@;
    let mut finalized: VecDeque<HistoryItem> = VecDeque::new();
    let mut torn_tail = false;
    let mut index: usize = 0;
    while index < count
        invariant
            count == all.len(),
            all == readings@,
            index <= count,
            forall|j: int| 0 <= j < index ==> #[trigger] reading_fault(all, j) is None,
            items_view(finalized@) == read_rows(all.subrange(0, index as int)),
            torn_tail == (index == count && all.last() is Unreadable),
            exists|i: int| 0 <= i < count && reading_is_ours(#[trigger] all[i]),
        decreases count - index,
    {
        proof {
            assert(all.subrange(0, index + 1).drop_last() =~= all.subrange(0, index as int));
        }
        let ghost before = finalized@;
        match &readings[index] {
            LineReading::Tagged(item) => {
                match validate_item(item) {
                    Err(e) => {
                        assert(reading_fault(all, index as int) == Some(JournalError::Invalid(e)));
                        return Err(JournalError::Invalid(e));
                    },
                    Ok(()) => {},
                }
                finalized.push_back(item.clone());
            },
            LineReading::Untagged(item) => {
                match validate_item(item) {
                    Err(e) => {
                        assert(reading_fault(all, index as int) == Some(JournalError::Invalid(e)));
                        return Err(JournalError::Invalid(e));
                    },
                    Ok(()) => {},
                }
                finalized.push_back(item.clone());
            },
            LineReading::Unreadable => {
                if index + 1 == count {
                    torn_tail = true;
                } else {
                    assert(reading_fault(all, index as int) == Some(
                        JournalError::Unparsable { line: (index + 1) as usize },
                    ));
                    return Err(JournalError::Unparsable { line: index + 1 });
                }
            },
        }
        proof {
            assert(items_view(finalized@) =~= read_rows(all.subrange(0, index + 1)));
        }
        index = index + 1;
    }
    proof {
        assert(all.subrange(0, count as int) =~= all);
    }
    Ok(Journal::Ours { finalized, torn_tail })
}

/// Two rows record the same play: the same track, started in the same
/// millisecond.
pub open spec fn same_play(a: HistoryItemView, b: HistoryItemView) -> bool {
    a.row.track_id == b.row.track_id && a.row.started_at == b.row.started_at
}

/// Whether `rows` already records the play `item`.
pub open spec fn recorded_in(rows: Seq<HistoryItemView>, item: HistoryItemView) -> bool {
    exists|k: int| 0 <= k < rows.len() && same_play(#[trigger] rows[k], item)
}

/// The imported rows that `rows` does not already record, in order.
pub open spec fn fresh_rows(rows: Seq<HistoryItemView>, imported: Seq<HistoryItemView>) -> Seq<HistoryItemView> {
    imported.filter(unrecorded(rows))
}

/// The rows `rows` does not record yet.
pub open spec fn unrecorded(rows: Seq<HistoryItemView>) -> spec_fn(HistoryItemView) -> bool {
    |item: HistoryItemView| !recorded_in(rows, item)
}

/// Importing the same rows a second time changes nothing: after one import
/// every imported play is recorded, so the second finds nothing fresh. This
/// is what makes an interrupted import safe to run again.
pub proof fn lemma_import_is_idempotent(rows: Seq<HistoryItemView>, imported: Seq<HistoryItemView>)
    ensures
        ({
            let once = fresh_rows(rows, imported) + rows;
            fresh_rows(once, imported) + once == once
        }),
{
    let fresh = fresh_rows(rows, imported);
    let once = fresh + rows;
    assert forall|i: int| 0 <= i < imported.len() implies recorded_in(once, #[trigger] imported[i]) by {
        let x = imported[i];
        if recorded_in(rows, x) {
            let k = choose|k: int| 0 <= k < rows.len() && same_play(#[trigger] rows[k], x);
            assert(once[fresh.len() + k] == rows[k]);
        } else {
            imported.lemma_filter_contains(unrecorded(rows), i);
            let j = choose|j: int| 0 <= j < fresh.len() && fresh[j] == x;
            assert(once[j] == x);
        }
    }
    let again = fresh_rows(once, imported);
    if again.len() > 0 {
        imported.lemma_filter_pred(unrecorded(once), 0);
        assert(again.contains(again[0]));
        imported.lemma_filter_contains_rev(unrecorded(once), again[0]);
        let i = choose|i: int| 0 <= i < imported.len() && imported[i] == again[0];
        assert(recorded_in(once, imported[i]));
    }
    assert(again + once =~= once);
}

/// Whether `item` records the same play as some row of `rows`.
fn is_recorded(rows: &VecDeque<HistoryItem>, item: &HistoryItem) -> (found: bool)
    ensures
        found == recorded_in(items_view(rows@), item@),
{
    let mut k: usize = 0;
    while k < rows.len()
        invariant
            k <= rows@.len(),
            forall|m: int| 0 <= m < k ==> !same_play(#[trigger] items_view(rows@)[m], item@),
        decreases rows.len() - k,
    {
        let row = &rows[k];
        if row.row.track_id == item.row.track_id && row.row.started_at == item.row.started_at {
            assert(same_play(items_view(rows@)[k as int], item@));
            return true;
        }
        k = k + 1;
    }
    false
}

/// Folds imported rows in front of the archive's, dropping those it already
/// records. Imported rows predate anything the journal holds.
pub fn merge_imported(finalized: &mut VecDeque<HistoryItem>, imported: Vec<HistoryItem>)
    ensures
        items_view(final(finalized)@) == fresh_rows(items_view(old(finalized)@), items_view(imported@))
            + items_view(old(finalized)@),
{
    let ghost rows = items_view(finalized@);
    let ghost incoming = items_view(imported@);
    let mut fresh: Vec<HistoryItem> = Vec::new();
    let mut k: usize = 0;
    while k < imported.len()
        invariant
            k <= imported@.len(),
            rows == items_view(finalized@),
            incoming == items_view(imported@),
            items_view(fresh@) == fresh_rows(rows, incoming.subrange(0, k as int)),
        decreases imported.len() - k,
    {
        let item = &imported[k];
        let known = is_recorded(finalized, item);
        let ghost before = fresh@;
        if !known {
            fresh.push(item.clone());
        }
        proof {
            let seen = incoming.subrange(0, k + 1);
            assert(seen.drop_last() =~= incoming.subrange(0, k as int));
            reveal(Seq::filter);
            if known {
                assert(items_view(fresh@) =~= items_view(before));
            } else {
                assert(items_view(fresh@) =~= items_view(before).push(item@));
            }
        }
        k = k + 1;
    }
    proof {
        assert(incoming.subrange(0, imported@.len() as int) =~= incoming);
    }
    let mut m: usize = fresh.len();
    while m > 0
        invariant
            m <= fresh@.len(),
            items_view(finalized@) == items_view(fresh@).subrange(m as int, fresh@.len() as int)
                + rows,
        decreases m,
    {
        m = m - 1;
        let ghost before = finalized@;
        finalized.push_front(fresh[m].clone());
        proof {
            assert(items_view(finalized@) =~= seq![fresh@[m as int]@] + items_view(before));
            assert(items_view(fresh@).subrange(m as int, fresh@.len() as int) =~= seq![
                fresh@[m as int]@,
            ] + items_view(fresh@).subrange(m + 1, fresh@.len() as int));
        }
    }
    proof {
        assert(items_view(fresh@).subrange(0, fresh@.len() as int) =~= items_view(fresh@));
    }
}

/// The in-progress play a sidecar restores, unless the archive's newest row
/// already records it (the journal is written first, so a crash between the
/// two writes leaves the play in both). A stored play is validated first.
pub fn sidecar_play(persisted: PersistedActive, finalized: &VecDeque<HistoryItem>) -> (result: Result<
    Option<ActivePlay>,
    InvalidItem,
>)
    ensures
        match item_check(persisted.item@) {
            Err(e) => result == Err::<Option<ActivePlay>, InvalidItem>(e),
            Ok(_) => result matches Ok(play) && if finalized@.len() > 0 && same_play(
                finalized@.last()@,
                persisted.item@,
            ) {
                play is None
            } else {
                play matches Some(p) && p.playing_since is None && p.persisted.item@
                    == persisted.item@ && p.persisted.duration_ms == persisted.duration_ms
            },
        },
{
    match validate_item(&persisted.item) {
        Err(e) => {
            return Err(e);
        },
        Ok(()) => {},
    }
    let count = finalized.len();
    if count > 0 {
        let last = &finalized[count - 1];
        if last.row.track_id == persisted.item.row.track_id && last.row.started_at
            == persisted.item.row.started_at {
            return Ok(None);
        }
    }
    Ok(Some(ActivePlay { persisted, playing_since: None }))
}

/// Where loading starts from the journal: its rows and whether the file
/// must be written back whole (a torn tail, or a foreign file replaced).
/// No journal at all is an empty archive that matches the disk.
pub fn loaded_journal(journal: Option<Journal>) -> (loaded: (VecDeque<HistoryItem>, bool))
    ensures
        match journal {
            None => loaded.0@.len() == 0 && !loaded.1,
            Some(Journal::Foreign) => loaded.0@.len() == 0 && loaded.1,
            Some(Journal::Ours { finalized, torn_tail }) => loaded.0@ == finalized@ && loaded.1
                == torn_tail,
        },
{
    match journal {
        None => (VecDeque::new(), false),
        Some(Journal::Foreign) => (VecDeque::new(), true),
        Some(Journal::Ours { finalized, torn_tail }) => (finalized, torn_tail),
    }
}

/// Cuts a loaded archive back to its newest `MAX_HISTORY_ITEMS` rows; a
/// cut archive no longer matches the disk and must be rewritten.
pub fn trim_loaded(finalized: &mut VecDeque<HistoryItem>, needs_rewrite: bool) -> (rewrite: bool)
    ensures
        old(finalized)@.len() <= MAX_HISTORY_ITEMS ==> final(finalized)@ == old(finalized)@
            && rewrite == needs_rewrite,
        old(finalized)@.len() > MAX_HISTORY_ITEMS ==> final(finalized)@ == old(finalized)@.subrange(
            old(finalized)@.len() - MAX_HISTORY_ITEMS,
            old(finalized)@.len() as int,
        ) && rewrite,
{
    if finalized.len() <= MAX_HISTORY_ITEMS {
        return needs_rewrite;
    }
    let ghost start = finalized@;
    while finalized.len() > MAX_HISTORY_ITEMS
        invariant
            finalized@.len() >= MAX_HISTORY_ITEMS,
            finalized@.len() <= start.len(),
            finalized@ == start.subrange(start.len() - finalized@.len(), start.len() as int),
        decreases finalized@.len(),
    {
        let ghost before = finalized@;
        finalized.pop_front();
        proof {
            let n = before.len() as int;
            let l = start.len() as int;
            assert(finalized@ =~= start.subrange(l - (n - 1), l));
        }
    }
    true
}

/// The single-snapshot format the journal replaced, once accepted.
pub struct LegacySnapshot {
    pub finalized: Vec<HistoryItem>,
    pub active: Option<PersistedActive>,
}

/// Why a snapshot is refused.
#[derive(Clone, Copy, Debug, PartialEq, Eq, Structural)]
pub enum SnapshotError {
    /// A format version other than the one this archive reads.
    UnsupportedVersion(u32),
    /// A row this archive could not have written.
    Invalid(InvalidItem),
}

/// The first row of a snapshot, its in-progress play last, that fails
/// validation, if any.
pub open spec fn first_invalid(rows: Seq<HistoryItemView>) -> Option<InvalidItem>
    decreases rows.len(),
{
    if rows.len() == 0 {
        None
    } else {
        match first_invalid(rows.drop_last()) {
            Some(e) => Some(e),
            None => match item_check(rows.last()) {
                Err(e) => Some(e),
                Ok(_) => None,
            },
        }
    }
}

/// The rows of a snapshot in the order they are checked: its archive, then
/// its in-progress play.
pub open spec fn snapshot_rows(finalized: Seq<HistoryItem>, active: Option<PersistedActive>) -> Seq<HistoryItemView> {
    match active {
        Some(a) => items_view(finalized).push(a.item@),
        None => items_view(finalized),
    }
}

/// Accepts a stored snapshot of format `version`: only version one is
/// read, and every row of it, the in-progress play included, must be one
/// this archive could have written.
pub fn accept_snapshot(version: u32, finalized: Vec<HistoryItem>, active: Option<PersistedActive>) -> (result:
    Result<LegacySnapshot, SnapshotError>)
    ensures
        version != 1 ==> result == Err::<LegacySnapshot, SnapshotError>(
            SnapshotError::UnsupportedVersion(version),
        ),
        version == 1 ==> match first_invalid(snapshot_rows(finalized@, active)) {
            Some(e) => result == Err::<LegacySnapshot, SnapshotError>(SnapshotError::Invalid(e)),
            None => result matches Ok(snapshot) && snapshot.finalized@ == finalized@
                && snapshot.active == active,
        },
{
    if version != 1 {
        return Err(SnapshotError::UnsupportedVersion(version));
    }
    let ghost all = snapshot_rows(finalized@, active);
    let mut k: usize = 0;
    while k < finalized.len()
        invariant
            k <= finalized@.len(),
            version == 1,
            all == snapshot_rows(finalized@, active),
            first_invalid(items_view(finalized@).subrange(0, k as int)) is None,
        decreases finalized.len() - k,
    {
        let ghost seen = items_view(finalized@).subrange(0, k + 1);
        proof {
            assert(seen.drop_last() =~= items_view(finalized@).subrange(0, k as int));
        }
        match validate_item(&finalized[k]) {
            Err(e) => {
                proof {
                    lemma_first_invalid_prefix(all, k + 1);
                    assert(all.subrange(0, k + 1) =~= seen);
                }
                return Err(SnapshotError::Invalid(e));
            },
            Ok(()) => {},
        }
        k = k + 1;
    }
    proof {
        assert(items_view(finalized@).subrange(0, finalized@.len() as int) =~= items_view(
            finalized@,
        ));
    }
    match &active {
        Some(a) => {
            proof {
                assert(all.drop_last() =~= items_view(finalized@));
            }
            match validate_item(&a.item) {
                Err(e) => {
                    return Err(SnapshotError::Invalid(e));
                },
                Ok(()) => {},
            }
        },
        None => {},
    }
    Ok(LegacySnapshot { finalized, active })
}

/// A failure within a prefix is the first failure of the whole.
pub proof fn lemma_first_invalid_prefix(rows: Seq<HistoryItemView>, n: int)
    requires
        0 <= n <= rows.len(),
        first_invalid(rows.subrange(0, n)) is Some,
    ensures
        first_invalid(rows) == first_invalid(rows.subrange(0, n)),
    decreases rows.len(),
{
    if n < rows.len() {
        assert(rows.drop_last().subrange(0, n) =~= rows.subrange(0, n));
        lemma_first_invalid_prefix(rows.drop_last(), n);
    } else {
        assert(rows.subrange(0, n) =~= rows);
    }
}

/// What one pass of the writer does to the journal.
pub enum JournalPlan {
    /// Nothing: the journal already holds every row.
    Unchanged,
    /// These rows go at the end of the journal.
    Append(Vec<HistoryItem>),
    /// The journal is replaced, whole, by these rows.
    Rewrite(Vec<HistoryItem>),
}

/// One pass of the writer: what goes on disk, and what its success may mark
/// as done. Both numbers are taken when the pass is planned, so anything
/// queued while the write is in flight stays queued.
pub struct WritePlan {
    /// The generation this pass writes.
    pub generation: u64,
    pub journal: JournalPlan,
    /// How many queued rows the journal write accounts for.
    pub covered: usize,
    /// The rewrite generation a whole-journal write puts on disk.
    pub rewrite: Option<u64>,
    /// The sidecar's new contents, or `None` to remove it.
    pub active: Option<PersistedActive>,
}

/// The rows a plan writes to the journal, and whether they replace it.
pub open spec fn plan_rows(plan: JournalPlan) -> Option<(Seq<HistoryItemView>, bool)> {
    match plan {
        JournalPlan::Unchanged => None,
        JournalPlan::Append(rows) => Some((items_view(rows@), false)),
        JournalPlan::Rewrite(rows) => Some((items_view(rows@), true)),
    }
}

/// Copies of a run of rows.
fn copy_rows(rows: &VecDeque<HistoryItem>) -> (copies: Vec<HistoryItem>)
    ensures
        items_view(copies@) == items_view(rows@),
{
    let mut copies: Vec<HistoryItem> = Vec::new();
    let mut k: usize = 0;
    while k < rows.len()
        invariant
            k <= rows@.len(),
            items_view(copies@) == items_view(rows@).subrange(0, k as int),
        decreases rows.len() - k,
    {
        let ghost before = copies@;
        let row = &rows[k];
        let copy = row.clone();
        copies.push(copy);
        proof {
            assert(copies@ == before.push(copy));
            assert(items_view(copies@) =~= items_view(before).push(rows@[k as int]@));
            assert(items_view(copies@) =~= items_view(rows@).subrange(0, k + 1));
        }
        k = k + 1;
    }
    proof {
        assert(items_view(rows@).subrange(0, rows@.len() as int) =~= items_view(rows@));
    }
    copies
}

impl HistoryCore {
    /// Plans the writer's next pass. When every requested generation has
    /// been attempted, the writer's slot is released and there is nothing
    /// to do. Otherwise the newest generation is marked attempted (so a
    /// failed write waits for the next event rather than spinning) and the
    /// pass writes: the whole archive when a rewrite is owed, else the
    /// queued rows, else nothing to the journal; and the sidecar.
    pub fn begin_write(&mut self) -> (plan: Option<WritePlan>)
        ensures
            final(self).finalized@ == old(self).finalized@,
            final(self).pending@ == old(self).pending@,
            final(self).active == old(self).active,
            final(self).mutation == old(self).mutation,
            final(self).rewrite_requested == old(self).rewrite_requested,
            final(self).rewrite_written == old(self).rewrite_written,
            final(self).requested_generation == old(self).requested_generation,
            final(self).written_generation == old(self).written_generation,
            old(self).requested_generation <= old(self).attempted_generation ==> {
                &&& plan is None
                &&& !final(self).worker_running
                &&& final(self).attempted_generation == old(self).attempted_generation
            },
            old(self).requested_generation > old(self).attempted_generation ==> {
                &&& final(self).worker_running == old(self).worker_running
                &&& final(self).attempted_generation == old(self).requested_generation
                &&& plan matches Some(p) && {
                    &&& p.generation == old(self).requested_generation
                    &&& if old(self).rewrite_requested != old(self).rewrite_written {
                        &&& plan_rows(p.journal) == Some((items_view(old(self).finalized@), true))
                        &&& p.rewrite == Some(old(self).rewrite_requested)
                        &&& p.covered == old(self).pending@.len()
                    } else if old(self).pending@.len() == 0 {
                        &&& p.journal is Unchanged
                        &&& p.rewrite is None
                        &&& p.covered == 0
                    } else {
                        &&& plan_rows(p.journal) == Some((items_view(old(self).pending@), false))
                        &&& p.rewrite is None
                        &&& p.covered == old(self).pending@.len()
                    }
                    &&& match old(self).active {
                        None => p.active is None,
                        Some(a) => p.active matches Some(q) && q.item@ == a.persisted.item@
                            && q.duration_ms == a.persisted.duration_ms,
                    }
                }
            },
    {
        if self.requested_generation <= self.attempted_generation {
            self.worker_running = false;
            return None;
        }
        self.attempted_generation = self.requested_generation;
        let (journal, rewrite) = if self.rewrite_requested != self.rewrite_written {
            (JournalPlan::Rewrite(copy_rows(&self.finalized)), Some(self.rewrite_requested))
        } else if self.pending.len() == 0 {
            (JournalPlan::Unchanged, None)
        } else {
            (JournalPlan::Append(copy_rows(&self.pending)), None)
        };
        let covered = match &journal {
            JournalPlan::Unchanged => 0,
            _ => self.pending.len(),
        };
        let active = match &self.active {
            Some(a) => Some(a.persisted.clone()),
            None => None,
        };
        Some(WritePlan { generation: self.requested_generation, journal, covered, rewrite, active })
    }

    /// Records that a planned pass reached the disk: its generation is
    /// written, the queued rows it covered leave the queue (rows queued
    /// since stay), and a rewrite it carried is on disk.
    pub fn complete_write(&mut self, plan: &WritePlan)
        ensures
            final(self).written_generation == plan.generation,
            final(self).pending@ == old(self).pending@.subrange(
                if plan.covered <= old(self).pending@.len() {
                    plan.covered as int
                } else {
                    old(self).pending@.len() as int
                },
                old(self).pending@.len() as int,
            ),
            final(self).rewrite_written == (match plan.rewrite {
                Some(r) => r,
                None => old(self).rewrite_written,
            }),
            final(self).finalized@ == old(self).finalized@,
            final(self).active == old(self).active,
            final(self).mutation == old(self).mutation,
            final(self).rewrite_requested == old(self).rewrite_requested,
            final(self).requested_generation == old(self).requested_generation,
            final(self).attempted_generation == old(self).attempted_generation,
            final(self).worker_running == old(self).worker_running,
    {
        self.written_generation = plan.generation;
        let ghost start = self.pending@;
        let mut popped: usize = 0;
        while popped < plan.covered
            invariant
                popped <= plan.covered,
                start == old(self).pending@,
                self.pending@ == start.subrange(
                    if popped <= start.len() {
                        popped as int
                    } else {
                        start.len() as int
                    },
                    start.len() as int,
                ),
                self.written_generation == plan.generation,
                self.finalized@ == old(self).finalized@,
                self.active == old(self).active,
                self.mutation == old(self).mutation,
                self.rewrite_requested == old(self).rewrite_requested,
                self.rewrite_written == old(self).rewrite_written,
                self.requested_generation == old(self).requested_generation,
                self.attempted_generation == old(self).attempted_generation,
                self.worker_running == old(self).worker_running,
            decreases plan.covered - popped,
        {
            let ghost before = self.pending@;
            self.pending.pop_front();
            proof {
                if before.len() > 0 {
                    assert(self.pending@ =~= before.subrange(1, before.len() as int));
                    assert(self.pending@ =~= start.subrange(popped + 1, start.len() as int));
                }
            }
            popped = popped + 1;
        }
        match plan.rewrite {
            Some(r) => {
                self.rewrite_written = r;
            },
            None => {},
        }
    }
}

/// A row queued while a write is in flight survives that write: the pass
/// covered only the rows queued when it was planned, so completing it
/// leaves exactly the later ones.
pub proof fn lemma_later_rows_stay_queued(planned: Seq<HistoryItem>, later: Seq<HistoryItem>)
    ensures
        (planned + later).subrange(planned.len() as int, (planned + later).len() as int) == later,
{
    assert((planned + later).subrange(planned.len() as int, (planned + later).len() as int) =~= later);
}

} // verus!
