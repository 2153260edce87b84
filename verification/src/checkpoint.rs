//! Journal checkpoints: for each drive the journal and the position up to
//! which the journal has been read, kept as lines of text.

use vstd::prelude::*;
use crate::numbers::{
    decimal_digits, i64_of_text, i64_to_chars, int_text, parse_i64_chars, parse_u64_chars,
    u64_of_text, u64_to_chars,
};
use crate::text::{
    append_chars, join, join_chars, split_chars, split_on, string_of, to_chars, to_upper_char,
    upper_char, views,
};

verus! {

/// How far the journal of a drive has been read.
#[derive(Debug, Clone, Copy, PartialEq, Eq, Structural)]
pub struct UsnCheckpoint {
    pub drive: char,
    pub journal_id: u64,
    pub next_usn: i64,
}

/// The checkpoint that a line holds: the first character of its first
/// field as the drive, in upper case, and the numbers of its second and
/// third field. The fields are separated by commas; further fields are
/// ignored. A line whose first field is empty or whose numbers cannot be
/// read holds none.
pub open spec fn checkpoint_of_line(line: Seq<char>) -> Option<UsnCheckpoint> {
    let fields = split_on(line, ',');
    if fields.len() >= 3 && fields[0].len() > 0 && u64_of_text(fields[1]) is Some && i64_of_text(
        fields[2],
    ) is Some {
        Some(
            UsnCheckpoint {
                drive: upper_char(fields[0][0]),
                journal_id: u64_of_text(fields[1])->0,
                next_usn: i64_of_text(fields[2])->0,
            },
        )
    } else {
        None
    }
}

pub fn parse_checkpoint_line(line: &Vec<char>) -> (r: Option<UsnCheckpoint>)
    ensures
        r == checkpoint_of_line(line@),
{
    let fields = split_chars(line, ',');
    if fields.len() < 3 {
        return None;
    }
    assert(views(fields@)[0] == fields[0]@);
    assert(views(fields@)[1] == fields[1]@);
    assert(views(fields@)[2] == fields[2]@);
    if fields[0].len() == 0 {
        return None;
    }
    let journal_id = match parse_u64_chars(&fields[1]) {
        Some(v) => v,
        None => {
            return None;
        },
    };
    let next_usn = match parse_i64_chars(&fields[2]) {
        Some(v) => v,
        None => {
            return None;
        },
    };
    Some(UsnCheckpoint { drive: to_upper_char(fields[0][0]), journal_id, next_usn })
}

/// A piece of text as a line: without the carriage return before the line
/// feed that ended it.
pub open spec fn without_carriage_return(piece: Seq<char>) -> Seq<char> {
    if piece.len() > 0 && piece.last() == '\r' {
        piece.drop_last()
    } else {
        piece
    }
}

/// The lines among the first `n` pieces that line feeds cut a text into.
/// Every piece but the last was ended by a line feed and is a line, without
/// the carriage return at its end. The last piece is a line as it stands,
/// unless it is empty.
pub open spec fn lines_among(pieces: Seq<Seq<char>>, n: nat) -> Seq<Seq<char>>
    decreases n,
{
    if n == 0 || n > pieces.len() {
        Seq::empty()
    } else if n < pieces.len() {
        lines_among(pieces, (n - 1) as nat).push(without_carriage_return(pieces[n - 1]))
    } else if pieces[n - 1].len() > 0 {
        lines_among(pieces, (n - 1) as nat).push(pieces[n - 1])
    } else {
        lines_among(pieces, (n - 1) as nat)
    }
}

/// The lines of a text.
pub open spec fn lines_of(content: Seq<char>) -> Seq<Seq<char>> {
    lines_among(split_on(content, '\n'), split_on(content, '\n').len())
}

pub fn text_lines(content: &Vec<char>) -> (r: Vec<Vec<char>>)
    ensures
        views(r@) == lines_of(content@),
{
    let mut pieces = split_chars(content, '\n');
    let ghost all = views(pieces@);
    let n = pieces.len();
    let mut out: Vec<Vec<char>> = Vec::new();
    let mut i: usize = 0;
    assert(views(out@) =~= lines_among(all, 0));
    while i < n
        invariant
            i <= n,
            n == pieces.len(),
            n == all.len(),
            forall|k: int| i <= k < n ==> (#[trigger] pieces[k])@ == all[k],
            views(out@) == lines_among(all, i as nat),
        decreases n - i,
    {
        let mut piece: Vec<char> = Vec::new();
        core::mem::swap(&mut pieces[i], &mut piece);
        assert(piece@ == all[i as int]);
        let ghost before = views(out@);
        if i + 1 < n {
            if piece.len() > 0 && piece[piece.len() - 1] == '\r' {
                piece.pop();
                assert(piece@ =~= all[i as int].drop_last());
            }
            let ghost line = piece@;
            out.push(piece);
            assert(views(out@) =~= before.push(line));
        } else if piece.len() > 0 {
            let ghost line = piece@;
            out.push(piece);
            assert(views(out@) =~= before.push(line));
        }
        i += 1;
    }
    out
}

/// The checkpoint of a drive among the first `n` lines: that of the first
/// line which holds a checkpoint of the drive.
pub open spec fn first_checkpoint(lines: Seq<Seq<char>>, drive: char, from: int) -> Option<
    UsnCheckpoint,
>
    decreases lines.len() - from,
{
    if from < 0 || from >= lines.len() {
        None
    } else {
        match checkpoint_of_line(lines[from]) {
            Some(c) => if c.drive == upper_char(drive) {
                Some(c)
            } else {
                first_checkpoint(lines, drive, from + 1)
            },
            None => first_checkpoint(lines, drive, from + 1),
        }
    }
}

/// The checkpoint of a drive in the text of a checkpoint file. Lines that
/// hold no checkpoint are passed over.
pub fn load_usn_checkpoint(content: &str, drive: char) -> (r: Option<UsnCheckpoint>)
    ensures
        r == first_checkpoint(lines_of(content@), drive, 0),
{
    let chars = to_chars(content);
    let lines = text_lines(&chars);
    let key = to_upper_char(drive);
    let mut i: usize = 0;
    while i < lines.len()
        invariant
            i <= lines.len(),
            key == upper_char(drive),
            views(lines@) == lines_of(content@),
            first_checkpoint(lines_of(content@), drive, 0) == first_checkpoint(
                lines_of(content@),
                drive,
                i as int,
            ),
        decreases lines.len() - i,
    {
        assert(views(lines@)[i as int] == lines[i as int]@);
        match parse_checkpoint_line(&lines[i]) {
            Some(c) => {
                if c.drive == key {
                    return Some(c);
                }
            },
            None => {},
        }
        i += 1;
    }
    None
}

/// The position of the entry of a drive among the first `n` entries, or
/// `n` where there is none.
pub open spec fn entry_position(entries: Seq<UsnCheckpoint>, drive: char, n: nat) -> nat
    decreases n,
{
    if n == 0 || n > entries.len() {
        n
    } else if entry_position(entries, drive, (n - 1) as nat) < n - 1 {
        entry_position(entries, drive, (n - 1) as nat)
    } else if entries[n - 1].drive == drive {
        (n - 1) as nat
    } else {
        n
    }
}

/// A table with one more checkpoint: in place of the entry of the same
/// drive, or at the end where the drive has no entry.
pub open spec fn with_checkpoint(entries: Seq<UsnCheckpoint>, entry: UsnCheckpoint) -> Seq<
    UsnCheckpoint,
> {
    let at = entry_position(entries, entry.drive, entries.len());
    if at < entries.len() {
        entries.update(at as int, entry)
    } else {
        entries.push(entry)
    }
}

/// The table that the first `n` lines give: one entry for each drive, in
/// the order in which the drives first occur, each with the checkpoint of
/// the drive's last line. Lines that hold no checkpoint are dropped.
pub open spec fn table_of(lines: Seq<Seq<char>>, n: nat) -> Seq<UsnCheckpoint>
    decreases n,
{
    if n == 0 || n > lines.len() {
        Seq::empty()
    } else {
        match checkpoint_of_line(lines[n - 1]) {
            Some(c) => with_checkpoint(table_of(lines, (n - 1) as nat), c),
            None => table_of(lines, (n - 1) as nat),
        }
    }
}

/// Puts a checkpoint into a table.
pub fn put_checkpoint(entries: &mut Vec<UsnCheckpoint>, entry: UsnCheckpoint)
    ensures
        final(entries)@ == with_checkpoint(old(entries)@, entry),
{
    let mut i: usize = 0;
    while i < entries.len()
        invariant
            i <= entries.len(),
            entries@ == old(entries)@,
            entry_position(entries@, entry.drive, i as nat) == i,
        decreases entries.len() - i,
    {
        if entries[i].drive == entry.drive {
            proof {
                lemma_entry_position_found(entries@, entry.drive, i as nat, entries.len() as nat);
            }
            entries[i] = entry;
            return ;
        }
        i += 1;
    }
    entries.push(entry);
}

/// Once the entry of a drive is found, it stays the entry of the drive.
pub proof fn lemma_entry_position_found(entries: Seq<UsnCheckpoint>, drive: char, i: nat, n: nat)
    requires
        i < n <= entries.len(),
        entry_position(entries, drive, i) == i,
        entries[i as int].drive == drive,
    ensures
        entry_position(entries, drive, n) == i,
    decreases n,
{
    if n > i + 1 {
        lemma_entry_position_found(entries, drive, i, (n - 1) as nat);
    }
}

/// The line of a checkpoint: the drive, the journal and the position, with
/// commas between them.
pub open spec fn checkpoint_line(entry: UsnCheckpoint) -> Seq<char> {
    seq![entry.drive, ','] + decimal_digits(entry.journal_id as nat) + seq![','] + int_text(
        entry.next_usn as int,
    )
}

pub open spec fn checkpoint_lines(entries: Seq<UsnCheckpoint>) -> Seq<Seq<char>> {
    Seq::new(entries.len(), |i: int| checkpoint_line(entries[i]))
}

pub fn format_checkpoint_line(entry: &UsnCheckpoint) -> (r: Vec<char>)
    ensures
        r@ == checkpoint_line(*entry),
{
    let mut out: Vec<char> = Vec::new();
    out.push(entry.drive);
    out.push(',');
    assert(out@ =~= seq![entry.drive, ',']);
    let journal = u64_to_chars(entry.journal_id);
    append_chars(&mut out, &journal);
    out.push(',');
    let position = i64_to_chars(entry.next_usn);
    append_chars(&mut out, &position);
    assert(out@ =~= checkpoint_line(*entry));
    out
}

/// The text of a checkpoint file after a checkpoint has been put in: the
/// lines of the table that the old text gives, with the new checkpoint under
/// its drive in upper case, joined by line feeds.
pub open spec fn updated_checkpoints(
    content: Seq<char>,
    drive: char,
    journal_id: u64,
    next_usn: i64,
) -> Seq<char> {
    join(
        checkpoint_lines(
            with_checkpoint(
                table_of(lines_of(content), lines_of(content).len()),
                UsnCheckpoint { drive: upper_char(drive), journal_id, next_usn },
            ),
        ),
        seq!['\n'],
    )
}

/// The new text of the checkpoint file, given its old text and the
/// checkpoint to put in.
pub fn persist_usn_checkpoint(content: &str, drive: char, journal_id: u64, next_usn: i64) -> (r:
    String)
    ensures
        r@ == updated_checkpoints(content@, drive, journal_id, next_usn),
{
    let chars = to_chars(content);
    let lines = text_lines(&chars);
    let mut table: Vec<UsnCheckpoint> = Vec::new();
    let mut i: usize = 0;
    while i < lines.len()
        invariant
            i <= lines.len(),
            views(lines@) == lines_of(content@),
            table@ == table_of(lines_of(content@), i as nat),
        decreases lines.len() - i,
    {
        assert(views(lines@)[i as int] == lines[i as int]@);
        match parse_checkpoint_line(&lines[i]) {
            Some(c) => {
                put_checkpoint(&mut table, c);
            },
            None => {},
        }
        i += 1;
    }
    put_checkpoint(&mut table, UsnCheckpoint { drive: to_upper_char(drive), journal_id, next_usn });
    let mut out: Vec<Vec<char>> = Vec::new();
    let mut k: usize = 0;
    while k < table.len()
        invariant
            k <= table.len(),
            views(out@) == checkpoint_lines(table@).take(k as int),
        decreases table.len() - k,
    {
        let ghost before = views(out@);
        let line = format_checkpoint_line(&table[k]);
        let ghost text = line@;
        out.push(line);
        assert(views(out@) =~= before.push(text));
        k += 1;
        assert(views(out@) =~= checkpoint_lines(table@).take(k as int));
    }
    assert(checkpoint_lines(table@).take(table.len() as int) =~= checkpoint_lines(table@));
    let mut feed: Vec<char> = Vec::new();
    feed.push('\n');
    assert(feed@ =~= seq!['\n']);
    let joined = join_chars(&out, &feed);
    string_of(&joined)
}

/// What to do after the volume was opened again. With the journal that the
/// state was built from, and a position that still lies within the journal,
/// reading goes on at that position; otherwise the volume is enumerated
/// anew.
#[derive(Debug, Clone, Copy, PartialEq, Eq, Structural)]
pub enum RecoveryAction {
    Resume { next_usn: i64 },
    Reenumerate,
}

/// What the journal of a volume says of itself.
#[derive(Debug, Clone, Copy, PartialEq, Eq, Structural)]
pub struct JournalInfo {
    pub journal_id: u64,
    pub first_usn: i64,
    pub next_usn: i64,
}

/// The position at which reading would go on: the position of the state,
/// or that of the saved checkpoint where the checkpoint is of the same
/// journal and further on.
pub open spec fn resume_position(
    state_next_usn: i64,
    saved: Option<UsnCheckpoint>,
    journal: JournalInfo,
) -> i64 {
    match saved {
        Some(c) => if c.journal_id == journal.journal_id && c.next_usn > state_next_usn {
            c.next_usn
        } else {
            state_next_usn
        },
        None => state_next_usn,
    }
}

pub open spec fn recovery_for(
    state_journal_id: u64,
    state_next_usn: i64,
    saved: Option<UsnCheckpoint>,
    journal: JournalInfo,
) -> RecoveryAction {
    let position = resume_position(state_next_usn, saved, journal);
    if journal.journal_id == state_journal_id && journal.first_usn <= position && position
        <= journal.next_usn {
        RecoveryAction::Resume { next_usn: position }
    } else {
        RecoveryAction::Reenumerate
    }
}

pub fn plan_recovery(
    state_journal_id: u64,
    state_next_usn: i64,
    saved: Option<UsnCheckpoint>,
    journal: JournalInfo,
) -> (r: RecoveryAction)
    ensures
        r == recovery_for(state_journal_id, state_next_usn, saved, journal),
        r matches RecoveryAction::Resume { next_usn } ==> next_usn >= state_next_usn,
{
    let position = match saved {
        Some(c) => if c.journal_id == journal.journal_id && c.next_usn > state_next_usn {
            c.next_usn
        } else {
            state_next_usn
        },
        None => state_next_usn,
    };
    if journal.journal_id == state_journal_id && journal.first_usn <= position && position
        <= journal.next_usn {
        RecoveryAction::Resume { next_usn: position }
    } else {
        RecoveryAction::Reenumerate
    }
}

} // verus!
