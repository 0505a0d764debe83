//! What holds of every scan, proved of `scan_spec`, which `scan_lines`
//! computes.

use crate::model::MessageMetadataView;
use crate::pattern::{findings, ANNOTATION_PATTERN, DECLARATION_PATTERN};
use crate::scanner::{after_line, all_present, scan_from, scan_spec, start, ScanError, ScanView};
use vstd::prelude::*;

verus! {

/// The annotation pattern matches `text` once, with the identifier `id`.
pub open spec fn is_annotation(text: Seq<char>, id: Seq<char>) -> bool {
    findings(ANNOTATION_PATTERN@, text) == Some(seq![Some(id)])
}

/// The declaration pattern matches `text` once, with the name `name`.
pub open spec fn is_declaration(text: Seq<char>, name: Seq<char>) -> bool {
    findings(DECLARATION_PATTERN@, text) == Some(seq![Some(name)])
}

/// The annotation pattern does not match `text`.
pub open spec fn has_no_annotation(text: Seq<char>) -> bool {
    findings(ANNOTATION_PATTERN@, text) == Some(Seq::<Option<Seq<char>>>::empty())
}

/// The declaration pattern does not match `text`.
pub open spec fn has_no_declaration(text: Seq<char>) -> bool {
    findings(DECLARATION_PATTERN@, text) == Some(Seq::<Option<Seq<char>>>::empty())
}

/// Neither pattern matches any of the lines.
pub open spec fn all_unrelated(lines: Seq<Seq<char>>) -> bool {
    forall|i: int|
        0 <= i < lines.len() ==> has_no_annotation(#[trigger] lines[i]) && has_no_declaration(
            lines[i],
        )
}

/// One annotation with its declaration, and the unrelated lines before each
/// of the two.
pub struct PairedBlock {
    pub lead: Seq<Seq<char>>,
    pub annotation: Seq<char>,
    pub id: Seq<char>,
    pub gap: Seq<Seq<char>>,
    pub declaration: Seq<char>,
    pub name: Seq<char>,
}

impl PairedBlock {
    /// The two lines are what they are taken for, and no line before them is
    /// an annotation or a declaration.
    pub open spec fn well_formed(self) -> bool {
        &&& all_unrelated(self.lead)
        &&& is_annotation(self.annotation, self.id)
        &&& all_unrelated(self.gap)
        &&& is_declaration(self.declaration, self.name)
    }

    /// The lines of the block, in their order.
    pub open spec fn lines(self) -> Seq<Seq<char>> {
        self.lead.push(self.annotation) + self.gap.push(self.declaration)
    }

    /// The record that the block stands for.
    pub open spec fn record(self) -> MessageMetadataView {
        MessageMetadataView { name: self.name, id: self.id }
    }
}

/// The lines of the blocks, block after block.
pub open spec fn paired_lines(blocks: Seq<PairedBlock>) -> Seq<Seq<char>>
    decreases blocks.len(),
{
    if blocks.len() == 0 {
        Seq::empty()
    } else {
        paired_lines(blocks.drop_last()) + blocks.last().lines()
    }
}

/// The records of the blocks, in the order of the blocks.
pub open spec fn paired_records(blocks: Seq<PairedBlock>) -> Seq<MessageMetadataView> {
    Seq::new(blocks.len(), |i: int| blocks[i].record())
}

/// A scan of two parts is the scan of the second, entered in the state that
/// the first leaves.
proof fn lemma_scan_concat(state: ScanView, a: Seq<Seq<char>>, b: Seq<Seq<char>>, base: nat)
    ensures
        scan_from(state, a + b, base) == match scan_from(state, a, base) {
            Ok(s) => scan_from(s, b, base + a.len()),
            Err(e) => Err(e),
        },
    decreases b.len(),
{
    if b.len() > 0 {
        assert((a + b).drop_last() == a + b.drop_last());
        lemma_scan_concat(state, a, b.drop_last(), base);
    }
}

/// The scan of one line is the step over that line.
proof fn lemma_scan_one(state: ScanView, text: Seq<char>, base: nat)
    ensures
        scan_from(state, seq![text], base) == after_line(state, text, base as usize),
{
    let one = seq![text];
    assert(scan_from(state, one.drop_last(), base) == Ok::<ScanView, ScanError>(state));
}

/// An idle scanner passes over lines that hold no annotation.
proof fn lemma_idle_passes(state: ScanView, lines: Seq<Seq<char>>, base: nat)
    requires
        state.pending is None,
        forall|i: int| 0 <= i < lines.len() ==> has_no_annotation(#[trigger] lines[i]),
    ensures
        scan_from(state, lines, base) == Ok::<ScanView, ScanError>(state),
    decreases lines.len(),
{
    if lines.len() > 0 {
        lemma_idle_passes(state, lines.drop_last(), base);
    }
}

/// A waiting scanner passes over lines that hold no declaration.
proof fn lemma_waiting_passes(state: ScanView, lines: Seq<Seq<char>>, base: nat)
    requires
        state.pending is Some,
        forall|i: int| 0 <= i < lines.len() ==> has_no_declaration(#[trigger] lines[i]),
    ensures
        scan_from(state, lines, base) == Ok::<ScanView, ScanError>(state),
    decreases lines.len(),
{
    if lines.len() > 0 {
        lemma_waiting_passes(state, lines.drop_last(), base);
    }
}

/// An idle scanner leaves a well-formed block idle again, with one record
/// more.
proof fn lemma_block_adds_its_record(state: ScanView, block: PairedBlock, base: nat)
    requires
        state.pending is None,
        block.well_formed(),
    ensures
        scan_from(state, block.lines(), base) == Ok::<ScanView, ScanError>(
            ScanView { pending: None, messages: state.messages.push(block.record()) },
        ),
{
    let waiting = ScanView { pending: Some(block.id), messages: state.messages };
    let first = block.lead.push(block.annotation);
    let second = block.gap.push(block.declaration);

    assert(first == block.lead + seq![block.annotation]);
    lemma_scan_concat(state, block.lead, seq![block.annotation], base);
    lemma_idle_passes(state, block.lead, base);
    lemma_scan_one(state, block.annotation, base + block.lead.len());

    assert(second == block.gap + seq![block.declaration]);
    lemma_scan_concat(waiting, block.gap, seq![block.declaration], base + first.len());
    lemma_waiting_passes(waiting, block.gap, base + first.len());
    lemma_scan_one(waiting, block.declaration, base + first.len() + block.gap.len());

    lemma_scan_concat(state, first, second, base);
}

/// The scan of well-formed blocks ends idle, with the records of the blocks.
proof fn lemma_blocks_give_records(blocks: Seq<PairedBlock>)
    requires
        forall|i: int| 0 <= i < blocks.len() ==> (#[trigger] blocks[i]).well_formed(),
    ensures
        scan_from(start(), paired_lines(blocks), 0) == Ok::<ScanView, ScanError>(
            ScanView { pending: None, messages: paired_records(blocks) },
        ),
    decreases blocks.len(),
{
    if blocks.len() == 0 {
        assert(paired_records(blocks) == Seq::<MessageMetadataView>::empty());
    } else {
        let before = blocks.drop_last();
        let last = blocks.last();
        lemma_blocks_give_records(before);
        let state = ScanView { pending: None, messages: paired_records(before) };
        lemma_scan_concat(start(), paired_lines(before), last.lines(), 0);
        lemma_block_adds_its_record(state, last, paired_lines(before).len());
        assert(paired_records(before).push(last.record()) == paired_records(blocks));
    }
}

/// A file of annotations that are each followed by their declaration, with
/// lines between them that are neither, gives one record for each pair: in
/// the order of the declarations, each with the identifier of its pair.
pub proof fn lemma_pairs_give_their_records(blocks: Seq<PairedBlock>, tail: Seq<Seq<char>>)
    requires
        forall|i: int| 0 <= i < blocks.len() ==> (#[trigger] blocks[i]).well_formed(),
        all_unrelated(tail),
    ensures
        scan_spec(paired_lines(blocks) + tail) == Ok::<Seq<MessageMetadataView>, ScanError>(
            paired_records(blocks),
        ),
        paired_records(blocks).len() == blocks.len(),
{
    let state = ScanView { pending: None, messages: paired_records(blocks) };
    lemma_blocks_give_records(blocks);
    lemma_scan_concat(start(), paired_lines(blocks), tail, 0);
    lemma_idle_passes(state, tail, paired_lines(blocks).len());
}

/// An annotation that no declaration follows before the end of the file
/// gives no record and no error: the file scans as the lines before the
/// annotation do.
pub proof fn lemma_dangling_annotation_is_dropped(
    lines: Seq<Seq<char>>,
    state: ScanView,
    annotation: Seq<char>,
    id: Seq<char>,
    rest: Seq<Seq<char>>,
)
    requires
        scan_from(start(), lines, 0) == Ok::<ScanView, ScanError>(state),
        state.pending is None,
        is_annotation(annotation, id),
        forall|i: int| 0 <= i < rest.len() ==> has_no_declaration(#[trigger] rest[i]),
    ensures
        scan_spec(lines.push(annotation) + rest) == scan_spec(lines),
        scan_spec(lines) == Ok::<Seq<MessageMetadataView>, ScanError>(state.messages),
{
    let waiting = ScanView { pending: Some(id), messages: state.messages };
    assert(lines.push(annotation) == lines + seq![annotation]);
    lemma_scan_concat(start(), lines, seq![annotation], 0);
    lemma_scan_one(state, annotation, lines.len());
    lemma_scan_concat(start(), lines.push(annotation), rest, 0);
    lemma_waiting_passes(waiting, rest, lines.push(annotation).len());
}

/// A declaration that meets the slot empty is passed over: it gives no
/// record and no error, and the slot stays empty.
pub proof fn lemma_declaration_while_idle_is_ignored(
    lines: Seq<Seq<char>>,
    state: ScanView,
    declaration: Seq<char>,
    name: Seq<char>,
)
    requires
        scan_from(start(), lines, 0) == Ok::<ScanView, ScanError>(state),
        state.pending is None,
        is_declaration(declaration, name),
        has_no_annotation(declaration),
    ensures
        scan_from(start(), lines.push(declaration), 0) == Ok::<ScanView, ScanError>(state),
        scan_spec(lines.push(declaration)) == scan_spec(lines),
{
    assert(lines.push(declaration) == lines + seq![declaration]);
    lemma_scan_concat(start(), lines, seq![declaration], 0);
    lemma_scan_one(state, declaration, lines.len());
}

/// Whatever a line holds, it gives no record while the slot is empty.
pub proof fn lemma_idle_line_gives_no_record(
    lines: Seq<Seq<char>>,
    state: ScanView,
    text: Seq<char>,
)
    requires
        scan_from(start(), lines, 0) == Ok::<ScanView, ScanError>(state),
        state.pending is None,
    ensures
        scan_from(start(), lines.push(text), 0) matches Ok(after) ==> after.messages
            == state.messages,
{
    assert(lines.push(text).drop_last() == lines);
}

/// An annotation that meets the slot full is passed over: the identifier
/// that waits stays, and the new one is never read.
pub proof fn lemma_annotation_while_waiting_is_inert(
    lines: Seq<Seq<char>>,
    state: ScanView,
    annotation: Seq<char>,
    id: Seq<char>,
)
    requires
        scan_from(start(), lines, 0) == Ok::<ScanView, ScanError>(state),
        state.pending is Some,
        is_annotation(annotation, id),
        has_no_declaration(annotation),
    ensures
        scan_from(start(), lines.push(annotation), 0) == Ok::<ScanView, ScanError>(state),
{
    assert(lines.push(annotation) == lines + seq![annotation]);
    lemma_scan_concat(start(), lines, seq![annotation], 0);
    lemma_scan_one(state, annotation, lines.len());
}

/// The outcome of a scan is a function of the text: files with the same
/// lines have the same records, or fail with the same error.
pub proof fn lemma_same_lines_same_outcome(a: Seq<Seq<char>>, b: Seq<Seq<char>>)
    requires
        a.len() == b.len(),
        forall|i: int| 0 <= i < a.len() ==> a[i] == b[i],
    ensures
        scan_spec(a) == scan_spec(b),
{
    assert(a =~= b);
}

/// The identifier `id` was read from line `i`: the annotation pattern
/// matches that line, and `id` is what its last match holds.
pub open spec fn is_read_from(id: Seq<char>, lines: Seq<Seq<char>>, i: int) -> bool {
    &&& 0 <= i < lines.len()
    &&& findings(ANNOTATION_PATTERN@, lines[i]) matches Some(ids)
    &&& ids.len() > 0
    &&& all_present(ids)
    &&& ids.last() == Some(id)
}

/// The record pairs the annotation on line `i` with the declaration on line
/// `j`: its identifier is the one that the first holds last, and its name the
/// one that the second holds.
pub open spec fn is_pair_of(
    record: MessageMetadataView,
    lines: Seq<Seq<char>>,
    i: int,
    j: int,
) -> bool {
    &&& is_read_from(record.id, lines, i)
    &&& i < j < lines.len()
    &&& is_declaration(lines[j], record.name)
}

/// The record has its pair among the first `n` lines.
spec fn has_pair_before(record: MessageMetadataView, lines: Seq<Seq<char>>, n: int) -> bool {
    exists|i: int, j: int| j < n && #[trigger] is_pair_of(record, lines, i, j)
}

/// The identifier was read from one of the first `n` lines.
spec fn is_read_before(id: Seq<char>, lines: Seq<Seq<char>>, n: int) -> bool {
    exists|i: int| i < n && #[trigger] is_read_from(id, lines, i)
}

/// Between two lines, every record made has its pair among the lines read,
/// and so has the identifier that waits its annotation.
proof fn lemma_state_has_its_sources(lines: Seq<Seq<char>>, n: int, state: ScanView)
    requires
        0 <= n <= lines.len(),
        scan_from(start(), lines.take(n), 0) == Ok::<ScanView, ScanError>(state),
    ensures
        forall|k: int|
            0 <= k < state.messages.len() ==> has_pair_before(
                #[trigger] state.messages[k],
                lines,
                n,
            ),
        state.pending matches Some(id) ==> is_read_before(id, lines, n),
    decreases n,
{
    if n > 0 {
        assert(lines.take(n).drop_last() == lines.take(n - 1));
        let before = scan_from(start(), lines.take(n - 1), 0)->Ok_0;
        lemma_state_has_its_sources(lines, n - 1, before);
        match before.pending {
            None => {
                if state.pending is Some {
                    assert(is_read_from(state.pending->0, lines, n - 1));
                }
            },
            Some(id) => {
                if state.messages.len() > before.messages.len() {
                    let i = choose|i: int| i < n - 1 && #[trigger] is_read_from(id, lines, i);
                    let last = state.messages.len() - 1;
                    assert(findings(DECLARATION_PATTERN@, lines[n - 1])->0 =~= seq![
                        Some(state.messages[last].name),
                    ]);
                    assert(is_pair_of(state.messages[last], lines, i, n - 1));
                }
            },
        }
        assert forall|k: int| 0 <= k < state.messages.len() implies has_pair_before(
            #[trigger] state.messages[k],
            lines,
            n,
        ) by {
            if k < before.messages.len() {
                let (i, j) = choose|i: int, j: int|
                    j < n - 1 && #[trigger] is_pair_of(before.messages[k], lines, i, j);
                assert(is_pair_of(state.messages[k], lines, i, j));
            }
        }
    }
}

/// No record is made up: each record of a scan pairs an annotation of the
/// file with a declaration on a later line, and has the identifier of the
/// first and the name of the second.
pub proof fn lemma_every_record_has_its_pair(
    lines: Seq<Seq<char>>,
    records: Seq<MessageMetadataView>,
    k: int,
)
    requires
        scan_spec(lines) == Ok::<Seq<MessageMetadataView>, ScanError>(records),
        0 <= k < records.len(),
    ensures
        exists|i: int, j: int| #[trigger] is_pair_of(records[k], lines, i, j),
{
    assert(lines.take(lines.len() as int) == lines);
    let state = scan_from(start(), lines, 0)->Ok_0;
    lemma_state_has_its_sources(lines, lines.len() as int, state);
    assert(has_pair_before(state.messages[k], lines, lines.len() as int));
}

} // verus!
